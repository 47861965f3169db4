use vstd::prelude::*;
use vstd::std_specs::convert::FromSpecImpl;
use vstd::string::StringExecFns;
use crate::ast::ast::ASTNode;
use crate::ast::node::NodeID;

verus! {

/// What can go wrong while a call graph is built or walked.
#[derive(Debug)]
pub enum Error {
    /// Anything else, in words.
    Custom(String),
    WorkspaceCallGraphDFSError,
    CallgraphNotAvailable,
    /// The node given as an entry point is none.
    UnidentifiedEntryPointNode(ASTNode),
    /// No node is known under the identity given as an entry point.
    InvalidEntryPointId(NodeID),
    EntryPointVisitError,
    FunctionDefinitionVisitError,
    ModifierDefinitionVisitError,
}

impl From<String> for Error {
    fn from(value: String) -> (r: Self) {
        Error::Custom(value)
    }
}

impl FromSpecImpl<String> for Error {
    open spec fn obeys_from_spec() -> bool {
        true
    }

    open spec fn from_spec(value: String) -> Self {
        Error::Custom(value)
    }
}

impl Error {
    /// The error that says the given words.
    pub fn custom(value: &str) -> (r: Self)
        ensures
            r matches Error::Custom(text) && text@ == value@,
    {
        Error::Custom(String::from_str(value))
    }

    /// The words of a custom error.
    pub fn message(&self) -> (r: Option<&str>)
        ensures
            match r {
                Some(text) => self matches Error::Custom(t) && t@ == text@,
                None => !(self is Custom),
            },
    {
        match self {
            Error::Custom(text) => Some(text.as_str()),
            _ => None,
        }
    }
}

} // verus!
