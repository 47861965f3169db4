use vstd::prelude::*;

verus! {

/// The three families of control-flow nodes.
#[derive(Clone, Copy, Debug, PartialEq, Eq, Hash, Structural)]
pub enum CfgNodeKind {
    /// A structural sentinel without a source statement of its own.
    Void,
    /// One indivisible program point.
    Primitive,
    /// A compound construct that is still to be expanded.
    Reducible,
}

} // verus!
