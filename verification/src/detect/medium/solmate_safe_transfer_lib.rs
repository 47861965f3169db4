use vstd::prelude::*;
use vstd::string::StringExecFns;
use crate::ast::ast_nodes::ImportDirective;
use crate::text::{occurs_in, str_contains};
use vstd::utf8::encode_utf8;
use crate::ast::node::NodeID;
use crate::context::workspace_context::WorkspaceContext;
use crate::detect::detector::{capture_flagged, copy_of, each_once, DetectionError, IssueSeverity};

verus! {

/// The import names a path that holds both `solmate` and
/// `SafeTransferLib`.
pub open spec fn imports_safe_transfer_lib(import: ImportDirective) -> bool {
    match import.absolute_path {
        Some(path) => occurs_in(encode_utf8(path@), encode_utf8("solmate"@)) && occurs_in(
            encode_utf8(path@),
            encode_utf8("SafeTransferLib"@),
        ),
        None => false,
    }
}

/// Whether the import names the safe transfer library of solmate. An
/// import without an absolute path names nothing.
pub fn is_safe_transfer_lib_import(import: &ImportDirective) -> (r: bool)
    ensures
        r == imports_safe_transfer_lib(*import),
{
    match &import.absolute_path {
        Some(path) => str_contains(path.as_str(), "solmate") && str_contains(
            path.as_str(),
            "SafeTransferLib",
        ),
        None => false,
    }
}


/// Finds the imports of the safe transfer library of solmate.
pub struct SolmateSafeTransferLibDetector {
    /// The identities of the nodes found, each once.
    pub found_instances: Vec<NodeID>,
}

impl Default for SolmateSafeTransferLibDetector {
    fn default() -> (r: Self)
        ensures
            r.wf(),
            r.found_instances@.len() == 0,
    {
        SolmateSafeTransferLibDetector { found_instances: Vec::new() }
    }
}

impl SolmateSafeTransferLibDetector {
    /// No finding is noted twice.
    pub open spec fn wf(&self) -> bool {
        self.found_instances@.no_duplicates()
    }

    /// Tells whether the detector is fit to look at a workspace: whether
    /// none of its findings is held twice.
    pub fn is_wf(&self) -> (r: bool)
        ensures
            r == self.wf(),
    {
        each_once(&self.found_instances)
    }

    /// Looks at every import directive of the workspace and notes those that
    /// name the safe transfer library of solmate. Tells whether anything is noted.
    pub fn detect(&mut self, context: &WorkspaceContext) -> (r: Result<bool, DetectionError>)
        requires
            old(self).wf(),
        ensures
            final(self).wf(),
            r == Ok::<bool, DetectionError>(final(self).found_instances@.len() > 0),
            forall|id: NodeID|
                final(self).found_instances@.contains(id) <==> old(self).found_instances@.contains(
                    id,
                ) || exists|i: int|
                    0 <= i < context.import_directives@.len() && imports_safe_transfer_lib(*#[trigger] context.import_directives@[i])
                        && context.import_directives@[i].id == id,
    {
        let mut ids: Vec<NodeID> = Vec::new();
        let mut flags: Vec<bool> = Vec::new();
        let n = context.import_directives.len();
        let mut i: usize = 0;
        while i < n
            invariant
                i <= n,
                n == context.import_directives@.len(),
                ids@.len() == i,
                flags@.len() == i,
                forall|j: int|
                    #![trigger ids@[j]]
                    #![trigger flags@[j]]
                    0 <= j < i ==> ids@[j] == context.import_directives@[j].id && flags@[j]
                        == imports_safe_transfer_lib(*context.import_directives@[j]),
            decreases n - i,
        {
            let item = context.import_directives[i];
            let ghost ids0 = ids@;
            let ghost flags0 = flags@;
            ids.push(item.id);
            flags.push(is_safe_transfer_lib_import(item));
            proof {
                assert forall|j: int|
                    #![trigger ids@[j]]
                    #![trigger flags@[j]]
                    0 <= j < i + 1 implies ids@[j] == context.import_directives@[j].id && flags@[j]
                    == imports_safe_transfer_lib(*context.import_directives@[j]) by {
                    if j < i {
                        assert(ids@[j] == ids0[j]);
                        assert(flags@[j] == flags0[j]);
                    }
                }
            }
            i += 1;
        }
        capture_flagged(&mut self.found_instances, &ids, &flags);
        proof {
            assert forall|id: NodeID|
                self.found_instances@.contains(id) <==> old(self).found_instances@.contains(id)
                    || exists|i: int|
                    0 <= i < context.import_directives@.len() && imports_safe_transfer_lib(*#[trigger] context.import_directives@[i])
                        && context.import_directives@[i].id == id by {
                if exists|j: int| 0 <= j < ids@.len() && flags@[j] && #[trigger] ids@[j] == id {
                    let j = choose|j: int| 0 <= j < ids@.len() && flags@[j] && #[trigger] ids@[j] == id;
                    assert(imports_safe_transfer_lib(*context.import_directives@[j])
                        && context.import_directives@[j].id == id);
                }
                if exists|i: int|
                    0 <= i < context.import_directives@.len() && imports_safe_transfer_lib(*#[trigger] context.import_directives@[i])
                        && context.import_directives@[i].id == id {
                    let i = choose|i: int|
                        0 <= i < context.import_directives@.len() && imports_safe_transfer_lib(*#[trigger] context.import_directives@[i])
                            && context.import_directives@[i].id == id;
                    assert(flags@[i] && ids@[i] == id);
                }
            }
        }
        Ok(self.found_instances.len() > 0)
    }

    /// The severity of the findings.
    pub fn severity(&self) -> (r: IssueSeverity)
        ensures
            r == IssueSeverity::Medium,
    {
        IssueSeverity::Medium
    }

    /// The title of the findings.
    pub fn title(&self) -> (r: String)
        ensures
            r@ == "Solmate's SafeTransferLib does not check for token contract's existence"@,
    {
        String::from_str("Solmate's SafeTransferLib does not check for token contract's existence")
    }

    /// What the findings mean.
    pub fn description(&self) -> (r: String)
        ensures
            r@ == "There is a subtle difference between the implementation of solmate's SafeTransferLib and OZ's SafeERC20: OZ's SafeERC20 checks if the token is a contract or not, solmate's SafeTransferLib does not.\nhttps://github.com/transmissions11/solmate/blob/main/src/utils/SafeTransferLib.sol#L9 \n`@dev Note that none of the functions in this library check that a token has code at all! That responsibility is delegated to the caller`\n"@,
    {
        String::from_str("There is a subtle difference between the implementation of solmate's SafeTransferLib and OZ's SafeERC20: OZ's SafeERC20 checks if the token is a contract or not, solmate's SafeTransferLib does not.\nhttps://github.com/transmissions11/solmate/blob/main/src/utils/SafeTransferLib.sol#L9 \n`@dev Note that none of the functions in this library check that a token has code at all! That responsibility is delegated to the caller`\n")
    }

    /// The identities of the nodes found, in the order in which they were
    /// found.
    pub fn instances(&self) -> (r: Vec<NodeID>)
        ensures
            r@ == self.found_instances@,
    {
        copy_of(&self.found_instances)
    }

    /// The name of the detector.
    pub fn name(&self) -> (r: String)
        ensures
            r@ == "solmate-safe-transfer-lib"@,
    {
        String::from_str("solmate-safe-transfer-lib")
    }
}

} // verus!
