use vstd::prelude::*;
use vstd::string::StringExecFns;
use crate::ast::ast_nodes::{FunctionDefinition, FunctionKind, Identifier, Visibility};
use crate::ast::node::NodeID;
use crate::context::workspace_context::WorkspaceContext;
use crate::detect::detector::{capture_flagged, copy_of, each_once, DetectionError, IssueSeverity};

verus! {

/// Some identifier of the list refers to the declaration with the given
/// identity.
pub open spec fn referred_to(identifiers: Seq<&Identifier>, id: NodeID) -> bool {
    exists|i: int|
        0 <= i < identifiers.len() && (#[trigger] identifiers[i]).referenced_declaration == Some(id)
}

/// The function is public, is no constructor, and no identifier of the
/// workspace refers to it.
pub open spec fn needlessly_public(context: &WorkspaceContext, function: FunctionDefinition) -> bool {
    &&& function.visibility == Visibility::Public
    &&& function.kind != Some(FunctionKind::Constructor)
    &&& !referred_to(context.identifiers@, function.id)
}

/// Whether some identifier of the workspace refers to the declaration
/// with the given identity.
pub fn is_referred_to(context: &WorkspaceContext, id: NodeID) -> (r: bool)
    ensures
        r == referred_to(context.identifiers@, id),
{
    let n = context.identifiers.len();
    let mut i: usize = 0;
    while i < n
        invariant
            i <= n,
            n == context.identifiers@.len(),
            forall|j: int|
                0 <= j < i ==> (#[trigger] context.identifiers@[j]).referenced_declaration != Some(
                    id,
                ),
        decreases n - i,
    {
        if let Some(r) = context.identifiers[i].referenced_declaration {
            if r == id {
                return true;
            }
        }
        i += 1;
    }
    false
}

/// Whether the function is public without need.
pub fn is_needlessly_public(context: &WorkspaceContext, function: &FunctionDefinition) -> (r: bool)
    ensures
        r == needlessly_public(context, *function),
{
    let public = match function.visibility {
        Visibility::Public => true,
        _ => false,
    };
    let constructor = match function.kind {
        Some(FunctionKind::Constructor) => true,
        _ => false,
    };
    public && !constructor && !is_referred_to(context, function.id)
}


/// Finds the public functions that nothing in the workspace refers to.
pub struct UselessPublicFunctionDetector {
    /// The identities of the nodes found, each once.
    pub found_instances: Vec<NodeID>,
}

impl Default for UselessPublicFunctionDetector {
    fn default() -> (r: Self)
        ensures
            r.wf(),
            r.found_instances@.len() == 0,
    {
        UselessPublicFunctionDetector { found_instances: Vec::new() }
    }
}

impl UselessPublicFunctionDetector {
    /// No finding is noted twice.
    pub open spec fn wf(&self) -> bool {
        self.found_instances@.no_duplicates()
    }

    /// Tells whether the detector is fit to look at a workspace: whether
    /// none of its findings is held twice.
    pub fn is_wf(&self) -> (r: bool)
        ensures
            r == self.wf(),
    {
        each_once(&self.found_instances)
    }

    /// Looks at every function definition of the workspace and notes the
    /// public ones, constructors apart, that no identifier refers to. Tells whether anything is noted.
    pub fn detect(&mut self, context: &WorkspaceContext) -> (r: Result<bool, DetectionError>)
        requires
            old(self).wf(),
        ensures
            final(self).wf(),
            r == Ok::<bool, DetectionError>(final(self).found_instances@.len() > 0),
            forall|id: NodeID|
                final(self).found_instances@.contains(id) <==> old(self).found_instances@.contains(
                    id,
                ) || exists|i: int|
                    0 <= i < context.function_definitions@.len() && needlessly_public(context, *#[trigger] context.function_definitions@[i])
                        && context.function_definitions@[i].id == id,
    {
        let mut ids: Vec<NodeID> = Vec::new();
        let mut flags: Vec<bool> = Vec::new();
        let n = context.function_definitions.len();
        let mut i: usize = 0;
        while i < n
            invariant
                i <= n,
                n == context.function_definitions@.len(),
                ids@.len() == i,
                flags@.len() == i,
                forall|j: int|
                    #![trigger ids@[j]]
                    #![trigger flags@[j]]
                    0 <= j < i ==> ids@[j] == context.function_definitions@[j].id && flags@[j]
                        == needlessly_public(context, *context.function_definitions@[j]),
            decreases n - i,
        {
            let item = context.function_definitions[i];
            let ghost ids0 = ids@;
            let ghost flags0 = flags@;
            ids.push(item.id);
            flags.push(is_needlessly_public(context, item));
            proof {
                assert forall|j: int|
                    #![trigger ids@[j]]
                    #![trigger flags@[j]]
                    0 <= j < i + 1 implies ids@[j] == context.function_definitions@[j].id && flags@[j]
                    == needlessly_public(context, *context.function_definitions@[j]) by {
                    if j < i {
                        assert(ids@[j] == ids0[j]);
                        assert(flags@[j] == flags0[j]);
                    }
                }
            }
            i += 1;
        }
        capture_flagged(&mut self.found_instances, &ids, &flags);
        proof {
            assert forall|id: NodeID|
                self.found_instances@.contains(id) <==> old(self).found_instances@.contains(id)
                    || exists|i: int|
                    0 <= i < context.function_definitions@.len() && needlessly_public(context, *#[trigger] context.function_definitions@[i])
                        && context.function_definitions@[i].id == id by {
                if exists|j: int| 0 <= j < ids@.len() && flags@[j] && #[trigger] ids@[j] == id {
                    let j = choose|j: int| 0 <= j < ids@.len() && flags@[j] && #[trigger] ids@[j] == id;
                    assert(needlessly_public(context, *context.function_definitions@[j])
                        && context.function_definitions@[j].id == id);
                }
                if exists|i: int|
                    0 <= i < context.function_definitions@.len() && needlessly_public(context, *#[trigger] context.function_definitions@[i])
                        && context.function_definitions@[i].id == id {
                    let i = choose|i: int|
                        0 <= i < context.function_definitions@.len() && needlessly_public(context, *#[trigger] context.function_definitions@[i])
                            && context.function_definitions@[i].id == id;
                    assert(flags@[i] && ids@[i] == id);
                }
            }
        }
        Ok(self.found_instances.len() > 0)
    }

    /// The severity of the findings.
    pub fn severity(&self) -> (r: IssueSeverity)
        ensures
            r == IssueSeverity::NC,
    {
        IssueSeverity::NC
    }

    /// The title of the findings.
    pub fn title(&self) -> (r: String)
        ensures
            r@ == "Functions not used internally could be marked external"@,
    {
        String::from_str("Functions not used internally could be marked external")
    }

    /// What the findings mean.
    pub fn description(&self) -> (r: String)
        ensures
            r@ == ""@,
    {
        String::from_str("")
    }

    /// The identities of the nodes found, in the order in which they were
    /// found.
    pub fn instances(&self) -> (r: Vec<NodeID>)
        ensures
            r@ == self.found_instances@,
    {
        copy_of(&self.found_instances)
    }

    /// The name of the detector.
    pub fn name(&self) -> (r: String)
        ensures
            r@ == "useless-public-function"@,
    {
        String::from_str("useless-public-function")
    }
}

} // verus!
