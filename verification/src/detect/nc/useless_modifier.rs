use vstd::prelude::*;
use vstd::string::StringExecFns;
use crate::ast::ast_nodes::{IdentifierOrIdentifierPath, ModifierDefinition, ModifierInvocation};
use crate::ast::node::NodeID;
use crate::context::workspace_context::WorkspaceContext;
use crate::detect::detector::{capture_flagged, copy_of, each_once, DetectionError, IssueSeverity};

verus! {

/// The invocation names the modifier with the given identity.
pub open spec fn invokes(invocation: ModifierInvocation, id: NodeID) -> bool {
    match invocation.modifier_name {
        IdentifierOrIdentifierPath::Identifier(i) => i.referenced_declaration == Some(id),
        IdentifierOrIdentifierPath::IdentifierPath(p) => p.referenced_declaration as int == id as int,
    }
}

/// The number of invocations that name the modifier with the given
/// identity.
pub open spec fn invocation_count(invocations: Seq<&ModifierInvocation>, id: NodeID) -> nat
    decreases invocations.len(),
{
    if invocations.len() == 0 {
        0
    } else {
        invocation_count(invocations.drop_last(), id) + if invokes(*invocations.last(), id) {
            1nat
        } else {
            0nat
        }
    }
}

/// The modifier is invoked exactly once in the workspace.
pub open spec fn invoked_once(context: &WorkspaceContext, modifier: ModifierDefinition) -> bool {
    invocation_count(context.modifier_invocations@, modifier.id) == 1
}

/// Whether the invocation names the modifier with the given identity.
pub fn is_invocation_of(invocation: &ModifierInvocation, id: NodeID) -> (r: bool)
    ensures
        r == invokes(*invocation, id),
{
    match &invocation.modifier_name {
        IdentifierOrIdentifierPath::Identifier(i) => match i.referenced_declaration {
            Some(r) => r == id,
            None => false,
        },
        IdentifierOrIdentifierPath::IdentifierPath(p) => p.referenced_declaration as i64 == id,
    }
}

/// Whether the modifier is invoked exactly once in the workspace.
pub fn is_invoked_once(context: &WorkspaceContext, modifier: &ModifierDefinition) -> (r: bool)
    ensures
        r == invoked_once(context, *modifier),
{
    let n = context.modifier_invocations.len();
    let mut count: usize = 0;
    let mut i: usize = 0;
    while i < n
        invariant
            i <= n,
            n == context.modifier_invocations@.len(),
            count == invocation_count(context.modifier_invocations@.take(i as int), modifier.id),
            count <= i,
        decreases n - i,
    {
        assert(context.modifier_invocations@.take(i + 1).drop_last()
            =~= context.modifier_invocations@.take(i as int));
        if is_invocation_of(context.modifier_invocations[i], modifier.id) {
            count += 1;
        }
        i += 1;
    }
    assert(context.modifier_invocations@.take(n as int) =~= context.modifier_invocations@);
    count == 1
}


/// Finds the modifiers that are invoked exactly once.
pub struct UselessModifierDetector {
    /// The identities of the nodes found, each once.
    pub found_instances: Vec<NodeID>,
}

impl Default for UselessModifierDetector {
    fn default() -> (r: Self)
        ensures
            r.wf(),
            r.found_instances@.len() == 0,
    {
        UselessModifierDetector { found_instances: Vec::new() }
    }
}

impl UselessModifierDetector {
    /// No finding is noted twice.
    pub open spec fn wf(&self) -> bool {
        self.found_instances@.no_duplicates()
    }

    /// Tells whether the detector is fit to look at a workspace: whether
    /// none of its findings is held twice.
    pub fn is_wf(&self) -> (r: bool)
        ensures
            r == self.wf(),
    {
        each_once(&self.found_instances)
    }

    /// Looks at every modifier definition of the workspace and notes those
    /// that are invoked exactly once. Tells whether anything is noted.
    pub fn detect(&mut self, context: &WorkspaceContext) -> (r: Result<bool, DetectionError>)
        requires
            old(self).wf(),
        ensures
            final(self).wf(),
            r == Ok::<bool, DetectionError>(final(self).found_instances@.len() > 0),
            forall|id: NodeID|
                final(self).found_instances@.contains(id) <==> old(self).found_instances@.contains(
                    id,
                ) || exists|i: int|
                    0 <= i < context.modifier_definitions@.len() && invoked_once(context, *#[trigger] context.modifier_definitions@[i])
                        && context.modifier_definitions@[i].id == id,
    {
        let mut ids: Vec<NodeID> = Vec::new();
        let mut flags: Vec<bool> = Vec::new();
        let n = context.modifier_definitions.len();
        let mut i: usize = 0;
        while i < n
            invariant
                i <= n,
                n == context.modifier_definitions@.len(),
                ids@.len() == i,
                flags@.len() == i,
                forall|j: int|
                    #![trigger ids@[j]]
                    #![trigger flags@[j]]
                    0 <= j < i ==> ids@[j] == context.modifier_definitions@[j].id && flags@[j]
                        == invoked_once(context, *context.modifier_definitions@[j]),
            decreases n - i,
        {
            let item = context.modifier_definitions[i];
            let ghost ids0 = ids@;
            let ghost flags0 = flags@;
            ids.push(item.id);
            flags.push(is_invoked_once(context, item));
            proof {
                assert forall|j: int|
                    #![trigger ids@[j]]
                    #![trigger flags@[j]]
                    0 <= j < i + 1 implies ids@[j] == context.modifier_definitions@[j].id && flags@[j]
                    == invoked_once(context, *context.modifier_definitions@[j]) by {
                    if j < i {
                        assert(ids@[j] == ids0[j]);
                        assert(flags@[j] == flags0[j]);
                    }
                }
            }
            i += 1;
        }
        capture_flagged(&mut self.found_instances, &ids, &flags);
        proof {
            assert forall|id: NodeID|
                self.found_instances@.contains(id) <==> old(self).found_instances@.contains(id)
                    || exists|i: int|
                    0 <= i < context.modifier_definitions@.len() && invoked_once(context, *#[trigger] context.modifier_definitions@[i])
                        && context.modifier_definitions@[i].id == id by {
                if exists|j: int| 0 <= j < ids@.len() && flags@[j] && #[trigger] ids@[j] == id {
                    let j = choose|j: int| 0 <= j < ids@.len() && flags@[j] && #[trigger] ids@[j] == id;
                    assert(invoked_once(context, *context.modifier_definitions@[j])
                        && context.modifier_definitions@[j].id == id);
                }
                if exists|i: int|
                    0 <= i < context.modifier_definitions@.len() && invoked_once(context, *#[trigger] context.modifier_definitions@[i])
                        && context.modifier_definitions@[i].id == id {
                    let i = choose|i: int|
                        0 <= i < context.modifier_definitions@.len() && invoked_once(context, *#[trigger] context.modifier_definitions@[i])
                            && context.modifier_definitions@[i].id == id;
                    assert(flags@[i] && ids@[i] == id);
                }
            }
        }
        Ok(self.found_instances.len() > 0)
    }

    /// The severity of the findings.
    pub fn severity(&self) -> (r: IssueSeverity)
        ensures
            r == IssueSeverity::NC,
    {
        IssueSeverity::NC
    }

    /// The title of the findings.
    pub fn title(&self) -> (r: String)
        ensures
            r@ == "Modifiers invoked only once can be shoe-horned into the function"@,
    {
        String::from_str("Modifiers invoked only once can be shoe-horned into the function")
    }

    /// What the findings mean.
    pub fn description(&self) -> (r: String)
        ensures
            r@ == ""@,
    {
        String::from_str("")
    }

    /// The identities of the nodes found, in the order in which they were
    /// found.
    pub fn instances(&self) -> (r: Vec<NodeID>)
        ensures
            r@ == self.found_instances@,
    {
        copy_of(&self.found_instances)
    }

    /// The name of the detector.
    pub fn name(&self) -> (r: String)
        ensures
            r@ == "useless-modifier"@,
    {
        String::from_str("useless-modifier")
    }
}

} // verus!
