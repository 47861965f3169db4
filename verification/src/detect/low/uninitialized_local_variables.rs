use vstd::prelude::*;
use vstd::string::StringExecFns;
use crate::ast::ast_nodes::{Assignment, VariableDeclarationStatement};
use crate::detect::detector::holds;
use crate::ast::node::NodeID;
use crate::context::workspace_context::WorkspaceContext;
use crate::detect::detector::{capture_flagged, copy_of, each_once, DetectionError, IssueSeverity};

verus! {

/// Some assignment of the list refers on its left side to the declaration
/// with the given identity.
pub open spec fn assigned_on_left(assignments: Seq<&Assignment>, id: NodeID) -> bool {
    exists|i: int|
        0 <= i < assignments.len() && (#[trigger] assignments[i]).left_hand_side.declarations().contains(
            id,
        )
}

/// The declaration at position `k` of the statement, with the identity
/// `id`, is a finding: the statement gives no initial value, and no
/// assignment of the workspace refers to the declared variable on its left
/// side.
pub open spec fn uninitialized_local(
    context: &WorkspaceContext,
    statement: VariableDeclarationStatement,
    k: int,
    id: NodeID,
) -> bool {
    &&& statement.initial_value is None
    &&& 0 <= k < statement.declarations@.len()
    &&& statement.declarations@[k] matches Some(d) && d.id == id
    &&& !assigned_on_left(context.assignments@, id)
}

/// Whether some assignment of the workspace refers on its left side to the
/// declaration with the given identity.
pub fn is_assigned_on_left(context: &WorkspaceContext, id: NodeID) -> (r: bool)
    ensures
        r == assigned_on_left(context.assignments@, id),
{
    let n = context.assignments.len();
    let mut i: usize = 0;
    while i < n
        invariant
            i <= n,
            n == context.assignments@.len(),
            forall|j: int|
                0 <= j < i ==> !(#[trigger] context.assignments@[j]).left_hand_side.declarations().contains(
                    id,
                ),
        decreases n - i,
    {
        let references = context.assignments[i].left_hand_side.referenced_declarations();
        if holds(&references, id) {
            return true;
        }
        i += 1;
    }
    false
}

/// The identity of the declaration at position `k`, if there is one.
fn declared_id(statement: &VariableDeclarationStatement, k: usize) -> (r: Option<NodeID>)
    requires
        k < statement.declarations@.len(),
    ensures
        match r {
            Some(id) => statement.declarations@[k as int] matches Some(d) && d.id == id,
            None => statement.declarations@[k as int] is None,
        },
{
    match &statement.declarations[k] {
        Some(d) => Some(d.id),
        None => None,
    }
}

/// Notes the variables declared by one statement without an initial value
/// that no assignment of the workspace refers to on its left side.
pub fn capture_uninitialized_locals(found: &mut Vec<NodeID>, context: &WorkspaceContext, item: &VariableDeclarationStatement)
    requires
        old(found)@.no_duplicates(),
    ensures
        final(found)@.no_duplicates(),
        forall|id: NodeID|
            final(found)@.contains(id) <==> old(found)@.contains(id) || exists|k: int|
                #[trigger] uninitialized_local(context, *item, k, id),
{
    let mut ids: Vec<NodeID> = Vec::new();
    let mut flags: Vec<bool> = Vec::new();
    let n = item.declarations.len();
    let mut k: usize = 0;
    while k < n
        invariant
            k <= n,
            n == item.declarations@.len(),
            ids@.len() == k,
            flags@.len() == k,
            forall|j: int|
                #![trigger ids@[j]]
                #![trigger flags@[j]]
                0 <= j < k ==> (flags@[j] ==> ids@[j] == item.declarations@[j]->Some_0.id) && flags@[j] == (item.initial_value is None && item.declarations@[j] is Some && !assigned_on_left(context.assignments@, item.declarations@[j]->Some_0.id)),
        decreases n - k,
    {
        let ghost ids0 = ids@;
        let ghost flags0 = flags@;
        ids.push(match declared_id(item, k) { Some(id) => id, None => 0 });
        flags.push(item.initial_value.is_none() && match declared_id(item, k) { Some(id) => !is_assigned_on_left(context, id), None => false });
        proof {
            assert forall|j: int|
                #![trigger ids@[j]]
                #![trigger flags@[j]]
                0 <= j < k + 1 implies (flags@[j] ==> ids@[j] == item.declarations@[j]->Some_0.id) && flags@[j] == (item.initial_value is None && item.declarations@[j] is Some && !assigned_on_left(context.assignments@, item.declarations@[j]->Some_0.id)) by {
                if j < k {
                    assert(ids@[j] == ids0[j]);
                    assert(flags@[j] == flags0[j]);
                }
            }
        }
        k += 1;
    }
    capture_flagged(found, &ids, &flags);
    proof {
        assert forall|id: NodeID|
            found@.contains(id) <==> old(found)@.contains(id) || exists|k: int|
                #[trigger] uninitialized_local(context, *item, k, id) by {
            if exists|j: int| 0 <= j < ids@.len() && flags@[j] && #[trigger] ids@[j] == id {
                let j = choose|j: int| 0 <= j < ids@.len() && flags@[j] && #[trigger] ids@[j] == id;
                assert(uninitialized_local(context, *item, j, id));
            }
            if exists|k: int| #[trigger] uninitialized_local(context, *item, k, id) {
                let k = choose|k: int| #[trigger] uninitialized_local(context, *item, k, id);
                assert(flags@[k] && ids@[k] == id);
            }
        }
    }
}


/// Finds the local variables that are never given a value.
pub struct UninitializedLocalVariableDetector {
    /// The identities of the nodes found, each once.
    pub found_instances: Vec<NodeID>,
}

impl Default for UninitializedLocalVariableDetector {
    fn default() -> (r: Self)
        ensures
            r.wf(),
            r.found_instances@.len() == 0,
    {
        UninitializedLocalVariableDetector { found_instances: Vec::new() }
    }
}

impl UninitializedLocalVariableDetector {
    /// No finding is noted twice.
    pub open spec fn wf(&self) -> bool {
        self.found_instances@.no_duplicates()
    }

    /// Tells whether the detector is fit to look at a workspace: whether
    /// none of its findings is held twice.
    pub fn is_wf(&self) -> (r: bool)
        ensures
            r == self.wf(),
    {
        each_once(&self.found_instances)
    }

    /// Looks at every variable declaration statement of the workspace that
    /// gives no initial value and notes the variables it declares, unless an
    /// assignment refers to them on its left side. Tells whether anything is noted.
    pub fn detect(&mut self, context: &WorkspaceContext) -> (r: Result<bool, DetectionError>)
        requires
            old(self).wf(),
        ensures
            final(self).wf(),
            r == Ok::<bool, DetectionError>(final(self).found_instances@.len() > 0),
            forall|id: NodeID|
                final(self).found_instances@.contains(id) <==> old(self).found_instances@.contains(
                    id,
                ) || exists|i: int, k: int|
                    0 <= i < context.variable_declaration_statements@.len() && #[trigger] uninitialized_local(context, *context.variable_declaration_statements@[i], k, id),
    {
        let n = context.variable_declaration_statements.len();
        let mut i: usize = 0;
        while i < n
            invariant
                i <= n,
                n == context.variable_declaration_statements@.len(),
                self.wf(),
                forall|id: NodeID|
                    self.found_instances@.contains(id) <==> old(self).found_instances@.contains(id)
                        || exists|j: int, k: int|
                        0 <= j < i && #[trigger] uninitialized_local(context, *context.variable_declaration_statements@[j], k, id),
            decreases n - i,
        {
            let ghost before = self.found_instances@;
            let item = context.variable_declaration_statements[i];
            capture_uninitialized_locals(&mut self.found_instances, context, item);
            proof {
                assert forall|id: NodeID|
                    self.found_instances@.contains(id) <==> old(self).found_instances@.contains(id)
                        || exists|j: int, k: int|
                        0 <= j < i + 1 && #[trigger] uninitialized_local(context, *context.variable_declaration_statements@[j], k, id) by {
                    if before.contains(id) && !old(self).found_instances@.contains(id) {
                        let (j, k) = choose|j: int, k: int|
                            0 <= j < i && #[trigger] uninitialized_local(context, *context.variable_declaration_statements@[j], k, id);
                        assert(0 <= j < i + 1 && uninitialized_local(context, *context.variable_declaration_statements@[j], k, id));
                    }
                    if exists|k: int| #[trigger] uninitialized_local(context, *item, k, id) {
                        let k = choose|k: int| #[trigger] uninitialized_local(context, *item, k, id);
                        assert(uninitialized_local(context, *context.variable_declaration_statements@[i as int], k, id));
                    }
                    if exists|j: int, k: int|
                        0 <= j < i + 1 && #[trigger] uninitialized_local(context, *context.variable_declaration_statements@[j], k, id) {
                        let (j, k) = choose|j: int, k: int|
                            0 <= j < i + 1 && #[trigger] uninitialized_local(context, *context.variable_declaration_statements@[j], k, id);
                        if j < i {
                            assert(before.contains(id));
                        } else {
                            assert(uninitialized_local(context, *item, k, id));
                        }
                    }
                }
            }
            i += 1;
        }
        Ok(self.found_instances.len() > 0)
    }

    /// The severity of the findings.
    pub fn severity(&self) -> (r: IssueSeverity)
        ensures
            r == IssueSeverity::Low,
    {
        IssueSeverity::Low
    }

    /// The title of the findings.
    pub fn title(&self) -> (r: String)
        ensures
            r@ == "Uninitialized local variables."@,
    {
        String::from_str("Uninitialized local variables.")
    }

    /// What the findings mean.
    pub fn description(&self) -> (r: String)
        ensures
            r@ == "Initialize all the variables. If a variable is meant to be initialized to zero, explicitly set it to zero to improve code readability."@,
    {
        String::from_str("Initialize all the variables. If a variable is meant to be initialized to zero, explicitly set it to zero to improve code readability.")
    }

    /// The identities of the nodes found, in the order in which they were
    /// found.
    pub fn instances(&self) -> (r: Vec<NodeID>)
        ensures
            r@ == self.found_instances@,
    {
        copy_of(&self.found_instances)
    }

    /// The name of the detector.
    pub fn name(&self) -> (r: String)
        ensures
            r@ == "uninitialized-local-variable"@,
    {
        String::from_str("uninitialized-local-variable")
    }
}

} // verus!
