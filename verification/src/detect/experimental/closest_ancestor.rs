use vstd::prelude::*;
use vstd::string::StringExecFns;
use crate::ast::ast_nodes::Assignment;
use crate::ast::node::NodeType;
use crate::context::workspace_context::closest_above;
use crate::ast::node::NodeID;
use crate::context::workspace_context::WorkspaceContext;
use crate::detect::detector::{capture_flagged, copy_of, each_once, DetectionError, IssueSeverity};

verus! {

/// What the demonstration notes for an assignment, by position: the
/// assignment itself, the closest block above it, the closest `for` loop
/// above it, and the closest block above that loop.
pub open spec fn demonstrated(context: &WorkspaceContext, assignment: Assignment, k: int) -> Option<
    NodeID,
> {
    let steps = context.parents@.len();
    if k == 0 {
        Some(assignment.id)
    } else if k == 1 {
        match closest_above(context.parents@, context.nodes@, assignment.id, NodeType::Block, steps) {
            Some(block) => Some(block.ident()),
            None => None,
        }
    } else {
        match closest_above(
            context.parents@,
            context.nodes@,
            assignment.id,
            NodeType::ForStatement,
            steps,
        ) {
            Some(for_statement) => if k == 2 {
                Some(for_statement.ident())
            } else {
                match closest_above(
                    context.parents@,
                    context.nodes@,
                    for_statement.ident(),
                    NodeType::Block,
                    steps,
                ) {
                    Some(block) => Some(block.ident()),
                    None => None,
                }
            },
            None => None,
        }
    }
}

/// The node with the identity `id` is noted for the assignment at
/// position `k`.
pub open spec fn demonstrates(
    context: &WorkspaceContext,
    assignment: Assignment,
    k: int,
    id: NodeID,
) -> bool {
    0 <= k < 4 && demonstrated(context, assignment, k) == Some(id)
}

/// Finds what the demonstration notes for an assignment at a position.
pub fn find_demonstrated(context: &WorkspaceContext, assignment: &Assignment, k: usize) -> (r: Option<
    NodeID,
>)
    requires
        k < 4,
    ensures
        r == demonstrated(context, *assignment, k as int),
{
    if k == 0 {
        return Some(assignment.id);
    }
    if k == 1 {
        return match context.get_closest_ancestor(assignment.id, NodeType::Block) {
            Some(block) => Some(block.id()),
            None => None,
        };
    }
    match context.get_closest_ancestor(assignment.id, NodeType::ForStatement) {
        Some(for_statement) => {
            if k == 2 {
                Some(for_statement.id())
            } else {
                match context.get_closest_ancestor(for_statement.id(), NodeType::Block) {
                    Some(block) => Some(block.id()),
                    None => None,
                }
            }
        },
        None => None,
    }
}

/// Notes, for one assignment, the assignment itself and the nodes above
/// it that the demonstration looks for.
pub fn capture_demonstrated(found: &mut Vec<NodeID>, context: &WorkspaceContext, item: &Assignment)
    requires
        old(found)@.no_duplicates(),
    ensures
        final(found)@.no_duplicates(),
        forall|id: NodeID|
            final(found)@.contains(id) <==> old(found)@.contains(id) || exists|k: int|
                #[trigger] demonstrates(context, *item, k, id),
{
    let mut ids: Vec<NodeID> = Vec::new();
    let mut flags: Vec<bool> = Vec::new();
    let n: usize = 4;
    let mut k: usize = 0;
    while k < n
        invariant
            k <= n,
            n == 4,
            ids@.len() == k,
            flags@.len() == k,
            forall|j: int|
                #![trigger ids@[j]]
                #![trigger flags@[j]]
                0 <= j < k ==> (flags@[j] ==> ids@[j] == demonstrated(context, *item, j)->Some_0) && flags@[j] == (demonstrated(context, *item, j) is Some),
        decreases n - k,
    {
        let ghost ids0 = ids@;
        let ghost flags0 = flags@;
        ids.push(match find_demonstrated(context, item, k) { Some(id) => id, None => 0 });
        flags.push(find_demonstrated(context, item, k).is_some());
        proof {
            assert forall|j: int|
                #![trigger ids@[j]]
                #![trigger flags@[j]]
                0 <= j < k + 1 implies (flags@[j] ==> ids@[j] == demonstrated(context, *item, j)->Some_0) && flags@[j] == (demonstrated(context, *item, j) is Some) by {
                if j < k {
                    assert(ids@[j] == ids0[j]);
                    assert(flags@[j] == flags0[j]);
                }
            }
        }
        k += 1;
    }
    capture_flagged(found, &ids, &flags);
    proof {
        assert forall|id: NodeID|
            found@.contains(id) <==> old(found)@.contains(id) || exists|k: int|
                #[trigger] demonstrates(context, *item, k, id) by {
            if exists|j: int| 0 <= j < ids@.len() && flags@[j] && #[trigger] ids@[j] == id {
                let j = choose|j: int| 0 <= j < ids@.len() && flags@[j] && #[trigger] ids@[j] == id;
                assert(demonstrates(context, *item, j, id));
            }
            if exists|k: int| #[trigger] demonstrates(context, *item, k, id) {
                let k = choose|k: int| #[trigger] demonstrates(context, *item, k, id);
                assert(flags@[k] && ids@[k] == id);
            }
        }
    }
}


/// Shows how the closest node of a kind above a node is found.
pub struct ClosestAncestorDemonstrator {
    /// The identities of the nodes found, each once.
    pub found_instances: Vec<NodeID>,
}

impl Default for ClosestAncestorDemonstrator {
    fn default() -> (r: Self)
        ensures
            r.wf(),
            r.found_instances@.len() == 0,
    {
        ClosestAncestorDemonstrator { found_instances: Vec::new() }
    }
}

impl ClosestAncestorDemonstrator {
    /// No finding is noted twice.
    pub open spec fn wf(&self) -> bool {
        self.found_instances@.no_duplicates()
    }

    /// Tells whether the detector is fit to look at a workspace: whether
    /// none of its findings is held twice.
    pub fn is_wf(&self) -> (r: bool)
        ensures
            r == self.wf(),
    {
        each_once(&self.found_instances)
    }

    /// Looks at every assignment of the workspace and notes the assignment,
    /// the closest block above it, the closest `for` loop above it and the
    /// closest block above that loop. Tells whether anything is noted.
    pub fn detect(&mut self, context: &WorkspaceContext) -> (r: Result<bool, DetectionError>)
        requires
            old(self).wf(),
        ensures
            final(self).wf(),
            r == Ok::<bool, DetectionError>(final(self).found_instances@.len() > 0),
            forall|id: NodeID|
                final(self).found_instances@.contains(id) <==> old(self).found_instances@.contains(
                    id,
                ) || exists|i: int, k: int|
                    0 <= i < context.assignments@.len() && #[trigger] demonstrates(context, *context.assignments@[i], k, id),
    {
        let n = context.assignments.len();
        let mut i: usize = 0;
        while i < n
            invariant
                i <= n,
                n == context.assignments@.len(),
                self.wf(),
                forall|id: NodeID|
                    self.found_instances@.contains(id) <==> old(self).found_instances@.contains(id)
                        || exists|j: int, k: int|
                        0 <= j < i && #[trigger] demonstrates(context, *context.assignments@[j], k, id),
            decreases n - i,
        {
            let ghost before = self.found_instances@;
            let item = context.assignments[i];
            capture_demonstrated(&mut self.found_instances, context, item);
            proof {
                assert forall|id: NodeID|
                    self.found_instances@.contains(id) <==> old(self).found_instances@.contains(id)
                        || exists|j: int, k: int|
                        0 <= j < i + 1 && #[trigger] demonstrates(context, *context.assignments@[j], k, id) by {
                    if before.contains(id) && !old(self).found_instances@.contains(id) {
                        let (j, k) = choose|j: int, k: int|
                            0 <= j < i && #[trigger] demonstrates(context, *context.assignments@[j], k, id);
                        assert(0 <= j < i + 1 && demonstrates(context, *context.assignments@[j], k, id));
                    }
                    if exists|k: int| #[trigger] demonstrates(context, *item, k, id) {
                        let k = choose|k: int| #[trigger] demonstrates(context, *item, k, id);
                        assert(demonstrates(context, *context.assignments@[i as int], k, id));
                    }
                    if exists|j: int, k: int|
                        0 <= j < i + 1 && #[trigger] demonstrates(context, *context.assignments@[j], k, id) {
                        let (j, k) = choose|j: int, k: int|
                            0 <= j < i + 1 && #[trigger] demonstrates(context, *context.assignments@[j], k, id);
                        if j < i {
                            assert(before.contains(id));
                        } else {
                            assert(demonstrates(context, *item, k, id));
                        }
                    }
                }
            }
            i += 1;
        }
        Ok(self.found_instances.len() > 0)
    }

    /// The severity of the findings.
    pub fn severity(&self) -> (r: IssueSeverity)
        ensures
            r == IssueSeverity::High,
    {
        IssueSeverity::High
    }

    /// The title of the findings.
    pub fn title(&self) -> (r: String)
        ensures
            r@ == "Closest Parent Demonstrator"@,
    {
        String::from_str("Closest Parent Demonstrator")
    }

    /// What the findings mean.
    pub fn description(&self) -> (r: String)
        ensures
            r@ == "Closest Parent Demonstrator"@,
    {
        String::from_str("Closest Parent Demonstrator")
    }

    /// The identities of the nodes found, in the order in which they were
    /// found.
    pub fn instances(&self) -> (r: Vec<NodeID>)
        ensures
            r@ == self.found_instances@,
    {
        copy_of(&self.found_instances)
    }

    /// The name of the detector.
    pub fn name(&self) -> (r: String)
        ensures
            r@ == "centralization-risk"@,
    {
        String::from_str("centralization-risk")
    }
}

} // verus!
