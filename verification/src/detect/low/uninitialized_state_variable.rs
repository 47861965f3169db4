use vstd::prelude::*;
use vstd::string::StringExecFns;
use crate::ast::ast_nodes::{Assignment, Expression, VariableDeclaration};
use crate::ast::node::NodeID;
use crate::context::workspace_context::WorkspaceContext;
use crate::detect::detector::{capture_flagged, copy_of, each_once, DetectionError, IssueSeverity};

verus! {

/// The assignment gives a value to the variable with the given identity:
/// its left side is an identifier that refers to the variable.
pub open spec fn assigns_to(assignment: Assignment, id: NodeID) -> bool {
    match *assignment.left_hand_side {
        Expression::Identifier(i) => i.referenced_declaration == Some(id),
        _ => false,
    }
}

/// Some assignment of the list gives a value to the variable.
pub open spec fn assigned(assignments: Seq<&Assignment>, id: NodeID) -> bool {
    exists|i: int| 0 <= i < assignments.len() && assigns_to(*#[trigger] assignments[i], id)
}

/// The declaration is that of a state variable without an initial value,
/// to which no assignment of the workspace gives one.
pub open spec fn never_initialized(context: &WorkspaceContext, variable: VariableDeclaration) -> bool {
    &&& variable.state_variable
    &&& variable.value is None
    &&& !assigned(context.assignments@, variable.id)
}

/// Whether the assignment gives a value to the variable with the given
/// identity.
pub fn is_assignment_to(assignment: &Assignment, id: NodeID) -> (r: bool)
    ensures
        r == assigns_to(*assignment, id),
{
    match &*assignment.left_hand_side {
        Expression::Identifier(i) => match i.referenced_declaration {
            Some(r) => r == id,
            None => false,
        },
        _ => false,
    }
}

/// Whether some assignment of the workspace gives a value to the variable
/// with the given identity.
pub fn is_assigned(context: &WorkspaceContext, id: NodeID) -> (r: bool)
    ensures
        r == assigned(context.assignments@, id),
{
    let n = context.assignments.len();
    let mut i: usize = 0;
    while i < n
        invariant
            i <= n,
            n == context.assignments@.len(),
            forall|j: int| 0 <= j < i ==> !assigns_to(*#[trigger] context.assignments@[j], id),
        decreases n - i,
    {
        if is_assignment_to(context.assignments[i], id) {
            return true;
        }
        i += 1;
    }
    false
}

/// Whether the declaration is that of a state variable that is never given
/// a value.
pub fn is_never_initialized(context: &WorkspaceContext, variable: &VariableDeclaration) -> (r: bool)
    ensures
        r == never_initialized(context, *variable),
{
    variable.state_variable && variable.value.is_none() && !is_assigned(context, variable.id)
}


/// Finds the state variables that are never given a value.
pub struct UninitializedStateVariable {
    /// The identities of the nodes found, each once.
    pub found_instances: Vec<NodeID>,
}

impl Default for UninitializedStateVariable {
    fn default() -> (r: Self)
        ensures
            r.wf(),
            r.found_instances@.len() == 0,
    {
        UninitializedStateVariable { found_instances: Vec::new() }
    }
}

impl UninitializedStateVariable {
    /// No finding is noted twice.
    pub open spec fn wf(&self) -> bool {
        self.found_instances@.no_duplicates()
    }

    /// Tells whether the detector is fit to look at a workspace: whether
    /// none of its findings is held twice.
    pub fn is_wf(&self) -> (r: bool)
        ensures
            r == self.wf(),
    {
        each_once(&self.found_instances)
    }

    /// Looks at every variable declaration of the workspace and notes the
    /// state variables that are never given a value. Tells whether anything is noted.
    pub fn detect(&mut self, context: &WorkspaceContext) -> (r: Result<bool, DetectionError>)
        requires
            old(self).wf(),
        ensures
            final(self).wf(),
            r == Ok::<bool, DetectionError>(final(self).found_instances@.len() > 0),
            forall|id: NodeID|
                final(self).found_instances@.contains(id) <==> old(self).found_instances@.contains(
                    id,
                ) || exists|i: int|
                    0 <= i < context.variable_declarations@.len() && never_initialized(context, *#[trigger] context.variable_declarations@[i])
                        && context.variable_declarations@[i].id == id,
    {
        let mut ids: Vec<NodeID> = Vec::new();
        let mut flags: Vec<bool> = Vec::new();
        let n = context.variable_declarations.len();
        let mut i: usize = 0;
        while i < n
            invariant
                i <= n,
                n == context.variable_declarations@.len(),
                ids@.len() == i,
                flags@.len() == i,
                forall|j: int|
                    #![trigger ids@[j]]
                    #![trigger flags@[j]]
                    0 <= j < i ==> ids@[j] == context.variable_declarations@[j].id && flags@[j]
                        == never_initialized(context, *context.variable_declarations@[j]),
            decreases n - i,
        {
            let item = context.variable_declarations[i];
            let ghost ids0 = ids@;
            let ghost flags0 = flags@;
            ids.push(item.id);
            flags.push(is_never_initialized(context, item));
            proof {
                assert forall|j: int|
                    #![trigger ids@[j]]
                    #![trigger flags@[j]]
                    0 <= j < i + 1 implies ids@[j] == context.variable_declarations@[j].id && flags@[j]
                    == never_initialized(context, *context.variable_declarations@[j]) by {
                    if j < i {
                        assert(ids@[j] == ids0[j]);
                        assert(flags@[j] == flags0[j]);
                    }
                }
            }
            i += 1;
        }
        capture_flagged(&mut self.found_instances, &ids, &flags);
        proof {
            assert forall|id: NodeID|
                self.found_instances@.contains(id) <==> old(self).found_instances@.contains(id)
                    || exists|i: int|
                    0 <= i < context.variable_declarations@.len() && never_initialized(context, *#[trigger] context.variable_declarations@[i])
                        && context.variable_declarations@[i].id == id by {
                if exists|j: int| 0 <= j < ids@.len() && flags@[j] && #[trigger] ids@[j] == id {
                    let j = choose|j: int| 0 <= j < ids@.len() && flags@[j] && #[trigger] ids@[j] == id;
                    assert(never_initialized(context, *context.variable_declarations@[j])
                        && context.variable_declarations@[j].id == id);
                }
                if exists|i: int|
                    0 <= i < context.variable_declarations@.len() && never_initialized(context, *#[trigger] context.variable_declarations@[i])
                        && context.variable_declarations@[i].id == id {
                    let i = choose|i: int|
                        0 <= i < context.variable_declarations@.len() && never_initialized(context, *#[trigger] context.variable_declarations@[i])
                            && context.variable_declarations@[i].id == id;
                    assert(flags@[i] && ids@[i] == id);
                }
            }
        }
        Ok(self.found_instances.len() > 0)
    }

    /// The severity of the findings.
    pub fn severity(&self) -> (r: IssueSeverity)
        ensures
            r == IssueSeverity::High,
    {
        IssueSeverity::High
    }

    /// The title of the findings.
    pub fn title(&self) -> (r: String)
        ensures
            r@ == "Uninitialized State Variables"@,
    {
        String::from_str("Uninitialized State Variables")
    }

    /// What the findings mean.
    pub fn description(&self) -> (r: String)
        ensures
            r@ == "Solidity does initialize variables by default when you declare them, however it's good practiceto explicitly declare an initial value"@,
    {
        String::from_str("Solidity does initialize variables by default when you declare them, however it's good practiceto explicitly declare an initial value")
    }

    /// The identities of the nodes found, in the order in which they were
    /// found.
    pub fn instances(&self) -> (r: Vec<NodeID>)
        ensures
            r@ == self.found_instances@,
    {
        copy_of(&self.found_instances)
    }

    /// The name of the detector.
    pub fn name(&self) -> (r: String)
        ensures
            r@ == "uninitialized-state-variable"@,
    {
        String::from_str("uninitialized-state-variable")
    }
}

} // verus!
