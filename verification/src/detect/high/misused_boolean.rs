use vstd::prelude::*;
use vstd::string::StringExecFns;
use crate::ast::ast_nodes::{BinaryOperation, Expression, IfStatement, LiteralKind};
use crate::text::str_eq;
use crate::ast::node::NodeID;
use crate::context::workspace_context::WorkspaceContext;
use crate::detect::detector::{capture_flagged, copy_of, each_once, DetectionError, IssueSeverity};

verus! {

/// The expression is the boolean literal with the given text.
pub open spec fn bool_literal(e: Expression, text: Seq<char>) -> bool {
    match e {
        Expression::Literal(l) => {
            &&& l.type_descriptions.type_string matches Some(t) && t@ == "bool"@
            &&& l.value matches Some(v) && v@ == text
        },
        _ => false,
    }
}

/// The operation can have one outcome only: `.. || true` or `.. && false`,
/// on either side.
pub open spec fn misuses_boolean(op: BinaryOperation) -> bool {
    ||| op.operator@ == "||"@ && (bool_literal(*op.left_expression, "true"@) || bool_literal(
        *op.right_expression,
        "true"@,
    ))
    ||| op.operator@ == "&&"@ && (bool_literal(*op.left_expression, "false"@) || bool_literal(
        *op.right_expression,
        "false"@,
    ))
}

/// The condition of the `if` is a boolean literal.
pub open spec fn constant_condition(statement: IfStatement) -> bool {
    match statement.condition {
        Expression::Literal(l) => l.kind == LiteralKind::Bool && (l.value matches Some(v) && (v@
            == "false"@ || v@ == "true"@)),
        _ => false,
    }
}

/// Whether the expression is the boolean literal with the given text.
pub fn is_bool_literal(e: &Expression, text: &str) -> (r: bool)
    ensures
        r == bool_literal(*e, text@),
{
    match e {
        Expression::Literal(literal) => {
            let typed = match &literal.type_descriptions.type_string {
                Some(type_string) => str_eq(type_string.as_str(), "bool"),
                None => false,
            };
            typed && match &literal.value {
                Some(value) => str_eq(value.as_str(), text),
                None => false,
            }
        },
        _ => false,
    }
}

/// Whether the operation can have one outcome only.
pub fn is_misused_boolean(op: &BinaryOperation) -> (r: bool)
    ensures
        r == misuses_boolean(*op),
{
    if str_eq(op.operator.as_str(), "||") {
        if is_bool_literal(&op.left_expression, "true") || is_bool_literal(
            &op.right_expression,
            "true",
        ) {
            return true;
        }
    }
    if str_eq(op.operator.as_str(), "&&") {
        if is_bool_literal(&op.left_expression, "false") || is_bool_literal(
            &op.right_expression,
            "false",
        ) {
            return true;
        }
    }
    false
}

/// Whether the condition of the `if` is a boolean literal.
pub fn has_constant_condition(statement: &IfStatement) -> (r: bool)
    ensures
        r == constant_condition(*statement),
{
    match &statement.condition {
        Expression::Literal(literal) => {
            let is_bool = match literal.kind {
                LiteralKind::Bool => true,
                _ => false,
            };
            is_bool && match &literal.value {
                Some(value) => str_eq(value.as_str(), "false") || str_eq(value.as_str(), "true"),
                None => false,
            }
        },
        _ => false,
    }
}

/// The identity of the condition of an `if`.
pub fn condition_id(statement: &IfStatement) -> (r: NodeID)
    ensures
        r == statement.condition.node_id(),
{
    match statement.condition.get_node_id() {
        Some(id) => id,
        None => 0,
    }
}

/// Notes the binary operations of the workspace that can have one outcome
/// only.
pub fn capture_misused_operations(found: &mut Vec<NodeID>, context: &WorkspaceContext)
    requires
        old(found)@.no_duplicates(),
    ensures
        final(found)@.no_duplicates(),
        forall|id: NodeID|
            final(found)@.contains(id) <==> old(found)@.contains(id) || exists|i: int|
                0 <= i < context.binary_operations@.len() && misuses_boolean(*#[trigger] context.binary_operations@[i])
                    && context.binary_operations@[i].id == id,
{
    let mut ids: Vec<NodeID> = Vec::new();
    let mut flags: Vec<bool> = Vec::new();
    let n = context.binary_operations.len();
    let mut i: usize = 0;
    while i < n
        invariant
            i <= n,
            n == context.binary_operations@.len(),
            ids@.len() == i,
            flags@.len() == i,
            forall|j: int|
                #![trigger ids@[j]]
                #![trigger flags@[j]]
                0 <= j < i ==> ids@[j] == context.binary_operations@[j].id && flags@[j]
                    == misuses_boolean(*context.binary_operations@[j]),
        decreases n - i,
    {
        let item = context.binary_operations[i];
        let ghost ids0 = ids@;
        let ghost flags0 = flags@;
        ids.push(item.id);
        flags.push(is_misused_boolean(item));
        proof {
            assert forall|j: int|
                #![trigger ids@[j]]
                #![trigger flags@[j]]
                0 <= j < i + 1 implies ids@[j] == context.binary_operations@[j].id && flags@[j]
                == misuses_boolean(*context.binary_operations@[j]) by {
                if j < i {
                    assert(ids@[j] == ids0[j]);
                    assert(flags@[j] == flags0[j]);
                }
            }
        }
        i += 1;
    }
    capture_flagged(found, &ids, &flags);
    proof {
        assert forall|id: NodeID|
            found@.contains(id) <==> old(found)@.contains(id) || exists|i: int|
                0 <= i < context.binary_operations@.len() && misuses_boolean(*#[trigger] context.binary_operations@[i])
                    && context.binary_operations@[i].id == id by {
            if exists|j: int| 0 <= j < ids@.len() && flags@[j] && #[trigger] ids@[j] == id {
                let j = choose|j: int| 0 <= j < ids@.len() && flags@[j] && #[trigger] ids@[j] == id;
                assert(misuses_boolean(*context.binary_operations@[j])
                    && context.binary_operations@[j].id == id);
            }
            if exists|i: int|
                0 <= i < context.binary_operations@.len() && misuses_boolean(*#[trigger] context.binary_operations@[i])
                    && context.binary_operations@[i].id == id {
                let i = choose|i: int|
                    0 <= i < context.binary_operations@.len() && misuses_boolean(*#[trigger] context.binary_operations@[i])
                        && context.binary_operations@[i].id == id;
                assert(flags@[i] && ids@[i] == id);
            }
        }
    }
}

/// Notes the conditions of the `if` statements of the workspace that are
/// boolean literals.
pub fn capture_constant_conditions(found: &mut Vec<NodeID>, context: &WorkspaceContext)
    requires
        old(found)@.no_duplicates(),
    ensures
        final(found)@.no_duplicates(),
        forall|id: NodeID|
            final(found)@.contains(id) <==> old(found)@.contains(id) || exists|i: int|
                0 <= i < context.if_statements@.len() && constant_condition(*#[trigger] context.if_statements@[i])
                    && context.if_statements@[i].condition.node_id() == id,
{
    let mut ids: Vec<NodeID> = Vec::new();
    let mut flags: Vec<bool> = Vec::new();
    let n = context.if_statements.len();
    let mut i: usize = 0;
    while i < n
        invariant
            i <= n,
            n == context.if_statements@.len(),
            ids@.len() == i,
            flags@.len() == i,
            forall|j: int|
                #![trigger ids@[j]]
                #![trigger flags@[j]]
                0 <= j < i ==> ids@[j] == context.if_statements@[j].condition.node_id() && flags@[j]
                    == constant_condition(*context.if_statements@[j]),
        decreases n - i,
    {
        let item = context.if_statements[i];
        let ghost ids0 = ids@;
        let ghost flags0 = flags@;
        ids.push(condition_id(item));
        flags.push(has_constant_condition(item));
        proof {
            assert forall|j: int|
                #![trigger ids@[j]]
                #![trigger flags@[j]]
                0 <= j < i + 1 implies ids@[j] == context.if_statements@[j].condition.node_id() && flags@[j]
                == constant_condition(*context.if_statements@[j]) by {
                if j < i {
                    assert(ids@[j] == ids0[j]);
                    assert(flags@[j] == flags0[j]);
                }
            }
        }
        i += 1;
    }
    capture_flagged(found, &ids, &flags);
    proof {
        assert forall|id: NodeID|
            found@.contains(id) <==> old(found)@.contains(id) || exists|i: int|
                0 <= i < context.if_statements@.len() && constant_condition(*#[trigger] context.if_statements@[i])
                    && context.if_statements@[i].condition.node_id() == id by {
            if exists|j: int| 0 <= j < ids@.len() && flags@[j] && #[trigger] ids@[j] == id {
                let j = choose|j: int| 0 <= j < ids@.len() && flags@[j] && #[trigger] ids@[j] == id;
                assert(constant_condition(*context.if_statements@[j])
                    && context.if_statements@[j].condition.node_id() == id);
            }
            if exists|i: int|
                0 <= i < context.if_statements@.len() && constant_condition(*#[trigger] context.if_statements@[i])
                    && context.if_statements@[i].condition.node_id() == id {
                let i = choose|i: int|
                    0 <= i < context.if_statements@.len() && constant_condition(*#[trigger] context.if_statements@[i])
                        && context.if_statements@[i].condition.node_id() == id;
                assert(flags@[i] && ids@[i] == id);
            }
        }
    }
}


/// Finds boolean literals that decide an operation or a condition.
pub struct MisusedBooleanDetector {
    /// The identities of the nodes found, each once.
    pub found_instances: Vec<NodeID>,
}

impl Default for MisusedBooleanDetector {
    fn default() -> (r: Self)
        ensures
            r.wf(),
            r.found_instances@.len() == 0,
    {
        MisusedBooleanDetector { found_instances: Vec::new() }
    }
}

impl MisusedBooleanDetector {
    /// No finding is noted twice.
    pub open spec fn wf(&self) -> bool {
        self.found_instances@.no_duplicates()
    }

    /// Tells whether the detector is fit to look at a workspace: whether
    /// none of its findings is held twice.
    pub fn is_wf(&self) -> (r: bool)
        ensures
            r == self.wf(),
    {
        each_once(&self.found_instances)
    }

    /// Looks at every binary operation of the workspace and notes those
    /// that can have one outcome only, then at every `if` and notes the
    /// conditions that are boolean literals. Tells whether anything is
    /// noted.
    pub fn detect(&mut self, context: &WorkspaceContext) -> (r: Result<bool, DetectionError>)
        requires
            old(self).wf(),
        ensures
            final(self).wf(),
            r == Ok::<bool, DetectionError>(final(self).found_instances@.len() > 0),
            forall|id: NodeID|
                final(self).found_instances@.contains(id) <==> old(self).found_instances@.contains(
                    id,
                ) || (exists|i: int|
                    0 <= i < context.binary_operations@.len() && misuses_boolean(
                        *#[trigger] context.binary_operations@[i],
                    ) && context.binary_operations@[i].id == id) || (exists|i: int|
                    0 <= i < context.if_statements@.len() && constant_condition(
                        *#[trigger] context.if_statements@[i],
                    ) && context.if_statements@[i].condition.node_id() == id),
    {
        capture_misused_operations(&mut self.found_instances, context);
        capture_constant_conditions(&mut self.found_instances, context);
        Ok(self.found_instances.len() > 0)
    }

    /// The severity of the findings.
    pub fn severity(&self) -> (r: IssueSeverity)
        ensures
            r == IssueSeverity::High,
    {
        IssueSeverity::High
    }

    /// The title of the findings.
    pub fn title(&self) -> (r: String)
        ensures
            r@ == "Misused boolean with logical operators"@,
    {
        String::from_str("Misused boolean with logical operators")
    }

    /// What the findings mean.
    pub fn description(&self) -> (r: String)
        ensures
            r@ == "The patterns `if (… || true)` and `if (.. && false)` will always evaluate to true and false respectively."@,
    {
        String::from_str("The patterns `if (… || true)` and `if (.. && false)` will always evaluate to true and false respectively.")
    }

    /// The identities of the nodes found, in the order in which they were
    /// found.
    pub fn instances(&self) -> (r: Vec<NodeID>)
        ensures
            r@ == self.found_instances@,
    {
        copy_of(&self.found_instances)
    }

    /// The name of the detector.
    pub fn name(&self) -> (r: String)
        ensures
            r@ == "misused-boolean"@,
    {
        String::from_str("misused-boolean")
    }
}

} // verus!
