use vstd::prelude::*;
use vstd::string::StringExecFns;
use crate::ast::ast_nodes::{BinaryOperation, Expression, VariableDeclaration};
use crate::text::str_eq;
use crate::ast::node::NodeID;
use crate::context::workspace_context::WorkspaceContext;
use crate::detect::detector::{capture_flagged, copy_of, each_once, DetectionError, IssueSeverity};

verus! {

/// The side of the operation is an identifier that refers to the variable.
pub open spec fn names_variable(side: Expression, v: NodeID) -> bool {
    match side {
        Expression::Identifier(i) => i.referenced_declaration == Some(v),
        _ => false,
    }
}

/// The operation compares the variable: one of its sides is an identifier
/// that refers to it.
pub open spec fn compares(op: BinaryOperation, v: NodeID) -> bool {
    names_variable(*op.left_expression, v) || names_variable(*op.right_expression, v)
}

/// The index of the first operation at or after `from` that compares the
/// variable; the length of the list if there is none.
pub open spec fn first_use(ops: Seq<&BinaryOperation>, v: NodeID, from: int) -> int
    decreases ops.len() - from,
{
    if from < 0 || from >= ops.len() {
        ops.len() as int
    } else if compares(*ops[from], v) {
        from
    } else {
        first_use(ops, v, from + 1)
    }
}

/// The operator that says the same with the sides exchanged, as far as the
/// check goes: `<` for `>` and `>` for `<`, any other operator itself.
pub open spec fn mirror_of(operator: Seq<char>) -> Seq<char> {
    if operator == "<"@ {
        ">"@
    } else if operator == ">"@ {
        "<"@
    } else {
        operator
    }
}

/// The operation compares the variable as the first one does: on the same
/// side with the same operator, or on the other side with the mirrored
/// operator.
pub open spec fn consistent(first: BinaryOperation, op: BinaryOperation, v: NodeID) -> bool {
    let first_left = names_variable(*first.left_expression, v);
    let op_left = names_variable(*op.left_expression, v);
    ||| first_left == op_left && op.operator@ == first.operator@
    ||| first_left != op_left && op.operator@ == mirror_of(first.operator@)
}

/// The operation at position `k`, with the identity `id`, is a finding for
/// the variable: the variable is a state variable, the operation compares
/// it, and does so otherwise than the first operation of the workspace
/// that compares it.
pub open spec fn inconsistent_check(
    context: &WorkspaceContext,
    variable: VariableDeclaration,
    k: int,
    id: NodeID,
) -> bool {
    let ops = context.binary_operations@;
    &&& variable.state_variable
    &&& 0 <= k < ops.len()
    &&& compares(*ops[k], variable.id)
    &&& !consistent(*ops[first_use(ops, variable.id, 0)], *ops[k], variable.id)
    &&& ops[k].id == id
}

/// The first use of a variable is a use of it, and lies before any other.
pub proof fn lemma_first_use(ops: Seq<&BinaryOperation>, v: NodeID, from: int, k: int)
    requires
        0 <= from <= k < ops.len(),
        compares(*ops[k], v),
    ensures
        from <= first_use(ops, v, from) <= k,
        compares(*ops[first_use(ops, v, from)], v),
    decreases ops.len() - from,
{
    if !compares(*ops[from], v) {
        lemma_first_use(ops, v, from + 1, k);
    }
}

/// Whether the side of an operation is an identifier that refers to the
/// variable.
pub fn is_name_of(side: &Expression, v: NodeID) -> (r: bool)
    ensures
        r == names_variable(*side, v),
{
    match side {
        Expression::Identifier(i) => match i.referenced_declaration {
            Some(r) => r == v,
            None => false,
        },
        _ => false,
    }
}

/// Whether the operation compares the variable.
pub fn is_comparison_of(op: &BinaryOperation, v: NodeID) -> (r: bool)
    ensures
        r == compares(*op, v),
{
    is_name_of(&op.left_expression, v) || is_name_of(&op.right_expression, v)
}

/// Finds the first operation of the workspace that compares the variable.
pub fn find_first_use(context: &WorkspaceContext, v: NodeID) -> (r: usize)
    ensures
        r == first_use(context.binary_operations@, v, 0),
        r <= context.binary_operations@.len(),
{
    let n = context.binary_operations.len();
    let mut i: usize = 0;
    while i < n
        invariant
            i <= n,
            n == context.binary_operations@.len(),
            first_use(context.binary_operations@, v, i as int) == first_use(
                context.binary_operations@,
                v,
                0,
            ),
        decreases n - i,
    {
        if is_comparison_of(context.binary_operations[i], v) {
            return i;
        }
        i += 1;
    }
    n
}

/// Whether the operation compares the variable as the first one does.
pub fn is_consistent(first: &BinaryOperation, op: &BinaryOperation, v: NodeID) -> (r: bool)
    ensures
        r == consistent(*first, *op, v),
{
    let first_left = is_name_of(&first.left_expression, v);
    let op_left = is_name_of(&op.left_expression, v);
    if first_left == op_left {
        str_eq(op.operator.as_str(), first.operator.as_str())
    } else {
        let mirror = if str_eq(first.operator.as_str(), "<") {
            ">"
        } else if str_eq(first.operator.as_str(), ">") {
            "<"
        } else {
            first.operator.as_str()
        };
        str_eq(op.operator.as_str(), mirror)
    }
}

/// Whether the operation at position `k` is a finding for the variable,
/// `first` being the first operation that compares it.
fn is_inconsistent_check(
    context: &WorkspaceContext,
    variable: &VariableDeclaration,
    first: usize,
    k: usize,
) -> (r: bool)
    requires
        k < context.binary_operations@.len(),
        first == first_use(context.binary_operations@, variable.id, 0),
    ensures
        r == (variable.state_variable && compares(*context.binary_operations@[k as int], variable.id)
            && !consistent(
            *context.binary_operations@[first as int],
            *context.binary_operations@[k as int],
            variable.id,
        )),
{
    if !variable.state_variable {
        return false;
    }
    let op = context.binary_operations[k];
    if !is_comparison_of(op, variable.id) {
        return false;
    }
    proof {
        lemma_first_use(context.binary_operations@, variable.id, 0, k as int);
    }
    !is_consistent(context.binary_operations[first], op, variable.id)
}

/// Notes the operations of the workspace that compare one state variable
/// otherwise than the first operation that compares it.
pub fn capture_inconsistent_checks(found: &mut Vec<NodeID>, context: &WorkspaceContext, item: &VariableDeclaration)
    requires
        old(found)@.no_duplicates(),
    ensures
        final(found)@.no_duplicates(),
        forall|id: NodeID|
            final(found)@.contains(id) <==> old(found)@.contains(id) || exists|k: int|
                #[trigger] inconsistent_check(context, *item, k, id),
{
    let mut ids: Vec<NodeID> = Vec::new();
    let mut flags: Vec<bool> = Vec::new();
    let first = find_first_use(context, item.id);
    let n = context.binary_operations.len();
    let mut k: usize = 0;
    while k < n
        invariant
            k <= n,
            n == context.binary_operations@.len(),
            first == first_use(context.binary_operations@, item.id, 0),
            ids@.len() == k,
            flags@.len() == k,
            forall|j: int|
                #![trigger ids@[j]]
                #![trigger flags@[j]]
                0 <= j < k ==> (flags@[j] ==> ids@[j] == context.binary_operations@[j].id) && flags@[j] == (item.state_variable && compares(*context.binary_operations@[j], item.id) && !consistent(*context.binary_operations@[first_use(context.binary_operations@, item.id, 0)], *context.binary_operations@[j], item.id)),
        decreases n - k,
    {
        let ghost ids0 = ids@;
        let ghost flags0 = flags@;
        ids.push(context.binary_operations[k].id);
        flags.push(is_inconsistent_check(context, item, first, k));
        proof {
            assert forall|j: int|
                #![trigger ids@[j]]
                #![trigger flags@[j]]
                0 <= j < k + 1 implies (flags@[j] ==> ids@[j] == context.binary_operations@[j].id) && flags@[j] == (item.state_variable && compares(*context.binary_operations@[j], item.id) && !consistent(*context.binary_operations@[first_use(context.binary_operations@, item.id, 0)], *context.binary_operations@[j], item.id)) by {
                if j < k {
                    assert(ids@[j] == ids0[j]);
                    assert(flags@[j] == flags0[j]);
                }
            }
        }
        k += 1;
    }
    capture_flagged(found, &ids, &flags);
    proof {
        assert forall|id: NodeID|
            found@.contains(id) <==> old(found)@.contains(id) || exists|k: int|
                #[trigger] inconsistent_check(context, *item, k, id) by {
            if exists|j: int| 0 <= j < ids@.len() && flags@[j] && #[trigger] ids@[j] == id {
                let j = choose|j: int| 0 <= j < ids@.len() && flags@[j] && #[trigger] ids@[j] == id;
                assert(inconsistent_check(context, *item, j, id));
            }
            if exists|k: int| #[trigger] inconsistent_check(context, *item, k, id) {
                let k = choose|k: int| #[trigger] inconsistent_check(context, *item, k, id);
                assert(flags@[k] && ids@[k] == id);
            }
        }
    }
}


/// Finds the checks of one state variable that are not written alike.
pub struct DifferentStorageConditionalDetector {
    /// The identities of the nodes found, each once.
    pub found_instances: Vec<NodeID>,
}

impl Default for DifferentStorageConditionalDetector {
    fn default() -> (r: Self)
        ensures
            r.wf(),
            r.found_instances@.len() == 0,
    {
        DifferentStorageConditionalDetector { found_instances: Vec::new() }
    }
}

impl DifferentStorageConditionalDetector {
    /// No finding is noted twice.
    pub open spec fn wf(&self) -> bool {
        self.found_instances@.no_duplicates()
    }

    /// Tells whether the detector is fit to look at a workspace: whether
    /// none of its findings is held twice.
    pub fn is_wf(&self) -> (r: bool)
        ensures
            r == self.wf(),
    {
        each_once(&self.found_instances)
    }

    /// Looks, for every state variable of the workspace, at the binary
    /// operations that compare it, and notes those that compare it
    /// otherwise than the first one does. Tells whether anything is noted.
    pub fn detect(&mut self, context: &WorkspaceContext) -> (r: Result<bool, DetectionError>)
        requires
            old(self).wf(),
        ensures
            final(self).wf(),
            r == Ok::<bool, DetectionError>(final(self).found_instances@.len() > 0),
            forall|id: NodeID|
                final(self).found_instances@.contains(id) <==> old(self).found_instances@.contains(
                    id,
                ) || exists|i: int, k: int|
                    0 <= i < context.variable_declarations@.len() && #[trigger] inconsistent_check(context, *context.variable_declarations@[i], k, id),
    {
        let n = context.variable_declarations.len();
        let mut i: usize = 0;
        while i < n
            invariant
                i <= n,
                n == context.variable_declarations@.len(),
                self.wf(),
                forall|id: NodeID|
                    self.found_instances@.contains(id) <==> old(self).found_instances@.contains(id)
                        || exists|j: int, k: int|
                        0 <= j < i && #[trigger] inconsistent_check(context, *context.variable_declarations@[j], k, id),
            decreases n - i,
        {
            let ghost before = self.found_instances@;
            let item = context.variable_declarations[i];
            capture_inconsistent_checks(&mut self.found_instances, context, item);
            proof {
                assert forall|id: NodeID|
                    self.found_instances@.contains(id) <==> old(self).found_instances@.contains(id)
                        || exists|j: int, k: int|
                        0 <= j < i + 1 && #[trigger] inconsistent_check(context, *context.variable_declarations@[j], k, id) by {
                    if before.contains(id) && !old(self).found_instances@.contains(id) {
                        let (j, k) = choose|j: int, k: int|
                            0 <= j < i && #[trigger] inconsistent_check(context, *context.variable_declarations@[j], k, id);
                        assert(0 <= j < i + 1 && inconsistent_check(context, *context.variable_declarations@[j], k, id));
                    }
                    if exists|k: int| #[trigger] inconsistent_check(context, *item, k, id) {
                        let k = choose|k: int| #[trigger] inconsistent_check(context, *item, k, id);
                        assert(inconsistent_check(context, *context.variable_declarations@[i as int], k, id));
                    }
                    if exists|j: int, k: int|
                        0 <= j < i + 1 && #[trigger] inconsistent_check(context, *context.variable_declarations@[j], k, id) {
                        let (j, k) = choose|j: int, k: int|
                            0 <= j < i + 1 && #[trigger] inconsistent_check(context, *context.variable_declarations@[j], k, id);
                        if j < i {
                            assert(before.contains(id));
                        } else {
                            assert(inconsistent_check(context, *item, k, id));
                        }
                    }
                }
            }
            i += 1;
        }
        Ok(self.found_instances.len() > 0)
    }

    /// The severity of the findings.
    pub fn severity(&self) -> (r: IssueSeverity)
        ensures
            r == IssueSeverity::Medium,
    {
        IssueSeverity::Medium
    }

    /// The title of the findings.
    pub fn title(&self) -> (r: String)
        ensures
            r@ == "Conditional storage checks are not consistent"@,
    {
        String::from_str("Conditional storage checks are not consistent")
    }

    /// What the findings mean.
    pub fn description(&self) -> (r: String)
        ensures
            r@ == "When writing `require` or `if` conditionals that check storage values, it is important to be consistent to prevent off-by-one errors. There are instances found where the same storage variable is checked multiple times, but the conditionals are not consistent."@,
    {
        String::from_str("When writing `require` or `if` conditionals that check storage values, it is important to be consistent to prevent off-by-one errors. There are instances found where the same storage variable is checked multiple times, but the conditionals are not consistent.")
    }

    /// The identities of the nodes found, in the order in which they were
    /// found.
    pub fn instances(&self) -> (r: Vec<NodeID>)
        ensures
            r@ == self.found_instances@,
    {
        copy_of(&self.found_instances)
    }

    /// The name of the detector.
    pub fn name(&self) -> (r: String)
        ensures
            r@ == "different-storage-conditionals"@,
    {
        String::from_str("different-storage-conditionals")
    }
}

} // verus!
