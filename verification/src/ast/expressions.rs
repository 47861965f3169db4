use vstd::prelude::*;
use crate::ast::ast_nodes::{
    Assignment, BinaryOperation, Conditional, Expression, FunctionCall, FunctionCallOptions,
    IndexAccess, IndexRangeAccess, MemberAccess, TupleExpression, TypeDescriptions,
    UnaryOperation,
};
use crate::ast::node::NodeID;
use crate::text::str_eq;

verus! {

/// The declarations referenced by a list of expressions, in order.
pub open spec fn list_declarations(es: Seq<Expression>) -> Seq<NodeID>
    decreases es,
{
    if es.len() == 0 {
        Seq::empty()
    } else {
        list_declarations(es.drop_last()) + es.last().declarations()
    }
}

/// The declarations referenced by the components of a tuple that are
/// present, in order.
pub open spec fn component_declarations(cs: Seq<Option<Expression>>) -> Seq<NodeID>
    decreases cs,
{
    if cs.len() == 0 {
        Seq::empty()
    } else {
        component_declarations(cs.drop_last()) + match cs.last() {
            Some(e) => e.declarations(),
            None => Seq::empty(),
        }
    }
}

/// Whether some expression of the list holds the operator.
pub open spec fn any_has_operation(es: Seq<Expression>, op: Seq<char>) -> bool
    decreases es,
{
    if es.len() == 0 {
        false
    } else {
        any_has_operation(es.drop_last(), op) || es.last().has_operation(op)
    }
}

/// Whether some component that is present holds the operator.
pub open spec fn any_component_has_operation(cs: Seq<Option<Expression>>, op: Seq<char>) -> bool
    decreases cs,
{
    if cs.len() == 0 {
        false
    } else {
        any_component_has_operation(cs.drop_last(), op) || match cs.last() {
            Some(e) => e.has_operation(op),
            None => false,
        }
    }
}

/// An operator occurs in a list exactly when it occurs in one of its
/// members.
pub proof fn lemma_any_has_operation(es: Seq<Expression>, op: Seq<char>)
    ensures
        any_has_operation(es, op) <==> exists|i: int|
            0 <= i < es.len() && #[trigger] es[i].has_operation(op),
    decreases es.len(),
{
    if es.len() > 0 {
        lemma_any_has_operation(es.drop_last(), op);
        let front = es.drop_last();
        if any_has_operation(es, op) {
            if es.last().has_operation(op) {
                assert(es[es.len() - 1].has_operation(op));
            } else {
                let i = choose|i: int| 0 <= i < front.len() && #[trigger] front[i].has_operation(op);
                assert(es[i].has_operation(op));
            }
        }
        if exists|i: int| 0 <= i < es.len() && #[trigger] es[i].has_operation(op) {
            let i = choose|i: int| 0 <= i < es.len() && #[trigger] es[i].has_operation(op);
            if i < es.len() - 1 {
                assert(front[i].has_operation(op));
            }
        }
    }
}

impl Expression {
    /// The identity of the expression's own node.
    pub open spec fn node_id(self) -> NodeID {
        match self {
            Expression::Literal(e) => e.id,
            Expression::Identifier(e) => e.id,
            Expression::UnaryOperation(e) => e.id,
            Expression::BinaryOperation(e) => e.id,
            Expression::Conditional(e) => e.id,
            Expression::Assignment(e) => e.id,
            Expression::FunctionCall(e) => e.id,
            Expression::FunctionCallOptions(e) => e.id,
            Expression::IndexAccess(e) => e.id,
            Expression::IndexRangeAccess(e) => e.id,
            Expression::MemberAccess(e) => e.id,
            Expression::ElementaryTypeNameExpression(e) => e.id,
            Expression::TupleExpression(e) => e.id,
            Expression::NewExpression(e) => e.id,
        }
    }

    /// The source span of the expression's own node.
    pub open spec fn span(self) -> Seq<char> {
        match self {
            Expression::Literal(e) => e.src@,
            Expression::Identifier(e) => e.src@,
            Expression::UnaryOperation(e) => e.src@,
            Expression::BinaryOperation(e) => e.src@,
            Expression::Conditional(e) => e.src@,
            Expression::Assignment(e) => e.src@,
            Expression::FunctionCall(e) => e.src@,
            Expression::FunctionCallOptions(e) => e.src@,
            Expression::IndexAccess(e) => e.src@,
            Expression::IndexRangeAccess(e) => e.src@,
            Expression::MemberAccess(e) => e.src@,
            Expression::ElementaryTypeNameExpression(e) => e.src@,
            Expression::TupleExpression(e) => e.src@,
            Expression::NewExpression(e) => e.src@,
        }
    }

    /// The type description of the expression's own node.
    pub open spec fn described_type(self) -> TypeDescriptions {
        match self {
            Expression::Literal(e) => e.type_descriptions,
            Expression::Identifier(e) => e.type_descriptions,
            Expression::UnaryOperation(e) => e.type_descriptions,
            Expression::BinaryOperation(e) => e.type_descriptions,
            Expression::Conditional(e) => e.type_descriptions,
            Expression::Assignment(e) => e.type_descriptions,
            Expression::FunctionCall(e) => e.type_descriptions,
            Expression::FunctionCallOptions(e) => e.type_descriptions,
            Expression::IndexAccess(e) => e.type_descriptions,
            Expression::IndexRangeAccess(e) => e.type_descriptions,
            Expression::MemberAccess(e) => e.type_descriptions,
            Expression::ElementaryTypeNameExpression(e) => e.type_descriptions,
            Expression::TupleExpression(e) => e.type_descriptions,
            Expression::NewExpression(e) => e.type_descriptions,
        }
    }

    /// The expression that an assignment target or an access path starts
    /// from: an identifier, a tuple or a member access stands for itself;
    /// an assignment is followed to its left side, an index access to its
    /// base; anything else has none.
    pub open spec fn root(self) -> Option<Expression>
        decreases self,
    {
        match self {
            Expression::Identifier(_) => Some(self),
            Expression::TupleExpression(_) => Some(self),
            Expression::MemberAccess(_) => Some(self),
            Expression::Assignment(a) => a.left_hand_side.root(),
            Expression::IndexAccess(i) => i.base_expression.root(),
            Expression::IndexRangeAccess(i) => i.base_expression.root(),
            _ => None,
        }
    }

    /// The declarations that the expression refers to, in source order.
    /// Identifiers and member accesses contribute their own reference;
    /// assignments, accesses, tuples and calls those of their parts.
    pub open spec fn declarations(self) -> Seq<NodeID>
        decreases self,
    {
        match self {
            Expression::Identifier(i) => match i.referenced_declaration {
                Some(r) => seq![r],
                None => Seq::empty(),
            },
            Expression::Assignment(a) => a.left_hand_side.declarations()
                + a.right_hand_side.declarations(),
            Expression::IndexAccess(i) => i.base_expression.declarations(),
            Expression::IndexRangeAccess(i) => i.base_expression.declarations(),
            Expression::MemberAccess(m) => m.expression.declarations() + match m.referenced_declaration {
                Some(r) => seq![r],
                None => Seq::empty(),
            },
            Expression::TupleExpression(t) => component_declarations(t.components@),
            Expression::FunctionCall(f) => f.expression.declarations() + list_declarations(
                f.arguments@,
            ),
            _ => Seq::empty(),
        }
    }

    /// Whether the operator occurs in the expression.
    pub open spec fn has_operation(self, op: Seq<char>) -> bool
        decreases self,
    {
        match self {
            Expression::UnaryOperation(e) => e.has_operation(op),
            Expression::BinaryOperation(e) => e.has_operation(op),
            Expression::Conditional(e) => e.has_operation(op),
            Expression::Assignment(e) => e.has_operation(op),
            Expression::FunctionCall(e) => e.has_operation(op),
            Expression::FunctionCallOptions(e) => e.has_operation(op),
            Expression::IndexAccess(e) => e.has_operation(op),
            Expression::IndexRangeAccess(e) => e.has_operation(op),
            Expression::MemberAccess(e) => e.has_operation(op),
            Expression::TupleExpression(e) => e.has_operation(op),
            _ => false,
        }
    }

    /// The identity of the expression's own node.
    pub fn get_node_id(&self) -> (r: Option<NodeID>)
        ensures
            r == Some(self.node_id()),
    {
        match self {
            Expression::Literal(e) => Some(e.id),
            Expression::Identifier(e) => Some(e.id),
            Expression::UnaryOperation(e) => Some(e.id),
            Expression::BinaryOperation(e) => Some(e.id),
            Expression::Conditional(e) => Some(e.id),
            Expression::Assignment(e) => Some(e.id),
            Expression::FunctionCall(e) => Some(e.id),
            Expression::FunctionCallOptions(e) => Some(e.id),
            Expression::IndexAccess(e) => Some(e.id),
            Expression::IndexRangeAccess(e) => Some(e.id),
            Expression::MemberAccess(e) => Some(e.id),
            Expression::ElementaryTypeNameExpression(e) => Some(e.id),
            Expression::TupleExpression(e) => Some(e.id),
            Expression::NewExpression(e) => Some(e.id),
        }
    }

    /// The source span of the expression's own node, in the form
    /// `offset:length:file`.
    pub fn src(&self) -> (r: &str)
        ensures
            r@ == self.span(),
    {
        match self {
            Expression::Literal(e) => e.src.as_str(),
            Expression::Identifier(e) => e.src.as_str(),
            Expression::UnaryOperation(e) => e.src.as_str(),
            Expression::BinaryOperation(e) => e.src.as_str(),
            Expression::Conditional(e) => e.src.as_str(),
            Expression::Assignment(e) => e.src.as_str(),
            Expression::FunctionCall(e) => e.src.as_str(),
            Expression::FunctionCallOptions(e) => e.src.as_str(),
            Expression::IndexAccess(e) => e.src.as_str(),
            Expression::IndexRangeAccess(e) => e.src.as_str(),
            Expression::MemberAccess(e) => e.src.as_str(),
            Expression::ElementaryTypeNameExpression(e) => e.src.as_str(),
            Expression::TupleExpression(e) => e.src.as_str(),
            Expression::NewExpression(e) => e.src.as_str(),
        }
    }

    /// The expression that this one starts from, if it has one.
    pub fn root_expression(&self) -> (r: Option<&Expression>)
        ensures
            match r {
                Some(e) => self.root() == Some(*e),
                None => self.root().is_none(),
            },
        decreases self,
    {
        match self {
            Expression::Identifier(_) => Some(self),
            Expression::TupleExpression(_) => Some(self),
            Expression::Assignment(assignment) => assignment.left_hand_side.root_expression(),
            Expression::IndexAccess(index_access) => index_access.base_expression.root_expression(),
            Expression::IndexRangeAccess(index_range_access) => {
                index_range_access.base_expression.root_expression()
            },
            Expression::MemberAccess(_) => Some(self),
            _ => None,
        }
    }

    /// The declarations that the expression refers to, in source order.
    pub fn referenced_declarations(&self) -> (result: Vec<NodeID>)
        ensures
            result@ == self.declarations(),
        decreases self,
    {
        let mut result: Vec<NodeID> = Vec::new();
        match self {
            Expression::Identifier(identifier) => {
                if let Some(reference_id) = identifier.referenced_declaration {
                    result.push(reference_id);
                }
                assert(result@ =~= self.declarations());
            },
            Expression::Assignment(assignment) => {
                let mut left = assignment.left_hand_side.referenced_declarations();
                let mut right = assignment.right_hand_side.referenced_declarations();
                result.append(&mut left);
                result.append(&mut right);
                assert(result@ =~= self.declarations());
            },
            Expression::IndexAccess(index_access) => {
                let mut base = index_access.base_expression.referenced_declarations();
                result.append(&mut base);
                assert(result@ =~= self.declarations());
            },
            Expression::IndexRangeAccess(index_range_access) => {
                let mut base = index_range_access.base_expression.referenced_declarations();
                result.append(&mut base);
                assert(result@ =~= self.declarations());
            },
            Expression::MemberAccess(member_access) => {
                let mut inner = member_access.expression.referenced_declarations();
                result.append(&mut inner);
                if let Some(referenced_declaration) = member_access.referenced_declaration {
                    result.push(referenced_declaration);
                }
                assert(result@ =~= self.declarations());
            },
            Expression::TupleExpression(tuple_expression) => {
                let n = tuple_expression.components.len();
                let mut i: usize = 0;
                while i < n
                    invariant
                        i <= n,
                        n == tuple_expression.components.len(),
                        self is TupleExpression,
                        self->TupleExpression_0 == *tuple_expression,
                        result@ == component_declarations(
                            tuple_expression.components@.take(i as int),
                        ),
                    decreases n - i,
                {
                    assert(tuple_expression.components@.take(i + 1).drop_last()
                        =~= tuple_expression.components@.take(i as int));
                    if let Some(component) = &tuple_expression.components[i] {
                        let mut inner = component.referenced_declarations();
                        result.append(&mut inner);
                    }
                    assert(result@ =~= component_declarations(
                        tuple_expression.components@.take(i + 1),
                    ));
                    i += 1;
                }
                assert(tuple_expression.components@.take(n as int)
                    =~= tuple_expression.components@);
            },
            Expression::FunctionCall(function_call) => {
                let mut callee = function_call.expression.referenced_declarations();
                result.append(&mut callee);
                let n = function_call.arguments.len();
                let mut i: usize = 0;
                while i < n
                    invariant
                        i <= n,
                        n == function_call.arguments.len(),
                        self is FunctionCall,
                        self->FunctionCall_0 == *function_call,
                        result@ == function_call.expression.declarations() + list_declarations(
                            function_call.arguments@.take(i as int),
                        ),
                    decreases n - i,
                {
                    assert(function_call.arguments@.take(i + 1).drop_last()
                        =~= function_call.arguments@.take(i as int));
                    let mut inner = function_call.arguments[i].referenced_declarations();
                    result.append(&mut inner);
                    assert(result@ =~= function_call.expression.declarations() + list_declarations(
                        function_call.arguments@.take(i + 1),
                    ));
                    i += 1;
                }
                assert(function_call.arguments@.take(n as int) =~= function_call.arguments@);
            },
            _ => {},
        }
        result
    }

    /// Whether the operator occurs in the expression.
    pub fn contains_operation(&self, operator: &str) -> (r: bool)
        ensures
            r == self.has_operation(operator@),
        decreases self, 1int,
    {
        match self {
            Expression::UnaryOperation(unary_operation) => {
                unary_operation.contains_operation(operator)
            },
            Expression::BinaryOperation(binary_operation) => {
                binary_operation.contains_operation(operator)
            },
            Expression::Conditional(conditional) => conditional.contains_operation(operator),
            Expression::Assignment(assignment) => assignment.contains_operation(operator),
            Expression::FunctionCall(function_call) => function_call.contains_operation(operator),
            Expression::FunctionCallOptions(function_call_options) => {
                function_call_options.contains_operation(operator)
            },
            Expression::IndexAccess(index_access) => index_access.contains_operation(operator),
            Expression::IndexRangeAccess(index_range_access) => {
                index_range_access.contains_operation(operator)
            },
            Expression::MemberAccess(member_access) => member_access.contains_operation(operator),
            Expression::TupleExpression(tuple_expression) => {
                tuple_expression.contains_operation(operator)
            },
            _ => false,
        }
    }

    /// The type description of the expression's own node.
    pub fn type_descriptions(&self) -> (r: Option<&TypeDescriptions>)
        ensures
            r == Some(&self.described_type()),
    {
        match self {
            Expression::Literal(e) => Some(&e.type_descriptions),
            Expression::Identifier(e) => Some(&e.type_descriptions),
            Expression::UnaryOperation(e) => Some(&e.type_descriptions),
            Expression::BinaryOperation(e) => Some(&e.type_descriptions),
            Expression::Conditional(e) => Some(&e.type_descriptions),
            Expression::Assignment(e) => Some(&e.type_descriptions),
            Expression::FunctionCall(e) => Some(&e.type_descriptions),
            Expression::FunctionCallOptions(e) => Some(&e.type_descriptions),
            Expression::IndexAccess(e) => Some(&e.type_descriptions),
            Expression::IndexRangeAccess(e) => Some(&e.type_descriptions),
            Expression::MemberAccess(e) => Some(&e.type_descriptions),
            Expression::ElementaryTypeNameExpression(e) => Some(&e.type_descriptions),
            Expression::TupleExpression(e) => Some(&e.type_descriptions),
            Expression::NewExpression(e) => Some(&e.type_descriptions),
        }
    }
}

impl UnaryOperation {
    /// The operator is this node's own or occurs in its operand.
    pub open spec fn has_operation(self, op: Seq<char>) -> bool
        decreases self,
    {
        self.operator@ == op || self.sub_expression.has_operation(op)
    }

    /// Whether the operator is this node's own or occurs in its operand.
    pub fn contains_operation(&self, operator: &str) -> (r: bool)
        ensures
            r == self.has_operation(operator@),
        decreases self, 0int,
    {
        str_eq(self.operator.as_str(), operator) || self.sub_expression.contains_operation(
            operator,
        )
    }
}

impl BinaryOperation {
    /// The operator is this node's own or occurs in one of its operands.
    pub open spec fn has_operation(self, op: Seq<char>) -> bool
        decreases self,
    {
        self.operator@ == op || self.left_expression.has_operation(op)
            || self.right_expression.has_operation(op)
    }

    /// Whether the operator is this node's own or occurs in one of its
    /// operands.
    pub fn contains_operation(&self, operator: &str) -> (r: bool)
        ensures
            r == self.has_operation(operator@),
        decreases self, 0int,
    {
        str_eq(self.operator.as_str(), operator) || self.left_expression.contains_operation(
            operator,
        ) || self.right_expression.contains_operation(operator)
    }
}

impl Conditional {
    /// The operator occurs in the condition or in one of the two branches.
    pub open spec fn has_operation(self, op: Seq<char>) -> bool
        decreases self,
    {
        self.condition.has_operation(op) || self.true_expression.has_operation(op)
            || self.false_expression.has_operation(op)
    }

    /// Whether the operator occurs in the condition or in one of the two
    /// branches.
    pub fn contains_operation(&self, operator: &str) -> (r: bool)
        ensures
            r == self.has_operation(operator@),
        decreases self, 0int,
    {
        self.condition.contains_operation(operator) || self.true_expression.contains_operation(
            operator,
        ) || self.false_expression.contains_operation(operator)
    }
}

impl Assignment {
    /// The operator is the assignment's own or occurs in its right side.
    pub open spec fn has_operation(self, op: Seq<char>) -> bool
        decreases self,
    {
        self.operator@ == op || self.right_hand_side.has_operation(op)
    }

    /// Whether the operator is the assignment's own or occurs in its right
    /// side.
    pub fn contains_operation(&self, operator: &str) -> (r: bool)
        ensures
            r == self.has_operation(operator@),
        decreases self, 0int,
    {
        str_eq(self.operator.as_str(), operator) || self.right_hand_side.contains_operation(
            operator,
        )
    }
}

impl FunctionCall {
    /// The operator occurs in one of the arguments.
    pub open spec fn has_operation(self, op: Seq<char>) -> bool
        decreases self,
    {
        any_has_operation(self.arguments@, op)
    }

    /// Whether the operator occurs in one of the arguments.
    pub fn contains_operation(&self, operator: &str) -> (r: bool)
        ensures
            r == self.has_operation(operator@),
        decreases self, 0int,
    {
        let n = self.arguments.len();
        let mut i: usize = 0;
        while i < n
            invariant
                i <= n,
                n == self.arguments.len(),
                !any_has_operation(self.arguments@.take(i as int), operator@),
            decreases n - i,
        {
            assert(self.arguments@.take(i + 1).drop_last() =~= self.arguments@.take(i as int));
            if self.arguments[i].contains_operation(operator) {
                proof {
                    lemma_any_has_operation(self.arguments@, operator@);
                }
                return true;
            }
            i += 1;
        }
        assert(self.arguments@.take(n as int) =~= self.arguments@);
        false
    }
}

impl FunctionCallOptions {
    /// The operator occurs in one of the call options.
    pub open spec fn has_operation(self, op: Seq<char>) -> bool
        decreases self,
    {
        any_has_operation(self.options@, op)
    }

    /// Whether the operator occurs in one of the call options.
    pub fn contains_operation(&self, operator: &str) -> (r: bool)
        ensures
            r == self.has_operation(operator@),
        decreases self, 0int,
    {
        let n = self.options.len();
        let mut i: usize = 0;
        while i < n
            invariant
                i <= n,
                n == self.options.len(),
                !any_has_operation(self.options@.take(i as int), operator@),
            decreases n - i,
        {
            assert(self.options@.take(i + 1).drop_last() =~= self.options@.take(i as int));
            if self.options[i].contains_operation(operator) {
                proof {
                    lemma_any_has_operation(self.options@, operator@);
                }
                return true;
            }
            i += 1;
        }
        assert(self.options@.take(n as int) =~= self.options@);
        false
    }
}

impl IndexAccess {
    /// The operator occurs in the index expression, where there is one.
    pub open spec fn has_operation(self, op: Seq<char>) -> bool
        decreases self,
    {
        match self.index_expression {
            Some(e) => e.has_operation(op),
            None => false,
        }
    }

    /// Whether the operator occurs in the index expression. An access
    /// without an index holds no operator.
    pub fn contains_operation(&self, operator: &str) -> (r: bool)
        ensures
            r == self.has_operation(operator@),
        decreases self, 0int,
    {
        match &self.index_expression {
            Some(index_expression) => index_expression.contains_operation(operator),
            None => false,
        }
    }
}

impl IndexRangeAccess {
    /// The operator occurs in one of the bounds that are present.
    pub open spec fn has_operation(self, op: Seq<char>) -> bool
        decreases self,
    {
        (match self.start_expression {
            Some(e) => e.has_operation(op),
            None => false,
        }) || (match self.end_expression {
            Some(e) => e.has_operation(op),
            None => false,
        })
    }

    /// Whether the operator occurs in one of the bounds that are present.
    pub fn contains_operation(&self, operator: &str) -> (r: bool)
        ensures
            r == self.has_operation(operator@),
        decreases self, 0int,
    {
        let in_start = match &self.start_expression {
            Some(expr) => expr.contains_operation(operator),
            None => false,
        };
        if in_start {
            return true;
        }
        match &self.end_expression {
            Some(expr) => expr.contains_operation(operator),
            None => false,
        }
    }
}

impl MemberAccess {
    /// The operator occurs in the expression whose member is accessed.
    pub open spec fn has_operation(self, op: Seq<char>) -> bool
        decreases self,
    {
        self.expression.has_operation(op)
    }

    /// Whether the operator occurs in the expression whose member is
    /// accessed.
    pub fn contains_operation(&self, operator: &str) -> (r: bool)
        ensures
            r == self.has_operation(operator@),
        decreases self, 0int,
    {
        self.expression.contains_operation(operator)
    }
}

impl TupleExpression {
    /// The operator occurs in one of the components that are present.
    pub open spec fn has_operation(self, op: Seq<char>) -> bool
        decreases self,
    {
        any_component_has_operation(self.components@, op)
    }

    /// Whether the operator occurs in one of the components that are
    /// present.
    pub fn contains_operation(&self, operator: &str) -> (r: bool)
        ensures
            r == self.has_operation(operator@),
        decreases self, 0int,
    {
        let n = self.components.len();
        let mut i: usize = 0;
        let mut found = false;
        while i < n
            invariant
                i <= n,
                n == self.components.len(),
                found == any_component_has_operation(self.components@.take(i as int), operator@),
            decreases n - i,
        {
            assert(self.components@.take(i + 1).drop_last() =~= self.components@.take(i as int));
            if let Some(expr) = &self.components[i] {
                if expr.contains_operation(operator) {
                    found = true;
                }
            }
            i += 1;
        }
        assert(self.components@.take(n as int) =~= self.components@);
        found
    }
}

} // verus!
