use aderyn_core::ast::ast::ASTNode;
use aderyn_core::ast::ast_nodes::{
    Assignment, BinaryOperation, Block, BlockOrStatement, Break, Conditional, EmitStatement,
    Expression, ExpressionStatement, FunctionCall, FunctionCallKind, FunctionCallOptions,
    Identifier, IfStatement, IndexAccess, IndexRangeAccess, Literal, LiteralKind, MemberAccess,
    Return, RevertStatement, SourceUnit, Statement, TryStatement, TupleExpression,
    TypeDescriptions, UnaryOperation,
};
use aderyn_core::ast::node::NodeType;
use aderyn_core::ast::structures::SourceLineError;

fn types() -> TypeDescriptions {
    TypeDescriptions {
        type_identifier: Some(String::from("t_uint256")),
        type_string: Some(String::from("uint256")),
    }
}

fn literal(id: i64) -> Expression {
    Expression::Literal(Literal {
        id,
        src: format!("{}:1:0", id),
        argument_types: None,
        is_constant: false,
        is_l_value: false,
        is_pure: true,
        l_value_requested: false,
        type_descriptions: types(),
        hex_value: None,
        value: Some(String::from("1")),
        subdenomination: None,
        kind: LiteralKind::Number,
    })
}

fn identifier(id: i64, refers_to: Option<i64>) -> Expression {
    Expression::Identifier(Identifier {
        id,
        src: format!("{}:1:0", id),
        argument_types: None,
        name: String::from("x"),
        overloaded_declarations: vec![],
        referenced_declaration: refers_to,
        type_descriptions: types(),
    })
}

fn unary(id: i64, operator: &str, sub: Expression) -> Expression {
    Expression::UnaryOperation(UnaryOperation {
        id,
        src: format!("{}:1:0", id),
        argument_types: None,
        is_constant: false,
        is_l_value: false,
        is_pure: false,
        l_value_requested: false,
        type_descriptions: types(),
        operator: String::from(operator),
        prefix: true,
        sub_expression: Box::new(sub),
    })
}

fn binary(id: i64, operator: &str, left: Expression, right: Expression) -> Expression {
    Expression::BinaryOperation(BinaryOperation {
        id,
        src: format!("{}:1:0", id),
        argument_types: None,
        is_constant: false,
        is_l_value: false,
        is_pure: false,
        l_value_requested: false,
        type_descriptions: types(),
        common_type: types(),
        left_expression: Box::new(left),
        right_expression: Box::new(right),
        operator: String::from(operator),
    })
}

fn conditional(id: i64, c: Expression, t: Expression, f: Expression) -> Expression {
    Expression::Conditional(Conditional {
        id,
        src: format!("{}:1:0", id),
        argument_types: None,
        is_constant: false,
        is_l_value: false,
        is_pure: false,
        l_value_requested: false,
        type_descriptions: types(),
        condition: Box::new(c),
        true_expression: Box::new(t),
        false_expression: Box::new(f),
    })
}

fn assignment(id: i64, operator: &str, left: Expression, right: Expression) -> Expression {
    Expression::Assignment(Assignment {
        id,
        src: format!("{}:1:0", id),
        argument_types: None,
        is_constant: false,
        is_l_value: false,
        is_pure: false,
        l_value_requested: false,
        type_descriptions: types(),
        left_hand_side: Box::new(left),
        right_hand_side: Box::new(right),
        operator: String::from(operator),
    })
}

fn call_node(id: i64, callee: Expression, arguments: Vec<Expression>) -> FunctionCall {
    FunctionCall {
        id,
        src: format!("{}:1:0", id),
        argument_types: None,
        is_constant: false,
        is_l_value: false,
        is_pure: false,
        l_value_requested: false,
        type_descriptions: types(),
        kind: FunctionCallKind::FunctionCall,
        try_call: false,
        names: vec![],
        arguments,
        expression: Box::new(callee),
    }
}

fn call(id: i64, callee: Expression, arguments: Vec<Expression>) -> Expression {
    Expression::FunctionCall(call_node(id, callee, arguments))
}

fn call_options(id: i64, callee: Expression, options: Vec<Expression>) -> Expression {
    Expression::FunctionCallOptions(FunctionCallOptions {
        id,
        src: format!("{}:1:0", id),
        argument_types: None,
        is_constant: false,
        is_l_value: false,
        is_pure: false,
        l_value_requested: false,
        type_descriptions: types(),
        names: vec![],
        options,
        arguments: None,
        expression: Box::new(callee),
    })
}

fn index_access(id: i64, base: Expression, index: Option<Expression>) -> Expression {
    Expression::IndexAccess(IndexAccess {
        id,
        src: format!("{}:1:0", id),
        argument_types: None,
        is_constant: false,
        is_l_value: false,
        is_pure: false,
        l_value_requested: false,
        type_descriptions: types(),
        base_expression: Box::new(base),
        index_expression: index.map(Box::new),
    })
}

fn index_range(
    id: i64,
    base: Expression,
    start: Option<Expression>,
    end: Option<Expression>,
) -> Expression {
    Expression::IndexRangeAccess(IndexRangeAccess {
        id,
        src: format!("{}:1:0", id),
        argument_types: None,
        is_constant: false,
        is_l_value: false,
        is_pure: false,
        l_value_requested: false,
        type_descriptions: types(),
        base_expression: Box::new(base),
        start_expression: start.map(Box::new),
        end_expression: end.map(Box::new),
    })
}

fn member(id: i64, of: Expression, refers_to: Option<i64>) -> Expression {
    Expression::MemberAccess(MemberAccess {
        id,
        src: format!("{}:1:0", id),
        argument_types: None,
        is_constant: false,
        is_l_value: false,
        is_pure: false,
        l_value_requested: false,
        type_descriptions: types(),
        member_name: String::from("m"),
        expression: Box::new(of),
        referenced_declaration: refers_to,
    })
}

fn tuple(id: i64, components: Vec<Option<Expression>>) -> Expression {
    Expression::TupleExpression(TupleExpression {
        id,
        src: format!("{}:1:0", id),
        argument_types: None,
        is_constant: false,
        is_l_value: false,
        is_pure: false,
        l_value_requested: false,
        type_descriptions: types(),
        components,
        is_inline_array: false,
    })
}

fn return_statement(id: i64) -> Statement {
    Statement::Return(Return {
        id,
        src: format!("{}:1:0", id),
        function_return_parameters: 0,
        expression: None,
    })
}

fn expression_statement(id: i64, expression: Expression) -> Statement {
    Statement::ExpressionStatement(ExpressionStatement {
        id,
        src: format!("{}:1:0", id),
        expression,
    })
}

fn block(id: i64, statements: Vec<Statement>) -> Block {
    Block { id, src: format!("{}:1:0", id), statements }
}

fn if_statement(
    id: i64,
    true_body: BlockOrStatement,
    false_body: Option<BlockOrStatement>,
) -> Statement {
    Statement::IfStatement(IfStatement {
        id,
        src: format!("{}:1:0", id),
        condition: literal(id + 1000),
        true_body,
        false_body,
    })
}

#[test]
fn expression_node_id_is_its_own() {
    assert_eq!(literal(7).get_node_id(), Some(7));
    assert_eq!(binary(9, "+", literal(1), literal(2)).get_node_id(), Some(9));
    assert_eq!(tuple(-3, vec![]).get_node_id(), Some(-3));
}

#[test]
fn root_expression_follows_left_sides_and_bases() {
    let x = identifier(1, Some(10));
    assert_eq!(x.root_expression(), Some(&x));
    let a = assignment(3, "=", identifier(1, Some(10)), literal(2));
    assert_eq!(a.root_expression(), Some(&identifier(1, Some(10))));
    let i = index_access(5, member(4, identifier(1, None), None), Some(literal(2)));
    assert_eq!(i.root_expression(), Some(&member(4, identifier(1, None), None)));
    let r = index_range(6, tuple(7, vec![]), None, None);
    assert_eq!(r.root_expression(), Some(&tuple(7, vec![])));
    assert_eq!(literal(1).root_expression(), None);
    assert_eq!(binary(3, "+", identifier(1, None), literal(2)).root_expression(), None);
    assert_eq!(index_access(5, literal(1), None).root_expression(), None);
}

#[test]
fn referenced_declarations_come_in_source_order() {
    assert_eq!(identifier(1, Some(10)).referenced_declarations(), vec![10]);
    assert_eq!(identifier(1, None).referenced_declarations(), Vec::<i64>::new());
    let a = assignment(3, "=", identifier(1, Some(10)), identifier(2, Some(20)));
    assert_eq!(a.referenced_declarations(), vec![10, 20]);
    let m = member(4, identifier(1, Some(10)), Some(30));
    assert_eq!(m.referenced_declarations(), vec![10, 30]);
    let t = tuple(5, vec![Some(identifier(1, Some(10))), None, Some(identifier(2, Some(20)))]);
    assert_eq!(t.referenced_declarations(), vec![10, 20]);
    let c = call(
        6,
        identifier(1, Some(10)),
        vec![identifier(2, Some(20)), literal(3), identifier(4, Some(40))],
    );
    assert_eq!(c.referenced_declarations(), vec![10, 20, 40]);
    // the index of an access and the operands of an operation are not looked at
    let i = index_access(7, identifier(1, Some(10)), Some(identifier(2, Some(20))));
    assert_eq!(i.referenced_declarations(), vec![10]);
    let b = binary(8, "+", identifier(1, Some(10)), identifier(2, Some(20)));
    assert_eq!(b.referenced_declarations(), Vec::<i64>::new());
}

#[test]
fn contains_operation_looks_through_the_expression() {
    assert!(unary(1, "delete", literal(2)).contains_operation("delete"));
    assert!(!unary(1, "delete", literal(2)).contains_operation("!"));
    assert!(unary(1, "!", unary(2, "-", literal(3))).contains_operation("-"));
    let b = binary(4, "+", literal(1), binary(5, "*", literal(2), literal(3)));
    assert!(b.contains_operation("+"));
    assert!(b.contains_operation("*"));
    assert!(!b.contains_operation("/"));
    let c = conditional(6, binary(7, "<", literal(1), literal(2)), literal(3), unary(8, "-", literal(4)));
    assert!(c.contains_operation("<"));
    assert!(c.contains_operation("-"));
    assert!(!c.contains_operation("+"));
    // an assignment is searched by its own operator and in its right side only
    let a = assignment(9, "+=", unary(10, "-", identifier(1, None)), binary(11, "*", literal(2), literal(3)));
    assert!(a.contains_operation("+="));
    assert!(a.contains_operation("*"));
    assert!(!a.contains_operation("-"));
    // a call is searched in its arguments, not in its callee
    let f = call(12, unary(13, "!", identifier(1, None)), vec![literal(2), unary(14, "-", literal(3))]);
    assert!(f.contains_operation("-"));
    assert!(!f.contains_operation("!"));
    let o = call_options(15, identifier(1, None), vec![binary(16, "+", literal(2), literal(3))]);
    assert!(o.contains_operation("+"));
    assert!(!o.contains_operation("-"));
    let m = member(17, unary(18, "-", literal(1)), None);
    assert!(m.contains_operation("-"));
    let t = tuple(19, vec![None, Some(unary(20, "-", literal(1)))]);
    assert!(t.contains_operation("-"));
    assert!(!t.contains_operation("+"));
    assert!(!literal(1).contains_operation("+"));
    assert!(!identifier(1, None).contains_operation("+"));
}

#[test]
fn contains_operation_in_index_expressions() {
    let plain = index_access(1, identifier(2, None), None);
    assert!(!plain.contains_operation("+"));
    let with_index =
        index_access(1, identifier(2, None), Some(binary(3, "+", literal(4), literal(5))));
    assert!(with_index.contains_operation("+"));
    assert!(!with_index.contains_operation("-"));
    let base_only = index_access(1, unary(2, "-", literal(3)), Some(literal(4)));
    assert!(!base_only.contains_operation("-"));
    let range = index_range(
        1,
        identifier(2, None),
        Some(unary(3, "-", literal(4))),
        Some(binary(5, "+", literal(6), literal(7))),
    );
    assert!(range.contains_operation("-"));
    assert!(range.contains_operation("+"));
    assert!(!range.contains_operation("*"));
    assert!(!index_range(1, identifier(2, None), None, None).contains_operation("+"));
}

#[test]
fn type_descriptions_are_those_of_the_node() {
    assert_eq!(literal(1).type_descriptions(), Some(&types()));
    assert_eq!(tuple(1, vec![]).type_descriptions(), Some(&types()));
}

#[test]
fn statement_node_ids() {
    assert_eq!(return_statement(5).get_node_id(), Some(5));
    // an expression statement goes by the identity of its expression
    assert_eq!(expression_statement(5, literal(6)).get_node_id(), Some(6));
    let emit = Statement::EmitStatement(EmitStatement {
        id: 7,
        src: String::from("0:0:0"),
        event_call: call(8, identifier(9, None), vec![]),
    });
    assert_eq!(emit.get_node_id(), Some(8));
    let revert = Statement::RevertStatement(RevertStatement {
        id: 10,
        src: String::from("0:0:0"),
        error_call: call_node(11, identifier(12, None), vec![]),
    });
    assert_eq!(revert.get_node_id(), Some(11));
    let try_statement = Statement::TryStatement(TryStatement {
        id: 13,
        src: String::from("0:0:0"),
        clauses: vec![],
        external_call: call_node(14, identifier(15, None), vec![]),
    });
    assert_eq!(try_statement.get_node_id(), None);
    assert_eq!(Statement::Block(block(16, vec![])).get_node_id(), Some(16));
    assert_eq!(Statement::UncheckedBlock(block(17, vec![])).get_node_id(), Some(17));
    let body = BlockOrStatement::Block(Box::new(block(18, vec![])));
    assert_eq!(body.get_node_id(), Some(18));
    let body = BlockOrStatement::Statement(Box::new(expression_statement(19, literal(20))));
    assert_eq!(body.get_node_id(), Some(20));
}

#[test]
fn is_return_statement_tells_returns_apart() {
    assert!(return_statement(1).is_return_statement());
    assert!(!expression_statement(1, literal(2)).is_return_statement());
    assert!(!Statement::Break(Break { id: 1, src: String::new(), documentation: None })
        .is_return_statement());
}

#[test]
fn contains_returns_follows_the_last_statement() {
    let empty = BlockOrStatement::Block(Box::new(block(1, vec![])));
    assert!(!empty.contains_returns());
    let returning = BlockOrStatement::Block(Box::new(block(
        1,
        vec![expression_statement(2, literal(3)), return_statement(4)],
    )));
    assert!(returning.contains_returns());
    let not_last = BlockOrStatement::Block(Box::new(block(
        1,
        vec![return_statement(4), expression_statement(2, literal(3))],
    )));
    assert!(!not_last.contains_returns());
    let single = BlockOrStatement::Statement(Box::new(return_statement(4)));
    assert!(single.contains_returns());

    let returns = || BlockOrStatement::Block(Box::new(block(5, vec![return_statement(6)])));
    let falls_through =
        || BlockOrStatement::Block(Box::new(block(7, vec![expression_statement(8, literal(9))])));
    // both branches return
    let both = BlockOrStatement::Statement(Box::new(if_statement(10, returns(), Some(returns()))));
    assert!(both.contains_returns());
    // one branch does not
    let one =
        BlockOrStatement::Statement(Box::new(if_statement(10, returns(), Some(falls_through()))));
    assert!(!one.contains_returns());
    let other =
        BlockOrStatement::Statement(Box::new(if_statement(10, falls_through(), Some(returns()))));
    assert!(!other.contains_returns());
    // a missing else counts as returning
    let no_else = BlockOrStatement::Statement(Box::new(if_statement(10, returns(), None)));
    assert!(no_else.contains_returns());
    // a nested block as last statement does not count
    let nested = BlockOrStatement::Block(Box::new(block(
        11,
        vec![Statement::Block(block(12, vec![return_statement(13)]))],
    )));
    assert!(!nested.contains_returns());
}

#[test]
fn ast_node_tells_kind_identity_and_span() {
    let node = ASTNode::Block(block(4, vec![]));
    assert_eq!(node.node_type(), NodeType::Block);
    assert_eq!(node.id(), Some(4));
    assert_eq!(node.src(), Some("4:1:0"));
    let node = ASTNode::Break(Break { id: 9, src: String::from("1:2:3"), documentation: None });
    assert_eq!(node.node_type(), NodeType::Break);
    assert_eq!(node.id(), Some(9));
    assert_eq!(node.src(), Some("1:2:3"));
    let unit = SourceUnit {
        license: None,
        nodes: vec![],
        exported_symbols: None,
        absolute_path: None,
        id: 77,
        source: None,
    };
    let node = ASTNode::SourceUnit(unit);
    assert_eq!(node.node_type(), NodeType::SourceUnit);
    assert_eq!(node.id(), Some(77));
    assert_eq!(node.src(), None);
}

#[test]
fn source_line_of_an_expression() {
    let mut unit = SourceUnit {
        license: None,
        nodes: vec![],
        exported_symbols: None,
        absolute_path: None,
        id: 77,
        source: Some(String::from("line one\nline two\nline three")),
    };
    assert_eq!(unit.source_line("0:4:0"), Ok(1));
    assert_eq!(unit.source_line("9:4:0"), Ok(2));
    assert_eq!(unit.source_line("18:4:0"), Ok(3));
    assert_eq!(unit.source_line("28:0:0"), Ok(3));
    assert_eq!(unit.source_line("29:0:0"), Err(SourceLineError::IndexOutOfBounds));
    assert_eq!(unit.source_line(":4:0"), Err(SourceLineError::NotFound));
    assert_eq!(unit.source_line("x"), Err(SourceLineError::NotFound));
    assert_eq!(literal(9).source_line(&unit), Ok(2));
    assert_eq!(literal(40).source_line(&unit), Err(SourceLineError::IndexOutOfBounds));
    unit.source = None;
    assert_eq!(unit.source_line("0:4:0"), Err(SourceLineError::NotFound));
    assert_eq!(literal(9).source_line(&unit), Err(SourceLineError::NotFound));
}
