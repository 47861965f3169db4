use aderyn_core::ast::ast_nodes::{
    Block, BlockOrStatement, Break, Continue, DoWhileStatement, Expression, ExpressionStatement,
    ForStatement, FunctionDefinition, FunctionKind, IfStatement, Literal, LiteralKind,
    ParameterList, Return, Statement, StateMutability, TypeDescriptions,
    VariableDeclarationStatement, Visibility, WhileStatement,
};
use aderyn_core::context::flow::{Cfg, CfgNode, CfgNodeDescriptor, CfgNodeId};
use aderyn_core::context::workspace_context::WorkspaceContext;

/// Hands out the identities of the nodes of a hand-built syntax tree.
struct Ids(i64);

impl Ids {
    fn next(&mut self) -> i64 {
        self.0 += 1;
        self.0
    }
}

fn src() -> String {
    String::from("0:0:0")
}

fn condition(ids: &mut Ids) -> Expression {
    Expression::Literal(Literal {
        id: ids.next(),
        src: src(),
        argument_types: None,
        is_constant: false,
        is_l_value: false,
        is_pure: true,
        l_value_requested: false,
        type_descriptions: TypeDescriptions {
            type_identifier: Some(String::from("t_bool")),
            type_string: Some(String::from("bool")),
        },
        hex_value: None,
        value: Some(String::from("true")),
        subdenomination: None,
        kind: LiteralKind::Bool,
    })
}

fn declaration(ids: &mut Ids) -> Statement {
    Statement::VariableDeclarationStatement(VariableDeclarationStatement {
        id: ids.next(),
        src: src(),
        assignments: vec![],
        declarations: vec![],
        initial_value: None,
    })
}

fn expression_statement(ids: &mut Ids) -> ExpressionStatement {
    ExpressionStatement { id: ids.next(), src: src(), expression: condition(ids) }
}

fn expression(ids: &mut Ids) -> Statement {
    Statement::ExpressionStatement(expression_statement(ids))
}

fn break_statement(ids: &mut Ids) -> Statement {
    Statement::Break(Break { id: ids.next(), src: src(), documentation: None })
}

fn continue_statement(ids: &mut Ids) -> Statement {
    Statement::Continue(Continue { id: ids.next(), src: src(), documentation: None })
}

fn return_statement(ids: &mut Ids) -> Statement {
    Statement::Return(Return {
        id: ids.next(),
        src: src(),
        function_return_parameters: 0,
        expression: None,
    })
}

fn block(ids: &mut Ids, statements: Vec<Statement>) -> Block {
    Block { id: ids.next(), src: src(), statements }
}

fn block_body(ids: &mut Ids, statements: Vec<Statement>) -> BlockOrStatement {
    BlockOrStatement::Block(Box::new(block(ids, statements)))
}

fn if_statement(
    ids: &mut Ids,
    true_body: BlockOrStatement,
    false_body: Option<BlockOrStatement>,
) -> Statement {
    Statement::IfStatement(IfStatement {
        id: ids.next(),
        src: src(),
        condition: condition(ids),
        true_body,
        false_body,
    })
}

fn while_statement(ids: &mut Ids, body: BlockOrStatement) -> Statement {
    Statement::WhileStatement(WhileStatement {
        id: ids.next(),
        src: src(),
        condition: condition(ids),
        body,
        documentation: None,
    })
}

fn do_while_statement(ids: &mut Ids, body: Block) -> Statement {
    Statement::DoWhileStatement(DoWhileStatement {
        id: ids.next(),
        src: src(),
        documentation: None,
        body,
        condition: condition(ids),
    })
}

fn for_statement(ids: &mut Ids, body: BlockOrStatement) -> Statement {
    Statement::ForStatement(ForStatement {
        id: ids.next(),
        src: src(),
        initialization_expression: Some(Box::new(declaration(ids))),
        condition: Some(condition(ids)),
        loop_expression: Some(Box::new(expression_statement(ids))),
        body,
    })
}

fn function(ids: &mut Ids, body: Option<Block>) -> FunctionDefinition {
    FunctionDefinition {
        id: ids.next(),
        src: src(),
        base_functions: None,
        body,
        documentation: None,
        function_selector: None,
        implemented: true,
        kind: Some(FunctionKind::Function),
        state_mutability: Some(StateMutability::NonPayable),
        is_virtual: false,
        is_constructor: false,
        is_declared_const: false,
        is_payable: false,
        modifiers: vec![],
        name: String::from("function"),
        name_location: None,
        overrides: None,
        parameters: ParameterList { id: ids.next(), src: src(), parameters: vec![] },
        return_parameters: ParameterList { id: ids.next(), src: src(), parameters: vec![] },
        scope: 0,
        super_function: None,
        virtual_flag: None,
        visibility: Visibility::External,
    }
}

/// Builds the graph of a bare block, as `accept_block` leaves it.
fn graph_of_block(body: &Block) -> Cfg {
    let mut context = WorkspaceContext::new();
    assert!(context.register_block(body));
    let mut cfg = Cfg::new();
    cfg.accept_block(&context, body);
    cfg
}

/// Builds the graph of a function body, jumps corrected.
fn graph_of_function(function_definition: &FunctionDefinition) -> (Cfg, CfgNodeId, CfgNodeId) {
    let mut context = WorkspaceContext::new();
    assert!(context.register_block(function_definition.body.as_ref().unwrap()));
    let mut cfg = Cfg::new();
    let (start, end) = cfg.accept_function_body(&context, function_definition).unwrap();
    (cfg, start, end)
}

fn only_child(cfg: &Cfg, id: CfgNodeId) -> CfgNodeId {
    let children = id.children(cfg);
    assert_eq!(children.len(), 1);
    children[0]
}

fn find_nodes(cfg: &Cfg, pick: fn(&CfgNodeDescriptor) -> bool) -> Vec<CfgNodeId> {
    let mut found: Vec<CfgNodeId> =
        cfg.nodes.values().filter(|node| pick(&node.nd)).map(|node| node.id).collect();
    found.sort_by_key(|id| id.peek());
    found
}

// Accept block (before the jumps are corrected)

#[test]
fn simple_program_function1() {
    // Three simple statements
    let mut ids = Ids(0);
    let statements = vec![declaration(&mut ids), expression(&mut ids), expression(&mut ids)];
    let body = block(&mut ids, statements);
    let cfg = graph_of_block(&body);

    assert_eq!(cfg.nodes.len(), 7);

    assert!(matches!(
        cfg.nodes.get(&CfgNodeId(3).peek()).unwrap(),
        CfgNode { id: _, nd: CfgNodeDescriptor::Start(_) }
    ));

    assert!(matches!(
        cfg.nodes.get(&CfgNodeId(4).peek()).unwrap(),
        CfgNode { id: _, nd: CfgNodeDescriptor::End(_) }
    ));
}

#[test]
fn simple_program_function2() {
    // if (c) { s; }
    let mut ids = Ids(0);
    let inner = vec![expression(&mut ids)];
    let true_body = block_body(&mut ids, inner);
    let statements = vec![if_statement(&mut ids, true_body, None)];
    let body = block(&mut ids, statements);
    let cfg = graph_of_block(&body);
    assert_eq!(cfg.nodes.len(), 14);
}

#[test]
fn simple_program_function3() {
    // if (c) s;
    let mut ids = Ids(0);
    let true_body = BlockOrStatement::Statement(Box::new(expression(&mut ids)));
    let statements = vec![if_statement(&mut ids, true_body, None)];
    let body = block(&mut ids, statements);
    let cfg = graph_of_block(&body);
    assert_eq!(cfg.nodes.len(), 12);
}

#[test]
fn simple_program_function4() {
    // if (c) { if (c) { s; } else { s; } } else { if (c) { s; } } followed by six statements
    let mut ids = Ids(0);
    let a = vec![expression(&mut ids)];
    let a = block_body(&mut ids, a);
    let b = vec![expression(&mut ids)];
    let b = block_body(&mut ids, b);
    let inner_if_else = vec![if_statement(&mut ids, a, Some(b))];
    let c = vec![expression(&mut ids)];
    let c = block_body(&mut ids, c);
    let inner_if = vec![if_statement(&mut ids, c, None)];
    let true_body = block_body(&mut ids, inner_if_else);
    let false_body = block_body(&mut ids, inner_if);
    let mut statements = vec![if_statement(&mut ids, true_body, Some(false_body))];
    for _ in 0..6 {
        statements.push(expression(&mut ids));
    }
    let body = block(&mut ids, statements);
    let cfg = graph_of_block(&body);
    assert_eq!(cfg.nodes.len(), 48);
}

#[test]
fn simple_program_function5() {
    // s; while (c) { while (c) { s; } s; }
    let mut ids = Ids(0);
    let innermost = vec![expression(&mut ids)];
    let innermost = block_body(&mut ids, innermost);
    let inner = vec![while_statement(&mut ids, innermost), expression(&mut ids)];
    let inner = block_body(&mut ids, inner);
    let statements = vec![declaration(&mut ids), while_statement(&mut ids, inner)];
    let body = block(&mut ids, statements);
    let cfg = graph_of_block(&body);
    assert_eq!(cfg.nodes.len(), 25);
}

#[test]
fn simple_program_function6() {
    // s; for (init; cond; update) { if (c) { s; } } s;
    let mut ids = Ids(0);
    let a = vec![expression(&mut ids)];
    let a = block_body(&mut ids, a);
    let inner = vec![if_statement(&mut ids, a, None)];
    let inner = block_body(&mut ids, inner);
    let statements =
        vec![declaration(&mut ids), for_statement(&mut ids, inner), expression(&mut ids)];
    let body = block(&mut ids, statements);
    let cfg = graph_of_block(&body);
    assert_eq!(cfg.nodes.len(), 31);
}

#[test]
fn simple_program_function7() {
    // s; do { s; s; s; } while (c); followed by five statements
    let mut ids = Ids(0);
    let inner = vec![expression(&mut ids), expression(&mut ids), expression(&mut ids)];
    let inner = block(&mut ids, inner);
    let mut statements = vec![declaration(&mut ids), do_while_statement(&mut ids, inner)];
    for _ in 0..5 {
        statements.push(expression(&mut ids));
    }
    let body = block(&mut ids, statements);
    let cfg = graph_of_block(&body);
    assert_eq!(cfg.nodes.len(), 22);
}

#[test]
fn simple_program_function8() {
    // for (..) { s; } while (c) { s; } do { s; } while (c); if (c) s;
    let mut ids = Ids(0);
    let a = vec![expression(&mut ids)];
    let a = block_body(&mut ids, a);
    let b = vec![expression(&mut ids)];
    let b = block_body(&mut ids, b);
    let c = vec![expression(&mut ids)];
    let c = block(&mut ids, c);
    let d = BlockOrStatement::Statement(Box::new(expression(&mut ids)));
    let statements = vec![
        for_statement(&mut ids, a),
        while_statement(&mut ids, b),
        do_while_statement(&mut ids, c),
        if_statement(&mut ids, d, None),
    ];
    let body = block(&mut ids, statements);
    let cfg = graph_of_block(&body);
    assert_eq!(cfg.nodes.len(), 48);
}

#[test]
fn simple_program_function9() {
    // s; unchecked { s; s; } unchecked { s; s; s; s; }
    let mut ids = Ids(0);
    let a = vec![expression(&mut ids), expression(&mut ids)];
    let a = block(&mut ids, a);
    let b = vec![
        expression(&mut ids),
        expression(&mut ids),
        expression(&mut ids),
        expression(&mut ids),
    ];
    let b = block(&mut ids, b);
    let statements =
        vec![declaration(&mut ids), Statement::UncheckedBlock(a), Statement::UncheckedBlock(b)];
    let body = block(&mut ids, statements);
    let cfg = graph_of_block(&body);
    assert_eq!(cfg.nodes.len(), 15);
}

#[test]
fn simple_program_function10() {
    // Five simple statements
    let mut ids = Ids(0);
    let statements = vec![
        declaration(&mut ids),
        expression(&mut ids),
        expression(&mut ids),
        expression(&mut ids),
        return_statement(&mut ids),
    ];
    let body = block(&mut ids, statements);
    let cfg = graph_of_block(&body);
    assert_eq!(cfg.nodes.len(), 9);
}

// Accept function body (after the jumps are corrected)

#[test]
fn simple_program_function11() {
    // s; while (c) { if (c) { break; } s; } s;
    let mut ids = Ids(0);
    let a = vec![break_statement(&mut ids)];
    let a = block_body(&mut ids, a);
    let inner = vec![if_statement(&mut ids, a, None), expression(&mut ids)];
    let inner = block_body(&mut ids, inner);
    let statements =
        vec![declaration(&mut ids), while_statement(&mut ids, inner), expression(&mut ids)];
    let body = block(&mut ids, statements);
    let function_definition = function(&mut ids, Some(body));
    let (cfg, _, _) = graph_of_function(&function_definition);
    assert_eq!(cfg.nodes.len(), 26);
    assert_eq!(cfg.total_edges(), 27);
}

#[test]
fn simple_program_function12() {
    // s; for (..) { if (c) { continue; } s; } while (c) { s; } s;
    let mut ids = Ids(0);
    let a = vec![continue_statement(&mut ids)];
    let a = block_body(&mut ids, a);
    let inner = vec![if_statement(&mut ids, a, None), expression(&mut ids)];
    let inner = block_body(&mut ids, inner);
    let b = vec![expression(&mut ids)];
    let b = block_body(&mut ids, b);
    let statements = vec![
        declaration(&mut ids),
        for_statement(&mut ids, inner),
        while_statement(&mut ids, b),
        return_statement(&mut ids),
    ];
    let body = block(&mut ids, statements);
    let function_definition = function(&mut ids, Some(body));
    let (cfg, _, _) = graph_of_function(&function_definition);
    assert_eq!(cfg.nodes.len(), 42);
    assert_eq!(cfg.total_edges(), 44);
}

#[test]
fn simple_program_function13() {
    // while (c) { if (c) { continue; } if (c) { break; } s; } s; s;
    let mut ids = Ids(0);
    let a = vec![continue_statement(&mut ids)];
    let a = block_body(&mut ids, a);
    let b = vec![break_statement(&mut ids)];
    let b = block_body(&mut ids, b);
    let inner = vec![
        if_statement(&mut ids, a, None),
        if_statement(&mut ids, b, None),
        expression(&mut ids),
    ];
    let inner = block_body(&mut ids, inner);
    let statements =
        vec![while_statement(&mut ids, inner), expression(&mut ids), return_statement(&mut ids)];
    let body = block(&mut ids, statements);
    let function_definition = function(&mut ids, Some(body));
    let (cfg, _, _) = graph_of_function(&function_definition);
    assert_eq!(cfg.nodes.len(), 36);
    assert_eq!(cfg.total_edges(), 38);
}

#[test]
fn simple_program_function14() {
    // while (c) { while (c) { if (c) { break; } s; } if (c) { break; } } s; s; s;
    let mut ids = Ids(0);
    let a = vec![break_statement(&mut ids)];
    let a = block_body(&mut ids, a);
    let innermost = vec![if_statement(&mut ids, a, None), expression(&mut ids)];
    let innermost = block_body(&mut ids, innermost);
    let b = vec![break_statement(&mut ids)];
    let b = block_body(&mut ids, b);
    let inner = vec![while_statement(&mut ids, innermost), if_statement(&mut ids, b, None)];
    let inner = block_body(&mut ids, inner);
    let statements = vec![
        while_statement(&mut ids, inner),
        expression(&mut ids),
        expression(&mut ids),
        return_statement(&mut ids),
    ];
    let body = block(&mut ids, statements);
    let function_definition = function(&mut ids, Some(body));
    let (cfg, _, _) = graph_of_function(&function_definition);
    assert_eq!(cfg.nodes.len(), 46);
    assert_eq!(cfg.total_edges(), 49);
}

#[test]
fn simple_program_function15() {
    // for (..) { while (c) { do { if (c) { break; } } while (c); if (c) { continue; } }
    // if (c) { return; } } s; s; s;
    let mut ids = Ids(0);
    let a = vec![break_statement(&mut ids)];
    let a = block_body(&mut ids, a);
    let do_body = vec![if_statement(&mut ids, a, None)];
    let do_body = block(&mut ids, do_body);
    let b = vec![continue_statement(&mut ids)];
    let b = block_body(&mut ids, b);
    let while_body = vec![do_while_statement(&mut ids, do_body), if_statement(&mut ids, b, None)];
    let while_body = block_body(&mut ids, while_body);
    let c = vec![return_statement(&mut ids)];
    let c = block_body(&mut ids, c);
    let for_body = vec![while_statement(&mut ids, while_body), if_statement(&mut ids, c, None)];
    let for_body = block_body(&mut ids, for_body);
    let statements = vec![
        for_statement(&mut ids, for_body),
        expression(&mut ids),
        expression(&mut ids),
        expression(&mut ids),
    ];
    let body = block(&mut ids, statements);
    let function_definition = function(&mut ids, Some(body));
    let (cfg, _, _) = graph_of_function(&function_definition);
    assert_eq!(cfg.nodes.len(), 70);
    assert_eq!(cfg.total_edges(), 75);
}

#[test]
fn simple_program_function16() {
    // for (..) { if (c) { continue; } while (c) { if (c) { break; } s; } s; }
    // do { if (c) { continue; } s; } while (c); if (c) { return; } s; s;
    let mut ids = Ids(0);
    let a = vec![continue_statement(&mut ids)];
    let a = block_body(&mut ids, a);
    let b = vec![break_statement(&mut ids)];
    let b = block_body(&mut ids, b);
    let while_body = vec![if_statement(&mut ids, b, None), expression(&mut ids)];
    let while_body = block_body(&mut ids, while_body);
    let for_body = vec![
        if_statement(&mut ids, a, None),
        while_statement(&mut ids, while_body),
        expression(&mut ids),
    ];
    let for_body = block_body(&mut ids, for_body);
    let c = vec![continue_statement(&mut ids)];
    let c = block_body(&mut ids, c);
    let do_body = vec![if_statement(&mut ids, c, None), expression(&mut ids)];
    let do_body = block(&mut ids, do_body);
    let d = vec![return_statement(&mut ids)];
    let d = block_body(&mut ids, d);
    let statements = vec![
        for_statement(&mut ids, for_body),
        do_while_statement(&mut ids, do_body),
        if_statement(&mut ids, d, None),
        expression(&mut ids),
        expression(&mut ids),
    ];
    let body = block(&mut ids, statements);
    let function_definition = function(&mut ids, Some(body));
    let (cfg, _, _) = graph_of_function(&function_definition);
    assert_eq!(cfg.nodes.len(), 82);
    assert_eq!(cfg.total_edges(), 88);
}

// Laws of the construction, on chosen bodies

#[test]
fn straight_line_body_is_a_chain() {
    let mut ids = Ids(0);
    let statements = vec![
        declaration(&mut ids),
        expression(&mut ids),
        expression(&mut ids),
        expression(&mut ids),
    ];
    let body = block(&mut ids, statements);
    let cfg = graph_of_block(&body);
    // four statements between the block's sentinels, between the outer sentinels
    assert_eq!(cfg.total_nodes(), 4 + 4);
    assert_eq!(cfg.total_edges(), 4 + 3);
    let mut at = CfgNodeId(0);
    let mut seen = vec![at.peek()];
    while !at.children(&cfg).is_empty() {
        at = only_child(&cfg, at);
        seen.push(at.peek());
    }
    assert_eq!(seen, vec![0, 3, 5, 6, 7, 8, 4, 1]);
}

#[test]
fn empty_block_joins_its_sentinels() {
    let mut ids = Ids(0);
    let body = block(&mut ids, vec![]);
    let cfg = graph_of_block(&body);
    assert_eq!(cfg.total_nodes(), 4);
    assert_eq!(only_child(&cfg, CfgNodeId(0)), CfgNodeId(3));
    assert_eq!(only_child(&cfg, CfgNodeId(3)), CfgNodeId(4));
    assert_eq!(only_child(&cfg, CfgNodeId(4)), CfgNodeId(1));
    assert!(CfgNodeId(1).children(&cfg).is_empty());
}

#[test]
fn no_reducible_node_is_left() {
    let mut ids = Ids(0);
    let a = vec![break_statement(&mut ids)];
    let a = block_body(&mut ids, a);
    let inner = vec![if_statement(&mut ids, a, None)];
    let inner = block_body(&mut ids, inner);
    let b = vec![expression(&mut ids)];
    let b = block(&mut ids, b);
    let statements = vec![
        for_statement(&mut ids, inner),
        do_while_statement(&mut ids, b),
        return_statement(&mut ids),
    ];
    let body = block(&mut ids, statements);
    let function_definition = function(&mut ids, Some(body));
    let (cfg, _, _) = graph_of_function(&function_definition);
    for node in cfg.nodes.values() {
        assert_ne!(node.nd.kind(), aderyn_core::context::flow::kind::CfgNodeKind::Reducible);
    }
}

#[test]
fn for_loop_with_break_then_return() {
    // s; for (init; cond; update) { break; } return;
    let mut ids = Ids(0);
    let inner = vec![break_statement(&mut ids)];
    let inner = block_body(&mut ids, inner);
    let statements =
        vec![declaration(&mut ids), for_statement(&mut ids, inner), return_statement(&mut ids)];
    let body = block(&mut ids, statements);
    let function_definition = function(&mut ids, Some(body));
    let (cfg, start, end) = graph_of_function(&function_definition);
    assert_eq!(cfg.total_nodes(), 22);
    assert_eq!(cfg.total_edges(), 22);

    let for_starts = find_nodes(&cfg, |nd| {
        matches!(
            nd,
            CfgNodeDescriptor::Start(aderyn_core::context::flow::voids::CfgStartNode::StartFor(_))
        )
    });
    assert_eq!(for_starts.len(), 1);
    let for_end = cfg.find_ending_counter_part(for_starts[0]);

    let breaks = find_nodes(&cfg, |nd| matches!(nd, CfgNodeDescriptor::Break(_)));
    assert_eq!(breaks.len(), 1);
    assert_eq!(breaks[0].children(&cfg), vec![for_end]);

    let returns = find_nodes(&cfg, |nd| matches!(nd, CfgNodeDescriptor::Return(_)));
    assert_eq!(returns.len(), 1);
    assert_eq!(returns[0].children(&cfg), vec![end]);
    assert_eq!(cfg.find_ending_counter_part(start), end);

    // start -> block start -> declaration -> for start
    let block_start = only_child(&cfg, start);
    let declaration = only_child(&cfg, block_start);
    assert_eq!(only_child(&cfg, declaration), for_starts[0]);
    // for end -> return
    assert_eq!(only_child(&cfg, for_end), returns[0]);
}
