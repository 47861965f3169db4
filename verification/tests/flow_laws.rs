use aderyn_core::ast::ast_nodes::{
    Block, BlockOrStatement, Break, Continue, DoWhileStatement, Expression, ExpressionStatement,
    ForStatement, FunctionDefinition, FunctionKind, IfStatement, Literal, LiteralKind,
    ModifierDefinition, ParameterList, PlaceholderStatement, Return, Statement, StateMutability,
    TypeDescriptions, VariableDeclarationStatement, Visibility, WhileStatement,
};
use aderyn_core::context::flow::kind::CfgNodeKind;
use aderyn_core::context::flow::primitives::CfgBreakStatement;
use aderyn_core::context::flow::reducibles::{CfgBlock, CfgIfStatement};
use aderyn_core::context::flow::voids::{CfgEndNode, CfgStartNode};
use aderyn_core::context::flow::utils::{
    discover_jump_sources, find_jump_dest, reachable_from, Callibration,
};
use aderyn_core::context::flow::{Cfg, CfgNodeDescriptor, CfgNodeId};
use aderyn_core::context::workspace_context::{AstNodeRef, WorkspaceContext};

/// Hands out the identities of the nodes of a hand-built syntax tree.
struct Ids(i64);

impl Ids {
    fn next(&mut self) -> i64 {
        self.0 += 1;
        self.0
    }
}

fn src() -> String {
    String::from("0:0:0")
}

fn condition(ids: &mut Ids) -> Expression {
    Expression::Literal(Literal {
        id: ids.next(),
        src: src(),
        argument_types: None,
        is_constant: false,
        is_l_value: false,
        is_pure: true,
        l_value_requested: false,
        type_descriptions: TypeDescriptions {
            type_identifier: Some(String::from("t_bool")),
            type_string: Some(String::from("bool")),
        },
        hex_value: None,
        value: Some(String::from("true")),
        subdenomination: None,
        kind: LiteralKind::Bool,
    })
}

fn declaration(ids: &mut Ids) -> Statement {
    Statement::VariableDeclarationStatement(VariableDeclarationStatement {
        id: ids.next(),
        src: src(),
        assignments: vec![],
        declarations: vec![],
        initial_value: None,
    })
}

fn expression_statement(ids: &mut Ids) -> ExpressionStatement {
    ExpressionStatement { id: ids.next(), src: src(), expression: condition(ids) }
}

fn expression(ids: &mut Ids) -> Statement {
    Statement::ExpressionStatement(expression_statement(ids))
}

fn break_statement(ids: &mut Ids) -> Statement {
    Statement::Break(Break { id: ids.next(), src: src(), documentation: None })
}

fn continue_statement(ids: &mut Ids) -> Statement {
    Statement::Continue(Continue { id: ids.next(), src: src(), documentation: None })
}

fn return_statement(ids: &mut Ids) -> Statement {
    Statement::Return(Return {
        id: ids.next(),
        src: src(),
        function_return_parameters: 0,
        expression: None,
    })
}

fn block(ids: &mut Ids, statements: Vec<Statement>) -> Block {
    Block { id: ids.next(), src: src(), statements }
}

fn block_body(ids: &mut Ids, statements: Vec<Statement>) -> BlockOrStatement {
    BlockOrStatement::Block(Box::new(block(ids, statements)))
}

fn if_statement(
    ids: &mut Ids,
    true_body: BlockOrStatement,
    false_body: Option<BlockOrStatement>,
) -> Statement {
    Statement::IfStatement(IfStatement {
        id: ids.next(),
        src: src(),
        condition: condition(ids),
        true_body,
        false_body,
    })
}

fn while_statement(ids: &mut Ids, body: BlockOrStatement) -> Statement {
    Statement::WhileStatement(WhileStatement {
        id: ids.next(),
        src: src(),
        condition: condition(ids),
        body,
        documentation: None,
    })
}

fn do_while_statement(ids: &mut Ids, body: Block) -> Statement {
    Statement::DoWhileStatement(DoWhileStatement {
        id: ids.next(),
        src: src(),
        documentation: None,
        body,
        condition: condition(ids),
    })
}

fn for_statement(ids: &mut Ids, body: BlockOrStatement) -> Statement {
    Statement::ForStatement(ForStatement {
        id: ids.next(),
        src: src(),
        initialization_expression: Some(Box::new(declaration(ids))),
        condition: Some(condition(ids)),
        loop_expression: Some(Box::new(expression_statement(ids))),
        body,
    })
}

fn function(ids: &mut Ids, body: Option<Block>) -> FunctionDefinition {
    FunctionDefinition {
        id: ids.next(),
        src: src(),
        base_functions: None,
        body,
        documentation: None,
        function_selector: None,
        implemented: true,
        kind: Some(FunctionKind::Function),
        state_mutability: Some(StateMutability::NonPayable),
        is_virtual: false,
        is_constructor: false,
        is_declared_const: false,
        is_payable: false,
        modifiers: vec![],
        name: String::from("function"),
        name_location: None,
        overrides: None,
        parameters: ParameterList { id: ids.next(), src: src(), parameters: vec![] },
        return_parameters: ParameterList { id: ids.next(), src: src(), parameters: vec![] },
        scope: 0,
        super_function: None,
        virtual_flag: None,
        visibility: Visibility::External,
    }
}

/// Builds the graph of a bare block, as `accept_block` leaves it.
fn graph_of_block(body: &Block) -> Cfg {
    let mut context = WorkspaceContext::new();
    assert!(context.register_block(body));
    let mut cfg = Cfg::new();
    cfg.accept_block(&context, body);
    cfg
}

/// Builds the graph of a function body, jumps corrected.
fn graph_of_function(function_definition: &FunctionDefinition) -> (Cfg, CfgNodeId, CfgNodeId) {
    let mut context = WorkspaceContext::new();
    assert!(context.register_block(function_definition.body.as_ref().unwrap()));
    let mut cfg = Cfg::new();
    let (start, end) = cfg.accept_function_body(&context, function_definition).unwrap();
    (cfg, start, end)
}

fn only_child(cfg: &Cfg, id: CfgNodeId) -> CfgNodeId {
    let children = id.children(cfg);
    assert_eq!(children.len(), 1);
    children[0]
}

fn find_nodes(cfg: &Cfg, pick: fn(&CfgNodeDescriptor) -> bool) -> Vec<CfgNodeId> {
    let mut found: Vec<CfgNodeId> =
        cfg.nodes.values().filter(|node| pick(&node.nd)).map(|node| node.id).collect();
    found.sort_by_key(|id| id.peek());
    found
}


fn single(found: Vec<CfgNodeId>) -> CfgNodeId {
    assert_eq!(found.len(), 1);
    found[0]
}

fn is_start_if(nd: &CfgNodeDescriptor) -> bool {
    matches!(nd, CfgNodeDescriptor::Start(CfgStartNode::StartIf(_)))
}

fn is_start_while(nd: &CfgNodeDescriptor) -> bool {
    matches!(nd, CfgNodeDescriptor::Start(CfgStartNode::StartWhile(_)))
}

fn is_start_do_while(nd: &CfgNodeDescriptor) -> bool {
    matches!(nd, CfgNodeDescriptor::Start(CfgStartNode::StartDoWhile(_)))
}

fn is_start_for(nd: &CfgNodeDescriptor) -> bool {
    matches!(nd, CfgNodeDescriptor::Start(CfgStartNode::StartFor(_)))
}

fn is_break(nd: &CfgNodeDescriptor) -> bool {
    matches!(nd, CfgNodeDescriptor::Break(_))
}

fn is_continue(nd: &CfgNodeDescriptor) -> bool {
    matches!(nd, CfgNodeDescriptor::Continue(_))
}

fn is_return(nd: &CfgNodeDescriptor) -> bool {
    matches!(nd, CfgNodeDescriptor::Return(_))
}

fn offset(id: CfgNodeId, by: usize) -> CfgNodeId {
    CfgNodeId(id.peek() + by)
}

/// Follows single successors from `from` until `to` is met.
fn leads_to(cfg: &Cfg, from: CfgNodeId, to: CfgNodeId) -> bool {
    let mut at = from;
    for _ in 0..cfg.total_nodes() + 1 {
        if at == to {
            return true;
        }
        let children = at.children(cfg);
        if children.len() != 1 {
            return false;
        }
        at = children[0];
    }
    false
}

#[test]
fn if_branches_meet_at_the_end_sentinel() {
    // if (c) { s; } else { s; s; }
    let mut ids = Ids(0);
    let a = vec![expression(&mut ids)];
    let a = block_body(&mut ids, a);
    let b = vec![expression(&mut ids), expression(&mut ids)];
    let b = block_body(&mut ids, b);
    let statements = vec![if_statement(&mut ids, a, Some(b))];
    let body = block(&mut ids, statements);
    let cfg = graph_of_block(&body);

    let start = single(find_nodes(&cfg, is_start_if));
    let end = cfg.find_ending_counter_part(start);
    assert_eq!(end, offset(start, 1));
    // start -> condition start -> condition -> condition end
    let condition_end = offset(start, 3);
    assert!(leads_to(&cfg, start, condition_end));
    // exactly two ways on from the condition
    let outcomes = condition_end.children(&cfg);
    assert_eq!(outcomes.len(), 2);
    assert_ne!(outcomes[0], outcomes[1]);
    assert!(matches!(
        cfg.nodes.get(&outcomes[0].peek()).unwrap().nd,
        CfgNodeDescriptor::Start(CfgStartNode::StartIfTrue)
    ));
    assert!(matches!(
        cfg.nodes.get(&outcomes[1].peek()).unwrap().nd,
        CfgNodeDescriptor::Start(CfgStartNode::StartIfFalse)
    ));
    // both lead to the same end sentinel
    assert!(leads_to(&cfg, outcomes[0], end));
    assert!(leads_to(&cfg, outcomes[1], end));
    assert!(matches!(
        cfg.nodes.get(&end.peek()).unwrap().nd,
        CfgNodeDescriptor::End(CfgEndNode::EndIf(_))
    ));
}

#[test]
fn if_without_else_leads_to_the_end_directly() {
    let mut ids = Ids(0);
    let a = vec![expression(&mut ids)];
    let a = block_body(&mut ids, a);
    let statements = vec![if_statement(&mut ids, a, None)];
    let body = block(&mut ids, statements);
    let cfg = graph_of_block(&body);
    let start = single(find_nodes(&cfg, is_start_if));
    let end = cfg.find_ending_counter_part(start);
    let outcomes = offset(start, 3).children(&cfg);
    assert_eq!(outcomes.len(), 2);
    assert_eq!(outcomes[1], end);
    assert!(leads_to(&cfg, outcomes[0], end));
}

#[test]
fn while_loop_has_back_edge_and_exit() {
    let mut ids = Ids(0);
    let a = vec![expression(&mut ids), expression(&mut ids)];
    let a = block_body(&mut ids, a);
    let statements = vec![while_statement(&mut ids, a)];
    let body = block(&mut ids, statements);
    let cfg = graph_of_block(&body);
    let start = single(find_nodes(&cfg, is_start_while));
    let end = cfg.find_ending_counter_part(start);
    let condition = cfg.find_condition_node(start);
    let condition_end = offset(start, 3);
    let body_start = offset(start, 4);
    let body_end = offset(start, 5);
    assert_eq!(only_child(&cfg, start), condition);
    assert!(leads_to(&cfg, condition, condition_end));
    assert_eq!(condition_end.children(&cfg), vec![body_start, end]);
    assert!(leads_to(&cfg, body_start, body_end));
    assert_eq!(body_end.children(&cfg), vec![condition]);
}

#[test]
fn do_while_loop_runs_the_body_first() {
    let mut ids = Ids(0);
    let a = vec![expression(&mut ids)];
    let a = block(&mut ids, a);
    let statements = vec![do_while_statement(&mut ids, a)];
    let body = block(&mut ids, statements);
    let cfg = graph_of_block(&body);
    let start = single(find_nodes(&cfg, is_start_do_while));
    let end = cfg.find_ending_counter_part(start);
    let condition = cfg.find_condition_node(start);
    let body_start = offset(start, 2);
    let body_end = offset(start, 3);
    let condition_end = offset(start, 5);
    assert_eq!(only_child(&cfg, start), body_start);
    assert!(leads_to(&cfg, body_start, body_end));
    assert_eq!(body_end.children(&cfg), vec![condition]);
    assert!(leads_to(&cfg, condition, condition_end));
    assert_eq!(condition_end.children(&cfg), vec![body_start, end]);
}

#[test]
fn for_loop_has_back_edge_from_the_update() {
    let mut ids = Ids(0);
    let a = vec![expression(&mut ids)];
    let a = block_body(&mut ids, a);
    let statements = vec![for_statement(&mut ids, a)];
    let body = block(&mut ids, statements);
    let cfg = graph_of_block(&body);
    let start = single(find_nodes(&cfg, is_start_for));
    let end = cfg.find_ending_counter_part(start);
    let condition = cfg.find_condition_node(start);
    let update = cfg.find_loop_expression_node(start);
    let condition_end = offset(start, 5);
    let body_start = offset(start, 6);
    let body_end = offset(start, 7);
    let update_end = offset(start, 9);
    // start -> initializer -> condition
    assert!(leads_to(&cfg, start, condition));
    assert!(leads_to(&cfg, condition, condition_end));
    assert_eq!(condition_end.children(&cfg), vec![body_start, end]);
    assert!(leads_to(&cfg, body_start, body_end));
    assert_eq!(body_end.children(&cfg), vec![update]);
    assert!(leads_to(&cfg, update, update_end));
    assert_eq!(update_end.children(&cfg), vec![condition]);
}

#[test]
fn for_loop_without_parts_joins_its_sentinels() {
    let mut ids = Ids(0);
    let a = vec![expression(&mut ids)];
    let a = block_body(&mut ids, a);
    let bare = Statement::ForStatement(ForStatement {
        id: ids.next(),
        src: src(),
        initialization_expression: None,
        condition: None,
        loop_expression: None,
        body: a,
    });
    let body = block(&mut ids, vec![bare]);
    let cfg = graph_of_block(&body);
    let start = single(find_nodes(&cfg, is_start_for));
    // ten sentinels, the body's block (two sentinels and a statement), the outer four
    assert_eq!(cfg.total_nodes(), 10 + 3 + 4);
    assert_eq!(only_child(&cfg, offset(start, 2)), offset(start, 3));
    assert_eq!(only_child(&cfg, offset(start, 4)), offset(start, 5));
    assert_eq!(only_child(&cfg, offset(start, 8)), offset(start, 9));
}

#[test]
fn break_flows_to_the_end_of_the_innermost_loop() {
    // while (c) { while (c) { break; } s; }
    let mut ids = Ids(0);
    let inner = vec![break_statement(&mut ids)];
    let inner = block_body(&mut ids, inner);
    let outer = vec![while_statement(&mut ids, inner), expression(&mut ids)];
    let outer = block_body(&mut ids, outer);
    let statements = vec![while_statement(&mut ids, outer)];
    let body = block(&mut ids, statements);
    let function_definition = function(&mut ids, Some(body));
    let (cfg, _, _) = graph_of_function(&function_definition);

    let loops = find_nodes(&cfg, is_start_while);
    assert_eq!(loops.len(), 2);
    // the outer loop was expanded first
    let outer_end = cfg.find_ending_counter_part(loops[0]);
    let inner_end = cfg.find_ending_counter_part(loops[1]);
    assert_ne!(outer_end, inner_end);
    let jump = single(find_nodes(&cfg, is_break));
    assert_eq!(jump.children(&cfg), vec![inner_end]);
}

#[test]
fn break_after_an_inner_loop_flows_to_the_outer_end() {
    // while (c) { while (c) { s; } break; }
    let mut ids = Ids(0);
    let inner = vec![expression(&mut ids)];
    let inner = block_body(&mut ids, inner);
    let outer = vec![while_statement(&mut ids, inner), break_statement(&mut ids)];
    let outer = block_body(&mut ids, outer);
    let statements = vec![while_statement(&mut ids, outer)];
    let body = block(&mut ids, statements);
    let function_definition = function(&mut ids, Some(body));
    let (cfg, _, _) = graph_of_function(&function_definition);
    let loops = find_nodes(&cfg, is_start_while);
    let outer_end = cfg.find_ending_counter_part(loops[0]);
    let jump = single(find_nodes(&cfg, is_break));
    assert_eq!(jump.children(&cfg), vec![outer_end]);
}

#[test]
fn break_before_an_inner_loop_flows_to_the_outer_end() {
    // do { if (c) { break; } for (..) { s; } } while (c);
    let mut ids = Ids(0);
    let a = vec![break_statement(&mut ids)];
    let a = block_body(&mut ids, a);
    let b = vec![expression(&mut ids)];
    let b = block_body(&mut ids, b);
    let outer = vec![if_statement(&mut ids, a, None), for_statement(&mut ids, b)];
    let outer = block(&mut ids, outer);
    let statements = vec![do_while_statement(&mut ids, outer)];
    let body = block(&mut ids, statements);
    let function_definition = function(&mut ids, Some(body));
    let (cfg, _, _) = graph_of_function(&function_definition);
    let outer_start = single(find_nodes(&cfg, is_start_do_while));
    let outer_end = cfg.find_ending_counter_part(outer_start);
    let jump = single(find_nodes(&cfg, is_break));
    assert_eq!(jump.children(&cfg), vec![outer_end]);
}

#[test]
fn continue_in_for_flows_to_the_update_expression() {
    // for (..) { if (c) { continue; } s; }
    let mut ids = Ids(0);
    let a = vec![continue_statement(&mut ids)];
    let a = block_body(&mut ids, a);
    let inner = vec![if_statement(&mut ids, a, None), expression(&mut ids)];
    let inner = block_body(&mut ids, inner);
    let statements = vec![for_statement(&mut ids, inner)];
    let body = block(&mut ids, statements);
    let function_definition = function(&mut ids, Some(body));
    let (cfg, _, _) = graph_of_function(&function_definition);
    let start = single(find_nodes(&cfg, is_start_for));
    let update = cfg.find_loop_expression_node(start);
    let condition = cfg.find_condition_node(start);
    assert_ne!(update, condition);
    let jump = single(find_nodes(&cfg, is_continue));
    assert_eq!(jump.children(&cfg), vec![update]);
}

#[test]
fn continue_in_while_and_do_while_flows_to_the_condition() {
    // while (c) { continue; } do { continue; } while (c);
    let mut ids = Ids(0);
    let a = vec![continue_statement(&mut ids)];
    let a = block_body(&mut ids, a);
    let b = vec![continue_statement(&mut ids)];
    let b = block(&mut ids, b);
    let statements = vec![while_statement(&mut ids, a), do_while_statement(&mut ids, b)];
    let body = block(&mut ids, statements);
    let function_definition = function(&mut ids, Some(body));
    let (cfg, _, _) = graph_of_function(&function_definition);
    let while_start = single(find_nodes(&cfg, is_start_while));
    let do_while_start = single(find_nodes(&cfg, is_start_do_while));
    let jumps = find_nodes(&cfg, is_continue);
    assert_eq!(jumps.len(), 2);
    for jump in jumps {
        // the `continue` of the `while` loop was the first node of the tree
        let inside_while = match cfg.nodes.get(&jump.peek()).unwrap().nd {
            CfgNodeDescriptor::Continue(c) => c.continue_statement == 1,
            _ => unreachable!(),
        };
        let expected = if inside_while {
            cfg.find_condition_node(while_start)
        } else {
            cfg.find_condition_node(do_while_start)
        };
        assert_eq!(jump.children(&cfg), vec![expected]);
    }
}

#[test]
fn jumps_outside_loops_flow_to_the_end_of_the_body() {
    // break; continue; s;
    let mut ids = Ids(0);
    let statements =
        vec![break_statement(&mut ids), continue_statement(&mut ids), expression(&mut ids)];
    let body = block(&mut ids, statements);
    let function_definition = function(&mut ids, Some(body));
    let (cfg, _, end) = graph_of_function(&function_definition);
    // only the first jump can be reached once it flows to the end
    let first = single(find_nodes(&cfg, is_break));
    assert_eq!(first.children(&cfg), vec![end]);
    let second = single(find_nodes(&cfg, is_continue));
    assert_eq!(second.children(&cfg), vec![end]);
}

#[test]
fn return_flows_to_the_end_however_deep() {
    // while (c) { for (..) { if (c) { do { return; } while (c); } } } return;
    let mut ids = Ids(0);
    let a = vec![return_statement(&mut ids)];
    let a = block(&mut ids, a);
    let b = vec![do_while_statement(&mut ids, a)];
    let b = block_body(&mut ids, b);
    let c = vec![if_statement(&mut ids, b, None)];
    let c = block_body(&mut ids, c);
    let d = vec![for_statement(&mut ids, c)];
    let d = block_body(&mut ids, d);
    let statements = vec![while_statement(&mut ids, d), return_statement(&mut ids)];
    let body = block(&mut ids, statements);
    let function_definition = function(&mut ids, Some(body));
    let (cfg, _, end) = graph_of_function(&function_definition);
    let returns = find_nodes(&cfg, is_return);
    assert_eq!(returns.len(), 2);
    for jump in returns {
        assert_eq!(jump.children(&cfg), vec![end]);
    }
}

#[test]
fn accept_block_leaves_jumps_chained() {
    // while (c) { break; s; }
    let mut ids = Ids(0);
    let inner = vec![break_statement(&mut ids), expression(&mut ids)];
    let inner = block_body(&mut ids, inner);
    let statements = vec![while_statement(&mut ids, inner)];
    let body = block(&mut ids, statements);
    let cfg = graph_of_block(&body);
    let jump = single(find_nodes(&cfg, is_break));
    let next = only_child(&cfg, jump);
    assert!(matches!(
        cfg.nodes.get(&next.peek()).unwrap().nd,
        CfgNodeDescriptor::ExpressionStatement(_)
    ));
}

#[test]
fn function_without_body_yields_no_graph() {
    let mut ids = Ids(0);
    let function_definition = function(&mut ids, None);
    let context = WorkspaceContext::new();
    let mut cfg = Cfg::new();
    assert_eq!(cfg.accept_function_body(&context, &function_definition), None);
    assert_eq!(cfg.total_nodes(), 0);
    assert_eq!(cfg.total_edges(), 0);
    assert!(Cfg::from_function_body(&context, &function_definition).is_none());
}

#[test]
fn from_function_body_builds_a_fresh_graph() {
    let mut ids = Ids(0);
    let statements = vec![expression(&mut ids), return_statement(&mut ids)];
    let body = block(&mut ids, statements);
    let function_definition = function(&mut ids, Some(body));
    let mut context = WorkspaceContext::new();
    assert!(context.register_block(function_definition.body.as_ref().unwrap()));
    let (cfg, start, end) = Cfg::from_function_body(&context, &function_definition).unwrap();
    assert_eq!(start, CfgNodeId(0));
    assert_eq!(end, CfgNodeId(1));
    assert_eq!(cfg.total_nodes(), 6);
    assert_eq!(cfg.find_ending_counter_part(start), end);
    assert!(matches!(
        cfg.nodes.get(&0).unwrap().nd,
        CfgNodeDescriptor::Start(CfgStartNode::StartFunctionBody(_))
    ));
    assert!(matches!(
        cfg.nodes.get(&1).unwrap().nd,
        CfgNodeDescriptor::End(CfgEndNode::EndFunctionBody(_))
    ));
}

#[test]
fn unknown_block_expands_to_its_sentinels() {
    let mut ids = Ids(0);
    let statements = vec![expression(&mut ids)];
    let body = block(&mut ids, statements);
    // the registry does not know the block
    let context = WorkspaceContext::new();
    let mut cfg = Cfg::new();
    let (start, end) = cfg.accept_block(&context, &body);
    assert_eq!(cfg.total_nodes(), 4);
    assert_eq!(cfg.total_edges(), 3);
    assert!(leads_to(&cfg, start, end));
}

#[test]
fn queries_give_the_same_answer_twice() {
    let mut ids = Ids(0);
    let a = vec![break_statement(&mut ids)];
    let a = block_body(&mut ids, a);
    let statements = vec![for_statement(&mut ids, a), return_statement(&mut ids)];
    let body = block(&mut ids, statements);
    let function_definition = function(&mut ids, Some(body));
    let mut context = WorkspaceContext::new();
    assert!(context.register_block(function_definition.body.as_ref().unwrap()));
    let (cfg, _, _) = Cfg::from_function_body(&context, &function_definition).unwrap();
    for node in cfg.nodes.values() {
        assert_eq!(node.id.children(&cfg), node.id.children(&cfg));
        let first = node.reflect(&context).map(|n| n.id());
        let second = node.reflect(&context).map(|n| n.id());
        assert_eq!(first, second);
    }
    let start = single(find_nodes(&cfg, is_start_for));
    assert_eq!(cfg.find_ending_counter_part(start), cfg.find_ending_counter_part(start));
    assert_eq!(cfg.find_condition_node(start), cfg.find_condition_node(start));
    assert_eq!(cfg.find_loop_expression_node(start), cfg.find_loop_expression_node(start));
    assert_eq!(cfg.total_nodes(), cfg.total_nodes());
    assert_eq!(cfg.total_edges(), cfg.total_edges());
}

#[test]
fn reflect_leads_back_to_the_statement() {
    let mut ids = Ids(0);
    let statements = vec![declaration(&mut ids), break_statement(&mut ids)];
    let body = block(&mut ids, statements);
    let mut context = WorkspaceContext::new();
    assert!(context.register_block(&body));
    let mut cfg = Cfg::new();
    cfg.accept_block(&context, &body);
    // sentinels reflect to nothing
    assert!(cfg.nodes.get(&0).unwrap().reflect(&context).is_none());
    assert!(cfg.nodes.get(&3).unwrap().reflect(&context).is_none());
    let first = cfg.nodes.get(&5).unwrap().reflect(&context).unwrap();
    assert!(matches!(first, AstNodeRef::VariableDeclarationStatement(_)));
    assert_eq!(first.id(), 1);
    let second = cfg.nodes.get(&6).unwrap().reflect(&context).unwrap();
    assert!(matches!(second, AstNodeRef::Break(_)));
    assert_eq!(second.id(), 2);
    // a registry that has not seen the tree reflects nothing
    let empty = WorkspaceContext::new();
    assert!(cfg.nodes.get(&5).unwrap().reflect(&empty).is_none());
}

#[test]
fn registry_refuses_what_it_cannot_resolve() {
    let mut ids = Ids(0);
    // the same identity twice
    let twice = vec![
        Statement::Break(Break { id: 7, src: src(), documentation: None }),
        Statement::Break(Break { id: 7, src: src(), documentation: None }),
    ];
    let body = block(&mut ids, twice);
    let mut context = WorkspaceContext::new();
    assert!(!context.register_block(&body));
    // a block must not be registered twice either
    let statements = vec![expression(&mut ids)];
    let body = block(&mut ids, statements);
    let mut context = WorkspaceContext::new();
    assert!(context.register_block(&body));
    assert!(!context.register_block(&body));
}

#[test]
fn graph_edges_can_be_made_and_removed() {
    let mut cfg = Cfg::new();
    let a = cfg.add_node(CfgNodeDescriptor::Start(CfgStartNode::Start));
    let b = cfg.add_node(CfgNodeDescriptor::Break(CfgBreakStatement { break_statement: 1 }));
    let c = cfg.add_node(CfgNodeDescriptor::End(CfgEndNode::End));
    assert_eq!((a, b, c), (CfgNodeId(0), CfgNodeId(1), CfgNodeId(2)));
    assert_eq!(cfg.total_nodes(), 3);
    cfg.add_flow_edge(a, b);
    cfg.add_flow_edge(a, c);
    cfg.add_flow_edge(b, c);
    assert_eq!(cfg.total_edges(), 3);
    assert_eq!(a.children(&cfg), vec![b, c]);
    assert_eq!(cfg.raw_predecessors(c), vec![a, b]);
    assert_eq!(cfg.raw_predecessors(a), Vec::<CfgNodeId>::new());
    assert!(cfg.has_raw_edge(0, 2));
    assert!(!cfg.has_raw_edge(2, 0));
    cfg.remove_flow_edge(a, b);
    assert_eq!(a.children(&cfg), vec![c]);
    cfg.reset_raw_successors(a, b);
    assert_eq!(a.children(&cfg), vec![b]);
    cfg.remove_raw_edges_involving(c);
    assert_eq!(b.children(&cfg), Vec::<CfgNodeId>::new());
    assert_eq!(cfg.total_edges(), 1);
}

#[test]
fn only_reducible_nodes_are_queued() {
    let block_node = CfgNodeDescriptor::Block(CfgBlock { block: 1 });
    let if_node = CfgNodeDescriptor::IfStatement(CfgIfStatement { if_statement: 2 });
    assert_eq!(block_node.kind(), CfgNodeKind::Reducible);
    assert_eq!(if_node.kind(), CfgNodeKind::Reducible);
    assert_eq!(CfgNodeDescriptor::Start(CfgStartNode::StartIfCond).kind(), CfgNodeKind::Void);
    assert_eq!(CfgNodeDescriptor::End(CfgEndNode::EndBlock(3)).kind(), CfgNodeKind::Void);
    assert_eq!(
        CfgNodeDescriptor::Break(CfgBreakStatement { break_statement: 1 }).kind(),
        CfgNodeKind::Primitive
    );
    // a queued node is reduced by reduce_next
    let context = WorkspaceContext::new();
    let mut cfg = Cfg::new();
    let id = cfg.add_node(block_node);
    assert!(cfg.reduce_next(&context));
    assert!(cfg.nodes.get(&id.peek()).is_none());
    assert!(!cfg.reduce_next(&context));
    assert_eq!(cfg.total_nodes(), 2);
}

#[test]
fn descriptors_are_rendered_for_a_reader() {
    let text = "contract C { function f() public { uint a = 1; break; } }";
    let mut ids = Ids(0);
    let declaration = Statement::VariableDeclarationStatement(VariableDeclarationStatement {
        id: ids.next(),
        src: String::from("35:10:0"),
        assignments: vec![],
        declarations: vec![],
        initial_value: None,
    });
    let jump = Statement::Break(Break { id: ids.next(), src: String::from("47:5:0"), documentation: None });
    let body = block(&mut ids, vec![declaration, jump]);
    let mut context = WorkspaceContext::with_source(text);
    assert!(context.register_block(&body));
    let mut cfg = Cfg::new();
    cfg.accept_block(&context, &body);
    let shown = |id: usize| cfg.nodes.get(&id).unwrap().nd.display(&context);
    assert_eq!(shown(0), "START");
    assert_eq!(shown(1), "END");
    assert_eq!(shown(3), "START BLOCK (3)");
    assert_eq!(shown(4), "END BLOCK (3)");
    assert_eq!(shown(5), "Variable Decl. Stmt (1): \nuint a = 1");
    assert_eq!(shown(6), "BREAK (2)");
    // without the source text only the title is shown
    let mut blind = WorkspaceContext::new();
    assert!(blind.register_block(&body));
    assert_eq!(cfg.nodes.get(&5).unwrap().nd.display(&blind), "Variable Decl. Stmt (1)");
    assert_eq!(CfgStartNode::StartIfTrue.peek(), "START IF TRUE BRANCH");
    assert_eq!(CfgEndNode::EndFor(-4).peek(), "END FOR (-4)");
    assert_eq!(
        CfgNodeDescriptor::IfStatement(CfgIfStatement { if_statement: 2 }).display(&context),
        "REDUCIBLE IF-STATEMENT"
    );
    assert_eq!(
        CfgNodeDescriptor::Block(CfgBlock { block: 2 }).display(&context),
        "REDUCIBLE BLOCK"
    );
}

#[test]
fn modifier_body_is_built_between_its_sentinels() {
    // modifier m() { if (c) { return; } _; }
    let mut ids = Ids(0);
    let a = vec![return_statement(&mut ids)];
    let a = block_body(&mut ids, a);
    let placeholder = Statement::PlaceholderStatement(PlaceholderStatement {
        id: ids.next(),
        src: src(),
        documentation: None,
    });
    let statements = vec![if_statement(&mut ids, a, None), placeholder];
    let body = block(&mut ids, statements);
    let modifier = ModifierDefinition {
        id: ids.next(),
        src: src(),
        body,
        base_modifiers: None,
        overrides: None,
        documentation: None,
        name: String::from("m"),
        name_location: None,
        parameters: ParameterList { id: ids.next(), src: src(), parameters: vec![] },
        virtual_flag: None,
        visibility: Visibility::Internal,
    };
    let mut context = WorkspaceContext::new();
    assert!(context.register_block(&modifier.body));
    let mut cfg = Cfg::new();
    assert!(cfg.has_room_for(&context, &modifier.body));
    let (start, end) = cfg.accept_modifier_body(&context, &modifier);
    assert!(matches!(
        cfg.nodes.get(&start.peek()).unwrap().nd,
        CfgNodeDescriptor::Start(CfgStartNode::StartModifierBody(_))
    ));
    assert!(matches!(
        cfg.nodes.get(&end.peek()).unwrap().nd,
        CfgNodeDescriptor::End(CfgEndNode::EndModifierBody(_))
    ));
    assert_eq!(cfg.find_ending_counter_part(start), end);
    // outer sentinels, block sentinels, the `if` with its block and statement, the placeholder
    assert_eq!(cfg.total_nodes(), 2 + 2 + 7 + 3 + 1);
    let jump = single(find_nodes(&cfg, is_return));
    assert_eq!(jump.children(&cfg), vec![end]);
    let placeholder = single(find_nodes(&cfg, |nd| {
        matches!(nd, CfgNodeDescriptor::PlaceholderStatement(_))
    }));
    assert_eq!(
        cfg.nodes.get(&placeholder.peek()).unwrap().nd.display(&context),
        "Placeholder statement (3): \n_"
    );
}

#[test]
fn reduction_replaces_one_node_at_a_time() {
    // s; { s; }
    let mut ids = Ids(0);
    let inner = vec![expression(&mut ids)];
    let inner = block(&mut ids, inner);
    let statements = vec![declaration(&mut ids), Statement::Block(inner)];
    let body = block(&mut ids, statements);
    let mut context = WorkspaceContext::new();
    assert!(context.register_block(&body));

    let mut cfg = Cfg::new();
    let start = cfg.add_start_node();
    let end = cfg.add_end_node();
    let node = cfg.add_block_node(&body);
    cfg.add_flow_edge(start, node);
    cfg.add_flow_edge(node, end);
    assert_eq!(cfg.pending_nodes(&context), Some(2 + 1 + 1 + 3));

    // the body: its sentinels, the declaration and the inner block
    assert!(cfg.reduce_next(&context));
    assert!(cfg.nodes.get(&node.peek()).is_none());
    assert_eq!(cfg.total_nodes(), 2 + 4);
    assert_eq!(start.children(&cfg), vec![CfgNodeId(3)]);
    assert_eq!(cfg.raw_predecessors(end), vec![CfgNodeId(4)]);
    assert_eq!(cfg.nodes.get(&6).unwrap().nd.kind(), CfgNodeKind::Reducible);
    assert_eq!(cfg.pending_nodes(&context), Some(3));

    // the inner block
    assert!(cfg.reduce_next(&context));
    assert_eq!(cfg.total_nodes(), 2 + 3 + 3);
    assert_eq!(CfgNodeId(5).children(&cfg), vec![CfgNodeId(7)]);
    assert_eq!(CfgNodeId(8).children(&cfg), vec![CfgNodeId(4)]);
    assert_eq!(cfg.pending_nodes(&context), Some(0));
    assert!(!cfg.reduce_next(&context));
}

#[test]
fn corrections_are_made_as_proposed() {
    let mut cfg = Cfg::new();
    let a = cfg.add_node(CfgNodeDescriptor::Break(CfgBreakStatement { break_statement: 1 }));
    let b = cfg.add_node(CfgNodeDescriptor::Break(CfgBreakStatement { break_statement: 2 }));
    let c = cfg.add_node(CfgNodeDescriptor::Break(CfgBreakStatement { break_statement: 3 }));
    let end = cfg.add_end_node();
    cfg.add_flow_edge(a, b);
    cfg.add_flow_edge(b, c);
    cfg.add_flow_edge(b, a);
    cfg.add_flow_edge(c, end);
    cfg.callibrate(
        vec![
            Callibration::BreakShouldFlowTo(a, c),
            Callibration::ReturnShouldFlowToEndNode(b),
        ],
        end,
    );
    assert_eq!(a.children(&cfg), vec![c]);
    assert_eq!(b.children(&cfg), vec![end]);
    assert_eq!(c.children(&cfg), vec![end]);
}

#[test]
fn traversal_meets_every_reachable_node_once() {
    // while (c) { if (c) { break; } continue; } return;
    let mut ids = Ids(0);
    let a = vec![break_statement(&mut ids)];
    let a = block_body(&mut ids, a);
    let inner = vec![if_statement(&mut ids, a, None), continue_statement(&mut ids)];
    let inner = block_body(&mut ids, inner);
    let statements = vec![while_statement(&mut ids, inner), return_statement(&mut ids)];
    let body = block(&mut ids, statements);
    let cfg = graph_of_block(&body);

    let reached = reachable_from(&cfg, CfgNodeId(0));
    assert_eq!(reached.len(), cfg.total_nodes());
    let mut seen: Vec<usize> = reached.iter().map(|id| id.peek()).collect();
    seen.sort();
    seen.dedup();
    assert_eq!(seen.len(), reached.len());
    // from the end nothing else is reached
    assert_eq!(reachable_from(&cfg, CfgNodeId(1)), vec![CfgNodeId(1)]);

    let found = discover_jump_sources(&cfg, CfgNodeId(0));
    assert_eq!(found.break_statements, find_nodes(&cfg, is_break));
    assert_eq!(found.continue_statements, find_nodes(&cfg, is_continue));
    assert_eq!(found.return_statements, find_nodes(&cfg, is_return));

    // both jumps of the loop find the loop, the `return` behind it finds none
    let start = single(find_nodes(&cfg, is_start_while));
    assert_eq!(find_jump_dest(&cfg, found.break_statements[0]), Some(start));
    assert_eq!(find_jump_dest(&cfg, found.continue_statements[0]), Some(start));
    assert_eq!(find_jump_dest(&cfg, found.return_statements[0]), None);
}

#[test]
fn body_sentinels_are_added_in_order() {
    let mut cfg = Cfg::new();
    let a = cfg.add_start_function_body_node(11);
    let b = cfg.add_end_function_body_node(11);
    let c = cfg.add_start_modifier_body_node(12);
    let d = cfg.add_end_modifier_body_node(12);
    assert_eq!((a, b, c, d), (CfgNodeId(0), CfgNodeId(1), CfgNodeId(2), CfgNodeId(3)));
    assert_eq!(cfg.total_nodes(), 4);
    assert_eq!(cfg.total_edges(), 0);
    assert_eq!(
        cfg.nodes.get(&0).map(|node| node.nd),
        Some(CfgNodeDescriptor::Start(CfgStartNode::StartFunctionBody(11)))
    );
    assert_eq!(
        cfg.nodes.get(&1).map(|node| node.nd),
        Some(CfgNodeDescriptor::End(CfgEndNode::EndFunctionBody(11)))
    );
    assert_eq!(
        cfg.nodes.get(&2).map(|node| node.nd),
        Some(CfgNodeDescriptor::Start(CfgStartNode::StartModifierBody(12)))
    );
    assert_eq!(
        cfg.nodes.get(&3).map(|node| node.nd),
        Some(CfgNodeDescriptor::End(CfgEndNode::EndModifierBody(12)))
    );
    assert!(cfg.reduction_queue.is_empty());
}

#[test]
fn an_identity_is_changed_in_place() {
    let mut id = CfgNodeId(4);
    assert_eq!(id.peek(), 4);
    *id.peek_mut() = 9;
    assert_eq!(id, CfgNodeId(9));
    assert_eq!(id.peek(), 9);
}

#[test]
fn an_edge_is_made_once() {
    let mut cfg = Cfg::new();
    let a = cfg.add_node(CfgNodeDescriptor::Start(CfgStartNode::Start));
    let b = cfg.add_node(CfgNodeDescriptor::Break(CfgBreakStatement { break_statement: 1 }));
    let c = cfg.add_node(CfgNodeDescriptor::End(CfgEndNode::End));
    cfg.add_flow_edge(a, b);
    cfg.add_flow_edge(a, c);
    assert_eq!(cfg.total_edges(), 2);
    // the edge is there already: nothing changes
    cfg.add_flow_edge(a, b);
    assert_eq!(cfg.total_edges(), 2);
    assert_eq!(cfg.raw_successors(a), vec![b, c]);
    assert_eq!(cfg.raw_successors(a).iter().filter(|id| **id == b).count(), 1);
    cfg.add_raw_directed_edge(a, c);
    cfg.add_raw_directed_edge(b, c);
    cfg.add_raw_directed_edge(b, c);
    assert_eq!(cfg.raw_successors(a), vec![b, c]);
    assert_eq!(cfg.raw_successors(b), vec![c]);
    assert_eq!(cfg.total_edges(), 3);
    // once removed, the edge can be made again, and comes last
    cfg.remove_flow_edge(a, b);
    cfg.add_flow_edge(a, b);
    assert_eq!(cfg.raw_successors(a), vec![c, b]);
}

#[test]
fn a_new_graph_is_empty() {
    let cfg = Cfg::new();
    assert!(cfg.nodes.is_empty());
    assert!(cfg.adj_list.is_empty());
    assert!(cfg.reduction_queue.is_empty());
    assert_eq!(cfg.total_nodes(), 0);
    assert_eq!(cfg.total_edges(), 0);
    assert!(cfg.start_end_pairs.is_empty());
    assert!(cfg.start_cond_pairs.is_empty());
    assert!(cfg.start_loop_expr.is_empty());
    assert!(cfg.loop_expr_start.is_empty());
    assert!(cfg.cond_start_pairs.is_empty());
}
