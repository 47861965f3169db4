use aderyn_core::ast::ast_nodes::{
    Assignment, BinaryOperation, Block, BlockOrStatement, Break, Expression, ExpressionStatement,
    ForStatement, FunctionCall, FunctionCallKind, Identifier, IfStatement, Literal, LiteralKind,
    Statement, TryStatement, TupleExpression, TypeDescriptions, WhileStatement,
};
use aderyn_core::ast::node::{HasUniqueID, NodeType};
use aderyn_core::config_helpers::{
    append_from_config, append_if_missing, derive_from_build_config, holds_text, merge_lists,
    AderynConfig,
};
use aderyn_core::context::browser::extractor::collect_subexpressions;
use aderyn_core::context::callgraph::Error;
use aderyn_core::context::flow::budget::{cost_of_block, cost_of_statement};
use aderyn_core::context::workspace_context::{AstNodeRef, WorkspaceContext};
use aderyn_core::detect::detector::{capture, each_once, holds, key_of, IssueSeverity};
use aderyn_core::detect::nc::unindexed_events::UnindexedEventsDetector;
use aderyn_core::report::{is_reported_line, Issue, Report};
use aderyn_core::text::{str_contains, str_starts_with};

fn strings(items: &[&str]) -> Vec<String> {
    items.iter().map(|s| s.to_string()).collect()
}

#[test]
fn substring_search() {
    assert!(str_contains("lib/solmate/src", "solmate"));
    assert!(str_contains("solmate", "solmate"));
    assert!(str_contains("anything", ""));
    assert!(str_contains("", ""));
    assert!(!str_contains("", "x"));
    assert!(!str_contains("solmat", "solmate"));
    assert!(!str_contains("SOLMATE", "solmate"));
    assert!(str_contains("aaab", "aab"));
    assert!(str_starts_with("t_function_external_payable", "t_function_external"));
    assert!(!str_starts_with("t_function", "t_function_external"));
    assert!(!str_starts_with("xt_function_external", "t_function_external"));
    assert!(str_starts_with("abc", ""));
}

#[test]
fn lists_are_merged_without_repeats() {
    let mut list = strings(&["a", "b"]);
    assert!(holds_text(&list, &"a".to_string()));
    assert!(!holds_text(&list, &"c".to_string()));
    append_if_missing(&mut list, &"a".to_string());
    assert_eq!(list, strings(&["a", "b"]));
    append_if_missing(&mut list, &"c".to_string());
    assert_eq!(list, strings(&["a", "b", "c"]));

    let local = Some(strings(&["src/", "lib/"]));
    let extra = Some(strings(&["lib/", "test/", "test/", "src/", "script/"]));
    assert_eq!(merge_lists(&local, &extra), Some(strings(&["src/", "lib/", "test/", "script/"])));
    assert_eq!(merge_lists(&local, &None), local);
    // without paths of its own the run takes those of the configuration as they are
    assert_eq!(merge_lists(&None, &extra), extra);
    assert_eq!(merge_lists(&None, &None), None);
    assert_eq!(merge_lists(&Some(vec![]), &Some(strings(&["a", "a"]))), Some(strings(&["a"])));
}

#[test]
fn configuration_adds_to_what_is_asked_for() {
    let config = AderynConfig {
        src: Some("contracts".to_string()),
        exclude: Some(strings(&["mocks/", "test/"])),
        remappings: None,
        scope: Some(strings(&["core/"])),
    };
    let (src, exclude, remappings, scope) = append_from_config(
        &config,
        &Some(strings(&["src"])),
        &Some(strings(&["test/"])),
        &Some(strings(&["a=b"])),
        &None,
    );
    assert_eq!(src, Some(strings(&["src", "contracts"])));
    assert_eq!(exclude, Some(strings(&["test/", "mocks/"])));
    assert_eq!(remappings, Some(strings(&["a=b"])));
    assert_eq!(scope, Some(strings(&["core/"])));

    let (src, _, _, _) =
        append_from_config(&config, &Some(strings(&["contracts"])), &None, &None, &None);
    assert_eq!(src, Some(strings(&["contracts"])));
    let (src, _, _, _) = append_from_config(&config, &None, &None, &None, &None);
    assert_eq!(src, Some(strings(&["contracts"])));
}

#[test]
fn build_configuration_gives_the_defaults() {
    let libs = strings(&["lib", "node_modules"]);
    let remappings = strings(&["forge-std/=lib/forge-std/src/"]);
    let (src, exclude, mapped) = derive_from_build_config(
        &"src".to_string(),
        &"script".to_string(),
        &"test".to_string(),
        &libs,
        &remappings,
        &None,
        &None,
    );
    assert_eq!(src, Some(strings(&["src"])));
    assert_eq!(exclude, Some(strings(&["test/", "script/", "lib/", "node_modules/"])));
    assert_eq!(mapped, Some(remappings.clone()));

    let (src, exclude, mapped) = derive_from_build_config(
        &"src".to_string(),
        &"script".to_string(),
        &"test".to_string(),
        &libs,
        &remappings,
        &Some(strings(&["contracts", "interfaces"])),
        &Some(strings(&["contracts/mocks/"])),
    );
    assert_eq!(src, Some(strings(&["contracts", "interfaces"])));
    assert_eq!(exclude, Some(strings(&["contracts/mocks/"])));
    assert_eq!(mapped, Some(remappings));
}

fn issue(title: &str) -> Issue {
    Issue {
        title: title.to_string(),
        description: String::new(),
        detector_name: String::new(),
        instances: vec![],
    }
}

#[test]
fn issues_are_filed_by_severity() {
    let mut report = Report::new();
    report.file_issue(issue("a"), IssueSeverity::High);
    report.file_issue(issue("b"), IssueSeverity::Low);
    report.file_issue(issue("c"), IssueSeverity::High);
    report.file_issue(issue("d"), IssueSeverity::Medium);
    let titles = |issues: &Vec<Issue>| issues.iter().map(|i| i.title.clone()).collect::<Vec<_>>();
    assert_eq!(titles(&report.highs), strings(&["a", "c"]));
    assert_eq!(titles(&report.lows), strings(&["b"]));
}

#[test]
fn ignored_lines_are_not_reported() {
    assert!(is_reported_line(3, &None));
    assert!(is_reported_line(3, &Some(vec![])));
    assert!(is_reported_line(3, &Some(vec![1, 2, 4])));
    assert!(!is_reported_line(3, &Some(vec![1, 3])));
}

#[test]
fn findings_are_noted_once() {
    let mut found = vec![];
    capture(&mut found, 5);
    capture(&mut found, 7);
    capture(&mut found, 5);
    assert_eq!(found, vec![5, 7]);
    assert!(holds(&found, 7));
    assert!(!holds(&found, 6));
}

#[test]
fn call_graph_errors_carry_their_words() {
    let error = Error::custom("no entry point");
    assert_eq!(error.message(), Some("no entry point"));
    let error: Error = String::from("converted").into();
    assert_eq!(error.message(), Some("converted"));
    assert_eq!(Error::CallgraphNotAvailable.message(), None);
    assert_eq!(Error::InvalidEntryPointId(4).message(), None);
}

fn types() -> TypeDescriptions {
    TypeDescriptions { type_identifier: None, type_string: None }
}

fn literal(id: i64) -> Expression {
    Expression::Literal(Literal {
        id,
        src: String::from("0:1:0"),
        argument_types: None,
        is_constant: false,
        is_l_value: false,
        is_pure: true,
        l_value_requested: false,
        type_descriptions: types(),
        hex_value: None,
        value: None,
        subdenomination: None,
        kind: LiteralKind::Number,
    })
}

fn identifier(id: i64) -> Expression {
    Expression::Identifier(Identifier {
        id,
        src: String::from("0:1:0"),
        argument_types: None,
        name: String::from("x"),
        overloaded_declarations: vec![],
        referenced_declaration: None,
        type_descriptions: types(),
    })
}

fn binary(id: i64, left: Expression, right: Expression) -> Expression {
    Expression::BinaryOperation(BinaryOperation {
        id,
        src: String::from("0:1:0"),
        argument_types: None,
        is_constant: false,
        is_l_value: false,
        is_pure: false,
        l_value_requested: false,
        type_descriptions: types(),
        common_type: types(),
        left_expression: Box::new(left),
        right_expression: Box::new(right),
        operator: String::from("+"),
    })
}

fn call(id: i64, callee: Expression, arguments: Vec<Expression>) -> FunctionCall {
    FunctionCall {
        id,
        src: String::from("0:1:0"),
        argument_types: None,
        is_constant: false,
        is_l_value: false,
        is_pure: false,
        l_value_requested: false,
        type_descriptions: types(),
        kind: FunctionCallKind::FunctionCall,
        try_call: false,
        names: vec![],
        arguments,
        expression: Box::new(callee),
    }
}

fn ids_of(expressions: &[&Expression]) -> Vec<i64> {
    expressions.iter().map(|e| e.get_node_id().unwrap()).collect()
}

#[test]
fn subexpressions_come_parents_first() {
    let tuple = Expression::TupleExpression(TupleExpression {
        id: 7,
        src: String::from("0:1:0"),
        argument_types: None,
        is_constant: false,
        is_l_value: false,
        is_pure: false,
        l_value_requested: false,
        type_descriptions: types(),
        components: vec![Some(literal(8)), None, Some(identifier(9))],
        is_inline_array: false,
    });
    let assignment = Expression::Assignment(Assignment {
        id: 1,
        src: String::from("0:1:0"),
        argument_types: None,
        is_constant: false,
        is_l_value: false,
        is_pure: false,
        l_value_requested: false,
        type_descriptions: types(),
        left_hand_side: Box::new(identifier(2)),
        right_hand_side: Box::new(Expression::FunctionCall(call(
            3,
            identifier(4),
            vec![binary(5, literal(6), tuple), literal(10)],
        ))),
        operator: String::from("="),
    });
    let another = literal(11);
    let mut out = vec![];
    collect_subexpressions(&assignment, &mut out);
    assert_eq!(ids_of(&out), vec![1, 2, 3, 4, 5, 6, 7, 8, 9, 10]);
    // the list is added to, not replaced
    collect_subexpressions(&another, &mut out);
    assert_eq!(ids_of(&out), vec![1, 2, 3, 4, 5, 6, 7, 8, 9, 10, 11]);
}

fn src() -> String {
    String::from("0:0:0")
}

fn jump(id: i64) -> Statement {
    Statement::Break(Break { id, src: src(), documentation: None })
}

fn block(id: i64, statements: Vec<Statement>) -> Block {
    Block { id, src: src(), statements }
}

fn while_loop(id: i64, body: Block) -> Statement {
    Statement::WhileStatement(WhileStatement {
        id,
        src: src(),
        condition: literal(id + 1),
        body: BlockOrStatement::Block(Box::new(body)),
        documentation: None,
    })
}

#[test]
fn expansion_costs_count_every_node() {
    assert_eq!(cost_of_statement(&jump(1)), Some(0));
    assert_eq!(cost_of_block(&block(1, vec![])), Some(2));
    assert_eq!(cost_of_block(&block(1, vec![jump(2), jump(3)])), Some(4));
    // a loop: eight nodes of its own, among them the body, and the body's two sentinels and
    // statement
    let looping = while_loop(1, block(3, vec![jump(4)]));
    assert_eq!(cost_of_statement(&looping), Some(8 + 3));
    let nested = block(10, vec![while_loop(1, block(3, vec![jump(4)])), jump(5)]);
    assert_eq!(cost_of_block(&nested), Some(2 + 1 + 11 + 1));
    let conditional = Statement::IfStatement(IfStatement {
        id: 20,
        src: src(),
        condition: literal(21),
        true_body: BlockOrStatement::Statement(Box::new(jump(22))),
        false_body: Some(BlockOrStatement::Block(Box::new(block(23, vec![])))),
    });
    assert_eq!(cost_of_statement(&conditional), Some(8 + 3 + 2));
    let counting = Statement::ForStatement(ForStatement {
        id: 30,
        src: src(),
        initialization_expression: Some(Box::new(jump(31))),
        condition: Some(literal(32)),
        loop_expression: None,
        body: BlockOrStatement::Statement(Box::new(jump(33))),
    });
    assert_eq!(cost_of_statement(&counting), Some(11 + 1 + 1));
}

#[test]
fn registry_tells_what_it_knows() {
    let body = block(3, vec![jump(1), while_loop(4, block(6, vec![jump(7)]))]);
    let mut context = WorkspaceContext::new();
    assert!(context.register_block(&body));
    // the block, its two statements, the condition, the inner block and its statement
    assert_eq!(context.nodes.len(), 6);
    assert!(matches!(context.get(3), Some(AstNodeRef::Block(_))));
    assert!(matches!(context.get(1), Some(AstNodeRef::Break(_))));
    assert!(matches!(context.get(4), Some(AstNodeRef::WhileStatement(_))));
    assert!(matches!(context.get(5), Some(AstNodeRef::Expression(_))));
    assert!(matches!(context.get(6), Some(AstNodeRef::Block(_))));
    assert!(context.get(99).is_none());
    assert_eq!(context.get(4).unwrap().node_type(), NodeType::WhileStatement);
    assert_eq!(context.get(5).unwrap().node_type(), NodeType::Literal);
    assert_eq!(context.get(4).unwrap().id(), 4);
    assert_eq!(context.pending_for_block(3), Some(2 + 1 + 1 + 11));
    assert_eq!(context.pending_for_block(99), Some(2));
}

#[test]
fn registry_refuses_try_statements() {
    let attempt = Statement::TryStatement(TryStatement {
        id: 2,
        src: src(),
        clauses: vec![],
        external_call: call(3, identifier(4), vec![]),
    });
    let body = block(1, vec![jump(5), attempt]);
    let mut context = WorkspaceContext::new();
    assert!(!context.register_block(&body));
    // what was registered before the refusal stays
    assert!(matches!(context.get(5), Some(AstNodeRef::Break(_))));
    assert!(context.get(1).is_none());
}

#[test]
fn ancestors_are_found_by_kind() {
    let statement = Statement::ExpressionStatement(ExpressionStatement {
        id: 2,
        src: src(),
        expression: identifier(1),
    });
    let inner = block(3, vec![statement]);
    let looping = while_loop(4, inner);
    let outer = block(6, vec![looping]);
    let mut context = WorkspaceContext::new();
    assert!(context.register_block(&outer));
    context.parents.insert(1, 2);
    context.parents.insert(2, 3);
    context.parents.insert(3, 4);
    context.parents.insert(4, 6);

    assert_eq!(context.get_closest_ancestor(1, NodeType::Block).unwrap().id(), 3);
    assert_eq!(context.get_closest_ancestor(3, NodeType::Block).unwrap().id(), 6);
    assert_eq!(context.get_closest_ancestor(1, NodeType::WhileStatement).unwrap().id(), 4);
    assert!(context.get_closest_ancestor(1, NodeType::ForStatement).is_none());
    assert!(context.get_closest_ancestor(6, NodeType::Block).is_none());
    assert!(context.is_below(1, 6));
    assert!(context.is_below(1, 2));
    assert!(!context.is_below(6, 1));
    assert!(!context.is_below(1, 1));
    // a cycle of parent links does not keep the search going
    context.parents.insert(6, 1);
    assert!(context.get_closest_ancestor(1, NodeType::ForStatement).is_none());
    assert!(!context.is_below(1, 99));
}

#[test]
fn source_text_is_peeked_by_span() {
    let text = "if (x) { break; }";
    let body = block(
        2,
        vec![Statement::Break(Break { id: 1, src: String::from("9:6:0"), documentation: None })],
    );
    let mut context = WorkspaceContext::with_source(text);
    assert!(context.register_block(&body));
    assert_eq!(context.peek_at(1), Some(String::from("break;")));
    assert_eq!(context.peek(&context.get(1).unwrap()), Some(String::from("break;")));
    assert_eq!(context.peek_at(7), None);
    // the span of the block is empty
    assert_eq!(context.peek_at(2), Some(String::new()));
    let outside = block(
        4,
        vec![Statement::Break(Break { id: 3, src: String::from("9:60:0"), documentation: None })],
    );
    assert!(context.register_block(&outside));
    assert_eq!(context.peek_at(3), None);
    let blind = WorkspaceContext::new();
    assert_eq!(blind.peek_at(1), None);
}

#[test]
fn unique_identity_needs_the_source_unit() {
    let body = block(2, vec![jump(1)]);
    let mut context = WorkspaceContext::new();
    assert!(context.register_block(&body));
    let node = context.get(1).unwrap();
    assert_eq!(node.uid(&context), None);
    context.source_unit_id = Some(40);
    assert_eq!(node.uid(&context), Some((40, 1)));
}

#[test]
fn findings_are_keyed_by_file_line_and_span() {
    let text = "contract C {\n  function f() public {\n    break;\n  }\n}\n";
    let offset = text.find("break").unwrap();
    let span = format!("{}:6:0", offset);
    let jump = Statement::Break(Break { id: 7, src: span.clone(), documentation: None });
    let unreadable = Statement::Break(Break { id: 8, src: String::from("x:1:0"), documentation: None });
    let beyond = Statement::Break(Break { id: 9, src: String::from("999:1:0"), documentation: None });
    let body = Block { id: 1, src: String::from("0:1:0"), statements: vec![jump, unreadable, beyond] };
    let mut context = WorkspaceContext::with_source(text);
    assert!(context.register_block(&body));
    assert_eq!(key_of(&context, "C.sol", 7), (String::from("C.sol"), 3, span.clone()));
    assert_eq!(key_of(&context, "C.sol", 1), (String::from("C.sol"), 1, String::from("0:1:0")));
    // a span without an offset, and one behind the end of the text
    assert_eq!(key_of(&context, "C.sol", 8), (String::from("C.sol"), 0, String::from("x:1:0")));
    assert_eq!(key_of(&context, "C.sol", 9), (String::from("C.sol"), 0, String::from("999:1:0")));
    // a node that the registry does not know
    assert_eq!(key_of(&context, "C.sol", 42), (String::from("C.sol"), 0, String::new()));
    // without the source text the line is not known
    let mut blind = WorkspaceContext::new();
    assert!(blind.register_block(&body));
    assert_eq!(key_of(&blind, "C.sol", 7), (String::from("C.sol"), 0, span));
}

#[test]
fn a_detector_is_fit_while_no_finding_is_held_twice() {
    assert!(each_once(&vec![]));
    assert!(each_once(&vec![3, 1, 2]));
    assert!(!each_once(&vec![3, 1, 3]));
    assert!(!each_once(&vec![1, 1]));
    let mut detector = UnindexedEventsDetector::default();
    assert!(detector.is_wf());
    detector.found_instances.push(5);
    detector.found_instances.push(6);
    assert!(detector.is_wf());
    detector.found_instances.push(5);
    assert!(!detector.is_wf());
}
