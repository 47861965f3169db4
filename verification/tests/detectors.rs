use aderyn_core::ast::ast_nodes::{
    Assignment, BinaryOperation, Block, BlockOrStatement, EventDefinition, Expression,
    ExpressionStatement, ForStatement, FunctionCall, FunctionCallKind, FunctionDefinition,
    FunctionKind, Identifier, IdentifierOrIdentifierPath, IdentifierPath, IfStatement,
    ImportDirective, Literal, LiteralKind, MemberAccess, ModifierDefinition, ModifierInvocation,
    Mutability, ParameterList, Statement, StateMutability, StorageLocation, TypeDescriptions,
    UnaryOperation, VariableDeclaration, VariableDeclarationStatement, Visibility,
};
use aderyn_core::context::workspace_context::WorkspaceContext;
use aderyn_core::detect::detector::{DetectionError, IssueSeverity};
use aderyn_core::detect::experimental::closest_ancestor::ClosestAncestorDemonstrator;
use aderyn_core::detect::high::enumerable_loop_removal::EnumerableLoopRemovalDetector;
use aderyn_core::detect::high::misused_boolean::MisusedBooleanDetector;
use aderyn_core::detect::high::state_change_after_ext_call::StateChangeAfterExternalCallDetector;
use aderyn_core::detect::low::uninitialized_local_variables::UninitializedLocalVariableDetector;
use aderyn_core::detect::low::uninitialized_state_variable::UninitializedStateVariable;
use aderyn_core::detect::medium::different_storage_conditionals::DifferentStorageConditionalDetector;
use aderyn_core::detect::medium::solmate_safe_transfer_lib::SolmateSafeTransferLibDetector;
use aderyn_core::detect::nc::non_reentrant_before_others::NonReentrantBeforeOthersDetector;
use aderyn_core::detect::nc::unindexed_events::UnindexedEventsDetector;
use aderyn_core::detect::nc::useless_modifier::UselessModifierDetector;
use aderyn_core::detect::nc::useless_public_function::UselessPublicFunctionDetector;

/// Hands out the identities of the nodes of a hand-built syntax tree.
struct Ids(i64);

impl Ids {
    fn next(&mut self) -> i64 {
        self.0 += 1;
        self.0
    }
}

fn src() -> String {
    String::from("0:0:0")
}

fn typed(type_identifier: &str, type_string: &str) -> TypeDescriptions {
    TypeDescriptions {
        type_identifier: Some(String::from(type_identifier)),
        type_string: Some(String::from(type_string)),
    }
}

fn uint() -> TypeDescriptions {
    typed("t_uint256", "uint256")
}

fn literal(ids: &mut Ids, kind: LiteralKind, type_string: &str, value: &str) -> Expression {
    Expression::Literal(Literal {
        id: ids.next(),
        src: src(),
        argument_types: None,
        is_constant: false,
        is_l_value: false,
        is_pure: true,
        l_value_requested: false,
        type_descriptions: typed("t", type_string),
        hex_value: None,
        value: Some(String::from(value)),
        subdenomination: None,
        kind,
    })
}

fn number(ids: &mut Ids) -> Expression {
    literal(ids, LiteralKind::Number, "uint256", "1")
}

fn boolean(ids: &mut Ids, value: &str) -> Expression {
    literal(ids, LiteralKind::Bool, "bool", value)
}

fn identifier_node(ids: &mut Ids, name: &str, refers_to: Option<i64>) -> Identifier {
    Identifier {
        id: ids.next(),
        src: src(),
        argument_types: None,
        name: String::from(name),
        overloaded_declarations: vec![],
        referenced_declaration: refers_to,
        type_descriptions: uint(),
    }
}

fn identifier(ids: &mut Ids, name: &str, refers_to: Option<i64>) -> Expression {
    Expression::Identifier(identifier_node(ids, name, refers_to))
}

fn binary_node(ids: &mut Ids, operator: &str, left: Expression, right: Expression) -> BinaryOperation {
    BinaryOperation {
        id: ids.next(),
        src: src(),
        argument_types: None,
        is_constant: false,
        is_l_value: false,
        is_pure: false,
        l_value_requested: false,
        type_descriptions: typed("t_bool", "bool"),
        common_type: uint(),
        left_expression: Box::new(left),
        right_expression: Box::new(right),
        operator: String::from(operator),
    }
}

fn assignment_node(ids: &mut Ids, left: Expression, right: Expression) -> Assignment {
    Assignment {
        id: ids.next(),
        src: src(),
        argument_types: None,
        is_constant: false,
        is_l_value: false,
        is_pure: false,
        l_value_requested: false,
        type_descriptions: uint(),
        left_hand_side: Box::new(left),
        right_hand_side: Box::new(right),
        operator: String::from("="),
    }
}

fn member_node(ids: &mut Ids, name: &str, types: TypeDescriptions, of: Expression) -> MemberAccess {
    MemberAccess {
        id: ids.next(),
        src: src(),
        argument_types: None,
        is_constant: false,
        is_l_value: false,
        is_pure: false,
        l_value_requested: false,
        type_descriptions: types,
        member_name: String::from(name),
        expression: Box::new(of),
        referenced_declaration: None,
    }
}

fn call(ids: &mut Ids, callee: Expression, arguments: Vec<Expression>) -> Expression {
    Expression::FunctionCall(FunctionCall {
        id: ids.next(),
        src: src(),
        argument_types: None,
        is_constant: false,
        is_l_value: false,
        is_pure: false,
        l_value_requested: false,
        type_descriptions: uint(),
        kind: FunctionCallKind::FunctionCall,
        try_call: false,
        names: vec![],
        arguments,
        expression: Box::new(callee),
    })
}

fn variable(ids: &mut Ids, name: &str, state: bool, value: Option<Expression>) -> VariableDeclaration {
    VariableDeclaration {
        id: ids.next(),
        src: src(),
        base_functions: None,
        constant: false,
        documentation: None,
        function_selector: None,
        indexed: None,
        mutability: Some(Mutability::Mutable),
        name: String::from(name),
        name_location: None,
        overrides: None,
        scope: 0,
        state_variable: state,
        storage_location: StorageLocation::Default,
        type_descriptions: uint(),
        type_node: None,
        value,
        visibility: Visibility::Internal,
    }
}

fn parameter(ids: &mut Ids, indexed: Option<bool>) -> VariableDeclaration {
    let mut declaration = variable(ids, "p", false, None);
    declaration.indexed = indexed;
    declaration
}

fn parameters(ids: &mut Ids, parameters: Vec<VariableDeclaration>) -> ParameterList {
    ParameterList { id: ids.next(), src: src(), parameters }
}

fn event(ids: &mut Ids, indexed: Vec<Option<bool>>) -> EventDefinition {
    let fields = indexed.into_iter().map(|i| parameter(ids, i)).collect();
    EventDefinition {
        id: ids.next(),
        src: src(),
        anonymous: false,
        documentation: None,
        name: String::from("E"),
        name_location: None,
        parameters: parameters(ids, fields),
        event_selector: None,
    }
}

fn block(ids: &mut Ids, statements: Vec<Statement>) -> Block {
    Block { id: ids.next(), src: src(), statements }
}

fn invocation(ids: &mut Ids, name: &str, refers_to: Option<i64>) -> ModifierInvocation {
    ModifierInvocation {
        id: ids.next(),
        src: src(),
        arguments: None,
        modifier_name: IdentifierOrIdentifierPath::Identifier(identifier_node(ids, name, refers_to)),
        kind: None,
    }
}

fn path_invocation(ids: &mut Ids, name: &str, refers_to: isize) -> ModifierInvocation {
    ModifierInvocation {
        id: ids.next(),
        src: src(),
        arguments: None,
        modifier_name: IdentifierOrIdentifierPath::IdentifierPath(IdentifierPath {
            id: ids.next(),
            src: src(),
            name: String::from(name),
            referenced_declaration: refers_to,
        }),
        kind: None,
    }
}

fn modifier(ids: &mut Ids, name: &str) -> ModifierDefinition {
    ModifierDefinition {
        id: ids.next(),
        src: src(),
        body: block(ids, vec![]),
        base_modifiers: None,
        overrides: None,
        documentation: None,
        name: String::from(name),
        name_location: None,
        parameters: parameters(ids, vec![]),
        virtual_flag: None,
        visibility: Visibility::Internal,
    }
}

fn function(
    ids: &mut Ids,
    visibility: Visibility,
    kind: FunctionKind,
    modifiers: Vec<ModifierInvocation>,
    body: Option<Block>,
) -> FunctionDefinition {
    FunctionDefinition {
        id: ids.next(),
        src: src(),
        base_functions: None,
        implemented: body.is_some(),
        body,
        documentation: None,
        function_selector: None,
        kind: Some(kind),
        state_mutability: Some(StateMutability::NonPayable),
        is_virtual: false,
        is_constructor: false,
        is_declared_const: false,
        is_payable: false,
        modifiers,
        name: String::from("f"),
        name_location: None,
        overrides: None,
        parameters: parameters(ids, vec![]),
        return_parameters: parameters(ids, vec![]),
        scope: 0,
        super_function: None,
        virtual_flag: None,
        visibility,
    }
}

fn import(ids: &mut Ids, absolute_path: Option<&str>) -> ImportDirective {
    ImportDirective {
        id: ids.next(),
        src: src(),
        file: String::from("file.sol"),
        source_unit: 0,
        scope: 0,
        absolute_path: absolute_path.map(String::from),
        unit_alias: String::new(),
        name_location: None,
        symbol_aliases: vec![],
    }
}

fn declaration_statement(
    ids: &mut Ids,
    declarations: Vec<Option<VariableDeclaration>>,
    initial_value: Option<Expression>,
) -> VariableDeclarationStatement {
    VariableDeclarationStatement {
        id: ids.next(),
        src: src(),
        assignments: vec![],
        declarations,
        initial_value,
    }
}

#[test]
fn test_unindexed_events() {
    let mut ids = Ids(0);
    let events = vec![
        // one field of two is indexed: could index more
        event(&mut ids, vec![Some(true), None]),
        // everything indexed
        event(&mut ids, vec![Some(true), Some(true)]),
        // three indexed fields are as many as there can be
        event(&mut ids, vec![Some(true), Some(true), Some(true), Some(false)]),
        // no fields at all
        event(&mut ids, vec![]),
    ];
    let mut context = WorkspaceContext::new();
    for event_definition in &events {
        context.event_definitions.push(event_definition);
    }

    let mut detector = UnindexedEventsDetector::default();
    let found = detector.detect(&context).unwrap();
    assert!(found);
    assert_eq!(detector.instances().len(), 1);
    assert_eq!(detector.instances(), vec![events[0].id]);
    assert_eq!(detector.severity(), IssueSeverity::NC);
    assert_eq!(detector.title(), "Event is missing `indexed` fields");
    assert_eq!(
        detector.description(),
        "Index event fields make the field more quickly accessible to off-chain tools that parse events. However, note that each index field costs extra gas during emission, so it's not necessarily best to index the maximum allowed per event (three fields). Each event should use three indexed fields if there are three or more fields, and gas usage is not particularly of concern for the events in question. If there are fewer than three fields, all of the fields should be indexed."
    );
}

#[test]
fn useless_modifier_test_useless_public_functions() {
    let mut ids = Ids(0);
    let once = modifier(&mut ids, "once");
    let twice = modifier(&mut ids, "twice");
    let never = modifier(&mut ids, "never");
    let invocations = vec![
        invocation(&mut ids, "once", Some(once.id)),
        invocation(&mut ids, "twice", Some(twice.id)),
        path_invocation(&mut ids, "twice", twice.id as isize),
        invocation(&mut ids, "unknown", None),
    ];
    let mut context = WorkspaceContext::new();
    context.modifier_definitions.push(&once);
    context.modifier_definitions.push(&twice);
    context.modifier_definitions.push(&never);
    for i in &invocations {
        context.modifier_invocations.push(i);
    }

    let mut detector = UselessModifierDetector::default();
    let found = detector.detect(&context).unwrap();
    assert!(found);
    assert_eq!(detector.instances().len(), 1);
    assert_eq!(detector.instances(), vec![once.id]);
    assert_eq!(detector.severity(), IssueSeverity::NC);
    assert_eq!(
        detector.title(),
        String::from("Modifiers invoked only once can be shoe-horned into the function")
    );
    assert_eq!(detector.description(), String::from(""));
}

#[test]
fn useless_public_function_test_useless_public_functions() {
    let mut ids = Ids(0);
    let unused = function(&mut ids, Visibility::Public, FunctionKind::Function, vec![], None);
    let used = function(&mut ids, Visibility::Public, FunctionKind::Function, vec![], None);
    let outer = function(&mut ids, Visibility::External, FunctionKind::Function, vec![], None);
    let maker = function(&mut ids, Visibility::Public, FunctionKind::Constructor, vec![], None);
    let references =
        vec![identifier_node(&mut ids, "used", Some(used.id)), identifier_node(&mut ids, "x", None)];
    let mut context = WorkspaceContext::new();
    for f in [&unused, &used, &outer, &maker] {
        context.function_definitions.push(f);
    }
    for r in &references {
        context.identifiers.push(r);
    }

    let mut detector = UselessPublicFunctionDetector::default();
    let found = detector.detect(&context).unwrap();
    assert!(found);
    assert_eq!(detector.instances().len(), 1);
    assert_eq!(detector.instances(), vec![unused.id]);
    assert_eq!(detector.severity(), IssueSeverity::NC);
    assert_eq!(
        detector.title(),
        String::from("Functions not used internally could be marked external")
    );
    assert_eq!(detector.description(), String::from(""));
}

#[test]
fn test_solmate_safe_transfer_lib() {
    let mut ids = Ids(0);
    let imports = vec![
        import(&mut ids, Some("lib/solmate/src/utils/SafeTransferLib.sol")),
        import(&mut ids, Some("lib/solmate/src/tokens/ERC20.sol")),
        import(&mut ids, Some("lib/solady/src/utils/SafeTransferLib.sol")),
        import(&mut ids, None),
    ];
    let mut context = WorkspaceContext::new();
    for i in &imports {
        context.import_directives.push(i);
    }

    let mut detector = SolmateSafeTransferLibDetector::default();
    let found = detector.detect(&context).unwrap();
    // assert that the detector found an issue
    assert!(found);
    // assert that the detector found the correct number of instances (1)
    assert_eq!(detector.instances().len(), 1);
    // assert the severity is medium
    assert_eq!(detector.severity(), IssueSeverity::Medium);
    // assert the title is correct
    assert_eq!(
        detector.title(),
        String::from("Solmate\'s SafeTransferLib does not check for token contract\'s existence")
    );
    // assert the description is correct
    assert_eq!(
        detector.description(),
        String::from(
            "There is a subtle difference between the implementation of solmate's SafeTransferLib and OZ's SafeERC20: OZ's SafeERC20 checks if the token is a contract or not, solmate's SafeTransferLib does not.\nhttps://github.com/transmissions11/solmate/blob/main/src/utils/SafeTransferLib.sol#L9 \n`@dev Note that none of the functions in this library check that a token has code at all! That responsibility is delegated to the caller`\n"
        )
    );
}

#[test]
fn test_solmate_safe_transfer_lib_no_issue() {
    let mut ids = Ids(0);
    let imports = vec![
        import(&mut ids, Some("lib/openzeppelin-contracts/contracts/token/ERC20/IERC20.sol")),
        import(&mut ids, Some("src/ArbitraryTransferFrom.sol")),
    ];
    let mut context = WorkspaceContext::new();
    for i in &imports {
        context.import_directives.push(i);
    }

    let mut detector = SolmateSafeTransferLibDetector::default();
    let found = detector.detect(&context).unwrap();
    // assert that the detector found no issues
    assert!(!found);
    // assert that the detector found the correct number of instances (0)
    assert_eq!(detector.instances().len(), 0);
}

#[test]
fn test_uninitialized_state_variables() {
    let mut ids = Ids(0);
    let initial = number(&mut ids);
    let declared_with_value = variable(&mut ids, "a", true, Some(initial));
    let assigned_later = variable(&mut ids, "b", true, None);
    let never_assigned = variable(&mut ids, "c", true, None);
    let local = variable(&mut ids, "d", false, None);
    let target = identifier(&mut ids, "b", Some(assigned_later.id));
    let value = number(&mut ids);
    let assignments = vec![assignment_node(&mut ids, target, value)];
    let mut context = WorkspaceContext::new();
    for v in [&declared_with_value, &assigned_later, &never_assigned, &local] {
        context.variable_declarations.push(v);
    }
    for a in &assignments {
        context.assignments.push(a);
    }

    let mut detector = UninitializedStateVariable::default();
    let found = detector.detect(&context).unwrap();
    // assert that the detector found an issue
    assert!(found);
    // assert that the detector found the correct number of instances
    assert_eq!(detector.instances().len(), 1);
    assert_eq!(detector.instances(), vec![never_assigned.id]);
    // assert the severity is high
    assert_eq!(detector.severity(), IssueSeverity::High);
    // assert the title is correct
    assert_eq!(detector.title(), String::from("Uninitialized State Variables"));
    // assert the description is correct
    assert_eq!(
        detector.description(),
        String::from(
            "Solidity does initialize variables by default when you declare them, however it's good practice\
                to explicitly declare an initial value"
        )
    );
}

#[test]
fn test_non_reentrant_before_others() {
    let mut ids = Ids(0);
    let late = vec![
        invocation(&mut ids, "onlyOwner", None),
        invocation(&mut ids, "nonReentrant", None),
    ];
    let late_id = late[1].id;
    let early = vec![
        invocation(&mut ids, "nonReentrant", None),
        invocation(&mut ids, "onlyOwner", None),
    ];
    let alone = vec![invocation(&mut ids, "nonReentrant", None)];
    let functions = vec![
        function(&mut ids, Visibility::External, FunctionKind::Function, late, None),
        function(&mut ids, Visibility::External, FunctionKind::Function, early, None),
        function(&mut ids, Visibility::External, FunctionKind::Function, alone, None),
        function(&mut ids, Visibility::External, FunctionKind::Function, vec![], None),
    ];
    let mut context = WorkspaceContext::new();
    for f in &functions {
        context.function_definitions.push(f);
    }

    let mut detector = NonReentrantBeforeOthersDetector::default();
    let found = detector.detect(&context).unwrap();
    assert!(found);
    assert_eq!(detector.instances().len(), 1);
    assert_eq!(detector.instances(), vec![late_id]);
    assert_eq!(detector.severity(), IssueSeverity::NC);
    assert_eq!(
        detector.title(),
        "The `nonReentrant` `modifier` should occur before all other modifiers"
    );
    assert_eq!(
        detector.description(),
        "This is a best-practice to protect against reentrancy in other modifiers"
    );
}

#[test]
fn test_uninitialized_local_variables() {
    let mut ids = Ids(0);
    let mut statements = vec![];
    // twelve declarations without a value, in statements of one, two and three variables
    for count in [1usize, 2, 3, 1, 2, 3] {
        let declared =
            (0..count).map(|_| Some(variable(&mut ids, "x", false, None))).collect::<Vec<_>>();
        statements.push(declaration_statement(&mut ids, declared, None));
    }
    // a declaration with a value
    let value = number(&mut ids);
    let initialized = vec![Some(variable(&mut ids, "y", false, None))];
    statements.push(declaration_statement(&mut ids, initialized, Some(value)));
    // two declarations without a value that are assigned later, and a gap
    let first = variable(&mut ids, "z", false, None);
    let second = variable(&mut ids, "w", false, None);
    let first_target = identifier(&mut ids, "z", Some(first.id));
    let second_target = identifier(&mut ids, "w", Some(second.id));
    let one = number(&mut ids);
    let two = number(&mut ids);
    let assignments = vec![
        assignment_node(&mut ids, first_target, one),
        assignment_node(&mut ids, second_target, two),
    ];
    statements.push(declaration_statement(&mut ids, vec![Some(first), None, Some(second)], None));
    let mut context = WorkspaceContext::new();
    for s in &statements {
        context.variable_declaration_statements.push(s);
    }
    for a in &assignments {
        context.assignments.push(a);
    }

    let mut detector = UninitializedLocalVariableDetector::default();
    let found = detector.detect(&context).unwrap();
    // assert that the detector found an issue
    assert!(found);
    // assert that the detector found the correct number of instances
    assert_eq!(detector.instances().len(), 12);
    // assert the severity is low
    assert_eq!(detector.severity(), IssueSeverity::Low);
}

#[test]
fn test_misused_boolean_by_loading_contract_directly() {
    let mut ids = Ids(0);
    let mut operations = vec![];
    let mut build = |ids: &mut Ids, operator: &str, literal_left: bool, value: &str| {
        let other = identifier(ids, "x", None);
        let constant = boolean(ids, value);
        if literal_left {
            binary_node(ids, operator, constant, other)
        } else {
            binary_node(ids, operator, other, constant)
        }
    };
    // four operations that can have one outcome only
    operations.push(build(&mut ids, "||", false, "true"));
    operations.push(build(&mut ids, "||", true, "true"));
    operations.push(build(&mut ids, "&&", false, "false"));
    operations.push(build(&mut ids, "&&", true, "false"));
    // operations that depend on the other side
    operations.push(build(&mut ids, "||", false, "false"));
    operations.push(build(&mut ids, "&&", true, "true"));
    operations.push(build(&mut ids, "==", true, "true"));
    // two conditions that are literals, and one that is not
    let mut conditionals = vec![];
    for condition in [boolean(&mut ids, "true"), boolean(&mut ids, "false"), identifier(&mut ids, "x", None)]
    {
        let body = block(&mut ids, vec![]);
        conditionals.push(IfStatement {
            id: ids.next(),
            src: src(),
            condition,
            true_body: BlockOrStatement::Block(Box::new(body)),
            false_body: None,
        });
    }
    let mut context = WorkspaceContext::new();
    for o in &operations {
        context.binary_operations.push(o);
    }
    for c in &conditionals {
        context.if_statements.push(c);
    }

    let mut detector = MisusedBooleanDetector::default();
    let found = detector.detect(&context).unwrap();
    // assert that the detector found an issue
    assert!(found);
    // assert that the detector found the correct number of instances
    assert_eq!(detector.instances().len(), 6);
    assert_eq!(detector.severity(), IssueSeverity::High);
}

#[test]
fn test_different_storage_conditionals() {
    let mut ids = Ids(0);
    let stored = variable(&mut ids, "s_value", true, None);
    let other = variable(&mut ids, "s_other", true, None);
    let local = variable(&mut ids, "local", false, None);
    let mut compare = |ids: &mut Ids, refers_to: i64, on_left: bool, operator: &str| {
        let name = identifier(ids, "v", Some(refers_to));
        let bound = number(ids);
        if on_left {
            binary_node(ids, operator, name, bound)
        } else {
            binary_node(ids, operator, bound, name)
        }
    };
    let operations = vec![
        // the first check of `s_value` sets the pattern
        compare(&mut ids, stored.id, true, "<"),
        // the same again, and mirrored
        compare(&mut ids, stored.id, true, "<"),
        compare(&mut ids, stored.id, false, ">"),
        // another operator on the same side
        compare(&mut ids, stored.id, true, "<="),
        // the same operator on the other side
        compare(&mut ids, stored.id, false, "<"),
        // `s_other` is checked alike throughout
        compare(&mut ids, other.id, true, "=="),
        compare(&mut ids, other.id, true, "=="),
        // a local variable may be checked in any way
        compare(&mut ids, local.id, true, "<"),
        compare(&mut ids, local.id, true, ">="),
    ];
    let mut context = WorkspaceContext::new();
    for v in [&stored, &other, &local] {
        context.variable_declarations.push(v);
    }
    for o in &operations {
        context.binary_operations.push(o);
    }

    let mut detector = DifferentStorageConditionalDetector::default();
    let found = detector.detect(&context).unwrap();
    // assert found
    assert!(found);
    // assert severity
    assert_eq!(detector.severity(), IssueSeverity::Medium);
    // assert title
    assert_eq!(detector.title(), String::from("Conditional storage checks are not consistent"));
    // assert description
    assert_eq!(
        detector.description(),
        String::from("When writing `require` or `if` conditionals that check storage values, it is important to be consistent to prevent off-by-one errors. \
        There are instances found where the same storage variable is checked multiple times, but the conditionals are not consistent.")
    );
    // assert instances
    assert_eq!(detector.instances().len(), 2);
    assert_eq!(detector.instances(), vec![operations[3].id, operations[4].id]);
}

fn for_loop(ids: &mut Ids, body: Block) -> Statement {
    Statement::ForStatement(ForStatement {
        id: ids.next(),
        src: src(),
        initialization_expression: None,
        condition: None,
        loop_expression: None,
        body: BlockOrStatement::Block(Box::new(body)),
    })
}

fn body_of(statement: &Statement) -> &Block {
    match statement {
        Statement::ForStatement(f) => match &f.body {
            BlockOrStatement::Block(b) => b,
            _ => unreachable!(),
        },
        _ => unreachable!(),
    }
}

fn id_of(statement: &Statement) -> i64 {
    match statement {
        Statement::ForStatement(f) => f.id,
        Statement::ExpressionStatement(e) => e.id,
        _ => unreachable!(),
    }
}

#[test]
fn test_closest_ancestor() {
    // function body { for (..) { x = 1; } }, with one assignment
    let mut ids = Ids(0);
    let target = identifier(&mut ids, "x", None);
    let value = number(&mut ids);
    let assignment = assignment_node(&mut ids, target, value);
    let assignment_id = assignment.id;
    let statement = Statement::ExpressionStatement(ExpressionStatement {
        id: ids.next(),
        src: src(),
        expression: Expression::Assignment(assignment),
    });
    let statement_id = id_of(&statement);
    let inner = block(&mut ids, vec![statement]);
    let inner_id = inner.id;
    let looping = for_loop(&mut ids, inner);
    let loop_id = id_of(&looping);
    let outer = block(&mut ids, vec![looping]);

    let mut context = WorkspaceContext::new();
    assert!(context.register_block(&outer));
    context.parents.insert(assignment_id, statement_id);
    context.parents.insert(statement_id, inner_id);
    context.parents.insert(inner_id, loop_id);
    context.parents.insert(loop_id, outer.id);
    let the_assignment = match &body_of(&outer.statements[0]).statements[0] {
        Statement::ExpressionStatement(e) => match &e.expression {
            Expression::Assignment(a) => a,
            _ => unreachable!(),
        },
        _ => unreachable!(),
    };
    context.assignments.push(the_assignment);

    let mut detector = ClosestAncestorDemonstrator::default();
    let found = detector.detect(&context).unwrap();
    assert!(found);
    assert!(detector.instances().len() == 4);
    assert_eq!(detector.instances(), vec![assignment_id, inner_id, loop_id, outer.id]);
}

fn set_access(ids: &mut Ids, name: &str) -> MemberAccess {
    let set = identifier(ids, "set", None);
    member_node(
        ids,
        name,
        typed(
            "t_function_internal",
            "function (struct EnumerableSet.AddressSet storage pointer,address) returns (bool)",
        ),
        set,
    )
}

#[test]
fn test_enumerable_loop_detector() {
    let mut ids = Ids(0);
    // a loop that reads the set by index and removes from it three times
    let removing = for_loop_around(&mut ids, vec!["at", "remove", "remove", "remove"]);
    // a loop that removes without reading by index
    let blind = for_loop_around(&mut ids, vec!["remove", "contains"]);
    // a loop that only reads
    let reading = for_loop_around(&mut ids, vec!["at", "add"]);
    // a removal outside of any loop
    let outside = set_access(&mut ids, "remove");

    let mut context = WorkspaceContext::new();
    for (looping, accesses) in [&removing, &blind, &reading] {
        assert!(context.register_block(looping));
        let loop_id = id_of(&looping.statements[0]);
        context.parents.insert(loop_id, looping.id);
        for access in accesses {
            context.parents.insert(access.id, loop_id);
            context.member_accesses.push(access);
        }
    }
    context.member_accesses.push(&outside);

    let mut detector = EnumerableLoopRemovalDetector::default();
    let found = detector.detect(&context).unwrap();
    // assert that the detector found an issue
    assert!(found);
    // assert that the detector found the correct number of instances
    assert_eq!(detector.instances().len(), 3);
    // assert the severity is high
    assert_eq!(detector.severity(), IssueSeverity::High);
    // assert the title is correct
    assert_eq!(detector.title(), String::from("High Issue Title"));
    // assert the description is correct
    assert_eq!(detector.description(), String::from("Description of the high issue."));
}

/// A block that holds one `for` loop, with member accesses that lie in the
/// loop.
fn for_loop_around(ids: &mut Ids, names: Vec<&str>) -> (Block, Vec<MemberAccess>) {
    let accesses = names.into_iter().map(|name| set_access(ids, name)).collect();
    let body = block(ids, vec![]);
    let looping = for_loop(ids, body);
    (block(ids, vec![looping]), accesses)
}

const SOURCE: &str = "token.transfer(to, 1); s_value = 1; s_value++; local = 1;";

fn external_call_statement(ids: &mut Ids) -> Statement {
    let token = identifier(ids, "token", None);
    let callee = member_node(
        ids,
        "transfer",
        typed(
            "t_function_external_nonpayable$_t_address_$_t_uint256_$returns$_t_bool_$",
            "function (address,uint256) external returns (bool)",
        ),
        token,
    );
    let argument = number(ids);
    let expression = call(ids, Expression::MemberAccess(callee), vec![argument]);
    Statement::ExpressionStatement(ExpressionStatement {
        id: ids.next(),
        src: String::from("0:22:0"),
        expression,
    })
}

fn assignment_statement(ids: &mut Ids, refers_to: i64, span: &str) -> Statement {
    let target = identifier(ids, "v", Some(refers_to));
    let value = number(ids);
    let expression = Expression::Assignment(assignment_node(ids, target, value));
    Statement::ExpressionStatement(ExpressionStatement {
        id: ids.next(),
        src: String::from(span),
        expression,
    })
}

fn increment_statement(ids: &mut Ids, refers_to: i64) -> Statement {
    let target = identifier(ids, "v", Some(refers_to));
    let expression = Expression::UnaryOperation(UnaryOperation {
        id: ids.next(),
        src: src(),
        argument_types: None,
        is_constant: false,
        is_l_value: false,
        is_pure: false,
        l_value_requested: false,
        type_descriptions: uint(),
        operator: String::from("++"),
        prefix: false,
        sub_expression: Box::new(target),
    });
    Statement::ExpressionStatement(ExpressionStatement {
        id: ids.next(),
        src: String::from("36:10:0"),
        expression,
    })
}

#[test]
fn test_state_change_after_external_call() {
    let mut ids = Ids(0);
    let stored = variable(&mut ids, "s_value", true, None);
    let local = variable(&mut ids, "local", false, None);
    let mut functions = vec![];
    // call, then assignment to state
    let statements =
        vec![external_call_statement(&mut ids), assignment_statement(&mut ids, stored.id, "23:12:0")];
    let body = block(&mut ids, statements);
    functions.push(function(&mut ids, Visibility::External, FunctionKind::Function, vec![], Some(body)));
    // call, then increment of state
    let statements = vec![external_call_statement(&mut ids), increment_statement(&mut ids, stored.id)];
    let body = block(&mut ids, statements);
    functions.push(function(&mut ids, Visibility::Public, FunctionKind::Function, vec![], Some(body)));
    // call inside a loop that changes state before the call: the change follows the call
    let statements =
        vec![assignment_statement(&mut ids, stored.id, "23:12:0"), external_call_statement(&mut ids)];
    let inner = block(&mut ids, statements);
    let looping = for_loop(&mut ids, inner);
    let body = block(&mut ids, vec![looping]);
    functions.push(function(&mut ids, Visibility::External, FunctionKind::Function, vec![], Some(body)));
    // state is changed before the call only
    let statements =
        vec![assignment_statement(&mut ids, stored.id, "23:12:0"), external_call_statement(&mut ids)];
    let body = block(&mut ids, statements);
    functions.push(function(&mut ids, Visibility::External, FunctionKind::Function, vec![], Some(body)));
    // only a local variable is changed after the call
    let statements =
        vec![external_call_statement(&mut ids), assignment_statement(&mut ids, local.id, "47:10:0")];
    let body = block(&mut ids, statements);
    functions.push(function(&mut ids, Visibility::External, FunctionKind::Function, vec![], Some(body)));
    // an internal function is not looked at
    let statements =
        vec![external_call_statement(&mut ids), assignment_statement(&mut ids, stored.id, "23:12:0")];
    let body = block(&mut ids, statements);
    functions.push(function(&mut ids, Visibility::Internal, FunctionKind::Function, vec![], Some(body)));

    let mut context = WorkspaceContext::with_source(SOURCE);
    context.variable_declarations.push(&stored);
    context.variable_declarations.push(&local);
    for f in &functions {
        assert!(context.register_block(f.body.as_ref().unwrap()));
        context.function_definitions.push(f);
    }

    let mut detector = StateChangeAfterExternalCallDetector::default();
    let found = detector.detect(&context).unwrap();
    // assert that the detector found an issue
    assert!(found);
    // assert that the detector found the correct number of instances
    assert_eq!(detector.instances().len(), 3);
    // assert the severity is high
    assert_eq!(detector.severity(), IssueSeverity::High);
    let hints = detector.hints();
    assert_eq!(hints.len(), 3);
    assert_eq!(hints[0].1, "State is changed at: `s_value = 1;`");
    assert_eq!(hints[1].1, "State is changed at: `s_value++;`");
    assert_eq!(hints[2].1, "State is changed at: `s_value = 1;`");
}

#[test]
fn state_change_detector_fails_on_a_function_without_graph() {
    let mut ids = Ids(0);
    let mut bodiless = function(&mut ids, Visibility::External, FunctionKind::Function, vec![], None);
    bodiless.implemented = true;
    let mut context = WorkspaceContext::new();
    context.function_definitions.push(&bodiless);
    let mut detector = StateChangeAfterExternalCallDetector::default();
    assert_eq!(detector.detect(&context), Err(DetectionError::CorruptedFunction));
    assert_eq!(detector.instances().len(), 0);
}

#[test]
fn detectors_note_each_node_once() {
    let mut ids = Ids(0);
    let events = vec![event(&mut ids, vec![None])];
    let mut context = WorkspaceContext::new();
    context.event_definitions.push(&events[0]);
    context.event_definitions.push(&events[0]);
    let mut detector = UnindexedEventsDetector::default();
    assert_eq!(detector.detect(&context), Ok(true));
    assert_eq!(detector.detect(&context), Ok(true));
    assert_eq!(detector.instances(), vec![events[0].id]);
    assert_eq!(detector.name(), "unindexed-events");
    assert_eq!(IssueSeverity::Medium.to_string(), "Medium");
}
