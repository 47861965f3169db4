use vstd::prelude::*;
use std::collections::BTreeMap;
use std::collections::HashMap;
use crate::ast::node::NodeID;

verus! {

/// Syntax-tree node: block.
#[derive(Debug, PartialEq, Eq, Hash)]
pub struct Block {
    pub id: NodeID,
    pub src: String,
    pub statements: Vec<Statement>,
}

/// What a contract definition declares: a contract, an interface or a library.
#[derive(Clone, Copy, Debug, PartialEq, Eq, PartialOrd, Ord, Hash, Structural)]
pub enum ContractKind {
    Contract,
    Interface,
    Library,
}

/// Anything that can stand directly in a contract definition.
#[derive(Debug, PartialEq, Eq, Hash)]
pub enum ContractDefinitionNode {
    UsingForDirective(UsingForDirective),
    StructDefinition(StructDefinition),
    EnumDefinition(EnumDefinition),
    VariableDeclaration(VariableDeclaration),
    EventDefinition(EventDefinition),
    FunctionDefinition(FunctionDefinition),
    ModifierDefinition(ModifierDefinition),
    ErrorDefinition(ErrorDefinition),
    UserDefinedValueTypeDefinition(UserDefinedValueTypeDefinition),
}

/// Syntax-tree node: inheritance specifier.
#[derive(Debug, PartialEq, Eq, Hash)]
pub struct InheritanceSpecifier {
    pub id: NodeID,
    pub src: String,
    pub base_name: UserDefinedTypeNameOrIdentifierPath,
    pub arguments: Option<Vec<Expression>>,
}

/// Syntax-tree node: contract definition.
#[derive(Debug, PartialEq, Eq, Hash)]
pub struct ContractDefinition {
    pub id: NodeID,
    pub src: String,
    pub name: String,
    pub name_location: Option<String>,
    pub documentation: Option<Documentation>,
    pub kind: ContractKind,
    pub is_abstract: Option<bool>,
    pub base_contracts: Vec<InheritanceSpecifier>,
    pub canonical_name: Option<String>,
    pub contract_dependencies: Vec<NodeID>,
    pub used_errors: Option<Vec<NodeID>>,
    pub used_events: Option<Vec<usize>>,
    pub internal_function_ids: BTreeMap<String, usize>,
    pub nodes: Vec<ContractDefinitionNode>,
    pub scope: NodeID,
    pub fully_implemented: Option<bool>,
    pub linearized_base_contracts: Option<Vec<NodeID>>,
}

/// The documentation of a definition: plain text, or a node of its own.
#[derive(Debug, PartialEq, Eq, Hash)]
pub enum Documentation {
    String(Option<String>),
    Structured(Option<StructuredDocumentation>),
}

/// Syntax-tree node: structured documentation.
#[derive(Debug, PartialEq, Eq, Hash)]
pub struct StructuredDocumentation {
    pub id: NodeID,
    pub src: String,
    pub text: String,
}

/// Syntax-tree node: enum value.
#[derive(Debug, PartialEq, Eq, Hash)]
pub struct EnumValue {
    pub id: NodeID,
    pub src: String,
    pub name: String,
    pub name_location: Option<String>,
}

/// Syntax-tree node: enum definition.
#[derive(Debug, PartialEq, Eq, Hash)]
pub struct EnumDefinition {
    pub id: NodeID,
    pub src: String,
    pub name: String,
    pub name_location: Option<String>,
    pub members: Vec<EnumValue>,
    pub canonical_name: Option<String>,
}

/// Syntax-tree node: error definition.
#[derive(Debug, PartialEq, Eq, Hash)]
pub struct ErrorDefinition {
    pub id: NodeID,
    pub src: String,
    pub documentation: Option<Documentation>,
    pub error_selector: Option<String>,
    pub name: String,
    pub name_location: Option<String>,
    pub parameters: ParameterList,
}

/// Syntax-tree node: event definition.
#[derive(Debug, PartialEq, Eq, Hash)]
pub struct EventDefinition {
    pub id: NodeID,
    pub src: String,
    pub anonymous: bool,
    pub documentation: Option<Documentation>,
    pub name: String,
    pub name_location: Option<String>,
    pub parameters: ParameterList,
    pub event_selector: Option<String>,
}

/// Any expression.
#[derive(Debug, PartialEq, Eq, Hash)]
pub enum Expression {
    Literal(Literal),
    Identifier(Identifier),
    UnaryOperation(UnaryOperation),
    BinaryOperation(BinaryOperation),
    Conditional(Conditional),
    Assignment(Assignment),
    FunctionCall(FunctionCall),
    FunctionCallOptions(FunctionCallOptions),
    IndexAccess(IndexAccess),
    IndexRangeAccess(IndexRangeAccess),
    MemberAccess(MemberAccess),
    ElementaryTypeNameExpression(ElementaryTypeNameExpression),
    TupleExpression(TupleExpression),
    NewExpression(NewExpression),
}

/// Syntax-tree node: unary operation.
#[derive(Debug, PartialEq, Eq, Hash)]
pub struct UnaryOperation {
    pub id: NodeID,
    pub src: String,
    pub argument_types: Option<Vec<TypeDescriptions>>,
    pub is_constant: bool,
    pub is_l_value: bool,
    pub is_pure: bool,
    pub l_value_requested: bool,
    pub type_descriptions: TypeDescriptions,
    pub operator: String,
    pub prefix: bool,
    pub sub_expression: Box<Expression>,
}

/// Syntax-tree node: binary operation.
#[derive(Debug, PartialEq, Eq, Hash)]
pub struct BinaryOperation {
    pub id: NodeID,
    pub src: String,
    pub argument_types: Option<Vec<TypeDescriptions>>,
    pub is_constant: bool,
    pub is_l_value: bool,
    pub is_pure: bool,
    pub l_value_requested: bool,
    pub type_descriptions: TypeDescriptions,
    pub common_type: TypeDescriptions,
    pub left_expression: Box<Expression>,
    pub right_expression: Box<Expression>,
    pub operator: String,
}

/// Syntax-tree node: conditional.
#[derive(Debug, PartialEq, Eq, Hash)]
pub struct Conditional {
    pub id: NodeID,
    pub src: String,
    pub argument_types: Option<Vec<TypeDescriptions>>,
    pub is_constant: bool,
    pub is_l_value: bool,
    pub is_pure: bool,
    pub l_value_requested: bool,
    pub type_descriptions: TypeDescriptions,
    pub condition: Box<Expression>,
    pub true_expression: Box<Expression>,
    pub false_expression: Box<Expression>,
}

/// Syntax-tree node: assignment.
#[derive(Debug, PartialEq, Eq, Hash)]
pub struct Assignment {
    pub id: NodeID,
    pub src: String,
    pub argument_types: Option<Vec<TypeDescriptions>>,
    pub is_constant: bool,
    pub is_l_value: bool,
    pub is_pure: bool,
    pub l_value_requested: bool,
    pub type_descriptions: TypeDescriptions,
    pub left_hand_side: Box<Expression>,
    pub right_hand_side: Box<Expression>,
    pub operator: String,
}

/// Syntax-tree node: function call.
#[derive(Debug, PartialEq, Eq, Hash)]
pub struct FunctionCall {
    pub id: NodeID,
    pub src: String,
    pub argument_types: Option<Vec<TypeDescriptions>>,
    pub is_constant: bool,
    pub is_l_value: bool,
    pub is_pure: bool,
    pub l_value_requested: bool,
    pub type_descriptions: TypeDescriptions,
    pub kind: FunctionCallKind,
    pub try_call: bool,
    pub names: Vec<String>,
    pub arguments: Vec<Expression>,
    pub expression: Box<Expression>,
}

/// What a call stands for: a call, a type conversion or the construction of a struct.
#[derive(Clone, Copy, Debug, PartialEq, Eq, PartialOrd, Ord, Hash, Structural)]
pub enum FunctionCallKind {
    FunctionCall,
    TypeConversion,
    StructConstructorCall,
}

/// Syntax-tree node: function call options.
#[derive(Debug, PartialEq, Eq, Hash)]
pub struct FunctionCallOptions {
    pub id: NodeID,
    pub src: String,
    pub argument_types: Option<Vec<TypeDescriptions>>,
    pub is_constant: bool,
    pub is_l_value: bool,
    pub is_pure: bool,
    pub l_value_requested: bool,
    pub type_descriptions: TypeDescriptions,
    pub names: Vec<String>,
    pub options: Vec<Expression>,
    pub arguments: Option<Vec<Expression>>,
    pub expression: Box<Expression>,
}

/// Syntax-tree node: new expression.
#[derive(Debug, PartialEq, Eq, Hash)]
pub struct NewExpression {
    pub id: NodeID,
    pub src: String,
    pub argument_types: Option<Vec<TypeDescriptions>>,
    pub is_constant: bool,
    pub is_l_value: bool,
    pub is_pure: bool,
    pub l_value_requested: bool,
    pub type_descriptions: TypeDescriptions,
    pub type_node: TypeName,
}

/// Syntax-tree node: index access.
#[derive(Debug, PartialEq, Eq, Hash)]
pub struct IndexAccess {
    pub id: NodeID,
    pub src: String,
    pub argument_types: Option<Vec<TypeDescriptions>>,
    pub is_constant: bool,
    pub is_l_value: bool,
    pub is_pure: bool,
    pub l_value_requested: bool,
    pub type_descriptions: TypeDescriptions,
    pub base_expression: Box<Expression>,
    pub index_expression: Option<Box<Expression>>,
}

/// Syntax-tree node: index range access.
#[derive(Debug, PartialEq, Eq, Hash)]
pub struct IndexRangeAccess {
    pub id: NodeID,
    pub src: String,
    pub argument_types: Option<Vec<TypeDescriptions>>,
    pub is_constant: bool,
    pub is_l_value: bool,
    pub is_pure: bool,
    pub l_value_requested: bool,
    pub type_descriptions: TypeDescriptions,
    pub base_expression: Box<Expression>,
    pub start_expression: Option<Box<Expression>>,
    pub end_expression: Option<Box<Expression>>,
}

/// Syntax-tree node: member access.
#[derive(Debug, PartialEq, Eq, Hash)]
pub struct MemberAccess {
    pub id: NodeID,
    pub src: String,
    pub argument_types: Option<Vec<TypeDescriptions>>,
    pub is_constant: bool,
    pub is_l_value: bool,
    pub is_pure: bool,
    pub l_value_requested: bool,
    pub type_descriptions: TypeDescriptions,
    pub member_name: String,
    pub expression: Box<Expression>,
    pub referenced_declaration: Option<NodeID>,
}

/// Syntax-tree node: elementary type name expression.
#[derive(Debug, PartialEq, Eq, Hash)]
pub struct ElementaryTypeNameExpression {
    pub id: NodeID,
    pub src: String,
    pub argument_types: Option<Vec<TypeDescriptions>>,
    pub is_constant: bool,
    pub is_l_value: bool,
    pub is_pure: bool,
    pub l_value_requested: bool,
    pub type_descriptions: TypeDescriptions,
    pub type_node: TypeName,
}

/// Syntax-tree node: tuple expression.
#[derive(Debug, PartialEq, Eq, Hash)]
pub struct TupleExpression {
    pub id: NodeID,
    pub src: String,
    pub argument_types: Option<Vec<TypeDescriptions>>,
    pub is_constant: bool,
    pub is_l_value: bool,
    pub is_pure: bool,
    pub l_value_requested: bool,
    pub type_descriptions: TypeDescriptions,
    pub components: Vec<Option<Expression>>,
    pub is_inline_array: bool,
}

/// What a function definition declares.
#[derive(Clone, Copy, Debug, PartialEq, Eq, PartialOrd, Ord, Hash, Structural)]
pub enum FunctionKind {
    Constructor,
    Function,
    Receive,
    Fallback,
    FreeFunction,
}

/// Syntax-tree node: parameter list.
#[derive(Debug, PartialEq, Eq, Hash)]
pub struct ParameterList {
    pub id: NodeID,
    pub src: String,
    pub parameters: Vec<VariableDeclaration>,
}

/// Syntax-tree node: override specifier.
#[derive(Debug, PartialEq, Eq, Hash)]
pub struct OverrideSpecifier {
    pub id: NodeID,
    pub src: String,
    pub overrides: Vec<UserDefinedTypeNameOrIdentifierPath>,
}

/// Syntax-tree node: function definition.
#[derive(Debug, PartialEq, Eq, Hash)]
pub struct FunctionDefinition {
    pub id: NodeID,
    pub src: String,
    pub base_functions: Option<Vec<NodeID>>,
    pub body: Option<Block>,
    pub documentation: Option<Documentation>,
    pub function_selector: Option<String>,
    pub implemented: bool,
    pub kind: Option<FunctionKind>,
    pub state_mutability: Option<StateMutability>,
    pub is_virtual: bool,
    pub is_constructor: bool,
    pub is_declared_const: bool,
    pub is_payable: bool,
    pub modifiers: Vec<ModifierInvocation>,
    pub name: String,
    pub name_location: Option<String>,
    pub overrides: Option<OverrideSpecifier>,
    pub parameters: ParameterList,
    pub return_parameters: ParameterList,
    pub scope: NodeID,
    pub super_function: Option<NodeID>,
    pub virtual_flag: Option<bool>,
    pub visibility: Visibility,
}

/// Syntax-tree node: identifier.
#[derive(Debug, PartialEq, Eq, Hash)]
pub struct Identifier {
    pub id: NodeID,
    pub src: String,
    pub argument_types: Option<Vec<TypeDescriptions>>,
    pub name: String,
    pub overloaded_declarations: Vec<NodeID>,
    pub referenced_declaration: Option<NodeID>,
    pub type_descriptions: TypeDescriptions,
}

/// Syntax-tree node: identifier path.
#[derive(Debug, PartialEq, Eq, Hash)]
pub struct IdentifierPath {
    pub id: NodeID,
    pub src: String,
    pub name: String,
    pub referenced_declaration: isize,
}

/// A symbol that an import brings in, and the name it goes by locally.
#[derive(Debug, PartialEq, Eq, Hash)]
pub struct SymbolAlias {
    pub foreign: Identifier,
    pub local: Option<String>,
    pub name_location: Option<String>,
}

/// Syntax-tree node: import directive.
#[derive(Debug, PartialEq, Eq, Hash)]
pub struct ImportDirective {
    pub id: NodeID,
    pub src: String,
    pub file: String,
    pub source_unit: NodeID,
    pub scope: NodeID,
    pub absolute_path: Option<String>,
    pub unit_alias: String,
    pub name_location: Option<String>,
    pub symbol_aliases: Vec<SymbolAlias>,
}

/// The kind of a literal.
#[derive(Clone, Copy, Debug, PartialEq, Eq, PartialOrd, Ord, Hash, Structural)]
pub enum LiteralKind {
    Bool,
    Number,
    String,
    HexString,
    Address,
    UnicodeString,
}

/// Syntax-tree node: literal.
#[derive(Debug, PartialEq, Eq, Hash)]
pub struct Literal {
    pub id: NodeID,
    pub src: String,
    pub argument_types: Option<Vec<TypeDescriptions>>,
    pub is_constant: bool,
    pub is_l_value: bool,
    pub is_pure: bool,
    pub l_value_requested: bool,
    pub type_descriptions: TypeDescriptions,
    pub hex_value: Option<String>,
    pub value: Option<String>,
    pub subdenomination: Option<String>,
    pub kind: LiteralKind,
}

/// Syntax-tree node: modifier definition.
#[derive(Debug, PartialEq, Eq, Hash)]
pub struct ModifierDefinition {
    pub id: NodeID,
    pub src: String,
    pub body: Block,
    pub base_modifiers: Option<Vec<usize>>,
    pub overrides: Option<OverrideSpecifier>,
    pub documentation: Option<Documentation>,
    pub name: String,
    pub name_location: Option<String>,
    pub parameters: ParameterList,
    pub virtual_flag: Option<bool>,
    pub visibility: Visibility,
}

/// What a modifier invocation stands for: a modifier, or the call of a base constructor.
#[derive(Clone, Copy, Debug, PartialEq, Eq, PartialOrd, Ord, Hash, Structural)]
pub enum ModifierInvocationKind {
    ModifierInvocation,
    BaseConstructorSpecifier,
}

/// Syntax-tree node: modifier invocation.
#[derive(Debug, PartialEq, Eq, Hash)]
pub struct ModifierInvocation {
    pub id: NodeID,
    pub src: String,
    pub arguments: Option<Vec<Expression>>,
    pub modifier_name: IdentifierOrIdentifierPath,
    pub kind: Option<ModifierInvocationKind>,
}

/// The name in a modifier invocation: an identifier or a path.
#[derive(Debug, PartialEq, Eq, Hash)]
pub enum IdentifierOrIdentifierPath {
    Identifier(Identifier),
    IdentifierPath(IdentifierPath),
}

/// Syntax-tree node: pragma directive.
#[derive(Debug, PartialEq, Eq, Hash)]
pub struct PragmaDirective {
    pub id: NodeID,
    pub src: String,
    pub literals: Vec<String>,
}

/// Anything that can stand at the top level of a source unit.
#[derive(Debug, PartialEq, Eq, Hash)]
pub enum SourceUnitNode {
    FunctionDefinition(FunctionDefinition),
    StructDefinition(StructDefinition),
    ErrorDefinition(ErrorDefinition),
    EnumDefinition(EnumDefinition),
    VariableDeclaration(VariableDeclaration),
    ImportDirective(ImportDirective),
    PragmaDirective(PragmaDirective),
    UserDefinedValueTypeDefinition(UserDefinedValueTypeDefinition),
    UsingForDirective(UsingForDirective),
    ContractDefinition(ContractDefinition),
}

/// A source file with everything declared in it.
#[derive(Debug, PartialEq, Eq)]
pub struct SourceUnit {
    pub license: Option<String>,
    pub nodes: Vec<SourceUnitNode>,
    pub exported_symbols: Option<HashMap<String, Vec<NodeID>>>,
    pub absolute_path: Option<String>,
    pub id: NodeID,
    pub source: Option<String>,
}

/// Any statement.
#[derive(Debug, PartialEq, Eq, Hash)]
pub enum Statement {
    Block(Block),
    Break(Break),
    Continue(Continue),
    DoWhileStatement(DoWhileStatement),
    PlaceholderStatement(PlaceholderStatement),
    VariableDeclarationStatement(VariableDeclarationStatement),
    IfStatement(IfStatement),
    ForStatement(ForStatement),
    WhileStatement(WhileStatement),
    EmitStatement(EmitStatement),
    TryStatement(TryStatement),
    UncheckedBlock(Block),
    Return(Return),
    RevertStatement(RevertStatement),
    ExpressionStatement(ExpressionStatement),
    InlineAssembly(InlineAssembly),
}

/// Syntax-tree node: expression statement.
#[derive(Debug, PartialEq, Eq, Hash)]
pub struct ExpressionStatement {
    pub id: NodeID,
    pub src: String,
    pub expression: Expression,
}

/// Syntax-tree node: variable declaration statement.
#[derive(Debug, PartialEq, Eq, Hash)]
pub struct VariableDeclarationStatement {
    pub id: NodeID,
    pub src: String,
    pub assignments: Vec<Option<NodeID>>,
    pub declarations: Vec<Option<VariableDeclaration>>,
    pub initial_value: Option<Expression>,
}

/// The body of a branch or of a loop: a block, or a single statement.
#[derive(Debug, PartialEq, Eq, Hash)]
pub enum BlockOrStatement {
    Block(Box<Block>),
    Statement(Box<Statement>),
}

/// Syntax-tree node: if statement.
#[derive(Debug, PartialEq, Eq, Hash)]
pub struct IfStatement {
    pub id: NodeID,
    pub src: String,
    pub condition: Expression,
    pub true_body: BlockOrStatement,
    pub false_body: Option<BlockOrStatement>,
}

/// Syntax-tree node: for statement.
#[derive(Debug, PartialEq, Eq, Hash)]
pub struct ForStatement {
    pub id: NodeID,
    pub src: String,
    pub initialization_expression: Option<Box<Statement>>,
    pub condition: Option<Expression>,
    pub loop_expression: Option<Box<ExpressionStatement>>,
    pub body: BlockOrStatement,
}

/// Syntax-tree node: do while statement.
#[derive(Debug, PartialEq, Eq, Hash)]
pub struct DoWhileStatement {
    pub id: NodeID,
    pub src: String,
    pub documentation: Option<String>,
    pub body: Block,
    pub condition: Expression,
}

/// Syntax-tree node: emit statement.
#[derive(Debug, PartialEq, Eq, Hash)]
pub struct EmitStatement {
    pub id: NodeID,
    pub src: String,
    pub event_call: Expression,
}

/// Syntax-tree node: try statement.
#[derive(Debug, PartialEq, Eq, Hash)]
pub struct TryStatement {
    pub id: NodeID,
    pub src: String,
    pub clauses: Vec<TryCatchClause>,
    pub external_call: FunctionCall,
}

/// Syntax-tree node: revert statement.
#[derive(Debug, PartialEq, Eq, Hash)]
pub struct RevertStatement {
    pub id: NodeID,
    pub src: String,
    pub error_call: FunctionCall,
}

/// Syntax-tree node: try catch clause.
#[derive(Debug, PartialEq, Eq, Hash)]
pub struct TryCatchClause {
    pub id: NodeID,
    pub src: String,
    pub block: Block,
    pub error_name: String,
    pub parameters: Option<ParameterList>,
}

/// Syntax-tree node: return.
#[derive(Debug, PartialEq, Eq, Hash)]
pub struct Return {
    pub id: NodeID,
    pub src: String,
    pub function_return_parameters: NodeID,
    pub expression: Option<Expression>,
}

/// Syntax-tree node: inline assembly. The body of the assembly block is kept as text.
#[derive(Debug, PartialEq, Eq, Hash)]
pub struct InlineAssembly {
    pub id: NodeID,
    pub src: String,
    pub evm_version: Option<String>,
    pub operations: Option<String>,
}

/// Syntax-tree node: break.
#[derive(Debug, PartialEq, Eq, Hash)]
pub struct Break {
    pub id: NodeID,
    pub src: String,
    pub documentation: Option<String>,
}

/// Syntax-tree node: continue.
#[derive(Debug, PartialEq, Eq, Hash)]
pub struct Continue {
    pub id: NodeID,
    pub src: String,
    pub documentation: Option<String>,
}

/// Syntax-tree node: placeholder statement.
#[derive(Debug, PartialEq, Eq, Hash)]
pub struct PlaceholderStatement {
    pub id: NodeID,
    pub src: String,
    pub documentation: Option<String>,
}

/// Syntax-tree node: while statement.
#[derive(Debug, PartialEq, Eq, Hash)]
pub struct WhileStatement {
    pub id: NodeID,
    pub src: String,
    pub condition: Expression,
    pub body: BlockOrStatement,
    pub documentation: Option<String>,
}

/// Syntax-tree node: struct definition.
#[derive(Debug, PartialEq, Eq, Hash)]
pub struct StructDefinition {
    pub id: NodeID,
    pub src: String,
    pub name: String,
    pub name_location: Option<String>,
    pub visibility: Visibility,
    pub members: Vec<VariableDeclaration>,
    pub scope: NodeID,
    pub canonical_name: Option<String>,
}

/// The type of a node as the compiler describes it.
#[derive(Debug, PartialEq, Eq, Hash)]
pub struct TypeDescriptions {
    pub type_identifier: Option<String>,
    pub type_string: Option<String>,
}

/// Any type name.
#[derive(Debug, PartialEq, Eq, Hash)]
pub enum TypeName {
    FunctionTypeName(FunctionTypeName),
    ArrayTypeName(ArrayTypeName),
    Mapping(Mapping),
    UserDefinedTypeName(UserDefinedTypeName),
    ElementaryTypeName(ElementaryTypeName),
    Raw(String),
}

/// Syntax-tree node: elementary type name.
#[derive(Debug, PartialEq, Eq, Hash)]
pub struct ElementaryTypeName {
    pub id: NodeID,
    pub src: String,
    pub state_mutability: Option<StateMutability>,
    pub name: String,
    pub type_descriptions: TypeDescriptions,
}

/// Syntax-tree node: user defined type name.
#[derive(Debug, PartialEq, Eq, Hash)]
pub struct UserDefinedTypeName {
    pub id: NodeID,
    pub src: String,
    pub path_node: Option<IdentifierPath>,
    pub referenced_declaration: NodeID,
    pub name: Option<String>,
    pub type_descriptions: TypeDescriptions,
    pub contract_scope: Option<String>,
}

/// Syntax-tree node: function type name.
#[derive(Debug, PartialEq, Eq, Hash)]
pub struct FunctionTypeName {
    pub id: NodeID,
    pub src: String,
    pub visibility: Visibility,
    pub state_mutability: StateMutability,
    pub parameter_types: ParameterList,
    pub return_parameter_types: ParameterList,
    pub type_descriptions: TypeDescriptions,
}

/// Syntax-tree node: array type name.
#[derive(Debug, PartialEq, Eq, Hash)]
pub struct ArrayTypeName {
    pub id: NodeID,
    pub src: String,
    pub base_type: Box<TypeName>,
    pub length: Box<Option<Expression>>,
    pub type_descriptions: TypeDescriptions,
}

/// Syntax-tree node: mapping.
#[derive(Debug, PartialEq, Eq, Hash)]
pub struct Mapping {
    pub id: NodeID,
    pub src: String,
    pub key_type: Box<TypeName>,
    pub value_type: Box<TypeName>,
    pub type_descriptions: TypeDescriptions,
}

/// Syntax-tree node: user defined value type definition.
#[derive(Debug, PartialEq, Eq, Hash)]
pub struct UserDefinedValueTypeDefinition {
    pub id: NodeID,
    pub src: String,
    pub underlying_type: TypeName,
    pub name: String,
    pub name_location: Option<String>,
    pub canonical_name: Option<String>,
}

/// Syntax-tree node: using for directive.
#[derive(Debug, PartialEq, Eq, Hash)]
pub struct UsingForDirective {
    pub id: NodeID,
    pub src: String,
    pub function_list: Option<Vec<UsingForFunctionItem>>,
    pub global: bool,
    pub library_name: Option<UserDefinedTypeNameOrIdentifierPath>,
    pub type_node: Option<TypeName>,
}

/// The name of a base contract or of a library: a type name or a path.
#[derive(Debug, PartialEq, Eq, Hash)]
pub enum UserDefinedTypeNameOrIdentifierPath {
    UserDefinedTypeName(UserDefinedTypeName),
    IdentifierPath(IdentifierPath),
}

/// An entry of the function list of a `using` directive.
#[derive(Debug, PartialEq, Eq, Hash)]
pub enum UsingForFunctionItem {
    Function(FunctionIdentifierPath),
    OverloadedOperator(OverloadedOperator),
}

/// A function of the function list of a `using` directive.
#[derive(Debug, PartialEq, Eq, Hash)]
pub struct FunctionIdentifierPath {
    pub function: IdentifierPath,
}

/// An operator of the function list of a `using` directive, with the function that defines it.
#[derive(Debug, PartialEq, Eq, Hash)]
pub struct OverloadedOperator {
    pub definition: IdentifierPath,
    pub operator: String,
}

/// Whether a variable can change.
#[derive(Clone, Copy, Debug, PartialEq, Eq, PartialOrd, Ord, Hash, Structural)]
pub enum Mutability {
    Immutable,
    Mutable,
    Constant,
}

/// What a function may do with the state.
#[derive(Clone, Copy, Debug, PartialEq, Eq, PartialOrd, Ord, Hash, Structural)]
pub enum StateMutability {
    NonPayable,
    Payable,
    View,
    Pure,
}

/// From where a declaration can be reached.
#[derive(Clone, Copy, Debug, PartialEq, Eq, PartialOrd, Ord, Hash, Structural)]
pub enum Visibility {
    Public,
    Private,
    Internal,
    External,
}

/// Where the value of a variable is kept.
#[derive(Clone, Copy, Debug, PartialEq, Eq, PartialOrd, Ord, Hash, Structural)]
pub enum StorageLocation {
    Default,
    Memory,
    Calldata,
    Storage,
}

/// Syntax-tree node: variable declaration.
#[derive(Debug, PartialEq, Eq, Hash)]
pub struct VariableDeclaration {
    pub id: NodeID,
    pub src: String,
    pub base_functions: Option<Vec<NodeID>>,
    pub constant: bool,
    pub documentation: Option<Documentation>,
    pub function_selector: Option<String>,
    pub indexed: Option<bool>,
    pub mutability: Option<Mutability>,
    pub name: String,
    pub name_location: Option<String>,
    pub overrides: Option<OverrideSpecifier>,
    pub scope: NodeID,
    pub state_variable: bool,
    pub storage_location: StorageLocation,
    pub type_descriptions: TypeDescriptions,
    pub type_node: Option<TypeName>,
    pub value: Option<Expression>,
    pub visibility: Visibility,
}

} // verus!
