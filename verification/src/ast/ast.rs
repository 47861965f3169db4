use vstd::prelude::*;
use crate::ast::node::{NodeID, NodeType};
use crate::ast::ast_nodes::{
    ArrayTypeName,
    Assignment,
    BinaryOperation,
    Block,
    Break,
    Conditional,
    Continue,
    ContractDefinition,
    DoWhileStatement,
    ElementaryTypeName,
    ElementaryTypeNameExpression,
    EmitStatement,
    EnumDefinition,
    EnumValue,
    ErrorDefinition,
    EventDefinition,
    ExpressionStatement,
    ForStatement,
    FunctionCall,
    FunctionCallOptions,
    FunctionDefinition,
    FunctionTypeName,
    Identifier,
    IdentifierPath,
    IfStatement,
    ImportDirective,
    IndexAccess,
    IndexRangeAccess,
    InheritanceSpecifier,
    InlineAssembly,
    Literal,
    Mapping,
    MemberAccess,
    ModifierDefinition,
    ModifierInvocation,
    NewExpression,
    OverrideSpecifier,
    ParameterList,
    PlaceholderStatement,
    PragmaDirective,
    Return,
    RevertStatement,
    SourceUnit,
    StructDefinition,
    StructuredDocumentation,
    TryCatchClause,
    TryStatement,
    TupleExpression,
    UnaryOperation,
    UserDefinedTypeName,
    UserDefinedValueTypeDefinition,
    UsingForDirective,
    VariableDeclaration,
    VariableDeclarationStatement,
    WhileStatement,
};

verus! {

/// Any node of the syntax tree, owned, tagged by its kind.
#[derive(Debug, PartialEq)]
pub enum ASTNode {
    ArrayTypeName(ArrayTypeName),
    Assignment(Assignment),
    BinaryOperation(BinaryOperation),
    Block(Block),
    Conditional(Conditional),
    ContractDefinition(ContractDefinition),
    ElementaryTypeName(ElementaryTypeName),
    ElementaryTypeNameExpression(ElementaryTypeNameExpression),
    EmitStatement(EmitStatement),
    EnumDefinition(EnumDefinition),
    EnumValue(EnumValue),
    EventDefinition(EventDefinition),
    ErrorDefinition(ErrorDefinition),
    ExpressionStatement(ExpressionStatement),
    FunctionCall(FunctionCall),
    FunctionCallOptions(FunctionCallOptions),
    FunctionDefinition(FunctionDefinition),
    FunctionTypeName(FunctionTypeName),
    ForStatement(ForStatement),
    Identifier(Identifier),
    IdentifierPath(IdentifierPath),
    IfStatement(IfStatement),
    ImportDirective(ImportDirective),
    IndexAccess(IndexAccess),
    IndexRangeAccess(IndexRangeAccess),
    InheritanceSpecifier(InheritanceSpecifier),
    InlineAssembly(InlineAssembly),
    Literal(Literal),
    MemberAccess(MemberAccess),
    NewExpression(NewExpression),
    Mapping(Mapping),
    ModifierDefinition(ModifierDefinition),
    ModifierInvocation(ModifierInvocation),
    OverrideSpecifier(OverrideSpecifier),
    ParameterList(ParameterList),
    PragmaDirective(PragmaDirective),
    Return(Return),
    RevertStatement(RevertStatement),
    SourceUnit(SourceUnit),
    StructDefinition(StructDefinition),
    StructuredDocumentation(StructuredDocumentation),
    TryStatement(TryStatement),
    TryCatchClause(TryCatchClause),
    TupleExpression(TupleExpression),
    UnaryOperation(UnaryOperation),
    UserDefinedTypeName(UserDefinedTypeName),
    UserDefinedValueTypeDefinition(UserDefinedValueTypeDefinition),
    UsingForDirective(UsingForDirective),
    VariableDeclaration(VariableDeclaration),
    VariableDeclarationStatement(VariableDeclarationStatement),
    WhileStatement(WhileStatement),
    DoWhileStatement(DoWhileStatement),
    Break(Break),
    Continue(Continue),
    PlaceholderStatement(PlaceholderStatement),
}

impl ASTNode {
    /// The kind tag of the node, as a specification.
    pub open spec fn kind_tag(self) -> NodeType {
        match self {
            ASTNode::ArrayTypeName(_) => NodeType::ArrayTypeName,
            ASTNode::Assignment(_) => NodeType::Assignment,
            ASTNode::BinaryOperation(_) => NodeType::BinaryOperation,
            ASTNode::Block(_) => NodeType::Block,
            ASTNode::Conditional(_) => NodeType::Conditional,
            ASTNode::ContractDefinition(_) => NodeType::ContractDefinition,
            ASTNode::ElementaryTypeName(_) => NodeType::ElementaryTypeName,
            ASTNode::ElementaryTypeNameExpression(_) => NodeType::ElementaryTypeNameExpression,
            ASTNode::EmitStatement(_) => NodeType::EmitStatement,
            ASTNode::EnumDefinition(_) => NodeType::EnumDefinition,
            ASTNode::EnumValue(_) => NodeType::EnumValue,
            ASTNode::EventDefinition(_) => NodeType::EventDefinition,
            ASTNode::ErrorDefinition(_) => NodeType::ErrorDefinition,
            ASTNode::ExpressionStatement(_) => NodeType::ExpressionStatement,
            ASTNode::FunctionCall(_) => NodeType::FunctionCall,
            ASTNode::FunctionCallOptions(_) => NodeType::FunctionCallOptions,
            ASTNode::FunctionDefinition(_) => NodeType::FunctionDefinition,
            ASTNode::FunctionTypeName(_) => NodeType::FunctionTypeName,
            ASTNode::ForStatement(_) => NodeType::ForStatement,
            ASTNode::Identifier(_) => NodeType::Identifier,
            ASTNode::IdentifierPath(_) => NodeType::IdentifierPath,
            ASTNode::IfStatement(_) => NodeType::IfStatement,
            ASTNode::ImportDirective(_) => NodeType::ImportDirective,
            ASTNode::IndexAccess(_) => NodeType::IndexAccess,
            ASTNode::IndexRangeAccess(_) => NodeType::IndexRangeAccess,
            ASTNode::InheritanceSpecifier(_) => NodeType::InheritanceSpecifier,
            ASTNode::InlineAssembly(_) => NodeType::InlineAssembly,
            ASTNode::Literal(_) => NodeType::Literal,
            ASTNode::MemberAccess(_) => NodeType::MemberAccess,
            ASTNode::NewExpression(_) => NodeType::NewExpression,
            ASTNode::Mapping(_) => NodeType::Mapping,
            ASTNode::ModifierDefinition(_) => NodeType::ModifierDefinition,
            ASTNode::ModifierInvocation(_) => NodeType::ModifierInvocation,
            ASTNode::OverrideSpecifier(_) => NodeType::OverrideSpecifier,
            ASTNode::ParameterList(_) => NodeType::ParameterList,
            ASTNode::PragmaDirective(_) => NodeType::PragmaDirective,
            ASTNode::Return(_) => NodeType::Return,
            ASTNode::RevertStatement(_) => NodeType::RevertStatement,
            ASTNode::SourceUnit(_) => NodeType::SourceUnit,
            ASTNode::StructDefinition(_) => NodeType::StructDefinition,
            ASTNode::StructuredDocumentation(_) => NodeType::StructuredDocumentation,
            ASTNode::TryStatement(_) => NodeType::TryStatement,
            ASTNode::TryCatchClause(_) => NodeType::TryCatchClause,
            ASTNode::TupleExpression(_) => NodeType::TupleExpression,
            ASTNode::UnaryOperation(_) => NodeType::UnaryOperation,
            ASTNode::UserDefinedTypeName(_) => NodeType::UserDefinedTypeName,
            ASTNode::UserDefinedValueTypeDefinition(_) => NodeType::UserDefinedValueTypeDefinition,
            ASTNode::UsingForDirective(_) => NodeType::UsingForDirective,
            ASTNode::VariableDeclaration(_) => NodeType::VariableDeclaration,
            ASTNode::VariableDeclarationStatement(_) => NodeType::VariableDeclarationStatement,
            ASTNode::WhileStatement(_) => NodeType::WhileStatement,
            ASTNode::DoWhileStatement(_) => NodeType::DoWhileStatement,
            ASTNode::Break(_) => NodeType::Break,
            ASTNode::Continue(_) => NodeType::Continue,
            ASTNode::PlaceholderStatement(_) => NodeType::PlaceholderStatement,
        }
    }

    /// The node's identity, as a specification. Every kind of node carries one.
    pub open spec fn ident(self) -> NodeID {
        match self {
            ASTNode::ArrayTypeName(n) => n.id,
            ASTNode::Assignment(n) => n.id,
            ASTNode::BinaryOperation(n) => n.id,
            ASTNode::Block(n) => n.id,
            ASTNode::Conditional(n) => n.id,
            ASTNode::ContractDefinition(n) => n.id,
            ASTNode::ElementaryTypeName(n) => n.id,
            ASTNode::ElementaryTypeNameExpression(n) => n.id,
            ASTNode::EmitStatement(n) => n.id,
            ASTNode::EnumDefinition(n) => n.id,
            ASTNode::EnumValue(n) => n.id,
            ASTNode::EventDefinition(n) => n.id,
            ASTNode::ErrorDefinition(n) => n.id,
            ASTNode::ExpressionStatement(n) => n.id,
            ASTNode::FunctionCall(n) => n.id,
            ASTNode::FunctionCallOptions(n) => n.id,
            ASTNode::FunctionDefinition(n) => n.id,
            ASTNode::FunctionTypeName(n) => n.id,
            ASTNode::ForStatement(n) => n.id,
            ASTNode::Identifier(n) => n.id,
            ASTNode::IdentifierPath(n) => n.id,
            ASTNode::IfStatement(n) => n.id,
            ASTNode::ImportDirective(n) => n.id,
            ASTNode::IndexAccess(n) => n.id,
            ASTNode::IndexRangeAccess(n) => n.id,
            ASTNode::InheritanceSpecifier(n) => n.id,
            ASTNode::InlineAssembly(n) => n.id,
            ASTNode::Literal(n) => n.id,
            ASTNode::MemberAccess(n) => n.id,
            ASTNode::NewExpression(n) => n.id,
            ASTNode::Mapping(n) => n.id,
            ASTNode::ModifierDefinition(n) => n.id,
            ASTNode::ModifierInvocation(n) => n.id,
            ASTNode::OverrideSpecifier(n) => n.id,
            ASTNode::ParameterList(n) => n.id,
            ASTNode::PragmaDirective(n) => n.id,
            ASTNode::Return(n) => n.id,
            ASTNode::RevertStatement(n) => n.id,
            ASTNode::SourceUnit(n) => n.id,
            ASTNode::StructDefinition(n) => n.id,
            ASTNode::StructuredDocumentation(n) => n.id,
            ASTNode::TryStatement(n) => n.id,
            ASTNode::TryCatchClause(n) => n.id,
            ASTNode::TupleExpression(n) => n.id,
            ASTNode::UnaryOperation(n) => n.id,
            ASTNode::UserDefinedTypeName(n) => n.id,
            ASTNode::UserDefinedValueTypeDefinition(n) => n.id,
            ASTNode::UsingForDirective(n) => n.id,
            ASTNode::VariableDeclaration(n) => n.id,
            ASTNode::VariableDeclarationStatement(n) => n.id,
            ASTNode::WhileStatement(n) => n.id,
            ASTNode::DoWhileStatement(n) => n.id,
            ASTNode::Break(n) => n.id,
            ASTNode::Continue(n) => n.id,
            ASTNode::PlaceholderStatement(n) => n.id,
        }
    }

    /// The node's source span, as a specification: absent for a source unit,
    /// which stands for a whole file.
    pub open spec fn span(self) -> Option<Seq<char>> {
        match self {
            ASTNode::ArrayTypeName(n) => Some(n.src@),
            ASTNode::Assignment(n) => Some(n.src@),
            ASTNode::BinaryOperation(n) => Some(n.src@),
            ASTNode::Block(n) => Some(n.src@),
            ASTNode::Conditional(n) => Some(n.src@),
            ASTNode::ContractDefinition(n) => Some(n.src@),
            ASTNode::ElementaryTypeName(n) => Some(n.src@),
            ASTNode::ElementaryTypeNameExpression(n) => Some(n.src@),
            ASTNode::EmitStatement(n) => Some(n.src@),
            ASTNode::EnumDefinition(n) => Some(n.src@),
            ASTNode::EnumValue(n) => Some(n.src@),
            ASTNode::EventDefinition(n) => Some(n.src@),
            ASTNode::ErrorDefinition(n) => Some(n.src@),
            ASTNode::ExpressionStatement(n) => Some(n.src@),
            ASTNode::FunctionCall(n) => Some(n.src@),
            ASTNode::FunctionCallOptions(n) => Some(n.src@),
            ASTNode::FunctionDefinition(n) => Some(n.src@),
            ASTNode::FunctionTypeName(n) => Some(n.src@),
            ASTNode::ForStatement(n) => Some(n.src@),
            ASTNode::Identifier(n) => Some(n.src@),
            ASTNode::IdentifierPath(n) => Some(n.src@),
            ASTNode::IfStatement(n) => Some(n.src@),
            ASTNode::ImportDirective(n) => Some(n.src@),
            ASTNode::IndexAccess(n) => Some(n.src@),
            ASTNode::IndexRangeAccess(n) => Some(n.src@),
            ASTNode::InheritanceSpecifier(n) => Some(n.src@),
            ASTNode::InlineAssembly(n) => Some(n.src@),
            ASTNode::Literal(n) => Some(n.src@),
            ASTNode::MemberAccess(n) => Some(n.src@),
            ASTNode::NewExpression(n) => Some(n.src@),
            ASTNode::Mapping(n) => Some(n.src@),
            ASTNode::ModifierDefinition(n) => Some(n.src@),
            ASTNode::ModifierInvocation(n) => Some(n.src@),
            ASTNode::OverrideSpecifier(n) => Some(n.src@),
            ASTNode::ParameterList(n) => Some(n.src@),
            ASTNode::PragmaDirective(n) => Some(n.src@),
            ASTNode::Return(n) => Some(n.src@),
            ASTNode::RevertStatement(n) => Some(n.src@),
            ASTNode::SourceUnit(_) => None,
            ASTNode::StructDefinition(n) => Some(n.src@),
            ASTNode::StructuredDocumentation(n) => Some(n.src@),
            ASTNode::TryStatement(n) => Some(n.src@),
            ASTNode::TryCatchClause(n) => Some(n.src@),
            ASTNode::TupleExpression(n) => Some(n.src@),
            ASTNode::UnaryOperation(n) => Some(n.src@),
            ASTNode::UserDefinedTypeName(n) => Some(n.src@),
            ASTNode::UserDefinedValueTypeDefinition(n) => Some(n.src@),
            ASTNode::UsingForDirective(n) => Some(n.src@),
            ASTNode::VariableDeclaration(n) => Some(n.src@),
            ASTNode::VariableDeclarationStatement(n) => Some(n.src@),
            ASTNode::WhileStatement(n) => Some(n.src@),
            ASTNode::DoWhileStatement(n) => Some(n.src@),
            ASTNode::Break(n) => Some(n.src@),
            ASTNode::Continue(n) => Some(n.src@),
            ASTNode::PlaceholderStatement(n) => Some(n.src@),
        }
    }

    /// The kind tag of the node.
    pub fn node_type(&self) -> (r: NodeType)
        ensures
            r == self.kind_tag(),
    {
        match self {
            ASTNode::ArrayTypeName(_) => NodeType::ArrayTypeName,
            ASTNode::Assignment(_) => NodeType::Assignment,
            ASTNode::BinaryOperation(_) => NodeType::BinaryOperation,
            ASTNode::Block(_) => NodeType::Block,
            ASTNode::Conditional(_) => NodeType::Conditional,
            ASTNode::ContractDefinition(_) => NodeType::ContractDefinition,
            ASTNode::ElementaryTypeName(_) => NodeType::ElementaryTypeName,
            ASTNode::ElementaryTypeNameExpression(_) => NodeType::ElementaryTypeNameExpression,
            ASTNode::EmitStatement(_) => NodeType::EmitStatement,
            ASTNode::EnumDefinition(_) => NodeType::EnumDefinition,
            ASTNode::EnumValue(_) => NodeType::EnumValue,
            ASTNode::EventDefinition(_) => NodeType::EventDefinition,
            ASTNode::ErrorDefinition(_) => NodeType::ErrorDefinition,
            ASTNode::ExpressionStatement(_) => NodeType::ExpressionStatement,
            ASTNode::FunctionCall(_) => NodeType::FunctionCall,
            ASTNode::FunctionCallOptions(_) => NodeType::FunctionCallOptions,
            ASTNode::FunctionDefinition(_) => NodeType::FunctionDefinition,
            ASTNode::FunctionTypeName(_) => NodeType::FunctionTypeName,
            ASTNode::ForStatement(_) => NodeType::ForStatement,
            ASTNode::Identifier(_) => NodeType::Identifier,
            ASTNode::IdentifierPath(_) => NodeType::IdentifierPath,
            ASTNode::IfStatement(_) => NodeType::IfStatement,
            ASTNode::ImportDirective(_) => NodeType::ImportDirective,
            ASTNode::IndexAccess(_) => NodeType::IndexAccess,
            ASTNode::IndexRangeAccess(_) => NodeType::IndexRangeAccess,
            ASTNode::InheritanceSpecifier(_) => NodeType::InheritanceSpecifier,
            ASTNode::InlineAssembly(_) => NodeType::InlineAssembly,
            ASTNode::Literal(_) => NodeType::Literal,
            ASTNode::MemberAccess(_) => NodeType::MemberAccess,
            ASTNode::NewExpression(_) => NodeType::NewExpression,
            ASTNode::Mapping(_) => NodeType::Mapping,
            ASTNode::ModifierDefinition(_) => NodeType::ModifierDefinition,
            ASTNode::ModifierInvocation(_) => NodeType::ModifierInvocation,
            ASTNode::OverrideSpecifier(_) => NodeType::OverrideSpecifier,
            ASTNode::ParameterList(_) => NodeType::ParameterList,
            ASTNode::PragmaDirective(_) => NodeType::PragmaDirective,
            ASTNode::Return(_) => NodeType::Return,
            ASTNode::RevertStatement(_) => NodeType::RevertStatement,
            ASTNode::SourceUnit(_) => NodeType::SourceUnit,
            ASTNode::StructDefinition(_) => NodeType::StructDefinition,
            ASTNode::StructuredDocumentation(_) => NodeType::StructuredDocumentation,
            ASTNode::TryStatement(_) => NodeType::TryStatement,
            ASTNode::TryCatchClause(_) => NodeType::TryCatchClause,
            ASTNode::TupleExpression(_) => NodeType::TupleExpression,
            ASTNode::UnaryOperation(_) => NodeType::UnaryOperation,
            ASTNode::UserDefinedTypeName(_) => NodeType::UserDefinedTypeName,
            ASTNode::UserDefinedValueTypeDefinition(_) => NodeType::UserDefinedValueTypeDefinition,
            ASTNode::UsingForDirective(_) => NodeType::UsingForDirective,
            ASTNode::VariableDeclaration(_) => NodeType::VariableDeclaration,
            ASTNode::VariableDeclarationStatement(_) => NodeType::VariableDeclarationStatement,
            ASTNode::WhileStatement(_) => NodeType::WhileStatement,
            ASTNode::DoWhileStatement(_) => NodeType::DoWhileStatement,
            ASTNode::Break(_) => NodeType::Break,
            ASTNode::Continue(_) => NodeType::Continue,
            ASTNode::PlaceholderStatement(_) => NodeType::PlaceholderStatement,
        }
    }

    /// The node's identity.
    pub fn id(&self) -> (r: Option<NodeID>)
        ensures
            r == Some(self.ident()),
    {
        match self {
            ASTNode::ArrayTypeName(n) => Some(n.id),
            ASTNode::Assignment(n) => Some(n.id),
            ASTNode::BinaryOperation(n) => Some(n.id),
            ASTNode::Block(n) => Some(n.id),
            ASTNode::Conditional(n) => Some(n.id),
            ASTNode::ContractDefinition(n) => Some(n.id),
            ASTNode::ElementaryTypeName(n) => Some(n.id),
            ASTNode::ElementaryTypeNameExpression(n) => Some(n.id),
            ASTNode::EmitStatement(n) => Some(n.id),
            ASTNode::EnumDefinition(n) => Some(n.id),
            ASTNode::EnumValue(n) => Some(n.id),
            ASTNode::EventDefinition(n) => Some(n.id),
            ASTNode::ErrorDefinition(n) => Some(n.id),
            ASTNode::ExpressionStatement(n) => Some(n.id),
            ASTNode::FunctionCall(n) => Some(n.id),
            ASTNode::FunctionCallOptions(n) => Some(n.id),
            ASTNode::FunctionDefinition(n) => Some(n.id),
            ASTNode::FunctionTypeName(n) => Some(n.id),
            ASTNode::ForStatement(n) => Some(n.id),
            ASTNode::Identifier(n) => Some(n.id),
            ASTNode::IdentifierPath(n) => Some(n.id),
            ASTNode::IfStatement(n) => Some(n.id),
            ASTNode::ImportDirective(n) => Some(n.id),
            ASTNode::IndexAccess(n) => Some(n.id),
            ASTNode::IndexRangeAccess(n) => Some(n.id),
            ASTNode::InheritanceSpecifier(n) => Some(n.id),
            ASTNode::InlineAssembly(n) => Some(n.id),
            ASTNode::Literal(n) => Some(n.id),
            ASTNode::MemberAccess(n) => Some(n.id),
            ASTNode::NewExpression(n) => Some(n.id),
            ASTNode::Mapping(n) => Some(n.id),
            ASTNode::ModifierDefinition(n) => Some(n.id),
            ASTNode::ModifierInvocation(n) => Some(n.id),
            ASTNode::OverrideSpecifier(n) => Some(n.id),
            ASTNode::ParameterList(n) => Some(n.id),
            ASTNode::PragmaDirective(n) => Some(n.id),
            ASTNode::Return(n) => Some(n.id),
            ASTNode::RevertStatement(n) => Some(n.id),
            ASTNode::SourceUnit(n) => Some(n.id),
            ASTNode::StructDefinition(n) => Some(n.id),
            ASTNode::StructuredDocumentation(n) => Some(n.id),
            ASTNode::TryStatement(n) => Some(n.id),
            ASTNode::TryCatchClause(n) => Some(n.id),
            ASTNode::TupleExpression(n) => Some(n.id),
            ASTNode::UnaryOperation(n) => Some(n.id),
            ASTNode::UserDefinedTypeName(n) => Some(n.id),
            ASTNode::UserDefinedValueTypeDefinition(n) => Some(n.id),
            ASTNode::UsingForDirective(n) => Some(n.id),
            ASTNode::VariableDeclaration(n) => Some(n.id),
            ASTNode::VariableDeclarationStatement(n) => Some(n.id),
            ASTNode::WhileStatement(n) => Some(n.id),
            ASTNode::DoWhileStatement(n) => Some(n.id),
            ASTNode::Break(n) => Some(n.id),
            ASTNode::Continue(n) => Some(n.id),
            ASTNode::PlaceholderStatement(n) => Some(n.id),
        }
    }

    /// The node's source span, in the form `offset:length:file`; `None` for a
    /// source unit.
    pub fn src(&self) -> (r: Option<&str>)
        ensures
            match r {
                Some(s) => self.span() == Some(s@),
                None => self.span().is_none(),
            },
    {
        match self {
            ASTNode::ArrayTypeName(n) => Some(n.src.as_str()),
            ASTNode::Assignment(n) => Some(n.src.as_str()),
            ASTNode::BinaryOperation(n) => Some(n.src.as_str()),
            ASTNode::Block(n) => Some(n.src.as_str()),
            ASTNode::Conditional(n) => Some(n.src.as_str()),
            ASTNode::ContractDefinition(n) => Some(n.src.as_str()),
            ASTNode::ElementaryTypeName(n) => Some(n.src.as_str()),
            ASTNode::ElementaryTypeNameExpression(n) => Some(n.src.as_str()),
            ASTNode::EmitStatement(n) => Some(n.src.as_str()),
            ASTNode::EnumDefinition(n) => Some(n.src.as_str()),
            ASTNode::EnumValue(n) => Some(n.src.as_str()),
            ASTNode::EventDefinition(n) => Some(n.src.as_str()),
            ASTNode::ErrorDefinition(n) => Some(n.src.as_str()),
            ASTNode::ExpressionStatement(n) => Some(n.src.as_str()),
            ASTNode::FunctionCall(n) => Some(n.src.as_str()),
            ASTNode::FunctionCallOptions(n) => Some(n.src.as_str()),
            ASTNode::FunctionDefinition(n) => Some(n.src.as_str()),
            ASTNode::FunctionTypeName(n) => Some(n.src.as_str()),
            ASTNode::ForStatement(n) => Some(n.src.as_str()),
            ASTNode::Identifier(n) => Some(n.src.as_str()),
            ASTNode::IdentifierPath(n) => Some(n.src.as_str()),
            ASTNode::IfStatement(n) => Some(n.src.as_str()),
            ASTNode::ImportDirective(n) => Some(n.src.as_str()),
            ASTNode::IndexAccess(n) => Some(n.src.as_str()),
            ASTNode::IndexRangeAccess(n) => Some(n.src.as_str()),
            ASTNode::InheritanceSpecifier(n) => Some(n.src.as_str()),
            ASTNode::InlineAssembly(n) => Some(n.src.as_str()),
            ASTNode::Literal(n) => Some(n.src.as_str()),
            ASTNode::MemberAccess(n) => Some(n.src.as_str()),
            ASTNode::NewExpression(n) => Some(n.src.as_str()),
            ASTNode::Mapping(n) => Some(n.src.as_str()),
            ASTNode::ModifierDefinition(n) => Some(n.src.as_str()),
            ASTNode::ModifierInvocation(n) => Some(n.src.as_str()),
            ASTNode::OverrideSpecifier(n) => Some(n.src.as_str()),
            ASTNode::ParameterList(n) => Some(n.src.as_str()),
            ASTNode::PragmaDirective(n) => Some(n.src.as_str()),
            ASTNode::Return(n) => Some(n.src.as_str()),
            ASTNode::RevertStatement(n) => Some(n.src.as_str()),
            ASTNode::SourceUnit(_) => None,
            ASTNode::StructDefinition(n) => Some(n.src.as_str()),
            ASTNode::StructuredDocumentation(n) => Some(n.src.as_str()),
            ASTNode::TryStatement(n) => Some(n.src.as_str()),
            ASTNode::TryCatchClause(n) => Some(n.src.as_str()),
            ASTNode::TupleExpression(n) => Some(n.src.as_str()),
            ASTNode::UnaryOperation(n) => Some(n.src.as_str()),
            ASTNode::UserDefinedTypeName(n) => Some(n.src.as_str()),
            ASTNode::UserDefinedValueTypeDefinition(n) => Some(n.src.as_str()),
            ASTNode::UsingForDirective(n) => Some(n.src.as_str()),
            ASTNode::VariableDeclaration(n) => Some(n.src.as_str()),
            ASTNode::VariableDeclarationStatement(n) => Some(n.src.as_str()),
            ASTNode::WhileStatement(n) => Some(n.src.as_str()),
            ASTNode::DoWhileStatement(n) => Some(n.src.as_str()),
            ASTNode::Break(n) => Some(n.src.as_str()),
            ASTNode::Continue(n) => Some(n.src.as_str()),
            ASTNode::PlaceholderStatement(n) => Some(n.src.as_str()),
        }
    }
}

} // verus!
