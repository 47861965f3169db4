use vstd::prelude::*;
use vstd::string::StringExecFns;
use crate::ast::node::NodeID;
use crate::context::flow::primitives::{
    CfgBreakStatement, CfgContinueStatement, CfgDoWhileStatementCondition, CfgEmitStatement,
    CfgExpressionStatement, CfgForStatementCondition, CfgIfStatementCondition,
    CfgInlineAssemblyStatement, CfgPlaceholderStatement, CfgReturnStatement, CfgRevertStatement,
    CfgVariableDeclarationStatement, CfgWhileStatementCondition,
};
use crate::context::flow::voids::{CfgEndNode, CfgStartNode};
use crate::context::flow::{CfgNode, CfgNodeDescriptor};
use crate::context::workspace_context::{AstNodeRef, WorkspaceContext};
use crate::text::{decimal, int_to_string};

verus! {

/// A title followed by an identity in round brackets.
pub open spec fn titled(head: Seq<char>, id: int) -> Seq<char> {
    head + " ("@ + decimal(id) + ")"@
}

/// A title, followed on a new line by the source text where it is at hand.
pub open spec fn with_source(title: Seq<char>, inside: Option<Seq<char>>) -> Seq<char> {
    match inside {
        Some(text) => title + ": \n"@ + text,
        None => title,
    }
}

/// Writes a title followed by an identity in round brackets.
pub fn with_id(head: &str, id: NodeID) -> (r: String)
    ensures
        r@ == titled(head@, id as int),
{
    let mut content = String::from_str(head);
    content.append(" (");
    let number = int_to_string(id);
    content.append(number.as_str());
    content.append(")");
    content
}

/// Writes the title of a program point with the identity of its
/// syntax-tree node and, where the registry has it, the node's source text.
pub fn described(context: &WorkspaceContext, head: &str, id: NodeID) -> (r: String)
    ensures
        r@ == with_source(titled(head@, id as int), context.peeked_at(id)),
{
    let mut content = with_id(head, id);
    if let Some(inside) = context.peek_at(id) {
        content.append(": \n");
        content.append(inside.as_str());
    }
    content
}

impl CfgStartNode {
    /// The one-line rendering of the sentinel.
    pub open spec fn label(self) -> Seq<char> {
        match self {
            CfgStartNode::Start => "START"@,
            CfgStartNode::StartFunctionBody(ast_id) => titled("START FUNCTION BODY"@, ast_id as int),
            CfgStartNode::StartModifierBody(ast_id) => titled("START MODIFIER BODY"@, ast_id as int),
            CfgStartNode::StartBlock(ast_id) => titled("START BLOCK"@, ast_id as int),
            CfgStartNode::StartUncheckedBlock(ast_id) => titled("START UNCHECKED BLOCK"@, ast_id as int),
            CfgStartNode::StartIf(ast_id) => titled("START IF"@, ast_id as int),
            CfgStartNode::StartIfCond => "START IF COND"@,
            CfgStartNode::StartIfTrue => "START IF TRUE BRANCH"@,
            CfgStartNode::StartIfFalse => "START IF FALSE BRANCH"@,
            CfgStartNode::StartWhile(ast_id) => titled("START WHILE"@, ast_id as int),
            CfgStartNode::StartWhileCond => "START WHILE COND"@,
            CfgStartNode::StartWhileBody => "START WHILE BODY"@,
            CfgStartNode::StartFor(ast_id) => titled("START FOR"@, ast_id as int),
            CfgStartNode::StartForInitExp => "START FOR INIT_EXP"@,
            CfgStartNode::StartForCond => "START FOR COND"@,
            CfgStartNode::StartForLoopExp => "START FOR LOOP_EXP"@,
            CfgStartNode::StartForBody => "START FOR BODY"@,
            CfgStartNode::StartDoWhile(ast_id) => titled("START DO WHILE"@, ast_id as int),
            CfgStartNode::StartDoWhileCond => "START DO WHILE COND"@,
            CfgStartNode::StartDoWhileBody => "START DO WHILE BODY"@,
        }
    }

    /// Renders the sentinel in one line.
    pub fn peek(&self) -> (r: String)
        ensures
            r@ == self.label(),
    {
        match self {
            CfgStartNode::Start => String::from_str("START"),
            CfgStartNode::StartFunctionBody(ast_id) => with_id("START FUNCTION BODY", *ast_id),
            CfgStartNode::StartModifierBody(ast_id) => with_id("START MODIFIER BODY", *ast_id),
            CfgStartNode::StartBlock(ast_id) => with_id("START BLOCK", *ast_id),
            CfgStartNode::StartUncheckedBlock(ast_id) => with_id("START UNCHECKED BLOCK", *ast_id),
            CfgStartNode::StartIf(ast_id) => with_id("START IF", *ast_id),
            CfgStartNode::StartIfCond => String::from_str("START IF COND"),
            CfgStartNode::StartIfTrue => String::from_str("START IF TRUE BRANCH"),
            CfgStartNode::StartIfFalse => String::from_str("START IF FALSE BRANCH"),
            CfgStartNode::StartWhile(ast_id) => with_id("START WHILE", *ast_id),
            CfgStartNode::StartWhileCond => String::from_str("START WHILE COND"),
            CfgStartNode::StartWhileBody => String::from_str("START WHILE BODY"),
            CfgStartNode::StartFor(ast_id) => with_id("START FOR", *ast_id),
            CfgStartNode::StartForInitExp => String::from_str("START FOR INIT_EXP"),
            CfgStartNode::StartForCond => String::from_str("START FOR COND"),
            CfgStartNode::StartForLoopExp => String::from_str("START FOR LOOP_EXP"),
            CfgStartNode::StartForBody => String::from_str("START FOR BODY"),
            CfgStartNode::StartDoWhile(ast_id) => with_id("START DO WHILE", *ast_id),
            CfgStartNode::StartDoWhileCond => String::from_str("START DO WHILE COND"),
            CfgStartNode::StartDoWhileBody => String::from_str("START DO WHILE BODY"),
        }
    }
}

impl CfgEndNode {
    /// The one-line rendering of the sentinel.
    pub open spec fn label(self) -> Seq<char> {
        match self {
            CfgEndNode::End => "END"@,
            CfgEndNode::EndFunctionBody(ast_id) => titled("END FUNCTION BODY"@, ast_id as int),
            CfgEndNode::EndModifierBody(ast_id) => titled("END MODIFIER BODY"@, ast_id as int),
            CfgEndNode::EndBlock(ast_id) => titled("END BLOCK"@, ast_id as int),
            CfgEndNode::EndUncheckedBlock(ast_id) => titled("END UNCHECKED BLOCK"@, ast_id as int),
            CfgEndNode::EndIf(ast_id) => titled("END IF"@, ast_id as int),
            CfgEndNode::EndIfCond => "END IF COND"@,
            CfgEndNode::EndIfTrue => "END IF TRUE BRANCH"@,
            CfgEndNode::EndIfFalse => "END IF FALSE BRANCH"@,
            CfgEndNode::EndWhile(ast_id) => titled("END WHILE"@, ast_id as int),
            CfgEndNode::EndWhileCond => "END WHILE COND"@,
            CfgEndNode::EndWhileBody => "END WHILE BODY"@,
            CfgEndNode::EndFor(ast_id) => titled("END FOR"@, ast_id as int),
            CfgEndNode::EndForInitExp => "END FOR INIT_EXP"@,
            CfgEndNode::EndForCond => "END FOR COND"@,
            CfgEndNode::EndForLoopExp => "END FOR LOOP_EXP"@,
            CfgEndNode::EndForBody => "END FOR BODY"@,
            CfgEndNode::EndDoWhile(ast_id) => titled("END DO WHILE"@, ast_id as int),
            CfgEndNode::EndDoWhileCond => "END DO WHILE COND"@,
            CfgEndNode::EndDoWhileBody => "END DO WHILE BODY"@,
        }
    }

    /// Renders the sentinel in one line.
    pub fn peek(&self) -> (r: String)
        ensures
            r@ == self.label(),
    {
        match self {
            CfgEndNode::End => String::from_str("END"),
            CfgEndNode::EndFunctionBody(ast_id) => with_id("END FUNCTION BODY", *ast_id),
            CfgEndNode::EndModifierBody(ast_id) => with_id("END MODIFIER BODY", *ast_id),
            CfgEndNode::EndBlock(ast_id) => with_id("END BLOCK", *ast_id),
            CfgEndNode::EndUncheckedBlock(ast_id) => with_id("END UNCHECKED BLOCK", *ast_id),
            CfgEndNode::EndIf(ast_id) => with_id("END IF", *ast_id),
            CfgEndNode::EndIfCond => String::from_str("END IF COND"),
            CfgEndNode::EndIfTrue => String::from_str("END IF TRUE BRANCH"),
            CfgEndNode::EndIfFalse => String::from_str("END IF FALSE BRANCH"),
            CfgEndNode::EndWhile(ast_id) => with_id("END WHILE", *ast_id),
            CfgEndNode::EndWhileCond => String::from_str("END WHILE COND"),
            CfgEndNode::EndWhileBody => String::from_str("END WHILE BODY"),
            CfgEndNode::EndFor(ast_id) => with_id("END FOR", *ast_id),
            CfgEndNode::EndForInitExp => String::from_str("END FOR INIT_EXP"),
            CfgEndNode::EndForCond => String::from_str("END FOR COND"),
            CfgEndNode::EndForLoopExp => String::from_str("END FOR LOOP_EXP"),
            CfgEndNode::EndForBody => String::from_str("END FOR BODY"),
            CfgEndNode::EndDoWhile(ast_id) => with_id("END DO WHILE", *ast_id),
            CfgEndNode::EndDoWhileCond => String::from_str("END DO WHILE COND"),
            CfgEndNode::EndDoWhileBody => String::from_str("END DO WHILE BODY"),
        }
    }
}

impl CfgVariableDeclarationStatement {
    /// Renders the program point: its title, the identity of its statement
    /// and, where the registry has it, the statement's source text.
    pub fn peek(&self, context: &WorkspaceContext) -> (r: String)
        ensures
            r@ == with_source(
                titled("Variable Decl. Stmt"@, self.variable_declaration_statement as int),
                context.peeked_at(self.variable_declaration_statement),
            ),
    {
        described(context, "Variable Decl. Stmt", self.variable_declaration_statement)
    }
}

impl CfgExpressionStatement {
    /// Renders the program point: its title, the identity of its statement
    /// and, where the registry has it, the statement's source text.
    pub fn peek(&self, context: &WorkspaceContext) -> (r: String)
        ensures
            r@ == with_source(
                titled("Expression Stmt"@, self.expression_statement as int),
                context.peeked_at(self.expression_statement),
            ),
    {
        described(context, "Expression Stmt", self.expression_statement)
    }
}

impl CfgReturnStatement {
    /// Renders the program point: its title, the identity of its statement
    /// and, where the registry has it, the statement's source text.
    pub fn peek(&self, context: &WorkspaceContext) -> (r: String)
        ensures
            r@ == with_source(
                titled("Return Stmt"@, self.return_statement as int),
                context.peeked_at(self.return_statement),
            ),
    {
        described(context, "Return Stmt", self.return_statement)
    }
}

impl CfgEmitStatement {
    /// Renders the program point: its title, the identity of its statement
    /// and, where the registry has it, the statement's source text.
    pub fn peek(&self, context: &WorkspaceContext) -> (r: String)
        ensures
            r@ == with_source(
                titled("Emit Stmt"@, self.emit_statement as int),
                context.peeked_at(self.emit_statement),
            ),
    {
        described(context, "Emit Stmt", self.emit_statement)
    }
}

impl CfgRevertStatement {
    /// Renders the program point: its title, the identity of its statement
    /// and, where the registry has it, the statement's source text.
    pub fn peek(&self, context: &WorkspaceContext) -> (r: String)
        ensures
            r@ == with_source(
                titled("Revert Stmt"@, self.revert_statement as int),
                context.peeked_at(self.revert_statement),
            ),
    {
        described(context, "Revert Stmt", self.revert_statement)
    }
}

impl CfgInlineAssemblyStatement {
    /// Renders the program point: its title, the identity of its statement
    /// and, where the registry has it, the statement's source text.
    pub fn peek(&self, context: &WorkspaceContext) -> (r: String)
        ensures
            r@ == with_source(
                titled("Inline Assembly Stmt"@, self.inline_assembly_statement as int),
                context.peeked_at(self.inline_assembly_statement),
            ),
    {
        described(context, "Inline Assembly Stmt", self.inline_assembly_statement)
    }
}

impl CfgBreakStatement {
    /// Renders the program point in one line.
    pub fn peek(&self) -> (r: String)
        ensures
            r@ == titled("BREAK"@, self.break_statement as int),
    {
        with_id("BREAK", self.break_statement)
    }
}

impl CfgContinueStatement {
    /// Renders the program point in one line.
    pub fn peek(&self) -> (r: String)
        ensures
            r@ == titled("CONTINUE"@, self.continue_statement as int),
    {
        with_id("CONTINUE", self.continue_statement)
    }
}

impl CfgPlaceholderStatement {
    /// Renders the program point: its title, the identity of its statement
    /// and the placeholder itself.
    pub fn peek(&self) -> (r: String)
        ensures
            r@ == titled("Placeholder statement"@, self.placeholder_statement as int) + ": \n_"@,
    {
        let mut content = with_id("Placeholder statement", self.placeholder_statement);
        content.append(": \n_");
        content
    }
}

/// The rendering of a condition: its title alone where the condition has
/// no identity, else with the identity and, where the registry has it, the
/// condition's source text.
pub open spec fn condition_label(
    context: &WorkspaceContext,
    head: Seq<char>,
    condition: Option<NodeID>,
) -> Seq<char> {
    match condition {
        Some(id) => with_source(titled(head, id as int), context.peeked_at(id)),
        None => head,
    }
}

/// Renders a condition.
pub fn described_condition(context: &WorkspaceContext, head: &str, condition: Option<NodeID>) -> (r:
    String)
    ensures
        r@ == condition_label(context, head@, condition),
{
    match condition {
        Some(id) => described(context, head, id),
        None => String::from_str(head),
    }
}

impl CfgIfStatementCondition {
    /// Renders the point at which the condition is evaluated.
    pub fn peek(&self, context: &WorkspaceContext) -> (r: String)
        ensures
            r@ == condition_label(context, "If Cond"@, self.if_stmt_condition),
    {
        described_condition(context, "If Cond", self.if_stmt_condition)
    }
}

impl CfgWhileStatementCondition {
    /// Renders the point at which the condition is evaluated.
    pub fn peek(&self, context: &WorkspaceContext) -> (r: String)
        ensures
            r@ == condition_label(context, "While Cond"@, self.while_stmt_condition),
    {
        described_condition(context, "While Cond", self.while_stmt_condition)
    }
}

impl CfgForStatementCondition {
    /// Renders the point at which the condition is evaluated.
    pub fn peek(&self, context: &WorkspaceContext) -> (r: String)
        ensures
            r@ == condition_label(context, "For Cond"@, self.for_stmt_condition),
    {
        described_condition(context, "For Cond", self.for_stmt_condition)
    }
}

impl CfgDoWhileStatementCondition {
    /// Renders the point at which the condition is evaluated.
    pub fn peek(&self, context: &WorkspaceContext) -> (r: String)
        ensures
            r@ == condition_label(context, "Do While Cond"@, self.do_while_stmt_condition),
    {
        described_condition(context, "Do While Cond", self.do_while_stmt_condition)
    }
}

impl CfgNodeDescriptor {
    /// The identity of the syntax-tree node that the descriptor refers
    /// back to. A sentinel refers to none.
    pub open spec fn ast_id(self) -> Option<NodeID> {
        match self {
            CfgNodeDescriptor::Start(_) => None,
            CfgNodeDescriptor::End(_) => None,
            CfgNodeDescriptor::VariableDeclarationStatement(n) => Some(
                n.variable_declaration_statement,
            ),
            CfgNodeDescriptor::ExpressionStatement(n) => Some(n.expression_statement),
            CfgNodeDescriptor::PlaceholderStatement(n) => Some(n.placeholder_statement),
            CfgNodeDescriptor::Break(n) => Some(n.break_statement),
            CfgNodeDescriptor::Continue(n) => Some(n.continue_statement),
            CfgNodeDescriptor::Return(n) => Some(n.return_statement),
            CfgNodeDescriptor::EmitStatement(n) => Some(n.emit_statement),
            CfgNodeDescriptor::RevertStatement(n) => Some(n.revert_statement),
            CfgNodeDescriptor::InlineAssembly(n) => Some(n.inline_assembly_statement),
            CfgNodeDescriptor::IfStatementCondition(n) => n.if_stmt_condition,
            CfgNodeDescriptor::WhileStatementCondition(n) => n.while_stmt_condition,
            CfgNodeDescriptor::ForStatementCondition(n) => n.for_stmt_condition,
            CfgNodeDescriptor::DoWhileStatementCondition(n) => n.do_while_stmt_condition,
            CfgNodeDescriptor::Block(n) => Some(n.block),
            CfgNodeDescriptor::UncheckedBlock(n) => Some(n.unchecked_block),
            CfgNodeDescriptor::IfStatement(n) => Some(n.if_statement),
            CfgNodeDescriptor::WhileStatement(n) => Some(n.while_statement),
            CfgNodeDescriptor::ForStatement(n) => Some(n.for_statement),
            CfgNodeDescriptor::DoWhileStatement(n) => Some(n.do_while_statement),
        }
    }

    /// The rendering of the descriptor.
    pub open spec fn rendering(self, context: &WorkspaceContext) -> Seq<char> {
        match self {
            CfgNodeDescriptor::Start(n) => n.label(),
            CfgNodeDescriptor::End(n) => n.label(),
            CfgNodeDescriptor::VariableDeclarationStatement(n) => with_source(
                titled("Variable Decl. Stmt"@, n.variable_declaration_statement as int),
                context.peeked_at(n.variable_declaration_statement),
            ),
            CfgNodeDescriptor::ExpressionStatement(n) => with_source(
                titled("Expression Stmt"@, n.expression_statement as int),
                context.peeked_at(n.expression_statement),
            ),
            CfgNodeDescriptor::PlaceholderStatement(n) => titled(
                "Placeholder statement"@,
                n.placeholder_statement as int,
            ) + ": \n_"@,
            CfgNodeDescriptor::Break(n) => titled("BREAK"@, n.break_statement as int),
            CfgNodeDescriptor::Continue(n) => titled("CONTINUE"@, n.continue_statement as int),
            CfgNodeDescriptor::Return(n) => with_source(
                titled("Return Stmt"@, n.return_statement as int),
                context.peeked_at(n.return_statement),
            ),
            CfgNodeDescriptor::EmitStatement(n) => with_source(
                titled("Emit Stmt"@, n.emit_statement as int),
                context.peeked_at(n.emit_statement),
            ),
            CfgNodeDescriptor::RevertStatement(n) => with_source(
                titled("Revert Stmt"@, n.revert_statement as int),
                context.peeked_at(n.revert_statement),
            ),
            CfgNodeDescriptor::InlineAssembly(n) => with_source(
                titled("Inline Assembly Stmt"@, n.inline_assembly_statement as int),
                context.peeked_at(n.inline_assembly_statement),
            ),
            CfgNodeDescriptor::IfStatementCondition(n) => condition_label(
                context,
                "If Cond"@,
                n.if_stmt_condition,
            ),
            CfgNodeDescriptor::WhileStatementCondition(n) => condition_label(
                context,
                "While Cond"@,
                n.while_stmt_condition,
            ),
            CfgNodeDescriptor::ForStatementCondition(n) => condition_label(
                context,
                "For Cond"@,
                n.for_stmt_condition,
            ),
            CfgNodeDescriptor::DoWhileStatementCondition(n) => condition_label(
                context,
                "Do While Cond"@,
                n.do_while_stmt_condition,
            ),
            CfgNodeDescriptor::Block(_) => "REDUCIBLE BLOCK"@,
            CfgNodeDescriptor::UncheckedBlock(_) => "REDUCIBLE UNCHECKED BLOCK"@,
            CfgNodeDescriptor::IfStatement(_) => "REDUCIBLE IF-STATEMENT"@,
            CfgNodeDescriptor::WhileStatement(_) => "REDUCIBLE WHILE-STATEMENT"@,
            CfgNodeDescriptor::ForStatement(_) => "REDUCIBLE FOR-STATEMENT"@,
            CfgNodeDescriptor::DoWhileStatement(_) => "REDUCIBLE DO-WHILE-STATEMENT"@,
        }
    }

    /// Renders the descriptor for a reader: its kind, the identity of the
    /// syntax-tree node it refers back to and, where the registry has it,
    /// the node's source text.
    pub fn display(&self, context: &WorkspaceContext) -> (r: String)
        ensures
            r@ == self.rendering(context),
    {
        match self {
            // Voids
            CfgNodeDescriptor::Start(n) => n.peek(),
            CfgNodeDescriptor::End(n) => n.peek(),
            // Primitives
            CfgNodeDescriptor::VariableDeclarationStatement(n) => n.peek(context),
            CfgNodeDescriptor::ExpressionStatement(n) => n.peek(context),
            CfgNodeDescriptor::PlaceholderStatement(n) => n.peek(),
            CfgNodeDescriptor::Break(n) => n.peek(),
            CfgNodeDescriptor::Continue(n) => n.peek(),
            CfgNodeDescriptor::Return(n) => n.peek(context),
            CfgNodeDescriptor::EmitStatement(n) => n.peek(context),
            CfgNodeDescriptor::RevertStatement(n) => n.peek(context),
            CfgNodeDescriptor::InlineAssembly(n) => n.peek(context),
            CfgNodeDescriptor::IfStatementCondition(n) => n.peek(context),
            CfgNodeDescriptor::WhileStatementCondition(n) => n.peek(context),
            CfgNodeDescriptor::ForStatementCondition(n) => n.peek(context),
            CfgNodeDescriptor::DoWhileStatementCondition(n) => n.peek(context),
            // Reducibles
            CfgNodeDescriptor::Block(_) => String::from_str("REDUCIBLE BLOCK"),
            CfgNodeDescriptor::UncheckedBlock(_) => String::from_str("REDUCIBLE UNCHECKED BLOCK"),
            CfgNodeDescriptor::IfStatement(_) => String::from_str("REDUCIBLE IF-STATEMENT"),
            CfgNodeDescriptor::WhileStatement(_) => String::from_str("REDUCIBLE WHILE-STATEMENT"),
            CfgNodeDescriptor::ForStatement(_) => String::from_str("REDUCIBLE FOR-STATEMENT"),
            CfgNodeDescriptor::DoWhileStatement(_) => String::from_str(
                "REDUCIBLE DO-WHILE-STATEMENT",
            ),
        }
    }

    /// The syntax-tree node that the descriptor refers back to, as the
    /// registry knows it. A sentinel reflects to nothing.
    pub fn reflect<'a>(&self, context: &WorkspaceContext<'a>) -> (r: Option<AstNodeRef<'a>>)
        ensures
            match r {
                Some(node) => self.ast_id() is Some && context.nodes@.contains_key(
                    self.ast_id()->Some_0,
                ) && context.nodes@[self.ast_id()->Some_0] == node,
                None => self.ast_id() is None || !context.nodes@.contains_key(
                    self.ast_id()->Some_0,
                ),
            },
    {
        let id = match self {
            CfgNodeDescriptor::Start(_) => None,
            CfgNodeDescriptor::End(_) => None,
            CfgNodeDescriptor::VariableDeclarationStatement(n) => Some(
                n.variable_declaration_statement,
            ),
            CfgNodeDescriptor::ExpressionStatement(n) => Some(n.expression_statement),
            CfgNodeDescriptor::PlaceholderStatement(n) => Some(n.placeholder_statement),
            CfgNodeDescriptor::Break(n) => Some(n.break_statement),
            CfgNodeDescriptor::Continue(n) => Some(n.continue_statement),
            CfgNodeDescriptor::Return(n) => Some(n.return_statement),
            CfgNodeDescriptor::EmitStatement(n) => Some(n.emit_statement),
            CfgNodeDescriptor::RevertStatement(n) => Some(n.revert_statement),
            CfgNodeDescriptor::InlineAssembly(n) => Some(n.inline_assembly_statement),
            CfgNodeDescriptor::IfStatementCondition(n) => n.if_stmt_condition,
            CfgNodeDescriptor::WhileStatementCondition(n) => n.while_stmt_condition,
            CfgNodeDescriptor::ForStatementCondition(n) => n.for_stmt_condition,
            CfgNodeDescriptor::DoWhileStatementCondition(n) => n.do_while_stmt_condition,
            CfgNodeDescriptor::Block(n) => Some(n.block),
            CfgNodeDescriptor::UncheckedBlock(n) => Some(n.unchecked_block),
            CfgNodeDescriptor::IfStatement(n) => Some(n.if_statement),
            CfgNodeDescriptor::WhileStatement(n) => Some(n.while_statement),
            CfgNodeDescriptor::ForStatement(n) => Some(n.for_statement),
            CfgNodeDescriptor::DoWhileStatement(n) => Some(n.do_while_statement),
        };
        match id {
            Some(id) => context.get(id),
            None => None,
        }
    }
}

impl CfgNode {
    /// The syntax-tree node that the graph node refers back to, as the
    /// registry knows it. A sentinel reflects to nothing.
    pub fn reflect<'a>(&self, context: &WorkspaceContext<'a>) -> (r: Option<AstNodeRef<'a>>)
        ensures
            match r {
                Some(node) => self.nd.ast_id() is Some && context.nodes@.contains_key(
                    self.nd.ast_id()->Some_0,
                ) && context.nodes@[self.nd.ast_id()->Some_0] == node,
                None => self.nd.ast_id() is None || !context.nodes@.contains_key(
                    self.nd.ast_id()->Some_0,
                ),
            },
    {
        self.nd.reflect(context)
    }
}

} // verus!
