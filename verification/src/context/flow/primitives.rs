use vstd::prelude::*;
use crate::ast::ast_nodes::{BlockOrStatement, Expression, ExpressionStatement, Statement};
use crate::ast::node::NodeID;
use crate::context::flow::expansion::{body_descriptor, node_added, stmt_descriptor};
use crate::context::flow::reducibles::{
    CfgBlock, CfgDoWhileStatement, CfgForStatement, CfgIfStatement, CfgUncheckedBlock,
    CfgWhileStatement,
};
use crate::context::flow::voids::CfgStartNode;
use crate::context::flow::{Cfg, CfgNodeDescriptor, CfgNodeId};

verus! {

/// Program point of a variable declaration statement.
#[derive(Clone, Copy, Debug, PartialEq, Eq, Hash, Structural)]
pub struct CfgVariableDeclarationStatement {
    pub variable_declaration_statement: NodeID,
}

/// Program point of an expression statement.
#[derive(Clone, Copy, Debug, PartialEq, Eq, Hash, Structural)]
pub struct CfgExpressionStatement {
    pub expression_statement: NodeID,
}

/// Program point of the placeholder `_` of a modifier body.
#[derive(Clone, Copy, Debug, PartialEq, Eq, Hash, Structural)]
pub struct CfgPlaceholderStatement {
    pub placeholder_statement: NodeID,
}

/// Program point of a `break`.
#[derive(Clone, Copy, Debug, PartialEq, Eq, Hash, Structural)]
pub struct CfgBreakStatement {
    pub break_statement: NodeID,
}

/// Program point of a `continue`.
#[derive(Clone, Copy, Debug, PartialEq, Eq, Hash, Structural)]
pub struct CfgContinueStatement {
    pub continue_statement: NodeID,
}

/// Program point of a `return`.
#[derive(Clone, Copy, Debug, PartialEq, Eq, Hash, Structural)]
pub struct CfgReturnStatement {
    pub return_statement: NodeID,
}

/// Program point of an `emit`.
#[derive(Clone, Copy, Debug, PartialEq, Eq, Hash, Structural)]
pub struct CfgEmitStatement {
    pub emit_statement: NodeID,
}

/// Program point of a `revert`.
#[derive(Clone, Copy, Debug, PartialEq, Eq, Hash, Structural)]
pub struct CfgRevertStatement {
    pub revert_statement: NodeID,
}

/// Program point of an inline assembly block.
#[derive(Clone, Copy, Debug, PartialEq, Eq, Hash, Structural)]
pub struct CfgInlineAssemblyStatement {
    pub inline_assembly_statement: NodeID,
}

/// Point at which the condition of an `if` is evaluated.
#[derive(Clone, Copy, Debug, PartialEq, Eq, Hash, Structural)]
pub struct CfgIfStatementCondition {
    pub if_stmt_condition: Option<NodeID>,
}

/// Point at which the condition of a `while` is evaluated.
#[derive(Clone, Copy, Debug, PartialEq, Eq, Hash, Structural)]
pub struct CfgWhileStatementCondition {
    pub while_stmt_condition: Option<NodeID>,
}

/// Point at which the condition of a `for` is evaluated.
#[derive(Clone, Copy, Debug, PartialEq, Eq, Hash, Structural)]
pub struct CfgForStatementCondition {
    pub for_stmt_condition: Option<NodeID>,
}

/// Point at which the condition of a `do`-`while` is evaluated.
#[derive(Clone, Copy, Debug, PartialEq, Eq, Hash, Structural)]
pub struct CfgDoWhileStatementCondition {
    pub do_while_stmt_condition: Option<NodeID>,
}

impl Cfg {
    /// Adds the node that stands for a statement: a reducible node for a
    /// block, an `if` or a loop, one program point for any other statement.
    /// A `try` statement has no node.
    pub fn add_statement_node(&mut self, stmt: &Statement) -> (id: CfgNodeId)
        requires
            old(self).inv(),
            old(self).next() < usize::MAX,
            !(stmt is TryStatement),
        ensures
            node_added(*old(self), *final(self), stmt_descriptor(*stmt), id),
    {
        let nd = match stmt {
            Statement::Block(n) => CfgNodeDescriptor::Block(CfgBlock { block: n.id }),
            Statement::UncheckedBlock(n) => CfgNodeDescriptor::UncheckedBlock(
                CfgUncheckedBlock { unchecked_block: n.id },
            ),
            Statement::IfStatement(n) => CfgNodeDescriptor::IfStatement(
                CfgIfStatement { if_statement: n.id },
            ),
            Statement::WhileStatement(n) => CfgNodeDescriptor::WhileStatement(
                CfgWhileStatement { while_statement: n.id },
            ),
            Statement::ForStatement(n) => CfgNodeDescriptor::ForStatement(
                CfgForStatement { for_statement: n.id },
            ),
            Statement::DoWhileStatement(n) => CfgNodeDescriptor::DoWhileStatement(
                CfgDoWhileStatement { do_while_statement: n.id },
            ),
            Statement::VariableDeclarationStatement(n) => CfgNodeDescriptor::VariableDeclarationStatement(
                CfgVariableDeclarationStatement { variable_declaration_statement: n.id },
            ),
            Statement::ExpressionStatement(n) => CfgNodeDescriptor::ExpressionStatement(
                CfgExpressionStatement { expression_statement: n.id },
            ),
            Statement::PlaceholderStatement(n) => CfgNodeDescriptor::PlaceholderStatement(
                CfgPlaceholderStatement { placeholder_statement: n.id },
            ),
            Statement::Break(n) => CfgNodeDescriptor::Break(
                CfgBreakStatement { break_statement: n.id },
            ),
            Statement::Continue(n) => CfgNodeDescriptor::Continue(
                CfgContinueStatement { continue_statement: n.id },
            ),
            Statement::Return(n) => CfgNodeDescriptor::Return(
                CfgReturnStatement { return_statement: n.id },
            ),
            Statement::EmitStatement(n) => CfgNodeDescriptor::EmitStatement(
                CfgEmitStatement { emit_statement: n.id },
            ),
            Statement::RevertStatement(n) => CfgNodeDescriptor::RevertStatement(
                CfgRevertStatement { revert_statement: n.id },
            ),
            Statement::InlineAssembly(n) => CfgNodeDescriptor::InlineAssembly(
                CfgInlineAssemblyStatement { inline_assembly_statement: n.id },
            ),
            Statement::TryStatement(_) => CfgNodeDescriptor::Start(CfgStartNode::Start),
        };
        self.add_node(nd)
    }

    /// Adds the node that stands for the body of a branch or of a loop.
    pub fn add_body_node(&mut self, body: &BlockOrStatement) -> (id: CfgNodeId)
        requires
            old(self).inv(),
            old(self).next() < usize::MAX,
            body matches BlockOrStatement::Statement(s) ==> !(**s is TryStatement),
        ensures
            node_added(*old(self), *final(self), body_descriptor(*body), id),
    {
        match body {
            BlockOrStatement::Block(block) => self.add_node(
                CfgNodeDescriptor::Block(CfgBlock { block: block.id }),
            ),
            BlockOrStatement::Statement(stmt) => self.add_statement_node(stmt),
        }
    }

    /// Adds the program point of an expression statement.
    pub fn add_expression_statement(&mut self, stmt: &ExpressionStatement) -> (id: CfgNodeId)
        requires
            old(self).inv(),
            old(self).next() < usize::MAX,
        ensures
            node_added(
                *old(self),
                *final(self),
                CfgNodeDescriptor::ExpressionStatement(
                    CfgExpressionStatement { expression_statement: stmt.id },
                ),
                id,
            ),
    {
        self.add_node(
            CfgNodeDescriptor::ExpressionStatement(
                CfgExpressionStatement { expression_statement: stmt.id },
            ),
        )
    }

    /// Adds the point at which the condition of an `if` is evaluated.
    pub fn add_if_statement_condition(&mut self, condition: &Expression) -> (id: CfgNodeId)
        requires
            old(self).inv(),
            old(self).next() < usize::MAX,
        ensures
            node_added(
                *old(self),
                *final(self),
                CfgNodeDescriptor::IfStatementCondition(
                    CfgIfStatementCondition { if_stmt_condition: Some(condition.node_id()) },
                ),
                id,
            ),
    {
        self.add_node(
            CfgNodeDescriptor::IfStatementCondition(
                CfgIfStatementCondition { if_stmt_condition: condition.get_node_id() },
            ),
        )
    }

    /// Adds the point at which the condition of a `while` is evaluated.
    pub fn add_while_statement_condition(&mut self, condition: &Expression) -> (id: CfgNodeId)
        requires
            old(self).inv(),
            old(self).next() < usize::MAX,
        ensures
            node_added(
                *old(self),
                *final(self),
                CfgNodeDescriptor::WhileStatementCondition(
                    CfgWhileStatementCondition { while_stmt_condition: Some(condition.node_id()) },
                ),
                id,
            ),
    {
        self.add_node(
            CfgNodeDescriptor::WhileStatementCondition(
                CfgWhileStatementCondition { while_stmt_condition: condition.get_node_id() },
            ),
        )
    }

    /// Adds the point at which the condition of a `for` is evaluated.
    pub fn add_for_statement_condition(&mut self, condition: &Expression) -> (id: CfgNodeId)
        requires
            old(self).inv(),
            old(self).next() < usize::MAX,
        ensures
            node_added(
                *old(self),
                *final(self),
                CfgNodeDescriptor::ForStatementCondition(
                    CfgForStatementCondition { for_stmt_condition: Some(condition.node_id()) },
                ),
                id,
            ),
    {
        self.add_node(
            CfgNodeDescriptor::ForStatementCondition(
                CfgForStatementCondition { for_stmt_condition: condition.get_node_id() },
            ),
        )
    }

    /// Adds the point at which the condition of a `do`-`while` is
    /// evaluated.
    pub fn add_do_while_statement_condition(&mut self, condition: &Expression) -> (id: CfgNodeId)
        requires
            old(self).inv(),
            old(self).next() < usize::MAX,
        ensures
            node_added(
                *old(self),
                *final(self),
                CfgNodeDescriptor::DoWhileStatementCondition(
                    CfgDoWhileStatementCondition { do_while_stmt_condition: Some(condition.node_id()) },
                ),
                id,
            ),
    {
        self.add_node(
            CfgNodeDescriptor::DoWhileStatementCondition(
                CfgDoWhileStatementCondition { do_while_stmt_condition: condition.get_node_id() },
            ),
        )
    }
}

} // verus!
