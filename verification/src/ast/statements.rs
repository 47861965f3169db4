use vstd::prelude::*;
use crate::ast::ast_nodes::{BlockOrStatement, Statement};
use crate::ast::node::NodeID;

verus! {

impl Statement {
    /// The identity under which the statement is known. An expression
    /// statement and an emit statement go by the identity of the expression
    /// they hold, a revert statement by that of its error call; a try
    /// statement has none.
    pub open spec fn node_id(self) -> Option<NodeID> {
        match self {
            Statement::VariableDeclarationStatement(s) => Some(s.id),
            Statement::IfStatement(s) => Some(s.id),
            Statement::ForStatement(s) => Some(s.id),
            Statement::WhileStatement(s) => Some(s.id),
            Statement::EmitStatement(s) => Some(s.event_call.node_id()),
            Statement::UncheckedBlock(s) => Some(s.id),
            Statement::Return(s) => Some(s.id),
            Statement::RevertStatement(s) => Some(s.error_call.id),
            Statement::ExpressionStatement(s) => Some(s.expression.node_id()),
            Statement::InlineAssembly(s) => Some(s.id),
            Statement::TryStatement(_) => None,
            Statement::Block(s) => Some(s.id),
            Statement::Break(s) => Some(s.id),
            Statement::Continue(s) => Some(s.id),
            Statement::DoWhileStatement(s) => Some(s.id),
            Statement::PlaceholderStatement(s) => Some(s.id),
        }
    }

    /// Every path through the statement ends in a `return`: it is a
    /// `return`, or an `if` whose branches all end so (a missing `else`
    /// counts as ending so).
    pub open spec fn returns_always(self) -> bool
        decreases self,
    {
        match self {
            Statement::Return(_) => true,
            Statement::IfStatement(s) => s.true_body.returns_always() && match s.false_body {
                Some(f) => f.returns_always(),
                None => true,
            },
            _ => false,
        }
    }

    /// The identity under which the statement is known.
    pub fn get_node_id(&self) -> (r: Option<NodeID>)
        ensures
            r == self.node_id(),
    {
        match self {
            Statement::VariableDeclarationStatement(variable_declaration_statement) => {
                Some(variable_declaration_statement.id)
            },
            Statement::IfStatement(if_statement) => Some(if_statement.id),
            Statement::ForStatement(for_statement) => Some(for_statement.id),
            Statement::WhileStatement(while_statement) => Some(while_statement.id),
            Statement::EmitStatement(emit_statement) => emit_statement.event_call.get_node_id(),
            Statement::UncheckedBlock(unchecked_statement) => Some(unchecked_statement.id),
            Statement::Return(return_statement) => Some(return_statement.id),
            Statement::RevertStatement(revert_statement) => Some(revert_statement.error_call.id),
            Statement::ExpressionStatement(expression_statement) => {
                expression_statement.expression.get_node_id()
            },
            Statement::InlineAssembly(inline_assembly) => Some(inline_assembly.id),
            Statement::TryStatement(_) => None,
            Statement::Block(block) => Some(block.id),
            Statement::Break(break_statement) => Some(break_statement.id),
            Statement::Continue(continue_statement) => Some(continue_statement.id),
            Statement::DoWhileStatement(do_while_statement) => Some(do_while_statement.id),
            Statement::PlaceholderStatement(placeholder) => Some(placeholder.id),
        }
    }

    /// Whether the statement is a `return`.
    pub fn is_return_statement(&self) -> (r: bool)
        ensures
            r == (self is Return),
    {
        matches!(self, Statement::Return(_))
    }

    /// Whether every path through the statement ends in a `return`.
    pub fn contains_returns(&self) -> (r: bool)
        ensures
            r == self.returns_always(),
        decreases self,
    {
        match self {
            Statement::Return(_) => true,
            Statement::IfStatement(if_statement) => {
                if !if_statement.true_body.contains_returns() {
                    return false;
                }
                match &if_statement.false_body {
                    Some(false_body) => false_body.contains_returns(),
                    None => true,
                }
            },
            _ => false,
        }
    }
}

impl BlockOrStatement {
    /// The identity of the block, or that under which the statement is
    /// known.
    pub open spec fn node_id(self) -> Option<NodeID> {
        match self {
            BlockOrStatement::Block(block) => Some(block.id),
            BlockOrStatement::Statement(statement) => statement.node_id(),
        }
    }

    /// Every path through the body ends in a `return`: for a block, its
    /// last statement decides; an empty block does not.
    pub open spec fn returns_always(self) -> bool
        decreases self,
    {
        match self {
            BlockOrStatement::Block(block) => block.statements@.len() > 0
                && block.statements@.last().returns_always(),
            BlockOrStatement::Statement(statement) => statement.returns_always(),
        }
    }

    /// The identity of the block, or that under which the statement is
    /// known.
    pub fn get_node_id(&self) -> (r: Option<NodeID>)
        ensures
            r == self.node_id(),
    {
        match self {
            BlockOrStatement::Block(block) => Some(block.id),
            BlockOrStatement::Statement(statement) => statement.get_node_id(),
        }
    }

    /// Whether every path through the body ends in a `return`.
    pub fn contains_returns(&self) -> (r: bool)
        ensures
            r == self.returns_always(),
        decreases self,
    {
        match self {
            BlockOrStatement::Block(block) => {
                let n = block.statements.len();
                if n == 0 {
                    false
                } else {
                    block.statements[n - 1].contains_returns()
                }
            },
            BlockOrStatement::Statement(statement) => statement.contains_returns(),
        }
    }
}

} // verus!
