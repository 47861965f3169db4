use vstd::prelude::*;
use crate::ast::ast_nodes::{
    Block, BlockOrStatement, DoWhileStatement, ForStatement, IfStatement, Statement,
    WhileStatement,
};
use crate::ast::node::NodeID;
use crate::context::flow::primitives::{
    CfgBreakStatement, CfgContinueStatement, CfgDoWhileStatementCondition, CfgEmitStatement,
    CfgExpressionStatement, CfgForStatementCondition, CfgIfStatementCondition,
    CfgInlineAssemblyStatement, CfgPlaceholderStatement, CfgReturnStatement, CfgRevertStatement,
    CfgVariableDeclarationStatement, CfgWhileStatementCondition,
};
use crate::context::flow::reducibles::{
    CfgBlock, CfgDoWhileStatement, CfgForStatement, CfgIfStatement, CfgUncheckedBlock,
    CfgWhileStatement,
};
use crate::context::flow::voids::{CfgEndNode, CfgStartNode};
use crate::context::flow::{graph_inv, Cfg, CfgNode, CfgNodeDescriptor, CfgNodeId};
use crate::context::workspace_context::{
    holds_body, holds_statement, AstNodeRef,
};

verus! {

/// The node that stands for a statement. A `try` statement has none; for it
/// the value is immaterial.
pub open spec fn stmt_descriptor(s: Statement) -> CfgNodeDescriptor {
    match s {
        Statement::Block(n) => CfgNodeDescriptor::Block(CfgBlock { block: n.id }),
        Statement::UncheckedBlock(n) => CfgNodeDescriptor::UncheckedBlock(
            CfgUncheckedBlock { unchecked_block: n.id },
        ),
        Statement::IfStatement(n) => CfgNodeDescriptor::IfStatement(
            CfgIfStatement { if_statement: n.id },
        ),
        Statement::WhileStatement(n) => CfgNodeDescriptor::WhileStatement(
            CfgWhileStatement { while_statement: n.id },
        ),
        Statement::ForStatement(n) => CfgNodeDescriptor::ForStatement(
            CfgForStatement { for_statement: n.id },
        ),
        Statement::DoWhileStatement(n) => CfgNodeDescriptor::DoWhileStatement(
            CfgDoWhileStatement { do_while_statement: n.id },
        ),
        Statement::VariableDeclarationStatement(n) => CfgNodeDescriptor::VariableDeclarationStatement(
            CfgVariableDeclarationStatement { variable_declaration_statement: n.id },
        ),
        Statement::ExpressionStatement(n) => CfgNodeDescriptor::ExpressionStatement(
            CfgExpressionStatement { expression_statement: n.id },
        ),
        Statement::PlaceholderStatement(n) => CfgNodeDescriptor::PlaceholderStatement(
            CfgPlaceholderStatement { placeholder_statement: n.id },
        ),
        Statement::Break(n) => CfgNodeDescriptor::Break(CfgBreakStatement { break_statement: n.id }),
        Statement::Continue(n) => CfgNodeDescriptor::Continue(
            CfgContinueStatement { continue_statement: n.id },
        ),
        Statement::Return(n) => CfgNodeDescriptor::Return(
            CfgReturnStatement { return_statement: n.id },
        ),
        Statement::EmitStatement(n) => CfgNodeDescriptor::EmitStatement(
            CfgEmitStatement { emit_statement: n.id },
        ),
        Statement::RevertStatement(n) => CfgNodeDescriptor::RevertStatement(
            CfgRevertStatement { revert_statement: n.id },
        ),
        Statement::InlineAssembly(n) => CfgNodeDescriptor::InlineAssembly(
            CfgInlineAssemblyStatement { inline_assembly_statement: n.id },
        ),
        Statement::TryStatement(n) => CfgNodeDescriptor::Start(CfgStartNode::Start),
    }
}

/// The node that stands for the body of a branch or of a loop.
pub open spec fn body_descriptor(b: BlockOrStatement) -> CfgNodeDescriptor {
    match b {
        BlockOrStatement::Block(block) => CfgNodeDescriptor::Block(CfgBlock { block: block.id }),
        BlockOrStatement::Statement(statement) => stmt_descriptor(*statement),
    }
}

/// The number of nodes that the expansion of a block makes in all, down to
/// the last nested construct.
pub open spec fn block_cost(b: Block) -> nat
    decreases b,
{
    2 + stmts_cost(b.statements@)
}

/// The number of nodes made for a list of statements, down to the last
/// nested construct.
pub open spec fn stmts_cost(ss: Seq<Statement>) -> nat
    decreases ss,
{
    if ss.len() == 0 {
        0
    } else {
        stmts_cost(ss.drop_last()) + 1 + nested_cost(ss.last())
    }
}

/// The number of nodes that the expansion of a statement's own node makes
/// in all: none for a statement that is a single program point.
pub open spec fn nested_cost(s: Statement) -> nat
    decreases s,
{
    match s {
        Statement::Block(n) => block_cost(n),
        Statement::UncheckedBlock(n) => block_cost(n),
        Statement::IfStatement(n) => if_cost(n),
        Statement::WhileStatement(n) => while_cost(n),
        Statement::ForStatement(n) => for_cost(n),
        Statement::DoWhileStatement(n) => do_while_cost(n),
        _ => 0,
    }
}

/// The number of nodes that the expansion of a body's own node makes in
/// all.
pub open spec fn body_cost(b: BlockOrStatement) -> nat
    decreases b,
{
    match b {
        BlockOrStatement::Block(block) => block_cost(*block),
        BlockOrStatement::Statement(statement) => nested_cost(*statement),
    }
}

/// The number of nodes that the expansion of an `if` makes in all.
pub open spec fn if_cost(s: IfStatement) -> nat
    decreases s,
{
    8 + body_cost(s.true_body) + match s.false_body {
        Some(f) => 3 + body_cost(f),
        None => 0,
    }
}

/// The number of nodes that the expansion of a `while` loop makes in all.
pub open spec fn while_cost(s: WhileStatement) -> nat
    decreases s,
{
    8 + body_cost(s.body)
}

/// The number of nodes that the expansion of a `do`-`while` loop makes in
/// all.
pub open spec fn do_while_cost(s: DoWhileStatement) -> nat
    decreases s,
{
    8 + block_cost(s.body)
}

/// The number of nodes that the expansion of a `for` loop makes in all.
pub open spec fn for_cost(s: ForStatement) -> nat
    decreases s,
{
    11 + body_cost(s.body) + (match s.initialization_expression {
        Some(i) => 1 + nested_cost(*i),
        None => 0,
    }) + (if s.condition is Some {
        1nat
    } else {
        0nat
    }) + (if s.loop_expression is Some {
        1nat
    } else {
        0nat
    })
}

/// The subgraph that takes the place of one reducible node. Node `i` of
/// the subgraph gets the identity `base + i`; the first node is the entry
/// of the subgraph, the second its exit.
pub struct Expansion {
    /// What each new node stands for.
    pub nds: Seq<CfgNodeDescriptor>,
    /// The successors of each new node, in the order in which the edges
    /// are made.
    pub edges: Seq<Seq<usize>>,
    /// Whether the entry is paired with the exit in the table of start and
    /// end sentinels.
    pub paired: bool,
    /// For a loop, the sentinel that opens its condition.
    pub cond: Option<usize>,
    /// Whether the condition sentinel leads back to the loop's entry in the
    /// table of conditions.
    pub cond_back: bool,
    /// For a `for` loop, the sentinel that opens its update expression.
    pub update: Option<usize>,
}

/// What is made when the syntax-tree node of a construct is not known: the
/// two sentinels, joined by one edge.
pub open spec fn fallback_expansion(start: CfgStartNode, end: CfgEndNode, base: usize) -> Expansion {
    Expansion {
        nds: Seq::new(2, |i: int| if i == 0 { CfgNodeDescriptor::Start(start) } else { CfgNodeDescriptor::End(end) }),
        edges: Seq::new(2, |i: int| if i == 0 { one(base + 1) } else { Seq::empty() }),
        paired: false,
        cond: None,
        cond_back: false,
        update: None,
    }
}

/// The expansion of a block: the two sentinels, and between them one node
/// for each statement, chained in source order.
pub open spec fn block_expansion(
    start: CfgStartNode,
    end: CfgEndNode,
    b: Block,
    base: usize,
) -> Expansion {
    let n = b.statements@.len();
    Expansion {
        nds: Seq::new(
            n + 2,
            |i: int|
                if i == 0 {
                    CfgNodeDescriptor::Start(start)
                } else if i == 1 {
                    CfgNodeDescriptor::End(end)
                } else {
                    stmt_descriptor(b.statements@[i - 2])
                },
        ),
        edges: Seq::new(
            n + 2,
            |i: int|
                if i == 0 {
                    if n == 0 {
                        one(base + 1)
                    } else {
                        one(base + 2)
                    }
                } else if i == 1 {
                    Seq::empty()
                } else if i < n + 1 {
                    one(base + i + 1)
                } else {
                    one(base + 1)
                },
        ),
        paired: true,
        cond: None,
        cond_back: false,
        update: None,
    }
}

/// The one-element list of successors.
pub open spec fn one(a: int) -> Seq<usize> {
    seq![a as usize]
}

/// The two-element list of successors.
pub open spec fn two(a: int, b: int) -> Seq<usize> {
    seq![a as usize, b as usize]
}

/// The expansion of an `if`: the condition, then the two branches side by
/// side, which meet at the exit. Without an `else` the condition leads to
/// the exit directly.
pub open spec fn if_expansion(s: IfStatement, base: usize) -> Expansion {
    let n: nat = if s.false_body is Some {
        11
    } else {
        8
    };
    Expansion {
        nds: Seq::new(
            n,
            |i: int|
                if i == 0 {
                    CfgNodeDescriptor::Start(CfgStartNode::StartIf(s.id))
                } else if i == 1 {
                    CfgNodeDescriptor::End(CfgEndNode::EndIf(s.id))
                } else if i == 2 {
                    CfgNodeDescriptor::Start(CfgStartNode::StartIfCond)
                } else if i == 3 {
                    CfgNodeDescriptor::End(CfgEndNode::EndIfCond)
                } else if i == 4 {
                    CfgNodeDescriptor::Start(CfgStartNode::StartIfTrue)
                } else if i == 5 {
                    CfgNodeDescriptor::End(CfgEndNode::EndIfTrue)
                } else if i == 6 {
                    CfgNodeDescriptor::IfStatementCondition(
                        CfgIfStatementCondition { if_stmt_condition: Some(s.condition.node_id()) },
                    )
                } else if i == 7 {
                    body_descriptor(s.true_body)
                } else if i == 8 {
                    CfgNodeDescriptor::Start(CfgStartNode::StartIfFalse)
                } else if i == 9 {
                    CfgNodeDescriptor::End(CfgEndNode::EndIfFalse)
                } else {
                    body_descriptor(s.false_body->Some_0)
                },
        ),
        edges: Seq::new(
            n,
            |i: int|
                if i == 0 {
                    one(base + 2)
                } else if i == 1 {
                    Seq::empty()
                } else if i == 2 {
                    one(base + 6)
                } else if i == 3 {
                    two(
                        base + 4,
                        if s.false_body is Some {
                            base + 8
                        } else {
                            base + 1
                        },
                    )
                } else if i == 4 {
                    one(base + 7)
                } else if i == 5 {
                    one(base + 1)
                } else if i == 6 {
                    one(base + 3)
                } else if i == 7 {
                    one(base + 5)
                } else if i == 8 {
                    one(base + 10)
                } else if i == 9 {
                    one(base + 1)
                } else {
                    one(base + 9)
                },
        ),
        paired: true,
        cond: None,
        cond_back: false,
        update: None,
    }
}

/// The expansion of a `while` loop: the condition, from which one edge
/// leads into the body and one to the exit; the end of the body leads back
/// to the condition.
pub open spec fn while_expansion(s: WhileStatement, base: usize) -> Expansion {
    Expansion {
        nds: Seq::new(
            8,
            |i: int|
                if i == 0 {
                    CfgNodeDescriptor::Start(CfgStartNode::StartWhile(s.id))
                } else if i == 1 {
                    CfgNodeDescriptor::End(CfgEndNode::EndWhile(s.id))
                } else if i == 2 {
                    CfgNodeDescriptor::Start(CfgStartNode::StartWhileCond)
                } else if i == 3 {
                    CfgNodeDescriptor::End(CfgEndNode::EndWhileCond)
                } else if i == 4 {
                    CfgNodeDescriptor::Start(CfgStartNode::StartWhileBody)
                } else if i == 5 {
                    CfgNodeDescriptor::End(CfgEndNode::EndWhileBody)
                } else if i == 6 {
                    CfgNodeDescriptor::WhileStatementCondition(
                        CfgWhileStatementCondition {
                            while_stmt_condition: Some(s.condition.node_id()),
                        },
                    )
                } else {
                    body_descriptor(s.body)
                },
        ),
        edges: Seq::new(
            8,
            |i: int|
                if i == 0 {
                    one(base + 2)
                } else if i == 1 {
                    Seq::empty()
                } else if i == 2 {
                    one(base + 6)
                } else if i == 3 {
                    two(base + 4, base + 1)
                } else if i == 4 {
                    one(base + 7)
                } else if i == 5 {
                    one(base + 2)
                } else if i == 6 {
                    one(base + 3)
                } else {
                    one(base + 5)
                },
        ),
        paired: true,
        cond: Some((base + 2) as usize),
        cond_back: true,
        update: None,
    }
}

/// The expansion of a `do`-`while` loop: the body comes first, then the
/// condition, from which one edge leads back into the body and one to the
/// exit.
pub open spec fn do_while_expansion(s: DoWhileStatement, base: usize) -> Expansion {
    Expansion {
        nds: Seq::new(
            8,
            |i: int|
                if i == 0 {
                    CfgNodeDescriptor::Start(CfgStartNode::StartDoWhile(s.id))
                } else if i == 1 {
                    CfgNodeDescriptor::End(CfgEndNode::EndDoWhile(s.id))
                } else if i == 2 {
                    CfgNodeDescriptor::Start(CfgStartNode::StartDoWhileBody)
                } else if i == 3 {
                    CfgNodeDescriptor::End(CfgEndNode::EndDoWhileBody)
                } else if i == 4 {
                    CfgNodeDescriptor::Start(CfgStartNode::StartDoWhileCond)
                } else if i == 5 {
                    CfgNodeDescriptor::End(CfgEndNode::EndDoWhileCond)
                } else if i == 6 {
                    CfgNodeDescriptor::Block(CfgBlock { block: s.body.id })
                } else {
                    CfgNodeDescriptor::DoWhileStatementCondition(
                        CfgDoWhileStatementCondition {
                            do_while_stmt_condition: Some(s.condition.node_id()),
                        },
                    )
                },
        ),
        edges: Seq::new(
            8,
            |i: int|
                if i == 0 {
                    one(base + 2)
                } else if i == 1 {
                    Seq::empty()
                } else if i == 2 {
                    one(base + 6)
                } else if i == 3 {
                    one(base + 4)
                } else if i == 4 {
                    one(base + 7)
                } else if i == 5 {
                    two(base + 2, base + 1)
                } else if i == 6 {
                    one(base + 3)
                } else {
                    one(base + 5)
                },
        ),
        paired: true,
        cond: Some((base + 4) as usize),
        cond_back: true,
        update: None,
    }
}

/// Where the condition of a `for` loop stands in its expansion: after the
/// initializer, if the loop has one.
pub open spec fn for_cond_offset(s: ForStatement) -> int {
    if s.initialization_expression is Some {
        12
    } else {
        11
    }
}

/// Where the update expression of a `for` loop stands in its expansion:
/// after the initializer and the condition, as far as the loop has them.
pub open spec fn for_update_offset(s: ForStatement) -> int {
    for_cond_offset(s) + if s.condition is Some {
        1int
    } else {
        0int
    }
}

/// The number of nodes in the expansion of a `for` loop.
pub open spec fn for_len(s: ForStatement) -> int {
    for_update_offset(s) + if s.loop_expression is Some {
        1int
    } else {
        0int
    }
}

/// The expansion of a `for` loop: initializer, condition, body, update
/// expression, each between its own pair of sentinels. The condition leads
/// into the body and to the exit; the end of the update expression leads
/// back to the condition. A part that the loop lacks leaves its two
/// sentinels joined directly.
pub open spec fn for_expansion(s: ForStatement, base: usize) -> Expansion {
    Expansion {
        nds: Seq::new(
            for_len(s) as nat,
            |i: int|
                if i == 0 {
                    CfgNodeDescriptor::Start(CfgStartNode::StartFor(s.id))
                } else if i == 1 {
                    CfgNodeDescriptor::End(CfgEndNode::EndFor(s.id))
                } else if i == 2 {
                    CfgNodeDescriptor::Start(CfgStartNode::StartForInitExp)
                } else if i == 3 {
                    CfgNodeDescriptor::End(CfgEndNode::EndForInitExp)
                } else if i == 4 {
                    CfgNodeDescriptor::Start(CfgStartNode::StartForCond)
                } else if i == 5 {
                    CfgNodeDescriptor::End(CfgEndNode::EndForCond)
                } else if i == 6 {
                    CfgNodeDescriptor::Start(CfgStartNode::StartForBody)
                } else if i == 7 {
                    CfgNodeDescriptor::End(CfgEndNode::EndForBody)
                } else if i == 8 {
                    CfgNodeDescriptor::Start(CfgStartNode::StartForLoopExp)
                } else if i == 9 {
                    CfgNodeDescriptor::End(CfgEndNode::EndForLoopExp)
                } else if i == 10 {
                    body_descriptor(s.body)
                } else if i == 11 && s.initialization_expression is Some {
                    stmt_descriptor(*s.initialization_expression->Some_0)
                } else if i == for_cond_offset(s) && s.condition is Some {
                    CfgNodeDescriptor::ForStatementCondition(
                        CfgForStatementCondition {
                            for_stmt_condition: Some(s.condition->Some_0.node_id()),
                        },
                    )
                } else {
                    CfgNodeDescriptor::ExpressionStatement(
                        CfgExpressionStatement {
                            expression_statement: s.loop_expression->Some_0.id,
                        },
                    )
                },
        ),
        edges: Seq::new(
            for_len(s) as nat,
            |i: int|
                if i == 0 {
                    one(base + 2)
                } else if i == 1 {
                    Seq::empty()
                } else if i == 2 {
                    one(
                        if s.initialization_expression is Some {
                            base + 11
                        } else {
                            base + 3
                        },
                    )
                } else if i == 3 {
                    one(base + 4)
                } else if i == 4 {
                    one(
                        if s.condition is Some {
                            base + for_cond_offset(s)
                        } else {
                            base + 5
                        },
                    )
                } else if i == 5 {
                    two(base + 6, base + 1)
                } else if i == 6 {
                    one(base + 10)
                } else if i == 7 {
                    one(base + 8)
                } else if i == 8 {
                    one(
                        if s.loop_expression is Some {
                            base + for_update_offset(s)
                        } else {
                            base + 9
                        },
                    )
                } else if i == 9 {
                    one(base + 4)
                } else if i == 10 {
                    one(base + 7)
                } else if i == 11 && s.initialization_expression is Some {
                    one(base + 3)
                } else if i == for_cond_offset(s) && s.condition is Some {
                    one(base + 5)
                } else {
                    one(base + 9)
                },
        ),
        paired: true,
        cond: Some((base + 4) as usize),
        cond_back: false,
        update: Some((base + 8) as usize),
    }
}

/// The subgraph that takes the place of a reducible node, given the
/// registry that resolves the identity of its construct. Where the registry
/// does not know the construct, only the two sentinels are made.
pub open spec fn expansion_of<'a>(
    m: Map<NodeID, AstNodeRef<'a>>,
    nd: CfgNodeDescriptor,
    base: usize,
) -> Expansion {
    match nd {
        CfgNodeDescriptor::Block(r) => if m.contains_key(r.block) && m[r.block] is Block {
            block_expansion(
                CfgStartNode::StartBlock(r.block),
                CfgEndNode::EndBlock(r.block),
                *m[r.block]->Block_0,
                base,
            )
        } else {
            fallback_expansion(
                CfgStartNode::StartBlock(r.block),
                CfgEndNode::EndBlock(r.block),
                base,
            )
        },
        CfgNodeDescriptor::UncheckedBlock(r) => if m.contains_key(r.unchecked_block)
            && m[r.unchecked_block] is UncheckedBlock {
            block_expansion(
                CfgStartNode::StartUncheckedBlock(r.unchecked_block),
                CfgEndNode::EndUncheckedBlock(r.unchecked_block),
                *m[r.unchecked_block]->UncheckedBlock_0,
                base,
            )
        } else {
            fallback_expansion(
                CfgStartNode::StartUncheckedBlock(r.unchecked_block),
                CfgEndNode::EndUncheckedBlock(r.unchecked_block),
                base,
            )
        },
        CfgNodeDescriptor::IfStatement(r) => if m.contains_key(r.if_statement)
            && m[r.if_statement] is IfStatement {
            if_expansion(*m[r.if_statement]->IfStatement_0, base)
        } else {
            fallback_expansion(
                CfgStartNode::StartIf(r.if_statement),
                CfgEndNode::EndIf(r.if_statement),
                base,
            )
        },
        CfgNodeDescriptor::WhileStatement(r) => if m.contains_key(r.while_statement)
            && m[r.while_statement] is WhileStatement {
            while_expansion(*m[r.while_statement]->WhileStatement_0, base)
        } else {
            fallback_expansion(
                CfgStartNode::StartWhile(r.while_statement),
                CfgEndNode::EndWhile(r.while_statement),
                base,
            )
        },
        CfgNodeDescriptor::ForStatement(r) => if m.contains_key(r.for_statement)
            && m[r.for_statement] is ForStatement {
            for_expansion(*m[r.for_statement]->ForStatement_0, base)
        } else {
            fallback_expansion(
                CfgStartNode::StartFor(r.for_statement),
                CfgEndNode::EndFor(r.for_statement),
                base,
            )
        },
        CfgNodeDescriptor::DoWhileStatement(r) => if m.contains_key(r.do_while_statement)
            && m[r.do_while_statement] is DoWhileStatement {
            do_while_expansion(*m[r.do_while_statement]->DoWhileStatement_0, base)
        } else {
            fallback_expansion(
                CfgStartNode::StartDoWhile(r.do_while_statement),
                CfgEndNode::EndDoWhile(r.do_while_statement),
                base,
            )
        },
        _ => Expansion {
            nds: Seq::empty(),
            edges: Seq::empty(),
            paired: false,
            cond: None,
            cond_back: false,
            update: None,
        },
    }
}

/// The number of nodes that are still to be made for a node: those of its
/// own expansion and of the expansions of whatever that brings up, to the
/// end. None for a sentinel or a single program point.
pub open spec fn pending<'a>(m: Map<NodeID, AstNodeRef<'a>>, nd: CfgNodeDescriptor) -> nat {
    match nd {
        CfgNodeDescriptor::Block(r) => if m.contains_key(r.block) && m[r.block] is Block {
            block_cost(*m[r.block]->Block_0)
        } else {
            2
        },
        CfgNodeDescriptor::UncheckedBlock(r) => if m.contains_key(r.unchecked_block)
            && m[r.unchecked_block] is UncheckedBlock {
            block_cost(*m[r.unchecked_block]->UncheckedBlock_0)
        } else {
            2
        },
        CfgNodeDescriptor::IfStatement(r) => if m.contains_key(r.if_statement)
            && m[r.if_statement] is IfStatement {
            if_cost(*m[r.if_statement]->IfStatement_0)
        } else {
            2
        },
        CfgNodeDescriptor::WhileStatement(r) => if m.contains_key(r.while_statement)
            && m[r.while_statement] is WhileStatement {
            while_cost(*m[r.while_statement]->WhileStatement_0)
        } else {
            2
        },
        CfgNodeDescriptor::ForStatement(r) => if m.contains_key(r.for_statement)
            && m[r.for_statement] is ForStatement {
            for_cost(*m[r.for_statement]->ForStatement_0)
        } else {
            2
        },
        CfgNodeDescriptor::DoWhileStatement(r) => if m.contains_key(r.do_while_statement)
            && m[r.do_while_statement] is DoWhileStatement {
            do_while_cost(*m[r.do_while_statement]->DoWhileStatement_0)
        } else {
            2
        },
        _ => 0,
    }
}

/// The number of nodes that are still to be made for the nodes of a queue.
pub open spec fn queue_pending<'a>(
    m: Map<NodeID, AstNodeRef<'a>>,
    nodes: Map<usize, CfgNode>,
    q: Seq<usize>,
) -> nat
    decreases q.len(),
{
    if q.len() == 0 {
        0
    } else {
        queue_pending(m, nodes, q.drop_last()) + pending(m, nodes[q.last()].nd)
    }
}

impl Cfg {
    /// The number of nodes that are still to be made before no reducible
    /// node is left.
    #[verifier::inline]
    pub open spec fn pending_total<'a>(&self, m: Map<NodeID, AstNodeRef<'a>>) -> nat {
        queue_pending(m, self.nodes@, self.reduction_queue@)
    }
}

/// For a statement that the registry knows, what is pending for its node is
/// what the statement's own expansion costs.
pub proof fn lemma_pending_statement<'a>(m: Map<NodeID, AstNodeRef<'a>>, s: &'a Statement)
    requires
        holds_statement(m, s),
    ensures
        pending(m, stmt_descriptor(*s)) == nested_cost(*s),
{
}

/// For a body that the registry knows, what is pending for its node is
/// what the body's own expansion costs.
pub proof fn lemma_pending_body<'a>(m: Map<NodeID, AstNodeRef<'a>>, b: &'a BlockOrStatement)
    requires
        holds_body(m, b),
    ensures
        pending(m, body_descriptor(*b)) == body_cost(*b),
{
}

/// What is pending for a queue does not depend on nodes outside it.
pub proof fn lemma_queue_pending_frame<'a>(
    m: Map<NodeID, AstNodeRef<'a>>,
    n0: Map<usize, CfgNode>,
    n1: Map<usize, CfgNode>,
    q: Seq<usize>,
)
    requires
        forall|i: int| 0 <= i < q.len() ==> n0[#[trigger] q[i]] == n1[q[i]],
    ensures
        queue_pending(m, n0, q) == queue_pending(m, n1, q),
    decreases q.len(),
{
    if q.len() > 0 {
        let front = q.drop_last();
        assert forall|i: int| 0 <= i < front.len() implies n0[#[trigger] front[i]] == n1[front[i]] by {
            assert(front[i] == q[i]);
        }
        lemma_queue_pending_frame(m, n0, n1, front);
        assert(q.last() == q[q.len() - 1]);
    }
}

/// What is pending for a queue is what is pending for its first node and
/// for the rest.
pub proof fn lemma_queue_pending_front<'a>(
    m: Map<NodeID, AstNodeRef<'a>>,
    nodes: Map<usize, CfgNode>,
    q: Seq<usize>,
)
    requires
        q.len() > 0,
    ensures
        queue_pending(m, nodes, q) == pending(m, nodes[q[0]].nd) + queue_pending(
            m,
            nodes,
            q.drop_first(),
        ),
    decreases q.len(),
{
    if q.len() == 1 {
        assert(q.drop_last() =~= Seq::<usize>::empty());
        assert(q.drop_first() =~= Seq::<usize>::empty());
        assert(queue_pending(m, nodes, q.drop_last()) == 0);
    } else {
        let front = q.drop_last();
        lemma_queue_pending_front(m, nodes, front);
        assert(front.drop_first() =~= q.drop_first().drop_last());
        assert(q.drop_first().last() == q.last());
        assert(front[0] == q[0]);
    }
}

/// What a new node adds to what is pending.
pub proof fn lemma_pending_after_add<'a>(
    m: Map<NodeID, AstNodeRef<'a>>,
    pre: Cfg,
    post: Cfg,
    nd: CfgNodeDescriptor,
)
    requires
        pre.inv(),
        post.nodes@ == pre.nodes@.insert(pre.next(), CfgNode { id: CfgNodeId(pre.next()), nd }),
        post.queue() == if nd.is_reducible() {
            pre.queue().push(pre.next())
        } else {
            pre.queue()
        },
    ensures
        post.pending_total(m) == pre.pending_total(m) + pending(m, nd),
{
    reveal(graph_inv);
    let q = pre.queue();
    assert forall|i: int| 0 <= i < q.len() implies pre.nodes@[#[trigger] q[i]] == post.nodes@[q[i]] by {
        assert(pre.live(q[i]));
    }
    lemma_queue_pending_frame(m, pre.nodes@, post.nodes@, q);
    if nd.is_reducible() {
        assert(post.queue().drop_last() =~= q);
    }
}

/// The second graph is the first with one more node, which stands for `nd`
/// and got the identity `id`.
pub open spec fn node_added(pre: Cfg, post: Cfg, nd: CfgNodeDescriptor, id: CfgNodeId) -> bool {
    &&& id.0 == pre.next()
    &&& post.next() == pre.next() + 1
    &&& post.nodes@ == pre.nodes@.insert(id.0, CfgNode { id, nd })
    &&& post.nodes@.len() == pre.nodes@.len() + 1
    &&& !pre.live(id.0)
    &&& post.adj_list == pre.adj_list
    &&& post.succ(id.0) == Seq::<usize>::empty()
    &&& post.queue() == if nd.is_reducible() {
        pre.queue().push(id.0)
    } else {
        pre.queue()
    }
    &&& post.same_tables(&pre)
    &&& post.inv()
    &&& pre.wf() ==> post.wf()
    &&& forall|m: Map<NodeID, AstNodeRef>| #[trigger]
        post.pending_total(m) == pre.pending_total(m) + pending(m, nd)
}

/// The second graph is the first with the subgraph `x` added: the nodes of
/// the subgraph stand under the next free identities, with their edges and
/// table entries, and nothing else changed. `total` is what was pending for
/// the node that the subgraph replaces.
pub open spec fn expanded_as<'a>(
    m: Map<NodeID, AstNodeRef<'a>>,
    x: Expansion,
    total: nat,
    pre: Cfg,
    post: Cfg,
) -> bool {
    let base = pre.next();
    let n = x.nds.len();
    &&& post.wf()
    &&& post.next() == base + n
    &&& post.nodes@.len() == pre.nodes@.len() + n
    &&& x.edges.len() == n
    &&& n >= 2
    &&& forall|k: usize| #[trigger] pre.live(k) ==> post.live(k) && post.nodes@[k] == pre.nodes@[k]
    &&& forall|k: usize| #[trigger] post.live(k) ==> pre.live(k) || base <= k < base + n
    &&& forall|i: int|
        0 <= i < n ==> post.live((base + i) as usize) && #[trigger] post.nodes@[(base + i) as usize]
            == (CfgNode { id: CfgNodeId((base + i) as usize), nd: x.nds[i] })
    &&& forall|k: usize| k < base ==> #[trigger] post.succ(k) == pre.succ(k)
    &&& forall|i: int| 0 <= i < n ==> #[trigger] post.succ((base + i) as usize) == x.edges[i]
    &&& post.start_end_pairs@ == if x.paired {
        pre.start_end_pairs@.insert(base, (base + 1) as usize)
    } else {
        pre.start_end_pairs@
    }
    &&& post.start_cond_pairs@ == match x.cond {
        Some(c) => pre.start_cond_pairs@.insert(base, c),
        None => pre.start_cond_pairs@,
    }
    &&& post.cond_start_pairs@ == if x.cond_back && x.cond is Some {
        pre.cond_start_pairs@.insert(x.cond->Some_0, base)
    } else {
        pre.cond_start_pairs@
    }
    &&& post.start_loop_expr@ == match x.update {
        Some(u) => pre.start_loop_expr@.insert(base, u),
        None => pre.start_loop_expr@,
    }
    &&& post.loop_expr_start@ == match x.update {
        Some(u) => pre.loop_expr_start@.insert(u, base),
        None => pre.loop_expr_start@,
    }
    &&& pre.queue().is_prefix_of(post.queue())
    &&& post.pending_total(m) + n == pre.pending_total(m) + total
}

/// The second graph is the first after a node without edges was replaced
/// by its expansion: the nodes of the expansion were added under the next
/// free identities, with their edges and table entries, and nothing else
/// changed.
pub open spec fn expanded<'a>(
    m: Map<NodeID, AstNodeRef<'a>>,
    nd: CfgNodeDescriptor,
    pre: Cfg,
    post: Cfg,
) -> bool {
    expanded_as(m, expansion_of(m, nd, pre.next()), pending(m, nd), pre, post)
}

/// A list of statements costs at least one node for each statement.
pub proof fn lemma_stmts_cost_len(ss: Seq<Statement>)
    ensures
        stmts_cost(ss) >= ss.len(),
    decreases ss.len(),
{
    if ss.len() > 0 {
        lemma_stmts_cost_len(ss.drop_last());
    }
}

/// What is pending for a reducible node covers its own expansion, which
/// has at least an entry and an exit.
pub proof fn lemma_expansion_len<'a>(m: Map<NodeID, AstNodeRef<'a>>, nd: CfgNodeDescriptor, base: usize)
    requires
        nd.is_reducible(),
    ensures
        2 <= expansion_of(m, nd, base).nds.len() <= pending(m, nd),
        expansion_of(m, nd, base).nds.len() == expansion_of(m, nd, 0).nds.len(),
{
    match nd {
        CfgNodeDescriptor::Block(r) => {
            if m.contains_key(r.block) && m[r.block] is Block {
                lemma_stmts_cost_len(m[r.block]->Block_0.statements@);
            }
        },
        CfgNodeDescriptor::UncheckedBlock(r) => {
            if m.contains_key(r.unchecked_block) && m[r.unchecked_block] is UncheckedBlock {
                lemma_stmts_cost_len(m[r.unchecked_block]->UncheckedBlock_0.statements@);
            }
        },
        _ => {},
    }
}

/// No edge leaves the exit of an expansion: what follows the construct is
/// joined to it afterwards.
pub proof fn lemma_exit_is_open<'a>(
    m: Map<NodeID, AstNodeRef<'a>>,
    nd: CfgNodeDescriptor,
    base: usize,
)
    requires
        nd.is_reducible(),
    ensures
        expansion_of(m, nd, base).edges.len() >= 2,
        expansion_of(m, nd, base).edges[1] == Seq::<usize>::empty(),
{
}

} // verus!
