use vstd::prelude::*;
use crate::ast::ast_nodes::Block;
use crate::ast::node::NodeID;
use crate::context::flow::expansion::{
    block_cost, block_expansion, do_while_expansion, expanded, expanded_as,
    expansion_of, fallback_expansion, for_cond_offset, for_expansion, for_len,
    for_update_offset, if_expansion,
    lemma_pending_body, lemma_pending_statement, node_added, stmt_descriptor, stmts_cost, while_expansion,
};
use crate::context::flow::voids::{CfgEndNode, CfgStartNode};
use crate::context::flow::{Cfg, CfgNode, CfgNodeDescriptor, CfgNodeId};
use crate::context::workspace_context::{closed, holds_statement, AstNodeRef, WorkspaceContext};

verus! {

/// A block that is still to be expanded.
#[derive(Clone, Copy, Debug, PartialEq, Eq, Hash, Structural)]
pub struct CfgBlock {
    pub block: NodeID,
}

/// An unchecked block that is still to be expanded.
#[derive(Clone, Copy, Debug, PartialEq, Eq, Hash, Structural)]
pub struct CfgUncheckedBlock {
    pub unchecked_block: NodeID,
}

/// An `if` statement that is still to be expanded.
#[derive(Clone, Copy, Debug, PartialEq, Eq, Hash, Structural)]
pub struct CfgIfStatement {
    pub if_statement: NodeID,
}

/// A `while` loop that is still to be expanded.
#[derive(Clone, Copy, Debug, PartialEq, Eq, Hash, Structural)]
pub struct CfgWhileStatement {
    pub while_statement: NodeID,
}

/// A `for` loop that is still to be expanded.
#[derive(Clone, Copy, Debug, PartialEq, Eq, Hash, Structural)]
pub struct CfgForStatement {
    pub for_statement: NodeID,
}

/// A `do`-`while` loop that is still to be expanded.
#[derive(Clone, Copy, Debug, PartialEq, Eq, Hash, Structural)]
pub struct CfgDoWhileStatement {
    pub do_while_statement: NodeID,
}

/// A construct that can be replaced in the graph by the subgraph of its
/// internal control flow.
pub trait CfgReduce {
    /// The descriptor under which the construct stands in the graph.
    spec fn as_descriptor(&self) -> CfgNodeDescriptor;

    /// Adds the expansion of the construct to the graph and returns the
    /// entry and the exit of the new subgraph.
    ///
    /// The nodes of the expansion get the next free identities, the entry
    /// first and the exit second. Where the registry does not know the
    /// construct, the entry and the exit are all that is made, joined by
    /// one edge.
    fn reduce(&self, context: &WorkspaceContext, cfg: &mut Cfg) -> (r: (CfgNodeId, CfgNodeId))
        requires
            context.wf(),
            old(cfg).wf(),
            old(cfg).next() + expansion_of(
                context.nodes@,
                self.as_descriptor(),
                old(cfg).next(),
            ).nds.len() <= usize::MAX,
        ensures
            expanded(context.nodes@, self.as_descriptor(), *old(cfg), *final(cfg)),
            r.0.0 == old(cfg).next(),
            r.1.0 == old(cfg).next() + 1,
    ;
}

/// Adds the two sentinels of a construct whose syntax-tree node is not
/// known, joined by one edge.
pub fn reduce_unknown(cfg: &mut Cfg, context: &WorkspaceContext, start: CfgStartNode, end: CfgEndNode) -> (r: (
    CfgNodeId,
    CfgNodeId,
))
    requires
        old(cfg).wf(),
        old(cfg).next() + 2 <= usize::MAX,
    ensures
        expanded_as(
            context.nodes@,
            fallback_expansion(start, end, old(cfg).next()),
            2,
            *old(cfg),
            *final(cfg),
        ),
        r.0.0 == old(cfg).next(),
        r.1.0 == old(cfg).next() + 1,
{
    let ghost m = context.nodes@;
    let ghost pre = *cfg;
    let start_id = cfg.add_start(start);
    let ghost mid = *cfg;
    let end_id = cfg.add_end(end);
    let ghost mid2 = *cfg;
    cfg.add_flow_edge(start_id, end_id);
    proof {
        let base = pre.next();
        let x = fallback_expansion(start, end, base);
        assert(mid.succ(base) == Seq::<usize>::empty());
        assert(cfg.succ(base) =~= x.edges[0]);
        assert(cfg.succ((base + 1) as usize) =~= x.edges[1]);
        assert forall|k: usize| k < base implies #[trigger] cfg.succ(k) == pre.succ(k) by {
            assert(mid.succ(k) == pre.succ(k));
            assert(mid2.succ(k) == mid.succ(k));
        }
        assert forall|i: int| 0 <= i < 2 implies #[trigger] cfg.succ((base + i) as usize) == x.edges[i] by {}
        assert(pre.queue().is_prefix_of(cfg.queue()));
    }
    (start_id, end_id)
}

/// Adds the expansion of a block between the given pair of sentinels: one
/// node for each statement, chained in source order.
pub fn reduce_statements(
    cfg: &mut Cfg,
    context: &WorkspaceContext,
    block: &Block,
    start: CfgStartNode,
    end: CfgEndNode,
) -> (r: (CfgNodeId, CfgNodeId))
    requires
        old(cfg).wf(),
        forall|i: int|
            0 <= i < block.statements@.len() ==> holds_statement(
                context.nodes@,
                #[trigger] &block.statements@[i],
            ),
        old(cfg).next() + block.statements@.len() + 2 <= usize::MAX,
    ensures
        expanded_as(
            context.nodes@,
            block_expansion(start, end, *block, old(cfg).next()),
            block_cost(*block),
            *old(cfg),
            *final(cfg),
        ),
        r.0.0 == old(cfg).next(),
        r.1.0 == old(cfg).next() + 1,
{
    let ghost m = context.nodes@;
    let ghost pre = *cfg;
    let ghost base = pre.next();
    let ghost x = block_expansion(start, end, *block, base);
    let start_id = cfg.add_start(start);
    let ghost mid = *cfg;
    let end_id = cfg.add_end(end);
    proof {
        assert(mid.succ(base) == Seq::<usize>::empty());
        assert forall|k: usize| k < base implies #[trigger] cfg.succ(k) == pre.succ(k) by {
            assert(mid.succ(k) == pre.succ(k));
        }
        assert(block.statements@.take(0) =~= Seq::empty());
        assert(pre.queue().is_prefix_of(cfg.queue()));
    }

    let mut last_link = start_id;
    let n = block.statements.len();
    let mut i: usize = 0;
    while i < n
        invariant
            i <= n,
            n == block.statements@.len(),
            base == pre.next(),
            base + n + 2 <= usize::MAX,
            m == context.nodes@,
            start_id.0 == base,
            end_id.0 == base + 1,
            forall|j: int| 0 <= j < n ==> holds_statement(m, #[trigger] &block.statements@[j]),
            cfg.wf(),
            cfg.next() == base + 2 + i,
            cfg.nodes@.len() == pre.nodes@.len() + 2 + i,
            forall|k: usize| #[trigger] pre.live(k) ==> cfg.live(k) && cfg.nodes@[k] == pre.nodes@[k],
            forall|k: usize| #[trigger] cfg.live(k) ==> pre.live(k) || base <= k < base + 2 + i,
            cfg.live(base) && cfg.nodes@[base] == (CfgNode {
                id: CfgNodeId(base),
                nd: CfgNodeDescriptor::Start(start),
            }),
            cfg.live((base + 1) as usize) && cfg.nodes@[(base + 1) as usize] == (CfgNode {
                id: CfgNodeId((base + 1) as usize),
                nd: CfgNodeDescriptor::End(end),
            }),
            forall|j: int|
                0 <= j < i ==> cfg.live((base + 2 + j) as usize) && #[trigger] cfg.nodes@[(base + 2
                    + j) as usize] == (CfgNode {
                    id: CfgNodeId((base + 2 + j) as usize),
                    nd: stmt_descriptor(block.statements@[j]),
                }),
            forall|k: usize| k < base ==> #[trigger] cfg.succ(k) == pre.succ(k),
            cfg.succ(base) == if i == 0 {
                Seq::<usize>::empty()
            } else {
                seq![(base + 2) as usize]
            },
            cfg.succ((base + 1) as usize) == Seq::<usize>::empty(),
            forall|j: int|
                0 <= j < i - 1 ==> #[trigger] cfg.succ((base + 2 + j) as usize) == seq![(base + 3
                    + j) as usize],
            i > 0 ==> cfg.succ((base + 1 + i) as usize) == Seq::<usize>::empty(),
            last_link.0 == if i == 0 {
                base
            } else {
                (base + 1 + i) as usize
            },
            cfg.live(last_link.0),
            cfg.same_tables(&pre),
            pre.queue().is_prefix_of(cfg.queue()),
            cfg.pending_total(m) + i == pre.pending_total(m) + stmts_cost(
                block.statements@.take(i as int),
            ),
        decreases n - i,
    {
        let ghost before = *cfg;
        let statement = &block.statements[i];
        assert(holds_statement(m, &block.statements@[i as int]));
        let node_id = cfg.add_statement_node(statement);
        let ghost added = *cfg;
        proof {
            lemma_pending_statement(m, statement);
            assert(block.statements@.take(i + 1).drop_last() =~= block.statements@.take(i as int));
            assert(block.statements@.take(i + 1).last() == *statement);
        }
        cfg.add_flow_edge(last_link, node_id);
        proof {
            assert(before.live(last_link.0));
            assert(added.live(last_link.0) && added.live(node_id.0));
            assert forall|k: usize| k < base implies #[trigger] cfg.succ(k) == pre.succ(k) by {
                assert(before.succ(k) == pre.succ(k));
                assert(added.succ(k) == before.succ(k));
            }
            assert forall|j: int| 0 <= j < i + 1 implies cfg.live((base + 2 + j) as usize)
                && #[trigger] cfg.nodes@[(base + 2 + j) as usize] == (CfgNode {
                id: CfgNodeId((base + 2 + j) as usize),
                nd: stmt_descriptor(block.statements@[j]),
            }) by {
                if j < i {
                    assert(before.nodes@[(base + 2 + j) as usize] == (CfgNode {
                        id: CfgNodeId((base + 2 + j) as usize),
                        nd: stmt_descriptor(block.statements@[j]),
                    }));
                }
            }
            if i == 0 {
                assert(cfg.succ(base) =~= seq![(base + 2) as usize]);
            } else {
                assert(cfg.succ((base + 1 + i) as usize) =~= seq![(base + 2 + i) as usize]);
                assert(cfg.succ(base) == before.succ(base));
            }
            assert forall|j: int| 0 <= j < i implies #[trigger] cfg.succ((base + 2 + j) as usize)
                == seq![(base + 3 + j) as usize] by {
                if j < i - 1 {
                    assert(before.succ((base + 2 + j) as usize) == seq![(base + 3 + j) as usize]);
                    assert(added.succ((base + 2 + j) as usize) == before.succ((base + 2 + j) as usize));
                }
            }
            assert(cfg.succ((base + 2 + i) as usize) == Seq::<usize>::empty());
            assert(cfg.succ((base + 1) as usize) == Seq::<usize>::empty());
            assert(pre.queue().is_prefix_of(cfg.queue()));
        }
        last_link = node_id;
        i += 1;
    }

    let ghost looped = *cfg;
    cfg.add_flow_edge(last_link, end_id);
    let ghost linked = *cfg;
    cfg.start_end_pairs.insert(start_id.0, end_id.0);
    proof {
        assert(block.statements@.take(n as int) =~= block.statements@);
        assert(cfg.nodes == linked.nodes);
        assert(cfg.adj_list == linked.adj_list);
        assert forall|k: usize| #[trigger] cfg.succ(k) == linked.succ(k) by {}
        assert(cfg.wf());
        assert forall|j: int| 0 <= j < n + 2 implies cfg.live((base + j) as usize)
            && #[trigger] cfg.nodes@[(base + j) as usize] == (CfgNode {
            id: CfgNodeId((base + j) as usize),
            nd: x.nds[j],
        }) by {
            if j >= 2 {
                assert(looped.nodes@[(base + 2 + (j - 2)) as usize] == (CfgNode {
                    id: CfgNodeId((base + 2 + (j - 2)) as usize),
                    nd: stmt_descriptor(block.statements@[j - 2]),
                }));
            }
        }
        assert forall|j: int| 0 <= j < n + 2 implies #[trigger] cfg.succ((base + j) as usize)
            == x.edges[j] by {
            if j == 0 {
                if n == 0 {
                    assert(cfg.succ(base) =~= x.edges[0]);
                } else {
                    assert(cfg.succ(base) =~= x.edges[0]);
                }
            } else if j == 1 {
                assert(cfg.succ((base + 1) as usize) =~= x.edges[1]);
            } else if j < n + 1 {
                assert(looped.succ((base + 2 + (j - 2)) as usize) == seq![(base + 3 + (j - 2)) as usize]);
                assert(cfg.succ((base + j) as usize) =~= x.edges[j]);
            } else {
                assert(cfg.succ((base + j) as usize) =~= x.edges[j]);
            }
        }
        assert forall|k: usize| k < base implies #[trigger] cfg.succ(k) == pre.succ(k) by {
            assert(looped.succ(k) == pre.succ(k));
            assert(linked.succ(k) == looped.succ(k));
        }
        assert(cfg.start_end_pairs@ == pre.start_end_pairs@.insert(base, (base + 1) as usize));
    }
    (start_id, end_id)
}

impl CfgReduce for CfgBlock {
    open spec fn as_descriptor(&self) -> CfgNodeDescriptor {
        CfgNodeDescriptor::Block(*self)
    }

    fn reduce(&self, context: &WorkspaceContext, cfg: &mut Cfg) -> (r: (CfgNodeId, CfgNodeId)) {
        match context.get(self.block) {
            Some(AstNodeRef::Block(block)) => {
                assert(closed(context.nodes@, context.nodes@[self.block]));
                reduce_statements(
                    cfg,
                    context,
                    block,
                    CfgStartNode::StartBlock(self.block),
                    CfgEndNode::EndBlock(self.block),
                )
            },
            _ => reduce_unknown(
                cfg,
                context,
                CfgStartNode::StartBlock(self.block),
                CfgEndNode::EndBlock(self.block),
            ),
        }
    }
}

impl CfgReduce for CfgUncheckedBlock {
    open spec fn as_descriptor(&self) -> CfgNodeDescriptor {
        CfgNodeDescriptor::UncheckedBlock(*self)
    }

    fn reduce(&self, context: &WorkspaceContext, cfg: &mut Cfg) -> (r: (CfgNodeId, CfgNodeId)) {
        match context.get(self.unchecked_block) {
            Some(AstNodeRef::UncheckedBlock(block)) => {
                assert(closed(context.nodes@, context.nodes@[self.unchecked_block]));
                reduce_statements(
                    cfg,
                    context,
                    block,
                    CfgStartNode::StartUncheckedBlock(self.unchecked_block),
                    CfgEndNode::EndUncheckedBlock(self.unchecked_block),
                )
            },
            _ => reduce_unknown(
                cfg,
                context,
                CfgStartNode::StartUncheckedBlock(self.unchecked_block),
                CfgEndNode::EndUncheckedBlock(self.unchecked_block),
            ),
        }
    }
}

impl CfgReduce for CfgWhileStatement {
    open spec fn as_descriptor(&self) -> CfgNodeDescriptor {
        CfgNodeDescriptor::WhileStatement(*self)
    }

    fn reduce(&self, context: &WorkspaceContext, cfg: &mut Cfg) -> (r: (CfgNodeId, CfgNodeId)) {
        let ghost m = context.nodes@;
        let ghost pre = *cfg;
        let ghost base = pre.next();
        let while_ast_node = match context.get(self.while_statement) {
            Some(AstNodeRef::WhileStatement(node)) => node,
            _ => {
                return reduce_unknown(
                    cfg,
                    context,
                    CfgStartNode::StartWhile(self.while_statement),
                    CfgEndNode::EndWhile(self.while_statement),
                );
            },
        };
        let ghost x = while_expansion(*while_ast_node, base);
        proof {
            assert(closed(m, m[self.while_statement]));
            lemma_pending_body(m, &while_ast_node.body);
        }
        let start_id = cfg.add_start(CfgStartNode::StartWhile(self.while_statement));
        let end_id = cfg.add_end(CfgEndNode::EndWhile(self.while_statement));

        // Condition node
        let start_cond = cfg.add_start(CfgStartNode::StartWhileCond);
        let end_cond = cfg.add_end(CfgEndNode::EndWhileCond);

        // Loop body
        let start_body = cfg.add_start(CfgStartNode::StartWhileBody);
        let end_body = cfg.add_end(CfgEndNode::EndWhileBody);
        let condition = cfg.add_while_statement_condition(&while_ast_node.condition);
        let body = cfg.add_body_node(&while_ast_node.body);
        let ghost grown = *cfg;
        proof {
            assert(forall|k: usize| #[trigger] grown.succ(k) == pre.succ(k));
        }

        cfg.add_flow_edge(start_id, start_cond);
        cfg.add_flow_edge(start_cond, condition);
        cfg.add_flow_edge(condition, end_cond);
        cfg.add_flow_edge(end_cond, start_body);
        cfg.add_flow_edge(start_body, body);
        cfg.add_flow_edge(body, end_body);

        // Back to the condition once the body is done
        cfg.add_flow_edge(end_body, start_cond);

        // Out of the loop once the condition fails
        cfg.add_flow_edge(end_cond, end_id);

        cfg.start_end_pairs.insert(start_id.0, end_id.0);
        cfg.start_cond_pairs.insert(start_id.0, start_cond.0);
        cfg.cond_start_pairs.insert(start_cond.0, start_id.0);
        proof {
            assert(cfg.succ(base) =~= x.edges[0]);
            assert(cfg.succ((base + 1) as usize) =~= x.edges[1]);
            assert(cfg.succ((base + 2) as usize) =~= x.edges[2]);
            assert(cfg.succ((base + 3) as usize) =~= x.edges[3]);
            assert(cfg.succ((base + 4) as usize) =~= x.edges[4]);
            assert(cfg.succ((base + 5) as usize) =~= x.edges[5]);
            assert(cfg.succ((base + 6) as usize) =~= x.edges[6]);
            assert(cfg.succ((base + 7) as usize) =~= x.edges[7]);
            assert(pre.queue().is_prefix_of(cfg.queue()));
        }
        (start_id, end_id)
    }
}

impl CfgReduce for CfgDoWhileStatement {
    open spec fn as_descriptor(&self) -> CfgNodeDescriptor {
        CfgNodeDescriptor::DoWhileStatement(*self)
    }

    fn reduce(&self, context: &WorkspaceContext, cfg: &mut Cfg) -> (r: (CfgNodeId, CfgNodeId)) {
        let ghost m = context.nodes@;
        let ghost pre = *cfg;
        let ghost base = pre.next();
        let do_while_ast_node = match context.get(self.do_while_statement) {
            Some(AstNodeRef::DoWhileStatement(node)) => node,
            _ => {
                return reduce_unknown(
                    cfg,
                    context,
                    CfgStartNode::StartDoWhile(self.do_while_statement),
                    CfgEndNode::EndDoWhile(self.do_while_statement),
                );
            },
        };
        let ghost x = do_while_expansion(*do_while_ast_node, base);
        proof {
            assert(closed(m, m[self.do_while_statement]));
        }
        let start_id = cfg.add_start(CfgStartNode::StartDoWhile(self.do_while_statement));
        let end_id = cfg.add_end(CfgEndNode::EndDoWhile(self.do_while_statement));

        // Loop body
        let start_body = cfg.add_start(CfgStartNode::StartDoWhileBody);
        let end_body = cfg.add_end(CfgEndNode::EndDoWhileBody);

        // Condition node
        let start_cond = cfg.add_start(CfgStartNode::StartDoWhileCond);
        let end_cond = cfg.add_end(CfgEndNode::EndDoWhileCond);
        let body = cfg.add_block_node(&do_while_ast_node.body);
        let condition = cfg.add_do_while_statement_condition(&do_while_ast_node.condition);
        let ghost grown = *cfg;
        proof {
            assert(forall|k: usize| #[trigger] grown.succ(k) == pre.succ(k));
        }

        // The body runs before the condition is looked at
        cfg.add_flow_edge(start_id, start_body);
        cfg.add_flow_edge(start_body, body);
        cfg.add_flow_edge(body, end_body);
        cfg.add_flow_edge(end_body, start_cond);
        cfg.add_flow_edge(start_cond, condition);
        cfg.add_flow_edge(condition, end_cond);

        // Back into the body while the condition holds
        cfg.add_flow_edge(end_cond, start_body);

        // Out of the loop once the condition fails
        cfg.add_flow_edge(end_cond, end_id);

        cfg.start_end_pairs.insert(start_id.0, end_id.0);
        cfg.start_cond_pairs.insert(start_id.0, start_cond.0);
        cfg.cond_start_pairs.insert(start_cond.0, start_id.0);
        proof {
            assert(cfg.succ(base) =~= x.edges[0]);
            assert(cfg.succ((base + 1) as usize) =~= x.edges[1]);
            assert(cfg.succ((base + 2) as usize) =~= x.edges[2]);
            assert(cfg.succ((base + 3) as usize) =~= x.edges[3]);
            assert(cfg.succ((base + 4) as usize) =~= x.edges[4]);
            assert(cfg.succ((base + 5) as usize) =~= x.edges[5]);
            assert(cfg.succ((base + 6) as usize) =~= x.edges[6]);
            assert(cfg.succ((base + 7) as usize) =~= x.edges[7]);
            assert(pre.queue().is_prefix_of(cfg.queue()));
        }
        (start_id, end_id)
    }
}

impl CfgReduce for CfgIfStatement {
    open spec fn as_descriptor(&self) -> CfgNodeDescriptor {
        CfgNodeDescriptor::IfStatement(*self)
    }

    fn reduce(&self, context: &WorkspaceContext, cfg: &mut Cfg) -> (r: (CfgNodeId, CfgNodeId)) {
        let ghost m = context.nodes@;
        let ghost pre = *cfg;
        let ghost base = pre.next();
        let if_ast_node = match context.get(self.if_statement) {
            Some(AstNodeRef::IfStatement(node)) => node,
            _ => {
                return reduce_unknown(
                    cfg,
                    context,
                    CfgStartNode::StartIf(self.if_statement),
                    CfgEndNode::EndIf(self.if_statement),
                );
            },
        };
        let ghost x = if_expansion(*if_ast_node, base);
        proof {
            assert(closed(m, m[self.if_statement]));
            lemma_pending_body(m, &if_ast_node.true_body);
        }
        let start_id = cfg.add_start(CfgStartNode::StartIf(self.if_statement));
        let end_id = cfg.add_end(CfgEndNode::EndIf(self.if_statement));

        // Condition node
        let start_cond = cfg.add_start(CfgStartNode::StartIfCond);
        let end_cond = cfg.add_end(CfgEndNode::EndIfCond);

        // True branch
        let start_true_branch = cfg.add_start(CfgStartNode::StartIfTrue);
        let end_true_branch = cfg.add_end(CfgEndNode::EndIfTrue);
        let condition = cfg.add_if_statement_condition(&if_ast_node.condition);
        let true_block = cfg.add_body_node(&if_ast_node.true_body);
        let ghost grown = *cfg;
        proof {
            assert(forall|k: usize| #[trigger] grown.succ(k) == pre.succ(k));
        }

        cfg.add_flow_edge(start_id, start_cond);
        cfg.add_flow_edge(start_cond, condition);
        cfg.add_flow_edge(condition, end_cond);
        cfg.add_flow_edge(end_cond, start_true_branch);
        cfg.add_flow_edge(start_true_branch, true_block);
        cfg.add_flow_edge(true_block, end_true_branch);
        cfg.add_flow_edge(end_true_branch, end_id);
        let ghost half = *cfg;

        // False branch
        match &if_ast_node.false_body {
            Some(false_body) => {
                proof {
                    lemma_pending_body(m, false_body);
                }
                let start_false_branch = cfg.add_start(CfgStartNode::StartIfFalse);
                let end_false_branch = cfg.add_end(CfgEndNode::EndIfFalse);
                let false_block = cfg.add_body_node(false_body);
                let ghost grown2 = *cfg;
                proof {
                    assert(forall|k: usize| #[trigger] grown2.succ(k) == half.succ(k));
                }
                cfg.add_flow_edge(end_cond, start_false_branch);
                cfg.add_flow_edge(start_false_branch, false_block);
                cfg.add_flow_edge(false_block, end_false_branch);
                cfg.add_flow_edge(end_false_branch, end_id);
                proof {
                    assert(cfg.succ((base + 8) as usize) =~= x.edges[8]);
                    assert(cfg.succ((base + 9) as usize) =~= x.edges[9]);
                    assert(cfg.succ((base + 10) as usize) =~= x.edges[10]);
                }
            },
            None => {
                cfg.add_flow_edge(end_cond, end_id);
            },
        }

        cfg.start_end_pairs.insert(start_id.0, end_id.0);
        proof {
            assert(cfg.succ(base) =~= x.edges[0]);
            assert(cfg.succ((base + 1) as usize) =~= x.edges[1]);
            assert(cfg.succ((base + 2) as usize) =~= x.edges[2]);
            assert(cfg.succ((base + 3) as usize) =~= x.edges[3]);
            assert(cfg.succ((base + 4) as usize) =~= x.edges[4]);
            assert(cfg.succ((base + 5) as usize) =~= x.edges[5]);
            assert(cfg.succ((base + 6) as usize) =~= x.edges[6]);
            assert(cfg.succ((base + 7) as usize) =~= x.edges[7]);
            assert(pre.queue().is_prefix_of(cfg.queue()));
        }
        (start_id, end_id)
    }
}

impl CfgReduce for CfgForStatement {
    open spec fn as_descriptor(&self) -> CfgNodeDescriptor {
        CfgNodeDescriptor::ForStatement(*self)
    }

    #[verifier::rlimit(60)]
    fn reduce(&self, context: &WorkspaceContext, cfg: &mut Cfg) -> (r: (CfgNodeId, CfgNodeId)) {
        let ghost m = context.nodes@;
        let ghost pre = *cfg;
        let ghost base = pre.next();
        let for_ast_node = match context.get(self.for_statement) {
            Some(AstNodeRef::ForStatement(node)) => node,
            _ => {
                return reduce_unknown(
                    cfg,
                    context,
                    CfgStartNode::StartFor(self.for_statement),
                    CfgEndNode::EndFor(self.for_statement),
                );
            },
        };
        let ghost x = for_expansion(*for_ast_node, base);
        proof {
            assert(closed(m, m[self.for_statement]));
            lemma_pending_body(m, &for_ast_node.body);
        }
        let start_id = cfg.add_start(CfgStartNode::StartFor(self.for_statement));
        let end_id = cfg.add_end(CfgEndNode::EndFor(self.for_statement));
        let start_loop_init = cfg.add_start(CfgStartNode::StartForInitExp);
        let end_loop_init = cfg.add_end(CfgEndNode::EndForInitExp);
        let start_loop_cond = cfg.add_start(CfgStartNode::StartForCond);
        let end_loop_cond = cfg.add_end(CfgEndNode::EndForCond);
        let start_loop_body = cfg.add_start(CfgStartNode::StartForBody);
        let end_loop_body = cfg.add_end(CfgEndNode::EndForBody);
        let start_loop_exp = cfg.add_start(CfgStartNode::StartForLoopExp);
        let end_loop_exp = cfg.add_end(CfgEndNode::EndForLoopExp);
        let loop_body = cfg.add_body_node(&for_ast_node.body);
        let ghost fixed = *cfg;
        proof {
            assert(forall|k: usize| #[trigger] fixed.succ(k) == pre.succ(k));
        }

        // Loop initialization
        cfg.add_flow_edge(start_id, start_loop_init);
        match &for_ast_node.initialization_expression {
            Some(loop_init) => {
                proof {
                    lemma_pending_statement(m, &**loop_init);
                }
                let loop_init = cfg.add_statement_node(loop_init);
                cfg.add_flow_edge(start_loop_init, loop_init);
                cfg.add_flow_edge(loop_init, end_loop_init);
            },
            None => {
                cfg.add_flow_edge(start_loop_init, end_loop_init);
            },
        }
        let ghost after_init = *cfg;
        proof {
            assert(after_init.next() == base + for_cond_offset(*for_ast_node));
            assert(after_init.succ(base) =~= x.edges[0]);
            assert(after_init.succ((base + 2) as usize) =~= x.edges[2]);
            if for_ast_node.initialization_expression is Some {
                assert(after_init.succ((base + 11) as usize) =~= x.edges[11]);
            }
        }

        // Loop condition
        cfg.add_flow_edge(end_loop_init, start_loop_cond);
        match &for_ast_node.condition {
            Some(loop_cond) => {
                let loop_cond = cfg.add_for_statement_condition(loop_cond);
                cfg.add_flow_edge(start_loop_cond, loop_cond);
                cfg.add_flow_edge(loop_cond, end_loop_cond);
            },
            None => {
                cfg.add_flow_edge(start_loop_cond, end_loop_cond);
            },
        }
        let ghost after_cond = *cfg;
        proof {
            assert(after_cond.next() == base + for_update_offset(*for_ast_node));
            assert(after_cond.succ((base + 3) as usize) =~= x.edges[3]);
            assert(after_cond.succ((base + 4) as usize) =~= x.edges[4]);
            if for_ast_node.condition is Some {
                assert(after_cond.succ((base + for_cond_offset(*for_ast_node)) as usize)
                    =~= x.edges[for_cond_offset(*for_ast_node)]);
            }
        }

        // Loop body
        cfg.add_flow_edge(end_loop_cond, start_loop_body);
        cfg.add_flow_edge(start_loop_body, loop_body);
        cfg.add_flow_edge(loop_body, end_loop_body);

        // Loop expression
        cfg.add_flow_edge(end_loop_body, start_loop_exp);
        match &for_ast_node.loop_expression {
            Some(loop_exp) => {
                let loop_exp = cfg.add_expression_statement(loop_exp);
                cfg.add_flow_edge(start_loop_exp, loop_exp);
                cfg.add_flow_edge(loop_exp, end_loop_exp);
            },
            None => {
                cfg.add_flow_edge(start_loop_exp, end_loop_exp);
            },
        }
        let ghost after_exp = *cfg;
        proof {
            assert(after_exp.next() == base + for_len(*for_ast_node));
            assert(after_exp.succ((base + 6) as usize) =~= x.edges[6]);
            assert(after_exp.succ((base + 7) as usize) =~= x.edges[7]);
            assert(after_exp.succ((base + 8) as usize) =~= x.edges[8]);
            assert(after_exp.succ((base + 10) as usize) =~= x.edges[10]);
            if for_ast_node.loop_expression is Some {
                assert(after_exp.succ((base + for_update_offset(*for_ast_node)) as usize)
                    =~= x.edges[for_update_offset(*for_ast_node)]);
            }
        }

        // Looping back
        cfg.add_flow_edge(end_loop_exp, start_loop_cond);

        // Out of the loop once the condition fails
        cfg.add_flow_edge(end_loop_cond, end_id);

        cfg.start_end_pairs.insert(start_id.0, end_id.0);
        cfg.start_cond_pairs.insert(start_id.0, start_loop_cond.0);
        cfg.start_loop_expr.insert(start_id.0, start_loop_exp.0);
        cfg.loop_expr_start.insert(start_loop_exp.0, start_id.0);
        proof {
            assert(cfg.succ((base + 1) as usize) =~= x.edges[1]);
            assert(cfg.succ((base + 5) as usize) =~= x.edges[5]);
            assert(cfg.succ((base + 9) as usize) =~= x.edges[9]);
            assert(pre.queue().is_prefix_of(cfg.queue()));
        }
        (start_id, end_id)
    }
}

impl Cfg {
    /// Adds the reducible node that stands for a block.
    pub fn add_block_node(&mut self, block: &Block) -> (id: CfgNodeId)
        requires
            old(self).inv(),
            old(self).next() < usize::MAX,
        ensures
            node_added(
                *old(self),
                *final(self),
                CfgNodeDescriptor::Block(CfgBlock { block: block.id }),
                id,
            ),
    {
        self.add_node(CfgNodeDescriptor::Block(CfgBlock { block: block.id }))
    }
}

} // verus!
