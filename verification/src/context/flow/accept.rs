use vstd::prelude::*;
use crate::ast::ast_nodes::{Block, FunctionDefinition, ModifierDefinition};
use crate::ast::node::NodeID;
use crate::context::flow::expansion::{
    block_expansion, expansion_of, one, pending, stmt_descriptor,
};
use crate::context::flow::reducibles::CfgBlock;
use crate::context::flow::laws::lemma_shape_extension;
use crate::context::flow::reduction::{fully_reduced, is_trace, stepped};
use crate::context::flow::utils::calibrated;
use crate::context::flow::voids::{CfgEndNode, CfgStartNode};
use crate::context::flow::{
    graph_complete, graph_inv, without, Cfg, CfgNode, CfgNodeDescriptor, CfgNodeId,
};
use crate::context::workspace_context::{holds_block, AstNodeRef, WorkspaceContext};

verus! {

/// Every statement of the block is a single program point: the block holds
/// no nested block, no `if` and no loop.
pub open spec fn straight_line(b: Block) -> bool {
    forall|i: int|
        0 <= i < b.statements@.len() ==> !(#[trigger] stmt_descriptor(b.statements@[i])).is_reducible()
}

/// From identity `s` on the graph holds the chain of a straight-line block:
/// the outer start sentinel, the block's own start sentinel, one node for
/// each statement in source order, the block's own end sentinel and the
/// outer end sentinel, each with the next as its only successor. The
/// identity `s + 2`, under which the block itself stood, is free again.
pub open spec fn is_chain(
    g: Cfg,
    s: usize,
    start: CfgNodeDescriptor,
    end: CfgNodeDescriptor,
    b: Block,
) -> bool {
    let n = b.statements@.len();
    &&& g.next() == s + 5 + n
    &&& g.live(s) && g.descriptor(s) == start
    &&& g.live((s + 1) as usize) && g.descriptor((s + 1) as usize) == end
    &&& !g.live((s + 2) as usize)
    &&& g.live((s + 3) as usize) && g.descriptor((s + 3) as usize) == CfgNodeDescriptor::Start(
        CfgStartNode::StartBlock(b.id),
    )
    &&& g.live((s + 4) as usize) && g.descriptor((s + 4) as usize) == CfgNodeDescriptor::End(
        CfgEndNode::EndBlock(b.id),
    )
    &&& forall|i: int|
        0 <= i < n ==> g.live((s + 5 + i) as usize) && #[trigger] g.descriptor((s + 5 + i) as usize)
            == stmt_descriptor(b.statements@[i])
    &&& g.succ(s) == one(s + 3)
    &&& g.succ((s + 1) as usize) == Seq::<usize>::empty()
    &&& g.succ((s + 2) as usize) == Seq::<usize>::empty()
    &&& g.succ((s + 3) as usize) == one(
        if n == 0 {
            s + 4
        } else {
            s + 5
        },
    )
    &&& g.succ((s + 4) as usize) == one(s + 1)
    &&& forall|i: int|
        0 <= i < n ==> #[trigger] g.succ((s + 5 + i) as usize) == one(
            if i == n - 1 {
                s + 4
            } else {
                s + 6 + i
            },
        )
}

/// The second graph is the first with the seed of a body behind it: a start
/// sentinel, an end sentinel and the reducible node of the body under the
/// next three identities, chained in the order start, body, end, the body
/// queued. The sentinels of a function or modifier body are paired in the
/// table of start and end sentinels, the plain ones are not.
pub open spec fn is_seed(
    before: Cfg,
    seeded: Cfg,
    start: CfgStartNode,
    end: CfgEndNode,
    block: NodeID,
) -> bool {
    let s = before.next();
    &&& seeded.wf()
    &&& seeded.next() == s + 3
    &&& seeded.nodes@ == before.nodes@.insert(
        s,
        CfgNode { id: CfgNodeId(s), nd: CfgNodeDescriptor::Start(start) },
    ).insert(
        (s + 1) as usize,
        CfgNode { id: CfgNodeId((s + 1) as usize), nd: CfgNodeDescriptor::End(end) },
    ).insert(
        (s + 2) as usize,
        CfgNode {
            id: CfgNodeId((s + 2) as usize),
            nd: CfgNodeDescriptor::Block(CfgBlock { block }),
        },
    )
    &&& forall|k: usize| k < s ==> #[trigger] seeded.succ(k) == before.succ(k)
    &&& seeded.succ(s) == one(s + 2)
    &&& seeded.succ((s + 1) as usize) == Seq::<usize>::empty()
    &&& seeded.succ((s + 2) as usize) == one(s + 1)
    &&& seeded.queue() == before.queue().push((s + 2) as usize)
    &&& seeded.start_end_pairs@ == if start is Start {
        before.start_end_pairs@
    } else {
        before.start_end_pairs@.insert(s, (s + 1) as usize)
    }
    &&& seeded.start_cond_pairs@ == before.start_cond_pairs@
    &&& seeded.start_loop_expr@ == before.start_loop_expr@
    &&& seeded.loop_expr_start@ == before.loop_expr_start@
    &&& seeded.cond_start_pairs@ == before.cond_start_pairs@
}

/// After the first step on the seed of a straight-line body the graph holds
/// the chain of the body, and nothing is left to reduce. The graph has
/// gained one node for each statement and four sentinels, and one edge for
/// each statement and three more.
pub proof fn lemma_straight_line_chain<'a>(
    m: Map<NodeID, AstNodeRef<'a>>,
    pre: Cfg,
    seeded: Cfg,
    first: Cfg,
    start: CfgStartNode,
    end: CfgEndNode,
    block: &'a Block,
)
    requires
        pre.wf(),
        pre.queue().len() == 0,
        is_seed(pre, seeded, start, end, block.id),
        stepped(m, seeded, first),
        holds_block(m, block),
        straight_line(*block),
    ensures
        first.queue().len() == 0,
        is_chain(
            first,
            pre.next(),
            CfgNodeDescriptor::Start(start),
            CfgNodeDescriptor::End(end),
            *block,
        ),
        first.nodes@.len() == pre.nodes@.len() + block.statements@.len() + 4,
        first.edge_total(first.next() as nat) == pre.edge_total(pre.next() as nat)
            + block.statements@.len() + 3,
        forall|k: usize| k < pre.next() ==> #[trigger] first.succ(k) == pre.succ(k),
{
    let s = pre.next();
    let c = (s + 2) as usize;
    reveal(graph_inv);
    reveal(graph_complete);
    assert(seeded.queue()[0] == c);
    assert(forall|k: usize| pre.live(k) ==> !pre.descriptor(k).is_reducible());
    assert(seeded.nodes@.dom() =~= pre.nodes@.dom().insert(s).insert((s + 1) as usize).insert(c));
    assert(seeded.nodes@.len() == pre.nodes@.len() + 3);
    let x = block_expansion(
        CfgStartNode::StartBlock(block.id),
        CfgEndNode::EndBlock(block.id),
        *block,
        (s + 3) as usize,
    );
    assert(expansion_of(m, seeded.nodes@[c].nd, seeded.next()) == x);
    let n = block.statements@.len();
    assert forall|k: usize| #[trigger] first.live(k) implies !first.descriptor(k).is_reducible() by {
        if k >= s + 3 {
            let i = k - (s + 3);
            assert(first.nodes@[(s + 3 + i) as usize].nd == x.nds[i]);
            if i >= 2 {
                assert(x.nds[i] == stmt_descriptor(block.statements@[i - 2]));
            }
        } else {
            assert(seeded.live(k));
        }
    }
    assert(first.queue().len() == 0) by {
        if first.queue().len() > 0 {
            assert(first.live(first.queue()[0]));
        }
    }
    // the edges of the chain
    reveal_with_fuel(without, 3);
    assert(seeded.succ(s) == one(s + 2));
    assert(seeded.succ(s)[0] == c);
    assert(seeded.has_edge(s, c));
    assert(one(s + 2).drop_last() =~= Seq::<usize>::empty());
    assert(without(one(s + 2), c) =~= Seq::<usize>::empty());
    assert(first.succ(s) =~= one(s + 3));
    assert(!seeded.has_edge((s + 1) as usize, c));
    assert(first.succ((s + 1) as usize) == Seq::<usize>::empty());
    assert(one(s + 1).drop_last() =~= Seq::<usize>::empty());
    assert(without(one(s + 1), c) =~= one(s + 1));
    assert(first.succ((s + 3 + 1) as usize) =~= one(s + 1)) by {
        assert(x.edges[1] == Seq::<usize>::empty());
    }
    assert(first.succ((s + 3 + 0) as usize) == x.edges[0]);
    assert forall|i: int| 0 <= i < n implies first.live((s + 5 + i) as usize)
        && #[trigger] first.descriptor((s + 5 + i) as usize) == stmt_descriptor(
        block.statements@[i],
    ) by {
        assert(first.nodes@[(s + 3 + (i + 2)) as usize].nd == x.nds[i + 2]);
    }
    assert forall|i: int| 0 <= i < n implies #[trigger] first.succ((s + 5 + i) as usize)
        == one(
        if i == n - 1 {
            s + 4
        } else {
            s + 6 + i
        },
    ) by {
        assert(first.succ((s + 3 + (i + 2)) as usize) == x.edges[i + 2]);
    }
    assert(first.nodes@[(s + 3 + 0) as usize].nd == x.nds[0]);
    assert(first.nodes@[(s + 3 + 1) as usize].nd == x.nds[1]);
    assert(is_chain(
        first,
        s,
        CfgNodeDescriptor::Start(start),
        CfgNodeDescriptor::End(end),
        *block,
    ));
    assert forall|k: usize| k < s implies #[trigger] first.succ(k) == pre.succ(k) by {
        assert(seeded.succ(k) == pre.succ(k));
        if seeded.has_edge(k, c) {
            let t = seeded.succ(k);
            let i = choose|i: int| 0 <= i < t.len() && t[i] == c;
            assert(pre.live(pre.succ(k)[i]));
        }
    }
    lemma_chain_edges(
        first,
        s,
        CfgNodeDescriptor::Start(start),
        CfgNodeDescriptor::End(end),
        *block,
        n,
    );
    lemma_same_edge_total(pre, first, s as nat);
}

/// Two graphs in which the same edges leave every node with an identity
/// below `upto` have as many edges below `upto`.
pub proof fn lemma_same_edge_total(a: Cfg, b: Cfg, upto: nat)
    requires
        upto <= usize::MAX,
        forall|k: usize| k < upto ==> #[trigger] b.succ(k) == a.succ(k),
    ensures
        b.edge_total(upto) == a.edge_total(upto),
    decreases upto,
{
    if upto > 0 {
        lemma_same_edge_total(a, b, (upto - 1) as nat);
        assert(b.succ((upto - 1) as usize) == a.succ((upto - 1) as usize));
    }
}

/// A chain has three edges between its sentinels and one edge out of each
/// of its statements: up to the statement with index `i` these are `3 + i`
/// edges more than the graph had before the chain.
pub proof fn lemma_chain_edges(
    g: Cfg,
    s: usize,
    start: CfgNodeDescriptor,
    end: CfgNodeDescriptor,
    b: Block,
    i: nat,
)
    requires
        is_chain(g, s, start, end, b),
        i <= b.statements@.len(),
    ensures
        g.edge_total((s + 5 + i) as nat) == g.edge_total(s as nat) + 3 + i,
    decreases i,
{
    if i == 0 {
        reveal_with_fuel(Cfg::edge_total, 6);
        assert(g.succ(s).len() == 1);
        assert(g.succ((s + 1) as usize).len() == 0);
        assert(g.succ((s + 2) as usize).len() == 0);
        assert(g.succ((s + 3) as usize).len() == 1);
        assert(g.succ((s + 4) as usize).len() == 1);
    } else {
        lemma_chain_edges(g, s, start, end, b, (i - 1) as nat);
        assert(g.succ((s + 5 + (i - 1)) as usize).len() == 1);
    }
}

impl Cfg {
    /// Seeds the graph with a start sentinel, a reducible node and an end
    /// sentinel, chained in this order.
    fn seed(&mut self, start: CfgStartNode, end: CfgEndNode, block: &Block) -> (r: (
        CfgNodeId,
        CfgNodeId,
    ))
        requires
            old(self).wf(),
            old(self).next() + 3 <= usize::MAX,
        ensures
            final(self).wf(),
            r.0.0 == old(self).next(),
            r.1.0 == old(self).next() + 1,
            final(self).next() == old(self).next() + 3,
            final(self).nodes@ == old(self).nodes@.insert(
                r.0.0,
                CfgNode { id: r.0, nd: CfgNodeDescriptor::Start(start) },
            ).insert(r.1.0, CfgNode { id: r.1, nd: CfgNodeDescriptor::End(end) }).insert(
                (r.0.0 + 2) as usize,
                CfgNode {
                    id: CfgNodeId((r.0.0 + 2) as usize),
                    nd: CfgNodeDescriptor::Block(CfgBlock { block: block.id }),
                },
            ),
            final(self).nodes@.len() == old(self).nodes@.len() + 3,
            forall|k: usize| k < old(self).next() ==> #[trigger] final(self).succ(k) == old(self).succ(k),
            final(self).succ(r.0.0) == one(r.0.0 + 2),
            final(self).succ(r.1.0) == Seq::<usize>::empty(),
            final(self).succ((r.0.0 + 2) as usize) == one(r.0.0 + 1),
            final(self).queue() == old(self).queue().push((r.0.0 + 2) as usize),
            final(self).same_tables(old(self)),
            old(self).shaped() ==> final(self).shaped(),
            forall|m: Map<NodeID, AstNodeRef>| #[trigger]
                final(self).pending_total(m) == old(self).pending_total(m) + pending(
                    m,
                    CfgNodeDescriptor::Block(CfgBlock { block: block.id }),
                ),
    {
        let ghost pre = *self;
        let start_id = self.add_start(start);
        let ghost s1 = *self;
        let end_id = self.add_end(end);
        let ghost s2 = *self;
        let block_id = self.add_block_node(block);
        let ghost s3 = *self;
        self.add_flow_edge(start_id, block_id);
        self.add_flow_edge(block_id, end_id);
        proof {
            assert(forall|k: usize| #[trigger] s3.succ(k) == pre.succ(k));
            if pre.shaped() {
                reveal(graph_inv);
                lemma_shape_extension(pre, *self);
            }
            assert(self.succ(start_id.0) =~= one(start_id.0 + 2));
            assert(self.succ(block_id.0) =~= one(start_id.0 + 1));
            assert forall|m: Map<NodeID, AstNodeRef>| #[trigger]
                self.pending_total(m) == pre.pending_total(m) + pending(
                    m,
                    CfgNodeDescriptor::Block(CfgBlock { block: block.id }),
                ) by {
                assert(s3.pending_total(m) == s2.pending_total(m) + pending(
                    m,
                    CfgNodeDescriptor::Block(CfgBlock { block: block.id }),
                ));
                assert(s2.pending_total(m) == s1.pending_total(m) + pending(
                    m,
                    CfgNodeDescriptor::End(end),
                ));
                assert(s1.pending_total(m) == pre.pending_total(m) + pending(
                    m,
                    CfgNodeDescriptor::Start(start),
                ));
            }
        }
        (start_id, end_id)
    }

    /// Builds the graph of a body between the given pair of sentinels.
    fn accept_body(
        &mut self,
        context: &WorkspaceContext,
        start: CfgStartNode,
        end: CfgEndNode,
        block: &Block,
        pair: bool,
    ) -> (r: (CfgNodeId, CfgNodeId))
        requires
            context.wf(),
            old(self).wf(),
            old(self).next() + 3 + old(self).pending_total(context.nodes@) + pending(
                context.nodes@,
                CfgNodeDescriptor::Block(CfgBlock { block: block.id }),
            ) <= usize::MAX,
            start is Start || start is StartFunctionBody || start is StartModifierBody,
            pair == !(start is Start),
        ensures
            final(self).built(context.nodes@, old(self), start, end, block, r),
            old(self).shaped() ==> final(self).shaped(),
    {
        let ghost m = context.nodes@;
        let ghost pre = *self;
        let ghost s = pre.next();
        let (start_id, end_id) = self.seed(start, end, block);
        let ghost unpaired = *self;
        if pair {
            self.start_end_pairs.insert(start_id.0, end_id.0);
        }
        let ghost seeded = *self;
        proof {
            if pre.shaped() {
                reveal(graph_inv);
                assert(unpaired.nodes@[start_id.0].nd == CfgNodeDescriptor::Start(start));
                lemma_shape_extension(unpaired, seeded);
            }
        }
        proof {
            assert(seeded.pending_total(m) == pre.pending_total(m) + pending(
                m,
                CfgNodeDescriptor::Block(CfgBlock { block: block.id }),
            ));
            assert(is_seed(pre, seeded, start, end, block.id));
        }
        let stepped_once = self.reduce_next(context);
        let ghost first = *self;
        proof {
            reveal(graph_inv);
            assert(stepped(m, seeded, first));
            crate::context::flow::expansion::lemma_expansion_len(
                m,
                seeded.descriptor(seeded.queue()[0]),
                seeded.next(),
            );
            if pre.queue().len() == 0 && holds_block(m, block) && straight_line(*block) {
                lemma_straight_line_chain(m, pre, seeded, first, start, end, block);
            }
        }
        self.reduce_all(context);
        proof {
            let rest = choose|rest: Seq<Cfg>|
                #[trigger] is_trace(m, rest) && rest[0] == first && rest.last().same_graph(self);
            let trace = seq![seeded] + rest;
            assert forall|i: int| 0 <= i < trace.len() - 1 implies stepped(
                m,
                #[trigger] trace[i],
                trace[i + 1],
            ) by {
                if i > 0 {
                    assert(stepped(m, rest[i - 1], rest[i - 1 + 1]));
                }
            }
            assert(is_trace(m, trace) && trace[0] == seeded && trace.last().same_graph(self));
            assert(fully_reduced(m, seeded, *self));
            reveal(graph_inv);
            assert(self.live(start_id.0) && self.nodes@[start_id.0] == seeded.nodes@[start_id.0]) by {
                assert(seeded.live(start_id.0));
                assert(first.live(start_id.0));
            }
            assert(self.live(end_id.0) && self.nodes@[end_id.0] == seeded.nodes@[end_id.0]) by {
                assert(seeded.live(end_id.0));
                assert(first.live(end_id.0));
            }
            assert forall|k: usize|
                #[trigger] pre.live(k) && !pre.descriptor(k).is_reducible() implies self.live(k)
                && self.nodes@[k] == pre.nodes@[k] by {
                assert(seeded.live(k));
                assert(first.live(k));
            }
            if pre.queue().len() == 0 && holds_block(m, block) && straight_line(*block) {
                assert(self.same_graph(&first));
                assert(forall|k: usize| #[trigger] self.succ(k) == first.succ(k));
                lemma_same_edge_total(first, *self, first.next() as nat);
            }
        }
        (start_id, end_id)
    }

    /// What building the graph of a body leaves behind.
    ///
    /// * The graph is the one that comes of seeding the graph with the body
    ///   and reducing it fully, step by step.
    /// * No node of the registry is reducible, and the queue is empty.
    /// * The two sentinels returned are in the registry. They got the next
    ///   two free identities.
    /// * The number of identities handed out is three, for the two
    ///   sentinels and the body's own node, and what was pending for the
    ///   body and for the nodes that were queued before.
    /// * Every node that was there before and is no reducible node is as it
    ///   was.
    /// * If nothing was queued before, the registry knows the body, and the
    ///   body is a straight-line block of `n` statements, the graph holds
    ///   the chain of the body: `n + 4` nodes more than before, with `n + 3`
    ///   edges among them.
    pub open spec fn built<'a>(
        &self,
        m: Map<NodeID, AstNodeRef<'a>>,
        before: &Cfg,
        start: CfgStartNode,
        end: CfgEndNode,
        block: &Block,
        r: (CfgNodeId, CfgNodeId),
    ) -> bool {
        &&& self.wf()
        &&& self.no_reducible()
        &&& self.queue().len() == 0
        &&& exists|seeded: Cfg|
            #[trigger] is_seed(*before, seeded, start, end, block.id) && fully_reduced(
                m,
                seeded,
                *self,
            )
        &&& r.0.0 == before.next()
        &&& r.1.0 == before.next() + 1
        &&& self.live(r.0.0) && self.descriptor(r.0.0) == CfgNodeDescriptor::Start(start)
        &&& self.live(r.1.0) && self.descriptor(r.1.0) == CfgNodeDescriptor::End(end)
        &&& self.next() == before.next() + 3 + before.pending_total(m) + pending(
            m,
            CfgNodeDescriptor::Block(CfgBlock { block: block.id }),
        )
        &&& forall|k: usize|
            #[trigger] before.live(k) && !before.descriptor(k).is_reducible() ==> self.live(k)
                && self.nodes@[k] == before.nodes@[k]
        &&& before.queue().len() == 0 && holds_block(m, block) && straight_line(*block) ==> {
            &&& is_chain(
                *self,
                before.next(),
                CfgNodeDescriptor::Start(start),
                CfgNodeDescriptor::End(end),
                *block,
            )
            &&& self.nodes@.len() == before.nodes@.len() + block.statements@.len() + 4
            &&& self.edge_total(self.next() as nat) == before.edge_total(before.next() as nat)
                + block.statements@.len() + 3
            &&& forall|k: usize| k < before.next() ==> #[trigger] self.succ(k) == before.succ(k)
        }
    }

    /// Builds the graph of a bare block: a start sentinel, the block, an
    /// end sentinel, reduced until no reducible node is left. Jumps are
    /// left as the reduction made them. Returns the two sentinels.
    pub fn accept_block(&mut self, context: &WorkspaceContext, block: &Block) -> (r: (
        CfgNodeId,
        CfgNodeId,
    ))
        requires
            context.wf(),
            old(self).wf(),
            old(self).next() + 3 + old(self).pending_total(context.nodes@) + pending(
                context.nodes@,
                CfgNodeDescriptor::Block(CfgBlock { block: block.id }),
            ) <= usize::MAX,
        ensures
            final(self).built(
                context.nodes@,
                old(self),
                CfgStartNode::Start,
                CfgEndNode::End,
                block,
                r,
            ),
            old(self).shaped() ==> final(self).shaped(),
    {
        self.accept_body(context, CfgStartNode::Start, CfgEndNode::End, block, false)
    }

    /// The graph is one that reduction has built, for the given body
    /// between the two sentinels of the function, and in which the flow out
    /// of the jumps was corrected thereafter.
    pub open spec fn built_and_calibrated<'a>(
        &self,
        m: Map<NodeID, AstNodeRef<'a>>,
        before: &Cfg,
        function_id: NodeID,
        body: &Block,
        ends: (CfgNodeId, CfgNodeId),
    ) -> bool {
        self.built_and_calibrated_between(
            m,
            before,
            CfgStartNode::StartFunctionBody(function_id),
            CfgEndNode::EndFunctionBody(function_id),
            body,
            ends,
        )
    }

    /// The graph is one that reduction has built, for the given body
    /// between the given pair of sentinels, and in which the flow out of
    /// the jumps was corrected thereafter.
    pub open spec fn built_and_calibrated_between<'a>(
        &self,
        m: Map<NodeID, AstNodeRef<'a>>,
        before: &Cfg,
        start: CfgStartNode,
        end: CfgEndNode,
        body: &Block,
        ends: (CfgNodeId, CfgNodeId),
    ) -> bool {
        exists|mid: Cfg|
            #[trigger] mid.built(m, before, start, end, body, ends) && calibrated(
                mid,
                *self,
                ends.0.0,
                ends.1.0,
            )
    }

    /// What building the graph of the body of a function leaves behind.
    ///
    /// For a function without a body nothing is returned and the graph is
    /// untouched. With a body, the two sentinels of the function are
    /// returned, and the graph is one that reduction has built between
    /// them and in which the flow out of the jumps was corrected
    /// thereafter.
    pub open spec fn accepted<'a>(
        &self,
        m: Map<NodeID, AstNodeRef<'a>>,
        before: &Cfg,
        function_definition: &FunctionDefinition,
        r: Option<(CfgNodeId, CfgNodeId)>,
    ) -> bool {
        &&& (r is Some) == (function_definition.body is Some)
        &&& r is None ==> self.same_graph(before)
        &&& r is Some ==> self.built_and_calibrated(
            m,
            before,
            function_definition.id,
            &function_definition.body->Some_0,
            r->Some_0,
        )
    }

    /// Builds the graph of the body of a function: the body between the
    /// two sentinels of the function, reduced until no reducible node is
    /// left, and the flow out of its jumps corrected. Returns the two
    /// sentinels; `None`, with the graph untouched, for a function without
    /// a body.
    ///
    /// With a body, the graph is one that reduction has built and in which
    /// the jumps were corrected thereafter. Until the jumps are corrected, a
    /// jump is chained to whatever follows it in its block.
    pub fn accept_function_body(
        &mut self,
        context: &WorkspaceContext,
        function_definition: &FunctionDefinition,
    ) -> (r: Option<(CfgNodeId, CfgNodeId)>)
        requires
            context.wf(),
            old(self).wf(),
            function_definition.body matches Some(body) ==> old(self).next() + 3 + old(
                self,
            ).pending_total(context.nodes@) + pending(
                context.nodes@,
                CfgNodeDescriptor::Block(CfgBlock { block: body.id }),
            ) <= usize::MAX,
        ensures
            final(self).accepted(context.nodes@, old(self), function_definition, r),
            final(self).wf(),
            r is Some ==> final(self).no_reducible(),
            old(self).shaped() ==> final(self).shaped(),
    {
        let function_body_block = match &function_definition.body {
            Some(block) => block,
            None => {
                return None;
            },
        };
        let (start, end) = self.accept_body(
            context,
            CfgStartNode::StartFunctionBody(function_definition.id),
            CfgEndNode::EndFunctionBody(function_definition.id),
            function_body_block,
            true,
        );
        let ghost mid = *self;
        self.callibrate_jump_statements_in_function_body(start, end);
        proof {
            let ends = (start, end);
            assert(function_body_block == &function_definition.body->Some_0);
            assert(mid.built(
                context.nodes@,
                old(self),
                CfgStartNode::StartFunctionBody(function_definition.id),
                CfgEndNode::EndFunctionBody(function_definition.id),
                &function_definition.body->Some_0,
                ends,
            ));
            assert(calibrated(mid, *self, ends.0.0, ends.1.0));
            assert(self.no_reducible());
            assert(self.built_and_calibrated_between(
                context.nodes@,
                old(self),
                CfgStartNode::StartFunctionBody(function_definition.id),
                CfgEndNode::EndFunctionBody(function_definition.id),
                &function_definition.body->Some_0,
                ends,
            ));
            assert(self.built_and_calibrated(
                context.nodes@,
                old(self),
                function_definition.id,
                &function_definition.body->Some_0,
                ends,
            ));
            assert(self.accepted(context.nodes@, old(self), function_definition, Some(ends)));
        }
        Some((start, end))
    }

    /// Builds the graph of the body of a modifier: the body between the
    /// two sentinels of the modifier, reduced until no reducible node is
    /// left, and the flow out of its jumps corrected. Returns the two
    /// sentinels.
    pub fn accept_modifier_body(
        &mut self,
        context: &WorkspaceContext,
        modifier_definition: &ModifierDefinition,
    ) -> (r: (CfgNodeId, CfgNodeId))
        requires
            context.wf(),
            old(self).wf(),
            old(self).next() + 3 + old(self).pending_total(context.nodes@) + pending(
                context.nodes@,
                CfgNodeDescriptor::Block(CfgBlock { block: modifier_definition.body.id }),
            ) <= usize::MAX,
        ensures
            final(self).built_and_calibrated_between(
                context.nodes@,
                old(self),
                CfgStartNode::StartModifierBody(modifier_definition.id),
                CfgEndNode::EndModifierBody(modifier_definition.id),
                &modifier_definition.body,
                r,
            ),
            final(self).wf(),
            final(self).no_reducible(),
            old(self).shaped() ==> final(self).shaped(),
    {
        let (start, end) = self.accept_body(
            context,
            CfgStartNode::StartModifierBody(modifier_definition.id),
            CfgEndNode::EndModifierBody(modifier_definition.id),
            &modifier_definition.body,
            true,
        );
        let ghost mid = *self;
        self.callibrate_jump_statements_in_function_body(start, end);
        proof {
            let ends = (start, end);
            assert(mid.built(
                context.nodes@,
                old(self),
                CfgStartNode::StartModifierBody(modifier_definition.id),
                CfgEndNode::EndModifierBody(modifier_definition.id),
                &modifier_definition.body,
                ends,
            ));
            assert(calibrated(mid, *self, ends.0.0, ends.1.0));
            assert(self.no_reducible());
        }
        (start, end)
    }

    /// The graph is as `new` makes it: nothing in it, nothing handed out,
    /// nothing queued, no edge and no entry in a table.
    pub open spec fn is_fresh(&self) -> bool {
        &&& self.wf()
        &&& self.shaped()
        &&& self.next() == 0
        &&& self.nodes@.len() == 0
        &&& self.queue().len() == 0
        &&& forall|k: usize| !self.live(k)
        &&& self.adj_list@ == Map::<usize, Vec<usize>>::empty()
        &&& self.start_end_pairs@ == Map::<usize, usize>::empty()
        &&& self.start_cond_pairs@ == Map::<usize, usize>::empty()
        &&& self.start_loop_expr@ == Map::<usize, usize>::empty()
        &&& self.loop_expr_start@ == Map::<usize, usize>::empty()
        &&& self.cond_start_pairs@ == Map::<usize, usize>::empty()
    }

    /// The graph is one that was built for the given body from nothing and
    /// in which the flow out of the jumps was corrected thereafter.
    pub open spec fn built_from_nothing<'a>(
        &self,
        m: Map<NodeID, AstNodeRef<'a>>,
        function_id: NodeID,
        body: &Block,
        ends: (CfgNodeId, CfgNodeId),
    ) -> bool {
        exists|empty: Cfg|
            empty.is_fresh() && #[trigger] self.built_and_calibrated(
                m,
                &empty,
                function_id,
                body,
                ends,
            )
    }

    /// Builds the graph of the body of a function from nothing. Returns
    /// the graph with its start and its end sentinel; `None` for a function
    /// without a body, and for a body whose graph would need more
    /// identities than there are.
    pub fn from_function_body(
        context: &WorkspaceContext,
        function_definition: &FunctionDefinition,
    ) -> (r: Option<(Cfg, CfgNodeId, CfgNodeId)>)
        requires
            context.wf(),
        ensures
            (r is Some) == (function_definition.body matches Some(body) && 3 + pending(
                context.nodes@,
                CfgNodeDescriptor::Block(CfgBlock { block: body.id }),
            ) <= usize::MAX),
            r matches Some((cfg, start, end)) ==> {
                &&& start.0 == 0
                &&& end.0 == 1
                &&& cfg.wf()
                &&& cfg.shaped()
                &&& cfg.no_reducible()
                &&& cfg.built_from_nothing(
                    context.nodes@,
                    function_definition.id,
                    &function_definition.body->Some_0,
                    (start, end),
                )
            },
    {
        let body = match &function_definition.body {
            Some(body) => body,
            None => {
                return None;
            },
        };
        match context.pending_for_block(body.id) {
            Some(cost) => {
                if cost > usize::MAX - 3 {
                    return None;
                }
            },
            None => {
                return None;
            },
        }
        let mut cfg = Cfg::new();
        let ghost empty = cfg;
        proof {
            assert(cfg.queue() =~= Seq::<usize>::empty());
            assert(cfg.pending_total(context.nodes@) == 0);
            assert(cfg.nodes@.len() == 0) by {
                assert(cfg.nodes@.dom() =~= Set::<usize>::empty());
            }
        }
        match cfg.accept_function_body(context, function_definition) {
            Some((start, end)) => {
                proof {
                    assert(empty.is_fresh() && cfg.built_and_calibrated(
                        context.nodes@,
                        &empty,
                        function_definition.id,
                        &function_definition.body->Some_0,
                        (start, end),
                    ));
                    let mid = choose|mid: Cfg|
                        #[trigger] mid.built(
                            context.nodes@,
                            &empty,
                            CfgStartNode::StartFunctionBody(function_definition.id),
                            CfgEndNode::EndFunctionBody(function_definition.id),
                            &function_definition.body->Some_0,
                            (start, end),
                        ) && calibrated(mid, cfg, start.0, end.0);
                    assert(start.0 == 0 && end.0 == 1);
                    assert(cfg.built_from_nothing(
                        context.nodes@,
                        function_definition.id,
                        &function_definition.body->Some_0,
                        (start, end),
                    ));
                }
                Some((cfg, start, end))
            },
            None => None,
        }
    }
}

impl CfgNodeId {
    /// The direct successors of the node, in the order in which the edges
    /// were made.
    pub fn children(&self, cfg: &Cfg) -> (r: Vec<CfgNodeId>)
        ensures
            r@.len() == cfg.succ(self.0).len(),
            forall|i: int| 0 <= i < r@.len() ==> (#[trigger] r@[i]).0 == cfg.succ(self.0)[i],
    {
        cfg.raw_successors(*self)
    }
}

impl Default for Cfg {
    fn default() -> (r: Self)
        ensures
            r.wf(),
            r.next() == 0,
            r.queue().len() == 0,
            forall|k: usize| !r.live(k),
    {
        Cfg::new()
    }
}

/// Two graphs in which every node with an identity below `upto` has as
/// many successors have as many edges below `upto`.
pub proof fn lemma_same_out_degrees(a: Cfg, b: Cfg, upto: nat)
    requires
        upto <= usize::MAX,
        forall|k: usize| k < upto ==> (#[trigger] b.succ(k)).len() == a.succ(k).len(),
    ensures
        b.edge_total(upto) == a.edge_total(upto),
    decreases upto,
{
    if upto > 0 {
        lemma_same_out_degrees(a, b, (upto - 1) as nat);
        assert(b.succ((upto - 1) as usize).len() == a.succ((upto - 1) as usize).len());
    }
}

/// The graph of a function whose body is a straight-line block of `n`
/// statements has `n + 4` nodes, the statements and four sentinels, and
/// `n + 3` edges. If none of the statements is a `break`, a `continue` or a
/// `return`, the graph is the chain of the body.
pub proof fn lemma_straight_line_function<'a>(
    m: Map<NodeID, AstNodeRef<'a>>,
    g: Cfg,
    function_id: NodeID,
    body: &Block,
    ends: (CfgNodeId, CfgNodeId),
)
    requires
        g.built_from_nothing(m, function_id, body, ends),
        holds_block(m, body),
        straight_line(*body),
    ensures
        g.nodes@.len() == body.statements@.len() + 4,
        g.edge_total(g.next() as nat) == body.statements@.len() + 3,
        (forall|i: int|
            0 <= i < body.statements@.len() ==> !(#[trigger] stmt_descriptor(
                body.statements@[i],
            )).is_jump()) ==> is_chain(
            g,
            0,
            CfgNodeDescriptor::Start(CfgStartNode::StartFunctionBody(function_id)),
            CfgNodeDescriptor::End(CfgEndNode::EndFunctionBody(function_id)),
            *body,
        ),
{
    let start = CfgStartNode::StartFunctionBody(function_id);
    let end = CfgEndNode::EndFunctionBody(function_id);
    let empty = choose|empty: Cfg|
        empty.is_fresh() && #[trigger] g.built_and_calibrated(m, &empty, function_id, body, ends);
    let mid = choose|mid: Cfg|
        #[trigger] mid.built(m, &empty, start, end, body, ends) && calibrated(
            mid,
            g,
            ends.0.0,
            ends.1.0,
        );
    let n = body.statements@.len();
    assert(is_chain(mid, 0, CfgNodeDescriptor::Start(start), CfgNodeDescriptor::End(end), *body));
    assert(empty.edge_total(0) == 0);
    assert forall|k: usize| k < mid.next() implies (#[trigger] g.succ(k)).len() == mid.succ(
        k,
    ).len() by {
        if k >= 5 {
            let i = k - 5;
            assert(mid.succ((0 + 5 + i) as usize).len() == 1);
        }
    }
    lemma_same_out_degrees(mid, g, mid.next() as nat);
    if forall|i: int|
        0 <= i < n ==> !(#[trigger] stmt_descriptor(body.statements@[i])).is_jump() {
        assert forall|k: usize| #[trigger] g.succ(k) == mid.succ(k) by {
            if mid.live(k) && mid.descriptor(k).is_jump() {
                reveal(graph_inv);
                assert(k < mid.next());
                if k >= 5 {
                    let i = k - 5;
                    assert(mid.descriptor((0 + 5 + i) as usize) == stmt_descriptor(
                        body.statements@[i],
                    ));
                }
            }
        }
        assert(g.nodes@ == mid.nodes@);
    }
}

} // verus!
