use vstd::prelude::*;
use crate::ast::node::NodeID;
use crate::context::flow::expansion::{
    expanded, expansion_of, lemma_expansion_len, lemma_queue_pending_frame,
    lemma_queue_pending_front, pending, Expansion,
};
use crate::context::flow::laws::{lemma_replaced_keeps_shape, lemma_shape_extension};
use crate::context::flow::reducibles::CfgReduce;
use crate::context::flow::{
    distinct, graph_complete, graph_inv, lemma_distinct_short, lemma_distinct_without,
    lemma_without_contains, without, Cfg, CfgNode, CfgNodeDescriptor, CfgNodeId,
};
use crate::context::workspace_context::{AstNodeRef, WorkspaceContext};

verus! {

broadcast use vstd::std_specs::hash::group_hash_axioms;

/// The second graph is the first after the reducible node `c` was replaced
/// by its expansion.
///
/// * `c` has left the registry; the nodes of the expansion stand under the
///   next free identities; every other node is as it was.
/// * Every edge into `c` now leads to the entry of the expansion, at the end
///   of its source's successors; the successors of `c` have become the
///   successors of the exit, after those that the expansion gives it; no
///   edge names `c` any more.
/// * The tables hold the entries of the expansion in addition.
pub open spec fn reduced<'a>(m: Map<NodeID, AstNodeRef<'a>>, c: usize, pre: Cfg, post: Cfg) -> bool {
    let nd = pre.nodes@[c].nd;
    let n = expansion_of(m, nd, pre.next()).nds.len();
    &&& replaced(m, c, pre, post)
    &&& pre.queue().is_prefix_of(post.queue())
    &&& post.pending_total(m) + n == pre.pending_total(m) + pending(m, nd)
}

/// The second graph is the first after its first queued node was taken
/// off the queue and replaced by its expansion.
pub open spec fn stepped<'a>(m: Map<NodeID, AstNodeRef<'a>>, pre: Cfg, post: Cfg) -> bool {
    let c = pre.queue()[0];
    let n = expansion_of(m, pre.nodes@[c].nd, pre.next()).nds.len();
    &&& pre.queue().len() > 0
    &&& replaced(m, c, pre, post)
    &&& pre.queue().drop_first().is_prefix_of(post.queue())
    &&& post.pending_total(m) + n == pre.pending_total(m)
}

/// Each graph of the list, but the first, is the one before it after its
/// first queued node was taken off the queue and replaced by its
/// expansion.
pub open spec fn is_trace<'a>(m: Map<NodeID, AstNodeRef<'a>>, trace: Seq<Cfg>) -> bool {
    &&& trace.len() > 0
    &&& forall|i: int| 0 <= i < trace.len() - 1 ==> stepped(m, #[trigger] trace[i], trace[i + 1])
}

/// The second graph is the first after every queued node, and every node
/// that this brought up, was replaced by its expansion, the first queued
/// node first: a list of steps leads from the first graph to the second,
/// and the queue of the second is empty.
pub open spec fn fully_reduced<'a>(m: Map<NodeID, AstNodeRef<'a>>, pre: Cfg, post: Cfg) -> bool {
    &&& post.queue().len() == 0
    &&& exists|trace: Seq<Cfg>|
        #[trigger] is_trace(m, trace) && trace[0] == pre && trace.last().same_graph(&post)
}

/// The nodes, edges and tables of the second graph are those of the first
/// after the reducible node `c` was replaced by its expansion.
pub open spec fn replaced<'a>(m: Map<NodeID, AstNodeRef<'a>>, c: usize, pre: Cfg, post: Cfg) -> bool {
    let nd = pre.nodes@[c].nd;
    let base = pre.next();
    let x = expansion_of(m, nd, base);
    let n = x.nds.len();
    &&& post.wf()
    &&& post.next() == base + n
    &&& post.nodes@.len() + 1 == pre.nodes@.len() + n
    &&& x.edges.len() == n
    &&& n >= 2
    &&& !post.live(c)
    &&& forall|k: usize|
        #[trigger] pre.live(k) && k != c ==> post.live(k) && post.nodes@[k] == pre.nodes@[k]
    &&& forall|k: usize| #[trigger] post.live(k) ==> (pre.live(k) && k != c) || base <= k < base + n
    &&& forall|i: int|
        0 <= i < n ==> post.live((base + i) as usize) && #[trigger] post.nodes@[(base + i) as usize]
            == (CfgNode { id: CfgNodeId((base + i) as usize), nd: x.nds[i] })
    &&& forall|k: usize|
        k < base && k != c ==> #[trigger] post.succ(k) == if pre.has_edge(k, c) {
            without(pre.succ(k), c).push(base)
        } else {
            pre.succ(k)
        }
    &&& post.succ(c) == Seq::<usize>::empty()
    &&& forall|i: int|
        0 <= i < n && i != 1 ==> #[trigger] post.succ((base + i) as usize) == x.edges[i]
    &&& post.succ((base + 1) as usize) == x.edges[1] + without(pre.succ(c), c)
    &&& tables_extended(x, base, pre, post)
}

/// The tables of the second graph are those of the first with the entries
/// of the expansion added.
pub open spec fn tables_extended(x: Expansion, base: usize, pre: Cfg, post: Cfg) -> bool {
    &&& post.start_end_pairs@ == if x.paired {
        pre.start_end_pairs@.insert(base, (base + 1) as usize)
    } else {
        pre.start_end_pairs@
    }
    &&& post.start_cond_pairs@ == match x.cond {
        Some(c) => pre.start_cond_pairs@.insert(base, c),
        None => pre.start_cond_pairs@,
    }
    &&& post.cond_start_pairs@ == if x.cond_back && x.cond is Some {
        pre.cond_start_pairs@.insert(x.cond->Some_0, base)
    } else {
        pre.cond_start_pairs@
    }
    &&& post.start_loop_expr@ == match x.update {
        Some(u) => pre.start_loop_expr@.insert(base, u),
        None => pre.start_loop_expr@,
    }
    &&& post.loop_expr_start@ == match x.update {
        Some(u) => pre.loop_expr_start@.insert(u, base),
        None => pre.loop_expr_start@,
    }
}

impl Cfg {
    /// Every node that is still to be expanded is queued, but for `c`.
    pub open spec fn complete_except(&self, c: usize) -> bool {
        forall|k: usize|
            #[trigger] self.live(k) && self.descriptor(k).is_reducible() ==> k == c
                || self.queue().contains(k)
    }

    /// Takes a reducible node out of the graph, with every edge that
    /// starts or ends at it, and hands back what it stood for, the nodes
    /// that led to it and the nodes it led to (itself left out of both).
    fn detach(&mut self, c: CfgNodeId) -> (r: (CfgNodeDescriptor, Vec<CfgNodeId>, Vec<CfgNodeId>))
        requires
            old(self).inv(),
            old(self).live(c.0),
            !old(self).queue().contains(c.0),
            old(self).complete_except(c.0),
        ensures
            final(self).wf(),
            final(self).next() == old(self).next(),
            final(self).nodes@ == old(self).nodes@.remove(c.0),
            forall|k: usize| k != c.0 ==> #[trigger] final(self).succ(k) == without(old(self).succ(k), c.0),
            final(self).succ(c.0) == Seq::<usize>::empty(),
            final(self).reduction_queue == old(self).reduction_queue,
            final(self).same_tables(old(self)),
            r.0 == old(self).nodes@[c.0].nd,
            forall|i: int|
                0 <= i < r.1@.len() ==> (#[trigger] r.1@[i]).0 != c.0 && final(self).live(r.1@[i].0)
                    && old(self).has_edge(r.1@[i].0, c.0),
            forall|i: int, j: int| 0 <= i < j < r.1@.len() ==> r.1@[i].0 < r.1@[j].0,
            forall|k: usize| k != c.0 && old(self).has_edge(k, c.0) ==> r.1@.contains(CfgNodeId(k)),
            r.2@.len() == old(self).succ(c.0).len(),
            forall|i: int| 0 <= i < r.2@.len() ==> (#[trigger] r.2@[i]).0 == old(self).succ(c.0)[i],
            forall|i: int|
                0 <= i < r.2@.len() && r.2@[i].0 != c.0 ==> final(self).live((#[trigger] r.2@[i]).0),
    {
        proof {
            reveal(graph_inv);
            reveal(graph_complete);
        }
        let nd = match self.nodes.get(&c.0) {
            Some(node) => node.nd,
            None => CfgNodeDescriptor::Block(crate::context::flow::reducibles::CfgBlock { block: 0 }),
        };
        // Get the predecessors
        let all_predecessors = self.raw_predecessors(c);
        let mut predecessors: Vec<CfgNodeId> = Vec::new();
        let mut i: usize = 0;
        while i < all_predecessors.len()
            invariant
                i <= all_predecessors@.len(),
                forall|j: int| 0 <= j < predecessors@.len() ==> (#[trigger] predecessors@[j]).0 != c.0
                    && all_predecessors@.contains(predecessors@[j]),
                forall|j: int, l: int| 0 <= j < l < all_predecessors@.len() ==> all_predecessors@[j].0 < all_predecessors@[l].0,
                forall|j: int, l: int| 0 <= j < l < predecessors@.len() ==> predecessors@[j].0 < predecessors@[l].0,
                forall|j: int| 0 <= j < predecessors@.len() && i < all_predecessors@.len() ==> (#[trigger] predecessors@[j]).0 < all_predecessors@[i as int].0,
                forall|j: int| 0 <= j < i && all_predecessors@[j].0 != c.0 ==> predecessors@.contains(#[trigger] all_predecessors@[j]),
            decreases all_predecessors@.len() - i,
        {
            let ghost before = predecessors@;
            if all_predecessors[i].0 != c.0 {
                predecessors.push(all_predecessors[i]);
                assert(predecessors@[before.len() as int] == all_predecessors@[i as int]);
                assert forall|j: int| 0 <= j < i + 1 && all_predecessors@[j].0 != c.0 implies predecessors@.contains(#[trigger] all_predecessors@[j]) by {
                    if j < i {
                        let l = choose|l: int| 0 <= l < before.len() && before[l] == all_predecessors@[j];
                        assert(predecessors@[l] == all_predecessors@[j]);
                    }
                }
            }
            i += 1;
        }
        // Get the successors
        let successors = self.raw_successors(c);

        // Remove existing connections with the candidate
        self.remove_raw_edges_involving(c);
        self.nodes.remove(&c.0);
        assert(self.nodes@.dom() == old(self).nodes@.dom().remove(c.0));

        proof {
            assert forall|i: int| 0 <= i < predecessors@.len() implies (#[trigger] predecessors@[i]).0 != c.0
                && self.live(predecessors@[i].0) && old(self).has_edge(predecessors@[i].0, c.0) by {
                let p = predecessors@[i];
                let l = choose|l: int| 0 <= l < all_predecessors@.len() && all_predecessors@[l] == p;
                assert(old(self).has_edge(all_predecessors@[l].0, c.0));
                assert(old(self).succ(p.0).len() > 0);
            }
            assert forall|k: usize| k != c.0 && old(self).has_edge(k, c.0) implies predecessors@.contains(CfgNodeId(k)) by {
                assert(old(self).succ(k).len() > 0);
                assert(old(self).live(k));
                let l = choose|l: int| 0 <= l < all_predecessors@.len() && all_predecessors@[l] == CfgNodeId(k);
                assert(predecessors@.contains(all_predecessors@[l]));
            }
            assert forall|i: int| 0 <= i < successors@.len() && successors@[i].0 != c.0 implies self.live((#[trigger] successors@[i]).0) by {
                assert(old(self).live(old(self).succ(c.0)[i]));
            }
            // the invariant of what is left
            assert forall|k: usize| (#[trigger] self.succ(k)).len() > 0 implies self.live(k) by {
                if k != c.0 {
                    let y = self.succ(k)[0];
                    assert(self.succ(k).contains(y));
                    lemma_without_contains(old(self).succ(k), c.0, y);
                    assert(old(self).succ(k).len() > 0);
                }
            }
            assert forall|k: usize, i: int| 0 <= i < self.succ(k).len() implies self.live(
                #[trigger] self.succ(k)[i],
            ) by {
                if k != c.0 {
                    let y = self.succ(k)[i];
                    assert(self.succ(k).contains(y));
                    lemma_without_contains(old(self).succ(k), c.0, y);
                    let j = choose|j: int| 0 <= j < old(self).succ(k).len() && old(self).succ(k)[j] == y;
                    assert(old(self).live(old(self).succ(k)[j]));
                }
            }
            assert forall|i: int| 0 <= i < self.queue().len() implies self.live(#[trigger] self.queue()[i])
                && self.descriptor(self.queue()[i]).is_reducible() by {
                assert(old(self).queue().contains(old(self).queue()[i]));
            }
            assert forall|k: usize| distinct(#[trigger] self.succ(k)) by {
                assert(distinct(old(self).succ(k)));
                if k != c.0 {
                    lemma_distinct_without(old(self).succ(k), c.0);
                } else {
                    lemma_distinct_short(self.succ(k));
                }
            }
            assert(self.inv());
            assert(graph_complete(self.nodes@, self.reduction_queue@));
        }
        (nd, predecessors, successors)
    }

    /// Gives each of the nodes an edge to `start`.
    fn attach_predecessors(&mut self, predecessors: &Vec<CfgNodeId>, start: CfgNodeId)
        requires
            old(self).wf(),
            old(self).live(start.0),
            forall|i: int| 0 <= i < predecessors@.len() ==> old(self).live((#[trigger] predecessors@[i]).0),
            forall|i: int, j: int| 0 <= i < j < predecessors@.len() ==> predecessors@[i].0 < predecessors@[j].0,
            forall|i: int|
                0 <= i < predecessors@.len() ==> !old(self).has_edge(
                    (#[trigger] predecessors@[i]).0,
                    start.0,
                ),
        ensures
            final(self).wf(),
            final(self).nodes == old(self).nodes,
            final(self).next_available_id == old(self).next_available_id,
            final(self).reduction_queue == old(self).reduction_queue,
            final(self).same_tables(old(self)),
            forall|k: usize|
                #[trigger] final(self).succ(k) == if predecessors@.contains(CfgNodeId(k)) {
                    old(self).succ(k).push(start.0)
                } else {
                    old(self).succ(k)
                },
    {
        let n = predecessors.len();
        let mut i: usize = 0;
        while i < n
            invariant
                i <= n,
                n == predecessors@.len(),
                self.wf(),
                self.live(start.0),
                self.nodes == old(self).nodes,
                self.next_available_id == old(self).next_available_id,
                self.reduction_queue == old(self).reduction_queue,
                self.same_tables(old(self)),
                forall|j: int| 0 <= j < predecessors@.len() ==> old(self).live((#[trigger] predecessors@[j]).0),
                forall|j: int, l: int| 0 <= j < l < predecessors@.len() ==> predecessors@[j].0 < predecessors@[l].0,
                forall|j: int|
                    0 <= j < predecessors@.len() ==> !old(self).has_edge(
                        (#[trigger] predecessors@[j]).0,
                        start.0,
                    ),
                forall|k: usize|
                    #[trigger] self.succ(k) == if predecessors@.take(i as int).contains(CfgNodeId(k)) {
                        old(self).succ(k).push(start.0)
                    } else {
                        old(self).succ(k)
                    },
            decreases n - i,
        {
            let ghost before = *self;
            let pred = predecessors[i];
            assert(old(self).live(predecessors@[i as int].0));
            proof {
                let t0 = predecessors@.take(i as int);
                assert(!t0.contains(pred)) by {
                    if t0.contains(pred) {
                        let j = choose|j: int| 0 <= j < t0.len() && t0[j] == pred;
                        assert(predecessors@[j].0 < predecessors@[i as int].0);
                    }
                }
                assert(!old(self).has_edge(predecessors@[i as int].0, start.0));
                assert(self.succ(pred.0) == old(self).succ(pred.0));
            }
            self.add_flow_edge(pred, start);
            proof {
                let t0 = predecessors@.take(i as int);
                let t1 = predecessors@.take(i + 1);
                assert(t1[i as int] == pred);
                assert forall|k: usize|
                    #[trigger] self.succ(k) == if t1.contains(CfgNodeId(k)) {
                        old(self).succ(k).push(start.0)
                    } else {
                        old(self).succ(k)
                    } by {
                    if k == pred.0 {
                        assert(t1.contains(CfgNodeId(k)));
                    } else {
                        assert(self.succ(k) == before.succ(k));
                        if t0.contains(CfgNodeId(k)) {
                            let j = choose|j: int| 0 <= j < t0.len() && t0[j] == CfgNodeId(k);
                            assert(t1[j] == CfgNodeId(k));
                        }
                        if t1.contains(CfgNodeId(k)) {
                            let j = choose|j: int| 0 <= j < t1.len() && t1[j] == CfgNodeId(k);
                            assert(j < i);
                            assert(t0[j] == CfgNodeId(k));
                        }
                    }
                }
            }
            i += 1;
        }
        assert(predecessors@.take(n as int) =~= predecessors@);
    }

    /// Gives `end` an edge to each of the nodes other than `c`, in order.
    fn attach_successors(&mut self, end: CfgNodeId, successors: &Vec<CfgNodeId>, c: CfgNodeId, Ghost(targets): Ghost<Seq<usize>>)
        requires
            old(self).wf(),
            old(self).live(end.0),
            targets.len() == successors@.len(),
            forall|i: int| 0 <= i < successors@.len() ==> (#[trigger] successors@[i]).0 == targets[i],
            forall|i: int|
                0 <= i < successors@.len() && successors@[i].0 != c.0 ==> old(self).live(
                    (#[trigger] successors@[i]).0,
                ),
            old(self).succ(end.0).len() == 0,
            distinct(targets),
        ensures
            final(self).wf(),
            final(self).nodes == old(self).nodes,
            final(self).next_available_id == old(self).next_available_id,
            final(self).reduction_queue == old(self).reduction_queue,
            final(self).same_tables(old(self)),
            final(self).succ(end.0) == old(self).succ(end.0) + without(targets, c.0),
            forall|k: usize| k != end.0 ==> #[trigger] final(self).succ(k) == old(self).succ(k),
    {
        let n = successors.len();
        let mut i: usize = 0;
        assert(targets.take(0) =~= Seq::<usize>::empty());
        assert(self.succ(end.0) =~= old(self).succ(end.0) + without(targets.take(0), c.0));
        while i < n
            invariant
                i <= n,
                n == successors@.len(),
                targets.len() == successors@.len(),
                forall|j: int| 0 <= j < successors@.len() ==> (#[trigger] successors@[j]).0 == targets[j],
                self.wf(),
                self.live(end.0),
                self.nodes == old(self).nodes,
                self.next_available_id == old(self).next_available_id,
                self.reduction_queue == old(self).reduction_queue,
                self.same_tables(old(self)),
                forall|j: int|
                    0 <= j < successors@.len() && successors@[j].0 != c.0 ==> old(self).live(
                        (#[trigger] successors@[j]).0,
                    ),
                self.succ(end.0) == old(self).succ(end.0) + without(targets.take(i as int), c.0),
                forall|k: usize| k != end.0 ==> #[trigger] self.succ(k) == old(self).succ(k),
                old(self).succ(end.0).len() == 0,
                distinct(targets),
            decreases n - i,
        {
            let ghost before = *self;
            let succ = successors[i];
            assert(targets.take(i + 1).drop_last() =~= targets.take(i as int));
            assert(targets.take(i + 1).last() == succ.0);
            if succ.0 != c.0 {
                assert(old(self).live(successors@[i as int].0));
                proof {
                    let front = targets.take(i as int);
                    assert(old(self).succ(end.0) + without(front, c.0) =~= without(front, c.0));
                    lemma_without_contains(front, c.0, succ.0);
                    if front.contains(succ.0) {
                        reveal(distinct);
                        let j = choose|j: int| 0 <= j < front.len() && front[j] == succ.0;
                        assert(targets[j] == targets[i as int]);
                    }
                }
                self.add_flow_edge(end, succ);
                assert(self.succ(end.0) =~= old(self).succ(end.0) + without(
                    targets.take(i + 1),
                    c.0,
                ));
                assert(forall|k: usize| k != end.0 ==> #[trigger] self.succ(k) == before.succ(k));
            }
            i += 1;
        }
        assert(targets.take(n as int) =~= targets);
    }

    /// Adds the expansion of a reducible descriptor to the graph and
    /// returns its entry and its exit.
    fn expand(&mut self, context: &WorkspaceContext, nd: CfgNodeDescriptor) -> (r: (
        CfgNodeId,
        CfgNodeId,
    ))
        requires
            context.wf(),
            old(self).wf(),
            nd.is_reducible(),
            old(self).next() + expansion_of(context.nodes@, nd, old(self).next()).nds.len()
                <= usize::MAX,
        ensures
            expanded(context.nodes@, nd, *old(self), *final(self)),
            r.0.0 == old(self).next(),
            r.1.0 == old(self).next() + 1,
    {
        match nd {
            CfgNodeDescriptor::Block(cfg_block) => cfg_block.reduce(context, self),
            CfgNodeDescriptor::UncheckedBlock(cfg_block) => cfg_block.reduce(context, self),
            CfgNodeDescriptor::IfStatement(cfg_block) => cfg_block.reduce(context, self),
            CfgNodeDescriptor::WhileStatement(cfg_block) => cfg_block.reduce(context, self),
            CfgNodeDescriptor::ForStatement(cfg_block) => cfg_block.reduce(context, self),
            CfgNodeDescriptor::DoWhileStatement(cfg_block) => cfg_block.reduce(context, self),
            // Voids and Primitives are never reduced
            _ => {
                proof {
                    assert(false);
                }
                (CfgNodeId(0), CfgNodeId(0))
            },
        }
    }

    /// Replaces one reducible node by the subgraph of its internal control
    /// flow.
    ///
    /// The node must be in the registry, reducible and already taken off
    /// the queue; every other reducible node must be queued. The nodes that
    /// led to the candidate lead to the entry of the subgraph afterwards,
    /// and its exit leads to the nodes that the candidate led to.
    pub fn reduce(&mut self, context: &WorkspaceContext, reduction_candidate: CfgNodeId)
        requires
            context.wf(),
            old(self).inv(),
            old(self).live(reduction_candidate.0),
            old(self).descriptor(reduction_candidate.0).is_reducible(),
            !old(self).queue().contains(reduction_candidate.0),
            old(self).complete_except(reduction_candidate.0),
            old(self).next() + expansion_of(
                context.nodes@,
                old(self).descriptor(reduction_candidate.0),
                old(self).next(),
            ).nds.len() <= usize::MAX,
        ensures
            reduced(context.nodes@, reduction_candidate.0, *old(self), *final(self)),
            old(self).shaped() ==> final(self).shaped(),
    {
        let ghost m = context.nodes@;
        let ghost pre = *self;
        let ghost c = reduction_candidate.0;
        let ghost base = pre.next();
        // Take the candidate out, with its edges
        let (nd, predecessors, successors) = self.detach(reduction_candidate);
        let ghost detached = *self;
        let ghost x = expansion_of(m, nd, base);
        proof {
            reveal(graph_inv);
            assert forall|i: int| 0 <= i < pre.queue().len() implies pre.nodes@[#[trigger] pre.queue()[i]]
                == detached.nodes@[pre.queue()[i]] by {
                assert(pre.queue().contains(pre.queue()[i]));
            }
            lemma_queue_pending_frame(m, pre.nodes@, detached.nodes@, pre.queue());
        }

        // Get the (start s, end e) of the reduced cfg
        let (start_id, end_id) = self.expand(context, nd);
        let ghost grown = *self;
        proof {
            assert(grown.live(start_id.0)) by {
                assert(grown.nodes@[(base + 0) as usize].nd == x.nds[0]);
            }
            assert(grown.live(end_id.0)) by {
                assert(grown.nodes@[(base + 1) as usize].nd == x.nds[1]);
            }
            assert forall|i: int| 0 <= i < predecessors@.len() implies grown.live(
                (#[trigger] predecessors@[i]).0,
            ) by {
                assert(detached.live(predecessors@[i].0));
            }
            assert forall|i: int| 0 <= i < successors@.len() && successors@[i].0 != c implies grown.live(
                (#[trigger] successors@[i]).0,
            ) by {
                assert(detached.live(successors@[i].0));
            }
        }

        proof {
            reveal(graph_inv);
            assert forall|i: int| 0 <= i < predecessors@.len() implies !grown.has_edge(
                (#[trigger] predecessors@[i]).0,
                start_id.0,
            ) by {
                let p = predecessors@[i].0;
                assert(detached.live(p));
                assert(grown.succ(p) == detached.succ(p));
                if detached.has_edge(p, base) {
                    let j = choose|j: int|
                        0 <= j < detached.succ(p).len() && detached.succ(p)[j] == base;
                    assert(detached.live(detached.succ(p)[j]));
                }
            }
        }

        // Connect all the predecessors to `s`
        self.attach_predecessors(&predecessors, start_id);
        let ghost joined = *self;
        proof {
            reveal(graph_inv);
            crate::context::flow::expansion::lemma_exit_is_open(m, nd, base);
            let k = (base + 1) as usize;
            if predecessors@.contains(CfgNodeId(k)) {
                let i = choose|i: int| 0 <= i < predecessors@.len() && predecessors@[i] == CfgNodeId(k);
                assert(detached.live(predecessors@[i].0));
            }
            assert(grown.succ(k) == x.edges[1]);
            assert(joined.succ(end_id.0).len() == 0);
            assert(distinct(pre.succ(c)));
        }

        // Connect `e` to all the successors
        self.attach_successors(end_id, &successors, reduction_candidate, Ghost(pre.succ(c)));

        proof {
            let n = x.nds.len();
            assert forall|k: usize| k < base && k != c implies #[trigger] self.succ(k) == if pre.has_edge(
                k,
                c,
            ) {
                without(pre.succ(k), c).push(base)
            } else {
                pre.succ(k)
            } by {
                assert(self.succ(k) == joined.succ(k));
                assert(grown.succ(k) == detached.succ(k));
                assert(detached.succ(k) == without(pre.succ(k), c));
                if pre.has_edge(k, c) {
                    assert(predecessors@.contains(CfgNodeId(k)));
                } else {
                    if predecessors@.contains(CfgNodeId(k)) {
                        let i = choose|i: int| 0 <= i < predecessors@.len() && predecessors@[i] == CfgNodeId(k);
                        assert(pre.has_edge(predecessors@[i].0, c));
                    }
                    crate::context::flow::lemma_without_absent(pre.succ(k), c);
                }
            }
            assert forall|k: usize| k >= base implies !predecessors@.contains(CfgNodeId(k)) by {
                if predecessors@.contains(CfgNodeId(k)) {
                    let i = choose|i: int| 0 <= i < predecessors@.len() && predecessors@[i] == CfgNodeId(k);
                    assert(detached.live(predecessors@[i].0));
                    assert(pre.live(k));
                }
            }
            assert forall|i: int| 0 <= i < n && i != 1 implies #[trigger] self.succ((base + i) as usize)
                == x.edges[i] by {
                let k = (base + i) as usize;
                assert(self.succ(k) == joined.succ(k));
                assert(!predecessors@.contains(CfgNodeId(k)));
                assert(grown.succ(k) == x.edges[i]);
            }
            assert(self.succ((base + 1) as usize) == x.edges[1] + without(pre.succ(c), c)) by {
                let k = (base + 1) as usize;
                assert(!predecessors@.contains(CfgNodeId(k)));
                assert(grown.succ(k) == x.edges[1]);
            }
            assert(self.succ(c) == Seq::<usize>::empty()) by {
                assert(c < base);
                assert(grown.succ(c) == detached.succ(c));
                if predecessors@.contains(CfgNodeId(c)) {
                    let i = choose|i: int| 0 <= i < predecessors@.len() && predecessors@[i] == CfgNodeId(c);
                    assert(predecessors@[i].0 != c);
                }
                assert(c != end_id.0);
            }
            assert(!self.live(c));
            assert forall|k: usize| #[trigger] pre.live(k) && k != c implies self.live(k)
                && self.nodes@[k] == pre.nodes@[k] by {
                assert(detached.live(k));
            }
            assert forall|k: usize| #[trigger] self.live(k) implies (pre.live(k) && k != c) || base
                <= k < base + n by {
                assert(grown.live(k));
            }
            assert(pre.queue().is_prefix_of(self.queue()));
            assert(replaced(m, c, pre, *self));
            if pre.shaped() {
                lemma_replaced_keeps_shape(m, c, pre, *self);
            }
        }
    }

    /// Takes the first node off the queue and replaces it by its
    /// expansion. Returns `false`, having changed nothing, when the queue
    /// is empty.
    pub fn reduce_next(&mut self, context: &WorkspaceContext) -> (r: bool)
        requires
            context.wf(),
            old(self).wf(),
            old(self).next() + old(self).pending_total(context.nodes@) <= usize::MAX,
        ensures
            r == (old(self).queue().len() > 0),
            r ==> stepped(context.nodes@, *old(self), *final(self)),
            !r ==> final(self).same_graph(old(self)),
            final(self).wf(),
            old(self).shaped() ==> final(self).shaped(),
    {
        let ghost m = context.nodes@;
        let popped = self.reduction_queue.pop_front();
        let reduction_candidate = match popped {
            Some(c) => c,
            None => {
                proof {
                    if old(self).shaped() {
                        lemma_shape_extension(*old(self), *self);
                    }
                }
                return false;
            },
        };
        let ghost popped_state = *self;
        proof {
            if old(self).shaped() {
                lemma_shape_extension(*old(self), *self);
            }
            reveal(graph_inv);
            reveal(graph_complete);
            let q0 = old(self).queue();
            let q1 = self.queue();
            assert(q1 =~= q0.drop_first());
            assert(q0[0] == reduction_candidate);
            assert forall|i: int| 0 <= i < q1.len() implies self.live(#[trigger] q1[i])
                && self.descriptor(q1[i]).is_reducible() by {
                assert(q1[i] == q0[i + 1]);
            }
            assert(q1.no_duplicates());
            assert(!q1.contains(reduction_candidate)) by {
                if q1.contains(reduction_candidate) {
                    let i = choose|i: int| 0 <= i < q1.len() && q1[i] == reduction_candidate;
                    assert(q0[i + 1] == q0[0]);
                }
            }
            assert forall|k: usize|
                #[trigger] self.live(k) && self.descriptor(k).is_reducible() implies k
                == reduction_candidate || q1.contains(k) by {
                assert(q0.contains(k));
                let i = choose|i: int| 0 <= i < q0.len() && q0[i] == k;
                if i > 0 {
                    assert(q1[i - 1] == k);
                }
            }
            lemma_queue_pending_front(m, old(self).nodes@, q0);
            lemma_expansion_len(m, self.descriptor(reduction_candidate), self.next());
        }
        self.reduce(context, CfgNodeId(reduction_candidate));
        true
    }

    /// Reduces until no reducible node is left, the queue's first node
    /// first.
    pub fn reduce_all(&mut self, context: &WorkspaceContext)
        requires
            context.wf(),
            old(self).wf(),
            old(self).next() + old(self).pending_total(context.nodes@) <= usize::MAX,
        ensures
            final(self).wf(),
            final(self).queue().len() == 0,
            final(self).no_reducible(),
            final(self).next() == old(self).next() + old(self).pending_total(context.nodes@),
            fully_reduced(context.nodes@, *old(self), *final(self)),
            old(self).queue().len() == 0 ==> final(self).same_graph(old(self)),
            old(self).shaped() ==> final(self).shaped(),
            forall|k: usize|
                #[trigger] old(self).live(k) && !old(self).descriptor(k).is_reducible()
                    ==> final(self).live(k) && final(self).nodes@[k] == old(self).nodes@[k],
            forall|k: usize|
                #[trigger] final(self).live(k) ==> k >= old(self).next() || (old(self).live(k)
                    && !old(self).descriptor(k).is_reducible()),
    {
        let ghost m = context.nodes@;
        let ghost total = old(self).next() + old(self).pending_total(m);
        let mut more = true;
        let ghost trace: Seq<Cfg> = seq![*self];
        while more
            invariant
                context.wf(),
                m == context.nodes@,
                is_trace(m, trace),
                trace[0] == *old(self),
                trace.last().same_graph(self),
                self.wf(),
                self.next() + self.pending_total(m) == total,
                total <= usize::MAX,
                self.next() >= old(self).next(),
                !more ==> self.queue().len() == 0,
                old(self).queue().len() == 0 ==> self.same_graph(old(self)),
                old(self).shaped() ==> self.shaped(),
                forall|k: usize|
                    #[trigger] old(self).live(k) && !old(self).descriptor(k).is_reducible()
                        ==> self.live(k) && self.nodes@[k] == old(self).nodes@[k],
                forall|k: usize|
                    #[trigger] self.live(k) ==> k >= old(self).next() || (old(self).live(k) && (
                    !old(self).descriptor(k).is_reducible() || self.nodes@[k] == old(self).nodes@[k])),
            decreases self.pending_total(m), more as int,
        {
            let ghost before = *self;
            more = self.reduce_next(context);
            proof {
                if more {
                    lemma_expansion_len(m, before.descriptor(before.queue()[0]), before.next());
                    let last = trace.last();
                    assert(stepped(m, last, *self)) by {
                        assert(forall|k: usize| #[trigger] last.succ(k) == before.succ(k));
                    }
                    let longer = trace.push(*self);
                    assert forall|i: int| 0 <= i < longer.len() - 1 implies stepped(
                        m,
                        #[trigger] longer[i],
                        longer[i + 1],
                    ) by {
                        if i < trace.len() - 1 {
                            assert(stepped(m, trace[i], trace[i + 1]));
                        }
                    }
                    trace = longer;
                }
                assert forall|k: usize|
                    #[trigger] old(self).live(k) && !old(self).descriptor(k).is_reducible()
                    implies self.live(k) && self.nodes@[k] == old(self).nodes@[k] by {
                    assert(before.live(k));
                    if more {
                        reveal(graph_inv);
                        assert(before.descriptor(before.queue()[0]).is_reducible());
                    }
                }
                assert forall|k: usize| #[trigger] self.live(k) implies k >= old(self).next() || (
                old(self).live(k) && (!old(self).descriptor(k).is_reducible() || self.nodes@[k]
                    == old(self).nodes@[k])) by {
                    if before.live(k) {
                    }
                }
            }
        }
        proof {
            reveal(graph_inv);
            reveal(graph_complete);
            assert forall|k: usize| #[trigger] self.live(k) implies !self.descriptor(k).is_reducible() by {
                if self.descriptor(k).is_reducible() {
                    assert(self.queue().contains(k));
                }
            }
            assert(is_trace(m, trace) && trace[0] == *old(self) && trace.last().same_graph(self));
        }
    }

    /// The two graphs have the same nodes, edges, queue, tables and next
    /// free identity.
    pub open spec fn same_graph(&self, other: &Cfg) -> bool {
        &&& self.nodes@ == other.nodes@
        &&& self.adj_list@ == other.adj_list@
        &&& self.next() == other.next()
        &&& self.queue() == other.queue()
        &&& self.same_tables(other)
    }

    /// No node of the registry is still to be expanded.
    pub open spec fn no_reducible(&self) -> bool {
        forall|k: usize| #[trigger] self.live(k) ==> !self.descriptor(k).is_reducible()
    }
}

} // verus!
