use vstd::prelude::*;
use crate::ast::node::NodeID;
use crate::context::flow::accept::is_seed;
use crate::context::flow::expansion::{expansion_of, for_cond_offset, lemma_exit_is_open};
use crate::context::flow::laws::lemma_if_converges;
use crate::context::flow::reach::lemma_reach_on;
use crate::context::flow::reduction::{is_trace, replaced, stepped};
use crate::context::flow::utils::{calibrated, lemma_reach_self, lemma_reach_step, reachable};
use crate::context::flow::voids::{CfgEndNode, CfgStartNode};
use crate::context::flow::{
    graph_inv, lemma_queued_is_live, lemma_without_contains, without, Cfg, CfgNodeDescriptor,
};
use crate::context::workspace_context::AstNodeRef;

verus! {

/// Whether the node `k` of the `i`-th graph of a list of reduction steps
/// lies within the construct whose start sentinel is `s`: it was made when
/// that construct was expanded, the two sentinels included, or when a node
/// was expanded that lay within the construct.
pub open spec fn within<'a>(
    m: Map<NodeID, AstNodeRef<'a>>,
    trace: Seq<Cfg>,
    i: int,
    s: usize,
    k: usize,
) -> bool
    decreases i,
{
    if i <= 0 {
        false
    } else {
        let pre = trace[i - 1];
        let c = pre.queue()[0];
        let base = pre.next();
        let n = expansion_of(m, pre.nodes@[c].nd, base).nds.len();
        if base <= k < base + n {
            s == base || within(m, trace, i - 1, s, c)
        } else {
            within(m, trace, i - 1, s, k)
        }
    }
}

/// What holds of a node `k` that lies within the construct that starts at
/// `s`: the end sentinel of the construct, which has the next identity, is
/// in the registry; and unless `k` is that end sentinel, every edge out of
/// `k` leads to a node within the construct.
pub open spec fn region_ok(g: Cfg, w: spec_fn(usize, usize) -> bool, s: usize, k: usize) -> bool {
    &&& s < usize::MAX
    &&& g.live((s + 1) as usize)
    &&& !g.descriptor((s + 1) as usize).is_reducible()
    &&& k != s + 1 ==> forall|j: int| 0 <= j < g.succ(k).len() ==> w(s, #[trigger] g.succ(k)[j])
}

/// Every construct is left through its end sentinel only.
pub open spec fn closed_regions(g: Cfg, w: spec_fn(usize, usize) -> bool) -> bool {
    forall|s: usize, k: usize| #[trigger] w(s, k) && g.live(k) ==> region_ok(g, w, s, k)
}

/// What lies within what after a step: the new nodes lie within the
/// construct that they make up and within whatever the node that they
/// replace lay within.
pub open spec fn region_after<'a>(
    m: Map<NodeID, AstNodeRef<'a>>,
    pre: Cfg,
    c: usize,
    w: spec_fn(usize, usize) -> bool,
) -> spec_fn(usize, usize) -> bool {
    let base = pre.next();
    let n = expansion_of(m, pre.nodes@[c].nd, base).nds.len();
    |s: usize, k: usize|
        if base <= k < base + n {
            s == base || w(s, c)
        } else {
            w(s, k)
        }
}

/// Every edge of an expansion leads to a node of the expansion other than
/// the entry, and the exit is an end sentinel.
proof fn lemma_edges_stay<'a>(
    m: Map<NodeID, AstNodeRef<'a>>,
    nd: CfgNodeDescriptor,
    base: usize,
    i: int,
    j: int,
)
    requires
        nd.is_reducible(),
        0 <= i < expansion_of(m, nd, base).nds.len(),
        base + expansion_of(m, nd, base).nds.len() <= usize::MAX,
        0 <= j < expansion_of(m, nd, base).edges[i].len(),
    ensures
        base < expansion_of(m, nd, base).edges[i][j] < base + expansion_of(m, nd, base).nds.len(),
        expansion_of(m, nd, base).nds.len() >= 2,
        !expansion_of(m, nd, base).nds[1].is_reducible(),
{
}

/// A reduction leaves every construct closed.
pub proof fn lemma_step_keeps_regions<'a>(
    m: Map<NodeID, AstNodeRef<'a>>,
    c: usize,
    pre: Cfg,
    post: Cfg,
    w: spec_fn(usize, usize) -> bool,
)
    requires
        pre.inv(),
        pre.reducible(c),
        replaced(m, c, pre, post),
        closed_regions(pre, w),
    ensures
        closed_regions(post, region_after(m, pre, c, w)),
{
    reveal(graph_inv);
    let base = pre.next();
    let nd = pre.nodes@[c].nd;
    let x = expansion_of(m, nd, base);
    let n = x.nds.len() as int;
    let w2 = region_after(m, pre, c, w);
    lemma_exit_is_open(m, nd, base);
    assert(post.nodes@[(base + 1) as usize].nd == x.nds[1]);
    assert forall|s: usize, k: usize| #[trigger] w2(s, k) && post.live(k) implies region_ok(
        post,
        w2,
        s,
        k,
    ) by {
        if pre.live(k) && k != c {
            assert(k < base);
            assert(w(s, k));
            assert(region_ok(pre, w, s, k));
            let e = (s + 1) as usize;
            assert(pre.live(e) && e != c);
            assert(post.nodes@[e] == pre.nodes@[e]);
            if k != s + 1 {
                assert forall|j: int| 0 <= j < post.succ(k).len() implies w2(
                    s,
                    #[trigger] post.succ(k)[j],
                ) by {
                    let t = post.succ(k)[j];
                    if pre.has_edge(k, c) {
                        let j0 = choose|j0: int| 0 <= j0 < pre.succ(k).len() && pre.succ(k)[j0] == c;
                        assert(w(s, pre.succ(k)[j0]));
                        let kept = without(pre.succ(k), c);
                        if j < kept.len() {
                            assert(kept.contains(kept[j]));
                            lemma_without_contains(pre.succ(k), c, t);
                            let j1 = choose|j1: int|
                                0 <= j1 < pre.succ(k).len() && pre.succ(k)[j1] == t;
                            assert(w(s, pre.succ(k)[j1]));
                            assert(pre.live(pre.succ(k)[j1]));
                        } else {
                            assert(t == base);
                        }
                    } else {
                        assert(w(s, pre.succ(k)[j]));
                        assert(pre.live(pre.succ(k)[j]));
                    }
                }
            }
        } else {
            let i = k - base;
            assert(0 <= i < n);
            if s != base {
                assert(w(s, c));
                assert(region_ok(pre, w, s, c));
                let e = (s + 1) as usize;
                assert(pre.live(e) && e != c);
                assert(post.nodes@[e] == pre.nodes@[e]);
            }
            if k != s + 1 {
                assert forall|j: int| 0 <= j < post.succ(k).len() implies w2(
                    s,
                    #[trigger] post.succ(k)[j],
                ) by {
                    let t = post.succ(k)[j];
                    if i == 1 {
                        let kept = without(pre.succ(c), c);
                        assert(post.succ(k) =~= kept);
                        assert(kept.contains(t));
                        lemma_without_contains(pre.succ(c), c, t);
                        let j1 = choose|j1: int| 0 <= j1 < pre.succ(c).len() && pre.succ(c)[j1] == t;
                        assert(w(s, pre.succ(c)[j1]));
                        assert(pre.live(pre.succ(c)[j1]));
                    } else {
                        assert(post.succ((base + i) as usize) == x.edges[i]);
                        lemma_edges_stay(m, nd, base, i, j);
                    }
                }
            }
        }
    }
}

/// The assignment tells of every node of the `i`-th graph of the list
/// within which constructs it lies.
pub open spec fn tells_regions<'a>(
    w: spec_fn(usize, usize) -> bool,
    m: Map<NodeID, AstNodeRef<'a>>,
    trace: Seq<Cfg>,
    i: int,
) -> bool {
    forall|s: usize, k: usize| #[trigger] w(s, k) == within(m, trace, i, s, k)
}

/// In the `i`-th graph of the list every construct is left through its end
/// sentinel only.
pub open spec fn regions_closed_at<'a>(m: Map<NodeID, AstNodeRef<'a>>, trace: Seq<Cfg>, i: int) -> bool {
    exists|w: spec_fn(usize, usize) -> bool|
        #[trigger] closed_regions(trace[i], w) && tells_regions(w, m, trace, i)
}

/// Along a list of reduction steps every construct stays closed.
pub proof fn lemma_steps_keep_regions<'a>(m: Map<NodeID, AstNodeRef<'a>>, trace: Seq<Cfg>, i: int)
    requires
        is_trace(m, trace),
        trace[0].inv(),
        0 <= i < trace.len(),
    ensures
        trace[i].inv(),
        regions_closed_at(m, trace, i),
    decreases i,
{
    if i == 0 {
        let w = |s: usize, k: usize| false;
        assert(closed_regions(trace[0], w) && tells_regions(w, m, trace, 0));
    } else {
        lemma_steps_keep_regions(m, trace, i - 1);
        let pre = trace[i - 1];
        let post = trace[i];
        let c = pre.queue()[0];
        assert(stepped(m, pre, trace[i - 1 + 1]));
        lemma_queued_is_live(pre, 0);
        let w0 = choose|w: spec_fn(usize, usize) -> bool|
            #[trigger] closed_regions(trace[i - 1], w) && tells_regions(w, m, trace, i - 1);
        lemma_step_keeps_regions(m, c, pre, post, w0);
        let w2 = region_after(m, pre, c, w0);
        assert forall|s: usize, k: usize| #[trigger] w2(s, k) == within(m, trace, i, s, k) by {
            assert(w0(s, c) == within(m, trace, i - 1, s, c));
            assert(w0(s, k) == within(m, trace, i - 1, s, k));
        }
        assert(closed_regions(trace[i], w2) && tells_regions(w2, m, trace, i));
    }
}

/// In a graph that reduction has built, and in which the flow out of the
/// jumps was corrected thereafter, a construct is left through its end
/// sentinel or by a jump, and in no other way: an edge out of a node that
/// lies within the construct, and is neither the end sentinel of the
/// construct nor a `break`, a `continue` or a `return`, leads to a node
/// within the construct.
pub proof fn lemma_left_through_end<'a>(
    m: Map<NodeID, AstNodeRef<'a>>,
    before: Cfg,
    mid: Cfg,
    g: Cfg,
    start: CfgStartNode,
    end: CfgEndNode,
    block: NodeID,
    ends: (usize, usize),
    trace: Seq<Cfg>,
    s: usize,
    k: usize,
    j: int,
)
    requires
        is_seed(before, trace[0], start, end, block),
        is_trace(m, trace),
        trace.last().same_graph(&mid),
        calibrated(mid, g, ends.0, ends.1),
        within(m, trace, trace.len() - 1, s, k),
        g.live(k),
        k != s + 1,
        !g.descriptor(k).is_jump(),
        0 <= j < g.succ(k).len(),
    ensures
        within(m, trace, trace.len() - 1, s, g.succ(k)[j]),
        s < usize::MAX && g.live((s + 1) as usize),
{
    let i = trace.len() - 1;
    let last = trace.last();
    lemma_steps_keep_regions(m, trace, i);
    let w = choose|w: spec_fn(usize, usize) -> bool|
        #[trigger] closed_regions(trace[i], w) && tells_regions(w, m, trace, i);
    assert(w(s, k) == within(m, trace, i, s, k));
    assert(last.live(k));
    assert(region_ok(last, w, s, k));
    assert(g.succ(k) == mid.succ(k));
    assert(mid.succ(k) == last.succ(k));
    let t = last.succ(k)[j];
    assert(w(s, t));
    assert(w(s, t) == within(m, trace, i, s, t));
}

/// How far the node with offset `i` in the expansion of a reducible node
/// is from the exit, counted so that every node but the exit has an edge to
/// a node that is nearer: the exit is at 0.
pub open spec fn way_out<'a>(m: Map<NodeID, AstNodeRef<'a>>, nd: CfgNodeDescriptor, i: int) -> int {
    let n = expansion_of(m, nd, 0).nds.len() as int;
    if i == 1 {
        0
    } else if i == 0 {
        n - 1
    } else {
        match nd {
            CfgNodeDescriptor::Block(_) | CfgNodeDescriptor::UncheckedBlock(_) => n - i,
            CfgNodeDescriptor::IfStatement(_) => if i == 5 {
                1
            } else if i == 7 {
                2
            } else if i == 4 {
                3
            } else if i == 3 {
                4
            } else if i == 6 {
                5
            } else if i == 2 {
                6
            } else if i == 9 {
                7
            } else if i == 10 {
                8
            } else {
                9
            },
            CfgNodeDescriptor::WhileStatement(_) => if i == 3 {
                1
            } else if i == 6 {
                2
            } else if i == 2 {
                3
            } else if i == 5 {
                4
            } else if i == 7 {
                5
            } else {
                6
            },
            CfgNodeDescriptor::DoWhileStatement(_) => if i == 5 {
                1
            } else if i == 7 {
                2
            } else if i == 4 {
                3
            } else if i == 3 {
                4
            } else if i == 6 {
                5
            } else {
                6
            },
            CfgNodeDescriptor::ForStatement(r) => {
                let s = *m[r.for_statement]->ForStatement_0;
                let hi: int = if s.initialization_expression is Some {
                    1
                } else {
                    0
                };
                let hc: int = if s.condition is Some {
                    1
                } else {
                    0
                };
                let hu: int = if s.loop_expression is Some {
                    1
                } else {
                    0
                };
                if i == 5 {
                    1
                } else if i == 4 {
                    2 + hc
                } else if i == 3 {
                    3 + hc
                } else if i == 9 {
                    3 + hc
                } else if i == 2 {
                    4 + hc + hi
                } else if i == 8 {
                    4 + hc + hu
                } else if i == 7 {
                    5 + hc + hu
                } else if i == 10 {
                    6 + hc + hu
                } else if i == 6 {
                    7 + hc + hu
                } else if i == 11 && hi == 1 {
                    4 + hc
                } else if i == for_cond_offset(s) && hc == 1 {
                    2
                } else {
                    4 + hc
                }
            },
            _ => 0,
        }
    }
}

/// Every node of an expansion but the exit has an edge to a node of the
/// expansion that is nearer to the exit.
proof fn lemma_way_out<'a>(m: Map<NodeID, AstNodeRef<'a>>, nd: CfgNodeDescriptor, base: usize, i: int)
    requires
        nd.is_reducible(),
        0 <= i < expansion_of(m, nd, base).nds.len(),
        i != 1,
        base + expansion_of(m, nd, base).nds.len() <= usize::MAX,
    ensures
        ({
            let x = expansion_of(m, nd, base);
            let n = x.nds.len() as int;
            &&& expansion_of(m, nd, 0).nds.len() == n
            &&& 0 <= way_out(m, nd, i) < n
            &&& way_out(m, nd, 1) == 0
            &&& exists|j: int|
                0 <= j < x.edges[i].len() && base < #[trigger] x.edges[i][j] < base + n && way_out(
                    m,
                    nd,
                    x.edges[i][j] - base,
                ) < way_out(m, nd, i)
        }),
{
    let x = expansion_of(m, nd, base);
    let n = x.nds.len() as int;
    assert(x.edges[i].len() >= 1);
    let j: int = if x.edges[i].len() == 2 && way_out(m, nd, x.edges[i][1] - base) < way_out(
        m,
        nd,
        i,
    ) {
        1
    } else {
        0
    };
    assert(0 <= j < x.edges[i].len() && base < x.edges[i][j] < base + n && way_out(
        m,
        nd,
        x.edges[i][j] - base,
    ) < way_out(m, nd, i));
}

/// The node has an edge to a node that is nearer to the end of the
/// construct that starts at `s`.
pub open spec fn steps_down(g: Cfg, d: spec_fn(usize, usize) -> nat, s: usize, k: usize) -> bool {
    exists|j: int| 0 <= j < g.succ(k).len() && d(s, #[trigger] g.succ(k)[j]) < d(s, k)
}

/// From every node within a construct, but its end sentinel, an edge leads
/// nearer to the end sentinel.
pub open spec fn draining(
    g: Cfg,
    w: spec_fn(usize, usize) -> bool,
    d: spec_fn(usize, usize) -> nat,
) -> bool {
    forall|s: usize, k: usize|
        #[trigger] w(s, k) && g.live(k) && k != s + 1 ==> steps_down(g, d, s, k)
}

/// The distances after a step: the new nodes take the distance of the node
/// that they replace and the distances above it, by their way out, and
/// whatever was as far or farther moves up accordingly.
pub open spec fn distance_after<'a>(
    m: Map<NodeID, AstNodeRef<'a>>,
    pre: Cfg,
    c: usize,
    d: spec_fn(usize, usize) -> nat,
) -> spec_fn(usize, usize) -> nat {
    let base = pre.next();
    let nd = pre.nodes@[c].nd;
    let n = expansion_of(m, nd, base).nds.len();
    |s: usize, k: usize|
        if base <= k < base + n {
            if s == base {
                way_out(m, nd, k - base) as nat
            } else {
                (d(s, c) + way_out(m, nd, k - base)) as nat
            }
        } else if d(s, k) >= d(s, c) {
            d(s, k) + n
        } else {
            d(s, k)
        }
}

/// A reduction leaves every construct draining towards its end sentinel.
pub proof fn lemma_step_keeps_draining<'a>(
    m: Map<NodeID, AstNodeRef<'a>>,
    c: usize,
    pre: Cfg,
    post: Cfg,
    w: spec_fn(usize, usize) -> bool,
    d: spec_fn(usize, usize) -> nat,
)
    requires
        pre.inv(),
        pre.reducible(c),
        replaced(m, c, pre, post),
        closed_regions(pre, w),
        draining(pre, w, d),
    ensures
        draining(post, region_after(m, pre, c, w), distance_after(m, pre, c, d)),
{
    reveal(graph_inv);
    let base = pre.next();
    let nd = pre.nodes@[c].nd;
    let x = expansion_of(m, nd, base);
    let n = x.nds.len() as int;
    let w2 = region_after(m, pre, c, w);
    let d2 = distance_after(m, pre, c, d);
    lemma_exit_is_open(m, nd, base);
    lemma_way_out(m, nd, base, 0);
    assert forall|s: usize, k: usize|
        #[trigger] w2(s, k) && post.live(k) && k != s + 1 implies steps_down(post, d2, s, k) by {
        if pre.live(k) && k != c {
            assert(k < base);
            assert(w(s, k));
            assert(region_ok(pre, w, s, k));
            assert(s != base);
            assert(steps_down(pre, d, s, k));
            let j0 = choose|j: int| 0 <= j < pre.succ(k).len() && d(s, #[trigger] pre.succ(k)[j]) < d(s, k);
            let t = pre.succ(k)[j0];
            assert(pre.live(t));
            if t == c {
                let kept = without(pre.succ(k), c);
                let j1 = kept.len() as int;
                assert(post.succ(k)[j1] == base);
                assert(d2(s, post.succ(k)[j1]) < d2(s, k));
            } else {
                lemma_without_contains(pre.succ(k), c, t);
                assert(pre.succ(k).contains(t));
                assert(post.succ(k).contains(t)) by {
                    if pre.has_edge(k, c) {
                        let kept = without(pre.succ(k), c);
                        let j2 = choose|j2: int| 0 <= j2 < kept.len() && kept[j2] == t;
                        assert(kept.push(base)[j2] == t);
                    }
                }
                let j1 = choose|j1: int| 0 <= j1 < post.succ(k).len() && post.succ(k)[j1] == t;
                assert(d2(s, post.succ(k)[j1]) < d2(s, k));
            }
        } else {
            let i = k - base;
            assert(0 <= i < n);
            if i == 1 {
                assert(s != base);
                assert(w(s, c));
                assert(region_ok(pre, w, s, c));
                assert(c != s + 1);
                assert(steps_down(pre, d, s, c));
                let j0 = choose|j: int| 0 <= j < pre.succ(c).len() && d(s, #[trigger] pre.succ(c)[j]) < d(s, c);
                let t = pre.succ(c)[j0];
                assert(pre.live(t));
                assert(t != c);
                let kept = without(pre.succ(c), c);
                assert(post.succ(k) =~= kept);
                lemma_without_contains(pre.succ(c), c, t);
                assert(pre.succ(c).contains(t));
                let j1 = choose|j1: int| 0 <= j1 < kept.len() && kept[j1] == t;
                assert(d2(s, post.succ(k)[j1]) < d2(s, k));
            } else {
                assert(post.succ((base + i) as usize) == x.edges[i]);
                lemma_way_out(m, nd, base, i);
                let j1 = choose|j: int|
                    0 <= j < x.edges[i].len() && base < #[trigger] x.edges[i][j] < base + n
                        && way_out(m, nd, x.edges[i][j] - base) < way_out(m, nd, i);
                assert(d2(s, post.succ(k)[j1]) < d2(s, k));
            }
        }
    }
}

/// In the `i`-th graph of the list every construct is left through its end
/// sentinel only, and from every node within a construct an edge leads
/// nearer to that end sentinel.
pub open spec fn regions_drain_at<'a>(m: Map<NodeID, AstNodeRef<'a>>, trace: Seq<Cfg>, i: int) -> bool {
    exists|w: spec_fn(usize, usize) -> bool, d: spec_fn(usize, usize) -> nat|
        #[trigger] draining(trace[i], w, d) && closed_regions(trace[i], w) && tells_regions(
            w,
            m,
            trace,
            i,
        )
}

/// Along a list of reduction steps every construct stays closed and
/// draining towards its end sentinel.
pub proof fn lemma_steps_keep_draining<'a>(m: Map<NodeID, AstNodeRef<'a>>, trace: Seq<Cfg>, i: int)
    requires
        is_trace(m, trace),
        trace[0].inv(),
        0 <= i < trace.len(),
    ensures
        trace[i].inv(),
        regions_drain_at(m, trace, i),
    decreases i,
{
    if i == 0 {
        let w = |s: usize, k: usize| false;
        let d = |s: usize, k: usize| 0nat;
        assert(draining(trace[0], w, d) && closed_regions(trace[0], w) && tells_regions(
            w,
            m,
            trace,
            0,
        ));
    } else {
        lemma_steps_keep_draining(m, trace, i - 1);
        let pre = trace[i - 1];
        let post = trace[i];
        let c = pre.queue()[0];
        assert(stepped(m, pre, trace[i - 1 + 1]));
        lemma_queued_is_live(pre, 0);
        let (w0, d0) = choose|w: spec_fn(usize, usize) -> bool, d: spec_fn(usize, usize) -> nat|
            #[trigger] draining(trace[i - 1], w, d) && closed_regions(trace[i - 1], w)
                && tells_regions(w, m, trace, i - 1);
        lemma_step_keeps_regions(m, c, pre, post, w0);
        lemma_step_keeps_draining(m, c, pre, post, w0, d0);
        let w2 = region_after(m, pre, c, w0);
        let d2 = distance_after(m, pre, c, d0);
        assert forall|s: usize, k: usize| #[trigger] w2(s, k) == within(m, trace, i, s, k) by {
            assert(w0(s, c) == within(m, trace, i - 1, s, c));
            assert(w0(s, k) == within(m, trace, i - 1, s, k));
        }
        assert(draining(trace[i], w2, d2) && closed_regions(trace[i], w2) && tells_regions(
            w2,
            m,
            trace,
            i,
        ));
    }
}

/// From a node within a construct the end sentinel of the construct can be
/// reached, in a graph whose edges out of the nodes within the construct
/// are those of a graph whose constructs are closed and draining.
proof fn lemma_drains_to_end(
    a: Cfg,
    g: Cfg,
    w: spec_fn(usize, usize) -> bool,
    d: spec_fn(usize, usize) -> nat,
    s: usize,
    k: usize,
)
    requires
        a.inv(),
        closed_regions(a, w),
        draining(a, w, d),
        forall|x: usize| #[trigger] w(s, x) && a.live(x) ==> g.succ(x) == a.succ(x),
        w(s, k),
        a.live(k),
    ensures
        s < usize::MAX,
        reachable(g, k, (s + 1) as usize),
    decreases d(s, k),
{
    reveal(graph_inv);
    assert(region_ok(a, w, s, k));
    if k == s + 1 {
        lemma_reach_self(g, k);
    } else {
        assert(steps_down(a, d, s, k));
        let j = choose|j: int| 0 <= j < a.succ(k).len() && d(s, #[trigger] a.succ(k)[j]) < d(s, k);
        let t = a.succ(k)[j];
        assert(w(s, a.succ(k)[j]));
        assert(a.live(a.succ(k)[j]));
        lemma_drains_to_end(a, g, w, d, s, t);
        lemma_reach_self(g, k);
        assert(g.succ(k) == a.succ(k));
        assert(g.succ(k)[j] == t);
        lemma_reach_step(g, k, k, t);
        lemma_reach_on(g, k, t, (s + 1) as usize);
    }
}

/// In a graph that reduction has built, and in which the flow out of the
/// jumps was corrected thereafter, the end sentinel of a construct can be
/// reached from every node within the construct, if no `break`, `continue`
/// or `return` lies within it.
pub proof fn lemma_reaches_end<'a>(
    m: Map<NodeID, AstNodeRef<'a>>,
    before: Cfg,
    mid: Cfg,
    g: Cfg,
    start: CfgStartNode,
    end: CfgEndNode,
    block: NodeID,
    ends: (usize, usize),
    trace: Seq<Cfg>,
    s: usize,
    k: usize,
)
    requires
        is_seed(before, trace[0], start, end, block),
        is_trace(m, trace),
        trace.last().same_graph(&mid),
        calibrated(mid, g, ends.0, ends.1),
        within(m, trace, trace.len() - 1, s, k),
        g.live(k),
        forall|x: usize|
            #[trigger] within(m, trace, trace.len() - 1, s, x) && g.live(x) ==> !g.descriptor(
                x,
            ).is_jump(),
    ensures
        s < usize::MAX,
        reachable(g, k, (s + 1) as usize),
{
    let i = trace.len() - 1;
    let last = trace.last();
    lemma_steps_keep_draining(m, trace, i);
    let (w, d) = choose|w: spec_fn(usize, usize) -> bool, d: spec_fn(usize, usize) -> nat|
        #[trigger] draining(trace[i], w, d) && closed_regions(trace[i], w) && tells_regions(
            w,
            m,
            trace,
            i,
        );
    assert(w(s, k) == within(m, trace, i, s, k));
    assert forall|x: usize| #[trigger] w(s, x) && last.live(x) implies g.succ(x) == last.succ(x) by {
        assert(w(s, x) == within(m, trace, i, s, x));
        assert(g.live(x));
        assert(mid.succ(x) == last.succ(x));
    }
    lemma_drains_to_end(last, g, w, d, s, k);
}

/// Along a list of reduction steps the number of identities handed out
/// does not fall.
pub proof fn lemma_next_grows<'a>(m: Map<NodeID, AstNodeRef<'a>>, trace: Seq<Cfg>, i: int, j: int)
    requires
        is_trace(m, trace),
        0 <= i <= j < trace.len(),
    ensures
        trace[i].next() <= trace[j].next(),
    decreases j - i,
{
    if i < j {
        lemma_next_grows(m, trace, i, j - 1);
        assert(stepped(m, trace[j - 1], trace[j - 1 + 1]));
    }
}

/// What lies within a construct in one graph of the list lies within it in
/// every later graph of the list.
pub proof fn lemma_stays_within<'a>(
    m: Map<NodeID, AstNodeRef<'a>>,
    trace: Seq<Cfg>,
    from: int,
    i: int,
    s: usize,
    k: usize,
)
    requires
        is_trace(m, trace),
        0 <= from <= i < trace.len(),
        within(m, trace, from, s, k),
        k < trace[from].next(),
    ensures
        within(m, trace, i, s, k),
    decreases i - from,
{
    if from < i {
        lemma_stays_within(m, trace, from, i - 1, s, k);
        lemma_next_grows(m, trace, from, i - 1);
    }
}

/// The nodes that a step makes, the two sentinels included, lie within the
/// construct whose start sentinel the step makes, in every later graph of
/// the list.
pub proof fn lemma_made_within<'a>(
    m: Map<NodeID, AstNodeRef<'a>>,
    trace: Seq<Cfg>,
    made: int,
    i: int,
    k: usize,
)
    requires
        is_trace(m, trace),
        0 < made <= i < trace.len(),
        trace[made - 1].next() <= k < trace[made].next(),
    ensures
        within(m, trace, i, trace[made - 1].next(), k),
{
    assert(stepped(m, trace[made - 1], trace[made - 1 + 1]));
    lemma_stays_within(m, trace, made, i, trace[made - 1].next(), k);
}

/// The edges out of the condition of an `if` that stands in its frame.
proof fn lemma_if_edges(g: Cfg, s: usize)
    requires
        g.shaped(),
        g.start_end_pairs@.contains_key(s),
        g.descriptor(s) matches CfgNodeDescriptor::Start(CfgStartNode::StartIf(_)),
    ensures
        g.start_end_pairs@[s] == s + 1,
        g.live((s + 4) as usize),
        g.succ((s + 3) as usize).len() == 2,
        g.succ((s + 3) as usize)[0] == s + 4,
        g.succ((s + 3) as usize)[1] == s + 1 || (g.succ((s + 3) as usize)[1] == s + 8 && g.live(
            (s + 8) as usize,
        )),
{
    lemma_if_converges(g, s);
    assert(g.if_frame(s as int));
    assert(g.is_void(s + 4));
    if g.succ((s + 3) as usize)[1] != s + 1 {
        assert(g.is_void(s + 8));
    }
}

/// In a graph that reduction has built, and in which the flow out of the
/// jumps was corrected thereafter, an `if` without a `break`, `continue` or
/// `return` within it has one end sentinel at which both of its branches
/// arrive: exactly two edges leave the condition, the first into the true
/// branch, the second into the false branch or, without an `else`, to the
/// end sentinel; and from where each branch starts the end sentinel can be
/// reached.
pub proof fn lemma_if_branches_meet<'a>(
    m: Map<NodeID, AstNodeRef<'a>>,
    before: Cfg,
    mid: Cfg,
    g: Cfg,
    start: CfgStartNode,
    end: CfgEndNode,
    block: NodeID,
    ends: (usize, usize),
    trace: Seq<Cfg>,
    s: usize,
)
    requires
        is_seed(before, trace[0], start, end, block),
        is_trace(m, trace),
        trace.last().same_graph(&mid),
        calibrated(mid, g, ends.0, ends.1),
        g.shaped(),
        g.start_end_pairs@.contains_key(s),
        g.descriptor(s) matches CfgNodeDescriptor::Start(CfgStartNode::StartIf(_)),
        within(m, trace, trace.len() - 1, s, (s + 4) as usize),
        g.succ((s + 3) as usize).len() == 2 && g.succ((s + 3) as usize)[1] == s + 8 ==> within(
            m,
            trace,
            trace.len() - 1,
            s,
            (s + 8) as usize,
        ),
        forall|x: usize|
            #[trigger] within(m, trace, trace.len() - 1, s, x) && g.live(x) ==> !g.descriptor(
                x,
            ).is_jump(),
    ensures
        g.start_end_pairs@[s] == s + 1,
        g.succ((s + 3) as usize).len() == 2,
        g.succ((s + 3) as usize)[0] == s + 4,
        reachable(g, (s + 4) as usize, (s + 1) as usize),
        g.succ((s + 3) as usize)[1] == s + 1 || (g.succ((s + 3) as usize)[1] == s + 8 && reachable(
            g,
            (s + 8) as usize,
            (s + 1) as usize,
        )),
{
    lemma_if_edges(g, s);
    lemma_reaches_end(m, before, mid, g, start, end, block, ends, trace, s, (s + 4) as usize);
    if g.succ((s + 3) as usize)[1] != s + 1 {
        lemma_reaches_end(m, before, mid, g, start, end, block, ends, trace, s, (s + 8) as usize);
    }
}

} // verus!
