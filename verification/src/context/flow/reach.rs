use vstd::prelude::*;
use crate::ast::ast_nodes::Block;
use crate::ast::node::NodeID;
use crate::context::flow::expansion::{
    block_expansion, do_while_expansion, expansion_of, fallback_expansion, for_cond_offset,
    for_expansion, for_len, for_update_offset, if_expansion, while_expansion, Expansion,
};
use crate::context::flow::reduction::{fully_reduced, is_trace, replaced, stepped};
use crate::context::flow::utils::{
    calibrated, is_path, jump_target, lemma_reach_self, lemma_reach_step,
    lemma_return_flows_to_end, reachable,
};
use crate::context::flow::voids::{CfgEndNode, CfgStartNode};
use crate::context::flow::accept::is_seed;
use crate::context::flow::{
    graph_inv, lemma_queued_is_live, lemma_without_contains, without, Cfg, CfgNodeDescriptor,
    CfgNodeId,
};
use crate::context::workspace_context::AstNodeRef;

verus! {

/// Every node of the registry can be reached from `s`.
pub open spec fn all_reachable(g: Cfg, s: usize) -> bool {
    forall|k: usize| #[trigger] g.live(k) ==> reachable(g, s, k)
}

/// What can be reached from a node that can be reached, can be reached.
pub proof fn lemma_reach_on(g: Cfg, a: usize, b: usize, c: usize)
    requires
        reachable(g, a, b),
        reachable(g, b, c),
    ensures
        reachable(g, a, c),
{
    let p = choose|p: Seq<usize>| #[trigger] is_path(g, p) && p[0] == a && p.last() == b;
    let q = choose|q: Seq<usize>| #[trigger] is_path(g, q) && q[0] == b && q.last() == c;
    let r = p + q.drop_first();
    assert forall|i: int| 0 <= i < r.len() - 1 implies g.has_edge(#[trigger] r[i], r[i + 1]) by {
        if i < p.len() - 1 {
            assert(g.has_edge(p[i], p[i + 1]));
        } else {
            let j = i - (p.len() - 1);
            assert(g.has_edge(q[j], q[j + 1]));
        }
    }
    assert(is_path(g, r) && r[0] == a && r.last() == c);
}

/// Reaching goes on along the edge with index `j` out of `a`.
proof fn lemma_hop(g: Cfg, from: usize, a: int, b: int, j: int)
    requires
        0 <= a <= usize::MAX,
        0 <= b <= usize::MAX,
        reachable(g, from, a as usize),
        0 <= j < g.succ(a as usize).len(),
        g.succ(a as usize)[j] == b,
    ensures
        reachable(g, from, b as usize),
{
    lemma_reach_step(g, from, a as usize, b as usize);
}

/// The edges out of the new nodes of the graph, the exit left aside, are
/// those of the expansion.
spec fn holds_expansion(g: Cfg, base: usize, x: Expansion) -> bool {
    &&& base + x.nds.len() <= usize::MAX
    &&& x.edges.len() == x.nds.len()
    &&& forall|i: int|
        0 <= i < x.nds.len() && i != 1 ==> #[trigger] g.succ((base + i) as usize) == x.edges[i]
}

/// In the expansion of a block every statement can be reached from the
/// entry.
proof fn lemma_block_connected(
    g: Cfg,
    base: usize,
    start: CfgStartNode,
    end: CfgEndNode,
    b: Block,
    i: int,
)
    requires
        holds_expansion(g, base, block_expansion(start, end, b, base)),
        2 <= i < b.statements@.len() + 2,
    ensures
        reachable(g, base, (base + i) as usize),
    decreases i,
{
    let x = block_expansion(start, end, b, base);
    if i == 2 {
        lemma_reach_self(g, base);
        assert(g.succ((base + 0) as usize) == x.edges[0]);
        lemma_hop(g, base, base + 0, base + 2, 0);
    } else {
        lemma_block_connected(g, base, start, end, b, i - 1);
        assert(g.succ((base + (i - 1)) as usize) == x.edges[i - 1]);
        lemma_hop(g, base, base + (i - 1), base + i, 0);
    }
}

/// In the expansion of a block every node can be reached from the entry.
proof fn lemma_block_whole(
    g: Cfg,
    base: usize,
    start: CfgStartNode,
    end: CfgEndNode,
    b: Block,
    i: int,
)
    requires
        holds_expansion(g, base, block_expansion(start, end, b, base)),
        0 <= i < b.statements@.len() + 2,
    ensures
        reachable(g, base, (base + i) as usize),
{
    let x = block_expansion(start, end, b, base);
    let n = b.statements@.len() as int;
    if i == 0 {
        lemma_reach_self(g, base);
    } else if i == 1 {
        if n == 0 {
            lemma_reach_self(g, base);
            assert(g.succ((base + 0) as usize) == x.edges[0]);
            lemma_hop(g, base, base + 0, base + 1, 0);
        } else {
            lemma_block_connected(g, base, start, end, b, n + 1);
            assert(g.succ((base + (n + 1)) as usize) == x.edges[n + 1]);
            lemma_hop(g, base, base + (n + 1), base + 1, 0);
        }
    } else {
        lemma_block_connected(g, base, start, end, b, i);
    }
}

/// Along an edge of the expansion: from the node at offset `a`, which can
/// be reached from the entry, to the node at offset `b`.
proof fn lemma_along(g: Cfg, base: usize, x: Expansion, a: int, b: int, j: int)
    requires
        holds_expansion(g, base, x),
        0 <= a < x.nds.len(),
        a != 1,
        0 <= b < x.nds.len(),
        reachable(g, base, (base + a) as usize),
        0 <= j < x.edges[a].len(),
        x.edges[a][j] == base + b,
    ensures
        reachable(g, base, (base + b) as usize),
{
    assert(g.succ((base + a) as usize) == x.edges[a]);
    lemma_hop(g, base, base + a, base + b, j);
}

/// In the expansion of a construct that the registry does not know the
/// exit can be reached from the entry.
proof fn lemma_fallback_connected(g: Cfg, base: usize, start: CfgStartNode, end: CfgEndNode)
    requires
        holds_expansion(g, base, fallback_expansion(start, end, base)),
    ensures
        forall|i: int| 0 <= i < 2 ==> reachable(g, base, #[trigger] ((base + i) as usize)),
{
    let x = fallback_expansion(start, end, base);
    lemma_reach_self(g, base);
    lemma_along(g, base, x, 0, 1, 0);
}

/// In the expansion of an `if` every node can be reached from the entry.
proof fn lemma_if_connected(g: Cfg, base: usize, s: crate::ast::ast_nodes::IfStatement)
    requires
        holds_expansion(g, base, if_expansion(s, base)),
    ensures
        forall|i: int|
            0 <= i < if_expansion(s, base).nds.len() ==> reachable(
                g,
                base,
                #[trigger] ((base + i) as usize),
            ),
{
    let x = if_expansion(s, base);
    lemma_reach_self(g, base);
    lemma_along(g, base, x, 0, 2, 0);
    lemma_along(g, base, x, 2, 6, 0);
    lemma_along(g, base, x, 6, 3, 0);
    lemma_along(g, base, x, 3, 4, 0);
    lemma_along(g, base, x, 4, 7, 0);
    lemma_along(g, base, x, 7, 5, 0);
    lemma_along(g, base, x, 5, 1, 0);
    if s.false_body is Some {
        lemma_along(g, base, x, 3, 8, 1);
        lemma_along(g, base, x, 8, 10, 0);
        lemma_along(g, base, x, 10, 9, 0);
    }
}

/// In the expansion of a `while` loop every node can be reached from the
/// entry.
proof fn lemma_while_connected(g: Cfg, base: usize, s: crate::ast::ast_nodes::WhileStatement)
    requires
        holds_expansion(g, base, while_expansion(s, base)),
    ensures
        forall|i: int| 0 <= i < 8 ==> reachable(g, base, #[trigger] ((base + i) as usize)),
{
    let x = while_expansion(s, base);
    lemma_reach_self(g, base);
    lemma_along(g, base, x, 0, 2, 0);
    lemma_along(g, base, x, 2, 6, 0);
    lemma_along(g, base, x, 6, 3, 0);
    lemma_along(g, base, x, 3, 4, 0);
    lemma_along(g, base, x, 3, 1, 1);
    lemma_along(g, base, x, 4, 7, 0);
    lemma_along(g, base, x, 7, 5, 0);
}

/// In the expansion of a `do`-`while` loop every node can be reached from
/// the entry.
proof fn lemma_do_while_connected(
    g: Cfg,
    base: usize,
    s: crate::ast::ast_nodes::DoWhileStatement,
)
    requires
        holds_expansion(g, base, do_while_expansion(s, base)),
    ensures
        forall|i: int| 0 <= i < 8 ==> reachable(g, base, #[trigger] ((base + i) as usize)),
{
    let x = do_while_expansion(s, base);
    lemma_reach_self(g, base);
    lemma_along(g, base, x, 0, 2, 0);
    lemma_along(g, base, x, 2, 6, 0);
    lemma_along(g, base, x, 6, 3, 0);
    lemma_along(g, base, x, 3, 4, 0);
    lemma_along(g, base, x, 4, 7, 0);
    lemma_along(g, base, x, 7, 5, 0);
    lemma_along(g, base, x, 5, 1, 1);
}

/// In the expansion of a `for` loop every node can be reached from the
/// entry.
proof fn lemma_for_connected(g: Cfg, base: usize, s: crate::ast::ast_nodes::ForStatement)
    requires
        holds_expansion(g, base, for_expansion(s, base)),
    ensures
        forall|i: int|
            0 <= i < for_len(s) ==> reachable(g, base, #[trigger] ((base + i) as usize)),
{
    let x = for_expansion(s, base);
    let co = for_cond_offset(s);
    let uo = for_update_offset(s);
    lemma_reach_self(g, base);
    lemma_along(g, base, x, 0, 2, 0);
    if s.initialization_expression is Some {
        lemma_along(g, base, x, 2, 11, 0);
        lemma_along(g, base, x, 11, 3, 0);
    } else {
        lemma_along(g, base, x, 2, 3, 0);
    }
    lemma_along(g, base, x, 3, 4, 0);
    if s.condition is Some {
        lemma_along(g, base, x, 4, co, 0);
        lemma_along(g, base, x, co, 5, 0);
    } else {
        lemma_along(g, base, x, 4, 5, 0);
    }
    lemma_along(g, base, x, 5, 6, 0);
    lemma_along(g, base, x, 5, 1, 1);
    lemma_along(g, base, x, 6, 10, 0);
    lemma_along(g, base, x, 10, 7, 0);
    lemma_along(g, base, x, 7, 8, 0);
    if s.loop_expression is Some {
        lemma_along(g, base, x, 8, uo, 0);
        lemma_along(g, base, x, uo, 9, 0);
    } else {
        lemma_along(g, base, x, 8, 9, 0);
    }
}

/// In the expansion of a reducible node every node can be reached from the
/// entry.
proof fn lemma_expansion_connected<'a>(
    m: Map<NodeID, AstNodeRef<'a>>,
    g: Cfg,
    base: usize,
    nd: CfgNodeDescriptor,
)
    requires
        nd.is_reducible(),
        holds_expansion(g, base, expansion_of(m, nd, base)),
    ensures
        forall|i: int|
            0 <= i < expansion_of(m, nd, base).nds.len() ==> reachable(
                g,
                base,
                #[trigger] ((base + i) as usize),
            ),
{
    let x = expansion_of(m, nd, base);
    match nd {
        CfgNodeDescriptor::Block(r) => {
            let start = CfgStartNode::StartBlock(r.block);
            let end = CfgEndNode::EndBlock(r.block);
            if m.contains_key(r.block) && m[r.block] is Block {
                let b = *m[r.block]->Block_0;
                assert forall|i: int| 0 <= i < x.nds.len() implies reachable(
                    g,
                    base,
                    #[trigger] ((base + i) as usize),
                ) by {
                    lemma_block_whole(g, base, start, end, b, i);
                }
            } else {
                lemma_fallback_connected(g, base, start, end);
            }
        },
        CfgNodeDescriptor::UncheckedBlock(r) => {
            let start = CfgStartNode::StartUncheckedBlock(r.unchecked_block);
            let end = CfgEndNode::EndUncheckedBlock(r.unchecked_block);
            if m.contains_key(r.unchecked_block) && m[r.unchecked_block] is UncheckedBlock {
                let b = *m[r.unchecked_block]->UncheckedBlock_0;
                assert forall|i: int| 0 <= i < x.nds.len() implies reachable(
                    g,
                    base,
                    #[trigger] ((base + i) as usize),
                ) by {
                    lemma_block_whole(g, base, start, end, b, i);
                }
            } else {
                lemma_fallback_connected(g, base, start, end);
            }
        },
        CfgNodeDescriptor::IfStatement(r) => {
            if m.contains_key(r.if_statement) && m[r.if_statement] is IfStatement {
                lemma_if_connected(g, base, *m[r.if_statement]->IfStatement_0);
            } else {
                lemma_fallback_connected(
                    g,
                    base,
                    CfgStartNode::StartIf(r.if_statement),
                    CfgEndNode::EndIf(r.if_statement),
                );
            }
        },
        CfgNodeDescriptor::WhileStatement(r) => {
            if m.contains_key(r.while_statement) && m[r.while_statement] is WhileStatement {
                lemma_while_connected(g, base, *m[r.while_statement]->WhileStatement_0);
            } else {
                lemma_fallback_connected(
                    g,
                    base,
                    CfgStartNode::StartWhile(r.while_statement),
                    CfgEndNode::EndWhile(r.while_statement),
                );
            }
        },
        CfgNodeDescriptor::ForStatement(r) => {
            if m.contains_key(r.for_statement) && m[r.for_statement] is ForStatement {
                lemma_for_connected(g, base, *m[r.for_statement]->ForStatement_0);
            } else {
                lemma_fallback_connected(
                    g,
                    base,
                    CfgStartNode::StartFor(r.for_statement),
                    CfgEndNode::EndFor(r.for_statement),
                );
            }
        },
        CfgNodeDescriptor::DoWhileStatement(r) => {
            if m.contains_key(r.do_while_statement) && m[r.do_while_statement] is DoWhileStatement {
                lemma_do_while_connected(g, base, *m[r.do_while_statement]->DoWhileStatement_0);
            } else {
                lemma_fallback_connected(
                    g,
                    base,
                    CfgStartNode::StartDoWhile(r.do_while_statement),
                    CfgEndNode::EndDoWhile(r.do_while_statement),
                );
            }
        },
        _ => {},
    }
}

/// A walk from `s` in the graph before a reduction has its like in the
/// graph after it: what the walk reaches can still be reached, and where it
/// passes the node that was replaced, the entry and the exit of the
/// expansion can be reached.
proof fn lemma_walk_survives<'a>(
    m: Map<NodeID, AstNodeRef<'a>>,
    c: usize,
    pre: Cfg,
    post: Cfg,
    s: usize,
    p: Seq<usize>,
    i: int,
)
    requires
        pre.inv(),
        pre.reducible(c),
        replaced(m, c, pre, post),
        reachable(post, pre.next(), (pre.next() + 1) as usize),
        is_path(pre, p),
        p[0] == s,
        s != c,
        0 <= i < p.len(),
    ensures
        p[i] != c ==> reachable(post, s, p[i]),
        p[i] == c ==> reachable(post, s, pre.next()) && reachable(
            post,
            s,
            (pre.next() + 1) as usize,
        ),
    decreases i,
{
    let base = pre.next();
    let exit = (base + 1) as usize;
    if i == 0 {
        lemma_reach_self(post, s);
    } else {
        lemma_walk_survives(m, c, pre, post, s, p, i - 1);
        let a = p[i - 1];
        let b = p[i];
        assert(pre.has_edge(a, b));
        reveal(graph_inv);
        assert(pre.live(a));
        if a != c {
            assert(post.succ(a) == if pre.has_edge(a, c) {
                without(pre.succ(a), c).push(base)
            } else {
                pre.succ(a)
            });
            if b != c {
                lemma_without_contains(pre.succ(a), c, b);
                if pre.has_edge(a, c) {
                    let t = without(pre.succ(a), c);
                    let j = choose|j: int| 0 <= j < t.len() && t[j] == b;
                    assert(t.push(base)[j] == b);
                }
                lemma_reach_step(post, s, a, b);
            } else {
                let t = without(pre.succ(a), c).push(base);
                assert(t[t.len() - 1] == base);
                lemma_reach_step(post, s, a, base);
                lemma_reach_on(post, s, base, exit);
            }
        } else {
            if b != c {
                let x = expansion_of(m, pre.nodes@[c].nd, base);
                lemma_without_contains(pre.succ(c), c, b);
                let t = without(pre.succ(c), c);
                let j = choose|j: int| 0 <= j < t.len() && t[j] == b;
                assert((x.edges[1] + t)[x.edges[1].len() + j] == b);
                lemma_reach_step(post, s, exit, b);
            }
        }
    }
}

/// A reduction keeps every node of the registry within reach of `s`.
pub proof fn lemma_replaced_keeps_reach<'a>(
    m: Map<NodeID, AstNodeRef<'a>>,
    c: usize,
    pre: Cfg,
    post: Cfg,
    s: usize,
)
    requires
        pre.inv(),
        pre.reducible(c),
        replaced(m, c, pre, post),
        all_reachable(pre, s),
        s != c,
    ensures
        all_reachable(post, s),
{
    let base = pre.next();
    let x = expansion_of(m, pre.nodes@[c].nd, base);
    assert(holds_expansion(post, base, x));
    lemma_expansion_connected(m, post, base, pre.nodes@[c].nd);
    assert(reachable(post, base, (base + 1) as usize));
    let to_c = choose|p: Seq<usize>| #[trigger] is_path(pre, p) && p[0] == s && p.last() == c;
    lemma_walk_survives(m, c, pre, post, s, to_c, to_c.len() - 1);
    assert forall|k: usize| #[trigger] post.live(k) implies reachable(post, s, k) by {
        if pre.live(k) && k != c {
            let p = choose|p: Seq<usize>| #[trigger] is_path(pre, p) && p[0] == s && p.last() == k;
            lemma_walk_survives(m, c, pre, post, s, p, p.len() - 1);
        } else {
            let i = k - base;
            assert(reachable(post, base, (base + i) as usize));
            lemma_reach_on(post, s, base, k);
        }
    }
}

/// Along a list of reduction steps every node of the registry stays within
/// reach of a node that is not itself reduced.
pub proof fn lemma_steps_keep_reach<'a>(
    m: Map<NodeID, AstNodeRef<'a>>,
    trace: Seq<Cfg>,
    s: usize,
    i: int,
)
    requires
        is_trace(m, trace),
        trace[0].inv(),
        trace[0].live(s),
        !trace[0].descriptor(s).is_reducible(),
        all_reachable(trace[0], s),
        0 <= i < trace.len(),
    ensures
        trace[i].inv(),
        trace[i].live(s),
        !trace[i].descriptor(s).is_reducible(),
        all_reachable(trace[i], s),
    decreases i,
{
    if i > 0 {
        lemma_steps_keep_reach(m, trace, s, i - 1);
        let pre = trace[i - 1];
        let post = trace[i];
        assert(stepped(m, pre, trace[i - 1 + 1]));
        let c = pre.queue()[0];
        lemma_queued_is_live(pre, 0);
        lemma_replaced_keeps_reach(m, c, pre, post, s);
    }
}

/// In the graph of the body of a function every `return` flows to the end
/// sentinel of the body and nowhere else, however deep it is nested.
pub proof fn lemma_every_return_flows_to_end<'a>(
    m: Map<NodeID, AstNodeRef<'a>>,
    g: Cfg,
    function_id: NodeID,
    body: &Block,
    ends: (CfgNodeId, CfgNodeId),
    k: usize,
)
    requires
        g.built_from_nothing(m, function_id, body, ends),
        g.live(k),
        g.descriptor(k) is Return,
    ensures
        g.succ(k) == seq![ends.1.0],
{
    let start = CfgStartNode::StartFunctionBody(function_id);
    let end = CfgEndNode::EndFunctionBody(function_id);
    let empty = choose|empty: Cfg|
        empty.is_fresh() && #[trigger] g.built_and_calibrated(m, &empty, function_id, body, ends);
    let mid = choose|mid: Cfg|
        #[trigger] mid.built(m, &empty, start, end, body, ends) && calibrated(
            mid,
            g,
            ends.0.0,
            ends.1.0,
        );
    lemma_built_within_reach(m, empty, mid, start, end, body, ends);
    lemma_return_flows_to_end(mid, g, ends.0.0, ends.1.0, k);
}

/// In a graph that was built from nothing, and in which the flow out of the
/// jumps is not yet corrected, every node can be reached from the start
/// sentinel of the body.
pub proof fn lemma_built_within_reach<'a>(
    m: Map<NodeID, AstNodeRef<'a>>,
    empty: Cfg,
    mid: Cfg,
    start: CfgStartNode,
    end: CfgEndNode,
    body: &Block,
    ends: (CfgNodeId, CfgNodeId),
)
    requires
        empty.is_fresh(),
        mid.built(m, &empty, start, end, body, ends),
    ensures
        all_reachable(mid, ends.0.0),
{
    let seeded = choose|seeded: Cfg|
        #[trigger] is_seed(empty, seeded, start, end, body.id) && fully_reduced(m, seeded, mid);
    let trace = choose|trace: Seq<Cfg>|
        #[trigger] is_trace(m, trace) && trace[0] == seeded && trace.last().same_graph(&mid);
    assert(all_reachable(seeded, 0)) by {
        lemma_reach_self(seeded, 0);
        lemma_hop(seeded, 0, 0, 2, 0);
        lemma_hop(seeded, 0, 2, 1, 0);
        assert forall|k: usize| #[trigger] seeded.live(k) implies reachable(seeded, 0, k) by {
            assert(k == 0 || k == 1 || k == 2);
        }
    }
    assert(seeded.live(0));
    lemma_steps_keep_reach(m, trace, 0, trace.len() - 1);
    let last = trace.last();
    assert forall|k: usize| #[trigger] mid.live(k) implies reachable(mid, 0, k) by {
        assert(last.live(k));
        let p = choose|p: Seq<usize>| #[trigger] is_path(last, p) && p[0] == 0 && p.last() == k;
        assert forall|i: int| 0 <= i < p.len() - 1 implies mid.has_edge(#[trigger] p[i], p[i + 1]) by {
            assert(last.has_edge(p[i], p[i + 1]));
        }
        assert(is_path(mid, p));
    }
}

/// In the graph of a body that was built from nothing, every `break`,
/// `continue` and `return` has, once the flow out of the jumps is
/// corrected, the node it should flow to as its only successor.
pub proof fn lemma_every_jump_is_corrected<'a>(
    m: Map<NodeID, AstNodeRef<'a>>,
    empty: Cfg,
    mid: Cfg,
    g: Cfg,
    start: CfgStartNode,
    end: CfgEndNode,
    body: &Block,
    ends: (CfgNodeId, CfgNodeId),
)
    requires
        empty.is_fresh(),
        mid.built(m, &empty, start, end, body, ends),
        calibrated(mid, g, ends.0.0, ends.1.0),
    ensures
        forall|k: usize|
            #[trigger] g.live(k) && g.descriptor(k).is_jump() ==> g.succ(k) == seq![
                jump_target(mid, k, ends.1.0),
            ],
{
    lemma_built_within_reach(m, empty, mid, start, end, body, ends);
}

} // verus!
