use vstd::prelude::*;
use crate::ast::ast_nodes::{Block, ForStatement};
use crate::ast::node::NodeID;
use crate::context::flow::accept::is_seed;
use crate::context::flow::expansion::{
    block_expansion, expansion_of, for_expansion, one, stmt_descriptor, two,
};
use crate::context::flow::reach::lemma_built_within_reach;
use crate::context::flow::reducibles::{CfgBlock, CfgForStatement};
use crate::context::flow::reduction::{fully_reduced, is_trace, replaced, stepped};
use crate::context::flow::utils::{
    break_target, calibrated, enclosing_loop, jump_target, reachable,
};
use crate::context::flow::voids::{CfgEndNode, CfgStartNode};
use crate::context::flow::{
    graph_complete, graph_inv, without, Cfg, CfgNodeDescriptor, CfgNodeId,
};
use crate::context::workspace_context::{
    closed, holds_block, holds_statement, AstNodeRef, WorkspaceContext,
};

verus! {

/// The body declares a variable, then runs a `for` loop with initializer,
/// condition and update expression whose body is a block with a lone
/// `break`, then returns.
pub open spec fn declares_loops_returns(body: Block) -> bool {
    &&& body.statements@.len() == 3
    &&& body.statements@[0] is VariableDeclarationStatement
    &&& body.statements@[1] is ForStatement
    &&& body.statements@[2] is Return
    &&& the_loop(body).initialization_expression is Some
    &&& !stmt_descriptor(*the_loop(body).initialization_expression->Some_0).is_reducible()
    &&& the_loop(body).condition is Some
    &&& the_loop(body).loop_expression is Some
    &&& the_loop(body).body is Block
    &&& the_loop_body(body).statements@.len() == 1
    &&& the_loop_body(body).statements@[0] is Break
}

/// The `for` loop of such a body.
pub open spec fn the_loop(body: Block) -> ForStatement {
    body.statements@[1]->ForStatement_0
}

/// The block that is the body of the `for` loop of such a body.
pub open spec fn the_loop_body(body: Block) -> Block {
    *the_loop(body).body->Block_0
}

/// The registry resolves the body, its loop and the body of the loop.
spec fn resolves<'a>(m: Map<NodeID, AstNodeRef<'a>>, body: Block) -> bool {
    &&& m.contains_key(body.id) && m[body.id] is Block && *m[body.id]->Block_0 == body
    &&& m.contains_key(the_loop(body).id) && m[the_loop(body).id] is ForStatement
        && *m[the_loop(body).id]->ForStatement_0 == the_loop(body)
    &&& m.contains_key(the_loop_body(body).id) && m[the_loop_body(body).id] is Block
        && *m[the_loop_body(body).id]->Block_0 == the_loop_body(body)
}

/// At most the node `r` is still to be expanded.
spec fn only_reducible(g: Cfg, r: usize) -> bool {
    forall|k: usize| #[trigger] g.live(k) && g.descriptor(k).is_reducible() ==> k == r
}

/// Where one node is left to expand, it is what the queue holds.
proof fn lemma_queue_is(g: Cfg, r: usize)
    requires
        g.wf(),
        g.live(r),
        g.descriptor(r).is_reducible(),
        only_reducible(g, r),
    ensures
        g.queue() == seq![r],
{
    reveal(graph_inv);
    reveal(graph_complete);
    let q = g.queue();
    assert(q.contains(r));
    assert(q.len() == 1) by {
        if q.len() >= 2 {
            assert(g.live(q[0]) && g.descriptor(q[0]).is_reducible());
            assert(g.live(q[1]) && g.descriptor(q[1]).is_reducible());
            assert(q[0] == q[1]);
        }
    }
    assert(g.live(q[0]) && g.descriptor(q[0]).is_reducible());
    assert(q =~= seq![r]);
}

/// The graph after the body's own block was expanded.
spec fn after_body(g: Cfg, body: Block) -> bool {
    &&& g.wf()
    &&& g.next() == 8
    &&& g.nodes@.len() == 7
    &&& only_reducible(g, 6)
    &&& g.live(6)
    &&& g.descriptor(6) == CfgNodeDescriptor::ForStatement(
        CfgForStatement { for_statement: the_loop(body).id },
    )
    &&& g.live(7)
    &&& g.descriptor(7) == stmt_descriptor(body.statements@[2])
    &&& g.succ(6) == one(7)
    &&& g.succ(7) == one(4)
    &&& g.start_end_pairs@ == Map::<usize, usize>::empty().insert(0, 1).insert(3, 4)
    &&& g.start_cond_pairs@ == Map::<usize, usize>::empty()
    &&& g.start_loop_expr@ == Map::<usize, usize>::empty()
    &&& g.loop_expr_start@ == Map::<usize, usize>::empty()
    &&& g.cond_start_pairs@ == Map::<usize, usize>::empty()
}

/// The graph after the loop was expanded.
spec fn after_loop(g: Cfg, body: Block) -> bool {
    &&& g.wf()
    &&& g.next() == 22
    &&& g.nodes@.len() == 20
    &&& only_reducible(g, 18)
    &&& g.live(18)
    &&& g.descriptor(18) == CfgNodeDescriptor::Block(CfgBlock { block: the_loop_body(body).id })
    &&& g.live(7)
    &&& g.descriptor(7) == stmt_descriptor(body.statements@[2])
    &&& g.live(8)
    &&& g.descriptor(8) == CfgNodeDescriptor::Start(CfgStartNode::StartFor(the_loop(body).id))
    &&& g.live(9)
    &&& g.descriptor(9) == CfgNodeDescriptor::End(CfgEndNode::EndFor(the_loop(body).id))
    &&& g.live(13)
    &&& g.descriptor(13) is End
    &&& g.succ(7) == one(4)
    &&& g.succ(9) == one(7)
    &&& g.succ(13) == two(14, 9)
    &&& g.succ(15) == one(16)
    &&& g.succ(18) == one(15)
    &&& g.start_end_pairs@ == Map::<usize, usize>::empty().insert(0, 1).insert(3, 4).insert(8, 9)
    &&& g.start_cond_pairs@ == Map::<usize, usize>::empty().insert(8, 12)
    &&& g.start_loop_expr@ == Map::<usize, usize>::empty().insert(8, 16)
    &&& g.loop_expr_start@ == Map::<usize, usize>::empty().insert(16, 8)
    &&& g.cond_start_pairs@ == Map::<usize, usize>::empty()
}

/// The graph after the body of the loop was expanded: nothing is left to
/// expand.
spec fn after_loop_body(g: Cfg, body: Block) -> bool {
    &&& g.wf()
    &&& g.next() == 25
    &&& g.nodes@.len() == 22
    &&& g.no_reducible()
    &&& g.live(7)
    &&& g.descriptor(7) == stmt_descriptor(body.statements@[2])
    &&& g.live(8)
    &&& g.descriptor(8) == CfgNodeDescriptor::Start(CfgStartNode::StartFor(the_loop(body).id))
    &&& g.live(9)
    &&& g.descriptor(9) == CfgNodeDescriptor::End(CfgEndNode::EndFor(the_loop(body).id))
    &&& g.live(24)
    &&& g.descriptor(24) == stmt_descriptor(the_loop_body(body).statements@[0])
    &&& g.live(13)
    &&& g.descriptor(13) is End
    &&& g.succ(7) == one(4)
    &&& g.succ(9) == one(7)
    &&& g.succ(13) == two(14, 9)
    &&& g.succ(15) == one(16)
    &&& g.succ(23) == one(15)
    &&& g.succ(24) == one(23)
    &&& g.start_end_pairs@ == Map::<usize, usize>::empty().insert(0, 1).insert(3, 4).insert(
        8,
        9,
    ).insert(22, 23)
    &&& g.loop_expr_start@ == Map::<usize, usize>::empty().insert(16, 8)
    &&& g.cond_start_pairs@ == Map::<usize, usize>::empty()
}

/// The first step expands the body's own block.
proof fn lemma_body_step<'a>(
    m: Map<NodeID, AstNodeRef<'a>>,
    empty: Cfg,
    seeded: Cfg,
    post: Cfg,
    start: CfgStartNode,
    end: CfgEndNode,
    body: Block,
)
    requires
        empty.is_fresh(),
        !(start is Start),
        is_seed(empty, seeded, start, end, body.id),
        stepped(m, seeded, post),
        declares_loops_returns(body),
        resolves(m, body),
    ensures
        after_body(post, body),
{
    reveal(graph_inv);
    reveal_with_fuel(without, 3);
    let c: usize = 2;
    assert(seeded.queue()[0] == c);
    assert(seeded.nodes@[c].nd == CfgNodeDescriptor::Block(CfgBlock { block: body.id }));
    let x = block_expansion(
        CfgStartNode::StartBlock(body.id),
        CfgEndNode::EndBlock(body.id),
        body,
        3,
    );
    assert(expansion_of(m, seeded.nodes@[c].nd, seeded.next()) == x);
    assert(replaced(m, c, seeded, post));
    assert(seeded.nodes@.dom() =~= set![0usize, 1usize, 2usize]);
    assert(seeded.nodes@.len() == 3);
    assert(post.nodes@[(3 + 2) as usize].nd == x.nds[2]);
    assert(post.nodes@[(3 + 3) as usize].nd == x.nds[3]);
    assert(post.nodes@[(3 + 4) as usize].nd == x.nds[4]);
    assert(post.nodes@[(3 + 0) as usize].nd == x.nds[0]);
    assert(post.nodes@[(3 + 1) as usize].nd == x.nds[1]);
    assert(post.succ((3 + 3) as usize) == x.edges[3]);
    assert(post.succ((3 + 4) as usize) == x.edges[4]);
    assert forall|k: usize| #[trigger] post.live(k) && post.descriptor(k).is_reducible() implies k
        == 6 by {
        if k >= 3 {
            let i = k - 3;
            assert(post.nodes@[(3 + i) as usize].nd == x.nds[i]);
        } else {
            assert(seeded.live(k));
        }
    }
}

/// The second step expands the loop.
proof fn lemma_loop_step<'a>(m: Map<NodeID, AstNodeRef<'a>>, pre: Cfg, post: Cfg, body: Block)
    requires
        after_body(pre, body),
        stepped(m, pre, post),
        declares_loops_returns(body),
        resolves(m, body),
    ensures
        after_loop(post, body),
{
    reveal_with_fuel(without, 3);
    let c: usize = 6;
    lemma_queue_is(pre, c);
    assert(pre.queue()[0] == c);
    let f = the_loop(body);
    let x = for_expansion(f, 8);
    assert(expansion_of(m, pre.nodes@[c].nd, pre.next()) == x);
    assert(replaced(m, c, pre, post));
    assert(x.nds.len() == 14);
    assert(post.nodes@[(8 + 0) as usize].nd == x.nds[0]);
    assert(post.nodes@[(8 + 1) as usize].nd == x.nds[1]);
    assert(post.nodes@[(8 + 10) as usize].nd == x.nds[10]);
    assert(post.nodes@[(8 + 5) as usize].nd == x.nds[5]);
    assert(post.succ((8 + 5) as usize) == x.edges[5]);
    assert(post.succ((8 + 7) as usize) == x.edges[7]);
    assert(post.succ((8 + 10) as usize) == x.edges[10]);
    assert(post.succ(7) == pre.succ(7)) by {
        assert(!pre.has_edge(7, c));
    }
    assert(post.succ((8 + 1) as usize) == x.edges[1] + without(pre.succ(c), c));
    assert(without(pre.succ(c), c) =~= one(7));
    assert(post.succ(9) =~= one(7));
    assert forall|k: usize| #[trigger] post.live(k) && post.descriptor(k).is_reducible() implies k
        == 18 by {
        if k >= 8 {
            let i = k - 8;
            assert(post.nodes@[(8 + i) as usize].nd == x.nds[i]);
        } else {
            assert(pre.live(k));
        }
    }
}

/// The third step expands the body of the loop.
proof fn lemma_loop_body_step<'a>(m: Map<NodeID, AstNodeRef<'a>>, pre: Cfg, post: Cfg, body: Block)
    requires
        after_loop(pre, body),
        stepped(m, pre, post),
        declares_loops_returns(body),
        resolves(m, body),
    ensures
        after_loop_body(post, body),
{
    reveal(graph_inv);
    reveal_with_fuel(without, 3);
    let c: usize = 18;
    lemma_queue_is(pre, c);
    assert(pre.queue()[0] == c);
    let inner = the_loop_body(body);
    let x = block_expansion(
        CfgStartNode::StartBlock(inner.id),
        CfgEndNode::EndBlock(inner.id),
        inner,
        22,
    );
    assert(expansion_of(m, pre.nodes@[c].nd, pre.next()) == x);
    assert(replaced(m, c, pre, post));
    assert(x.nds.len() == 3);
    assert(post.nodes@[(22 + 2) as usize].nd == x.nds[2]);
    assert(post.succ((22 + 2) as usize) == x.edges[2]);
    assert(post.succ(7) == pre.succ(7)) by {
        assert(!pre.has_edge(7, c));
    }
    assert(post.succ(9) == pre.succ(9)) by {
        assert(!pre.has_edge(9, c));
    }
    assert(post.succ(13) == pre.succ(13)) by {
        assert(!pre.has_edge(13, c));
    }
    assert(post.succ(15) == pre.succ(15)) by {
        assert(!pre.has_edge(15, c));
    }
    assert(post.succ((22 + 1) as usize) == x.edges[1] + without(pre.succ(c), c));
    assert(without(pre.succ(c), c) =~= one(15));
    assert(post.succ(23) =~= one(15));
    assert forall|k: usize| #[trigger] post.live(k) implies !post.descriptor(k).is_reducible() by {
        if k >= 22 {
            let i = k - 22;
            assert(post.nodes@[(22 + i) as usize].nd == x.nds[i]);
        } else {
            assert(pre.live(k));
        }
    }
}

/// Three steps reduce the seed of such a body fully: the body's own block,
/// the loop and the body of the loop are expanded in turn.
proof fn lemma_three_steps<'a>(
    m: Map<NodeID, AstNodeRef<'a>>,
    empty: Cfg,
    seeded: Cfg,
    mid: Cfg,
    start: CfgStartNode,
    end: CfgEndNode,
    body: Block,
)
    requires
        empty.is_fresh(),
        !(start is Start),
        is_seed(empty, seeded, start, end, body.id),
        fully_reduced(m, seeded, mid),
        declares_loops_returns(body),
        resolves(m, body),
    ensures
        after_loop_body(mid, body),
{
    let trace = choose|trace: Seq<Cfg>|
        #[trigger] is_trace(m, trace) && trace[0] == seeded && trace.last().same_graph(&mid);
    assert(trace.len() >= 2) by {
        if trace.len() < 2 {
            assert(trace.last() == seeded);
        }
    }
    assert(stepped(m, trace[0], trace[0int + 1]));
    lemma_body_step(m, empty, seeded, trace[1], start, end, body);
    lemma_queue_is(trace[1], 6);
    assert(trace.len() >= 3) by {
        if trace.len() < 3 {
            assert(trace.last() == trace[1]);
        }
    }
    assert(stepped(m, trace[1], trace[1int + 1]));
    lemma_loop_step(m, trace[1], trace[2], body);
    lemma_queue_is(trace[2], 18);
    assert(trace.len() >= 4) by {
        if trace.len() < 4 {
            assert(trace.last() == trace[2]);
        }
    }
    assert(stepped(m, trace[2], trace[2int + 1]));
    lemma_loop_body_step(m, trace[2], trace[3], body);
    assert(trace.len() == 4) by {
        if trace.len() > 4 {
            assert(stepped(m, trace[3], trace[3int + 1]));
            lemma_none_queued(trace[3]);
        }
    }
    lemma_same_graph_same_stage(trace[3], mid, body);
}

/// Where nothing is left to expand, nothing is queued.
proof fn lemma_none_queued(g: Cfg)
    requires
        g.wf(),
        g.no_reducible(),
    ensures
        g.queue().len() == 0,
{
    reveal(graph_inv);
    if g.queue().len() > 0 {
        let q = g.queue();
        assert(g.live(q[0]) && g.descriptor(q[0]).is_reducible());
    }
}

/// What holds of the fully reduced graph holds of a graph with the same
/// nodes, edges, queue and tables.
proof fn lemma_same_graph_same_stage(last: Cfg, mid: Cfg, body: Block)
    requires
        after_loop_body(last, body),
        last.same_graph(&mid),
    ensures
        after_loop_body(mid, body),
{
}

/// In the graph of a function whose body declares a variable, runs a `for`
/// loop around a lone `break` and returns, the `break` flows to the end
/// sentinel of the loop and nowhere else, the condition of the loop leads
/// into the body and to that end sentinel, the end sentinel leads to the
/// `return`, and the `return` flows to the end of the body. The graph has 22
/// nodes.
pub proof fn lemma_break_leaves_the_loop<'a>(
    context: &WorkspaceContext<'a>,
    g: Cfg,
    function_id: NodeID,
    body: &'a Block,
    ends: (CfgNodeId, CfgNodeId),
)
    requires
        context.wf(),
        holds_block(context.nodes@, body),
        declares_loops_returns(*body),
        g.built_from_nothing(context.nodes@, function_id, body, ends),
    ensures
        break_left_the_loop(g, *body, ends),
{
    lemma_resolves(context, body);
    lemma_break_leaves_resolved(context.nodes@, g, function_id, body, ends);
}

/// What the graph of such a body looks like around its loop.
///
/// * The sentinels of the body have the identities 0 and 1; the graph has 22
///   nodes.
/// * The `break`, node 24, flows to the end sentinel of the loop, node 9,
///   and nowhere else.
/// * The end of the loop's condition, node 13, leads into the body of the
///   loop and to the end sentinel of the loop.
/// * The end sentinel of the loop leads to the `return`, node 7, and the
///   `return` flows to the end of the body.
pub open spec fn break_left_the_loop(g: Cfg, body: Block, ends: (CfgNodeId, CfgNodeId)) -> bool {
    &&& ends.0.0 == 0
    &&& ends.1.0 == 1
    &&& g.nodes@.len() == 22
    &&& g.live(24) && g.descriptor(24) is Break
    &&& g.live(8) && g.descriptor(8) == CfgNodeDescriptor::Start(
        CfgStartNode::StartFor(the_loop(body).id),
    )
    &&& g.live(9) && g.descriptor(9) == CfgNodeDescriptor::End(
        CfgEndNode::EndFor(the_loop(body).id),
    )
    &&& g.start_end_pairs@.contains_key(8) && g.start_end_pairs@[8] == 9
    &&& g.succ(24) == seq![9usize]
    &&& g.succ(13) == seq![14usize, 9usize]
    &&& g.succ(9) == seq![7usize]
    &&& g.live(7) && g.descriptor(7) is Return
    &&& g.succ(7) == seq![1usize]
}

/// The same, for a registry of which it is known what it resolves.
proof fn lemma_break_leaves_resolved<'a>(
    m: Map<NodeID, AstNodeRef<'a>>,
    g: Cfg,
    function_id: NodeID,
    body: &'a Block,
    ends: (CfgNodeId, CfgNodeId),
)
    requires
        resolves(m, *body),
        declares_loops_returns(*body),
        g.built_from_nothing(m, function_id, body, ends),
    ensures
        break_left_the_loop(g, *body, ends),
{
    let start = CfgStartNode::StartFunctionBody(function_id);
    let end = CfgEndNode::EndFunctionBody(function_id);
    let empty = choose|empty: Cfg|
        empty.is_fresh() && #[trigger] g.built_and_calibrated(m, &empty, function_id, body, ends);
    let mid = choose|mid: Cfg|
        #[trigger] mid.built(m, &empty, start, end, body, ends) && calibrated(
            mid,
            g,
            ends.0.0,
            ends.1.0,
        );
    lemma_built_in_three_steps(m, empty, mid, start, end, body, ends);
    lemma_jumps_corrected(mid, g, *body);
}

/// The graph that reduction builds for such a body from nothing is the one
/// that the three steps lead to, and every node of it can be reached from
/// the start sentinel of the body.
proof fn lemma_built_in_three_steps<'a>(
    m: Map<NodeID, AstNodeRef<'a>>,
    empty: Cfg,
    mid: Cfg,
    start: CfgStartNode,
    end: CfgEndNode,
    body: &'a Block,
    ends: (CfgNodeId, CfgNodeId),
)
    requires
        empty.is_fresh(),
        !(start is Start),
        mid.built(m, &empty, start, end, body, ends),
        declares_loops_returns(*body),
        resolves(m, *body),
    ensures
        ends.0.0 == 0,
        ends.1.0 == 1,
        after_loop_body(mid, *body),
        reachable(mid, 0, 24),
        reachable(mid, 0, 7),
{
    let seeded = choose|seeded: Cfg|
        #[trigger] is_seed(empty, seeded, start, end, body.id) && fully_reduced(m, seeded, mid);
    lemma_three_steps(m, empty, seeded, mid, start, end, *body);
    lemma_built_within_reach(m, empty, mid, start, end, body, ends);
}

/// A registry that knows every statement below the nodes it holds, and
/// holds the body, resolves the loop and the body of the loop too.
proof fn lemma_resolves<'a>(context: &WorkspaceContext<'a>, body: &'a Block)
    requires
        context.wf(),
        holds_block(context.nodes@, body),
        declares_loops_returns(*body),
    ensures
        resolves(context.nodes@, *body),
{
    let m = context.nodes@;
    assert(closed(m, m[body.id]));
    let b = m[body.id]->Block_0;
    assert(*b == *body);
    assert(holds_statement(m, &b.statements@[1]));
    let f = the_loop(*body);
    assert(m.contains_key(f.id));
    assert(closed(m, m[f.id]));
}

/// Correcting the jumps of the fully reduced graph sends the `break` to the
/// end sentinel of the loop and the `return` to the end of the body, and
/// leaves the edges out of the loop's condition and end sentinel alone.
proof fn lemma_jumps_corrected(mid: Cfg, g: Cfg, body: Block)
    requires
        after_loop_body(mid, body),
        declares_loops_returns(body),
        calibrated(mid, g, 0, 1),
        reachable(mid, 0, 24),
        reachable(mid, 0, 7),
    ensures
        break_left_the_loop(g, body, (CfgNodeId(0), CfgNodeId(1))),
{
    assert(enclosing_loop(mid, 24, 25) == Some(8usize)) by {
        reveal_with_fuel(enclosing_loop, 5);
        assert(mid.succ(24)[0] == 23);
        assert(mid.succ(23)[0] == 15);
        assert(mid.succ(15)[0] == 16);
    }
    assert(break_target(mid, 24, 1) == 9);
    assert(jump_target(mid, 24, 1) == 9);
    assert(jump_target(mid, 7, 1) == 1);
    assert(g.succ(24) == seq![jump_target(mid, 24, 1)]);
    assert(g.succ(7) == seq![jump_target(mid, 7, 1)]);
    assert(!mid.descriptor(9).is_jump());
    assert(g.succ(9) == mid.succ(9));
    assert(g.succ(13) == mid.succ(13)) by {
        if mid.live(13) && mid.descriptor(13).is_jump() {
            assert(mid.succ(13).len() == 2);
        }
    }
    assert(one(7) =~= seq![7usize]);
    assert(two(14, 9) =~= seq![14usize, 9usize]);
}

} // verus!
