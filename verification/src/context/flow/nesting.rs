use vstd::prelude::*;
use crate::ast::ast_nodes::Block;
use crate::ast::node::NodeID;
use crate::context::flow::accept::is_seed;
use crate::context::flow::expansion::{expansion_of, for_cond_offset, lemma_exit_is_open};
use crate::context::flow::reach::lemma_built_within_reach;
use crate::context::flow::reduction::{is_trace, replaced, stepped};
use crate::context::flow::utils::{calibrated, enclosing_loop, jump_target};
use crate::context::flow::voids::{CfgEndNode, CfgStartNode};
use crate::context::flow::{
    graph_inv, lemma_queued_is_live, lemma_without_contains, without, Cfg, CfgNodeDescriptor,
    CfgNodeId,
};
use crate::context::workspace_context::AstNodeRef;

verus! {

/// The loop that a node marks: a sentinel that opens the condition of a
/// `while` or `do`-`while` loop, or the update expression of a `for` loop,
/// is only reached from inside that loop.
pub open spec fn marked(g: Cfg, k: usize) -> Option<usize> {
    if g.cond_start_pairs@.contains_key(k) {
        Some(g.cond_start_pairs@[k])
    } else if g.loop_expr_start@.contains_key(k) {
        Some(g.loop_expr_start@[k])
    } else {
        None
    }
}

/// Where the forward walk goes on from a node that marks no loop: at the
/// end sentinel of the construct that the node opens, else at its first
/// successor. Nowhere, if it has none.
pub open spec fn walk_next(g: Cfg, k: usize) -> Option<usize> {
    if g.start_end_pairs@.contains_key(k) {
        Some(g.start_end_pairs@[k])
    } else if g.succ(k).len() > 0 {
        Some(g.succ(k)[0])
    } else {
        None
    }
}

/// What holds of a node of a graph whose nodes are ranked and assigned to
/// loops:
///
/// * a node that is still to be expanded stands in no table;
/// * a node that marks a loop belongs to that loop; from any other node the
///   walk goes on at a node of lower rank that belongs to the same loop, or
///   it ends and the node belongs to no loop;
/// * the rank is below the number of identities handed out;
/// * a node that leads to a node that is still to be expanded leads nowhere
///   else;
/// * the end sentinel that is paired with the node is in the registry and
///   is no node that is still to be expanded;
/// * the start sentinel of the loop that the node belongs to is paired with
///   an end sentinel.
pub open spec fn node_ok(
    g: Cfg,
    rank: spec_fn(usize) -> nat,
    owner: spec_fn(usize) -> Option<usize>,
    k: usize,
) -> bool {
    &&& g.descriptor(k).is_reducible() ==> marked(g, k) is None && !g.start_end_pairs@.contains_key(k)
    &&& match marked(g, k) {
        Some(l) => owner(k) == Some(l),
        None => match walk_next(g, k) {
            Some(k2) => g.live(k2) && rank(k2) < rank(k) && owner(k2) == owner(k),
            None => owner(k) is None,
        },
    }
    &&& rank(k) < g.next()
    &&& forall|j: int|
        0 <= j < g.succ(k).len() && g.descriptor(#[trigger] g.succ(k)[j]).is_reducible()
            ==> g.succ(k).len() == 1
    &&& g.start_end_pairs@.contains_key(k) ==> g.live(g.start_end_pairs@[k]) && !g.descriptor(
        g.start_end_pairs@[k],
    ).is_reducible()
    &&& owner(k) matches Some(l) ==> g.start_end_pairs@.contains_key(l)
}

/// Every key of the three tables that the walk reads is in the registry.
pub open spec fn keys_live(g: Cfg) -> bool {
    forall|k: usize|
        #![trigger g.live(k)]
        g.cond_start_pairs@.contains_key(k) || g.loop_expr_start@.contains_key(k)
            || g.start_end_pairs@.contains_key(k) ==> g.live(k)
}

/// The nodes of the graph are ranked and assigned to loops so that the
/// forward walk from a node leads down the ranks to the marker of the
/// node's loop.
pub open spec fn nested(
    g: Cfg,
    rank: spec_fn(usize) -> nat,
    owner: spec_fn(usize) -> Option<usize>,
) -> bool {
    &&& keys_live(g)
    &&& forall|k: usize| #[trigger] g.live(k) ==> node_ok(g, rank, owner, k)
}

/// In such a graph the forward walk from a node finds the loop that the
/// node belongs to, given more steps than the node's rank.
pub proof fn lemma_walk_finds_owner(
    g: Cfg,
    rank: spec_fn(usize) -> nat,
    owner: spec_fn(usize) -> Option<usize>,
    k: usize,
    fuel: nat,
)
    requires
        nested(g, rank, owner),
        g.live(k),
        fuel > rank(k),
    ensures
        enclosing_loop(g, k, fuel) == owner(k),
    decreases rank(k),
{
    assert(node_ok(g, rank, owner, k));
    if marked(g, k) is None {
        match walk_next(g, k) {
            Some(k2) => {
                lemma_walk_finds_owner(g, rank, owner, k2, (fuel - 1) as nat);
            },
            None => {},
        }
    }
}

/// The first member of a list stays the first when another node is taken
/// out of the list.
pub proof fn lemma_without_first(s: Seq<usize>, x: usize)
    requires
        s.len() > 0,
        s[0] != x,
    ensures
        without(s, x).len() > 0,
        without(s, x)[0] == s[0],
    decreases s.len(),
{
    if s.len() == 1 {
        reveal_with_fuel(without, 2);
        assert(s.drop_last() =~= Seq::<usize>::empty());
    } else {
        let front = s.drop_last();
        assert(front[0] == s[0]);
        lemma_without_first(front, x);
    }
}

/// The place of the node with offset `i` in the expansion of a reducible
/// node, counted against the forward walk: the exit has place 0, and the
/// walk inside the expansion leads from higher to lower places.
pub open spec fn place<'a>(m: Map<NodeID, AstNodeRef<'a>>, nd: CfgNodeDescriptor, i: int) -> int {
    let n = expansion_of(m, nd, 0).nds.len() as int;
    if i == 1 {
        0
    } else if i == 0 {
        n - 1
    } else {
        match nd {
            CfgNodeDescriptor::Block(_) | CfgNodeDescriptor::UncheckedBlock(_) => n - i,
            CfgNodeDescriptor::IfStatement(_) => if i == 5 {
                1
            } else if i == 7 {
                2
            } else if i == 4 {
                3
            } else if i == 3 {
                4
            } else if i == 6 {
                5
            } else if i == 2 {
                6
            } else if i == 9 {
                7
            } else if i == 10 {
                8
            } else {
                9
            },
            CfgNodeDescriptor::WhileStatement(_) => if i == 2 {
                1
            } else if i == 5 {
                2
            } else if i == 7 {
                3
            } else if i == 4 {
                4
            } else if i == 3 {
                5
            } else {
                6
            },
            CfgNodeDescriptor::DoWhileStatement(_) => if i == 4 {
                1
            } else if i == 3 {
                2
            } else if i == 6 {
                3
            } else if i == 2 {
                4
            } else if i == 5 {
                5
            } else {
                6
            },
            CfgNodeDescriptor::ForStatement(r) => {
                let s = *m[r.for_statement]->ForStatement_0;
                let hi: int = if s.initialization_expression is Some {
                    1
                } else {
                    0
                };
                let hc: int = if s.condition is Some {
                    1
                } else {
                    0
                };
                if i == 8 {
                    1
                } else if i == 7 {
                    2
                } else if i == 10 {
                    3
                } else if i == 6 {
                    4
                } else if i == 5 {
                    5
                } else if i == 4 {
                    6 + hc
                } else if i == 3 {
                    7 + hc
                } else if i == 2 {
                    8 + hc + hi
                } else if i == 9 {
                    9 + hc + hi
                } else if i == 11 && hi == 1 {
                    8 + hc
                } else if i == for_cond_offset(s) && hc == 1 {
                    6
                } else {
                    10 + hc + hi
                }
            },
            _ => 0,
        }
    }
}

/// The ranks after the reducible node `c` was replaced by its expansion:
/// the new nodes take the rank of `c` and the ranks above it, by their
/// places, and whatever ranked at or above `c` moves up accordingly.
pub open spec fn rank_after<'a>(
    m: Map<NodeID, AstNodeRef<'a>>,
    pre: Cfg,
    c: usize,
    rank: spec_fn(usize) -> nat,
) -> spec_fn(usize) -> nat {
    let base = pre.next();
    let nd = pre.nodes@[c].nd;
    let n = expansion_of(m, nd, base).nds.len();
    |k: usize|
        if base <= k < base + n {
            (rank(c) + place(m, nd, k - base)) as nat
        } else if rank(k) >= rank(c) {
            rank(k) + n
        } else {
            rank(k)
        }
}

/// The loops that the nodes belong to after the reducible node `c` was
/// replaced by its expansion: what lies between the two sentinels of a
/// loop belongs to that loop; any other new node belongs to the loop that
/// `c` belonged to; the rest is as before.
pub open spec fn owner_after<'a>(
    m: Map<NodeID, AstNodeRef<'a>>,
    pre: Cfg,
    c: usize,
    owner: spec_fn(usize) -> Option<usize>,
) -> spec_fn(usize) -> Option<usize> {
    let base = pre.next();
    let x = expansion_of(m, pre.nodes@[c].nd, base);
    let n = x.nds.len();
    |k: usize|
        if base + 2 <= k < base + n && x.cond is Some {
            Some(base)
        } else if base <= k < base + n {
            owner(c)
        } else {
            owner(k)
        }
}

/// The places of an expansion lie below the number of its nodes, and the
/// entry has a higher place than the exit.
proof fn lemma_place_bounds<'a>(m: Map<NodeID, AstNodeRef<'a>>, nd: CfgNodeDescriptor, i: int)
    requires
        nd.is_reducible(),
        0 <= i < expansion_of(m, nd, 0).nds.len(),
    ensures
        0 <= place(m, nd, i) < expansion_of(m, nd, 0).nds.len(),
        place(m, nd, 0) > 0,
        place(m, nd, 1) == 0,
{
}

/// The number of nodes of an expansion does not depend on the identities
/// that its nodes get.
proof fn lemma_len_any_base<'a>(
    m: Map<NodeID, AstNodeRef<'a>>,
    nd: CfgNodeDescriptor,
    base: usize,
)
    ensures
        expansion_of(m, nd, base).nds.len() == expansion_of(m, nd, 0).nds.len(),
{
}

/// A node that was there before the reduction and is not the one replaced
/// is ranked and assigned as the walk asks.
proof fn lemma_old_node_ok<'a>(
    m: Map<NodeID, AstNodeRef<'a>>,
    c: usize,
    pre: Cfg,
    post: Cfg,
    rank: spec_fn(usize) -> nat,
    owner: spec_fn(usize) -> Option<usize>,
    k: usize,
)
    requires
        pre.inv(),
        pre.reducible(c),
        replaced(m, c, pre, post),
        nested(pre, rank, owner),
        pre.live(k),
        k != c,
    ensures
        node_ok(post, rank_after(m, pre, c, rank), owner_after(m, pre, c, owner), k),
{
    reveal(graph_inv);
    let base = pre.next();
    let nd = pre.nodes@[c].nd;
    let x = expansion_of(m, nd, base);
    let n = x.nds.len();
    let r2 = rank_after(m, pre, c, rank);
    let o2 = owner_after(m, pre, c, owner);
    lemma_len_any_base(m, nd, base);
    lemma_place_bounds(m, nd, 0);
    assert(node_ok(pre, rank, owner, k));
    assert(node_ok(pre, rank, owner, c));
    assert(k < base);
    assert(post.nodes@[k] == pre.nodes@[k]);
    // the tables have new keys only
    assert(marked(post, k) == marked(pre, k));
    assert(post.start_end_pairs@.contains_key(k) == pre.start_end_pairs@.contains_key(k));
    assert(pre.start_end_pairs@.contains_key(k) ==> post.start_end_pairs@[k]
        == pre.start_end_pairs@[k]);
    // the edges out of the node
    assert(post.succ(k) == if pre.has_edge(k, c) {
        without(pre.succ(k), c).push(base)
    } else {
        pre.succ(k)
    });
    if pre.has_edge(k, c) {
        let j = choose|j: int| 0 <= j < pre.succ(k).len() && pre.succ(k)[j] == c;
        assert(pre.descriptor(pre.succ(k)[j]).is_reducible());
        assert(pre.succ(k).len() == 1);
        assert(pre.succ(k)[0] == c);
        reveal_with_fuel(without, 2);
        assert(pre.succ(k).drop_last() =~= Seq::<usize>::empty());
        assert(without(pre.succ(k), c) =~= Seq::<usize>::empty());
        assert(post.succ(k) =~= seq![base]);
        assert(post.nodes@[(base + 0) as usize].nd == x.nds[0]);
        assert(post.live(base));
    }
    assert forall|j: int|
        0 <= j < post.succ(k).len() && post.descriptor(#[trigger] post.succ(k)[j]).is_reducible()
        implies post.succ(k).len() == 1 by {
        if !pre.has_edge(k, c) {
            let t = pre.succ(k)[j];
            assert(pre.live(t));
            assert(t != c);
            assert(post.nodes@[t] == pre.nodes@[t]);
        }
    }
    if pre.start_end_pairs@.contains_key(k) {
        let e = pre.start_end_pairs@[k];
        assert(pre.live(e) && e != c);
        assert(post.nodes@[e] == pre.nodes@[e]);
    }
    if marked(pre, k) is None {
        match walk_next(pre, k) {
            Some(k2) => {
                assert(pre.live(k2));
                if k2 == c {
                    assert(!pre.start_end_pairs@.contains_key(k));
                    assert(pre.has_edge(k, c));
                    assert(walk_next(post, k) == Some(base));
                    assert(rank(k) > rank(c));
                } else {
                    assert(post.live(k2));
                    if !pre.start_end_pairs@.contains_key(k) {
                        assert(!pre.has_edge(k, c));
                    }
                    assert(walk_next(post, k) == Some(k2));
                    assert(k2 < base);
                }
            },
            None => {
                assert(walk_next(post, k) is None);
            },
        }
    }
}

/// What the tables say of the new nodes of a reduction: none of them
/// stood in a table before; the entry is paired with the exit if the
/// expansion pairs them; the sentinels that the expansion names mark the
/// entry's loop.
proof fn lemma_new_keys<'a>(
    m: Map<NodeID, AstNodeRef<'a>>,
    c: usize,
    pre: Cfg,
    post: Cfg,
    i: int,
)
    requires
        pre.inv(),
        pre.reducible(c),
        replaced(m, c, pre, post),
        keys_live(pre),
        0 <= i < expansion_of(m, pre.nodes@[c].nd, pre.next()).nds.len(),
    ensures
        ({
            let base = pre.next();
            let x = expansion_of(m, pre.nodes@[c].nd, base);
            let k = (base + i) as usize;
            &&& post.live(k)
            &&& post.descriptor(k) == x.nds[i]
            &&& i != 1 ==> post.succ(k) == x.edges[i]
            &&& post.start_end_pairs@.contains_key(k) == (x.paired && i == 0)
            &&& x.paired ==> post.start_end_pairs@[base] == base + 1
            &&& marked(post, k) == if (x.cond_back && x.cond == Some(k)) || x.update == Some(k) {
                Some(base)
            } else {
                None::<usize>
            }
        }),
{
    reveal(graph_inv);
    let base = pre.next();
    let x = expansion_of(m, pre.nodes@[c].nd, base);
    let k = (base + i) as usize;
    assert(post.nodes@[(base + i) as usize].nd == x.nds[i]);
    assert(!pre.live(k));
    if i != 1 {
        assert(post.succ((base + i) as usize) == x.edges[i]);
    }
}

/// The entry of the expansion is ranked and assigned as the walk asks.
proof fn lemma_entry_ok<'a>(
    m: Map<NodeID, AstNodeRef<'a>>,
    c: usize,
    pre: Cfg,
    post: Cfg,
    rank: spec_fn(usize) -> nat,
    owner: spec_fn(usize) -> Option<usize>,
)
    requires
        pre.inv(),
        pre.reducible(c),
        replaced(m, c, pre, post),
        nested(pre, rank, owner),
    ensures
        node_ok(post, rank_after(m, pre, c, rank), owner_after(m, pre, c, owner), pre.next()),
{
    let base = pre.next();
    let nd = pre.nodes@[c].nd;
    let x = expansion_of(m, nd, base);
    lemma_len_any_base(m, nd, base);
    lemma_place_bounds(m, nd, 0);
    lemma_place_bounds(m, nd, 1);
    lemma_new_keys(m, c, pre, post, 0);
    lemma_new_keys(m, c, pre, post, 1);
    assert(node_ok(pre, rank, owner, c));
    assert(x.edges[0].len() == 1);
    assert(x.edges[0][0] == base + 1 || x.edges[0][0] == base + 2);
}

/// The exit of the expansion is ranked and assigned as the walk asks: the
/// walk goes on from it as it went on from the node that was replaced.
proof fn lemma_exit_ok<'a>(
    m: Map<NodeID, AstNodeRef<'a>>,
    c: usize,
    pre: Cfg,
    post: Cfg,
    rank: spec_fn(usize) -> nat,
    owner: spec_fn(usize) -> Option<usize>,
)
    requires
        pre.inv(),
        pre.reducible(c),
        replaced(m, c, pre, post),
        nested(pre, rank, owner),
    ensures
        node_ok(
            post,
            rank_after(m, pre, c, rank),
            owner_after(m, pre, c, owner),
            (pre.next() + 1) as usize,
        ),
{
    reveal(graph_inv);
    let base = pre.next();
    let nd = pre.nodes@[c].nd;
    let x = expansion_of(m, nd, base);
    let k = (base + 1) as usize;
    lemma_len_any_base(m, nd, base);
    lemma_place_bounds(m, nd, 1);
    lemma_exit_is_open(m, nd, base);
    lemma_new_keys(m, c, pre, post, 1);
    assert(node_ok(pre, rank, owner, c));
    let tail = without(pre.succ(c), c);
    assert(post.succ(k) =~= tail);
    assert(marked(pre, c) is None && !pre.start_end_pairs@.contains_key(c));
    if pre.succ(c).len() > 0 {
        let k2 = pre.succ(c)[0];
        assert(pre.live(k2) && rank(k2) < rank(c));
        assert(k2 != c);
        lemma_without_first(pre.succ(c), c);
        assert(post.nodes@[k2] == pre.nodes@[k2]);
    } else {
        reveal_with_fuel(without, 1);
        assert(tail =~= Seq::<usize>::empty());
    }
    assert forall|j: int|
        0 <= j < post.succ(k).len() && post.descriptor(#[trigger] post.succ(k)[j]).is_reducible()
        implies post.succ(k).len() == 1 by {
        let t = tail[j];
        assert(tail.contains(t));
        lemma_without_contains(pre.succ(c), c, t);
        let j0 = choose|j0: int| 0 <= j0 < pre.succ(c).len() && pre.succ(c)[j0] == t;
        assert(pre.live(pre.succ(c)[j0]));
        assert(post.nodes@[t] == pre.nodes@[t]);
        assert(pre.descriptor(pre.succ(c)[j0]).is_reducible());
        assert(pre.succ(c).len() == 1);
        assert(tail.len() <= 1) by {
            reveal_with_fuel(without, 2);
            assert(pre.succ(c).drop_last() =~= Seq::<usize>::empty());
        }
    }
}

/// A node between the entry and the exit of the expansion is ranked and
/// assigned as the walk asks.
proof fn lemma_inner_ok<'a>(
    m: Map<NodeID, AstNodeRef<'a>>,
    c: usize,
    pre: Cfg,
    post: Cfg,
    rank: spec_fn(usize) -> nat,
    owner: spec_fn(usize) -> Option<usize>,
    i: int,
)
    requires
        pre.inv(),
        pre.reducible(c),
        replaced(m, c, pre, post),
        nested(pre, rank, owner),
        2 <= i < expansion_of(m, pre.nodes@[c].nd, pre.next()).nds.len(),
    ensures
        node_ok(
            post,
            rank_after(m, pre, c, rank),
            owner_after(m, pre, c, owner),
            (pre.next() + i) as usize,
        ),
{
    let base = pre.next();
    let nd = pre.nodes@[c].nd;
    let x = expansion_of(m, nd, base);
    let n = x.nds.len() as int;
    let k = (base + i) as usize;
    lemma_len_any_base(m, nd, base);
    lemma_place_bounds(m, nd, i);
    lemma_new_keys(m, c, pre, post, i);
    assert(node_ok(pre, rank, owner, c));
    assert(rank(c) < base);
    lemma_inner_edges(m, nd, base, i);
    let t = x.edges[i][0] - base;
    lemma_place_bounds(m, nd, t);
    lemma_new_keys(m, c, pre, post, t);
    if x.edges[i].len() == 2 {
        let u = x.edges[i][1] - base;
        lemma_new_keys(m, c, pre, post, u);
    }
    assert forall|j: int|
        0 <= j < post.succ(k).len() && post.descriptor(#[trigger] post.succ(k)[j]).is_reducible()
        implies post.succ(k).len() == 1 by {
        if x.edges[i].len() == 2 {
            assert(j == 0 || j == 1);
        }
    }
}

/// The edges out of a node between the entry and the exit of an expansion:
/// one edge, or two edges to sentinels. The first leads to a node of the
/// expansion with a lower place; it stays between the entry and the exit if
/// the expansion is that of a loop, and the node marks the loop if it is
/// the sentinel that the expansion names.
proof fn lemma_inner_edges<'a>(
    m: Map<NodeID, AstNodeRef<'a>>,
    nd: CfgNodeDescriptor,
    base: usize,
    i: int,
)
    requires
        nd.is_reducible(),
        2 <= i < expansion_of(m, nd, base).nds.len(),
        base + expansion_of(m, nd, base).nds.len() <= usize::MAX,
    ensures
        ({
            let x = expansion_of(m, nd, base);
            let n = x.nds.len() as int;
            let t = x.edges[i][0] - base;
            &&& x.edges.len() == n
            &&& 1 <= x.edges[i].len() <= 2
            &&& 1 <= t < n
            &&& x.edges[i].len() == 2 ==> {
                let u = x.edges[i][1] - base;
                &&& 1 <= u < n
                &&& !x.nds[t].is_reducible()
                &&& !x.nds[u].is_reducible()
            }
            &&& place(m, nd, t) < place(m, nd, i) || (x.cond_back && x.cond == Some(
                (base + i) as usize,
            )) || x.update == Some((base + i) as usize)
            &&& x.cond is Some ==> t >= 2 && x.paired
            &&& (x.cond_back && x.cond == Some((base + i) as usize)) || x.update == Some(
                (base + i) as usize,
            ) ==> !x.nds[i].is_reducible() && x.cond is Some
        }),
{
    lemma_len_any_base(m, nd, base);
}

/// The sentinels that an expansion names are among its nodes.
proof fn lemma_named_within<'a>(m: Map<NodeID, AstNodeRef<'a>>, nd: CfgNodeDescriptor, base: usize)
    requires
        nd.is_reducible(),
        base + expansion_of(m, nd, base).nds.len() <= usize::MAX,
    ensures
        ({
            let x = expansion_of(m, nd, base);
            &&& x.cond matches Some(k) ==> base <= k < base + x.nds.len()
            &&& x.update matches Some(k) ==> base <= k < base + x.nds.len()
            &&& x.nds.len() >= 2
        }),
{
}

/// A reduction keeps the nodes ranked and assigned as the walk asks.
pub proof fn lemma_step_keeps_nesting<'a>(
    m: Map<NodeID, AstNodeRef<'a>>,
    c: usize,
    pre: Cfg,
    post: Cfg,
    rank: spec_fn(usize) -> nat,
    owner: spec_fn(usize) -> Option<usize>,
)
    requires
        pre.inv(),
        pre.reducible(c),
        replaced(m, c, pre, post),
        nested(pre, rank, owner),
    ensures
        nested(post, rank_after(m, pre, c, rank), owner_after(m, pre, c, owner)),
{
    let base = pre.next();
    let nd = pre.nodes@[c].nd;
    let x = expansion_of(m, nd, base);
    let n = x.nds.len() as int;
    let r2 = rank_after(m, pre, c, rank);
    let o2 = owner_after(m, pre, c, owner);
    lemma_named_within(m, nd, base);
    assert(keys_live(post)) by {
        assert forall|k: usize|
            post.cond_start_pairs@.contains_key(k) || post.loop_expr_start@.contains_key(k)
                || post.start_end_pairs@.contains_key(k) implies #[trigger] post.live(k) by {
            if pre.cond_start_pairs@.contains_key(k) || pre.loop_expr_start@.contains_key(k)
                || pre.start_end_pairs@.contains_key(k) {
                assert(pre.live(k));
                assert(node_ok(pre, rank, owner, k));
                assert(node_ok(pre, rank, owner, c));
                assert(k != c);
            } else {
                assert(k == base || x.cond == Some(k) || x.update == Some(k));
                let i = k - base;
                assert(0 <= i < n);
                assert(post.nodes@[(base + i) as usize].nd == x.nds[i]);
            }
        }
    }
    assert forall|k: usize| #[trigger] post.live(k) implies node_ok(post, r2, o2, k) by {
        if pre.live(k) && k != c {
            lemma_old_node_ok(m, c, pre, post, rank, owner, k);
        } else {
            let i = k - base;
            if i == 0 {
                lemma_entry_ok(m, c, pre, post, rank, owner);
            } else if i == 1 {
                lemma_exit_ok(m, c, pre, post, rank, owner);
            } else {
                lemma_inner_ok(m, c, pre, post, rank, owner, i);
            }
        }
    }
}

/// The loop that a node of the `i`-th graph of a list of reduction steps
/// lies in, innermost loop first: nodes of the first graph lie in no loop;
/// what a step makes between the two sentinels of a loop lies in that
/// loop; whatever else it makes lies where the node that it replaced lay.
pub open spec fn loop_around<'a>(
    m: Map<NodeID, AstNodeRef<'a>>,
    trace: Seq<Cfg>,
    i: int,
    k: usize,
) -> Option<usize>
    decreases i,
{
    if i <= 0 {
        None
    } else {
        let pre = trace[i - 1];
        let c = pre.queue()[0];
        let base = pre.next();
        let x = expansion_of(m, pre.nodes@[c].nd, base);
        let n = x.nds.len();
        if base + 2 <= k < base + n && x.cond is Some {
            Some(base)
        } else if base <= k < base + n {
            loop_around(m, trace, i - 1, c)
        } else {
            loop_around(m, trace, i - 1, k)
        }
    }
}

/// The seed of a body, alone in its graph, is ranked as the walk asks, and
/// none of its nodes lies in a loop.
proof fn lemma_seed_nested(
    g: Cfg,
    rank: spec_fn(usize) -> nat,
    owner: spec_fn(usize) -> Option<usize>,
)
    requires
        seeded_alone(g),
        rank(0) == 2,
        rank(1) == 0,
        rank(2) == 1,
        forall|k: usize| (#[trigger] owner(k)) is None,
    ensures
        nested(g, rank, owner),
{
    reveal(graph_inv);
    assert forall|k: usize| #[trigger] g.live(k) implies node_ok(g, rank, owner, k) by {
        assert(k == 0 || k == 1 || k == 2);
        assert(owner(0) is None && owner(1) is None && owner(2) is None);
    }
    assert(keys_live(g)) by {
        assert forall|k: usize|
            g.cond_start_pairs@.contains_key(k) || g.loop_expr_start@.contains_key(k)
                || g.start_end_pairs@.contains_key(k) implies #[trigger] g.live(k) by {
            assert(g.start_end_pairs@.contains_key(k));
            assert(k == 0);
            assert(g.live(0));
        }
    }
}

/// The assignment gives every node the loop around it in the `i`-th graph
/// of the list.
pub open spec fn tells_loops<'a>(
    owner: spec_fn(usize) -> Option<usize>,
    m: Map<NodeID, AstNodeRef<'a>>,
    trace: Seq<Cfg>,
    i: int,
) -> bool {
    forall|k: usize| #[trigger] owner(k) == loop_around(m, trace, i, k)
}

/// The nodes of the `i`-th graph of the list can be ranked so that the
/// forward walk from a node leads down the ranks to the marker of the loop
/// around the node.
pub open spec fn walks_to_loops<'a>(m: Map<NodeID, AstNodeRef<'a>>, trace: Seq<Cfg>, i: int) -> bool {
    exists|rank: spec_fn(usize) -> nat, owner: spec_fn(usize) -> Option<usize>|
        #[trigger] nested(trace[i], rank, owner) && tells_loops(owner, m, trace, i)
}

/// Along the reduction steps that start at the seed of a body in an empty
/// graph the forward walk keeps leading from every node to the marker of
/// the loop around it.
pub proof fn lemma_steps_keep_nesting<'a>(m: Map<NodeID, AstNodeRef<'a>>, trace: Seq<Cfg>, i: int)
    requires
        is_trace(m, trace),
        seeded_alone(trace[0]),
        0 <= i < trace.len(),
    ensures
        trace[i].inv(),
        walks_to_loops(m, trace, i),
    decreases i,
{
    if i == 0 {
        let rank = |k: usize| -> nat {
            if k == 0 {
                2nat
            } else if k == 2 {
                1nat
            } else {
                0nat
            }
        };
        let owner = |k: usize| None::<usize>;
        lemma_seed_nested(trace[0], rank, owner);
        assert(tells_loops(owner, m, trace, 0));
    } else {
        lemma_steps_keep_nesting(m, trace, i - 1);
        let pre = trace[i - 1];
        let post = trace[i];
        let c = pre.queue()[0];
        assert(stepped(m, pre, trace[i - 1 + 1]));
        lemma_queued_is_live(pre, 0);
        let (rank0, owner0) = choose|
            rank: spec_fn(usize) -> nat,
            owner: spec_fn(usize) -> Option<usize>,
        |
            #[trigger] nested(trace[i - 1], rank, owner) && tells_loops(owner, m, trace, i - 1);
        lemma_step_keeps_nesting(m, c, pre, post, rank0, owner0);
        let r2 = rank_after(m, pre, c, rank0);
        let o2 = owner_after(m, pre, c, owner0);
        lemma_owner_after_tells(m, trace, i, owner0);
        assert(nested(trace[i], r2, o2) && tells_loops(o2, m, trace, i));
    }
}

/// The assignment after a step gives every node the loop around it, if the
/// assignment before the step did.
proof fn lemma_owner_after_tells<'a>(
    m: Map<NodeID, AstNodeRef<'a>>,
    trace: Seq<Cfg>,
    i: int,
    owner0: spec_fn(usize) -> Option<usize>,
)
    requires
        0 < i < trace.len(),
        tells_loops(owner0, m, trace, i - 1),
    ensures
        tells_loops(owner_after(m, trace[i - 1], trace[i - 1].queue()[0], owner0), m, trace, i),
{
    let pre = trace[i - 1];
    let c = pre.queue()[0];
    let o2 = owner_after(m, pre, c, owner0);
    assert forall|k: usize| #[trigger] o2(k) == loop_around(m, trace, i, k) by {
        assert(owner0(c) == loop_around(m, trace, i - 1, c));
        assert(owner0(k) == loop_around(m, trace, i - 1, k));
    }
}

/// The graph holds the seed of a body and nothing else: a start sentinel,
/// an end sentinel and the reducible node of the body under the first
/// three identities, the start sentinel paired with the end sentinel or
/// not.
pub open spec fn seeded_alone(g: Cfg) -> bool {
    &&& g.wf()
    &&& g.next() == 3
    &&& forall|k: usize| g.live(k) <==> (k == 0 || k == 1 || k == 2)
    &&& g.descriptor(0) is Start
    &&& g.descriptor(1) is End
    &&& g.descriptor(2).is_reducible()
    &&& g.succ(0) == seq![2usize]
    &&& g.succ(1) == Seq::<usize>::empty()
    &&& g.succ(2) == seq![1usize]
    &&& g.start_end_pairs@ == Map::<usize, usize>::empty() || g.start_end_pairs@ == Map::<
        usize,
        usize,
    >::empty().insert(0, 1)
    &&& g.cond_start_pairs@ == Map::<usize, usize>::empty()
    &&& g.loop_expr_start@ == Map::<usize, usize>::empty()
}

/// The seed of a body in an empty graph stands alone in its graph.
proof fn lemma_seed_alone(
    empty: Cfg,
    seeded: Cfg,
    start: CfgStartNode,
    end: CfgEndNode,
    block: NodeID,
)
    requires
        empty.is_fresh(),
        is_seed(empty, seeded, start, end, block),
    ensures
        seeded_alone(seeded),
{
    reveal(graph_inv);
    assert(one_is(seeded.succ(0), 2));
    assert(one_is(seeded.succ(2), 1));
}

/// The list holds the one node.
spec fn one_is(s: Seq<usize>, a: usize) -> bool {
    s =~= seq![a]
}

/// The forward walk reads the edges and the tables of a graph, nothing
/// else.
proof fn lemma_same_walk(a: Cfg, b: Cfg, k: usize, fuel: nat)
    requires
        a.same_graph(&b),
    ensures
        enclosing_loop(a, k, fuel) == enclosing_loop(b, k, fuel),
    decreases fuel,
{
    if fuel > 0 {
        if a.cond_start_pairs@.contains_key(k) {
        } else if a.loop_expr_start@.contains_key(k) {
        } else if a.start_end_pairs@.contains_key(k) {
            lemma_same_walk(a, b, a.start_end_pairs@[k], (fuel - 1) as nat);
        } else if a.succ(k).len() > 0 {
            lemma_same_walk(a, b, a.succ(k)[0], (fuel - 1) as nat);
        }
    }
}

/// In a graph that reduction has built from nothing, the forward walk from
/// a node finds the innermost loop around the node: the loop between whose
/// sentinels the node was made, directly or within constructs that are no
/// loops. It finds none for a node that lies in no loop. The end sentinel
/// of the loop found is in the registry.
pub proof fn lemma_walk_finds_innermost_loop<'a>(
    m: Map<NodeID, AstNodeRef<'a>>,
    empty: Cfg,
    mid: Cfg,
    start: CfgStartNode,
    end: CfgEndNode,
    block: NodeID,
    trace: Seq<Cfg>,
    k: usize,
)
    requires
        empty.is_fresh(),
        is_seed(empty, trace[0], start, end, block),
        is_trace(m, trace),
        trace.last().same_graph(&mid),
        mid.live(k),
    ensures
        enclosing_loop(mid, k, mid.next() as nat) == loop_around(m, trace, trace.len() - 1, k),
        loop_around(m, trace, trace.len() - 1, k) matches Some(l)
            ==> mid.start_end_pairs@.contains_key(l) && mid.live(mid.start_end_pairs@[l]),
{
    let last = trace.last();
    let i = trace.len() - 1;
    lemma_seed_alone(empty, trace[0], start, end, block);
    lemma_steps_keep_nesting(m, trace, i);
    let (rank, owner) = choose|rank: spec_fn(usize) -> nat, owner: spec_fn(usize) -> Option<usize>|
        #[trigger] nested(trace[i], rank, owner) && tells_loops(owner, m, trace, i);
    assert(last.live(k));
    assert(node_ok(last, rank, owner, k));
    lemma_walk_finds_owner(last, rank, owner, k, last.next() as nat);
    lemma_same_walk(last, mid, k, last.next() as nat);
    assert(owner(k) == loop_around(m, trace, i, k));
    match owner(k) {
        Some(l) => {
            assert(last.start_end_pairs@.contains_key(l));
            assert(last.live(l));
            assert(node_ok(last, rank, owner, l));
        },
        None => {},
    }
}

/// In the graph of a body that was built from nothing, a `break` flows,
/// once the flow out of the jumps is corrected, to the end sentinel of the
/// innermost loop around it and nowhere else.
pub proof fn lemma_break_leaves_innermost_loop<'a>(
    m: Map<NodeID, AstNodeRef<'a>>,
    empty: Cfg,
    mid: Cfg,
    g: Cfg,
    start: CfgStartNode,
    end: CfgEndNode,
    body: &Block,
    ends: (CfgNodeId, CfgNodeId),
    trace: Seq<Cfg>,
    k: usize,
    l: usize,
)
    requires
        empty.is_fresh(),
        mid.built(m, &empty, start, end, body, ends),
        calibrated(mid, g, ends.0.0, ends.1.0),
        is_seed(empty, trace[0], start, end, body.id),
        is_trace(m, trace),
        trace.last().same_graph(&mid),
        g.live(k),
        g.descriptor(k) is Break,
        loop_around(m, trace, trace.len() - 1, k) == Some(l),
    ensures
        g.start_end_pairs@.contains_key(l),
        g.succ(k) == seq![g.start_end_pairs@[l]],
{
    lemma_walk_finds_innermost_loop(m, empty, mid, start, end, body.id, trace, k);
    lemma_built_within_reach(m, empty, mid, start, end, body, ends);
    assert(g.succ(k) == seq![jump_target(mid, k, ends.1.0)]);
}

/// In the graph of a body that was built from nothing, a `continue` flows,
/// once the flow out of the jumps is corrected, to where a `continue` of
/// the innermost loop around it flows: the sentinel that opens the update
/// expression of a `for` loop, or the condition of a `while` or
/// `do`-`while` loop.
pub proof fn lemma_continue_stays_in_innermost_loop<'a>(
    m: Map<NodeID, AstNodeRef<'a>>,
    empty: Cfg,
    mid: Cfg,
    g: Cfg,
    start: CfgStartNode,
    end: CfgEndNode,
    body: &Block,
    ends: (CfgNodeId, CfgNodeId),
    trace: Seq<Cfg>,
    k: usize,
    l: usize,
)
    requires
        empty.is_fresh(),
        mid.built(m, &empty, start, end, body, ends),
        calibrated(mid, g, ends.0.0, ends.1.0),
        is_seed(empty, trace[0], start, end, body.id),
        is_trace(m, trace),
        trace.last().same_graph(&mid),
        g.live(k),
        g.descriptor(k) is Continue,
        loop_around(m, trace, trace.len() - 1, k) == Some(l),
    ensures
        g.start_loop_expr@.contains_key(l) && g.live(g.start_loop_expr@[l]) ==> g.succ(k) == seq![
            g.start_loop_expr@[l],
        ],
        !g.start_loop_expr@.contains_key(l) && g.start_cond_pairs@.contains_key(l) && g.live(
            g.start_cond_pairs@[l],
        ) ==> g.succ(k) == seq![g.start_cond_pairs@[l]],
{
    lemma_walk_finds_innermost_loop(m, empty, mid, start, end, body.id, trace, k);
    lemma_built_within_reach(m, empty, mid, start, end, body, ends);
    assert(g.succ(k) == seq![jump_target(mid, k, ends.1.0)]);
}

} // verus!
