use vstd::prelude::*;
use crate::ast::node::NodeID;
use crate::context::flow::expansion::{expansion_of, one, two};
use crate::context::flow::reduction::replaced;
use crate::context::flow::utils::calibrated;
use crate::context::flow::voids::CfgStartNode;
use crate::context::flow::{graph_inv, Cfg, CfgNode, CfgNodeDescriptor, CfgNodeId};
use crate::context::workspace_context::{AstNodeRef, WorkspaceContext};

verus! {

impl Cfg {
    /// The node is in the registry and is a sentinel.
    pub open spec fn is_void(&self, k: int) -> bool {
        &&& 0 <= k < self.next()
        &&& self.live(k as usize)
        &&& (self.descriptor(k as usize) is Start || self.descriptor(k as usize) is End)
    }

    /// The node is in the registry, and nothing is left to expand in it.
    pub open spec fn is_settled(&self, k: int) -> bool {
        &&& 0 <= k < self.next()
        &&& self.live(k as usize)
        &&& !self.descriptor(k as usize).is_reducible()
    }

    /// The frame of an `if` whose start sentinel is `s`: the condition is
    /// evaluated at one point, from whose end sentinel exactly two edges
    /// lead on, the first into the true branch, the second into the false
    /// branch or, without an `else`, to the end sentinel of the `if`. Both
    /// branches end at that same end sentinel.
    pub open spec fn if_frame(&self, s: int) -> bool {
        &&& self.is_void(s) && self.is_void(s + 1) && self.is_void(s + 2) && self.is_void(s + 3)
            && self.is_void(s + 4) && self.is_void(s + 5)
        &&& self.descriptor((s + 1) as usize) is End
        &&& self.is_settled(s + 6)
        &&& self.descriptor((s + 6) as usize) is IfStatementCondition
        &&& self.succ(s as usize) == one(s + 2)
        &&& self.succ((s + 2) as usize) == one(s + 6)
        &&& self.succ((s + 6) as usize) == one(s + 3)
        &&& self.succ((s + 5) as usize) == one(s + 1)
        &&& {
            ||| self.succ((s + 3) as usize) == two(s + 4, s + 1)
            ||| {
                &&& self.succ((s + 3) as usize) == two(s + 4, s + 8)
                &&& self.is_void(s + 8)
                &&& self.is_void(s + 9)
                &&& self.succ((s + 9) as usize) == one(s + 1)
            }
        }
        &&& self.start_end_pairs@[s as usize] == s + 1
    }

    /// The frame of a `while` loop whose start sentinel is `s`: the end of
    /// the body leads back to the condition; from the end of the condition
    /// one edge leads into the body and one to the end sentinel of the
    /// loop.
    pub open spec fn while_frame(&self, s: int) -> bool {
        &&& self.is_void(s) && self.is_void(s + 1) && self.is_void(s + 2) && self.is_void(s + 3)
            && self.is_void(s + 4) && self.is_void(s + 5)
        &&& self.descriptor((s + 1) as usize) is End
        &&& self.is_settled(s + 6)
        &&& self.descriptor((s + 6) as usize) is WhileStatementCondition
        &&& self.succ(s as usize) == one(s + 2)
        &&& self.succ((s + 2) as usize) == one(s + 6)
        &&& self.succ((s + 6) as usize) == one(s + 3)
        &&& self.succ((s + 3) as usize) == two(s + 4, s + 1)
        &&& self.succ((s + 5) as usize) == one(s + 2)
        &&& self.start_end_pairs@[s as usize] == s + 1
        &&& self.start_cond_pairs@.contains_key(s as usize)
        &&& self.start_cond_pairs@[s as usize] == s + 2
        &&& self.cond_start_pairs@.contains_key((s + 2) as usize)
        &&& self.cond_start_pairs@[(s + 2) as usize] == s
    }

    /// The frame of a `do`-`while` loop whose start sentinel is `s`: the
    /// body comes first and leads to the condition; from the end of the
    /// condition one edge leads back into the body and one to the end
    /// sentinel of the loop.
    pub open spec fn do_while_frame(&self, s: int) -> bool {
        &&& self.is_void(s) && self.is_void(s + 1) && self.is_void(s + 2) && self.is_void(s + 3)
            && self.is_void(s + 4) && self.is_void(s + 5)
        &&& self.descriptor((s + 1) as usize) is End
        &&& self.is_settled(s + 7)
        &&& self.descriptor((s + 7) as usize) is DoWhileStatementCondition
        &&& self.succ(s as usize) == one(s + 2)
        &&& self.succ((s + 3) as usize) == one(s + 4)
        &&& self.succ((s + 4) as usize) == one(s + 7)
        &&& self.succ((s + 7) as usize) == one(s + 5)
        &&& self.succ((s + 5) as usize) == two(s + 2, s + 1)
        &&& self.start_end_pairs@[s as usize] == s + 1
        &&& self.start_cond_pairs@.contains_key(s as usize)
        &&& self.start_cond_pairs@[s as usize] == s + 4
        &&& self.cond_start_pairs@.contains_key((s + 4) as usize)
        &&& self.cond_start_pairs@[(s + 4) as usize] == s
    }

    /// The frame of a `for` loop whose start sentinel is `s`: the
    /// initializer leads to the condition; from the end of the condition
    /// one edge leads into the body and one to the end sentinel of the
    /// loop; the body leads to the update expression, whose end leads back
    /// to the condition.
    pub open spec fn for_frame(&self, s: int) -> bool {
        &&& self.is_void(s) && self.is_void(s + 1) && self.is_void(s + 2) && self.is_void(s + 3)
            && self.is_void(s + 4) && self.is_void(s + 5) && self.is_void(s + 6) && self.is_void(
            s + 7,
        ) && self.is_void(s + 8) && self.is_void(s + 9)
        &&& self.descriptor((s + 1) as usize) is End
        &&& self.succ(s as usize) == one(s + 2)
        &&& self.succ((s + 3) as usize) == one(s + 4)
        &&& self.succ((s + 5) as usize) == two(s + 6, s + 1)
        &&& self.succ((s + 7) as usize) == one(s + 8)
        &&& self.succ((s + 9) as usize) == one(s + 4)
        &&& self.start_end_pairs@[s as usize] == s + 1
        &&& self.start_cond_pairs@.contains_key(s as usize)
        &&& self.start_cond_pairs@[s as usize] == s + 4
        &&& self.start_loop_expr@.contains_key(s as usize)
        &&& self.start_loop_expr@[s as usize] == s + 8
        &&& self.loop_expr_start@.contains_key((s + 8) as usize)
        &&& self.loop_expr_start@[(s + 8) as usize] == s
    }

    /// The frame of whatever construct the start sentinel `s` opens.
    pub open spec fn frame_at(&self, s: usize) -> bool {
        match self.descriptor(s) {
            CfgNodeDescriptor::Start(CfgStartNode::StartIf(_)) => self.if_frame(s as int),
            CfgNodeDescriptor::Start(CfgStartNode::StartWhile(_)) => self.while_frame(s as int),
            CfgNodeDescriptor::Start(CfgStartNode::StartDoWhile(_)) => self.do_while_frame(s as int),
            CfgNodeDescriptor::Start(CfgStartNode::StartFor(_)) => self.for_frame(s as int),
            _ => true,
        }
    }

    /// Every construct that was expanded stands in its frame: for every
    /// start sentinel that the table of start and end sentinels knows, the
    /// sentinel is in the registry, and the frame of its construct holds.
    #[verifier::opaque]
    pub open spec fn shaped(&self) -> bool {
        forall|s: usize| #[trigger]
            self.start_end_pairs@.contains_key(s) ==> self.is_void(s as int) && self.frame_at(s)
    }
}

/// A settled node does not lead to a reducible one by the edges that a
/// frame fixes.
proof fn lemma_one_misses(g: Cfg, k: usize, t: int, c: usize)
    requires
        g.succ(k) == one(t),
        0 <= t <= usize::MAX,
        t != c,
    ensures
        !g.has_edge(k, c),
{
    if g.has_edge(k, c) {
        let i = choose|i: int| 0 <= i < one(t).len() && one(t)[i] == c;
    }
}

proof fn lemma_two_misses(g: Cfg, k: usize, a: int, b: int, c: usize)
    requires
        g.succ(k) == two(a, b),
        0 <= a <= usize::MAX,
        0 <= b <= usize::MAX,
        a != c,
        b != c,
    ensures
        !g.has_edge(k, c),
{
    if g.has_edge(k, c) {
        let i = choose|i: int| 0 <= i < two(a, b).len() && two(a, b)[i] == c;
    }
}

/// A reduction leaves the frames of the constructs that were expanded
/// before as they are, and the construct that it expands stands in its
/// frame afterwards.
pub proof fn lemma_replaced_keeps_shape<'a>(
    m: Map<NodeID, AstNodeRef<'a>>,
    c: usize,
    pre: Cfg,
    post: Cfg,
)
    requires
        pre.inv(),
        pre.live(c),
        pre.descriptor(c).is_reducible(),
        replaced(m, c, pre, post),
        pre.shaped(),
    ensures
        post.shaped(),
{
    reveal(Cfg::shaped);
    reveal(graph_inv);
    let base = pre.next();
    let nd = pre.nodes@[c].nd;
    let x = expansion_of(m, nd, base);
    let n = x.nds.len();
    assert forall|s: usize| #[trigger] post.start_end_pairs@.contains_key(s) implies post.is_void(
        s as int,
    ) && post.frame_at(s) by {
        if pre.start_end_pairs@.contains_key(s) {
            assert(pre.is_void(s as int) && pre.frame_at(s));
            lemma_frame_survives(m, c, pre, post, s);
        } else {
            assert(s == base && x.paired);
            lemma_new_frame(m, c, pre, post);
        }
    }
}

/// The frame of a construct that was expanded before survives a
/// reduction.
proof fn lemma_frame_survives<'a>(
    m: Map<NodeID, AstNodeRef<'a>>,
    c: usize,
    pre: Cfg,
    post: Cfg,
    s: usize,
)
    requires
        pre.inv(),
        pre.live(c),
        pre.descriptor(c).is_reducible(),
        replaced(m, c, pre, post),
        pre.start_end_pairs@.contains_key(s),
        pre.is_void(s as int),
        pre.frame_at(s),
    ensures
        post.is_void(s as int),
        post.frame_at(s),
{
    let base = pre.next();
    assert forall|k: int| pre.is_void(k) implies post.is_void(k) && k != c by {
        assert(pre.live(k as usize));
    }
    assert forall|k: int| pre.is_settled(k) implies post.is_settled(k) && k != c by {
        assert(pre.live(k as usize));
    }
    assert forall|k: usize, t: int|
        k < base && k != c && pre.succ(k) == one(t) && 0 <= t <= usize::MAX && t != c implies post.succ(
            k,
        ) == one(t) by {
        lemma_one_misses(pre, k, t, c);
    }
    assert forall|k: usize, a: int, b: int|
        k < base && k != c && pre.succ(k) == two(a, b) && 0 <= a <= usize::MAX && 0 <= b
            <= usize::MAX && a != c && b != c implies post.succ(k) == two(a, b) by {
        lemma_two_misses(pre, k, a, b, c);
    }
    let i = s as int;
    match pre.descriptor(s) {
        CfgNodeDescriptor::Start(CfgStartNode::StartIf(_)) => {
            assert(pre.if_frame(i));
            assert(post.succ(s) == one(i + 2));
            assert(post.succ((i + 2) as usize) == one(i + 6));
            assert(post.succ((i + 6) as usize) == one(i + 3));
            assert(post.succ((i + 5) as usize) == one(i + 1));
            if pre.succ((i + 3) as usize) == two(i + 4, i + 1) {
                assert(post.succ((i + 3) as usize) == two(i + 4, i + 1));
            } else {
                assert(post.succ((i + 3) as usize) == two(i + 4, i + 8));
                assert(post.succ((i + 9) as usize) == one(i + 1));
            }
            assert(post.if_frame(i));
        },
        CfgNodeDescriptor::Start(CfgStartNode::StartWhile(_)) => {
            assert(pre.while_frame(i));
            assert(post.succ(s) == one(i + 2));
            assert(post.succ((i + 2) as usize) == one(i + 6));
            assert(post.succ((i + 6) as usize) == one(i + 3));
            assert(post.succ((i + 3) as usize) == two(i + 4, i + 1));
            assert(post.succ((i + 5) as usize) == one(i + 2));
            assert(post.while_frame(i));
        },
        CfgNodeDescriptor::Start(CfgStartNode::StartDoWhile(_)) => {
            assert(pre.do_while_frame(i));
            assert(post.succ(s) == one(i + 2));
            assert(post.succ((i + 3) as usize) == one(i + 4));
            assert(post.succ((i + 4) as usize) == one(i + 7));
            assert(post.succ((i + 7) as usize) == one(i + 5));
            assert(post.succ((i + 5) as usize) == two(i + 2, i + 1));
            assert(post.do_while_frame(i));
        },
        CfgNodeDescriptor::Start(CfgStartNode::StartFor(_)) => {
            assert(pre.for_frame(i));
            assert(post.succ(s) == one(i + 2));
            assert(post.succ((i + 3) as usize) == one(i + 4));
            assert(post.succ((i + 5) as usize) == two(i + 6, i + 1));
            assert(post.succ((i + 7) as usize) == one(i + 8));
            assert(post.succ((i + 9) as usize) == one(i + 4));
            assert(post.for_frame(i));
        },
        _ => {},
    }
}

/// The construct that a reduction expands stands in its frame afterwards.
proof fn lemma_new_frame<'a>(m: Map<NodeID, AstNodeRef<'a>>, c: usize, pre: Cfg, post: Cfg)
    requires
        pre.inv(),
        pre.live(c),
        pre.descriptor(c).is_reducible(),
        replaced(m, c, pre, post),
        expansion_of(m, pre.nodes@[c].nd, pre.next()).paired,
    ensures
        post.is_void(pre.next() as int),
        post.frame_at(pre.next()),
{
    let base = pre.next();
    let s = base as int;
    let nd = pre.nodes@[c].nd;
    let x = expansion_of(m, nd, base);
    let n = x.nds.len();
    assert forall|i: int| 0 <= i < n implies post.live((base + i) as usize) && post.descriptor(
        (base + i) as usize,
    ) == x.nds[i] by {
        assert(post.nodes@[(base + i) as usize].nd == x.nds[i]);
    }
    assert forall|i: int| 0 <= i < n && i != 1 implies post.succ((base + i) as usize)
        == x.edges[i] by {
        assert(post.succ((base + i) as usize) == x.edges[i]);
    }
    assert(post.descriptor(base) == x.nds[0]);
    match nd {
        CfgNodeDescriptor::IfStatement(r) => {
            assert(post.descriptor((s + 6) as usize) == x.nds[6]);
            assert(post.if_frame(s));
        },
        CfgNodeDescriptor::WhileStatement(r) => {
            assert(post.descriptor((s + 6) as usize) == x.nds[6]);
            assert(post.while_frame(s));
        },
        CfgNodeDescriptor::DoWhileStatement(r) => {
            assert(post.descriptor((s + 7) as usize) == x.nds[7]);
            assert(post.do_while_frame(s));
        },
        CfgNodeDescriptor::ForStatement(r) => {
            assert(post.for_frame(s));
        },
        _ => {},
    }
}

/// Correcting the flow out of the jumps leaves every frame as it is.
pub proof fn lemma_calibrated_keeps_shape(pre: Cfg, post: Cfg, start: usize, end: usize)
    requires
        calibrated(pre, post, start, end),
        pre.shaped(),
    ensures
        post.shaped(),
{
    reveal(Cfg::shaped);
    assert forall|k: int| pre.is_void(k) implies post.is_void(k) && post.succ(k as usize)
        == pre.succ(k as usize) by {}
    assert forall|k: int|
        pre.is_settled(k) && !pre.descriptor(k as usize).is_jump() implies post.is_settled(k)
        && post.succ(k as usize) == pre.succ(k as usize) by {}
    assert forall|s: usize| #[trigger] post.start_end_pairs@.contains_key(s) implies post.is_void(
        s as int,
    ) && post.frame_at(s) by {
        assert(pre.start_end_pairs@.contains_key(s));
        assert(pre.is_void(s as int) && pre.frame_at(s));
        let i = s as int;
        match pre.descriptor(s) {
            CfgNodeDescriptor::Start(CfgStartNode::StartIf(_)) => {
                assert(pre.if_frame(i));
                assert(post.if_frame(i));
            },
            CfgNodeDescriptor::Start(CfgStartNode::StartWhile(_)) => {
                assert(pre.while_frame(i));
                assert(post.while_frame(i));
            },
            CfgNodeDescriptor::Start(CfgStartNode::StartDoWhile(_)) => {
                assert(pre.do_while_frame(i));
                assert(post.do_while_frame(i));
            },
            CfgNodeDescriptor::Start(CfgStartNode::StartFor(_)) => {
                assert(pre.for_frame(i));
                assert(post.for_frame(i));
            },
            _ => {},
        }
    }
}

/// Frames do not depend on the queue, nor on nodes and edges that were
/// added under fresh identities, nor on a pair of sentinels that opens no
/// `if` and no loop.
pub proof fn lemma_shape_extension(pre: Cfg, post: Cfg)
    requires
        pre.shaped(),
        pre.inv(),
        post.next() >= pre.next(),
        forall|k: usize|
            k < pre.next() ==> (#[trigger] post.live(k) == pre.live(k)) && (pre.live(k)
                ==> post.nodes@[k] == pre.nodes@[k]),
        forall|k: usize| k < pre.next() ==> #[trigger] post.succ(k) == pre.succ(k),
        post.start_cond_pairs@ == pre.start_cond_pairs@,
        post.start_loop_expr@ == pre.start_loop_expr@,
        post.loop_expr_start@ == pre.loop_expr_start@,
        post.cond_start_pairs@ == pre.cond_start_pairs@,
        forall|s: usize|
            #[trigger] post.start_end_pairs@.contains_key(s) ==> (pre.start_end_pairs@.contains_key(
                s,
            ) && post.start_end_pairs@[s] == pre.start_end_pairs@[s]) || (post.is_void(s as int)
                && !(post.descriptor(s) matches CfgNodeDescriptor::Start(
                CfgStartNode::StartIf(_),
            )) && !(post.descriptor(s) matches CfgNodeDescriptor::Start(
                CfgStartNode::StartWhile(_),
            )) && !(post.descriptor(s) matches CfgNodeDescriptor::Start(
                CfgStartNode::StartDoWhile(_),
            )) && !(post.descriptor(s) matches CfgNodeDescriptor::Start(
                CfgStartNode::StartFor(_),
            ))),
    ensures
        post.shaped(),
{
    reveal(Cfg::shaped);
    reveal(graph_inv);
    assert forall|k: int| pre.is_void(k) implies post.is_void(k) && post.succ(k as usize)
        == pre.succ(k as usize) by {
        assert(post.live(k as usize) == pre.live(k as usize));
    }
    assert forall|k: int| pre.is_settled(k) implies post.is_settled(k) && post.succ(k as usize)
        == pre.succ(k as usize) by {
        assert(post.live(k as usize) == pre.live(k as usize));
    }
    assert forall|s: usize| #[trigger] post.start_end_pairs@.contains_key(s) implies post.is_void(
        s as int,
    ) && post.frame_at(s) by {
        if pre.start_end_pairs@.contains_key(s) && post.start_end_pairs@[s]
            == pre.start_end_pairs@[s] {
            assert(pre.is_void(s as int) && pre.frame_at(s));
            let i = s as int;
            match pre.descriptor(s) {
                CfgNodeDescriptor::Start(CfgStartNode::StartIf(_)) => {
                    assert(pre.if_frame(i));
                    assert(post.if_frame(i));
                },
                CfgNodeDescriptor::Start(CfgStartNode::StartWhile(_)) => {
                    assert(pre.while_frame(i));
                    assert(post.while_frame(i));
                },
                CfgNodeDescriptor::Start(CfgStartNode::StartDoWhile(_)) => {
                    assert(pre.do_while_frame(i));
                    assert(post.do_while_frame(i));
                },
                CfgNodeDescriptor::Start(CfgStartNode::StartFor(_)) => {
                    assert(pre.for_frame(i));
                    assert(post.for_frame(i));
                },
                _ => {},
            }
        }
    }
}

/// The `if` that was expanded from the start sentinel `s` stands in its
/// frame: both branches end at the one end sentinel of the `if`, and
/// exactly two edges leave the condition, one for each outcome.
pub proof fn lemma_if_converges(g: Cfg, s: usize)
    requires
        g.shaped(),
        g.start_end_pairs@.contains_key(s),
        g.descriptor(s) matches CfgNodeDescriptor::Start(CfgStartNode::StartIf(_)),
    ensures
        g.if_frame(s as int),
        g.succ((s + 3) as usize).len() == 2,
        g.has_edge((s + 5) as usize, g.start_end_pairs@[s]),
        g.succ((s + 3) as usize)[1] != s + 1 ==> g.has_edge((s + 9) as usize, g.start_end_pairs@[s]),
{
    reveal(Cfg::shaped);
    assert(g.frame_at(s));
    assert(one(s + 1)[0] == s + 1);
}

/// The loop that was expanded from the start sentinel `s` stands in its
/// frame: the end of the body, or of the update expression of a `for`
/// loop, has an edge back to the condition, and the end of the condition
/// has an edge to the end sentinel of the loop.
pub proof fn lemma_loop_closes(g: Cfg, s: usize)
    requires
        g.shaped(),
        g.start_end_pairs@.contains_key(s),
        g.descriptor(s) matches CfgNodeDescriptor::Start(CfgStartNode::StartWhile(_))
            || g.descriptor(s) matches CfgNodeDescriptor::Start(CfgStartNode::StartDoWhile(_))
            || g.descriptor(s) matches CfgNodeDescriptor::Start(CfgStartNode::StartFor(_)),
    ensures
        g.descriptor(s) matches CfgNodeDescriptor::Start(CfgStartNode::StartWhile(_)) ==> {
            &&& g.while_frame(s as int)
            &&& g.has_edge((s + 5) as usize, g.start_cond_pairs@[s])
            &&& g.has_edge((s + 3) as usize, g.start_end_pairs@[s])
        },
        g.descriptor(s) matches CfgNodeDescriptor::Start(CfgStartNode::StartDoWhile(_)) ==> {
            &&& g.do_while_frame(s as int)
            &&& g.has_edge((s + 3) as usize, g.start_cond_pairs@[s])
            &&& g.has_edge((s + 5) as usize, (s + 2) as usize)
            &&& g.has_edge((s + 5) as usize, g.start_end_pairs@[s])
        },
        g.descriptor(s) matches CfgNodeDescriptor::Start(CfgStartNode::StartFor(_)) ==> {
            &&& g.for_frame(s as int)
            &&& g.has_edge((s + 9) as usize, g.start_cond_pairs@[s])
            &&& g.has_edge((s + 7) as usize, g.start_loop_expr@[s])
            &&& g.has_edge((s + 5) as usize, g.start_end_pairs@[s])
        },
{
    reveal(Cfg::shaped);
    assert(g.frame_at(s));
    match g.descriptor(s) {
        CfgNodeDescriptor::Start(CfgStartNode::StartWhile(_)) => {
            assert(one(s + 2)[0] == s + 2);
            assert(two(s + 4, s + 1)[1] == s + 1);
        },
        CfgNodeDescriptor::Start(CfgStartNode::StartDoWhile(_)) => {
            assert(one(s + 4)[0] == s + 4);
            assert(two(s + 2, s + 1)[1] == s + 1);
            assert(two(s + 2, s + 1)[0] == s + 2);
        },
        CfgNodeDescriptor::Start(CfgStartNode::StartFor(_)) => {
            assert(one(s + 4)[0] == s + 4);
            assert(one(s + 8)[0] == s + 8);
            assert(two(s + 6, s + 1)[1] == s + 1);
        },
        _ => {},
    }
}

/// Asking twice for the children of a node of one graph gives the same
/// answer.
pub proof fn lemma_children_repeatable(
    cfg: Cfg,
    id: CfgNodeId,
    first: Vec<CfgNodeId>,
    second: Vec<CfgNodeId>,
)
    requires
        call_ensures(CfgNodeId::children, (&id, &cfg), first),
        call_ensures(CfgNodeId::children, (&id, &cfg), second),
    ensures
        first@ == second@,
{
    assert(first@.len() == second@.len());
    assert forall|i: int| 0 <= i < first@.len() implies first@[i] == second@[i] by {
        assert(first@[i].0 == cfg.succ(id.0)[i]);
        assert(second@[i].0 == cfg.succ(id.0)[i]);
    }
    assert(first@ =~= second@);
}

/// Asking twice what a node of one graph reflects to, in one registry,
/// gives the same answer.
pub proof fn lemma_reflect_repeatable<'a>(
    node: CfgNode,
    context: WorkspaceContext<'a>,
    first: Option<AstNodeRef<'a>>,
    second: Option<AstNodeRef<'a>>,
)
    requires
        call_ensures(CfgNode::reflect, (&node, &context), first),
        call_ensures(CfgNode::reflect, (&node, &context), second),
    ensures
        first == second,
{
}

/// Asking twice for the entry of one of the tables of one graph gives the
/// same answer.
pub proof fn lemma_lookups_repeatable(cfg: Cfg, id: CfgNodeId, first: CfgNodeId, second: CfgNodeId)
    ensures
        call_ensures(Cfg::find_ending_counter_part, (&cfg, id), first) && call_ensures(
            Cfg::find_ending_counter_part,
            (&cfg, id),
            second,
        ) ==> first == second,
        call_ensures(Cfg::find_condition_node, (&cfg, id), first) && call_ensures(
            Cfg::find_condition_node,
            (&cfg, id),
            second,
        ) ==> first == second,
        call_ensures(Cfg::find_loop_expression_node, (&cfg, id), first) && call_ensures(
            Cfg::find_loop_expression_node,
            (&cfg, id),
            second,
        ) ==> first == second,
{
}

} // verus!
