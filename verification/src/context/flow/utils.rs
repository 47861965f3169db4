use vstd::prelude::*;
use std::collections::HashSet;
use crate::context::flow::{graph_inv, Cfg, CfgNodeDescriptor, CfgNodeId};

verus! {

broadcast use vstd::std_specs::hash::group_hash_axioms;

/// A correction of the flow out of a jump, to be made once every jump of the
/// body has been looked at.
#[derive(Clone, Copy, Debug, PartialEq, Eq, Structural)]
pub enum Callibration {
    /// The `continue` (first) flows to the node (second).
    ContinueShouldFlowTo(CfgNodeId, CfgNodeId),
    /// The `break` (first) flows to the node (second).
    BreakShouldFlowTo(CfgNodeId, CfgNodeId),
    /// The `return` flows to the end of the body.
    ReturnShouldFlowToEndNode(CfgNodeId),
}

impl Callibration {
    /// The jump that the correction is about.
    pub open spec fn source(self) -> usize {
        match self {
            Callibration::ContinueShouldFlowTo(from, _) => from.0,
            Callibration::BreakShouldFlowTo(from, _) => from.0,
            Callibration::ReturnShouldFlowToEndNode(from) => from.0,
        }
    }

    /// Where the jump flows to after the correction, `end` being the end
    /// of the body.
    pub open spec fn target(self, end: usize) -> usize {
        match self {
            Callibration::ContinueShouldFlowTo(_, to) => to.0,
            Callibration::BreakShouldFlowTo(_, to) => to.0,
            Callibration::ReturnShouldFlowToEndNode(_) => end,
        }
    }
}

/// The start sentinel of the loop that encloses node `k`, found by walking
/// forward from `k` for at most `fuel` steps.
///
/// * A sentinel that opens the condition of a `while` or `do`-`while` loop,
///   or the update expression of a `for` loop, is only reached from inside
///   that loop: it ends the walk, and its loop is the answer.
/// * The start sentinel of a construct that was expanded is stepped over:
///   the walk goes on at the construct's end sentinel.
/// * From any other node the walk goes on at its first successor; a node
///   without successors ends the walk without an answer.
pub open spec fn enclosing_loop(g: Cfg, k: usize, fuel: nat) -> Option<usize>
    decreases fuel,
{
    if fuel == 0 {
        None
    } else if g.cond_start_pairs@.contains_key(k) {
        Some(g.cond_start_pairs@[k])
    } else if g.loop_expr_start@.contains_key(k) {
        Some(g.loop_expr_start@[k])
    } else if g.start_end_pairs@.contains_key(k) {
        enclosing_loop(g, g.start_end_pairs@[k], (fuel - 1) as nat)
    } else if g.succ(k).len() > 0 {
        enclosing_loop(g, g.succ(k)[0], (fuel - 1) as nat)
    } else {
        None
    }
}

/// Where a `break` flows to: the end sentinel of the enclosing loop, or the
/// end of the body where no loop encloses it.
pub open spec fn break_target(g: Cfg, j: usize, end: usize) -> usize {
    match enclosing_loop(g, j, g.next() as nat) {
        Some(l) => if g.start_end_pairs@.contains_key(l) && g.live(g.start_end_pairs@[l]) {
            g.start_end_pairs@[l]
        } else {
            end
        },
        None => end,
    }
}

/// Where a `continue` flows to: the sentinel that opens the update
/// expression of the enclosing `for` loop, or the condition of the
/// enclosing `while` or `do`-`while` loop, or the end of the body where no
/// loop encloses it.
pub open spec fn continue_target(g: Cfg, j: usize, end: usize) -> usize {
    match enclosing_loop(g, j, g.next() as nat) {
        Some(l) => if g.start_loop_expr@.contains_key(l) && g.live(g.start_loop_expr@[l]) {
            g.start_loop_expr@[l]
        } else if g.start_cond_pairs@.contains_key(l) && g.live(g.start_cond_pairs@[l]) {
            g.start_cond_pairs@[l]
        } else {
            end
        },
        None => end,
    }
}

/// Where a jump flows to once the flow has been corrected.
pub open spec fn jump_target(g: Cfg, j: usize, end: usize) -> usize {
    match g.descriptor(j) {
        CfgNodeDescriptor::Break(_) => break_target(g, j, end),
        CfgNodeDescriptor::Continue(_) => continue_target(g, j, end),
        _ => end,
    }
}

/// Finds the start sentinel of the loop that encloses a node, walking
/// forward from the node for as many steps as identities have been handed
/// out.
pub fn find_jump_dest(cfg: &Cfg, curr_node: CfgNodeId) -> (r: Option<CfgNodeId>)
    ensures
        match r {
            Some(l) => enclosing_loop(*cfg, curr_node.0, cfg.next() as nat) == Some(l.0),
            None => enclosing_loop(*cfg, curr_node.0, cfg.next() as nat).is_none(),
        },
{
    let mut fuel = cfg.next_available_id.0;
    let mut curr = curr_node.0;
    while fuel > 0
        invariant
            enclosing_loop(*cfg, curr, fuel as nat) == enclosing_loop(
                *cfg,
                curr_node.0,
                cfg.next() as nat,
            ),
        decreases fuel,
    {
        if let Some(start) = cfg.cond_start_pairs.get(&curr) {
            return Some(CfgNodeId(*start));
        }
        if let Some(start) = cfg.loop_expr_start.get(&curr) {
            return Some(CfgNodeId(*start));
        }
        if let Some(end) = cfg.start_end_pairs.get(&curr) {
            curr = *end;
        } else {
            match cfg.adj_list.get(&curr) {
                Some(successors) => {
                    if successors.len() > 0 {
                        curr = successors[0];
                    } else {
                        return None;
                    }
                },
                None => {
                    return None;
                },
            }
        }
        fuel -= 1;
    }
    None
}

/// The sequence is a walk along the edges of the graph.
pub open spec fn is_path(g: Cfg, p: Seq<usize>) -> bool {
    &&& p.len() > 0
    &&& forall|i: int| 0 <= i < p.len() - 1 ==> g.has_edge(#[trigger] p[i], p[i + 1])
}

/// Node `b` can be reached from node `a` along the edges of the graph.
pub open spec fn reachable(g: Cfg, a: usize, b: usize) -> bool {
    exists|p: Seq<usize>| #[trigger] is_path(g, p) && p[0] == a && p.last() == b
}

/// Every node reaches itself.
pub proof fn lemma_reach_self(g: Cfg, a: usize)
    ensures
        reachable(g, a, a),
{
    let p = seq![a];
    assert(is_path(g, p) && p[0] == a && p.last() == a);
}

/// Reaching goes on along an edge.
pub proof fn lemma_reach_step(g: Cfg, a: usize, b: usize, c: usize)
    requires
        reachable(g, a, b),
        g.has_edge(b, c),
    ensures
        reachable(g, a, c),
{
    let p = choose|p: Seq<usize>| #[trigger] is_path(g, p) && p[0] == a && p.last() == b;
    let q = p.push(c);
    assert forall|i: int| 0 <= i < q.len() - 1 implies g.has_edge(#[trigger] q[i], q[i + 1]) by {
        if i < p.len() - 1 {
            assert(g.has_edge(p[i], p[i + 1]));
        }
    }
    assert(is_path(g, q) && q[0] == a && q.last() == c);
}

/// A set of nodes that holds `a` and, with each node, its successors, holds
/// whatever `a` reaches.
pub proof fn lemma_closed_set_holds_reachable(g: Cfg, s: Set<usize>, a: usize, b: usize)
    requires
        s.contains(a),
        forall|v: usize, j: int|
            s.contains(v) && 0 <= j < g.succ(v).len() ==> s.contains(#[trigger] g.succ(v)[j]),
        reachable(g, a, b),
    ensures
        s.contains(b),
{
    let p = choose|p: Seq<usize>| #[trigger] is_path(g, p) && p[0] == a && p.last() == b;
    lemma_path_in_closed_set(g, s, p, p.len() - 1);
}

/// A walk that starts in a set closed under successors stays in it.
proof fn lemma_path_in_closed_set(g: Cfg, s: Set<usize>, p: Seq<usize>, i: int)
    requires
        is_path(g, p),
        s.contains(p[0]),
        forall|v: usize, j: int|
            s.contains(v) && 0 <= j < g.succ(v).len() ==> s.contains(#[trigger] g.succ(v)[j]),
        0 <= i < p.len(),
    ensures
        s.contains(p[i]),
    decreases i,
{
    if i > 0 {
        lemma_path_in_closed_set(g, s, p, i - 1);
        assert(g.has_edge(p[i - 1], p[i]));
        let t = g.succ(p[i - 1]);
        let j = choose|j: int| 0 <= j < t.len() && t[j] == p[i];
        assert(s.contains(g.succ(p[i - 1])[j]));
    }
}

/// The number of identities below `n` that are not in the set.
pub open spec fn count_outside(s: Set<usize>, n: nat) -> nat
    decreases n,
{
    if n == 0 {
        0
    } else {
        count_outside(s, (n - 1) as nat) + if s.contains((n - 1) as usize) {
            0nat
        } else {
            1nat
        }
    }
}

/// Putting an identity into the set leaves one less outside.
pub proof fn lemma_count_outside_insert(s: Set<usize>, k: usize, n: nat)
    requires
        !s.contains(k),
        n <= usize::MAX,
    ensures
        count_outside(s.insert(k), n) == count_outside(s, n) - if k < n {
            1int
        } else {
            0int
        },
    decreases n,
{
    if n > 0 {
        lemma_count_outside_insert(s, k, (n - 1) as nat);
    }
}

/// The jumps that a traversal has found, by kind.
pub struct JumpSources {
    pub continue_statements: Vec<CfgNodeId>,
    pub break_statements: Vec<CfgNodeId>,
    pub return_statements: Vec<CfgNodeId>,
}

impl JumpSources {
    /// Each list holds, once each, the nodes of its kind among the given
    /// set.
    pub open spec fn collects(&self, g: Cfg, s: Set<usize>) -> bool {
        &&& self.continue_statements@.no_duplicates()
        &&& self.break_statements@.no_duplicates()
        &&& self.return_statements@.no_duplicates()
        &&& forall|k: usize|
            #![trigger self.continue_statements@.contains(CfgNodeId(k))]
            #![trigger s.contains(k)]
            self.continue_statements@.contains(CfgNodeId(k)) <==> s.contains(k) && g.live(k)
                && g.descriptor(k) is Continue
        &&& forall|k: usize|
            #![trigger self.break_statements@.contains(CfgNodeId(k))]
            #![trigger s.contains(k)]
            self.break_statements@.contains(CfgNodeId(k)) <==> s.contains(k) && g.live(k)
                && g.descriptor(k) is Break
        &&& forall|k: usize|
            #![trigger self.return_statements@.contains(CfgNodeId(k))]
            #![trigger s.contains(k)]
            self.return_statements@.contains(CfgNodeId(k)) <==> s.contains(k) && g.live(k)
                && g.descriptor(k) is Return
    }
}

/// Puts `id` at the end of a list that does not hold it yet.
fn push_fresh(list: &mut Vec<CfgNodeId>, id: CfgNodeId)
    requires
        old(list)@.no_duplicates(),
        !old(list)@.contains(id),
    ensures
        final(list)@ == old(list)@.push(id),
        final(list)@.no_duplicates(),
        forall|x: CfgNodeId| final(list)@.contains(x) <==> x == id || old(list)@.contains(x),
{
    list.push(id);
    proof {
        let a = old(list)@;
        let b = list@;
        assert forall|x: CfgNodeId| b.contains(x) <==> x == id || a.contains(x) by {
            if a.contains(x) {
                let i = choose|i: int| 0 <= i < a.len() && a[i] == x;
                assert(b[i] == x);
            }
            if x == id {
                assert(b[a.len() as int] == x);
            }
        }
        assert forall|i: int, j: int| 0 <= i < b.len() && 0 <= j < b.len() && i != j implies b[i]
            != b[j] by {
            if i < a.len() {
                assert(a.contains(a[i]));
            }
            if j < a.len() {
                assert(a.contains(a[j]));
            }
        }
    }
}

/// The nodes that can be reached from a node, each once, in the order in
/// which a depth-first traversal meets them.
pub fn reachable_from(cfg: &Cfg, start_node: CfgNodeId) -> (r: Vec<CfgNodeId>)
    requires
        cfg.inv(),
        cfg.live(start_node.0),
    ensures
        r@.no_duplicates(),
        forall|k: usize|
            #![trigger r@.contains(CfgNodeId(k))]
            #![trigger reachable(*cfg, start_node.0, k)]
            r@.contains(CfgNodeId(k)) <==> reachable(*cfg, start_node.0, k),
        forall|i: int| 0 <= i < r@.len() ==> cfg.live((#[trigger] r@[i]).0),
{
    let mut order: Vec<CfgNodeId> = Vec::new();
    let mut visited: HashSet<usize> = HashSet::new();
    let mut stack: Vec<usize> = Vec::new();
    stack.push(start_node.0);
    proof {
        reveal(graph_inv);
        lemma_reach_self(*cfg, start_node.0);
        assert(stack@[0] == start_node.0);
    }
    while stack.len() > 0
        invariant
            cfg.inv(),
            forall|v: usize| visited@.contains(v) ==> cfg.live(v) && reachable(*cfg, start_node.0, v),
            forall|i: int|
                0 <= i < stack@.len() ==> cfg.live(#[trigger] stack@[i]) && reachable(
                    *cfg,
                    start_node.0,
                    stack@[i],
                ),
            visited@.contains(start_node.0) || stack@.contains(start_node.0),
            forall|v: usize, j: int|
                visited@.contains(v) && 0 <= j < cfg.succ(v).len() ==> visited@.contains(
                    #[trigger] cfg.succ(v)[j],
                ) || stack@.contains(cfg.succ(v)[j]),
            order@.no_duplicates(),
            forall|k: usize|
                #![trigger order@.contains(CfgNodeId(k))]
                #![trigger visited@.contains(k)]
                order@.contains(CfgNodeId(k)) <==> visited@.contains(k),
        decreases count_outside(visited@, cfg.next() as nat), stack@.len(),
    {
        let ghost stack0 = stack@;
        let ghost visited0 = visited@;
        let curr = match stack.pop() {
            Some(c) => c,
            None => 0,
        };
        let ghost rest = stack@;
        assert(rest =~= stack0.drop_last());
        assert(curr == stack0[stack0.len() - 1]);
        assert forall|x: usize| stack0.contains(x) implies x == curr || rest.contains(x) by {
            let i = choose|i: int| 0 <= i < stack0.len() && stack0[i] == x;
            if i < stack0.len() - 1 {
                assert(rest[i] == x);
            }
        }
        if visited.contains(&curr) {
            assert(visited@ == visited0);
            continue ;
        }
        visited.insert(curr);
        proof {
            reveal(graph_inv);
            assert(cfg.live(curr));
            lemma_count_outside_insert(visited0, curr, cfg.next() as nat);
            assert(!order@.contains(CfgNodeId(curr)));
        }
        let ghost order0 = order@;
        push_fresh(&mut order, CfgNodeId(curr));
        proof {
            assert forall|k: usize|
                #![trigger order@.contains(CfgNodeId(k))]
                #![trigger visited@.contains(k)]
                order@.contains(CfgNodeId(k)) <==> visited@.contains(k) by {
                if k != curr {
                    assert(order0.contains(CfgNodeId(k)) <==> visited0.contains(k));
                }
            }
        }
        // Continue with the children
        match cfg.adj_list.get(&curr) {
            Some(successors) => {
                let n = successors.len();
                let mut j: usize = 0;
                while j < n
                    invariant
                        j <= n,
                        n == successors@.len(),
                        successors@ == cfg.succ(curr),
                        cfg.inv(),
                        cfg.live(curr),
                        reachable(*cfg, start_node.0, curr),
                        stack@.len() == rest.len() + j,
                        forall|i: int| 0 <= i < rest.len() ==> stack@[i] == rest[i],
                        forall|i: int| 0 <= i < j ==> stack@[rest.len() + i] == successors@[i],
                        forall|i: int|
                            0 <= i < stack@.len() ==> cfg.live(#[trigger] stack@[i]) && reachable(
                                *cfg,
                                start_node.0,
                                stack@[i],
                            ),
                    decreases n - j,
                {
                    let child = successors[j];
                    proof {
                        reveal(graph_inv);
                        assert(cfg.live(cfg.succ(curr)[j as int]));
                        assert(cfg.has_edge(curr, child));
                        lemma_reach_step(*cfg, start_node.0, curr, child);
                    }
                    stack.push(child);
                    j += 1;
                }
                proof {
                    assert forall|x: usize| rest.contains(x) implies stack@.contains(x) by {
                        let i = choose|i: int| 0 <= i < rest.len() && rest[i] == x;
                        assert(stack@[i] == x);
                    }
                    assert forall|i: int| 0 <= i < cfg.succ(curr).len() implies stack@.contains(
                        #[trigger] cfg.succ(curr)[i],
                    ) by {
                        assert(stack@[rest.len() + i] == successors@[i]);
                    }
                }
            },
            None => {
                assert(cfg.succ(curr).len() == 0);
            },
        }
        proof {
            assert forall|x: usize| rest.contains(x) implies stack@.contains(x) by {
                let i = choose|i: int| 0 <= i < rest.len() && rest[i] == x;
                assert(stack@[i] == x);
            }
            assert forall|v: usize, j: int|
                visited@.contains(v) && 0 <= j < cfg.succ(v).len() implies visited@.contains(
                #[trigger] cfg.succ(v)[j],
            ) || stack@.contains(cfg.succ(v)[j]) by {
                if v != curr {
                    let w = cfg.succ(v)[j];
                    assert(visited0.contains(w) || stack0.contains(w));
                    if stack0.contains(w) && w != curr {
                        assert(rest.contains(w));
                    }
                }
            }
        }
    }
    proof {
        assert(stack@.len() == 0);
        assert(visited@.contains(start_node.0)) by {
            if stack@.contains(start_node.0) {
                let i = choose|i: int| 0 <= i < stack@.len() && stack@[i] == start_node.0;
            }
        }
        assert forall|v: usize, j: int|
            visited@.contains(v) && 0 <= j < cfg.succ(v).len() implies visited@.contains(
            #[trigger] cfg.succ(v)[j],
        ) by {
            let w = cfg.succ(v)[j];
            if stack@.contains(w) {
                let i = choose|i: int| 0 <= i < stack@.len() && stack@[i] == w;
            }
        }
        assert forall|k: usize|
            #![trigger order@.contains(CfgNodeId(k))]
            #![trigger reachable(*cfg, start_node.0, k)]
            order@.contains(CfgNodeId(k)) <==> reachable(*cfg, start_node.0, k) by {
            assert(order@.contains(CfgNodeId(k)) <==> visited@.contains(k));
            if reachable(*cfg, start_node.0, k) {
                lemma_closed_set_holds_reachable(*cfg, visited@, start_node.0, k);
            }
        }
        assert forall|i: int| 0 <= i < order@.len() implies cfg.live((#[trigger] order@[i]).0) by {
            let k = order@[i].0;
            assert(order@[i] == CfgNodeId(k));
            assert(order@.contains(CfgNodeId(k)));
            assert(visited@.contains(k));
        }
    }
    order
}

/// Collects the jumps that can be reached from a node, by a depth-first
/// traversal that looks at every node once.
pub fn discover_jump_sources(cfg: &Cfg, start_node: CfgNodeId) -> (r: JumpSources)
    requires
        cfg.inv(),
        cfg.live(start_node.0),
    ensures
        r.collects(*cfg, Set::new(|k: usize| reachable(*cfg, start_node.0, k))),
{
    let mut found = JumpSources {
        continue_statements: Vec::new(),
        break_statements: Vec::new(),
        return_statements: Vec::new(),
    };
    let order = reachable_from(cfg, start_node);
    let ghost reach = Set::new(|k: usize| reachable(*cfg, start_node.0, k));
    let n = order.len();
    let mut i: usize = 0;
    while i < n
        invariant
            i <= n,
            n == order@.len(),
            order@.no_duplicates(),
            forall|j: int| 0 <= j < order@.len() ==> cfg.live((#[trigger] order@[j]).0),
            found.collects(*cfg, Set::new(|k: usize| order@.take(i as int).contains(CfgNodeId(k)))),
        decreases n - i,
    {
        let curr = order[i];
        let ghost seen0 = Set::new(|k: usize| order@.take(i as int).contains(CfgNodeId(k)));
        let ghost seen1 = Set::new(|k: usize| order@.take(i + 1).contains(CfgNodeId(k)));
        proof {
            let t0 = order@.take(i as int);
            let t1 = order@.take(i + 1);
            assert(!t0.contains(curr)) by {
                if t0.contains(curr) {
                    let j = choose|j: int| 0 <= j < t0.len() && t0[j] == curr;
                    assert(order@[j] == order@[i as int]);
                }
            }
            assert forall|k: usize| seen1.contains(k) <==> seen0.contains(k) || k == curr.0 by {
                if t1.contains(CfgNodeId(k)) {
                    let j = choose|j: int| 0 <= j < t1.len() && t1[j] == CfgNodeId(k);
                    if j < i {
                        assert(t0[j] == CfgNodeId(k));
                    }
                }
                if t0.contains(CfgNodeId(k)) {
                    let j = choose|j: int| 0 <= j < t0.len() && t0[j] == CfgNodeId(k);
                    assert(t1[j] == CfgNodeId(k));
                }
                if k == curr.0 {
                    assert(t1[i as int] == CfgNodeId(k));
                }
            }
            assert(cfg.live(order@[i as int].0));
            assert(!seen0.contains(curr.0));
        }
        match cfg.nodes.get(&curr.0) {
            Some(node) => {
                match node.nd {
                    CfgNodeDescriptor::Continue(_) => {
                        push_fresh(&mut found.continue_statements, curr);
                    },
                    CfgNodeDescriptor::Break(_) => {
                        push_fresh(&mut found.break_statements, curr);
                    },
                    CfgNodeDescriptor::Return(_) => {
                        push_fresh(&mut found.return_statements, curr);
                    },
                    _ => {},
                }
            },
            None => {},
        }
        assert(found.collects(*cfg, seen1));
        i += 1;
    }
    proof {
        assert(order@.take(n as int) =~= order@);
        let seen = Set::new(|k: usize| order@.take(n as int).contains(CfgNodeId(k)));
        assert(seen =~= reach);
    }
    found
}

/// The second graph is the first after the flow out of its jumps was
/// corrected: every `break`, `continue` and `return` that can be reached
/// from `start` in the first graph has, as its only successor, the node it
/// should flow to. Nothing else differs.
pub open spec fn calibrated(pre: Cfg, post: Cfg, start: usize, end: usize) -> bool {
    &&& post.wf()
    &&& post.nodes == pre.nodes
    &&& post.next_available_id == pre.next_available_id
    &&& post.reduction_queue == pre.reduction_queue
    &&& post.same_tables(&pre)
    &&& forall|k: usize|
        #[trigger] post.succ(k) == if pre.live(k) && pre.descriptor(k).is_jump() && reachable(
            pre,
            start,
            k,
        ) {
            seq![jump_target(pre, k, end)]
        } else {
            pre.succ(k)
        }
}

/// After the correction a `return` that could be reached from the start of
/// the body flows to the end of the body and nowhere else, however deep it
/// is nested.
pub proof fn lemma_return_flows_to_end(pre: Cfg, post: Cfg, start: usize, end: usize, k: usize)
    requires
        calibrated(pre, post, start, end),
        pre.live(k),
        pre.descriptor(k) is Return,
        reachable(pre, start, k),
    ensures
        post.succ(k) == seq![end],
{
}

/// After the correction a `continue` that could be reached from the start
/// of the body and lies in a `for` loop flows to the sentinel that opens
/// the loop's update expression, not to its condition.
pub proof fn lemma_continue_flows_to_update(
    pre: Cfg,
    post: Cfg,
    start: usize,
    end: usize,
    k: usize,
    l: usize,
)
    requires
        calibrated(pre, post, start, end),
        pre.live(k),
        pre.descriptor(k) is Continue,
        reachable(pre, start, k),
        enclosing_loop(pre, k, pre.next() as nat) == Some(l),
        pre.start_loop_expr@.contains_key(l),
        pre.live(pre.start_loop_expr@[l]),
    ensures
        post.succ(k) == seq![pre.start_loop_expr@[l]],
{
}

/// After the correction a `break` that could be reached from the start of
/// the body flows to the end sentinel of the loop that encloses it.
pub proof fn lemma_break_flows_to_loop_end(
    pre: Cfg,
    post: Cfg,
    start: usize,
    end: usize,
    k: usize,
    l: usize,
)
    requires
        calibrated(pre, post, start, end),
        pre.live(k),
        pre.descriptor(k) is Break,
        reachable(pre, start, k),
        enclosing_loop(pre, k, pre.next() as nat) == Some(l),
        pre.start_end_pairs@.contains_key(l),
        pre.live(pre.start_end_pairs@[l]),
    ensures
        post.succ(k) == seq![pre.start_end_pairs@[l]],
{
}

/// The correction is the right one for a jump that can be reached from
/// `start`: it names a node of the registry that stands for a jump of its
/// kind, and sends it to where such a jump flows to.
pub open spec fn proposal_ok(g: Cfg, start: usize, end: usize, c: Callibration) -> bool {
    &&& g.live(c.source())
    &&& reachable(g, start, c.source())
    &&& match c {
        Callibration::ContinueShouldFlowTo(_, _) => g.descriptor(c.source()) is Continue,
        Callibration::BreakShouldFlowTo(_, _) => g.descriptor(c.source()) is Break,
        Callibration::ReturnShouldFlowToEndNode(_) => g.descriptor(c.source()) is Return,
    }
    &&& c.target(end) == jump_target(g, c.source(), end)
    &&& g.live(c.target(end))
}

impl Cfg {
    /// Where a `break` flows to.
    fn break_dest(&self, jump: CfgNodeId, end_node: CfgNodeId) -> (r: CfgNodeId)
        requires
            self.live(end_node.0),
        ensures
            r.0 == break_target(*self, jump.0, end_node.0),
            self.live(r.0),
    {
        match find_jump_dest(self, jump) {
            Some(loop_start) => match self.start_end_pairs.get(&loop_start.0) {
                Some(end) => if self.nodes.contains_key(end) {
                    CfgNodeId(*end)
                } else {
                    end_node
                },
                None => end_node,
            },
            None => end_node,
        }
    }

    /// Where a `continue` flows to.
    fn continue_dest(&self, jump: CfgNodeId, end_node: CfgNodeId) -> (r: CfgNodeId)
        requires
            self.live(end_node.0),
        ensures
            r.0 == continue_target(*self, jump.0, end_node.0),
            self.live(r.0),
    {
        match find_jump_dest(self, jump) {
            Some(loop_start) => {
                if let Some(update) = self.start_loop_expr.get(&loop_start.0) {
                    if self.nodes.contains_key(update) {
                        return CfgNodeId(*update);
                    }
                }
                if let Some(cond) = self.start_cond_pairs.get(&loop_start.0) {
                    if self.nodes.contains_key(cond) {
                        return CfgNodeId(*cond);
                    }
                }
                end_node
            },
            None => end_node,
        }
    }

    /// Makes the corrections: each jump named gets the node it should flow
    /// to as its only successor.
    pub fn callibrate(&mut self, proposed_callibrations: Vec<Callibration>, end_node: CfgNodeId)
        requires
            old(self).wf(),
            old(self).live(end_node.0),
            forall|i: int|
                0 <= i < proposed_callibrations@.len() ==> old(self).live(
                    (#[trigger] proposed_callibrations@[i]).source(),
                ) && old(self).live(proposed_callibrations@[i].target(end_node.0)),
            forall|i: int, j: int|
                0 <= i < j < proposed_callibrations@.len() ==> proposed_callibrations@[i].source()
                    != proposed_callibrations@[j].source(),
        ensures
            final(self).wf(),
            final(self).nodes == old(self).nodes,
            final(self).next_available_id == old(self).next_available_id,
            final(self).reduction_queue == old(self).reduction_queue,
            final(self).same_tables(old(self)),
            forall|i: int|
                0 <= i < proposed_callibrations@.len() ==> final(self).succ(
                    (#[trigger] proposed_callibrations@[i]).source(),
                ) == seq![proposed_callibrations@[i].target(end_node.0)],
            forall|k: usize|
                (forall|i: int|
                    0 <= i < proposed_callibrations@.len() ==> (
                    #[trigger] proposed_callibrations@[i]).source() != k)
                    ==> #[trigger] final(self).succ(k) == old(self).succ(k),
    {
        let n = proposed_callibrations.len();
        let mut i: usize = 0;
        while i < n
            invariant
                i <= n,
                n == proposed_callibrations@.len(),
                self.wf(),
                self.nodes == old(self).nodes,
                self.next_available_id == old(self).next_available_id,
                self.reduction_queue == old(self).reduction_queue,
                self.same_tables(old(self)),
                old(self).live(end_node.0),
                forall|j: int|
                    0 <= j < proposed_callibrations@.len() ==> old(self).live(
                        (#[trigger] proposed_callibrations@[j]).source(),
                    ) && old(self).live(proposed_callibrations@[j].target(end_node.0)),
                forall|j: int, l: int|
                    0 <= j < l < proposed_callibrations@.len()
                        ==> proposed_callibrations@[j].source()
                        != proposed_callibrations@[l].source(),
                forall|j: int|
                    0 <= j < i ==> self.succ((#[trigger] proposed_callibrations@[j]).source())
                        == seq![proposed_callibrations@[j].target(end_node.0)],
                forall|k: usize|
                    (forall|j: int|
                        0 <= j < i ==> (#[trigger] proposed_callibrations@[j]).source() != k)
                        ==> #[trigger] self.succ(k) == old(self).succ(k),
            decreases n - i,
        {
            let ghost before = *self;
            let proposed = proposed_callibrations[i];
            let (from, to) = match proposed {
                Callibration::ContinueShouldFlowTo(from, to) => (from, to),
                Callibration::BreakShouldFlowTo(from, to) => (from, to),
                Callibration::ReturnShouldFlowToEndNode(from) => (from, end_node),
            };
            assert(from.0 == proposed_callibrations@[i as int].source());
            assert(to.0 == proposed_callibrations@[i as int].target(end_node.0));
            self.reset_raw_successors(from, to);
            proof {
                assert forall|j: int| 0 <= j < i + 1 implies self.succ(
                    (#[trigger] proposed_callibrations@[j]).source(),
                ) == seq![proposed_callibrations@[j].target(end_node.0)] by {
                    if j < i {
                        assert(proposed_callibrations@[j].source() != from.0);
                        assert(self.succ(proposed_callibrations@[j].source()) == before.succ(
                            proposed_callibrations@[j].source(),
                        ));
                    }
                }
                assert forall|k: usize|
                    (forall|j: int|
                        0 <= j < i + 1 ==> (#[trigger] proposed_callibrations@[j]).source() != k)
                    implies #[trigger] self.succ(k) == old(self).succ(k) by {
                    assert(proposed_callibrations@[i as int].source() != k);
                    assert(self.succ(k) == before.succ(k));
                }
            }
            i += 1;
        }
    }

    /// Corrects the flow of continue, break and return statements.
    ///
    /// When a body is reduced, a jump is chained to whatever follows it in
    /// its block. This is put right here, once for the whole body:
    ///
    /// * a `continue` flows to the condition of the enclosing `while` or
    ///   `do`-`while` loop, or to the update expression of the enclosing
    ///   `for` loop;
    /// * a `break` flows to the end of the enclosing loop;
    /// * a `return` flows to the end of the body;
    /// * a `continue` or `break` that no loop encloses flows to the end of
    ///   the body.
    ///
    /// The jumps are those that can be reached from `start_node`. They are
    /// all found, and the node each should flow to is settled, before the
    /// first edge is changed.
    pub fn callibrate_jump_statements_in_function_body(
        &mut self,
        start_node: CfgNodeId,
        end_node: CfgNodeId,
    )
        requires
            old(self).wf(),
            old(self).live(start_node.0),
            old(self).live(end_node.0),
        ensures
            calibrated(*old(self), *final(self), start_node.0, end_node.0),
            old(self).shaped() ==> final(self).shaped(),
    {
        let ghost g = *self;
        let ghost reach = Set::new(|k: usize| reachable(g, start_node.0, k));
        // Start node sets the scope of discovery
        let found = discover_jump_sources(self, start_node);

        // Proposed Callibrations
        let mut proposed_callibrations: Vec<Callibration> = Vec::new();

        let nc = found.continue_statements.len();
        let mut i: usize = 0;
        while i < nc
            invariant
                i <= nc,
                nc == found.continue_statements@.len(),
                *self == g,
                g.live(end_node.0),
                found.collects(g, reach),
                reach == Set::new(|k: usize| reachable(g, start_node.0, k)),
                proposed_callibrations@.len() == i,
                forall|j: int|
                    0 <= j < i ==> proposal_ok(
                        g,
                        start_node.0,
                        end_node.0,
                        #[trigger] proposed_callibrations@[j],
                    ) && proposed_callibrations@[j].source() == found.continue_statements@[j].0,
            decreases nc - i,
        {
            let continue_statement = found.continue_statements[i];
            assert(found.continue_statements@.contains(CfgNodeId(continue_statement.0)));
            let dest = self.continue_dest(continue_statement, end_node);
            proposed_callibrations.push(Callibration::ContinueShouldFlowTo(continue_statement, dest));
            i += 1;
        }

        let nb = found.break_statements.len();
        let mut i: usize = 0;
        while i < nb
            invariant
                i <= nb,
                nb == found.break_statements@.len(),
                nc == found.continue_statements@.len(),
                *self == g,
                g.live(end_node.0),
                found.collects(g, reach),
                reach == Set::new(|k: usize| reachable(g, start_node.0, k)),
                proposed_callibrations@.len() == nc + i,
                forall|j: int|
                    0 <= j < nc ==> proposal_ok(
                        g,
                        start_node.0,
                        end_node.0,
                        #[trigger] proposed_callibrations@[j],
                    ) && proposed_callibrations@[j].source() == found.continue_statements@[j].0,
                forall|j: int|
                    0 <= j < i ==> proposal_ok(
                        g,
                        start_node.0,
                        end_node.0,
                        #[trigger] proposed_callibrations@[nc + j],
                    ) && proposed_callibrations@[nc + j].source() == found.break_statements@[j].0,
            decreases nb - i,
        {
            let break_statement = found.break_statements[i];
            assert(found.break_statements@.contains(CfgNodeId(break_statement.0)));
            let dest = self.break_dest(break_statement, end_node);
            proposed_callibrations.push(Callibration::BreakShouldFlowTo(break_statement, dest));
            i += 1;
        }

        let nr = found.return_statements.len();
        let mut i: usize = 0;
        while i < nr
            invariant
                i <= nr,
                nr == found.return_statements@.len(),
                nb == found.break_statements@.len(),
                nc == found.continue_statements@.len(),
                *self == g,
                g.live(end_node.0),
                found.collects(g, reach),
                reach == Set::new(|k: usize| reachable(g, start_node.0, k)),
                proposed_callibrations@.len() == nc + nb + i,
                forall|j: int|
                    0 <= j < nc ==> proposal_ok(
                        g,
                        start_node.0,
                        end_node.0,
                        #[trigger] proposed_callibrations@[j],
                    ) && proposed_callibrations@[j].source() == found.continue_statements@[j].0,
                forall|j: int|
                    0 <= j < nb ==> proposal_ok(
                        g,
                        start_node.0,
                        end_node.0,
                        #[trigger] proposed_callibrations@[nc + j],
                    ) && proposed_callibrations@[nc + j].source() == found.break_statements@[j].0,
                forall|j: int|
                    0 <= j < i ==> proposal_ok(
                        g,
                        start_node.0,
                        end_node.0,
                        #[trigger] proposed_callibrations@[nc + nb + j],
                    ) && proposed_callibrations@[nc + nb + j].source()
                        == found.return_statements@[j].0,
            decreases nr - i,
        {
            let return_statement = found.return_statements[i];
            assert(found.return_statements@.contains(CfgNodeId(return_statement.0)));
            proposed_callibrations.push(Callibration::ReturnShouldFlowToEndNode(return_statement));
            i += 1;
        }

        let ghost proposals = proposed_callibrations@;
        proof {
            assert forall|a: int| 0 <= a < proposals.len() implies proposal_ok(
                g,
                start_node.0,
                end_node.0,
                #[trigger] proposals[a],
            ) by {
                if a < nc {
                } else if a < nc + nb {
                    assert(proposal_ok(g, start_node.0, end_node.0, proposals[nc + (a - nc)]));
                } else {
                    assert(proposal_ok(g, start_node.0, end_node.0, proposals[nc + nb + (a - nc - nb)]));
                }
            }
            assert forall|a: int, b: int| 0 <= a < b < proposals.len() implies proposals[a].source()
                != proposals[b].source() by {
                let sa = proposals[a].source();
                let sb = proposals[b].source();
                lemma_proposal_kind(g, reach, found, nc as int, nb as int, nr as int, proposals, a);
                lemma_proposal_kind(g, reach, found, nc as int, nb as int, nr as int, proposals, b);
                if sa == sb {
                    if a < nc {
                        assert(found.continue_statements@[a] == found.continue_statements@[b]);
                    } else if a < nc + nb {
                        assert(found.break_statements@[a - nc] == found.break_statements@[b - nc]);
                    } else {
                        assert(found.return_statements@[a - nc - nb] == found.return_statements@[b
                            - nc - nb]);
                    }
                }
            }
        }

        // End node now comes into play
        self.callibrate(proposed_callibrations, end_node);

        proof {
            assert forall|k: usize|
                #[trigger] self.succ(k) == if g.live(k) && g.descriptor(k).is_jump() && reachable(
                    g,
                    start_node.0,
                    k,
                ) {
                    seq![jump_target(g, k, end_node.0)]
                } else {
                    g.succ(k)
                } by {
                if g.live(k) && g.descriptor(k).is_jump() && reachable(g, start_node.0, k) {
                    assert(reach.contains(k));
                    let a: int = if g.descriptor(k) is Continue {
                        assert(found.continue_statements@.contains(CfgNodeId(k)));
                        choose|a: int|
                            0 <= a < found.continue_statements@.len()
                                && found.continue_statements@[a] == CfgNodeId(k)
                    } else if g.descriptor(k) is Break {
                        assert(found.break_statements@.contains(CfgNodeId(k)));
                        nc + choose|a: int|
                            0 <= a < found.break_statements@.len() && found.break_statements@[a]
                                == CfgNodeId(k)
                    } else {
                        assert(found.return_statements@.contains(CfgNodeId(k)));
                        nc + nb + choose|a: int|
                            0 <= a < found.return_statements@.len() && found.return_statements@[a]
                                == CfgNodeId(k)
                    };
                    if g.descriptor(k) is Continue {
                        assert(proposals[a].source() == k);
                    } else if g.descriptor(k) is Break {
                        assert(proposals[nc + (a - nc)].source() == k);
                    } else {
                        assert(proposals[nc + nb + (a - nc - nb)].source() == k);
                    }
                    assert(proposal_ok(g, start_node.0, end_node.0, proposals[a]));
                    assert(self.succ(proposals[a].source()) == seq![proposals[a].target(end_node.0)]);
                } else {
                    assert forall|a: int| 0 <= a < proposals.len() implies (
                    #[trigger] proposals[a]).source() != k by {
                        assert(proposal_ok(g, start_node.0, end_node.0, proposals[a]));
                    }
                }
            }
        }
        proof {
            if g.shaped() {
                crate::context::flow::laws::lemma_calibrated_keeps_shape(
                    g,
                    *self,
                    start_node.0,
                    end_node.0,
                );
            }
        }
    }
}

/// The index of a correction in the list tells the kind of its jump and
/// where the jump stands in the list of its kind.
proof fn lemma_proposal_kind(
    g: Cfg,
    reach: Set<usize>,
    found: JumpSources,
    nc: int,
    nb: int,
    nr: int,
    proposals: Seq<Callibration>,
    a: int,
)
    requires
        0 <= a < proposals.len(),
        proposals.len() == nc + nb + nr,
        nc == found.continue_statements@.len(),
        nb == found.break_statements@.len(),
        nr == found.return_statements@.len(),
        found.collects(g, reach),
        forall|j: int|
            0 <= j < nc ==> (#[trigger] proposals[j]).source() == found.continue_statements@[j].0,
        forall|j: int|
            0 <= j < nb ==> (#[trigger] proposals[nc + j]).source() == found.break_statements@[j].0,
        forall|j: int|
            0 <= j < nr ==> (#[trigger] proposals[nc + nb + j]).source()
                == found.return_statements@[j].0,
    ensures
        a < nc ==> g.descriptor(proposals[a].source()) is Continue && proposals[a].source()
            == found.continue_statements@[a].0,
        nc <= a < nc + nb ==> g.descriptor(proposals[a].source()) is Break && proposals[a].source()
            == found.break_statements@[a - nc].0,
        nc + nb <= a ==> g.descriptor(proposals[a].source()) is Return && proposals[a].source()
            == found.return_statements@[a - nc - nb].0,
{
    if a < nc {
        let x = found.continue_statements@[a];
        assert(found.continue_statements@.contains(CfgNodeId(x.0)));
    } else if a < nc + nb {
        assert(proposals[nc + (a - nc)].source() == found.break_statements@[a - nc].0);
        let x = found.break_statements@[a - nc];
        assert(found.break_statements@.contains(CfgNodeId(x.0)));
    } else {
        assert(proposals[nc + nb + (a - nc - nb)].source() == found.return_statements@[a - nc - nb].0);
        let x = found.return_statements@[a - nc - nb];
        assert(found.return_statements@.contains(CfgNodeId(x.0)));
    }
}

} // verus!
