pub mod accept;
pub mod budget;
pub mod display;
pub mod expansion;
pub mod jumps;
pub mod kind;
pub mod laws;
pub mod nesting;
pub mod primitives;
pub mod reach;
pub mod reducibles;
pub mod regions;
pub mod reduction;
pub mod utils;
pub mod voids;

use vstd::prelude::*;
use std::collections::HashMap;
use std::collections::VecDeque;
use crate::ast::node::NodeID;
use crate::context::flow::expansion::{lemma_pending_after_add, node_added, pending};
use crate::context::flow::kind::CfgNodeKind;
use crate::context::workspace_context::AstNodeRef;
use crate::context::flow::primitives::{
    CfgBreakStatement, CfgContinueStatement, CfgDoWhileStatementCondition, CfgEmitStatement,
    CfgExpressionStatement, CfgForStatementCondition, CfgIfStatementCondition,
    CfgInlineAssemblyStatement, CfgPlaceholderStatement, CfgReturnStatement, CfgRevertStatement,
    CfgVariableDeclarationStatement, CfgWhileStatementCondition,
};
use crate::context::flow::reducibles::{
    CfgBlock, CfgDoWhileStatement, CfgForStatement, CfgIfStatement, CfgUncheckedBlock,
    CfgWhileStatement,
};
use crate::context::flow::voids::{CfgEndNode, CfgStartNode};

verus! {

broadcast use vstd::std_specs::hash::group_hash_axioms;

/// Identity of a node of a control-flow graph: a dense index, handed out in
/// increasing order and never reused within one graph.
#[derive(Clone, Copy, Debug, PartialEq, Eq, Hash, Structural)]
pub struct CfgNodeId(pub usize);

impl Default for CfgNodeId {
    fn default() -> (r: Self)
        ensures
            r == CfgNodeId(0),
    {
        CfgNodeId(0)
    }
}

impl CfgNodeId {
    /// The index behind the identity.
    pub fn peek(&self) -> (r: usize)
        ensures
            r == self.0,
    {
        self.0
    }

    /// The index behind the identity, to be changed in place.
    pub fn peek_mut(&mut self) -> (r: &mut usize)
        ensures
            *r == old(self).0,
            final(self).0 == *final(r),
    {
        &mut self.0
    }

    /// Moves on to the next identity.
    pub fn advance(&mut self)
        requires
            old(self).0 < usize::MAX,
        ensures
            final(self).0 == old(self).0 + 1,
    {
        self.0 += 1;
    }
}

/// What a node of the graph stands for: a sentinel, one program point, or a
/// compound construct that is still to be expanded.
#[derive(Clone, Copy, Debug, PartialEq, Eq, Hash, Structural)]
pub enum CfgNodeDescriptor {
    // Void nodes
    Start(CfgStartNode),
    End(CfgEndNode),
    // Primitives
    VariableDeclarationStatement(CfgVariableDeclarationStatement),
    ExpressionStatement(CfgExpressionStatement),
    PlaceholderStatement(CfgPlaceholderStatement),
    Break(CfgBreakStatement),
    Continue(CfgContinueStatement),
    Return(CfgReturnStatement),
    EmitStatement(CfgEmitStatement),
    RevertStatement(CfgRevertStatement),
    InlineAssembly(CfgInlineAssemblyStatement),
    IfStatementCondition(CfgIfStatementCondition),
    WhileStatementCondition(CfgWhileStatementCondition),
    ForStatementCondition(CfgForStatementCondition),
    DoWhileStatementCondition(CfgDoWhileStatementCondition),
    // Reducibles
    Block(CfgBlock),
    UncheckedBlock(CfgUncheckedBlock),
    IfStatement(CfgIfStatement),
    WhileStatement(CfgWhileStatement),
    ForStatement(CfgForStatement),
    DoWhileStatement(CfgDoWhileStatement),
}

impl CfgNodeDescriptor {
    /// The family of the descriptor.
    pub open spec fn kind_of(self) -> CfgNodeKind {
        match self {
            CfgNodeDescriptor::Start(_) | CfgNodeDescriptor::End(_) => CfgNodeKind::Void,
            CfgNodeDescriptor::Block(_)
            | CfgNodeDescriptor::UncheckedBlock(_)
            | CfgNodeDescriptor::IfStatement(_)
            | CfgNodeDescriptor::WhileStatement(_)
            | CfgNodeDescriptor::ForStatement(_)
            | CfgNodeDescriptor::DoWhileStatement(_) => CfgNodeKind::Reducible,
            _ => CfgNodeKind::Primitive,
        }
    }

    /// The descriptor stands for a construct that is still to be expanded.
    pub open spec fn is_reducible(self) -> bool {
        self.kind_of() == CfgNodeKind::Reducible
    }

    /// The descriptor stands for a `break`, a `continue` or a `return`.
    pub open spec fn is_jump(self) -> bool {
        self is Break || self is Continue || self is Return
    }

    /// The family of the descriptor.
    pub fn kind(&self) -> (r: CfgNodeKind)
        ensures
            r == self.kind_of(),
    {
        match self {
            CfgNodeDescriptor::Start(_) | CfgNodeDescriptor::End(_) => CfgNodeKind::Void,
            CfgNodeDescriptor::Block(_)
            | CfgNodeDescriptor::UncheckedBlock(_)
            | CfgNodeDescriptor::IfStatement(_)
            | CfgNodeDescriptor::WhileStatement(_)
            | CfgNodeDescriptor::ForStatement(_)
            | CfgNodeDescriptor::DoWhileStatement(_) => CfgNodeKind::Reducible,
            _ => CfgNodeKind::Primitive,
        }
    }
}

/// A node of the graph: its identity and what it stands for.
#[derive(Clone, Copy, Debug, PartialEq, Eq, Hash, Structural)]
pub struct CfgNode {
    /// Node ID
    pub id: CfgNodeId,
    /// Node descriptor
    pub nd: CfgNodeDescriptor,
}

/// The sequence without any occurrence of `x`, the rest in order.
pub open spec fn without(s: Seq<usize>, x: usize) -> Seq<usize>
    decreases s.len(),
{
    if s.len() == 0 {
        Seq::empty()
    } else if s.last() == x {
        without(s.drop_last(), x)
    } else {
        without(s.drop_last(), x).push(s.last())
    }
}

/// `without` keeps exactly the members other than `x`.
pub proof fn lemma_without_contains(s: Seq<usize>, x: usize, y: usize)
    ensures
        without(s, x).contains(y) <==> (y != x && s.contains(y)),
    decreases s.len(),
{
    if s.len() > 0 {
        let front = s.drop_last();
        lemma_without_contains(front, x, y);
        if s.contains(y) {
            let i = choose|i: int| 0 <= i < s.len() && s[i] == y;
            if i < s.len() - 1 {
                assert(front[i] == y);
            }
        }
        if front.contains(y) {
            let i = choose|i: int| 0 <= i < front.len() && front[i] == y;
            assert(s[i] == y);
        }
        if s.last() == x {
        } else {
            let w = without(front, x);
            assert(w.push(s.last())[w.len() as int] == s.last());
            if without(s, x).contains(y) {
                let i = choose|i: int| 0 <= i < without(s, x).len() && without(s, x)[i] == y;
                if i < w.len() {
                    assert(w[i] == y);
                } else {
                    assert(s[s.len() - 1] == y);
                }
            }
            if w.contains(y) {
                let i = choose|i: int| 0 <= i < w.len() && w[i] == y;
                assert(w.push(s.last())[i] == y);
            }
        }
    }
}

/// Removing what does not occur changes nothing.
pub proof fn lemma_without_absent(s: Seq<usize>, x: usize)
    requires
        !s.contains(x),
    ensures
        without(s, x) == s,
    decreases s.len(),
{
    if s.len() > 0 {
        let front = s.drop_last();
        assert(s[s.len() - 1] != x);
        assert forall|i: int| 0 <= i < front.len() implies front[i] != x by {
            assert(s[i] == front[i]);
        }
        lemma_without_absent(front, x);
        assert(front.push(s.last()) =~= s);
    }
}

/// No node occurs twice in the list.
#[verifier::opaque]
pub open spec fn distinct(s: Seq<usize>) -> bool {
    s.no_duplicates()
}

/// A list without repetition stays one when a node that it lacks is put
/// behind it.
pub proof fn lemma_distinct_push(s: Seq<usize>, x: usize)
    requires
        distinct(s),
        !s.contains(x),
    ensures
        distinct(s.push(x)),
{
    reveal(distinct);
    let t = s.push(x);
    assert forall|i: int, j: int| 0 <= i < t.len() && 0 <= j < t.len() && i != j implies t[i]
        != t[j] by {
        if i < s.len() && j < s.len() {
            assert(s[i] != s[j]);
        } else if i < s.len() {
            assert(s.contains(s[i]));
        } else {
            assert(s.contains(s[j]));
        }
    }
}

/// A list without repetition stays one when a node is taken out of it.
pub proof fn lemma_distinct_without(s: Seq<usize>, x: usize)
    requires
        distinct(s),
    ensures
        distinct(without(s, x)),
    decreases s.len(),
{
    reveal(distinct);
    if s.len() > 0 {
        let front = s.drop_last();
        assert forall|i: int, j: int|
            0 <= i < front.len() && 0 <= j < front.len() && i != j implies front[i] != front[j] by {
            assert(s[i] != s[j]);
        }
        lemma_distinct_without(front, x);
        if s.last() != x {
            lemma_without_contains(front, x, s.last());
            if front.contains(s.last()) {
                let i = choose|i: int| 0 <= i < front.len() && front[i] == s.last();
                assert(s[i] != s[s.len() - 1]);
            }
            lemma_distinct_push(without(front, x), s.last());
        }
    }
}

/// The empty list and a list of one node are without repetition.
pub proof fn lemma_distinct_short(s: Seq<usize>)
    requires
        s.len() <= 1,
    ensures
        distinct(s),
{
    reveal(distinct);
}

/// The successors recorded for a node in an adjacency list: none where the
/// list has no entry for it.
pub open spec fn successors_in(adj: Map<usize, Vec<usize>>, k: usize) -> Seq<usize> {
    if adj.contains_key(k) {
        adj[k]@
    } else {
        Seq::empty()
    }
}

/// The structural invariant of a graph, over its parts: the registry, the
/// adjacency list, the next free identity and the queue.
#[verifier::opaque]
pub open spec fn graph_inv(
    nodes: Map<usize, CfgNode>,
    adj: Map<usize, Vec<usize>>,
    next: usize,
    queue: Seq<usize>,
) -> bool {
    &&& forall|k: usize| #[trigger] nodes.contains_key(k) ==> k < next && nodes[k].id == CfgNodeId(k)
    &&& forall|k: usize| (#[trigger] successors_in(adj, k)).len() > 0 ==> nodes.contains_key(k)
    &&& forall|k: usize, i: int|
        0 <= i < successors_in(adj, k).len() ==> nodes.contains_key(
            #[trigger] successors_in(adj, k)[i],
        )
    &&& forall|k: usize| distinct(#[trigger] successors_in(adj, k))
    &&& forall|i: int|
        0 <= i < queue.len() ==> nodes.contains_key(#[trigger] queue[i])
            && nodes[queue[i]].nd.is_reducible()
    &&& queue.no_duplicates()
}

/// Every node of the registry that is still to be expanded is queued.
#[verifier::opaque]
pub open spec fn graph_complete(nodes: Map<usize, CfgNode>, queue: Seq<usize>) -> bool {
    forall|k: usize| #[trigger] nodes.contains_key(k) && nodes[k].nd.is_reducible() ==> queue.contains(k)
}

/// Whatever is queued is in the registry.
pub proof fn lemma_queued_is_live(g: Cfg, i: int)
    requires
        g.inv(),
        0 <= i < g.queue().len(),
    ensures
        g.live(g.queue()[i]),
        g.descriptor(g.queue()[i]).is_reducible(),
{
    reveal(graph_inv);
}

/// Control flow graph
pub struct Cfg {
    /// Node registry
    pub nodes: HashMap<usize, CfgNode>,
    /// Adjacency list representation of the Control Flow Graph: for each
    /// node its successors in the order in which the edges were made, none
    /// of them twice
    pub adj_list: HashMap<usize, Vec<usize>>,
    /// ID to construct the next node
    pub next_available_id: CfgNodeId,
    /// Current reducibles
    pub reduction_queue: VecDeque<usize>,
    /// Lookup the corresponding End node for any start node
    pub start_end_pairs: HashMap<usize, usize>,
    /// Lookup the Condition node for a given loop's start node
    pub start_cond_pairs: HashMap<usize, usize>,
    /// Lookup the loop expression node for a given for loop's start node
    pub start_loop_expr: HashMap<usize, usize>,
    /// Lookup the start of a for loop given its loop expression node
    pub loop_expr_start: HashMap<usize, usize>,
    /// Lookup the start of a while or do-while loop given its condition node
    pub cond_start_pairs: HashMap<usize, usize>,
}

impl Cfg {
    /// The identity that the next node will get: the number of identities
    /// handed out so far.
    #[verifier::inline]
    pub open spec fn next(&self) -> usize {
        self.next_available_id.0
    }

    /// The node is in the registry.
    #[verifier::inline]
    pub open spec fn live(&self, k: usize) -> bool {
        self.nodes@.contains_key(k)
    }

    /// What the node stands for.
    #[verifier::inline]
    pub open spec fn descriptor(&self, k: usize) -> CfgNodeDescriptor {
        self.nodes@[k].nd
    }

    /// The node is in the registry and still to be expanded.
    #[verifier::inline]
    pub open spec fn reducible(&self, k: usize) -> bool {
        self.live(k) && self.descriptor(k).is_reducible()
    }

    /// The successors of a node, in the order in which the edges were made.
    #[verifier::inline]
    pub open spec fn succ(&self, k: usize) -> Seq<usize> {
        successors_in(self.adj_list@, k)
    }

    /// There is an edge from `a` to `b`.
    #[verifier::inline]
    pub open spec fn has_edge(&self, a: usize, b: usize) -> bool {
        self.succ(a).contains(b)
    }

    /// The pending reducible nodes, first in at the front.
    #[verifier::inline]
    pub open spec fn queue(&self) -> Seq<usize> {
        self.reduction_queue@
    }

    /// The five lookup tables of the two graphs agree.
    pub open spec fn same_tables(&self, other: &Cfg) -> bool {
        &&& self.start_end_pairs@ == other.start_end_pairs@
        &&& self.start_cond_pairs@ == other.start_cond_pairs@
        &&& self.start_loop_expr@ == other.start_loop_expr@
        &&& self.loop_expr_start@ == other.loop_expr_start@
        &&& self.cond_start_pairs@ == other.cond_start_pairs@
    }

    /// The structural invariant of the graph.
    ///
    /// * Every identity in the registry has been handed out, and a node is
    ///   stored under its own identity.
    /// * Both ends of every edge are in the registry, and no node has the
    ///   same successor twice.
    /// * The queue holds nodes of the registry that are still to be
    ///   expanded, each once.
    #[verifier::inline]
    pub open spec fn inv(&self) -> bool {
        graph_inv(self.nodes@, self.adj_list@, self.next_available_id.0, self.reduction_queue@)
    }

    /// The invariant of the graph between two reductions: the structural
    /// invariant, and every node that is still to be expanded is queued.
    #[verifier::inline]
    pub open spec fn wf(&self) -> bool {
        self.inv() && graph_complete(self.nodes@, self.reduction_queue@)
    }

    /// An empty graph.
    pub fn new() -> (r: Self)
        ensures
            r.wf(),
            r.shaped(),
            r.next() == 0,
            r.queue().len() == 0,
            r.nodes@ == Map::<usize, CfgNode>::empty(),
            r.adj_list@ == Map::<usize, Vec<usize>>::empty(),
            forall|k: usize| !r.live(k),
            forall|k: usize| #[trigger] r.succ(k) == Seq::<usize>::empty(),
            r.start_end_pairs@ == Map::<usize, usize>::empty(),
            r.start_cond_pairs@ == Map::<usize, usize>::empty(),
            r.start_loop_expr@ == Map::<usize, usize>::empty(),
            r.loop_expr_start@ == Map::<usize, usize>::empty(),
            r.cond_start_pairs@ == Map::<usize, usize>::empty(),
    {
        reveal(graph_inv);
        reveal(graph_complete);
        reveal(Cfg::shaped);
        proof {
            lemma_distinct_short(Seq::<usize>::empty());
        }
        Cfg {
            nodes: HashMap::new(),
            adj_list: HashMap::new(),
            next_available_id: CfgNodeId(0),
            reduction_queue: VecDeque::new(),
            start_end_pairs: HashMap::new(),
            start_cond_pairs: HashMap::new(),
            start_loop_expr: HashMap::new(),
            loop_expr_start: HashMap::new(),
            cond_start_pairs: HashMap::new(),
        }
    }

    /// The number of nodes in the registry.
    pub fn total_nodes(&self) -> (r: usize)
        ensures
            r == self.nodes@.len(),
    {
        self.nodes.len()
    }

    /// Stores a node under the given identity, replacing what was there.
    pub fn add_raw_node(&mut self, id: CfgNodeId, nd: CfgNodeDescriptor)
        ensures
            final(self).nodes@ == old(self).nodes@.insert(id.0, CfgNode { id, nd }),
            final(self).adj_list == old(self).adj_list,
            final(self).next_available_id == old(self).next_available_id,
            final(self).reduction_queue == old(self).reduction_queue,
            final(self).same_tables(old(self)),
    {
        let cfg_node = CfgNode { id, nd };
        self.nodes.insert(id.0, cfg_node);
    }

    /// Whether `to` is among the successors recorded in the list.
    fn listed(list: &Vec<usize>, to: usize) -> (r: bool)
        ensures
            r == list@.contains(to),
    {
        let n = list.len();
        let mut i: usize = 0;
        while i < n
            invariant
                i <= n,
                n == list@.len(),
                forall|j: int| 0 <= j < i ==> list@[j] != to,
            decreases n - i,
        {
            if list[i] == to {
                return true;
            }
            i += 1;
        }
        false
    }

    /// Puts `to` behind the successors of `from`, unless it is among them
    /// already: the successors of a node are a set, kept in the order in
    /// which they came.
    pub fn add_raw_directed_edge(&mut self, from: CfgNodeId, to: CfgNodeId)
        ensures
            final(self).succ(from.0) == if old(self).succ(from.0).contains(to.0) {
                old(self).succ(from.0)
            } else {
                old(self).succ(from.0).push(to.0)
            },
            forall|k: usize| k != from.0 ==> #[trigger] final(self).succ(k) == old(self).succ(k),
            old(self).succ(from.0).contains(to.0) ==> final(self).adj_list@ == old(self).adj_list@,
            final(self).adj_list@.contains_key(from.0),
            final(self).nodes == old(self).nodes,
            final(self).next_available_id == old(self).next_available_id,
            final(self).reduction_queue == old(self).reduction_queue,
            final(self).same_tables(old(self)),
    {
        let known = match self.adj_list.get(&from.0) {
            Some(existing) => Self::listed(existing, to.0),
            None => false,
        };
        if !known {
            let mut list = match self.adj_list.remove(&from.0) {
                Some(existing) => existing,
                None => Vec::new(),
            };
            list.push(to.0);
            self.adj_list.insert(from.0, list);
        }
    }

    /// Drops every edge from `from` to `to`. The successors of `from` must
    /// have been recorded before.
    pub fn remove_raw_directed_edge(&mut self, from: CfgNodeId, to: CfgNodeId)
        requires
            old(self).adj_list@.contains_key(from.0),
        ensures
            final(self).succ(from.0) == without(old(self).succ(from.0), to.0),
            final(self).adj_list@.contains_key(from.0),
            forall|k: usize| k != from.0 ==> #[trigger] final(self).succ(k) == old(self).succ(k),
            forall|k: usize|
                final(self).adj_list@.contains_key(k) == old(self).adj_list@.contains_key(k),
            final(self).nodes == old(self).nodes,
            final(self).next_available_id == old(self).next_available_id,
            final(self).reduction_queue == old(self).reduction_queue,
            final(self).same_tables(old(self)),
    {
        let existing = self.adj_list.remove(&from.0);
        let list = match existing {
            Some(l) => l,
            None => Vec::new(),
        };
        let kept = Self::filtered(&list, to.0);
        self.adj_list.insert(from.0, kept);
    }

    /// A copy of the list without any occurrence of `x`.
    fn filtered(list: &Vec<usize>, x: usize) -> (kept: Vec<usize>)
        ensures
            kept@ == without(list@, x),
    {
        let mut kept: Vec<usize> = Vec::new();
        let n = list.len();
        let mut i: usize = 0;
        while i < n
            invariant
                i <= n,
                n == list.len(),
                kept@ == without(list@.take(i as int), x),
            decreases n - i,
        {
            assert(list@.take(i + 1).drop_last() =~= list@.take(i as int));
            if list[i] != x {
                kept.push(list[i]);
            }
            i += 1;
        }
        assert(list@.take(n as int) =~= list@);
        kept
    }

    /// The successors of a node, in the order in which the edges were made.
    pub fn raw_successors(&self, id: CfgNodeId) -> (r: Vec<CfgNodeId>)
        ensures
            r@.len() == self.succ(id.0).len(),
            forall|i: int| 0 <= i < r@.len() ==> (#[trigger] r@[i]).0 == self.succ(id.0)[i],
    {
        let mut result: Vec<CfgNodeId> = Vec::new();
        match self.adj_list.get(&id.0) {
            None => {},
            Some(successors) => {
                let n = successors.len();
                let mut i: usize = 0;
                while i < n
                    invariant
                        i <= n,
                        n == successors.len(),
                        result@.len() == i,
                        forall|j: int| 0 <= j < i ==> (#[trigger] result@[j]).0 == successors@[j],
                    decreases n - i,
                {
                    result.push(CfgNodeId(successors[i]));
                    i += 1;
                }
            },
        }
        result
    }

    /// Whether there is an edge from `from` to `to`.
    pub fn has_raw_edge(&self, from: usize, to: usize) -> (r: bool)
        ensures
            r == self.has_edge(from, to),
    {
        match self.adj_list.get(&from) {
            None => false,
            Some(successors) => {
                let n = successors.len();
                let mut i: usize = 0;
                while i < n
                    invariant
                        i <= n,
                        n == successors.len(),
                        self.succ(from) == successors@,
                        forall|j: int| 0 <= j < i ==> successors@[j] != to,
                    decreases n - i,
                {
                    if successors[i] == to {
                        assert(self.succ(from)[i as int] == to);
                        return true;
                    }
                    i += 1;
                }
                false
            },
        }
    }

    /// The nodes with an edge to `id`, among the identities handed out so
    /// far, in increasing order.
    pub fn raw_predecessors(&self, id: CfgNodeId) -> (r: Vec<CfgNodeId>)
        ensures
            forall|i: int| 0 <= i < r@.len() ==> (#[trigger] r@[i]).0 < self.next() && self.has_edge(r@[i].0, id.0),
            forall|i: int, j: int| 0 <= i < j < r@.len() ==> r@[i].0 < r@[j].0,
            forall|k: usize| k < self.next() && self.has_edge(k, id.0) ==> r@.contains(CfgNodeId(k)),
    {
        let mut predecessors: Vec<CfgNodeId> = Vec::new();
        let n = self.next_available_id.0;
        let mut from: usize = 0;
        while from < n
            invariant
                from <= n,
                n == self.next(),
                forall|i: int| 0 <= i < predecessors@.len() ==> (#[trigger] predecessors@[i]).0 < from && self.has_edge(predecessors@[i].0, id.0),
                forall|i: int, j: int| 0 <= i < j < predecessors@.len() ==> predecessors@[i].0 < predecessors@[j].0,
                forall|k: usize| k < from && self.has_edge(k, id.0) ==> predecessors@.contains(CfgNodeId(k)),
            decreases n - from,
        {
            if self.has_raw_edge(from, id.0) {
                let ghost before = predecessors@;
                predecessors.push(CfgNodeId(from));
                assert(predecessors@[before.len() as int] == CfgNodeId(from));
                assert forall|k: usize| k < from + 1 && self.has_edge(k, id.0) implies predecessors@.contains(CfgNodeId(k)) by {
                    if k < from {
                        let i = choose|i: int| 0 <= i < before.len() && before[i] == CfgNodeId(k);
                        assert(predecessors@[i] == CfgNodeId(k));
                    }
                }
            }
            from += 1;
        }
        predecessors
    }

    /// The number of edges that leave the nodes with an identity below
    /// `upto`.
    pub open spec fn edge_total(&self, upto: nat) -> nat
        decreases upto,
    {
        if upto == 0 {
            0
        } else {
            self.edge_total((upto - 1) as nat) + self.succ((upto - 1) as usize).len()
        }
    }

    /// The number of edges of the graph, counted over the identities handed
    /// out so far; `usize::MAX` if the count does not fit.
    pub fn total_edges(&self) -> (r: usize)
        ensures
            self.edge_total(self.next() as nat) <= usize::MAX ==> r == self.edge_total(
                self.next() as nat,
            ),
            self.edge_total(self.next() as nat) > usize::MAX ==> r == usize::MAX,
    {
        let n = self.next_available_id.0;
        let mut total: usize = 0;
        let mut k: usize = 0;
        while k < n
            invariant
                k <= n,
                n == self.next(),
                self.edge_total(k as nat) <= usize::MAX ==> total == self.edge_total(k as nat),
                self.edge_total(k as nat) > usize::MAX ==> total == usize::MAX,
            decreases n - k,
        {
            let len = match self.adj_list.get(&k) {
                Some(list) => list.len(),
                None => 0,
            };
            assert(len == self.succ(k).len());
            assert(self.edge_total((k + 1) as nat) == self.edge_total(k as nat) + self.succ(k).len());
            total = if len > usize::MAX - total {
                usize::MAX
            } else {
                total + len
            };
            k += 1;
        }
        total
    }

    /// Drops every edge that starts or ends at the node. No edge may leave
    /// a node whose identity has not been handed out.
    pub fn remove_raw_edges_involving(&mut self, node_id: CfgNodeId)
        requires
            forall|k: usize| (#[trigger] old(self).succ(k)).len() > 0 ==> k < old(self).next(),
        ensures
            final(self).succ(node_id.0) == Seq::<usize>::empty(),
            forall|k: usize|
                k != node_id.0 ==> #[trigger] final(self).succ(k) == without(
                    old(self).succ(k),
                    node_id.0,
                ),
            final(self).nodes == old(self).nodes,
            final(self).next_available_id == old(self).next_available_id,
            final(self).reduction_queue == old(self).reduction_queue,
            final(self).same_tables(old(self)),
    {
        // Remove all successors' edges starting from node_id
        self.adj_list.remove(&node_id.0);
        let ghost mid = *self;
        assert(mid.succ(node_id.0) == Seq::<usize>::empty());
        assert(forall|k: usize| k != node_id.0 ==> #[trigger] mid.succ(k) == old(self).succ(k));

        // Remove edges ending at node_id
        let n = self.next_available_id.0;
        let mut k: usize = 0;
        while k < n
            invariant
                k <= n,
                n == self.next(),
                self.nodes == mid.nodes,
                self.next_available_id == mid.next_available_id,
                self.reduction_queue == mid.reduction_queue,
                self.same_tables(&mid),
                forall|j: usize| j < k ==> #[trigger] self.succ(j) == without(mid.succ(j), node_id.0),
                forall|j: usize| j >= k ==> #[trigger] self.succ(j) == mid.succ(j),
            decreases n - k,
        {
            let ghost before = *self;
            match self.adj_list.remove(&k) {
                Some(list) => {
                    assert(before.succ(k) == mid.succ(k));
                    assert(before.succ(k) == list@);
                    let kept = Self::filtered(&list, node_id.0);
                    self.adj_list.insert(k, kept);
                    assert(self.succ(k) == without(mid.succ(k), node_id.0));
                    assert(forall|j: usize| j != k ==> #[trigger] self.succ(j) == before.succ(j));
                },
                None => {
                    assert(without(Seq::<usize>::empty(), node_id.0) == Seq::<usize>::empty());
                    assert(forall|j: usize| #[trigger] self.succ(j) == before.succ(j));
                },
            }
            k += 1;
        }
        proof {
            assert forall|j: usize| j != node_id.0 implies #[trigger] self.succ(j) == without(
                old(self).succ(j),
                node_id.0,
            ) by {
                if j >= n {
                    assert(old(self).succ(j).len() == 0);
                    assert(mid.succ(j) == old(self).succ(j));
                    assert(self.succ(j) == mid.succ(j));
                } else {
                    assert(self.succ(j) == without(mid.succ(j), node_id.0));
                }
            }
            assert(without(Seq::<usize>::empty(), node_id.0) == Seq::<usize>::empty());
        }
    }

    /// Makes `to` the only successor of the node.
    pub fn reset_raw_successors(&mut self, node_id: CfgNodeId, to: CfgNodeId)
        ensures
            final(self).succ(node_id.0) == seq![to.0],
            forall|k: usize| k != node_id.0 ==> #[trigger] final(self).succ(k) == old(self).succ(k),
            final(self).nodes == old(self).nodes,
            final(self).next_available_id == old(self).next_available_id,
            final(self).reduction_queue == old(self).reduction_queue,
            final(self).same_tables(old(self)),
            old(self).inv() && old(self).live(node_id.0) && old(self).live(to.0) ==> final(self).inv(),
    {
        // Remove edges starting from node_id
        self.adj_list.remove(&node_id.0);
        let ghost mid = *self;
        assert(mid.succ(node_id.0) == Seq::<usize>::empty());
        self.add_raw_directed_edge(node_id, to);
        assert(self.succ(node_id.0) =~= seq![to.0]);
        proof {
            reveal(graph_inv);
            if old(self).inv() && old(self).live(node_id.0) && old(self).live(to.0) {
                assert forall|k: usize| (#[trigger] self.succ(k)).len() > 0 implies self.live(k) by {
                    if k != node_id.0 {
                        assert(self.succ(k) == old(self).succ(k));
                    }
                }
                assert forall|k: usize, i: int| 0 <= i < self.succ(k).len() implies self.live(
                    #[trigger] self.succ(k)[i],
                ) by {
                    if k != node_id.0 {
                        assert(self.succ(k) == old(self).succ(k));
                        assert(old(self).live(old(self).succ(k)[i]));
                    }
                }
                assert forall|k: usize| distinct(#[trigger] self.succ(k)) by {
                    assert(distinct(old(self).succ(k)));
                    if k == node_id.0 {
                        lemma_distinct_short(self.succ(k));
                    } else {
                        assert(self.succ(k) == old(self).succ(k));
                    }
                }
            }
        }
    }

    /// Assigns a unique ID to the given node and adds it to the CFG. A node
    /// that is still to be expanded is queued for reduction.
    #[must_use]
    pub fn add_node(&mut self, nd: CfgNodeDescriptor) -> (node_id: CfgNodeId)
        requires
            old(self).inv(),
            old(self).next() < usize::MAX,
        ensures
            node_id.0 == old(self).next(),
            final(self).next() == old(self).next() + 1,
            final(self).nodes@ == old(self).nodes@.insert(node_id.0, CfgNode { id: node_id, nd }),
            !old(self).live(node_id.0),
            final(self).adj_list == old(self).adj_list,
            final(self).succ(node_id.0) == Seq::<usize>::empty(),
            final(self).queue() == if nd.is_reducible() {
                old(self).queue().push(node_id.0)
            } else {
                old(self).queue()
            },
            final(self).same_tables(old(self)),
            final(self).inv(),
            old(self).wf() ==> final(self).wf(),
            node_added(*old(self), *final(self), nd, node_id),
    {
        proof {
            reveal(graph_inv);
            reveal(graph_complete);
        }
        // Grab the currently available id
        let node_id = self.next_available_id;

        // Increment the ID for next use
        self.next_available_id.advance();

        // Queue the node to be reduced if it is reducible
        if nd.kind() == CfgNodeKind::Reducible {
            self.reduction_queue.push_back(node_id.0);
        }
        // Add the node to the CFG

        self.add_raw_node(node_id, nd);

        proof {
            let q0 = old(self).queue();
            let q1 = self.queue();
            assert(!old(self).live(node_id.0));
            assert(self.nodes@.dom() == old(self).nodes@.dom().insert(node_id.0));
            assert(old(self).succ(node_id.0).len() == 0);
            assert(self.succ(node_id.0) =~= Seq::<usize>::empty());
            assert forall|k: usize| #[trigger] self.live(k) implies k < self.next()
                && self.nodes@[k].id == CfgNodeId(k) by {
                if k != node_id.0 {
                    assert(old(self).live(k));
                }
            }
            assert forall|k: usize| (#[trigger] self.succ(k)).len() > 0 implies self.live(k) by {
                assert(self.succ(k) == old(self).succ(k));
                assert(old(self).live(k));
            }
            assert forall|k: usize, i: int| 0 <= i < self.succ(k).len() implies self.live(
                #[trigger] self.succ(k)[i],
            ) by {
                assert(self.succ(k) == old(self).succ(k));
                assert(old(self).live(old(self).succ(k)[i]));
            }
            assert forall|i: int| 0 <= i < q1.len() implies self.reducible(#[trigger] q1[i]) by {
                if i < q0.len() {
                    assert(old(self).reducible(q0[i]));
                    assert(q0[i] != node_id.0);
                }
            }
            assert(q1.no_duplicates()) by {
                assert forall|i: int, j: int| 0 <= i < q1.len() && 0 <= j < q1.len() && i != j implies q1[i] != q1[j] by {
                    if i < q0.len() {
                        assert(old(self).reducible(q0[i]));
                    }
                    if j < q0.len() {
                        assert(old(self).reducible(q0[j]));
                    }
                }
            }
            assert forall|m: Map<NodeID, AstNodeRef>| #[trigger]
                self.pending_total(m) == old(self).pending_total(m) + pending(m, nd) by {
                lemma_pending_after_add(m, *old(self), *self, nd);
            }
            if old(self).wf() {
                assert forall|k: usize|
                    #[trigger] self.live(k) && self.descriptor(k).is_reducible() implies q1.contains(k) by {
                    if k == node_id.0 {
                        assert(q1[q1.len() - 1] == k);
                    } else {
                        assert(old(self).reducible(k));
                        let i = choose|i: int| 0 <= i < q0.len() && q0[i] == k;
                        assert(q1[i] == k);
                    }
                }
            }
        }

        // Return the ID of the freshly inserted node
        node_id
    }

    /// Disconnects existing relationships (mostly used during reduction):
    /// drops every edge from `from` to `to`. The successors of `from` must
    /// have been recorded before.
    pub fn remove_flow_edge(&mut self, from: CfgNodeId, to: CfgNodeId)
        requires
            old(self).adj_list@.contains_key(from.0),
        ensures
            final(self).succ(from.0) == without(old(self).succ(from.0), to.0),
            forall|k: usize| k != from.0 ==> #[trigger] final(self).succ(k) == old(self).succ(k),
            final(self).nodes == old(self).nodes,
            final(self).next_available_id == old(self).next_available_id,
            final(self).reduction_queue == old(self).reduction_queue,
            final(self).same_tables(old(self)),
            old(self).inv() ==> final(self).inv(),
            old(self).wf() ==> final(self).wf(),
    {
        self.remove_raw_directed_edge(from, to);
        proof {
            reveal(graph_inv);
            reveal(graph_complete);
            if old(self).inv() {
                assert forall|k: usize| (#[trigger] self.succ(k)).len() > 0 implies self.live(k) by {
                    if k == from.0 {
                        let y = self.succ(k)[0];
                        assert(self.succ(k).contains(y));
                        lemma_without_contains(old(self).succ(k), to.0, y);
                        assert(old(self).succ(k).len() > 0);
                    } else {
                        assert(self.succ(k) == old(self).succ(k));
                    }
                }
                assert forall|k: usize, i: int| 0 <= i < self.succ(k).len() implies self.live(
                    #[trigger] self.succ(k)[i],
                ) by {
                    if k == from.0 {
                        let y = self.succ(k)[i];
                        assert(self.succ(k).contains(y));
                        lemma_without_contains(old(self).succ(k), to.0, y);
                        let j = choose|j: int| 0 <= j < old(self).succ(k).len() && old(self).succ(k)[j] == y;
                        assert(old(self).live(old(self).succ(k)[j]));
                    } else {
                        assert(self.succ(k) == old(self).succ(k));
                        assert(old(self).live(old(self).succ(k)[i]));
                    }
                }
                assert forall|k: usize| distinct(#[trigger] self.succ(k)) by {
                    assert(distinct(old(self).succ(k)));
                    if k == from.0 {
                        lemma_distinct_without(old(self).succ(k), to.0);
                    } else {
                        assert(self.succ(k) == old(self).succ(k));
                    }
                }
            }
        }
    }

    /// Connects the given two given nodes in the CFG: puts `to` behind the
    /// successors of `from`. An edge that is there already is not made a
    /// second time.
    pub fn add_flow_edge(&mut self, from: CfgNodeId, to: CfgNodeId)
        ensures
            final(self).succ(from.0) == if old(self).succ(from.0).contains(to.0) {
                old(self).succ(from.0)
            } else {
                old(self).succ(from.0).push(to.0)
            },
            forall|k: usize| k != from.0 ==> #[trigger] final(self).succ(k) == old(self).succ(k),
            final(self).nodes == old(self).nodes,
            final(self).next_available_id == old(self).next_available_id,
            final(self).reduction_queue == old(self).reduction_queue,
            final(self).same_tables(old(self)),
            old(self).inv() && old(self).live(from.0) && old(self).live(to.0) ==> final(self).inv(),
            old(self).wf() && old(self).live(from.0) && old(self).live(to.0) ==> final(self).wf(),
    {
        self.add_raw_directed_edge(from, to);
        proof {
            reveal(graph_inv);
            reveal(graph_complete);
            if old(self).inv() && old(self).live(from.0) && old(self).live(to.0) {
                assert forall|k: usize| (#[trigger] self.succ(k)).len() > 0 implies self.live(k) by {
                    if k != from.0 {
                        assert(self.succ(k) == old(self).succ(k));
                    }
                }
                assert forall|k: usize, i: int| 0 <= i < self.succ(k).len() implies self.live(
                    #[trigger] self.succ(k)[i],
                ) by {
                    if k == from.0 {
                        if i < old(self).succ(k).len() {
                            assert(old(self).live(old(self).succ(k)[i]));
                        }
                    } else {
                        assert(self.succ(k) == old(self).succ(k));
                        assert(old(self).live(old(self).succ(k)[i]));
                    }
                }
                assert forall|k: usize| distinct(#[trigger] self.succ(k)) by {
                    assert(distinct(old(self).succ(k)));
                    if k == from.0 {
                        if !old(self).succ(k).contains(to.0) {
                            lemma_distinct_push(old(self).succ(k), to.0);
                        }
                    } else {
                        assert(self.succ(k) == old(self).succ(k));
                    }
                }
            }
        }
    }

    /// The end sentinel that belongs to the start sentinel of a construct.
    /// The node must be the start of a construct that was expanded.
    pub fn find_ending_counter_part(&self, start_node_id: CfgNodeId) -> (r: CfgNodeId)
        requires
            self.start_end_pairs@.contains_key(start_node_id.0),
        ensures
            r.0 == self.start_end_pairs@[start_node_id.0],
    {
        match self.start_end_pairs.get(&start_node_id.0) {
            Some(end) => CfgNodeId(*end),
            None => CfgNodeId(0),
        }
    }

    /// The sentinel that opens the condition of a loop, given the start
    /// sentinel of the loop. The node must be the start of a loop that was
    /// expanded.
    pub fn find_condition_node(&self, start_loop_id: CfgNodeId) -> (r: CfgNodeId)
        requires
            self.start_cond_pairs@.contains_key(start_loop_id.0),
        ensures
            r.0 == self.start_cond_pairs@[start_loop_id.0],
    {
        match self.start_cond_pairs.get(&start_loop_id.0) {
            Some(cond) => CfgNodeId(*cond),
            None => CfgNodeId(0),
        }
    }

    /// The sentinel that opens the update expression of a `for` loop, given
    /// the start sentinel of the loop. The node must be the start of a `for`
    /// loop that was expanded.
    pub fn find_loop_expression_node(&self, start_loop_id: CfgNodeId) -> (r: CfgNodeId)
        requires
            self.start_loop_expr@.contains_key(start_loop_id.0),
        ensures
            r.0 == self.start_loop_expr@[start_loop_id.0],
    {
        match self.start_loop_expr.get(&start_loop_id.0) {
            Some(update) => CfgNodeId(*update),
            None => CfgNodeId(0),
        }
    }
}

} // verus!
