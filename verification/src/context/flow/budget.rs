use vstd::prelude::*;
use crate::ast::ast_nodes::{
    Block, BlockOrStatement, DoWhileStatement, ForStatement, IfStatement, Statement,
    WhileStatement,
};
use crate::ast::node::NodeID;
use crate::context::flow::expansion::{
    block_cost, body_cost, do_while_cost, for_cost, if_cost, nested_cost, pending,
    queue_pending, stmts_cost, while_cost,
};
use crate::context::flow::reducibles::CfgBlock;
use crate::context::flow::{Cfg, CfgNodeDescriptor};
use crate::context::workspace_context::{AstNodeRef, WorkspaceContext};

verus! {

/// A count of nodes, as far as it can be told in a machine word.
pub open spec fn counts(r: Option<usize>, n: nat) -> bool {
    match r {
        Some(c) => c == n,
        None => n > usize::MAX,
    }
}

/// The sum of two counts.
fn plus(a: Option<usize>, b: Option<usize>, Ghost(x): Ghost<nat>, Ghost(y): Ghost<nat>) -> (r: Option<
    usize,
>)
    requires
        counts(a, x),
        counts(b, y),
    ensures
        counts(r, x + y),
{
    match (a, b) {
        (Some(x), Some(y)) => if x > usize::MAX - y {
            None
        } else {
            Some(x + y)
        },
        _ => None,
    }
}

/// The number of nodes that the expansion of a statement's own node makes
/// in all, if it fits.
pub fn cost_of_statement(s: &Statement) -> (r: Option<usize>)
    ensures
        counts(r, nested_cost(*s)),
    decreases s,
{
    match s {
        Statement::Block(n) => cost_of_block(n),
        Statement::UncheckedBlock(n) => cost_of_block(n),
        Statement::IfStatement(n) => cost_of_if(n),
        Statement::WhileStatement(n) => cost_of_while(n),
        Statement::ForStatement(n) => cost_of_for(n),
        Statement::DoWhileStatement(n) => cost_of_do_while(n),
        _ => Some(0),
    }
}

/// The number of nodes that the expansion of a block makes in all, if it
/// fits.
pub fn cost_of_block(b: &Block) -> (r: Option<usize>)
    ensures
        counts(r, block_cost(*b)),
    decreases b,
{
    let n = b.statements.len();
    let mut total: Option<usize> = Some(2);
    let mut i: usize = 0;
    while i < n
        invariant
            i <= n,
            n == b.statements@.len(),
            counts(total, 2 + stmts_cost(b.statements@.take(i as int))),
        decreases n - i,
    {
        assert(b.statements@.take(i + 1).drop_last() =~= b.statements@.take(i as int));
        let nested = cost_of_statement(&b.statements[i]);
        let ghost so_far = 2 + stmts_cost(b.statements@.take(i as int));
        let with_node = plus(total, Some(1), Ghost(so_far), Ghost(1));
        total = plus(
            with_node,
            nested,
            Ghost(so_far + 1),
            Ghost(nested_cost(b.statements@[i as int])),
        );
        i += 1;
    }
    assert(b.statements@.take(n as int) =~= b.statements@);
    total
}

/// The number of nodes that the expansion of a body's own node makes in
/// all, if it fits.
pub fn cost_of_body(b: &BlockOrStatement) -> (r: Option<usize>)
    ensures
        counts(r, body_cost(*b)),
    decreases b,
{
    match b {
        BlockOrStatement::Block(block) => cost_of_block(block),
        BlockOrStatement::Statement(statement) => cost_of_statement(statement),
    }
}

/// The number of nodes that the expansion of an `if` makes in all, if it
/// fits.
pub fn cost_of_if(s: &IfStatement) -> (r: Option<usize>)
    ensures
        counts(r, if_cost(*s)),
    decreases s,
{
    let with_true = plus(
        Some(8),
        cost_of_body(&s.true_body),
        Ghost(8),
        Ghost(body_cost(s.true_body)),
    );
    match &s.false_body {
        Some(f) => {
            let with_sentinels = plus(
                with_true,
                Some(3),
                Ghost(8 + body_cost(s.true_body)),
                Ghost(3),
            );
            plus(
                with_sentinels,
                cost_of_body(f),
                Ghost(8 + body_cost(s.true_body) + 3),
                Ghost(body_cost(*f)),
            )
        },
        None => with_true,
    }
}

/// The number of nodes that the expansion of a `while` loop makes in all,
/// if it fits.
pub fn cost_of_while(s: &WhileStatement) -> (r: Option<usize>)
    ensures
        counts(r, while_cost(*s)),
    decreases s,
{
    plus(Some(8), cost_of_body(&s.body), Ghost(8), Ghost(body_cost(s.body)))
}

/// The number of nodes that the expansion of a `do`-`while` loop makes in
/// all, if it fits.
pub fn cost_of_do_while(s: &DoWhileStatement) -> (r: Option<usize>)
    ensures
        counts(r, do_while_cost(*s)),
    decreases s,
{
    plus(Some(8), cost_of_block(&s.body), Ghost(8), Ghost(block_cost(s.body)))
}

/// The number of nodes that the expansion of a `for` loop makes in all,
/// if it fits.
pub fn cost_of_for(s: &ForStatement) -> (r: Option<usize>)
    ensures
        counts(r, for_cost(*s)),
    decreases s,
{
    let ghost a = 11 + body_cost(s.body);
    let with_body = plus(Some(11), cost_of_body(&s.body), Ghost(11), Ghost(body_cost(s.body)));
    let ghost b: nat = if s.initialization_expression is Some {
        1 + nested_cost(*s.initialization_expression->Some_0)
    } else {
        0
    };
    let with_init = match &s.initialization_expression {
        Some(i) => {
            let with_node = plus(with_body, Some(1), Ghost(a), Ghost(1));
            plus(with_node, cost_of_statement(i), Ghost(a + 1), Ghost(nested_cost(**i)))
        },
        None => with_body,
    };
    let ghost c: nat = if s.condition is Some {
        1
    } else {
        0
    };
    let with_condition = if s.condition.is_some() {
        plus(with_init, Some(1), Ghost(a + b), Ghost(1))
    } else {
        with_init
    };
    if s.loop_expression.is_some() {
        plus(with_condition, Some(1), Ghost(a + b + c), Ghost(1))
    } else {
        with_condition
    }
}

impl<'a> WorkspaceContext<'a> {
    /// The number of nodes that are still to be made for the node of a
    /// block with the given identity, if it fits: what the expansion of the
    /// block costs where the registry knows the block, else two.
    pub fn pending_for_block(&self, block: NodeID) -> (r: Option<usize>)
        ensures
            counts(r, pending(self.nodes@, CfgNodeDescriptor::Block(CfgBlock { block }))),
    {
        match self.get(block) {
            Some(AstNodeRef::Block(b)) => cost_of_block(b),
            _ => Some(2),
        }
    }
}

impl<'a> WorkspaceContext<'a> {
    /// The number of nodes that are still to be made for a node of the
    /// graph, if it fits: what the expansion of its construct costs where
    /// the registry knows the construct, two where it does not, nothing for
    /// a node that is not reducible.
    pub fn pending_for(&self, nd: &CfgNodeDescriptor) -> (r: Option<usize>)
        ensures
            counts(r, pending(self.nodes@, *nd)),
    {
        match nd {
            CfgNodeDescriptor::Block(n) => match self.get(n.block) {
                Some(AstNodeRef::Block(b)) => cost_of_block(b),
                _ => Some(2),
            },
            CfgNodeDescriptor::UncheckedBlock(n) => match self.get(n.unchecked_block) {
                Some(AstNodeRef::UncheckedBlock(b)) => cost_of_block(b),
                _ => Some(2),
            },
            CfgNodeDescriptor::IfStatement(n) => match self.get(n.if_statement) {
                Some(AstNodeRef::IfStatement(s)) => cost_of_if(s),
                _ => Some(2),
            },
            CfgNodeDescriptor::WhileStatement(n) => match self.get(n.while_statement) {
                Some(AstNodeRef::WhileStatement(s)) => cost_of_while(s),
                _ => Some(2),
            },
            CfgNodeDescriptor::ForStatement(n) => match self.get(n.for_statement) {
                Some(AstNodeRef::ForStatement(s)) => cost_of_for(s),
                _ => Some(2),
            },
            CfgNodeDescriptor::DoWhileStatement(n) => match self.get(n.do_while_statement) {
                Some(AstNodeRef::DoWhileStatement(s)) => cost_of_do_while(s),
                _ => Some(2),
            },
            _ => Some(0),
        }
    }
}

impl Cfg {
    /// The number of nodes that are still to be made before no reducible
    /// node is left, if it fits.
    pub fn pending_nodes(&self, context: &WorkspaceContext) -> (r: Option<usize>)
        requires
            self.inv(),
        ensures
            counts(r, self.pending_total(context.nodes@)),
    {
        let ghost m = context.nodes@;
        let n = self.reduction_queue.len();
        let mut total: Option<usize> = Some(0);
        let mut i: usize = 0;
        assert(self.queue().take(0) =~= Seq::<usize>::empty());
        while i < n
            invariant
                i <= n,
                n == self.queue().len(),
                m == context.nodes@,
                self.inv(),
                counts(total, queue_pending(m, self.nodes@, self.queue().take(i as int))),
            decreases n - i,
        {
            let id = self.reduction_queue[i];
            let ghost so_far = queue_pending(m, self.nodes@, self.queue().take(i as int));
            assert(self.queue().take(i + 1).drop_last() =~= self.queue().take(i as int));
            assert(self.queue().take(i + 1).last() == id);
            let cost = match self.nodes.get(&id) {
                Some(node) => context.pending_for(&node.nd),
                None => {
                    proof {
                        crate::context::flow::lemma_queued_is_live(*self, i as int);
                    }
                    Some(0)
                },
            };
            total = plus(total, cost, Ghost(so_far), Ghost(pending(m, self.nodes@[id].nd)));
            i += 1;
        }
        assert(self.queue().take(n as int) =~= self.queue());
        total
    }

    /// Whether the graph has room for the graph of a body: whether the
    /// identities that will be handed out for the body's two sentinels and
    /// node, for its expansion, and for what is queued already, can all be
    /// counted.
    pub fn has_room_for(&self, context: &WorkspaceContext, body: &Block) -> (r: bool)
        requires
            self.inv(),
        ensures
            r == (self.next() + 3 + self.pending_total(context.nodes@) + pending(
                context.nodes@,
                CfgNodeDescriptor::Block(CfgBlock { block: body.id }),
            ) <= usize::MAX),
    {
        let ghost m = context.nodes@;
        let ghost a = self.pending_total(m);
        let ghost b = pending(m, CfgNodeDescriptor::Block(CfgBlock { block: body.id }));
        let queued = self.pending_nodes(context);
        let own = context.pending_for_block(body.id);
        let both = plus(queued, own, Ghost(a), Ghost(b));
        let with_seed = plus(both, Some(3), Ghost(a + b), Ghost(3));
        let all = plus(
            with_seed,
            Some(self.next_available_id.0),
            Ghost(a + b + 3),
            Ghost(self.next() as nat),
        );
        all.is_some()
    }
}

} // verus!
