use vstd::prelude::*;
use vstd::string::StringExecFns;
use crate::ast::ast_nodes::{Expression, FunctionDefinition, Visibility};
use crate::context::browser::extractor::{
    collect_list, collect_subexpressions, extended, lemma_extended_twice, list_subexpressions,
    subexpressions,
};
use crate::context::flow::expansion::pending;
use crate::context::flow::reducibles::CfgBlock;
use crate::context::flow::utils::{calibrated, reachable, reachable_from};
use crate::context::flow::voids::{CfgEndNode, CfgStartNode};
use crate::context::flow::{Cfg, CfgNodeDescriptor, CfgNodeId};
use crate::context::workspace_context::AstNodeRef;
use crate::detect::detector::holds;
use crate::text::{occurs_at, str_eq, str_starts_with};
use vstd::utf8::encode_utf8;
use crate::ast::node::NodeID;
use crate::context::workspace_context::WorkspaceContext;
use crate::detect::detector::{capture, copy_of, each_once, DetectionError, IssueSeverity};

verus! {

/// The expression names something that is called on another contract: a
/// member whose type is that of an external function or of a bare call,
/// with or without call options around it.
pub open spec fn external_callee(e: Expression) -> bool
    decreases e,
{
    match e {
        Expression::MemberAccess(m) => m.type_descriptions.type_identifier matches Some(t) && (
        occurs_at(encode_utf8(t@), encode_utf8("t_function_external"@), 0) || occurs_at(
            encode_utf8(t@),
            encode_utf8("t_function_bare"@),
            0,
        )),
        Expression::FunctionCallOptions(o) => external_callee(*o.expression),
        _ => false,
    }
}

/// The expression is a call of something on another contract.
pub open spec fn external_call(e: Expression) -> bool {
    e matches Expression::FunctionCall(f) && external_callee(*f.expression)
}

/// One of the declarations is that of a state variable of the workspace.
pub open spec fn touches(context: &WorkspaceContext, declarations: Seq<NodeID>) -> bool {
    exists|i: int|
        0 <= i < declarations.len() && is_state_variable(context, #[trigger] declarations[i])
}

/// The expression changes a state variable of the workspace: it assigns to
/// an expression that refers to one, or applies `++`, `--` or `delete` to
/// such an expression.
pub open spec fn state_write(context: &WorkspaceContext, e: Expression) -> bool {
    match e {
        Expression::Assignment(a) => touches(context, a.left_hand_side.declarations()),
        Expression::UnaryOperation(u) => (u.operator@ == "++"@ || u.operator@ == "--"@
            || u.operator@ == "delete"@) && touches(context, u.sub_expression.declarations()),
        _ => false,
    }
}

/// The expressions that a registered node holds, with every expression
/// below them: the expression of an expression statement, the initial
/// value of a declaration, the value of a `return`, the call of an `emit`,
/// the callee and the arguments of a `revert`, a registered expression
/// itself. Any other node holds none.
pub open spec fn node_expressions(node: AstNodeRef) -> Seq<Expression> {
    match node {
        AstNodeRef::ExpressionStatement(n) => subexpressions(n.expression),
        AstNodeRef::VariableDeclarationStatement(n) => match n.initial_value {
            Some(value) => subexpressions(value),
            None => Seq::empty(),
        },
        AstNodeRef::Return(n) => match n.expression {
            Some(value) => subexpressions(value),
            None => Seq::empty(),
        },
        AstNodeRef::EmitStatement(n) => subexpressions(n.event_call),
        AstNodeRef::RevertStatement(n) => subexpressions(*n.error_call.expression)
            + list_subexpressions(n.error_call.arguments@),
        AstNodeRef::Expression(e) => subexpressions(*e),
        _ => Seq::empty(),
    }
}

/// The node holds a call of something on another contract.
pub open spec fn calls_out(node: AstNodeRef) -> bool {
    exists|i: int|
        0 <= i < node_expressions(node).len() && external_call(#[trigger] node_expressions(node)[i])
}

/// The node holds an expression that changes a state variable of the
/// workspace.
pub open spec fn writes_state(context: &WorkspaceContext, node: AstNodeRef) -> bool {
    exists|i: int|
        0 <= i < node_expressions(node).len() && state_write(
            context,
            #[trigger] node_expressions(node)[i],
        )
}

/// The declaration with the given identity is that of a state variable of
/// the workspace.
pub open spec fn is_state_variable(context: &WorkspaceContext, id: NodeID) -> bool {
    exists|j: int|
        0 <= j < context.variable_declarations@.len() && (
        #[trigger] context.variable_declarations@[j]).state_variable
            && context.variable_declarations@[j].id == id
}

/// The node of the graph reflects to a registered node that holds a call
/// of something on another contract.
pub open spec fn is_call_site(context: &WorkspaceContext, cfg: Cfg, k: usize) -> bool {
    &&& cfg.live(k)
    &&& cfg.descriptor(k).ast_id() matches Some(id) && context.nodes@.contains_key(id) && calls_out(
        context.nodes@[id],
    )
}

/// The node of the graph reflects to a registered node that holds a change
/// of a state variable of the workspace.
pub open spec fn is_change_site(context: &WorkspaceContext, cfg: Cfg, k: usize) -> bool {
    &&& cfg.live(k)
    &&& cfg.descriptor(k).ast_id() matches Some(id) && context.nodes@.contains_key(id)
        && writes_state(context, context.nodes@[id])
}

/// In the graph, node `e` is an external call that can be reached from
/// `start`; node `c` is another node, a change of state that can be reached
/// from `e` and whose source text is at hand; and `id` is the identity of
/// the syntax-tree node that `e` reflects to.
pub open spec fn follows(
    context: &WorkspaceContext,
    cfg: Cfg,
    start: usize,
    e: usize,
    c: usize,
    id: NodeID,
) -> bool {
    &&& reachable(cfg, start, e)
    &&& is_call_site(context, cfg, e)
    &&& reachable(cfg, e, c)
    &&& is_change_site(context, cfg, c)
    &&& c != e
    &&& context.peeked(context.nodes@[cfg.descriptor(c).ast_id()->Some_0]) is Some
    &&& context.nodes@[cfg.descriptor(e).ast_id()->Some_0].ident() == id
}

/// The node with the identity `id` is an external call of the graph,
/// reachable from `start`, that a change of state follows.
pub open spec fn change_follows_call(
    context: &WorkspaceContext,
    cfg: Cfg,
    start: usize,
    id: NodeID,
) -> bool {
    exists|e: usize, c: usize| #[trigger] follows(context, cfg, start, e, c, id)
}

/// The node with the identity `id` is a finding in function `j` of the
/// workspace, `graphs[j]` being the graph of its body.
pub open spec fn noted_for(context: &WorkspaceContext, graphs: Seq<Cfg>, j: int, id: NodeID) -> bool {
    &&& 0 <= j < graphs.len()
    &&& j < context.function_definitions@.len()
    &&& open_to_callers(*context.function_definitions@[j])
    &&& change_follows_call(context, graphs[j], 0, id)
}

/// The findings `after` are the findings `before` and those in the first
/// `upto` functions of the workspace, `graphs` holding, for each of them
/// that is implemented and open to callers, the graph of its body, built
/// from nothing.
pub open spec fn noted_in(
    context: &WorkspaceContext,
    graphs: Seq<Cfg>,
    upto: int,
    before: Seq<NodeID>,
    after: Seq<NodeID>,
) -> bool {
    &&& graphs.len() == upto
    &&& upto <= context.function_definitions@.len()
    &&& forall|j: int|
        0 <= j < upto && open_to_callers(*#[trigger] context.function_definitions@[j]) ==> {
            &&& context.function_definitions@[j].body is Some
            &&& graphs[j].built_from_nothing(
                context.nodes@,
                context.function_definitions@[j].id,
                &context.function_definitions@[j].body->Some_0,
                (CfgNodeId(0), CfgNodeId(1)),
            )
        }
    &&& forall|id: NodeID|
        #![trigger after.contains(id)]
        after.contains(id) <==> before.contains(id) || exists|j: int|
            0 <= j < upto && #[trigger] noted_for(context, graphs, j, id)
}

/// Whether the expression names something that is called on another
/// contract.
pub fn is_external_callee(e: &Expression) -> (r: bool)
    ensures
        r == external_callee(*e),
    decreases e,
{
    match e {
        Expression::MemberAccess(m) => match &m.type_descriptions.type_identifier {
            Some(t) => str_starts_with(t.as_str(), "t_function_external") || str_starts_with(
                t.as_str(),
                "t_function_bare",
            ),
            None => false,
        },
        Expression::FunctionCallOptions(o) => is_external_callee(&o.expression),
        _ => false,
    }
}

/// Whether the expression is a call of something on another contract.
pub fn is_external_call(e: &Expression) -> (r: bool)
    ensures
        r == external_call(*e),
{
    match e {
        Expression::FunctionCall(f) => is_external_callee(&f.expression),
        _ => false,
    }
}

/// Whether one of the declarations is that of a state variable, the
/// identities of the state variables being given.
pub fn is_touching(
    context: &WorkspaceContext,
    declarations: &Vec<NodeID>,
    variables: &Vec<NodeID>,
) -> (r: bool)
    requires
        forall|id: NodeID| variables@.contains(id) <==> is_state_variable(context, id),
    ensures
        r == touches(context, declarations@),
{
    let n = declarations.len();
    let mut i: usize = 0;
    while i < n
        invariant
            i <= n,
            n == declarations@.len(),
            forall|id: NodeID| variables@.contains(id) <==> is_state_variable(context, id),
            forall|j: int| 0 <= j < i ==> !is_state_variable(context, #[trigger] declarations@[j]),
        decreases n - i,
    {
        if holds(variables, declarations[i]) {
            return true;
        }
        i += 1;
    }
    false
}

/// Whether the expression changes a state variable, the identities of
/// the state variables being given.
pub fn is_state_write(context: &WorkspaceContext, e: &Expression, variables: &Vec<NodeID>) -> (r:
    bool)
    requires
        forall|id: NodeID| variables@.contains(id) <==> is_state_variable(context, id),
    ensures
        r == state_write(context, *e),
{
    match e {
        Expression::Assignment(a) => {
            let declarations = a.left_hand_side.referenced_declarations();
            is_touching(context, &declarations, variables)
        },
        Expression::UnaryOperation(u) => {
            let changing = str_eq(u.operator.as_str(), "++") || str_eq(u.operator.as_str(), "--")
                || str_eq(u.operator.as_str(), "delete");
            if !changing {
                return false;
            }
            let declarations = u.sub_expression.referenced_declarations();
            is_touching(context, &declarations, variables)
        },
        _ => false,
    }
}

/// The expressions that a registered node holds, with every expression
/// below them.
pub fn collect_node_expressions<'a>(node: &AstNodeRef<'a>) -> (r: Vec<&'a Expression>)
    ensures
        extended(Seq::<&'a Expression>::empty(), r@, node_expressions(*node)),
{
    let mut out: Vec<&'a Expression> = Vec::new();
    let ghost start = out@;
    match node {
        AstNodeRef::ExpressionStatement(n) => {
            collect_subexpressions(&n.expression, &mut out);
        },
        AstNodeRef::VariableDeclarationStatement(n) => {
            if let Some(value) = &n.initial_value {
                collect_subexpressions(value, &mut out);
            }
        },
        AstNodeRef::Return(n) => {
            if let Some(value) = &n.expression {
                collect_subexpressions(value, &mut out);
            }
        },
        AstNodeRef::EmitStatement(n) => {
            collect_subexpressions(&n.event_call, &mut out);
        },
        AstNodeRef::RevertStatement(n) => {
            collect_subexpressions(&n.error_call.expression, &mut out);
            let ghost mid = out@;
            collect_list(&n.error_call.arguments, &mut out);
            proof {
                lemma_extended_twice(
                    start,
                    mid,
                    out@,
                    subexpressions(*n.error_call.expression),
                    list_subexpressions(n.error_call.arguments@),
                );
            }
        },
        AstNodeRef::Expression(e) => {
            collect_subexpressions(e, &mut out);
        },
        _ => {},
    }
    out
}

/// Whether the node holds a call of something on another contract.
pub fn node_calls_out(node: &AstNodeRef) -> (r: bool)
    ensures
        r == calls_out(*node),
{
    let expressions = collect_node_expressions(node);
    let n = expressions.len();
    let mut i: usize = 0;
    while i < n
        invariant
            i <= n,
            n == expressions@.len(),
            extended(Seq::<&Expression>::empty(), expressions@, node_expressions(*node)),
            forall|j: int| 0 <= j < i ==> !external_call(#[trigger] node_expressions(*node)[j]),
        decreases n - i,
    {
        assert(*expressions@[0 + i] == node_expressions(*node)[i as int]);
        if is_external_call(expressions[i]) {
            return true;
        }
        i += 1;
    }
    false
}

/// Whether the node holds an expression that changes a state variable,
/// the identities of the state variables being given.
pub fn node_writes_state(context: &WorkspaceContext, node: &AstNodeRef, variables: &Vec<NodeID>) -> (r:
    bool)
    requires
        forall|id: NodeID| variables@.contains(id) <==> is_state_variable(context, id),
    ensures
        r == writes_state(context, *node),
{
    let expressions = collect_node_expressions(node);
    let n = expressions.len();
    let mut i: usize = 0;
    while i < n
        invariant
            i <= n,
            n == expressions@.len(),
            extended(Seq::<&Expression>::empty(), expressions@, node_expressions(*node)),
            forall|id: NodeID| variables@.contains(id) <==> is_state_variable(context, id),
            forall|j: int|
                0 <= j < i ==> !state_write(context, #[trigger] node_expressions(*node)[j]),
        decreases n - i,
    {
        assert(*expressions@[0 + i] == node_expressions(*node)[i as int]);
        if is_state_write(context, expressions[i], variables) {
            return true;
        }
        i += 1;
    }
    false
}

/// The identities of the state variables of the workspace.
pub fn state_variables(context: &WorkspaceContext) -> (r: Vec<NodeID>)
    ensures
        forall|id: NodeID| r@.contains(id) <==> is_state_variable(context, id),
{
    let mut ids: Vec<NodeID> = Vec::new();
    let n = context.variable_declarations.len();
    let mut i: usize = 0;
    while i < n
        invariant
            i <= n,
            n == context.variable_declarations@.len(),
            forall|id: NodeID|
                ids@.contains(id) <==> exists|j: int|
                    0 <= j < i && (#[trigger] context.variable_declarations@[j]).state_variable
                        && context.variable_declarations@[j].id == id,
        decreases n - i,
    {
        let declaration = context.variable_declarations[i];
        let ghost before = ids@;
        if declaration.state_variable {
            ids.push(declaration.id);
        }
        proof {
            assert forall|id: NodeID|
                ids@.contains(id) <==> exists|j: int|
                    0 <= j < i + 1 && (#[trigger] context.variable_declarations@[j]).state_variable
                        && context.variable_declarations@[j].id == id by {
                if before.contains(id) {
                    let l = choose|l: int| 0 <= l < before.len() && before[l] == id;
                    assert(ids@[l] == id);
                    let j = choose|j: int|
                        0 <= j < i && (#[trigger] context.variable_declarations@[j]).state_variable
                            && context.variable_declarations@[j].id == id;
                    assert(0 <= j < i + 1);
                }
                if ids@.contains(id) && !before.contains(id) {
                    let l = choose|l: int| 0 <= l < ids@.len() && ids@[l] == id;
                    if l < before.len() {
                        assert(before[l] == id);
                    }
                    assert(context.variable_declarations@[i as int].id == id);
                }
                if exists|j: int|
                    0 <= j < i + 1 && (#[trigger] context.variable_declarations@[j]).state_variable
                        && context.variable_declarations@[j].id == id {
                    let j = choose|j: int|
                        0 <= j < i + 1 && (
                        #[trigger] context.variable_declarations@[j]).state_variable
                            && context.variable_declarations@[j].id == id;
                    if j < i {
                        assert(before.contains(id));
                        let l = choose|l: int| 0 <= l < before.len() && before[l] == id;
                        assert(ids@[l] == id);
                    } else {
                        assert(ids@[before.len() as int] == id);
                    }
                }
            }
        }
        i += 1;
    }
    ids
}

/// The nodes of a list that are flagged, in order.
pub fn keep_flagged(order: &Vec<CfgNodeId>, flags: &Vec<bool>) -> (r: Vec<CfgNodeId>)
    requires
        order@.no_duplicates(),
        order@.len() == flags@.len(),
    ensures
        r@.no_duplicates(),
        forall|x: CfgNodeId|
            r@.contains(x) <==> exists|i: int| 0 <= i < order@.len() && flags@[i] && #[trigger] order@[i]
                == x,
{
    let mut kept: Vec<CfgNodeId> = Vec::new();
    let n = order.len();
    let mut i: usize = 0;
    while i < n
        invariant
            i <= n,
            n == order@.len(),
            order@.len() == flags@.len(),
            order@.no_duplicates(),
            kept@.no_duplicates(),
            forall|x: CfgNodeId|
                kept@.contains(x) <==> exists|j: int| 0 <= j < i && flags@[j] && #[trigger] order@[j] == x,
        decreases n - i,
    {
        let ghost before = kept@;
        if flags[i] {
            kept.push(order[i]);
        }
        proof {
            assert forall|x: CfgNodeId|
                kept@.contains(x) <==> exists|j: int|
                    0 <= j < i + 1 && flags@[j] && #[trigger] order@[j] == x by {
                if before.contains(x) {
                    let l = choose|l: int| 0 <= l < before.len() && before[l] == x;
                    assert(kept@[l] == x);
                    let j = choose|j: int| 0 <= j < i && flags@[j] && #[trigger] order@[j] == x;
                    assert(0 <= j < i + 1);
                }
                if kept@.contains(x) && !before.contains(x) {
                    let l = choose|l: int| 0 <= l < kept@.len() && kept@[l] == x;
                    if l < before.len() {
                        assert(before[l] == x);
                    }
                    assert(flags@[i as int] && order@[i as int] == x);
                }
                if exists|j: int| 0 <= j < i + 1 && flags@[j] && #[trigger] order@[j] == x {
                    let j = choose|j: int| 0 <= j < i + 1 && flags@[j] && #[trigger] order@[j] == x;
                    if j < i {
                        assert(before.contains(x));
                        let l = choose|l: int| 0 <= l < before.len() && before[l] == x;
                        assert(kept@[l] == x);
                    } else {
                        assert(kept@[before.len() as int] == x);
                    }
                }
            }
            assert(kept@.no_duplicates()) by {
                if flags@[i as int] {
                    assert(!before.contains(order@[i as int])) by {
                        if before.contains(order@[i as int]) {
                            let j = choose|j: int|
                                0 <= j < i && flags@[j] && #[trigger] order@[j] == order@[i as int];
                        }
                    }
                    assert forall|a: int, b: int|
                        0 <= a < kept@.len() && 0 <= b < kept@.len() && a != b implies kept@[a]
                        != kept@[b] by {
                        if a < before.len() {
                            assert(before.contains(before[a]));
                        }
                        if b < before.len() {
                            assert(before.contains(before[b]));
                        }
                    }
                }
            }
        }
        i += 1;
    }
    kept
}

/// The nodes that can be reached from `start_node` and reflect to a node
/// that holds a call of something on another contract.
pub fn find_external_call_sites(context: &WorkspaceContext, cfg: &Cfg, start_node: CfgNodeId) -> (r:
    Vec<CfgNodeId>)
    requires
        cfg.inv(),
        cfg.live(start_node.0),
    ensures
        r@.no_duplicates(),
        forall|k: usize|
            #![trigger r@.contains(CfgNodeId(k))]
            r@.contains(CfgNodeId(k)) <==> reachable(*cfg, start_node.0, k) && is_call_site(
                context,
                *cfg,
                k,
            ),
{
    let order = reachable_from(cfg, start_node);
    let mut flags: Vec<bool> = Vec::new();
    let n = order.len();
    let mut i: usize = 0;
    while i < n
        invariant
            i <= n,
            n == order@.len(),
            flags@.len() == i,
            forall|j: int| 0 <= j < order@.len() ==> cfg.live((#[trigger] order@[j]).0),
            forall|j: int|
                0 <= j < i ==> #[trigger] flags@[j] == is_call_site(context, *cfg, order@[j].0),
        decreases n - i,
    {
        let ghost flags0 = flags@;
        let calls = match cfg.nodes.get(&order[i].0) {
            Some(node) => match node.reflect(context) {
                Some(ast_node) => node_calls_out(&ast_node),
                None => false,
            },
            None => false,
        };
        flags.push(calls);
        proof {
            assert(cfg.live(order@[i as int].0));
            assert forall|j: int| 0 <= j < i + 1 implies #[trigger] flags@[j] == is_call_site(
                context,
                *cfg,
                order@[j].0,
            ) by {
                if j < i {
                    assert(flags@[j] == flags0[j]);
                }
            }
        }
        i += 1;
    }
    let sites = keep_flagged(&order, &flags);
    proof {
        assert forall|k: usize|
            sites@.contains(CfgNodeId(k)) <==> reachable(*cfg, start_node.0, k)
                && is_call_site(context, *cfg, k) by {
            if sites@.contains(CfgNodeId(k)) {
                let j = choose|j: int|
                    0 <= j < order@.len() && flags@[j] && #[trigger] order@[j] == CfgNodeId(k);
                assert(order@.contains(CfgNodeId(k)));
            }
            if reachable(*cfg, start_node.0, k) && is_call_site(context, *cfg, k) {
                assert(order@.contains(CfgNodeId(k)));
                let j = choose|j: int| 0 <= j < order@.len() && order@[j] == CfgNodeId(k);
                assert(flags@[j] && order@[j] == CfgNodeId(k));
            }
        }
    }
    sites
}

/// The nodes that can be reached from `start_node` and reflect to a node
/// that holds a change of a state variable of the workspace.
pub fn find_state_change_sites(context: &WorkspaceContext, cfg: &Cfg, start_node: CfgNodeId) -> (r:
    Vec<CfgNodeId>)
    requires
        cfg.inv(),
        cfg.live(start_node.0),
    ensures
        r@.no_duplicates(),
        forall|k: usize|
            #![trigger r@.contains(CfgNodeId(k))]
            r@.contains(CfgNodeId(k)) <==> reachable(*cfg, start_node.0, k) && is_change_site(
                context,
                *cfg,
                k,
            ),
{
    let variables = state_variables(context);
    let order = reachable_from(cfg, start_node);
    let mut flags: Vec<bool> = Vec::new();
    let n = order.len();
    let mut i: usize = 0;
    while i < n
        invariant
            i <= n,
            n == order@.len(),
            flags@.len() == i,
            forall|j: int| 0 <= j < order@.len() ==> cfg.live((#[trigger] order@[j]).0),
            forall|id: NodeID| variables@.contains(id) <==> is_state_variable(context, id),
            forall|j: int|
                0 <= j < i ==> #[trigger] flags@[j] == is_change_site(context, *cfg, order@[j].0),
        decreases n - i,
    {
        let ghost flags0 = flags@;
        let changes = match cfg.nodes.get(&order[i].0) {
            Some(node) => match node.reflect(context) {
                Some(ast_node) => node_writes_state(context, &ast_node, &variables),
                None => false,
            },
            None => false,
        };
        flags.push(changes);
        proof {
            assert(cfg.live(order@[i as int].0));
            assert forall|j: int| 0 <= j < i + 1 implies #[trigger] flags@[j] == is_change_site(
                context,
                *cfg,
                order@[j].0,
            ) by {
                if j < i {
                    assert(flags@[j] == flags0[j]);
                }
            }
        }
        i += 1;
    }
    let sites = keep_flagged(&order, &flags);
    proof {
        assert forall|k: usize|
            sites@.contains(CfgNodeId(k)) <==> reachable(*cfg, start_node.0, k) && is_change_site(
                context,
                *cfg,
                k,
            ) by {
            if sites@.contains(CfgNodeId(k)) {
                let j = choose|j: int|
                    0 <= j < order@.len() && flags@[j] && #[trigger] order@[j] == CfgNodeId(k);
                assert(order@.contains(CfgNodeId(k)));
            }
            if reachable(*cfg, start_node.0, k) && is_change_site(context, *cfg, k) {
                assert(order@.contains(CfgNodeId(k)));
                let j = choose|j: int| 0 <= j < order@.len() && order@[j] == CfgNodeId(k);
                assert(flags@[j] && order@[j] == CfgNodeId(k));
            }
        }
    }
    sites
}

/// The function is implemented and can be called from outside.
pub open spec fn open_to_callers(function: FunctionDefinition) -> bool {
    function.implemented && (function.visibility == Visibility::External || function.visibility
        == Visibility::Public)
}

/// The graph of the function's body can be built: the function has a body,
/// and the graph needs no more identities than there are.
pub open spec fn buildable(context: &WorkspaceContext, function: FunctionDefinition) -> bool {
    function.body matches Some(body) && 3 + pending(
        context.nodes@,
        CfgNodeDescriptor::Block(CfgBlock { block: body.id }),
    ) <= usize::MAX
}

/// Whether the function is implemented and can be called from outside.
pub fn is_open_to_callers(function: &FunctionDefinition) -> (r: bool)
    ensures
        r == open_to_callers(*function),
{
    function.implemented && match function.visibility {
        Visibility::External => true,
        Visibility::Public => true,
        _ => false,
    }
}

/// Writes the hint that goes with a finding.
pub fn hint_for(code: &str) -> (r: String)
    ensures
        r@ == "State is changed at: `"@ + code@ + "`"@,
{
    let mut hint = String::from_str("State is changed at: `");
    hint.append(code);
    hint.append("`");
    hint
}


/// Finds the external calls that are followed by a change of state.
pub struct StateChangeAfterExternalCallDetector {
    /// The identities of the nodes found, each once.
    pub found_instances: Vec<NodeID>,
    /// The hints that go with the findings.
    pub found_hints: Vec<(NodeID, String)>,
}

impl Default for StateChangeAfterExternalCallDetector {
    fn default() -> (r: Self)
        ensures
            r.wf(),
            r.found_instances@.len() == 0,
    {
        StateChangeAfterExternalCallDetector { found_instances: Vec::new(), found_hints: Vec::new() }
    }
}

impl StateChangeAfterExternalCallDetector {
    /// No finding is noted twice.
    pub open spec fn wf(&self) -> bool {
        self.found_instances@.no_duplicates()
    }

    /// Tells whether the detector is fit to look at a workspace: whether
    /// none of its findings is held twice.
    pub fn is_wf(&self) -> (r: bool)
        ensures
            r == self.wf(),
    {
        each_once(&self.found_instances)
    }

    /// Looks at every implemented external or public function of the
    /// workspace: builds the graph of its body, and notes each external
    /// call from which a change of a state variable can be reached that
    /// stands at another node and whose source text is at hand. Tells
    /// whether anything is noted.
    ///
    /// Fails, leaving what was noted so far, at the first such function
    /// whose graph cannot be built.
    pub fn detect(&mut self, context: &WorkspaceContext) -> (r: Result<bool, DetectionError>)
        requires
            old(self).wf(),
            context.wf(),
        ensures
            final(self).wf(),
            r is Err <==> exists|i: int|
                0 <= i < context.function_definitions@.len() && open_to_callers(
                    *#[trigger] context.function_definitions@[i],
                ) && !buildable(context, *context.function_definitions@[i]),
            r is Err ==> r == Err::<bool, DetectionError>(DetectionError::CorruptedFunction),
            r is Ok ==> r == Ok::<bool, DetectionError>(final(self).found_instances@.len() > 0),
            r is Ok ==> exists|graphs: Seq<Cfg>|
                #[trigger] noted_in(
                    context,
                    graphs,
                    context.function_definitions@.len() as int,
                    old(self).found_instances@,
                    final(self).found_instances@,
                ),
            forall|id: NodeID|
                old(self).found_instances@.contains(id) ==> final(self).found_instances@.contains(id),
            forall|id: NodeID|
                final(self).found_instances@.contains(id) ==> old(self).found_instances@.contains(
                    id,
                ) || (context.nodes@.contains_key(id) && calls_out(context.nodes@[id])),
    {
        let n = context.function_definitions.len();
        let mut i: usize = 0;
        let ghost graphs: Seq<Cfg> = Seq::empty();
        while i < n
            invariant
                i <= n,
                n == context.function_definitions@.len(),
                context.wf(),
                self.wf(),
                forall|j: int|
                    0 <= j < i ==> !(open_to_callers(*#[trigger] context.function_definitions@[j])
                        && !buildable(context, *context.function_definitions@[j])),
                noted_in(
                    context,
                    graphs,
                    i as int,
                    old(self).found_instances@,
                    self.found_instances@,
                ),
                forall|id: NodeID|
                    old(self).found_instances@.contains(id) ==> self.found_instances@.contains(id),
                forall|id: NodeID|
                    self.found_instances@.contains(id) ==> old(self).found_instances@.contains(id)
                        || (context.nodes@.contains_key(id) && calls_out(context.nodes@[id])),
            decreases n - i,
        {
            let func = context.function_definitions[i];
            let ghost before = self.found_instances@;
            let ghost graphs0 = graphs;
            if is_open_to_callers(func) {
                let (cfg, start) = match Cfg::from_function_body(context, func) {
                    Some((cfg, start, _)) => (cfg, start),
                    None => {
                        return Err(DetectionError::CorruptedFunction);
                    },
                };
                proof {
                    let empty = choose|empty: Cfg|
                        empty.is_fresh() && #[trigger] cfg.built_and_calibrated(
                            context.nodes@,
                            &empty,
                            func.id,
                            &func.body->Some_0,
                            (start, CfgNodeId(1)),
                        );
                    let mid = choose|mid: Cfg|
                        #[trigger] mid.built(
                            context.nodes@,
                            &empty,
                            CfgStartNode::StartFunctionBody(func.id),
                            CfgEndNode::EndFunctionBody(func.id),
                            &func.body->Some_0,
                            (start, CfgNodeId(1)),
                        ) && calibrated(mid, cfg, start.0, 1);
                    assert(cfg.live(start.0));
                    graphs = graphs.push(cfg);
                }
                self.look_at(context, &cfg, start);
            } else {
                proof {
                    graphs = graphs.push(arbitrary());
                }
            }
            proof {
                let after = self.found_instances@;
                let g = graphs[i as int];
                assert forall|j: int| 0 <= j < i implies graphs[j] == graphs0[j] by {}
                assert forall|id: NodeID|
                    #![trigger after.contains(id)]
                    after.contains(id) <==> old(self).found_instances@.contains(id) || exists|j: int|
                        0 <= j < i + 1 && #[trigger] noted_for(context, graphs, j, id) by {
                    if before.contains(id) && !old(self).found_instances@.contains(id) {
                        let j = choose|j: int| 0 <= j < i && #[trigger] noted_for(context, graphs0, j, id);
                        assert(noted_for(context, graphs, j, id));
                    }
                    if after.contains(id) && !before.contains(id) {
                        assert(noted_for(context, graphs, i as int, id));
                    }
                    if exists|j: int| 0 <= j < i + 1 && #[trigger] noted_for(context, graphs, j, id) {
                        let j = choose|j: int|
                            0 <= j < i + 1 && #[trigger] noted_for(context, graphs, j, id);
                        if j < i {
                            assert(noted_for(context, graphs0, j, id));
                        }
                    }
                }
            }
            i += 1;
        }
        Ok(self.found_instances.len() > 0)
    }

    /// Notes, in one graph, each external call from which a change of a
    /// state variable can be reached that stands at another node and whose
    /// source text is at hand.
    fn look_at(&mut self, context: &WorkspaceContext, cfg: &Cfg, start: CfgNodeId)
        requires
            old(self).wf(),
            context.wf(),
            cfg.inv(),
            cfg.live(start.0),
        ensures
            final(self).wf(),
            forall|id: NodeID|
                #![trigger final(self).found_instances@.contains(id)]
                final(self).found_instances@.contains(id) <==> old(self).found_instances@.contains(
                    id,
                ) || change_follows_call(context, *cfg, start.0, id),
            forall|id: NodeID|
                change_follows_call(context, *cfg, start.0, id) ==> context.nodes@.contains_key(id)
                    && calls_out(context.nodes@[id]),
    {
        // Discover external calls
        let external_call_sites = find_external_call_sites(context, cfg, start);
        let n = external_call_sites.len();
        let mut i: usize = 0;
        while i < n
            invariant
                i <= n,
                n == external_call_sites@.len(),
                context.wf(),
                cfg.inv(),
                self.wf(),
                forall|k: usize|
                    #![trigger external_call_sites@.contains(CfgNodeId(k))]
                    external_call_sites@.contains(CfgNodeId(k)) <==> reachable(*cfg, start.0, k)
                        && is_call_site(context, *cfg, k),
                forall|id: NodeID|
                    #![trigger self.found_instances@.contains(id)]
                    self.found_instances@.contains(id) <==> old(self).found_instances@.contains(id)
                        || exists|a: int, c: usize|
                        0 <= a < i && #[trigger] follows(
                            context,
                            *cfg,
                            start.0,
                            external_call_sites@[a].0,
                            c,
                            id,
                        ),
            decreases n - i,
        {
            let external_call_site = external_call_sites[i];
            let ghost e = external_call_site.0;
            let ghost before = self.found_instances@;
            proof {
                assert(external_call_sites@[i as int] == CfgNodeId(external_call_site.0));
                assert(external_call_sites@.contains(CfgNodeId(external_call_site.0)));
            }
            // Discover state changes that follow the external call
            let state_changes = find_state_change_sites(context, cfg, external_call_site);
            let m = state_changes.len();
            let mut j: usize = 0;
            while j < m
                invariant
                    j <= m,
                    m == state_changes@.len(),
                    e == external_call_site.0,
                    context.wf(),
                    self.wf(),
                    cfg.live(e),
                    reachable(*cfg, start.0, e),
                    is_call_site(context, *cfg, e),
                    forall|k: usize|
                        #![trigger state_changes@.contains(CfgNodeId(k))]
                        state_changes@.contains(CfgNodeId(k)) <==> reachable(*cfg, e, k)
                            && is_change_site(context, *cfg, k),
                    forall|id: NodeID|
                        #![trigger self.found_instances@.contains(id)]
                        self.found_instances@.contains(id) <==> before.contains(id) || exists|b: int|
                            0 <= b < j && #[trigger] follows(
                                context,
                                *cfg,
                                start.0,
                                e,
                                state_changes@[b].0,
                                id,
                            ),
                decreases m - j,
            {
                let state_change = state_changes[j];
                let ghost inner_before = self.found_instances@;
                proof {
                    assert(state_changes@[j as int] == CfgNodeId(state_change.0));
                    assert(state_changes@.contains(CfgNodeId(state_change.0)));
                }
                // There is no way to tell if the state change took place after the call if
                // both are found at the same place
                if state_change.0 != external_call_site.0 {
                    self.note(context, cfg, start, external_call_site, state_change);
                }
                proof {
                    let c = state_change.0;
                    assert forall|id: NodeID|
                        #![trigger self.found_instances@.contains(id)]
                        self.found_instances@.contains(id) <==> before.contains(id) || exists|b: int|
                            0 <= b < j + 1 && #[trigger] follows(
                                context,
                                *cfg,
                                start.0,
                                e,
                                state_changes@[b].0,
                                id,
                            ) by {
                        if inner_before.contains(id) && !before.contains(id) {
                            let b = choose|b: int|
                                0 <= b < j && #[trigger] follows(
                                    context,
                                    *cfg,
                                    start.0,
                                    e,
                                    state_changes@[b].0,
                                    id,
                                );
                            assert(0 <= b < j + 1);
                        }
                        if follows(context, *cfg, start.0, e, c, id) {
                            assert(follows(context, *cfg, start.0, e, state_changes@[j as int].0, id));
                        }
                        if exists|b: int|
                            0 <= b < j + 1 && #[trigger] follows(
                                context,
                                *cfg,
                                start.0,
                                e,
                                state_changes@[b].0,
                                id,
                            ) {
                            let b = choose|b: int|
                                0 <= b < j + 1 && #[trigger] follows(
                                    context,
                                    *cfg,
                                    start.0,
                                    e,
                                    state_changes@[b].0,
                                    id,
                                );
                            if b < j {
                                assert(inner_before.contains(id));
                            }
                        }
                    }
                }
                j += 1;
            }
            proof {
                assert forall|id: NodeID|
                    #![trigger self.found_instances@.contains(id)]
                    self.found_instances@.contains(id) <==> old(self).found_instances@.contains(id)
                        || exists|a: int, c: usize|
                        0 <= a < i + 1 && #[trigger] follows(
                            context,
                            *cfg,
                            start.0,
                            external_call_sites@[a].0,
                            c,
                            id,
                        ) by {
                    if before.contains(id) && !old(self).found_instances@.contains(id) {
                        let (a, c) = choose|a: int, c: usize|
                            0 <= a < i && #[trigger] follows(
                                context,
                                *cfg,
                                start.0,
                                external_call_sites@[a].0,
                                c,
                                id,
                            );
                        assert(0 <= a < i + 1);
                    }
                    if self.found_instances@.contains(id) && !before.contains(id) {
                        let b = choose|b: int|
                            0 <= b < m && #[trigger] follows(
                                context,
                                *cfg,
                                start.0,
                                e,
                                state_changes@[b].0,
                                id,
                            );
                        assert(follows(
                            context,
                            *cfg,
                            start.0,
                            external_call_sites@[i as int].0,
                            state_changes@[b].0,
                            id,
                        ));
                    }
                    if exists|a: int, c: usize|
                        0 <= a < i + 1 && #[trigger] follows(
                            context,
                            *cfg,
                            start.0,
                            external_call_sites@[a].0,
                            c,
                            id,
                        ) {
                        let (a, c) = choose|a: int, c: usize|
                            0 <= a < i + 1 && #[trigger] follows(
                                context,
                                *cfg,
                                start.0,
                                external_call_sites@[a].0,
                                c,
                                id,
                            );
                        if a < i {
                            assert(before.contains(id));
                        } else {
                            assert(state_changes@.contains(CfgNodeId(c)));
                            let b = choose|b: int|
                                0 <= b < state_changes@.len() && state_changes@[b] == CfgNodeId(c);
                            assert(follows(context, *cfg, start.0, e, state_changes@[b].0, id));
                        }
                    }
                }
            }
            i += 1;
        }
        proof {
            assert forall|id: NodeID|
                #![trigger self.found_instances@.contains(id)]
                self.found_instances@.contains(id) <==> old(self).found_instances@.contains(id)
                    || change_follows_call(context, *cfg, start.0, id) by {
                if exists|a: int, c: usize|
                    0 <= a < n && #[trigger] follows(
                        context,
                        *cfg,
                        start.0,
                        external_call_sites@[a].0,
                        c,
                        id,
                    ) {
                    let (a, c) = choose|a: int, c: usize|
                        0 <= a < n && #[trigger] follows(
                            context,
                            *cfg,
                            start.0,
                            external_call_sites@[a].0,
                            c,
                            id,
                        );
                    assert(follows(context, *cfg, start.0, external_call_sites@[a].0, c, id));
                }
                if change_follows_call(context, *cfg, start.0, id) {
                    let (e, c) = choose|e: usize, c: usize|
                        #[trigger] follows(context, *cfg, start.0, e, c, id);
                    assert(external_call_sites@.contains(CfgNodeId(e)));
                    let a = choose|a: int|
                        0 <= a < external_call_sites@.len() && external_call_sites@[a] == CfgNodeId(e);
                    assert(follows(context, *cfg, start.0, external_call_sites@[a].0, c, id));
                }
            }
            assert forall|id: NodeID|
                change_follows_call(context, *cfg, start.0, id) implies context.nodes@.contains_key(
                id,
            ) && calls_out(context.nodes@[id]) by {
                let (e, c) = choose|e: usize, c: usize|
                    #[trigger] follows(context, *cfg, start.0, e, c, id);
                let key = cfg.descriptor(e).ast_id()->Some_0;
                assert(context.nodes@[key].ident() == key);
            }
        }
    }

    /// Notes one external call with a state change that follows it, if the
    /// source text of the change is at hand.
    fn note(
        &mut self,
        context: &WorkspaceContext,
        cfg: &Cfg,
        start: CfgNodeId,
        external_call_site: CfgNodeId,
        state_change: CfgNodeId,
    )
        requires
            old(self).wf(),
            context.wf(),
            external_call_site.0 != state_change.0,
            reachable(*cfg, start.0, external_call_site.0),
            is_call_site(context, *cfg, external_call_site.0),
            reachable(*cfg, external_call_site.0, state_change.0),
            is_change_site(context, *cfg, state_change.0),
        ensures
            final(self).wf(),
            forall|id: NodeID|
                #![trigger final(self).found_instances@.contains(id)]
                final(self).found_instances@.contains(id) <==> old(self).found_instances@.contains(
                    id,
                ) || follows(
                    context,
                    *cfg,
                    start.0,
                    external_call_site.0,
                    state_change.0,
                    id,
                ),
    {
        let external_call_cfg_node = match cfg.nodes.get(&external_call_site.0) {
            Some(node) => node,
            None => {
                return ;
            },
        };
        let external_call_ast_node = match external_call_cfg_node.reflect(context) {
            Some(node) => node,
            None => {
                return ;
            },
        };
        let state_change_ast_node = match cfg.nodes.get(&state_change.0) {
            Some(node) => match node.reflect(context) {
                Some(ast_node) => ast_node,
                None => {
                    return ;
                },
            },
            None => {
                return ;
            },
        };
        if let Some(state_change_code) = context.peek(&state_change_ast_node) {
            let hint = hint_for(state_change_code.as_str());
            let id = external_call_ast_node.id();
            if !holds(&self.found_instances, id) {
                self.found_hints.push((id, hint));
            }
            capture(&mut self.found_instances, id);
        }
    }

    /// The severity of the findings.
    pub fn severity(&self) -> (r: IssueSeverity)
        ensures
            r == IssueSeverity::High,
    {
        IssueSeverity::High
    }

    /// The title of the findings.
    pub fn title(&self) -> (r: String)
        ensures
            r@ == "External call is followed by a state variable change"@,
    {
        String::from_str("External call is followed by a state variable change")
    }

    /// What the findings mean.
    pub fn description(&self) -> (r: String)
        ensures
            r@ == "In most cases it is a best practice to perform the state change before making an external call to avoid a potential re-entrancy attack."@,
    {
        String::from_str("In most cases it is a best practice to perform the state change before making an external call to avoid a potential re-entrancy attack.")
    }

    /// The identities of the nodes found, in the order in which they were
    /// found.
    pub fn instances(&self) -> (r: Vec<NodeID>)
        ensures
            r@ == self.found_instances@,
    {
        copy_of(&self.found_instances)
    }

    /// The name of the detector.
    pub fn name(&self) -> (r: String)
        ensures
            r@ == "state-change-after-external-call"@,
    {
        String::from_str("state-change-after-external-call")
    }

    /// The hints that go with the findings: for each node found, where the
    /// state is changed after it, as it was found first.
    pub fn hints(&self) -> (r: &Vec<(NodeID, String)>)
        ensures
            r == &self.found_hints,
    {
        &self.found_hints
    }
}

} // verus!
