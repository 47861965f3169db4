use vstd::prelude::*;
use crate::ast::ast_nodes::Expression;

verus! {

/// The expression and every expression below it, parents before children,
/// children in source order.
pub open spec fn subexpressions(e: Expression) -> Seq<Expression>
    decreases e,
{
    seq![e] + match e {
        Expression::UnaryOperation(n) => subexpressions(*n.sub_expression),
        Expression::BinaryOperation(n) => subexpressions(*n.left_expression) + subexpressions(
            *n.right_expression,
        ),
        Expression::Conditional(n) => subexpressions(*n.condition) + subexpressions(
            *n.true_expression,
        ) + subexpressions(*n.false_expression),
        Expression::Assignment(n) => subexpressions(*n.left_hand_side) + subexpressions(
            *n.right_hand_side,
        ),
        Expression::FunctionCall(n) => subexpressions(*n.expression) + list_subexpressions(
            n.arguments@,
        ),
        Expression::FunctionCallOptions(n) => subexpressions(*n.expression) + list_subexpressions(
            n.options@,
        ) + match n.arguments {
            Some(arguments) => list_subexpressions(arguments@),
            None => Seq::empty(),
        },
        Expression::IndexAccess(n) => subexpressions(*n.base_expression) + match n.index_expression {
            Some(index) => subexpressions(*index),
            None => Seq::empty(),
        },
        Expression::IndexRangeAccess(n) => subexpressions(*n.base_expression)
            + match n.start_expression {
            Some(start) => subexpressions(*start),
            None => Seq::empty(),
        } + match n.end_expression {
            Some(end) => subexpressions(*end),
            None => Seq::empty(),
        },
        Expression::MemberAccess(n) => subexpressions(*n.expression),
        Expression::TupleExpression(n) => component_subexpressions(n.components@),
        _ => Seq::empty(),
    }
}

/// The expressions of a list with every expression below them, in order.
pub open spec fn list_subexpressions(es: Seq<Expression>) -> Seq<Expression>
    decreases es,
{
    if es.len() == 0 {
        Seq::empty()
    } else {
        list_subexpressions(es.drop_last()) + subexpressions(es.last())
    }
}

/// The components of a tuple that are present, with every expression
/// below them, in order.
pub open spec fn component_subexpressions(cs: Seq<Option<Expression>>) -> Seq<Expression>
    decreases cs,
{
    if cs.len() == 0 {
        Seq::empty()
    } else {
        component_subexpressions(cs.drop_last()) + match cs.last() {
            Some(e) => subexpressions(e),
            None => Seq::empty(),
        }
    }
}

/// The list `after` is the list `before` with references to the
/// expressions `added` behind it.
pub open spec fn extended<'a>(
    before: Seq<&'a Expression>,
    after: Seq<&'a Expression>,
    added: Seq<Expression>,
) -> bool {
    &&& after.len() == before.len() + added.len()
    &&& forall|i: int| 0 <= i < before.len() ==> after[i] == before[i]
    &&& forall|i: int| 0 <= i < added.len() ==> *#[trigger] after[before.len() + i] == added[i]
}

/// Extending twice is extending by both.
pub proof fn lemma_extended_twice<'a>(
    a: Seq<&'a Expression>,
    b: Seq<&'a Expression>,
    c: Seq<&'a Expression>,
    x: Seq<Expression>,
    y: Seq<Expression>,
)
    requires
        extended(a, b, x),
        extended(b, c, y),
    ensures
        extended(a, c, x + y),
{
    assert forall|i: int| 0 <= i < (x + y).len() implies *#[trigger] c[a.len() + i] == (x + y)[i] by {
        if i < x.len() {
            assert(c[a.len() + i] == b[a.len() + i]);
        } else {
            assert(*c[b.len() + (i - x.len())] == y[i - x.len()]);
        }
    }
}

/// Puts references to the expression and to every expression below it
/// behind the list.
pub fn collect_subexpressions<'a>(e: &'a Expression, out: &mut Vec<&'a Expression>)
    ensures
        extended(old(out)@, final(out)@, subexpressions(*e)),
    decreases e,
{
    let ghost start = out@;
    out.push(e);
    let ghost pushed = out@;
    assert(extended(start, pushed, seq![*e]));
    match e {
        Expression::UnaryOperation(n) => {
            collect_subexpressions(&n.sub_expression, out);
        },
        Expression::BinaryOperation(n) => {
            collect_subexpressions(&n.left_expression, out);
            let ghost mid = out@;
            collect_subexpressions(&n.right_expression, out);
            proof {
                lemma_extended_twice(
                    pushed,
                    mid,
                    out@,
                    subexpressions(*n.left_expression),
                    subexpressions(*n.right_expression),
                );
            }
        },
        Expression::Conditional(n) => {
            collect_subexpressions(&n.condition, out);
            let ghost mid = out@;
            collect_subexpressions(&n.true_expression, out);
            let ghost mid2 = out@;
            collect_subexpressions(&n.false_expression, out);
            proof {
                lemma_extended_twice(
                    pushed,
                    mid,
                    mid2,
                    subexpressions(*n.condition),
                    subexpressions(*n.true_expression),
                );
                lemma_extended_twice(
                    pushed,
                    mid2,
                    out@,
                    subexpressions(*n.condition) + subexpressions(*n.true_expression),
                    subexpressions(*n.false_expression),
                );
            }
        },
        Expression::Assignment(n) => {
            collect_subexpressions(&n.left_hand_side, out);
            let ghost mid = out@;
            collect_subexpressions(&n.right_hand_side, out);
            proof {
                lemma_extended_twice(
                    pushed,
                    mid,
                    out@,
                    subexpressions(*n.left_hand_side),
                    subexpressions(*n.right_hand_side),
                );
            }
        },
        Expression::FunctionCall(n) => {
            collect_subexpressions(&n.expression, out);
            let ghost mid = out@;
            collect_list(&n.arguments, out);
            proof {
                lemma_extended_twice(
                    pushed,
                    mid,
                    out@,
                    subexpressions(*n.expression),
                    list_subexpressions(n.arguments@),
                );
            }
        },
        Expression::FunctionCallOptions(n) => {
            collect_subexpressions(&n.expression, out);
            let ghost mid = out@;
            collect_list(&n.options, out);
            let ghost mid2 = out@;
            proof {
                lemma_extended_twice(
                    pushed,
                    mid,
                    mid2,
                    subexpressions(*n.expression),
                    list_subexpressions(n.options@),
                );
            }
            match &n.arguments {
                Some(arguments) => {
                    collect_list(arguments, out);
                    proof {
                        lemma_extended_twice(
                            pushed,
                            mid2,
                            out@,
                            subexpressions(*n.expression) + list_subexpressions(n.options@),
                            list_subexpressions(arguments@),
                        );
                    }
                },
                None => {
                    assert(extended(
                        pushed,
                        out@,
                        subexpressions(*n.expression) + list_subexpressions(n.options@)
                            + Seq::<Expression>::empty(),
                    ));
                },
            }
        },
        Expression::IndexAccess(n) => {
            collect_subexpressions(&n.base_expression, out);
            let ghost mid = out@;
            match &n.index_expression {
                Some(index) => {
                    collect_subexpressions(index, out);
                    proof {
                        lemma_extended_twice(
                            pushed,
                            mid,
                            out@,
                            subexpressions(*n.base_expression),
                            subexpressions(**index),
                        );
                    }
                },
                None => {
                    assert(extended(
                        pushed,
                        out@,
                        subexpressions(*n.base_expression) + Seq::<Expression>::empty(),
                    ));
                },
            }
        },
        Expression::IndexRangeAccess(n) => {
            collect_subexpressions(&n.base_expression, out);
            let ghost mid = out@;
            let ghost first = subexpressions(*n.base_expression);
            let ghost second = if n.start_expression is Some {
                subexpressions(*n.start_expression->Some_0)
            } else {
                Seq::<Expression>::empty()
            };
            if let Some(start) = &n.start_expression {
                collect_subexpressions(start, out);
            }
            let ghost mid2 = out@;
            assert(extended(mid, mid2, second));
            proof {
                lemma_extended_twice(pushed, mid, mid2, first, second);
            }
            let ghost third = if n.end_expression is Some {
                subexpressions(*n.end_expression->Some_0)
            } else {
                Seq::<Expression>::empty()
            };
            if let Some(end) = &n.end_expression {
                collect_subexpressions(end, out);
            }
            assert(extended(mid2, out@, third));
            proof {
                lemma_extended_twice(pushed, mid2, out@, first + second, third);
            }
        },
        Expression::MemberAccess(n) => {
            collect_subexpressions(&n.expression, out);
        },
        Expression::TupleExpression(n) => {
            let count = n.components.len();
            let mut i: usize = 0;
            assert(n.components@.take(0) =~= Seq::<Option<Expression>>::empty());
            while i < count
                invariant
                    i <= count,
                    count == n.components@.len(),
                    e is TupleExpression,
                    e->TupleExpression_0 == *n,
                    extended(pushed, out@, component_subexpressions(n.components@.take(i as int))),
                decreases count - i,
            {
                let ghost before = out@;
                let ghost so_far = component_subexpressions(n.components@.take(i as int));
                assert(n.components@.take(i + 1).drop_last() =~= n.components@.take(i as int));
                match &n.components[i] {
                    Some(component) => {
                        collect_subexpressions(component, out);
                        proof {
                            lemma_extended_twice(
                                pushed,
                                before,
                                out@,
                                so_far,
                                subexpressions(*component),
                            );
                        }
                    },
                    None => {
                        assert(extended(pushed, out@, so_far + Seq::<Expression>::empty()));
                    },
                }
                i += 1;
            }
            assert(n.components@.take(count as int) =~= n.components@);
        },
        _ => {
            assert(extended(pushed, out@, Seq::<Expression>::empty()));
        },
    }
    proof {
        let rest = subexpressions(*e).subrange(1, subexpressions(*e).len() as int);
        assert(subexpressions(*e) =~= seq![*e] + rest);
        assert(extended(pushed, out@, rest));
        lemma_extended_twice(start, pushed, out@, seq![*e], rest);
    }
}

/// Puts references to the expressions of a list and to every expression
/// below them behind the list `out`.
pub fn collect_list<'a>(es: &'a Vec<Expression>, out: &mut Vec<&'a Expression>)
    ensures
        extended(old(out)@, final(out)@, list_subexpressions(es@)),
    decreases es,
{
    let ghost start = out@;
    let count = es.len();
    let mut i: usize = 0;
    assert(es@.take(0) =~= Seq::<Expression>::empty());
    assert(extended(start, out@, list_subexpressions(es@.take(0))));
    while i < count
        invariant
            i <= count,
            count == es@.len(),
            extended(start, out@, list_subexpressions(es@.take(i as int))),
        decreases count - i,
    {
        let ghost before = out@;
        assert(es@.take(i + 1).drop_last() =~= es@.take(i as int));
        collect_subexpressions(&es[i], out);
        proof {
            lemma_extended_twice(
                start,
                before,
                out@,
                list_subexpressions(es@.take(i as int)),
                subexpressions(es@[i as int]),
            );
        }
        i += 1;
    }
    assert(es@.take(count as int) =~= es@);
}

} // verus!
