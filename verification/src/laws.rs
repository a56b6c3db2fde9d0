//! The laws of evaluation: properties of the specification interpreter
//! that hold for all inputs, proved once and for all. Each law is a
//! public proof function whose statement is its documentation.

use vstd::prelude::*;
use crate::ast::declaration::{arg_views, Declaration, FnArg};
use crate::ast::expression::{spec_compare, Expr, ValueView};
use crate::ast::statement::Statement;
use crate::error::ErrView;
use crate::semantics::{
    bind_params, spec_binary_values, spec_eval_expr, spec_eval_exprs, spec_eval_stmt,
};
use crate::token::{Comp, Op};

verus! {

/// Assignment returns no usable value but has the side effect of
/// binding: when the right-hand side evaluates to a value, the
/// assignment yields the "no value" marker, and looking the name up in
/// the resulting environment yields exactly that value.
pub proof fn lemma_assignment_binds(
    name: String,
    value: Expr,
    env: Map<Seq<char>, ValueView>,
    ctx: Option<Seq<Declaration>>,
    fuel: nat,
    v: ValueView,
)
    requires
        spec_eval_expr(value, env, ctx, fuel).0 == Ok::<_, ErrView>(v),
    ensures
        ({
            let (r, env2) = spec_eval_expr(
                Expr::AssignmentExpr(name, Box::new(value)),
                env,
                ctx,
                fuel,
            );
            r == Ok::<_, ErrView>(ValueView::NoneV) && env2.contains_key(name@) && env2[name@]
                == v
        }),
{
}

/// Block isolation: a compound statement leaves the enclosing
/// environment exactly as it was; bindings created inside a nested
/// block never escape it.
pub proof fn lemma_block_isolation(
    ss: Vec<Statement>,
    env: Map<Seq<char>, ValueView>,
    ctx: Option<Seq<Declaration>>,
    fuel: nat,
)
    ensures
        spec_eval_stmt(Statement::CompoundStatement(ss), env, ctx, fuel).1 == env,
{
}

/// A function body is evaluated against an environment holding exactly
/// the formal parameter names: a name is bound there if and only if it
/// is a parameter.
pub proof fn lemma_parameter_environment(params: Seq<FnArg>, vals: Seq<ValueView>, n: Seq<char>)
    ensures
        bind_params(params, vals).contains_key(n) <==> arg_views(params).contains(n),
    decreases params.len(),
{
    if params.len() == 0 {
        assert(arg_views(params).len() == 0);
    } else {
        lemma_parameter_environment(params.drop_last(), vals, n);
        let shorter = arg_views(params.drop_last());
        let full = arg_views(params);
        assert forall|k: int| 0 <= k < shorter.len() implies shorter[k] == full[k] by {}
        if n == params.last().0@ {
            assert(full[params.len() - 1] == n);
            assert(full.contains(n));
        } else {
            if arg_views(params.drop_last()).contains(n) {
                let k = choose|k: int| 0 <= k < shorter.len() && shorter[k] == n;
                assert(full[k] == n);
            }
            if full.contains(n) {
                let k = choose|k: int| 0 <= k < full.len() && full[k] == n;
                assert(k < params.len() - 1);
                assert(shorter[k] == n);
            }
        }
    }
}

/// Function isolation: a call's result depends on the caller's
/// environment only through the argument values. Two calls of the same
/// function from environments in which the arguments evaluate alike
/// return the same result.
pub proof fn lemma_function_isolation(
    name: String,
    inputs: Vec<Expr>,
    env1: Map<Seq<char>, ValueView>,
    env2: Map<Seq<char>, ValueView>,
    ctx: Option<Seq<Declaration>>,
    fuel: nat,
)
    requires
        spec_eval_exprs(inputs@, 0, env1, ctx, fuel).0 == spec_eval_exprs(
            inputs@,
            0,
            env2,
            ctx,
            fuel,
        ).0,
    ensures
        spec_eval_expr(Expr::FunctionCall(name, inputs), env1, ctx, fuel).0 == spec_eval_expr(
            Expr::FunctionCall(name, inputs),
            env2,
            ctx,
            fuel,
        ).0,
{
}

/// List semantics: `+` on two lists concatenates them in order; the
/// result holds the elements of the left list followed by those of the
/// right, never an element-wise sum.
pub proof fn lemma_list_concatenation(s1: Seq<ValueView>, s2: Seq<ValueView>)
    ensures
        spec_binary_values(Op::Plus, ValueView::ListV(s1), ValueView::ListV(s2)) == Ok::<
            _,
            ErrView,
        >(ValueView::ListV(s1 + s2)),
        (s1 + s2).len() == s1.len() + s2.len(),
{
}

/// Comparison totality on integers: every integer equals itself, is
/// not below itself, and is both at least and at most itself.
pub proof fn lemma_comparison_totality(x: i64)
    ensures
        spec_compare(ValueView::IntV(x), Comp::Equal, ValueView::IntV(x)) == ValueView::BoolV(
            true,
        ),
        spec_compare(ValueView::IntV(x), Comp::Lower, ValueView::IntV(x)) == ValueView::BoolV(
            false,
        ),
        spec_compare(ValueView::IntV(x), Comp::Higher, ValueView::IntV(x)) == ValueView::BoolV(
            false,
        ),
        spec_compare(ValueView::IntV(x), Comp::LowerEq, ValueView::IntV(x)) == ValueView::BoolV(
            true,
        ),
        spec_compare(ValueView::IntV(x), Comp::HigherEq, ValueView::IntV(x)) == ValueView::BoolV(
            true,
        ),
{
}

/// The value order is irreflexive: no value is strictly below itself.
pub proof fn lemma_order_irreflexive(a: ValueView)
    ensures
        !crate::ast::expression::vv_lt(a, a),
{
    match a {
        ValueView::ListV(s) => {
            lemma_seq_order_irreflexive(s, 0);
        }
        _ => {}
    }
}

proof fn lemma_seq_order_irreflexive(s: Seq<ValueView>, i: int)
    requires
        0 <= i,
    ensures
        !crate::ast::expression::seq_vv_lt_from(s, s, i),
    decreases s.len() - i,
{
    if i < s.len() {
        lemma_seq_order_irreflexive(s, i + 1);
    }
}

/// The value order is trichotomous: of any two values, either the
/// first is strictly below the second, or the second is strictly below
/// the first, or they are equal.
pub proof fn lemma_order_trichotomy(a: ValueView, b: ValueView)
    ensures
        crate::ast::expression::vv_lt(a, b) || crate::ast::expression::vv_lt(b, a) || a == b,
    decreases a, 0int,
{
    if crate::ast::expression::rank(a) == crate::ast::expression::rank(b) {
        match (a, b) {
            (ValueView::ListV(s1), ValueView::ListV(s2)) => {
                lemma_seq_order_trichotomy(s1, s2, 0);
            }
            _ => {}
        }
    }
}

proof fn lemma_seq_order_trichotomy(s1: Seq<ValueView>, s2: Seq<ValueView>, i: int)
    requires
        0 <= i,
        forall|k: int| 0 <= k < i ==> s1[k] == s2[k],
        i <= s1.len(),
        i <= s2.len(),
    ensures
        crate::ast::expression::seq_vv_lt_from(s1, s2, i) || crate::ast::expression::seq_vv_lt_from(
            s2,
            s1,
            i,
        ) || s1 == s2,
    decreases s1, s1.len() - i,
{
    if i >= s1.len() {
        if s2.len() > i {
        } else {
            assert(s1 =~= s2);
        }
    } else if i >= s2.len() {
    } else if s1[i] != s2[i] {
        assert(decreases_to!(s1 => s1[i]));
        lemma_order_trichotomy(s1[i], s2[i]);
    } else {
        lemma_seq_order_trichotomy(s1, s2, i + 1);
    }
}

/// Error aggregation: a binary expression whose operands both fail
/// yields one aggregated error holding exactly the two causes, in
/// evaluation order.
pub proof fn lemma_error_aggregation(
    l: Expr,
    op: Op,
    r: Expr,
    env: Map<Seq<char>, ValueView>,
    ctx: Option<Seq<Declaration>>,
    fuel: nat,
    e1: ErrView,
    e2: ErrView,
)
    requires
        spec_eval_expr(l, env, ctx, fuel).0 == Err::<ValueView, _>(e1),
        spec_eval_expr(r, spec_eval_expr(l, env, ctx, fuel).1, ctx, fuel).0 == Err::<
            ValueView,
            _,
        >(e2),
    ensures
        spec_eval_expr(Expr::BinaryExpr(Box::new(l), op, Box::new(r)), env, ctx, fuel).0 == Err::<
            ValueView,
            _,
        >(ErrView::MultiE(seq![e1, e2])),
{
}

} // verus!
