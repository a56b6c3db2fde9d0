//! The specification interpreter: a step-bounded mathematical account of
//! evaluation, against which the executable evaluator is proved.
//!
//! Every specification function takes the evaluation budget `fuel`; one
//! unit is consumed by each function call and by each loop iteration.
//! Exhausting the budget is reported as an evaluation error, the
//! specification-level counterpart of exhausting the host call stack.
//!
//! An expression or statement is evaluated against an environment map
//! and an optional module context (the ordered declaration list); the
//! result carries the value or outcome, and the environment after the
//! evaluation.

use vstd::prelude::*;
use vstd::wrapping::i64_specs;
use crate::ast::declaration::{Declaration, FnArg};
use crate::ast::expression::{spec_compare, value_views, Expr, Value, ValueView};
use crate::ast::statement::{OutcomeView, Statement, StatementEval};
use crate::error::{ErrView, EvalError};
use crate::token::Op;

verus! {

/// The default evaluation budget handed to the public entry points.
pub const DEFAULT_FUEL: u64 = 1000000;

/// The image of an executable value-or-error result.
pub open spec fn res_view(r: Result<Value, EvalError>) -> Result<ValueView, ErrView> {
    match r {
        Ok(v) => Ok(v@),
        Err(e) => Err(e@),
    }
}

/// The image of an executable outcome-or-error result.
pub open spec fn outcome_res_view(r: Result<StatementEval, EvalError>) -> Result<
    OutcomeView,
    ErrView,
> {
    match r {
        Ok(o) => Ok(o@),
        Err(e) => Err(e@),
    }
}

/// The image of an executable value-list-or-error result.
pub open spec fn list_res_view(r: Result<Vec<Value>, EvalError>) -> Result<Seq<ValueView>, ErrView> {
    match r {
        Ok(vs) => Ok(value_views(vs@)),
        Err(e) => Err(e@),
    }
}

/// The body statement of a declaration.
pub open spec fn decl_body(d: Declaration) -> Statement {
    match d {
        Declaration::Function(_, _, body) => body,
    }
}

/// A function body's outcome as the value of the whole evaluation:
/// a return gives its value, falling off the end gives "no value",
/// and a break escaping the body is an error.
pub open spec fn outcome_to_value(r: Result<OutcomeView, ErrView>) -> Result<ValueView, ErrView> {
    match r {
        Ok(OutcomeView::ReturnO(v)) => Ok(v),
        Ok(OutcomeView::NoneO) => Ok(ValueView::NoneV),
        Ok(OutcomeView::BreakO) => Err(ErrView::MsgE("'break' outside of a loop"@)),
        Err(err) => Err(err),
    }
}

/// The first declaration of the given name, scanned in order.
pub open spec fn spec_lookup_function(decls: Seq<Declaration>, name: Seq<char>) -> Option<
    Declaration,
>
    decreases decls.len(),
{
    if decls.len() == 0 {
        None
    } else {
        match decls[0] {
            Declaration::Function(fname, _, _) => {
                if fname@ == name {
                    Some(decls[0])
                } else {
                    spec_lookup_function(decls.drop_first(), name)
                }
            }
        }
    }
}

/// The number of formal parameters of a declaration.
pub open spec fn decl_arity(decl: Declaration) -> nat {
    match decl {
        Declaration::Function(_, params, _) => params@.len(),
    }
}

/// The truth value of a condition: integer zero and false are falsy,
/// any other integer and true are truthy; a list or "no value" has no
/// truth value.
pub open spec fn spec_truth(v: ValueView) -> Result<bool, ErrView> {
    match v {
        ValueView::IntV(i) => Ok(i != 0),
        ValueView::BoolV(b) => Ok(b),
        ValueView::NoneV => Err(ErrView::MsgE("'None' can't be casted to bool"@)),
        ValueView::ListV(_) => Err(ErrView::MsgE("List can't be casted to bool"@)),
    }
}

/// Signed truncating division, with division by zero as an error and
/// the one overflowing quotient wrapped.
pub open spec fn spec_div(a: i64, b: i64) -> Result<ValueView, ErrView> {
    if b == 0 {
        Err(ErrView::MsgE("Division by zero"@))
    } else {
        match a.checked_div(b) {
            Some(q) => Ok(ValueView::IntV(q)),
            None => Ok(ValueView::IntV(i64::MIN)),
        }
    }
}

/// Binary arithmetic on two evaluated operands: wrapping 64-bit
/// arithmetic on two integers, concatenation of two lists under `+`,
/// a type error on any other combination.
pub open spec fn spec_binary_values(op: Op, a: ValueView, b: ValueView) -> Result<
    ValueView,
    ErrView,
> {
    match (a, b) {
        (ValueView::IntV(x), ValueView::IntV(y)) => match op {
            Op::Plus => Ok(ValueView::IntV(i64_specs::wrapping_add(x, y))),
            Op::Minus => Ok(ValueView::IntV(i64_specs::wrapping_sub(x, y))),
            Op::Times => Ok(ValueView::IntV(i64_specs::wrapping_mul(x, y))),
            Op::Div => spec_div(x, y),
        },
        (ValueView::ListV(s1), ValueView::ListV(s2)) => {
            if op is Plus {
                Ok(ValueView::ListV(s1 + s2))
            } else {
                Err(ErrView::MsgE("Only addition is supported for list"@))
            }
        }
        _ => Err(ErrView::MsgE("Binary operation not supported"@)),
    }
}

/// The environment of a function body: exactly the formal parameters,
/// bound in order to the argument values.
pub open spec fn bind_params(params: Seq<FnArg>, vals: Seq<ValueView>) -> Map<Seq<char>, ValueView>
    decreases params.len(),
{
    if params.len() == 0 {
        Map::empty()
    } else {
        bind_params(params.drop_last(), vals).insert(
            params.last().0@,
            vals[params.len() - 1],
        )
    }
}

/// Evaluation of one expression.
pub open spec fn spec_eval_expr(
    e: Expr,
    env: Map<Seq<char>, ValueView>,
    ctx: Option<Seq<Declaration>>,
    fuel: nat,
) -> (Result<ValueView, ErrView>, Map<Seq<char>, ValueView>)
    decreases fuel, 0int, e, 0int,
{
    match e {
        Expr::ConstExpr(v) => (Ok(v@), env),
        Expr::NegExpr(inner) => {
            let (r, env1) = spec_eval_expr(*inner, env, ctx, fuel);
            match r {
                Ok(ValueView::IntV(x)) => (Ok(ValueView::IntV(i64_specs::wrapping_sub(0, x))), env1),
                Ok(_) => (
                    Err(ErrView::MsgE("A negative express only applies to type Int and Float"@)),
                    env1,
                ),
                Err(err) => (Err(err), env1),
            }
        }
        Expr::ParenthesisExpr(inner) => spec_eval_expr(*inner, env, ctx, fuel),
        Expr::BinaryExpr(l, op, r) => {
            let (rl, env1) = spec_eval_expr(*l, env, ctx, fuel);
            let (rr, env2) = spec_eval_expr(*r, env1, ctx, fuel);
            match (rl, rr) {
                (Ok(a), Ok(b)) => (spec_binary_values(op, a, b), env2),
                (Err(e1), Ok(_)) => (Err(e1), env2),
                (Ok(_), Err(e2)) => (Err(e2), env2),
                (Err(e1), Err(e2)) => (Err(ErrView::MultiE(seq![e1, e2])), env2),
            }
        }
        Expr::CompareExpr(l, cmp, r) => {
            let (rl, env1) = spec_eval_expr(*l, env, ctx, fuel);
            let (rr, env2) = spec_eval_expr(*r, env1, ctx, fuel);
            match (rl, rr) {
                (Ok(a), Ok(b)) => (Ok(spec_compare(a, cmp, b)), env2),
                (Err(e1), _) => (Err(e1), env2),
                (_, Err(e2)) => (Err(e2), env2),
            }
        }
        Expr::AssignmentExpr(name, value) => {
            let (r, env1) = spec_eval_expr(*value, env, ctx, fuel);
            match r {
                Ok(v) => (Ok(ValueView::NoneV), env1.insert(name@, v)),
                Err(err) => (Err(err), env1),
            }
        }
        Expr::IdentExpr(name) => {
            if env.contains_key(name@) {
                (Ok(env[name@]), env)
            } else {
                (Err(ErrView::UnknownVarE(name@)), env)
            }
        }
        Expr::FunctionCall(name, inputs) => {
            match ctx {
                None => (Err(ErrView::MsgE("Module not found"@)), env),
                Some(decls) => {
                    match spec_lookup_function(decls, name@) {
                        None => (Err(ErrView::MsgE("Function not found"@)), env),
                        Some(decl) => {
                            if decl_arity(decl) != inputs@.len() {
                                (
                                    Err(
                                        ErrView::MsgE(
                                            "Wrong number of arguments in function call"@,
                                        ),
                                    ),
                                    env,
                                )
                            } else {
                                let (argr, env1) = spec_eval_exprs(inputs@, 0, env, ctx, fuel);
                                match argr {
                                    Err(err) => (Err(err), env1),
                                    Ok(vals) => {
                                        if fuel == 0 {
                                            (Err(ErrView::MsgE("Evaluation limit reached"@)), env1)
                                        } else {
                                            (
                                                spec_eval_call(
                                                    decl,
                                                    vals,
                                                    ctx,
                                                    (fuel - 1) as nat,
                                                ),
                                                env1,
                                            )
                                        }
                                    }
                                }
                            }
                        }
                    }
                }
            }
        }
        Expr::List(values) => {
            let (r, env1) = spec_eval_exprs(values@, 0, env, ctx, fuel);
            match r {
                Ok(vals) => (Ok(ValueView::ListV(vals)), env1),
                Err(err) => (Err(err), env1),
            }
        }
        Expr::ListAccess(name, index) => {
            let (r, env1) = spec_eval_expr(*index, env, ctx, fuel);
            match r {
                Err(err) => (Err(err), env1),
                Ok(ValueView::IntV(pos)) => {
                    if env1.contains_key(name@) {
                        match env1[name@] {
                            ValueView::ListV(items) => {
                                if 0 <= pos < items.len() {
                                    (Ok(items[pos as int]), env1)
                                } else {
                                    (Err(ErrView::MsgE("Index out of bounds"@)), env1)
                                }
                            }
                            _ => (Err(ErrView::MsgE("Only list can be accessed"@)), env1),
                        }
                    } else {
                        (Err(ErrView::UnknownVarE(name@)), env1)
                    }
                }
                Ok(_) => (
                    Err(ErrView::MsgE("When accessing a list, the index must be of type int"@)),
                    env1,
                ),
            }
        }
    }
}

/// Evaluation of a list of expressions in order, against the running
/// environment, stopping at the first failure.
pub open spec fn spec_eval_exprs(
    es: Seq<Expr>,
    i: int,
    env: Map<Seq<char>, ValueView>,
    ctx: Option<Seq<Declaration>>,
    fuel: nat,
) -> (Result<Seq<ValueView>, ErrView>, Map<Seq<char>, ValueView>)
    decreases fuel, 0int, es, es.len() - i,
{
    if i < 0 || i >= es.len() {
        (Ok(Seq::empty()), env)
    } else {
        let (r, env1) = spec_eval_expr(es[i], env, ctx, fuel);
        match r {
            Err(err) => (Err(err), env1),
            Ok(v) => {
                let (rest, env2) = spec_eval_exprs(es, i + 1, env1, ctx, fuel);
                match rest {
                    Err(err) => (Err(err), env2),
                    Ok(vs) => (Ok(seq![v] + vs), env2),
                }
            }
        }
    }
}

/// A successful list evaluation yields one value per expression.
pub proof fn lemma_eval_exprs_len(
    es: Seq<Expr>,
    i: int,
    env: Map<Seq<char>, ValueView>,
    ctx: Option<Seq<Declaration>>,
    fuel: nat,
)
    requires
        0 <= i <= es.len(),
    ensures
        ({
            let (r, _) = spec_eval_exprs(es, i, env, ctx, fuel);
            r matches Ok(vs) ==> vs.len() == es.len() - i
        }),
    decreases es.len() - i,
{
    if i < es.len() {
        let (r, env1) = spec_eval_expr(es[i], env, ctx, fuel);
        if r is Ok {
            lemma_eval_exprs_len(es, i + 1, env1, ctx, fuel);
        }
    }
}

/// Evaluation of a call: argument values are bound to the formal
/// parameters in a fresh environment — the caller's environment is not
/// consulted — and the body is evaluated there. A return gives the
/// call's value; falling off the end gives "no value"; a break
/// escaping the body is an error.
pub open spec fn spec_eval_call(
    decl: Declaration,
    vals: Seq<ValueView>,
    ctx: Option<Seq<Declaration>>,
    fuel: nat,
) -> Result<ValueView, ErrView>
    decreases fuel, 2int, decl, 0int,
{
    match decl {
        Declaration::Function(_, params, body) => {
            let (r, _) = spec_eval_stmt(body, bind_params(params@, vals), ctx, fuel);
            match r {
                Ok(OutcomeView::ReturnO(v)) => Ok(v),
                Ok(OutcomeView::NoneO) => Ok(ValueView::NoneV),
                Ok(OutcomeView::BreakO) => Err(ErrView::MsgE("'break' outside of a loop"@)),
                Err(err) => Err(err),
            }
        }
    }
}

/// Evaluation of one statement.
pub open spec fn spec_eval_stmt(
    s: Statement,
    env: Map<Seq<char>, ValueView>,
    ctx: Option<Seq<Declaration>>,
    fuel: nat,
) -> (Result<OutcomeView, ErrView>, Map<Seq<char>, ValueView>)
    decreases fuel, 1int, s, 0int,
{
    match s {
        Statement::SimpleStatement(e) => {
            let (r, env1) = spec_eval_expr(e, env, ctx, fuel);
            match r {
                Ok(_) => (Ok(OutcomeView::NoneO), env1),
                Err(err) => (Err(err), env1),
            }
        }
        Statement::Return(e) => {
            let (r, env1) = spec_eval_expr(e, env, ctx, fuel);
            match r {
                Ok(v) => (Ok(OutcomeView::ReturnO(v)), env1),
                Err(err) => (Err(err), env1),
            }
        }
        Statement::CompoundStatement(statements) => {
            let (r, _) = spec_eval_stmts(statements@, 0, env, ctx, fuel);
            (r, env)
        }
        Statement::If(cond, body, els) => {
            let (r, env1) = spec_eval_expr(cond, env, ctx, fuel);
            match r {
                Err(err) => (Err(err), env1),
                Ok(v) => match spec_truth(v) {
                    Err(err) => (Err(err), env1),
                    Ok(true) => spec_eval_stmt(*body, env1, ctx, fuel),
                    Ok(false) => match els {
                        Some(else_body) => spec_eval_stmt(*else_body, env1, ctx, fuel),
                        None => (Ok(OutcomeView::NoneO), env1),
                    },
                },
            }
        }
        Statement::Loop(body) => {
            match *body {
                Statement::CompoundStatement(statements) => {
                    spec_eval_loop(statements@, env, ctx, fuel)
                }
                _ => (
                    Err(
                        ErrView::MsgE(
                            "A loop statement can only be associated with a compound statement."@,
                        ),
                    ),
                    env,
                ),
            }
        }
        Statement::Break => (Ok(OutcomeView::BreakO), env),
    }
}

/// Evaluation of an ordered statement list against the running
/// environment; a break, return or failure short-circuits the rest.
pub open spec fn spec_eval_stmts(
    ss: Seq<Statement>,
    i: int,
    env: Map<Seq<char>, ValueView>,
    ctx: Option<Seq<Declaration>>,
    fuel: nat,
) -> (Result<OutcomeView, ErrView>, Map<Seq<char>, ValueView>)
    decreases fuel, 1int, ss, ss.len() - i,
{
    if i < 0 || i >= ss.len() {
        (Ok(OutcomeView::NoneO), env)
    } else {
        let (r, env1) = spec_eval_stmt(ss[i], env, ctx, fuel);
        match r {
            Ok(OutcomeView::NoneO) => spec_eval_stmts(ss, i + 1, env1, ctx, fuel),
            Ok(OutcomeView::BreakO) => (Ok(OutcomeView::BreakO), env1),
            Ok(OutcomeView::ReturnO(v)) => (Ok(OutcomeView::ReturnO(v)), env1),
            Err(err) => (Err(err), env1),
        }
    }
}

/// Evaluation of a loop: the body's statement list is evaluated
/// directly against the loop's own environment, repeatedly, until a
/// break (the loop yields "no value"), a return or a failure (both
/// propagate), or the evaluation budget runs out.
pub open spec fn spec_eval_loop(
    ss: Seq<Statement>,
    env: Map<Seq<char>, ValueView>,
    ctx: Option<Seq<Declaration>>,
    fuel: nat,
) -> (Result<OutcomeView, ErrView>, Map<Seq<char>, ValueView>)
    decreases fuel, 1int, ss, ss.len() + 1,
{
    let (r, env1) = spec_eval_stmts(ss, 0, env, ctx, fuel);
    match r {
        Ok(OutcomeView::BreakO) => (Ok(OutcomeView::NoneO), env1),
        Ok(OutcomeView::ReturnO(v)) => (Ok(OutcomeView::ReturnO(v)), env1),
        Err(err) => (Err(err), env1),
        Ok(OutcomeView::NoneO) => {
            if fuel == 0 {
                (Err(ErrView::MsgE("Evaluation limit reached"@)), env1)
            } else {
                spec_eval_loop(ss, env1, ctx, (fuel - 1) as nat)
            }
        }
    }
}

} // verus!
