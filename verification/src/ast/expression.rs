//! Expressions and the runtime value model.
//!
//! `Value` is the only runtime datatype: integer, boolean, list, or the
//! explicit "no value" marker. Its mathematical image is `ValueView`,
//! with lists as sequences. Comparison uses a documented total order:
//! value kinds are ranked integer < boolean < list < no-value, integers
//! compare numerically, booleans with false before true, and lists
//! lexicographically.

use vstd::prelude::*;
use crate::ast::declaration::Declaration;
use crate::env::Env;
use crate::error::EvalError;
use crate::module::{ctx_of, Module};
use crate::token::{Comp, Op};

verus! {

/// A runtime value: the result of an evaluation.
#[derive(Debug, PartialEq, Eq)]
pub enum Value {
    IntValue(i64),
    BoolValue(bool),
    List(Vec<Value>),
    NoValue,
}

/// The mathematical image of a runtime value.
pub enum ValueView {
    IntV(i64),
    BoolV(bool),
    ListV(Seq<ValueView>),
    NoneV,
}

/// The views of a sequence of values.
pub open spec fn value_views(vs: Seq<Value>) -> Seq<ValueView>
    decreases 0int, vs,
{
    Seq::new(vs.len(), |k: int| if 0 <= k < vs.len() { vs[k]@ } else { ValueView::NoneV })
}

impl View for Value {
    type V = ValueView;

    open spec fn view(&self) -> ValueView
        decreases 0int, self,
    {
        match self {
            Value::IntValue(i) => ValueView::IntV(*i),
            Value::BoolValue(b) => ValueView::BoolV(*b),
            Value::List(vs) => ValueView::ListV(value_views(vs@)),
            Value::NoValue => ValueView::NoneV,
        }
    }
}

/// Deep copy of a value; the copy has the same mathematical image.
#[verifier::loop_isolation(false)]
pub fn clone_value(v: &Value) -> (r: Value)
    ensures
        r@ == v@,
    decreases *v,
{
    match v {
        Value::IntValue(i) => Value::IntValue(*i),
        Value::BoolValue(b) => Value::BoolValue(*b),
        Value::NoValue => Value::NoValue,
        Value::List(vs) => {
            let mut out: Vec<Value> = Vec::new();
            let mut i: usize = 0;
            while i < vs.len()
                invariant
                    i <= vs.len(),
                    out@.len() == i,
                    forall|k: int| 0 <= k < i ==> out@[k]@ == vs@[k]@,
                decreases vs.len() - i,
            {
                proof {
                    assert(decreases_to!(*v => *vs));
                    assert(decreases_to!(*vs => vs@));
                    assert(decreases_to!(vs@ => vs@[i as int]));
                }
                out.push(clone_value(&vs[i]));
                i = i + 1;
            }
            let r = Value::List(out);
            proof {
                assert(value_views(out@) =~= value_views(vs@));
            }
            r
        }
    }
}

impl Clone for Value {
    /// Values are always deep-copied when moved between the environment
    /// and evaluation results.
    fn clone(&self) -> (res: Self)
        ensures
            res@ == self@,
    {
        clone_value(self)
    }
}

// ---------------------------------------------------------------------------
// The total order on values
// ---------------------------------------------------------------------------

/// The rank of a value kind in the documented cross-kind order.
pub open spec fn rank(v: ValueView) -> int {
    match v {
        ValueView::IntV(_) => 0,
        ValueView::BoolV(_) => 1,
        ValueView::ListV(_) => 2,
        ValueView::NoneV => 3,
    }
}

/// Strict "less than" on values: by kind rank first, then numerically,
/// by false-before-true, or lexicographically.
pub open spec fn vv_lt(a: ValueView, b: ValueView) -> bool
    decreases a, 0int,
{
    if rank(a) != rank(b) {
        rank(a) < rank(b)
    } else {
        match (a, b) {
            (ValueView::IntV(x), ValueView::IntV(y)) => x < y,
            (ValueView::BoolV(x), ValueView::BoolV(y)) => !x && y,
            (ValueView::ListV(s1), ValueView::ListV(s2)) => seq_vv_lt_from(s1, s2, 0),
            _ => false,
        }
    }
}

/// Lexicographic "less than" on value sequences, from position `i` on,
/// assuming the positions before `i` are equal.
pub open spec fn seq_vv_lt_from(s1: Seq<ValueView>, s2: Seq<ValueView>, i: int) -> bool
    decreases s1, s1.len() - i,
{
    if i < 0 {
        false
    } else if i >= s1.len() {
        s2.len() > i
    } else if i >= s2.len() {
        false
    } else if s1[i] != s2[i] {
        vv_lt(s1[i], s2[i])
    } else {
        seq_vv_lt_from(s1, s2, i + 1)
    }
}

/// Equality test on values, deciding equality of the mathematical images.
#[verifier::loop_isolation(false)]
pub fn value_eq(x: &Value, y: &Value) -> (r: bool)
    ensures
        r == (x@ == y@),
    decreases *x,
{
    match (x, y) {
        (Value::IntValue(a), Value::IntValue(b)) => *a == *b,
        (Value::BoolValue(a), Value::BoolValue(b)) => *a == *b,
        (Value::NoValue, Value::NoValue) => true,
        (Value::List(xs), Value::List(ys)) => {
            if xs.len() != ys.len() {
                assert(x@ != y@) by {
                    assert(value_views(xs@).len() != value_views(ys@).len());
                }
                false
            } else {
                let mut i: usize = 0;
                loop
                    invariant
                        i <= xs.len(),
                        xs.len() == ys.len(),
                        x@ == ValueView::ListV(value_views(xs@)),
                        y@ == ValueView::ListV(value_views(ys@)),
                        forall|k: int| 0 <= k < i ==> value_views(xs@)[k] == value_views(ys@)[k],
                    decreases xs.len() - i,
                {
                    if i == xs.len() {
                        assert(value_views(xs@) =~= value_views(ys@));
                        return true;
                    }
                    proof {
                        assert(decreases_to!(*x => *xs));
                        assert(decreases_to!(*xs => xs@));
                        assert(decreases_to!(xs@ => xs@[i as int]));
                    }
                    if !value_eq(&xs[i], &ys[i]) {
                        assert(value_views(xs@)[i as int] != value_views(ys@)[i as int]);
                        return false;
                    }
                    i = i + 1;
                }
            }
        }
        _ => {
            assert(rank(x@) != rank(y@));
            false
        }
    }
}

/// Strict-order test on values, deciding `vv_lt` of the images.
#[verifier::loop_isolation(false)]
pub fn value_lt(x: &Value, y: &Value) -> (r: bool)
    ensures
        r == vv_lt(x@, y@),
    decreases *x,
{
    match (x, y) {
        (Value::IntValue(a), Value::IntValue(b)) => *a < *b,
        (Value::BoolValue(a), Value::BoolValue(b)) => !*a && *b,
        (Value::List(xs), Value::List(ys)) => {
            let ghost s1 = value_views(xs@);
            let ghost s2 = value_views(ys@);
            let mut i: usize = 0;
            loop
                invariant
                    i <= xs.len(),
                    i <= ys.len(),
                    s1 == value_views(xs@),
                    s2 == value_views(ys@),
                    x@ == ValueView::ListV(s1),
                    y@ == ValueView::ListV(s2),
                    vv_lt(x@, y@) == seq_vv_lt_from(s1, s2, i as int),
                decreases xs.len() - i,
            {
                if i == xs.len() {
                    return ys.len() > i;
                }
                if i == ys.len() {
                    return false;
                }
                proof {
                    assert(decreases_to!(*x => *xs));
                    assert(decreases_to!(*xs => xs@));
                    assert(decreases_to!(xs@ => xs@[i as int]));
                }
                if !value_eq(&xs[i], &ys[i]) {
                    return value_lt(&xs[i], &ys[i]);
                }
                i = i + 1;
            }
        }
        _ => {
            let ra = value_rank(x);
            let rb = value_rank(y);
            ra < rb
        }
    }
}

fn value_rank(v: &Value) -> (r: i32)
    ensures
        r == rank(v@),
{
    match v {
        Value::IntValue(_) => 0,
        Value::BoolValue(_) => 1,
        Value::List(_) => 2,
        Value::NoValue => 3,
    }
}

/// The boolean outcome of one comparison, as a value.
pub open spec fn spec_compare(a: ValueView, op: Comp, b: ValueView) -> ValueView {
    ValueView::BoolV(
        match op {
            Comp::Equal => a == b,
            Comp::Lower => vv_lt(a, b),
            Comp::LowerEq => vv_lt(a, b) || a == b,
            Comp::Higher => vv_lt(b, a),
            Comp::HigherEq => vv_lt(b, a) || a == b,
        },
    )
}

/// An expression: something that evaluates to a value.
#[derive(Debug, PartialEq, Eq)]
pub enum Expr {
    /// A literal value.
    ConstExpr(Value),
    /// Arithmetic negation.
    NegExpr(Box<Expr>),
    /// Explicit parenthesization; evaluates identically to its inner
    /// expression.
    ParenthesisExpr(Box<Expr>),
    /// Binary arithmetic: left, operator, right.
    BinaryExpr(Box<Expr>, Op, Box<Expr>),
    /// Comparison: left, operator, right.
    CompareExpr(Box<Expr>, Comp, Box<Expr>),
    /// Assignment of an expression's value to a name.
    AssignmentExpr(String, Box<Expr>),
    /// A reference to a variable.
    IdentExpr(String),
    /// A call: name and ordered argument expressions.
    FunctionCall(String, Vec<Expr>),
    /// A list literal of ordered element expressions.
    List(Vec<Expr>),
    /// Indexing a named list variable.
    ListAccess(String, Box<Expr>),
}

/// The mathematical image of an expression: names as character
/// sequences, children as boxed images or sequences.
pub enum ExprView {
    ConstE(ValueView),
    NegE(Box<ExprView>),
    ParenE(Box<ExprView>),
    BinaryE(Box<ExprView>, Op, Box<ExprView>),
    CompareE(Box<ExprView>, Comp, Box<ExprView>),
    AssignE(Seq<char>, Box<ExprView>),
    IdentE(Seq<char>),
    CallE(Seq<char>, Seq<ExprView>),
    ListE(Seq<ExprView>),
    AccessE(Seq<char>, Box<ExprView>),
}

/// The views of a sequence of expressions.
pub open spec fn expr_views(es: Seq<Expr>) -> Seq<ExprView>
    decreases 1int, es,
{
    if es.len() == 0 {
        Seq::empty()
    } else {
        expr_views(es.subrange(0, es.len() - 1)).push(es[es.len() - 1]@)
    }
}

impl View for Expr {
    type V = ExprView;

    open spec fn view(&self) -> ExprView
        decreases 1int, self,
    {
        match self {
            Expr::ConstExpr(v) => ExprView::ConstE(v@),
            Expr::NegExpr(inner) => ExprView::NegE(Box::new((**inner)@)),
            Expr::ParenthesisExpr(inner) => ExprView::ParenE(Box::new((**inner)@)),
            Expr::BinaryExpr(l, op, r) => ExprView::BinaryE(
                Box::new((**l)@),
                *op,
                Box::new((**r)@),
            ),
            Expr::CompareExpr(l, cmp, r) => ExprView::CompareE(
                Box::new((**l)@),
                *cmp,
                Box::new((**r)@),
            ),
            Expr::AssignmentExpr(name, value) => ExprView::AssignE(name@, Box::new((**value)@)),
            Expr::IdentExpr(name) => ExprView::IdentE(name@),
            Expr::FunctionCall(name, inputs) => ExprView::CallE(name@, expr_views(inputs@)),
            Expr::List(values) => ExprView::ListE(expr_views(values@)),
            Expr::ListAccess(name, index) => ExprView::AccessE(name@, Box::new((**index)@)),
        }
    }
}

proof fn probe_value(vs: Seq<Value>)
    requires
        vs.len() == 0,
    ensures
        value_views(vs).len() == 0,
{
}

// ---------------------------------------------------------------------------
// The executable evaluator for expressions
// ---------------------------------------------------------------------------

/// Concatenation of two value lists, element by element.
fn concat_lists(v1: &Vec<Value>, v2: &Vec<Value>) -> (r: Vec<Value>)
    ensures
        value_views(r@) == value_views(v1@) + value_views(v2@),
{
    let mut out: Vec<Value> = Vec::new();
    let mut i: usize = 0;
    while i < v1.len()
        invariant
            i <= v1.len(),
            out@.len() == i,
            forall|k: int| 0 <= k < i ==> out@[k]@ == v1@[k]@,
        decreases v1.len() - i,
    {
        out.push(clone_value(&v1[i]));
        i = i + 1;
    }
    let mut j: usize = 0;
    while j < v2.len()
        invariant
            j <= v2.len(),
            out@.len() == v1@.len() + j,
            forall|k: int| 0 <= k < v1@.len() ==> out@[k]@ == v1@[k]@,
            forall|k: int| 0 <= k < j ==> out@[v1@.len() + k]@ == v2@[k]@,
        decreases v2.len() - j,
    {
        out.push(clone_value(&v2[j]));
        j = j + 1;
    }
    proof {
        assert(value_views(out@) =~= value_views(v1@) + value_views(v2@));
    }
    out
}

/// Binary arithmetic on two evaluated operands, as
/// `spec_binary_values` states it.
fn binary_values(op: &Op, a: Value, b: Value) -> (r: Result<Value, EvalError>)
    ensures
        crate::semantics::res_view(r) == crate::semantics::spec_binary_values(*op, a@, b@),
{
    match (a, b) {
        (Value::IntValue(x), Value::IntValue(y)) => match op {
            Op::Plus => Ok(Value::IntValue(x.wrapping_add(y))),
            Op::Minus => Ok(Value::IntValue(x.wrapping_sub(y))),
            Op::Times => Ok(Value::IntValue(x.wrapping_mul(y))),
            Op::Div => {
                if y == 0 {
                    Err(EvalError::Error("Division by zero"))
                } else {
                    match x.checked_div(y) {
                        Some(q) => Ok(Value::IntValue(q)),
                        None => Ok(Value::IntValue(i64::MIN)),
                    }
                }
            }
        },
        (Value::List(v1), Value::List(v2)) => {
            if let Op::Plus = op {
                let joined = concat_lists(&v1, &v2);
                Ok(Value::List(joined))
            } else {
                Err(EvalError::Error("Only addition is supported for list"))
            }
        }
        _ => Err(EvalError::Error("Binary operation not supported")),
    }
}

/// The truth value of a condition.
pub fn truth_of(v: &Value) -> (r: Result<bool, EvalError>)
    ensures
        ({
            match r {
                Ok(b) => crate::semantics::spec_truth(v@) == Ok::<_, crate::error::ErrView>(b),
                Err(e) => crate::semantics::spec_truth(v@) == Err::<bool, _>(e@),
            }
        }),
{
    match v {
        Value::IntValue(i) => Ok(*i != 0),
        Value::BoolValue(b) => Ok(*b),
        Value::NoValue => Err(EvalError::Error("'None' can't be casted to bool")),
        Value::List(_) => Err(EvalError::Error("List can't be casted to bool")),
    }
}

/// Prepends already-evaluated values to a list-evaluation result.
pub open spec fn prepend_vals(
    vs: Seq<ValueView>,
    r: Result<Seq<ValueView>, crate::error::ErrView>,
) -> Result<Seq<ValueView>, crate::error::ErrView> {
    match r {
        Ok(rest) => Ok(vs + rest),
        Err(e) => Err(e),
    }
}

impl Expr {
    /// Evaluates the expression against the local environment `buf` and
    /// an optional module for function lookup, with the default
    /// evaluation budget. The result and the environment after the call
    /// are exactly those of the specification interpreter.
    pub fn eval(&self, buf: &mut Env, module: Option<&Module>) -> (r: Result<Value, EvalError>)
        ensures
            ({
                let (sr, senv) = crate::semantics::spec_eval_expr(
                    *self,
                    old(buf)@,
                    ctx_of(module),
                    crate::semantics::DEFAULT_FUEL as nat,
                );
                crate::semantics::res_view(r) == sr && final(buf)@ == senv
            }),
    {
        self.eval_fuel(buf, module, crate::semantics::DEFAULT_FUEL)
    }

    /// Evaluates the expression within the given evaluation budget.
    pub fn eval_fuel(&self, buf: &mut Env, module: Option<&Module>, fuel: u64) -> (r: Result<
        Value,
        EvalError,
    >)
        ensures
            ({
                let (sr, senv) = crate::semantics::spec_eval_expr(
                    *self,
                    old(buf)@,
                    ctx_of(module),
                    fuel as nat,
                );
                crate::semantics::res_view(r) == sr && final(buf)@ == senv
            }),
        decreases fuel, 0int, *self, 0int,
    {
        match self {
            Expr::ConstExpr(v) => Ok(clone_value(v)),
            Expr::NegExpr(inner) => {
                match inner.eval_fuel(buf, module, fuel) {
                    Ok(Value::IntValue(x)) => Ok(Value::IntValue(0i64.wrapping_sub(x))),
                    Ok(_) => Err(
                        EvalError::Error("A negative express only applies to type Int and Float"),
                    ),
                    Err(err) => Err(err),
                }
            }
            Expr::ParenthesisExpr(inner) => inner.eval_fuel(buf, module, fuel),
            Expr::BinaryExpr(l, op, r) => {
                let rl = l.eval_fuel(buf, module, fuel);
                let rr = r.eval_fuel(buf, module, fuel);
                match (rl, rr) {
                    (Ok(a), Ok(b)) => binary_values(op, a, b),
                    (Err(e1), Ok(_)) => Err(e1),
                    (Ok(_), Err(e2)) => Err(e2),
                    (Err(e1), Err(e2)) => {
                        proof {
                            assert(crate::error::err_views(seq![e1, e2]) =~= seq![e1@, e2@]);
                        }
                        Err(EvalError::MultipleError(vec![e1, e2]))
                    }
                }
            }
            Expr::CompareExpr(l, cmp, r) => {
                let rl = l.eval_fuel(buf, module, fuel);
                let rr = r.eval_fuel(buf, module, fuel);
                match (rl, rr) {
                    (Ok(a), Ok(b)) => Ok(Self::eval_compare_expr(&a, cmp, &b)),
                    (Err(e1), _) => Err(e1),
                    (_, Err(e2)) => Err(e2),
                }
            }
            Expr::AssignmentExpr(name, value) => {
                match value.eval_fuel(buf, module, fuel) {
                    Ok(v) => {
                        buf.insert(name.clone(), v);
                        Ok(Value::NoValue)
                    }
                    Err(err) => Err(err),
                }
            }
            Expr::IdentExpr(name) => {
                match buf.get(name) {
                    Some(v) => Ok(clone_value(v)),
                    None => Err(EvalError::UnknownVariable(name.clone())),
                }
            }
            Expr::FunctionCall(name, inputs) => {
                match module {
                    None => Err(EvalError::Error("Module not found")),
                    Some(m) => {
                        match m.get_function(name) {
                            None => Err(EvalError::Error("Function not found")),
                            Some(decl) => {
                                let arity = match decl {
                                    Declaration::Function(_, params, _) => params.len(),
                                };
                                if arity != inputs.len() {
                                    Err(
                                        EvalError::Error(
                                            "Wrong number of arguments in function call",
                                        ),
                                    )
                                } else {
                                    proof {
                                        crate::semantics::lemma_eval_exprs_len(
                                            inputs@,
                                            0,
                                            buf@,
                                            ctx_of(module),
                                            fuel as nat,
                                        );
                                    }
                                    match eval_args(inputs, buf, module, fuel) {
                                        Err(err) => Err(err),
                                        Ok(vals) => {
                                            if fuel == 0 {
                                                Err(EvalError::Error("Evaluation limit reached"))
                                            } else {
                                                call_function(decl, vals, module, fuel - 1)
                                            }
                                        }
                                    }
                                }
                            }
                        }
                    }
                }
            }
            Expr::List(values) => {
                match eval_args(values, buf, module, fuel) {
                    Ok(vals) => Ok(Value::List(vals)),
                    Err(err) => Err(err),
                }
            }
            Expr::ListAccess(name, index) => {
                let idx_res = index.eval_fuel(buf, module, fuel);
                let ghost env1g = buf@;
                match idx_res {
                    Err(err) => Err(err),
                    Ok(Value::IntValue(pos)) => {
                        match buf.get(name) {
                            Some(v) => {
                                match v {
                                    Value::List(items) => {
                                        assert(env1g[name@] == ValueView::ListV(
                                            value_views(items@),
                                        ));
                                        if 0 <= pos && (pos as u64) < (items.len() as u64) {
                                            assert(0 <= pos < value_views(items@).len());
                                            let elem = clone_value(&items[pos as usize]);
                                            assert(elem@ == value_views(items@)[pos as int]);
                                            Ok(elem)
                                        } else {
                                            assert(!(0 <= pos < value_views(items@).len()));
                                            Err(EvalError::Error("Index out of bounds"))
                                        }
                                    }
                                    _ => Err(EvalError::Error("Only list can be accessed")),
                                }
                            }
                            None => Err(EvalError::UnknownVariable(name.clone())),
                        }
                    }
                    Ok(_) => Err(
                        EvalError::Error("When accessing a list, the index must be of type int"),
                    ),
                }
            }
        }
    }

    /// One comparison of two evaluated values, under the documented
    /// total order.
    pub fn eval_compare_expr(left: &Value, op: &Comp, right: &Value) -> (r: Value)
        ensures
            r@ == spec_compare(left@, *op, right@),
    {
        match op {
            Comp::Equal => Value::BoolValue(value_eq(left, right)),
            Comp::Lower => Value::BoolValue(value_lt(left, right)),
            Comp::LowerEq => Value::BoolValue(value_lt(left, right) || value_eq(left, right)),
            Comp::Higher => Value::BoolValue(value_lt(right, left)),
            Comp::HigherEq => Value::BoolValue(value_lt(right, left) || value_eq(left, right)),
        }
    }
}

/// Evaluates a list of argument or element expressions in order against
/// the running environment, stopping at the first failure.
#[verifier::loop_isolation(false)]
fn eval_args(es: &Vec<Expr>, buf: &mut Env, module: Option<&Module>, fuel: u64) -> (r: Result<
    Vec<Value>,
    EvalError,
>)
    ensures
        ({
            let (sr, senv) = crate::semantics::spec_eval_exprs(
                es@,
                0,
                old(buf)@,
                ctx_of(module),
                fuel as nat,
            );
            crate::semantics::list_res_view(r) == sr && final(buf)@ == senv
        }),
    decreases fuel, 0int, es@, 0int,
{
    let ghost env0 = buf@;
    let ghost ctx = ctx_of(module);
    let mut out: Vec<Value> = Vec::new();
    let mut i: usize = 0;
    loop
        invariant
            i <= es.len(),
            ({
                let (sr, senv) = crate::semantics::spec_eval_exprs(es@, 0, env0, ctx, fuel as nat);
                let (tr, tenv) = crate::semantics::spec_eval_exprs(
                    es@,
                    i as int,
                    buf@,
                    ctx,
                    fuel as nat,
                );
                sr == prepend_vals(value_views(out@), tr) && senv == tenv
            }),
        decreases es.len() - i,
    {
        if i == es.len() {
            return Ok(out);
        }
        let ghost prev = out@;
        match es[i].eval_fuel(buf, module, fuel) {
            Err(err) => {
                return Err(err);
            }
            Ok(v) => {
                out.push(v);
                proof {
                    assert(value_views(out@) =~= value_views(prev).push(out@.last()@));
                    lemma_prepend_vals_push(
                        value_views(prev),
                        out@.last()@,
                        crate::semantics::spec_eval_exprs(
                            es@,
                            i + 1,
                            buf@,
                            ctx,
                            fuel as nat,
                        ).0,
                    );
                }
            }
        }
        i = i + 1;
    }
}

proof fn lemma_prepend_vals_push(
    vs: Seq<ValueView>,
    v: ValueView,
    r: Result<Seq<ValueView>, crate::error::ErrView>,
)
    ensures
        prepend_vals(vs, prepend_vals(seq![v], r)) == prepend_vals(vs.push(v), r),
{
    match r {
        Ok(rest) => {
            assert(vs + (seq![v] + rest) =~= vs.push(v) + rest);
        }
        Err(_) => {}
    }
}

/// Evaluates a call of a looked-up declaration: the argument values are
/// bound to the formal parameters in a fresh environment, and the body
/// is evaluated there; the caller's environment is never consulted.
fn call_function(decl: &Declaration, args: Vec<Value>, module: Option<&Module>, fuel: u64) -> (r:
    Result<Value, EvalError>)
    requires
        crate::semantics::decl_arity(*decl) == args@.len(),
    ensures
        crate::semantics::res_view(r) == crate::semantics::spec_eval_call(
            *decl,
            value_views(args@),
            ctx_of(module),
            fuel as nat,
        ),
    decreases fuel, 2int, *decl, 0int,
{
    match decl {
        Declaration::Function(_, params, body) => {
            let mut env = Env::new();
            let mut i: usize = 0;
            while i < params.len()
                invariant
                    i <= params.len(),
                    params@.len() == args@.len(),
                    env@ == crate::semantics::bind_params(
                        params@.subrange(0, i as int),
                        value_views(args@),
                    ),
                decreases params.len() - i,
            {
                proof {
                    assert(params@.subrange(0, i + 1).drop_last() =~= params@.subrange(0, i as int));
                    assert(params@.subrange(0, i + 1).last() == params@[i as int]);
                }
                let name = params[i].0.clone();
                let value = clone_value(&args[i]);
                env.insert(name, value);
                i = i + 1;
            }
            proof {
                assert(params@.subrange(0, params@.len() as int) =~= params@);
            }
            match body.eval_fuel(&mut env, module, fuel) {
                Ok(crate::ast::statement::StatementEval::Return(result)) => Ok(result),
                Ok(crate::ast::statement::StatementEval::NoValue) => Ok(Value::NoValue),
                Ok(crate::ast::statement::StatementEval::Break) => Err(
                    EvalError::Error("'break' outside of a loop"),
                ),
                Err(err) => Err(err),
            }
        }
    }
}

} // verus!
