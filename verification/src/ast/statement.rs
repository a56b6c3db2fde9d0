//! Statements: program forms that evaluate to an outcome rather than a
//! value, and their executable evaluator.

use vstd::prelude::*;
use crate::ast::expression::{truth_of, Expr, ExprView, Value, ValueView};
use crate::env::Env;
use crate::error::EvalError;
use crate::module::{ctx_of, Module};
use crate::semantics::{
    outcome_res_view, spec_eval_loop, spec_eval_stmt, spec_eval_stmts, DEFAULT_FUEL,
};

verus! {

/// A statement.
#[derive(Debug)]
pub enum Statement {
    /// An expression evaluated for its effect, `expr;`.
    SimpleStatement(Expr),
    /// A brace-delimited block forming a new scope.
    CompoundStatement(Vec<Statement>),
    /// A return statement: its value terminates the enclosing function.
    Return(Expr),
    /// A conditional, with an optional else branch.
    If(Expr, Box<Statement>, Option<Box<Statement>>),
    /// A loop, terminated only by `break` or an enclosing return.
    Loop(Box<Statement>),
    /// Terminates the nearest enclosing loop.
    Break,
}

/// The mathematical image of a statement.
pub enum StmtView {
    SimpleS(ExprView),
    CompoundS(Seq<StmtView>),
    ReturnS(ExprView),
    IfS(ExprView, Box<StmtView>, Option<Box<StmtView>>),
    LoopS(Box<StmtView>),
    BreakS,
}

/// The views of a sequence of statements.
pub open spec fn stmt_views(ss: Seq<Statement>) -> Seq<StmtView>
    decreases 2int, ss,
{
    if ss.len() == 0 {
        Seq::empty()
    } else {
        stmt_views(ss.subrange(0, ss.len() - 1)).push(ss[ss.len() - 1]@)
    }
}

impl View for Statement {
    type V = StmtView;

    open spec fn view(&self) -> StmtView
        decreases 2int, self,
    {
        match self {
            Statement::SimpleStatement(e) => StmtView::SimpleS(e@),
            Statement::CompoundStatement(ss) => StmtView::CompoundS(stmt_views(ss@)),
            Statement::Return(e) => StmtView::ReturnS(e@),
            Statement::If(c, body, els) => StmtView::IfS(
                c@,
                Box::new((**body)@),
                match els {
                    Some(b) => Some(Box::new((**b)@)),
                    None => None,
                },
            ),
            Statement::Loop(body) => StmtView::LoopS(Box::new((**body)@)),
            Statement::Break => StmtView::BreakS,
        }
    }
}

/// The tri-state result of evaluating a statement.
#[derive(Debug, PartialEq, Eq)]
pub enum StatementEval {
    /// A return carrying its value.
    Return(Value),
    /// A break signal.
    Break,
    /// No value.
    NoValue,
}

/// The mathematical image of a statement outcome.
pub enum OutcomeView {
    ReturnO(ValueView),
    BreakO,
    NoneO,
}

impl View for StatementEval {
    type V = OutcomeView;

    open spec fn view(&self) -> OutcomeView {
        match self {
            StatementEval::Return(v) => OutcomeView::ReturnO(v@),
            StatementEval::Break => OutcomeView::BreakO,
            StatementEval::NoValue => OutcomeView::NoneO,
        }
    }
}

impl Statement {
    /// Evaluates the statement against the environment `inputs` and an
    /// optional module, with the default evaluation budget. The outcome
    /// and the environment after the call are exactly those of the
    /// specification interpreter.
    pub fn eval(&self, inputs: &mut Env, module: Option<&Module>) -> (r: Result<
        StatementEval,
        EvalError,
    >)
        ensures
            ({
                let (sr, senv) = spec_eval_stmt(
                    *self,
                    old(inputs)@,
                    ctx_of(module),
                    DEFAULT_FUEL as nat,
                );
                outcome_res_view(r) == sr && final(inputs)@ == senv
            }),
    {
        self.eval_fuel(inputs, module, DEFAULT_FUEL)
    }

    /// Evaluates the statement within the given evaluation budget.
    #[verifier::loop_isolation(false)]
    pub fn eval_fuel(&self, inputs: &mut Env, module: Option<&Module>, fuel: u64) -> (r: Result<
        StatementEval,
        EvalError,
    >)
        ensures
            ({
                let (sr, senv) = spec_eval_stmt(*self, old(inputs)@, ctx_of(module), fuel as nat);
                outcome_res_view(r) == sr && final(inputs)@ == senv
            }),
        decreases fuel, 1int, *self, 0int,
    {
        match self {
            Statement::SimpleStatement(expr) => {
                match expr.eval_fuel(inputs, module, fuel) {
                    Ok(_) => Ok(StatementEval::NoValue),
                    Err(err) => Err(err),
                }
            }
            Statement::Return(expr) => {
                match expr.eval_fuel(inputs, module, fuel) {
                    Ok(result) => Ok(StatementEval::Return(result)),
                    Err(err) => Err(err),
                }
            }
            Statement::CompoundStatement(statements) => {
                // A block works on a copy of its environment: bindings
                // made inside never escape the block.
                let mut copied_environment = inputs.clone();
                Self::eval_statement_list(&mut copied_environment, module, statements, fuel)
            }
            Statement::If(condition, body, else_statement) => {
                match condition.eval_fuel(inputs, module, fuel) {
                    Err(err) => Err(err),
                    Ok(cond) => {
                        match truth_of(&cond) {
                            Err(err) => Err(err),
                            Ok(true) => body.eval_fuel(inputs, module, fuel),
                            Ok(false) => {
                                match else_statement {
                                    Some(else_body) => else_body.eval_fuel(inputs, module, fuel),
                                    None => Ok(StatementEval::NoValue),
                                }
                            }
                        }
                    }
                }
            }
            Statement::Loop(body) => {
                match &**body {
                    Statement::CompoundStatement(statements) => {
                        let mut fuel_cur = fuel;
                        loop
                            invariant
                                fuel_cur <= fuel,
                                spec_eval_loop(
                                    statements@,
                                    old(inputs)@,
                                    ctx_of(module),
                                    fuel as nat,
                                ) == spec_eval_loop(
                                    statements@,
                                    inputs@,
                                    ctx_of(module),
                                    fuel_cur as nat,
                                ),
                            decreases fuel_cur,
                        {
                            match Self::eval_statement_list(inputs, module, statements, fuel_cur) {
                                Ok(StatementEval::Break) => {
                                    return Ok(StatementEval::NoValue);
                                }
                                Ok(StatementEval::Return(result)) => {
                                    return Ok(StatementEval::Return(result));
                                }
                                Err(err) => {
                                    return Err(err);
                                }
                                Ok(StatementEval::NoValue) => {
                                    if fuel_cur == 0 {
                                        return Err(EvalError::Error("Evaluation limit reached"));
                                    }
                                    fuel_cur = fuel_cur - 1;
                                }
                            }
                        }
                    }
                    _ => Err(
                        EvalError::Error(
                            "A loop statement can only be associated with a compound statement.",
                        ),
                    ),
                }
            }
            Statement::Break => Ok(StatementEval::Break),
        }
    }

    /// Evaluates an ordered statement list against the running
    /// environment; a break, return or failure short-circuits the rest.
    #[verifier::loop_isolation(false)]
    fn eval_statement_list(
        inputs: &mut Env,
        module: Option<&Module>,
        statements: &Vec<Statement>,
        fuel: u64,
    ) -> (r: Result<StatementEval, EvalError>)
        ensures
            ({
                let (sr, senv) = spec_eval_stmts(
                    statements@,
                    0,
                    old(inputs)@,
                    ctx_of(module),
                    fuel as nat,
                );
                outcome_res_view(r) == sr && final(inputs)@ == senv
            }),
        decreases fuel, 1int, statements@, 0int,
    {
        let mut i: usize = 0;
        loop
            invariant
                i <= statements.len(),
                spec_eval_stmts(statements@, 0, old(inputs)@, ctx_of(module), fuel as nat)
                    == spec_eval_stmts(statements@, i as int, inputs@, ctx_of(module), fuel as nat),
            decreases statements.len() - i,
        {
            if i == statements.len() {
                return Ok(StatementEval::NoValue);
            }
            match statements[i].eval_fuel(inputs, module, fuel) {
                Ok(StatementEval::NoValue) => {}
                Ok(StatementEval::Break) => {
                    return Ok(StatementEval::Break);
                }
                Ok(StatementEval::Return(result)) => {
                    return Ok(StatementEval::Return(result));
                }
                Err(err) => {
                    return Err(err);
                }
            }
            i = i + 1;
        }
    }
}

} // verus!
