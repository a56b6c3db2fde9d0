//! Declarations: the top-level elements of a module.

use vstd::prelude::*;
use crate::ast::expression::Value;
use crate::ast::statement::{Statement, StatementEval};
use crate::env::Env;
use crate::error::EvalError;
use crate::module::{ctx_of, Module};
use crate::semantics::{decl_body, outcome_to_value, res_view, spec_eval_stmt, DEFAULT_FUEL};

verus! {

/// A formal parameter of a function declaration.
#[derive(Debug)]
pub struct FnArg(pub String);

/// The mathematical image of a declaration: the function's name, its
/// ordered parameter names, and the image of its body.
pub enum DeclView {
    FunctionD(Seq<char>, Seq<Seq<char>>, crate::ast::statement::StmtView),
}

/// The views of a parameter list.
pub open spec fn arg_views(args: Seq<FnArg>) -> Seq<Seq<char>> {
    Seq::new(args.len(), |k: int| if 0 <= k < args.len() { args[k].0@ } else { Seq::empty() })
}

/// The views of a sequence of declarations.
pub open spec fn decl_views(ds: Seq<Declaration>) -> Seq<DeclView>
    decreases 3int, ds,
{
    if ds.len() == 0 {
        Seq::empty()
    } else {
        decl_views(ds.subrange(0, ds.len() - 1)).push(ds[ds.len() - 1]@)
    }
}

impl View for Declaration {
    type V = DeclView;

    open spec fn view(&self) -> DeclView
        decreases 3int, self,
    {
        match self {
            Declaration::Function(name, args, body) => DeclView::FunctionD(
                name@,
                arg_views(args@),
                body@,
            ),
        }
    }
}

/// A declaration; currently only a named function.
#[derive(Debug)]
pub enum Declaration {
    /// A function: name, ordered formal parameter names, body statement.
    Function(String, Vec<FnArg>, Statement),
}

impl Declaration {
    /// Evaluates the function body against the provided environment
    /// (the bound inputs of the function) and an optional module.
    /// A return gives the call's value; falling off the end gives
    /// "no value"; a break escaping the body is an error.
    pub fn eval(&self, inputs: &mut Env, module: Option<&Module>) -> (r: Result<Value, EvalError>)
        ensures
            ({
                let (sr, senv) = spec_eval_stmt(
                    decl_body(*self),
                    old(inputs)@,
                    ctx_of(module),
                    DEFAULT_FUEL as nat,
                );
                res_view(r) == outcome_to_value(sr) && final(inputs)@ == senv
            }),
    {
        match self {
            Declaration::Function(_name, _args, body) => {
                match body.eval_fuel(inputs, module, DEFAULT_FUEL) {
                    Ok(StatementEval::Return(result)) => Ok(result),
                    Ok(StatementEval::NoValue) => Ok(Value::NoValue),
                    Ok(StatementEval::Break) => Err(EvalError::Error("'break' outside of a loop")),
                    Err(err) => Err(err),
                }
            }
        }
    }
}

} // verus!
