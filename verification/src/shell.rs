//! The state of an interactive session: a persistent variable
//! environment that successive expressions are evaluated against.
//! Reading lines and printing results belongs to the front end.

use vstd::prelude::*;
use crate::ast::expression::{Expr, Value, ValueView};
use crate::env::Env;
use crate::error::EvalError;
use crate::semantics::{res_view, spec_eval_expr, DEFAULT_FUEL};

verus! {

/// A session's variable bindings.
pub struct Shell {
    vars: Env,
}

impl View for Shell {
    type V = Map<Seq<char>, ValueView>;

    closed spec fn view(&self) -> Map<Seq<char>, ValueView> {
        self.vars@
    }
}

impl Shell {
    /// A session with no bindings.
    pub fn new() -> (r: Shell)
        ensures
            r@ == Map::<Seq<char>, ValueView>::empty(),
    {
        Shell { vars: Env::new() }
    }

    /// Evaluates one expression against the session's bindings, with
    /// no module: a failed evaluation leaves the session usable, with
    /// the bindings the evaluation reached.
    pub fn eval(&mut self, ast: &Expr) -> (r: Result<Value, EvalError>)
        ensures
            ({
                let (sr, senv) = spec_eval_expr(*ast, old(self)@, None, DEFAULT_FUEL as nat);
                res_view(r) == sr && final(self)@ == senv
            }),
    {
        ast.eval(&mut self.vars, None)
    }
}

} // verus!
