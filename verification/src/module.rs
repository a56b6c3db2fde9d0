//! A module: an ordered collection of function declarations with
//! name-based lookup and a designated entry point. Built once by the
//! parser, queried immutably afterwards.

use vstd::prelude::*;
use crate::ast::declaration::Declaration;
use crate::ast::expression::Value;
use crate::env::Env;
use crate::error::EvalError;
use crate::semantics::{outcome_to_value, spec_eval_stmt, spec_lookup_function, decl_body, DEFAULT_FUEL};
use crate::semantics::res_view;

verus! {

/// An ordered list of declarations forming one program.
#[derive(Debug)]
pub struct Module {
    declarations: Vec<Declaration>,
}

impl View for Module {
    type V = Seq<Declaration>;

    closed spec fn view(&self) -> Seq<Declaration> {
        self.declarations@
    }
}

/// The declaration list that an optional module supplies to evaluation.
pub open spec fn ctx_of(m: Option<&Module>) -> Option<Seq<Declaration>> {
    match m {
        None => None,
        Some(md) => Some(md@),
    }
}

impl Module {
    /// Wraps an ordered declaration list as a module.
    pub fn new(declarations: Vec<Declaration>) -> (r: Module)
        ensures
            r@ == declarations@,
    {
        Module { declarations }
    }

    /// The number of function declarations.
    pub fn number_of_functions(&self) -> (r: usize)
        ensures
            r == self@.len(),
    {
        self.declarations.len()
    }

    /// The first declaration of the given name; duplicates are not
    /// rejected, the first match wins.
    pub fn get_function(&self, name: &String) -> (r: Option<&Declaration>)
        ensures
            match r {
                Some(d) => spec_lookup_function(self@, name@) == Some(*d),
                None => spec_lookup_function(self@, name@) is None,
            },
    {
        let mut i: usize = 0;
        proof {
            assert(self@.skip(0) =~= self@);
        }
        loop
            invariant
                i <= self.declarations.len(),
                self@ == self.declarations@,
                spec_lookup_function(self@, name@) == spec_lookup_function(
                    self@.skip(i as int),
                    name@,
                ),
            decreases self.declarations.len() - i,
        {
            if i == self.declarations.len() {
                return None;
            }
            proof {
                assert(self@.skip(i as int)[0] == self@[i as int]);
                assert(self@.skip(i as int).drop_first() =~= self@.skip(i + 1));
            }
            match &self.declarations[i] {
                Declaration::Function(fname, _, _) => {
                    if fname.eq(name) {
                        return Some(&self.declarations[i]);
                    }
                }
            }
            i = i + 1;
        }
    }

    /// Evaluates the function named `main` against a fresh, empty
    /// environment, with this module supplying function lookup.
    pub fn run(&self) -> (r: Result<Value, EvalError>)
        ensures
            ({
                match spec_lookup_function(self@, "main"@) {
                    None => res_view(r) == Result::<
                        crate::ast::expression::ValueView,
                        crate::error::ErrView,
                    >::Err(crate::error::ErrView::MsgE("Function main not found"@)),
                    Some(d) => res_view(r) == outcome_to_value(
                        spec_eval_stmt(
                            decl_body(d),
                            Map::empty(),
                            Some(self@),
                            DEFAULT_FUEL as nat,
                        ).0,
                    ),
                }
            }),
    {
        let main_name = String::from_str("main");
        match self.get_function(&main_name) {
            None => Err(EvalError::Error("Function main not found")),
            Some(main) => {
                let mut env = Env::new();
                main.eval(&mut env, Some(self))
            }
        }
    }
}

} // verus!
