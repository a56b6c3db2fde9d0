//! The minimal standard-library dispatcher: a fixed reserved-name table
//! consulted for calls whose target is no user-defined function. It
//! receives the function name and the already-evaluated argument
//! values; it has no access to the environment or the module.
//!
//! `print` maps to built-in output behavior whose rendering belongs to
//! the front end; here it yields the "no value" marker, as does any
//! name outside the table.

use vstd::prelude::*;
use crate::ast::expression::{Value, ValueView};
use crate::error::{ErrView, EvalError};

verus! {

/// The standard library.
pub struct Std;

/// A sequence length as a 64-bit integer value, saturated at the
/// largest representable length.
pub open spec fn len_as_i64(n: nat) -> i64 {
    if n <= i64::MAX {
        n as i64
    } else {
        i64::MAX
    }
}

/// The result of the `len` built-in: the length of its single list
/// argument.
pub open spec fn spec_list_length(args: Seq<ValueView>) -> Result<ValueView, ErrView> {
    if args.len() != 1 {
        Err(ErrView::MsgE("The function `len` can only be used with a single argument"@))
    } else {
        match args[0] {
            ValueView::ListV(items) => Ok(ValueView::IntV(len_as_i64(items.len()))),
            _ => Err(ErrView::MsgE("The function `len` can only be used a value of type `list`"@)),
        }
    }
}

/// The result of one dispatcher call: `len` computes a list length;
/// `print` and any unreserved name yield the "no value" marker.
pub open spec fn spec_std_eval(name: Seq<char>, args: Seq<ValueView>) -> Result<
    ValueView,
    ErrView,
> {
    if name == "len"@ {
        spec_list_length(args)
    } else {
        Ok(ValueView::NoneV)
    }
}

impl Std {
    /// Whether the name is reserved by the standard library.
    pub fn is_in_standard_lib(name: &String) -> (r: bool)
        ensures
            r == (name@ == "print"@ || name@ == "len"@),
    {
        name.eq(&String::from_str("print")) || name.eq(&String::from_str("len"))
    }

    /// Dispatches one call on a reserved or unreserved name.
    pub fn eval(name: &String, args: &Vec<Value>) -> (r: Result<Value, EvalError>)
        ensures
            ({
                let sr = spec_std_eval(name@, crate::ast::expression::value_views(args@));
                match r {
                    Ok(v) => sr == Ok::<_, ErrView>(v@),
                    Err(e) => sr == Err::<ValueView, _>(e@),
                }
            }),
    {
        if name.eq(&String::from_str("len")) {
            Self::get_list_length(args)
        } else {
            Ok(Value::NoValue)
        }
    }

    /// The length of the single list argument of `len`.
    pub fn get_list_length(args: &Vec<Value>) -> (r: Result<Value, EvalError>)
        ensures
            ({
                let sr = spec_list_length(crate::ast::expression::value_views(args@));
                match r {
                    Ok(v) => sr == Ok::<_, ErrView>(v@),
                    Err(e) => sr == Err::<ValueView, _>(e@),
                }
            }),
    {
        if args.len() != 1 {
            Err(EvalError::Error("The function `len` can only be used with a single argument"))
        } else {
            let first = &args[0];
            proof {
                assert(crate::ast::expression::value_views(args@)[0] == args@[0]@);
            }
            match first {
                Value::List(data) => {
                    proof {
                        assert(crate::ast::expression::value_views(data@).len() == data@.len());
                    }
                    if (data.len() as u64) <= (i64::MAX as u64) {
                        Ok(Value::IntValue(data.len() as i64))
                    } else {
                        Ok(Value::IntValue(i64::MAX))
                    }
                }
                _ => Err(
                    EvalError::Error("The function `len` can only be used a value of type `list`"),
                ),
            }
        }
    }
}

} // verus!
