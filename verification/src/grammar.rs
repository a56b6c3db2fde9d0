//! The grammar: a specification-level recursive-descent parser over
//! token views, against which the executable parser is proved.
//!
//! Each function takes the token sequence and a cursor position, and
//! names the parsed form together with the position after it; `None`
//! (or an error) means the alternative does not match at that position
//! and no tokens are consumed. Precedence, low to high: assignment,
//! comparison, additive, multiplicative, primary. The additive and
//! multiplicative chains are built left-associatively, so
//! `a - b - c` denotes `(a - b) - c`.
//!
//! `step_from` and `clamp_ge` bound the cursor handed to a recursive
//! call; a parse never moves the cursor backwards or past the end, so
//! on every reachable path they return the position unchanged.

use vstd::prelude::*;
use crate::ast::declaration::DeclView;
use crate::ast::expression::{ExprView, ValueView};
use crate::ast::statement::StmtView;
use crate::error::PErrView;
use crate::token::{Comp, Op, TokenView};

verus! {

/// The token at a position, when the position is in range.
pub open spec fn tok_at(vt: Seq<TokenView>, i: int) -> Option<TokenView> {
    if 0 <= i < vt.len() {
        Some(vt[i])
    } else {
        None
    }
}

/// How many tokens remain from position `i`.
pub open spec fn parse_rem(vt: Seq<TokenView>, i: int) -> int {
    if i <= vt.len() {
        vt.len() - i
    } else {
        0
    }
}

/// The continuation position after a sub-parse, bounded strictly past
/// `i` and at most `len`.
pub open spec fn step_from(i: int, j: int, len: int) -> int {
    if i < j && j <= len {
        j
    } else if i < len {
        i + 1
    } else {
        i
    }
}

/// The continuation position after a sub-parse, bounded at or past `i`
/// and at most `len`.
pub open spec fn clamp_ge(i: int, j: int, len: int) -> int {
    if i <= j && j <= len {
        j
    } else {
        i
    }
}

// ---------------------------------------------------------------------------
// Expressions
// ---------------------------------------------------------------------------

/// A primary form: an integer or boolean literal; an identifier,
/// optionally followed by a call argument list or a bracketed index; a
/// parenthesized expression; a list literal; or a negated primary.
pub open spec fn spec_parse_primary(vt: Seq<TokenView>, i: int) -> Option<(ExprView, int)>
    decreases parse_rem(vt, i), 0int,
{
    match tok_at(vt, i) {
        Some(TokenView::IntTk(v)) => Some((ExprView::ConstE(ValueView::IntV(v)), i + 1)),
        Some(TokenView::TrueTk) => Some((ExprView::ConstE(ValueView::BoolV(true)), i + 1)),
        Some(TokenView::FalseTk) => Some((ExprView::ConstE(ValueView::BoolV(false)), i + 1)),
        Some(TokenView::IdentTk(name)) => {
            match tok_at(vt, i + 1) {
                Some(TokenView::LParTk) => {
                    match spec_parse_call_arglist(vt, i + 1) {
                        Some((args, j)) => Some((ExprView::CallE(name, args), j)),
                        None => None,
                    }
                }
                Some(TokenView::LBracketTk) => {
                    match spec_parse_expression(vt, i + 2) {
                        Ok((idx, j)) => {
                            if tok_at(vt, j) == Some(TokenView::RBracketTk) {
                                Some((ExprView::AccessE(name, Box::new(idx)), j + 1))
                            } else {
                                None
                            }
                        }
                        Err(_) => None,
                    }
                }
                _ => Some((ExprView::IdentE(name), i + 1)),
            }
        }
        Some(TokenView::LParTk) => {
            match spec_parse_expression(vt, i + 1) {
                Ok((e, j)) => {
                    if tok_at(vt, j) == Some(TokenView::RParTk) {
                        Some((ExprView::ParenE(Box::new(e)), j + 1))
                    } else {
                        None
                    }
                }
                Err(_) => None,
            }
        }
        Some(TokenView::LBracketTk) => {
            match spec_parse_list_elems(vt, i + 1) {
                Some((es, j)) => Some((ExprView::ListE(es), j)),
                None => None,
            }
        }
        Some(TokenView::OpTk(Op::Minus)) => {
            match spec_parse_primary(vt, i + 1) {
                Some((e, j)) => Some((ExprView::NegE(Box::new(e)), j)),
                None => None,
            }
        }
        _ => None,
    }
}

/// The elements of a list literal after the opening bracket: one or
/// more expressions separated by commas, then the closing bracket.
pub open spec fn spec_parse_list_elems(vt: Seq<TokenView>, i: int) -> Option<(Seq<ExprView>, int)>
    decreases parse_rem(vt, i), 8int,
{
    if i < 0 || i >= vt.len() {
        None
    } else {
        match spec_parse_expression(vt, i) {
            Err(_) => None,
            Ok((e, j)) => {
                match tok_at(vt, j) {
                    Some(TokenView::CommaTk) => {
                        match spec_parse_list_elems(vt, step_from(i, j + 1, vt.len() as int)) {
                            Some((es, k)) => Some((seq![e] + es, k)),
                            None => None,
                        }
                    }
                    Some(TokenView::RBracketTk) => Some((seq![e], j + 1)),
                    _ => None,
                }
            }
        }
    }
}

/// A call argument list: the opening parenthesis, zero or more
/// expressions, the closing parenthesis. A comma between arguments is
/// consumed where present but not required.
pub open spec fn spec_parse_call_arglist(vt: Seq<TokenView>, i: int) -> Option<(Seq<ExprView>, int)>
    decreases parse_rem(vt, i), 9int,
{
    if tok_at(vt, i) == Some(TokenView::LParTk) {
        if tok_at(vt, i + 1) == Some(TokenView::RParTk) {
            Some((Seq::empty(), i + 2))
        } else {
            spec_parse_call_args(vt, i + 1)
        }
    } else {
        None
    }
}

/// One or more call arguments, then the closing parenthesis.
pub open spec fn spec_parse_call_args(vt: Seq<TokenView>, i: int) -> Option<(Seq<ExprView>, int)>
    decreases parse_rem(vt, i), 8int,
{
    if i < 0 || i >= vt.len() {
        None
    } else {
        match spec_parse_expression(vt, i) {
            Err(_) => None,
            Ok((e, j)) => {
                match tok_at(vt, j) {
                    Some(TokenView::CommaTk) => {
                        match spec_parse_call_args(vt, step_from(i, j + 1, vt.len() as int)) {
                            Some((es, k)) => Some((seq![e] + es, k)),
                            None => None,
                        }
                    }
                    Some(TokenView::RParTk) => Some((seq![e], j + 1)),
                    _ => {
                        match spec_parse_call_args(vt, step_from(i, j, vt.len() as int)) {
                            Some((es, k)) => Some((seq![e] + es, k)),
                            None => None,
                        }
                    }
                }
            }
        }
    }
}

/// The left-associative continuation of a multiplicative chain:
/// zero or more `*`/`/` steps folded onto `acc`.
pub open spec fn spec_parse_mult_rest(vt: Seq<TokenView>, i: int, acc: ExprView) -> Option<(
    ExprView,
    int,
)>
    decreases parse_rem(vt, i), 1int,
{
    match tok_at(vt, i) {
        Some(TokenView::OpTk(Op::Times)) => {
            match spec_parse_primary(vt, i + 1) {
                Some((e, j)) => spec_parse_mult_rest(
                    vt,
                    step_from(i, j, vt.len() as int),
                    ExprView::BinaryE(Box::new(acc), Op::Times, Box::new(e)),
                ),
                None => None,
            }
        }
        Some(TokenView::OpTk(Op::Div)) => {
            match spec_parse_primary(vt, i + 1) {
                Some((e, j)) => spec_parse_mult_rest(
                    vt,
                    step_from(i, j, vt.len() as int),
                    ExprView::BinaryE(Box::new(acc), Op::Div, Box::new(e)),
                ),
                None => None,
            }
        }
        _ => Some((acc, i)),
    }
}

/// A multiplicative expression: a left-associative chain of `*`/`/`
/// over primary forms.
pub open spec fn spec_parse_multiplicative(vt: Seq<TokenView>, i: int) -> Option<(ExprView, int)>
    decreases parse_rem(vt, i), 2int,
{
    match spec_parse_primary(vt, i) {
        None => None,
        Some((e, j)) => {
            if i < vt.len() {
                spec_parse_mult_rest(vt, clamp_ge(i, j, vt.len() as int), e)
            } else {
                None
            }
        }
    }
}

/// The left-associative continuation of an additive chain: zero or
/// more `+`/`-` steps folded onto `acc`.
pub open spec fn spec_parse_add_rest(vt: Seq<TokenView>, i: int, acc: ExprView) -> Option<(
    ExprView,
    int,
)>
    decreases parse_rem(vt, i), 3int,
{
    match tok_at(vt, i) {
        Some(TokenView::OpTk(Op::Plus)) => {
            match spec_parse_multiplicative(vt, i + 1) {
                Some((e, j)) => spec_parse_add_rest(
                    vt,
                    step_from(i, j, vt.len() as int),
                    ExprView::BinaryE(Box::new(acc), Op::Plus, Box::new(e)),
                ),
                None => None,
            }
        }
        Some(TokenView::OpTk(Op::Minus)) => {
            match spec_parse_multiplicative(vt, i + 1) {
                Some((e, j)) => spec_parse_add_rest(
                    vt,
                    step_from(i, j, vt.len() as int),
                    ExprView::BinaryE(Box::new(acc), Op::Minus, Box::new(e)),
                ),
                None => None,
            }
        }
        _ => Some((acc, i)),
    }
}

/// An additive expression: a left-associative chain of `+`/`-` over
/// multiplicative expressions.
pub open spec fn spec_parse_additive(vt: Seq<TokenView>, i: int) -> Option<(ExprView, int)>
    decreases parse_rem(vt, i), 4int,
{
    match spec_parse_multiplicative(vt, i) {
        None => None,
        Some((e, j)) => {
            if i < vt.len() {
                spec_parse_add_rest(vt, clamp_ge(i, j, vt.len() as int), e)
            } else {
                None
            }
        }
    }
}

/// A comparison: two additive expressions around a comparison
/// operator, non-associative; or a bare additive expression.
pub open spec fn spec_parse_comparison(vt: Seq<TokenView>, i: int) -> Option<(ExprView, int)>
    decreases parse_rem(vt, i), 5int,
{
    match spec_parse_additive(vt, i) {
        None => None,
        Some((l, j)) => {
            match tok_at(vt, j) {
                Some(TokenView::CmpTk(op)) => {
                    match spec_parse_additive(vt, clamp_ge(i, j + 1, vt.len() as int)) {
                        Some((r, k)) => Some((
                            ExprView::CompareE(Box::new(l), op, Box::new(r)),
                            k,
                        )),
                        None => None,
                    }
                }
                _ => Some((l, j)),
            }
        }
    }
}

/// An assignment: an identifier, `=`, and a full expression.
pub open spec fn spec_parse_assignment(vt: Seq<TokenView>, i: int) -> Option<(ExprView, int)>
    decreases parse_rem(vt, i), 6int,
{
    match tok_at(vt, i) {
        Some(TokenView::IdentTk(name)) => {
            if tok_at(vt, i + 1) == Some(TokenView::EqTk) {
                match spec_parse_expression(vt, i + 2) {
                    Ok((e, j)) => Some((ExprView::AssignE(name, Box::new(e)), j)),
                    Err(_) => None,
                }
            } else {
                None
            }
        }
        _ => None,
    }
}

/// An expression: an assignment where one matches, otherwise a
/// comparison (which subsumes the arithmetic tiers and calls).
pub open spec fn spec_parse_expression(vt: Seq<TokenView>, i: int) -> Result<
    (ExprView, int),
    PErrView,
>
    decreases parse_rem(vt, i), 7int,
{
    match spec_parse_assignment(vt, i) {
        Some(r) => Ok(r),
        None => {
            match spec_parse_comparison(vt, i) {
                Some(r) => Ok(r),
                None => Err(PErrView::UnknownSyntaxV),
            }
        }
    }
}

// ---------------------------------------------------------------------------
// Statements
// ---------------------------------------------------------------------------

/// A compound statement: `{`, a statement list, `}`.
pub open spec fn spec_parse_compound(vt: Seq<TokenView>, i: int) -> Option<(StmtView, int)>
    decreases parse_rem(vt, i), 9int,
{
    if tok_at(vt, i) == Some(TokenView::LBraceTk) {
        let (ss, j) = spec_parse_stmt_seq(vt, i + 1);
        if tok_at(vt, j) == Some(TokenView::RBraceTk) {
            Some((StmtView::CompoundS(ss), j + 1))
        } else {
            None
        }
    } else {
        None
    }
}

/// One statement, tried in order: a conditional, a return, a loop, a
/// break, an expression statement with its mandatory semicolon, a
/// compound statement.
pub open spec fn spec_parse_one_statement(vt: Seq<TokenView>, i: int) -> Option<(StmtView, int)>
    decreases parse_rem(vt, i), 10int,
{
    let len = vt.len() as int;
    match tok_at(vt, i) {
        Some(TokenView::IfTk) => {
            if tok_at(vt, i + 1) == Some(TokenView::LParTk) {
                match spec_parse_expression(vt, i + 2) {
                    Ok((cond, j)) => {
                        if tok_at(vt, j) == Some(TokenView::RParTk) {
                            match spec_parse_compound(vt, clamp_ge(i, j + 1, len)) {
                                Some((body, k)) => {
                                    if tok_at(vt, k) == Some(TokenView::ElseTk) {
                                        match spec_parse_one_statement(
                                            vt,
                                            step_from(i, k + 1, len),
                                        ) {
                                            Some((els, m)) => Some((
                                                StmtView::IfS(
                                                    cond,
                                                    Box::new(body),
                                                    Some(Box::new(els)),
                                                ),
                                                m,
                                            )),
                                            None => None,
                                        }
                                    } else {
                                        Some((StmtView::IfS(cond, Box::new(body), None), k))
                                    }
                                }
                                None => None,
                            }
                        } else {
                            None
                        }
                    }
                    Err(_) => None,
                }
            } else {
                None
            }
        }
        Some(TokenView::ReturnTk) => {
            match spec_parse_expression(vt, i + 1) {
                Ok((e, j)) => {
                    if tok_at(vt, j) == Some(TokenView::SemiTk) {
                        Some((StmtView::ReturnS(e), j + 1))
                    } else {
                        Some((StmtView::ReturnS(e), j))
                    }
                }
                Err(_) => None,
            }
        }
        Some(TokenView::LoopTk) => {
            match spec_parse_compound(vt, i + 1) {
                Some((body, j)) => Some((StmtView::LoopS(Box::new(body)), j)),
                None => None,
            }
        }
        Some(TokenView::BreakTk) => {
            if tok_at(vt, i + 1) == Some(TokenView::SemiTk) {
                Some((StmtView::BreakS, i + 2))
            } else {
                Some((StmtView::BreakS, i + 1))
            }
        }
        _ => {
            match spec_parse_expression(vt, i) {
                Ok((e, j)) => {
                    if tok_at(vt, j) == Some(TokenView::SemiTk) {
                        Some((StmtView::SimpleS(e), j + 1))
                    } else {
                        spec_parse_compound(vt, i)
                    }
                }
                Err(_) => spec_parse_compound(vt, i),
            }
        }
    }
}

/// The maximal statement sequence from `i`: statements parsed until
/// none matches. Always yields the statements found and the position
/// after them.
pub open spec fn spec_parse_stmt_seq(vt: Seq<TokenView>, i: int) -> (Seq<StmtView>, int)
    decreases parse_rem(vt, i), 11int,
{
    if i < 0 || i >= vt.len() {
        (Seq::empty(), i)
    } else {
        match spec_parse_one_statement(vt, i) {
            None => (Seq::empty(), i),
            Some((s, j)) => {
                let (rest, m) = spec_parse_stmt_seq(vt, step_from(i, j, vt.len() as int));
                (seq![s] + rest, m)
            }
        }
    }
}

// ---------------------------------------------------------------------------
// Declarations and modules
// ---------------------------------------------------------------------------

/// The parameter names of a function declaration, after the opening
/// parenthesis: identifiers up to the closing parenthesis, commas
/// skipped; any other token is a malformed list; a list left open at
/// the end of the tokens yields the names found.
pub open spec fn spec_parse_fn_args_rest(vt: Seq<TokenView>, i: int) -> Result<
    (Seq<Seq<char>>, int),
    PErrView,
>
    decreases parse_rem(vt, i), 8int,
{
    match tok_at(vt, i) {
        None => Ok((Seq::empty(), i)),
        Some(TokenView::IdentTk(n)) => {
            match spec_parse_fn_args_rest(vt, i + 1) {
                Ok((ns, j)) => Ok((seq![n] + ns, j)),
                Err(e) => Err(e),
            }
        }
        Some(TokenView::RParTk) => Ok((Seq::empty(), i + 1)),
        Some(TokenView::CommaTk) => spec_parse_fn_args_rest(vt, i + 1),
        Some(_) => Err(PErrView::WrongArgListV),
    }
}

/// The parenthesized parameter list of a function declaration.
pub open spec fn spec_parse_fn_args(vt: Seq<TokenView>, i: int) -> Result<
    (Seq<Seq<char>>, int),
    PErrView,
>
    decreases parse_rem(vt, i), 9int,
{
    if tok_at(vt, i) == Some(TokenView::LParTk) {
        spec_parse_fn_args_rest(vt, i + 1)
    } else {
        Err(PErrView::ExpectedV("Expecting left par after function name"@))
    }
}

/// One function declaration: `fn`, a name, a parameter list, a
/// compound body. `Ok(None)` when no declaration starts here.
pub open spec fn spec_parse_one_function(vt: Seq<TokenView>, i: int) -> Result<
    Option<(DeclView, int)>,
    PErrView,
>
    decreases parse_rem(vt, i), 12int,
{
    if tok_at(vt, i) == Some(TokenView::FnTk) {
        match tok_at(vt, i + 1) {
            Some(TokenView::IdentTk(name)) => {
                match spec_parse_fn_args(vt, i + 2) {
                    Err(e) => Err(e),
                    Ok((params, j)) => {
                        match spec_parse_compound(vt, clamp_ge(i, j, vt.len() as int)) {
                            Some((body, k)) => Ok(Some((
                                DeclView::FunctionD(name, params, body),
                                k,
                            ))),
                            None => Err(PErrView::WrongBodyV),
                        }
                    }
                }
            }
            _ => Err(PErrView::ExpectedV("Expecting an indent after function declaration"@)),
        }
    } else {
        Ok(None)
    }
}

/// The declarations of a module: functions parsed until none matches
/// or one is malformed.
pub open spec fn spec_parse_module(vt: Seq<TokenView>, i: int) -> (Seq<DeclView>, int)
    decreases parse_rem(vt, i), 13int,
{
    if i < 0 || i >= vt.len() {
        (Seq::empty(), i)
    } else {
        match spec_parse_one_function(vt, i) {
            Ok(Some((d, j))) => {
                let (rest, m) = spec_parse_module(vt, step_from(i, j, vt.len() as int));
                (seq![d] + rest, m)
            }
            _ => (Seq::empty(), i),
        }
    }
}

/// A complete top-level expression: the whole token sequence must be
/// consumed.
pub open spec fn spec_parse_expression_all(vt: Seq<TokenView>) -> Result<ExprView, PErrView> {
    match spec_parse_expression(vt, 0) {
        Ok((e, j)) => {
            if j == vt.len() {
                Ok(e)
            } else {
                Err(PErrView::TokensNotParsedV)
            }
        }
        Err(e) => Err(e),
    }
}

} // verus!
