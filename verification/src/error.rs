//! Error kinds, by layer: lexing, parsing, evaluation.

use vstd::prelude::*;

verus! {

/// A failure while evaluating an expression or statement.
#[derive(Debug, PartialEq, Eq)]
pub enum EvalError {
    /// A type error or other described failure.
    Error(&'static str),
    /// A reference to a name that is not bound in the environment.
    UnknownVariable(String),
    /// The ordered causes collected when both operands of a binary
    /// expression fail independently.
    MultipleError(Vec<EvalError>),
}

/// The mathematical image of an evaluation error.
pub enum ErrView {
    /// A described failure, by its message.
    MsgE(Seq<char>),
    /// An unknown variable, by its name.
    UnknownVarE(Seq<char>),
    /// An aggregated error, by its ordered causes.
    MultiE(Seq<ErrView>),
}

/// The views of a sequence of evaluation errors.
pub open spec fn err_views(es: Seq<EvalError>) -> Seq<ErrView>
    decreases es,
{
    Seq::new(es.len(), |k: int| if 0 <= k < es.len() { es[k]@ } else { ErrView::MsgE(Seq::empty()) })
}

impl View for EvalError {
    type V = ErrView;

    open spec fn view(&self) -> ErrView
        decreases self,
    {
        match self {
            EvalError::Error(m) => ErrView::MsgE(m@),
            EvalError::UnknownVariable(n) => ErrView::UnknownVarE(n@),
            EvalError::MultipleError(es) => ErrView::MultiE(err_views(es@)),
        }
    }
}

/// A failure while converting text into tokens.
#[derive(Debug, PartialEq, Eq)]
pub enum TokenError {
    /// An unrecognized character.
    UnknownChar(char),
}

/// The mathematical image of a parse error.
pub enum PErrView {
    UnknownSyntaxV,
    TokensNotParsedV,
    ExpectedV(Seq<char>),
    WrongArgListV,
    WrongBodyV,
}

/// A failure while parsing a token sequence.
#[derive(Debug, PartialEq, Eq)]
pub enum ParserError {
    /// No grammar alternative matched.
    UnknownSyntax,
    /// Tokens remain after a complete top-level parse.
    TokensNotParsed,
    /// A specific token was expected.
    ExpectedDifferentToken(&'static str),
    /// A malformed parameter list in a function declaration.
    WrongFunctionArgumentList,
    /// A function declaration without a brace-delimited body.
    WrongFunctionBody,
}

impl View for ParserError {
    type V = PErrView;

    open spec fn view(&self) -> PErrView {
        match self {
            ParserError::UnknownSyntax => PErrView::UnknownSyntaxV,
            ParserError::TokensNotParsed => PErrView::TokensNotParsedV,
            ParserError::ExpectedDifferentToken(m) => PErrView::ExpectedV(m@),
            ParserError::WrongFunctionArgumentList => PErrView::WrongArgListV,
            ParserError::WrongFunctionBody => PErrView::WrongBodyV,
        }
    }
}

} // verus!
