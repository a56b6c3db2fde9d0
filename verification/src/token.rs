//! The token and operator model: the closed set of lexical categories
//! consumed by parsing and evaluation, and the lexer that produces them.
//!
//! The lexer is specified by `spec_tokenize_at`, a specification-level
//! scanner over the character sequence of the input; `tokenize` is proved
//! to return exactly the tokens (or the failing character) that the
//! specification names.

use vstd::prelude::*;
use vstd::wrapping::u64_specs;
use crate::error::TokenError;

verus! {

/// An arithmetic operator.
#[derive(Debug, Clone, Copy, PartialEq, Eq)]
pub enum Op {
    Plus,
    Minus,
    Times,
    Div,
}

/// A comparison operator.
#[derive(Debug, Clone, Copy, PartialEq, Eq)]
pub enum Comp {
    Equal,
    Lower,
    LowerEq,
    Higher,
    HigherEq,
}

/// One lexical unit of the source language.
#[derive(Debug, Clone, PartialEq, Eq)]
pub enum Token {
    TokenOp(Op),
    TokenComp(Comp),
    Ident(String),
    Integer(i64),
    String(String),
    Equal,
    LPar,
    RPar,
    LBrace,
    RBrace,
    LBracket,
    RBracket,
    SemiColon,
    Comma,
    Return,
    Fn,
    If,
    Else,
    True,
    False,
    Loop,
    Break,
}

/// The mathematical image of a token: identifier and string payloads
/// become character sequences.
pub enum TokenView {
    OpTk(Op),
    CmpTk(Comp),
    IdentTk(Seq<char>),
    IntTk(i64),
    TextTk(Seq<char>),
    EqTk,
    LParTk,
    RParTk,
    LBraceTk,
    RBraceTk,
    LBracketTk,
    RBracketTk,
    SemiTk,
    CommaTk,
    ReturnTk,
    FnTk,
    IfTk,
    ElseTk,
    TrueTk,
    FalseTk,
    LoopTk,
    BreakTk,
}

impl View for Token {
    type V = TokenView;

    open spec fn view(&self) -> TokenView {
        match self {
            Token::TokenOp(op) => TokenView::OpTk(*op),
            Token::TokenComp(c) => TokenView::CmpTk(*c),
            Token::Ident(s) => TokenView::IdentTk(s@),
            Token::Integer(i) => TokenView::IntTk(*i),
            Token::String(s) => TokenView::TextTk(s@),
            Token::Equal => TokenView::EqTk,
            Token::LPar => TokenView::LParTk,
            Token::RPar => TokenView::RParTk,
            Token::LBrace => TokenView::LBraceTk,
            Token::RBrace => TokenView::RBraceTk,
            Token::LBracket => TokenView::LBracketTk,
            Token::RBracket => TokenView::RBracketTk,
            Token::SemiColon => TokenView::SemiTk,
            Token::Comma => TokenView::CommaTk,
            Token::Return => TokenView::ReturnTk,
            Token::Fn => TokenView::FnTk,
            Token::If => TokenView::IfTk,
            Token::Else => TokenView::ElseTk,
            Token::True => TokenView::TrueTk,
            Token::False => TokenView::FalseTk,
            Token::Loop => TokenView::LoopTk,
            Token::Break => TokenView::BreakTk,
        }
    }
}

/// The views of a whole token sequence.
pub open spec fn token_views(ts: Seq<Token>) -> Seq<TokenView> {
    ts.map_values(|t: Token| t@)
}

// ---------------------------------------------------------------------------
// Character classes
// ---------------------------------------------------------------------------

/// Whether a character has the Unicode `Alphabetic` property.
pub uninterp spec fn alphabetic(c: char) -> bool;

/// Whether a character is Unicode alphanumeric.
pub uninterp spec fn alphanumeric(c: char) -> bool;

/// Relies on `char::is_alphabetic`: whether the character has the Unicode
/// `Alphabetic` property, a function of the character alone.
#[verifier::external_body]
fn char_is_alphabetic(c: char) -> (r: bool)
    ensures
        r == alphabetic(c),
{
    c.is_alphabetic()
}

/// Relies on `char::is_alphanumeric`: whether the character is Unicode
/// alphanumeric, a function of the character alone.
#[verifier::external_body]
fn char_is_alphanumeric(c: char) -> (r: bool)
    ensures
        r == alphanumeric(c),
{
    c.is_alphanumeric()
}

/// Whether a character is an ASCII decimal digit.
pub open spec fn is_digit_char(c: char) -> bool {
    48 <= c as u32 <= 57
}

/// A character that may start a word (keyword or identifier).
pub open spec fn is_word_start(c: char) -> bool {
    alphabetic(c) || c == '_'
}

/// A character that may continue a word.
pub open spec fn is_word_char(c: char) -> bool {
    alphanumeric(c) || c == '_'
}

/// The value of an ASCII decimal digit, and zero on any other character.
pub open spec fn digit_val_u64(c: char) -> u64 {
    if is_digit_char(c) {
        (c as u32 - 48) as u64
    } else {
        0
    }
}

fn char_is_digit(c: char) -> (r: bool)
    ensures
        r == is_digit_char(c),
{
    let u = c as u32;
    48 <= u && u <= 57
}

fn char_is_word_start(c: char) -> (r: bool)
    ensures
        r == is_word_start(c),
{
    char_is_alphabetic(c) || c == '_'
}

fn char_is_word(c: char) -> (r: bool)
    ensures
        r == is_word_char(c),
{
    char_is_alphanumeric(c) || c == '_'
}

// ---------------------------------------------------------------------------
// Specification-level scanning helpers
// ---------------------------------------------------------------------------

/// How many positions remain to scan from `i`.
pub open spec fn remaining(cs: Seq<char>, i: int) -> int {
    if i <= cs.len() {
        cs.len() - i
    } else {
        0
    }
}

/// The length of the run of ASCII digits starting at `i`.
pub open spec fn scan_digits(cs: Seq<char>, i: int) -> nat
    decreases remaining(cs, i),
{
    if 0 <= i < cs.len() && is_digit_char(cs[i]) {
        1 + scan_digits(cs, i + 1)
    } else {
        0
    }
}

/// The length of the run of word characters starting at `i`.
pub open spec fn scan_word(cs: Seq<char>, i: int) -> nat
    decreases remaining(cs, i),
{
    if 0 <= i < cs.len() && is_word_char(cs[i]) {
        1 + scan_word(cs, i + 1)
    } else {
        0
    }
}

/// The number of characters strictly before the next double quote at or
/// after `i`, or `None` when the input ends first.
pub open spec fn quote_scan(cs: Seq<char>, i: int) -> Option<nat>
    decreases remaining(cs, i),
{
    if i < 0 || i >= cs.len() {
        None
    } else if cs[i] == '"' {
        Some(0nat)
    } else {
        match quote_scan(cs, i + 1) {
            Some(n) => Some((n + 1) as nat),
            None => None,
        }
    }
}

/// The number of characters strictly before the next newline at or after
/// `i`, or `None` when the input ends first.
pub open spec fn line_scan(cs: Seq<char>, i: int) -> Option<nat>
    decreases remaining(cs, i),
{
    if i < 0 || i >= cs.len() {
        None
    } else if cs[i] == '\n' {
        Some(0nat)
    } else {
        match line_scan(cs, i + 1) {
            Some(n) => Some((n + 1) as nat),
            None => None,
        }
    }
}

/// Left-to-right decimal accumulation of `n` characters starting at `i`,
/// with wrapping 64-bit arithmetic.
pub open spec fn digits_acc(cs: Seq<char>, i: int, n: nat, acc: u64) -> u64
    decreases n,
{
    if n == 0 {
        acc
    } else {
        digits_acc(
            cs,
            i + 1,
            (n - 1) as nat,
            u64_specs::wrapping_add(u64_specs::wrapping_mul(acc, 10), digit_val_u64(cs[i])),
        )
    }
}

/// Reinterpretation of a 64-bit accumulator as a signed integer literal.
pub open spec fn u64_wrap_to_i64(x: u64) -> i64 {
    if x <= 0x7fff_ffff_ffff_ffff {
        x as i64
    } else {
        (x - 0x1_0000_0000_0000_0000) as i64
    }
}

/// The token a completed word denotes: a keyword where it matches the
/// keyword table, an identifier otherwise.
pub open spec fn word_token(w: Seq<char>) -> TokenView {
    if w == "return"@ {
        TokenView::ReturnTk
    } else if w == "fn"@ {
        TokenView::FnTk
    } else if w == "if"@ {
        TokenView::IfTk
    } else if w == "else"@ {
        TokenView::ElseTk
    } else if w == "true"@ {
        TokenView::TrueTk
    } else if w == "false"@ {
        TokenView::FalseTk
    } else if w == "loop"@ {
        TokenView::LoopTk
    } else if w == "break"@ {
        TokenView::BreakTk
    } else {
        TokenView::IdentTk(w)
    }
}

/// Prepends one token to a scan result, keeping a failure as it is.
pub open spec fn prepend_tok(
    t: TokenView,
    r: Result<Seq<TokenView>, char>,
) -> Result<Seq<TokenView>, char> {
    match r {
        Ok(ts) => Ok(seq![t] + ts),
        Err(c) => Err(c),
    }
}

/// The tokens of `cs` from position `i` on, scanned greedily left to
/// right, or the first unrecognized character.
///
/// The scanning rules: a digit starts a maximal digit run read as a
/// decimal literal; a letter or underscore starts a maximal word matched
/// against the keyword table; a double quote starts a string literal that
/// runs to the next double quote (an unterminated literal ends the scan
/// with the tokens found so far, contributing none); `//` starts a
/// comment through the next newline; `==`, `<=` and `>=` are read before
/// `=`, `<` and `>`; the remaining single characters map to punctuation
/// and operator tokens; whitespace separates tokens.
pub open spec fn spec_tokenize_at(cs: Seq<char>, i: int) -> Result<Seq<TokenView>, char>
    decreases remaining(cs, i),
{
    if i < 0 || i >= cs.len() {
        Ok(Seq::empty())
    } else {
        let c = cs[i];
        if is_digit_char(c) {
            let n = scan_digits(cs, i + 1);
            let v = digits_acc(cs, i, (1 + n) as nat, 0);
            prepend_tok(TokenView::IntTk(u64_wrap_to_i64(v)), spec_tokenize_at(cs, i + 1 + n))
        } else if is_word_start(c) {
            let n = scan_word(cs, i + 1);
            prepend_tok(word_token(cs.subrange(i, i + 1 + n)), spec_tokenize_at(cs, i + 1 + n))
        } else if c == '"' {
            match quote_scan(cs, i + 1) {
                Some(n) => prepend_tok(
                    TokenView::TextTk(cs.subrange(i + 1, i + 1 + n)),
                    spec_tokenize_at(cs, i + n + 2),
                ),
                None => Ok(Seq::empty()),
            }
        } else if c == '/' && i + 1 < cs.len() && cs[i + 1] == '/' {
            match line_scan(cs, i + 2) {
                Some(n) => spec_tokenize_at(cs, i + n + 3),
                None => Ok(Seq::empty()),
            }
        } else if c == '=' {
            if i + 1 < cs.len() && cs[i + 1] == '=' {
                prepend_tok(TokenView::CmpTk(Comp::Equal), spec_tokenize_at(cs, i + 2))
            } else {
                prepend_tok(TokenView::EqTk, spec_tokenize_at(cs, i + 1))
            }
        } else if c == '<' {
            if i + 1 < cs.len() && cs[i + 1] == '=' {
                prepend_tok(TokenView::CmpTk(Comp::LowerEq), spec_tokenize_at(cs, i + 2))
            } else {
                prepend_tok(TokenView::CmpTk(Comp::Lower), spec_tokenize_at(cs, i + 1))
            }
        } else if c == '>' {
            if i + 1 < cs.len() && cs[i + 1] == '=' {
                prepend_tok(TokenView::CmpTk(Comp::HigherEq), spec_tokenize_at(cs, i + 2))
            } else {
                prepend_tok(TokenView::CmpTk(Comp::Higher), spec_tokenize_at(cs, i + 1))
            }
        } else if c == '+' {
            prepend_tok(TokenView::OpTk(Op::Plus), spec_tokenize_at(cs, i + 1))
        } else if c == '-' {
            prepend_tok(TokenView::OpTk(Op::Minus), spec_tokenize_at(cs, i + 1))
        } else if c == '*' {
            prepend_tok(TokenView::OpTk(Op::Times), spec_tokenize_at(cs, i + 1))
        } else if c == '/' {
            prepend_tok(TokenView::OpTk(Op::Div), spec_tokenize_at(cs, i + 1))
        } else if c == '(' {
            prepend_tok(TokenView::LParTk, spec_tokenize_at(cs, i + 1))
        } else if c == ')' {
            prepend_tok(TokenView::RParTk, spec_tokenize_at(cs, i + 1))
        } else if c == '{' {
            prepend_tok(TokenView::LBraceTk, spec_tokenize_at(cs, i + 1))
        } else if c == '}' {
            prepend_tok(TokenView::RBraceTk, spec_tokenize_at(cs, i + 1))
        } else if c == '[' {
            prepend_tok(TokenView::LBracketTk, spec_tokenize_at(cs, i + 1))
        } else if c == ']' {
            prepend_tok(TokenView::RBracketTk, spec_tokenize_at(cs, i + 1))
        } else if c == ';' {
            prepend_tok(TokenView::SemiTk, spec_tokenize_at(cs, i + 1))
        } else if c == ',' {
            prepend_tok(TokenView::CommaTk, spec_tokenize_at(cs, i + 1))
        } else if c == ' ' || c == '\r' || c == '\t' || c == '\n' {
            spec_tokenize_at(cs, i + 1)
        } else {
            Err(c)
        }
    }
}

/// The lexing of a whole input.
pub open spec fn spec_tokenize(cs: Seq<char>) -> Result<Seq<TokenView>, char> {
    spec_tokenize_at(cs, 0)
}

// ---------------------------------------------------------------------------
// Executable scanning helpers
// ---------------------------------------------------------------------------

fn scan_digits_run(cs: &Vec<char>, start: usize) -> (n: usize)
    requires
        start <= cs.len(),
    ensures
        n as nat == scan_digits(cs@, start as int),
        start + n <= cs.len(),
{
    let mut j = start;
    while j < cs.len() && 48 <= cs[j] as u32 && cs[j] as u32 <= 57
        invariant
            start <= j <= cs.len(),
            scan_digits(cs@, start as int) == j - start + scan_digits(cs@, j as int),
        decreases cs.len() - j,
    {
        j = j + 1;
    }
    assert(scan_digits(cs@, j as int) == 0);
    j - start
}

fn scan_word_run(cs: &Vec<char>, start: usize) -> (n: usize)
    requires
        start <= cs.len(),
    ensures
        n as nat == scan_word(cs@, start as int),
        start + n <= cs.len(),
{
    let mut j = start;
    loop
        invariant
            start <= j <= cs.len(),
            scan_word(cs@, start as int) == j - start + scan_word(cs@, j as int),
        ensures
            start <= j <= cs.len(),
            scan_word(cs@, start as int) == j - start,
        decreases cs.len() - j,
    {
        if j == cs.len() {
            assert(scan_word(cs@, j as int) == 0);
            break;
        }
        let c = cs[j];
        if !char_is_word(c) {
            assert(scan_word(cs@, j as int) == 0);
            break;
        }
        j = j + 1;
    }
    j - start
}

fn quote_scan_run(cs: &Vec<char>, start: usize) -> (r: Option<usize>)
    requires
        start <= cs.len(),
    ensures
        match r {
            Some(n) => quote_scan(cs@, start as int) == Some(n as nat) && start + n < cs.len(),
            None => quote_scan(cs@, start as int) is None,
        },
{
    let mut j = start;
    loop
        invariant
            start <= j <= cs.len(),
            quote_scan(cs@, start as int) == match quote_scan(cs@, j as int) {
                Some(n) => Some((n + j - start) as nat),
                None => None::<nat>,
            },
        decreases cs.len() - j,
    {
        if j == cs.len() {
            return None;
        }
        if cs[j] == '"' {
            return Some(j - start);
        }
        j = j + 1;
    }
}

fn line_scan_run(cs: &Vec<char>, start: usize) -> (r: Option<usize>)
    requires
        start <= cs.len(),
    ensures
        match r {
            Some(n) => line_scan(cs@, start as int) == Some(n as nat) && start + n < cs.len(),
            None => line_scan(cs@, start as int) is None,
        },
{
    let mut j = start;
    loop
        invariant
            start <= j <= cs.len(),
            line_scan(cs@, start as int) == match line_scan(cs@, j as int) {
                Some(n) => Some((n + j - start) as nat),
                None => None::<nat>,
            },
        decreases cs.len() - j,
    {
        if j == cs.len() {
            return None;
        }
        if cs[j] == '\n' {
            return Some(j - start);
        }
        j = j + 1;
    }
}

fn digits_acc_run(cs: &Vec<char>, start: usize, n: usize, acc0: u64) -> (v: u64)
    requires
        start + n <= cs.len(),
    ensures
        v == digits_acc(cs@, start as int, n as nat, acc0),
{
    let mut acc = acc0;
    let mut k: usize = 0;
    while k < n
        invariant
            k <= n,
            start + n <= cs.len(),
            digits_acc(cs@, start as int, n as nat, acc0) == digits_acc(
                cs@,
                start + k,
                (n - k) as nat,
                acc,
            ),
        decreases n - k,
    {
        let u = cs[start + k] as u32;
        let d: u64 = if 48 <= u && u <= 57 {
            (u - 48) as u64
        } else {
            0
        };
        acc = acc.wrapping_mul(10).wrapping_add(d);
        k = k + 1;
    }
    acc
}

fn wrap_to_signed(x: u64) -> (r: i64)
    ensures
        r == u64_wrap_to_i64(x),
{
    if x <= 0x7fff_ffff_ffff_ffff {
        x as i64
    } else {
        let d = u64::MAX - x;
        -(d as i64) - 1
    }
}

/// Relies on `Iterator::collect` for `String`: builds the `String`
/// holding exactly the given characters in order.
#[verifier::external_body]
fn string_from_chars(v: &Vec<char>) -> (r: String)
    ensures
        r@ == v@,
{
    v.iter().collect()
}

fn word_to_token(w: String) -> (t: Token)
    ensures
        t@ == word_token(w@),
{
    if w == String::from_str("return") {
        Token::Return
    } else if w == String::from_str("fn") {
        Token::Fn
    } else if w == String::from_str("if") {
        Token::If
    } else if w == String::from_str("else") {
        Token::Else
    } else if w == String::from_str("true") {
        Token::True
    } else if w == String::from_str("false") {
        Token::False
    } else if w == String::from_str("loop") {
        Token::Loop
    } else if w == String::from_str("break") {
        Token::Break
    } else {
        Token::Ident(w)
    }
}

fn copy_range(cs: &Vec<char>, start: usize, end: usize) -> (r: Vec<char>)
    requires
        start <= end <= cs.len(),
    ensures
        r@ == cs@.subrange(start as int, end as int),
{
    let mut out: Vec<char> = Vec::new();
    let mut k = start;
    while k < end
        invariant
            start <= k <= end <= cs.len(),
            out@ == cs@.subrange(start as int, k as int),
        decreases end - k,
    {
        out.push(cs[k]);
        assert(out@ =~= cs@.subrange(start as int, k + 1));
        k = k + 1;
    }
    out
}

// ---------------------------------------------------------------------------
// The lexer
// ---------------------------------------------------------------------------

fn lex_chars(cs: &Vec<char>) -> (r: Result<Vec<Token>, TokenError>)
    ensures
        match r {
            Ok(ts) => spec_tokenize(cs@) == Ok::<_, char>(token_views(ts@)),
            Err(TokenError::UnknownChar(c)) => spec_tokenize(cs@) == Err::<Seq<TokenView>, _>(c),
        },
{
    let mut toks: Vec<Token> = Vec::new();
    let mut i: usize = 0;
    loop
        invariant
            i <= cs.len(),
            spec_tokenize(cs@) == prepend_tok_seq(token_views(toks@), spec_tokenize_at(cs@, i as int)),
        decreases cs.len() - i,
    {
        if i == cs.len() {
            assert(spec_tokenize_at(cs@, i as int) == Ok::<_, char>(Seq::<TokenView>::empty()));
            assert(token_views(toks@) + Seq::<TokenView>::empty() =~= token_views(toks@));
            return Ok(toks);
        }
        let c = cs[i];
        let ghost prev = toks@;
        if char_is_digit(c) {
            let n = scan_digits_run(cs, i + 1);
            let v = digits_acc_run(cs, i, 1 + n, 0);
            let tok = Token::Integer(wrap_to_signed(v));
            let ni = i + 1 + n;
            toks.push(tok);
            proof {
                assert(spec_tokenize_at(cs@, i as int) == prepend_tok(
                    tok@,
                    spec_tokenize_at(cs@, ni as int),
                ));
                lemma_views_push(prev, tok);
                lemma_prepend_assoc(token_views(prev), tok@, spec_tokenize_at(cs@, ni as int));
            }
            i = ni;
        } else if char_is_word_start(c) {
            let n = scan_word_run(cs, i + 1);
            let sub = copy_range(cs, i, i + 1 + n);
            let word = string_from_chars(&sub);
            let tok = word_to_token(word);
            let ni = i + 1 + n;
            toks.push(tok);
            proof {
                assert(spec_tokenize_at(cs@, i as int) == prepend_tok(
                    tok@,
                    spec_tokenize_at(cs@, ni as int),
                ));
                lemma_views_push(prev, tok);
                lemma_prepend_assoc(token_views(prev), tok@, spec_tokenize_at(cs@, ni as int));
            }
            i = ni;
        } else if c == '"' {
            match quote_scan_run(cs, i + 1) {
                Some(n) => {
                    let sub = copy_range(cs, i + 1, i + 1 + n);
                    let text = string_from_chars(&sub);
                    let tok = Token::String(text);
                    let ni = i + n + 2;
                    toks.push(tok);
                    proof {
                        assert(spec_tokenize_at(cs@, i as int) == prepend_tok(
                            tok@,
                            spec_tokenize_at(cs@, ni as int),
                        ));
                        lemma_views_push(prev, tok);
                        lemma_prepend_assoc(
                            token_views(prev),
                            tok@,
                            spec_tokenize_at(cs@, ni as int),
                        );
                    }
                    i = ni;
                }
                None => {
                    assert(spec_tokenize_at(cs@, i as int) == Ok::<_, char>(
                        Seq::<TokenView>::empty(),
                    ));
                    assert(token_views(toks@) + Seq::<TokenView>::empty() =~= token_views(toks@));
                    return Ok(toks);
                }
            }
        } else if c == '/' && i + 1 < cs.len() && cs[i + 1] == '/' {
            match line_scan_run(cs, i + 2) {
                Some(n) => {
                    assert(spec_tokenize_at(cs@, i as int) == spec_tokenize_at(
                        cs@,
                        i + n + 3,
                    ));
                    i = i + n + 3;
                }
                None => {
                    assert(spec_tokenize_at(cs@, i as int) == Ok::<_, char>(
                        Seq::<TokenView>::empty(),
                    ));
                    assert(token_views(toks@) + Seq::<TokenView>::empty() =~= token_views(toks@));
                    return Ok(toks);
                }
            }
        } else if c == ' ' || c == '\r' || c == '\t' || c == '\n' {
            assert(spec_tokenize_at(cs@, i as int) == spec_tokenize_at(cs@, i + 1));
            i = i + 1;
        } else {
            let two = if c == '=' || c == '<' || c == '>' {
                i + 1 < cs.len() && cs[i + 1] == '='
            } else {
                false
            };
            let tok = match c {
                '=' => if two {
                    Token::TokenComp(Comp::Equal)
                } else {
                    Token::Equal
                },
                '<' => if two {
                    Token::TokenComp(Comp::LowerEq)
                } else {
                    Token::TokenComp(Comp::Lower)
                },
                '>' => if two {
                    Token::TokenComp(Comp::HigherEq)
                } else {
                    Token::TokenComp(Comp::Higher)
                },
                '+' => Token::TokenOp(Op::Plus),
                '-' => Token::TokenOp(Op::Minus),
                '*' => Token::TokenOp(Op::Times),
                '/' => Token::TokenOp(Op::Div),
                '(' => Token::LPar,
                ')' => Token::RPar,
                '{' => Token::LBrace,
                '}' => Token::RBrace,
                '[' => Token::LBracket,
                ']' => Token::RBracket,
                ';' => Token::SemiColon,
                ',' => Token::Comma,
                _ => {
                    assert(spec_tokenize_at(cs@, i as int) == Err::<Seq<TokenView>, _>(c));
                    return Err(TokenError::UnknownChar(c));
                }
            };
            let ni = if two {
                i + 2
            } else {
                i + 1
            };
            toks.push(tok);
            proof {
                assert(spec_tokenize_at(cs@, i as int) == prepend_tok(
                    tok@,
                    spec_tokenize_at(cs@, ni as int),
                ));
                lemma_views_push(prev, tok);
                lemma_prepend_assoc(token_views(prev), tok@, spec_tokenize_at(cs@, ni as int));
            }
            i = ni;
        }
    }
}

/// Prepends an already-scanned prefix to a scan result.
pub open spec fn prepend_tok_seq(
    ts: Seq<TokenView>,
    r: Result<Seq<TokenView>, char>,
) -> Result<Seq<TokenView>, char> {
    match r {
        Ok(rest) => Ok(ts + rest),
        Err(c) => Err(c),
    }
}

proof fn lemma_views_push(ts: Seq<Token>, t: Token)
    ensures
        token_views(ts.push(t)) =~= token_views(ts).push(t@),
{
}

proof fn lemma_prepend_assoc(prev: Seq<TokenView>, t: TokenView, r: Result<Seq<TokenView>, char>)
    ensures
        prepend_tok_seq(prev, prepend_tok(t, r)) == prepend_tok_seq(prev.push(t), r),
{
    match r {
        Ok(ts) => {
            assert(prev + (seq![t] + ts) =~= prev.push(t) + ts);
        }
        Err(_) => {}
    }
}

/// Converts a text buffer into its ordered token sequence, or fails with
/// the first unrecognized character.
pub fn tokenize(input: &String) -> (r: Result<Vec<Token>, TokenError>)
    ensures
        match r {
            Ok(ts) => spec_tokenize(input@) == Ok::<_, char>(token_views(ts@)),
            Err(TokenError::UnknownChar(c)) => spec_tokenize(input@) == Err::<Seq<TokenView>, _>(c),
        },
{
    let s = input.as_str();
    let len = s.unicode_len();
    let mut cs: Vec<char> = Vec::new();
    let mut k: usize = 0;
    while k < len
        invariant
            k <= len,
            len == s@.len(),
            s@ == input@,
            cs@ == s@.subrange(0, k as int),
        decreases len - k,
    {
        cs.push(s.get_char(k));
        assert(cs@ =~= s@.subrange(0, k + 1));
        k = k + 1;
    }
    assert(cs@ =~= input@);
    lex_chars(&cs)
}

} // verus!
