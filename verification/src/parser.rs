//! The recursive-descent, backtracking parser: it consumes the token
//! sequence through a cursor and builds AST nodes, enforcing operator
//! precedence and grammar shape. Every parsing method is proved to
//! return exactly what the grammar functions name at its cursor
//! position: the parsed form and the position after it on success, and
//! a restored cursor on failure.

use vstd::prelude::*;
use crate::ast::declaration::{arg_views, decl_views, Declaration, FnArg};
use crate::ast::expression::{expr_views, Expr, ExprView, Value};
use crate::ast::statement::{stmt_views, Statement, StmtView};
use crate::error::{PErrView, ParserError};
use crate::grammar::{
    parse_rem, spec_parse_additive, spec_parse_add_rest, spec_parse_assignment,
    spec_parse_call_arglist, spec_parse_call_args, spec_parse_comparison, spec_parse_compound,
    spec_parse_expression, spec_parse_expression_all, spec_parse_fn_args, spec_parse_fn_args_rest,
    spec_parse_list_elems, spec_parse_module, spec_parse_mult_rest, spec_parse_multiplicative,
    spec_parse_one_function, spec_parse_one_statement, spec_parse_primary, spec_parse_stmt_seq,
};
use crate::module::Module;
use crate::token::{token_views, Comp, Op, Token, TokenView};

verus! {

/// Prepends already-parsed expressions to an argument-list result.
pub open spec fn prepend_exprs(
    vs: Seq<ExprView>,
    r: Option<(Seq<ExprView>, int)>,
) -> Option<(Seq<ExprView>, int)> {
    match r {
        Some((es, k)) => Some((vs + es, k)),
        None => None,
    }
}

/// Prepends already-parsed parameter names to a parameter-list result.
pub open spec fn prepend_names(
    vs: Seq<Seq<char>>,
    r: Result<(Seq<Seq<char>>, int), PErrView>,
) -> Result<(Seq<Seq<char>>, int), PErrView> {
    match r {
        Ok((ns, k)) => Ok((vs + ns, k)),
        Err(e) => Err(e),
    }
}

/// The cursor into the token sequence, with explicit save and restore
/// for backtracking.
pub struct Parser<'a> {
    tokens: &'a Vec<Token>,
    index: usize,
}

impl<'a> Parser<'a> {
    /// The views of the tokens being parsed.
    pub closed spec fn toks(&self) -> Seq<TokenView> {
        token_views(self.tokens@)
    }

    /// The cursor position.
    pub closed spec fn idx(&self) -> int {
        self.index as int
    }

    /// A parser at the start of the given token sequence.
    pub fn new(tokens: &'a Vec<Token>) -> (r: Self)
        ensures
            r.toks() == token_views(tokens@),
            r.idx() == 0,
    {
        Self { tokens, index: 0 }
    }

    /// Moves the cursor, restoring a saved position.
    fn set_index(&mut self, index: usize)
        ensures
            final(self).toks() == old(self).toks(),
            final(self).idx() == index,
    {
        self.index = index;
    }

    /// Whether the whole token sequence has been consumed.
    fn is_finished(&self) -> (r: bool)
        ensures
            r == (self.idx() == self.toks().len()),
    {
        self.index == self.tokens.len()
    }

    /// An expression: an assignment where one matches, otherwise a
    /// comparison, which subsumes the arithmetic tiers and calls.
    pub fn parse_expression(&mut self) -> (r: Result<Expr, ParserError>)
        ensures
            final(self).toks() == old(self).toks(),
            match r {
                Ok(e) => spec_parse_expression(old(self).toks(), old(self).idx()) == Ok::<
                    _,
                    PErrView,
                >((e@, final(self).idx())) && old(self).idx() < final(self).idx() <= old(self).toks().len(),
                Err(e) => spec_parse_expression(old(self).toks(), old(self).idx()) == Err::<
                    (ExprView, int),
                    _,
                >(e@) && final(self).idx() == old(self).idx(),
            },
        decreases parse_rem(self.toks(), self.idx()), 7int,
    {
        match self.parse_assignment_expr() {
            Some(e) => Ok(e),
            None => {
                match self.parse_comparison_expr() {
                    Some(e) => Ok(e),
                    None => Err(ParserError::UnknownSyntax),
                }
            }
        }
    }

    /// An assignment: an identifier, `=`, and a full expression.
    fn parse_assignment_expr(&mut self) -> (r: Option<Expr>)
        ensures
            final(self).toks() == old(self).toks(),
            match r {
                Some(e) => spec_parse_assignment(old(self).toks(), old(self).idx()) == Some((
                    e@,
                    final(self).idx(),
                )) && old(self).idx() < final(self).idx() <= old(self).toks().len(),
                None => spec_parse_assignment(old(self).toks(), old(self).idx()) is None && final(self).idx() == old(self).idx(),
            },
        decreases parse_rem(self.toks(), self.idx()), 6int,
    {
        let checkpoint = self.index;
        if checkpoint < self.tokens.len() {
            let name_opt: Option<String> = match &self.tokens[checkpoint] {
                Token::Ident(name) => Some(name.clone()),
                _ => None,
            };
            if let Some(name) = name_opt {
                if checkpoint + 1 < self.tokens.len() && matches!(
                    &self.tokens[checkpoint + 1],
                    Token::Equal
                ) {
                    self.index = checkpoint + 2;
                    match self.parse_expression() {
                        Ok(e) => {
                            return Some(Expr::AssignmentExpr(name, Box::new(e)));
                        }
                        Err(_) => {
                            self.set_index(checkpoint);
                            return None;
                        }
                    }
                }
            }
        }
        None
    }

    /// A comparison: two additive expressions around a comparison
    /// operator, non-associative; or a bare additive expression.
    fn parse_comparison_expr(&mut self) -> (r: Option<Expr>)
        ensures
            final(self).toks() == old(self).toks(),
            match r {
                Some(e) => spec_parse_comparison(old(self).toks(), old(self).idx()) == Some((
                    e@,
                    final(self).idx(),
                )) && old(self).idx() < final(self).idx() <= old(self).toks().len(),
                None => spec_parse_comparison(old(self).toks(), old(self).idx()) is None && final(self).idx() == old(self).idx(),
            },
        decreases parse_rem(self.toks(), self.idx()), 5int,
    {
        let checkpoint = self.index;
        match self.parse_additive_expr() {
            None => None,
            Some(l) => {
                let j = self.index;
                let op_opt: Option<Comp> = if j < self.tokens.len() {
                    match &self.tokens[j] {
                        Token::TokenComp(c) => Some(*c),
                        _ => None,
                    }
                } else {
                    None
                };
                match op_opt {
                    Some(op) => {
                        self.index = j + 1;
                        match self.parse_additive_expr() {
                            Some(rr) => Some(Expr::CompareExpr(Box::new(l), op, Box::new(rr))),
                            None => {
                                self.set_index(checkpoint);
                                None
                            }
                        }
                    }
                    None => Some(l),
                }
            }
        }
    }

    /// An additive expression: a left-associative chain of `+`/`-`
    /// over multiplicative expressions.
    #[verifier::loop_isolation(false)]
    fn parse_additive_expr(&mut self) -> (r: Option<Expr>)
        ensures
            final(self).toks() == old(self).toks(),
            match r {
                Some(e) => spec_parse_additive(old(self).toks(), old(self).idx()) == Some((
                    e@,
                    final(self).idx(),
                )) && old(self).idx() < final(self).idx() <= old(self).toks().len(),
                None => spec_parse_additive(old(self).toks(), old(self).idx()) is None && final(self).idx() == old(self).idx(),
            },
        decreases parse_rem(self.toks(), self.idx()), 4int,
    {
        let checkpoint = self.index;
        match self.parse_multiplicative_expr() {
            None => None,
            Some(first) => {
                let mut acc = first;
                let ghost toks0 = self.toks();
                loop
                    invariant
                        self.toks() == toks0,
                        checkpoint < self.idx() <= toks0.len(),
                        spec_parse_additive(toks0, checkpoint as int) == spec_parse_add_rest(
                            toks0,
                            self.idx(),
                            acc@,
                        ),
                    decreases parse_rem(self.toks(), self.idx()),
                {
                    let j = self.index;
                    let op_opt: Option<Op> = if j < self.tokens.len() {
                        match &self.tokens[j] {
                            Token::TokenOp(Op::Plus) => Some(Op::Plus),
                            Token::TokenOp(Op::Minus) => Some(Op::Minus),
                            _ => None,
                        }
                    } else {
                        None
                    };
                    match op_opt {
                        None => {
                            return Some(acc);
                        }
                        Some(op) => {
                            self.index = j + 1;
                            match self.parse_multiplicative_expr() {
                                Some(e) => {
                                    acc = Expr::BinaryExpr(Box::new(acc), op, Box::new(e));
                                }
                                None => {
                                    self.set_index(checkpoint);
                                    return None;
                                }
                            }
                        }
                    }
                }
            }
        }
    }

    /// A multiplicative expression: a left-associative chain of
    /// `*`/`/` over primary forms.
    #[verifier::loop_isolation(false)]
    fn parse_multiplicative_expr(&mut self) -> (r: Option<Expr>)
        ensures
            final(self).toks() == old(self).toks(),
            match r {
                Some(e) => spec_parse_multiplicative(old(self).toks(), old(self).idx()) == Some((
                    e@,
                    final(self).idx(),
                )) && old(self).idx() < final(self).idx() <= old(self).toks().len(),
                None => spec_parse_multiplicative(old(self).toks(), old(self).idx()) is None
                    && final(self).idx() == old(self).idx(),
            },
        decreases parse_rem(self.toks(), self.idx()), 2int,
    {
        let checkpoint = self.index;
        match self.parse_primary_expr() {
            None => None,
            Some(first) => {
                let mut acc = first;
                let ghost toks0 = self.toks();
                loop
                    invariant
                        self.toks() == toks0,
                        checkpoint < self.idx() <= toks0.len(),
                        spec_parse_multiplicative(toks0, checkpoint as int)
                            == spec_parse_mult_rest(toks0, self.idx(), acc@),
                    decreases parse_rem(self.toks(), self.idx()),
                {
                    let j = self.index;
                    let op_opt: Option<Op> = if j < self.tokens.len() {
                        match &self.tokens[j] {
                            Token::TokenOp(Op::Times) => Some(Op::Times),
                            Token::TokenOp(Op::Div) => Some(Op::Div),
                            _ => None,
                        }
                    } else {
                        None
                    };
                    match op_opt {
                        None => {
                            return Some(acc);
                        }
                        Some(op) => {
                            self.index = j + 1;
                            match self.parse_primary_expr() {
                                Some(e) => {
                                    acc = Expr::BinaryExpr(Box::new(acc), op, Box::new(e));
                                }
                                None => {
                                    self.set_index(checkpoint);
                                    return None;
                                }
                            }
                        }
                    }
                }
            }
        }
    }

    /// A primary form: an integer or boolean literal; an identifier,
    /// optionally followed by a call argument list or a bracketed
    /// index; a parenthesized expression; a list literal; or a negated
    /// primary.
    fn parse_primary_expr(&mut self) -> (r: Option<Expr>)
        ensures
            final(self).toks() == old(self).toks(),
            match r {
                Some(e) => spec_parse_primary(old(self).toks(), old(self).idx()) == Some((
                    e@,
                    final(self).idx(),
                )) && old(self).idx() < final(self).idx() <= old(self).toks().len(),
                None => spec_parse_primary(old(self).toks(), old(self).idx()) is None && final(self).idx() == old(self).idx(),
            },
        decreases parse_rem(self.toks(), self.idx()), 0int,
    {
        let checkpoint = self.index;
        if checkpoint >= self.tokens.len() {
            return None;
        }
        match &self.tokens[checkpoint] {
            Token::Integer(v) => {
                self.index = checkpoint + 1;
                Some(Expr::ConstExpr(Value::IntValue(*v)))
            }
            Token::True => {
                self.index = checkpoint + 1;
                Some(Expr::ConstExpr(Value::BoolValue(true)))
            }
            Token::False => {
                self.index = checkpoint + 1;
                Some(Expr::ConstExpr(Value::BoolValue(false)))
            }
            Token::Ident(name) => {
                let name = name.clone();
                if checkpoint + 1 < self.tokens.len() && matches!(
                    &self.tokens[checkpoint + 1],
                    Token::LPar
                ) {
                    self.index = checkpoint + 1;
                    match self.parse_function_call_argument_list() {
                        Some(args) => Some(Expr::FunctionCall(name, args)),
                        None => {
                            self.set_index(checkpoint);
                            None
                        }
                    }
                } else if checkpoint + 1 < self.tokens.len() && matches!(
                    &self.tokens[checkpoint + 1],
                    Token::LBracket
                ) {
                    self.index = checkpoint + 2;
                    match self.parse_expression() {
                        Ok(idx_expr) => {
                            let j = self.index;
                            if j < self.tokens.len() && matches!(&self.tokens[j], Token::RBracket) {
                                self.index = j + 1;
                                Some(Expr::ListAccess(name, Box::new(idx_expr)))
                            } else {
                                self.set_index(checkpoint);
                                None
                            }
                        }
                        Err(_) => {
                            self.set_index(checkpoint);
                            None
                        }
                    }
                } else {
                    self.index = checkpoint + 1;
                    Some(Expr::IdentExpr(name))
                }
            }
            Token::LPar => {
                self.index = checkpoint + 1;
                match self.parse_expression() {
                    Ok(e) => {
                        let j = self.index;
                        if j < self.tokens.len() && matches!(&self.tokens[j], Token::RPar) {
                            self.index = j + 1;
                            Some(Expr::ParenthesisExpr(Box::new(e)))
                        } else {
                            self.set_index(checkpoint);
                            None
                        }
                    }
                    Err(_) => {
                        self.set_index(checkpoint);
                        None
                    }
                }
            }
            Token::LBracket => {
                self.index = checkpoint + 1;
                match self.parse_list_elements() {
                    Some(es) => Some(Expr::List(es)),
                    None => {
                        self.set_index(checkpoint);
                        None
                    }
                }
            }
            Token::TokenOp(Op::Minus) => {
                self.index = checkpoint + 1;
                match self.parse_primary_expr() {
                    Some(e) => Some(Expr::NegExpr(Box::new(e))),
                    None => {
                        self.set_index(checkpoint);
                        None
                    }
                }
            }
            _ => None,
        }
    }

    /// The elements of a list literal after the opening bracket: one
    /// or more expressions separated by commas, then the closing
    /// bracket.
    #[verifier::loop_isolation(false)]
    fn parse_list_elements(&mut self) -> (r: Option<Vec<Expr>>)
        ensures
            final(self).toks() == old(self).toks(),
            match r {
                Some(es) => spec_parse_list_elems(old(self).toks(), old(self).idx()) == Some((
                    expr_views(es@),
                    final(self).idx(),
                )) && old(self).idx() < final(self).idx() <= old(self).toks().len(),
                None => spec_parse_list_elems(old(self).toks(), old(self).idx()) is None && final(self).idx() == old(self).idx(),
            },
        decreases parse_rem(self.toks(), self.idx()), 8int,
    {
        let checkpoint = self.index;
        let mut out: Vec<Expr> = Vec::new();
        let ghost toks0 = self.toks();
        proof {
            assert(expr_views(out@) + spec_parse_list_elems(toks0, checkpoint as int).unwrap().0
                =~= spec_parse_list_elems(toks0, checkpoint as int).unwrap().0);
        }
        loop
            invariant
                self.toks() == toks0,
                checkpoint <= self.idx(),
                out@.len() > 0 ==> checkpoint < self.idx() <= toks0.len(),
                spec_parse_list_elems(toks0, checkpoint as int) == prepend_exprs(
                    expr_views(out@),
                    spec_parse_list_elems(toks0, self.idx()),
                ),
            decreases parse_rem(self.toks(), self.idx()),
        {
            let ghost prev = out@;
            let ghost at = self.idx();
            if self.index >= self.tokens.len() {
                self.set_index(checkpoint);
                return None;
            }
            match self.parse_expression() {
                Err(_) => {
                    self.set_index(checkpoint);
                    return None;
                }
                Ok(e) => {
                    let j = self.index;
                    if j < self.tokens.len() && matches!(&self.tokens[j], Token::Comma) {
                        self.index = j + 1;
                        out.push(e);
                        proof {
                            lemma_expr_views_push(prev, out@.last());
                            lemma_prepend_exprs_push(
                                expr_views(prev),
                                out@.last()@,
                                spec_parse_list_elems(toks0, self.idx()),
                            );
                        }
                    } else if j < self.tokens.len() && matches!(&self.tokens[j], Token::RBracket) {
                        self.index = j + 1;
                        out.push(e);
                        proof {
                            lemma_expr_views_push(prev, out@.last());
                            assert(spec_parse_list_elems(toks0, at) == Some((
                                seq![out@.last()@],
                                self.idx(),
                            )));
                            assert(expr_views(prev) + seq![out@.last()@] =~= expr_views(out@));
                        }
                        return Some(out);
                    } else {
                        self.set_index(checkpoint);
                        return None;
                    }
                }
            }
        }
    }

    /// A call argument list: the opening parenthesis, zero or more
    /// expressions, the closing parenthesis. A comma between arguments
    /// is consumed where present but not required.
    #[verifier::loop_isolation(false)]
    fn parse_function_call_argument_list(&mut self) -> (r: Option<Vec<Expr>>)
        ensures
            final(self).toks() == old(self).toks(),
            match r {
                Some(es) => spec_parse_call_arglist(old(self).toks(), old(self).idx()) == Some((
                    expr_views(es@),
                    final(self).idx(),
                )) && old(self).idx() < final(self).idx() <= old(self).toks().len(),
                None => spec_parse_call_arglist(old(self).toks(), old(self).idx()) is None
                    && final(self).idx() == old(self).idx(),
            },
        decreases parse_rem(self.toks(), self.idx()), 9int,
    {
        let checkpoint = self.index;
        if !(checkpoint < self.tokens.len() && matches!(&self.tokens[checkpoint], Token::LPar)) {
            return None;
        }
        if checkpoint + 1 < self.tokens.len() && matches!(&self.tokens[checkpoint + 1], Token::RPar)
        {
            self.index = checkpoint + 2;
            let out: Vec<Expr> = Vec::new();
            proof {
                assert(expr_views(out@) =~= Seq::<ExprView>::empty());
            }
            return Some(out);
        }
        self.index = checkpoint + 1;
        let mut out: Vec<Expr> = Vec::new();
        let ghost toks0 = self.toks();
        proof {
            assert(expr_views(out@) =~= Seq::<ExprView>::empty());
        }
        loop
            invariant
                self.toks() == toks0,
                checkpoint < self.idx() <= toks0.len(),
                spec_parse_call_arglist(toks0, checkpoint as int) == prepend_exprs(
                    expr_views(out@),
                    spec_parse_call_args(toks0, self.idx()),
                ),
            decreases parse_rem(self.toks(), self.idx()),
        {
            let ghost prev = out@;
            let ghost at = self.idx();
            if self.index >= self.tokens.len() {
                self.set_index(checkpoint);
                return None;
            }
            match self.parse_expression() {
                Err(_) => {
                    self.set_index(checkpoint);
                    return None;
                }
                Ok(e) => {
                    let j = self.index;
                    if j < self.tokens.len() && matches!(&self.tokens[j], Token::Comma) {
                        self.index = j + 1;
                        out.push(e);
                        proof {
                            lemma_expr_views_push(prev, out@.last());
                            lemma_prepend_exprs_push(
                                expr_views(prev),
                                out@.last()@,
                                spec_parse_call_args(toks0, self.idx()),
                            );
                        }
                    } else if j < self.tokens.len() && matches!(&self.tokens[j], Token::RPar) {
                        self.index = j + 1;
                        out.push(e);
                        proof {
                            lemma_expr_views_push(prev, out@.last());
                            assert(spec_parse_call_args(toks0, at) == Some((
                                seq![out@.last()@],
                                self.idx(),
                            )));
                            assert(expr_views(prev) + seq![out@.last()@] =~= expr_views(out@));
                        }
                        return Some(out);
                    } else {
                        out.push(e);
                        proof {
                            lemma_expr_views_push(prev, out@.last());
                            lemma_prepend_exprs_push(
                                expr_views(prev),
                                out@.last()@,
                                spec_parse_call_args(toks0, self.idx()),
                            );
                        }
                    }
                }
            }
        }
    }
}

impl<'a> Parser<'a> {
    /// One statement, tried in order: a conditional, a return, a loop,
    /// a break, an expression statement with its mandatory semicolon, a
    /// compound statement.
    fn parse_one_statement(&mut self) -> (r: Option<Statement>)
        ensures
            final(self).toks() == old(self).toks(),
            match r {
                Some(s) => spec_parse_one_statement(old(self).toks(), old(self).idx()) == Some((
                    s@,
                    final(self).idx(),
                )) && old(self).idx() < final(self).idx() <= old(self).toks().len(),
                None => spec_parse_one_statement(old(self).toks(), old(self).idx()) is None
                    && final(self).idx() == old(self).idx(),
            },
        decreases parse_rem(self.toks(), self.idx()), 10int,
    {
        let checkpoint = self.index;
        if checkpoint < self.tokens.len() {
            match &self.tokens[checkpoint] {
                Token::If => {
                    if checkpoint + 1 < self.tokens.len() && matches!(
                        &self.tokens[checkpoint + 1],
                        Token::LPar
                    ) {
                        self.index = checkpoint + 2;
                        match self.parse_expression() {
                            Ok(cond) => {
                                let j = self.index;
                                if j < self.tokens.len() && matches!(&self.tokens[j], Token::RPar) {
                                    self.index = j + 1;
                                    match self.parse_compound_statement() {
                                        Some(body) => {
                                            let k = self.index;
                                            if k < self.tokens.len() && matches!(
                                                &self.tokens[k],
                                                Token::Else
                                            ) {
                                                self.index = k + 1;
                                                match self.parse_one_statement() {
                                                    Some(els) => {
                                                        return Some(
                                                            Statement::If(
                                                                cond,
                                                                Box::new(body),
                                                                Some(Box::new(els)),
                                                            ),
                                                        );
                                                    }
                                                    None => {
                                                        self.set_index(checkpoint);
                                                        return None;
                                                    }
                                                }
                                            } else {
                                                return Some(
                                                    Statement::If(cond, Box::new(body), None),
                                                );
                                            }
                                        }
                                        None => {
                                            self.set_index(checkpoint);
                                            return None;
                                        }
                                    }
                                } else {
                                    self.set_index(checkpoint);
                                    return None;
                                }
                            }
                            Err(_) => {
                                self.set_index(checkpoint);
                                return None;
                            }
                        }
                    } else {
                        return None;
                    }
                }
                Token::Return => {
                    self.index = checkpoint + 1;
                    match self.parse_expression() {
                        Ok(e) => {
                            let j = self.index;
                            if j < self.tokens.len() && matches!(&self.tokens[j], Token::SemiColon)
                            {
                                self.index = j + 1;
                            }
                            return Some(Statement::Return(e));
                        }
                        Err(_) => {
                            self.set_index(checkpoint);
                            return None;
                        }
                    }
                }
                Token::Loop => {
                    self.index = checkpoint + 1;
                    match self.parse_compound_statement() {
                        Some(body) => {
                            return Some(Statement::Loop(Box::new(body)));
                        }
                        None => {
                            self.set_index(checkpoint);
                            return None;
                        }
                    }
                }
                Token::Break => {
                    if checkpoint + 1 < self.tokens.len() && matches!(
                        &self.tokens[checkpoint + 1],
                        Token::SemiColon
                    ) {
                        self.index = checkpoint + 2;
                    } else {
                        self.index = checkpoint + 1;
                    }
                    return Some(Statement::Break);
                }
                _ => {}
            }
        }
        match self.parse_expression() {
            Ok(e) => {
                let j = self.index;
                if j < self.tokens.len() && matches!(&self.tokens[j], Token::SemiColon) {
                    self.index = j + 1;
                    Some(Statement::SimpleStatement(e))
                } else {
                    self.set_index(checkpoint);
                    self.parse_compound_statement()
                }
            }
            Err(_) => self.parse_compound_statement(),
        }
    }

    /// A compound statement: `{`, the maximal statement list, `}`.
    pub fn parse_compound_statement(&mut self) -> (r: Option<Statement>)
        ensures
            final(self).toks() == old(self).toks(),
            match r {
                Some(s) => spec_parse_compound(old(self).toks(), old(self).idx()) == Some((
                    s@,
                    final(self).idx(),
                )) && old(self).idx() < final(self).idx() <= old(self).toks().len(),
                None => spec_parse_compound(old(self).toks(), old(self).idx()) is None && final(self).idx() == old(self).idx(),
            },
        decreases parse_rem(self.toks(), self.idx()), 9int,
    {
        let checkpoint = self.index;
        if checkpoint < self.tokens.len() && matches!(&self.tokens[checkpoint], Token::LBrace) {
            self.index = checkpoint + 1;
            let statements = self.parse_statements();
            let j = self.index;
            if j < self.tokens.len() && matches!(&self.tokens[j], Token::RBrace) {
                self.index = j + 1;
                Some(Statement::CompoundStatement(statements))
            } else {
                self.set_index(checkpoint);
                None
            }
        } else {
            None
        }
    }

    /// The maximal statement sequence from the cursor: statements
    /// parsed until none matches.
    #[verifier::loop_isolation(false)]
    pub fn parse_statements(&mut self) -> (r: Vec<Statement>)
        ensures
            final(self).toks() == old(self).toks(),
            ({
                let (sv, j) = spec_parse_stmt_seq(old(self).toks(), old(self).idx());
                stmt_views(r@) == sv && final(self).idx() == j && old(self).idx() <= j && (j <= old(self).toks().len() || j == old(self).idx())
            }),
        decreases parse_rem(self.toks(), self.idx()), 11int,
    {
        let checkpoint = self.index;
        let ghost toks0 = self.toks();
        let mut out: Vec<Statement> = Vec::new();
        proof {
            assert(stmt_views(out@) =~= Seq::<StmtView>::empty());
        }
        loop
            invariant
                self.toks() == toks0,
                checkpoint <= self.idx(),
                out@.len() > 0 ==> checkpoint < self.idx() <= toks0.len(),
                spec_parse_stmt_seq(toks0, checkpoint as int).0 == stmt_views(out@)
                    + spec_parse_stmt_seq(toks0, self.idx()).0,
                spec_parse_stmt_seq(toks0, checkpoint as int).1 == spec_parse_stmt_seq(
                    toks0,
                    self.idx(),
                ).1,
            decreases parse_rem(self.toks(), self.idx()),
        {
            let ghost prev = out@;
            let ghost at = self.idx();
            match self.parse_one_statement() {
                None => {
                    proof {
                        assert(spec_parse_stmt_seq(toks0, at).0 =~= Seq::<StmtView>::empty());
                        assert(stmt_views(out@) + Seq::<StmtView>::empty() =~= stmt_views(out@));
                    }
                    return out;
                }
                Some(s) => {
                    out.push(s);
                    proof {
                        lemma_stmt_views_push(prev, out@.last());
                        assert(stmt_views(prev) + (seq![out@.last()@] + spec_parse_stmt_seq(
                            toks0,
                            self.idx(),
                        ).0) =~= stmt_views(out@) + spec_parse_stmt_seq(toks0, self.idx()).0);
                    }
                }
            }
        }
    }

    /// The parenthesized parameter list of a function declaration:
    /// identifiers up to the closing parenthesis, commas skipped; any
    /// other token is a malformed list; a list left open at the end of
    /// the tokens yields the names found.
    #[verifier::loop_isolation(false)]
    fn parse_function_argument_list(&mut self) -> (r: Result<Vec<FnArg>, ParserError>)
        ensures
            final(self).toks() == old(self).toks(),
            match r {
                Ok(args) => spec_parse_fn_args(old(self).toks(), old(self).idx()) == Ok::<
                    _,
                    PErrView,
                >((arg_views(args@), final(self).idx())) && old(self).idx() < final(self).idx()
                    <= old(self).toks().len(),
                Err(e) => spec_parse_fn_args(old(self).toks(), old(self).idx()) == Err::<
                    (Seq<Seq<char>>, int),
                    _,
                >(e@),
            },
        decreases parse_rem(self.toks(), self.idx()), 9int,
    {
        let checkpoint = self.index;
        if !(checkpoint < self.tokens.len() && matches!(&self.tokens[checkpoint], Token::LPar)) {
            return Err(
                ParserError::ExpectedDifferentToken("Expecting left par after function name"),
            );
        }
        self.index = checkpoint + 1;
        let ghost toks0 = self.toks();
        let mut out: Vec<FnArg> = Vec::new();
        proof {
            assert(arg_views(out@) =~= Seq::<Seq<char>>::empty());
        }
        loop
            invariant
                self.toks() == toks0,
                checkpoint < self.idx() <= toks0.len(),
                spec_parse_fn_args(toks0, checkpoint as int) == prepend_names(
                    arg_views(out@),
                    spec_parse_fn_args_rest(toks0, self.idx()),
                ),
            decreases parse_rem(self.toks(), self.idx()),
        {
            let ghost prev = out@;
            let j = self.index;
            if j == self.tokens.len() {
                proof {
                    assert(arg_views(out@) + Seq::<Seq<char>>::empty() =~= arg_views(out@));
                }
                return Ok(out);
            }
            match &self.tokens[j] {
                Token::Ident(name) => {
                    out.push(FnArg(name.clone()));
                    self.index = j + 1;
                    proof {
                        lemma_arg_views_push(prev, out@.last());
                        lemma_prepend_names_push(
                            arg_views(prev),
                            out@.last().0@,
                            spec_parse_fn_args_rest(toks0, self.idx()),
                        );
                    }
                }
                Token::RPar => {
                    self.index = j + 1;
                    proof {
                        assert(arg_views(out@) + Seq::<Seq<char>>::empty() =~= arg_views(out@));
                    }
                    return Ok(out);
                }
                Token::Comma => {
                    self.index = j + 1;
                }
                _ => {
                    return Err(ParserError::WrongFunctionArgumentList);
                }
            }
        }
    }

    /// One function declaration: `fn`, a name, a parameter list, a
    /// compound body. `Ok(None)` when no declaration starts at the
    /// cursor.
    pub fn parse_one_function(&mut self) -> (r: Result<Option<Declaration>, ParserError>)
        ensures
            final(self).toks() == old(self).toks(),
            match r {
                Ok(Some(d)) => spec_parse_one_function(old(self).toks(), old(self).idx()) == Ok::<
                    _,
                    PErrView,
                >(Some((d@, final(self).idx()))) && old(self).idx() < final(self).idx() <= old(self).toks().len(),
                Ok(None) => spec_parse_one_function(old(self).toks(), old(self).idx()) == Ok::<
                    Option<(crate::ast::declaration::DeclView, int)>,
                    PErrView,
                >(None) && final(self).idx() == old(self).idx(),
                Err(e) => spec_parse_one_function(old(self).toks(), old(self).idx()) == Err::<
                    Option<(crate::ast::declaration::DeclView, int)>,
                    _,
                >(e@),
            },
        decreases parse_rem(self.toks(), self.idx()), 12int,
    {
        let checkpoint = self.index;
        if !(checkpoint < self.tokens.len() && matches!(&self.tokens[checkpoint], Token::Fn)) {
            return Ok(None);
        }
        if checkpoint + 1 < self.tokens.len() {
            let name_opt: Option<String> = match &self.tokens[checkpoint + 1] {
                Token::Ident(name) => Some(name.clone()),
                _ => None,
            };
            if let Some(name) = name_opt {
                self.index = checkpoint + 2;
                match self.parse_function_argument_list() {
                    Err(e) => {
                        return Err(e);
                    }
                    Ok(arguments) => {
                        match self.parse_compound_statement() {
                            Some(body) => {
                                return Ok(Some(Declaration::Function(name, arguments, body)));
                            }
                            None => {
                                return Err(ParserError::WrongFunctionBody);
                            }
                        }
                    }
                }
            }
        }
        Err(ParserError::ExpectedDifferentToken("Expecting an indent after function declaration"))
    }

    /// Any kind of declaration; currently only a function.
    fn parse_declaration(&mut self) -> (r: Result<Option<Declaration>, ParserError>)
        ensures
            final(self).toks() == old(self).toks(),
            match r {
                Ok(Some(d)) => spec_parse_one_function(old(self).toks(), old(self).idx()) == Ok::<
                    _,
                    PErrView,
                >(Some((d@, final(self).idx()))) && old(self).idx() < final(self).idx() <= old(self).toks().len(),
                Ok(None) => spec_parse_one_function(old(self).toks(), old(self).idx()) == Ok::<
                    Option<(crate::ast::declaration::DeclView, int)>,
                    PErrView,
                >(None) && final(self).idx() == old(self).idx(),
                Err(e) => spec_parse_one_function(old(self).toks(), old(self).idx()) == Err::<
                    Option<(crate::ast::declaration::DeclView, int)>,
                    _,
                >(e@),
            },
        decreases parse_rem(self.toks(), self.idx()), 13int,
    {
        self.parse_one_function()
    }

    /// A module: function declarations parsed until none matches or
    /// one is malformed.
    #[verifier::loop_isolation(false)]
    pub fn parse_module(&mut self) -> (r: Module)
        ensures
            final(self).toks() == old(self).toks(),
            decl_views(r@) == spec_parse_module(old(self).toks(), old(self).idx()).0,
            final(self).idx() == spec_parse_module(old(self).toks(), old(self).idx()).1,
        decreases parse_rem(self.toks(), self.idx()), 14int,
    {
        let checkpoint = self.index;
        let ghost toks0 = self.toks();
        let mut declarations: Vec<Declaration> = Vec::new();
        proof {
            assert(decl_views(declarations@) =~= Seq::<crate::ast::declaration::DeclView>::empty());
        }
        loop
            invariant
                self.toks() == toks0,
                checkpoint <= self.idx(),
                declarations@.len() > 0 ==> checkpoint < self.idx() <= toks0.len(),
                spec_parse_module(toks0, checkpoint as int).0 == decl_views(declarations@)
                    + spec_parse_module(toks0, self.idx()).0,
                spec_parse_module(toks0, checkpoint as int).1 == spec_parse_module(
                    toks0,
                    self.idx(),
                ).1,
            decreases parse_rem(self.toks(), self.idx()),
        {
            let ghost prev = declarations@;
            let at_exec = self.index;
            let ghost at = self.idx();
            let step = self.parse_declaration();
            match step {
                Ok(Some(d)) => {
                    declarations.push(d);
                    proof {
                        lemma_decl_views_push(prev, declarations@.last());
                        assert(decl_views(prev) + (seq![declarations@.last()@]
                            + spec_parse_module(toks0, self.idx()).0) =~= decl_views(
                            declarations@,
                        ) + spec_parse_module(toks0, self.idx()).0);
                    }
                }
                _ => {
                    self.set_index(at_exec);
                    proof {
                        assert(spec_parse_module(toks0, at).0 =~= Seq::<
                            crate::ast::declaration::DeclView,
                        >::empty());
                        assert(spec_parse_module(toks0, at).1 == at);
                        assert(decl_views(declarations@) + Seq::<
                            crate::ast::declaration::DeclView,
                        >::empty() =~= decl_views(declarations@));
                    }
                    return Module::new(declarations);
                }
            }
        }
    }
}

/// Parses a single complete expression: the whole token sequence must
/// be consumed.
pub fn parse_expression(tokens: &Vec<Token>) -> (r: Result<Expr, ParserError>)
    ensures
        match r {
            Ok(e) => spec_parse_expression_all(token_views(tokens@)) == Ok::<_, PErrView>(e@),
            Err(e) => spec_parse_expression_all(token_views(tokens@)) == Err::<ExprView, _>(e@),
        },
{
    let mut parser = Parser::new(tokens);
    match parser.parse_expression() {
        Ok(ast) => {
            if parser.is_finished() {
                Ok(ast)
            } else {
                Err(ParserError::TokensNotParsed)
            }
        }
        Err(err) => Err(err),
    }
}

/// Parses the maximal statement sequence from the start of the tokens.
pub fn parse_statements(tokens: &Vec<Token>) -> (r: Vec<Statement>)
    ensures
        stmt_views(r@) == spec_parse_stmt_seq(token_views(tokens@), 0).0,
{
    let mut parser = Parser::new(tokens);
    parser.parse_statements()
}

proof fn lemma_stmt_views_push(ss: Seq<Statement>, s: Statement)
    ensures
        stmt_views(ss.push(s)) == stmt_views(ss).push(s@),
{
    assert(ss.push(s).subrange(0, ss.len() as int) =~= ss);
    assert(ss.push(s)[ss.len() as int] == s);
}

proof fn lemma_decl_views_push(ds: Seq<Declaration>, d: Declaration)
    ensures
        decl_views(ds.push(d)) == decl_views(ds).push(d@),
{
    assert(ds.push(d).subrange(0, ds.len() as int) =~= ds);
    assert(ds.push(d)[ds.len() as int] == d);
}

proof fn lemma_arg_views_push(args: Seq<FnArg>, a: FnArg)
    ensures
        arg_views(args.push(a)) =~= arg_views(args).push(a.0@),
{
}

proof fn lemma_prepend_names_push(
    vs: Seq<Seq<char>>,
    n: Seq<char>,
    r: Result<(Seq<Seq<char>>, int), PErrView>,
)
    ensures
        prepend_names(vs, prepend_names(seq![n], r)) == prepend_names(vs.push(n), r),
{
    match r {
        Ok((ns, k)) => {
            assert(vs + (seq![n] + ns) =~= vs.push(n) + ns);
        }
        Err(_) => {}
    }
}

proof fn lemma_expr_views_push(es: Seq<Expr>, e: Expr)
    ensures
        expr_views(es.push(e)) == expr_views(es).push(e@),
{
    assert(es.push(e).subrange(0, es.len() as int) =~= es);
    assert(es.push(e)[es.len() as int] == e);
}

proof fn lemma_prepend_exprs_push(
    vs: Seq<ExprView>,
    v: ExprView,
    r: Option<(Seq<ExprView>, int)>,
)
    ensures
        prepend_exprs(vs, prepend_exprs(seq![v], r)) == prepend_exprs(vs.push(v), r),
{
    match r {
        Some((es, k)) => {
            assert(vs + (seq![v] + es) =~= vs.push(v) + es);
        }
        None => {}
    }
}

} // verus!
