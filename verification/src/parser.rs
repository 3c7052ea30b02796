//! The parser: tokens to an expression, by recursive descent.

use crate::ast::Expr;
use crate::diagnostics::{
    diagnostics_view, err_at, error_at_token, lemma_diagnostics_view_push, Diagnostic,
    DiagnosticView,
};
use crate::grammar::{
    binary, is_boundary, is_operator, parse_expression, parse_level,
    lemma_parse_well_formed, parse_operand, parse_primary, parse_rest, parse_unary, rank,
    terminated, Level, Parse,
};
use crate::derivation::{derived, lemma_level_derived};
use crate::semantics::well_formed;
use crate::object::{copy_value, Object};
use crate::token::{tokens_view, Token, TokenKind, TokenView};
use vstd::prelude::*;

verus! {

/// Reads an expression from tokens. A syntax error ends the parse; its
/// diagnostic is kept in `diagnostics`.
pub struct Parser {
    tokens: Vec<Token>,
    current: usize,
    diagnostics: Vec<Diagnostic>,
}

/// A syntax error. The diagnostic that says what it is has been recorded
/// when a value of this type is made.
pub struct ParseError;

/// Whether `tokens` end with the end-of-input token: whether a parser takes
/// them.
pub fn is_terminated(tokens: &Vec<Token>) -> (r: bool)
    ensures
        r == terminated(tokens_view(tokens@)),
{
    let n: usize = tokens.len();
    n > 0 && tokens[n - 1].kind == TokenKind::Eof
}

impl Parser {
    /// The tokens that the parser reads.
    pub closed spec fn tokens(&self) -> Seq<TokenView> {
        tokens_view(self.tokens@)
    }

    /// The place of the token that the parser looks at.
    pub closed spec fn position(&self) -> int {
        self.current as int
    }

    /// The diagnostics recorded so far.
    pub closed spec fn reported(&self) -> Seq<DiagnosticView> {
        diagnostics_view(self.diagnostics@)
    }

    /// The tokens end with the end-of-input token and the parser looks at one
    /// of them.
    pub closed spec fn wf(&self) -> bool {
        &&& terminated(self.tokens())
        &&& self.current < self.tokens@.len()
    }

    /// Since `before`, a parse with the outcome `parse` was made, which gave
    /// `result`: the tokens are the same, a success moved the parser behind
    /// what was read and recorded nothing, a failure left it at the token
    /// that is wrong and recorded the diagnostic of that token.
    pub open spec fn parsed(
        &self,
        before: &Self,
        result: Result<Expr, ParseError>,
        parse: Parse,
    ) -> bool {
        &&& self.wf()
        &&& self.tokens() == before.tokens()
        &&& before.position() <= self.position()
        &&& match parse {
            Parse::Parsed { expr, next } => {
                &&& result is Ok
                &&& result->Ok_0@ == expr
                &&& self.position() == next
                &&& self.reported() == before.reported()
            },
            Parse::Failed { at, message } => {
                &&& result is Err
                &&& self.position() == at
                &&& self.reported() == before.reported().push(
                    error_at_token(self.tokens()[at], message),
                )
            },
        }
    }

    /// A parser at the first of `tokens`, which end with the end-of-input
    /// token.
    pub fn new(tokens: Vec<Token>) -> (parser: Parser)
        requires
            terminated(tokens_view(tokens@)),
        ensures
            parser.wf(),
            parser.tokens() == tokens_view(tokens@),
            parser.position() == 0,
            parser.reported().len() == 0,
    {
        Parser { tokens, current: 0, diagnostics: Vec::new() }
    }

    /// The diagnostics recorded so far.
    pub fn diagnostics(&self) -> (diagnostics: &Vec<Diagnostic>)
        ensures
            diagnostics_view(diagnostics@) == self.reported(),
    {
        &self.diagnostics
    }

    /// Parses one expression. Returns it, or nothing after a syntax error,
    /// whose diagnostic is then the last of `diagnostics`.
    pub fn parse(&mut self) -> (result: Option<Expr>)
        requires
            old(self).wf(),
        ensures
            final(self).wf(),
            final(self).tokens() == old(self).tokens(),
            result is Some ==> well_formed(result->0@),
            derived(
                old(self).tokens(),
                old(self).position(),
                parse_expression(old(self).tokens(), old(self).position()),
                0,
            ),
            match parse_expression(old(self).tokens(), old(self).position()) {
                Parse::Parsed { expr, next } => {
                    &&& result is Some
                    &&& result->0@ == expr
                    &&& final(self).position() == next
                    &&& final(self).reported() == old(self).reported()
                },
                Parse::Failed { at, message } => {
                    &&& result is None
                    &&& final(self).position() == at
                    &&& final(self).reported() == old(self).reported().push(
                        error_at_token(old(self).tokens()[at], message),
                    )
                },
            },
    {
        proof {
            lemma_parse_well_formed(self.tokens(), self.position(), Level::Equality);
            lemma_level_derived(self.tokens(), self.position(), Level::Equality);
        }
        match self.expression() {
            Ok(expr) => Some(expr),
            Err(_) => None,
        }
    }

    fn expression(&mut self) -> (result: Result<Expr, ParseError>)
        requires
            old(self).wf(),
        ensures
            final(self).parsed(
                old(self),
                result,
                parse_expression(old(self).tokens(), old(self).position()),
            ),
        decreases old(self).tokens@.len() - old(self).current, 14nat,
    {
        self.equality()
    }

    fn equality(&mut self) -> (result: Result<Expr, ParseError>)
        requires
            old(self).wf(),
        ensures
            final(self).parsed(
                old(self),
                result,
                parse_level(old(self).tokens(), old(self).position(), Level::Equality),
            ),
        decreases old(self).tokens@.len() - old(self).current, 13nat,
    {
        self.binary(Level::Equality)
    }

    fn comparison(&mut self) -> (result: Result<Expr, ParseError>)
        requires
            old(self).wf(),
        ensures
            final(self).parsed(
                old(self),
                result,
                parse_level(old(self).tokens(), old(self).position(), Level::Comparison),
            ),
        decreases old(self).tokens@.len() - old(self).current, 10nat,
    {
        self.binary(Level::Comparison)
    }

    fn term(&mut self) -> (result: Result<Expr, ParseError>)
        requires
            old(self).wf(),
        ensures
            final(self).parsed(
                old(self),
                result,
                parse_level(old(self).tokens(), old(self).position(), Level::Term),
            ),
        decreases old(self).tokens@.len() - old(self).current, 7nat,
    {
        self.binary(Level::Term)
    }

    fn factor(&mut self) -> (result: Result<Expr, ParseError>)
        requires
            old(self).wf(),
        ensures
            final(self).parsed(
                old(self),
                result,
                parse_level(old(self).tokens(), old(self).position(), Level::Factor),
            ),
        decreases old(self).tokens@.len() - old(self).current, 4nat,
    {
        self.binary(Level::Factor)
    }

    /// Parses an operand of `level`.
    fn operand(&mut self, level: Level) -> (result: Result<Expr, ParseError>)
        requires
            old(self).wf(),
        ensures
            final(self).parsed(
                old(self),
                result,
                parse_operand(old(self).tokens(), old(self).position(), level),
            ),
        decreases old(self).tokens@.len() - old(self).current, (rank(level) - 1) as nat,
    {
        match level {
            Level::Equality => self.comparison(),
            Level::Comparison => self.term(),
            Level::Term => self.factor(),
            Level::Factor => self.unary(),
        }
    }

    /// Consumes the token at the cursor if it is an operator of `level`.
    fn matches_operator(&mut self, level: Level) -> (r: bool)
        requires
            old(self).wf(),
        ensures
            final(self).wf(),
            final(self).tokens == old(self).tokens,
            final(self).diagnostics == old(self).diagnostics,
            r == is_operator(level, old(self).tokens()[old(self).position()].kind),
            final(self).current == if r {
                old(self).current + 1
            } else {
                old(self).current as int
            },
    {
        match level {
            Level::Equality => self.matches(&[TokenKind::BangEqual, TokenKind::EqualEqual]),
            Level::Comparison => self.matches(
                &[
                    TokenKind::Greater,
                    TokenKind::GreaterEqual,
                    TokenKind::Less,
                    TokenKind::LessEqual,
                ],
            ),
            Level::Term => self.matches(&[TokenKind::Minus, TokenKind::Plus]),
            Level::Factor => self.matches(&[TokenKind::Slash, TokenKind::Star]),
        }
    }

    /// Parses `level`: an operand, then operators of the level with an
    /// operand each, folded to the left.
    fn binary(&mut self, level: Level) -> (result: Result<Expr, ParseError>)
        requires
            old(self).wf(),
        ensures
            final(self).parsed(
                old(self),
                result,
                parse_level(old(self).tokens(), old(self).position(), level),
            ),
        decreases old(self).tokens@.len() - old(self).current, rank(level),
    {
        let ghost tokens = self.tokens();
        let ghost begin = self.position();
        let mut expr = match self.operand(level) {
            Ok(expr) => expr,
            Err(error) => {
                return Err(error);
            },
        };
        loop
            invariant
                self.wf(),
                self.tokens() == tokens,
                tokens == old(self).tokens(),
                begin == old(self).position(),
                self.tokens@.len() == old(self).tokens@.len(),
                begin <= self.position(),
                self.reported() == old(self).reported(),
                parse_level(tokens, begin, level) == parse_rest(
                    tokens,
                    self.position(),
                    level,
                    expr@,
                ),
            ensures
                self.parsed(old(self), Ok(expr), parse_level(tokens, begin, level)),
            decreases self.tokens@.len() - self.current,
        {
            if !self.matches_operator(level) {
                break ;
            }
            let operator = self.previous().clone();
            let right = match self.operand(level) {
                Ok(right) => right,
                Err(error) => {
                    return Err(error);
                },
            };
            expr = Expr::Binary { left: Box::new(expr), operator, right: Box::new(right) };
        }
        Ok(expr)
    }

    fn unary(&mut self) -> (result: Result<Expr, ParseError>)
        requires
            old(self).wf(),
        ensures
            final(self).parsed(
                old(self),
                result,
                parse_unary(old(self).tokens(), old(self).position()),
            ),
        decreases old(self).tokens@.len() - old(self).current, 1nat,
    {
        if self.matches(&[TokenKind::Bang, TokenKind::Minus]) {
            let operator = self.previous().clone();
            let right = match self.unary() {
                Ok(right) => right,
                Err(error) => {
                    return Err(error);
                },
            };
            return Ok(Expr::Unary { operator, right: Box::new(right) });
        }
        self.primary()
    }

    fn primary(&mut self) -> (result: Result<Expr, ParseError>)
        requires
            old(self).wf(),
        ensures
            final(self).parsed(
                old(self),
                result,
                parse_primary(old(self).tokens(), old(self).position()),
            ),
        decreases old(self).tokens@.len() - old(self).current, 0nat,
    {
        if self.matches(&[TokenKind::False]) {
            Ok(Expr::Literal { value: Some(Object::Boolean(false)) })
        } else if self.matches(&[TokenKind::True]) {
            Ok(Expr::Literal { value: Some(Object::Boolean(true)) })
        } else if self.matches(&[TokenKind::Nil]) {
            Ok(Expr::Literal { value: None })
        } else if self.matches(&[TokenKind::Number, TokenKind::String]) {
            Ok(Expr::Literal { value: copy_value(&self.previous().literal) })
        } else if self.matches(&[TokenKind::LeftParen]) {
            let expr = match self.expression() {
                Ok(expr) => expr,
                Err(error) => {
                    return Err(error);
                },
            };
            match self.consume(TokenKind::RightParen, "Expect ')' after expression.") {
                Ok(_) => {},
                Err(error) => {
                    return Err(error);
                },
            }
            Ok(Expr::Grouping { expression: Box::new(expr) })
        } else {
            Err(self.error("Expect expression."))
        }
    }

    /// Consumes the token at the cursor if it is of `kind`; if it is not,
    /// that is the syntax error that `message` describes.
    fn consume(&mut self, kind: TokenKind, message: &str) -> (result: Result<(), ParseError>)
        requires
            old(self).wf(),
            kind != TokenKind::Eof,
        ensures
            final(self).wf(),
            final(self).tokens == old(self).tokens,
            result is Ok == (old(self).tokens()[old(self).position()].kind == kind),
            result is Ok ==> final(self).current == old(self).current + 1 && final(self).reported()
                == old(self).reported(),
            result is Err ==> final(self).current == old(self).current && final(self).reported()
                == old(self).reported().push(
                error_at_token(old(self).tokens()[old(self).position()], message@),
            ),
    {
        if self.check(kind) {
            self.advance();
            return Ok(());
        }
        Err(self.error(message))
    }

    /// Records the syntax error at the token at the cursor.
    fn error(&mut self, message: &str) -> (error: ParseError)
        requires
            old(self).wf(),
        ensures
            final(self).wf(),
            final(self).tokens == old(self).tokens,
            final(self).current == old(self).current,
            final(self).reported() == old(self).reported().push(
                error_at_token(old(self).tokens()[old(self).position()], message@),
            ),
    {
        let diagnostic = err_at(self.peek(), message);
        proof {
            lemma_diagnostics_view_push(self.diagnostics@, diagnostic);
        }
        self.diagnostics.push(diagnostic);
        ParseError
    }

    /// Consumes the token at the cursor if its kind is one of `types`.
    fn matches(&mut self, types: &[TokenKind]) -> (r: bool)
        requires
            old(self).wf(),
        ensures
            final(self).wf(),
            final(self).tokens == old(self).tokens,
            final(self).diagnostics == old(self).diagnostics,
            r == (old(self).tokens()[old(self).position()].kind != TokenKind::Eof && exists|
                i: int,
            |
                0 <= i < types@.len() && types@[i] == old(self).tokens()[old(self).position()].kind),
            final(self).current == if r {
                old(self).current + 1
            } else {
                old(self).current as int
            },
    {
        let mut i: usize = 0;
        while i < types.len()
            invariant
                self.wf(),
                i <= types.len(),
                self.tokens == old(self).tokens,
                self.diagnostics == old(self).diagnostics,
                self.current == old(self).current,
                forall|k: int|
                    0 <= k < i ==> !(self.tokens()[self.position()].kind != TokenKind::Eof
                        && types@[k] == self.tokens()[self.position()].kind),
            decreases types.len() - i,
        {
            if self.check(types[i]) {
                self.advance();
                return true;
            }
            i += 1;
        }
        false
    }

    /// Whether the token at the cursor is of `ty` and not the end of input.
    fn check(&self, ty: TokenKind) -> (r: bool)
        requires
            self.wf(),
        ensures
            r == (self.tokens()[self.position()].kind != TokenKind::Eof && self.tokens()[
                self.position()
            ].kind == ty),
    {
        if self.at_end() {
            false
        } else {
            self.peek().kind == ty
        }
    }

    /// Moves to the next token, unless the cursor is at the end of input.
    fn advance(&mut self)
        requires
            old(self).wf(),
        ensures
            final(self).wf(),
            final(self).tokens == old(self).tokens,
            final(self).diagnostics == old(self).diagnostics,
            final(self).current == if old(self).tokens()[old(self).position()].kind
                == TokenKind::Eof {
                old(self).current as int
            } else {
                old(self).current + 1
            },
    {
        if !self.at_end() {
            assert(self.tokens().last().kind == TokenKind::Eof);
            assert(self.current + 1 < self.tokens.len());
            self.current += 1;
        }
    }

    /// Whether the cursor is at the end of input.
    fn at_end(&self) -> (r: bool)
        requires
            self.wf(),
        ensures
            r == (self.tokens()[self.position()].kind == TokenKind::Eof),
    {
        self.peek().kind == TokenKind::Eof
    }

    /// The token at the cursor.
    fn peek(&self) -> (token: &Token)
        requires
            self.wf(),
        ensures
            token@ == self.tokens()[self.position()],
            *token == self.tokens@[self.current as int],
    {
        &self.tokens[self.current]
    }

    /// The token before the cursor.
    fn previous(&self) -> (token: &Token)
        requires
            self.wf(),
            self.current > 0,
        ensures
            token@ == self.tokens()[self.position() - 1],
            *token == self.tokens@[self.current - 1],
    {
        &self.tokens[self.current - 1]
    }

    /// After a syntax error: skips tokens up to the next place where a
    /// statement may begin. At least one token is skipped unless the cursor
    /// is at the end of input; then the parser stops at the first place that
    /// is the end of input, lies behind a semicolon, or holds a token that
    /// begins a statement.
    pub fn synchronize(&mut self)
        requires
            old(self).wf(),
        ensures
            final(self).wf(),
            final(self).tokens() == old(self).tokens(),
            final(self).reported() == old(self).reported(),
            old(self).tokens()[old(self).position()].kind == TokenKind::Eof ==> final(self).position() == old(self).position(),
            old(self).tokens()[old(self).position()].kind != TokenKind::Eof ==> {
                &&& old(self).position() < final(self).position()
                &&& is_boundary(old(self).tokens(), final(self).position())
                &&& forall|k: int|
                    old(self).position() < k < final(self).position() ==> !is_boundary(
                        old(self).tokens(),
                        k,
                    )
            },
    {
        self.advance();
        while !self.at_end()
            invariant
                self.wf(),
                self.tokens == old(self).tokens,
                self.diagnostics == old(self).diagnostics,
                old(self).wf(),
                old(self).tokens()[old(self).position()].kind == TokenKind::Eof ==> self.current
                    == old(self).current,
                old(self).tokens()[old(self).position()].kind != TokenKind::Eof ==> old(self).current < self.current,
                forall|k: int|
                    old(self).position() < k < self.position() ==> !is_boundary(
                        old(self).tokens(),
                        k,
                    ),
            decreases self.tokens@.len() - self.current,
        {
            if self.previous().kind == TokenKind::Semicolon {
                return ;
            }
            match self.peek().kind {
                TokenKind::Class
                | TokenKind::Fun
                | TokenKind::Var
                | TokenKind::For
                | TokenKind::If
                | TokenKind::While
                | TokenKind::Print
                | TokenKind::Return => {
                    return ;
                },
                _ => {},
            }
            self.advance();
        }
    }
}

} // verus!
