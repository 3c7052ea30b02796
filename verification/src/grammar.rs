//! What parsing means: the expression that a sequence of tokens denotes.
//!
//! ```text
//! expression -> equality
//! equality   -> comparison ( ( "!=" | "==" ) comparison )*
//! comparison -> term ( ( ">" | ">=" | "<" | "<=" ) term )*
//! term       -> factor ( ( "-" | "+" ) factor )*
//! factor     -> unary ( ( "/" | "*" ) unary )*
//! unary      -> ( "!" | "-" ) unary | primary
//! primary    -> NUMBER | STRING | "true" | "false" | "nil"
//!             | "(" expression ")"
//! ```
//!
//! Every binary level associates to the left. The functions below read the
//! tokens from a position on and say what is parsed and where the parse
//! ends, or at which token it fails and why.

use crate::ast::ExprView;
use crate::object::ObjectView;
use crate::semantics::well_formed;
use crate::token::{TokenKind, TokenView};
use vstd::prelude::*;

verus! {

/// The four levels of binary operators, from the loosest to the tightest.
#[derive(Clone, Copy, Debug, PartialEq, Eq, Structural)]
pub enum Level {
    Equality,
    Comparison,
    Term,
    Factor,
}

/// The outcome of a parse.
pub enum Parse {
    /// An expression was read; `next` is the place of the first token after it.
    Parsed { expr: ExprView, next: int },
    /// The token at `at` cannot stand where it stands.
    Failed { at: int, message: Seq<char> },
}

/// Tokens as a parser takes them: the last one, and at least that one, is
/// the end-of-input token.
pub open spec fn terminated(tokens: Seq<TokenView>) -> bool {
    tokens.len() > 0 && tokens.last().kind == TokenKind::Eof
}

/// The operators of a level.
pub open spec fn is_operator(level: Level, kind: TokenKind) -> bool {
    match level {
        Level::Equality => kind == TokenKind::BangEqual || kind == TokenKind::EqualEqual,
        Level::Comparison => kind == TokenKind::Greater || kind == TokenKind::GreaterEqual || kind
            == TokenKind::Less || kind == TokenKind::LessEqual,
        Level::Term => kind == TokenKind::Minus || kind == TokenKind::Plus,
        Level::Factor => kind == TokenKind::Slash || kind == TokenKind::Star,
    }
}

/// The place of a level in the order of the recursion: a tighter level has a
/// smaller rank.
pub open spec fn rank(level: Level) -> nat {
    match level {
        Level::Equality => 12,
        Level::Comparison => 9,
        Level::Term => 6,
        Level::Factor => 3,
    }
}

/// What `left operator right` is.
pub open spec fn binary(left: ExprView, operator: TokenView, right: ExprView) -> ExprView {
    ExprView::Binary { left: Box::new(left), operator, right: Box::new(right) }
}

/// The parse of `primary` at `pos`.
pub open spec fn parse_primary(tokens: Seq<TokenView>, pos: int) -> Parse
    decreases tokens.len() - pos, 0nat,
{
    if !(0 <= pos < tokens.len()) {
        Parse::Failed { at: pos, message: "Expect expression."@ }
    } else {
        let token = tokens[pos];
        if token.kind == TokenKind::False {
            Parse::Parsed {
                expr: ExprView::Literal { value: Some(ObjectView::Boolean(false)) },
                next: pos + 1,
            }
        } else if token.kind == TokenKind::True {
            Parse::Parsed {
                expr: ExprView::Literal { value: Some(ObjectView::Boolean(true)) },
                next: pos + 1,
            }
        } else if token.kind == TokenKind::Nil {
            Parse::Parsed { expr: ExprView::Literal { value: None }, next: pos + 1 }
        } else if token.kind == TokenKind::Number || token.kind == TokenKind::String {
            Parse::Parsed { expr: ExprView::Literal { value: token.literal }, next: pos + 1 }
        } else if token.kind == TokenKind::LeftParen {
            match parse_level(tokens, pos + 1, Level::Equality) {
                Parse::Parsed { expr, next } => {
                    if 0 <= next < tokens.len() && tokens[next].kind == TokenKind::RightParen {
                        Parse::Parsed {
                            expr: ExprView::Grouping { expression: Box::new(expr) },
                            next: next + 1,
                        }
                    } else {
                        Parse::Failed { at: next, message: "Expect ')' after expression."@ }
                    }
                },
                Parse::Failed { at, message } => Parse::Failed { at, message },
            }
        } else {
            Parse::Failed { at: pos, message: "Expect expression."@ }
        }
    }
}

/// The parse of `unary` at `pos`.
pub open spec fn parse_unary(tokens: Seq<TokenView>, pos: int) -> Parse
    decreases tokens.len() - pos, 1nat,
{
    if 0 <= pos < tokens.len() && (tokens[pos].kind == TokenKind::Bang || tokens[pos].kind
        == TokenKind::Minus) {
        match parse_unary(tokens, pos + 1) {
            Parse::Parsed { expr, next } => Parse::Parsed {
                expr: ExprView::Unary { operator: tokens[pos], right: Box::new(expr) },
                next,
            },
            Parse::Failed { at, message } => Parse::Failed { at, message },
        }
    } else {
        parse_primary(tokens, pos)
    }
}

/// The parse of an operand of `level` at `pos`: the next tighter level, or
/// `unary` under `factor`.
pub open spec fn parse_operand(tokens: Seq<TokenView>, pos: int, level: Level) -> Parse
    decreases tokens.len() - pos, (rank(level) - 1) as nat,
{
    match level {
        Level::Equality => parse_level(tokens, pos, Level::Comparison),
        Level::Comparison => parse_level(tokens, pos, Level::Term),
        Level::Term => parse_level(tokens, pos, Level::Factor),
        Level::Factor => parse_unary(tokens, pos),
    }
}

/// The parse of `level` at `pos`: an operand, then operators of the level
/// with an operand each, as long as they come.
pub open spec fn parse_level(tokens: Seq<TokenView>, pos: int, level: Level) -> Parse
    decreases tokens.len() - pos, rank(level),
{
    match parse_operand(tokens, pos, level) {
        Parse::Parsed { expr, next } => {
            // A parse ends behind its beginning and inside the tokens: see
            // `lemma_parse_advances`.
            if pos <= next <= tokens.len() {
                parse_rest(tokens, next, level, expr)
            } else {
                Parse::Failed { at: pos, message: Seq::<char>::empty() }
            }
        },
        Parse::Failed { at, message } => Parse::Failed { at, message },
    }
}

/// The parse of what may follow the operand `left` of `level`, which ends
/// before `pos`: each further operator takes what was read so far as its left
/// operand.
pub open spec fn parse_rest(tokens: Seq<TokenView>, pos: int, level: Level, left: ExprView) -> Parse
    decreases tokens.len() - pos, (rank(level) - 2) as nat,
{
    if 0 <= pos < tokens.len() && is_operator(level, tokens[pos].kind) {
        match parse_operand(tokens, pos + 1, level) {
            Parse::Parsed { expr, next } => {
                // A parse ends behind its beginning and inside the tokens: see
                // `lemma_parse_advances`.
                if pos < next <= tokens.len() {
                    parse_rest(tokens, next, level, binary(left, tokens[pos], expr))
                } else {
                    Parse::Failed { at: pos, message: Seq::<char>::empty() }
                }
            },
            Parse::Failed { at, message } => Parse::Failed { at, message },
        }
    } else {
        Parse::Parsed { expr: left, next: pos }
    }
}

/// The parse of `expression` at `pos`.
pub open spec fn parse_expression(tokens: Seq<TokenView>, pos: int) -> Parse {
    parse_level(tokens, pos, Level::Equality)
}

/// The kinds of token that begin a statement.
pub open spec fn begins_statement(kind: TokenKind) -> bool {
    kind == TokenKind::Class || kind == TokenKind::Fun || kind == TokenKind::Var || kind
        == TokenKind::For || kind == TokenKind::If || kind == TokenKind::While || kind
        == TokenKind::Print || kind == TokenKind::Return
}

/// Whether a parser that looks for the next statement stops at `pos`: at the
/// end of input, behind a semicolon, or before a token that begins a
/// statement.
pub open spec fn is_boundary(tokens: Seq<TokenView>, pos: int) -> bool {
    ||| tokens[pos].kind == TokenKind::Eof
    ||| (pos > 0 && tokens[pos - 1].kind == TokenKind::Semicolon)
    ||| begins_statement(tokens[pos].kind)
}

/// A parse that began at `pos` ended behind `pos` and before the end-of-input
/// token, or failed at a token at or behind `pos`.
pub open spec fn advances(tokens: Seq<TokenView>, pos: int, parse: Parse) -> bool {
    match parse {
        Parse::Parsed { expr, next } => pos < next < tokens.len(),
        Parse::Failed { at, message } => pos <= at < tokens.len(),
    }
}

/// A parse that went on from `pos` ended at or behind `pos` and before the
/// end of the tokens, or failed at a token behind `pos`.
pub open spec fn goes_on(tokens: Seq<TokenView>, pos: int, parse: Parse) -> bool {
    match parse {
        Parse::Parsed { expr, next } => pos <= next < tokens.len(),
        Parse::Failed { at, message } => pos < at < tokens.len(),
    }
}

/// `primary` consumes at least one token, never the end-of-input token, and
/// fails at a token of the input that is not before its beginning.
pub proof fn lemma_primary_advances(tokens: Seq<TokenView>, pos: int)
    requires
        terminated(tokens),
        0 <= pos < tokens.len(),
    ensures
        advances(tokens, pos, parse_primary(tokens, pos)),
    decreases tokens.len() - pos, 0nat,
{
    if tokens[pos].kind == TokenKind::LeftParen {
        lemma_parse_advances(tokens, pos + 1, Level::Equality);
    }
}

/// `unary` consumes at least one token, never the end-of-input token, and
/// fails at a token of the input that is not before its beginning.
pub proof fn lemma_unary_advances(tokens: Seq<TokenView>, pos: int)
    requires
        terminated(tokens),
        0 <= pos < tokens.len(),
    ensures
        advances(tokens, pos, parse_unary(tokens, pos)),
    decreases tokens.len() - pos, 1nat,
{
    if tokens[pos].kind == TokenKind::Bang || tokens[pos].kind == TokenKind::Minus {
        lemma_unary_advances(tokens, pos + 1);
    } else {
        lemma_primary_advances(tokens, pos);
    }
}

/// An operand consumes at least one token, never the end-of-input token, and
/// fails at a token of the input that is not before its beginning.
pub proof fn lemma_operand_advances(tokens: Seq<TokenView>, pos: int, level: Level)
    requires
        terminated(tokens),
        0 <= pos < tokens.len(),
    ensures
        advances(tokens, pos, parse_operand(tokens, pos, level)),
    decreases tokens.len() - pos, (rank(level) - 1) as nat,
{
    match level {
        Level::Equality => lemma_parse_advances(tokens, pos, Level::Comparison),
        Level::Comparison => lemma_parse_advances(tokens, pos, Level::Term),
        Level::Term => lemma_parse_advances(tokens, pos, Level::Factor),
        Level::Factor => lemma_unary_advances(tokens, pos),
    }
}

/// Every level consumes at least one token, never the end-of-input token,
/// and fails at a token of the input that is not before its beginning. So
/// the two tests on `next` in `parse_level` and `parse_rest` always succeed.
pub proof fn lemma_parse_advances(tokens: Seq<TokenView>, pos: int, level: Level)
    requires
        terminated(tokens),
        0 <= pos < tokens.len(),
    ensures
        advances(tokens, pos, parse_level(tokens, pos, level)),
    decreases tokens.len() - pos, rank(level),
{
    lemma_operand_advances(tokens, pos, level);
    match parse_operand(tokens, pos, level) {
        Parse::Parsed { expr, next } => {
            lemma_rest_goes_on(tokens, next, level, expr);
        },
        Parse::Failed { at, message } => {},
    }
}

/// What follows an operand ends at or behind its beginning and before the
/// end of the tokens.
pub proof fn lemma_rest_goes_on(tokens: Seq<TokenView>, pos: int, level: Level, left: ExprView)
    requires
        terminated(tokens),
        0 <= pos < tokens.len(),
    ensures
        goes_on(tokens, pos, parse_rest(tokens, pos, level, left)),
    decreases tokens.len() - pos, (rank(level) - 2) as nat,
{
    if is_operator(level, tokens[pos].kind) {
        lemma_operand_advances(tokens, pos + 1, level);
        match parse_operand(tokens, pos + 1, level) {
            Parse::Parsed { expr, next } => {
                lemma_rest_goes_on(tokens, next, level, binary(left, tokens[pos], expr));
            },
            Parse::Failed { at, message } => {},
        }
    }
}

/// What a parse gave is an expression whose every operator is one that its
/// place allows.
pub open spec fn gives_well_formed(parse: Parse) -> bool {
    match parse {
        Parse::Parsed { expr, next } => well_formed(expr),
        Parse::Failed { at, message } => true,
    }
}

/// `primary` gives a well-formed expression.
pub proof fn lemma_primary_well_formed(tokens: Seq<TokenView>, pos: int)
    ensures
        gives_well_formed(parse_primary(tokens, pos)),
    decreases tokens.len() - pos, 0nat,
{
    if 0 <= pos < tokens.len() && tokens[pos].kind == TokenKind::LeftParen {
        lemma_parse_well_formed(tokens, pos + 1, Level::Equality);
    }
}

/// `unary` gives a well-formed expression.
pub proof fn lemma_unary_well_formed(tokens: Seq<TokenView>, pos: int)
    ensures
        gives_well_formed(parse_unary(tokens, pos)),
    decreases tokens.len() - pos, 1nat,
{
    if 0 <= pos < tokens.len() && (tokens[pos].kind == TokenKind::Bang || tokens[pos].kind
        == TokenKind::Minus) {
        lemma_unary_well_formed(tokens, pos + 1);
    } else {
        lemma_primary_well_formed(tokens, pos);
    }
}

/// An operand is a well-formed expression.
pub proof fn lemma_operand_well_formed(tokens: Seq<TokenView>, pos: int, level: Level)
    ensures
        gives_well_formed(parse_operand(tokens, pos, level)),
    decreases tokens.len() - pos, (rank(level) - 1) as nat,
{
    match level {
        Level::Equality => lemma_parse_well_formed(tokens, pos, Level::Comparison),
        Level::Comparison => lemma_parse_well_formed(tokens, pos, Level::Term),
        Level::Term => lemma_parse_well_formed(tokens, pos, Level::Factor),
        Level::Factor => lemma_unary_well_formed(tokens, pos),
    }
}

/// Every level gives a well-formed expression: one that can be evaluated.
pub proof fn lemma_parse_well_formed(tokens: Seq<TokenView>, pos: int, level: Level)
    ensures
        gives_well_formed(parse_level(tokens, pos, level)),
    decreases tokens.len() - pos, rank(level),
{
    lemma_operand_well_formed(tokens, pos, level);
    match parse_operand(tokens, pos, level) {
        Parse::Parsed { expr, next } => {
            if pos <= next <= tokens.len() {
                lemma_rest_well_formed(tokens, next, level, expr);
            }
        },
        Parse::Failed { at, message } => {},
    }
}

/// What follows a well-formed operand makes a well-formed expression with it.
pub proof fn lemma_rest_well_formed(tokens: Seq<TokenView>, pos: int, level: Level, left: ExprView)
    requires
        well_formed(left),
    ensures
        gives_well_formed(parse_rest(tokens, pos, level, left)),
    decreases tokens.len() - pos, (rank(level) - 2) as nat,
{
    if 0 <= pos < tokens.len() && is_operator(level, tokens[pos].kind) {
        lemma_operand_well_formed(tokens, pos + 1, level);
        match parse_operand(tokens, pos + 1, level) {
            Parse::Parsed { expr, next } => {
                if pos < next <= tokens.len() {
                    lemma_rest_well_formed(tokens, next, level, binary(left, tokens[pos], expr));
                }
            },
            Parse::Failed { at, message } => {},
        }
    }
}

} // verus!
