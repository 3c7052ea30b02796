//! What a parsed expression is, said without following the parser.
//!
//! Three things make an expression the parse of the tokens from a place on.
//! Its operators stand where the levels of the grammar allow them: on the
//! left of an operator only what binds as tightly or tighter, on the right
//! only what binds tighter, so every level associates to the left. Read
//! from left to right, with its parentheses, it is the tokens from that
//! place on, none left out and none twice. And it is as long as it can be:
//! the token behind it is no operator that could go on with it.

use crate::ast::ExprView;
use crate::grammar::{
    binary, is_operator, parse_level, parse_operand, parse_primary, parse_rest, parse_unary,
    rank, terminated, Level, Parse,
};
use crate::object::ObjectView;
use crate::semantics::is_unary_operator;
use crate::token::{TokenKind, TokenView};
use vstd::prelude::*;

verus! {

/// The place of a level among the levels, the loosest first. `unary` has the
/// place 4 and `primary` the place 5.
pub open spec fn place(level: Level) -> nat {
    match level {
        Level::Equality => 0,
        Level::Comparison => 1,
        Level::Term => 2,
        Level::Factor => 3,
    }
}

/// The level of a binary operator.
pub open spec fn level_of(kind: TokenKind) -> Option<Level> {
    if is_operator(Level::Equality, kind) {
        Some(Level::Equality)
    } else if is_operator(Level::Comparison, kind) {
        Some(Level::Comparison)
    } else if is_operator(Level::Term, kind) {
        Some(Level::Term)
    } else if is_operator(Level::Factor, kind) {
        Some(Level::Factor)
    } else {
        None
    }
}

/// Whether `expr` may stand where the grammar asks for something of the
/// place `min` or tighter, and is itself built as the grammar builds.
pub open spec fn fits(expr: ExprView, min: nat) -> bool
    decreases expr,
{
    match expr {
        ExprView::Binary { left, operator, right } => match level_of(operator.kind) {
            Some(level) => place(level) >= min && fits(*left, place(level)) && fits(
                *right,
                place(level) + 1,
            ),
            None => false,
        },
        ExprView::Unary { operator, right } => min <= 4 && is_unary_operator(operator.kind)
            && fits(*right, 4),
        ExprView::Grouping { expression } => min <= 5 && fits(*expression, 0),
        ExprView::Literal { value } => min <= 5,
    }
}

/// The number of tokens that write `expr`.
pub open spec fn width(expr: ExprView) -> nat
    decreases expr,
{
    match expr {
        ExprView::Binary { left, operator, right } => width(*left) + 1 + width(*right),
        ExprView::Unary { operator, right } => 1 + width(*right),
        ExprView::Grouping { expression } => 2 + width(*expression),
        ExprView::Literal { value } => 1,
    }
}

/// The value that a token denotes as a literal, if it is one.
pub open spec fn literal_of(token: TokenView) -> Option<Option<ObjectView>> {
    if token.kind == TokenKind::False {
        Some(Some(ObjectView::Boolean(false)))
    } else if token.kind == TokenKind::True {
        Some(Some(ObjectView::Boolean(true)))
    } else if token.kind == TokenKind::Nil {
        Some(None)
    } else if token.kind == TokenKind::Number || token.kind == TokenKind::String {
        Some(token.literal)
    } else {
        None
    }
}

/// Whether the tokens from `pos` on write `expr`: a literal is one token, a
/// unary operator stands before its operand, a binary one between its
/// operands, and parentheses stand around a grouping.
pub open spec fn spells(expr: ExprView, tokens: Seq<TokenView>, pos: int) -> bool
    decreases expr,
{
    match expr {
        ExprView::Binary { left, operator, right } => {
            &&& spells(*left, tokens, pos)
            &&& 0 <= pos + width(*left) < tokens.len()
            &&& tokens[pos + width(*left)] == operator
            &&& spells(*right, tokens, pos + width(*left) + 1)
        },
        ExprView::Unary { operator, right } => {
            &&& 0 <= pos < tokens.len()
            &&& tokens[pos] == operator
            &&& spells(*right, tokens, pos + 1)
        },
        ExprView::Grouping { expression } => {
            &&& 0 <= pos < tokens.len()
            &&& tokens[pos].kind == TokenKind::LeftParen
            &&& spells(*expression, tokens, pos + 1)
            &&& pos + 1 + width(*expression) < tokens.len()
            &&& tokens[pos + 1 + width(*expression)].kind == TokenKind::RightParen
        },
        ExprView::Literal { value } => {
            &&& 0 <= pos < tokens.len()
            &&& literal_of(tokens[pos]) == Some(value)
        },
    }
}

/// Whether the token at `at` is no operator of the place `min` or tighter:
/// whether an expression of that place that ends before `at` cannot go on.
pub open spec fn stops(tokens: Seq<TokenView>, at: int, min: nat) -> bool {
    match level_of(tokens[at].kind) {
        Some(level) => place(level) < min,
        None => true,
    }
}

/// Whether `parse`, if it gave an expression, gave one that fits the place
/// `min`, is written by the tokens from `pos` up to where the parse ended,
/// and cannot go on there.
pub open spec fn derived(tokens: Seq<TokenView>, pos: int, parse: Parse, min: nat) -> bool {
    match parse {
        Parse::Parsed { expr, next } => {
            &&& fits(expr, min)
            &&& spells(expr, tokens, pos)
            &&& next == pos + width(expr)
            &&& stops(tokens, next, min)
        },
        Parse::Failed { at, message } => true,
    }
}

/// What fits a place fits every looser place.
pub proof fn lemma_fits_looser(expr: ExprView, min: nat, looser: nat)
    requires
        fits(expr, min),
        looser <= min,
    ensures
        fits(expr, looser),
{
}

/// What `primary` gives is a literal or a grouping, written by the tokens
/// that were read.
pub proof fn lemma_primary_derived(tokens: Seq<TokenView>, pos: int)
    requires
        terminated(tokens),
        0 <= pos < tokens.len(),
    ensures
        derived(tokens, pos, parse_primary(tokens, pos), 5),
    decreases tokens.len() - pos, 0nat,
{
    if tokens[pos].kind == TokenKind::LeftParen {
        lemma_level_derived(tokens, pos + 1, Level::Equality);
    }
}

/// What `unary` gives is built of unary operators over a primary expression,
/// written by the tokens that were read.
pub proof fn lemma_unary_derived(tokens: Seq<TokenView>, pos: int)
    requires
        terminated(tokens),
        0 <= pos < tokens.len(),
    ensures
        derived(tokens, pos, parse_unary(tokens, pos), 4),
    decreases tokens.len() - pos, 1nat,
{
    if tokens[pos].kind == TokenKind::Bang || tokens[pos].kind == TokenKind::Minus {
        lemma_unary_derived(tokens, pos + 1);
    } else {
        lemma_primary_derived(tokens, pos);
    }
}

/// What an operand of a level is.
pub proof fn lemma_operand_derived(tokens: Seq<TokenView>, pos: int, level: Level)
    requires
        terminated(tokens),
        0 <= pos < tokens.len(),
    ensures
        derived(tokens, pos, parse_operand(tokens, pos, level), place(level) + 1),
    decreases tokens.len() - pos, (rank(level) - 1) as nat,
{
    match level {
        Level::Equality => lemma_level_derived(tokens, pos, Level::Comparison),
        Level::Comparison => lemma_level_derived(tokens, pos, Level::Term),
        Level::Term => lemma_level_derived(tokens, pos, Level::Factor),
        Level::Factor => lemma_unary_derived(tokens, pos),
    }
}

/// The parse of a level gives an expression that respects the levels of the
/// grammar and associates to the left, that the tokens read write exactly,
/// and that is as long as it can be.
pub proof fn lemma_level_derived(tokens: Seq<TokenView>, pos: int, level: Level)
    requires
        terminated(tokens),
        0 <= pos < tokens.len(),
    ensures
        derived(tokens, pos, parse_level(tokens, pos, level), place(level)),
    decreases tokens.len() - pos, rank(level),
{
    lemma_operand_derived(tokens, pos, level);
    crate::grammar::lemma_operand_advances(tokens, pos, level);
    match parse_operand(tokens, pos, level) {
        Parse::Parsed { expr, next } => {
            lemma_rest_derived(tokens, pos, next, level, expr);
        },
        Parse::Failed { at, message } => {},
    }
}

/// What follows an operand makes, with it, an expression of the level.
pub proof fn lemma_rest_derived(
    tokens: Seq<TokenView>,
    begin: int,
    pos: int,
    level: Level,
    left: ExprView,
)
    requires
        terminated(tokens),
        0 <= begin <= pos < tokens.len(),
        fits(left, place(level)),
        spells(left, tokens, begin),
        pos == begin + width(left),
        stops(tokens, pos, place(level) + 1),
    ensures
        derived(tokens, begin, parse_rest(tokens, pos, level, left), place(level)),
    decreases tokens.len() - pos, (rank(level) - 2) as nat,
{
    if is_operator(level, tokens[pos].kind) {
        lemma_operand_derived(tokens, pos + 1, level);
        crate::grammar::lemma_operand_advances(tokens, pos + 1, level);
        match parse_operand(tokens, pos + 1, level) {
            Parse::Parsed { expr, next } => {
                let both = binary(left, tokens[pos], expr);
                assert(level_of(tokens[pos].kind) == Some(level));
                lemma_rest_derived(tokens, begin, next, level, both);
            },
            Parse::Failed { at, message } => {},
        }
    }
}

} // verus!
