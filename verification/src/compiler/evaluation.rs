//! What the evaluation of an expression of a program means.
//!
//! Numbers are 32-bit integers. An evaluation gives a value, fails with an
//! error, or is not defined: where a result does not fit in 32 bits, where
//! the divisor is zero, where the right operand of `or` is no boolean, and
//! for the forms that the evaluator does not take (`this`, `super`, a name
//! or a parenthesized expression as a value, a call or member access behind
//! anything but a name).
//!
//! On each level the operands are folded from left to right. The right
//! operand is evaluated before the kinds of the two operands are tested, the
//! left kind before the right kind.

use super::errors::ErrorView;
use super::literal::integer_literal;
use super::types::TypeView;
use super::SymbolView;
use crate::program::{
    Call, Comparison, ComparisonOperator, Equality, EqualityOperator, Factor, FactorOperator,
    LogicAnd, LogicOr, Primary, Term, TermOperator, Unary, UnaryOperator,
};
use vstd::prelude::*;

verus! {

/// How an evaluation ends.
pub enum Evaluated {
    /// With a value.
    Value(TypeView),
    /// With an error.
    Failed(ErrorView),
    /// Not at all: the evaluation is not defined.
    Undefined,
}

/// The integer that `value` is, or the error that it is none.
pub open spec fn integer_of(value: TypeView) -> Result<i32, ErrorView> {
    match value {
        TypeView::Integer(i) => Ok(i),
        _ => Err(ErrorView::InvalidType(value)),
    }
}

/// The boolean that `value` is, or the error that it is none.
pub open spec fn boolean_of(value: TypeView) -> Result<bool, ErrorView> {
    match value {
        TypeView::Boolean(b) => Ok(b),
        _ => Err(ErrorView::InvalidType(value)),
    }
}

/// The integer `n` as the end of an evaluation, if it fits in 32 bits.
pub open spec fn integer(n: int) -> Evaluated {
    if i32::MIN <= n <= i32::MAX {
        Evaluated::Value(TypeView::Integer(n as i32))
    } else {
        Evaluated::Undefined
    }
}

/// The boolean `b` as the end of an evaluation.
pub open spec fn boolean(b: bool) -> Evaluated {
    Evaluated::Value(TypeView::Boolean(b))
}

/// The quotient of two integers, rounded towards zero.
pub open spec fn quotient(i: int, j: int) -> int
    recommends
        j != 0,
{
    let magnitude = (if i < 0 {
        -i
    } else {
        i
    }) / (if j < 0 {
        -j
    } else {
        j
    });
    if (i < 0) != (j < 0) {
        -magnitude
    } else {
        magnitude
    }
}

/// The first symbol of the given name among `symbols[from..]`.
pub open spec fn lookup_from(symbols: Seq<SymbolView>, name: Seq<char>, from: int) -> Option<
    SymbolView,
>
    decreases symbols.len() - from,
{
    if !(0 <= from < symbols.len()) {
        None
    } else if symbols[from].name == name {
        Some(symbols[from])
    } else {
        lookup_from(symbols, name, from + 1)
    }
}

/// The first symbol of the given name.
pub open spec fn lookup(symbols: Seq<SymbolView>, name: Seq<char>) -> Option<SymbolView> {
    lookup_from(symbols, name, 0)
}

/// The value of a primary expression.
pub open spec fn primary_value(primary: Primary) -> Evaluated {
    match primary {
        Primary::True => boolean(true),
        Primary::False => boolean(false),
        Primary::Nil => Evaluated::Value(TypeView::Nil),
        Primary::Number(n) => match integer_literal(n@) {
            Some(i) => Evaluated::Value(TypeView::Integer(i)),
            None => Evaluated::Failed(ErrorView::BadIntegerLiteral(n@)),
        },
        Primary::String(s) => Evaluated::Value(TypeView::String(s@)),
        _ => Evaluated::Undefined,
    }
}

/// The value of a call. A name is looked up and, as no symbol can be
/// called, is an error either way; anything else is a value only if no call
/// or member access stands behind it.
pub open spec fn call_value(symbols: Seq<SymbolView>, call: Call) -> Evaluated {
    match call.target {
        Primary::Identifier(name) => match lookup(symbols, name@) {
            None => Evaluated::Failed(ErrorView::UndefinedSymbol(name@)),
            Some(symbol) => Evaluated::Failed(ErrorView::BadCallTarget(symbol)),
        },
        primary => if call.rhs@.len() > 0 {
            Evaluated::Undefined
        } else {
            primary_value(primary)
        },
    }
}

/// What a unary operator makes of a value: `!` takes a boolean, `-` an
/// integer.
pub open spec fn unary_step(operator: UnaryOperator, value: TypeView) -> Evaluated {
    match (operator, value) {
        (UnaryOperator::LogicNot, TypeView::Boolean(b)) => boolean(!b),
        (UnaryOperator::Neg, TypeView::Integer(i)) => integer(-i),
        _ => Evaluated::Failed(ErrorView::MismatchedUnaryOperator(operator, value)),
    }
}

/// The value of a unary expression.
pub open spec fn unary_value(symbols: Seq<SymbolView>, unary: Unary) -> Evaluated
    decreases unary,
{
    match unary {
        Unary::Unary { operator, right } => match unary_value(symbols, *right) {
            Evaluated::Value(value) => unary_step(operator, value),
            other => other,
        },
        Unary::Call(call) => call_value(symbols, call),
    }
}

/// What `/` or `*` makes of two values, which must be integers.
pub open spec fn factor_step(left: TypeView, operator: FactorOperator, right: TypeView) -> Evaluated {
    match (integer_of(left), integer_of(right)) {
        (Err(e), _) => Evaluated::Failed(e),
        (Ok(i), Err(e)) => Evaluated::Failed(e),
        (Ok(i), Ok(j)) => match operator {
            FactorOperator::Slash => if j == 0 {
                Evaluated::Undefined
            } else {
                integer(quotient(i as int, j as int))
            },
            FactorOperator::Star => integer(i * j),
        },
    }
}

/// The value of the first operand of a factor with the next `n` folded in.
pub open spec fn factor_prefix(symbols: Seq<SymbolView>, factor: Factor, n: nat) -> Evaluated
    decreases n,
{
    if n == 0 {
        unary_value(symbols, factor.left)
    } else {
        match factor_prefix(symbols, factor, (n - 1) as nat) {
            Evaluated::Value(left) => match unary_value(symbols, factor.rest@[n - 1].1) {
                Evaluated::Value(right) => factor_step(left, factor.rest@[n - 1].0, right),
                other => other,
            },
            other => other,
        }
    }
}

/// The value of a factor.
pub open spec fn factor_value(symbols: Seq<SymbolView>, factor: Factor) -> Evaluated {
    factor_prefix(symbols, factor, factor.rest@.len())
}

/// What `-` or `+` makes of two values, which must be integers.
pub open spec fn term_step(left: TypeView, operator: TermOperator, right: TypeView) -> Evaluated {
    match (integer_of(left), integer_of(right)) {
        (Err(e), _) => Evaluated::Failed(e),
        (Ok(i), Err(e)) => Evaluated::Failed(e),
        (Ok(i), Ok(j)) => match operator {
            TermOperator::Minus => integer(i - j),
            TermOperator::Plus => integer(i + j),
        },
    }
}

/// The value of the first operand of a term with the next `n` folded in.
pub open spec fn term_prefix(symbols: Seq<SymbolView>, term: Term, n: nat) -> Evaluated
    decreases n,
{
    if n == 0 {
        factor_value(symbols, term.left)
    } else {
        match term_prefix(symbols, term, (n - 1) as nat) {
            Evaluated::Value(left) => match factor_value(symbols, term.rest@[n - 1].1) {
                Evaluated::Value(right) => term_step(left, term.rest@[n - 1].0, right),
                other => other,
            },
            other => other,
        }
    }
}

/// The value of a term.
pub open spec fn term_value(symbols: Seq<SymbolView>, term: Term) -> Evaluated {
    term_prefix(symbols, term, term.rest@.len())
}

/// What `>`, `>=`, `<` or `<=` makes of two values, which must be integers.
pub open spec fn comparison_step(
    left: TypeView,
    operator: ComparisonOperator,
    right: TypeView,
) -> Evaluated {
    match (integer_of(left), integer_of(right)) {
        (Err(e), _) => Evaluated::Failed(e),
        (Ok(i), Err(e)) => Evaluated::Failed(e),
        (Ok(i), Ok(j)) => match operator {
            ComparisonOperator::Gt => boolean(i > j),
            ComparisonOperator::Ge => boolean(i >= j),
            ComparisonOperator::Lt => boolean(i < j),
            ComparisonOperator::Le => boolean(i <= j),
        },
    }
}

/// The value of the first operand of a comparison with the next `n` folded
/// in.
pub open spec fn comparison_prefix(
    symbols: Seq<SymbolView>,
    comparison: Comparison,
    n: nat,
) -> Evaluated
    decreases n,
{
    if n == 0 {
        term_value(symbols, comparison.left)
    } else {
        match comparison_prefix(symbols, comparison, (n - 1) as nat) {
            Evaluated::Value(left) => match term_value(symbols, comparison.rest@[n - 1].1) {
                Evaluated::Value(right) => comparison_step(
                    left,
                    comparison.rest@[n - 1].0,
                    right,
                ),
                other => other,
            },
            other => other,
        }
    }
}

/// The value of a comparison.
pub open spec fn comparison_value(symbols: Seq<SymbolView>, comparison: Comparison) -> Evaluated {
    comparison_prefix(symbols, comparison, comparison.rest@.len())
}

/// What `!=` or `==` makes of two values: values of different kinds are
/// never equal.
pub open spec fn equality_step(
    left: TypeView,
    operator: EqualityOperator,
    right: TypeView,
) -> Evaluated {
    match operator {
        EqualityOperator::Neq => boolean(left != right),
        EqualityOperator::Eq => boolean(left == right),
    }
}

/// The value of the first operand of an equality with the next `n` folded
/// in.
pub open spec fn equality_prefix(symbols: Seq<SymbolView>, equality: Equality, n: nat) -> Evaluated
    decreases n,
{
    if n == 0 {
        comparison_value(symbols, equality.left)
    } else {
        match equality_prefix(symbols, equality, (n - 1) as nat) {
            Evaluated::Value(left) => match comparison_value(symbols, equality.rest@[n - 1].1) {
                Evaluated::Value(right) => equality_step(left, equality.rest@[n - 1].0, right),
                other => other,
            },
            other => other,
        }
    }
}

/// The value of an equality.
pub open spec fn equality_value(symbols: Seq<SymbolView>, equality: Equality) -> Evaluated {
    equality_prefix(symbols, equality, equality.rest@.len())
}

/// What `and` makes of two values, which must be booleans.
pub open spec fn and_step(left: TypeView, right: TypeView) -> Evaluated {
    match (boolean_of(left), boolean_of(right)) {
        (Err(e), _) => Evaluated::Failed(e),
        (Ok(b), Err(e)) => Evaluated::Failed(e),
        (Ok(b), Ok(c)) => boolean(b && c),
    }
}

/// The value of the first operand of an `and` with the next `n` folded in.
/// Every operand is evaluated: there is no short cut.
pub open spec fn logic_and_prefix(symbols: Seq<SymbolView>, logic_and: LogicAnd, n: nat) -> Evaluated
    decreases n,
{
    if n == 0 {
        equality_value(symbols, logic_and.left)
    } else {
        match logic_and_prefix(symbols, logic_and, (n - 1) as nat) {
            Evaluated::Value(left) => match equality_value(symbols, logic_and.rest@[n - 1]) {
                Evaluated::Value(right) => and_step(left, right),
                other => other,
            },
            other => other,
        }
    }
}

/// The value of an `and`.
pub open spec fn logic_and_value(symbols: Seq<SymbolView>, logic_and: LogicAnd) -> Evaluated {
    logic_and_prefix(symbols, logic_and, logic_and.rest@.len())
}

/// What `or` makes of two values. The left one must be a boolean; with a
/// right one that is none the evaluation is not defined.
pub open spec fn or_step(left: TypeView, right: TypeView) -> Evaluated {
    match (boolean_of(left), boolean_of(right)) {
        (Err(e), _) => Evaluated::Failed(e),
        (Ok(b), Err(e)) => Evaluated::Undefined,
        (Ok(b), Ok(c)) => boolean(b || c),
    }
}

/// The value of the first operand of an `or` with the next `n` folded in.
/// Every operand is evaluated: there is no short cut.
pub open spec fn logic_or_prefix(symbols: Seq<SymbolView>, logic_or: LogicOr, n: nat) -> Evaluated
    decreases n,
{
    if n == 0 {
        logic_and_value(symbols, logic_or.left)
    } else {
        match logic_or_prefix(symbols, logic_or, (n - 1) as nat) {
            Evaluated::Value(left) => match logic_and_value(symbols, logic_or.rest@[n - 1]) {
                Evaluated::Value(right) => or_step(left, right),
                other => other,
            },
            other => other,
        }
    }
}

/// The value of an `or`.
pub open spec fn logic_or_value(symbols: Seq<SymbolView>, logic_or: LogicOr) -> Evaluated {
    logic_or_prefix(symbols, logic_or, logic_or.rest@.len())
}

/// Once the fold of a `Factor` has ended without a value, it stays as it is.
pub proof fn lemma_factor_prefix_is_final(symbols: Seq<SymbolView>, factor: Factor, k: nat, n: nat)
    requires
        k <= n,
        !(factor_prefix(symbols, factor, k) is Value),
    ensures
        factor_prefix(symbols, factor, n) == factor_prefix(symbols, factor, k),
    decreases n,
{
    if k < n {
        lemma_factor_prefix_is_final(symbols, factor, k, (n - 1) as nat);
    }
}

/// Once the fold of a `Term` has ended without a value, it stays as it is.
pub proof fn lemma_term_prefix_is_final(symbols: Seq<SymbolView>, term: Term, k: nat, n: nat)
    requires
        k <= n,
        !(term_prefix(symbols, term, k) is Value),
    ensures
        term_prefix(symbols, term, n) == term_prefix(symbols, term, k),
    decreases n,
{
    if k < n {
        lemma_term_prefix_is_final(symbols, term, k, (n - 1) as nat);
    }
}

/// Once the fold of a `Comparison` has ended without a value, it stays as it is.
pub proof fn lemma_comparison_prefix_is_final(symbols: Seq<SymbolView>, comparison: Comparison, k: nat, n: nat)
    requires
        k <= n,
        !(comparison_prefix(symbols, comparison, k) is Value),
    ensures
        comparison_prefix(symbols, comparison, n) == comparison_prefix(symbols, comparison, k),
    decreases n,
{
    if k < n {
        lemma_comparison_prefix_is_final(symbols, comparison, k, (n - 1) as nat);
    }
}

/// Once the fold of a `Equality` has ended without a value, it stays as it is.
pub proof fn lemma_equality_prefix_is_final(symbols: Seq<SymbolView>, equality: Equality, k: nat, n: nat)
    requires
        k <= n,
        !(equality_prefix(symbols, equality, k) is Value),
    ensures
        equality_prefix(symbols, equality, n) == equality_prefix(symbols, equality, k),
    decreases n,
{
    if k < n {
        lemma_equality_prefix_is_final(symbols, equality, k, (n - 1) as nat);
    }
}

/// Once the fold of a `LogicAnd` has ended without a value, it stays as it is.
pub proof fn lemma_logic_and_prefix_is_final(symbols: Seq<SymbolView>, logic_and: LogicAnd, k: nat, n: nat)
    requires
        k <= n,
        !(logic_and_prefix(symbols, logic_and, k) is Value),
    ensures
        logic_and_prefix(symbols, logic_and, n) == logic_and_prefix(symbols, logic_and, k),
    decreases n,
{
    if k < n {
        lemma_logic_and_prefix_is_final(symbols, logic_and, k, (n - 1) as nat);
    }
}

/// Once the fold of a `LogicOr` has ended without a value, it stays as it is.
pub proof fn lemma_logic_or_prefix_is_final(symbols: Seq<SymbolView>, logic_or: LogicOr, k: nat, n: nat)
    requires
        k <= n,
        !(logic_or_prefix(symbols, logic_or, k) is Value),
    ensures
        logic_or_prefix(symbols, logic_or, n) == logic_or_prefix(symbols, logic_or, k),
    decreases n,
{
    if k < n {
        lemma_logic_or_prefix_is_final(symbols, logic_or, k, (n - 1) as nat);
    }
}

} // verus!
