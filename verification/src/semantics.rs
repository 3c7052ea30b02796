//! What evaluation means: the value of an expression, or the runtime error
//! that ends its evaluation.
//!
//! Operands are evaluated from left to right, both of them always, and the
//! first error ends the evaluation. The four operations of arithmetic whose
//! result is rounded are a parameter of the meaning.

use crate::ast::ExprView;
use crate::number::{less, less_or_equal, negated, Arithmetic};
use crate::object::{truthy, values_equal, ObjectView};
use crate::runtime_error::RuntimeErrorView;
use crate::token::{TokenKind, TokenView};
use vstd::prelude::*;

verus! {

/// What an evaluation gives: a value, which may be `nil`, or an error.
pub type Outcome = Result<Option<ObjectView>, RuntimeErrorView>;

/// The operators that stand before one operand.
pub open spec fn is_unary_operator(kind: TokenKind) -> bool {
    kind == TokenKind::Bang || kind == TokenKind::Minus
}

/// The operators that stand between two operands.
pub open spec fn is_binary_operator(kind: TokenKind) -> bool {
    kind == TokenKind::BangEqual || kind == TokenKind::EqualEqual || kind == TokenKind::Greater
        || kind == TokenKind::GreaterEqual || kind == TokenKind::Less || kind
        == TokenKind::LessEqual || kind == TokenKind::Minus || kind == TokenKind::Plus || kind
        == TokenKind::Slash || kind == TokenKind::Star
}

/// Whether every operator of the expression is one that its place allows.
pub open spec fn well_formed(expr: ExprView) -> bool
    decreases expr,
{
    match expr {
        ExprView::Binary { left, operator, right } => is_binary_operator(operator.kind)
            && well_formed(*left) && well_formed(*right),
        ExprView::Grouping { expression } => well_formed(*expression),
        ExprView::Literal { value } => true,
        ExprView::Unary { operator, right } => is_unary_operator(operator.kind) && well_formed(
            *right,
        ),
    }
}

/// Whether `token` is the operator of a node of `expr`.
pub open spec fn has_operator(expr: ExprView, token: TokenView) -> bool
    decreases expr,
{
    match expr {
        ExprView::Binary { left, operator, right } => operator == token || has_operator(
            *left,
            token,
        ) || has_operator(*right, token),
        ExprView::Grouping { expression } => has_operator(*expression, token),
        ExprView::Literal { value } => false,
        ExprView::Unary { operator, right } => operator == token || has_operator(*right, token),
    }
}

/// The error that `operator` raises with `message`.
pub open spec fn error(operator: TokenView, message: Seq<char>) -> Outcome {
    Err(RuntimeErrorView { token: operator, message })
}

/// The boolean `b` as the value of an evaluation.
pub open spec fn boolean(b: bool) -> Outcome {
    Ok(Some(ObjectView::Boolean(b)))
}

/// The number with the encoding `bits` as the value of an evaluation.
pub open spec fn number(bits: u64) -> Outcome {
    Ok(Some(ObjectView::Number(bits)))
}

/// What a unary operator makes of the value of its operand: `!` negates its
/// truthiness, `-` changes the sign of a number and rejects anything else.
pub open spec fn unary_result(operator: TokenView, operand: Option<ObjectView>) -> Outcome {
    if operator.kind == TokenKind::Bang {
        boolean(!truthy(operand))
    } else {
        match operand {
            Some(ObjectView::Number(bits)) => number(negated(bits)),
            _ => error(operator, "Operand must be a number."@),
        }
    }
}

/// What an operator that takes two numbers makes of them. The operator is
/// one of `>`, `>=`, `<`, `<=`, `-`, `/` and `*`.
pub open spec fn numeric_result(
    kind: TokenKind,
    a: u64,
    b: u64,
    arithmetic: spec_fn(Arithmetic, u64, u64) -> u64,
) -> Outcome {
    if kind == TokenKind::Greater {
        boolean(less(b, a))
    } else if kind == TokenKind::GreaterEqual {
        boolean(less_or_equal(b, a))
    } else if kind == TokenKind::Less {
        boolean(less(a, b))
    } else if kind == TokenKind::LessEqual {
        boolean(less_or_equal(a, b))
    } else if kind == TokenKind::Minus {
        number(arithmetic(Arithmetic::Subtract, a, b))
    } else if kind == TokenKind::Slash {
        number(arithmetic(Arithmetic::Divide, a, b))
    } else {
        number(arithmetic(Arithmetic::Multiply, a, b))
    }
}

/// What `+` makes of its operands: the sum of two numbers, the two strings
/// one after the other, an error for anything else.
pub open spec fn plus_result(
    operator: TokenView,
    left: Option<ObjectView>,
    right: Option<ObjectView>,
    arithmetic: spec_fn(Arithmetic, u64, u64) -> u64,
) -> Outcome {
    match (left, right) {
        (Some(ObjectView::Number(a)), Some(ObjectView::Number(b))) => number(
            arithmetic(Arithmetic::Add, a, b),
        ),
        (Some(ObjectView::String(s)), Some(ObjectView::String(t))) => Ok(
            Some(ObjectView::String(s + t)),
        ),
        _ => error(operator, "Operands must be two numbers or two strings."@),
    }
}

/// What a binary operator makes of the values of its operands. `==` and `!=`
/// take any two values and never fail; `+` takes two numbers or two strings;
/// every other operator takes two numbers.
pub open spec fn binary_result(
    operator: TokenView,
    left: Option<ObjectView>,
    right: Option<ObjectView>,
    arithmetic: spec_fn(Arithmetic, u64, u64) -> u64,
) -> Outcome {
    if operator.kind == TokenKind::BangEqual {
        boolean(!values_equal(left, right))
    } else if operator.kind == TokenKind::EqualEqual {
        boolean(values_equal(left, right))
    } else if operator.kind == TokenKind::Plus {
        plus_result(operator, left, right, arithmetic)
    } else {
        match (left, right) {
            (Some(ObjectView::Number(a)), Some(ObjectView::Number(b))) => numeric_result(
                operator.kind,
                a,
                b,
                arithmetic,
            ),
            _ => error(operator, "Operands must be numbers."@),
        }
    }
}

/// The outcome of evaluating `expr`.
pub open spec fn evaluation(
    expr: ExprView,
    arithmetic: spec_fn(Arithmetic, u64, u64) -> u64,
) -> Outcome
    decreases expr,
{
    match expr {
        ExprView::Literal { value } => Ok(value),
        ExprView::Grouping { expression } => evaluation(*expression, arithmetic),
        ExprView::Unary { operator, right } => match evaluation(*right, arithmetic) {
            Ok(operand) => unary_result(operator, operand),
            Err(e) => Err(e),
        },
        ExprView::Binary { left, operator, right } => match evaluation(*left, arithmetic) {
            Ok(a) => match evaluation(*right, arithmetic) {
                Ok(b) => binary_result(operator, a, b, arithmetic),
                Err(e) => Err(e),
            },
            Err(e) => Err(e),
        },
    }
}

/// `==` and `!=` take any two values: they never raise an error, and one is
/// the negation of the other.
pub proof fn lemma_equality_never_fails(
    operator: TokenView,
    left: Option<ObjectView>,
    right: Option<ObjectView>,
    arithmetic: spec_fn(Arithmetic, u64, u64) -> u64,
)
    requires
        operator.kind == TokenKind::EqualEqual || operator.kind == TokenKind::BangEqual,
    ensures
        binary_result(operator, left, right, arithmetic) == boolean(
            values_equal(left, right) == (operator.kind == TokenKind::EqualEqual),
        ),
{
}

/// An error of an evaluation carries the token of an operator of the
/// expression, and its message is one of the three that the operators raise.
pub proof fn lemma_errors_come_from_operators(
    expr: ExprView,
    arithmetic: spec_fn(Arithmetic, u64, u64) -> u64,
)
    requires
        evaluation(expr, arithmetic) is Err,
    ensures
        has_operator(expr, evaluation(expr, arithmetic)->Err_0.token),
        ({
            let message = evaluation(expr, arithmetic)->Err_0.message;
            ||| message == "Operand must be a number."@
            ||| message == "Operands must be numbers."@
            ||| message == "Operands must be two numbers or two strings."@
        }),
    decreases expr,
{
    match expr {
        ExprView::Literal { value } => {},
        ExprView::Grouping { expression } => {
            lemma_errors_come_from_operators(*expression, arithmetic);
        },
        ExprView::Unary { operator, right } => {
            if evaluation(*right, arithmetic) is Err {
                lemma_errors_come_from_operators(*right, arithmetic);
            }
        },
        ExprView::Binary { left, operator, right } => {
            if evaluation(*left, arithmetic) is Err {
                lemma_errors_come_from_operators(*left, arithmetic);
            } else if evaluation(*right, arithmetic) is Err {
                lemma_errors_come_from_operators(*right, arithmetic);
            }
        },
    }
}

/// Whether two values are of one kind: both `nil`, both numbers, both
/// strings, or both booleans.
pub open spec fn of_one_kind(a: Option<ObjectView>, b: Option<ObjectView>) -> bool {
    match (a, b) {
        (None, None) => true,
        (Some(ObjectView::Number(_)), Some(ObjectView::Number(_))) => true,
        (Some(ObjectView::String(_)), Some(ObjectView::String(_))) => true,
        (Some(ObjectView::Boolean(_)), Some(ObjectView::Boolean(_))) => true,
        _ => false,
    }
}

/// Whether two outcomes are the same error, or values of one kind.
pub open spec fn of_one_shape(a: Outcome, b: Outcome) -> bool {
    match (a, b) {
        (Ok(x), Ok(y)) => of_one_kind(x, y),
        (Err(e), Err(f)) => e == f,
        _ => false,
    }
}

/// Whether an evaluation fails, and with which error, does not depend on
/// how the numbers are computed, nor does the kind of the value that it
/// gives: the kinds of the operands decide.
pub proof fn lemma_errors_do_not_depend_on_arithmetic(
    expr: ExprView,
    first: spec_fn(Arithmetic, u64, u64) -> u64,
    second: spec_fn(Arithmetic, u64, u64) -> u64,
)
    ensures
        of_one_shape(evaluation(expr, first), evaluation(expr, second)),
    decreases expr,
{
    match expr {
        ExprView::Literal { value } => {},
        ExprView::Grouping { expression } => {
            lemma_errors_do_not_depend_on_arithmetic(*expression, first, second);
        },
        ExprView::Unary { operator, right } => {
            lemma_errors_do_not_depend_on_arithmetic(*right, first, second);
        },
        ExprView::Binary { left, operator, right } => {
            lemma_errors_do_not_depend_on_arithmetic(*left, first, second);
            lemma_errors_do_not_depend_on_arithmetic(*right, first, second);
        },
    }
}

} // verus!
