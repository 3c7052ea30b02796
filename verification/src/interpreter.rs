//! The interpreter: an expression to its value.

use crate::ast::{depth, Expr};
use crate::diagnostics::{runtime_error, runtime_error_text};
use crate::number::{computes_as, formats_as, Arithmetic, Number};
use crate::object::{
    copy_value, value_text, value_view, values_are_equal, IsTruthy, Object, ObjectView,
};
use crate::runtime_error::{RuntimeError, RuntimeErrorView};
use crate::semantics::{
    binary_result, error, evaluation, is_binary_operator, is_unary_operator, of_one_shape,
    unary_result, well_formed, Outcome,
};
use crate::token::{Token, TokenKind};
use vstd::prelude::*;
use vstd::string::*;

verus! {

/// What the result of an evaluation is.
pub open spec fn outcome_view(result: Result<Option<Object>, RuntimeError>) -> Outcome {
    match result {
        Ok(value) => Ok(value_view(value)),
        Err(e) => Err(e@),
    }
}

/// What the result of a test of one operand is.
pub open spec fn operand_view(result: Result<Number, RuntimeError>) -> Result<
    u64,
    RuntimeErrorView,
> {
    match result {
        Ok(n) => Ok(n.bits),
        Err(e) => Err(e@),
    }
}

/// What the result of a test of two operands is.
pub open spec fn operands_view(result: Result<(Number, Number), RuntimeError>) -> Result<
    (u64, u64),
    RuntimeErrorView,
> {
    match result {
        Ok(pair) => Ok((pair.0.bits, pair.1.bits)),
        Err(e) => Err(e@),
    }
}

/// The text that presents the outcome of an evaluation: that of the value,
/// or, as an error, the two lines that report the runtime error.
pub open spec fn presentation(outcome: Outcome, number_text: spec_fn(u64) -> Seq<char>) -> Result<
    Seq<char>,
    Seq<char>,
> {
    match outcome {
        Ok(value) => Ok(value_text(value, number_text)),
        Err(e) => Err(runtime_error_text(e.message, e.token.line)),
    }
}

/// What a text that stands for a success or for an error is.
pub open spec fn text_view(text: Result<String, String>) -> Result<Seq<char>, Seq<char>> {
    match text {
        Ok(t) => Ok(t@),
        Err(t) => Err(t@),
    }
}

/// Evaluates expressions. `arithmetic` computes the sums, differences,
/// products and quotients of numbers.
pub struct Interpreter<A> {
    pub arithmetic: A,
}

impl<A: Fn(Arithmetic, u64, u64) -> u64> Interpreter<A> {
    /// Whether every operation on every two numbers may be handed to
    /// `arithmetic`.
    pub open spec fn usable(&self) -> bool {
        forall|op: Arithmetic, a: u64, b: u64| call_requires(self.arithmetic, (op, a, b))
    }

    /// That `result` is what this interpreter gives for `expr`: the outcome
    /// of the evaluation under every function that `arithmetic` follows.
    pub open spec fn gives(
        &self,
        expr: &Expr,
        result: Result<Option<Object>, RuntimeError>,
    ) -> bool {
        forall|model: spec_fn(Arithmetic, u64, u64) -> u64|
            computes_as(self.arithmetic, model) ==> outcome_view(result) == #[trigger] evaluation(
                expr@,
                model,
            )
    }

    /// That `result` has the shape of what any interpreter gives for `expr`:
    /// the same error, or a value of the same kind, however the numbers are
    /// computed.
    pub open spec fn gives_shape(
        &self,
        expr: &Expr,
        result: Result<Option<Object>, RuntimeError>,
    ) -> bool {
        forall|model: spec_fn(Arithmetic, u64, u64) -> u64|
            of_one_shape(outcome_view(result), #[trigger] evaluation(expr@, model))
    }

    /// An interpreter that computes with `arithmetic`.
    pub fn new(arithmetic: A) -> (interpreter: Self)
        ensures
            interpreter.arithmetic == arithmetic,
    {
        Interpreter { arithmetic }
    }

    /// Evaluates `expr` and gives the text that presents the outcome: that
    /// of the value, or, as an error, the report of the runtime error.
    /// `format_number` writes a number.
    pub fn interpret<F: Fn(u64) -> String>(&self, expr: &Expr, format_number: &F) -> (text: Result<
        String,
        String,
    >)
        requires
            self.usable(),
            well_formed(expr@),
            forall|bits: u64| call_requires(*format_number, (bits,)),
        ensures
            forall|
                model: spec_fn(Arithmetic, u64, u64) -> u64,
                number_text: spec_fn(u64) -> Seq<char>,
            |
                computes_as(self.arithmetic, model) && formats_as(*format_number, number_text)
                    ==> text_view(text) == #[trigger] presentation(
                    evaluation(expr@, model),
                    number_text,
                ),
    {
        match self.evaluate(expr) {
            Ok(value) => {
                let text = match &value {
                    None => String::from_str("nil"),
                    Some(object) => object.to_text(format_number),
                };
                Ok(text)
            },
            Err(e) => Err(runtime_error(&e)),
        }
    }

    /// The value of `expr`, or the runtime error that ended its evaluation.
    pub fn evaluate(&self, expr: &Expr) -> (result: Result<Option<Object>, RuntimeError>)
        requires
            self.usable(),
            well_formed(expr@),
        ensures
            self.gives(expr, result),
            self.gives_shape(expr, result),
        decreases depth(expr@), 1nat,
    {
        let result = match expr {
            Expr::Binary { left, operator, right } => self.visit_binary_expr(
                left,
                operator,
                right,
            ),
            Expr::Grouping { expression } => self.visit_grouping_expr(expression),
            Expr::Literal { value } => self.visit_literal_expr(value),
            Expr::Unary { operator, right } => self.visit_unary_expr(operator, right),
        };
        proof {
            assert forall|model: spec_fn(Arithmetic, u64, u64) -> u64|
                computes_as(self.arithmetic, model) implies outcome_view(result)
                == #[trigger] evaluation(expr@, model) by {
                match expr {
                    Expr::Binary { left, operator, right } => {
                        let a = evaluation(left@, model);
                        let b = evaluation(right@, model);
                    },
                    Expr::Grouping { expression } => {
                        let inner = evaluation(expression@, model);
                    },
                    Expr::Literal { value } => {},
                    Expr::Unary { operator, right } => {
                        let operand = evaluation(right@, model);
                    },
                }
            }
            assert forall|model: spec_fn(Arithmetic, u64, u64) -> u64|
                of_one_shape(outcome_view(result), #[trigger] evaluation(expr@, model)) by {
                match expr {
                    Expr::Binary { left, operator, right } => {
                        let a = evaluation(left@, model);
                        let b = evaluation(right@, model);
                    },
                    Expr::Grouping { expression } => {
                        let inner = evaluation(expression@, model);
                    },
                    Expr::Literal { value } => {},
                    Expr::Unary { operator, right } => {
                        let operand = evaluation(right@, model);
                    },
                }
            }
        }
        result
    }

    /// Evaluates `left operator right`.
    fn visit_binary_expr(&self, left: &Expr, operator: &Token, right: &Expr) -> (result: Result<
        Option<Object>,
        RuntimeError,
    >)
        requires
            self.usable(),
            well_formed(left@),
            well_formed(right@),
            is_binary_operator(operator.kind),
        ensures
            forall|model: spec_fn(Arithmetic, u64, u64) -> u64|
                computes_as(self.arithmetic, model) ==> outcome_view(result) == match (
                    #[trigger] evaluation(left@, model),
                    #[trigger] evaluation(right@, model),
                ) {
                    (Ok(a), Ok(b)) => binary_result(operator@, a, b, model),
                    (Ok(a), Err(e)) => Err(e),
                    (Err(e), _) => Err(e),
                },
            forall|model: spec_fn(Arithmetic, u64, u64) -> u64|
                of_one_shape(
                    outcome_view(result),
                    match (
                        #[trigger] evaluation(left@, model),
                        #[trigger] evaluation(right@, model),
                    ) {
                        (Ok(a), Ok(b)) => binary_result(operator@, a, b, model),
                        (Ok(a), Err(e)) => Err(e),
                        (Err(e), _) => Err(e),
                    },
                ),
        decreases
                1 + if depth(left@) >= depth(right@) {
                    depth(left@)
                } else {
                    depth(right@)
                },
                0nat,
    {
        let left = match self.evaluate(left) {
            Ok(value) => value,
            Err(e) => {
                return Err(e);
            },
        };
        let right = match self.evaluate(right) {
            Ok(value) => value,
            Err(e) => {
                return Err(e);
            },
        };
        match operator.kind {
            TokenKind::BangEqual => Ok(Some(Object::Boolean(!values_are_equal(&left, &right)))),
            TokenKind::EqualEqual => Ok(Some(Object::Boolean(values_are_equal(&left, &right)))),
            TokenKind::Greater => {
                let (a, b) = match check_number_operands(operator.clone(), left, right) {
                    Ok(pair) => pair,
                    Err(e) => {
                        return Err(e);
                    },
                };
                Ok(Some(Object::Boolean(a.greater_than(&b))))
            },
            TokenKind::GreaterEqual => {
                let (a, b) = match check_number_operands(operator.clone(), left, right) {
                    Ok(pair) => pair,
                    Err(e) => {
                        return Err(e);
                    },
                };
                Ok(Some(Object::Boolean(a.greater_or_equal(&b))))
            },
            TokenKind::Less => {
                let (a, b) = match check_number_operands(operator.clone(), left, right) {
                    Ok(pair) => pair,
                    Err(e) => {
                        return Err(e);
                    },
                };
                Ok(Some(Object::Boolean(a.less_than(&b))))
            },
            TokenKind::LessEqual => {
                let (a, b) = match check_number_operands(operator.clone(), left, right) {
                    Ok(pair) => pair,
                    Err(e) => {
                        return Err(e);
                    },
                };
                Ok(Some(Object::Boolean(a.less_or_equal(&b))))
            },
            TokenKind::Minus => {
                let (a, b) = match check_number_operands(operator.clone(), left, right) {
                    Ok(pair) => pair,
                    Err(e) => {
                        return Err(e);
                    },
                };
                let bits = (self.arithmetic)(Arithmetic::Subtract, a.bits, b.bits);
                Ok(Some(Object::Number(Number::from_bits(bits))))
            },
            TokenKind::Slash => {
                let (a, b) = match check_number_operands(operator.clone(), left, right) {
                    Ok(pair) => pair,
                    Err(e) => {
                        return Err(e);
                    },
                };
                let bits = (self.arithmetic)(Arithmetic::Divide, a.bits, b.bits);
                Ok(Some(Object::Number(Number::from_bits(bits))))
            },
            TokenKind::Star => {
                let (a, b) = match check_number_operands(operator.clone(), left, right) {
                    Ok(pair) => pair,
                    Err(e) => {
                        return Err(e);
                    },
                };
                let bits = (self.arithmetic)(Arithmetic::Multiply, a.bits, b.bits);
                Ok(Some(Object::Number(Number::from_bits(bits))))
            },
            _ => {
                match left {
                    Some(Object::Number(n)) => {
                        if let Some(Object::Number(m)) = right {
                            let bits = (self.arithmetic)(Arithmetic::Add, n.bits, m.bits);
                            return Ok(Some(Object::Number(Number::from_bits(bits))));
                        }
                    },
                    Some(Object::String(s)) => {
                        if let Some(Object::String(t)) = right {
                            return Ok(Some(Object::String(s.concat(t.as_str()))));
                        }
                    },
                    _ => {},
                }
                Err(
                    RuntimeError::new(
                        operator.clone(),
                        String::from_str("Operands must be two numbers or two strings."),
                    ),
                )
            },
        }
    }

    /// Evaluates `( expression )`.
    fn visit_grouping_expr(&self, expression: &Expr) -> (result: Result<
        Option<Object>,
        RuntimeError,
    >)
        requires
            self.usable(),
            well_formed(expression@),
        ensures
            self.gives(expression, result),
            self.gives_shape(expression, result),
        decreases 1 + depth(expression@), 0nat,
    {
        self.evaluate(expression)
    }

    /// Evaluates a literal: its value, unchanged.
    fn visit_literal_expr(&self, value: &Option<Object>) -> (result: Result<
        Option<Object>,
        RuntimeError,
    >)
        ensures
            result == Ok::<Option<Object>, RuntimeError>(*value),
    {
        Ok(copy_value(value))
    }

    /// Evaluates `operator right`.
    fn visit_unary_expr(&self, operator: &Token, right: &Expr) -> (result: Result<
        Option<Object>,
        RuntimeError,
    >)
        requires
            self.usable(),
            well_formed(right@),
            is_unary_operator(operator.kind),
        ensures
            forall|model: spec_fn(Arithmetic, u64, u64) -> u64|
                computes_as(self.arithmetic, model) ==> outcome_view(result) == match #[trigger] evaluation(
                    right@,
                    model,
                ) {
                    Ok(operand) => unary_result(operator@, operand),
                    Err(e) => Err(e),
                },
            forall|model: spec_fn(Arithmetic, u64, u64) -> u64|
                of_one_shape(
                    outcome_view(result),
                    match #[trigger] evaluation(right@, model) {
                        Ok(operand) => unary_result(operator@, operand),
                        Err(e) => Err(e),
                    },
                ),
        decreases 1 + depth(right@), 0nat,
    {
        let right = match self.evaluate(right) {
            Ok(value) => value,
            Err(e) => {
                return Err(e);
            },
        };
        match operator.kind {
            TokenKind::Bang => Ok(Some(Object::Boolean(!right.is_truthy()))),
            _ => {
                let operand = match check_number_operand(operator.clone(), right) {
                    Ok(n) => n,
                    Err(e) => {
                        return Err(e);
                    },
                };
                Ok(Some(Object::Number(operand.negate())))
            },
        }
    }
}

/// Whether every operator of `expr` is one that its place allows: whether
/// `expr` can be evaluated.
pub fn is_well_formed(expr: &Expr) -> (r: bool)
    ensures
        r == well_formed(expr@),
    decreases *expr,
{
    match expr {
        Expr::Binary { left, operator, right } => {
            let allowed = match operator.kind {
                TokenKind::BangEqual
                | TokenKind::EqualEqual
                | TokenKind::Greater
                | TokenKind::GreaterEqual
                | TokenKind::Less
                | TokenKind::LessEqual
                | TokenKind::Minus
                | TokenKind::Plus
                | TokenKind::Slash
                | TokenKind::Star => true,
                _ => false,
            };
            allowed && is_well_formed(left) && is_well_formed(right)
        },
        Expr::Grouping { expression } => is_well_formed(expression),
        Expr::Literal { value } => true,
        Expr::Unary { operator, right } => {
            let allowed = match operator.kind {
                TokenKind::Bang | TokenKind::Minus => true,
                _ => false,
            };
            allowed && is_well_formed(right)
        },
    }
}

/// Evaluation is repeatable: two evaluations of one expression by one
/// interpreter, whose arithmetic follows a function, give the same outcome.
pub proof fn lemma_evaluation_is_repeatable<A: Fn(Arithmetic, u64, u64) -> u64>(
    interpreter: Interpreter<A>,
    expr: Expr,
    first: Result<Option<Object>, RuntimeError>,
    second: Result<Option<Object>, RuntimeError>,
    model: spec_fn(Arithmetic, u64, u64) -> u64,
)
    requires
        computes_as(interpreter.arithmetic, model),
        interpreter.gives(&expr, first),
        interpreter.gives(&expr, second),
    ensures
        outcome_view(first) == outcome_view(second),
        outcome_view(first) == evaluation(expr@, model),
{
    assert(outcome_view(first) == evaluation(expr@, model));
    assert(outcome_view(second) == evaluation(expr@, model));
}

/// The number that `operand` is; if it is none, the error of `operator`.
pub fn check_number_operand(operator: Token, operand: Option<Object>) -> (result: Result<
    Number,
    RuntimeError,
>)
    ensures
        operand_view(result) == match value_view(operand) {
            Some(ObjectView::Number(bits)) => Ok::<u64, RuntimeErrorView>(bits),
            _ => Err(RuntimeErrorView { token: operator@, message: "Operand must be a number."@ }),
        },
{
    if let Some(Object::Number(n)) = operand {
        Ok(n)
    } else {
        Err(RuntimeError::new(operator, String::from_str("Operand must be a number.")))
    }
}

/// The two numbers that `left` and `right` are; if one of them is none, the
/// error of `operator`.
pub fn check_number_operands(operator: Token, left: Option<Object>, right: Option<Object>) -> (result:
    Result<(Number, Number), RuntimeError>)
    ensures
        operands_view(result) == match (value_view(left), value_view(right)) {
            (Some(ObjectView::Number(a)), Some(ObjectView::Number(b))) => Ok::<
                (u64, u64),
                RuntimeErrorView,
            >((a, b)),
            _ => Err(RuntimeErrorView { token: operator@, message: "Operands must be numbers."@ }),
        },
{
    if let Some(Object::Number(n)) = left {
        if let Some(Object::Number(m)) = right {
            return Ok((n, m));
        }
    }
    Err(RuntimeError::new(operator, String::from_str("Operands must be numbers.")))
}

} // verus!
