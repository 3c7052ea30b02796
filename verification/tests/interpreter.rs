use lox::ast::Expr;
use lox::interpreter::{check_number_operand, check_number_operands, Interpreter};
use lox::number::{Arithmetic, Number};
use lox::object::{IsTruthy, Object};
use lox::parser::Parser;
use lox::runtime_error::RuntimeError;
use lox::scanner::Scanner;
use lox::token::{Token, TokenKind};

fn i_parse_number(text: &str) -> u64 {
    text.parse::<f64>().unwrap().to_bits()
}

fn i_format_number(bits: u64) -> String {
    f64::from_bits(bits).to_string()
}

fn i_arithmetic(op: Arithmetic, a: u64, b: u64) -> u64 {
    let (a, b) = (f64::from_bits(a), f64::from_bits(b));
    let r = match op {
        Arithmetic::Add => a + b,
        Arithmetic::Subtract => a - b,
        Arithmetic::Multiply => a * b,
        Arithmetic::Divide => a / b,
    };
    r.to_bits()
}

fn i_expr(source: &str) -> Expr {
    let (tokens, diagnostics) = Scanner::new(source, i_parse_number).scan_tokens();
    assert!(diagnostics.is_empty());
    Parser::new(tokens).parse().expect("an expression")
}

fn i_eval(source: &str) -> Result<Option<Object>, RuntimeError> {
    Interpreter::new(i_arithmetic).evaluate(&i_expr(source))
}

fn i_value(source: &str) -> Option<Object> {
    i_eval(source).expect("a value")
}

fn i_number(value: f64) -> Option<Object> {
    Some(Object::Number(Number::from_bits(value.to_bits())))
}

fn i_float(source: &str) -> f64 {
    match i_value(source) {
        Some(Object::Number(n)) => f64::from_bits(n.to_bits()),
        other => panic!("a number, not {:?}", other),
    }
}

fn i_string(text: &str) -> Option<Object> {
    Some(Object::String(String::from(text)))
}

fn i_boolean(b: bool) -> Option<Object> {
    Some(Object::Boolean(b))
}

fn i_error(source: &str) -> (String, String, usize) {
    let error = i_eval(source).expect_err("a runtime error");
    (
        String::from(error.message()),
        error.token().lexeme.clone(),
        error.token().line,
    )
}

#[test]
fn arithmetic_and_concatenation() {
    assert_eq!(i_value("3 + 4"), i_number(7.0));
    assert_eq!(i_value("(1 + 2) * 3"), i_number(9.0));
    assert_eq!(i_value("\"a\" + \"b\""), i_string("ab"));
}

#[test]
fn number_plus_string_is_a_runtime_error() {
    assert_eq!(
        i_error("1 + \"a\""),
        (
            String::from("Operands must be two numbers or two strings."),
            String::from("+"),
            1
        )
    );
}

#[test]
fn truthiness() {
    assert_eq!(i_value("!nil"), i_boolean(true));
    assert_eq!(i_value("!false"), i_boolean(true));
    assert_eq!(i_value("!0"), i_boolean(false));
    assert_eq!(i_value("!true"), i_boolean(false));
    assert_eq!(i_value("!\"\""), i_boolean(false));
    assert_eq!(i_value("!!nil"), i_boolean(false));
}

#[test]
fn equality_is_type_strict() {
    assert_eq!(i_value("1 == \"1\""), i_boolean(false));
    assert_eq!(i_value("nil == false"), i_boolean(false));
    assert_eq!(i_value("1 == true"), i_boolean(false));
    assert_eq!(i_value("0 == false"), i_boolean(false));
    assert_eq!(i_value("\"true\" == true"), i_boolean(false));
    assert_eq!(i_value("nil == nil"), i_boolean(true));
    assert_eq!(i_value("1 == 1"), i_boolean(true));
    assert_eq!(i_value("\"a\" == \"a\""), i_boolean(true));
    assert_eq!(i_value("\"a\" == \"b\""), i_boolean(false));
    assert_eq!(i_value("true == true"), i_boolean(true));
    assert_eq!(i_value("1 != \"1\""), i_boolean(true));
    assert_eq!(i_value("nil != nil"), i_boolean(false));
    assert_eq!(i_value("1 != 2"), i_boolean(true));
}

#[test]
fn evaluation_is_repeatable() {
    let expr = i_expr("(1 + 2) * 3 - 4 / 8 == 8.5");
    let interpreter = Interpreter::new(i_arithmetic);
    let first = interpreter.evaluate(&expr).expect("a value");
    let second = interpreter.evaluate(&expr).expect("a value");
    let third = Interpreter::new(i_arithmetic).evaluate(&expr).expect("a value");
    assert_eq!(first, i_boolean(true));
    assert_eq!(first, second);
    assert_eq!(first, third);
    let failing = i_expr("-\"a\"");
    let e1 = interpreter.evaluate(&failing).expect_err("an error");
    let e2 = interpreter.evaluate(&failing).expect_err("an error");
    assert_eq!(e1.message(), e2.message());
    assert_eq!(e1.token().line, e2.token().line);
}

#[test]
fn subtraction_multiplication_division() {
    assert_eq!(i_value("10 - 4"), i_number(6.0));
    assert_eq!(i_value("2.5 * 4"), i_number(10.0));
    assert_eq!(i_value("7 / 2"), i_number(3.5));
    assert_eq!(i_value("0.1 + 0.2"), i_number(0.1 + 0.2));
    assert_eq!(i_value("1 - 2 - 3"), i_number(-4.0));
}

#[test]
fn division_by_zero_follows_the_number_format() {
    assert_eq!(i_float("1 / 0"), f64::INFINITY);
    assert_eq!(i_float("-1 / 0"), f64::NEG_INFINITY);
    assert!(i_float("0 / 0").is_nan());
    assert_eq!(i_value("0 / 0 == 0 / 0"), i_boolean(false));
    assert_eq!(i_value("0 / 0 != 0 / 0"), i_boolean(true));
    assert_eq!(i_value("1 / 0 == 1 / 0"), i_boolean(true));
}

#[test]
fn negation() {
    assert_eq!(i_value("-3"), i_number(-3.0));
    assert_eq!(i_value("--3"), i_number(3.0));
    assert_eq!(i_float("-0").to_bits(), (-0.0f64).to_bits());
    assert_eq!(i_value("-0 == 0"), i_boolean(true));
}

#[test]
fn comparisons() {
    assert_eq!(i_value("1 < 2"), i_boolean(true));
    assert_eq!(i_value("2 < 1"), i_boolean(false));
    assert_eq!(i_value("2 < 2"), i_boolean(false));
    assert_eq!(i_value("2 <= 2"), i_boolean(true));
    assert_eq!(i_value("3 <= 2"), i_boolean(false));
    assert_eq!(i_value("3 > 2"), i_boolean(true));
    assert_eq!(i_value("2 > 2"), i_boolean(false));
    assert_eq!(i_value("2 >= 2"), i_boolean(true));
    assert_eq!(i_value("1 >= 2"), i_boolean(false));
    assert_eq!(i_value("-1 < 1"), i_boolean(true));
    assert_eq!(i_value("-2 < -1"), i_boolean(true));
    assert_eq!(i_value("-1 < -2"), i_boolean(false));
    assert_eq!(i_value("-0 < 0"), i_boolean(false));
    assert_eq!(i_value("-0 >= 0"), i_boolean(true));
    assert_eq!(i_value("0 / 0 < 1"), i_boolean(false));
    assert_eq!(i_value("0 / 0 >= 1"), i_boolean(false));
    assert_eq!(i_value("1 / 0 > 1"), i_boolean(true));
}

#[test]
fn operand_must_be_a_number() {
    assert_eq!(
        i_error("-\"a\""),
        (String::from("Operand must be a number."), String::from("-"), 1)
    );
    assert_eq!(
        i_error("\n-nil"),
        (String::from("Operand must be a number."), String::from("-"), 2)
    );
    assert_eq!(
        i_error("-true"),
        (String::from("Operand must be a number."), String::from("-"), 1)
    );
}

#[test]
fn operands_must_be_numbers() {
    for operator in [">", ">=", "<", "<=", "-", "/", "*"] {
        for (left, right) in [("1", "\"a\""), ("\"a\"", "1"), ("nil", "1"), ("true", "false"), ("\"a\"", "\"b\"")] {
            let source = format!("{} {} {}", left, operator, right);
            assert_eq!(
                i_error(&source),
                (
                    String::from("Operands must be numbers."),
                    String::from(operator),
                    1
                )
            );
        }
    }
}

#[test]
fn plus_rejects_mixed_operands() {
    for (left, right) in [("\"a\"", "1"), ("nil", "1"), ("1", "nil"), ("true", "true"), ("nil", "nil"), ("\"a\"", "nil")] {
        let source = format!("{} + {}", left, right);
        assert_eq!(
            i_error(&source),
            (
                String::from("Operands must be two numbers or two strings."),
                String::from("+"),
                1
            )
        );
    }
}

#[test]
fn the_first_error_ends_the_evaluation() {
    assert_eq!(
        i_error("(-\"a\") + (1 < nil)"),
        (String::from("Operand must be a number."), String::from("-"), 1)
    );
    assert_eq!(
        i_error("1 + (2 *\n\"x\") + -nil"),
        (String::from("Operands must be numbers."), String::from("*"), 1)
    );
    assert_eq!(
        i_error("(1 == -nil) == 2"),
        (String::from("Operand must be a number."), String::from("-"), 1)
    );
}

#[test]
fn literals_and_groupings() {
    assert_eq!(i_value("nil"), None);
    assert_eq!(i_value("(nil)"), None);
    assert_eq!(i_value("((\"s\"))"), i_string("s"));
    assert_eq!(i_value("true"), i_boolean(true));
    assert_eq!(i_value("4.5"), i_number(4.5));
}

#[test]
fn arithmetic_is_what_the_given_function_computes() {
    let interpreter = Interpreter::new(|op: Arithmetic, a: u64, b: u64| match op {
        Arithmetic::Add => 1000 + a + b,
        Arithmetic::Subtract => 2000 + a + b,
        Arithmetic::Multiply => 3000 + a + b,
        Arithmetic::Divide => 4000 + a + b,
    });
    let literal = |bits: u64| Expr::Literal {
        value: Some(Object::Number(Number::from_bits(bits))),
    };
    let binary = |kind: TokenKind, lexeme: &str| Expr::Binary {
        left: Box::new(literal(1)),
        operator: Token::new(kind, String::from(lexeme), None, 1),
        right: Box::new(literal(20)),
    };
    let bits = |expr: Expr| match interpreter.evaluate(&expr) {
        Ok(Some(Object::Number(n))) => n.to_bits(),
        _ => panic!("a number"),
    };
    assert_eq!(bits(binary(TokenKind::Plus, "+")), 1021);
    assert_eq!(bits(binary(TokenKind::Minus, "-")), 2021);
    assert_eq!(bits(binary(TokenKind::Star, "*")), 3021);
    assert_eq!(bits(binary(TokenKind::Slash, "/")), 4021);
}

#[test]
fn interpret_presents_the_outcome() {
    let interpreter = Interpreter::new(i_arithmetic);
    let present = |source: &str| interpreter.interpret(&i_expr(source), &i_format_number);
    assert_eq!(present("3 + 4"), Ok(String::from("7")));
    assert_eq!(present("1 / 4"), Ok(String::from("0.25")));
    assert_eq!(present("nil"), Ok(String::from("nil")));
    assert_eq!(present("1 < 2"), Ok(String::from("true")));
    assert_eq!(present("!true"), Ok(String::from("false")));
    assert_eq!(present("\"a\" + \"b\""), Ok(String::from("ab")));
    assert_eq!(
        present("1 +\n\n-\"a\""),
        Err(String::from("Operand must be a number.\n[line 3]"))
    );
    assert_eq!(
        present("1 + \"a\""),
        Err(String::from(
            "Operands must be two numbers or two strings.\n[line 1]"
        ))
    );
}

#[test]
fn is_truthy_of_values() {
    assert!(!None::<Object>.is_truthy());
    assert!(!Some(Object::Boolean(false)).is_truthy());
    assert!(Some(Object::Boolean(true)).is_truthy());
    assert!(Some(Object::Number(Number::from_bits(0))).is_truthy());
    assert!(Some(Object::String(String::new())).is_truthy());
}

#[test]
fn check_operands() {
    let minus = || Token::new(TokenKind::Minus, String::from("-"), None, 7);
    let one = || i_number(1.0);
    let two = || i_number(2.0);
    assert_eq!(
        check_number_operand(minus(), one()).unwrap().to_bits(),
        1.0f64.to_bits()
    );
    let error = check_number_operand(minus(), i_string("1")).unwrap_err();
    assert_eq!(error.message(), "Operand must be a number.");
    assert_eq!(error.token().line, 7);
    assert_eq!(error.to_text(), "Operand must be a number.");
    let error = check_number_operand(minus(), None).unwrap_err();
    assert_eq!(error.message(), "Operand must be a number.");
    let (a, b) = check_number_operands(minus(), one(), two()).unwrap();
    assert_eq!((a.to_bits(), b.to_bits()), (1.0f64.to_bits(), 2.0f64.to_bits()));
    let error = check_number_operands(minus(), one(), None).unwrap_err();
    assert_eq!(error.message(), "Operands must be numbers.");
    assert_eq!(error.token().kind, TokenKind::Minus);
    let error = check_number_operands(minus(), i_boolean(true), two()).unwrap_err();
    assert_eq!(error.message(), "Operands must be numbers.");
}
