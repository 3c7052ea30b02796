use lox::ast::{Expr, ExprPrinter};
use lox::number::Number;
use lox::object::Object;
use lox::token::{Token, TokenKind};

fn r_format_number(bits: u64) -> String {
    f64::from_bits(bits).to_string()
}

fn r_number(value: f64) -> Expr {
    Expr::Literal {
        value: Some(Object::Number(Number::from_bits(value.to_bits()))),
    }
}

fn r_token(kind: TokenKind, lexeme: &str) -> Token {
    Token::new(kind, String::from(lexeme), None, 1)
}

#[test]
fn prints_a_tree_built_by_hand() {
    let expr = Expr::Binary {
        left: Box::new(Expr::Unary {
            operator: r_token(TokenKind::Minus, "-"),
            right: Box::new(r_number(123.0)),
        }),
        operator: r_token(TokenKind::Star, "*"),
        right: Box::new(Expr::Grouping {
            expression: Box::new(r_number(45.67)),
        }),
    };
    let printer = ExprPrinter::new(r_format_number);
    assert_eq!(printer.print(&expr), "(* (- 123) (group 45.67))");
    // Printing reads the tree and leaves it as it is.
    assert_eq!(printer.print(&expr), "(* (- 123) (group 45.67))");
}

#[test]
fn prints_literals() {
    let printer = ExprPrinter::new(r_format_number);
    assert_eq!(printer.print(&Expr::Literal { value: None }), "nil");
    assert_eq!(printer.print(&r_number(1.0)), "1");
    assert_eq!(printer.print(&r_number(0.5)), "0.5");
    assert_eq!(
        printer.print(&Expr::Literal {
            value: Some(Object::Boolean(true))
        }),
        "true"
    );
    assert_eq!(
        printer.print(&Expr::Literal {
            value: Some(Object::Boolean(false))
        }),
        "false"
    );
    assert_eq!(
        printer.print(&Expr::Literal {
            value: Some(Object::String(String::from("a b")))
        }),
        "a b"
    );
}

#[test]
fn numbers_are_written_by_the_given_function() {
    let printer = ExprPrinter::new(|bits: u64| format!("<{}>", bits));
    let expr = Expr::Unary {
        operator: r_token(TokenKind::Bang, "!"),
        right: Box::new(Expr::Literal {
            value: Some(Object::Number(Number::from_bits(42))),
        }),
    };
    assert_eq!(printer.print(&expr), "(! <42>)");
}

#[test]
fn parenthesize_takes_any_number_of_operands() {
    let printer = ExprPrinter::new(r_format_number);
    let (a, b, c) = (r_number(1.0), r_number(2.0), r_number(3.0));
    assert_eq!(printer.parenthesize("f", &[]), "(f)");
    assert_eq!(printer.parenthesize("f", &[&a]), "(f 1)");
    assert_eq!(printer.parenthesize("list", &[&a, &b, &c]), "(list 1 2 3)");
}
