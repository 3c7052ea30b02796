use lox::interpreter::is_well_formed;
use lox::ast::Expr;
use lox::number::Arithmetic;
use lox::object::Object;
use lox::parser::{is_terminated, Parser};
use lox::run::run;
use lox::scanner::Scanner;
use lox::token::{Token, TokenKind};

fn u_parse_number(text: &str) -> u64 {
    text.parse::<f64>().unwrap().to_bits()
}

fn u_format_number(bits: u64) -> String {
    f64::from_bits(bits).to_string()
}

fn u_arithmetic(op: Arithmetic, a: u64, b: u64) -> u64 {
    let (a, b) = (f64::from_bits(a), f64::from_bits(b));
    let r = match op {
        Arithmetic::Add => a + b,
        Arithmetic::Subtract => a - b,
        Arithmetic::Multiply => a * b,
        Arithmetic::Divide => a / b,
    };
    r.to_bits()
}

fn u_run(source: &str) -> (Vec<String>, Option<Result<String, String>>) {
    let out = run(source, u_parse_number, u_arithmetic, &u_format_number);
    (
        out.diagnostics.iter().map(|d| d.to_text()).collect(),
        out.output,
    )
}

#[test]
fn run_gives_the_text_of_the_value() {
    assert_eq!(u_run("3 + 4"), (vec![], Some(Ok(String::from("7")))));
    assert_eq!(u_run("(1 + 2) * 3"), (vec![], Some(Ok(String::from("9")))));
    assert_eq!(u_run("\"a\" + \"b\""), (vec![], Some(Ok(String::from("ab")))));
    assert_eq!(u_run("nil"), (vec![], Some(Ok(String::from("nil")))));
    assert_eq!(u_run("1 / 0"), (vec![], Some(Ok(String::from("inf")))));
    assert_eq!(u_run("0 / 0"), (vec![], Some(Ok(String::from("NaN")))));
    assert_eq!(u_run("// c\n1 <= 1"), (vec![], Some(Ok(String::from("true")))));
}

#[test]
fn run_reports_a_runtime_error() {
    assert_eq!(
        u_run("1 +\n\"a\""),
        (
            vec![],
            Some(Err(String::from(
                "Operands must be two numbers or two strings.\n[line 1]"
            )))
        )
    );
}

#[test]
fn run_does_not_evaluate_after_a_diagnostic() {
    assert_eq!(
        u_run("(1 + 2"),
        (
            vec![String::from(
                "[line 1] Error at end: Expect ')' after expression."
            )],
            None
        )
    );
    assert_eq!(
        u_run("1 + @ 2"),
        (vec![String::from("[line 1] Error: Unexpected character.")], None)
    );
    assert_eq!(
        u_run("\"abc"),
        (
            vec![
                String::from("[line 1] Error: Unterminated string."),
                String::from("[line 1] Error at end: Expect expression."),
            ],
            None
        )
    );
    assert_eq!(
        u_run("#\n1 +\n$ *"),
        (
            vec![
                String::from("[line 1] Error: Unexpected character."),
                String::from("[line 3] Error: Unexpected character."),
                String::from("[line 3] Error at '*': Expect expression."),
            ],
            None
        )
    );
}

#[test]
fn tokens_of_a_scan_are_terminated() {
    for source in ["", "1", "1 + (", "\"open", "a b c ; @"] {
        let (tokens, _) = Scanner::new(source, u_parse_number).scan_tokens();
        assert!(is_terminated(&tokens));
    }
    assert!(!is_terminated(&vec![]));
    assert!(!is_terminated(&vec![Token::new(
        TokenKind::Plus,
        String::from("+"),
        None,
        1
    )]));
}

#[test]
fn parsed_expressions_are_well_formed() {
    for source in ["1", "-1", "!(1 == 2)", "1 + 2 * 3 - 4 / 5 < 6 != true"] {
        let (tokens, _) = Scanner::new(source, u_parse_number).scan_tokens();
        let expr = Parser::new(tokens).parse().expect("an expression");
        assert!(is_well_formed(&expr));
    }
    let literal = || Expr::Literal {
        value: Some(Object::Boolean(true)),
    };
    let plus = || Token::new(TokenKind::Plus, String::from("+"), None, 1);
    let bang = || Token::new(TokenKind::Bang, String::from("!"), None, 1);
    assert!(is_well_formed(&Expr::Unary {
        operator: bang(),
        right: Box::new(literal())
    }));
    assert!(!is_well_formed(&Expr::Unary {
        operator: plus(),
        right: Box::new(literal())
    }));
    assert!(!is_well_formed(&Expr::Binary {
        left: Box::new(literal()),
        operator: bang(),
        right: Box::new(literal())
    }));
    assert!(!is_well_formed(&Expr::Grouping {
        expression: Box::new(Expr::Binary {
            left: Box::new(literal()),
            operator: plus(),
            right: Box::new(Expr::Unary {
                operator: plus(),
                right: Box::new(literal())
            })
        })
    }));
}
