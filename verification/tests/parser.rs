use lox::ast::{Expr, ExprPrinter};
use lox::parser::Parser;
use lox::scanner::Scanner;
use lox::token::TokenKind;

fn p_parse_number(text: &str) -> u64 {
    text.parse::<f64>().unwrap().to_bits()
}

fn p_format_number(bits: u64) -> String {
    f64::from_bits(bits).to_string()
}

fn p_parser(source: &str) -> Parser {
    let (tokens, diagnostics) = Scanner::new(source, p_parse_number).scan_tokens();
    assert!(diagnostics.is_empty());
    Parser::new(tokens)
}

fn p_render(expr: &Expr) -> String {
    ExprPrinter::new(p_format_number).print(expr)
}

fn p_parsed(source: &str) -> String {
    let mut parser = p_parser(source);
    let expr = parser.parse().expect("an expression");
    assert!(parser.diagnostics().is_empty());
    p_render(&expr)
}

fn p_failure(source: &str) -> (usize, String, String) {
    let mut parser = p_parser(source);
    assert!(parser.parse().is_none());
    let diagnostics = parser.diagnostics();
    assert_eq!(diagnostics.len(), 1);
    (
        diagnostics[0].line,
        diagnostics[0].location.clone(),
        diagnostics[0].message.clone(),
    )
}

#[test]
fn printer_round_trip() {
    assert_eq!(p_parsed("-1 * (2 + 3)"), "(* (- 1) (group (+ 2 3)))");
}

#[test]
fn missing_right_paren_is_a_syntax_error_at_end() {
    let mut parser = p_parser("(1 + 2");
    assert!(parser.parse().is_none());
    let diagnostics = parser.diagnostics();
    assert_eq!(diagnostics.len(), 1);
    assert_eq!(diagnostics[0].line, 1);
    assert_eq!(diagnostics[0].location, " at end");
    assert_eq!(diagnostics[0].message, "Expect ')' after expression.");
    assert_eq!(
        diagnostics[0].to_text(),
        "[line 1] Error at end: Expect ')' after expression."
    );
}

#[test]
fn factor_binds_tighter_than_term() {
    assert_eq!(p_parsed("1 + 2 * 3"), "(+ 1 (* 2 3))");
    assert_eq!(p_parsed("1 * 2 + 3"), "(+ (* 1 2) 3)");
}

#[test]
fn binary_operators_associate_to_the_left() {
    assert_eq!(p_parsed("1 - 2 - 3"), "(- (- 1 2) 3)");
    assert_eq!(p_parsed("8 / 4 / 2"), "(/ (/ 8 4) 2)");
    assert_eq!(p_parsed("1 == 2 != 3"), "(!= (== 1 2) 3)");
    assert_eq!(p_parsed("1 < 2 <= 3 > 4 >= 5"), "(>= (> (<= (< 1 2) 3) 4) 5)");
}

#[test]
fn levels_from_equality_down_to_unary() {
    assert_eq!(
        p_parsed("1 == 2 < 3 + 4 * -5"),
        "(== 1 (< 2 (+ 3 (* 4 (- 5)))))"
    );
    assert_eq!(
        p_parsed("-1 * 2 + 3 > 4 != true"),
        "(!= (> (+ (* (- 1) 2) 3) 4) true)"
    );
}

#[test]
fn unary_is_right_recursive() {
    assert_eq!(p_parsed("--1"), "(- (- 1))");
    assert_eq!(p_parsed("!!true"), "(! (! true))");
    assert_eq!(p_parsed("-!-2"), "(- (! (- 2)))");
}

#[test]
fn primaries() {
    assert_eq!(p_parsed("true"), "true");
    assert_eq!(p_parsed("false"), "false");
    assert_eq!(p_parsed("nil"), "nil");
    assert_eq!(p_parsed("12.5"), "12.5");
    assert_eq!(p_parsed("\"hi there\""), "hi there");
    assert_eq!(p_parsed("((1))"), "(group (group 1))");
}

#[test]
fn tokens_behind_the_expression_are_left_alone() {
    let mut parser = p_parser("1 + 2 3");
    let expr = parser.parse().expect("an expression");
    assert_eq!(p_render(&expr), "(+ 1 2)");
    assert!(parser.diagnostics().is_empty());
}

#[test]
fn expect_expression_at_a_token() {
    assert_eq!(
        p_failure("1 + ;"),
        (1, String::from(" at ';'"), String::from("Expect expression."))
    );
    assert_eq!(
        p_failure("\n\n* 2"),
        (3, String::from(" at '*'"), String::from("Expect expression."))
    );
    assert_eq!(
        p_failure("x"),
        (1, String::from(" at 'x'"), String::from("Expect expression."))
    );
}

#[test]
fn expect_expression_at_end() {
    assert_eq!(
        p_failure(""),
        (1, String::from(" at end"), String::from("Expect expression."))
    );
    assert_eq!(
        p_failure("1 +\n"),
        (2, String::from(" at end"), String::from("Expect expression."))
    );
    assert_eq!(
        p_failure("("),
        (1, String::from(" at end"), String::from("Expect expression."))
    );
}

#[test]
fn expect_right_paren_at_a_token() {
    assert_eq!(
        p_failure("(1 2)"),
        (
            1,
            String::from(" at '2'"),
            String::from("Expect ')' after expression.")
        )
    );
}

#[test]
fn synchronize_stops_behind_a_semicolon() {
    let mut parser = p_parser("+ 1 2 ; 3 4");
    assert!(parser.parse().is_none());
    parser.synchronize();
    let expr = parser.parse().expect("an expression");
    assert_eq!(p_render(&expr), "3");
}

#[test]
fn synchronize_stops_before_a_statement_keyword() {
    for keyword in ["class", "fun", "var", "for", "if", "while", "print", "return"] {
        let source = format!("+ 1 2 {} 3 ; 4", keyword);
        let mut parser = p_parser(&source);
        assert!(parser.parse().is_none());
        parser.synchronize();
        // The parser stands at the keyword, which begins no expression.
        assert!(parser.parse().is_none());
        let last = parser.diagnostics().last().unwrap();
        assert_eq!(last.location, format!(" at '{}'", keyword));
    }
}

#[test]
fn synchronize_skips_at_least_one_token() {
    let mut parser = p_parser("print 1 ; 2");
    assert!(parser.parse().is_none());
    parser.synchronize();
    let expr = parser.parse().expect("an expression");
    assert_eq!(p_render(&expr), "2");
}

#[test]
fn synchronize_stops_at_the_end_of_input() {
    let mut parser = p_parser("+ 1 2");
    assert!(parser.parse().is_none());
    parser.synchronize();
    assert!(parser.parse().is_none());
    assert_eq!(parser.diagnostics().last().unwrap().location, " at end");
    parser.synchronize();
    assert!(parser.parse().is_none());
    assert_eq!(parser.diagnostics().len(), 3);
}

#[test]
fn operator_token_is_kept_in_the_tree() {
    let mut parser = p_parser("1\n<=\n2");
    match parser.parse().expect("an expression") {
        Expr::Binary { operator, .. } => {
            assert_eq!(operator.kind, TokenKind::LessEqual);
            assert_eq!(operator.lexeme, "<=");
            assert_eq!(operator.line, 2);
        }
        _ => panic!("a binary expression"),
    }
}
