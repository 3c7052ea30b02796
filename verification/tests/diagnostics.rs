use lox::diagnostics::{err, err_at, report, runtime_error};
use lox::runtime_error::RuntimeError;
use lox::text::{chars_of, push_decimal, text_of};
use lox::token::{Token, TokenKind};

#[test]
fn err_has_no_location() {
    let diagnostic = err(12, "Unexpected character.");
    assert_eq!(diagnostic.line, 12);
    assert_eq!(diagnostic.location, "");
    assert_eq!(diagnostic.message, "Unexpected character.");
    assert_eq!(diagnostic.to_text(), "[line 12] Error: Unexpected character.");
}

#[test]
fn err_at_names_the_lexeme_or_the_end() {
    let token = Token::new(TokenKind::Identifier, String::from("foo"), None, 3);
    let diagnostic = err_at(&token, "Expect expression.");
    assert_eq!(diagnostic.line, 3);
    assert_eq!(diagnostic.location, " at 'foo'");
    assert_eq!(diagnostic.to_text(), "[line 3] Error at 'foo': Expect expression.");
    let end = Token::new(TokenKind::Eof, String::new(), None, 9);
    let diagnostic = err_at(&end, "Expect expression.");
    assert_eq!(diagnostic.location, " at end");
    assert_eq!(diagnostic.to_text(), "[line 9] Error at end: Expect expression.");
}

#[test]
fn report_formats_the_line() {
    assert_eq!(report(1, "", "m"), "[line 1] Error: m");
    assert_eq!(report(0, " at end", "m"), "[line 0] Error at end: m");
    assert_eq!(
        report(1234567890, " at 'x'", "Expect expression."),
        "[line 1234567890] Error at 'x': Expect expression."
    );
    assert_eq!(
        report(usize::MAX, "", ""),
        format!("[line {}] Error: ", usize::MAX)
    );
}

#[test]
fn runtime_error_is_reported_on_two_lines() {
    let token = Token::new(TokenKind::Minus, String::from("-"), None, 105);
    let error = RuntimeError::new(token, String::from("Operand must be a number."));
    assert_eq!(runtime_error(&error), "Operand must be a number.\n[line 105]");
    assert_eq!(error.message(), "Operand must be a number.");
    assert_eq!(error.token().lexeme, "-");
    assert_eq!(error.to_text(), "Operand must be a number.");
}

#[test]
fn decimal_of_counts() {
    for n in [0usize, 1, 9, 10, 11, 99, 100, 101, 1000, 65535, 4294967295] {
        let mut text = String::from("n=");
        push_decimal(&mut text, n);
        assert_eq!(text, format!("n={}", n));
    }
}

#[test]
fn chars_and_text() {
    let chars = chars_of("héllo");
    assert_eq!(chars, vec!['h', 'é', 'l', 'l', 'o']);
    assert_eq!(text_of(&chars, 1, 4), "éll");
    assert_eq!(text_of(&chars, 2, 2), "");
    assert_eq!(text_of(&chars, 0, 5), "héllo");
}

#[test]
fn kind_names() {
    assert_eq!(TokenKind::LeftParen.name(), "LeftParen");
    assert_eq!(TokenKind::EqualEqual.name(), "EqualEqual");
    assert_eq!(TokenKind::While.name(), "While");
    assert_eq!(TokenKind::Eof.name(), "Eof");
    assert_eq!(format!("{:?}", TokenKind::BangEqual), TokenKind::BangEqual.name());
}
