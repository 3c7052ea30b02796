//! Diagnostics of the scanner and the parser, and the lines that report them.
//!
//! The library prints nothing. A lexical or syntax error becomes a
//! `Diagnostic`, which the caller collects; `report` and `runtime_error` give
//! the line of text that presents an error.

use crate::runtime_error::RuntimeError;
use crate::text::{decimal, push_decimal};
use crate::token::{Token, TokenKind, TokenView};
use vstd::prelude::*;
use vstd::string::*;

verus! {

/// A lexical or syntax error: the line it was found on, where on that line
/// (empty, ` at end` or ` at '<lexeme>'`), and what is wrong.
#[derive(Debug)]
pub struct Diagnostic {
    pub line: usize,
    pub location: String,
    pub message: String,
}

/// What a diagnostic is.
pub struct DiagnosticView {
    pub line: nat,
    pub location: Seq<char>,
    pub message: Seq<char>,
}

impl View for Diagnostic {
    type V = DiagnosticView;

    open spec fn view(&self) -> DiagnosticView {
        DiagnosticView {
            line: self.line as nat,
            location: self.location@,
            message: self.message@,
        }
    }
}

/// What a sequence of diagnostics is.
pub open spec fn diagnostics_view(diagnostics: Seq<Diagnostic>) -> Seq<DiagnosticView> {
    diagnostics.map_values(|d: Diagnostic| d@)
}

/// A sequence of diagnostics with one more diagnostic at its end.
pub proof fn lemma_diagnostics_view_push(diagnostics: Seq<Diagnostic>, diagnostic: Diagnostic)
    ensures
        diagnostics_view(diagnostics.push(diagnostic)) == diagnostics_view(diagnostics).push(
            diagnostic@,
        ),
{
    assert(diagnostics_view(diagnostics.push(diagnostic)) =~= diagnostics_view(diagnostics).push(
        diagnostic@,
    ));
}

/// The diagnostic of an error that belongs to a line as a whole.
pub open spec fn error_on_line(line: nat, message: Seq<char>) -> DiagnosticView {
    DiagnosticView { line, location: Seq::<char>::empty(), message }
}

/// Where a token is, as a diagnostic says it: ` at end` for the end of input,
/// else ` at '<lexeme>'`.
pub open spec fn location_of(token: TokenView) -> Seq<char> {
    if token.kind == TokenKind::Eof {
        " at end"@
    } else {
        " at '"@ + token.lexeme + "'"@
    }
}

/// The diagnostic of an error found at a token.
pub open spec fn error_at_token(token: TokenView, message: Seq<char>) -> DiagnosticView {
    DiagnosticView { line: token.line, location: location_of(token), message }
}

/// The line that reports a lexical or syntax error:
/// `[line <N>] Error<location>: <message>`.
pub open spec fn report_text(line: nat, location: Seq<char>, message: Seq<char>) -> Seq<char> {
    "[line "@ + decimal(line) + "] Error"@ + location + ": "@ + message
}

/// The two lines that report a runtime error: the message, then `[line <N>]`.
pub open spec fn runtime_error_text(message: Seq<char>, line: nat) -> Seq<char> {
    message + "\n[line "@ + decimal(line) + "]"@
}

/// The diagnostic of an error on `line`, with no location on the line.
pub fn err(line: usize, message: &str) -> (diagnostic: Diagnostic)
    ensures
        diagnostic@ == error_on_line(line as nat, message@),
{
    Diagnostic { line, location: String::new(), message: String::from_str(message) }
}

/// The diagnostic of an error at `token`.
pub fn err_at(token: &Token, message: &str) -> (diagnostic: Diagnostic)
    ensures
        diagnostic@ == error_at_token(token@, message@),
{
    let location = if token.kind == TokenKind::Eof {
        String::from_str(" at end")
    } else {
        let mut location = String::from_str(" at '");
        location.append(token.lexeme.as_str());
        location.append("'");
        location
    };
    Diagnostic { line: token.line, location, message: String::from_str(message) }
}

/// The line that reports an error on `line` at `location`.
pub fn report(line: usize, location: &str, message: &str) -> (text: String)
    ensures
        text@ == report_text(line as nat, location@, message@),
{
    let mut text = String::from_str("[line ");
    push_decimal(&mut text, line);
    text.append("] Error");
    text.append(location);
    text.append(": ");
    text.append(message);
    text
}

/// The two lines that report a runtime error.
pub fn runtime_error(error: &RuntimeError) -> (text: String)
    ensures
        text@ == runtime_error_text(error@.message, error@.token.line),
{
    let mut text = String::from_str(error.message());
    text.append("\n[line ");
    push_decimal(&mut text, error.token().line);
    text.append("]");
    text
}

impl Diagnostic {
    /// The line that reports the diagnostic.
    pub fn to_text(&self) -> (text: String)
        ensures
            text@ == report_text(self@.line, self@.location, self@.message),
    {
        report(self.line, self.location.as_str(), self.message.as_str())
    }
}

impl Clone for Diagnostic {
    fn clone(&self) -> (copy: Diagnostic)
        ensures
            copy == *self,
    {
        Diagnostic {
            line: self.line,
            location: self.location.clone(),
            message: self.message.clone(),
        }
    }
}

} // verus!
