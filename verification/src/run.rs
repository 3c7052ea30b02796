//! One source text from end to end: scanned, parsed, evaluated, and the
//! outcome put into text.

use crate::diagnostics::{diagnostics_view, error_at_token, Diagnostic, DiagnosticView};
use crate::grammar::{parse_expression, Parse};
use crate::interpreter::{presentation, text_view, Interpreter};
use crate::lexing::{is_number_text, scan};
use crate::number::{computes_as, formats_as, parses_as, Arithmetic};
use crate::parser::Parser;
use crate::scanner::Scanner;
use crate::semantics::evaluation;
use vstd::prelude::*;

verus! {

/// What running a source text gave.
pub struct Run {
    /// The lexical errors, in the order of the text, then the syntax error,
    /// if there is one.
    pub diagnostics: Vec<Diagnostic>,
    /// If there is no diagnostic: the text of the value of the expression,
    /// or, as an error, the report of the runtime error that ended its
    /// evaluation. With a diagnostic nothing is evaluated.
    pub output: Option<Result<String, String>>,
}

/// What a run is.
pub struct RunView {
    pub diagnostics: Seq<DiagnosticView>,
    pub output: Option<Result<Seq<char>, Seq<char>>>,
}

impl View for Run {
    type V = RunView;

    open spec fn view(&self) -> RunView {
        RunView {
            diagnostics: diagnostics_view(self.diagnostics@),
            output: match self.output {
                Some(text) => Some(text_view(text)),
                None => None,
            },
        }
    }
}

/// The run of `source`: the text is scanned and one expression is parsed
/// from its tokens; every error of the two is a diagnostic. Only a text
/// without a diagnostic is evaluated.
pub open spec fn run_of(
    source: Seq<char>,
    number_value: spec_fn(Seq<char>) -> u64,
    arithmetic: spec_fn(Arithmetic, u64, u64) -> u64,
    number_text: spec_fn(u64) -> Seq<char>,
) -> RunView {
    let scanned = scan(source, number_value);
    match parse_expression(scanned.tokens, 0) {
        Parse::Parsed { expr, next } => RunView {
            diagnostics: scanned.diagnostics,
            output: if scanned.diagnostics.len() == 0 {
                Some(presentation(evaluation(expr, arithmetic), number_text))
            } else {
                None
            },
        },
        Parse::Failed { at, message } => RunView {
            diagnostics: scanned.diagnostics.push(error_at_token(scanned.tokens[at], message)),
            output: None,
        },
    }
}

/// Runs `source`. `parse_number` reads a number literal, `arithmetic` adds,
/// subtracts, multiplies and divides numbers, `format_number` writes a
/// number.
pub fn run<P: Fn(&str) -> u64, A: Fn(Arithmetic, u64, u64) -> u64, F: Fn(u64) -> String>(
    source: &str,
    parse_number: P,
    arithmetic: A,
    format_number: &F,
) -> (out: Run)
    requires
        source@.len() < usize::MAX,
        forall|text: &str| is_number_text(text@) ==> call_requires(parse_number, (text,)),
        forall|op: Arithmetic, a: u64, b: u64| call_requires(arithmetic, (op, a, b)),
        forall|bits: u64| call_requires(*format_number, (bits,)),
    ensures
        forall|
            number_value: spec_fn(Seq<char>) -> u64,
            model: spec_fn(Arithmetic, u64, u64) -> u64,
            number_text: spec_fn(u64) -> Seq<char>,
        |
            parses_as(parse_number, number_value) && computes_as(arithmetic, model) && formats_as(
                *format_number,
                number_text,
            ) ==> out@ == #[trigger] run_of(source@, number_value, model, number_text),
{
    let scanner = Scanner::new(source, parse_number);
    let (tokens, lexical) = scanner.scan_tokens();
    let ghost scanned_tokens = crate::token::tokens_view(tokens@);
    let mut parser = Parser::new(tokens);
    let parsed = parser.parse();
    let mut diagnostics = lexical;
    let ghost lexical_view = diagnostics_view(diagnostics@);
    let syntax = parser.diagnostics();
    if syntax.len() > 0 {
        let diagnostic = syntax[0].clone();
        proof {
            crate::diagnostics::lemma_diagnostics_view_push(diagnostics@, diagnostic);
        }
        diagnostics.push(diagnostic);
    }
    let output = if diagnostics.len() == 0 {
        match parsed {
            Some(expr) => {
                let interpreter = Interpreter::new(arithmetic);
                Some(interpreter.interpret(&expr, format_number))
            },
            None => None,
        }
    } else {
        None
    };
    let out = Run { diagnostics, output };
    proof {
        assert forall|
            number_value: spec_fn(Seq<char>) -> u64,
            model: spec_fn(Arithmetic, u64, u64) -> u64,
            number_text: spec_fn(u64) -> Seq<char>,
        |
            parses_as(parse_number, number_value) && computes_as(arithmetic, model) && formats_as(
                *format_number,
                number_text,
            ) implies out@ == #[trigger] run_of(source@, number_value, model, number_text) by {
            let scanned = scan(source@, number_value);
            assert(scanned_tokens == scanned.tokens);
            assert(lexical_view == scanned.diagnostics);
            match parse_expression(scanned.tokens, 0) {
                Parse::Parsed { expr, next } => {
                    assert(syntax@.len() == 0);
                    if scanned.diagnostics.len() == 0 {
                        assert(out.output is Some);
                        assert(text_view(out.output->0) == presentation(
                            evaluation(expr, model),
                            number_text,
                        ));
                    }
                },
                Parse::Failed { at, message } => {
                    assert(diagnostics_view(syntax@) =~= seq![
                        error_at_token(scanned.tokens[at], message),
                    ]);
                    assert(diagnostics_view(syntax@)[0] == syntax@[0]@);
                },
            }
        }
    }
    out
}

} // verus!
