//! What scanning means: the tokens and diagnostics of a source text, stated
//! over the sequence of its characters.
//!
//! The text is read from left to right, one lexeme at a time. `scan_step`
//! says what one lexeme gives and where the next begins; `scan` strings the
//! steps together and ends the tokens with the end-of-input token.

use crate::diagnostics::{error_on_line, DiagnosticView};
use crate::object::ObjectView;
use crate::token::{TokenKind, TokenView};
use vstd::prelude::*;

verus! {

/// An ASCII decimal digit.
pub open spec fn is_digit(c: char) -> bool {
    '0' <= c <= '9'
}

/// An ASCII letter or the underscore: what a name begins with.
pub open spec fn is_alpha(c: char) -> bool {
    ('a' <= c <= 'z') || ('A' <= c <= 'Z') || c == '_'
}

/// What a name goes on with.
pub open spec fn is_alphanumeric(c: char) -> bool {
    is_alpha(c) || is_digit(c)
}

/// The class of the decimal digits.
pub open spec fn digits() -> spec_fn(char) -> bool {
    |c: char| is_digit(c)
}

/// The class of the characters that a name goes on with.
pub open spec fn word_characters() -> spec_fn(char) -> bool {
    |c: char| is_alphanumeric(c)
}

/// The class of the characters inside a string literal: all but the quote.
pub open spec fn string_characters() -> spec_fn(char) -> bool {
    |c: char| c != '"'
}

/// The class of the characters inside a comment: all but the newline.
pub open spec fn comment_characters() -> spec_fn(char) -> bool {
    |c: char| c != '\n'
}

/// The end of the longest run of characters of `class` that begins at `from`:
/// the first place at or after `from` that holds another character, or the
/// end of the text.
pub open spec fn run_end(src: Seq<char>, from: int, class: spec_fn(char) -> bool) -> int
    decreases src.len() - from,
{
    if 0 <= from < src.len() && class(src[from]) {
        run_end(src, from + 1, class)
    } else {
        from
    }
}

/// The number of newlines in `src[from..to]`.
pub open spec fn newlines(src: Seq<char>, from: int, to: int) -> nat
    decreases to - from,
{
    if from >= to {
        0
    } else {
        newlines(src, from, to - 1) + if src[to - 1] == '\n' {
            1nat
        } else {
            0nat
        }
    }
}

/// The reserved words, which are case-sensitive, and their kinds.
pub open spec fn keyword_kind(word: Seq<char>) -> Option<TokenKind> {
    if word == "and"@ {
        Some(TokenKind::And)
    } else if word == "class"@ {
        Some(TokenKind::Class)
    } else if word == "else"@ {
        Some(TokenKind::Else)
    } else if word == "false"@ {
        Some(TokenKind::False)
    } else if word == "for"@ {
        Some(TokenKind::For)
    } else if word == "fun"@ {
        Some(TokenKind::Fun)
    } else if word == "if"@ {
        Some(TokenKind::If)
    } else if word == "nil"@ {
        Some(TokenKind::Nil)
    } else if word == "or"@ {
        Some(TokenKind::Or)
    } else if word == "print"@ {
        Some(TokenKind::Print)
    } else if word == "return"@ {
        Some(TokenKind::Return)
    } else if word == "super"@ {
        Some(TokenKind::Super)
    } else if word == "this"@ {
        Some(TokenKind::This)
    } else if word == "true"@ {
        Some(TokenKind::True)
    } else if word == "var"@ {
        Some(TokenKind::Var)
    } else if word == "while"@ {
        Some(TokenKind::While)
    } else {
        None
    }
}

/// The kind of a name: that of the reserved word it is, else `Identifier`.
pub open spec fn word_kind(word: Seq<char>) -> TokenKind {
    match keyword_kind(word) {
        Some(kind) => kind,
        None => TokenKind::Identifier,
    }
}

/// The text of a number literal: digits, then optionally a point and more
/// digits, with a digit on either side of the point.
pub open spec fn is_number_text(text: Seq<char>) -> bool {
    let whole = run_end(text, 0, digits());
    &&& 0 < whole <= text.len()
    &&& whole == text.len() || {
        &&& text[whole] == '.'
        &&& whole + 1 < text.len()
        &&& run_end(text, whole + 1, digits()) == text.len()
    }
}

/// What one lexeme gives: where the next begins, the line reached, and at
/// most one token and one diagnostic.
pub struct Step {
    pub next: int,
    pub line: nat,
    pub token: Option<TokenView>,
    pub diagnostic: Option<DiagnosticView>,
}

/// The token of `src[start..end]`, without a literal.
pub open spec fn plain_token(kind: TokenKind, src: Seq<char>, start: int, end: int, line: nat) -> Step {
    Step {
        next: end,
        line,
        token: Some(TokenView { kind, lexeme: src.subrange(start, end), literal: None, line }),
        diagnostic: None,
    }
}

/// The step of an operator that may be followed by `=`: the longer form is
/// taken when the `=` is there.
pub open spec fn operator_step(
    src: Seq<char>,
    start: int,
    line: nat,
    short: TokenKind,
    long: TokenKind,
) -> Step {
    if start + 1 < src.len() && src[start + 1] == '=' {
        plain_token(long, src, start, start + 2, line)
    } else {
        plain_token(short, src, start, start + 1, line)
    }
}

/// A step that gives nothing.
pub open spec fn skip_to(next: int, line: nat) -> Step {
    Step { next, line, token: None, diagnostic: None }
}

/// The step of a string literal, which begins with the quote at `start`. The
/// literal runs to the next quote, over newlines too, and its value is the
/// text between the quotes. Without a closing quote the rest of the text is
/// consumed, no token is made, and the error is reported on the last line.
pub open spec fn string_step(src: Seq<char>, start: int, line: nat) -> Step {
    let close = run_end(src, start + 1, string_characters());
    let last_line = line + newlines(src, start + 1, close);
    if close >= src.len() {
        Step {
            next: close,
            line: last_line,
            token: None,
            diagnostic: Some(error_on_line(last_line, "Unterminated string."@)),
        }
    } else {
        Step {
            next: close + 1,
            line: last_line,
            token: Some(
                TokenView {
                    kind: TokenKind::String,
                    lexeme: src.subrange(start, close + 1),
                    literal: Some(ObjectView::String(src.subrange(start + 1, close))),
                    line: last_line,
                },
            ),
            diagnostic: None,
        }
    }
}

/// Where the number literal that begins at `start` ends: after its digits,
/// or, if a point and a digit follow them, after the digits behind the point.
pub open spec fn number_end(src: Seq<char>, start: int) -> int {
    let whole = run_end(src, start + 1, digits());
    if whole + 1 < src.len() && src[whole] == '.' && is_digit(src[whole + 1]) {
        run_end(src, whole + 1, digits())
    } else {
        whole
    }
}

/// The step of a number literal. Its value is what `number_value` makes of
/// its text.
pub open spec fn number_step(
    src: Seq<char>,
    start: int,
    line: nat,
    number_value: spec_fn(Seq<char>) -> u64,
) -> Step {
    let end = number_end(src, start);
    let lexeme = src.subrange(start, end);
    Step {
        next: end,
        line,
        token: Some(
            TokenView {
                kind: TokenKind::Number,
                lexeme,
                literal: Some(ObjectView::Number(number_value(lexeme))),
                line,
            },
        ),
        diagnostic: None,
    }
}

/// The step of a name or reserved word.
pub open spec fn word_step(src: Seq<char>, start: int, line: nat) -> Step {
    let end = run_end(src, start + 1, word_characters());
    plain_token(word_kind(src.subrange(start, end)), src, start, end, line)
}

/// The step of the lexeme that begins at `start`, which is inside the text.
pub open spec fn scan_step(
    src: Seq<char>,
    start: int,
    line: nat,
    number_value: spec_fn(Seq<char>) -> u64,
) -> Step
    recommends
        0 <= start < src.len(),
{
    let c = src[start];
    if c == '(' {
        plain_token(TokenKind::LeftParen, src, start, start + 1, line)
    } else if c == ')' {
        plain_token(TokenKind::RightParen, src, start, start + 1, line)
    } else if c == '{' {
        plain_token(TokenKind::LeftBrace, src, start, start + 1, line)
    } else if c == '}' {
        plain_token(TokenKind::RightBrace, src, start, start + 1, line)
    } else if c == ',' {
        plain_token(TokenKind::Comma, src, start, start + 1, line)
    } else if c == '.' {
        plain_token(TokenKind::Dot, src, start, start + 1, line)
    } else if c == '-' {
        plain_token(TokenKind::Minus, src, start, start + 1, line)
    } else if c == '+' {
        plain_token(TokenKind::Plus, src, start, start + 1, line)
    } else if c == ';' {
        plain_token(TokenKind::Semicolon, src, start, start + 1, line)
    } else if c == '*' {
        plain_token(TokenKind::Star, src, start, start + 1, line)
    } else if c == '!' {
        operator_step(src, start, line, TokenKind::Bang, TokenKind::BangEqual)
    } else if c == '=' {
        operator_step(src, start, line, TokenKind::Equal, TokenKind::EqualEqual)
    } else if c == '<' {
        operator_step(src, start, line, TokenKind::Less, TokenKind::LessEqual)
    } else if c == '>' {
        operator_step(src, start, line, TokenKind::Greater, TokenKind::GreaterEqual)
    } else if c == '/' {
        if start + 1 < src.len() && src[start + 1] == '/' {
            // A comment runs to the end of its line.
            skip_to(run_end(src, start + 2, comment_characters()), line)
        } else {
            plain_token(TokenKind::Slash, src, start, start + 1, line)
        }
    } else if c == ' ' || c == '\r' || c == '\t' {
        skip_to(start + 1, line)
    } else if c == '\n' {
        skip_to(start + 1, line + 1)
    } else if c == '"' {
        string_step(src, start, line)
    } else if is_digit(c) {
        number_step(src, start, line, number_value)
    } else if is_alpha(c) {
        word_step(src, start, line)
    } else {
        Step {
            next: start + 1,
            line,
            token: None,
            diagnostic: Some(error_on_line(line, "Unexpected character."@)),
        }
    }
}

/// The tokens and the diagnostics of a text, each in the order of the text.
pub struct Scan {
    pub tokens: Seq<TokenView>,
    pub diagnostics: Seq<DiagnosticView>,
}

/// The token that ends every scan: no text, and the last line reached.
pub open spec fn end_token(line: nat) -> TokenView {
    TokenView { kind: TokenKind::Eof, lexeme: Seq::<char>::empty(), literal: None, line }
}

/// The zero or one element that an optional value stands for.
pub open spec fn optional<T>(value: Option<T>) -> Seq<T> {
    match value {
        None => Seq::<T>::empty(),
        Some(v) => seq![v],
    }
}

/// The scan of `src[start..]`, which begins on `line`.
pub open spec fn scan_from(
    src: Seq<char>,
    start: int,
    line: nat,
    number_value: spec_fn(Seq<char>) -> u64,
) -> Scan
    decreases src.len() - start,
{
    if 0 <= start < src.len() {
        let step = scan_step(src, start, line, number_value);
        proof {
            lemma_step_advances(src, start, line, number_value);
        }
        let rest = scan_from(src, step.next, step.line, number_value);
        Scan {
            tokens: optional(step.token) + rest.tokens,
            diagnostics: optional(step.diagnostic) + rest.diagnostics,
        }
    } else {
        Scan { tokens: seq![end_token(line)], diagnostics: Seq::<DiagnosticView>::empty() }
    }
}

/// The scan of a whole text: lines are counted from 1.
pub open spec fn scan(src: Seq<char>, number_value: spec_fn(Seq<char>) -> u64) -> Scan {
    scan_from(src, 0, 1, number_value)
}

/// A run ends at or after its beginning and inside the text, and the
/// character at its end, if there is one, is not of the class.
pub proof fn lemma_run_end_bounds(src: Seq<char>, from: int, class: spec_fn(char) -> bool)
    requires
        0 <= from <= src.len(),
    ensures
        from <= run_end(src, from, class) <= src.len(),
        run_end(src, from, class) < src.len() ==> !class(src[run_end(src, from, class)]),
        forall|k: int| from <= k < run_end(src, from, class) ==> class(#[trigger] src[k]),
    decreases src.len() - from,
{
    if from < src.len() && class(src[from]) {
        lemma_run_end_bounds(src, from + 1, class);
    }
}

/// A run ends at `to` when every character of `src[from..to]` is of the class
/// and the character at `to`, if there is one, is not.
pub proof fn lemma_run_end_is(src: Seq<char>, from: int, to: int, class: spec_fn(char) -> bool)
    requires
        0 <= from <= to <= src.len(),
        forall|k: int| from <= k < to ==> class(#[trigger] src[k]),
        to < src.len() ==> !class(src[to]),
    ensures
        run_end(src, from, class) == to,
    decreases to - from,
{
    if from < to {
        lemma_run_end_is(src, from + 1, to, class);
    }
}

/// Every step consumes at least one character and stays inside the text.
pub proof fn lemma_step_advances(
    src: Seq<char>,
    start: int,
    line: nat,
    number_value: spec_fn(Seq<char>) -> u64,
)
    requires
        0 <= start < src.len(),
    ensures
        start < scan_step(src, start, line, number_value).next <= src.len(),
{
    lemma_run_end_bounds(src, start + 1, string_characters());
    lemma_run_end_bounds(src, start + 1, digits());
    lemma_run_end_bounds(src, start + 1, word_characters());
    if start + 2 <= src.len() {
        lemma_run_end_bounds(src, start + 2, comment_characters());
    }
    let whole = run_end(src, start + 1, digits());
    if whole + 1 < src.len() {
        lemma_run_end_bounds(src, whole + 1, digits());
    }
}

/// Newlines are counted piece by piece.
pub proof fn lemma_newlines_split(src: Seq<char>, from: int, mid: int, to: int)
    requires
        from <= mid <= to,
    ensures
        newlines(src, from, to) == newlines(src, from, mid) + newlines(src, mid, to),
    decreases to - mid,
{
    if mid < to {
        lemma_newlines_split(src, from, mid, to - 1);
    }
}

/// A piece of text without a newline counts for no line.
pub proof fn lemma_no_newlines(src: Seq<char>, from: int, to: int)
    requires
        0 <= from <= to <= src.len(),
        forall|k: int| from <= k < to ==> #[trigger] src[k] != '\n',
    ensures
        newlines(src, from, to) == 0,
    decreases to - from,
{
    if from < to {
        lemma_no_newlines(src, from, to - 1);
    }
}

/// One character counts for a line if it is a newline.
pub proof fn lemma_newlines_one(src: Seq<char>, at: int)
    ensures
        newlines(src, at, at + 1) == if src[at] == '\n' {
            1nat
        } else {
            0nat
        },
{
    assert(newlines(src, at, at) == 0);
}

/// A step raises the line count by the number of newlines that it consumes,
/// and the token that it gives is on the line on which the step ends.
pub proof fn lemma_step_counts_lines(
    src: Seq<char>,
    start: int,
    line: nat,
    number_value: spec_fn(Seq<char>) -> u64,
)
    requires
        0 <= start < src.len(),
    ensures
        ({
            let step = scan_step(src, start, line, number_value);
            &&& step.line == line + newlines(src, start, step.next)
            &&& step.token matches Some(token) ==> token.line == step.line && token.kind
                != TokenKind::Eof
            &&& step.diagnostic matches Some(diagnostic) ==> diagnostic.line == step.line
        }),
{
    let step = scan_step(src, start, line, number_value);
    let c = src[start];
    lemma_step_advances(src, start, line, number_value);
    lemma_newlines_split(src, start, start + 1, step.next);
    lemma_newlines_one(src, start);
    if c == '"' {
        let close = run_end(src, start + 1, string_characters());
        lemma_run_end_bounds(src, start + 1, string_characters());
        if close < src.len() {
            lemma_newlines_one(src, close);
            lemma_newlines_split(src, start + 1, close, close + 1);
        }
    } else if c == '/' && start + 1 < src.len() && src[start + 1] == '/' {
        lemma_run_end_bounds(src, start + 2, comment_characters());
        assert forall|k: int| start + 2 <= k < step.next implies #[trigger] src[k] != '\n' by {
            assert(comment_characters()(src[k]));
        }
        lemma_no_newlines(src, start + 2, step.next);
        lemma_newlines_split(src, start + 1, start + 2, step.next);
        lemma_newlines_one(src, start + 1);
    } else if is_digit(c) {
        let whole = run_end(src, start + 1, digits());
        lemma_run_end_bounds(src, start + 1, digits());
        if whole + 1 < src.len() {
            lemma_run_end_bounds(src, whole + 1, digits());
        }
        assert forall|k: int| start + 1 <= k < step.next implies #[trigger] src[k] != '\n' by {
            if k != whole {
                assert(digits()(src[k]));
            }
        }
        lemma_no_newlines(src, start + 1, step.next);
    } else if is_alpha(c) {
        lemma_run_end_bounds(src, start + 1, word_characters());
        assert forall|k: int| start + 1 <= k < step.next implies #[trigger] src[k] != '\n' by {
            assert(word_characters()(src[k]));
        }
        lemma_no_newlines(src, start + 1, step.next);
    } else if step.next == start + 2 {
        lemma_newlines_one(src, start + 1);
    } else {
        assert(newlines(src, start + 1, start + 1) == 0);
    }
}

/// The tokens of a scan end with the end-of-input token, which is the only
/// one of its kind and stands on the line that the newlines of the whole text
/// lead to.
pub proof fn lemma_scan_ends(
    src: Seq<char>,
    start: int,
    line: nat,
    number_value: spec_fn(Seq<char>) -> u64,
)
    requires
        0 <= start <= src.len(),
    ensures
        ({
            let tokens = scan_from(src, start, line, number_value).tokens;
            &&& tokens.len() > 0
            &&& tokens.last() == end_token(line + newlines(src, start, src.len() as int))
            &&& forall|i: int| 0 <= i < tokens.len() - 1 ==> (#[trigger] tokens[i]).kind != TokenKind::Eof
            &&& forall|i: int| 0 <= i < tokens.len() ==> line <= (#[trigger] tokens[i]).line
        }),
    decreases src.len() - start,
{
    if start < src.len() {
        let step = scan_step(src, start, line, number_value);
        lemma_step_advances(src, start, line, number_value);
        lemma_step_counts_lines(src, start, line, number_value);
        lemma_scan_ends(src, step.next, step.line, number_value);
        lemma_newlines_split(src, start, step.next, src.len() as int);
    } else {
        assert(newlines(src, start, src.len() as int) == 0);
    }
}

/// Two tokens that differ at most in the value of a number literal.
pub open spec fn alike(a: TokenView, b: TokenView) -> bool {
    &&& a.kind == b.kind
    &&& a.lexeme == b.lexeme
    &&& a.line == b.line
    &&& a.literal == b.literal || (a.literal matches Some(ObjectView::Number(_)) && b.literal
        matches Some(ObjectView::Number(_)))
}

/// Two sequences of tokens that differ at most in the values of number
/// literals.
pub open spec fn all_alike(a: Seq<TokenView>, b: Seq<TokenView>) -> bool {
    a.len() == b.len() && forall|i: int| 0 <= i < a.len() ==> alike(#[trigger] a[i], b[i])
}

/// Sequences that are alike stay alike with one sequence put behind both.
pub proof fn lemma_alike_with_rest(a: Seq<TokenView>, b: Seq<TokenView>, rest: Seq<TokenView>)
    requires
        all_alike(a, b),
    ensures
        all_alike(a + rest, b + rest),
{
    assert forall|i: int| 0 <= i < (a + rest).len() implies alike(
        #[trigger] (a + rest)[i],
        (b + rest)[i],
    ) by {
        if i < a.len() {
            assert(alike(a[i], b[i]));
        }
    }
}

/// To be alike carries over from one sequence to the next.
pub proof fn lemma_alike_chain(a: Seq<TokenView>, b: Seq<TokenView>, c: Seq<TokenView>)
    requires
        all_alike(a, b),
        all_alike(b, c),
    ensures
        all_alike(a, c),
{
    assert forall|i: int| 0 <= i < a.len() implies alike(#[trigger] a[i], c[i]) by {
        assert(alike(a[i], b[i]));
        assert(alike(b[i], c[i]));
    }
}

/// What the value of a number literal is changes the value of number
/// tokens and nothing else of a scan: not which tokens there are, nor their
/// kinds, texts and lines, nor the diagnostics.
pub proof fn lemma_scan_shape(
    src: Seq<char>,
    start: int,
    line: nat,
    first: spec_fn(Seq<char>) -> u64,
    second: spec_fn(Seq<char>) -> u64,
)
    requires
        0 <= start <= src.len(),
    ensures
        all_alike(
            scan_from(src, start, line, first).tokens,
            scan_from(src, start, line, second).tokens,
        ),
        scan_from(src, start, line, first).diagnostics == scan_from(
            src,
            start,
            line,
            second,
        ).diagnostics,
    decreases src.len() - start,
{
    if start < src.len() {
        let a = scan_step(src, start, line, first);
        let b = scan_step(src, start, line, second);
        lemma_step_advances(src, start, line, first);
        lemma_scan_shape(src, a.next, a.line, first, second);
        let rest_a = scan_from(src, a.next, a.line, first).tokens;
        let rest_b = scan_from(src, b.next, b.line, second).tokens;
        assert(all_alike(optional(a.token), optional(b.token)));
        assert forall|i: int| 0 <= i < (optional(a.token) + rest_a).len() implies alike(
            #[trigger] (optional(a.token) + rest_a)[i],
            (optional(b.token) + rest_b)[i],
        ) by {
            if i < optional(a.token).len() {
                assert(alike(optional(a.token)[i], optional(b.token)[i]));
            } else {
                assert(alike(
                    rest_a[i - optional(a.token).len()],
                    rest_b[i - optional(a.token).len()],
                ));
            }
        }
    }
}

} // verus!
