//! The scanner: source text to tokens.

use crate::diagnostics::{
    diagnostics_view, err, error_on_line, lemma_diagnostics_view_push, Diagnostic,
};
use crate::grammar::terminated;
use crate::lexing::{
    comment_characters, digits, is_alpha, is_alphanumeric, is_digit, is_number_text,
    all_alike, lemma_alike_chain, lemma_alike_with_rest, lemma_run_end_bounds, lemma_run_end_is,
    newlines, number_end, number_step, operator_step,
    optional, plain_token, run_end, scan, scan_from, scan_step, skip_to, string_characters,
    string_step, word_characters, word_kind, word_step, Step,
};
use crate::number::{parses_as, Number};
use crate::object::Object;
use crate::text::{chars_of, text_of};
use crate::token::{lemma_tokens_view_push, tokens_view, Token, TokenKind, TokenView};
use vstd::prelude::*;
use vstd::string::*;

verus! {

/// Reads a source text from left to right and collects its tokens and the
/// diagnostics of what is no token. `parse_number` gives the value of a
/// number literal from its text.
pub struct Scanner<P> {
    source: Vec<char>,
    tokens: Vec<Token>,
    diagnostics: Vec<Diagnostic>,
    start: usize,
    current: usize,
    line: usize,
    parse_number: P,
}

fn is_digit_char(c: char) -> (r: bool)
    ensures
        r == is_digit(c),
{
    '0' <= c && c <= '9'
}

fn is_alpha_char(c: char) -> (r: bool)
    ensures
        r == is_alpha(c),
{
    ('a' <= c && c <= 'z') || ('A' <= c && c <= 'Z') || c == '_'
}

/// Whether `chars[from..to]` is the text `word`.
fn is_word(chars: &Vec<char>, from: usize, to: usize, word: &str) -> (r: bool)
    requires
        from <= to <= chars.len(),
    ensures
        r == (chars@.subrange(from as int, to as int) == word@),
{
    let n: usize = word.unicode_len();
    if to - from != n {
        return false;
    }
    let mut i: usize = 0;
    while i < n
        invariant
            from <= to <= chars.len(),
            n == word@.len(),
            to - from == n,
            i <= n,
            forall|k: int| 0 <= k < i ==> chars@[from + k] == word@[k],
        decreases n - i,
    {
        if chars[from + i] != word.get_char(i) {
            assert(chars@.subrange(from as int, to as int)[i as int] != word@[i as int]);
            return false;
        }
        i += 1;
    }
    assert(chars@.subrange(from as int, to as int) =~= word@);
    true
}

/// The kind of the name `chars[from..to]`.
fn kind_of_word(chars: &Vec<char>, from: usize, to: usize) -> (kind: TokenKind)
    requires
        from <= to <= chars.len(),
    ensures
        kind == word_kind(chars@.subrange(from as int, to as int)),
{
    if is_word(chars, from, to, "and") {
        TokenKind::And
    } else if is_word(chars, from, to, "class") {
        TokenKind::Class
    } else if is_word(chars, from, to, "else") {
        TokenKind::Else
    } else if is_word(chars, from, to, "false") {
        TokenKind::False
    } else if is_word(chars, from, to, "for") {
        TokenKind::For
    } else if is_word(chars, from, to, "fun") {
        TokenKind::Fun
    } else if is_word(chars, from, to, "if") {
        TokenKind::If
    } else if is_word(chars, from, to, "nil") {
        TokenKind::Nil
    } else if is_word(chars, from, to, "or") {
        TokenKind::Or
    } else if is_word(chars, from, to, "print") {
        TokenKind::Print
    } else if is_word(chars, from, to, "return") {
        TokenKind::Return
    } else if is_word(chars, from, to, "super") {
        TokenKind::Super
    } else if is_word(chars, from, to, "this") {
        TokenKind::This
    } else if is_word(chars, from, to, "true") {
        TokenKind::True
    } else if is_word(chars, from, to, "var") {
        TokenKind::Var
    } else if is_word(chars, from, to, "while") {
        TokenKind::While
    } else {
        TokenKind::Identifier
    }
}

impl<P: Fn(&str) -> u64> Scanner<P> {
    /// The text that the scanner reads.
    pub closed spec fn source(&self) -> Seq<char> {
        self.source@
    }

    /// The function that gives the value of a number literal.
    pub closed spec fn number_parser(&self) -> P {
        self.parse_number
    }

    /// The cursors are inside the text and in order, the line count cannot
    /// overflow, and every number literal may be handed to the parser of
    /// numbers.
    spec fn wf(&self) -> bool {
        &&& self.start <= self.current <= self.source.len()
        &&& self.source.len() < usize::MAX
        &&& 1 <= self.line <= self.current + 1
        &&& forall|text: &str| is_number_text(text@) ==> call_requires(self.parse_number, (text,))
    }

    /// Nothing has been read yet.
    pub closed spec fn fresh(&self) -> bool {
        &&& self.wf()
        &&& self.current == 0
        &&& self.line == 1
        &&& self.tokens@.len() == 0
        &&& self.diagnostics@.len() == 0
    }

    /// The text and the parser of numbers are those of `before`.
    spec fn same_input(&self, before: &Self) -> bool {
        &&& self.source == before.source
        &&& self.parse_number == before.parse_number
    }

    /// Since `before`, exactly `step` was taken.
    spec fn took(&self, before: &Self, step: Step) -> bool {
        &&& self.same_input(before)
        &&& self.current == step.next
        &&& self.line == step.line
        &&& tokens_view(self.tokens@) == tokens_view(before.tokens@) + optional(step.token)
        &&& diagnostics_view(self.diagnostics@) == diagnostics_view(before.diagnostics@)
            + optional(step.diagnostic)
    }

    /// Since `before`, `step` was taken, but for the value of a number
    /// literal, which may be another.
    spec fn took_alike(&self, before: &Self, step: Step) -> bool {
        &&& self.same_input(before)
        &&& self.current == step.next
        &&& self.line == step.line
        &&& all_alike(
            tokens_view(self.tokens@),
            tokens_view(before.tokens@) + optional(step.token),
        )
        &&& diagnostics_view(self.diagnostics@) == diagnostics_view(before.diagnostics@)
            + optional(step.diagnostic)
    }

    /// A step that was taken was taken but for the value of a number literal.
    proof fn lemma_took_is_alike(&self, before: &Self, step: Step)
        requires
            self.took(before, step),
        ensures
            self.took_alike(before, step),
    {
    }

    /// A scanner for `source`.
    pub fn new(source: &str, parse_number: P) -> (scanner: Self)
        requires
            source@.len() < usize::MAX,
            forall|text: &str| is_number_text(text@) ==> call_requires(parse_number, (text,)),
        ensures
            scanner.fresh(),
            scanner.source() == source@,
            scanner.number_parser() == parse_number,
    {
        Scanner {
            source: chars_of(source),
            tokens: Vec::new(),
            diagnostics: Vec::new(),
            start: 0,
            current: 0,
            line: 1,
            parse_number,
        }
    }

    fn at_end(&self) -> (r: bool)
        ensures
            r == (self.current >= self.source.len()),
    {
        self.current >= self.source.len()
    }

    fn peek(&self) -> (c: char)
        ensures
            c == if self.current < self.source.len() {
                self.source@[self.current as int]
            } else {
                '\0'
            },
    {
        if self.at_end() {
            '\0'
        } else {
            self.source[self.current]
        }
    }

    fn peek_next(&self) -> (c: char)
        requires
            self.source.len() < usize::MAX,
            self.current <= self.source.len(),
        ensures
            c == if self.current + 1 < self.source.len() {
                self.source@[self.current + 1]
            } else {
                '\0'
            },
    {
        if self.current + 1 >= self.source.len() {
            '\0'
        } else {
            self.source[self.current + 1]
        }
    }

    fn advance(&mut self) -> (c: char)
        requires
            old(self).current < old(self).source.len(),
        ensures
            c == old(self).source@[old(self).current as int],
            final(self).current == old(self).current + 1,
            final(self).same_input(old(self)),
            final(self).start == old(self).start,
            final(self).line == old(self).line,
            final(self).tokens == old(self).tokens,
            final(self).diagnostics == old(self).diagnostics,
    {
        self.current += 1;
        self.source[self.current - 1]
    }

    fn matches(&mut self, expected: char) -> (r: bool)
        requires
            old(self).current <= old(self).source.len(),
        ensures
            r == (old(self).current < old(self).source.len() && old(self).source@[old(self).current as int] == expected),
            final(self).current == if r {
                old(self).current + 1
            } else {
                old(self).current as int
            },
            final(self).same_input(old(self)),
            final(self).start == old(self).start,
            final(self).line == old(self).line,
            final(self).tokens == old(self).tokens,
            final(self).diagnostics == old(self).diagnostics,
    {
        if self.at_end() {
            return false;
        }
        if self.source[self.current] != expected {
            return false;
        }
        self.current += 1;
        true
    }

    fn add_token(&mut self, kind: TokenKind)
        requires
            old(self).start <= old(self).current <= old(self).source.len(),
        ensures
            final(self).took(
                old(self),
                plain_token(
                    kind,
                    old(self).source@,
                    old(self).start as int,
                    old(self).current as int,
                    old(self).line as nat,
                ),
            ),
            final(self).start == old(self).start,
    {
        self.add_token_literal(kind, None);
        proof {
            let step = plain_token(
                kind,
                old(self).source@,
                old(self).start as int,
                old(self).current as int,
                old(self).line as nat,
            );
            assert(tokens_view(old(self).tokens@).push(step.token->0) =~= tokens_view(
                old(self).tokens@,
            ) + optional(step.token));
            assert(diagnostics_view(old(self).diagnostics@) =~= diagnostics_view(
                old(self).diagnostics@,
            ) + optional(step.diagnostic));
        }
    }

    fn add_token_literal(&mut self, kind: TokenKind, literal: Option<Object>)
        requires
            old(self).start <= old(self).current <= old(self).source.len(),
        ensures
            final(self).same_input(old(self)),
            final(self).start == old(self).start,
            final(self).current == old(self).current,
            final(self).line == old(self).line,
            final(self).diagnostics == old(self).diagnostics,
            tokens_view(final(self).tokens@) == tokens_view(old(self).tokens@).push(
                TokenView {
                    kind,
                    lexeme: old(self).source@.subrange(
                        old(self).start as int,
                        old(self).current as int,
                    ),
                    literal: crate::object::value_view(literal),
                    line: old(self).line as nat,
                },
            ),
    {
        let text = text_of(&self.source, self.start, self.current);
        let token = Token::new(kind, text, literal, self.line);
        proof {
            lemma_tokens_view_push(self.tokens@, token);
        }
        self.tokens.push(token);
    }

    fn report(&mut self, message: &str)
        ensures
            final(self).same_input(old(self)),
            final(self).start == old(self).start,
            final(self).current == old(self).current,
            final(self).line == old(self).line,
            final(self).tokens == old(self).tokens,
            diagnostics_view(final(self).diagnostics@) == diagnostics_view(
                old(self).diagnostics@,
            ).push(error_on_line(old(self).line as nat, message@)),
    {
        let diagnostic = err(self.line, message);
        proof {
            lemma_diagnostics_view_push(self.diagnostics@, diagnostic);
        }
        self.diagnostics.push(diagnostic);
    }

    /// Reads a string literal whose opening quote has just been consumed.
    fn string(&mut self)
        requires
            old(self).wf(),
            old(self).current == old(self).start + 1,
        ensures
            final(self).wf(),
            final(self).start == old(self).start,
            old(self).current <= final(self).current,
            final(self).took(
                old(self),
                string_step(old(self).source@, old(self).start as int, old(self).line as nat),
            ),
    {
        while self.peek() != '"' && !self.at_end()
            invariant
                self.same_input(old(self)),
                self.start == old(self).start,
                self.tokens == old(self).tokens,
                self.diagnostics == old(self).diagnostics,
                old(self).wf(),
                self.start + 1 <= self.current <= self.source.len(),
                forall|k: int| self.start + 1 <= k < self.current ==> self.source@[k] != '"',
                self.line == old(self).line + newlines(
                    self.source@,
                    self.start + 1,
                    self.current as int,
                ),
                self.line <= self.current + 1,
            decreases self.source.len() - self.current,
        {
            if self.peek() == '\n' {
                self.line += 1;
            }
            self.advance();
        }
        proof {
            lemma_run_end_is(
                self.source@,
                self.start + 1,
                self.current as int,
                string_characters(),
            );
        }
        let ghost step = string_step(
            old(self).source@,
            old(self).start as int,
            old(self).line as nat,
        );
        if self.at_end() {
            self.report("Unterminated string.");
            proof {
                assert(tokens_view(self.tokens@) =~= tokens_view(old(self).tokens@) + optional(
                    step.token,
                ));
                assert(diagnostics_view(self.diagnostics@) =~= diagnostics_view(
                    old(self).diagnostics@,
                ) + optional(step.diagnostic));
            }
            return ;
        }
        self.advance();
        let value = text_of(&self.source, self.start + 1, self.current - 1);
        self.add_token_literal(TokenKind::String, Some(Object::String(value)));
        proof {
            assert(tokens_view(self.tokens@) =~= tokens_view(old(self).tokens@) + optional(
                step.token,
            ));
            assert(diagnostics_view(self.diagnostics@) =~= diagnostics_view(
                old(self).diagnostics@,
            ) + optional(step.diagnostic));
        }
    }

    /// Consumes the digits at the cursor.
    fn digits(&mut self)
        requires
            old(self).current <= old(self).source.len(),
        ensures
            final(self).current == run_end(
                old(self).source@,
                old(self).current as int,
                digits(),
            ),
            old(self).current <= final(self).current <= old(self).source.len(),
            forall|k: int|
                old(self).current <= k < final(self).current ==> is_digit(
                    #[trigger] old(self).source@[k],
                ),
            final(self).same_input(old(self)),
            final(self).start == old(self).start,
            final(self).line == old(self).line,
            final(self).tokens == old(self).tokens,
            final(self).diagnostics == old(self).diagnostics,
    {
        while is_digit_char(self.peek())
            invariant
                self.same_input(old(self)),
                self.start == old(self).start,
                self.line == old(self).line,
                self.tokens == old(self).tokens,
                self.diagnostics == old(self).diagnostics,
                old(self).current <= self.current <= self.source.len(),
                forall|k: int|
                    old(self).current <= k < self.current ==> is_digit(
                        #[trigger] self.source@[k],
                    ),
            decreases self.source.len() - self.current,
        {
            self.advance();
        }
        proof {
            lemma_run_end_is(
                self.source@,
                old(self).current as int,
                self.current as int,
                digits(),
            );
        }
    }

    /// Reads a number literal whose first digit has just been consumed.
    fn number(&mut self)
        requires
            old(self).wf(),
            old(self).current == old(self).start + 1,
            is_digit(old(self).source@[old(self).start as int]),
        ensures
            final(self).wf(),
            final(self).same_input(old(self)),
            final(self).start == old(self).start,
            old(self).current <= final(self).current,
            final(self).current == number_end(old(self).source@, old(self).start as int),
            forall|model: spec_fn(Seq<char>) -> u64|
                parses_as(old(self).parse_number, model) ==> final(self).took(
                    old(self),
                    #[trigger] number_step(
                        old(self).source@,
                        old(self).start as int,
                        old(self).line as nat,
                        model,
                    ),
                ),
            forall|model: spec_fn(Seq<char>) -> u64|
                final(self).took_alike(
                    old(self),
                    #[trigger] number_step(
                        old(self).source@,
                        old(self).start as int,
                        old(self).line as nat,
                        model,
                    ),
                ),
    {
        self.digits();
        let ghost whole = self.current as int;
        if self.peek() == '.' && is_digit_char(self.peek_next()) {
            self.advance();
            self.digits();
        }
        let text = text_of(&self.source, self.start, self.current);
        proof {
            let lexeme = text@;
            let first = whole - self.start;
            assert forall|k: int| 0 <= k < first implies digits()(#[trigger] lexeme[k]) by {
                assert(lexeme[k] == self.source@[self.start + k]);
            }
            lemma_run_end_is(lexeme, 0, first, digits());
            if first < lexeme.len() {
                lemma_run_end_bounds(self.source@, whole + 2, digits());
                assert(run_end(self.source@, whole + 1, digits()) == run_end(
                    self.source@,
                    whole + 2,
                    digits(),
                ));
                assert(lexeme[first] == self.source@[whole]);
                assert(lexeme[first] == '.');
                assert(first + 1 < lexeme.len());
                assert forall|k: int| first + 1 <= k < lexeme.len() implies digits()(
                    #[trigger] lexeme[k],
                ) by {
                    assert(lexeme[k] == self.source@[self.start + k]);
                }
                lemma_run_end_is(lexeme, first + 1, lexeme.len() as int, digits());
            }
            assert(is_number_text(lexeme));
        }
        let bits = (self.parse_number)(text.as_str());
        self.add_token_literal(TokenKind::Number, Some(Object::Number(Number::from_bits(bits))));
        proof {
            assert forall|model: spec_fn(Seq<char>) -> u64|
                parses_as(old(self).parse_number, model) implies self.took(
                old(self),
                #[trigger] number_step(
                    old(self).source@,
                    old(self).start as int,
                    old(self).line as nat,
                    model,
                ),
            ) by {
                let step = number_step(
                    old(self).source@,
                    old(self).start as int,
                    old(self).line as nat,
                    model,
                );
                assert(bits == model(text@));
                assert(tokens_view(self.tokens@) =~= tokens_view(old(self).tokens@) + optional(
                    step.token,
                ));
                assert(diagnostics_view(self.diagnostics@) =~= diagnostics_view(
                    old(self).diagnostics@,
                ) + optional(step.diagnostic));
            }
            assert forall|model: spec_fn(Seq<char>) -> u64|
                self.took_alike(
                    old(self),
                    #[trigger] number_step(
                        old(self).source@,
                        old(self).start as int,
                        old(self).line as nat,
                        model,
                    ),
                ) by {
                let step = number_step(
                    old(self).source@,
                    old(self).start as int,
                    old(self).line as nat,
                    model,
                );
                let expected = tokens_view(old(self).tokens@) + optional(step.token);
                assert(tokens_view(self.tokens@).len() == expected.len());
                assert forall|i: int| 0 <= i < expected.len() implies crate::lexing::alike(
                    #[trigger] tokens_view(self.tokens@)[i],
                    expected[i],
                ) by {}
                assert(diagnostics_view(self.diagnostics@) =~= diagnostics_view(
                    old(self).diagnostics@,
                ) + optional(step.diagnostic));
            }
        }
    }

    /// Reads a name or reserved word whose first character has just been
    /// consumed.
    fn identifier(&mut self)
        requires
            old(self).wf(),
            old(self).current == old(self).start + 1,
        ensures
            final(self).wf(),
            final(self).start == old(self).start,
            old(self).current <= final(self).current,
            final(self).took(
                old(self),
                word_step(old(self).source@, old(self).start as int, old(self).line as nat),
            ),
    {
        while is_alpha_char(self.peek()) || is_digit_char(self.peek())
            invariant
                self.same_input(old(self)),
                self.start == old(self).start,
                self.line == old(self).line,
                self.tokens == old(self).tokens,
                self.diagnostics == old(self).diagnostics,
                self.start + 1 <= self.current <= self.source.len(),
                forall|k: int|
                    self.start + 1 <= k < self.current ==> is_alphanumeric(
                        #[trigger] self.source@[k],
                    ),
            decreases self.source.len() - self.current,
        {
            self.advance();
        }
        proof {
            lemma_run_end_is(
                self.source@,
                self.start + 1,
                self.current as int,
                word_characters(),
            );
        }
        let kind = kind_of_word(&self.source, self.start, self.current);
        self.add_token(kind);
    }

    /// Since `before` nothing was added and the cursor is where `step` ends.
    proof fn lemma_took_nothing(&self, before: &Self, step: Step)
        requires
            self.same_input(before),
            self.tokens == before.tokens,
            self.diagnostics == before.diagnostics,
            self.current == step.next,
            self.line == step.line,
            step.token is None,
            step.diagnostic is None,
        ensures
            self.took(before, step),
    {
        assert(tokens_view(self.tokens@) =~= tokens_view(before.tokens@) + optional(step.token));
        assert(diagnostics_view(self.diagnostics@) =~= diagnostics_view(before.diagnostics@)
            + optional(step.diagnostic));
    }

    /// Adds the token of an operator that may be followed by `=`.
    fn operator(&mut self, short: TokenKind, long: TokenKind)
        requires
            old(self).wf(),
            old(self).current == old(self).start + 1,
        ensures
            final(self).wf(),
            final(self).start == old(self).start,
            final(self).took(
                old(self),
                operator_step(
                    old(self).source@,
                    old(self).start as int,
                    old(self).line as nat,
                    short,
                    long,
                ),
            ),
    {
        let kind = if self.matches('=') {
            long
        } else {
            short
        };
        self.add_token(kind);
    }

    /// Reads the lexeme at the cursor.
    fn scan_token(&mut self)
        requires
            old(self).wf(),
            old(self).start == old(self).current,
            old(self).current < old(self).source.len(),
        ensures
            final(self).wf(),
            final(self).same_input(old(self)),
            old(self).current < final(self).current,
            forall|model: spec_fn(Seq<char>) -> u64|
                parses_as(old(self).parse_number, model) ==> final(self).took(
                    old(self),
                    #[trigger] scan_step(
                        old(self).source@,
                        old(self).current as int,
                        old(self).line as nat,
                        model,
                    ),
                ),
            forall|model: spec_fn(Seq<char>) -> u64|
                final(self).took_alike(
                    old(self),
                    #[trigger] scan_step(
                        old(self).source@,
                        old(self).current as int,
                        old(self).line as nat,
                        model,
                    ),
                ),
    {
        let ghost src = self.source@;
        let ghost start = self.start as int;
        let ghost line = self.line as nat;
        let c = self.advance();
        let ghost advanced = *self;
        match c {
            '(' => self.add_token(TokenKind::LeftParen),
            ')' => self.add_token(TokenKind::RightParen),
            '{' => self.add_token(TokenKind::LeftBrace),
            '}' => self.add_token(TokenKind::RightBrace),
            ',' => self.add_token(TokenKind::Comma),
            '.' => self.add_token(TokenKind::Dot),
            '-' => self.add_token(TokenKind::Minus),
            '+' => self.add_token(TokenKind::Plus),
            ';' => self.add_token(TokenKind::Semicolon),
            '*' => self.add_token(TokenKind::Star),
            '!' => self.operator(TokenKind::Bang, TokenKind::BangEqual),
            '=' => self.operator(TokenKind::Equal, TokenKind::EqualEqual),
            '<' => self.operator(TokenKind::Less, TokenKind::LessEqual),
            '>' => self.operator(TokenKind::Greater, TokenKind::GreaterEqual),
            '/' => {
                if self.matches('/') {
                    // A comment runs to the end of its line.
                    while self.peek() != '\n' && !self.at_end()
                        invariant
                            self.same_input(&advanced),
                            self.start == advanced.start,
                            self.line == advanced.line,
                            self.tokens == advanced.tokens,
                            self.diagnostics == advanced.diagnostics,
                            self.start + 2 <= self.current <= self.source.len(),
                            forall|k: int|
                                self.start + 2 <= k < self.current ==> self.source@[k] != '\n',
                        decreases self.source.len() - self.current,
                    {
                        self.advance();
                    }
                    proof {
                        lemma_run_end_is(src, start + 2, self.current as int, comment_characters());
                        self.lemma_took_nothing(
                            old(self),
                            skip_to(run_end(src, start + 2, comment_characters()), line),
                        );
                    }
                } else {
                    self.add_token(TokenKind::Slash);
                }
            },
            ' ' | '\r' | '\t' => {
                proof {
                    self.lemma_took_nothing(old(self), skip_to(start + 1, line));
                }
            },
            '\n' => {
                self.line += 1;
                proof {
                    self.lemma_took_nothing(old(self), skip_to(start + 1, line + 1));
                }
            },
            '"' => self.string(),
            _ => {
                if is_digit_char(c) {
                    self.number();
                } else if is_alpha_char(c) {
                    self.identifier();
                } else {
                    self.report("Unexpected character.");
                    proof {
                        let step = Step {
                            next: start + 1,
                            line,
                            token: None,
                            diagnostic: Some(error_on_line(line, "Unexpected character."@)),
                        };
                        assert(tokens_view(self.tokens@) =~= tokens_view(old(self).tokens@)
                            + optional(step.token));
                        assert(diagnostics_view(self.diagnostics@) =~= diagnostics_view(
                            old(self).diagnostics@,
                        ) + optional(step.diagnostic));
                    }
                }
            },
        }
        proof {
            assert forall|model: spec_fn(Seq<char>) -> u64|
                parses_as(old(self).parse_number, model) implies self.took(
                old(self),
                #[trigger] scan_step(src, start, line, model),
            ) by {
                let step = scan_step(src, start, line, model);
                if is_digit(c) {
                    assert(step == number_step(src, start, line, model));
                }
            }
            assert forall|model: spec_fn(Seq<char>) -> u64|
                self.took_alike(old(self), #[trigger] scan_step(src, start, line, model)) by {
                let step = scan_step(src, start, line, model);
                if is_digit(c) {
                    assert(step == number_step(src, start, line, model));
                } else {
                    assert(self.took(old(self), step));
                    self.lemma_took_is_alike(old(self), step);
                }
            }
        }
    }

    /// Reads the whole text. Returns its tokens, which end with the
    /// end-of-input token, and the diagnostics of what was no token, each in
    /// the order of the text.
    pub fn scan_tokens(self) -> (out: (Vec<Token>, Vec<Diagnostic>))
        requires
            self.fresh(),
        ensures
            forall|model: spec_fn(Seq<char>) -> u64|
                parses_as(self.number_parser(), model) ==> {
                    &&& tokens_view(out.0@) == (#[trigger] scan(self.source(), model)).tokens
                    &&& diagnostics_view(out.1@) == scan(self.source(), model).diagnostics
                },
            forall|model: spec_fn(Seq<char>) -> u64|
                {
                    &&& all_alike(
                        tokens_view(out.0@),
                        (#[trigger] scan(self.source(), model)).tokens,
                    )
                    &&& diagnostics_view(out.1@) == scan(self.source(), model).diagnostics
                },
            terminated(tokens_view(out.0@)),
            out.0@.last()@.lexeme.len() == 0,
    {
        let ghost before = self;
        let ghost src = self.source@;
        let mut scanner = self;
        proof {
            assert forall|model: spec_fn(Seq<char>) -> u64|
                parses_as(before.parse_number, model) implies {
                &&& scan(src, model).tokens == tokens_view(scanner.tokens@) + (#[trigger] scan_from(
                    src,
                    scanner.current as int,
                    scanner.line as nat,
                    model,
                )).tokens
                &&& scan(src, model).diagnostics == diagnostics_view(scanner.diagnostics@)
                    + scan_from(src, scanner.current as int, scanner.line as nat, model).diagnostics
            } by {
                let rest = scan_from(src, 0, 1, model);
                assert(rest.tokens =~= tokens_view(scanner.tokens@) + rest.tokens);
                assert(rest.diagnostics =~= diagnostics_view(scanner.diagnostics@)
                    + rest.diagnostics);
            }
        }
        proof {
            assert forall|model: spec_fn(Seq<char>) -> u64|
                {
                    &&& all_alike(
                        tokens_view(scanner.tokens@) + (#[trigger] scan_from(
                            src,
                            scanner.current as int,
                            scanner.line as nat,
                            model,
                        )).tokens,
                        scan(src, model).tokens,
                    )
                    &&& diagnostics_view(scanner.diagnostics@) + scan_from(
                        src,
                        scanner.current as int,
                        scanner.line as nat,
                        model,
                    ).diagnostics == scan(src, model).diagnostics
                } by {
                let rest = scan_from(src, 0, 1, model);
                assert(tokens_view(scanner.tokens@) + rest.tokens =~= rest.tokens);
                assert(diagnostics_view(scanner.diagnostics@) + rest.diagnostics
                    =~= rest.diagnostics);
            }
        }
        while !scanner.at_end()
            invariant
                scanner.wf(),
                scanner.same_input(&before),
                src == before.source@,
                forall|model: spec_fn(Seq<char>) -> u64|
                    {
                        &&& all_alike(
                            tokens_view(scanner.tokens@) + (#[trigger] scan_from(
                                src,
                                scanner.current as int,
                                scanner.line as nat,
                                model,
                            )).tokens,
                            scan(src, model).tokens,
                        )
                        &&& diagnostics_view(scanner.diagnostics@) + scan_from(
                            src,
                            scanner.current as int,
                            scanner.line as nat,
                            model,
                        ).diagnostics == scan(src, model).diagnostics
                    },
                forall|model: spec_fn(Seq<char>) -> u64|
                    parses_as(before.parse_number, model) ==> {
                        &&& scan(src, model).tokens == tokens_view(scanner.tokens@)
                            + (#[trigger] scan_from(
                            src,
                            scanner.current as int,
                            scanner.line as nat,
                            model,
                        )).tokens
                        &&& scan(src, model).diagnostics == diagnostics_view(scanner.diagnostics@)
                            + scan_from(
                            src,
                            scanner.current as int,
                            scanner.line as nat,
                            model,
                        ).diagnostics
                    },
            decreases scanner.source.len() - scanner.current,
        {
            scanner.start = scanner.current;
            let ghost entry = scanner;
            scanner.scan_token();
            proof {
                assert forall|model: spec_fn(Seq<char>) -> u64|
                    parses_as(before.parse_number, model) implies {
                    &&& scan(src, model).tokens == tokens_view(scanner.tokens@)
                        + (#[trigger] scan_from(
                        src,
                        scanner.current as int,
                        scanner.line as nat,
                        model,
                    )).tokens
                    &&& scan(src, model).diagnostics == diagnostics_view(scanner.diagnostics@)
                        + scan_from(
                        src,
                        scanner.current as int,
                        scanner.line as nat,
                        model,
                    ).diagnostics
                } by {
                    let step = scan_step(src, entry.current as int, entry.line as nat, model);
                    let here = scan_from(src, entry.current as int, entry.line as nat, model);
                    let rest = scan_from(src, scanner.current as int, scanner.line as nat, model);
                    assert(scanner.took(&entry, step));
                    assert(here.tokens == optional(step.token) + rest.tokens);
                    assert(here.diagnostics == optional(step.diagnostic) + rest.diagnostics);
                    assert(tokens_view(entry.tokens@) + (optional(step.token) + rest.tokens)
                        =~= (tokens_view(entry.tokens@) + optional(step.token)) + rest.tokens);
                    assert(diagnostics_view(entry.diagnostics@) + (optional(step.diagnostic)
                        + rest.diagnostics) =~= (diagnostics_view(entry.diagnostics@) + optional(
                        step.diagnostic,
                    )) + rest.diagnostics);
                }
                assert forall|model: spec_fn(Seq<char>) -> u64|
                    {
                        &&& all_alike(
                            tokens_view(scanner.tokens@) + (#[trigger] scan_from(
                                src,
                                scanner.current as int,
                                scanner.line as nat,
                                model,
                            )).tokens,
                            scan(src, model).tokens,
                        )
                        &&& diagnostics_view(scanner.diagnostics@) + scan_from(
                            src,
                            scanner.current as int,
                            scanner.line as nat,
                            model,
                        ).diagnostics == scan(src, model).diagnostics
                    } by {
                    let step = scan_step(src, entry.current as int, entry.line as nat, model);
                    let here = scan_from(src, entry.current as int, entry.line as nat, model);
                    let rest = scan_from(src, scanner.current as int, scanner.line as nat, model);
                    let read = tokens_view(entry.tokens@) + optional(step.token);
                    assert(scanner.took_alike(&entry, step));
                    assert(here.tokens == optional(step.token) + rest.tokens);
                    assert(here.diagnostics == optional(step.diagnostic) + rest.diagnostics);
                    lemma_alike_with_rest(tokens_view(scanner.tokens@), read, rest.tokens);
                    assert(read + rest.tokens =~= tokens_view(entry.tokens@) + here.tokens);
                    lemma_alike_chain(
                        tokens_view(scanner.tokens@) + rest.tokens,
                        read + rest.tokens,
                        scan(src, model).tokens,
                    );
                    assert(diagnostics_view(entry.diagnostics@) + (optional(step.diagnostic)
                        + rest.diagnostics) =~= (diagnostics_view(entry.diagnostics@) + optional(
                        step.diagnostic,
                    )) + rest.diagnostics);
                }
            }
        }
        let end = Token::new(TokenKind::Eof, String::new(), None, scanner.line);
        let ghost scanned = scanner.tokens@;
        proof {
            lemma_tokens_view_push(scanned, end);
        }
        scanner.tokens.push(end);
        proof {
            assert forall|model: spec_fn(Seq<char>) -> u64|
                parses_as(before.parse_number, model) implies {
                &&& tokens_view(scanner.tokens@) == (#[trigger] scan(src, model)).tokens
                &&& diagnostics_view(scanner.diagnostics@) == scan(src, model).diagnostics
            } by {
                let rest = scan_from(src, scanner.current as int, scanner.line as nat, model);
                assert(rest.tokens == seq![end@]);
                assert(tokens_view(scanned) + rest.tokens =~= tokens_view(scanned).push(end@));
                assert(diagnostics_view(scanner.diagnostics@) + rest.diagnostics
                    =~= diagnostics_view(scanner.diagnostics@));
            }
            assert forall|model: spec_fn(Seq<char>) -> u64|
                {
                    &&& all_alike(
                        tokens_view(scanner.tokens@),
                        (#[trigger] scan(src, model)).tokens,
                    )
                    &&& diagnostics_view(scanner.diagnostics@) == scan(src, model).diagnostics
                } by {
                let rest = scan_from(src, scanner.current as int, scanner.line as nat, model);
                assert(rest.tokens == seq![end@]);
                assert(tokens_view(scanned) + rest.tokens =~= tokens_view(scanner.tokens@));
                assert(diagnostics_view(scanner.diagnostics@) + rest.diagnostics
                    =~= diagnostics_view(scanner.diagnostics@));
            }
        }
        (scanner.tokens, scanner.diagnostics)
    }
}

} // verus!
