//! Tokens: what the scanner makes of the source text.

use crate::number::formats_as;
use crate::object::{copy_value, value_view, Object, ObjectView};
use vstd::prelude::*;
use vstd::string::*;

verus! {

/// The kinds of token.
#[derive(Clone, Copy, Debug, PartialEq, Eq, Structural)]
pub enum TokenKind {
    // Single-character tokens.
    LeftParen,
    RightParen,
    LeftBrace,
    RightBrace,
    Comma,
    Dot,
    Minus,
    Plus,
    Semicolon,
    Slash,
    Star,
    // One or two character tokens.
    Bang,
    BangEqual,
    Equal,
    EqualEqual,
    Greater,
    GreaterEqual,
    Less,
    LessEqual,
    // Literals.
    Identifier,
    String,
    Number,
    // Keywords.
    And,
    Class,
    Else,
    False,
    Fun,
    For,
    If,
    Nil,
    Or,
    Print,
    Return,
    Super,
    This,
    True,
    Var,
    While,
    // End of input.
    Eof,
}

/// One lexeme of the source: its kind, its text, the value it denotes if it
/// is a literal, and the line it ends on.
#[derive(Debug)]
pub struct Token {
    pub kind: TokenKind,
    pub lexeme: String,
    pub literal: Option<Object>,
    pub line: usize,
}

/// What a token is.
pub struct TokenView {
    pub kind: TokenKind,
    pub lexeme: Seq<char>,
    pub literal: Option<ObjectView>,
    pub line: nat,
}

impl View for Token {
    type V = TokenView;

    open spec fn view(&self) -> TokenView {
        TokenView {
            kind: self.kind,
            lexeme: self.lexeme@,
            literal: value_view(self.literal),
            line: self.line as nat,
        }
    }
}

/// What a sequence of tokens is.
pub open spec fn tokens_view(tokens: Seq<Token>) -> Seq<TokenView> {
    tokens.map_values(|t: Token| t@)
}

/// A sequence of tokens with one more token at its end.
pub proof fn lemma_tokens_view_push(tokens: Seq<Token>, token: Token)
    ensures
        tokens_view(tokens.push(token)) == tokens_view(tokens).push(token@),
{
    assert(tokens_view(tokens.push(token)) =~= tokens_view(tokens).push(token@));
}

/// The name of a kind of token, as it is written in this source.
pub open spec fn kind_name(kind: TokenKind) -> Seq<char> {
    match kind {
        TokenKind::LeftParen => "LeftParen"@,
        TokenKind::RightParen => "RightParen"@,
        TokenKind::LeftBrace => "LeftBrace"@,
        TokenKind::RightBrace => "RightBrace"@,
        TokenKind::Comma => "Comma"@,
        TokenKind::Dot => "Dot"@,
        TokenKind::Minus => "Minus"@,
        TokenKind::Plus => "Plus"@,
        TokenKind::Semicolon => "Semicolon"@,
        TokenKind::Slash => "Slash"@,
        TokenKind::Star => "Star"@,
        TokenKind::Bang => "Bang"@,
        TokenKind::BangEqual => "BangEqual"@,
        TokenKind::Equal => "Equal"@,
        TokenKind::EqualEqual => "EqualEqual"@,
        TokenKind::Greater => "Greater"@,
        TokenKind::GreaterEqual => "GreaterEqual"@,
        TokenKind::Less => "Less"@,
        TokenKind::LessEqual => "LessEqual"@,
        TokenKind::Identifier => "Identifier"@,
        TokenKind::String => "String"@,
        TokenKind::Number => "Number"@,
        TokenKind::And => "And"@,
        TokenKind::Class => "Class"@,
        TokenKind::Else => "Else"@,
        TokenKind::False => "False"@,
        TokenKind::Fun => "Fun"@,
        TokenKind::For => "For"@,
        TokenKind::If => "If"@,
        TokenKind::Nil => "Nil"@,
        TokenKind::Or => "Or"@,
        TokenKind::Print => "Print"@,
        TokenKind::Return => "Return"@,
        TokenKind::Super => "Super"@,
        TokenKind::This => "This"@,
        TokenKind::True => "True"@,
        TokenKind::Var => "Var"@,
        TokenKind::While => "While"@,
        TokenKind::Eof => "Eof"@,
    }
}

/// The text that describes a token: the name of its kind, its lexeme and its
/// literal, with one space between them; nothing stands for a missing literal.
pub open spec fn token_text(token: TokenView, number_text: spec_fn(u64) -> Seq<char>) -> Seq<
    char,
> {
    kind_name(token.kind) + seq![' '] + token.lexeme + seq![' '] + match token.literal {
        None => Seq::<char>::empty(),
        Some(object) => crate::object::object_text(object, number_text),
    }
}

impl TokenKind {
    /// The name of the kind.
    pub fn name(&self) -> (name: &'static str)
        ensures
            name@ == kind_name(*self),
    {
        match self {
            TokenKind::LeftParen => "LeftParen",
            TokenKind::RightParen => "RightParen",
            TokenKind::LeftBrace => "LeftBrace",
            TokenKind::RightBrace => "RightBrace",
            TokenKind::Comma => "Comma",
            TokenKind::Dot => "Dot",
            TokenKind::Minus => "Minus",
            TokenKind::Plus => "Plus",
            TokenKind::Semicolon => "Semicolon",
            TokenKind::Slash => "Slash",
            TokenKind::Star => "Star",
            TokenKind::Bang => "Bang",
            TokenKind::BangEqual => "BangEqual",
            TokenKind::Equal => "Equal",
            TokenKind::EqualEqual => "EqualEqual",
            TokenKind::Greater => "Greater",
            TokenKind::GreaterEqual => "GreaterEqual",
            TokenKind::Less => "Less",
            TokenKind::LessEqual => "LessEqual",
            TokenKind::Identifier => "Identifier",
            TokenKind::String => "String",
            TokenKind::Number => "Number",
            TokenKind::And => "And",
            TokenKind::Class => "Class",
            TokenKind::Else => "Else",
            TokenKind::False => "False",
            TokenKind::Fun => "Fun",
            TokenKind::For => "For",
            TokenKind::If => "If",
            TokenKind::Nil => "Nil",
            TokenKind::Or => "Or",
            TokenKind::Print => "Print",
            TokenKind::Return => "Return",
            TokenKind::Super => "Super",
            TokenKind::This => "This",
            TokenKind::True => "True",
            TokenKind::Var => "Var",
            TokenKind::While => "While",
            TokenKind::Eof => "Eof",
        }
    }
}

impl Token {
    /// A token of the given kind, text, literal value and line.
    pub fn new(kind: TokenKind, lexeme: String, literal: Option<Object>, line: usize) -> (token:
        Token)
        ensures
            token.kind == kind,
            token.lexeme == lexeme,
            token.literal == literal,
            token.line == line,
    {
        Token { kind, lexeme, literal, line }
    }

    /// The text that describes the token. A number is written by
    /// `format_number`.
    pub fn to_text<F: Fn(u64) -> String>(&self, format_number: &F) -> (text: String)
        requires
            forall|bits: u64| call_requires(*format_number, (bits,)),
        ensures
            forall|model: spec_fn(u64) -> Seq<char>|
                formats_as(*format_number, model) ==> text@ == #[trigger] token_text(self@, model),
    {
        let mut text = String::from_str(self.kind.name());
        text.push(' ');
        text.append(self.lexeme.as_str());
        text.push(' ');
        match &self.literal {
            None => {},
            Some(object) => {
                let literal = object.to_text(format_number);
                text.append(literal.as_str());
            },
        }
        proof {
            assert forall|model: spec_fn(u64) -> Seq<char>|
                formats_as(*format_number, model) implies text@ == #[trigger] token_text(
                self@,
                model,
            ) by {
                match self.literal {
                    None => {
                        assert(text@ =~= token_text(self@, model));
                    },
                    Some(object) => {
                        assert(text@ =~= token_text(self@, model));
                    },
                }
            }
        }
        text
    }
}

impl Clone for Token {
    fn clone(&self) -> (copy: Token)
        ensures
            copy == *self,
    {
        Token {
            kind: self.kind,
            lexeme: self.lexeme.clone(),
            literal: copy_value(&self.literal),
            line: self.line,
        }
    }
}

} // verus!
