//! The error of an evaluation.

use crate::token::{Token, TokenView};
use vstd::prelude::*;
use vstd::string::*;

verus! {

/// An operator was applied to a value of the wrong kind. The error carries
/// the operator's token, for its line and lexeme, and a message.
#[derive(Debug)]
pub struct RuntimeError {
    token: Token,
    message: String,
}

/// What a runtime error is.
pub struct RuntimeErrorView {
    pub token: TokenView,
    pub message: Seq<char>,
}

impl View for RuntimeError {
    type V = RuntimeErrorView;

    closed spec fn view(&self) -> RuntimeErrorView {
        RuntimeErrorView { token: self.token@, message: self.message@ }
    }
}

impl RuntimeError {
    /// The error raised at `token` with the given message.
    pub fn new(token: Token, message: String) -> (error: RuntimeError)
        ensures
            error@ == (RuntimeErrorView { token: token@, message: message@ }),
    {
        RuntimeError { token, message }
    }

    /// The message of the error.
    pub fn message(&self) -> (message: &str)
        ensures
            message@ == self@.message,
    {
        self.message.as_str()
    }

    /// The token of the operator that raised the error.
    pub fn token(&self) -> (token: &Token)
        ensures
            token@ == self@.token,
    {
        &self.token
    }

    /// The text of the error: its message.
    pub fn to_text(&self) -> (text: String)
        ensures
            text@ == self@.message,
    {
        self.message.clone()
    }
}

} // verus!
