//! The errors of a running program.

use super::types::{Type, TypeView};
use super::{Symbol, SymbolView};
use crate::program::UnaryOperator;
use vstd::prelude::*;
use vstd::string::*;

verus! {

/// What can go wrong while a program runs.
#[derive(Debug)]
pub enum RuntimeError {
    /// Two values that do not go together.
    IncompatibleTypes(Type, Type),
    /// A name that nothing defines.
    UndefinedSymbol(String),
    /// A symbol that cannot be called.
    BadCallTarget(Symbol),
    /// A number literal that is no 32-bit integer.
    BadIntegerLiteral(String),
    /// A unary operator before a value that it does not take.
    MismatchedUnaryOperator(UnaryOperator, Type),
    /// A value of another kind than the operator takes.
    InvalidType(Type),
}

/// What an error is.
pub enum ErrorView {
    IncompatibleTypes(TypeView, TypeView),
    UndefinedSymbol(Seq<char>),
    BadCallTarget(SymbolView),
    BadIntegerLiteral(Seq<char>),
    MismatchedUnaryOperator(UnaryOperator, TypeView),
    InvalidType(TypeView),
}

impl View for RuntimeError {
    type V = ErrorView;

    open spec fn view(&self) -> ErrorView {
        match self {
            RuntimeError::IncompatibleTypes(a, b) => ErrorView::IncompatibleTypes(a@, b@),
            RuntimeError::UndefinedSymbol(name) => ErrorView::UndefinedSymbol(name@),
            RuntimeError::BadCallTarget(symbol) => ErrorView::BadCallTarget(symbol@),
            RuntimeError::BadIntegerLiteral(text) => ErrorView::BadIntegerLiteral(text@),
            RuntimeError::MismatchedUnaryOperator(operator, value) => {
                ErrorView::MismatchedUnaryOperator(*operator, value@)
            },
            RuntimeError::InvalidType(value) => ErrorView::InvalidType(value@),
        }
    }
}

} // verus!
