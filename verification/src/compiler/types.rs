//! The values of a running program.

use vstd::prelude::*;
use vstd::string::*;

verus! {

/// A value: an integer, a string, a boolean or nil.
#[derive(Debug)]
pub enum Type {
    Integer(i32),
    String(String),
    Boolean(bool),
    Nil,
}

/// What a value is.
pub enum TypeView {
    Integer(i32),
    String(Seq<char>),
    Boolean(bool),
    Nil,
}

impl View for Type {
    type V = TypeView;

    open spec fn view(&self) -> TypeView {
        match self {
            Type::Integer(i) => TypeView::Integer(*i),
            Type::String(s) => TypeView::String(s@),
            Type::Boolean(b) => TypeView::Boolean(*b),
            Type::Nil => TypeView::Nil,
        }
    }
}

impl Clone for Type {
    fn clone(&self) -> (copy: Type)
        ensures
            copy == *self,
    {
        match self {
            Type::Integer(i) => Type::Integer(*i),
            Type::String(s) => Type::String(s.clone()),
            Type::Boolean(b) => Type::Boolean(*b),
            Type::Nil => Type::Nil,
        }
    }
}

impl PartialEq for Type {
    /// Values of different kinds are never equal.
    fn eq(&self, other: &Type) -> (r: bool) {
        match self {
            Type::Integer(i) => match other {
                Type::Integer(j) => *i == *j,
                _ => false,
            },
            Type::String(s) => match other {
                Type::String(t) => s.eq(t),
                _ => false,
            },
            Type::Boolean(b) => match other {
                Type::Boolean(c) => *b == *c,
                _ => false,
            },
            Type::Nil => match other {
                Type::Nil => true,
                _ => false,
            },
        }
    }
}

impl vstd::std_specs::cmp::PartialEqSpecImpl for Type {
    open spec fn obeys_eq_spec() -> bool {
        true
    }

    open spec fn eq_spec(&self, other: &Type) -> bool {
        self@ == other@
    }
}

} // verus!
