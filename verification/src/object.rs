//! Runtime values.
//!
//! A value is a number, a string or a boolean. `nil` is the absence of a
//! value: wherever a value may be `nil` the type is `Option<Object>`.

use crate::number::{equal, formats_as, Number};
use vstd::prelude::*;
use vstd::string::*;

verus! {

/// A runtime value other than `nil`.
#[derive(Debug)]
pub enum Object {
    Number(Number),
    String(String),
    Boolean(bool),
}

/// What a value is: the encoding of a number, the characters of a string, or
/// a boolean.
pub enum ObjectView {
    Number(u64),
    String(Seq<char>),
    Boolean(bool),
}

impl View for Object {
    type V = ObjectView;

    open spec fn view(&self) -> ObjectView {
        match self {
            Object::Number(n) => ObjectView::Number(n.bits),
            Object::String(s) => ObjectView::String(s@),
            Object::Boolean(b) => ObjectView::Boolean(*b),
        }
    }
}

/// What a value that may be `nil` is.
pub open spec fn value_view(value: Option<Object>) -> Option<ObjectView> {
    match value {
        None => None,
        Some(object) => Some(object@),
    }
}

/// Equality of two values: values of different kinds are never equal; two
/// numbers are equal as numbers, two strings when they hold the same
/// characters, two booleans when they are the same.
pub open spec fn objects_equal(a: ObjectView, b: ObjectView) -> bool {
    match (a, b) {
        (ObjectView::Number(x), ObjectView::Number(y)) => equal(x, y),
        (ObjectView::String(s), ObjectView::String(t)) => s == t,
        (ObjectView::Boolean(p), ObjectView::Boolean(q)) => p == q,
        _ => false,
    }
}

/// Equality of two values that may be `nil`: `nil` equals `nil` and nothing
/// else.
pub open spec fn values_equal(a: Option<ObjectView>, b: Option<ObjectView>) -> bool {
    match (a, b) {
        (None, None) => true,
        (Some(x), Some(y)) => objects_equal(x, y),
        _ => false,
    }
}

/// Truthiness: `nil` and `false` are falsy, every other value is truthy.
pub open spec fn truthy(value: Option<ObjectView>) -> bool {
    match value {
        None => false,
        Some(ObjectView::Boolean(b)) => b,
        Some(_) => true,
    }
}

/// The text of a value: the decimal form of a number as `number_text` gives
/// it, the characters of a string, `true` or `false` for a boolean.
pub open spec fn object_text(object: ObjectView, number_text: spec_fn(u64) -> Seq<char>) -> Seq<
    char,
> {
    match object {
        ObjectView::Number(bits) => number_text(bits),
        ObjectView::String(s) => s,
        ObjectView::Boolean(b) => if b {
            "true"@
        } else {
            "false"@
        },
    }
}

/// The text of a value that may be `nil`, which is written `nil`.
pub open spec fn value_text(value: Option<ObjectView>, number_text: spec_fn(u64) -> Seq<char>) -> Seq<
    char,
> {
    match value {
        None => "nil"@,
        Some(object) => object_text(object, number_text),
    }
}

/// Whether two values are of the same kind: both numbers, both strings or
/// both booleans.
pub open spec fn same_kind(a: ObjectView, b: ObjectView) -> bool {
    (a is Number && b is Number) || (a is String && b is String) || (a is Boolean && b
        is Boolean)
}

/// Equality is strict about kinds: values of different kinds are never
/// equal, and `nil` equals `nil` and no value.
pub proof fn lemma_equality_is_type_strict(a: Option<ObjectView>, b: Option<ObjectView>)
    ensures
        a is None && b is None ==> values_equal(a, b),
        a is None != b is None ==> !values_equal(a, b),
        a is Some && b is Some && !same_kind(a->0, b->0) ==> !values_equal(a, b),
        values_equal(a, b) == values_equal(b, a),
{
}

/// Exactly `nil` and `false` are falsy: every number, zero too, every
/// string, the empty one too, and `true` are truthy.
pub proof fn lemma_falsy_values(value: Option<ObjectView>)
    ensures
        !truthy(value) <==> (value is None || value == Some(ObjectView::Boolean(false))),
{
}

impl Object {
    /// Returns `true` if the object is a number.
    pub fn is_number(&self) -> (r: bool)
        ensures
            r == (self@ is Number),
    {
        match self {
            Object::Number(_) => true,
            _ => false,
        }
    }

    /// The text of the value. A number is written by `format_number`.
    pub fn to_text<F: Fn(u64) -> String>(&self, format_number: &F) -> (text: String)
        requires
            forall|bits: u64| call_requires(*format_number, (bits,)),
        ensures
            forall|model: spec_fn(u64) -> Seq<char>|
                formats_as(*format_number, model) ==> text@ == #[trigger] object_text(
                    self@,
                    model,
                ),
            self@ is String ==> text@ == self@->String_0,
            self@ matches ObjectView::Boolean(b) ==> text@ == (if b {
                "true"@
            } else {
                "false"@
            }),
    {
        match self {
            Object::Number(n) => format_number(n.bits),
            Object::String(s) => s.clone(),
            Object::Boolean(b) => if *b {
                String::from_str("true")
            } else {
                String::from_str("false")
            },
        }
    }
}

impl Clone for Object {
    fn clone(&self) -> (copy: Object)
        ensures
            copy == *self,
    {
        match self {
            Object::Number(n) => Object::Number(Number { bits: n.bits }),
            Object::String(s) => Object::String(s.clone()),
            Object::Boolean(b) => Object::Boolean(*b),
        }
    }
}

impl PartialEq for Object {
    fn eq(&self, other: &Object) -> (r: bool) {
        match self {
            Object::Number(n) => match other {
                Object::Number(m) => n.eq(m),
                _ => false,
            },
            Object::String(s) => match other {
                Object::String(t) => s.eq(t),
                _ => false,
            },
            Object::Boolean(b) => match other {
                Object::Boolean(c) => *b == *c,
                _ => false,
            },
        }
    }
}

impl vstd::std_specs::cmp::PartialEqSpecImpl for Object {
    open spec fn obeys_eq_spec() -> bool {
        true
    }

    open spec fn eq_spec(&self, other: &Object) -> bool {
        objects_equal(self@, other@)
    }
}

/// Something that counts as true or as false where a condition is asked for.
pub trait IsTruthy {
    /// Whether the value counts as true.
    spec fn truthy(&self) -> bool;

    /// Whether the value counts as true.
    fn is_truthy(&self) -> (r: bool)
        ensures
            r == self.truthy(),
    ;
}

impl IsTruthy for Option<Object> {
    open spec fn truthy(&self) -> bool {
        truthy(value_view(*self))
    }

    fn is_truthy(&self) -> (r: bool) {
        match self {
            None => false,
            Some(Object::Boolean(b)) => *b,
            Some(_) => true,
        }
    }
}

/// Whether two values that may be `nil` are equal.
pub fn values_are_equal(a: &Option<Object>, b: &Option<Object>) -> (r: bool)
    ensures
        r == values_equal(value_view(*a), value_view(*b)),
{
    match a {
        None => b.is_none(),
        Some(x) => match b {
            None => false,
            Some(y) => x == y,
        },
    }
}

/// A copy of a value that may be `nil`.
pub fn copy_value(value: &Option<Object>) -> (copy: Option<Object>)
    ensures
        copy == *value,
{
    match value {
        None => None,
        Some(object) => Some(object.clone()),
    }
}

} // verus!
