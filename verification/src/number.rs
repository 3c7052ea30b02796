//! Numbers in their IEEE 754 binary64 encoding.
//!
//! A number is kept as the 64 bits of its encoding: one sign bit, eleven
//! exponent bits, fifty-two fraction bits. Sign, order and equality are read
//! straight from the encoding. Rounded arithmetic and the conversion from and
//! to decimal text are supplied by the caller.

use vstd::prelude::*;

verus! {

/// The sign bit of the encoding.
pub const SIGN_BIT: u64 = 0x8000_0000_0000_0000;

/// The encoding of positive infinity: every exponent bit set, no fraction bit.
pub const INFINITY_BITS: u64 = 0x7ff0_0000_0000_0000;

/// The encoding without its sign bit.
pub open spec fn magnitude(bits: u64) -> int {
    if bits >= SIGN_BIT {
        bits - SIGN_BIT
    } else {
        bits as int
    }
}

/// Whether the sign bit is set.
pub open spec fn is_negative(bits: u64) -> bool {
    bits >= SIGN_BIT
}

/// Whether the encoding is a NaN: all exponent bits set and some fraction bit.
pub open spec fn is_nan(bits: u64) -> bool {
    magnitude(bits) > INFINITY_BITS
}

/// The place of a value that is no NaN on the number line: encodings of one
/// sign are ordered as their magnitudes are, and the two zeros coincide.
pub open spec fn rank(bits: u64) -> int {
    if is_negative(bits) {
        -magnitude(bits)
    } else {
        magnitude(bits)
    }
}

/// Numeric equality: a NaN equals nothing, itself included, and the two zeros
/// are equal.
pub open spec fn equal(a: u64, b: u64) -> bool {
    !is_nan(a) && !is_nan(b) && rank(a) == rank(b)
}

/// Numeric `<`: false as soon as one side is a NaN.
pub open spec fn less(a: u64, b: u64) -> bool {
    !is_nan(a) && !is_nan(b) && rank(a) < rank(b)
}

/// Numeric `<=`: false as soon as one side is a NaN.
pub open spec fn less_or_equal(a: u64, b: u64) -> bool {
    !is_nan(a) && !is_nan(b) && rank(a) <= rank(b)
}

/// The encoding with its sign bit flipped.
pub open spec fn negated(bits: u64) -> u64 {
    if bits >= SIGN_BIT {
        (bits - SIGN_BIT) as u64
    } else {
        (bits + SIGN_BIT) as u64
    }
}

/// The four operations whose result has to be rounded.
#[derive(Clone, Copy, Debug, PartialEq, Eq, Structural)]
pub enum Arithmetic {
    Add,
    Subtract,
    Multiply,
    Divide,
}

/// A function from decimal text to encodings that `parse` follows: whatever
/// `parse` returns for a text is what `model` gives for it.
pub open spec fn parses_as<P: Fn(&str) -> u64>(parse: P, model: spec_fn(Seq<char>) -> u64) -> bool {
    forall|text: &str, bits: u64| #[trigger]
        call_ensures(parse, (text,), bits) ==> bits == model(text@)
}

/// A function on encodings that `arithmetic` follows.
pub open spec fn computes_as<A: Fn(Arithmetic, u64, u64) -> u64>(
    arithmetic: A,
    model: spec_fn(Arithmetic, u64, u64) -> u64,
) -> bool {
    forall|op: Arithmetic, a: u64, b: u64, bits: u64| #[trigger]
        call_ensures(arithmetic, (op, a, b), bits) ==> bits == model(op, a, b)
}

/// A function from encodings to decimal text that `format` follows.
pub open spec fn formats_as<F: Fn(u64) -> String>(format: F, model: spec_fn(u64) -> Seq<char>) -> bool {
    forall|bits: u64, text: String| #[trigger]
        call_ensures(format, (bits,), text) ==> text@ == model(bits)
}

/// A 64-bit floating point number, held as its encoding.
#[derive(Clone, Copy, Debug)]
pub struct Number {
    pub bits: u64,
}

impl Number {
    /// The number with the given encoding.
    pub fn from_bits(bits: u64) -> (n: Number)
        ensures
            n.bits == bits,
    {
        Number { bits }
    }

    /// The encoding of the number.
    pub fn to_bits(&self) -> (bits: u64)
        ensures
            bits == self.bits,
    {
        self.bits
    }

    fn magnitude(&self) -> (m: u64)
        ensures
            m == magnitude(self.bits),
    {
        if self.bits >= SIGN_BIT {
            self.bits - SIGN_BIT
        } else {
            self.bits
        }
    }

    /// Whether the number is a NaN.
    pub fn is_nan(&self) -> (r: bool)
        ensures
            r == is_nan(self.bits),
    {
        self.magnitude() > INFINITY_BITS
    }

    /// Whether the sign bit is set.
    pub fn is_negative(&self) -> (r: bool)
        ensures
            r == is_negative(self.bits),
    {
        self.bits >= SIGN_BIT
    }

    /// The number with the opposite sign. Negating twice gives the number back.
    pub fn negate(&self) -> (n: Number)
        ensures
            n.bits == negated(self.bits),
            negated(n.bits) == self.bits,
            magnitude(n.bits) == magnitude(self.bits),
            is_negative(n.bits) != is_negative(self.bits),
    {
        if self.bits >= SIGN_BIT {
            Number { bits: self.bits - SIGN_BIT }
        } else {
            Number { bits: self.bits + SIGN_BIT }
        }
    }

    /// Numeric `<`.
    pub fn less_than(&self, other: &Number) -> (r: bool)
        ensures
            r == less(self.bits, other.bits),
    {
        if self.is_nan() || other.is_nan() {
            return false;
        }
        let a: u64 = self.magnitude();
        let b: u64 = other.magnitude();
        if self.is_negative() {
            if other.is_negative() {
                b < a
            } else {
                a > 0 || b > 0
            }
        } else {
            if other.is_negative() {
                false
            } else {
                a < b
            }
        }
    }

    /// Numeric `<=`.
    pub fn less_or_equal(&self, other: &Number) -> (r: bool)
        ensures
            r == less_or_equal(self.bits, other.bits),
    {
        if self.is_nan() || other.is_nan() {
            return false;
        }
        let a: u64 = self.magnitude();
        let b: u64 = other.magnitude();
        if self.is_negative() {
            if other.is_negative() {
                b <= a
            } else {
                true
            }
        } else {
            if other.is_negative() {
                a == 0 && b == 0
            } else {
                a <= b
            }
        }
    }

    /// Numeric `>`.
    pub fn greater_than(&self, other: &Number) -> (r: bool)
        ensures
            r == less(other.bits, self.bits),
    {
        other.less_than(self)
    }

    /// Numeric `>=`.
    pub fn greater_or_equal(&self, other: &Number) -> (r: bool)
        ensures
            r == less_or_equal(other.bits, self.bits),
    {
        other.less_or_equal(self)
    }
}

impl PartialEq for Number {
    /// Numeric `==`.
    fn eq(&self, other: &Number) -> (r: bool) {
        if self.is_nan() || other.is_nan() {
            return false;
        }
        let a: u64 = self.magnitude();
        let b: u64 = other.magnitude();
        if self.is_negative() == other.is_negative() {
            a == b
        } else {
            a == 0 && b == 0
        }
    }
}

impl vstd::std_specs::cmp::PartialEqSpecImpl for Number {
    open spec fn obeys_eq_spec() -> bool {
        true
    }

    open spec fn eq_spec(&self, other: &Number) -> bool {
        equal(self.bits, other.bits)
    }
}

/// Between two numbers of which neither is a NaN, exactly one of `<`, `==`
/// and `>` holds; with a NaN on either side none of them does.
pub proof fn lemma_order_is_total_without_nan(a: u64, b: u64)
    ensures
        !is_nan(a) && !is_nan(b) ==> (less(a, b) || equal(a, b) || less(b, a)),
        !(less(a, b) && equal(a, b)),
        !(less(a, b) && less(b, a)),
        is_nan(a) || is_nan(b) ==> !less(a, b) && !equal(a, b) && !less(b, a),
        less_or_equal(a, b) == (less(a, b) || equal(a, b)),
{
}

} // verus!
