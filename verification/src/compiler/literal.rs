//! Integer literals: decimal text to a 32-bit integer.

use vstd::prelude::*;

verus! {

/// The value of an ASCII decimal digit, and nothing for any other character.
pub open spec fn digit_value(c: char) -> Option<nat> {
    if c == '0' {
        Some(0)
    } else if c == '1' {
        Some(1)
    } else if c == '2' {
        Some(2)
    } else if c == '3' {
        Some(3)
    } else if c == '4' {
        Some(4)
    } else if c == '5' {
        Some(5)
    } else if c == '6' {
        Some(6)
    } else if c == '7' {
        Some(7)
    } else if c == '8' {
        Some(8)
    } else if c == '9' {
        Some(9)
    } else {
        None
    }
}

/// Whether every character is a decimal digit.
pub open spec fn all_digits(digits: Seq<char>) -> bool {
    forall|i: int| 0 <= i < digits.len() ==> digit_value(#[trigger] digits[i]) is Some
}

/// The number that decimal digits write, the first digit being the most
/// significant.
pub open spec fn digits_value(digits: Seq<char>) -> nat
    decreases digits.len(),
{
    if digits.len() == 0 {
        0
    } else {
        digits_value(digits.drop_last()) * 10 + match digit_value(digits.last()) {
            Some(d) => d,
            None => 0,
        }
    }
}

/// The 32-bit integer that `text` writes: an optional `+` or `-`, then one
/// or more decimal digits, and nothing else; the number must fit in 32 bits.
pub open spec fn integer_literal(text: Seq<char>) -> Option<i32> {
    let signed = text.len() > 0 && (text[0] == '-' || text[0] == '+');
    let negative = text.len() > 0 && text[0] == '-';
    let digits = if signed {
        text.drop_first()
    } else {
        text
    };
    let value = if negative {
        -(digits_value(digits) as int)
    } else {
        digits_value(digits) as int
    };
    if digits.len() > 0 && all_digits(digits) && i32::MIN <= value <= i32::MAX {
        Some(value as i32)
    } else {
        None
    }
}

/// More digits never write a smaller number.
pub proof fn lemma_digits_value_grows(digits: Seq<char>, n: int)
    requires
        0 <= n <= digits.len(),
    ensures
        digits_value(digits.take(n)) <= digits_value(digits),
    decreases digits.len() - n,
{
    if n < digits.len() {
        lemma_digits_value_grows(digits, n + 1);
        assert(digits.take(n + 1).drop_last() =~= digits.take(n));
    } else {
        assert(digits.take(n) =~= digits);
    }
}

fn value_of_digit(c: char) -> (d: Option<i64>)
    ensures
        match digit_value(c) {
            Some(v) => d == Some(v as i64),
            None => d is None,
        },
{
    if c == '0' {
        Some(0)
    } else if c == '1' {
        Some(1)
    } else if c == '2' {
        Some(2)
    } else if c == '3' {
        Some(3)
    } else if c == '4' {
        Some(4)
    } else if c == '5' {
        Some(5)
    } else if c == '6' {
        Some(6)
    } else if c == '7' {
        Some(7)
    } else if c == '8' {
        Some(8)
    } else if c == '9' {
        Some(9)
    } else {
        None
    }
}

/// Reads `text` as a 32-bit integer.
pub fn parse_integer(text: &str) -> (value: Option<i32>)
    ensures
        value == integer_literal(text@),
{
    let chars = crate::text::chars_of(text);
    let n: usize = chars.len();
    let signed = n > 0 && (chars[0] == '-' || chars[0] == '+');
    let negative = n > 0 && chars[0] == '-';
    let first: usize = if signed {
        1
    } else {
        0
    };
    if first == n {
        return None;
    }
    let ghost digits = chars@.subrange(first as int, n as int);
    proof {
        if signed {
            assert(digits =~= text@.drop_first());
        } else {
            assert(digits =~= text@);
        }
    }
    let mut total: i64 = 0;
    let mut i: usize = first;
    while i < n
        invariant
            first <= i <= n,
            n == chars.len(),
            digits == chars@.subrange(first as int, n as int),
            chars@ == text@,
            signed == (text@.len() > 0 && (text@[0] == '-' || text@[0] == '+')),
            negative == (text@.len() > 0 && text@[0] == '-'),
            digits == if signed {
                text@.drop_first()
            } else {
                text@
            },
            digits.len() == n - first,
            forall|k: int| 0 <= k < i - first ==> digit_value(#[trigger] digits[k]) is Some,
            total == digits_value(digits.take(i - first)),
            0 <= total <= 0x8000_0000,
        decreases n - i,
    {
        let ghost seen = digits.take(i - first);
        let ghost next = digits.take(i - first + 1);
        proof {
            assert(next.drop_last() =~= seen);
            assert(next.last() == chars@[i as int]);
            lemma_digits_value_grows(digits, i - first + 1);
        }
        match value_of_digit(chars[i]) {
            None => {
                assert(digit_value(digits[i - first]) is None);
                return None;
            },
            Some(d) => {
                total = total * 10 + d;
                assert(total == digits_value(next));
                if total > 0x8000_0000 {
                    assert(digits_value(digits) > 0x8000_0000);
                    return None;
                }
            },
        }
        i += 1;
    }
    proof {
        assert(digits.take(n - first) =~= digits);
    }
    if negative {
        Some((0 - total) as i32)
    } else if total > 0x7fff_ffff {
        None
    } else {
        Some(total as i32)
    }
}

} // verus!
