//! Keys of groups of slices: reading a key as a number, and the order in
//! which groups are listed and processed.

use vstd::prelude::*;
use crate::text::chars_of;

verus! {

/// Whether `c` is a decimal digit.
pub open spec fn is_digit(c: char) -> bool {
    0x30 <= c as u32 <= 0x39
}

/// The value of the decimal digit `c`.
pub open spec fn digit_value(c: char) -> nat {
    (c as u32 - 0x30) as nat
}

/// Whether every character of `s` is a decimal digit.
pub open spec fn all_digits(s: Seq<char>) -> bool {
    forall|i: int| 0 <= i < s.len() ==> is_digit(#[trigger] s[i])
}

/// The number that the decimal digits `s` write.
pub open spec fn digits_value(s: Seq<char>) -> nat
    decreases s.len(),
{
    if s.len() == 0 {
        0
    } else {
        digits_value(s.drop_last()) * 10 + digit_value(s.last())
    }
}

/// Whether `s` begins with a sign.
pub open spec fn has_sign(s: Seq<char>) -> bool {
    s.len() > 0 && (s[0] == '+' || s[0] == '-')
}

/// `s` without its sign.
pub open spec fn unsigned_part(s: Seq<char>) -> Seq<char> {
    if has_sign(s) {
        s.drop_first()
    } else {
        s
    }
}

/// The 32-bit integer that `s` writes: an optional sign, then at least one
/// decimal digit and nothing else, with a value that fits 32 bits.
pub open spec fn integer_of(s: Seq<char>) -> Option<i32> {
    let digits = unsigned_part(s);
    let negative = s.len() > 0 && s[0] == '-';
    let value = digits_value(digits);
    if digits.len() == 0 || !all_digits(digits) {
        None
    } else if negative {
        if value <= 0x8000_0000 {
            Some((-value) as i32)
        } else {
            None
        }
    } else {
        if value < 0x8000_0000 {
            Some(value as i32)
        } else {
            None
        }
    }
}

/// More digits do not write a smaller number.
proof fn lemma_digits_value_grows(s: Seq<char>, shorter: int)
    requires
        0 <= shorter <= s.len(),
    ensures
        digits_value(s.take(shorter)) <= digits_value(s),
    decreases s.len() - shorter,
{
    if shorter < s.len() {
        lemma_digits_value_grows(s.drop_last(), shorter);
        assert(s.drop_last().take(shorter) =~= s.take(shorter));
    } else {
        assert(s.take(shorter) =~= s);
    }
}

/// Reads `text` as a 32-bit integer: an optional sign, then decimal digits
/// only.
pub fn parse_integer(text: &str) -> (r: Option<i32>)
    ensures
        r == integer_of(text@),
{
    let chars = chars_of(text);
    let len = chars.len();
    if len == 0 {
        return None;
    }
    let negative = chars[0] == '-';
    let start: usize = if chars[0] == '+' || chars[0] == '-' {
        1
    } else {
        0
    };
    let ghost digits = unsigned_part(chars@);
    proof {
        assert(digits =~= chars@.subrange(start as int, len as int));
    }
    if start == len {
        return None;
    }
    let mut value: u64 = 0;
    let mut i: usize = start;
    while i < len
        invariant
            start <= i <= len,
            len == chars@.len(),
            chars@ == text@,
            digits == unsigned_part(chars@),
            digits == chars@.subrange(start as int, len as int),
            forall|j: int| 0 <= j < i - start ==> is_digit(#[trigger] digits[j]),
            value == digits_value(digits.take(i - start)),
            value <= 0x8000_0000,
        decreases len - i,
    {
        let c = chars[i];
        let code: u32 = c as u32;
        if code < 0x30 || code > 0x39 {
            proof {
                assert(digits[i - start] == c);
                assert(!is_digit(digits[i - start]));
                assert(!all_digits(digits));
            }
            return None;
        }
        let next = value * 10 + (code - 0x30) as u64;
        proof {
            assert(digits[i - start] == c);
            assert(digits.take(i - start + 1).drop_last() =~= digits.take(i - start));
            assert(digits.take(i - start + 1).last() == c);
            assert(next == digits_value(digits.take(i - start + 1)));
        }
        if next > 0x8000_0000 {
            proof {
                lemma_digits_value_grows(digits, i - start + 1);
            }
            return None;
        }
        value = next;
        i = i + 1;
    }
    proof {
        assert(digits.take(len - start) =~= digits);
        assert(all_digits(digits));
    }
    if negative {
        if value == 0x8000_0000 {
            Some(i32::MIN)
        } else {
            Some(-(value as i32))
        }
    } else {
        if value < 0x8000_0000 {
            Some(value as i32)
        } else {
            None
        }
    }
}

/// The number by which an entry is ordered: the integer that its key writes,
/// or 0 where the key writes none.
pub fn numeric_key(key: &str) -> (n: i32)
    ensures
        n == match integer_of(key@) {
            Some(value) => value,
            None => 0i32,
        },
{
    match parse_integer(key) {
        Some(value) => value,
        None => 0,
    }
}

/// How one key stands to another in a listing.
#[derive(Debug, Clone, Copy, PartialEq, Eq, Structural)]
pub enum Precedence {
    /// It comes first.
    Before,
    /// Neither comes first.
    Same,
    /// It comes second.
    After,
}

/// How `a` stands to `b` character by character: at the first place where
/// they differ the smaller character comes first, and a text comes before
/// every longer text that begins with it.
pub open spec fn text_order(a: Seq<char>, b: Seq<char>) -> Precedence
    decreases a.len(),
{
    if a.len() == 0 && b.len() == 0 {
        Precedence::Same
    } else if a.len() == 0 {
        Precedence::Before
    } else if b.len() == 0 {
        Precedence::After
    } else if (a[0] as u32) < (b[0] as u32) {
        Precedence::Before
    } else if (a[0] as u32) > (b[0] as u32) {
        Precedence::After
    } else {
        text_order(a.drop_first(), b.drop_first())
    }
}

/// How the integer `a` stands to the integer `b`.
pub open spec fn integer_order(a: int, b: int) -> Precedence {
    if a < b {
        Precedence::Before
    } else if a > b {
        Precedence::After
    } else {
        Precedence::Same
    }
}

/// How the key `a` stands to the key `b`: by their numbers where both write
/// an integer, else character by character.
pub open spec fn key_order(a: Seq<char>, b: Seq<char>) -> Precedence {
    match (integer_of(a), integer_of(b)) {
        (Some(x), Some(y)) => integer_order(x as int, y as int),
        _ => text_order(a, b),
    }
}

/// How `a` stands to `b` character by character.
pub fn order_texts(a: &str, b: &str) -> (r: Precedence)
    ensures
        r == text_order(a@, b@),
{
    let left = chars_of(a);
    let right = chars_of(b);
    let mut i: usize = 0;
    proof {
        assert(left@.subrange(0, left@.len() as int) =~= left@);
        assert(right@.subrange(0, right@.len() as int) =~= right@);
    }
    while i < left.len() && i < right.len()
        invariant
            i <= left@.len(),
            i <= right@.len(),
            left@ == a@,
            right@ == b@,
            text_order(a@, b@) == text_order(
                left@.subrange(i as int, left@.len() as int),
                right@.subrange(i as int, right@.len() as int),
            ),
        decreases left@.len() - i,
    {
        let ghost rest_a = left@.subrange(i as int, left@.len() as int);
        let ghost rest_b = right@.subrange(i as int, right@.len() as int);
        proof {
            assert(rest_a[0] == left@[i as int]);
            assert(rest_b[0] == right@[i as int]);
            assert(rest_a.drop_first() =~= left@.subrange(i + 1, left@.len() as int));
            assert(rest_b.drop_first() =~= right@.subrange(i + 1, right@.len() as int));
        }
        let x: u32 = left[i] as u32;
        let y: u32 = right[i] as u32;
        if x < y {
            return Precedence::Before;
        }
        if x > y {
            return Precedence::After;
        }
        i = i + 1;
    }
    if i < right.len() {
        Precedence::Before
    } else if i < left.len() {
        Precedence::After
    } else {
        Precedence::Same
    }
}

/// How the key `a` stands to the key `b` when groups are listed: by their
/// numbers where both keys write an integer, else character by character.
pub fn order_keys(a: &str, b: &str) -> (r: Precedence)
    ensures
        r == key_order(a@, b@),
{
    match (parse_integer(a), parse_integer(b)) {
        (Some(x), Some(y)) => {
            if x < y {
                Precedence::Before
            } else if x > y {
                Precedence::After
            } else {
                Precedence::Same
            }
        },
        _ => order_texts(a, b),
    }
}

/// How the entry with key `a` stands to the entry with key `b` when entries
/// are listed by number: by `numeric_key`.
pub fn order_by_number(a: &str, b: &str) -> (r: Precedence)
    ensures
        r == integer_order(
            match integer_of(a@) {
                Some(value) => value as int,
                None => 0,
            },
            match integer_of(b@) {
                Some(value) => value as int,
                None => 0,
            },
        ),
{
    let x = numeric_key(a);
    let y = numeric_key(b);
    if x < y {
        Precedence::Before
    } else if x > y {
        Precedence::After
    } else {
        Precedence::Same
    }
}

} // verus!
