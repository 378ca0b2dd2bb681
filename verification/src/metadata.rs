//! Numbers in slice metadata.
//!
//! An attribute with several values holds them in one text, separated by
//! backslashes: two for the spacing of the pixels (between rows, then between
//! columns), three for the position of a slice in space. A value that cannot
//! be read is passed over, so that the values that can be read move up. How a
//! number is read from its text is the caller's part.

use vstd::prelude::*;
use crate::filename::{trim_range, trimmed};
use crate::ops::accepts_all2;
use crate::text::{chars_of, text_of};

verus! {

/// The character between two values of an attribute.
pub const FIELD_SEPARATOR: char = '\\';

/// Number of characters of `s` before its first separator, or all of them.
pub open spec fn first_field_len(s: Seq<char>) -> int
    decreases s.len(),
{
    if s.len() == 0 || s[0] == FIELD_SEPARATOR {
        0
    } else {
        1 + first_field_len(s.drop_first())
    }
}

/// The fields of `s`: the texts between its separators. A text without a
/// separator is one field, also where it is empty.
pub open spec fn split_fields(s: Seq<char>) -> Seq<Seq<char>>
    decreases s.len(),
{
    let n = first_field_len(s);
    if 0 <= n < s.len() {
        seq![s.subrange(0, n)] + split_fields(s.subrange(n + 1, s.len() as int))
    } else {
        seq![s]
    }
}

/// `parse` accepts every text, and texts with the same characters give the
/// same result.
pub open spec fn reads_text<T, P: Fn(String) -> Option<T>>(parse: P) -> bool {
    &&& forall|s: String| #[trigger] call_requires(parse, (s,))
    &&& forall|s1: String, s2: String, r1: Option<T>, r2: Option<T>|
        s1@ == s2@ && #[trigger] call_ensures(parse, (s1,), r1) && #[trigger] call_ensures(
            parse,
            (s2,),
            r2,
        ) ==> r1 == r2
}

/// Whether `parse` can return `r` on a text with the characters `text`.
pub open spec fn reads_as<T, P: Fn(String) -> Option<T>>(
    parse: P,
    text: Seq<char>,
    r: Option<T>,
) -> bool {
    exists|s: String| s@ == text && #[trigger] call_ensures(parse, (s,), r)
}

/// What `parse` reads from a text with the characters `text`.
pub open spec fn read_of<T, P: Fn(String) -> Option<T>>(parse: P, text: Seq<char>) -> Option<T> {
    choose|r: Option<T>| #[trigger] reads_as(parse, text, r)
}

/// The values that `parse` reads from `fields`, each field taken without the
/// white space at its ends, in their order; a field from which nothing is
/// read leaves no trace.
pub open spec fn values_read<T, P: Fn(String) -> Option<T>>(fields: Seq<Seq<char>>, parse: P) -> Seq<
    T,
>
    decreases fields.len(),
{
    if fields.len() == 0 {
        Seq::empty()
    } else {
        let before = values_read(fields.drop_last(), parse);
        match read_of(parse, trimmed(fields.last())) {
            Some(value) => before.push(value),
            None => before,
        }
    }
}

/// If no separator stands among the first `n` characters of `s`, and `s` ends
/// there or a separator follows, the first field has `n` characters.
proof fn lemma_first_field_len(s: Seq<char>, n: int)
    requires
        0 <= n <= s.len(),
        forall|i: int| 0 <= i < n ==> #[trigger] s[i] != FIELD_SEPARATOR,
        n == s.len() || s[n] == FIELD_SEPARATOR,
    ensures
        first_field_len(s) == n,
    decreases n,
{
    if n > 0 {
        assert(s[0] != FIELD_SEPARATOR);
        let rest = s.drop_first();
        assert forall|i: int| 0 <= i < n - 1 implies #[trigger] rest[i] != FIELD_SEPARATOR by {
            assert(rest[i] == s[i + 1]);
        }
        lemma_first_field_len(rest, n - 1);
    }
}

/// Reading one more field appends what is read from it.
proof fn lemma_values_read_push<T, P: Fn(String) -> Option<T>>(
    fields: Seq<Seq<char>>,
    field: Seq<char>,
    parse: P,
)
    ensures
        values_read(fields.push(field), parse) == match read_of(parse, trimmed(field)) {
            Some(value) => values_read(fields, parse).push(value),
            None => values_read(fields, parse),
        },
{
    assert(fields.push(field).drop_last() =~= fields);
}

/// The numbers of an attribute: `text` is split at its separators, every
/// field is stripped of the white space at its ends and handed to `parse`, and
/// the values that `parse` reads are returned in their order.
pub fn parse_fields<T, P: Fn(String) -> Option<T>>(text: &str, parse: P) -> (values: Vec<T>)
    requires
        reads_text(parse),
    ensures
        values@ == values_read(split_fields(text@), parse),
        forall|i: int|
            0 <= i < split_fields(text@).len() ==> reads_as(
                parse,
                trimmed(#[trigger] split_fields(text@)[i]),
                read_of(parse, trimmed(split_fields(text@)[i])),
            ),
{
    let chars = chars_of(text);
    let len = chars.len();
    let mut values: Vec<T> = Vec::new();
    let ghost mut done: Seq<Seq<char>> = Seq::empty();
    let mut start: usize = 0;
    proof {
        assert(chars@.subrange(0, len as int) =~= chars@);
    }
    loop
        invariant_except_break
            split_fields(chars@) == done + split_fields(chars@.subrange(start as int, len as int)),
            values@ == values_read(done, parse),
        invariant
            start <= len,
            len == chars@.len(),
            chars@ == text@,
            reads_text(parse),
            forall|i: int|
                0 <= i < done.len() ==> reads_as(
                    parse,
                    trimmed(#[trigger] done[i]),
                    read_of(parse, trimmed(done[i])),
                ),
        ensures
            values@ == values_read(split_fields(text@), parse),
            split_fields(text@) == done,
        decreases len - start,
    {
        let ghost rest = chars@.subrange(start as int, len as int);
        let ghost earlier = done;
        let mut field: Vec<char> = Vec::new();
        let mut end: usize = start;
        while end < len && chars[end] != FIELD_SEPARATOR
            invariant
                start <= end <= len,
                len == chars@.len(),
                field@ == chars@.subrange(start as int, end as int),
                forall|i: int| start <= i < end ==> #[trigger] chars@[i] != FIELD_SEPARATOR,
            decreases len - end,
        {
            field.push(chars[end]);
            end = end + 1;
            assert(field@ =~= chars@.subrange(start as int, end as int));
        }
        proof {
            assert forall|i: int| 0 <= i < end - start implies #[trigger] rest[i]
                != FIELD_SEPARATOR by {
                assert(rest[i] == chars@[start + i]);
            }
            if end < len {
                assert(rest[end - start] == chars@[end as int]);
            }
            lemma_first_field_len(rest, end - start);
            assert(field@ =~= rest.subrange(0, end - start));
            lemma_values_read_push(done, field@, parse);
        }
        let (from, to) = trim_range(&field);
        let core = text_of(&field, from, to);
        let ghost core_text = core@;
        let read = parse(core);
        proof {
            assert(core_text == trimmed(field@));
            assert(reads_as(parse, trimmed(field@), read));
            assert(read == read_of(parse, trimmed(field@)));
        }
        match read {
            Some(value) => {
                values.push(value);
            },
            None => {},
        }
        proof {
            done = done.push(field@);
        }
        if end == len {
            proof {
                assert(rest.subrange(0, end - start) =~= rest);
                assert(split_fields(rest) == seq![rest]);
                assert(done =~= earlier + seq![rest]);
                assert(split_fields(text@) == done);
            }
            break ;
        }
        proof {
            assert(rest.subrange(end - start + 1, rest.len() as int) =~= chars@.subrange(
                end + 1,
                len as int,
            ));
            assert(done =~= earlier + seq![rest.subrange(0, end - start)]);
            assert(done + split_fields(chars@.subrange(end + 1, len as int)) =~= earlier
                + split_fields(rest));
        }
        start = end + 1;
    }
    values
}

/// The spacing of the pixels read from an attribute, the spacing between rows
/// first and the spacing between columns second: the first two values, if
/// there are two.
pub fn pixel_spacing<T: Copy>(values: &Vec<T>) -> (r: Option<(T, T)>)
    ensures
        r is Some <==> values@.len() >= 2,
        r matches Some(pair) ==> pair.0 == values@[0] && pair.1 == values@[1],
{
    if values.len() >= 2 {
        Some((values[0], values[1]))
    } else {
        None
    }
}

/// The spacing of the pixels read from an attribute, or `default` for both
/// where the attribute does not hold two values.
pub fn pixel_spacing_or<T: Copy>(values: &Vec<T>, default: T) -> (r: (T, T))
    ensures
        r == if values@.len() >= 2 {
            (values@[0], values@[1])
        } else {
            (default, default)
        },
{
    match pixel_spacing(values) {
        Some(pair) => pair,
        None => (default, default),
    }
}

/// The coordinate of a slice along the stacking axis read from an attribute:
/// the third value, if there are three.
pub fn slice_position<T: Copy>(values: &Vec<T>) -> (r: Option<T>)
    ensures
        r is Some <==> values@.len() >= 3,
        r matches Some(z) ==> z == values@[2],
{
    if values.len() >= 3 {
        Some(values[2])
    } else {
        None
    }
}

/// The spacing measured between the first two slices: what `gap` makes of
/// their positions, where both are known. `gap` returns no spacing for
/// positions that do not lie apart.
pub fn measured_spacing<T, U, G: Fn(T, T) -> Option<U>>(
    first: Option<T>,
    second: Option<T>,
    gap: G,
) -> (r: Option<U>)
    requires
        accepts_all2(gap),
    ensures
        match (first, second) {
            (Some(a), Some(b)) => call_ensures(gap, (a, b), r),
            _ => r is None,
        },
{
    match first {
        Some(a) => match second {
            Some(b) => gap(a, b),
            None => None,
        },
        None => None,
    }
}

/// Where a spacing comes from.
#[derive(Debug, Clone, Copy, PartialEq, Eq, Structural)]
pub enum SpacingSource {
    /// Measured between the positions of the first two slices.
    Measured,
    /// The thickness that the first slice declares.
    Declared,
    /// Neither is known: the fixed default.
    Default,
}

/// The spacing between slices and where it comes from: the distance measured
/// between the first two slices where there is one, else the declared
/// thickness, else `default`. A spacing is always found.
pub fn resolve_spacing<T>(measured: Option<T>, declared: Option<T>, default: T) -> (r: (
    T,
    SpacingSource,
))
    ensures
        r == match (measured, declared) {
            (Some(distance), _) => (distance, SpacingSource::Measured),
            (None, Some(thickness)) => (thickness, SpacingSource::Declared),
            (None, None) => (default, SpacingSource::Default),
        },
{
    match measured {
        Some(distance) => (distance, SpacingSource::Measured),
        None => match declared {
            Some(thickness) => (thickness, SpacingSource::Declared),
            None => (default, SpacingSource::Default),
        },
    }
}

} // verus!
