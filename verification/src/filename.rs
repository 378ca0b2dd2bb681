//! Names of files and folders: making a name safe, recognising the slice
//! file extension, and the names of the files that the converter writes.

use vstd::prelude::*;
use crate::text::{
    chars_of,
    decimal_chars,
    decimal_len,
    push_text,
    push_zero_padded,
    text_of,
    zero_padded_chars,
};

verus! {

/// Whether `c` is white space: the characters with the Unicode property
/// White_Space.
pub open spec fn is_white_space(c: char) -> bool {
    let u = c as u32;
    ||| 0x09 <= u <= 0x0D
    ||| u == 0x20
    ||| u == 0x85
    ||| u == 0xA0
    ||| u == 0x1680
    ||| 0x2000 <= u <= 0x200A
    ||| u == 0x2028
    ||| u == 0x2029
    ||| u == 0x202F
    ||| u == 0x205F
    ||| u == 0x3000
}

/// Whether `c` may not stand in a name: a path separator, a character that
/// file systems reserve, or an ASCII control character.
pub open spec fn is_reserved(c: char) -> bool {
    ||| c == '/'
    ||| c == '\\'
    ||| c == ':'
    ||| c == '*'
    ||| c == '?'
    ||| c == '"'
    ||| c == '<'
    ||| c == '>'
    ||| c == '|'
    ||| c as u32 <= 0x1F
    ||| c as u32 == 0x7F
}

/// `c`, or an underscore in place of a reserved character.
pub open spec fn safe_char(c: char) -> char {
    if is_reserved(c) {
        '_'
    } else {
        c
    }
}

/// `s` without the white space at its start.
pub open spec fn trim_start(s: Seq<char>) -> Seq<char>
    decreases s.len(),
{
    if s.len() > 0 && is_white_space(s[0]) {
        trim_start(s.drop_first())
    } else {
        s
    }
}

/// `s` without the white space at its end.
pub open spec fn trim_end(s: Seq<char>) -> Seq<char>
    decreases s.len(),
{
    if s.len() > 0 && is_white_space(s.last()) {
        trim_end(s.drop_last())
    } else {
        s
    }
}

/// `s` without the white space at its start and at its end.
pub open spec fn trimmed(s: Seq<char>) -> Seq<char> {
    trim_end(trim_start(s))
}

/// The safe form of `name`: every reserved character replaced by an
/// underscore, then the white space at both ends removed.
pub open spec fn sanitized(name: Seq<char>) -> Seq<char> {
    trimmed(name.map_values(|c: char| safe_char(c)))
}

/// Whether `c` is white space.
pub fn is_space(c: char) -> (r: bool)
    ensures
        r == is_white_space(c),
{
    let u: u32 = c as u32;
    (0x09 <= u && u <= 0x0D) || u == 0x20 || u == 0x85 || u == 0xA0 || u == 0x1680 || (0x2000 <= u
        && u <= 0x200A) || u == 0x2028 || u == 0x2029 || u == 0x202F || u == 0x205F || u == 0x3000
}

/// `c`, or an underscore in place of a reserved character.
pub fn make_safe(c: char) -> (r: char)
    ensures
        r == safe_char(c),
{
    let u: u32 = c as u32;
    if c == '/' || c == '\\' || c == ':' || c == '*' || c == '?' || c == '"' || c == '<' || c
        == '>' || c == '|' || u <= 0x1F || u == 0x7F {
        '_'
    } else {
        c
    }
}

/// The characters of `chars` without the white space at both ends, as a
/// range of positions.
pub fn trim_range(chars: &Vec<char>) -> (r: (usize, usize))
    ensures
        r.0 <= r.1 <= chars@.len(),
        chars@.subrange(r.0 as int, r.1 as int) == trimmed(chars@),
{
    let len = chars.len();
    let mut start: usize = 0;
    assert(chars@.subrange(0, len as int) =~= chars@);
    while start < len && is_space(chars[start])
        invariant
            start <= len,
            len == chars@.len(),
            trim_start(chars@) == trim_start(chars@.subrange(start as int, len as int)),
        decreases len - start,
    {
        proof {
            let rest = chars@.subrange(start as int, len as int);
            assert(rest[0] == chars@[start as int]);
            assert(rest.drop_first() =~= chars@.subrange(start + 1, len as int));
        }
        start = start + 1;
    }
    let ghost tail = chars@.subrange(start as int, len as int);
    proof {
        if start < len {
            assert(tail[0] == chars@[start as int]);
        }
        assert(trim_start(chars@) == tail);
        assert(tail.subrange(0, len - start) =~= tail);
    }
    let mut end: usize = len;
    while end > start && is_space(chars[end - 1])
        invariant
            start <= end <= len,
            len == chars@.len(),
            tail == chars@.subrange(start as int, len as int),
            trim_end(tail) == trim_end(tail.subrange(0, end - start)),
        decreases end,
    {
        proof {
            let head = tail.subrange(0, end - start);
            assert(head.last() == chars@[end - 1]);
            assert(head.drop_last() =~= tail.subrange(0, end - 1 - start));
        }
        end = end - 1;
    }
    proof {
        let head = tail.subrange(0, end - start);
        if end > start {
            assert(head.last() == chars@[end - 1]);
        }
        assert(trim_end(tail) == head);
        assert(head =~= chars@.subrange(start as int, end as int));
    }
    (start, end)
}

/// Makes `name` safe for use as the name of a file or folder: every reserved
/// character is replaced by an underscore, then the white space at both ends
/// is removed.
pub fn sanitize_filename(name: &str) -> (safe: String)
    ensures
        safe@ == sanitized(name@),
{
    let chars = chars_of(name);
    let mut mapped: Vec<char> = Vec::with_capacity(chars.len());
    let mut i: usize = 0;
    while i < chars.len()
        invariant
            i <= chars@.len(),
            mapped@.len() == i,
            forall|j: int| 0 <= j < i ==> mapped@[j] == safe_char(#[trigger] chars@[j]),
        decreases chars@.len() - i,
    {
        mapped.push(make_safe(chars[i]));
        i = i + 1;
    }
    assert(mapped@ =~= name@.map_values(|c: char| safe_char(c)));
    let (start, end) = trim_range(&mapped);
    text_of(&mapped, start, end)
}

/// The code of `c` with the ASCII capital letters replaced by their small
/// letters.
pub open spec fn ascii_lower_code(c: char) -> u32 {
    let u = c as u32;
    if 0x41 <= u <= 0x5A {
        (u + 32) as u32
    } else {
        u
    }
}

/// Whether `a` and `b` are the same but for the case of their ASCII letters.
pub open spec fn same_ignoring_ascii_case(a: Seq<char>, b: Seq<char>) -> bool {
    &&& a.len() == b.len()
    &&& forall|i: int| 0 <= i < a.len() ==> ascii_lower_code(#[trigger] a[i]) == ascii_lower_code(b[i])
}

fn lower_code(c: char) -> (u: u32)
    ensures
        u == ascii_lower_code(c),
{
    let u: u32 = c as u32;
    if 0x41 <= u && u <= 0x5A {
        u + 32
    } else {
        u
    }
}

/// Whether `a` and `b` are the same but for the case of their ASCII letters.
pub fn eq_ignore_ascii_case(a: &str, b: &str) -> (same: bool)
    ensures
        same == same_ignoring_ascii_case(a@, b@),
{
    let left = chars_of(a);
    let right = chars_of(b);
    if left.len() != right.len() {
        return false;
    }
    let mut i: usize = 0;
    while i < left.len()
        invariant
            i <= left@.len(),
            left@.len() == right@.len(),
            left@ == a@,
            right@ == b@,
            forall|j: int|
                0 <= j < i ==> ascii_lower_code(#[trigger] left@[j]) == ascii_lower_code(right@[j]),
        decreases left@.len() - i,
    {
        if lower_code(left[i]) != lower_code(right[i]) {
            return false;
        }
        i = i + 1;
    }
    true
}

/// Whether `extension` is the extension of a slice file: "dcm" in any case.
pub fn is_dcm_extension(extension: &str) -> (r: bool)
    ensures
        r == same_ignoring_ascii_case(extension@, "dcm"@),
{
    eq_ignore_ascii_case(extension, "dcm")
}

/// Fewest digits of the number in the name of an exported image.
pub const MIN_IMAGE_DIGITS: usize = 4;

/// Digits of the number in the name of a frame.
pub const FRAME_DIGITS: usize = 6;

/// Number of digits to which the numbers of `total` exported images are
/// padded: as many as `total` has, and at least `MIN_IMAGE_DIGITS`.
pub fn jpg_padding(total: usize) -> (width: usize)
    ensures
        width == if decimal_chars(total as nat).len() >= MIN_IMAGE_DIGITS {
            decimal_chars(total as nat).len()
        } else {
            MIN_IMAGE_DIGITS as nat
        },
{
    let digits = decimal_len(total);
    if digits >= MIN_IMAGE_DIGITS {
        digits
    } else {
        MIN_IMAGE_DIGITS
    }
}

/// Name of the exported image with number `index`: the number padded with
/// zeros to `padding` digits, then ".jpg".
pub fn jpg_file_name(index: usize, padding: usize) -> (name: String)
    ensures
        name@ == zero_padded_chars(index as nat, padding as nat) + ".jpg"@,
{
    let mut name = String::new();
    push_zero_padded(&mut name, index, padding);
    push_text(&mut name, ".jpg");
    assert(name@ =~= zero_padded_chars(index as nat, padding as nat) + ".jpg"@);
    name
}

/// Name of the intermediate frame with number `index`: "frame_", the number
/// padded with zeros to `FRAME_DIGITS` digits, then ".png".
pub fn frame_file_name(index: usize) -> (name: String)
    ensures
        name@ == "frame_"@ + zero_padded_chars(index as nat, FRAME_DIGITS as nat) + ".png"@,
{
    let mut name = String::new();
    push_text(&mut name, "frame_");
    push_zero_padded(&mut name, index, FRAME_DIGITS);
    push_text(&mut name, ".png");
    assert(name@ =~= "frame_"@ + zero_padded_chars(index as nat, FRAME_DIGITS as nat) + ".png"@);
    name
}

/// The name that stands for a folder without a usable name.
pub open spec fn fallback_stem() -> Seq<char> {
    "output"@
}

/// Name of the file that holds the result for a folder: the folder's name, or
/// "output" where it has none, then a dot and `extension`.
pub fn output_file_name(folder: Option<&str>, extension: &str) -> (name: String)
    ensures
        name@ == (match folder {
            Some(stem) => stem@,
            None => fallback_stem(),
        }) + "."@ + extension@,
{
    let mut name = String::new();
    match folder {
        Some(stem) => {
            push_text(&mut name, stem);
        },
        None => {
            push_text(&mut name, "output");
        },
    }
    push_text(&mut name, ".");
    push_text(&mut name, extension);
    assert(name@ =~= (match folder {
        Some(stem) => stem@,
        None => fallback_stem(),
    }) + "."@ + extension@);
    name
}

/// Name of the mesh file for a folder.
pub fn stl_file_name(folder: Option<&str>) -> (name: String)
    ensures
        name@ == (match folder {
            Some(stem) => stem@,
            None => fallback_stem(),
        }) + "."@ + "stl"@,
{
    output_file_name(folder, "stl")
}

/// Name of the video file for a folder.
pub fn video_file_name(folder: Option<&str>) -> (name: String)
    ensures
        name@ == (match folder {
            Some(stem) => stem@,
            None => fallback_stem(),
        }) + "."@ + "mp4"@,
{
    output_file_name(folder, "mp4")
}

} // verus!
