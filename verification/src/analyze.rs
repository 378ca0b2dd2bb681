//! The survey of a folder of slices: which attributes could tell its groups
//! apart, and how the findings are listed.

use std::path::PathBuf;
use vstd::prelude::*;
use crate::text::{decimal_chars, push_decimal, push_text};

verus! {

/// `std::path::PathBuf` of the standard library: an owned path, of which
/// nothing is stated here.
#[verifier::external_type_specification]
#[verifier::external_body]
pub struct ExPathBuf(PathBuf);

/// Most values of an attribute that are listed one by one.
pub const LIST_LIMIT: usize = 20;

/// Most values of an attribute that still make usable groups.
pub const GROUP_LIMIT: usize = 50;

/// What a survey is asked for.
#[derive(Debug)]
pub struct AnalyzeArgs {
    /// Folder that holds the slice files.
    pub input: PathBuf,
    /// Number of groups that the user expects, if any.
    pub expected_groups: Option<usize>,
}

/// Whether the values of an attribute with `unique` different values are
/// listed one by one.
pub fn lists_values(unique: usize) -> (r: bool)
    ensures
        r == (unique <= LIST_LIMIT),
{
    unique <= LIST_LIMIT
}

/// Whether the values of an attribute that may be absent from every slice are
/// listed one by one: as `lists_values`, and there is a value at all.
pub fn lists_present_values(unique: usize) -> (r: bool)
    ensures
        r == (0 < unique <= LIST_LIMIT),
{
    unique <= LIST_LIMIT && unique != 0
}

/// Whether an attribute with `unique` different values makes usable groups:
/// more than one group, and no more than `GROUP_LIMIT`.
pub fn is_usable_count(unique: usize) -> (r: bool)
    ensures
        r == (1 < unique <= GROUP_LIMIT),
{
    unique > 1 && unique <= GROUP_LIMIT
}

/// What the survey says of one attribute.
#[derive(Debug, Clone, Copy, PartialEq, Eq, Structural)]
pub enum Advice {
    /// It has exactly the number of values that the user expects.
    Match,
    /// It makes usable groups.
    Usable,
    /// It has too many values to make groups.
    TooMany,
    /// Nothing.
    Silent,
}

/// What the survey says of an attribute with `unique` different values. Where
/// the user expects a number of groups, an attribute with exactly that many
/// values is a match, and any other is mentioned only if it makes usable
/// groups. Where the user expects nothing, an attribute is mentioned if it
/// makes usable groups or has too many values.
pub open spec fn advice_for(unique: usize, expected: Option<usize>) -> Advice {
    match expected {
        Some(wanted) => if unique == wanted {
            Advice::Match
        } else if 1 < unique <= GROUP_LIMIT {
            Advice::Usable
        } else {
            Advice::Silent
        },
        None => if 1 < unique <= GROUP_LIMIT {
            Advice::Usable
        } else if unique > GROUP_LIMIT {
            Advice::TooMany
        } else {
            Advice::Silent
        },
    }
}

/// What the survey says of an attribute with `unique` different values.
pub fn advise(unique: usize, expected: Option<usize>) -> (r: Advice)
    ensures
        r == advice_for(unique, expected),
{
    match expected {
        Some(wanted) => {
            if unique == wanted {
                Advice::Match
            } else if is_usable_count(unique) {
                Advice::Usable
            } else {
                Advice::Silent
            }
        },
        None => {
            if is_usable_count(unique) {
                Advice::Usable
            } else if unique > GROUP_LIMIT {
                Advice::TooMany
            } else {
                Advice::Silent
            }
        },
    }
}

impl AnalyzeArgs {
    /// What the survey asked for by these arguments says of an attribute with
    /// `unique` different values.
    pub fn advice(&self, unique: usize) -> (r: Advice)
        ensures
            r == advice_for(unique, self.expected_groups),
    {
        advise(unique, self.expected_groups)
    }
}

/// The line that lists a value by the number of its files: two spaces, a
/// dash, the number, " files: " and the value.
pub fn count_line(count: usize, value: &str) -> (line: String)
    ensures
        line@ == "  - "@ + decimal_chars(count as nat) + " files: "@ + value@,
{
    let mut line = String::new();
    push_text(&mut line, "  - ");
    push_decimal(&mut line, count);
    push_text(&mut line, " files: ");
    push_text(&mut line, value);
    assert(line@ =~= "  - "@ + decimal_chars(count as nat) + " files: "@ + value@);
    line
}

/// The line that lists a numbered value: two spaces, a dash, the label, the
/// value, a colon, the number of its files and " files".
pub fn labelled_line(label: &str, value: &str, count: usize) -> (line: String)
    ensures
        line@ == "  - "@ + label@ + " "@ + value@ + ": "@ + decimal_chars(count as nat)
            + " files"@,
{
    let mut line = String::new();
    push_text(&mut line, "  - ");
    push_text(&mut line, label);
    push_text(&mut line, " ");
    push_text(&mut line, value);
    push_text(&mut line, ": ");
    push_decimal(&mut line, count);
    push_text(&mut line, " files");
    assert(line@ =~= "  - "@ + label@ + " "@ + value@ + ": "@ + decimal_chars(count as nat)
        + " files"@);
    line
}

/// The line that lists a described value: two spaces, a dash, the value in
/// double quotes, a colon, the number of its files and " files".
pub fn quoted_line(value: &str, count: usize) -> (line: String)
    ensures
        line@ == "  - \""@ + value@ + "\": "@ + decimal_chars(count as nat) + " files"@,
{
    let mut line = String::new();
    push_text(&mut line, "  - \"");
    push_text(&mut line, value);
    push_text(&mut line, "\": ");
    push_decimal(&mut line, count);
    push_text(&mut line, " files");
    assert(line@ =~= "  - \""@ + value@ + "\": "@ + decimal_chars(count as nat) + " files"@);
    line
}

} // verus!
