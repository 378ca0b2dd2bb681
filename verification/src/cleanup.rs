//! Clean-up of existing output: what the user may answer, what an answer
//! means for the folders still to come, and what is removed.

use vstd::prelude::*;
use crate::filename::{trim_range, trimmed};
use crate::text::{chars_of, same_text, text_of};

verus! {

/// What the user chose when asked about an existing folder.
#[derive(Debug, Clone, Copy, PartialEq, Eq, Structural)]
pub enum CleanupChoice {
    /// Clean this folder and all that follow.
    YesToAll,
    /// Clean this folder; ask again for the next.
    Yes,
    /// Leave this folder as it is; ask again for the next.
    No,
    /// Leave this folder and all that follow as they are.
    NoToAll,
}

impl CleanupChoice {
    /// Whether the folder is cleaned before writing.
    pub open spec fn cleans(self) -> bool {
        self is YesToAll || self is Yes
    }

    /// Whether the choice holds for the folders still to come.
    pub open spec fn persists(self) -> bool {
        self is YesToAll || self is NoToAll
    }

    /// Whether the folder is cleaned before writing.
    pub fn should_clean(&self) -> (r: bool)
        ensures
            r == self.cleans(),
    {
        match self {
            CleanupChoice::YesToAll => true,
            CleanupChoice::Yes => true,
            CleanupChoice::No => false,
            CleanupChoice::NoToAll => false,
        }
    }

    /// Whether the choice holds for the folders still to come.
    pub fn is_persistent(&self) -> (r: bool)
        ensures
            r == self.persists(),
    {
        match self {
            CleanupChoice::YesToAll => true,
            CleanupChoice::Yes => false,
            CleanupChoice::No => false,
            CleanupChoice::NoToAll => true,
        }
    }

    /// The choice that an answer stands for; an answer that is not
    /// recognised counts as `No`.
    pub fn or_default(recognised: Option<CleanupChoice>) -> (r: CleanupChoice)
        ensures
            r == match recognised {
                Some(choice) => choice,
                None => CleanupChoice::No,
            },
    {
        match recognised {
            Some(choice) => choice,
            None => CleanupChoice::No,
        }
    }
}

/// What `str::to_lowercase` returns on a text with these characters.
pub uninterp spec fn lowercased(s: Seq<char>) -> Seq<char>;

/// `str::to_lowercase` of the standard library: the lowercase form of a text
/// is determined by its characters.
pub assume_specification[ str::to_lowercase ](s: &str) -> (r: String)
    ensures
        r@ == lowercased(s@),
;

/// The choice that a trimmed, lowercase answer stands for, if it is one of the
/// answers offered.
pub open spec fn recognised_choice(normalized: Seq<char>) -> Option<CleanupChoice> {
    if normalized == "y"@ || normalized == "yes"@ {
        Some(CleanupChoice::Yes)
    } else if normalized == "a"@ || normalized == "yes to all"@ || normalized == "all"@ {
        Some(CleanupChoice::YesToAll)
    } else if normalized == "n"@ || normalized == "no"@ {
        Some(CleanupChoice::No)
    } else if normalized == "l"@ || normalized == "no to all"@ {
        Some(CleanupChoice::NoToAll)
    } else {
        None
    }
}

/// Whether a trimmed, lowercase answer confirms a question that is answered
/// by yes or no.
pub open spec fn is_confirmation(normalized: Seq<char>) -> bool {
    normalized == "y"@ || normalized == "yes"@
}

/// The choice that the trimmed, lowercase answer `normalized` stands for:
/// "y" or "yes"; "a", "yes to all" or "all"; "n" or "no"; "l" or "no to all".
pub fn parse_choice(normalized: &str) -> (r: Option<CleanupChoice>)
    ensures
        r == recognised_choice(normalized@),
{
    if same_text(normalized, "y") || same_text(normalized, "yes") {
        Some(CleanupChoice::Yes)
    } else if same_text(normalized, "a") || same_text(normalized, "yes to all") || same_text(
        normalized,
        "all",
    ) {
        Some(CleanupChoice::YesToAll)
    } else if same_text(normalized, "n") || same_text(normalized, "no") {
        Some(CleanupChoice::No)
    } else if same_text(normalized, "l") || same_text(normalized, "no to all") {
        Some(CleanupChoice::NoToAll)
    } else {
        None
    }
}

/// Whether the trimmed, lowercase answer `normalized` is "y" or "yes".
pub fn parse_confirmation(normalized: &str) -> (r: bool)
    ensures
        r == is_confirmation(normalized@),
{
    same_text(normalized, "y") || same_text(normalized, "yes")
}

/// The answer as it is compared: without the white space at both ends, in
/// lowercase.
pub fn normalize_answer(answer: &str) -> (normalized: String)
    ensures
        normalized@ == lowercased(trimmed(answer@)),
{
    let chars = chars_of(answer);
    let (start, end) = trim_range(&chars);
    let core = text_of(&chars, start, end);
    core.as_str().to_lowercase()
}

/// The choice that a line typed by the user stands for, whatever its case and
/// the white space around it.
pub fn choice_from_answer(answer: &str) -> (r: Option<CleanupChoice>)
    ensures
        r == recognised_choice(lowercased(trimmed(answer@))),
{
    let normalized = normalize_answer(answer);
    parse_choice(normalized.as_str())
}

/// Whether a line typed by the user confirms, whatever its case and the white
/// space around it.
pub fn confirms(answer: &str) -> (r: bool)
    ensures
        r == is_confirmation(lowercased(trimmed(answer@))),
{
    let normalized = normalize_answer(answer);
    parse_confirmation(normalized.as_str())
}

/// The choice that holds for the folders still to come, if the user or the
/// command line has made one.
#[derive(Debug, Clone)]
pub struct CleanupPolicy {
    saved: Option<CleanupChoice>,
}

impl View for CleanupPolicy {
    type V = Option<CleanupChoice>;

    closed spec fn view(&self) -> Option<CleanupChoice> {
        self.saved
    }
}

impl CleanupPolicy {
    /// The policy at the start: with `force`, every folder is cleaned without
    /// asking; else nothing is decided.
    pub fn new(force: bool) -> (policy: CleanupPolicy)
        ensures
            policy@ == if force {
                Some(CleanupChoice::YesToAll)
            } else {
                None
            },
    {
        CleanupPolicy {
            saved: if force {
                Some(CleanupChoice::YesToAll)
            } else {
                None
            },
        }
    }

    /// Whether a folder is cleaned, as far as that is decided without asking:
    /// a folder that is not `occupied` is never cleaned, and an occupied one
    /// goes by the choice that holds. `None` means that the user must be
    /// asked.
    pub fn settled(&self, occupied: bool) -> (r: Option<bool>)
        ensures
            r == if !occupied {
                Some(false)
            } else {
                match self@ {
                    Some(choice) => Some(choice.cleans()),
                    None => None::<bool>,
                }
            },
    {
        if !occupied {
            Some(false)
        } else {
            match self.saved {
                Some(choice) => Some(choice.should_clean()),
                None => None,
            }
        }
    }

    /// Takes the user's choice for the folder at hand: a choice that persists
    /// holds from now on. Returns whether the folder is cleaned.
    pub fn answer(&mut self, choice: CleanupChoice) -> (clean: bool)
        ensures
            clean == choice.cleans(),
            final(self)@ == if choice.persists() {
                Some(choice)
            } else {
                old(self)@
            },
    {
        if choice.is_persistent() {
            self.saved = Some(choice);
        }
        choice.should_clean()
    }
}

/// What stands at an output path.
#[derive(Debug, Clone, Copy, PartialEq, Eq, Structural)]
pub enum PathState {
    /// Nothing.
    Missing,
    /// A file.
    File,
    /// A folder without entries.
    EmptyFolder,
    /// A folder with entries.
    OccupiedFolder,
    /// Something else.
    Other,
}

/// What is removed before writing.
#[derive(Debug, Clone, Copy, PartialEq, Eq, Structural)]
pub enum CleanupAction {
    /// Nothing: what is there is overwritten file by file.
    Keep,
    /// The file.
    RemoveFile,
    /// The folder with all it holds.
    RemoveFolder,
}

/// What is removed at an output path before writing: with `should_clean`, an
/// existing file or a folder with entries; else nothing.
pub fn plan_cleanup(state: PathState, should_clean: bool) -> (action: CleanupAction)
    ensures
        action == if should_clean && state is File {
            CleanupAction::RemoveFile
        } else if should_clean && state is OccupiedFolder {
            CleanupAction::RemoveFolder
        } else {
            CleanupAction::Keep
        },
{
    match state {
        PathState::File => if should_clean {
            CleanupAction::RemoveFile
        } else {
            CleanupAction::Keep
        },
        PathState::OccupiedFolder => if should_clean {
            CleanupAction::RemoveFolder
        } else {
            CleanupAction::Keep
        },
        _ => CleanupAction::Keep,
    }
}

/// Why an input folder was refused.
#[derive(Debug, Clone, Copy, PartialEq, Eq, Structural)]
pub enum InputFolderError {
    /// Nothing stands at the path.
    Missing,
    /// What stands at the path is not a folder.
    NotADirectory,
}

impl InputFolderError {
    /// The text of the error.
    pub open spec fn message_chars(self) -> Seq<char> {
        match self {
            InputFolderError::Missing => "Input folder does not exist"@,
            InputFolderError::NotADirectory => "Input path is not a directory"@,
        }
    }

    /// The text of the error.
    pub fn message(&self) -> (text: String)
        ensures
            text@ == self.message_chars(),
    {
        match self {
            InputFolderError::Missing => String::from_str("Input folder does not exist"),
            InputFolderError::NotADirectory => String::from_str("Input path is not a directory"),
        }
    }
}

/// The verdict on an input path: `exists` says whether anything stands
/// there, `is_dir` whether it is a folder.
pub open spec fn input_folder_verdict(exists: bool, is_dir: bool) -> Result<(), InputFolderError> {
    if !exists {
        Err(InputFolderError::Missing)
    } else if !is_dir {
        Err(InputFolderError::NotADirectory)
    } else {
        Ok(())
    }
}

/// Accepts an input path at which a folder stands: `exists` says whether
/// anything stands there, `is_dir` whether it is a folder.
pub fn validate_input_folder(exists: bool, is_dir: bool) -> (r: Result<(), InputFolderError>)
    ensures
        r == input_folder_verdict(exists, is_dir),
{
    if !exists {
        Err(InputFolderError::Missing)
    } else if !is_dir {
        Err(InputFolderError::NotADirectory)
    } else {
        Ok(())
    }
}

} // verus!
