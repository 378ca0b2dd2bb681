use dcm_converter::cleanup::{
    choice_from_answer, confirms, parse_choice, parse_confirmation, plan_cleanup,
    validate_input_folder, CleanupAction, CleanupChoice, CleanupPolicy, InputFolderError,
    PathState,
};
use std::path::{Path, PathBuf};
use tempfile::{NamedTempFile, TempDir};

fn state_of(path: &Path) -> PathState {
    if !path.exists() {
        PathState::Missing
    } else if path.is_file() {
        PathState::File
    } else if path.is_dir() {
        match path.read_dir() {
            Ok(mut entries) => {
                if entries.next().is_none() {
                    PathState::EmptyFolder
                } else {
                    PathState::OccupiedFolder
                }
            }
            Err(_) => PathState::Other,
        }
    } else {
        PathState::Other
    }
}

#[test]
fn yes_to_all_should_clean_and_is_persistent() {
    let choice = CleanupChoice::YesToAll;
    assert!(choice.should_clean());
    assert!(choice.is_persistent());
}

#[test]
fn yes_should_clean_but_not_persistent() {
    let choice = CleanupChoice::Yes;
    assert!(choice.should_clean());
    assert!(!choice.is_persistent());
}

#[test]
fn no_should_not_clean_and_not_persistent() {
    let choice = CleanupChoice::No;
    assert!(!choice.should_clean());
    assert!(!choice.is_persistent());
}

#[test]
fn no_to_all_should_not_clean_but_is_persistent() {
    let choice = CleanupChoice::NoToAll;
    assert!(!choice.should_clean());
    assert!(choice.is_persistent());
}

#[test]
fn all_variants_are_copy() {
    let choice = CleanupChoice::Yes;
    let copied = choice;
    assert_eq!(choice, copied);
}

#[test]
fn all_variants_are_clone() {
    let choices = [
        CleanupChoice::YesToAll,
        CleanupChoice::Yes,
        CleanupChoice::No,
        CleanupChoice::NoToAll,
    ];
    for choice in choices {
        assert_eq!(choice, choice.clone());
    }
}

#[test]
fn debug_format_is_readable() {
    assert!(format!("{:?}", CleanupChoice::YesToAll).contains("YesToAll"));
    assert!(format!("{:?}", CleanupChoice::Yes).contains("Yes"));
    assert!(format!("{:?}", CleanupChoice::No).contains("No"));
    assert!(format!("{:?}", CleanupChoice::NoToAll).contains("NoToAll"));
}

#[test]
fn equality_works_correctly() {
    assert_eq!(CleanupChoice::Yes, CleanupChoice::Yes);
    assert_ne!(CleanupChoice::Yes, CleanupChoice::No);
    assert_ne!(CleanupChoice::YesToAll, CleanupChoice::NoToAll);
}

#[test]
fn utils_valid_folder_succeeds() {
    let temp_dir = TempDir::new().unwrap();
    let path = temp_dir.path().to_path_buf();
    let result = validate_input_folder(path.exists(), path.is_dir());
    assert!(result.is_ok());
}

#[test]
fn utils_nonexistent_folder_fails() {
    let path = PathBuf::from("/nonexistent/path/that/does/not/exist");
    let result = validate_input_folder(path.exists(), path.is_dir());
    assert!(result.is_err());
    assert!(result.unwrap_err().message().contains("does not exist"));
}

#[test]
fn relative_path_works() {
    let temp_dir = TempDir::new().unwrap();
    let abs_path = temp_dir.path().to_path_buf();
    let result = validate_input_folder(abs_path.exists(), abs_path.is_dir());
    assert!(result.is_ok());
}

#[test]
fn main_valid_folder_succeeds() {
    let temp_dir = TempDir::new().unwrap();
    let path = temp_dir.path().to_path_buf();
    let result = validate_input_folder(path.exists(), path.is_dir());
    assert!(result.is_ok());
}

#[test]
fn main_nonexistent_folder_fails() {
    let path = PathBuf::from("/nonexistent/path/that/does/not/exist");
    let result = validate_input_folder(path.exists(), path.is_dir());
    assert!(result.is_err());
    assert!(result.unwrap_err().message().contains("does not exist"));
}

#[test]
fn existing_path_that_is_no_folder_is_refused() {
    let result = validate_input_folder(true, false);
    assert_eq!(result, Err(InputFolderError::NotADirectory));
    assert!(result.unwrap_err().message().contains("not a directory"));
    assert_eq!(validate_input_folder(false, true), Err(InputFolderError::Missing));
    assert_eq!(validate_input_folder(false, false), Err(InputFolderError::Missing));
    assert_eq!(validate_input_folder(true, true), Ok(()));
}

#[test]
fn allows_nonexistent_path() {
    let temp_dir = TempDir::new().unwrap();
    let output_path = temp_dir.path().join("nonexistent");

    let action = plan_cleanup(state_of(&output_path), false);
    assert_eq!(action, CleanupAction::Keep);
}

#[test]
fn allows_nonexistent_path_with_clean_true() {
    let temp_dir = TempDir::new().unwrap();
    let output_path = temp_dir.path().join("nonexistent");

    let action = plan_cleanup(state_of(&output_path), true);
    assert_eq!(action, CleanupAction::Keep);
}

#[test]
fn empty_folder_is_kept_even_when_cleaning() {
    let temp_dir = TempDir::new().unwrap();
    assert_eq!(state_of(temp_dir.path()), PathState::EmptyFolder);
    assert_eq!(plan_cleanup(PathState::EmptyFolder, true), CleanupAction::Keep);
    assert_eq!(plan_cleanup(PathState::EmptyFolder, false), CleanupAction::Keep);
}

#[test]
fn cleanup_plan_for_every_state() {
    assert_eq!(plan_cleanup(PathState::File, true), CleanupAction::RemoveFile);
    assert_eq!(plan_cleanup(PathState::File, false), CleanupAction::Keep);
    assert_eq!(
        plan_cleanup(PathState::OccupiedFolder, true),
        CleanupAction::RemoveFolder
    );
    assert_eq!(plan_cleanup(PathState::OccupiedFolder, false), CleanupAction::Keep);
    assert_eq!(plan_cleanup(PathState::Missing, true), CleanupAction::Keep);
    assert_eq!(plan_cleanup(PathState::Other, true), CleanupAction::Keep);
    assert_eq!(plan_cleanup(PathState::Other, false), CleanupAction::Keep);
}

#[test]
fn answers_are_recognised() {
    assert_eq!(parse_choice("y"), Some(CleanupChoice::Yes));
    assert_eq!(parse_choice("yes"), Some(CleanupChoice::Yes));
    assert_eq!(parse_choice("a"), Some(CleanupChoice::YesToAll));
    assert_eq!(parse_choice("yes to all"), Some(CleanupChoice::YesToAll));
    assert_eq!(parse_choice("all"), Some(CleanupChoice::YesToAll));
    assert_eq!(parse_choice("n"), Some(CleanupChoice::No));
    assert_eq!(parse_choice("no"), Some(CleanupChoice::No));
    assert_eq!(parse_choice("l"), Some(CleanupChoice::NoToAll));
    assert_eq!(parse_choice("no to all"), Some(CleanupChoice::NoToAll));
    assert_eq!(parse_choice("maybe"), None);
    assert_eq!(parse_choice(""), None);
    assert_eq!(parse_choice("Y"), None);
}

#[test]
fn typed_lines_are_trimmed_and_lowercased() {
    assert_eq!(choice_from_answer("  YES \n"), Some(CleanupChoice::Yes));
    assert_eq!(choice_from_answer("A\n"), Some(CleanupChoice::YesToAll));
    assert_eq!(choice_from_answer("No To All\r\n"), Some(CleanupChoice::NoToAll));
    assert_eq!(choice_from_answer("\tL"), Some(CleanupChoice::NoToAll));
    assert_eq!(choice_from_answer("what\n"), None);
    assert_eq!(choice_from_answer("y e s"), None);
    assert_eq!(CleanupChoice::or_default(choice_from_answer("what")), CleanupChoice::No);
    assert_eq!(CleanupChoice::or_default(choice_from_answer("all")), CleanupChoice::YesToAll);
}

#[test]
fn confirmations_are_y_or_yes() {
    assert!(parse_confirmation("y"));
    assert!(parse_confirmation("yes"));
    assert!(!parse_confirmation("n"));
    assert!(!parse_confirmation(""));
    assert!(confirms(" Yes\n"));
    assert!(confirms("Y"));
    assert!(!confirms("no\n"));
    assert!(!confirms("\n"));
    assert!(!confirms("yes please"));
}

#[test]
fn forced_policy_cleans_without_asking() {
    let policy = CleanupPolicy::new(true);
    assert_eq!(policy.settled(true), Some(true));
    assert_eq!(policy.settled(false), Some(false));
}

#[test]
fn open_policy_asks_for_occupied_folders_only() {
    let policy = CleanupPolicy::new(false);
    assert_eq!(policy.settled(true), None);
    assert_eq!(policy.settled(false), Some(false));
}

#[test]
fn persistent_answers_settle_later_folders() {
    let mut policy = CleanupPolicy::new(false);
    assert!(policy.answer(CleanupChoice::Yes));
    assert_eq!(policy.settled(true), None);
    assert!(!policy.answer(CleanupChoice::No));
    assert_eq!(policy.settled(true), None);
    assert!(!policy.answer(CleanupChoice::NoToAll));
    assert_eq!(policy.settled(true), Some(false));
    assert!(policy.answer(CleanupChoice::YesToAll));
    assert_eq!(policy.settled(true), Some(true));
    assert!(policy.answer(CleanupChoice::Yes));
    assert_eq!(policy.settled(true), Some(true));
}

#[test]
fn utils_file_instead_of_folder_fails() {
    let temp_dir = TempDir::new().unwrap();
    let file = NamedTempFile::new_in(temp_dir.path()).unwrap();
    let file_path = file.path().to_path_buf();

    let result = validate_input_folder(file_path.exists(), file_path.is_dir());
    assert!(result.is_err());
    assert!(result.unwrap_err().message().contains("not a directory"));
}

#[test]
fn main_file_instead_of_folder_fails() {
    let temp_dir = TempDir::new().unwrap();
    let file = NamedTempFile::new_in(temp_dir.path()).unwrap();
    let file_path = file.path().to_path_buf();

    let result = validate_input_folder(file_path.exists(), file_path.is_dir());
    assert!(result.is_err());
    assert!(result.unwrap_err().message().contains("not a directory"));
}

#[test]
fn empty_folder_is_valid() {
    let temp_dir = TempDir::new().unwrap();
    let empty_folder = TempDir::new_in(temp_dir.path()).unwrap();
    let path = empty_folder.path().to_path_buf();

    let result = validate_input_folder(path.exists(), path.is_dir());
    assert!(result.is_ok());
}

#[test]
fn folder_with_files_is_valid() {
    let temp_dir = TempDir::new().unwrap();
    let _file = NamedTempFile::new_in(temp_dir.path()).unwrap();
    let path = temp_dir.path().to_path_buf();

    assert_eq!(state_of(&path), PathState::OccupiedFolder);
    let result = validate_input_folder(path.exists(), path.is_dir());
    assert!(result.is_ok());
}

#[test]
fn existing_output_is_removed_only_when_cleaning() {
    let temp_dir = TempDir::new().unwrap();
    let file = NamedTempFile::new_in(temp_dir.path()).unwrap();

    assert_eq!(plan_cleanup(state_of(file.path()), true), CleanupAction::RemoveFile);
    assert_eq!(plan_cleanup(state_of(file.path()), false), CleanupAction::Keep);
    assert_eq!(
        plan_cleanup(state_of(temp_dir.path()), true),
        CleanupAction::RemoveFolder
    );
    assert_eq!(plan_cleanup(state_of(temp_dir.path()), false), CleanupAction::Keep);
}
