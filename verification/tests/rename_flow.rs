use mvre::answer::{is_affirmative, trim_whitespace};
use mvre::rename::{
    after_answer, after_inspection, overwrite_warning, parent_dir_to_prepare, skip_warning,
    start_rename, Prompt, RenameOptions, RenameStep,
};

fn opts(interactive: bool, force: bool, dry_run: bool) -> RenameOptions {
    RenameOptions { interactive, force, dry_run }
}

#[test]
fn test_collision_skip() {
    let o = opts(false, false, false);
    assert_eq!(start_rename(&o), RenameStep::InspectDestination);
    assert_eq!(after_inspection(&o, true), RenameStep::SkipExisting);
    assert!(skip_warning("./target_1.txt").contains("already exists"));
}

#[test]
fn test_collision_overwrite() {
    let o = opts(false, true, false);
    assert_eq!(start_rename(&o), RenameStep::InspectDestination);
    assert_eq!(after_inspection(&o, true), RenameStep::Move { overwrite: true });
}

#[test]
fn test_interactive_collision_overwrite_yes() {
    let o = opts(true, false, false);
    assert_eq!(after_inspection(&o, true), RenameStep::Ask(Prompt::Overwrite));
    assert_eq!(after_answer("y\n"), RenameStep::Move { overwrite: false });
}

#[test]
fn test_interactive_collision_overwrite_no() {
    let o = opts(true, false, false);
    assert_eq!(after_inspection(&o, true), RenameStep::Ask(Prompt::Overwrite));
    assert_eq!(after_answer("n\n"), RenameStep::Finish);
}

#[test]
fn test_interactive_rename_yes() {
    let o = opts(true, false, false);
    assert_eq!(after_inspection(&o, false), RenameStep::Ask(Prompt::Rename));
    assert_eq!(after_answer("y\n"), RenameStep::Move { overwrite: false });
}

#[test]
fn test_interactive_rename_no() {
    let o = opts(true, false, false);
    assert_eq!(after_inspection(&o, false), RenameStep::Ask(Prompt::Rename));
    assert_eq!(after_answer("n\n"), RenameStep::Finish);
}

#[test]
fn dry_run_stops_at_once() {
    for interactive in [false, true] {
        for force in [false, true] {
            assert_eq!(start_rename(&opts(interactive, force, true)), RenameStep::Finish);
        }
    }
}

#[test]
fn free_destination_moves_without_question() {
    assert_eq!(after_inspection(&opts(false, false, false), false), RenameStep::Move { overwrite: false });
    assert_eq!(after_inspection(&opts(false, true, false), false), RenameStep::Move { overwrite: false });
}

#[test]
fn interactive_wins_over_force() {
    assert_eq!(after_inspection(&opts(true, true, false), true), RenameStep::Ask(Prompt::Overwrite));
}

#[test]
fn replies_that_mean_yes() {
    assert!(is_affirmative("y"));
    assert!(is_affirmative("Y"));
    assert!(is_affirmative("  y \r\n"));
    assert!(is_affirmative("\u{3000}Y\u{2003}"));
    assert!(!is_affirmative("yes"));
    assert!(!is_affirmative(""));
    assert!(!is_affirmative("\n"));
    assert!(!is_affirmative("n"));
    assert!(!is_affirmative("y y"));
    assert!(!is_affirmative("\u{ff59}"));
}

#[test]
fn parent_to_prepare() {
    assert_eq!(parent_dir_to_prepare("./new_dir/sub_dir/target_1.txt"), Some("./new_dir/sub_dir".to_string()));
    assert_eq!(parent_dir_to_prepare("target_1.txt"), None);
    assert_eq!(parent_dir_to_prepare("/"), None);
    assert_eq!(parent_dir_to_prepare("./target_1.txt"), Some(".".to_string()));
}

#[test]
fn messages() {
    assert_eq!(Prompt::Overwrite.message(), "Destination already exists. Overwrite?");
    assert_eq!(Prompt::Rename.message(), "Perform this rename?");
    assert_eq!(overwrite_warning("a/b"), "Overwriting existing file a/b");
    assert_eq!(skip_warning("a/b"), "Destination a/b already exists. Skipping.");
}

#[test]
fn trimming_white_space() {
    assert_eq!(trim_whitespace("  a b \n"), "a b");
    assert_eq!(trim_whitespace("\u{3000}\u{85}x\u{2029}"), "x");
    assert_eq!(trim_whitespace(" \t\r\n "), "");
    assert_eq!(trim_whitespace("\u{200B}x"), "\u{200B}x");
    for s in ["", "abc", " \u{a0}z\u{205f}", "\u{1680}\u{180e}"] {
        assert_eq!(trim_whitespace(s), s.trim());
    }
}
