use mvre::pattern::{Pattern, PatternError};
use mvre::plan::{compute_new_path, plan_renames, FoundPath, PathEntry};
use mvre::rename::{start_rename, RenameOptions, RenameStep};

fn file(path: &str) -> PathEntry {
    PathEntry { path: path.to_string(), is_dir: false, is_file: true }
}

fn dir(path: &str) -> PathEntry {
    PathEntry { path: path.to_string(), is_dir: true, is_file: false }
}

fn found(base: &str, entry: PathEntry) -> FoundPath {
    FoundPath { base: base.to_string(), entry }
}

fn pattern(src: &str) -> Pattern {
    match Pattern::new(src, false) {
        Ok(p) => p,
        Err(_) => panic!("pattern refused"),
    }
}

#[test]
fn test_basic_rename() {
    let re = pattern(r"(.*?)/.*?_(\d+)\.(.*?)");
    let entries = vec![found(".", dir("./movies")), found(".", file("./movies/23nametogether_2.mp4"))];
    let plan = plan_renames(&entries, &re, "${1}_${2}.${3}", false, false);
    assert_eq!(plan.len(), 1);
    assert_eq!(plan[0].entry, 1);
    assert_eq!(plan[0].new_path, "./movies_2.mp4");
}

#[test]
fn hidden_file_path_mapping() {
    let re = pattern(r".*/file_(\d+)\.txt");
    let r = compute_new_path(".", &file("./.hidden/file_1.txt"), &re, "file_$1.txt", false, false);
    assert_eq!(r, Some("./file_1.txt".to_string()));
}

#[test]
fn test_dry_run() {
    let re = pattern(r"file_(\d+)\.txt");
    let r = compute_new_path(".", &file("./file_1.txt"), &re, "target_$1.txt", false, false);
    assert_eq!(r, Some("./target_1.txt".to_string()));
    let opts = RenameOptions { interactive: false, force: false, dry_run: true };
    assert_eq!(start_rename(&opts), RenameStep::Finish);
}

#[test]
fn test_create_parent_directories() {
    let re = pattern(r"file_(\d+)\.txt");
    let r = compute_new_path(".", &file("./file_1.txt"), &re, "new_dir/sub_dir/target_$1.txt", false, false);
    assert_eq!(r, Some("./new_dir/sub_dir/target_1.txt".to_string()));
}

#[test]
fn test_case_insensitive() {
    let re = match Pattern::new(r"file_(\d+)\.txt", true) {
        Ok(p) => p,
        Err(_) => panic!("pattern refused"),
    };
    let r = compute_new_path(".", &file("./FiLe_1.TXT"), &re, "target_$1.txt", false, false);
    assert_eq!(r, Some("./target_1.txt".to_string()));
    let strict = pattern(r"file_(\d+)\.txt");
    assert_eq!(compute_new_path(".", &file("./FiLe_1.TXT"), &strict, "target_$1.txt", false, false), None);
}

#[test]
fn test_explicit_path_argument() {
    let re = pattern(r"file_(\d+)\.txt");
    let r = compute_new_path("external_dir", &file("external_dir/file_1.txt"), &re, "target_$1.txt", false, false);
    assert_eq!(r, Some("external_dir/target_1.txt".to_string()));
}

#[test]
fn test_explicit_absolute_path() {
    let re = pattern(r"(.*)file_(\d+)\.txt");
    let r = compute_new_path(
        "/tmp/work/external_dir",
        &file("/tmp/work/external_dir/file_1.txt"),
        &re,
        "${1}target_$2.txt",
        false,
        false,
    );
    assert_eq!(r, Some("/tmp/work/external_dir/target_1.txt".to_string()));
}

#[test]
fn test_files_only() {
    let re = pattern(r"match_(\d+)");
    let entries = vec![found(".", dir("./match_1")), found(".", file("./match_2"))];
    let plan = plan_renames(&entries, &re, "target_$1", true, false);
    assert_eq!(plan.len(), 1);
    assert_eq!(plan[0].entry, 1);
    assert_eq!(plan[0].new_path, "./target_2");
}

#[test]
fn test_dirs_only() {
    let re = pattern(r"match_(\d+)");
    let entries = vec![found(".", dir("./match_1")), found(".", file("./match_2"))];
    let plan = plan_renames(&entries, &re, "target_$1", false, true);
    assert_eq!(plan.len(), 1);
    assert_eq!(plan[0].entry, 0);
    assert_eq!(plan[0].new_path, "./target_1");
}

#[test]
fn partial_match_does_not_move() {
    // The pattern is anchored: "file" matches only the whole relative path.
    let re = pattern("file");
    assert_eq!(compute_new_path(".", &file("./file_1.txt"), &re, "x", false, false), None);
    assert_eq!(compute_new_path(".", &file("./file"), &re, "x", false, false), Some("./x".to_string()));
}

#[test]
fn unchanged_name_does_not_move() {
    let re = pattern(r"file_(\d+)\.txt");
    assert_eq!(compute_new_path(".", &file("./file_1.txt"), &re, "file_$1.txt", false, false), None);
}

#[test]
fn path_outside_search_directory_is_matched_whole() {
    let re = pattern(r"other/(.*)");
    let r = compute_new_path("base", &file("other/a.txt"), &re, "$1", false, false);
    assert_eq!(r, Some("base/a.txt".to_string()));
}

#[test]
fn entries_that_are_neither_file_nor_dir_are_kept_by_both_filters() {
    let re = pattern("a");
    let odd = PathEntry { path: "./a".to_string(), is_dir: false, is_file: false };
    assert_eq!(compute_new_path(".", &odd, &re, "b", true, true), Some("./b".to_string()));
}

#[test]
fn plan_keeps_discovery_order() {
    let re = pattern(r"(\w+)\.txt");
    let entries = vec![
        found("d", file("d/b.txt")),
        found("d", file("d/skip.md")),
        found("e", file("e/a.txt")),
    ];
    let plan = plan_renames(&entries, &re, "${1}.md", false, false);
    assert_eq!(plan.len(), 2);
    assert_eq!((plan[0].entry, plan[0].new_path.as_str()), (0, "d/b.md"));
    assert_eq!((plan[1].entry, plan[1].new_path.as_str()), (2, "e/a.md"));
}

#[test]
fn invalid_pattern_is_refused() {
    match Pattern::new("(", false) {
        Err(PatternError::Invalid(msg)) => assert!(!msg.is_empty()),
        Ok(_) => panic!("an unclosed group was accepted"),
    }
    // Anchoring does not make an invalid pattern valid.
    assert!(Pattern::new("a)", false).is_err());
    // The expression must be valid on its own, not only once wrapped.
    assert!(Pattern::new("a)(b", false).is_err());
    assert!(Pattern::new("a\\", false).is_err());
    assert!(Pattern::new("a\\.b", false).is_ok());
}

#[test]
fn jpeg_extensions_become_jpg() {
    let re = pattern(r"(.*)\.jpeg");
    let entries = vec![
        found(".", file("./a.jpeg")),
        found(".", file("./b.jpg")),
        found(".", dir("./pics")),
        found(".", file("./pics/c.jpeg")),
    ];
    let plan = plan_renames(&entries, &re, "$1.jpg", false, false);
    assert_eq!(plan.len(), 2);
    assert_eq!((plan[0].entry, plan[0].new_path.as_str()), (0, "./a.jpg"));
    assert_eq!((plan[1].entry, plan[1].new_path.as_str()), (3, "./pics/c.jpg"));
}

#[test]
fn logos_renamed_across_directories() {
    let re = pattern(r"(.*)logo-old\.png");
    let entries = vec![
        found("public/", file("public/logo-old.png")),
        found("src/assets/", file("src/assets/img/logo-old.png")),
        found("dist/", file("dist/logo-new.png")),
    ];
    let plan = plan_renames(&entries, &re, "${1}logo-new.png", false, false);
    assert_eq!(plan.len(), 2);
    assert_eq!(plan[0].new_path, "public/logo-new.png");
    assert_eq!(plan[1].new_path, "src/assets/img/logo-new.png");
}

#[test]
fn alternation_must_match_whole_path() {
    let re = pattern("file|x");
    assert_eq!(compute_new_path(".", &file("./file_1.txt"), &re, "y", false, false), None);
    assert_eq!(compute_new_path(".", &file("./x_1"), &re, "y", false, false), None);
    assert_eq!(compute_new_path(".", &file("./x"), &re, "y", false, false), Some("./y".to_string()));
    assert_eq!(compute_new_path(".", &file("./file"), &re, "y", false, false), Some("./y".to_string()));
}
