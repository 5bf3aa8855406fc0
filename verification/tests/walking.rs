use mvre::options::{log_level, reports_moves, LogLevel};
use mvre::walk::{is_hidden, is_visible, ListedEntry, Walk, WalkStep};
use mvre::windows;

fn entry(item: &str, name: Option<&str>, is_dir: bool) -> ListedEntry<String> {
    ListedEntry { item: item.to_string(), name: name.map(|n| n.as_bytes().to_vec()), is_dir }
}

fn drain(walk: &mut Walk<String>, listings: &dyn Fn(&str) -> Vec<ListedEntry<String>>) -> Vec<String> {
    let mut out = Vec::new();
    loop {
        match walk.next_step() {
            WalkStep::Report(item) => out.push(item),
            WalkStep::Descend(item) => {
                walk.descend(listings(&item));
                out.push(item);
            }
            WalkStep::Done => break,
        }
    }
    out
}

#[test]
fn test_ignore_hidden_files_by_default() {
    let listings = |p: &str| match p {
        "./.hidden" => vec![entry("./.hidden/file_1.txt", Some("file_1.txt"), false)],
        _ => vec![],
    };
    let mut walk = Walk::new(false, vec![entry("./.hidden", Some(".hidden"), true)]);
    assert!(drain(&mut walk, &listings).is_empty());
}

#[test]
fn test_include_hidden_files() {
    let listings = |p: &str| match p {
        "./.hidden" => vec![entry("./.hidden/file_1.txt", Some("file_1.txt"), false)],
        _ => vec![],
    };
    let mut walk = Walk::new(true, vec![entry("./.hidden", Some(".hidden"), true)]);
    assert_eq!(drain(&mut walk, &listings), vec!["./.hidden", "./.hidden/file_1.txt"]);
}

#[test]
fn contents_come_right_after_their_directory() {
    let listings = |p: &str| match p {
        "a" => vec![entry("a/x", Some("x"), false), entry("a/.y", Some(".y"), false), entry("a/b", Some("b"), true)],
        "a/b" => vec![entry("a/b/z", Some("z"), false)],
        _ => vec![],
    };
    let top = vec![entry("a", Some("a"), true), entry("c", Some("c"), false)];
    let mut walk = Walk::new(false, top);
    assert_eq!(drain(&mut walk, &listings), vec!["a", "a/x", "a/b", "a/b/z", "c"]);
}

#[test]
fn nameless_entries_are_not_hidden() {
    assert!(is_visible(&None, false));
    assert!(is_visible(&Some(Vec::new()), false));
    assert!(!is_visible(&Some(b".git".to_vec()), false));
    assert!(is_visible(&Some(b".git".to_vec()), true));
    assert!(is_visible(&Some(b"a.b".to_vec()), false));
}

#[test]
fn hidden_by_name_or_attribute() {
    assert!(is_hidden(Some(b".bashrc".as_slice())));
    assert!(!is_hidden(Some(b"bashrc".as_slice())));
    assert!(!is_hidden(Some(b"".as_slice())));
    assert!(!is_hidden(None));
    assert!(windows::is_hidden(Some(0x2)));
    assert!(windows::is_hidden(Some(0x22)));
    assert!(!windows::is_hidden(Some(0x20)));
    assert!(!windows::is_hidden(None));
}

#[test]
fn log_levels() {
    assert_eq!(log_level(true, false), LogLevel::Debug);
    assert_eq!(log_level(false, true), LogLevel::Warn);
    assert_eq!(log_level(false, false), LogLevel::Info);
}

#[test]
fn dotfile_with_name_that_is_not_text_is_hidden() {
    let odd = ListedEntry { item: "./odd".to_string(), name: Some(vec![0x2E, 0xFF]), is_dir: false };
    let mut walk = Walk::new(false, vec![odd]);
    assert!(matches!(walk.next_step(), WalkStep::Done));
    let odd = ListedEntry { item: "./odd".to_string(), name: Some(vec![0x2E, 0xFF]), is_dir: false };
    let mut walk = Walk::new(true, vec![odd]);
    match walk.next_step() {
        WalkStep::Report(item) => assert_eq!(item, "./odd"),
        _ => panic!("the dotfile was not reported"),
    }
    assert!(matches!(walk.next_step(), WalkStep::Done));
}

#[test]
fn test_verbose() {
    assert!(reports_moves(true, false));
    assert!(reports_moves(true, true));
    assert!(reports_moves(false, false));
    assert!(!reports_moves(false, true));
}
