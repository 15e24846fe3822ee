use fileflow::persist::{decode_dir_list, encode_dir_list};
use fileflow::watch::{change_action, ChangeAction, ChangeKind, WatchedDirs};

#[test]
fn test_watched_dirs_round_trip() {
    let paths = vec![
        "/home/user/Documents".to_string(),
        "/home/user/Bob's Files".to_string(), // single-quote stress test
    ];
    let saved = encode_dir_list(&paths).unwrap();
    let loaded = decode_dir_list(&saved);
    assert_eq!(loaded, paths);
}

#[test]
fn saved_list_is_compact_json() {
    let paths = vec!["a\"b".to_string(), "c\\d\n\u{1}".to_string()];
    assert_eq!(encode_dir_list(&paths).unwrap(), r#"["a\"b","c\\d\n\u0001"]"#);
    assert_eq!(encode_dir_list(&vec![]).unwrap(), "[]");
    assert_eq!(decode_dir_list(r#"["a\"b","c\\d\n\u0001"]"#), paths);
}

#[test]
fn unreadable_saved_list_gives_no_dirs() {
    assert!(decode_dir_list("not json").is_empty());
    assert!(decode_dir_list("[1, 2]").is_empty());
    assert!(decode_dir_list("").is_empty());
}

#[test]
fn adding_twice_keeps_one_entry() {
    let mut w = WatchedDirs::new();
    assert!(w.add("/home/a"));
    assert!(!w.add("/home/a"));
    assert!(w.add("/home/b"));
    assert_eq!(w.snapshot(), vec!["/home/a", "/home/b"]);
}

#[test]
fn same_path_with_trailing_slash_is_not_added_again() {
    let mut w = WatchedDirs::new();
    assert!(w.add("/home/a"));
    assert!(!w.add("/home/a/"));
    assert!(w.contains("/home//a"));
    assert_eq!(w.snapshot(), vec!["/home/a"]);
}

#[test]
fn remove_drops_every_equal_path_and_keeps_order() {
    let mut w = WatchedDirs::from_list(vec![
        "/x".to_string(),
        "/a".to_string(),
        "/y".to_string(),
        "/a/".to_string(),
    ]);
    w.remove("/a");
    assert_eq!(w.snapshot(), vec!["/x", "/y"]);
    assert!(!w.contains("/a"));
    w.remove("/not-there");
    assert_eq!(w.snapshot(), vec!["/x", "/y"]);
}

#[test]
fn remove_undoes_add() {
    let mut w = WatchedDirs::from_list(vec!["/x".to_string()]);
    w.add("/new");
    w.remove("/new");
    assert_eq!(w.snapshot(), vec!["/x"]);
}

#[test]
fn changes_map_to_actions() {
    assert_eq!(change_action(ChangeKind::Created, true), ChangeAction::Index);
    assert_eq!(change_action(ChangeKind::Modified, false), ChangeAction::Ignore);
    assert_eq!(change_action(ChangeKind::Removed, false), ChangeAction::Delete);
    assert_eq!(change_action(ChangeKind::Other, true), ChangeAction::Ignore);
}
