use aurasync::{is_ignore, normalize_path};

#[test]
fn hidden_files_are_ignored() {
    assert!(is_ignore(b".DS_Store"));
    assert!(is_ignore(b".hidden"));
    assert!(is_ignore(b"dir/.hidden"));
    assert!(is_ignore(b"."));
}

#[test]
fn temporary_and_backup_files_are_ignored() {
    assert!(is_ignore(b"a.tmp"));
    assert!(is_ignore(b"dir/sub/b.tmp"));
    assert!(is_ignore(b"draft~"));
    assert!(is_ignore(b"notes/draft~"));
}

#[test]
fn windows_metadata_files_are_ignored() {
    assert!(is_ignore(b"Thumbs.db"));
    assert!(is_ignore(b"pics/Thumbs.db"));
    assert!(is_ignore(b"Desktop.ini"));
}

#[test]
fn ordinary_names_pass() {
    assert!(!is_ignore(b"a.txt"));
    assert!(!is_ignore(b"notes/todo.txt"));
    assert!(!is_ignore(b"tmp.doc"));
    assert!(!is_ignore(b""));
}

#[test]
fn ignore_patterns_are_anchored() {
    // Not an exact or anchored match: these must pass.
    assert!(!is_ignore(b"Thumbs.dbx"));
    assert!(!is_ignore(b"xThumbs.db"));
    assert!(!is_ignore(b"a.tmpx"));
    assert!(!is_ignore(b"x~y"));
    // Only the basename counts: a hidden directory does not hide the file.
    assert!(!is_ignore(b".git/config"));
}

#[test]
fn normalize_strips_leading_slashes() {
    assert_eq!(normalize_path(b"/a/b.txt"), b"a/b.txt".to_vec());
    assert_eq!(normalize_path(b"//x"), b"x".to_vec());
    assert_eq!(normalize_path(b"a/b.txt"), b"a/b.txt".to_vec());
    assert_eq!(normalize_path(b""), Vec::<u8>::new());
    assert_eq!(normalize_path(b"///"), Vec::<u8>::new());
}
