//! The listing of a remote directory as it is shown.

use ferry::ftp::{Entry, Timestamp};
use ferry::ls::{kind_char, ls_dir, ls_line, pad};

fn entry(is_dir: bool, is_symlink: bool) -> Entry {
    Entry {
        name: "x".into(),
        is_dir,
        is_symlink,
        size: 0,
        modified: Timestamp { secs: 0, nanos: 0 },
    }
}

#[test]
fn a_symlink_is_marked_even_though_it_is_not_a_directory() {
    assert_eq!(kind_char(&entry(false, true)), 'l');
}

#[test]
fn directories_and_files_keep_their_markers() {
    assert_eq!(kind_char(&entry(true, false)), 'd');
    assert_eq!(kind_char(&entry(false, false)), '-');
}

#[test]
fn a_listed_path_lies_below_the_remote_root() {
    assert_eq!(ls_dir("/root/", &None), "/root/");
    assert_eq!(ls_dir("/root/", &Some(String::new())), "/root/");
    assert_eq!(ls_dir("/root/", &Some("///".to_string())), "/root/");
    assert_eq!(ls_dir("/root/", &Some("/sub/x".to_string())), "/root/sub/x");
    assert_eq!(ls_dir("/", &Some("sub".to_string())), "/sub");
}

#[test]
fn an_entry_is_shown_on_one_line() {
    let shown = Entry {
        name: "castle.c".into(),
        is_dir: false,
        is_symlink: false,
        size: 1234,
        modified: Timestamp { secs: 1431648000, nanos: 5 },
    };
    assert_eq!(
        ls_line(&shown).as_deref(),
        Some("-       1234 2015-05-15 00:00:00  castle.c")
    );

    let mut never = entry(true, false);
    never.modified = Timestamp { secs: i64::MAX, nanos: 0 };
    assert_eq!(ls_line(&never), None);
}

#[test]
fn numbers_are_padded_on_the_left() {
    assert_eq!(pad("7", 3), "  7");
    assert_eq!(pad("12345", 3), "12345");
}
