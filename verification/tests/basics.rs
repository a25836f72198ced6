//! Text, paths, the order of paths, what is remembered, and hashes.

use ferry::error::{Error, Exit};
use ferry::ftp::Timestamp;
use ferry::hash::hash_bytes;
use ferry::inventory::EntryKind;
use ferry::local_paths::{ancestors_of, file_name_of, join, parent_of};
use ferry::order::{precedes, PathMap, PathSet};
use ferry::paths::{
    is_at_or_below, is_below, is_canonical, is_state_path, join_relative, leaf_of,
    normalize_remote_root, relative_remote_destination, remote_path_join,
    strict_remote_child_name, validate_relative_path, validate_state_path_key,
};
use ferry::remote_hash::{fetched_hash, remembered_hash, RemoteMetadata};
use ferry::scope::{scope_contains, ExecutionMode, SyncScope};
use ferry::state::{classify, FileRecord, FileState, StateFile};
use ferry::sync::outcome::{
    cancelled_sync_outcome, note, outcome_error, render_outcome, require_interactive_terminal, say,
    sort_outcome,
};
use ferry::sync::plan::{SyncEvent, SyncEventKind, SyncIssue, SyncOutcome};
use ferry::sync::planning::PlannedRemoteSource;
use ferry::text::{
    contains_text, decimal_of, decimal_u64, display, escape, read_number, same_ignoring_case,
    split_slashes, trim, Number,
};
use ferry::transfer_temp::{
    is_reserved_transfer_temp, local_transfer_candidate, transfer_candidate,
};
use ferry::walk::safe_rel;

fn at(secs: i64) -> Timestamp {
    Timestamp { secs, nanos: 0 }
}

fn some(text: &str) -> Option<String> {
    Some(text.to_string())
}

#[test]
fn escaped_text_is_printable_ascii() {
    assert_eq!(escape("plain"), "plain");
    assert_eq!(escape("a\tb\r\n"), "a\\tb\\r\\n");
    assert_eq!(escape("\u{1b}[31m"), "\\u{1b}[31m");
    assert_eq!(escape("é"), "\\u{e9}");
    assert!(escape("\0\u{7f}\u{9b}").chars().all(|c| c.is_ascii_graphic()));
}

#[test]
fn displayed_text_keeps_everything_but_controls() {
    assert_eq!(display("straße – ok"), "straße – ok");
    assert!(!display("a\u{1b}b\u{9b}c\u{7f}").chars().any(char::is_control));
}

#[test]
fn numbers_are_written_and_read_in_decimal() {
    assert_eq!(decimal_of(0), "0");
    assert_eq!(decimal_of(1203), "1203");
    assert_eq!(decimal_u64(u64::MAX), "18446744073709551615");
    assert!(matches!(read_number("42"), Number::Known(42)));
    assert!(matches!(read_number("4a"), Number::Nothing));
    assert!(matches!(read_number(""), Number::Nothing));
    assert!(matches!(read_number("99999999999999999999999"), Number::TooLarge));
}

#[test]
fn text_is_split_trimmed_and_searched() {
    assert_eq!(split_slashes("a//b"), vec!["a", "", "b"]);
    assert_eq!(split_slashes(""), vec![""]);
    assert_eq!(trim(" \t a b\n"), "a b");
    assert!(contains_text("needle in hay", "in"));
    assert!(contains_text("x", ""));
    assert!(!contains_text("x", "xy"));
    assert!(same_ignoring_case("Quit", "qUIT"));
    assert!(!same_ignoring_case("quit", "quiet"));
}

#[test]
fn paths_come_in_the_order_of_their_text() {
    assert!(precedes("a", "b"));
    assert!(precedes("a", "a/b"));
    assert!(precedes("a-b", "a/b"));
    assert!(!precedes("b", "b"));
    let mut set = PathSet::new();
    for path in ["b", "a/c", "a", "b"] {
        set.insert(path.to_string());
    }
    assert_eq!((0..set.len()).map(|i| set.key(i).as_str()).collect::<Vec<_>>(), ["a", "a/c", "b"]);
    assert!(set.contains("a/c"));
    assert!(!set.contains("c"));
}

#[test]
fn a_map_holds_the_last_value_of_a_path() {
    let mut map = PathMap::new();
    map.insert("b".to_string(), 1u64);
    map.insert("a".to_string(), 2);
    map.insert("b".to_string(), 3);
    assert_eq!(map.len(), 2);
    assert_eq!(map.get("b"), Some(&3));
    assert_eq!(map.get("c"), None);
    assert_eq!((map.key(0).as_str(), *map.item(0)), ("a", 2));
}

#[test]
fn containment_is_decided_at_segments() {
    assert!(is_below("a/b", "a"));
    assert!(!is_below("a", "a"));
    assert!(is_at_or_below("a", "a"));
    assert!(!is_at_or_below("ab", "a"));
    let scope = SyncScope::Path("area".to_string());
    assert!(scope_contains(&scope, "area/x.c"));
    assert!(!scope_contains(&scope, "area-old/x.c"));
    assert!(scope_contains(&SyncScope::RootDirectory, "anything"));
    assert!(is_state_path(".ferry/state.json"));
    assert!(!is_state_path(".ferry-old/x.c"));
}

#[test]
fn paths_are_joined_below_their_parent() {
    assert_eq!(join_relative("", "x"), "x");
    assert_eq!(join_relative("a/b", "x"), "a/b/x");
    assert_eq!(remote_path_join("/", "x"), "/x");
    assert_eq!(remote_path_join("/remote", "x"), "/remote/x");
    assert_eq!(leaf_of("a/b/c.c"), "c.c");
    assert_eq!(leaf_of("c.c"), "c.c");
    assert_eq!(normalize_remote_root("/remote//").unwrap(), "/remote");
    assert_eq!(normalize_remote_root("///").unwrap(), "/");
    assert!(normalize_remote_root("").is_err());
}

#[test]
fn only_canonical_paths_are_relative_paths() {
    assert!(is_canonical("a/b.c"));
    for path in ["", "/a", "a/", "a//b", "./a", "a/../b", "a/."] {
        assert!(!is_canonical(path), "{path:?}");
    }
    assert!(validate_relative_path("a/b.c").is_ok());
    assert!(validate_relative_path("../b.c").is_err());
    assert!(validate_state_path_key("a/b.c").is_ok());
    let error = validate_state_path_key("a\nb").unwrap_err();
    assert!(error.full_message().contains("unsafe path key"));
    assert!(!error.full_message().chars().any(char::is_control));
}

#[test]
fn a_destination_lies_below_the_remote_root() {
    assert_eq!(relative_remote_destination("/remote", "/remote/a/b").unwrap(), "a/b");
    assert_eq!(relative_remote_destination("/", "/a").unwrap(), "a");
    assert!(relative_remote_destination("/remote", "/remote-old/a").is_err());
    assert!(relative_remote_destination("/remote", "/remote/../a").is_err());
}

#[test]
fn a_transfer_name_is_reserved_and_lies_beside_its_target() {
    let nonce = "0123456789abcdef0123456789abcdef";
    let temp = transfer_candidate("/remote/a/page.txt", nonce).unwrap();
    assert_eq!(temp, format!("/remote/a/.page.txt.ferry-tmp.{nonce}"));
    assert!(is_reserved_transfer_temp(&temp));
    assert!(!is_reserved_transfer_temp("/remote/a/page.txt"));
    assert!(transfer_candidate("/remote/a/", nonce).is_err());
    assert!(transfer_candidate("/remote/a/page.txt", "0123").is_err());
    assert!(transfer_candidate("/remote/a/page.txt", &nonce.to_uppercase()).is_err());
}

#[test]
fn a_file_stands_as_its_hashes_say() {
    let cases = [
        (Some("a"), Some("a"), Some("a"), FileState::InSync),
        (Some("b"), Some("a"), Some("a"), FileState::LocalChanged),
        (Some("a"), Some("b"), Some("a"), FileState::RemoteChanged),
        (Some("b"), Some("c"), Some("a"), FileState::BothChanged),
        (Some("a"), None, None, FileState::LocalOnly),
        (None, Some("a"), None, FileState::RemoteOnly),
        (Some("a"), Some("a"), None, FileState::Untracked),
        (Some("a"), Some("b"), None, FileState::Untracked),
    ];
    for (local, remote, known, expected) in cases {
        let owned = |hash: Option<&str>| hash.map(str::to_string);
        assert_eq!(classify(&owned(local), &owned(remote), &owned(known)), expected);
    }
}

#[test]
fn a_record_gives_its_hash_back_for_the_same_time_and_size() {
    let mut state = StateFile::new();
    assert_eq!(state.known_hash("a.c"), None);
    state.record("a.c", "hash", 3, at(7), at(9));
    assert_eq!(state.known_hash("a.c"), some("hash"));
    assert_eq!(state.cached_hash("a.c", at(7), 3), some("hash"));
    assert_eq!(state.cached_hash("a.c", at(8), 3), None);
    assert_eq!(state.cached_hash("a.c", at(7), 4), None);
    let before = state.copy();
    assert!(!state.differs(&before));
    state.record("a.c", "other", 3, at(7), at(9));
    assert!(state.differs(&before));
    assert_eq!(
        before.files.get("a.c"),
        Some(&FileRecord {
            sha256: "hash".to_string(),
            size: 3,
            remote_mtime: at(7),
            last_synced: at(9),
        })
    );
}

#[test]
fn a_recorded_file_is_in_sync_until_a_side_changes() {
    let mut state = StateFile::new();
    state.record("other.c", "other", 1, at(1), at(2));
    state.record("a.c", "hash", 3, at(7), at(9));
    let known = state.known_hash("a.c");
    assert_eq!(classify(&some("hash"), &some("hash"), &known), FileState::InSync);
    assert_eq!(classify(&some("edit"), &some("hash"), &known), FileState::LocalChanged);
    assert_eq!(classify(&some("hash"), &some("edit"), &known), FileState::RemoteChanged);
    assert_eq!(state.known_hash("other.c"), some("other"));
}

#[test]
fn a_hash_is_the_lower_case_sha256_of_the_bytes() {
    assert_eq!(
        hash_bytes(&Vec::new()),
        "e3b0c44298fc1c149afbf4c8996fb92427ae41e4649b934ca495991b7852b855"
    );
    assert_eq!(
        hash_bytes(&b"abc".to_vec()),
        "ba7816bf8f01cfea414140de5dae2223b00361a396177a9cb410ff61f20015ad"
    );
}

#[test]
fn a_remembered_hash_needs_the_remembered_metadata() {
    let mut state = StateFile::new();
    state.record("a.c", "hash", 3, at(7), at(9));
    let metadata = RemoteMetadata { mtime: at(7), size: 3 };
    let hash = remembered_hash(&state, "a.c", metadata).unwrap();
    assert_eq!(hash.sha256, "hash");
    assert!(hash.metadata_stable);
    assert!(hash.bytes.is_none());
    assert!(remembered_hash(&state, "b.c", metadata).is_none());
    assert!(remembered_hash(&state, "a.c", RemoteMetadata { mtime: at(7), size: 4 }).is_none());
}

#[test]
fn a_fetched_hash_is_stable_where_the_server_says_the_same_twice() {
    let metadata = RemoteMetadata { mtime: at(7), size: 3 };
    let fetch = |before, after| fetched_hash("/remote/a.c", b"abc".to_vec(), before, after, at(99));

    let stable = fetch(Some(metadata), Some(metadata)).unwrap();
    assert!(stable.metadata_stable);
    assert_eq!((stable.mtime, stable.size), (at(7), 3));
    assert_eq!(stable.sha256, hash_bytes(&b"abc".to_vec()));

    let unknown = fetch(None, None).unwrap();
    assert!(!unknown.metadata_stable);
    assert_eq!(unknown.mtime, at(99));
    assert!(!fetch(Some(metadata), None).unwrap().metadata_stable);
    assert_eq!(fetch(None, Some(metadata)).unwrap().mtime, at(7));

    let other = RemoteMetadata { mtime: at(8), size: 3 };
    let error = fetch(Some(metadata), Some(other)).unwrap_err();
    assert_eq!(error.full_message(), "remote changed while retrieving \"/remote/a.c\"");
    let short = RemoteMetadata { mtime: at(7), size: 2 };
    assert!(!fetch(Some(short), Some(short)).unwrap().metadata_stable);
}

#[test]
fn a_planned_source_matches_the_same_content_at_the_same_time() {
    let metadata = Some(RemoteMetadata { mtime: at(7), size: 3 });
    let later = Some(RemoteMetadata { mtime: at(8), size: 3 });
    let fetch = |bytes: &[u8], metadata| {
        fetched_hash("/remote/a.c", bytes.to_vec(), metadata, metadata, at(99)).unwrap()
    };
    let planned = PlannedRemoteSource::capture(&fetch(b"abc", metadata));
    assert!(planned.matches(&fetch(b"abc", metadata)));
    assert!(!planned.matches(&fetch(b"abd", metadata)));
    assert!(!planned.matches(&fetch(b"abc", later)));
    assert!(!planned.matches(&fetch(b"abc", None)));
    let unstable = PlannedRemoteSource::capture(&fetch(b"abc", None));
    assert!(unstable.matches(&fetch(b"abc", later)));
}

#[test]
fn failures_end_the_process_by_their_kind() {
    let error = Error::failure_from("outer".to_string(), "inner");
    assert_eq!(error.full_message(), "outer: inner");
    assert_eq!(error.exit.code(), 1);
    let conflict = Error::conflict("clash".to_string()).context("push a.c".to_string());
    assert_eq!(conflict.full_message(), "push a.c: clash");
    assert_eq!(conflict.exit, Exit::Conflict);
    assert_eq!(conflict.exit.code(), 2);
    assert_eq!(Exit::Auth.code(), 3);
}

fn event(path: &str, kind: SyncEventKind) -> SyncEvent {
    SyncEvent { path: path.to_string(), kind }
}

fn clash(path: &str) -> SyncIssue {
    let path = path.to_string();
    SyncIssue::TypeConflict { path, local: EntryKind::File, remote: EntryKind::Directory }
}

#[test]
fn an_outcome_is_shown_in_the_order_of_its_paths() {
    let outcome = sort_outcome(SyncOutcome {
        events: vec![
            event("b.c", SyncEventKind::Uploaded),
            event("a.c", SyncEventKind::Downloaded),
        ],
        issues: vec![],
        cancelled: false,
    });
    assert_eq!(outcome.events[0].path, "a.c");
    assert!(outcome_error(&outcome).is_none());

    let (lines, error) = render_outcome(&outcome, ExecutionMode::DryRun);
    assert!(error.is_none());
    assert_eq!(lines, vec![say("would download a.c".into()), say("would upload b.c".into())]);
}

#[test]
fn an_issue_fails_an_outcome() {
    let diverged =
        SyncIssue::FileConflict { path: "a.c".to_string(), state: FileState::BothChanged };
    let outcome = SyncOutcome { events: vec![], issues: vec![diverged], cancelled: false };
    let (lines, error) = render_outcome(&outcome, ExecutionMode::Apply);
    assert_eq!(error.unwrap().exit, Exit::Conflict);
    assert_eq!(
        lines,
        vec![note(
            "conflict (BothChanged, local and remote diverged): a.c — pass --force to take local"
                .into()
        )]
    );

    let outcome = SyncOutcome { events: vec![], issues: vec![clash("a.c")], cancelled: false };
    let (lines, error) = render_outcome(&outcome, ExecutionMode::Apply);
    assert_eq!(error.unwrap().exit, Exit::General);
    assert_eq!(
        lines,
        vec![note("type conflict: a.c is File locally and Directory remotely".into())]
    );
}

#[test]
fn a_cancelled_outcome_keeps_what_was_done() {
    let outcome = cancelled_sync_outcome(SyncOutcome {
        events: vec![event("a.c", SyncEventKind::Uploaded)],
        issues: vec![],
        cancelled: false,
    });
    assert!(outcome.cancelled);
    assert_eq!(outcome.events.len(), 1);
    assert!(note("x".into()).to_stderr);
}

#[test]
fn a_selection_needs_a_terminal_on_both_ends() {
    assert!(require_interactive_terminal(true, true).is_ok());
    assert!(require_interactive_terminal(false, true).is_err());
    assert!(require_interactive_terminal(true, false).is_err());
}

#[test]
fn local_paths_are_joined_as_the_file_system_takes_them() {
    assert_eq!(join("", "a"), "a");
    assert_eq!(join("/", "a/b"), "/a/b");
    assert_eq!(join("/project", "a"), "/project/a");
    assert_eq!(join("/project/", "a"), "/project/a");
    assert_eq!(join("project//", "a"), "project//a");
    assert_eq!(join("/project", "/etc"), "/etc");
    assert_eq!(join(".", "a"), "./a");
    assert_eq!(join("a", ""), "a/");
}

#[test]
fn the_last_name_of_a_local_path_passes_over_what_says_nothing() {
    for (path, name) in [
        ("/a/b", some("b")),
        ("/a/b/", some("b")),
        ("a//", some("a")),
        ("a/.", some("a")),
        ("a/././/", some("a")),
        ("./a", some("a")),
        (".a", some(".a")),
        ("..a", some("..a")),
        ("a/..", None),
        ("a/../", None),
        ("..", None),
        (".", None),
        ("./", None),
        ("/", None),
        ("//", None),
        ("/.", None),
        ("", None),
    ] {
        assert_eq!(file_name_of(path), name, "{path}");
        let expected = std::path::Path::new(path).file_name();
        assert_eq!(name.as_deref(), expected.and_then(|name| name.to_str()), "{path}");
    }
}

#[test]
fn the_directory_of_a_local_path_passes_over_what_says_nothing() {
    for (path, above) in [
        ("/a/b", some("/a")),
        ("/a/b/", some("/a")),
        ("a//b", some("a")),
        ("a/./b", some("a")),
        ("a/b/.", some("a")),
        ("a/..", some("a")),
        ("a", some("")),
        ("./a", some(".")),
        (".", some("")),
        ("/a", some("/")),
        ("//a", some("/")),
        ("/./a", some("/")),
        ("..", some("")),
        ("/", None),
        ("/.", None),
        ("", None),
    ] {
        assert_eq!(parent_of(path), above, "{path}");
        let expected = std::path::Path::new(path).parent();
        assert_eq!(above.as_deref(), expected.and_then(|above| above.to_str()), "{path}");
    }
    assert_eq!(ancestors_of("/a/b/c"), ["/a/b", "/a", "/"]);
    assert_eq!(ancestors_of("a/b"), ["a"]);
    assert!(ancestors_of("a").is_empty());
}

#[test]
fn local_temps_lie_beside_their_target() {
    let nonce = "0123456789abcdef0123456789abcdef";
    let temp = local_transfer_candidate("/project/page.txt/", nonce).unwrap();
    assert_eq!(temp, format!("/project/.page.txt.ferry-tmp.{nonce}"));
    assert!(is_reserved_transfer_temp(&temp));
    assert_eq!(
        local_transfer_candidate("page.txt", nonce).unwrap(),
        format!(".page.txt.ferry-tmp.{nonce}")
    );
    assert_eq!(
        local_transfer_candidate("/project/..", nonce).unwrap_err().message,
        "transfer target has no file name"
    );
    assert_eq!(
        local_transfer_candidate("/project/page.txt", "short").unwrap_err().message,
        "invalid transfer nonce"
    );
}

#[test]
fn sorting_keeps_the_order_of_equal_paths_and_settles_at_once() {
    let events = || {
        vec![
            event("b.c", SyncEventKind::Uploaded),
            event("a.c", SyncEventKind::Downloaded),
            event("b.c", SyncEventKind::Unchanged),
            event("a.c", SyncEventKind::Uploaded),
        ]
    };
    let outcome = SyncOutcome { events: events(), issues: vec![], cancelled: false };
    let once = sort_outcome(outcome);
    let sorted = vec![
        event("a.c", SyncEventKind::Downloaded),
        event("a.c", SyncEventKind::Uploaded),
        event("b.c", SyncEventKind::Uploaded),
        event("b.c", SyncEventKind::Unchanged),
    ];
    assert_eq!(once.events, sorted);
    assert_eq!(sort_outcome(once).events, sorted);
}

#[test]
fn a_joined_remote_path_is_found_below_its_root_again() {
    for root in ["/", "/remote", "/remote/area"] {
        let path = remote_path_join(root, "a/b.c");
        assert_eq!(relative_remote_destination(root, &path).unwrap(), "a/b.c");
    }
    assert_eq!(
        relative_remote_destination("/remote", "/remote/a\u{1b}").unwrap_err().message,
        "unsafe remote destination"
    );
}

#[test]
fn a_safe_path_names_itself() {
    for path in ["./src/x.html", "src/old/", ".//x", "././a//", "."] {
        if let Ok(rel) = safe_rel(path) {
            assert_eq!(safe_rel(&rel).unwrap(), rel, "{path}");
        }
    }
    assert_eq!(safe_rel("././a//").unwrap(), "a");
}

#[test]
fn quoted_messages_hold_no_control_character() {
    let error = validate_relative_path("a/../\u{1b}\u{9b}\u{7f}\n").unwrap_err();
    assert!(error.message.starts_with("unsafe scoped path \"a/../\\u{1b}\\u{9b}\\u{7f}\\n\""));
    assert!(!error.message.chars().any(char::is_control));
    let error = strict_remote_child_name("/remote\r", "a\u{0}").unwrap_err();
    assert_eq!(error.message, "unsafe remote entry in \"/remote\\r\"");
}
