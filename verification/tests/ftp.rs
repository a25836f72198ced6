//! Listings, exact lookups and the messages of refused requests.

use ferry::error::{Error, Exit};
use ferry::ftp::{
    connect_error, creation_site_of, exact_nlst_presence, login_error, mkdir,
    parse_listing_records, parse_listing_strict, parse_listing_tolerant,
    scoped_download_transport_error, scoped_mtime_transport_error, scoped_rename_transport_error,
    scoped_rm_transport_error, scoped_size_transport_error, scoped_upload_transport_error,
    strict_list_transport_error, strict_mkdir_transport_error, Entry, ExactFilePresence, Timestamp,
};

const VALID_POSIX_FILE: &str = "-rw-r--r-- 1 owner group 42 Jan 1 2000 file.txt";
const VALID_POSIX_DIRECTORY: &str = "drwxr-xr-x 2 owner group 4096 Jan 1 2000 subdir";

fn names(entries: &[Entry]) -> Vec<&str> {
    entries.iter().map(|entry| entry.name.as_str()).collect()
}

fn directory(name: &str) -> Entry {
    Entry {
        name: name.to_string(),
        is_dir: true,
        is_symlink: false,
        size: 0,
        modified: Timestamp { secs: 0, nanos: 0 },
    }
}

#[test]
fn strict_listing_transport_error_omits_server_response() {
    let error = strict_list_transport_error("/root");
    let message = error.full_message();

    assert!(message.contains("ftp list /root"));
    assert!(!message.contains('\u{1b}'));
    assert!(!message.contains("attacker-reply"));
    assert!(message.contains("remote listing failed"));
}

#[test]
fn strict_mkdir_transport_error_omits_server_response_and_escapes_path() {
    let error = strict_mkdir_transport_error("/root/unsafe\nname");
    let message = error.full_message();

    assert!(message.contains("ftp mkdir /root/unsafe\\nname"));
    assert!(!message.contains('\n'));
    assert!(!message.contains('\u{1b}'));
    assert!(!message.contains("attacker-reply"));
    assert!(message.contains("remote create failed"));
}

#[test]
fn scoped_transfer_errors_drop_every_raw_server_reply_and_escape_paths() {
    let errors = [
        scoped_download_transport_error("/root/unsafe\nname"),
        scoped_upload_transport_error("/root/unsafe\nname"),
        scoped_mtime_transport_error("/root/unsafe\nname"),
        scoped_size_transport_error("/root/unsafe\nname"),
        scoped_rename_transport_error("/root/from\nname", "/root/to\nname"),
        scoped_rm_transport_error("/root/unsafe\nname"),
    ];

    for error in errors {
        let message = error.full_message();
        assert!(message.contains("ftp scoped"), "{message}");
        assert!(message.contains("\\n"), "{message}");
        assert!(!message.contains('\n'), "{message}");
        assert!(!message.contains('\u{1b}'), "{message}");
        assert!(!message.contains("attacker-reply"), "{message}");
        assert!(!message.contains("second-line"), "{message}");
    }
}

#[test]
fn strict_listing_rejects_one_malformed_line_among_valid_entries() {
    let lines = vec![
        VALID_POSIX_FILE.to_string(),
        "\u{1b}[31mmalformed".to_string(),
        VALID_POSIX_DIRECTORY.to_string(),
    ];

    let error = parse_listing_strict("/root", &lines).unwrap_err();
    let message = error.full_message();

    assert!(message.contains("ftp list /root"));
    assert!(message.contains("record 1"));
    assert!(!message.contains('\u{1b}'));
    assert!(!message.contains("malformed"));
}

#[test]
fn strict_listing_accounts_for_blank_dot_and_dotdot_records() {
    let lines = vec![
        String::new(),
        " \t".to_string(),
        "drwxr-xr-x 2 owner group 4096 Jan 1 2000 .".to_string(),
        "drwxr-xr-x 2 owner group 4096 Jan 1 2000 ..".to_string(),
        VALID_POSIX_FILE.to_string(),
    ];

    let entries = parse_listing_strict("/root", &lines).unwrap();

    assert_eq!(names(&entries), vec![".", "..", "file.txt"]);
}

#[test]
fn tolerant_listing_drops_malformed_records_for_legacy_callers() {
    let lines = vec![
        VALID_POSIX_FILE.to_string(),
        "\u{1b}[31mmalformed".to_string(),
        VALID_POSIX_DIRECTORY.to_string(),
    ];

    let entries = parse_listing_tolerant(&lines);

    assert_eq!(names(&entries), vec!["file.txt", "subdir"]);
}

#[test]
fn strict_listing_skips_symlinks_while_tolerant_listing_stays_compatible() {
    const ATTACKER_LINK: &str = "lrwxrwxrwx 1 owner group 8 Jan 1 2000 link -> \u{1b}[31mtarget";
    let lines = vec![ATTACKER_LINK.to_string()];

    let strict_entries = parse_listing_strict("/root", &lines).unwrap();
    assert!(strict_entries.is_empty());

    let tolerant_entries = parse_listing_tolerant(&lines);
    assert_eq!(tolerant_entries.len(), 1);
    assert!(!tolerant_entries[0].is_dir);
}

#[test]
fn a_listing_for_the_write_paths_keeps_its_symlinks() {
    let lines = vec![
        VALID_POSIX_FILE.to_string(),
        "lrwxrwxrwx 1 owner group 8 Jan 1 2000 link -> target".to_string(),
    ];

    let entries = parse_listing_records("/root", &lines).unwrap();

    assert_eq!(names(&entries), vec!["file.txt", "link"]);
    assert!(entries[1].is_symlink);
    assert!(!entries[0].is_symlink);
}

#[test]
fn a_posix_record_is_read_with_its_name_kind_size_and_time() {
    let lines = vec![VALID_POSIX_FILE.to_string(), VALID_POSIX_DIRECTORY.to_string()];

    let entries = parse_listing_tolerant(&lines);

    assert_eq!(entries[0].name, "file.txt");
    assert!(!entries[0].is_dir);
    assert_eq!(entries[0].size, 42);
    assert_eq!(entries[0].modified, Timestamp { secs: 946684800, nanos: 0 });
    assert!(entries[1].is_dir);
    assert_eq!(entries[1].size, 4096);
}

#[test]
fn exact_nlst_recognizes_a_hidden_requested_name() {
    assert_eq!(
        exact_nlst_presence("/home/test/.hidden", &[".hidden".to_string()]).unwrap(),
        ExactFilePresence::Present
    );
}

#[test]
fn exact_nlst_empty_response_proves_absence() {
    assert_eq!(
        exact_nlst_presence("/home/test/missing", &[]).unwrap(),
        ExactFilePresence::Missing
    );
}

#[test]
fn exact_nlst_rejects_unexpected_raw_lines() {
    let error = exact_nlst_presence("/home/test/target", &["not-the-target".to_string()]).unwrap_err();

    assert!(error.full_message().contains("unexpected exact-listing line"));
}

#[test]
fn exact_nlst_recognizes_the_full_path() {
    assert_eq!(
        exact_nlst_presence("/home/test/target", &["/home/test/target".to_string()]).unwrap(),
        ExactFilePresence::Present
    );
}

#[test]
fn a_refused_mkdir_is_no_failure_where_the_directory_is_listed() {
    assert_eq!(creation_site_of("/root/sub"), ("/root".to_string(), "sub".to_string()));
    assert_eq!(creation_site_of("/sub"), ("/".to_string(), "sub".to_string()));

    assert!(mkdir("/root/sub", None, None).is_ok());
    let refused = Some("550 exists".to_string());
    assert!(mkdir("/root/sub", refused, Some(vec![directory("sub")])).is_ok());

    let refused = Some("550 denied".to_string());
    assert!(mkdir("/root/sub", refused, Some(vec![directory("other")])).is_err());
    let refused = Some("550 denied".to_string());
    assert!(mkdir("/root/sub", refused, None).is_err());
}

#[test]
fn failed_connections_and_logins_say_how_the_process_exits() {
    let connect: Error = connect_error("example.invalid", 21, "refused");
    assert!(connect.full_message().contains("example.invalid:21"), "{}", connect.full_message());
    let login: Error = login_error("user", "530");
    assert_eq!(login.exit, Exit::Auth);
    assert!(login.full_message().contains("user"), "{}", login.full_message());
}

#[test]
fn a_listed_entry_carries_the_time_of_its_line() {
    let lines = vec![VALID_POSIX_FILE.to_string(), "unreadable".to_string()];
    let entries = parse_listing_tolerant(&lines);
    assert_eq!(entries.len(), 1);
    assert_eq!(entries[0].modified, Timestamp { secs: 946_684_800, nanos: 0 });
    assert_eq!(entries[0].size, 42);
}
