//! Snapshots and probes of remote destinations, and what a local path is expected
//! to stay.

use ferry::error::Error;
use ferry::file_transfer::{
    probe_remote_file, snapshot_remote_destination, AnchorFacts, LeafFacts, LocalLeafKind,
    LocalPathExpectation, PathProbe, RemoteDestinationSnapshot, RemotePresence, RemoteProbe,
    SnapshotProgress, TransferOutcome, TransferStatus,
};
use ferry::ftp::{copy_entry, Entry, ExactFilePresence, Timestamp};
use ferry::hash::hash_bytes;
use ferry::paths::normalize_remote_root;
use std::collections::BTreeMap;

const NOON: Timestamp = Timestamp { secs: 1786363200, nanos: 0 };

struct ScriptedRemote {
    size: Option<Result<u64, Error>>,
    exact: Option<Result<ExactFilePresence, Error>>,
}

fn failure(text: &str) -> Error {
    Error::failure(text.to_string())
}

fn probe(remote: &mut ScriptedRemote, path: &str) -> Result<RemotePresence, Error> {
    match probe_remote_file(path, remote.size.take().expect("one SIZE call")) {
        RemoteProbe::Settled(presence) => Ok(presence),
        RemoteProbe::LookUp(pending) => {
            pending.settle(remote.exact.take().expect("one exact probe call"))
        }
    }
}

#[derive(Default)]
struct ScriptedDestinationRead {
    listings: BTreeMap<String, Vec<Entry>>,
    downloads: BTreeMap<String, Vec<u8>>,
    events: Vec<String>,
}

fn snapshot(
    remote: &mut ScriptedDestinationRead,
    root: &str,
    path: &str,
) -> Result<RemoteDestinationSnapshot, Error> {
    let mut progress = snapshot_remote_destination(root, path);
    loop {
        progress = match progress {
            SnapshotProgress::Settled(result) => return result,
            SnapshotProgress::Next(run) => match run.directory() {
                Some(directory) => {
                    remote.events.push(format!("list {directory}"));
                    let reply = match remote.listings.get(&directory) {
                        Some(entries) => Ok(entries.iter().map(copy_entry).collect()),
                        None => Err(failure(&format!("unexpected LIST {directory}"))),
                    };
                    run.on_listing(reply)
                }
                None => {
                    let path = run.path.clone();
                    remote.events.push(format!("download {path}"));
                    let reply = match remote.downloads.get(&path) {
                        Some(bytes) => Ok(bytes.clone()),
                        None => Err(failure(&format!("unexpected RETR {path}"))),
                    };
                    run.on_content(reply)
                }
            },
        };
    }
}

fn destination_entry(name: &str, is_dir: bool, bytes: &[u8], modified: Timestamp) -> Entry {
    Entry {
        name: name.to_string(),
        is_dir,
        is_symlink: false,
        size: bytes.len() as u64,
        modified,
    }
}

fn symlink_entry(name: &str) -> Entry {
    Entry {
        name: name.to_string(),
        is_dir: false,
        is_symlink: true,
        size: 8,
        modified: NOON,
    }
}

#[test]
fn a_symlink_leaf_destination_is_refused_rather_than_reported_missing() {
    let mut remote = ScriptedDestinationRead::default();
    remote
        .listings
        .insert("/root".into(), vec![symlink_entry("secrets.c")]);

    let error = snapshot(&mut remote, "/root", "/root/secrets.c").unwrap_err();

    assert!(error.full_message().contains("remote destination is a symlink"));
}

#[test]
fn a_symlink_parent_segment_is_refused_before_descending_into_it() {
    let mut remote = ScriptedDestinationRead::default();
    remote
        .listings
        .insert("/root".into(), vec![symlink_entry("nested")]);

    let error = snapshot(&mut remote, "/root", "/root/nested/page.txt").unwrap_err();

    assert!(error.full_message().contains("symlink"));
    // The traversal must stop at the link, never list through it.
    assert_eq!(remote.events, ["list /root"]);
}

#[test]
fn a_symlink_refusal_message_carries_no_control_characters() {
    let mut remote = ScriptedDestinationRead::default();
    remote
        .listings
        .insert("/root".into(), vec![symlink_entry("secrets.c")]);

    let error = snapshot(&mut remote, "/root", "/root/secrets.c").unwrap_err();

    assert!(!error.full_message().chars().any(char::is_control));
}

#[test]
fn configured_relative_remote_root_is_preserved() {
    assert_eq!(normalize_remote_root("public_html").unwrap(), "public_html");
}

#[test]
fn configured_dot_remote_root_is_preserved() {
    assert_eq!(normalize_remote_root(".").unwrap(), ".");
}

#[test]
fn relative_remote_root_strictly_traverses_and_hashes_the_destination() {
    let bytes = b"remote bytes";
    let mut remote = ScriptedDestinationRead::default();
    remote.listings.insert(
        "public_html".into(),
        vec![destination_entry("nested", true, b"", NOON)],
    );
    remote.listings.insert(
        "public_html/nested".into(),
        vec![destination_entry("page.txt", false, bytes, NOON)],
    );
    remote
        .downloads
        .insert("public_html/nested/page.txt".into(), bytes.to_vec());

    let found = snapshot(&mut remote, "public_html", "public_html/nested/page.txt").unwrap();

    assert_eq!(
        found,
        RemoteDestinationSnapshot::File {
            size: bytes.len() as u64,
            modified: NOON,
            sha256: hash_bytes(&bytes.to_vec()),
        }
    );
    assert_eq!(
        remote.events,
        [
            "list public_html",
            "list public_html/nested",
            "download public_html/nested/page.txt",
            "list public_html",
            "list public_html/nested",
        ]
    );
}

#[test]
fn dot_remote_root_strictly_snapshots_without_server_root_assumption() {
    let bytes = b"dot-root bytes";
    let modified = Timestamp { secs: NOON.secs + 60, nanos: 0 };
    let mut remote = ScriptedDestinationRead::default();
    remote.listings.insert(
        ".".into(),
        vec![destination_entry("page.txt", false, bytes, modified)],
    );
    remote.downloads.insert("./page.txt".into(), bytes.to_vec());

    let found = snapshot(&mut remote, ".", "./page.txt").unwrap();

    assert_eq!(
        found,
        RemoteDestinationSnapshot::File {
            size: bytes.len() as u64,
            modified,
            sha256: hash_bytes(&bytes.to_vec()),
        }
    );
    assert_eq!(remote.events, ["list .", "download ./page.txt", "list ."]);
}

#[test]
fn relative_remote_root_rejects_a_destination_outside_its_boundary() {
    let mut remote = ScriptedDestinationRead::default();

    let error =
        snapshot(&mut remote, "public_html", "public_html-elsewhere/page.txt").unwrap_err();

    assert!(error.full_message().contains("outside configured remote root"));
    assert!(remote.events.is_empty());
}

#[test]
fn a_destination_that_changes_while_it_is_read_is_refused() {
    let mut remote = ScriptedDestinationRead::default();
    remote.listings.insert(
        "/root".into(),
        vec![destination_entry("page.txt", false, b"four", NOON)],
    );
    remote.downloads.insert("/root/page.txt".into(), b"longer".to_vec());

    let error = snapshot(&mut remote, "/root", "/root/page.txt").unwrap_err();

    assert!(error.full_message().contains("changed while hashing"));
}

#[test]
fn a_missing_destination_and_a_directory_are_told_apart() {
    let mut remote = ScriptedDestinationRead::default();
    remote
        .listings
        .insert("/root".into(), vec![destination_entry("sub", true, b"", NOON)]);

    assert_eq!(
        snapshot(&mut remote, "/root", "/root/gone").unwrap(),
        RemoteDestinationSnapshot::Missing
    );
    assert_eq!(
        snapshot(&mut remote, "/root", "/root/sub").unwrap(),
        RemoteDestinationSnapshot::Directory
    );
}

#[test]
fn outcome_keeps_the_relative_path_and_status() {
    assert_eq!(
        TransferOutcome::new("src/main.rs", TransferStatus::Transferred),
        TransferOutcome {
            path: "src/main.rs".to_string(),
            status: TransferStatus::Transferred,
        }
    );
}

#[test]
fn size_failure_falls_back_to_exact_lookup_for_an_existing_file() {
    let mut remote = ScriptedRemote {
        size: Some(Err(failure("SIZE unsupported"))),
        exact: Some(Ok(ExactFilePresence::Present)),
    };

    assert_eq!(
        probe(&mut remote, "/home/test/target.txt").unwrap(),
        RemotePresence::Present
    );
}

#[test]
fn size_failure_accepts_an_exact_lookup_of_the_full_file_path() {
    let mut remote = ScriptedRemote {
        size: Some(Err(failure("SIZE unsupported"))),
        exact: Some(Ok(ExactFilePresence::Present)),
    };

    assert_eq!(
        probe(&mut remote, "/home/test/target.txt").unwrap(),
        RemotePresence::Present
    );
}

#[test]
fn size_failure_exact_lookup_proves_a_file_is_missing() {
    let mut remote = ScriptedRemote {
        size: Some(Err(failure("SIZE unsupported"))),
        exact: Some(Ok(ExactFilePresence::Missing)),
    };

    assert_eq!(
        probe(&mut remote, "/home/test/target.txt").unwrap(),
        RemotePresence::Missing
    );
}

#[test]
fn size_and_exact_lookup_failure_is_indeterminate() {
    let mut remote = ScriptedRemote {
        size: Some(Err(failure("SIZE unsupported"))),
        exact: Some(Err(failure("NLST permission denied"))),
    };

    let error = probe(&mut remote, "/home/test/target.txt").unwrap_err();

    assert!(error.full_message().contains("SIZE unsupported"));
    assert!(error.full_message().contains("NLST permission denied"));
}

#[test]
fn incomplete_exact_lookup_cannot_prove_file_absence() {
    let mut remote = ScriptedRemote {
        size: Some(Err(failure("SIZE unsupported"))),
        exact: Some(Err(failure("NLST malformed response"))),
    };

    let error = probe(&mut remote, "/home/test/target.txt").unwrap_err();

    assert!(error.full_message().contains("NLST malformed response"));
}

#[test]
fn a_size_proves_that_a_file_is_there() {
    let mut remote = ScriptedRemote { size: Some(Ok(7)), exact: None };
    assert_eq!(
        probe(&mut remote, "/home/test/target.txt").unwrap(),
        RemotePresence::Present
    );
}

#[test]
fn content_is_hashed_by_sha256() {
    assert_eq!(
        hash_bytes(&b"abc".to_vec()),
        "ba7816bf8f01cfea414140de5dae2223b00361a396177a9cb410ff61f20015ad"
    );
}

fn anchor(canonical: &str, identity: u64) -> AnchorFacts {
    AnchorFacts { canonical: canonical.to_string(), is_dir: true, identity }
}

fn probe_of(leaf: Option<LeafFacts>) -> PathProbe {
    PathProbe {
        root: Ok(anchor("/real/project", 1)),
        parent: Ok(anchor("/real/project/sub", 2)),
        leaf: Ok(leaf),
    }
}

fn file_facts(identity: u64, content: &[u8]) -> LeafFacts {
    LeafFacts {
        is_symlink: false,
        is_file: true,
        is_dir: false,
        canonical: "/real/project/sub/file.c".to_string(),
        identity,
        size: content.len() as u64,
        modified: NOON,
        sha256: Some(hash_bytes(&content.to_vec())),
    }
}

#[test]
fn a_local_path_is_expected_to_stay_what_it_was() {
    let expected = LocalPathExpectation::capture(
        "/project",
        "/project/sub/file.c",
        probe_of(Some(file_facts(7, b"content"))),
    )
    .unwrap();
    assert_eq!(expected.resolved_path(), "/real/project/sub/file.c");
    assert!(expected.is_file_or_missing());
    assert!(matches!(
        expected.entry,
        ferry::file_transfer::LocalEntrySnapshot::Present(ref found)
            if found.kind == LocalLeafKind::RegularFile
    ));

    assert!(expected.verify_unchanged(probe_of(Some(file_facts(7, b"content")))).is_ok());
    let replaced = expected.verify_unchanged(probe_of(Some(file_facts(8, b"content"))));
    assert_eq!(replaced.unwrap_err().message, "local entry changed");
    assert!(expected.verify_unchanged(probe_of(Some(file_facts(7, b"changed")))).is_err());
    assert!(expected.verify_unchanged(probe_of(None)).is_err());

    let mut moved = probe_of(Some(file_facts(7, b"content")));
    moved.parent = Ok(anchor("/real/project/sub", 3));
    assert!(expected.verify_unchanged(moved).is_err());
}

#[test]
fn a_local_path_that_leaves_the_root_is_refused() {
    let mut facts = file_facts(7, b"content");
    facts.canonical = "/elsewhere/file.c".to_string();
    let error = LocalPathExpectation::capture(
        "/project",
        "/project/sub/file.c",
        probe_of(Some(facts)),
    )
    .unwrap_err();
    assert!(error.full_message().contains("resolves outside local root"));
}

#[test]
fn a_supplied_path_must_be_the_captured_one() {
    let expected =
        LocalPathExpectation::capture("/project", "/project/sub/file.c", probe_of(None)).unwrap();
    let parent = || Ok(anchor("/real/project/sub", 2));
    assert!(expected.verify_supplied_path("/project/sub/file.c", parent()).is_ok());
    assert!(expected.verify_supplied_path("/project/sub/other.c", parent()).is_err());
    let elsewhere = Ok(anchor("/real/project/other", 5));
    assert!(expected.verify_supplied_path("/project/sub/file.c", elsewhere).is_err());
}
