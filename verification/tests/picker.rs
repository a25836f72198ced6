//! The picker: what it shows, and what an answer at its prompt means.

use ferry::error::Error;
use ferry::ftp::{copy_entry, Entry, Timestamp};
use ferry::inventory::EntryKind;
use ferry::scope::SyncScope;
use ferry::sync::local_inventory::NodeFacts;
use ferry::sync::picker::{
    Answer, LocalListing, PickerEntry, PickerPhase, PickerRead, Presence, ProjectPickerSource,
    Selection,
};
use std::collections::{BTreeMap, BTreeSet, VecDeque};

#[derive(Default)]
struct FakeSource {
    directories: BTreeMap<String, Vec<(String, EntryKind, Presence)>>,
    listed: Vec<String>,
}

impl FakeSource {
    fn list(&mut self, directory: &str) -> Vec<PickerEntry> {
        self.listed.push(directory.to_string());
        self.directories
            .get(directory)
            .map(|found| {
                found
                    .iter()
                    .map(|(name, kind, presence)| entry(name, *kind, *presence))
                    .collect()
            })
            .unwrap_or_default()
    }
}

#[derive(Default)]
struct FakeIo {
    input: VecDeque<String>,
    output: Vec<String>,
    prompts: usize,
}

impl FakeIo {
    fn with_input(lines: &[&str]) -> Self {
        Self {
            input: lines.iter().map(|line| (*line).to_string()).collect(),
            ..Self::default()
        }
    }
}

fn select(source: &mut FakeSource, io: &mut FakeIo) -> Option<SyncScope> {
    let mut selection = Selection::select();
    loop {
        let current = selection.current.clone();
        let entries = source.list(&current);
        io.output.extend(selection.show(&entries));
        loop {
            io.prompts += 1;
            let answer = io.input.pop_front().unwrap_or_default();
            let answer = selection.on_answer(&answer);
            io.output.extend(answer.notice());
            match answer {
                Answer::Cancelled => return None,
                Answer::Chosen(scope) => return Some(scope),
                Answer::Show(_) => break,
                Answer::Again => {}
            }
        }
    }
}

fn entry(name: &str, kind: EntryKind, presence: Presence) -> PickerEntry {
    PickerEntry {
        name: name.to_string(),
        kind,
        presence,
    }
}

fn source(directories: &[(&str, &[(&str, EntryKind, Presence)])]) -> FakeSource {
    FakeSource {
        directories: directories
            .iter()
            .map(|(directory, entries)| {
                (
                    directory.to_string(),
                    entries
                        .iter()
                        .map(|(name, kind, presence)| (name.to_string(), *kind, *presence))
                        .collect(),
                )
            })
            .collect(),
        listed: Vec::new(),
    }
}

#[test]
fn choosing_exact_file_returns_one_path_selection() {
    let mut source = source(&[("", &[("smoke.c", EntryKind::File, Presence::Both)])]);
    let mut io = FakeIo::with_input(&["1", "unused"]);

    assert_eq!(
        select(&mut source, &mut io),
        Some(SyncScope::Path("smoke.c".into()))
    );
    assert_eq!(source.listed, [""]);
    assert_eq!(io.input, VecDeque::from(["unused".to_string()]));
    assert!(io.output.iter().any(|line| line.contains("(both)")));
}

#[test]
fn browses_remote_only_directory_then_syncs_that_folder() {
    let mut source = source(&[
        ("", &[("areas", EntryKind::Directory, Presence::Remote)]),
        ("areas", &[]),
    ]);
    let mut io = FakeIo::with_input(&["1", "0"]);

    assert_eq!(
        select(&mut source, &mut io),
        Some(SyncScope::Path("areas".into()))
    );
    assert_eq!(source.listed, ["", "areas"]);
    assert!(io.output.iter().any(|line| line.contains("areas (remote)")));
}

#[test]
fn root_folder_selection_is_explicit_root_directory() {
    let mut source = FakeSource::default();
    let mut io = FakeIo::with_input(&["0"]);

    assert_eq!(select(&mut source, &mut io), Some(SyncScope::RootDirectory));
}

#[test]
fn parent_navigation_is_nested_only_and_never_escapes_root() {
    let mut source = source(&[
        ("", &[("one", EntryKind::Directory, Presence::Both)]),
        ("one", &[("two", EntryKind::Directory, Presence::Both)]),
        ("one/two", &[]),
    ]);
    // root: one=1; one: parent=1, two=2; root again: one=1;
    // one again: two=2; one/two: parent=1; one: sync=0.
    let mut io = FakeIo::with_input(&["1", "1", "1", "2", "1", "0"]);

    assert_eq!(
        select(&mut source, &mut io),
        Some(SyncScope::Path("one".into()))
    );
    assert_eq!(source.listed, ["", "one", "", "one", "one/two", "one"]);
    assert_eq!(
        io.output
            .iter()
            .filter(|line| line.as_str() == "1. Parent")
            .count(),
        4
    );
    let root_visits = io
        .output
        .iter()
        .filter(|line| line.as_str() == "Current path: /")
        .count();
    assert_eq!(root_visits, 2);
}

#[test]
fn cancel_returns_none_without_another_selection() {
    let mut source = source(&[("", &[("smoke.c", EntryKind::File, Presence::Local)])]);
    // With one file at root, Cancel is item 2.
    let mut io = FakeIo::with_input(&["2", "1"]);

    assert_eq!(select(&mut source, &mut io), None);
    assert_eq!(source.listed, [""]);
    assert_eq!(io.input, VecDeque::from(["1".to_string()]));
    assert!(io.output.iter().any(|line| line.contains("(local)")));
}

#[test]
fn malformed_number_reprompts_without_relisting() {
    let mut source = source(&[("", &[("smoke.c", EntryKind::File, Presence::Local)])]);
    let mut io = FakeIo::with_input(&["not-a-number", "99", "1"]);

    assert_eq!(
        select(&mut source, &mut io),
        Some(SyncScope::Path("smoke.c".into()))
    );
    assert_eq!(source.listed, [""]);
    assert_eq!(io.prompts, 3);
}

#[test]
fn display_escapes_remote_control_characters_but_selection_keeps_name() {
    let hostile = "bad\n\u{1b}[31m.c";
    let mut source = source(&[("", &[(hostile, EntryKind::File, Presence::Remote)])]);
    let mut io = FakeIo::with_input(&["1"]);

    assert_eq!(
        select(&mut source, &mut io),
        Some(SyncScope::Path(hostile.into()))
    );
    let rendered = io.output.join("\n");
    assert!(!rendered.contains('\u{1b}'));
    assert!(!rendered.contains("bad\n"));
    assert!(rendered.contains(r"bad\n\x1b[31m.c"), "{rendered:?}");
}

#[test]
fn the_menu_is_shown_in_order() {
    let mut source = source(&[
        ("", &[("one", EntryKind::Directory, Presence::Both)]),
        (
            "one",
            &[
                ("z.c", EntryKind::File, Presence::Local),
                ("a", EntryKind::Directory, Presence::Remote),
            ],
        ),
    ]);
    let mut io = FakeIo::with_input(&["1", "3"]);

    assert_eq!(
        select(&mut source, &mut io),
        Some(SyncScope::Path("one/z.c".into()))
    );
    assert_eq!(
        io.output[4..],
        [
            "Current path: /one",
            "0. Sync this folder",
            "1. Parent",
            "2. [dir] a (remote)",
            "3. [file] z.c (local)",
            "4. Cancel",
        ]
    );
}

#[test]
fn every_way_to_cancel_is_understood() {
    for answer in ["", "  \n", "\u{1b}", "CANCEL", "q", "Q\r\n", "1"] {
        let mut source = FakeSource::default();
        let mut io = FakeIo::with_input(&[answer]);
        assert_eq!(select(&mut source, &mut io), None, "{answer:?}");
    }
    for answer in ["+0", "00"] {
        let mut source = FakeSource::default();
        let mut io = FakeIo::with_input(&[answer]);
        assert_eq!(select(&mut source, &mut io), Some(SyncScope::RootDirectory));
    }
    for answer in ["-1", "+", "1x", "99999999999999999999999999"] {
        let mut source = FakeSource::default();
        let mut io = FakeIo::with_input(&[answer, "q"]);
        assert_eq!(select(&mut source, &mut io), None);
        assert_eq!(io.prompts, 2, "{answer:?}");
    }
}

#[derive(Default)]
struct FakeTrees {
    local: BTreeMap<String, Vec<(String, EntryKind)>>,
    listings: BTreeMap<String, Vec<Entry>>,
    failures: BTreeSet<String>,
    listed: Vec<String>,
    ignored_prefix: Option<String>,
}

impl FakeTrees {
    fn is_ignored(&self, relative: &str) -> bool {
        let name = relative.rsplit('/').next().unwrap_or(relative);
        self.ignored_prefix
            .as_ref()
            .is_some_and(|prefix| name.starts_with(prefix.as_str()))
    }

    fn facts(&self, relative: &str, kind: EntryKind) -> NodeFacts {
        NodeFacts {
            canonical: Ok(format!("/real/{relative}")),
            kind: Ok(Some(kind)),
            ignored: self.is_ignored(relative),
        }
    }

    fn local(&self, directory: &str) -> LocalListing {
        LocalListing {
            canonical: Some(if directory.is_empty() {
                "/real".to_string()
            } else {
                format!("/real/{directory}")
            }),
            is_dir: Some(true),
            children: Some(
                self.local
                    .get(directory)
                    .map(|children| {
                        children
                            .iter()
                            .map(|(name, kind)| {
                                let relative = if directory.is_empty() {
                                    name.clone()
                                } else {
                                    format!("{directory}/{name}")
                                };
                                PickerRead::Child(name.clone(), self.facts(&relative, *kind))
                            })
                            .collect()
                    })
                    .unwrap_or_default(),
            ),
        }
    }

    fn remote(&mut self, directory: &str) -> Result<Vec<Entry>, Error> {
        self.listed.push(directory.to_string());
        if self.failures.contains(directory) {
            return Err(Error::failure("550 ATTACKER_REPLY\nsecond line".to_string()));
        }
        Ok(self
            .listings
            .get(directory)
            .map(|entries| entries.iter().map(copy_entry).collect())
            .unwrap_or_default())
    }
}

fn new_source() -> ProjectPickerSource {
    ProjectPickerSource::new("/project", Ok("/real".to_string()), Ok(None), "/remote").unwrap()
}

fn list(
    source: &mut ProjectPickerSource,
    trees: &mut FakeTrees,
    directory: &str,
) -> Result<Vec<PickerEntry>, Error> {
    let mut run = source.list(directory)?;
    loop {
        match run.phase {
            PickerPhase::Local => run.on_local(source, trees.local(directory)),
            PickerPhase::Remote => {
                let listed = source.remote_directory(directory);
                let reply = trees.remote(&listed);
                run.on_remote(source, reply);
            }
            PickerPhase::Ignore => {
                let ignored = run
                    .candidates
                    .iter()
                    .map(|child| trees.is_ignored(&child.name))
                    .collect();
                run.on_ignored(source, &ignored);
            }
            PickerPhase::Done => return source.discover(run),
        }
    }
}

fn remote_entry(name: &str, kind: EntryKind) -> Entry {
    Entry {
        name: name.to_string(),
        is_dir: kind == EntryKind::Directory,
        is_symlink: false,
        size: 0,
        modified: Timestamp { secs: 0, nanos: 0 },
    }
}

#[test]
fn real_source_merges_and_sorts_local_remote_and_both_children() {
    let mut trees = FakeTrees {
        ignored_prefix: Some("ignored-".to_string()),
        ..FakeTrees::default()
    };
    trees.local.insert(
        String::new(),
        vec![
            ("beta.c".to_string(), EntryKind::File),
            ("shared".to_string(), EntryKind::Directory),
            ("ignored-local.c".to_string(), EntryKind::File),
            (".ferry".to_string(), EntryKind::Directory),
        ],
    );
    trees.listings.insert(
        "/remote".into(),
        vec![
            remote_entry("shared", EntryKind::Directory),
            remote_entry("ignored-remote.c", EntryKind::File),
            remote_entry("alpha", EntryKind::Directory),
            remote_entry(".ferry", EntryKind::Directory),
        ],
    );
    let mut source = new_source();

    assert_eq!(
        list(&mut source, &mut trees, "").unwrap(),
        vec![
            entry("alpha", EntryKind::Directory, Presence::Remote),
            entry("beta.c", EntryKind::File, Presence::Local),
            entry("shared", EntryKind::Directory, Presence::Both),
        ]
    );
}

#[test]
fn real_source_lists_only_the_present_side_of_a_browsed_directory() {
    let mut trees = FakeTrees::default();
    trees
        .local
        .insert(String::new(), vec![("local-dir".to_string(), EntryKind::Directory)]);
    trees
        .local
        .insert("local-dir".to_string(), vec![("local.c".to_string(), EntryKind::File)]);
    trees.listings.insert(
        "/remote".into(),
        vec![remote_entry("remote-dir", EntryKind::Directory)],
    );
    trees.listings.insert(
        "/remote/remote-dir".into(),
        vec![remote_entry("remote.c", EntryKind::File)],
    );
    let mut source = new_source();

    let root_entries = list(&mut source, &mut trees, "").unwrap();
    assert!(root_entries
        .iter()
        .any(|entry| entry.name == "local-dir" && entry.presence == Presence::Local));
    assert!(root_entries
        .iter()
        .any(|entry| entry.name == "remote-dir" && entry.presence == Presence::Remote));
    assert_eq!(
        list(&mut source, &mut trees, "local-dir").unwrap(),
        vec![entry("local.c", EntryKind::File, Presence::Local)]
    );
    assert_eq!(
        list(&mut source, &mut trees, "remote-dir").unwrap(),
        vec![entry("remote.c", EntryKind::File, Presence::Remote)]
    );
    assert_eq!(
        trees.listed,
        ["/remote".to_string(), "/remote/remote-dir".to_string()]
    );
}

#[test]
fn real_source_rejects_unsafe_children_and_drops_raw_remote_failures() {
    let mut unsafe_remote = FakeTrees::default();
    unsafe_remote.listings.insert(
        "/remote".into(),
        vec![remote_entry("bad\nname.c", EntryKind::File)],
    );
    let mut unsafe_source = new_source();
    let unsafe_error = list(&mut unsafe_source, &mut unsafe_remote, "").unwrap_err();
    let rendered = unsafe_error.full_message();
    assert!(!rendered.contains("bad\nname.c"), "{rendered:?}");
    assert!(rendered.contains("unsafe remote entry"), "{rendered:?}");

    let mut failing_remote = FakeTrees {
        failures: BTreeSet::from(["/remote".into()]),
        ..FakeTrees::default()
    };
    let mut failing_source = new_source();
    let failure = list(&mut failing_source, &mut failing_remote, "")
        .unwrap_err()
        .full_message();
    assert!(!failure.contains("ATTACKER_REPLY"), "{failure:?}");
    assert!(!failure.contains("second line"), "{failure:?}");
    assert!(failure.contains("failed to list remote picker path /"));
}

#[test]
fn a_name_that_is_a_directory_on_one_side_only_is_shown_as_a_file() {
    let mut trees = FakeTrees::default();
    trees
        .local
        .insert(String::new(), vec![("mixed".to_string(), EntryKind::Directory)]);
    trees.listings.insert(
        "/remote".into(),
        vec![remote_entry("mixed", EntryKind::File)],
    );
    let mut source = new_source();
    assert_eq!(
        list(&mut source, &mut trees, "").unwrap(),
        vec![entry("mixed", EntryKind::File, Presence::Both)]
    );
    let error = list(&mut source, &mut trees, "mixed").unwrap_err();
    assert_eq!(error.message, "picker path was not discovered");
    let error = list(&mut source, &mut trees, "../up").unwrap_err();
    assert_eq!(error.message, "unsafe picker path");
}

#[test]
fn local_entries_that_cannot_be_shown_are_refused() {
    let messages = |listing: LocalListing| -> String {
        let source = new_source();
        let mut run = source.list("").unwrap();
        run.on_local(&source, listing);
        run.failure.map(|e| e.message).unwrap_or_default()
    };
    let trees = FakeTrees::default();
    let with_child = |read: PickerRead| LocalListing {
        canonical: Some("/real".to_string()),
        is_dir: Some(true),
        children: Some(vec![read]),
    };
    let facts = |canonical: &str| NodeFacts {
        canonical: Ok(canonical.to_string()),
        kind: Ok(Some(EntryKind::File)),
        ignored: false,
    };

    assert_eq!(
        messages(LocalListing { canonical: None, is_dir: None, children: None }),
        "failed to list local picker path /"
    );
    assert_eq!(
        messages(LocalListing { canonical: Some("/else".into()), is_dir: None, children: None }),
        "unsafe local picker path /"
    );
    assert_eq!(
        messages(LocalListing { canonical: Some("/real".into()), is_dir: None, children: None }),
        "failed to inspect local picker path /"
    );
    assert_eq!(
        messages(LocalListing {
            canonical: Some("/real".into()),
            is_dir: Some(false),
            children: None
        }),
        "local picker path / is not a directory"
    );
    assert_eq!(
        messages(with_child(PickerRead::Unreadable)),
        "failed to read local picker path /"
    );
    assert_eq!(
        messages(with_child(PickerRead::BadName)),
        "unsafe local entry in picker path /"
    );
    assert_eq!(
        messages(with_child(PickerRead::Child("a\nb".into(), facts("/real/x")))),
        "unsafe local entry in picker path /"
    );
    assert_eq!(
        messages(with_child(PickerRead::Child("a".into(), facts("/outside/x")))),
        "unsafe local entry in picker path /"
    );
    let mut socket = trees.facts("a", EntryKind::File);
    socket.kind = Ok(None);
    assert_eq!(
        messages(with_child(PickerRead::Child("a".into(), socket))),
        "unsupported local entry in picker path /"
    );
    let mut broken = trees.facts("a", EntryKind::File);
    broken.canonical = Err(Error::failure("raw".into()));
    assert_eq!(
        messages(with_child(PickerRead::Child("a".into(), broken))),
        "failed to inspect local entry in picker path /"
    );
    assert_eq!(
        messages(with_child(PickerRead::Child("a".into(), facts("/real/.ferry/x")))),
        ""
    );
}

#[test]
fn a_picker_needs_its_roots() {
    let broken = || Err(Error::failure("raw".to_string()));
    let root = || Ok("/real".to_string());
    assert_eq!(
        ProjectPickerSource::new("/project", broken(), Ok(None), "/remote")
            .unwrap_err()
            .message,
        "failed to open local picker root"
    );
    assert_eq!(
        ProjectPickerSource::new(
            "/project",
            root(),
            Err(Error::failure("raw".to_string())),
            "/remote"
        )
        .unwrap_err()
        .message,
        "failed to inspect local picker state directory"
    );
    assert_eq!(
        ProjectPickerSource::new("/project", root(), Ok(None), "")
            .unwrap_err()
            .message,
        "invalid remote picker root"
    );
}
