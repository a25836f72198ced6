//! Inventories of a file system and a server in memory.

use ferry::error::Error;
use ferry::ftp::{copy_entry, Entry, Timestamp};
use ferry::inventory::{conclude, sanitize_entry_name, EntryKind, InventoryEntry, ScopedInventory};
use ferry::paths::join_relative;
use ferry::scope::SyncScope;
use ferry::state::{FileRecord, StateFile};
use ferry::sync::local_inventory::{ChildRead, LocalCollection, LocalPhase, NodeFacts};
use ferry::sync::remote_inventory::{RemoteCollection, RemotePhase};
use std::collections::BTreeMap;

const ROOT: &str = "/project";
const REMOTE: &str = "/remote";

/// What stands at one path of the simulated file system.
#[derive(Clone, Debug)]
enum Node {
    File { bytes: Vec<u8> },
    Directory,
    Link { target: String },
    Socket,
}

/// A file system in memory, by absolute path.
#[derive(Debug)]
struct Local {
    nodes: BTreeMap<String, Node>,
}

fn parent_of(path: &str) -> String {
    match path.rsplit_once('/') {
        Some(("", _)) => "/".to_string(),
        Some((parent, _)) => parent.to_string(),
        None => String::new(),
    }
}

fn failure(message: &str) -> Error {
    Error::failure(message.to_string())
}

impl Local {
    fn new() -> Self {
        let mut local = Local { nodes: BTreeMap::new() };
        local.mkdir("/");
        local.mkdir(ROOT);
        local
    }

    fn mkdir(&mut self, path: &str) {
        assert!(!self.nodes.contains_key(path), "{path} is there already");
        self.nodes.insert(path.to_string(), Node::Directory);
    }

    fn write(&mut self, path: &str, bytes: &[u8]) {
        self.nodes.insert(path.to_string(), Node::File { bytes: bytes.to_vec() });
    }

    fn link(&mut self, target: &str, path: &str) {
        self.nodes.insert(path.to_string(), Node::Link { target: target.to_string() });
    }

    fn socket(&mut self, path: &str) {
        self.nodes.insert(path.to_string(), Node::Socket);
    }

    /// Where a path really lies, symlinks followed.
    fn canonical(&self, path: &str) -> Option<String> {
        let mut at = "/".to_string();
        for segment in path.split('/').filter(|segment| !segment.is_empty()) {
            if !matches!(self.nodes.get(&at), Some(Node::Directory)) {
                return None;
            }
            let next = if at == "/" { format!("/{segment}") } else { format!("{at}/{segment}") };
            at = match self.nodes.get(&next)? {
                Node::Link { target } => self.canonical(target)?,
                _ => next,
            };
        }
        Some(at)
    }

    /// What stands at a path, the symlinks above it followed, its own not.
    fn at(&self, path: &str) -> Option<&Node> {
        let parent = self.canonical(&parent_of(path))?;
        let name = path.rsplit_once('/')?.1;
        let place = if parent == "/" { format!("/{name}") } else { format!("{parent}/{name}") };
        self.nodes.get(&place)
    }

    fn followed(&self, path: &str) -> Option<(&Node, String)> {
        let canonical = self.canonical(path)?;
        Some((&self.nodes[&canonical], canonical))
    }

    fn read(&self, path: &str) -> Vec<u8> {
        match self.followed(path) {
            Some((Node::File { bytes }, _)) => bytes.clone(),
            other => panic!("{path} is no file: {other:?}"),
        }
    }

    fn names(&self, directory: &str) -> Vec<String> {
        let prefix = format!("{directory}/");
        let below = self.nodes.keys().filter_map(|path| path.strip_prefix(prefix.as_str()));
        below.filter(|name| !name.contains('/')).map(str::to_string).collect()
    }
}

/// What a project leaves out: `name/` a directory and all below it, `*.end` the
/// files with that end, anything else a path segment.
fn is_ignored(patterns: &[&str], relative: &str, is_dir: bool) -> bool {
    let segments: Vec<&str> = relative.split('/').collect();
    let last = segments.len() - 1;
    patterns.iter().any(|pattern| {
        if let Some(name) = pattern.strip_suffix('/') {
            segments.iter().enumerate().any(|(i, segment)| *segment == name && (i < last || is_dir))
        } else if let Some(end) = pattern.strip_prefix('*') {
            !is_dir && relative.ends_with(end)
        } else {
            segments.contains(pattern)
        }
    })
}

fn local_path(relative: &str) -> String {
    if relative.is_empty() { ROOT.to_string() } else { format!("{ROOT}/{relative}") }
}

impl Local {
    fn node_facts(&self, patterns: &[&str], relative: &str) -> NodeFacts {
        let path = local_path(relative);
        let followed = self.followed(&path);
        let is_dir = matches!(followed, Some((Node::Directory, _)));
        let lost = format!("{path} leads nowhere");
        NodeFacts {
            canonical: self.canonical(&path).ok_or_else(|| failure(&lost)),
            kind: match followed {
                None => Err(failure(&lost)),
                Some((Node::File { .. }, _)) => Ok(Some(EntryKind::File)),
                Some((Node::Directory, _)) => Ok(Some(EntryKind::Directory)),
                Some(_) => Ok(None),
            },
            ignored: is_ignored(patterns, relative, is_dir),
        }
    }

    fn children(&self, patterns: &[&str], relative: &str) -> Result<Vec<ChildRead>, Error> {
        let path = self.canonical(&local_path(relative)).ok_or_else(|| failure("not there"))?;
        let mut out = Vec::new();
        for name in self.names(&path) {
            let facts = self.node_facts(patterns, &join_relative(relative, &name));
            out.push(ChildRead::Child(name, facts));
        }
        Ok(out)
    }
}

/// The inventory of a scope, and the warnings that came with it.
fn collect(
    local: &Local,
    list: &mut dyn FnMut(&str) -> Result<Vec<Entry>, Error>,
    state: &StateFile,
    patterns: &[&str],
    scope: SyncScope,
) -> (Result<ScopedInventory, Error>, Vec<String>) {
    let mut warnings = Vec::new();
    let found = collect_into(local, list, state, patterns, scope, &mut warnings);
    (found, warnings)
}

fn collect_into(
    local: &Local,
    list: &mut dyn FnMut(&str) -> Result<Vec<Entry>, Error>,
    state: &StateFile,
    patterns: &[&str],
    scope: SyncScope,
    warnings: &mut Vec<String>,
) -> Result<ScopedInventory, Error> {
    let canonical_root = local.canonical(ROOT).ok_or_else(|| failure("no root"));
    let state_root = Ok(local.canonical(&local_path(".ferry")));
    let mut here = LocalCollection::collect_local(ROOT, canonical_root, state_root, &scope)?;
    loop {
        let current = here.current();
        match here.phase {
            LocalPhase::Select => {
                let found = match local.at(&local_path(&current)) {
                    None => None,
                    Some(_) => Some(local.node_facts(patterns, &current)),
                };
                here.on_selected(Ok(found));
            }
            LocalPhase::List => here.on_listing(local.children(patterns, &current)),
            LocalPhase::Done => break,
        }
    }
    if let Some(error) = here.failure {
        return Err(error);
    }
    let selected_local = here.selected;
    let mut there = RemoteCollection::collect_remote(REMOTE, &scope, here.entries, here.above)?;
    loop {
        match there.phase {
            RemotePhase::List => {
                let directory = there.directory.clone();
                there.on_listing(list(&directory));
            }
            RemotePhase::Ignore => {
                let mut flags = Vec::new();
                for child in &there.candidates {
                    let relative = join_relative(&there.relative, &child.name);
                    flags.push(is_ignored(patterns, &relative, child.is_dir));
                }
                there.on_ignored(&flags);
            }
            RemotePhase::Done => break,
        }
    }
    warnings.append(&mut there.warnings);
    if let Some(error) = there.failure {
        return Err(error);
    }
    let mut keys = Vec::new();
    let mut flags = Vec::new();
    for i in 0..state.files.len() {
        let key = state.files.key(i);
        flags.push(is_ignored(patterns, key, false));
        keys.push(key.clone());
    }
    conclude(scope, there.entries, there.above, selected_local, there.selected, &keys, &flags)
}

#[derive(Default)]
struct FakeRemote {
    directories: BTreeMap<String, Vec<Entry>>,
    failures: BTreeMap<String, String>,
    listed: Vec<String>,
    warnings: Vec<String>,
    tolerant_calls: usize,
    size_calls: usize,
}

impl FakeRemote {
    fn directory(mut self, path: &str, entries: Vec<Entry>) -> Self {
        self.directories.insert(path.to_string(), entries);
        self
    }

    fn failure(mut self, path: &str, message: &str) -> Self {
        self.failures.insert(path.to_string(), message.to_string());
        self
    }

    fn list_dir_strict(&mut self, directory: &str) -> Result<Vec<Entry>, Error> {
        self.listed.push(directory.to_string());
        if let Some(message) = self.failures.get(directory) {
            return Err(failure(message));
        }
        match self.directories.get(directory) {
            Some(entries) => Ok(entries.iter().map(copy_entry).collect()),
            None => Err(failure(&format!("unexpected strict LIST {directory}"))),
        }
    }
}

const DAY: Timestamp = Timestamp { secs: 1_786_320_000, nanos: 0 };

fn file(name: &str) -> Entry {
    entry(name, false)
}

fn directory(name: &str) -> Entry {
    entry(name, true)
}

fn symlink(name: &str) -> Entry {
    Entry { is_symlink: true, ..entry(name, false) }
}

fn entry(name: &str, is_dir: bool) -> Entry {
    Entry { name: name.to_string(), is_dir, is_symlink: false, size: 1, modified: DAY }
}

fn state_with(paths: &[&str]) -> StateFile {
    let mut state = StateFile::new();
    for path in paths {
        let record = FileRecord {
            sha256: "known".to_string(),
            size: 1,
            remote_mtime: DAY,
            last_synced: DAY,
        };
        state.files.insert((*path).to_string(), record);
    }
    state
}

fn inventory_without(
    remote: &mut FakeRemote,
    local: &Local,
    state: &StateFile,
    scope: SyncScope,
    patterns: &[&str],
) -> Result<ScopedInventory, Error> {
    let mut list = |path: &str| remote.list_dir_strict(path);
    let (found, warnings) = collect(local, &mut list, state, patterns, scope);
    remote.warnings = warnings;
    found
}

fn inventory(
    remote: &mut FakeRemote,
    local: &Local,
    state: &StateFile,
    scope: SyncScope,
) -> Result<ScopedInventory, Error> {
    inventory_without(remote, local, state, scope, &[])
}

fn presence(
    local: Option<EntryKind>,
    remote: Option<EntryKind>,
    in_state: bool,
) -> InventoryEntry {
    InventoryEntry { local, remote, in_state }
}

fn entries_of(inventory: &ScopedInventory) -> BTreeMap<String, InventoryEntry> {
    let entries = &inventory.entries;
    (0..entries.len()).map(|i| (entries.key(i).clone(), *entries.item(i))).collect()
}


#[test]
fn collects_an_exact_local_file() {
    let mut local = Local::new();
    local.write("/project/only-local.c", b"local");
    let mut remote = FakeRemote::default().directory("/remote", vec![]);

    let actual = inventory(
        &mut remote,
        &local,
        &StateFile::new(),
        SyncScope::Path("only-local.c".into()),
    )
    .unwrap();

    assert_eq!(
        actual.entries.get("only-local.c"),
        Some(&presence(Some(EntryKind::File), None, false))
    );
    assert_eq!(remote.listed, vec!["/remote"]);
    assert_eq!(remote.tolerant_calls, 0);
    assert_eq!(remote.size_calls, 0);
}

#[test]
fn collects_an_exact_remote_only_file() {
    let local = Local::new();
    let mut remote = FakeRemote::default().directory("/remote", vec![file("only-remote.c")]);

    let actual = inventory(
        &mut remote,
        &local,
        &StateFile::new(),
        SyncScope::Path("only-remote.c".into()),
    )
    .unwrap();

    assert_eq!(
        actual.entries.get("only-remote.c"),
        Some(&presence(None, Some(EntryKind::File), false))
    );
    assert_eq!(remote.listed, vec!["/remote"]);
}

#[test]
fn collects_local_only_directory_with_nested_and_empty_descendants() {
    let mut local = Local::new();
    local.mkdir("/project/area");
    local.mkdir("/project/area/nested");
    local.mkdir("/project/area/nested/empty");
    local.write("/project/area/nested/file.c", b"local");
    let mut remote = FakeRemote::default().directory("/remote", vec![]);

    let actual = inventory(
        &mut remote,
        &local,
        &StateFile::new(),
        SyncScope::Path("area".into()),
    )
    .unwrap();

    assert_eq!(
        entries_of(&actual),
        BTreeMap::from([
            (
                "area".into(),
                presence(Some(EntryKind::Directory), None, false),
            ),
            (
                "area/nested".into(),
                presence(Some(EntryKind::Directory), None, false),
            ),
            (
                "area/nested/empty".into(),
                presence(Some(EntryKind::Directory), None, false),
            ),
            (
                "area/nested/file.c".into(),
                presence(Some(EntryKind::File), None, false),
            ),
        ])
    );
    assert_eq!(remote.listed, vec!["/remote"]);
}

#[test]
fn collects_remote_only_directory_with_nested_and_empty_descendants() {
    let local = Local::new();
    let mut remote = FakeRemote::default()
        .directory("/remote", vec![directory("area")])
        .directory("/remote/area", vec![directory("nested"), file("top.c")])
        .directory(
            "/remote/area/nested",
            vec![directory("empty"), file("inner.c")],
        )
        .directory("/remote/area/nested/empty", vec![]);

    let actual = inventory(
        &mut remote,
        &local,
        &StateFile::new(),
        SyncScope::Path("area".into()),
    )
    .unwrap();

    assert_eq!(
        entries_of(&actual),
        BTreeMap::from([
            (
                "area".into(),
                presence(None, Some(EntryKind::Directory), false),
            ),
            (
                "area/nested".into(),
                presence(None, Some(EntryKind::Directory), false),
            ),
            (
                "area/nested/empty".into(),
                presence(None, Some(EntryKind::Directory), false),
            ),
            (
                "area/nested/inner.c".into(),
                presence(None, Some(EntryKind::File), false),
            ),
            (
                "area/top.c".into(),
                presence(None, Some(EntryKind::File), false),
            ),
        ])
    );
    assert_eq!(
        remote.listed,
        vec![
            "/remote",
            "/remote/area",
            "/remote/area/nested",
            "/remote/area/nested/empty"
        ]
    );
}

#[test]
fn root_directory_collects_descendants_without_an_empty_key() {
    let mut local = Local::new();
    local.mkdir("/project/local-empty");
    let mut remote = FakeRemote::default()
        .directory("/remote", vec![directory("remote-empty")])
        .directory("/remote/remote-empty", vec![]);

    let actual = inventory(
        &mut remote,
        &local,
        &StateFile::new(),
        SyncScope::RootDirectory,
    )
    .unwrap();

    assert_eq!(actual.scope, SyncScope::RootDirectory);
    assert!(!actual.entries.contains(""));
    assert_eq!(
        actual.entries.get("local-empty"),
        Some(&presence(Some(EntryKind::Directory), None, false))
    );
    assert_eq!(
        actual.entries.get("remote-empty"),
        Some(&presence(None, Some(EntryKind::Directory), false))
    );
}

#[test]
fn empty_root_directory_is_still_a_valid_selection() {
    let local = Local::new();
    let mut remote = FakeRemote::default().directory("/remote", vec![]);

    let actual = inventory(
        &mut remote,
        &local,
        &StateFile::new(),
        SyncScope::RootDirectory,
    )
    .unwrap();

    assert!(actual.entries.len() == 0);
}

#[test]
fn root_scope_excludes_exact_local_transfer_temps_but_keeps_near_misses() {
    let mut local = Local::new();
    let exact = ".page.txt.ferry-tmp.0123456789abcdef0123456789abcdef";
    let near_misses = [
        ".page.txt.ferry-tmp.0123456789abcdef0123456789abcde",
        ".page.txt.ferry-tmp.0123456789abcdef0123456789abcdeF",
        "page.txt.ferry-tmp.0123456789abcdef0123456789abcdef",
    ];
    local.write(&local_path(exact), b"stale temp");
    for name in near_misses {
        local.write(&local_path(name), b"user file");
    }
    let mut remote = FakeRemote::default().directory("/remote", vec![]);

    let actual = inventory(
        &mut remote,
        &local,
        &state_with(&[exact]),
        SyncScope::RootDirectory,
    )
    .unwrap();

    assert!(!actual.entries.contains(exact));
    for name in near_misses {
        assert_eq!(
            actual.entries.get(name),
            Some(&presence(Some(EntryKind::File), None, false))
        );
    }
}

#[test]
fn root_scope_excludes_exact_remote_transfer_temps_but_keeps_near_misses() {
    let local = Local::new();
    let exact = ".page.txt.ferry-tmp.0123456789abcdef0123456789abcdef";
    let near_misses = [
        ".page.txt.ferry-tmp.0123456789abcdef0123456789abcdef0",
        "..ferry-tmp.0123456789abcdef0123456789abcdef",
        ".page.txt.ferry-tmp.0123456789abcdef0123456789ABCDEf",
    ];
    let mut entries = vec![file(exact)];
    entries.extend(near_misses.into_iter().map(file));
    let mut remote = FakeRemote::default().directory("/remote", entries);

    let actual = inventory(
        &mut remote,
        &local,
        &StateFile::new(),
        SyncScope::RootDirectory,
    )
    .unwrap();

    assert!(!actual.entries.contains(exact));
    for name in near_misses {
        assert_eq!(
            actual.entries.get(name),
            Some(&presence(None, Some(EntryKind::File), false))
        );
    }
}

#[test]
fn adds_state_only_records_beneath_scope_on_segment_boundaries() {
    let mut local = Local::new();
    local.mkdir("/project/area");
    let state = state_with(&["area", "area/old.c", "area/nested/x.c", "area-old/x.c"]);
    let mut remote = FakeRemote::default().directory("/remote", vec![]);

    let actual = inventory(
        &mut remote,
        &local,
        &state,
        SyncScope::Path("area".into()),
    )
    .unwrap();

    assert!(actual.entries.get("area").unwrap().in_state);
    assert_eq!(
        actual.entries.get("area/old.c"),
        Some(&presence(None, None, true))
    );
    assert_eq!(
        actual.entries.get("area/nested/x.c"),
        Some(&presence(None, None, true))
    );
    assert!(!actual.entries.contains("area-old/x.c"));
}

#[test]
fn root_scope_excludes_state_only_ferry_paths_on_segment_boundaries() {
    let local = Local::new();
    let state = state_with(&[".ferry", ".ferry/state.json", ".ferry-old/x.c"]);
    let mut remote = FakeRemote::default().directory("/remote", vec![]);

    let actual = inventory(&mut remote, &local, &state, SyncScope::RootDirectory).unwrap();

    assert_eq!(
        entries_of(&actual),
        BTreeMap::from([(".ferry-old/x.c".into(), presence(None, None, true))])
    );
}

#[test]
fn applies_ignore_rules_to_local_and_remote_entries_with_directory_types() {
    let mut local = Local::new();
    local.mkdir("/project/area");
    local.mkdir("/project/area/ignored");
    local.mkdir("/project/area/ignored/local-child");
    local.write("/project/area/drop.tmp", b"drop");
    local.write("/project/area/keep.c", b"keep");
    let mut remote = FakeRemote::default()
        .directory("/remote", vec![directory("area")])
        .directory(
            "/remote/area",
            vec![directory("ignored"), file("remote.tmp"), file("remote.c")],
        );
    let matcher = &["ignored/", "*.tmp"];

    let actual = inventory_without(
        &mut remote,
        &local,
        &StateFile::new(),
        SyncScope::Path("area".into()),
        matcher,
    )
    .unwrap();

    assert_eq!(
        entries_of(&actual).into_keys().collect::<Vec<_>>(),
        vec!["area", "area/keep.c", "area/remote.c"]
    );
    assert_eq!(remote.listed, vec!["/remote", "/remote/area"]);
}

#[test]
fn retains_file_versus_directory_presence_for_conflict_reporting() {
    let mut local = Local::new();
    local.write("/project/clash", b"file");
    let mut remote = FakeRemote::default()
        .directory("/remote", vec![directory("clash")])
        .directory("/remote/clash", vec![file("child.c")]);

    let actual = inventory(
        &mut remote,
        &local,
        &StateFile::new(),
        SyncScope::Path("clash".into()),
    )
    .unwrap();

    assert_eq!(
        actual.entries.get("clash"),
        Some(&presence(
            Some(EntryKind::File),
            Some(EntryKind::Directory),
            false
        ))
    );
    assert_eq!(
        actual.entries.get("clash/child.c"),
        Some(&presence(None, Some(EntryKind::File), false))
    );
}

#[test]
fn rejects_a_path_missing_locally_remotely_and_from_state() {
    let local = Local::new();
    let mut remote = FakeRemote::default().directory("/remote", vec![]);

    let error = inventory(
        &mut remote,
        &local,
        &StateFile::new(),
        SyncScope::Path("missing.c".into()),
    )
    .unwrap_err();

    assert!(
        error.message
            .contains("path not found locally or remotely"),
        "got: {error:?}"
    );
}

#[test]
fn stale_state_only_exact_path_counts_as_selected_presence() {
    let local = Local::new();
    let mut remote = FakeRemote::default().directory("/remote", vec![]);

    let actual = inventory(
        &mut remote,
        &local,
        &state_with(&["gone.c"]),
        SyncScope::Path("gone.c".into()),
    )
    .unwrap();

    assert!(!actual.selected_local);
    assert!(!actual.selected_remote);
    assert_eq!(
        entries_of(&actual),
        BTreeMap::from([("gone.c".into(), presence(None, None, true))])
    );
}

#[test]
fn state_only_descendant_does_not_validate_its_absent_parent_selection() {
    let local = Local::new();
    let mut remote = FakeRemote::default().directory("/remote", vec![]);

    let error = inventory(
        &mut remote,
        &local,
        &state_with(&["gone/child.c"]),
        SyncScope::Path("gone".into()),
    )
    .unwrap_err();

    assert!(error.full_message().contains("path not found locally or remotely"));
}

#[test]
fn strict_nested_list_failure_aborts_the_entire_inventory() {
    let local = Local::new();
    let mut remote = FakeRemote::default()
        .directory("/remote", vec![directory("area")])
        .directory("/remote/area", vec![directory("nested")])
        .failure("/remote/area/nested", "nested LIST failed");

    let error = inventory(
        &mut remote,
        &local,
        &StateFile::new(),
        SyncScope::Path("area".into()),
    )
    .unwrap_err();

    assert!(error.full_message().contains("nested LIST failed"));
    assert_eq!(
        remote.listed,
        vec!["/remote", "/remote/area", "/remote/area/nested"]
    );
}

#[test]
fn unsafe_server_supplied_child_name_aborts_strict_traversal() {
    let local = Local::new();
    let mut remote =
        FakeRemote::default().directory("/remote", vec![file("/outside/attacker.c")]);

    let error = inventory(
        &mut remote,
        &local,
        &StateFile::new(),
        SyncScope::RootDirectory,
    )
    .unwrap_err();

    assert!(error.full_message().contains("unsafe remote entry"));
}

#[test]
fn local_nested_file_is_inventoried_when_first_remote_ancestor_is_absent() {
    let mut local = Local::new();
    local.mkdir("/project/a");
    local.mkdir("/project/a/b");
    local.write("/project/a/b/file.c", b"local");
    let mut remote = FakeRemote::default().directory("/remote", vec![]);

    let actual = inventory(
        &mut remote,
        &local,
        &StateFile::new(),
        SyncScope::Path("a/b/file.c".into()),
    )
    .unwrap();

    assert_eq!(
        actual.entries.get("a/b/file.c"),
        Some(&presence(Some(EntryKind::File), None, false))
    );
    assert_eq!(remote.listed, vec!["/remote"]);
}

#[test]
fn local_nested_directory_is_inventoried_when_inner_remote_ancestor_is_absent() {
    let mut local = Local::new();
    local.mkdir("/project/a");
    local.mkdir("/project/a/b");
    local.mkdir("/project/a/b/selected");
    local.mkdir("/project/a/b/selected/empty");
    let mut remote = FakeRemote::default()
        .directory("/remote", vec![directory("a")])
        .directory("/remote/a", vec![]);

    let actual = inventory(
        &mut remote,
        &local,
        &StateFile::new(),
        SyncScope::Path("a/b/selected".into()),
    )
    .unwrap();

    assert_eq!(
        actual.entries.get("a/b/selected"),
        Some(&presence(Some(EntryKind::Directory), None, false))
    );
    assert_eq!(
        actual.entries.get("a/b/selected/empty"),
        Some(&presence(Some(EntryKind::Directory), None, false))
    );
    assert_eq!(remote.listed, vec!["/remote", "/remote/a"]);
}

#[test]
fn failure_listing_any_proven_remote_ancestor_is_fatal() {
    let mut local = Local::new();
    local.mkdir("/project/a");
    local.mkdir("/project/a/b");
    local.write("/project/a/b/file.c", b"local");
    let mut remote = FakeRemote::default()
        .directory("/remote", vec![directory("a")])
        .failure(
            "/remote/a",
            "permission denied while listing proven directory",
        );

    let error = inventory(
        &mut remote,
        &local,
        &StateFile::new(),
        SyncScope::Path("a/b/file.c".into()),
    )
    .unwrap_err();

    assert!(error.full_message().contains("permission denied"));
    assert_eq!(remote.listed, vec!["/remote", "/remote/a"]);
}

#[test]
fn generic_ftp_550_listing_error_is_never_reinterpreted_as_absence() {
    let mut local = Local::new();
    local.mkdir("/project/a");
    local.mkdir("/project/a/b");
    local.write("/project/a/b/file.c", b"local");
    let mut remote = FakeRemote::default()
        .directory("/remote", vec![directory("a")])
        .failure("/remote/a", "550 file unavailable");

    let error = inventory(
        &mut remote,
        &local,
        &StateFile::new(),
        SyncScope::Path("a/b/file.c".into()),
    )
    .unwrap_err();

    assert!(error.full_message().contains("550 file unavailable"));
    assert_eq!(remote.size_calls, 0);
    assert_eq!(remote.tolerant_calls, 0);
}

#[test]
fn dot_entries_are_accounted_for_and_skipped() {
    let local = Local::new();
    let mut remote = FakeRemote::default()
        .directory(
            "/remote",
            vec![directory("."), directory(".."), directory("area")],
        )
        .directory(
            "/remote/area",
            vec![directory("."), directory(".."), file("file.c")],
        );

    let actual = inventory(
        &mut remote,
        &local,
        &StateFile::new(),
        SyncScope::Path("area".into()),
    )
    .unwrap();

    assert_eq!(
        entries_of(&actual).into_keys().collect::<Vec<_>>(),
        vec!["area", "area/file.c"]
    );
}

#[test]
fn ferry_state_directory_is_not_inventoried_or_descended_into() {
    let mut local = Local::new();
    local.mkdir("/project/.ferry");
    local.mkdir("/project/.ferry/nested");
    local.write("/project/.ferry/nested/state.json", b"secret");
    local.write("/project/keep.c", b"keep");
    let mut remote = FakeRemote::default().directory("/remote", vec![]);

    let actual = inventory(
        &mut remote,
        &local,
        &StateFile::new(),
        SyncScope::RootDirectory,
    )
    .unwrap();

    assert_eq!(
        entries_of(&actual),
        BTreeMap::from([(
            "keep.c".into(),
            presence(Some(EntryKind::File), None, false)
        )])
    );
}

#[test]
fn remote_ferry_state_directory_is_not_inventoried_or_descended_into() {
    let local = Local::new();
    let mut remote = FakeRemote::default()
        .directory("/remote", vec![directory(".ferry"), file("keep-remote.c")])
        .directory("/remote/.ferry", vec![file("state.json")]);

    let actual = inventory(
        &mut remote,
        &local,
        &StateFile::new(),
        SyncScope::RootDirectory,
    )
    .unwrap();

    assert_eq!(
        entries_of(&actual),
        BTreeMap::from([(
            "keep-remote.c".into(),
            presence(None, Some(EntryKind::File), false)
        )])
    );
    assert_eq!(remote.listed, vec!["/remote"]);
}

#[test]
fn selected_symlink_that_escapes_local_root_is_rejected() {
    let mut local = Local::new();
    let outside = "/outside.c";
    local.write(outside, b"outside");
    local.link(outside, "/project/escape.c");
    let mut remote = FakeRemote::default().directory("/remote", vec![]);

    let error = inventory(
        &mut remote,
        &local,
        &StateFile::new(),
        SyncScope::Path("escape.c".into()),
    )
    .unwrap_err();

    assert!(error.full_message().contains("outside local_root"));
}

#[test]
fn descendant_symlink_that_escapes_local_root_is_rejected() {
    let mut local = Local::new();
    let outside = "/outside";
    local.mkdir("/project/area");
    local.mkdir(outside);
    local.link(outside, "/project/area/escape");
    let mut remote = FakeRemote::default().directory("/remote", vec![]);

    let error = inventory(
        &mut remote,
        &local,
        &StateFile::new(),
        SyncScope::Path("area".into()),
    )
    .unwrap_err();

    assert!(error.full_message().contains("outside local_root"));
}

#[test]
fn missing_leaf_beneath_escaping_symlink_is_rejected() {
    let mut local = Local::new();
    let outside = "/outside";
    local.mkdir(outside);
    local.link(outside, "/project/escape");
    let mut remote = FakeRemote::default()
        .directory("/remote", vec![directory("escape")])
        .directory("/remote/escape", vec![file("new.c")]);

    let error = inventory(
        &mut remote,
        &local,
        &StateFile::new(),
        SyncScope::Path("escape/new.c".into()),
    )
    .unwrap_err();

    assert!(error.full_message().contains("outside local_root"));
    assert!(remote.listed.is_empty());
}

#[test]
fn root_scope_does_not_descend_through_an_alias_to_the_state_directory() {
    let mut local = Local::new();
    local.mkdir("/project/.ferry");
    local.write("/project/.ferry/state.json", b"secret");
    local.write("/project/keep.c", b"keep");
    local.link("/project/.ferry", "/project/state-alias");
    let mut remote = FakeRemote::default().directory("/remote", vec![]);

    let actual = inventory(
        &mut remote,
        &local,
        &StateFile::new(),
        SyncScope::RootDirectory,
    )
    .unwrap();

    assert_eq!(
        entries_of(&actual),
        BTreeMap::from([(
            "keep.c".into(),
            presence(Some(EntryKind::File), None, false)
        )])
    );
}

#[test]
fn exact_alias_to_the_state_directory_is_not_inventoried() {
    let mut local = Local::new();
    local.mkdir("/project/.ferry");
    local.write("/project/.ferry/state.json", b"secret");
    local.link("/project/.ferry", "/project/state-alias");
    let mut remote = FakeRemote::default().directory("/remote", vec![]);

    let error = inventory(
        &mut remote,
        &local,
        &StateFile::new(),
        SyncScope::Path("state-alias".into()),
    )
    .unwrap_err();

    assert!(
        error.message.contains("Ferry state directory"),
        "got: {error:?}"
    );
}

#[test]
fn root_scope_rejects_noncanonical_state_keys_without_echoing_controls() {
    let unsafe_paths = [
        "",
        "../escape",
        "/absolute",
        "./dot",
        "area/./file.c",
        "area/../file.c",
        "area//file.c",
        "area/",
        r"area\file.c",
        "C:/windows/file.c",
        "C:drive-relative.c",
        ".ferry/../escape.c",
        ".ferry//state.json",
        "control\u{1b}key",
        "control\rkey",
        "control\nkey",
        "control\0key",
    ];

    for unsafe_path in unsafe_paths {
        let local = Local::new();
        let mut remote = FakeRemote::default().directory("/remote", vec![]);

        let error = inventory(
            &mut remote,
            &local,
            &state_with(&[unsafe_path]),
            SyncScope::RootDirectory,
        )
        .unwrap_err();
        let message = error.full_message();

        assert!(message.contains("unsafe path key"), "got: {message:?}");
        assert!(
            !message.chars().any(char::is_control),
            "error contains a raw control character: {message:?}"
        );
    }
}

#[test]
fn path_scope_rejects_in_scope_noncanonical_state_keys() {
    let mut local = Local::new();
    local.mkdir("/project/area");
    let unsafe_paths = [
        "area/../escape.c",
        "area/./file.c",
        "area//file.c",
        "area/",
        r"area/\file.c",
        "area/control\u{1b}key",
        "area/control\rkey",
        "area/control\nkey",
        "area/control\0key",
    ];

    for unsafe_path in unsafe_paths {
        let mut remote = FakeRemote::default().directory("/remote", vec![]);
        let error = inventory(
            &mut remote,
            &local,
            &state_with(&[unsafe_path]),
            SyncScope::Path("area".into()),
        )
        .unwrap_err();
        let message = error.full_message();

        assert!(message.contains("unsafe path key"), "got: {message:?}");
        assert!(
            !message.chars().any(char::is_control),
            "error contains a raw control character: {message:?}"
        );
    }
}

#[test]
fn path_scope_ignores_noncanonical_out_of_scope_state_keys() {
    let mut local = Local::new();
    local.mkdir("/project/area");
    let mut remote = FakeRemote::default().directory("/remote", vec![]);

    let actual = inventory(
        &mut remote,
        &local,
        &state_with(&["other/../escape.c"]),
        SyncScope::Path("area".into()),
    )
    .unwrap();

    assert_eq!(
        entries_of(&actual),
        BTreeMap::from([(
            "area".into(),
            presence(Some(EntryKind::Directory), None, false)
        )])
    );
}

#[test]
fn a_skipped_symlink_name_is_escaped_before_it_reaches_a_warning() {
    // `remote_child_name` refuses control characters outright, but a
    // skipped symlink is only reported -- so the reporting path has to
    // escape the name itself.
    let escaped = sanitize_entry_name("link\u{1b}[31m\r\n");

    assert!(!escaped.chars().any(char::is_control));
    assert!(escaped.starts_with("link"));
}

#[test]
fn a_symlink_with_a_control_character_name_still_aborts_the_listing() {
    let local = Local::new();
    let mut remote = FakeRemote::default()
        .directory("/remote", vec![file("real.c"), symlink("link\u{1b}name")]);

    // Skipping symlinks must not weaken the unsafe-name check: a control
    // character in a server-supplied name is a server problem whatever the
    // record type, and it is refused before the type is even consulted.
    let error = inventory(
        &mut remote,
        &local,
        &StateFile::new(),
        SyncScope::RootDirectory,
    )
    .unwrap_err();
    let message = error.full_message();

    assert!(message.contains("unsafe remote entry"), "got: {message:?}");
    assert!(!message.chars().any(char::is_control));
}

#[test]
fn a_symlink_still_counts_against_the_duplicate_name_guard() {
    let local = Local::new();
    // A server contradicting itself: one name, two record types. Dropping
    // the symlink before the guard would let the second record through as
    // an ordinary single-file listing.
    let mut remote =
        FakeRemote::default().directory("/remote", vec![symlink("conf"), file("conf")]);

    let error = inventory(
        &mut remote,
        &local,
        &StateFile::new(),
        SyncScope::RootDirectory,
    )
    .unwrap_err();

    assert!(
        error.full_message().contains("duplicate remote entry"),
        "got: {error:?}"
    );
}

#[test]
fn inventory_skips_a_remote_symlink_instead_of_aborting() {
    let local = Local::new();
    let mut remote =
        FakeRemote::default().directory("/remote", vec![file("real.c"), symlink("link.c")]);

    let inventoried = inventory(
        &mut remote,
        &local,
        &StateFile::new(),
        SyncScope::RootDirectory,
    )
    .unwrap();

    // Aborting here is the bug the PR set out to fix: one symlink anywhere
    // in the tree took down the whole scoped sync / picker operation.
    assert!(inventoried.entries.contains("real.c"));
    assert!(!inventoried.entries.contains("link.c"));
}

#[test]
fn inventory_does_not_descend_through_a_symlinked_directory() {
    let local = Local::new();
    let mut remote = FakeRemote::default()
        .directory("/remote", vec![symlink("elsewhere")])
        .directory("/remote/elsewhere", vec![file("escaped.c")]);

    let inventoried = inventory(
        &mut remote,
        &local,
        &StateFile::new(),
        SyncScope::RootDirectory,
    )
    .unwrap();

    assert!(
        entries_of(&inventoried).keys()
            .all(|key| !key.starts_with("elsewhere"))
    );
    assert_eq!(remote.listed, vec!["/remote"]);
}

#[test]
fn unsafe_remote_names_abort_before_recording_or_listing_children() {
    let unsafe_names = [
        "control\u{1b}name",
        "control\rname",
        "control\nname",
        "control\0name",
        r"protocol\name",
    ];

    for unsafe_name in unsafe_names {
        let local = Local::new();
        let mut remote =
            FakeRemote::default().directory("/remote", vec![directory(unsafe_name)]);

        let error = inventory(
            &mut remote,
            &local,
            &StateFile::new(),
            SyncScope::RootDirectory,
        )
        .unwrap_err();
        let message = error.full_message();

        assert!(message.contains("unsafe remote entry"), "got: {message:?}");
        assert!(
            !message.chars().any(char::is_control),
            "error contains a raw control character: {message:?}"
        );
        assert_eq!(remote.listed, vec!["/remote"]);
    }
}

#[test]
fn local_socket_is_rejected_as_an_unsupported_entry_type() {
    let mut local = Local::new();
    local.socket("/project/special.sock");
    let mut remote = FakeRemote::default().directory("/remote", vec![]);

    let error = inventory(
        &mut remote,
        &local,
        &StateFile::new(),
        SyncScope::Path("special.sock".into()),
    )
    .unwrap_err();

    assert!(error.full_message().contains("unsupported local entry type"));
}

#[test]
fn local_directory_prefix_does_not_make_a_missing_selected_leaf_exist() {
    let mut local = Local::new();
    local.mkdir("/project/area");
    let mut remote = FakeRemote::default().directory("/remote", vec![]);

    let error = inventory(
        &mut remote,
        &local,
        &StateFile::new(),
        SyncScope::Path("area/missing.c".into()),
    )
    .unwrap_err();

    assert!(error.full_message().contains("path not found locally or remotely"));
    assert_eq!(remote.listed, vec!["/remote"]);
}

#[test]
fn remote_directory_prefix_does_not_make_a_missing_selected_leaf_exist() {
    let local = Local::new();
    let mut remote = FakeRemote::default()
        .directory("/remote", vec![directory("area")])
        .directory("/remote/area", vec![]);

    let error = inventory(
        &mut remote,
        &local,
        &StateFile::new(),
        SyncScope::Path("area/missing.c".into()),
    )
    .unwrap_err();

    assert!(error.full_message().contains("path not found locally or remotely"));
    assert_eq!(remote.listed, vec!["/remote", "/remote/area"]);
}

#[test]
fn local_file_prefix_is_not_classified_as_the_missing_selected_descendant() {
    let mut local = Local::new();
    local.write("/project/area", b"ancestor bytes");
    let mut remote = FakeRemote::default().directory("/remote", vec![]);

    let error = inventory(
        &mut remote,
        &local,
        &StateFile::new(),
        SyncScope::Path("area/missing.c".into()),
    )
    .unwrap_err();

    assert!(error.full_message().contains("path not found locally or remotely"));
    assert_eq!(
        local.read("/project/area"),
        b"ancestor bytes"
    );
    assert_eq!(remote.size_calls, 0);
}

#[test]
fn remote_file_prefix_is_not_classified_as_the_missing_selected_descendant() {
    let local = Local::new();
    let mut remote = FakeRemote::default().directory("/remote", vec![file("area")]);

    let error = inventory(
        &mut remote,
        &local,
        &StateFile::new(),
        SyncScope::Path("area/missing.c".into()),
    )
    .unwrap_err();

    assert!(error.full_message().contains("path not found locally or remotely"));
    assert_eq!(remote.listed, vec!["/remote"]);
    assert_eq!(remote.size_calls, 0);
}

#[test]
fn ignored_selected_path_and_state_under_ignored_ancestor_leave_no_inventory() {
    let mut local = Local::new();
    local.mkdir("/project/ignored");
    local.write("/project/ignored/selected.c", b"ignored local");
    let mut remote = FakeRemote::default()
        .directory("/remote", vec![directory("ignored")])
        .directory("/remote/ignored", vec![file("selected.c")]);
    let ignored = &["ignored/"];

    let error = inventory_without(
        &mut remote,
        &local,
        &state_with(&["ignored/selected.c"]),
        SyncScope::Path("ignored/selected.c".into()),
        ignored,
    )
    .unwrap_err();

    assert!(error.full_message().contains("path not found locally or remotely"));
    assert_eq!(remote.listed, vec!["/remote"]);
    assert_eq!(remote.size_calls, 0);
}

#[test]
fn ignored_directory_name_near_miss_remains_selectable_without_ancestor_entries() {
    let mut local = Local::new();
    local.mkdir("/project/ignored-old");
    local.write("/project/ignored-old/selected.c", b"kept");
    let mut remote = FakeRemote::default().directory("/remote", vec![]);
    let ignored = &["ignored/"];

    let actual = inventory_without(
        &mut remote,
        &local,
        &StateFile::new(),
        SyncScope::Path("ignored-old/selected.c".into()),
        ignored,
    )
    .unwrap();

    assert_eq!(
        entries_of(&actual),
        BTreeMap::from([(
            "ignored-old/selected.c".into(),
            presence(Some(EntryKind::File), None, false),
        )])
    );
}

#[test]
fn remote_selected_leaf_with_local_file_prefix_keeps_only_the_leaf_entry() {
    let mut local = Local::new();
    local.write("/project/area", b"local ancestor");
    let mut remote = FakeRemote::default()
        .directory("/remote", vec![directory("area")])
        .directory("/remote/area", vec![file("selected.c")]);

    let actual = inventory(
        &mut remote,
        &local,
        &StateFile::new(),
        SyncScope::Path("area/selected.c".into()),
    )
    .unwrap();

    assert_eq!(
        entries_of(&actual),
        BTreeMap::from([(
            "area/selected.c".into(),
            presence(None, Some(EntryKind::File), false),
        )])
    );
}

#[test]
fn local_selected_leaf_with_remote_file_prefix_keeps_only_the_leaf_entry() {
    let mut local = Local::new();
    local.mkdir("/project/area");
    local.write("/project/area/selected.c", b"local selected");
    let mut remote = FakeRemote::default().directory("/remote", vec![file("area")]);

    let actual = inventory(
        &mut remote,
        &local,
        &StateFile::new(),
        SyncScope::Path("area/selected.c".into()),
    )
    .unwrap();

    assert_eq!(
        entries_of(&actual),
        BTreeMap::from([(
            "area/selected.c".into(),
            presence(Some(EntryKind::File), None, false),
        )])
    );
    assert_eq!(remote.size_calls, 0);
}


#[test]
fn a_skipped_symlink_is_warned_of() {
    let local = Local::new();
    let mut remote =
        FakeRemote::default().directory("/remote", vec![file("real.c"), symlink("link.c")]);

    inventory(&mut remote, &local, &StateFile::new(), SyncScope::RootDirectory).unwrap();

    assert_eq!(remote.warnings.len(), 1);
    assert!(remote.warnings[0].contains("link.c"), "got: {:?}", remote.warnings);
}

#[test]
fn a_local_directory_that_holds_itself_is_refused() {
    let mut local = Local::new();
    local.mkdir("/project/area");
    local.write("/project/area/file.c", b"local");
    local.link("/project/area", "/project/area/again");
    let mut remote = FakeRemote::default().directory("/remote", vec![]);

    let error = inventory(
        &mut remote,
        &local,
        &StateFile::new(),
        SyncScope::Path("area".into()),
    )
    .unwrap_err();

    assert!(error.full_message().contains("local directory cycle encountered at /project/area/again"), "got: {error:?}");
}

#[test]
fn an_inventory_holds_nothing_outside_its_scope() {
    let mut local = Local::new();
    local.mkdir("/project/area");
    local.write("/project/area/file.c", b"local");
    local.write("/project/area-old", b"local");
    let mut remote = FakeRemote::default()
        .directory("/remote", vec![directory("area"), file("other.c")])
        .directory("/remote/area", vec![file("remote.c")]);

    let actual = inventory(
        &mut remote,
        &local,
        &state_with(&["area/gone.c", "elsewhere.c"]),
        SyncScope::Path("area".into()),
    )
    .unwrap();

    assert_eq!(
        entries_of(&actual).into_keys().collect::<Vec<_>>(),
        vec!["area", "area/file.c", "area/gone.c", "area/remote.c"]
    );
    assert!(actual.selected_local);
    assert!(actual.selected_remote);
}
