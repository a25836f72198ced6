//! Runs of a whole synchronisation against a file system and a server in memory.

use ferry::error::Error;
use ferry::file_transfer::{
    AnchorFacts, LeafFacts, LocalPathExpectation, PathProbe, RemoteDestinationSnapshot,
};
use ferry::ftp::{Entry, Timestamp};
use ferry::hash::hash_bytes;
use ferry::download::{
    DownloadAction, LocalDownload, OpenReply, TempFacts, WriteFacts,
};
use ferry::inventory::{conclude, EntryKind, ScopedInventory};
use ferry::remote_hash::{fetched_hash, remembered_hash, RemoteMetadata};
use ferry::paths::join_relative;
use ferry::scope::{CommitDecision, ExecutionMode, SyncScope};
use ferry::state::{FileRecord, FileState, StateFile};
use ferry::sync::capture::{CapturePhase, DirectoryCapture};
use ferry::sync::creation::{CreationPhase, DirectoryAction, DirectoryCreation};
use ferry::sync::directories::{
    local_path_of, DirectoryFacts, DirectoryLook, ExpectedDirectory,
};
use ferry::sync::file_plan::{FilePlan, PlanPhase, PlannedDownload, PlannedOperation, PlannedUpload};
use ferry::sync::finalize::{Finalization, FinalizePhase};
use ferry::sync::local_inventory::{ChildRead, LocalCollection, LocalPhase, NodeFacts};
use ferry::sync::materialize::{DownloadPreparation, PrepareEnd, PreparePhase, UploadPreparation};
use ferry::sync::plan::{SyncEvent, SyncEventKind, SyncIssue, SyncOutcome};
use ferry::sync::planning::{HashFacts, RemoteHash};
use ferry::sync::remote_inventory::{RemoteCollection, RemotePhase};
use ferry::sync::scoped::{run_scoped, ScopedSync, SyncStage};
use ferry::sync::validation::{DirectoryValidation, ValidationPhase};
use ferry::upload::{ClaimReply, GuardedUpload, UploadAction};
use ferry::walk::remote_join;
use std::cell::Cell;
use std::collections::{BTreeMap, BTreeSet, VecDeque};
use std::rc::Rc;

const ROOT: &str = "/project";
const REMOTE: &str = "/remote";

/// What stands at one path of the simulated file system.
#[derive(Clone, Debug)]
enum Node {
    File { bytes: Vec<u8>, identity: u64, modified: i64 },
    Directory { identity: u64 },
    Link { target: String },
}

/// A file system in memory, by absolute path.
#[derive(Debug)]
struct Local {
    nodes: BTreeMap<String, Node>,
    next: u64,
    clock: i64,
}

fn parent_of(path: &str) -> String {
    match path.rsplit_once('/') {
        Some(("", _)) => "/".to_string(),
        Some((parent, _)) => parent.to_string(),
        None => String::new(),
    }
}

fn failure(message: &str) -> Error {
    Error::failure(message.to_string())
}

impl Local {
    fn new() -> Self {
        let mut local = Local { nodes: BTreeMap::new(), next: 1, clock: 100 };
        local.mkdir("/");
        local.mkdir(ROOT);
        local
    }

    fn fresh(&mut self) -> u64 {
        self.next += 1;
        self.next
    }

    fn mkdir(&mut self, path: &str) {
        assert!(!self.nodes.contains_key(path), "{path} is there already");
        let identity = self.fresh();
        self.nodes.insert(path.to_string(), Node::Directory { identity });
    }

    /// Writes a file: the same file again where one is there.
    fn write(&mut self, path: &str, bytes: &[u8]) {
        self.clock += 1;
        let identity = match self.nodes.get(path) {
            Some(Node::File { identity, .. }) => *identity,
            _ => self.fresh(),
        };
        let modified = self.clock;
        self.nodes.insert(path.to_string(), Node::File { bytes: bytes.to_vec(), identity, modified });
    }

    fn link(&mut self, target: &str, path: &str) {
        self.nodes.insert(path.to_string(), Node::Link { target: target.to_string() });
    }

    fn remove(&mut self, path: &str) {
        assert!(self.nodes.remove(path).is_some(), "{path} is not there");
    }

    fn rename(&mut self, from: &str, to: &str) {
        let node = self.nodes.remove(from).expect("nothing to rename");
        self.nodes.insert(to.to_string(), node);
    }

    /// Where a path really lies, symlinks followed.
    fn canonical(&self, path: &str) -> Option<String> {
        let mut at = "/".to_string();
        for segment in path.split('/').filter(|segment| !segment.is_empty()) {
            if !matches!(self.nodes.get(&at), Some(Node::Directory { .. })) {
                return None;
            }
            let next = if at == "/" { format!("/{segment}") } else { format!("{at}/{segment}") };
            at = match self.nodes.get(&next)? {
                Node::Link { target } => self.canonical(target)?,
                _ => next,
            };
        }
        Some(at)
    }

    /// What stands at a path, the symlinks above it followed, its own not.
    fn at(&self, path: &str) -> Option<&Node> {
        let parent = self.canonical(&parent_of(path))?;
        let name = path.rsplit_once('/')?.1;
        let place = if parent == "/" { format!("/{name}") } else { format!("{parent}/{name}") };
        self.nodes.get(&place)
    }

    fn followed(&self, path: &str) -> Option<(&Node, String)> {
        let canonical = self.canonical(path)?;
        Some((&self.nodes[&canonical], canonical))
    }

    fn is_dir(&self, path: &str) -> bool {
        matches!(self.followed(path), Some((Node::Directory { .. }, _)))
    }

    fn is_there(&self, path: &str) -> bool {
        self.nodes.contains_key(path)
    }

    fn read(&self, path: &str) -> Vec<u8> {
        match self.followed(path) {
            Some((Node::File { bytes, .. }, _)) => bytes.clone(),
            other => panic!("{path} is no file: {other:?}"),
        }
    }

    fn names(&self, directory: &str) -> Vec<String> {
        let prefix = format!("{directory}/");
        let below = self.nodes.keys().filter_map(|path| path.strip_prefix(prefix.as_str()));
        below.filter(|name| !name.contains('/')).map(str::to_string).collect()
    }
}

fn identity_of(node: &Node) -> u64 {
    match node {
        Node::File { identity, .. } | Node::Directory { identity } => *identity,
        Node::Link { target } => panic!("a symlink to {target} was not followed"),
    }
}

impl Local {
    fn anchor(&self, path: &str) -> Result<AnchorFacts, Error> {
        let (node, canonical) =
            self.followed(path).ok_or_else(|| failure(&format!("{path} cannot be found")))?;
        let is_dir = matches!(node, Node::Directory { .. });
        Ok(AnchorFacts { canonical, is_dir, identity: identity_of(node) })
    }

    fn leaf(&self, path: &str) -> Result<Option<LeafFacts>, Error> {
        let Some(own) = self.at(path) else {
            return Ok(None);
        };
        let (node, canonical) =
            self.followed(path).ok_or_else(|| failure(&format!("{path} leads nowhere")))?;
        let (size, modified, sha256) = match node {
            Node::File { bytes, modified, .. } => {
                (bytes.len() as u64, *modified, Some(hash_bytes(bytes)))
            }
            _ => (0, 0, None),
        };
        Ok(Some(LeafFacts {
            is_symlink: matches!(own, Node::Link { .. }),
            is_file: matches!(node, Node::File { .. }),
            is_dir: matches!(node, Node::Directory { .. }),
            canonical,
            identity: identity_of(node),
            size,
            modified: Timestamp { secs: modified, nanos: 0 },
            sha256,
        }))
    }

    fn probe(&self, root: &str, path: &str) -> PathProbe {
        PathProbe {
            root: self.anchor(root),
            parent: self.anchor(&parent_of(path)),
            leaf: self.leaf(path),
        }
    }

    /// A probe of what an expectation is about.
    fn probe_again(&self, expected: &LocalPathExpectation) -> PathProbe {
        self.probe(&expected.canonical_root, &expected.resolved_path())
    }
}

/// What a project leaves out: `name/` a directory and all below it, `*.end` the
/// files with that end, anything else a path segment.
fn is_ignored(patterns: &[&str], relative: &str, is_dir: bool) -> bool {
    let segments: Vec<&str> = relative.split('/').collect();
    let last = segments.len() - 1;
    patterns.iter().any(|pattern| {
        if let Some(name) = pattern.strip_suffix('/') {
            segments.iter().enumerate().any(|(i, segment)| *segment == name && (i < last || is_dir))
        } else if let Some(end) = pattern.strip_prefix('*') {
            !is_dir && relative.ends_with(end)
        } else {
            segments.contains(pattern)
        }
    })
}

fn local_path(relative: &str) -> String {
    if relative.is_empty() { ROOT.to_string() } else { format!("{ROOT}/{relative}") }
}

impl Local {
    fn node_facts(&self, patterns: &[&str], relative: &str) -> NodeFacts {
        let path = local_path(relative);
        let followed = self.followed(&path);
        let is_dir = matches!(followed, Some((Node::Directory { .. }, _)));
        let lost = format!("{path} leads nowhere");
        NodeFacts {
            canonical: self.canonical(&path).ok_or_else(|| failure(&lost)),
            kind: match followed {
                None => Err(failure(&lost)),
                Some((Node::File { .. }, _)) => Ok(Some(EntryKind::File)),
                Some((Node::Directory { .. }, _)) => Ok(Some(EntryKind::Directory)),
                Some(_) => Ok(None),
            },
            ignored: is_ignored(patterns, relative, is_dir),
        }
    }

    fn children(&self, patterns: &[&str], relative: &str) -> Result<Vec<ChildRead>, Error> {
        let path = self.canonical(&local_path(relative)).ok_or_else(|| failure("not there"))?;
        let mut out = Vec::new();
        for name in self.names(&path) {
            let facts = self.node_facts(patterns, &join_relative(relative, &name));
            out.push(ChildRead::Child(name, facts));
        }
        Ok(out)
    }
}

/// The inventory of a scope, and the warnings that came with it.
fn collect(
    local: &Local,
    list: &mut dyn FnMut(&str) -> Result<Vec<Entry>, Error>,
    state: &StateFile,
    patterns: &[&str],
    scope: SyncScope,
) -> (Result<ScopedInventory, Error>, Vec<String>) {
    let mut warnings = Vec::new();
    let found = collect_into(local, list, state, patterns, scope, &mut warnings);
    (found, warnings)
}

fn collect_into(
    local: &Local,
    list: &mut dyn FnMut(&str) -> Result<Vec<Entry>, Error>,
    state: &StateFile,
    patterns: &[&str],
    scope: SyncScope,
    warnings: &mut Vec<String>,
) -> Result<ScopedInventory, Error> {
    let canonical_root = local.canonical(ROOT).ok_or_else(|| failure("no root"));
    let state_root = Ok(local.canonical(&local_path(".ferry")));
    let mut here = LocalCollection::collect_local(ROOT, canonical_root, state_root, &scope)?;
    loop {
        let current = here.current();
        match here.phase {
            LocalPhase::Select => {
                let found = match local.at(&local_path(&current)) {
                    None => None,
                    Some(_) => Some(local.node_facts(patterns, &current)),
                };
                here.on_selected(Ok(found));
            }
            LocalPhase::List => here.on_listing(local.children(patterns, &current)),
            LocalPhase::Done => break,
        }
    }
    if let Some(error) = here.failure {
        return Err(error);
    }
    let selected_local = here.selected;
    let mut there = RemoteCollection::collect_remote(REMOTE, &scope, here.entries, here.above)?;
    loop {
        match there.phase {
            RemotePhase::List => {
                let directory = there.directory.clone();
                there.on_listing(list(&directory));
            }
            RemotePhase::Ignore => {
                let mut flags = Vec::new();
                for child in &there.candidates {
                    let relative = join_relative(&there.relative, &child.name);
                    flags.push(is_ignored(patterns, &relative, child.is_dir));
                }
                there.on_ignored(&flags);
            }
            RemotePhase::Done => break,
        }
    }
    warnings.append(&mut there.warnings);
    if let Some(error) = there.failure {
        return Err(error);
    }
    let mut keys = Vec::new();
    let mut flags = Vec::new();
    for i in 0..state.files.len() {
        let key = state.files.key(i);
        flags.push(is_ignored(patterns, key, false));
        keys.push(key.clone());
    }
    conclude(scope, there.entries, there.above, selected_local, there.selected, &keys, &flags)
}

fn test_mtime(second: i64) -> Timestamp {
    Timestamp { secs: 1_786_363_200 + second, nanos: 0 }
}

#[derive(Clone, Debug)]
struct TestRemoteFile {
    bytes: Vec<u8>,
    modified: Timestamp,
}

struct DownloadMutation {
    path: String,
    on_call: usize,
    calls: usize,
    bytes: Vec<u8>,
}

#[derive(Clone, Copy)]
enum SnapshotMutationKind {
    RemoveDirectory,
    ReplaceDirectoryWithFile,
    AddDirectory,
    AddFile,
}

struct SnapshotMutation {
    path: String,
    on_call: usize,
    calls: usize,
    kind: SnapshotMutationKind,
}

/// A server in memory, which notes what it is asked for.
#[derive(Default)]
struct ProductionRemote {
    directories: BTreeSet<String>,
    files: BTreeMap<String, TestRemoteFile>,
    events: Vec<String>,
    invalidate_on_snapshot: Option<(String, usize, usize, Rc<Cell<bool>>)>,
    snapshot_mutation: Option<SnapshotMutation>,
    invalidate_on_download: Option<(String, Rc<Cell<bool>>)>,
    mutate_on_download: Option<DownloadMutation>,
    strict_mkdir_error: Option<String>,
    mdtm_error: Option<String>,
}

fn child_name<'a>(directory: &str, path: &'a str) -> Option<&'a str> {
    let suffix = path.strip_prefix(directory)?.strip_prefix('/')?;
    if suffix.is_empty() || suffix.contains('/') { None } else { Some(suffix) }
}

fn remote_entry(name: &str, is_dir: bool, size: u64, modified: Timestamp) -> Entry {
    Entry { name: name.to_string(), is_dir, is_symlink: false, size, modified }
}

impl ProductionRemote {
    fn with_root() -> Self {
        Self { directories: BTreeSet::from([REMOTE.to_string()]), ..Self::default() }
    }

    fn directory(mut self, path: &str) -> Self {
        self.directories.insert(path.to_string());
        self
    }

    fn put(&mut self, path: &str, bytes: &[u8], second: i64) {
        let file = TestRemoteFile { bytes: bytes.to_vec(), modified: test_mtime(second) };
        self.files.insert(path.to_string(), file);
    }

    fn file(mut self, path: &str, bytes: &[u8]) -> Self {
        self.put(path, bytes, 1);
        self
    }

    fn mutate_snapshot(mut self, path: &str, on_call: usize, kind: SnapshotMutationKind) -> Self {
        let path = path.to_string();
        self.snapshot_mutation = Some(SnapshotMutation { path, on_call, calls: 0, kind });
        self
    }

    fn fail_strict_mkdir(mut self, message: &str) -> Self {
        self.strict_mkdir_error = Some(message.to_string());
        self
    }

    fn mutate_download(mut self, path: &str, on_call: usize, bytes: &[u8]) -> Self {
        let (path, bytes) = (path.to_string(), bytes.to_vec());
        self.mutate_on_download = Some(DownloadMutation { path, on_call, calls: 0, bytes });
        self
    }

    fn fail_mdtm(mut self, message: &str) -> Self {
        self.mdtm_error = Some(message.to_string());
        self
    }

    fn apply_snapshot_mutation(&mut self, path: &str) {
        let mut kind = None;
        if let Some(mutation) = self.snapshot_mutation.as_mut() {
            if mutation.path == path {
                mutation.calls += 1;
                if mutation.calls == mutation.on_call {
                    kind = Some(mutation.kind);
                }
            }
        }
        match kind {
            Some(SnapshotMutationKind::RemoveDirectory) => {
                self.directories.remove(path);
            }
            Some(SnapshotMutationKind::ReplaceDirectoryWithFile) => {
                self.directories.remove(path);
                self.put(path, b"raced file", 40);
            }
            Some(SnapshotMutationKind::AddDirectory) => {
                self.directories.insert(path.to_string());
            }
            Some(SnapshotMutationKind::AddFile) => self.put(path, b"raced file", 40),
            None => {}
        }
    }

    fn list_dir_strict(&mut self, directory: &str) -> Result<Vec<Entry>, Error> {
        self.events.push(format!("list {directory}"));
        if !self.directories.contains(directory) {
            return Err(failure(&format!("strict LIST of non-directory {directory}")));
        }
        let mut children = BTreeMap::new();
        for path in self.directories.iter().filter(|path| *path != directory) {
            if let Some(name) = child_name(directory, path) {
                children.insert(name.to_string(), remote_entry(name, true, 0, test_mtime(0)));
            }
        }
        for (path, file) in &self.files {
            if let Some(name) = child_name(directory, path) {
                let size = file.bytes.len() as u64;
                children.insert(name.to_string(), remote_entry(name, false, size, file.modified));
            }
        }
        Ok(children.into_values().collect())
    }

    fn mtime(&mut self, path: &str) -> Result<Timestamp, Error> {
        if let Some(message) = &self.mdtm_error {
            return Err(failure(message));
        }
        self.events.push(format!("mtime {path}"));
        let file = self.files.get(path);
        file.map(|file| file.modified).ok_or_else(|| failure("missing remote mtime"))
    }

    fn size(&mut self, path: &str) -> Result<u64, Error> {
        self.events.push(format!("size {path}"));
        let file = self.files.get(path);
        file.map(|file| file.bytes.len() as u64).ok_or_else(|| failure("missing remote size"))
    }

    fn metadata(&mut self, path: &str) -> Option<RemoteMetadata> {
        let mtime = self.mtime(path).ok()?;
        let size = self.size(path).ok()?;
        Some(RemoteMetadata { mtime, size })
    }

    fn download(&mut self, path: &str) -> Result<Vec<u8>, Error> {
        self.events.push(format!("download {path}"));
        if let Some((on, current)) = &self.invalidate_on_download {
            if on == path {
                current.set(false);
            }
        }
        let mut raced = None;
        if let Some(mutation) = self.mutate_on_download.as_mut() {
            if mutation.path == path {
                mutation.calls += 1;
                if mutation.calls == mutation.on_call {
                    raced = Some(mutation.bytes.clone());
                }
            }
        }
        if let Some(bytes) = raced {
            self.put(path, &bytes, 41);
        }
        let file = self.files.get(path);
        file.map(|file| file.bytes.clone()).ok_or_else(|| failure("missing remote download"))
    }

    fn upload_bytes(&mut self, path: &str, bytes: &[u8]) -> Result<(), Error> {
        self.events.push(format!("upload {path}"));
        if !self.directories.contains(&parent_of(path)) {
            return Err(failure(&format!("missing remote upload parent for {path}")));
        }
        self.put(path, bytes, 50);
        Ok(())
    }

    fn rename(&mut self, from: &str, to: &str) -> Result<(), Error> {
        self.events.push(format!("rename {from} {to}"));
        let file = self.files.remove(from).ok_or_else(|| failure("missing rename source"))?;
        self.files.insert(to.to_string(), file);
        Ok(())
    }

    fn rm(&mut self, path: &str) {
        self.events.push(format!("rm {path}"));
        self.files.remove(path);
    }

    fn mkdir_scoped_strict(&mut self, path: &str) -> Result<(), Error> {
        self.events.push(format!("mkdir_strict {path}"));
        if let Some(message) = &self.strict_mkdir_error {
            return Err(failure(message));
        }
        self.directories.insert(path.to_string());
        Ok(())
    }

    fn exact_mtime(&mut self, path: &str) -> Result<Timestamp, Error> {
        self.events.push(format!("exact_mtime {path}"));
        let file = self.files.get(path);
        file.map(|file| file.modified).ok_or_else(|| failure("missing exact remote mtime"))
    }

    fn snapshot(&self, path: &str) -> Result<RemoteDestinationSnapshot, Error> {
        if self.directories.contains(path) {
            return Ok(RemoteDestinationSnapshot::Directory);
        }
        if let Some(file) = self.files.get(path) {
            return Ok(RemoteDestinationSnapshot::File {
                size: file.bytes.len() as u64,
                modified: file.modified,
                sha256: hash_bytes(&file.bytes),
            });
        }
        if !self.directories.contains(&parent_of(path)) {
            return Err(failure(&format!("missing remote parent for {path}")));
        }
        Ok(RemoteDestinationSnapshot::Missing)
    }

    fn destination_snapshot(&mut self, path: &str) -> Result<RemoteDestinationSnapshot, Error> {
        self.events.push(format!("snapshot {path}"));
        self.apply_snapshot_mutation(path);
        let result = self.snapshot(path);
        if let Some((expected, on_call, calls, current)) = &mut self.invalidate_on_snapshot {
            if path == expected.as_str() {
                *calls += 1;
                if *calls == *on_call {
                    current.set(false);
                }
            }
        }
        result
    }

    fn has_transfer_operation_below(&self, prefix: &str) -> bool {
        self.events.iter().any(|event| {
            !event.starts_with("list ")
                && event.split_ascii_whitespace().skip(1).any(|path| path.starts_with(prefix))
        })
    }

    fn has_mutation(&self) -> bool {
        self.events.iter().any(|event| {
            matches!(
                event.split_ascii_whitespace().next(),
                Some("upload" | "rename" | "rm" | "mkdir" | "mkdir_strict")
            )
        })
    }

    fn count(&self, event: &str) -> usize {
        self.events.iter().filter(|other| *other == event).count()
    }
}

/// Says whether a selection is current, and claims it for a change.
trait Gate {
    fn is_current(&mut self, local: &mut Local) -> bool;

    fn claim(&mut self, _local: &mut Local) -> ClaimReply {
        ClaimReply::Granted
    }

    fn release(&mut self, _local: &mut Local) {}
}

struct UnconditionalCommitGate;

impl Gate for UnconditionalCommitGate {
    fn is_current(&mut self, _local: &mut Local) -> bool {
        true
    }
}

struct SequenceGate {
    current: VecDeque<bool>,
    commits: usize,
}

impl SequenceGate {
    fn new(results: &[bool]) -> Self {
        Self { current: results.iter().copied().collect(), commits: 0 }
    }
}

impl Gate for SequenceGate {
    fn is_current(&mut self, _local: &mut Local) -> bool {
        self.current.pop_front().unwrap_or(false)
    }

    fn claim(&mut self, _local: &mut Local) -> ClaimReply {
        self.commits += 1;
        ClaimReply::Granted
    }
}

struct LiveGate {
    current: Rc<Cell<bool>>,
}

impl Gate for LiveGate {
    fn is_current(&mut self, _local: &mut Local) -> bool {
        self.current.get()
    }

    fn claim(&mut self, _local: &mut Local) -> ClaimReply {
        if self.current.get() { ClaimReply::Granted } else { ClaimReply::Cancelled }
    }
}

type Race = Box<dyn FnOnce(&mut Local)>;

/// Lets something happen before the first change inside a claim.
struct MutatingCommitGate {
    mutation: Option<Race>,
}

impl MutatingCommitGate {
    fn new(mutation: impl FnOnce(&mut Local) + 'static) -> Self {
        Self { mutation: Some(Box::new(mutation)) }
    }
}

impl Gate for MutatingCommitGate {
    fn is_current(&mut self, _local: &mut Local) -> bool {
        true
    }

    fn claim(&mut self, local: &mut Local) -> ClaimReply {
        if let Some(race) = self.mutation.take() {
            race(local);
        }
        ClaimReply::Granted
    }
}

/// Lets something happen after the first change inside a claim.
struct PostCommitMutatingGate {
    mutation: Option<Race>,
}

impl PostCommitMutatingGate {
    fn new(mutation: impl FnOnce(&mut Local) + 'static) -> Self {
        Self { mutation: Some(Box::new(mutation)) }
    }
}

impl Gate for PostCommitMutatingGate {
    fn is_current(&mut self, _local: &mut Local) -> bool {
        true
    }

    fn release(&mut self, local: &mut Local) {
        if let Some(race) = self.mutation.take() {
            race(local);
        }
    }
}

/// Lets something happen when the selection is asked for.
struct MutatingCurrentGate {
    calls: usize,
    on_call: usize,
    mutation: Option<Race>,
}

impl MutatingCurrentGate {
    fn new(on_call: usize, mutation: impl FnOnce(&mut Local) + 'static) -> Self {
        Self { calls: 0, on_call, mutation: Some(Box::new(mutation)) }
    }
}

impl Gate for MutatingCurrentGate {
    fn is_current(&mut self, local: &mut Local) -> bool {
        self.calls += 1;
        if self.calls == self.on_call {
            if let Some(race) = self.mutation.take() {
                race(local);
            }
        }
        true
    }
}


impl Local {
    fn directory_facts(&self, path: &str) -> DirectoryLook {
        let Some(own) = self.at(path) else {
            return DirectoryLook::Missing(failure("No such file or directory"));
        };
        let is_symlink = matches!(own, Node::Link { .. });
        match self.anchor(path) {
            Err(e) => DirectoryLook::Unfollowed(e),
            Ok(facts) => DirectoryLook::Found(DirectoryFacts {
                is_symlink,
                is_dir: facts.is_dir,
                canonical: facts.canonical,
                identity: facts.identity,
            }),
        }
    }

    fn content(&self, path: &str) -> HashFacts {
        match self.followed(path) {
            None => HashFacts::Missing,
            Some((Node::File { bytes, .. }, _)) => HashFacts::Hash(hash_bytes(bytes)),
            Some(_) => HashFacts::NotFile,
        }
    }

    fn hash_file(&self, path: &str) -> Result<String, Error> {
        match self.content(path) {
            HashFacts::Hash(hash) => Ok(hash),
            _ => Err(failure(&format!("{path} cannot be read"))),
        }
    }

    fn temp_facts(&self, path: &str) -> Result<TempFacts, Error> {
        match self.at(path) {
            Some(Node::File { bytes, identity, modified }) => Ok(TempFacts {
                is_file: true,
                identity: *identity,
                size: bytes.len() as u64,
                modified: Timestamp { secs: *modified, nanos: 0 },
                sha256: hash_bytes(bytes),
            }),
            _ => Err(failure(&format!("{path} is gone"))),
        }
    }
}

/// A project, its server, what is remembered of it and what it leaves out.
struct World<'a> {
    local: &'a mut Local,
    remote: &'a mut ProductionRemote,
    state: &'a mut StateFile,
    patterns: &'a [&'a str],
    gate: &'a mut dyn Gate,
    nonces: u64,
}

impl World<'_> {
    fn current(&mut self) -> bool {
        self.gate.is_current(self.local)
    }

    fn nonce(&mut self) -> String {
        self.nonces += 1;
        format!("{:032x}", self.nonces)
    }

    fn fetch(&mut self, path: &str, before: Option<RemoteMetadata>) -> Result<RemoteHash, Error> {
        let bytes = self.remote.download(path)?;
        let after = self.remote.metadata(path);
        fetched_hash(path, bytes, before, after, test_mtime(59))
    }

    fn remote_hash(&mut self, rel: &str, path: &str) -> Result<RemoteHash, Error> {
        let before = self.remote.metadata(path);
        if let Some(metadata) = before {
            if let Some(hash) = remembered_hash(self.state, rel, metadata) {
                return Ok(hash);
            }
        }
        self.fetch(path, before)
    }

    fn fresh(&mut self, path: &str) -> Result<RemoteHash, Error> {
        let before = self.remote.metadata(path);
        self.fetch(path, before)
    }

    fn validate(
        &mut self,
        validation: &mut DirectoryValidation,
        expected: &Vec<ExpectedDirectory>,
    ) {
        let relative = &expected[validation.current()].relative;
        match validation.phase {
            ValidationPhase::Local => {
                let facts = self.local.directory_facts(&local_path_of(ROOT, relative));
                validation.on_local(expected, facts);
            }
            ValidationPhase::Root => {
                validation.on_root(self.remote.list_dir_strict(REMOTE).map(|_| ()));
            }
            ValidationPhase::Snapshot => {
                let path = remote_join(REMOTE, relative);
                validation.on_snapshot(expected, self.remote.destination_snapshot(&path));
            }
            ValidationPhase::Done => {}
        }
    }

    fn capture(&mut self, sync: &ScopedSync) -> Result<Vec<ExpectedDirectory>, Error> {
        let root = self.local.anchor(ROOT)?.canonical;
        let entries = &sync.entries;
        let mut capture =
            DirectoryCapture::capture_directory_snapshots(ROOT, &root, REMOTE, entries);
        loop {
            match capture.phase {
                CapturePhase::Local => {
                    let path = local_path_of(ROOT, &capture.current());
                    capture.on_local(entries, self.local.directory_facts(&path));
                }
                CapturePhase::RemoteRoot => {
                    let reply = self.remote.list_dir_strict(REMOTE).map(|_| ());
                    capture.on_root(entries, reply);
                }
                CapturePhase::Remote => {
                    let path = capture.current_remote();
                    capture.on_remote(entries, self.remote.destination_snapshot(&path));
                }
                CapturePhase::Done => break,
            }
        }
        capture.outcome()
    }

    fn plan(&mut self, plan: &mut FilePlan) {
        loop {
            let path = plan.local_path.clone();
            match plan.phase {
                PlanPhase::Start
                | PlanPhase::AfterCapture
                | PlanPhase::AfterHash
                | PlanPhase::AfterRemote
                | PlanPhase::AfterDestination => {
                    let current = self.current();
                    plan.on_gate(current);
                }
                PlanPhase::Capture | PlanPhase::CaptureDestination => {
                    plan.on_probe(self.local.probe(ROOT, &path));
                }
                PlanPhase::VerifySource | PlanPhase::VerifyAgain => {
                    let probe = match &plan.source {
                        Some(source) => self.local.probe_again(&source.snapshot),
                        None => self.local.probe(ROOT, &path),
                    };
                    plan.on_probe(probe);
                }
                PlanPhase::Hash => {
                    let hash = self.local.hash_file(&path);
                    plan.on_hash(hash, self.local.probe(ROOT, &path));
                }
                PlanPhase::Remote => {
                    let reply = self.remote_hash(&plan.relative, &plan.remote_path);
                    plan.on_remote(reply);
                }
                PlanPhase::Destination => {
                    plan.on_snapshot(self.remote.destination_snapshot(&plan.remote_path));
                }
                PlanPhase::VerifyContent => plan.on_content(self.local.content(&path)),
                PlanPhase::Done => return,
            }
        }
    }

    fn create(&mut self, creation: &mut DirectoryCreation, expected: &Vec<ExpectedDirectory>) {
        loop {
            match creation.phase {
                CreationPhase::Poll => {
                    let current = self.current();
                    creation.on_gate(current, expected);
                }
                CreationPhase::Claim => {
                    let reply = self.gate.claim(self.local);
                    creation.on_claim(reply, expected);
                }
                CreationPhase::Validate => {
                    let relative = expected[creation.validation.current()].relative.clone();
                    match creation.validation.phase {
                        ValidationPhase::Local => {
                            let path = local_path_of(ROOT, &relative);
                            creation.on_local(expected, self.local.directory_facts(&path));
                        }
                        ValidationPhase::Root => {
                            let reply = self.remote.list_dir_strict(REMOTE).map(|_| ());
                            creation.on_root(expected, reply);
                        }
                        _ => {
                            let path = remote_join(REMOTE, &relative);
                            let reply = self.remote.destination_snapshot(&path);
                            creation.on_snapshot(expected, reply);
                        }
                    }
                }
                CreationPhase::Make => {
                    let made = match creation.action {
                        DirectoryAction::CreateLocal => {
                            self.local.mkdir(&local_path_of(ROOT, &creation.relative));
                            Ok(())
                        }
                        DirectoryAction::CreateRemote => {
                            let path = remote_join(REMOTE, &creation.relative);
                            self.remote.mkdir_scoped_strict(&path)
                        }
                    };
                    creation.on_made(made, expected);
                }
                CreationPhase::Inspect => {
                    let root = self.local.anchor(ROOT).map(|facts| facts.canonical);
                    let path = local_path_of(ROOT, &creation.relative);
                    creation.on_inspected(root, self.local.directory_facts(&path), expected);
                }
                CreationPhase::Release => {
                    self.gate.release(self.local);
                    creation.on_released(expected);
                }
                CreationPhase::Done => return,
            }
        }
    }

    fn settle(&mut self, settling: &mut Finalization, expected: &Vec<ExpectedDirectory>) {
        loop {
            let path = settling.plan.local_path.clone();
            match settling.phase {
                FinalizePhase::Poll
                | FinalizePhase::PollBeforeCapture
                | FinalizePhase::PollLast => {
                    let current = self.current();
                    settling.on_gate(current, expected);
                }
                FinalizePhase::Above => {
                    let relative = &expected[settling.queue[settling.at]].relative;
                    let facts = self.local.directory_facts(&local_path_of(ROOT, relative));
                    settling.on_local(expected, facts);
                }
                FinalizePhase::Content => settling.on_content(self.local.content(&path), expected),
                FinalizePhase::Source => {
                    let probe = match &settling.plan.existing_local_source {
                        Some(source) => self.local.probe_again(&source.snapshot),
                        None => self.local.probe(ROOT, &path),
                    };
                    settling.on_probe(probe, expected);
                }
                FinalizePhase::Capture => {
                    settling.on_probe(self.local.probe(ROOT, &path), expected);
                }
                FinalizePhase::Done => return,
            }
        }
    }

    fn upload(
        &mut self,
        relative: &str,
        plan: PlannedUpload,
        mode: ExecutionMode,
    ) -> Result<CommitDecision, Error> {
        let mut preparation = UploadPreparation::materialize_upload(relative, plan);
        while preparation.phase != PreparePhase::Done {
            let probe = self.local.probe_again(&preparation.plan.source.snapshot);
            match preparation.phase {
                PreparePhase::Poll | PreparePhase::PollAgain => {
                    let current = self.current();
                    preparation.on_gate(current);
                }
                PreparePhase::Payload => {
                    let path = preparation.plan.source.snapshot.resolved_path();
                    preparation.on_payload(Ok(self.local.read(&path)));
                }
                _ => preparation.on_probe(probe),
            }
        }
        match preparation.end {
            PrepareEnd::Ready => {}
            PrepareEnd::Failed => return Err(preparation.failure.unwrap()),
            _ => return Ok(CommitDecision::Cancelled),
        }
        let (mut upload, payload) = preparation.into_upload(mode);
        self.guarded_upload(&mut upload, &payload);
        upload.outcome()
    }

    fn guarded_upload(&mut self, upload: &mut GuardedUpload, payload: &[u8]) {
        loop {
            match upload.action() {
                UploadAction::ProbeSource => {
                    let probe = self.local.probe_again(&upload.request.source.snapshot);
                    upload.on_probe(probe);
                }
                UploadAction::Snapshot(path) => {
                    upload.on_snapshot(self.remote.destination_snapshot(&path));
                }
                UploadAction::PollGate => {
                    let current = self.current();
                    upload.on_gate(current);
                }
                UploadAction::DrawNonce => {
                    let nonce = self.nonce();
                    upload.on_nonce(&nonce);
                }
                UploadAction::Upload(path) => {
                    upload.on_uploaded(self.remote.upload_bytes(&path, payload));
                }
                UploadAction::Time(path) => upload.on_time(self.remote.exact_mtime(&path)),
                UploadAction::Claim => upload.on_claim(self.gate.claim(self.local)),
                UploadAction::Rename(from, to) => {
                    let renamed = self.remote.rename(&from, &to);
                    upload.on_renamed(renamed, self.state, test_mtime(58));
                }
                UploadAction::Release => {
                    self.gate.release(self.local);
                    upload.on_released();
                }
                UploadAction::Remove(path) => {
                    self.remote.rm(&path);
                    upload.on_removed();
                }
                UploadAction::Done => return,
            }
        }
    }

    fn download(
        &mut self,
        relative: &str,
        plan: PlannedDownload,
        mode: ExecutionMode,
    ) -> Result<CommitDecision, Error> {
        let mut preparation = DownloadPreparation::materialize_download(relative, plan);
        while preparation.phase != PreparePhase::Done {
            let path = preparation.plan.local_path.clone();
            match preparation.phase {
                PreparePhase::Poll | PreparePhase::PollAgain => {
                    let current = self.current();
                    preparation.on_gate(current);
                }
                PreparePhase::Payload => {
                    let reply = self.fresh(&preparation.plan.remote_path);
                    preparation.on_fresh(reply);
                }
                PreparePhase::Content => preparation.on_content(self.local.content(&path)),
                _ => {
                    let probe = match &preparation.plan.existing_local_source {
                        Some(source) => self.local.probe_again(&source.snapshot),
                        None => self.local.probe(ROOT, &path),
                    };
                    preparation.on_probe(probe);
                }
            }
        }
        match preparation.end {
            PrepareEnd::Ready => {}
            PrepareEnd::Failed => return Err(preparation.failure.unwrap()),
            _ => return Ok(CommitDecision::Cancelled),
        }
        let (mut download, payload) = preparation.into_download(mode).expect("nothing to download");
        self.guarded_download(&mut download, &payload.unwrap());
        download.outcome()
    }

    fn guarded_download(&mut self, download: &mut LocalDownload, payload: &[u8]) {
        loop {
            match download.action() {
                DownloadAction::ProbeDestination => {
                    let parent = self.local.anchor(&parent_of(&download.local_path));
                    let expected = &download.destination.as_ref().unwrap().snapshot;
                    let probe = self.local.probe_again(expected);
                    download.on_destination(parent, probe);
                }
                DownloadAction::PollGate => {
                    let current = self.current();
                    download.on_gate(current);
                }
                DownloadAction::ProbeAnchor => {
                    let expected = &download.destination.as_ref().unwrap().snapshot;
                    let root = self.local.anchor(&expected.canonical_root);
                    let parent = self.local.anchor(&expected.canonical_parent);
                    download.on_anchor(root, parent);
                }
                DownloadAction::LookAtParent(path) => {
                    download.on_parent(self.local.anchor(&parent_of(&path)));
                }
                DownloadAction::DrawNonce => {
                    let nonce = self.nonce();
                    download.on_nonce(&nonce);
                }
                DownloadAction::Open(path) => {
                    if self.local.is_there(&path) {
                        download.on_opened(OpenReply::Exists);
                    } else {
                        self.local.write(&path, b"");
                        download.on_opened(OpenReply::Opened);
                    }
                }
                DownloadAction::Identify => {
                    let identity = self.local.temp_facts(&download.temp).map(|facts| facts.identity);
                    download.on_identity(identity);
                }
                DownloadAction::Write => {
                    self.local.write(&download.temp, payload);
                    let written = self.local.temp_facts(&download.temp).map(|facts| WriteFacts {
                        is_file: facts.is_file,
                        size: facts.size,
                        modified: facts.modified,
                    });
                    download.on_written(written);
                }
                DownloadAction::ProbeStaged(parent, temp) => {
                    let parent = self.local.anchor(&parent);
                    download.on_staged(parent, self.local.temp_facts(&temp));
                }
                DownloadAction::Claim => download.on_claim(self.gate.claim(self.local)),
                DownloadAction::Rename(from, to) => {
                    self.local.rename(&from, &to);
                    download.on_renamed(Ok(()), self.state, test_mtime(58));
                }
                DownloadAction::Release => {
                    self.gate.release(self.local);
                    download.on_released();
                }
                DownloadAction::ProbeOwner(parent, temp) => {
                    let owner = self.local.temp_facts(&temp).ok();
                    let owner = owner.map(|facts| (facts.is_file, facts.identity));
                    download.on_owner(self.local.anchor(&parent).ok(), owner);
                }
                DownloadAction::RemoveFile(path) => {
                    self.local.remove(&path);
                    download.on_removed();
                }
                DownloadAction::Done => return,
                other => panic!("a guarded download asked for {other:?}"),
            }
        }
    }

    fn run(
        &mut self,
        scope: SyncScope,
        force: bool,
        mode: ExecutionMode,
    ) -> Result<SyncOutcome, Error> {
        let again = match &scope {
            SyncScope::Path(path) => SyncScope::Path(path.clone()),
            SyncScope::RootDirectory => SyncScope::RootDirectory,
            SyncScope::LegacyProject => SyncScope::LegacyProject,
        };
        let mut sync = run_scoped(scope, ROOT, REMOTE, force, mode)?;
        let remote = &mut *self.remote;
        let mut list = |directory: &str| remote.list_dir_strict(directory);
        let (inventory, _) = collect(self.local, &mut list, self.state, self.patterns, again);
        sync.on_inventory(inventory);
        loop {
            match sync.stage {
                SyncStage::Inventory => panic!("the inventory was answered"),
                SyncStage::Capture => {
                    let found = self.capture(&sync);
                    sync.on_directories(found);
                }
                SyncStage::File => {
                    let known = self.state.known_hash(&sync.files[sync.at]);
                    let mut plan = sync.file_plan(known);
                    self.plan(&mut plan);
                    sync.on_file(plan.verdict());
                }
                SyncStage::Directory => {
                    let mut creation = sync.creation();
                    self.create(&mut creation, &sync.directories);
                    sync.on_created(creation);
                }
                SyncStage::Settle => {
                    let mut settling = sync.begin_settling();
                    self.settle(&mut settling, &sync.directories);
                    let verdict = settling.verdict(&sync.directories);
                    sync.on_settled(verdict);
                }
                SyncStage::TransferPoll
                | SyncStage::ValidateStart
                | SyncStage::ValidatePoll
                | SyncStage::ValidateEnd => {
                    let current = self.current();
                    sync.on_gate(current);
                }
                SyncStage::Transfer => {
                    let transfer = sync.take_transfer();
                    let reply = match transfer.operation {
                        PlannedOperation::Upload(plan) => self.upload(&transfer.path, plan, mode),
                        PlannedOperation::Download(plan) => {
                            self.download(&transfer.path, plan, mode)
                        }
                        PlannedOperation::Preview => Ok(CommitDecision::Committed),
                    };
                    sync.on_transferred(reply);
                }
                SyncStage::Validate => {
                    let mut validation = sync.validation();
                    while validation.phase != ValidationPhase::Done {
                        self.validate(&mut validation, &sync.directories);
                    }
                    sync.on_validated(match validation.failure {
                        Some(error) => Err(error),
                        None => Ok(()),
                    });
                }
                SyncStage::Done => return sync.outcome(),
            }
        }
    }
}

fn run_production_with_patterns(
    remote: &mut ProductionRemote,
    local: &mut Local,
    state: &mut StateFile,
    scope: SyncScope,
    force: bool,
    mode: ExecutionMode,
    gate: &mut dyn Gate,
    patterns: &[&str],
) -> Result<SyncOutcome, Error> {
    let outcome = World { local, remote, state, patterns, gate, nonces: 0 }.run(scope, force, mode);
    if let Ok(outcome) = &outcome {
        assert_says_nothing_below_type_conflicts(outcome);
    }
    outcome
}

fn assert_says_nothing_below_type_conflicts(outcome: &SyncOutcome) {
    for issue in &outcome.issues {
        if let SyncIssue::TypeConflict { path: at, .. } = issue {
            let below = format!("{at}/");
            for event in &outcome.events {
                assert!(event.path != *at && !event.path.starts_with(&below), "{event:?}");
            }
            for other in &outcome.issues {
                if let SyncIssue::FileConflict { path, .. } = other {
                    assert!(path != at && !path.starts_with(&below), "{other:?}");
                }
            }
        }
    }
}

fn run_production(
    remote: &mut ProductionRemote,
    local: &mut Local,
    state: &mut StateFile,
    scope: SyncScope,
    force: bool,
    mode: ExecutionMode,
    gate: &mut dyn Gate,
) -> Result<SyncOutcome, Error> {
    run_production_with_patterns(remote, local, state, scope, force, mode, gate, &[])
}


#[test]
fn structured_type_conflict_subtree_local_directory_remote_file_keeps_clean_siblings() {
    let mut local = Local::new();
    local.mkdir("/project/conflict");
    local.write("/project/conflict/local-child.c", b"local child");
    local.write("/project/clean.c", b"clean local");
    local.write("/project/conflict-old.c", b"near miss");
    let mut remote = ProductionRemote::with_root().file("/remote/conflict", b"remote file");
    let mut state = StateFile::new();

    let outcome = run_production(
        &mut remote,
        &mut local,
        &mut state,
        SyncScope::RootDirectory,
        false,
        ExecutionMode::Apply,
        &mut UnconditionalCommitGate,
    )
    .unwrap();

    assert_eq!(
        outcome.issues,
        vec![SyncIssue::TypeConflict {
            path: "conflict".into(),
            local: EntryKind::Directory,
            remote: EntryKind::File,
        }]
    );
    assert_eq!(
        outcome.events,
        vec![
            SyncEvent {
                path: "clean.c".into(),
                kind: SyncEventKind::Uploaded,
            },
            SyncEvent {
                path: "conflict-old.c".into(),
                kind: SyncEventKind::Uploaded,
            },
        ]
    );
    assert!(state.files.contains("clean.c"));
    assert!(state.files.contains("conflict-old.c"));
    assert!(!state.files.contains("conflict/local-child.c"));
    assert!(!remote.has_transfer_operation_below("/remote/conflict/"));
}

#[test]
fn structured_type_conflict_subtree_local_file_remote_directory_keeps_clean_siblings() {
    let mut local = Local::new();
    local.write("/project/conflict", b"local file");
    local.write("/project/clean.c", b"clean local");
    local.write("/project/conflict-old.c", b"near miss");
    let mut remote = ProductionRemote::with_root()
        .directory("/remote/conflict")
        .file("/remote/conflict/remote-child.c", b"remote child");
    let mut state = StateFile::new();

    let outcome = run_production(
        &mut remote,
        &mut local,
        &mut state,
        SyncScope::RootDirectory,
        false,
        ExecutionMode::Apply,
        &mut UnconditionalCommitGate,
    )
    .unwrap();

    assert_eq!(
        outcome.issues,
        vec![SyncIssue::TypeConflict {
            path: "conflict".into(),
            local: EntryKind::File,
            remote: EntryKind::Directory,
        }]
    );
    assert_eq!(
        outcome.events,
        vec![
            SyncEvent {
                path: "clean.c".into(),
                kind: SyncEventKind::Uploaded,
            },
            SyncEvent {
                path: "conflict-old.c".into(),
                kind: SyncEventKind::Uploaded,
            },
        ]
    );
    assert!(state.files.contains("clean.c"));
    assert!(state.files.contains("conflict-old.c"));
    assert!(!state.files.contains("conflict/remote-child.c"));
    assert!(!remote.has_transfer_operation_below("/remote/conflict/"));
}

fn state_record(bytes: &[u8]) -> FileRecord {
    FileRecord {
        sha256: hash_bytes(&bytes.to_vec()),
        size: bytes.len() as u64,
        remote_mtime: test_mtime(0),
        last_synced: test_mtime(2),
    }
}

fn stale_cached_state_record(bytes: &[u8]) -> FileRecord {
    FileRecord {
        sha256: hash_bytes(&bytes.to_vec()),
        size: bytes.len() as u64,
        remote_mtime: test_mtime(1),
        last_synced: test_mtime(2),
    }
}

#[test]
fn stale_cached_remote_hash_reclassifies_actual_both_changed_as_conflict() {
    let mut local = Local::new();
    local.write("/project/file.c", b"loc");
    let mut remote = ProductionRemote::with_root().file("/remote/file.c", b"rem");
    let mut state = StateFile::new();
    state.files.insert("file.c".into(), stale_cached_state_record(b"old"));
    let before = state.copy();

    let outcome = run_production(
        &mut remote,
        &mut local,
        &mut state,
        SyncScope::Path("file.c".into()),
        false,
        ExecutionMode::Apply,
        &mut UnconditionalCommitGate,
    )
    .unwrap();

    assert!(outcome.events.is_empty());
    assert_eq!(
        outcome.issues,
        vec![SyncIssue::FileConflict {
            path: "file.c".into(),
            state: FileState::BothChanged,
        }]
    );
    assert_eq!(remote.files["/remote/file.c"].bytes, b"rem");
    assert!(
        !remote
            .events
            .iter()
            .any(|event| event.starts_with("upload ") || event.starts_with("rename "))
    );
    assert_eq!(
        remote
            .events
            .iter()
            .filter(|event| *event == "snapshot /remote/file.c")
            .count(),
        1
    );
    assert!(!state.differs(&before));
}

#[test]
fn stale_cached_remote_hash_force_uses_actual_destination_snapshot() {
    let mut local = Local::new();
    local.write("/project/file.c", b"loc");
    let mut remote = ProductionRemote::with_root().file("/remote/file.c", b"rem");
    let mut state = StateFile::new();
    state.files.insert("file.c".into(), stale_cached_state_record(b"old"));

    let outcome = run_production(
        &mut remote,
        &mut local,
        &mut state,
        SyncScope::Path("file.c".into()),
        true,
        ExecutionMode::Apply,
        &mut UnconditionalCommitGate,
    )
    .unwrap();

    assert_eq!(
        outcome.events,
        vec![SyncEvent {
            path: "file.c".into(),
            kind: SyncEventKind::ForcedRemoteOverwrite,
        }]
    );
    assert!(outcome.issues.is_empty());
    assert_eq!(remote.files["/remote/file.c"].bytes, b"loc");
    assert_eq!(state.files.get("file.c").unwrap().sha256, hash_bytes(&b"loc".to_vec()));
    assert_eq!(
        remote
            .events
            .iter()
            .filter(|event| *event == "snapshot /remote/file.c")
            .count(),
        3
    );
}

#[test]
fn stale_cached_remote_hash_matching_local_becomes_unchanged_without_upload() {
    let mut local = Local::new();
    local.write("/project/file.c", b"new");
    let mut remote = ProductionRemote::with_root().file("/remote/file.c", b"new");
    let mut state = StateFile::new();
    state.files.insert("file.c".into(), stale_cached_state_record(b"old"));
    let before = state.copy();

    let outcome = run_production(
        &mut remote,
        &mut local,
        &mut state,
        SyncScope::Path("file.c".into()),
        false,
        ExecutionMode::Apply,
        &mut UnconditionalCommitGate,
    )
    .unwrap();

    assert_eq!(
        outcome.events,
        vec![SyncEvent {
            path: "file.c".into(),
            kind: SyncEventKind::Unchanged,
        }]
    );
    assert!(outcome.issues.is_empty());
    assert_eq!(remote.files["/remote/file.c"].bytes, b"new");
    assert!(
        !remote
            .events
            .iter()
            .any(|event| event.starts_with("upload ") || event.starts_with("rename "))
    );
    assert_eq!(
        remote
            .events
            .iter()
            .filter(|event| *event == "snapshot /remote/file.c")
            .count(),
        1
    );
    assert!(!state.differs(&before));
}

fn run_hash_case(
    local_bytes: Option<&[u8]>,
    remote_bytes: Option<&[u8]>,
    known: Option<&[u8]>,
) -> SyncOutcome {
    let mut local = Local::new();
    if let Some(bytes) = local_bytes {
        local.write("/project/file.c", bytes);
    }
    let mut remote = ProductionRemote::with_root();
    if let Some(bytes) = remote_bytes {
        remote = remote.file("/remote/file.c", bytes);
    }
    let mut state = StateFile::new();
    if let Some(bytes) = known {
        state.files.insert("file.c".into(), state_record(bytes));
    }
    run_production(
        &mut remote,
        &mut local,
        &mut state,
        SyncScope::Path("file.c".into()),
        false,
        ExecutionMode::DryRun,
        &mut UnconditionalCommitGate,
    )
    .unwrap()
}

#[test]
fn structured_production_hash_combinations_keep_existing_action_semantics() {
    let cases = [
        (
            Some(b"a".as_slice()),
            Some(b"a".as_slice()),
            Some(b"a".as_slice()),
            SyncEventKind::Unchanged,
        ),
        (
            Some(b"b".as_slice()),
            Some(b"a".as_slice()),
            Some(b"a".as_slice()),
            SyncEventKind::Uploaded,
        ),
        (
            Some(b"a".as_slice()),
            Some(b"b".as_slice()),
            Some(b"a".as_slice()),
            SyncEventKind::Downloaded,
        ),
        (Some(b"a".as_slice()), None, None, SyncEventKind::Uploaded),
        (None, Some(b"a".as_slice()), None, SyncEventKind::Downloaded),
    ];

    for (local, remote, known, expected) in cases {
        let outcome = run_hash_case(local, remote, known);
        assert_eq!(
            outcome.events,
            vec![SyncEvent {
                path: "file.c".into(),
                kind: expected,
            }]
        );
        assert!(outcome.issues.is_empty());
        assert!(!outcome.cancelled);
    }
}

fn conflict_project() -> (Local, ProductionRemote, StateFile) {
    let mut local = Local::new();
    local.write("/project/both.c", b"local");
    local.write("/project/untracked.c", b"same");
    let remote = ProductionRemote::with_root()
        .file("/remote/both.c", b"remote")
        .file("/remote/untracked.c", b"same");
    let mut state = StateFile::new();
    state.files.insert("both.c".into(), state_record(b"known"));
    (local, remote, state)
}

#[test]
fn structured_production_conflicts_and_force_use_local_wins() {
    let (mut local, mut remote, mut state) = conflict_project();
    let outcome = run_production(
        &mut remote,
        &mut local,
        &mut state,
        SyncScope::RootDirectory,
        false,
        ExecutionMode::DryRun,
        &mut UnconditionalCommitGate,
    )
    .unwrap();

    assert_eq!(
        outcome.issues,
        vec![
            SyncIssue::FileConflict {
                path: "both.c".into(),
                state: FileState::BothChanged,
            },
            SyncIssue::FileConflict {
                path: "untracked.c".into(),
                state: FileState::Untracked,
            },
        ]
    );
    assert!(outcome.events.is_empty());

    let (mut local, mut remote, mut state) = conflict_project();
    let forced = run_production(
        &mut remote,
        &mut local,
        &mut state,
        SyncScope::RootDirectory,
        true,
        ExecutionMode::DryRun,
        &mut UnconditionalCommitGate,
    )
    .unwrap();

    assert_eq!(
        forced.events,
        vec![
            SyncEvent {
                path: "both.c".into(),
                kind: SyncEventKind::ForcedRemoteOverwrite,
            },
            SyncEvent {
                path: "untracked.c".into(),
                kind: SyncEventKind::ForcedRemoteOverwrite,
            },
        ]
    );
    assert!(forced.issues.is_empty());
}

#[test]
fn structured_production_orders_events_and_distinguishes_type_and_stale_issues() {
    let mut local = Local::new();
    local.write("/project/z.c", b"local");
    local.write("/project/m.c", b"local");
    local.write("/project/type.c", b"local file");
    let mut remote = ProductionRemote::with_root()
        .directory("/remote/type.c")
        .file("/remote/a.c", b"remote")
        .file("/remote/m.c", b"remote");
    let mut state = StateFile::new();
    state.files.insert("m.c".into(), state_record(b"known"));
    state.files.insert("stale.c".into(), state_record(b"stale"));

    let outcome = run_production(
        &mut remote,
        &mut local,
        &mut state,
        SyncScope::RootDirectory,
        false,
        ExecutionMode::DryRun,
        &mut UnconditionalCommitGate,
    )
    .unwrap();

    assert_eq!(
        outcome.events,
        vec![
            SyncEvent {
                path: "a.c".into(),
                kind: SyncEventKind::Downloaded,
            },
            SyncEvent {
                path: "stale.c".into(),
                kind: SyncEventKind::SkippedAbsent,
            },
            SyncEvent {
                path: "z.c".into(),
                kind: SyncEventKind::Uploaded,
            },
        ]
    );
    assert_eq!(
        outcome.issues,
        vec![
            SyncIssue::FileConflict {
                path: "m.c".into(),
                state: FileState::BothChanged,
            },
            SyncIssue::TypeConflict {
                path: "type.c".into(),
                local: EntryKind::File,
                remote: EntryKind::Directory,
            },
        ]
    );
}

#[test]
fn exact_stale_state_only_selection_skips_without_local_remote_or_state_mutation() {
    let mut local = Local::new();
    let mut remote = ProductionRemote::with_root();
    let mut state = StateFile::new();
    state.files.insert("gone.c".into(), state_record(b"previous bytes"));
    let before = state.copy();

    let outcome = run_production(
        &mut remote,
        &mut local,
        &mut state,
        SyncScope::Path("gone.c".into()),
        false,
        ExecutionMode::Apply,
        &mut UnconditionalCommitGate,
    )
    .unwrap();

    assert_eq!(
        outcome,
        SyncOutcome {
            events: vec![SyncEvent {
                path: "gone.c".into(),
                kind: SyncEventKind::SkippedAbsent,
            }],
            issues: vec![],
            cancelled: false,
        }
    );
    assert_eq!(local.names(ROOT).len(), 0);
    assert!(remote.files.is_empty());
    assert_eq!(remote.directories, BTreeSet::from(["/remote".to_string()]));
    assert!(!remote.has_mutation());
    assert!(!state.differs(&before));
}

#[test]
fn structured_production_outer_cancellation_stages_nothing() {
    let mut local = Local::new();
    local.write("/project/file.c", b"local");
    let mut remote = ProductionRemote::with_root();
    let mut state = StateFile::new();
    let mut gate = SequenceGate::new(&[false]);

    let outcome = run_production(
        &mut remote,
        &mut local,
        &mut state,
        SyncScope::RootDirectory,
        false,
        ExecutionMode::Apply,
        &mut gate,
    )
    .unwrap();

    assert!(outcome.cancelled);
    assert!(outcome.events.is_empty());
    assert_eq!(gate.commits, 0);
    assert!(
        !remote
            .events
            .iter()
            .any(|event| event.starts_with("upload "))
    );
    assert!(state.files.len() == 0);
}

#[test]
fn structured_production_upload_boundary_cancellation_stages_nothing() {
    let mut local = Local::new();
    local.write("/project/file.c", b"local");
    let mut remote = ProductionRemote::with_root();
    let mut state = StateFile::new();
    let mut gate = SequenceGate::new(&[true, false]);

    let outcome = run_production(
        &mut remote,
        &mut local,
        &mut state,
        SyncScope::RootDirectory,
        false,
        ExecutionMode::Apply,
        &mut gate,
    )
    .unwrap();

    assert!(outcome.cancelled);
    assert!(outcome.events.is_empty());
    assert_eq!(gate.commits, 0);
    assert!(
        !remote
            .events
            .iter()
            .any(|event| event.starts_with("upload "))
    );
    assert!(state.files.len() == 0);
}

#[test]
fn structured_production_download_boundary_cancellation_stages_nothing() {
    let mut local = Local::new();
    let mut remote = ProductionRemote::with_root().file("/remote/file.c", b"remote");
    let mut state = StateFile::new();
    let mut gate = SequenceGate::new(&[true, false]);

    let outcome = run_production(
        &mut remote,
        &mut local,
        &mut state,
        SyncScope::RootDirectory,
        false,
        ExecutionMode::Apply,
        &mut gate,
    )
    .unwrap();

    assert!(outcome.cancelled);
    assert!(outcome.events.is_empty());
    assert_eq!(gate.commits, 0);
    assert!(!local.is_there("/project/file.c"));
    assert!(state.files.len() == 0);
}

#[test]
fn structured_production_between_entries_keeps_the_first_commit_only() {
    let mut local = Local::new();
    local.write("/project/a.c", b"first");
    local.write("/project/b.c", b"second");
    let mut remote = ProductionRemote::with_root();
    let mut state = StateFile::new();
    // Complete both descriptors, then permit the first transfer through its
    // final pre-stage poll before cancelling at the second transfer boundary.
    let mut gate = SequenceGate::new(&[
        true, true, true, true, true, true, true, true, true, true, true, true, false,
    ]);

    let outcome = run_production(
        &mut remote,
        &mut local,
        &mut state,
        SyncScope::RootDirectory,
        false,
        ExecutionMode::Apply,
        &mut gate,
    )
    .unwrap();

    assert!(outcome.cancelled);
    assert_eq!(
        outcome.events,
        vec![SyncEvent {
            path: "a.c".into(),
            kind: SyncEventKind::Uploaded,
        }]
    );
    assert_eq!(gate.commits, 1);
    assert_eq!(remote.files["/remote/a.c"].bytes, b"first");
    assert!(!remote.files.contains_key("/remote/b.c"));
    assert!(state.files.contains("a.c"));
    assert!(!state.files.contains("b.c"));
}

#[test]
fn structured_production_final_directory_validation_invalidation_cancels_unchanged_scope() {
    let mut local = Local::new();
    local.mkdir("/project/shared");
    let current = Rc::new(Cell::new(true));
    let mut remote = ProductionRemote::with_root().directory("/remote/shared");
    remote.invalidate_on_snapshot = Some(("/remote/shared".into(), 2, 0, Rc::clone(&current)));
    let mut state = StateFile::new();
    let mut gate = LiveGate { current };

    let outcome = run_production(
        &mut remote,
        &mut local,
        &mut state,
        SyncScope::RootDirectory,
        false,
        ExecutionMode::Apply,
        &mut gate,
    )
    .unwrap();

    assert!(outcome.cancelled);
    assert!(outcome.events.is_empty());
    assert!(outcome.issues.is_empty());
    assert!(
        remote
            .events
            .iter()
            .any(|event| event == "snapshot /remote/shared")
    );
    assert!(state.files.len() == 0);
}

#[test]
fn directory_race_local_only_source_disappears_before_remote_create() {
    let mut local = Local::new();
    let source = "/project/source";
    local.mkdir(source);
    let raced = source;
    let mut gate = MutatingCommitGate::new(move |local| local.remove(raced));
    let mut remote = ProductionRemote::with_root();
    let mut state = StateFile::new();

    let error = run_production(
        &mut remote,
        &mut local,
        &mut state,
        SyncScope::Path("source".into()),
        false,
        ExecutionMode::Apply,
        &mut gate,
    )
    .unwrap_err();

    assert!(error.full_message().contains("source"));
    assert!(!remote.directories.contains("/remote/source"));
    assert!(!remote.events.iter().any(|event| event.starts_with("mkdir")));
}

#[test]
fn vanished_directory_is_refused_with_its_cause() {
    let mut local = Local::new();
    local.mkdir("/project/source");
    let mut gate = MutatingCommitGate::new(|local| local.remove("/project/source"));
    let mut remote = ProductionRemote::with_root();

    let error = run_production(
        &mut remote,
        &mut local,
        &mut StateFile::new(),
        SyncScope::Path("source".into()),
        false,
        ExecutionMode::Apply,
        &mut gate,
    )
    .unwrap_err();

    assert_eq!(
        error.full_message(),
        "reading local directory /project/source: No such file or directory"
    );
}

#[test]
fn cancelled_sync_says_nothing_below_a_type_conflict() {
    let mut local = Local::new();
    local.mkdir("/project/conflict");
    local.write("/project/conflict/child.c", b"local child");
    local.write("/project/clean.c", b"clean local");
    let mut remote = ProductionRemote::with_root().file("/remote/conflict", b"remote file");
    let mut state = StateFile::new();
    state.files.insert("conflict/gone.c".into(), state_record(b"previous bytes"));
    state.files.insert("gone.c".into(), state_record(b"previous bytes"));

    let outcome = run_production(
        &mut remote,
        &mut local,
        &mut state,
        SyncScope::RootDirectory,
        false,
        ExecutionMode::Apply,
        &mut SequenceGate::new(&[false]),
    )
    .unwrap();

    assert!(outcome.cancelled);
    assert_eq!(
        outcome.issues,
        vec![SyncIssue::TypeConflict {
            path: "conflict".into(),
            local: EntryKind::Directory,
            remote: EntryKind::File,
        }]
    );
    assert_eq!(
        outcome.events,
        vec![SyncEvent { path: "gone.c".into(), kind: SyncEventKind::SkippedAbsent }]
    );
}

#[test]
fn directory_race_local_only_source_becomes_file_before_remote_create() {
    let mut local = Local::new();
    let source = "/project/source";
    local.mkdir(source);
    let raced = source;
    let mut gate = MutatingCommitGate::new(move |local| {
        local.remove(raced);
        local.write(raced, b"raced local file");
    });
    let mut remote = ProductionRemote::with_root();
    let mut state = StateFile::new();

    let error = run_production(
        &mut remote,
        &mut local,
        &mut state,
        SyncScope::Path("source".into()),
        false,
        ExecutionMode::Apply,
        &mut gate,
    )
    .unwrap_err();

    assert!(error.full_message().contains("source"));
    assert_eq!(local.read(source), b"raced local file");
    assert!(!remote.directories.contains("/remote/source"));
}

#[test]
fn directory_race_remote_only_source_disappears_before_local_create() {
    let mut local = Local::new();
    let mut remote = ProductionRemote::with_root()
        .directory("/remote/source")
        .mutate_snapshot("/remote/source", 2, SnapshotMutationKind::RemoveDirectory);
    let mut state = StateFile::new();

    let error = run_production(
        &mut remote,
        &mut local,
        &mut state,
        SyncScope::Path("source".into()),
        false,
        ExecutionMode::Apply,
        &mut UnconditionalCommitGate,
    )
    .unwrap_err();

    assert!(error.full_message().contains("source"));
    assert!(!local.is_there("/project/source"));
}

#[test]
fn directory_race_remote_only_source_becomes_file_before_local_create() {
    let mut local = Local::new();
    let mut remote = ProductionRemote::with_root()
        .directory("/remote/source")
        .mutate_snapshot(
            "/remote/source",
            2,
            SnapshotMutationKind::ReplaceDirectoryWithFile,
        );
    let mut state = StateFile::new();

    let error = run_production(
        &mut remote,
        &mut local,
        &mut state,
        SyncScope::Path("source".into()),
        false,
        ExecutionMode::Apply,
        &mut UnconditionalCommitGate,
    )
    .unwrap_err();

    assert!(error.full_message().contains("source"));
    assert!(!local.is_there("/project/source"));
    assert_eq!(remote.files["/remote/source"].bytes, b"raced file");
}

#[test]
fn directory_race_missing_local_destination_appears_before_create() {
    let mut local = Local::new();
    let destination = "/project/source";
    let raced = destination;
    let mut gate = MutatingCommitGate::new(move |local| local.mkdir(raced));
    let mut remote = ProductionRemote::with_root().directory("/remote/source");
    let mut state = StateFile::new();

    let error = run_production(
        &mut remote,
        &mut local,
        &mut state,
        SyncScope::Path("source".into()),
        false,
        ExecutionMode::Apply,
        &mut gate,
    )
    .unwrap_err();

    assert!(error.full_message().contains("source"));
    assert!(local.is_dir(destination));
    assert!(remote.directories.contains("/remote/source"));
}

#[test]
fn directory_race_missing_remote_destination_appears_before_create() {
    let mut local = Local::new();
    local.mkdir("/project/source");
    let mut remote = ProductionRemote::with_root().mutate_snapshot(
        "/remote/source",
        2,
        SnapshotMutationKind::AddDirectory,
    );
    let mut state = StateFile::new();

    let error = run_production(
        &mut remote,
        &mut local,
        &mut state,
        SyncScope::Path("source".into()),
        false,
        ExecutionMode::Apply,
        &mut UnconditionalCommitGate,
    )
    .unwrap_err();

    assert!(error.full_message().contains("source"));
    assert!(local.is_dir("/project/source"));
    assert!(remote.directories.contains("/remote/source"));
    assert!(
        !remote
            .events
            .iter()
            .any(|event| event == "mkdir_strict /remote/source")
    );
}

#[test]
fn directory_race_shared_local_directory_changes_type_before_final_validation() {
    let mut local = Local::new();
    let shared = "/project/shared";
    local.mkdir(shared);
    let raced = shared;
    let mut gate = MutatingCurrentGate::new(2, move |local| {
        local.remove(raced);
        local.write(raced, b"raced local file");
    });
    let mut remote = ProductionRemote::with_root().directory("/remote/shared");
    let mut state = StateFile::new();

    let error = run_production(
        &mut remote,
        &mut local,
        &mut state,
        SyncScope::Path("shared".into()),
        false,
        ExecutionMode::Apply,
        &mut gate,
    )
    .unwrap_err();

    assert!(error.full_message().contains("shared"));
    assert_eq!(local.read(shared), b"raced local file");
    assert!(remote.directories.contains("/remote/shared"));
}

#[test]
fn directory_race_shared_remote_directory_changes_type_before_final_validation() {
    let mut local = Local::new();
    local.mkdir("/project/shared");
    let mut remote = ProductionRemote::with_root()
        .directory("/remote/shared")
        .mutate_snapshot(
            "/remote/shared",
            2,
            SnapshotMutationKind::ReplaceDirectoryWithFile,
        );
    let mut state = StateFile::new();

    let error = run_production(
        &mut remote,
        &mut local,
        &mut state,
        SyncScope::Path("shared".into()),
        false,
        ExecutionMode::Apply,
        &mut UnconditionalCommitGate,
    )
    .unwrap_err();

    assert!(error.full_message().contains("shared"));
    assert!(local.is_dir("/project/shared"));
    assert_eq!(remote.files["/remote/shared"].bytes, b"raced file");
}

#[test]
fn directory_race_unchanged_empty_scope_final_invalidation_cancels() {
    let mut local = Local::new();
    local.mkdir("/project/empty");
    let current = Rc::new(Cell::new(true));
    let mut remote = ProductionRemote::with_root().directory("/remote/empty");
    remote.invalidate_on_snapshot = Some(("/remote/empty".into(), 2, 0, Rc::clone(&current)));
    let mut state = StateFile::new();

    let outcome = run_production(
        &mut remote,
        &mut local,
        &mut state,
        SyncScope::Path("empty".into()),
        false,
        ExecutionMode::Apply,
        &mut LiveGate { current },
    )
    .unwrap();

    assert!(outcome.cancelled);
    assert!(outcome.events.is_empty());
    assert!(local.is_dir("/project/empty"));
    assert!(remote.directories.contains("/remote/empty"));
}

#[test]
fn directory_race_strict_mkd_550_propagates_without_tolerant_fallback() {
    let mut local = Local::new();
    local.mkdir("/project/source");
    let mut remote = ProductionRemote::with_root().fail_strict_mkdir("550 denied");
    let mut state = StateFile::new();

    let error = run_production(
        &mut remote,
        &mut local,
        &mut state,
        SyncScope::Path("source".into()),
        false,
        ExecutionMode::Apply,
        &mut UnconditionalCommitGate,
    )
    .unwrap_err();

    assert!(error.full_message().contains("550 denied"));
    assert!(local.is_dir("/project/source"));
    assert!(!remote.directories.contains("/remote/source"));
    assert!(
        remote
            .events
            .iter()
            .any(|event| event == "mkdir_strict /remote/source")
    );
    assert!(
        !remote
            .events
            .iter()
            .any(|event| event == "mkdir /remote/source")
    );
}

#[test]
fn directory_race_missing_remote_destination_file_appears_without_overwrite() {
    let mut local = Local::new();
    local.mkdir("/project/source");
    let mut remote = ProductionRemote::with_root().mutate_snapshot(
        "/remote/source",
        2,
        SnapshotMutationKind::AddFile,
    );
    let mut state = StateFile::new();

    let error = run_production(
        &mut remote,
        &mut local,
        &mut state,
        SyncScope::Path("source".into()),
        false,
        ExecutionMode::Apply,
        &mut UnconditionalCommitGate,
    )
    .unwrap_err();

    assert!(error.full_message().contains("source"));
    assert_eq!(remote.files["/remote/source"].bytes, b"raced file");
    assert!(local.is_dir("/project/source"));
}

#[test]
fn selected_missing_leaf_below_local_directory_prefix_is_not_found_without_mutation() {
    let mut local = Local::new();
    local.mkdir("/project/area");
    let mut remote = ProductionRemote::with_root();
    let mut state = StateFile::new();

    let error = run_production(
        &mut remote,
        &mut local,
        &mut state,
        SyncScope::Path("area/missing.c".into()),
        false,
        ExecutionMode::Apply,
        &mut UnconditionalCommitGate,
    )
    .unwrap_err();

    assert!(error.full_message().contains("path not found locally or remotely"));
    assert!(local.is_dir("/project/area"));
    assert_eq!(remote.directories, BTreeSet::from(["/remote".to_string()]));
    assert!(!remote.has_mutation());
    assert!(state.files.len() == 0);
}

#[test]
fn selected_missing_leaf_below_remote_directory_prefix_is_not_found_without_mutation() {
    let mut local = Local::new();
    let mut remote = ProductionRemote::with_root().directory("/remote/area");
    let mut state = StateFile::new();

    let error = run_production(
        &mut remote,
        &mut local,
        &mut state,
        SyncScope::Path("area/missing.c".into()),
        false,
        ExecutionMode::Apply,
        &mut UnconditionalCommitGate,
    )
    .unwrap_err();

    assert!(error.full_message().contains("path not found locally or remotely"));
    assert!(!local.is_there("/project/area"));
    assert!(remote.directories.contains("/remote/area"));
    assert!(!remote.has_mutation());
    assert!(state.files.len() == 0);
}

#[test]
fn selected_missing_descendant_does_not_upload_its_local_file_ancestor() {
    let mut local = Local::new();
    local.write("/project/area", b"local ancestor");
    let mut remote = ProductionRemote::with_root();
    let mut state = StateFile::new();

    let error = run_production(
        &mut remote,
        &mut local,
        &mut state,
        SyncScope::Path("area/missing.c".into()),
        false,
        ExecutionMode::Apply,
        &mut UnconditionalCommitGate,
    )
    .unwrap_err();

    assert!(error.full_message().contains("path not found locally or remotely"));
    assert_eq!(
        local.read("/project/area"),
        b"local ancestor"
    );
    assert!(!remote.files.contains_key("/remote/area"));
    assert!(!remote.has_mutation());
    assert!(state.files.len() == 0);
}

#[test]
fn selected_missing_descendant_does_not_download_its_remote_file_ancestor() {
    let mut local = Local::new();
    let mut remote = ProductionRemote::with_root().file("/remote/area", b"remote ancestor");
    let mut state = StateFile::new();

    let error = run_production(
        &mut remote,
        &mut local,
        &mut state,
        SyncScope::Path("area/missing.c".into()),
        false,
        ExecutionMode::Apply,
        &mut UnconditionalCommitGate,
    )
    .unwrap_err();

    assert!(error.full_message().contains("path not found locally or remotely"));
    assert!(!local.is_there("/project/area"));
    assert_eq!(remote.files["/remote/area"].bytes, b"remote ancestor");
    assert!(!remote.has_mutation());
    assert!(state.files.len() == 0);
}

#[test]
fn remote_selected_leaf_with_local_file_parent_reports_typed_conflict_without_mutation() {
    let mut local = Local::new();
    local.write("/project/area", b"local ancestor");
    let mut remote = ProductionRemote::with_root()
        .directory("/remote/area")
        .file("/remote/area/selected.c", b"remote selected");
    let mut state = StateFile::new();

    let outcome = run_production(
        &mut remote,
        &mut local,
        &mut state,
        SyncScope::Path("area/selected.c".into()),
        false,
        ExecutionMode::Apply,
        &mut UnconditionalCommitGate,
    )
    .unwrap();

    assert_eq!(
        outcome.issues,
        vec![SyncIssue::TypeConflict {
            path: "area".into(),
            local: EntryKind::File,
            remote: EntryKind::Directory,
        }]
    );
    assert_eq!(
        local.read("/project/area"),
        b"local ancestor"
    );
    assert_eq!(
        remote.files["/remote/area/selected.c"].bytes,
        b"remote selected"
    );
    assert!(!remote.has_mutation());
    assert!(remote.events.iter().all(|event| event.starts_with("list ")));
    assert!(state.files.len() == 0);
}

#[test]
fn local_selected_leaf_with_remote_file_parent_reports_typed_conflict_without_mutation() {
    let mut local = Local::new();
    local.mkdir("/project/area");
    local.write("/project/area/selected.c", b"local selected");
    let mut remote = ProductionRemote::with_root().file("/remote/area", b"remote ancestor");
    let mut state = StateFile::new();

    let outcome = run_production(
        &mut remote,
        &mut local,
        &mut state,
        SyncScope::Path("area/selected.c".into()),
        false,
        ExecutionMode::Apply,
        &mut UnconditionalCommitGate,
    )
    .unwrap();

    assert_eq!(
        outcome.issues,
        vec![SyncIssue::TypeConflict {
            path: "area".into(),
            local: EntryKind::Directory,
            remote: EntryKind::File,
        }]
    );
    assert_eq!(
        local.read("/project/area/selected.c"),
        b"local selected"
    );
    assert_eq!(remote.files["/remote/area"].bytes, b"remote ancestor");
    assert!(!remote.has_mutation());
    assert!(remote.events.iter().all(|event| event.starts_with("list ")));
    assert!(state.files.len() == 0);
}

#[test]
fn ignored_selected_leaf_under_ignored_ancestor_creates_nothing_and_keeps_state() {
    let mut local = Local::new();
    local.mkdir("/project/ignored");
    local.write("/project/ignored/selected.c", b"ignored local");
    let mut remote = ProductionRemote::with_root();
    let mut state = StateFile::new();
    state.files.insert(
        "ignored/selected.c".into(),
        state_record(b"previous ignored bytes"),
    );
    let before = state.copy();

    let error = run_production_with_patterns(
        &mut remote,
        &mut local,
        &mut state,
        SyncScope::Path("ignored/selected.c".into()),
        false,
        ExecutionMode::Apply,
        &mut UnconditionalCommitGate,
        &["ignored/"],
    )
    .unwrap_err();

    assert!(error.full_message().contains("path not found locally or remotely"));
    assert_eq!(
        local.read("/project/ignored/selected.c"),
        b"ignored local"
    );
    assert!(!state.differs(&before));
    assert_eq!(remote.directories, BTreeSet::from(["/remote".to_string()]));
    assert!(!remote.has_mutation());
}

#[test]
fn ignored_directory_near_miss_still_materializes_parent_and_syncs_selected_leaf() {
    let mut local = Local::new();
    local.mkdir("/project/ignored-old");
    local.write("/project/ignored-old/selected.c", b"kept local");
    let mut remote = ProductionRemote::with_root();
    let mut state = StateFile::new();

    let outcome = run_production_with_patterns(
        &mut remote,
        &mut local,
        &mut state,
        SyncScope::Path("ignored-old/selected.c".into()),
        false,
        ExecutionMode::Apply,
        &mut UnconditionalCommitGate,
        &["ignored/"],
    )
    .unwrap();

    assert!(outcome.issues.is_empty());
    assert_eq!(
        remote.files["/remote/ignored-old/selected.c"].bytes,
        b"kept local"
    );
    assert!(remote.directories.contains("/remote/ignored-old"));
    assert!(state.files.contains("ignored-old/selected.c"));
}
#[test]
fn planning_cancellation_stops_large_retrievals_before_any_mutation() {
    let mut local = Local::new();
    local.mkdir("/project/pending");
    let large_a = vec![b'a'; 2 * 1024 * 1024];
    let large_b = vec![b'b'; 2 * 1024 * 1024];
    let current = Rc::new(Cell::new(true));
    let mut remote = ProductionRemote::with_root()
        .file("/remote/a.bin", &large_a)
        .file("/remote/b.bin", &large_b);
    remote.invalidate_on_download = Some(("/remote/a.bin".into(), Rc::clone(&current)));
    let mut state = StateFile::new();

    let outcome = run_production(
        &mut remote,
        &mut local,
        &mut state,
        SyncScope::RootDirectory,
        false,
        ExecutionMode::Apply,
        &mut LiveGate { current },
    )
    .unwrap();

    assert!(outcome.cancelled);
    assert!(outcome.events.is_empty());
    assert!(!remote.has_mutation());
    assert_eq!(
        remote
            .events
            .iter()
            .filter(|event| event.starts_with("download "))
            .map(String::as_str)
            .collect::<Vec<_>>(),
        vec!["download /remote/a.bin"]
    );
    assert!(!remote.directories.contains("/remote/pending"));
    assert!(state.files.len() == 0);
}

#[test]
fn cancellation_before_materialization_does_not_retrieve_or_stage() {
    let mut local = Local::new();
    let mut remote = ProductionRemote::with_root().file("/remote/file.c", b"remote");
    let mut state = StateFile::new();
    state.files.insert("file.c".into(), stale_cached_state_record(b"remote"));
    let mut gate = SequenceGate::new(&[true, true, false]);

    let outcome = run_production(
        &mut remote,
        &mut local,
        &mut state,
        SyncScope::Path("file.c".into()),
        false,
        ExecutionMode::Apply,
        &mut gate,
    )
    .unwrap();

    assert!(outcome.cancelled);
    assert!(!local.is_there("/project/file.c"));
    assert!(
        !remote
            .events
            .iter()
            .any(|event| event.starts_with("download ") || event.starts_with("upload "))
    );
    assert!(state.files.contains("file.c"));
}

#[test]
fn local_upload_change_between_preflight_and_directory_phase_fails_safely() {
    let mut local = Local::new();
    local.mkdir("/project/nested");
    let source = "/project/nested/file.c";
    local.write(source, b"planned");
    let raced = source;
    let mut gate = MutatingCommitGate::new(move |local| local.write(raced, b"changed"));
    let mut remote = ProductionRemote::with_root();
    let mut state = StateFile::new();

    let error = run_production(
        &mut remote,
        &mut local,
        &mut state,
        SyncScope::Path("nested".into()),
        false,
        ExecutionMode::Apply,
        &mut gate,
    )
    .unwrap_err();

    assert!(error.full_message().contains("local source changed"));
    assert!(remote.directories.contains("/remote/nested"));
    assert!(!remote.files.contains_key("/remote/nested/file.c"));
    assert!(state.files.len() == 0);
}

#[test]
fn remote_download_change_between_preflight_and_materialization_fails_safely() {
    let mut local = Local::new();
    let mut remote = ProductionRemote::with_root()
        .directory("/remote/nested")
        .file("/remote/nested/file.c", b"planned")
        .mutate_download("/remote/nested/file.c", 2, b"changed");
    let mut state = StateFile::new();

    let error = run_production(
        &mut remote,
        &mut local,
        &mut state,
        SyncScope::Path("nested".into()),
        false,
        ExecutionMode::Apply,
        &mut UnconditionalCommitGate,
    )
    .unwrap_err();

    assert!(error.full_message().contains("remote changed"));
    assert!(local.is_dir("/project/nested"));
    assert!(!local.is_there("/project/nested/file.c"));
    assert!(state.files.len() == 0);
}

#[test]
fn directory_validation_does_not_revalidate_an_earlier_sibling() {
    let mut local = Local::new();
    local.mkdir("/project/a");
    local.mkdir("/project/b");
    let mut remote = ProductionRemote::with_root();
    let mut state = StateFile::new();

    let outcome = run_production(
        &mut remote,
        &mut local,
        &mut state,
        SyncScope::RootDirectory,
        false,
        ExecutionMode::Apply,
        &mut UnconditionalCommitGate,
    )
    .unwrap();

    assert!(!outcome.cancelled);
    assert_eq!(
        remote
            .events
            .iter()
            .filter(|event| *event == "snapshot /remote/a")
            .count(),
        3
    );
    assert!(remote.directories.contains("/remote/a"));
    assert!(remote.directories.contains("/remote/b"));
}

#[test]
fn missing_parent_refresh_rejects_a_file_that_appears_after_directory_creation() {
    let mut local = Local::new();
    let local_path = "/project/nested/file.c";
    let raced_path = local_path;
    let mut gate = PostCommitMutatingGate::new(move |local| {
        local.write(raced_path, b"foreign");
    });
    let mut remote = ProductionRemote::with_root()
        .directory("/remote/nested")
        .file("/remote/nested/file.c", b"planned");
    let mut state = StateFile::new();

    let error = run_production(
        &mut remote,
        &mut local,
        &mut state,
        SyncScope::Path("nested".into()),
        false,
        ExecutionMode::Apply,
        &mut gate,
    )
    .unwrap_err();

    assert!(error.full_message().contains("local destination changed"));
    assert_eq!(local.read(local_path), b"foreign");
    assert_eq!(
        remote
            .events
            .iter()
            .filter(|event| *event == "download /remote/nested/file.c")
            .count(),
        1
    );
    assert!(state.files.len() == 0);
}

#[test]
fn missing_parent_refresh_rejects_a_replaced_created_parent() {
    let mut local = Local::new();
    let local_parent = "/project/nested";
    let raced_parent = local_parent;
    let replacement = "/project/replacement";
    local.mkdir(replacement);
    let mut gate = PostCommitMutatingGate::new(move |local| {
        local.remove(raced_parent);
        local.rename(replacement, raced_parent);
    });
    let mut remote = ProductionRemote::with_root()
        .directory("/remote/nested")
        .file("/remote/nested/file.c", b"planned");
    let mut state = StateFile::new();

    let error = run_production(
        &mut remote,
        &mut local,
        &mut state,
        SyncScope::Path("nested".into()),
        false,
        ExecutionMode::Apply,
        &mut gate,
    )
    .unwrap_err();

    assert!(error.full_message().contains("local directory changed"));
    assert!(local.is_dir(local_parent));
    assert!(!local.is_there("/project/nested/file.c"));
    assert_eq!(
        remote
            .events
            .iter()
            .filter(|event| *event == "download /remote/nested/file.c")
            .count(),
        1
    );
    assert!(state.files.len() == 0);
}

#[test]
fn fresh_download_falls_back_to_hash_and_size_without_mdtm() {
    let mut local = Local::new();
    let mut remote = ProductionRemote::with_root()
        .file("/remote/file.c", b"remote")
        .fail_mdtm("500 MDTM unsupported");
    let mut state = StateFile::new();

    let outcome = run_production(
        &mut remote,
        &mut local,
        &mut state,
        SyncScope::Path("file.c".into()),
        false,
        ExecutionMode::Apply,
        &mut UnconditionalCommitGate,
    )
    .unwrap();

    assert_eq!(
        outcome.events,
        vec![SyncEvent {
            path: "file.c".into(),
            kind: SyncEventKind::Downloaded,
        }]
    );
    assert_eq!(
        local.read("/project/file.c"),
        b"remote"
    );
    assert_eq!(
        remote
            .events
            .iter()
            .filter(|event| *event == "download /remote/file.c")
            .count(),
        2
    );
    assert_eq!(state.files.get("file.c").unwrap().sha256, hash_bytes(&b"remote".to_vec()));
}

#[test]
fn strict_mkdir_error_is_not_reinterpreted_through_tolerant_mkdir() {
    let mut local = Local::new();
    local.mkdir("/project/new");
    let mut remote = ProductionRemote::with_root().fail_strict_mkdir("scripted strict MKD failure");
    let mut state = StateFile::new();

    let error = run_production(
        &mut remote,
        &mut local,
        &mut state,
        SyncScope::Path("new".into()),
        false,
        ExecutionMode::Apply,
        &mut UnconditionalCommitGate,
    )
    .unwrap_err();

    assert!(error.full_message().contains("strict MKD failure"));
    assert_eq!(remote.count("mkdir_strict /remote/new"), 1);
    assert_eq!(remote.count("mkdir /remote/new"), 0);
}

#[test]
fn a_completed_run_reports_every_file_of_its_scope_once() {
    let mut local = Local::new();
    local.mkdir("/project/clash");
    local.write("/project/clash/below.c", b"local");
    for (path, bytes) in [("both.c", "local"), ("mine.c", "new"), ("same.c", "same")] {
        local.write(&format!("/project/{path}"), bytes.as_bytes());
    }
    let mut remote = ProductionRemote::with_root()
        .file("/remote/clash", b"remote")
        .file("/remote/both.c", b"remote")
        .file("/remote/same.c", b"same")
        .file("/remote/theirs.c", b"theirs");
    let mut state = StateFile::new();
    for (path, bytes) in [("both.c", "known"), ("gone.c", "known"), ("same.c", "same")] {
        state.files.insert(path.into(), state_record(bytes.as_bytes()));
    }

    let outcome = run_production(
        &mut remote,
        &mut local,
        &mut state,
        SyncScope::RootDirectory,
        false,
        ExecutionMode::Apply,
        &mut UnconditionalCommitGate,
    )
    .unwrap();

    let reported: Vec<(&str, SyncEventKind)> =
        outcome.events.iter().map(|event| (event.path.as_str(), event.kind)).collect();
    assert_eq!(
        reported,
        vec![
            ("gone.c", SyncEventKind::SkippedAbsent),
            ("mine.c", SyncEventKind::Uploaded),
            ("same.c", SyncEventKind::Unchanged),
            ("theirs.c", SyncEventKind::Downloaded),
        ]
    );
    assert_eq!(
        outcome.issues,
        vec![
            SyncIssue::FileConflict { path: "both.c".into(), state: FileState::BothChanged },
            SyncIssue::TypeConflict {
                path: "clash".into(),
                local: EntryKind::Directory,
                remote: EntryKind::File,
            },
        ]
    );
}

#[test]
fn a_second_run_finds_what_the_first_one_transferred_unchanged() {
    let mut local = Local::new();
    local.write("/project/mine.c", b"mine");
    let mut remote = ProductionRemote::with_root().file("/remote/theirs.c", b"theirs");
    let mut state = StateFile::new();
    for expected in [
        [SyncEventKind::Uploaded, SyncEventKind::Downloaded],
        [SyncEventKind::Unchanged, SyncEventKind::Unchanged],
    ] {
        let outcome = run_production(
            &mut remote,
            &mut local,
            &mut state,
            SyncScope::RootDirectory,
            false,
            ExecutionMode::Apply,
            &mut UnconditionalCommitGate,
        )
        .unwrap();
        let kinds: Vec<SyncEventKind> = outcome.events.iter().map(|event| event.kind).collect();
        assert_eq!(kinds, expected);
    }
    assert_eq!(local.read("/project/theirs.c"), b"theirs");
    assert_eq!(remote.files["/remote/mine.c"].bytes, b"mine");
}

#[test]
fn a_dry_run_changes_nothing_on_either_side() {
    let mut local = Local::new();
    local.mkdir("/project/here");
    local.write("/project/here/mine.c", b"mine");
    let mut remote = ProductionRemote::with_root()
        .directory("/remote/there")
        .file("/remote/there/theirs.c", b"theirs");
    let mut state = StateFile::new();

    let outcome = run_production(
        &mut remote,
        &mut local,
        &mut state,
        SyncScope::RootDirectory,
        true,
        ExecutionMode::DryRun,
        &mut UnconditionalCommitGate,
    )
    .unwrap();

    assert_eq!(outcome.events.len(), 4);
    assert!(!remote.has_mutation());
    assert_eq!(local.names(ROOT), vec!["here"]);
    assert_eq!(state.files.len(), 0);
}

/// A project with something of every kind to report.
fn mixed_project() -> (Local, ProductionRemote, StateFile) {
    let mut local = Local::new();
    local.mkdir("/project/here");
    local.mkdir("/project/here/deep");
    local.write("/project/here/deep/new.c", b"new");
    local.write("/project/both.c", b"local");
    local.write("/project/same.c", b"same");
    local.write("/project/old.c", b"known");
    let remote = ProductionRemote::with_root()
        .directory("/remote/there")
        .directory("/remote/there/empty")
        .file("/remote/there/fetched.c", b"fetched")
        .file("/remote/both.c", b"remote")
        .file("/remote/same.c", b"same")
        .file("/remote/old.c", b"newer");
    let mut state = StateFile::new();
    state.files.insert("both.c".into(), state_record(b"base"));
    state.files.insert("same.c".into(), state_record(b"same"));
    state.files.insert("old.c".into(), state_record(b"known"));
    state.files.insert("gone.c".into(), state_record(b"gone"));
    (local, remote, state)
}

#[test]
fn a_dry_run_reports_what_a_real_run_reports() {
    for force in [false, true] {
        let run = |mode| {
            let (mut local, mut remote, mut state) = mixed_project();
            run_production(
                &mut remote,
                &mut local,
                &mut state,
                SyncScope::RootDirectory,
                force,
                mode,
                &mut UnconditionalCommitGate,
            )
            .unwrap()
        };
        let shown = run(ExecutionMode::DryRun);
        let made = run(ExecutionMode::Apply);
        assert_eq!(shown.events, made.events);
        assert_eq!(shown.issues, made.issues);
        assert_eq!(shown.cancelled, made.cancelled);
        assert!(!made.cancelled);
        assert_eq!(made.issues.is_empty(), force);
    }
}

#[test]
fn a_real_run_leaves_every_directory_on_both_sides_and_reports_each_creation() {
    let (mut local, mut remote, mut state) = mixed_project();
    let outcome = run_production(
        &mut remote,
        &mut local,
        &mut state,
        SyncScope::RootDirectory,
        false,
        ExecutionMode::Apply,
        &mut UnconditionalCommitGate,
    )
    .unwrap();

    let creations: Vec<SyncEvent> = outcome
        .events
        .into_iter()
        .filter(|event| {
            matches!(
                event.kind,
                SyncEventKind::CreatedLocalDirectory | SyncEventKind::CreatedRemoteDirectory
            )
        })
        .collect();
    let created = |path: &str, kind| SyncEvent { path: path.into(), kind };
    assert_eq!(
        creations,
        vec![
            created("here", SyncEventKind::CreatedRemoteDirectory),
            created("here/deep", SyncEventKind::CreatedRemoteDirectory),
            created("there", SyncEventKind::CreatedLocalDirectory),
            created("there/empty", SyncEventKind::CreatedLocalDirectory),
        ]
    );
    assert!(local.nodes.contains_key("/project/there/empty"));

    let again = run_production(
        &mut remote,
        &mut local,
        &mut state,
        SyncScope::RootDirectory,
        false,
        ExecutionMode::DryRun,
        &mut UnconditionalCommitGate,
    )
    .unwrap();
    assert!(again.events.iter().all(|event| {
        matches!(event.kind, SyncEventKind::Unchanged | SyncEventKind::SkippedAbsent)
    }));
}
