//! Uploads against a server in memory that turns against them.

use ferry::error::Error;
use ferry::file_transfer::{
    AnchorFacts, LeafFacts, LocalPathExpectation, PathProbe, RemoteDestinationSnapshot,
};
use ferry::ftp::Timestamp;
use ferry::hash::hash_bytes;
use ferry::scope::{CommitDecision, ExecutionMode};
use ferry::state::{FileRecord, StateFile};
use ferry::transfer_temp::is_reserved_transfer_temp;
use ferry::upload::{
    remote_parents, ClaimReply, ExpectedLocalSource, GuardedUpload, PlainAction, PlainUpload,
    UploadAction, UploadPhase, MAX_REMOTE_TEMP_CANDIDATES,
};
use std::collections::{BTreeMap, BTreeSet, VecDeque};

const ROOT: &str = "/project";
const TARGET: &str = "/remote/page.txt";

/// What stands at one path of the simulated file system.
#[derive(Clone, Debug)]
enum Node {
    File { bytes: Vec<u8>, identity: u64, modified: i64 },
    Directory { identity: u64 },
    Link { target: String },
}

/// A file system in memory, by absolute path.
#[derive(Debug)]
struct Local {
    nodes: BTreeMap<String, Node>,
    next: u64,
    clock: i64,
}

fn parent_of(path: &str) -> String {
    match path.rsplit_once('/') {
        Some(("", _)) => "/".to_string(),
        Some((parent, _)) => parent.to_string(),
        None => String::new(),
    }
}

fn failure(message: &str) -> Error {
    Error::failure(message.to_string())
}

impl Local {
    fn new() -> Self {
        let mut local = Local { nodes: BTreeMap::new(), next: 1, clock: 100 };
        local.mkdir("/");
        local.mkdir(ROOT);
        local
    }

    fn fresh(&mut self) -> u64 {
        self.next += 1;
        self.next
    }

    fn mkdir(&mut self, path: &str) {
        assert!(!self.nodes.contains_key(path), "{path} is there already");
        let identity = self.fresh();
        self.nodes.insert(path.to_string(), Node::Directory { identity });
    }

    /// Writes a file: the same file again where one is there.
    fn write(&mut self, path: &str, bytes: &[u8]) {
        self.clock += 1;
        let identity = match self.nodes.get(path) {
            Some(Node::File { identity, .. }) => *identity,
            _ => self.fresh(),
        };
        let modified = self.clock;
        self.nodes.insert(path.to_string(), Node::File { bytes: bytes.to_vec(), identity, modified });
    }

    fn link(&mut self, target: &str, path: &str) {
        self.nodes.insert(path.to_string(), Node::Link { target: target.to_string() });
    }

    fn remove(&mut self, path: &str) {
        assert!(self.nodes.remove(path).is_some(), "{path} is not there");
    }

    /// Where a path really lies, symlinks followed.
    fn canonical(&self, path: &str) -> Option<String> {
        let mut at = "/".to_string();
        for segment in path.split('/').filter(|segment| !segment.is_empty()) {
            if !matches!(self.nodes.get(&at), Some(Node::Directory { .. })) {
                return None;
            }
            let next = if at == "/" { format!("/{segment}") } else { format!("{at}/{segment}") };
            at = match self.nodes.get(&next)? {
                Node::Link { target } => self.canonical(target)?,
                _ => next,
            };
        }
        Some(at)
    }

    /// What stands at a path, the symlinks above it followed, its own not.
    fn at(&self, path: &str) -> Option<&Node> {
        let parent = self.canonical(&parent_of(path))?;
        let name = path.rsplit_once('/')?.1;
        let place = if parent == "/" { format!("/{name}") } else { format!("{parent}/{name}") };
        self.nodes.get(&place)
    }

    fn followed(&self, path: &str) -> Option<(&Node, String)> {
        let canonical = self.canonical(path)?;
        Some((&self.nodes[&canonical], canonical))
    }
}

fn identity_of(node: &Node) -> u64 {
    match node {
        Node::File { identity, .. } | Node::Directory { identity } => *identity,
        Node::Link { target } => panic!("a symlink to {target} was not followed"),
    }
}

impl Local {
    fn anchor(&self, path: &str) -> Result<AnchorFacts, Error> {
        let (node, canonical) =
            self.followed(path).ok_or_else(|| failure(&format!("{path} cannot be found")))?;
        let is_dir = matches!(node, Node::Directory { .. });
        Ok(AnchorFacts { canonical, is_dir, identity: identity_of(node) })
    }

    fn leaf(&self, path: &str) -> Result<Option<LeafFacts>, Error> {
        let Some(own) = self.at(path) else {
            return Ok(None);
        };
        let (node, canonical) =
            self.followed(path).ok_or_else(|| failure(&format!("{path} leads nowhere")))?;
        let (size, modified, sha256) = match node {
            Node::File { bytes, modified, .. } => {
                (bytes.len() as u64, *modified, Some(hash_bytes(bytes)))
            }
            _ => (0, 0, None),
        };
        Ok(Some(LeafFacts {
            is_symlink: matches!(own, Node::Link { .. }),
            is_file: matches!(node, Node::File { .. }),
            is_dir: matches!(node, Node::Directory { .. }),
            canonical,
            identity: identity_of(node),
            size,
            modified: Timestamp { secs: modified, nanos: 0 },
            sha256,
        }))
    }

    fn probe(&self, root: &str, path: &str) -> PathProbe {
        PathProbe {
            root: self.anchor(root),
            parent: self.anchor(&parent_of(path)),
            leaf: self.leaf(path),
        }
    }

    /// A probe of what an expectation is about.
    fn probe_again(&self, expected: &LocalPathExpectation) -> PathProbe {
        self.probe(&expected.canonical_root, &expected.resolved_path())
    }
}

fn mtime(second: i64) -> Timestamp {
    Timestamp { secs: 1_786_356_000 + second, nanos: 0 }
}

fn file_snapshot(bytes: &[u8], modified: Timestamp) -> RemoteDestinationSnapshot {
    RemoteDestinationSnapshot::File {
        size: bytes.len() as u64,
        modified,
        sha256: hash_bytes(&bytes.to_vec()),
    }
}

fn transfer_temp_paths(remote: &FakeRemote) -> Vec<String> {
    remote.files.keys().filter(|path| is_reserved_transfer_temp(path)).cloned().collect()
}

fn transfer_temp_events(events: &[String], operation: &str) -> Vec<String> {
    let paths = events.iter().filter_map(|event| event.strip_prefix(operation));
    paths.filter(|path| is_reserved_transfer_temp(path)).map(str::to_string).collect()
}

fn transfer_candidate(nonce: &str) -> String {
    ferry::transfer_temp::transfer_candidate(TARGET, nonce).unwrap()
}

#[derive(Default)]
struct FakeRemote {
    directories: BTreeSet<String>,
    files: BTreeMap<String, Vec<u8>>,
    mtimes: BTreeMap<String, Timestamp>,
    list_mtimes: BTreeMap<String, Timestamp>,
    snapshots: BTreeMap<String, VecDeque<Result<RemoteDestinationSnapshot, Error>>>,
    temp_mtime_results: VecDeque<Result<Timestamp, Error>>,
    temp_snapshot_count: usize,
    replace_temp_on_snapshot: Option<(usize, Vec<u8>)>,
    replace_temp_on_upload_error: Option<Vec<u8>>,
    events: Vec<String>,
    upload_error: bool,
    mtime_error: bool,
    rename_error: bool,
    mkdir_calls: usize,
}

impl FakeRemote {
    fn with_remote_root() -> Self {
        Self { directories: BTreeSet::from(["/remote".to_string()]), ..Self::default() }
    }

    fn put_existing(&mut self, path: &str, bytes: &[u8], modified: Timestamp) {
        self.files.insert(path.to_string(), bytes.to_vec());
        self.list_mtimes.insert(path.to_string(), modified);
        self.mtimes.insert(path.to_string(), modified);
    }

    fn script_snapshots(&mut self, path: &str, snapshots: Vec<RemoteDestinationSnapshot>) {
        self.snapshots.insert(path.to_string(), snapshots.into_iter().map(Ok).collect());
    }

    fn replace_temp_on_snapshot(&mut self, count: usize, bytes: &[u8]) {
        self.replace_temp_on_snapshot = Some((count, bytes.to_vec()));
    }

    fn upload_bytes(&mut self, path: &str, bytes: &[u8]) -> Result<(), Error> {
        self.events.push(format!("upload {path}"));
        if !self.directories.contains(&parent_of(path)) {
            return Err(failure("missing remote parent"));
        }
        self.put_existing(path, bytes, mtime(40));
        if self.upload_error {
            if let Some(replacement) = self.replace_temp_on_upload_error.clone() {
                self.put_existing(path, &replacement, mtime(58));
            }
            return Err(failure("scripted partial upload failure"));
        }
        Ok(())
    }

    fn rename(&mut self, from: &str, to: &str) -> Result<(), Error> {
        self.events.push(format!("rename {from} {to}"));
        if self.rename_error {
            return Err(failure("scripted rename failure"));
        }
        let bytes = self.files.remove(from).ok_or_else(|| failure("missing rename source"))?;
        let list_modified = self.list_mtimes.remove(from).unwrap();
        let modified = self.mtimes.remove(from).unwrap();
        self.files.insert(to.to_string(), bytes);
        self.mtimes.insert(to.to_string(), modified);
        self.list_mtimes.insert(to.to_string(), list_modified);
        Ok(())
    }

    fn rm(&mut self, path: &str) {
        self.events.push(format!("rm {path}"));
        self.files.remove(path);
        self.mtimes.remove(path);
        self.list_mtimes.remove(path);
    }

    fn mkdir(&mut self, path: &str) -> Result<(), Error> {
        self.mkdir_calls += 1;
        self.directories.insert(path.to_string());
        Ok(())
    }

    fn mtime(&mut self, path: &str) -> Result<Timestamp, Error> {
        self.events.push(format!("mtime {path}"));
        if is_reserved_transfer_temp(path) {
            if let Some(result) = self.temp_mtime_results.pop_front() {
                return result;
            }
        }
        if self.mtime_error {
            return Err(failure("scripted mtime failure"));
        }
        self.mtimes.get(path).copied().ok_or_else(|| failure("missing mtime"))
    }

    fn destination_snapshot(&mut self, path: &str) -> Result<RemoteDestinationSnapshot, Error> {
        self.events.push(format!("snapshot {path}"));
        if is_reserved_transfer_temp(path) {
            self.temp_snapshot_count += 1;
            if let Some((count, bytes)) = self.replace_temp_on_snapshot.clone() {
                if count == self.temp_snapshot_count {
                    self.put_existing(path, &bytes, mtime(59));
                }
            }
        }
        if let Some(script) = self.snapshots.get_mut(path) {
            if let Some(snapshot) = script.pop_front() {
                return snapshot;
            }
        }
        if !self.directories.contains(&parent_of(path)) {
            return Err(failure("missing remote parent"));
        }
        if self.directories.contains(path) {
            return Ok(RemoteDestinationSnapshot::Directory);
        }
        match self.files.get(path) {
            Some(bytes) => Ok(file_snapshot(bytes, self.list_mtimes[path])),
            None => Ok(RemoteDestinationSnapshot::Missing),
        }
    }
}

/// Says whether a selection is current, and claims it for a change.
trait Gate {
    fn is_current(&mut self) -> bool;
    fn claim(&mut self, local: &mut Local) -> ClaimReply;
}

struct CancelAtPreStage {
    checks: usize,
    commits: usize,
}

impl Gate for CancelAtPreStage {
    fn is_current(&mut self) -> bool {
        self.checks += 1;
        self.checks == 1
    }

    fn claim(&mut self, _local: &mut Local) -> ClaimReply {
        self.commits += 1;
        ClaimReply::Cancelled
    }
}

struct CancelAfterUpload {
    called: bool,
}

impl Gate for CancelAfterUpload {
    fn is_current(&mut self) -> bool {
        true
    }

    fn claim(&mut self, _local: &mut Local) -> ClaimReply {
        self.called = true;
        ClaimReply::Cancelled
    }
}

struct HookGate {
    hook: Option<Box<dyn FnOnce(&mut Local)>>,
}

impl HookGate {
    fn before(hook: impl FnOnce(&mut Local) + 'static) -> Self {
        Self { hook: Some(Box::new(hook)) }
    }
}

impl Gate for HookGate {
    fn is_current(&mut self) -> bool {
        true
    }

    fn claim(&mut self, local: &mut Local) -> ClaimReply {
        self.hook.take().unwrap()(local);
        ClaimReply::Granted
    }
}

struct CommitGateNow;

impl Gate for CommitGateNow {
    fn is_current(&mut self) -> bool {
        true
    }

    fn claim(&mut self, _local: &mut Local) -> ClaimReply {
        ClaimReply::Granted
    }
}

struct FailingGate;

impl Gate for FailingGate {
    fn is_current(&mut self) -> bool {
        true
    }

    fn claim(&mut self, _local: &mut Local) -> ClaimReply {
        ClaimReply::Failed(failure("scripted claim failure"))
    }
}

struct PanicGate;

impl Gate for PanicGate {
    fn is_current(&mut self) -> bool {
        panic!("a dry run asked whether its selection is current")
    }

    fn claim(&mut self, _local: &mut Local) -> ClaimReply {
        panic!("a dry run claimed its selection")
    }
}

fn source(local: &mut Local, bytes: &[u8]) -> (String, ExpectedLocalSource) {
    let path = format!("{ROOT}/page.txt");
    local.write(&path, bytes);
    let expected = ExpectedLocalSource::capture(ROOT, &path, local.probe(ROOT, &path)).unwrap();
    (path, expected)
}

/// Gives nonces out, scripted ones first.
#[derive(Default)]
struct Nonces {
    scripted: VecDeque<String>,
    given: u64,
}

impl Nonces {
    fn of(scripted: &[&str]) -> Self {
        Nonces { scripted: scripted.iter().map(|nonce| nonce.to_string()).collect(), given: 0 }
    }

    fn draw(&mut self) -> String {
        self.given += 1;
        self.scripted.pop_front().unwrap_or_else(|| format!("{:032x}", self.given))
    }
}

/// Carries an upload on until it has ended, or until it is at a phase.
fn carry_on(
    upload: &mut GuardedUpload,
    until: UploadPhase,
    payload: &[u8],
    local: &mut Local,
    remote: &mut FakeRemote,
    state: &mut StateFile,
    nonces: &mut Nonces,
    gate: &mut dyn Gate,
) {
    while upload.phase != until {
        match upload.action() {
            UploadAction::ProbeSource => {
                upload.on_probe(local.probe_again(&upload.request.source.snapshot));
            }
            UploadAction::Snapshot(path) => upload.on_snapshot(remote.destination_snapshot(&path)),
            UploadAction::PollGate => upload.on_gate(gate.is_current()),
            UploadAction::DrawNonce => upload.on_nonce(&nonces.draw()),
            UploadAction::Upload(path) => upload.on_uploaded(remote.upload_bytes(&path, payload)),
            UploadAction::Time(path) => upload.on_time(remote.mtime(&path)),
            UploadAction::Claim => upload.on_claim(gate.claim(local)),
            UploadAction::Rename(from, to) => {
                upload.on_renamed(remote.rename(&from, &to), state, mtime(3600));
            }
            UploadAction::Release => upload.on_released(),
            UploadAction::Remove(path) => {
                remote.rm(&path);
                upload.on_removed();
            }
            UploadAction::Done => return,
        }
    }
}

fn upload(
    local: &mut Local,
    remote: &mut FakeRemote,
    state: &mut StateFile,
    bytes: &[u8],
    source: ExpectedLocalSource,
    destination: RemoteDestinationSnapshot,
    gate: &mut dyn Gate,
) -> Result<CommitDecision, Error> {
    let payload = bytes.to_vec();
    let mut run = GuardedUpload::upload_one_guarded(
        "page.txt",
        TARGET,
        &payload,
        &hash_bytes(&payload),
        source,
        destination,
        ExecutionMode::Apply,
    );
    let mut nonces = Nonces::default();
    carry_on(&mut run, UploadPhase::Done, bytes, local, remote, state, &mut nonces, gate);
    let committed = run.failure.is_none() && run.decision == CommitDecision::Committed;
    assert_eq!(run.renamed, committed);
    run.outcome()
}

/// Stages an upload of `bytes` under scripted nonces, up to its claim.
fn stage_guarded(remote: &mut FakeRemote, bytes: &[u8], nonces: &[&str]) -> GuardedUpload {
    let mut local = Local::new();
    let (_, source) = source(&mut local, bytes);
    let payload = bytes.to_vec();
    let mut run = GuardedUpload::upload_one_guarded(
        "page.txt",
        TARGET,
        &payload,
        &hash_bytes(&payload),
        source,
        RemoteDestinationSnapshot::Missing,
        ExecutionMode::Apply,
    );
    let mut state = StateFile::new();
    let mut nonces = Nonces::of(nonces);
    carry_on(
        &mut run,
        UploadPhase::Claim,
        bytes,
        &mut local,
        remote,
        &mut state,
        &mut nonces,
        &mut CommitGateNow,
    );
    run
}

/// Stages a plain upload, up to its rename.
fn stage_plain(remote: &mut FakeRemote, bytes: &[u8], nonces: &mut Nonces) -> PlainUpload {
    let payload = bytes.to_vec();
    let mut run = PlainUpload::upload_one(
        "page.txt",
        TARGET,
        &payload,
        &hash_bytes(&payload),
        ExecutionMode::Apply,
    );
    loop {
        match run.action() {
            PlainAction::MakeDirectory(path) => run.on_made(remote.mkdir(&path)),
            PlainAction::DrawNonce => run.on_nonce(&nonces.draw()),
            PlainAction::Upload(path) => run.on_uploaded(remote.upload_bytes(&path, bytes)),
            PlainAction::Time(path) => run.on_time(remote.mtime(&path)),
            PlainAction::Rename(..) | PlainAction::Done => return run,
            PlainAction::Remove(path) => {
                remote.rm(&path);
                run.on_removed();
            }
        }
    }
}


#[test]
fn guarded_upload_dry_run_commits_without_remote_or_state_mutation() {
    let mut local = Local::new();
    let bytes = b"new local";
    let (_path, source) = source(&mut local, bytes);
    let destination = RemoteDestinationSnapshot::Missing;
    let mut remote = FakeRemote::with_remote_root();
    let mut state = StateFile::new();

    let mut run = GuardedUpload::upload_one_guarded(
        "page.txt",
        TARGET,
        &bytes.to_vec(),
        "deliberately unchecked in dry run",
        source,
        destination,
        ExecutionMode::DryRun,
    );
    carry_on(
        &mut run,
        UploadPhase::Done,
        bytes,
        &mut local,
        &mut remote,
        &mut state,
        &mut Nonces::default(),
        &mut PanicGate,
    );
    let decision = run.outcome().unwrap();

    assert_eq!(decision, CommitDecision::Committed);
    assert!(remote.events.is_empty());
    assert!(remote.files.is_empty());
    assert!(state.files.len() == 0);
}

#[test]
fn guarded_upload_cancels_at_pre_stage_boundary_without_creating_a_temp() {
    let mut local = Local::new();
    let bytes = b"new local";
    let (_path, source) = source(&mut local, bytes);
    let destination = RemoteDestinationSnapshot::Missing;
    let mut remote = FakeRemote::with_remote_root();
    let mut state = StateFile::new();
    let mut gate = CancelAtPreStage {
        checks: 0,
        commits: 0,
    };

    assert!(gate.is_current(), "models the outer scoped-plan check");
    let decision =
        upload(&mut local, &mut remote, &mut state, bytes, source, destination, &mut gate).unwrap();

    assert_eq!(decision, CommitDecision::Cancelled);
    assert_eq!(gate.commits, 0);
    assert!(
        !remote
            .events
            .iter()
            .any(|event| event.starts_with("upload "))
    );
    assert!(transfer_temp_paths(&remote).is_empty());
    assert!(state.files.len() == 0);
}

#[test]
fn remote_staging_gives_interleaved_writers_distinct_owned_temps() {
    let mut remote = FakeRemote::with_remote_root();

    let mut nonces = Nonces::default();
    let first = stage_plain(&mut remote, b"first writer", &mut nonces);
    let second = stage_plain(&mut remote, b"second writer", &mut nonces);

    assert_ne!(first.temp, second.temp);
    assert!(is_reserved_transfer_temp(
        &first.temp
    ));
    assert!(is_reserved_transfer_temp(
        &second.temp
    ));
    assert_eq!(remote.files[&first.temp], b"first writer");
    assert_eq!(remote.files[&second.temp], b"second writer");

    remote.rm(&first.temp);
    assert!(!remote.files.contains_key(&first.temp));
    assert_eq!(remote.files[&second.temp], b"second writer");
}

#[test]
fn remote_temp_upload_error_attempts_cleanup() {
    let mut remote = FakeRemote {
        upload_error: true,
        ..FakeRemote::with_remote_root()
    };
    let staged = stage_plain(&mut remote, b"partial local", &mut Nonces::default());
    let error = staged.outcome().unwrap_err();

    assert!(error.full_message().contains("upload"));
    assert!(transfer_temp_paths(&remote).is_empty());
    assert_eq!(transfer_temp_events(&remote.events, "rm ").len(), 1);
}

#[test]
fn remote_temp_mtime_error_attempts_cleanup() {
    let mut remote = FakeRemote {
        mtime_error: true,
        ..FakeRemote::with_remote_root()
    };
    let staged = stage_plain(&mut remote, b"new local", &mut Nonces::default());
    let error = staged.outcome().unwrap_err();

    assert!(error.full_message().contains("mtime"));
    assert!(transfer_temp_paths(&remote).is_empty());
    assert_eq!(transfer_temp_events(&remote.events, "rm ").len(), 1);
}

#[test]
fn guarded_upload_cancellation_removes_temp_without_renaming_or_updating_state() {
    let mut local = Local::new();
    let bytes = b"new local";
    let (_path, source) = source(&mut local, bytes);
    let old_remote = b"old remote";
    let old_snapshot = file_snapshot(old_remote, mtime(1));
    let destination = old_snapshot;
    let mut remote = FakeRemote::with_remote_root();
    remote.put_existing("/remote/page.txt", old_remote, mtime(1));
    let mut state = StateFile::new();
    let original_record = FileRecord {
        sha256: hash_bytes(&b"old state".to_vec()),
        size: 9,
        remote_mtime: mtime(0),
        last_synced: mtime(0),
    };
    state.files.insert("page.txt".into(), original_record);
    let before = state.copy();
    let mut gate = CancelAfterUpload {
        called: false,
    };

    let decision =
        upload(&mut local, &mut remote, &mut state, bytes, source, destination, &mut gate).unwrap();

    assert_eq!(decision, CommitDecision::Cancelled);
    assert!(gate.called);
    assert_eq!(remote.files["/remote/page.txt"], old_remote);
    assert!(transfer_temp_paths(&remote).is_empty());
    assert!(
        !remote
            .events
            .iter()
            .any(|event| event.starts_with("rename "))
    );
    assert_eq!(transfer_temp_events(&remote.events, "rm ").len(), 1);
    assert!(!state.differs(&before));
    assert_eq!(remote.mkdir_calls, 0);
}

#[test]
fn guarded_upload_missing_parent_fails_without_upload_or_directory_creation() {
    let mut local = Local::new();
    let bytes = b"new local";
    let (_path, source) = source(&mut local, bytes);
    let destination = RemoteDestinationSnapshot::Missing;
    let mut remote = FakeRemote::default();
    let mut state = StateFile::new();

    let error = upload(&mut local, &mut remote, &mut state, bytes, source, destination, &mut CommitGateNow)
    .unwrap_err();

    assert!(error.full_message().contains("parent"));
    assert!(
        !remote
            .events
            .iter()
            .any(|event| event.starts_with("upload "))
    );
    assert_eq!(remote.mkdir_calls, 0);
    assert!(state.files.len() == 0);
}

#[test]
fn guarded_upload_leaves_a_preexisting_legacy_temp_file_untouched() {
    let mut local = Local::new();
    let bytes = b"new local";
    let (_path, source) = source(&mut local, bytes);
    let destination = RemoteDestinationSnapshot::Missing;
    let mut remote = FakeRemote::with_remote_root();
    let legacy_temp = "/remote/page.txt.tmp.zedftp";
    remote.put_existing(legacy_temp, b"other writer", mtime(2));
    let mut state = StateFile::new();

    let decision = upload(&mut local, &mut remote, &mut state, bytes, source, destination, &mut CommitGateNow)
    .unwrap();

    assert_eq!(decision, CommitDecision::Committed);
    assert_eq!(remote.files[legacy_temp], b"other writer");
    assert_eq!(remote.files["/remote/page.txt"], bytes);
    assert_eq!(transfer_temp_events(&remote.events, "upload ").len(), 1);
    assert_eq!(state.files.get("page.txt").unwrap().sha256, hash_bytes(&bytes.to_vec()));
}

#[test]
fn guarded_upload_rename_error_removes_temp_without_updating_state() {
    let mut local = Local::new();
    let bytes = b"new local";
    let (_path, source) = source(&mut local, bytes);
    let destination = RemoteDestinationSnapshot::Missing;
    let mut remote = FakeRemote::with_remote_root();
    remote.rename_error = true;
    let mut state = StateFile::new();

    let error = upload(&mut local, &mut remote, &mut state, bytes, source, destination, &mut CommitGateNow)
    .unwrap_err();

    assert!(error.full_message().contains("rename"));
    assert!(!remote.files.contains_key("/remote/page.txt"));
    assert!(transfer_temp_paths(&remote).is_empty());
    assert!(state.files.len() == 0);
}

#[test]
fn guarded_upload_records_temp_metadata_without_post_rename_round_trip() {
    let mut local = Local::new();
    let bytes = b"new local";
    let (_path, source) = source(&mut local, bytes);
    let destination = RemoteDestinationSnapshot::Missing;
    let mut remote = FakeRemote::with_remote_root();
    remote.temp_mtime_results = VecDeque::from([Ok(mtime(41)), Ok(mtime(41))]);
    let mut state = StateFile::new();
    let claimed_at = mtime(3599);
    let mut gate = HookGate::before(|_local| {});

    let decision =
        upload(&mut local, &mut remote, &mut state, bytes, source, destination, &mut gate).unwrap();

    assert_eq!(decision, CommitDecision::Committed);
    assert_eq!(remote.files["/remote/page.txt"], bytes);
    assert_eq!(state.files.get("page.txt").unwrap().remote_mtime, mtime(41));
    assert!(state.files.get("page.txt").unwrap().last_synced.secs >= claimed_at.secs);
    let temp_snapshot_indices: Vec<_> = remote
        .events
        .iter()
        .enumerate()
        .filter(|(_, event)| {
            event
                .strip_prefix("snapshot ")
                .is_some_and(is_reserved_transfer_temp)
        })
        .map(|(index, _)| index)
        .collect();
    let mtime_indices: Vec<_> = remote
        .events
        .iter()
        .enumerate()
        .filter(|(_, event)| event.starts_with("mtime "))
        .map(|(index, _)| index)
        .collect();
    let rename_index = remote
        .events
        .iter()
        .position(|event| event.starts_with("rename "))
        .unwrap();
    assert_eq!(temp_snapshot_indices.len(), 3);
    assert_eq!(mtime_indices.len(), 2);
    assert!(temp_snapshot_indices[1] < mtime_indices[0]);
    assert!(mtime_indices[0] < temp_snapshot_indices[2]);
    assert!(temp_snapshot_indices[2] < mtime_indices[1]);
    assert!(mtime_indices[1] < rename_index);
    assert!(
        remote.events[rename_index + 1..]
            .iter()
            .all(|event| !event.starts_with("snapshot ") && !event.starts_with("mtime "))
    );
}

#[test]
fn guarded_remote_staging_preserves_replacement_seen_by_first_capture() {
    let mut remote = FakeRemote::with_remote_root();
    let candidate = transfer_candidate("33333333333333333333333333333333");
    remote.replace_temp_on_snapshot(2, b"foreign replacement");

    let error = stage_guarded(&mut remote, b"new local", &["33333333333333333333333333333333"]).outcome().unwrap_err();

    assert!(error.full_message().contains("remote temp changed"));
    assert_eq!(remote.files[&candidate], b"foreign replacement");
    assert!(transfer_temp_events(&remote.events, "rm ").is_empty());
}

#[test]
fn guarded_remote_staging_upload_error_preserves_foreign_replacement() {
    let mut remote = FakeRemote {
        upload_error: true,
        replace_temp_on_upload_error: Some(b"foreign replacement".to_vec()),
        ..FakeRemote::with_remote_root()
    };
    let candidate = transfer_candidate("44444444444444444444444444444444");

    let error = stage_guarded(&mut remote, b"new local", &["44444444444444444444444444444444"]).outcome().unwrap_err();

    assert!(error.full_message().contains("upload"));
    assert_eq!(remote.files[&candidate], b"foreign replacement");
    assert!(transfer_temp_events(&remote.events, "rm ").is_empty());
}

#[test]
fn guarded_remote_staging_capture_error_preserves_unprovable_replacement() {
    let mut remote = FakeRemote::with_remote_root();
    let candidate = transfer_candidate("55555555555555555555555555555555");
    remote.snapshots.insert(
        candidate.clone(),
        VecDeque::from([
            Ok(RemoteDestinationSnapshot::Missing),
            Err(failure("scripted temp snapshot failure")),
        ]),
    );
    remote.replace_temp_on_snapshot(3, b"foreign replacement");

    let error = stage_guarded(&mut remote, b"new local", &["55555555555555555555555555555555"]).outcome().unwrap_err();

    assert!(error.full_message().contains("capturing remote temp"));
    assert_eq!(remote.files[&candidate], b"foreign replacement");
    assert!(transfer_temp_events(&remote.events, "rm ").is_empty());
    assert_eq!(transfer_temp_events(&remote.events, "snapshot ").len(), 3);
}

#[test]
fn guarded_remote_staging_upload_error_cleans_only_after_proving_intended_payload() {
    let mut remote = FakeRemote {
        upload_error: true,
        ..FakeRemote::with_remote_root()
    };
    let candidate = transfer_candidate("66666666666666666666666666666666");

    let error = stage_guarded(&mut remote, b"new local", &["66666666666666666666666666666666"]).outcome().unwrap_err();

    assert!(error.full_message().contains("upload"));
    assert!(!remote.files.contains_key(&candidate));
    assert_eq!(transfer_temp_events(&remote.events, "snapshot ").len(), 2);
    assert_eq!(transfer_temp_events(&remote.events, "rm "), [candidate]);
}

#[test]
fn guarded_remote_staging_capture_error_cleans_after_retry_proves_intended_payload() {
    let mut remote = FakeRemote::with_remote_root();
    let candidate = transfer_candidate("22222222222222222222222222222222");
    remote.snapshots.insert(
        candidate.clone(),
        VecDeque::from([
            Ok(RemoteDestinationSnapshot::Missing),
            Err(failure("scripted temp snapshot failure")),
        ]),
    );

    let error = stage_guarded(&mut remote, b"new local", &["22222222222222222222222222222222"]).outcome().unwrap_err();

    assert!(error.full_message().contains("capturing remote temp"));
    assert!(!remote.files.contains_key(&candidate));
    assert_eq!(transfer_temp_events(&remote.events, "snapshot ").len(), 3);
    assert_eq!(transfer_temp_events(&remote.events, "rm "), [candidate]);
}

#[test]
fn guarded_remote_staging_retries_an_occupied_unique_candidate() {
    let mut remote = FakeRemote::with_remote_root();
    let occupied = transfer_candidate("00000000000000000000000000000000");
    let fresh = transfer_candidate("11111111111111111111111111111111");
    remote.put_existing(&occupied, b"foreign temp", mtime(2));
    let nonces = ["00000000000000000000000000000000", "11111111111111111111111111111111"];

    let staged = stage_guarded(&mut remote, b"new local", &nonces);

    assert_eq!(staged.phase, UploadPhase::Claim);
    assert_eq!(staged.temp, fresh);
    assert_eq!(remote.files[&occupied], b"foreign temp");
    assert_eq!(remote.files[&staged.temp], b"new local");
    remote.rm(&staged.temp);
    assert_eq!(remote.files[&occupied], b"foreign temp");
}

#[test]
fn guarded_remote_staging_mdtm_error_cleans_the_exact_staged_snapshot() {
    let mut remote = FakeRemote::with_remote_root();
    remote.temp_mtime_results =
        VecDeque::from([Err(failure("scripted staging MDTM failure"))]);
    let candidate = transfer_candidate("77777777777777777777777777777777");

    let error = stage_guarded(&mut remote, b"new local", &["77777777777777777777777777777777"]).outcome().unwrap_err();

    assert!(error.full_message().contains("exact mtime"));
    assert!(!remote.files.contains_key(&candidate));
    assert_eq!(transfer_temp_events(&remote.events, "snapshot ").len(), 3);
    assert_eq!(transfer_temp_events(&remote.events, "rm "), [candidate]);
}

#[test]
fn guarded_remote_staging_mdtm_error_preserves_a_replacement() {
    let mut remote = FakeRemote::with_remote_root();
    remote.temp_mtime_results =
        VecDeque::from([Err(failure("scripted staging MDTM failure"))]);
    let candidate = transfer_candidate("88888888888888888888888888888888");
    remote.replace_temp_on_snapshot(3, b"foreign replacement");

    let error = stage_guarded(&mut remote, b"new local", &["88888888888888888888888888888888"]).outcome().unwrap_err();

    assert!(error.full_message().contains("exact mtime"));
    assert_eq!(remote.files[&candidate], b"foreign replacement");
    assert_eq!(transfer_temp_events(&remote.events, "snapshot ").len(), 3);
    assert!(transfer_temp_events(&remote.events, "rm ").is_empty());
}

#[test]
fn guarded_upload_rejects_claim_time_exact_mtime_change() {
    let mut local = Local::new();
    let bytes = b"new local";
    let (_path, source) = source(&mut local, bytes);
    let destination = RemoteDestinationSnapshot::Missing;
    let mut remote = FakeRemote::with_remote_root();
    remote.temp_mtime_results = VecDeque::from([Ok(mtime(41)), Ok(mtime(42))]);
    let mut state = StateFile::new();

    let error = upload(&mut local, &mut remote, &mut state, bytes, source, destination, &mut CommitGateNow)
    .unwrap_err();

    assert!(error.full_message().contains("remote temp mtime changed"));
    assert!(!remote.files.contains_key("/remote/page.txt"));
    assert!(transfer_temp_paths(&remote).is_empty());
    assert!(state.files.len() == 0);
    assert!(
        !remote
            .events
            .iter()
            .any(|event| event.starts_with("rename "))
    );
}

#[test]
fn guarded_upload_rejects_claim_time_exact_mtime_error() {
    let mut local = Local::new();
    let bytes = b"new local";
    let (_path, source) = source(&mut local, bytes);
    let destination = RemoteDestinationSnapshot::Missing;
    let mut remote = FakeRemote::with_remote_root();
    remote.temp_mtime_results = VecDeque::from([
        Ok(mtime(41)),
        Err(failure("scripted claim MDTM failure")),
    ]);
    let mut state = StateFile::new();

    let error = upload(&mut local, &mut remote, &mut state, bytes, source, destination, &mut CommitGateNow)
    .unwrap_err();

    assert!(error.full_message().contains("exact mtime"));
    assert!(!remote.files.contains_key("/remote/page.txt"));
    assert!(transfer_temp_paths(&remote).is_empty());
    assert!(state.files.len() == 0);
    assert!(
        !remote
            .events
            .iter()
            .any(|event| event.starts_with("rename "))
    );
}

#[test]
fn guarded_upload_rejects_claim_time_temp_replacement_without_cleaning_it() {
    let mut local = Local::new();
    let bytes = b"new local";
    let (_path, source) = source(&mut local, bytes);
    let destination = RemoteDestinationSnapshot::Missing;
    let mut remote = FakeRemote::with_remote_root();
    remote.replace_temp_on_snapshot(3, b"foreign replacement");
    let mut state = StateFile::new();

    let error = upload(&mut local, &mut remote, &mut state, bytes, source, destination, &mut CommitGateNow)
    .unwrap_err();

    assert!(error.full_message().contains("remote temp changed"));
    assert!(!remote.files.contains_key("/remote/page.txt"));
    assert!(state.files.len() == 0);
    let temps = transfer_temp_paths(&remote);
    assert_eq!(temps.len(), 1);
    assert_eq!(remote.files[&temps[0]], b"foreign replacement");
    assert!(transfer_temp_events(&remote.events, "rm ").is_empty());
    remote.rm(&temps[0]);
}

fn assert_source_change_rejected(mutate: impl FnOnce(&mut Local, &str) + 'static) {
    let mut local = Local::new();
    let bytes = b"new local";
    let (path, source) = source(&mut local, bytes);
    let destination = RemoteDestinationSnapshot::Missing;
    let changed_path = path.clone();
    let mut gate = HookGate::before(move |local| mutate(local, &changed_path));
    let mut remote = FakeRemote::with_remote_root();
    let mut state = StateFile::new();

    let error =
        upload(&mut local, &mut remote, &mut state, bytes, source, destination, &mut gate).unwrap_err();

    assert!(error.full_message().contains("local source changed"));
    assert!(!remote.files.contains_key("/remote/page.txt"));
    assert!(transfer_temp_paths(&remote).is_empty());
    assert!(state.files.len() == 0);
}

#[test]
fn guarded_upload_rejects_source_disappearance_inside_claim() {
    assert_source_change_rejected(|local, path| local.remove(path));
}

#[test]
fn guarded_upload_rejects_source_type_change_inside_claim() {
    assert_source_change_rejected(|local, path| {
        local.remove(path);
        local.mkdir(path);
    });
}

#[test]
fn guarded_upload_rejects_source_identity_change_even_with_same_bytes() {
    assert_source_change_rejected(|local, path| {
        local.remove(path);
        local.write(path, b"new local");
    });
}

#[test]
fn guarded_upload_rejects_source_hash_change_inside_claim() {
    assert_source_change_rejected(|local, path| local.write(path, b"edited local"));
}

#[test]
fn guarded_upload_rejects_source_symlink_change_inside_claim() {
    let mut local = Local::new();
    let bytes = b"new local";
    let (path, source) = source(&mut local, bytes);
    local.write("/project/linked.txt", bytes);
    let mut gate = HookGate::before(move |local| {
        local.remove(&path);
        local.link("/project/linked.txt", &path);
    });
    let destination = RemoteDestinationSnapshot::Missing;
    let mut remote = FakeRemote::with_remote_root();
    let mut state = StateFile::new();

    let error =
        upload(&mut local, &mut remote, &mut state, bytes, source, destination, &mut gate).unwrap_err();

    assert!(error.full_message().contains("local source changed"));
    assert!(!remote.files.contains_key("/remote/page.txt"));
    assert!(state.files.len() == 0);
}

#[test]
fn guarded_upload_rejects_every_remote_destination_snapshot_change() {
    let original = file_snapshot(b"old remote", mtime(1));
    let changes = [
        RemoteDestinationSnapshot::Missing,
        RemoteDestinationSnapshot::Directory,
        file_snapshot(b"different", mtime(1)),
        file_snapshot(b"old remote", mtime(2)),
        file_snapshot(b"different size", mtime(1)),
    ];

    for changed in changes {
        let mut local = Local::new();
        let bytes = b"new local";
        let (_path, source) = source(&mut local, bytes);
        let destination = original.copy();
        let mut remote = FakeRemote::with_remote_root();
        remote.put_existing("/remote/page.txt", b"old remote", mtime(1));
        remote.script_snapshots("/remote/page.txt", vec![original.copy(), changed]);
        let mut state = StateFile::new();

        let error = upload(&mut local, &mut remote, &mut state, bytes, source, destination, &mut CommitGateNow)
        .unwrap_err();

        assert!(error.full_message().contains("remote destination changed"));
        assert_eq!(remote.files["/remote/page.txt"], b"old remote");
        assert!(transfer_temp_paths(&remote).is_empty());
        assert!(state.files.len() == 0);
    }
}

#[test]
fn guarded_upload_rejects_destination_appearance() {
    let mut local = Local::new();
    let bytes = b"new local";
    let (_path, source) = source(&mut local, bytes);
    let destination = RemoteDestinationSnapshot::Missing;
    let mut remote = FakeRemote::with_remote_root();
    remote.script_snapshots(
        "/remote/page.txt",
        vec![
            RemoteDestinationSnapshot::Missing,
            file_snapshot(b"appeared", mtime(3)),
        ],
    );
    let mut state = StateFile::new();

    let error = upload(&mut local, &mut remote, &mut state, bytes, source, destination, &mut CommitGateNow)
    .unwrap_err();

    assert!(error.full_message().contains("remote destination changed"));
    assert!(
        !remote
            .events
            .iter()
            .any(|event| event.starts_with("rename "))
    );
    assert!(state.files.len() == 0);
}


#[test]
fn a_committed_upload_is_remembered_as_it_was_staged() {
    let mut local = Local::new();
    let (_path, source) = source(&mut local, b"new local");
    let mut remote = FakeRemote::with_remote_root();
    let mut state = StateFile::new();

    let decision = upload(
        &mut local,
        &mut remote,
        &mut state,
        b"new local",
        source,
        RemoteDestinationSnapshot::Missing,
        &mut CommitGateNow,
    )
    .unwrap();

    assert_eq!(decision, CommitDecision::Committed);
    assert_eq!(
        state.files.get("page.txt"),
        Some(&FileRecord {
            sha256: hash_bytes(&b"new local".to_vec()),
            size: 9,
            remote_mtime: mtime(40),
            last_synced: mtime(3600),
        })
    );
    assert!(transfer_temp_paths(&remote).is_empty());
}

#[test]
fn a_payload_that_is_not_the_hashed_one_is_not_uploaded() {
    let mut local = Local::new();
    let (_path, source) = source(&mut local, b"new local");
    let run = GuardedUpload::upload_one_guarded(
        "page.txt",
        TARGET,
        &b"other bytes".to_vec(),
        &hash_bytes(&b"new local".to_vec()),
        source,
        RemoteDestinationSnapshot::Missing,
        ExecutionMode::Apply,
    );

    assert_eq!(run.phase, UploadPhase::Done);
    assert!(run.outcome().unwrap_err().full_message().contains("page.txt"));
}

#[test]
fn a_failing_claim_ends_an_upload_and_removes_its_temp() {
    let mut local = Local::new();
    let (_path, source) = source(&mut local, b"new local");
    let mut remote = FakeRemote::with_remote_root();
    let mut state = StateFile::new();

    let error = upload(
        &mut local,
        &mut remote,
        &mut state,
        b"new local",
        source,
        RemoteDestinationSnapshot::Missing,
        &mut FailingGate,
    )
    .unwrap_err();

    assert_eq!(error.full_message(), "scripted claim failure");
    assert!(remote.files.is_empty());
    assert_eq!(state.files.len(), 0);
}

#[test]
fn staging_gives_up_when_every_candidate_is_occupied() {
    let mut remote = FakeRemote::with_remote_root();
    let mut nonces = Vec::new();
    for i in 0..MAX_REMOTE_TEMP_CANDIDATES {
        let nonce = format!("{i:032x}");
        remote.put_existing(&transfer_candidate(&nonce), b"foreign temp", mtime(2));
        nonces.push(nonce);
    }
    let nonces: Vec<&str> = nonces.iter().map(String::as_str).collect();

    let staged = stage_guarded(&mut remote, b"new local", &nonces);

    assert_eq!(staged.phase, UploadPhase::Done);
    assert!(staged.outcome().is_err());
    assert!(transfer_temp_events(&remote.events, "upload ").is_empty());
    assert_eq!(remote.files.len(), MAX_REMOTE_TEMP_CANDIDATES);
}

#[test]
fn a_nonce_that_is_none_ends_an_upload() {
    let mut remote = FakeRemote::with_remote_root();

    let error = stage_guarded(&mut remote, b"new local", &["short"]).outcome().unwrap_err();

    assert_eq!(error.full_message(), "invalid transfer nonce");
    assert!(remote.files.is_empty());
}

#[test]
fn a_plain_upload_makes_the_directories_above_it_from_the_top() {
    assert_eq!(remote_parents("/remote/a/b/page.txt"), vec!["/remote", "/remote/a", "/remote/a/b"]);
    assert_eq!(remote_parents("public/page.txt"), vec!["public"]);
    assert!(remote_parents("page.txt").is_empty());
    assert!(remote_parents("/page.txt").is_empty());
}

#[test]
fn a_plain_upload_takes_the_place_of_its_destination_and_is_remembered() {
    let mut remote = FakeRemote::default();
    remote.put_existing(TARGET, b"old remote", mtime(1));
    let mut state = StateFile::new();

    let mut staged = stage_plain(&mut remote, b"new local", &mut Nonces::default());
    assert_eq!(remote.mkdir_calls, 1);
    assert_eq!(remote.files[TARGET], b"old remote");
    match staged.action() {
        PlainAction::Rename(from, to) => {
            staged.on_renamed(remote.rename(&from, &to), &mut state, mtime(3600));
        }
        other => panic!("the upload asked for {other:?}"),
    }

    assert!(staged.outcome().is_ok());
    assert_eq!(remote.files[TARGET], b"new local");
    assert_eq!(state.files.get("page.txt").unwrap().remote_mtime, mtime(40));
    assert!(transfer_temp_paths(&remote).is_empty());
}

#[test]
fn a_plain_upload_in_a_dry_run_asks_for_nothing() {
    let payload = b"any bytes".to_vec();
    let run =
        PlainUpload::upload_one("page.txt", TARGET, &payload, "any hash", ExecutionMode::DryRun);
    assert_eq!(run.size, 9);

    assert!(matches!(run.action(), PlainAction::Done));
    assert!(run.outcome().is_ok());
}
