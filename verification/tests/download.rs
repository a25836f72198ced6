//! Downloads into a file system in memory that turns against them.

use ferry::download::{
    missing_parents, DownloadAction, DownloadPhase, ExpectedLocalDestination, LocalDownload,
    MakeReply, OpenReply, TempFacts, WriteFacts, MAX_TEMP_CANDIDATES,
};
use ferry::error::Error;
use ferry::file_transfer::{AnchorFacts, LeafFacts, LocalPathExpectation, PathProbe};
use ferry::ftp::Timestamp;
use ferry::hash::hash_bytes;
use ferry::scope::{CommitDecision, ExecutionMode};
use ferry::state::{FileRecord, StateFile};
use ferry::transfer_temp::{is_reserved_transfer_temp, transfer_candidate};
use ferry::upload::ClaimReply;
use std::collections::{BTreeMap, VecDeque};

const ROOT: &str = "/project";
const TARGET: &str = "/project/page.txt";

/// What stands at one path of the simulated file system.
#[derive(Clone, Debug)]
enum Node {
    File { bytes: Vec<u8>, identity: u64, modified: i64 },
    Directory { identity: u64 },
    Link { target: String },
}

/// A file system in memory, by absolute path.
#[derive(Debug)]
struct Local {
    nodes: BTreeMap<String, Node>,
    next: u64,
    clock: i64,
}

fn parent_of(path: &str) -> String {
    match path.rsplit_once('/') {
        Some(("", _)) => "/".to_string(),
        Some((parent, _)) => parent.to_string(),
        None => String::new(),
    }
}

fn failure(message: &str) -> Error {
    Error::failure(message.to_string())
}

impl Local {
    fn new() -> Self {
        let mut local = Local { nodes: BTreeMap::new(), next: 1, clock: 100 };
        local.mkdir("/");
        local.mkdir(ROOT);
        local
    }

    fn fresh(&mut self) -> u64 {
        self.next += 1;
        self.next
    }

    fn mkdir(&mut self, path: &str) {
        assert!(!self.nodes.contains_key(path), "{path} is there already");
        let identity = self.fresh();
        self.nodes.insert(path.to_string(), Node::Directory { identity });
    }

    /// Writes a file: the same file again where one is there.
    fn write(&mut self, path: &str, bytes: &[u8]) {
        self.clock += 1;
        let identity = match self.nodes.get(path) {
            Some(Node::File { identity, .. }) => *identity,
            _ => self.fresh(),
        };
        let modified = self.clock;
        self.nodes.insert(path.to_string(), Node::File { bytes: bytes.to_vec(), identity, modified });
    }

    fn link(&mut self, target: &str, path: &str) {
        self.nodes.insert(path.to_string(), Node::Link { target: target.to_string() });
    }

    fn remove(&mut self, path: &str) {
        assert!(self.nodes.remove(path).is_some(), "{path} is not there");
    }

    fn rename(&mut self, from: &str, to: &str) {
        let node = self.nodes.remove(from).expect("nothing to rename");
        self.nodes.insert(to.to_string(), node);
    }

    /// Where a path really lies, symlinks followed.
    fn canonical(&self, path: &str) -> Option<String> {
        let mut at = "/".to_string();
        for segment in path.split('/').filter(|segment| !segment.is_empty()) {
            if !matches!(self.nodes.get(&at), Some(Node::Directory { .. })) {
                return None;
            }
            let next = if at == "/" { format!("/{segment}") } else { format!("{at}/{segment}") };
            at = match self.nodes.get(&next)? {
                Node::Link { target } => self.canonical(target)?,
                _ => next,
            };
        }
        Some(at)
    }

    /// What stands at a path, the symlinks above it followed, its own not.
    fn at(&self, path: &str) -> Option<&Node> {
        let parent = self.canonical(&parent_of(path))?;
        let name = path.rsplit_once('/')?.1;
        let place = if parent == "/" { format!("/{name}") } else { format!("{parent}/{name}") };
        self.nodes.get(&place)
    }

    fn followed(&self, path: &str) -> Option<(&Node, String)> {
        let canonical = self.canonical(path)?;
        Some((&self.nodes[&canonical], canonical))
    }

    fn is_dir(&self, path: &str) -> bool {
        matches!(self.followed(path), Some((Node::Directory { .. }, _)))
    }

    fn is_there(&self, path: &str) -> bool {
        self.nodes.contains_key(path)
    }

    fn read(&self, path: &str) -> Vec<u8> {
        match self.followed(path) {
            Some((Node::File { bytes, .. }, _)) => bytes.clone(),
            other => panic!("{path} is no file: {other:?}"),
        }
    }

    fn names(&self, directory: &str) -> Vec<String> {
        let prefix = format!("{directory}/");
        let below = self.nodes.keys().filter_map(|path| path.strip_prefix(prefix.as_str()));
        below.filter(|name| !name.contains('/')).map(str::to_string).collect()
    }
}

fn identity_of(node: &Node) -> u64 {
    match node {
        Node::File { identity, .. } | Node::Directory { identity } => *identity,
        Node::Link { target } => panic!("a symlink to {target} was not followed"),
    }
}

impl Local {
    fn anchor(&self, path: &str) -> Result<AnchorFacts, Error> {
        let (node, canonical) =
            self.followed(path).ok_or_else(|| failure(&format!("reading local target parent {path}")))?;
        let is_dir = matches!(node, Node::Directory { .. });
        Ok(AnchorFacts { canonical, is_dir, identity: identity_of(node) })
    }

    fn leaf(&self, path: &str) -> Result<Option<LeafFacts>, Error> {
        let Some(own) = self.at(path) else {
            return Ok(None);
        };
        let (node, canonical) =
            self.followed(path).ok_or_else(|| failure(&format!("{path} leads nowhere")))?;
        let (size, modified, sha256) = match node {
            Node::File { bytes, modified, .. } => {
                (bytes.len() as u64, *modified, Some(hash_bytes(bytes)))
            }
            _ => (0, 0, None),
        };
        Ok(Some(LeafFacts {
            is_symlink: matches!(own, Node::Link { .. }),
            is_file: matches!(node, Node::File { .. }),
            is_dir: matches!(node, Node::Directory { .. }),
            canonical,
            identity: identity_of(node),
            size,
            modified: Timestamp { secs: modified, nanos: 0 },
            sha256,
        }))
    }

    fn probe(&self, root: &str, path: &str) -> PathProbe {
        PathProbe {
            root: self.anchor(root),
            parent: self.anchor(&parent_of(path)),
            leaf: self.leaf(path),
        }
    }

    /// A probe of what an expectation is about.
    fn probe_again(&self, expected: &LocalPathExpectation) -> PathProbe {
        self.probe(&expected.canonical_root, &expected.resolved_path())
    }
}

const REMOTE_MTIME: Timestamp = Timestamp { secs: 1_786_352_400, nanos: 0 };
const NOW: Timestamp = Timestamp { secs: 1_786_353_000, nanos: 0 };

fn transfer_temps(local: &Local, directory: &str) -> Vec<String> {
    let names = local.names(directory).into_iter().filter(|name| is_reserved_transfer_temp(name));
    names.map(|name| format!("{directory}/{name}")).collect()
}

fn only_transfer_temp(local: &Local) -> String {
    let temps = transfer_temps(local, ROOT);
    assert_eq!(temps.len(), 1, "expected one staged transfer temp");
    temps.into_iter().next().unwrap()
}

fn old_record() -> FileRecord {
    FileRecord {
        sha256: hash_bytes(&b"old state".to_vec()),
        size: b"old state".len() as u64,
        remote_mtime: Timestamp { secs: 1_786_266_000, nanos: 0 },
        last_synced: Timestamp { secs: 1_786_266_060, nanos: 0 },
    }
}

impl Local {
    fn temp_facts(&self, path: &str) -> Result<TempFacts, Error> {
        match self.at(path) {
            Some(Node::File { bytes, identity, modified }) => Ok(TempFacts {
                is_file: true,
                identity: *identity,
                size: bytes.len() as u64,
                modified: Timestamp { secs: *modified, nanos: 0 },
                sha256: hash_bytes(bytes),
            }),
            _ => Err(failure(&format!("local temp {path} is gone"))),
        }
    }
}

/// Says whether a selection is current, and claims it for a change.
trait Gate {
    fn is_current(&mut self) -> bool {
        true
    }

    fn claim(&mut self, local: &mut Local) -> ClaimReply;

    fn release(&mut self, _local: &mut Local) {}
}

struct UnconditionalCommitGate;

impl Gate for UnconditionalCommitGate {
    fn claim(&mut self, _local: &mut Local) -> ClaimReply {
        ClaimReply::Granted
    }
}

struct CancelAtPreStage {
    checks: usize,
    commits: usize,
}

impl Gate for CancelAtPreStage {
    fn is_current(&mut self) -> bool {
        self.checks += 1;
        self.checks == 1
    }

    fn claim(&mut self, _local: &mut Local) -> ClaimReply {
        self.commits += 1;
        ClaimReply::Cancelled
    }
}

struct CancelAfterStaging {
    saw_temp: bool,
}

impl Gate for CancelAfterStaging {
    fn claim(&mut self, local: &mut Local) -> ClaimReply {
        self.saw_temp = local.temp_facts(&only_transfer_temp(local)).is_ok();
        ClaimReply::Cancelled
    }
}

type Hook = Option<Box<dyn FnOnce(&mut Local)>>;

struct HookGate {
    before: Hook,
    after: Hook,
}

impl HookGate {
    fn before(hook: impl FnOnce(&mut Local) + 'static) -> Self {
        Self { before: Some(Box::new(hook)), after: None }
    }

    fn after(hook: impl FnOnce(&mut Local) + 'static) -> Self {
        Self { before: None, after: Some(Box::new(hook)) }
    }
}

impl Gate for HookGate {
    fn claim(&mut self, local: &mut Local) -> ClaimReply {
        if let Some(hook) = self.before.take() {
            hook(local);
        }
        ClaimReply::Granted
    }

    fn release(&mut self, local: &mut Local) {
        if let Some(hook) = self.after.take() {
            hook(local);
        }
    }
}

struct PanicGate;

impl Gate for PanicGate {
    fn is_current(&mut self) -> bool {
        panic!("a dry run asked whether its selection is current")
    }

    fn claim(&mut self, _local: &mut Local) -> ClaimReply {
        panic!("a dry run claimed its selection")
    }
}

/// Gives nonces out, scripted ones first.
#[derive(Default)]
struct Nonces {
    scripted: VecDeque<String>,
    given: u64,
}

impl Nonces {
    fn of(scripted: &[&str]) -> Self {
        Nonces { scripted: scripted.iter().map(|nonce| nonce.to_string()).collect(), given: 0 }
    }

    fn draw(&mut self) -> String {
        self.given += 1;
        self.scripted.pop_front().unwrap_or_else(|| format!("{:032x}", self.given))
    }
}

/// The directories above a path that are missing, the topmost one first.
fn missing_above(local: &Local, path: &str) -> Vec<String> {
    let mut ancestors = Vec::new();
    let mut present = Vec::new();
    let mut at = parent_of(path);
    loop {
        present.push(local.at(&at).is_some() || at == "/");
        ancestors.push(at.clone());
        if at == "/" {
            return missing_parents(&ancestors, &present);
        }
        at = parent_of(&at);
    }
}

/// Carries a download on until it has ended, or until it is at a phase.
fn carry_on(
    run: &mut LocalDownload,
    until: DownloadPhase,
    payload: &[u8],
    local: &mut Local,
    state: &mut StateFile,
    nonces: &mut Nonces,
    gate: &mut dyn Gate,
) {
    while run.phase != until {
        match run.action() {
            DownloadAction::ProbeDestination => {
                let parent = local.anchor(&parent_of(&run.local_path));
                let expected = &run.destination.as_ref().unwrap().snapshot;
                let probe = local.probe_again(expected);
                run.on_destination(parent, probe);
            }
            DownloadAction::PollGate => run.on_gate(gate.is_current()),
            DownloadAction::ProbeAnchor => {
                let expected = &run.destination.as_ref().unwrap().snapshot;
                let root = local.anchor(&expected.canonical_root);
                let parent = local.anchor(&expected.canonical_parent);
                run.on_anchor(root, parent);
            }
            DownloadAction::Time(_) => run.on_time(Ok(REMOTE_MTIME)),
            DownloadAction::FindMissing(path) => run.on_missing(missing_above(local, &path)),
            DownloadAction::MakeDirectory(path) => {
                if local.is_dir(&path) {
                    run.on_made(MakeReply::Existed);
                } else {
                    local.mkdir(&path);
                    run.on_made(MakeReply::Created);
                }
            }
            DownloadAction::LookAtParent(path) => run.on_parent(local.anchor(&parent_of(&path))),
            DownloadAction::DrawNonce => run.on_nonce(&nonces.draw()),
            DownloadAction::Open(path) => {
                if local.at(&path).is_some() {
                    run.on_opened(OpenReply::Exists);
                } else {
                    local.write(&path, b"");
                    run.on_opened(OpenReply::Opened);
                }
            }
            DownloadAction::Identify => {
                run.on_identity(local.temp_facts(&run.temp).map(|facts| facts.identity));
            }
            DownloadAction::Write => {
                local.write(&run.temp, payload);
                let facts = local.temp_facts(&run.temp).unwrap();
                let TempFacts { is_file, size, modified, .. } = facts;
                run.on_written(Ok(WriteFacts { is_file, size, modified }));
            }
            DownloadAction::ProbeStaged(parent, temp) => {
                run.on_staged(local.anchor(&parent), local.temp_facts(&temp));
            }
            DownloadAction::Claim => run.on_claim(gate.claim(local)),
            DownloadAction::Rename(from, to) => {
                local.rename(&from, &to);
                run.on_renamed(Ok(()), state, NOW);
            }
            DownloadAction::Release => {
                gate.release(local);
                run.on_released();
            }
            DownloadAction::ProbeOwner(parent, temp) => {
                let owner = local.temp_facts(&temp).ok();
                let owner = owner.map(|facts| (facts.is_file, facts.identity));
                run.on_owner(local.anchor(&parent).ok(), owner);
            }
            DownloadAction::RemoveFile(path) => {
                local.remove(&path);
                run.on_removed();
            }
            DownloadAction::RemoveDirectory(path) => {
                if local.names(&path).is_empty() {
                    local.remove(&path);
                }
                run.on_removed();
            }
            DownloadAction::Done => return,
        }
    }
}

fn capture(local: &Local, path: &str) -> ExpectedLocalDestination {
    ExpectedLocalDestination::capture(ROOT, path, local.probe(ROOT, path)).unwrap()
}

fn guarded(
    local_path: &str,
    rel: &str,
    bytes: &[u8],
    expected: ExpectedLocalDestination,
    mode: ExecutionMode,
) -> LocalDownload {
    let payload = bytes.to_vec();
    let size = payload.len() as u64;
    let sha256 = hash_bytes(&payload);
    LocalDownload::download_one_guarded(
        rel,
        local_path,
        &Some(payload),
        size,
        &sha256,
        REMOTE_MTIME,
        expected,
        mode,
    )
}

fn download_one_guarded(
    local: &mut Local,
    state: &mut StateFile,
    target: &str,
    rel: &str,
    bytes: &[u8],
    expected: ExpectedLocalDestination,
    mode: ExecutionMode,
    gate: &mut dyn Gate,
) -> Result<CommitDecision, Error> {
    let mut run = guarded(target, rel, bytes, expected, mode);
    let mut nonces = Nonces::default();
    carry_on(&mut run, DownloadPhase::Done, bytes, local, state, &mut nonces, gate);
    if mode == ExecutionMode::Apply {
        let committed = run.failure.is_none() && run.decision == CommitDecision::Committed;
        assert_eq!(run.renamed, committed);
    }
    run.outcome()
}

/// Stages a download beside the target, up to its claim.
fn stage_local_write(local: &mut Local, bytes: &[u8], nonces: &mut Nonces) -> LocalDownload {
    let expected = capture(local, TARGET);
    let mut run = guarded(TARGET, "page.txt", bytes, expected, ExecutionMode::Apply);
    let mut state = StateFile::new();
    let mut gate = UnconditionalCommitGate;
    carry_on(&mut run, DownloadPhase::Claim, bytes, local, &mut state, nonces, &mut gate);
    run
}

/// Gives a staged download up.
fn give_up(local: &mut Local, mut staged: LocalDownload) {
    staged.on_claim(ClaimReply::Cancelled);
    let mut state = StateFile::new();
    let mut gate = UnconditionalCommitGate;
    let mut nonces = Nonces::default();
    carry_on(&mut staged, DownloadPhase::Done, b"", local, &mut state, &mut nonces, &mut gate);
    assert!(matches!(staged.outcome(), Ok(CommitDecision::Cancelled)));
}


#[test]
fn guarded_download_dry_run_commits_without_staging_or_state_mutation() {
    let mut local = Local::new();
    let target = TARGET;
    local.write(target, b"local");
    let expected = capture(&local, target);
    let mut state = StateFile::new();

    let decision = download_one_guarded(
        &mut local,
        &mut state,
        target,
        "page.txt",
        b"remote",
        expected,
        ExecutionMode::DryRun,
        &mut PanicGate,
    )
    .unwrap();

    assert_eq!(decision, CommitDecision::Committed);
    assert_eq!(local.read(target), b"local");
    assert!(transfer_temps(&local, ROOT).is_empty());
    assert!(state.files.len() == 0);
}

#[test]
fn guarded_download_cancels_at_pre_stage_boundary_without_creating_a_temp() {
    let mut local = Local::new();
    let target = TARGET;
    local.write(target, b"original local");
    let expected = capture(&local, target);
    let mut state = StateFile::new();
    let mut gate = CancelAtPreStage {
        checks: 0,
        commits: 0,
    };

    assert!(gate.is_current(), "models the outer scoped-plan check");
    let decision = download_one_guarded(
        &mut local,
        &mut state,
        target,
        "page.txt",
        b"new remote",
        expected,
        ExecutionMode::Apply,
        &mut gate,
    )
    .unwrap();

    assert_eq!(decision, CommitDecision::Cancelled);
    assert_eq!(gate.commits, 0);
    assert_eq!(local.read(target), b"original local");
    assert!(transfer_temps(&local, ROOT).is_empty());
    assert!(state.files.len() == 0);
}

#[test]
fn guarded_download_cancellation_after_staging_preserves_destination_and_state() {
    let mut local = Local::new();
    let target = TARGET;
    local.write(target, b"original local");
    let expected = capture(&local, target);
    let mut state = StateFile::new();
    state.files.insert("page.txt".into(), old_record());
    let before = state.copy();
    let mut gate = CancelAfterStaging {
        saw_temp: false,
    };

    let decision = download_one_guarded(
        &mut local,
        &mut state,
        target,
        "page.txt",
        b"new remote",
        expected,
        ExecutionMode::Apply,
        &mut gate,
    )
    .unwrap();

    assert_eq!(decision, CommitDecision::Cancelled);
    assert!(gate.saw_temp);
    assert_eq!(local.read(target), b"original local");
    assert!(!state.differs(&before));
    assert!(transfer_temps(&local, ROOT).is_empty());
}

#[test]
fn guarded_download_fails_when_the_parent_disappears_without_recreating_it() {
    let mut local = Local::new();
    let parent = "/project/nested";
    let target = "/project/nested/page.txt";
    local.mkdir(parent);
    let expected = capture(&local, target);
    local.remove(parent);
    let mut state = StateFile::new();

    let error = download_one_guarded(
        &mut local,
        &mut state,
        target,
        "nested/page.txt",
        b"new remote",
        expected,
        ExecutionMode::Apply,
        &mut UnconditionalCommitGate,
    )
    .unwrap_err();

    assert!(error.full_message().contains("parent"));
    assert!(!local.is_there(parent));
    assert!(transfer_temps(&local, ROOT).is_empty());
    assert!(state.files.len() == 0);
}

#[test]
fn guarded_download_rejects_destination_identity_change_inside_claim() {
    let mut local = Local::new();
    let target = TARGET;
    local.write(target, b"same bytes");
    let expected = capture(&local, target);
    let changed = target;
    let mut gate = HookGate::before(move |local| {
        local.remove(changed);
        local.write(changed, b"same bytes");
    });
    let mut state = StateFile::new();

    let error = download_one_guarded(
        &mut local,
        &mut state,
        target,
        "page.txt",
        b"new remote",
        expected,
        ExecutionMode::Apply,
        &mut gate,
    )
    .unwrap_err();

    assert!(error.full_message().contains("destination changed"));
    assert_eq!(local.read(target), b"same bytes");
    assert!(state.files.len() == 0);
    assert!(transfer_temps(&local, ROOT).is_empty());
}

#[test]
fn guarded_download_rejects_destination_type_change_inside_claim() {
    let mut local = Local::new();
    let target = TARGET;
    local.write(target, b"local");
    let expected = capture(&local, target);
    let changed = target;
    let mut gate = HookGate::before(move |local| {
        local.remove(changed);
        local.mkdir(changed);
    });
    let mut state = StateFile::new();

    let error = download_one_guarded(
        &mut local,
        &mut state,
        target,
        "page.txt",
        b"new remote",
        expected,
        ExecutionMode::Apply,
        &mut gate,
    )
    .unwrap_err();

    assert!(error.full_message().contains("destination changed"));
    assert!(local.is_dir(target));
    assert!(state.files.len() == 0);
    assert!(transfer_temps(&local, ROOT).is_empty());
}

#[test]
fn guarded_download_rejects_temp_disappearance_inside_claim() {
    let mut local = Local::new();
    let target = TARGET;
    local.write(target, b"local");
    let expected = capture(&local, target);
    let mut gate = HookGate::before(move |local| {
        let temp = only_transfer_temp(local);
        local.remove(&temp);
    });
    let mut state = StateFile::new();

    let error = download_one_guarded(
        &mut local,
        &mut state,
        target,
        "page.txt",
        b"new remote",
        expected,
        ExecutionMode::Apply,
        &mut gate,
    )
    .unwrap_err();

    assert!(error.full_message().contains("local temp"));
    assert_eq!(local.read(target), b"local");
    assert!(state.files.len() == 0);
    assert!(transfer_temps(&local, ROOT).is_empty());
}

#[test]
fn guarded_download_rejects_temp_content_change_inside_claim() {
    let mut local = Local::new();
    let target = TARGET;
    local.write(target, b"local");
    let expected = capture(&local, target);
    let mut gate = HookGate::before(move |local| {
        let temp = only_transfer_temp(local);
        local.write(&temp, b"foreign bytes");
    });
    let mut state = StateFile::new();

    let error = download_one_guarded(
        &mut local,
        &mut state,
        target,
        "page.txt",
        b"new remote",
        expected,
        ExecutionMode::Apply,
        &mut gate,
    )
    .unwrap_err();

    assert!(error.full_message().contains("local temp changed"));
    assert_eq!(local.read(target), b"local");
    assert!(state.files.len() == 0);
    assert!(transfer_temps(&local, ROOT).is_empty());
}

#[test]
fn guarded_download_does_not_clean_up_a_replaced_temp() {
    let mut local = Local::new();
    let target = TARGET;
    local.write(target, b"local");
    let expected = capture(&local, target);
    let mut gate = HookGate::before(move |local| {
        let temp = only_transfer_temp(local);
        local.remove(&temp);
        local.write(&temp, b"foreign replacement");
    });
    let mut state = StateFile::new();

    let error = download_one_guarded(
        &mut local,
        &mut state,
        target,
        "page.txt",
        b"new remote",
        expected,
        ExecutionMode::Apply,
        &mut gate,
    )
    .unwrap_err();

    assert!(error.full_message().contains("local temp changed"));
    assert_eq!(local.read(target), b"local");
    assert!(state.files.len() == 0);
    let foreign = only_transfer_temp(&local);
    assert_eq!(local.read(&foreign), b"foreign replacement");
    local.remove(&foreign);
}

#[test]
fn guarded_download_claim_can_commit_before_late_invalidation() {
    let mut local = Local::new();
    let target = TARGET;
    local.write(target, b"local");
    let expected = capture(&local, target);
    let invalidated = target;
    let mut gate = HookGate::after(move |local| local.write(invalidated, b"late edit"));
    let mut state = StateFile::new();

    let decision = download_one_guarded(
        &mut local,
        &mut state,
        target,
        "page.txt",
        b"new remote",
        expected,
        ExecutionMode::Apply,
        &mut gate,
    )
    .unwrap();

    assert_eq!(decision, CommitDecision::Committed);
    assert_eq!(local.read(target), b"late edit");
    assert_eq!(state.files.get("page.txt").unwrap().sha256, hash_bytes(&b"new remote".to_vec()));
    assert!(transfer_temps(&local, ROOT).is_empty());
}


#[test]
fn staging_leaves_a_preexisting_legacy_temp_file_untouched() {
    let mut local = Local::new();
    let tmp = "/project/page.txt.tmp.zedftp";
    let original_target = b"original target";
    let original_tmp = b"another writer's staged bytes";
    local.write(TARGET, original_target);
    local.write(tmp, original_tmp);

    let staged = stage_local_write(&mut local, b"replacement", &mut Nonces::default());
    let owned_tmp = staged.temp.clone();
    give_up(&mut local, staged);

    assert!(!local.is_there(&owned_tmp));
    assert_eq!(local.read(TARGET), original_target);
    assert_eq!(local.read(tmp), original_tmp);
}

#[test]
fn staging_gives_interleaved_writers_distinct_owned_temps() {
    let mut local = Local::new();
    let mut nonces = Nonces::default();

    let first = stage_local_write(&mut local, b"first writer", &mut nonces);
    let second = stage_local_write(&mut local, b"second writer", &mut nonces);
    let first_tmp = first.temp.clone();
    let second_tmp = second.temp.clone();

    assert_ne!(first_tmp, second_tmp);
    assert!(is_reserved_transfer_temp(&first_tmp));
    assert!(is_reserved_transfer_temp(&second_tmp));
    assert_eq!(local.read(&first_tmp), b"first writer");
    assert_eq!(local.read(&second_tmp), b"second writer");

    give_up(&mut local, first);
    assert!(!local.is_there(&first_tmp));
    assert!(local.is_there(&second_tmp));
    give_up(&mut local, second);

    assert!(!local.is_there(&second_tmp));
}

#[test]
fn identity_capture_failure_preserves_unproven_replacement() {
    let mut local = Local::new();
    let nonce = "22222222222222222222222222222222";
    let candidate = transfer_candidate(TARGET, nonce).unwrap();
    let bytes = b"our staged bytes";
    let expected = capture(&local, TARGET);
    let mut run = guarded(TARGET, "page.txt", bytes, expected, ExecutionMode::Apply);
    let mut state = StateFile::new();
    let mut nonces = Nonces::of(&[nonce]);
    let mut gate = UnconditionalCommitGate;
    let (to, end) = (DownloadPhase::Identify, DownloadPhase::Done);

    carry_on(&mut run, to, bytes, &mut local, &mut state, &mut nonces, &mut gate);
    local.remove(&candidate);
    local.write(&candidate, b"foreign replacement");
    run.on_identity(Err(failure("injected identity capture failure")));
    carry_on(&mut run, end, bytes, &mut local, &mut state, &mut nonces, &mut gate);
    let error = run.outcome().unwrap_err();

    assert!(error.full_message().contains("capturing temp identity"));
    assert_eq!(local.read(&candidate), b"foreign replacement");
    assert!(!local.is_there(TARGET));
}

#[test]
fn local_staging_retries_an_occupied_unique_candidate_without_touching_it() {
    let mut local = Local::new();
    let nonces = ["00000000000000000000000000000000", "11111111111111111111111111111111"];
    let occupied = transfer_candidate(TARGET, nonces[0]).unwrap();
    let fresh = transfer_candidate(TARGET, nonces[1]).unwrap();
    local.write(&occupied, b"foreign temp");

    let staged = stage_local_write(&mut local, b"our staged bytes", &mut Nonces::of(&nonces));

    assert_eq!(staged.temp, fresh);
    assert_eq!(local.read(&occupied), b"foreign temp");
    assert_eq!(local.read(&staged.temp), b"our staged bytes");
    give_up(&mut local, staged);

    assert_eq!(local.read(&occupied), b"foreign temp");
    assert!(!local.is_there(&fresh));
}

#[test]
fn staging_leaves_a_preexisting_legacy_temp_symlink_untouched() {
    let mut local = Local::new();
    let tmp = "/project/page.txt.tmp.zedftp";
    let symlink_target = "/project/do-not-touch.txt";
    let original = b"unrelated bytes";
    local.write(symlink_target, original);
    local.link(symlink_target, tmp);

    let staged = stage_local_write(&mut local, b"replacement", &mut Nonces::default());
    let owned_tmp = staged.temp.clone();
    give_up(&mut local, staged);

    assert!(!local.is_there(&owned_tmp));
    assert!(matches!(local.at(tmp), Some(Node::Link { .. })));
    assert_eq!(local.read(symlink_target), original);
    assert!(!local.is_there(TARGET));
}

#[test]
fn a_committed_download_is_remembered_as_it_was_fetched() {
    let mut local = Local::new();
    local.write(TARGET, b"local");
    let expected = capture(&local, TARGET);
    let mut state = StateFile::new();

    let decision = download_one_guarded(
        &mut local,
        &mut state,
        TARGET,
        "page.txt",
        b"new remote",
        expected,
        ExecutionMode::Apply,
        &mut UnconditionalCommitGate,
    )
    .unwrap();

    assert_eq!(decision, CommitDecision::Committed);
    assert_eq!(local.read(TARGET), b"new remote");
    assert_eq!(
        state.files.get("page.txt"),
        Some(&FileRecord {
            sha256: hash_bytes(&b"new remote".to_vec()),
            size: 10,
            remote_mtime: REMOTE_MTIME,
            last_synced: NOW,
        })
    );
}

#[test]
fn a_symlink_at_a_destination_is_not_written_through() {
    let mut local = Local::new();
    local.write("/project/other.txt", b"other");
    local.link("/project/other.txt", TARGET);
    let expected = capture(&local, TARGET);
    let changed = TARGET;
    let mut gate = HookGate::before(move |local| {
        local.remove(changed);
        local.write(changed, b"other");
    });

    let error = download_one_guarded(
        &mut local,
        &mut StateFile::new(),
        TARGET,
        "page.txt",
        b"new remote",
        expected,
        ExecutionMode::Apply,
        &mut gate,
    )
    .unwrap_err();

    assert!(error.full_message().contains("local destination changed"));
    assert_eq!(local.read("/project/other.txt"), b"other");
}

#[test]
fn local_staging_gives_up_when_every_candidate_is_occupied() {
    let mut local = Local::new();
    let nonces: Vec<String> = (0..MAX_TEMP_CANDIDATES).map(|i| format!("{i:032x}")).collect();
    let nonces: Vec<&str> = nonces.iter().map(String::as_str).collect();
    for nonce in &nonces {
        local.write(&transfer_candidate(TARGET, nonce).unwrap(), b"foreign temp");
    }

    let staged = stage_local_write(&mut local, b"our staged bytes", &mut Nonces::of(&nonces));

    assert_eq!(staged.phase, DownloadPhase::Done);
    assert!(staged.outcome().is_err());
    assert_eq!(transfer_temps(&local, ROOT).len(), MAX_TEMP_CANDIDATES);
}

fn plain(local: &mut Local, path: &str, state: &mut StateFile) -> Result<CommitDecision, Error> {
    let bytes = b"new remote".to_vec();
    let mut run = LocalDownload::download_one(
        "a/b/page.txt",
        path,
        "/remote/a/b/page.txt",
        &bytes,
        &hash_bytes(&bytes),
        ExecutionMode::Apply,
    );
    let mut nonces = Nonces::default();
    let mut gate = PanicGate;
    carry_on(&mut run, DownloadPhase::Done, &bytes, local, state, &mut nonces, &mut gate);
    run.outcome()
}

#[test]
fn a_plain_download_makes_the_missing_directories_above_it() {
    let mut local = Local::new();
    let mut state = StateFile::new();

    let decision = plain(&mut local, "/project/a/b/page.txt", &mut state).unwrap();

    assert_eq!(decision, CommitDecision::Committed);
    assert_eq!(local.read("/project/a/b/page.txt"), b"new remote");
    assert_eq!(state.files.get("a/b/page.txt").unwrap().remote_mtime, REMOTE_MTIME);
    assert!(transfer_temps(&local, "/project/a/b").is_empty());
}

#[test]
fn a_plain_download_that_fails_removes_the_directories_it_made() {
    let mut local = Local::new();
    local.mkdir("/project/a");
    let bytes = b"new remote".to_vec();
    let path = "/project/a/b/c/page.txt";
    let mode = ExecutionMode::Apply;
    let hash = hash_bytes(&bytes);
    let mut run = LocalDownload::download_one("a/b/c/page.txt", path, "/r", &bytes, &hash, mode);
    let mut state = StateFile::new();
    let mut nonces = Nonces::default();
    let mut gate = PanicGate;
    let (to, end) = (DownloadPhase::Write, DownloadPhase::Done);

    carry_on(&mut run, to, &bytes, &mut local, &mut state, &mut nonces, &mut gate);
    assert!(local.is_dir("/project/a/b/c"));
    run.on_written(Err(failure("no space left")));
    carry_on(&mut run, end, &bytes, &mut local, &mut state, &mut nonces, &mut gate);
    let error = run.outcome().unwrap_err();

    assert!(error.full_message().contains("no space left"));
    assert!(!local.is_there("/project/a/b"));
    assert!(local.is_dir("/project/a"));
    assert_eq!(state.files.len(), 0);
}

#[test]
fn missing_directories_end_at_the_first_one_that_is_there() {
    let ancestors: Vec<String> =
        ["/p/a/b", "/p/a", "/p", "/"].iter().map(|path| path.to_string()).collect();

    assert_eq!(
        missing_parents(&ancestors, &vec![false, false, true, true]),
        vec!["/p/a", "/p/a/b"]
    );
    assert!(missing_parents(&ancestors, &vec![true, true, true, true]).is_empty());
    assert_eq!(missing_parents(&ancestors, &vec![false, true, false, true]), vec!["/p/a/b"]);
}

#[test]
fn a_commit_that_fails_inside_the_claim_is_cleaned_up_inside_it() {
    let mut local = Local::new();
    local.write(TARGET, b"local");
    let expected = capture(&local, TARGET);
    let mut state = StateFile::new();
    let mut gate = HookGate {
        before: Some(Box::new(|local| {
            let temp = only_transfer_temp(local);
            local.write(&temp, b"foreign bytes");
        })),
        after: Some(Box::new(|local| {
            assert!(transfer_temps(local, ROOT).is_empty(), "the temp outlived the claim");
        })),
    };

    let error = download_one_guarded(
        &mut local,
        &mut state,
        TARGET,
        "page.txt",
        b"remote",
        expected,
        ExecutionMode::Apply,
        &mut gate,
    )
    .unwrap_err();

    assert!(error.message.starts_with("local temp changed before commit at "));
    assert!(gate.after.is_none(), "the claim was given back");
    assert_eq!(local.read(TARGET), b"local");
    assert!(state.files.len() == 0);
}

#[test]
fn a_destination_that_changed_inside_the_claim_gives_it_back_before_the_cleanup() {
    let mut local = Local::new();
    local.write(TARGET, b"local");
    let expected = capture(&local, TARGET);
    let mut state = StateFile::new();
    let mut gate = HookGate {
        before: Some(Box::new(|local| local.write(TARGET, b"edited"))),
        after: Some(Box::new(|local| {
            only_transfer_temp(local);
        })),
    };

    let error = download_one_guarded(
        &mut local,
        &mut state,
        TARGET,
        "page.txt",
        b"remote",
        expected,
        ExecutionMode::Apply,
        &mut gate,
    )
    .unwrap_err();

    assert!(error.message.starts_with("local destination changed for "));
    assert!(gate.after.is_none());
    assert!(transfer_temps(&local, ROOT).is_empty());
    assert_eq!(local.read(TARGET), b"edited");
}

#[test]
fn a_renaming_that_fails_is_cleaned_up_before_the_claim_is_given_back() {
    let mut local = Local::new();
    let mut run = stage_local_write(&mut local, b"remote", &mut Nonces::default());
    run.on_claim(ClaimReply::Granted);
    let mut state = StateFile::new();
    carry_on(
        &mut run,
        DownloadPhase::Rename,
        b"remote",
        &mut local,
        &mut state,
        &mut Nonces::default(),
        &mut UnconditionalCommitGate,
    );
    run.on_renamed(Err(failure("denied")), &mut state, NOW);
    assert_eq!(run.phase, DownloadPhase::CleanupLook);
    assert!(run.held);
    let owner = local.temp_facts(&run.temp).ok().map(|facts| (facts.is_file, facts.identity));
    run.on_owner(local.anchor(&run.parent).ok(), owner);
    assert!(matches!(run.action(), DownloadAction::RemoveFile(_)));
    run.on_removed();
    assert!(matches!(run.action(), DownloadAction::Release));
    run.on_released();
    assert!(matches!(run.action(), DownloadAction::Done));
    assert!(!run.held);
    let temp = only_transfer_temp(&local);
    let message = run.outcome().unwrap_err().full_message();
    assert_eq!(message, format!("renaming {temp} -> {TARGET}: denied"));
}

#[test]
fn a_download_to_the_root_has_no_parent() {
    let mut run = LocalDownload::download_one(
        "page.txt",
        "/",
        "/remote/page.txt",
        &b"remote".to_vec(),
        "hash",
        ExecutionMode::Apply,
    );
    run.on_time(Ok(REMOTE_MTIME));
    run.on_missing(Vec::new());
    run.on_parent(Err(failure("not asked for")));
    assert_eq!(run.outcome().unwrap_err().message, "local target / has no parent");
}

#[test]
fn a_download_needs_a_file_name() {
    let mut run = LocalDownload::download_one(
        "page.txt",
        "/project/..",
        "/remote/page.txt",
        &b"remote".to_vec(),
        "hash",
        ExecutionMode::Apply,
    );
    run.on_time(Ok(REMOTE_MTIME));
    run.on_missing(Vec::new());
    run.on_parent(Local::new().anchor(ROOT));
    assert_eq!(run.outcome().unwrap_err().message, "local target /project/.. has no file name");
}
