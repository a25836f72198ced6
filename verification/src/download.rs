//! Downloads: what a local destination must stay, how bytes are staged beside
//! it, and when the staged bytes may take its place.

use crate::error::Error;
use crate::error;
use crate::file_transfer::{AnchorFacts, ExpectationView, LocalPathExpectation, PathProbe};
use crate::file_transfer;
use crate::ftp::Timestamp;
use crate::hash;
use crate::local_paths;
use crate::scope::{CommitDecision, ExecutionMode};
use crate::state::StateFile;
use crate::state;
use crate::text;
use crate::transfer_temp;
use crate::upload::ClaimReply;
use crate::upload;
use vstd::prelude::*;

verus! {

broadcast use vstd::seq::group_seq_axioms;

/// A local path that is to be written, as it was when it was captured.
#[derive(Debug)]
pub struct ExpectedLocalDestination {
    pub snapshot: LocalPathExpectation,
}

/// Whether a destination is still what it was and a file may take its place:
/// `parent` is what the file system now says of the directory that `path`
/// names, and `probe` what it says of the captured path.
pub open spec fn destination_holds(
    expected: ExpectationView,
    path: Seq<char>,
    parent: Result<AnchorFacts, Error>,
    probe: PathProbe,
) -> Result<(), error::ErrorView> {
    let message = "local destination changed for "@ + path;
    match file_transfer::supplied(expected, path, parent) {
        Err(cause) => Err(error::failure_from(message, error::full_message(cause))),
        Ok(_) => match file_transfer::unchanged(expected, probe) {
            Err(cause) => Err(error::failure_from(message, error::full_message(cause))),
            Ok(_) => if !expected.file_or_missing() {
                Err(error::failure(message + ": not a file"@))
            } else {
                Ok(())
            },
        },
    }
}

impl ExpectedLocalDestination {
    /// Captures the destination at `path` below `local_root`.
    pub fn capture(local_root: &str, path: &str, probe: PathProbe) -> (out: Result<
        ExpectedLocalDestination,
        Error,
    >)
        ensures
            match (out, file_transfer::captured(local_root@, path@, probe)) {
                (Ok(destination), Ok(want)) => destination.snapshot@ == want,
                (Err(e), Err(want)) => e@ == want,
                _ => false,
            },
    {
        match LocalPathExpectation::capture(local_root, path, probe) {
            Err(e) => Err(e),
            Ok(snapshot) => Ok(ExpectedLocalDestination { snapshot }),
        }
    }

    /// Checks that the destination is still what it was and may be written.
    pub fn verify_unchanged(
        &self,
        path: &str,
        parent: Result<AnchorFacts, Error>,
        probe: PathProbe,
    ) -> (out: Result<(), Error>)
        ensures
            error::settles(out, destination_holds(self.snapshot@, path@, parent, probe)),
    {
        let message = text::cat("local destination changed for ", path);
        match self.snapshot.verify_supplied_path(path, parent) {
            Err(cause) => {
                return Err(Error::failure_from(message, &cause.full_message()));
            },
            Ok(_) => {},
        }
        match self.snapshot.verify_unchanged(probe) {
            Err(cause) => Err(Error::failure_from(message, &cause.full_message())),
            Ok(_) => if !self.snapshot.is_file_or_missing() {
                Err(Error::failure(text::cat(&message, ": not a file")))
            } else {
                Ok(())
            },
        }
    }
}

/// How many names a staged download tries before it gives up.
pub const MAX_TEMP_CANDIDATES: usize = 32;

/// How far a download has come. Each phase but the last waits for one reply.
#[derive(Debug, Clone, Copy, PartialEq, Eq, Structural)]
pub enum DownloadPhase {
    /// Look at the destination.
    CheckDestination,
    /// Ask whether the selection is still current.
    PollGate,
    /// Look at the root and the directory of the destination.
    CheckAnchor,
    /// Ask for the time of the remote file.
    Time,
    /// Ask which directories above the destination are missing.
    FindMissing,
    /// Create the next missing directory.
    MakeParent,
    /// Look at the directory that the file is staged in.
    LookAtParent,
    /// Draw a nonce.
    Draw,
    /// Open a new temporary file.
    Open,
    /// Ask for the identity of the temporary file.
    Identify,
    /// Look at the root and the directory of the destination again.
    Recheck,
    /// Write the temporary file.
    Write,
    /// Look at the temporary file.
    VerifyStaged,
    /// Ask for the claim inside which the change is made.
    Claim,
    /// Inside the claim, look at the destination again.
    ClaimDestination,
    /// Look at the temporary file immediately before it is renamed.
    VerifyCommit,
    /// Rename the temporary file to the destination.
    Rename,
    /// Give the claim back, with nothing left to do.
    Release,
    /// Give the claim back before the temporary file is removed.
    Abandon,
    /// Look at the temporary file before it is removed.
    CleanupLook,
    /// Remove the temporary file.
    CleanupRemove,
    /// Remove the directory that was created last.
    RemoveParent,
    Done,
}

/// What the file system says of a temporary file once it was written.
#[derive(Debug, Clone, Copy)]
pub struct WriteFacts {
    pub is_file: bool,
    pub size: u64,
    pub modified: Timestamp,
}

/// What the file system says of a temporary file, symlinks not followed.
#[derive(Debug)]
pub struct TempFacts {
    pub is_file: bool,
    pub identity: u64,
    pub size: u64,
    pub modified: Timestamp,
    pub sha256: String,
}

/// What came of creating a directory.
#[derive(Debug)]
pub enum MakeReply {
    Created,
    /// It was a directory already.
    Existed,
    Failed(Error),
}

/// What came of opening a new temporary file.
#[derive(Debug)]
pub enum OpenReply {
    Opened,
    /// Something has that name already.
    Exists,
    Failed(Error),
}

/// A download that stages its bytes beside the destination. A guarded one has a
/// destination that it expects and changes it only inside a claim.
#[derive(Debug)]
pub struct LocalDownload {
    pub rel: String,
    pub local_path: String,
    pub remote_path: String,
    pub size: u64,
    pub sha256: String,
    pub recorded: String,
    pub remote_mtime: Timestamp,
    pub destination: Option<ExpectedLocalDestination>,
    pub phase: DownloadPhase,
    pub attempts: usize,
    pub missing: Vec<String>,
    pub made: usize,
    pub created: Vec<String>,
    pub parent: String,
    pub parent_identity: u64,
    pub target: String,
    pub temp: String,
    pub temp_identity: u64,
    pub temp_modified: Timestamp,
    pub held: bool,
    pub renamed: bool,
    pub decision: CommitDecision,
    pub failure: Option<Error>,
}

/// What a download says. `sha256` is the hash of the payload and `recorded` the
/// one that is remembered of it; `held` tells whether a claim is held.
pub struct DownloadView {
    pub rel: Seq<char>,
    pub local_path: Seq<char>,
    pub remote_path: Seq<char>,
    pub size: u64,
    pub sha256: Seq<char>,
    pub recorded: Seq<char>,
    pub remote_mtime: Timestamp,
    pub destination: Option<ExpectationView>,
    pub phase: DownloadPhase,
    pub attempts: nat,
    pub missing: Seq<Seq<char>>,
    pub made: nat,
    pub created: Seq<Seq<char>>,
    pub parent: Seq<char>,
    pub parent_identity: u64,
    pub target: Seq<char>,
    pub temp: Seq<char>,
    pub temp_identity: u64,
    pub temp_modified: Timestamp,
    pub held: bool,
    pub renamed: bool,
    pub decision: CommitDecision,
    pub failure: Option<error::ErrorView>,
}

impl View for LocalDownload {
    type V = DownloadView;

    open spec fn view(&self) -> DownloadView {
        DownloadView {
            rel: self.rel@,
            local_path: self.local_path@,
            remote_path: self.remote_path@,
            size: self.size,
            sha256: self.sha256@,
            recorded: self.recorded@,
            remote_mtime: self.remote_mtime,
            destination: match self.destination {
                Some(destination) => Some(destination.snapshot@),
                None => None,
            },
            phase: self.phase,
            attempts: self.attempts as nat,
            missing: text::views(self.missing@),
            made: self.made as nat,
            created: text::views(self.created@),
            parent: self.parent@,
            parent_identity: self.parent_identity,
            target: self.target@,
            temp: self.temp@,
            temp_identity: self.temp_identity,
            temp_modified: self.temp_modified,
            held: self.held,
            renamed: self.renamed,
            decision: self.decision,
            failure: match self.failure {
                Some(e) => Some(e@),
                None => None,
            },
        }
    }
}

impl DownloadView {
    /// The path that the file is staged beside: where a captured destination
    /// really is, or the path that was asked for.
    pub open spec fn base(self) -> Seq<char> {
        match self.destination {
            Some(expected) => expected.resolved(),
            None => self.local_path,
        }
    }

    /// The download in another phase.
    pub open spec fn at(self, phase: DownloadPhase) -> DownloadView {
        DownloadView { phase, ..self }
    }

    /// The download in another phase, with a failure.
    pub open spec fn failed(self, phase: DownloadPhase, failure: error::ErrorView) -> DownloadView {
        DownloadView { phase, failure: Some(failure), ..self }
    }

    /// The phase in which the directories that were created are removed, or in
    /// which the claim is given back where there are none.
    pub open spec fn unmake(self) -> DownloadPhase {
        if self.created.len() > 0 {
            DownloadPhase::RemoveParent
        } else if self.held {
            DownloadPhase::Release
        } else {
            DownloadPhase::Done
        }
    }

    /// The download with some of its missing directories passed.
    pub open spec fn with_made(self, made: nat) -> DownloadView {
        DownloadView {
            made,
            phase: if made < self.missing.len() {
                DownloadPhase::MakeParent
            } else {
                DownloadPhase::LookAtParent
            },
            ..self
        }
    }
}

/// Whether a staged file is still what was staged.
pub open spec fn staged_holds(
    u: DownloadView,
    parent: Result<AnchorFacts, Error>,
    temp: Result<TempFacts, Error>,
) -> Result<(), error::ErrorView> {
    match parent {
        Err(e) => Err(e@),
        Ok(parent) => if parent.canonical@ != u.parent || parent.identity != u.parent_identity {
            Err(error::failure("local temp parent changed before commit"@))
        } else {
            match temp {
                Err(e) => Err(e@),
                Ok(temp) => if !temp.is_file || temp.identity != u.temp_identity || temp.size
                    != u.size || temp.modified != u.temp_modified || temp.sha256@ != u.sha256 {
                    Err(error::failure("local temp changed before commit at "@ + u.temp))
                } else {
                    Ok(())
                },
            }
        },
    }
}

/// Whether a staged file is still the one that was opened, in the directory it
/// was opened in.
pub open spec fn staged_is_ours(
    u: DownloadView,
    parent: Option<AnchorFacts>,
    temp: Option<(bool, u64)>,
) -> bool {
    match (parent, temp) {
        (Some(parent), Some((is_file, identity))) => parent.canonical@ == u.parent
            && parent.identity == u.parent_identity && is_file && identity == u.temp_identity,
        _ => false,
    }
}

/// A reply to a download.
pub enum DownloadReply {
    Destination(Result<AnchorFacts, Error>, PathProbe),
    Gate(bool),
    Anchor(Result<AnchorFacts, Error>, Result<AnchorFacts, Error>),
    Time(Result<Timestamp, error::ErrorView>),
    Missing(Seq<Seq<char>>),
    Made(MakeReply),
    Parent(Result<AnchorFacts, Error>),
    Nonce(Seq<char>),
    Opened(OpenReply),
    Identity(Result<u64, error::ErrorView>),
    Written(Result<WriteFacts, error::ErrorView>),
    Staged(Result<AnchorFacts, Error>, Result<TempFacts, Error>),
    Claimed(Result<CommitDecision, error::ErrorView>),
    Renamed(Result<(), error::ErrorView>),
    Released,
    Owner(Option<AnchorFacts>, Option<(bool, u64)>),
    Removed,
}

/// Where a reply leads a download. A reply that the phase does not wait for
/// changes nothing.
pub open spec fn download_step(u: DownloadView, reply: DownloadReply) -> DownloadView {
    match (u.phase, reply) {
        (DownloadPhase::CheckDestination, DownloadReply::Destination(parent, probe)) =>
            match u.destination {
            None => u,
            Some(expected) => match destination_holds(expected, u.local_path, parent, probe) {
                Err(e) => u.failed(DownloadPhase::Done, e),
                Ok(_) => u.at(DownloadPhase::PollGate),
            },
        },
        (DownloadPhase::PollGate, DownloadReply::Gate(current)) => if current {
            u.at(DownloadPhase::CheckAnchor)
        } else {
            DownloadView { phase: DownloadPhase::Done, decision: CommitDecision::Cancelled, ..u }
        },
        (DownloadPhase::CheckAnchor, DownloadReply::Anchor(root, parent)) => match u.destination {
            None => u,
            Some(expected) => match file_transfer::anchored(expected, root, parent) {
                Err(e) => u.failed(DownloadPhase::Done, e),
                Ok(_) => u.at(DownloadPhase::LookAtParent),
            },
        },
        (DownloadPhase::Time, DownloadReply::Time(time)) => match time {
            Err(cause) => u.failed(
                DownloadPhase::Done,
                error::failure_from(
                    "fetching mtime for "@ + u.remote_path,
                    error::full_message(cause),
                ),
            ),
            Ok(remote_mtime) => DownloadView {
                phase: DownloadPhase::FindMissing,
                remote_mtime,
                ..u
            },
        },
        (DownloadPhase::FindMissing, DownloadReply::Missing(missing)) => (DownloadView {
            missing,
            ..u
        }).with_made(0),
        (DownloadPhase::MakeParent, DownloadReply::Made(made)) => match made {
            MakeReply::Created => (DownloadView {
                created: u.created.push(u.missing[u.made as int]),
                ..u
            }).with_made(u.made + 1),
            MakeReply::Existed => u.with_made(u.made + 1),
            MakeReply::Failed(cause) => u.failed(
                u.unmake(),
                error::failure_from(
                    "creating parent dir "@ + u.missing[u.made as int],
                    error::full_message(cause@),
                ),
            ),
        },
        (DownloadPhase::LookAtParent, DownloadReply::Parent(parent)) => match parent {
            _ if local_paths::parent(u.base()) is None => u.failed(
                u.unmake(),
                error::failure("local target "@ + u.base() + " has no parent"@),
            ),
            Err(e) => u.failed(u.unmake(), e@),
            Ok(parent) => match local_paths::file_name(u.base()) {
                None => u.failed(
                    u.unmake(),
                    error::failure("local target "@ + u.base() + " has no file name"@),
                ),
                Some(leaf) => DownloadView {
                    phase: DownloadPhase::Draw,
                    parent: parent.canonical@,
                    parent_identity: parent.identity,
                    target: local_paths::joined(parent.canonical@, leaf),
                    ..u
                },
            },
        },
        (DownloadPhase::Draw, DownloadReply::Nonce(nonce)) => match transfer_temp::local_candidate_of(
            u.base(),
            nonce,
        ) {
            Err(e) => u.failed(u.unmake(), e),
            Ok(temp) => DownloadView { phase: DownloadPhase::Open, temp, ..u },
        },
        (DownloadPhase::Open, DownloadReply::Opened(opened)) => match opened {
            OpenReply::Opened => u.at(DownloadPhase::Identify),
            OpenReply::Exists => if u.attempts + 1 < MAX_TEMP_CANDIDATES {
                DownloadView { phase: DownloadPhase::Draw, attempts: u.attempts + 1, ..u }
            } else {
                u.failed(
                    u.unmake(),
                    error::failure("unable to reserve a unique local transfer temp"@),
                )
            },
            OpenReply::Failed(cause) => u.failed(
                u.unmake(),
                error::failure_from("creating temp file "@ + u.temp, error::full_message(cause@)),
            ),
        },
        (DownloadPhase::Identify, DownloadReply::Identity(identity)) => match identity {
            Err(cause) => u.failed(
                u.unmake(),
                error::failure_from(
                    "capturing temp identity "@ + u.temp,
                    error::full_message(cause),
                ),
            ),
            Ok(temp_identity) => DownloadView {
                phase: if u.destination is Some {
                    DownloadPhase::Recheck
                } else {
                    DownloadPhase::Write
                },
                temp_identity,
                ..u
            },
        },
        (DownloadPhase::Recheck, DownloadReply::Anchor(root, parent)) => match u.destination {
            None => u,
            Some(expected) => match file_transfer::anchored(expected, root, parent) {
                Err(cause) => u.failed(
                    DownloadPhase::CleanupLook,
                    error::failure_from(
                        "local target parent changed after staging"@,
                        error::full_message(cause),
                    ),
                ),
                Ok(_) => u.at(DownloadPhase::Write),
            },
        },
        (DownloadPhase::Write, DownloadReply::Written(written)) => match written {
            Err(e) => u.failed(DownloadPhase::CleanupLook, e),
            Ok(facts) => if !facts.is_file || facts.size != u.size {
                u.failed(
                    DownloadPhase::CleanupLook,
                    error::failure("local temp changed while staging "@ + u.temp),
                )
            } else {
                DownloadView {
                    phase: DownloadPhase::VerifyStaged,
                    temp_modified: facts.modified,
                    ..u
                }
            },
        },
        (DownloadPhase::VerifyStaged, DownloadReply::Staged(parent, temp)) => match staged_holds(
            u,
            parent,
            temp,
        ) {
            Err(e) => u.failed(DownloadPhase::CleanupLook, e),
            Ok(_) => u.at(
                if u.destination is Some {
                    DownloadPhase::Claim
                } else {
                    DownloadPhase::VerifyCommit
                },
            ),
        },
        (DownloadPhase::Claim, DownloadReply::Claimed(claimed)) => match claimed {
            Err(e) => u.failed(DownloadPhase::CleanupLook, e),
            Ok(CommitDecision::Committed) => DownloadView {
                phase: DownloadPhase::ClaimDestination,
                held: true,
                ..u
            },
            Ok(CommitDecision::Cancelled) => DownloadView {
                phase: DownloadPhase::CleanupLook,
                decision: CommitDecision::Cancelled,
                ..u
            },
        },
        (DownloadPhase::ClaimDestination, DownloadReply::Destination(parent, probe)) =>
            match u.destination {
            None => u,
            Some(expected) => match destination_holds(expected, u.local_path, parent, probe) {
                Err(e) => u.failed(DownloadPhase::Abandon, e),
                Ok(_) => u.at(DownloadPhase::VerifyCommit),
            },
        },
        (DownloadPhase::VerifyCommit, DownloadReply::Staged(parent, temp)) => match staged_holds(
            u,
            parent,
            temp,
        ) {
            Err(e) => u.failed(DownloadPhase::CleanupLook, e),
            Ok(_) => u.at(DownloadPhase::Rename),
        },
        (DownloadPhase::Rename, DownloadReply::Renamed(renamed)) => match renamed {
            Err(cause) => u.failed(
                DownloadPhase::CleanupLook,
                error::failure_from(
                    "renaming "@ + u.temp + " -> "@ + u.target,
                    error::full_message(cause),
                ),
            ),
            Ok(_) => DownloadView {
                phase: if u.held {
                    DownloadPhase::Release
                } else {
                    DownloadPhase::Done
                },
                renamed: true,
                ..u
            },
        },
        (DownloadPhase::Release, DownloadReply::Released) => DownloadView {
            phase: DownloadPhase::Done,
            held: false,
            ..u
        },
        (DownloadPhase::Abandon, DownloadReply::Released) => DownloadView {
            phase: DownloadPhase::CleanupLook,
            held: false,
            ..u
        },
        (DownloadPhase::CleanupLook, DownloadReply::Owner(parent, temp)) => u.at(
            if staged_is_ours(u, parent, temp) {
                DownloadPhase::CleanupRemove
            } else {
                u.unmake()
            },
        ),
        (DownloadPhase::CleanupRemove, DownloadReply::Removed) => u.at(u.unmake()),
        (DownloadPhase::RemoveParent, DownloadReply::Removed) => {
            let fewer = DownloadView { created: u.created.drop_last(), ..u };
            fewer.at(fewer.unmake())
        },
        _ => u,
    }
}

/// Where a guarded download starts. A run that changes nothing is done at once,
/// and so is one whose payload is missing or not what was planned.
pub open spec fn guarded_start(
    rel: Seq<char>,
    local_path: Seq<char>,
    payload: Option<Seq<u8>>,
    size: u64,
    sha256: Seq<char>,
    remote_mtime: Timestamp,
    expected: ExpectationView,
    mode: ExecutionMode,
) -> DownloadView {
    let start = blank_download(
        rel,
        local_path,
        Seq::empty(),
        size,
        sha256,
        sha256,
        remote_mtime,
        Some(expected),
    );
    if mode == ExecutionMode::DryRun {
        start
    } else {
        match payload {
            None => start.failed(
                DownloadPhase::Done,
                error::failure("remote payload missing for guarded download "@ + rel),
            ),
            Some(bytes) => if bytes.len() != size || hash::sha256_hex(bytes) != sha256 {
                start.failed(
                    DownloadPhase::Done,
                    error::failure("remote payload changed before guarded download "@ + rel),
                )
            } else {
                start.at(DownloadPhase::CheckDestination)
            },
        }
    }
}

/// Where a plain download starts. A run that changes nothing is done at once.
pub open spec fn plain_start(
    rel: Seq<char>,
    local_path: Seq<char>,
    remote_path: Seq<char>,
    bytes: Seq<u8>,
    recorded: Seq<char>,
    mode: ExecutionMode,
) -> DownloadView {
    let start = blank_download(
        rel,
        local_path,
        remote_path,
        bytes.len() as u64,
        hash::sha256_hex(bytes),
        recorded,
        Timestamp { secs: 0, nanos: 0 },
        None,
    );
    if mode == ExecutionMode::DryRun {
        start
    } else {
        start.at(DownloadPhase::Time)
    }
}

/// A download that has done nothing and asks for nothing.
pub open spec fn blank_download(
    rel: Seq<char>,
    local_path: Seq<char>,
    remote_path: Seq<char>,
    size: u64,
    sha256: Seq<char>,
    recorded: Seq<char>,
    remote_mtime: Timestamp,
    destination: Option<ExpectationView>,
) -> DownloadView {
    DownloadView {
        rel,
        local_path,
        remote_path,
        size,
        sha256,
        recorded,
        remote_mtime,
        destination,
        phase: DownloadPhase::Done,
        attempts: 0,
        missing: Seq::empty(),
        made: 0,
        created: Seq::empty(),
        parent: Seq::empty(),
        parent_identity: 0,
        target: Seq::empty(),
        temp: Seq::empty(),
        temp_identity: 0,
        temp_modified: Timestamp { secs: 0, nanos: 0 },
        held: false,
        renamed: false,
        decision: CommitDecision::Committed,
        failure: None,
    }
}

/// What a download asks for.
#[derive(Debug)]
pub enum DownloadAction {
    /// Look at the directory that the local path names, and probe the captured
    /// destination.
    ProbeDestination,
    /// Ask whether the selection is still current.
    PollGate,
    /// Look at the root and the directory of the captured destination.
    ProbeAnchor,
    /// Ask for the time of the remote file.
    Time(String),
    /// Find the missing directories above a path, the topmost one first.
    FindMissing(String),
    /// Create a directory.
    MakeDirectory(String),
    /// Look at the directory of a path.
    LookAtParent(String),
    /// Draw a nonce.
    DrawNonce,
    /// Open a new file, which must not be there.
    Open(String),
    /// Ask for the identity of the open file.
    Identify,
    /// Write the payload to the open file and look at it.
    Write,
    /// Look at the directory and the temporary file in it.
    ProbeStaged(String, String),
    /// Ask for the claim.
    Claim,
    /// Rename the first path to the second.
    Rename(String, String),
    /// Give the claim back.
    Release,
    /// Look whose file the temporary file in the directory is.
    ProbeOwner(String, String),
    /// Remove a file, whether or not that succeeds.
    RemoveFile(String),
    /// Remove a directory, whether or not that succeeds.
    RemoveDirectory(String),
    Done,
}

/// What a download asks for.
pub enum DownloadActionView {
    ProbeDestination,
    PollGate,
    ProbeAnchor,
    Time(Seq<char>),
    FindMissing(Seq<char>),
    MakeDirectory(Seq<char>),
    LookAtParent(Seq<char>),
    DrawNonce,
    Open(Seq<char>),
    Identify,
    Write,
    ProbeStaged(Seq<char>, Seq<char>),
    Claim,
    Rename(Seq<char>, Seq<char>),
    Release,
    ProbeOwner(Seq<char>, Seq<char>),
    RemoveFile(Seq<char>),
    RemoveDirectory(Seq<char>),
    Done,
}

impl View for DownloadAction {
    type V = DownloadActionView;

    open spec fn view(&self) -> DownloadActionView {
        match self {
            DownloadAction::ProbeDestination => DownloadActionView::ProbeDestination,
            DownloadAction::PollGate => DownloadActionView::PollGate,
            DownloadAction::ProbeAnchor => DownloadActionView::ProbeAnchor,
            DownloadAction::Time(path) => DownloadActionView::Time(path@),
            DownloadAction::FindMissing(path) => DownloadActionView::FindMissing(path@),
            DownloadAction::MakeDirectory(path) => DownloadActionView::MakeDirectory(path@),
            DownloadAction::LookAtParent(path) => DownloadActionView::LookAtParent(path@),
            DownloadAction::DrawNonce => DownloadActionView::DrawNonce,
            DownloadAction::Open(path) => DownloadActionView::Open(path@),
            DownloadAction::Identify => DownloadActionView::Identify,
            DownloadAction::Write => DownloadActionView::Write,
            DownloadAction::ProbeStaged(parent, temp) => DownloadActionView::ProbeStaged(
                parent@,
                temp@,
            ),
            DownloadAction::Claim => DownloadActionView::Claim,
            DownloadAction::Rename(from, to) => DownloadActionView::Rename(from@, to@),
            DownloadAction::Release => DownloadActionView::Release,
            DownloadAction::ProbeOwner(parent, temp) => DownloadActionView::ProbeOwner(
                parent@,
                temp@,
            ),
            DownloadAction::RemoveFile(path) => DownloadActionView::RemoveFile(path@),
            DownloadAction::RemoveDirectory(path) => DownloadActionView::RemoveDirectory(path@),
            DownloadAction::Done => DownloadActionView::Done,
        }
    }
}

/// What a download asks for in its phase.
pub open spec fn download_action(u: DownloadView) -> DownloadActionView {
    match u.phase {
        DownloadPhase::CheckDestination => DownloadActionView::ProbeDestination,
        DownloadPhase::PollGate => DownloadActionView::PollGate,
        DownloadPhase::CheckAnchor => DownloadActionView::ProbeAnchor,
        DownloadPhase::Time => DownloadActionView::Time(u.remote_path),
        DownloadPhase::FindMissing => DownloadActionView::FindMissing(u.local_path),
        DownloadPhase::MakeParent => DownloadActionView::MakeDirectory(u.missing[u.made as int]),
        DownloadPhase::LookAtParent => DownloadActionView::LookAtParent(u.base()),
        DownloadPhase::Draw => DownloadActionView::DrawNonce,
        DownloadPhase::Open => DownloadActionView::Open(u.temp),
        DownloadPhase::Identify => DownloadActionView::Identify,
        DownloadPhase::Recheck => DownloadActionView::ProbeAnchor,
        DownloadPhase::Write => DownloadActionView::Write,
        DownloadPhase::VerifyStaged => DownloadActionView::ProbeStaged(u.parent, u.temp),
        DownloadPhase::Claim => DownloadActionView::Claim,
        DownloadPhase::ClaimDestination => DownloadActionView::ProbeDestination,
        DownloadPhase::VerifyCommit => DownloadActionView::ProbeStaged(u.parent, u.temp),
        DownloadPhase::Rename => DownloadActionView::Rename(u.temp, u.target),
        DownloadPhase::Release => DownloadActionView::Release,
        DownloadPhase::Abandon => DownloadActionView::Release,
        DownloadPhase::CleanupLook => DownloadActionView::ProbeOwner(u.parent, u.temp),
        DownloadPhase::CleanupRemove => DownloadActionView::RemoveFile(u.temp),
        DownloadPhase::RemoveParent => DownloadActionView::RemoveDirectory(u.created.last()),
        DownloadPhase::Done => DownloadActionView::Done,
    }
}

impl LocalDownload {
    /// What a phase works on is there.
    pub open spec fn wf(&self) -> bool {
        &&& self.phase == DownloadPhase::MakeParent ==> self.made < self.missing@.len()
        &&& self.phase == DownloadPhase::RemoveParent ==> self.created@.len() > 0
    }

    /// A download that asks for nothing.
    fn blank(
        rel: &str,
        local_path: &str,
        remote_path: &str,
        size: u64,
        sha256: &str,
        recorded: &str,
        remote_mtime: Timestamp,
        destination: Option<ExpectedLocalDestination>,
    ) -> (out: LocalDownload)
        ensures
            out.wf(),
            out@ == blank_download(
                rel@,
                local_path@,
                remote_path@,
                size,
                sha256@,
                recorded@,
                remote_mtime,
                match destination {
                    Some(expected) => Some(expected.snapshot@),
                    None => None,
                },
            ),
    {
        let parent = String::new();
        let target = String::new();
        let temp = String::new();
        let missing: Vec<String> = Vec::new();
        let created: Vec<String> = Vec::new();
        assert(parent@ =~= Seq::<char>::empty());
        assert(target@ =~= Seq::<char>::empty());
        assert(temp@ =~= Seq::<char>::empty());
        assert(text::views(missing@) =~= Seq::<Seq<char>>::empty());
        assert(text::views(created@) =~= Seq::<Seq<char>>::empty());
        LocalDownload {
            rel: rel.to_owned(),
            local_path: local_path.to_owned(),
            remote_path: remote_path.to_owned(),
            size,
            sha256: sha256.to_owned(),
            recorded: recorded.to_owned(),
            remote_mtime,
            destination,
            phase: DownloadPhase::Done,
            attempts: 0,
            missing,
            made: 0,
            created,
            parent,
            parent_identity: 0,
            target,
            temp,
            temp_identity: 0,
            temp_modified: Timestamp { secs: 0, nanos: 0 },
            held: false,
            renamed: false,
            decision: CommitDecision::Committed,
            failure: None,
        }
    }

    /// Starts a guarded download of what a remote file held.
    pub fn download_one_guarded(
        rel: &str,
        local_path: &str,
        payload: &Option<Vec<u8>>,
        size: u64,
        sha256: &str,
        remote_mtime: Timestamp,
        expected: ExpectedLocalDestination,
        mode: ExecutionMode,
    ) -> (out: LocalDownload)
        ensures
            out.wf(),
            out@ == guarded_start(
                rel@,
                local_path@,
                match *payload {
                    Some(bytes) => Some(bytes@),
                    None => None,
                },
                size,
                sha256@,
                remote_mtime,
                expected.snapshot@,
                mode,
            ),
    {
        let none = String::new();
        assert(none@ =~= Seq::<char>::empty());
        let mut out = LocalDownload::blank(
            rel,
            local_path,
            &none,
            size,
            sha256,
            sha256,
            remote_mtime,
            Some(expected),
        );
        if mode == ExecutionMode::DryRun {
            return out;
        }
        match payload {
            None => {
                out.fail(
                    DownloadPhase::Done,
                    Error::failure(text::cat("remote payload missing for guarded download ", rel)),
                );
            },
            Some(bytes) => {
                let content = hash::hash_bytes(bytes);
                if bytes.len() as u64 != size || !text::same(&content, sha256) {
                    out.fail(
                        DownloadPhase::Done,
                        Error::failure(
                            text::cat("remote payload changed before guarded download ", rel),
                        ),
                    );
                } else {
                    out.phase = DownloadPhase::CheckDestination;
                }
            },
        }
        out
    }

    /// Starts a plain download of `bytes`, to be remembered by `new_hash`.
    pub fn download_one(
        rel: &str,
        local_path: &str,
        remote_path: &str,
        bytes: &Vec<u8>,
        new_hash: &str,
        mode: ExecutionMode,
    ) -> (out: LocalDownload)
        ensures
            out.wf(),
            out@ == plain_start(rel@, local_path@, remote_path@, bytes@, new_hash@, mode),
    {
        let content = hash::hash_bytes(bytes);
        let mut out = LocalDownload::blank(
            rel,
            local_path,
            remote_path,
            bytes.len() as u64,
            &content,
            new_hash,
            Timestamp { secs: 0, nanos: 0 },
            None,
        );
        if mode != ExecutionMode::DryRun {
            out.phase = DownloadPhase::Time;
        }
        out
    }

    /// Enters a phase with a failure.
    fn fail(&mut self, phase: DownloadPhase, failure: Error)
        ensures
            final(self)@ == old(self)@.failed(phase, failure@),
            final(self).phase == phase,
            final(self).made == old(self).made,
            final(self).missing == old(self).missing,
            final(self).created == old(self).created,
    {
        self.phase = phase;
        self.failure = Some(failure);
    }

    /// The phase in which the directories that were created are removed.
    fn unmake(&self) -> (out: DownloadPhase)
        ensures
            out == self@.unmake(),
            out == DownloadPhase::RemoveParent ==> self.created@.len() > 0,
            out != DownloadPhase::MakeParent,
    {
        if self.created.len() > 0 {
            DownloadPhase::RemoveParent
        } else if self.held {
            DownloadPhase::Release
        } else {
            DownloadPhase::Done
        }
    }

    /// The path that the file is staged beside.
    fn base(&self) -> (out: String)
        ensures
            out@ == self@.base(),
    {
        match &self.destination {
            Some(expected) => expected.snapshot.resolved_path(),
            None => self.local_path.clone(),
        }
    }

    /// What the download asks for.
    pub fn action(&self) -> (out: DownloadAction)
        requires
            self.wf(),
        ensures
            out@ == download_action(self@),
    {
        match self.phase {
            DownloadPhase::CheckDestination => DownloadAction::ProbeDestination,
            DownloadPhase::PollGate => DownloadAction::PollGate,
            DownloadPhase::CheckAnchor => DownloadAction::ProbeAnchor,
            DownloadPhase::Time => DownloadAction::Time(self.remote_path.clone()),
            DownloadPhase::FindMissing => DownloadAction::FindMissing(self.local_path.clone()),
            DownloadPhase::MakeParent => DownloadAction::MakeDirectory(
                self.missing[self.made].clone(),
            ),
            DownloadPhase::LookAtParent => DownloadAction::LookAtParent(self.base()),
            DownloadPhase::Draw => DownloadAction::DrawNonce,
            DownloadPhase::Open => DownloadAction::Open(self.temp.clone()),
            DownloadPhase::Identify => DownloadAction::Identify,
            DownloadPhase::Recheck => DownloadAction::ProbeAnchor,
            DownloadPhase::Write => DownloadAction::Write,
            DownloadPhase::VerifyStaged => DownloadAction::ProbeStaged(
                self.parent.clone(),
                self.temp.clone(),
            ),
            DownloadPhase::Claim => DownloadAction::Claim,
            DownloadPhase::ClaimDestination => DownloadAction::ProbeDestination,
            DownloadPhase::VerifyCommit => DownloadAction::ProbeStaged(
                self.parent.clone(),
                self.temp.clone(),
            ),
            DownloadPhase::Rename => DownloadAction::Rename(
                self.temp.clone(),
                self.target.clone(),
            ),
            DownloadPhase::Release => DownloadAction::Release,
            DownloadPhase::Abandon => DownloadAction::Release,
            DownloadPhase::CleanupLook => DownloadAction::ProbeOwner(
                self.parent.clone(),
                self.temp.clone(),
            ),
            DownloadPhase::CleanupRemove => DownloadAction::RemoveFile(self.temp.clone()),
            DownloadPhase::RemoveParent => {
                let last: usize = self.created.len() - 1;
                assert(self@.created.last() == self.created@[last as int]@);
                DownloadAction::RemoveDirectory(self.created[last].clone())
            },
            DownloadPhase::Done => DownloadAction::Done,
        }
    }

    /// Takes what the file system says of the destination: of the directory that
    /// the local path names, and of the captured path.
    pub fn on_destination(&mut self, parent: Result<AnchorFacts, Error>, probe: PathProbe)
        requires
            old(self).wf(),
        ensures
            final(self).wf(),
            final(self)@ == download_step(old(self)@, DownloadReply::Destination(parent, probe)),
    {
        match self.phase {
            DownloadPhase::CheckDestination => match &self.destination {
                None => {},
                Some(expected) => match expected.verify_unchanged(
                    &self.local_path,
                    parent,
                    probe,
                ) {
                    Err(e) => self.fail(DownloadPhase::Done, e),
                    Ok(_) => {
                        self.phase = DownloadPhase::PollGate;
                    },
                },
            },
            DownloadPhase::ClaimDestination => match &self.destination {
                None => {},
                Some(expected) => match expected.verify_unchanged(
                    &self.local_path,
                    parent,
                    probe,
                ) {
                    Err(e) => self.fail(DownloadPhase::Abandon, e),
                    Ok(_) => {
                        self.phase = DownloadPhase::VerifyCommit;
                    },
                },
            },
            _ => {},
        }
    }

    /// Takes the answer whether the selection is still current.
    pub fn on_gate(&mut self, current: bool)
        requires
            old(self).wf(),
        ensures
            final(self).wf(),
            final(self)@ == download_step(old(self)@, DownloadReply::Gate(current)),
    {
        match self.phase {
            DownloadPhase::PollGate => {
                if current {
                    self.phase = DownloadPhase::CheckAnchor;
                } else {
                    self.decision = CommitDecision::Cancelled;
                    self.phase = DownloadPhase::Done;
                }
            },
            _ => {},
        }
    }

    /// Takes what the file system says of the root and the directory of the
    /// captured destination.
    pub fn on_anchor(
        &mut self,
        root: Result<AnchorFacts, Error>,
        parent: Result<AnchorFacts, Error>,
    )
        requires
            old(self).wf(),
        ensures
            final(self).wf(),
            final(self)@ == download_step(old(self)@, DownloadReply::Anchor(root, parent)),
    {
        match self.phase {
            DownloadPhase::CheckAnchor => match &self.destination {
                None => {},
                Some(expected) => match expected.snapshot.verify_anchor(root, parent) {
                    Err(e) => self.fail(DownloadPhase::Done, e),
                    Ok(_) => {
                        self.phase = DownloadPhase::LookAtParent;
                    },
                },
            },
            DownloadPhase::Recheck => match &self.destination {
                None => {},
                Some(expected) => match expected.snapshot.verify_anchor(root, parent) {
                    Err(cause) => {
                        let failure = Error::failure_from(
                            "local target parent changed after staging".to_owned(),
                            &cause.full_message(),
                        );
                        self.fail(DownloadPhase::CleanupLook, failure);
                    },
                    Ok(_) => {
                        self.phase = DownloadPhase::Write;
                    },
                },
            },
            _ => {},
        }
    }

    /// Takes the time of the remote file.
    pub fn on_time(&mut self, reply: Result<Timestamp, Error>)
        requires
            old(self).wf(),
        ensures
            final(self).wf(),
            final(self)@ == download_step(
                old(self)@,
                DownloadReply::Time(upload::reported(reply)),
            ),
    {
        match self.phase {
            DownloadPhase::Time => match reply {
                Err(cause) => {
                    let failure = Error::failure_from(
                        text::cat("fetching mtime for ", &self.remote_path),
                        &cause.full_message(),
                    );
                    self.fail(DownloadPhase::Done, failure);
                },
                Ok(remote_mtime) => {
                    self.remote_mtime = remote_mtime;
                    self.phase = DownloadPhase::FindMissing;
                },
            },
            _ => {},
        }
    }

    /// Passes to the next missing directory, or on where there is none.
    fn advance(&mut self, made: usize)
        requires
            made <= old(self).missing@.len(),
        ensures
            final(self).wf(),
            final(self)@ == old(self)@.with_made(made as nat),
    {
        self.made = made;
        self.phase = if made < self.missing.len() {
            DownloadPhase::MakeParent
        } else {
            DownloadPhase::LookAtParent
        };
    }

    /// Takes the missing directories above the destination, the topmost first.
    pub fn on_missing(&mut self, missing: Vec<String>)
        requires
            old(self).wf(),
        ensures
            final(self).wf(),
            final(self)@ == download_step(
                old(self)@,
                DownloadReply::Missing(text::views(missing@)),
            ),
    {
        match self.phase {
            DownloadPhase::FindMissing => {
                self.missing = missing;
                self.advance(0);
            },
            _ => {},
        }
    }

    /// Takes what came of creating a directory.
    pub fn on_made(&mut self, reply: MakeReply)
        requires
            old(self).wf(),
        ensures
            final(self).wf(),
            final(self)@ == download_step(old(self)@, DownloadReply::Made(reply)),
    {
        match self.phase {
            DownloadPhase::MakeParent => {
                let directory = self.missing[self.made].clone();
                let total: usize = self.missing.len();
                assert(self@.missing[self@.made as int] == directory@);
                match reply {
                    MakeReply::Created => {
                        let ghost before = text::views(self.created@);
                        let ghost name = directory@;
                        self.created.push(directory);
                        assert(text::views(self.created@) =~= before.push(name));
                        let next: usize = self.made + 1;
                        self.advance(next);
                    },
                    MakeReply::Existed => {
                        let next: usize = self.made + 1;
                        self.advance(next);
                    },
                    MakeReply::Failed(cause) => {
                        let phase = self.unmake();
                        let failure = Error::failure_from(
                            text::cat("creating parent dir ", &directory),
                            &cause.full_message(),
                        );
                        self.fail(phase, failure);
                    },
                }
            },
            _ => {},
        }
    }

    /// Takes what the file system says of the directory that the file is staged
    /// in.
    pub fn on_parent(&mut self, reply: Result<AnchorFacts, Error>)
        requires
            old(self).wf(),
        ensures
            final(self).wf(),
            final(self)@ == download_step(old(self)@, DownloadReply::Parent(reply)),
    {
        match self.phase {
            DownloadPhase::LookAtParent => {
                let phase = self.unmake();
                let base = self.base();
                match local_paths::parent_of(&base) {
                    Some(_) => {},
                    None => {
                        self.fail(
                            phase,
                            Error::failure(text::cat3("local target ", &base, " has no parent")),
                        );
                        return;
                    },
                }
                match reply {
                    Err(e) => self.fail(phase, e),
                    Ok(parent) => match local_paths::file_name_of(&base) {
                        None => {
                            self.fail(
                                phase,
                                Error::failure(
                                    text::cat3("local target ", &base, " has no file name"),
                                ),
                            );
                        },
                        Some(leaf) => {
                            self.target = local_paths::join(&parent.canonical, &leaf);
                            self.parent = parent.canonical;
                            self.parent_identity = parent.identity;
                            self.phase = DownloadPhase::Draw;
                        },
                    },
                }
            },
            _ => {},
        }
    }

    /// Takes a nonce for the name of the temporary file.
    pub fn on_nonce(&mut self, nonce: &str)
        requires
            old(self).wf(),
        ensures
            final(self).wf(),
            final(self)@ == download_step(old(self)@, DownloadReply::Nonce(nonce@)),
    {
        match self.phase {
            DownloadPhase::Draw => {
                let phase = self.unmake();
                let base = self.base();
                match transfer_temp::local_transfer_candidate(&base, nonce) {
                    Err(e) => self.fail(phase, e),
                    Ok(temp) => {
                        self.temp = temp;
                        self.phase = DownloadPhase::Open;
                    },
                }
            },
            _ => {},
        }
    }

    /// Takes what came of opening the temporary file.
    pub fn on_opened(&mut self, reply: OpenReply)
        requires
            old(self).wf(),
        ensures
            final(self).wf(),
            final(self)@ == download_step(old(self)@, DownloadReply::Opened(reply)),
    {
        match self.phase {
            DownloadPhase::Open => {
                let phase = self.unmake();
                match reply {
                    OpenReply::Opened => {
                        self.phase = DownloadPhase::Identify;
                    },
                    OpenReply::Exists => {
                        if self.attempts < MAX_TEMP_CANDIDATES - 1 {
                            self.attempts = self.attempts + 1;
                            self.phase = DownloadPhase::Draw;
                        } else {
                            self.fail(
                                phase,
                                Error::failure(
                                    "unable to reserve a unique local transfer temp".to_owned(),
                                ),
                            );
                        }
                    },
                    OpenReply::Failed(cause) => {
                        let failure = Error::failure_from(
                            text::cat("creating temp file ", &self.temp),
                            &cause.full_message(),
                        );
                        self.fail(phase, failure);
                    },
                }
            },
            _ => {},
        }
    }

    /// Takes the identity of the temporary file.
    pub fn on_identity(&mut self, reply: Result<u64, Error>)
        requires
            old(self).wf(),
        ensures
            final(self).wf(),
            final(self)@ == download_step(
                old(self)@,
                DownloadReply::Identity(upload::reported(reply)),
            ),
    {
        match self.phase {
            DownloadPhase::Identify => {
                let phase = self.unmake();
                match reply {
                    Err(cause) => {
                        let failure = Error::failure_from(
                            text::cat("capturing temp identity ", &self.temp),
                            &cause.full_message(),
                        );
                        self.fail(phase, failure);
                    },
                    Ok(identity) => {
                        self.temp_identity = identity;
                        self.phase = match self.destination {
                            Some(_) => DownloadPhase::Recheck,
                            None => DownloadPhase::Write,
                        };
                    },
                }
            },
            _ => {},
        }
    }

    /// Takes what the file system says of the temporary file once it was written.
    pub fn on_written(&mut self, reply: Result<WriteFacts, Error>)
        requires
            old(self).wf(),
        ensures
            final(self).wf(),
            final(self)@ == download_step(
                old(self)@,
                DownloadReply::Written(upload::reported(reply)),
            ),
    {
        match self.phase {
            DownloadPhase::Write => match reply {
                Err(e) => self.fail(DownloadPhase::CleanupLook, e),
                Ok(facts) => {
                    if !facts.is_file || facts.size != self.size {
                        let failure = Error::failure(
                            text::cat("local temp changed while staging ", &self.temp),
                        );
                        self.fail(DownloadPhase::CleanupLook, failure);
                    } else {
                        self.temp_modified = facts.modified;
                        self.phase = DownloadPhase::VerifyStaged;
                    }
                },
            },
            _ => {},
        }
    }

    /// Checks that the staged file is still what was staged.
    pub fn verify_for_commit(
        &self,
        parent: Result<AnchorFacts, Error>,
        temp: Result<TempFacts, Error>,
    ) -> (out: Result<(), Error>)
        ensures
            error::settles(out, staged_holds(self@, parent, temp)),
    {
        match parent {
            Err(e) => {
                return Err(e);
            },
            Ok(parent) => {
                if !text::same(&parent.canonical, &self.parent) || parent.identity
                    != self.parent_identity {
                    return Err(
                        Error::failure("local temp parent changed before commit".to_owned()),
                    );
                }
            },
        }
        match temp {
            Err(e) => Err(e),
            Ok(temp) => if !temp.is_file || temp.identity != self.temp_identity || temp.size
                != self.size || temp.modified != self.temp_modified || !text::same(
                &temp.sha256,
                &self.sha256,
            ) {
                Err(
                    Error::failure(text::cat("local temp changed before commit at ", &self.temp)),
                )
            } else {
                Ok(())
            },
        }
    }

    /// Takes what the file system says of the staged file and its directory.
    pub fn on_staged(
        &mut self,
        parent: Result<AnchorFacts, Error>,
        temp: Result<TempFacts, Error>,
    )
        requires
            old(self).wf(),
        ensures
            final(self).wf(),
            final(self)@ == download_step(old(self)@, DownloadReply::Staged(parent, temp)),
    {
        match self.phase {
            DownloadPhase::VerifyStaged => match self.verify_for_commit(parent, temp) {
                Err(e) => self.fail(DownloadPhase::CleanupLook, e),
                Ok(_) => {
                    self.phase = match self.destination {
                        Some(_) => DownloadPhase::Claim,
                        None => DownloadPhase::VerifyCommit,
                    };
                },
            },
            DownloadPhase::VerifyCommit => match self.verify_for_commit(parent, temp) {
                Err(e) => self.fail(DownloadPhase::CleanupLook, e),
                Ok(_) => {
                    self.phase = DownloadPhase::Rename;
                },
            },
            _ => {},
        }
    }

    /// Takes the answer to the claim.
    pub fn on_claim(&mut self, reply: ClaimReply)
        requires
            old(self).wf(),
        ensures
            final(self).wf(),
            final(self)@ == download_step(
                old(self)@,
                DownloadReply::Claimed(upload::claimed(reply)),
            ),
    {
        match self.phase {
            DownloadPhase::Claim => match reply {
                ClaimReply::Granted => {
                    self.held = true;
                    self.phase = DownloadPhase::ClaimDestination;
                },
                ClaimReply::Cancelled => {
                    self.decision = CommitDecision::Cancelled;
                    self.phase = DownloadPhase::CleanupLook;
                },
                ClaimReply::Failed(e) => self.fail(DownloadPhase::CleanupLook, e),
            },
            _ => {},
        }
    }

    /// Takes what came of the renaming. A renaming that succeeded is remembered.
    pub fn on_renamed(&mut self, reply: Result<(), Error>, state: &mut StateFile, now: Timestamp)
        requires
            old(self).wf(),
            old(state).wf(),
        ensures
            final(self).wf(),
            final(self)@ == download_step(
                old(self)@,
                DownloadReply::Renamed(upload::reported(reply)),
            ),
            final(state).wf(),
            if old(self).phase == DownloadPhase::Rename && reply is Ok {
                state::recorded(
                    old(state).files@,
                    final(state).files@,
                    old(self)@.rel,
                    old(self)@.recorded,
                    old(self)@.size,
                    old(self)@.remote_mtime,
                    now,
                )
            } else {
                *final(state) == *old(state)
            },
    {
        match self.phase {
            DownloadPhase::Rename => match reply {
                Err(cause) => {
                    let failure = Error::failure_from(
                        text::cat4("renaming ", &self.temp, " -> ", &self.target),
                        &cause.full_message(),
                    );
                    self.fail(DownloadPhase::CleanupLook, failure);
                },
                Ok(_) => {
                    state.record(&self.rel, &self.recorded, self.size, self.remote_mtime, now);
                    self.renamed = true;
                    self.phase = if self.held {
                        DownloadPhase::Release
                    } else {
                        DownloadPhase::Done
                    };
                },
            },
            _ => {},
        }
    }

    /// Takes that the claim was given back.
    pub fn on_released(&mut self)
        requires
            old(self).wf(),
        ensures
            final(self).wf(),
            final(self)@ == download_step(old(self)@, DownloadReply::Released),
    {
        match self.phase {
            DownloadPhase::Release => {
                self.held = false;
                self.phase = DownloadPhase::Done;
            },
            DownloadPhase::Abandon => {
                self.held = false;
                self.phase = DownloadPhase::CleanupLook;
            },
            _ => {},
        }
    }

    /// Takes what the file system says of the directory and of the temporary
    /// file in it, `None` where it says nothing.
    pub fn on_owner(&mut self, parent: Option<AnchorFacts>, temp: Option<(bool, u64)>)
        requires
            old(self).wf(),
        ensures
            final(self).wf(),
            final(self)@ == download_step(old(self)@, DownloadReply::Owner(parent, temp)),
    {
        match self.phase {
            DownloadPhase::CleanupLook => {
                let ours = match (&parent, temp) {
                    (Some(parent), Some((is_file, identity))) => text::same(
                        &parent.canonical,
                        &self.parent,
                    ) && parent.identity == self.parent_identity && is_file && identity
                        == self.temp_identity,
                    _ => false,
                };
                self.phase = if ours {
                    DownloadPhase::CleanupRemove
                } else {
                    self.unmake()
                };
            },
            _ => {},
        }
    }

    /// Takes that a removal was tried.
    pub fn on_removed(&mut self)
        requires
            old(self).wf(),
        ensures
            final(self).wf(),
            final(self)@ == download_step(old(self)@, DownloadReply::Removed),
    {
        match self.phase {
            DownloadPhase::CleanupRemove => {
                self.phase = self.unmake();
            },
            DownloadPhase::RemoveParent => {
                let ghost before = text::views(self.created@);
                let dropped = self.created.pop();
                assert(text::views(self.created@) =~= before.drop_last());
                self.phase = self.unmake();
            },
            _ => {},
        }
    }

    /// What the download ended in: its failure, or whether it was made.
    pub fn outcome(self) -> (out: Result<CommitDecision, Error>)
        ensures
            error::settles(
                out,
                match self@.failure {
                    Some(e) => Err(e),
                    None => Ok(self@.decision),
                },
            ),
    {
        match self.failure {
            Some(e) => Err(e),
            None => Ok(self.decision),
        }
    }
}

/// How many of some directories, from the nearest on, are missing before the
/// first one that is there.
pub open spec fn missing_count(present: Seq<bool>) -> nat
    decreases present.len(),
{
    if present.len() == 0 || present[0] {
        0
    } else {
        1 + missing_count(present.skip(1))
    }
}

/// The directories to create, the topmost first, from the directories above a
/// path, the nearest first, and whether each is there.
pub fn missing_parents(ancestors: &Vec<String>, present: &Vec<bool>) -> (out: Vec<String>)
    requires
        ancestors@.len() == present@.len(),
    ensures
        text::views(out@) == text::views(ancestors@).take(
            missing_count(present@) as int,
        ).reverse(),
        missing_count(present@) <= present@.len(),
{
    let mut count: usize = 0;
    assert(present@.skip(0) =~= present@);
    while count < present.len() && !present[count]
        invariant
            count <= present@.len(),
            missing_count(present@) == count + missing_count(present@.skip(count as int)),
        decreases present.len() - count,
    {
        assert(present@.skip(count as int).skip(1) =~= present@.skip(count + 1));
        count += 1;
    }
    let ghost wanted = text::views(ancestors@).take(count as int);
    let mut out: Vec<String> = Vec::new();
    let mut i: usize = count;
    assert(text::views(out@) =~= wanted.skip(count as int).reverse());
    while i > 0
        invariant
            i <= count <= ancestors@.len(),
            wanted == text::views(ancestors@).take(count as int),
            text::views(out@) == wanted.skip(i as int).reverse(),
        decreases i,
    {
        let ghost before = text::views(out@);
        i -= 1;
        out.push(ancestors[i].clone());
        assert(text::views(out@) =~= before.push(ancestors@[i as int]@));
        assert(wanted.skip(i as int).reverse() =~= before.push(wanted[i as int]));
    }
    assert(wanted.skip(0) =~= wanted);
    out
}

/// Whether a reply shows the destination of a download unchanged.
pub open spec fn confirms_destination(u: DownloadView, reply: DownloadReply) -> bool {
    match (u.destination, reply) {
        (Some(expected), DownloadReply::Destination(parent, probe)) => destination_holds(
            expected,
            u.local_path,
            parent,
            probe,
        ) is Ok,
        _ => false,
    }
}

/// Whether a reply shows the staged file of a download unchanged.
pub open spec fn confirms_staged(u: DownloadView, reply: DownloadReply) -> bool {
    match reply {
        DownloadReply::Staged(parent, temp) => staged_holds(u, parent, temp) is Ok,
        _ => false,
    }
}

/// Whether a reply proves the staged file to be the one that was opened.
pub open spec fn shows_ours(u: DownloadView, reply: DownloadReply) -> bool {
    match reply {
        DownloadReply::Owner(parent, temp) => staged_is_ours(u, parent, temp),
        _ => false,
    }
}

/// A download renames only once the staged file was seen unchanged, and a
/// guarded one only inside a granted claim, once the destination was seen
/// unchanged in it: each of these phases is entered from the one before it, by
/// the reply that confirms what that one asks.
#[verifier::spinoff_prover]
#[verifier::rlimit(40)]
pub proof fn download_advances_by_confirmation(u: DownloadView, reply: DownloadReply)
    ensures
        download_step(u, reply).phase == DownloadPhase::Rename && u.phase != DownloadPhase::Rename
            ==> u.phase == DownloadPhase::VerifyCommit && confirms_staged(u, reply),
        download_step(u, reply).phase == DownloadPhase::VerifyCommit && u.phase
            != DownloadPhase::VerifyCommit && u.destination is Some ==> u.phase
            == DownloadPhase::ClaimDestination && confirms_destination(u, reply),
        download_step(u, reply).phase == DownloadPhase::ClaimDestination && u.phase
            != DownloadPhase::ClaimDestination ==> u.phase == DownloadPhase::Claim && reply
            == DownloadReply::Claimed(Ok(CommitDecision::Committed)),
        download_step(u, reply).destination == u.destination,
{
    match reply {
        DownloadReply::Destination(_, _) => {},
        DownloadReply::Anchor(_, _) => {},
        DownloadReply::Made(_) => {},
        DownloadReply::Parent(_) => {},
        DownloadReply::Opened(_) => {},
        DownloadReply::Identity(_) => {},
        DownloadReply::Written(_) => {},
        DownloadReply::Staged(_, _) => {},
        DownloadReply::Claimed(_) => {},
        DownloadReply::Renamed(_) => {},
        _ => {},
    }
}

/// A download removes a file only once it was seen to be the one that it opened,
/// in the directory that it opened it in.
#[verifier::spinoff_prover]
#[verifier::rlimit(40)]
pub proof fn download_removes_only_its_own(u: DownloadView, reply: DownloadReply)
    ensures
        download_step(u, reply).phase == DownloadPhase::CleanupRemove && u.phase
            != DownloadPhase::CleanupRemove ==> u.phase == DownloadPhase::CleanupLook
            && shows_ours(u, reply),
{
    match reply {
        DownloadReply::Owner(_, _) => {},
        DownloadReply::Made(_) => {},
        DownloadReply::Parent(_) => {},
        DownloadReply::Opened(_) => {},
        DownloadReply::Staged(_, _) => {},
        DownloadReply::Renamed(_) => {},
        _ => {},
    }
}

/// A download removes only directories that it created.
#[verifier::spinoff_prover]
#[verifier::rlimit(40)]
pub proof fn download_removes_only_created_directories(u: DownloadView, reply: DownloadReply)
    ensures
        download_step(u, reply).created == u.created || download_step(u, reply).created
            == u.created.drop_last() || (reply == DownloadReply::Made(MakeReply::Created)
            && download_step(u, reply).created == u.created.push(u.missing[u.made as int])),
{
    match reply {
        DownloadReply::Made(made) => {
            match made {
                MakeReply::Created => {},
                MakeReply::Existed => {},
                MakeReply::Failed(_) => {},
            }
        },
        DownloadReply::Removed => {},
        DownloadReply::Parent(_) => {},
        DownloadReply::Opened(_) => {},
        _ => {},
    }
}

/// A run that changes nothing ends before it asks for anything.
pub proof fn dry_download_asks_for_nothing(
    rel: Seq<char>,
    local_path: Seq<char>,
    remote_path: Seq<char>,
    bytes: Seq<u8>,
    recorded: Seq<char>,
    payload: Option<Seq<u8>>,
    size: u64,
    sha256: Seq<char>,
    remote_mtime: Timestamp,
    expected: ExpectationView,
)
    ensures
        download_action(
            plain_start(rel, local_path, remote_path, bytes, recorded, ExecutionMode::DryRun),
        ) == DownloadActionView::Done,
        download_action(
            guarded_start(
                rel,
                local_path,
                payload,
                size,
                sha256,
                remote_mtime,
                expected,
                ExecutionMode::DryRun,
            ),
        ) == DownloadActionView::Done,
{
}

/// Where replies, one after another, lead a download.
pub open spec fn download_run(start: DownloadView, replies: Seq<DownloadReply>) -> DownloadView
    decreases replies.len(),
{
    if replies.len() == 0 {
        start
    } else {
        download_step(download_run(start, replies.drop_last()), replies.last())
    }
}

/// Whether a download is over, or on its way there.
pub open spec fn winding_down(phase: DownloadPhase) -> bool {
    phase == DownloadPhase::Release || phase == DownloadPhase::Abandon || phase
        == DownloadPhase::CleanupLook || phase
        == DownloadPhase::CleanupRemove || phase == DownloadPhase::RemoveParent || phase
        == DownloadPhase::Done
}

/// Whether a claim may be held in a phase.
pub open spec fn may_hold(phase: DownloadPhase) -> bool {
    phase == DownloadPhase::ClaimDestination || phase == DownloadPhase::VerifyCommit || phase
        == DownloadPhase::Rename || phase == DownloadPhase::Release || phase
        == DownloadPhase::Abandon || phase == DownloadPhase::CleanupLook || phase
        == DownloadPhase::CleanupRemove || phase == DownloadPhase::RemoveParent
}

/// Whether a download that renamed its file has nothing but success to report,
/// one that is still at work has neither failed nor been cancelled, and one that
/// is over holds no claim.
pub open spec fn outcome_is_consistent(u: DownloadView) -> bool {
    &&& u.held ==> may_hold(u.phase)
    &&& u.renamed ==> u.failure is None && u.decision == CommitDecision::Committed
    &&& u.renamed ==> u.phase == DownloadPhase::Release || u.phase == DownloadPhase::Done
    &&& !winding_down(u.phase) ==> u.failure is None && u.decision == CommitDecision::Committed
        && !u.renamed
}

#[verifier::spinoff_prover]
#[verifier::rlimit(40)]
proof fn step_is_consistent(u: DownloadView, reply: DownloadReply)
    requires
        outcome_is_consistent(u),
    ensures
        outcome_is_consistent(download_step(u, reply)),
{
    match reply {
        DownloadReply::Destination(_, _) => {},
        DownloadReply::Anchor(_, _) => {},
        DownloadReply::Made(_) => {},
        DownloadReply::Parent(_) => {},
        DownloadReply::Opened(_) => {},
        DownloadReply::Identity(_) => {},
        DownloadReply::Written(_) => {},
        DownloadReply::Staged(_, _) => {},
        DownloadReply::Claimed(_) => {},
        DownloadReply::Renamed(_) => {},
        _ => {},
    }
}

proof fn run_is_consistent(start: DownloadView, replies: Seq<DownloadReply>)
    requires
        outcome_is_consistent(start),
    ensures
        outcome_is_consistent(download_run(start, replies)),
    decreases replies.len(),
{
    if replies.len() > 0 {
        run_is_consistent(start, replies.drop_last());
        step_is_consistent(download_run(start, replies.drop_last()), replies.last());
    }
}

/// A guarded download that failed or was cancelled did not rename anything.
pub proof fn failed_download_renamed_nothing(
    rel: Seq<char>,
    local_path: Seq<char>,
    payload: Option<Seq<u8>>,
    size: u64,
    sha256: Seq<char>,
    remote_mtime: Timestamp,
    expected: ExpectationView,
    mode: ExecutionMode,
    replies: Seq<DownloadReply>,
)
    ensures
        ({
            let start = guarded_start(
                rel,
                local_path,
                payload,
                size,
                sha256,
                remote_mtime,
                expected,
                mode,
            );
            let u = download_run(start, replies);
            u.renamed ==> u.failure is None && u.decision == CommitDecision::Committed
        }),
{
    run_is_consistent(
        guarded_start(rel, local_path, payload, size, sha256, remote_mtime, expected, mode),
        replies,
    );
}

/// A plain download that failed did not rename anything.
pub proof fn failed_plain_download_renamed_nothing(
    rel: Seq<char>,
    local_path: Seq<char>,
    remote_path: Seq<char>,
    bytes: Seq<u8>,
    recorded: Seq<char>,
    mode: ExecutionMode,
    replies: Seq<DownloadReply>,
)
    ensures
        ({
            let start = plain_start(rel, local_path, remote_path, bytes, recorded, mode);
            let u = download_run(start, replies);
            u.renamed ==> u.failure is None && u.decision == CommitDecision::Committed
        }),
{
    run_is_consistent(
        plain_start(rel, local_path, remote_path, bytes, recorded, mode),
        replies,
    );
}

/// Whether the reply at a position is that of a rename that succeeded.
pub open spec fn rename_made(start: DownloadView, replies: Seq<DownloadReply>, i: int) -> bool {
    &&& 0 <= i < replies.len()
    &&& download_run(start, replies.take(i)).phase == DownloadPhase::Rename
    &&& replies[i] matches DownloadReply::Renamed(reply) && reply is Ok
}

/// Whether a download that ends well, having committed, has renamed its file into
/// place.
pub open spec fn commits_by_renaming(u: DownloadView) -> bool {
    winding_down(u.phase) ==> u.failure is Some || u.decision == CommitDecision::Cancelled
        || u.renamed
}

#[verifier::spinoff_prover]
#[verifier::rlimit(40)]
proof fn step_commits_by_renaming(u: DownloadView, reply: DownloadReply)
    requires
        commits_by_renaming(u),
    ensures
        commits_by_renaming(download_step(u, reply)),
        download_step(u, reply).renamed && !u.renamed ==> {
            &&& u.phase == DownloadPhase::Rename
            &&& reply matches DownloadReply::Renamed(made) && made is Ok
        },
        u.renamed ==> download_step(u, reply).renamed,
{
    match reply {
        DownloadReply::Destination(_, _) => {},
        DownloadReply::Anchor(_, _) => {},
        DownloadReply::Made(_) => {},
        DownloadReply::Parent(_) => {},
        DownloadReply::Opened(_) => {},
        DownloadReply::Identity(_) => {},
        DownloadReply::Written(_) => {},
        DownloadReply::Staged(_, _) => {},
        DownloadReply::Claimed(_) => {},
        DownloadReply::Renamed(_) => {},
        _ => {},
    }
}

proof fn run_commits_by_renaming(start: DownloadView, replies: Seq<DownloadReply>)
    requires
        commits_by_renaming(start),
        !start.renamed,
    ensures
        commits_by_renaming(download_run(start, replies)),
        download_run(start, replies).renamed ==> exists|i: int| rename_made(start, replies, i),
    decreases replies.len(),
{
    if replies.len() > 0 {
        let fewer = replies.drop_last();
        let last = replies.len() - 1;
        run_commits_by_renaming(start, fewer);
        step_commits_by_renaming(download_run(start, fewer), replies.last());
        assert(replies.take(last) =~= fewer);
        if download_run(start, fewer).renamed {
            let i = choose|i: int| rename_made(start, fewer, i);
            assert(fewer.take(i) =~= replies.take(i));
            assert(rename_made(start, replies, i));
        } else if download_run(start, replies).renamed {
            assert(rename_made(start, replies, last));
        }
    }
}

/// A guarded download that applies changes and ends with neither a failure nor a
/// cancellation has renamed its file into place, by a rename that succeeded.
pub proof fn committed_download_was_renamed(
    rel: Seq<char>,
    local_path: Seq<char>,
    payload: Option<Seq<u8>>,
    size: u64,
    sha256: Seq<char>,
    remote_mtime: Timestamp,
    expected: ExpectationView,
    replies: Seq<DownloadReply>,
)
    ensures
        ({
            let start = guarded_start(
                rel,
                local_path,
                payload,
                size,
                sha256,
                remote_mtime,
                expected,
                ExecutionMode::Apply,
            );
            let u = download_run(start, replies);
            u.phase == DownloadPhase::Done && u.failure is None && u.decision
                == CommitDecision::Committed ==> {
                &&& u.renamed
                &&& exists|i: int| rename_made(start, replies, i)
            }
        }),
{
    let mode = ExecutionMode::Apply;
    run_commits_by_renaming(
        guarded_start(rel, local_path, payload, size, sha256, remote_mtime, expected, mode),
        replies,
    );
}

proof fn plain_run_is_never_cancelled(start: DownloadView, replies: Seq<DownloadReply>)
    requires
        start.destination is None,
        start.decision == CommitDecision::Committed,
        start.phase != DownloadPhase::PollGate,
        start.phase != DownloadPhase::Claim,
    ensures
        download_run(start, replies).destination is None,
        download_run(start, replies).decision == CommitDecision::Committed,
        download_run(start, replies).phase != DownloadPhase::PollGate,
        download_run(start, replies).phase != DownloadPhase::Claim,
    decreases replies.len(),
{
    if replies.len() > 0 {
        plain_run_is_never_cancelled(start, replies.drop_last());
    }
}

/// A plain download that applies changes and ends without a failure has renamed its
/// file into place, by a rename that succeeded.
pub proof fn finished_plain_download_was_renamed(
    rel: Seq<char>,
    local_path: Seq<char>,
    remote_path: Seq<char>,
    bytes: Seq<u8>,
    recorded: Seq<char>,
    replies: Seq<DownloadReply>,
)
    ensures
        ({
            let start = plain_start(
                rel,
                local_path,
                remote_path,
                bytes,
                recorded,
                ExecutionMode::Apply,
            );
            let u = download_run(start, replies);
            u.phase == DownloadPhase::Done && u.failure is None ==> {
                &&& u.renamed
                &&& exists|i: int| rename_made(start, replies, i)
            }
        }),
{
    let mode = ExecutionMode::Apply;
    let start = plain_start(rel, local_path, remote_path, bytes, recorded, mode);
    run_commits_by_renaming(start, replies);
    plain_run_is_never_cancelled(start, replies);
}

/// A guarded download that is over holds no claim.
pub proof fn ended_download_holds_no_claim(
    rel: Seq<char>,
    local_path: Seq<char>,
    payload: Option<Seq<u8>>,
    size: u64,
    sha256: Seq<char>,
    remote_mtime: Timestamp,
    expected: ExpectationView,
    mode: ExecutionMode,
    replies: Seq<DownloadReply>,
)
    ensures
        ({
            let start = guarded_start(
                rel,
                local_path,
                payload,
                size,
                sha256,
                remote_mtime,
                expected,
                mode,
            );
            let u = download_run(start, replies);
            u.phase == DownloadPhase::Done ==> !u.held
        }),
{
    run_is_consistent(
        guarded_start(rel, local_path, payload, size, sha256, remote_mtime, expected, mode),
        replies,
    );
}

/// A claim is given back only when the download asks for it, and a commit that
/// fails inside a claim is cleaned up inside it: the staged file is looked at and
/// removed before the claim is given back.
#[verifier::spinoff_prover]
#[verifier::rlimit(40)]
pub proof fn failed_commit_is_cleaned_inside_its_claim(u: DownloadView, reply: DownloadReply)
    ensures
        u.held && !download_step(u, reply).held ==> (u.phase == DownloadPhase::Release || u.phase
            == DownloadPhase::Abandon) && reply == DownloadReply::Released,
        (u.phase == DownloadPhase::VerifyCommit || u.phase == DownloadPhase::Rename)
            && download_step(u, reply).phase != u.phase && u.failure is None && download_step(
            u,
            reply,
        ).failure is Some ==> download_step(u, reply).phase == DownloadPhase::CleanupLook
            && download_step(u, reply).held == u.held,
        u.phase == DownloadPhase::CleanupLook && u.held ==> download_step(u, reply).phase
            == DownloadPhase::CleanupLook || download_step(u, reply).phase
            == DownloadPhase::CleanupRemove || download_step(u, reply).phase == u.unmake(),
        u.phase == DownloadPhase::CleanupRemove && u.held ==> download_step(u, reply).phase
            == DownloadPhase::CleanupRemove || download_step(u, reply).phase == u.unmake(),
        u.held ==> u.unmake() != DownloadPhase::Done,
{
    match reply {
        DownloadReply::Destination(_, _) => {},
        DownloadReply::Anchor(_, _) => {},
        DownloadReply::Made(_) => {},
        DownloadReply::Parent(_) => {},
        DownloadReply::Opened(_) => {},
        DownloadReply::Staged(_, _) => {},
        DownloadReply::Claimed(_) => {},
        DownloadReply::Renamed(_) => {},
        DownloadReply::Owner(_, _) => {},
        _ => {},
    }
}

/// A download opens only reserved names, none of which is the path that it
/// stages its file beside.
#[verifier::spinoff_prover]
#[verifier::rlimit(40)]
pub proof fn opened_temp_is_reserved_and_apart(u: DownloadView, reply: DownloadReply)
    ensures
        download_step(u, reply).phase == DownloadPhase::Open && u.phase != DownloadPhase::Open
            ==> transfer_temp::reserved(download_step(u, reply).temp) && download_step(
            u,
            reply,
        ).temp != u.base(),
        download_step(u, reply).temp != u.temp ==> u.phase == DownloadPhase::Draw,
{
    match reply {
        DownloadReply::Nonce(nonce) => {
            if transfer_temp::local_candidate_of(u.base(), nonce) is Ok {
                transfer_temp::local_candidate_is_reserved(u.base(), nonce);
            }
        },
        DownloadReply::Made(_) => {},
        DownloadReply::Opened(_) => {},
        DownloadReply::Staged(_, _) => {},
        _ => {},
    }
}

/// Whether a reply is one to what a download asks for.
pub open spec fn answers(action: DownloadActionView, reply: DownloadReply) -> bool {
    match action {
        DownloadActionView::ProbeDestination => reply is Destination,
        DownloadActionView::PollGate => reply is Gate,
        DownloadActionView::ProbeAnchor => reply is Anchor,
        DownloadActionView::Time(_) => reply is Time,
        DownloadActionView::FindMissing(_) => reply is Missing,
        DownloadActionView::MakeDirectory(_) => reply is Made,
        DownloadActionView::LookAtParent(_) => reply is Parent,
        DownloadActionView::DrawNonce => reply is Nonce,
        DownloadActionView::Open(_) => reply is Opened,
        DownloadActionView::Identify => reply is Identity,
        DownloadActionView::Write => reply is Written,
        DownloadActionView::ProbeStaged(_, _) => reply is Staged,
        DownloadActionView::Claim => reply is Claimed,
        DownloadActionView::Rename(_, _) => reply is Renamed,
        DownloadActionView::Release => reply is Released,
        DownloadActionView::ProbeOwner(_, _) => reply is Owner,
        DownloadActionView::RemoveFile(_) => reply is Removed,
        DownloadActionView::RemoveDirectory(_) => reply is Removed,
        DownloadActionView::Done => false,
    }
}

/// A reply that is not to what a download asks for changes nothing.
#[verifier::spinoff_prover]
#[verifier::rlimit(40)]
pub proof fn download_goes_on_by_answers(u: DownloadView, reply: DownloadReply)
    requires
        !answers(download_action(u), reply),
    ensures
        download_step(u, reply) == u,
{
    match u.phase {
        DownloadPhase::CheckDestination => {},
        DownloadPhase::PollGate => {},
        DownloadPhase::CheckAnchor => {},
        DownloadPhase::Time => {},
        DownloadPhase::FindMissing => {},
        DownloadPhase::MakeParent => {},
        DownloadPhase::LookAtParent => {},
        DownloadPhase::Draw => {},
        DownloadPhase::Open => {},
        DownloadPhase::Identify => {},
        DownloadPhase::Recheck => {},
        DownloadPhase::Write => {},
        DownloadPhase::VerifyStaged => {},
        _ => {},
    }
}

/// What a download was asked to bring stays what it was.
#[verifier::spinoff_prover]
#[verifier::rlimit(40)]
pub proof fn download_keeps_what_it_brings(u: DownloadView, reply: DownloadReply)
    ensures
        ({
            let next = download_step(u, reply);
            &&& next.rel == u.rel
            &&& next.local_path == u.local_path
            &&& next.remote_path == u.remote_path
            &&& next.size == u.size
            &&& next.sha256 == u.sha256
            &&& next.recorded == u.recorded
            &&& next.destination == u.destination
        }),
{
    match reply {
        DownloadReply::Destination(_, _) => {},
        DownloadReply::Gate(_) => {},
        DownloadReply::Anchor(_, _) => {},
        DownloadReply::Time(_) => {},
        DownloadReply::Made(_) => {},
        DownloadReply::Parent(_) => {},
        DownloadReply::Nonce(_) => {},
        DownloadReply::Opened(_) => {},
        DownloadReply::Identity(_) => {},
        DownloadReply::Written(_) => {},
        DownloadReply::Staged(_, _) => {},
        DownloadReply::Claimed(_) => {},
        DownloadReply::Renamed(_) => {},
        _ => {},
    }
}

/// A download writes to its temporary file only, removes nothing but it and
/// directories of its own, and renames it to the target. It looks at the staged
/// file in the directory it was opened in.
pub proof fn download_asks_of_its_own_paths(u: DownloadView)
    ensures
        download_action(u) matches DownloadActionView::Open(path) ==> path == u.temp,
        download_action(u) matches DownloadActionView::RemoveFile(path) ==> path == u.temp,
        download_action(u) matches DownloadActionView::RemoveDirectory(path) ==> path
            == u.created.last(),
        download_action(u) matches DownloadActionView::MakeDirectory(path) ==> path
            == u.missing[u.made as int],
        download_action(u) matches DownloadActionView::Rename(from, to) ==> from == u.temp && to
            == u.target,
        download_action(u) matches DownloadActionView::Time(path) ==> path == u.remote_path,
        download_action(u) matches DownloadActionView::FindMissing(path) ==> path == u.local_path,
        download_action(u) matches DownloadActionView::LookAtParent(path) ==> path == match u.destination {
            Some(expected) => expected.resolved(),
            None => u.local_path,
        },
        download_action(u) matches DownloadActionView::ProbeStaged(parent, temp) ==> parent
            == u.parent && temp == u.temp,
        download_action(u) matches DownloadActionView::ProbeOwner(parent, temp) ==> parent
            == u.parent && temp == u.temp,
        download_action(u) == DownloadActionView::Done <==> u.phase == DownloadPhase::Done,
{
}

/// A destination holds exactly where the path leads to its directory, it is what
/// it was, and it is a file or not there.
pub proof fn destination_holds_where_it_is_what_it_was(
    expected: ExpectationView,
    path: Seq<char>,
    parent: Result<AnchorFacts, Error>,
    probe: PathProbe,
)
    ensures
        destination_holds(expected, path, parent, probe) is Ok <==> {
            &&& file_transfer::supplied(expected, path, parent) is Ok
            &&& file_transfer::unchanged(expected, probe) is Ok
            &&& expected.entry is Some ==> expected.entry->Some_0.kind.file()
        },
{
}

/// A staged file holds exactly where it is the file that was opened, in the
/// directory it was opened in, with the size, the time and the hash it should
/// have.
pub proof fn staged_holds_where_it_is_what_was_staged(
    u: DownloadView,
    parent: Result<AnchorFacts, Error>,
    temp: Result<TempFacts, Error>,
)
    ensures
        staged_holds(u, parent, temp) is Ok <==> {
            &&& parent is Ok
            &&& parent->Ok_0.canonical@ == u.parent
            &&& parent->Ok_0.identity == u.parent_identity
            &&& temp is Ok
            &&& temp->Ok_0.is_file
            &&& temp->Ok_0.identity == u.temp_identity
            &&& temp->Ok_0.size == u.size
            &&& temp->Ok_0.modified == u.temp_modified
            &&& temp->Ok_0.sha256@ == u.sha256
        },
{
}

/// A guarded download has something to do exactly where it is for real and the
/// payload is there with the planned size and hash; where it is not, it fails.
pub proof fn guarded_download_starts_with_the_right_bytes(
    rel: Seq<char>,
    local_path: Seq<char>,
    payload: Option<Seq<u8>>,
    size: u64,
    sha256: Seq<char>,
    remote_mtime: Timestamp,
    expected: ExpectationView,
    mode: ExecutionMode,
)
    ensures
        ({
            let start = guarded_start(
                rel,
                local_path,
                payload,
                size,
                sha256,
                remote_mtime,
                expected,
                mode,
            );
            let right = payload is Some && payload->Some_0.len() == size && hash::sha256_hex(
                payload->Some_0,
            ) == sha256;
            &&& start.phase == DownloadPhase::CheckDestination <==> mode != ExecutionMode::DryRun
                && right
            &&& start.phase == DownloadPhase::Done <==> mode == ExecutionMode::DryRun || !right
            &&& start.failure is Some <==> mode != ExecutionMode::DryRun && !right
            &&& start.destination == Some(expected)
            &&& start.local_path == local_path
            &&& start.size == size
            &&& start.sha256 == sha256
            &&& start.recorded == sha256
            &&& start.remote_mtime == remote_mtime
            &&& start.rel == rel
            &&& !start.renamed
            &&& !start.held
            &&& start.created.len() == 0
            &&& start.decision == CommitDecision::Committed
        }),
{
}

/// A plain download has something to do unless nothing is to be changed, and is
/// held to the bytes it was given.
pub proof fn plain_download_starts_with_its_bytes(
    rel: Seq<char>,
    local_path: Seq<char>,
    remote_path: Seq<char>,
    bytes: Seq<u8>,
    recorded: Seq<char>,
    mode: ExecutionMode,
)
    ensures
        ({
            let start = plain_start(rel, local_path, remote_path, bytes, recorded, mode);
            &&& start.phase == DownloadPhase::Time <==> mode != ExecutionMode::DryRun
            &&& start.phase == DownloadPhase::Done <==> mode == ExecutionMode::DryRun
            &&& start.destination is None
            &&& start.sha256 == hash::sha256_hex(bytes)
            &&& start.size == bytes.len() as u64
            &&& start.recorded == recorded
            &&& start.rel == rel
            &&& start.local_path == local_path
            &&& start.remote_path == remote_path
            &&& start.failure is None
            &&& !start.renamed
            &&& start.created.len() == 0
        }),
{
}

/// A guarded download comes to stage its bytes exactly where the destination
/// holds, the selection is current and the directory is where it was. It is
/// cancelled only by the selection.
pub proof fn guarded_download_stages_where_its_destination_holds(
    u: DownloadView,
    named: Result<AnchorFacts, Error>,
    probe: PathProbe,
    current: bool,
    root: Result<AnchorFacts, Error>,
    parent: Result<AnchorFacts, Error>,
)
    requires
        u.phase == DownloadPhase::CheckDestination,
        u.destination is Some,
        u.decision == CommitDecision::Committed,
        u.failure is None,
    ensures
        ({
            let looked = download_step(u, DownloadReply::Destination(named, probe));
            let polled = download_step(looked, DownloadReply::Gate(current));
            let next = download_step(polled, DownloadReply::Anchor(root, parent));
            let expected = u.destination->Some_0;
            let holds = destination_holds(expected, u.local_path, named, probe) is Ok;
            let anchored = file_transfer::anchored(expected, root, parent) is Ok;
            &&& next.phase == DownloadPhase::LookAtParent <==> holds && current && anchored
            &&& next.phase == DownloadPhase::LookAtParent || next.phase == DownloadPhase::Done
            &&& next.decision == CommitDecision::Cancelled <==> holds && !current
            &&& next.failure is Some <==> !holds || (current && !anchored)
        }),
{
}

/// A plain download asks for the time of the remote file first, then makes the
/// missing directories in turn and looks at the directory of its destination
/// once all of them are there.
pub proof fn plain_download_makes_every_directory(
    u: DownloadView,
    time: Result<Timestamp, error::ErrorView>,
    missing: Seq<Seq<char>>,
)
    requires
        u.phase == DownloadPhase::Time,
        u.failure is None,
    ensures
        ({
            let timed = download_step(u, DownloadReply::Time(time));
            let next = download_step(timed, DownloadReply::Missing(missing));
            &&& timed.phase == DownloadPhase::FindMissing <==> time is Ok
            &&& timed.phase == DownloadPhase::Done <==> time is Err
            &&& timed.failure is Some <==> time is Err
            &&& time is Ok ==> {
                &&& next.remote_mtime == time->Ok_0
                &&& next.missing == missing
                &&& next.made == 0
                &&& next.phase == DownloadPhase::MakeParent <==> missing.len() > 0
                &&& next.phase == DownloadPhase::LookAtParent <==> missing.len() == 0
            }
        }),
{
}

/// A directory that was made is remembered as made, and one that was there
/// already is not; either way the next one follows. One that could not be made
/// ends the download.
pub proof fn made_directories_are_remembered(u: DownloadView, made: MakeReply)
    requires
        u.phase == DownloadPhase::MakeParent,
        u.made < u.missing.len(),
        u.failure is None,
    ensures
        ({
            let next = download_step(u, DownloadReply::Made(made));
            &&& made is Created <==> next.created.len() > u.created.len()
            &&& made is Created ==> next.created == u.created.push(u.missing[u.made as int])
            &&& made is Created || next.created == u.created
            &&& made is Failed <==> next.failure is Some
            &&& !(made is Failed) ==> {
                &&& next.made == u.made + 1
                &&& next.phase == DownloadPhase::MakeParent <==> u.made + 1 < u.missing.len()
                &&& next.phase == DownloadPhase::LookAtParent <==> u.made + 1 == u.missing.len()
            }
            &&& made is Failed ==> (next.phase == DownloadPhase::RemoveParent <==> u.created.len()
                > 0)
        }),
{
}

/// The target of a download is the name of its destination in the directory as
/// it really is, and its temporary file stands beside the destination.
pub proof fn download_targets_the_real_directory(
    u: DownloadView,
    parent: Result<AnchorFacts, Error>,
    nonce: Seq<char>,
)
    requires
        u.phase == DownloadPhase::LookAtParent,
        u.failure is None,
    ensures
        ({
            let looked = download_step(u, DownloadReply::Parent(parent));
            let next = download_step(looked, DownloadReply::Nonce(nonce));
            let base = match u.destination {
                Some(expected) => expected.resolved(),
                None => u.local_path,
            };
            let temp = transfer_temp::local_candidate_of(base, nonce);
            &&& looked.phase == DownloadPhase::Draw <==> parent is Ok && local_paths::parent(base)
                is Some && local_paths::file_name(base) is Some
            &&& looked.failure is Some <==> looked.phase != DownloadPhase::Draw
            &&& looked.phase == DownloadPhase::Draw ==> {
                &&& looked.parent == parent->Ok_0.canonical@
                &&& looked.parent_identity == parent->Ok_0.identity
                &&& looked.target == local_paths::joined(
                    parent->Ok_0.canonical@,
                    local_paths::file_name(base)->Some_0,
                )
                &&& next.phase == DownloadPhase::Open <==> temp is Ok
                &&& temp is Ok ==> next.temp == temp->Ok_0
                &&& next.failure is Some <==> temp is Err
            }
        }),
{
}

/// A temporary file is used exactly where it could be opened as a new one. Where
/// its name is taken, another one is drawn, up to as many as are tried.
pub proof fn temp_is_opened_as_a_new_file(u: DownloadView, opened: OpenReply)
    requires
        u.phase == DownloadPhase::Open,
        u.failure is None,
    ensures
        ({
            let next = download_step(u, DownloadReply::Opened(opened));
            &&& next.phase == DownloadPhase::Identify <==> opened is Opened
            &&& next.phase == DownloadPhase::Draw <==> opened is Exists && u.attempts + 1 < 32
            &&& next.phase == DownloadPhase::Draw ==> next.attempts == u.attempts + 1
            &&& next.failure is Some <==> opened is Failed || (opened is Exists && u.attempts + 1
                >= 32)
        }),
{
}

/// Staged bytes come up for the commit exactly where the temporary file could be
/// told, the directory is where it was, all bytes were written to a file, and the
/// file holds. From then on a failed download cleans its file up.
pub proof fn download_commits_what_it_staged(
    u: DownloadView,
    identity: Result<u64, error::ErrorView>,
    root: Result<AnchorFacts, Error>,
    anchor: Result<AnchorFacts, Error>,
    written: Result<WriteFacts, error::ErrorView>,
    parent: Result<AnchorFacts, Error>,
    temp: Result<TempFacts, Error>,
)
    requires
        u.phase == DownloadPhase::Identify,
        u.failure is None,
        u.created.len() == 0,
        !u.held,
    ensures
        ({
            let told = download_step(u, DownloadReply::Identity(identity));
            let rechecked = download_step(told, DownloadReply::Anchor(root, anchor));
            let wrote = download_step(rechecked, DownloadReply::Written(written));
            let next = download_step(wrote, DownloadReply::Staged(parent, temp));
            let anchored = u.destination is Some ==> file_transfer::anchored(
                u.destination->Some_0,
                root,
                anchor,
            ) is Ok;
            let whole = written is Ok && written->Ok_0.is_file && written->Ok_0.size == u.size;
            let expected = DownloadView {
                temp_identity: identity->Ok_0,
                temp_modified: written->Ok_0.modified,
                ..u
            };
            let all = identity is Ok && anchored && whole && staged_holds(expected, parent, temp)
                is Ok;
            &&& next.phase == DownloadPhase::Claim <==> all && u.destination is Some
            &&& next.phase == DownloadPhase::VerifyCommit <==> all && u.destination is None
            &&& all ==> next.failure is None && next.temp_identity == identity->Ok_0
                && next.temp_modified == written->Ok_0.modified
            &&& !all ==> next.failure is Some
            &&& next.phase == DownloadPhase::CleanupLook <==> identity is Ok && !all
            &&& next.phase == DownloadPhase::Done <==> identity is Err
            &&& next.temp == u.temp
            &&& next.target == u.target
        }),
{
}

/// A guarded download takes its claim exactly where it is granted; a refused one
/// cancels it and a failed one fails it, and both clean up.
pub proof fn download_enters_a_granted_claim(
    u: DownloadView,
    claimed: Result<CommitDecision, error::ErrorView>,
)
    requires
        u.phase == DownloadPhase::Claim,
        u.decision == CommitDecision::Committed,
        u.failure is None,
        !u.held,
    ensures
        ({
            let next = download_step(u, DownloadReply::Claimed(claimed));
            let granted = claimed == Ok::<CommitDecision, error::ErrorView>(
                CommitDecision::Committed,
            );
            &&& next.phase == DownloadPhase::ClaimDestination <==> granted
            &&& next.held <==> granted
            &&& next.phase == DownloadPhase::CleanupLook <==> !granted
            &&& next.decision == CommitDecision::Cancelled <==> claimed == Ok::<
                CommitDecision,
                error::ErrorView,
            >(CommitDecision::Cancelled)
            &&& next.failure is Some <==> claimed is Err
        }),
{
}

/// Inside the claim the staged file takes the place of the destination exactly
/// where the destination holds, the staged file holds and the rename is made;
/// the claim is then given back.
pub proof fn guarded_download_renames_where_everything_holds(
    u: DownloadView,
    named: Result<AnchorFacts, Error>,
    probe: PathProbe,
    parent: Result<AnchorFacts, Error>,
    temp: Result<TempFacts, Error>,
    renamed: Result<(), error::ErrorView>,
)
    requires
        u.phase == DownloadPhase::ClaimDestination,
        u.destination is Some,
        u.held,
        !u.renamed,
        u.failure is None,
    ensures
        ({
            let looked = download_step(u, DownloadReply::Destination(named, probe));
            let matched = download_step(looked, DownloadReply::Staged(parent, temp));
            let tried = download_step(matched, DownloadReply::Renamed(renamed));
            let next = download_step(tried, DownloadReply::Released);
            let free = destination_holds(u.destination->Some_0, u.local_path, named, probe) is Ok;
            let all = free && staged_holds(u, parent, temp) is Ok && renamed is Ok;
            &&& next.renamed <==> all
            &&& next.failure is Some <==> !all
            &&& next.phase == DownloadPhase::Done <==> all
            &&& next.phase == DownloadPhase::CleanupLook <==> !all
            &&& next.held <==> free && !all
            &&& next.decision == u.decision
        }),
{
}

/// A plain download takes the place of its destination exactly where the staged
/// file holds and the rename is made.
pub proof fn plain_download_renames_where_its_file_holds(
    u: DownloadView,
    parent: Result<AnchorFacts, Error>,
    temp: Result<TempFacts, Error>,
    renamed: Result<(), error::ErrorView>,
)
    requires
        u.phase == DownloadPhase::VerifyCommit,
        u.destination is None,
        !u.held,
        !u.renamed,
        u.failure is None,
    ensures
        ({
            let matched = download_step(u, DownloadReply::Staged(parent, temp));
            let next = download_step(matched, DownloadReply::Renamed(renamed));
            let all = staged_holds(u, parent, temp) is Ok && renamed is Ok;
            &&& next.renamed <==> all
            &&& next.failure is Some <==> !all
            &&& next.phase == DownloadPhase::Done <==> all
            &&& next.phase == DownloadPhase::CleanupLook <==> !all
        }),
{
}

/// A temporary file is removed exactly where it is the file that was opened, in
/// the directory it was opened in; the directories that were made are removed
/// after it, the last one first, and a claim that is held is given back last.
pub proof fn download_removes_what_it_made(
    u: DownloadView,
    parent: Option<AnchorFacts>,
    temp: Option<(bool, u64)>,
)
    requires
        u.phase == DownloadPhase::CleanupLook,
    ensures
        ({
            let next = download_step(u, DownloadReply::Owner(parent, temp));
            let after = if next.phase == DownloadPhase::CleanupRemove {
                download_step(next, DownloadReply::Removed)
            } else {
                next
            };
            let ours = {
                &&& parent is Some
                &&& parent->Some_0.canonical@ == u.parent
                &&& parent->Some_0.identity == u.parent_identity
                &&& temp == Some((true, u.temp_identity))
            };
            &&& download_action(next) == DownloadActionView::RemoveFile(u.temp) <==> ours
            &&& u.created.len() > 0 ==> download_action(after)
                == DownloadActionView::RemoveDirectory(u.created.last()) && download_step(
                after,
                DownloadReply::Removed,
            ).created == u.created.drop_last()
            &&& u.created.len() == 0 ==> (after.phase == DownloadPhase::Release <==> u.held)
            &&& u.created.len() == 0 ==> (after.phase == DownloadPhase::Done <==> !u.held)
            &&& after.failure == u.failure
            &&& after.decision == u.decision
            &&& after.renamed == u.renamed
        }),
{
}

} // verus!
