//! Uploads: what a local source must stay, how bytes are staged beside their
//! destination, and when the staged bytes may take its place.

use crate::error::Error;
use crate::error;
use crate::file_transfer::{
    ExpectationView, LocalPathExpectation, PathProbe, RemoteDestinationSnapshot, SnapshotView,
};
use crate::file_transfer;
use crate::ftp::Timestamp;
use crate::hash;
use crate::paths;
use crate::scope::{CommitDecision, ExecutionMode};
use crate::state::StateFile;
use crate::state;
use crate::text;
use crate::transfer_temp;
use vstd::prelude::*;

verus! {

broadcast use vstd::seq::group_seq_axioms;

/// A local file that is to be uploaded, as it was when it was captured.
#[derive(Debug)]
pub struct ExpectedLocalSource {
    pub snapshot: LocalPathExpectation,
}

/// The source that a probe of `path` gives: it must be a file.
pub open spec fn source_of(local_root: Seq<char>, path: Seq<char>, probe: PathProbe) -> Result<
    ExpectationView,
    error::ErrorView,
> {
    match file_transfer::captured(local_root, path, probe) {
        Err(e) => Err(e),
        Ok(expected) => if expected.file_hash() is None {
            Err(error::failure("local source "@ + path + " is not a regular file"@))
        } else {
            Ok(expected)
        },
    }
}

/// Whether a source still has the content with the given hash.
pub open spec fn source_unchanged(
    expected: ExpectationView,
    hash: Seq<char>,
    probe: PathProbe,
) -> Result<(), error::ErrorView> {
    let message = "local source changed at "@ + expected.resolved();
    if expected.file_hash() != Some(hash) {
        Err(error::failure(message))
    } else {
        match file_transfer::unchanged(expected, probe) {
            Err(cause) => Err(error::failure_from(message, error::full_message(cause))),
            Ok(_) => Ok(()),
        }
    }
}

impl ExpectedLocalSource {
    /// Captures the source at `path` below `local_root`.
    pub fn capture(local_root: &str, path: &str, probe: PathProbe) -> (out: Result<
        ExpectedLocalSource,
        Error,
    >)
        ensures
            match (out, source_of(local_root@, path@, probe)) {
                (Ok(source), Ok(want)) => source.snapshot@ == want,
                (Err(e), Err(want)) => e@ == want,
                _ => false,
            },
    {
        match LocalPathExpectation::capture(local_root, path, probe) {
            Err(e) => Err(e),
            Ok(snapshot) => match snapshot.expected_file_hash() {
                None => Err(
                    Error::failure(text::cat3("local source ", path, " is not a regular file")),
                ),
                Some(_) => Ok(ExpectedLocalSource { snapshot }),
            },
        }
    }

    /// Checks that the source still has the content with the given hash.
    pub fn verify_unchanged(&self, expected_hash: &str, probe: PathProbe) -> (out: Result<
        (),
        Error,
    >)
        ensures
            error::settles(out, source_unchanged(self.snapshot@, expected_hash@, probe)),
    {
        let message = text::cat("local source changed at ", &self.snapshot.resolved_path());
        let same = match self.snapshot.expected_file_hash() {
            Some(hash) => text::same(&hash, expected_hash),
            None => false,
        };
        if !same {
            return Err(Error::failure(message));
        }
        match self.snapshot.verify_unchanged(probe) {
            Err(cause) => Err(Error::failure_from(message, &cause.full_message())),
            Ok(_) => Ok(()),
        }
    }
}

/// How many names a staged upload tries before it gives up.
pub const MAX_REMOTE_TEMP_CANDIDATES: usize = 32;

/// What is to be uploaded, where to, and what both ends are expected to be.
#[derive(Debug)]
pub struct UploadRequest {
    pub rel: String,
    pub remote_path: String,
    pub size: u64,
    pub hash: String,
    pub source: ExpectedLocalSource,
    pub destination: RemoteDestinationSnapshot,
}

/// What a request says.
pub struct RequestView {
    pub rel: Seq<char>,
    pub remote_path: Seq<char>,
    pub size: u64,
    pub hash: Seq<char>,
    pub source: ExpectationView,
    pub destination: SnapshotView,
}

impl View for UploadRequest {
    type V = RequestView;

    open spec fn view(&self) -> RequestView {
        RequestView {
            rel: self.rel@,
            remote_path: self.remote_path@,
            size: self.size,
            hash: self.hash@,
            source: self.source.snapshot@,
            destination: self.destination@,
        }
    }
}

/// How far a guarded upload has come. Each phase but the last waits for one
/// reply.
#[derive(Debug, Clone, Copy, PartialEq, Eq, Structural)]
pub enum UploadPhase {
    /// Look at the source.
    CheckSource,
    /// Look at the destination.
    CheckDestination,
    /// Ask whether the selection is still current.
    PollGate,
    /// Draw a nonce.
    Draw,
    /// See that the name for the temporary file is free.
    Reserve,
    /// Upload to the temporary file.
    Upload,
    /// Look at the temporary file.
    Inspect,
    /// Ask for the time of the temporary file.
    Time,
    /// Ask for the claim inside which the change is made.
    Claim,
    /// Inside the claim, look at the source again.
    ClaimSource,
    /// Inside the claim, look at the destination again.
    ClaimDestination,
    /// Inside the claim, look at the temporary file again.
    ClaimTemp,
    /// Inside the claim, ask for the time of the temporary file again.
    ClaimTime,
    /// Inside the claim, rename the temporary file to the destination.
    Rename,
    /// Give the claim back.
    Release,
    /// Look at the temporary file before it is removed.
    CleanupLook,
    /// Remove the temporary file.
    CleanupRemove,
    Done,
}

/// How a claim was answered.
#[derive(Debug)]
pub enum ClaimReply {
    Granted,
    Cancelled,
    Failed(Error),
}

/// An upload that takes the place of its destination only inside a claim, and
/// only while the source, the destination and the staged bytes are what they
/// were.
#[derive(Debug)]
pub struct GuardedUpload {
    pub request: UploadRequest,
    pub phase: UploadPhase,
    pub attempts: usize,
    pub temp: String,
    pub temp_snapshot: RemoteDestinationSnapshot,
    pub modified: Timestamp,
    pub renamed: bool,
    pub decision: CommitDecision,
    pub failure: Option<Error>,
}

/// What a guarded upload says. `temp_snapshot` is what was seen of the temporary
/// file once its bytes were found to be the right ones.
pub struct UploadView {
    pub request: RequestView,
    pub phase: UploadPhase,
    pub attempts: nat,
    pub temp: Seq<char>,
    pub temp_snapshot: SnapshotView,
    pub modified: Timestamp,
    pub renamed: bool,
    pub decision: CommitDecision,
    pub failure: Option<error::ErrorView>,
}

impl View for GuardedUpload {
    type V = UploadView;

    open spec fn view(&self) -> UploadView {
        UploadView {
            request: self.request@,
            phase: self.phase,
            attempts: self.attempts as nat,
            temp: self.temp@,
            temp_snapshot: self.temp_snapshot@,
            modified: self.modified,
            renamed: self.renamed,
            decision: self.decision,
            failure: match self.failure {
                Some(e) => Some(e@),
                None => None,
            },
        }
    }
}

/// Whether a snapshot is that of the bytes that a request uploads.
pub open spec fn intended(request: RequestView, snapshot: SnapshotView) -> bool {
    snapshot matches SnapshotView::File { size, sha256, .. } && size == request.size && sha256
        == request.hash
}

/// A reply to a guarded upload.
pub enum UploadReply {
    Probe(PathProbe),
    Snapshot(Result<SnapshotView, error::ErrorView>),
    Gate(bool),
    Nonce(Seq<char>),
    Uploaded(Result<(), error::ErrorView>),
    Time(Result<Timestamp, error::ErrorView>),
    Claimed(Result<CommitDecision, error::ErrorView>),
    Renamed(Result<(), error::ErrorView>),
    Released,
    Removed,
}

impl UploadView {
    /// The upload in another phase.
    pub open spec fn at(self, phase: UploadPhase) -> UploadView {
        UploadView { phase, ..self }
    }

    /// The upload in another phase, with a failure.
    pub open spec fn failed(self, phase: UploadPhase, failure: error::ErrorView) -> UploadView {
        UploadView { phase, failure: Some(failure), ..self }
    }
}

/// Where a reply leads a guarded upload. A reply that the phase does not wait
/// for changes nothing.
pub open spec fn upload_step(u: UploadView, reply: UploadReply) -> UploadView {
    match (u.phase, reply) {
        (UploadPhase::CheckSource, UploadReply::Probe(probe)) => match source_unchanged(
            u.request.source,
            u.request.hash,
            probe,
        ) {
            Err(e) => u.failed(UploadPhase::Done, e),
            Ok(_) => u.at(UploadPhase::CheckDestination),
        },
        (UploadPhase::CheckDestination, UploadReply::Snapshot(seen)) =>
            match destination_unchanged(u.request, seen) {
            Err(e) => u.failed(UploadPhase::Done, e),
            Ok(_) => u.at(UploadPhase::PollGate),
        },
        (UploadPhase::PollGate, UploadReply::Gate(current)) => if current {
            u.at(UploadPhase::Draw)
        } else {
            UploadView { phase: UploadPhase::Done, decision: CommitDecision::Cancelled, ..u }
        },
        (UploadPhase::Draw, UploadReply::Nonce(nonce)) => match transfer_temp::candidate_of(
            u.request.remote_path,
            nonce,
        ) {
            Err(e) => u.failed(UploadPhase::Done, e),
            Ok(temp) => UploadView { phase: UploadPhase::Reserve, temp, ..u },
        },
        (UploadPhase::Reserve, UploadReply::Snapshot(seen)) => match seen {
            Err(e) => u.failed(UploadPhase::Done, e),
            Ok(SnapshotView::Missing) => u.at(UploadPhase::Upload),
            Ok(_) => if u.attempts + 1 < MAX_REMOTE_TEMP_CANDIDATES {
                UploadView { phase: UploadPhase::Draw, attempts: u.attempts + 1, ..u }
            } else {
                u.failed(
                    UploadPhase::Done,
                    error::failure("unable to reserve a unique remote transfer temp"@),
                )
            },
        },
        (UploadPhase::Upload, UploadReply::Uploaded(reply)) => match reply {
            Err(cause) => u.failed(
                UploadPhase::CleanupLook,
                error::failure_from("uploading temp "@ + u.temp, error::full_message(cause)),
            ),
            Ok(_) => u.at(UploadPhase::Inspect),
        },
        (UploadPhase::Inspect, UploadReply::Snapshot(seen)) => match seen {
            Err(cause) => u.failed(
                UploadPhase::CleanupLook,
                error::failure_from(
                    "capturing remote temp "@ + text::debug_text(u.temp),
                    error::full_message(cause),
                ),
            ),
            Ok(snapshot) => if intended(u.request, snapshot) {
                UploadView { phase: UploadPhase::Time, temp_snapshot: snapshot, ..u }
            } else {
                u.failed(
                    UploadPhase::Done,
                    error::failure(
                        "remote temp changed while staging at "@ + text::debug_text(u.temp),
                    ),
                )
            },
        },
        (UploadPhase::Time, UploadReply::Time(reply)) => match reply {
            Err(cause) => u.failed(UploadPhase::CleanupLook, time_failure(u.temp, cause)),
            Ok(modified) => UploadView { phase: UploadPhase::Claim, modified, ..u },
        },
        (UploadPhase::Claim, UploadReply::Claimed(reply)) => match reply {
            Err(e) => u.failed(UploadPhase::CleanupLook, e),
            Ok(CommitDecision::Committed) => u.at(UploadPhase::ClaimSource),
            Ok(CommitDecision::Cancelled) => UploadView {
                phase: UploadPhase::CleanupLook,
                decision: CommitDecision::Cancelled,
                ..u
            },
        },
        (UploadPhase::ClaimSource, UploadReply::Probe(probe)) => match source_unchanged(
            u.request.source,
            u.request.hash,
            probe,
        ) {
            Err(e) => u.failed(UploadPhase::Release, e),
            Ok(_) => u.at(UploadPhase::ClaimDestination),
        },
        (UploadPhase::ClaimDestination, UploadReply::Snapshot(seen)) =>
            match destination_unchanged(u.request, seen) {
            Err(e) => u.failed(UploadPhase::Release, e),
            Ok(_) => u.at(UploadPhase::ClaimTemp),
        },
        (UploadPhase::ClaimTemp, UploadReply::Snapshot(seen)) => match seen {
            Err(e) => u.failed(UploadPhase::Release, e),
            Ok(snapshot) => if snapshot == u.temp_snapshot {
                u.at(UploadPhase::ClaimTime)
            } else {
                u.failed(
                    UploadPhase::Release,
                    error::failure(
                        "remote temp changed before commit at "@ + text::debug_text(u.temp),
                    ),
                )
            },
        },
        (UploadPhase::ClaimTime, UploadReply::Time(reply)) => match reply {
            Err(cause) => u.failed(UploadPhase::Release, time_failure(u.temp, cause)),
            Ok(modified) => if modified == u.modified {
                u.at(UploadPhase::Rename)
            } else {
                u.failed(
                    UploadPhase::Release,
                    error::failure(
                        "remote temp mtime changed before commit at "@ + text::debug_text(u.temp),
                    ),
                )
            },
        },
        (UploadPhase::Rename, UploadReply::Renamed(reply)) => match reply {
            Err(cause) => u.failed(
                UploadPhase::Release,
                error::failure_from(
                    "renaming "@ + u.temp + " -> "@ + u.request.remote_path,
                    error::full_message(cause),
                ),
            ),
            Ok(_) => UploadView { phase: UploadPhase::Release, renamed: true, ..u },
        },
        (UploadPhase::Release, UploadReply::Released) => if u.renamed {
            u.at(UploadPhase::Done)
        } else {
            u.at(UploadPhase::CleanupLook)
        },
        (UploadPhase::CleanupLook, UploadReply::Snapshot(seen)) => if is_ours(u, seen) {
            u.at(UploadPhase::CleanupRemove)
        } else {
            u.at(UploadPhase::Done)
        },
        (UploadPhase::CleanupRemove, UploadReply::Removed) => u.at(UploadPhase::Done),
        _ => u,
    }
}

/// Whether what was seen of the destination is what the request expects.
pub open spec fn destination_unchanged(
    request: RequestView,
    seen: Result<SnapshotView, error::ErrorView>,
) -> Result<(), error::ErrorView> {
    match seen {
        Err(e) => Err(e),
        Ok(snapshot) => if snapshot == request.destination {
            Ok(())
        } else {
            Err(
                error::failure(
                    "remote destination changed before commit at "@ + text::debug_text(
                        request.remote_path,
                    ),
                ),
            )
        },
    }
}

/// A time that could not be had.
pub open spec fn time_failure(temp: Seq<char>, cause: error::ErrorView) -> error::ErrorView {
    error::failure_from(
        "fetching exact mtime for remote temp "@ + text::debug_text(temp),
        error::full_message(cause),
    )
}

/// Whether what was seen of the temporary file proves it to be the one that was
/// uploaded: the snapshot that was taken of it, or, where there is none, one of
/// the right bytes.
pub open spec fn is_ours(u: UploadView, seen: Result<SnapshotView, error::ErrorView>) -> bool {
    match seen {
        Err(_) => false,
        Ok(snapshot) => if u.temp_snapshot is Missing {
            intended(u.request, snapshot)
        } else {
            snapshot == u.temp_snapshot
        },
    }
}

/// Where a guarded upload starts. A run that changes nothing is done at once, and
/// so is one whose payload is not what the request says.
pub open spec fn upload_start(
    request: RequestView,
    bytes: Seq<u8>,
    mode: ExecutionMode,
) -> UploadView {
    let start = UploadView {
        request,
        phase: UploadPhase::CheckSource,
        attempts: 0,
        temp: Seq::empty(),
        temp_snapshot: SnapshotView::Missing,
        modified: Timestamp { secs: 0, nanos: 0 },
        renamed: false,
        decision: CommitDecision::Committed,
        failure: None,
    };
    if mode == ExecutionMode::DryRun {
        start.at(UploadPhase::Done)
    } else if hash::sha256_hex(bytes) != request.hash {
        start.failed(
            UploadPhase::Done,
            error::failure("local payload changed before guarded upload "@ + request.rel),
        )
    } else {
        start
    }
}

/// A snapshot with its failure taken by its view.
pub open spec fn seen(reply: Result<RemoteDestinationSnapshot, Error>) -> Result<
    SnapshotView,
    error::ErrorView,
> {
    match reply {
        Ok(snapshot) => Ok(snapshot@),
        Err(e) => Err(e@),
    }
}

/// A result with its failure taken by its view.
pub open spec fn reported<T>(reply: Result<T, Error>) -> Result<T, error::ErrorView> {
    match reply {
        Ok(value) => Ok(value),
        Err(e) => Err(e@),
    }
}

/// The answer to a claim with its failure taken by its view.
pub open spec fn claimed(reply: ClaimReply) -> Result<CommitDecision, error::ErrorView> {
    match reply {
        ClaimReply::Granted => Ok(CommitDecision::Committed),
        ClaimReply::Cancelled => Ok(CommitDecision::Cancelled),
        ClaimReply::Failed(e) => Err(e@),
    }
}

impl UploadRequest {
    /// Whether a snapshot is that of the bytes that the request uploads.
    pub fn matches_snapshot(&self, snapshot: &RemoteDestinationSnapshot) -> (out: bool)
        ensures
            out == intended(self@, snapshot@),
    {
        match snapshot {
            RemoteDestinationSnapshot::File { size, sha256, .. } => *size == self.size
                && text::same(sha256, &self.hash),
            _ => false,
        }
    }

    /// Checks what was seen of the destination.
    pub fn verify_remote_destination(
        &self,
        reply: Result<RemoteDestinationSnapshot, Error>,
    ) -> (out: Result<(), Error>)
        ensures
            error::settles(out, destination_unchanged(self@, seen(reply))),
    {
        match reply {
            Err(e) => Err(e),
            Ok(snapshot) => if snapshot.same(&self.destination) {
                Ok(())
            } else {
                Err(
                    Error::failure(
                        text::cat(
                            "remote destination changed before commit at ",
                            &text::debug_of(&self.remote_path),
                        ),
                    ),
                )
            },
        }
    }
}

/// What a guarded upload asks for.
#[derive(Debug)]
pub enum UploadAction {
    /// Probe the source where it really is.
    ProbeSource,
    /// Take a snapshot of a destination.
    Snapshot(String),
    /// Ask whether the selection is still current.
    PollGate,
    /// Draw a nonce.
    DrawNonce,
    /// Upload the payload to a path.
    Upload(String),
    /// Ask for the time of a path.
    Time(String),
    /// Ask for the claim.
    Claim,
    /// Rename the first path to the second.
    Rename(String, String),
    /// Give the claim back.
    Release,
    /// Remove a path, whether or not that succeeds.
    Remove(String),
    Done,
}

/// What a guarded upload asks for.
pub enum ActionView {
    ProbeSource,
    Snapshot(Seq<char>),
    PollGate,
    DrawNonce,
    Upload(Seq<char>),
    Time(Seq<char>),
    Claim,
    Rename(Seq<char>, Seq<char>),
    Release,
    Remove(Seq<char>),
    Done,
}

impl View for UploadAction {
    type V = ActionView;

    open spec fn view(&self) -> ActionView {
        match self {
            UploadAction::ProbeSource => ActionView::ProbeSource,
            UploadAction::Snapshot(path) => ActionView::Snapshot(path@),
            UploadAction::PollGate => ActionView::PollGate,
            UploadAction::DrawNonce => ActionView::DrawNonce,
            UploadAction::Upload(path) => ActionView::Upload(path@),
            UploadAction::Time(path) => ActionView::Time(path@),
            UploadAction::Claim => ActionView::Claim,
            UploadAction::Rename(from, to) => ActionView::Rename(from@, to@),
            UploadAction::Release => ActionView::Release,
            UploadAction::Remove(path) => ActionView::Remove(path@),
            UploadAction::Done => ActionView::Done,
        }
    }
}

/// What a guarded upload asks for in its phase.
pub open spec fn upload_action(u: UploadView) -> ActionView {
    match u.phase {
        UploadPhase::CheckSource => ActionView::ProbeSource,
        UploadPhase::CheckDestination => ActionView::Snapshot(u.request.remote_path),
        UploadPhase::PollGate => ActionView::PollGate,
        UploadPhase::Draw => ActionView::DrawNonce,
        UploadPhase::Reserve => ActionView::Snapshot(u.temp),
        UploadPhase::Upload => ActionView::Upload(u.temp),
        UploadPhase::Inspect => ActionView::Snapshot(u.temp),
        UploadPhase::Time => ActionView::Time(u.temp),
        UploadPhase::Claim => ActionView::Claim,
        UploadPhase::ClaimSource => ActionView::ProbeSource,
        UploadPhase::ClaimDestination => ActionView::Snapshot(u.request.remote_path),
        UploadPhase::ClaimTemp => ActionView::Snapshot(u.temp),
        UploadPhase::ClaimTime => ActionView::Time(u.temp),
        UploadPhase::Rename => ActionView::Rename(u.temp, u.request.remote_path),
        UploadPhase::Release => ActionView::Release,
        UploadPhase::CleanupLook => ActionView::Snapshot(u.temp),
        UploadPhase::CleanupRemove => ActionView::Remove(u.temp),
        UploadPhase::Done => ActionView::Done,
    }
}

impl GuardedUpload {
    /// Starts the upload of `bytes`.
    pub fn upload_one_guarded(
        rel: &str,
        remote_path: &str,
        bytes: &Vec<u8>,
        hash: &str,
        source: ExpectedLocalSource,
        destination: RemoteDestinationSnapshot,
        mode: ExecutionMode,
    ) -> (out: GuardedUpload)
        ensures
            out@ == upload_start(
                RequestView {
                    rel: rel@,
                    remote_path: remote_path@,
                    size: bytes@.len() as u64,
                    hash: hash@,
                    source: source.snapshot@,
                    destination: destination@,
                },
                bytes@,
                mode,
            ),
    {
        let request = UploadRequest {
            rel: rel.to_owned(),
            remote_path: remote_path.to_owned(),
            size: bytes.len() as u64,
            hash: hash.to_owned(),
            source,
            destination,
        };
        let temp = String::new();
        assert(temp@ =~= Seq::<char>::empty());
        let mut upload = GuardedUpload {
            request,
            phase: UploadPhase::CheckSource,
            attempts: 0,
            temp,
            temp_snapshot: RemoteDestinationSnapshot::Missing,
            modified: Timestamp { secs: 0, nanos: 0 },
            renamed: false,
            decision: CommitDecision::Committed,
            failure: None,
        };
        if mode == ExecutionMode::DryRun {
            upload.phase = UploadPhase::Done;
        } else {
            let payload = hash::hash_bytes(bytes);
            if !text::same(&payload, hash) {
                upload.fail(
                    UploadPhase::Done,
                    Error::failure(text::cat("local payload changed before guarded upload ", rel)),
                );
            }
        }
        upload
    }

    /// Enters a phase with a failure.
    fn fail(&mut self, phase: UploadPhase, failure: Error)
        ensures
            final(self)@ == old(self)@.failed(phase, failure@),
    {
        self.phase = phase;
        self.failure = Some(failure);
    }

    /// What the upload asks for.
    pub fn action(&self) -> (out: UploadAction)
        ensures
            out@ == upload_action(self@),
    {
        match self.phase {
            UploadPhase::CheckSource => UploadAction::ProbeSource,
            UploadPhase::CheckDestination => UploadAction::Snapshot(
                self.request.remote_path.clone(),
            ),
            UploadPhase::PollGate => UploadAction::PollGate,
            UploadPhase::Draw => UploadAction::DrawNonce,
            UploadPhase::Reserve => UploadAction::Snapshot(self.temp.clone()),
            UploadPhase::Upload => UploadAction::Upload(self.temp.clone()),
            UploadPhase::Inspect => UploadAction::Snapshot(self.temp.clone()),
            UploadPhase::Time => UploadAction::Time(self.temp.clone()),
            UploadPhase::Claim => UploadAction::Claim,
            UploadPhase::ClaimSource => UploadAction::ProbeSource,
            UploadPhase::ClaimDestination => UploadAction::Snapshot(
                self.request.remote_path.clone(),
            ),
            UploadPhase::ClaimTemp => UploadAction::Snapshot(self.temp.clone()),
            UploadPhase::ClaimTime => UploadAction::Time(self.temp.clone()),
            UploadPhase::Rename => UploadAction::Rename(
                self.temp.clone(),
                self.request.remote_path.clone(),
            ),
            UploadPhase::Release => UploadAction::Release,
            UploadPhase::CleanupLook => UploadAction::Snapshot(self.temp.clone()),
            UploadPhase::CleanupRemove => UploadAction::Remove(self.temp.clone()),
            UploadPhase::Done => UploadAction::Done,
        }
    }

    /// Takes a probe of the source.
    pub fn on_probe(&mut self, probe: PathProbe)
        ensures
            final(self)@ == upload_step(old(self)@, UploadReply::Probe(probe)),
    {
        match self.phase {
            UploadPhase::CheckSource => match self.request.source.verify_unchanged(
                &self.request.hash,
                probe,
            ) {
                Err(e) => self.fail(UploadPhase::Done, e),
                Ok(_) => {
                    self.phase = UploadPhase::CheckDestination;
                },
            },
            UploadPhase::ClaimSource => match self.request.source.verify_unchanged(
                &self.request.hash,
                probe,
            ) {
                Err(e) => self.fail(UploadPhase::Release, e),
                Ok(_) => {
                    self.phase = UploadPhase::ClaimDestination;
                },
            },
            _ => {},
        }
    }

    /// Takes a snapshot of the destination or of the temporary file.
    pub fn on_snapshot(&mut self, reply: Result<RemoteDestinationSnapshot, Error>)
        ensures
            final(self)@ == upload_step(old(self)@, UploadReply::Snapshot(seen(reply))),
    {
        match self.phase {
            UploadPhase::CheckDestination => match self.request.verify_remote_destination(reply) {
                Err(e) => self.fail(UploadPhase::Done, e),
                Ok(_) => {
                    self.phase = UploadPhase::PollGate;
                },
            },
            UploadPhase::Reserve => match reply {
                Err(e) => self.fail(UploadPhase::Done, e),
                Ok(RemoteDestinationSnapshot::Missing) => {
                    self.phase = UploadPhase::Upload;
                },
                Ok(_) => {
                    if self.attempts < MAX_REMOTE_TEMP_CANDIDATES - 1 {
                        self.attempts = self.attempts + 1;
                        self.phase = UploadPhase::Draw;
                    } else {
                        self.fail(
                            UploadPhase::Done,
                            Error::failure(
                                "unable to reserve a unique remote transfer temp".to_owned(),
                            ),
                        );
                    }
                },
            },
            UploadPhase::Inspect => match reply {
                Err(cause) => {
                    let failure = Error::failure_from(
                        text::cat("capturing remote temp ", &text::debug_of(&self.temp)),
                        &cause.full_message(),
                    );
                    self.fail(UploadPhase::CleanupLook, failure);
                },
                Ok(snapshot) => {
                    if self.request.matches_snapshot(&snapshot) {
                        self.temp_snapshot = snapshot;
                        self.phase = UploadPhase::Time;
                    } else {
                        let failure = Error::failure(
                            text::cat(
                                "remote temp changed while staging at ",
                                &text::debug_of(&self.temp),
                            ),
                        );
                        self.fail(UploadPhase::Done, failure);
                    }
                },
            },
            UploadPhase::ClaimDestination => match self.request.verify_remote_destination(reply) {
                Err(e) => self.fail(UploadPhase::Release, e),
                Ok(_) => {
                    self.phase = UploadPhase::ClaimTemp;
                },
            },
            UploadPhase::ClaimTemp => match reply {
                Err(e) => self.fail(UploadPhase::Release, e),
                Ok(snapshot) => {
                    if snapshot.same(&self.temp_snapshot) {
                        self.phase = UploadPhase::ClaimTime;
                    } else {
                        let failure = Error::failure(
                            text::cat(
                                "remote temp changed before commit at ",
                                &text::debug_of(&self.temp),
                            ),
                        );
                        self.fail(UploadPhase::Release, failure);
                    }
                },
            },
            UploadPhase::CleanupLook => {
                let ours = match &reply {
                    Err(_) => false,
                    Ok(snapshot) => match &self.temp_snapshot {
                        RemoteDestinationSnapshot::Missing => self.request.matches_snapshot(
                            snapshot,
                        ),
                        taken => snapshot.same(taken),
                    },
                };
                self.phase = if ours {
                    UploadPhase::CleanupRemove
                } else {
                    UploadPhase::Done
                };
            },
            _ => {},
        }
    }

    /// Takes the answer whether the selection is still current.
    pub fn on_gate(&mut self, current: bool)
        ensures
            final(self)@ == upload_step(old(self)@, UploadReply::Gate(current)),
    {
        match self.phase {
            UploadPhase::PollGate => {
                if current {
                    self.phase = UploadPhase::Draw;
                } else {
                    self.decision = CommitDecision::Cancelled;
                    self.phase = UploadPhase::Done;
                }
            },
            _ => {},
        }
    }

    /// Takes a nonce for the name of the temporary file.
    pub fn on_nonce(&mut self, nonce: &str)
        ensures
            final(self)@ == upload_step(old(self)@, UploadReply::Nonce(nonce@)),
    {
        match self.phase {
            UploadPhase::Draw => match transfer_temp::transfer_candidate(
                &self.request.remote_path,
                nonce,
            ) {
                Err(e) => self.fail(UploadPhase::Done, e),
                Ok(temp) => {
                    self.temp = temp;
                    self.phase = UploadPhase::Reserve;
                },
            },
            _ => {},
        }
    }

    /// Takes what came of the upload to the temporary file.
    pub fn on_uploaded(&mut self, reply: Result<(), Error>)
        ensures
            final(self)@ == upload_step(old(self)@, UploadReply::Uploaded(reported(reply))),
    {
        match self.phase {
            UploadPhase::Upload => match reply {
                Err(cause) => {
                    let failure = Error::failure_from(
                        text::cat("uploading temp ", &self.temp),
                        &cause.full_message(),
                    );
                    self.fail(UploadPhase::CleanupLook, failure);
                },
                Ok(_) => {
                    self.phase = UploadPhase::Inspect;
                },
            },
            _ => {},
        }
    }

    /// Takes the time of the temporary file.
    pub fn on_time(&mut self, reply: Result<Timestamp, Error>)
        ensures
            final(self)@ == upload_step(old(self)@, UploadReply::Time(reported(reply))),
    {
        match self.phase {
            UploadPhase::Time => match reply {
                Err(cause) => {
                    let failure = self.time_error(&cause);
                    self.fail(UploadPhase::CleanupLook, failure);
                },
                Ok(modified) => {
                    self.modified = modified;
                    self.phase = UploadPhase::Claim;
                },
            },
            UploadPhase::ClaimTime => match reply {
                Err(cause) => {
                    let failure = self.time_error(&cause);
                    self.fail(UploadPhase::Release, failure);
                },
                Ok(modified) => {
                    if modified == self.modified {
                        self.phase = UploadPhase::Rename;
                    } else {
                        let failure = Error::failure(
                            text::cat(
                                "remote temp mtime changed before commit at ",
                                &text::debug_of(&self.temp),
                            ),
                        );
                        self.fail(UploadPhase::Release, failure);
                    }
                },
            },
            _ => {},
        }
    }

    /// A time that could not be had.
    fn time_error(&self, cause: &Error) -> (out: Error)
        ensures
            out@ == time_failure(self@.temp, cause@),
    {
        Error::failure_from(
            text::cat("fetching exact mtime for remote temp ", &text::debug_of(&self.temp)),
            &cause.full_message(),
        )
    }

    /// Takes the answer to the claim.
    pub fn on_claim(&mut self, reply: ClaimReply)
        ensures
            final(self)@ == upload_step(old(self)@, UploadReply::Claimed(claimed(reply))),
    {
        match self.phase {
            UploadPhase::Claim => match reply {
                ClaimReply::Granted => {
                    self.phase = UploadPhase::ClaimSource;
                },
                ClaimReply::Cancelled => {
                    self.decision = CommitDecision::Cancelled;
                    self.phase = UploadPhase::CleanupLook;
                },
                ClaimReply::Failed(e) => self.fail(UploadPhase::CleanupLook, e),
            },
            _ => {},
        }
    }

    /// Takes what came of the renaming. A renaming that succeeded is remembered.
    pub fn on_renamed(&mut self, reply: Result<(), Error>, state: &mut StateFile, now: Timestamp)
        requires
            old(state).wf(),
        ensures
            final(self)@ == upload_step(old(self)@, UploadReply::Renamed(reported(reply))),
            final(state).wf(),
            if old(self).phase == UploadPhase::Rename && reply is Ok {
                state::recorded(
                    old(state).files@,
                    final(state).files@,
                    old(self)@.request.rel,
                    old(self)@.request.hash,
                    old(self)@.request.size,
                    old(self)@.modified,
                    now,
                )
            } else {
                *final(state) == *old(state)
            },
    {
        match self.phase {
            UploadPhase::Rename => match reply {
                Err(cause) => {
                    let failure = Error::failure_from(
                        text::cat4(
                            "renaming ",
                            &self.temp,
                            " -> ",
                            &self.request.remote_path,
                        ),
                        &cause.full_message(),
                    );
                    self.fail(UploadPhase::Release, failure);
                },
                Ok(_) => {
                    state.record(
                        &self.request.rel,
                        &self.request.hash,
                        self.request.size,
                        self.modified,
                        now,
                    );
                    self.renamed = true;
                    self.phase = UploadPhase::Release;
                },
            },
            _ => {},
        }
    }

    /// Takes that the claim was given back.
    pub fn on_released(&mut self)
        ensures
            final(self)@ == upload_step(old(self)@, UploadReply::Released),
    {
        match self.phase {
            UploadPhase::Release => {
                self.phase = if self.renamed {
                    UploadPhase::Done
                } else {
                    UploadPhase::CleanupLook
                };
            },
            _ => {},
        }
    }

    /// Takes that the removal was tried.
    pub fn on_removed(&mut self)
        ensures
            final(self)@ == upload_step(old(self)@, UploadReply::Removed),
    {
        match self.phase {
            UploadPhase::CleanupRemove => {
                self.phase = UploadPhase::Done;
            },
            _ => {},
        }
    }

    /// What the upload ended in: its failure, or whether it was made.
    pub fn outcome(self) -> (out: Result<CommitDecision, Error>)
        ensures
            error::settles(
                out,
                match self@.failure {
                    Some(e) => Err(e),
                    None => Ok(self@.decision),
                },
            ),
    {
        match self.failure {
            Some(e) => Err(e),
            None => Ok(self.decision),
        }
    }
}

/// Where a sequence of replies leads a guarded upload.
pub open spec fn upload_run(start: UploadView, replies: Seq<UploadReply>) -> UploadView
    decreases replies.len(),
{
    if replies.len() == 0 {
        start
    } else {
        upload_step(upload_run(start, replies.drop_last()), replies.last())
    }
}

/// Whether the reply at a position was taken in the given phase.
pub open spec fn taken_in(
    start: UploadView,
    replies: Seq<UploadReply>,
    i: int,
    phase: UploadPhase,
) -> bool {
    0 <= i < replies.len() && upload_run(start, replies.take(i)).phase == phase
}

/// Whether a claim was granted.
pub open spec fn claim_granted(start: UploadView, replies: Seq<UploadReply>) -> bool {
    exists|i: int| #[trigger]
        taken_in(start, replies, i, UploadPhase::Claim) && replies[i] == UploadReply::Claimed(
            Ok(CommitDecision::Committed),
        )
}

/// Whether a reply shows the source of a request unchanged.
pub open spec fn confirms_source(request: RequestView, reply: UploadReply) -> bool {
    match reply {
        UploadReply::Probe(probe) => source_unchanged(request.source, request.hash, probe) is Ok,
        _ => false,
    }
}

/// Whether a reply proves the temporary file to be the one that was uploaded.
pub open spec fn shows_ours(u: UploadView, reply: UploadReply) -> bool {
    match reply {
        UploadReply::Snapshot(seen) => is_ours(u, seen),
        _ => false,
    }
}

/// Whether the source was seen unchanged inside the claim.
pub open spec fn source_confirmed(start: UploadView, replies: Seq<UploadReply>) -> bool {
    exists|i: int| #[trigger]
        taken_in(start, replies, i, UploadPhase::ClaimSource) && confirms_source(
            start.request,
            replies[i],
        )
}

/// Whether the destination was seen unchanged inside the claim.
pub open spec fn destination_confirmed(start: UploadView, replies: Seq<UploadReply>) -> bool {
    exists|i: int| #[trigger]
        taken_in(start, replies, i, UploadPhase::ClaimDestination) && replies[i]
            == UploadReply::Snapshot(Ok(start.request.destination))
}

/// Whether the temporary file was seen inside the claim as it was staged, with
/// the bytes of the request.
pub open spec fn temp_confirmed(start: UploadView, replies: Seq<UploadReply>) -> bool {
    exists|i: int| #[trigger]
        taken_in(start, replies, i, UploadPhase::ClaimTemp) && replies[i] == UploadReply::Snapshot(
            Ok(upload_run(start, replies.take(i)).temp_snapshot),
        ) && intended(start.request, upload_run(start, replies.take(i)).temp_snapshot)
}

/// Whether the time of the temporary file was seen unchanged inside the claim.
pub open spec fn time_confirmed(start: UploadView, replies: Seq<UploadReply>) -> bool {
    exists|i: int| #[trigger]
        taken_in(start, replies, i, UploadPhase::ClaimTime) && replies[i] == UploadReply::Time(
            Ok(upload_run(start, replies.take(i)).modified),
        )
}

/// Whether a phase lies inside the claim.
pub open spec fn in_claim(phase: UploadPhase) -> bool {
    phase == UploadPhase::ClaimSource || phase == UploadPhase::ClaimDestination || phase
        == UploadPhase::ClaimTemp || phase == UploadPhase::ClaimTime || phase == UploadPhase::Rename
}

/// Whether the staged bytes have been seen to be the right ones.
pub open spec fn staged(u: UploadView) -> bool {
    intended(u.request, u.temp_snapshot)
}

/// Whether a guarded upload has seen the right bytes staged wherever it counts
/// on them.
pub open spec fn counts_on_staged(u: UploadView) -> bool {
    &&& u.temp_snapshot is Missing || staged(u)
    &&& u.phase == UploadPhase::Time || u.phase == UploadPhase::Claim || in_claim(u.phase)
        ==> staged(u)
}

proof fn upload_step_keeps(u: UploadView, reply: UploadReply)
    requires
        counts_on_staged(u),
    ensures
        upload_step(u, reply).request == u.request,
        counts_on_staged(upload_step(u, reply)),
{
    match reply {
        UploadReply::Snapshot(seen) => {
            match u.phase {
                UploadPhase::Inspect => {},
                UploadPhase::ClaimTemp => {},
                _ => {},
            }
        },
        UploadReply::Time(_) => {},
        UploadReply::Claimed(_) => {},
        _ => {},
    }
}

proof fn upload_run_keeps(start: UploadView, replies: Seq<UploadReply>)
    requires
        counts_on_staged(start),
    ensures
        upload_run(start, replies).request == start.request,
        counts_on_staged(upload_run(start, replies)),
    decreases replies.len(),
{
    if replies.len() > 0 {
        upload_run_keeps(start, replies.drop_last());
        upload_step_keeps(upload_run(start, replies.drop_last()), replies.last());
    }
}

proof fn taken_in_longer(
    start: UploadView,
    replies: Seq<UploadReply>,
    i: int,
    phase: UploadPhase,
)
    requires
        replies.len() > 0,
        taken_in(start, replies.drop_last(), i, phase),
    ensures
        taken_in(start, replies, i, phase),
        replies[i] == replies.drop_last()[i],
        replies.take(i) == replies.drop_last().take(i),
{
    assert(replies.take(i) =~= replies.drop_last().take(i));
}

proof fn confirmations_last(start: UploadView, replies: Seq<UploadReply>)
    requires
        replies.len() > 0,
    ensures
        claim_granted(start, replies.drop_last()) ==> claim_granted(start, replies),
        source_confirmed(start, replies.drop_last()) ==> source_confirmed(start, replies),
        destination_confirmed(start, replies.drop_last()) ==> destination_confirmed(start, replies),
        temp_confirmed(start, replies.drop_last()) ==> temp_confirmed(start, replies),
        time_confirmed(start, replies.drop_last()) ==> time_confirmed(start, replies),
{
    let before = replies.drop_last();
    if claim_granted(start, before) {
        let i = choose|i: int| #[trigger]
            taken_in(start, before, i, UploadPhase::Claim) && before[i] == UploadReply::Claimed(
                Ok(CommitDecision::Committed),
            );
        taken_in_longer(start, replies, i, UploadPhase::Claim);
    }
    if source_confirmed(start, before) {
        let i = choose|i: int| #[trigger]
            taken_in(start, before, i, UploadPhase::ClaimSource) && confirms_source(
                start.request,
                before[i],
            );
        taken_in_longer(start, replies, i, UploadPhase::ClaimSource);
    }
    if destination_confirmed(start, before) {
        let i = choose|i: int| #[trigger]
            taken_in(start, before, i, UploadPhase::ClaimDestination) && before[i]
                == UploadReply::Snapshot(Ok(start.request.destination));
        taken_in_longer(start, replies, i, UploadPhase::ClaimDestination);
    }
    if temp_confirmed(start, before) {
        let i = choose|i: int| #[trigger]
            taken_in(start, before, i, UploadPhase::ClaimTemp) && before[i]
                == UploadReply::Snapshot(Ok(upload_run(start, before.take(i)).temp_snapshot))
                && intended(start.request, upload_run(start, before.take(i)).temp_snapshot);
        taken_in_longer(start, replies, i, UploadPhase::ClaimTemp);
    }
    if time_confirmed(start, before) {
        let i = choose|i: int| #[trigger]
            taken_in(start, before, i, UploadPhase::ClaimTime) && before[i] == UploadReply::Time(
                Ok(upload_run(start, before.take(i)).modified),
            );
        taken_in_longer(start, replies, i, UploadPhase::ClaimTime);
    }
}

/// Each phase inside the claim is entered from the one before it, by the reply
/// that confirms what that one asks.
pub proof fn claim_advances_by_confirmation(u: UploadView, reply: UploadReply)
    ensures
        upload_step(u, reply).phase == UploadPhase::ClaimSource && u.phase
            != UploadPhase::ClaimSource ==> u.phase == UploadPhase::Claim && reply
            == UploadReply::Claimed(Ok(CommitDecision::Committed)),
        upload_step(u, reply).phase == UploadPhase::ClaimDestination && u.phase
            != UploadPhase::ClaimDestination ==> u.phase == UploadPhase::ClaimSource
            && confirms_source(u.request, reply),
        upload_step(u, reply).phase == UploadPhase::ClaimTemp && u.phase != UploadPhase::ClaimTemp
            ==> u.phase == UploadPhase::ClaimDestination && reply == UploadReply::Snapshot(
            Ok(u.request.destination),
        ),
        upload_step(u, reply).phase == UploadPhase::ClaimTime && u.phase != UploadPhase::ClaimTime
            ==> u.phase == UploadPhase::ClaimTemp && reply == UploadReply::Snapshot(
            Ok(u.temp_snapshot),
        ),
        upload_step(u, reply).phase == UploadPhase::Rename && u.phase != UploadPhase::Rename
            ==> u.phase == UploadPhase::ClaimTime && reply == UploadReply::Time(Ok(u.modified)),
{
    match reply {
        UploadReply::Probe(_) => {},
        UploadReply::Snapshot(_) => {},
        UploadReply::Time(_) => {},
        UploadReply::Claimed(_) => {},
        _ => {},
    }
}

/// What the confirmations of a run come to once one more reply is taken.
proof fn confirmation_is_added(start: UploadView, replies: Seq<UploadReply>, next: UploadPhase)
    requires
        replies.len() > 0,
        ({
            let u = upload_run(start, replies.drop_last());
            let reply = replies.last();
            &&& u.request == start.request
            &&& counts_on_staged(u)
            &&& collected(start, replies.drop_last(), u.phase)
            &&& next == UploadPhase::ClaimSource && u.phase != next ==> u.phase
                == UploadPhase::Claim && reply == UploadReply::Claimed(
                Ok(CommitDecision::Committed),
            )
            &&& next == UploadPhase::ClaimDestination && u.phase != next ==> u.phase
                == UploadPhase::ClaimSource && confirms_source(u.request, reply)
            &&& next == UploadPhase::ClaimTemp && u.phase != next ==> u.phase
                == UploadPhase::ClaimDestination && reply == UploadReply::Snapshot(
                Ok(u.request.destination),
            )
            &&& next == UploadPhase::ClaimTime && u.phase != next ==> u.phase
                == UploadPhase::ClaimTemp && reply == UploadReply::Snapshot(Ok(u.temp_snapshot))
            &&& next == UploadPhase::Rename && u.phase != next ==> u.phase
                == UploadPhase::ClaimTime && reply == UploadReply::Time(Ok(u.modified))
        }),
    ensures
        collected(start, replies, next),
{
    let before = replies.drop_last();
    let last = replies.len() - 1;
    confirmations_last(start, replies);
    assert(replies.take(last) =~= before);
    assert(taken_in(start, replies, last, upload_run(start, before).phase));
}

/// The confirmations that a phase inside the claim rests on.
pub open spec fn collected(
    start: UploadView,
    replies: Seq<UploadReply>,
    phase: UploadPhase,
) -> bool {
    &&& in_claim(phase) ==> claim_granted(start, replies)
    &&& in_claim(phase) && phase != UploadPhase::ClaimSource ==> source_confirmed(start, replies)
    &&& phase == UploadPhase::ClaimTemp || phase == UploadPhase::ClaimTime || phase
        == UploadPhase::Rename ==> destination_confirmed(start, replies)
    &&& phase == UploadPhase::ClaimTime || phase == UploadPhase::Rename ==> temp_confirmed(
        start,
        replies,
    )
    &&& phase == UploadPhase::Rename ==> time_confirmed(start, replies)
}

proof fn claim_collects_confirmations(start: UploadView, replies: Seq<UploadReply>)
    requires
        start.phase == UploadPhase::CheckSource || start.phase == UploadPhase::Done,
        start.temp_snapshot is Missing,
    ensures
        collected(start, replies, upload_run(start, replies).phase),
    decreases replies.len(),
{
    if replies.len() > 0 {
        let before = replies.drop_last();
        claim_collects_confirmations(start, before);
        upload_run_keeps(start, before);
        claim_advances_by_confirmation(upload_run(start, before), replies.last());
        confirmation_is_added(start, replies, upload_run(start, replies).phase);
    }
}

/// A guarded upload renames only inside a granted claim, after the source, the
/// destination, the staged bytes and their time were all seen unchanged inside
/// that claim.
pub proof fn rename_needs_every_confirmation(
    request: RequestView,
    bytes: Seq<u8>,
    mode: ExecutionMode,
    replies: Seq<UploadReply>,
)
    requires
        upload_run(upload_start(request, bytes, mode), replies).phase == UploadPhase::Rename,
    ensures
        claim_granted(upload_start(request, bytes, mode), replies),
        source_confirmed(upload_start(request, bytes, mode), replies),
        destination_confirmed(upload_start(request, bytes, mode), replies),
        temp_confirmed(upload_start(request, bytes, mode), replies),
        time_confirmed(upload_start(request, bytes, mode), replies),
{
    claim_collects_confirmations(upload_start(request, bytes, mode), replies);
}

/// A guarded upload removes a file only once it was seen to be the one it
/// uploaded, and uploads only to a name at which nothing was seen.
pub proof fn cleanup_and_staging_are_proved(u: UploadView, reply: UploadReply)
    ensures
        upload_step(u, reply).phase == UploadPhase::CleanupRemove && u.phase
            != UploadPhase::CleanupRemove ==> shows_ours(u, reply),
        upload_step(u, reply).phase == UploadPhase::Upload && u.phase != UploadPhase::Upload
            ==> u.phase == UploadPhase::Reserve && reply == UploadReply::Snapshot(
            Ok(SnapshotView::Missing),
        ),
{
}

/// A run that changes nothing ends before it asks for anything.
pub proof fn dry_upload_asks_for_nothing(request: RequestView, bytes: Seq<u8>)
    ensures
        upload_action(upload_start(request, bytes, ExecutionMode::DryRun)) == ActionView::Done,
        upload_start(request, bytes, ExecutionMode::DryRun).failure is None,
        upload_start(request, bytes, ExecutionMode::DryRun).decision == CommitDecision::Committed,
{
}

/// Whether a guarded upload has a name for its temporary file.
pub open spec fn has_temp(phase: UploadPhase) -> bool {
    !(phase == UploadPhase::CheckSource || phase == UploadPhase::CheckDestination || phase
        == UploadPhase::PollGate || phase == UploadPhase::Draw || phase == UploadPhase::Done)
}

proof fn candidate_is_longer(path: Seq<char>, nonce: Seq<char>)
    requires
        transfer_temp::candidate_of(path, nonce) is Ok,
    ensures
        transfer_temp::candidate_of(path, nonce)->Ok_0.len() > path.len(),
{
    text::last_slash_bounds(path);
}

/// Whatever a guarded upload writes, renames or removes before it is done is a
/// reserved name that is not the destination.
pub proof fn temp_is_reserved_and_apart(u: UploadView, reply: UploadReply)
    requires
        has_temp(u.phase) ==> transfer_temp::reserved(u.temp) && u.temp != u.request.remote_path,
    ensures
        ({
            let next = upload_step(u, reply);
            has_temp(next.phase) ==> transfer_temp::reserved(next.temp) && next.temp
                != next.request.remote_path
        }),
{
    if u.phase == UploadPhase::Draw {
        if let UploadReply::Nonce(nonce) = reply {
            if transfer_temp::candidate_of(u.request.remote_path, nonce) is Ok {
                transfer_temp::candidate_is_reserved(u.request.remote_path, nonce);
                candidate_is_longer(u.request.remote_path, nonce);
            }
        }
    }
}

/// A guarded upload that failed or was cancelled did not rename anything.
pub proof fn failed_upload_renamed_nothing(
    request: RequestView,
    bytes: Seq<u8>,
    mode: ExecutionMode,
    replies: Seq<UploadReply>,
)
    ensures
        ({
            let u = upload_run(upload_start(request, bytes, mode), replies);
            u.renamed ==> u.failure is None && u.decision == CommitDecision::Committed
        }),
{
    upload_outcome_is_consistent(upload_start(request, bytes, mode), replies);
}

proof fn upload_outcome_is_consistent(start: UploadView, replies: Seq<UploadReply>)
    requires
        start.phase == UploadPhase::CheckSource || start.phase == UploadPhase::Done,
        start.phase == UploadPhase::CheckSource ==> start.failure is None,
        start.decision == CommitDecision::Committed,
        !start.renamed,
    ensures
        ({
            let u = upload_run(start, replies);
            &&& u.renamed ==> u.failure is None && u.decision == CommitDecision::Committed
            &&& u.renamed ==> u.phase == UploadPhase::Release || u.phase == UploadPhase::Done
            &&& u.phase != UploadPhase::Done && u.phase != UploadPhase::Release && u.phase
                != UploadPhase::CleanupLook && u.phase != UploadPhase::CleanupRemove
                ==> u.failure is None && u.decision == CommitDecision::Committed && !u.renamed
        }),
    decreases replies.len(),
{
    if replies.len() > 0 {
        upload_outcome_is_consistent(start, replies.drop_last());
    }
}

/// Whether a guarded upload that ends well, having committed, has renamed its file
/// into place.
pub open spec fn commits_by_renaming(u: UploadView) -> bool {
    u.phase == UploadPhase::Done || u.phase == UploadPhase::Release || u.phase
        == UploadPhase::CleanupLook || u.phase == UploadPhase::CleanupRemove
        ==> u.failure is Some || u.decision == CommitDecision::Cancelled || u.renamed
}

/// Whether the reply at a position is that of a rename that succeeded.
pub open spec fn rename_made(start: UploadView, replies: Seq<UploadReply>, i: int) -> bool {
    &&& taken_in(start, replies, i, UploadPhase::Rename)
    &&& replies[i] matches UploadReply::Renamed(reply) && reply is Ok
}

/// A guarded upload that applies changes and ends with neither a failure nor a
/// cancellation has renamed its file into place, by a rename that succeeded.
pub proof fn committed_upload_was_renamed(
    request: RequestView,
    bytes: Seq<u8>,
    replies: Seq<UploadReply>,
)
    ensures
        ({
            let start = upload_start(request, bytes, ExecutionMode::Apply);
            let u = upload_run(start, replies);
            u.phase == UploadPhase::Done && u.failure is None && u.decision
                == CommitDecision::Committed ==> {
                &&& u.renamed
                &&& exists|i: int| rename_made(start, replies, i)
            }
        }),
{
    upload_run_commits_by_renaming(upload_start(request, bytes, ExecutionMode::Apply), replies);
}

proof fn upload_step_commits_by_renaming(u: UploadView, reply: UploadReply)
    requires
        commits_by_renaming(u),
    ensures
        commits_by_renaming(upload_step(u, reply)),
        upload_step(u, reply).renamed && !u.renamed ==> {
            &&& u.phase == UploadPhase::Rename
            &&& reply matches UploadReply::Renamed(made) && made is Ok
        },
        u.renamed ==> upload_step(u, reply).renamed,
{
}

proof fn upload_run_commits_by_renaming(start: UploadView, replies: Seq<UploadReply>)
    requires
        commits_by_renaming(start),
        !start.renamed,
    ensures
        commits_by_renaming(upload_run(start, replies)),
        upload_run(start, replies).renamed ==> exists|i: int| rename_made(start, replies, i),
    decreases replies.len(),
{
    if replies.len() > 0 {
        let fewer = replies.drop_last();
        let last = replies.len() - 1;
        upload_run_commits_by_renaming(start, fewer);
        upload_step_commits_by_renaming(upload_run(start, fewer), replies.last());
        assert(replies.take(last) =~= fewer);
        if upload_run(start, fewer).renamed {
            let i = choose|i: int| rename_made(start, fewer, i);
            taken_in_longer(start, replies, i, UploadPhase::Rename);
            assert(rename_made(start, replies, i));
        } else if upload_run(start, replies).renamed {
            assert(rename_made(start, replies, last));
        }
    }
}

/// The path that the segments of a directory build, its empty segments left out.
pub open spec fn rebuilt(absolute: bool, segments: Seq<Seq<char>>) -> Seq<char>
    decreases segments.len(),
{
    if segments.len() == 0 {
        Seq::empty()
    } else {
        let before = rebuilt(absolute, segments.drop_last());
        if segments.last().len() == 0 {
            before
        } else if absolute || before.len() > 0 {
            before + paths::slash() + segments.last()
        } else {
            segments.last()
        }
    }
}

/// The directories from the topmost one down to the one that the segments build.
pub open spec fn ancestry(absolute: bool, segments: Seq<Seq<char>>) -> Seq<Seq<char>>
    decreases segments.len(),
{
    if segments.len() == 0 {
        Seq::empty()
    } else if segments.last().len() == 0 {
        ancestry(absolute, segments.drop_last())
    } else {
        ancestry(absolute, segments.drop_last()).push(rebuilt(absolute, segments))
    }
}

/// The directories that must be there before a file can be put at `path`, from
/// the topmost one down.
pub open spec fn parents(path: Seq<char>) -> Seq<Seq<char>> {
    match text::split_last(path) {
        None => Seq::empty(),
        Some((directory, _)) => if directory.len() == 0 {
            Seq::empty()
        } else {
            ancestry(paths::slash().is_prefix_of(directory), text::segments(directory))
        },
    }
}

/// The directories that must be there before a file can be put at `path`.
pub fn remote_parents(path: &str) -> (out: Vec<String>)
    ensures
        text::views(out@) == parents(path@),
{
    let mut out: Vec<String> = Vec::new();
    let directory = match text::rsplit_slash(path) {
        None => {
            assert(text::views(out@) =~= Seq::<Seq<char>>::empty());
            return out;
        },
        Some((directory, _)) => directory,
    };
    if directory.as_str().unicode_len() == 0 {
        assert(text::views(out@) =~= Seq::<Seq<char>>::empty());
        return out;
    }
    let mut separator = String::new();
    separator.push('/');
    assert(separator@ =~= paths::slash());
    let absolute = text::starts_with(&directory, &separator);
    let segments = text::split_slashes(&directory);
    let ghost all = text::views(segments@);
    let mut built = String::new();
    let mut i: usize = 0;
    assert(built@ =~= rebuilt(absolute, all.take(0)));
    assert(text::views(out@) =~= ancestry(absolute, all.take(0)));
    while i < segments.len()
        invariant
            i <= segments@.len(),
            all == text::views(segments@),
            built@ == rebuilt(absolute, all.take(i as int)),
            text::views(out@) == ancestry(absolute, all.take(i as int)),
        decreases segments.len() - i,
    {
        let ghost before = text::views(out@);
        let ghost built_before = built@;
        assert(all.take(i + 1).drop_last() =~= all.take(i as int));
        assert(all.take(i + 1).last() == segments@[i as int]@);
        if segments[i].as_str().unicode_len() > 0 {
            if absolute || built.as_str().unicode_len() > 0 {
                built.push('/');
                assert(built@ =~= built_before + paths::slash());
                built.append(&segments[i]);
            } else {
                built = segments[i].clone();
            }
            let directory_path = built.clone();
            out.push(directory_path);
            assert(text::views(out@) =~= before.push(built@));
        }
        i += 1;
    }
    assert(all.take(i as int) =~= all);
    out
}

/// How far a plain upload has come.
#[derive(Debug, Clone, Copy, PartialEq, Eq, Structural)]
pub enum PlainPhase {
    /// Create the next directory that must be there.
    MakeParent,
    /// Draw a nonce.
    Draw,
    /// Upload to the temporary file.
    Upload,
    /// Ask for the time of the temporary file.
    Time,
    /// Rename the temporary file to the destination.
    Rename,
    /// Remove the temporary file.
    Cleanup,
    Done,
}

/// An upload by a temporary file beside the destination, without a claim.
#[derive(Debug)]
pub struct PlainUpload {
    pub rel: String,
    pub remote_path: String,
    pub size: u64,
    pub hash: String,
    pub parents: Vec<String>,
    pub made: usize,
    pub phase: PlainPhase,
    pub temp: String,
    pub modified: Timestamp,
    pub failure: Option<Error>,
}

/// What a plain upload says.
pub struct PlainView {
    pub rel: Seq<char>,
    pub remote_path: Seq<char>,
    pub size: u64,
    pub hash: Seq<char>,
    pub parents: Seq<Seq<char>>,
    pub made: nat,
    pub phase: PlainPhase,
    pub temp: Seq<char>,
    pub modified: Timestamp,
    pub failure: Option<error::ErrorView>,
}

impl View for PlainUpload {
    type V = PlainView;

    open spec fn view(&self) -> PlainView {
        PlainView {
            rel: self.rel@,
            remote_path: self.remote_path@,
            size: self.size,
            hash: self.hash@,
            parents: text::views(self.parents@),
            made: self.made as nat,
            phase: self.phase,
            temp: self.temp@,
            modified: self.modified,
            failure: match self.failure {
                Some(e) => Some(e@),
                None => None,
            },
        }
    }
}

impl PlainView {
    /// The upload in another phase.
    pub open spec fn at(self, phase: PlainPhase) -> PlainView {
        PlainView { phase, ..self }
    }

    /// The upload in another phase, with a failure.
    pub open spec fn failed(self, phase: PlainPhase, failure: error::ErrorView) -> PlainView {
        PlainView { phase, failure: Some(failure), ..self }
    }

    /// The upload with some of its directories made.
    pub open spec fn with_made(self, made: nat) -> PlainView {
        PlainView {
            made,
            phase: if made < self.parents.len() {
                PlainPhase::MakeParent
            } else {
                PlainPhase::Draw
            },
            ..self
        }
    }
}

/// Where a plain upload starts. A run that changes nothing is done at once.
pub open spec fn plain_start(
    rel: Seq<char>,
    remote_path: Seq<char>,
    size: u64,
    hash: Seq<char>,
    mode: ExecutionMode,
) -> PlainView {
    let start = PlainView {
        rel,
        remote_path,
        size,
        hash,
        parents: parents(remote_path),
        made: 0,
        phase: PlainPhase::Done,
        temp: Seq::empty(),
        modified: Timestamp { secs: 0, nanos: 0 },
        failure: None,
    };
    if mode == ExecutionMode::DryRun {
        start
    } else {
        start.with_made(0)
    }
}

/// A reply to a plain upload.
pub enum PlainReply {
    Made(Result<(), error::ErrorView>),
    Nonce(Seq<char>),
    Uploaded(Result<(), error::ErrorView>),
    Time(Result<Timestamp, error::ErrorView>),
    Renamed(Result<(), error::ErrorView>),
    Removed,
}

/// Where a reply leads a plain upload. A reply that the phase does not wait for
/// changes nothing.
pub open spec fn plain_step(u: PlainView, reply: PlainReply) -> PlainView {
    match (u.phase, reply) {
        (PlainPhase::MakeParent, PlainReply::Made(made)) => match made {
            Err(e) => u.failed(PlainPhase::Done, e),
            Ok(_) => u.with_made(u.made + 1),
        },
        (PlainPhase::Draw, PlainReply::Nonce(nonce)) => match transfer_temp::candidate_of(
            u.remote_path,
            nonce,
        ) {
            Err(e) => u.failed(PlainPhase::Done, e),
            Ok(temp) => PlainView { phase: PlainPhase::Upload, temp, ..u },
        },
        (PlainPhase::Upload, PlainReply::Uploaded(uploaded)) => match uploaded {
            Err(cause) => u.failed(
                PlainPhase::Cleanup,
                error::failure_from("uploading temp "@ + u.temp, error::full_message(cause)),
            ),
            Ok(_) => u.at(PlainPhase::Time),
        },
        (PlainPhase::Time, PlainReply::Time(time)) => match time {
            Err(cause) => u.failed(
                PlainPhase::Cleanup,
                error::failure_from(
                    "fetching mtime for temp "@ + u.temp,
                    error::full_message(cause),
                ),
            ),
            Ok(modified) => PlainView { phase: PlainPhase::Rename, modified, ..u },
        },
        (PlainPhase::Rename, PlainReply::Renamed(renamed)) => match renamed {
            Err(cause) => u.failed(
                PlainPhase::Cleanup,
                error::failure_from(
                    "renaming "@ + u.temp + " -> "@ + u.remote_path,
                    error::full_message(cause),
                ),
            ),
            Ok(_) => u.at(PlainPhase::Done),
        },
        (PlainPhase::Cleanup, PlainReply::Removed) => u.at(PlainPhase::Done),
        _ => u,
    }
}

/// What a plain upload asks for.
#[derive(Debug)]
pub enum PlainAction {
    /// Create a directory tolerantly.
    MakeDirectory(String),
    /// Draw a nonce.
    DrawNonce,
    /// Upload the payload to a path.
    Upload(String),
    /// Ask for the time of a path.
    Time(String),
    /// Rename the first path to the second.
    Rename(String, String),
    /// Remove a path, whether or not that succeeds.
    Remove(String),
    Done,
}

impl PlainUpload {
    /// The directory to make next is one of those that must be there.
    pub open spec fn wf(&self) -> bool {
        self.phase == PlainPhase::MakeParent ==> self.made < self.parents@.len()
    }

    /// Starts the upload of some bytes with the given hash.
    pub fn upload_one(
        rel: &str,
        remote_path: &str,
        bytes: &Vec<u8>,
        hash: &str,
        mode: ExecutionMode,
    ) -> (out: PlainUpload)
        ensures
            out@ == plain_start(rel@, remote_path@, bytes@.len() as u64, hash@, mode),
            out.wf(),
    {
        let parents = remote_parents(remote_path);
        let temp = String::new();
        assert(temp@ =~= Seq::<char>::empty());
        let phase = if mode == ExecutionMode::DryRun {
            PlainPhase::Done
        } else if parents.len() > 0 {
            PlainPhase::MakeParent
        } else {
            PlainPhase::Draw
        };
        PlainUpload {
            rel: rel.to_owned(),
            remote_path: remote_path.to_owned(),
            size: bytes.len() as u64,
            hash: hash.to_owned(),
            parents,
            made: 0,
            phase,
            temp,
            modified: Timestamp { secs: 0, nanos: 0 },
            failure: None,
        }
    }

    /// What the upload asks for.
    pub fn action(&self) -> (out: PlainAction)
        requires
            self.wf(),
        ensures
            match (self.phase, out) {
                (PlainPhase::MakeParent, PlainAction::MakeDirectory(path)) => path@
                    == self@.parents[self.made as int],
                (PlainPhase::Draw, PlainAction::DrawNonce) => true,
                (PlainPhase::Upload, PlainAction::Upload(path)) => path@ == self@.temp,
                (PlainPhase::Time, PlainAction::Time(path)) => path@ == self@.temp,
                (PlainPhase::Rename, PlainAction::Rename(from, to)) => from@ == self@.temp && to@
                    == self@.remote_path,
                (PlainPhase::Cleanup, PlainAction::Remove(path)) => path@ == self@.temp,
                (PlainPhase::Done, PlainAction::Done) => true,
                _ => false,
            },
    {
        match self.phase {
            PlainPhase::MakeParent => PlainAction::MakeDirectory(self.parents[self.made].clone()),
            PlainPhase::Draw => PlainAction::DrawNonce,
            PlainPhase::Upload => PlainAction::Upload(self.temp.clone()),
            PlainPhase::Time => PlainAction::Time(self.temp.clone()),
            PlainPhase::Rename => PlainAction::Rename(self.temp.clone(), self.remote_path.clone()),
            PlainPhase::Cleanup => PlainAction::Remove(self.temp.clone()),
            PlainPhase::Done => PlainAction::Done,
        }
    }

    /// Enters a phase with a failure.
    fn fail(&mut self, phase: PlainPhase, failure: Error)
        requires
            phase != PlainPhase::MakeParent,
        ensures
            final(self)@ == old(self)@.failed(phase, failure@),
            final(self).wf(),
    {
        self.phase = phase;
        self.failure = Some(failure);
    }

    /// Takes what came of creating a directory.
    pub fn on_made(&mut self, reply: Result<(), Error>)
        requires
            old(self).wf(),
        ensures
            final(self)@ == plain_step(old(self)@, PlainReply::Made(reported(reply))),
            final(self).wf(),
    {
        match self.phase {
            PlainPhase::MakeParent => match reply {
                Err(e) => self.fail(PlainPhase::Done, e),
                Ok(_) => {
                    let total: usize = self.parents.len();
                    self.made = self.made + 1;
                    if self.made >= total {
                        self.phase = PlainPhase::Draw;
                    }
                },
            },
            _ => {},
        }
    }

    /// Takes a nonce for the name of the temporary file.
    pub fn on_nonce(&mut self, nonce: &str)
        requires
            old(self).wf(),
        ensures
            final(self)@ == plain_step(old(self)@, PlainReply::Nonce(nonce@)),
            final(self).wf(),
    {
        match self.phase {
            PlainPhase::Draw => match transfer_temp::transfer_candidate(&self.remote_path, nonce) {
                Err(e) => self.fail(PlainPhase::Done, e),
                Ok(temp) => {
                    self.temp = temp;
                    self.phase = PlainPhase::Upload;
                },
            },
            _ => {},
        }
    }

    /// Takes what came of the upload to the temporary file.
    pub fn on_uploaded(&mut self, reply: Result<(), Error>)
        requires
            old(self).wf(),
        ensures
            final(self)@ == plain_step(old(self)@, PlainReply::Uploaded(reported(reply))),
            final(self).wf(),
    {
        match self.phase {
            PlainPhase::Upload => match reply {
                Err(cause) => {
                    let failure = Error::failure_from(
                        text::cat("uploading temp ", &self.temp),
                        &cause.full_message(),
                    );
                    self.fail(PlainPhase::Cleanup, failure);
                },
                Ok(_) => {
                    self.phase = PlainPhase::Time;
                },
            },
            _ => {},
        }
    }

    /// Takes the time of the temporary file.
    pub fn on_time(&mut self, reply: Result<Timestamp, Error>)
        requires
            old(self).wf(),
        ensures
            final(self)@ == plain_step(old(self)@, PlainReply::Time(reported(reply))),
            final(self).wf(),
    {
        match self.phase {
            PlainPhase::Time => match reply {
                Err(cause) => {
                    let failure = Error::failure_from(
                        text::cat("fetching mtime for temp ", &self.temp),
                        &cause.full_message(),
                    );
                    self.fail(PlainPhase::Cleanup, failure);
                },
                Ok(modified) => {
                    self.modified = modified;
                    self.phase = PlainPhase::Rename;
                },
            },
            _ => {},
        }
    }

    /// Takes what came of the renaming. A renaming that succeeded is remembered.
    pub fn on_renamed(&mut self, reply: Result<(), Error>, state: &mut StateFile, now: Timestamp)
        requires
            old(self).wf(),
            old(state).wf(),
        ensures
            final(self)@ == plain_step(old(self)@, PlainReply::Renamed(reported(reply))),
            final(self).wf(),
            final(state).wf(),
            if old(self).phase == PlainPhase::Rename && reply is Ok {
                state::recorded(
                    old(state).files@,
                    final(state).files@,
                    old(self)@.rel,
                    old(self)@.hash,
                    old(self)@.size,
                    old(self)@.modified,
                    now,
                )
            } else {
                *final(state) == *old(state)
            },
    {
        match self.phase {
            PlainPhase::Rename => match reply {
                Err(cause) => {
                    let failure = Error::failure_from(
                        text::cat4("renaming ", &self.temp, " -> ", &self.remote_path),
                        &cause.full_message(),
                    );
                    self.fail(PlainPhase::Cleanup, failure);
                },
                Ok(_) => {
                    state.record(&self.rel, &self.hash, self.size, self.modified, now);
                    self.phase = PlainPhase::Done;
                },
            },
            _ => {},
        }
    }

    /// Takes that the removal was tried.
    pub fn on_removed(&mut self)
        requires
            old(self).wf(),
        ensures
            final(self)@ == plain_step(old(self)@, PlainReply::Removed),
            final(self).wf(),
    {
        match self.phase {
            PlainPhase::Cleanup => {
                self.phase = PlainPhase::Done;
            },
            _ => {},
        }
    }

    /// What the upload ended in.
    pub fn outcome(self) -> (out: Result<(), Error>)
        ensures
            error::settles(
                out,
                match self@.failure {
                    Some(e) => Err(e),
                    None => Ok(()),
                },
            ),
    {
        match self.failure {
            Some(e) => Err(e),
            None => Ok(()),
        }
    }
}

/// A plain upload that changes nothing is done before it asks for anything.
pub proof fn dry_plain_upload_asks_for_nothing(
    rel: Seq<char>,
    remote_path: Seq<char>,
    size: u64,
    hash: Seq<char>,
)
    ensures
        plain_start(rel, remote_path, size, hash, ExecutionMode::DryRun).phase == PlainPhase::Done,
        plain_start(rel, remote_path, size, hash, ExecutionMode::DryRun).failure is None,
{
}

/// Where replies, one after another, lead a plain upload.
pub open spec fn plain_run(start: PlainView, replies: Seq<PlainReply>) -> PlainView
    decreases replies.len(),
{
    if replies.len() == 0 {
        start
    } else {
        plain_step(plain_run(start, replies.drop_last()), replies.last())
    }
}

/// Whether the reply at a position is that of a rename that succeeded.
pub open spec fn plain_rename_made(start: PlainView, replies: Seq<PlainReply>, i: int) -> bool {
    &&& 0 <= i < replies.len()
    &&& plain_run(start, replies.take(i)).phase == PlainPhase::Rename
    &&& replies[i] matches PlainReply::Renamed(reply) && reply is Ok
}

/// A plain upload that applies changes and ends without a failure has renamed its
/// file into place, by a rename that succeeded.
pub proof fn finished_plain_upload_was_renamed(
    rel: Seq<char>,
    remote_path: Seq<char>,
    size: u64,
    hash: Seq<char>,
    replies: Seq<PlainReply>,
)
    ensures
        ({
            let start = plain_start(rel, remote_path, size, hash, ExecutionMode::Apply);
            let u = plain_run(start, replies);
            u.phase == PlainPhase::Done && u.failure is None ==> exists|i: int|
                plain_rename_made(start, replies, i)
        }),
{
    plain_run_ends_by_renaming(
        plain_start(rel, remote_path, size, hash, ExecutionMode::Apply),
        replies,
    );
}

proof fn plain_run_ends_by_renaming(start: PlainView, replies: Seq<PlainReply>)
    requires
        start.phase == PlainPhase::MakeParent || start.phase == PlainPhase::Draw,
    ensures
        ({
            let u = plain_run(start, replies);
            u.phase == PlainPhase::Done || u.phase == PlainPhase::Cleanup ==> u.failure is Some
                || exists|i: int| plain_rename_made(start, replies, i)
        }),
    decreases replies.len(),
{
    if replies.len() > 0 {
        let fewer = replies.drop_last();
        let last = replies.len() - 1;
        plain_run_ends_by_renaming(start, fewer);
        assert(replies.take(last) =~= fewer);
        if exists|i: int| plain_rename_made(start, fewer, i) {
            let i = choose|i: int| plain_rename_made(start, fewer, i);
            assert(fewer.take(i) =~= replies.take(i));
            assert(plain_rename_made(start, replies, i));
        } else if plain_run(start, fewer).phase == PlainPhase::Rename {
            let made = replies[last] matches PlainReply::Renamed(reply) && reply is Ok;
            if made {
                assert(plain_rename_made(start, replies, last));
            }
        }
    }
}

/// A source is taken exactly where a file with a hash is captured, and a source
/// that was just taken is unchanged.
pub proof fn source_is_a_file_with_a_hash(
    local_root: Seq<char>,
    path: Seq<char>,
    probe: PathProbe,
)
    ensures
        source_of(local_root, path, probe) is Ok <==> file_transfer::captured(
            local_root,
            path,
            probe,
        ) is Ok && probe.leaf->Ok_0 is Some && probe.leaf->Ok_0->Some_0.is_file
            && probe.leaf->Ok_0->Some_0.sha256 is Some,
        source_of(local_root, path, probe) matches Ok(source) ==> {
            &&& file_transfer::captured(local_root, path, probe) == Ok::<
                ExpectationView,
                error::ErrorView,
            >(source)
            &&& source_unchanged(source, source.file_hash()->Some_0, probe) is Ok
            &&& source.file_hash() == Some(probe.leaf->Ok_0->Some_0.sha256->Some_0@)
        },
{
}

/// A source is unchanged exactly where it is expected to have the given hash and
/// is what it was.
pub proof fn source_is_unchanged_where_it_is_what_it_was(
    expected: ExpectationView,
    hash: Seq<char>,
    probe: PathProbe,
)
    ensures
        source_unchanged(expected, hash, probe) is Ok <==> expected.file_hash() == Some(hash)
            && file_transfer::unchanged(expected, probe) is Ok,
{
}

/// Whether a reply is one to what a guarded upload asks for.
pub open spec fn answers(action: ActionView, reply: UploadReply) -> bool {
    match action {
        ActionView::ProbeSource => reply is Probe,
        ActionView::Snapshot(_) => reply is Snapshot,
        ActionView::PollGate => reply is Gate,
        ActionView::DrawNonce => reply is Nonce,
        ActionView::Upload(_) => reply is Uploaded,
        ActionView::Time(_) => reply is Time,
        ActionView::Claim => reply is Claimed,
        ActionView::Rename(_, _) => reply is Renamed,
        ActionView::Release => reply is Released,
        ActionView::Remove(_) => reply is Removed,
        ActionView::Done => false,
    }
}

/// A guarded upload goes on by a reply to what it asks for, and by nothing else.
pub proof fn upload_goes_on_by_answers(u: UploadView, reply: UploadReply)
    ensures
        answers(upload_action(u), reply) ==> upload_step(u, reply).phase != u.phase,
        !answers(upload_action(u), reply) ==> upload_step(u, reply) == u,
        upload_step(u, reply).request == u.request,
{
}

/// A guarded upload writes to its temporary file only, removes nothing else, and
/// renames it to the destination. It looks at the destination before it stages
/// anything and again inside its claim, and at the temporary file between.
pub proof fn upload_asks_of_its_own_paths(u: UploadView)
    ensures
        upload_action(u) matches ActionView::Upload(path) ==> path == u.temp,
        upload_action(u) matches ActionView::Remove(path) ==> path == u.temp,
        upload_action(u) matches ActionView::Time(path) ==> path == u.temp,
        upload_action(u) matches ActionView::Rename(from, to) ==> from == u.temp && to
            == u.request.remote_path,
        u.phase == UploadPhase::CheckDestination || u.phase == UploadPhase::ClaimDestination ==>
            upload_action(u) == ActionView::Snapshot(u.request.remote_path),
        u.phase == UploadPhase::Reserve || u.phase == UploadPhase::Inspect || u.phase
            == UploadPhase::ClaimTemp || u.phase == UploadPhase::CleanupLook ==> upload_action(u)
            == ActionView::Snapshot(u.temp),
        upload_action(u) == ActionView::Done <==> u.phase == UploadPhase::Done,
{
}

/// A guarded upload has something to do exactly where it is for real and the
/// bytes have the hash of the request; where they do not, it fails.
pub proof fn upload_starts_with_the_right_bytes(
    request: RequestView,
    bytes: Seq<u8>,
    mode: ExecutionMode,
)
    ensures
        ({
            let start = upload_start(request, bytes, mode);
            let right = hash::sha256_hex(bytes) == request.hash;
            &&& start.phase == UploadPhase::CheckSource <==> mode != ExecutionMode::DryRun && right
            &&& start.phase == UploadPhase::CheckSource || start.phase == UploadPhase::Done
            &&& start.failure is Some <==> mode != ExecutionMode::DryRun && !right
            &&& start.request == request
            &&& !start.renamed
            &&& start.decision == CommitDecision::Committed
            &&& start.temp_snapshot is Missing
            &&& start.attempts == 0
        }),
{
}

/// A guarded upload comes to stage its bytes exactly where the source and the
/// destination are what the request expects, the selection is current and a
/// temporary name can be made. It is cancelled only by the selection.
pub proof fn upload_stages_where_both_ends_hold(
    u: UploadView,
    probe: PathProbe,
    seen: Result<SnapshotView, error::ErrorView>,
    current: bool,
    nonce: Seq<char>,
)
    requires
        u.phase == UploadPhase::CheckSource,
        u.decision == CommitDecision::Committed,
        u.failure is None,
    ensures
        ({
            let looked = upload_step(
                upload_step(u, UploadReply::Probe(probe)),
                UploadReply::Snapshot(seen),
            );
            let next = upload_step(
                upload_step(looked, UploadReply::Gate(current)),
                UploadReply::Nonce(nonce),
            );
            let holds = source_unchanged(u.request.source, u.request.hash, probe) is Ok && seen
                == Ok::<SnapshotView, error::ErrorView>(u.request.destination);
            let temp = transfer_temp::candidate_of(u.request.remote_path, nonce);
            &&& next.phase == UploadPhase::Reserve <==> holds && current && temp is Ok
            &&& next.phase == UploadPhase::Reserve || next.phase == UploadPhase::Done
            &&& next.phase == UploadPhase::Reserve ==> next.temp == temp->Ok_0
            &&& next.decision == CommitDecision::Cancelled <==> holds && !current
            &&& next.failure is Some <==> !holds || (current && temp is Err)
        }),
{
}

/// A temporary name is taken exactly where nothing has it. Where something does,
/// another one is drawn, up to as many as are tried.
pub proof fn temp_is_taken_where_nothing_has_it(
    u: UploadView,
    seen: Result<SnapshotView, error::ErrorView>,
)
    requires
        u.phase == UploadPhase::Reserve,
    ensures
        ({
            let next = upload_step(u, UploadReply::Snapshot(seen));
            let free = seen is Ok && seen->Ok_0 is Missing;
            let taken = seen is Ok && !(seen->Ok_0 is Missing);
            &&& next.phase == UploadPhase::Upload <==> free
            &&& next.phase == UploadPhase::Draw <==> taken && u.attempts + 1 < 32
            &&& next.phase == UploadPhase::Draw ==> next.attempts == u.attempts + 1
            &&& next.phase == UploadPhase::Done <==> seen is Err || (taken && u.attempts + 1 >= 32)
            &&& next.phase == UploadPhase::Done ==> next.failure is Some
            &&& next.temp == u.temp
        }),
{
}

/// Staged bytes come up for the claim exactly where they were uploaded, are seen
/// to have the size and the hash of the request, and have a time. What was seen
/// is kept. Where they are not what was uploaded, nothing is cleaned up: the file
/// may be someone else's.
pub proof fn upload_claims_what_it_staged(
    u: UploadView,
    uploaded: Result<(), error::ErrorView>,
    seen: Result<SnapshotView, error::ErrorView>,
    time: Result<Timestamp, error::ErrorView>,
)
    requires
        u.phase == UploadPhase::Upload,
        u.failure is None,
    ensures
        ({
            let sent = upload_step(u, UploadReply::Uploaded(uploaded));
            let inspected = if sent.phase == UploadPhase::Inspect {
                upload_step(sent, UploadReply::Snapshot(seen))
            } else {
                sent
            };
            let next = upload_step(inspected, UploadReply::Time(time));
            let ours = seen is Ok && seen->Ok_0 is File && seen->Ok_0->size == u.request.size
                && seen->Ok_0->sha256 == u.request.hash;
            &&& next.phase == UploadPhase::Claim <==> uploaded is Ok && ours && time is Ok
            &&& next.phase == UploadPhase::Claim ==> next.temp_snapshot == seen->Ok_0
                && next.modified == time->Ok_0 && next.failure is None
            &&& next.phase == UploadPhase::Done <==> uploaded is Ok && seen is Ok && !ours
            &&& next.phase == UploadPhase::CleanupLook <==> uploaded is Err || seen is Err || (ours
                && time is Err)
            &&& next.phase != UploadPhase::Claim ==> next.failure is Some
            &&& next.temp == u.temp
            &&& next.renamed == u.renamed
        }),
{
}

/// A claim is entered exactly where it is granted; a refused one cancels the
/// upload and a failed one fails it, and both clean up.
pub proof fn upload_enters_a_granted_claim(
    u: UploadView,
    claimed: Result<CommitDecision, error::ErrorView>,
)
    requires
        u.phase == UploadPhase::Claim,
        u.decision == CommitDecision::Committed,
        u.failure is None,
    ensures
        ({
            let next = upload_step(u, UploadReply::Claimed(claimed));
            let granted = claimed == Ok::<CommitDecision, error::ErrorView>(
                CommitDecision::Committed,
            );
            &&& next.phase == UploadPhase::ClaimSource <==> granted
            &&& next.phase == UploadPhase::CleanupLook <==> !granted
            &&& next.decision == CommitDecision::Cancelled <==> claimed == Ok::<
                CommitDecision,
                error::ErrorView,
            >(CommitDecision::Cancelled)
            &&& next.failure is Some <==> claimed is Err
            &&& next.temp == u.temp
            &&& next.temp_snapshot == u.temp_snapshot
            &&& next.modified == u.modified
            &&& next.renamed == u.renamed
        }),
{
}

/// Inside the claim the staged file takes the place of the destination exactly
/// where the source, the destination, the staged file and its time are still
/// what they were and the rename is made. The claim is given back either way, and
/// what was not renamed is cleaned up after that.
pub proof fn upload_renames_where_everything_holds(
    u: UploadView,
    probe: PathProbe,
    destination: Result<SnapshotView, error::ErrorView>,
    staged: Result<SnapshotView, error::ErrorView>,
    time: Result<Timestamp, error::ErrorView>,
    renamed: Result<(), error::ErrorView>,
)
    requires
        u.phase == UploadPhase::ClaimSource,
        !u.renamed,
        u.failure is None,
    ensures
        ({
            let sourced = upload_step(u, UploadReply::Probe(probe));
            let looked = upload_step(sourced, UploadReply::Snapshot(destination));
            let matched = upload_step(looked, UploadReply::Snapshot(staged));
            let timed = upload_step(matched, UploadReply::Time(time));
            let tried = upload_step(timed, UploadReply::Renamed(renamed));
            let next = upload_step(tried, UploadReply::Released);
            let holds = {
                &&& source_unchanged(u.request.source, u.request.hash, probe) is Ok
                &&& destination == Ok::<SnapshotView, error::ErrorView>(u.request.destination)
                &&& staged == Ok::<SnapshotView, error::ErrorView>(u.temp_snapshot)
                &&& time == Ok::<Timestamp, error::ErrorView>(u.modified)
            };
            &&& timed.phase == UploadPhase::Rename <==> holds
            &&& tried.phase == UploadPhase::Release
            &&& next.renamed <==> holds && renamed is Ok
            &&& next.failure is Some <==> !next.renamed
            &&& next.phase == UploadPhase::Done <==> next.renamed
            &&& next.phase == UploadPhase::CleanupLook <==> !next.renamed
            &&& next.decision == u.decision
            &&& next.temp == u.temp
            &&& next.modified == u.modified
        }),
{
}

/// A temporary file is removed exactly where it is seen to be the one that was
/// staged: what was seen of it before, or, where nothing was, the right bytes.
pub proof fn upload_removes_what_it_staged(
    u: UploadView,
    seen: Result<SnapshotView, error::ErrorView>,
)
    requires
        u.phase == UploadPhase::CleanupLook,
    ensures
        ({
            let next = upload_step(u, UploadReply::Snapshot(seen));
            let right = seen is Ok && seen->Ok_0 is File && seen->Ok_0->size == u.request.size
                && seen->Ok_0->sha256 == u.request.hash;
            &&& upload_action(next) == ActionView::Remove(u.temp) <==> if u.temp_snapshot
                is Missing {
                right
            } else {
                seen == Ok::<SnapshotView, error::ErrorView>(u.temp_snapshot)
            }
            &&& next.phase == UploadPhase::CleanupRemove || next.phase == UploadPhase::Done
            &&& upload_step(next, UploadReply::Removed).phase == UploadPhase::Done
            &&& next.failure == u.failure
            &&& next.decision == u.decision
            &&& next.renamed == u.renamed
        }),
{
}

/// A plain upload makes every directory above its destination in turn, and draws
/// a name for its temporary file once all of them are there.
pub proof fn plain_upload_makes_every_directory(u: PlainView, made: Result<(), error::ErrorView>)
    requires
        u.phase == PlainPhase::MakeParent,
        u.made < u.parents.len(),
        u.failure is None,
    ensures
        ({
            let next = plain_step(u, PlainReply::Made(made));
            &&& made is Ok ==> next.made == u.made + 1
            &&& next.phase == PlainPhase::MakeParent <==> made is Ok && u.made + 1
                < u.parents.len()
            &&& next.phase == PlainPhase::Draw <==> made is Ok && u.made + 1 == u.parents.len()
            &&& next.phase == PlainPhase::Done <==> made is Err
            &&& next.failure is Some <==> made is Err
            &&& next.parents == u.parents
        }),
{
}

/// A plain upload is done without a failure exactly where its bytes were sent to
/// the temporary file, the file has a time and it was renamed. Otherwise the
/// temporary file is removed.
pub proof fn plain_upload_renames_what_it_sent(
    u: PlainView,
    nonce: Seq<char>,
    uploaded: Result<(), error::ErrorView>,
    time: Result<Timestamp, error::ErrorView>,
    renamed: Result<(), error::ErrorView>,
)
    requires
        u.phase == PlainPhase::Draw,
        u.failure is None,
    ensures
        ({
            let drawn = plain_step(u, PlainReply::Nonce(nonce));
            let sent = plain_step(drawn, PlainReply::Uploaded(uploaded));
            let timed = plain_step(sent, PlainReply::Time(time));
            let tried = plain_step(timed, PlainReply::Renamed(renamed));
            let next = plain_step(tried, PlainReply::Removed);
            let temp = transfer_temp::candidate_of(u.remote_path, nonce);
            let all = uploaded is Ok && time is Ok && renamed is Ok;
            &&& drawn.phase == PlainPhase::Upload <==> temp is Ok
            &&& temp is Ok ==> drawn.temp == temp->Ok_0 && next.temp == temp->Ok_0
            &&& timed.phase == PlainPhase::Rename <==> temp is Ok && uploaded is Ok && time is Ok
            &&& tried.phase == PlainPhase::Cleanup <==> temp is Ok && !all
            &&& tried.phase == PlainPhase::Done <==> temp is Err || all
            &&& next.phase == PlainPhase::Done
            &&& next.failure is None <==> temp is Ok && all
            &&& next.failure is None ==> next.modified == time->Ok_0
            &&& next.rel == u.rel
            &&& next.hash == u.hash
            &&& next.size == u.size
        }),
{
}

/// A plain upload is for real unless nothing is to be changed: it then starts
/// with the directories above its destination, or with its temporary file where
/// there are none.
pub proof fn plain_upload_starts_at_the_top(
    rel: Seq<char>,
    remote_path: Seq<char>,
    size: u64,
    hash: Seq<char>,
    mode: ExecutionMode,
)
    ensures
        ({
            let start = plain_start(rel, remote_path, size, hash, mode);
            &&& start.phase == PlainPhase::Done <==> mode == ExecutionMode::DryRun
            &&& start.phase == PlainPhase::MakeParent <==> mode != ExecutionMode::DryRun && parents(
                remote_path,
            ).len() > 0
            &&& start.made == 0
            &&& start.parents == parents(remote_path)
            &&& start.failure is None
            &&& start.remote_path == remote_path
            &&& start.hash == hash
            &&& start.size == size
            &&& start.rel == rel
        }),
{
}

/// The directories above a destination are one for each name of its directory,
/// and each is the one before it with the next name.
pub proof fn ancestry_goes_down_name_by_name(absolute: bool, segments: Seq<Seq<char>>)
    requires
        forall|i: int| 0 <= i < segments.len() ==> (#[trigger] segments[i]).len() > 0,
    ensures
        ancestry(absolute, segments).len() == segments.len(),
        forall|i: int|
            0 <= i < segments.len() ==> #[trigger] ancestry(absolute, segments)[i] == if absolute {
                paths::slash() + paths::path_to(segments.take(i + 1))
            } else {
                paths::path_to(segments.take(i + 1))
            },
        segments.len() > 0 ==> rebuilt(absolute, segments) == if absolute {
            paths::slash() + paths::path_to(segments)
        } else {
            paths::path_to(segments)
        },
    decreases segments.len(),
{
    if segments.len() > 0 {
        let before = segments.drop_last();
        assert forall|i: int| 0 <= i < before.len() implies (#[trigger] before[i]).len() > 0 by {
            assert(before[i] == segments[i]);
        }
        ancestry_goes_down_name_by_name(absolute, before);
        let all = ancestry(absolute, segments);
        let fewer = ancestry(absolute, before);
        assert(segments.last() == segments[segments.len() - 1]);
        if before.len() > 0 {
            assert(before.last() == segments[segments.len() - 2]);
            assert(paths::path_to(before).len() > 0);
            assert(paths::path_to(segments) == paths::path_to(before) + paths::slash()
                + segments.last());
            if absolute {
                assert(rebuilt(absolute, segments) =~= paths::slash() + paths::path_to(segments));
            } else {
                assert(rebuilt(absolute, segments) =~= paths::path_to(segments));
            }
        } else {
            assert(paths::path_to(before) =~= Seq::<char>::empty());
            assert(rebuilt(absolute, before) =~= Seq::<char>::empty());
            assert(paths::path_to(segments) =~= segments.last());
            if absolute {
                assert(rebuilt(absolute, segments) =~= paths::slash() + segments.last());
            }
        }
        assert(segments.take(segments.len() as int) =~= segments);
        assert forall|i: int| 0 <= i < segments.len() implies #[trigger] all[i] == if absolute {
            paths::slash() + paths::path_to(segments.take(i + 1))
        } else {
            paths::path_to(segments.take(i + 1))
        } by {
            if i < before.len() {
                assert(before.take(i + 1) =~= segments.take(i + 1));
                assert(all[i] == fewer[i]);
            } else {
                assert(segments.take(i + 1) =~= segments);
            }
        }
    }
}

proof fn ancestry_skips_nothing(absolute: bool, segments: Seq<Seq<char>>)
    ensures
        ancestry(absolute, seq![Seq::<char>::empty()] + segments) == ancestry(absolute, segments),
        rebuilt(absolute, seq![Seq::<char>::empty()] + segments) == rebuilt(absolute, segments),
    decreases segments.len(),
{
    let whole = seq![Seq::<char>::empty()] + segments;
    if segments.len() == 0 {
        assert(whole.drop_last() =~= Seq::<Seq<char>>::empty());
        assert(segments =~= Seq::<Seq<char>>::empty());
        assert(whole.last().len() == 0);
    } else {
        assert(whole.drop_last() =~= seq![Seq::<char>::empty()] + segments.drop_last());
        assert(whole.last() == segments.last());
        ancestry_skips_nothing(absolute, segments.drop_last());
    }
}

/// The directories that must be there before a file are all those above it, from
/// the topmost one down to its own, each the one before it with the next name. A
/// file at the top needs none.
pub proof fn parents_are_every_directory_above(
    absolute: bool,
    directory: Seq<char>,
    name: Seq<char>,
)
    requires
        paths::canonical(directory),
        !name.contains('/'),
    ensures
        ({
            let base = if absolute {
                paths::slash() + directory
            } else {
                directory
            };
            let names = text::segments(directory);
            let above = parents(base + paths::slash() + name);
            &&& above.len() == names.len()
            &&& above.len() > 0
            &&& above.last() == base
            &&& forall|i: int|
                0 <= i < names.len() ==> #[trigger] above[i] == if absolute {
                    paths::slash() + paths::path_to(names.take(i + 1))
                } else {
                    paths::path_to(names.take(i + 1))
                }
        }),
        parents(name).len() == 0,
        parents(paths::slash() + name).len() == 0,
{
    let names = text::segments(directory);
    text::segments_nonempty(directory);
    assert forall|i: int| 0 <= i < names.len() implies (#[trigger] names[i]).len() > 0 by {
        assert(paths::names_entry(text::segments(directory)[i]));
    }
    let base = if absolute {
        paths::slash() + directory
    } else {
        directory
    };
    let path = base + paths::slash() + name;
    split_before_a_name(base, name);
    if directory.len() > 0 && directory[0] == '/' {
        assert(directory =~= seq!['/'] + directory.skip(1));
        text::segments_behind_a_slash(directory.skip(1));
        assert(names[0].len() == 0);
    }
    if directory.len() == 0 {
        assert(names[0].len() == 0);
    }
    if absolute {
        text::segments_behind_a_slash(directory);
        ancestry_skips_nothing(true, names);
        assert(base.subrange(0, 1) =~= paths::slash());
    } else {
        if paths::slash().is_prefix_of(base) {
            assert(base.subrange(0, 1)[0] == '/');
        }
    }
    ancestry_goes_down_name_by_name(absolute, names);
    paths::canonical_is_path_to(directory);
    assert(names.take(names.len() as int) =~= names);
    let above = parents(path);
    assert(above == ancestry(absolute, names));
    assert(above.last() == above[names.len() - 1]);
    text::last_slash_bounds(name);
    if let Some(at) = text::last_slash(name) {
        assert(name.contains('/'));
    }
    split_before_a_name(Seq::empty(), name);
    assert(Seq::<char>::empty() + paths::slash() + name =~= paths::slash() + name);
}

proof fn split_before_a_name(base: Seq<char>, name: Seq<char>)
    requires
        !name.contains('/'),
    ensures
        text::split_last(base + paths::slash() + name) == Some((base, name)),
{
    let path = base + paths::slash() + name;
    text::last_slash_bounds(path);
    assert(path[base.len() as int] == '/');
    assert(path.contains('/'));
    let at = text::last_slash(path)->Some_0;
    if at < base.len() {
        assert(path.skip(at + 1)[base.len() - at - 1] == '/');
        assert(path.skip(at + 1).contains('/'));
    }
    if at > base.len() {
        assert(path[at] == name[at - base.len() - 1]);
        assert(name.contains('/'));
    }
    assert(path.take(at) =~= base);
    assert(path.skip(at + 1) =~= name);
}

} // verus!
