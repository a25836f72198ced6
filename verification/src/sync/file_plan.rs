//! The steps by which one file of a scope is planned. Between any two of them
//! the selection may turn out to be no longer current.

use crate::download::ExpectedLocalDestination;
use crate::error::Error;
use crate::error;
use crate::file_transfer::{
    ExpectationView, PathProbe, RemoteDestinationSnapshot, SnapshotView,
};
use crate::file_transfer;
use crate::inventory::{EntryKind, InventoryEntry};
use crate::local_paths;
use crate::paths;
use crate::scope::ExecutionMode;
use crate::state::FileState;
use crate::state;
use crate::sync::directories::ExpectedDirectory;
use crate::sync::directories;
use crate::sync::plan::SyncEventKind;
use crate::sync::plan;
use crate::sync::planning::{
    FileAction, HashFacts, PlannedRemoteSource, RemoteHash, RemoteHashView, RemoteSourceView,
};
use crate::sync::planning;
use crate::text;
use crate::upload::ExpectedLocalSource;
use crate::upload;
use vstd::prelude::*;

verus! {

broadcast use vstd::seq::group_seq_axioms;

/// What the planning of a file waits for.
#[derive(Debug, Clone, Copy, PartialEq, Eq, Structural)]
pub enum PlanPhase {
    /// Whether the selection is current, before anything is looked at.
    Start,
    /// A probe of the local file.
    Capture,
    /// Whether the selection is current.
    AfterCapture,
    /// The hash of the local file and a probe of it.
    Hash,
    /// Whether the selection is current.
    AfterHash,
    /// The hash of the remote file.
    Remote,
    /// Whether the selection is current.
    AfterRemote,
    /// A snapshot of the remote destination.
    Destination,
    /// Whether the selection is current.
    AfterDestination,
    /// The content at the local destination.
    VerifyContent,
    /// A probe of the local file.
    VerifySource,
    /// A probe of the local destination.
    CaptureDestination,
    /// A probe of the local file.
    VerifyAgain,
    Done,
}

/// What the planning of a file ended in.
#[derive(Debug, Clone, Copy, PartialEq, Eq, Structural)]
pub enum PlanEnd {
    /// It has not ended.
    Open,
    /// The selection was no longer current.
    Cancelled,
    Failed,
    /// Both sides agree.
    Unchanged,
    /// Both sides changed and nothing was forced.
    Conflict,
    Upload,
    Overwrite,
    Download,
}

/// The planning of one file.
#[derive(Debug)]
pub struct FilePlan {
    pub relative: String,
    pub local_root: String,
    pub local_path: String,
    pub remote_path: String,
    pub entry: InventoryEntry,
    pub known: Option<String>,
    pub force: bool,
    pub mode: ExecutionMode,
    pub remote_parent_missing: bool,
    pub local_parent_missing: bool,
    pub source: Option<ExpectedLocalSource>,
    pub local_hash: Option<String>,
    pub remote: Option<RemoteHash>,
    pub state: FileState,
    pub destination: Option<RemoteDestinationSnapshot>,
    pub local_destination: Option<ExpectedLocalDestination>,
    pub phase: PlanPhase,
    pub end: PlanEnd,
    pub failure: Option<Error>,
}

/// What the planning of a file says.
pub struct FilePlanView {
    pub relative: Seq<char>,
    pub local_root: Seq<char>,
    pub local_path: Seq<char>,
    pub remote_path: Seq<char>,
    pub entry: InventoryEntry,
    pub known: Option<Seq<char>>,
    pub force: bool,
    pub mode: ExecutionMode,
    pub remote_parent_missing: bool,
    pub local_parent_missing: bool,
    pub source: Option<ExpectationView>,
    pub local_hash: Option<Seq<char>>,
    pub remote: Option<RemoteHashView>,
    pub state: FileState,
    pub destination: Option<SnapshotView>,
    pub local_destination: Option<ExpectationView>,
    pub phase: PlanPhase,
    pub end: PlanEnd,
    pub failure: Option<error::ErrorView>,
}

impl View for FilePlan {
    type V = FilePlanView;

    open spec fn view(&self) -> FilePlanView {
        FilePlanView {
            relative: self.relative@,
            local_root: self.local_root@,
            local_path: self.local_path@,
            remote_path: self.remote_path@,
            entry: self.entry,
            known: state::optional(self.known),
            force: self.force,
            mode: self.mode,
            remote_parent_missing: self.remote_parent_missing,
            local_parent_missing: self.local_parent_missing,
            source: match self.source {
                Some(source) => Some(source.snapshot@),
                None => None,
            },
            local_hash: state::optional(self.local_hash),
            remote: match self.remote {
                Some(hash) => Some(hash@),
                None => None,
            },
            state: self.state,
            destination: match self.destination {
                Some(snapshot) => Some(snapshot@),
                None => None,
            },
            local_destination: match self.local_destination {
                Some(expected) => Some(expected.snapshot@),
                None => None,
            },
            phase: self.phase,
            end: self.end,
            failure: match self.failure {
                Some(e) => Some(e@),
                None => None,
            },
        }
    }
}

impl FilePlanView {
    /// The hash of the remote file.
    pub open spec fn remote_hash(self) -> Option<Seq<char>> {
        match self.remote {
            Some(hash) => Some(hash.sha256),
            None => None,
        }
    }

    /// The planning in another phase.
    pub open spec fn at(self, phase: PlanPhase) -> FilePlanView {
        FilePlanView { phase, ..self }
    }

    /// The planning, ended.
    pub open spec fn ended(self, end: PlanEnd) -> FilePlanView {
        FilePlanView { phase: PlanPhase::Done, end, ..self }
    }

    /// The planning, ended by a failure.
    pub open spec fn failed(self, failure: error::ErrorView) -> FilePlanView {
        FilePlanView {
            phase: PlanPhase::Done,
            end: PlanEnd::Failed,
            failure: Some(failure),
            ..self
        }
    }

    /// Where the planning goes once the local side is known.
    pub open spec fn after_local(self) -> FilePlanView {
        if self.entry.remote == Some(EntryKind::File) {
            self.at(PlanPhase::Remote)
        } else {
            self.classified()
        }
    }

    /// Where the planning goes once both sides are known.
    pub open spec fn classified(self) -> FilePlanView {
        let known = FilePlanView {
            state: state::standing(self.local_hash, self.remote_hash(), self.known),
            ..self
        };
        if planning::writes_remote(known.state, self.force) {
            if self.remote_parent_missing {
                known.with_destination(SnapshotView::Missing)
            } else {
                known.at(PlanPhase::Destination)
            }
        } else {
            known.decided()
        }
    }

    /// Where the planning goes once the remote destination is known.
    pub open spec fn with_destination(self, snapshot: SnapshotView) -> FilePlanView {
        match planning::authoritative(
            self.entry.remote,
            snapshot,
            self.relative,
            self.local_hash->Some_0,
            self.known,
        ) {
            Err(e) => self.failed(e),
            Ok(state) => FilePlanView {
                state,
                destination: Some(snapshot),
                phase: PlanPhase::AfterDestination,
                ..self
            },
        }
    }

    /// What the state of the file comes to.
    pub open spec fn decided(self) -> FilePlanView {
        match planning::action_for(self.state, self.force) {
            FileAction::Keep => self.ended(PlanEnd::Unchanged),
            FileAction::Upload => self.ended(PlanEnd::Upload),
            FileAction::Overwrite => self.ended(PlanEnd::Overwrite),
            FileAction::Refuse => self.ended(PlanEnd::Conflict),
            FileAction::Download => if self.mode == ExecutionMode::DryRun {
                self.ended(PlanEnd::Download)
            } else {
                self.at(PlanPhase::VerifyContent)
            },
        }
    }

    /// Where the planning of a download goes once its local side was verified.
    pub open spec fn verified(self) -> FilePlanView {
        if self.local_parent_missing {
            self.captured_destination()
        } else {
            self.at(PlanPhase::CaptureDestination)
        }
    }

    /// Where the planning of a download goes once its destination is settled.
    pub open spec fn captured_destination(self) -> FilePlanView {
        if self.source is Some && self.local_hash is Some {
            self.at(PlanPhase::VerifyAgain)
        } else {
            self.ended(PlanEnd::Download)
        }
    }
}

/// A reply to the planning of a file.
pub enum PlanReply {
    Gate(bool),
    Probe(PathProbe),
    Hashed(Result<Seq<char>, error::ErrorView>, PathProbe),
    Remote(Result<RemoteHashView, error::ErrorView>),
    Snapshot(Result<SnapshotView, error::ErrorView>),
    Content(HashFacts),
}

/// Where a reply leads the planning of a file. A reply that the phase does not
/// wait for changes nothing.
pub open spec fn plan_step(u: FilePlanView, reply: PlanReply) -> FilePlanView {
    match (u.phase, reply) {
        (PlanPhase::Start, PlanReply::Gate(current)) => if !current {
            u.ended(PlanEnd::Cancelled)
        } else if u.entry.local == Some(EntryKind::File) {
            u.at(PlanPhase::Capture)
        } else {
            u.after_local()
        },
        (PlanPhase::Capture, PlanReply::Probe(probe)) => match upload::source_of(
            u.local_root,
            u.local_path,
            probe,
        ) {
            Err(e) => u.failed(e),
            Ok(source) => FilePlanView {
                source: Some(source),
                phase: PlanPhase::AfterCapture,
                ..u
            },
        },
        (PlanPhase::AfterCapture, PlanReply::Gate(current)) => if current {
            u.at(PlanPhase::Hash)
        } else {
            u.ended(PlanEnd::Cancelled)
        },
        (PlanPhase::Hash, PlanReply::Hashed(hash, probe)) => match (u.source, hash) {
            (None, _) => u,
            (Some(source), Err(cause)) => u.failed(
                error::failure_from(
                    "hashing local "@ + source.resolved(),
                    error::full_message(cause),
                ),
            ),
            (Some(source), Ok(hash)) => match upload::source_unchanged(source, hash, probe) {
                Err(e) => u.failed(e),
                Ok(_) => FilePlanView {
                    local_hash: Some(hash),
                    phase: PlanPhase::AfterHash,
                    ..u
                },
            },
        },
        (PlanPhase::AfterHash, PlanReply::Gate(current)) => if current {
            u.after_local()
        } else {
            u.ended(PlanEnd::Cancelled)
        },
        (PlanPhase::Remote, PlanReply::Remote(hash)) => match hash {
            Err(e) => u.failed(e),
            Ok(hash) => FilePlanView { remote: Some(hash), phase: PlanPhase::AfterRemote, ..u },
        },
        (PlanPhase::AfterRemote, PlanReply::Gate(current)) => if current {
            u.classified()
        } else {
            u.ended(PlanEnd::Cancelled)
        },
        (PlanPhase::Destination, PlanReply::Snapshot(seen)) => match seen {
            Err(cause) => u.failed(
                error::failure_from(
                    "capturing remote destination for "@ + u.relative,
                    error::full_message(cause),
                ),
            ),
            Ok(snapshot) => u.with_destination(snapshot),
        },
        (PlanPhase::AfterDestination, PlanReply::Gate(current)) => if current {
            u.decided()
        } else {
            u.ended(PlanEnd::Cancelled)
        },
        (PlanPhase::VerifyContent, PlanReply::Content(facts)) => match planning::planned_hash(
            u.local_path,
            u.local_hash,
            facts,
        ) {
            Err(e) => u.failed(e),
            Ok(_) => if u.source is Some && u.local_hash is Some {
                u.at(PlanPhase::VerifySource)
            } else {
                u.verified()
            },
        },
        (PlanPhase::VerifySource, PlanReply::Probe(probe)) => match (u.source, u.local_hash) {
            (Some(source), Some(hash)) => match upload::source_unchanged(source, hash, probe) {
                Err(e) => u.failed(e),
                Ok(_) => u.verified(),
            },
            _ => u,
        },
        (PlanPhase::CaptureDestination, PlanReply::Probe(probe)) => match file_transfer::captured(
            u.local_root,
            u.local_path,
            probe,
        ) {
            Err(e) => u.failed(e),
            Ok(expected) => (FilePlanView {
                local_destination: Some(expected),
                ..u
            }).captured_destination(),
        },
        (PlanPhase::VerifyAgain, PlanReply::Probe(probe)) => match (u.source, u.local_hash) {
            (Some(source), Some(hash)) => match upload::source_unchanged(source, hash, probe) {
                Err(e) => u.failed(e),
                Ok(_) => u.ended(PlanEnd::Download),
            },
            _ => u,
        },
        _ => u,
    }
}

/// Where the planning of a file starts.
pub open spec fn plan_start(
    relative: Seq<char>,
    local_root: Seq<char>,
    remote_root: Seq<char>,
    entry: InventoryEntry,
    known: Option<Seq<char>>,
    force: bool,
    mode: ExecutionMode,
    remote_parent_missing: bool,
    local_parent_missing: bool,
) -> FilePlanView {
    FilePlanView {
        relative,
        local_root,
        local_path: local_paths::joined(local_root, relative),
        remote_path: paths::remote_joined(remote_root, relative),
        entry,
        known,
        force,
        mode,
        remote_parent_missing,
        local_parent_missing,
        source: None,
        local_hash: None,
        remote: None,
        state: FileState::InSync,
        destination: None,
        local_destination: None,
        phase: PlanPhase::Start,
        end: PlanEnd::Open,
        failure: None,
    }
}

/// What the planning of a file has learnt agrees with how far it has come.
pub open spec fn plan_inv(u: FilePlanView) -> bool {
    &&& plan::is_file(u.entry)
    &&& u.source is Some ==> u.entry.local == Some(EntryKind::File)
    &&& u.local_hash is Some ==> u.source is Some
    &&& u.remote is Some ==> u.entry.remote == Some(EntryKind::File)
    &&& match u.phase {
        PlanPhase::Start => u.source is None && u.remote is None,
        PlanPhase::Capture => u.source is None && u.entry.local == Some(EntryKind::File),
        PlanPhase::AfterCapture => u.source is Some,
        PlanPhase::Hash => u.source is Some,
        PlanPhase::AfterHash => u.local_hash is Some,
        PlanPhase::Remote => u.entry.remote == Some(EntryKind::File) && (u.local_hash is Some
            || u.entry.local is None),
        PlanPhase::AfterRemote => u.remote is Some && (u.local_hash is Some
            || u.entry.local is None),
        PlanPhase::Destination => u.local_hash is Some && (u.remote is Some
            || u.entry.remote is None),
        PlanPhase::AfterDestination => u.local_hash is Some && u.destination is Some && (
        u.remote is Some || (u.entry.remote is None && u.state == FileState::LocalOnly)),
        PlanPhase::VerifyContent => u.remote is Some && planning::action_for(u.state, u.force)
            == FileAction::Download,
        PlanPhase::VerifySource => u.remote is Some && u.source is Some && u.local_hash is Some,
        PlanPhase::CaptureDestination => u.remote is Some,
        PlanPhase::VerifyAgain => u.remote is Some && u.source is Some && u.local_hash is Some,
        PlanPhase::Done => {
            &&& u.end != PlanEnd::Open
            &&& u.end == PlanEnd::Failed <==> u.failure is Some
            &&& u.end == PlanEnd::Upload || u.end == PlanEnd::Overwrite ==> u.source is Some
                && u.local_hash is Some && u.destination is Some
            &&& u.end == PlanEnd::Download ==> u.remote is Some
            &&& u.end == PlanEnd::Conflict ==> !u.force
        },
    }
    &&& u.phase != PlanPhase::Done ==> u.failure is None
}

/// The planning of a file keeps what it has learnt in step with how far it has
/// come: an upload is planned only with a captured source and destination, and a
/// download only with a known remote file.
pub proof fn plan_keeps_inv(u: FilePlanView, reply: PlanReply)
    requires
        plan_inv(u),
    ensures
        plan_inv(plan_step(u, reply)),
{
    match reply {
        PlanReply::Gate(_) => {
            match u.phase {
                PlanPhase::Start => {},
                PlanPhase::AfterCapture => {},
                PlanPhase::AfterHash => {},
                PlanPhase::AfterRemote => {},
                PlanPhase::AfterDestination => {},
                _ => {},
            }
        },
        PlanReply::Probe(_) => {},
        PlanReply::Hashed(_, _) => {},
        PlanReply::Remote(_) => {},
        PlanReply::Snapshot(_) => {},
        PlanReply::Content(_) => {},
    }
}

/// A hash with its failure taken by its view.
pub open spec fn hashed(reply: Result<String, Error>) -> Result<Seq<char>, error::ErrorView> {
    match reply {
        Ok(hash) => Ok(hash@),
        Err(e) => Err(e@),
    }
}

/// What was learnt of a remote file, with its failure taken by its view.
pub open spec fn learnt(reply: Result<RemoteHash, Error>) -> Result<
    RemoteHashView,
    error::ErrorView,
> {
    match reply {
        Ok(hash) => Ok(hash@),
        Err(e) => Err(e@),
    }
}

impl FilePlan {
    /// Starts the planning of a file. `directories` are those that the
    /// synchronisation rests on.
    pub fn plan_file(
        relative: &str,
        local_root: &str,
        remote_root: &str,
        entry: InventoryEntry,
        known: Option<String>,
        force: bool,
        mode: ExecutionMode,
        expected: &Vec<ExpectedDirectory>,
    ) -> (out: FilePlan)
        requires
            plan::is_file(entry),
        ensures
            out@ == plan_start(
                relative@,
                local_root@,
                remote_root@,
                entry,
                state::optional(known),
                force,
                mode,
                directories::missing_above(
                    text::views(expected@),
                    expected@.len(),
                    relative@,
                ),
                planning::created_above(text::views(expected@), relative@),
            ),
            plan_inv(out@),
    {
        FilePlan {
            relative: relative.to_owned(),
            local_root: local_root.to_owned(),
            local_path: local_paths::join(local_root, relative),
            remote_path: paths::remote_path_join(remote_root, relative),
            entry,
            known,
            force,
            mode,
            remote_parent_missing: directories::is_missing_above(
                expected,
                expected.len(),
                relative,
            ),
            local_parent_missing: planning::is_created_above(expected, relative),
            source: None,
            local_hash: None,
            remote: None,
            state: FileState::InSync,
            destination: None,
            local_destination: None,
            phase: PlanPhase::Start,
            end: PlanEnd::Open,
            failure: None,
        }
    }

    /// Ends the planning.
    fn finish(&mut self, end: PlanEnd)
        ensures
            final(self)@ == old(self)@.ended(end),
    {
        self.phase = PlanPhase::Done;
        self.end = end;
    }

    /// Ends the planning by a failure.
    fn fail(&mut self, failure: Error)
        ensures
            final(self)@ == old(self)@.failed(failure@),
    {
        self.phase = PlanPhase::Done;
        self.end = PlanEnd::Failed;
        self.failure = Some(failure);
    }

    /// Goes on once the local side is known.
    fn after_local(&mut self)
        requires
            old(self)@.entry.remote != Some(EntryKind::File) ==> old(self)@.local_hash is Some,
        ensures
            final(self)@ == old(self)@.after_local(),
    {
        let remote_file = match self.entry.remote {
            Some(EntryKind::File) => true,
            _ => false,
        };
        if remote_file {
            self.phase = PlanPhase::Remote;
        } else {
            self.classify();
        }
    }

    /// Goes on once both sides are known.
    fn classify(&mut self)
        requires
            old(self)@.local_hash is Some || old(self)@.remote is Some,
        ensures
            final(self)@ == old(self)@.classified(),
    {
        let remote_hash = match &self.remote {
            Some(hash) => Some(hash.sha256.clone()),
            None => None,
        };
        self.state = state::classify(&self.local_hash, &remote_hash, &self.known);
        let action = planning::file_action(self.state, self.force);
        let writes = match action {
            FileAction::Upload => true,
            FileAction::Overwrite => true,
            _ => false,
        };
        if writes {
            if self.remote_parent_missing {
                self.with_destination(RemoteDestinationSnapshot::Missing);
            } else {
                self.phase = PlanPhase::Destination;
            }
        } else {
            self.decide();
        }
    }

    /// Goes on once the remote destination is known.
    fn with_destination(&mut self, snapshot: RemoteDestinationSnapshot)
        requires
            old(self)@.local_hash is Some,
        ensures
            final(self)@ == old(self)@.with_destination(snapshot@),
    {
        let found = match &self.local_hash {
            Some(local_hash) => planning::capture_authoritative_upload_candidate(
                &snapshot,
                &self.relative,
                self.entry.remote,
                local_hash,
                &self.known,
            ),
            None => Ok(self.state),
        };
        match found {
            Err(e) => self.fail(e),
            Ok(state) => {
                self.state = state;
                self.destination = Some(snapshot);
                self.phase = PlanPhase::AfterDestination;
            },
        }
    }

    /// Decides by the state of the file.
    fn decide(&mut self)
        ensures
            final(self)@ == old(self)@.decided(),
    {
        match planning::file_action(self.state, self.force) {
            FileAction::Keep => self.finish(PlanEnd::Unchanged),
            FileAction::Upload => self.finish(PlanEnd::Upload),
            FileAction::Overwrite => self.finish(PlanEnd::Overwrite),
            FileAction::Refuse => self.finish(PlanEnd::Conflict),
            FileAction::Download => {
                if self.mode == ExecutionMode::DryRun {
                    self.finish(PlanEnd::Download);
                } else {
                    self.phase = PlanPhase::VerifyContent;
                }
            },
        }
    }

    /// Goes on once the local side of a download was verified.
    fn verified(&mut self)
        ensures
            final(self)@ == old(self)@.verified(),
    {
        if self.local_parent_missing {
            self.captured_destination();
        } else {
            self.phase = PlanPhase::CaptureDestination;
        }
    }

    /// Goes on once the destination of a download is settled.
    fn captured_destination(&mut self)
        ensures
            final(self)@ == old(self)@.captured_destination(),
    {
        if self.source.is_some() && self.local_hash.is_some() {
            self.phase = PlanPhase::VerifyAgain;
        } else {
            self.finish(PlanEnd::Download);
        }
    }

    /// Takes the answer whether the selection is still current.
    pub fn on_gate(&mut self, current: bool)
        requires
            plan_inv(old(self)@),
        ensures
            final(self)@ == plan_step(old(self)@, PlanReply::Gate(current)),
            plan_inv(final(self)@),
    {
        proof {
            plan_keeps_inv(self@, PlanReply::Gate(current));
        }
        match self.phase {
            PlanPhase::Start => {
                let local_file = match self.entry.local {
                    Some(EntryKind::File) => true,
                    _ => false,
                };
                if !current {
                    self.finish(PlanEnd::Cancelled);
                } else if local_file {
                    self.phase = PlanPhase::Capture;
                } else {
                    self.after_local();
                }
            },
            PlanPhase::AfterCapture => {
                if current {
                    self.phase = PlanPhase::Hash;
                } else {
                    self.finish(PlanEnd::Cancelled);
                }
            },
            PlanPhase::AfterHash => {
                if current {
                    self.after_local();
                } else {
                    self.finish(PlanEnd::Cancelled);
                }
            },
            PlanPhase::AfterRemote => {
                if current {
                    self.classify();
                } else {
                    self.finish(PlanEnd::Cancelled);
                }
            },
            PlanPhase::AfterDestination => {
                if current {
                    self.decide();
                } else {
                    self.finish(PlanEnd::Cancelled);
                }
            },
            _ => {},
        }
    }

    /// Takes a probe of the local file or destination.
    pub fn on_probe(&mut self, probe: PathProbe)
        requires
            plan_inv(old(self)@),
        ensures
            final(self)@ == plan_step(old(self)@, PlanReply::Probe(probe)),
            plan_inv(final(self)@),
    {
        proof {
            plan_keeps_inv(self@, PlanReply::Probe(probe));
        }
        match self.phase {
            PlanPhase::Capture => match ExpectedLocalSource::capture(
                &self.local_root,
                &self.local_path,
                probe,
            ) {
                Err(e) => self.fail(e),
                Ok(source) => {
                    self.source = Some(source);
                    self.phase = PlanPhase::AfterCapture;
                },
            },
            PlanPhase::VerifySource => match (&self.source, &self.local_hash) {
                (Some(source), Some(hash)) => match source.verify_unchanged(hash, probe) {
                    Err(e) => self.fail(e),
                    Ok(_) => self.verified(),
                },
                _ => {},
            },
            PlanPhase::CaptureDestination => match ExpectedLocalDestination::capture(
                &self.local_root,
                &self.local_path,
                probe,
            ) {
                Err(e) => self.fail(e),
                Ok(expected) => {
                    self.local_destination = Some(expected);
                    self.captured_destination();
                },
            },
            PlanPhase::VerifyAgain => match (&self.source, &self.local_hash) {
                (Some(source), Some(hash)) => match source.verify_unchanged(hash, probe) {
                    Err(e) => self.fail(e),
                    Ok(_) => self.finish(PlanEnd::Download),
                },
                _ => {},
            },
            _ => {},
        }
    }

    /// Takes the hash of the local file, and a probe made after it.
    pub fn on_hash(&mut self, hash: Result<String, Error>, probe: PathProbe)
        requires
            plan_inv(old(self)@),
        ensures
            final(self)@ == plan_step(old(self)@, PlanReply::Hashed(hashed(hash), probe)),
            plan_inv(final(self)@),
    {
        proof {
            plan_keeps_inv(self@, PlanReply::Hashed(hashed(hash), probe));
        }
        match self.phase {
            PlanPhase::Hash => match &self.source {
                None => {},
                Some(source) => match hash {
                    Err(cause) => {
                        let failure = Error::failure_from(
                            text::cat("hashing local ", &source.snapshot.resolved_path()),
                            &cause.full_message(),
                        );
                        self.fail(failure);
                    },
                    Ok(hash) => match source.verify_unchanged(&hash, probe) {
                        Err(e) => self.fail(e),
                        Ok(_) => {
                            self.local_hash = Some(hash);
                            self.phase = PlanPhase::AfterHash;
                        },
                    },
                },
            },
            _ => {},
        }
    }

    /// Takes what was learnt of the remote file.
    pub fn on_remote(&mut self, reply: Result<RemoteHash, Error>)
        requires
            plan_inv(old(self)@),
        ensures
            final(self)@ == plan_step(old(self)@, PlanReply::Remote(learnt(reply))),
            plan_inv(final(self)@),
    {
        proof {
            plan_keeps_inv(self@, PlanReply::Remote(learnt(reply)));
        }
        match self.phase {
            PlanPhase::Remote => match reply {
                Err(e) => self.fail(e),
                Ok(hash) => {
                    self.remote = Some(hash);
                    self.phase = PlanPhase::AfterRemote;
                },
            },
            _ => {},
        }
    }

    /// Takes a snapshot of the remote destination.
    pub fn on_snapshot(&mut self, reply: Result<RemoteDestinationSnapshot, Error>)
        requires
            plan_inv(old(self)@),
        ensures
            final(self)@ == plan_step(old(self)@, PlanReply::Snapshot(upload::seen(reply))),
            plan_inv(final(self)@),
    {
        proof {
            plan_keeps_inv(self@, PlanReply::Snapshot(upload::seen(reply)));
        }
        match self.phase {
            PlanPhase::Destination => match reply {
                Err(cause) => {
                    let failure = Error::failure_from(
                        text::cat("capturing remote destination for ", &self.relative),
                        &cause.full_message(),
                    );
                    self.fail(failure);
                },
                Ok(snapshot) => self.with_destination(snapshot),
            },
            _ => {},
        }
    }

    /// Takes what the file system says of the content at the local destination.
    pub fn on_content(&mut self, facts: HashFacts)
        requires
            plan_inv(old(self)@),
        ensures
            final(self)@ == plan_step(old(self)@, PlanReply::Content(facts)),
            plan_inv(final(self)@),
    {
        proof {
            plan_keeps_inv(self@, PlanReply::Content(facts));
        }
        match self.phase {
            PlanPhase::VerifyContent => match planning::verify_planned_local_hash(
                &self.local_path,
                &self.local_hash,
                facts,
            ) {
                Err(e) => self.fail(e),
                Ok(_) => {
                    if self.source.is_some() && self.local_hash.is_some() {
                        self.phase = PlanPhase::VerifySource;
                    } else {
                        self.verified();
                    }
                },
            },
            _ => {},
        }
    }
}

/// A planned upload.
#[derive(Debug)]
pub struct PlannedUpload {
    pub remote_path: String,
    pub hash: String,
    pub source: ExpectedLocalSource,
    pub destination: RemoteDestinationSnapshot,
}

/// A planned download. Its destination is settled once the directories above it
/// have been created.
#[derive(Debug)]
pub struct PlannedDownload {
    pub local_path: String,
    pub remote_path: String,
    pub expected_remote: PlannedRemoteSource,
    pub expected_local_hash: Option<String>,
    pub destination: Option<ExpectedLocalDestination>,
    pub existing_local_source: Option<ExpectedLocalSource>,
}

/// What a planned transfer does.
#[derive(Debug)]
pub enum PlannedOperation {
    Upload(PlannedUpload),
    Download(PlannedDownload),
    /// Nothing: the run only shows it.
    Preview,
}

/// A planned transfer, and the event it is to be reported by.
#[derive(Debug)]
pub struct PlannedTransfer {
    pub path: String,
    pub kind: SyncEventKind,
    pub operation: PlannedOperation,
}

/// A planned upload.
pub struct UploadPlanView {
    pub remote_path: Seq<char>,
    pub hash: Seq<char>,
    pub source: ExpectationView,
    pub destination: SnapshotView,
}

impl View for PlannedUpload {
    type V = UploadPlanView;

    open spec fn view(&self) -> UploadPlanView {
        UploadPlanView {
            remote_path: self.remote_path@,
            hash: self.hash@,
            source: self.source.snapshot@,
            destination: self.destination@,
        }
    }
}

/// A planned download.
pub struct DownloadPlanView {
    pub local_path: Seq<char>,
    pub remote_path: Seq<char>,
    pub expected_remote: RemoteSourceView,
    pub expected_local_hash: Option<Seq<char>>,
    pub destination: Option<ExpectationView>,
    pub existing_source: Option<ExpectationView>,
}

impl View for PlannedDownload {
    type V = DownloadPlanView;

    open spec fn view(&self) -> DownloadPlanView {
        DownloadPlanView {
            local_path: self.local_path@,
            remote_path: self.remote_path@,
            expected_remote: self.expected_remote@,
            expected_local_hash: state::optional(self.expected_local_hash),
            destination: match self.destination {
                Some(expected) => Some(expected.snapshot@),
                None => None,
            },
            existing_source: match self.existing_local_source {
                Some(source) => Some(source.snapshot@),
                None => None,
            },
        }
    }
}

/// What a planned transfer does.
pub enum OperationView {
    Upload(UploadPlanView),
    Download(DownloadPlanView),
    Preview,
}

/// A planned transfer, and the event it is to be reported by.
pub struct TransferView {
    pub path: Seq<char>,
    pub kind: SyncEventKind,
    pub operation: OperationView,
}

impl View for PlannedTransfer {
    type V = TransferView;

    open spec fn view(&self) -> TransferView {
        TransferView {
            path: self.path@,
            kind: self.kind,
            operation: match self.operation {
                PlannedOperation::Upload(plan) => OperationView::Upload(plan@),
                PlannedOperation::Download(plan) => OperationView::Download(plan@),
                PlannedOperation::Preview => OperationView::Preview,
            },
        }
    }
}

/// What the planning of a file gave.
#[derive(Debug)]
pub enum FileVerdict {
    Cancelled,
    Failed(Error),
    Unchanged,
    Conflict(FileState),
    Transfer(PlannedTransfer),
}

/// What the planning of a file gave.
pub enum VerdictView {
    Cancelled,
    Failed(error::ErrorView),
    Unchanged,
    Conflict(FileState),
    Transfer(TransferView),
}

impl View for FileVerdict {
    type V = VerdictView;

    open spec fn view(&self) -> VerdictView {
        match self {
            FileVerdict::Cancelled => VerdictView::Cancelled,
            FileVerdict::Failed(e) => VerdictView::Failed(e@),
            FileVerdict::Unchanged => VerdictView::Unchanged,
            FileVerdict::Conflict(state) => VerdictView::Conflict(*state),
            FileVerdict::Transfer(transfer) => VerdictView::Transfer(transfer@),
        }
    }
}

/// The event by which a planned transfer is to be reported.
pub open spec fn event_kind(end: PlanEnd) -> SyncEventKind {
    match end {
        PlanEnd::Overwrite => SyncEventKind::ForcedRemoteOverwrite,
        PlanEnd::Download => SyncEventKind::Downloaded,
        _ => SyncEventKind::Uploaded,
    }
}

/// What the planning of a file gave, once it has ended. A run that changes
/// nothing plans no operation.
pub open spec fn verdict(u: FilePlanView) -> VerdictView {
    match u.end {
        PlanEnd::Open => VerdictView::Cancelled,
        PlanEnd::Cancelled => VerdictView::Cancelled,
        PlanEnd::Failed => VerdictView::Failed(u.failure->Some_0),
        PlanEnd::Unchanged => VerdictView::Unchanged,
        PlanEnd::Conflict => VerdictView::Conflict(u.state),
        _ => VerdictView::Transfer(
            TransferView {
                path: u.relative,
                kind: event_kind(u.end),
                operation: if u.mode == ExecutionMode::DryRun {
                    OperationView::Preview
                } else if u.end == PlanEnd::Download {
                    OperationView::Download(
                        DownloadPlanView {
                            local_path: u.local_path,
                            remote_path: u.remote_path,
                            expected_remote: planning::remote_source(u.remote->Some_0),
                            expected_local_hash: u.local_hash,
                            destination: u.local_destination,
                            existing_source: u.source,
                        },
                    )
                } else {
                    OperationView::Upload(
                        UploadPlanView {
                            remote_path: u.remote_path,
                            hash: u.local_hash->Some_0,
                            source: u.source->Some_0,
                            destination: u.destination->Some_0,
                        },
                    )
                },
            },
        ),
    }
}

impl FilePlan {
    /// What the planning gave.
    pub fn verdict(self) -> (out: FileVerdict)
        requires
            plan_inv(self@),
            self.phase == PlanPhase::Done,
        ensures
            out@ == verdict(self@),
    {
        let kind = match self.end {
            PlanEnd::Open => {
                return FileVerdict::Cancelled;
            },
            PlanEnd::Cancelled => {
                return FileVerdict::Cancelled;
            },
            PlanEnd::Failed => {
                match self.failure {
                    Some(e) => {
                        return FileVerdict::Failed(e);
                    },
                    None => {
                        return FileVerdict::Cancelled;
                    },
                }
            },
            PlanEnd::Unchanged => {
                return FileVerdict::Unchanged;
            },
            PlanEnd::Conflict => {
                return FileVerdict::Conflict(self.state);
            },
            PlanEnd::Upload => SyncEventKind::Uploaded,
            PlanEnd::Overwrite => SyncEventKind::ForcedRemoteOverwrite,
            PlanEnd::Download => SyncEventKind::Downloaded,
        };
        if self.mode == ExecutionMode::DryRun {
            return FileVerdict::Transfer(
                PlannedTransfer {
                    path: self.relative,
                    kind,
                    operation: PlannedOperation::Preview,
                },
            );
        }
        match self.end {
            PlanEnd::Download => match self.remote {
                Some(remote) => {
                    let expected_remote = PlannedRemoteSource::capture(&remote);
                    FileVerdict::Transfer(
                        PlannedTransfer {
                            path: self.relative,
                            kind,
                            operation: PlannedOperation::Download(
                                PlannedDownload {
                                    local_path: self.local_path,
                                    remote_path: self.remote_path,
                                    expected_remote,
                                    expected_local_hash: self.local_hash,
                                    destination: self.local_destination,
                                    existing_local_source: self.source,
                                },
                            ),
                        },
                    )
                },
                None => FileVerdict::Cancelled,
            },
            _ => match (self.source, self.local_hash, self.destination) {
                (Some(source), Some(hash), Some(destination)) => FileVerdict::Transfer(
                    PlannedTransfer {
                        path: self.relative,
                        kind,
                        operation: PlannedOperation::Upload(
                            PlannedUpload {
                                remote_path: self.remote_path,
                                hash,
                                source,
                                destination,
                            },
                        ),
                    },
                ),
                _ => FileVerdict::Cancelled,
            },
        }
    }
}

/// A run that changes nothing never plans an operation.
pub proof fn dry_run_plans_no_operation(u: FilePlanView)
    requires
        u.mode == ExecutionMode::DryRun,
    ensures
        verdict(u) matches VerdictView::Transfer(transfer) ==> transfer.operation
            == OperationView::Preview,
{
}

/// Where replies, one after another, lead the planning of a file.
pub open spec fn plan_run(start: FilePlanView, replies: Seq<PlanReply>) -> FilePlanView
    decreases replies.len(),
{
    if replies.len() == 0 {
        start
    } else {
        plan_step(plan_run(start, replies.drop_last()), replies.last())
    }
}

/// Whether two plannings are reported alike: by the same event at the same path, or
/// by the same conflict.
pub open spec fn same_report(a: VerdictView, b: VerdictView) -> bool {
    match (a, b) {
        (VerdictView::Unchanged, VerdictView::Unchanged) => true,
        (VerdictView::Conflict(left), VerdictView::Conflict(right)) => left == right,
        (VerdictView::Transfer(left), VerdictView::Transfer(right)) => left.path == right.path
            && left.kind == right.kind,
        _ => false,
    }
}

/// Whether the planning of a download checks what it is going to replace.
pub open spec fn is_check(phase: PlanPhase) -> bool {
    phase == PlanPhase::VerifyContent || phase == PlanPhase::VerifySource || phase
        == PlanPhase::CaptureDestination || phase == PlanPhase::VerifyAgain
}

/// Whether `shown`, in a run that changes nothing, has come as far as `made` in one
/// that does, or has ended in a download that `made` still checks.
pub open spec fn keeps_step(shown: FilePlanView, made: FilePlanView) -> bool {
    &&& shown.mode == ExecutionMode::DryRun
    &&& made.mode == ExecutionMode::Apply
    &&& !is_check(shown.phase)
    &&& made.relative == shown.relative
    &&& {
        ||| made == in_earnest(shown) && shown.end != PlanEnd::Download
        ||| {
            &&& shown.phase == PlanPhase::Done
            &&& shown.end == PlanEnd::Download
            &&& if made.phase == PlanPhase::Done {
                made.end == PlanEnd::Download || made.end == PlanEnd::Failed
            } else {
                is_check(made.phase) && made.end == PlanEnd::Open
            }
        }
    }
}

/// A planning that has not ended is open.
pub open spec fn open_until_done(u: FilePlanView) -> bool {
    u.phase != PlanPhase::Done ==> u.end == PlanEnd::Open
}

/// A planning as it is in a run that makes its changes.
pub open spec fn in_earnest(shown: FilePlanView) -> FilePlanView {
    FilePlanView { mode: ExecutionMode::Apply, ..shown }
}

proof fn decision_keeps_step(shown: FilePlanView)
    requires
        shown.mode == ExecutionMode::DryRun,
        shown.end == PlanEnd::Open,
    ensures
        keeps_step(shown.decided(), in_earnest(shown).decided()),
        open_until_done(shown.decided()),
{
    match planning::action_for(shown.state, shown.force) {
        FileAction::Keep => {},
        FileAction::Upload => {},
        FileAction::Overwrite => {},
        FileAction::Refuse => {},
        FileAction::Download => {},
    }
}

proof fn destination_keeps_step(shown: FilePlanView, snapshot: SnapshotView)
    requires
        shown.mode == ExecutionMode::DryRun,
        shown.end == PlanEnd::Open,
    ensures
        keeps_step(
            shown.with_destination(snapshot),
            in_earnest(shown).with_destination(snapshot),
        ),
        open_until_done(shown.with_destination(snapshot)),
{
}

proof fn classification_keeps_step(shown: FilePlanView)
    requires
        shown.mode == ExecutionMode::DryRun,
        shown.end == PlanEnd::Open,
    ensures
        keeps_step(shown.classified(), in_earnest(shown).classified()),
        open_until_done(shown.classified()),
{
    let known = FilePlanView {
        state: state::standing(shown.local_hash, shown.remote_hash(), shown.known),
        ..shown
    };
    assert(in_earnest(shown).remote_hash() == shown.remote_hash());
    decision_keeps_step(known);
    destination_keeps_step(known, SnapshotView::Missing);
}

#[verifier::rlimit(30)]
proof fn equal_steps_keep_step(shown: FilePlanView, reply: PlanReply)
    requires
        shown.mode == ExecutionMode::DryRun,
        shown.end == PlanEnd::Open,
        shown.phase != PlanPhase::Done,
        !is_check(shown.phase),
    ensures
        keeps_step(plan_step(shown, reply), plan_step(in_earnest(shown), reply)),
        open_until_done(plan_step(shown, reply)),
{
    match reply {
        PlanReply::Gate(_) => {
            decision_keeps_step(shown);
            classification_keeps_step(shown);
        },
        PlanReply::Snapshot(seen) => {
            if let Ok(snapshot) = seen {
                destination_keeps_step(shown, snapshot);
            }
        },
        PlanReply::Probe(_) => {},
        PlanReply::Hashed(_, _) => {},
        PlanReply::Remote(_) => {},
        PlanReply::Content(_) => {},
    }
}

proof fn check_stays_a_download(made: FilePlanView, reply: PlanReply)
    requires
        is_check(made.phase),
        made.end == PlanEnd::Open,
    ensures
        ({
            let next = plan_step(made, reply);
            &&& next.relative == made.relative
            &&& next.mode == made.mode
            &&& if next.phase == PlanPhase::Done {
                next.end == PlanEnd::Download || next.end == PlanEnd::Failed
            } else {
                is_check(next.phase) && next.end == PlanEnd::Open
            }
        }),
{
    match reply {
        PlanReply::Content(_) => {},
        PlanReply::Probe(_) => {},
        _ => {},
    }
}

proof fn step_keeps_step(shown: FilePlanView, made: FilePlanView, reply: PlanReply)
    requires
        keeps_step(shown, made),
        open_until_done(shown),
    ensures
        keeps_step(plan_step(shown, reply), plan_step(made, reply)),
        open_until_done(plan_step(shown, reply)),
{
    if shown.phase == PlanPhase::Done {
        assert(plan_step(shown, reply) == shown);
        if made.phase == PlanPhase::Done {
            assert(plan_step(made, reply) == made);
        } else {
            check_stays_a_download(made, reply);
        }
    } else {
        assert(made == in_earnest(shown));
        equal_steps_keep_step(shown, reply);
    }
}

proof fn run_keeps_step(shown: FilePlanView, made: FilePlanView, replies: Seq<PlanReply>)
    requires
        keeps_step(shown, made),
        open_until_done(shown),
    ensures
        keeps_step(plan_run(shown, replies), plan_run(made, replies)),
        open_until_done(plan_run(shown, replies)),
    decreases replies.len(),
{
    if replies.len() > 0 {
        run_keeps_step(shown, made, replies.drop_last());
        step_keeps_step(
            plan_run(shown, replies.drop_last()),
            plan_run(made, replies.drop_last()),
            replies.last(),
        );
    }
}

/// For the same file and the same replies, a run that changes nothing reports what
/// one that does reports, unless that one fails or is not done yet; and where the
/// first fails or is cancelled, so is the second.
pub proof fn planning_is_previewed(
    relative: Seq<char>,
    local_root: Seq<char>,
    remote_root: Seq<char>,
    entry: InventoryEntry,
    known: Option<Seq<char>>,
    force: bool,
    remote_parent_missing: bool,
    local_parent_missing: bool,
    replies: Seq<PlanReply>,
)
    ensures
        ({
            let dry = plan_start(
                relative,
                local_root,
                remote_root,
                entry,
                known,
                force,
                ExecutionMode::DryRun,
                remote_parent_missing,
                local_parent_missing,
            );
            let applied = plan_start(
                relative,
                local_root,
                remote_root,
                entry,
                known,
                force,
                ExecutionMode::Apply,
                remote_parent_missing,
                local_parent_missing,
            );
            let shown = verdict(plan_run(dry, replies));
            let made = verdict(plan_run(applied, replies));
            &&& made is Failed || made is Cancelled || same_report(shown, made)
            &&& shown is Failed || shown is Cancelled ==> made == shown
        }),
{
    let dry = plan_start(
        relative,
        local_root,
        remote_root,
        entry,
        known,
        force,
        ExecutionMode::DryRun,
        remote_parent_missing,
        local_parent_missing,
    );
    let applied = plan_start(
        relative,
        local_root,
        remote_root,
        entry,
        known,
        force,
        ExecutionMode::Apply,
        remote_parent_missing,
        local_parent_missing,
    );
    run_keeps_step(dry, applied, replies);
}

impl FilePlanView {
    /// The hash of the remote file as it was seen last.
    pub open spec fn far_hash(self) -> Option<Seq<char>> {
        match self.destination {
            None => self.remote_hash(),
            Some(SnapshotView::File { sha256, .. }) => Some(sha256),
            Some(_) => None,
        }
    }

    /// Whether the planning knows both sides.
    pub open spec fn knows_both(self) -> bool {
        match self.phase {
            PlanPhase::Destination => true,
            PlanPhase::AfterDestination => true,
            PlanPhase::Done => self.end != PlanEnd::Open && self.end != PlanEnd::Cancelled
                && self.end != PlanEnd::Failed,
            phase => is_check(phase),
        }
    }
}

/// Whether the planning of a file stands by the hashes that it knows: it has one of each
/// side that holds the file, tells the state from them, and ends as that state asks.
pub open spec fn stands_by_its_hashes(u: FilePlanView) -> bool {
    &&& plan_inv(u)
    &&& u.phase != PlanPhase::Done ==> u.end == PlanEnd::Open
    &&& u.destination is Some ==> u.phase != PlanPhase::Destination && (u.knows_both() || u.phase
        == PlanPhase::Done)
    &&& u.knows_both() ==> {
        let action = planning::action_for(u.state, u.force);
        &&& u.local_hash is Some <==> u.entry.local is Some
        &&& u.remote is Some <==> u.entry.remote is Some
        &&& u.far_hash() is Some <==> u.entry.remote is Some
        &&& u.state == state::standing(u.local_hash, u.far_hash(), u.known)
        &&& is_check(u.phase) ==> action == FileAction::Download
        &&& u.phase == PlanPhase::Done ==> match u.end {
            PlanEnd::Unchanged => action == FileAction::Keep,
            PlanEnd::Conflict => action == FileAction::Refuse,
            PlanEnd::Upload => action == FileAction::Upload,
            PlanEnd::Overwrite => action == FileAction::Overwrite,
            _ => action == FileAction::Download,
        }
    }
}

proof fn decision_stands(u: FilePlanView)
    requires
        plan_inv(u.decided()),
        u.phase == PlanPhase::AfterRemote || u.phase == PlanPhase::AfterHash || u.phase
            == PlanPhase::Start || u.phase == PlanPhase::AfterDestination,
        u.end == PlanEnd::Open,
        u.local_hash is Some <==> u.entry.local is Some,
        u.remote is Some <==> u.entry.remote is Some,
        u.far_hash() is Some <==> u.entry.remote is Some,
        u.state == state::standing(u.local_hash, u.far_hash(), u.known),
    ensures
        stands_by_its_hashes(u.decided()),
{
}

proof fn destination_stands(u: FilePlanView, snapshot: SnapshotView)
    requires
        plan_inv(u.with_destination(snapshot)),
        u.end == PlanEnd::Open,
        u.local_hash is Some,
        u.entry.local is Some,
        u.remote is Some <==> u.entry.remote is Some,
        u.destination is None,
    ensures
        stands_by_its_hashes(u.with_destination(snapshot)),
{
}

proof fn classification_stands(u: FilePlanView)
    requires
        plan_inv(u.classified()),
        u.phase == PlanPhase::AfterRemote || u.phase == PlanPhase::AfterHash || u.phase
            == PlanPhase::Start,
        u.end == PlanEnd::Open,
        u.destination is None,
        plan::is_file(u.entry),
        u.local_hash is Some <==> u.entry.local is Some,
        u.remote is Some <==> u.entry.remote is Some,
    ensures
        stands_by_its_hashes(u.classified()),
{
    let known = FilePlanView {
        state: state::standing(u.local_hash, u.remote_hash(), u.known),
        ..u
    };
    if planning::writes_remote(known.state, u.force) {
        if u.remote_parent_missing {
            destination_stands(known, SnapshotView::Missing);
        }
    } else {
        decision_stands(known);
    }
}

#[verifier::rlimit(40)]
proof fn step_stands_by_its_hashes(u: FilePlanView, reply: PlanReply)
    requires
        stands_by_its_hashes(u),
    ensures
        stands_by_its_hashes(plan_step(u, reply)),
{
    plan_keeps_inv(u, reply);
    match (u.phase, reply) {
        (PlanPhase::Start, PlanReply::Gate(true)) => {
            if u.entry.local != Some(EntryKind::File) && u.entry.remote != Some(EntryKind::File) {
                classification_stands(u);
            }
        },
        (PlanPhase::AfterHash, PlanReply::Gate(true)) => {
            if u.entry.remote != Some(EntryKind::File) {
                classification_stands(u);
            }
        },
        (PlanPhase::AfterRemote, PlanReply::Gate(true)) => {
            classification_stands(u);
        },
        (PlanPhase::Destination, PlanReply::Snapshot(Ok(snapshot))) => {
            destination_stands(u, snapshot);
        },
        (PlanPhase::AfterDestination, PlanReply::Gate(true)) => {
            decision_stands(u);
        },
        _ => {},
    }
}

proof fn step_keeps_its_subject(u: FilePlanView, reply: PlanReply)
    ensures
        ({
            let v = plan_step(u, reply);
            &&& v.relative == u.relative && v.local_path == u.local_path
            &&& v.remote_path == u.remote_path && v.known == u.known
            &&& v.force == u.force && v.mode == u.mode && v.entry == u.entry
        }),
{
}

#[verifier::spinoff_prover]
proof fn run_stands_by_its_hashes(start: FilePlanView, replies: Seq<PlanReply>)
    requires
        stands_by_its_hashes(start),
    ensures
        ({
            let u = plan_run(start, replies);
            &&& stands_by_its_hashes(u)
            &&& u.relative == start.relative && u.local_path == start.local_path
            &&& u.remote_path == start.remote_path && u.known == start.known
            &&& u.force == start.force && u.mode == start.mode && u.entry == start.entry
        }),
    decreases replies.len(),
{
    if replies.len() > 0 {
        run_stands_by_its_hashes(start, replies.drop_last());
        let u = plan_run(start, replies.drop_last());
        let reply = replies.last();
        assert(plan_run(start, replies) == plan_step(u, reply));
        step_keeps_its_subject(u, reply);
        step_stands_by_its_hashes(u, reply);
    }
}

/// What the planning of a file comes to follows from the hashes that were found. It is
/// unchanged only where both sides hold the same, in conflict only where both changed
/// and nothing is forced, and transferred from the one side that changed or alone holds
/// it, or from the local side by force. What is planned is that file, with the hash that
/// was found at its source; a run that changes nothing plans no operation.
pub proof fn verdict_follows_the_hashes(
    relative: Seq<char>,
    local_root: Seq<char>,
    remote_root: Seq<char>,
    entry: InventoryEntry,
    known: Option<Seq<char>>,
    force: bool,
    mode: ExecutionMode,
    remote_parent_missing: bool,
    local_parent_missing: bool,
    replies: Seq<PlanReply>,
)
    requires
        plan::is_file(entry),
    ensures
        ({
            let u = plan_run(
                plan_start(
                    relative,
                    local_root,
                    remote_root,
                    entry,
                    known,
                    force,
                    mode,
                    remote_parent_missing,
                    local_parent_missing,
                ),
                replies,
            );
            let (local, remote) = (u.local_hash, u.far_hash());
            let both = local is Some && remote is Some;
            u.phase == PlanPhase::Done ==> match verdict(u) {
                VerdictView::Cancelled => true,
                VerdictView::Failed(e) => u.failure == Some(e),
                VerdictView::Unchanged => both && known is Some && local == remote,
                VerdictView::Conflict(state) => {
                    &&& planning::disputed(local, remote, known) && !force
                    &&& state == state::standing(local, remote, known)
                },
                VerdictView::Transfer(transfer) => {
                    let up = transfer.kind == SyncEventKind::Uploaded;
                    let down = transfer.kind == SyncEventKind::Downloaded;
                    &&& transfer.path == relative
                    &&& local is Some <==> entry.local is Some
                    &&& remote is Some <==> entry.remote is Some
                    &&& up <==> remote is None || (both && remote == known && local != known)
                    &&& down <==> local is None || (both && local == known && remote != known)
                    &&& !up && !down ==> {
                        &&& transfer.kind == SyncEventKind::ForcedRemoteOverwrite
                        &&& planning::disputed(local, remote, known) && force
                    }
                    &&& mode == ExecutionMode::DryRun <==> transfer.operation is Preview
                    &&& transfer.operation matches OperationView::Upload(upload) ==> {
                        &&& !down
                        &&& upload.remote_path == paths::remote_joined(remote_root, relative)
                        &&& Some(upload.hash) == local
                        &&& Some(upload.destination) == u.destination
                    }
                    &&& transfer.operation matches OperationView::Download(download) ==> {
                        &&& down
                        &&& download.remote_path == paths::remote_joined(remote_root, relative)
                        &&& download.local_path == local_paths::joined(local_root, relative)
                        &&& Some(download.expected_remote.sha256) == u.remote_hash()
                        &&& download.expected_local_hash == local
                    }
                },
            }
        }),
{
    let start = plan_start(
        relative,
        local_root,
        remote_root,
        entry,
        known,
        force,
        mode,
        remote_parent_missing,
        local_parent_missing,
    );
    run_stands_by_its_hashes(start, replies);
    let u = plan_run(start, replies);
    if u.knows_both() {
        planning::action_follows_the_change(u.local_hash, u.far_hash(), known, force);
    }
}

/// Whether a phase asks whether the selection is current.
pub open spec fn is_gate(phase: PlanPhase) -> bool {
    match phase {
        PlanPhase::Start => true,
        PlanPhase::AfterCapture => true,
        PlanPhase::AfterHash => true,
        PlanPhase::AfterRemote => true,
        PlanPhase::AfterDestination => true,
        _ => false,
    }
}

/// The planning of a file is cancelled exactly where it asks whether the selection
/// is current and it is not. Where it is, a local file is captured first, and a
/// remote file is looked at once the local side is known.
pub proof fn planning_is_cancelled_by_the_selection(u: FilePlanView, current: bool)
    requires
        is_gate(u.phase),
        u.end == PlanEnd::Open,
    ensures
        ({
            let next = plan_step(u, PlanReply::Gate(current));
            &&& next.end == PlanEnd::Cancelled <==> !current
            &&& u.phase == PlanPhase::Start ==> (next.phase == PlanPhase::Capture <==> current
                && u.entry.local == Some(EntryKind::File))
            &&& u.phase == PlanPhase::AfterCapture ==> (next.phase == PlanPhase::Hash <==> current)
            &&& u.phase == PlanPhase::AfterHash ==> (next.phase == PlanPhase::Remote <==> current
                && u.entry.remote == Some(EntryKind::File))
            &&& u.phase == PlanPhase::Start && u.entry.local is None ==> (next.phase
                == PlanPhase::Remote <==> current && u.entry.remote == Some(EntryKind::File))
            &&& next.source == u.source
            &&& next.local_hash == u.local_hash
            &&& next.remote == u.remote
        }),
{
}

/// The local hash of a file is taken exactly where the file is captured as a source
/// and is still that source with that hash afterwards.
pub proof fn local_side_is_hashed_as_captured(
    u: FilePlanView,
    probe: PathProbe,
    hash: Result<Seq<char>, error::ErrorView>,
    after: PathProbe,
)
    requires
        u.phase == PlanPhase::Capture,
        u.end == PlanEnd::Open,
    ensures
        ({
            let captured = plan_step(u, PlanReply::Probe(probe));
            let polled = plan_step(captured, PlanReply::Gate(true));
            let next = plan_step(polled, PlanReply::Hashed(hash, after));
            let source = upload::source_of(u.local_root, u.local_path, probe);
            let taken = source is Ok && hash is Ok && upload::source_unchanged(
                source->Ok_0,
                hash->Ok_0,
                after,
            ) is Ok;
            &&& captured.phase == PlanPhase::AfterCapture <==> source is Ok
            &&& captured.end == PlanEnd::Failed <==> source is Err
            &&& source is Ok ==> next.source == Some(source->Ok_0)
            &&& next.phase == PlanPhase::AfterHash <==> taken
            &&& next.end == PlanEnd::Failed <==> !taken
            &&& taken ==> next.local_hash == Some(hash->Ok_0)
        }),
{
}

/// What is learnt of the remote file is what was told of it, and a failure to tell
/// ends the planning.
pub proof fn remote_side_is_what_was_told(
    u: FilePlanView,
    hash: Result<RemoteHashView, error::ErrorView>,
    seen: Result<SnapshotView, error::ErrorView>,
)
    requires
        u.end == PlanEnd::Open,
    ensures
        u.phase == PlanPhase::Remote ==> {
            let next = plan_step(u, PlanReply::Remote(hash));
            &&& next.phase == PlanPhase::AfterRemote <==> hash is Ok
            &&& hash is Ok ==> next.remote == Some(hash->Ok_0)
            &&& next.end == PlanEnd::Failed <==> hash is Err
            &&& hash is Err ==> next.failure == Some(hash->Err_0)
        },
        u.phase == PlanPhase::Destination ==> {
            let next = plan_step(u, PlanReply::Snapshot(seen));
            let state = planning::authoritative(
                u.entry.remote,
                seen->Ok_0,
                u.relative,
                u.local_hash->Some_0,
                u.known,
            );
            &&& next.phase == PlanPhase::AfterDestination <==> seen is Ok && state is Ok
            &&& next.phase == PlanPhase::AfterDestination ==> next.destination == Some(seen->Ok_0)
                && next.state == state->Ok_0
            &&& next.end == PlanEnd::Failed <==> seen is Err || state is Err
        },
{
}

/// A download is planned exactly where the local content is still what it was
/// hashed to, a local file is still the one that was captured, before and after
/// its destination is captured, and the destination can be. Where the directory
/// above is still to be made, the destination is left open.
pub proof fn download_is_planned_where_its_local_side_holds(
    u: FilePlanView,
    facts: HashFacts,
    before: PathProbe,
    probe: PathProbe,
    after: PathProbe,
)
    requires
        u.phase == PlanPhase::VerifyContent,
        u.end == PlanEnd::Open,
        u.local_destination is None,
    ensures
        ({
            let looked = plan_step(u, PlanReply::Content(facts));
            let sourced = if looked.phase == PlanPhase::VerifySource {
                plan_step(looked, PlanReply::Probe(before))
            } else {
                looked
            };
            let placed = if sourced.phase == PlanPhase::CaptureDestination {
                plan_step(sourced, PlanReply::Probe(probe))
            } else {
                sourced
            };
            let next = if placed.phase == PlanPhase::VerifyAgain {
                plan_step(placed, PlanReply::Probe(after))
            } else {
                placed
            };
            let content = planning::planned_hash(u.local_path, u.local_hash, facts) is Ok;
            let replaces = u.source is Some && u.local_hash is Some;
            let same = replaces ==> upload::source_unchanged(
                u.source->Some_0,
                u.local_hash->Some_0,
                before,
            ) is Ok && upload::source_unchanged(
                u.source->Some_0,
                u.local_hash->Some_0,
                after,
            ) is Ok;
            let target = file_transfer::captured(u.local_root, u.local_path, probe);
            &&& next.phase == PlanPhase::Done
            &&& next.end == PlanEnd::Download <==> content && same && (u.local_parent_missing
                || target is Ok)
            &&& next.end == PlanEnd::Failed <==> next.end != PlanEnd::Download
            &&& next.end == PlanEnd::Download ==> next.local_destination
                == if u.local_parent_missing {
                None
            } else {
                Some(target->Ok_0)
            }
            &&& next.local_hash == u.local_hash
            &&& next.remote == u.remote
            &&& next.state == u.state
        }),
{
}

} // verus!
