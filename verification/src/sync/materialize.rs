//! Making sure of both ends of a planned transfer before it is carried out.

use crate::download::LocalDownload;
use crate::download;
use crate::error::Error;
use crate::error;
use crate::file_transfer::PathProbe;
use crate::file_transfer;
use crate::hash;
use crate::scope::ExecutionMode;
use crate::sync::file_plan::{
    DownloadPlanView, PlannedDownload, PlannedUpload, UploadPlanView,
};
use crate::sync::file_plan;
use crate::sync::planning::{HashFacts, RemoteHash, RemoteHashView};
use crate::sync::planning;
use crate::text;
use crate::upload::GuardedUpload;
use crate::upload;
use vstd::prelude::*;

verus! {

broadcast use vstd::seq::group_seq_axioms;

/// What the preparation of a transfer waits for.
#[derive(Debug, Clone, Copy, PartialEq, Eq, Structural)]
pub enum PreparePhase {
    /// The content at the local destination.
    Content,
    /// A probe of the local file.
    Source,
    /// Whether the selection is current.
    Poll,
    /// The content to transfer.
    Payload,
    /// A probe of the local file.
    SourceAgain,
    /// Whether the selection is current.
    PollAgain,
    Done,
}

/// What the preparation of a transfer ended in.
#[derive(Debug, Clone, Copy, PartialEq, Eq, Structural)]
pub enum PrepareEnd {
    Open,
    Cancelled,
    Failed,
    Ready,
}

/// The preparation of a planned upload.
#[derive(Debug)]
pub struct UploadPreparation {
    pub relative: String,
    pub plan: PlannedUpload,
    pub payload: Vec<u8>,
    pub phase: PreparePhase,
    pub end: PrepareEnd,
    pub failure: Option<Error>,
}

/// What the preparation of an upload says.
pub struct UploadPreparationView {
    pub relative: Seq<char>,
    pub plan: UploadPlanView,
    pub payload: Seq<u8>,
    pub phase: PreparePhase,
    pub end: PrepareEnd,
    pub failure: Option<error::ErrorView>,
}

impl View for UploadPreparation {
    type V = UploadPreparationView;

    open spec fn view(&self) -> UploadPreparationView {
        UploadPreparationView {
            relative: self.relative@,
            plan: self.plan@,
            payload: self.payload@,
            phase: self.phase,
            end: self.end,
            failure: match self.failure {
                Some(e) => Some(e@),
                None => None,
            },
        }
    }
}

impl UploadPreparationView {
    /// The preparation in another phase.
    pub open spec fn to(self, phase: PreparePhase) -> UploadPreparationView {
        UploadPreparationView { phase, ..self }
    }

    /// The preparation, ended.
    pub open spec fn ended(self, end: PrepareEnd) -> UploadPreparationView {
        UploadPreparationView { phase: PreparePhase::Done, end, ..self }
    }

    /// The preparation, ended by a failure.
    pub open spec fn failed(self, failure: error::ErrorView) -> UploadPreparationView {
        UploadPreparationView {
            phase: PreparePhase::Done,
            end: PrepareEnd::Failed,
            failure: Some(failure),
            ..self
        }
    }
}

/// A reply to the preparation of an upload.
pub enum UploadPrepareReply {
    Probe(PathProbe),
    Gate(bool),
    Payload(Result<Seq<u8>, error::ErrorView>),
}

/// Where a reply leads the preparation of an upload: the source must be what was
/// planned before and after its content is read, and so must its content.
pub open spec fn prepare_upload_step(
    u: UploadPreparationView,
    reply: UploadPrepareReply,
) -> UploadPreparationView {
    match (u.phase, reply) {
        (PreparePhase::Source, UploadPrepareReply::Probe(probe)) => match upload::source_unchanged(
            u.plan.source,
            u.plan.hash,
            probe,
        ) {
            Err(e) => u.failed(e),
            Ok(_) => u.to(PreparePhase::Poll),
        },
        (PreparePhase::Poll, UploadPrepareReply::Gate(current)) => if current {
            u.to(PreparePhase::Payload)
        } else {
            u.ended(PrepareEnd::Cancelled)
        },
        (PreparePhase::Payload, UploadPrepareReply::Payload(payload)) => match payload {
            Err(cause) => u.failed(
                error::failure_from(
                    "reading local "@ + u.plan.source.resolved(),
                    error::full_message(cause),
                ),
            ),
            Ok(payload) => if hash::sha256_hex(payload) != u.plan.hash {
                u.failed(
                    error::failure("local source changed while materializing "@ + u.relative),
                )
            } else {
                (UploadPreparationView { payload, ..u }).to(PreparePhase::SourceAgain)
            },
        },
        (PreparePhase::SourceAgain, UploadPrepareReply::Probe(probe)) =>
            match upload::source_unchanged(u.plan.source, u.plan.hash, probe) {
            Err(e) => u.failed(e),
            Ok(_) => u.to(PreparePhase::PollAgain),
        },
        (PreparePhase::PollAgain, UploadPrepareReply::Gate(current)) => if current {
            u.ended(PrepareEnd::Ready)
        } else {
            u.ended(PrepareEnd::Cancelled)
        },
        _ => u,
    }
}

impl UploadPreparation {
    /// Starts the preparation of a planned upload.
    pub fn materialize_upload(relative: &str, plan: PlannedUpload) -> (out: UploadPreparation)
        ensures
            out@ == (UploadPreparationView {
                relative: relative@,
                plan: plan@,
                payload: Seq::empty(),
                phase: PreparePhase::Source,
                end: PrepareEnd::Open,
                failure: None,
            }),
    {
        let payload: Vec<u8> = Vec::new();
        assert(payload@ =~= Seq::<u8>::empty());
        UploadPreparation {
            relative: relative.to_owned(),
            plan,
            payload,
            phase: PreparePhase::Source,
            end: PrepareEnd::Open,
            failure: None,
        }
    }

    /// Ends the preparation.
    fn finish(&mut self, end: PrepareEnd)
        ensures
            final(self)@ == old(self)@.ended(end),
    {
        self.phase = PreparePhase::Done;
        self.end = end;
    }

    /// Ends the preparation by a failure.
    fn fail(&mut self, failure: Error)
        ensures
            final(self)@ == old(self)@.failed(failure@),
    {
        self.phase = PreparePhase::Done;
        self.end = PrepareEnd::Failed;
        self.failure = Some(failure);
    }

    /// Takes a probe of the source.
    pub fn on_probe(&mut self, probe: PathProbe)
        ensures
            final(self)@ == prepare_upload_step(old(self)@, UploadPrepareReply::Probe(probe)),
    {
        match self.phase {
            PreparePhase::Source => match self.plan.source.verify_unchanged(
                &self.plan.hash,
                probe,
            ) {
                Err(e) => self.fail(e),
                Ok(_) => {
                    self.phase = PreparePhase::Poll;
                },
            },
            PreparePhase::SourceAgain => match self.plan.source.verify_unchanged(
                &self.plan.hash,
                probe,
            ) {
                Err(e) => self.fail(e),
                Ok(_) => {
                    self.phase = PreparePhase::PollAgain;
                },
            },
            _ => {},
        }
    }

    /// Takes the answer whether the selection is still current.
    pub fn on_gate(&mut self, current: bool)
        ensures
            final(self)@ == prepare_upload_step(old(self)@, UploadPrepareReply::Gate(current)),
    {
        match self.phase {
            PreparePhase::Poll => {
                if current {
                    self.phase = PreparePhase::Payload;
                } else {
                    self.finish(PrepareEnd::Cancelled);
                }
            },
            PreparePhase::PollAgain => {
                if current {
                    self.finish(PrepareEnd::Ready);
                } else {
                    self.finish(PrepareEnd::Cancelled);
                }
            },
            _ => {},
        }
    }

    /// Takes the content of the source.
    pub fn on_payload(&mut self, reply: Result<Vec<u8>, Error>)
        ensures
            final(self)@ == prepare_upload_step(
                old(self)@,
                UploadPrepareReply::Payload(file_transfer::fetched(reply)),
            ),
    {
        match self.phase {
            PreparePhase::Payload => match reply {
                Err(cause) => {
                    let failure = Error::failure_from(
                        text::cat("reading local ", &self.plan.source.snapshot.resolved_path()),
                        &cause.full_message(),
                    );
                    self.fail(failure);
                },
                Ok(payload) => {
                    let content = hash::hash_bytes(&payload);
                    if !text::same(&content, &self.plan.hash) {
                        let failure = Error::failure(
                            text::cat("local source changed while materializing ", &self.relative),
                        );
                        self.fail(failure);
                    } else {
                        self.payload = payload;
                        self.phase = PreparePhase::SourceAgain;
                    }
                },
            },
            _ => {},
        }
    }

    /// The guarded upload that a ready preparation leads to, and its payload.
    pub fn into_upload(self, mode: ExecutionMode) -> (out: (GuardedUpload, Vec<u8>))
        ensures
            out.1@ == self@.payload,
            out.0@ == upload::upload_start(
                upload::RequestView {
                    rel: self@.relative,
                    remote_path: self@.plan.remote_path,
                    size: self@.payload.len() as u64,
                    hash: self@.plan.hash,
                    source: self@.plan.source,
                    destination: self@.plan.destination,
                },
                self@.payload,
                mode,
            ),
    {
        let guarded = GuardedUpload::upload_one_guarded(
            &self.relative,
            &self.plan.remote_path,
            &self.payload,
            &self.plan.hash,
            self.plan.source,
            self.plan.destination,
            mode,
        );
        (guarded, self.payload)
    }
}

/// The preparation of a planned download.
#[derive(Debug)]
pub struct DownloadPreparation {
    pub relative: String,
    pub plan: PlannedDownload,
    pub payload: Option<RemoteHash>,
    pub phase: PreparePhase,
    pub end: PrepareEnd,
    pub failure: Option<Error>,
}

/// What the preparation of a download says.
pub struct DownloadPreparationView {
    pub relative: Seq<char>,
    pub plan: DownloadPlanView,
    pub payload: Option<RemoteHashView>,
    pub phase: PreparePhase,
    pub end: PrepareEnd,
    pub failure: Option<error::ErrorView>,
}

impl View for DownloadPreparation {
    type V = DownloadPreparationView;

    open spec fn view(&self) -> DownloadPreparationView {
        DownloadPreparationView {
            relative: self.relative@,
            plan: self.plan@,
            payload: match self.payload {
                Some(hash) => Some(hash@),
                None => None,
            },
            phase: self.phase,
            end: self.end,
            failure: match self.failure {
                Some(e) => Some(e@),
                None => None,
            },
        }
    }
}

impl DownloadPreparationView {
    /// The preparation in another phase.
    pub open spec fn to(self, phase: PreparePhase) -> DownloadPreparationView {
        DownloadPreparationView { phase, ..self }
    }

    /// The preparation, ended.
    pub open spec fn ended(self, end: PrepareEnd) -> DownloadPreparationView {
        DownloadPreparationView { phase: PreparePhase::Done, end, ..self }
    }

    /// The preparation, ended by a failure.
    pub open spec fn failed(self, failure: error::ErrorView) -> DownloadPreparationView {
        DownloadPreparationView {
            phase: PreparePhase::Done,
            end: PrepareEnd::Failed,
            failure: Some(failure),
            ..self
        }
    }
}

/// A reply to the preparation of a download.
pub enum DownloadPrepareReply {
    Content(HashFacts),
    Probe(PathProbe),
    Gate(bool),
    Fresh(Result<RemoteHashView, error::ErrorView>),
}

/// Where a reply leads the preparation of a download: the local side must be
/// what was planned, and what is freshly fetched must be what was planned.
pub open spec fn prepare_download_step(
    u: DownloadPreparationView,
    reply: DownloadPrepareReply,
) -> DownloadPreparationView {
    match (u.phase, reply) {
        (PreparePhase::Content, DownloadPrepareReply::Content(facts)) =>
            match planning::planned_hash(u.plan.local_path, u.plan.expected_local_hash, facts) {
            Err(e) => u.failed(e),
            Ok(_) => if u.plan.existing_source is Some && u.plan.expected_local_hash is Some {
                u.to(PreparePhase::Source)
            } else {
                u.to(PreparePhase::Poll)
            },
        },
        (PreparePhase::Source, DownloadPrepareReply::Probe(probe)) => match (
            u.plan.existing_source,
            u.plan.expected_local_hash,
        ) {
            (Some(source), Some(hash)) => match upload::source_unchanged(source, hash, probe) {
                Err(e) => u.failed(e),
                Ok(_) => u.to(PreparePhase::Poll),
            },
            _ => u,
        },
        (PreparePhase::Poll, DownloadPrepareReply::Gate(current)) => if current {
            u.to(PreparePhase::Payload)
        } else {
            u.ended(PrepareEnd::Cancelled)
        },
        (PreparePhase::Payload, DownloadPrepareReply::Fresh(fresh)) => match fresh {
            Err(e) => u.failed(e),
            Ok(fresh) => if !planning::remote_source_matches(u.plan.expected_remote, fresh) {
                u.failed(
                    error::failure("remote source changed while materializing "@ + u.relative),
                )
            } else {
                (DownloadPreparationView { payload: Some(fresh), ..u }).to(PreparePhase::PollAgain)
            },
        },
        (PreparePhase::PollAgain, DownloadPrepareReply::Gate(current)) => if current {
            u.ended(PrepareEnd::Ready)
        } else {
            u.ended(PrepareEnd::Cancelled)
        },
        _ => u,
    }
}

impl DownloadPreparation {
    /// Starts the preparation of a planned download.
    pub fn materialize_download(relative: &str, plan: PlannedDownload) -> (out: DownloadPreparation)
        ensures
            out@ == (DownloadPreparationView {
                relative: relative@,
                plan: plan@,
                payload: None,
                phase: PreparePhase::Content,
                end: PrepareEnd::Open,
                failure: None,
            }),
    {
        DownloadPreparation {
            relative: relative.to_owned(),
            plan,
            payload: None,
            phase: PreparePhase::Content,
            end: PrepareEnd::Open,
            failure: None,
        }
    }

    /// Ends the preparation.
    fn finish(&mut self, end: PrepareEnd)
        ensures
            final(self)@ == old(self)@.ended(end),
    {
        self.phase = PreparePhase::Done;
        self.end = end;
    }

    /// Ends the preparation by a failure.
    fn fail(&mut self, failure: Error)
        ensures
            final(self)@ == old(self)@.failed(failure@),
    {
        self.phase = PreparePhase::Done;
        self.end = PrepareEnd::Failed;
        self.failure = Some(failure);
    }

    /// Takes what the file system says of the content at the destination.
    pub fn on_content(&mut self, facts: HashFacts)
        ensures
            final(self)@ == prepare_download_step(
                old(self)@,
                DownloadPrepareReply::Content(facts),
            ),
    {
        match self.phase {
            PreparePhase::Content => match planning::verify_planned_local_hash(
                &self.plan.local_path,
                &self.plan.expected_local_hash,
                facts,
            ) {
                Err(e) => self.fail(e),
                Ok(_) => {
                    if self.plan.existing_local_source.is_some()
                        && self.plan.expected_local_hash.is_some() {
                        self.phase = PreparePhase::Source;
                    } else {
                        self.phase = PreparePhase::Poll;
                    }
                },
            },
            _ => {},
        }
    }

    /// Takes a probe of the file that was there.
    pub fn on_probe(&mut self, probe: PathProbe)
        ensures
            final(self)@ == prepare_download_step(old(self)@, DownloadPrepareReply::Probe(probe)),
    {
        match self.phase {
            PreparePhase::Source => match (
                &self.plan.existing_local_source,
                &self.plan.expected_local_hash,
            ) {
                (Some(source), Some(hash)) => match source.verify_unchanged(hash, probe) {
                    Err(e) => self.fail(e),
                    Ok(_) => {
                        self.phase = PreparePhase::Poll;
                    },
                },
                _ => {},
            },
            _ => {},
        }
    }

    /// Takes the answer whether the selection is still current.
    pub fn on_gate(&mut self, current: bool)
        ensures
            final(self)@ == prepare_download_step(
                old(self)@,
                DownloadPrepareReply::Gate(current),
            ),
    {
        match self.phase {
            PreparePhase::Poll => {
                if current {
                    self.phase = PreparePhase::Payload;
                } else {
                    self.finish(PrepareEnd::Cancelled);
                }
            },
            PreparePhase::PollAgain => {
                if current {
                    self.finish(PrepareEnd::Ready);
                } else {
                    self.finish(PrepareEnd::Cancelled);
                }
            },
            _ => {},
        }
    }

    /// Takes what was freshly fetched of the remote file.
    pub fn on_fresh(&mut self, reply: Result<RemoteHash, Error>)
        ensures
            final(self)@ == prepare_download_step(
                old(self)@,
                DownloadPrepareReply::Fresh(file_plan::learnt(reply)),
            ),
    {
        match self.phase {
            PreparePhase::Payload => match reply {
                Err(e) => self.fail(e),
                Ok(fresh) => {
                    if !self.plan.expected_remote.matches(&fresh) {
                        let failure = Error::failure(
                            text::cat("remote source changed while materializing ", &self.relative),
                        );
                        self.fail(failure);
                    } else {
                        self.payload = Some(fresh);
                        self.phase = PreparePhase::PollAgain;
                    }
                },
            },
            _ => {},
        }
    }

    /// The guarded download that a ready preparation leads to, and its payload.
    /// There is none where the destination or the payload is not settled.
    pub fn into_download(self, mode: ExecutionMode) -> (out: Option<
        (LocalDownload, Option<Vec<u8>>),
    >)
        ensures
            match (self@.plan.destination, self@.payload) {
                (Some(destination), Some(payload)) => out matches Some(
                    (started, bytes),
                ) && started.wf() && started@ == download::guarded_start(
                    self@.relative,
                    self@.plan.local_path,
                    payload.bytes,
                    payload.size,
                    payload.sha256,
                    payload.mtime,
                    destination,
                    mode,
                ) && (match bytes {
                    Some(b) => payload.bytes == Some(b@),
                    None => payload.bytes is None,
                }),
                _ => out is None,
            },
    {
        match (self.plan.destination, self.payload) {
            (Some(destination), Some(payload)) => {
                let started = LocalDownload::download_one_guarded(
                    &self.relative,
                    &self.plan.local_path,
                    &payload.bytes,
                    payload.size,
                    &payload.sha256,
                    payload.mtime,
                    destination,
                    mode,
                );
                Some((started, payload.bytes))
            },
            _ => None,
        }
    }
}

/// A transfer is ready only where what it carries is what was planned: the bytes
/// of an upload have the planned hash, and a fresh download is the planned one.
pub proof fn ready_transfers_carry_what_was_planned(
    u: UploadPreparationView,
    upload_reply: UploadPrepareReply,
    d: DownloadPreparationView,
    download_reply: DownloadPrepareReply,
)
    requires
        u.phase == PreparePhase::SourceAgain || u.phase == PreparePhase::PollAgain
            ==> hash::sha256_hex(u.payload) == u.plan.hash,
        d.phase == PreparePhase::PollAgain ==> (d.payload matches Some(payload)
            && planning::remote_source_matches(d.plan.expected_remote, payload)),
        u.end != PrepareEnd::Ready,
        d.end != PrepareEnd::Ready,
    ensures
        ({
            let next = prepare_upload_step(u, upload_reply);
            next.phase == PreparePhase::SourceAgain || next.phase == PreparePhase::PollAgain
                || next.end == PrepareEnd::Ready ==> hash::sha256_hex(next.payload)
                == next.plan.hash
        }),
        ({
            let next = prepare_download_step(d, download_reply);
            next.phase == PreparePhase::PollAgain || next.end == PrepareEnd::Ready ==> (
            next.payload matches Some(payload) && planning::remote_source_matches(
                next.plan.expected_remote,
                payload,
            ))
        }),
{
}

/// Where the five replies to the preparation of an upload lead.
pub open spec fn prepared_upload(
    u: UploadPreparationView,
    before: PathProbe,
    current: bool,
    payload: Result<Seq<u8>, error::ErrorView>,
    after: PathProbe,
    still: bool,
) -> UploadPreparationView {
    let probed = prepare_upload_step(u, UploadPrepareReply::Probe(before));
    let polled = prepare_upload_step(probed, UploadPrepareReply::Gate(current));
    let read = prepare_upload_step(polled, UploadPrepareReply::Payload(payload));
    let again = prepare_upload_step(read, UploadPrepareReply::Probe(after));
    prepare_upload_step(again, UploadPrepareReply::Gate(still))
}

/// An upload is ready exactly where its source is what was planned before and
/// after it is read, what was read has the planned hash, and the selection stays
/// current. It carries what was read. It is cancelled exactly where the selection
/// no longer is current and nothing failed until then.
pub proof fn upload_is_ready_where_everything_holds(
    u: UploadPreparationView,
    before: PathProbe,
    current: bool,
    payload: Result<Seq<u8>, error::ErrorView>,
    after: PathProbe,
    still: bool,
)
    requires
        u.phase == PreparePhase::Source,
        u.end == PrepareEnd::Open,
    ensures
        ({
            let done = prepared_upload(u, before, current, payload, after, still);
            let held = upload::source_unchanged(u.plan.source, u.plan.hash, before) is Ok;
            let as_planned = payload is Ok && hash::sha256_hex(payload->Ok_0) == u.plan.hash;
            let stays = upload::source_unchanged(u.plan.source, u.plan.hash, after) is Ok;
            &&& done.phase == PreparePhase::Done
            &&& done.plan == u.plan
            &&& done.relative == u.relative
            &&& done.end == PrepareEnd::Ready <==> held && current && as_planned && stays && still
            &&& done.end == PrepareEnd::Ready ==> done.payload == payload->Ok_0
            &&& done.end == PrepareEnd::Cancelled <==> held && (!current || (as_planned && stays
                && !still))
            &&& done.end == PrepareEnd::Failed <==> !held || (current && (!as_planned || !stays))
            &&& done.end == PrepareEnd::Failed ==> done.failure is Some
        }),
{
}

/// Where the replies to the preparation of a download lead, the probe being asked
/// for only where there is a local file.
pub open spec fn prepared_download(
    d: DownloadPreparationView,
    facts: HashFacts,
    before: PathProbe,
    current: bool,
    fresh: Result<RemoteHashView, error::ErrorView>,
    still: bool,
) -> DownloadPreparationView {
    let looked = prepare_download_step(d, DownloadPrepareReply::Content(facts));
    let probed = prepare_download_step(looked, DownloadPrepareReply::Probe(before));
    let polled = prepare_download_step(probed, DownloadPrepareReply::Gate(current));
    let fetched = prepare_download_step(polled, DownloadPrepareReply::Fresh(fresh));
    prepare_download_step(fetched, DownloadPrepareReply::Gate(still))
}

/// A download is ready exactly where the local content is the planned one, a
/// local file is what it was planned to replace, what was fetched is what was
/// planned, and the selection stays current. It carries what was fetched.
pub proof fn download_is_ready_where_everything_holds(
    d: DownloadPreparationView,
    facts: HashFacts,
    before: PathProbe,
    current: bool,
    fresh: Result<RemoteHashView, error::ErrorView>,
    still: bool,
)
    requires
        d.phase == PreparePhase::Content,
        d.end == PrepareEnd::Open,
    ensures
        ({
            let done = prepared_download(d, facts, before, current, fresh, still);
            let content = planning::planned_hash(
                d.plan.local_path,
                d.plan.expected_local_hash,
                facts,
            ) is Ok;
            let replaces = d.plan.existing_source is Some && d.plan.expected_local_hash is Some
                ==> upload::source_unchanged(
                d.plan.existing_source->Some_0,
                d.plan.expected_local_hash->Some_0,
                before,
            ) is Ok;
            let as_planned = fresh is Ok && planning::remote_source_matches(
                d.plan.expected_remote,
                fresh->Ok_0,
            );
            &&& done.phase == PreparePhase::Done
            &&& done.plan == d.plan
            &&& done.relative == d.relative
            &&& done.end == PrepareEnd::Ready <==> content && replaces && current && as_planned
                && still
            &&& done.end == PrepareEnd::Ready ==> done.payload == Some(fresh->Ok_0)
            &&& done.end == PrepareEnd::Cancelled <==> content && replaces && (!current || (
            as_planned && !still))
            &&& done.end == PrepareEnd::Failed <==> !content || !replaces || (current
                && !as_planned)
            &&& done.end == PrepareEnd::Failed ==> done.failure is Some
        }),
{
}

} // verus!
