//! Settling the local destination of a download once the directories above it
//! have been created.

use crate::download::ExpectedLocalDestination;
use crate::error::Error;
use crate::error;
use crate::file_transfer::PathProbe;
use crate::file_transfer;
use crate::sync::directories::{DirectoryLook, DirectoryView, ExpectedDirectory};
use crate::sync::directories;
use crate::sync::file_plan::{DownloadPlanView, PlannedDownload};
use crate::sync::planning::HashFacts;
use crate::sync::planning;
use crate::sync::validation;
use crate::text;
use crate::upload;
use vstd::prelude::*;

verus! {

broadcast use vstd::seq::group_seq_axioms;

/// What the settling of a destination waits for.
#[derive(Debug, Clone, Copy, PartialEq, Eq, Structural)]
pub enum FinalizePhase {
    /// Whether the selection is current.
    Poll,
    /// What the file system says of the next directory above the destination.
    Above,
    /// The content at the destination.
    Content,
    /// A probe of the file that was there.
    Source,
    /// Whether the selection is current.
    PollBeforeCapture,
    /// A probe of the destination.
    Capture,
    /// Whether the selection is current.
    PollLast,
    Done,
}

/// What the settling of a destination ended in.
#[derive(Debug, Clone, Copy, PartialEq, Eq, Structural)]
pub enum FinalizeEnd {
    Open,
    Cancelled,
    Failed,
    Settled,
}

/// The settling of the destination of one download. Everything that is looked at
/// before the capture is looked at again after it.
#[derive(Debug)]
pub struct Finalization {
    pub local_root: String,
    pub plan: PlannedDownload,
    pub queue: Vec<usize>,
    pub at: usize,
    pub captured: Option<ExpectedLocalDestination>,
    pub phase: FinalizePhase,
    pub end: FinalizeEnd,
    pub failure: Option<Error>,
}

/// What the settling of a destination says.
pub struct FinalizationView {
    pub local_root: Seq<char>,
    pub plan: DownloadPlanView,
    pub queue: Seq<usize>,
    pub at: nat,
    pub captured: Option<file_transfer::ExpectationView>,
    pub phase: FinalizePhase,
    pub end: FinalizeEnd,
    pub failure: Option<error::ErrorView>,
}

impl View for Finalization {
    type V = FinalizationView;

    open spec fn view(&self) -> FinalizationView {
        FinalizationView {
            local_root: self.local_root@,
            plan: self.plan@,
            queue: self.queue@,
            at: self.at as nat,
            captured: match self.captured {
                Some(expected) => Some(expected.snapshot@),
                None => None,
            },
            phase: self.phase,
            end: self.end,
            failure: match self.failure {
                Some(e) => Some(e@),
                None => None,
            },
        }
    }
}

impl FinalizationView {
    /// The settling in another phase.
    pub open spec fn to(self, phase: FinalizePhase) -> FinalizationView {
        FinalizationView { phase, ..self }
    }

    /// The settling, ended.
    pub open spec fn ended(self, end: FinalizeEnd) -> FinalizationView {
        FinalizationView { phase: FinalizePhase::Done, end, ..self }
    }

    /// The settling, ended by a failure.
    pub open spec fn failed(self, failure: error::ErrorView) -> FinalizationView {
        FinalizationView {
            phase: FinalizePhase::Done,
            end: FinalizeEnd::Failed,
            failure: Some(failure),
            ..self
        }
    }

    /// The settling once the local side was found unchanged.
    pub open spec fn confirmed(self) -> FinalizationView {
        if self.captured is None {
            self.to(FinalizePhase::PollBeforeCapture)
        } else {
            self.to(FinalizePhase::PollLast)
        }
    }

    /// The queue names directories, and one of them is being looked at while the
    /// phase says so.
    pub open spec fn wf(self, count: nat) -> bool {
        &&& forall|i: int| 0 <= i < self.queue.len() ==> (#[trigger] self.queue[i]) < count
        &&& self.queue.len() > 0
        &&& self.phase == FinalizePhase::Above ==> self.at < self.queue.len()
        &&& self.phase == FinalizePhase::Source ==> self.plan.existing_source is Some
            && self.plan.expected_local_hash is Some
        &&& self.phase == FinalizePhase::PollLast ==> self.captured is Some
        &&& self.end == FinalizeEnd::Settled ==> self.captured is Some
        &&& self.end == FinalizeEnd::Failed ==> self.failure is Some
        &&& self.phase == FinalizePhase::Done <==> self.end != FinalizeEnd::Open
    }
}

/// A reply to the settling of a destination.
pub enum FinalizeReply {
    Gate(bool),
    Local(DirectoryLook),
    Content(HashFacts),
    Probe(PathProbe),
}

/// Where a reply leads the settling of a destination. A reply that the phase
/// does not wait for changes nothing.
pub open spec fn finalize_step(
    u: FinalizationView,
    directories: Seq<DirectoryView>,
    reply: FinalizeReply,
) -> FinalizationView {
    match (u.phase, reply) {
        (FinalizePhase::Poll, FinalizeReply::Gate(current)) => if current {
            (FinalizationView { at: 0, ..u }).to(FinalizePhase::Above)
        } else {
            u.ended(FinalizeEnd::Cancelled)
        },
        (FinalizePhase::Above, FinalizeReply::Local(facts)) => {
            let expected = directories[u.queue[u.at as int] as int];
            match validation::local_holds(
                expected.local,
                directories::local_path(u.local_root, expected.relative),
                facts,
            ) {
                Err(e) => u.failed(e),
                Ok(_) => (FinalizationView { at: u.at + 1, ..u }).to(
                    if u.at + 1 < u.queue.len() {
                        FinalizePhase::Above
                    } else {
                        FinalizePhase::Content
                    },
                ),
            }
        },
        (FinalizePhase::Content, FinalizeReply::Content(facts)) => match planning::planned_hash(
            u.plan.local_path,
            u.plan.expected_local_hash,
            facts,
        ) {
            Err(e) => u.failed(e),
            Ok(_) => if u.plan.existing_source is Some && u.plan.expected_local_hash is Some {
                u.to(FinalizePhase::Source)
            } else {
                u.confirmed()
            },
        },
        (FinalizePhase::Source, FinalizeReply::Probe(probe)) => match (
            u.plan.existing_source,
            u.plan.expected_local_hash,
        ) {
            (Some(source), Some(hash)) => match upload::source_unchanged(source, hash, probe) {
                Err(e) => u.failed(e),
                Ok(_) => u.confirmed(),
            },
            _ => u,
        },
        (FinalizePhase::PollBeforeCapture, FinalizeReply::Gate(current)) => if current {
            u.to(FinalizePhase::Capture)
        } else {
            u.ended(FinalizeEnd::Cancelled)
        },
        (FinalizePhase::Capture, FinalizeReply::Probe(probe)) => match file_transfer::captured(
            u.local_root,
            u.plan.local_path,
            probe,
        ) {
            Err(e) => u.failed(e),
            Ok(expected) => (FinalizationView { captured: Some(expected), at: 0, ..u }).to(
                FinalizePhase::Above,
            ),
        },
        (FinalizePhase::PollLast, FinalizeReply::Gate(current)) => if current {
            u.ended(FinalizeEnd::Settled)
        } else {
            u.ended(FinalizeEnd::Cancelled)
        },
        _ => u,
    }
}

/// The directories that the settling of a destination rests on: the root, and
/// those strictly above the path.
pub open spec fn settle_queue(directories: Seq<DirectoryView>, relative: Seq<char>) -> Seq<usize> {
    seq![0usize] + validation::above(directories, relative, directories.len() as int)
}

/// Where the settling of a destination starts.
pub open spec fn finalize_start(
    local_root: Seq<char>,
    directories: Seq<DirectoryView>,
    relative: Seq<char>,
    plan: DownloadPlanView,
) -> FinalizationView {
    FinalizationView {
        local_root,
        plan,
        queue: settle_queue(directories, relative),
        at: 0,
        captured: None,
        phase: FinalizePhase::Poll,
        end: FinalizeEnd::Open,
        failure: None,
    }
}

impl Finalization {
    /// Starts the settling of the destination of a download of `relative`.
    pub fn start(
        local_root: &str,
        expected: &Vec<ExpectedDirectory>,
        relative: &str,
        plan: PlannedDownload,
    ) -> (out: Finalization)
        requires
            expected@.len() > 0,
        ensures
            out@ == finalize_start(local_root@, text::views(expected@), relative@, plan@),
            out@.wf(expected@.len()),
    {
        let mut queue: Vec<usize> = Vec::new();
        queue.push(0);
        let mut between = validation::above_of(expected, relative, expected.len());
        let ghost rest = between@;
        queue.append(&mut between);
        assert(queue@ =~= seq![0usize] + rest);
        Finalization {
            local_root: local_root.to_owned(),
            plan,
            queue,
            at: 0,
            captured: None,
            phase: FinalizePhase::Poll,
            end: FinalizeEnd::Open,
            failure: None,
        }
    }

    /// Ends the settling.
    fn finish(&mut self, end: FinalizeEnd)
        ensures
            final(self)@ == old(self)@.ended(end),
    {
        self.phase = FinalizePhase::Done;
        self.end = end;
    }

    /// Ends the settling by a failure.
    fn fail(&mut self, failure: Error)
        ensures
            final(self)@ == old(self)@.failed(failure@),
    {
        self.phase = FinalizePhase::Done;
        self.end = FinalizeEnd::Failed;
        self.failure = Some(failure);
    }

    /// Goes on once the local side was found unchanged.
    fn confirm(&mut self)
        ensures
            final(self)@ == old(self)@.confirmed(),
    {
        self.phase = match self.captured {
            None => FinalizePhase::PollBeforeCapture,
            Some(_) => FinalizePhase::PollLast,
        };
    }

    /// Takes the answer whether the selection is still current.
    pub fn on_gate(&mut self, current: bool, expected: &Vec<ExpectedDirectory>)
        requires
            old(self)@.wf(expected@.len()),
        ensures
            final(self)@ == finalize_step(
                old(self)@,
                text::views(expected@),
                FinalizeReply::Gate(current),
            ),
            final(self)@.wf(expected@.len()),
    {
        match self.phase {
            FinalizePhase::Poll => {
                if current {
                    self.at = 0;
                    self.phase = FinalizePhase::Above;
                } else {
                    self.finish(FinalizeEnd::Cancelled);
                }
            },
            FinalizePhase::PollBeforeCapture => {
                if current {
                    self.phase = FinalizePhase::Capture;
                } else {
                    self.finish(FinalizeEnd::Cancelled);
                }
            },
            FinalizePhase::PollLast => {
                if current {
                    self.finish(FinalizeEnd::Settled);
                } else {
                    self.finish(FinalizeEnd::Cancelled);
                }
            },
            _ => {},
        }
    }

    /// Takes what the file system says of the directory that is looked at.
    pub fn on_local(
        &mut self,
        expected: &Vec<ExpectedDirectory>,
        facts: DirectoryLook,
    )
        requires
            old(self)@.wf(expected@.len()),
        ensures
            final(self)@ == finalize_step(
                old(self)@,
                text::views(expected@),
                FinalizeReply::Local(facts),
            ),
            final(self)@.wf(expected@.len()),
    {
        match self.phase {
            FinalizePhase::Above => {
                let index: usize = self.queue[self.at];
                assert(text::views(expected@)[index as int] == expected@[index as int]@);
                match validation::validate_local_directory(
                    &self.local_root,
                    &expected[index],
                    facts,
                ) {
                    Err(e) => self.fail(e),
                    Ok(_) => {
                        let total: usize = self.queue.len();
                        self.at = self.at + 1;
                        self.phase = if self.at < total {
                            FinalizePhase::Above
                        } else {
                            FinalizePhase::Content
                        };
                    },
                }
            },
            _ => {},
        }
    }

    /// Takes what the file system says of the content at the destination.
    pub fn on_content(&mut self, facts: HashFacts, expected: &Vec<ExpectedDirectory>)
        requires
            old(self)@.wf(expected@.len()),
        ensures
            final(self)@ == finalize_step(
                old(self)@,
                text::views(expected@),
                FinalizeReply::Content(facts),
            ),
            final(self)@.wf(expected@.len()),
    {
        match self.phase {
            FinalizePhase::Content => match planning::verify_planned_local_hash(
                &self.plan.local_path,
                &self.plan.expected_local_hash,
                facts,
            ) {
                Err(e) => self.fail(e),
                Ok(_) => {
                    if self.plan.existing_local_source.is_some()
                        && self.plan.expected_local_hash.is_some() {
                        self.phase = FinalizePhase::Source;
                    } else {
                        self.confirm();
                    }
                },
            },
            _ => {},
        }
    }

    /// Takes a probe of the file that was there, or of the destination.
    pub fn on_probe(&mut self, probe: PathProbe, expected: &Vec<ExpectedDirectory>)
        requires
            old(self)@.wf(expected@.len()),
        ensures
            final(self)@ == finalize_step(
                old(self)@,
                text::views(expected@),
                FinalizeReply::Probe(probe),
            ),
            final(self)@.wf(expected@.len()),
    {
        match self.phase {
            FinalizePhase::Source => match (
                &self.plan.existing_local_source,
                &self.plan.expected_local_hash,
            ) {
                (Some(source), Some(hash)) => match source.verify_unchanged(hash, probe) {
                    Err(e) => self.fail(e),
                    Ok(_) => self.confirm(),
                },
                _ => {},
            },
            FinalizePhase::Capture => match ExpectedLocalDestination::capture(
                &self.local_root,
                &self.plan.local_path,
                probe,
            ) {
                Err(e) => self.fail(e),
                Ok(destination) => {
                    self.captured = Some(destination);
                    self.at = 0;
                    self.phase = FinalizePhase::Above;
                },
            },
            _ => {},
        }
    }
}

/// What the settling of a destination gave.
#[derive(Debug)]
pub enum FinalizeVerdict {
    Cancelled,
    Failed(Error),
    Settled(PlannedDownload),
}

/// What the settling of a destination gave: the plan with its destination.
pub open spec fn settled_plan(u: FinalizationView) -> DownloadPlanView {
    DownloadPlanView { destination: u.captured, ..u.plan }
}

impl Finalization {
    /// What the settling gave, once it has ended.
    pub fn verdict(self, expected: &Vec<ExpectedDirectory>) -> (out: FinalizeVerdict)
        requires
            self@.wf(expected@.len()),
            self.phase == FinalizePhase::Done,
        ensures
            match (self.end, out) {
                (FinalizeEnd::Cancelled, FinalizeVerdict::Cancelled) => true,
                (FinalizeEnd::Failed, FinalizeVerdict::Failed(e)) => Some(e@) == self@.failure,
                (FinalizeEnd::Settled, FinalizeVerdict::Settled(plan)) => plan@ == settled_plan(
                    self@,
                ),
                _ => false,
            },
    {
        match self.end {
            FinalizeEnd::Settled => {
                let mut plan = self.plan;
                plan.destination = self.captured;
                FinalizeVerdict::Settled(plan)
            },
            FinalizeEnd::Failed => match self.failure {
                Some(e) => FinalizeVerdict::Failed(e),
                None => FinalizeVerdict::Cancelled,
            },
            _ => FinalizeVerdict::Cancelled,
        }
    }
}

/// A destination is settled only by a capture after which the directories above
/// it, the content and the file that was there were all seen again unchanged.
pub proof fn settling_confirms_after_capture(
    u: FinalizationView,
    directories: Seq<DirectoryView>,
    reply: FinalizeReply,
)
    ensures
        finalize_step(u, directories, reply).end == FinalizeEnd::Settled && u.end
            != FinalizeEnd::Settled ==> u.phase == FinalizePhase::PollLast,
        finalize_step(u, directories, reply).phase == FinalizePhase::PollLast && u.phase
            != FinalizePhase::PollLast ==> u.captured is Some && (u.phase == FinalizePhase::Content
            || u.phase == FinalizePhase::Source),
        finalize_step(u, directories, reply).phase == FinalizePhase::Content && u.phase
            != FinalizePhase::Content ==> u.phase == FinalizePhase::Above && u.at + 1
            >= u.queue.len(),
{
    match reply {
        FinalizeReply::Gate(_) => {},
        FinalizeReply::Local(_) => {},
        FinalizeReply::Content(_) => {},
        FinalizeReply::Probe(_) => {},
    }
}

/// A destination rests on the root and on every directory strictly above it, and
/// on nothing else.
pub proof fn settling_rests_on_every_directory_above(
    directories: Seq<DirectoryView>,
    relative: Seq<char>,
)
    requires
        0 < directories.len() <= usize::MAX,
    ensures
        forall|i: usize| #[trigger]
            settle_queue(directories, relative).contains(i) <==> i == 0 || (1 <= i
                < directories.len() && directories::strictly_above(
                directories[i as int].relative,
                relative,
            )),
{
    let count = directories.len() as int;
    validation::above_is_every_directory_above(directories, relative, count);
    let between = validation::above(directories, relative, count);
    let queue = settle_queue(directories, relative);
    assert(queue == seq![0usize] + between);
    assert(queue[0] == 0usize);
    assert forall|i: usize| #[trigger] queue.contains(i) <==> i == 0 || (1 <= i
        < directories.len() && directories::strictly_above(
        directories[i as int].relative,
        relative,
    )) by {
        if between.contains(i) {
            let k = choose|k: int| 0 <= k < between.len() && between[k] == i;
            assert(queue[k + 1] == i);
        }
        if queue.contains(i) {
            let k = choose|k: int| 0 <= k < queue.len() && queue[k] == i;
            if k > 0 {
                assert(between[k - 1] == i);
                assert(between.contains(i));
            }
        }
    }
}

/// The settling of a destination is cancelled exactly where the selection is no
/// longer current, at each of the three times it is asked; where it is, the
/// directories are looked at, the destination is captured and the settling ends,
/// in this order.
pub proof fn settling_is_cancelled_by_the_selection(
    u: FinalizationView,
    directories: Seq<DirectoryView>,
    current: bool,
)
    requires
        u.phase == FinalizePhase::Poll || u.phase == FinalizePhase::PollBeforeCapture || u.phase
            == FinalizePhase::PollLast,
        u.end == FinalizeEnd::Open,
    ensures
        ({
            let next = finalize_step(u, directories, FinalizeReply::Gate(current));
            &&& next.end == FinalizeEnd::Cancelled <==> !current
            &&& next.end == FinalizeEnd::Settled <==> current && u.phase == FinalizePhase::PollLast
            &&& next.phase == FinalizePhase::Above <==> current && u.phase == FinalizePhase::Poll
            &&& next.phase == FinalizePhase::Above ==> next.at == 0
            &&& next.phase == FinalizePhase::Capture <==> current && u.phase
                == FinalizePhase::PollBeforeCapture
            &&& next.captured == u.captured
            &&& next.plan == u.plan
        }),
{
}

/// The settling of a destination goes on past a directory exactly where it is
/// what it is expected to be, and past the last of them to the content.
pub proof fn settling_goes_on_past_what_stands(
    u: FinalizationView,
    directories: Seq<DirectoryView>,
    facts: DirectoryLook,
)
    requires
        u.phase == FinalizePhase::Above,
        u.at < u.queue.len(),
        u.end == FinalizeEnd::Open,
    ensures
        ({
            let next = finalize_step(u, directories, FinalizeReply::Local(facts));
            let expected = directories[u.queue[u.at as int] as int];
            let holds = validation::local_holds(
                expected.local,
                directories::local_path(u.local_root, expected.relative),
                facts,
            ) is Ok;
            &&& next.end == FinalizeEnd::Failed <==> !holds
            &&& holds ==> next.at == u.at + 1
            &&& next.phase == FinalizePhase::Above <==> holds && u.at + 1 < u.queue.len()
            &&& next.phase == FinalizePhase::Content <==> holds && u.at + 1 == u.queue.len()
            &&& next.captured == u.captured
            &&& next.plan == u.plan
        }),
{
}

/// The content at a destination must be the planned one, and a file that is
/// replaced the one that was planned to be: the settling then goes on to the
/// capture, or, where it was made, to the end.
pub proof fn settling_goes_on_past_the_planned_content(
    u: FinalizationView,
    directories: Seq<DirectoryView>,
    facts: HashFacts,
    probe: PathProbe,
)
    requires
        u.phase == FinalizePhase::Content,
        u.end == FinalizeEnd::Open,
    ensures
        ({
            let looked = finalize_step(u, directories, FinalizeReply::Content(facts));
            let next = if looked.phase == FinalizePhase::Source {
                finalize_step(looked, directories, FinalizeReply::Probe(probe))
            } else {
                looked
            };
            let replaces = u.plan.existing_source is Some && u.plan.expected_local_hash is Some;
            let holds = planning::planned_hash(
                u.plan.local_path,
                u.plan.expected_local_hash,
                facts,
            ) is Ok && (replaces ==> upload::source_unchanged(
                u.plan.existing_source->Some_0,
                u.plan.expected_local_hash->Some_0,
                probe,
            ) is Ok);
            &&& next.end == FinalizeEnd::Failed <==> !holds
            &&& next.phase == FinalizePhase::PollBeforeCapture <==> holds && u.captured is None
            &&& next.phase == FinalizePhase::PollLast <==> holds && u.captured is Some
            &&& next.captured == u.captured
            &&& next.plan == u.plan
        }),
{
}

/// The destination that is settled is the one that is captured, and after its
/// capture everything above it is looked at once more. The plan is changed in
/// nothing else.
pub proof fn settled_destination_is_the_captured_one(
    u: FinalizationView,
    directories: Seq<DirectoryView>,
    probe: PathProbe,
)
    requires
        u.phase == FinalizePhase::Capture,
        u.end == FinalizeEnd::Open,
    ensures
        ({
            let next = finalize_step(u, directories, FinalizeReply::Probe(probe));
            let captured = file_transfer::captured(u.local_root, u.plan.local_path, probe);
            &&& next.end == FinalizeEnd::Failed <==> captured is Err
            &&& captured is Ok ==> {
                &&& next.phase == FinalizePhase::Above
                &&& next.at == 0
                &&& settled_plan(next).destination == Some(captured->Ok_0)
                &&& settled_plan(next).local_path == u.plan.local_path
                &&& settled_plan(next).expected_local_hash == u.plan.expected_local_hash
                &&& settled_plan(next).existing_source == u.plan.existing_source
                &&& settled_plan(next).expected_remote == u.plan.expected_remote
            }
        }),
{
}

} // verus!
