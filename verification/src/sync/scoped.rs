//! The synchronisation of a scope as a whole: what is looked at, planned, created
//! and transferred in which order, and how it ends.

use crate::error::Error;
use crate::error;
use crate::inventory::{InventoryEntry, ScopedInventory};
use crate::order::PathMap;
use crate::order;
use crate::scope::{CommitDecision, ExecutionMode, ScopeView, SyncScope};
use crate::state;
use crate::sync::creation::{CreationEnd, CreationPhase, DirectoryAction, DirectoryCreation};
use crate::sync::creation;
use crate::sync::directories::{
    DirectoryView,
    ExpectedDirectory,
    ExpectedLocalDirectory,
    ExpectedRemoteDirectory,
    IdentityView,
    LocalView,
};
use crate::sync::directories;
use crate::sync::file_plan::{
    DownloadPlanView,
    FilePlan,
    FileVerdict,
    OperationView,
    PlannedOperation,
    PlannedTransfer,
    TransferView,
    VerdictView,
};
use crate::sync::file_plan;
use crate::sync::finalize::{Finalization, FinalizeVerdict};
use crate::sync::finalize;
use crate::sync::outcome;
use crate::sync::plan::{
    Entries, EventView, IssueView, OutcomeView, SyncEvent, SyncEventKind, SyncIssue, SyncOutcome,
};
use crate::sync::plan;
use crate::sync::planning;
use crate::sync::validation::DirectoryValidation;
use crate::sync::validation;
use crate::text;
use crate::upload;
use vstd::prelude::*;

verus! {

broadcast use vstd::seq::group_seq_axioms;

/// What the synchronisation of a scope waits for.
#[derive(Debug, Clone, Copy, PartialEq, Eq, Structural)]
pub enum SyncStage {
    /// The inventory of the scope.
    Inventory,
    /// The capture of the directories it rests on.
    Capture,
    /// The planning of the file at the position.
    File,
    /// The creation of the directory at the position.
    Directory,
    /// The settling of the destination of a download.
    Settle,
    /// Whether the selection is current, before the next transfer.
    TransferPoll,
    /// The next transfer.
    Transfer,
    /// Whether the selection is current, once everything was transferred.
    ValidateStart,
    /// Whether the selection is current, before a directory is checked.
    ValidatePoll,
    /// The check of the directory at the position.
    Validate,
    /// Whether the selection is current, at the end.
    ValidateEnd,
    Done,
}

/// The synchronisation of a scope.
#[derive(Debug)]
pub struct ScopedSync {
    pub scope: SyncScope,
    pub local_root: String,
    pub remote_root: String,
    pub force: bool,
    pub mode: ExecutionMode,
    pub entries: PathMap<InventoryEntry>,
    pub files: Vec<String>,
    pub directories: Vec<ExpectedDirectory>,
    pub pending: Vec<PlannedTransfer>,
    pub settled: Vec<PlannedTransfer>,
    pub current: Option<SyncEvent>,
    pub action: DirectoryAction,
    pub outcome: SyncOutcome,
    pub stage: SyncStage,
    pub at: usize,
    pub failure: Option<Error>,
}

/// What the synchronisation of a scope says. `current` is the event of the
/// transfer that is being settled or carried out, and `action` what is to be
/// done about the directory at the position.
pub struct ScopedView {
    pub scope: ScopeView,
    pub local_root: Seq<char>,
    pub remote_root: Seq<char>,
    pub force: bool,
    pub mode: ExecutionMode,
    pub entries: Entries,
    pub files: Seq<Seq<char>>,
    pub directories: Seq<DirectoryView>,
    pub pending: Seq<TransferView>,
    pub settled: Seq<TransferView>,
    pub current: Option<EventView>,
    pub action: DirectoryAction,
    pub outcome: OutcomeView,
    pub stage: SyncStage,
    pub at: nat,
    pub failure: Option<error::ErrorView>,
}

impl View for ScopedSync {
    type V = ScopedView;

    open spec fn view(&self) -> ScopedView {
        ScopedView {
            scope: self.scope@,
            local_root: self.local_root@,
            remote_root: self.remote_root@,
            force: self.force,
            mode: self.mode,
            entries: self.entries@,
            files: text::views(self.files@),
            directories: text::views(self.directories@),
            pending: text::views(self.pending@),
            settled: text::views(self.settled@),
            current: match self.current {
                Some(event) => Some(event@),
                None => None,
            },
            action: self.action,
            outcome: self.outcome@,
            stage: self.stage,
            at: self.at as nat,
            failure: match self.failure {
                Some(e) => Some(e@),
                None => None,
            },
        }
    }
}

/// The next directory from a position on about which something is to be done.
pub open spec fn next_action(directories: Seq<DirectoryView>, from: nat) -> Result<
    Option<(nat, DirectoryAction)>,
    error::ErrorView,
>
    decreases directories.len() - from,
{
    if from >= directories.len() {
        Ok(None)
    } else {
        match creation::action_of(directories[from as int]) {
            Err(e) => Err(e),
            Ok(Some(action)) => Ok(Some((from, action))),
            Ok(None) => next_action(directories, from + 1),
        }
    }
}

/// Whether the destination of a transfer is still to be settled.
pub open spec fn unsettled(transfer: TransferView) -> bool {
    match transfer.operation {
        OperationView::Download(plan) => plan.destination is None,
        _ => false,
    }
}

/// How many transfers come before the first one whose destination is still to be
/// settled.
pub open spec fn settled_count(pending: Seq<TransferView>) -> nat
    decreases pending.len(),
{
    if pending.len() == 0 || unsettled(pending[0]) {
        0
    } else {
        1 + settled_count(pending.skip(1))
    }
}

/// Whether a transfer is only shown.
pub open spec fn is_preview(transfer: TransferView) -> bool {
    transfer.operation == OperationView::Preview
}

impl OutcomeView {
    /// The outcome with one more event.
    pub open spec fn with_event(self, path: Seq<char>, kind: SyncEventKind) -> OutcomeView {
        OutcomeView { events: self.events.push(EventView { path, kind }), ..self }
    }

    /// The outcome with one more issue.
    pub open spec fn with_issue(self, issue: IssueView) -> OutcomeView {
        OutcomeView { issues: self.issues.push(issue), ..self }
    }
}

impl ScopedView {
    /// The synchronisation, ended by a failure.
    pub open spec fn failed(self, failure: error::ErrorView) -> ScopedView {
        ScopedView { stage: SyncStage::Done, failure: Some(failure), ..self }
    }

    /// The synchronisation, ended because the selection is no longer current.
    pub open spec fn cancelled(self) -> ScopedView {
        ScopedView { stage: SyncStage::Done, outcome: outcome::cancelled(self.outcome), ..self }
    }

    /// The synchronisation, ended with everything done.
    pub open spec fn completed(self) -> ScopedView {
        ScopedView { stage: SyncStage::Done, outcome: outcome::sorted(self.outcome), ..self }
    }

    /// The synchronisation at the planning of a file, or past the last one.
    pub open spec fn at_file(self, at: nat) -> ScopedView {
        if at < self.files.len() {
            ScopedView { stage: SyncStage::File, at, ..self }
        } else {
            self.at_directory(0)
        }
    }

    /// The synchronisation at the next directory from a position on about which
    /// something is to be done, or past the last one.
    pub open spec fn at_directory(self, from: nat) -> ScopedView {
        match next_action(self.directories, from) {
            Err(e) => self.failed(e),
            Ok(Some((at, action))) => ScopedView {
                stage: SyncStage::Directory,
                at,
                action,
                ..self
            },
            Ok(None) => self.at_settling(),
        }
    }

    /// The synchronisation at the next transfer whose destination is still to be
    /// settled, or past the last one.
    pub open spec fn at_settling(self) -> ScopedView {
        let count = settled_count(self.pending) as int;
        let moved = ScopedView {
            pending: self.pending.skip(count),
            settled: self.settled + self.pending.take(count),
            current: None,
            ..self
        };
        if moved.pending.len() > 0 {
            ScopedView { stage: SyncStage::Settle, ..moved }
        } else {
            moved.at_transfer()
        }
    }

    /// The synchronisation before the next transfer, or past the last one.
    pub open spec fn at_transfer(self) -> ScopedView {
        ScopedView {
            stage: if self.settled.len() > 0 {
                SyncStage::TransferPoll
            } else {
                SyncStage::ValidateStart
            },
            current: None,
            ..self
        }
    }

    /// The synchronisation before the check of a directory, or past the last one.
    pub open spec fn at_validation(self, at: nat) -> ScopedView {
        ScopedView {
            stage: if at < self.directories.len() {
                SyncStage::ValidatePoll
            } else {
                SyncStage::ValidateEnd
            },
            at,
            ..self
        }
    }

    /// The directory at the position as it is once it was created.
    pub open spec fn created(self, identity: Option<IdentityView>) -> DirectoryView {
        let before = self.directories[self.at as int];
        match self.action {
            DirectoryAction::CreateLocal => DirectoryView {
                local: match identity {
                    Some(identity) => LocalView::Directory(identity),
                    None => before.local,
                },
                ..before
            },
            DirectoryAction::CreateRemote => DirectoryView {
                remote: ExpectedRemoteDirectory::Directory,
                ..before
            },
        }
    }
}

/// The event by which the creation of a directory is reported.
pub open spec fn creation_kind(action: DirectoryAction) -> SyncEventKind {
    match action {
        DirectoryAction::CreateLocal => SyncEventKind::CreatedLocalDirectory,
        DirectoryAction::CreateRemote => SyncEventKind::CreatedRemoteDirectory,
    }
}

/// What came of the creation of a directory.
pub enum CreatedView {
    Cancelled,
    Failed(error::ErrorView),
    Created(Option<IdentityView>),
}

/// A reply to the synchronisation of a scope.
pub enum SyncReply {
    Inventory(Result<(Entries, Entries), error::ErrorView>),
    Captured(Result<Seq<DirectoryView>, error::ErrorView>),
    File(VerdictView),
    Created(CreatedView),
    Settled(SettledView),
    Gate(bool),
    Transferred(Result<CommitDecision, error::ErrorView>),
    Validated(Result<(), error::ErrorView>),
}

/// What came of the settling of a destination.
pub enum SettledView {
    Cancelled,
    Failed(error::ErrorView),
    Settled(DownloadPlanView),
}

/// The outcome of an inventory before anything is looked at: its type conflicts,
/// those of the ancestors of the selected path last, and what is only remembered.
pub open spec fn initial_outcome(entries: Entries, ancestors: Entries) -> OutcomeView {
    let kept = plan::retained(entries, ancestors);
    OutcomeView {
        events: plan::absences_of(kept, order::keys_of(kept)),
        issues: plan::type_issues(kept, plan::topmost_of(kept, order::keys_of(kept)))
            + plan::type_issues(
            ancestors,
            plan::topmost_of(ancestors, order::keys_of(ancestors)),
        ),
        cancelled: false,
    }
}

/// Where a reply leads the synchronisation of a scope. A reply that the stage
/// does not wait for changes nothing.
pub open spec fn sync_step(u: ScopedView, reply: SyncReply) -> ScopedView {
    match (u.stage, reply) {
        (SyncStage::Inventory, SyncReply::Inventory(found)) => match found {
            Err(e) => u.failed(e),
            Ok((entries, ancestors)) => {
                let kept = plan::retained(entries, ancestors);
                ScopedView {
                    entries: kept,
                    files: plan::files_of(kept, order::keys_of(kept)),
                    outcome: initial_outcome(entries, ancestors),
                    stage: SyncStage::Capture,
                    ..u
                }
            },
        },
        (SyncStage::Capture, SyncReply::Captured(captured)) => match captured {
            Err(e) => u.failed(e),
            Ok(directories) => (ScopedView { directories, ..u }).at_file(0),
        },
        (SyncStage::File, SyncReply::File(verdict)) => match verdict {
            VerdictView::Cancelled => u.cancelled(),
            VerdictView::Failed(e) => u.failed(e),
            VerdictView::Unchanged => (ScopedView {
                outcome: u.outcome.with_event(u.files[u.at as int], SyncEventKind::Unchanged),
                ..u
            }).at_file(u.at + 1),
            VerdictView::Conflict(state) => (ScopedView {
                outcome: u.outcome.with_issue(
                    IssueView::FileConflict { path: u.files[u.at as int], state },
                ),
                ..u
            }).at_file(u.at + 1),
            VerdictView::Transfer(transfer) => (ScopedView {
                pending: u.pending.push(transfer),
                ..u
            }).at_file(u.at + 1),
        },
        (SyncStage::Directory, SyncReply::Created(created)) => match created {
            CreatedView::Cancelled => u.cancelled(),
            CreatedView::Failed(e) => u.failed(e),
            CreatedView::Created(identity) => (ScopedView {
                outcome: u.outcome.with_event(
                    u.directories[u.at as int].relative,
                    creation_kind(u.action),
                ),
                directories: if u.mode == ExecutionMode::DryRun {
                    u.directories
                } else {
                    u.directories.update(u.at as int, u.created(identity))
                },
                ..u
            }).at_directory(u.at + 1),
        },
        (SyncStage::Settle, SyncReply::Settled(settled)) => match settled {
            SettledView::Cancelled => u.cancelled(),
            SettledView::Failed(e) => u.failed(e),
            SettledView::Settled(plan) => match u.current {
                None => u,
                Some(event) => (ScopedView {
                    settled: u.settled.push(
                        TransferView {
                            path: event.path,
                            kind: event.kind,
                            operation: OperationView::Download(plan),
                        },
                    ),
                    ..u
                }).at_settling(),
            },
        },
        (SyncStage::TransferPoll, SyncReply::Gate(current)) => if !current {
            u.cancelled()
        } else if is_preview(u.settled[0]) {
            (ScopedView {
                outcome: u.outcome.with_event(u.settled[0].path, u.settled[0].kind),
                settled: u.settled.skip(1),
                ..u
            }).at_transfer()
        } else {
            ScopedView { stage: SyncStage::Transfer, ..u }
        },
        (SyncStage::Transfer, SyncReply::Transferred(transferred)) => match transferred {
            Err(e) => u.failed(e),
            Ok(CommitDecision::Cancelled) => u.cancelled(),
            Ok(CommitDecision::Committed) => match u.current {
                None => u,
                Some(event) => (ScopedView {
                    outcome: u.outcome.with_event(event.path, event.kind),
                    ..u
                }).at_transfer(),
            },
        },
        (SyncStage::ValidateStart, SyncReply::Gate(current)) => if current {
            u.at_validation(0)
        } else {
            u.cancelled()
        },
        (SyncStage::ValidatePoll, SyncReply::Gate(current)) => if current {
            ScopedView { stage: SyncStage::Validate, ..u }
        } else {
            u.cancelled()
        },
        (SyncStage::Validate, SyncReply::Validated(validated)) => match validated {
            Err(e) => u.failed(e),
            Ok(_) => u.at_validation(u.at + 1),
        },
        (SyncStage::ValidateEnd, SyncReply::Gate(current)) => if current {
            u.completed()
        } else {
            u.cancelled()
        },
        _ => u,
    }
}

/// What a stage works on is there.
pub open spec fn sync_inv(u: ScopedView) -> bool {
    &&& forall|i: int|
        0 <= i < u.files.len() ==> u.entries.contains_key(#[trigger] u.files[i]) && plan::is_file(
            u.entries[u.files[i]],
        )
    &&& u.stage != SyncStage::Inventory && u.stage != SyncStage::Capture && u.stage
        != SyncStage::Done ==> u.directories.len() > 0
    &&& match u.stage {
        SyncStage::File => u.at < u.files.len(),
        SyncStage::Directory => u.at < u.directories.len() && creation::action_of(
            u.directories[u.at as int],
        ) == Ok::<Option<DirectoryAction>, error::ErrorView>(Some(u.action)),
        SyncStage::Settle => u.current is None ==> u.pending.len() > 0 && unsettled(u.pending[0]),
        SyncStage::TransferPoll => u.settled.len() > 0,
        SyncStage::Transfer => u.current is None ==> u.settled.len() > 0,
        SyncStage::ValidatePoll => u.at < u.directories.len(),
        SyncStage::Validate => u.at < u.directories.len(),
        _ => true,
    }
}

proof fn next_action_is_found(directories: Seq<DirectoryView>, from: nat)
    ensures
        next_action(directories, from) matches Ok(Some((at, action))) ==> from <= at
            < directories.len() && creation::action_of(directories[at as int]) == Ok::<
            Option<DirectoryAction>,
            error::ErrorView,
        >(Some(action)),
    decreases directories.len() - from,
{
    if from < directories.len() {
        next_action_is_found(directories, from + 1);
    }
}

/// The transfers that are settled lead the list, and the one behind them is not
/// settled.
pub proof fn settled_count_bounds(pending: Seq<TransferView>)
    ensures
        settled_count(pending) <= pending.len(),
        settled_count(pending) < pending.len() ==> unsettled(
            pending[settled_count(pending) as int],
        ),
    decreases pending.len(),
{
    if pending.len() > 0 && !unsettled(pending[0]) {
        settled_count_bounds(pending.skip(1));
        let rest = settled_count(pending.skip(1)) as int;
        if rest < pending.skip(1).len() {
            assert(pending.skip(1)[rest] == pending[rest + 1]);
        }
    }
}

proof fn stages_keep_inv(u: ScopedView, at: nat)
    requires
        forall|i: int|
            0 <= i < u.files.len() ==> u.entries.contains_key(#[trigger] u.files[i])
                && plan::is_file(u.entries[u.files[i]]),
        u.directories.len() > 0,
    ensures
        sync_inv(u.at_file(at)),
        sync_inv(u.at_directory(at)),
        sync_inv(u.at_settling()),
        sync_inv(u.at_transfer()),
        sync_inv(u.at_validation(at)),
{
    next_action_is_found(u.directories, at);
    next_action_is_found(u.directories, 0);
    settled_count_bounds(u.pending);
}

/// Whatever comes back, a synchronisation has what its stage works on.
pub proof fn sync_keeps_inv(u: ScopedView, reply: SyncReply)
    requires
        sync_inv(u),
        reply matches SyncReply::Captured(Ok(directories)) ==> directories.len() > 0,
        reply matches SyncReply::Inventory(Ok((entries, ancestors))) ==> entries.dom().finite(),
    ensures
        sync_inv(sync_step(u, reply)),
{
    match reply {
        SyncReply::Inventory(found) => {
            if let Ok((entries, ancestors)) = found {
                let kept = plan::retained(entries, ancestors);
                let keys = order::keys_of(kept);
                let next = sync_step(u, reply);
                plan::compared_files_do_not_conflict(kept, keys);
                assert(kept.dom().subset_of(entries.dom()));
                vstd::set_lib::lemma_len_subset(kept.dom(), entries.dom());
                order::keys_of_is_sound(kept);
                if u.stage == SyncStage::Inventory {
                    assert forall|i: int| 0 <= i < next.files.len() implies next.entries.contains_key(
                        #[trigger] next.files[i],
                    ) && plan::is_file(next.entries[next.files[i]]) by {
                        assert(keys.contains(next.files[i]));
                    }
                }
            }
        },
        SyncReply::Captured(captured) => {
            if let Ok(directories) = captured {
                stages_keep_inv(ScopedView { directories, ..u }, 0);
            }
        },
        SyncReply::File(verdict) => if u.stage == SyncStage::File {
            match verdict {
                VerdictView::Unchanged => {
                    stages_keep_inv(
                        ScopedView {
                            outcome: u.outcome.with_event(
                                u.files[u.at as int],
                                SyncEventKind::Unchanged,
                            ),
                            ..u
                        },
                        u.at + 1,
                    );
                },
                VerdictView::Conflict(state) => {
                    stages_keep_inv(
                        ScopedView {
                            outcome: u.outcome.with_issue(
                                IssueView::FileConflict { path: u.files[u.at as int], state },
                            ),
                            ..u
                        },
                        u.at + 1,
                    );
                },
                VerdictView::Transfer(transfer) => {
                    stages_keep_inv(
                        ScopedView { pending: u.pending.push(transfer), ..u },
                        u.at + 1,
                    );
                },
                _ => {},
            }
        },
        SyncReply::Created(created) => {
            if u.stage == SyncStage::Directory && created is Created {
                let identity = created->Created_0;
                stages_keep_inv(
                    ScopedView {
                        outcome: u.outcome.with_event(
                            u.directories[u.at as int].relative,
                            creation_kind(u.action),
                        ),
                        directories: if u.mode == ExecutionMode::DryRun {
                            u.directories
                        } else {
                            u.directories.update(u.at as int, u.created(identity))
                        },
                        ..u
                    },
                    u.at + 1,
                );
            }
        },
        SyncReply::Settled(settled) => {
            if u.stage == SyncStage::Settle && settled is Settled {
                let plan = settled->Settled_0;
                if let Some(event) = u.current {
                    stages_keep_inv(
                        ScopedView {
                            settled: u.settled.push(
                                TransferView {
                                    path: event.path,
                                    kind: event.kind,
                                    operation: OperationView::Download(plan),
                                },
                            ),
                            ..u
                        },
                        0,
                    );
                }
            }
        },
        SyncReply::Gate(_) => {},
        SyncReply::Transferred(_) => {},
        SyncReply::Validated(_) => {},
    }
}

/// The synchronisation, once its next transfer stands aside to have its destination
/// settled or to be made.
pub open spec fn stood_aside(u: ScopedView) -> ScopedView {
    if u.stage == SyncStage::Settle {
        ScopedView {
            pending: u.pending.skip(1),
            current: Some(EventView { path: u.pending[0].path, kind: u.pending[0].kind }),
            ..u
        }
    } else {
        ScopedView {
            settled: u.settled.skip(1),
            current: Some(EventView { path: u.settled[0].path, kind: u.settled[0].kind }),
            ..u
        }
    }
}

/// What an inventory reports, its maps taken by their views.
pub open spec fn inventoried(found: Result<ScopedInventory, Error>) -> Result<
    (Entries, Entries),
    error::ErrorView,
> {
    match found {
        Ok(inventory) => Ok((inventory.entries@, inventory.implicit_ancestors@)),
        Err(e) => Err(e@),
    }
}

/// What a capture reports, its directories taken by their views.
pub open spec fn captured(found: Result<Vec<ExpectedDirectory>, Error>) -> Result<
    Seq<DirectoryView>,
    error::ErrorView,
> {
    match found {
        Ok(directories) => Ok(text::views(directories@)),
        Err(e) => Err(e@),
    }
}

/// What came of a creation.
pub open spec fn created_by(creation: creation::CreationView) -> CreatedView {
    match creation.end {
        CreationEnd::Created => CreatedView::Created(creation.identity),
        _ => match creation.failure {
            Some(e) => CreatedView::Failed(e),
            None => CreatedView::Cancelled,
        },
    }
}

/// What came of the settling of a destination.
pub open spec fn settled_by(verdict: FinalizeVerdict) -> SettledView {
    match verdict {
        FinalizeVerdict::Cancelled => SettledView::Cancelled,
        FinalizeVerdict::Failed(e) => SettledView::Failed(e@),
        FinalizeVerdict::Settled(plan) => SettledView::Settled(plan@),
    }
}

/// Whether the destination of a transfer is still to be settled.
fn is_unsettled(transfer: &PlannedTransfer) -> (out: bool)
    ensures
        out == unsettled(transfer@),
{
    match &transfer.operation {
        PlannedOperation::Download(plan) => match &plan.destination {
            Some(_) => false,
            None => true,
        },
        _ => false,
    }
}

/// The synchronisation of a scope, before anything is looked at. The whole
/// project by the walks of the unscoped commands is no scope.
pub fn run_scoped(
    scope: SyncScope,
    local_root: &str,
    remote_root: &str,
    force: bool,
    mode: ExecutionMode,
) -> (out: Result<ScopedSync, Error>)
    ensures
        match out {
            Ok(run) => {
                &&& scope@ != ScopeView::LegacyProject
                &&& run.wf()
                &&& run@ == scoped_start(scope@, local_root@, remote_root@, force, mode)
            },
            Err(e) => {
                &&& scope@ == ScopeView::LegacyProject
                &&& e@ == error::failure("scoped sync requires an explicit path"@)
            },
        },
{
    match &scope {
        SyncScope::LegacyProject => {
            return Err(Error::failure("scoped sync requires an explicit path".to_owned()));
        },
        _ => {},
    }
    let run = ScopedSync {
        scope,
        local_root: local_root.to_owned(),
        remote_root: remote_root.to_owned(),
        force,
        mode,
        entries: PathMap::new(),
        files: Vec::new(),
        directories: Vec::new(),
        pending: Vec::new(),
        settled: Vec::new(),
        current: None,
        action: DirectoryAction::CreateLocal,
        outcome: SyncOutcome { events: Vec::new(), issues: Vec::new(), cancelled: false },
        stage: SyncStage::Inventory,
        at: 0,
        failure: None,
    };
    assert(text::views(run.files@) =~= Seq::<Seq<char>>::empty());
    assert(text::views(run.directories@) =~= Seq::<DirectoryView>::empty());
    assert(text::views(run.pending@) =~= Seq::<TransferView>::empty());
    assert(text::views(run.settled@) =~= Seq::<TransferView>::empty());
    assert(run.outcome@.events =~= Seq::<EventView>::empty());
    assert(run.outcome@.issues =~= Seq::<IssueView>::empty());
    Ok(run)
}

/// A synchronisation before anything is looked at.
pub open spec fn scoped_start(
    scope: ScopeView,
    local_root: Seq<char>,
    remote_root: Seq<char>,
    force: bool,
    mode: ExecutionMode,
) -> ScopedView {
    ScopedView {
        scope,
        local_root,
        remote_root,
        force,
        mode,
        entries: Map::empty(),
        files: Seq::empty(),
        directories: Seq::empty(),
        pending: Seq::empty(),
        settled: Seq::empty(),
        current: None,
        action: DirectoryAction::CreateLocal,
        outcome: OutcomeView { events: Seq::empty(), issues: Seq::empty(), cancelled: false },
        stage: SyncStage::Inventory,
        at: 0,
        failure: None,
    }
}

impl ScopedSync {
    /// The synchronisation has what its stage works on.
    pub open spec fn wf(&self) -> bool {
        self.entries.wf() && sync_inv(self@)
    }

    fn fail(&mut self, failure: Error)
        ensures
            final(self)@ == old(self)@.failed(failure@),
            final(self).entries == old(self).entries,
    {
        self.stage = SyncStage::Done;
        self.failure = Some(failure);
    }

    fn end(&mut self, current: bool)
        ensures
            final(self)@ == if current {
                old(self)@.completed()
            } else {
                old(self)@.cancelled()
            },
            final(self).entries == old(self).entries,
    {
        let mut outcome = SyncOutcome {
            events: Vec::new(),
            issues: Vec::new(),
            cancelled: false,
        };
        core::mem::swap(&mut outcome, &mut self.outcome);
        self.outcome = if current {
            outcome::sort_outcome(outcome)
        } else {
            outcome::cancelled_sync_outcome(outcome)
        };
        self.stage = SyncStage::Done;
    }

    fn report(&mut self, path: String, kind: SyncEventKind)
        ensures
            final(self)@ == (ScopedView {
                outcome: old(self)@.outcome.with_event(path@, kind),
                ..old(self)@
            }),
            final(self).entries == old(self).entries,
    {
        self.outcome.events.push(SyncEvent { path, kind });
        assert(self.outcome@.events =~= old(self).outcome@.events.push(EventView { path: path@, kind }));
    }

    fn to_transfer(&mut self)
        ensures
            final(self)@ == old(self)@.at_transfer(),
            final(self).entries == old(self).entries,
    {
        self.current = None;
        self.stage = if self.settled.len() > 0 {
            SyncStage::TransferPoll
        } else {
            SyncStage::ValidateStart
        };
    }

    fn to_settling(&mut self)
        ensures
            final(self)@ == old(self)@.at_settling(),
            final(self).entries == old(self).entries,
    {
        let ghost start = self@;
        let ghost mut moved: int = 0;
        self.current = None;
        assert(start.pending.skip(0) =~= start.pending);
        assert(start.settled + start.pending.take(0) =~= start.settled);
        while self.pending.len() > 0 && !is_unsettled(&self.pending[0])
            invariant
                0 <= moved <= start.pending.len(),
                self@ == (ScopedView {
                    pending: start.pending.skip(moved),
                    settled: start.settled + start.pending.take(moved),
                    current: None,
                    ..start
                }),
                settled_count(start.pending) == moved + settled_count(self@.pending),
                self.entries == old(self).entries,
            decreases self.pending.len(),
        {
            let ghost before = self@;
            let transfer = self.pending.remove(0);
            self.settled.push(transfer);
            proof {
                assert(before.pending[0] == transfer@);
                assert(self@.pending =~= before.pending.skip(1));
                assert(before.pending.skip(1) =~= start.pending.skip(moved + 1));
                assert(self@.settled =~= before.settled.push(transfer@));
                assert(start.pending[moved] == transfer@);
                assert(before.settled.push(transfer@) =~= start.settled + start.pending.take(
                    moved + 1,
                ));
                moved = moved + 1;
            }
        }
        assert(self@.pending.len() > 0 ==> self@.pending[0] == self.pending@[0]@);
        assert(settled_count(self@.pending) == 0);
        if self.pending.len() > 0 {
            self.stage = SyncStage::Settle;
        } else {
            self.to_transfer();
        }
    }

    fn to_directory(&mut self, from: usize)
        requires
            from <= old(self).directories@.len(),
        ensures
            final(self)@ == old(self)@.at_directory(from as nat),
            final(self).entries == old(self).entries,
    {
        let total: usize = self.directories.len();
        let mut at: usize = from;
        while at < total
            invariant
                from <= at <= total,
                total == self.directories@.len(),
                *self == *old(self),
                next_action(self@.directories, from as nat) == next_action(
                    self@.directories,
                    at as nat,
                ),
            decreases total - at,
        {
            assert(self@.directories[at as int] == self.directories@[at as int]@);
            match creation::directory_action(&self.directories[at]) {
                Err(e) => {
                    self.fail(e);
                    return ;
                },
                Ok(Some(action)) => {
                    self.stage = SyncStage::Directory;
                    self.at = at;
                    self.action = action;
                    return ;
                },
                Ok(None) => {},
            }
            at += 1;
        }
        self.to_settling();
    }

    fn to_file(&mut self, at: usize)
        ensures
            final(self)@ == old(self)@.at_file(at as nat),
            final(self).entries == old(self).entries,
    {
        if at < self.files.len() {
            self.stage = SyncStage::File;
            self.at = at;
        } else {
            self.to_directory(0);
        }
    }

    fn to_validation(&mut self, at: usize)
        ensures
            final(self)@ == old(self)@.at_validation(at as nat),
            final(self).entries == old(self).entries,
    {
        self.at = at;
        self.stage = if at < self.directories.len() {
            SyncStage::ValidatePoll
        } else {
            SyncStage::ValidateEnd
        };
    }

    /// Takes the inventory of the scope.
    pub fn on_inventory(&mut self, found: Result<ScopedInventory, Error>)
        requires
            old(self).wf(),
            found matches Ok(inventory) ==> inventory.wf(),
        ensures
            final(self).wf(),
            final(self)@ == sync_step(old(self)@, SyncReply::Inventory(inventoried(found))),
    {
        let ghost reply = SyncReply::Inventory(inventoried(found));
        match self.stage {
            SyncStage::Inventory => {},
            _ => {
                return ;
            },
        }
        match found {
            Err(e) => self.fail(e),
            Ok(inventory) => {
                proof {
                    inventory.entries.facts();
                    inventory.implicit_ancestors.facts();
                    sync_keeps_inv(self@, reply);
                }
                let kept = plan::retain_entries(&inventory.entries, &inventory.implicit_ancestors);
                proof {
                    kept.facts();
                }
                let (files, mut outcome) = plan::classify_inventory_shapes(&kept);
                let tops = plan::type_conflict_prefixes(&inventory.implicit_ancestors);
                proof {
                    plan::topmost_of_holds(
                        inventory.implicit_ancestors@,
                        inventory.implicit_ancestors.keys(),
                    );
                    assert forall|i: int| 0 <= i < tops@.len() implies plan::conflict_at(
                        inventory.implicit_ancestors@,
                        #[trigger] tops@[i]@,
                    ) by {
                        assert(text::views(tops@)[i] == tops@[i]@);
                        assert(text::views(tops@).contains(tops@[i]@));
                    }
                }
                let mut above = plan::type_conflict_issues(&inventory.implicit_ancestors, &tops);
                let ghost first = outcome.issues@;
                let ghost second = above@;
                outcome.issues.append(&mut above);
                assert(text::views(first + second) =~= text::views(first) + text::views(second));
                self.entries = kept;
                self.files = files;
                self.outcome = outcome;
                self.stage = SyncStage::Capture;
            },
        }
    }

    /// Takes the directories that the scope rests on. There is always the root.
    pub fn on_directories(&mut self, found: Result<Vec<ExpectedDirectory>, Error>)
        requires
            old(self).wf(),
            found matches Ok(directories) ==> directories@.len() > 0,
        ensures
            final(self).wf(),
            final(self)@ == sync_step(old(self)@, SyncReply::Captured(captured(found))),
    {
        proof {
            sync_keeps_inv(self@, SyncReply::Captured(captured(found)));
        }
        match self.stage {
            SyncStage::Capture => match found {
                Err(e) => self.fail(e),
                Ok(directories) => {
                    self.directories = directories;
                    self.to_file(0);
                },
            },
            _ => {},
        }
    }

    /// The planning of the file at the position.
    pub fn file_plan(&self, known: Option<String>) -> (out: FilePlan)
        requires
            self.wf(),
            self.stage == SyncStage::File,
        ensures
            out@ == file_plan::plan_start(
                self@.files[self@.at as int],
                self@.local_root,
                self@.remote_root,
                self@.entries[self@.files[self@.at as int]],
                state::optional(known),
                self@.force,
                self@.mode,
                directories::missing_above(
                    self@.directories,
                    self@.directories.len(),
                    self@.files[self@.at as int],
                ),
                planning::created_above(self@.directories, self@.files[self@.at as int]),
            ),
            file_plan::plan_inv(out@),
    {
        let relative = &self.files[self.at];
        assert(self@.files[self@.at as int] == relative@);
        let entry = match self.entries.get(relative) {
            Some(entry) => *entry,
            None => InventoryEntry { local: None, remote: None, in_state: false },
        };
        FilePlan::plan_file(
            relative,
            &self.local_root,
            &self.remote_root,
            entry,
            known,
            self.force,
            self.mode,
            &self.directories,
        )
    }

    /// Takes what the planning of a file gave.
    pub fn on_file(&mut self, verdict: FileVerdict)
        requires
            old(self).wf(),
        ensures
            final(self).wf(),
            final(self)@ == sync_step(old(self)@, SyncReply::File(verdict@)),
    {
        proof {
            sync_keeps_inv(self@, SyncReply::File(verdict@));
        }
        match self.stage {
            SyncStage::File => {},
            _ => {
                return ;
            },
        }
        let at: usize = self.at;
        let total: usize = self.files.len();
        assert(at < total);
        assert(self@.files[at as int] == self.files@[at as int]@);
        match verdict {
            FileVerdict::Cancelled => self.end(false),
            FileVerdict::Failed(e) => self.fail(e),
            FileVerdict::Unchanged => {
                let path = self.files[at].clone();
                self.report(path, SyncEventKind::Unchanged);
                self.to_file(at + 1);
            },
            FileVerdict::Conflict(state) => {
                let path = self.files[at].clone();
                let ghost before = self@;
                self.outcome.issues.push(SyncIssue::FileConflict { path, state });
                assert(self@.outcome.issues =~= before.outcome.issues.push(
                    IssueView::FileConflict { path: path@, state },
                ));
                self.to_file(at + 1);
            },
            FileVerdict::Transfer(transfer) => {
                let ghost before = self@;
                self.pending.push(transfer);
                assert(self@.pending =~= before.pending.push(transfer@));
                self.to_file(at + 1);
            },
        }
    }

    /// The creation of the directory at the position.
    pub fn creation(&self) -> (out: DirectoryCreation)
        requires
            self.wf(),
            self.stage == SyncStage::Directory,
        ensures
            out@ == creation::creation_start(
                self@.local_root,
                self@.remote_root,
                self@.directories,
                self@.at as int,
                self@.action,
                self@.mode,
            ),
            out@.wf(self.directories@.len()),
    {
        DirectoryCreation::start(
            &self.local_root,
            &self.remote_root,
            &self.directories,
            self.at,
            self.action,
            self.mode,
        )
    }

    /// Takes what came of the creation of a directory, once it has ended.
    pub fn on_created(&mut self, creation: DirectoryCreation)
        requires
            old(self).wf(),
            creation.phase == CreationPhase::Done,
        ensures
            final(self).wf(),
            final(self)@ == sync_step(old(self)@, SyncReply::Created(created_by(creation@))),
    {
        proof {
            sync_keeps_inv(self@, SyncReply::Created(created_by(creation@)));
        }
        match self.stage {
            SyncStage::Directory => {},
            _ => {
                return ;
            },
        }
        let at: usize = self.at;
        let total: usize = self.directories.len();
        assert(at < total);
        let action = self.action;
        assert(self@.directories[at as int] == self.directories@[at as int]@);
        match creation.end {
            CreationEnd::Created => {
                let path = self.directories[at].relative.clone();
                self.report(path, match action {
                    DirectoryAction::CreateLocal => SyncEventKind::CreatedLocalDirectory,
                    DirectoryAction::CreateRemote => SyncEventKind::CreatedRemoteDirectory,
                });
                let ghost before = self@;
                match self.mode {
                    ExecutionMode::DryRun => {},
                    ExecutionMode::Apply => {
                        let mut directory = self.directories.remove(at);
                        match action {
                            DirectoryAction::CreateLocal => {
                                if let Some(identity) = creation.identity {
                                    directory.local = ExpectedLocalDirectory::Directory(identity);
                                }
                            },
                            DirectoryAction::CreateRemote => {
                                directory.remote = ExpectedRemoteDirectory::Directory;
                            },
                        }
                        self.directories.insert(at, directory);
                        assert(self@.directories =~= before.directories.update(
                            at as int,
                            old(self)@.created(creation@.identity),
                        ));
                    },
                }
                self.to_directory(at + 1);
            },
            _ => match creation.failure {
                Some(e) => self.fail(e),
                None => self.end(false),
            },
        }
    }

    /// The settling of the next destination. The transfer stands aside until it is
    /// answered.
    pub fn begin_settling(&mut self) -> (out: Finalization)
        requires
            old(self).wf(),
            old(self).stage == SyncStage::Settle,
            old(self).current is None,
        ensures
            final(self).wf(),
            final(self)@ == stood_aside(old(self)@),
            match old(self)@.pending[0].operation {
                OperationView::Download(plan) => out@ == finalize::finalize_start(
                    old(self)@.local_root,
                    old(self)@.directories,
                    old(self)@.pending[0].path,
                    plan,
                ),
                _ => false,
            },
            out@.wf(final(self).directories@.len()),
    {
        assert(self@.pending[0] == self.pending@[0]@);
        let transfer = self.pending.remove(0);
        assert(self@.pending =~= old(self)@.pending.skip(1));
        let plan = match transfer.operation {
            PlannedOperation::Download(plan) => plan,
            _ => vstd::pervasive::unreached(),
        };
        let out = Finalization::start(
            &self.local_root,
            &self.directories,
            &transfer.path,
            plan,
        );
        self.current = Some(SyncEvent { path: transfer.path, kind: transfer.kind });
        out
    }

    /// Takes what came of the settling of a destination.
    pub fn on_settled(&mut self, verdict: FinalizeVerdict)
        requires
            old(self).wf(),
        ensures
            final(self).wf(),
            final(self)@ == sync_step(old(self)@, SyncReply::Settled(settled_by(verdict))),
    {
        proof {
            sync_keeps_inv(self@, SyncReply::Settled(settled_by(verdict)));
        }
        match self.stage {
            SyncStage::Settle => {},
            _ => {
                return ;
            },
        }
        match verdict {
            FinalizeVerdict::Cancelled => self.end(false),
            FinalizeVerdict::Failed(e) => self.fail(e),
            FinalizeVerdict::Settled(plan) => {
                let mut current: Option<SyncEvent> = None;
                core::mem::swap(&mut current, &mut self.current);
                if let Some(event) = current {
                    let ghost before = self@;
                    self.settled.push(
                        PlannedTransfer {
                            path: event.path,
                            kind: event.kind,
                            operation: PlannedOperation::Download(plan),
                        },
                    );
                    assert(self@.settled =~= before.settled.push(
                        TransferView {
                            path: event@.path,
                            kind: event@.kind,
                            operation: OperationView::Download(plan@),
                        },
                    ));
                    self.to_settling();
                }
            },
        }
    }

    /// Takes whether the selection is still current.
    pub fn on_gate(&mut self, current: bool)
        requires
            old(self).wf(),
        ensures
            final(self).wf(),
            final(self)@ == sync_step(old(self)@, SyncReply::Gate(current)),
    {
        proof {
            sync_keeps_inv(self@, SyncReply::Gate(current));
        }
        match self.stage {
            SyncStage::TransferPoll => if !current {
                self.end(false);
            } else {
                assert(self@.settled[0] == self.settled@[0]@);
                let preview = match &self.settled[0].operation {
                    PlannedOperation::Preview => true,
                    _ => false,
                };
                if preview {
                    let transfer = self.settled.remove(0);
                    assert(self@.settled =~= old(self)@.settled.skip(1));
                    self.report(transfer.path, transfer.kind);
                    self.to_transfer();
                } else {
                    self.stage = SyncStage::Transfer;
                }
            },
            SyncStage::ValidateStart => if current {
                self.to_validation(0);
            } else {
                self.end(false);
            },
            SyncStage::ValidatePoll => if current {
                self.stage = SyncStage::Validate;
            } else {
                self.end(false);
            },
            SyncStage::ValidateEnd => self.end(current),
            _ => {},
        }
    }

    /// The next transfer. It stands aside until it is answered.
    pub fn take_transfer(&mut self) -> (out: PlannedTransfer)
        requires
            old(self).wf(),
            old(self).stage == SyncStage::Transfer,
            old(self).current is None,
        ensures
            final(self).wf(),
            final(self)@ == stood_aside(old(self)@),
            out@ == old(self)@.settled[0],
    {
        assert(self@.settled[0] == self.settled@[0]@);
        let transfer = self.settled.remove(0);
        assert(self@.settled =~= old(self)@.settled.skip(1));
        self.current = Some(SyncEvent { path: transfer.path.clone(), kind: transfer.kind });
        transfer
    }

    /// Takes what came of a transfer.
    pub fn on_transferred(&mut self, reply: Result<CommitDecision, Error>)
        requires
            old(self).wf(),
        ensures
            final(self).wf(),
            final(self)@ == sync_step(
                old(self)@,
                SyncReply::Transferred(upload::reported(reply)),
            ),
    {
        proof {
            sync_keeps_inv(self@, SyncReply::Transferred(upload::reported(reply)));
        }
        match self.stage {
            SyncStage::Transfer => {},
            _ => {
                return ;
            },
        }
        match reply {
            Err(e) => self.fail(e),
            Ok(CommitDecision::Cancelled) => self.end(false),
            Ok(CommitDecision::Committed) => {
                let mut current: Option<SyncEvent> = None;
                core::mem::swap(&mut current, &mut self.current);
                if let Some(event) = current {
                    self.report(event.path, event.kind);
                    self.to_transfer();
                }
            },
        }
    }

    /// The check of the directory at the position.
    pub fn validation(&self) -> (out: DirectoryValidation)
        requires
            self.wf(),
            self.stage == SyncStage::Validate,
        ensures
            out@ == validation::validation_start(
                self@.local_root,
                self@.remote_root,
                validation::at_the_end(self@.at as int),
            ),
            out@.wf(self.directories@.len()),
    {
        DirectoryValidation::start(
            &self.local_root,
            &self.remote_root,
            validation::snapshot_queue(self.at),
        )
    }

    /// Takes what the check of a directory found.
    pub fn on_validated(&mut self, reply: Result<(), Error>)
        requires
            old(self).wf(),
        ensures
            final(self).wf(),
            final(self)@ == sync_step(old(self)@, SyncReply::Validated(upload::reported(reply))),
    {
        proof {
            sync_keeps_inv(self@, SyncReply::Validated(upload::reported(reply)));
        }
        match self.stage {
            SyncStage::Validate => match reply {
                Err(e) => self.fail(e),
                Ok(_) => {
                    let total: usize = self.directories.len();
                    let at: usize = self.at;
                    assert(at < total);
                    self.to_validation(at + 1);
                },
            },
            _ => {},
        }
    }

    /// What came of the synchronisation.
    pub fn outcome(self) -> (out: Result<SyncOutcome, Error>)
        ensures
            match (out, self@.failure) {
                (Ok(outcome), None) => outcome@ == self@.outcome,
                (Err(e), Some(want)) => e@ == want,
                _ => false,
            },
    {
        match self.failure {
            Some(e) => Err(e),
            None => Ok(self.outcome),
        }
    }
}

/// Whether a synchronisation only shows what it would do.
pub open spec fn only_shows(u: ScopedView) -> bool {
    &&& u.mode == ExecutionMode::DryRun
    &&& forall|i: int| 0 <= i < u.pending.len() ==> is_preview(#[trigger] u.pending[i])
    &&& forall|i: int| 0 <= i < u.settled.len() ==> is_preview(#[trigger] u.settled[i])
    &&& u.stage != SyncStage::Settle
    &&& u.stage != SyncStage::Transfer
}

proof fn previews_need_no_settling(pending: Seq<TransferView>)
    requires
        forall|i: int| 0 <= i < pending.len() ==> is_preview(#[trigger] pending[i]),
    ensures
        settled_count(pending) == pending.len(),
    decreases pending.len(),
{
    if pending.len() > 0 {
        assert(is_preview(pending[0]));
        let rest = pending.skip(1);
        assert forall|i: int| 0 <= i < rest.len() implies is_preview(#[trigger] rest[i]) by {
            assert(rest[i] == pending[i + 1]);
        }
        previews_need_no_settling(rest);
    }
}

/// What only shows keeps to that, whatever it is told, as long as it is at what its
/// stage works on.
pub(crate) proof fn shown_step(u: ScopedView, reply: SyncReply)
    requires
        only_shows(u),
        u.stage == SyncStage::TransferPoll ==> u.settled.len() > 0,
        reply matches SyncReply::File(VerdictView::Transfer(transfer)) ==> u.stage
            == SyncStage::File ==> is_preview(transfer),
    ensures
        only_shows(sync_step(u, reply)),
        u.stage != SyncStage::Capture ==> sync_step(u, reply).directories == u.directories,
{
    let v = sync_step(u, reply);
    match reply {
        SyncReply::File(VerdictView::Transfer(transfer)) => {
            if u.stage == SyncStage::File {
                let pushed = u.pending.push(transfer);
                assert forall|i: int| 0 <= i < pushed.len() implies is_preview(
                    #[trigger] pushed[i],
                ) by {
                    if i < u.pending.len() {
                        assert(pushed[i] == u.pending[i]);
                    }
                }
                shown_stages(ScopedView { pending: pushed, ..u });
            }
        },
        SyncReply::Gate(_) => {
            if u.stage == SyncStage::TransferPoll {
                assert(is_preview(u.settled[0]));
                let rest = u.settled.skip(1);
                assert forall|i: int| 0 <= i < rest.len() implies is_preview(#[trigger] rest[i]) by {
                    assert(rest[i] == u.settled[i + 1]);
                }
            }
        },
        _ => {
            shown_stages(u);
        },
    }
}

/// A synchronisation that changes nothing settles no destination and transfers
/// nothing, as long as the planning of its files gives only what is shown, which
/// it does in such a run.
pub proof fn dry_sync_only_shows(u: ScopedView, reply: SyncReply)
    requires
        sync_inv(u),
        only_shows(u),
        reply matches SyncReply::File(VerdictView::Transfer(transfer)) ==> is_preview(transfer),
    ensures
        only_shows(sync_step(u, reply)),
{
    shown_step(u, reply);
}

proof fn shown_stages(u: ScopedView)
    requires
        forall|i: int| 0 <= i < u.pending.len() ==> is_preview(#[trigger] u.pending[i]),
        forall|i: int| 0 <= i < u.settled.len() ==> is_preview(#[trigger] u.settled[i]),
    ensures
        settled_count(u.pending) == u.pending.len(),
        forall|i: int|
            0 <= i < u.settled.len() + u.pending.len() ==> is_preview(
                #[trigger] (u.settled + u.pending.take(u.pending.len() as int))[i],
            ),
{
    previews_need_no_settling(u.pending);
    let all = u.settled + u.pending.take(u.pending.len() as int);
    assert forall|i: int| 0 <= i < all.len() implies is_preview(#[trigger] all[i]) by {
        if i < u.settled.len() {
            assert(all[i] == u.settled[i]);
        } else {
            assert(all[i] == u.pending[i - u.settled.len()]);
        }
    }
}

/// A synchronisation that ends without a failure has its events and its issues in
/// the order of their paths, and it was cancelled unless the selection was still
/// current at the very end.
pub proof fn ended_sync_is_ordered(u: ScopedView, reply: SyncReply)
    requires
        u.stage != SyncStage::Done,
        u.failure is None,
        sync_step(u, reply).stage == SyncStage::Done,
        sync_step(u, reply).failure is None,
    ensures
        outcome::is_ordered(sync_step(u, reply).outcome.events, outcome::event_key()),
        outcome::is_ordered(sync_step(u, reply).outcome.issues, outcome::issue_key()),
        sync_step(u, reply).outcome.cancelled || (u.stage == SyncStage::ValidateEnd && reply
            == SyncReply::Gate(true)),
{
    outcome::in_order_sorts(u.outcome.events, outcome::event_key());
    outcome::in_order_sorts(u.outcome.issues, outcome::issue_key());
}

/// The next directory to do something about is the first one from a position on
/// about which there is something to do, and what is done about it is that.
pub proof fn next_action_is_the_first(directories: Seq<DirectoryView>, from: nat)
    ensures
        match next_action(directories, from) {
            Ok(None) => forall|i: int|
                from <= i < directories.len() ==> creation::action_of(#[trigger] directories[i])
                    == Ok::<Option<DirectoryAction>, error::ErrorView>(None),
            Ok(Some((at, action))) => {
                &&& from <= at < directories.len()
                &&& creation::action_of(directories[at as int]) == Ok::<
                    Option<DirectoryAction>,
                    error::ErrorView,
                >(Some(action))
                &&& forall|i: int|
                    from <= i < at ==> creation::action_of(#[trigger] directories[i]) == Ok::<
                        Option<DirectoryAction>,
                        error::ErrorView,
                    >(None)
            },
            Err(e) => exists|at: int|
                from <= at < directories.len() && creation::action_of(#[trigger] directories[at])
                    == Err::<Option<DirectoryAction>, error::ErrorView>(e),
        },
    decreases directories.len() - from,
{
    if from < directories.len() {
        next_action_is_the_first(directories, from + 1);
        if let Err(e) = creation::action_of(directories[from as int]) {
            assert(creation::action_of(directories[from as int]) == Err::<
                Option<DirectoryAction>,
                error::ErrorView,
            >(e));
        }
    }
}

/// What is counted as settled is all that comes before the first transfer whose
/// destination is still open.
pub proof fn settled_is_what_comes_before_the_first_open(pending: Seq<TransferView>)
    ensures
        settled_count(pending) <= pending.len(),
        forall|i: int| 0 <= i < settled_count(pending) ==> !unsettled(#[trigger] pending[i]),
        settled_count(pending) < pending.len() ==> unsettled(
            pending[settled_count(pending) as int],
        ),
    decreases pending.len(),
{
    if pending.len() > 0 && !unsettled(pending[0]) {
        let rest = pending.skip(1);
        settled_is_what_comes_before_the_first_open(rest);
        assert forall|i: int| 0 <= i < settled_count(pending) implies !unsettled(
            #[trigger] pending[i],
        ) by {
            if i > 0 {
                assert(pending[i] == rest[i - 1]);
            }
        }
        if settled_count(pending) < pending.len() {
            assert(pending[settled_count(pending) as int] == rest[settled_count(rest) as int]);
        }
    }
}

/// The planning of a file goes on to the next one with what was found of it: a
/// file in sync is told as unchanged, a conflict is an issue that names the file
/// and its state, and a transfer is put at the end of what is to be made.
pub proof fn planned_file_is_told_or_transferred(u: ScopedView, verdict: VerdictView)
    requires
        u.stage == SyncStage::File,
        u.at < u.files.len(),
        u.failure is None,
    ensures
        ({
            let next = sync_step(u, SyncReply::File(verdict));
            let path = u.files[u.at as int];
            let more = u.at + 1 < u.files.len();
            &&& verdict matches VerdictView::Failed(e) ==> next.failure == Some(e) && next.stage
                == SyncStage::Done
            &&& verdict is Cancelled ==> next.failure is None && next.stage == SyncStage::Done
                && next.outcome.cancelled
            &&& more && !(verdict is Failed) && !(verdict is Cancelled) ==> next.stage
                == SyncStage::File && next.at == u.at + 1 && next.failure is None
            &&& more && verdict is Unchanged ==> next.outcome.events == u.outcome.events.push(
                EventView { path, kind: SyncEventKind::Unchanged },
            ) && next.outcome.issues == u.outcome.issues && next.pending == u.pending
            &&& more && verdict is Conflict ==> next.outcome.issues == u.outcome.issues.push(
                IssueView::FileConflict { path, state: verdict->Conflict_0 },
            ) && next.outcome.events == u.outcome.events && next.pending == u.pending
            &&& more && verdict is Transfer ==> next.pending == u.pending.push(
                verdict->Transfer_0,
            ) && next.outcome == u.outcome
        }),
{
}

/// A directory that was created is told as created on its side, and is from then
/// on expected there.
pub proof fn created_directory_is_told_and_expected(
    u: ScopedView,
    identity: Option<IdentityView>,
)
    requires
        u.stage == SyncStage::Directory,
        u.at < u.directories.len(),
    ensures
        creation_kind(u.action) == SyncEventKind::CreatedLocalDirectory <==> u.action
            == DirectoryAction::CreateLocal,
        creation_kind(u.action) == SyncEventKind::CreatedRemoteDirectory <==> u.action
            == DirectoryAction::CreateRemote,
        ({
            let before = u.directories[u.at as int];
            let after = u.created(identity);
            &&& after.relative == before.relative
            &&& u.action == DirectoryAction::CreateRemote ==> after.local == before.local
                && after.remote == ExpectedRemoteDirectory::Directory
            &&& u.action == DirectoryAction::CreateLocal ==> after.remote == before.remote
            &&& u.action == DirectoryAction::CreateLocal && identity is Some ==> after.local
                == LocalView::Directory(identity->Some_0)
        }),
        ({
            let next = sync_step(u, SyncReply::Created(CreatedView::Created(identity)));
            &&& next.stage != SyncStage::Directory || next.at > u.at
            &&& next.outcome.issues == u.outcome.issues
            &&& next.outcome.events == u.outcome.events.push(
                EventView {
                    path: u.directories[u.at as int].relative,
                    kind: creation_kind(u.action),
                },
            )
            &&& u.mode == ExecutionMode::DryRun ==> next.directories == u.directories
            &&& u.mode != ExecutionMode::DryRun ==> next.directories == u.directories.update(
                u.at as int,
                u.created(identity),
            )
        }),
{
    let directories = if u.mode == ExecutionMode::DryRun {
        u.directories
    } else {
        u.directories.update(u.at as int, u.created(identity))
    };
    next_action_is_the_first(directories, u.at + 1);
}

/// A transfer is told once it was made, a preview at once, and the next one
/// follows; the directories are validated once there is none left. A selection
/// that is no longer current cancels before each of them.
pub proof fn transfer_is_told_once_it_was_made(
    u: ScopedView,
    current: bool,
    transferred: Result<CommitDecision, error::ErrorView>,
)
    requires
        u.failure is None,
        !u.outcome.cancelled,
    ensures
        u.stage == SyncStage::TransferPoll && u.settled.len() > 0 ==> {
            let next = sync_step(u, SyncReply::Gate(current));
            let preview = u.settled[0].operation == OperationView::Preview;
            &&& next.outcome.cancelled <==> !current
            &&& current && preview ==> next.outcome.events == u.outcome.events.push(
                EventView { path: u.settled[0].path, kind: u.settled[0].kind },
            ) && next.settled == u.settled.skip(1)
            &&& current && !preview ==> next.stage == SyncStage::Transfer && next.settled
                == u.settled && next.outcome == u.outcome
        },
        u.stage == SyncStage::Transfer && u.current is Some ==> {
            let next = sync_step(u, SyncReply::Transferred(transferred));
            let made = transferred == Ok::<CommitDecision, error::ErrorView>(
                CommitDecision::Committed,
            );
            &&& next.failure is Some <==> transferred is Err
            &&& next.outcome.cancelled <==> transferred == Ok::<CommitDecision, error::ErrorView>(
                CommitDecision::Cancelled,
            )
            &&& made ==> next.outcome.events == u.outcome.events.push(u.current->Some_0)
            &&& made ==> (next.stage == SyncStage::TransferPoll <==> u.settled.len() > 0)
            &&& made ==> (next.stage == SyncStage::ValidateStart <==> u.settled.len() == 0)
        },
{
}

/// Every directory is validated at the end, one after the other, and a
/// synchronisation is completed exactly where all of them stand and the selection
/// is current to the last.
pub proof fn every_directory_is_validated_at_the_end(
    u: ScopedView,
    current: bool,
    validated: Result<(), error::ErrorView>,
)
    requires
        u.failure is None,
        !u.outcome.cancelled,
    ensures
        u.stage == SyncStage::ValidateStart ==> {
            let next = sync_step(u, SyncReply::Gate(current));
            &&& next.stage == SyncStage::Done <==> !current
            &&& next.stage == SyncStage::ValidatePoll <==> current && u.directories.len() > 0
            &&& current ==> next.at == 0
        },
        u.stage == SyncStage::ValidatePoll ==> {
            let next = sync_step(u, SyncReply::Gate(current));
            &&& next.stage == SyncStage::Validate <==> current
            &&& current ==> next.at == u.at
            &&& next.stage == SyncStage::Done <==> !current
        },
        u.stage == SyncStage::Validate ==> {
            let next = sync_step(u, SyncReply::Validated(validated));
            &&& next.failure is Some <==> validated is Err
            &&& validated is Ok ==> next.at == u.at + 1
            &&& next.stage == SyncStage::ValidatePoll <==> validated is Ok && u.at + 1
                < u.directories.len()
            &&& next.stage == SyncStage::ValidateEnd <==> validated is Ok && u.at + 1
                >= u.directories.len()
        },
        u.stage == SyncStage::ValidateEnd ==> {
            let next = sync_step(u, SyncReply::Gate(current));
            &&& next.stage == SyncStage::Done
            &&& next.failure is None
            &&& next.outcome.cancelled <==> !current
        },
{
}

} // verus!
