//! What a synchronisation was told, and what it reports of that: a run that changes
//! nothing reports what one that does reports.

use crate::error;
use crate::order;
use crate::scope::{CommitDecision, ExecutionMode, ScopeView};
use crate::sync::accounting;
use crate::sync::creation::DirectoryAction;
use crate::sync::creation;
use crate::sync::directories::{DirectoryView, ExpectedRemoteDirectory, IdentityView, LocalView};
use crate::sync::directories;
use crate::sync::file_plan::{PlanReply, TransferView, VerdictView};
use crate::sync::file_plan;
use crate::sync::outcome;
use crate::sync::plan::{Entries, EventView, IssueView, OutcomeView, SyncEventKind};
use crate::sync::plan;
use crate::sync::planning;
use crate::sync::scoped::{CreatedView, ScopedView, SettledView, SyncReply, SyncStage};
use crate::sync::scoped;
use vstd::prelude::*;

verus! {

broadcast use vstd::seq::group_seq_axioms;

/// What moves a synchronisation: an answer, or that its next transfer stands aside.
pub enum SyncMove {
    Answer(SyncReply),
    StandAside,
}

/// Whether the next transfer of a synchronisation may stand aside.
pub open spec fn may_stand_aside(u: ScopedView) -> bool {
    &&& u.current is None
    &&& u.stage == SyncStage::Settle && u.pending.len() > 0 || u.stage == SyncStage::Transfer
        && u.settled.len() > 0
}

/// Where a move leads a synchronisation.
pub open spec fn moved(u: ScopedView, step: SyncMove) -> ScopedView {
    match step {
        SyncMove::Answer(reply) => scoped::sync_step(u, reply),
        SyncMove::StandAside => if may_stand_aside(u) {
            scoped::stood_aside(u)
        } else {
            u
        },
    }
}

/// What a synchronisation was told: its inventory, the directories as they were
/// captured, and what the planning of each file gave, in turn.
pub struct History {
    pub inventory: Option<(Entries, Entries)>,
    pub directories: Seq<DirectoryView>,
    pub verdicts: Seq<VerdictView>,
}

/// A history before anything was told.
pub open spec fn no_history() -> History {
    History { inventory: None, directories: Seq::empty(), verdicts: Seq::empty() }
}

/// A history with what a move tells.
pub open spec fn told(h: History, u: ScopedView, step: SyncMove) -> History {
    match (u.stage, step) {
        (
            SyncStage::Inventory,
            SyncMove::Answer(SyncReply::Inventory(Ok(inventory))),
        ) => History { inventory: Some(inventory), ..h },
        (
            SyncStage::Capture,
            SyncMove::Answer(SyncReply::Captured(Ok(directories))),
        ) => History { directories, ..h },
        (SyncStage::File, SyncMove::Answer(SyncReply::File(verdict))) => History {
            verdicts: h.verdicts.push(verdict),
            ..h
        },
        _ => h,
    }
}

/// Where moves, one after another, lead a synchronisation, and what they tell it.
pub open spec fn run(start: ScopedView, moves: Seq<SyncMove>) -> (ScopedView, History)
    decreases moves.len(),
{
    if moves.len() == 0 {
        (start, no_history())
    } else {
        let (u, h) = run(start, moves.drop_last());
        (moved(u, moves.last()), told(h, u, moves.last()))
    }
}

/// Whether a synchronisation has ended with everything done.
pub open spec fn is_completed(u: ScopedView) -> bool {
    u.stage == SyncStage::Done && u.failure is None && !u.outcome.cancelled
}

/// The files of an inventory that are planned, in order.
pub open spec fn files_of(inventory: (Entries, Entries)) -> Seq<Seq<char>> {
    let kept = plan::retained(inventory.0, inventory.1);
    plan::files_of(kept, order::keys_of(kept))
}

/// An outcome with what the planning of some files says at once: which are
/// unchanged and which conflict.
pub open spec fn with_verdicts(
    base: OutcomeView,
    files: Seq<Seq<char>>,
    verdicts: Seq<VerdictView>,
) -> OutcomeView
    decreases verdicts.len(),
{
    if verdicts.len() == 0 {
        base
    } else {
        let before = with_verdicts(base, files, verdicts.drop_last());
        let path = files[verdicts.len() - 1];
        match verdicts.last() {
            VerdictView::Unchanged => before.with_event(path, SyncEventKind::Unchanged),
            VerdictView::Conflict(state) => before.with_issue(
                IssueView::FileConflict { path, state },
            ),
            _ => before,
        }
    }
}

/// The events of the transfers that were planned, in order.
pub open spec fn planned(verdicts: Seq<VerdictView>) -> Seq<EventView>
    decreases verdicts.len(),
{
    if verdicts.len() == 0 {
        Seq::empty()
    } else {
        match verdicts.last() {
            VerdictView::Transfer(transfer) => planned(verdicts.drop_last()).push(
                EventView { path: transfer.path, kind: transfer.kind },
            ),
            _ => planned(verdicts.drop_last()),
        }
    }
}

/// The events of the first directories that one side lacks, in order.
pub open spec fn creations(directories: Seq<DirectoryView>, upto: nat) -> Seq<EventView>
    decreases upto,
{
    if upto == 0 {
        Seq::empty()
    } else {
        let before = creations(directories, (upto - 1) as nat);
        match creation::action_of(directories[upto - 1]) {
            Ok(Some(action)) => before.push(
                EventView {
                    path: directories[upto - 1].relative,
                    kind: scoped::creation_kind(action),
                },
            ),
            _ => before,
        }
    }
}

/// What a history says of the files before anything is created or transferred.
pub open spec fn findings(h: History) -> OutcomeView {
    match h.inventory {
        Some(inventory) => with_verdicts(
            scoped::initial_outcome(inventory.0, inventory.1),
            files_of(inventory),
            h.verdicts,
        ),
        None => OutcomeView { events: Seq::empty(), issues: Seq::empty(), cancelled: false },
    }
}

/// An outcome with more events.
pub open spec fn with_events(outcome: OutcomeView, events: Seq<EventView>) -> OutcomeView {
    OutcomeView { events: outcome.events + events, ..outcome }
}

/// What is to be reported of a history: what was found, then what was created, then
/// what was transferred.
pub open spec fn reported(h: History) -> OutcomeView {
    with_events(
        with_events(findings(h), creations(h.directories, h.directories.len())),
        planned(h.verdicts),
    )
}

/// The events of some transfers.
pub open spec fn events_of(transfers: Seq<TransferView>) -> Seq<EventView> {
    Seq::new(
        transfers.len(),
        |i: int| EventView { path: transfers[i].path, kind: transfers[i].kind },
    )
}

/// The event of the transfer that stands aside, if there is one.
pub open spec fn current_of(u: ScopedView) -> Seq<EventView> {
    match u.current {
        Some(event) => seq![event],
        None => Seq::empty(),
    }
}

/// Whether two lists of directories are the same from a position on.
pub open spec fn same_from(
    a: Seq<DirectoryView>,
    b: Seq<DirectoryView>,
    from: nat,
) -> bool {
    &&& a.len() == b.len()
    &&& forall|i: int| from <= i < a.len() ==> #[trigger] a[i] == b[i]
}

/// Whether a synchronisation works on what its history tells.
pub open spec fn holds_history(u: ScopedView, h: History) -> bool {
    match h.inventory {
        Some(inventory) => {
            &&& u.entries == plan::retained(inventory.0, inventory.1)
            &&& u.files == files_of(inventory)
        },
        None => false,
    }
}

/// Whether every planning that was told gave something to go on with.
pub open spec fn goes_on(verdicts: Seq<VerdictView>) -> bool {
    forall|i: int|
        0 <= i < verdicts.len() ==> !((#[trigger] verdicts[i]) is Cancelled) && !(
        verdicts[i] is Failed)
}

/// Whether a synchronisation has reported of its history what it should have by its
/// stage, and holds the rest.
pub open spec fn follows(u: ScopedView, h: History) -> bool {
    let all = creations(h.directories, h.directories.len());
    match u.stage {
        SyncStage::Inventory => {
            &&& h == no_history()
            &&& u.pending.len() == 0
            &&& u.settled.len() == 0
            &&& u.current is None
        },
        SyncStage::Capture => {
            &&& holds_history(u, h)
            &&& h.verdicts.len() == 0
            &&& u.outcome == findings(h)
            &&& u.pending.len() == 0
            &&& u.settled.len() == 0
            &&& u.current is None
        },
        SyncStage::File => {
            &&& holds_history(u, h)
            &&& goes_on(h.verdicts)
            &&& u.directories == h.directories
            &&& u.at == h.verdicts.len()
            &&& u.at < u.files.len()
            &&& u.outcome == findings(h)
            &&& events_of(u.pending) == planned(h.verdicts)
            &&& u.settled.len() == 0
            &&& u.current is None
        },
        SyncStage::Directory => {
            &&& holds_history(u, h)
            &&& goes_on(h.verdicts)
            &&& h.verdicts.len() == u.files.len()
            &&& same_from(u.directories, h.directories, u.at)
            &&& u.at < h.directories.len()
            &&& creation::action_of(h.directories[u.at as int]) == Ok::<
                Option<DirectoryAction>,
                error::ErrorView,
            >(Some(u.action))
            &&& u.outcome == with_events(findings(h), creations(h.directories, u.at))
            &&& events_of(u.pending) == planned(h.verdicts)
            &&& u.settled.len() == 0
            &&& u.current is None
        },
        SyncStage::Settle => {
            &&& holds_history(u, h)
            &&& goes_on(h.verdicts)
            &&& h.verdicts.len() == u.files.len()
            &&& u.outcome == with_events(findings(h), all)
            &&& events_of(u.settled) + current_of(u) + events_of(u.pending) == planned(h.verdicts)
        },
        SyncStage::Done => u.failure is Some || u.outcome.cancelled || {
            &&& holds_history(u, h)
            &&& goes_on(h.verdicts)
            &&& h.verdicts.len() == u.files.len()
            &&& u.outcome == outcome::sorted(reported(h))
        },
        _ => {
            &&& holds_history(u, h)
            &&& goes_on(h.verdicts)
            &&& h.verdicts.len() == u.files.len()
            &&& u.pending.len() == 0
            &&& u.stage == SyncStage::TransferPoll ==> u.settled.len() > 0
            &&& u.stage != SyncStage::Transfer ==> u.current is None
            &&& u.stage != SyncStage::Transfer && u.stage != SyncStage::TransferPoll
                ==> u.settled.len() == 0
            &&& with_events(u.outcome, current_of(u) + events_of(u.settled)) == reported(h)
        },
    }
}

proof fn next_action_is_local(a: Seq<DirectoryView>, b: Seq<DirectoryView>, from: nat)
    requires
        same_from(a, b, from),
    ensures
        scoped::next_action(a, from) == scoped::next_action(b, from),
    decreases a.len() - from,
{
    if from < a.len() {
        assert(a[from as int] == b[from as int]);
        next_action_is_local(a, b, from + 1);
    }
}

/// Nothing is created between a position and the next directory that one side lacks.
proof fn next_action_skips_nothing(directories: Seq<DirectoryView>, from: nat)
    requires
        from <= directories.len(),
    ensures
        scoped::next_action(directories, from) matches Ok(Some((at, action))) ==> {
            &&& from <= at < directories.len()
            &&& creation::action_of(directories[at as int]) == Ok::<
                Option<DirectoryAction>,
                error::ErrorView,
            >(Some(action))
            &&& creations(directories, at) == creations(directories, from)
            &&& forall|i: int|
                from <= i < at ==> creation::action_of(#[trigger] directories[i]) == Ok::<
                    Option<DirectoryAction>,
                    error::ErrorView,
                >(None)
        },
        scoped::next_action(directories, from) == Ok::<
            Option<(nat, DirectoryAction)>,
            error::ErrorView,
        >(None) ==> {
            &&& creations(directories, directories.len()) == creations(directories, from)
            &&& forall|i: int|
                from <= i < directories.len() ==> creation::action_of(#[trigger] directories[i])
                    == Ok::<Option<DirectoryAction>, error::ErrorView>(None)
        },
    decreases directories.len() - from,
{
    if from < directories.len() {
        next_action_skips_nothing(directories, from + 1);
    }
}

proof fn transfers_follow(u: ScopedView, h: History)
    requires
        holds_history(u, h),
        goes_on(h.verdicts),
        h.verdicts.len() == u.files.len(),
        u.pending.len() == 0,
        with_events(u.outcome, events_of(u.settled)) == reported(h),
    ensures
        follows(u.at_transfer(), h),
{
    let v = u.at_transfer();
    assert(current_of(v) + events_of(v.settled) =~= events_of(u.settled));
}

proof fn settling_follows(u: ScopedView, h: History)
    requires
        holds_history(u, h),
        goes_on(h.verdicts),
        h.verdicts.len() == u.files.len(),
        u.outcome == with_events(
            findings(h),
            creations(h.directories, h.directories.len()),
        ),
        events_of(u.settled) + events_of(u.pending) == planned(h.verdicts),
    ensures
        follows(u.at_settling(), h),
{
    let count = scoped::settled_count(u.pending) as int;
    scoped::settled_count_bounds(u.pending);
    let next = ScopedView {
        pending: u.pending.skip(count),
        settled: u.settled + u.pending.take(count),
        current: None,
        ..u
    };
    assert(events_of(next.settled) + events_of(next.pending) =~= events_of(u.settled) + events_of(
        u.pending,
    ));
    if next.pending.len() > 0 {
        let v = u.at_settling();
        assert(events_of(v.settled) + current_of(v) + events_of(v.pending) =~= events_of(
            u.settled,
        ) + events_of(u.pending));
    } else {
        assert(events_of(next.settled) + events_of(next.pending) =~= events_of(next.settled));
        transfers_follow(next, h);
    }
}

proof fn directories_follow(u: ScopedView, h: History, from: nat)
    requires
        holds_history(u, h),
        goes_on(h.verdicts),
        h.verdicts.len() == u.files.len(),
        from <= h.directories.len(),
        same_from(u.directories, h.directories, from),
        u.outcome == with_events(findings(h), creations(h.directories, from)),
        events_of(u.pending) == planned(h.verdicts),
        u.settled.len() == 0,
        u.current is None,
    ensures
        follows(u.at_directory(from), h),
{
    next_action_is_local(u.directories, h.directories, from);
    next_action_skips_nothing(h.directories, from);
    match scoped::next_action(u.directories, from) {
        Err(_) => {},
        Ok(Some(_)) => {},
        Ok(None) => {
            assert(events_of(u.settled) + events_of(u.pending) =~= events_of(u.pending));
            settling_follows(u, h);
        },
    }
}

proof fn files_follow(u: ScopedView, h: History)
    requires
        holds_history(u, h),
        goes_on(h.verdicts),
        h.verdicts.len() <= u.files.len(),
        u.directories == h.directories,
        u.outcome == findings(h),
        events_of(u.pending) == planned(h.verdicts),
        u.settled.len() == 0,
        u.current is None,
    ensures
        follows(u.at_file(h.verdicts.len()), h),
{
    if h.verdicts.len() == u.files.len() {
        assert(findings(h).events + creations(h.directories, 0) =~= findings(h).events);
        directories_follow(u, h, 0);
    }
}

proof fn file_follows(u: ScopedView, h: History, verdict: VerdictView)
    requires
        follows(u, h),
        u.stage == SyncStage::File,
    ensures
        ({
            let step = SyncMove::Answer(SyncReply::File(verdict));
            follows(moved(u, step), told(h, u, step))
        }),
{
    let more = History { verdicts: h.verdicts.push(verdict), ..h };
    assert(more.verdicts.drop_last() =~= h.verdicts);
    let here = u.files[u.at as int];
    if !(verdict is Cancelled) && !(verdict is Failed) {
        assert(goes_on(more.verdicts)) by {
            assert forall|i: int| 0 <= i < more.verdicts.len() implies !((
            #[trigger] more.verdicts[i]) is Cancelled) && !(more.verdicts[i] is Failed) by {
                if i < h.verdicts.len() {
                    assert(more.verdicts[i] == h.verdicts[i]);
                }
            }
        }
        let next = match verdict {
            VerdictView::Unchanged => ScopedView {
                outcome: u.outcome.with_event(here, SyncEventKind::Unchanged),
                ..u
            },
            VerdictView::Conflict(state) => ScopedView {
                outcome: u.outcome.with_issue(IssueView::FileConflict { path: here, state }),
                ..u
            },
            VerdictView::Transfer(transfer) => ScopedView {
                pending: u.pending.push(transfer),
                ..u
            },
            _ => u,
        };
        assert(next.outcome == findings(more));
        assert(events_of(next.pending) =~= planned(more.verdicts));
        files_follow(next, more);
        assert(moved(u, SyncMove::Answer(SyncReply::File(verdict))) == next.at_file(u.at + 1));
    }
}

proof fn creation_follows(u: ScopedView, h: History, identity: Option<IdentityView>)
    requires
        follows(u, h),
        u.stage == SyncStage::Directory,
    ensures
        follows(
            scoped::sync_step(u, SyncReply::Created(CreatedView::Created(identity))),
            h,
        ),
{
    let event = EventView {
        path: u.directories[u.at as int].relative,
        kind: scoped::creation_kind(u.action),
    };
    let next = ScopedView {
        outcome: u.outcome.with_event(event.path, event.kind),
        directories: if u.mode == ExecutionMode::DryRun {
            u.directories
        } else {
            u.directories.update(u.at as int, u.created(identity))
        },
        ..u
    };
    assert(u.directories[u.at as int] == h.directories[u.at as int]);
    assert(creations(h.directories, u.at + 1) == creations(h.directories, u.at).push(event));
    assert(next.outcome.events =~= findings(h).events + creations(h.directories, u.at + 1));
    assert forall|i: int| u.at + 1 <= i < next.directories.len() implies #[trigger]
        next.directories[i] == h.directories[i] by {
        assert(u.directories[i] == h.directories[i]);
    }
    directories_follow(next, h, u.at + 1);
}

proof fn transfer_follows(u: ScopedView, h: History, step: SyncMove)
    requires
        follows(u, h),
        u.stage == SyncStage::Settle || u.stage == SyncStage::TransferPoll || u.stage
            == SyncStage::Transfer,
    ensures
        follows(moved(u, step), h),
{
    let v = moved(u, step);
    match step {
        SyncMove::StandAside => {
            if may_stand_aside(u) {
                if u.stage == SyncStage::Settle {
                    assert(events_of(v.settled) + current_of(v) + events_of(v.pending)
                        =~= events_of(u.settled) + current_of(u) + events_of(u.pending));
                } else {
                    assert(current_of(v) + events_of(v.settled) =~= current_of(u) + events_of(
                        u.settled,
                    ));
                }
            }
        },
        SyncMove::Answer(SyncReply::Settled(SettledView::Settled(plan))) => {
            if u.stage == SyncStage::Settle {
                if let Some(event) = u.current {
                    let next = ScopedView {
                        settled: u.settled.push(
                            TransferView {
                                path: event.path,
                                kind: event.kind,
                                operation: file_plan::OperationView::Download(plan),
                            },
                        ),
                        ..u
                    };
                    assert(events_of(next.settled) + events_of(next.pending) =~= events_of(
                        u.settled,
                    ) + current_of(u) + events_of(u.pending));
                    settling_follows(next, h);
                }
            }
        },
        SyncMove::Answer(SyncReply::Gate(true)) => {
            if u.stage == SyncStage::TransferPoll && scoped::is_preview(u.settled[0]) {
                let first = u.settled[0];
                let next = ScopedView {
                    outcome: u.outcome.with_event(first.path, first.kind),
                    settled: u.settled.skip(1),
                    ..u
                };
                assert(next.outcome.events + events_of(next.settled) =~= u.outcome.events + (
                current_of(u) + events_of(u.settled)));
                transfers_follow(next, h);
            }
        },
        SyncMove::Answer(SyncReply::Transferred(Ok(CommitDecision::Committed))) => {
            if u.stage == SyncStage::Transfer {
                if let Some(event) = u.current {
                    let next = ScopedView {
                        outcome: u.outcome.with_event(event.path, event.kind),
                        ..u
                    };
                    assert(next.outcome.events + events_of(next.settled) =~= u.outcome.events + (
                    current_of(u) + events_of(u.settled)));
                    transfers_follow(next, h);
                }
            }
        },
        _ => {},
    }
}

proof fn move_follows(u: ScopedView, h: History, step: SyncMove)
    requires
        follows(u, h),
    ensures
        follows(moved(u, step), told(h, u, step)),
{
    match u.stage {
        SyncStage::Inventory => {
            if let SyncMove::Answer(SyncReply::Inventory(Ok(inventory))) = step {
                assert(no_history().verdicts.len() == 0);
            }
        },
        SyncStage::Capture => {
            if let SyncMove::Answer(SyncReply::Captured(Ok(directories))) = step {
                let more = History { directories, ..h };
                let next = ScopedView { directories, ..u };
                assert(events_of(next.pending) =~= planned(more.verdicts));
                files_follow(next, more);
            }
        },
        SyncStage::File => {
            if let SyncMove::Answer(SyncReply::File(verdict)) = step {
                file_follows(u, h, verdict);
            }
        },
        SyncStage::Directory => {
            if let SyncMove::Answer(SyncReply::Created(CreatedView::Created(identity))) = step {
                creation_follows(u, h, identity);
            }
        },
        SyncStage::Settle => {
            transfer_follows(u, h, step);
        },
        SyncStage::TransferPoll => {
            transfer_follows(u, h, step);
        },
        SyncStage::Transfer => {
            transfer_follows(u, h, step);
        },
        SyncStage::Done => {},
        _ => {
            assert(current_of(u) + events_of(u.settled) =~= Seq::<EventView>::empty());
            assert(u.outcome.events + Seq::<EventView>::empty() =~= u.outcome.events);
        },
    }
}

pub(crate) proof fn run_follows(start: ScopedView, moves: Seq<SyncMove>)
    requires
        follows(start, no_history()),
    ensures
        follows(run(start, moves).0, run(start, moves).1),
    decreases moves.len(),
{
    if moves.len() > 0 {
        run_follows(start, moves.drop_last());
        let (u, h) = run(start, moves.drop_last());
        move_follows(u, h, moves.last());
    }
}

/// A synchronisation that ends with everything done reports exactly what it was
/// told: what is only remembered and what is unchanged, the conflicts, a creation for
/// every captured directory that one side lacks, and a transfer for every file that
/// was planned for one. Every file of the inventory was planned.
pub proof fn completed_sync_reports_its_history(
    scope: ScopeView,
    local_root: Seq<char>,
    remote_root: Seq<char>,
    force: bool,
    mode: ExecutionMode,
    moves: Seq<SyncMove>,
)
    ensures
        ({
            let (u, h) = run(
                scoped::scoped_start(scope, local_root, remote_root, force, mode),
                moves,
            );
            is_completed(u) ==> {
                &&& u.outcome == outcome::sorted(reported(h))
                &&& h.inventory is Some
                &&& h.verdicts.len() == files_of(h.inventory->Some_0).len()
                &&& goes_on(h.verdicts)
            }
        }),
{
    run_follows(scoped::scoped_start(scope, local_root, remote_root, force, mode), moves);
}

/// What the planning of a file of a history gives, `known` being the hash that is
/// remembered of it and `replies` what the planning is told.
pub open spec fn planning_of(
    h: History,
    at: int,
    local_root: Seq<char>,
    remote_root: Seq<char>,
    force: bool,
    mode: ExecutionMode,
    known: Option<Seq<char>>,
    replies: Seq<PlanReply>,
) -> VerdictView {
    let inventory = h.inventory->Some_0;
    let path = files_of(inventory)[at];
    file_plan::verdict(
        file_plan::plan_run(
            file_plan::plan_start(
                path,
                local_root,
                remote_root,
                plan::retained(inventory.0, inventory.1)[path],
                known,
                force,
                mode,
                directories::missing_above(h.directories, h.directories.len(), path),
                planning::created_above(h.directories, path),
            ),
            replies,
        ),
    )
}

proof fn same_reports_say_the_same(
    base: OutcomeView,
    files: Seq<Seq<char>>,
    shown: Seq<VerdictView>,
    made: Seq<VerdictView>,
)
    requires
        shown.len() == made.len(),
        forall|i: int|
            0 <= i < shown.len() ==> file_plan::same_report(#[trigger] shown[i], made[i]),
    ensures
        with_verdicts(base, files, shown) == with_verdicts(base, files, made),
        planned(shown) == planned(made),
    decreases shown.len(),
{
    if shown.len() > 0 {
        let fewer = shown.drop_last();
        assert forall|i: int| 0 <= i < fewer.len() implies file_plan::same_report(
            #[trigger] fewer[i],
            made.drop_last()[i],
        ) by {
            assert(file_plan::same_report(shown[i], made[i]));
        }
        same_reports_say_the_same(base, files, fewer, made.drop_last());
        assert(file_plan::same_report(shown[shown.len() - 1], made[shown.len() - 1]));
    }
}

/// A run that changes nothing reports exactly what a run that does reports: where
/// both end with everything done and found the same inventory, the same directories
/// and, for each file, the same hash remembered and the same replies to its planning,
/// they have the same events, the same issues and the same end. A planning that has
/// ended passes over what it is told later, so that one that only shows a download
/// may be told what the other checks.
pub proof fn dry_run_previews_real_run(
    scope: ScopeView,
    local_root: Seq<char>,
    remote_root: Seq<char>,
    force: bool,
    shown_moves: Seq<SyncMove>,
    made_moves: Seq<SyncMove>,
    known: Seq<Option<Seq<char>>>,
    replies: Seq<Seq<PlanReply>>,
)
    requires
        ({
            let (shown, said) = run(
                scoped::scoped_start(
                    scope,
                    local_root,
                    remote_root,
                    force,
                    ExecutionMode::DryRun,
                ),
                shown_moves,
            );
            let (made, done) = run(
                scoped::scoped_start(
                    scope,
                    local_root,
                    remote_root,
                    force,
                    ExecutionMode::Apply,
                ),
                made_moves,
            );
            &&& is_completed(shown)
            &&& is_completed(made)
            &&& said.inventory == done.inventory
            &&& said.directories == done.directories
            &&& forall|i: int|
                0 <= i < said.verdicts.len() ==> #[trigger] said.verdicts[i] == planning_of(
                    said,
                    i,
                    local_root,
                    remote_root,
                    force,
                    ExecutionMode::DryRun,
                    known[i],
                    replies[i],
                )
            &&& forall|i: int|
                0 <= i < done.verdicts.len() ==> #[trigger] done.verdicts[i] == planning_of(
                    done,
                    i,
                    local_root,
                    remote_root,
                    force,
                    ExecutionMode::Apply,
                    known[i],
                    replies[i],
                )
        }),
    ensures
        ({
            let (shown, _) = run(
                scoped::scoped_start(
                    scope,
                    local_root,
                    remote_root,
                    force,
                    ExecutionMode::DryRun,
                ),
                shown_moves,
            );
            let (made, _) = run(
                scoped::scoped_start(
                    scope,
                    local_root,
                    remote_root,
                    force,
                    ExecutionMode::Apply,
                ),
                made_moves,
            );
            &&& shown.outcome.events == made.outcome.events
            &&& shown.outcome.issues == made.outcome.issues
            &&& shown.outcome.cancelled == made.outcome.cancelled
        }),
{
    completed_sync_reports_its_history(
        scope,
        local_root,
        remote_root,
        force,
        ExecutionMode::DryRun,
        shown_moves,
    );
    completed_sync_reports_its_history(
        scope,
        local_root,
        remote_root,
        force,
        ExecutionMode::Apply,
        made_moves,
    );
    let said = run(
        scoped::scoped_start(scope, local_root, remote_root, force, ExecutionMode::DryRun),
        shown_moves,
    ).1;
    let done = run(
        scoped::scoped_start(scope, local_root, remote_root, force, ExecutionMode::Apply),
        made_moves,
    ).1;
    let inventory = said.inventory->Some_0;
    let files = files_of(inventory);
    assert forall|i: int| 0 <= i < said.verdicts.len() implies file_plan::same_report(
        #[trigger] said.verdicts[i],
        done.verdicts[i],
    ) by {
        assert(!(done.verdicts[i] is Failed) && !(done.verdicts[i] is Cancelled));
        file_plan::planning_is_previewed(
            files[i],
            local_root,
            remote_root,
            plan::retained(inventory.0, inventory.1)[files[i]],
            known[i],
            force,
            directories::missing_above(said.directories, said.directories.len(), files[i]),
            planning::created_above(said.directories, files[i]),
            replies[i],
        );
    }
    same_reports_say_the_same(
        scoped::initial_outcome(inventory.0, inventory.1),
        files,
        said.verdicts,
        done.verdicts,
    );
}

proof fn move_only_shows(u: ScopedView, h: History, step: SyncMove)
    requires
        follows(u, h),
        scoped::only_shows(u),
        step matches SyncMove::Answer(SyncReply::File(VerdictView::Transfer(transfer)))
            ==> u.stage == SyncStage::File ==> scoped::is_preview(transfer),
    ensures
        scoped::only_shows(moved(u, step)),
        u.stage != SyncStage::Capture ==> moved(u, step).directories == u.directories,
{
    match step {
        SyncMove::StandAside => {},
        SyncMove::Answer(reply) => {
            scoped::shown_step(u, reply);
        },
    }
}

/// A run that changes nothing never settles or makes a transfer, and works to its end
/// on the directories as they were captured, as long as the planning of its files gives
/// only what is shown, which it does in such a run.
pub proof fn dry_run_only_shows(
    scope: ScopeView,
    local_root: Seq<char>,
    remote_root: Seq<char>,
    force: bool,
    moves: Seq<SyncMove>,
)
    requires
        ({
            let h = run(
                scoped::scoped_start(scope, local_root, remote_root, force, ExecutionMode::DryRun),
                moves,
            ).1;
            forall|i: int|
                0 <= i < h.verdicts.len() ==> ((
                #[trigger] h.verdicts[i]) matches VerdictView::Transfer(t)
                    ==> scoped::is_preview(t))
        }),
    ensures
        ({
            let (u, h) = run(
                scoped::scoped_start(scope, local_root, remote_root, force, ExecutionMode::DryRun),
                moves,
            );
            &&& scoped::only_shows(u)
            &&& u.directories == h.directories
        }),
    decreases moves.len(),
{
    let start = scoped::scoped_start(scope, local_root, remote_root, force, ExecutionMode::DryRun);
    if moves.len() > 0 {
        let (u, h) = run(start, moves.drop_last());
        let step = moves.last();
        let more = run(start, moves).1;
        assert forall|i: int| 0 <= i < h.verdicts.len() implies ((
        #[trigger] h.verdicts[i]) matches VerdictView::Transfer(t) ==> scoped::is_preview(t)) by {
            assert(more.verdicts[i] == h.verdicts[i]);
        }
        dry_run_only_shows(scope, local_root, remote_root, force, moves.drop_last());
        run_follows(start, moves.drop_last());
        if let SyncMove::Answer(SyncReply::File(verdict)) = step {
            if u.stage == SyncStage::File {
                assert(more.verdicts[h.verdicts.len() as int] == verdict);
            }
        }
        move_only_shows(u, h, step);
    }
}

/// Whether a directory is there on both sides.
pub open spec fn on_both_sides(directory: DirectoryView) -> bool {
    match (directory.local, directory.remote) {
        (LocalView::Root(_), ExpectedRemoteDirectory::Root) => true,
        (LocalView::Directory(_), ExpectedRemoteDirectory::Directory) => true,
        _ => false,
    }
}

/// Whether a directory is on neither side.
pub open spec fn on_neither_side(directory: DirectoryView) -> bool {
    directory.local is Missing && directory.remote == ExpectedRemoteDirectory::Missing
}

/// Whether a directory that was captured on some side is now on both.
pub open spec fn completes(before: DirectoryView, after: DirectoryView) -> bool {
    &&& after.relative == before.relative
    &&& on_both_sides(after) || (on_neither_side(before) && after == before)
}

/// Whether the first directories of a history are complete.
pub open spec fn complete_to(u: ScopedView, h: History, upto: nat) -> bool {
    &&& u.directories.len() == h.directories.len()
    &&& forall|i: int|
        0 <= i < upto && i < h.directories.len() ==> completes(
            h.directories[i],
            #[trigger] u.directories[i],
        )
}

/// Whether a synchronisation that makes its changes has the directories on both
/// sides that it should have by its stage.
pub open spec fn completes_directories(u: ScopedView, h: History) -> bool {
    &&& u.mode == ExecutionMode::Apply
    &&& match u.stage {
        SyncStage::Inventory => true,
        SyncStage::Capture => true,
        SyncStage::File => true,
        SyncStage::Directory => complete_to(u, h, u.at),
        SyncStage::Done => u.failure is Some || u.outcome.cancelled || complete_to(
            u,
            h,
            h.directories.len(),
        ),
        _ => complete_to(u, h, h.directories.len()),
    }
}

/// Whether what a move says of a new local directory tells which one it is.
pub open spec fn identifies(u: ScopedView, step: SyncMove) -> bool {
    match step {
        SyncMove::Answer(SyncReply::Created(CreatedView::Created(identity))) => u.stage
            == SyncStage::Directory && u.action == DirectoryAction::CreateLocal ==> identity
            is Some,
        _ => true,
    }
}

/// Whether every move of a run tells which local directory was made, where it made
/// one.
pub open spec fn all_identify(start: ScopedView, moves: Seq<SyncMove>) -> bool
    decreases moves.len(),
{
    moves.len() > 0 ==> {
        &&& all_identify(start, moves.drop_last())
        &&& identifies(run(start, moves.drop_last()).0, moves.last())
    }
}

/// Past a position, the directories stay as they are until the next one that one side
/// lacks.
proof fn passing_completes(u: ScopedView, h: History, from: nat)
    requires
        u.mode == ExecutionMode::Apply,
        from <= h.directories.len(),
        same_from(u.directories, h.directories, from),
        complete_to(u, h, from),
    ensures
        completes_directories(u.at_directory(from), h),
{
    next_action_is_local(u.directories, h.directories, from);
    next_action_skips_nothing(h.directories, from);
    let v = u.at_directory(from);
    let upto = match scoped::next_action(h.directories, from) {
        Ok(Some((at, _))) => at,
        _ => h.directories.len(),
    };
    if scoped::next_action(h.directories, from) is Ok {
        assert forall|i: int| 0 <= i < upto && i < h.directories.len() implies completes(
            h.directories[i],
            #[trigger] v.directories[i],
        ) by {
            assert(v.directories[i] == u.directories[i]);
            if i >= from {
                assert(u.directories[i] == h.directories[i]);
                assert(creation::action_of(h.directories[i]) == Ok::<
                    Option<DirectoryAction>,
                    error::ErrorView,
                >(None));
            }
        }
    }
}

proof fn creation_completes(u: ScopedView, h: History, identity: Option<IdentityView>)
    requires
        follows(u, h),
        completes_directories(u, h),
        u.stage == SyncStage::Directory,
        u.action == DirectoryAction::CreateLocal ==> identity is Some,
    ensures
        completes_directories(
            scoped::sync_step(u, SyncReply::Created(CreatedView::Created(identity))),
            h,
        ),
{
    let next = ScopedView {
        outcome: u.outcome.with_event(
            u.directories[u.at as int].relative,
            scoped::creation_kind(u.action),
        ),
        directories: u.directories.update(u.at as int, u.created(identity)),
        ..u
    };
    assert(u.directories[u.at as int] == h.directories[u.at as int]);
    assert forall|i: int| u.at + 1 <= i < next.directories.len() implies #[trigger]
        next.directories[i] == h.directories[i] by {
        assert(u.directories[i] == h.directories[i]);
    }
    assert forall|i: int| 0 <= i < u.at + 1 && i < h.directories.len() implies completes(
        h.directories[i],
        #[trigger] next.directories[i],
    ) by {
        if i < u.at {
            assert(completes(h.directories[i], u.directories[i]));
        }
    }
    passing_completes(next, h, u.at + 1);
}

proof fn move_completes(u: ScopedView, h: History, step: SyncMove)
    requires
        follows(u, h),
        completes_directories(u, h),
        identifies(u, step),
    ensures
        completes_directories(moved(u, step), told(h, u, step)),
{
    match u.stage {
        SyncStage::Capture => {
            if let SyncMove::Answer(SyncReply::Captured(Ok(directories))) = step {
                passing_completes(
                    ScopedView { directories, ..u },
                    History { directories, ..h },
                    0,
                );
            }
        },
        SyncStage::File => {
            if let SyncMove::Answer(SyncReply::File(verdict)) = step {
                let more = told(h, u, step);
                match verdict {
                    VerdictView::Unchanged => {
                        passing_completes(
                            ScopedView {
                                outcome: u.outcome.with_event(
                                    u.files[u.at as int],
                                    SyncEventKind::Unchanged,
                                ),
                                ..u
                            },
                            more,
                            0,
                        );
                    },
                    VerdictView::Conflict(state) => {
                        passing_completes(
                            ScopedView {
                                outcome: u.outcome.with_issue(
                                    IssueView::FileConflict { path: u.files[u.at as int], state },
                                ),
                                ..u
                            },
                            more,
                            0,
                        );
                    },
                    VerdictView::Transfer(transfer) => {
                        passing_completes(
                            ScopedView { pending: u.pending.push(transfer), ..u },
                            more,
                            0,
                        );
                    },
                    _ => {},
                }
            }
        },
        SyncStage::Directory => {
            if let SyncMove::Answer(SyncReply::Created(CreatedView::Created(identity))) = step {
                creation_completes(u, h, identity);
            }
        },
        _ => {
            let v = moved(u, step);
            assert(v.directories == u.directories);
        },
    }
}

proof fn run_completes(start: ScopedView, moves: Seq<SyncMove>)
    requires
        follows(start, no_history()),
        completes_directories(start, no_history()),
        all_identify(start, moves),
    ensures
        completes_directories(run(start, moves).0, run(start, moves).1),
    decreases moves.len(),
{
    if moves.len() > 0 {
        run_completes(start, moves.drop_last());
        run_follows(start, moves.drop_last());
        let (u, h) = run(start, moves.drop_last());
        move_completes(u, h, moves.last());
    }
}

/// Whether an event reports the creation of a directory.
pub open spec fn is_creation(kind: SyncEventKind) -> bool {
    kind == SyncEventKind::CreatedLocalDirectory || kind == SyncEventKind::CreatedRemoteDirectory
}

/// An event among others.
pub open spec fn same_event(event: EventView) -> spec_fn(EventView) -> bool {
    |other: EventView| other == event
}

proof fn findings_create_nothing(
    base: OutcomeView,
    files: Seq<Seq<char>>,
    verdicts: Seq<VerdictView>,
    event: EventView,
)
    requires
        is_creation(event.kind),
        accounting::tally(base.events, same_event(event)) == 0,
        forall|i: int|
            0 <= i < verdicts.len() ==> ((#[trigger] verdicts[i]) matches VerdictView::Transfer(t)
                ==> accounting::settles_file(t.kind)),
    ensures
        accounting::tally(with_verdicts(base, files, verdicts).events, same_event(event)) == 0,
        accounting::tally(planned(verdicts), same_event(event)) == 0,
    decreases verdicts.len(),
{
    if verdicts.len() > 0 {
        let fewer = verdicts.drop_last();
        assert forall|i: int| 0 <= i < fewer.len() implies ((
        #[trigger] fewer[i]) matches VerdictView::Transfer(t) ==> accounting::settles_file(
            t.kind,
        )) by {
            assert(fewer[i] == verdicts[i]);
        }
        findings_create_nothing(base, files, fewer, event);
        accounting::tally_push(
            with_verdicts(base, files, fewer).events,
            EventView { path: files[verdicts.len() - 1], kind: SyncEventKind::Unchanged },
            same_event(event),
        );
        if let VerdictView::Transfer(transfer) = verdicts[verdicts.len() - 1] {
            accounting::tally_push(
                planned(fewer),
                EventView { path: transfer.path, kind: transfer.kind },
                same_event(event),
            );
        }
    }
}

proof fn absences_create_nothing(entries: Entries, keys: Seq<Seq<char>>, event: EventView)
    requires
        is_creation(event.kind),
    ensures
        accounting::tally(plan::absences_of(entries, keys), same_event(event)) == 0,
    decreases keys.len(),
{
    if keys.len() > 0 {
        absences_create_nothing(entries, keys.drop_last(), event);
        accounting::tally_push(
            plan::absences_of(entries, keys.drop_last()),
            EventView { path: keys.last(), kind: SyncEventKind::SkippedAbsent },
            same_event(event),
        );
    }
}

/// A run that makes its changes and ends with everything done leaves every directory
/// that was captured on some side on both, and reports exactly the creations that
/// this took: one for each directory that one side lacked, on that side. A local
/// directory that was made must have been told by its identity, which a creation
/// does, and a transfer must say what became of a file, which a planning does.
pub proof fn completed_sync_completes_directories(
    scope: ScopeView,
    local_root: Seq<char>,
    remote_root: Seq<char>,
    force: bool,
    moves: Seq<SyncMove>,
    event: EventView,
)
    requires
        ({
            let start = scoped::scoped_start(
                scope,
                local_root,
                remote_root,
                force,
                ExecutionMode::Apply,
            );
            let (u, h) = run(start, moves);
            &&& is_completed(u)
            &&& all_identify(start, moves)
            &&& forall|i: int|
                0 <= i < h.verdicts.len() ==> ((
                #[trigger] h.verdicts[i]) matches VerdictView::Transfer(t)
                    ==> accounting::settles_file(t.kind))
        }),
    ensures
        ({
            let (u, h) = run(
                scoped::scoped_start(
                    scope,
                    local_root,
                    remote_root,
                    force,
                    ExecutionMode::Apply,
                ),
                moves,
            );
            &&& u.directories.len() == h.directories.len()
            &&& forall|i: int|
                0 <= i < h.directories.len() ==> completes(
                    h.directories[i],
                    #[trigger] u.directories[i],
                )
            &&& is_creation(event.kind) ==> accounting::tally(
                u.outcome.events,
                same_event(event),
            ) == accounting::tally(
                creations(h.directories, h.directories.len()),
                same_event(event),
            )
        }),
{
    let start = scoped::scoped_start(scope, local_root, remote_root, force, ExecutionMode::Apply);
    run_follows(start, moves);
    run_completes(start, moves);
    let (u, h) = run(start, moves);
    if is_creation(event.kind) {
        let inventory = h.inventory->Some_0;
        let kept = plan::retained(inventory.0, inventory.1);
        let base = scoped::initial_outcome(inventory.0, inventory.1);
        let made = creations(h.directories, h.directories.len());
        absences_create_nothing(kept, order::keys_of(kept), event);
        findings_create_nothing(base, files_of(inventory), h.verdicts, event);
        accounting::tally_concat(findings(h).events, made, same_event(event));
        accounting::tally_concat(
            findings(h).events + made,
            planned(h.verdicts),
            same_event(event),
        );
        accounting::tally_in_order(
            reported(h).events,
            outcome::event_key(),
            same_event(event),
        );
    }
}

} // verus!
