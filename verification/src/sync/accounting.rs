//! Every file of a scope is accounted for: as long as nothing fails and nothing is
//! cancelled, it is reported once, or a transfer of it is still to be made. What was
//! cancelled reports no file twice.

use crate::order;
use crate::scope::{CommitDecision, ExecutionMode, ScopeView};
use crate::sync::directories::IdentityView;
use crate::sync::file_plan::{
    DownloadPlanView,
    FilePlanView,
    OperationView,
    PlanReply,
    TransferView,
    VerdictView,
};
use crate::sync::file_plan;
use crate::sync::outcome;
use crate::sync::plan::{EventView, IssueView, SyncEventKind};
use crate::sync::plan;
use crate::sync::scoped::{CreatedView, ScopedView, SettledView, SyncReply, SyncStage};
use crate::sync::scoped;
use vstd::prelude::*;

verus! {

broadcast use vstd::seq::group_seq_axioms;

/// How many elements of a sequence a predicate holds of.
pub open spec fn tally<T>(s: Seq<T>, p: spec_fn(T) -> bool) -> nat
    decreases s.len(),
{
    if s.len() == 0 {
        0
    } else {
        tally(s.drop_last(), p) + if p(s.last()) {
            1nat
        } else {
            0nat
        }
    }
}

pub(crate) proof fn tally_push<T>(s: Seq<T>, x: T, p: spec_fn(T) -> bool)
    ensures
        tally(s.push(x), p) == tally(s, p) + if p(x) {
            1nat
        } else {
            0nat
        },
{
    assert(s.push(x).drop_last() =~= s);
}

pub(crate) proof fn tally_concat<T>(s: Seq<T>, t: Seq<T>, p: spec_fn(T) -> bool)
    ensures
        tally(s + t, p) == tally(s, p) + tally(t, p),
    decreases t.len(),
{
    if t.len() == 0 {
        assert(s + t =~= s);
    } else {
        tally_concat(s, t.drop_last(), p);
        assert((s + t).drop_last() =~= s + t.drop_last());
    }
}

proof fn tally_split<T>(s: Seq<T>, k: int, p: spec_fn(T) -> bool)
    requires
        0 <= k <= s.len(),
    ensures
        tally(s, p) == tally(s.take(k), p) + tally(s.skip(k), p),
{
    tally_concat(s.take(k), s.skip(k), p);
    assert(s.take(k) + s.skip(k) =~= s);
}

proof fn tally_first<T>(s: Seq<T>, p: spec_fn(T) -> bool)
    requires
        s.len() > 0,
    ensures
        tally(s, p) == tally(s.skip(1), p) + if p(s[0]) {
            1nat
        } else {
            0nat
        },
{
    tally_split(s, 1, p);
    assert(s.take(1) =~= Seq::empty().push(s[0]));
    tally_push(Seq::empty(), s[0], p);
}

proof fn tally_placed<T>(s: Seq<T>, x: T, key: spec_fn(T) -> Seq<char>, p: spec_fn(T) -> bool)
    ensures
        tally(outcome::placed(s, x, key), p) == tally(s.push(x), p),
    decreases s.len(),
{
    tally_push(s, x, p);
    if s.len() > 0 && order::before(key(x), key(s.last())) {
        tally_placed(s.drop_last(), x, key, p);
        tally_push(s.drop_last(), x, p);
        tally_push(outcome::placed(s.drop_last(), x, key), s.last(), p);
    }
}

pub(crate) proof fn tally_in_order<T>(s: Seq<T>, key: spec_fn(T) -> Seq<char>, p: spec_fn(T) -> bool)
    ensures
        tally(outcome::in_order(s, key), p) == tally(s, p),
    decreases s.len(),
{
    if s.len() > 0 {
        tally_in_order(s.drop_last(), key, p);
        tally_placed(outcome::in_order(s.drop_last(), key), s.last(), key, p);
        tally_push(outcome::in_order(s.drop_last(), key), s.last(), p);
    }
}

pub(crate) proof fn tally_none<T>(s: Seq<T>, p: spec_fn(T) -> bool)
    requires
        forall|i: int| 0 <= i < s.len() ==> !p(#[trigger] s[i]),
    ensures
        tally(s, p) == 0,
    decreases s.len(),
{
    if s.len() > 0 {
        assert forall|i: int| 0 <= i < s.drop_last().len() implies !p(#[trigger] s.drop_last()[i]) by {
            assert(s.drop_last()[i] == s[i]);
        }
        tally_none(s.drop_last(), p);
    }
}

/// Whether an event says what became of a file.
pub open spec fn settles_file(kind: SyncEventKind) -> bool {
    kind == SyncEventKind::Unchanged || kind == SyncEventKind::Uploaded || kind
        == SyncEventKind::Downloaded || kind == SyncEventKind::ForcedRemoteOverwrite
}

/// The events that say what became of the file at a path.
pub open spec fn event_of(path: Seq<char>) -> spec_fn(EventView) -> bool {
    |event: EventView| event.path == path && settles_file(event.kind)
}

/// The conflicts over the file at a path.
pub open spec fn conflict_of(path: Seq<char>) -> spec_fn(IssueView) -> bool {
    |issue: IssueView|
        match issue {
            IssueView::FileConflict { path: at, .. } => at == path,
            IssueView::TypeConflict { .. } => false,
        }
}

/// The transfers of the file at a path.
pub open spec fn transfer_of(path: Seq<char>) -> spec_fn(TransferView) -> bool {
    |transfer: TransferView| transfer.path == path
}

/// A path among others.
pub open spec fn same_path(path: Seq<char>) -> spec_fn(Seq<char>) -> bool {
    |other: Seq<char>| other == path
}

/// How often the file at a path is reported.
pub open spec fn reports(u: ScopedView, path: Seq<char>) -> nat {
    tally(u.outcome.events, event_of(path)) + tally(u.outcome.issues, conflict_of(path))
}

/// How often the file at a path is reported or waits for its transfer.
pub open spec fn held(u: ScopedView, path: Seq<char>) -> nat {
    reports(u, path) + tally(u.pending, transfer_of(path)) + tally(u.settled, transfer_of(path))
}

/// How often the file at a path is reported, waits for its transfer or is being
/// transferred.
pub open spec fn mentions(u: ScopedView, path: Seq<char>) -> nat {
    held(u, path) + if u.current matches Some(event) && event.path == path {
        1nat
    } else {
        0nat
    }
}

/// Whether every transfer, once made, says what became of a file.
pub open spec fn transfers_settle(u: ScopedView) -> bool {
    &&& forall|i: int| 0 <= i < u.pending.len() ==> settles_file((#[trigger] u.pending[i]).kind)
    &&& forall|i: int| 0 <= i < u.settled.len() ==> settles_file((#[trigger] u.settled[i]).kind)
    &&& u.current matches Some(event) ==> settles_file(event.kind)
}

/// Whether each of the first files is mentioned as often as it is among them, and
/// no other.
pub open spec fn mentioned_of(u: ScopedView, count: int) -> bool {
    forall|path: Seq<char>| #[trigger]
        mentions(u, path) == tally(u.files.take(count), same_path(path))
}

/// Whether no file is reported more often than it is among those of the scope, and
/// nothing else is reported at all.
pub open spec fn reported_at_most(u: ScopedView) -> bool {
    forall|path: Seq<char>| #[trigger] reports(u, path) <= tally(u.files, same_path(path))
}

/// Whether a file of the scope is to be planned: it is a file wherever it is, and
/// nothing at or above it is a file on one side and a directory on the other.
pub open spec fn is_planned(entries: plan::Entries, path: Seq<char>) -> bool {
    entries.contains_key(path) && !plan::suppressed(entries, path) && plan::is_file(entries[path])
}

/// Whether the files are those that are to be planned, unless nothing was found.
pub open spec fn holds_its_files(u: ScopedView) -> bool {
    u.failure is Some || u.files == plan::files_of(u.entries, order::keys_of(u.entries))
}

/// Whether the files that were planned are accounted for, and no others.
pub open spec fn accounted(u: ScopedView) -> bool {
    let all = u.files.len() as int;
    &&& u.stage == SyncStage::Inventory || holds_its_files(u)
    &&& match u.stage {
        SyncStage::Inventory => {
            &&& u.pending.len() == 0
            &&& u.settled.len() == 0
            &&& u.current is None
        },
        SyncStage::Capture => {
            &&& u.pending.len() == 0
            &&& u.settled.len() == 0
            &&& u.current is None
            &&& mentioned_of(u, 0)
        },
        SyncStage::File => {
            &&& transfers_settle(u)
            &&& u.settled.len() == 0
            &&& u.current is None
            &&& u.at <= all
            &&& mentioned_of(u, u.at as int)
        },
        SyncStage::Directory => {
            &&& transfers_settle(u)
            &&& u.current is None
            &&& mentioned_of(u, all)
        },
        SyncStage::Settle => transfers_settle(u) && mentioned_of(u, all),
        SyncStage::TransferPoll => {
            &&& transfers_settle(u)
            &&& u.pending.len() == 0
            &&& u.current is None
            &&& mentioned_of(u, all)
        },
        SyncStage::Transfer => {
            &&& transfers_settle(u)
            &&& u.pending.len() == 0
            &&& mentioned_of(u, all)
        },
        SyncStage::Done => u.failure is Some || {
            &&& reported_at_most(u)
            &&& u.outcome.cancelled || {
                &&& u.pending.len() == 0
                &&& u.settled.len() == 0
                &&& u.current is None
                &&& mentioned_of(u, all)
            }
        },
        _ => {
            &&& u.pending.len() == 0
            &&& u.settled.len() == 0
            &&& u.current is None
            &&& mentioned_of(u, all)
        },
    }
}

/// The planning of a file is about that file, and what it plans says what becomes of
/// it.
pub open spec fn answers_its_file(u: ScopedView, reply: SyncReply) -> bool {
    u.stage == SyncStage::File ==> {
        &&& u.at < u.files.len()
        &&& reply matches SyncReply::File(VerdictView::Transfer(transfer)) ==> {
            &&& transfer.path == u.files[u.at as int]
            &&& settles_file(transfer.kind)
        }
    }
}

/// What ends is reported no more often than it was mentioned.
proof fn ending_keeps_accounts(u: ScopedView, count: int)
    requires
        0 <= count <= u.files.len(),
        mentioned_of(u, count),
    ensures
        reported_at_most(u),
        reported_at_most(u.cancelled()),
        reported_at_most(u.completed()),
{
    assert forall|path: Seq<char>| #[trigger] reports(u, path) <= tally(
        u.files,
        same_path(path),
    ) by {
        assert(mentions(u, path) == tally(u.files.take(count), same_path(path)));
        tally_split(u.files, count, same_path(path));
    }
    assert forall|path: Seq<char>| #[trigger] reports(u.cancelled(), path) <= tally(
        u.files,
        same_path(path),
    ) by {
        assert(reports(u, path) <= tally(u.files, same_path(path)));
        tally_in_order(u.outcome.events, outcome::event_key(), event_of(path));
        tally_in_order(u.outcome.issues, outcome::issue_key(), conflict_of(path));
    }
    assert forall|path: Seq<char>| #[trigger] reports(u.completed(), path) <= tally(
        u.files,
        same_path(path),
    ) by {
        assert(reports(u, path) <= tally(u.files, same_path(path)));
        tally_in_order(u.outcome.events, outcome::event_key(), event_of(path));
        tally_in_order(u.outcome.issues, outcome::issue_key(), conflict_of(path));
    }
}

proof fn settling_keeps_accounts(u: ScopedView)
    requires
        holds_its_files(u),
        transfers_settle(u),
        u.current is None,
        mentioned_of(u, u.files.len() as int),
    ensures
        accounted(u.at_settling()),
{
    let count = scoped::settled_count(u.pending) as int;
    scoped::settled_count_bounds(u.pending);
    let v = u.at_settling();
    assert forall|i: int| 0 <= i < v.pending.len() implies settles_file(
        (#[trigger] v.pending[i]).kind,
    ) by {
        assert(v.pending[i] == u.pending[i + count]);
    }
    assert forall|i: int| 0 <= i < v.settled.len() implies settles_file(
        (#[trigger] v.settled[i]).kind,
    ) by {
        if i < u.settled.len() {
            assert(v.settled[i] == u.settled[i]);
        } else {
            assert(v.settled[i] == u.pending[i - u.settled.len()]);
        }
    }
    assert forall|path: Seq<char>| #[trigger] mentions(v, path) == tally(
        v.files.take(v.files.len() as int),
        same_path(path),
    ) by {
        assert(mentions(u, path) == tally(u.files.take(u.files.len() as int), same_path(path)));
        tally_split(u.pending, count, transfer_of(path));
        tally_concat(u.settled, u.pending.take(count), transfer_of(path));
    }
}

proof fn directories_keep_accounts(u: ScopedView, from: nat)
    requires
        holds_its_files(u),
        transfers_settle(u),
        u.current is None,
        mentioned_of(u, u.files.len() as int),
    ensures
        accounted(u.at_directory(from)),
{
    settling_keeps_accounts(u);
    let v = u.at_directory(from);
    if v.stage == SyncStage::Directory {
        assert forall|path: Seq<char>| #[trigger] mentions(v, path) == tally(
            v.files.take(v.files.len() as int),
            same_path(path),
        ) by {
            assert(mentions(u, path) == tally(u.files.take(u.files.len() as int), same_path(path)));
        }
    }
}

proof fn files_keep_accounts(u: ScopedView, at: nat)
    requires
        holds_its_files(u),
        transfers_settle(u),
        u.settled.len() == 0,
        u.current is None,
        at <= u.files.len(),
        mentioned_of(u, at as int),
    ensures
        accounted(u.at_file(at)),
{
    if at < u.files.len() {
        let v = u.at_file(at);
        assert forall|path: Seq<char>| #[trigger] mentions(v, path) == tally(
            v.files.take(at as int),
            same_path(path),
        ) by {
            assert(mentions(u, path) == tally(u.files.take(at as int), same_path(path)));
        }
    } else {
        directories_keep_accounts(u, 0);
    }
}

/// One more mention of the file at the position accounts for it.
proof fn next_file_is_mentioned(u: ScopedView, v: ScopedView)
    requires
        accounted(u),
        u.stage == SyncStage::File,
        u.at < u.files.len(),
        v.files == u.files,
        forall|path: Seq<char>| #[trigger]
            mentions(v, path) == mentions(u, path) + if path == u.files[u.at as int] {
                1nat
            } else {
                0nat
            },
    ensures
        mentioned_of(v, u.at as int + 1),
{
    assert forall|path: Seq<char>| #[trigger] mentions(v, path) == tally(
        v.files.take(u.at as int + 1),
        same_path(path),
    ) by {
        assert(mentions(u, path) == tally(u.files.take(u.at as int), same_path(path)));
        assert(u.files.take(u.at as int + 1) =~= u.files.take(u.at as int).push(u.files[u.at as int]));
        tally_push(u.files.take(u.at as int), u.files[u.at as int], same_path(path));
    }
}

proof fn inventory_keeps_accounts(u: ScopedView, entries: plan::Entries, ancestors: plan::Entries)
    requires
        accounted(u),
        u.stage == SyncStage::Inventory,
    ensures
        accounted(scoped::sync_step(u, SyncReply::Inventory(Ok((entries, ancestors))))),
{
    let v = scoped::sync_step(u, SyncReply::Inventory(Ok((entries, ancestors))));
    let kept = plan::retained(entries, ancestors);
    assert forall|path: Seq<char>| #[trigger] mentions(v, path) == tally(
        v.files.take(0),
        same_path(path),
    ) by {
        absences_settle_nothing(kept, order::keys_of(kept), path);
        tally_none(v.outcome.issues, conflict_of(path));
        assert(v.files.take(0).len() == 0);
    }
}

proof fn absences_settle_nothing(entries: plan::Entries, keys: Seq<Seq<char>>, path: Seq<char>)
    ensures
        tally(plan::absences_of(entries, keys), event_of(path)) == 0,
    decreases keys.len(),
{
    if keys.len() > 0 {
        absences_settle_nothing(entries, keys.drop_last(), path);
        tally_push(
            plan::absences_of(entries, keys.drop_last()),
            EventView { path: keys.last(), kind: SyncEventKind::SkippedAbsent },
            event_of(path),
        );
    }
}

proof fn file_keeps_accounts(u: ScopedView, verdict: VerdictView)
    requires
        accounted(u),
        u.stage == SyncStage::File,
        answers_its_file(u, SyncReply::File(verdict)),
    ensures
        accounted(scoped::sync_step(u, SyncReply::File(verdict))),
{
    ending_keeps_accounts(u, u.at as int);
    let here = u.files[u.at as int];
    match verdict {
        VerdictView::Unchanged => {
            let next = ScopedView {
                outcome: u.outcome.with_event(here, SyncEventKind::Unchanged),
                ..u
            };
            assert forall|path: Seq<char>| #[trigger] mentions(next, path) == mentions(u, path)
                + if path == here {
                1nat
            } else {
                0nat
            } by {
                tally_push(
                    u.outcome.events,
                    EventView { path: here, kind: SyncEventKind::Unchanged },
                    event_of(path),
                );
            }
            next_file_is_mentioned(u, next);
            files_keep_accounts(next, u.at + 1);
        },
        VerdictView::Conflict(state) => {
            let issue = IssueView::FileConflict { path: here, state };
            let next = ScopedView { outcome: u.outcome.with_issue(issue), ..u };
            assert forall|path: Seq<char>| #[trigger] mentions(next, path) == mentions(u, path)
                + if path == here {
                1nat
            } else {
                0nat
            } by {
                tally_push(u.outcome.issues, issue, conflict_of(path));
            }
            next_file_is_mentioned(u, next);
            files_keep_accounts(next, u.at + 1);
        },
        VerdictView::Transfer(transfer) => {
            let next = ScopedView { pending: u.pending.push(transfer), ..u };
            assert forall|path: Seq<char>| #[trigger] mentions(next, path) == mentions(u, path)
                + if path == here {
                1nat
            } else {
                0nat
            } by {
                tally_push(u.pending, transfer, transfer_of(path));
            }
            assert forall|i: int| 0 <= i < next.pending.len() implies settles_file(
                (#[trigger] next.pending[i]).kind,
            ) by {
                if i < u.pending.len() {
                    assert(next.pending[i] == u.pending[i]);
                }
            }
            next_file_is_mentioned(u, next);
            files_keep_accounts(next, u.at + 1);
        },
        _ => {},
    }
}

proof fn created_keeps_accounts(u: ScopedView, identity: Option<IdentityView>)
    requires
        accounted(u),
        u.stage == SyncStage::Directory,
    ensures
        accounted(scoped::sync_step(u, SyncReply::Created(CreatedView::Created(identity)))),
{
    let event = EventView {
        path: u.directories[u.at as int].relative,
        kind: scoped::creation_kind(u.action),
    };
    let next = ScopedView {
        outcome: u.outcome.with_event(event.path, event.kind),
        directories: if u.mode == ExecutionMode::DryRun {
            u.directories
        } else {
            u.directories.update(u.at as int, u.created(identity))
        },
        ..u
    };
    let all = u.files.len() as int;
    assert forall|path: Seq<char>| #[trigger] mentions(next, path) == tally(
        next.files.take(all),
        same_path(path),
    ) by {
        assert(mentions(u, path) == tally(u.files.take(all), same_path(path)));
        tally_push(u.outcome.events, event, event_of(path));
    }
    directories_keep_accounts(next, u.at + 1);
}

proof fn settled_keeps_accounts(u: ScopedView, plan: DownloadPlanView)
    requires
        accounted(u),
        u.stage == SyncStage::Settle,
    ensures
        accounted(scoped::sync_step(u, SyncReply::Settled(SettledView::Settled(plan)))),
{
    if let Some(event) = u.current {
        let transfer = TransferView {
            path: event.path,
            kind: event.kind,
            operation: OperationView::Download(plan),
        };
        let next = ScopedView { settled: u.settled.push(transfer), ..u };
        let idle = ScopedView { current: None, ..next };
        let all = u.files.len() as int;
        assert forall|path: Seq<char>| #[trigger] mentions(idle, path) == tally(
            idle.files.take(all),
            same_path(path),
        ) by {
            assert(mentions(u, path) == tally(u.files.take(all), same_path(path)));
            tally_push(u.settled, transfer, transfer_of(path));
        }
        assert forall|i: int| 0 <= i < idle.settled.len() implies settles_file(
            (#[trigger] idle.settled[i]).kind,
        ) by {
            if i < u.settled.len() {
                assert(idle.settled[i] == u.settled[i]);
            }
        }
        settling_keeps_accounts(idle);
        assert(next.at_settling() == idle.at_settling());
    }
}

proof fn gate_keeps_accounts(u: ScopedView)
    requires
        scoped::sync_inv(u),
        accounted(u),
    ensures
        accounted(scoped::sync_step(u, SyncReply::Gate(true))),
{
    let v = scoped::sync_step(u, SyncReply::Gate(true));
    let all = u.files.len() as int;
    if u.stage == SyncStage::ValidateEnd {
        ending_keeps_accounts(u, all);
    }
    if u.stage == SyncStage::TransferPoll {
        let first = u.settled[0];
        assert forall|path: Seq<char>| #[trigger] mentions(v, path) == tally(
            v.files.take(all),
            same_path(path),
        ) by {
            assert(mentions(u, path) == tally(u.files.take(all), same_path(path)));
            if scoped::is_preview(first) {
                tally_first(u.settled, transfer_of(path));
                tally_push(
                    u.outcome.events,
                    EventView { path: first.path, kind: first.kind },
                    event_of(path),
                );
            }
        }
        assert forall|i: int| 0 <= i < v.settled.len() implies settles_file(
            (#[trigger] v.settled[i]).kind,
        ) by {
            if scoped::is_preview(first) {
                assert(v.settled[i] == u.settled[i + 1]);
            }
        }
    } else if u.stage == SyncStage::ValidateStart || u.stage == SyncStage::ValidatePoll || u.stage
        == SyncStage::ValidateEnd {
        assert forall|path: Seq<char>| #[trigger] mentions(v, path) == tally(
            v.files.take(all),
            same_path(path),
        ) by {
            assert(mentions(u, path) == tally(u.files.take(all), same_path(path)));
            tally_in_order(u.outcome.events, outcome::event_key(), event_of(path));
            tally_in_order(u.outcome.issues, outcome::issue_key(), conflict_of(path));
        }
    }
}

proof fn transfer_keeps_accounts(u: ScopedView, decision: CommitDecision)
    requires
        accounted(u),
        u.stage == SyncStage::Transfer,
    ensures
        accounted(scoped::sync_step(u, SyncReply::Transferred(Ok(decision)))),
{
    let v = scoped::sync_step(u, SyncReply::Transferred(Ok(decision)));
    let all = u.files.len() as int;
    ending_keeps_accounts(u, all);
    if let Some(event) = u.current {
        if decision == CommitDecision::Committed {
            assert forall|path: Seq<char>| #[trigger] mentions(v, path) == tally(
                v.files.take(all),
                same_path(path),
            ) by {
                assert(mentions(u, path) == tally(u.files.take(all), same_path(path)));
                tally_push(u.outcome.events, event, event_of(path));
            }
        }
    }
}

/// Whatever comes back, the files that were planned stay accounted for: none is
/// dropped and none is reported twice.
pub proof fn sync_keeps_accounts(u: ScopedView, reply: SyncReply)
    requires
        scoped::sync_inv(u),
        accounted(u),
        answers_its_file(u, reply),
    ensures
        accounted(scoped::sync_step(u, reply)),
{
    let v = scoped::sync_step(u, reply);
    let all = u.files.len() as int;
    if u.stage == SyncStage::File {
        ending_keeps_accounts(u, u.at as int);
    } else if u.stage != SyncStage::Inventory && u.stage != SyncStage::Capture && u.stage
        != SyncStage::Done {
        ending_keeps_accounts(u, all);
    }
    match reply {
        SyncReply::Inventory(Ok((entries, ancestors))) => {
            if u.stage == SyncStage::Inventory {
                inventory_keeps_accounts(u, entries, ancestors);
            }
        },
        SyncReply::Captured(Ok(directories)) => {
            if u.stage == SyncStage::Capture {
                let next = ScopedView { directories, ..u };
                assert forall|path: Seq<char>| #[trigger] mentions(next, path) == tally(
                    next.files.take(0),
                    same_path(path),
                ) by {
                    assert(mentions(u, path) == tally(u.files.take(0), same_path(path)));
                }
                files_keep_accounts(next, 0);
            }
        },
        SyncReply::File(verdict) => {
            if u.stage == SyncStage::File {
                file_keeps_accounts(u, verdict);
            }
        },
        SyncReply::Created(CreatedView::Created(identity)) => {
            if u.stage == SyncStage::Directory {
                created_keeps_accounts(u, identity);
            }
        },
        SyncReply::Settled(SettledView::Settled(plan)) => {
            if u.stage == SyncStage::Settle {
                settled_keeps_accounts(u, plan);
            }
        },
        SyncReply::Gate(current) => {
            if current {
                gate_keeps_accounts(u);
            }
        },
        SyncReply::Transferred(Ok(decision)) => {
            if u.stage == SyncStage::Transfer {
                transfer_keeps_accounts(u, decision);
            }
        },
        SyncReply::Validated(Ok(_)) => {
            if u.stage == SyncStage::Validate {
                assert forall|path: Seq<char>| #[trigger] mentions(v, path) == tally(
                    v.files.take(all),
                    same_path(path),
                ) by {
                    assert(mentions(u, path) == tally(u.files.take(all), same_path(path)));
                }
            }
        },
        _ => {},
    }
}

/// A transfer that stands aside while its destination is settled, or while it is
/// made, stays accounted for.
pub proof fn standing_aside_keeps_accounts(u: ScopedView)
    requires
        scoped::sync_inv(u),
        accounted(u),
        u.stage == SyncStage::Settle || u.stage == SyncStage::Transfer,
        u.current is None,
    ensures
        accounted(scoped::stood_aside(u)),
{
    let v = scoped::stood_aside(u);
    let all = u.files.len() as int;
    assert forall|path: Seq<char>| #[trigger] mentions(v, path) == tally(
        v.files.take(all),
        same_path(path),
    ) by {
        assert(mentions(u, path) == tally(u.files.take(all), same_path(path)));
        if u.stage == SyncStage::Settle {
            tally_first(u.pending, transfer_of(path));
        } else {
            tally_first(u.settled, transfer_of(path));
        }
    }
    assert forall|i: int| 0 <= i < v.pending.len() implies settles_file(
        (#[trigger] v.pending[i]).kind,
    ) by {
        if u.stage == SyncStage::Settle {
            assert(v.pending[i] == u.pending[i + 1]);
        }
    }
    assert forall|i: int| 0 <= i < v.settled.len() implies settles_file(
        (#[trigger] v.settled[i]).kind,
    ) by {
        if u.stage == SyncStage::Transfer {
            assert(v.settled[i] == u.settled[i + 1]);
        }
    }
}

proof fn each_file_is_planned_once(
    entries: plan::Entries,
    keys: Seq<Seq<char>>,
    path: Seq<char>,
)
    requires
        order::ascending(keys),
    ensures
        tally(plan::files_of(entries, keys), same_path(path)) == if keys.contains(path)
            && !plan::suppressed(entries, path) && plan::is_file(entries[path]) {
            1nat
        } else {
            0nat
        },
    decreases keys.len(),
{
    if keys.len() > 0 {
        let rest = keys.drop_last();
        assert forall|i: int, j: int| 0 <= i < j < rest.len() implies order::before(
            #[trigger] rest[i],
            #[trigger] rest[j],
        ) by {
            assert(rest[i] == keys[i] && rest[j] == keys[j]);
        }
        each_file_is_planned_once(entries, rest, path);
        tally_push(plan::files_of(entries, rest), keys.last(), same_path(path));
        if rest.contains(keys.last()) {
            let i = choose|i: int| 0 <= i < rest.len() && rest[i] == keys.last();
            assert(order::before(keys[i], keys[keys.len() - 1]));
            order::before_irreflexive(keys.last());
        }
        if path != keys.last() {
            assert(keys.contains(path) ==> rest.contains(path)) by {
                if keys.contains(path) {
                    let i = choose|i: int| 0 <= i < keys.len() && keys[i] == path;
                    assert(rest[i] == path);
                }
            }
            if rest.contains(path) {
                let i = choose|i: int| 0 <= i < rest.len() && rest[i] == path;
                assert(keys[i] == path);
            }
        } else {
            assert(keys[keys.len() - 1] == path);
        }
    }
}

/// A synchronisation that was neither cancelled nor failed reports every file that was
/// to be planned exactly once, by what was done about it or by its conflict, and
/// reports nothing of the kind for any other path.
pub proof fn completed_sync_reports_every_file(u: ScopedView, path: Seq<char>)
    requires
        accounted(u),
        u.entries.dom().finite(),
        u.stage == SyncStage::Done,
        u.failure is None,
        !u.outcome.cancelled,
    ensures
        reports(u, path) == if is_planned(u.entries, path) {
            1nat
        } else {
            0nat
        },
{
    assert(mentions(u, path) == tally(u.files.take(u.files.len() as int), same_path(path)));
    assert(u.files.take(u.files.len() as int) =~= u.files);
    order::keys_of_is_sound(u.entries);
    each_file_is_planned_once(u.entries, order::keys_of(u.entries), path);
}

/// A synchronisation that did not fail reports no file twice and no other path at
/// all, whether it was cancelled or not.
pub proof fn ended_sync_reports_no_file_twice(u: ScopedView, path: Seq<char>)
    requires
        accounted(u),
        u.entries.dom().finite(),
        u.stage == SyncStage::Done,
        u.failure is None,
    ensures
        reports(u, path) <= if is_planned(u.entries, path) {
            1nat
        } else {
            0nat
        },
{
    assert(reports(u, path) <= tally(u.files, same_path(path)));
    order::keys_of_is_sound(u.entries);
    each_file_is_planned_once(u.entries, order::keys_of(u.entries), path);
}

/// No event says what became of a file that is reported as a conflict, whether the
/// synchronisation was cancelled or not.
pub proof fn conflicts_have_no_event(u: ScopedView, path: Seq<char>)
    requires
        accounted(u),
        u.entries.dom().finite(),
        u.stage == SyncStage::Done,
        u.failure is None,
        tally(u.outcome.issues, conflict_of(path)) > 0,
    ensures
        tally(u.outcome.events, event_of(path)) == 0,
        tally(u.outcome.issues, conflict_of(path)) == 1,
        is_planned(u.entries, path),
{
    ended_sync_reports_no_file_twice(u, path);
}

/// The planning of a file stays with that file.
pub proof fn planning_stays_with_its_file(u: FilePlanView, reply: PlanReply)
    ensures
        file_plan::plan_step(u, reply).relative == u.relative,
        file_plan::plan_step(u, reply).local_path == u.local_path,
        file_plan::plan_step(u, reply).remote_path == u.remote_path,
        file_plan::plan_step(u, reply).force == u.force,
        file_plan::plan_step(u, reply).mode == u.mode,
{
}

/// What the planning of the file at the position gives is about that file, and says
/// what becomes of it.
pub proof fn verdicts_answer_their_file(u: ScopedView, plan: FilePlanView)
    requires
        scoped::sync_inv(u),
        u.stage == SyncStage::File,
        plan.relative == u.files[u.at as int],
    ensures
        answers_its_file(u, SyncReply::File(file_plan::verdict(plan))),
{
}

/// Once the scope is known, nothing that was reported is taken back: not by a later
/// file, not by a failure and not by a cancellation.
pub proof fn findings_are_kept(
    u: ScopedView,
    reply: SyncReply,
    events: spec_fn(EventView) -> bool,
    issues: spec_fn(IssueView) -> bool,
)
    requires
        u.stage != SyncStage::Inventory,
    ensures
        tally(u.outcome.events, events) <= tally(
            scoped::sync_step(u, reply).outcome.events,
            events,
        ),
        tally(u.outcome.issues, issues) <= tally(
            scoped::sync_step(u, reply).outcome.issues,
            issues,
        ),
{
    let v = scoped::sync_step(u, reply);
    tally_in_order(u.outcome.events, outcome::event_key(), events);
    tally_in_order(u.outcome.issues, outcome::issue_key(), issues);
    if v.outcome.events.len() > u.outcome.events.len() {
        tally_push(u.outcome.events, v.outcome.events.last(), events);
    }
    if v.outcome.issues.len() > u.outcome.issues.len() {
        tally_push(u.outcome.issues, v.outcome.issues.last(), issues);
    }
}

/// A synchronisation starts with nothing to account for.
pub proof fn sync_starts_accounted(
    scope: ScopeView,
    local_root: Seq<char>,
    remote_root: Seq<char>,
    force: bool,
    mode: ExecutionMode,
)
    ensures
        accounted(scoped::scoped_start(scope, local_root, remote_root, force, mode)),
{
}

} // verus!
