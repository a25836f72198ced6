//! What lies at or below a type conflict is left alone: nothing is reported of it.

use crate::error;
use crate::order;
use crate::paths;
use crate::scope::{CommitDecision, ExecutionMode, ScopeView};
use crate::sync::accounting;
use crate::sync::capture::{CapturePhase, CaptureView};
use crate::sync::capture;
use crate::sync::directories::{DirectoryView, ExpectedRemoteDirectory, IdentityView};
use crate::sync::directories;
use crate::sync::file_plan::{DownloadPlanView, OperationView, TransferView, VerdictView};
use crate::sync::history::SyncMove;
use crate::sync::history;
use crate::sync::outcome;
use crate::sync::plan::{Entries, IssueView, OutcomeView, SyncEventKind};
use crate::sync::plan;
use crate::sync::scoped::{CreatedView, ScopedView, SettledView, SyncReply, SyncStage};
use crate::sync::scoped;
use vstd::prelude::*;

verus! {

broadcast use vstd::seq::group_seq_axioms;

/// Whether a type conflict at a path is among some issues.
pub open spec fn conflicts(issues: Seq<IssueView>, path: Seq<char>) -> bool {
    exists|i: int|
        {
            &&& 0 <= i < issues.len()
            &&& #[trigger] issues[i] matches IssueView::TypeConflict { path: at, .. } && at == path
        }
}

/// Whether a path is neither at nor below a type conflict that is among some issues.
pub open spec fn clear(issues: Seq<IssueView>, path: Seq<char>) -> bool {
    forall|at: Seq<char>| #[trigger] conflicts(issues, at) ==> !paths::at_or_below(path, at)
}

/// Whether an outcome says nothing of what lies at or below its type conflicts.
pub open spec fn says_nothing_below(outcome: OutcomeView) -> bool {
    &&& forall|i: int|
        0 <= i < outcome.events.len() ==> clear(outcome.issues, (#[trigger] outcome.events[i]).path)
    &&& forall|i: int|
        0 <= i < outcome.issues.len() ==> ((
        #[trigger] outcome.issues[i]) matches IssueView::FileConflict { path, .. } ==> clear(
            outcome.issues,
            path,
        ))
}

/// Whether the transfers that a synchronisation holds are clear of the type conflicts.
pub open spec fn transfers_clear(u: ScopedView) -> bool {
    let issues = u.outcome.issues;
    &&& forall|i: int| 0 <= i < u.pending.len() ==> clear(issues, (#[trigger] u.pending[i]).path)
    &&& forall|i: int| 0 <= i < u.settled.len() ==> clear(issues, (#[trigger] u.settled[i]).path)
    &&& u.current matches Some(event) ==> clear(issues, event.path)
}

/// Whether a captured directory is clear of the type conflicts, or is the root, which
/// is never created.
pub open spec fn directory_clear(issues: Seq<IssueView>, directory: DirectoryView) -> bool {
    if directory.relative.len() == 0 {
        directory.local is Root && directory.remote == ExpectedRemoteDirectory::Root
    } else {
        clear(issues, directory.relative)
    }
}

/// Whether what a synchronisation works on is clear of the type conflicts.
pub open spec fn work_clear(u: ScopedView) -> bool {
    let issues = u.outcome.issues;
    &&& says_nothing_below(u.outcome)
    &&& transfers_clear(u)
    &&& forall|i: int| 0 <= i < u.files.len() ==> clear(issues, #[trigger] u.files[i])
    &&& forall|i: int|
        0 <= i < u.directories.len() ==> directory_clear(issues, #[trigger] u.directories[i])
}

/// Whether a synchronisation stays clear of the type conflicts by its stage.
pub open spec fn stays_clear(u: ScopedView) -> bool {
    &&& work_clear(u)
    &&& u.stage == SyncStage::Inventory ==> {
        &&& u.pending.len() == 0
        &&& u.settled.len() == 0
        &&& u.current is None
        &&& u.directories.len() == 0
    }
    &&& u.stage == SyncStage::Capture ==> forall|d: Seq<char>| #[trigger]
        directories::planned(u.entries, d) && d.len() > 0 ==> clear(u.outcome.issues, d)
    &&& u.stage == SyncStage::Directory ==> {
        &&& u.at < u.directories.len()
        &&& u.directories[u.at as int].relative.len() > 0
    }
}

/// Whether captured directories are those that a synchronisation rests on, the root
/// being one on both sides.
pub open spec fn captures_planned(entries: Entries, captured: Seq<DirectoryView>) -> bool {
    forall|i: int|
        0 <= i < captured.len() ==> {
            &&& directories::planned(entries, (#[trigger] captured[i]).relative)
            &&& captured[i].relative.len() == 0 ==> captured[i].local is Root && captured[i].remote
                == ExpectedRemoteDirectory::Root
        }
}

/// Whether a reply is one that a synchronisation can be given: an inventory is finite,
/// the captured directories are those that are rested on, and the planning of a file is
/// about that file.
pub open spec fn is_sound(u: ScopedView, reply: SyncReply) -> bool {
    &&& accounting::answers_its_file(u, reply)
    &&& reply matches SyncReply::Inventory(Ok(inventory)) ==> u.stage == SyncStage::Inventory ==> {
        &&& inventory.0.dom().finite()
        &&& inventory.1.dom().finite()
    }
    &&& reply matches SyncReply::Captured(Ok(captured)) ==> u.stage == SyncStage::Capture
        ==> captures_planned(u.entries, captured)
}

/// Whether every move of a run is one that the synchronisation can be given.
pub open spec fn all_sound(start: ScopedView, moves: Seq<SyncMove>) -> bool
    decreases moves.len(),
{
    moves.len() > 0 ==> {
        &&& all_sound(start, moves.drop_last())
        &&& moves.last() matches SyncMove::Answer(reply) ==> is_sound(
            history::run(start, moves.drop_last()).0,
            reply,
        )
    }
}

proof fn sorting_holds_the_same<T>(s: Seq<T>, key: spec_fn(T) -> Seq<char>)
    ensures
        forall|x: T| #[trigger] outcome::in_order(s, key).contains(x) <==> s.contains(x),
{
    broadcast use vstd::seq_lib::group_to_multiset_ensures;

    outcome::in_order_sorts(s, key);
    assert forall|x: T| #[trigger] outcome::in_order(s, key).contains(x) <==> s.contains(x) by {
        assert(outcome::in_order(s, key).to_multiset().count(x) == s.to_multiset().count(x));
    }
}

/// Where the type conflicts are the same, the same is clear of them.
proof fn same_conflicts_are_clear(a: Seq<IssueView>, b: Seq<IssueView>)
    requires
        forall|at: Seq<char>| #[trigger] conflicts(a, at) <==> conflicts(b, at),
    ensures
        forall|path: Seq<char>| #[trigger] clear(a, path) <==> clear(b, path),
{
    assert forall|path: Seq<char>| #[trigger] clear(a, path) <==> clear(b, path) by {
        if clear(a, path) {
            assert forall|at: Seq<char>| #[trigger] conflicts(b, at) implies !paths::at_or_below(
                path,
                at,
            ) by {
                assert(conflicts(a, at));
            }
        }
        if clear(b, path) {
            assert forall|at: Seq<char>| #[trigger] conflicts(a, at) implies !paths::at_or_below(
                path,
                at,
            ) by {
                assert(conflicts(b, at));
            }
        }
    }
}

proof fn file_conflict_hides_nothing(issues: Seq<IssueView>, issue: IssueView)
    requires
        issue is FileConflict,
    ensures
        forall|path: Seq<char>| #[trigger] clear(issues.push(issue), path) <==> clear(issues, path),
{
    let more = issues.push(issue);
    assert forall|at: Seq<char>| #[trigger] conflicts(more, at) <==> conflicts(issues, at) by {
        if conflicts(issues, at) {
            let i = choose|i: int|
                {
                    &&& 0 <= i < issues.len()
                    &&& #[trigger] issues[i] matches IssueView::TypeConflict { path, .. } && path
                        == at
                };
            assert(more[i] == issues[i]);
        }
        if conflicts(more, at) {
            let i = choose|i: int|
                {
                    &&& 0 <= i < more.len()
                    &&& #[trigger] more[i] matches IssueView::TypeConflict { path, .. } && path == at
                };
            assert(more[i] == issues[i]);
        }
    }
    same_conflicts_are_clear(more, issues);
}

proof fn sorting_hides_the_same(issues: Seq<IssueView>)
    ensures
        forall|path: Seq<char>| #[trigger]
            clear(outcome::in_order(issues, outcome::issue_key()), path) <==> clear(issues, path),
{
    let ordered = outcome::in_order(issues, outcome::issue_key());
    sorting_holds_the_same(issues, outcome::issue_key());
    assert forall|at: Seq<char>| #[trigger] conflicts(ordered, at) <==> conflicts(issues, at) by {
        if conflicts(issues, at) {
            let i = choose|i: int|
                {
                    &&& 0 <= i < issues.len()
                    &&& #[trigger] issues[i] matches IssueView::TypeConflict { path, .. } && path
                        == at
                };
            assert(ordered.contains(issues[i]));
            let j = choose|j: int| 0 <= j < ordered.len() && ordered[j] == issues[i];
            assert(ordered[j] == issues[i]);
        }
        if conflicts(ordered, at) {
            let i = choose|i: int|
                {
                    &&& 0 <= i < ordered.len()
                    &&& #[trigger] ordered[i] matches IssueView::TypeConflict { path, .. } && path
                        == at
                };
            assert(ordered.contains(ordered[i]));
            assert(issues.contains(ordered[i]));
            let j = choose|j: int| 0 <= j < issues.len() && issues[j] == ordered[i];
            assert(issues[j] == ordered[i]);
        }
    }
    same_conflicts_are_clear(ordered, issues);
}

/// An outcome that is put in order still says nothing of what lies at or below its
/// type conflicts.
proof fn sorted_says_nothing_below(before: OutcomeView)
    requires
        says_nothing_below(before),
    ensures
        says_nothing_below(outcome::sorted(before)),
        says_nothing_below(outcome::cancelled(before)),
        forall|path: Seq<char>| #[trigger]
            clear(outcome::sorted(before).issues, path) <==> clear(before.issues, path),
{
    let after = outcome::sorted(before);
    sorting_hides_the_same(before.issues);
    sorting_holds_the_same(before.events, outcome::event_key());
    sorting_holds_the_same(before.issues, outcome::issue_key());
    assert forall|i: int| 0 <= i < after.events.len() implies clear(
        after.issues,
        (#[trigger] after.events[i]).path,
    ) by {
        assert(after.events.contains(after.events[i]));
        let j = choose|j: int| 0 <= j < before.events.len() && before.events[j] == after.events[i];
        assert(clear(before.issues, before.events[j].path));
    }
    assert forall|i: int| 0 <= i < after.issues.len() implies ((
    #[trigger] after.issues[i]) matches IssueView::FileConflict { path, .. } ==> clear(
        after.issues,
        path,
    )) by {
        assert(after.issues.contains(after.issues[i]));
        let j = choose|j: int| 0 <= j < before.issues.len() && before.issues[j] == after.issues[i];
        if let IssueView::FileConflict { path, .. } = before.issues[j] {
            assert(clear(before.issues, path));
        }
    }
    assert(outcome::cancelled(before).events == after.events);
    assert(outcome::cancelled(before).issues == after.issues);
}

/// An event or an issue about a file that is clear leaves an outcome clear.
proof fn more_says_nothing_below(
    before: OutcomeView,
    path: Seq<char>,
    kind: SyncEventKind,
    issue: IssueView,
)
    requires
        says_nothing_below(before),
        clear(before.issues, path),
        issue matches IssueView::FileConflict { path: at, .. } && at == path,
    ensures
        says_nothing_below(before.with_event(path, kind)),
        says_nothing_below(before.with_issue(issue)),
        forall|p: Seq<char>| #[trigger]
            clear(before.with_issue(issue).issues, p) <==> clear(before.issues, p),
{
    let event = before.with_event(path, kind);
    assert forall|i: int| 0 <= i < event.events.len() implies clear(
        event.issues,
        (#[trigger] event.events[i]).path,
    ) by {
        if i < before.events.len() {
            assert(event.events[i] == before.events[i]);
        }
    }
    let after = before.with_issue(issue);
    file_conflict_hides_nothing(before.issues, issue);
    assert forall|i: int| 0 <= i < after.events.len() implies clear(
        after.issues,
        (#[trigger] after.events[i]).path,
    ) by {
        assert(after.events[i] == before.events[i]);
    }
    assert forall|i: int| 0 <= i < after.issues.len() implies ((
    #[trigger] after.issues[i]) matches IssueView::FileConflict { path, .. } ==> clear(
        after.issues,
        path,
    )) by {
        if i < before.issues.len() {
            assert(after.issues[i] == before.issues[i]);
            if let IssueView::FileConflict { path: at, .. } = before.issues[i] {
                assert(clear(before.issues, at));
            }
        }
    }
}

/// Whether a path is at or below a type conflict of an inventory, whose parts are the
/// entries that are kept and those above the selected path.
pub open spec fn covered(kept: Entries, ancestors: Entries, path: Seq<char>) -> bool {
    plan::suppressed(kept, path) || plan::suppressed(ancestors, path)
}

/// The type conflicts that are reported of an inventory are conflicts of it.
proof fn reported_conflicts_cover(entries: Entries, ancestors: Entries)
    ensures
        ({
            let kept = plan::retained(entries, ancestors);
            let issues = scoped::initial_outcome(entries, ancestors).issues;
            forall|path: Seq<char>|
                !covered(kept, ancestors, path) ==> #[trigger] clear(issues, path)
        }),
{
    let kept = plan::retained(entries, ancestors);
    let issues = scoped::initial_outcome(entries, ancestors).issues;
    let tops = plan::topmost_of(kept, order::keys_of(kept));
    let above = plan::topmost_of(ancestors, order::keys_of(ancestors));
    plan::topmost_of_holds(kept, order::keys_of(kept));
    plan::topmost_of_holds(ancestors, order::keys_of(ancestors));
    assert forall|path: Seq<char>| !covered(kept, ancestors, path) implies #[trigger] clear(
        issues,
        path,
    ) by {
        assert forall|at: Seq<char>| #[trigger] conflicts(issues, at) implies !paths::at_or_below(
            path,
            at,
        ) by {
            let i = choose|i: int|
                {
                    &&& 0 <= i < issues.len()
                    &&& #[trigger] issues[i] matches IssueView::TypeConflict { path: p, .. } && p
                        == at
                };
            if i < tops.len() {
                assert(at == tops[i]);
                assert(tops.contains(tops[i]));
                assert(plan::conflict_at(kept, at));
            } else {
                assert(at == above[i - tops.len()]);
                assert(above.contains(above[i - tops.len()]));
                assert(plan::conflict_at(ancestors, at));
            }
        }
    }
}

proof fn absences_are_kept(entries: Entries, keys: Seq<Seq<char>>)
    ensures
        forall|i: int|
            0 <= i < plan::absences_of(entries, keys).len() ==> {
                &&& keys.contains((#[trigger] plan::absences_of(entries, keys)[i]).path)
                &&& !plan::suppressed(entries, plan::absences_of(entries, keys)[i].path)
            },
    decreases keys.len(),
{
    if keys.len() > 0 {
        let fewer = keys.drop_last();
        absences_are_kept(entries, fewer);
        let all = plan::absences_of(entries, keys);
        let before = plan::absences_of(entries, fewer);
        assert forall|i: int| 0 <= i < all.len() implies {
            &&& keys.contains((#[trigger] all[i]).path)
            &&& !plan::suppressed(entries, all[i].path)
        } by {
            if i < before.len() {
                assert(all[i] == before[i]);
                let k = choose|k: int| 0 <= k < fewer.len() && fewer[k] == before[i].path;
                assert(keys[k] == before[i].path);
            } else {
                assert(keys[keys.len() - 1] == keys.last());
            }
        }
    }
}

/// A directory that a synchronisation rests on is not at or below a type conflict.
proof fn planned_directories_are_not_covered(
    entries: Entries,
    ancestors: Entries,
    directory: Seq<char>,
)
    requires
        directory.len() > 0,
        directories::planned(plan::retained(entries, ancestors), directory),
    ensures
        !covered(plan::retained(entries, ancestors), ancestors, directory),
{
    let kept = plan::retained(entries, ancestors);
    let path = choose|path: Seq<char>| #[trigger] directories::rests_on(kept, path, directory);
    if plan::suppressed(ancestors, directory) {
        let at = choose|at: Seq<char>| #[trigger]
            plan::conflict_at(ancestors, at) && paths::at_or_below(directory, at);
        if path != directory && directory != at {
            paths::below_is_transitive(path, directory, at);
        }
        assert(plan::conflict_at(ancestors, at) && paths::at_or_below(path, at));
        assert(plan::suppressed(ancestors, path));
    }
}

proof fn inventory_stays_clear(u: ScopedView, entries: Entries, ancestors: Entries)
    requires
        stays_clear(u),
        u.stage == SyncStage::Inventory,
        entries.dom().finite(),
    ensures
        stays_clear(scoped::sync_step(u, SyncReply::Inventory(Ok((entries, ancestors))))),
{
    let v = scoped::sync_step(u, SyncReply::Inventory(Ok((entries, ancestors))));
    let kept = plan::retained(entries, ancestors);
    let keys = order::keys_of(kept);
    let issues = v.outcome.issues;
    assert(kept.dom().subset_of(entries.dom()));
    vstd::set_lib::lemma_set_subset_finite(entries.dom(), kept.dom());
    order::keys_of_is_sound(kept);
    reported_conflicts_cover(entries, ancestors);
    absences_are_kept(kept, keys);
    plan::compared_files_do_not_conflict(kept, keys);
    assert forall|i: int| 0 <= i < v.outcome.events.len() implies clear(
        issues,
        (#[trigger] v.outcome.events[i]).path,
    ) by {
        let path = v.outcome.events[i].path;
        assert(keys.contains(path));
        assert(kept.contains_key(path));
        assert(!covered(kept, ancestors, path));
    }
    assert forall|i: int| 0 <= i < v.files.len() implies clear(issues, #[trigger] v.files[i]) by {
        assert(keys.contains(v.files[i]));
        assert(kept.contains_key(v.files[i]));
        assert(!covered(kept, ancestors, v.files[i]));
    }
    assert forall|d: Seq<char>| #[trigger]
        directories::planned(v.entries, d) && d.len() > 0 implies clear(issues, d) by {
        planned_directories_are_not_covered(entries, ancestors, d);
    }
}

proof fn settling_stays_clear(u: ScopedView)
    requires
        work_clear(ScopedView { current: None, ..u }),
    ensures
        stays_clear(u.at_settling()),
{
    let count = scoped::settled_count(u.pending) as int;
    scoped::settled_count_bounds(u.pending);
    let v = u.at_settling();
    let idle = ScopedView { current: None, ..u };
    let issues = u.outcome.issues;
    assert forall|i: int| 0 <= i < v.pending.len() implies clear(
        issues,
        (#[trigger] v.pending[i]).path,
    ) by {
        assert(v.pending[i] == idle.pending[i + count]);
    }
    assert forall|i: int| 0 <= i < v.settled.len() implies clear(
        issues,
        (#[trigger] v.settled[i]).path,
    ) by {
        if i < u.settled.len() {
            assert(v.settled[i] == idle.settled[i]);
        } else {
            assert(v.settled[i] == idle.pending[i - u.settled.len()]);
        }
    }
    assert(v.files == idle.files && v.directories == idle.directories);
}

proof fn next_action_is_not_the_root(
    issues: Seq<IssueView>,
    captured: Seq<DirectoryView>,
    from: nat,
)
    requires
        forall|i: int|
            0 <= i < captured.len() ==> directory_clear(issues, #[trigger] captured[i]),
    ensures
        scoped::next_action(captured, from) matches Ok(Some((at, _))) ==> {
            &&& at < captured.len()
            &&& captured[at as int].relative.len() > 0
        },
    decreases captured.len() - from,
{
    if from < captured.len() {
        assert(directory_clear(issues, captured[from as int]));
        next_action_is_not_the_root(issues, captured, from + 1);
    }
}

proof fn directories_stay_clear(u: ScopedView, from: nat)
    requires
        work_clear(u),
    ensures
        stays_clear(u.at_directory(from)),
{
    next_action_is_not_the_root(u.outcome.issues, u.directories, from);
    match scoped::next_action(u.directories, from) {
        Ok(None) => {
            settling_stays_clear(u);
        },
        _ => {
            let v = u.at_directory(from);
            assert(v.files == u.files && v.directories == u.directories);
            assert(v.pending == u.pending && v.settled == u.settled);
        },
    }
}

proof fn files_stay_clear(u: ScopedView, at: nat)
    requires
        work_clear(u),
    ensures
        stays_clear(u.at_file(at)),
{
    if at < u.files.len() {
        let v = u.at_file(at);
        assert(v.files == u.files && v.directories == u.directories);
        assert(v.pending == u.pending && v.settled == u.settled);
    } else {
        directories_stay_clear(u, 0);
    }
}

/// A synchronisation that ends stays clear.
proof fn ending_stays_clear(u: ScopedView, failure: error::ErrorView)
    requires
        work_clear(u),
    ensures
        stays_clear(u.failed(failure)),
        stays_clear(u.cancelled()),
        stays_clear(u.completed()),
{
    sorted_says_nothing_below(u.outcome);
    assert(outcome::cancelled(u.outcome).issues == outcome::sorted(u.outcome).issues);
    let failed = u.failed(failure);
    assert(failed.files == u.files && failed.directories == u.directories);
    assert(failed.pending == u.pending && failed.settled == u.settled);
    let cancelled = u.cancelled();
    ordered_work_is_clear(u, cancelled);
    let completed = u.completed();
    ordered_work_is_clear(u, completed);
}

proof fn ordered_work_is_clear(u: ScopedView, v: ScopedView)
    requires
        work_clear(u),
        says_nothing_below(v.outcome),
        forall|path: Seq<char>| #[trigger]
            clear(v.outcome.issues, path) <==> clear(u.outcome.issues, path),
        v.pending == u.pending,
        v.settled == u.settled,
        v.current == u.current,
        v.files == u.files,
        v.directories == u.directories,
    ensures
        work_clear(v),
{
    assert forall|i: int| 0 <= i < v.directories.len() implies directory_clear(
        v.outcome.issues,
        #[trigger] v.directories[i],
    ) by {
        assert(directory_clear(u.outcome.issues, u.directories[i]));
    }
    assert forall|i: int| 0 <= i < v.files.len() implies clear(
        v.outcome.issues,
        #[trigger] v.files[i],
    ) by {
        assert(clear(u.outcome.issues, u.files[i]));
    }
    assert forall|i: int| 0 <= i < v.pending.len() implies clear(
        v.outcome.issues,
        (#[trigger] v.pending[i]).path,
    ) by {
        assert(clear(u.outcome.issues, u.pending[i].path));
    }
    assert forall|i: int| 0 <= i < v.settled.len() implies clear(
        v.outcome.issues,
        (#[trigger] v.settled[i]).path,
    ) by {
        assert(clear(u.outcome.issues, u.settled[i].path));
    }
}

proof fn file_stays_clear(u: ScopedView, verdict: VerdictView)
    requires
        stays_clear(u),
        u.stage == SyncStage::File,
        accounting::answers_its_file(u, SyncReply::File(verdict)),
    ensures
        stays_clear(scoped::sync_step(u, SyncReply::File(verdict))),
{
    let here = u.files[u.at as int];
    assert(clear(u.outcome.issues, here));
    match verdict {
        VerdictView::Unchanged => {
            more_says_nothing_below(
                u.outcome,
                here,
                SyncEventKind::Unchanged,
                IssueView::FileConflict { path: here, state: arbitrary() },
            );
            let next = ScopedView {
                outcome: u.outcome.with_event(here, SyncEventKind::Unchanged),
                ..u
            };
            ordered_work_is_clear(u, next);
            files_stay_clear(next, u.at + 1);
        },
        VerdictView::Conflict(state) => {
            let issue = IssueView::FileConflict { path: here, state };
            more_says_nothing_below(u.outcome, here, SyncEventKind::Unchanged, issue);
            let next = ScopedView { outcome: u.outcome.with_issue(issue), ..u };
            ordered_work_is_clear(u, next);
            files_stay_clear(next, u.at + 1);
        },
        VerdictView::Transfer(transfer) => {
            let next = ScopedView { pending: u.pending.push(transfer), ..u };
            assert forall|i: int| 0 <= i < next.pending.len() implies clear(
                u.outcome.issues,
                (#[trigger] next.pending[i]).path,
            ) by {
                if i < u.pending.len() {
                    assert(next.pending[i] == u.pending[i]);
                }
            }
            assert(next.files == u.files && next.directories == u.directories);
            files_stay_clear(next, u.at + 1);
        },
        VerdictView::Failed(e) => {
            ending_stays_clear(u, e);
        },
        VerdictView::Cancelled => {
            ending_stays_clear(u, arbitrary());
        },
    }
}

/// One more event about a path that is clear leaves a synchronisation clear.
proof fn event_stays_clear(u: ScopedView, path: Seq<char>, kind: SyncEventKind)
    requires
        work_clear(u),
        clear(u.outcome.issues, path),
    ensures
        work_clear(ScopedView { outcome: u.outcome.with_event(path, kind), ..u }),
{
    let issue = IssueView::FileConflict { path, state: arbitrary() };
    more_says_nothing_below(u.outcome, path, kind, issue);
    ordered_work_is_clear(u, ScopedView { outcome: u.outcome.with_event(path, kind), ..u });
}

proof fn creation_stays_clear(u: ScopedView, identity: Option<IdentityView>)
    requires
        stays_clear(u),
        u.stage == SyncStage::Directory,
    ensures
        stays_clear(scoped::sync_step(u, SyncReply::Created(CreatedView::Created(identity)))),
{
    let here = u.directories[u.at as int];
    assert(directory_clear(u.outcome.issues, here));
    let kind = scoped::creation_kind(u.action);
    event_stays_clear(u, here.relative, kind);
    let told = ScopedView { outcome: u.outcome.with_event(here.relative, kind), ..u };
    let next = ScopedView {
        directories: if u.mode == ExecutionMode::DryRun {
            u.directories
        } else {
            u.directories.update(u.at as int, u.created(identity))
        },
        ..told
    };
    assert forall|i: int| 0 <= i < next.directories.len() implies directory_clear(
        next.outcome.issues,
        #[trigger] next.directories[i],
    ) by {
        assert(directory_clear(told.outcome.issues, told.directories[i]));
    }
    assert(next.files == told.files);
    assert(next.pending == told.pending && next.settled == told.settled);
    directories_stay_clear(next, u.at + 1);
}

proof fn settled_stays_clear(u: ScopedView, plan: DownloadPlanView)
    requires
        stays_clear(u),
        u.stage == SyncStage::Settle,
    ensures
        stays_clear(scoped::sync_step(u, SyncReply::Settled(SettledView::Settled(plan)))),
{
    if let Some(event) = u.current {
        let transfer = TransferView {
            path: event.path,
            kind: event.kind,
            operation: OperationView::Download(plan),
        };
        let next = ScopedView { settled: u.settled.push(transfer), ..u };
        let idle = ScopedView { current: None, ..next };
        assert forall|i: int| 0 <= i < idle.settled.len() implies clear(
            u.outcome.issues,
            (#[trigger] idle.settled[i]).path,
        ) by {
            if i < u.settled.len() {
                assert(idle.settled[i] == u.settled[i]);
            }
        }
        assert(idle.files == u.files && idle.directories == u.directories);
        assert(idle.pending == u.pending);
        settling_stays_clear(next);
    }
}

proof fn transfer_stays_clear(u: ScopedView, reply: SyncReply)
    requires
        stays_clear(u),
        u.stage == SyncStage::TransferPoll ==> u.settled.len() > 0,
        u.stage == SyncStage::TransferPoll || u.stage == SyncStage::Transfer,
    ensures
        stays_clear(scoped::sync_step(u, reply)),
{
    ending_stays_clear(u, arbitrary());
    let v = scoped::sync_step(u, reply);
    match reply {
        SyncReply::Gate(true) => {
            if u.stage == SyncStage::TransferPoll {
                let first = u.settled[0];
                assert(clear(u.outcome.issues, first.path));
                event_stays_clear(u, first.path, first.kind);
                let told = ScopedView {
                    outcome: u.outcome.with_event(first.path, first.kind),
                    ..u
                };
                assert(v.files == u.files && v.directories == u.directories);
                assert(v.pending == u.pending);
                if scoped::is_preview(first) {
                    assert(work_clear(told));
                    assert forall|i: int| 0 <= i < v.settled.len() implies clear(
                        v.outcome.issues,
                        (#[trigger] v.settled[i]).path,
                    ) by {
                        assert(v.settled[i] == told.settled[i + 1]);
                    }
                    assert(v.files == told.files && v.directories == told.directories);
                    assert(v.outcome == told.outcome);
                } else {
                    assert(v.settled == u.settled);
                }
            }
        },
        SyncReply::Transferred(Ok(CommitDecision::Committed)) => {
            if let Some(event) = u.current {
                if u.stage == SyncStage::Transfer {
                    event_stays_clear(u, event.path, event.kind);
                    let told = ScopedView {
                        outcome: u.outcome.with_event(event.path, event.kind),
                        ..u
                    };
                    assert(v.files == told.files && v.directories == told.directories);
                    assert(v.pending == told.pending && v.settled == told.settled);
                    assert(v.outcome == told.outcome);
                }
            }
        },
        SyncReply::Transferred(Err(e)) => {
            ending_stays_clear(u, e);
        },
        _ => {},
    }
}

/// Whatever comes back, a synchronisation stays clear of its type conflicts.
pub proof fn sync_stays_clear(u: ScopedView, reply: SyncReply)
    requires
        u.stage == SyncStage::TransferPoll ==> u.settled.len() > 0,
        stays_clear(u),
        is_sound(u, reply),
    ensures
        stays_clear(scoped::sync_step(u, reply)),
{
    let v = scoped::sync_step(u, reply);
    ending_stays_clear(u, arbitrary());
    match (u.stage, reply) {
        (SyncStage::Inventory, SyncReply::Inventory(Ok((entries, ancestors)))) => {
            inventory_stays_clear(u, entries, ancestors);
        },
        (SyncStage::Inventory, SyncReply::Inventory(Err(e))) => {
            ending_stays_clear(u, e);
        },
        (SyncStage::Capture, SyncReply::Captured(Err(e))) => {
            ending_stays_clear(u, e);
        },
        (SyncStage::Capture, SyncReply::Captured(Ok(captured))) => {
            let next = ScopedView { directories: captured, ..u };
            assert forall|i: int| 0 <= i < next.directories.len() implies directory_clear(
                u.outcome.issues,
                #[trigger] next.directories[i],
            ) by {
                assert(directories::planned(u.entries, captured[i].relative));
            }
            assert(next.files == u.files);
            assert(next.pending == u.pending && next.settled == u.settled);
            files_stay_clear(next, 0);
        },
        (SyncStage::File, SyncReply::File(verdict)) => {
            file_stays_clear(u, verdict);
        },
        (SyncStage::Directory, SyncReply::Created(CreatedView::Created(identity))) => {
            creation_stays_clear(u, identity);
        },
        (SyncStage::Directory, SyncReply::Created(CreatedView::Failed(e))) => {
            ending_stays_clear(u, e);
        },
        (SyncStage::Settle, SyncReply::Settled(SettledView::Settled(plan))) => {
            settled_stays_clear(u, plan);
        },
        (SyncStage::Settle, SyncReply::Settled(SettledView::Failed(e))) => {
            ending_stays_clear(u, e);
        },
        (SyncStage::TransferPoll, _) => {
            transfer_stays_clear(u, reply);
        },
        (SyncStage::Transfer, _) => {
            transfer_stays_clear(u, reply);
        },
        (SyncStage::Validate, SyncReply::Validated(Err(e))) => {
            ending_stays_clear(u, e);
        },
        (SyncStage::ValidateEnd, _) => {},
        _ => {
            assert(v.files == u.files && v.directories == u.directories);
            assert(v.pending == u.pending && v.settled == u.settled);
        },
    }
}

/// A transfer that stands aside leaves a synchronisation clear.
proof fn standing_aside_stays_clear(u: ScopedView)
    requires
        stays_clear(u),
        history::may_stand_aside(u),
    ensures
        stays_clear(scoped::stood_aside(u)),
{
    let v = scoped::stood_aside(u);
    assert forall|i: int| 0 <= i < v.pending.len() implies clear(
        v.outcome.issues,
        (#[trigger] v.pending[i]).path,
    ) by {
        if u.stage == SyncStage::Settle {
            assert(v.pending[i] == u.pending[i + 1]);
        } else {
            assert(v.pending[i] == u.pending[i]);
        }
    }
    assert forall|i: int| 0 <= i < v.settled.len() implies clear(
        v.outcome.issues,
        (#[trigger] v.settled[i]).path,
    ) by {
        if u.stage == SyncStage::Settle {
            assert(v.settled[i] == u.settled[i]);
        } else {
            assert(v.settled[i] == u.settled[i + 1]);
        }
    }
    if u.stage == SyncStage::Settle {
        assert(clear(u.outcome.issues, u.pending[0].path));
    } else {
        assert(clear(u.outcome.issues, u.settled[0].path));
    }
    assert(v.files == u.files && v.directories == u.directories);
}

proof fn run_stays_clear(start: ScopedView, moves: Seq<SyncMove>)
    requires
        history::follows(start, history::no_history()),
        stays_clear(start),
        all_sound(start, moves),
    ensures
        stays_clear(history::run(start, moves).0),
    decreases moves.len(),
{
    if moves.len() > 0 {
        run_stays_clear(start, moves.drop_last());
        history::run_follows(start, moves.drop_last());
        let (u, h) = history::run(start, moves.drop_last());
        match moves.last() {
            SyncMove::Answer(reply) => {
                sync_stays_clear(u, reply);
            },
            SyncMove::StandAside => {
                if history::may_stand_aside(u) {
                    standing_aside_stays_clear(u);
                }
            },
        }
    }
}

/// At every point of a synchronisation, and so when it has ended, been cancelled or
/// failed, nothing is reported of what lies at or below a type conflict that it
/// reports: no event and no conflict over a file is about such a path.
pub proof fn nothing_is_reported_below_a_type_conflict(
    scope: ScopeView,
    local_root: Seq<char>,
    remote_root: Seq<char>,
    force: bool,
    mode: ExecutionMode,
    moves: Seq<SyncMove>,
)
    requires
        all_sound(scoped::scoped_start(scope, local_root, remote_root, force, mode), moves),
    ensures
        ({
            let start = scoped::scoped_start(scope, local_root, remote_root, force, mode);
            let said = history::run(start, moves).0.outcome;
            &&& forall|i: int, j: int|
                0 <= i < said.events.len() && 0 <= j < said.issues.len() ==> ((
                #[trigger] said.issues[j]) matches IssueView::TypeConflict { path: at, .. } ==> {
                    &&& (#[trigger] said.events[i]).path != at
                    &&& !paths::below(said.events[i].path, at)
                })
            &&& forall|i: int, j: int|
                0 <= i < said.issues.len() && 0 <= j < said.issues.len() ==> ((
                #[trigger] said.issues[j]) matches IssueView::TypeConflict { path: at, .. } ==> (
                (#[trigger] said.issues[i]) matches IssueView::FileConflict { path, .. } ==> {
                    &&& path != at
                    &&& !paths::below(path, at)
                }))
        }),
{
    let start = scoped::scoped_start(scope, local_root, remote_root, force, mode);
    run_stays_clear(start, moves);
    let said = history::run(start, moves).0.outcome;
    assert forall|i: int, j: int|
        0 <= i < said.events.len() && 0 <= j < said.issues.len() implies ((
    #[trigger] said.issues[j]) matches IssueView::TypeConflict { path: at, .. } ==> {
        &&& (#[trigger] said.events[i]).path != at
        &&& !paths::below(said.events[i].path, at)
    }) by {
        assert(clear(said.issues, said.events[i].path));
        if let IssueView::TypeConflict { path: at, .. } = said.issues[j] {
            assert(conflicts(said.issues, at));
        }
    }
    assert forall|i: int, j: int|
        0 <= i < said.issues.len() && 0 <= j < said.issues.len() implies ((
    #[trigger] said.issues[j]) matches IssueView::TypeConflict { path: at, .. } ==> ((
    #[trigger] said.issues[i]) matches IssueView::FileConflict { path, .. } ==> {
        &&& path != at
        &&& !paths::below(path, at)
    })) by {
        if let IssueView::TypeConflict { path: at, .. } = said.issues[j] {
            assert(conflicts(said.issues, at));
            if let IssueView::FileConflict { path, .. } = said.issues[i] {
                assert(clear(said.issues, path));
            }
        }
    }
}

/// A capture of the directories that a synchronisation rests on, once it is done
/// without a failure, gives those directories, the root being one on both sides.
pub proof fn capture_captures_planned(u: CaptureView, entries: Entries)
    requires
        capture::in_turn(u),
        u.phase == CapturePhase::Done,
        u.failure is None,
        forall|d: Seq<char>| #[trigger] u.paths.contains(d) <==> directories::planned(entries, d),
    ensures
        captures_planned(entries, u.snapshots),
{
    assert forall|i: int| 0 <= i < u.snapshots.len() implies {
        &&& directories::planned(entries, (#[trigger] u.snapshots[i]).relative)
        &&& u.snapshots[i].relative.len() == 0 ==> u.snapshots[i].local is Root
            && u.snapshots[i].remote == ExpectedRemoteDirectory::Root
    } by {
        assert(u.snapshots[i].relative == u.paths[i]);
        assert(u.paths.contains(u.paths[i]));
    }
}

} // verus!
