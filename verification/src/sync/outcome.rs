//! Outcomes in order, what they print and how they end the process.

use crate::error::Error;
use crate::error;
use crate::order;
use crate::scope::ExecutionMode;
use crate::sync::plan::{
    EventView, IssueView, OutcomeView, SyncEvent, SyncEventKind, SyncIssue, SyncOutcome,
};
use crate::text;
use vstd::prelude::*;

verus! {

broadcast use vstd::seq::group_seq_axioms;

/// `s` with `x` placed behind everything that does not come after it.
pub open spec fn placed<T>(s: Seq<T>, x: T, key: spec_fn(T) -> Seq<char>) -> Seq<T>
    decreases s.len(),
{
    if s.len() > 0 && order::before(key(x), key(s.last())) {
        placed(s.drop_last(), x, key).push(s.last())
    } else {
        s.push(x)
    }
}

/// `s` in the order of its keys, what has equal keys staying as it stood.
pub open spec fn in_order<T>(s: Seq<T>, key: spec_fn(T) -> Seq<char>) -> Seq<T>
    decreases s.len(),
{
    if s.len() == 0 {
        s
    } else {
        placed(in_order(s.drop_last(), key), s.last(), key)
    }
}

/// Whether no element comes after a later one.
pub open spec fn is_ordered<T>(s: Seq<T>, key: spec_fn(T) -> Seq<char>) -> bool {
    forall|i: int, j: int|
        0 <= i < j < s.len() ==> !order::before(key(#[trigger] s[j]), key(#[trigger] s[i]))
}

proof fn placed_is_ordered<T>(s: Seq<T>, x: T, key: spec_fn(T) -> Seq<char>)
    requires
        is_ordered(s, key),
    ensures
        is_ordered(placed(s, x, key), key),
        placed(s, x, key).to_multiset() == s.to_multiset().insert(x),
        placed(s, x, key).len() == s.len() + 1,
        forall|i: int|
            0 <= i < placed(s, x, key).len() ==> #[trigger] placed(s, x, key)[i] == x || s.contains(
                placed(s, x, key)[i],
            ),
    decreases s.len(),
{
    broadcast use vstd::seq_lib::group_to_multiset_ensures;

    let all = placed(s, x, key);
    if s.len() > 0 && order::before(key(x), key(s.last())) {
        let rest = s.drop_last();
        assert forall|i: int, j: int| 0 <= i < j < rest.len() implies !order::before(
            key(#[trigger] rest[j]),
            key(#[trigger] rest[i]),
        ) by {
            assert(rest[i] == s[i] && rest[j] == s[j]);
        }
        placed_is_ordered(rest, x, key);
        let before = placed(rest, x, key);
        assert forall|i: int, j: int| 0 <= i < j < all.len() implies !order::before(
            key(#[trigger] all[j]),
            key(#[trigger] all[i]),
        ) by {
            if j < before.len() {
                assert(all[i] == before[i] && all[j] == before[j]);
            } else {
                assert(all[j] == s.last());
                assert(all[i] == before[i]);
                if before[i] == x {
                    if order::before(key(s.last()), key(x)) {
                        order::before_transitive(key(x), key(s.last()), key(x));
                        order::before_irreflexive(key(x));
                    }
                } else {
                    let k = choose|k: int| 0 <= k < rest.len() && rest[k] == before[i];
                    assert(s[k] == before[i]);
                    assert(s[s.len() - 1] == s.last());
                }
            }
        }
        assert(s =~= rest.push(s.last()));
        assert forall|i: int| 0 <= i < all.len() implies #[trigger] all[i] == x || s.contains(
            all[i],
        ) by {
            if i < before.len() {
                assert(all[i] == before[i]);
                if before[i] != x {
                    let k = choose|k: int| 0 <= k < rest.len() && rest[k] == before[i];
                    assert(s[k] == before[i]);
                }
            } else {
                assert(s[s.len() - 1] == all[i]);
            }
        }
    } else {
        assert forall|i: int, j: int| 0 <= i < j < all.len() implies !order::before(
            key(#[trigger] all[j]),
            key(#[trigger] all[i]),
        ) by {
            if j < s.len() {
                assert(all[i] == s[i] && all[j] == s[j]);
            } else {
                assert(all[j] == x);
                assert(all[i] == s[i]);
                if order::before(key(x), key(s[i])) {
                    assert(s[s.len() - 1] == s.last());
                    if i < s.len() - 1 {
                        order::before_total(key(s[i]), key(s.last()));
                        if key(s[i]) != key(s.last()) {
                            order::before_transitive(key(x), key(s[i]), key(s.last()));
                        }
                    }
                }
            }
        }
        assert forall|i: int| 0 <= i < all.len() implies #[trigger] all[i] == x || s.contains(
            all[i],
        ) by {
            if i < s.len() {
                assert(s[i] == all[i]);
            }
        }
    }
}

/// Putting a sequence in order keeps what it holds and orders it.
pub proof fn in_order_sorts<T>(s: Seq<T>, key: spec_fn(T) -> Seq<char>)
    ensures
        is_ordered(in_order(s, key), key),
        in_order(s, key).to_multiset() == s.to_multiset(),
        in_order(s, key).len() == s.len(),
    decreases s.len(),
{
    broadcast use vstd::seq_lib::group_to_multiset_ensures;

    if s.len() > 0 {
        in_order_sorts(s.drop_last(), key);
        placed_is_ordered(in_order(s.drop_last(), key), s.last(), key);
        assert(s =~= s.drop_last().push(s.last()));
    }
}

/// The key of an event.
pub open spec fn event_key() -> spec_fn(EventView) -> Seq<char> {
    |event: EventView| event.path
}

/// The key of an issue.
pub open spec fn issue_key() -> spec_fn(IssueView) -> Seq<char> {
    |issue: IssueView| issue.path()
}

/// Places an event behind all that do not come after it.
fn place_event(events: &mut Vec<SyncEvent>, event: SyncEvent)
    ensures
        text::views(final(events)@) == placed(text::views(old(events)@), event@, event_key()),
{
    let ghost start = text::views(events@);
    let ghost x = event@;
    let mut at: usize = events.len();
    let ghost mut tail = Seq::<EventView>::empty();
    assert(start.take(at as int) =~= start);
    assert(placed(start, x, event_key()) =~= placed(start.take(at as int), x, event_key()) + tail);
    while at > 0 && order::precedes(&event.path, &events[at - 1].path)
        invariant
            at <= events@.len(),
            start == text::views(events@),
            x == event@,
            tail == start.skip(at as int),
            placed(start, x, event_key()) == placed(start.take(at as int), x, event_key()) + tail,
        decreases at,
    {
        proof {
            let part = start.take(at as int);
            assert(part.drop_last() =~= start.take(at - 1));
            assert(part.last() == events@[at - 1]@);
            tail = seq![part.last()] + tail;
            assert(placed(start, x, event_key()) =~= placed(start.take(at - 1), x, event_key())
                + tail);
            assert(tail =~= start.skip(at - 1));
        }
        at -= 1;
    }
    proof {
        let part = start.take(at as int);
        if at > 0 {
            assert(part.last() == events@[at - 1]@);
        }
        assert(placed(part, x, event_key()) == part.push(x));
    }
    events.insert(at, event);
    assert(text::views(events@) =~= start.take(at as int).push(x) + tail);
}

/// Places an issue behind all that do not come after it.
fn place_issue(issues: &mut Vec<SyncIssue>, issue: SyncIssue)
    ensures
        text::views(final(issues)@) == placed(text::views(old(issues)@), issue@, issue_key()),
{
    let ghost start = text::views(issues@);
    let ghost x = issue@;
    let mut at: usize = issues.len();
    let ghost mut tail = Seq::<IssueView>::empty();
    assert(start.take(at as int) =~= start);
    assert(placed(start, x, issue_key()) =~= placed(start.take(at as int), x, issue_key()) + tail);
    while at > 0 && order::precedes(issue.path(), issues[at - 1].path())
        invariant
            at <= issues@.len(),
            start == text::views(issues@),
            x == issue@,
            tail == start.skip(at as int),
            placed(start, x, issue_key()) == placed(start.take(at as int), x, issue_key()) + tail,
        decreases at,
    {
        proof {
            let part = start.take(at as int);
            assert(part.drop_last() =~= start.take(at - 1));
            assert(part.last() == issues@[at - 1]@);
            tail = seq![part.last()] + tail;
            assert(placed(start, x, issue_key()) =~= placed(start.take(at - 1), x, issue_key())
                + tail);
            assert(tail =~= start.skip(at - 1));
        }
        at -= 1;
    }
    proof {
        let part = start.take(at as int);
        if at > 0 {
            assert(part.last() == issues@[at - 1]@);
        }
        assert(placed(part, x, issue_key()) == part.push(x));
    }
    issues.insert(at, issue);
    assert(text::views(issues@) =~= start.take(at as int).push(x) + tail);
}

/// An outcome whose events and issues are in the order of their paths.
pub open spec fn sorted(outcome: OutcomeView) -> OutcomeView {
    OutcomeView {
        events: in_order(outcome.events, event_key()),
        issues: in_order(outcome.issues, issue_key()),
        cancelled: outcome.cancelled,
    }
}

/// Puts the events and the issues of an outcome in the order of their paths.
pub fn sort_outcome(outcome: SyncOutcome) -> (out: SyncOutcome)
    ensures
        out@ == sorted(outcome@),
{
    let ghost all_events = text::views(outcome.events@);
    let ghost all_issues = text::views(outcome.issues@);
    let mut rest = outcome.events;
    let mut reversed: Vec<SyncEvent> = Vec::new();
    while rest.len() > 0
        invariant
            text::views(rest@) + text::views(reversed@).reverse() == all_events,
        decreases rest.len(),
    {
        let ghost r = text::views(rest@);
        let ghost v = text::views(reversed@);
        match rest.pop() {
            Some(event) => {
                reversed.push(event);
                assert(text::views(rest@) =~= r.drop_last());
                assert(text::views(reversed@) =~= v.push(r.last()));
                assert(r.drop_last() + v.push(r.last()).reverse() =~= r + v.reverse());
            },
            None => {},
        }
    }
    let mut events: Vec<SyncEvent> = Vec::new();
    assert(text::views(reversed@).reverse() =~= all_events);
    assert(text::views(events@) =~= in_order(all_events.take(0), event_key()));
    while reversed.len() > 0
        invariant
            reversed@.len() <= all_events.len(),
            text::views(reversed@).reverse() == all_events.skip(
                all_events.len() - reversed@.len(),
            ),
            text::views(events@) == in_order(
                all_events.take(all_events.len() - reversed@.len()),
                event_key(),
            ),
        decreases reversed.len(),
    {
        let ghost v = text::views(reversed@);
        let ghost n = all_events.len() - v.len();
        match reversed.pop() {
            Some(event) => {
                proof {
                    assert(v.reverse()[0] == v.last());
                    assert(all_events.skip(n)[0] == all_events[n]);
                    assert(event@ == all_events[n]);
                    assert(all_events.take(n + 1).drop_last() =~= all_events.take(n));
                    assert(text::views(reversed@) =~= v.drop_last());
                    assert(v.drop_last().reverse() =~= v.reverse().skip(1));
                    assert(all_events.skip(n).skip(1) =~= all_events.skip(n + 1));
                }
                place_event(&mut events, event);
            },
            None => {},
        }
    }
    assert(all_events.take(all_events.len() as int) =~= all_events);
    let issues = order_issues(outcome.issues);
    SyncOutcome { events, issues, cancelled: outcome.cancelled }
}

/// The issues in the order of their paths.
fn order_issues(issues: Vec<SyncIssue>) -> (out: Vec<SyncIssue>)
    ensures
        text::views(out@) == in_order(text::views(issues@), issue_key()),
{
    let ghost all = text::views(issues@);
    let mut rest = issues;
    let mut reversed: Vec<SyncIssue> = Vec::new();
    while rest.len() > 0
        invariant
            text::views(rest@) + text::views(reversed@).reverse() == all,
        decreases rest.len(),
    {
        let ghost r = text::views(rest@);
        let ghost v = text::views(reversed@);
        match rest.pop() {
            Some(issue) => {
                reversed.push(issue);
                assert(text::views(rest@) =~= r.drop_last());
                assert(text::views(reversed@) =~= v.push(r.last()));
                assert(r.drop_last() + v.push(r.last()).reverse() =~= r + v.reverse());
            },
            None => {},
        }
    }
    let mut out: Vec<SyncIssue> = Vec::new();
    assert(text::views(reversed@).reverse() =~= all);
    assert(text::views(out@) =~= in_order(all.take(0), issue_key()));
    while reversed.len() > 0
        invariant
            reversed@.len() <= all.len(),
            text::views(reversed@).reverse() == all.skip(all.len() - reversed@.len()),
            text::views(out@) == in_order(all.take(all.len() - reversed@.len()), issue_key()),
        decreases reversed.len(),
    {
        let ghost v = text::views(reversed@);
        let ghost n = all.len() - v.len();
        match reversed.pop() {
            Some(issue) => {
                proof {
                    assert(v.reverse()[0] == v.last());
                    assert(all.skip(n)[0] == all[n]);
                    assert(issue@ == all[n]);
                    assert(all.take(n + 1).drop_last() =~= all.take(n));
                    assert(text::views(reversed@) =~= v.drop_last());
                    assert(v.drop_last().reverse() =~= v.reverse().skip(1));
                    assert(all.skip(n).skip(1) =~= all.skip(n + 1));
                }
                place_issue(&mut out, issue);
            },
            None => {},
        }
    }
    assert(all.take(all.len() as int) =~= all);
    out
}

/// An outcome that the selection outlived.
pub open spec fn cancelled(outcome: OutcomeView) -> OutcomeView {
    sorted(OutcomeView { events: outcome.events, issues: outcome.issues, cancelled: true })
}

/// An outcome that the selection outlived, in order.
pub fn cancelled_sync_outcome(outcome: SyncOutcome) -> (out: SyncOutcome)
    ensures
        out@ == cancelled(outcome@),
{
    sort_outcome(SyncOutcome { events: outcome.events, issues: outcome.issues, cancelled: true })
}

/// The first type conflict among some issues.
pub open spec fn first_type_conflict(issues: Seq<IssueView>) -> Option<IssueView>
    decreases issues.len(),
{
    if issues.len() == 0 {
        None
    } else if issues[0] is TypeConflict {
        Some(issues[0])
    } else {
        first_type_conflict(issues.skip(1))
    }
}

/// Whether some issue is a conflict between two versions of a file.
pub open spec fn has_file_conflict(issues: Seq<IssueView>) -> bool {
    exists|i: int| 0 <= i < issues.len() && #[trigger] issues[i] is FileConflict
}

/// The failure that an outcome ends in: a type conflict before a cancellation,
/// and that before a conflict between two versions of a file, which alone has
/// an exit status of its own.
pub open spec fn failure_of(outcome: OutcomeView) -> Option<error::ErrorView> {
    match first_type_conflict(outcome.issues) {
        Some(IssueView::TypeConflict { path, local, remote }) => Some(
            error::failure(
                "sync aborted: type conflict at "@ + path + " ("@ + local.name() + " locally, "@
                    + remote.name() + " remotely)"@,
            ),
        ),
        _ => if outcome.cancelled {
            Some(error::failure("sync cancelled because the selected scope changed; retry"@))
        } else if has_file_conflict(outcome.issues) {
            Some(
                error::conflict(
                    "sync aborted: one or more files diverged on both sides (use --force to take local)"@,
                ),
            )
        } else {
            None
        },
    }
}

/// The failure that an outcome ends in.
pub fn outcome_error(outcome: &SyncOutcome) -> (out: Option<Error>)
    ensures
        match (out, failure_of(outcome@)) {
            (Some(e), Some(want)) => e@ == want,
            (None, None) => true,
            _ => false,
        },
{
    let ghost all = text::views(outcome.issues@);
    let mut i: usize = 0;
    let mut file_conflict = false;
    assert(all.skip(0) =~= all);
    while i < outcome.issues.len()
        invariant
            i <= outcome.issues@.len(),
            all == text::views(outcome.issues@),
            first_type_conflict(all.skip(i as int)) == first_type_conflict(all),
            file_conflict == exists|k: int| 0 <= k < i && #[trigger] all[k] is FileConflict,
        decreases outcome.issues.len() - i,
    {
        assert(all.skip(i as int)[0] == outcome.issues@[i as int]@);
        assert(all.skip(i as int).skip(1) =~= all.skip(i + 1));
        assert(all[i as int] == outcome.issues@[i as int]@);
        match &outcome.issues[i] {
            SyncIssue::TypeConflict { path, local, remote } => {
                let place = text::cat4(
                    "sync aborted: type conflict at ",
                    path,
                    " (",
                    local.label(),
                );
                return Some(
                    Error::failure(
                        text::cat4(&place, " locally, ", remote.label(), " remotely)"),
                    ),
                );
            },
            SyncIssue::FileConflict { .. } => {
                file_conflict = true;
            },
        }
        i += 1;
    }
    if outcome.cancelled {
        Some(
            Error::failure("sync cancelled because the selected scope changed; retry".to_owned()),
        )
    } else if file_conflict {
        Some(
            Error::conflict(
                "sync aborted: one or more files diverged on both sides (use --force to take local)".to_owned(),
            ),
        )
    } else {
        None
    }
}

/// A line of output.
#[derive(Debug, PartialEq, Eq)]
pub struct OutputLine {
    pub to_stderr: bool,
    pub text: String,
}

/// What a line of output says.
pub struct LineView {
    pub to_stderr: bool,
    pub text: Seq<char>,
}

impl View for OutputLine {
    type V = LineView;

    open spec fn view(&self) -> LineView {
        LineView { to_stderr: self.to_stderr, text: self.text@ }
    }
}

/// A line of regular output.
pub open spec fn said(text: Seq<char>) -> LineView {
    LineView { to_stderr: false, text }
}

/// A line of diagnostics.
pub open spec fn noted(text: Seq<char>) -> LineView {
    LineView { to_stderr: true, text }
}

/// A line of regular output.
pub fn say(text: String) -> (out: OutputLine)
    ensures
        out@ == said(text@),
{
    OutputLine { to_stderr: false, text }
}

/// A line of diagnostics.
pub fn note(text: String) -> (out: OutputLine)
    ensures
        out@ == noted(text@),
{
    OutputLine { to_stderr: true, text }
}

/// The line that an event prints, unless it is one of no change.
pub open spec fn event_line(event: EventView, mode: ExecutionMode) -> Option<LineView> {
    let dry = mode == ExecutionMode::DryRun;
    match event.kind {
        SyncEventKind::Unchanged => None,
        SyncEventKind::Uploaded => Some(
            said(
                (if dry {
                    "would upload "@
                } else {
                    "uploaded "@
                }) + event.path,
            ),
        ),
        SyncEventKind::Downloaded => Some(
            said(
                (if dry {
                    "would download "@
                } else {
                    "downloaded "@
                }) + event.path,
            ),
        ),
        SyncEventKind::CreatedLocalDirectory => Some(
            said(
                (if dry {
                    "would create local directory "@
                } else {
                    "created local directory "@
                }) + event.path,
            ),
        ),
        SyncEventKind::CreatedRemoteDirectory => Some(
            said(
                (if dry {
                    "would create remote directory "@
                } else {
                    "created remote directory "@
                }) + event.path,
            ),
        ),
        SyncEventKind::SkippedAbsent => Some(
            noted("skip (not on local or remote): "@ + event.path),
        ),
        SyncEventKind::ForcedRemoteOverwrite => Some(
            noted(
                (if dry {
                    "would overwrite remote with local (--force): "@
                } else {
                    "overwriting remote with local (--force): "@
                }) + event.path,
            ),
        ),
    }
}

/// The line that an issue prints.
pub open spec fn issue_line(issue: IssueView) -> LineView {
    match issue {
        IssueView::FileConflict { path, state } => noted(
            "conflict ("@ + state.name() + ", local and remote diverged): "@ + path
                + " — pass --force to take local"@,
        ),
        IssueView::TypeConflict { path, local, remote } => noted(
            "type conflict: "@ + path + " is "@ + local.name() + " locally and "@ + remote.name()
                + " remotely"@,
        ),
    }
}

/// The lines that some events print, in order.
pub open spec fn event_lines(events: Seq<EventView>, mode: ExecutionMode) -> Seq<LineView>
    decreases events.len(),
{
    if events.len() == 0 {
        Seq::empty()
    } else {
        match event_line(events.last(), mode) {
            Some(line) => event_lines(events.drop_last(), mode).push(line),
            None => event_lines(events.drop_last(), mode),
        }
    }
}

/// The lines that some issues print, in order.
pub open spec fn issue_lines(issues: Seq<IssueView>) -> Seq<LineView> {
    Seq::new(issues.len(), |i: int| issue_line(issues[i]))
}

/// The line that an event prints, unless it is one of no change.
fn event_line_of(event: &SyncEvent, mode: ExecutionMode) -> (out: Option<OutputLine>)
    ensures
        match (out, event_line(event@, mode)) {
            (Some(line), Some(want)) => line@ == want,
            (None, None) => true,
            _ => false,
        },
{
    let dry = mode == ExecutionMode::DryRun;
    match event.kind {
        SyncEventKind::Unchanged => None,
        SyncEventKind::Uploaded => {
            let verb = if dry {
                "would upload "
            } else {
                "uploaded "
            };
            Some(say(text::cat(verb, &event.path)))
        },
        SyncEventKind::Downloaded => {
            let verb = if dry {
                "would download "
            } else {
                "downloaded "
            };
            Some(say(text::cat(verb, &event.path)))
        },
        SyncEventKind::CreatedLocalDirectory => {
            let verb = if dry {
                "would create local directory "
            } else {
                "created local directory "
            };
            Some(say(text::cat(verb, &event.path)))
        },
        SyncEventKind::CreatedRemoteDirectory => {
            let verb = if dry {
                "would create remote directory "
            } else {
                "created remote directory "
            };
            Some(say(text::cat(verb, &event.path)))
        },
        SyncEventKind::SkippedAbsent => Some(
            note(text::cat("skip (not on local or remote): ", &event.path)),
        ),
        SyncEventKind::ForcedRemoteOverwrite => {
            let verb = if dry {
                "would overwrite remote with local (--force): "
            } else {
                "overwriting remote with local (--force): "
            };
            Some(note(text::cat(verb, &event.path)))
        },
    }
}

/// The line that an issue prints.
fn issue_line_of(issue: &SyncIssue) -> (out: OutputLine)
    ensures
        out@ == issue_line(issue@),
{
    match issue {
        SyncIssue::FileConflict { path, state } => note(
            text::cat5(
                "conflict (",
                state.label(),
                ", local and remote diverged): ",
                path,
                " — pass --force to take local",
            ),
        ),
        SyncIssue::TypeConflict { path, local, remote } => {
            let place = text::cat3("type conflict: ", path, " is ");
            let kinds = text::cat4(&place, local.label(), " locally and ", remote.label());
            note(text::cat(&kinds, " remotely"))
        },
    }
}

/// What an outcome prints, and the failure it ends in.
pub fn render_outcome(outcome: &SyncOutcome, mode: ExecutionMode) -> (out: (
    Vec<OutputLine>,
    Option<Error>,
))
    ensures
        text::views(out.0@) == event_lines(outcome@.events, mode) + issue_lines(outcome@.issues),
        match (out.1, failure_of(outcome@)) {
            (Some(e), Some(want)) => e@ == want,
            (None, None) => true,
            _ => false,
        },
{
    let ghost events = outcome@.events;
    let ghost issues = outcome@.issues;
    let mut lines: Vec<OutputLine> = Vec::new();
    let mut i: usize = 0;
    assert(text::views(lines@) =~= event_lines(events.take(0), mode));
    while i < outcome.events.len()
        invariant
            i <= outcome.events@.len(),
            events == text::views(outcome.events@),
            text::views(lines@) == event_lines(events.take(i as int), mode),
        decreases outcome.events.len() - i,
    {
        let ghost before = text::views(lines@);
        assert(events.take(i + 1).drop_last() =~= events.take(i as int));
        assert(events.take(i + 1).last() == outcome.events@[i as int]@);
        match event_line_of(&outcome.events[i], mode) {
            Some(line) => {
                let ghost shown = line@;
                lines.push(line);
                assert(text::views(lines@) =~= before.push(shown));
            },
            None => {},
        }
        i += 1;
    }
    assert(events.take(i as int) =~= events);
    let ghost printed = text::views(lines@);
    let mut j: usize = 0;
    assert(text::views(lines@) =~= printed + issue_lines(issues.take(0)));
    while j < outcome.issues.len()
        invariant
            j <= outcome.issues@.len(),
            issues == text::views(outcome.issues@),
            text::views(lines@) == printed + issue_lines(issues.take(j as int)),
        decreases outcome.issues.len() - j,
    {
        let ghost before = text::views(lines@);
        let line = issue_line_of(&outcome.issues[j]);
        let ghost shown = line@;
        lines.push(line);
        assert(text::views(lines@) =~= before.push(shown));
        assert(issue_lines(issues.take(j + 1)) =~= issue_lines(issues.take(j as int)).push(shown));
        assert(before.push(shown) =~= printed + issue_lines(issues.take(j + 1)));
        j += 1;
    }
    assert(issues.take(j as int) =~= issues);
    (lines, outcome_error(outcome))
}

/// What a conflict between two versions of a file does to the exit status: it
/// has the status of a conflict exactly where no path conflicts by type and
/// nothing was cancelled.
pub proof fn conflict_exit_is_exact(outcome: OutcomeView)
    ensures
        (failure_of(outcome) matches Some(e) && e.exit == error::Exit::Conflict) <==> {
            &&& has_file_conflict(outcome.issues)
            &&& !outcome.cancelled
            &&& forall|i: int|
                0 <= i < outcome.issues.len() ==> !(#[trigger] outcome.issues[i] is TypeConflict)
        },
        failure_of(outcome) is None <==> outcome.issues.len() == 0 && !outcome.cancelled,
{
    first_type_conflict_is_found(outcome.issues);
    if outcome.issues.len() > 0 && first_type_conflict(outcome.issues) is None {
        assert(outcome.issues[0] is FileConflict);
    }
}

proof fn first_type_conflict_is_found(issues: Seq<IssueView>)
    ensures
        first_type_conflict(issues) matches Some(issue) ==> issue is TypeConflict
            && issues.contains(issue),
        first_type_conflict(issues) is None <==> forall|i: int|
            0 <= i < issues.len() ==> !(#[trigger] issues[i] is TypeConflict),
    decreases issues.len(),
{
    if issues.len() > 0 && !(issues[0] is TypeConflict) {
        let rest = issues.skip(1);
        first_type_conflict_is_found(rest);
        if let Some(issue) = first_type_conflict(rest) {
            let k = choose|k: int| 0 <= k < rest.len() && rest[k] == issue;
            assert(issues[k + 1] == issue);
        } else {
            assert forall|i: int| 0 <= i < issues.len() implies !(
            #[trigger] issues[i] is TypeConflict) by {
                if i > 0 {
                    assert(rest[i - 1] == issues[i]);
                }
            }
        }
    }
}

/// What the interactive selection answers where it cannot ask.
pub fn require_interactive_terminal(stdin_is_terminal: bool, stdout_is_terminal: bool) -> (out:
    Result<(), Error>)
    ensures
        error::settles(
            out,
            if stdin_is_terminal && stdout_is_terminal {
                Ok(())
            } else {
                Err(
                    error::failure(
                        "ferry sync --select requires an interactive terminal; pass PATH directly"@,
                    ),
                )
            },
        ),
{
    if !stdin_is_terminal || !stdout_is_terminal {
        Err(
            Error::failure(
                "ferry sync --select requires an interactive terminal; pass PATH directly".to_owned(),
            ),
        )
    } else {
        Ok(())
    }
}

/// The elements of a sequence with a given key, in order.
pub open spec fn of_key<T>(s: Seq<T>, key: spec_fn(T) -> Seq<char>, path: Seq<char>) -> Seq<T>
    decreases s.len(),
{
    if s.len() == 0 {
        s
    } else if key(s.last()) == path {
        of_key(s.drop_last(), key, path).push(s.last())
    } else {
        of_key(s.drop_last(), key, path)
    }
}

proof fn placed_is_stable<T>(s: Seq<T>, x: T, key: spec_fn(T) -> Seq<char>, path: Seq<char>)
    ensures
        of_key(placed(s, x, key), key, path) == of_key(s.push(x), key, path),
    decreases s.len(),
{
    assert(s.push(x).drop_last() =~= s);
    if s.len() > 0 && order::before(key(x), key(s.last())) {
        let rest = s.drop_last();
        order::before_irreflexive(key(x));
        placed_is_stable(rest, x, key, path);
        let moved = placed(rest, x, key).push(s.last());
        assert(placed(s, x, key) == moved);
        assert(moved.len() > 0 && moved.last() == s.last());
        assert(rest.push(x).len() > 0 && rest.push(x).last() == x);
        assert(of_key(s, key, path) == if key(s.last()) == path {
            of_key(rest, key, path).push(s.last())
        } else {
            of_key(rest, key, path)
        });
        assert(placed(rest, x, key).push(s.last()).drop_last() =~= placed(rest, x, key));
        assert(rest.push(x).drop_last() =~= rest);
    }
}

proof fn in_order_is_stable<T>(s: Seq<T>, key: spec_fn(T) -> Seq<char>, path: Seq<char>)
    ensures
        of_key(in_order(s, key), key, path) == of_key(s, key, path),
    decreases s.len(),
{
    if s.len() > 0 {
        let before = in_order(s.drop_last(), key);
        in_order_is_stable(s.drop_last(), key, path);
        placed_is_stable(before, s.last(), key, path);
        assert(before.push(s.last()).drop_last() =~= before);
    }
}

proof fn ordered_stays<T>(s: Seq<T>, key: spec_fn(T) -> Seq<char>)
    requires
        is_ordered(s, key),
    ensures
        in_order(s, key) == s,
    decreases s.len(),
{
    if s.len() > 0 {
        let rest = s.drop_last();
        assert forall|i: int, j: int| 0 <= i < j < rest.len() implies !order::before(
            key(#[trigger] rest[j]),
            key(#[trigger] rest[i]),
        ) by {
            assert(rest[i] == s[i] && rest[j] == s[j]);
        }
        ordered_stays(rest, key);
        if rest.len() > 0 {
            assert(rest.last() == s[s.len() - 2]);
            assert(s.last() == s[s.len() - 1]);
        }
        assert(rest.push(s.last()) =~= s);
    }
}

/// Sorting an outcome keeps the events of a path in the order in which they came, and
/// its issues too.
pub proof fn sorting_is_stable(outcome: OutcomeView, path: Seq<char>)
    ensures
        of_key(sorted(outcome).events, event_key(), path) == of_key(
            outcome.events,
            event_key(),
            path,
        ),
        of_key(sorted(outcome).issues, issue_key(), path) == of_key(
            outcome.issues,
            issue_key(),
            path,
        ),
{
    in_order_is_stable(outcome.events, event_key(), path);
    in_order_is_stable(outcome.issues, issue_key(), path);
}

/// Sorting an outcome a second time changes nothing.
pub proof fn sorting_twice_changes_nothing(outcome: OutcomeView)
    ensures
        sorted(sorted(outcome)) == sorted(outcome),
{
    in_order_sorts(outcome.events, event_key());
    in_order_sorts(outcome.issues, issue_key());
    ordered_stays(sorted(outcome).events, event_key());
    ordered_stays(sorted(outcome).issues, issue_key());
}

/// The line of an event ends in its path. One of no change has none; what was skipped
/// or forced goes to the diagnostics, anything else to the output. A line that tells of
/// a change starts with `would` exactly in a run that changes nothing, and no two kinds
/// of event are told alike.
pub proof fn event_line_tells_its_event(event: EventView, other: SyncEventKind, mode: ExecutionMode)
    ensures
        event_line(event, mode) is None <==> event.kind == SyncEventKind::Unchanged,
        event_line(event, mode) matches Some(line) ==> {
            &&& line.text.len() >= event.path.len()
            &&& line.text.skip(line.text.len() - event.path.len()) == event.path
            &&& line.to_stderr <==> event.kind == SyncEventKind::SkippedAbsent || event.kind
                == SyncEventKind::ForcedRemoteOverwrite
            &&& "would "@.is_prefix_of(line.text) <==> mode == ExecutionMode::DryRun && event.kind
                != SyncEventKind::SkippedAbsent
            &&& other != event.kind ==> event_line(EventView { kind: other, ..event }, mode) != Some(
                line,
            )
        },
{
    reveal_strlit("would ");
    reveal_strlit("would upload ");
    reveal_strlit("uploaded ");
    reveal_strlit("would download ");
    reveal_strlit("downloaded ");
    reveal_strlit("would create local directory ");
    reveal_strlit("created local directory ");
    reveal_strlit("would create remote directory ");
    reveal_strlit("created remote directory ");
    reveal_strlit("skip (not on local or remote): ");
    reveal_strlit("would overwrite remote with local (--force): ");
    reveal_strlit("overwriting remote with local (--force): ");
    if let Some(line) = event_line(event, mode) {
        let start = line.text.len() - event.path.len();
        assert(line.text.skip(start) =~= event.path);
        if mode == ExecutionMode::DryRun && event.kind != SyncEventKind::SkippedAbsent {
            assert("would "@ =~= line.text.subrange(0, 6));
        } else if "would "@.is_prefix_of(line.text) {
            assert(line.text.subrange(0, 6)[0] == 'w');
        }
        if let Some(second) = event_line(EventView { kind: other, ..event }, mode) {
            if other != event.kind {
                assert(line.text.len() != second.text.len());
            }
        }
    }
}

/// Every event but one of no change is printed, once and in order.
pub proof fn every_event_is_printed(events: Seq<EventView>, more: Seq<EventView>, mode: ExecutionMode)
    ensures
        event_lines(events + more, mode) == event_lines(events, mode) + event_lines(more, mode),
        events.len() == 1 ==> event_lines(events, mode) == match event_line(events[0], mode) {
            Some(line) => seq![line],
            None => Seq::empty(),
        },
    decreases more.len(),
{
    if more.len() == 0 {
        assert(events + more =~= events);
        assert(event_lines(events, mode) + event_lines(more, mode) =~= event_lines(events, mode));
    } else {
        every_event_is_printed(events, more.drop_last(), mode);
        assert((events + more).drop_last() =~= events + more.drop_last());
        assert(event_lines(events + more, mode) =~= event_lines(events, mode) + event_lines(
            more,
            mode,
        ));
    }
    if events.len() == 1 {
        assert(events.drop_last() =~= Seq::<EventView>::empty());
        assert(event_lines(events.drop_last(), mode) =~= Seq::<LineView>::empty());
        assert(event_lines(events, mode) =~= match event_line(events[0], mode) {
            Some(line) => seq![line],
            None => Seq::empty(),
        });
    }
}

/// Whether a text holds another one somewhere.
pub open spec fn mentions(text: Seq<char>, part: Seq<char>) -> bool {
    exists|at: int|
        0 <= at && at + part.len() <= text.len() && #[trigger] text.subrange(at, at + part.len())
            == part
}

/// The line of an issue goes to the diagnostics and names the path; that of a type
/// conflict names what each side holds there.
pub proof fn issue_line_tells_its_issue(issue: IssueView)
    ensures
        issue_line(issue).to_stderr,
        match issue {
            IssueView::FileConflict { path, state } => {
                &&& mentions(issue_line(issue).text, path)
                &&& mentions(issue_line(issue).text, state.name())
            },
            IssueView::TypeConflict { path, local, remote } => {
                &&& ("type conflict: "@ + path).is_prefix_of(issue_line(issue).text)
                &&& mentions(issue_line(issue).text, local.name() + " locally"@)
                &&& mentions(issue_line(issue).text, remote.name() + " remotely"@)
            },
        },
{
    let said = issue_line(issue).text;
    match issue {
        IssueView::FileConflict { path, state } => {
            let start = "conflict ("@.len() as int;
            assert(said.subrange(start, start + state.name().len()) =~= state.name());
            let at = ("conflict ("@ + state.name() + ", local and remote diverged): "@).len() as int;
            assert(said.subrange(at, at + path.len()) =~= path);
        },
        IssueView::TypeConflict { path, local, remote } => {
            let head = "type conflict: "@ + path;
            assert(head =~= said.subrange(0, head.len() as int));
            reveal_strlit(" locally");
            reveal_strlit(" locally and ");
            let near = local.name() + " locally"@;
            let at = (head + " is "@).len() as int;
            assert(said.subrange(at, at + near.len()) =~= near);
            let far = remote.name() + " remotely"@;
            let to = (head + " is "@ + local.name() + " locally and "@).len() as int;
            assert(said.subrange(to, to + far.len()) =~= far);
        },
    }
}

/// A run with a type conflict fails with the first of them, named by its path and by
/// what each side holds there, whatever else it met.
pub proof fn first_type_conflict_is_named(outcome: OutcomeView, at: int)
    requires
        0 <= at < outcome.issues.len(),
        outcome.issues[at] is TypeConflict,
        forall|i: int| 0 <= i < at ==> !((#[trigger] outcome.issues[i]) is TypeConflict),
    ensures
        failure_of(outcome) matches Some(e) && outcome.issues[at] matches IssueView::TypeConflict {
            path,
            local,
            remote,
        } && {
            &&& e.exit != error::Exit::Conflict
            &&& mentions(e.message, path)
            &&& mentions(e.message, local.name() + " locally"@)
            &&& mentions(e.message, remote.name() + " remotely"@)
        },
{
    type_conflict_at(outcome.issues, at);
    if let IssueView::TypeConflict { path, local, remote } = outcome.issues[at] {
        let said = failure_of(outcome)->Some_0.message;
        reveal_strlit(" locally");
        reveal_strlit(" locally, ");
        reveal_strlit(" remotely");
        reveal_strlit(" remotely)");
        let head = "sync aborted: type conflict at "@;
        assert(said.subrange(head.len() as int, head.len() as int + path.len()) =~= path);
        let near = local.name() + " locally"@;
        let from = (head + path + " ("@).len() as int;
        assert(said.subrange(from, from + near.len()) =~= near);
        let far = remote.name() + " remotely"@;
        let to = (head + path + " ("@ + local.name() + " locally, "@).len() as int;
        assert(said.subrange(to, to + far.len()) =~= far);
    }
}

proof fn type_conflict_at(issues: Seq<IssueView>, at: int)
    requires
        0 <= at < issues.len(),
        issues[at] is TypeConflict,
        forall|i: int| 0 <= i < at ==> !((#[trigger] issues[i]) is TypeConflict),
    ensures
        first_type_conflict(issues) == Some(issues[at]),
    decreases at,
{
    if at > 0 {
        let rest = issues.skip(1);
        assert forall|i: int| 0 <= i < at - 1 implies !((#[trigger] rest[i]) is TypeConflict) by {
            assert(rest[i] == issues[i + 1]);
        }
        assert(!(issues[0] is TypeConflict));
        type_conflict_at(rest, at - 1);
    }
}

} // verus!
