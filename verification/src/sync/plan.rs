//! What an inventory means: which paths conflict by type, which files are to be
//! compared, and which remembered paths are gone.

use crate::inventory::{EntryKind, InventoryEntry};
use crate::order::PathMap;
use crate::order;
use crate::paths;
use crate::state::FileState;
use crate::text;
use vstd::prelude::*;

verus! {

broadcast use vstd::seq::group_seq_axioms;

/// What happened to a path.
#[derive(Debug, Clone, Copy, PartialEq, Eq, Structural)]
pub enum SyncEventKind {
    Unchanged,
    Uploaded,
    Downloaded,
    CreatedLocalDirectory,
    CreatedRemoteDirectory,
    SkippedAbsent,
    ForcedRemoteOverwrite,
}

/// Something that happened to a path.
#[derive(Debug, PartialEq, Eq)]
pub struct SyncEvent {
    pub path: String,
    pub kind: SyncEventKind,
}

/// What an event says.
pub struct EventView {
    pub path: Seq<char>,
    pub kind: SyncEventKind,
}

impl View for SyncEvent {
    type V = EventView;

    open spec fn view(&self) -> EventView {
        EventView { path: self.path@, kind: self.kind }
    }
}

/// Why a path was left alone.
#[derive(Debug, PartialEq, Eq)]
pub enum SyncIssue {
    FileConflict { path: String, state: FileState },
    TypeConflict { path: String, local: EntryKind, remote: EntryKind },
}

/// What an issue says.
pub enum IssueView {
    FileConflict { path: Seq<char>, state: FileState },
    TypeConflict { path: Seq<char>, local: EntryKind, remote: EntryKind },
}

impl IssueView {
    /// The path of an issue.
    pub open spec fn path(self) -> Seq<char> {
        match self {
            IssueView::FileConflict { path, .. } => path,
            IssueView::TypeConflict { path, .. } => path,
        }
    }
}

impl View for SyncIssue {
    type V = IssueView;

    open spec fn view(&self) -> IssueView {
        match self {
            SyncIssue::FileConflict { path, state } => IssueView::FileConflict {
                path: path@,
                state: *state,
            },
            SyncIssue::TypeConflict { path, local, remote } => IssueView::TypeConflict {
                path: path@,
                local: *local,
                remote: *remote,
            },
        }
    }
}

impl SyncIssue {
    /// The path of an issue.
    pub fn path(&self) -> (out: &String)
        ensures
            out@ == self@.path(),
    {
        match self {
            SyncIssue::FileConflict { path, .. } => path,
            SyncIssue::TypeConflict { path, .. } => path,
        }
    }
}

/// What came of a synchronisation.
#[derive(Debug, PartialEq, Eq)]
pub struct SyncOutcome {
    pub events: Vec<SyncEvent>,
    pub issues: Vec<SyncIssue>,
    pub cancelled: bool,
}

/// What an outcome says.
pub struct OutcomeView {
    pub events: Seq<EventView>,
    pub issues: Seq<IssueView>,
    pub cancelled: bool,
}

impl View for SyncOutcome {
    type V = OutcomeView;

    open spec fn view(&self) -> OutcomeView {
        OutcomeView {
            events: text::views(self.events@),
            issues: text::views(self.issues@),
            cancelled: self.cancelled,
        }
    }
}

/// The entries of an inventory, by path.
pub type Entries = Map<Seq<char>, InventoryEntry>;

/// Whether the two sides hold different kinds of entry at one path.
pub open spec fn conflicting(entry: InventoryEntry) -> bool {
    match (entry.local, entry.remote) {
        (Some(local), Some(remote)) => local != remote,
        _ => false,
    }
}

/// Whether a path conflicts by type.
pub open spec fn conflict_at(entries: Entries, path: Seq<char>) -> bool {
    entries.contains_key(path) && conflicting(entries[path])
}

/// Whether a path conflicts by type and no path above it does.
pub open spec fn topmost(entries: Entries, path: Seq<char>) -> bool {
    &&& conflict_at(entries, path)
    &&& forall|above: Seq<char>| #[trigger]
        conflict_at(entries, above) ==> !paths::below(path, above)
}

/// Whether a path is at or below one that conflicts by type.
pub open spec fn suppressed(entries: Entries, path: Seq<char>) -> bool {
    exists|at: Seq<char>| #[trigger] conflict_at(entries, at) && paths::at_or_below(path, at)
}

/// Those of some paths that are topmost conflicts, in order.
pub open spec fn topmost_of(entries: Entries, keys: Seq<Seq<char>>) -> Seq<Seq<char>>
    decreases keys.len(),
{
    if keys.len() == 0 {
        Seq::empty()
    } else if topmost(entries, keys.last()) {
        topmost_of(entries, keys.drop_last()).push(keys.last())
    } else {
        topmost_of(entries, keys.drop_last())
    }
}

/// The topmost conflicts among some paths are those of them that are topmost.
pub proof fn topmost_of_holds(entries: Entries, keys: Seq<Seq<char>>)
    ensures
        forall|p: Seq<char>| #[trigger]
            topmost_of(entries, keys).contains(p) <==> keys.contains(p) && topmost(entries, p),
    decreases keys.len(),
{
    if keys.len() > 0 {
        let before = keys.drop_last();
        topmost_of_holds(entries, before);
        let tops = topmost_of(entries, keys);
        let fewer = topmost_of(entries, before);
        assert forall|p: Seq<char>| #[trigger] tops.contains(p) <==> keys.contains(p) && topmost(
            entries,
            p,
        ) by {
            if keys.contains(p) {
                let k = choose|k: int| 0 <= k < keys.len() && keys[k] == p;
                if k < before.len() {
                    assert(before[k] == p);
                    assert(before.contains(p));
                }
            }
            if before.contains(p) {
                let k = choose|k: int| 0 <= k < before.len() && before[k] == p;
                assert(keys[k] == p);
            }
            assert(keys[keys.len() - 1] == keys.last());
            if topmost(entries, keys.last()) {
                assert(tops[tops.len() - 1] == keys.last());
                if fewer.contains(p) {
                    let k = choose|k: int| 0 <= k < fewer.len() && fewer[k] == p;
                    assert(tops[k] == p);
                }
                if tops.contains(p) {
                    let k = choose|k: int| 0 <= k < tops.len() && tops[k] == p;
                    if k < fewer.len() {
                        assert(fewer[k] == p);
                        assert(fewer.contains(p));
                    }
                }
            }
        }
    }
}

/// Above every conflict stands a topmost one, itself where there is no other.
proof fn topmost_above(entries: Entries, path: Seq<char>) -> (top: Seq<char>)
    requires
        conflict_at(entries, path),
    ensures
        topmost(entries, top),
        paths::at_or_below(path, top),
    decreases path.len(),
{
    if topmost(entries, path) {
        path
    } else {
        let above = choose|above: Seq<char>| #[trigger]
            conflict_at(entries, above) && paths::below(path, above);
        paths::below_is_longer(path, above);
        let top = topmost_above(entries, above);
        if above != top {
            paths::below_is_transitive(path, above, top);
        }
        top
    }
}

/// Whether a path is at or below one of the prefixes.
pub fn is_covered(path: &str, prefixes: &Vec<String>) -> (out: bool)
    ensures
        out == exists|i: int|
            0 <= i < prefixes@.len() && paths::at_or_below(path@, #[trigger] prefixes@[i]@),
{
    let mut i: usize = 0;
    while i < prefixes.len()
        invariant
            i <= prefixes@.len(),
            forall|k: int| 0 <= k < i ==> !paths::at_or_below(path@, #[trigger] prefixes@[k]@),
        decreases prefixes.len() - i,
    {
        if paths::is_at_or_below(path, &prefixes[i]) {
            return true;
        }
        i += 1;
    }
    false
}

/// Whether an entry conflicts by type.
fn is_conflicting(entry: &InventoryEntry) -> (out: bool)
    ensures
        out == conflicting(*entry),
{
    match (entry.local, entry.remote) {
        (Some(local), Some(remote)) => local != remote,
        _ => false,
    }
}

/// The topmost paths at which the two sides hold different kinds of entry.
pub fn type_conflict_prefixes(entries: &PathMap<InventoryEntry>) -> (out: Vec<String>)
    requires
        entries.wf(),
    ensures
        text::views(out@) == topmost_of(entries@, entries.keys()),
        forall|path: Seq<char>| #[trigger]
            suppressed(entries@, path) <==> exists|i: int|
                0 <= i < out@.len() && paths::at_or_below(path, #[trigger] out@[i]@),
{
    let ghost keys = entries.keys();
    let ghost map = entries@;
    proof {
        entries.facts();
    }
    let mut out: Vec<String> = Vec::new();
    let mut i: usize = 0;
    assert(text::views(out@) =~= topmost_of(map, keys.take(0)));
    while i < entries.len()
        invariant
            entries.wf(),
            keys == entries.keys(),
            map == entries@,
            i <= keys.len(),
            order::ascending(keys),
            forall|k: Seq<char>| #[trigger] map.contains_key(k) <==> keys.contains(k),
            forall|j: int|
                0 <= j < keys.len() ==> map.contains_key(#[trigger] keys[j]) && map[keys[j]]
                    == entries.items()[j],
            keys.len() == entries.items().len(),
            text::views(out@) == topmost_of(map, keys.take(i as int)),
        decreases keys.len() - i,
    {
        let ghost before = text::views(out@);
        let path = entries.key(i);
        let conflict = is_conflicting(entries.item(i));
        let covered = is_covered(path, &out);
        proof {
            let here = keys[i as int];
            let earlier = keys.take(i as int);
            assert(keys.take(i + 1).drop_last() =~= earlier);
            assert(keys.take(i + 1).last() == here);
            assert(conflict == conflict_at(map, here));
            topmost_of_holds(map, earlier);
            if conflict && !covered {
                assert forall|above: Seq<char>| #[trigger] conflict_at(
                    map,
                    above,
                ) implies !paths::below(here, above) by {
                    if paths::below(here, above) {
                        let top = topmost_above(map, above);
                        if above != top {
                            paths::below_is_transitive(here, above, top);
                        }
                        paths::below_comes_after(here, top);
                        let k = choose|k: int| 0 <= k < keys.len() && keys[k] == top;
                        if k > i {
                            order::before_transitive(here, top, here);
                        }
                        if k >= i {
                            order::before_irreflexive(here);
                        }
                        assert(earlier[k] == top);
                        assert(earlier.contains(top));
                        assert(before.contains(top));
                        let m = choose|m: int| 0 <= m < before.len() && before[m] == top;
                        assert(out@[m]@ == top);
                    }
                }
                assert(topmost(map, here));
            }
            if covered {
                let m = choose|m: int|
                    0 <= m < out@.len() && paths::at_or_below(here, #[trigger] out@[m]@);
                assert(before[m] == out@[m]@);
                assert(before.contains(before[m]));
                assert(earlier.contains(before[m]));
                let k = choose|k: int| 0 <= k < earlier.len() && earlier[k] == before[m];
                if here == before[m] {
                    order::ascending_distinct(keys, k, i as int);
                }
                assert(!topmost(map, here));
            }
        }
        if conflict && !covered {
            out.push(path.clone());
            assert(text::views(out@) =~= before.push(keys[i as int]));
        }
        i += 1;
    }
    assert(keys.take(i as int) =~= keys);
    proof {
        topmost_of_holds(map, keys);
        assert forall|path: Seq<char>| #[trigger] suppressed(map, path) <==> exists|k: int|
            0 <= k < out@.len() && paths::at_or_below(path, #[trigger] out@[k]@) by {
            if suppressed(map, path) {
                let at = choose|at: Seq<char>| #[trigger]
                    conflict_at(map, at) && paths::at_or_below(path, at);
                let top = topmost_above(map, at);
                if path != at && at != top {
                    paths::below_is_transitive(path, at, top);
                }
                assert(text::views(out@).contains(top));
                let m = choose|m: int|
                    0 <= m < text::views(out@).len() && text::views(out@)[m] == top;
                assert(paths::at_or_below(path, out@[m]@));
            }
            if exists|k: int|
                0 <= k < out@.len() && paths::at_or_below(path, #[trigger] out@[k]@) {
                let k = choose|k: int|
                    0 <= k < out@.len() && paths::at_or_below(path, #[trigger] out@[k]@);
                assert(text::views(out@)[k] == out@[k]@);
                assert(text::views(out@).contains(out@[k]@));
                assert(conflict_at(map, out@[k]@));
            }
        }
    }
    out
}

/// The issues of some type conflicts.
pub open spec fn type_issues(entries: Entries, tops: Seq<Seq<char>>) -> Seq<IssueView> {
    Seq::new(
        tops.len(),
        |i: int|
            IssueView::TypeConflict {
                path: tops[i],
                local: entries[tops[i]].local->Some_0,
                remote: entries[tops[i]].remote->Some_0,
            },
    )
}

/// The issues of the type conflicts at the given paths.
pub fn type_conflict_issues(entries: &PathMap<InventoryEntry>, prefixes: &Vec<String>) -> (out: Vec<
    SyncIssue,
>)
    requires
        entries.wf(),
        forall|i: int|
            0 <= i < prefixes@.len() ==> conflict_at(entries@, #[trigger] prefixes@[i]@),
    ensures
        text::views(out@) == type_issues(entries@, text::views(prefixes@)),
{
    let mut out: Vec<SyncIssue> = Vec::new();
    let mut i: usize = 0;
    while i < prefixes.len()
        invariant
            entries.wf(),
            i <= prefixes@.len(),
            out@.len() == i,
            forall|k: int|
                0 <= k < prefixes@.len() ==> conflict_at(entries@, #[trigger] prefixes@[k]@),
            forall|k: int|
                0 <= k < i ==> (#[trigger] out@[k])@ == type_issues(
                    entries@,
                    text::views(prefixes@),
                )[k],
        decreases prefixes.len() - i,
    {
        assert(conflict_at(entries@, prefixes@[i as int]@));
        match entries.get(&prefixes[i]) {
            Some(entry) => match (entry.local, entry.remote) {
                (Some(local), Some(remote)) => {
                    out.push(SyncIssue::TypeConflict { path: prefixes[i].clone(), local, remote });
                },
                _ => {
                    assert(false);
                },
            },
            None => {
                assert(false);
            },
        }
        i += 1;
    }
    assert(text::views(out@) =~= type_issues(entries@, text::views(prefixes@)));
    out
}

/// Whether an entry is a file on every side that holds it, and some side does.
pub open spec fn is_file(entry: InventoryEntry) -> bool {
    match (entry.local, entry.remote) {
        (Some(local), Some(remote)) => local == EntryKind::File && remote == EntryKind::File,
        (Some(local), None) => local == EntryKind::File,
        (None, Some(remote)) => remote == EntryKind::File,
        (None, None) => false,
    }
}

/// Whether an entry is only remembered.
pub open spec fn is_absent(entry: InventoryEntry) -> bool {
    entry.local is None && entry.remote is None && entry.in_state
}

/// Those of some paths that are files to compare, in order.
pub open spec fn files_of(entries: Entries, keys: Seq<Seq<char>>) -> Seq<Seq<char>>
    decreases keys.len(),
{
    if keys.len() == 0 {
        Seq::empty()
    } else if !suppressed(entries, keys.last()) && is_file(entries[keys.last()]) {
        files_of(entries, keys.drop_last()).push(keys.last())
    } else {
        files_of(entries, keys.drop_last())
    }
}

/// The events of those of some paths that are only remembered, in order.
pub open spec fn absences_of(entries: Entries, keys: Seq<Seq<char>>) -> Seq<EventView>
    decreases keys.len(),
{
    if keys.len() == 0 {
        Seq::empty()
    } else if !suppressed(entries, keys.last()) && is_absent(entries[keys.last()]) {
        absences_of(entries, keys.drop_last()).push(
            EventView { path: keys.last(), kind: SyncEventKind::SkippedAbsent },
        )
    } else {
        absences_of(entries, keys.drop_last())
    }
}

/// The files to compare, and the outcome so far: an issue for every topmost type
/// conflict and an event for every path that is only remembered. Nothing at or
/// below a type conflict appears in either.
pub fn classify_inventory_shapes(entries: &PathMap<InventoryEntry>) -> (out: (
    Vec<String>,
    SyncOutcome,
))
    requires
        entries.wf(),
    ensures
        text::views(out.0@) == files_of(entries@, entries.keys()),
        out.1@ == (OutcomeView {
            events: absences_of(entries@, entries.keys()),
            issues: type_issues(entries@, topmost_of(entries@, entries.keys())),
            cancelled: false,
        }),
{
    let ghost keys = entries.keys();
    let ghost map = entries@;
    proof {
        entries.facts();
        topmost_of_holds(map, keys);
    }
    let prefixes = type_conflict_prefixes(entries);
    proof {
        assert forall|i: int| 0 <= i < prefixes@.len() implies conflict_at(
            entries@,
            #[trigger] prefixes@[i]@,
        ) by {
            assert(text::views(prefixes@)[i] == prefixes@[i]@);
            assert(topmost_of(map, keys).contains(prefixes@[i]@));
        }
    }
    let issues = type_conflict_issues(entries, &prefixes);
    let mut files: Vec<String> = Vec::new();
    let mut events: Vec<SyncEvent> = Vec::new();
    let mut i: usize = 0;
    assert(text::views(files@) =~= files_of(map, keys.take(0)));
    assert(text::views(events@) =~= absences_of(map, keys.take(0)));
    while i < entries.len()
        invariant
            entries.wf(),
            keys == entries.keys(),
            map == entries@,
            i <= keys.len(),
            forall|j: int|
                0 <= j < keys.len() ==> map.contains_key(#[trigger] keys[j]) && map[keys[j]]
                    == entries.items()[j],
            keys.len() == entries.items().len(),
            text::views(files@) == files_of(map, keys.take(i as int)),
            text::views(events@) == absences_of(map, keys.take(i as int)),
            forall|path: Seq<char>| #[trigger]
                suppressed(map, path) <==> exists|k: int|
                    0 <= k < prefixes@.len() && paths::at_or_below(path, #[trigger] prefixes@[k]@),
        decreases keys.len() - i,
    {
        let ghost files_before = text::views(files@);
        let ghost events_before = text::views(events@);
        let path = entries.key(i);
        let entry = entries.item(i);
        assert(keys.take(i + 1).drop_last() =~= keys.take(i as int));
        assert(keys.take(i + 1).last() == keys[i as int]);
        let covered = is_covered(path, &prefixes);
        assert(covered == suppressed(map, keys[i as int]));
        if !covered {
            match (entry.local, entry.remote) {
                (None, None) => {
                    if entry.in_state {
                        events.push(
                            SyncEvent { path: path.clone(), kind: SyncEventKind::SkippedAbsent },
                        );
                        assert(text::views(events@) =~= events_before.push(
                            EventView { path: path@, kind: SyncEventKind::SkippedAbsent },
                        ));
                    }
                },
                (Some(local), Some(remote)) => {
                    if local == EntryKind::File && remote == EntryKind::File {
                        files.push(path.clone());
                        assert(text::views(files@) =~= files_before.push(path@));
                    }
                },
                (Some(local), None) => {
                    if local == EntryKind::File {
                        files.push(path.clone());
                        assert(text::views(files@) =~= files_before.push(path@));
                    }
                },
                (None, Some(remote)) => {
                    if remote == EntryKind::File {
                        files.push(path.clone());
                        assert(text::views(files@) =~= files_before.push(path@));
                    }
                },
            }
        }
        i += 1;
    }
    assert(keys.take(i as int) =~= keys);
    (files, SyncOutcome { events, issues, cancelled: false })
}

/// The entries that do not lie at or below a type conflict among the ancestors
/// of the selected path.
pub open spec fn retained(entries: Entries, ancestors: Entries) -> Entries {
    Map::new(
        |path: Seq<char>| entries.contains_key(path) && !suppressed(ancestors, path),
        |path: Seq<char>| entries[path],
    )
}

/// The entries that do not lie at or below a type conflict among `ancestors`.
pub fn retain_entries(
    entries: &PathMap<InventoryEntry>,
    ancestors: &PathMap<InventoryEntry>,
) -> (out: PathMap<InventoryEntry>)
    requires
        entries.wf(),
        ancestors.wf(),
    ensures
        out.wf(),
        out@ == retained(entries@, ancestors@),
{
    let prefixes = type_conflict_prefixes(ancestors);
    let ghost keys = entries.keys();
    let ghost map = entries@;
    proof {
        entries.facts();
    }
    let mut out: PathMap<InventoryEntry> = PathMap::new();
    let mut i: usize = 0;
    while i < entries.len()
        invariant
            entries.wf(),
            out.wf(),
            keys == entries.keys(),
            map == entries@,
            i <= keys.len(),
            keys.len() == entries.items().len(),
            forall|j: int|
                0 <= j < keys.len() ==> map.contains_key(#[trigger] keys[j]) && map[keys[j]]
                    == entries.items()[j],
            forall|path: Seq<char>| #[trigger]
                suppressed(ancestors@, path) <==> exists|k: int|
                    0 <= k < prefixes@.len() && paths::at_or_below(path, #[trigger] prefixes@[k]@),
            forall|path: Seq<char>| #[trigger]
                out@.contains_key(path) <==> keys.take(i as int).contains(path) && !suppressed(
                    ancestors@,
                    path,
                ),
            forall|path: Seq<char>| #[trigger]
                out@.contains_key(path) ==> out@[path] == map[path],
        decreases keys.len() - i,
    {
        let path = entries.key(i);
        let ghost here = keys[i as int];
        let ghost before = out@;
        let covered = is_covered(path, &prefixes);
        assert(covered == suppressed(ancestors@, here));
        if !covered {
            out.insert(path.clone(), *entries.item(i));
        }
        proof {
            let taken = keys.take(i as int);
            let more = keys.take(i + 1);
            assert(more =~= taken.push(here));
            assert forall|p: Seq<char>| #[trigger] out@.contains_key(p) <==> more.contains(p)
                && !suppressed(ancestors@, p) by {
                if taken.contains(p) {
                    let k = choose|k: int| 0 <= k < taken.len() && taken[k] == p;
                    assert(more[k] == p);
                }
                if more.contains(p) {
                    let k = choose|k: int| 0 <= k < more.len() && more[k] == p;
                    if k < taken.len() {
                        assert(taken[k] == p);
                        assert(taken.contains(p));
                    }
                }
                assert(more[more.len() - 1] == here);
                assert(before.contains_key(p) <==> taken.contains(p) && !suppressed(
                    ancestors@,
                    p,
                ));
            }
        }
        i += 1;
    }
    assert(keys.take(i as int) =~= keys);
    assert(out@ =~= retained(entries@, ancestors@));
    out
}

/// A file to compare is never at or below a type conflict, and is a file on
/// every side that holds it.
pub proof fn compared_files_do_not_conflict(entries: Entries, keys: Seq<Seq<char>>)
    ensures
        forall|i: int|
            0 <= i < files_of(entries, keys).len() ==> {
                &&& !suppressed(entries, #[trigger] files_of(entries, keys)[i])
                &&& is_file(entries[files_of(entries, keys)[i]])
                &&& keys.contains(files_of(entries, keys)[i])
            },
    decreases keys.len(),
{
    if keys.len() > 0 {
        let before = keys.drop_last();
        compared_files_do_not_conflict(entries, before);
        let files = files_of(entries, keys);
        let fewer = files_of(entries, before);
        assert(keys[keys.len() - 1] == keys.last());
        assert forall|i: int| 0 <= i < files.len() implies {
            &&& !suppressed(entries, #[trigger] files[i])
            &&& is_file(entries[files[i]])
            &&& keys.contains(files[i])
        } by {
            if i < fewer.len() {
                assert(files[i] == fewer[i]);
                let k = choose|k: int| 0 <= k < before.len() && before[k] == fewer[i];
                assert(keys[k] == fewer[i]);
            }
        }
    }
}

/// Whether some side holds a directory.
pub open spec fn holds_directory(entry: InventoryEntry) -> bool {
    entry.local == Some(EntryKind::Directory) || entry.remote == Some(EntryKind::Directory)
}

/// Whether some side holds a file.
pub open spec fn holds_file(entry: InventoryEntry) -> bool {
    entry.local == Some(EntryKind::File) || entry.remote == Some(EntryKind::File)
}

/// An entry conflicts exactly where one side holds a file and the other a
/// directory, is compared exactly where it is a file and nowhere a directory,
/// and is absent exactly where neither side holds it and it is remembered.
pub proof fn entry_is_what_the_sides_hold(entry: InventoryEntry)
    ensures
        conflicting(entry) <==> holds_file(entry) && holds_directory(entry),
        is_file(entry) <==> holds_file(entry) && !holds_directory(entry),
        is_absent(entry) <==> !holds_file(entry) && !holds_directory(entry) && entry.in_state,
{
}

/// Every path that is outside every type conflict and is a file is compared,
/// and every one that is only remembered has its event: nothing is left out.
pub proof fn no_file_is_left_out(entries: Entries, keys: Seq<Seq<char>>)
    ensures
        forall|path: Seq<char>| #[trigger]
            keys.contains(path) && !suppressed(entries, path) ==> {
                &&& is_file(entries[path]) ==> files_of(entries, keys).contains(path)
                &&& is_absent(entries[path]) ==> absences_of(entries, keys).contains(
                    EventView { path, kind: SyncEventKind::SkippedAbsent },
                )
            },
    decreases keys.len(),
{
    if keys.len() > 0 {
        let before = keys.drop_last();
        no_file_is_left_out(entries, before);
        let files = files_of(entries, keys);
        let fewer = files_of(entries, before);
        let absences = absences_of(entries, keys);
        let less = absences_of(entries, before);
        assert forall|path: Seq<char>| #[trigger]
            keys.contains(path) && !suppressed(entries, path) implies {
            &&& is_file(entries[path]) ==> files.contains(path)
            &&& is_absent(entries[path]) ==> absences.contains(
                EventView { path, kind: SyncEventKind::SkippedAbsent },
            )
        } by {
            let event = EventView { path, kind: SyncEventKind::SkippedAbsent };
            let k = choose|k: int| 0 <= k < keys.len() && keys[k] == path;
            if k == keys.len() - 1 {
                if is_file(entries[path]) {
                    assert(files[fewer.len() as int] == path);
                }
                if is_absent(entries[path]) {
                    assert(absences[less.len() as int] == event);
                }
            } else {
                assert(before[k] == path);
                assert(before.contains(path));
                if is_file(entries[path]) {
                    let i = choose|i: int| 0 <= i < fewer.len() && fewer[i] == path;
                    assert(files[i] == path);
                }
                if is_absent(entries[path]) {
                    let i = choose|i: int| 0 <= i < less.len() && less[i] == event;
                    assert(absences[i] == event);
                }
            }
        }
    }
}

/// An event of the inventory tells of a path that is only remembered and lies
/// outside every type conflict.
pub proof fn absences_are_only_remembered(entries: Entries, keys: Seq<Seq<char>>)
    ensures
        forall|i: int|
            0 <= i < absences_of(entries, keys).len() ==> {
                let event = #[trigger] absences_of(entries, keys)[i];
                &&& event.kind == SyncEventKind::SkippedAbsent
                &&& keys.contains(event.path)
                &&& !suppressed(entries, event.path)
                &&& entries[event.path].local is None
                &&& entries[event.path].remote is None
                &&& entries[event.path].in_state
            },
    decreases keys.len(),
{
    if keys.len() > 0 {
        let before = keys.drop_last();
        absences_are_only_remembered(entries, before);
        let absences = absences_of(entries, keys);
        let less = absences_of(entries, before);
        assert(keys[keys.len() - 1] == keys.last());
        assert forall|i: int| 0 <= i < absences.len() implies {
            let event = #[trigger] absences[i];
            &&& event.kind == SyncEventKind::SkippedAbsent
            &&& keys.contains(event.path)
            &&& !suppressed(entries, event.path)
            &&& entries[event.path].local is None
            &&& entries[event.path].remote is None
            &&& entries[event.path].in_state
        } by {
            if i < less.len() {
                assert(absences[i] == less[i]);
                let k = choose|k: int| 0 <= k < before.len() && before[k] == less[i].path;
                assert(keys[k] == less[i].path);
            }
        }
    }
}

/// The issue of a type conflict names its path and the kinds that the two sides
/// hold there, which differ.
pub proof fn type_issue_names_both_kinds(entries: Entries, tops: Seq<Seq<char>>, i: int)
    requires
        0 <= i < tops.len(),
        conflict_at(entries, tops[i]),
    ensures
        type_issues(entries, tops).len() == tops.len(),
        type_issues(entries, tops)[i] matches IssueView::TypeConflict { path, local, remote } && {
            &&& path == tops[i]
            &&& entries[path].local == Some(local)
            &&& entries[path].remote == Some(remote)
            &&& local != remote
        },
{
}

/// What lies outside the type conflicts of the ancestors is kept as it was, and
/// all of it is.
pub proof fn retained_is_what_no_ancestor_suppresses(
    entries: Entries,
    ancestors: Entries,
    path: Seq<char>,
)
    ensures
        retained(entries, ancestors).contains_key(path) ==> entries.contains_key(path)
            && retained(entries, ancestors)[path] == entries[path],
        entries.contains_key(path) ==> (retained(entries, ancestors).contains_key(path) <==> forall|
            at: Seq<char>|
            paths::at_or_below(path, at) ==> !#[trigger] conflict_at(ancestors, at)),
{
}

} // verus!
