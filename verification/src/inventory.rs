//! What stands where: the entries of the two sides and of the state, by path.

use crate::error::Error;
use crate::error;
use crate::order::PathMap;
use crate::paths;
use crate::scope::{ScopeView, SyncScope};
use crate::scope;
use crate::text;
use crate::transfer_temp;
use vstd::prelude::*;

verus! {

broadcast use vstd::seq::group_seq_axioms;

/// What an entry is, symlinks followed on the local side.
#[derive(Debug, Clone, Copy, PartialEq, Eq, Structural)]
pub enum EntryKind {
    File,
    Directory,
}

impl EntryKind {
    /// The name of the kind, as messages show it.
    pub open spec fn name(self) -> Seq<char> {
        match self {
            EntryKind::File => "File"@,
            EntryKind::Directory => "Directory"@,
        }
    }

    /// The name of the kind, as messages show it.
    pub fn label(self) -> (out: &'static str)
        ensures
            out@ == self.name(),
    {
        match self {
            EntryKind::File => "File",
            EntryKind::Directory => "Directory",
        }
    }
}

/// What an inventory found at a path.
#[derive(Debug, Clone, Copy, PartialEq, Eq, Structural)]
pub struct InventoryEntry {
    pub local: Option<EntryKind>,
    pub remote: Option<EntryKind>,
    pub in_state: bool,
}

/// What an inventory of a scope found. It can be out of date as soon as it is
/// made and allows no change by itself.
#[derive(Debug)]
pub struct ScopedInventory {
    pub scope: SyncScope,
    pub entries: PathMap<InventoryEntry>,
    pub implicit_ancestors: PathMap<InventoryEntry>,
    pub selected_local: bool,
    pub selected_remote: bool,
}

impl ScopedInventory {
    /// The inventory is in order.
    pub open spec fn wf(&self) -> bool {
        self.entries.wf() && self.implicit_ancestors.wf()
    }
}

/// What is known of a path, nothing where it is not in the map.
pub open spec fn known_at(entries: Map<Seq<char>, InventoryEntry>, path: Seq<char>) -> InventoryEntry {
    if entries.contains_key(path) {
        entries[path]
    } else {
        InventoryEntry { local: None, remote: None, in_state: false }
    }
}

/// The map, once something was found at a local path.
pub open spec fn with_local(
    entries: Map<Seq<char>, InventoryEntry>,
    path: Seq<char>,
    kind: EntryKind,
) -> Map<Seq<char>, InventoryEntry> {
    entries.insert(path, InventoryEntry { local: Some(kind), ..known_at(entries, path) })
}

/// The map, once something was found at a remote path.
pub open spec fn with_remote(
    entries: Map<Seq<char>, InventoryEntry>,
    path: Seq<char>,
    kind: EntryKind,
) -> Map<Seq<char>, InventoryEntry> {
    entries.insert(path, InventoryEntry { remote: Some(kind), ..known_at(entries, path) })
}

/// The map, once a path was found in the state.
pub open spec fn with_state(
    entries: Map<Seq<char>, InventoryEntry>,
    path: Seq<char>,
) -> Map<Seq<char>, InventoryEntry> {
    entries.insert(path, InventoryEntry { in_state: true, ..known_at(entries, path) })
}

/// What is known of a path.
fn known_of(entries: &PathMap<InventoryEntry>, path: &str) -> (out: InventoryEntry)
    requires
        entries.wf(),
    ensures
        out == known_at(entries@, path@),
{
    match entries.get(path) {
        Some(entry) => *entry,
        None => InventoryEntry { local: None, remote: None, in_state: false },
    }
}

/// Records what was found at a local path.
pub fn record_local(entries: &mut PathMap<InventoryEntry>, path: &str, kind: EntryKind)
    requires
        old(entries).wf(),
    ensures
        final(entries).wf(),
        final(entries)@ == with_local(old(entries)@, path@, kind),
{
    let known = known_of(entries, path);
    entries.insert(
        path.to_owned(),
        InventoryEntry { local: Some(kind), remote: known.remote, in_state: known.in_state },
    );
}

/// Records what was found at a remote path.
pub fn record_remote(entries: &mut PathMap<InventoryEntry>, path: &str, kind: EntryKind)
    requires
        old(entries).wf(),
    ensures
        final(entries).wf(),
        final(entries)@ == with_remote(old(entries)@, path@, kind),
{
    let known = known_of(entries, path);
    entries.insert(
        path.to_owned(),
        InventoryEntry { local: known.local, remote: Some(kind), in_state: known.in_state },
    );
}

/// Whether a path is never synchronised: it belongs to the state or is that of an
/// unfinished transfer.
pub open spec fn is_own(path: Seq<char>) -> bool {
    paths::state_path(path) || transfer_temp::reserved(path)
}

/// Whether a path is never synchronised.
pub fn belongs_to_ferry(path: &str) -> (out: bool)
    ensures
        out == is_own(path@),
{
    paths::is_state_path(path) || transfer_temp::is_reserved_transfer_temp(path)
}

/// A name from the server as a warning shows it.
pub fn sanitize_entry_name(name: &str) -> (out: String)
    ensures
        out@ == text::escaped(name@),
{
    text::escape(name)
}

/// Whether a position is marked.
pub open spec fn marked(flags: Seq<bool>, i: int) -> bool {
    0 <= i < flags.len() && flags[i]
}

/// The entries, once the first `count` paths of the state that lie in the scope
/// were added. One that may not be a key of the state ends it; those that are
/// never synchronised and those that are ignored are passed over.
pub open spec fn remembered(
    scope: ScopeView,
    entries: Map<Seq<char>, InventoryEntry>,
    keys: Seq<Seq<char>>,
    ignored: Seq<bool>,
    count: nat,
) -> Result<Map<Seq<char>, InventoryEntry>, error::ErrorView>
    decreases count,
{
    if count == 0 {
        Ok(entries)
    } else {
        let at = count - 1;
        match remembered(scope, entries, keys, ignored, at as nat) {
            Err(e) => Err(e),
            Ok(before) => if !scope::contains(scope, keys[at]) {
                Ok(before)
            } else if !paths::state_key(keys[at]) {
                Err(error::failure("state contains unsafe path key"@))
            } else if is_own(keys[at]) || marked(ignored, at) {
                Ok(before)
            } else {
                Ok(with_state(before, keys[at]))
            },
        }
    }
}

proof fn remembered_stays_refused(
    scope: ScopeView,
    entries: Map<Seq<char>, InventoryEntry>,
    keys: Seq<Seq<char>>,
    ignored: Seq<bool>,
    upto: nat,
    count: nat,
)
    requires
        upto <= count,
        remembered(scope, entries, keys, ignored, upto) is Err,
    ensures
        remembered(scope, entries, keys, ignored, count) == remembered(
            scope,
            entries,
            keys,
            ignored,
            upto,
        ),
    decreases count,
{
    if upto < count {
        remembered_stays_refused(scope, entries, keys, ignored, upto, (count - 1) as nat);
    }
}

/// What an inventory comes to once both sides were looked at: the entries with
/// the paths of the state among them. A selected path that is nowhere is an error.
pub open spec fn concluded(
    scope: ScopeView,
    entries: Map<Seq<char>, InventoryEntry>,
    selected: bool,
    keys: Seq<Seq<char>>,
    ignored: Seq<bool>,
) -> Result<Map<Seq<char>, InventoryEntry>, error::ErrorView> {
    match remembered(scope, entries, keys, ignored, keys.len()) {
        Err(e) => Err(e),
        Ok(all) => match scope {
            ScopeView::Path(path) => if !selected && !known_at(all, path).in_state {
                Err(error::failure("path not found locally or remotely"@))
            } else {
                Ok(all)
            },
            _ => Ok(all),
        },
    }
}

/// Adds the paths of the state to what both sides hold. `ignored` marks those of
/// the keys that are ignored.
fn remember(
    scope: &SyncScope,
    entries: PathMap<InventoryEntry>,
    keys: &Vec<String>,
    ignored: &Vec<bool>,
) -> (out: Result<PathMap<InventoryEntry>, Error>)
    requires
        entries.wf(),
    ensures
        match (
            out,
            remembered(scope@, entries@, text::views(keys@), ignored@, keys@.len()),
        ) {
            (Ok(found), Ok(want)) => found.wf() && found@ == want,
            (Err(e), Err(want)) => e@ == want,
            _ => false,
        },
{
    let ghost start = entries@;
    let ghost all = text::views(keys@);
    let mut found = entries;
    let mut i: usize = 0;
    while i < keys.len()
        invariant
            i <= keys@.len(),
            found.wf(),
            start == entries@,
            all == text::views(keys@),
            remembered(scope@, start, all, ignored@, i as nat) == Ok::<
                Map<Seq<char>, InventoryEntry>,
                error::ErrorView,
            >(found@),
        decreases keys.len() - i,
    {
        let path = &keys[i];
        assert(all[i as int] == path@);
        if scope::scope_contains(scope, path) {
            if let Err(e) = paths::validate_state_path_key(path) {
                proof {
                    remembered_stays_refused(
                        scope@,
                        start,
                        all,
                        ignored@,
                        (i + 1) as nat,
                        all.len(),
                    );
                }
                return Err(e);
            }
            let is_ignored = i < ignored.len() && ignored[i];
            if !belongs_to_ferry(path) && !is_ignored {
                let known = known_of(&found, path);
                found.insert(
                    path.clone(),
                    InventoryEntry { local: known.local, remote: known.remote, in_state: true },
                );
            }
        }
        i += 1;
    }
    Ok(found)
}

/// The inventory of a scope from what both sides hold and the keys of the state.
pub fn conclude(
    scope: SyncScope,
    entries: PathMap<InventoryEntry>,
    implicit_ancestors: PathMap<InventoryEntry>,
    selected_local: bool,
    selected_remote: bool,
    keys: &Vec<String>,
    ignored: &Vec<bool>,
) -> (out: Result<ScopedInventory, Error>)
    requires
        entries.wf(),
        implicit_ancestors.wf(),
    ensures
        match (
            out,
            concluded(
                scope@,
                entries@,
                selected_local || selected_remote,
                text::views(keys@),
                ignored@,
            ),
        ) {
            (Ok(inventory), Ok(want)) => {
                &&& inventory.wf()
                &&& inventory.scope@ == scope@
                &&& inventory.entries@ == want
                &&& inventory.implicit_ancestors@ == implicit_ancestors@
                &&& inventory.selected_local == selected_local
                &&& inventory.selected_remote == selected_remote
            },
            (Err(e), Err(want)) => e@ == want,
            _ => false,
        },
{
    let entries = match remember(&scope, entries, keys, ignored) {
        Ok(entries) => entries,
        Err(e) => {
            return Err(e);
        },
    };
    if let SyncScope::Path(path) = &scope {
        if !selected_local && !selected_remote && !known_of(&entries, path).in_state {
            return Err(Error::failure("path not found locally or remotely".to_owned()));
        }
    }
    Ok(
        ScopedInventory {
            scope,
            entries,
            implicit_ancestors,
            selected_local,
            selected_remote,
        },
    )
}

/// Whether every path of a map lies in the scope and may be synchronised.
pub open spec fn in_scope(scope: ScopeView, entries: Map<Seq<char>, InventoryEntry>) -> bool {
    forall|path: Seq<char>| #[trigger]
        entries.contains_key(path) ==> scope::contains(scope, path) && !is_own(path)
}

/// An inventory holds only paths of its scope, and none that belongs to the state
/// or to an unfinished transfer, if what both sides gave holds only such.
pub proof fn inventory_stays_in_scope(
    scope: ScopeView,
    entries: Map<Seq<char>, InventoryEntry>,
    selected: bool,
    keys: Seq<Seq<char>>,
    ignored: Seq<bool>,
)
    requires
        in_scope(scope, entries),
    ensures
        concluded(scope, entries, selected, keys, ignored) matches Ok(all) ==> in_scope(scope, all),
{
    remembered_stays_in_scope(scope, entries, keys, ignored, keys.len());
}

proof fn remembered_stays_in_scope(
    scope: ScopeView,
    entries: Map<Seq<char>, InventoryEntry>,
    keys: Seq<Seq<char>>,
    ignored: Seq<bool>,
    count: nat,
)
    requires
        in_scope(scope, entries),
    ensures
        remembered(scope, entries, keys, ignored, count) matches Ok(all) ==> in_scope(scope, all),
    decreases count,
{
    if count > 0 {
        remembered_stays_in_scope(scope, entries, keys, ignored, (count - 1) as nat);
    }
}

/// What is found on one side of a path is told of that path and that side alone.
pub proof fn finding_is_told_of_its_side(
    entries: Map<Seq<char>, InventoryEntry>,
    path: Seq<char>,
    kind: EntryKind,
    other: Seq<char>,
)
    ensures
        ({
            let near = known_at(with_local(entries, path, kind), other);
            let far = known_at(with_remote(entries, path, kind), other);
            let kept = known_at(with_state(entries, path), other);
            let before = known_at(entries, other);
            &&& other == path ==> {
                &&& near == (InventoryEntry { local: Some(kind), ..before })
                &&& far == (InventoryEntry { remote: Some(kind), ..before })
                &&& kept == (InventoryEntry { in_state: true, ..before })
            }
            &&& other != path ==> near == before && far == before && kept == before
        }),
{
}

/// Whether one of the first paths of the state is a given one that counts: it lies in the
/// scope, may be synchronised and is not ignored.
pub open spec fn counts(
    scope: ScopeView,
    keys: Seq<Seq<char>>,
    ignored: Seq<bool>,
    upto: nat,
    path: Seq<char>,
) -> bool {
    exists|i: int|
        {
            &&& 0 <= i < upto
            &&& #[trigger] keys[i] == path
            &&& scope::contains(scope, path)
            &&& !is_own(path)
            &&& !marked(ignored, i)
        }
}

proof fn remembering_adds_what_counts(
    scope: ScopeView,
    entries: Map<Seq<char>, InventoryEntry>,
    keys: Seq<Seq<char>>,
    ignored: Seq<bool>,
    upto: nat,
    path: Seq<char>,
)
    requires
        upto <= keys.len(),
    ensures
        remembered(scope, entries, keys, ignored, upto) is Ok <==> forall|i: int|
            0 <= i < upto && scope::contains(scope, #[trigger] keys[i]) ==> paths::state_key(
                keys[i],
            ),
        remembered(scope, entries, keys, ignored, upto) matches Ok(all) ==> {
            &&& known_at(all, path).local == known_at(entries, path).local
            &&& known_at(all, path).remote == known_at(entries, path).remote
            &&& known_at(all, path).in_state <==> known_at(entries, path).in_state || counts(
                scope,
                keys,
                ignored,
                upto,
                path,
            )
            &&& all.contains_key(path) <==> entries.contains_key(path) || counts(
                scope,
                keys,
                ignored,
                upto,
                path,
            )
        },
    decreases upto,
{
    if upto > 0 {
        let fewer = (upto - 1) as nat;
        let at = upto - 1;
        remembering_adds_what_counts(scope, entries, keys, ignored, fewer, path);
        if counts(scope, keys, ignored, fewer, path) {
            let i = choose|i: int|
                {
                    &&& 0 <= i < fewer
                    &&& #[trigger] keys[i] == path
                    &&& scope::contains(scope, path)
                    &&& !is_own(path)
                    &&& !marked(ignored, i)
                };
            assert(keys[i] == path);
            assert(counts(scope, keys, ignored, upto, path));
        }
        if counts(scope, keys, ignored, upto, path) && !counts(scope, keys, ignored, fewer, path) {
            let i = choose|i: int|
                {
                    &&& 0 <= i < upto
                    &&& #[trigger] keys[i] == path
                    &&& scope::contains(scope, path)
                    &&& !is_own(path)
                    &&& !marked(ignored, i)
                };
            assert(i == at);
        }
        if keys[at] == path && scope::contains(scope, path) && !is_own(path) && !marked(
            ignored,
            at,
        ) {
            assert(counts(scope, keys, ignored, upto, path));
        }
        if remembered(scope, entries, keys, ignored, fewer) is Err {
            let i = choose|i: int|
                0 <= i < fewer && scope::contains(scope, #[trigger] keys[i]) && !paths::state_key(
                    keys[i],
                );
            assert(!paths::state_key(keys[i]));
        }
    }
}

/// An inventory tells of each path what the two sides told of it, and that it is
/// remembered exactly if the state has it, it lies in the scope, and it is neither one
/// that is never synchronised nor ignored. It fails exactly if such a path may not be a
/// key, or the selected path is neither on a side nor remembered.
pub proof fn inventory_tells_what_it_was_told(
    scope: ScopeView,
    entries: Map<Seq<char>, InventoryEntry>,
    selected: bool,
    keys: Seq<Seq<char>>,
    ignored: Seq<bool>,
    path: Seq<char>,
)
    ensures
        concluded(scope, entries, selected, keys, ignored) matches Ok(all) ==> {
            &&& known_at(all, path).local == known_at(entries, path).local
            &&& known_at(all, path).remote == known_at(entries, path).remote
            &&& known_at(all, path).in_state <==> known_at(entries, path).in_state || counts(
                scope,
                keys,
                ignored,
                keys.len(),
                path,
            )
            &&& all.contains_key(path) <==> entries.contains_key(path) || counts(
                scope,
                keys,
                ignored,
                keys.len(),
                path,
            )
        },
        concluded(scope, entries, selected, keys, ignored) is Ok <==> {
            &&& forall|i: int|
                0 <= i < keys.len() && scope::contains(scope, #[trigger] keys[i])
                    ==> paths::state_key(keys[i])
            &&& scope matches ScopeView::Path(chosen) ==> selected || known_at(
                entries,
                chosen,
            ).in_state || counts(scope, keys, ignored, keys.len(), chosen)
        },
{
    remembering_adds_what_counts(scope, entries, keys, ignored, keys.len(), path);
    if let ScopeView::Path(chosen) = scope {
        remembering_adds_what_counts(scope, entries, keys, ignored, keys.len(), chosen);
    }
}

} // verus!
