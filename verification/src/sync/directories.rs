//! The directories that a synchronisation rests on: which ones they are, what
//! they are expected to be, and which of them are to be created.

use crate::error::Error;
use crate::error;
use crate::inventory::{EntryKind, InventoryEntry};
use crate::local_paths;
use crate::order::{PathMap, PathSet};
use crate::order;
use crate::paths;
use crate::sync::plan::Entries;
use crate::sync::plan;
use crate::text;
use vstd::prelude::*;

verus! {

broadcast use vstd::seq::group_seq_axioms;

/// How deep a relative directory lies, the root being at no depth.
pub open spec fn depth(relative: Seq<char>) -> nat {
    if relative.len() == 0 {
        0
    } else {
        text::segments(relative).len()
    }
}

/// How deep a relative directory lies, the root being at no depth.
pub fn directory_depth(relative: &str) -> (out: usize)
    ensures
        out == depth(relative@),
{
    if relative.unicode_len() == 0 {
        0
    } else {
        let parts = text::split_slashes(relative);
        assert(text::views(parts@).len() == parts@.len());
        parts.len()
    }
}

/// Whether a directory lies strictly above a path; the root is above none.
pub open spec fn strictly_above(ancestor: Seq<char>, relative: Seq<char>) -> bool {
    ancestor.len() > 0 && paths::below(relative, ancestor)
}

/// Whether a directory lies strictly above a path; the root is above none.
pub fn is_strict_directory_ancestor(ancestor: &str, relative: &str) -> (out: bool)
    ensures
        out == strictly_above(ancestor@, relative@),
{
    ancestor.unicode_len() > 0 && paths::is_below(relative, ancestor)
}

/// Whether some side holds an entry.
pub open spec fn is_present(entry: InventoryEntry) -> bool {
    entry.local is Some || entry.remote is Some
}

/// Whether some side holds a directory.
pub open spec fn is_directory(entry: InventoryEntry) -> bool {
    entry.local == Some(EntryKind::Directory) || entry.remote == Some(EntryKind::Directory)
}

/// Whether the entry at `path` makes a synchronisation rest on `directory`: it
/// is that directory, or it lies below it.
pub open spec fn rests_on(entries: Entries, path: Seq<char>, directory: Seq<char>) -> bool {
    &&& entries.contains_key(path)
    &&& !plan::suppressed(entries, path)
    &&& (path == directory && is_directory(entries[path])) || (is_present(entries[path])
        && strictly_above(directory, path) && !plan::suppressed(entries, directory))
}

/// Whether a synchronisation rests on a directory: on the root always, and on
/// every directory that some side holds or that lies above what some side holds,
/// unless it is at or below a type conflict.
pub open spec fn planned(entries: Entries, directory: Seq<char>) -> bool {
    directory.len() == 0 || exists|path: Seq<char>| #[trigger]
        rests_on(entries, path, directory)
}

/// Whether one directory comes before another: the shallower one, and of two at
/// one depth the one whose path comes first.
pub open spec fn shallower(a: Seq<char>, b: Seq<char>) -> bool {
    depth(a) < depth(b) || (depth(a) == depth(b) && order::before(a, b))
}

/// Whether some directories come from the shallowest down.
pub open spec fn top_down(directories: Seq<Seq<char>>) -> bool {
    forall|i: int, j: int|
        0 <= i < j < directories.len() ==> shallower(
            #[trigger] directories[i],
            #[trigger] directories[j],
        )
}

/// Adds the directories above `path` that do not conflict to `out`.
fn add_ancestors(path: &str, prefixes: &Vec<String>, entries: Ghost<Entries>, out: &mut PathSet)
    requires
        old(out).wf(),
        forall|p: Seq<char>| #[trigger]
            plan::suppressed(entries@, p) <==> exists|k: int|
                0 <= k < prefixes@.len() && paths::at_or_below(p, #[trigger] prefixes@[k]@),
    ensures
        final(out).wf(),
        forall|d: Seq<char>| #[trigger]
            final(out)@.contains(d) <==> old(out)@.contains(d) || (strictly_above(d, path@)
                && !plan::suppressed(entries@, d)),
{
    let chars = text::chars_of(path);
    let ghost start = out@;
    let mut i: usize = 0;
    while i < chars.len()
        invariant
            out.wf(),
            i <= chars@.len(),
            chars@ == path@,
            forall|p: Seq<char>| #[trigger]
                plan::suppressed(entries@, p) <==> exists|k: int|
                    0 <= k < prefixes@.len() && paths::at_or_below(p, #[trigger] prefixes@[k]@),
            forall|d: Seq<char>| #[trigger]
                out@.contains(d) <==> start.contains(d) || (strictly_above(d, path@) && d.len() < i
                    && !plan::suppressed(entries@, d)),
        decreases chars.len() - i,
    {
        let ghost before = out@;
        let ghost prefix = path@.take(i as int);
        proof {
            assert forall|d: Seq<char>| d.len() == i && paths::below(path@, d) implies d == prefix
                && path@[i as int] == '/' by {
                assert((d + paths::slash()) =~= path@.subrange(0, i + 1));
                assert((d + paths::slash())[i as int] == '/');
                assert(d =~= prefix) by {
                    assert forall|k: int| 0 <= k < i implies d[k] == path@[k] by {
                        assert((d + paths::slash())[k] == d[k]);
                    }
                }
            }
            if path@[i as int] == '/' {
                assert((prefix + paths::slash()) =~= path@.subrange(0, i + 1));
            }
        }
        if i > 0 && chars[i] == '/' {
            let directory = text::string_of(&chars, 0, i);
            assert(directory@ =~= prefix);
            let covered = plan::is_covered(&directory, prefixes);
            assert(covered == plan::suppressed(entries@, prefix));
            if !covered {
                out.insert(directory);
            }
        }
        i += 1;
    }
    proof {
        assert forall|d: Seq<char>| #[trigger] out@.contains(d) <==> start.contains(d) || (
        strictly_above(d, path@) && !plan::suppressed(entries@, d)) by {
            if strictly_above(d, path@) {
                paths::below_is_longer(path@, d);
            }
        }
    }
}

/// The directories that a synchronisation rests on, as a set.
fn directory_set(entries: &PathMap<InventoryEntry>) -> (out: PathSet)
    requires
        entries.wf(),
    ensures
        out.wf(),
        forall|d: Seq<char>| #[trigger] out@.contains(d) <==> planned(entries@, d),
{
    let ghost keys = entries.keys();
    let ghost map = entries@;
    proof {
        entries.facts();
    }
    let prefixes = plan::type_conflict_prefixes(entries);
    let mut out = PathSet::new();
    let root = String::new();
    assert(root@ =~= Seq::<char>::empty());
    out.insert(root);
    assert forall|d: Seq<char>| #[trigger] out@.contains(d) <==> d.len() == 0 by {
        assert(d.len() == 0 ==> d =~= Seq::<char>::empty());
    }
    let mut i: usize = 0;
    while i < entries.len()
        invariant
            entries.wf(),
            out.wf(),
            keys == entries.keys(),
            map == entries@,
            i <= keys.len(),
            keys.len() == entries.items().len(),
            forall|j: int|
                0 <= j < keys.len() ==> map.contains_key(#[trigger] keys[j]) && map[keys[j]]
                    == entries.items()[j],
            forall|p: Seq<char>| #[trigger]
                plan::suppressed(map, p) <==> exists|k: int|
                    0 <= k < prefixes@.len() && paths::at_or_below(p, #[trigger] prefixes@[k]@),
            forall|d: Seq<char>| #[trigger]
                out@.contains(d) <==> d.len() == 0 || exists|j: int|
                    0 <= j < i && rests_on(map, #[trigger] keys[j], d),
        decreases keys.len() - i,
    {
        let ghost before = out@;
        let ghost here = keys[i as int];
        let path = entries.key(i);
        let entry = *entries.item(i);
        let covered = plan::is_covered(path, &prefixes);
        assert(covered == plan::suppressed(map, here));
        if !covered {
            let local_dir = match entry.local {
                Some(EntryKind::Directory) => true,
                _ => false,
            };
            let remote_dir = match entry.remote {
                Some(EntryKind::Directory) => true,
                _ => false,
            };
            if local_dir || remote_dir {
                out.insert(path.clone());
            }
            if entry.local.is_some() || entry.remote.is_some() {
                add_ancestors(path, &prefixes, Ghost(map), &mut out);
            }
        }
        proof {
            assert forall|d: Seq<char>| #[trigger] out@.contains(d) <==> d.len() == 0 || exists|
                j: int,
            |
                0 <= j < i + 1 && rests_on(map, #[trigger] keys[j], d) by {
                assert(before.contains(d) <==> d.len() == 0 || exists|j: int|
                    0 <= j < i && rests_on(map, #[trigger] keys[j], d));
                if rests_on(map, here, d) {
                    assert(rests_on(map, keys[i as int], d));
                }
                assert(out@.contains(d) <==> before.contains(d) || rests_on(map, here, d));
            }
        }
        i += 1;
    }
    proof {
        assert forall|d: Seq<char>| #[trigger] out@.contains(d) <==> planned(map, d) by {
            if planned(map, d) && d.len() > 0 {
                let p = choose|p: Seq<char>| #[trigger] rests_on(map, p, d);
                assert(keys.contains(p));
                let j = choose|j: int| 0 <= j < keys.len() && keys[j] == p;
                assert(rests_on(map, keys[j], d));
            }
        }
    }
    out
}

/// The directories that a synchronisation rests on, from the shallowest down.
pub fn directory_paths(entries: &PathMap<InventoryEntry>) -> (out: Vec<String>)
    requires
        entries.wf(),
    ensures
        top_down(text::views(out@)),
        forall|d: Seq<char>| #[trigger]
            text::views(out@).contains(d) <==> planned(entries@, d),
        out@.len() > 0,
        out@[0]@.len() == 0,
{
    let set = directory_set(entries);
    let ghost keys = set.keys();
    proof {
        set.facts();
    }
    let mut out: Vec<String> = Vec::new();
    let mut i: usize = 0;
    while i < set.len()
        invariant
            set.wf(),
            keys == set.keys(),
            i <= keys.len(),
            order::ascending(keys),
            out@.len() == i,
            top_down(text::views(out@)),
            forall|d: Seq<char>| #[trigger]
                text::views(out@).contains(d) <==> keys.take(i as int).contains(d),
        decreases keys.len() - i,
    {
        let ghost before = text::views(out@);
        let ghost taken = keys.take(i as int);
        let path = set.key(i).clone();
        let ghost here = path@;
        let deep: usize = directory_depth(&path);
        let mut at: usize = out.len();
        while at > 0 && directory_depth(&out[at - 1]) > deep
            invariant
                at <= out@.len(),
                before == text::views(out@),
                forall|k: int| at <= k < before.len() ==> depth(#[trigger] before[k]) > deep,
            decreases at,
        {
            assert(before[at - 1] == out@[at - 1]@);
            at -= 1;
        }
        proof {
            assert forall|k: int| 0 <= k < at implies depth(#[trigger] before[k]) <= deep by {
                assert(before[at - 1] == out@[at - 1]@);
                if k < at - 1 {
                    assert(shallower(before[k], before[at - 1]));
                }
            }
            assert forall|k: int| 0 <= k < before.len() implies order::before(
                #[trigger] before[k],
                here,
            ) by {
                assert(before.contains(before[k]));
                let m = choose|m: int| 0 <= m < taken.len() && taken[m] == before[k];
                assert(keys[m] == before[k]);
                assert(keys[i as int] == here);
            }
        }
        out.insert(at, path);
        proof {
            let after = text::views(out@);
            assert(after =~= before.insert(at as int, here));
            assert forall|a: int, b: int| 0 <= a < b < after.len() implies shallower(
                #[trigger] after[a],
                #[trigger] after[b],
            ) by {
                if a < at && b == at {
                    assert(after[a] == before[a]);
                } else if a == at {
                    assert(after[b] == before[b - 1]);
                } else if b < at {
                    assert(shallower(before[a], before[b]));
                } else if a < at {
                    assert(shallower(before[a], before[b - 1]));
                } else {
                    assert(shallower(before[a - 1], before[b - 1]));
                }
            }
            let more = keys.take(i + 1);
            assert(more =~= taken.push(here));
            assert forall|d: Seq<char>| #[trigger] after.contains(d) <==> more.contains(d) by {
                if after.contains(d) {
                    let k = choose|k: int| 0 <= k < after.len() && after[k] == d;
                    if k < at {
                        assert(before[k] == d);
                        assert(before.contains(d));
                    } else if k > at {
                        assert(before[k - 1] == d);
                        assert(before.contains(d));
                    }
                    if taken.contains(d) {
                        let m = choose|m: int| 0 <= m < taken.len() && taken[m] == d;
                        assert(more[m] == d);
                    } else {
                        assert(more[more.len() - 1] == d);
                    }
                }
                if more.contains(d) {
                    let m = choose|m: int| 0 <= m < more.len() && more[m] == d;
                    if m < taken.len() {
                        assert(taken[m] == d);
                        assert(taken.contains(d));
                        assert(before.contains(d));
                        let k = choose|k: int| 0 <= k < before.len() && before[k] == d;
                        if k < at {
                            assert(after[k] == d);
                        } else {
                            assert(after[k + 1] == d);
                        }
                    } else {
                        assert(after[at as int] == d);
                    }
                }
            }
        }
        i += 1;
    }
    assert(keys.take(i as int) =~= keys);
    proof {
        let all = text::views(out@);
        assert forall|d: Seq<char>| #[trigger] all.contains(d) <==> planned(entries@, d) by {
            assert(set@.contains(d) <==> planned(entries@, d));
        }
        let none = Seq::<char>::empty();
        assert(planned(entries@, none));
        assert(all.contains(none));
        let k = choose|k: int| 0 <= k < all.len() && all[k] == none;
        if k > 0 {
            assert(shallower(all[0], all[k]));
        }
        assert(all[0] == out@[0]@);
        if all[0].len() > 0 {
            text::segments_nonempty(all[0]);
        }
    }
    out
}

/// What a synchronisation rests on includes every directory above what it rests
/// on, unless that one is at or below a type conflict.
pub proof fn planned_directories_are_closed(
    entries: Entries,
    directory: Seq<char>,
    above: Seq<char>,
)
    requires
        planned(entries, directory),
        strictly_above(above, directory),
        !plan::suppressed(entries, above),
    ensures
        planned(entries, above),
{
    paths::below_is_longer(directory, above);
    let path = choose|path: Seq<char>| #[trigger] rests_on(entries, path, directory);
    if path != directory {
        paths::below_is_transitive(path, directory, above);
    }
    assert(rests_on(entries, path, above));
}

/// What the file system says of a path that should be a directory, symlinks
/// followed but for `is_symlink`.
#[derive(Debug)]
pub struct DirectoryFacts {
    pub is_symlink: bool,
    pub is_dir: bool,
    pub canonical: String,
    pub identity: u64,
}

/// What a look at a path that should be a directory gave.
#[derive(Debug)]
pub enum DirectoryLook {
    /// Nothing is there; the file system said so.
    Missing(Error),
    /// The file system did not say whether anything is there.
    Unreadable(Error),
    /// Something is there, but where it leads could not be found out.
    Unfollowed(Error),
    Found(DirectoryFacts),
}

/// A directory that could not be read, because of what the file system said.
pub open spec fn read_failure(path: Seq<char>, cause: error::ErrorView) -> error::ErrorView {
    error::failure_from("reading local directory "@ + path, error::full_message(cause))
}

/// A directory that could not be read.
pub fn read_error(path: &str, cause: &Error) -> (out: Error)
    ensures
        out@ == read_failure(path@, cause@),
{
    Error::failure_from(text::cat("reading local directory ", path), &cause.full_message())
}

/// Which local directory a path led to.
#[derive(Debug)]
pub struct LocalDirectoryIdentity {
    pub canonical: String,
    pub identity: u64,
    pub is_symlink: bool,
}

/// Which local directory a path led to.
pub struct IdentityView {
    pub canonical: Seq<char>,
    pub identity: u64,
    pub is_symlink: bool,
}

impl View for LocalDirectoryIdentity {
    type V = IdentityView;

    open spec fn view(&self) -> IdentityView {
        IdentityView {
            canonical: self.canonical@,
            identity: self.identity,
            is_symlink: self.is_symlink,
        }
    }
}

/// What a local directory is expected to be.
#[derive(Debug)]
pub enum ExpectedLocalDirectory {
    Root(LocalDirectoryIdentity),
    Missing,
    Directory(LocalDirectoryIdentity),
}

/// What a local directory is expected to be.
pub enum LocalView {
    Root(IdentityView),
    Missing,
    Directory(IdentityView),
}

impl View for ExpectedLocalDirectory {
    type V = LocalView;

    open spec fn view(&self) -> LocalView {
        match self {
            ExpectedLocalDirectory::Root(identity) => LocalView::Root(identity@),
            ExpectedLocalDirectory::Missing => LocalView::Missing,
            ExpectedLocalDirectory::Directory(identity) => LocalView::Directory(identity@),
        }
    }
}

/// What a remote directory is expected to be.
#[derive(Debug, Clone, Copy, PartialEq, Eq, Structural)]
pub enum ExpectedRemoteDirectory {
    Root,
    Missing,
    Directory,
}

/// What a directory is expected to be on the two sides.
#[derive(Debug)]
pub struct ExpectedDirectory {
    pub relative: String,
    pub local: ExpectedLocalDirectory,
    pub remote: ExpectedRemoteDirectory,
}

/// What a directory is expected to be on the two sides.
pub struct DirectoryView {
    pub relative: Seq<char>,
    pub local: LocalView,
    pub remote: ExpectedRemoteDirectory,
}

impl View for ExpectedDirectory {
    type V = DirectoryView;

    open spec fn view(&self) -> DirectoryView {
        DirectoryView { relative: self.relative@, local: self.local@, remote: self.remote }
    }
}

/// The local path of a relative directory, the root being empty.
pub open spec fn local_path(local_root: Seq<char>, relative: Seq<char>) -> Seq<char> {
    if relative.len() == 0 {
        local_root
    } else {
        local_paths::joined(local_root, relative)
    }
}

/// The local path of a relative directory, the root being empty.
pub fn local_path_of(local_root: &str, relative: &str) -> (out: String)
    ensures
        out@ == local_path(local_root@, relative@),
{
    if relative.unicode_len() == 0 {
        local_root.to_owned()
    } else {
        local_paths::join(local_root, relative)
    }
}

/// Which local directory the facts about a path show, `None` where nothing is
/// there. What is no directory, or really lies outside the root, is refused.
pub open spec fn identified(
    local_root: Seq<char>,
    canonical_root: Seq<char>,
    relative: Seq<char>,
    facts: DirectoryLook,
) -> Result<Option<IdentityView>, error::ErrorView> {
    let path = local_path(local_root, relative);
    match facts {
        DirectoryLook::Missing(_) => Ok(None),
        DirectoryLook::Unreadable(cause) => Err(read_failure(path, cause@)),
        DirectoryLook::Unfollowed(e) => Err(e@),
        DirectoryLook::Found(facts) => if !facts.is_dir {
            Err(error::failure("local directory changed at "@ + path))
        } else if !paths::under_remote_root(canonical_root, facts.canonical@) {
            Err(
                error::failure(
                    "local directory "@ + path + " resolves outside local_root "@ + local_root,
                ),
            )
        } else {
            Ok(
                Some(
                    IdentityView {
                        canonical: facts.canonical@,
                        identity: facts.identity,
                        is_symlink: facts.is_symlink,
                    },
                ),
            )
        },
    }
}

/// Which local directory the facts about a path show.
pub fn capture_local_directory_identity(
    local_root: &str,
    canonical_root: &str,
    relative: &str,
    facts: DirectoryLook,
) -> (out: Result<Option<LocalDirectoryIdentity>, Error>)
    ensures
        match (out, identified(local_root@, canonical_root@, relative@, facts)) {
            (Ok(Some(identity)), Ok(Some(want))) => identity@ == want,
            (Ok(None), Ok(None)) => true,
            (Err(e), Err(want)) => e@ == want,
            _ => false,
        },
{
    match facts {
        DirectoryLook::Missing(_) => Ok(None),
        DirectoryLook::Unreadable(cause) => Err(
            read_error(&local_path_of(local_root, relative), &cause),
        ),
        DirectoryLook::Unfollowed(e) => Err(e),
        DirectoryLook::Found(facts) => {
            let path = local_path_of(local_root, relative);
            if !facts.is_dir {
                return Err(Error::failure(text::cat("local directory changed at ", &path)));
            }
            if !paths::is_under_remote_root(canonical_root, &facts.canonical) {
                return Err(
                    Error::failure(
                        text::cat4(
                            "local directory ",
                            &path,
                            " resolves outside local_root ",
                            local_root,
                        ),
                    ),
                );
            }
            Ok(
                Some(
                    LocalDirectoryIdentity {
                        canonical: facts.canonical,
                        identity: facts.identity,
                        is_symlink: facts.is_symlink,
                    },
                ),
            )
        },
    }
}

/// The inventory entry of a path.
pub open spec fn entry_at(entries: Entries, path: Seq<char>) -> Option<InventoryEntry> {
    if entries.contains_key(path) {
        Some(entries[path])
    } else {
        None
    }
}

/// What a local directory is expected to be, from what was found of it; the
/// inventory must agree.
pub open spec fn expected_local(
    entry: Option<InventoryEntry>,
    relative: Seq<char>,
    found: Option<IdentityView>,
) -> Result<LocalView, error::ErrorView> {
    let local = match found {
        Some(identity) => if relative.len() == 0 {
            LocalView::Root(identity)
        } else {
            LocalView::Directory(identity)
        },
        None => LocalView::Missing,
    };
    if relative.len() == 0 && found is None {
        Err(error::failure("local root disappeared while planning directories"@))
    } else {
        match entry {
            None => Ok(local),
            Some(entry) => match (entry.local, local) {
                (Some(EntryKind::Directory), LocalView::Directory(_)) => Ok(local),
                (None, LocalView::Missing) => Ok(local),
                (Some(EntryKind::File), _) => Err(
                    error::failure("local file became a directory while planning "@ + relative),
                ),
                _ => Err(error::failure("local directory changed while planning "@ + relative)),
            },
        }
    }
}

/// What a remote directory is expected to be; the inventory must agree.
pub open spec fn expected_remote(
    entry: Option<InventoryEntry>,
    relative: Seq<char>,
    remote: ExpectedRemoteDirectory,
) -> Result<ExpectedRemoteDirectory, error::ErrorView> {
    match entry {
        None => Ok(remote),
        Some(entry) => match (entry.remote, remote) {
            (Some(EntryKind::Directory), ExpectedRemoteDirectory::Directory) => Ok(remote),
            (None, ExpectedRemoteDirectory::Missing) => Ok(remote),
            (Some(EntryKind::File), _) => Err(
                error::failure("remote file became a directory while planning "@ + relative),
            ),
            _ => Err(error::failure("remote directory changed while planning "@ + relative)),
        },
    }
}

/// What a local directory is expected to be.
pub fn expected_local_of(
    entry: Option<InventoryEntry>,
    relative: &str,
    found: Option<LocalDirectoryIdentity>,
) -> (out: Result<ExpectedLocalDirectory, Error>)
    ensures
        error::agrees(
            out,
            expected_local(
                entry,
                relative@,
                match found {
                    Some(identity) => Some(identity@),
                    None => None,
                },
            ),
        ),
{
    let is_root = relative.unicode_len() == 0;
    let local = match found {
        Some(identity) => if is_root {
            ExpectedLocalDirectory::Root(identity)
        } else {
            ExpectedLocalDirectory::Directory(identity)
        },
        None => {
            if is_root {
                return Err(
                    Error::failure(
                        "local root disappeared while planning directories".to_owned(),
                    ),
                );
            }
            ExpectedLocalDirectory::Missing
        },
    };
    match entry {
        None => Ok(local),
        Some(entry) => {
            let agreed = match (entry.local, &local) {
                (Some(EntryKind::Directory), ExpectedLocalDirectory::Directory(_)) => true,
                (None, ExpectedLocalDirectory::Missing) => true,
                (Some(EntryKind::File), _) => {
                    return Err(
                        Error::failure(
                            text::cat("local file became a directory while planning ", relative),
                        ),
                    );
                },
                _ => false,
            };
            if agreed {
                Ok(local)
            } else {
                Err(
                    Error::failure(
                        text::cat("local directory changed while planning ", relative),
                    ),
                )
            }
        },
    }
}

/// What a remote directory is expected to be.
pub fn expected_remote_of(
    entry: Option<InventoryEntry>,
    relative: &str,
    remote: ExpectedRemoteDirectory,
) -> (out: Result<ExpectedRemoteDirectory, Error>)
    ensures
        error::settles(out, expected_remote(entry, relative@, remote)),
{
    match entry {
        None => Ok(remote),
        Some(entry) => match (entry.remote, remote) {
            (Some(EntryKind::Directory), ExpectedRemoteDirectory::Directory) => Ok(remote),
            (None, ExpectedRemoteDirectory::Missing) => Ok(remote),
            (Some(EntryKind::File), _) => Err(
                Error::failure(
                    text::cat("remote file became a directory while planning ", relative),
                ),
            ),
            _ => Err(
                Error::failure(text::cat("remote directory changed while planning ", relative)),
            ),
        },
    }
}

/// Whether one of the first `count` directories lies strictly above a path and
/// is expected to be missing on the server.
pub open spec fn missing_above(
    directories: Seq<DirectoryView>,
    count: nat,
    relative: Seq<char>,
) -> bool {
    exists|i: int|
        0 <= i < count && i < directories.len() && (#[trigger] directories[i]).remote
            == ExpectedRemoteDirectory::Missing && strictly_above(
            directories[i].relative,
            relative,
        )
}

/// Whether one of the first `count` directories lies strictly above a path and
/// is expected to be missing on the server.
pub fn is_missing_above(directories: &Vec<ExpectedDirectory>, count: usize, relative: &str) -> (out:
    bool)
    requires
        count <= directories@.len(),
    ensures
        out == missing_above(text::views(directories@), count as nat, relative@),
{
    let ghost all = text::views(directories@);
    let mut i: usize = 0;
    while i < count
        invariant
            i <= count <= directories@.len(),
            all == text::views(directories@),
            forall|k: int|
                0 <= k < i ==> !((#[trigger] all[k]).remote == ExpectedRemoteDirectory::Missing
                    && strictly_above(all[k].relative, relative@)),
        decreases count - i,
    {
        assert(all[i as int] == directories@[i as int]@);
        let missing = match directories[i].remote {
            ExpectedRemoteDirectory::Missing => true,
            _ => false,
        };
        if missing && is_strict_directory_ancestor(&directories[i].relative, relative) {
            return true;
        }
        i += 1;
    }
    false
}

/// A local directory is taken for what was found at it: the root at the empty path, a
/// directory anywhere else, and nothing where there is none. It is refused exactly if
/// the root is gone, or the inventory knows the path and found something else there.
pub proof fn expected_local_is_what_was_found(
    entry: Option<InventoryEntry>,
    relative: Seq<char>,
    found: Option<IdentityView>,
)
    ensures
        expected_local(entry, relative, found) matches Ok(local) ==> local == match found {
            None => LocalView::Missing,
            Some(identity) => if relative.len() == 0 {
                LocalView::Root(identity)
            } else {
                LocalView::Directory(identity)
            },
        },
        expected_local(entry, relative, found) is Ok <==> {
            &&& relative.len() == 0 ==> found is Some
            &&& entry matches Some(entry) ==> relative.len() > 0 && entry.local == match found {
                Some(_) => Some(EntryKind::Directory),
                None => None,
            }
        },
{
}

/// A remote directory is taken for what was found at it, and refused exactly if the
/// inventory knows the path and found something else there.
pub proof fn expected_remote_is_what_was_found(
    entry: Option<InventoryEntry>,
    relative: Seq<char>,
    remote: ExpectedRemoteDirectory,
)
    ensures
        expected_remote(entry, relative, remote) matches Ok(kept) ==> kept == remote,
        expected_remote(entry, relative, remote) is Ok <==> (entry matches Some(entry) ==> {
            ||| entry.remote == Some(EntryKind::Directory) && remote
                == ExpectedRemoteDirectory::Directory
            ||| entry.remote is None && remote == ExpectedRemoteDirectory::Missing
        }),
{
}

/// A local directory is identified by what is really there, and only a directory that
/// lies below the root is; what is missing is told as such, and what could not be read
/// is an error.
pub proof fn only_directories_below_the_root_are_identified(
    local_root: Seq<char>,
    canonical_root: Seq<char>,
    relative: Seq<char>,
    facts: DirectoryLook,
)
    ensures
        identified(local_root, canonical_root, relative, facts) matches Ok(None) <==> facts
            is Missing,
        identified(local_root, canonical_root, relative, facts) matches Ok(Some(identity)) ==> {
            &&& facts matches DirectoryLook::Found(seen) && seen.is_dir
                && paths::under_remote_root(canonical_root, seen.canonical@) && identity
                == (IdentityView {
                canonical: seen.canonical@,
                identity: seen.identity,
                is_symlink: seen.is_symlink,
            })
        },
        facts matches DirectoryLook::Found(seen) ==> (identified(
            local_root,
            canonical_root,
            relative,
            facts,
        ) is Ok <==> seen.is_dir && paths::under_remote_root(canonical_root, seen.canonical@)),
{
}

/// A synchronisation rests on the root, on every directory that some side holds
/// and on every directory above anything that some side holds, all outside of
/// type conflicts.
pub proof fn planned_is_every_directory_in_use(
    entries: Entries,
    path: Seq<char>,
    directory: Seq<char>,
)
    requires
        entries.contains_key(path),
        !plan::suppressed(entries, path),
    ensures
        planned(entries, Seq::empty()),
        entries[path].local == Some(EntryKind::Directory) ==> planned(entries, path),
        entries[path].remote == Some(EntryKind::Directory) ==> planned(entries, path),
        directory.len() > 0 && paths::below(path, directory) && !plan::suppressed(
            entries,
            directory,
        ) && (entries[path].local is Some || entries[path].remote is Some) ==> planned(
            entries,
            directory,
        ),
{
    if is_directory(entries[path]) {
        assert(rests_on(entries, path, path));
    }
    if directory.len() > 0 && paths::below(path, directory) && !plan::suppressed(
        entries,
        directory,
    ) && is_present(entries[path]) {
        assert(rests_on(entries, path, directory));
    }
}

/// A synchronisation rests on nothing else: a directory below the root that it
/// rests on lies outside every type conflict, and is held by some side or lies
/// above what some side holds.
pub proof fn planned_directory_is_in_use(entries: Entries, directory: Seq<char>)
    requires
        planned(entries, directory),
        directory.len() > 0,
    ensures
        !plan::suppressed(entries, directory),
        exists|path: Seq<char>| #[trigger]
            entries.contains_key(path) && (entries[path].local is Some || entries[path].remote
                is Some) && paths::at_or_below(path, directory),
{
    let path = choose|path: Seq<char>| #[trigger] rests_on(entries, path, directory);
    assert(entries.contains_key(path));
}

/// A directory lies deeper than every directory above it, so that whatever comes
/// from the shallowest down has every directory behind those above it.
pub proof fn deeper_directories_come_later(ancestor: Seq<char>, relative: Seq<char>)
    requires
        strictly_above(ancestor, relative),
    ensures
        depth(ancestor) < depth(relative),
        shallower(ancestor, relative),
        !shallower(relative, ancestor),
        0 < depth(ancestor),
        depth(Seq::empty()) == 0,
{
    paths::below_is_longer(relative, ancestor);
    text::segments_nonempty(ancestor);
    segments_of_longer(ancestor, relative, relative.len() as int);
    assert(relative.take(relative.len() as int) =~= relative);
}

proof fn segments_of_longer(ancestor: Seq<char>, relative: Seq<char>, upto: int)
    requires
        paths::below(relative, ancestor),
        ancestor.len() < upto <= relative.len(),
    ensures
        text::segments(relative.take(upto)).len() > text::segments(ancestor).len(),
    decreases upto,
{
    let part = relative.take(upto);
    let whole = ancestor + paths::slash();
    assert(relative.subrange(0, whole.len() as int) =~= whole);
    assert(part.drop_last() =~= relative.take(upto - 1));
    text::segments_nonempty(relative.take(upto - 1));
    if upto == ancestor.len() + 1 {
        assert forall|i: int| 0 <= i < ancestor.len() implies relative[i] == ancestor[i] by {
            assert(relative.subrange(0, whole.len() as int)[i] == whole[i]);
        }
        assert(relative.take(upto - 1) =~= ancestor);
        assert(part.last() == whole[ancestor.len() as int]) by {
            assert(relative.subrange(0, whole.len() as int)[ancestor.len() as int] == whole[
                ancestor.len() as int]);
        }
    } else {
        segments_of_longer(ancestor, relative, upto - 1);
    }
}

/// A path below the local root is the root, a slash and the path, and the empty
/// path is the root itself.
pub proof fn local_path_lies_below_the_root(local_root: Seq<char>, relative: Seq<char>)
    requires
        local_root.len() > 0,
        local_root.last() != '/',
        relative.len() > 0 ==> relative[0] != '/',
    ensures
        local_path(local_root, relative) == if relative.len() == 0 {
            local_root
        } else {
            local_root + seq!['/'] + relative
        },
        relative.len() > 0 ==> paths::below(local_path(local_root, relative), local_root),
{
    if paths::slash().is_prefix_of(relative) {
        assert(relative.subrange(0, 1)[0] == '/');
    }
    if relative.len() > 0 {
        let path = local_root + paths::slash() + relative;
        assert(path.subrange(0, local_root.len() as int + 1) =~= local_root + paths::slash());
    }
}

} // verus!
