//! The children of a remote directory, as a complete listing names them.

use crate::error::Error;
use crate::error;
use crate::ftp::{Entry, EntryView};
use crate::paths;
use crate::text;
use vstd::prelude::*;

verus! {

broadcast use vstd::seq::group_seq_axioms;

/// Whether a listed name stands for the directory itself or for its parent.
pub open spec fn dot(name: Seq<char>) -> bool {
    name == "."@ || name == ".."@
}

/// An entry under another name.
pub open spec fn renamed(entry: EntryView, name: Seq<char>) -> EntryView {
    EntryView {
        name,
        is_dir: entry.is_dir,
        is_symlink: entry.is_symlink,
        size: entry.size,
        modified: entry.modified,
    }
}

/// Whether some children hold one of the given name.
pub open spec fn holds(children: Seq<EntryView>, name: Seq<char>) -> bool {
    exists|i: int| 0 <= i < children.len() && (#[trigger] children[i]).name == name
}

/// The child that a listed entry of `directory` stands for. It must denote a
/// direct child, and that child must not lie outside `root`.
pub open spec fn child_of(root: Seq<char>, directory: Seq<char>, supplied: Seq<char>) -> Result<
    Seq<char>,
    error::ErrorView,
> {
    match paths::child_or_error(directory, supplied) {
        Err(e) => Err(e),
        Ok(name) => if paths::under_remote_root(root, paths::remote_joined(directory, name)) {
            Ok(name)
        } else {
            Err(error::failure("unsafe remote entry in "@ + text::debug_text(directory)))
        },
    }
}

/// The children that a complete listing names, in order, each under the name of
/// a direct child: one entry that denotes anything else refuses the listing,
/// and so does a name that comes twice. Dot entries are passed over.
pub open spec fn children(
    root: Seq<char>,
    directory: Seq<char>,
    entries: Seq<EntryView>,
) -> Result<Seq<EntryView>, error::ErrorView>
    decreases entries.len(),
{
    if entries.len() == 0 {
        Ok(Seq::empty())
    } else {
        match children(root, directory, entries.drop_last()) {
            Err(e) => Err(e),
            Ok(before) => if dot(entries.last().name) {
                Ok(before)
            } else {
                match child_of(root, directory, entries.last().name) {
                    Err(e) => Err(e),
                    Ok(name) => if holds(before, name) {
                        Err(
                            error::failure(
                                "duplicate remote entry "@ + text::debug_text(name) + " in "@
                                    + text::debug_text(directory),
                            ),
                        )
                    } else {
                        Ok(before.push(renamed(entries.last(), name)))
                    },
                }
            },
        }
    }
}

/// The children that a listing names up to the first entry that refuses it, and
/// why that entry does.
pub open spec fn read_children(
    root: Seq<char>,
    directory: Seq<char>,
    entries: Seq<EntryView>,
) -> (Seq<EntryView>, Option<error::ErrorView>)
    decreases entries.len(),
{
    if entries.len() == 0 {
        (Seq::empty(), None)
    } else {
        let (before, refusal) = read_children(root, directory, entries.drop_last());
        if refusal is Some || dot(entries.last().name) {
            (before, refusal)
        } else {
            match child_of(root, directory, entries.last().name) {
                Err(e) => (before, Some(e)),
                Ok(name) => if holds(before, name) {
                    (
                        before,
                        Some(
                            error::failure(
                                "duplicate remote entry "@ + text::debug_text(name) + " in "@
                                    + text::debug_text(directory),
                            ),
                        ),
                    )
                } else {
                    (before.push(renamed(entries.last(), name)), None)
                },
            }
        }
    }
}

/// A listing names its children if and only if no entry refuses it.
pub proof fn read_children_are_children(
    root: Seq<char>,
    directory: Seq<char>,
    entries: Seq<EntryView>,
)
    ensures
        children(root, directory, entries) == match read_children(root, directory, entries) {
            (found, None) => Ok::<Seq<EntryView>, error::ErrorView>(found),
            (_, Some(e)) => Err(e),
        },
    decreases entries.len(),
{
    if entries.len() > 0 {
        read_children_are_children(root, directory, entries.drop_last());
    }
}

proof fn read_children_stay_refused(
    root: Seq<char>,
    directory: Seq<char>,
    entries: Seq<EntryView>,
    upto: int,
)
    requires
        0 <= upto <= entries.len(),
        read_children(root, directory, entries.take(upto)).1 is Some,
    ensures
        read_children(root, directory, entries) == read_children(
            root,
            directory,
            entries.take(upto),
        ),
    decreases entries.len(),
{
    if upto == entries.len() {
        assert(entries.take(upto) =~= entries);
    } else {
        assert(entries.drop_last().take(upto) =~= entries.take(upto));
        read_children_stay_refused(root, directory, entries.drop_last(), upto);
    }
}

/// The child that a listed entry of `directory` stands for.
pub fn remote_child_name(root: &str, directory: &str, supplied: &str) -> (out: Result<
    String,
    Error,
>)
    ensures
        error::agrees(out, child_of(root@, directory@, supplied@)),
        out matches Err(e) ==> error::plain(e@),
{
    proof {
        reveal_strlit("unsafe remote entry in ");
    }
    match paths::strict_remote_child_name(directory, supplied) {
        Err(e) => Err(e),
        Ok(name) => {
            let path = paths::remote_path_join(directory, &name);
            if paths::is_under_remote_root(root, &path) {
                Ok(name)
            } else {
                Err(Error::failure(text::quote_after("unsafe remote entry in ", directory)))
            }
        },
    }
}

/// Whether some children hold one of the given name.
fn is_held(children: &Vec<Entry>, name: &str) -> (out: bool)
    ensures
        out == holds(text::views(children@), name@),
{
    let ghost all = text::views(children@);
    let mut i: usize = 0;
    while i < children.len()
        invariant
            i <= children@.len(),
            all == text::views(children@),
            forall|k: int| 0 <= k < i ==> (#[trigger] all[k]).name != name@,
        decreases children.len() - i,
    {
        assert(all[i as int] == children@[i as int]@);
        if text::same(&children[i].name, name) {
            return true;
        }
        i += 1;
    }
    false
}

/// Whether a listed name stands for the directory itself or for its parent.
pub fn is_dot(name: &str) -> (out: bool)
    ensures
        out == dot(name@),
{
    text::same(name, ".") || text::same(name, "..")
}

/// The children that a listing of `directory` names up to the first entry that
/// refuses it, and why that entry does.
pub fn read_children_of(root: &str, directory: &str, entries: &Vec<Entry>) -> (out: (
    Vec<Entry>,
    Option<Error>,
))
    ensures
        text::views(out.0@) == read_children(root@, directory@, text::views(entries@)).0,
        match (out.1, read_children(root@, directory@, text::views(entries@)).1) {
            (Some(e), Some(want)) => e@ == want,
            (None, None) => true,
            _ => false,
        },
        out.1 matches Some(e) ==> error::plain(e@),
{
    proof {
        reveal_strlit("duplicate remote entry ");
        reveal_strlit(" in ");
    }
    let ghost all = text::views(entries@);
    let mut found: Vec<Entry> = Vec::new();
    let mut i: usize = 0;
    assert(text::views(found@) =~= Seq::<EntryView>::empty());
    while i < entries.len()
        invariant
            i <= entries@.len(),
            all == text::views(entries@),
            !text::has_control("duplicate remote entry "@),
            !text::has_control(" in "@),
            read_children(root@, directory@, all.take(i as int)) == (
                text::views(found@),
                None::<error::ErrorView>,
            ),
        decreases entries.len() - i,
    {
        let ghost before = text::views(found@);
        assert(all.take(i + 1).drop_last() =~= all.take(i as int));
        assert(all.take(i + 1).last() == entries@[i as int]@);
        let entry = &entries[i];
        if !is_dot(&entry.name) {
            match remote_child_name(root, directory, &entry.name) {
                Err(e) => {
                    proof {
                        read_children_stay_refused(root@, directory@, all, i + 1);
                    }
                    return (found, Some(e));
                },
                Ok(name) => {
                    if is_held(&found, &name) {
                        proof {
                            read_children_stay_refused(root@, directory@, all, i + 1);
                        }
                        let first = text::quote_after("duplicate remote entry ", &name);
                        let second = text::quote_after(" in ", directory);
                        proof {
                            text::control_in_either(first@, second@);
                        }
                        let refusal = Error::failure(text::cat(&first, &second));
                        assert(refusal@.message =~= "duplicate remote entry "@
                            + text::debug_text(name@) + " in "@ + text::debug_text(directory@));
                        return (found, Some(refusal));
                    }
                    let ghost resolved = name@;
                    found.push(
                        Entry {
                            name,
                            is_dir: entry.is_dir,
                            is_symlink: entry.is_symlink,
                            size: entry.size,
                            modified: entry.modified,
                        },
                    );
                    assert(text::views(found@) =~= before.push(renamed(entry@, resolved)));
                },
            }
        }
        i += 1;
    }
    assert(all.take(i as int) =~= all);
    (found, None)
}

/// The children that a complete listing of `directory` names.
pub fn children_of(root: &str, directory: &str, entries: &Vec<Entry>) -> (out: Result<
    Vec<Entry>,
    Error,
>)
    ensures
        match (out, children(root@, directory@, text::views(entries@))) {
            (Ok(found), Ok(want)) => text::views(found@) == want,
            (Err(e), Err(want)) => e@ == want,
            _ => false,
        },
        out matches Err(e) ==> error::plain(e@),
{
    proof {
        read_children_are_children(root@, directory@, text::views(entries@));
    }
    match read_children_of(root, directory, entries) {
        (found, None) => Ok(found),
        (_, Some(e)) => Err(e),
    }
}

/// Every child that a complete listing names is a direct child of the listed
/// directory that does not lie outside the root, and no name comes twice.
pub proof fn children_are_contained(
    root: Seq<char>,
    directory: Seq<char>,
    entries: Seq<EntryView>,
)
    ensures
        children(root, directory, entries) matches Ok(found) ==> {
            &&& forall|i: int|
                0 <= i < found.len() ==> paths::child((#[trigger] found[i]).name)
                    && paths::under_remote_root(
                    root,
                    paths::remote_joined(directory, found[i].name),
                )
            &&& forall|i: int, j: int|
                0 <= i < j < found.len() ==> (#[trigger] found[i]).name != (
                #[trigger] found[j]).name
        },
    decreases entries.len(),
{
    if entries.len() > 0 {
        children_are_contained(root, directory, entries.drop_last());
        if let (Ok(found), Ok(before)) = (
            children(root, directory, entries),
            children(root, directory, entries.drop_last()),
        ) {
            assert forall|i: int| 0 <= i < found.len() implies paths::child(
                (#[trigger] found[i]).name,
            ) && paths::under_remote_root(
                root,
                paths::remote_joined(directory, found[i].name),
            ) by {
                if i < before.len() {
                    assert(found[i] == before[i]);
                }
            }
            assert forall|i: int, j: int| 0 <= i < j < found.len() implies (
            #[trigger] found[i]).name != (#[trigger] found[j]).name by {
                assert(found[i] == before[i]);
                if j < before.len() {
                    assert(found[j] == before[j]);
                }
            }
        }
    }
}

/// The child of the given name.
pub open spec fn named(children: Seq<EntryView>, name: Seq<char>) -> Option<EntryView>
    decreases children.len(),
{
    if children.len() == 0 {
        None
    } else if children[0].name == name {
        Some(children[0])
    } else {
        named(children.skip(1), name)
    }
}

/// The position of the child of the given name.
pub fn find_named(children: &Vec<Entry>, name: &str) -> (out: Option<usize>)
    ensures
        match out {
            Some(i) => i < children@.len() && named(text::views(children@), name@) == Some(
                children@[i as int]@,
            ),
            None => named(text::views(children@), name@) is None,
        },
{
    let ghost all = text::views(children@);
    let mut i: usize = 0;
    assert(all.skip(0) =~= all);
    while i < children.len()
        invariant
            i <= children@.len(),
            all == text::views(children@),
            named(all.skip(i as int), name@) == named(all, name@),
        decreases children.len() - i,
    {
        assert(all.skip(i as int)[0] == children@[i as int]@);
        assert(all.skip(i as int).skip(1) =~= all.skip(i + 1));
        if text::same(&children[i].name, name) {
            return Some(i);
        }
        i += 1;
    }
    None
}

/// Every entry of a listing that is no dot name is among its children, under the
/// name it is taken by and otherwise as it is listed: none is left out and none
/// is changed.
pub proof fn children_are_every_entry(
    root: Seq<char>,
    directory: Seq<char>,
    entries: Seq<EntryView>,
)
    ensures
        children(root, directory, entries) matches Ok(found) ==> {
            &&& forall|i: int|
                0 <= i < entries.len() && !dot((#[trigger] entries[i]).name) ==> child_of(
                    root,
                    directory,
                    entries[i].name,
                ) is Ok && found.contains(
                    EntryView {
                        name: child_of(root, directory, entries[i].name)->Ok_0,
                        is_dir: entries[i].is_dir,
                        is_symlink: entries[i].is_symlink,
                        size: entries[i].size,
                        modified: entries[i].modified,
                    },
                )
            &&& forall|k: int|
                0 <= k < found.len() ==> exists|i: int|
                    0 <= i < entries.len() && !dot((#[trigger] entries[i]).name)
                        && #[trigger] found[k] == (EntryView {
                        name: child_of(root, directory, entries[i].name)->Ok_0,
                        is_dir: entries[i].is_dir,
                        is_symlink: entries[i].is_symlink,
                        size: entries[i].size,
                        modified: entries[i].modified,
                    })
            &&& found.len() <= entries.len()
        },
    decreases entries.len(),
{
    if entries.len() > 0 {
        let before = entries.drop_last();
        children_are_every_entry(root, directory, before);
        if let Ok(found) = children(root, directory, entries) {
            let fewer = children(root, directory, before)->Ok_0;
            assert forall|i: int| 0 <= i < entries.len() && !dot((#[trigger] entries[i]).name) implies
                child_of(root, directory, entries[i].name) is Ok && found.contains(
                EntryView {
                    name: child_of(root, directory, entries[i].name)->Ok_0,
                    is_dir: entries[i].is_dir,
                    is_symlink: entries[i].is_symlink,
                    size: entries[i].size,
                    modified: entries[i].modified,
                },
            ) by {
                let want = EntryView {
                    name: child_of(root, directory, entries[i].name)->Ok_0,
                    is_dir: entries[i].is_dir,
                    is_symlink: entries[i].is_symlink,
                    size: entries[i].size,
                    modified: entries[i].modified,
                };
                if i < before.len() {
                    assert(before[i] == entries[i]);
                    let k = choose|k: int| 0 <= k < fewer.len() && fewer[k] == want;
                    assert(found[k] == want);
                } else {
                    assert(found[fewer.len() as int] == want);
                }
            }
            assert forall|k: int| 0 <= k < found.len() implies exists|i: int|
                0 <= i < entries.len() && !dot((#[trigger] entries[i]).name) && #[trigger] found[k]
                    == (EntryView {
                    name: child_of(root, directory, entries[i].name)->Ok_0,
                    is_dir: entries[i].is_dir,
                    is_symlink: entries[i].is_symlink,
                    size: entries[i].size,
                    modified: entries[i].modified,
                }) by {
                if k < fewer.len() {
                    assert(found[k] == fewer[k]);
                    let i = choose|i: int|
                        0 <= i < before.len() && !dot((#[trigger] before[i]).name)
                            && #[trigger] fewer[k] == (EntryView {
                            name: child_of(root, directory, before[i].name)->Ok_0,
                            is_dir: before[i].is_dir,
                            is_symlink: before[i].is_symlink,
                            size: before[i].size,
                            modified: before[i].modified,
                        });
                    assert(before[i] == entries[i]);
                } else {
                    assert(entries[entries.len() - 1] == entries.last());
                }
            }
        }
    }
}

/// A child is found by its name exactly where there is one of that name.
pub proof fn child_is_found_by_its_name(children: Seq<EntryView>, name: Seq<char>)
    ensures
        named(children, name) is Some <==> holds(children, name),
        named(children, name) matches Some(child) ==> child.name == name && children.contains(
            child,
        ),
    decreases children.len(),
{
    if children.len() > 0 {
        let rest = children.skip(1);
        child_is_found_by_its_name(rest, name);
        if children[0].name == name {
            assert(children.contains(children[0]));
        } else {
            if named(rest, name) is Some {
                let child = named(rest, name)->Some_0;
                let k = choose|k: int| 0 <= k < rest.len() && rest[k] == child;
                assert(children[k + 1] == child);
                assert(children.contains(child));
            }
            if holds(children, name) {
                let i = choose|i: int|
                    0 <= i < children.len() && (#[trigger] children[i]).name == name;
                assert(rest[i - 1].name == name);
            }
        }
    }
}

} // verus!
