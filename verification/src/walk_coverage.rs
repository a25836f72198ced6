//! What the walks find: every file of the tree that they are told of, at every depth,
//! and nothing else.

use crate::error::Error;
use crate::error;
use crate::ftp::EntryView;
use crate::listing;
use crate::paths;
use crate::sync::directories;
use crate::text;
use crate::walk::{FindingView, LocalItem, LocalWalkView, StopView, TrailView, WalkPhase};
use crate::walk::{WalkReply, WalkView};
use crate::walk;
use vstd::prelude::*;

verus! {

broadcast use vstd::seq::group_seq_axioms;

/// What is known to lie below a directory, by its relative path and the path that is
/// read.
pub type Reach = spec_fn(Seq<char>, Seq<char>) -> bool;

/// Whether a trail has gathered a path, as a symlink or as a file.
pub open spec fn gathered(t: TrailView, path: Seq<char>, link: bool) -> bool {
    if link {
        t.symlinks.contains(path)
    } else {
        t.found.contains(path)
    }
}

/// Whether a finding is the path that is looked for, or a directory that it lies in.
pub open spec fn leads_to(f: FindingView, path: Seq<char>, link: bool, reach: Reach) -> bool {
    match f {
        FindingView::File(found) => !link && found == path,
        FindingView::Link(found, _) => link && found == path,
        FindingView::Descend(sub, dir) => reach(sub, dir),
        _ => false,
    }
}

/// Whether some finding of a stack leads to a path.
pub open spec fn some_leads_to(
    stack: Seq<FindingView>,
    path: Seq<char>,
    link: bool,
    reach: Reach,
) -> bool {
    exists|i: int| 0 <= i < stack.len() && leads_to(#[trigger] stack[i], path, link, reach)
}

/// What a trail holds, or has on its stack, it still holds or has once it has come to a
/// stop, unless it stopped there or failed.
proof fn stopping_loses_nothing(t: TrailView, path: Seq<char>, link: bool, reach: Reach)
    requires
        gathered(t, path, link) || some_leads_to(t.stack, path, link, reach),
    ensures
        ({
            let (next, stop) = walk::drained(t);
            ||| gathered(next, path, link)
            ||| some_leads_to(next.stack, path, link, reach)
            ||| stop matches StopView::Descend(sub, dir) && reach(sub, dir)
            ||| stop is Failure
        }),
    decreases t.stack.len(),
{
    if t.stack.len() > 0 {
        let rest = TrailView { stack: t.stack.drop_last(), ..t };
        let next = match t.stack.last() {
            FindingView::File(found) => TrailView { found: t.found.insert(found), ..rest },
            FindingView::Link(found, warning) => TrailView {
                symlinks: t.symlinks.insert(found),
                warnings: t.warnings.push(warning),
                ..rest
            },
            FindingView::Warning(warning) => TrailView {
                warnings: t.warnings.push(warning),
                ..rest
            },
            _ => rest,
        };
        if some_leads_to(t.stack, path, link, reach) {
            let i = choose|i: int|
                0 <= i < t.stack.len() && leads_to(#[trigger] t.stack[i], path, link, reach);
            if i < rest.stack.len() {
                assert(rest.stack[i] == t.stack[i]);
                assert(some_leads_to(rest.stack, path, link, reach));
            }
        }
        match t.stack.last() {
            FindingView::Descend(_, _) => {},
            FindingView::Failure(_) => {},
            _ => {
                stopping_loses_nothing(next, path, link, reach);
            },
        }
    }
}

/// A trail that has come to a stop holds nothing that was not on its stack, and its
/// stack is what is left of that.
proof fn stopping_invents_nothing(t: TrailView)
    ensures
        ({
            let (next, stop) = walk::drained(t);
            &&& next.stack.len() <= t.stack.len()
            &&& forall|i: int| 0 <= i < next.stack.len() ==> #[trigger] next.stack[i] == t.stack[i]
            &&& forall|path: Seq<char>| #[trigger]
                next.found.contains(path) ==> t.found.contains(path) || t.stack.contains(
                    FindingView::File(path),
                )
            &&& forall|path: Seq<char>| #[trigger]
                next.symlinks.contains(path) ==> t.symlinks.contains(path) || exists|i: int|
                    0 <= i < t.stack.len() && (#[trigger] t.stack[i] matches FindingView::Link(
                        found,
                        _,
                    ) && found == path)
            &&& stop matches StopView::Descend(sub, dir) ==> t.stack.contains(
                FindingView::Descend(sub, dir),
            )
            &&& stop is Failure ==> exists|i: int|
                0 <= i < t.stack.len() && (#[trigger] t.stack[i]) is Failure
            &&& stop is End ==> next.stack.len() == 0
        }),
    decreases t.stack.len(),
{
    if t.stack.len() > 0 {
        let rest = TrailView { stack: t.stack.drop_last(), ..t };
        let last = t.stack.len() - 1;
        assert(t.stack[last] == t.stack.last());
        let next = match t.stack.last() {
            FindingView::File(found) => TrailView { found: t.found.insert(found), ..rest },
            FindingView::Link(found, warning) => TrailView {
                symlinks: t.symlinks.insert(found),
                warnings: t.warnings.push(warning),
                ..rest
            },
            FindingView::Warning(warning) => TrailView {
                warnings: t.warnings.push(warning),
                ..rest
            },
            _ => rest,
        };
        match t.stack.last() {
            FindingView::Descend(_, _) => {},
            FindingView::Failure(_) => {},
            _ => {
                stopping_invents_nothing(next);
                let (end, stop) = walk::drained(t);
                assert forall|f: FindingView| #[trigger]
                    next.stack.contains(f) implies t.stack.contains(f) by {
                    let i = choose|i: int| 0 <= i < next.stack.len() && next.stack[i] == f;
                    assert(t.stack[i] == f);
                }
                assert forall|path: Seq<char>| #[trigger]
                    end.symlinks.contains(path) implies t.symlinks.contains(path) || exists|i: int|
                    0 <= i < t.stack.len() && (#[trigger] t.stack[i] matches FindingView::Link(
                        found,
                        _,
                    ) && found == path) by {
                    if !next.symlinks.contains(path) {
                        let i = choose|i: int|
                            0 <= i < next.stack.len() && (
                            #[trigger] next.stack[i] matches FindingView::Link(found, _) && found
                                == path);
                        assert(t.stack[i] == next.stack[i]);
                    } else if !t.symlinks.contains(path) {
                        assert(t.stack[last] matches FindingView::Link(found, _) && found == path);
                    }
                }
                if stop is Failure {
                    let i = choose|i: int|
                        0 <= i < next.stack.len() && (#[trigger] next.stack[i]) is Failure;
                    assert(t.stack[i] == next.stack[i]);
                }
            },
        }
    }
}

/// A local tree: what the reading of each directory gives, by its relative path.
pub type LocalTree = spec_fn(Seq<char>) -> Seq<Result<LocalItem, Error>>;

/// Whether an entry of a directory is a file at a path, or a directory that is gone
/// into and holds one at most so many directories further down.
pub open spec fn local_way(
    tree: LocalTree,
    sub: Seq<char>,
    item: Result<LocalItem, Error>,
    path: Seq<char>,
    depth: nat,
) -> bool
    decreases depth, 0nat,
{
    match item {
        Err(_) => false,
        Ok(item) => !item.ignored && if item.is_dir {
            item.name@ != paths::STATE_DIR@ && depth > 0 && local_file(
                tree,
                paths::joined(sub, item.name@),
                path,
                (depth - 1) as nat,
            )
        } else {
            path == paths::joined(sub, item.name@)
        },
    }
}

/// Whether a local directory holds a file at a path that is not ignored, at most so
/// many directories down, none of which is ignored or a state directory.
pub open spec fn local_file(
    tree: LocalTree,
    sub: Seq<char>,
    path: Seq<char>,
    depth: nat,
) -> bool
    decreases depth, 1nat,
{
    exists|i: int|
        0 <= i < tree(sub).len() && local_way(tree, sub, #[trigger] tree(sub)[i], path, depth)
}

/// Whether a local directory holds a file at a path at any depth.
pub open spec fn holds_local(tree: LocalTree, sub: Seq<char>, path: Seq<char>) -> bool {
    exists|depth: nat| #[trigger] local_file(tree, sub, path, depth)
}

/// Whether every entry of a local tree can be read.
pub open spec fn readable(tree: LocalTree) -> bool {
    forall|sub: Seq<char>, i: int|
        0 <= i < tree(sub).len() ==> (#[trigger] tree(sub)[i]) is Ok
}

/// A walk of a local tree that has read so many directories.
pub open spec fn local_walked(start: LocalWalkView, tree: LocalTree, steps: nat) -> LocalWalkView
    decreases steps,
{
    if steps == 0 {
        start
    } else {
        let u = local_walked(start, tree, (steps - 1) as nat);
        walk::local_walk_step(u, Ok(tree(u.sub)))
    }
}

/// What lies below a local directory.
pub open spec fn local_reach(tree: LocalTree, path: Seq<char>) -> Reach {
    |sub: Seq<char>, dir: Seq<char>| holds_local(tree, sub, path)
}

/// Whether a walk of a local tree has found a path or is going to come to it.
pub open spec fn local_owed(u: LocalWalkView, tree: LocalTree, path: Seq<char>) -> bool {
    ||| u.failure is Some
    ||| u.trail.found.contains(path)
    ||| !u.done && holds_local(tree, u.sub, path)
    ||| some_leads_to(u.trail.stack, path, false, local_reach(tree, path))
}

/// Whether a walk of a local tree that started at a directory goes nowhere but below it.
pub open spec fn local_kept(
    u: LocalWalkView,
    tree: LocalTree,
    sub: Seq<char>,
    found: Set<Seq<char>>,
    path: Seq<char>,
) -> bool {
    let owned = holds_local(tree, sub, path);
    &&& u.dir == directories::local_path(u.local_root, u.sub)
    &&& u.trail.found.contains(path) ==> found.contains(path) || owned
    &&& holds_local(tree, u.sub, path) ==> owned
    &&& forall|i: int|
        0 <= i < u.trail.stack.len() ==> {
            &&& (#[trigger] u.trail.stack[i]) == FindingView::File(path) ==> owned
            &&& u.trail.stack[i] matches FindingView::Descend(below, dir) ==> {
                &&& dir == directories::local_path(u.local_root, below)
                &&& holds_local(tree, below, path) ==> owned
            }
            &&& u.trail.stack[i] is Failure ==> !readable(tree)
        }
    &&& u.done && u.failure is None ==> u.trail.stack.len() == 0
    &&& u.failure is Some ==> !readable(tree)
}

/// What a directory holds, one of its entries leads to.
proof fn some_entry_leads_on(
    local_root: Seq<char>,
    tree: LocalTree,
    sub: Seq<char>,
    path: Seq<char>,
)
    requires
        holds_local(tree, sub, path),
    ensures
        some_leads_to(
            walk::local_findings(local_root, sub, tree(sub)),
            path,
            false,
            local_reach(tree, path),
        ),
{
    let depth = choose|depth: nat| #[trigger] local_file(tree, sub, path, depth);
    let i = choose|i: int|
        0 <= i < tree(sub).len() && local_way(tree, sub, #[trigger] tree(sub)[i], path, depth);
    let findings = walk::local_findings(local_root, sub, tree(sub));
    let item = tree(sub)[i]->Ok_0;
    assert(findings[i] == walk::local_finding(
        local_root,
        sub,
        walk::item_read(tree(sub)[i]),
    ));
    if item.is_dir {
        assert(local_file(tree, paths::joined(sub, item.name@), path, (depth - 1) as nat));
        assert(holds_local(tree, paths::joined(sub, item.name@), path));
    }
    assert(leads_to(findings[i], path, false, local_reach(tree, path)));
}

/// What an entry of a directory leads to, that directory holds.
proof fn entry_stays_below(
    local_root: Seq<char>,
    tree: LocalTree,
    sub: Seq<char>,
    path: Seq<char>,
    i: int,
)
    requires
        0 <= i < tree(sub).len(),
    ensures
        ({
            let f = walk::local_findings(local_root, sub, tree(sub))[i];
            &&& leads_to(f, path, false, local_reach(tree, path)) ==> holds_local(tree, sub, path)
            &&& f matches FindingView::Descend(below, dir) ==> dir == directories::local_path(
                local_root,
                below,
            )
            &&& f is Failure ==> !readable(tree)
        }),
{
    let f = walk::local_findings(local_root, sub, tree(sub))[i];
    assert(f == walk::local_finding(local_root, sub, walk::item_read(tree(sub)[i])));
    if leads_to(f, path, false, local_reach(tree, path)) {
        match f {
            FindingView::Descend(below, _) => {
                let depth = choose|depth: nat| #[trigger] local_file(tree, below, path, depth);
                assert(local_way(tree, sub, tree(sub)[i], path, depth + 1));
                assert(local_file(tree, sub, path, depth + 1));
            },
            _ => {
                assert(local_way(tree, sub, tree(sub)[i], path, 0));
                assert(local_file(tree, sub, path, 0));
            },
        }
    }
}

proof fn local_step_covers(
    u: LocalWalkView,
    tree: LocalTree,
    sub: Seq<char>,
    found: Set<Seq<char>>,
    path: Seq<char>,
)
    requires
        local_kept(u, tree, sub, found, path),
        holds_local(tree, sub, path) || found.contains(path) ==> local_owed(u, tree, path),
    ensures
        ({
            let v = walk::local_walk_step(u, Ok(tree(u.sub)));
            &&& local_kept(v, tree, sub, found, path)
            &&& holds_local(tree, sub, path) || found.contains(path) ==> local_owed(v, tree, path)
        }),
{
    if !u.done {
        let findings = walk::local_findings(u.local_root, u.sub, tree(u.sub));
        let t = u.trail.with_findings(findings);
        let reach = local_reach(tree, path);
        let v = walk::local_walk_step(u, Ok(tree(u.sub)));
        let below = u.trail.stack.len() as int;
        let last = findings.len() - 1;
        assert forall|i: int| 0 <= i < t.stack.len() implies {
            &&& (#[trigger] t.stack[i]) == FindingView::File(path) ==> holds_local(tree, sub, path)
            &&& t.stack[i] matches FindingView::Descend(s, d) ==> {
                &&& d == directories::local_path(u.local_root, s)
                &&& holds_local(tree, s, path) ==> holds_local(tree, sub, path)
            }
            &&& t.stack[i] is Failure ==> !readable(tree)
        } by {
            if i < below {
                assert(t.stack[i] == u.trail.stack[i]);
            } else {
                let k = last - (i - below);
                assert(t.stack[i] == findings[k]);
                entry_stays_below(u.local_root, tree, u.sub, path, k);
            }
        }
        stopping_invents_nothing(t);
        if holds_local(tree, sub, path) || found.contains(path) {
            if some_leads_to(u.trail.stack, path, false, reach) {
                let i = choose|i: int|
                    0 <= i < u.trail.stack.len() && leads_to(
                        #[trigger] u.trail.stack[i],
                        path,
                        false,
                        reach,
                    );
                assert(t.stack[i] == u.trail.stack[i]);
                assert(some_leads_to(t.stack, path, false, reach));
            } else if holds_local(tree, u.sub, path) {
                some_entry_leads_on(u.local_root, tree, u.sub, path);
                let k = choose|k: int|
                    0 <= k < findings.len() && leads_to(#[trigger] findings[k], path, false, reach);
                assert(t.stack[below + last - k] == findings[k]);
                assert(some_leads_to(t.stack, path, false, reach));
            }
            if u.failure is None {
                stopping_loses_nothing(t, path, false, reach);
            }
        }
        let (next, stop) = walk::drained(t);
        assert forall|i: int| 0 <= i < v.trail.stack.len() implies {
            &&& (#[trigger] v.trail.stack[i]) == FindingView::File(path) ==> holds_local(
                tree,
                sub,
                path,
            )
            &&& v.trail.stack[i] matches FindingView::Descend(s, d) ==> {
                &&& d == directories::local_path(u.local_root, s)
                &&& holds_local(tree, s, path) ==> holds_local(tree, sub, path)
            }
            &&& v.trail.stack[i] is Failure ==> !readable(tree)
        } by {
            assert(v.trail.stack[i] == t.stack[i]);
        }
        if next.found.contains(path) && !t.found.contains(path) {
            let i = choose|i: int|
                0 <= i < t.stack.len() && t.stack[i] == FindingView::File(path);
            assert(t.stack[i] == FindingView::File(path));
        }
        if let StopView::Descend(s, d) = stop {
            let i = choose|i: int|
                0 <= i < t.stack.len() && t.stack[i] == FindingView::Descend(s, d);
            assert(t.stack[i] == FindingView::Descend(s, d));
        }
        if stop is Failure {
            let i = choose|i: int| 0 <= i < t.stack.len() && (#[trigger] t.stack[i]) is Failure;
            assert(t.stack[i] is Failure);
        }
    }
}

/// A walk of a local tree that ends without a failure has found, besides what it was
/// given, every file that lies below the directory it started at and below no ignored
/// and no state directory, at every depth, and nothing else. It fails only where an
/// entry cannot be read, and reads each directory where it lies.
pub proof fn local_walk_finds_every_file(
    local_root: Seq<char>,
    sub: Seq<char>,
    found: Set<Seq<char>>,
    tree: LocalTree,
    steps: nat,
    path: Seq<char>,
)
    ensures
        ({
            let u = local_walked(walk::local_walk_start(local_root, sub, found), tree, steps);
            &&& u.done && u.failure is None ==> (u.trail.found.contains(path)
                <==> found.contains(path) || holds_local(tree, sub, path))
            &&& u.failure is Some ==> !readable(tree)
            &&& u.dir == directories::local_path(u.local_root, u.sub)
        }),
{
    local_walk_covers(local_root, sub, found, tree, steps, path);
}

proof fn local_walk_covers(
    local_root: Seq<char>,
    sub: Seq<char>,
    found: Set<Seq<char>>,
    tree: LocalTree,
    steps: nat,
    path: Seq<char>,
)
    ensures
        ({
            let u = local_walked(walk::local_walk_start(local_root, sub, found), tree, steps);
            &&& local_kept(u, tree, sub, found, path)
            &&& holds_local(tree, sub, path) || found.contains(path) ==> local_owed(u, tree, path)
        }),
    decreases steps,
{
    if steps > 0 {
        local_walk_covers(local_root, sub, found, tree, (steps - 1) as nat, path);
        let start = walk::local_walk_start(local_root, sub, found);
        local_step_covers(local_walked(start, tree, (steps - 1) as nat), tree, sub, found, path);
    }
}

/// A remote tree: what the listing of each directory gives, by its path.
pub type RemoteTree = spec_fn(Seq<char>) -> Result<Seq<EntryView>, error::ErrorView>;

/// What the listing of a remote directory shows; nothing where it cannot be listed.
pub open spec fn shown_in(tree: RemoteTree, dir: Seq<char>) -> Seq<EntryView> {
    match tree(dir) {
        Ok(entries) => entries,
        Err(_) => Seq::empty(),
    }
}

/// Whether an entry of a remote directory is what is looked for at a path, a symlink or
/// a file, or a directory that is gone into and holds it at most so many directories
/// further down. `top` is the directory that the walk was pointed at: what is called
/// like it there is the path itself.
pub open spec fn remote_way(
    tree: RemoteTree,
    root: Seq<char>,
    sub: Seq<char>,
    dir: Seq<char>,
    top: bool,
    entry: EntryView,
    path: Seq<char>,
    link: bool,
    depth: nat,
) -> bool
    decreases depth, 0nat,
{
    if listing::dot(entry.name) {
        false
    } else if top && sub.len() > 0 && text::trim_end(entry.name) == text::trim_end(dir) {
        path == sub && link == entry.is_symlink
    } else {
        match walk::child_of(root, dir, entry.name) {
            None => false,
            Some(name) => if entry.is_dir && !entry.is_symlink {
                depth > 0 && remote_entry(
                    tree,
                    root,
                    paths::joined(sub, name),
                    paths::remote_joined(dir, name),
                    false,
                    path,
                    link,
                    (depth - 1) as nat,
                )
            } else {
                path == paths::joined(sub, name) && link == entry.is_symlink
            },
        }
    }
}

/// Whether a remote directory shows what is looked for at a path, at most so many
/// directories down.
pub open spec fn remote_entry(
    tree: RemoteTree,
    root: Seq<char>,
    sub: Seq<char>,
    dir: Seq<char>,
    top: bool,
    path: Seq<char>,
    link: bool,
    depth: nat,
) -> bool
    decreases depth, 1nat,
{
    exists|i: int|
        0 <= i < shown_in(tree, dir).len() && remote_way(
            tree,
            root,
            sub,
            dir,
            top,
            #[trigger] shown_in(tree, dir)[i],
            path,
            link,
            depth,
        )
}

/// Whether a remote directory shows what is looked for at a path at any depth.
pub open spec fn holds_remote(
    tree: RemoteTree,
    root: Seq<char>,
    sub: Seq<char>,
    dir: Seq<char>,
    top: bool,
    path: Seq<char>,
    link: bool,
) -> bool {
    exists|depth: nat| #[trigger] remote_entry(tree, root, sub, dir, top, path, link, depth)
}

/// What the server answers a walk: `sized` is whether it gives a size for the path that
/// the walk was pointed at, `parent` what the directory of that path shows.
pub open spec fn remote_answer(
    u: WalkView,
    tree: RemoteTree,
    sized: bool,
    parent: Option<Seq<EntryView>>,
) -> WalkReply {
    match u.phase {
        WalkPhase::Size => WalkReply::Size(sized),
        WalkPhase::Fallback => WalkReply::Size(sized),
        WalkPhase::Parent => WalkReply::Parent(parent),
        _ => WalkReply::Listing(tree(u.at_dir)),
    }
}

/// A walk of a remote tree that was answered so many times.
pub open spec fn remote_walked(
    start: WalkView,
    tree: RemoteTree,
    sized: bool,
    parent: Option<Seq<EntryView>>,
    steps: nat,
) -> WalkView
    decreases steps,
{
    if steps == 0 {
        start
    } else {
        let u = remote_walked(start, tree, sized, parent, (steps - 1) as nat);
        walk::walk_step(u, remote_answer(u, tree, sized, parent))
    }
}

/// What lies below a remote directory that the walk goes into.
pub open spec fn remote_reach(
    tree: RemoteTree,
    root: Seq<char>,
    path: Seq<char>,
    link: bool,
) -> Reach {
    |sub: Seq<char>, dir: Seq<char>| holds_remote(tree, root, sub, dir, false, path, link)
}

/// Whether a walk of a remote tree has gathered a path or is going to come to it.
pub open spec fn remote_owed(u: WalkView, tree: RemoteTree, path: Seq<char>, link: bool) -> bool {
    ||| gathered(u.trail, path, link)
    ||| (u.phase == WalkPhase::List || u.phase == WalkPhase::Size) && holds_remote(
        tree,
        u.root,
        u.at_sub,
        u.at_dir,
        u.top,
        path,
        link,
    )
    ||| some_leads_to(u.trail.stack, path, link, remote_reach(tree, u.root, path, link))
}

/// Whether a walk of a remote tree goes nowhere but below where it started; `owned` is
/// whether the path is held there.
pub open spec fn remote_kept(
    u: WalkView,
    tree: RemoteTree,
    path: Seq<char>,
    link: bool,
    given: bool,
    owned: bool,
) -> bool {
    &&& u.phase != WalkPhase::Parent
    &&& u.phase == WalkPhase::Size ==> u.top
    &&& gathered(u.trail, path, link) ==> given || owned
    &&& u.phase == WalkPhase::List || u.phase == WalkPhase::Size ==> (holds_remote(
        tree,
        u.root,
        u.at_sub,
        u.at_dir,
        u.top,
        path,
        link,
    ) ==> owned)
    &&& forall|i: int|
        0 <= i < u.trail.stack.len() ==> {
            &&& leads_to(
                #[trigger] u.trail.stack[i],
                path,
                link,
                remote_reach(tree, u.root, path, link),
            ) ==> owned
            &&& !(u.trail.stack[i] is Failure)
        }
    &&& u.phase == WalkPhase::Done || u.phase == WalkPhase::Fallback || u.top
        ==> u.trail.stack.len() == 0
}

proof fn some_remote_entry_leads_on(
    tree: RemoteTree,
    root: Seq<char>,
    sub: Seq<char>,
    dir: Seq<char>,
    top: bool,
    path: Seq<char>,
    link: bool,
)
    requires
        holds_remote(tree, root, sub, dir, top, path, link),
    ensures
        some_leads_to(
            walk::findings_of(root, sub, dir, top, shown_in(tree, dir)),
            path,
            link,
            remote_reach(tree, root, path, link),
        ),
{
    let depth = choose|depth: nat| #[trigger]
        remote_entry(tree, root, sub, dir, top, path, link, depth);
    let entries = shown_in(tree, dir);
    let i = choose|i: int|
        0 <= i < entries.len() && remote_way(
            tree,
            root,
            sub,
            dir,
            top,
            #[trigger] entries[i],
            path,
            link,
            depth,
        );
    let findings = walk::findings_of(root, sub, dir, top, entries);
    assert(findings[i] == walk::finding_of(root, sub, dir, top, entries[i]));
    if let FindingView::Descend(below, inner) = findings[i] {
        assert(remote_entry(tree, root, below, inner, false, path, link, (depth - 1) as nat));
        assert(holds_remote(tree, root, below, inner, false, path, link));
    }
    assert(leads_to(findings[i], path, link, remote_reach(tree, root, path, link)));
}

proof fn remote_entry_stays_below(
    tree: RemoteTree,
    root: Seq<char>,
    sub: Seq<char>,
    dir: Seq<char>,
    top: bool,
    path: Seq<char>,
    link: bool,
    i: int,
)
    requires
        0 <= i < shown_in(tree, dir).len(),
    ensures
        ({
            let f = walk::findings_of(root, sub, dir, top, shown_in(tree, dir))[i];
            &&& leads_to(f, path, link, remote_reach(tree, root, path, link)) ==> holds_remote(
                tree,
                root,
                sub,
                dir,
                top,
                path,
                link,
            )
            &&& !(f is Failure)
        }),
{
    let entries = shown_in(tree, dir);
    let f = walk::findings_of(root, sub, dir, top, entries)[i];
    assert(f == walk::finding_of(root, sub, dir, top, entries[i]));
    if leads_to(f, path, link, remote_reach(tree, root, path, link)) {
        match f {
            FindingView::Descend(below, inner) => {
                let depth = choose|depth: nat| #[trigger]
                    remote_entry(tree, root, below, inner, false, path, link, depth);
                assert(remote_way(tree, root, sub, dir, top, entries[i], path, link, depth + 1));
                assert(remote_entry(tree, root, sub, dir, top, path, link, depth + 1));
            },
            _ => {
                assert(remote_way(tree, root, sub, dir, top, entries[i], path, link, 0));
                assert(remote_entry(tree, root, sub, dir, top, path, link, 0));
            },
        }
    }
}

proof fn remote_listing_covers(
    u: WalkView,
    tree: RemoteTree,
    path: Seq<char>,
    link: bool,
    given: bool,
    owned: bool,
)
    requires
        remote_kept(u, tree, path, link, given, owned),
        u.phase == WalkPhase::List,
        given || owned ==> remote_owed(u, tree, path, link),
    ensures
        ({
            let v = walk::walk_step(u, WalkReply::Listing(tree(u.at_dir)));
            &&& remote_kept(v, tree, path, link, given, owned)
            &&& given || owned ==> remote_owed(v, tree, path, link)
            &&& v.root == u.root && v.collect == u.collect
            &&& v.top ==> u.top && v.at_dir == u.at_dir
            &&& v.failure is Some ==> u.failure is Some || (u.top && tree(u.at_dir) is Err
                && !u.collect)
        }),
{
    let v = walk::walk_step(u, WalkReply::Listing(tree(u.at_dir)));
    let entries = shown_in(tree, u.at_dir);
    let findings = walk::findings_of(u.root, u.at_sub, u.at_dir, u.top, entries);
    let reach = remote_reach(tree, u.root, path, link);
    let below = u.trail.stack.len() as int;
    let last = findings.len() - 1;
    let told = match tree(u.at_dir) {
        Ok(_) => u.trail,
        Err(e) => TrailView {
            warnings: u.trail.warnings.push(
                "warning: skipping remote dir "@ + u.at_dir + ": "@ + error::full_message(e),
            ),
            ..u.trail
        },
    };
    let t = told.with_findings(findings);
    if tree(u.at_dir) is Err {
        assert(t.stack =~= u.trail.stack);
        assert(t == told);
    }
    assert forall|i: int| 0 <= i < t.stack.len() implies {
        &&& leads_to(#[trigger] t.stack[i], path, link, reach) ==> owned
        &&& !(t.stack[i] is Failure)
    } by {
        if i < below {
            assert(t.stack[i] == u.trail.stack[i]);
        } else {
            let k = last - (i - below);
            assert(t.stack[i] == findings[k]);
            remote_entry_stays_below(tree, u.root, u.at_sub, u.at_dir, u.top, path, link, k);
        }
    }
    if given || owned {
        if some_leads_to(u.trail.stack, path, link, reach) {
            let i = choose|i: int|
                0 <= i < u.trail.stack.len() && leads_to(
                    #[trigger] u.trail.stack[i],
                    path,
                    link,
                    reach,
                );
            assert(t.stack[i] == u.trail.stack[i]);
            assert(some_leads_to(t.stack, path, link, reach));
        } else if !gathered(u.trail, path, link) {
            some_remote_entry_leads_on(tree, u.root, u.at_sub, u.at_dir, u.top, path, link);
            let k = choose|k: int|
                0 <= k < findings.len() && leads_to(#[trigger] findings[k], path, link, reach);
            assert(t.stack[below + last - k] == findings[k]);
            assert(some_leads_to(t.stack, path, link, reach));
        }
        assert(gathered(t, path, link) || some_leads_to(t.stack, path, link, reach));
        stopping_loses_nothing(t, path, link, reach);
    }
    stopping_invents_nothing(t);
    let (next, stop) = walk::drained(t);
    if stop is Failure {
        let i = choose|i: int| 0 <= i < t.stack.len() && (#[trigger] t.stack[i]) is Failure;
        assert(t.stack[i] is Failure);
    }
    if gathered(next, path, link) && !gathered(t, path, link) {
        if link {
            let i = choose|i: int|
                0 <= i < t.stack.len() && (#[trigger] t.stack[i] matches FindingView::Link(
                    found,
                    _,
                ) && found == path);
            assert(leads_to(t.stack[i], path, link, reach));
        } else {
            let i = choose|i: int| 0 <= i < t.stack.len() && t.stack[i] == FindingView::File(path);
            assert(leads_to(t.stack[i], path, link, reach));
        }
    }
    if let StopView::Descend(s, d) = stop {
        let i = choose|i: int| 0 <= i < t.stack.len() && t.stack[i] == FindingView::Descend(s, d);
        assert(leads_to(t.stack[i], path, link, reach) == holds_remote(
            tree,
            u.root,
            s,
            d,
            false,
            path,
            link,
        ));
    }
    assert forall|i: int| 0 <= i < v.trail.stack.len() implies {
        &&& leads_to(#[trigger] v.trail.stack[i], path, link, reach) ==> owned
        &&& !(v.trail.stack[i] is Failure)
    } by {
        if !(tree(u.at_dir) is Err && u.top) {
            assert(v.trail.stack[i] == t.stack[i]);
        }
    }
}

proof fn remote_walk_covers(
    start: WalkView,
    tree: RemoteTree,
    parent: Option<Seq<EntryView>>,
    steps: nat,
    path: Seq<char>,
    link: bool,
)
    requires
        start.phase == WalkPhase::List || start.phase == WalkPhase::Size,
        start.top,
        start.failure is None,
        start.trail.stack.len() == 0,
    ensures
        ({
            let u = remote_walked(start, tree, false, parent, steps);
            let given = gathered(start.trail, path, link);
            let owned = holds_remote(
                tree,
                start.root,
                start.at_sub,
                start.at_dir,
                true,
                path,
                link,
            );
            &&& remote_kept(u, tree, path, link, given, owned)
            &&& given || owned ==> remote_owed(u, tree, path, link)
            &&& u.root == start.root && u.collect == start.collect
            &&& u.top ==> u.at_dir == start.at_dir
            &&& u.failure is Some ==> tree(start.at_dir) is Err && !start.collect
        }),
    decreases steps,
{
    if steps > 0 {
        remote_walk_covers(start, tree, parent, (steps - 1) as nat, path, link);
        let u = remote_walked(start, tree, false, parent, (steps - 1) as nat);
        let given = gathered(start.trail, path, link);
        let owned = holds_remote(tree, start.root, start.at_sub, start.at_dir, true, path, link);
        if u.phase == WalkPhase::List {
            remote_listing_covers(u, tree, path, link, given, owned);
        } else {
            let v = remote_walked(start, tree, false, parent, steps);
            assert(v.trail == u.trail && v.root == u.root && v.failure == u.failure);
        }
    }
}

/// A walk of a remote tree that ends has gathered, besides what it was given, every
/// file and every symlink that the directory it was pointed at shows, at every depth of
/// directories that can be listed and are no symlinks themselves, and nothing else. Only
/// a directory that it was pointed at and that cannot be listed makes it fail.
pub proof fn remote_walk_finds_every_entry(
    root: Seq<char>,
    sub: Seq<char>,
    links: bool,
    collect: bool,
    found: Set<Seq<char>>,
    symlinks: Set<Seq<char>>,
    tree: RemoteTree,
    parent: Option<Seq<EntryView>>,
    steps: nat,
    path: Seq<char>,
)
    ensures
        ({
            let start = walk::walk_start(root, sub, links, collect, found, symlinks);
            let u = remote_walked(start, tree, false, parent, steps);
            let dir = walk::walk_dir(root, sub);
            &&& u.failure is Some ==> tree(dir) is Err && !collect
            &&& u.phase == WalkPhase::Done ==> {
                &&& u.trail.found.contains(path) <==> found.contains(path) || holds_remote(
                    tree,
                    root,
                    sub,
                    dir,
                    true,
                    path,
                    false,
                )
                &&& u.trail.symlinks.contains(path) <==> symlinks.contains(path) || holds_remote(
                    tree,
                    root,
                    sub,
                    dir,
                    true,
                    path,
                    true,
                )
            }
        }),
{
    let start = walk::walk_start(root, sub, links, collect, found, symlinks);
    remote_walk_covers(start, tree, parent, steps, path, false);
    remote_walk_covers(start, tree, parent, steps, path, true);
}

} // verus!
