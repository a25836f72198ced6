//! The paths that the unscoped commands work on.

use crate::error::Error;
use crate::error;
use crate::inventory;
use crate::order::PathSet;
use crate::paths;
use crate::platform::Platform;
use crate::platform;
use crate::sync::outcome::OutputLine;
use crate::sync::outcome;
use crate::text;
use crate::walk::CanonicalPaths;
use crate::walk;
use vstd::prelude::*;

verus! {

broadcast use vstd::seq::group_seq_axioms;

/// The path that an argument of a pull names on a machine: an absolute one below the
/// local root is taken by where it lies there, any other absolute one from the remote
/// root.
pub open spec fn pull_argument_on(
    platform: Platform,
    local_root: Seq<char>,
    input: Seq<char>,
    located: Result<(Seq<char>, Seq<char>), error::ErrorView>,
) -> Result<Seq<char>, error::ErrorView> {
    if platform::absolute(platform, input) {
        match walk::argument_on(platform, local_root, input, located) {
            Ok(rel) => Ok(rel),
            Err(_) => walk::relative_on(platform, text::trim_start(input)),
        }
    } else {
        walk::relative_on(platform, input)
    }
}

/// The path that an argument of a pull names where slashes separate names.
pub open spec fn pull_argument(
    local_root: Seq<char>,
    input: Seq<char>,
    located: Result<(Seq<char>, Seq<char>), error::ErrorView>,
) -> Result<Seq<char>, error::ErrorView> {
    pull_argument_on(Platform::Slashes, local_root, input, located)
}

/// The path that an argument of a pull names on a machine; `located` is read only of
/// an absolute one.
pub fn normalize_pull_arg_on(
    platform: Platform,
    local_root: &str,
    input: &str,
    located: Result<CanonicalPaths, Error>,
) -> (out: Result<String, Error>)
    ensures
        error::agrees(
            out,
            pull_argument_on(platform, local_root@, input@, walk::located_at(located)),
        ),
{
    if platform::is_absolute(platform, input) {
        match walk::safe_arg_on(platform, local_root, input, located) {
            Ok(rel) => Ok(rel),
            Err(_) => walk::safe_rel_on(platform, &text::trim_start_slashes(input)),
        }
    } else {
        walk::safe_rel_on(platform, input)
    }
}

/// The path that an argument of a pull names where slashes separate names.
pub fn normalize_pull_arg(
    local_root: &str,
    input: &str,
    located: Result<CanonicalPaths, Error>,
) -> (out: Result<String, Error>)
    ensures
        error::agrees(out, pull_argument(local_root@, input@, walk::located_at(located))),
{
    normalize_pull_arg_on(Platform::Slashes, local_root, input, located)
}

/// The set of some paths.
pub open spec fn set_of(keys: Seq<Seq<char>>) -> Set<Seq<char>> {
    keys.to_set()
}

/// Adds the paths of a set to another.
fn add_all(out: &mut PathSet, more: &PathSet)
    requires
        old(out).wf(),
        more.wf(),
    ensures
        final(out).wf(),
        final(out)@ == old(out)@.union(more@),
{
    proof {
        more.facts();
    }
    let mut i: usize = 0;
    assert(out@.union(set_of(more.keys().take(0))) =~= out@);
    while i < more.len()
        invariant
            i <= more.keys().len(),
            out.wf(),
            more.wf(),
            out@ == old(out)@.union(set_of(more.keys().take(i as int))),
        decreases more.keys().len() - i,
    {
        let ghost keys = more.keys();
        out.insert(more.key(i).clone());
        proof {
            assert(keys.take(i + 1) =~= keys.take(i as int).push(keys[i as int]));
            pushed_set(keys.take(i as int), keys[i as int]);
            assert(out@ =~= old(out)@.union(set_of(keys.take(i + 1))));
        }
        i += 1;
    }
    proof {
        assert(more.keys().take(i as int) =~= more.keys());
        assert(set_of(more.keys()) =~= more@);
    }
}

proof fn pushed_set(keys: Seq<Seq<char>>, key: Seq<char>)
    ensures
        set_of(keys.push(key)) == set_of(keys).insert(key),
{
    let more = keys.push(key);
    assert forall|k: Seq<char>| set_of(more).contains(k) == set_of(keys).insert(key).contains(k) by {
        if keys.contains(k) {
            let i = choose|i: int| 0 <= i < keys.len() && keys[i] == k;
            assert(more[i] == k);
        }
        if k == key {
            assert(more[keys.len() as int] == k);
        }
        if more.contains(k) && k != key {
            let i = choose|i: int| 0 <= i < more.len() && more[i] == k;
            assert(keys[i] == k);
        }
    }
    assert(set_of(more) =~= set_of(keys).insert(key));
}

/// Every path that is known of from either side or from the state.
pub fn all_targets(local: &PathSet, remote: &PathSet, keys: &Vec<String>) -> (out: PathSet)
    requires
        local.wf(),
        remote.wf(),
    ensures
        out.wf(),
        out@ == local@.union(remote@).union(set_of(text::views(keys@))),
{
    let ghost all = text::views(keys@);
    let mut out = PathSet::new();
    add_all(&mut out, local);
    add_all(&mut out, remote);
    let ghost base = local@.union(remote@);
    assert(out@ =~= base);
    let mut i: usize = 0;
    assert(base.union(set_of(all.take(0))) =~= base);
    while i < keys.len()
        invariant
            i <= keys@.len(),
            out.wf(),
            all == text::views(keys@),
            out@ == base.union(set_of(all.take(i as int))),
        decreases keys.len() - i,
    {
        out.insert(keys[i].clone());
        proof {
            assert(all[i as int] == keys@[i as int]@);
            assert(all.take(i + 1) =~= all.take(i as int).push(all[i as int]));
            pushed_set(all.take(i as int), all[i as int]);
            assert(out@ =~= base.union(set_of(all.take(i + 1))));
        }
        i += 1;
    }
    assert(all.take(i as int) =~= all);
    out
}

/// Those of some paths that are not marked.
pub open spec fn unmarked(keys: Seq<Seq<char>>, ignored: Seq<bool>) -> Seq<Seq<char>>
    decreases keys.len(),
{
    if keys.len() == 0 {
        Seq::empty()
    } else {
        let before = unmarked(keys.drop_last(), ignored);
        if inventory::marked(ignored, keys.len() - 1) {
            before
        } else {
            before.push(keys.last())
        }
    }
}

/// The paths of a set that are not ignored, in order; `ignored` marks those that
/// are.
pub fn keep_targets(all: &PathSet, ignored: &Vec<bool>) -> (out: Vec<String>)
    requires
        all.wf(),
    ensures
        text::views(out@) == unmarked(all.keys(), ignored@),
{
    let ghost keys = all.keys();
    let mut out: Vec<String> = Vec::new();
    let mut i: usize = 0;
    assert(text::views(out@) =~= Seq::<Seq<char>>::empty());
    assert(keys.take(0) =~= Seq::<Seq<char>>::empty());
    while i < all.len()
        invariant
            i <= keys.len(),
            all.wf(),
            keys == all.keys(),
            text::views(out@) == unmarked(keys.take(i as int), ignored@),
        decreases keys.len() - i,
    {
        let ghost before = text::views(out@);
        assert(keys.take(i + 1).drop_last() =~= keys.take(i as int));
        assert(keys.take(i + 1).last() == keys[i as int]);
        let is_ignored = i < ignored.len() && ignored[i];
        if !is_ignored {
            out.push(all.key(i).clone());
            assert(text::views(out@) =~= before.push(keys[i as int]));
        }
        i += 1;
    }
    assert(keys.take(i as int) =~= keys);
    out
}

/// The paths that an argument of a pull stands for: it, and what lies below it, as
/// far as some side holds them.
pub open spec fn argument_paths(
    rel: Seq<char>,
    local: Set<Seq<char>>,
    remote: Set<Seq<char>>,
) -> Set<Seq<char>> {
    local.union(remote).filter(|path: Seq<char>| paths::at_or_below(path, rel))
}

/// Adds those paths of a set that an argument of a pull stands for to another.
fn add_below(out: &mut PathSet, rel: &str, from: &PathSet)
    requires
        old(out).wf(),
        from.wf(),
    ensures
        final(out).wf(),
        final(out)@ == old(out)@.union(
            from@.filter(|path: Seq<char>| paths::at_or_below(path, rel@)),
        ),
{
    proof {
        from.facts();
    }
    let ghost keys = from.keys();
    let ghost below = |path: Seq<char>| paths::at_or_below(path, rel@);
    let mut i: usize = 0;
    assert(out@.union(set_of(keys.take(0)).filter(below)) =~= out@);
    while i < from.len()
        invariant
            i <= keys.len(),
            out.wf(),
            from.wf(),
            keys == from.keys(),
            below == (|path: Seq<char>| paths::at_or_below(path, rel@)),
            out@ == old(out)@.union(set_of(keys.take(i as int)).filter(below)),
        decreases keys.len() - i,
    {
        let path = from.key(i);
        proof {
            assert(keys.take(i + 1) =~= keys.take(i as int).push(keys[i as int]));
            pushed_set(keys.take(i as int), keys[i as int]);
        }
        if paths::is_at_or_below(path, rel) {
            out.insert(path.clone());
        }
        assert(out@ =~= old(out)@.union(set_of(keys.take(i + 1)).filter(below)));
        i += 1;
    }
    proof {
        assert(keys.take(i as int) =~= keys);
        assert(set_of(keys) =~= from@);
    }
}

/// The paths that an argument of a pull stands for.
pub fn pull_candidates(rel: &str, local: &PathSet, remote: &PathSet) -> (out: PathSet)
    requires
        local.wf(),
        remote.wf(),
    ensures
        out.wf(),
        out@ == argument_paths(rel@, local@, remote@),
{
    let mut out = PathSet::new();
    add_below(&mut out, rel, local);
    add_below(&mut out, rel, remote);
    assert(out@ =~= argument_paths(rel@, local@, remote@));
    out
}

/// Adds those of some paths that are not ignored to the targets.
pub fn add_targets(targets: &mut PathSet, candidates: &PathSet, ignored: &Vec<bool>)
    requires
        old(targets).wf(),
        candidates.wf(),
    ensures
        final(targets).wf(),
        final(targets)@ == old(targets)@.union(set_of(unmarked(candidates.keys(), ignored@))),
{
    let kept = keep_targets(candidates, ignored);
    let ghost all = text::views(kept@);
    let mut i: usize = 0;
    assert(targets@.union(set_of(all.take(0))) =~= targets@);
    while i < kept.len()
        invariant
            i <= kept@.len(),
            targets.wf(),
            all == text::views(kept@),
            targets@ == old(targets)@.union(set_of(all.take(i as int))),
        decreases kept.len() - i,
    {
        targets.insert(kept[i].clone());
        proof {
            assert(all[i as int] == kept@[i as int]@);
            assert(all.take(i + 1) =~= all.take(i as int).push(all[i as int]));
            pushed_set(all.take(i as int), all[i as int]);
            assert(targets@ =~= old(targets)@.union(set_of(all.take(i + 1))));
        }
        i += 1;
    }
    assert(all.take(i as int) =~= all);
}

/// Takes a local file that an argument names. It counts if it is not ignored and
/// was not known before.
pub fn add_local_file(found: &mut PathSet, rel: &str, ignored: bool) -> (out: usize)
    requires
        old(found).wf(),
    ensures
        final(found).wf(),
        final(found)@ == if ignored {
            old(found)@
        } else {
            old(found)@.insert(rel@)
        },
        out == if ignored || old(found)@.contains(rel@) {
            0
        } else {
            1usize
        },
{
    if ignored {
        return 0;
    }
    if found.contains(rel) {
        assert(found@.insert(rel@) =~= found@);
        return 0;
    }
    found.insert(rel.to_owned());
    1
}

/// The line of an argument that neither side holds.
pub fn nothing_found(rel: &str) -> (out: OutputLine)
    ensures
        out@ == outcome::noted("skip (not on local or remote): "@ + rel@),
{
    outcome::note(text::cat("skip (not on local or remote): ", rel))
}

/// An argument of a pull stands for exactly those paths, held by some side, that it
/// names itself or that lie below it by a slash.
pub proof fn argument_stands_for_what_lies_below_it(
    rel: Seq<char>,
    local: Set<Seq<char>>,
    remote: Set<Seq<char>>,
    path: Seq<char>,
)
    ensures
        argument_paths(rel, local, remote).contains(path) <==> {
            &&& local.contains(path) || remote.contains(path)
            &&& path == rel || (rel + seq!['/']).is_prefix_of(path)
        },
{
    assert(paths::slash() =~= seq!['/']);
}

/// An absolute argument of a pull that does not lie below the local root is taken from
/// the remote root, and one that does, as well as any relative one, as a push takes it.
pub proof fn pull_argument_falls_back_to_the_remote_root(
    platform: Platform,
    local_root: Seq<char>,
    input: Seq<char>,
    located: Result<(Seq<char>, Seq<char>), error::ErrorView>,
)
    ensures
        ({
            let pulled = pull_argument_on(platform, local_root, input, located);
            let pushed = walk::argument_on(platform, local_root, input, located);
            &&& pushed is Ok ==> pulled == pushed
            &&& !platform::absolute(platform, input) ==> pulled == pushed
            &&& platform::absolute(platform, input) && pushed is Err ==> pulled
                == walk::relative_on(platform, text::trim_start(input))
        }),
{
}

} // verus!
