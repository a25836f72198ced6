//! The rules that paths obey: how they are joined, what lies below what, which
//! ones may name an entry, and which ones are reserved.

use crate::error::Error;
use crate::error;
use crate::text;
use vstd::prelude::*;

verus! {

broadcast use vstd::seq::group_seq_axioms;

/// The directory below the local root that holds the state.
pub const STATE_DIR: &'static str = ".ferry";

/// The text of a single slash.
pub open spec fn slash() -> Seq<char> {
    seq!['/']
}

/// Whether `path` is `prefix` or lies below it, by whole segments.
pub open spec fn at_or_below(path: Seq<char>, prefix: Seq<char>) -> bool {
    path == prefix || below(path, prefix)
}

/// Whether `path` lies strictly below `prefix`, by whole segments.
pub open spec fn below(path: Seq<char>, prefix: Seq<char>) -> bool {
    (prefix + slash()).is_prefix_of(path)
}

/// Whether `path` lies strictly below `prefix`.
pub fn is_below(path: &str, prefix: &str) -> (out: bool)
    ensures
        out == below(path@, prefix@),
{
    let mut with_slash = prefix.to_owned();
    with_slash.push('/');
    assert(with_slash@ =~= prefix@ + slash());
    text::starts_with(path, &with_slash)
}

/// Whether `path` is `prefix` or lies below it.
pub fn is_at_or_below(path: &str, prefix: &str) -> (out: bool)
    ensures
        out == at_or_below(path@, prefix@),
{
    text::same(path, prefix) || is_below(path, prefix)
}

/// What lies below a path is longer than it.
pub proof fn below_is_longer(path: Seq<char>, prefix: Seq<char>)
    requires
        below(path, prefix),
    ensures
        prefix.len() < path.len(),
{
}

/// What lies below a path that lies below another lies below that one too.
pub proof fn below_is_transitive(path: Seq<char>, middle: Seq<char>, prefix: Seq<char>)
    requires
        below(path, middle),
        below(middle, prefix),
    ensures
        below(path, prefix),
{
    let outer = prefix + slash();
    let inner = middle + slash();
    assert(outer =~= path.subrange(0, outer.len() as int)) by {
        assert forall|i: int| 0 <= i < outer.len() implies outer[i] == path[i] by {
            assert(outer[i] == middle.subrange(0, outer.len() as int)[i]);
            assert(inner[i] == path.subrange(0, inner.len() as int)[i]);
        }
    }
}

/// What lies below a path comes after it in order.
pub proof fn below_comes_after(path: Seq<char>, prefix: Seq<char>)
    requires
        below(path, prefix),
    ensures
        crate::order::before(prefix, path),
{
    let rest = path.skip(prefix.len() as int);
    assert(path =~= prefix + rest) by {
        assert forall|i: int| 0 <= i < prefix.len() implies path[i] == prefix[i] by {
            assert((prefix + slash())[i] == path.subrange(0, prefix.len() as int + 1)[i]);
        }
    }
    crate::order::before_extension(prefix, rest);
}

/// The path of `name` in the relative directory `parent`, the root being empty.
pub open spec fn joined(parent: Seq<char>, name: Seq<char>) -> Seq<char> {
    if parent.len() == 0 {
        name
    } else {
        parent + slash() + name
    }
}

/// The path of `name` in the relative directory `parent`, the root being empty.
pub fn join_relative(parent: &str, name: &str) -> (out: String)
    ensures
        out@ == joined(parent@, name@),
{
    if parent.unicode_len() == 0 {
        name.to_owned()
    } else {
        let mut out = parent.to_owned();
        out.push('/');
        assert(out@ =~= parent@ + slash());
        out.append(name);
        out
    }
}

/// The remote path of `name` in `directory`: one slash between the two, however
/// many `directory` ends in.
pub open spec fn remote_joined(directory: Seq<char>, name: Seq<char>) -> Seq<char> {
    text::trim_end(directory) + slash() + name
}

/// Joins a remote directory with a name or a relative path, trimming the
/// slashes at the end of the directory.
pub fn remote_path_join(directory: &str, name: &str) -> (out: String)
    ensures
        out@ == remote_joined(directory@, name@),
{
    let mut out = text::trim_end_slashes(directory);
    out.push('/');
    assert(out@ =~= text::trim_end(directory@) + slash());
    out.append(name);
    out
}

/// A remote root without slashes at its end, the server's root staying `/`.
pub open spec fn normal_root(root: Seq<char>) -> Seq<char> {
    if text::trim_end(root).len() == 0 {
        slash()
    } else {
        text::trim_end(root)
    }
}

/// A configured remote root in its normal form; an empty one is refused.
pub open spec fn root_of(root: Seq<char>) -> Result<Seq<char>, error::ErrorView> {
    if root.len() == 0 {
        Err(error::failure("remote_root must not be empty"@))
    } else {
        Ok(normal_root(root))
    }
}

/// The normal form of a remote root.
pub fn normal_root_of(root: &str) -> (out: String)
    ensures
        out@ == normal_root(root@),
{
    let trimmed = text::trim_end_slashes(root);
    if trimmed.as_str().unicode_len() == 0 {
        let mut out = String::new();
        out.push('/');
        assert(out@ =~= slash());
        out
    } else {
        trimmed
    }
}

/// A configured remote root in its normal form; an empty one is refused.
pub fn normalize_remote_root(root: &str) -> (out: Result<String, Error>)
    ensures
        error::agrees(out, root_of(root@)),
{
    if root.unicode_len() == 0 {
        Err(Error::failure("remote_root must not be empty".to_owned()))
    } else {
        Ok(normal_root_of(root))
    }
}

/// Whether a segment names something: it is neither empty nor a dot name.
pub open spec fn names_entry(segment: Seq<char>) -> bool {
    &&& segment.len() > 0
    &&& segment != "."@
    &&& segment != ".."@
}

/// Whether a segment names something.
pub fn is_entry_name(segment: &str) -> (out: bool)
    ensures
        out == names_entry(segment@),
{
    segment.unicode_len() > 0 && !text::same(segment, ".") && !text::same(segment, "..")
}

/// Whether every segment of a path names something. Such a path is not empty
/// and neither starts nor ends with a slash.
pub open spec fn canonical(path: Seq<char>) -> bool {
    forall|i: int|
        0 <= i < text::segments(path).len() ==> names_entry(#[trigger] text::segments(path)[i])
}

/// Whether every segment of a path names something.
pub fn is_canonical(path: &str) -> (out: bool)
    ensures
        out == canonical(path@),
{
    let parts = text::split_slashes(path);
    let mut i: usize = 0;
    while i < parts.len()
        invariant
            i <= parts@.len(),
            text::views(parts@) == text::segments(path@),
            forall|k: int| 0 <= k < i ==> names_entry(#[trigger] text::segments(path@)[k]),
        decreases parts.len() - i,
    {
        assert(text::segments(path@)[i as int] == parts@[i as int]@);
        if !is_entry_name(&parts[i]) {
            return false;
        }
        i += 1;
    }
    true
}

/// The relative path that some segments make.
pub open spec fn path_to(segments: Seq<Seq<char>>) -> Seq<char>
    decreases segments.len(),
{
    if segments.len() == 0 {
        Seq::empty()
    } else {
        joined(path_to(segments.drop_last()), segments.last())
    }
}

proof fn path_to_is_not_empty(segments: Seq<Seq<char>>)
    requires
        segments.len() > 0,
        segments.last().len() > 0,
    ensures
        path_to(segments).len() > 0,
{
}

proof fn segments_rebuild(path: Seq<char>)
    requires
        forall|i: int|
            0 <= i < text::segments(path).len() - 1 ==> (#[trigger] text::segments(path)[i]).len()
                > 0,
    ensures
        path == if text::segments(path).len() == 1 {
            text::segments(path)[0]
        } else {
            path_to(text::segments(path).drop_last()) + slash() + text::segments(path).last()
        },
    decreases path.len(),
{
    if path.len() > 0 {
        let fewer = path.drop_last();
        let parts = text::segments(fewer);
        let all = text::segments(path);
        text::segments_nonempty(fewer);
        assert(path =~= fewer.push(path.last()));
        assert forall|i: int| 0 <= i < parts.len() - 1 implies (#[trigger] parts[i]).len() > 0 by {
            assert(all[i] == parts[i]);
        }
        segments_rebuild(fewer);
        if path.last() == '/' {
            assert(all.drop_last() =~= parts);
            assert(all[parts.len() - 1] == parts.last());
            if parts.len() == 1 {
                assert(parts.drop_last() =~= Seq::<Seq<char>>::empty());
                assert(path_to(parts.drop_last()) =~= Seq::<char>::empty());
            } else {
                assert(parts.drop_last().last() == parts[parts.len() - 2]);
                path_to_is_not_empty(parts.drop_last());
            }
            assert(path_to(parts) == fewer);
            assert(path =~= path_to(all.drop_last()) + slash() + all.last());
        } else {
            assert(all.drop_last() =~= parts.drop_last());
            if parts.len() == 1 {
                assert(all[0] =~= path);
            } else {
                assert(path =~= path_to(all.drop_last()) + slash() + all.last());
            }
        }
    }
}

/// A canonical path is what its segments make.
pub proof fn canonical_is_path_to(path: Seq<char>)
    requires
        canonical(path),
    ensures
        path_to(text::segments(path)) == path,
{
    let parts = text::segments(path);
    assert forall|i: int| 0 <= i < parts.len() implies (#[trigger] parts[i]).len() > 0 by {
        assert(names_entry(text::segments(path)[i]));
    }
    text::segments_nonempty(path);
    segments_rebuild(path);
    if parts.len() == 1 {
        assert(path_to(parts.drop_last()) =~= Seq::<char>::empty());
    } else {
        assert(parts.drop_last().last() == parts[parts.len() - 2]);
        path_to_is_not_empty(parts.drop_last());
    }
}

/// What is joined to a path lies below it.
pub proof fn joined_is_below(parent: Seq<char>, name: Seq<char>)
    requires
        parent.len() > 0,
    ensures
        below(joined(parent, name), parent),
{
    let path = joined(parent, name);
    assert((parent + slash()) =~= path.subrange(0, parent.len() as int + 1));
}

/// Whether a path is one that a scope may select: canonical and free of
/// backslashes.
pub open spec fn scoped(path: Seq<char>) -> bool {
    canonical(path) && !path.contains('\\')
}

/// The outcome of checking a path that a scope selects.
pub open spec fn scoped_or_error(path: Seq<char>) -> Result<(), error::ErrorView> {
    if scoped(path) {
        Ok(())
    } else {
        Err(error::failure("unsafe scoped path "@ + text::debug_text(path)))
    }
}

/// Checks a path that a scope selects.
pub fn validate_relative_path(relative: &str) -> (out: Result<(), Error>)
    ensures
        error::settles(out, scoped_or_error(relative@)),
        out matches Err(e) ==> error::plain(e@),
{
    proof {
        reveal_strlit("unsafe scoped path ");
    }
    if is_canonical(relative) && !text::contains_char(relative, '\\') {
        Ok(())
    } else {
        Err(Error::failure(text::quote_after("unsafe scoped path ", relative)))
    }
}

/// Whether a path is the state directory or lies in it.
pub open spec fn state_path(relative: Seq<char>) -> bool {
    at_or_below(relative, STATE_DIR@)
}

/// Whether a path is the state directory or lies in it.
pub fn is_state_path(relative: &str) -> (out: bool)
    ensures
        out == state_path(relative@),
{
    is_at_or_below(relative, STATE_DIR)
}

/// The last segment of a path.
pub open spec fn leaf(path: Seq<char>) -> Seq<char> {
    match text::split_last(path) {
        Some((_, name)) => name,
        None => path,
    }
}

/// The last segment of a path.
pub fn leaf_of(path: &str) -> (out: String)
    ensures
        out@ == leaf(path@),
{
    match text::rsplit_slash(path) {
        Some((_, name)) => name,
        None => path.to_owned(),
    }
}

/// What a server-supplied name says of the entry of `directory` that it stands
/// for: a bare name is taken as it is, an absolute path without the directory
/// it must start with.
pub open spec fn supplied_name(directory: Seq<char>, supplied: Seq<char>) -> Seq<char> {
    if !supplied.contains('/') && !supplied.contains('\\') {
        supplied
    } else if slash().is_prefix_of(supplied) {
        match text::stripped(supplied, remote_joined(directory, Seq::empty())) {
            Some(rest) => rest,
            None => Seq::empty(),
        }
    } else {
        Seq::empty()
    }
}

/// Whether a name can stand for a direct child of a directory.
pub open spec fn child(name: Seq<char>) -> bool {
    names_entry(name) && !name.contains('/') && !name.contains('\\')
}

/// The direct child of `directory` that a server-supplied name stands for;
/// a name with a control character, or one that denotes anything but a direct
/// child, is refused.
pub open spec fn child_or_error(directory: Seq<char>, supplied: Seq<char>) -> Result<
    Seq<char>,
    error::ErrorView,
> {
    let name = supplied_name(directory, supplied);
    if text::has_control(supplied) || !child(name) {
        Err(error::failure("unsafe remote entry in "@ + text::debug_text(directory)))
    } else {
        Ok(name)
    }
}

/// The name that `supplied_name` describes.
fn supplied_name_of(directory: &str, supplied: &str) -> (out: String)
    ensures
        out@ == supplied_name(directory@, supplied@),
{
    if !text::contains_char(supplied, '/') && !text::contains_char(supplied, '\\') {
        supplied.to_owned()
    } else {
        let mut root = String::new();
        assert(root@ =~= Seq::<char>::empty());
        let prefix = remote_path_join(directory, &root);
        root.push('/');
        assert(root@ =~= slash());
        if text::starts_with(supplied, &root) {
            match text::strip_prefix(supplied, &prefix) {
                Some(rest) => rest,
                None => {
                    let none = String::new();
                    assert(none@ =~= Seq::<char>::empty());
                    none
                },
            }
        } else {
            let none = String::new();
            assert(none@ =~= Seq::<char>::empty());
            none
        }
    }
}

/// Whether a name can stand for a direct child of a directory.
pub fn is_child(name: &str) -> (out: bool)
    ensures
        out == child(name@),
{
    is_entry_name(name) && !text::contains_char(name, '/') && !text::contains_char(name, '\\')
}

/// The direct child of `directory` that a server-supplied name stands for.
pub fn strict_remote_child_name(directory: &str, supplied: &str) -> (out: Result<String, Error>)
    ensures
        error::agrees(out, child_or_error(directory@, supplied@)),
        out matches Err(e) ==> error::plain(e@),
{
    proof {
        reveal_strlit("unsafe remote entry in ");
    }
    let name = supplied_name_of(directory, supplied);
    if text::holds_control(supplied) || !is_child(&name) {
        Err(Error::failure(text::quote_after("unsafe remote entry in ", directory)))
    } else {
        Ok(name)
    }
}

/// Whether a path is the normal remote root or lies below it.
pub open spec fn under_remote_root(root: Seq<char>, path: Seq<char>) -> bool {
    root == slash() || at_or_below(path, root)
}

/// Whether a path is the normal remote root or lies below it.
pub fn is_under_remote_root(root: &str, path: &str) -> (out: bool)
    ensures
        out == under_remote_root(root@, path@),
{
    let mut server_root = String::new();
    server_root.push('/');
    assert(server_root@ =~= slash());
    text::same(root, &server_root) || is_at_or_below(path, root)
}

/// The path of a destination below the normal remote root, or why it is refused.
pub open spec fn destination_of(root: Seq<char>, path: Seq<char>) -> Result<
    Seq<char>,
    error::ErrorView,
> {
    let prefix = if root == slash() {
        slash()
    } else {
        root + slash()
    };
    if text::has_control(path) || path.contains('\\') || slash().is_suffix_of(path) {
        Err(error::failure("unsafe remote destination"@))
    } else {
        match text::stripped(path, prefix) {
            None => Err(error::failure("remote destination is outside configured remote root"@)),
            Some(relative) => if canonical(relative) {
                Ok(relative)
            } else {
                Err(error::failure("unsafe remote destination"@))
            },
        }
    }
}

/// Whether a path ends with a slash.
fn ends_with_slash(path: &str) -> (out: bool)
    ensures
        out == slash().is_suffix_of(path@),
{
    let chars = text::chars_of(path);
    if chars.len() == 0 {
        false
    } else {
        let last: char = chars[chars.len() - 1];
        assert(path@.subrange(path@.len() - 1, path@.len() as int) =~= seq![last]);
        assert(seq![last][0] == last);
        assert(slash()[0] == '/');
        last == '/'
    }
}

/// The path of a destination below the normal remote root. A path with control
/// characters, backslashes or segments that name nothing is refused, and so is
/// one outside the root.
pub fn relative_remote_destination(root: &str, path: &str) -> (out: Result<String, Error>)
    ensures
        error::agrees(out, destination_of(root@, path@)),
{
    if text::holds_control(path) || text::contains_char(path, '\\') || ends_with_slash(path) {
        return Err(Error::failure("unsafe remote destination".to_owned()));
    }
    let mut server_root = String::new();
    server_root.push('/');
    assert(server_root@ =~= slash());
    let prefix = if text::same(root, &server_root) {
        server_root
    } else {
        text::cat(root, &server_root)
    };
    match text::strip_prefix(path, &prefix) {
        None => Err(
            Error::failure("remote destination is outside configured remote root".to_owned()),
        ),
        Some(relative) => if is_canonical(&relative) {
            Ok(relative)
        } else {
            Err(Error::failure("unsafe remote destination".to_owned()))
        },
    }
}

/// Whether a path starts like a drive of another system: a letter and a colon.
pub open spec fn drive_prefixed(path: Seq<char>) -> bool {
    &&& path.len() >= 2
    &&& path[1] == ':'
    &&& 'a' <= path[0] <= 'z' || 'A' <= path[0] <= 'Z'
}

/// Whether a path may be a key of the state.
pub open spec fn state_key(path: Seq<char>) -> bool {
    &&& canonical(path)
    &&& !path.contains('\\')
    &&& !text::has_control(path)
    &&& !drive_prefixed(path)
}

/// Whether a path starts like a drive of another system.
pub fn is_drive_prefixed(path: &str) -> (out: bool)
    ensures
        out == drive_prefixed(path@),
{
    let chars = text::chars_of(path);
    if chars.len() < 2 {
        return false;
    }
    let first: char = chars[0];
    chars[1] == ':' && (('a' <= first && first <= 'z') || ('A' <= first && first <= 'Z'))
}

/// Checks a key of the state.
pub fn validate_state_path_key(path: &str) -> (out: Result<(), Error>)
    ensures
        error::settles(
            out,
            if state_key(path@) {
                Ok(())
            } else {
                Err(error::failure("state contains unsafe path key"@))
            },
        ),
{
    if is_canonical(path) && !text::contains_char(path, '\\') && !text::holds_control(path)
        && !is_drive_prefixed(path) {
        Ok(())
    } else {
        Err(Error::failure("state contains unsafe path key".to_owned()))
    }
}

proof fn canonical_ends_in_a_name(path: Seq<char>)
    requires
        canonical(path),
    ensures
        path.len() > 0,
        path.last() != '/',
{
    let parts = text::segments(path);
    text::segments_nonempty(path);
    assert(names_entry(parts[parts.len() - 1]));
    assert(parts.last().len() > 0);
}

/// What is joined to a normal remote root is found below it again, and what is found
/// below it leads back when it is joined. The path must be one that a destination may
/// have: without control characters and backslashes.
pub proof fn remote_join_and_destination_are_inverse(
    root: Seq<char>,
    relative: Seq<char>,
    path: Seq<char>,
)
    requires
        root == normal_root(root),
    ensures
        canonical(relative) && !text::has_control(remote_joined(root, relative)) && !remote_joined(
            root,
            relative,
        ).contains('\\') ==> destination_of(root, remote_joined(root, relative)) == Ok::<
            Seq<char>,
            error::ErrorView,
        >(relative),
        destination_of(root, path) matches Ok(found) ==> remote_joined(root, found) == path,
{
    let prefix = if root == slash() {
        slash()
    } else {
        root + slash()
    };
    text::trim_end_is_trimmed(root);
    assert(text::trim_end(slash()) =~= Seq::<char>::empty()) by {
        reveal_with_fuel(text::trim_end, 2);
        assert(slash().drop_last() =~= Seq::<char>::empty());
    }
    assert(remote_joined(root, relative) =~= prefix + relative);
    let whole = prefix + relative;
    assert(whole.subrange(0, prefix.len() as int) =~= prefix);
    assert(whole.skip(prefix.len() as int) =~= relative);
    if canonical(relative) {
        canonical_ends_in_a_name(relative);
        if slash().is_suffix_of(whole) {
            assert(whole.subrange(whole.len() - 1, whole.len() as int)[0] == '/');
            assert(whole.last() == relative.last());
        }
    }
    if let Ok(found) = destination_of(root, path) {
        assert(path =~= prefix + found) by {
            assert forall|i: int| 0 <= i < prefix.len() implies path[i] == prefix[i] by {
                assert(path.subrange(0, prefix.len() as int)[i] == prefix[i]);
            }
        }
        assert(remote_joined(root, found) =~= prefix + found);
    }
}

/// A path is at or below another exactly where it is that path, or starts with it
/// and goes on with a slash.
pub proof fn below_is_by_whole_segments(path: Seq<char>, prefix: Seq<char>)
    ensures
        at_or_below(path, prefix) <==> path == prefix || (path.len() > prefix.len() && path[
            prefix.len() as int] == '/' && path.take(prefix.len() as int) == prefix),
        below(path, prefix) <==> at_or_below(path, prefix) && path != prefix,
{
    let whole = prefix + slash();
    if below(path, prefix) {
        assert(path.subrange(0, whole.len() as int) =~= whole);
        assert(path[prefix.len() as int] == whole[prefix.len() as int]);
        assert forall|i: int| 0 <= i < prefix.len() implies path[i] == prefix[i] by {
            assert(path.subrange(0, whole.len() as int)[i] == whole[i]);
        }
        assert(path.take(prefix.len() as int) =~= prefix);
    } else if path.len() > prefix.len() && path[prefix.len() as int] == '/' && path.take(
        prefix.len() as int,
    ) == prefix {
        assert forall|i: int| 0 <= i < prefix.len() implies path[i] == prefix[i] by {
            assert(path.take(prefix.len() as int)[i] == prefix[i]);
        }
        assert(path.subrange(0, whole.len() as int) =~= whole);
    }
}

/// The leaf of a path has no slash, and is all that follows the last one.
pub proof fn leaf_follows_the_last_slash(path: Seq<char>)
    ensures
        !leaf(path).contains('/'),
        leaf(path) == path || exists|parent: Seq<char>|
            path == #[trigger] (parent + slash()) + leaf(path),
        !path.contains('/') ==> leaf(path) == path,
{
    text::last_slash_bounds(path);
    if let Some(at) = text::last_slash(path) {
        let parent = path.take(at);
        assert(path =~= (parent + slash()) + leaf(path));
    }
}

/// A name from a listing is taken exactly where it is the name of a child without
/// a control character, bare or behind the directory that is listed.
pub proof fn listed_name_is_a_child(
    directory: Seq<char>,
    supplied: Seq<char>,
    name: Seq<char>,
)
    ensures
        child_or_error(directory, supplied) == Ok::<Seq<char>, error::ErrorView>(name) <==> {
            &&& !text::has_control(supplied)
            &&& child(name)
            &&& supplied == name || (slash().is_prefix_of(supplied) && supplied == remote_joined(
                directory,
                name,
            ))
        },
        child_or_error(directory, supplied) matches Ok(found) ==> names_entry(found)
            && !found.contains('/') && !found.contains('\\'),
{
    let prefix = remote_joined(directory, Seq::empty());
    assert(prefix =~= text::trim_end(directory) + slash());
    let whole = remote_joined(directory, name);
    assert(whole =~= prefix + name);
    assert(whole[text::trim_end(directory).len() as int] == '/');
    assert(whole.contains('/'));
    assert(whole.subrange(0, prefix.len() as int) =~= prefix);
    assert(whole.skip(prefix.len() as int) =~= name);
    if let Some(rest) = text::stripped(supplied, prefix) {
        assert(supplied =~= prefix + rest) by {
            assert forall|i: int| 0 <= i < prefix.len() implies supplied[i] == prefix[i] by {
                assert(supplied.subrange(0, prefix.len() as int)[i] == prefix[i]);
            }
        }
    }
}

/// A root that is normal stays as it is, ends in no slash unless it is the root of
/// the server, and what is joined to a root is joined to its normal form.
pub proof fn normal_root_ends_in_no_slash(root: Seq<char>, name: Seq<char>)
    ensures
        normal_root(root) == slash() || (normal_root(root).len() > 0 && normal_root(root).last()
            != '/'),
        normal_root(normal_root(root)) == normal_root(root),
        remote_joined(normal_root(root), name) == remote_joined(root, name),
        root.len() > 0 && root.last() != '/' ==> normal_root(root) == root,
        root_of(root) is Err <==> root.len() == 0,
        root.len() > 0 ==> root_of(root) == Ok::<Seq<char>, error::ErrorView>(normal_root(root)),
{
    text::trim_end_is_trimmed(root);
    let trimmed = text::trim_end(root);
    assert(text::trim_end(slash()) =~= Seq::<char>::empty()) by {
        reveal_with_fuel(text::trim_end, 2);
        assert(slash().drop_last() =~= Seq::<char>::empty());
    }
    if trimmed.len() > 0 {
        assert(text::trim_end(trimmed) == trimmed);
    }
}

/// A path can be a scope exactly where every segment of it names something and it
/// holds no backslash, and a key of the state where moreover it holds no control
/// character and does not start with a drive.
pub proof fn safe_paths_hold_nothing_unsafe(path: Seq<char>)
    ensures
        scoped(path) <==> !path.contains('\\') && forall|i: int|
            0 <= i < text::segments(path).len() ==> {
                let segment = #[trigger] text::segments(path)[i];
                segment.len() > 0 && segment != "."@ && segment != ".."@
            },
        scoped_or_error(path) is Ok <==> scoped(path),
        state_key(path) <==> scoped(path) && !text::has_control(path) && !(path.len() >= 2
            && path[1] == ':' && ('a' <= path[0] <= 'z' || 'A' <= path[0] <= 'Z')),
        state_path(path) <==> path == ".ferry"@ || below(path, ".ferry"@),
{
}

} // verus!
