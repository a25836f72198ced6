//! Local paths as text with slashes: how they are joined, what their last name is
//! and what directory holds them. Empty segments and dots between slashes say
//! nothing, as the file system takes them. A machine that writes its paths otherwise
//! has them rewritten first, by `platform`.

use crate::paths;
use crate::text;
use vstd::prelude::*;

verus! {

broadcast use vstd::seq::group_seq_axioms;

/// A path reached from another one: a path that starts at the root stands alone,
/// any other is put behind the first, with a slash between the two where there is
/// none.
pub open spec fn joined(base: Seq<char>, path: Seq<char>) -> Seq<char> {
    if paths::slash().is_prefix_of(path) {
        path
    } else if base.len() == 0 || base.last() == '/' {
        base + path
    } else {
        base + paths::slash() + path
    }
}

/// Joins two local paths.
pub fn join(base: &str, path: &str) -> (out: String)
    ensures
        out@ == joined(base@, path@),
{
    proof {
        reveal_strlit("/");
        assert("/"@ =~= paths::slash());
    }
    if text::starts_with(path, "/") {
        return path.to_owned();
    }
    let chars = text::chars_of(base);
    let mut out = base.to_owned();
    if chars.len() > 0 && chars[chars.len() - 1] != '/' {
        out.push('/');
        assert(out@ =~= base@ + paths::slash());
    }
    out.append(path);
    out
}

/// How many characters of a path come before its names: the slash of a path that
/// starts at the root, or the dot of one that starts at the current directory.
pub open spec fn head(path: Seq<char>) -> int {
    if path.len() > 0 && path[0] == '/' {
        1
    } else if path.len() > 0 && path[0] == '.' && (path.len() == 1 || path[1] == '/') {
        1
    } else {
        0
    }
}

/// The last segment behind the head of a path.
pub open spec fn last_segment(path: Seq<char>) -> Seq<char> {
    paths::leaf(path.skip(head(path)))
}

/// A path without the last segment behind its head and the slash before that.
pub open spec fn without_last(path: Seq<char>) -> Seq<char> {
    match text::split_last(path.skip(head(path))) {
        Some((before, _)) => path.take(head(path) + before.len() as int),
        None => path.take(head(path)),
    }
}

/// Whether there is nothing behind the head of a path.
pub open spec fn is_head(path: Seq<char>) -> bool {
    path.len() <= head(path)
}

/// Whether a segment says nothing.
pub open spec fn says_nothing(segment: Seq<char>) -> bool {
    segment.len() == 0 || segment == seq!['.']
}

/// A path without the segments at its end that say nothing.
pub open spec fn tidied(path: Seq<char>) -> Seq<char>
    decreases path.len(),
{
    if is_head(path) || !says_nothing(last_segment(path)) {
        path
    } else {
        proof {
            without_last_is_shorter(path);
        }
        tidied(without_last(path))
    }
}

/// The last name of a path; a path that ends in two dots has none, nor has one
/// that is nothing but its head.
pub open spec fn file_name(path: Seq<char>) -> Option<Seq<char>> {
    let tidy = tidied(path);
    if is_head(tidy) || last_segment(tidy) == seq!['.', '.'] {
        None
    } else {
        Some(last_segment(tidy))
    }
}

/// The directory that a path names something in: neither the root nor the empty
/// path is in one.
pub open spec fn parent(path: Seq<char>) -> Option<Seq<char>> {
    let tidy = tidied(path);
    if !is_head(tidy) {
        Some(tidied(without_last(tidy)))
    } else if tidy == seq!['.'] {
        Some(Seq::empty())
    } else {
        None
    }
}

/// A path is shorter without its last segment.
pub proof fn without_last_is_shorter(path: Seq<char>)
    requires
        !is_head(path),
    ensures
        without_last(path).len() < path.len(),
{
    text::last_slash_bounds(path.skip(head(path)));
}

proof fn tidied_is_no_longer(path: Seq<char>)
    ensures
        tidied(path).len() <= path.len(),
    decreases path.len(),
{
    if !is_head(path) && says_nothing(last_segment(path)) {
        without_last_is_shorter(path);
        tidied_is_no_longer(without_last(path));
    }
}

/// A path is longer than the directory that it names something in.
pub proof fn parent_is_shorter(path: Seq<char>)
    ensures
        parent(path) matches Some(above) ==> above.len() < path.len(),
{
    let tidy = tidied(path);
    tidied_is_no_longer(path);
    if !is_head(tidy) {
        without_last_is_shorter(tidy);
        tidied_is_no_longer(without_last(tidy));
    }
}

/// The last segment of a tidied path says something.
pub proof fn tidied_says_something(path: Seq<char>)
    ensures
        is_head(tidied(path)) || !says_nothing(last_segment(tidied(path))),
    decreases path.len(),
{
    if !is_head(path) && says_nothing(last_segment(path)) {
        without_last_is_shorter(path);
        tidied_says_something(without_last(path));
    }
}

/// The directories above a path, the nearest one first.
pub open spec fn ancestors(path: Seq<char>) -> Seq<Seq<char>>
    decreases path.len(),
{
    proof {
        parent_is_shorter(path);
    }
    match parent(path) {
        Some(above) => if above.len() == 0 {
            Seq::empty()
        } else {
            seq![above] + ancestors(above)
        },
        None => Seq::empty(),
    }
}

fn head_of(chars: &Vec<char>) -> (out: usize)
    ensures
        out == head(chars@),
        out <= chars@.len(),
{
    let total: usize = chars.len();
    if total > 0 && chars[0] == '/' {
        1
    } else if total > 0 && chars[0] == '.' && (total == 1 || chars[1] == '/') {
        1
    } else {
        0
    }
}

/// A path without its last segment, and that segment; nothing where the path is
/// nothing but its head.
fn split_segment(path: &str) -> (out: Option<(String, String)>)
    ensures
        match out {
            None => is_head(path@),
            Some((before, segment)) => {
                &&& !is_head(path@)
                &&& before@ == without_last(path@)
                &&& segment@ == last_segment(path@)
                &&& before@.len() < path@.len()
            },
        },
{
    let chars = text::chars_of(path);
    let start: usize = head_of(&chars);
    if chars.len() <= start {
        return None;
    }
    let total: usize = chars.len();
    let body = text::string_of(&chars, start, total);
    assert(body@ =~= path@.skip(head(path@)));
    proof {
        without_last_is_shorter(path@);
        text::last_slash_bounds(body@);
    }
    match text::rsplit_slash(&body) {
        Some((before, segment)) => {
            let kept: usize = start + before.as_str().unicode_len();
            let rest = text::string_of(&chars, 0, kept);
            assert(rest@ =~= without_last(path@));
            Some((rest, segment))
        },
        None => {
            let rest = text::string_of(&chars, 0, start);
            assert(rest@ =~= without_last(path@));
            Some((rest, body))
        },
    }
}

/// A path without the segments at its end that say nothing.
fn tidy_of(path: &str) -> (out: String)
    ensures
        out@ == tidied(path@),
{
    proof {
        reveal_strlit(".");
        assert("."@ =~= seq!['.']);
    }
    let mut out = path.to_owned();
    loop
        invariant
            tidied(out@) == tidied(path@),
            "."@ == seq!['.'],
        ensures
            out@ == tidied(path@),
        decreases out@.len(),
    {
        match split_segment(&out) {
            None => {
                break;
            },
            Some((before, segment)) => {
                if segment.as_str().unicode_len() > 0 && !text::same(&segment, ".") {
                    break;
                }
                out = before;
            },
        }
    }
    out
}

/// The last name of a path.
pub fn file_name_of(path: &str) -> (out: Option<String>)
    ensures
        crate::state::optional(out) == file_name(path@),
{
    proof {
        reveal_strlit("..");
        assert(".."@ =~= seq!['.', '.']);
    }
    let tidy = tidy_of(path);
    match split_segment(&tidy) {
        None => None,
        Some((_, segment)) => if text::same(&segment, "..") {
            None
        } else {
            Some(segment)
        },
    }
}

/// The directory that a path names something in.
pub fn parent_of(path: &str) -> (out: Option<String>)
    ensures
        crate::state::optional(out) == parent(path@),
{
    proof {
        reveal_strlit(".");
        assert("."@ =~= seq!['.']);
    }
    let tidy = tidy_of(path);
    match split_segment(&tidy) {
        None => if text::same(&tidy, ".") {
            let none = String::new();
            assert(none@ =~= Seq::<char>::empty());
            Some(none)
        } else {
            None
        },
        Some((before, _)) => Some(tidy_of(&before)),
    }
}

/// The directories above a path, the nearest one first.
pub fn ancestors_of(path: &str) -> (out: Vec<String>)
    ensures
        text::views(out@) == ancestors(path@),
{
    let mut out: Vec<String> = Vec::new();
    let mut at = path.to_owned();
    assert(text::views(out@) + ancestors(path@) =~= ancestors(path@));
    loop
        invariant
            text::views(out@) + ancestors(at@) == ancestors(path@),
        ensures
            text::views(out@) == ancestors(path@),
        decreases at@.len(),
    {
        proof {
            parent_is_shorter(at@);
        }
        let ghost before = text::views(out@);
        match parent_of(&at) {
            Some(above) => {
                if above.as_str().unicode_len() == 0 {
                    assert(before + ancestors(at@) =~= before);
                    break;
                }
                out.push(above.clone());
                assert(text::views(out@) =~= before.push(above@));
                assert(before + ancestors(at@) =~= text::views(out@) + ancestors(above@));
                at = above;
            },
            None => {
                assert(before + ancestors(at@) =~= before);
                break;
            },
        }
    }
    out
}

/// What stands behind the last slash of a joined path is the name it was joined
/// with.
pub proof fn joined_ends_in_its_name(base: Seq<char>, name: Seq<char>)
    requires
        !name.contains('/'),
    ensures
        paths::leaf(joined(base, name)) == name,
{
    if paths::slash().is_prefix_of(name) {
        assert(name.subrange(0, 1)[0] == '/');
    }
    let path = joined(base, name);
    if base.len() == 0 {
        assert(path =~= name);
        text::last_slash_bounds(name);
        if text::last_slash(name) is Some {
            assert(name.contains('/'));
        }
    } else if base.last() == '/' {
        assert(path =~= base.drop_last() + seq!['/'] + name);
        crate::transfer_temp::leaf_after_slash(base.drop_last(), name);
    } else {
        crate::transfer_temp::leaf_after_slash(base, name);
    }
}

/// A path that was joined with a name has that name, whatever directory it was
/// joined to.
pub proof fn joined_has_its_name(base: Seq<char>, name: Seq<char>)
    requires
        paths::names_entry(name),
        !name.contains('/'),
    ensures
        file_name(joined(base, name)) == Some(name),
{
    reveal_strlit(".");
    reveal_strlit("..");
    assert("."@ =~= seq!['.']);
    assert(".."@ =~= seq!['.', '.']);
    let path = joined(base, name);
    if paths::slash().is_prefix_of(name) {
        assert(name.subrange(0, 1)[0] == '/');
    }
    let start = head(path);
    let front = path.take(path.len() - name.len());
    if base.len() == 0 {
        assert(path =~= name);
        if name.len() == 1 && name[0] == '.' {
            assert(name =~= seq!['.']);
        }
        if name.len() > 1 && name[1] == '/' {
            assert(name.contains('/'));
        }
        assert(start == 0);
        assert(path.skip(0) =~= joined(Seq::empty(), name));
        joined_ends_in_its_name(Seq::empty(), name);
    } else {
        assert(path =~= front + name);
        assert(front.last() == '/');
        let above = front.skip(start);
        assert(path.skip(start) =~= above + name);
        assert(above + name =~= joined(above, name));
        joined_ends_in_its_name(above, name);
    }
    assert(last_segment(path) == name);
}

/// The directory of a path that was joined with a name is the one it was joined
/// to, without what says nothing at its end.
pub proof fn joined_lies_in_its_directory(base: Seq<char>, name: Seq<char>)
    requires
        paths::names_entry(name),
        !name.contains('/'),
        base.len() > 1 ==> base.last() != '/',
    ensures
        parent(joined(base, name)) == Some(tidied(base)),
{
    joined_has_its_name(base, name);
    reveal_strlit(".");
    reveal_strlit("..");
    assert("."@ =~= seq!['.']);
    assert(".."@ =~= seq!['.', '.']);
    let path = joined(base, name);
    if paths::slash().is_prefix_of(name) {
        assert(name.subrange(0, 1)[0] == '/');
    }
    let start = head(path);
    let body = path.skip(start);
    text::last_slash_bounds(body);
    if base.len() == 0 {
        assert(path =~= name);
        if name.len() == 1 && name[0] == '.' {
            assert(name =~= seq!['.']);
        }
        if name.len() > 1 && name[1] == '/' {
            assert(name.contains('/'));
        }
        assert(start == 0);
        if let Some(at) = text::last_slash(body) {
            assert(name[at] == '/');
            assert(name.contains('/'));
        }
        assert(last_segment(path) =~= name);
        assert(without_last(path) =~= base);
    } else if base.last() == '/' {
        assert(base =~= seq!['/']);
        assert(path =~= base + name);
        assert(path[0] == '/');
        assert(body =~= name);
        if let Some(at) = text::last_slash(body) {
            assert(name[at] == '/');
            assert(name.contains('/'));
        }
        assert(last_segment(path) =~= name);
        assert(without_last(path) =~= base);
    } else {
        assert(path =~= base + paths::slash() + name);
        assert(path[base.len() as int] == '/');
        assert(path[0] == base[0]);
        let place = base.len() - start;
        assert(body[place] == '/');
        assert(body.contains('/'));
        let at = text::last_slash(body)->Some_0;
        if at < place {
            assert(body.skip(at + 1)[place - at - 1] == '/');
            assert(body.skip(at + 1).contains('/'));
        }
        if at > place {
            assert(body[at] == name[at - place - 1]);
            assert(name.contains('/'));
        }
        assert(at == place);
        assert(body.skip(at + 1) =~= name);
        assert(last_segment(path) =~= name);
        assert(without_last(path) =~= base);
    }
    assert(!says_nothing(last_segment(path)));
    assert(tidied(path) == path);
    assert(!is_head(path));
}

/// The name of a path names something: it is neither empty nor a dot name, and
/// holds no slash.
pub proof fn file_name_names_something(path: Seq<char>)
    ensures
        file_name(path) matches Some(name) ==> paths::names_entry(name) && !name.contains('/'),
{
    tidied_says_something(path);
    reveal_strlit(".");
    reveal_strlit("..");
    assert("."@ =~= seq!['.']);
    assert(".."@ =~= seq!['.', '.']);
    let tidy = tidied(path);
    paths::leaf_follows_the_last_slash(tidy.skip(head(tidy)));
}

} // verus!
