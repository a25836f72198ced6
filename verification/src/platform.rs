//! How the machine writes local paths. Everywhere else local paths are text with
//! slashes; what the machine writes otherwise is rewritten here first.

use crate::paths;
use crate::text;
use vstd::prelude::*;

verus! {

broadcast use vstd::seq::group_seq_axioms;

/// How a machine writes local paths.
#[derive(Debug, Clone, Copy, PartialEq, Eq, Structural)]
pub enum Platform {
    /// A slash separates the names, and a path that starts with one is absolute.
    Slashes,
    /// A backslash separates the names as well as a slash, and a path is absolute that
    /// starts at the root of a drive or names a share of a server.
    Backslashes,
}

/// A character of a path, with a slash for a backslash.
pub open spec fn slash_for(c: char) -> char {
    if c == '\\' {
        '/'
    } else {
        c
    }
}

/// A path with slashes between its names.
pub open spec fn slashed(platform: Platform, path: Seq<char>) -> Seq<char> {
    match platform {
        Platform::Slashes => path,
        Platform::Backslashes => path.map_values(|c: char| slash_for(c)),
    }
}

/// A path with slashes between its names.
pub fn with_slashes(platform: Platform, path: &str) -> (out: String)
    ensures
        out@ == slashed(platform, path@),
{
    match platform {
        Platform::Slashes => path.to_owned(),
        Platform::Backslashes => {
            let chars = text::chars_of(path);
            let mut out = String::new();
            let mut i: usize = 0;
            let ghost want = slashed(platform, path@);
            assert(out@ =~= want.take(0));
            while i < chars.len()
                invariant
                    i <= chars@.len(),
                    chars@ == path@,
                    want == path@.map_values(|c: char| slash_for(c)),
                    out@ == want.take(i as int),
                decreases chars.len() - i,
            {
                let c: char = chars[i];
                out.push(
                    if c == '\\' {
                        '/'
                    } else {
                        c
                    },
                );
                assert(want.take(i + 1) =~= want.take(i as int).push(want[i as int]));
                i += 1;
            }
            assert(want.take(i as int) =~= want);
            out
        },
    }
}

/// A path without the mark by which a machine with drives says that it is to be taken
/// literally: it names what it names without it.
pub open spec fn unmarked(path: Seq<char>) -> Seq<char> {
    match text::stripped(path, "//?/UNC/"@) {
        Some(share) => "//"@ + share,
        None => match text::stripped(path, "//?/"@) {
            Some(rest) => rest,
            None => path,
        },
    }
}

/// A path that the machine gives, as text with slashes.
pub open spec fn given(platform: Platform, path: Seq<char>) -> Seq<char> {
    match platform {
        Platform::Slashes => path,
        Platform::Backslashes => unmarked(slashed(platform, path)),
    }
}

/// A path that the machine gives, as text with slashes.
pub fn from_machine(platform: Platform, path: &str) -> (out: String)
    ensures
        out@ == given(platform, path@),
{
    match platform {
        Platform::Slashes => path.to_owned(),
        Platform::Backslashes => {
            let plain = with_slashes(platform, path);
            match text::strip_prefix(&plain, "//?/UNC/") {
                Some(share) => text::cat("//", &share),
                None => match text::strip_prefix(&plain, "//?/") {
                    Some(rest) => rest,
                    None => plain,
                },
            }
        },
    }
}

/// A path as the machine takes it: a drive alone would be the current directory of
/// that drive, so that its root gets its slash.
pub open spec fn taken(platform: Platform, path: Seq<char>) -> Seq<char> {
    if platform == Platform::Backslashes && path.len() == 2 && paths::drive_prefixed(path) {
        path + paths::slash()
    } else {
        path
    }
}

/// A path as the machine takes it.
pub fn to_machine(platform: Platform, path: &str) -> (out: String)
    ensures
        out@ == taken(platform, path@),
{
    let mut out = path.to_owned();
    match platform {
        Platform::Slashes => {},
        Platform::Backslashes => {
            if path.unicode_len() == 2 && paths::is_drive_prefixed(path) {
                out.push('/');
                assert(out@ =~= path@ + paths::slash());
            }
        },
    }
    out
}

/// Whether a path names a share of a server.
pub open spec fn names_share(path: Seq<char>) -> bool {
    match text::stripped(path, "//"@) {
        Some(rest) => {
            let names = text::segments(rest);
            names.len() > 1 && names[0].len() > 0 && names[1].len() > 0
        },
        None => false,
    }
}

/// Whether a path starts at the root of the file system.
pub open spec fn absolute(platform: Platform, path: Seq<char>) -> bool {
    match platform {
        Platform::Slashes => paths::slash().is_prefix_of(path),
        Platform::Backslashes => {
            let plain = slashed(platform, path);
            names_share(plain) || (paths::drive_prefixed(plain) && plain.len() > 2 && plain[2]
                == '/')
        },
    }
}

fn does_name_share(path: &str) -> (out: bool)
    ensures
        out == names_share(path@),
{
    match text::strip_prefix(path, "//") {
        Some(rest) => {
            let names = text::split_slashes(&rest);
            if names.len() > 1 {
                assert(text::segments(rest@)[0] == names@[0]@);
                assert(text::segments(rest@)[1] == names@[1]@);
                names[0].as_str().unicode_len() > 0 && names[1].as_str().unicode_len() > 0
            } else {
                false
            }
        },
        None => false,
    }
}

/// Whether a path starts at the root of the file system.
pub fn is_absolute(platform: Platform, path: &str) -> (out: bool)
    ensures
        out == absolute(platform, path@),
{
    match platform {
        Platform::Slashes => {
            let mut slash = String::new();
            slash.push('/');
            assert(slash@ =~= paths::slash());
            text::starts_with(path, &slash)
        },
        Platform::Backslashes => {
            let plain = with_slashes(platform, path);
            if does_name_share(&plain) {
                return true;
            }
            let chars = text::chars_of(&plain);
            paths::is_drive_prefixed(&plain) && chars.len() > 2 && chars[2] == '/'
        },
    }
}

/// A path with slashes between its names holds no backslash on a machine that takes
/// one for a separator, and stays as it is.
pub proof fn slashed_stays(platform: Platform, path: Seq<char>)
    ensures
        slashed(platform, slashed(platform, path)) == slashed(platform, path),
        platform == Platform::Backslashes ==> !slashed(platform, path).contains('\\'),
{
    let plain = slashed(platform, path);
    assert(slashed(platform, plain) =~= plain);
}

/// Where paths are written with slashes they are taken as they are. Elsewhere a
/// backslash is a slash and every other character is itself; only the mark of a
/// long path is taken off.
pub proof fn path_is_given_with_slashes(platform: Platform, path: Seq<char>, i: int)
    ensures
        given(Platform::Slashes, path) == path,
        slashed(Platform::Slashes, path) == path,
        slashed(platform, path).len() == path.len(),
        0 <= i < path.len() && path[i] != '\\' ==> slashed(platform, path)[i] == path[i],
        0 <= i < path.len() && path[i] == '\\' && platform == Platform::Backslashes ==> slashed(
            platform,
            path,
        )[i] == '/',
        platform == Platform::Backslashes && text::stripped(
            slashed(platform, path),
            "//?/"@,
        ) is None ==> given(platform, path) == slashed(platform, path),
        unmarked("//?/"@ + path) == path || "UNC/"@.is_prefix_of(path),
        unmarked("//?/UNC/"@ + path) == "//"@ + path,
{
    reveal_strlit("//?/");
    reveal_strlit("//?/UNC/");
    reveal_strlit("UNC/");
    let plain = slashed(platform, path);
    if let Some(rest) = text::stripped(plain, "//?/UNC/"@) {
        text::stripped_is_what_follows(plain, "//?/UNC/"@, rest);
        let whole = "//?/"@ + ("UNC/"@ + rest);
        assert(plain =~= whole);
        text::stripped_is_what_follows(plain, "//?/"@, "UNC/"@ + rest);
    }
    let marked = "//?/"@ + path;
    text::stripped_is_what_follows(marked, "//?/"@, path);
    if let Some(rest) = text::stripped(marked, "//?/UNC/"@) {
        text::stripped_is_what_follows(marked, "//?/UNC/"@, rest);
        assert(marked =~= "//?/UNC/"@ + rest);
        assert(path =~= marked.skip(4));
        assert(path =~= "UNC/"@ + rest);
        assert(path.subrange(0, 4) =~= "UNC/"@);
    }
    text::stripped_is_what_follows("//?/UNC/"@ + path, "//?/UNC/"@, path);
}

/// A path is absolute where it starts at the root: with a slash, or, where paths
/// are written with backslashes, with a drive and a slash or with a share.
pub proof fn absolute_path_starts_at_a_root(path: Seq<char>)
    ensures
        absolute(Platform::Slashes, path) <==> path.len() > 0 && path[0] == '/',
        path.len() > 2 && paths::drive_prefixed(path) && (path[2] == '\\' || path[2] == '/')
            ==> absolute(Platform::Backslashes, path),
        absolute(Platform::Backslashes, path) ==> path.len() > 2 && (paths::drive_prefixed(path)
            || ((path[0] == '\\' || path[0] == '/') && (path[1] == '\\' || path[1] == '/'))),
        taken(Platform::Slashes, path) == path,
        taken(Platform::Backslashes, path) == if path.len() == 2 && path[1] == ':' && ('a'
            <= path[0] <= 'z' || 'A' <= path[0] <= 'Z') {
            path + seq!['/']
        } else {
            path
        },
{
    reveal_strlit("//");
    let plain = slashed(Platform::Backslashes, path);
    if path.len() > 0 {
        assert(path.subrange(0, 1)[0] == path[0]);
        if path[0] == '/' {
            assert(path.subrange(0, 1) =~= paths::slash());
        }
    }
    if paths::slash().is_prefix_of(path) {
        assert(path.subrange(0, 1)[0] == '/');
    }
    assert(plain.len() == path.len());
    if path.len() > 2 {
        assert(plain[0] == slash_for(path[0]));
        assert(plain[1] == slash_for(path[1]));
        assert(plain[2] == slash_for(path[2]));
    }
    if names_share(plain) {
        let rest = text::stripped(plain, "//"@)->Some_0;
        text::stripped_is_what_follows(plain, "//"@, rest);
        assert(plain =~= "//"@ + rest);
        let names = text::segments(rest);
        if rest.len() == 0 {
            assert(rest =~= Seq::<char>::empty());
            assert(names.len() == 1);
        }
        assert(plain[0] == '/' && plain[1] == '/');
    }
}

} // verus!
