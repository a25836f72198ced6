//! The names of temporary files beside their targets.

use crate::error::Error;
use crate::error;
use crate::local_paths;
use crate::paths;
use crate::text;
use vstd::prelude::*;

verus! {

broadcast use vstd::seq::group_seq_axioms;

/// What stands between the name of the target and the nonce.
pub const TEMP_INFIX: &'static str = ".ferry-tmp.";

/// How many digits a nonce has.
pub const NONCE_LEN: usize = 32;

/// Whether `c` is a lower-case hexadecimal digit.
pub open spec fn hex_digit(c: char) -> bool {
    '0' <= c <= '9' || 'a' <= c <= 'f'
}

/// Whether `s` can be a nonce: it has the length of one, in lower-case
/// hexadecimal digits.
pub open spec fn nonce(s: Seq<char>) -> bool {
    s.len() == NONCE_LEN && forall|i: int| 0 <= i < s.len() ==> hex_digit(#[trigger] s[i])
}

/// Whether a name is a dot, the name of a target, the infix and a nonce.
pub open spec fn temp_name(name: Seq<char>) -> bool {
    exists|target: Seq<char>, n: Seq<char>|
        target.len() > 0 && nonce(n) && name == #[trigger] temp_name_for(target, n)
}

/// The name of the temporary file with nonce `n` for the target named `target`.
pub open spec fn temp_name_for(target: Seq<char>, n: Seq<char>) -> Seq<char> {
    seq!['.'] + target + TEMP_INFIX@ + n
}

/// Whether the last segment of a path is the name of a temporary file.
pub open spec fn reserved(path: Seq<char>) -> bool {
    temp_name(paths::leaf(path))
}

/// Whether the characters of `chars` from `from` on are a nonce.
fn is_nonce(chars: &Vec<char>, from: usize) -> (out: bool)
    requires
        from <= chars@.len(),
    ensures
        out == nonce(chars@.skip(from as int)),
{
    let ghost tail = chars@.skip(from as int);
    if chars.len() - from != NONCE_LEN {
        return false;
    }
    let mut i: usize = from;
    while i < chars.len()
        invariant
            from <= i <= chars@.len(),
            tail == chars@.skip(from as int),
            forall|k: int| 0 <= k < i - from ==> hex_digit(#[trigger] tail[k]),
        decreases chars.len() - i,
    {
        let c: char = chars[i];
        if !(('0' <= c && c <= '9') || ('a' <= c && c <= 'f')) {
            assert(tail[i - from] == c);
            return false;
        }
        i += 1;
    }
    true
}

/// Whether the last segment of a path is the name of a temporary file.
pub fn is_reserved_transfer_temp(path: &str) -> (out: bool)
    ensures
        out == reserved(path@),
{
    let name = paths::leaf_of(path);
    let chars = text::chars_of(&name);
    let infix = text::chars_of(TEMP_INFIX);
    proof {
        reveal_strlit(".ferry-tmp.");
    }
    let total: usize = chars.len();
    if total < 2 + infix.len() + NONCE_LEN || chars[0] != '.' {
        proof {
            assert forall|target: Seq<char>, n: Seq<char>| target.len() > 0 && nonce(n) implies name@
                != #[trigger] temp_name_for(target, n) by {
                assert(temp_name_for(target, n)[0] == '.');
            }
        }
        return false;
    }
    let digits: usize = total - NONCE_LEN;
    let at: usize = digits - infix.len();
    let middle = text::string_of(&chars, at, digits);
    let out = text::same(&middle, TEMP_INFIX) && is_nonce(&chars, digits);
    proof {
        let target = name@.subrange(1, at as int);
        let n = name@.skip(digits as int);
        if out {
            assert(name@ =~= temp_name_for(target, n));
        }
        assert forall|t: Seq<char>, m: Seq<char>| t.len() > 0 && nonce(m) && name@
            == #[trigger] temp_name_for(t, m) implies out by {
            assert(name@.subrange(at as int, digits as int) =~= TEMP_INFIX@);
            assert(name@.skip(digits as int) =~= m);
        }
    }
    out
}

/// The path of the temporary file beside `path`.
pub open spec fn candidate_of(path: Seq<char>, n: Seq<char>) -> Result<
    Seq<char>,
    error::ErrorView,
> {
    if paths::leaf(path).len() == 0 {
        Err(error::failure("transfer target has no file name"@))
    } else if !nonce(n) {
        Err(error::failure("invalid transfer nonce"@))
    } else {
        Ok(
            match text::split_last(path) {
                Some((parent, name)) => parent + seq!['/'] + temp_name_for(name, n),
                None => temp_name_for(path, n),
            },
        )
    }
}

/// The path of the temporary file beside a local path.
pub open spec fn local_candidate_of(path: Seq<char>, n: Seq<char>) -> Result<
    Seq<char>,
    error::ErrorView,
> {
    match (local_paths::file_name(path), local_paths::parent(path)) {
        (Some(name), Some(parent)) => if !nonce(n) {
            Err(error::failure("invalid transfer nonce"@))
        } else {
            Ok(local_paths::joined(parent, temp_name_for(name, n)))
        },
        _ => Err(error::failure("transfer target has no file name"@)),
    }
}

/// The name of a temporary file.
fn name_temp(target: &str, n: &str) -> (out: String)
    ensures
        out@ == temp_name_for(target@, n@),
{
    let mut temp = String::new();
    temp.push('.');
    assert(temp@ =~= seq!['.']);
    temp.append(target);
    temp.append(TEMP_INFIX);
    temp.append(n);
    temp
}

/// The path of the temporary file beside a local path with the given nonce.
pub fn local_transfer_candidate(path: &str, n: &str) -> (out: Result<String, Error>)
    ensures
        error::agrees(out, local_candidate_of(path@, n@)),
{
    match (local_paths::file_name_of(path), local_paths::parent_of(path)) {
        (Some(name), Some(parent)) => {
            let digits = text::chars_of(n);
            assert(digits@.skip(0) =~= n@);
            if !is_nonce(&digits, 0) {
                return Err(Error::failure("invalid transfer nonce".to_owned()));
            }
            Ok(local_paths::join(&parent, &name_temp(&name, n)))
        },
        _ => Err(Error::failure("transfer target has no file name".to_owned())),
    }
}

/// The path of the temporary file beside `path` with the given nonce.
pub fn transfer_candidate(path: &str, n: &str) -> (out: Result<String, Error>)
    ensures
        error::agrees(out, candidate_of(path@, n@)),
{
    let name = paths::leaf_of(path);
    if name.as_str().unicode_len() == 0 {
        return Err(Error::failure("transfer target has no file name".to_owned()));
    }
    let digits = text::chars_of(n);
    assert(digits@.skip(0) =~= n@);
    if !is_nonce(&digits, 0) {
        return Err(Error::failure("invalid transfer nonce".to_owned()));
    }
    let temp = name_temp(&name, n);
    match text::rsplit_slash(path) {
        Some((parent, _)) => {
            let mut out = parent;
            out.push('/');
            out.append(&temp);
            assert(out@ =~= parent@ + seq!['/'] + temp@);
            Ok(out)
        },
        None => Ok(temp),
    }
}

pub(crate) proof fn leaf_after_slash(parent: Seq<char>, name: Seq<char>)
    requires
        !name.contains('/'),
    ensures
        paths::leaf(parent + seq!['/'] + name) == name,
    decreases name.len(),
{
    let path = parent + seq!['/'] + name;
    text::last_slash_bounds(path);
    let at = text::last_slash(path);
    assert(path[parent.len() as int] == '/');
    assert(path.contains('/'));
    let position = at->Some_0;
    if position < parent.len() {
        assert(path.skip(position + 1)[parent.len() - position - 1] == '/');
    }
    if position > parent.len() {
        assert(name[position - parent.len() - 1] == '/');
    }
    assert(path.skip(position + 1) =~= name);
}

proof fn temp_name_has_no_slash(target: Seq<char>, n: Seq<char>)
    requires
        !target.contains('/'),
        nonce(n),
    ensures
        !temp_name_for(target, n).contains('/'),
{
    reveal_strlit(".ferry-tmp.");
    let name = temp_name_for(target, n);
    assert forall|i: int| 0 <= i < name.len() implies name[i] != '/' by {
        if 1 <= i < 1 + target.len() {
            assert(name[i] == target[i - 1]);
        } else if 1 + target.len() + TEMP_INFIX@.len() <= i {
            assert(name[i] == n[i - 1 - target.len() - TEMP_INFIX@.len()]);
        }
    }
}

/// Every candidate is a reserved name in the directory of its target, so that a
/// walk of either side passes over what an interrupted transfer left behind.
pub proof fn candidate_is_reserved(path: Seq<char>, n: Seq<char>)
    requires
        candidate_of(path, n) is Ok,
    ensures
        reserved(candidate_of(path, n)->Ok_0),
        match (text::split_last(path), text::split_last(candidate_of(path, n)->Ok_0)) {
            (Some((parent, _)), Some((beside, _))) => parent == beside,
            (None, None) => true,
            _ => false,
        },
{
    let name = paths::leaf(path);
    text::last_slash_bounds(path);
    let temp = temp_name_for(name, n);
    temp_name_has_no_slash(name, n);
    match text::split_last(path) {
        Some((parent, _)) => {
            leaf_after_slash(parent, temp);
            let out = parent + seq!['/'] + temp;
            text::last_slash_bounds(out);
            assert(out[parent.len() as int] == '/');
            assert(out.contains('/'));
            let at = text::last_slash(out)->Some_0;
            assert(out.skip(at + 1) == temp);
            assert(out.skip(at + 1).len() == out.len() - at - 1);
            assert(out.take(at) =~= parent);
        },
        None => {
            text::last_slash_bounds(temp);
            if text::last_slash(temp) is Some {
                assert(temp.contains('/'));
            }
        },
    }
}

/// Every candidate for a local path is a reserved name, and is not that path.
pub proof fn local_candidate_is_reserved(path: Seq<char>, n: Seq<char>)
    requires
        local_candidate_of(path, n) is Ok,
    ensures
        reserved(local_candidate_of(path, n)->Ok_0),
        local_candidate_of(path, n)->Ok_0 != path,
{
    let name = local_paths::file_name(path)->Some_0;
    let parent = local_paths::parent(path)->Some_0;
    let tidy = local_paths::tidied(path);
    let body = tidy.skip(local_paths::head(tidy));
    let temp = temp_name_for(name, n);
    reveal_strlit(".ferry-tmp.");
    reveal_strlit(".");
    reveal_strlit("..");
    text::last_slash_bounds(body);
    assert(!name.contains('/'));
    temp_name_has_no_slash(name, n);
    local_paths::tidied_says_something(path);
    local_paths::joined_ends_in_its_name(parent, temp);
    local_paths::joined_has_its_name(parent, temp);
}

/// A temporary file can be named exactly where the target has a name and the nonce
/// is one. Its name is the target's between a dot and the nonce, so that no two
/// nonces give one name.
pub proof fn temp_is_named_by_target_and_nonce(path: Seq<char>, n: Seq<char>, m: Seq<char>)
    ensures
        candidate_of(path, n) is Ok <==> paths::leaf(path).len() > 0 && n.len() == 32 && forall|
            i: int|
            0 <= i < n.len() ==> ('0' <= (#[trigger] n[i]) <= '9' || 'a' <= n[i] <= 'f'),
        candidate_of(path, n) matches Ok(temp) ==> paths::leaf(temp) == seq!['.'] + paths::leaf(
            path,
        ) + ".ferry-tmp."@ + n,
        candidate_of(path, n) is Ok && candidate_of(path, n) == candidate_of(path, m) ==> n == m,
        local_candidate_of(path, n) is Ok <==> local_paths::file_name(path) is Some
            && local_paths::parent(path) is Some && nonce(n),
        local_candidate_of(path, n) matches Ok(temp) ==> temp == local_paths::joined(
            local_paths::parent(path)->Some_0,
            seq!['.'] + local_paths::file_name(path)->Some_0 + ".ferry-tmp."@ + n,
        ),
{
    if candidate_of(path, n) is Ok {
        let name = paths::leaf(path);
        text::last_slash_bounds(path);
        temp_name_has_no_slash(name, n);
        let temp = temp_name_for(name, n);
        match text::split_last(path) {
            Some((parent, _)) => {
                leaf_after_slash(parent, temp);
            },
            None => {
                text::last_slash_bounds(temp);
                if let Some(at) = text::last_slash(temp) {
                    assert(temp[at] == '/');
                    assert(temp.contains('/'));
                }
            },
        }
        if candidate_of(path, n) == candidate_of(path, m) {
            let x = candidate_of(path, n)->Ok_0;
            let y = candidate_of(path, m)->Ok_0;
            assert(x.skip(x.len() - 32) =~= n);
            assert(y.skip(y.len() - 32) =~= m);
        }
    }
}

} // verus!
