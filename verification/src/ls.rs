//! The listing of a remote directory as it is shown.

use crate::ftp::{Entry, EntryView};
use crate::paths;
use crate::state;
use crate::text;
use vstd::prelude::*;

verus! {

broadcast use vstd::seq::group_seq_axioms;

/// How times are shown.
pub const TIME_FORMAT: &'static str = "%Y-%m-%d %H:%M:%S";

/// The directory that is listed: the remote root, or the path that was named below
/// it.
pub open spec fn listed_dir(remote_root: Seq<char>, sub: Option<Seq<char>>) -> Seq<char> {
    match sub {
        None => remote_root,
        Some(sub) => if text::trim_start(sub).len() == 0 {
            remote_root
        } else {
            paths::remote_joined(remote_root, text::trim_start(sub))
        },
    }
}

/// The directory that is listed.
pub fn ls_dir(remote_root: &str, sub: &Option<String>) -> (out: String)
    ensures
        out@ == listed_dir(remote_root@, state::optional(*sub)),
{
    match sub {
        None => remote_root.to_owned(),
        Some(sub) => {
            let below = text::trim_start_slashes(sub);
            if below.as_str().unicode_len() == 0 {
                remote_root.to_owned()
            } else {
                paths::remote_path_join(remote_root, &below)
            }
        },
    }
}

/// The character that shows what an entry is. A symlink has its own, whatever it
/// leads to.
pub open spec fn kind_mark(entry: EntryView) -> char {
    if entry.is_symlink {
        'l'
    } else if entry.is_dir {
        'd'
    } else {
        '-'
    }
}

/// The character that shows what an entry is.
pub fn kind_char(entry: &Entry) -> (out: char)
    ensures
        out == kind_mark(entry@),
{
    if entry.is_symlink {
        'l'
    } else if entry.is_dir {
        'd'
    } else {
        '-'
    }
}

/// A moment of universal time in a given format, if it is one that can be shown.
pub uninterp spec fn time_text(secs: i64, nanos: u32, format: Seq<char>) -> Option<Seq<char>>;

/// Writes a moment of universal time by `chrono::DateTime::format`. What is written
/// depends on the moment and the format alone; nothing is written of a moment that
/// `chrono::DateTime::from_timestamp` refuses.
#[verifier::external_body]
fn write_time(secs: i64, nanos: u32, format: &str) -> (out: Option<String>)
    requires
        format@ == TIME_FORMAT@,
    ensures
        state::optional(out) == time_text(secs, nanos, format@),
{
    let moment = chrono::DateTime::<chrono::Utc>::from_timestamp(secs, nanos)?;
    Some(moment.format(format).to_string())
}

/// Text with spaces before it up to a width.
pub open spec fn padded(s: Seq<char>, width: nat) -> Seq<char>
    decreases width - s.len(),
{
    if s.len() >= width {
        s
    } else {
        padded(seq![' '] + s, width)
    }
}

/// Text with spaces before it up to a width.
pub fn pad(s: &str, width: usize) -> (out: String)
    ensures
        out@ == padded(s@, width as nat),
{
    let mut out = s.to_owned();
    while out.as_str().unicode_len() < width
        invariant
            padded(out@, width as nat) == padded(s@, width as nat),
        decreases width - out@.len(),
    {
        let mut wider = String::new();
        wider.push(' ');
        assert(wider@ =~= seq![' ']);
        wider.append(&out);
        out = wider;
    }
    out
}

/// The line that shows an entry, given how its time is shown.
pub open spec fn entry_line(entry: EntryView, time: Seq<char>) -> Seq<char> {
    seq![kind_mark(entry)] + " "@ + padded(text::decimal(entry.size as nat), 10) + " "@ + time
        + "  "@ + entry.name
}

/// The line that shows an entry, given how its time is shown.
pub fn line_of(entry: &Entry, time: &str) -> (out: String)
    ensures
        out@ == entry_line(entry@, time@),
{
    let mut out = String::new();
    out.push(kind_char(entry));
    assert(out@ =~= seq![kind_mark(entry@)]);
    out.append(" ");
    out.append(&pad(&text::decimal_u64(entry.size), 10));
    out.append(" ");
    out.append(time);
    out.append("  ");
    out.append(&entry.name);
    out
}

/// The line that shows an entry, if its time is one that can be shown.
pub fn ls_line(entry: &Entry) -> (out: Option<String>)
    ensures
        match (out, time_text(entry.modified.secs, entry.modified.nanos, TIME_FORMAT@)) {
            (Some(line), Some(time)) => line@ == entry_line(entry@, time),
            (None, None) => true,
            _ => false,
        },
{
    match write_time(entry.modified.secs, entry.modified.nanos, TIME_FORMAT) {
        Some(time) => Some(line_of(entry, &time)),
        None => None,
    }
}

/// Padded text ends in the text, has spaces and nothing else before it, and is as wide
/// as was asked for unless the text itself is wider.
pub proof fn padding_comes_before(s: Seq<char>, width: nat)
    ensures
        ({
            let out = padded(s, width);
            let gap = out.len() - s.len();
            &&& out.len() == if s.len() >= width {
                s.len()
            } else {
                width
            }
            &&& out.skip(gap) == s
            &&& forall|i: int| 0 <= i < gap ==> #[trigger] out[i] == ' '
        }),
    decreases width - s.len(),
{
    if s.len() >= width {
        assert(s.skip(0) =~= s);
    } else {
        let wider = seq![' '] + s;
        padding_comes_before(wider, width);
        let out = padded(s, width);
        let gap = out.len() - wider.len();
        assert(out.skip(gap + 1) =~= out.skip(gap).skip(1));
        assert(out.skip(gap).skip(1) =~= s);
        assert(out[gap] == out.skip(gap)[0]);
    }
}

/// Every entry, whatever it is, is shown by a mark of what it is, its size, its time
/// and its name, in this order and with the name at the end. So two entries of one
/// time that are shown alike have the same mark, and where their sizes are written
/// equally wide also the same size and the same name.
pub proof fn every_line_ends_in_its_name(a: EntryView, b: EntryView, time: Seq<char>)
    ensures
        ({
            let line = entry_line(a, time);
            let tail = time + "  "@ + a.name;
            &&& line.len() >= tail.len() + 12
            &&& line.skip(line.len() - tail.len()) == tail
            &&& line[0] == if a.is_symlink {
                'l'
            } else if a.is_dir {
                'd'
            } else {
                '-'
            }
            &&& line[1] == ' '
            &&& line[line.len() - tail.len() - 1] == ' '
            &&& text::decimal(a.size as nat).is_suffix_of(line.take(line.len() - tail.len() - 1))
            &&& a.size == b.size && a.is_dir == b.is_dir && a.is_symlink == b.is_symlink
                && entry_line(a, time) == entry_line(b, time) ==> a.name == b.name
        }),
{
    let size = padded(text::decimal(a.size as nat), 10);
    let line = entry_line(a, time);
    let tail = time + "  "@ + a.name;
    reveal_strlit(" ");
    reveal_strlit("  ");
    padding_comes_before(text::decimal(a.size as nat), 10);
    let front = line.len() - tail.len();
    assert(front == size.len() + 3);
    assert(line.skip(front) =~= tail);
    assert(line.take(front - 1) =~= seq![kind_mark(a)] + " "@ + size);
    let digits = text::decimal(a.size as nat);
    let head = line.take(front - 1);
    assert(head.subrange(head.len() - digits.len(), head.len() as int) =~= size.skip(
        size.len() - digits.len(),
    ));
    if a.size == b.size && a.is_dir == b.is_dir && a.is_symlink == b.is_symlink && line
        == entry_line(b, time) {
        let other = entry_line(b, time);
        assert(a.name =~= line.skip(line.len() - a.name.len()));
        assert(b.name =~= other.skip(other.len() - b.name.len()));
    }
}

/// The listed directory is the root itself unless something other than slashes was
/// named; what was named lies below the root, one slash behind it, whatever slashes
/// were written before it.
pub proof fn listing_stays_below_the_root(root: Seq<char>, sub: Seq<char>)
    ensures
        listed_dir(root, None) == root,
        listed_dir(root, Some(paths::slash() + sub)) == listed_dir(root, Some(sub)),
        (forall|i: int| 0 <= i < sub.len() ==> #[trigger] sub[i] == '/') ==> listed_dir(
            root,
            Some(sub),
        ) == root,
        sub.len() > 0 && sub[0] != '/' ==> listed_dir(root, Some(sub)) == text::trim_end(root)
            + paths::slash() + sub,
    decreases sub.len(),
{
    let more = paths::slash() + sub;
    assert(more.skip(1) =~= sub);
    if sub.len() > 0 && sub[0] == '/' {
        let rest = sub.skip(1);
        listing_stays_below_the_root(root, rest);
        if forall|i: int| 0 <= i < sub.len() ==> #[trigger] sub[i] == '/' {
            assert forall|i: int| 0 <= i < rest.len() implies #[trigger] rest[i] == '/' by {
                assert(sub[i + 1] == '/');
            }
        }
    }
}

} // verus!
