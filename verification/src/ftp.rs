//! What a server says: directory listings, exact lookups and refused requests.

use crate::error::Error;
use crate::error;
use crate::paths;
use crate::text;
use vstd::prelude::*;

verus! {

broadcast use vstd::seq::group_seq_axioms;

/// A moment, in whole seconds and nanoseconds since the Unix epoch.
#[derive(Debug, Clone, Copy, PartialEq, Eq, Structural)]
pub struct Timestamp {
    pub secs: i64,
    pub nanos: u32,
}

/// One entry of a remote directory.
#[derive(Debug, PartialEq, Eq)]
pub struct Entry {
    pub name: String,
    pub is_dir: bool,
    pub is_symlink: bool,
    pub size: u64,
    pub modified: Timestamp,
}

/// What an entry of a remote directory says.
pub struct EntryView {
    pub name: Seq<char>,
    pub is_dir: bool,
    pub is_symlink: bool,
    pub size: u64,
    pub modified: Timestamp,
}

impl View for Entry {
    type V = EntryView;

    open spec fn view(&self) -> EntryView {
        EntryView {
            name: self.name@,
            is_dir: self.is_dir,
            is_symlink: self.is_symlink,
            size: self.size,
            modified: self.modified,
        }
    }
}

/// Whether an exact lookup found the file it asked for.
#[derive(Debug, Clone, Copy, PartialEq, Eq, Structural)]
pub enum ExactFilePresence {
    Present,
    Missing,
}

/// A listing line read as a record.
#[derive(Debug)]
pub struct PosixRecord {
    pub name: String,
    pub size: u64,
    pub is_dir: bool,
    pub is_file: bool,
    pub is_symlink: bool,
    pub modified: Timestamp,
}

/// The whole seconds of the time that a record carries, if there is one.
pub open spec fn seconds_of(record: Option<PosixRecord>) -> Option<i64> {
    match record {
        Some(record) => Some(record.modified.secs),
        None => None,
    }
}

/// The name and the size in a listing line that can be read as a record.
pub uninterp spec fn posix_fields(line: Seq<char>) -> (Seq<char>, u64);

/// The time of what a listing line stands for, in whole seconds, or nothing where
/// the line cannot be read as a record. Besides the line it depends on the second
/// at which the line is read, since a date without a year is taken to be near the
/// current one, on the largest size that `usize` holds, and on the last second
/// that `SystemTime` holds.
pub uninterp spec fn posix_time(
    line: Seq<char>,
    now: i64,
    largest: int,
    latest: int,
) -> Option<i64>;

/// Reads one listing line, by `suppaftp::list::ListParser::parse_posix`, its
/// time converted by `chrono`. A line that is read starts with `-`, `d` or `l`,
/// which says whether it stands for a file, a directory or a symlink, and its
/// name and size depend on the line alone. Whether a line is read, and the time
/// it gives, is what `posix_time` says for the second at which it is read and for
/// the times that the machine holds; which second that is, is left unsaid.
#[verifier::external_body]
pub(crate) fn parse_posix_record(line: &str) -> (out: Option<PosixRecord>)
    ensures
        out matches Some(record) ==> {
            &&& line@.len() > 0
            &&& record.is_file == (line@[0] == '-')
            &&& record.is_dir == (line@[0] == 'd')
            &&& record.is_symlink == (line@[0] == 'l')
            &&& record.is_file || record.is_dir || record.is_symlink
            &&& (record.name@, record.size) == posix_fields(line@)
            &&& record.modified.nanos == 0
        },
        exists|now: i64, latest: int|
            seconds_of(out) == #[trigger] posix_time(line@, now, usize::MAX as int, latest),
{
    let file = suppaftp::list::ListParser::parse_posix(line).ok()?;
    let modified = chrono::DateTime::<chrono::Utc>::from(file.modified());
    Some(PosixRecord {
        name: file.name().to_string(),
        size: file.size() as u64,
        is_dir: file.is_directory(),
        is_file: file.is_file(),
        is_symlink: file.is_symlink(),
        modified: Timestamp { secs: modified.timestamp(), nanos: modified.timestamp_subsec_nanos() },
    })
}

/// The entry that a record stands for.
pub open spec fn entry_of(record: PosixRecord) -> EntryView {
    EntryView {
        name: record.name@,
        is_dir: record.is_dir,
        is_symlink: record.is_symlink,
        size: record.size,
        modified: record.modified,
    }
}

/// The entry that a record stands for.
pub fn entry_from_posix_file(record: &PosixRecord) -> (out: Entry)
    ensures
        out@ == entry_of(*record),
{
    Entry {
        name: record.name.clone(),
        is_dir: record.is_dir,
        is_symlink: record.is_symlink,
        size: record.size,
        modified: record.modified,
    }
}

/// The entries of the records that could be read, in order.
pub open spec fn tolerant(records: Seq<Option<PosixRecord>>) -> Seq<EntryView>
    decreases records.len(),
{
    if records.len() == 0 {
        Seq::empty()
    } else {
        match records.last() {
            Some(record) => tolerant(records.drop_last()).push(entry_of(record)),
            None => tolerant(records.drop_last()),
        }
    }
}

/// The entries of the records that could be read, in order.
pub fn tolerant_entries(records: &Vec<Option<PosixRecord>>) -> (out: Vec<Entry>)
    ensures
        text::views(out@) == tolerant(records@),
{
    let mut out: Vec<Entry> = Vec::new();
    let mut i: usize = 0;
    assert(text::views(out@) =~= tolerant(records@.take(0)));
    while i < records.len()
        invariant
            i <= records@.len(),
            text::views(out@) == tolerant(records@.take(i as int)),
        decreases records.len() - i,
    {
        let ghost before = text::views(out@);
        assert(records@.take(i + 1).drop_last() =~= records@.take(i as int));
        match &records[i] {
            Some(record) => {
                out.push(entry_from_posix_file(record));
                assert(text::views(out@) =~= before.push(entry_of(*record)));
            },
            None => {},
        }
        i += 1;
    }
    assert(records@.take(i as int) =~= records@);
    out
}

/// Whether a line holds nothing but white space.
pub open spec fn blank(line: Seq<char>) -> bool {
    text::trim_space(line).len() == 0
}

/// What a complete reading of a listing gives: the entries of all its lines but
/// the blank ones, or the first line that could not be read.
pub open spec fn complete(
    dir: Seq<char>,
    lines: Seq<Seq<char>>,
    records: Seq<Option<PosixRecord>>,
) -> Result<Seq<EntryView>, error::ErrorView>
    decreases lines.len(),
{
    if lines.len() == 0 {
        Ok(Seq::empty())
    } else {
        match complete(dir, lines.drop_last(), records.drop_last()) {
            Err(e) => Err(e),
            Ok(before) => if blank(lines.last()) {
                Ok(before)
            } else {
                match records.last() {
                    None => Err(
                        error::failure(
                            "ftp list "@ + text::escaped(dir) + ": invalid record "@
                                + text::decimal((lines.len() - 1) as nat),
                        ),
                    ),
                    Some(record) => if !record.is_symlink && !record.is_dir && !record.is_file {
                        Err(
                            error::failure(
                                "ftp list "@ + text::escaped(dir)
                                    + ": unsupported record type at record "@ + text::decimal(
                                    (lines.len() - 1) as nat,
                                ),
                            ),
                        )
                    } else {
                        Ok(before.push(entry_of(record)))
                    },
                }
            },
        }
    }
}

/// Once a line cannot be read, no further line makes the listing complete.
proof fn complete_stays_refused(
    dir: Seq<char>,
    lines: Seq<Seq<char>>,
    records: Seq<Option<PosixRecord>>,
    upto: int,
)
    requires
        0 <= upto <= lines.len(),
        lines.len() == records.len(),
        complete(dir, lines.take(upto), records.take(upto)) is Err,
    ensures
        complete(dir, lines, records) == complete(dir, lines.take(upto), records.take(upto)),
    decreases lines.len(),
{
    if upto == lines.len() {
        assert(lines.take(upto) =~= lines);
        assert(records.take(upto) =~= records);
    } else {
        let l = lines.drop_last();
        let r = records.drop_last();
        assert(l.take(upto) =~= lines.take(upto));
        assert(r.take(upto) =~= records.take(upto));
        complete_stays_refused(dir, l, r, upto);
    }
}

/// The entries of all lines but the blank ones, `records` being what each line
/// was read as; a line that could not be read refuses the whole listing.
pub fn complete_entries(
    dir: &str,
    lines: &Vec<String>,
    records: &Vec<Option<PosixRecord>>,
) -> (out: Result<Vec<Entry>, Error>)
    requires
        lines@.len() == records@.len(),
    ensures
        match (out, complete(dir@, text::views(lines@), records@)) {
            (Ok(entries), Ok(want)) => text::views(entries@) == want,
            (Err(e), Err(want)) => e@ == want,
            _ => false,
        },
{
    let ghost texts = text::views(lines@);
    let mut out: Vec<Entry> = Vec::new();
    let mut i: usize = 0;
    assert(text::views(out@) =~= Seq::<EntryView>::empty());
    while i < lines.len()
        invariant
            i <= lines@.len(),
            lines@.len() == records@.len(),
            texts == text::views(lines@),
            complete(dir@, texts.take(i as int), records@.take(i as int)) == Ok::<
                Seq<EntryView>,
                error::ErrorView,
            >(text::views(out@)),
        decreases lines.len() - i,
    {
        let ghost before = text::views(out@);
        let ghost l = texts.take(i + 1);
        let ghost r = records@.take(i + 1);
        assert(l.drop_last() =~= texts.take(i as int));
        assert(r.drop_last() =~= records@.take(i as int));
        assert(l.last() == lines@[i as int]@);
        assert(r.last() == records@[i as int]);
        let trimmed = text::trim(&lines[i]);
        if trimmed.as_str().unicode_len() > 0 {
            match &records[i] {
                None => {
                    proof {
                        complete_stays_refused(dir@, texts, records@, i + 1);
                    }
                    return Err(
                        Error::failure(
                            text::cat4(
                                "ftp list ",
                                &text::escape(dir),
                                ": invalid record ",
                                &text::decimal_of(i),
                            ),
                        ),
                    );
                },
                Some(record) => {
                    if !record.is_symlink && !record.is_dir && !record.is_file {
                        proof {
                            complete_stays_refused(dir@, texts, records@, i + 1);
                        }
                        return Err(
                            Error::failure(
                                text::cat4(
                                    "ftp list ",
                                    &text::escape(dir),
                                    ": unsupported record type at record ",
                                    &text::decimal_of(i),
                                ),
                            ),
                        );
                    }
                    out.push(entry_from_posix_file(record));
                    assert(text::views(out@) =~= before.push(entry_of(*record)));
                },
            }
        }
        i += 1;
    }
    assert(texts.take(i as int) =~= texts);
    assert(records@.take(i as int) =~= records@);
    Ok(out)
}

/// The entries that are not symlinks, in order.
pub open spec fn without_symlinks(entries: Seq<EntryView>) -> Seq<EntryView>
    decreases entries.len(),
{
    if entries.len() == 0 {
        Seq::empty()
    } else if entries.last().is_symlink {
        without_symlinks(entries.drop_last())
    } else {
        without_symlinks(entries.drop_last()).push(entries.last())
    }
}

/// A copy of an entry.
pub fn copy_entry(entry: &Entry) -> (out: Entry)
    ensures
        out@ == entry@,
{
    Entry {
        name: entry.name.clone(),
        is_dir: entry.is_dir,
        is_symlink: entry.is_symlink,
        size: entry.size,
        modified: entry.modified,
    }
}

/// The entries that are not symlinks, in order.
pub fn drop_symlinks(entries: &Vec<Entry>) -> (out: Vec<Entry>)
    ensures
        text::views(out@) == without_symlinks(text::views(entries@)),
{
    let ghost all = text::views(entries@);
    let mut out: Vec<Entry> = Vec::new();
    let mut i: usize = 0;
    assert(text::views(out@) =~= without_symlinks(all.take(0)));
    while i < entries.len()
        invariant
            i <= entries@.len(),
            all == text::views(entries@),
            text::views(out@) == without_symlinks(all.take(i as int)),
        decreases entries.len() - i,
    {
        let ghost before = text::views(out@);
        assert(all.take(i + 1).drop_last() =~= all.take(i as int));
        assert(all.take(i + 1).last() == entries@[i as int]@);
        if !entries[i].is_symlink {
            out.push(copy_entry(&entries[i]));
            assert(text::views(out@) =~= before.push(entries@[i as int]@));
        }
        i += 1;
    }
    assert(all.take(i as int) =~= all);
    out
}

/// Whether the entry of a listing line carries what the line says.
pub open spec fn read_from(entry: EntryView, line: Seq<char>) -> bool {
    &&& line.len() > 0
    &&& (entry.name, entry.size) == posix_fields(line)
    &&& entry.is_dir == (line[0] == 'd')
    &&& entry.is_symlink == (line[0] == 'l')
}

/// Whether some second and some machine read a line as a record of this time, or
/// as none.
pub open spec fn timed_from(record: Option<PosixRecord>, line: Seq<char>) -> bool {
    exists|now: i64, latest: int|
        seconds_of(record) == #[trigger] posix_time(line, now, usize::MAX as int, latest)
}

/// Whether what a line was read as carries what the line says: it is a record
/// where the line can be read at some second, with the time that the line gives
/// then, and no record where it cannot.
pub open spec fn record_read_from(record: Option<PosixRecord>, line: Seq<char>) -> bool {
    &&& timed_from(record, line)
    &&& record matches Some(r) ==> {
        &&& read_from(entry_of(r), line)
        &&& r.is_file == (line[0] == '-')
        &&& r.modified.nanos == 0
    }
}

/// Reads every line of a listing.
pub fn read_records(lines: &[String]) -> (out: Vec<Option<PosixRecord>>)
    ensures
        out@.len() == lines@.len(),
        forall|i: int|
            0 <= i < lines@.len() ==> record_read_from(#[trigger] out@[i], lines@[i]@),
{
    let mut out: Vec<Option<PosixRecord>> = Vec::new();
    let mut i: usize = 0;
    while i < lines.len()
        invariant
            i <= lines@.len(),
            out@.len() == i,
            forall|k: int| 0 <= k < i ==> record_read_from(#[trigger] out@[k], lines@[k]@),
        decreases lines.len() - i,
    {
        out.push(parse_posix_record(lines[i].as_str()));
        i += 1;
    }
    out
}

/// Reads a listing, passing over the lines that cannot be read.
pub fn parse_listing_tolerant(lines: &[String]) -> (out: Vec<Entry>)
    ensures
        exists|records: Seq<Option<PosixRecord>>|
            {
                &&& records.len() == lines@.len()
                &&& text::views(out@) == #[trigger] tolerant(records)
                &&& forall|i: int|
                    0 <= i < lines@.len() ==> record_read_from(#[trigger] records[i], lines@[i]@)
            },
{
    let records = read_records(lines);
    tolerant_entries(&records)
}

/// Reads a listing completely, symlinks included; a line that is neither blank
/// nor readable refuses it.
pub fn parse_listing_records(dir: &str, lines: &Vec<String>) -> (out: Result<Vec<Entry>, Error>)
    ensures
        exists|records: Seq<Option<PosixRecord>>|
            {
                &&& records.len() == lines@.len()
                &&& match (out, #[trigger] complete(dir@, text::views(lines@), records)) {
                    (Ok(entries), Ok(want)) => text::views(entries@) == want,
                    (Err(e), Err(want)) => e@ == want,
                    _ => false,
                }
                &&& forall|i: int|
                    0 <= i < lines@.len() ==> record_read_from(#[trigger] records[i], lines@[i]@)
            },
{
    let records = read_records(lines.as_slice());
    complete_entries(dir, lines, &records)
}

/// Reads a listing completely and leaves its symlinks out: what they point at
/// may lie outside the remote root.
pub fn parse_listing_strict(dir: &str, lines: &Vec<String>) -> (out: Result<Vec<Entry>, Error>)
    ensures
        exists|records: Seq<Option<PosixRecord>>|
            {
                &&& records.len() == lines@.len()
                &&& match (out, #[trigger] complete(dir@, text::views(lines@), records)) {
                    (Ok(entries), Ok(want)) => text::views(entries@) == without_symlinks(want),
                    (Err(e), Err(want)) => e@ == want,
                    _ => false,
                }
                &&& forall|i: int|
                    0 <= i < lines@.len() ==> record_read_from(#[trigger] records[i], lines@[i]@)
            },
{
    match parse_listing_records(dir, lines) {
        Ok(entries) => Ok(drop_symlinks(&entries)),
        Err(e) => Err(e),
    }
}

/// A listing without symlinks holds none, and what it holds was listed.
pub proof fn strict_listing_holds_no_symlink(entries: Seq<EntryView>)
    ensures
        forall|i: int|
            0 <= i < without_symlinks(entries).len() ==> !(
            #[trigger] without_symlinks(entries)[i]).is_symlink && entries.contains(
                without_symlinks(entries)[i],
            ),
    decreases entries.len(),
{
    if entries.len() > 0 {
        let before = entries.drop_last();
        strict_listing_holds_no_symlink(before);
        assert(entries.contains(entries.last()));
        assert forall|e: EntryView| before.contains(e) implies entries.contains(e) by {
            let k = choose|k: int| 0 <= k < before.len() && before[k] == e;
            assert(entries[k] == e);
        }
        let kept = without_symlinks(entries);
        assert forall|i: int| 0 <= i < kept.len() implies !(#[trigger] kept[i]).is_symlink
            && entries.contains(kept[i]) by {
            if i < without_symlinks(before).len() {
                assert(kept[i] == without_symlinks(before)[i]);
            }
        }
    }
}

/// Whether a line of an exact lookup names what was asked for: the whole path,
/// or its last segment.
pub open spec fn answers(path: Seq<char>, line: Seq<char>) -> bool {
    let requested = text::trim_end(path);
    let name = text::trim_end(text::trim_space(line));
    name.len() > 0 && (name == requested || name == paths::leaf(requested))
}

/// What an exact lookup proves: absence only by an empty reply, presence by a
/// reply whose every line names what was asked for. Any other line refuses it.
pub open spec fn exact_presence(path: Seq<char>, lines: Seq<Seq<char>>) -> Result<
    ExactFilePresence,
    error::ErrorView,
>
    decreases lines.len(),
{
    if lines.len() == 0 {
        Ok(ExactFilePresence::Missing)
    } else if exact_presence(path, lines.drop_last()) is Err {
        exact_presence(path, lines.drop_last())
    } else if answers(path, lines.last()) {
        Ok(ExactFilePresence::Present)
    } else {
        Err(
            error::failure(
                "ftp nlst "@ + path + ": unexpected exact-listing line "@ + text::debug_text(
                    lines.last(),
                ),
            ),
        )
    }
}

proof fn exact_presence_stays_refused(path: Seq<char>, lines: Seq<Seq<char>>, upto: int)
    requires
        0 <= upto <= lines.len(),
        exact_presence(path, lines.take(upto)) is Err,
    ensures
        exact_presence(path, lines) == exact_presence(path, lines.take(upto)),
    decreases lines.len(),
{
    if upto == lines.len() {
        assert(lines.take(upto) =~= lines);
    } else {
        assert(lines.drop_last().take(upto) =~= lines.take(upto));
        exact_presence_stays_refused(path, lines.drop_last(), upto);
    }
}

/// What the lines of an exact lookup prove of the file at `path`.
pub fn exact_nlst_presence(path: &str, lines: &[String]) -> (out: Result<ExactFilePresence, Error>)
    ensures
        error::settles(out, exact_presence(path@, text::views(lines@))),
{
    let ghost texts = text::views(lines@);
    let requested = text::trim_end_slashes(path);
    let last = paths::leaf_of(&requested);
    let mut i: usize = 0;
    while i < lines.len()
        invariant
            i <= lines@.len(),
            texts == text::views(lines@),
            requested@ == text::trim_end(path@),
            last@ == paths::leaf(requested@),
            exact_presence(path@, texts.take(i as int)) == Ok::<
                ExactFilePresence,
                error::ErrorView,
            >(
                if i == 0 {
                    ExactFilePresence::Missing
                } else {
                    ExactFilePresence::Present
                },
            ),
        decreases lines.len() - i,
    {
        assert(texts.take(i + 1).drop_last() =~= texts.take(i as int));
        assert(texts.take(i + 1).last() == lines@[i as int]@);
        let trimmed = text::trim(&lines[i]);
        let name = text::trim_end_slashes(&trimmed);
        if name.as_str().unicode_len() == 0 || (!text::same(&name, &requested) && !text::same(
            &name,
            &last,
        )) {
            proof {
                exact_presence_stays_refused(path@, texts, i + 1);
            }
            return Err(
                Error::failure(
                    text::cat4(
                        "ftp nlst ",
                        path,
                        ": unexpected exact-listing line ",
                        &text::debug_of(&lines[i]),
                    ),
                ),
            );
        }
        i += 1;
    }
    assert(texts.take(i as int) =~= texts);
    if lines.len() == 0 {
        Ok(ExactFilePresence::Missing)
    } else {
        Ok(ExactFilePresence::Present)
    }
}

/// An exact lookup proves absence by an empty reply and by nothing else.
pub proof fn absence_needs_an_empty_reply(path: Seq<char>, lines: Seq<Seq<char>>)
    ensures
        exact_presence(path, lines) == Ok::<ExactFilePresence, error::ErrorView>(
            ExactFilePresence::Missing,
        ) <==> lines.len() == 0,
        exact_presence(path, lines) == Ok::<ExactFilePresence, error::ErrorView>(
            ExactFilePresence::Present,
        ) <==> lines.len() > 0 && forall|i: int|
            0 <= i < lines.len() ==> answers(path, #[trigger] lines[i]),
    decreases lines.len(),
{
    if lines.len() > 0 {
        let before = lines.drop_last();
        absence_needs_an_empty_reply(path, before);
        if forall|i: int| 0 <= i < lines.len() ==> answers(path, #[trigger] lines[i]) {
            assert forall|i: int| 0 <= i < before.len() implies answers(path, #[trigger] before[i]) by {
                assert(before[i] == lines[i]);
            }
        }
        if exact_presence(path, lines) == Ok::<ExactFilePresence, error::ErrorView>(
            ExactFilePresence::Present,
        ) {
            assert forall|i: int| 0 <= i < lines.len() implies answers(path, #[trigger] lines[i]) by {
                if i < before.len() {
                    assert(before[i] == lines[i]);
                }
            }
        }
    }
}

/// The directory that holds `path`, and the name of `path` in it, as a failed
/// directory creation looks them up.
pub open spec fn creation_site(path: Seq<char>) -> (Seq<char>, Seq<char>) {
    match text::split_last(path) {
        Some((parent, name)) => if parent.len() == 0 {
            ("/"@, name)
        } else {
            (parent, name)
        },
        None => ("/"@, path),
    }
}

/// The directory that holds `path`, and the name of `path` in it.
pub fn creation_site_of(path: &str) -> (out: (String, String))
    ensures
        (out.0@, out.1@) == creation_site(path@),
{
    match text::rsplit_slash(path) {
        Some((parent, name)) => if parent.as_str().unicode_len() == 0 {
            ("/".to_owned(), name)
        } else {
            (parent, name)
        },
        None => ("/".to_owned(), path.to_owned()),
    }
}

/// Whether a listing shows a directory of the given name.
pub open spec fn shows_directory(entries: Seq<EntryView>, name: Seq<char>) -> bool {
    exists|i: int|
        0 <= i < entries.len() && (#[trigger] entries[i]).is_dir && entries[i].name == name
}

/// Whether a listing shows a directory of the given name.
pub fn lists_directory(entries: &Vec<Entry>, name: &str) -> (out: bool)
    ensures
        out == shows_directory(text::views(entries@), name@),
{
    let ghost all = text::views(entries@);
    let mut i: usize = 0;
    while i < entries.len()
        invariant
            i <= entries@.len(),
            all == text::views(entries@),
            forall|k: int| 0 <= k < i ==> !((#[trigger] all[k]).is_dir && all[k].name == name@),
        decreases entries.len() - i,
    {
        assert(all[i as int] == entries@[i as int]@);
        if entries[i].is_dir && text::same(&entries[i].name, name) {
            return true;
        }
        i += 1;
    }
    false
}

/// What comes of creating a directory tolerantly. Servers give one reply for a
/// directory that exists and for a real failure, so a failed creation is made
/// good by the listing of its parent, where there is one.
pub open spec fn creation(
    path: Seq<char>,
    refused: Option<Seq<char>>,
    listing: Option<Seq<EntryView>>,
) -> Result<(), error::ErrorView> {
    match refused {
        None => Ok(()),
        Some(cause) => if listing matches Some(entries) && shows_directory(
            entries,
            creation_site(path).1,
        ) {
            Ok(())
        } else {
            Err(error::failure_from("ftp mkdir "@ + path, cause))
        },
    }
}

/// What comes of creating a directory tolerantly, from the cause of a refused
/// creation and what the parent then lists.
pub fn mkdir(path: &str, refused: Option<String>, listing: Option<Vec<Entry>>) -> (out: Result<
    (),
    Error,
>)
    ensures
        error::settles(
            out,
            creation(
                path@,
                match refused {
                    Some(cause) => Some(cause@),
                    None => None,
                },
                match listing {
                    Some(entries) => Some(text::views(entries@)),
                    None => None,
                },
            ),
        ),
{
    match refused {
        None => Ok(()),
        Some(cause) => {
            let name = creation_site_of(path).1;
            let exists = match &listing {
                Some(entries) => lists_directory(entries, &name),
                None => false,
            };
            if exists {
                Ok(())
            } else {
                Err(Error::failure_from(text::cat("ftp mkdir ", path), &cause))
            }
        },
    }
}

/// The failure of an operation on a path. The reply of the server is left out
/// and the path is escaped.
pub open spec fn transport_failure(
    operation: Seq<char>,
    path: Seq<char>,
    verdict: Seq<char>,
) -> error::ErrorView {
    error::failure(operation + text::escaped(path) + verdict)
}

fn transport_error(operation: &str, path: &str, verdict: &str) -> (out: Error)
    ensures
        out@ == transport_failure(operation@, path@, verdict@),
{
    Error::failure(text::cat3(operation, &text::escape(path), verdict))
}

/// A strict listing that the server refused.
pub fn strict_list_transport_error(dir: &str) -> (out: Error)
    ensures
        out@ == transport_failure("ftp list "@, dir@, ": remote listing failed"@),
{
    transport_error("ftp list ", dir, ": remote listing failed")
}

/// A strict directory creation that the server refused.
pub fn strict_mkdir_transport_error(path: &str) -> (out: Error)
    ensures
        out@ == transport_failure("ftp mkdir "@, path@, ": remote create failed"@),
{
    transport_error("ftp mkdir ", path, ": remote create failed")
}

/// A scoped download that the server refused.
pub fn scoped_download_transport_error(path: &str) -> (out: Error)
    ensures
        out@ == transport_failure("ftp scoped download "@, path@, ": remote read failed"@),
{
    transport_error("ftp scoped download ", path, ": remote read failed")
}

/// A scoped upload that the server refused.
pub fn scoped_upload_transport_error(path: &str) -> (out: Error)
    ensures
        out@ == transport_failure("ftp scoped upload "@, path@, ": remote write failed"@),
{
    transport_error("ftp scoped upload ", path, ": remote write failed")
}

/// A scoped request for a modification time that the server refused.
pub fn scoped_mtime_transport_error(path: &str) -> (out: Error)
    ensures
        out@ == transport_failure("ftp scoped mtime "@, path@, ": remote metadata read failed"@),
{
    transport_error("ftp scoped mtime ", path, ": remote metadata read failed")
}

/// A scoped request for a size that the server refused.
pub fn scoped_size_transport_error(path: &str) -> (out: Error)
    ensures
        out@ == transport_failure("ftp scoped size "@, path@, ": remote metadata read failed"@),
{
    transport_error("ftp scoped size ", path, ": remote metadata read failed")
}

/// A scoped removal that the server refused.
pub fn scoped_rm_transport_error(path: &str) -> (out: Error)
    ensures
        out@ == transport_failure("ftp scoped rm "@, path@, ": remote remove failed"@),
{
    transport_error("ftp scoped rm ", path, ": remote remove failed")
}

/// A scoped renaming that the server refused.
pub fn scoped_rename_transport_error(from: &str, to: &str) -> (out: Error)
    ensures
        out@ == error::failure(
            "ftp scoped rename "@ + text::escaped(from@) + " -> "@ + text::escaped(to@)
                + ": remote rename failed"@,
        ),
{
    Error::failure(
        text::cat5(
            "ftp scoped rename ",
            &text::escape(from),
            " -> ",
            &text::escape(to),
            ": remote rename failed",
        ),
    )
}

/// A connection that could not be made.
pub fn connect_error(host: &str, port: u16, cause: &str) -> (out: Error)
    ensures
        out@ == (error::ErrorView {
            exit: error::Exit::Auth,
            message: "ftp connect "@ + host@ + ":"@ + text::decimal(port as nat) + ": "@ + cause@,
            cause: None,
        }),
{
    let place = text::cat4("ftp connect ", host, ":", &text::decimal_of(port as usize));
    Error { exit: error::Exit::Auth, message: text::cat3(&place, ": ", cause), cause: None }
}

/// A login that the server refused.
pub fn login_error(user: &str, cause: &str) -> (out: Error)
    ensures
        out@ == (error::ErrorView {
            exit: error::Exit::Auth,
            message: "ftp login as "@ + user@ + ": "@ + cause@,
            cause: None,
        }),
{
    Error {
        exit: error::Exit::Auth,
        message: text::cat4("ftp login as ", user, ": ", cause),
        cause: None,
    }
}

/// A strict listing keeps every entry that is no symlink.
pub proof fn strict_listing_keeps_the_rest(entries: Seq<EntryView>, entry: EntryView)
    ensures
        without_symlinks(entries).contains(entry) <==> entries.contains(entry)
            && !entry.is_symlink,
    decreases entries.len(),
{
    if entries.len() > 0 {
        let before = entries.drop_last();
        let all = without_symlinks(entries);
        let fewer = without_symlinks(before);
        strict_listing_keeps_the_rest(before, entry);
        if before.contains(entry) {
            let k = choose|k: int| 0 <= k < before.len() && before[k] == entry;
            assert(entries[k] == entry);
        }
        if fewer.contains(entry) {
            let k = choose|k: int| 0 <= k < fewer.len() && fewer[k] == entry;
            assert(all[k] == entry);
        }
        if entries.contains(entry) {
            let k = choose|k: int| 0 <= k < entries.len() && entries[k] == entry;
            if k < before.len() {
                assert(before[k] == entry);
            } else if !entry.is_symlink {
                assert(all[fewer.len() as int] == entry);
            }
        }
        if all.contains(entry) {
            let k = choose|k: int| 0 <= k < all.len() && all[k] == entry;
            if k < fewer.len() {
                assert(fewer[k] == entry);
            } else {
                assert(entries[entries.len() - 1] == entry);
            }
        }
    }
}

/// How many of the first `upto` lines could be read.
pub open spec fn readable(records: Seq<Option<PosixRecord>>, upto: int) -> nat
    decreases upto,
{
    if upto <= 0 {
        0
    } else if records[upto - 1] is Some {
        readable(records, upto - 1) + 1
    } else {
        readable(records, upto - 1)
    }
}

/// A tolerant listing holds an entry for every line that could be read, in order:
/// what the line says.
pub proof fn tolerant_listing_keeps_what_is_readable(records: Seq<Option<PosixRecord>>)
    ensures
        tolerant(records).len() == readable(records, records.len() as int),
        forall|i: int|
            0 <= i < records.len() && (#[trigger] records[i]) is Some ==> tolerant(records)[
                readable(records, i) as int] == entry_of(records[i]->Some_0) && readable(records, i)
                < tolerant(records).len(),
    decreases records.len(),
{
    if records.len() > 0 {
        let before = records.drop_last();
        tolerant_listing_keeps_what_is_readable(before);
        let all = tolerant(records);
        let fewer = tolerant(before);
        assert forall|upto: int| 0 <= upto <= before.len() implies #[trigger] readable(
            before,
            upto,
        ) == readable(records, upto) by {
            readable_of_fewer(records, upto);
        }
        assert(readable(before, before.len() as int) == readable(records, before.len() as int));
        assert forall|i: int| 0 <= i < records.len() && (#[trigger] records[i]) is Some implies all[
            readable(records, i) as int] == entry_of(records[i]->Some_0) && readable(records, i)
            < all.len() by {
            if i < before.len() {
                assert(before[i] == records[i]);
                assert(readable(before, i) == readable(records, i));
            }
        }
    }
}

proof fn readable_of_fewer(records: Seq<Option<PosixRecord>>, upto: int)
    requires
        0 <= upto < records.len(),
    ensures
        readable(records.drop_last(), upto) == readable(records, upto),
    decreases upto,
{
    if upto > 0 {
        readable_of_fewer(records, upto - 1);
        assert(records.drop_last()[upto - 1] == records[upto - 1]);
    }
}

/// Whether a line was read as a file, a directory or a symlink.
pub open spec fn supported(record: Option<PosixRecord>) -> bool {
    record matches Some(record) && (record.is_file || record.is_dir || record.is_symlink)
}

/// A complete listing is one in which every line that is not blank was read as a
/// file, a directory or a symlink, and is refused everywhere else. It holds what
/// each of these lines says.
pub proof fn complete_listing_is_read_to_the_last_line(
    dir: Seq<char>,
    lines: Seq<Seq<char>>,
    records: Seq<Option<PosixRecord>>,
)
    requires
        lines.len() == records.len(),
    ensures
        complete(dir, lines, records) is Ok <==> forall|i: int|
            0 <= i < lines.len() && !blank(#[trigger] lines[i]) ==> supported(records[i]),
        complete(dir, lines, records) matches Ok(entries) ==> forall|i: int|
            0 <= i < lines.len() && !blank(#[trigger] lines[i]) ==> entries.contains(
                entry_of(records[i]->Some_0),
            ),
    decreases lines.len(),
{
    if lines.len() > 0 {
        let l = lines.drop_last();
        let r = records.drop_last();
        complete_listing_is_read_to_the_last_line(dir, l, r);
        let last = lines.len() - 1;
        assert(lines.last() == lines[last]);
        assert forall|i: int| 0 <= i < l.len() implies #[trigger] l[i] == lines[i] && r[i]
            == records[i] by {}
        if complete(dir, l, r) is Err {
            let i = choose|i: int|
                0 <= i < l.len() && !blank(#[trigger] l[i]) && !supported(r[i]);
            assert(!blank(lines[i]));
        } else if complete(dir, lines, records) is Err {
            assert(!blank(lines[last]) && !supported(records[last]));
        }
        if let Ok(entries) = complete(dir, lines, records) {
            let fewer = complete(dir, l, r)->Ok_0;
            assert forall|i: int| 0 <= i < lines.len() && !blank(#[trigger] lines[i]) implies
                supported(records[i]) && entries.contains(entry_of(records[i]->Some_0)) by {
                if i < l.len() {
                    assert(!blank(l[i]));
                    let k = choose|k: int|
                        0 <= k < fewer.len() && fewer[k] == entry_of(r[i]->Some_0);
                    assert(entries[k] == fewer[k]);
                } else {
                    assert(entries[fewer.len() as int] == entry_of(records[i]->Some_0));
                }
            }
        }
    }
}

/// A directory is there after an attempt to create it exactly where the server
/// did not refuse, or where a listing of the directory above shows one of its
/// name. The name is what follows the last slash.
pub proof fn creation_succeeds_where_a_directory_is(
    path: Seq<char>,
    refused: Option<Seq<char>>,
    listing: Option<Seq<EntryView>>,
)
    ensures
        creation(path, refused, listing) is Ok <==> refused is None || (listing is Some && exists|
            i: int|
            0 <= i < listing->Some_0.len() && (#[trigger] listing->Some_0[i]).is_dir
                && listing->Some_0[i].name == paths::leaf(path)),
        creation(path, refused, listing) matches Err(e) ==> e.cause == refused,
        creation_site(path).1 == paths::leaf(path),
        text::split_last(path) matches Some((parent, _)) ==> creation_site(path).0
            == if parent.len() == 0 {
            "/"@
        } else {
            parent
        },
{
}

/// A line of an exact lookup names what was asked for exactly where it is, without
/// spaces around it and slashes behind it, the whole path or its last segment, the
/// path taken without slashes behind it too.
pub proof fn exact_answer_names_the_path(path: Seq<char>, line: Seq<char>)
    ensures
        ({
            let name = text::trim_end(text::trim_space(line));
            let asked = text::trim_end(path);
            answers(path, line) <==> name.len() > 0 && (name == asked || name == paths::leaf(
                asked,
            ))
        }),
        answers(path, line) ==> !(text::trim_end(text::trim_space(line)).last() == '/'),
{
    text::trim_end_is_trimmed(text::trim_space(line));
}

} // verus!
