//! What is remembered of the last synchronisation, and what it says of a file now.

use crate::ftp::Timestamp;
use crate::order::PathMap;
use crate::order;
use crate::text;
use vstd::prelude::*;

verus! {

broadcast use vstd::seq::group_seq_axioms;

/// How a file stands on the two sides.
#[derive(Debug, Clone, Copy, PartialEq, Eq, Structural)]
pub enum FileState {
    InSync,
    LocalChanged,
    RemoteChanged,
    BothChanged,
    LocalOnly,
    RemoteOnly,
    Untracked,
}

impl FileState {
    /// The name of the state, as messages show it.
    pub open spec fn name(self) -> Seq<char> {
        match self {
            FileState::InSync => "InSync"@,
            FileState::LocalChanged => "LocalChanged"@,
            FileState::RemoteChanged => "RemoteChanged"@,
            FileState::BothChanged => "BothChanged"@,
            FileState::LocalOnly => "LocalOnly"@,
            FileState::RemoteOnly => "RemoteOnly"@,
            FileState::Untracked => "Untracked"@,
        }
    }

    /// The name of the state, as messages show it.
    pub fn label(self) -> (out: &'static str)
        ensures
            out@ == self.name(),
    {
        match self {
            FileState::InSync => "InSync",
            FileState::LocalChanged => "LocalChanged",
            FileState::RemoteChanged => "RemoteChanged",
            FileState::BothChanged => "BothChanged",
            FileState::LocalOnly => "LocalOnly",
            FileState::RemoteOnly => "RemoteOnly",
            FileState::Untracked => "Untracked",
        }
    }
}

/// How a file stands, from its hash on each side and the hash it had on both
/// when they were last synchronised. A file that both sides hold without such
/// a record is untracked, even where the two agree.
pub open spec fn standing(
    local: Option<Seq<char>>,
    remote: Option<Seq<char>>,
    known: Option<Seq<char>>,
) -> FileState {
    match (local, remote) {
        (Some(l), Some(r)) => match known {
            None => FileState::Untracked,
            Some(k) => if l == r {
                FileState::InSync
            } else if l == k {
                FileState::RemoteChanged
            } else if r == k {
                FileState::LocalChanged
            } else {
                FileState::BothChanged
            },
        },
        (None, Some(_)) => FileState::RemoteOnly,
        _ => FileState::LocalOnly,
    }
}

/// The text of an optional string.
pub open spec fn optional(s: Option<String>) -> Option<Seq<char>> {
    match s {
        Some(t) => Some(t@),
        None => None,
    }
}

/// How a file stands on the two sides, at least one of which holds it.
pub fn classify(local: &Option<String>, remote: &Option<String>, known: &Option<String>) -> (out:
    FileState)
    requires
        *local is Some || *remote is Some,
    ensures
        out == standing(optional(*local), optional(*remote), optional(*known)),
{
    match (local, remote) {
        (Some(l), Some(r)) => match known {
            None => FileState::Untracked,
            Some(k) => if text::same(l, r) {
                FileState::InSync
            } else if text::same(l, k) {
                FileState::RemoteChanged
            } else if text::same(r, k) {
                FileState::LocalChanged
            } else {
                FileState::BothChanged
            },
        },
        (None, Some(_)) => FileState::RemoteOnly,
        _ => FileState::LocalOnly,
    }
}

/// A file's state is one of agreement only where both sides hold the hash they
/// were last synchronised at or the same new one, and a side counts as changed
/// only where its hash is not the known one.
pub proof fn standing_is_sound(
    local: Option<Seq<char>>,
    remote: Option<Seq<char>>,
    known: Option<Seq<char>>,
)
    requires
        local is Some || remote is Some,
    ensures
        standing(local, remote, known) == FileState::InSync ==> local == remote,
        standing(local, remote, known) == FileState::LocalChanged ==> remote == known && local
            != known,
        standing(local, remote, known) == FileState::RemoteChanged ==> local == known && remote
            != known,
        standing(local, remote, known) == FileState::LocalOnly <==> remote is None,
        standing(local, remote, known) == FileState::RemoteOnly <==> local is None,
        standing(local, remote, known) == FileState::Untracked <==> local is Some && remote is Some
            && known is None,
        standing(local, remote, known) == FileState::BothChanged ==> local != known && remote
            != known && local != remote,
{
}

/// What is remembered of one file.
#[derive(Debug, PartialEq, Eq)]
pub struct FileRecord {
    pub sha256: String,
    pub size: u64,
    pub remote_mtime: Timestamp,
    pub last_synced: Timestamp,
}

/// Whether `after` is `before` with the record of a transferred file at `path`.
pub open spec fn recorded(
    before: Map<Seq<char>, FileRecord>,
    after: Map<Seq<char>, FileRecord>,
    path: Seq<char>,
    sha256: Seq<char>,
    size: u64,
    remote_mtime: Timestamp,
    last_synced: Timestamp,
) -> bool {
    exists|record: FileRecord|
        {
            &&& after == #[trigger] before.insert(path, record)
            &&& record.sha256@ == sha256
            &&& record.size == size
            &&& record.remote_mtime == remote_mtime
            &&& record.last_synced == last_synced
        }
}

/// The hash that is remembered of a path.
pub open spec fn remembered(files: Map<Seq<char>, FileRecord>, path: Seq<char>) -> Option<
    Seq<char>,
> {
    if files.contains_key(path) {
        Some(files[path].sha256@)
    } else {
        None
    }
}

/// A file whose transfer was recorded is in sync as long as both sides hold what was
/// transferred, and from there on a change on one side is told as a change of that
/// side. What is remembered of other files stays.
pub proof fn recorded_file_is_in_sync(
    before: Map<Seq<char>, FileRecord>,
    after: Map<Seq<char>, FileRecord>,
    path: Seq<char>,
    sha256: Seq<char>,
    size: u64,
    remote_mtime: Timestamp,
    last_synced: Timestamp,
    edited: Seq<char>,
)
    requires
        recorded(before, after, path, sha256, size, remote_mtime, last_synced),
        edited != sha256,
    ensures
        remembered(after, path) == Some(sha256),
        after[path].size == size && after[path].remote_mtime == remote_mtime,
        standing(Some(sha256), Some(sha256), remembered(after, path)) == FileState::InSync,
        standing(Some(edited), Some(sha256), remembered(after, path)) == FileState::LocalChanged,
        standing(Some(sha256), Some(edited), remembered(after, path)) == FileState::RemoteChanged,
        forall|other: Seq<char>|
            other != path ==> #[trigger] remembered(after, other) == remembered(before, other),
{
}

/// What is remembered of every file, by its path.
#[derive(Debug)]
pub struct StateFile {
    pub files: PathMap<FileRecord>,
}

impl StateFile {
    /// The state is in order.
    pub open spec fn wf(&self) -> bool {
        self.files.wf()
    }

    /// The hash that is remembered of a path.
    pub open spec fn known(&self, path: Seq<char>) -> Option<Seq<char>> {
        remembered(self.files@, path)
    }

    /// A state that remembers nothing.
    pub fn new() -> (out: StateFile)
        ensures
            out.wf(),
            out.files@ == Map::<Seq<char>, FileRecord>::empty(),
    {
        StateFile { files: PathMap::new() }
    }

    /// The hash that is remembered of a path.
    pub fn known_hash(&self, path: &str) -> (out: Option<String>)
        requires
            self.wf(),
        ensures
            optional(out) == self.known(path@),
    {
        match self.files.get(path) {
            Some(record) => Some(record.sha256.clone()),
            None => None,
        }
    }

    /// Remembers a transferred file: its hash, its size, the time the server
    /// gives for it and the time of the transfer.
    pub fn record(
        &mut self,
        path: &str,
        sha256: &str,
        size: u64,
        remote_mtime: Timestamp,
        last_synced: Timestamp,
    )
        requires
            old(self).wf(),
        ensures
            final(self).wf(),
            recorded(
                old(self).files@,
                final(self).files@,
                path@,
                sha256@,
                size,
                remote_mtime,
                last_synced,
            ),
    {
        let record = FileRecord { sha256: sha256.to_owned(), size, remote_mtime, last_synced };
        self.files.insert(path.to_owned(), record);
        assert(self.files@ == old(self).files@.insert(path@, record));
    }

    /// The remembered hash of a path whose time and size on the server are the
    /// remembered ones, so that its content need not be fetched.
    pub fn cached_hash(&self, path: &str, remote_mtime: Timestamp, size: u64) -> (out: Option<
        String,
    >)
        requires
            self.wf(),
        ensures
            optional(out) == (if self.files@.contains_key(path@) && self.files@[path@].remote_mtime
                == remote_mtime && self.files@[path@].size == size {
                Some(self.files@[path@].sha256@)
            } else {
                None
            }),
    {
        match self.files.get(path) {
            Some(record) => if record.remote_mtime == remote_mtime && record.size == size {
                Some(record.sha256.clone())
            } else {
                None
            },
            None => None,
        }
    }
}

/// Whether two records say the same.
pub open spec fn same_record(a: FileRecord, b: FileRecord) -> bool {
    &&& a.sha256@ == b.sha256@
    &&& a.size == b.size
    &&& a.remote_mtime == b.remote_mtime
    &&& a.last_synced == b.last_synced
}

/// Whether two states remember the same.
pub open spec fn same_files(
    a: Map<Seq<char>, FileRecord>,
    b: Map<Seq<char>, FileRecord>,
) -> bool {
    &&& a.dom() == b.dom()
    &&& forall|path: Seq<char>| #[trigger]
        a.contains_key(path) ==> same_record(a[path], b[path])
}

/// Whether two records say the same.
fn is_same_record(a: &FileRecord, b: &FileRecord) -> (out: bool)
    ensures
        out == same_record(*a, *b),
{
    text::same(&a.sha256, &b.sha256) && a.size == b.size && a.remote_mtime == b.remote_mtime
        && a.last_synced == b.last_synced
}

impl StateFile {
    /// A copy of the state.
    pub fn copy(&self) -> (out: StateFile)
        requires
            self.wf(),
        ensures
            out.wf(),
            same_files(out.files@, self.files@),
    {
        proof {
            self.files.facts();
        }
        let ghost keys = self.files.keys();
        let mut files: PathMap<FileRecord> = PathMap::new();
        let mut i: usize = 0;
        while i < self.files.len()
            invariant
                self.wf(),
                files.wf(),
                i <= keys.len(),
                keys == self.files.keys(),
                keys.len() == self.files.items().len(),
                forall|k: int|
                    0 <= k < keys.len() ==> self.files@.contains_key(#[trigger] keys[k])
                        && self.files@[keys[k]] == self.files.items()[k],
                forall|path: Seq<char>| #[trigger]
                    files@.contains_key(path) <==> keys.take(i as int).contains(path),
                forall|path: Seq<char>| #[trigger]
                    files@.contains_key(path) ==> same_record(files@[path], self.files@[path]),
            decreases keys.len() - i,
        {
            let ghost before = files@;
            let path = self.files.key(i);
            let record = self.files.item(i);
            files.insert(
                path.clone(),
                FileRecord {
                    sha256: record.sha256.clone(),
                    size: record.size,
                    remote_mtime: record.remote_mtime,
                    last_synced: record.last_synced,
                },
            );
            proof {
                let shorter = keys.take(i as int);
                let longer = keys.take(i + 1);
                assert forall|k: Seq<char>| #[trigger]
                    files@.contains_key(k) <==> longer.contains(k) by {
                    if shorter.contains(k) {
                        let m = choose|m: int| 0 <= m < shorter.len() && shorter[m] == k;
                        assert(longer[m] == k);
                    }
                    assert(longer[i as int] == path@);
                    if longer.contains(k) && k != path@ {
                        let m = choose|m: int| 0 <= m < longer.len() && longer[m] == k;
                        assert(shorter[m] == k);
                        assert(before.contains_key(k));
                    }
                }
                assert forall|k: Seq<char>| #[trigger] files@.contains_key(k) implies same_record(
                    files@[k],
                    self.files@[k],
                ) by {
                    if k != path@ {
                        assert(before.contains_key(k));
                    }
                }
            }
            i += 1;
        }
        proof {
            assert(keys.take(i as int) =~= keys);
            assert(files@.dom() =~= self.files@.dom()) by {
                assert forall|k: Seq<char>| files@.dom().contains(k) == self.files@.dom().contains(
                    k,
                ) by {
                    assert(files@.contains_key(k) == self.files@.contains_key(k));
                }
            }
        }
        StateFile { files }
    }

    /// Whether another state remembers something else.
    pub fn differs(&self, other: &StateFile) -> (out: bool)
        requires
            self.wf(),
            other.wf(),
        ensures
            out == !same_files(self.files@, other.files@),
    {
        proof {
            self.files.facts();
            other.files.facts();
            if self.files@.dom() == other.files@.dom() {
                assert forall|k: Seq<char>|
                    self.files.keys().contains(k) <==> other.files.keys().contains(k) by {
                    assert(self.files@.contains_key(k) == other.files@.contains_key(k));
                }
                order::ascending_unique(self.files.keys(), other.files.keys());
            }
        }
        let ghost keys = self.files.keys();
        if self.files.len() != other.files.len() {
            return true;
        }
        let mut i: usize = 0;
        while i < self.files.len()
            invariant
                self.wf(),
                other.wf(),
                i <= keys.len(),
                keys == self.files.keys(),
                keys.len() == other.files.keys().len(),
                self.files@.dom() == other.files@.dom() ==> keys == other.files.keys(),
                keys.len() == self.files.items().len(),
                keys.len() == other.files.items().len(),
                forall|k: int|
                    0 <= k < keys.len() ==> self.files@.contains_key(#[trigger] keys[k])
                        && self.files@[keys[k]] == self.files.items()[k],
                forall|k: int|
                    0 <= k < keys.len() ==> other.files@.contains_key(
                        #[trigger] other.files.keys()[k],
                    ) && other.files@[other.files.keys()[k]] == other.files.items()[k],
                forall|k: int| 0 <= k < i ==> keys[k] == #[trigger] other.files.keys()[k],
                forall|k: int|
                    0 <= k < i ==> same_record(
                        #[trigger] self.files.items()[k],
                        other.files.items()[k],
                    ),
            decreases keys.len() - i,
        {
            if !text::same(self.files.key(i), other.files.key(i)) {
                assert(keys[i as int] != other.files.keys()[i as int]);
                return true;
            }
            if !is_same_record(self.files.item(i), other.files.item(i)) {
                proof {
                    let path = keys[i as int];
                    assert(other.files.keys()[i as int] == path);
                    assert(self.files@.contains_key(path));
                }
                return true;
            }
            i += 1;
        }
        proof {
            assert(keys =~= other.files.keys());
            assert(self.files@.dom() =~= other.files@.dom()) by {
                assert forall|k: Seq<char>|
                    self.files@.dom().contains(k) == other.files@.dom().contains(k) by {
                    assert(self.files@.contains_key(k) <==> keys.contains(k));
                    assert(other.files@.contains_key(k) <==> keys.contains(k));
                }
            }
            assert forall|path: Seq<char>| #[trigger]
                self.files@.contains_key(path) implies same_record(
                self.files@[path],
                other.files@[path],
            ) by {
                let k = choose|k: int| 0 <= k < keys.len() && keys[k] == path;
                assert(other.files.keys()[k] == path);
                assert(same_record(self.files.items()[k], other.files.items()[k]));
            }
        }
        false
    }
}

/// How a file stands once its two sides are exchanged.
pub open spec fn mirrored(state: FileState) -> FileState {
    match state {
        FileState::LocalOnly => FileState::RemoteOnly,
        FileState::RemoteOnly => FileState::LocalOnly,
        FileState::LocalChanged => FileState::RemoteChanged,
        FileState::RemoteChanged => FileState::LocalChanged,
        both => both,
    }
}

/// A state is told exactly where the hashes say so: agreement where both sides hold the
/// same content and something is remembered, a change of one side where the other still
/// holds what is remembered, a change of both where no two hashes are the same. Neither
/// side is preferred: exchanged sides are told by the exchanged state.
pub proof fn standing_is_exact(
    local: Option<Seq<char>>,
    remote: Option<Seq<char>>,
    known: Option<Seq<char>>,
)
    requires
        local is Some || remote is Some,
    ensures
        ({
            let s = standing(local, remote, known);
            let both = local is Some && remote is Some;
            &&& s == FileState::LocalOnly <==> remote is None
            &&& s == FileState::RemoteOnly <==> local is None
            &&& s == FileState::Untracked <==> both && known is None
            &&& s == FileState::InSync <==> both && known is Some && local == remote
            &&& s == FileState::LocalChanged <==> both && remote == known && local != known
            &&& s == FileState::RemoteChanged <==> both && local == known && remote != known
            &&& s == FileState::BothChanged <==> both && known is Some && local != remote && local
                != known && remote != known
            &&& standing(remote, local, known) == mirrored(s)
        }),
{
}

/// Two states remember the same exactly where they remember the same paths and the
/// same hash, size and times of each. Any two records that differ in one of these
/// make the states differ, and then the state is worth saving.
pub proof fn same_files_remember_the_same(
    a: Map<Seq<char>, FileRecord>,
    b: Map<Seq<char>, FileRecord>,
    path: Seq<char>,
)
    ensures
        same_files(a, a),
        same_files(a, b) ==> same_files(b, a),
        same_files(a, b) ==> a.contains_key(path) == b.contains_key(path),
        same_files(a, b) ==> remembered(a, path) == remembered(b, path),
        a.contains_key(path) != b.contains_key(path) ==> !same_files(a, b),
        a.contains_key(path) && b.contains_key(path) && (a[path].sha256@ != b[path].sha256@
            || a[path].size != b[path].size || a[path].remote_mtime != b[path].remote_mtime
            || a[path].last_synced != b[path].last_synced) ==> !same_files(a, b),
{
    if same_files(a, b) {
        assert(a.dom().contains(path) == b.dom().contains(path));
        assert forall|at: Seq<char>| #[trigger] b.contains_key(at) implies same_record(
            b[at],
            a[at],
        ) by {
            assert(a.dom().contains(at) == b.dom().contains(at));
            assert(a.contains_key(at));
        }
    }
}

/// No two states of a file are shown by the same name.
pub proof fn names_tell_states_apart(a: FileState, b: FileState)
    ensures
        a.name() == b.name() <==> a == b,
{
    reveal_strlit("InSync");
    reveal_strlit("LocalChanged");
    reveal_strlit("RemoteChanged");
    reveal_strlit("BothChanged");
    reveal_strlit("LocalOnly");
    reveal_strlit("RemoteOnly");
    reveal_strlit("Untracked");
    let x = a.name();
    let y = b.name();
    if a != b && x == y {
        assert(x.len() == y.len());
        assert(x[0] == y[0]);
        assert(x[1] == y[1]);
        assert(x[5] == y[5]);
        assert(false);
    }
}

} // verus!
