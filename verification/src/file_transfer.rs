//! What a transfer expects of its two ends: the identity of a local path and of
//! what it hangs on, and the state of a remote destination.

use crate::error::Error;
use crate::error;
use crate::ftp::{Entry, EntryView, ExactFilePresence, Timestamp};
use crate::hash;
use crate::listing;
use crate::local_paths;
use crate::paths;
use crate::text;
use vstd::prelude::*;

verus! {

broadcast use vstd::seq::group_seq_axioms;

/// What a local leaf is.
#[derive(Debug, Clone, Copy, PartialEq, Eq, Structural)]
pub enum LocalLeafKind {
    RegularFile,
    SymlinkToFile,
    Directory,
    SymlinkToDirectory,
}

impl LocalLeafKind {
    /// Whether the leaf is a file once symlinks are followed.
    pub open spec fn file(self) -> bool {
        self == LocalLeafKind::RegularFile || self == LocalLeafKind::SymlinkToFile
    }

    /// Whether the leaf is a file once symlinks are followed.
    pub fn is_file(self) -> (out: bool)
        ensures
            out == self.file(),
    {
        match self {
            LocalLeafKind::RegularFile => true,
            LocalLeafKind::SymlinkToFile => true,
            LocalLeafKind::Directory => false,
            LocalLeafKind::SymlinkToDirectory => false,
        }
    }
}

/// What the file system says of a directory that a path hangs on: where it
/// really is, whether it is a directory, and which one. Two identities are
/// equal exactly where they are those of one file system object.
#[derive(Debug)]
pub struct AnchorFacts {
    pub canonical: String,
    pub is_dir: bool,
    pub identity: u64,
}

/// What the file system says of a leaf that is there, symlinks followed but for
/// `is_symlink`. A file comes with its hash.
#[derive(Debug)]
pub struct LeafFacts {
    pub is_symlink: bool,
    pub is_file: bool,
    pub is_dir: bool,
    pub canonical: String,
    pub identity: u64,
    pub size: u64,
    pub modified: Timestamp,
    pub sha256: Option<String>,
}

/// What the file system says of a path: of the local root, of the directory the
/// path is in and of the path itself, `None` where nothing is there.
#[derive(Debug)]
pub struct PathProbe {
    pub root: Result<AnchorFacts, Error>,
    pub parent: Result<AnchorFacts, Error>,
    pub leaf: Result<Option<LeafFacts>, Error>,
}

/// A leaf that was there when it was looked at.
#[derive(Debug)]
pub struct PresentLocalEntry {
    pub kind: LocalLeafKind,
    pub canonical: String,
    pub identity: u64,
    pub size: u64,
    pub modified: Timestamp,
    pub sha256: Option<String>,
}

/// A leaf as it was when it was looked at.
#[derive(Debug)]
pub enum LocalEntrySnapshot {
    Missing,
    Present(PresentLocalEntry),
}

/// What a snapshot of a leaf says.
pub struct PresentView {
    pub kind: LocalLeafKind,
    pub canonical: Seq<char>,
    pub identity: u64,
    pub size: u64,
    pub modified: Timestamp,
    pub sha256: Option<Seq<char>>,
}

/// What a snapshot of a leaf says, `None` where nothing was there.
pub type LeafView = Option<PresentView>;

impl View for LocalEntrySnapshot {
    type V = LeafView;

    open spec fn view(&self) -> LeafView {
        match self {
            LocalEntrySnapshot::Missing => None,
            LocalEntrySnapshot::Present(entry) => Some(
                PresentView {
                    kind: entry.kind,
                    canonical: entry.canonical@,
                    identity: entry.identity,
                    size: entry.size,
                    modified: entry.modified,
                    sha256: crate::state::optional(entry.sha256),
                },
            ),
        }
    }
}

/// The kind of a leaf, where it is a file or a directory.
pub open spec fn kind_of(facts: LeafFacts) -> Option<LocalLeafKind> {
    match (facts.is_symlink, facts.is_file, facts.is_dir) {
        (false, true, false) => Some(LocalLeafKind::RegularFile),
        (true, true, false) => Some(LocalLeafKind::SymlinkToFile),
        (false, false, true) => Some(LocalLeafKind::Directory),
        (true, false, true) => Some(LocalLeafKind::SymlinkToDirectory),
        _ => None,
    }
}

/// The snapshot of the leaf at `path` that some facts give. A leaf that really
/// lies outside the root, and one that is neither file nor directory, is refused.
pub open spec fn leaf_snapshot(
    canonical_root: Seq<char>,
    path: Seq<char>,
    facts: Result<Option<LeafFacts>, Error>,
) -> Result<LeafView, error::ErrorView> {
    match facts {
        Err(e) => Err(e@),
        Ok(None) => Ok(None),
        Ok(Some(leaf)) => if !paths::under_remote_root(canonical_root, leaf.canonical@) {
            Err(error::failure("local entry "@ + path + " resolves outside local root"@))
        } else {
            match kind_of(leaf) {
                None => Err(error::failure("unsupported local entry type at "@ + path)),
                Some(kind) => Ok(
                    Some(
                        PresentView {
                            kind,
                            canonical: leaf.canonical@,
                            identity: leaf.identity,
                            size: leaf.size,
                            modified: leaf.modified,
                            sha256: if kind.file() {
                                crate::state::optional(leaf.sha256)
                            } else {
                                None
                            },
                        },
                    ),
                ),
            }
        },
    }
}

/// The snapshot of the leaf at `path`.
pub fn capture_local_entry(
    canonical_root: &str,
    path: &str,
    facts: Result<Option<LeafFacts>, Error>,
) -> (out: Result<LocalEntrySnapshot, Error>)
    ensures
        error::agrees(out, leaf_snapshot(canonical_root@, path@, facts)),
{
    match facts {
        Err(e) => Err(e),
        Ok(None) => Ok(LocalEntrySnapshot::Missing),
        Ok(Some(leaf)) => {
            if !paths::is_under_remote_root(canonical_root, &leaf.canonical) {
                return Err(
                    Error::failure(
                        text::cat3("local entry ", path, " resolves outside local root"),
                    ),
                );
            }
            let kind = match (leaf.is_symlink, leaf.is_file, leaf.is_dir) {
                (false, true, false) => LocalLeafKind::RegularFile,
                (true, true, false) => LocalLeafKind::SymlinkToFile,
                (false, false, true) => LocalLeafKind::Directory,
                (true, false, true) => LocalLeafKind::SymlinkToDirectory,
                _ => {
                    return Err(
                        Error::failure(text::cat("unsupported local entry type at ", path)),
                    );
                },
            };
            let sha256 = if kind.is_file() {
                leaf.sha256
            } else {
                None
            };
            Ok(
                LocalEntrySnapshot::Present(
                    PresentLocalEntry {
                        kind,
                        canonical: leaf.canonical,
                        identity: leaf.identity,
                        size: leaf.size,
                        modified: leaf.modified,
                        sha256,
                    },
                ),
            )
        },
    }
}

/// Whether two optional strings are the same.
pub fn same_optional(a: &Option<String>, b: &Option<String>) -> (out: bool)
    ensures
        out == (crate::state::optional(*a) == crate::state::optional(*b)),
{
    match (a, b) {
        (Some(x), Some(y)) => text::same(x, y),
        (None, None) => true,
        _ => false,
    }
}

/// Whether two snapshots of a leaf are the same.
pub fn same_local_entry(expected: &LocalEntrySnapshot, current: &LocalEntrySnapshot) -> (out: bool)
    ensures
        out == (expected@ == current@),
{
    match (expected, current) {
        (LocalEntrySnapshot::Missing, LocalEntrySnapshot::Missing) => true,
        (LocalEntrySnapshot::Present(a), LocalEntrySnapshot::Present(b)) => a.kind == b.kind
            && text::same(&a.canonical, &b.canonical) && a.identity == b.identity && a.size
            == b.size && a.modified == b.modified && same_optional(&a.sha256, &b.sha256),
        _ => false,
    }
}

/// What a local path was when it was captured: the root it must stay in, the
/// directory it is in and the leaf itself. A write goes to the leaf in the
/// directory as it really is, never through the path it was asked for by.
#[derive(Debug)]
pub struct LocalPathExpectation {
    pub canonical_root: String,
    pub root_identity: u64,
    pub canonical_parent: String,
    pub parent_identity: u64,
    pub leaf: String,
    pub entry: LocalEntrySnapshot,
}

/// What an expectation says.
pub struct ExpectationView {
    pub canonical_root: Seq<char>,
    pub root_identity: u64,
    pub canonical_parent: Seq<char>,
    pub parent_identity: u64,
    pub leaf: Seq<char>,
    pub entry: LeafView,
}

impl View for LocalPathExpectation {
    type V = ExpectationView;

    open spec fn view(&self) -> ExpectationView {
        ExpectationView {
            canonical_root: self.canonical_root@,
            root_identity: self.root_identity,
            canonical_parent: self.canonical_parent@,
            parent_identity: self.parent_identity,
            leaf: self.leaf@,
            entry: self.entry@,
        }
    }
}

impl ExpectationView {
    /// Where the leaf really is.
    pub open spec fn resolved(self) -> Seq<char> {
        local_paths::joined(self.canonical_parent, self.leaf)
    }

    /// The hash of the leaf, where it is a file.
    pub open spec fn file_hash(self) -> Option<Seq<char>> {
        match self.entry {
            Some(entry) => if entry.kind.file() {
                entry.sha256
            } else {
                None
            },
            None => None,
        }
    }

    /// Whether the leaf is a file or missing.
    pub open spec fn file_or_missing(self) -> bool {
        self.entry matches Some(entry) ==> entry.kind.file()
    }
}

/// The expectation that a probe of `path` below `local_root` gives.
pub open spec fn captured(local_root: Seq<char>, path: Seq<char>, probe: PathProbe) -> Result<
    ExpectationView,
    error::ErrorView,
> {
    match probe.root {
        Err(e) => Err(e@),
        Ok(root) => if !root.is_dir {
            Err(error::failure("local root "@ + local_root + " is not a directory"@))
        } else {
            match (local_paths::parent(path), probe.parent) {
                (None, _) => Err(
                    error::failure("local target "@ + path + " has no parent"@),
                ),
                (Some(_), Err(e)) => Err(e@),
                (Some(above), Ok(parent)) => if !parent.is_dir {
                    Err(
                        error::failure(
                            "local target parent "@ + above + " is not a directory"@,
                        ),
                    )
                } else if !paths::under_remote_root(root.canonical@, parent.canonical@) {
                    Err(
                        error::failure(
                            "local target parent "@ + above + " resolves outside local root "@
                                + local_root,
                        ),
                    )
                } else {
                    match local_paths::file_name(path) {
                        None => Err(
                            error::failure("local target "@ + path + " has no file name"@),
                        ),
                        Some(leaf) => match leaf_snapshot(
                            root.canonical@,
                            local_paths::joined(parent.canonical@, leaf),
                            probe.leaf,
                        ) {
                            Err(e) => Err(e),
                            Ok(entry) => Ok(
                                ExpectationView {
                                    canonical_root: root.canonical@,
                                    root_identity: root.identity,
                                    canonical_parent: parent.canonical@,
                                    parent_identity: parent.identity,
                                    leaf,
                                    entry,
                                },
                            ),
                        },
                    }
                },
            }
        },
    }
}

/// Whether the root and the directory of an expectation are still what they
/// were, `root` and `parent` being what the file system now says of them.
pub open spec fn anchored(
    expected: ExpectationView,
    root: Result<AnchorFacts, Error>,
    parent: Result<AnchorFacts, Error>,
) -> Result<(), error::ErrorView> {
    match root {
        Err(e) => Err(e@),
        Ok(root) => if root.canonical@ != expected.canonical_root || !root.is_dir || root.identity
            != expected.root_identity {
            Err(error::failure("local root changed"@))
        } else {
            match parent {
                Err(e) => Err(e@),
                Ok(parent) => if parent.canonical@ != expected.canonical_parent
                    || !paths::under_remote_root(expected.canonical_root, parent.canonical@)
                    || !parent.is_dir || parent.identity != expected.parent_identity {
                    Err(error::failure("local target parent changed"@))
                } else {
                    Ok(())
                },
            }
        },
    }
}

/// Whether an expectation still holds, `probe` being what the file system now
/// says of its root, its directory and its leaf.
pub open spec fn unchanged(expected: ExpectationView, probe: PathProbe) -> Result<
    (),
    error::ErrorView,
> {
    match anchored(expected, probe.root, probe.parent) {
        Err(e) => Err(e),
        Ok(_) => match leaf_snapshot(expected.canonical_root, expected.resolved(), probe.leaf) {
            Err(e) => Err(e),
            Ok(entry) => if entry == expected.entry {
                Ok(())
            } else {
                Err(error::failure("local entry changed"@))
            },
        },
    }
}

impl LocalPathExpectation {
    /// Captures what `path` below `local_root` is.
    pub fn capture(local_root: &str, path: &str, probe: PathProbe) -> (out: Result<
        LocalPathExpectation,
        Error,
    >)
        ensures
            error::agrees(out, captured(local_root@, path@, probe)),
    {
        let root = match probe.root {
            Err(e) => {
                return Err(e);
            },
            Ok(root) => root,
        };
        if !root.is_dir {
            return Err(
                Error::failure(text::cat3("local root ", local_root, " is not a directory")),
            );
        }
        let shown = match local_paths::parent_of(path) {
            Some(above) => above,
            None => {
                return Err(Error::failure(text::cat3("local target ", path, " has no parent")));
            },
        };
        let parent = match probe.parent {
            Err(e) => {
                return Err(e);
            },
            Ok(parent) => parent,
        };
        if !parent.is_dir {
            return Err(
                Error::failure(
                    text::cat3("local target parent ", &shown, " is not a directory"),
                ),
            );
        }
        if !paths::is_under_remote_root(&root.canonical, &parent.canonical) {
            return Err(
                Error::failure(
                    text::cat4(
                        "local target parent ",
                        &shown,
                        " resolves outside local root ",
                        local_root,
                    ),
                ),
            );
        }
        let leaf = match local_paths::file_name_of(path) {
            Some(leaf) => leaf,
            None => {
                return Err(Error::failure(text::cat3("local target ", path, " has no file name")));
            },
        };
        let resolved = local_paths::join(&parent.canonical, &leaf);
        match capture_local_entry(&root.canonical, &resolved, probe.leaf) {
            Err(e) => Err(e),
            Ok(entry) => Ok(
                LocalPathExpectation {
                    canonical_root: root.canonical,
                    root_identity: root.identity,
                    canonical_parent: parent.canonical,
                    parent_identity: parent.identity,
                    leaf,
                    entry,
                },
            ),
        }
    }

    /// Where the leaf really is.
    pub fn resolved_path(&self) -> (out: String)
        ensures
            out@ == self@.resolved(),
    {
        local_paths::join(&self.canonical_parent, &self.leaf)
    }

    /// Checks that a path still leads to the captured directory: `parent` is
    /// what the file system now says of the directory it names.
    pub fn verify_supplied_path(&self, path: &str, parent: Result<AnchorFacts, Error>) -> (out:
        Result<(), Error>)
        ensures
            error::settles(out, supplied(self@, path@, parent)),
    {
        let same_leaf = match local_paths::file_name_of(path) {
            Some(leaf) => text::same(&leaf, &self.leaf),
            None => false,
        };
        if !same_leaf {
            return Err(Error::failure("local path leaf changed".to_owned()));
        }
        match parent {
            Err(e) => Err(e),
            Ok(parent) => if !parent.is_dir || !text::same(
                &parent.canonical,
                &self.canonical_parent,
            ) {
                Err(Error::failure("local path parent changed".to_owned()))
            } else {
                Ok(())
            },
        }
    }

    /// Checks that the root and the directory are still what they were.
    pub fn verify_anchor(
        &self,
        root: Result<AnchorFacts, Error>,
        parent: Result<AnchorFacts, Error>,
    ) -> (out: Result<(), Error>)
        ensures
            error::settles(out, anchored(self@, root, parent)),
    {
        match root {
            Err(e) => {
                return Err(e);
            },
            Ok(root) => {
                if !text::same(&root.canonical, &self.canonical_root) || !root.is_dir
                    || root.identity != self.root_identity {
                    return Err(Error::failure("local root changed".to_owned()));
                }
            },
        }
        match parent {
            Err(e) => Err(e),
            Ok(parent) => if !text::same(&parent.canonical, &self.canonical_parent)
                || !paths::is_under_remote_root(&self.canonical_root, &parent.canonical)
                || !parent.is_dir || parent.identity != self.parent_identity {
                Err(Error::failure("local target parent changed".to_owned()))
            } else {
                Ok(())
            },
        }
    }

    /// Checks that nothing changed since the capture.
    pub fn verify_unchanged(&self, probe: PathProbe) -> (out: Result<(), Error>)
        ensures
            error::settles(out, unchanged(self@, probe)),
    {
        match self.verify_anchor(probe.root, probe.parent) {
            Err(e) => {
                return Err(e);
            },
            Ok(_) => {},
        }
        let resolved = self.resolved_path();
        match capture_local_entry(&self.canonical_root, &resolved, probe.leaf) {
            Err(e) => Err(e),
            Ok(current) => if same_local_entry(&current, &self.entry) {
                Ok(())
            } else {
                Err(Error::failure("local entry changed".to_owned()))
            },
        }
    }

    /// Whether the leaf is a file or missing.
    pub fn is_file_or_missing(&self) -> (out: bool)
        ensures
            out == self@.file_or_missing(),
    {
        match &self.entry {
            LocalEntrySnapshot::Missing => true,
            LocalEntrySnapshot::Present(entry) => entry.kind.is_file(),
        }
    }

    /// The hash of the leaf, where it is a file.
    pub fn expected_file_hash(&self) -> (out: Option<String>)
        ensures
            crate::state::optional(out) == self@.file_hash(),
    {
        match &self.entry {
            LocalEntrySnapshot::Missing => None,
            LocalEntrySnapshot::Present(entry) => if entry.kind.is_file() {
                match &entry.sha256 {
                    Some(hash) => Some(hash.clone()),
                    None => None,
                }
            } else {
                None
            },
        }
    }
}

/// Whether a path still leads to the captured directory.
pub open spec fn supplied(
    expected: ExpectationView,
    path: Seq<char>,
    parent: Result<AnchorFacts, Error>,
) -> Result<(), error::ErrorView> {
    if local_paths::file_name(path) != Some(expected.leaf) {
        Err(error::failure("local path leaf changed"@))
    } else {
        match parent {
            Err(e) => Err(e@),
            Ok(parent) => if !parent.is_dir || parent.canonical@ != expected.canonical_parent {
                Err(error::failure("local path parent changed"@))
            } else {
                Ok(())
            },
        }
    }
}

/// A capture holds of the facts it was made from, where the path leads to its
/// directory directly.
pub proof fn capture_is_unchanged_at_once(
    local_root: Seq<char>,
    path: Seq<char>,
    probe: PathProbe,
)
    requires
        captured(local_root, path, probe) is Ok,
    ensures
        unchanged(captured(local_root, path, probe)->Ok_0, probe) is Ok,
{
}

/// Where an expectation holds, the leaf and its directory really lie in the
/// root: no symlink has taken either of them elsewhere.
pub proof fn unchanged_stays_in_root(expected: ExpectationView, probe: PathProbe)
    requires
        unchanged(expected, probe) is Ok,
    ensures
        probe.parent matches Ok(parent) && paths::under_remote_root(
            expected.canonical_root,
            parent.canonical@,
        ),
        probe.leaf matches Ok(Some(leaf)) ==> paths::under_remote_root(
            expected.canonical_root,
            leaf.canonical@,
        ),
{
}

/// The state of a remote destination.
#[derive(Debug, Clone, PartialEq, Eq)]
pub enum RemoteDestinationSnapshot {
    Missing,
    File { size: u64, modified: Timestamp, sha256: String },
    Directory,
}

/// What a snapshot of a remote destination says.
pub enum SnapshotView {
    Missing,
    File { size: u64, modified: Timestamp, sha256: Seq<char> },
    Directory,
}

impl View for RemoteDestinationSnapshot {
    type V = SnapshotView;

    open spec fn view(&self) -> SnapshotView {
        match self {
            RemoteDestinationSnapshot::Missing => SnapshotView::Missing,
            RemoteDestinationSnapshot::File { size, modified, sha256 } => SnapshotView::File {
                size: *size,
                modified: *modified,
                sha256: sha256@,
            },
            RemoteDestinationSnapshot::Directory => SnapshotView::Directory,
        }
    }
}

impl RemoteDestinationSnapshot {
    /// A copy of the snapshot.
    pub fn copy(&self) -> (out: RemoteDestinationSnapshot)
        ensures
            out@ == self@,
    {
        match self {
            RemoteDestinationSnapshot::Missing => RemoteDestinationSnapshot::Missing,
            RemoteDestinationSnapshot::File { size, modified, sha256 } =>
                RemoteDestinationSnapshot::File {
                size: *size,
                modified: *modified,
                sha256: sha256.clone(),
            },
            RemoteDestinationSnapshot::Directory => RemoteDestinationSnapshot::Directory,
        }
    }

    /// Whether two snapshots are the same.
    pub fn same(&self, other: &RemoteDestinationSnapshot) -> (out: bool)
        ensures
            out == (self@ == other@),
    {
        match (self, other) {
            (RemoteDestinationSnapshot::Missing, RemoteDestinationSnapshot::Missing) => true,
            (RemoteDestinationSnapshot::Directory, RemoteDestinationSnapshot::Directory) => true,
            (
                RemoteDestinationSnapshot::File { size: s1, modified: m1, sha256: h1 },
                RemoteDestinationSnapshot::File { size: s2, modified: m2, sha256: h2 },
            ) => *s1 == *s2 && *m1 == *m2 && text::same(h1, h2),
            _ => false,
        }
    }
}

/// What complete listings from the root down show at a destination.
#[derive(Debug, Clone, Copy, PartialEq, Eq, Structural)]
pub enum StrictRemoteResolution {
    Missing,
    File { size: u64, modified: Timestamp },
    Directory,
}

/// A descent from the remote root to a destination: the directory to list next,
/// and the segments of the destination, of which those before `index` are
/// behind.
#[derive(Debug)]
pub struct DestinationWalk {
    pub directory: String,
    pub segments: Vec<String>,
    pub index: usize,
}

/// What a descent says.
pub struct DescentView {
    pub directory: Seq<char>,
    pub segments: Seq<Seq<char>>,
    pub index: nat,
}

impl View for DestinationWalk {
    type V = DescentView;

    open spec fn view(&self) -> DescentView {
        DescentView {
            directory: self.directory@,
            segments: text::views(self.segments@),
            index: self.index as nat,
        }
    }
}

impl DestinationWalk {
    /// The descent has a segment ahead.
    pub open spec fn wf(&self) -> bool {
        self.index < self.segments@.len()
    }
}

/// What a listing leads to.
#[derive(Debug)]
pub enum DestinationProgress {
    /// List the directory of the descent and hand the listing back.
    List(DestinationWalk),
    Settled(Result<StrictRemoteResolution, Error>),
}

/// What a listing leads to.
pub enum ProgressView {
    List(DescentView),
    Settled(Result<StrictRemoteResolution, error::ErrorView>),
}

impl View for DestinationProgress {
    type V = ProgressView;

    open spec fn view(&self) -> ProgressView {
        match self {
            DestinationProgress::List(walk) => ProgressView::List(walk@),
            DestinationProgress::Settled(Ok(resolution)) => ProgressView::Settled(Ok(*resolution)),
            DestinationProgress::Settled(Err(e)) => ProgressView::Settled(Err(e@)),
        }
    }
}

/// A result with its error taken by its view, and its listing too.
pub open spec fn listed(reply: Result<Vec<Entry>, Error>) -> Result<
    Seq<EntryView>,
    error::ErrorView,
> {
    match reply {
        Ok(entries) => Ok(text::views(entries@)),
        Err(e) => Err(e@),
    }
}

/// A failed listing of a directory.
pub open spec fn listing_failure(directory: Seq<char>, cause: error::ErrorView) -> error::ErrorView {
    error::failure_from(
        "listing remote directory "@ + text::debug_text(directory),
        error::full_message(cause),
    )
}

/// A failed listing of a directory.
pub fn listing_error(directory: &str, cause: &Error) -> (out: Error)
    ensures
        out@ == listing_failure(directory@, cause@),
{
    Error::failure_from(
        text::cat("listing remote directory ", &text::debug_of(directory)),
        &cause.full_message(),
    )
}

/// Where a descent to `path` below `root` starts.
pub open spec fn descent(root: Seq<char>, path: Seq<char>) -> ProgressView {
    match paths::root_of(root) {
        Err(e) => ProgressView::Settled(Err(e)),
        Ok(root) => match paths::destination_of(root, path) {
            Err(e) => ProgressView::Settled(Err(e)),
            Ok(relative) => ProgressView::List(
                DescentView { directory: root, segments: text::segments(relative), index: 0 },
            ),
        },
    }
}

/// Where the listing of the directory of a descent leads. A symlink on the way
/// or at the end is refused; a missing leaf is missing, a missing directory on
/// the way is a failure.
pub open spec fn descended(
    walk: DescentView,
    reply: Result<Seq<EntryView>, error::ErrorView>,
) -> ProgressView {
    let expected = walk.segments[walk.index as int];
    let is_leaf = walk.index + 1 == walk.segments.len();
    match reply {
        Err(cause) => ProgressView::Settled(Err(listing_failure(walk.directory, cause))),
        Ok(entries) => match listing::children(paths::slash(), walk.directory, entries) {
            Err(e) => ProgressView::Settled(Err(e)),
            Ok(children) => match listing::named(children, expected) {
                None => if is_leaf {
                    ProgressView::Settled(Ok(StrictRemoteResolution::Missing))
                } else {
                    ProgressView::Settled(
                        Err(
                            error::failure(
                                "remote destination parent is missing below "@ + text::debug_text(
                                    walk.directory,
                                ),
                            ),
                        ),
                    )
                },
                Some(entry) => if entry.is_symlink {
                    ProgressView::Settled(
                        Err(symlink_failure(expected, walk.directory)),
                    )
                } else if is_leaf {
                    ProgressView::Settled(
                        Ok(
                            if entry.is_dir {
                                StrictRemoteResolution::Directory
                            } else {
                                StrictRemoteResolution::File {
                                    size: entry.size,
                                    modified: entry.modified,
                                }
                            },
                        ),
                    )
                } else if !entry.is_dir {
                    ProgressView::Settled(
                        Err(
                            error::failure(
                                "remote destination parent is not a directory at "@
                                    + text::debug_text(expected),
                            ),
                        ),
                    )
                } else {
                    ProgressView::List(
                        DescentView {
                            directory: paths::remote_joined(walk.directory, expected),
                            segments: walk.segments,
                            index: walk.index + 1,
                        },
                    )
                },
            },
        },
    }
}

/// A symlink on the way to a destination.
pub open spec fn symlink_failure(
    expected: Seq<char>,
    directory: Seq<char>,
) -> error::ErrorView {
    error::failure(
        "remote destination is a symlink at "@ + text::debug_text(expected) + " in "@
            + text::debug_text(directory)
            + ": refusing to follow it because the target can resolve outside the configured remote root"@,
    )
}

/// Starts the descent to a destination.
pub fn resolve_remote_destination(remote_root: &str, path: &str) -> (out: DestinationProgress)
    ensures
        out@ == descent(remote_root@, path@),
        out matches DestinationProgress::List(walk) ==> walk.wf(),
{
    match paths::normalize_remote_root(remote_root) {
        Err(e) => DestinationProgress::Settled(Err(e)),
        Ok(root) => match paths::relative_remote_destination(&root, path) {
            Err(e) => DestinationProgress::Settled(Err(e)),
            Ok(relative) => {
                let segments = text::split_slashes(&relative);
                DestinationProgress::List(DestinationWalk { directory: root, segments, index: 0 })
            },
        },
    }
}

impl DestinationWalk {
    /// Takes the listing of the directory of the descent.
    pub fn on_listing(self, reply: Result<Vec<Entry>, Error>) -> (out: DestinationProgress)
        requires
            self.wf(),
        ensures
            out@ == descended(self@, listed(reply)),
            out matches DestinationProgress::List(walk) ==> walk.wf(),
            reply is Ok ==> (out matches DestinationProgress::Settled(Err(e)) ==> error::plain(
                e@,
            )),
    {
        proof {
            reveal_strlit("remote destination parent is missing below ");
            reveal_strlit("remote destination parent is not a directory at ");
            reveal_strlit("remote destination is a symlink at ");
            reveal_strlit(" in ");
            reveal_strlit(
                ": refusing to follow it because the target can resolve outside the configured remote root",
            );
        }
        let entries = match reply {
            Err(cause) => {
                return DestinationProgress::Settled(Err(listing_error(&self.directory, &cause)));
            },
            Ok(entries) => entries,
        };
        let mut server_root = String::new();
        server_root.push('/');
        assert(server_root@ =~= paths::slash());
        let children = match listing::children_of(&server_root, &self.directory, &entries) {
            Err(e) => {
                return DestinationProgress::Settled(Err(e));
            },
            Ok(children) => children,
        };
        let is_leaf = self.index == self.segments.len() - 1;
        let expected = &self.segments[self.index];
        assert(self@.segments[self@.index as int] == expected@);
        match listing::find_named(&children, expected) {
            None => if is_leaf {
                DestinationProgress::Settled(Ok(StrictRemoteResolution::Missing))
            } else {
                DestinationProgress::Settled(
                    Err(
                        Error::failure(
                            text::quote_after(
                                "remote destination parent is missing below ",
                                &self.directory,
                            ),
                        ),
                    ),
                )
            },
            Some(at) => {
                let entry = &children[at];
                if entry.is_symlink {
                    let first = text::quote_after("remote destination is a symlink at ", expected);
                    let second = text::quote_after(" in ", &self.directory);
                    let reason = ": refusing to follow it because the target can resolve outside the configured remote root";
                    proof {
                        text::control_in_either(first@, second@);
                        text::control_in_either(first@ + second@, reason@);
                    }
                    let message = text::cat3(&first, &second, reason);
                    assert(message@ =~= symlink_failure(expected@, self@.directory).message);
                    return DestinationProgress::Settled(Err(Error::failure(message)));
                }
                if is_leaf {
                    return DestinationProgress::Settled(
                        Ok(
                            if entry.is_dir {
                                StrictRemoteResolution::Directory
                            } else {
                                StrictRemoteResolution::File {
                                    size: entry.size,
                                    modified: entry.modified,
                                }
                            },
                        ),
                    );
                }
                if !entry.is_dir {
                    return DestinationProgress::Settled(
                        Err(
                            Error::failure(
                                text::quote_after(
                                    "remote destination parent is not a directory at ",
                                    expected,
                                ),
                            ),
                        ),
                    );
                }
                let directory = paths::remote_path_join(&self.directory, expected);
                DestinationProgress::List(
                    DestinationWalk {
                        directory,
                        index: self.index + 1,
                        segments: self.segments,
                    },
                )
            },
        }
    }
}

/// What a whole descent finds, `server` being what each directory lists.
pub open spec fn resolution(
    walk: DescentView,
    server: spec_fn(Seq<char>) -> Result<Seq<EntryView>, error::ErrorView>,
) -> Result<StrictRemoteResolution, error::ErrorView>
    decreases walk.segments.len() - walk.index,
    when walk.index < walk.segments.len()
{
    match descended(walk, server(walk.directory)) {
        ProgressView::List(next) => resolution(next, server),
        ProgressView::Settled(result) => result,
    }
}

/// Whether a listing shows a child that is not a symlink.
pub open spec fn shows_plain(
    directory: Seq<char>,
    name: Seq<char>,
    reply: Result<Seq<EntryView>, error::ErrorView>,
) -> bool {
    reply matches Ok(entries) && listing::children(paths::slash(), directory, entries) matches Ok(
        children,
    ) && listing::named(children, name) matches Some(entry) && !entry.is_symlink
}

/// A destination that is found is found through no symlink: neither the leaf nor
/// any directory on the way to it is one.
pub proof fn found_destination_follows_no_symlink(
    walk: DescentView,
    server: spec_fn(Seq<char>) -> Result<Seq<EntryView>, error::ErrorView>,
)
    requires
        walk.index < walk.segments.len(),
        resolution(walk, server) matches Ok(found) && found != StrictRemoteResolution::Missing,
    ensures
        shows_plain(walk.directory, walk.segments[walk.index as int], server(walk.directory)),
        descended(walk, server(walk.directory)) matches ProgressView::List(next) ==> resolution(
            next,
            server,
        ) == resolution(walk, server) && next.directory == paths::remote_joined(
            walk.directory,
            walk.segments[walk.index as int],
        ),
{
}

/// A symlink where a destination or a directory on its way should be is always
/// refused, whatever it points at.
pub proof fn symlink_is_refused(walk: DescentView, entries: Seq<EntryView>)
    requires
        walk.index < walk.segments.len(),
        listing::children(paths::slash(), walk.directory, entries) matches Ok(children)
            && listing::named(children, walk.segments[walk.index as int]) matches Some(entry)
            && entry.is_symlink,
    ensures
        descended(walk, Ok(entries)) == ProgressView::Settled(
            Err(symlink_failure(walk.segments[walk.index as int], walk.directory)),
        ),
{
}

/// What a transfer ended in.
#[derive(Debug, Clone, Copy, PartialEq, Eq, Structural)]
pub enum TransferStatus {
    Unchanged,
    Transferred,
    SkippedMissingSource,
}

/// What a transfer of one path ended in.
#[derive(Debug, Clone, PartialEq, Eq)]
pub struct TransferOutcome {
    pub path: String,
    pub status: TransferStatus,
}

impl TransferOutcome {
    /// The outcome of a transfer of `path`.
    pub fn new(path: &str, status: TransferStatus) -> (out: TransferOutcome)
        ensures
            out.path@ == path@,
            out.status == status,
    {
        TransferOutcome { path: path.to_owned(), status }
    }
}

/// Whether a remote file is there, where that is proved.
#[derive(Debug, Clone, Copy, PartialEq, Eq, Structural)]
pub enum RemotePresence {
    Present,
    Missing,
}

/// A probe whose size request failed: an exact lookup must settle it.
#[derive(Debug)]
pub struct PendingProbe {
    pub path: String,
    pub size_error: Error,
}

/// What the reply to a size request leads to.
#[derive(Debug)]
pub enum RemoteProbe {
    /// Look the path up exactly and hand the reply back.
    LookUp(PendingProbe),
    Settled(RemotePresence),
}

/// Asks whether `path` is a remote file, `size` being the reply to a size
/// request for it. A size proves presence; servers need not support the request,
/// so a refused one proves nothing and asks for an exact lookup.
pub fn probe_remote_file(path: &str, size: Result<u64, Error>) -> (out: RemoteProbe)
    ensures
        match size {
            Ok(_) => out == RemoteProbe::Settled(RemotePresence::Present),
            Err(e) => out matches RemoteProbe::LookUp(pending) && pending.path@ == path@
                && pending.size_error == e,
        },
{
    match size {
        Ok(_) => RemoteProbe::Settled(RemotePresence::Present),
        Err(size_error) => RemoteProbe::LookUp(
            PendingProbe { path: path.to_owned(), size_error },
        ),
    }
}

/// What an exact lookup settles after a refused size request.
pub open spec fn settled_presence(
    path: Seq<char>,
    size_error: error::ErrorView,
    exact: Result<ExactFilePresence, error::ErrorView>,
) -> Result<RemotePresence, error::ErrorView> {
    match exact {
        Ok(ExactFilePresence::Present) => Ok(RemotePresence::Present),
        Ok(ExactFilePresence::Missing) => Ok(RemotePresence::Missing),
        Err(exact_error) => Err(
            error::failure_from(
                "remote presence for "@ + path + " is indeterminate after exact lookup: "@
                    + error::full_message(exact_error),
                error::full_message(size_error),
            ),
        ),
    }
}

impl PendingProbe {
    /// Settles the probe by the reply to an exact lookup. Where that fails too,
    /// both failures are reported and nothing is decided.
    pub fn settle(self, exact: Result<ExactFilePresence, Error>) -> (out: Result<
        RemotePresence,
        Error,
    >)
        ensures
            error::settles(
                out,
                settled_presence(
                    self.path@,
                    self.size_error@,
                    match exact {
                        Ok(found) => Ok(found),
                        Err(e) => Err(e@),
                    },
                ),
            ),
    {
        match exact {
            Ok(ExactFilePresence::Present) => Ok(RemotePresence::Present),
            Ok(ExactFilePresence::Missing) => Ok(RemotePresence::Missing),
            Err(exact_error) => Err(
                Error::failure_from(
                    text::cat4(
                        "remote presence for ",
                        &self.path,
                        " is indeterminate after exact lookup: ",
                        &exact_error.full_message(),
                    ),
                    &self.size_error.full_message(),
                ),
            ),
        }
    }
}

/// A failed probe is never taken for absence: a file is missing only where an
/// exact lookup says so.
pub proof fn probe_never_fails_open(
    path: Seq<char>,
    size_error: error::ErrorView,
    exact: Result<ExactFilePresence, error::ErrorView>,
)
    ensures
        settled_presence(path, size_error, exact) == Ok::<RemotePresence, error::ErrorView>(
            RemotePresence::Missing,
        ) <==> exact == Ok::<ExactFilePresence, error::ErrorView>(ExactFilePresence::Missing),
{
}

/// How far a snapshot of a destination has come.
#[derive(Debug)]
pub enum SnapshotStage {
    /// Descending to the destination for the first time.
    Before(DestinationWalk),
    /// Fetching the file that the first descent found.
    Fetch { size: u64, modified: Timestamp },
    /// Descending again, to see that the file stayed what it was.
    After {
        size: u64,
        modified: Timestamp,
        complete: bool,
        sha256: String,
        walk: DestinationWalk,
    },
}

/// How far a snapshot of a destination has come.
pub enum StageView {
    Before(DescentView),
    Fetch { size: u64, modified: Timestamp },
    After {
        size: u64,
        modified: Timestamp,
        complete: bool,
        sha256: Seq<char>,
        walk: DescentView,
    },
}

/// A snapshot of the destination `path` below `root` in the making.
#[derive(Debug)]
pub struct SnapshotRun {
    pub root: String,
    pub path: String,
    pub stage: SnapshotStage,
}

/// What a snapshot in the making says.
pub struct SnapshotRunView {
    pub root: Seq<char>,
    pub path: Seq<char>,
    pub stage: StageView,
}

impl View for SnapshotRun {
    type V = SnapshotRunView;

    open spec fn view(&self) -> SnapshotRunView {
        SnapshotRunView {
            root: self.root@,
            path: self.path@,
            stage: match self.stage {
                SnapshotStage::Before(walk) => StageView::Before(walk@),
                SnapshotStage::Fetch { size, modified } => StageView::Fetch { size, modified },
                SnapshotStage::After { size, modified, complete, sha256, walk } => StageView::After {
                    size,
                    modified,
                    complete,
                    sha256: sha256@,
                    walk: walk@,
                },
            },
        }
    }
}

impl SnapshotRun {
    /// A descent that is under way has a segment ahead.
    pub open spec fn wf(&self) -> bool {
        match self.stage {
            SnapshotStage::Before(walk) => walk.wf(),
            SnapshotStage::Fetch { .. } => true,
            SnapshotStage::After { walk, .. } => walk.wf(),
        }
    }
}

/// What a reply leads to.
#[derive(Debug)]
pub enum SnapshotProgress {
    /// Do what the stage asks for and hand the reply back.
    Next(SnapshotRun),
    Settled(Result<RemoteDestinationSnapshot, Error>),
}

/// What a reply leads to.
pub enum SnapshotProgressView {
    Next(SnapshotRunView),
    Settled(Result<SnapshotView, error::ErrorView>),
}

impl View for SnapshotProgress {
    type V = SnapshotProgressView;

    open spec fn view(&self) -> SnapshotProgressView {
        match self {
            SnapshotProgress::Next(run) => SnapshotProgressView::Next(run@),
            SnapshotProgress::Settled(Ok(snapshot)) => SnapshotProgressView::Settled(
                Ok(snapshot@),
            ),
            SnapshotProgress::Settled(Err(e)) => SnapshotProgressView::Settled(Err(e@)),
        }
    }
}

/// A destination that changed between its two descents.
pub open spec fn changed_while_hashing(path: Seq<char>) -> error::ErrorView {
    error::failure("remote destination changed while hashing "@ + text::debug_text(path))
}

/// Where the first descent leads.
pub open spec fn first_descent(
    root: Seq<char>,
    path: Seq<char>,
    progress: ProgressView,
) -> SnapshotProgressView {
    match progress {
        ProgressView::List(walk) => SnapshotProgressView::Next(
            SnapshotRunView { root, path, stage: StageView::Before(walk) },
        ),
        ProgressView::Settled(Err(e)) => SnapshotProgressView::Settled(Err(e)),
        ProgressView::Settled(Ok(StrictRemoteResolution::Missing)) => SnapshotProgressView::Settled(
            Ok(SnapshotView::Missing),
        ),
        ProgressView::Settled(Ok(StrictRemoteResolution::Directory)) =>
            SnapshotProgressView::Settled(Ok(SnapshotView::Directory)),
        ProgressView::Settled(Ok(StrictRemoteResolution::File { size, modified })) =>
            SnapshotProgressView::Next(
            SnapshotRunView { root, path, stage: StageView::Fetch { size, modified } },
        ),
    }
}

/// Where the second descent leads: the file must be what it was before it was
/// fetched, and what was fetched must have been all of it.
pub open spec fn second_descent(
    root: Seq<char>,
    path: Seq<char>,
    size: u64,
    modified: Timestamp,
    complete: bool,
    sha256: Seq<char>,
    progress: ProgressView,
) -> SnapshotProgressView {
    match progress {
        ProgressView::List(walk) => SnapshotProgressView::Next(
            SnapshotRunView {
                root,
                path,
                stage: StageView::After { size, modified, complete, sha256, walk },
            },
        ),
        ProgressView::Settled(Err(e)) => SnapshotProgressView::Settled(Err(e)),
        ProgressView::Settled(Ok(found)) => if complete && found == (StrictRemoteResolution::File {
            size,
            modified,
        }) {
            SnapshotProgressView::Settled(Ok(SnapshotView::File { size, modified, sha256 }))
        } else {
            SnapshotProgressView::Settled(Err(changed_while_hashing(path)))
        },
    }
}

/// Where a listing leads in a snapshot in the making. A stage that waits for no
/// listing stays as it is.
pub open spec fn snapshot_listed(
    run: SnapshotRunView,
    reply: Result<Seq<EntryView>, error::ErrorView>,
) -> SnapshotProgressView {
    match run.stage {
        StageView::Before(walk) => first_descent(run.root, run.path, descended(walk, reply)),
        StageView::Fetch { .. } => SnapshotProgressView::Next(run),
        StageView::After { size, modified, complete, sha256, walk } => second_descent(
            run.root,
            run.path,
            size,
            modified,
            complete,
            sha256,
            descended(walk, reply),
        ),
    }
}

/// Where the content of the destination leads in a snapshot in the making: to
/// the second descent, which its length is held against too. A stage that waits
/// for no content stays as it is.
pub open spec fn snapshot_fetched(
    run: SnapshotRunView,
    reply: Result<Seq<u8>, error::ErrorView>,
) -> SnapshotProgressView {
    match run.stage {
        StageView::Fetch { size, modified } => match reply {
            Err(cause) => SnapshotProgressView::Settled(
                Err(
                    error::failure_from(
                        "downloading remote destination "@ + text::debug_text(run.path),
                        error::full_message(cause),
                    ),
                ),
            ),
            Ok(bytes) => second_descent(
                run.root,
                run.path,
                size,
                modified,
                bytes.len() == size,
                hash::sha256_hex(bytes),
                descent(run.root, run.path),
            ),
        },
        _ => SnapshotProgressView::Next(run),
    }
}

/// Starts a snapshot of the destination `path` below `remote_root`.
pub fn snapshot_remote_destination(remote_root: &str, path: &str) -> (out: SnapshotProgress)
    ensures
        out@ == first_descent(remote_root@, path@, descent(remote_root@, path@)),
        out matches SnapshotProgress::Next(run) ==> run.wf(),
{
    let root = remote_root.to_owned();
    let path_text = path.to_owned();
    let progress = resolve_remote_destination(remote_root, path);
    continue_first(root, path_text, progress)
}

fn continue_first(root: String, path: String, progress: DestinationProgress) -> (out:
    SnapshotProgress)
    requires
        progress matches DestinationProgress::List(walk) ==> walk.wf(),
    ensures
        out@ == first_descent(root@, path@, progress@),
        out matches SnapshotProgress::Next(run) ==> run.wf(),
{
    match progress {
        DestinationProgress::List(walk) => SnapshotProgress::Next(
            SnapshotRun { root, path, stage: SnapshotStage::Before(walk) },
        ),
        DestinationProgress::Settled(Err(e)) => SnapshotProgress::Settled(Err(e)),
        DestinationProgress::Settled(Ok(found)) => match found {
            StrictRemoteResolution::Missing => SnapshotProgress::Settled(
                Ok(RemoteDestinationSnapshot::Missing),
            ),
            StrictRemoteResolution::Directory => SnapshotProgress::Settled(
                Ok(RemoteDestinationSnapshot::Directory),
            ),
            StrictRemoteResolution::File { size, modified } => SnapshotProgress::Next(
                SnapshotRun { root, path, stage: SnapshotStage::Fetch { size, modified } },
            ),
        },
    }
}

fn continue_second(
    root: String,
    path: String,
    size: u64,
    modified: Timestamp,
    complete: bool,
    sha256: String,
    progress: DestinationProgress,
) -> (out: SnapshotProgress)
    requires
        progress matches DestinationProgress::List(walk) ==> walk.wf(),
    ensures
        out@ == second_descent(root@, path@, size, modified, complete, sha256@, progress@),
        out matches SnapshotProgress::Next(run) ==> run.wf(),
{
    match progress {
        DestinationProgress::List(walk) => SnapshotProgress::Next(
            SnapshotRun {
                root,
                path,
                stage: SnapshotStage::After { size, modified, complete, sha256, walk },
            },
        ),
        DestinationProgress::Settled(Err(e)) => SnapshotProgress::Settled(Err(e)),
        DestinationProgress::Settled(Ok(found)) => {
            let stayed = match found {
                StrictRemoteResolution::File { size: s, modified: m } => s == size && m
                    == modified,
                _ => false,
            };
            if complete && stayed {
                SnapshotProgress::Settled(
                    Ok(RemoteDestinationSnapshot::File { size, modified, sha256 }),
                )
            } else {
                SnapshotProgress::Settled(
                    Err(
                        Error::failure(
                            text::cat(
                                "remote destination changed while hashing ",
                                &text::debug_of(&path),
                            ),
                        ),
                    ),
                )
            }
        },
    }
}

/// Content with its failure taken by its view.
pub open spec fn fetched(reply: Result<Vec<u8>, Error>) -> Result<Seq<u8>, error::ErrorView> {
    match reply {
        Ok(bytes) => Ok(bytes@),
        Err(e) => Err(e@),
    }
}

impl SnapshotRun {
    /// The directory to list, where the stage waits for a listing.
    pub fn directory(&self) -> (out: Option<String>)
        ensures
            crate::state::optional(out) == match self@.stage {
                StageView::Before(walk) => Some(walk.directory),
                StageView::Fetch { .. } => None,
                StageView::After { walk, .. } => Some(walk.directory),
            },
    {
        match &self.stage {
            SnapshotStage::Before(walk) => Some(walk.directory.clone()),
            SnapshotStage::Fetch { .. } => None,
            SnapshotStage::After { walk, .. } => Some(walk.directory.clone()),
        }
    }

    /// Takes the listing that the stage waits for.
    pub fn on_listing(self, reply: Result<Vec<Entry>, Error>) -> (out: SnapshotProgress)
        requires
            self.wf(),
        ensures
            out@ == snapshot_listed(self@, listed(reply)),
            out matches SnapshotProgress::Next(run) ==> run.wf(),
    {
        match self.stage {
            SnapshotStage::Before(walk) => {
                let progress = walk.on_listing(reply);
                continue_first(self.root, self.path, progress)
            },
            SnapshotStage::Fetch { size, modified } => SnapshotProgress::Next(
                SnapshotRun {
                    root: self.root,
                    path: self.path,
                    stage: SnapshotStage::Fetch { size, modified },
                },
            ),
            SnapshotStage::After { size, modified, complete, sha256, walk } => {
                let progress = walk.on_listing(reply);
                continue_second(
                    self.root,
                    self.path,
                    size,
                    modified,
                    complete,
                    sha256,
                    progress,
                )
            },
        }
    }

    /// Takes the content that the stage waits for.
    pub fn on_content(self, reply: Result<Vec<u8>, Error>) -> (out: SnapshotProgress)
        requires
            self.wf(),
        ensures
            out@ == snapshot_fetched(self@, fetched(reply)),
            out matches SnapshotProgress::Next(run) ==> run.wf(),
    {
        match self.stage {
            SnapshotStage::Fetch { size, modified } => match reply {
                Err(cause) => SnapshotProgress::Settled(
                    Err(
                        Error::failure_from(
                            text::cat(
                                "downloading remote destination ",
                                &text::debug_of(&self.path),
                            ),
                            &cause.full_message(),
                        ),
                    ),
                ),
                Ok(bytes) => {
                    let complete = bytes.len() as u64 == size;
                    let sha256 = hash::hash_bytes(&bytes);
                    let progress = resolve_remote_destination(&self.root, &self.path);
                    continue_second(
                        self.root,
                        self.path,
                        size,
                        modified,
                        complete,
                        sha256,
                        progress,
                    )
                },
            },
            stage => SnapshotProgress::Next(
                SnapshotRun { root: self.root, path: self.path, stage },
            ),
        }
    }
}

/// The snapshot of a file says what both listings around its fetch said, and the
/// hash of content of exactly that size.
pub proof fn snapshot_of_file_is_stable(
    root: Seq<char>,
    path: Seq<char>,
    size: u64,
    modified: Timestamp,
    complete: bool,
    sha256: Seq<char>,
    progress: ProgressView,
)
    ensures
        second_descent(root, path, size, modified, complete, sha256, progress)
            matches SnapshotProgressView::Settled(Ok(snapshot)) ==> {
            &&& complete
            &&& progress == ProgressView::Settled(
                Ok(StrictRemoteResolution::File { size, modified }),
            )
            &&& snapshot == (SnapshotView::File { size, modified, sha256 })
        },
{
}

/// A leaf has a kind exactly where it is a file or a directory and not both, and
/// the kind says which of them it is and whether a symlink leads to it.
pub proof fn kind_is_what_was_found(facts: LeafFacts)
    ensures
        kind_of(facts) is Some <==> facts.is_file != facts.is_dir,
        kind_of(facts) matches Some(kind) ==> {
            &&& kind.file() == facts.is_file
            &&& facts.is_symlink == (kind == LocalLeafKind::SymlinkToFile || kind
                == LocalLeafKind::SymlinkToDirectory)
        },
{
}

/// A snapshot of a leaf is taken exactly where nothing is there, or where what is
/// there lies in the root and is a file or a directory. It says what was found,
/// and holds a hash only of a file.
pub proof fn leaf_snapshot_is_what_was_found(
    canonical_root: Seq<char>,
    path: Seq<char>,
    facts: Result<Option<LeafFacts>, Error>,
)
    ensures
        leaf_snapshot(canonical_root, path, facts) is Ok <==> facts is Ok && (facts->Ok_0 is None
            || (paths::under_remote_root(canonical_root, facts->Ok_0->Some_0.canonical@)
            && facts->Ok_0->Some_0.is_file != facts->Ok_0->Some_0.is_dir)),
        facts matches Err(e) ==> leaf_snapshot(canonical_root, path, facts) == Err::<
            LeafView,
            error::ErrorView,
        >(e@),
        leaf_snapshot(canonical_root, path, facts) matches Ok(entry) ==> {
            &&& entry is Some <==> facts->Ok_0 is Some
            &&& entry is Some ==> {
                let leaf = facts->Ok_0->Some_0;
                let seen = entry->Some_0;
                &&& seen.kind.file() == leaf.is_file
                &&& seen.canonical == leaf.canonical@
                &&& seen.identity == leaf.identity
                &&& seen.size == leaf.size
                &&& seen.modified == leaf.modified
                &&& leaf.is_file ==> seen.sha256 == crate::state::optional(leaf.sha256)
                &&& leaf.is_dir ==> seen.sha256 is None
            }
        },
{
}

/// Whether a probe finds the root a directory, and `path` a name in a directory
/// that really lies in it.
pub open spec fn has_place(path: Seq<char>, probe: PathProbe) -> bool {
    &&& probe.root is Ok
    &&& probe.root->Ok_0.is_dir
    &&& local_paths::parent(path) is Some
    &&& probe.parent is Ok
    &&& probe.parent->Ok_0.is_dir
    &&& paths::under_remote_root(probe.root->Ok_0.canonical@, probe.parent->Ok_0.canonical@)
    &&& local_paths::file_name(path) is Some
}

/// A path is captured exactly where it has a place below the root and its leaf
/// can be taken in. The capture says where that place really is, and what is
/// there.
pub proof fn capture_is_what_was_found(local_root: Seq<char>, path: Seq<char>, probe: PathProbe)
    ensures
        captured(local_root, path, probe) is Ok <==> has_place(path, probe) && leaf_snapshot(
            probe.root->Ok_0.canonical@,
            local_paths::joined(
                probe.parent->Ok_0.canonical@,
                local_paths::file_name(path)->Some_0,
            ),
            probe.leaf,
        ) is Ok,
        captured(local_root, path, probe) matches Ok(expected) ==> {
            &&& expected.canonical_root == probe.root->Ok_0.canonical@
            &&& expected.root_identity == probe.root->Ok_0.identity
            &&& expected.canonical_parent == probe.parent->Ok_0.canonical@
            &&& expected.parent_identity == probe.parent->Ok_0.identity
            &&& local_paths::file_name(path) == Some(expected.leaf)
            &&& probe.leaf->Ok_0 is None <==> expected.entry is None
            &&& expected.resolved() == local_paths::joined(
                probe.parent->Ok_0.canonical@,
                expected.leaf,
            )
            &&& supplied(expected, path, probe.parent) is Ok
        },
{
}

/// An expectation still holds exactly where a new capture of the path would say
/// the same: of the root, of the directory and of the leaf.
pub proof fn unchanged_is_captured_alike(
    local_root: Seq<char>,
    path: Seq<char>,
    before: PathProbe,
    after: PathProbe,
)
    requires
        captured(local_root, path, before) is Ok,
    ensures
        unchanged(captured(local_root, path, before)->Ok_0, after) is Ok <==> captured(
            local_root,
            path,
            after,
        ) == captured(local_root, path, before),
{
    let expected = captured(local_root, path, before)->Ok_0;
    if unchanged(expected, after) is Ok {
        assert(captured(local_root, path, after) == Ok::<ExpectationView, error::ErrorView>(
            expected,
        ));
    }
}

/// The content that an expectation counts on is the hash of the file that was
/// found; where there was no file, it counts on none.
pub proof fn expected_content_is_what_was_found(
    local_root: Seq<char>,
    path: Seq<char>,
    probe: PathProbe,
)
    requires
        captured(local_root, path, probe) is Ok,
    ensures
        ({
            let expected = captured(local_root, path, probe)->Ok_0;
            let leaf = probe.leaf->Ok_0;
            &&& expected.file_or_missing() <==> (leaf is Some ==> leaf->Some_0.is_file)
            &&& expected.file_hash() == if leaf is Some && leaf->Some_0.is_file {
                crate::state::optional(leaf->Some_0.sha256)
            } else {
                None
            }
        }),
{
}

/// A path still leads to the captured directory exactly where it ends in the
/// captured name and its directory is the captured one.
pub proof fn supplied_path_leads_to_its_directory(
    expected: ExpectationView,
    path: Seq<char>,
    parent: Result<AnchorFacts, Error>,
)
    ensures
        supplied(expected, path, parent) is Ok <==> {
            &&& local_paths::file_name(path) == Some(expected.leaf)
            &&& parent is Ok
            &&& parent->Ok_0.is_dir
            &&& parent->Ok_0.canonical@ == expected.canonical_parent
        },
{
}

/// A probe says that a file is there exactly where an exact lookup does, and
/// fails only where that lookup fails, with both failures told.
pub proof fn probe_follows_the_lookup(
    path: Seq<char>,
    size_error: error::ErrorView,
    exact: Result<ExactFilePresence, error::ErrorView>,
)
    ensures
        settled_presence(path, size_error, exact) == Ok::<RemotePresence, error::ErrorView>(
            RemotePresence::Present,
        ) <==> exact == Ok::<ExactFilePresence, error::ErrorView>(ExactFilePresence::Present),
        settled_presence(path, size_error, exact) is Err <==> exact is Err,
        settled_presence(path, size_error, exact) matches Err(e) ==> e.cause == Some(
            error::full_message(size_error),
        ) && e.exit != error::Exit::Conflict,
{
}

/// The child that a directory is shown to have, where it has one.
pub open spec fn shown(
    directory: Seq<char>,
    name: Seq<char>,
    server: spec_fn(Seq<char>) -> Result<Seq<EntryView>, error::ErrorView>,
) -> Option<EntryView> {
    listing::named(
        listing::children(paths::slash(), directory, server(directory)->Ok_0)->Ok_0,
        name,
    )
}

/// Whether a directory can be listed and its listing makes sense.
pub open spec fn listable(
    directory: Seq<char>,
    server: spec_fn(Seq<char>) -> Result<Seq<EntryView>, error::ErrorView>,
) -> bool {
    server(directory) is Ok && listing::children(
        paths::slash(),
        directory,
        server(directory)->Ok_0,
    ) is Ok
}

/// The directory that the first `count` of some names lead to.
pub open spec fn led_to(directory: Seq<char>, names: Seq<Seq<char>>, count: nat) -> Seq<char>
    decreases count,
{
    if count == 0 {
        directory
    } else {
        paths::remote_joined(
            led_to(directory, names, (count - 1) as nat),
            names[count - 1],
        )
    }
}

/// Whether the name at a position is shown to be a directory and no symlink.
pub open spec fn passable(
    directory: Seq<char>,
    names: Seq<Seq<char>>,
    at: nat,
    server: spec_fn(Seq<char>) -> Result<Seq<EntryView>, error::ErrorView>,
) -> bool {
    let here = led_to(directory, names, at);
    &&& listable(here, server)
    &&& shown(here, names[at as int], server) matches Some(entry) && entry.is_dir
        && !entry.is_symlink
}

/// A descent that has come to a position, having started at `root`.
pub open spec fn descending(root: Seq<char>, names: Seq<Seq<char>>, at: nat) -> DescentView {
    DescentView { directory: led_to(root, names, at), segments: names, index: at }
}

/// A descent settles exactly where every name before the last is shown to be a
/// directory and no symlink, the last directory can be listed, and what it shows
/// under the last name is no symlink. It then says what is shown there.
pub proof fn descent_finds_what_is_shown(
    root: Seq<char>,
    names: Seq<Seq<char>>,
    at: nat,
    server: spec_fn(Seq<char>) -> Result<Seq<EntryView>, error::ErrorView>,
)
    requires
        at < names.len(),
    ensures
        ({
            let last = (names.len() - 1) as nat;
            let end = led_to(root, names, last);
            let found = resolution(descending(root, names, at), server);
            let entry = shown(end, names[last as int], server);
            &&& found is Ok <==> {
                &&& forall|i: nat|
                    at <= i < last ==> #[trigger] passable(root, names, i, server)
                &&& listable(end, server)
                &&& entry is Some ==> !entry->Some_0.is_symlink
            }
            &&& found is Ok ==> found->Ok_0 == match entry {
                None => StrictRemoteResolution::Missing,
                Some(entry) => if entry.is_dir {
                    StrictRemoteResolution::Directory
                } else {
                    StrictRemoteResolution::File { size: entry.size, modified: entry.modified }
                },
            }
        }),
    decreases names.len() - at,
{
    let walk = descending(root, names, at);
    let last = (names.len() - 1) as nat;
    let found = resolution(walk, server);
    if at < last {
        let next = descending(root, names, at + 1);
        assert(led_to(root, names, at + 1) == paths::remote_joined(
            led_to(root, names, at),
            names[at as int],
        ));
        descent_finds_what_is_shown(root, names, at + 1, server);
        if passable(root, names, at, server) {
            assert(descended(walk, server(walk.directory)) == ProgressView::List(next));
            assert(found == resolution(next, server));
            assert forall|i: nat|
                (forall|j: nat| at + 1 <= j < last ==> passable(root, names, j, server)) && at <= i
                    < last implies #[trigger] passable(root, names, i, server) by {
                if i > at {
                    assert(at + 1 <= i < last);
                }
            }
        } else {
            assert(found is Err);
        }
    }
}

/// A descent starts at the root with the names below it, and is refused only
/// where the root or the destination is.
pub proof fn descent_starts_at_the_root(root: Seq<char>, path: Seq<char>)
    ensures
        descent(root, path) is List <==> paths::root_of(root) is Ok && paths::destination_of(
            paths::root_of(root)->Ok_0,
            path,
        ) is Ok,
        descent(root, path) matches ProgressView::List(walk) ==> walk == descending(
            paths::root_of(root)->Ok_0,
            text::segments(
                paths::destination_of(paths::root_of(root)->Ok_0, path)->Ok_0,
            ),
            0,
        ),
{
}

/// A snapshot is taken at once of what is missing and of a directory, and a file
/// is fetched first: it is settled exactly where all of it was fetched and it is
/// listed as it was before.
pub proof fn snapshot_is_what_was_listed(
    root: Seq<char>,
    path: Seq<char>,
    progress: ProgressView,
    size: u64,
    modified: Timestamp,
    bytes: Seq<u8>,
)
    ensures
        first_descent(root, path, progress) == SnapshotProgressView::Settled(
            Ok(SnapshotView::Missing),
        ) <==> progress == ProgressView::Settled(Ok(StrictRemoteResolution::Missing)),
        first_descent(root, path, progress) == SnapshotProgressView::Settled(
            Ok(SnapshotView::Directory),
        ) <==> progress == ProgressView::Settled(Ok(StrictRemoteResolution::Directory)),
        first_descent(root, path, progress) == SnapshotProgressView::Next(
            SnapshotRunView { root, path, stage: StageView::Fetch { size, modified } },
        ) <==> progress == ProgressView::Settled(
            Ok(StrictRemoteResolution::File { size, modified }),
        ),
        snapshot_fetched(
            SnapshotRunView { root, path, stage: StageView::Fetch { size, modified } },
            Ok(bytes),
        ) matches SnapshotProgressView::Next(run) ==> {
            &&& run.root == root
            &&& run.path == path
            &&& run.stage matches StageView::After { walk, .. } && descent(root, path)
                == ProgressView::List(walk)
            &&& forall|reply: Result<Seq<EntryView>, error::ErrorView>| #[trigger]
                snapshot_listed(run, reply) is Settled ==> (snapshot_listed(run, reply)
                    == SnapshotProgressView::Settled(
                    Ok(SnapshotView::File { size, modified, sha256: hash::sha256_hex(bytes) }),
                ) <==> bytes.len() == size && descended(run.stage->After_walk, reply)
                    == ProgressView::Settled(
                    Ok(StrictRemoteResolution::File { size, modified }),
                ))
        },
{
}

} // verus!
