//! Planning one file of a scope: how it stands on the two sides, and what is to
//! be done about it.

use crate::error::Error;
use crate::error;
use crate::file_transfer::{RemoteDestinationSnapshot, SnapshotView};
use crate::file_transfer;
use crate::ftp::Timestamp;
use crate::inventory::EntryKind;
use crate::state::FileState;
use crate::state;
use crate::sync::directories::{DirectoryView, ExpectedDirectory, ExpectedLocalDirectory};
use crate::sync::directories;
use crate::text;
use vstd::prelude::*;

verus! {

broadcast use vstd::seq::group_seq_axioms;

/// What was learnt of the content of a remote file. The metadata is stable where
/// it was the same before and after the content was read.
#[derive(Debug)]
pub struct RemoteHash {
    pub sha256: String,
    pub size: u64,
    pub mtime: Timestamp,
    pub metadata_stable: bool,
    pub bytes: Option<Vec<u8>>,
}

/// What was learnt of the content of a remote file.
pub struct RemoteHashView {
    pub sha256: Seq<char>,
    pub size: u64,
    pub mtime: Timestamp,
    pub metadata_stable: bool,
    pub bytes: Option<Seq<u8>>,
}

impl View for RemoteHash {
    type V = RemoteHashView;

    open spec fn view(&self) -> RemoteHashView {
        RemoteHashView {
            sha256: self.sha256@,
            size: self.size,
            mtime: self.mtime,
            metadata_stable: self.metadata_stable,
            bytes: match self.bytes {
                Some(bytes) => Some(bytes@),
                None => None,
            },
        }
    }
}

/// What a remote file that is to be downloaded is expected to be.
#[derive(Debug)]
pub struct PlannedRemoteSource {
    pub sha256: String,
    pub size: u64,
    pub stable_mtime: Option<Timestamp>,
}

/// What a remote file that is to be downloaded is expected to be.
pub struct RemoteSourceView {
    pub sha256: Seq<char>,
    pub size: u64,
    pub stable_mtime: Option<Timestamp>,
}

impl View for PlannedRemoteSource {
    type V = RemoteSourceView;

    open spec fn view(&self) -> RemoteSourceView {
        RemoteSourceView {
            sha256: self.sha256@,
            size: self.size,
            stable_mtime: self.stable_mtime,
        }
    }
}

/// What a remote file is expected to stay. Its time counts only where it was
/// stable.
pub open spec fn remote_source(hash: RemoteHashView) -> RemoteSourceView {
    RemoteSourceView {
        sha256: hash.sha256,
        size: hash.size,
        stable_mtime: if hash.metadata_stable {
            Some(hash.mtime)
        } else {
            None
        },
    }
}

/// Whether a remote file is still what it was expected to be.
pub open spec fn remote_source_matches(expected: RemoteSourceView, hash: RemoteHashView) -> bool {
    &&& expected.sha256 == hash.sha256
    &&& expected.size == hash.size
    &&& match expected.stable_mtime {
        Some(mtime) => hash.metadata_stable && mtime == hash.mtime,
        None => true,
    }
}

/// A remote file is what it was expected to stay at once, and as long as its content
/// is the same and its time, where that was stable, is too.
pub proof fn remote_source_matches_itself(planned: RemoteHashView, fresh: RemoteHashView)
    ensures
        remote_source_matches(remote_source(planned), planned),
        remote_source_matches(remote_source(planned), fresh) <==> planned.sha256 == fresh.sha256
            && planned.size == fresh.size && (planned.metadata_stable ==> fresh.metadata_stable
            && planned.mtime == fresh.mtime),
{
}

impl PlannedRemoteSource {
    /// What a remote file is expected to stay.
    pub fn capture(hash: &RemoteHash) -> (out: PlannedRemoteSource)
        ensures
            out@ == remote_source(hash@),
    {
        PlannedRemoteSource {
            sha256: hash.sha256.clone(),
            size: hash.size,
            stable_mtime: if hash.metadata_stable {
                Some(hash.mtime)
            } else {
                None
            },
        }
    }

    /// Whether a remote file is still what it was expected to be.
    pub fn matches(&self, hash: &RemoteHash) -> (out: bool)
        ensures
            out == remote_source_matches(self@, hash@),
    {
        text::same(&self.sha256, &hash.sha256) && self.size == hash.size && match self.stable_mtime {
            Some(mtime) => hash.metadata_stable && mtime == hash.mtime,
            None => true,
        }
    }
}

/// What the file system says of the content at a path.
#[derive(Debug)]
pub enum HashFacts {
    Missing,
    /// Something is there that is no file.
    NotFile,
    Hash(String),
    Failed(Error),
}

/// Whether the content at a local path is the expected one, `None` standing for
/// no file.
pub open spec fn planned_hash(
    path: Seq<char>,
    expected: Option<Seq<char>>,
    facts: HashFacts,
) -> Result<(), error::ErrorView> {
    let current = match facts {
        HashFacts::Failed(e) => Err(e@),
        HashFacts::NotFile => Err(error::failure("local destination changed at "@ + path)),
        HashFacts::Missing => Ok(None),
        HashFacts::Hash(hash) => Ok(Some(hash@)),
    };
    match current {
        Err(e) => Err(e),
        Ok(current) => if current == expected {
            Ok(())
        } else {
            Err(error::failure("local destination changed while planning "@ + path))
        },
    }
}

/// Checks that the content at a local path is the expected one.
pub fn verify_planned_local_hash(path: &str, expected: &Option<String>, facts: HashFacts) -> (out:
    Result<(), Error>)
    ensures
        error::settles(out, planned_hash(path@, state::optional(*expected), facts)),
{
    let current = match facts {
        HashFacts::Failed(e) => {
            return Err(e);
        },
        HashFacts::NotFile => {
            return Err(Error::failure(text::cat("local destination changed at ", path)));
        },
        HashFacts::Missing => None,
        HashFacts::Hash(hash) => Some(hash),
    };
    if file_transfer::same_optional(&current, expected) {
        Ok(())
    } else {
        Err(Error::failure(text::cat("local destination changed while planning ", path)))
    }
}

/// What is to be done about a file.
#[derive(Debug, Clone, Copy, PartialEq, Eq, Structural)]
pub enum FileAction {
    Keep,
    Upload,
    Download,
    /// Upload although the remote side changed too.
    Overwrite,
    Refuse,
}

/// What is to be done about a file in a state: a change on one side is carried
/// to the other, and a change on both is refused unless it is forced, in which
/// case the local side wins.
pub open spec fn action_for(state: FileState, force: bool) -> FileAction {
    match state {
        FileState::InSync => FileAction::Keep,
        FileState::LocalChanged => FileAction::Upload,
        FileState::LocalOnly => FileAction::Upload,
        FileState::RemoteChanged => FileAction::Download,
        FileState::RemoteOnly => FileAction::Download,
        FileState::BothChanged => if force {
            FileAction::Overwrite
        } else {
            FileAction::Refuse
        },
        FileState::Untracked => if force {
            FileAction::Overwrite
        } else {
            FileAction::Refuse
        },
    }
}

/// What is to be done about a file in a state.
pub fn file_action(state: FileState, force: bool) -> (out: FileAction)
    ensures
        out == action_for(state, force),
{
    match state {
        FileState::InSync => FileAction::Keep,
        FileState::LocalChanged => FileAction::Upload,
        FileState::LocalOnly => FileAction::Upload,
        FileState::RemoteChanged => FileAction::Download,
        FileState::RemoteOnly => FileAction::Download,
        FileState::BothChanged => if force {
            FileAction::Overwrite
        } else {
            FileAction::Refuse
        },
        FileState::Untracked => if force {
            FileAction::Overwrite
        } else {
            FileAction::Refuse
        },
    }
}

/// Whether a file may be about to be uploaded, so that its destination must be
/// looked at first.
pub open spec fn writes_remote(state: FileState, force: bool) -> bool {
    action_for(state, force) == FileAction::Upload || action_for(state, force)
        == FileAction::Overwrite
}

/// A file is uploaded over a changed or unknown remote one only by force, and
/// never downloaded over a changed local one.
pub proof fn force_is_needed_and_local_wins(
    local: Option<Seq<char>>,
    remote: Option<Seq<char>>,
    known: Option<Seq<char>>,
    force: bool,
)
    requires
        local is Some || remote is Some,
    ensures
        ({
            let action = action_for(state::standing(local, remote, known), force);
            &&& action == FileAction::Upload ==> local is Some && (remote is None || remote == known)
            &&& action == FileAction::Overwrite ==> force && local is Some && remote is Some
            &&& action == FileAction::Download ==> remote is Some && (local is None || local
                == known)
            &&& action == FileAction::Keep ==> local == remote
            &&& action == FileAction::Refuse ==> !force && local is Some && remote is Some
        }),
{
}

/// How a file stands, from what is really at its destination. The destination
/// must be what the inventory found.
pub open spec fn authoritative(
    found: Option<EntryKind>,
    snapshot: SnapshotView,
    relative: Seq<char>,
    local_hash: Seq<char>,
    known: Option<Seq<char>>,
) -> Result<FileState, error::ErrorView> {
    match (found, snapshot) {
        (Some(EntryKind::File), SnapshotView::File { sha256, .. }) => Ok(
            state::standing(Some(local_hash), Some(sha256), known),
        ),
        (Some(EntryKind::File), SnapshotView::Missing) => Err(
            error::failure("remote file disappeared while planning "@ + relative),
        ),
        (Some(EntryKind::File), SnapshotView::Directory) => Err(
            error::failure("remote file became a directory while planning "@ + relative),
        ),
        (None, SnapshotView::Missing) => Ok(state::standing(Some(local_hash), None, known)),
        (None, SnapshotView::File { .. }) => Err(
            error::failure("remote file appeared while planning "@ + relative),
        ),
        (None, SnapshotView::Directory) => Err(
            error::failure("remote directory appeared while planning "@ + relative),
        ),
        (Some(EntryKind::Directory), _) => Err(
            error::failure("remote directory is not an upload candidate at "@ + relative),
        ),
    }
}

/// How a file stands, from what is really at its destination.
pub fn capture_authoritative_upload_candidate(
    snapshot: &RemoteDestinationSnapshot,
    relative: &str,
    found: Option<EntryKind>,
    local_hash: &String,
    known: &Option<String>,
) -> (out: Result<FileState, Error>)
    ensures
        error::settles(
            out,
            authoritative(found, snapshot@, relative@, local_hash@, state::optional(*known)),
        ),
{
    match (found, snapshot) {
        (Some(EntryKind::File), RemoteDestinationSnapshot::File { sha256, .. }) => Ok(
            state::classify(&Some(local_hash.clone()), &Some(sha256.clone()), known),
        ),
        (Some(EntryKind::File), RemoteDestinationSnapshot::Missing) => Err(
            Error::failure(text::cat("remote file disappeared while planning ", relative)),
        ),
        (Some(EntryKind::File), RemoteDestinationSnapshot::Directory) => Err(
            Error::failure(text::cat("remote file became a directory while planning ", relative)),
        ),
        (None, RemoteDestinationSnapshot::Missing) => Ok(
            state::classify(&Some(local_hash.clone()), &None, known),
        ),
        (None, RemoteDestinationSnapshot::File { .. }) => Err(
            Error::failure(text::cat("remote file appeared while planning ", relative)),
        ),
        (None, RemoteDestinationSnapshot::Directory) => Err(
            Error::failure(text::cat("remote directory appeared while planning ", relative)),
        ),
        (Some(EntryKind::Directory), _) => Err(
            Error::failure(
                text::cat("remote directory is not an upload candidate at ", relative),
            ),
        ),
    }
}

/// Whether a local directory strictly above a path is still to be created.
pub open spec fn created_above(directories: Seq<DirectoryView>, relative: Seq<char>) -> bool {
    exists|i: int|
        0 <= i < directories.len() && (#[trigger] directories[i]).local is Missing
            && directories::strictly_above(directories[i].relative, relative)
}

/// Whether a local directory strictly above a path is still to be created.
pub fn is_created_above(expected: &Vec<ExpectedDirectory>, relative: &str) -> (out: bool)
    ensures
        out == created_above(text::views(expected@), relative@),
{
    let ghost all = text::views(expected@);
    let mut i: usize = 0;
    while i < expected.len()
        invariant
            i <= expected@.len(),
            all == text::views(expected@),
            forall|k: int|
                0 <= k < i ==> !((#[trigger] all[k]).local is Missing
                    && directories::strictly_above(all[k].relative, relative@)),
        decreases expected.len() - i,
    {
        assert(all[i as int] == expected@[i as int]@);
        let missing = match expected[i].local {
            ExpectedLocalDirectory::Missing => true,
            _ => false,
        };
        if missing && directories::is_strict_directory_ancestor(&expected[i].relative, relative) {
            return true;
        }
        i += 1;
    }
    false
}

/// Whether both sides hold a file and neither holds what was last synchronised, or
/// nothing was.
pub open spec fn disputed(
    local: Option<Seq<char>>,
    remote: Option<Seq<char>>,
    known: Option<Seq<char>>,
) -> bool {
    &&& local is Some && remote is Some
    &&& known is None || (local != remote && local != known && remote != known)
}

/// What is done about a file follows from where it changed. What one side alone holds,
/// or alone has changed since the last synchronisation, is carried from that side,
/// whether or not anything is forced. What is in dispute is refused, and only there
/// force makes a difference: it takes the local side.
pub proof fn action_follows_the_change(
    local: Option<Seq<char>>,
    remote: Option<Seq<char>>,
    known: Option<Seq<char>>,
    force: bool,
)
    requires
        local is Some || remote is Some,
    ensures
        ({
            let action = action_for(state::standing(local, remote, known), force);
            let both = local is Some && remote is Some;
            &&& action == FileAction::Keep <==> both && known is Some && local == remote
            &&& action == FileAction::Upload <==> remote is None || (both && remote == known
                && local != known)
            &&& action == FileAction::Download <==> local is None || (both && local == known
                && remote != known)
            &&& action == FileAction::Overwrite <==> disputed(local, remote, known) && force
            &&& action == FileAction::Refuse <==> disputed(local, remote, known) && !force
            &&& !disputed(local, remote, known) ==> action == action_for(
                state::standing(local, remote, known),
                !force,
            )
        }),
{
}

/// A destination counts as it was found only where it still is what the inventory
/// found, and the state of the file is then told from its present content.
pub proof fn candidate_is_what_was_found(
    found: Option<EntryKind>,
    snapshot: SnapshotView,
    relative: Seq<char>,
    local_hash: Seq<char>,
    known: Option<Seq<char>>,
)
    ensures
        authoritative(found, snapshot, relative, local_hash, known) is Ok <==> {
            ||| found == Some(EntryKind::File) && snapshot is File
            ||| found is None && snapshot is Missing
        },
        authoritative(found, snapshot, relative, local_hash, known) matches Ok(state) ==> state
            == state::standing(
            Some(local_hash),
            match snapshot {
                SnapshotView::File { sha256, .. } => Some(sha256),
                _ => None,
            },
            known,
        ),
{
}

/// The content at a local path passes exactly if it could be told and is the expected
/// one, and what could not be told is handed on as it is.
pub proof fn only_the_planned_content_passes(
    path: Seq<char>,
    expected: Option<Seq<char>>,
    facts: HashFacts,
)
    ensures
        planned_hash(path, expected, facts) is Ok <==> match facts {
            HashFacts::Missing => expected is None,
            HashFacts::Hash(hash) => expected == Some(hash@),
            _ => false,
        },
        facts matches HashFacts::Failed(e) ==> planned_hash(path, expected, facts) == Err::<
            (),
            error::ErrorView,
        >(e@),
{
}

} // verus!
