//! Looking at the directories that a synchronisation rests on, one by one from
//! the shallowest down, before anything is planned in them.

use crate::error::Error;
use crate::error;
use crate::file_transfer::{RemoteDestinationSnapshot, SnapshotView};
use crate::inventory::InventoryEntry;
use crate::order::PathMap;
use crate::paths;
use crate::sync::directories::{
    DirectoryLook, DirectoryView, ExpectedDirectory, ExpectedLocalDirectory,
    ExpectedRemoteDirectory, LocalView,
};
use crate::sync::directories;
use crate::sync::plan::Entries;
use crate::text;
use crate::upload;
use vstd::prelude::*;

verus! {

broadcast use vstd::seq::group_seq_axioms;

/// What the capture of directories waits for.
#[derive(Debug, Clone, Copy, PartialEq, Eq, Structural)]
pub enum CapturePhase {
    /// What the file system says of the directory.
    Local,
    /// Whether the remote root can be listed.
    RemoteRoot,
    /// A snapshot of the remote directory.
    Remote,
    Done,
}

/// The capture of the directories that a synchronisation rests on.
#[derive(Debug)]
pub struct DirectoryCapture {
    pub local_root: String,
    pub canonical_root: String,
    pub remote_root: String,
    pub paths: Vec<String>,
    pub snapshots: Vec<ExpectedDirectory>,
    pub local: Option<ExpectedLocalDirectory>,
    pub phase: CapturePhase,
    pub failure: Option<Error>,
}

/// What a capture of directories says. `local` is what was found of the
/// directory whose remote side is still to be looked at.
pub struct CaptureView {
    pub local_root: Seq<char>,
    pub canonical_root: Seq<char>,
    pub remote_root: Seq<char>,
    pub paths: Seq<Seq<char>>,
    pub snapshots: Seq<DirectoryView>,
    pub local: Option<LocalView>,
    pub phase: CapturePhase,
    pub failure: Option<error::ErrorView>,
}

impl View for DirectoryCapture {
    type V = CaptureView;

    open spec fn view(&self) -> CaptureView {
        CaptureView {
            local_root: self.local_root@,
            canonical_root: self.canonical_root@,
            remote_root: self.remote_root@,
            paths: text::views(self.paths@),
            snapshots: text::views(self.snapshots@),
            local: match self.local {
                Some(local) => Some(local@),
                None => None,
            },
            phase: self.phase,
            failure: match self.failure {
                Some(e) => Some(e@),
                None => None,
            },
        }
    }
}

impl CaptureView {
    /// The directory that is being looked at.
    pub open spec fn current(self) -> Seq<char> {
        self.paths[self.snapshots.len() as int]
    }

    /// The capture, ended by a failure.
    pub open spec fn failed(self, failure: error::ErrorView) -> CaptureView {
        CaptureView { phase: CapturePhase::Done, failure: Some(failure), ..self }
    }

    /// The capture once both sides of the directory were looked at.
    pub open spec fn settled(
        self,
        entries: Entries,
        remote: ExpectedRemoteDirectory,
    ) -> CaptureView {
        match directories::expected_remote(
            directories::entry_at(entries, self.current()),
            self.current(),
            remote,
        ) {
            Err(e) => self.failed(e),
            Ok(remote) => CaptureView {
                snapshots: self.snapshots.push(
                    DirectoryView {
                        relative: self.current(),
                        local: self.local->Some_0,
                        remote,
                    },
                ),
                local: None,
                phase: if self.snapshots.len() + 1 < self.paths.len() {
                    CapturePhase::Local
                } else {
                    CapturePhase::Done
                },
                ..self
            },
        }
    }
}

/// Where what the file system says of a directory leads. A directory below one
/// that the server does not hold is not asked for.
pub open spec fn capture_local(
    u: CaptureView,
    entries: Entries,
    facts: DirectoryLook,
) -> CaptureView {
    if u.phase != CapturePhase::Local {
        u
    } else {
        match directories::identified(u.local_root, u.canonical_root, u.current(), facts) {
            Err(e) => u.failed(e),
            Ok(found) => match directories::expected_local(
                directories::entry_at(entries, u.current()),
                u.current(),
                found,
            ) {
                Err(e) => u.failed(e),
                Ok(local) => {
                    let looked = CaptureView { local: Some(local), ..u };
                    if u.current().len() == 0 {
                        CaptureView { phase: CapturePhase::RemoteRoot, ..looked }
                    } else if directories::missing_above(
                        u.snapshots,
                        u.snapshots.len(),
                        u.current(),
                    ) {
                        looked.settled(entries, ExpectedRemoteDirectory::Missing)
                    } else {
                        CaptureView { phase: CapturePhase::Remote, ..looked }
                    }
                },
            },
        }
    }
}

/// Where a listing of the remote root leads.
pub open spec fn capture_root(
    u: CaptureView,
    entries: Entries,
    reply: Result<(), error::ErrorView>,
) -> CaptureView {
    if u.phase != CapturePhase::RemoteRoot {
        u
    } else {
        match reply {
            Err(cause) => u.failed(root_failure(u.remote_root, cause)),
            Ok(_) => u.settled(entries, ExpectedRemoteDirectory::Root),
        }
    }
}

/// A remote root that could not be listed.
pub open spec fn root_failure(remote_root: Seq<char>, cause: error::ErrorView) -> error::ErrorView {
    error::failure_from(
        "validating remote root "@ + text::debug_text(remote_root),
        error::full_message(cause),
    )
}

/// A remote root that could not be listed.
pub fn root_error(remote_root: &str, cause: &Error) -> (out: Error)
    ensures
        out@ == root_failure(remote_root@, cause@),
{
    Error::failure_from(
        text::cat("validating remote root ", &text::debug_of(remote_root)),
        &cause.full_message(),
    )
}

/// Where a snapshot of the remote directory leads.
pub open spec fn capture_remote(
    u: CaptureView,
    entries: Entries,
    reply: Result<SnapshotView, error::ErrorView>,
) -> CaptureView {
    if u.phase != CapturePhase::Remote {
        u
    } else {
        match reply {
            Err(e) => u.failed(e),
            Ok(SnapshotView::Missing) => u.settled(entries, ExpectedRemoteDirectory::Missing),
            Ok(SnapshotView::Directory) => u.settled(entries, ExpectedRemoteDirectory::Directory),
            Ok(SnapshotView::File { .. }) => u.failed(
                error::failure(
                    "remote file appeared while planning directory "@ + u.current(),
                ),
            ),
        }
    }
}

/// The entry of a path.
fn lookup(entries: &PathMap<InventoryEntry>, path: &str) -> (out: Option<InventoryEntry>)
    requires
        entries.wf(),
    ensures
        out == directories::entry_at(entries@, path@),
{
    match entries.get(path) {
        Some(entry) => Some(*entry),
        None => None,
    }
}

impl DirectoryCapture {
    /// There is a directory to look at, and its local side was looked at before
    /// its remote side.
    pub open spec fn wf(&self) -> bool {
        &&& self.phase != CapturePhase::Done ==> self.snapshots@.len() < self.paths@.len()
        &&& self.phase == CapturePhase::RemoteRoot || self.phase == CapturePhase::Remote
            ==> self.local is Some
    }

    /// Starts the capture of the directories that `entries` make a
    /// synchronisation rest on.
    pub fn capture_directory_snapshots(
        local_root: &str,
        canonical_root: &str,
        remote_root: &str,
        entries: &PathMap<InventoryEntry>,
    ) -> (out: DirectoryCapture)
        requires
            entries.wf(),
        ensures
            out.wf(),
            out@.local_root == local_root@,
            out@.canonical_root == canonical_root@,
            out@.remote_root == remote_root@,
            out@.snapshots.len() == 0,
            out@.local is None,
            out@.phase == CapturePhase::Local,
            out@.failure is None,
            directories::top_down(out@.paths),
            forall|d: Seq<char>| #[trigger]
                out@.paths.contains(d) <==> directories::planned(entries@, d),
            out@.paths[0].len() == 0,
    {
        let paths = directories::directory_paths(entries);
        DirectoryCapture {
            local_root: local_root.to_owned(),
            canonical_root: canonical_root.to_owned(),
            remote_root: remote_root.to_owned(),
            paths,
            snapshots: Vec::new(),
            local: None,
            phase: CapturePhase::Local,
            failure: None,
        }
    }

    /// Ends the capture by a failure.
    fn fail(&mut self, failure: Error)
        ensures
            final(self)@ == old(self)@.failed(failure@),
            final(self).wf(),
    {
        self.phase = CapturePhase::Done;
        self.failure = Some(failure);
    }

    /// The directory that is being looked at.
    pub fn current(&self) -> (out: String)
        requires
            self.wf(),
            self.phase != CapturePhase::Done,
        ensures
            out@ == self@.current(),
    {
        self.paths[self.snapshots.len()].clone()
    }

    /// The remote path of the directory that is being looked at.
    pub fn current_remote(&self) -> (out: String)
        requires
            self.wf(),
            self.phase != CapturePhase::Done,
        ensures
            out@ == paths::remote_joined(self@.remote_root, self@.current()),
    {
        let relative = self.current();
        paths::remote_path_join(&self.remote_root, &relative)
    }

    /// Takes what the directory is on the server.
    fn settle(&mut self, entries: &PathMap<InventoryEntry>, remote: ExpectedRemoteDirectory)
        requires
            old(self).snapshots@.len() < old(self).paths@.len(),
            old(self).local is Some,
            entries.wf(),
        ensures
            final(self).wf(),
            final(self)@ == old(self)@.settled(entries@, remote),
    {
        let relative = self.paths[self.snapshots.len()].clone();
        assert(self@.current() == relative@);
        match directories::expected_remote_of(lookup(entries, &relative), &relative, remote) {
            Err(e) => self.fail(e),
            Ok(remote) => {
                let ghost before = text::views(self.snapshots@);
                let local = self.local.take();
                match local {
                    Some(local) => {
                        let snapshot = ExpectedDirectory { relative, local, remote };
                        let ghost seen = snapshot@;
                        self.snapshots.push(snapshot);
                        assert(text::views(self.snapshots@) =~= before.push(seen));
                    },
                    None => {},
                }
                self.phase = if self.snapshots.len() < self.paths.len() {
                    CapturePhase::Local
                } else {
                    CapturePhase::Done
                };
            },
        }
    }

    /// Takes what the file system says of the directory.
    pub fn on_local(
        &mut self,
        entries: &PathMap<InventoryEntry>,
        facts: DirectoryLook,
    )
        requires
            old(self).wf(),
            entries.wf(),
        ensures
            final(self).wf(),
            final(self)@ == capture_local(old(self)@, entries@, facts),
    {
        match self.phase {
            CapturePhase::Local => {},
            _ => {
                return;
            },
        }
        let relative = self.current();
        let found = match directories::capture_local_directory_identity(
            &self.local_root,
            &self.canonical_root,
            &relative,
            facts,
        ) {
            Err(e) => {
                self.fail(e);
                return;
            },
            Ok(found) => found,
        };
        match directories::expected_local_of(lookup(entries, &relative), &relative, found) {
            Err(e) => self.fail(e),
            Ok(local) => {
                self.local = Some(local);
                if relative.as_str().unicode_len() == 0 {
                    self.phase = CapturePhase::RemoteRoot;
                } else if directories::is_missing_above(
                    &self.snapshots,
                    self.snapshots.len(),
                    &relative,
                ) {
                    self.settle(entries, ExpectedRemoteDirectory::Missing);
                } else {
                    self.phase = CapturePhase::Remote;
                }
            },
        }
    }

    /// Takes whether the remote root can be listed.
    pub fn on_root(&mut self, entries: &PathMap<InventoryEntry>, reply: Result<(), Error>)
        requires
            old(self).wf(),
            entries.wf(),
        ensures
            final(self).wf(),
            final(self)@ == capture_root(old(self)@, entries@, upload::reported(reply)),
    {
        match self.phase {
            CapturePhase::RemoteRoot => match reply {
                Err(cause) => {
                    let failure = root_error(&self.remote_root, &cause);
                    self.fail(failure);
                },
                Ok(_) => self.settle(entries, ExpectedRemoteDirectory::Root),
            },
            _ => {},
        }
    }

    /// Takes a snapshot of the remote directory.
    pub fn on_remote(
        &mut self,
        entries: &PathMap<InventoryEntry>,
        reply: Result<RemoteDestinationSnapshot, Error>,
    )
        requires
            old(self).wf(),
            entries.wf(),
        ensures
            final(self).wf(),
            final(self)@ == capture_remote(old(self)@, entries@, upload::seen(reply)),
    {
        match self.phase {
            CapturePhase::Remote => match reply {
                Err(e) => self.fail(e),
                Ok(RemoteDestinationSnapshot::Missing) => self.settle(
                    entries,
                    ExpectedRemoteDirectory::Missing,
                ),
                Ok(RemoteDestinationSnapshot::Directory) => self.settle(
                    entries,
                    ExpectedRemoteDirectory::Directory,
                ),
                Ok(RemoteDestinationSnapshot::File { .. }) => {
                    let relative = self.current();
                    self.fail(
                        Error::failure(
                            text::cat("remote file appeared while planning directory ", &relative),
                        ),
                    );
                },
            },
            _ => {},
        }
    }

    /// What was captured, or the failure that ended the capture.
    pub fn outcome(self) -> (out: Result<Vec<ExpectedDirectory>, Error>)
        ensures
            match (out, self@.failure) {
                (Ok(found), None) => text::views(found@) == self@.snapshots,
                (Err(e), Some(want)) => e@ == want,
                _ => false,
            },
    {
        match self.failure {
            Some(e) => Err(e),
            None => Ok(self.snapshots),
        }
    }
}

/// Whether a local directory was found, and is the root or not.
pub open spec fn found_root(local: Option<LocalView>, root: bool) -> bool {
    match local {
        Some(local) => (local is Root) == root,
        None => false,
    }
}

/// Whether what was captured so far belongs to the directories in turn, the root
/// being one on both sides and no other directory.
pub open spec fn in_turn(u: CaptureView) -> bool {
    &&& u.snapshots.len() <= u.paths.len()
    &&& forall|i: int|
        0 <= i < u.snapshots.len() ==> (#[trigger] u.snapshots[i]).relative == u.paths[i]
    &&& forall|i: int|
        0 <= i < u.snapshots.len() ==> {
            &&& (u.snapshots[i].relative.len() == 0) == (#[trigger] u.snapshots[i]).local is Root
            &&& (u.snapshots[i].relative.len() == 0) == (u.snapshots[i].remote
                == ExpectedRemoteDirectory::Root)
        }
    &&& u.phase != CapturePhase::Done ==> u.snapshots.len() < u.paths.len()
    &&& u.phase == CapturePhase::RemoteRoot ==> u.current().len() == 0 && found_root(u.local, true)
    &&& u.phase == CapturePhase::Remote ==> u.current().len() > 0 && found_root(u.local, false)
    &&& u.phase == CapturePhase::Done && u.failure is None ==> u.snapshots.len() == u.paths.len()
}

/// A capture takes the directories in turn, whatever comes back, and once it is
/// done without a failure it has taken all of them.
pub proof fn capture_goes_in_turn(
    u: CaptureView,
    entries: Entries,
    facts: DirectoryLook,
    root: Result<(), error::ErrorView>,
    remote: Result<SnapshotView, error::ErrorView>,
)
    requires
        in_turn(u),
    ensures
        in_turn(capture_local(u, entries, facts)),
        in_turn(capture_root(u, entries, root)),
        in_turn(capture_remote(u, entries, remote)),
{
}

/// Where looking at both sides of a directory leads, the remote side as it is to
/// be looked at.
pub open spec fn looked_at(
    u: CaptureView,
    entries: Entries,
    facts: DirectoryLook,
    root: Result<(), error::ErrorView>,
    seen: Result<SnapshotView, error::ErrorView>,
) -> CaptureView {
    let local = capture_local(u, entries, facts);
    match local.phase {
        CapturePhase::RemoteRoot => capture_root(local, entries, root),
        CapturePhase::Remote => capture_remote(local, entries, seen),
        _ => local,
    }
}

/// What the remote side of the directory in turn is found to be, where it can be
/// told: the root where it can be listed, missing below what is missing, and
/// otherwise what is seen of it.
pub open spec fn remote_found(
    u: CaptureView,
    root: Result<(), error::ErrorView>,
    seen: Result<SnapshotView, error::ErrorView>,
) -> Option<ExpectedRemoteDirectory> {
    if u.current().len() == 0 {
        if root is Ok {
            Some(ExpectedRemoteDirectory::Root)
        } else {
            None
        }
    } else if directories::missing_above(u.snapshots, u.snapshots.len(), u.current()) {
        Some(ExpectedRemoteDirectory::Missing)
    } else if seen is Ok && seen->Ok_0 is Missing {
        Some(ExpectedRemoteDirectory::Missing)
    } else if seen is Ok && seen->Ok_0 is Directory {
        Some(ExpectedRemoteDirectory::Directory)
    } else {
        None
    }
}

/// A directory is captured exactly where both of its sides can be told and are
/// what the inventory found, and its capture says what they are. Everything else
/// fails, and what was captured before stays.
pub proof fn captured_directory_is_what_was_seen(
    u: CaptureView,
    entries: Entries,
    facts: DirectoryLook,
    root: Result<(), error::ErrorView>,
    seen: Result<SnapshotView, error::ErrorView>,
)
    requires
        u.phase == CapturePhase::Local,
        u.failure is None,
        u.snapshots.len() < u.paths.len(),
    ensures
        ({
            let next = looked_at(u, entries, facts, root, seen);
            let entry = directories::entry_at(entries, u.current());
            let found = directories::identified(
                u.local_root,
                u.canonical_root,
                u.current(),
                facts,
            );
            let local = directories::expected_local(entry, u.current(), found->Ok_0);
            let remote = remote_found(u, root, seen);
            let told = {
                &&& found is Ok
                &&& local is Ok
                &&& remote is Some
                &&& directories::expected_remote(entry, u.current(), remote->Some_0) is Ok
            };
            &&& next.failure is None <==> told
            &&& told ==> {
                &&& next.snapshots == u.snapshots.push(
                    DirectoryView {
                        relative: u.paths[u.snapshots.len() as int],
                        local: local->Ok_0,
                        remote: directories::expected_remote(
                            entry,
                            u.current(),
                            remote->Some_0,
                        )->Ok_0,
                    },
                )
                &&& next.phase == CapturePhase::Local <==> next.snapshots.len() < u.paths.len()
                &&& next.phase == CapturePhase::Done <==> next.snapshots.len() == u.paths.len()
            }
            &&& !told ==> next.snapshots == u.snapshots && next.phase == CapturePhase::Done
            &&& next.paths == u.paths
        }),
{
}

} // verus!
