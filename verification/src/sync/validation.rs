//! Checking that directories are still what they are expected to be.

use crate::error::Error;
use crate::error;
use crate::file_transfer::{RemoteDestinationSnapshot, SnapshotView};
use crate::sync::capture;
use crate::sync::directories::{
    DirectoryLook, DirectoryView, ExpectedDirectory, ExpectedLocalDirectory,
    ExpectedRemoteDirectory, IdentityView, LocalView,
};
use crate::sync::directories;
use crate::text;
use crate::upload;
use vstd::prelude::*;

verus! {

broadcast use vstd::seq::group_seq_axioms;

/// Whether a path leads to a directory of the given identity.
pub open spec fn identity_holds(
    identity: IdentityView,
    path: Seq<char>,
    facts: DirectoryLook,
) -> Result<(), error::ErrorView> {
    match facts {
        DirectoryLook::Missing(cause) => Err(directories::read_failure(path, cause@)),
        DirectoryLook::Unreadable(cause) => Err(directories::read_failure(path, cause@)),
        DirectoryLook::Unfollowed(e) => Err(e@),
        DirectoryLook::Found(facts) => if !facts.is_dir || facts.is_symlink != identity.is_symlink
            || facts.canonical@ != identity.canonical || facts.identity != identity.identity {
            Err(error::failure("local directory changed at "@ + path))
        } else {
            Ok(())
        },
    }
}

/// Whether a local directory is still what it is expected to be.
pub open spec fn local_holds(
    expected: LocalView,
    path: Seq<char>,
    facts: DirectoryLook,
) -> Result<(), error::ErrorView> {
    match expected {
        LocalView::Missing => match facts {
            DirectoryLook::Missing(_) => Ok(()),
            DirectoryLook::Unreadable(cause) => Err(directories::read_failure(path, cause@)),
            _ => Err(error::failure("local directory appeared at "@ + path)),
        },
        LocalView::Root(identity) => identity_holds(identity, path, facts),
        LocalView::Directory(identity) => identity_holds(identity, path, facts),
    }
}

/// Checks that a local directory is still what it is expected to be.
pub fn validate_local_directory(
    local_root: &str,
    expected: &ExpectedDirectory,
    facts: DirectoryLook,
) -> (out: Result<(), Error>)
    ensures
        error::settles(
            out,
            local_holds(
                expected@.local,
                directories::local_path(local_root@, expected@.relative),
                facts,
            ),
        ),
{
    let path = directories::local_path_of(local_root, &expected.relative);
    let identity = match &expected.local {
        ExpectedLocalDirectory::Missing => {
            return match facts {
                DirectoryLook::Missing(_) => Ok(()),
                DirectoryLook::Unreadable(cause) => Err(directories::read_error(&path, &cause)),
                _ => Err(
                    Error::failure(text::cat("local directory appeared at ", &path)),
                ),
            };
        },
        ExpectedLocalDirectory::Root(identity) => identity,
        ExpectedLocalDirectory::Directory(identity) => identity,
    };
    match facts {
        DirectoryLook::Missing(cause) => Err(directories::read_error(&path, &cause)),
        DirectoryLook::Unreadable(cause) => Err(directories::read_error(&path, &cause)),
        DirectoryLook::Unfollowed(e) => Err(e),
        DirectoryLook::Found(facts) => if !facts.is_dir || facts.is_symlink != identity.is_symlink
            || !text::same(&facts.canonical, &identity.canonical) || facts.identity
            != identity.identity {
            Err(Error::failure(text::cat("local directory changed at ", &path)))
        } else {
            Ok(())
        },
    }
}

/// How the remote side of a directory is looked at.
#[derive(Debug, Clone, Copy, PartialEq, Eq, Structural)]
pub enum RemoteLook {
    /// By a listing of the root.
    Root,
    /// Not at all: a directory above it is missing.
    Skip,
    /// By a snapshot.
    Snapshot,
}

/// How the remote side of a directory is looked at.
pub open spec fn look_at(directories: Seq<DirectoryView>, index: int) -> RemoteLook {
    let expected = directories[index];
    if expected.remote == ExpectedRemoteDirectory::Root {
        RemoteLook::Root
    } else if expected.remote == ExpectedRemoteDirectory::Missing && directories::missing_above(
        directories,
        index as nat,
        expected.relative,
    ) {
        RemoteLook::Skip
    } else {
        RemoteLook::Snapshot
    }
}

/// How the remote side of a directory is looked at.
pub fn remote_look(expected: &Vec<ExpectedDirectory>, index: usize) -> (out: RemoteLook)
    requires
        index < expected@.len(),
    ensures
        out == look_at(text::views(expected@), index as int),
{
    let ghost all = text::views(expected@);
    assert(all[index as int] == expected@[index as int]@);
    match expected[index].remote {
        ExpectedRemoteDirectory::Root => RemoteLook::Root,
        ExpectedRemoteDirectory::Missing => if directories::is_missing_above(
            expected,
            index,
            &expected[index].relative,
        ) {
            RemoteLook::Skip
        } else {
            RemoteLook::Snapshot
        },
        ExpectedRemoteDirectory::Directory => RemoteLook::Snapshot,
    }
}

/// Whether a remote directory is still what it is expected to be.
pub open spec fn remote_holds(
    expected: DirectoryView,
    seen: Result<SnapshotView, error::ErrorView>,
) -> Result<(), error::ErrorView> {
    match seen {
        Err(e) => Err(e),
        Ok(snapshot) => if (expected.remote == ExpectedRemoteDirectory::Missing
            && snapshot is Missing) || (expected.remote == ExpectedRemoteDirectory::Directory
            && snapshot is Directory) {
            Ok(())
        } else {
            Err(
                error::failure(
                    "remote directory changed during scoped sync at "@ + text::debug_text(
                        expected.relative,
                    ),
                ),
            )
        },
    }
}

/// Checks that a remote directory is still what it is expected to be.
pub fn validate_remote_directory(
    expected: &ExpectedDirectory,
    reply: Result<RemoteDestinationSnapshot, Error>,
) -> (out: Result<(), Error>)
    ensures
        error::settles(out, remote_holds(expected@, upload::seen(reply))),
{
    match reply {
        Err(e) => Err(e),
        Ok(snapshot) => {
            let holds = match (expected.remote, &snapshot) {
                (ExpectedRemoteDirectory::Missing, RemoteDestinationSnapshot::Missing) => true,
                (ExpectedRemoteDirectory::Directory, RemoteDestinationSnapshot::Directory) => true,
                _ => false,
            };
            if holds {
                Ok(())
            } else {
                Err(
                    Error::failure(
                        text::cat(
                            "remote directory changed during scoped sync at ",
                            &text::debug_of(&expected.relative),
                        ),
                    ),
                )
            }
        },
    }
}

/// What a validation waits for.
#[derive(Debug, Clone, Copy, PartialEq, Eq, Structural)]
pub enum ValidationPhase {
    /// What the file system says of the directory.
    Local,
    /// Whether the remote root can be listed.
    Root,
    /// A snapshot of the remote directory.
    Snapshot,
    Done,
}

/// The validation of some directories in turn: `queue` holds their positions, of
/// which those before `at` are behind.
#[derive(Debug)]
pub struct DirectoryValidation {
    pub local_root: String,
    pub remote_root: String,
    pub queue: Vec<usize>,
    pub at: usize,
    pub phase: ValidationPhase,
    pub failure: Option<Error>,
}

/// What a validation of directories says.
pub struct ValidationView {
    pub local_root: Seq<char>,
    pub remote_root: Seq<char>,
    pub queue: Seq<usize>,
    pub at: nat,
    pub phase: ValidationPhase,
    pub failure: Option<error::ErrorView>,
}

impl View for DirectoryValidation {
    type V = ValidationView;

    open spec fn view(&self) -> ValidationView {
        ValidationView {
            local_root: self.local_root@,
            remote_root: self.remote_root@,
            queue: self.queue@,
            at: self.at as nat,
            phase: self.phase,
            failure: match self.failure {
                Some(e) => Some(e@),
                None => None,
            },
        }
    }
}

impl ValidationView {
    /// The position of the directory that is being looked at.
    pub open spec fn current(self) -> int {
        self.queue[self.at as int] as int
    }

    /// The validation, ended by a failure.
    pub open spec fn failed(self, failure: error::ErrorView) -> ValidationView {
        ValidationView { phase: ValidationPhase::Done, failure: Some(failure), ..self }
    }

    /// The validation once a directory was found to be what it should.
    pub open spec fn passed(self) -> ValidationView {
        ValidationView {
            at: self.at + 1,
            phase: if self.at + 1 < self.queue.len() {
                ValidationPhase::Local
            } else {
                ValidationPhase::Done
            },
            ..self
        }
    }

    /// The queue names directories, and one of them is being looked at unless
    /// the validation is done.
    pub open spec fn wf(self, count: nat) -> bool {
        &&& forall|i: int| 0 <= i < self.queue.len() ==> (#[trigger] self.queue[i]) < count
        &&& self.under_way()
    }

    /// A directory is being looked at unless the validation is done.
    pub open spec fn under_way(self) -> bool {
        self.phase != ValidationPhase::Done ==> self.at < self.queue.len()
    }
}

/// Where what the file system says of a directory leads.
pub open spec fn validated_local(
    u: ValidationView,
    directories: Seq<DirectoryView>,
    facts: DirectoryLook,
) -> ValidationView {
    if u.phase != ValidationPhase::Local {
        u
    } else {
        let expected = directories[u.current()];
        match local_holds(
            expected.local,
            directories::local_path(u.local_root, expected.relative),
            facts,
        ) {
            Err(e) => u.failed(e),
            Ok(_) => match look_at(directories, u.current()) {
                RemoteLook::Root => ValidationView { phase: ValidationPhase::Root, ..u },
                RemoteLook::Skip => u.passed(),
                RemoteLook::Snapshot => ValidationView { phase: ValidationPhase::Snapshot, ..u },
            },
        }
    }
}

/// Where a listing of the remote root leads.
pub open spec fn validated_root(
    u: ValidationView,
    reply: Result<(), error::ErrorView>,
) -> ValidationView {
    if u.phase != ValidationPhase::Root {
        u
    } else {
        match reply {
            Err(cause) => u.failed(capture::root_failure(u.remote_root, cause)),
            Ok(_) => u.passed(),
        }
    }
}

/// Where a snapshot of the remote directory leads.
pub open spec fn validated_remote(
    u: ValidationView,
    directories: Seq<DirectoryView>,
    reply: Result<SnapshotView, error::ErrorView>,
) -> ValidationView {
    if u.phase != ValidationPhase::Snapshot {
        u
    } else {
        match remote_holds(directories[u.current()], reply) {
            Err(e) => u.failed(e),
            Ok(_) => u.passed(),
        }
    }
}

/// Where the validation of the directories in `queue` starts.
pub open spec fn validation_start(
    local_root: Seq<char>,
    remote_root: Seq<char>,
    queue: Seq<usize>,
) -> ValidationView {
    ValidationView {
        local_root,
        remote_root,
        queue,
        at: 0,
        phase: if queue.len() > 0 {
            ValidationPhase::Local
        } else {
            ValidationPhase::Done
        },
        failure: None,
    }
}

impl DirectoryValidation {
    /// Starts the validation of the directories in `queue`.
    pub fn start(local_root: &str, remote_root: &str, queue: Vec<usize>) -> (out:
        DirectoryValidation)
        ensures
            out@ == validation_start(local_root@, remote_root@, queue@),
    {
        let phase = if queue.len() > 0 {
            ValidationPhase::Local
        } else {
            ValidationPhase::Done
        };
        DirectoryValidation {
            local_root: local_root.to_owned(),
            remote_root: remote_root.to_owned(),
            queue,
            at: 0,
            phase,
            failure: None,
        }
    }

    /// Ends the validation by a failure.
    fn fail(&mut self, failure: Error)
        ensures
            final(self)@ == old(self)@.failed(failure@),
    {
        self.phase = ValidationPhase::Done;
        self.failure = Some(failure);
    }

    /// Passes to the next directory.
    fn pass(&mut self)
        requires
            old(self)@.at < old(self)@.queue.len(),
        ensures
            final(self)@ == old(self)@.passed(),
    {
        let total: usize = self.queue.len();
        self.at = self.at + 1;
        self.phase = if self.at < total {
            ValidationPhase::Local
        } else {
            ValidationPhase::Done
        };
    }

    /// The position of the directory that is being looked at.
    pub fn current(&self) -> (out: usize)
        requires
            self.phase != ValidationPhase::Done,
            self@.at < self@.queue.len(),
        ensures
            out as int == self@.current(),
    {
        self.queue[self.at]
    }

    /// Takes what the file system says of the directory.
    pub fn on_local(
        &mut self,
        expected: &Vec<ExpectedDirectory>,
        facts: DirectoryLook,
    )
        requires
            old(self)@.wf(expected@.len()),
        ensures
            final(self)@ == validated_local(old(self)@, text::views(expected@), facts),
            final(self)@.wf(expected@.len()),
    {
        match self.phase {
            ValidationPhase::Local => {
                let index: usize = self.queue[self.at];
                let ghost all = text::views(expected@);
                assert(all[index as int] == expected@[index as int]@);
                match validate_local_directory(&self.local_root, &expected[index], facts) {
                    Err(e) => self.fail(e),
                    Ok(_) => match remote_look(expected, index) {
                        RemoteLook::Root => {
                            self.phase = ValidationPhase::Root;
                        },
                        RemoteLook::Skip => self.pass(),
                        RemoteLook::Snapshot => {
                            self.phase = ValidationPhase::Snapshot;
                        },
                    },
                }
            },
            _ => {},
        }
    }

    /// Takes whether the remote root can be listed.
    pub fn on_root(&mut self, reply: Result<(), Error>)
        requires
            old(self)@.under_way(),
        ensures
            final(self)@ == validated_root(old(self)@, upload::reported(reply)),
            final(self)@.under_way(),
    {
        match self.phase {
            ValidationPhase::Root => match reply {
                Err(cause) => {
                    let failure = capture::root_error(&self.remote_root, &cause);
                    self.fail(failure);
                },
                Ok(_) => self.pass(),
            },
            _ => {},
        }
    }

    /// Takes a snapshot of the remote directory.
    pub fn on_snapshot(
        &mut self,
        expected: &Vec<ExpectedDirectory>,
        reply: Result<RemoteDestinationSnapshot, Error>,
    )
        requires
            old(self)@.wf(expected@.len()),
        ensures
            final(self)@ == validated_remote(
                old(self)@,
                text::views(expected@),
                upload::seen(reply),
            ),
            final(self)@.wf(expected@.len()),
    {
        match self.phase {
            ValidationPhase::Snapshot => {
                let index: usize = self.queue[self.at];
                let ghost all = text::views(expected@);
                assert(all[index as int] == expected@[index as int]@);
                match validate_remote_directory(&expected[index], reply) {
                    Err(e) => self.fail(e),
                    Ok(_) => self.pass(),
                }
            },
            _ => {},
        }
    }
}

/// The directories to look at before one of them is changed: the root, those
/// strictly above it, and the directory itself.
pub open spec fn before_change(directories: Seq<DirectoryView>, through: int) -> Seq<usize> {
    if through == 0 {
        seq![0usize]
    } else {
        seq![0usize] + above(directories, directories[through].relative, through).push(
            through as usize,
        )
    }
}

/// The positions from 1 up to `upto` of the directories strictly above a path.
pub open spec fn above(directories: Seq<DirectoryView>, relative: Seq<char>, upto: int) -> Seq<usize>
    decreases upto,
{
    if upto <= 1 {
        Seq::empty()
    } else if directories::strictly_above(directories[upto - 1].relative, relative) {
        above(directories, relative, upto - 1).push((upto - 1) as usize)
    } else {
        above(directories, relative, upto - 1)
    }
}

/// The positions from 1 on of the directories strictly above a path.
pub fn above_of(expected: &Vec<ExpectedDirectory>, relative: &str, upto: usize) -> (out: Vec<usize>)
    requires
        upto <= expected@.len(),
    ensures
        out@ == above(text::views(expected@), relative@, upto as int),
        forall|i: int| 0 <= i < out@.len() ==> (#[trigger] out@[i]) < upto,
{
    let ghost all = text::views(expected@);
    let mut out: Vec<usize> = Vec::new();
    if upto == 0 {
        return out;
    }
    let mut i: usize = 1;
    assert(out@ =~= above(all, relative@, 1));
    while i < upto
        invariant
            1 <= i <= upto,
            upto <= expected@.len(),
            all == text::views(expected@),
            out@ == above(all, relative@, i as int),
            forall|k: int| 0 <= k < out@.len() ==> (#[trigger] out@[k]) < i,
        decreases upto - i,
    {
        assert(all[i as int] == expected@[i as int]@);
        if directories::is_strict_directory_ancestor(&expected[i].relative, relative) {
            out.push(i);
        }
        i += 1;
    }
    out
}

/// The directories to look at before one of them is changed.
pub fn prefix_queue(expected: &Vec<ExpectedDirectory>, through: usize) -> (out: Vec<usize>)
    requires
        through < expected@.len(),
    ensures
        out@ == before_change(text::views(expected@), through as int),
        forall|i: int| 0 <= i < out@.len() ==> (#[trigger] out@[i]) < expected@.len(),
{
    let ghost all = text::views(expected@);
    assert(all[through as int] == expected@[through as int]@);
    let mut out: Vec<usize> = Vec::new();
    out.push(0);
    if through == 0 {
        assert(out@ =~= seq![0usize]);
        return out;
    }
    let mut between = above_of(expected, &expected[through].relative, through);
    between.push(through);
    let ghost rest = between@;
    out.append(&mut between);
    assert(out@ =~= seq![0usize] + rest);
    out
}

/// The directories to look at when one of them is checked at the end: the root
/// and the directory itself.
pub open spec fn at_the_end(index: int) -> Seq<usize> {
    if index > 0 {
        seq![0usize, index as usize]
    } else {
        seq![0usize]
    }
}

/// The directories to look at when one of them is checked at the end.
pub fn snapshot_queue(index: usize) -> (out: Vec<usize>)
    ensures
        out@ == at_the_end(index as int),
{
    let mut out: Vec<usize> = Vec::new();
    out.push(0);
    if index > 0 {
        out.push(index);
    }
    assert(out@ =~= at_the_end(index as int));
    out
}

/// A path leads to a directory of an identity exactly where a directory is found
/// there that is reached in the same way, is really at the same place and is the
/// same one.
pub proof fn identity_holds_of_the_same_directory(
    identity: IdentityView,
    path: Seq<char>,
    facts: DirectoryLook,
)
    ensures
        identity_holds(identity, path, facts) is Ok <==> facts is Found && {
            let found = facts->Found_0;
            &&& found.is_dir
            &&& found.is_symlink == identity.is_symlink
            &&& found.canonical@ == identity.canonical
            &&& found.identity == identity.identity
        },
{
}

/// A local directory is what it is expected to be exactly where nothing is found
/// of a missing one, and where the same directory is found of any other.
pub proof fn local_holds_of_what_is_expected(
    expected: LocalView,
    path: Seq<char>,
    facts: DirectoryLook,
)
    ensures
        expected is Missing ==> (local_holds(expected, path, facts) is Ok <==> facts is Missing),
        expected matches LocalView::Root(identity) ==> (local_holds(expected, path, facts) is Ok
            <==> identity_holds(identity, path, facts) is Ok),
        expected matches LocalView::Directory(identity) ==> (local_holds(
            expected,
            path,
            facts,
        ) is Ok <==> identity_holds(identity, path, facts) is Ok),
{
}

/// A remote directory below the root is what it is expected to be exactly where
/// a missing one is missing, and where any other is a directory.
pub proof fn remote_holds_of_what_is_expected(
    expected: DirectoryView,
    seen: Result<SnapshotView, error::ErrorView>,
)
    requires
        expected.remote != ExpectedRemoteDirectory::Root,
    ensures
        remote_holds(expected, seen) is Ok <==> seen is Ok && (seen->Ok_0 is Missing <==>
            expected.remote == ExpectedRemoteDirectory::Missing) && !(seen->Ok_0 is File),
        seen is Err ==> remote_holds(expected, seen) is Err,
{
}

/// The remote side of a directory is looked at unless it is expected to be
/// missing below a directory that is missing too.
pub proof fn remote_side_is_looked_at(directories: Seq<DirectoryView>, index: int)
    ensures
        look_at(directories, index) == RemoteLook::Root <==> directories[index].remote
            == ExpectedRemoteDirectory::Root,
        look_at(directories, index) == RemoteLook::Skip <==> directories[index].remote
            == ExpectedRemoteDirectory::Missing && directories::missing_above(
            directories,
            index as nat,
            directories[index].relative,
        ),
{
}

/// The positions that are looked at above a path are exactly those of the
/// directories below the root that are strictly above it.
pub proof fn above_is_every_directory_above(
    directories: Seq<DirectoryView>,
    relative: Seq<char>,
    upto: int,
)
    requires
        upto <= usize::MAX,
    ensures
        forall|i: usize| #[trigger]
            above(directories, relative, upto).contains(i) <==> 1 <= i < upto
                && directories::strictly_above(directories[i as int].relative, relative),
    decreases upto,
{
    if upto > 1 {
        above_is_every_directory_above(directories, relative, upto - 1);
        let all = above(directories, relative, upto);
        let fewer = above(directories, relative, upto - 1);
        assert forall|i: usize| #[trigger] all.contains(i) <==> 1 <= i < upto
            && directories::strictly_above(directories[i as int].relative, relative) by {
            if fewer.contains(i) {
                let k = choose|k: int| 0 <= k < fewer.len() && fewer[k] == i;
                assert(all[k] == i);
            }
            if all.contains(i) {
                let k = choose|k: int| 0 <= k < all.len() && all[k] == i;
                if k < fewer.len() {
                    assert(fewer[k] == i);
                    assert(fewer.contains(i));
                }
            }
            if i == upto - 1 && directories::strictly_above(
                directories[i as int].relative,
                relative,
            ) {
                assert(all[fewer.len() as int] == i);
            }
        }
    }
}

/// Before a directory is changed, the root, every directory strictly above it
/// and it itself are looked at, and nothing else; at the end, the root and it
/// itself are.
pub proof fn every_directory_above_is_looked_at(directories: Seq<DirectoryView>, through: int)
    requires
        0 <= through < directories.len() <= usize::MAX,
    ensures
        forall|i: usize| #[trigger]
            before_change(directories, through).contains(i) <==> i == 0 || i == through || (1 <= i
                < through && directories::strictly_above(
                directories[i as int].relative,
                directories[through].relative,
            )),
        forall|i: usize| #[trigger]
            at_the_end(through).contains(i) <==> i == 0 || i == through,
{
    let end = at_the_end(through);
    assert(end[0] == 0usize);
    if through > 0 {
        assert(end[1] == through as usize);
    }
    let queue = before_change(directories, through);
    if through == 0 {
        assert(queue[0] == 0usize);
    } else {
        above_is_every_directory_above(directories, directories[through].relative, through);
        let between = above(directories, directories[through].relative, through);
        assert(queue == seq![0usize] + between.push(through as usize));
        assert(queue[0] == 0usize);
        assert(queue[between.len() as int + 1] == through as usize);
        assert forall|i: usize| #[trigger] queue.contains(i) <==> i == 0 || i == through || (1 <= i
            < through && directories::strictly_above(
            directories[i as int].relative,
            directories[through].relative,
        )) by {
            if between.contains(i) {
                let k = choose|k: int| 0 <= k < between.len() && between[k] == i;
                assert(queue[k + 1] == i);
            }
            if queue.contains(i) {
                let k = choose|k: int| 0 <= k < queue.len() && queue[k] == i;
                if 0 < k <= between.len() {
                    assert(between[k - 1] == i);
                    assert(between.contains(i));
                }
            }
        }
    }
}

/// Where looking at the directory of a validation leads: the local side, and the
/// remote side as it is to be looked at.
pub open spec fn looked_at(
    u: ValidationView,
    directories: Seq<DirectoryView>,
    facts: DirectoryLook,
    root: Result<(), error::ErrorView>,
    seen: Result<SnapshotView, error::ErrorView>,
) -> ValidationView {
    let local = validated_local(u, directories, facts);
    match local.phase {
        ValidationPhase::Root => validated_root(local, root),
        ValidationPhase::Snapshot => validated_remote(local, directories, seen),
        _ => local,
    }
}

/// Whether a directory is on both sides what it is expected to be.
pub open spec fn stands(
    directories: Seq<DirectoryView>,
    index: int,
    local_root: Seq<char>,
    facts: DirectoryLook,
    root: Result<(), error::ErrorView>,
    seen: Result<SnapshotView, error::ErrorView>,
) -> bool {
    &&& local_holds(
        directories[index].local,
        directories::local_path(local_root, directories[index].relative),
        facts,
    ) is Ok
    &&& look_at(directories, index) == RemoteLook::Root ==> root is Ok
    &&& look_at(directories, index) == RemoteLook::Snapshot ==> remote_holds(
        directories[index],
        seen,
    ) is Ok
}

/// A validation goes on to the next directory exactly where the one it looks at
/// is on both sides what it is expected to be, and fails everywhere else.
pub proof fn validation_goes_on_where_a_directory_stands(
    u: ValidationView,
    directories: Seq<DirectoryView>,
    facts: DirectoryLook,
    root: Result<(), error::ErrorView>,
    seen: Result<SnapshotView, error::ErrorView>,
)
    requires
        u.phase == ValidationPhase::Local,
        u.at < u.queue.len(),
        u.failure is None,
    ensures
        ({
            let next = looked_at(u, directories, facts, root, seen);
            let holds = stands(directories, u.current(), u.local_root, facts, root, seen);
            &&& holds ==> {
                &&& next.failure is None
                &&& next.at == u.at + 1
                &&& next.phase == ValidationPhase::Local <==> u.at + 1 < u.queue.len()
                &&& next.phase == ValidationPhase::Done <==> u.at + 1 == u.queue.len()
            }
            &&& !holds ==> next.failure is Some && next.phase == ValidationPhase::Done
            &&& next.queue == u.queue
            &&& next.local_root == u.local_root
            &&& next.remote_root == u.remote_root
        }),
{
}

} // verus!
