//! The push of a single file, as an editor asks for it whenever it saves one.

use crate::commands::{Command, RunAction};
use crate::commands;
use crate::error::Error;
use crate::error;
use crate::file_transfer::{RemotePresence, TransferOutcome, TransferStatus};
use crate::file_transfer;
use crate::ftp::{Entry, EntryView, ExactFilePresence};
use crate::paths;
use crate::platform::Platform;
use crate::scope::ExecutionMode;
use crate::state::FileState;
use crate::state;
use crate::sync::directories;
use crate::sync::file_plan;
use crate::text;
use crate::upload;
use crate::walk;
use vstd::prelude::*;

verus! {

broadcast use vstd::seq::group_seq_axioms;

/// What the push of a file waits for.
#[derive(Debug, Clone, Copy, PartialEq, Eq, Structural)]
pub enum PushPhase {
    /// The hash of the local file, if there is one.
    Local,
    /// The size of the remote file.
    Size,
    /// An exact lookup of the remote file, since it gave no size.
    LookUp,
    /// The listing of the directory that holds the remote file.
    Parent,
    /// The hash of the remote file.
    Remote,
    /// The hash that is remembered of the file.
    Known,
    Transfer,
    /// The saving of the state.
    Save,
    Done,
}

/// The push of one file.
#[derive(Debug)]
pub struct PushOne {
    pub rel: String,
    pub force: bool,
    pub mode: ExecutionMode,
    pub local_root: String,
    pub remote_root: String,
    pub local_hash: Option<String>,
    pub size_error: Option<Error>,
    pub remote_hash: Option<String>,
    pub status: TransferStatus,
    pub phase: PushPhase,
    pub failure: Option<Error>,
}

/// What the push of one file says.
pub struct PushView {
    pub rel: Seq<char>,
    pub force: bool,
    pub mode: ExecutionMode,
    pub local_root: Seq<char>,
    pub remote_root: Seq<char>,
    pub local_hash: Option<Seq<char>>,
    pub size_error: Option<error::ErrorView>,
    pub remote_hash: Option<Seq<char>>,
    pub status: TransferStatus,
    pub phase: PushPhase,
    pub failure: Option<error::ErrorView>,
}

/// A failure by its view, if there is one.
pub open spec fn failure_view(failure: Option<Error>) -> Option<error::ErrorView> {
    match failure {
        Some(e) => Some(e@),
        None => None,
    }
}

impl View for PushOne {
    type V = PushView;

    open spec fn view(&self) -> PushView {
        PushView {
            rel: self.rel@,
            force: self.force,
            mode: self.mode,
            local_root: self.local_root@,
            remote_root: self.remote_root@,
            local_hash: state::optional(self.local_hash),
            size_error: failure_view(self.size_error),
            remote_hash: state::optional(self.remote_hash),
            status: self.status,
            phase: self.phase,
            failure: failure_view(self.failure),
        }
    }
}

impl PushView {
    /// The remote path of the file.
    pub open spec fn remote_path(self) -> Seq<char> {
        paths::remote_joined(self.remote_root, self.rel)
    }

    /// The push, ended by a failure.
    pub open spec fn failed(self, failure: error::ErrorView) -> PushView {
        PushView {
            phase: PushPhase::Done,
            failure: Some(error::contextual(failure, "push "@ + self.rel)),
            ..self
        }
    }

    /// The push, ended.
    pub open spec fn ended(self, status: TransferStatus) -> PushView {
        PushView { phase: PushPhase::Done, status, ..self }
    }

    /// The push, once the remote file is known to be there or not.
    pub open spec fn probed(self, presence: RemotePresence) -> PushView {
        match presence {
            RemotePresence::Present => PushView { phase: PushPhase::Parent, ..self },
            RemotePresence::Missing => if self.local_hash is None {
                self.failed(error::failure("neither local nor remote has "@ + self.rel))
            } else {
                PushView { phase: PushPhase::Known, ..self }
            },
        }
    }
}

/// A reply to the push of a file.
pub enum PushReply {
    Local(Result<Option<Seq<char>>, error::ErrorView>),
    Size(Result<(), error::ErrorView>),
    Exact(Result<ExactFilePresence, error::ErrorView>),
    Parent(Option<Seq<EntryView>>),
    Remote(Result<Seq<char>, error::ErrorView>),
    Known(Option<Seq<char>>),
    Transferred(Result<(), error::ErrorView>),
    Saved(Result<(), error::ErrorView>),
}

/// Where a reply leads the push of a file. A reply that the phase does not wait for
/// changes nothing. A remote symlink is refused, whether or not anything is forced.
pub open spec fn push_step(u: PushView, reply: PushReply) -> PushView {
    match (u.phase, reply) {
        (PushPhase::Local, PushReply::Local(hash)) => match hash {
            Err(e) => u.failed(
                error::failure_from(
                    "reading local "@ + directories::local_path(u.local_root, u.rel),
                    error::full_message(e),
                ),
            ),
            Ok(hash) => PushView { local_hash: hash, phase: PushPhase::Size, ..u },
        },
        (PushPhase::Size, PushReply::Size(size)) => match size {
            Ok(_) => u.probed(RemotePresence::Present),
            Err(e) => PushView { size_error: Some(e), phase: PushPhase::LookUp, ..u },
        },
        (PushPhase::LookUp, PushReply::Exact(exact)) => match u.size_error {
            None => u,
            Some(size_error) => match file_transfer::settled_presence(
                u.remote_path(),
                size_error,
                exact,
            ) {
                Err(e) => u.failed(e),
                Ok(presence) => u.probed(presence),
            },
        },
        (PushPhase::Parent, PushReply::Parent(listing)) => {
            let link = match listing {
                Some(entries) => walk::leaf_link(u.remote_root, u.remote_path(), entries),
                None => None,
            };
            if link == Some(true) {
                u.failed(
                    error::conflict(
                        "refusing to push "@ + u.rel
                            + ": the remote path is a symlink, not a file"@,
                    ),
                )
            } else {
                PushView { phase: PushPhase::Remote, ..u }
            }
        },
        (PushPhase::Remote, PushReply::Remote(hash)) => match hash {
            Err(e) => u.failed(e),
            Ok(hash) => PushView { remote_hash: Some(hash), phase: PushPhase::Known, ..u },
        },
        (PushPhase::Known, PushReply::Known(known)) => {
            let standing = state::standing(u.local_hash, u.remote_hash, known);
            match commands::action_for(Command::Push, standing, u.force) {
                RunAction::Nothing => u.ended(
                    if standing == FileState::InSync {
                        TransferStatus::Unchanged
                    } else {
                        TransferStatus::SkippedMissingSource
                    },
                ),
                RunAction::Conflict => u.failed(
                    error::conflict(
                        "conflict ("@ + standing.name() + ") on "@ + u.rel
                            + ": remote changes present; pass --force to override"@,
                    ),
                ),
                _ => PushView { phase: PushPhase::Transfer, ..u },
            }
        },
        (PushPhase::Transfer, PushReply::Transferred(made)) => match made {
            Err(e) => u.failed(e),
            Ok(_) => if u.mode == ExecutionMode::Apply {
                PushView { phase: PushPhase::Save, status: TransferStatus::Transferred, ..u }
            } else {
                u.ended(TransferStatus::Transferred)
            },
        },
        (PushPhase::Save, PushReply::Saved(saved)) => match saved {
            Err(e) => u.failed(e),
            Ok(_) => u.ended(u.status),
        },
        _ => u,
    }
}

/// Where the push of a file that is named on a machine starts, or why there is none.
pub open spec fn push_start_on(
    platform: Platform,
    input: Seq<char>,
    force: bool,
    mode: ExecutionMode,
    local_root: Seq<char>,
    remote_root: Seq<char>,
) -> Result<PushView, error::ErrorView> {
    match walk::relative_on(platform, input) {
        Err(e) => Err(error::contextual(e, "push "@ + input)),
        Ok(rel) => Ok(
            PushView {
                rel,
                force,
                mode,
                local_root,
                remote_root,
                local_hash: None,
                size_error: None,
                remote_hash: None,
                status: TransferStatus::Unchanged,
                phase: PushPhase::Local,
                failure: None,
            },
        ),
    }
}

/// Where the push of a file starts where slashes separate names.
pub open spec fn push_start(
    input: Seq<char>,
    force: bool,
    mode: ExecutionMode,
    local_root: Seq<char>,
    remote_root: Seq<char>,
) -> Result<PushView, error::ErrorView> {
    push_start_on(Platform::Slashes, input, force, mode, local_root, remote_root)
}

/// Whether the push of a file has what its phase works with.
pub open spec fn push_inv(u: PushView) -> bool {
    &&& u.phase == PushPhase::Known ==> u.local_hash is Some || u.remote_hash is Some
    &&& u.phase == PushPhase::LookUp ==> u.size_error is Some
    &&& u.phase == PushPhase::Transfer ==> u.local_hash is Some
}

/// The push of a file transfers only where there is a local file, and the remote
/// path was looked up where there is a remote one.
pub proof fn push_keeps_inv(u: PushView, reply: PushReply)
    requires
        push_inv(u),
    ensures
        push_inv(push_step(u, reply)),
        push_step(u, reply).phase == PushPhase::Remote && u.phase != PushPhase::Remote ==> u.phase
            == PushPhase::Parent,
        push_step(u, reply).remote_hash is Some && u.remote_hash is None ==> u.phase
            == PushPhase::Remote,
{
}

/// The push of a file overwrites remote changes only where it is forced, and a
/// refused one ends as a conflict.
pub proof fn push_conflicts_are_refused(u: PushView, known: Option<Seq<char>>)
    requires
        push_inv(u),
        u.phase == PushPhase::Known,
        !u.force,
        u.local_hash is Some,
        u.remote_hash is Some,
        u.remote_hash != known,
        u.remote_hash != u.local_hash,
    ensures
        push_step(u, PushReply::Known(known)).phase == PushPhase::Done,
        push_step(u, PushReply::Known(known)).failure matches Some(e) && e.exit
            == error::Exit::Conflict,
{
}

/// An optional hash or a failure by its view.
pub open spec fn local_reply(reply: Result<Option<String>, Error>) -> Result<
    Option<Seq<char>>,
    error::ErrorView,
> {
    match reply {
        Ok(hash) => Ok(state::optional(hash)),
        Err(e) => Err(e@),
    }
}

/// Whether the push of a file starts as it should.
pub open spec fn starts(
    out: Result<PushOne, Error>,
    want: Result<PushView, error::ErrorView>,
) -> bool {
    match (out, want) {
        (Ok(run), Ok(want)) => push_inv(run@) && run@ == want,
        (Err(e), Err(want)) => e@ == want,
        _ => false,
    }
}

/// The push of one file, named on a machine by its path below the roots.
pub fn push_one_on(
    platform: Platform,
    input: &str,
    force: bool,
    mode: ExecutionMode,
    local_root: &str,
    remote_root: &str,
) -> (out: Result<PushOne, Error>)
    ensures
        starts(
            out,
            push_start_on(platform, input@, force, mode, local_root@, remote_root@),
        ),
{
    match walk::safe_rel_on(platform, input) {
        Err(e) => Err(e.context(text::cat("push ", input))),
        Ok(rel) => Ok(
            PushOne {
                rel,
                force,
                mode,
                local_root: local_root.to_owned(),
                remote_root: remote_root.to_owned(),
                local_hash: None,
                size_error: None,
                remote_hash: None,
                status: TransferStatus::Unchanged,
                phase: PushPhase::Local,
                failure: None,
            },
        ),
    }
}

/// The push of one file where slashes separate names.
pub fn push_one(
    input: &str,
    force: bool,
    mode: ExecutionMode,
    local_root: &str,
    remote_root: &str,
) -> (out: Result<PushOne, Error>)
    ensures
        starts(out, push_start(input@, force, mode, local_root@, remote_root@)),
{
    push_one_on(Platform::Slashes, input, force, mode, local_root, remote_root)
}

impl PushOne {
    fn fail(&mut self, failure: Error)
        ensures
            final(self)@ == old(self)@.failed(failure@),
    {
        self.failure = Some(failure.context(text::cat("push ", &self.rel)));
        self.phase = PushPhase::Done;
    }

    fn take_presence(&mut self, presence: RemotePresence)
        ensures
            final(self)@ == old(self)@.probed(presence),
    {
        match presence {
            RemotePresence::Present => {
                self.phase = PushPhase::Parent;
            },
            RemotePresence::Missing => match &self.local_hash {
                None => {
                    let failure = Error::failure(
                        text::cat("neither local nor remote has ", &self.rel),
                    );
                    self.fail(failure);
                },
                Some(_) => {
                    self.phase = PushPhase::Known;
                },
            },
        }
    }

    /// The remote path of the file.
    pub fn remote_path(&self) -> (out: String)
        ensures
            out@ == self@.remote_path(),
    {
        paths::remote_path_join(&self.remote_root, &self.rel)
    }

    /// Takes the hash of the local file, if there is one.
    pub fn on_local(&mut self, hash: Result<Option<String>, Error>)
        requires
            push_inv(old(self)@),
        ensures
            push_inv(final(self)@),
            final(self)@ == push_step(old(self)@, PushReply::Local(local_reply(hash))),
    {
        match self.phase {
            PushPhase::Local => match hash {
                Err(e) => {
                    let failure = Error::failure_from(
                        text::cat(
                            "reading local ",
                            &directories::local_path_of(&self.local_root, &self.rel),
                        ),
                        &e.full_message(),
                    );
                    self.fail(failure);
                },
                Ok(hash) => {
                    self.local_hash = hash;
                    self.phase = PushPhase::Size;
                },
            },
            _ => {},
        }
    }

    /// Takes whether the remote file has a size.
    pub fn on_size(&mut self, size: Result<(), Error>)
        requires
            push_inv(old(self)@),
        ensures
            push_inv(final(self)@),
            final(self)@ == push_step(old(self)@, PushReply::Size(upload::reported(size))),
    {
        match self.phase {
            PushPhase::Size => match size {
                Ok(_) => self.take_presence(RemotePresence::Present),
                Err(e) => {
                    self.size_error = Some(e);
                    self.phase = PushPhase::LookUp;
                },
            },
            _ => {},
        }
    }

    /// Takes the reply to an exact lookup of the remote file.
    pub fn on_exact(&mut self, exact: Result<ExactFilePresence, Error>)
        requires
            push_inv(old(self)@),
        ensures
            push_inv(final(self)@),
            final(self)@ == push_step(old(self)@, PushReply::Exact(upload::reported(exact))),
    {
        match self.phase {
            PushPhase::LookUp => {},
            _ => {
                return ;
            },
        }
        let path = self.remote_path();
        let size_error = match &self.size_error {
            Some(e) => Error {
                exit: e.exit,
                message: e.message.clone(),
                cause: match &e.cause {
                    Some(cause) => Some(cause.clone()),
                    None => None,
                },
            },
            None => {
                return ;
            },
        };
        let pending = file_transfer::PendingProbe { path, size_error };
        match pending.settle(exact) {
            Err(e) => self.fail(e),
            Ok(presence) => self.take_presence(presence),
        }
    }

    /// Takes the listing of the directory that holds the remote file, if there is
    /// one.
    pub fn on_parent(&mut self, listing: Option<Vec<Entry>>)
        requires
            push_inv(old(self)@),
        ensures
            push_inv(final(self)@),
            final(self)@ == push_step(old(self)@, PushReply::Parent(walk::listed(listing))),
    {
        match self.phase {
            PushPhase::Parent => {},
            _ => {
                return ;
            },
        }
        let path = self.remote_path();
        let is_link = match walk::leaf_is_symlink(&self.remote_root, &path, &listing) {
            Some(is_link) => is_link,
            None => false,
        };
        if is_link {
            let failure = Error::conflict(
                text::cat3(
                    "refusing to push ",
                    &self.rel,
                    ": the remote path is a symlink, not a file",
                ),
            );
            self.fail(failure);
        } else {
            self.phase = PushPhase::Remote;
        }
    }

    /// Takes the hash of the remote file.
    pub fn on_remote(&mut self, hash: Result<String, Error>)
        requires
            push_inv(old(self)@),
        ensures
            push_inv(final(self)@),
            final(self)@ == push_step(old(self)@, PushReply::Remote(file_plan::hashed(hash))),
    {
        match self.phase {
            PushPhase::Remote => match hash {
                Err(e) => self.fail(e),
                Ok(hash) => {
                    self.remote_hash = Some(hash);
                    self.phase = PushPhase::Known;
                },
            },
            _ => {},
        }
    }

    /// Takes the hash that is remembered of the file.
    pub fn on_known(&mut self, known: Option<String>)
        requires
            push_inv(old(self)@),
        ensures
            push_inv(final(self)@),
            final(self)@ == push_step(old(self)@, PushReply::Known(state::optional(known))),
    {
        match self.phase {
            PushPhase::Known => {},
            _ => {
                return ;
            },
        }
        let standing = state::classify(&self.local_hash, &self.remote_hash, &known);
        match commands::run_action(Command::Push, standing, self.force) {
            RunAction::Nothing => {
                self.status = match standing {
                    FileState::InSync => TransferStatus::Unchanged,
                    _ => TransferStatus::SkippedMissingSource,
                };
                self.phase = PushPhase::Done;
            },
            RunAction::Conflict => {
                let failure = Error::conflict(
                    text::cat5(
                        "conflict (",
                        standing.label(),
                        ") on ",
                        &self.rel,
                        ": remote changes present; pass --force to override",
                    ),
                );
                self.fail(failure);
            },
            _ => {
                self.phase = PushPhase::Transfer;
            },
        }
    }

    /// Takes whether the upload was made.
    pub fn on_transferred(&mut self, made: Result<(), Error>)
        requires
            push_inv(old(self)@),
        ensures
            push_inv(final(self)@),
            final(self)@ == push_step(old(self)@, PushReply::Transferred(upload::reported(made))),
    {
        match self.phase {
            PushPhase::Transfer => match made {
                Err(e) => self.fail(e),
                Ok(_) => {
                    self.status = TransferStatus::Transferred;
                    self.phase = match self.mode {
                        ExecutionMode::Apply => PushPhase::Save,
                        ExecutionMode::DryRun => PushPhase::Done,
                    };
                },
            },
            _ => {},
        }
    }

    /// Takes whether the state was saved.
    pub fn on_saved(&mut self, saved: Result<(), Error>)
        requires
            push_inv(old(self)@),
        ensures
            push_inv(final(self)@),
            final(self)@ == push_step(old(self)@, PushReply::Saved(upload::reported(saved))),
    {
        match self.phase {
            PushPhase::Save => match saved {
                Err(e) => self.fail(e),
                Ok(_) => {
                    self.phase = PushPhase::Done;
                },
            },
            _ => {},
        }
    }

    /// What the push came to.
    pub fn outcome(self) -> (out: Result<TransferOutcome, Error>)
        ensures
            match (out, self@.failure) {
                (Ok(outcome), None) => outcome.path@ == self@.rel && outcome.status
                    == self@.status,
                (Err(e), Some(want)) => e@ == want,
                _ => false,
            },
    {
        match self.failure {
            Some(e) => Err(e),
            None => Ok(TransferOutcome::new(&self.rel, self.status)),
        }
    }
}

/// The push of one file, told what is on both sides, comes to what the hashes say. It is
/// refused where the server shows a symlink, and where the remote file is not what was
/// last synchronised unless that is forced. Nothing is done where both sides agree or
/// there is nothing to push. Anything else is transferred, remembered where changes are
/// applied, and reported as transferred.
pub proof fn push_comes_to_what_the_hashes_say(
    u: PushView,
    local: Option<Seq<char>>,
    shown: Option<Seq<EntryView>>,
    remote: Seq<char>,
    known: Option<Seq<char>>,
)
    requires
        u.phase == PushPhase::Local,
        u.remote_hash is None,
        u.failure is None,
    ensures
        ({
            let sized = push_step(
                push_step(u, PushReply::Local(Ok(local))),
                PushReply::Size(Ok(())),
            );
            let link = match shown {
                Some(entries) => walk::leaf_link(u.remote_root, u.remote_path(), entries) == Some(
                    true,
                ),
                None => false,
            };
            let listed = push_step(sized, PushReply::Parent(shown));
            let v = push_step(
                push_step(listed, PushReply::Remote(Ok(remote))),
                PushReply::Known(known),
            );
            let made = push_step(v, PushReply::Transferred(Ok(())));
            let saved = push_step(made, PushReply::Saved(Ok(())));
            &&& link ==> listed.phase == PushPhase::Done && (listed.failure matches Some(e)
                && e.exit == error::Exit::Conflict)
            &&& !link ==> {
                &&& local is None ==> v.phase == PushPhase::Done && v.failure is None && v.status
                    == TransferStatus::SkippedMissingSource
                &&& local == Some(remote) && known is Some ==> v.phase == PushPhase::Done
                    && v.failure is None && v.status == TransferStatus::Unchanged
                &&& local is Some && (known is None || (local != Some(remote) && known != Some(
                    remote,
                ))) && !u.force ==> v.phase == PushPhase::Done && (v.failure matches Some(e)
                    && e.exit == error::Exit::Conflict)
                &&& local is Some && !(local == Some(remote) && known is Some) && (u.force || known
                    == Some(remote)) ==> {
                    &&& v.phase == PushPhase::Transfer && v.local_hash == local
                    &&& u.mode == ExecutionMode::DryRun ==> made.phase == PushPhase::Done
                        && made.failure is None && made.status == TransferStatus::Transferred
                    &&& u.mode == ExecutionMode::Apply ==> {
                        &&& made.phase == PushPhase::Save
                        &&& saved.phase == PushPhase::Done && saved.failure is None && saved.status
                            == TransferStatus::Transferred
                    }
                }
            }
        }),
{
}

/// A file that the server does not have is pushed whatever is remembered of it, unless
/// it is missing locally too.
pub proof fn missing_remote_file_is_pushed(
    u: PushView,
    local: Option<Seq<char>>,
    size_error: error::ErrorView,
    exact: Result<ExactFilePresence, error::ErrorView>,
    known: Option<Seq<char>>,
)
    requires
        u.phase == PushPhase::Local,
        u.remote_hash is None,
        u.failure is None,
        file_transfer::settled_presence(u.remote_path(), size_error, exact) == Ok::<
            RemotePresence,
            error::ErrorView,
        >(RemotePresence::Missing),
    ensures
        ({
            let refused = push_step(
                push_step(u, PushReply::Local(Ok(local))),
                PushReply::Size(Err(size_error)),
            );
            let probed = push_step(refused, PushReply::Exact(exact));
            &&& refused.phase == PushPhase::LookUp
            &&& local is None ==> probed.phase == PushPhase::Done && probed.failure is Some
            &&& local is Some ==> push_step(probed, PushReply::Known(known)).phase
                == PushPhase::Transfer
        }),
{
}

/// Whatever fails ends the push of a file with that failure, told of that file.
pub proof fn push_failures_name_their_file(u: PushView, e: error::ErrorView)
    ensures
        forall|reply: PushReply|
            (reply == PushReply::Remote(Err(e)) && u.phase == PushPhase::Remote) || (reply
                == PushReply::Transferred(Err(e)) && u.phase == PushPhase::Transfer) || (reply
                == PushReply::Saved(Err(e)) && u.phase == PushPhase::Save) ==> {
                let v = #[trigger] push_step(u, reply);
                &&& v.phase == PushPhase::Done
                &&& v.failure == Some(error::contextual(e, "push "@ + u.rel))
            },
{
}

} // verus!
