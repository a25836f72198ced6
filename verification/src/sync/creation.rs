//! Creating a directory on the side that lacks it, inside a claim and only while
//! everything above it is what it should be.

use crate::error::Error;
use crate::error;
use crate::file_transfer::{RemoteDestinationSnapshot, SnapshotView};
use crate::scope::{CommitDecision, ExecutionMode};
use crate::sync::directories::{
    DirectoryLook, DirectoryView, ExpectedDirectory, ExpectedLocalDirectory,
    ExpectedRemoteDirectory, IdentityView, LocalDirectoryIdentity, LocalView,
};
use crate::sync::directories;
use crate::sync::validation::{DirectoryValidation, ValidationPhase, ValidationView};
use crate::sync::validation;
use crate::text;
use crate::upload::ClaimReply;
use crate::upload;
use vstd::prelude::*;

verus! {

broadcast use vstd::seq::group_seq_axioms;

/// On which side a directory is to be created.
#[derive(Debug, Clone, Copy, PartialEq, Eq, Structural)]
pub enum DirectoryAction {
    CreateLocal,
    CreateRemote,
}

/// What is to be done about a directory: it is created on the side that lacks it.
pub open spec fn action_of(expected: DirectoryView) -> Result<
    Option<DirectoryAction>,
    error::ErrorView,
> {
    match (expected.local, expected.remote) {
        (LocalView::Root(_), ExpectedRemoteDirectory::Root) => Ok(None),
        (LocalView::Directory(_), ExpectedRemoteDirectory::Directory) => Ok(None),
        (LocalView::Missing, ExpectedRemoteDirectory::Directory) => Ok(
            Some(DirectoryAction::CreateLocal),
        ),
        (LocalView::Directory(_), ExpectedRemoteDirectory::Missing) => Ok(
            Some(DirectoryAction::CreateRemote),
        ),
        (LocalView::Missing, ExpectedRemoteDirectory::Missing) => Ok(None),
        _ => Err(
            error::failure(
                "invalid directory plan at "@ + text::debug_text(expected.relative),
            ),
        ),
    }
}

/// What is to be done about a directory.
pub fn directory_action(expected: &ExpectedDirectory) -> (out: Result<
    Option<DirectoryAction>,
    Error,
>)
    ensures
        error::settles(out, action_of(expected@)),
{
    match (&expected.local, expected.remote) {
        (ExpectedLocalDirectory::Root(_), ExpectedRemoteDirectory::Root) => Ok(None),
        (ExpectedLocalDirectory::Directory(_), ExpectedRemoteDirectory::Directory) => Ok(None),
        (ExpectedLocalDirectory::Missing, ExpectedRemoteDirectory::Directory) => Ok(
            Some(DirectoryAction::CreateLocal),
        ),
        (ExpectedLocalDirectory::Directory(_), ExpectedRemoteDirectory::Missing) => Ok(
            Some(DirectoryAction::CreateRemote),
        ),
        (ExpectedLocalDirectory::Missing, ExpectedRemoteDirectory::Missing) => Ok(None),
        _ => Err(
            Error::failure(
                text::cat("invalid directory plan at ", &text::debug_of(&expected.relative)),
            ),
        ),
    }
}

/// What the creation of a directory waits for.
#[derive(Debug, Clone, Copy, PartialEq, Eq, Structural)]
pub enum CreationPhase {
    /// Whether the selection is current.
    Poll,
    /// The claim inside which the directory is created.
    Claim,
    /// What the validation waits for.
    Validate,
    /// What came of the creation.
    Make,
    /// What the file system says of the new local directory.
    Inspect,
    /// That the claim was given back.
    Release,
    Done,
}

/// What the creation of a directory ended in.
#[derive(Debug, Clone, Copy, PartialEq, Eq, Structural)]
pub enum CreationEnd {
    Open,
    Cancelled,
    Failed,
    Created,
}

/// The creation of one directory.
#[derive(Debug)]
pub struct DirectoryCreation {
    pub local_root: String,
    pub remote_root: String,
    pub relative: String,
    pub action: DirectoryAction,
    pub mode: ExecutionMode,
    pub phase: CreationPhase,
    pub validation: DirectoryValidation,
    pub identity: Option<LocalDirectoryIdentity>,
    pub end: CreationEnd,
    pub failure: Option<Error>,
}

/// What the creation of a directory says.
pub struct CreationView {
    pub local_root: Seq<char>,
    pub remote_root: Seq<char>,
    pub relative: Seq<char>,
    pub action: DirectoryAction,
    pub mode: ExecutionMode,
    pub phase: CreationPhase,
    pub validation: ValidationView,
    pub identity: Option<IdentityView>,
    pub end: CreationEnd,
    pub failure: Option<error::ErrorView>,
}

impl View for DirectoryCreation {
    type V = CreationView;

    open spec fn view(&self) -> CreationView {
        CreationView {
            local_root: self.local_root@,
            remote_root: self.remote_root@,
            relative: self.relative@,
            action: self.action,
            mode: self.mode,
            phase: self.phase,
            validation: self.validation@,
            identity: match self.identity {
                Some(identity) => Some(identity@),
                None => None,
            },
            end: self.end,
            failure: match self.failure {
                Some(e) => Some(e@),
                None => None,
            },
        }
    }
}

impl CreationView {
    /// The creation, ended.
    pub open spec fn ended(self, phase: CreationPhase, end: CreationEnd) -> CreationView {
        CreationView { phase, end, ..self }
    }

    /// The creation, ended by a failure.
    pub open spec fn failed(self, phase: CreationPhase, failure: error::ErrorView) -> CreationView {
        CreationView { phase, end: CreationEnd::Failed, failure: Some(failure), ..self }
    }

    /// The creation with its validation gone on.
    pub open spec fn validated(self, validation: ValidationView) -> CreationView {
        if validation.phase != ValidationPhase::Done {
            CreationView { validation, ..self }
        } else {
            match validation.failure {
                Some(e) => (CreationView {
                    validation: ValidationView { failure: None, ..validation },
                    ..self
                }).failed(CreationPhase::Release, e),
                None => CreationView { phase: CreationPhase::Make, validation, ..self },
            }
        }
    }

    /// The validation looks at directories that there are.
    pub open spec fn wf(self, count: nat) -> bool {
        self.validation.wf(count)
    }
}

/// A reply to the creation of a directory.
pub enum CreationReply {
    Gate(bool),
    Claimed(Result<CommitDecision, error::ErrorView>),
    Local(DirectoryLook),
    Root(Result<(), error::ErrorView>),
    Snapshot(Result<SnapshotView, error::ErrorView>),
    Made(Result<(), error::ErrorView>),
    Inspected(Result<Seq<char>, error::ErrorView>, DirectoryLook),
    Released,
}

/// Where a reply leads the creation of a directory. A reply that the phase does
/// not wait for changes nothing.
pub open spec fn creation_step(
    u: CreationView,
    directories: Seq<DirectoryView>,
    reply: CreationReply,
) -> CreationView {
    match (u.phase, reply) {
        (CreationPhase::Poll, CreationReply::Gate(current)) => if !current {
            u.ended(CreationPhase::Done, CreationEnd::Cancelled)
        } else if u.mode == ExecutionMode::DryRun {
            u.ended(CreationPhase::Done, CreationEnd::Created)
        } else {
            CreationView { phase: CreationPhase::Claim, ..u }
        },
        (CreationPhase::Claim, CreationReply::Claimed(claimed)) => match claimed {
            Err(e) => u.failed(CreationPhase::Done, e),
            Ok(CommitDecision::Cancelled) => u.ended(CreationPhase::Done, CreationEnd::Cancelled),
            Ok(CommitDecision::Committed) => (CreationView {
                phase: CreationPhase::Validate,
                ..u
            }).validated(u.validation),
        },
        (CreationPhase::Validate, CreationReply::Local(facts)) => u.validated(
            validation::validated_local(u.validation, directories, facts),
        ),
        (CreationPhase::Validate, CreationReply::Root(listed)) => u.validated(
            validation::validated_root(u.validation, listed),
        ),
        (CreationPhase::Validate, CreationReply::Snapshot(seen)) => u.validated(
            validation::validated_remote(u.validation, directories, seen),
        ),
        (CreationPhase::Make, CreationReply::Made(made)) => match (made, u.action) {
            (Err(cause), DirectoryAction::CreateLocal) => u.failed(
                CreationPhase::Release,
                error::failure_from(
                    "creating local directory "@ + directories::local_path(
                        u.local_root,
                        u.relative,
                    ),
                    error::full_message(cause),
                ),
            ),
            (Err(cause), DirectoryAction::CreateRemote) => u.failed(
                CreationPhase::Release,
                error::failure_from(
                    "creating remote directory "@ + text::debug_text(u.relative),
                    error::full_message(cause),
                ),
            ),
            (Ok(_), DirectoryAction::CreateLocal) => CreationView {
                phase: CreationPhase::Inspect,
                ..u
            },
            (Ok(_), DirectoryAction::CreateRemote) => u.ended(
                CreationPhase::Release,
                CreationEnd::Created,
            ),
        },
        (CreationPhase::Inspect, CreationReply::Inspected(root, facts)) => match root {
            Err(e) => u.failed(CreationPhase::Release, e),
            Ok(canonical_root) => match directories::identified(
                u.local_root,
                canonical_root,
                u.relative,
                facts,
            ) {
                Err(e) => u.failed(CreationPhase::Release, e),
                Ok(None) => u.failed(
                    CreationPhase::Release,
                    error::failure("created local directory disappeared at "@ + u.relative),
                ),
                Ok(Some(identity)) => (CreationView { identity: Some(identity), ..u }).ended(
                    CreationPhase::Release,
                    CreationEnd::Created,
                ),
            },
        },
        (CreationPhase::Release, CreationReply::Released) => CreationView {
            phase: CreationPhase::Done,
            ..u
        },
        _ => u,
    }
}

/// Where the creation of the directory at `index` starts.
pub open spec fn creation_start(
    local_root: Seq<char>,
    remote_root: Seq<char>,
    directories: Seq<DirectoryView>,
    index: int,
    action: DirectoryAction,
    mode: ExecutionMode,
) -> CreationView {
    CreationView {
        local_root,
        remote_root,
        relative: directories[index].relative,
        action,
        mode,
        phase: CreationPhase::Poll,
        validation: validation::validation_start(
            local_root,
            remote_root,
            validation::before_change(directories, index),
        ),
        identity: None,
        end: CreationEnd::Open,
        failure: None,
    }
}

impl DirectoryCreation {
    /// Starts the creation of the directory at `index`.
    pub fn start(
        local_root: &str,
        remote_root: &str,
        expected: &Vec<ExpectedDirectory>,
        index: usize,
        action: DirectoryAction,
        mode: ExecutionMode,
    ) -> (out: DirectoryCreation)
        requires
            index < expected@.len(),
        ensures
            out@ == creation_start(
                local_root@,
                remote_root@,
                text::views(expected@),
                index as int,
                action,
                mode,
            ),
            out@.wf(expected@.len()),
    {
        let queue = validation::prefix_queue(expected, index);
        assert(text::views(expected@)[index as int] == expected@[index as int]@);
        let validation = DirectoryValidation::start(local_root, remote_root, queue);
        DirectoryCreation {
            local_root: local_root.to_owned(),
            remote_root: remote_root.to_owned(),
            relative: expected[index].relative.clone(),
            action,
            mode,
            phase: CreationPhase::Poll,
            validation,
            identity: None,
            end: CreationEnd::Open,
            failure: None,
        }
    }

    /// Ends the creation.
    fn finish(&mut self, phase: CreationPhase, end: CreationEnd)
        ensures
            final(self)@ == old(self)@.ended(phase, end),
    {
        self.phase = phase;
        self.end = end;
    }

    /// Ends the creation by a failure.
    fn fail(&mut self, phase: CreationPhase, failure: Error)
        ensures
            final(self)@ == old(self)@.failed(phase, failure@),
    {
        self.phase = phase;
        self.end = CreationEnd::Failed;
        self.failure = Some(failure);
    }

    /// Goes on with what the validation has come to.
    fn validated(&mut self)
        ensures
            final(self)@ == old(self)@.validated(old(self)@.validation),
    {
        match self.validation.phase {
            ValidationPhase::Done => {
                let failure = self.validation.failure.take();
                match failure {
                    Some(e) => self.fail(CreationPhase::Release, e),
                    None => {
                        self.phase = CreationPhase::Make;
                    },
                }
            },
            _ => {},
        }
    }

    /// Takes the answer whether the selection is still current.
    pub fn on_gate(&mut self, current: bool, expected: &Vec<ExpectedDirectory>)
        requires
            old(self)@.wf(expected@.len()),
        ensures
            final(self)@ == creation_step(
                old(self)@,
                text::views(expected@),
                CreationReply::Gate(current),
            ),
            final(self)@.wf(expected@.len()),
    {
        match self.phase {
            CreationPhase::Poll => {
                if !current {
                    self.finish(CreationPhase::Done, CreationEnd::Cancelled);
                } else if self.mode == ExecutionMode::DryRun {
                    self.finish(CreationPhase::Done, CreationEnd::Created);
                } else {
                    self.phase = CreationPhase::Claim;
                }
            },
            _ => {},
        }
    }

    /// Takes the answer to the claim.
    pub fn on_claim(&mut self, reply: ClaimReply, expected: &Vec<ExpectedDirectory>)
        requires
            old(self)@.wf(expected@.len()),
        ensures
            final(self)@ == creation_step(
                old(self)@,
                text::views(expected@),
                CreationReply::Claimed(upload::claimed(reply)),
            ),
            final(self)@.wf(expected@.len()),
    {
        match self.phase {
            CreationPhase::Claim => match reply {
                ClaimReply::Failed(e) => self.fail(CreationPhase::Done, e),
                ClaimReply::Cancelled => self.finish(CreationPhase::Done, CreationEnd::Cancelled),
                ClaimReply::Granted => {
                    self.phase = CreationPhase::Validate;
                    self.validated();
                },
            },
            _ => {},
        }
    }

    /// Takes what the file system says of the directory that is validated.
    pub fn on_local(
        &mut self,
        expected: &Vec<ExpectedDirectory>,
        facts: DirectoryLook,
    )
        requires
            old(self)@.wf(expected@.len()),
        ensures
            final(self)@ == creation_step(
                old(self)@,
                text::views(expected@),
                CreationReply::Local(facts),
            ),
            final(self)@.wf(expected@.len()),
    {
        match self.phase {
            CreationPhase::Validate => {
                self.validation.on_local(expected, facts);
                self.validated();
            },
            _ => {},
        }
    }

    /// Takes whether the remote root can be listed.
    pub fn on_root(&mut self, expected: &Vec<ExpectedDirectory>, reply: Result<(), Error>)
        requires
            old(self)@.wf(expected@.len()),
        ensures
            final(self)@ == creation_step(
                old(self)@,
                text::views(expected@),
                CreationReply::Root(upload::reported(reply)),
            ),
            final(self)@.wf(expected@.len()),
    {
        match self.phase {
            CreationPhase::Validate => {
                self.validation.on_root(reply);
                self.validated();
            },
            _ => {},
        }
    }

    /// Takes a snapshot of the remote directory that is validated.
    pub fn on_snapshot(
        &mut self,
        expected: &Vec<ExpectedDirectory>,
        reply: Result<RemoteDestinationSnapshot, Error>,
    )
        requires
            old(self)@.wf(expected@.len()),
        ensures
            final(self)@ == creation_step(
                old(self)@,
                text::views(expected@),
                CreationReply::Snapshot(upload::seen(reply)),
            ),
            final(self)@.wf(expected@.len()),
    {
        match self.phase {
            CreationPhase::Validate => {
                self.validation.on_snapshot(expected, reply);
                self.validated();
            },
            _ => {},
        }
    }

    /// Takes what came of the creation.
    pub fn on_made(&mut self, reply: Result<(), Error>, expected: &Vec<ExpectedDirectory>)
        requires
            old(self)@.wf(expected@.len()),
        ensures
            final(self)@ == creation_step(
                old(self)@,
                text::views(expected@),
                CreationReply::Made(upload::reported(reply)),
            ),
            final(self)@.wf(expected@.len()),
    {
        match self.phase {
            CreationPhase::Make => match (reply, self.action) {
                (Err(cause), DirectoryAction::CreateLocal) => {
                    let path = directories::local_path_of(&self.local_root, &self.relative);
                    self.fail(
                        CreationPhase::Release,
                        Error::failure_from(
                            text::cat("creating local directory ", &path),
                            &cause.full_message(),
                        ),
                    );
                },
                (Err(cause), DirectoryAction::CreateRemote) => {
                    let shown = text::debug_of(&self.relative);
                    self.fail(
                        CreationPhase::Release,
                        Error::failure_from(
                            text::cat("creating remote directory ", &shown),
                            &cause.full_message(),
                        ),
                    );
                },
                (Ok(_), DirectoryAction::CreateLocal) => {
                    self.phase = CreationPhase::Inspect;
                },
                (Ok(_), DirectoryAction::CreateRemote) => self.finish(
                    CreationPhase::Release,
                    CreationEnd::Created,
                ),
            },
            _ => {},
        }
    }

    /// Takes where the root really is, and what the file system says of the new
    /// local directory.
    pub fn on_inspected(
        &mut self,
        root: Result<String, Error>,
        facts: DirectoryLook,
        expected: &Vec<ExpectedDirectory>,
    )
        requires
            old(self)@.wf(expected@.len()),
        ensures
            final(self)@ == creation_step(
                old(self)@,
                text::views(expected@),
                CreationReply::Inspected(crate::sync::file_plan::hashed(root), facts),
            ),
            final(self)@.wf(expected@.len()),
    {
        match self.phase {
            CreationPhase::Inspect => match root {
                Err(e) => self.fail(CreationPhase::Release, e),
                Ok(canonical_root) => match directories::capture_local_directory_identity(
                    &self.local_root,
                    &canonical_root,
                    &self.relative,
                    facts,
                ) {
                    Err(e) => self.fail(CreationPhase::Release, e),
                    Ok(None) => {
                        let failure = Error::failure(
                            text::cat(
                                "created local directory disappeared at ",
                                &self.relative,
                            ),
                        );
                        self.fail(CreationPhase::Release, failure);
                    },
                    Ok(Some(identity)) => {
                        self.identity = Some(identity);
                        self.finish(CreationPhase::Release, CreationEnd::Created);
                    },
                },
            },
            _ => {},
        }
    }

    /// Takes that the claim was given back.
    pub fn on_released(&mut self, expected: &Vec<ExpectedDirectory>)
        requires
            old(self)@.wf(expected@.len()),
        ensures
            final(self)@ == creation_step(
                old(self)@,
                text::views(expected@),
                CreationReply::Released,
            ),
            final(self)@.wf(expected@.len()),
    {
        match self.phase {
            CreationPhase::Release => {
                self.phase = CreationPhase::Done;
            },
            _ => {},
        }
    }
}

/// A directory is created only inside a granted claim, once the root, every
/// directory above it and the directory itself were seen there to be what they
/// should, and never in a run that changes nothing.
pub proof fn creation_needs_validation(
    u: CreationView,
    directories: Seq<DirectoryView>,
    reply: CreationReply,
)
    requires
        u.phase != CreationPhase::Make,
        creation_step(u, directories, reply).phase == CreationPhase::Make,
    ensures
        u.phase == CreationPhase::Validate || (u.phase == CreationPhase::Claim && reply
            == CreationReply::Claimed(Ok(CommitDecision::Committed))),
        creation_step(u, directories, reply).validation.phase == ValidationPhase::Done,
        creation_step(u, directories, reply).validation.failure is None,
{
    match reply {
        CreationReply::Gate(_) => {},
        CreationReply::Claimed(_) => {},
        CreationReply::Local(_) => {},
        CreationReply::Root(_) => {},
        CreationReply::Snapshot(_) => {},
        CreationReply::Made(_) => {},
        _ => {},
    }
}

/// In a run that changes nothing a creation ends with its first answer: nothing is
/// claimed and nothing is made.
pub proof fn dry_creation_makes_nothing(
    u: CreationView,
    directories: Seq<DirectoryView>,
    reply: CreationReply,
)
    requires
        u.mode == ExecutionMode::DryRun,
        u.phase == CreationPhase::Poll || u.phase == CreationPhase::Done,
    ensures
        creation_step(u, directories, reply).mode == ExecutionMode::DryRun,
        creation_step(u, directories, reply).phase == CreationPhase::Poll || creation_step(
            u,
            directories,
            reply,
        ).phase == CreationPhase::Done,
{
}

/// Where replies, one after another, lead the creation of a directory.
pub open spec fn creation_run(
    start: CreationView,
    directories: Seq<DirectoryView>,
    replies: Seq<CreationReply>,
) -> CreationView
    decreases replies.len(),
{
    if replies.len() == 0 {
        start
    } else {
        creation_step(
            creation_run(start, directories, replies.drop_last()),
            directories,
            replies.last(),
        )
    }
}

/// Whether a creation is open until it ends, and a local directory that it made is
/// known by its identity.
pub open spec fn made_is_identified(u: CreationView) -> bool {
    &&& u.mode == ExecutionMode::Apply
    &&& u.phase != CreationPhase::Release && u.phase != CreationPhase::Done ==> u.end
        == CreationEnd::Open
    &&& u.end == CreationEnd::Created && u.action == DirectoryAction::CreateLocal ==> u.identity
        is Some
}

proof fn step_identifies_made(
    u: CreationView,
    directories: Seq<DirectoryView>,
    reply: CreationReply,
)
    requires
        made_is_identified(u),
    ensures
        made_is_identified(creation_step(u, directories, reply)),
        creation_step(u, directories, reply).action == u.action,
{
    match reply {
        CreationReply::Gate(_) => {},
        CreationReply::Claimed(_) => {},
        CreationReply::Local(_) => {},
        CreationReply::Root(_) => {},
        CreationReply::Snapshot(_) => {},
        CreationReply::Made(_) => {},
        CreationReply::Inspected(_, _) => {},
        CreationReply::Released => {},
    }
}

/// In a run that makes its changes, a local directory that was created is known by
/// its identity.
pub proof fn created_directory_is_identified(
    local_root: Seq<char>,
    remote_root: Seq<char>,
    directories: Seq<DirectoryView>,
    index: int,
    action: DirectoryAction,
    replies: Seq<CreationReply>,
)
    ensures
        ({
            let u = creation_run(
                creation_start(
                    local_root,
                    remote_root,
                    directories,
                    index,
                    action,
                    ExecutionMode::Apply,
                ),
                directories,
                replies,
            );
            &&& made_is_identified(u)
            &&& u.action == action
        }),
    decreases replies.len(),
{
    if replies.len() > 0 {
        let start = creation_start(
            local_root,
            remote_root,
            directories,
            index,
            action,
            ExecutionMode::Apply,
        );
        created_directory_is_identified(
            local_root,
            remote_root,
            directories,
            index,
            action,
            replies.drop_last(),
        );
        step_identifies_made(
            creation_run(start, directories, replies.drop_last()),
            directories,
            replies.last(),
        );
    }
}

/// A directory is created exactly where one side holds it and the other, expected to be
/// without it, does not: on the side that lacks it, and never at the root.
pub proof fn directories_are_created_where_they_are_missing(expected: DirectoryView)
    ensures
        action_of(expected) == Ok::<Option<DirectoryAction>, error::ErrorView>(
            Some(DirectoryAction::CreateLocal),
        ) <==> expected.local is Missing && expected.remote == ExpectedRemoteDirectory::Directory,
        action_of(expected) == Ok::<Option<DirectoryAction>, error::ErrorView>(
            Some(DirectoryAction::CreateRemote),
        ) <==> expected.local is Directory && expected.remote == ExpectedRemoteDirectory::Missing,
        action_of(expected) == Ok::<Option<DirectoryAction>, error::ErrorView>(None) <==> {
            ||| expected.local is Missing && expected.remote == ExpectedRemoteDirectory::Missing
            ||| expected.local is Directory && expected.remote == ExpectedRemoteDirectory::Directory
            ||| expected.local is Root && expected.remote == ExpectedRemoteDirectory::Root
        },
        action_of(expected) is Err <==> (expected.local is Root) != (expected.remote
            == ExpectedRemoteDirectory::Root),
{
}

/// A directory is made only for real and inside a claim: the selection must be
/// current and the claim granted, and a run that changes nothing is done before
/// that.
pub proof fn creation_asks_before_it_makes(
    u: CreationView,
    directories: Seq<DirectoryView>,
    current: bool,
    claimed: Result<CommitDecision, error::ErrorView>,
)
    requires
        u.phase == CreationPhase::Poll,
        u.end == CreationEnd::Open,
        u.validation.phase == ValidationPhase::Local,
    ensures
        ({
            let polled = creation_step(u, directories, CreationReply::Gate(current));
            let next = creation_step(polled, directories, CreationReply::Claimed(claimed));
            let dry = u.mode == ExecutionMode::DryRun;
            &&& polled.end == CreationEnd::Cancelled <==> !current
            &&& polled.end == CreationEnd::Created <==> current && dry
            &&& polled.phase == CreationPhase::Claim <==> current && !dry
            &&& next.phase == CreationPhase::Validate <==> current && !dry && claimed == Ok::<
                CommitDecision,
                error::ErrorView,
            >(CommitDecision::Committed)
            &&& next.phase == CreationPhase::Validate ==> next.validation == u.validation
                && next.end == CreationEnd::Open
            &&& next.end == CreationEnd::Failed <==> current && !dry && claimed is Err
            &&& next.end == CreationEnd::Cancelled <==> !current || (!dry && claimed == Ok::<
                CommitDecision,
                error::ErrorView,
            >(CommitDecision::Cancelled))
        }),
{
}

/// Before a directory is made, the root, every directory above it and it itself
/// are validated.
pub proof fn creation_validates_what_is_above(
    local_root: Seq<char>,
    remote_root: Seq<char>,
    directories: Seq<DirectoryView>,
    index: int,
    action: DirectoryAction,
    mode: ExecutionMode,
)
    requires
        0 <= index < directories.len() <= usize::MAX,
    ensures
        ({
            let start = creation_start(
                local_root,
                remote_root,
                directories,
                index,
                action,
                mode,
            );
            &&& start.relative == directories[index].relative
            &&& start.validation.at == 0
            &&& start.validation.phase == ValidationPhase::Local
            &&& start.validation.local_root == local_root
            &&& start.validation.remote_root == remote_root
            &&& start.phase == CreationPhase::Poll
            &&& start.end == CreationEnd::Open
            &&& forall|i: usize| #[trigger]
                start.validation.queue.contains(i) <==> i == 0 || i == index || (1 <= i < index
                    && directories::strictly_above(
                    directories[i as int].relative,
                    directories[index].relative,
                ))
        }),
{
    validation::every_directory_above_is_looked_at(directories, index);
    let queue = validation::before_change(directories, index);
    assert(queue.contains(0usize));
}

/// A validation that ends well leads to the directory being made, and one that
/// fails gives the claim back with its failure.
pub proof fn creation_goes_on_by_its_validation(u: CreationView, validation: ValidationView)
    requires
        u.phase == CreationPhase::Validate,
        u.end == CreationEnd::Open,
    ensures
        ({
            let next = u.validated(validation);
            let done = validation.phase == ValidationPhase::Done;
            &&& next.phase == CreationPhase::Make <==> done && validation.failure is None
            &&& next.phase == CreationPhase::Release <==> done && validation.failure is Some
            &&& next.phase == CreationPhase::Validate <==> !done
            &&& next.end == CreationEnd::Failed <==> done && validation.failure is Some
            &&& next.end == CreationEnd::Failed ==> next.failure == validation.failure
        }),
{
}

/// A directory counts as created exactly where it was made and, on the local
/// side, found as what it was made as. The claim is given back either way.
pub proof fn directory_is_created_where_it_was_made(
    u: CreationView,
    directories: Seq<DirectoryView>,
    made: Result<(), error::ErrorView>,
    root: Result<Seq<char>, error::ErrorView>,
    facts: DirectoryLook,
)
    requires
        u.phase == CreationPhase::Make,
        u.end == CreationEnd::Open,
    ensures
        ({
            let tried = creation_step(u, directories, CreationReply::Made(made));
            let next = creation_step(tried, directories, CreationReply::Inspected(root, facts));
            let done = creation_step(next, directories, CreationReply::Released);
            let found = directories::identified(
                u.local_root,
                root->Ok_0,
                u.relative,
                facts,
            );
            let there = root is Ok && found is Ok && found->Ok_0 is Some;
            &&& next.end == CreationEnd::Created <==> made is Ok && (u.action
                == DirectoryAction::CreateRemote || there)
            &&& next.end == CreationEnd::Failed <==> made is Err || (u.action
                == DirectoryAction::CreateLocal && !there)
            &&& next.end == CreationEnd::Failed ==> next.failure is Some
            &&& next.end == CreationEnd::Created && u.action == DirectoryAction::CreateLocal
                ==> next.identity == found->Ok_0
            &&& next.phase == CreationPhase::Release
            &&& done.phase == CreationPhase::Done
            &&& done.end == next.end
            &&& done.identity == next.identity
        }),
{
}

} // verus!
