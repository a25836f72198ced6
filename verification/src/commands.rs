//! The unscoped commands: which paths they work on, what they do about each, and
//! what they say.

use crate::error::Error;
use crate::error;
use crate::order::PathSet;
use crate::paths;
use crate::scope::ExecutionMode;
use crate::state::FileState;
use crate::state;
use crate::sync::directories;
use crate::sync::file_plan;
use crate::sync::outcome::{LineView, OutputLine};
use crate::sync::outcome;
use crate::text;
use crate::upload;
use vstd::prelude::*;

verus! {

broadcast use vstd::seq::group_seq_axioms;

/// A command that works on many files.
#[derive(Debug, Clone, Copy, PartialEq, Eq, Structural)]
pub enum Command {
    /// Downloads, and never writes on the server.
    Pull,
    /// Uploads, and never writes locally.
    Push,
    /// Both, in one pass.
    Sync,
}

/// What a command does about a file.
#[derive(Debug, Clone, Copy, PartialEq, Eq, Structural)]
pub enum RunAction {
    Nothing,
    Upload,
    Download,
    ForcedUpload,
    ForcedDownload,
    Conflict,
}

/// What a command does about a file, from how it stands. What would overwrite
/// changes of the other side is a conflict unless it is forced; a forced
/// synchronisation takes the local side.
pub open spec fn action_for(command: Command, state: FileState, force: bool) -> RunAction {
    match (command, state) {
        (_, FileState::InSync) => RunAction::Nothing,
        (Command::Push, FileState::RemoteOnly) => RunAction::Nothing,
        (Command::Pull, FileState::LocalOnly) => RunAction::Nothing,
        (Command::Pull, FileState::RemoteOnly) => RunAction::Download,
        (Command::Pull, FileState::RemoteChanged) => RunAction::Download,
        (Command::Pull, _) => if force {
            RunAction::ForcedDownload
        } else {
            RunAction::Conflict
        },
        (_, FileState::LocalOnly) => RunAction::Upload,
        (_, FileState::LocalChanged) => RunAction::Upload,
        (Command::Sync, FileState::RemoteOnly) => RunAction::Download,
        (Command::Sync, FileState::RemoteChanged) => RunAction::Download,
        _ => if force {
            RunAction::ForcedUpload
        } else {
            RunAction::Conflict
        },
    }
}

/// What a command does about a file.
pub fn run_action(command: Command, state: FileState, force: bool) -> (out: RunAction)
    ensures
        out == action_for(command, state, force),
{
    match command {
        Command::Pull => match state {
            FileState::InSync => RunAction::Nothing,
            FileState::LocalOnly => RunAction::Nothing,
            FileState::RemoteOnly => RunAction::Download,
            FileState::RemoteChanged => RunAction::Download,
            _ => if force {
                RunAction::ForcedDownload
            } else {
                RunAction::Conflict
            },
        },
        Command::Push => match state {
            FileState::InSync => RunAction::Nothing,
            FileState::RemoteOnly => RunAction::Nothing,
            FileState::LocalOnly => RunAction::Upload,
            FileState::LocalChanged => RunAction::Upload,
            _ => if force {
                RunAction::ForcedUpload
            } else {
                RunAction::Conflict
            },
        },
        Command::Sync => match state {
            FileState::InSync => RunAction::Nothing,
            FileState::LocalOnly => RunAction::Upload,
            FileState::LocalChanged => RunAction::Upload,
            FileState::RemoteOnly => RunAction::Download,
            FileState::RemoteChanged => RunAction::Download,
            _ => if force {
                RunAction::ForcedUpload
            } else {
                RunAction::Conflict
            },
        },
    }
}

/// A pull never writes on the server and a push never writes locally, nothing is
/// overwritten that was not forced, and what is forced is never a conflict.
pub proof fn commands_keep_their_direction(command: Command, state: FileState, force: bool)
    ensures
        command == Command::Pull ==> action_for(command, state, force) != RunAction::Upload
            && action_for(command, state, force) != RunAction::ForcedUpload,
        command == Command::Push ==> action_for(command, state, force) != RunAction::Download
            && action_for(command, state, force) != RunAction::ForcedDownload,
        command == Command::Sync ==> action_for(command, state, force) != RunAction::ForcedDownload,
        !force ==> action_for(command, state, force) != RunAction::ForcedUpload && action_for(
            command,
            state,
            force,
        ) != RunAction::ForcedDownload,
        force ==> action_for(command, state, force) != RunAction::Conflict,
{
}

/// Whether an action uploads.
pub open spec fn uploads(action: RunAction) -> bool {
    action == RunAction::Upload || action == RunAction::ForcedUpload
}

/// Whether an action downloads.
pub open spec fn downloads(action: RunAction) -> bool {
    action == RunAction::Download || action == RunAction::ForcedDownload
}

/// An upload has a local file to read, and a download a remote one.
pub proof fn actions_have_their_source(
    command: Command,
    local: Option<Seq<char>>,
    remote: Option<Seq<char>>,
    known: Option<Seq<char>>,
    force: bool,
)
    requires
        local is Some || remote is Some,
    ensures
        uploads(action_for(command, state::standing(local, remote, known), force)) ==> local
            is Some,
        downloads(action_for(command, state::standing(local, remote, known), force)) ==> remote
            is Some,
{
}

/// The line of a transfer that was made or is only shown.
pub open spec fn transfer_line(
    command: Command,
    action: RunAction,
    mode: ExecutionMode,
    rel: Seq<char>,
) -> LineView {
    let dry = mode == ExecutionMode::DryRun;
    match (command, action) {
        (_, RunAction::ForcedUpload) => outcome::noted(
            (if dry {
                "would overwrite remote with local (--force): "@
            } else {
                "overwriting remote with local (--force): "@
            }) + rel,
        ),
        (_, RunAction::ForcedDownload) => outcome::noted(
            (if dry {
                "would overwrite local with remote (--force): "@
            } else {
                "overwriting local with remote (--force): "@
            }) + rel,
        ),
        (Command::Pull, _) => outcome::said(
            (if dry {
                "would pull "@
            } else {
                "pulled "@
            }) + rel,
        ),
        (Command::Push, _) => outcome::said(
            (if dry {
                "would push "@
            } else {
                "pushed "@
            }) + rel,
        ),
        (Command::Sync, RunAction::Download) => outcome::said(
            (if dry {
                "would download "@
            } else {
                "downloaded "@
            }) + rel,
        ),
        (Command::Sync, _) => outcome::said(
            (if dry {
                "would upload "@
            } else {
                "uploaded "@
            }) + rel,
        ),
    }
}

/// The line of a transfer that was made or is only shown.
fn transfer_line_of(command: Command, action: RunAction, mode: ExecutionMode, rel: &str) -> (out:
    OutputLine)
    ensures
        out@ == transfer_line(command, action, mode, rel@),
{
    let dry = match mode {
        ExecutionMode::DryRun => true,
        ExecutionMode::Apply => false,
    };
    match action {
        RunAction::ForcedUpload => {
            let verb = if dry {
                "would overwrite remote with local (--force): "
            } else {
                "overwriting remote with local (--force): "
            };
            return outcome::note(text::cat(verb, rel));
        },
        RunAction::ForcedDownload => {
            let verb = if dry {
                "would overwrite local with remote (--force): "
            } else {
                "overwriting local with remote (--force): "
            };
            return outcome::note(text::cat(verb, rel));
        },
        _ => {},
    }
    let verb = match command {
        Command::Pull => if dry {
            "would pull "
        } else {
            "pulled "
        },
        Command::Push => if dry {
            "would push "
        } else {
            "pushed "
        },
        Command::Sync => match action {
            RunAction::Download => if dry {
                "would download "
            } else {
                "downloaded "
            },
            _ => if dry {
                "would upload "
            } else {
                "uploaded "
            },
        },
    };
    outcome::say(text::cat(verb, rel))
}

/// The line of a conflict.
pub open spec fn conflict_line(command: Command, state: FileState, rel: Seq<char>) -> LineView {
    outcome::noted(
        match command {
            Command::Pull => "conflict ("@ + state.name() + ", would overwrite local edits): "@ + rel
                + " — pass --force to override"@,
            Command::Push => "conflict ("@ + state.name() + ", would overwrite remote edits): "@ + rel
                + " — pass --force to override"@,
            Command::Sync => "conflict ("@ + state.name() + ", local and remote diverged): "@ + rel
                + " — pass --force to take local"@,
        },
    )
}

/// The line of a conflict.
fn conflict_line_of(command: Command, state: FileState, rel: &str) -> (out: OutputLine)
    ensures
        out@ == conflict_line(command, state, rel@),
{
    let (what, hint) = match command {
        Command::Pull => (", would overwrite local edits): ", " — pass --force to override"),
        Command::Push => (", would overwrite remote edits): ", " — pass --force to override"),
        Command::Sync => (", local and remote diverged): ", " — pass --force to take local"),
    };
    outcome::note(text::cat5("conflict (", state.label(), what, rel, hint))
}

/// The failure by which a command with a conflict ends.
pub open spec fn conflict_of(command: Command) -> error::ErrorView {
    error::conflict(
        match command {
            Command::Pull =>
                "pull aborted: one or more files have local changes (use --force to overwrite)"@,
            Command::Push =>
                "push aborted: one or more files have remote changes (use --force to overwrite) or resolve to a remote symlink"@,
            Command::Sync =>
                "sync aborted: one or more files diverged on both sides (use --force to take local) or resolve to a remote symlink"@,
        },
    )
}

/// The failure by which a command with a conflict ends.
fn conflict_error(command: Command) -> (out: Error)
    ensures
        out@ == conflict_of(command),
{
    let message = match command {
        Command::Pull =>
            "pull aborted: one or more files have local changes (use --force to overwrite)",
        Command::Push =>
            "push aborted: one or more files have remote changes (use --force to overwrite) or resolve to a remote symlink",
        Command::Sync =>
            "sync aborted: one or more files diverged on both sides (use --force to take local) or resolve to a remote symlink",
    };
    Error::conflict(message.to_owned())
}

/// What a command waits for at a file.
#[derive(Debug, Clone, Copy, PartialEq, Eq, Structural)]
pub enum RunPhase {
    /// The hash of the local file.
    Local,
    /// The hash of the remote file.
    Remote,
    /// The hash that is remembered of the file.
    Known,
    /// The content that is to be transferred.
    Content,
    /// The transfer.
    Transfer,
    /// The saving of the state, once every file was looked at.
    Save,
    Done,
}

/// A command at work on its files.
#[derive(Debug)]
pub struct CommandRun {
    pub command: Command,
    pub force: bool,
    pub mode: ExecutionMode,
    pub local_root: String,
    pub remote_root: String,
    pub targets: Vec<String>,
    pub local: PathSet,
    pub remote: PathSet,
    pub symlinks: PathSet,
    pub at: usize,
    pub local_hash: Option<String>,
    pub remote_hash: Option<String>,
    pub has_content: bool,
    pub action: RunAction,
    pub phase: RunPhase,
    pub had_conflict: bool,
    pub lines: Vec<OutputLine>,
    pub failure: Option<Error>,
}

/// What a command at work says.
pub struct RunView {
    pub command: Command,
    pub force: bool,
    pub mode: ExecutionMode,
    pub local_root: Seq<char>,
    pub remote_root: Seq<char>,
    pub targets: Seq<Seq<char>>,
    pub local: Set<Seq<char>>,
    pub remote: Set<Seq<char>>,
    pub symlinks: Set<Seq<char>>,
    pub at: nat,
    pub local_hash: Option<Seq<char>>,
    pub remote_hash: Option<Seq<char>>,
    pub has_content: bool,
    pub action: RunAction,
    pub phase: RunPhase,
    pub had_conflict: bool,
    pub lines: Seq<LineView>,
    pub failure: Option<error::ErrorView>,
}

impl View for CommandRun {
    type V = RunView;

    open spec fn view(&self) -> RunView {
        RunView {
            command: self.command,
            force: self.force,
            mode: self.mode,
            local_root: self.local_root@,
            remote_root: self.remote_root@,
            targets: text::views(self.targets@),
            local: self.local@,
            remote: self.remote@,
            symlinks: self.symlinks@,
            at: self.at as nat,
            local_hash: state::optional(self.local_hash),
            remote_hash: state::optional(self.remote_hash),
            has_content: self.has_content,
            action: self.action,
            phase: self.phase,
            had_conflict: self.had_conflict,
            lines: text::views(self.lines@),
            failure: match self.failure {
                Some(e) => Some(e@),
                None => None,
            },
        }
    }
}

impl RunView {
    /// The file that is being looked at.
    pub open spec fn target(self) -> Seq<char> {
        self.targets[self.at as int]
    }

    /// The command, ended by a failure.
    pub open spec fn failed(self, failure: error::ErrorView) -> RunView {
        RunView { phase: RunPhase::Done, failure: Some(failure), ..self }
    }

    /// The command with one more line of output.
    pub open spec fn with_line(self, line: LineView) -> RunView {
        RunView { lines: self.lines.push(line), ..self }
    }

    /// The command, ended with every file looked at. One with a conflict fails.
    pub open spec fn settled(self) -> RunView {
        RunView {
            phase: RunPhase::Done,
            failure: if self.had_conflict {
                Some(conflict_of(self.command))
            } else {
                None
            },
            ..self
        }
    }

    /// The command at the next file from a position on that is to be looked at. A
    /// remote symlink is refused, whether or not anything is forced.
    pub open spec fn at_target(self, at: nat) -> RunView
        decreases self.targets.len() - at,
    {
        let here = RunView {
            at,
            local_hash: None,
            remote_hash: None,
            has_content: false,
            action: RunAction::Nothing,
            ..self
        };
        if at >= self.targets.len() {
            if self.mode == ExecutionMode::Apply {
                RunView { phase: RunPhase::Save, ..here }
            } else {
                here.settled()
            }
        } else {
            let rel = self.targets[at as int];
            if self.symlinks.contains(rel) {
                (RunView { had_conflict: true, ..self }).with_line(
                    outcome::noted(
                        "refusing "@ + rel + ": the remote path is a symlink, not a file"@,
                    ),
                ).at_target(at + 1)
            } else if !self.local.contains(rel) && !self.remote.contains(rel) {
                self.with_line(
                    outcome::noted("skip (not on local or remote): "@ + rel),
                ).at_target(at + 1)
            } else {
                RunView {
                    phase: if self.local.contains(rel) {
                        RunPhase::Local
                    } else {
                        RunPhase::Remote
                    },
                    ..here
                }
            }
        }
    }

    /// The command before a transfer whose content is at hand. A forced one is
    /// announced.
    pub open spec fn ready(self) -> RunView {
        let next = RunView { phase: RunPhase::Transfer, ..self };
        if self.action == RunAction::ForcedUpload || self.action == RunAction::ForcedDownload {
            next.with_line(transfer_line(self.command, self.action, self.mode, self.target()))
        } else {
            next
        }
    }

    /// The command once it is known how the file stands.
    pub open spec fn classified(self, state: FileState) -> RunView {
        let next = RunView { action: action_for(self.command, state, self.force), ..self };
        match next.action {
            RunAction::Nothing => self.at_target(self.at + 1),
            RunAction::Conflict => (RunView { had_conflict: true, ..self }).with_line(
                conflict_line(self.command, state, self.target()),
            ).at_target(self.at + 1),
            RunAction::Upload => if self.command == Command::Sync {
                RunView { phase: RunPhase::Content, ..next }
            } else {
                next.ready()
            },
            RunAction::ForcedUpload => if self.command == Command::Sync {
                RunView { phase: RunPhase::Content, ..next }
            } else {
                next.ready()
            },
            RunAction::Download => if self.has_content {
                next.ready()
            } else {
                RunView { phase: RunPhase::Content, ..next }
            },
            RunAction::ForcedDownload => if self.has_content {
                next.ready()
            } else {
                RunView { phase: RunPhase::Content, ..next }
            },
        }
    }
}

/// A reply to a command at work.
pub enum RunReply {
    Local(Result<Seq<char>, error::ErrorView>),
    /// The hash of the remote file, and whether its content came with it.
    Remote(Result<(Seq<char>, bool), error::ErrorView>),
    Known(Option<Seq<char>>),
    Content(Result<(), error::ErrorView>),
    Transferred(Result<(), error::ErrorView>),
    Saved(Result<(), error::ErrorView>),
}

/// Where a reply leads a command at work. A reply that the phase does not wait for
/// changes nothing.
pub open spec fn run_step(u: RunView, reply: RunReply) -> RunView {
    match (u.phase, reply) {
        (RunPhase::Local, RunReply::Local(hash)) => match hash {
            Err(e) => u.failed(
                if u.command == Command::Push {
                    error::failure_from(
                        "reading local "@ + directories::local_path(u.local_root, u.target()),
                        error::full_message(e),
                    )
                } else {
                    e
                },
            ),
            Ok(hash) => RunView {
                local_hash: Some(hash),
                phase: if u.remote.contains(u.target()) {
                    RunPhase::Remote
                } else {
                    RunPhase::Known
                },
                ..u
            },
        },
        (RunPhase::Remote, RunReply::Remote(hash)) => match hash {
            Err(e) => u.failed(e),
            Ok((hash, has_content)) => RunView {
                remote_hash: Some(hash),
                has_content,
                phase: RunPhase::Known,
                ..u
            },
        },
        (RunPhase::Known, RunReply::Known(known)) => u.classified(
            state::standing(u.local_hash, u.remote_hash, known),
        ),
        (RunPhase::Content, RunReply::Content(read)) => match read {
            Err(e) => u.failed(
                if downloads(u.action) {
                    error::failure_from(
                        "downloading "@ + paths::remote_joined(u.remote_root, u.target()),
                        error::full_message(e),
                    )
                } else {
                    error::failure_from(
                        "reading local "@ + directories::local_path(u.local_root, u.target()),
                        error::full_message(e),
                    )
                },
            ),
            Ok(_) => u.ready(),
        },
        (RunPhase::Transfer, RunReply::Transferred(made)) => match made {
            Err(e) => u.failed(e),
            Ok(_) => if u.action == RunAction::ForcedUpload || u.action
                == RunAction::ForcedDownload {
                u.at_target(u.at + 1)
            } else {
                u.with_line(
                    transfer_line(u.command, u.action, u.mode, u.target()),
                ).at_target(u.at + 1)
            },
        },
        (RunPhase::Save, RunReply::Saved(saved)) => match saved {
            Err(e) => u.failed(e),
            Ok(_) => u.settled(),
        },
        _ => u,
    }
}

/// Whether a command is at a file.
pub open spec fn at_a_file(phase: RunPhase) -> bool {
    phase != RunPhase::Save && phase != RunPhase::Done
}

/// What a command is at is there: the file is no symlink, and some side holds it.
pub open spec fn run_inv(u: RunView) -> bool {
    &&& at_a_file(u.phase) ==> {
        &&& u.at < u.targets.len()
        &&& !u.symlinks.contains(u.target())
        &&& u.local.contains(u.target()) || u.remote.contains(u.target())
    }
    &&& u.phase == RunPhase::Local ==> u.local.contains(u.target())
    &&& u.phase == RunPhase::Remote ==> u.remote.contains(u.target())
    &&& u.phase == RunPhase::Known ==> u.local_hash is Some || u.remote_hash is Some
    &&& u.phase == RunPhase::Content || u.phase == RunPhase::Transfer ==> uploads(u.action)
        || downloads(u.action)
}

proof fn at_target_keeps_inv(u: RunView, at: nat)
    ensures
        run_inv(u.at_target(at)),
    decreases u.targets.len() - at,
{
    if at < u.targets.len() {
        let rel = u.targets[at as int];
        if u.symlinks.contains(rel) {
            at_target_keeps_inv(
                (RunView { had_conflict: true, ..u }).with_line(
                    outcome::noted(
                        "refusing "@ + rel + ": the remote path is a symlink, not a file"@,
                    ),
                ),
                at + 1,
            );
        } else if !u.local.contains(rel) && !u.remote.contains(rel) {
            at_target_keeps_inv(
                u.with_line(outcome::noted("skip (not on local or remote): "@ + rel)),
                at + 1,
            );
        }
    }
}

/// A command never looks at, reads or transfers a path that is a symlink on the
/// server, forced or not, nor one that neither side holds.
pub proof fn symlinks_are_never_transferred(u: RunView, reply: RunReply)
    requires
        run_inv(u),
    ensures
        run_inv(run_step(u, reply)),
        run_step(u, reply).symlinks == u.symlinks,
        run_step(u, reply).targets == u.targets,
{
    match reply {
        RunReply::Known(known) => {
            let state = state::standing(u.local_hash, u.remote_hash, known);
            at_target_keeps_inv(u, u.at + 1);
            at_target_keeps_inv(
                (RunView { had_conflict: true, ..u }).with_line(
                    conflict_line(u.command, state, u.target()),
                ),
                u.at + 1,
            );
            at_target_keeps_lists(u, u.at + 1);
            at_target_keeps_lists(
                (RunView { had_conflict: true, ..u }).with_line(
                    conflict_line(u.command, state, u.target()),
                ),
                u.at + 1,
            );
        },
        RunReply::Transferred(_) => {
            let told = u.with_line(transfer_line(u.command, u.action, u.mode, u.target()));
            at_target_keeps_inv(u, u.at + 1);
            at_target_keeps_inv(told, u.at + 1);
            at_target_keeps_lists(u, u.at + 1);
            at_target_keeps_lists(told, u.at + 1);
        },
        _ => {},
    }
}

proof fn at_target_keeps_lists(u: RunView, at: nat)
    ensures
        u.at_target(at).symlinks == u.symlinks,
        u.at_target(at).targets == u.targets,
        u.had_conflict ==> u.at_target(at).had_conflict,
    decreases u.targets.len() - at,
{
    if at < u.targets.len() {
        let rel = u.targets[at as int];
        if u.symlinks.contains(rel) {
            at_target_keeps_lists(
                (RunView { had_conflict: true, ..u }).with_line(
                    outcome::noted(
                        "refusing "@ + rel + ": the remote path is a symlink, not a file"@,
                    ),
                ),
                at + 1,
            );
        } else if !u.local.contains(rel) && !u.remote.contains(rel) {
            at_target_keeps_lists(
                u.with_line(outcome::noted("skip (not on local or remote): "@ + rel)),
                at + 1,
            );
        }
    }
}

/// A command that met a conflict never ends without a failure.
pub proof fn conflicts_are_never_forgotten(u: RunView, reply: RunReply)
    requires
        u.had_conflict,
        u.phase != RunPhase::Done,
    ensures
        run_step(u, reply).had_conflict,
        run_step(u, reply).phase == RunPhase::Done ==> run_step(u, reply).failure is Some,
{
    match reply {
        RunReply::Known(known) => {
            let state = state::standing(u.local_hash, u.remote_hash, known);
            let told = (RunView { had_conflict: true, ..u }).with_line(
                conflict_line(u.command, state, u.target()),
            );
            conflict_is_kept(u, u.at + 1);
            conflict_is_kept(told, u.at + 1);
        },
        RunReply::Transferred(_) => {
            let told = u.with_line(transfer_line(u.command, u.action, u.mode, u.target()));
            conflict_is_kept(u, u.at + 1);
            conflict_is_kept(told, u.at + 1);
        },
        _ => {},
    }
}

proof fn conflict_is_kept(u: RunView, at: nat)
    requires
        u.had_conflict,
    ensures
        u.at_target(at).had_conflict,
        u.at_target(at).phase == RunPhase::Done ==> u.at_target(at).failure is Some,
    decreases u.targets.len() - at,
{
    if at < u.targets.len() {
        let rel = u.targets[at as int];
        if u.symlinks.contains(rel) {
            conflict_is_kept(
                (RunView { had_conflict: true, ..u }).with_line(
                    outcome::noted(
                        "refusing "@ + rel + ": the remote path is a symlink, not a file"@,
                    ),
                ),
                at + 1,
            );
        } else if !u.local.contains(rel) && !u.remote.contains(rel) {
            conflict_is_kept(
                u.with_line(outcome::noted("skip (not on local or remote): "@ + rel)),
                at + 1,
            );
        }
    }
}

/// The hash of a remote file, and whether its content came with it, by views.
pub open spec fn remote_reply(reply: Result<(String, bool), Error>) -> Result<
    (Seq<char>, bool),
    error::ErrorView,
> {
    match reply {
        Ok((hash, has_content)) => Ok((hash@, has_content)),
        Err(e) => Err(e@),
    }
}

/// Where a command starts.
pub open spec fn run_start(
    command: Command,
    force: bool,
    mode: ExecutionMode,
    local_root: Seq<char>,
    remote_root: Seq<char>,
    targets: Seq<Seq<char>>,
    local: Set<Seq<char>>,
    remote: Set<Seq<char>>,
    symlinks: Set<Seq<char>>,
) -> RunView {
    (RunView {
        command,
        force,
        mode,
        local_root,
        remote_root,
        targets,
        local,
        remote,
        symlinks,
        at: 0,
        local_hash: None,
        remote_hash: None,
        has_content: false,
        action: RunAction::Nothing,
        phase: RunPhase::Done,
        had_conflict: false,
        lines: Seq::empty(),
        failure: None,
    }).at_target(0)
}

impl CommandRun {
    /// The sets are in order, and what the command is at is there.
    pub open spec fn wf(&self) -> bool {
        self.sets_wf() && run_inv(self@)
    }

    /// The sets are in order.
    pub open spec fn sets_wf(&self) -> bool {
        self.local.wf() && self.remote.wf() && self.symlinks.wf()
    }

    /// Starts a command on its targets. `symlinks` are the remote paths that were
    /// passed over because they are symlinks.
    pub fn run(
        command: Command,
        force: bool,
        mode: ExecutionMode,
        local_root: &str,
        remote_root: &str,
        targets: Vec<String>,
        local: PathSet,
        remote: PathSet,
        symlinks: PathSet,
    ) -> (out: CommandRun)
        requires
            local.wf(),
            remote.wf(),
            symlinks.wf(),
        ensures
            out.wf(),
            out@ == run_start(
                command,
                force,
                mode,
                local_root@,
                remote_root@,
                text::views(targets@),
                local@,
                remote@,
                symlinks@,
            ),
    {
        let mut out = CommandRun {
            command,
            force,
            mode,
            local_root: local_root.to_owned(),
            remote_root: remote_root.to_owned(),
            targets,
            local,
            remote,
            symlinks,
            at: 0,
            local_hash: None,
            remote_hash: None,
            has_content: false,
            action: RunAction::Nothing,
            phase: RunPhase::Done,
            had_conflict: false,
            lines: Vec::new(),
            failure: None,
        };
        assert(out@.lines =~= Seq::<LineView>::empty());
        out.to_target(0);
        out
    }

    fn fail(&mut self, failure: Error)
        requires
            old(self).sets_wf(),
        ensures
            final(self).wf(),
            final(self)@ == old(self)@.failed(failure@),
    {
        self.phase = RunPhase::Done;
        self.failure = Some(failure);
    }

    fn tell(&mut self, line: OutputLine)
        requires
            old(self).sets_wf(),
        ensures
            final(self).sets_wf(),
            final(self)@ == old(self)@.with_line(line@),
    {
        self.lines.push(line);
        assert(self@.lines =~= old(self)@.lines.push(line@));
    }

    fn settle(&mut self)
        requires
            old(self).sets_wf(),
        ensures
            final(self).wf(),
            final(self)@ == old(self)@.settled(),
    {
        self.phase = RunPhase::Done;
        self.failure = if self.had_conflict {
            Some(conflict_error(self.command))
        } else {
            None
        };
    }

    fn to_target(&mut self, at: usize)
        requires
            old(self).sets_wf(),
        ensures
            final(self).wf(),
            final(self)@ == old(self)@.at_target(at as nat),
    {
        proof {
            at_target_keeps_inv(self@, at as nat);
        }
        let total: usize = self.targets.len();
        let mut i: usize = at;
        while i < total
            invariant
                self.sets_wf(),
                total == self.targets@.len(),
                self@.at_target(i as nat) == old(self)@.at_target(at as nat),
                run_inv(old(self)@.at_target(at as nat)),
            decreases total - i,
        {
            assert(self@.targets[i as int] == self.targets@[i as int]@);
            if self.symlinks.contains(&self.targets[i]) {
                let line = outcome::note(
                    text::cat3(
                        "refusing ",
                        &self.targets[i],
                        ": the remote path is a symlink, not a file",
                    ),
                );
                self.had_conflict = true;
                self.tell(line);
            } else {
                let on_local = self.local.contains(&self.targets[i]);
                if !on_local && !self.remote.contains(&self.targets[i]) {
                    let line = outcome::note(
                        text::cat("skip (not on local or remote): ", &self.targets[i]),
                    );
                    self.tell(line);
                } else {
                    self.at = i;
                    self.local_hash = None;
                    self.remote_hash = None;
                    self.has_content = false;
                    self.action = RunAction::Nothing;
                    self.phase = if on_local {
                        RunPhase::Local
                    } else {
                        RunPhase::Remote
                    };
                    return ;
                }
            }
            i += 1;
        }
        self.at = i;
        self.local_hash = None;
        self.remote_hash = None;
        self.has_content = false;
        self.action = RunAction::Nothing;
        match self.mode {
            ExecutionMode::Apply => {
                self.phase = RunPhase::Save;
            },
            ExecutionMode::DryRun => self.settle(),
        }
    }

    fn get_ready(&mut self)
        requires
            old(self).sets_wf(),
            old(self).at < old(self).targets@.len(),
        ensures
            final(self).sets_wf(),
            final(self)@ == old(self)@.ready(),
    {
        assert(self@.targets[self@.at as int] == self.targets@[self.at as int]@);
        self.phase = RunPhase::Transfer;
        match self.action {
            RunAction::ForcedUpload => {
                let line = transfer_line_of(
                    self.command,
                    self.action,
                    self.mode,
                    &self.targets[self.at],
                );
                self.tell(line);
            },
            RunAction::ForcedDownload => {
                let line = transfer_line_of(
                    self.command,
                    self.action,
                    self.mode,
                    &self.targets[self.at],
                );
                self.tell(line);
            },
            _ => {},
        }
    }

    /// Takes the hash of the local file.
    pub fn on_local(&mut self, hash: Result<String, Error>)
        requires
            old(self).wf(),
        ensures
            final(self).wf(),
            final(self)@ == run_step(old(self)@, RunReply::Local(file_plan::hashed(hash))),
    {
        proof {
            symlinks_are_never_transferred(self@, RunReply::Local(file_plan::hashed(hash)));
        }
        match self.phase {
            RunPhase::Local => {},
            _ => {
                return ;
            },
        }
        assert(self@.targets[self@.at as int] == self.targets@[self.at as int]@);
        match hash {
            Err(e) => {
                let failure = match self.command {
                    Command::Push => Error::failure_from(
                        text::cat(
                            "reading local ",
                            &directories::local_path_of(
                                &self.local_root,
                                &self.targets[self.at],
                            ),
                        ),
                        &e.full_message(),
                    ),
                    _ => e,
                };
                self.fail(failure);
            },
            Ok(hash) => {
                self.local_hash = Some(hash);
                self.phase = if self.remote.contains(&self.targets[self.at]) {
                    RunPhase::Remote
                } else {
                    RunPhase::Known
                };
            },
        }
    }

    /// Takes the hash of the remote file, and whether its content came with it.
    pub fn on_remote(&mut self, hash: Result<(String, bool), Error>)
        requires
            old(self).wf(),
        ensures
            final(self).wf(),
            final(self)@ == run_step(old(self)@, RunReply::Remote(remote_reply(hash))),
    {
        proof {
            symlinks_are_never_transferred(self@, RunReply::Remote(remote_reply(hash)));
        }
        match self.phase {
            RunPhase::Remote => match hash {
                Err(e) => self.fail(e),
                Ok((hash, has_content)) => {
                    self.remote_hash = Some(hash);
                    self.has_content = has_content;
                    self.phase = RunPhase::Known;
                },
            },
            _ => {},
        }
    }

    /// Takes the hash that is remembered of the file.
    pub fn on_known(&mut self, known: Option<String>)
        requires
            old(self).wf(),
        ensures
            final(self).wf(),
            final(self)@ == run_step(old(self)@, RunReply::Known(state::optional(known))),
    {
        proof {
            symlinks_are_never_transferred(self@, RunReply::Known(state::optional(known)));
        }
        match self.phase {
            RunPhase::Known => {},
            _ => {
                return ;
            },
        }
        let standing = state::classify(&self.local_hash, &self.remote_hash, &known);
        let action = run_action(self.command, standing, self.force);
        let total: usize = self.targets.len();
        let at: usize = self.at;
        assert(at < total);
        assert(self@.targets[at as int] == self.targets@[at as int]@);
        match action {
            RunAction::Nothing => self.to_target(at + 1),
            RunAction::Conflict => {
                let line = conflict_line_of(self.command, standing, &self.targets[at]);
                self.had_conflict = true;
                self.tell(line);
                self.to_target(at + 1);
            },
            RunAction::Upload => {
                self.action = action;
                match self.command {
                    Command::Sync => {
                        self.phase = RunPhase::Content;
                    },
                    _ => self.get_ready(),
                }
            },
            RunAction::ForcedUpload => {
                self.action = action;
                match self.command {
                    Command::Sync => {
                        self.phase = RunPhase::Content;
                    },
                    _ => self.get_ready(),
                }
            },
            RunAction::Download => {
                self.action = action;
                if self.has_content {
                    self.get_ready();
                } else {
                    self.phase = RunPhase::Content;
                }
            },
            RunAction::ForcedDownload => {
                self.action = action;
                if self.has_content {
                    self.get_ready();
                } else {
                    self.phase = RunPhase::Content;
                }
            },
        }
    }

    /// Takes whether the content that is to be transferred could be read.
    pub fn on_content(&mut self, read: Result<(), Error>)
        requires
            old(self).wf(),
        ensures
            final(self).wf(),
            final(self)@ == run_step(old(self)@, RunReply::Content(upload::reported(read))),
    {
        proof {
            symlinks_are_never_transferred(self@, RunReply::Content(upload::reported(read)));
        }
        match self.phase {
            RunPhase::Content => {},
            _ => {
                return ;
            },
        }
        assert(self@.targets[self@.at as int] == self.targets@[self.at as int]@);
        match read {
            Err(e) => {
                let is_download = match self.action {
                    RunAction::Download => true,
                    RunAction::ForcedDownload => true,
                    _ => false,
                };
                let what = if is_download {
                    text::cat(
                        "downloading ",
                        &paths::remote_path_join(&self.remote_root, &self.targets[self.at]),
                    )
                } else {
                    text::cat(
                        "reading local ",
                        &directories::local_path_of(&self.local_root, &self.targets[self.at]),
                    )
                };
                self.fail(Error::failure_from(what, &e.full_message()));
            },
            Ok(_) => self.get_ready(),
        }
    }

    /// Takes whether the transfer was made.
    pub fn on_transferred(&mut self, made: Result<(), Error>)
        requires
            old(self).wf(),
        ensures
            final(self).wf(),
            final(self)@ == run_step(old(self)@, RunReply::Transferred(upload::reported(made))),
    {
        proof {
            symlinks_are_never_transferred(self@, RunReply::Transferred(upload::reported(made)));
        }
        match self.phase {
            RunPhase::Transfer => {},
            _ => {
                return ;
            },
        }
        let total: usize = self.targets.len();
        let at: usize = self.at;
        assert(at < total);
        assert(self@.targets[at as int] == self.targets@[at as int]@);
        match made {
            Err(e) => self.fail(e),
            Ok(_) => {
                match self.action {
                    RunAction::ForcedUpload => {},
                    RunAction::ForcedDownload => {},
                    _ => {
                        let line = transfer_line_of(
                            self.command,
                            self.action,
                            self.mode,
                            &self.targets[at],
                        );
                        self.tell(line);
                    },
                }
                self.to_target(at + 1);
            },
        }
    }

    /// Takes whether the state was saved.
    pub fn on_saved(&mut self, saved: Result<(), Error>)
        requires
            old(self).wf(),
        ensures
            final(self).wf(),
            final(self)@ == run_step(old(self)@, RunReply::Saved(upload::reported(saved))),
    {
        match self.phase {
            RunPhase::Save => match saved {
                Err(e) => self.fail(e),
                Ok(_) => self.settle(),
            },
            _ => {},
        }
    }

    /// The path of the file that the command is at.
    pub fn target(&self) -> (out: &String)
        requires
            self.wf(),
            at_a_file(self.phase),
        ensures
            out@ == self@.target(),
    {
        assert(self@.targets[self@.at as int] == self.targets@[self.at as int]@);
        &self.targets[self.at]
    }

    /// The lines that were not taken yet.
    pub fn take_lines(&mut self) -> (out: Vec<OutputLine>)
        requires
            old(self).wf(),
        ensures
            final(self).wf(),
            text::views(out@) == old(self)@.lines,
            final(self)@ == (RunView { lines: Seq::empty(), ..old(self)@ }),
    {
        let mut lines: Vec<OutputLine> = Vec::new();
        core::mem::swap(&mut lines, &mut self.lines);
        assert(self@.lines =~= Seq::<LineView>::empty());
        lines
    }
}

/// An action in the other direction.
pub open spec fn reversed(action: RunAction) -> RunAction {
    match action {
        RunAction::Upload => RunAction::Download,
        RunAction::Download => RunAction::Upload,
        RunAction::ForcedUpload => RunAction::ForcedDownload,
        RunAction::ForcedDownload => RunAction::ForcedUpload,
        other => other,
    }
}

/// What a command does about a file follows from where it changed. A pull replaces a
/// local file without force only where that holds what was last synchronised, a push a
/// remote one, and a synchronisation carries a change to the side that has none.
/// Anything else that is not in sync is a conflict until it is forced. A pull and a
/// push are each other's mirror image.
pub proof fn actions_follow_the_change(
    command: Command,
    local: Option<Seq<char>>,
    remote: Option<Seq<char>>,
    known: Option<Seq<char>>,
    force: bool,
)
    requires
        local is Some || remote is Some,
    ensures
        ({
            let action = action_for(command, state::standing(local, remote, known), force);
            let both = local is Some && remote is Some;
            let agreed = both && known is Some && local == remote;
            let local_kept = local is None || (both && local == known && remote != known);
            let remote_kept = remote is None || (both && remote == known && local != known);
            &&& action == RunAction::Download <==> command != Command::Push && local_kept
            &&& action == RunAction::Upload <==> command != Command::Pull && remote_kept
            &&& action == RunAction::Nothing <==> agreed || (command == Command::Pull && remote
                is None) || (command == Command::Push && local is None)
            &&& action == RunAction::Conflict <==> !force && both && !agreed && match command {
                Command::Pull => !local_kept,
                Command::Push => !remote_kept,
                Command::Sync => !local_kept && !remote_kept,
            }
            &&& force ==> (action == RunAction::ForcedDownload <==> command == Command::Pull
                && both && !agreed && !local_kept)
            &&& force ==> (action == RunAction::ForcedUpload <==> both && !agreed && !remote_kept
                && (command == Command::Push || (command == Command::Sync && !local_kept)))
            &&& !force ==> action != RunAction::ForcedDownload && action != RunAction::ForcedUpload
            &&& action_for(Command::Pull, state::standing(remote, local, known), force) == reversed(
                action_for(Command::Push, state::standing(local, remote, known), force),
            )
        }),
{
}

/// Whether a target is worked on: it is no remote symlink, and some side holds it.
pub open spec fn workable(u: RunView, at: int) -> bool {
    &&& !u.symlinks.contains(u.targets[at])
    &&& u.local.contains(u.targets[at]) || u.remote.contains(u.targets[at])
}

/// What is said of a target that is not worked on.
pub open spec fn passed_over(u: RunView, at: int) -> LineView {
    outcome::noted(
        if u.symlinks.contains(u.targets[at]) {
            "refusing "@ + u.targets[at] + ": the remote path is a symlink, not a file"@
        } else {
            "skip (not on local or remote): "@ + u.targets[at]
        },
    )
}

/// From a position on, a command goes to the first target that can be worked on, and
/// past the last only where there is none. It says one line, in order, of each target
/// that it passes over, and counts a refused symlink as a conflict. At the file it knows
/// nothing yet, and starts with the local side where that holds it.
pub proof fn next_target_is_the_first_to_work_on(u: RunView, at: nat)
    requires
        at <= u.targets.len(),
    ensures
        ({
            let v = u.at_target(at);
            &&& at <= v.at <= u.targets.len()
            &&& forall|i: int| at <= i < v.at ==> !#[trigger] workable(u, i)
            &&& v.lines.len() == u.lines.len() + v.at - at
            &&& forall|i: int| 0 <= i < u.lines.len() ==> #[trigger] v.lines[i] == u.lines[i]
            &&& forall|i: int|
                at <= i < v.at ==> v.lines[u.lines.len() + i - at] == #[trigger] passed_over(u, i)
            &&& v.had_conflict <==> u.had_conflict || exists|i: int|
                at <= i < v.at && #[trigger] u.symlinks.contains(u.targets[i])
            &&& if v.at < u.targets.len() {
                &&& workable(u, v.at as int)
                &&& v.phase == if u.local.contains(u.targets[v.at as int]) {
                    RunPhase::Local
                } else {
                    RunPhase::Remote
                }
                &&& v.local_hash is None && v.remote_hash is None && !v.has_content
                &&& v.failure == u.failure
            } else if u.mode == ExecutionMode::Apply {
                v.phase == RunPhase::Save && v.failure == u.failure
            } else {
                &&& v.phase == RunPhase::Done
                &&& v.failure == if v.had_conflict {
                    Some(conflict_of(u.command))
                } else {
                    None
                }
            }
            &&& v.command == u.command && v.force == u.force && v.mode == u.mode
            &&& v.targets == u.targets && v.local == u.local && v.remote == u.remote
            &&& v.symlinks == u.symlinks
            &&& v.local_root == u.local_root && v.remote_root == u.remote_root
        }),
    decreases u.targets.len() - at,
{
    if at < u.targets.len() && !workable(u, at as int) {
        let rel = u.targets[at as int];
        let link = u.symlinks.contains(rel);
        let told = (RunView { had_conflict: u.had_conflict || link, ..u }).with_line(
            passed_over(u, at as int),
        );
        next_target_is_the_first_to_work_on(told, at + 1);
        let v = u.at_target(at);
        assert(v == told.at_target(at + 1));
        assert forall|i: int| at <= i < v.at implies !#[trigger] workable(u, i) by {
            if i > at {
                assert(!workable(told, i));
            }
        }
        assert forall|i: int| 0 <= i < u.lines.len() implies #[trigger] v.lines[i]
            == u.lines[i] by {
            assert(v.lines[i] == told.lines[i]);
        }
        assert forall|i: int| at <= i < v.at implies v.lines[u.lines.len() + i - at]
            == #[trigger] passed_over(u, i) by {
            if i > at {
                assert(passed_over(told, i) == passed_over(u, i));
                assert(v.lines[told.lines.len() + i - (at + 1)] == passed_over(told, i));
            } else {
                assert(v.lines[u.lines.len() as int] == told.lines[u.lines.len() as int]);
            }
        }
        assert(v.had_conflict <==> u.had_conflict || exists|i: int|
            at <= i < v.at && #[trigger] u.symlinks.contains(u.targets[i])) by {
            if link {
                assert(u.symlinks.contains(u.targets[at as int]));
            }
            if exists|i: int| at <= i < v.at && #[trigger] u.symlinks.contains(u.targets[i]) {
                let i = choose|i: int|
                    at <= i < v.at && #[trigger] u.symlinks.contains(u.targets[i]);
                if i > at {
                    assert(told.symlinks.contains(told.targets[i]));
                }
            }
            if exists|i: int|
                at + 1 <= i < v.at && #[trigger] told.symlinks.contains(told.targets[i]) {
                let i = choose|i: int|
                    at + 1 <= i < v.at && #[trigger] told.symlinks.contains(told.targets[i]);
                assert(u.symlinks.contains(u.targets[i]));
            }
        }
        if v.at < u.targets.len() {
            assert(workable(told, v.at as int));
        }
    }
}

/// Once it is known how a file stands, a transfer stays at that file, with its content
/// fetched first unless it is at hand; a file without anything to do is left silently;
/// and a conflict is said, counted and left. A transfer is said exactly once: before it
/// is made where it is forced, after it was made where it is not.
pub proof fn known_file_goes_its_way(u: RunView, known: Option<Seq<char>>)
    requires
        u.phase == RunPhase::Known,
    ensures
        ({
            let state = state::standing(u.local_hash, u.remote_hash, known);
            let action = action_for(u.command, state, u.force);
            let forced = action == RunAction::ForcedUpload || action == RunAction::ForcedDownload;
            let v = run_step(u, RunReply::Known(known));
            let ready = if downloads(action) {
                u.has_content
            } else {
                u.command != Command::Sync
            };
            let w = if ready {
                v
            } else {
                run_step(v, RunReply::Content(Ok(())))
            };
            let x = run_step(w, RunReply::Transferred(Ok(())));
            let line = transfer_line(u.command, action, u.mode, u.target());
            &&& uploads(action) || downloads(action) ==> {
                &&& v.action == action && v.at == u.at && v.had_conflict == u.had_conflict
                &&& v.phase == if ready {
                    RunPhase::Transfer
                } else {
                    RunPhase::Content
                }
                &&& w.phase == RunPhase::Transfer && w.action == action && w.at == u.at
                &&& w.lines == if forced {
                    u.lines.push(line)
                } else {
                    u.lines
                }
                &&& x == (RunView { lines: u.lines.push(line), ..w }).at_target(u.at + 1)
            }
            &&& action == RunAction::Nothing ==> v == u.at_target(u.at + 1)
            &&& action == RunAction::Conflict ==> v == (RunView {
                had_conflict: true,
                lines: u.lines.push(conflict_line(u.command, state, u.target())),
                ..u
            }).at_target(u.at + 1)
        }),
{
}

/// A file that both sides hold is hashed on both before it is decided on, one that one
/// side holds on that side, and what could not be read ends the command.
pub proof fn each_side_is_hashed_first(u: RunView, hash: Seq<char>, content: bool)
    requires
        run_inv(u),
    ensures
        u.phase == RunPhase::Local ==> {
            let v = run_step(u, RunReply::Local(Ok(hash)));
            &&& v.local_hash == Some(hash) && v.remote_hash == u.remote_hash && v.at == u.at
            &&& v.phase == RunPhase::Remote <==> u.remote.contains(u.target())
            &&& v.phase == RunPhase::Known <==> !u.remote.contains(u.target())
        },
        u.phase == RunPhase::Remote ==> {
            let v = run_step(u, RunReply::Remote(Ok((hash, content))));
            &&& v.remote_hash == Some(hash) && v.local_hash == u.local_hash && v.at == u.at
            &&& v.phase == RunPhase::Known && v.has_content == content
        },
        forall|e: error::ErrorView|
            u.phase == RunPhase::Local ==> {
                let v = #[trigger] run_step(u, RunReply::Local(Err(e)));
                v.phase == RunPhase::Done && v.failure is Some
            },
        forall|e: error::ErrorView|
            u.phase == RunPhase::Remote ==> #[trigger] run_step(u, RunReply::Remote(Err(e)))
                == u.failed(e),
        forall|e: error::ErrorView|
            u.phase == RunPhase::Transfer ==> #[trigger] run_step(
                u,
                RunReply::Transferred(Err(e)),
            ) == u.failed(e),
        forall|e: error::ErrorView|
            u.phase == RunPhase::Save ==> #[trigger] run_step(u, RunReply::Saved(Err(e)))
                == u.failed(e),
        u.phase == RunPhase::Save ==> {
            let v = run_step(u, RunReply::Saved(Ok(())));
            v.phase == RunPhase::Done && (v.failure is Some <==> u.had_conflict)
        },
{
}

/// The line of a transfer ends in the path, starts with `would` exactly in a run that
/// changes nothing, and goes to the diagnostics exactly where it is forced.
pub proof fn transfer_line_names_its_file(
    command: Command,
    action: RunAction,
    mode: ExecutionMode,
    rel: Seq<char>,
)
    requires
        uploads(action) || downloads(action),
    ensures
        ({
            let line = transfer_line(command, action, mode, rel);
            let forced = action == RunAction::ForcedUpload || action == RunAction::ForcedDownload;
            &&& line.to_stderr == forced
            &&& line.text.len() >= rel.len() && line.text.skip(line.text.len() - rel.len()) == rel
            &&& "would "@.is_prefix_of(line.text) <==> mode == ExecutionMode::DryRun
        }),
{
    reveal_strlit("would ");
    reveal_strlit("would overwrite remote with local (--force): ");
    reveal_strlit("overwriting remote with local (--force): ");
    reveal_strlit("would overwrite local with remote (--force): ");
    reveal_strlit("overwriting local with remote (--force): ");
    reveal_strlit("would pull ");
    reveal_strlit("pulled ");
    reveal_strlit("would push ");
    reveal_strlit("pushed ");
    reveal_strlit("would download ");
    reveal_strlit("downloaded ");
    reveal_strlit("would upload ");
    reveal_strlit("uploaded ");
    let line = transfer_line(command, action, mode, rel);
    let start = line.text.len() - rel.len();
    assert(line.text.skip(start) =~= rel);
    if mode == ExecutionMode::DryRun {
        assert("would "@ =~= line.text.subrange(0, 6));
    } else if "would "@.is_prefix_of(line.text) {
        assert(line.text.subrange(0, 6)[0] == 'w');
    }
}

/// The line of a conflict goes to the diagnostics and names the state of the file and
/// its path; two files in conflict have different lines.
pub proof fn conflict_line_names_its_file(
    command: Command,
    state: FileState,
    rel: Seq<char>,
    other: Seq<char>,
)
    ensures
        ({
            let line = conflict_line(command, state, rel);
            &&& line.to_stderr
            &&& ("conflict ("@ + state.name() + ", "@).is_prefix_of(line.text)
            &&& exists|at: int|
                0 <= at && at + rel.len() <= line.text.len() && #[trigger] line.text.subrange(
                    at,
                    at + rel.len(),
                ) == rel
            &&& rel != other && rel.len() == other.len() ==> line.text != conflict_line(
                command,
                state,
                other,
            ).text
        }),
{
    reveal_strlit("conflict (");
    reveal_strlit(", ");
    reveal_strlit(", would overwrite local edits): ");
    reveal_strlit(", would overwrite remote edits): ");
    reveal_strlit(", local and remote diverged): ");
    let line = conflict_line(command, state, rel);
    let what = match command {
        Command::Pull => ", would overwrite local edits): "@,
        Command::Push => ", would overwrite remote edits): "@,
        Command::Sync => ", local and remote diverged): "@,
    };
    let head = "conflict ("@ + state.name() + what;
    let at = head.len() as int;
    assert(line.text.subrange(at, at + rel.len()) =~= rel);
    let start = "conflict ("@ + state.name() + ", "@;
    assert(start =~= line.text.subrange(0, start.len() as int));
    if rel != other && rel.len() == other.len() {
        let second = conflict_line(command, state, other);
        assert(second.text.subrange(at, at + rel.len()) =~= other);
    }
}

/// A command with a conflict ends as one: by a failure without a cause that ends
/// the process with the status of a conflict and tells of the command.
pub proof fn conflict_ends_as_a_conflict(command: Command)
    ensures
        conflict_of(command).exit == error::Exit::Conflict,
        conflict_of(command).exit.status() == 2,
        conflict_of(command).cause is None,
        command == Command::Pull ==> "pull aborted: "@.is_prefix_of(conflict_of(command).message),
        command == Command::Push ==> "push aborted: "@.is_prefix_of(conflict_of(command).message),
        command == Command::Sync ==> "sync aborted: "@.is_prefix_of(conflict_of(command).message),
{
    reveal_strlit("pull aborted: ");
    reveal_strlit("push aborted: ");
    reveal_strlit("sync aborted: ");
    reveal_strlit("pull aborted: one or more files have local changes (use --force to overwrite)");
    reveal_strlit(
        "push aborted: one or more files have remote changes (use --force to overwrite) or resolve to a remote symlink",
    );
    reveal_strlit(
        "sync aborted: one or more files diverged on both sides (use --force to take local) or resolve to a remote symlink",
    );
    let message = conflict_of(command).message;
    match command {
        Command::Pull => {
            assert("pull aborted: "@ =~= message.subrange(0, 14));
        },
        Command::Push => {
            assert("push aborted: "@ =~= message.subrange(0, 14));
        },
        Command::Sync => {
            assert("sync aborted: "@ =~= message.subrange(0, 14));
        },
    }
}

} // verus!
