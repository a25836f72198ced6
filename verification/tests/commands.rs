//! The commands on many files, with their answers scripted.

use ferry::commands::{run_action, Command, CommandRun, RunAction, RunPhase};
use ferry::error::{Error, Exit};
use ferry::order::PathSet;
use ferry::scope::ExecutionMode;
use ferry::state::FileState;
use ferry::sync::outcome::{note, say, OutputLine};
use std::collections::BTreeMap;

const STATES: [FileState; 7] = [
    FileState::InSync,
    FileState::LocalOnly,
    FileState::RemoteOnly,
    FileState::LocalChanged,
    FileState::RemoteChanged,
    FileState::BothChanged,
    FileState::Untracked,
];

fn set(paths: &[&str]) -> PathSet {
    let mut out = PathSet::new();
    for path in paths {
        out.insert(path.to_string());
    }
    out
}

fn failure(message: &str) -> Error {
    Error::failure(message.to_string())
}

/// The content of the two sides and what is remembered of them, by path.
#[derive(Default)]
struct Sides {
    local: BTreeMap<&'static str, &'static str>,
    remote: BTreeMap<&'static str, &'static str>,
    known: BTreeMap<&'static str, &'static str>,
    symlinks: Vec<&'static str>,
    content_with_hash: bool,
    transfers: Vec<(String, RunAction)>,
    saves: usize,
}

impl Sides {
    fn start(&self, command: Command, force: bool, mode: ExecutionMode) -> CommandRun {
        let mut targets = set(&[]);
        let names = self.local.keys().chain(self.remote.keys()).chain(self.known.keys());
        for name in names.chain(self.symlinks.iter()) {
            targets.insert(name.to_string());
        }
        let targets = (0..targets.len()).map(|i| targets.key(i).clone()).collect();
        let local: Vec<&str> = self.local.keys().copied().collect();
        let remote: Vec<&str> = self.remote.keys().copied().collect();
        CommandRun::run(
            command,
            force,
            mode,
            "/project",
            "/remote",
            targets,
            set(&local),
            set(&remote),
            set(&self.symlinks),
        )
    }

    fn answer(&mut self, run: &mut CommandRun) {
        let hash = |content: Option<&&str>| content.map(|content| content.to_string());
        match run.phase {
            RunPhase::Local => {
                let found = hash(self.local.get(run.target().as_str()));
                run.on_local(found.ok_or_else(|| failure("no local file")));
            }
            RunPhase::Remote => {
                let found = hash(self.remote.get(run.target().as_str()));
                let with_content = self.content_with_hash;
                let found = found.map(|hash| (hash, with_content));
                run.on_remote(found.ok_or_else(|| failure("no remote file")));
            }
            RunPhase::Known => {
                let known = hash(self.known.get(run.target().as_str()));
                run.on_known(known);
            }
            RunPhase::Content => run.on_content(Ok(())),
            RunPhase::Transfer => {
                self.transfers.push((run.target().clone(), run.action));
                run.on_transferred(Ok(()));
            }
            RunPhase::Save => {
                self.saves += 1;
                run.on_saved(Ok(()));
            }
            RunPhase::Done => {}
        }
    }

    fn run(
        &mut self,
        command: Command,
        force: bool,
        mode: ExecutionMode,
    ) -> (Vec<OutputLine>, Option<Error>) {
        let mut run = self.start(command, force, mode);
        while run.phase != RunPhase::Done {
            self.answer(&mut run);
        }
        let lines = run.take_lines();
        (lines, run.failure)
    }
}

fn said(text: &str) -> OutputLine {
    say(text.to_string())
}

fn noted(text: &str) -> OutputLine {
    note(text.to_string())
}

#[test]
fn a_pull_never_uploads_and_a_push_never_downloads() {
    for state in STATES {
        for force in [false, true] {
            let pull = run_action(Command::Pull, state, force);
            let push = run_action(Command::Push, state, force);
            let sync = run_action(Command::Sync, state, force);
            assert!(!matches!(pull, RunAction::Upload | RunAction::ForcedUpload));
            assert!(!matches!(push, RunAction::Download | RunAction::ForcedDownload));
            assert_ne!(sync, RunAction::ForcedDownload);
        }
    }
}

#[test]
fn a_file_that_changed_on_both_sides_is_a_conflict_unless_forced() {
    let state = FileState::BothChanged;
    for command in [Command::Pull, Command::Push, Command::Sync] {
        assert_eq!(run_action(command, state, false), RunAction::Conflict);
    }
    assert_eq!(run_action(Command::Pull, state, true), RunAction::ForcedDownload);
    assert_eq!(run_action(Command::Push, state, true), RunAction::ForcedUpload);
    assert_eq!(run_action(Command::Sync, state, true), RunAction::ForcedUpload);
}

#[test]
fn a_pull_keeps_local_edits_and_a_push_keeps_remote_ones() {
    assert_eq!(run_action(Command::Pull, FileState::LocalChanged, false), RunAction::Conflict);
    assert_eq!(run_action(Command::Pull, FileState::RemoteChanged, false), RunAction::Download);
    assert_eq!(run_action(Command::Push, FileState::RemoteChanged, false), RunAction::Conflict);
    assert_eq!(run_action(Command::Push, FileState::LocalChanged, false), RunAction::Upload);
    assert_eq!(run_action(Command::Sync, FileState::LocalChanged, false), RunAction::Upload);
    assert_eq!(run_action(Command::Sync, FileState::RemoteChanged, false), RunAction::Download);
    assert_eq!(run_action(Command::Sync, FileState::Untracked, false), RunAction::Conflict);
}

fn mixed() -> Sides {
    Sides {
        local: BTreeMap::from([("changed.c", "2"), ("mine.c", "1"), ("same.c", "1")]),
        remote: BTreeMap::from([("changed.c", "1"), ("same.c", "1"), ("theirs.c", "1")]),
        known: BTreeMap::from([("changed.c", "1"), ("gone.c", "1"), ("same.c", "1")]),
        ..Sides::default()
    }
}

#[test]
fn a_sync_takes_each_file_in_its_direction_and_saves_once() {
    let mut sides = mixed();

    let (lines, failure) = sides.run(Command::Sync, false, ExecutionMode::Apply);

    assert!(failure.is_none());
    assert_eq!(
        lines,
        vec![
            said("uploaded changed.c"),
            noted("skip (not on local or remote): gone.c"),
            said("uploaded mine.c"),
            said("downloaded theirs.c"),
        ]
    );
    assert_eq!(
        sides.transfers,
        vec![
            ("changed.c".to_string(), RunAction::Upload),
            ("mine.c".to_string(), RunAction::Upload),
            ("theirs.c".to_string(), RunAction::Download),
        ]
    );
    assert_eq!(sides.saves, 1);
}

#[test]
fn a_push_leaves_what_is_only_remote_alone() {
    let mut sides = mixed();

    let (lines, failure) = sides.run(Command::Push, false, ExecutionMode::Apply);

    assert!(failure.is_none());
    assert!(lines.contains(&said("pushed mine.c")));
    assert!(sides.transfers.iter().all(|(path, _)| path != "theirs.c"));
}

#[test]
fn a_pull_leaves_what_is_only_local_alone() {
    let mut sides = mixed();

    let (lines, failure) = sides.run(Command::Pull, false, ExecutionMode::Apply);

    assert_eq!(failure.unwrap().exit, Exit::Conflict);
    assert!(lines.contains(&said("pulled theirs.c")));
    assert!(sides.transfers.iter().all(|(path, _)| path != "mine.c"));
}

#[test]
fn a_dry_run_shows_what_it_would_do_and_saves_nothing() {
    let mut sides = mixed();

    let (lines, failure) = sides.run(Command::Sync, false, ExecutionMode::DryRun);

    assert!(failure.is_none());
    assert!(lines.contains(&said("would upload mine.c")));
    assert!(lines.contains(&said("would download theirs.c")));
    assert_eq!(sides.saves, 0);
}

fn diverged() -> Sides {
    Sides {
        local: BTreeMap::from([("a.c", "local"), ("b.c", "local")]),
        remote: BTreeMap::from([("a.c", "remote")]),
        known: BTreeMap::from([("a.c", "known")]),
        ..Sides::default()
    }
}

#[test]
fn a_conflict_is_told_and_ends_the_command_after_the_other_files() {
    let mut sides = diverged();

    let (lines, failure) = sides.run(Command::Push, false, ExecutionMode::Apply);

    assert_eq!(
        lines,
        vec![
            noted(
                "conflict (BothChanged, would overwrite remote edits): a.c \
                 — pass --force to override"
            ),
            said("pushed b.c"),
        ]
    );
    let failure = failure.unwrap();
    assert_eq!(failure.exit, Exit::Conflict);
    assert_eq!(failure.exit.code(), 2);
    assert!(failure.message.starts_with("push aborted"));
    assert_eq!(sides.saves, 1);
}

#[test]
fn a_forced_overwrite_is_announced_before_it_is_made() {
    let mut sides = diverged();
    let mut run = sides.start(Command::Push, true, ExecutionMode::Apply);
    while run.phase != RunPhase::Transfer {
        sides.answer(&mut run);
    }

    assert_eq!(run.take_lines(), vec![noted("overwriting remote with local (--force): a.c")]);
    assert!(sides.transfers.is_empty());

    let (lines, failure) = diverged().run(Command::Pull, true, ExecutionMode::DryRun);
    assert!(failure.is_none());
    assert_eq!(lines, vec![noted("would overwrite local with remote (--force): a.c")]);
}

#[test]
fn a_remote_symlink_is_refused_even_when_forced() {
    let mut sides = Sides {
        local: BTreeMap::from([("link.c", "local")]),
        symlinks: vec!["link.c"],
        ..Sides::default()
    };

    let (lines, failure) = sides.run(Command::Push, true, ExecutionMode::Apply);

    assert_eq!(lines, vec![noted("refusing link.c: the remote path is a symlink, not a file")]);
    assert_eq!(failure.unwrap().exit, Exit::Conflict);
    assert!(sides.transfers.is_empty());
}

#[test]
fn a_download_whose_content_came_with_its_hash_fetches_nothing_more() {
    for (content_with_hash, phase) in [(true, RunPhase::Transfer), (false, RunPhase::Content)] {
        let mut sides = Sides {
            remote: BTreeMap::from([("theirs.c", "1")]),
            content_with_hash,
            ..Sides::default()
        };
        let mut run = sides.start(Command::Pull, false, ExecutionMode::Apply);
        sides.answer(&mut run);
        assert_eq!(run.phase, RunPhase::Known);
        sides.answer(&mut run);
        assert_eq!(run.phase, phase);
    }
}

#[test]
fn a_failure_says_what_it_happened_to() {
    let sides = mixed();
    let mut push = sides.start(Command::Push, false, ExecutionMode::Apply);
    push.on_local(Err(failure("denied")));
    assert_eq!(push.failure.unwrap().full_message(), "reading local /project/changed.c: denied");

    let mut pull = Sides {
        remote: BTreeMap::from([("theirs.c", "1")]),
        ..Sides::default()
    }
    .start(Command::Pull, false, ExecutionMode::Apply);
    pull.on_remote(Ok(("1".to_string(), false)));
    pull.on_known(None);
    pull.on_content(Err(failure("broken pipe")));
    assert_eq!(pull.phase, RunPhase::Done);
    assert_eq!(
        pull.failure.unwrap().full_message(),
        "downloading /remote/theirs.c: broken pipe"
    );
}
