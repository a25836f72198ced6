//! What the command line of a synchronisation asks for, and what its run comes to.

use ferry::cli::{
    accept_selection, migration_warning, resolve_scoped_cli_path, run_cli, settle_run, should_save,
    CliRoute,
};
use ferry::error::{Error, Exit};
use ferry::ftp::Timestamp;
use ferry::inventory::EntryKind;
use ferry::scope::{ExecutionMode, SyncScope};
use ferry::state::{FileState, StateFile};
use ferry::sync::outcome::{outcome_error, render_outcome, require_interactive_terminal};
use ferry::sync::plan::{SyncEvent, SyncEventKind, SyncIssue, SyncOutcome};
use ferry::sync::planning::{verify_planned_local_hash, HashFacts};
use ferry::sync::scoped::{run_scoped, ScopedSync, SyncStage};
use ferry::walk::CanonicalPaths;

fn outcome(issues: Vec<SyncIssue>) -> SyncOutcome {
    SyncOutcome { events: Vec::new(), issues, cancelled: false }
}

fn failure(text: &str) -> Error {
    Error::failure(text.to_string())
}

fn unlocated() -> Result<CanonicalPaths, Error> {
    Err(failure("not looked up"))
}

#[test]
fn structured_run_scoped_exposes_the_guarded_structured_api() {
    let run: fn(SyncScope, &str, &str, bool, ExecutionMode) -> Result<ScopedSync, Error> =
        run_scoped;

    let started = run(
        SyncScope::Path("a.c".into()),
        "/local",
        "/remote",
        false,
        ExecutionMode::Apply,
    )
    .unwrap();
    assert_eq!(started.stage, SyncStage::Inventory);
    let refused = run(SyncScope::LegacyProject, "/local", "/remote", false, ExecutionMode::Apply);
    assert_eq!(refused.unwrap_err().message, "scoped sync requires an explicit path");
}

#[test]
fn structured_cli_file_conflicts_map_to_conflict_exit() {
    let outcome = outcome(vec![SyncIssue::FileConflict {
        path: "conflict.c".into(),
        state: FileState::BothChanged,
    }]);

    let error = outcome_error(&outcome).unwrap();
    assert_eq!(error.exit, Exit::Conflict);
    assert_eq!(error.exit.code(), 2);
}

#[test]
fn structured_cli_type_conflicts_map_to_generic_errors() {
    let outcome = outcome(vec![SyncIssue::TypeConflict {
        path: "type.c".into(),
        local: EntryKind::File,
        remote: EntryKind::Directory,
    }]);

    let error = outcome_error(&outcome).unwrap();
    assert_eq!(error.exit, Exit::General);
    assert!(error.full_message().contains("type conflict"));
}

#[test]
fn structured_cli_explicit_paths_never_resolve_to_legacy_project() {
    assert_eq!(
        resolve_scoped_cli_path("/project", ".", unlocated()).unwrap(),
        SyncScope::RootDirectory
    );
    assert_eq!(
        resolve_scoped_cli_path("/project", "file.c", unlocated()).unwrap(),
        SyncScope::Path("file.c".into())
    );
}

#[test]
fn structured_download_planning_rejects_local_hash_changes() {
    let present = |hash: &str| HashFacts::Hash(hash.to_string());
    let missing = || HashFacts::Missing;
    let path = "/project/target.c";

    verify_planned_local_hash(path, &Some("current".into()), present("current")).unwrap();
    let error = verify_planned_local_hash(path, &Some("inventoried-old".into()), present("current"))
        .unwrap_err();
    assert!(error.full_message().contains("local destination changed"));

    let replaced = verify_planned_local_hash(path, &Some("current".into()), HashFacts::NotFile);
    assert!(replaced.is_err());
    let unreadable = HashFacts::Failed(failure("denied"));
    assert_eq!(
        verify_planned_local_hash(path, &None, unreadable).unwrap_err().message,
        "denied"
    );

    verify_planned_local_hash(path, &None, missing()).unwrap();
    assert!(verify_planned_local_hash(path, &Some("expected-present".into()), missing()).is_err());
}

#[test]
fn selected_cli_passes_one_scope_force_and_dry_run_to_structured_sync() {
    assert_eq!(run_cli(None, true, true, true).unwrap(), CliRoute::Select);
    let picked = Some(SyncScope::Path("areas/smoke.c".into()));
    let selected = accept_selection(picked, ExecutionMode::DryRun).unwrap().unwrap();
    assert!(!selected.migrates);
    let run = run_scoped(selected.scope, "/project/mirror", "/chosen-root", true, ExecutionMode::DryRun)
        .unwrap();

    assert_eq!(run.local_root, "/project/mirror");
    assert_eq!(run.remote_root, "/chosen-root");
    assert_eq!(run.scope, SyncScope::Path("areas/smoke.c".into()));
    assert!(run.force);
    assert_eq!(run.mode, ExecutionMode::DryRun);
}

#[test]
fn selected_cli_cancellation_is_success_and_never_falls_back_to_legacy() {
    assert_eq!(accept_selection(None, ExecutionMode::Apply).unwrap(), None);
}

#[test]
fn selected_cli_rejects_legacy_project_without_running_sync() {
    let error =
        accept_selection(Some(SyncScope::LegacyProject), ExecutionMode::Apply).unwrap_err();
    assert!(error.message.contains("cannot use legacy project scope"));
}

#[test]
fn picked_scope_moves_old_names_only_where_changes_are_applied() {
    let picked = || Some(SyncScope::RootDirectory);
    let applied = accept_selection(picked(), ExecutionMode::Apply).unwrap().unwrap();
    assert_eq!(applied.scope, SyncScope::RootDirectory);
    assert!(applied.migrates);
    let shown = accept_selection(picked(), ExecutionMode::DryRun).unwrap().unwrap();
    assert!(!shown.migrates);

    let line = migration_warning(&failure("denied").context("moving .old".to_string()));
    assert!(line.to_stderr);
    assert_eq!(line.text, "warning: moving .old: denied");
}

#[test]
fn interactive_terminal_error_text_is_exact() {
    let error = require_interactive_terminal(false, true).unwrap_err();
    assert_eq!(
        error.message,
        "ferry sync --select requires an interactive terminal; pass PATH directly"
    );
    assert!(require_interactive_terminal(true, false).is_err());
    assert!(require_interactive_terminal(true, true).is_ok());
}

#[test]
fn a_command_line_names_the_project_a_path_or_the_picker() {
    assert_eq!(run_cli(None, false, false, false).unwrap(), CliRoute::Project);
    assert_eq!(
        run_cli(Some("areas".into()), false, false, false).unwrap(),
        CliRoute::Scoped("areas".into())
    );
    assert!(run_cli(None, true, true, false).is_err());
}

#[test]
fn an_absolute_path_is_scoped_by_where_it_lies() {
    let located = Ok(CanonicalPaths {
        root: "/real/project".into(),
        path: "/real/project/sub/x.c".into(),
    });
    assert_eq!(
        resolve_scoped_cli_path("/project", "/project/sub/x.c", located).unwrap(),
        SyncScope::Path("sub/x.c".into())
    );
    assert!(resolve_scoped_cli_path("/project", "../x.c", unlocated()).is_err());
}

#[test]
fn no_failure_of_a_run_is_lost() {
    assert!(settle_run(Ok(outcome(Vec::new())), Ok(())).is_ok());
    let unsaved = settle_run(Ok(outcome(Vec::new())), Err(failure("disk full")));
    assert_eq!(unsaved.unwrap_err().full_message(), "disk full");
    let failed = settle_run(Err(failure("refused")), Ok(()));
    assert_eq!(failed.unwrap_err().full_message(), "refused");
    let both = settle_run(
        Err(Error::conflict("refused".to_string())),
        Err(failure("disk full")),
    )
    .unwrap_err();
    assert_eq!(
        both.full_message(),
        "also failed to save completed sync state: disk full: refused"
    );
    assert_eq!(both.exit, Exit::Conflict);
}

#[test]
fn state_is_saved_only_where_it_changed_and_changes_are_applied() {
    let time = Timestamp { secs: 5, nanos: 0 };
    let mut state = StateFile::new();
    state.record("a", "hash", 4, time, time);
    let mut changed = state.copy();
    assert!(!should_save(ExecutionMode::Apply, &state, &changed));
    changed.record("a", "other", 4, time, time);
    assert!(should_save(ExecutionMode::Apply, &state, &changed));
    assert!(!should_save(ExecutionMode::DryRun, &state, &changed));
    let mut more = state.copy();
    more.record("b", "hash", 4, time, time);
    assert!(should_save(ExecutionMode::Apply, &state, &more));
}

#[test]
fn an_outcome_is_rendered_line_by_line() {
    let event = |path: &str, kind: SyncEventKind| SyncEvent { path: path.into(), kind };
    let rendered = SyncOutcome {
        events: vec![
            event("a", SyncEventKind::Unchanged),
            event("b", SyncEventKind::Uploaded),
            event("c", SyncEventKind::Downloaded),
            event("d", SyncEventKind::CreatedLocalDirectory),
            event("e", SyncEventKind::CreatedRemoteDirectory),
            event("f", SyncEventKind::SkippedAbsent),
            event("g", SyncEventKind::ForcedRemoteOverwrite),
        ],
        issues: vec![
            SyncIssue::FileConflict { path: "h".into(), state: FileState::Untracked },
            SyncIssue::TypeConflict {
                path: "i".into(),
                local: EntryKind::Directory,
                remote: EntryKind::File,
            },
        ],
        cancelled: false,
    };

    let (lines, error) = render_outcome(&rendered, ExecutionMode::Apply);
    let shown: Vec<(bool, &str)> =
        lines.iter().map(|line| (line.to_stderr, line.text.as_str())).collect();
    assert_eq!(
        shown,
        vec![
            (false, "uploaded b"),
            (false, "downloaded c"),
            (false, "created local directory d"),
            (false, "created remote directory e"),
            (true, "skip (not on local or remote): f"),
            (true, "overwriting remote with local (--force): g"),
            (
                true,
                "conflict (Untracked, local and remote diverged): h — pass --force to take local"
            ),
            (true, "type conflict: i is Directory locally and File remotely"),
        ]
    );
    assert!(error.unwrap().message.contains("type conflict at i"));

    let (lines, _) = render_outcome(&rendered, ExecutionMode::DryRun);
    let shown: Vec<&str> = lines.iter().map(|line| line.text.as_str()).collect();
    assert_eq!(shown[0], "would upload b");
    assert_eq!(shown[1], "would download c");
    assert_eq!(shown[2], "would create local directory d");
    assert_eq!(shown[3], "would create remote directory e");
    assert_eq!(shown[5], "would overwrite remote with local (--force): g");

    let cancelled = SyncOutcome { events: Vec::new(), issues: Vec::new(), cancelled: true };
    assert_eq!(
        outcome_error(&cancelled).unwrap().message,
        "sync cancelled because the selected scope changed; retry"
    );
    assert!(outcome_error(&outcome(Vec::new())).is_none());
}
