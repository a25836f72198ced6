//! What the command line of a synchronisation asks for, and what its run comes to.

use crate::error::Error;
use crate::error;
use crate::platform::Platform;
use crate::scope::{ExecutionMode, ScopeView, SyncScope};
use crate::scope;
use crate::state::StateFile;
use crate::state;
use crate::sync::outcome::OutputLine;
use crate::sync::outcome;
use crate::sync::plan::SyncOutcome;
use crate::text;
use crate::walk::CanonicalPaths;
use crate::walk;
use vstd::prelude::*;

verus! {

/// What a synchronisation is asked to work on.
#[derive(Debug, PartialEq, Eq)]
pub enum CliRoute {
    /// The whole project, by its walks.
    Project,
    /// A scope that is picked at the terminal.
    Select,
    /// A scope that was named.
    Scoped(String),
}

/// What a synchronisation is asked to work on.
pub enum RouteView {
    Project,
    Select,
    Scoped(Seq<char>),
}

impl View for CliRoute {
    type V = RouteView;

    open spec fn view(&self) -> RouteView {
        match self {
            CliRoute::Project => RouteView::Project,
            CliRoute::Select => RouteView::Select,
            CliRoute::Scoped(path) => RouteView::Scoped(path@),
        }
    }
}

/// What a command line asks for. Picking needs a terminal on both ends, and comes
/// before a path.
pub open spec fn route_of(
    path: Option<Seq<char>>,
    select: bool,
    stdin_is_terminal: bool,
    stdout_is_terminal: bool,
) -> Result<RouteView, error::ErrorView> {
    if select {
        if stdin_is_terminal && stdout_is_terminal {
            Ok(RouteView::Select)
        } else {
            Err(
                error::failure(
                    "ferry sync --select requires an interactive terminal; pass PATH directly"@,
                ),
            )
        }
    } else {
        match path {
            None => Ok(RouteView::Project),
            Some(path) => Ok(RouteView::Scoped(path)),
        }
    }
}

/// What a command line asks for.
pub fn run_cli(
    path: Option<String>,
    select: bool,
    stdin_is_terminal: bool,
    stdout_is_terminal: bool,
) -> (out: Result<CliRoute, Error>)
    ensures
        error::agrees(
            out,
            route_of(state::optional(path), select, stdin_is_terminal, stdout_is_terminal),
        ),
{
    if select {
        return match outcome::require_interactive_terminal(
            stdin_is_terminal,
            stdout_is_terminal,
        ) {
            Ok(_) => Ok(CliRoute::Select),
            Err(e) => Err(e),
        };
    }
    match path {
        None => Ok(CliRoute::Project),
        Some(path) => Ok(CliRoute::Scoped(path)),
    }
}

/// The scope that a path named on a machine stands for; `located` is read only of an
/// absolute one.
pub fn resolve_scoped_cli_path_on(
    platform: Platform,
    local_root: &str,
    input: &str,
    located: Result<CanonicalPaths, Error>,
) -> (out: Result<SyncScope, Error>)
    ensures
        error::agrees(
            out,
            scope::cli_scope_on(platform, local_root@, Some(input@), walk::located_at(located)),
        ),
        out matches Ok(scope) ==> scope@ != ScopeView::LegacyProject,
{
    scope::from_cli_path_on(platform, local_root, Some(input), located)
}

/// The scope that a named path stands for where slashes separate names.
pub fn resolve_scoped_cli_path(
    local_root: &str,
    input: &str,
    located: Result<CanonicalPaths, Error>,
) -> (out: Result<SyncScope, Error>)
    ensures
        error::agrees(
            out,
            scope::cli_scope(local_root@, Some(input@), walk::located_at(located)),
        ),
        out matches Ok(scope) ==> scope@ != ScopeView::LegacyProject,
{
    resolve_scoped_cli_path_on(Platform::Slashes, local_root, input, located)
}

/// A synchronisation of a scope that was picked.
#[derive(Debug, PartialEq, Eq)]
pub struct SelectedSync {
    pub scope: SyncScope,
    /// Whether old names are to be moved before the run.
    pub migrates: bool,
}

/// The synchronisation of the scope that was picked, if one was. The whole project by
/// its walks cannot be. Old names are moved only where changes are applied.
pub fn accept_selection(selected: Option<SyncScope>, mode: ExecutionMode) -> (out: Result<
    Option<SelectedSync>,
    Error,
>)
    ensures
        match (out, selected) {
            (Ok(None), None) => true,
            (Ok(Some(sync)), Some(picked)) => {
                &&& sync.scope@ == picked@
                &&& picked@ != ScopeView::LegacyProject
                &&& sync.migrates == (mode == ExecutionMode::Apply)
            },
            (Err(e), Some(picked)) => picked@ == ScopeView::LegacyProject && e@ == error::failure(
                "interactive selection cannot use legacy project scope"@,
            ),
            _ => false,
        },
{
    match selected {
        None => Ok(None),
        Some(SyncScope::LegacyProject) => Err(
            Error::failure("interactive selection cannot use legacy project scope".to_owned()),
        ),
        Some(scope) => {
            let migrates = match mode {
                ExecutionMode::Apply => true,
                ExecutionMode::DryRun => false,
            };
            Ok(Some(SelectedSync { scope, migrates }))
        },
    }
}

/// The line of a move of old names that failed, which does not stop the run.
pub fn migration_warning(failure: &Error) -> (out: OutputLine)
    ensures
        out@ == outcome::noted("warning: "@ + error::full_message(failure@)),
{
    outcome::note(text::cat("warning: ", &failure.full_message()))
}

/// Whether the state is to be saved after a run: only where changes are applied and
/// something else is remembered than before.
pub fn should_save(mode: ExecutionMode, before: &StateFile, after: &StateFile) -> (out: bool)
    requires
        before.wf(),
        after.wf(),
    ensures
        out == (mode == ExecutionMode::Apply && !state::same_files(after.files@, before.files@)),
{
    match mode {
        ExecutionMode::Apply => after.differs(before),
        ExecutionMode::DryRun => false,
    }
}

/// The failure of a run whose state could not be saved either.
pub open spec fn also_unsaved(run: error::ErrorView, save: error::ErrorView) -> error::ErrorView {
    error::contextual(
        run,
        "also failed to save completed sync state: "@ + error::full_message(save),
    )
}

/// What a run comes to once the saving of its state was tried. No failure is lost.
pub fn settle_run(run: Result<SyncOutcome, Error>, save: Result<(), Error>) -> (out: Result<
    SyncOutcome,
    Error,
>)
    ensures
        match (run, save) {
            (Ok(outcome), Ok(_)) => out == Ok::<SyncOutcome, Error>(outcome),
            (Ok(_), Err(e)) => out == Err::<SyncOutcome, Error>(e),
            (Err(e), Ok(_)) => out == Err::<SyncOutcome, Error>(e),
            (Err(e), Err(save)) => out matches Err(both) && both@ == also_unsaved(e@, save@),
        },
{
    match run {
        Ok(outcome) => match save {
            Ok(_) => Ok(outcome),
            Err(e) => Err(e),
        },
        Err(e) => match save {
            Ok(_) => Err(e),
            Err(save) => Err(
                e.context(
                    text::cat(
                        "also failed to save completed sync state: ",
                        &save.full_message(),
                    ),
                ),
            ),
        },
    }
}

/// A selection is asked for exactly where it was demanded and both ends are a
/// terminal, and is refused everywhere else; without it a path is taken where one
/// was given, and the whole project where none was.
pub proof fn route_follows_the_command_line(
    path: Option<Seq<char>>,
    select: bool,
    stdin_is_terminal: bool,
    stdout_is_terminal: bool,
)
    ensures
        ({
            let route = route_of(path, select, stdin_is_terminal, stdout_is_terminal);
            &&& route == Ok::<RouteView, error::ErrorView>(RouteView::Select) <==> select
                && stdin_is_terminal && stdout_is_terminal
            &&& route is Err <==> select && !(stdin_is_terminal && stdout_is_terminal)
            &&& route == Ok::<RouteView, error::ErrorView>(RouteView::Project) <==> !select && path
                is None
            &&& route is Ok && route->Ok_0 is Scoped <==> !select && path is Some
            &&& !select && path is Some ==> route == Ok::<RouteView, error::ErrorView>(
                RouteView::Scoped(path->Some_0),
            )
        }),
{
}

/// A run that failed and could not be saved either ends as the run does, and tells
/// of both failures, the save first.
pub proof fn failed_save_hides_no_failed_run(run: error::ErrorView, save: error::ErrorView)
    ensures
        also_unsaved(run, save).exit == run.exit,
        error::full_message(also_unsaved(run, save))
            == "also failed to save completed sync state: "@ + error::full_message(save) + ": "@
            + error::full_message(run),
{
}

} // verus!
