//! What a run works on, and whether it changes anything.

use crate::error::Error;
use crate::error;
use crate::paths;
use crate::platform::Platform;
use crate::text;
use crate::walk::CanonicalPaths;
use crate::walk;
use vstd::prelude::*;

verus! {

/// Whether a run applies its changes or only shows them.
#[derive(Debug, Clone, Copy, PartialEq, Eq, Structural)]
pub enum ExecutionMode {
    Apply,
    DryRun,
}

/// Whether a change was made inside its claim or the claim was refused.
#[derive(Debug, Clone, Copy, PartialEq, Eq, Structural)]
pub enum CommitDecision {
    Committed,
    Cancelled,
}

/// What a synchronisation works on.
#[derive(Debug, PartialEq, Eq)]
pub enum SyncScope {
    /// The whole project, by the walks of the unscoped commands.
    LegacyProject,
    /// The whole project, by a scoped inventory.
    RootDirectory,
    /// One file or directory.
    Path(String),
}

/// What a scope says.
pub enum ScopeView {
    LegacyProject,
    RootDirectory,
    Path(Seq<char>),
}

impl View for SyncScope {
    type V = ScopeView;

    open spec fn view(&self) -> ScopeView {
        match self {
            SyncScope::LegacyProject => ScopeView::LegacyProject,
            SyncScope::RootDirectory => ScopeView::RootDirectory,
            SyncScope::Path(path) => ScopeView::Path(path@),
        }
    }
}

/// Whether a path lies in a scope.
pub open spec fn contains(scope: ScopeView, path: Seq<char>) -> bool {
    match scope {
        ScopeView::LegacyProject => false,
        ScopeView::RootDirectory => true,
        ScopeView::Path(selected) => paths::at_or_below(path, selected),
    }
}

/// Whether a path lies in a scope.
pub fn scope_contains(scope: &SyncScope, path: &str) -> (out: bool)
    ensures
        out == contains(scope@, path@),
{
    match scope {
        SyncScope::LegacyProject => false,
        SyncScope::RootDirectory => true,
        SyncScope::Path(selected) => paths::is_at_or_below(path, selected),
    }
}

/// The scope that an argument of the command line names on a machine: none is the
/// whole project as ever, a dot is its root directory.
pub open spec fn cli_scope_on(
    platform: Platform,
    local_root: Seq<char>,
    input: Option<Seq<char>>,
    located: Result<(Seq<char>, Seq<char>), error::ErrorView>,
) -> Result<ScopeView, error::ErrorView> {
    match input {
        None => Ok(ScopeView::LegacyProject),
        Some(input) => if input == "."@ {
            Ok(ScopeView::RootDirectory)
        } else {
            match walk::argument_on(platform, local_root, input, located) {
                Ok(path) => Ok(ScopeView::Path(path)),
                Err(e) => Err(e),
            }
        },
    }
}

/// The scope that an argument of the command line names where slashes separate names.
pub open spec fn cli_scope(
    local_root: Seq<char>,
    input: Option<Seq<char>>,
    located: Result<(Seq<char>, Seq<char>), error::ErrorView>,
) -> Result<ScopeView, error::ErrorView> {
    cli_scope_on(Platform::Slashes, local_root, input, located)
}

/// An optional text by its view.
pub open spec fn optional_text(input: Option<&str>) -> Option<Seq<char>> {
    match input {
        Some(input) => Some(input@),
        None => None,
    }
}

/// The scope that an argument of the command line names on a machine; `located` is
/// read only of an absolute one.
pub fn from_cli_path_on(
    platform: Platform,
    local_root: &str,
    input: Option<&str>,
    located: Result<CanonicalPaths, Error>,
) -> (out: Result<SyncScope, Error>)
    ensures
        error::agrees(
            out,
            cli_scope_on(platform, local_root@, optional_text(input), walk::located_at(located)),
        ),
{
    match input {
        None => Ok(SyncScope::LegacyProject),
        Some(input) => if text::same(input, ".") {
            Ok(SyncScope::RootDirectory)
        } else {
            match walk::safe_arg_on(platform, local_root, input, located) {
                Ok(path) => Ok(SyncScope::Path(path)),
                Err(e) => Err(e),
            }
        },
    }
}

/// The scope that an argument of the command line names where slashes separate names.
pub fn from_cli_path(
    local_root: &str,
    input: Option<&str>,
    located: Result<CanonicalPaths, Error>,
) -> (out: Result<SyncScope, Error>)
    ensures
        error::agrees(
            out,
            cli_scope(local_root@, optional_text(input), walk::located_at(located)),
        ),
{
    from_cli_path_on(Platform::Slashes, local_root, input, located)
}

/// Nothing selected is the whole project, a dot is the root, and anything else is
/// the path that it names, where it names one.
pub proof fn scope_is_what_was_named(
    platform: Platform,
    local_root: Seq<char>,
    input: Option<Seq<char>>,
    located: Result<(Seq<char>, Seq<char>), error::ErrorView>,
)
    ensures
        ({
            let scope = cli_scope_on(platform, local_root, input, located);
            &&& scope == Ok::<ScopeView, error::ErrorView>(ScopeView::LegacyProject) <==> input
                is None
            &&& scope == Ok::<ScopeView, error::ErrorView>(ScopeView::RootDirectory) <==> input
                == Some("."@)
            &&& scope is Err <==> input is Some && input != Some("."@) && walk::argument_on(
                platform,
                local_root,
                input->Some_0,
                located,
            ) is Err
            &&& scope is Ok && scope->Ok_0 is Path ==> walk::argument_on(
                platform,
                local_root,
                input->Some_0,
                located,
            ) == Ok::<Seq<char>, error::ErrorView>(scope->Ok_0->Path_0)
        }),
{
}

/// The root directory holds every path, a selected path itself and what lies
/// below it by whole segments, and the whole project is no scope.
pub proof fn scope_holds_what_lies_below_it(scope: ScopeView, path: Seq<char>)
    ensures
        scope is RootDirectory ==> contains(scope, path),
        scope is LegacyProject ==> !contains(scope, path),
        scope matches ScopeView::Path(selected) ==> (contains(scope, path) <==> path == selected
            || (path.len() > selected.len() && path[selected.len() as int] == '/' && path.take(
            selected.len() as int,
        ) == selected)),
{
    if let ScopeView::Path(selected) = scope {
        paths::below_is_by_whole_segments(path, selected);
    }
}

} // verus!
