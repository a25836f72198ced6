//! The command by which an editor launches the language server.

use crate::error::Error;
use crate::error;
use vstd::prelude::*;

verus! {

/// A command to be launched.
#[derive(Debug, PartialEq, Eq)]
pub struct LaunchCommand {
    pub command: String,
    pub args: Vec<String>,
    pub env: Vec<(String, String)>,
}

/// The command that launches the language server at the path where it was found,
/// without arguments and in an unchanged environment. Where it was not found, the
/// failure says how to install it.
pub fn command_for_path(path: Option<String>) -> (out: Result<LaunchCommand, Error>)
    ensures
        match (out, path) {
            (Ok(command), Some(path)) => {
                &&& command.command@ == path@
                &&& command.args@.len() == 0
                &&& command.env@.len() == 0
            },
            (Err(e), None) => e@ == error::failure(
                "ferry-lsp was not found. Run `cargo install --path .` and ensure `ferry-lsp` is on the worktree shell PATH."@,
            ),
            _ => false,
        },
{
    match path {
        Some(command) => Ok(LaunchCommand { command, args: Vec::new(), env: Vec::new() }),
        None => Err(
            Error::failure(
                "ferry-lsp was not found. Run `cargo install --path .` and ensure `ferry-lsp` is on the worktree shell PATH.".to_owned(),
            ),
        ),
    }
}

} // verus!
