//! The command by which an editor launches the language server.

use ferry::extension::command_for_path;

#[test]
fn command_uses_discovered_absolute_path() {
    let command = command_for_path(Some("/home/test/.cargo/bin/ferry-lsp".into())).unwrap();

    assert_eq!(command.command, "/home/test/.cargo/bin/ferry-lsp");
    assert!(command.args.is_empty());
    assert!(command.env.is_empty());
}

#[test]
fn missing_binary_returns_installation_hint() {
    let error = command_for_path(None).unwrap_err();
    let message = error.full_message();

    assert!(message.contains("ferry-lsp"));
    assert!(message.contains("cargo install --path ."));
    assert!(message.contains("PATH"));
}
