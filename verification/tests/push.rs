//! The push of one file.

use ferry::error::{Error, Exit};
use ferry::file_transfer::TransferStatus;
use ferry::ftp::{Entry, ExactFilePresence, Timestamp};
use ferry::push::{push_one, PushOne, PushPhase};
use ferry::scope::ExecutionMode;

fn failure(message: &str) -> Error {
    Error::failure(message.to_string())
}

fn entry(name: &str, is_symlink: bool) -> Entry {
    let modified = Timestamp { secs: 0, nanos: 0 };
    Entry { name: name.to_string(), is_dir: false, is_symlink, size: 1, modified }
}

fn hash(text: &str) -> Option<String> {
    Some(text.to_string())
}

fn start(force: bool, mode: ExecutionMode) -> PushOne {
    push_one("src/page.c", force, mode, "/project", "/remote").unwrap()
}

/// The push of a file that is on both sides, up to what is remembered of it.
fn on_both_sides(force: bool, local: &str, remote: &str) -> PushOne {
    let mut push = start(force, ExecutionMode::Apply);
    push.on_local(Ok(hash(local)));
    push.on_size(Ok(()));
    push.on_parent(Some(vec![entry("page.c", false)]));
    push.on_remote(Ok(remote.to_string()));
    assert_eq!(push.phase, PushPhase::Known);
    push
}

#[test]
fn a_new_file_is_pushed_and_the_state_is_saved() {
    let mut push = start(false, ExecutionMode::Apply);
    assert_eq!(push.remote_path(), "/remote/src/page.c");
    push.on_local(Ok(hash("new")));
    push.on_size(Err(failure("550")));
    push.on_exact(Ok(ExactFilePresence::Missing));
    push.on_known(None);
    assert_eq!(push.phase, PushPhase::Transfer);
    push.on_transferred(Ok(()));
    assert_eq!(push.phase, PushPhase::Save);
    push.on_saved(Ok(()));

    let outcome = push.outcome().unwrap();
    assert_eq!(outcome.path, "src/page.c");
    assert_eq!(outcome.status, TransferStatus::Transferred);
}

#[test]
fn a_dry_push_saves_nothing() {
    let mut push = start(false, ExecutionMode::DryRun);
    push.on_local(Ok(hash("new")));
    push.on_size(Err(failure("550")));
    push.on_exact(Ok(ExactFilePresence::Missing));
    push.on_known(None);
    push.on_transferred(Ok(()));

    assert_eq!(push.phase, PushPhase::Done);
    assert_eq!(push.outcome().unwrap().status, TransferStatus::Transferred);
}

#[test]
fn an_unchanged_file_is_not_pushed() {
    let mut push = on_both_sides(false, "same", "same");
    push.on_known(hash("same"));

    assert_eq!(push.outcome().unwrap().status, TransferStatus::Unchanged);
}

#[test]
fn a_file_that_is_only_remote_is_skipped() {
    let mut push = start(false, ExecutionMode::Apply);
    push.on_local(Ok(None));
    push.on_size(Ok(()));
    push.on_parent(None);
    push.on_remote(Ok("remote".to_string()));
    push.on_known(None);

    assert_eq!(push.outcome().unwrap().status, TransferStatus::SkippedMissingSource);
}

#[test]
fn a_file_that_is_nowhere_is_refused() {
    let mut push = start(false, ExecutionMode::Apply);
    push.on_local(Ok(None));
    push.on_size(Err(failure("550")));
    push.on_exact(Ok(ExactFilePresence::Missing));

    let error = push.outcome().unwrap_err();
    assert!(error.full_message().contains("neither local nor remote has src/page.c"));
}

#[test]
fn remote_changes_are_overwritten_only_by_force() {
    let mut push = on_both_sides(false, "local", "remote");
    push.on_known(hash("known"));
    let error = push.outcome().unwrap_err();
    assert_eq!(error.exit, Exit::Conflict);
    assert!(error.full_message().contains("conflict (BothChanged) on src/page.c"));

    let mut push = on_both_sides(true, "local", "remote");
    push.on_known(hash("known"));
    assert_eq!(push.phase, PushPhase::Transfer);
}

#[test]
fn a_remote_symlink_is_not_pushed_to_even_by_force() {
    let mut push = start(true, ExecutionMode::Apply);
    push.on_local(Ok(hash("local")));
    push.on_size(Ok(()));
    push.on_parent(Some(vec![entry("page.c", true)]));

    let error = push.outcome().unwrap_err();
    assert_eq!(error.exit, Exit::Conflict);
    assert!(error.full_message().contains("the remote path is a symlink, not a file"));
}

#[test]
fn a_size_that_cannot_be_had_does_not_mean_that_a_file_is_missing() {
    let mut push = start(false, ExecutionMode::Apply);
    push.on_local(Ok(hash("local")));
    push.on_size(Err(failure("550 SIZE refused")));
    push.on_exact(Err(failure("NLST refused")));

    let message = push.outcome().unwrap_err().full_message();
    assert!(message.starts_with("push src/page.c: "), "got: {message}");
}

#[test]
fn a_push_that_fails_says_which_file_it_was() {
    let mut push = on_both_sides(false, "local", "known");
    push.on_known(hash("known"));
    push.on_transferred(Err(failure("broken pipe")));
    assert_eq!(push.outcome().unwrap_err().full_message(), "push src/page.c: broken pipe");

    let mut push = start(false, ExecutionMode::Apply);
    push.on_local(Err(failure("denied")));
    assert_eq!(
        push.outcome().unwrap_err().full_message(),
        "push src/page.c: reading local /project/src/page.c: denied"
    );
}

#[test]
fn a_path_that_leaves_the_root_is_not_pushed() {
    let escaped = push_one("../page.c", false, ExecutionMode::Apply, "/project", "/remote");

    assert!(escaped.unwrap_err().full_message().starts_with("push ../page.c"));
}
