//! Paths as a machine writes them, and the arguments that are named by them.

use ferry::cli::resolve_scoped_cli_path_on;
use ferry::error::Error;
use ferry::platform::{from_machine, is_absolute, to_machine, with_slashes, Platform};
use ferry::push::push_one_on;
use ferry::scope::{ExecutionMode, SyncScope};
use ferry::targets::normalize_pull_arg_on;
use ferry::walk::{safe_arg_on, safe_rel, safe_rel_on, CanonicalPaths};

const SLASHES: Platform = Platform::Slashes;
const BACKSLASHES: Platform = Platform::Backslashes;

fn unlocated() -> Result<CanonicalPaths, Error> {
    Err(Error::failure("no such file".to_string()))
}

fn located(root: &str, path: &str) -> Result<CanonicalPaths, Error> {
    Ok(CanonicalPaths { root: root.to_string(), path: path.to_string() })
}

#[test]
fn separators_are_rewritten_only_where_they_separate() {
    assert_eq!(with_slashes(BACKSLASHES, "areas\\mud/x.c"), "areas/mud/x.c");
    assert_eq!(with_slashes(SLASHES, "areas\\mud/x.c"), "areas\\mud/x.c");
    assert_eq!(safe_rel_on(BACKSLASHES, ".\\areas\\x.c\\").unwrap(), "areas/x.c");
    assert_eq!(safe_rel_on(SLASHES, "areas\\x.c").unwrap(), "areas\\x.c");
    assert_eq!(safe_rel("areas\\x.c").unwrap(), "areas\\x.c");
}

#[test]
fn absolute_paths_are_those_of_the_machine() {
    for path in ["C:\\windows", "c:/windows", "\\\\server\\share", "//server/share/x"] {
        assert!(is_absolute(BACKSLASHES, path), "{path}");
    }
    for path in ["C:temp", "\\temp", "/temp", "C:", "\\\\server", "\\\\\\share", "1:/x", ""] {
        assert!(!is_absolute(BACKSLASHES, path), "{path}");
    }
    assert!(is_absolute(SLASHES, "/etc"));
    assert!(!is_absolute(SLASHES, "C:/windows"));
    assert!(!is_absolute(SLASHES, "\\etc"));
}

#[test]
fn refused_arguments_are_quoted_as_they_were_written() {
    for path in ["", ".\\", "..\\escape", "a\\..\\..\\b", "C:\\x", "\\\\server\\share\\x"] {
        assert!(safe_rel_on(BACKSLASHES, path).is_err(), "{path}");
    }
    assert_eq!(
        safe_rel_on(BACKSLASHES, "..\\escape").unwrap_err().message,
        "refusing path \"..\\\\escape\": must be a relative path under local_root with no '..' \
         segments"
    );
}

#[test]
fn safe_arguments_name_themselves_on_either_machine() {
    for path in ["areas\\x.c", ".\\.\\a\\\\", "a/b\\", "\\temp\\x", "C:temp\\"] {
        let rel = safe_rel_on(BACKSLASHES, path).unwrap();
        assert!(!rel.contains('\\'), "{path}");
        assert_eq!(safe_rel_on(BACKSLASHES, &rel).unwrap(), rel, "{path}");
    }
    assert_eq!(safe_rel_on(BACKSLASHES, "\\").unwrap(), "");
}

#[test]
fn paths_that_the_machine_gives_lose_their_mark() {
    assert_eq!(from_machine(BACKSLASHES, "\\\\?\\C:\\mud\\areas"), "C:/mud/areas");
    assert_eq!(from_machine(BACKSLASHES, "\\\\?\\UNC\\server\\share\\x"), "//server/share/x");
    assert_eq!(from_machine(BACKSLASHES, "C:\\mud"), "C:/mud");
    assert_eq!(from_machine(SLASHES, "//?/C:\\mud"), "//?/C:\\mud");
    assert_eq!(to_machine(BACKSLASHES, "C:"), "C:/");
    assert_eq!(to_machine(BACKSLASHES, "C:/mud"), "C:/mud");
    assert_eq!(to_machine(SLASHES, "C:"), "C:");
}

#[test]
fn absolute_argument_is_taken_by_where_it_lies() {
    let found = || located("\\\\?\\C:\\mud", "\\\\?\\C:\\mud\\areas\\x.c");
    assert_eq!(
        safe_arg_on(BACKSLASHES, "C:/mud", "C:\\mud\\areas\\x.c", found()).unwrap(),
        "areas/x.c"
    );
    assert_eq!(
        normalize_pull_arg_on(BACKSLASHES, "C:/mud", "C:\\mud\\areas\\x.c", found()).unwrap(),
        "areas/x.c"
    );
    assert_eq!(
        resolve_scoped_cli_path_on(BACKSLASHES, "C:/mud", "C:\\mud\\areas\\x.c", found()).unwrap(),
        SyncScope::Path("areas/x.c".to_string())
    );
    let elsewhere = located("\\\\?\\C:\\mud", "\\\\?\\C:\\other\\x.c");
    assert!(safe_arg_on(BACKSLASHES, "C:/mud", "C:\\other\\x.c", elsewhere).is_err());
    assert!(normalize_pull_arg_on(BACKSLASHES, "C:/mud", "C:\\other\\x.c", unlocated()).is_err());
    assert_eq!(
        normalize_pull_arg_on(BACKSLASHES, "C:/mud", "areas\\x.c", unlocated()).unwrap(),
        "areas/x.c"
    );
}

#[test]
fn pushed_file_may_be_named_as_the_machine_does() {
    let push = |platform, input| {
        push_one_on(platform, input, false, ExecutionMode::Apply, "C:/mud", "/")
    };
    assert_eq!(push(BACKSLASHES, "areas\\x.c").unwrap().rel, "areas/x.c");
    assert_eq!(push(SLASHES, "areas\\x.c").unwrap().rel, "areas\\x.c");
    assert!(push(BACKSLASHES, "..\\x.c").is_err());
}
