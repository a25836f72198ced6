//! The paths that the unscoped commands work on.

use ferry::error::Error;
use ferry::order::PathSet;
use ferry::targets::{
    add_local_file, add_targets, all_targets, keep_targets, normalize_pull_arg, nothing_found,
    pull_candidates,
};
use ferry::walk::CanonicalPaths;

fn set(paths: &[&str]) -> PathSet {
    let mut out = PathSet::new();
    for path in paths {
        out.insert(path.to_string());
    }
    out
}

fn list(paths: &PathSet) -> Vec<String> {
    (0..paths.len()).map(|i| paths.key(i).clone()).collect()
}

fn unlocated() -> Result<CanonicalPaths, Error> {
    Err(Error::failure("no such file".to_string()))
}

#[test]
fn absolute_remote_directory_is_relative_to_remote_root() {
    assert_eq!(
        normalize_pull_arg("/tmp/project", "/players/shaman/", unlocated()).unwrap(),
        "players/shaman"
    );
}

#[test]
fn absolute_local_path_inside_root_stays_local_relative() {
    let located = Ok(CanonicalPaths {
        root: "/tmp/project".to_string(),
        path: "/tmp/project/players".to_string(),
    });
    assert_eq!(
        normalize_pull_arg("/tmp/project", "/tmp/project/players", located).unwrap(),
        "players"
    );
}

#[test]
fn absolute_remote_parent_traversal_is_rejected() {
    assert!(normalize_pull_arg("/tmp/project", "/players/../outside", unlocated()).is_err());
    let located = Ok(CanonicalPaths {
        root: "/tmp/project".to_string(),
        path: "/outside".to_string(),
    });
    assert!(normalize_pull_arg("/tmp/project", "/players/../outside", located).is_err());
}

#[test]
fn targets_are_everything_that_is_known_in_order() {
    let all = all_targets(
        &set(&["b", "a"]),
        &set(&["c", "a"]),
        &vec!["d".to_string(), "b".to_string()],
    );
    assert_eq!(list(&all), vec!["a", "b", "c", "d"]);
    assert_eq!(keep_targets(&all, &vec![false, true]), vec!["a", "c", "d"]);
    assert_eq!(keep_targets(&all, &Vec::new()), vec!["a", "b", "c", "d"]);
}

#[test]
fn an_argument_stands_for_itself_and_what_lies_below_it() {
    let local = set(&["areas", "areas/x.c", "areastwo/y.c"]);
    let remote = set(&["areas/z.c", "other"]);
    let candidates = pull_candidates("areas", &local, &remote);
    assert_eq!(list(&candidates), vec!["areas", "areas/x.c", "areas/z.c"]);

    let mut targets = set(&["kept"]);
    add_targets(&mut targets, &candidates, &vec![true]);
    assert_eq!(list(&targets), vec!["areas/x.c", "areas/z.c", "kept"]);
}

#[test]
fn a_local_file_counts_once_and_not_if_it_is_ignored() {
    let mut found = PathSet::new();
    assert_eq!(add_local_file(&mut found, "x", true), 0);
    assert_eq!(found.len(), 0);
    assert_eq!(add_local_file(&mut found, "x", false), 1);
    assert_eq!(add_local_file(&mut found, "x", false), 0);
    assert_eq!(list(&found), vec!["x"]);
    let line = nothing_found("y");
    assert!(line.to_stderr);
    assert_eq!(line.text, "skip (not on local or remote): y");
}
