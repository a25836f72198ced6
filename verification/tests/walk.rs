//! Walks over both trees, and the arguments they start from.

use ferry::error::Error;
use ferry::ftp::{Entry, Timestamp};
use ferry::order::PathSet;
use ferry::walk::{
    child_name, collect_remote_arg, collect_remote_arg_with_symlinks, is_under, leaf_is_symlink,
    remote_join, safe_arg, safe_rel, walk_local, walk_remote, walk_remote_with_symlinks,
    CanonicalPaths, LocalItem, RemoteWalk, WalkPhase,
};
use std::collections::{BTreeMap, BTreeSet};

#[derive(Clone, Copy, PartialEq)]
enum Echo {
    /// Echoes the argument it was given, verbatim.
    AbsolutePath,
    /// Replies with the file's bare basename.
    Basename,
    /// Refuses to list anything but a directory.
    Error,
}

struct Fake {
    dirs: BTreeMap<String, Vec<(String, bool)>>,
    files: Vec<String>,
    echo: Echo,
    supports_size: bool,
    empty_listings: bool,
    inject: BTreeMap<String, Vec<(String, bool)>>,
    links: BTreeSet<String>,
    listed: Vec<String>,
}

fn entry(name: &str, is_dir: bool) -> Entry {
    Entry {
        name: name.to_string(),
        is_dir,
        is_symlink: false,
        size: 1,
        modified: Timestamp { secs: 1785456000, nanos: 0 },
    }
}

impl Fake {
    fn new(echo: Echo) -> Self {
        let mut dirs: BTreeMap<String, Vec<(String, bool)>> = BTreeMap::new();
        dirs.insert(
            "/root".into(),
            vec![
                ("a.txt".into(), false),
                ("sub".into(), true),
                ("finger_d.20260729".into(), false),
            ],
        );
        dirs.insert("/root/sub".into(), vec![("b.txt".into(), false)]);
        Self {
            dirs,
            files: vec![
                "/root/a.txt".into(),
                "/root/finger_d.20260729".into(),
                "/root/sub/b.txt".into(),
            ],
            echo,
            supports_size: true,
            empty_listings: false,
            inject: BTreeMap::new(),
            links: BTreeSet::new(),
            listed: Vec::new(),
        }
    }

    fn listing(&self, dir: &str) -> Result<Vec<Entry>, Error> {
        if self.empty_listings {
            return Ok(Vec::new());
        }
        if let Some(children) = self.dirs.get(dir) {
            let mut out: Vec<Entry> = children.iter().map(|(n, d)| entry(n, *d)).collect();
            if let Some(extra) = self.inject.get(dir) {
                out.extend(extra.iter().map(|(n, d)| entry(n, *d)));
            }
            for found in out.iter_mut() {
                found.is_symlink = self.links.contains(&found.name);
            }
            return Ok(out);
        }
        if self.files.iter().any(|f| f == dir) {
            return match self.echo {
                Echo::AbsolutePath => Ok(vec![entry(dir, false)]),
                Echo::Basename => {
                    let base = dir.rsplit('/').next().unwrap_or(dir);
                    Ok(vec![entry(base, false)])
                }
                Echo::Error => Err(Error::failure(format!("550 {dir}: Not a directory"))),
            };
        }
        Err(Error::failure(format!("550 {dir}: No such file or directory")))
    }

    fn list_dir(&mut self, dir: &str) -> Result<Vec<Entry>, Error> {
        self.listed.push(dir.to_string());
        self.listing(dir)
    }

    fn has_size(&self, path: &str) -> bool {
        self.supports_size && self.files.iter().any(|f| f == path)
    }
}

fn drive(f: &mut Fake, mut run: RemoteWalk) -> RemoteWalk {
    loop {
        match run.phase {
            WalkPhase::Size | WalkPhase::Fallback => {
                let known = f.has_size(&run.target());
                run.on_size(known);
            }
            WalkPhase::Parent => {
                let parent = run.parent();
                let listing = f.list_dir(&parent).ok();
                run.on_parent(listing);
            }
            WalkPhase::List => {
                let dir = run.at_dir.clone();
                let listing = f.list_dir(&dir);
                run.on_listing(listing);
            }
            WalkPhase::Done => return run,
        }
    }
}

fn paths(found: &PathSet) -> Vec<String> {
    (0..found.len()).map(|i| found.key(i).clone()).collect()
}

fn walk(f: &mut Fake, sub: &str) -> Result<Vec<String>, Error> {
    let run = drive(f, walk_remote("/root", sub, PathSet::new()));
    match run.failure {
        Some(e) => Err(e),
        None => Ok(paths(&run.trail.found)),
    }
}

fn collect(f: &mut Fake, rel: &str) -> (usize, Vec<String>) {
    let run = drive(f, collect_remote_arg("/root", rel, PathSet::new()));
    assert!(run.failure.is_none());
    (run.found_count(), paths(&run.trail.found))
}

#[test]
fn walks_whole_tree_from_root() {
    let mut f = Fake::new(Echo::AbsolutePath);
    let out = walk(&mut f, "").unwrap();
    assert_eq!(out, vec!["a.txt", "finger_d.20260729", "sub/b.txt"]);
}

#[test]
fn preserves_slash_as_the_ftp_root() {
    let mut f = Fake::new(Echo::AbsolutePath);
    f.dirs.clear();
    f.dirs.insert("/".into(), vec![("players".into(), true)]);
    f.dirs.insert("/players".into(), vec![("skuggis".into(), true)]);
    f.dirs.insert("/players/skuggis".into(), vec![("castle.c".into(), false)]);
    f.files = vec!["/players/skuggis/castle.c".into()];

    let run = drive(&mut f, walk_remote("/", "", PathSet::new()));

    assert!(run.failure.is_none());
    assert_eq!(paths(&run.trail.found), vec!["players/skuggis/castle.c"]);
    assert_eq!(f.listed.first().map(String::as_str), Some("/"));
}

#[test]
fn walks_a_subdirectory_arg() {
    let mut f = Fake::new(Echo::AbsolutePath);
    let out = walk(&mut f, "sub").unwrap();
    assert_eq!(out, vec!["sub/b.txt"]);
}

#[test]
fn file_arg_yields_the_file_on_proftpd() {
    let mut f = Fake::new(Echo::AbsolutePath);
    let out = walk(&mut f, "finger_d.20260729").unwrap();
    assert_eq!(out, vec!["finger_d.20260729"]);
}

#[test]
fn file_arg_yields_the_file_on_vsftpd() {
    let mut f = Fake::new(Echo::Basename);
    let out = walk(&mut f, "a.txt").unwrap();
    assert_eq!(out, vec!["a.txt"]);
}

#[test]
fn file_arg_yields_the_file_when_list_refuses_non_directories() {
    let mut f = Fake::new(Echo::Error);
    let out = walk(&mut f, "a.txt").unwrap();
    assert_eq!(out, vec!["a.txt"]);
}

#[test]
fn nested_file_arg_yields_the_file() {
    let mut f = Fake::new(Echo::AbsolutePath);
    let out = walk(&mut f, "sub/b.txt").unwrap();
    assert_eq!(out, vec!["sub/b.txt"]);
}

#[test]
fn file_arg_never_produces_a_doubled_path() {
    for echo in [Echo::AbsolutePath, Echo::Basename, Echo::Error] {
        let mut f = Fake::new(echo);
        let out = walk(&mut f, "sub/b.txt").unwrap();
        assert!(
            !out.iter().any(|p| p.contains("b.txt/b.txt")),
            "doubled path in {out:?}"
        );
    }
}

#[test]
fn file_arg_is_resolved_by_size_probe_without_listing() {
    let mut f = Fake::new(Echo::AbsolutePath);
    let _ = walk(&mut f, "a.txt").unwrap();
    assert!(
        f.listed.is_empty(),
        "should not have listed anything, listed: {:?}",
        f.listed
    );
}

#[test]
fn file_arg_still_resolves_without_size_support() {
    let mut f = Fake::new(Echo::AbsolutePath);
    f.supports_size = false;
    let out = walk(&mut f, "finger_d.20260729").unwrap();
    assert_eq!(out, vec!["finger_d.20260729"]);
}

#[test]
fn missing_path_is_an_error_at_top_level() {
    let mut f = Fake::new(Echo::AbsolutePath);
    let error = walk(&mut f, "nope.txt").unwrap_err();
    assert_eq!(error.message, "walking remote dir /root/nope.txt");
}

#[test]
fn absolute_names_inside_root_are_accepted() {
    let mut f = Fake::new(Echo::AbsolutePath);
    f.dirs.insert(
        "/root".into(),
        vec![("/root/a.txt".into(), false), ("/root/sub".into(), true)],
    );
    let out = walk(&mut f, "").unwrap();
    assert_eq!(out, vec!["a.txt", "sub/b.txt"]);
}

#[test]
fn names_escaping_the_root_are_rejected() {
    let mut f = Fake::new(Echo::AbsolutePath);
    f.inject.insert(
        "/root".into(),
        vec![
            ("/etc/passwd".into(), false),
            ("../outside.txt".into(), false),
        ],
    );
    let out = walk(&mut f, "").unwrap();
    assert!(
        !out.iter()
            .any(|p| p.contains("passwd") || p.contains("outside")),
        "escaped the root: {out:?}"
    );
    // The legitimate entries are still walked.
    assert!(out.contains(&"a.txt".to_string()));
}

#[test]
fn parent_traversal_via_absolute_prefix_is_rejected() {
    let mut f = Fake::new(Echo::AbsolutePath);
    f.inject
        .insert("/root".into(), vec![("/rootless/evil.txt".into(), false)]);
    let out = walk(&mut f, "").unwrap();
    assert!(
        !out.iter().any(|p| p.contains("evil")),
        "prefix-matched its way out of the root: {out:?}"
    );
}

#[test]
fn collect_resolves_a_directory_arg() {
    let mut f = Fake::new(Echo::AbsolutePath);
    let (n, out) = collect(&mut f, "sub");
    assert_eq!(n, 1);
    assert_eq!(out, vec!["sub/b.txt"]);
}

#[test]
fn collect_resolves_a_file_arg_on_every_server_flavour() {
    for echo in [Echo::AbsolutePath, Echo::Basename, Echo::Error] {
        let mut f = Fake::new(echo);
        let (n, out) = collect(&mut f, "finger_d.20260729");
        assert_eq!(n, 1, "echo variant lost the file");
        assert_eq!(out, vec!["finger_d.20260729"]);
    }
}

#[test]
fn collect_falls_back_when_the_walk_succeeds_but_finds_nothing() {
    let mut f = Fake::new(Echo::AbsolutePath);
    f.empty_listings = true;
    let (n, out) = collect(&mut f, "a.txt");
    assert_eq!(n, 1, "SIZE fallback did not fire on an empty Ok walk");
    assert!(out.contains(&"a.txt".to_string()));

    // The first size request is refused, the second is answered.
    let mut run = collect_remote_arg("/root", "a.txt", PathSet::new());
    run.on_size(false);
    run.on_listing(f.list_dir("/root/a.txt"));
    assert_eq!(run.phase, WalkPhase::Fallback);
    run.on_size(f.has_size("/root/a.txt"));

    assert_eq!(run.phase, WalkPhase::Done);
    assert_eq!(run.found_count(), 1, "SIZE fallback did not fire on an empty Ok walk");
    assert!(run.trail.found.contains("a.txt"));
}

#[test]
fn collect_reports_nothing_for_a_path_on_neither_side() {
    let mut f = Fake::new(Echo::AbsolutePath);
    let (n, out) = collect(&mut f, "nope.txt");
    assert_eq!(n, 0);
    assert!(out.is_empty());
}

#[test]
fn collect_does_not_invent_an_entry_for_an_empty_directory() {
    let mut f = Fake::new(Echo::AbsolutePath);
    f.dirs.insert("/root/empty".into(), Vec::new());
    let (n, out) = collect(&mut f, "empty");
    assert_eq!(n, 0);
    assert!(out.is_empty());
}

#[test]
fn broken_subdirectory_does_not_abort_the_walk() {
    let mut f = Fake::new(Echo::AbsolutePath);
    f.inject
        .insert("/root".into(), vec![("brokendir".into(), true)]);
    let run = drive(&mut f, walk_remote("/root", "", PathSet::new()));
    let out = paths(&run.trail.found);
    assert!(run.failure.is_none());
    assert!(out.contains(&"a.txt".to_string()), "walk aborted early: {out:?}");
    assert_eq!(
        run.trail.warnings,
        vec![
            "warning: skipping remote dir /root/brokendir: 550 /root/brokendir: No such file or directory"
        ]
    );
}

#[test]
fn walks_list_directories_in_the_order_in_which_they_are_met() {
    let mut f = Fake::new(Echo::AbsolutePath);
    f.dirs.clear();
    f.dirs.insert(
        "/root".into(),
        vec![("b".into(), true), ("x".into(), false), ("a".into(), true)],
    );
    f.dirs.insert("/root/b".into(), vec![("c".into(), true)]);
    f.dirs.insert("/root/b/c".into(), vec![("y".into(), false)]);
    f.dirs.insert("/root/a".into(), vec![]);

    assert_eq!(walk(&mut f, "").unwrap(), vec!["b/c/y", "x"]);
    assert_eq!(f.listed, vec!["/root", "/root/b", "/root/b/c", "/root/a"]);
}

#[test]
fn walks_pass_over_symlinks_and_say_so() {
    let mut f = Fake::new(Echo::AbsolutePath);
    f.inject.insert("/root".into(), vec![("link".into(), true)]);
    f.links.insert("link".into());
    let run = drive(
        &mut f,
        walk_remote_with_symlinks("/root", "", PathSet::new(), PathSet::new()),
    );

    assert_eq!(paths(&run.trail.symlinks), vec!["link"]);
    assert!(!run.trail.found.contains("link"));
    assert_eq!(f.listed, vec!["/root", "/root/sub"]);
    assert_eq!(
        run.trail.warnings,
        vec!["warning: skipping remote symlink \"link\" in /root: not following it, the target can resolve outside the remote root"]
    );
}

#[test]
fn a_named_symlink_is_told_from_a_file() {
    let mut f = Fake::new(Echo::AbsolutePath);
    f.links.insert("a.txt".into());
    let run = drive(
        &mut f,
        collect_remote_arg_with_symlinks("/root", "a.txt", PathSet::new(), PathSet::new()),
    );
    assert_eq!(paths(&run.trail.symlinks), vec!["a.txt"]);
    assert_eq!(run.found_count(), 0);

    f.links.clear();
    let run = drive(
        &mut f,
        collect_remote_arg_with_symlinks("/root", "a.txt", PathSet::new(), PathSet::new()),
    );
    assert_eq!(paths(&run.trail.found), vec!["a.txt"]);
}

#[test]
fn what_is_already_known_is_not_counted_again() {
    let mut f = Fake::new(Echo::AbsolutePath);
    let mut known = PathSet::new();
    known.insert("sub/b.txt".to_string());
    let run = drive(&mut f, collect_remote_arg("/root", "sub", known));
    assert_eq!(run.found_count(), 0);
    assert_eq!(paths(&run.trail.found), vec!["sub/b.txt"]);
}

#[test]
fn replies_out_of_turn_change_nothing() {
    let mut run = walk_remote("/root", "sub", PathSet::new());
    run.on_listing(Ok(vec![entry("x", false)]));
    run.on_parent(None);
    assert_eq!(run.phase, WalkPhase::Size);
    assert_eq!(run.trail.found.len(), 0);
}

#[test]
fn the_leaf_of_a_path_is_looked_up_in_its_directory() {
    let mut link = entry("x", false);
    link.is_symlink = true;
    assert_eq!(leaf_is_symlink("/root", "/root/x", &Some(vec![link])), Some(true));
    assert_eq!(
        leaf_is_symlink("/root", "/root/x", &Some(vec![entry("x", false)])),
        Some(false)
    );
    assert_eq!(
        leaf_is_symlink("/root", "/root/x", &Some(vec![entry("y", false)])),
        None
    );
    assert_eq!(leaf_is_symlink("/root", "/root/x", &None), None);
}

#[test]
fn listed_names_are_direct_children_or_nothing() {
    assert_eq!(child_name("/root", "/root/a", "x").as_deref(), Some("x"));
    assert_eq!(child_name("/root", "/root/a", "/root/a/x").as_deref(), Some("x"));
    assert_eq!(child_name("/root", "/root/a", "/root/a/x/y"), None);
    assert_eq!(child_name("/root", "/root/a", "/root/ax"), None);
    assert_eq!(child_name("/root", "/root/a", "b/x"), None);
    assert_eq!(child_name("/root", "/root/a", ".."), None);
    assert_eq!(child_name("/root", "/elsewhere", "/elsewhere/x"), None);
    assert!(is_under("/", "/anything"));
    assert!(is_under("/root/", "/root"));
    assert!(!is_under("/root", "/rootless"));
}

#[test]
fn remote_paths_are_joined_with_one_slash() {
    assert_eq!(remote_join("/root/", "a/b"), "/root/a/b");
    assert_eq!(remote_join("/", "a"), "/a");
    assert_eq!(remote_join("pub", "a"), "pub/a");
}

#[test]
fn safe_rel_normalizes_and_strips_dot_slash_and_trailing_slash() {
    assert_eq!(safe_rel("./src/x.html").unwrap(), "src/x.html");
    assert_eq!(safe_rel("src/old/").unwrap(), "src/old");
    assert_eq!(safe_rel("notes.txt").unwrap(), "notes.txt");
}

#[test]
fn safe_rel_rejects_empty() {
    assert!(safe_rel("").is_err());
    assert!(safe_rel("./").is_err());
}

#[test]
fn safe_rel_rejects_absolute() {
    assert!(safe_rel("/etc/passwd").is_err());
}

#[test]
fn safe_rel_rejects_parent_segments() {
    assert!(safe_rel("../escape").is_err());
    assert!(safe_rel("a/../../b").is_err());
    assert_eq!(
        safe_rel("../escape").unwrap_err().message,
        "refusing path \"../escape\": must be a relative path under local_root with no '..' segments"
    );
}

#[test]
fn absolute_arg_inside_root_becomes_relative() {
    let located = CanonicalPaths {
        root: "/tmp/project".to_string(),
        path: "/tmp/project/sub/file.c".to_string(),
    };
    assert_eq!(
        safe_arg("/tmp/project", "/tmp/project/sub/file.c", Ok(located)).unwrap(),
        "sub/file.c"
    );
}

#[test]
fn absolute_arg_outside_root_is_rejected() {
    let located = CanonicalPaths {
        root: "/tmp/project".to_string(),
        path: "/tmp/other/file.c".to_string(),
    };
    assert!(safe_arg("/tmp/project", "/tmp/other/file.c", Ok(located)).is_err());
    let missing = Err(Error::failure("no such file".to_string()));
    assert!(safe_arg("/tmp/project", "/tmp/project/gone", missing).is_err());
}

fn item(name: &str, is_dir: bool, ignored: bool) -> Result<LocalItem, Error> {
    Ok(LocalItem { name: name.to_string(), is_dir, ignored })
}

#[test]
fn local_walks_skip_what_is_ignored_and_the_state_directory() {
    let mut run = walk_local("/home/project", "", PathSet::new());
    assert_eq!(run.dir, "/home/project");
    run.on_listing(Ok(vec![
        item("a", true, false),
        item(".ferry", true, false),
        item("b.c", false, false),
        item("c.o", false, true),
    ]));
    assert_eq!(run.dir, "/home/project/a");
    run.on_listing(Ok(vec![item(".ferry", false, false), item("d.c", false, false)]));
    assert!(run.done);
    assert!(run.failure.is_none());
    assert_eq!(paths(&run.trail.found), vec!["a/.ferry", "a/d.c", "b.c"]);
}

#[test]
fn local_walks_end_at_the_first_failure() {
    let mut run = walk_local("/home/project", "", PathSet::new());
    run.on_listing(Ok(vec![
        item("a", true, false),
        Err(Error::failure("broken".to_string())),
    ]));
    run.on_listing(Err(Error::failure("denied".to_string())));
    assert!(run.done);
    assert_eq!(
        run.failure.unwrap().full_message(),
        "reading local dir /home/project/a: denied"
    );

    let mut run = walk_local("/home/project", "", PathSet::new());
    run.on_listing(Ok(vec![Err(Error::failure("broken".to_string()))]));
    assert_eq!(
        run.failure.unwrap().full_message(),
        "walking local dir /home/project: broken"
    );
}
