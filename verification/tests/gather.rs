//! The targets of the unscoped commands, gathered from both trees.

use ferry::commands::Command;
use ferry::error::Error;
use ferry::ftp::{Entry, Timestamp};
use ferry::gather::{GatherPhase, Gathering, LocalKind};
use ferry::order::PathSet;
use ferry::scope::ExecutionMode;
use ferry::walk::{LocalItem, LocalWalk, RemoteWalk, WalkPhase};

/// Files below both roots, by relative path, and what is ignored.
struct Trees {
    local: Vec<&'static str>,
    remote: Vec<&'static str>,
    links: Vec<&'static str>,
    ignored: Vec<&'static str>,
    unlisted: bool,
}

fn below<'a>(dir: &str, path: &'a str) -> Option<(&'a str, bool)> {
    let rest = if dir.is_empty() { path } else { path.strip_prefix(dir)?.strip_prefix('/')? };
    match rest.split_once('/') {
        Some((name, _)) => Some((name, true)),
        None => Some((rest, false)),
    }
}

fn children<'a>(dir: &str, paths: &[&'a str]) -> Vec<(&'a str, bool)> {
    let mut out: Vec<(&str, bool)> = Vec::new();
    for path in paths {
        if let Some(child) = below(dir, path) {
            if !out.contains(&child) {
                out.push(child);
            }
        }
    }
    out
}

fn joined(dir: &str, name: &str) -> String {
    if dir.is_empty() {
        name.to_string()
    } else {
        format!("{dir}/{name}")
    }
}

fn relative(root: &str, path: &str) -> String {
    path.strip_prefix(root).unwrap_or(path).trim_start_matches('/').to_string()
}

impl Trees {
    fn new() -> Self {
        Trees {
            local: vec!["areas/x.c", "areas/x.tmp", "only_local.c", "same.c"],
            remote: vec!["areas/y.c", "only_remote.c", "same.c"],
            links: Vec::new(),
            ignored: vec!["areas/x.tmp"],
            unlisted: false,
        }
    }

    fn is_ignored(&self, rel: &str) -> bool {
        self.ignored.iter().any(|path| *path == rel)
    }

    fn kind(&self, rel: &str) -> LocalKind {
        if self.local.iter().any(|path| *path == rel) {
            LocalKind::File
        } else if !children(rel, &self.local).is_empty() {
            LocalKind::Directory
        } else {
            LocalKind::Other
        }
    }

    fn local_walk(&self, mut walk: LocalWalk) -> LocalWalk {
        while !walk.done {
            if self.unlisted {
                walk.on_listing(Err(Error::failure("no access".to_string())));
                continue;
            }
            let sub = walk.sub.clone();
            let items = children(&sub, &self.local)
                .into_iter()
                .map(|(name, is_dir)| {
                    Ok(LocalItem {
                        name: name.to_string(),
                        is_dir,
                        ignored: self.is_ignored(&joined(&sub, name)),
                    })
                })
                .collect();
            walk.on_listing(Ok(items));
        }
        walk
    }

    fn listing(&self, dir: &str) -> Result<Vec<Entry>, Error> {
        let rel = relative("/root", dir);
        let mut all = self.remote.clone();
        all.extend(self.links.iter());
        let found = children(&rel, &all);
        if found.is_empty() {
            return Err(Error::failure("550".to_string()));
        }
        Ok(found
            .into_iter()
            .map(|(name, is_dir)| Entry {
                name: name.to_string(),
                is_dir,
                is_symlink: self.links.iter().any(|link| *link == joined(&rel, name)),
                size: 1,
                modified: Timestamp { secs: 0, nanos: 0 },
            })
            .collect())
    }

    fn remote_walk(&self, mut walk: RemoteWalk) -> RemoteWalk {
        loop {
            match walk.phase {
                WalkPhase::Size | WalkPhase::Fallback => {
                    let rel = relative("/root", &walk.target());
                    walk.on_size(self.remote.iter().any(|path| *path == rel));
                }
                WalkPhase::Parent => {
                    let listing = self.listing(&walk.parent()).ok();
                    walk.on_parent(listing);
                }
                WalkPhase::List => {
                    let listing = self.listing(&walk.at_dir);
                    walk.on_listing(listing);
                }
                WalkPhase::Done => return walk,
            }
        }
    }

    fn gathered(&self, command: Command, arguments: &[&str]) -> (Gathering, Vec<String>) {
        let arguments = arguments.iter().map(|path| path.to_string()).collect();
        let remembered = vec!["gone.c".to_string(), "same.c".to_string()];
        let mut gathering = Gathering::gather(command, "/mud", "/root", arguments, remembered);
        let mut said = Vec::new();
        loop {
            said.extend(gathering.take_lines().into_iter().map(|line| line.text));
            match gathering.phase {
                GatherPhase::Look => {
                    let rel = gathering.current();
                    gathering.on_look(self.kind(&rel), self.is_ignored(&rel));
                }
                GatherPhase::Local => {
                    let walk = gathering.begin_local();
                    gathering.on_local(self.local_walk(walk));
                }
                GatherPhase::Remote => {
                    let walk = gathering.begin_remote();
                    gathering.on_remote(self.remote_walk(walk));
                }
                GatherPhase::Ignored => {
                    let flags = list(&gathering.candidates)
                        .iter()
                        .map(|path| self.is_ignored(path))
                        .collect();
                    gathering.on_ignored(&flags);
                }
                GatherPhase::Done => return (gathering, said),
            }
        }
    }
}

fn list(paths: &PathSet) -> Vec<String> {
    (0..paths.len()).map(|i| paths.key(i).clone()).collect()
}

#[test]
fn whole_pull_takes_both_trees_and_what_is_remembered() {
    let mut trees = Trees::new();
    trees.ignored.push("only_remote.c");
    let (gathering, said) = trees.gathered(Command::Pull, &[]);
    assert!(said.is_empty());
    assert_eq!(
        list(&gathering.targets),
        vec!["areas/x.c", "areas/y.c", "gone.c", "only_local.c", "only_remote.c", "same.c"]
    );
}

#[test]
fn whole_push_leaves_out_what_is_ignored() {
    let mut trees = Trees::new();
    trees.ignored.push("only_remote.c");
    trees.ignored.push("gone.c");
    let (gathering, _) = trees.gathered(Command::Push, &[]);
    assert_eq!(
        list(&gathering.targets),
        vec!["areas/x.c", "areas/y.c", "only_local.c", "same.c"]
    );
    let (sync, _) = trees.gathered(Command::Sync, &[]);
    assert!(sync.targets.contains("only_remote.c"));
    assert!(sync.targets.contains("gone.c"));
}

#[test]
fn pull_arguments_stand_for_what_lies_at_or_below_them() {
    let (gathering, said) = Trees::new().gathered(Command::Pull, &["areas/", "same.c", "nope.c"]);
    assert_eq!(list(&gathering.targets), vec!["areas/x.c", "areas/y.c", "same.c"]);
    assert_eq!(said, vec!["skip (not on local or remote): nope.c"]);
}

#[test]
fn repeated_pull_argument_brings_nothing_new() {
    let (gathering, said) = Trees::new().gathered(Command::Pull, &["only_local.c", "only_local.c"]);
    assert_eq!(list(&gathering.targets), vec!["only_local.c"]);
    assert_eq!(said, vec!["skip (not on local or remote): only_local.c"]);
}

#[test]
fn ignored_local_file_is_passed_over_by_a_pull_and_dropped_by_a_push() {
    let trees = Trees::new();
    let (pull, said) = trees.gathered(Command::Pull, &["areas/x.tmp"]);
    assert_eq!(pull.targets.len(), 0);
    assert_eq!(pull.local.len(), 0);
    assert_eq!(said, vec!["skip (not on local or remote): areas/x.tmp"]);

    let (push, said) = trees.gathered(Command::Push, &["areas/x.tmp"]);
    assert_eq!(push.targets.len(), 0);
    assert_eq!(list(&push.local), vec!["areas/x.tmp"]);
    assert!(said.is_empty());
}

#[test]
fn push_arguments_forget_what_is_remembered_and_gather_symlinks() {
    let mut trees = Trees::new();
    trees.links.push("areas/link.c");
    let (push, _) = trees.gathered(Command::Push, &["areas"]);
    assert_eq!(list(&push.targets), vec!["areas/x.c", "areas/y.c"]);
    assert_eq!(list(&push.symlinks), vec!["areas/link.c"]);
    let (pull, _) = trees.gathered(Command::Pull, &["areas"]);
    assert_eq!(pull.symlinks.len(), 0);
}

#[test]
fn unreadable_local_tree_ends_the_gathering() {
    let mut trees = Trees::new();
    trees.unlisted = true;
    let (gathering, _) = trees.gathered(Command::Sync, &[]);
    let failure = gathering.begin(false, ExecutionMode::Apply).err().unwrap();
    assert_eq!(failure.full_message(), "reading local dir /mud: no access");
}

#[test]
fn gathered_command_starts_at_its_first_target() {
    let (gathering, _) = Trees::new().gathered(Command::Push, &["same.c", "only_local.c"]);
    let run = gathering.begin(true, ExecutionMode::DryRun).unwrap();
    assert_eq!(run.target(), "only_local.c");
    assert_eq!(run.targets, vec!["only_local.c", "same.c"]);
    assert!(run.force);
}
