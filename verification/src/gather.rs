//! The targets of the unscoped commands: which walks an argument takes, what it stands
//! for, and what is left once the ignored paths are gone.

use crate::commands::{Command, CommandRun};
use crate::commands;
use crate::error::Error;
use crate::error;
use crate::inventory;
use crate::order::PathSet;
use crate::order;
use crate::paths;
use crate::scope::ExecutionMode;
use crate::sync::outcome::{LineView, OutputLine};
use crate::sync::outcome;
use crate::targets;
use crate::text;
use crate::walk::{LocalWalk, LocalWalkView, RemoteWalk, WalkView};
use crate::walk;
use vstd::prelude::*;

verus! {

broadcast use vstd::seq::group_seq_axioms;

/// What is at the local path that an argument names, symlinks followed.
#[derive(Debug, Clone, Copy, PartialEq, Eq, Structural)]
pub enum LocalKind {
    Directory,
    File,
    /// Nothing, or nothing of use.
    Other,
}

/// What the gathering of targets waits for.
#[derive(Debug, Clone, Copy, PartialEq, Eq, Structural)]
pub enum GatherPhase {
    /// What is at the local path of the argument.
    Look,
    /// A walk of the local tree.
    Local,
    /// A walk of the remote tree.
    Remote,
    /// Which of the candidates are ignored.
    Ignored,
    Done,
}

/// The gathering of the targets of a command. Without arguments it takes the whole
/// trees.
#[derive(Debug)]
pub struct Gathering {
    pub command: Command,
    pub local_root: String,
    pub remote_root: String,
    pub arguments: Vec<String>,
    pub remembered: Vec<String>,
    pub at: usize,
    pub local: PathSet,
    pub remote: PathSet,
    pub symlinks: PathSet,
    pub before: usize,
    pub brought: bool,
    pub targets: PathSet,
    pub candidates: PathSet,
    pub phase: GatherPhase,
    pub lines: Vec<OutputLine>,
    pub failure: Option<Error>,
}

/// What a gathering of targets says. `before` is how many local paths there were
/// before the walk under way, and `brought` tells whether the argument brought a path
/// that was not known.
pub struct GatherView {
    pub command: Command,
    pub local_root: Seq<char>,
    pub remote_root: Seq<char>,
    pub arguments: Seq<Seq<char>>,
    pub remembered: Seq<Seq<char>>,
    pub at: nat,
    pub local: Set<Seq<char>>,
    pub remote: Set<Seq<char>>,
    pub symlinks: Set<Seq<char>>,
    pub before: nat,
    pub brought: bool,
    pub targets: Set<Seq<char>>,
    pub candidates: Set<Seq<char>>,
    pub phase: GatherPhase,
    pub lines: Seq<LineView>,
    pub failure: Option<error::ErrorView>,
}

impl View for Gathering {
    type V = GatherView;

    open spec fn view(&self) -> GatherView {
        GatherView {
            command: self.command,
            local_root: self.local_root@,
            remote_root: self.remote_root@,
            arguments: text::views(self.arguments@),
            remembered: text::views(self.remembered@),
            at: self.at as nat,
            local: self.local@,
            remote: self.remote@,
            symlinks: self.symlinks@,
            before: self.before as nat,
            brought: self.brought,
            targets: self.targets@,
            candidates: self.candidates@,
            phase: self.phase,
            lines: text::views(self.lines@),
            failure: match self.failure {
                Some(e) => Some(e@),
                None => None,
            },
        }
    }
}

impl GatherView {
    /// Whether the whole trees are taken.
    pub open spec fn whole(self) -> bool {
        self.arguments.len() == 0
    }

    /// The argument that is being looked at, without slashes at its end in a pull; the
    /// root where the whole trees are taken.
    pub open spec fn current(self) -> Seq<char> {
        if self.whole() {
            Seq::empty()
        } else if self.command == Command::Pull {
            text::trim_end(self.arguments[self.at as int])
        } else {
            self.arguments[self.at as int]
        }
    }

    /// Whether symlinks are gathered too: by every command that writes on the server.
    pub open spec fn gathers_links(self) -> bool {
        self.command != Command::Pull
    }

    /// Every path that is known of: from either side, and from what is remembered
    /// where the whole trees are taken.
    pub open spec fn everything(self) -> Set<Seq<char>> {
        self.local.union(self.remote).union(
            targets::set_of(
                if self.whole() {
                    self.remembered
                } else {
                    Seq::empty()
                },
            ),
        )
    }

    /// The gathering once everything was walked. A push asks which paths are ignored;
    /// the other commands take all of what they walked whole.
    pub open spec fn walked(self) -> GatherView {
        if self.command == Command::Push {
            GatherView { candidates: self.everything(), phase: GatherPhase::Ignored, ..self }
        } else if self.whole() {
            GatherView { targets: self.everything(), phase: GatherPhase::Done, ..self }
        } else {
            GatherView { phase: GatherPhase::Done, ..self }
        }
    }

    /// The gathering at the next argument, or past the last one.
    pub open spec fn next(self) -> GatherView {
        if self.at + 1 < self.arguments.len() {
            GatherView { at: self.at + 1, brought: false, phase: GatherPhase::Look, ..self }
        } else {
            self.walked()
        }
    }

    /// The gathering, ended by a failure.
    pub open spec fn failed(self, failure: error::ErrorView) -> GatherView {
        GatherView { phase: GatherPhase::Done, failure: Some(failure), ..self }
    }
}

/// Where a gathering starts.
pub open spec fn gather_start(
    command: Command,
    local_root: Seq<char>,
    remote_root: Seq<char>,
    arguments: Seq<Seq<char>>,
    remembered: Seq<Seq<char>>,
) -> GatherView {
    GatherView {
        command,
        local_root,
        remote_root,
        arguments,
        remembered,
        at: 0,
        local: Set::empty(),
        remote: Set::empty(),
        symlinks: Set::empty(),
        before: 0,
        brought: false,
        targets: Set::empty(),
        candidates: Set::empty(),
        phase: if arguments.len() == 0 {
            GatherPhase::Local
        } else {
            GatherPhase::Look
        },
        lines: Seq::empty(),
        failure: None,
    }
}

/// Where what is at the local path of an argument leads. A directory is walked. A file
/// is taken as it is, but a pull passes over one that is ignored.
pub open spec fn looked(u: GatherView, kind: LocalKind, ignored: bool) -> GatherView {
    if u.phase != GatherPhase::Look {
        u
    } else {
        match kind {
            LocalKind::Directory => GatherView { phase: GatherPhase::Local, ..u },
            LocalKind::Other => GatherView { phase: GatherPhase::Remote, ..u },
            LocalKind::File => if ignored && u.command == Command::Pull {
                GatherView { phase: GatherPhase::Remote, ..u }
            } else {
                GatherView {
                    local: u.local.insert(u.current()),
                    brought: u.brought || !u.local.contains(u.current()),
                    phase: GatherPhase::Remote,
                    ..u
                }
            },
        }
    }
}

/// The gathering while its local paths are with a walk.
pub open spec fn lent_local(u: GatherView) -> GatherView {
    GatherView { local: Set::empty(), before: u.local.len(), ..u }
}

/// The gathering while its remote paths, and its symlinks where it gathers them, are
/// with a walk.
pub open spec fn lent_remote(u: GatherView) -> GatherView {
    GatherView {
        remote: Set::empty(),
        symlinks: if u.gathers_links() {
            Set::empty()
        } else {
            u.symlinks
        },
        ..u
    }
}

/// Where a walk of the local tree leads. One that failed ends the gathering.
pub open spec fn local_walked(u: GatherView, walk: LocalWalkView) -> GatherView {
    if u.phase != GatherPhase::Local {
        u
    } else {
        match walk.failure {
            Some(e) => u.failed(e),
            None => GatherView {
                local: walk.trail.found,
                brought: u.brought || walk.trail.found.len() > u.before,
                phase: GatherPhase::Remote,
                ..u
            },
        }
    }
}

/// Where a walk of the remote tree leads. One that failed ends the gathering. An
/// argument of a pull that brought nothing is noted; any other stands for what lies at
/// or below it.
pub open spec fn remote_walked(u: GatherView, walk: WalkView) -> GatherView {
    if u.phase != GatherPhase::Remote {
        u
    } else {
        match walk.failure {
            Some(e) => u.failed(e),
            None => {
                let more = GatherView {
                    remote: walk.trail.found,
                    symlinks: if u.gathers_links() {
                        walk.trail.symlinks
                    } else {
                        u.symlinks
                    },
                    brought: u.brought || walk.trail.found.len() > walk.before,
                    ..u
                };
                if u.whole() {
                    more.walked()
                } else if u.command != Command::Pull {
                    more.next()
                } else if more.brought {
                    GatherView {
                        candidates: targets::argument_paths(u.current(), more.local, more.remote),
                        phase: GatherPhase::Ignored,
                        ..more
                    }
                } else {
                    (GatherView {
                        lines: more.lines.push(
                            outcome::noted("skip (not on local or remote): "@ + u.current()),
                        ),
                        ..more
                    }).next()
                }
            },
        }
    }
}

/// Where it leads that some of the candidates, in order, are ignored: the others are
/// targets.
pub open spec fn filtered(u: GatherView, ignored: Seq<bool>) -> GatherView {
    if u.phase != GatherPhase::Ignored {
        u
    } else {
        let kept = targets::set_of(targets::unmarked(order::listed(u.candidates), ignored));
        let more = GatherView {
            targets: u.targets.union(kept),
            candidates: Set::empty(),
            ..u
        };
        if u.command == Command::Push {
            GatherView { phase: GatherPhase::Done, ..more }
        } else {
            more.next()
        }
    }
}

impl Gathering {
    /// The sets are in order, and the argument that is looked at is there.
    pub open spec fn wf(&self) -> bool {
        &&& self.local.wf()
        &&& self.remote.wf()
        &&& self.symlinks.wf()
        &&& self.targets.wf()
        &&& self.candidates.wf()
        &&& self.arguments@.len() > 0 ==> self.at < self.arguments@.len()
    }

    /// Starts the gathering of the targets of a command. `remembered` are the paths
    /// that the state holds.
    pub fn gather(
        command: Command,
        local_root: &str,
        remote_root: &str,
        arguments: Vec<String>,
        remembered: Vec<String>,
    ) -> (out: Gathering)
        ensures
            out.wf(),
            out@ == gather_start(
                command,
                local_root@,
                remote_root@,
                text::views(arguments@),
                text::views(remembered@),
            ),
    {
        let lines: Vec<OutputLine> = Vec::new();
        assert(text::views(lines@) =~= Seq::<LineView>::empty());
        let phase = if arguments.len() == 0 {
            GatherPhase::Local
        } else {
            GatherPhase::Look
        };
        Gathering {
            command,
            local_root: local_root.to_owned(),
            remote_root: remote_root.to_owned(),
            arguments,
            remembered,
            at: 0,
            local: PathSet::new(),
            remote: PathSet::new(),
            symlinks: PathSet::new(),
            before: 0,
            brought: false,
            targets: PathSet::new(),
            candidates: PathSet::new(),
            phase,
            lines,
            failure: None,
        }
    }

    /// The argument that is being looked at.
    pub fn current(&self) -> (out: String)
        requires
            self.wf(),
        ensures
            out@ == self@.current(),
    {
        if self.arguments.len() == 0 {
            let root = String::new();
            assert(root@ =~= Seq::<char>::empty());
            root
        } else {
            assert(self@.arguments[self@.at as int] == self.arguments@[self.at as int]@);
            match self.command {
                Command::Pull => text::trim_end_slashes(&self.arguments[self.at]),
                _ => self.arguments[self.at].clone(),
            }
        }
    }

    /// Takes what is at the local path of the argument, and whether that is ignored.
    pub fn on_look(&mut self, kind: LocalKind, ignored: bool)
        requires
            old(self).wf(),
        ensures
            final(self).wf(),
            final(self)@ == looked(old(self)@, kind, ignored),
    {
        match self.phase {
            GatherPhase::Look => {},
            _ => {
                return ;
            },
        }
        match kind {
            LocalKind::Directory => {
                self.phase = GatherPhase::Local;
            },
            LocalKind::Other => {
                self.phase = GatherPhase::Remote;
            },
            LocalKind::File => {
                let rel = self.current();
                let passed = match self.command {
                    Command::Pull => ignored,
                    _ => false,
                };
                let new: usize = targets::add_local_file(&mut self.local, &rel, passed);
                self.brought = self.brought || new > 0;
                self.phase = GatherPhase::Remote;
            },
        }
    }

    /// The walk of the local tree that the gathering waits for. It holds the local
    /// paths until it is answered.
    pub fn begin_local(&mut self) -> (out: LocalWalk)
        requires
            old(self).wf(),
            old(self).phase == GatherPhase::Local,
        ensures
            final(self).wf(),
            final(self)@ == lent_local(old(self)@),
            out.trail.wf(),
            out@ == walk::local_walk_start(
                old(self)@.local_root,
                old(self)@.current(),
                old(self)@.local,
            ),
    {
        proof {
            self.local.facts();
        }
        let current = self.current();
        self.before = self.local.len();
        let mut local = PathSet::new();
        std::mem::swap(&mut local, &mut self.local);
        walk::walk_local(&self.local_root, &current, local)
    }

    /// Takes the walk of the local tree, once it has ended.
    pub fn on_local(&mut self, walk: LocalWalk)
        requires
            old(self).wf(),
            walk.trail.wf(),
        ensures
            final(self).wf(),
            final(self)@ == local_walked(old(self)@, walk@),
    {
        match self.phase {
            GatherPhase::Local => {},
            _ => {
                return ;
            },
        }
        match walk.failure {
            Some(e) => {
                self.failure = Some(e);
                self.phase = GatherPhase::Done;
            },
            None => {
                proof {
                    walk.trail.found.facts();
                }
                self.local = walk.trail.found;
                self.brought = self.brought || self.local.len() > self.before;
                self.phase = GatherPhase::Remote;
            },
        }
    }

    /// The walk of the remote tree that the gathering waits for: of the whole tree, or
    /// the resolution of an argument. It holds the remote paths until it is answered.
    pub fn begin_remote(&mut self) -> (out: RemoteWalk)
        requires
            old(self).wf(),
            old(self).phase == GatherPhase::Remote,
        ensures
            final(self).wf(),
            final(self)@ == lent_remote(old(self)@),
            out.wf(),
            out@ == walk::walk_start(
                old(self)@.remote_root,
                old(self)@.current(),
                old(self)@.gathers_links(),
                !old(self)@.whole(),
                old(self)@.remote,
                if old(self)@.gathers_links() {
                    old(self)@.symlinks
                } else {
                    Set::empty()
                },
            ),
    {
        let current = self.current();
        let whole = self.arguments.len() == 0;
        let mut remote = PathSet::new();
        std::mem::swap(&mut remote, &mut self.remote);
        match self.command {
            Command::Pull => if whole {
                walk::walk_remote(&self.remote_root, &current, remote)
            } else {
                walk::collect_remote_arg(&self.remote_root, &current, remote)
            },
            _ => {
                let mut symlinks = PathSet::new();
                std::mem::swap(&mut symlinks, &mut self.symlinks);
                if whole {
                    walk::walk_remote_with_symlinks(&self.remote_root, &current, remote, symlinks)
                } else {
                    walk::collect_remote_arg_with_symlinks(
                        &self.remote_root,
                        &current,
                        remote,
                        symlinks,
                    )
                }
            },
        }
    }

    /// Goes on once everything was walked.
    fn to_walked(&mut self)
        requires
            old(self).wf(),
        ensures
            final(self).wf(),
            final(self)@ == old(self)@.walked(),
    {
        let none: Vec<String> = Vec::new();
        assert(text::views(none@) =~= Seq::<Seq<char>>::empty());
        let whole = self.arguments.len() == 0;
        let all = if whole {
            targets::all_targets(&self.local, &self.remote, &self.remembered)
        } else {
            targets::all_targets(&self.local, &self.remote, &none)
        };
        match self.command {
            Command::Push => {
                self.candidates = all;
                self.phase = GatherPhase::Ignored;
            },
            _ => {
                if whole {
                    self.targets = all;
                }
                self.phase = GatherPhase::Done;
            },
        }
    }

    /// Goes on to the next argument.
    fn to_next(&mut self)
        requires
            old(self).wf(),
        ensures
            final(self).wf(),
            final(self)@ == old(self)@.next(),
    {
        if self.at < self.arguments.len() && self.at + 1 < self.arguments.len() {
            self.at = self.at + 1;
            self.brought = false;
            self.phase = GatherPhase::Look;
        } else {
            self.to_walked();
        }
    }

    /// Takes the walk of the remote tree, once it has ended.
    pub fn on_remote(&mut self, walk: RemoteWalk)
        requires
            old(self).wf(),
            walk.wf(),
        ensures
            final(self).wf(),
            final(self)@ == remote_walked(old(self)@, walk@),
    {
        match self.phase {
            GatherPhase::Remote => {},
            _ => {
                return ;
            },
        }
        let grown = walk.found_count() > 0;
        match walk.failure {
            Some(e) => {
                self.failure = Some(e);
                self.phase = GatherPhase::Done;
                return ;
            },
            None => {},
        }
        self.remote = walk.trail.found;
        match self.command {
            Command::Pull => {},
            _ => {
                self.symlinks = walk.trail.symlinks;
            },
        }
        self.brought = self.brought || grown;
        if self.arguments.len() == 0 {
            self.to_walked();
            return ;
        }
        let rel = self.current();
        match self.command {
            Command::Pull => {
                if self.brought {
                    self.candidates = targets::pull_candidates(&rel, &self.local, &self.remote);
                    self.phase = GatherPhase::Ignored;
                } else {
                    let ghost before = text::views(self.lines@);
                    let line = targets::nothing_found(&rel);
                    let ghost said = line@;
                    self.lines.push(line);
                    assert(text::views(self.lines@) =~= before.push(said));
                    self.to_next();
                }
            },
            _ => {
                self.to_next();
            },
        }
    }

    /// Takes which of the candidates, in order, are ignored.
    pub fn on_ignored(&mut self, ignored: &Vec<bool>)
        requires
            old(self).wf(),
        ensures
            final(self).wf(),
            final(self)@ == filtered(old(self)@, ignored@),
    {
        match self.phase {
            GatherPhase::Ignored => {},
            _ => {
                return ;
            },
        }
        proof {
            self.candidates.keys_are_listed();
        }
        let mut candidates = PathSet::new();
        std::mem::swap(&mut candidates, &mut self.candidates);
        targets::add_targets(&mut self.targets, &candidates, ignored);
        match self.command {
            Command::Push => {
                self.phase = GatherPhase::Done;
            },
            _ => {
                self.to_next();
            },
        }
    }

    /// Hands out the lines that were not printed yet.
    pub fn take_lines(&mut self) -> (out: Vec<OutputLine>)
        requires
            old(self).wf(),
        ensures
            final(self).wf(),
            text::views(out@) == old(self)@.lines,
            final(self)@ == (GatherView { lines: Seq::empty(), ..old(self)@ }),
    {
        let mut out: Vec<OutputLine> = Vec::new();
        std::mem::swap(&mut out, &mut self.lines);
        assert(text::views(self.lines@) =~= Seq::<LineView>::empty());
        out
    }

    /// The command on its targets, or why they could not be gathered.
    pub fn begin(self, force: bool, mode: ExecutionMode) -> (out: Result<CommandRun, Error>)
        requires
            self.wf(),
        ensures
            match (out, self@.failure) {
                (Ok(run), None) => {
                    &&& run.wf()
                    &&& run@ == commands::run_start(
                        self@.command,
                        force,
                        mode,
                        self@.local_root,
                        self@.remote_root,
                        order::listed(self@.targets),
                        self@.local,
                        self@.remote,
                        self@.symlinks,
                    )
                },
                (Err(e), Some(want)) => e@ == want,
                _ => false,
            },
    {
        match self.failure {
            Some(e) => Err(e),
            None => {
                let none: Vec<bool> = Vec::new();
                proof {
                    self.targets.keys_are_listed();
                    nothing_is_unmarked(self.targets.keys(), none@);
                }
                let all = targets::keep_targets(&self.targets, &none);
                Ok(
                    CommandRun::run(
                        self.command,
                        force,
                        mode,
                        &self.local_root,
                        &self.remote_root,
                        all,
                        self.local,
                        self.remote,
                        self.symlinks,
                    ),
                )
            },
        }
    }
}

proof fn nothing_is_unmarked(keys: Seq<Seq<char>>, ignored: Seq<bool>)
    requires
        ignored.len() == 0,
    ensures
        targets::unmarked(keys, ignored) == keys,
    decreases keys.len(),
{
    if keys.len() > 0 {
        nothing_is_unmarked(keys.drop_last(), ignored);
        assert(keys.drop_last().push(keys.last()) =~= keys);
    }
}

proof fn unmarked_holds(keys: Seq<Seq<char>>, ignored: Seq<bool>, i: int)
    requires
        order::ascending(keys),
        0 <= i < keys.len(),
    ensures
        targets::unmarked(keys, ignored).contains(keys[i]) <==> !inventory::marked(ignored, i),
    decreases keys.len(),
{
    let fewer = keys.drop_last();
    let all = targets::unmarked(keys, ignored);
    let before = targets::unmarked(fewer, ignored);
    assert forall|a: int, b: int| 0 <= a < b < fewer.len() implies order::before(
        #[trigger] fewer[a],
        #[trigger] fewer[b],
    ) by {
        assert(order::before(keys[a], keys[b]));
    }
    if i < fewer.len() {
        unmarked_holds(fewer, ignored, i);
        if keys[i] == keys.last() {
            order::ascending_distinct(keys, i, keys.len() - 1);
        }
        if before.contains(keys[i]) {
            let k = choose|k: int| 0 <= k < before.len() && before[k] == keys[i];
            assert(all[k] == keys[i]);
        }
        if all.contains(keys[i]) {
            let k = choose|k: int| 0 <= k < all.len() && all[k] == keys[i];
            assert(k < before.len());
            assert(before[k] == keys[i]);
        }
    } else {
        unmarked_are_keys(fewer, ignored);
        if before.contains(keys.last()) {
            let k = choose|k: int| 0 <= k < fewer.len() && fewer[k] == keys.last();
            order::ascending_distinct(keys, k, keys.len() - 1);
        }
        if !inventory::marked(ignored, i) {
            assert(all[all.len() - 1] == keys[i]);
        }
    }
}

proof fn unmarked_are_keys(keys: Seq<Seq<char>>, ignored: Seq<bool>)
    ensures
        forall|k: Seq<char>| #[trigger]
            targets::unmarked(keys, ignored).contains(k) ==> keys.contains(k),
    decreases keys.len(),
{
    if keys.len() > 0 {
        let fewer = keys.drop_last();
        unmarked_are_keys(fewer, ignored);
        let all = targets::unmarked(keys, ignored);
        let before = targets::unmarked(fewer, ignored);
        assert forall|k: Seq<char>| #[trigger] all.contains(k) implies keys.contains(k) by {
            let i = choose|i: int| 0 <= i < all.len() && all[i] == k;
            if i < before.len() {
                assert(before[i] == k);
                assert(before.contains(k));
                let j = choose|j: int| 0 <= j < fewer.len() && fewer[j] == k;
                assert(keys[j] == k);
            } else {
                assert(keys[keys.len() - 1] == k);
            }
        }
    }
}

/// A candidate becomes a target exactly if it is not ignored, unless it is one already.
pub proof fn ignored_paths_are_no_targets(u: GatherView, ignored: Seq<bool>, i: int)
    requires
        u.phase == GatherPhase::Ignored,
        u.command == Command::Push || (u.command == Command::Pull && !u.whole()),
        u.candidates.finite(),
        0 <= i < order::listed(u.candidates).len(),
    ensures
        ({
            let path = order::listed(u.candidates)[i];
            filtered(u, ignored).targets.contains(path) <==> u.targets.contains(path)
                || !inventory::marked(ignored, i)
        }),
{
    order::listed_is_sound(u.candidates);
    unmarked_holds(order::listed(u.candidates), ignored, i);
}

/// A command that takes the whole trees works on everything that either side holds or
/// that is remembered; a push leaves out of that what is ignored, and nothing more. A
/// walk that fails ends the gathering with its failure.
pub proof fn whole_gathering_takes_everything(
    command: Command,
    local_root: Seq<char>,
    remote_root: Seq<char>,
    remembered: Seq<Seq<char>>,
    here: LocalWalkView,
    there: WalkView,
    path: Seq<char>,
)
    ensures
        ({
            let start = gather_start(command, local_root, remote_root, Seq::empty(), remembered);
            let half = local_walked(lent_local(start), here);
            let full = remote_walked(lent_remote(half), there);
            let known = here.trail.found.contains(path) || there.trail.found.contains(path)
                || remembered.contains(path);
            &&& start.phase == GatherPhase::Local
            &&& here.failure is Some ==> half.phase == GatherPhase::Done && half.failure
                == here.failure
            &&& here.failure is None ==> {
                &&& half.phase == GatherPhase::Remote
                &&& there.failure is Some ==> full.phase == GatherPhase::Done && full.failure
                    == there.failure
                &&& there.failure is None ==> {
                    &&& full.failure is None
                    &&& full.local == here.trail.found && full.remote == there.trail.found
                    &&& full.symlinks == if command == Command::Pull {
                        Set::empty()
                    } else {
                        there.trail.symlinks
                    }
                    &&& command == Command::Push ==> full.phase == GatherPhase::Ignored && (
                    full.candidates.contains(path) <==> known)
                    &&& command != Command::Push ==> full.phase == GatherPhase::Done && (
                    full.targets.contains(path) <==> known)
                }
            }
        }),
{
}

/// An argument is looked for on both sides: locally as the file it is, which a pull
/// passes over if it is ignored, or by a walk of the directory it is, and remotely by a
/// walk. A pull takes of it what lies at or below it, and notes it where neither side
/// brought anything new; a push takes what all its arguments brought.
pub proof fn argument_is_looked_for_on_both_sides(
    u: GatherView,
    kind: LocalKind,
    ignored: bool,
    here: LocalWalkView,
    there: WalkView,
    path: Seq<char>,
)
    requires
        u.phase == GatherPhase::Look,
        u.at < u.arguments.len(),
        here.failure is None,
        there.failure is None,
    ensures
        ({
            let pull = u.command == Command::Pull;
            let seen = looked(u, kind, ignored);
            let half = if kind == LocalKind::Directory {
                local_walked(lent_local(seen), here)
            } else {
                seen
            };
            let full = remote_walked(lent_remote(half), there);
            let taken = kind == LocalKind::File && !(ignored && pull);
            let near = if kind == LocalKind::Directory {
                here.trail.found
            } else if taken {
                u.local.insert(u.current())
            } else {
                u.local
            };
            let last = u.at + 1 == u.arguments.len();
            let new = u.brought || (kind == LocalKind::Directory && here.trail.found.len()
                > u.local.len()) || (taken && !u.local.contains(u.current()))
                || there.trail.found.len() > there.before;
            &&& seen.phase == if kind == LocalKind::Directory {
                GatherPhase::Local
            } else {
                GatherPhase::Remote
            }
            &&& half.phase == GatherPhase::Remote
            &&& full.local == near && full.remote == there.trail.found && full.failure == u.failure
            &&& full.targets == u.targets || (u.command == Command::Sync && u.whole())
            &&& pull && new ==> {
                &&& full.phase == GatherPhase::Ignored && full.at == u.at && full.lines == u.lines
                &&& full.candidates.contains(path) <==> (near.contains(path)
                    || there.trail.found.contains(path)) && paths::at_or_below(path, u.current())
            }
            &&& pull && !new ==> {
                &&& full.lines.len() == u.lines.len() + 1
                &&& full.lines.last() == outcome::noted(
                    "skip (not on local or remote): "@ + u.current(),
                )
                &&& full.phase == if last {
                    GatherPhase::Done
                } else {
                    GatherPhase::Look
                }
                &&& !last ==> full.at == u.at + 1 && !full.brought
            }
            &&& u.command == Command::Push && !last ==> full.phase == GatherPhase::Look && full.at
                == u.at + 1 && full.lines == u.lines
            &&& u.command == Command::Push && last ==> {
                &&& full.phase == GatherPhase::Ignored
                &&& full.candidates.contains(path) <==> near.contains(path)
                    || there.trail.found.contains(path)
            }
        }),
{
}

/// Once the ignored ones of its candidates are known, a push has its targets, and a pull
/// goes on to its next argument, if there is one.
pub proof fn filtering_goes_on(u: GatherView, ignored: Seq<bool>)
    requires
        u.phase == GatherPhase::Ignored,
        u.command == Command::Push || (u.command == Command::Pull && u.at < u.arguments.len()),
    ensures
        ({
            let v = filtered(u, ignored);
            let more = u.command == Command::Pull && u.at + 1 < u.arguments.len();
            &&& v.phase == if more {
                GatherPhase::Look
            } else {
                GatherPhase::Done
            }
            &&& more ==> v.at == u.at + 1 && !v.brought
            &&& u.targets.subset_of(v.targets)
            &&& v.local == u.local && v.remote == u.remote && v.symlinks == u.symlinks
            &&& v.lines == u.lines && v.failure == u.failure
        }),
{
}

} // verus!
