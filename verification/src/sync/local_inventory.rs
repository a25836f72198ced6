//! The local half of an inventory: the descent to the selected path, and what
//! lies below it, symlinks followed as long as they stay inside the local root.

use crate::error::Error;
use crate::error;
use crate::inventory::{EntryKind, InventoryEntry};
use crate::inventory;
use crate::local_paths;
use crate::order::PathMap;
use crate::paths;
use crate::scope::{ScopeView, SyncScope};
use crate::scope;
use crate::sync::directories;
use crate::sync::plan::Entries;
use crate::sync::remote_inventory;
use crate::text;
use crate::transfer_temp;
use vstd::prelude::*;

verus! {

broadcast use vstd::seq::group_seq_axioms;

/// What is there at a local path: where it really lies, what it is once symlinks
/// are followed, if that is a file or a directory, and whether it is ignored.
#[derive(Debug)]
pub struct NodeFacts {
    pub canonical: Result<String, Error>,
    pub kind: Result<Option<EntryKind>, Error>,
    pub ignored: bool,
}

/// What was read of one child of a local directory.
#[derive(Debug)]
pub enum ChildRead {
    /// The directory could not be read any further.
    Unreadable(Error),
    /// The name is no text.
    BadName,
    /// The child could not be looked at.
    Unknown(String, Error),
    Child(String, NodeFacts),
}

/// What an inventory makes of a local path.
#[derive(Debug)]
pub enum LocalNode {
    Nothing,
    File(String),
    /// A directory, and where it really lies.
    Directory(String, String),
    /// The end of the children of a directory.
    Leave,
    Failure(Error),
}

/// What an inventory makes of a local path.
pub enum LocalNodeView {
    Nothing,
    File(Seq<char>),
    Directory(Seq<char>, Seq<char>),
    Leave,
    Failure(error::ErrorView),
}

impl View for LocalNode {
    type V = LocalNodeView;

    open spec fn view(&self) -> LocalNodeView {
        match self {
            LocalNode::Nothing => LocalNodeView::Nothing,
            LocalNode::File(path) => LocalNodeView::File(path@),
            LocalNode::Directory(path, canonical) => LocalNodeView::Directory(path@, canonical@),
            LocalNode::Leave => LocalNodeView::Leave,
            LocalNode::Failure(e) => LocalNodeView::Failure(e@),
        }
    }
}

/// The roots that a local inventory works with: the configured one, where it
/// really lies, and where the state directory really lies.
#[derive(Debug)]
pub struct LocalRoots {
    pub local_root: String,
    pub canonical_root: String,
    pub state_root: String,
}

/// The roots that a local inventory works with.
pub struct RootsView {
    pub local_root: Seq<char>,
    pub canonical_root: Seq<char>,
    pub state_root: Seq<char>,
}

impl View for LocalRoots {
    type V = RootsView;

    open spec fn view(&self) -> RootsView {
        RootsView {
            local_root: self.local_root@,
            canonical_root: self.canonical_root@,
            state_root: self.state_root@,
        }
    }
}

/// The failure of a step at a relative path.
pub open spec fn failed_at(
    roots: RootsView,
    step: Seq<char>,
    relative: Seq<char>,
    cause: error::ErrorView,
) -> error::ErrorView {
    error::failure_from(
        step + directories::local_path(roots.local_root, relative),
        error::full_message(cause),
    )
}

/// The failure of a step at a relative path.
fn failure_at(roots: &LocalRoots, step: &str, relative: &str, cause: &Error) -> (out: Error)
    ensures
        out@ == failed_at(roots@, step@, relative@, cause@),
{
    Error::failure_from(
        text::cat(step, &directories::local_path_of(&roots.local_root, relative)),
        &cause.full_message(),
    )
}

/// The failure of a path that really lies outside the local root.
pub open spec fn outside(roots: RootsView, relative: Seq<char>) -> error::ErrorView {
    error::failure(
        "local path "@ + directories::local_path(roots.local_root, relative)
            + " resolves outside local_root "@ + roots.local_root,
    )
}

/// The failure of a path that really lies outside the local root.
fn outside_of(roots: &LocalRoots, relative: &str) -> (out: Error)
    ensures
        out@ == outside(roots@, relative@),
{
    Error::failure(
        text::cat4(
            "local path ",
            &directories::local_path_of(&roots.local_root, relative),
            " resolves outside local_root ",
            &roots.local_root,
        ),
    )
}

/// The failure of a path that is neither a file nor a directory.
pub open spec fn unsupported(roots: RootsView, relative: Seq<char>) -> error::ErrorView {
    error::failure(
        "unsupported local entry type at "@ + directories::local_path(roots.local_root, relative),
    )
}

/// The failure of a path that is neither a file nor a directory.
fn unsupported_at(roots: &LocalRoots, relative: &str) -> (out: Error)
    ensures
        out@ == unsupported(roots@, relative@),
{
    Error::failure(
        text::cat(
            "unsupported local entry type at ",
            &directories::local_path_of(&roots.local_root, relative),
        ),
    )
}

/// What an inventory makes of a local path. What belongs to the state, by its path
/// or by where it really lies, to an unfinished transfer, or is ignored is passed
/// over; what really lies outside the root ends the inventory.
pub open spec fn judged(roots: RootsView, relative: Seq<char>, facts: NodeFacts) -> LocalNodeView {
    if inventory::is_own(relative) {
        LocalNodeView::Nothing
    } else {
        match facts.canonical {
            Err(e) => LocalNodeView::Failure(
                failed_at(roots, "canonicalizing local path "@, relative, e@),
            ),
            Ok(canonical) => if !paths::under_remote_root(roots.canonical_root, canonical@) {
                LocalNodeView::Failure(outside(roots, relative))
            } else if paths::under_remote_root(roots.state_root, canonical@) {
                LocalNodeView::Nothing
            } else {
                match facts.kind {
                    Err(e) => LocalNodeView::Failure(
                        failed_at(roots, "following local symlink "@, relative, e@),
                    ),
                    Ok(None) => LocalNodeView::Failure(unsupported(roots, relative)),
                    Ok(Some(kind)) => if facts.ignored {
                        LocalNodeView::Nothing
                    } else if kind == EntryKind::Directory {
                        LocalNodeView::Directory(relative, canonical@)
                    } else {
                        LocalNodeView::File(relative)
                    },
                }
            },
        }
    }
}

/// What an inventory makes of a local path.
pub fn judge(roots: &LocalRoots, relative: &str, facts: &NodeFacts) -> (out: LocalNode)
    ensures
        out@ == judged(roots@, relative@, *facts),
{
    if inventory::belongs_to_ferry(relative) {
        return LocalNode::Nothing;
    }
    match &facts.canonical {
        Err(e) => LocalNode::Failure(
            failure_at(roots, "canonicalizing local path ", relative, e),
        ),
        Ok(canonical) => if !paths::is_under_remote_root(&roots.canonical_root, canonical) {
            LocalNode::Failure(outside_of(roots, relative))
        } else if paths::is_under_remote_root(&roots.state_root, canonical) {
            LocalNode::Nothing
        } else {
            match &facts.kind {
                Err(e) => LocalNode::Failure(
                    failure_at(roots, "following local symlink ", relative, e),
                ),
                Ok(None) => LocalNode::Failure(unsupported_at(roots, relative)),
                Ok(Some(kind)) => if facts.ignored {
                    LocalNode::Nothing
                } else {
                    match kind {
                        EntryKind::Directory => LocalNode::Directory(
                            relative.to_owned(),
                            canonical.clone(),
                        ),
                        EntryKind::File => LocalNode::File(relative.to_owned()),
                    }
                },
            }
        },
    }
}

/// What an inventory makes of a child of the relative directory.
pub open spec fn child_judged(roots: RootsView, directory: Seq<char>, read: ChildRead) -> LocalNodeView {
    match read {
        ChildRead::Unreadable(e) => LocalNodeView::Failure(
            failed_at(roots, "walking local dir "@, directory, e@),
        ),
        ChildRead::BadName => LocalNodeView::Failure(
            error::failure(
                "local path under "@ + directories::local_path(roots.local_root, directory)
                    + " is not valid UTF-8"@,
            ),
        ),
        ChildRead::Unknown(name, e) => LocalNodeView::Failure(
            failed_at(roots, "reading local metadata "@, paths::joined(directory, name@), e@),
        ),
        ChildRead::Child(name, facts) => judged(roots, paths::joined(directory, name@), facts),
    }
}

/// What an inventory makes of a child of the relative directory.
fn judge_child(roots: &LocalRoots, directory: &str, read: &ChildRead) -> (out: LocalNode)
    ensures
        out@ == child_judged(roots@, directory@, *read),
{
    match read {
        ChildRead::Unreadable(e) => LocalNode::Failure(
            failure_at(roots, "walking local dir ", directory, e),
        ),
        ChildRead::BadName => LocalNode::Failure(
            Error::failure(
                text::cat3(
                    "local path under ",
                    &directories::local_path_of(&roots.local_root, directory),
                    " is not valid UTF-8",
                ),
            ),
        ),
        ChildRead::Unknown(name, e) => LocalNode::Failure(
            failure_at(
                roots,
                "reading local metadata ",
                &paths::join_relative(directory, name),
                e,
            ),
        ),
        ChildRead::Child(name, facts) => judge(
            roots,
            &paths::join_relative(directory, name),
            facts,
        ),
    }
}

/// What an inventory makes of the children of the relative directory, in order.
pub open spec fn children_judged(
    roots: RootsView,
    directory: Seq<char>,
    reads: Seq<ChildRead>,
) -> Seq<LocalNodeView> {
    Seq::new(reads.len(), |i: int| child_judged(roots, directory, reads[i]))
}

/// What the local half of an inventory waits for.
#[derive(Debug, Clone, Copy, PartialEq, Eq, Structural)]
pub enum LocalPhase {
    /// What is there at the next segment of the selected path.
    Select,
    /// The children of the current directory.
    List,
    Done,
}

/// The local half of an inventory. `ancestors` are the directories it is in, by
/// where they really lie. The last node of the stack comes first.
#[derive(Debug)]
pub struct LocalCollection {
    pub roots: LocalRoots,
    pub segments: Vec<String>,
    pub at: usize,
    pub relative: String,
    pub ancestors: Vec<String>,
    pub stack: Vec<LocalNode>,
    pub entries: PathMap<InventoryEntry>,
    pub above: PathMap<InventoryEntry>,
    pub selected: bool,
    pub phase: LocalPhase,
    pub failure: Option<Error>,
}

/// What the local half of an inventory says.
pub struct CollectionView {
    pub roots: RootsView,
    pub segments: Seq<Seq<char>>,
    pub at: nat,
    pub relative: Seq<char>,
    pub ancestors: Seq<Seq<char>>,
    pub stack: Seq<LocalNodeView>,
    pub entries: Entries,
    pub above: Entries,
    pub selected: bool,
    pub phase: LocalPhase,
    pub failure: Option<error::ErrorView>,
}

impl View for LocalCollection {
    type V = CollectionView;

    open spec fn view(&self) -> CollectionView {
        CollectionView {
            roots: self.roots@,
            segments: text::views(self.segments@),
            at: self.at as nat,
            relative: self.relative@,
            ancestors: text::views(self.ancestors@),
            stack: text::views(self.stack@),
            entries: self.entries@,
            above: self.above@,
            selected: self.selected,
            phase: self.phase,
            failure: match self.failure {
                Some(e) => Some(e@),
                None => None,
            },
        }
    }
}

impl CollectionView {
    /// The inventory, ended by a failure.
    pub open spec fn failed(self, failure: error::ErrorView) -> CollectionView {
        CollectionView { phase: LocalPhase::Done, failure: Some(failure), ..self }
    }

    /// The inventory, ended with nothing more to look at.
    pub open spec fn ended(self) -> CollectionView {
        CollectionView { phase: LocalPhase::Done, ..self }
    }

    /// The inventory at the next directory to be read: every node up to it is
    /// recorded, and it too. A directory that it is in already ends it.
    pub open spec fn advanced(self) -> CollectionView
        decreases self.stack.len(),
    {
        if self.stack.len() == 0 {
            self.ended()
        } else {
            let next = CollectionView { stack: self.stack.drop_last(), ..self };
            match self.stack.last() {
                LocalNodeView::Nothing => next.advanced(),
                LocalNodeView::File(path) => (CollectionView {
                    entries: inventory::with_local(self.entries, path, EntryKind::File),
                    ..next
                }).advanced(),
                LocalNodeView::Directory(path, canonical) => {
                    let recorded = CollectionView {
                        entries: inventory::with_local(self.entries, path, EntryKind::Directory),
                        ..next
                    };
                    if self.ancestors.contains(canonical) {
                        recorded.failed(
                            error::failure(
                                "local directory cycle encountered at "@
                                    + directories::local_path(self.roots.local_root, path),
                            ),
                        )
                    } else {
                        CollectionView {
                            ancestors: self.ancestors.push(canonical),
                            relative: path,
                            phase: LocalPhase::List,
                            ..recorded
                        }
                    }
                },
                LocalNodeView::Leave => (CollectionView {
                    ancestors: if self.ancestors.len() > 0 {
                        self.ancestors.drop_last()
                    } else {
                        self.ancestors
                    },
                    ..next
                }).advanced(),
                LocalNodeView::Failure(e) => next.failed(e),
            }
        }
    }

    /// The inventory, once what is there at the next segment was looked at.
    pub open spec fn looked_at(self, facts: NodeFacts) -> CollectionView {
        let prefix = paths::joined(self.relative, self.segments[self.at as int]);
        match facts.canonical {
            Err(e) => self.failed(
                failed_at(self.roots, "canonicalizing local path "@, prefix, e@),
            ),
            Ok(canonical) => if !paths::under_remote_root(
                self.roots.canonical_root,
                canonical@,
            ) {
                self.failed(outside(self.roots, prefix))
            } else if paths::under_remote_root(self.roots.state_root, canonical@) {
                self.failed(
                    error::failure("refusing scoped path inside Ferry state directory"@),
                )
            } else {
                match facts.kind {
                    Err(e) => self.failed(
                        failed_at(self.roots, "following local symlink "@, prefix, e@),
                    ),
                    Ok(kind) => if transfer_temp::reserved(prefix) || facts.ignored {
                        self.ended()
                    } else if self.at + 1 >= self.segments.len() {
                        (CollectionView {
                            selected: true,
                            stack: seq![judged(self.roots, prefix, facts)],
                            ..self
                        }).advanced()
                    } else {
                        match kind {
                            None => self.failed(unsupported(self.roots, prefix)),
                            Some(kind) => {
                                let next = CollectionView {
                                    above: inventory::with_local(self.above, prefix, kind),
                                    relative: prefix,
                                    at: self.at + 1,
                                    ..self
                                };
                                if kind == EntryKind::Directory {
                                    next
                                } else {
                                    next.ended()
                                }
                            },
                        }
                    },
                }
            },
        }
    }
}

/// A reply to the local half of an inventory.
pub enum LocalReply {
    Selected(Result<Option<NodeFacts>, Error>),
    Listing(Result<Seq<ChildRead>, error::ErrorView>),
}

/// Where a reply leads the local half of an inventory. A reply that the phase does
/// not wait for changes nothing.
pub open spec fn local_step(u: CollectionView, reply: LocalReply) -> CollectionView {
    match (u.phase, reply) {
        (LocalPhase::Select, LocalReply::Selected(found)) => {
            let prefix = paths::joined(u.relative, u.segments[u.at as int]);
            if paths::state_path(prefix) {
                u.failed(error::failure("refusing scoped path inside Ferry state directory"@))
            } else {
                match found {
                    Err(e) => u.failed(
                        failed_at(u.roots, "reading local metadata "@, prefix, e@),
                    ),
                    Ok(None) => u.ended(),
                    Ok(Some(facts)) => u.looked_at(facts),
                }
            }
        },
        (LocalPhase::List, LocalReply::Listing(listing)) => match listing {
            Err(e) => u.failed(failed_at(u.roots, "reading local dir "@, u.relative, e)),
            Ok(reads) => (CollectionView {
                stack: u.stack.push(LocalNodeView::Leave) + children_judged(
                    u.roots,
                    u.relative,
                    reads,
                ).reverse(),
                ..u
            }).advanced(),
        },
        _ => u,
    }
}

/// The roots of a local inventory from what was found of them. A state directory
/// that is not there lies where it would be made.
pub open spec fn roots_of(
    local_root: Seq<char>,
    canonical_root: Result<String, Error>,
    state_root: Result<Option<String>, Error>,
) -> Result<RootsView, error::ErrorView> {
    match (canonical_root, state_root) {
        (Err(e), _) => Err(
            error::failure_from(
                "canonicalizing local_root "@ + local_root,
                error::full_message(e@),
            ),
        ),
        (Ok(_), Err(e)) => Err(
            error::failure_from(
                "canonicalizing state dir "@ + directories::local_path(
                    local_root,
                    paths::STATE_DIR@,
                ),
                error::full_message(e@),
            ),
        ),
        (Ok(canonical), Ok(state)) => Ok(
            RootsView {
                local_root,
                canonical_root: canonical@,
                state_root: match state {
                    Some(state) => state@,
                    None => local_paths::joined(canonical@, paths::STATE_DIR@),
                },
            },
        ),
    }
}

/// The roots of a local inventory from what was found of them.
fn find_roots(
    local_root: &str,
    canonical_root: Result<String, Error>,
    state_root: Result<Option<String>, Error>,
) -> (out: Result<LocalRoots, Error>)
    ensures
        error::agrees(out, roots_of(local_root@, canonical_root, state_root)),
{
    match canonical_root {
        Err(e) => Err(
            Error::failure_from(
                text::cat("canonicalizing local_root ", local_root),
                &e.full_message(),
            ),
        ),
        Ok(canonical) => match state_root {
            Err(e) => Err(
                Error::failure_from(
                    text::cat(
                        "canonicalizing state dir ",
                        &directories::local_path_of(local_root, paths::STATE_DIR),
                    ),
                    &e.full_message(),
                ),
            ),
            Ok(state) => {
                let state_root = match state {
                    Some(state) => state,
                    None => local_paths::join(&canonical, paths::STATE_DIR),
                };
                Ok(
                    LocalRoots {
                        local_root: local_root.to_owned(),
                        canonical_root: canonical,
                        state_root,
                    },
                )
            },
        },
    }
}

/// Where the local half of an inventory starts, or why there is none.
pub open spec fn local_start(
    local_root: Seq<char>,
    canonical_root: Result<String, Error>,
    state_root: Result<Option<String>, Error>,
    scope: ScopeView,
) -> Result<CollectionView, error::ErrorView> {
    if scope == ScopeView::LegacyProject {
        Err(error::failure("scoped inventory requires an explicit sync scope"@))
    } else {
        match roots_of(local_root, canonical_root, state_root) {
            Err(e) => Err(e),
            Ok(roots) => {
                let start = CollectionView {
                    roots,
                    segments: Seq::empty(),
                    at: 0,
                    relative: Seq::empty(),
                    ancestors: seq![roots.canonical_root],
                    stack: Seq::empty(),
                    entries: Map::empty(),
                    above: Map::empty(),
                    selected: true,
                    phase: LocalPhase::List,
                    failure: None,
                };
                match scope {
                    ScopeView::Path(path) => match paths::scoped_or_error(path) {
                        Err(e) => Err(e),
                        Ok(_) => Ok(
                            CollectionView {
                                segments: text::segments(path),
                                selected: false,
                                phase: LocalPhase::Select,
                                ..start
                            },
                        ),
                    },
                    _ => Ok(start),
                }
            },
        }
    }
}

impl LocalCollection {
    /// The maps are in order, and while the descent goes on there is a segment to
    /// look for.
    pub open spec fn wf(&self) -> bool {
        &&& self.entries.wf()
        &&& self.above.wf()
        &&& self.phase == LocalPhase::Select ==> self.at < self.segments@.len()
    }

    /// Starts the local half of an inventory from where its roots really lie.
    pub fn collect_local(
        local_root: &str,
        canonical_root: Result<String, Error>,
        state_root: Result<Option<String>, Error>,
        scope: &SyncScope,
    ) -> (out: Result<LocalCollection, Error>)
        ensures
            match (out, local_start(local_root@, canonical_root, state_root, scope@)) {
                (Ok(run), Ok(want)) => run.wf() && run@ == want,
                (Err(e), Err(want)) => e@ == want,
                _ => false,
            },
    {
        match scope {
            SyncScope::LegacyProject => {
                return Err(
                    Error::failure("scoped inventory requires an explicit sync scope".to_owned()),
                );
            },
            _ => {},
        }
        let roots = match find_roots(local_root, canonical_root, state_root) {
            Ok(roots) => roots,
            Err(e) => {
                return Err(e);
            },
        };
        let (segments, selecting) = match scope {
            SyncScope::Path(path) => {
                if let Err(e) = paths::validate_relative_path(path) {
                    return Err(e);
                }
                (text::split_slashes(path), true)
            },
            _ => (Vec::new(), false),
        };
        let mut ancestors: Vec<String> = Vec::new();
        ancestors.push(roots.canonical_root.clone());
        let out = LocalCollection {
            roots,
            segments,
            at: 0,
            relative: String::new(),
            ancestors,
            stack: Vec::new(),
            entries: PathMap::new(),
            above: PathMap::new(),
            selected: !selecting,
            phase: if selecting {
                LocalPhase::Select
            } else {
                LocalPhase::List
            },
            failure: None,
        };
        assert(out@.relative =~= Seq::<char>::empty());
        assert(out@.ancestors =~= seq![out@.roots.canonical_root]);
        assert(out@.stack =~= Seq::<LocalNodeView>::empty());
        assert(!selecting ==> out@.segments =~= Seq::<Seq<char>>::empty());
        Ok(out)
    }

    /// The relative path that is to be looked at next, or the relative directory
    /// whose children are to be read.
    pub fn current(&self) -> (out: String)
        requires
            self.wf(),
        ensures
            out@ == if self.phase == LocalPhase::Select {
                paths::joined(self@.relative, self@.segments[self@.at as int])
            } else {
                self@.relative
            },
    {
        match self.phase {
            LocalPhase::Select => {
                assert(self@.segments[self@.at as int] == self.segments@[self.at as int]@);
                paths::join_relative(&self.relative, &self.segments[self.at])
            },
            _ => self.relative.clone(),
        }
    }

    fn fail(&mut self, failure: Error)
        requires
            old(self).wf(),
        ensures
            final(self).wf(),
            final(self)@ == old(self)@.failed(failure@),
    {
        self.phase = LocalPhase::Done;
        self.failure = Some(failure);
    }

    fn is_inside(&self, canonical: &str) -> (out: bool)
        ensures
            out == self@.ancestors.contains(canonical@),
    {
        let ghost all = text::views(self.ancestors@);
        let mut i: usize = 0;
        while i < self.ancestors.len()
            invariant
                i <= self.ancestors@.len(),
                all == text::views(self.ancestors@),
                forall|k: int| 0 <= k < i ==> #[trigger] all[k] != canonical@,
            decreases self.ancestors.len() - i,
        {
            assert(all[i as int] == self.ancestors@[i as int]@);
            if text::same(&self.ancestors[i], canonical) {
                return true;
            }
            i += 1;
        }
        false
    }

    fn advance(&mut self)
        requires
            old(self).entries.wf(),
            old(self).above.wf(),
        ensures
            final(self).wf(),
            final(self)@ == old(self)@.advanced(),
    {
        while self.stack.len() > 0
            invariant
                self.entries.wf(),
                self.above.wf(),
                self@.advanced() == old(self)@.advanced(),
            decreases self.stack.len(),
        {
            let ghost before = self@;
            assert(before.stack.last() == self.stack@[self.stack@.len() - 1]@);
            let taken = self.stack.pop();
            assert(self@.stack =~= before.stack.drop_last());
            match taken {
                Some(LocalNode::File(path)) => {
                    inventory::record_local(&mut self.entries, &path, EntryKind::File);
                },
                Some(LocalNode::Directory(path, canonical)) => {
                    inventory::record_local(&mut self.entries, &path, EntryKind::Directory);
                    if self.is_inside(&canonical) {
                        let failure = Error::failure(
                            text::cat(
                                "local directory cycle encountered at ",
                                &directories::local_path_of(&self.roots.local_root, &path),
                            ),
                        );
                        self.phase = LocalPhase::Done;
                        self.failure = Some(failure);
                    } else {
                        self.ancestors.push(canonical);
                        assert(self@.ancestors =~= before.ancestors.push(canonical@));
                        self.relative = path;
                        self.phase = LocalPhase::List;
                    }
                    return ;
                },
                Some(LocalNode::Leave) => {
                    let left = self.ancestors.pop();
                    assert(before.ancestors.len() > 0 ==> self@.ancestors
                        =~= before.ancestors.drop_last());
                    assert(before.ancestors.len() == 0 ==> self@.ancestors =~= before.ancestors);
                },
                Some(LocalNode::Failure(e)) => {
                    self.phase = LocalPhase::Done;
                    self.failure = Some(e);
                    return ;
                },
                _ => {},
            }
        }
        self.phase = LocalPhase::Done;
    }

    /// Takes what is there at the next segment of the selected path.
    pub fn on_selected(&mut self, found: Result<Option<NodeFacts>, Error>)
        requires
            old(self).wf(),
        ensures
            final(self).wf(),
            final(self)@ == local_step(old(self)@, LocalReply::Selected(found)),
    {
        match self.phase {
            LocalPhase::Select => {},
            _ => {
                return ;
            },
        }
        let prefix = self.current();
        if paths::is_state_path(&prefix) {
            self.fail(
                Error::failure("refusing scoped path inside Ferry state directory".to_owned()),
            );
            return ;
        }
        match found {
            Err(e) => {
                let failure = failure_at(&self.roots, "reading local metadata ", &prefix, &e);
                self.fail(failure);
            },
            Ok(None) => {
                self.phase = LocalPhase::Done;
            },
            Ok(Some(facts)) => self.look_at(prefix, facts),
        }
    }

    fn look_at(&mut self, prefix: String, facts: NodeFacts)
        requires
            old(self).wf(),
            old(self).phase == LocalPhase::Select,
            prefix@ == paths::joined(
                old(self)@.relative,
                old(self)@.segments[old(self)@.at as int],
            ),
        ensures
            final(self).wf(),
            final(self)@ == old(self)@.looked_at(facts),
    {
        match &facts.canonical {
            Err(e) => {
                let failure = failure_at(&self.roots, "canonicalizing local path ", &prefix, e);
                self.fail(failure);
                return ;
            },
            Ok(canonical) => {
                if !paths::is_under_remote_root(&self.roots.canonical_root, canonical) {
                    let failure = outside_of(&self.roots, &prefix);
                    self.fail(failure);
                    return ;
                }
                if paths::is_under_remote_root(&self.roots.state_root, canonical) {
                    self.fail(
                        Error::failure(
                            "refusing scoped path inside Ferry state directory".to_owned(),
                        ),
                    );
                    return ;
                }
            },
        }
        let kind = match &facts.kind {
            Err(e) => {
                let failure = failure_at(&self.roots, "following local symlink ", &prefix, e);
                self.fail(failure);
                return ;
            },
            Ok(kind) => *kind,
        };
        if transfer_temp::is_reserved_transfer_temp(&prefix) || facts.ignored {
            self.phase = LocalPhase::Done;
            return ;
        }
        let total: usize = self.segments.len();
        if self.at == total - 1 {
            let node = judge(&self.roots, &prefix, &facts);
            let ghost want = seq![node@];
            self.selected = true;
            let mut stack: Vec<LocalNode> = Vec::new();
            stack.push(node);
            self.stack = stack;
            assert(self@.stack =~= want);
            self.advance();
        } else {
            match kind {
                None => {
                    let failure = unsupported_at(&self.roots, &prefix);
                    self.fail(failure);
                },
                Some(kind) => {
                    inventory::record_local(&mut self.above, &prefix, kind);
                    self.relative = prefix;
                    self.at = self.at + 1;
                    match kind {
                        EntryKind::Directory => {},
                        EntryKind::File => {
                            self.phase = LocalPhase::Done;
                        },
                    }
                },
            }
        }
    }

    /// Takes the children of the current directory.
    pub fn on_listing(&mut self, listing: Result<Vec<ChildRead>, Error>)
        requires
            old(self).wf(),
        ensures
            final(self).wf(),
            final(self)@ == local_step(old(self)@, LocalReply::Listing(read_of(listing))),
    {
        match self.phase {
            LocalPhase::List => {},
            _ => {
                return ;
            },
        }
        match listing {
            Err(e) => {
                let failure = failure_at(&self.roots, "reading local dir ", &self.relative, &e);
                self.fail(failure);
            },
            Ok(reads) => {
                let ghost start = self@;
                self.stack.push(LocalNode::Leave);
                let ghost base = start.stack.push(LocalNodeView::Leave);
                assert(self@.stack =~= base);
                let mut left: usize = reads.len();
                assert(reads@.skip(reads@.len() as int) =~= Seq::<ChildRead>::empty());
                assert(children_judged(
                    start.roots,
                    start.relative,
                    reads@.skip(left as int),
                ).reverse() =~= Seq::<LocalNodeView>::empty());
                assert(base + Seq::<LocalNodeView>::empty() =~= base);
                while left > 0
                    invariant
                        left <= reads@.len(),
                        self.entries.wf(),
                        self.above.wf(),
                        self@ == (CollectionView {
                            stack: base + children_judged(
                                start.roots,
                                start.relative,
                                reads@.skip(left as int),
                            ).reverse(),
                            ..start
                        }),
                    decreases left,
                {
                    let ghost before = self@.stack;
                    let node = judge_child(&self.roots, &self.relative, &reads[left - 1]);
                    self.stack.push(node);
                    proof {
                        let nodes = children_judged(
                            start.roots,
                            start.relative,
                            reads@.skip(left as int),
                        );
                        let more = children_judged(
                            start.roots,
                            start.relative,
                            reads@.skip(left - 1),
                        );
                        assert(reads@.skip(left - 1)[0] == reads@[left - 1]);
                        assert(more.reverse() =~= nodes.reverse().push(node@)) by {
                            assert forall|i: int| 0 <= i < nodes.len() implies nodes[i]
                                == #[trigger] more[i + 1] by {
                                assert(reads@.skip(left as int)[i] == reads@.skip(left - 1)[i + 1]);
                            }
                        }
                        assert(self@.stack =~= before.push(node@));
                        assert(self@.stack =~= base + more.reverse());
                    }
                    left = left - 1;
                }
                assert(reads@.skip(0) =~= reads@);
                self.advance();
            },
        }
    }
}

/// What was read of a directory, its failure taken by its view.
pub open spec fn read_of(listing: Result<Vec<ChildRead>, Error>) -> Result<
    Seq<ChildRead>,
    error::ErrorView,
> {
    match listing {
        Ok(reads) => Ok(reads@),
        Err(e) => Err(e@),
    }
}

/// Whether a node is one that may be recorded in the scope.
pub open spec fn node_keeps_to(scope: ScopeView, node: LocalNodeView) -> bool {
    match node {
        LocalNodeView::File(path) => scope::contains(scope, path) && !inventory::is_own(path),
        LocalNodeView::Directory(path, _) => scope::contains(scope, path) && !inventory::is_own(
            path,
        ) && remote_inventory::holds_scope(scope, path),
        _ => true,
    }
}

/// Whether the local half of an inventory has kept to its scope, and is in no
/// directory twice.
pub open spec fn keeps_to(scope: ScopeView, u: CollectionView) -> bool {
    &&& inventory::in_scope(scope, u.entries)
    &&& u.ancestors.no_duplicates()
    &&& forall|i: int| 0 <= i < u.stack.len() ==> node_keeps_to(scope, #[trigger] u.stack[i])
    &&& u.phase == LocalPhase::List ==> remote_inventory::holds_scope(scope, u.relative)
    &&& u.phase == LocalPhase::Select ==> {
        &&& u.at < u.segments.len()
        &&& u.relative == paths::path_to(u.segments.take(u.at as int))
        &&& scope == ScopeView::Path(paths::path_to(u.segments))
        &&& paths::path_to(u.segments).len() > 0
    }
}

proof fn advanced_keeps_to(scope: ScopeView, u: CollectionView)
    requires
        inventory::in_scope(scope, u.entries),
        u.ancestors.no_duplicates(),
        forall|i: int| 0 <= i < u.stack.len() ==> node_keeps_to(scope, #[trigger] u.stack[i]),
    ensures
        keeps_to(scope, u.advanced()),
    decreases u.stack.len(),
{
    if u.stack.len() > 0 {
        let node = u.stack.last();
        assert(node_keeps_to(scope, u.stack[u.stack.len() - 1]));
        let next = CollectionView { stack: u.stack.drop_last(), ..u };
        match node {
            LocalNodeView::Nothing => advanced_keeps_to(scope, next),
            LocalNodeView::File(path) => advanced_keeps_to(
                scope,
                CollectionView {
                    entries: inventory::with_local(u.entries, path, EntryKind::File),
                    ..next
                },
            ),
            LocalNodeView::Directory(path, canonical) => {
                if !u.ancestors.contains(canonical) {
                    let more = u.ancestors.push(canonical);
                    assert forall|i: int, j: int|
                        0 <= i < more.len() && 0 <= j < more.len() && i != j implies more[i]
                        != more[j] by {
                        if i == u.ancestors.len() {
                            assert(u.ancestors.contains(more[j]));
                        } else if j == u.ancestors.len() {
                            assert(u.ancestors.contains(more[i]));
                        }
                    }
                }
            },
            LocalNodeView::Leave => advanced_keeps_to(
                scope,
                CollectionView {
                    ancestors: if u.ancestors.len() > 0 {
                        u.ancestors.drop_last()
                    } else {
                        u.ancestors
                    },
                    ..next
                },
            ),
            LocalNodeView::Failure(_) => {},
        }
    }
}

/// The local half of an inventory records only paths of its scope, and none that
/// belongs to the state or to an unfinished transfer, and it never goes into a
/// directory that it is in already, whatever is found on disk.
pub proof fn local_inventory_keeps_to_its_scope(
    scope: ScopeView,
    u: CollectionView,
    reply: LocalReply,
)
    requires
        keeps_to(scope, u),
    ensures
        keeps_to(scope, local_step(u, reply)),
{
    match reply {
        LocalReply::Selected(found) => {
            if u.phase == LocalPhase::Select {
                let name = u.segments[u.at as int];
                let prefix = paths::joined(u.relative, name);
                let further = u.segments.take(u.at as int + 1);
                assert(further.drop_last() =~= u.segments.take(u.at as int));
                assert(further.last() == name);
                assert(paths::path_to(further) == prefix);
                if u.at + 1 == u.segments.len() {
                    assert(further =~= u.segments);
                    if let Ok(Some(facts)) = found {
                        let next = CollectionView {
                            selected: true,
                            stack: seq![judged(u.roots, prefix, facts)],
                            ..u
                        };
                        assert(scope::contains(scope, prefix));
                        assert(remote_inventory::holds_scope(scope, prefix));
                        assert(node_keeps_to(scope, judged(u.roots, prefix, facts)));
                        assert forall|i: int| 0 <= i < next.stack.len() implies node_keeps_to(
                            scope,
                            #[trigger] next.stack[i],
                        ) by {
                            assert(next.stack[i] == judged(u.roots, prefix, facts));
                        }
                        advanced_keeps_to(scope, next);
                    }
                }
            }
        },
        LocalReply::Listing(listing) => {
            if let (LocalPhase::List, Ok(reads)) = (u.phase, listing) {
                let nodes = children_judged(u.roots, u.relative, reads);
                let next = CollectionView {
                    stack: u.stack.push(LocalNodeView::Leave) + nodes.reverse(),
                    ..u
                };
                assert forall|i: int| 0 <= i < next.stack.len() implies node_keeps_to(
                    scope,
                    #[trigger] next.stack[i],
                ) by {
                    if i < u.stack.len() {
                        assert(next.stack[i] == u.stack[i]);
                    } else if i > u.stack.len() {
                        let k = nodes.len() - 1 - (i - u.stack.len() - 1);
                        assert(next.stack[i] == nodes[k]);
                        if let ChildRead::Child(name, facts) = reads[k] {
                            remote_inventory::child_lies_in_scope(scope, u.relative, name@);
                        }
                    }
                }
                advanced_keeps_to(scope, next);
            }
        },
    }
}

/// The local half of an inventory starts within its scope.
pub proof fn local_inventory_starts_in_scope(
    local_root: Seq<char>,
    canonical_root: Result<String, Error>,
    state_root: Result<Option<String>, Error>,
    scope: ScopeView,
)
    ensures
        local_start(local_root, canonical_root, state_root, scope) matches Ok(u) ==> keeps_to(
            scope,
            u,
        ),
{
    if let Ok(u) = local_start(local_root, canonical_root, state_root, scope) {
        if let ScopeView::Path(path) = scope {
            paths::canonical_is_path_to(path);
            text::segments_nonempty(path);
            assert(paths::names_entry(text::segments(path)[0]));
            assert(path.len() > 0);
            assert(u.segments.take(0) =~= Seq::<Seq<char>>::empty());
        }
    }
}

/// A local path is taken for what it is exactly where it does not belong to Ferry,
/// by its name or by where it really lies, lies in the root, is a file or a
/// directory and is not ignored. It is a failure exactly where it cannot be told,
/// lies outside the root or is neither, and Ferry has no claim to its name.
pub proof fn path_is_taken_for_what_it_is(
    roots: RootsView,
    relative: Seq<char>,
    facts: NodeFacts,
)
    ensures
        ({
            let own = inventory::is_own(relative);
            let inside = facts.canonical is Ok && paths::under_remote_root(
                roots.canonical_root,
                facts.canonical->Ok_0@,
            );
            let hidden = inside && paths::under_remote_root(
                roots.state_root,
                facts.canonical->Ok_0@,
            );
            let told = facts.kind is Ok && facts.kind->Ok_0 is Some;
            let node = judged(roots, relative, facts);
            &&& node == LocalNodeView::File(relative) <==> !own && inside && !hidden && facts.kind
                == Ok::<Option<EntryKind>, Error>(Some(EntryKind::File)) && !facts.ignored
            &&& node is File ==> node == LocalNodeView::File(relative)
            &&& node is Directory <==> !own && inside && !hidden && facts.kind == Ok::<
                Option<EntryKind>,
                Error,
            >(Some(EntryKind::Directory)) && !facts.ignored
            &&& node is Directory ==> node == LocalNodeView::Directory(
                relative,
                facts.canonical->Ok_0@,
            )
            &&& node is Nothing <==> own || hidden || (inside && told && facts.ignored)
            &&& node is Failure <==> !own && (!inside || (!hidden && !told))
        }),
{
}

/// Whether a node says that there is an entry of a kind at a path.
pub open spec fn says(node: LocalNodeView, path: Seq<char>, kind: EntryKind) -> bool {
    match node {
        LocalNodeView::File(at) => at == path && kind == EntryKind::File,
        LocalNodeView::Directory(at, _) => at == path && kind == EntryKind::Directory,
        _ => false,
    }
}

/// Whether no node says that there is an entry of another kind at a path.
pub open spec fn says_only(nodes: Seq<LocalNodeView>, path: Seq<char>, kind: EntryKind) -> bool {
    forall|i: int, other: EntryKind|
        0 <= i < nodes.len() && #[trigger] says(nodes[i], path, other) ==> other == kind
}

/// Whether some node says that there is an entry of a kind at a path.
pub open spec fn is_said(nodes: Seq<LocalNodeView>, path: Seq<char>, kind: EntryKind) -> bool {
    exists|i: int| 0 <= i < nodes.len() && #[trigger] says(nodes[i], path, kind)
}

/// Whether an entry of a kind at a path is recorded, or still to be.
pub open spec fn minded(u: CollectionView, path: Seq<char>, kind: EntryKind) -> bool {
    &&& says_only(u.stack, path, kind)
    &&& inventory::known_at(u.entries, path).local is Some ==> inventory::known_at(
        u.entries,
        path,
    ).local == Some(kind)
    &&& inventory::known_at(u.entries, path).local == Some(kind) || is_said(u.stack, path, kind)
}

/// Whether nothing is left to be recorded unless the inventory goes on or failed.
pub open spec fn leaves_nothing(u: CollectionView) -> bool {
    u.phase != LocalPhase::List && u.failure is None ==> u.stack.len() == 0
}

proof fn advanced_minds(u: CollectionView, path: Seq<char>, kind: EntryKind)
    requires
        minded(u, path, kind),
    ensures
        u.advanced().failure is None ==> minded(u.advanced(), path, kind),
    decreases u.stack.len(),
{
    if u.stack.len() > 0 {
        let node = u.stack.last();
        let fewer = u.stack.drop_last();
        let next = CollectionView { stack: fewer, ..u };
        assert(node == u.stack[u.stack.len() - 1]);
        assert forall|i: int, other: EntryKind|
            0 <= i < fewer.len() && #[trigger] says(fewer[i], path, other) implies other == kind by {
            assert(says(u.stack[i], path, other));
        }
        if is_said(u.stack, path, kind) && !says(node, path, kind) {
            let i = choose|i: int| 0 <= i < u.stack.len() && #[trigger] says(
                u.stack[i],
                path,
                kind,
            );
            assert(says(fewer[i], path, kind));
        }
        match node {
            LocalNodeView::Nothing => advanced_minds(next, path, kind),
            LocalNodeView::File(at) => {
                assert(says(u.stack[u.stack.len() - 1], at, EntryKind::File));
                advanced_minds(
                    CollectionView {
                        entries: inventory::with_local(u.entries, at, EntryKind::File),
                        ..next
                    },
                    path,
                    kind,
                );
            },
            LocalNodeView::Directory(at, canonical) => {
                assert(says(u.stack[u.stack.len() - 1], at, EntryKind::Directory));
            },
            LocalNodeView::Leave => advanced_minds(
                CollectionView {
                    ancestors: if u.ancestors.len() > 0 {
                        u.ancestors.drop_last()
                    } else {
                        u.ancestors
                    },
                    ..next
                },
                path,
                kind,
            ),
            LocalNodeView::Failure(_) => {},
        }
    }
}

proof fn advanced_leaves_nothing(u: CollectionView)
    ensures
        leaves_nothing(u.advanced()),
    decreases u.stack.len(),
{
    if u.stack.len() > 0 {
        let next = CollectionView { stack: u.stack.drop_last(), ..u };
        match u.stack.last() {
            LocalNodeView::Nothing => advanced_leaves_nothing(next),
            LocalNodeView::File(at) => advanced_leaves_nothing(
                CollectionView {
                    entries: inventory::with_local(u.entries, at, EntryKind::File),
                    ..next
                },
            ),
            LocalNodeView::Leave => advanced_leaves_nothing(
                CollectionView {
                    ancestors: if u.ancestors.len() > 0 {
                        u.ancestors.drop_last()
                    } else {
                        u.ancestors
                    },
                    ..next
                },
            ),
            _ => {},
        }
    }
}

/// Every child that a listing shows to be a file or a directory is recorded as
/// that, or still to be once the listing was taken in.
pub proof fn listed_children_are_minded(
    u: CollectionView,
    reads: Seq<ChildRead>,
    path: Seq<char>,
    kind: EntryKind,
)
    requires
        u.phase == LocalPhase::List,
        says_only(u.stack, path, kind),
        says_only(children_judged(u.roots, u.relative, reads), path, kind),
        inventory::known_at(u.entries, path).local is Some ==> inventory::known_at(
            u.entries,
            path,
        ).local == Some(kind),
        exists|i: int|
            0 <= i < reads.len() && #[trigger] says(
                child_judged(u.roots, u.relative, reads[i]),
                path,
                kind,
            ),
        local_step(u, LocalReply::Listing(Ok(reads))).failure is None,
    ensures
        minded(local_step(u, LocalReply::Listing(Ok(reads))), path, kind),
{
    let nodes = children_judged(u.roots, u.relative, reads);
    let next = CollectionView {
        stack: u.stack.push(LocalNodeView::Leave) + nodes.reverse(),
        ..u
    };
    assert forall|i: int, other: EntryKind|
        0 <= i < next.stack.len() && #[trigger] says(next.stack[i], path, other) implies other
        == kind by {
        if i < u.stack.len() {
            assert(says(u.stack[i], path, other));
        } else if i > u.stack.len() {
            let k = nodes.len() - 1 - (i - u.stack.len() - 1);
            assert(next.stack[i] == nodes[k]);
            assert(says(nodes[k], path, other));
        }
    }
    let i = choose|i: int|
        0 <= i < reads.len() && #[trigger] says(
            child_judged(u.roots, u.relative, reads[i]),
            path,
            kind,
        );
    let at = u.stack.len() + 1 + (nodes.len() - 1 - i);
    assert(next.stack[at] == nodes[i]);
    assert(says(next.stack[at], path, kind));
    advanced_minds(next, path, kind);
}

/// What is recorded or still to be stays so, whatever is found on disk, and once
/// the inventory is done without a failure it is recorded: nothing that was
/// listed is lost.
pub proof fn minded_entries_are_recorded(
    u: CollectionView,
    reply: LocalReply,
    path: Seq<char>,
    kind: EntryKind,
)
    requires
        leaves_nothing(u),
        minded(u, path, kind),
        reply matches LocalReply::Listing(Ok(reads)) ==> says_only(
            children_judged(u.roots, u.relative, reads),
            path,
            kind,
        ),
        u.phase != LocalPhase::Select,
        local_step(u, reply).failure is None,
    ensures
        leaves_nothing(local_step(u, reply)),
        minded(local_step(u, reply), path, kind),
        local_step(u, reply).phase == LocalPhase::Done ==> local_step(
            u,
            reply,
        ).entries.contains_key(path) && local_step(u, reply).entries[path].local == Some(kind),
{
    if let (LocalPhase::List, LocalReply::Listing(Ok(reads))) = (u.phase, reply) {
        let nodes = children_judged(u.roots, u.relative, reads);
        let next = CollectionView {
            stack: u.stack.push(LocalNodeView::Leave) + nodes.reverse(),
            ..u
        };
        assert forall|i: int, other: EntryKind|
            0 <= i < next.stack.len() && #[trigger] says(next.stack[i], path, other) implies other
            == kind by {
            if i < u.stack.len() {
                assert(says(u.stack[i], path, other));
            } else if i > u.stack.len() {
                let k = nodes.len() - 1 - (i - u.stack.len() - 1);
                assert(next.stack[i] == nodes[k]);
                assert(says(nodes[k], path, other));
            }
        }
        if is_said(u.stack, path, kind) {
            let i = choose|i: int| 0 <= i < u.stack.len() && #[trigger] says(
                u.stack[i],
                path,
                kind,
            );
            assert(next.stack[i] == u.stack[i]);
            assert(says(next.stack[i], path, kind));
        }
        advanced_minds(next, path, kind);
        advanced_leaves_nothing(next);
    }
    assert(!is_said(Seq::<LocalNodeView>::empty(), path, kind));
}

/// Whether a directory waits to be read.
pub open spec fn waits(u: CollectionView, path: Seq<char>) -> bool {
    is_said(u.stack, path, EntryKind::Directory)
}

proof fn advanced_reads_what_waits(u: CollectionView, path: Seq<char>)
    requires
        waits(u, path),
    ensures
        ({
            let next = u.advanced();
            next.failure is None ==> waits(next, path) || (next.phase == LocalPhase::List
                && next.relative == path)
        }),
    decreases u.stack.len(),
{
    let node = u.stack.last();
    let fewer = u.stack.drop_last();
    let next = CollectionView { stack: fewer, ..u };
    let i = choose|i: int| 0 <= i < u.stack.len() && #[trigger] says(
        u.stack[i],
        path,
        EntryKind::Directory,
    );
    if i < fewer.len() {
        assert(says(fewer[i], path, EntryKind::Directory));
    }
    match node {
        LocalNodeView::Nothing => advanced_reads_what_waits(next, path),
        LocalNodeView::File(at) => advanced_reads_what_waits(
            CollectionView {
                entries: inventory::with_local(u.entries, at, EntryKind::File),
                ..next
            },
            path,
        ),
        LocalNodeView::Leave => advanced_reads_what_waits(
            CollectionView {
                ancestors: if u.ancestors.len() > 0 {
                    u.ancestors.drop_last()
                } else {
                    u.ancestors
                },
                ..next
            },
            path,
        ),
        _ => {},
    }
}

/// Every directory that a listing shows waits to be read or is read next, and one
/// that waits goes on to until it is read: no directory is passed by.
pub proof fn every_directory_is_read(u: CollectionView, reads: Seq<ChildRead>, path: Seq<char>)
    requires
        u.phase == LocalPhase::List,
        waits(u, path) || exists|i: int|
            0 <= i < reads.len() && #[trigger] says(
                child_judged(u.roots, u.relative, reads[i]),
                path,
                EntryKind::Directory,
            ),
        local_step(u, LocalReply::Listing(Ok(reads))).failure is None,
    ensures
        ({
            let next = local_step(u, LocalReply::Listing(Ok(reads)));
            waits(next, path) || (next.phase == LocalPhase::List && next.relative == path)
        }),
{
    let nodes = children_judged(u.roots, u.relative, reads);
    let next = CollectionView {
        stack: u.stack.push(LocalNodeView::Leave) + nodes.reverse(),
        ..u
    };
    if waits(u, path) {
        let i = choose|i: int| 0 <= i < u.stack.len() && #[trigger] says(
            u.stack[i],
            path,
            EntryKind::Directory,
        );
        assert(next.stack[i] == u.stack[i]);
        assert(says(next.stack[i], path, EntryKind::Directory));
    } else {
        let i = choose|i: int|
            0 <= i < reads.len() && #[trigger] says(
                child_judged(u.roots, u.relative, reads[i]),
                path,
                EntryKind::Directory,
            );
        let at = u.stack.len() + 1 + (nodes.len() - 1 - i);
        assert(next.stack[at] == nodes[i]);
        assert(says(next.stack[at], path, EntryKind::Directory));
    }
    advanced_reads_what_waits(next, path);
}

/// A failure that a listing shows ends the inventory, unless what comes before it
/// does.
pub proof fn failed_child_ends_the_inventory(u: CollectionView, reads: Seq<ChildRead>)
    requires
        u.phase == LocalPhase::List,
        u.failure is None,
        reads.len() > 0,
        child_judged(u.roots, u.relative, reads[0]) is Failure,
    ensures
        local_step(u, LocalReply::Listing(Ok(reads))).phase == LocalPhase::Done,
        local_step(u, LocalReply::Listing(Ok(reads))).failure == Some(
            child_judged(u.roots, u.relative, reads[0])->Failure_0,
        ),
{
    let nodes = children_judged(u.roots, u.relative, reads);
    let stack = u.stack.push(LocalNodeView::Leave) + nodes.reverse();
    assert(stack.last() == nodes[0]);
}

/// The segments of a selected path are looked at one by one. The descent goes on
/// exactly where a directory is found that is neither ignored nor reserved; at
/// the last segment what is found is selected.
pub proof fn selection_goes_down_segment_by_segment(u: CollectionView, facts: NodeFacts)
    requires
        u.phase == LocalPhase::Select,
        u.failure is None,
        u.at < u.segments.len(),
        !paths::state_path(paths::joined(u.relative, u.segments[u.at as int])),
    ensures
        ({
            let prefix = paths::joined(u.relative, u.segments[u.at as int]);
            let next = local_step(u, LocalReply::Selected(Ok(Some(facts))));
            let inside = facts.canonical is Ok && paths::under_remote_root(
                u.roots.canonical_root,
                facts.canonical->Ok_0@,
            ) && !paths::under_remote_root(u.roots.state_root, facts.canonical->Ok_0@);
            let passed_over = transfer_temp::reserved(prefix) || facts.ignored;
            let last = u.at + 1 == u.segments.len();
            &&& !inside || facts.kind is Err ==> next.failure is Some
            &&& inside && facts.kind is Ok && passed_over ==> next.phase == LocalPhase::Done
                && next.failure is None && next.entries == u.entries && next.above == u.above
                && next.selected == u.selected
            &&& inside && facts.kind is Ok && !passed_over && !last ==> {
                &&& next.failure is Some <==> facts.kind->Ok_0 is None
                &&& facts.kind->Ok_0 is Some ==> {
                    &&& next.above.contains_key(prefix)
                    &&& next.above[prefix].local == facts.kind->Ok_0
                    &&& next.phase == LocalPhase::Select <==> facts.kind->Ok_0 == Some(
                        EntryKind::Directory,
                    )
                    &&& next.at == u.at + 1
                    &&& next.relative == prefix
                    &&& next.entries == u.entries
                }
            }
            &&& inside && facts.kind is Ok && !passed_over && last ==> next.selected
        }),
{
    let prefix = paths::joined(u.relative, u.segments[u.at as int]);
    let next = CollectionView {
        selected: true,
        stack: seq![judged(u.roots, prefix, facts)],
        ..u
    };
    advanced_keeps_its_selection(next);
}

proof fn advanced_keeps_its_selection(u: CollectionView)
    ensures
        u.advanced().selected == u.selected,
    decreases u.stack.len(),
{
    if u.stack.len() > 0 {
        let next = CollectionView { stack: u.stack.drop_last(), ..u };
        match u.stack.last() {
            LocalNodeView::Nothing => advanced_keeps_its_selection(next),
            LocalNodeView::File(at) => advanced_keeps_its_selection(
                CollectionView {
                    entries: inventory::with_local(u.entries, at, EntryKind::File),
                    ..next
                },
            ),
            LocalNodeView::Leave => advanced_keeps_its_selection(
                CollectionView {
                    ancestors: if u.ancestors.len() > 0 {
                        u.ancestors.drop_last()
                    } else {
                        u.ancestors
                    },
                    ..next
                },
            ),
            _ => {},
        }
    }
}

} // verus!
