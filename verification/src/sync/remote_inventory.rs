//! The remote half of an inventory: the descent to the selected path, and what
//! lies below it.

use crate::error::Error;
use crate::error;
use crate::file_transfer;
use crate::ftp::{Entry, EntryView};
use crate::inventory::{EntryKind, InventoryEntry};
use crate::inventory;
use crate::listing;
use crate::order::PathMap;
use crate::paths;
use crate::scope::{ScopeView, SyncScope};
use crate::scope;
use crate::sync::plan::Entries;
use crate::text;
use vstd::prelude::*;

verus! {

broadcast use vstd::seq::group_seq_axioms;

/// A child of a remote directory.
#[derive(Debug)]
pub struct RemoteChild {
    pub name: String,
    pub is_dir: bool,
}

/// What a child says.
pub struct ChildView {
    pub name: Seq<char>,
    pub is_dir: bool,
}

impl View for RemoteChild {
    type V = ChildView;

    open spec fn view(&self) -> ChildView {
        ChildView { name: self.name@, is_dir: self.is_dir }
    }
}

/// Whether a listed child of the relative directory is one that may be
/// synchronised, unless it is ignored.
pub open spec fn is_candidate(relative: Seq<char>, entry: EntryView) -> bool {
    !entry.is_symlink && !inventory::is_own(paths::joined(relative, entry.name))
}

/// The children that may be synchronised, unless they are ignored.
pub open spec fn candidates_of(relative: Seq<char>, found: Seq<EntryView>) -> Seq<ChildView>
    decreases found.len(),
{
    if found.len() == 0 {
        Seq::empty()
    } else {
        let before = candidates_of(relative, found.drop_last());
        if is_candidate(relative, found.last()) {
            before.push(ChildView { name: found.last().name, is_dir: found.last().is_dir })
        } else {
            before
        }
    }
}

/// What is said of a symlink that an inventory passes over.
pub open spec fn skipped(name: Seq<char>, directory: Seq<char>) -> Seq<char> {
    "warning: skipping remote symlink "@ + text::debug_text(text::escaped(name)) + " in "@
        + text::debug_text(directory)
        + ": not following it, the target can resolve outside the remote root"@
}

/// What is said of the symlinks among some children.
pub open spec fn skips_of(directory: Seq<char>, found: Seq<EntryView>) -> Seq<Seq<char>>
    decreases found.len(),
{
    if found.len() == 0 {
        Seq::empty()
    } else {
        let before = skips_of(directory, found.drop_last());
        if found.last().is_symlink {
            before.push(skipped(found.last().name, directory))
        } else {
            before
        }
    }
}

/// The children of a remote directory that may be synchronised, unless they are
/// ignored, what is said of those that are passed over, and what refuses the
/// listing.
#[derive(Debug)]
pub struct RemoteChildren {
    pub candidates: Vec<RemoteChild>,
    pub warnings: Vec<String>,
    pub refusal: Option<Error>,
}

/// Reads a listing of a remote directory. Every entry must denote a direct child
/// below the root, symlinks included, and none may come twice.
pub fn list_remote_children(
    root: &str,
    directory: &str,
    relative: &str,
    entries: &Vec<Entry>,
) -> (out: RemoteChildren)
    ensures
        ({
            let (found, refusal) = listing::read_children(
                root@,
                directory@,
                text::views(entries@),
            );
            &&& text::views(out.candidates@) == candidates_of(relative@, found)
            &&& text::views(out.warnings@) == skips_of(directory@, found)
            &&& match (out.refusal, refusal) {
                (Some(e), Some(want)) => e@ == want,
                (None, None) => true,
                _ => false,
            }
        }),
        forall|i: int|
            0 <= i < out.warnings@.len() ==> !text::has_control(#[trigger] out.warnings@[i]@),
        out.refusal matches Some(e) ==> error::plain(e@),
{
    proof {
        reveal_strlit("warning: skipping remote symlink ");
        reveal_strlit(" in ");
        reveal_strlit(": not following it, the target can resolve outside the remote root");
    }
    let (found, refusal) = listing::read_children_of(root, directory, entries);
    let ghost all = text::views(found@);
    let mut candidates: Vec<RemoteChild> = Vec::new();
    let mut warnings: Vec<String> = Vec::new();
    let mut i: usize = 0;
    assert(text::views(candidates@) =~= Seq::<ChildView>::empty());
    assert(text::views(warnings@) =~= Seq::<Seq<char>>::empty());
    while i < found.len()
        invariant
            i <= found@.len(),
            all == text::views(found@),
            text::views(candidates@) == candidates_of(relative@, all.take(i as int)),
            text::views(warnings@) == skips_of(directory@, all.take(i as int)),
            forall|k: int|
                0 <= k < warnings@.len() ==> !text::has_control(#[trigger] warnings@[k]@),
            !text::has_control("warning: skipping remote symlink "@),
            !text::has_control(" in "@),
            !text::has_control(
                ": not following it, the target can resolve outside the remote root"@,
            ),
        decreases found.len() - i,
    {
        let ghost before = text::views(candidates@);
        let ghost said = text::views(warnings@);
        assert(all.take(i + 1).drop_last() =~= all.take(i as int));
        assert(all.take(i + 1).last() == found@[i as int]@);
        let entry = &found[i];
        if entry.is_symlink {
            let first = text::quote_after(
                "warning: skipping remote symlink ",
                &inventory::sanitize_entry_name(&entry.name),
            );
            let second = text::quote_after(" in ", directory);
            let reason = ": not following it, the target can resolve outside the remote root";
            proof {
                text::control_in_either(first@, second@);
                text::control_in_either(first@ + second@, reason@);
            }
            let warning = text::cat3(&first, &second, reason);
            assert(warning@ =~= skipped(entry@.name, directory@));
            warnings.push(warning);
            assert(text::views(warnings@) =~= said.push(skipped(entry@.name, directory@)));
        } else {
            let path = paths::join_relative(relative, &entry.name);
            if !inventory::belongs_to_ferry(&path) {
                candidates.push(RemoteChild { name: entry.name.clone(), is_dir: entry.is_dir });
                assert(text::views(candidates@) =~= before.push(
                    ChildView { name: entry@.name, is_dir: entry@.is_dir },
                ));
            }
        }
        i += 1;
    }
    assert(all.take(i as int) =~= all);
    RemoteChildren { candidates, warnings, refusal }
}

/// The children that are not ignored.
pub open spec fn kept(candidates: Seq<ChildView>, ignored: Seq<bool>) -> Seq<ChildView>
    decreases candidates.len(),
{
    if candidates.len() == 0 {
        Seq::empty()
    } else {
        let before = kept(candidates.drop_last(), ignored);
        if inventory::marked(ignored, candidates.len() - 1) {
            before
        } else {
            before.push(candidates.last())
        }
    }
}

/// The children that are not ignored; `ignored` marks those that are.
pub fn keep(candidates: &Vec<RemoteChild>, ignored: &Vec<bool>) -> (out: Vec<RemoteChild>)
    ensures
        text::views(out@) == kept(text::views(candidates@), ignored@),
{
    let ghost all = text::views(candidates@);
    let mut out: Vec<RemoteChild> = Vec::new();
    let mut i: usize = 0;
    assert(text::views(out@) =~= Seq::<ChildView>::empty());
    while i < candidates.len()
        invariant
            i <= candidates@.len(),
            all == text::views(candidates@),
            text::views(out@) == kept(all.take(i as int), ignored@),
        decreases candidates.len() - i,
    {
        let ghost before = text::views(out@);
        assert(all.take(i + 1).drop_last() =~= all.take(i as int));
        assert(all.take(i + 1).last() == candidates@[i as int]@);
        let is_ignored = i < ignored.len() && ignored[i];
        if !is_ignored {
            out.push(
                RemoteChild { name: candidates[i].name.clone(), is_dir: candidates[i].is_dir },
            );
            assert(text::views(out@) =~= before.push(candidates@[i as int]@));
        }
        i += 1;
    }
    assert(all.take(i as int) =~= all);
    out
}

/// The child of the given name.
pub open spec fn child_named(children: Seq<ChildView>, name: Seq<char>) -> Option<ChildView>
    decreases children.len(),
{
    if children.len() == 0 {
        None
    } else if children[0].name == name {
        Some(children[0])
    } else {
        child_named(children.skip(1), name)
    }
}

/// Whether the child of the given name is a directory, if there is one.
fn find_child(children: &Vec<RemoteChild>, name: &str) -> (out: Option<bool>)
    ensures
        match (out, child_named(text::views(children@), name@)) {
            (Some(is_dir), Some(child)) => child == (ChildView { name: name@, is_dir }),
            (None, None) => true,
            _ => false,
        },
{
    let ghost all = text::views(children@);
    let mut i: usize = 0;
    assert(all.skip(0) =~= all);
    while i < children.len()
        invariant
            i <= children@.len(),
            all == text::views(children@),
            child_named(all, name@) == child_named(all.skip(i as int), name@),
        decreases children.len() - i,
    {
        assert(all.skip(i as int)[0] == children@[i as int]@);
        assert(all.skip(i as int).skip(1) =~= all.skip(i + 1));
        if text::same(&children[i].name, name) {
            return Some(children[i].is_dir);
        }
        i += 1;
    }
    None
}

/// What a directory or a file is.
pub open spec fn kind_of(is_dir: bool) -> EntryKind {
    if is_dir {
        EntryKind::Directory
    } else {
        EntryKind::File
    }
}

/// What a directory or a file is.
pub fn entry_kind(is_dir: bool) -> (out: EntryKind)
    ensures
        out == kind_of(is_dir),
{
    if is_dir {
        EntryKind::Directory
    } else {
        EntryKind::File
    }
}

/// A child that is still to be recorded, and where it lies.
#[derive(Debug)]
pub struct RemoteNode {
    pub relative: String,
    pub directory: String,
    pub is_dir: bool,
}

/// A child that is still to be recorded, and where it lies.
pub struct NodeView {
    pub relative: Seq<char>,
    pub directory: Seq<char>,
    pub is_dir: bool,
}

impl View for RemoteNode {
    type V = NodeView;

    open spec fn view(&self) -> NodeView {
        NodeView {
            relative: self.relative@,
            directory: self.directory@,
            is_dir: self.is_dir,
        }
    }
}

/// What the remote half of an inventory waits for.
#[derive(Debug, Clone, Copy, PartialEq, Eq, Structural)]
pub enum RemotePhase {
    /// The listing of the current directory.
    List,
    /// Which of the candidates are ignored.
    Ignore,
    Done,
}

/// The remote half of an inventory. While `selecting` it goes down the segments
/// of the selected path; after that it gathers everything below. The last node of
/// the stack comes first.
#[derive(Debug)]
pub struct RemoteCollection {
    pub root: String,
    pub segments: Vec<String>,
    pub at: usize,
    pub selecting: bool,
    pub directory: String,
    pub relative: String,
    pub candidates: Vec<RemoteChild>,
    pub stack: Vec<RemoteNode>,
    pub entries: PathMap<InventoryEntry>,
    pub above: PathMap<InventoryEntry>,
    pub warnings: Vec<String>,
    pub selected: bool,
    pub phase: RemotePhase,
    pub failure: Option<Error>,
}

/// What the remote half of an inventory says.
pub struct RemoteView {
    pub root: Seq<char>,
    pub segments: Seq<Seq<char>>,
    pub at: nat,
    pub selecting: bool,
    pub directory: Seq<char>,
    pub relative: Seq<char>,
    pub candidates: Seq<ChildView>,
    pub stack: Seq<NodeView>,
    pub entries: Entries,
    pub above: Entries,
    pub warnings: Seq<Seq<char>>,
    pub selected: bool,
    pub phase: RemotePhase,
    pub failure: Option<error::ErrorView>,
}

impl View for RemoteCollection {
    type V = RemoteView;

    open spec fn view(&self) -> RemoteView {
        RemoteView {
            root: self.root@,
            segments: text::views(self.segments@),
            at: self.at as nat,
            selecting: self.selecting,
            directory: self.directory@,
            relative: self.relative@,
            candidates: text::views(self.candidates@),
            stack: text::views(self.stack@),
            entries: self.entries@,
            above: self.above@,
            warnings: text::views(self.warnings@),
            selected: self.selected,
            phase: self.phase,
            failure: match self.failure {
                Some(e) => Some(e@),
                None => None,
            },
        }
    }
}

/// The nodes of some children of a directory, in order.
pub open spec fn nodes_of(
    directory: Seq<char>,
    relative: Seq<char>,
    children: Seq<ChildView>,
) -> Seq<NodeView> {
    Seq::new(
        children.len(),
        |i: int|
            NodeView {
                relative: paths::joined(relative, children[i].name),
                directory: paths::remote_joined(directory, children[i].name),
                is_dir: children[i].is_dir,
            },
    )
}

impl RemoteView {
    /// The inventory, ended by a failure.
    pub open spec fn failed(self, failure: error::ErrorView) -> RemoteView {
        RemoteView { phase: RemotePhase::Done, failure: Some(failure), ..self }
    }

    /// The inventory, ended with nothing more to look at.
    pub open spec fn ended(self) -> RemoteView {
        RemoteView { phase: RemotePhase::Done, ..self }
    }

    /// The inventory before the listing of a directory.
    pub open spec fn into(self, directory: Seq<char>, relative: Seq<char>) -> RemoteView {
        RemoteView { phase: RemotePhase::List, directory, relative, ..self }
    }

    /// The inventory at the next directory to be listed: every node up to it is
    /// recorded, and it too.
    pub open spec fn advanced(self) -> RemoteView
        decreases self.stack.len(),
    {
        if self.stack.len() == 0 {
            self.ended()
        } else {
            let node = self.stack.last();
            let next = RemoteView {
                stack: self.stack.drop_last(),
                entries: inventory::with_remote(
                    self.entries,
                    node.relative,
                    kind_of(node.is_dir),
                ),
                ..self
            };
            if node.is_dir {
                next.into(node.directory, node.relative)
            } else {
                next.advanced()
            }
        }
    }

    /// The inventory, once the child of the next segment was found.
    pub open spec fn descended(self, child: ChildView) -> RemoteView {
        let relative = paths::joined(self.relative, child.name);
        let directory = paths::remote_joined(self.directory, child.name);
        if self.at + 1 >= self.segments.len() {
            let next = RemoteView {
                entries: inventory::with_remote(self.entries, relative, kind_of(child.is_dir)),
                selected: true,
                selecting: false,
                ..self
            };
            if child.is_dir {
                next.into(directory, relative)
            } else {
                next.ended()
            }
        } else {
            let next = RemoteView {
                above: inventory::with_remote(self.above, relative, kind_of(child.is_dir)),
                at: self.at + 1,
                ..self
            };
            if child.is_dir {
                next.into(directory, relative)
            } else {
                next.ended()
            }
        }
    }
}

/// A reply to the remote half of an inventory.
pub enum RemoteReply {
    Listing(Result<Seq<EntryView>, error::ErrorView>),
    Ignored(Seq<bool>),
}

/// Where a reply leads the remote half of an inventory. A reply that the phase
/// does not wait for changes nothing.
pub open spec fn remote_step(u: RemoteView, reply: RemoteReply) -> RemoteView {
    match (u.phase, reply) {
        (RemotePhase::List, RemoteReply::Listing(listing)) => match listing {
            Err(e) => u.failed(
                error::failure_from(
                    "listing remote directory "@ + text::debug_text(u.directory),
                    error::full_message(e),
                ),
            ),
            Ok(entries) => {
                let (found, refusal) = listing::read_children(u.root, u.directory, entries);
                let next = RemoteView {
                    warnings: u.warnings + skips_of(u.directory, found),
                    ..u
                };
                match refusal {
                    Some(e) => next.failed(e),
                    None => RemoteView {
                        candidates: candidates_of(u.relative, found),
                        phase: RemotePhase::Ignore,
                        ..next
                    },
                }
            },
        },
        (RemotePhase::Ignore, RemoteReply::Ignored(ignored)) => {
            let children = kept(u.candidates, ignored);
            if u.selecting {
                match child_named(children, u.segments[u.at as int]) {
                    None => u.ended(),
                    Some(child) => u.descended(child),
                }
            } else {
                (RemoteView {
                    stack: u.stack + nodes_of(u.directory, u.relative, children).reverse(),
                    ..u
                }).advanced()
            }
        },
        _ => u,
    }
}

/// Where the remote half of an inventory starts, or why there is none.
pub open spec fn remote_start(
    root: Seq<char>,
    scope: ScopeView,
    entries: Entries,
    above: Entries,
) -> Result<RemoteView, error::ErrorView> {
    match paths::root_of(root) {
        Err(e) => Err(e),
        Ok(root) => {
            let start = RemoteView {
                root,
                segments: Seq::empty(),
                at: 0,
                selecting: false,
                directory: root,
                relative: Seq::empty(),
                candidates: Seq::empty(),
                stack: Seq::empty(),
                entries,
                above,
                warnings: Seq::empty(),
                selected: true,
                phase: RemotePhase::List,
                failure: None,
            };
            match scope {
                ScopeView::LegacyProject => Err(
                    error::failure("scoped inventory requires an explicit sync scope"@),
                ),
                ScopeView::RootDirectory => Ok(start),
                ScopeView::Path(path) => match paths::scoped_or_error(path) {
                    Err(e) => Err(e),
                    Ok(_) => Ok(
                        RemoteView {
                            segments: text::segments(path),
                            selecting: true,
                            selected: false,
                            ..start
                        },
                    ),
                },
            }
        },
    }
}

impl RemoteCollection {
    /// The maps are in order, and while the descent goes on there is a segment to
    /// look for.
    pub open spec fn wf(&self) -> bool {
        &&& self.entries.wf()
        &&& self.above.wf()
        &&& self.selecting && self.phase != RemotePhase::Done ==> self.at < self.segments@.len()
    }

    /// Starts the remote half of an inventory, which adds to what the local half
    /// found.
    pub fn collect_remote(
        root: &str,
        scope: &SyncScope,
        entries: PathMap<InventoryEntry>,
        above: PathMap<InventoryEntry>,
    ) -> (out: Result<RemoteCollection, Error>)
        requires
            entries.wf(),
            above.wf(),
        ensures
            match (out, remote_start(root@, scope@, entries@, above@)) {
                (Ok(run), Ok(want)) => run.wf() && run@ == want,
                (Err(e), Err(want)) => e@ == want,
                _ => false,
            },
    {
        let root = match paths::normalize_remote_root(root) {
            Ok(root) => root,
            Err(e) => {
                return Err(e);
            },
        };
        let (segments, selecting) = match scope {
            SyncScope::LegacyProject => {
                return Err(
                    Error::failure("scoped inventory requires an explicit sync scope".to_owned()),
                );
            },
            SyncScope::RootDirectory => (Vec::new(), false),
            SyncScope::Path(path) => {
                if let Err(e) = paths::validate_relative_path(path) {
                    return Err(e);
                }
                (text::split_slashes(path), true)
            },
        };
        let out = RemoteCollection {
            directory: root.clone(),
            root,
            segments,
            at: 0,
            selecting,
            relative: String::new(),
            candidates: Vec::new(),
            stack: Vec::new(),
            entries,
            above,
            warnings: Vec::new(),
            selected: !selecting,
            phase: RemotePhase::List,
            failure: None,
        };
        assert(out@.relative =~= Seq::<char>::empty());
        assert(out@.candidates =~= Seq::<ChildView>::empty());
        assert(out@.stack =~= Seq::<NodeView>::empty());
        assert(out@.warnings =~= Seq::<Seq<char>>::empty());
        assert(!selecting ==> out@.segments =~= Seq::<Seq<char>>::empty());
        Ok(out)
    }

    fn fail(&mut self, failure: Error)
        requires
            old(self).wf(),
        ensures
            final(self).wf(),
            final(self)@ == old(self)@.failed(failure@),
    {
        self.phase = RemotePhase::Done;
        self.failure = Some(failure);
    }

    fn advance(&mut self)
        requires
            old(self).wf(),
            !old(self).selecting,
        ensures
            final(self).wf(),
            final(self)@ == old(self)@.advanced(),
    {
        while self.stack.len() > 0
            invariant
                self.wf(),
                !self.selecting,
                self@.advanced() == old(self)@.advanced(),
            decreases self.stack.len(),
        {
            let ghost before = self@;
            assert(before.stack.last() == self.stack@[self.stack@.len() - 1]@);
            let taken = self.stack.pop();
            assert(self@.stack =~= before.stack.drop_last());
            if let Some(node) = taken {
                inventory::record_remote(
                    &mut self.entries,
                    &node.relative,
                    entry_kind(node.is_dir),
                );
                if node.is_dir {
                    self.directory = node.directory;
                    self.relative = node.relative;
                    self.phase = RemotePhase::List;
                    return ;
                }
            }
        }
        self.phase = RemotePhase::Done;
    }

    fn descend(&mut self, is_dir: bool)
        requires
            old(self).wf(),
            old(self).selecting,
            old(self).at < old(self).segments@.len(),
        ensures
            final(self).wf(),
            final(self)@ == old(self)@.descended(
                ChildView { name: old(self)@.segments[old(self)@.at as int], is_dir },
            ),
    {
        let total: usize = self.segments.len();
        assert(self@.segments[self@.at as int] == self.segments@[self.at as int]@);
        let name = self.segments[self.at].clone();
        let relative = paths::join_relative(&self.relative, &name);
        let directory = paths::remote_path_join(&self.directory, &name);
        if self.at == total - 1 {
            inventory::record_remote(&mut self.entries, &relative, entry_kind(is_dir));
            self.selected = true;
            self.selecting = false;
        } else {
            inventory::record_remote(&mut self.above, &relative, entry_kind(is_dir));
            self.at = self.at + 1;
        }
        if is_dir {
            self.directory = directory;
            self.relative = relative;
            self.phase = RemotePhase::List;
        } else {
            self.phase = RemotePhase::Done;
        }
    }

    /// Takes the listing of the current directory.
    pub fn on_listing(&mut self, listing: Result<Vec<Entry>, Error>)
        requires
            old(self).wf(),
        ensures
            final(self).wf(),
            final(self)@ == remote_step(
                old(self)@,
                RemoteReply::Listing(file_transfer::listed(listing)),
            ),
    {
        match self.phase {
            RemotePhase::List => {},
            _ => {
                return ;
            },
        }
        match listing {
            Err(e) => {
                let failure = Error::failure_from(
                    text::cat("listing remote directory ", &text::debug_of(&self.directory)),
                    &e.full_message(),
                );
                self.fail(failure);
            },
            Ok(entries) => {
                let children = list_remote_children(
                    &self.root,
                    &self.directory,
                    &self.relative,
                    &entries,
                );
                let ghost before = self@;
                let mut warnings = children.warnings;
                let ghost first = self.warnings@;
                let ghost second = warnings@;
                self.warnings.append(&mut warnings);
                assert(text::views(first + second) =~= text::views(first) + text::views(second));
                match children.refusal {
                    Some(e) => self.fail(e),
                    None => {
                        self.candidates = children.candidates;
                        self.phase = RemotePhase::Ignore;
                    },
                }
            },
        }
    }

    /// Takes which of the candidates are ignored.
    pub fn on_ignored(&mut self, ignored: &Vec<bool>)
        requires
            old(self).wf(),
        ensures
            final(self).wf(),
            final(self)@ == remote_step(old(self)@, RemoteReply::Ignored(ignored@)),
    {
        match self.phase {
            RemotePhase::Ignore => {},
            _ => {
                return ;
            },
        }
        let children = keep(&self.candidates, ignored);
        if self.selecting {
            assert(self@.segments[self@.at as int] == self.segments@[self.at as int]@);
            match find_child(&children, &self.segments[self.at]) {
                None => {
                    self.phase = RemotePhase::Done;
                },
                Some(is_dir) => self.descend(is_dir),
            }
        } else {
            let ghost all = text::views(children@);
            let ghost start = self@;
            let mut left: usize = children.len();
            assert(nodes_of(start.directory, start.relative, all.skip(all.len() as int)).reverse()
                =~= Seq::<NodeView>::empty());
            assert(start.stack + Seq::<NodeView>::empty() =~= start.stack);
            while left > 0
                invariant
                    left <= children@.len(),
                    all == text::views(children@),
                    self.wf(),
                    self@ == (RemoteView {
                        stack: start.stack + nodes_of(
                            start.directory,
                            start.relative,
                            all.skip(left as int),
                        ).reverse(),
                        ..start
                    }),
                decreases left,
            {
                let ghost before = self@.stack;
                let child = &children[left - 1];
                let node = RemoteNode {
                    relative: paths::join_relative(&self.relative, &child.name),
                    directory: paths::remote_path_join(&self.directory, &child.name),
                    is_dir: child.is_dir,
                };
                self.stack.push(node);
                proof {
                    let nodes = nodes_of(start.directory, start.relative, all.skip(left as int));
                    let more = nodes_of(start.directory, start.relative, all.skip(left - 1));
                    assert(all.skip(left - 1)[0] == children@[left - 1]@);
                    assert(more.reverse() =~= nodes.reverse().push(node@)) by {
                        assert forall|i: int| 0 <= i < nodes.len() implies nodes[i] == #[trigger]
                            more[i + 1] by {
                            assert(all.skip(left as int)[i] == all.skip(left - 1)[i + 1]);
                        }
                    }
                    assert(self@.stack =~= before.push(node@));
                    assert(self@.stack =~= start.stack + more.reverse());
                }
                left = left - 1;
            }
            assert(all.skip(0) =~= all);
            self.advance();
        }
    }
}

/// Whether a directory is one whose children lie in the scope.
pub open spec fn holds_scope(scope: ScopeView, relative: Seq<char>) -> bool {
    scope == ScopeView::RootDirectory || (relative.len() > 0 && scope::contains(scope, relative))
}

/// Whether the remote half of an inventory has kept to its scope.
pub open spec fn keeps_to(scope: ScopeView, u: RemoteView) -> bool {
    &&& inventory::in_scope(scope, u.entries)
    &&& forall|i: int|
        0 <= i < u.stack.len() ==> scope::contains(scope, (#[trigger] u.stack[i]).relative)
            && !inventory::is_own(u.stack[i].relative) && holds_scope(scope, u.stack[i].relative)
    &&& u.phase == RemotePhase::Ignore ==> forall|i: int|
        0 <= i < u.candidates.len() ==> !inventory::is_own(
            paths::joined(u.relative, (#[trigger] u.candidates[i]).name),
        )
    &&& u.phase != RemotePhase::Done ==> if u.selecting {
        &&& u.at < u.segments.len()
        &&& u.relative == paths::path_to(u.segments.take(u.at as int))
        &&& scope == ScopeView::Path(paths::path_to(u.segments))
        &&& paths::path_to(u.segments).len() > 0
    } else {
        holds_scope(scope, u.relative)
    }
}

proof fn candidates_are_not_own(relative: Seq<char>, found: Seq<EntryView>)
    ensures
        forall|i: int|
            0 <= i < candidates_of(relative, found).len() ==> !inventory::is_own(
                paths::joined(relative, (#[trigger] candidates_of(relative, found)[i]).name),
            ),
    decreases found.len(),
{
    if found.len() > 0 {
        candidates_are_not_own(relative, found.drop_last());
        let before = candidates_of(relative, found.drop_last());
        let all = candidates_of(relative, found);
        assert forall|i: int| 0 <= i < all.len() implies !inventory::is_own(
            paths::joined(relative, (#[trigger] all[i]).name),
        ) by {
            if i < before.len() {
                assert(all[i] == before[i]);
            }
        }
    }
}

proof fn kept_are_candidates(candidates: Seq<ChildView>, ignored: Seq<bool>)
    ensures
        forall|i: int|
            0 <= i < kept(candidates, ignored).len() ==> candidates.contains(
                #[trigger] kept(candidates, ignored)[i],
            ),
    decreases candidates.len(),
{
    if candidates.len() > 0 {
        let fewer = candidates.drop_last();
        kept_are_candidates(fewer, ignored);
        let all = kept(candidates, ignored);
        assert forall|i: int| 0 <= i < all.len() implies candidates.contains(#[trigger] all[i]) by {
            if i < kept(fewer, ignored).len() {
                assert(fewer.contains(kept(fewer, ignored)[i]));
                let k = choose|k: int| 0 <= k < fewer.len() && fewer[k] == kept(fewer, ignored)[i];
                assert(candidates[k] == all[i]);
            } else {
                assert(candidates[candidates.len() - 1] == all[i]);
            }
        }
    }
}

proof fn child_named_is_among(children: Seq<ChildView>, name: Seq<char>)
    ensures
        child_named(children, name) matches Some(child) ==> children.contains(child) && child.name
            == name,
    decreases children.len(),
{
    if children.len() > 0 && children[0].name != name {
        child_named_is_among(children.skip(1), name);
        if let Some(child) = child_named(children.skip(1), name) {
            let k = choose|k: int|
                0 <= k < children.skip(1).len() && children.skip(1)[k] == child;
            assert(children[k + 1] == child);
        }
    }
}

/// A child of a directory whose children lie in the scope lies in it too.
pub proof fn child_lies_in_scope(scope: ScopeView, relative: Seq<char>, name: Seq<char>)
    requires
        holds_scope(scope, relative),
    ensures
        scope::contains(scope, paths::joined(relative, name)),
        holds_scope(scope, paths::joined(relative, name)),
{
    if let ScopeView::Path(selected) = scope {
        paths::joined_is_below(relative, name);
        let path = paths::joined(relative, name);
        if relative != selected {
            paths::below_is_transitive(path, relative, selected);
        }
    }
}

proof fn advanced_keeps_to(scope: ScopeView, u: RemoteView)
    requires
        inventory::in_scope(scope, u.entries),
        forall|i: int|
            0 <= i < u.stack.len() ==> scope::contains(scope, (#[trigger] u.stack[i]).relative)
                && !inventory::is_own(u.stack[i].relative) && holds_scope(
                scope,
                u.stack[i].relative,
            ),
        !u.selecting,
    ensures
        keeps_to(scope, u.advanced()),
    decreases u.stack.len(),
{
    if u.stack.len() > 0 {
        let node = u.stack.last();
        assert(u.stack[u.stack.len() - 1] == node);
        let next = RemoteView {
            stack: u.stack.drop_last(),
            entries: inventory::with_remote(u.entries, node.relative, kind_of(node.is_dir)),
            ..u
        };
        if !node.is_dir {
            advanced_keeps_to(scope, next);
        }
    }
}

/// The remote half of an inventory records only paths of its scope, and none that
/// belongs to the state or to an unfinished transfer, whatever the server lists.
pub proof fn remote_inventory_keeps_to_its_scope(
    scope: ScopeView,
    u: RemoteView,
    reply: RemoteReply,
)
    requires
        keeps_to(scope, u),
    ensures
        keeps_to(scope, remote_step(u, reply)),
{
    match reply {
        RemoteReply::Listing(Ok(entries)) => {
            let (found, refusal) = listing::read_children(u.root, u.directory, entries);
            candidates_are_not_own(u.relative, found);
        },
        RemoteReply::Listing(Err(_)) => {},
        RemoteReply::Ignored(ignored) => {
            let children = kept(u.candidates, ignored);
            kept_are_candidates(u.candidates, ignored);
            if u.phase == RemotePhase::Ignore {
                if u.selecting {
                    let name = u.segments[u.at as int];
                    child_named_is_among(children, name);
                    if let Some(child) = child_named(children, name) {
                        let k = choose|k: int| 0 <= k < children.len() && children[k] == child;
                        assert(u.candidates.contains(children[k]));
                        let m = choose|m: int|
                            0 <= m < u.candidates.len() && u.candidates[m] == child;
                        assert(!inventory::is_own(
                            paths::joined(u.relative, u.candidates[m].name),
                        ));
                        let further = u.segments.take(u.at as int + 1);
                        assert(further.drop_last() =~= u.segments.take(u.at as int));
                        assert(further.last() == name);
                        assert(paths::path_to(further) == paths::joined(u.relative, name));
                        if u.at + 1 == u.segments.len() {
                            assert(further =~= u.segments);
                            assert(scope::contains(scope, paths::path_to(u.segments)));
                        }
                    }
                } else {
                    let nodes = nodes_of(u.directory, u.relative, children).reverse();
                    let next = RemoteView { stack: u.stack + nodes, ..u };
                    assert forall|i: int| 0 <= i < next.stack.len() implies scope::contains(
                        scope,
                        (#[trigger] next.stack[i]).relative,
                    ) && !inventory::is_own(next.stack[i].relative) && holds_scope(
                        scope,
                        next.stack[i].relative,
                    ) by {
                        if i < u.stack.len() {
                            assert(next.stack[i] == u.stack[i]);
                        } else {
                            let k = children.len() - 1 - (i - u.stack.len());
                            assert(next.stack[i] == nodes_of(
                                u.directory,
                                u.relative,
                                children,
                            )[k]);
                            assert(u.candidates.contains(children[k]));
                            let m = choose|m: int|
                                0 <= m < u.candidates.len() && u.candidates[m] == children[k];
                            assert(!inventory::is_own(
                                paths::joined(u.relative, u.candidates[m].name),
                            ));
                            child_lies_in_scope(scope, u.relative, children[k].name);
                        }
                    }
                    advanced_keeps_to(scope, next);
                }
            }
        },
    }
}

/// The remote half of an inventory starts within its scope.
pub proof fn remote_inventory_starts_in_scope(
    root: Seq<char>,
    scope: ScopeView,
    entries: Entries,
    above: Entries,
)
    requires
        inventory::in_scope(scope, entries),
    ensures
        remote_start(root, scope, entries, above) matches Ok(u) ==> keeps_to(scope, u),
{
    if let Ok(u) = remote_start(root, scope, entries, above) {
        if let ScopeView::Path(path) = scope {
            paths::canonical_is_path_to(path);
            text::segments_nonempty(path);
            assert(paths::names_entry(text::segments(path)[0]));
            assert(path.len() > 0);
            assert(u.segments.take(0) =~= Seq::<Seq<char>>::empty());
        }
    }
}

/// The children that may be synchronised are exactly those that are listed, are
/// no symlinks and do not belong to Ferry, each as what it is listed as.
pub proof fn candidates_are_every_child_of_its_own(
    relative: Seq<char>,
    found: Seq<EntryView>,
    name: Seq<char>,
    is_dir: bool,
)
    ensures
        candidates_of(relative, found).contains(ChildView { name, is_dir }) <==> exists|i: int|
            0 <= i < found.len() && (#[trigger] found[i]).name == name && found[i].is_dir == is_dir
                && !found[i].is_symlink && !inventory::is_own(paths::joined(relative, name)),
    decreases found.len(),
{
    if found.len() > 0 {
        let before = found.drop_last();
        let child = ChildView { name, is_dir };
        let all = candidates_of(relative, found);
        let fewer = candidates_of(relative, before);
        candidates_are_every_child_of_its_own(relative, before, name, is_dir);
        if fewer.contains(child) {
            let k = choose|k: int| 0 <= k < fewer.len() && fewer[k] == child;
            assert(all[k] == child);
            let i = choose|i: int|
                0 <= i < before.len() && (#[trigger] before[i]).name == name && before[i].is_dir
                    == is_dir && !before[i].is_symlink && !inventory::is_own(
                    paths::joined(relative, name),
                );
            assert(found[i] == before[i]);
        }
        if all.contains(child) && !fewer.contains(child) {
            let k = choose|k: int| 0 <= k < all.len() && all[k] == child;
            if k < fewer.len() {
                assert(fewer[k] == child);
            }
            assert(found[found.len() - 1] == found.last());
        }
        if exists|i: int|
            0 <= i < found.len() && (#[trigger] found[i]).name == name && found[i].is_dir == is_dir
                && !found[i].is_symlink && !inventory::is_own(paths::joined(relative, name)) {
            let i = choose|i: int|
                0 <= i < found.len() && (#[trigger] found[i]).name == name && found[i].is_dir
                    == is_dir && !found[i].is_symlink && !inventory::is_own(
                    paths::joined(relative, name),
                );
            if i < before.len() {
                assert(before[i] == found[i]);
            } else {
                assert(all[fewer.len() as int] == child);
            }
        }
    }
}

/// Of every symlink among some children something is said, and of nothing else:
/// as much is said as there are symlinks.
pub proof fn every_symlink_is_told(directory: Seq<char>, found: Seq<EntryView>)
    ensures
        skips_of(directory, found).len() == found.filter(|entry: EntryView| entry.is_symlink).len(),
        forall|i: int|
            0 <= i < found.len() && (#[trigger] found[i]).is_symlink ==> skips_of(
                directory,
                found,
            ).contains(skipped(found[i].name, directory)),
    decreases found.len(),
{
    reveal(Seq::filter);
    if found.len() > 0 {
        let before = found.drop_last();
        let all = skips_of(directory, found);
        let fewer = skips_of(directory, before);
        every_symlink_is_told(directory, before);
        assert forall|i: int| 0 <= i < found.len() && (#[trigger] found[i]).is_symlink implies
            all.contains(skipped(found[i].name, directory)) by {
            if i < before.len() {
                assert(before[i] == found[i]);
                let k = choose|k: int|
                    0 <= k < fewer.len() && fewer[k] == skipped(before[i].name, directory);
                assert(all[k] == fewer[k]);
            } else {
                assert(all[fewer.len() as int] == skipped(found[i].name, directory));
            }
        }
    }
}

/// The children that are kept are exactly those that are not marked as ignored.
pub proof fn kept_are_every_child_not_ignored(
    candidates: Seq<ChildView>,
    ignored: Seq<bool>,
    child: ChildView,
)
    ensures
        kept(candidates, ignored).contains(child) <==> exists|i: int|
            0 <= i < candidates.len() && #[trigger] candidates[i] == child && !(i < ignored.len()
                && ignored[i]),
    decreases candidates.len(),
{
    if candidates.len() > 0 {
        let before = candidates.drop_last();
        let all = kept(candidates, ignored);
        let fewer = kept(before, ignored);
        kept_are_every_child_not_ignored(before, ignored, child);
        if fewer.contains(child) {
            let k = choose|k: int| 0 <= k < fewer.len() && fewer[k] == child;
            assert(all[k] == child);
            let i = choose|i: int|
                0 <= i < before.len() && #[trigger] before[i] == child && !(i < ignored.len()
                    && ignored[i]);
            assert(candidates[i] == child);
        }
        if all.contains(child) && !fewer.contains(child) {
            let k = choose|k: int| 0 <= k < all.len() && all[k] == child;
            if k < fewer.len() {
                assert(fewer[k] == child);
            }
            assert(candidates[candidates.len() - 1] == child);
        }
        if exists|i: int|
            0 <= i < candidates.len() && #[trigger] candidates[i] == child && !(i < ignored.len()
                && ignored[i]) {
            let i = choose|i: int|
                0 <= i < candidates.len() && #[trigger] candidates[i] == child && !(i
                    < ignored.len() && ignored[i]);
            if i < before.len() {
                assert(before[i] == child);
            } else {
                assert(all[fewer.len() as int] == child);
            }
        }
    }
}

/// A child is found by its name exactly where there is one of that name.
pub proof fn child_is_found_by_its_name(children: Seq<ChildView>, name: Seq<char>)
    ensures
        child_named(children, name) is Some <==> exists|i: int|
            0 <= i < children.len() && (#[trigger] children[i]).name == name,
        child_named(children, name) matches Some(child) ==> child.name == name
            && children.contains(child),
    decreases children.len(),
{
    if children.len() > 0 {
        let rest = children.skip(1);
        child_is_found_by_its_name(rest, name);
        if children[0].name == name {
            assert(children.contains(children[0]));
        } else {
            if child_named(rest, name) is Some {
                let child = child_named(rest, name)->Some_0;
                let k = choose|k: int| 0 <= k < rest.len() && rest[k] == child;
                assert(children[k + 1] == child);
                assert(children.contains(child));
            }
            if exists|i: int| 0 <= i < children.len() && (#[trigger] children[i]).name == name {
                let i = choose|i: int|
                    0 <= i < children.len() && (#[trigger] children[i]).name == name;
                assert(rest[i - 1].name == name);
            }
        }
    }
}

/// Whether a node stands for an entry of a kind at a path.
pub open spec fn stands_for(node: NodeView, path: Seq<char>, kind: EntryKind) -> bool {
    node.relative == path && node.is_dir == (kind == EntryKind::Directory)
}

/// Whether no node stands for an entry of another kind at a path.
pub open spec fn stand_only(nodes: Seq<NodeView>, path: Seq<char>, kind: EntryKind) -> bool {
    forall|i: int, other: EntryKind|
        0 <= i < nodes.len() && #[trigger] stands_for(nodes[i], path, other) ==> other == kind
}

/// Whether some node stands for an entry of a kind at a path.
pub open spec fn is_stood_for(nodes: Seq<NodeView>, path: Seq<char>, kind: EntryKind) -> bool {
    exists|i: int| 0 <= i < nodes.len() && #[trigger] stands_for(nodes[i], path, kind)
}

/// Whether an entry of a kind at a path is recorded, or still to be.
pub open spec fn minded(u: RemoteView, path: Seq<char>, kind: EntryKind) -> bool {
    &&& stand_only(u.stack, path, kind)
    &&& inventory::known_at(u.entries, path).remote is Some ==> inventory::known_at(
        u.entries,
        path,
    ).remote == Some(kind)
    &&& inventory::known_at(u.entries, path).remote == Some(kind) || is_stood_for(
        u.stack,
        path,
        kind,
    )
}

/// Whether nothing is left to be recorded unless the inventory goes on or failed.
pub open spec fn leaves_nothing(u: RemoteView) -> bool {
    u.phase == RemotePhase::Done && u.failure is None ==> u.stack.len() == 0
}

proof fn advanced_minds(u: RemoteView, path: Seq<char>, kind: EntryKind)
    requires
        minded(u, path, kind),
    ensures
        minded(u.advanced(), path, kind),
        leaves_nothing(u.advanced()),
        is_stood_for(u.stack, path, EntryKind::Directory) ==> is_stood_for(
            u.advanced().stack,
            path,
            EntryKind::Directory,
        ) || (u.advanced().phase == RemotePhase::List && u.advanced().relative == path),
    decreases u.stack.len(),
{
    if u.stack.len() > 0 {
        let node = u.stack.last();
        let fewer = u.stack.drop_last();
        let found = kind_of(node.is_dir);
        let next = RemoteView {
            stack: fewer,
            entries: inventory::with_remote(u.entries, node.relative, found),
            ..u
        };
        assert(node == u.stack[u.stack.len() - 1]);
        assert(stands_for(u.stack[u.stack.len() - 1], node.relative, found));
        assert forall|i: int, other: EntryKind|
            0 <= i < fewer.len() && #[trigger] stands_for(fewer[i], path, other) implies other
            == kind by {
            assert(stands_for(u.stack[i], path, other));
        }
        if is_stood_for(u.stack, path, kind) && !stands_for(node, path, kind) {
            let i = choose|i: int| 0 <= i < u.stack.len() && #[trigger] stands_for(
                u.stack[i],
                path,
                kind,
            );
            assert(stands_for(fewer[i], path, kind));
        }
        if is_stood_for(u.stack, path, EntryKind::Directory) {
            let i = choose|i: int| 0 <= i < u.stack.len() && #[trigger] stands_for(
                u.stack[i],
                path,
                EntryKind::Directory,
            );
            if i < fewer.len() {
                assert(stands_for(fewer[i], path, EntryKind::Directory));
            }
        }
        if !node.is_dir {
            advanced_minds(next, path, kind);
        }
    }
}

/// Every child that a listing shows and that is not ignored is recorded as what
/// it is, or still to be, and a directory among them is listed in its turn. What
/// waited before goes on to, and once the inventory is done without a failure all
/// of it is recorded: nothing that was listed is lost.
pub proof fn listed_children_are_recorded(
    u: RemoteView,
    ignored: Seq<bool>,
    path: Seq<char>,
    kind: EntryKind,
)
    requires
        u.phase == RemotePhase::Ignore,
        !u.selecting,
        u.failure is None,
        stand_only(u.stack, path, kind),
        stand_only(
            nodes_of(u.directory, u.relative, kept(u.candidates, ignored)),
            path,
            kind,
        ),
        inventory::known_at(u.entries, path).remote is Some ==> inventory::known_at(
            u.entries,
            path,
        ).remote == Some(kind),
        minded(u, path, kind) || exists|i: int|
            0 <= i < u.candidates.len() && !(i < ignored.len() && ignored[i]) && paths::joined(
                u.relative,
                (#[trigger] u.candidates[i]).name,
            ) == path && u.candidates[i].is_dir == (kind == EntryKind::Directory),
    ensures
        ({
            let next = remote_step(u, RemoteReply::Ignored(ignored));
            &&& minded(next, path, kind)
            &&& leaves_nothing(next)
            &&& next.phase == RemotePhase::Done && next.failure is None
                ==> next.entries.contains_key(path) && next.entries[path].remote == Some(kind)
            &&& kind == EntryKind::Directory && (is_stood_for(u.stack, path, kind)
                || !minded(u, path, kind)) ==> is_stood_for(next.stack, path, kind) || (next.phase
                == RemotePhase::List && next.relative == path)
        }),
{
    let children = kept(u.candidates, ignored);
    let nodes = nodes_of(u.directory, u.relative, children);
    let wider = RemoteView { stack: u.stack + nodes.reverse(), ..u };
    assert forall|i: int, other: EntryKind|
        0 <= i < wider.stack.len() && #[trigger] stands_for(wider.stack[i], path, other) implies
        other == kind by {
        if i < u.stack.len() {
            assert(stands_for(u.stack[i], path, other));
        } else {
            let k = nodes.len() - 1 - (i - u.stack.len());
            assert(wider.stack[i] == nodes[k]);
            assert(stands_for(nodes[k], path, other));
        }
    }
    if is_stood_for(u.stack, path, kind) {
        let i = choose|i: int| 0 <= i < u.stack.len() && #[trigger] stands_for(
            u.stack[i],
            path,
            kind,
        );
        assert(wider.stack[i] == u.stack[i]);
        assert(stands_for(wider.stack[i], path, kind));
    }
    if !minded(u, path, kind) {
        let i = choose|i: int|
            0 <= i < u.candidates.len() && !(i < ignored.len() && ignored[i]) && paths::joined(
                u.relative,
                (#[trigger] u.candidates[i]).name,
            ) == path && u.candidates[i].is_dir == (kind == EntryKind::Directory);
        let child = u.candidates[i];
        kept_are_every_child_not_ignored(u.candidates, ignored, child);
        let k = choose|k: int| 0 <= k < children.len() && children[k] == child;
        let at = u.stack.len() + (nodes.len() - 1 - k);
        assert(wider.stack[at] == nodes[k]);
        assert(stands_for(wider.stack[at], path, kind));
    }
    advanced_minds(wider, path, kind);
    assert(!is_stood_for(Seq::<NodeView>::empty(), path, kind));
}

/// The segments of a selected path are looked for one by one. The descent goes on
/// into a directory of the next name; at the last segment what has that name is
/// recorded and selected. Where nothing has it, the inventory ends with nothing
/// selected.
pub proof fn selection_goes_down_segment_by_segment(u: RemoteView, ignored: Seq<bool>)
    requires
        u.phase == RemotePhase::Ignore,
        u.selecting,
        u.failure is None,
        u.at < u.segments.len(),
    ensures
        ({
            let name = u.segments[u.at as int];
            let child = child_named(kept(u.candidates, ignored), name);
            let path = paths::joined(u.relative, name);
            let last = u.at + 1 == u.segments.len();
            let next = remote_step(u, RemoteReply::Ignored(ignored));
            &&& next.failure is None
            &&& child is None ==> next.phase == RemotePhase::Done && next.entries == u.entries
                && next.above == u.above && next.selected == u.selected
            &&& child is Some ==> {
                &&& next.phase == RemotePhase::List <==> child->Some_0.is_dir
                &&& next.phase == RemotePhase::List ==> next.relative == path && next.directory
                    == paths::remote_joined(u.directory, name)
                &&& last ==> next.selected && !next.selecting && next.entries
                    == inventory::with_remote(
                    u.entries,
                    path,
                    if child->Some_0.is_dir {
                        EntryKind::Directory
                    } else {
                        EntryKind::File
                    },
                ) && next.above == u.above
                &&& !last ==> next.selecting && next.at == u.at + 1 && next.above
                    == inventory::with_remote(
                    u.above,
                    path,
                    if child->Some_0.is_dir {
                        EntryKind::Directory
                    } else {
                        EntryKind::File
                    },
                ) && next.entries == u.entries && next.selected == u.selected
            }
        }),
{
    child_is_found_by_its_name(kept(u.candidates, ignored), u.segments[u.at as int]);
}

} // verus!
