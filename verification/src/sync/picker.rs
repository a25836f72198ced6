//! The picker: what it shows of a directory of the two trees, and what an answer
//! at its prompt means.

use crate::error::Error;
use crate::error;
use crate::file_transfer;
use crate::ftp::{Entry, EntryView};
use crate::inventory::EntryKind;
use crate::inventory;
use crate::listing;
use crate::local_paths;
use crate::order::PathMap;
use crate::order;
use crate::paths;
use crate::scope::{ScopeView, SyncScope};
use crate::sync::local_inventory::{LocalRoots, NodeFacts, RootsView};
use crate::sync::outcome;
use crate::sync::remote_inventory::{ChildView, RemoteChild};
use crate::sync::remote_inventory;
use crate::text::Number;
use crate::text;
use vstd::prelude::*;

verus! {

broadcast use vstd::seq::group_seq_axioms;

/// On which side something is.
#[derive(Debug, Clone, Copy, PartialEq, Eq, Structural)]
pub enum Presence {
    Local,
    Remote,
    Both,
}

impl Presence {
    /// How the menu shows the side.
    pub open spec fn name(self) -> Seq<char> {
        match self {
            Presence::Local => "local"@,
            Presence::Remote => "remote"@,
            Presence::Both => "both"@,
        }
    }

    /// How the menu shows the side.
    pub fn label(self) -> (out: &'static str)
        ensures
            out@ == self.name(),
    {
        match self {
            Presence::Local => "local",
            Presence::Remote => "remote",
            Presence::Both => "both",
        }
    }
}

/// An entry that the picker shows.
#[derive(Debug, PartialEq, Eq)]
pub struct PickerEntry {
    pub name: String,
    pub kind: EntryKind,
    pub presence: Presence,
}

/// What an entry of the picker says.
pub struct PickView {
    pub name: Seq<char>,
    pub kind: EntryKind,
    pub presence: Presence,
}

impl View for PickerEntry {
    type V = PickView;

    open spec fn view(&self) -> PickView {
        PickView { name: self.name@, kind: self.kind, presence: self.presence }
    }
}

/// The name of a directory of the project as the picker shows it.
pub open spec fn shown(directory: Seq<char>) -> Seq<char> {
    if directory.len() == 0 {
        "/"@
    } else {
        "/"@ + text::displayed(directory)
    }
}

/// The name of a directory of the project as the picker shows it.
pub fn picker_path(directory: &str) -> (out: String)
    ensures
        out@ == shown(directory@),
{
    if directory.unicode_len() == 0 {
        "/".to_owned()
    } else {
        text::cat("/", &text::display(directory))
    }
}

/// Whether a local name can be shown and selected.
pub open spec fn safe_child(name: Seq<char>) -> bool {
    paths::child(name) && !text::has_control(name)
}

/// Whether a local name can be shown and selected.
pub fn safe_child_name(name: &str) -> (out: bool)
    ensures
        out == safe_child(name@),
{
    paths::is_child(name) && !text::holds_control(name)
}

/// The failure of the picker at a directory.
pub open spec fn failed_at(what: Seq<char>, directory: Seq<char>) -> error::ErrorView {
    error::failure(what + shown(directory))
}

/// The failure of the picker at a directory.
fn failure_at(what: &str, directory: &str) -> (out: Error)
    ensures
        out@ == failed_at(what@, directory@),
{
    Error::failure(text::cat(what, &picker_path(directory)))
}

/// A name, and what is there.
#[derive(Debug)]
pub struct NamedKind {
    pub name: String,
    pub kind: EntryKind,
}

/// A name, and what is there.
pub struct NamedView {
    pub name: Seq<char>,
    pub kind: EntryKind,
}

impl View for NamedKind {
    type V = NamedView;

    open spec fn view(&self) -> NamedView {
        NamedView { name: self.name@, kind: self.kind }
    }
}

/// What was read of one child of a local directory.
#[derive(Debug)]
pub enum PickerRead {
    /// The directory could not be read any further.
    Unreadable,
    /// The name is no text.
    BadName,
    Child(String, NodeFacts),
}

/// What the picker makes of a local child: `None` of what it passes over.
pub open spec fn local_pick(roots: RootsView, directory: Seq<char>, read: PickerRead) -> Result<
    Option<NamedView>,
    error::ErrorView,
> {
    match read {
        PickerRead::Unreadable => Err(
            failed_at("failed to read local picker path "@, directory),
        ),
        PickerRead::BadName => Err(
            failed_at("unsafe local entry in picker path "@, directory),
        ),
        PickerRead::Child(name, facts) => if !safe_child(name@) {
            Err(failed_at("unsafe local entry in picker path "@, directory))
        } else if inventory::is_own(paths::joined(directory, name@)) {
            Ok(None)
        } else {
            match facts.canonical {
                Err(_) => Err(
                    failed_at("failed to inspect local entry in picker path "@, directory),
                ),
                Ok(canonical) => if !paths::under_remote_root(
                    roots.canonical_root,
                    canonical@,
                ) {
                    Err(failed_at("unsafe local entry in picker path "@, directory))
                } else if paths::under_remote_root(roots.state_root, canonical@) {
                    Ok(None)
                } else {
                    match facts.kind {
                        Err(_) => Err(
                            failed_at(
                                "failed to inspect local entry in picker path "@,
                                directory,
                            ),
                        ),
                        Ok(None) => Err(
                            failed_at("unsupported local entry in picker path "@, directory),
                        ),
                        Ok(Some(kind)) => if facts.ignored {
                            Ok(None)
                        } else {
                            Ok(Some(NamedView { name: name@, kind }))
                        },
                    }
                },
            }
        },
    }
}

/// What the picker makes of a local child.
fn pick_local(roots: &LocalRoots, directory: &str, read: &PickerRead) -> (out: Result<
    Option<NamedKind>,
    Error,
>)
    ensures
        match (out, local_pick(roots@, directory@, *read)) {
            (Ok(Some(found)), Ok(Some(want))) => found@ == want,
            (Ok(None), Ok(None)) => true,
            (Err(e), Err(want)) => e@ == want,
            _ => false,
        },
{
    match read {
        PickerRead::Unreadable => Err(
            failure_at("failed to read local picker path ", directory),
        ),
        PickerRead::BadName => Err(
            failure_at("unsafe local entry in picker path ", directory),
        ),
        PickerRead::Child(name, facts) => {
            if !safe_child_name(name) {
                return Err(failure_at("unsafe local entry in picker path ", directory));
            }
            if inventory::belongs_to_ferry(&paths::join_relative(directory, name)) {
                return Ok(None);
            }
            match &facts.canonical {
                Err(_) => {
                    return Err(
                        failure_at("failed to inspect local entry in picker path ", directory),
                    );
                },
                Ok(canonical) => {
                    if !paths::is_under_remote_root(&roots.canonical_root, canonical) {
                        return Err(failure_at("unsafe local entry in picker path ", directory));
                    }
                    if paths::is_under_remote_root(&roots.state_root, canonical) {
                        return Ok(None);
                    }
                },
            }
            match &facts.kind {
                Err(_) => Err(
                    failure_at("failed to inspect local entry in picker path ", directory),
                ),
                Ok(None) => Err(
                    failure_at("unsupported local entry in picker path ", directory),
                ),
                Ok(Some(kind)) => if facts.ignored {
                    Ok(None)
                } else {
                    Ok(Some(NamedKind { name: name.clone(), kind: *kind }))
                },
            }
        },
    }
}

/// What the picker makes of the first children of a local directory.
pub open spec fn local_picks(
    roots: RootsView,
    directory: Seq<char>,
    reads: Seq<PickerRead>,
) -> Result<Seq<NamedView>, error::ErrorView>
    decreases reads.len(),
{
    if reads.len() == 0 {
        Ok(Seq::empty())
    } else {
        match local_picks(roots, directory, reads.drop_last()) {
            Err(e) => Err(e),
            Ok(before) => match local_pick(roots, directory, reads.last()) {
                Err(e) => Err(e),
                Ok(None) => Ok(before),
                Ok(Some(found)) => Ok(before.push(found)),
            },
        }
    }
}

proof fn local_picks_stay_refused(
    roots: RootsView,
    directory: Seq<char>,
    reads: Seq<PickerRead>,
    upto: int,
)
    requires
        0 <= upto <= reads.len(),
        local_picks(roots, directory, reads.take(upto)) is Err,
    ensures
        local_picks(roots, directory, reads) == local_picks(roots, directory, reads.take(upto)),
    decreases reads.len(),
{
    if upto == reads.len() {
        assert(reads.take(upto) =~= reads);
    } else {
        assert(reads.drop_last().take(upto) =~= reads.take(upto));
        local_picks_stay_refused(roots, directory, reads.drop_last(), upto);
    }
}

/// What is there at a local directory: where it really lies and whether it is a
/// directory, where that could be found out, and its children, if it can be read.
#[derive(Debug)]
pub struct LocalListing {
    pub canonical: Option<String>,
    pub is_dir: Option<bool>,
    pub children: Option<Vec<PickerRead>>,
}

/// What the picker makes of a local directory.
pub open spec fn local_listing(
    roots: RootsView,
    directory: Seq<char>,
    listing: LocalListing,
) -> Result<Seq<NamedView>, error::ErrorView> {
    match listing.canonical {
        None => Err(failed_at("failed to list local picker path "@, directory)),
        Some(canonical) => if !paths::under_remote_root(roots.canonical_root, canonical@)
            || paths::under_remote_root(roots.state_root, canonical@) {
            Err(failed_at("unsafe local picker path "@, directory))
        } else {
            match (listing.is_dir, listing.children) {
                (None, _) => Err(failed_at("failed to inspect local picker path "@, directory)),
                (Some(false), _) => Err(
                    error::failure(
                        "local picker path "@ + shown(directory) + " is not a directory"@,
                    ),
                ),
                (Some(true), None) => Err(
                    failed_at("failed to list local picker path "@, directory),
                ),
                (Some(true), Some(children)) => local_picks(roots, directory, children@),
            }
        },
    }
}

/// What the picker makes of a local directory. Whatever it cannot look at, and
/// whatever really lies outside the root, ends it; what belongs to the state or to
/// an unfinished transfer, and what is ignored, is passed over.
pub fn list_local(roots: &LocalRoots, directory: &str, listing: &LocalListing) -> (out: Result<
    Vec<NamedKind>,
    Error,
>)
    ensures
        match (out, local_listing(roots@, directory@, *listing)) {
            (Ok(found), Ok(want)) => text::views(found@) == want,
            (Err(e), Err(want)) => e@ == want,
            _ => false,
        },
{
    match &listing.canonical {
        None => {
            return Err(failure_at("failed to list local picker path ", directory));
        },
        Some(canonical) => {
            if !paths::is_under_remote_root(&roots.canonical_root, canonical)
                || paths::is_under_remote_root(&roots.state_root, canonical) {
                return Err(failure_at("unsafe local picker path ", directory));
            }
        },
    }
    match listing.is_dir {
        None => {
            return Err(failure_at("failed to inspect local picker path ", directory));
        },
        Some(is_dir) => {
            if !is_dir {
                return Err(
                    Error::failure(
                        text::cat3(
                            "local picker path ",
                            &picker_path(directory),
                            " is not a directory",
                        ),
                    ),
                );
            }
        },
    }
    let reads = match &listing.children {
        None => {
            return Err(failure_at("failed to list local picker path ", directory));
        },
        Some(reads) => reads,
    };
    let mut found: Vec<NamedKind> = Vec::new();
    let mut i: usize = 0;
    assert(text::views(found@) =~= Seq::<NamedView>::empty());
    assert(reads@.take(0) =~= Seq::<PickerRead>::empty());
    while i < reads.len()
        invariant
            i <= reads@.len(),
            local_listing(roots@, directory@, *listing) == local_picks(
                roots@,
                directory@,
                reads@,
            ),
            local_picks(roots@, directory@, reads@.take(i as int)) == Ok::<
                Seq<NamedView>,
                error::ErrorView,
            >(text::views(found@)),
        decreases reads.len() - i,
    {
        let ghost before = text::views(found@);
        assert(reads@.take(i + 1).drop_last() =~= reads@.take(i as int));
        assert(reads@.take(i + 1).last() == reads@[i as int]);
        match pick_local(roots, directory, &reads[i]) {
            Err(e) => {
                proof {
                    local_picks_stay_refused(roots@, directory@, reads@, i + 1);
                }
                return Err(e);
            },
            Ok(None) => {},
            Ok(Some(named)) => {
                found.push(named);
                assert(text::views(found@) =~= before.push(named@));
            },
        }
        i += 1;
    }
    assert(reads@.take(i as int) =~= reads@);
    Ok(found)
}

/// What is there under a name, and on which side.
#[derive(Debug, Clone, Copy, PartialEq, Eq, Structural)]
pub struct Shown {
    pub kind: EntryKind,
    pub presence: Presence,
}

/// The names, once one more was found. What both sides hold is on both, and a file
/// unless both hold a directory.
pub open spec fn merged(
    names: Map<Seq<char>, Shown>,
    name: Seq<char>,
    kind: EntryKind,
    presence: Presence,
) -> Map<Seq<char>, Shown> {
    if names.contains_key(name) {
        names.insert(
            name,
            Shown {
                kind: if names[name].kind == kind {
                    kind
                } else {
                    EntryKind::File
                },
                presence: Presence::Both,
            },
        )
    } else {
        names.insert(name, Shown { kind, presence })
    }
}

/// Adds a name to those that are shown.
fn merge_entry(names: &mut PathMap<Shown>, name: &str, kind: EntryKind, presence: Presence)
    requires
        old(names).wf(),
    ensures
        final(names).wf(),
        final(names)@ == merged(old(names)@, name@, kind, presence),
{
    let known: Option<Shown> = match names.get(name) {
        Some(shown) => Some(*shown),
        None => None,
    };
    let shown = match known {
        Some(shown) => Shown {
            kind: if shown.kind == kind {
                kind
            } else {
                EntryKind::File
            },
            presence: Presence::Both,
        },
        None => Shown { kind, presence },
    };
    names.insert(name.to_owned(), shown);
}

/// The names, once those of one side were added.
pub open spec fn merged_all(
    names: Map<Seq<char>, Shown>,
    found: Seq<NamedView>,
    presence: Presence,
) -> Map<Seq<char>, Shown>
    decreases found.len(),
{
    if found.len() == 0 {
        names
    } else {
        merged(
            merged_all(names, found.drop_last(), presence),
            found.last().name,
            found.last().kind,
            presence,
        )
    }
}

/// Adds the names of one side to those that are shown.
fn merge_all(names: &mut PathMap<Shown>, found: &Vec<NamedKind>, presence: Presence)
    requires
        old(names).wf(),
    ensures
        final(names).wf(),
        final(names)@ == merged_all(old(names)@, text::views(found@), presence),
{
    let ghost all = text::views(found@);
    let mut i: usize = 0;
    assert(all.take(0) =~= Seq::<NamedView>::empty());
    while i < found.len()
        invariant
            i <= found@.len(),
            names.wf(),
            all == text::views(found@),
            names@ == merged_all(old(names)@, all.take(i as int), presence),
        decreases found.len() - i,
    {
        assert(all.take(i + 1).drop_last() =~= all.take(i as int));
        assert(all.take(i + 1).last() == found@[i as int]@);
        merge_entry(names, &found[i].name, found[i].kind, presence);
        i += 1;
    }
    assert(all.take(i as int) =~= all);
}

/// The names and kinds of some remote children.
pub open spec fn named_children(children: Seq<ChildView>) -> Seq<NamedView> {
    Seq::new(
        children.len(),
        |i: int|
            NamedView {
                name: children[i].name,
                kind: remote_inventory::kind_of(children[i].is_dir),
            },
    )
}

/// The names and kinds of some remote children.
fn name_children(children: &Vec<RemoteChild>) -> (out: Vec<NamedKind>)
    ensures
        text::views(out@) == named_children(text::views(children@)),
{
    let mut out: Vec<NamedKind> = Vec::new();
    let mut i: usize = 0;
    while i < children.len()
        invariant
            i <= children@.len(),
            out@.len() == i,
            forall|k: int|
                0 <= k < i ==> (#[trigger] out@[k])@ == (NamedView {
                    name: children@[k]@.name,
                    kind: remote_inventory::kind_of(children@[k]@.is_dir),
                }),
        decreases children.len() - i,
    {
        out.push(
            NamedKind {
                name: children[i].name.clone(),
                kind: remote_inventory::entry_kind(children[i].is_dir),
            },
        );
        i += 1;
    }
    assert(text::views(out@) =~= named_children(text::views(children@)));
    out
}

/// The failure of the picker at a remote directory, from the message of what
/// refused it. Nothing that the server said is in it.
pub open spec fn remote_failure(message: Seq<char>, directory: Seq<char>) -> error::ErrorView {
    if text::holds_text(message, "unsafe remote entry"@) {
        failed_at("unsafe remote entry in picker path "@, directory)
    } else {
        failed_at("failed to list remote picker path "@, directory)
    }
}

/// The failure of the picker at a remote directory.
fn remote_failure_at(message: &str, directory: &str) -> (out: Error)
    ensures
        out@ == remote_failure(message@, directory@),
{
    if text::contains_text(message, "unsafe remote entry") {
        failure_at("unsafe remote entry in picker path ", directory)
    } else {
        failure_at("failed to list remote picker path ", directory)
    }
}

/// What the picker can show: the two roots, and the directories that it has come
/// across, with the sides that hold them.
#[derive(Debug)]
pub struct ProjectPickerSource {
    pub roots: LocalRoots,
    pub remote_root: String,
    pub directories: PathMap<Presence>,
}

/// What the picker can show.
pub struct SourceView {
    pub roots: RootsView,
    pub remote_root: Seq<char>,
    pub directories: Map<Seq<char>, Presence>,
}

impl View for ProjectPickerSource {
    type V = SourceView;

    open spec fn view(&self) -> SourceView {
        SourceView {
            roots: self.roots@,
            remote_root: self.remote_root@,
            directories: self.directories@,
        }
    }
}

/// Where a picker starts: at the root of the project, which is on both sides.
pub open spec fn source_of(
    local_root: Seq<char>,
    canonical_root: Result<String, Error>,
    state_root: Result<Option<String>, Error>,
    remote_root: Seq<char>,
) -> Result<SourceView, error::ErrorView> {
    match (canonical_root, state_root, paths::root_of(remote_root)) {
        (Err(_), _, _) => Err(error::failure("failed to open local picker root"@)),
        (Ok(_), Err(_), _) => Err(
            error::failure("failed to inspect local picker state directory"@),
        ),
        (Ok(_), Ok(_), Err(_)) => Err(error::failure("invalid remote picker root"@)),
        (Ok(canonical), Ok(state), Ok(remote_root)) => Ok(
            SourceView {
                roots: RootsView {
                    local_root,
                    canonical_root: canonical@,
                    state_root: match state {
                        Some(state) => state@,
                        None => local_paths::joined(canonical@, paths::STATE_DIR@),
                    },
                },
                remote_root,
                directories: Map::<Seq<char>, Presence>::empty().insert(
                    Seq::empty(),
                    Presence::Both,
                ),
            },
        ),
    }
}

/// Why a directory cannot be shown, or the sides that hold it.
pub open spec fn presence_of(source: SourceView, directory: Seq<char>) -> Result<
    Presence,
    error::ErrorView,
> {
    if directory.len() > 0 && !paths::scoped(directory) {
        Err(error::failure("unsafe picker path"@))
    } else if !source.directories.contains_key(directory) {
        Err(error::failure("picker path was not discovered"@))
    } else {
        Ok(source.directories[directory])
    }
}

/// What the listing of a directory waits for.
#[derive(Debug, Clone, Copy, PartialEq, Eq, Structural)]
pub enum PickerPhase {
    Local,
    Remote,
    /// Which of the remote children are ignored.
    Ignore,
    Done,
}

/// The listing of a directory of the project.
#[derive(Debug)]
pub struct PickerListing {
    pub directory: String,
    pub presence: Presence,
    pub names: PathMap<Shown>,
    pub candidates: Vec<RemoteChild>,
    pub warnings: Vec<String>,
    pub phase: PickerPhase,
    pub failure: Option<Error>,
}

/// What the listing of a directory says.
pub struct PickerListingView {
    pub directory: Seq<char>,
    pub presence: Presence,
    pub names: Map<Seq<char>, Shown>,
    pub candidates: Seq<ChildView>,
    pub warnings: Seq<Seq<char>>,
    pub phase: PickerPhase,
    pub failure: Option<error::ErrorView>,
}

impl View for PickerListing {
    type V = PickerListingView;

    open spec fn view(&self) -> PickerListingView {
        PickerListingView {
            directory: self.directory@,
            presence: self.presence,
            names: self.names@,
            candidates: text::views(self.candidates@),
            warnings: text::views(self.warnings@),
            phase: self.phase,
            failure: match self.failure {
                Some(e) => Some(e@),
                None => None,
            },
        }
    }
}

/// Where the listing of a directory starts: on the local side, unless only the
/// remote side holds it.
pub open spec fn listing_start(directory: Seq<char>, presence: Presence) -> PickerListingView {
    PickerListingView {
        directory,
        presence,
        names: Map::empty(),
        candidates: Seq::empty(),
        warnings: Seq::empty(),
        phase: if presence == Presence::Remote {
            PickerPhase::Remote
        } else {
            PickerPhase::Local
        },
        failure: None,
    }
}

impl PickerListingView {
    /// The listing, ended by a failure.
    pub open spec fn failed(self, failure: error::ErrorView) -> PickerListingView {
        PickerListingView { phase: PickerPhase::Done, failure: Some(failure), ..self }
    }
}

/// A reply to the listing of a directory.
pub enum PickerReply {
    Local(LocalListing),
    Remote(Result<Seq<EntryView>, error::ErrorView>),
    Ignored(Seq<bool>),
}

/// The remote path of a directory of the project.
pub open spec fn remote_directory(remote_root: Seq<char>, directory: Seq<char>) -> Seq<char> {
    if directory.len() == 0 {
        remote_root
    } else {
        paths::remote_joined(remote_root, directory)
    }
}

/// Where a reply leads the listing of a directory. A reply that the phase does not
/// wait for changes nothing.
pub open spec fn picker_step(
    u: PickerListingView,
    source: SourceView,
    reply: PickerReply,
) -> PickerListingView {
    match (u.phase, reply) {
        (PickerPhase::Local, PickerReply::Local(listing)) => match local_listing(
            source.roots,
            u.directory,
            listing,
        ) {
            Err(e) => u.failed(e),
            Ok(found) => PickerListingView {
                names: merged_all(u.names, found, Presence::Local),
                phase: if u.presence == Presence::Local {
                    PickerPhase::Done
                } else {
                    PickerPhase::Remote
                },
                ..u
            },
        },
        (PickerPhase::Remote, PickerReply::Remote(listing)) => {
            let directory = remote_directory(source.remote_root, u.directory);
            match listing {
                Err(_) => u.failed(
                    remote_failure(
                        "listing remote directory "@ + text::debug_text(directory),
                        u.directory,
                    ),
                ),
                Ok(entries) => {
                    let (found, refusal) = listing::read_children(
                        source.remote_root,
                        directory,
                        entries,
                    );
                    let next = PickerListingView {
                        warnings: u.warnings + remote_inventory::skips_of(directory, found),
                        ..u
                    };
                    match refusal {
                        Some(e) => next.failed(remote_failure(e.message, u.directory)),
                        None => PickerListingView {
                            candidates: remote_inventory::candidates_of(u.directory, found),
                            phase: PickerPhase::Ignore,
                            ..next
                        },
                    }
                },
            }
        },
        (PickerPhase::Ignore, PickerReply::Ignored(ignored)) => PickerListingView {
            names: merged_all(
                u.names,
                named_children(remote_inventory::kept(u.candidates, ignored)),
                Presence::Remote,
            ),
            phase: PickerPhase::Done,
            ..u
        },
        _ => u,
    }
}

impl ProjectPickerSource {
    /// A picker at the root of the project, from where its roots really lie.
    pub fn new(
        local_root: &str,
        canonical_root: Result<String, Error>,
        state_root: Result<Option<String>, Error>,
        remote_root: &str,
    ) -> (out: Result<ProjectPickerSource, Error>)
        ensures
            match (out, source_of(local_root@, canonical_root, state_root, remote_root@)) {
                (Ok(source), Ok(want)) => source.directories.wf() && source@ == want,
                (Err(e), Err(want)) => e@ == want,
                _ => false,
            },
    {
        let canonical = match canonical_root {
            Ok(canonical) => canonical,
            Err(_) => {
                return Err(Error::failure("failed to open local picker root".to_owned()));
            },
        };
        let state_root = match state_root {
            Ok(Some(state)) => state,
            Ok(None) => local_paths::join(&canonical, paths::STATE_DIR),
            Err(_) => {
                return Err(
                    Error::failure("failed to inspect local picker state directory".to_owned()),
                );
            },
        };
        let remote_root = match paths::normalize_remote_root(remote_root) {
            Ok(root) => root,
            Err(_) => {
                return Err(Error::failure("invalid remote picker root".to_owned()));
            },
        };
        let mut directories: PathMap<Presence> = PathMap::new();
        let root = String::new();
        assert(root@ =~= Seq::<char>::empty());
        directories.insert(root, Presence::Both);
        Ok(
            ProjectPickerSource {
                roots: LocalRoots {
                    local_root: local_root.to_owned(),
                    canonical_root: canonical,
                    state_root,
                },
                remote_root,
                directories,
            },
        )
    }

    /// Starts the listing of a directory that the picker has come across.
    pub fn list(&self, directory: &str) -> (out: Result<PickerListing, Error>)
        requires
            self.directories.wf(),
        ensures
            match (out, presence_of(self@, directory@)) {
                (Ok(listing), Ok(presence)) => {
                    &&& listing.names.wf()
                    &&& listing@ == listing_start(directory@, presence)
                },
                (Err(e), Err(want)) => e@ == want,
                _ => false,
            },
    {
        if directory.unicode_len() > 0 {
            if let Err(_) = paths::validate_relative_path(directory) {
                return Err(Error::failure("unsafe picker path".to_owned()));
            }
        }
        let presence = match self.directories.get(directory) {
            Some(presence) => *presence,
            None => {
                return Err(Error::failure("picker path was not discovered".to_owned()));
            },
        };
        let listing = PickerListing {
            directory: directory.to_owned(),
            presence,
            names: PathMap::new(),
            candidates: Vec::new(),
            warnings: Vec::new(),
            phase: match presence {
                Presence::Remote => PickerPhase::Remote,
                _ => PickerPhase::Local,
            },
            failure: None,
        };
        assert(listing@.candidates =~= Seq::<ChildView>::empty());
        assert(listing@.warnings =~= Seq::<Seq<char>>::empty());
        Ok(listing)
    }

    /// The remote path of a directory of the project.
    pub fn remote_directory(&self, directory: &str) -> (out: String)
        ensures
            out@ == remote_directory(self@.remote_root, directory@),
    {
        if directory.unicode_len() == 0 {
            self.remote_root.clone()
        } else {
            paths::remote_path_join(&self.remote_root, directory)
        }
    }
}

impl PickerListing {
    fn fail(&mut self, failure: Error)
        requires
            old(self).names.wf(),
        ensures
            final(self).names.wf(),
            final(self)@ == old(self)@.failed(failure@),
    {
        self.phase = PickerPhase::Done;
        self.failure = Some(failure);
    }

    /// Takes what is there on the local side.
    pub fn on_local(&mut self, source: &ProjectPickerSource, listing: LocalListing)
        requires
            old(self).names.wf(),
        ensures
            final(self).names.wf(),
            final(self)@ == picker_step(old(self)@, source@, PickerReply::Local(listing)),
    {
        match self.phase {
            PickerPhase::Local => match list_local(&source.roots, &self.directory, &listing) {
                Err(e) => self.fail(e),
                Ok(found) => {
                    merge_all(&mut self.names, &found, Presence::Local);
                    self.phase = match self.presence {
                        Presence::Local => PickerPhase::Done,
                        _ => PickerPhase::Remote,
                    };
                },
            },
            _ => {},
        }
    }

    /// Takes the listing of the remote side.
    pub fn on_remote(&mut self, source: &ProjectPickerSource, listing: Result<Vec<Entry>, Error>)
        requires
            old(self).names.wf(),
        ensures
            final(self).names.wf(),
            final(self)@ == picker_step(
                old(self)@,
                source@,
                PickerReply::Remote(file_transfer::listed(listing)),
            ),
    {
        match self.phase {
            PickerPhase::Remote => {},
            _ => {
                return ;
            },
        }
        let directory = source.remote_directory(&self.directory);
        match listing {
            Err(_) => {
                let message = text::cat(
                    "listing remote directory ",
                    &text::debug_of(&directory),
                );
                let failure = remote_failure_at(&message, &self.directory);
                self.fail(failure);
            },
            Ok(entries) => {
                let children = remote_inventory::list_remote_children(
                    &source.remote_root,
                    &directory,
                    &self.directory,
                    &entries,
                );
                let mut warnings = children.warnings;
                let ghost first = self.warnings@;
                let ghost second = warnings@;
                self.warnings.append(&mut warnings);
                assert(text::views(first + second) =~= text::views(first) + text::views(second));
                match children.refusal {
                    Some(e) => {
                        let failure = remote_failure_at(&e.message, &self.directory);
                        self.fail(failure);
                    },
                    None => {
                        self.candidates = children.candidates;
                        self.phase = PickerPhase::Ignore;
                    },
                }
            },
        }
    }

    /// Takes which of the remote children are ignored.
    pub fn on_ignored(&mut self, source: &ProjectPickerSource, ignored: &Vec<bool>)
        requires
            old(self).names.wf(),
        ensures
            final(self).names.wf(),
            final(self)@ == picker_step(old(self)@, source@, PickerReply::Ignored(ignored@)),
    {
        match self.phase {
            PickerPhase::Ignore => {
                let children = remote_inventory::keep(&self.candidates, ignored);
                let found = name_children(&children);
                merge_all(&mut self.names, &found, Presence::Remote);
                self.phase = PickerPhase::Done;
            },
            _ => {},
        }
    }
}

/// The entries of a listing, in the order of their names.
pub open spec fn picks_of(names: Map<Seq<char>, Shown>) -> Seq<PickView> {
    Seq::new(
        order::keys_of(names).len(),
        |i: int|
            PickView {
                name: order::keys_of(names)[i],
                kind: names[order::keys_of(names)[i]].kind,
                presence: names[order::keys_of(names)[i]].presence,
            },
    )
}

/// The directories that the picker has come across, once some entries of a
/// directory are among them.
pub open spec fn discovered(
    directories: Map<Seq<char>, Presence>,
    directory: Seq<char>,
    picks: Seq<PickView>,
) -> Map<Seq<char>, Presence>
    decreases picks.len(),
{
    if picks.len() == 0 {
        directories
    } else {
        let before = discovered(directories, directory, picks.drop_last());
        if picks.last().kind == EntryKind::Directory {
            before.insert(paths::joined(directory, picks.last().name), picks.last().presence)
        } else {
            before
        }
    }
}

impl ProjectPickerSource {
    /// The entries of a listing that has ended. The directories among them can be
    /// listed from now on.
    pub fn discover(&mut self, listing: PickerListing) -> (out: Result<Vec<PickerEntry>, Error>)
        requires
            old(self).directories.wf(),
            listing.names.wf(),
        ensures
            final(self).directories.wf(),
            match (out, listing@.failure) {
                (Ok(entries), None) => {
                    &&& text::views(entries@) == picks_of(listing@.names)
                    &&& final(self)@ == (SourceView {
                        directories: discovered(
                            old(self)@.directories,
                            listing@.directory,
                            picks_of(listing@.names),
                        ),
                        ..old(self)@
                    })
                },
                (Err(e), Some(want)) => e@ == want && final(self)@ == old(self)@,
                _ => false,
            },
    {
        if let Some(e) = listing.failure {
            return Err(e);
        }
        proof {
            listing.names.facts();
        }
        let ghost picks = picks_of(listing@.names);
        let mut entries: Vec<PickerEntry> = Vec::new();
        let mut i: usize = 0;
        assert(text::views(entries@) =~= picks.take(0));
        while i < listing.names.len()
            invariant
                listing.names.wf(),
                self.directories.wf(),
                i <= picks.len(),
                picks == picks_of(listing.names@),
                picks.len() == listing.names.keys().len(),
                listing.names.keys() == order::keys_of(listing.names@),
                listing.names.items().len() == picks.len(),
                forall|k: int|
                    0 <= k < listing.names.keys().len() ==> listing.names@[(
                    #[trigger] listing.names.keys()[k])] == listing.names.items()[k],
                text::views(entries@) == picks.take(i as int),
                self@ == (SourceView {
                    directories: discovered(
                        old(self)@.directories,
                        listing.directory@,
                        picks.take(i as int),
                    ),
                    ..old(self)@
                }),
            decreases listing.names.keys().len() - i,
        {
            let ghost before = text::views(entries@);
            let name = listing.names.key(i);
            let shown = *listing.names.item(i);
            assert(picks.take(i + 1).drop_last() =~= picks.take(i as int));
            assert(picks.take(i + 1).last() == picks[i as int]);
            assert(picks[i as int].name == name@);
            match shown.kind {
                EntryKind::Directory => {
                    let path = paths::join_relative(&listing.directory, name);
                    self.directories.insert(path, shown.presence);
                },
                EntryKind::File => {},
            }
            entries.push(
                PickerEntry { name: name.clone(), kind: shown.kind, presence: shown.presence },
            );
            assert(text::views(entries@) =~= before.push(picks[i as int]));
            assert(before.push(picks[i as int]) =~= picks.take(i + 1));
            i += 1;
        }
        assert(picks.take(i as int) =~= picks);
        Ok(entries)
    }
}

/// The key of an entry of the picker.
pub open spec fn pick_key() -> spec_fn(PickView) -> Seq<char> {
    |pick: PickView| pick.name
}

/// Places an entry behind all that do not come after it.
fn place_entry(entries: &mut Vec<PickerEntry>, entry: PickerEntry)
    ensures
        text::views(final(entries)@) == outcome::placed(
            text::views(old(entries)@),
            entry@,
            pick_key(),
        ),
{
    let ghost start = text::views(entries@);
    let ghost x = entry@;
    let mut at: usize = entries.len();
    let ghost mut tail = Seq::<PickView>::empty();
    assert(start.take(at as int) =~= start);
    assert(outcome::placed(start, x, pick_key()) =~= outcome::placed(
        start.take(at as int),
        x,
        pick_key(),
    ) + tail);
    while at > 0 && order::precedes(&entry.name, &entries[at - 1].name)
        invariant
            at <= entries@.len(),
            start == text::views(entries@),
            x == entry@,
            tail == start.skip(at as int),
            outcome::placed(start, x, pick_key()) == outcome::placed(
                start.take(at as int),
                x,
                pick_key(),
            ) + tail,
        decreases at,
    {
        proof {
            let part = start.take(at as int);
            assert(part.drop_last() =~= start.take(at - 1));
            assert(part.last() == entries@[at - 1]@);
            tail = seq![part.last()] + tail;
            assert(outcome::placed(start, x, pick_key()) =~= outcome::placed(
                start.take(at - 1),
                x,
                pick_key(),
            ) + tail);
            assert(tail =~= start.skip(at - 1));
        }
        at -= 1;
    }
    proof {
        let part = start.take(at as int);
        if at > 0 {
            assert(part.last() == entries@[at - 1]@);
        }
        assert(outcome::placed(part, x, pick_key()) == part.push(x));
    }
    entries.insert(at, entry);
    assert(text::views(entries@) =~= start.take(at as int).push(x) + tail);
}

/// The entries in the order of their names.
pub fn sort_entries(entries: &Vec<PickerEntry>) -> (out: Vec<PickerEntry>)
    ensures
        text::views(out@) == outcome::in_order(text::views(entries@), pick_key()),
        out@.len() == entries@.len(),
{
    let ghost all = text::views(entries@);
    let mut out: Vec<PickerEntry> = Vec::new();
    let mut i: usize = 0;
    assert(text::views(out@) =~= outcome::in_order(all.take(0), pick_key()));
    while i < entries.len()
        invariant
            i <= entries@.len(),
            all == text::views(entries@),
            text::views(out@) == outcome::in_order(all.take(i as int), pick_key()),
        decreases entries.len() - i,
    {
        assert(all.take(i + 1).drop_last() =~= all.take(i as int));
        assert(all.take(i + 1).last() == entries@[i as int]@);
        place_entry(
            &mut out,
            PickerEntry {
                name: entries[i].name.clone(),
                kind: entries[i].kind,
                presence: entries[i].presence,
            },
        );
        i += 1;
    }
    assert(all.take(i as int) =~= all);
    proof {
        outcome::in_order_sorts(all, pick_key());
        assert(text::views(out@).len() == all.len());
    }
    out
}

/// The number of the first entry in the menu of a directory: below the root the
/// parent comes before it.
pub open spec fn first_entry(current: Seq<char>) -> nat {
    if current.len() == 0 {
        1
    } else {
        2
    }
}

/// The line of an entry in the menu.
pub open spec fn pick_line(number: nat, pick: PickView) -> Seq<char> {
    text::decimal(number) + ". ["@ + (match pick.kind {
        EntryKind::File => "file"@,
        EntryKind::Directory => "dir"@,
    }) + "] "@ + text::displayed(pick.name) + " ("@ + pick.presence.name() + ")"@
}

/// The lines of the first entries in the menu.
pub open spec fn pick_lines(first: nat, picks: Seq<PickView>) -> Seq<Seq<char>> {
    Seq::new(picks.len(), |i: int| pick_line(first + i as nat, picks[i]))
}

/// The menu of a directory.
pub open spec fn menu_of(current: Seq<char>, picks: Seq<PickView>) -> Seq<Seq<char>> {
    let head = seq!["Current path: "@ + shown(current), "0. Sync this folder"@];
    let up = if current.len() == 0 {
        Seq::empty()
    } else {
        seq!["1. Parent"@]
    };
    head + up + pick_lines(first_entry(current), picks) + seq![
        text::decimal(first_entry(current) + picks.len()) + ". Cancel"@,
    ]
}

/// What an answer at the prompt means.
#[derive(Debug, PartialEq, Eq)]
pub enum Answer {
    /// Nothing is to be synchronised.
    Cancelled,
    /// Another directory is to be shown.
    Show(String),
    Chosen(SyncScope),
    /// It means nothing; the prompt comes again.
    Again,
}

/// What an answer at the prompt means.
pub enum AnswerView {
    Cancelled,
    Show(Seq<char>),
    Chosen(ScopeView),
    Again,
}

impl View for Answer {
    type V = AnswerView;

    open spec fn view(&self) -> AnswerView {
        match self {
            Answer::Cancelled => AnswerView::Cancelled,
            Answer::Show(directory) => AnswerView::Show(directory@),
            Answer::Chosen(scope) => AnswerView::Chosen(scope@),
            Answer::Again => AnswerView::Again,
        }
    }
}

/// What asks for an answer.
pub const PROMPT: &'static str = "Selection: ";

impl Answer {
    /// The line that says that an answer means nothing.
    pub fn notice(&self) -> (out: Option<String>)
        ensures
            match out {
                Some(line) => {
                    &&& self@ == AnswerView::Again
                    &&& line@ == "Please enter one of the displayed numbers."@
                },
                None => self@ != AnswerView::Again,
            },
    {
        match self {
            Answer::Again => Some("Please enter one of the displayed numbers.".to_owned()),
            _ => None,
        }
    }
}

/// Whether an answer cancels: an empty one, the escape character and the words for
/// it, whatever their case.
pub open spec fn cancels(answer: Seq<char>) -> bool {
    ||| answer.len() == 0
    ||| answer == seq!['\u{1b}']
    ||| text::same_but_case(answer, "cancel"@)
    ||| text::same_but_case(answer, "q"@)
}

/// The directory that holds another one, the root being empty.
pub open spec fn parent_of(directory: Seq<char>) -> Seq<char> {
    match text::split_last(directory) {
        Some((parent, _)) => parent,
        None => Seq::empty(),
    }
}

/// What a number at the prompt means.
pub open spec fn choice_of(current: Seq<char>, picks: Seq<PickView>, choice: nat) -> AnswerView {
    let first = first_entry(current);
    if choice == 0 {
        AnswerView::Chosen(
            if current.len() == 0 {
                ScopeView::RootDirectory
            } else {
                ScopeView::Path(current)
            },
        )
    } else if current.len() > 0 && choice == 1 {
        AnswerView::Show(parent_of(current))
    } else if choice == first + picks.len() {
        AnswerView::Cancelled
    } else if first <= choice < first + picks.len() {
        let pick = picks[choice - first];
        match pick.kind {
            EntryKind::Directory => AnswerView::Show(paths::joined(current, pick.name)),
            EntryKind::File => AnswerView::Chosen(
                ScopeView::Path(paths::joined(current, pick.name)),
            ),
        }
    } else {
        AnswerView::Again
    }
}

/// What an answer at the prompt means.
pub open spec fn answer_of(current: Seq<char>, picks: Seq<PickView>, answer: Seq<char>) -> AnswerView {
    let trimmed = text::trim_space(answer);
    if cancels(trimmed) {
        AnswerView::Cancelled
    } else {
        match text::number_of(trimmed) {
            None => AnswerView::Again,
            Some(choice) => choice_of(current, picks, choice),
        }
    }
}

/// The selection of a scope: the directory that is shown and its entries.
#[derive(Debug)]
pub struct Selection {
    pub current: String,
    pub entries: Vec<PickerEntry>,
}

/// Whether an answer cancels.
fn does_cancel(answer: &str) -> (out: bool)
    ensures
        out == cancels(answer@),
{
    let mut escape = String::new();
    escape.push('\u{1b}');
    assert(escape@ =~= seq!['\u{1b}']);
    answer.unicode_len() == 0 || text::same(answer, &escape) || text::same_ignoring_case(
        answer,
        "cancel",
    ) || text::same_ignoring_case(answer, "q")
}

impl Selection {
    /// The selection starts at the root of the project.
    pub fn select() -> (out: Selection)
        ensures
            out.current@ == Seq::<char>::empty(),
            text::views(out.entries@) == Seq::<PickView>::empty(),
    {
        let out = Selection { current: String::new(), entries: Vec::new() };
        assert(out.current@ =~= Seq::<char>::empty());
        assert(text::views(out.entries@) =~= Seq::<PickView>::empty());
        out
    }

    /// Shows the entries of the current directory, and gives the lines of the menu.
    pub fn show(&mut self, entries: &Vec<PickerEntry>) -> (out: Vec<String>)
        requires
            entries@.len() + 2 <= usize::MAX,
        ensures
            final(self).current == old(self).current,
            text::views(final(self).entries@) == outcome::in_order(
                text::views(entries@),
                pick_key(),
            ),
            final(self).entries@.len() == entries@.len(),
            text::views(out@) == menu_of(
                final(self).current@,
                text::views(final(self).entries@),
            ),
    {
        self.entries = sort_entries(entries);
        let ghost picks = text::views(self.entries@);
        let ghost current = self.current@;
        let mut out: Vec<String> = Vec::new();
        out.push(text::cat("Current path: ", &picker_path(&self.current)));
        out.push("0. Sync this folder".to_owned());
        let first: usize = if self.current.as_str().unicode_len() == 0 {
            1
        } else {
            out.push("1. Parent".to_owned());
            2
        };
        let ghost head = text::views(out@);
        assert(head =~= seq!["Current path: "@ + shown(current), "0. Sync this folder"@] + (
        if current.len() == 0 {
            Seq::empty()
        } else {
            seq!["1. Parent"@]
        }));
        let mut i: usize = 0;
        assert(head + pick_lines(first as nat, picks.take(0)) =~= head);
        while i < self.entries.len()
            invariant
                i <= self.entries@.len(),
                self.entries@.len() + 2 <= usize::MAX,
                first <= 2,
                picks == text::views(self.entries@),
                text::views(out@) == head + pick_lines(first as nat, picks.take(i as int)),
            decreases self.entries.len() - i,
        {
            let ghost before = text::views(out@);
            let entry = &self.entries[i];
            let kind = match entry.kind {
                EntryKind::File => "file",
                EntryKind::Directory => "dir",
            };
            let line = text::cat4(
                &text::cat4(&text::decimal_of(first + i), ". [", kind, "] "),
                &text::display(&entry.name),
                " (",
                &text::cat(entry.presence.label(), ")"),
            );
            assert(line@ =~= pick_line((first + i) as nat, picks[i as int]));
            out.push(line);
            proof {
                let fewer = pick_lines(first as nat, picks.take(i as int));
                let more = pick_lines(first as nat, picks.take(i + 1));
                assert(more =~= fewer.push(line@)) by {
                    assert(picks.take(i + 1)[i as int] == picks[i as int]);
                }
                assert(text::views(out@) =~= before.push(line@));
                assert(before.push(line@) =~= head + more);
            }
            i += 1;
        }
        assert(picks.take(i as int) =~= picks);
        let ghost before = text::views(out@);
        let last = text::cat(&text::decimal_of(first + self.entries.len()), ". Cancel");
        out.push(last);
        assert(text::views(out@) =~= before + seq![last@]);
        out
    }

    /// Takes an answer at the prompt.
    pub fn on_answer(&mut self, answer: &str) -> (out: Answer)
        requires
            old(self).entries@.len() + 2 <= usize::MAX,
        ensures
            out@ == answer_of(old(self).current@, text::views(old(self).entries@), answer@),
            final(self).entries == old(self).entries,
            final(self).current@ == match out@ {
                AnswerView::Show(directory) => directory,
                _ => old(self).current@,
            },
    {
        let trimmed = text::trim(answer);
        if does_cancel(&trimmed) {
            return Answer::Cancelled;
        }
        let choice: usize = match text::read_number(&trimmed) {
            Number::Known(choice) => choice,
            _ => {
                return Answer::Again;
            },
        };
        let at_root = self.current.as_str().unicode_len() == 0;
        if choice == 0 {
            return Answer::Chosen(
                if at_root {
                    SyncScope::RootDirectory
                } else {
                    SyncScope::Path(self.current.clone())
                },
            );
        }
        if !at_root && choice == 1 {
            let parent = match text::rsplit_slash(&self.current) {
                Some((parent, _)) => parent,
                None => {
                    let root = String::new();
                    assert(root@ =~= Seq::<char>::empty());
                    root
                },
            };
            self.current = parent.clone();
            return Answer::Show(parent);
        }
        let first: usize = if at_root {
            1
        } else {
            2
        };
        let offset: usize = choice - first;
        if offset == self.entries.len() {
            return Answer::Cancelled;
        }
        if offset > self.entries.len() {
            return Answer::Again;
        }
        assert(text::views(self.entries@)[offset as int] == self.entries@[offset as int]@);
        let selected = paths::join_relative(&self.current, &self.entries[offset].name);
        match self.entries[offset].kind {
            EntryKind::Directory => {
                self.current = selected.clone();
                Answer::Show(selected)
            },
            EntryKind::File => Answer::Chosen(SyncScope::Path(selected)),
        }
    }
}

/// Only what the menu shows can be chosen: the directory it is the menu of, or one
/// of its entries.
pub proof fn only_what_is_shown_is_chosen(
    current: Seq<char>,
    picks: Seq<PickView>,
    answer: Seq<char>,
)
    ensures
        answer_of(current, picks, answer) matches AnswerView::Chosen(ScopeView::Path(path)) ==> path
            == current || exists|i: int|
            0 <= i < picks.len() && path == paths::joined(current, (#[trigger] picks[i]).name)
                && picks[i].kind == EntryKind::File,
        answer_of(current, picks, answer) matches AnswerView::Show(path) ==> path == parent_of(
            current,
        ) || exists|i: int|
            0 <= i < picks.len() && path == paths::joined(current, (#[trigger] picks[i]).name)
                && picks[i].kind == EntryKind::Directory,
        answer_of(current, picks, answer) matches AnswerView::Chosen(scope) ==> scope
            != ScopeView::LegacyProject,
{
    if let Some(choice) = text::number_of(text::trim_space(answer)) {
        let first = first_entry(current);
        if first <= choice < first + picks.len() {
            assert(picks[choice - first] == picks[choice - first]);
        }
    }
}

proof fn pick_line_is_plain(number: nat, pick: PickView)
    ensures
        !text::has_control(pick_line(number, pick)),
{
    reveal_strlit(". [");
    reveal_strlit("file");
    reveal_strlit("dir");
    reveal_strlit("] ");
    reveal_strlit(" (");
    reveal_strlit("local");
    reveal_strlit("remote");
    reveal_strlit("both");
    reveal_strlit(")");
    let kind = match pick.kind {
        EntryKind::File => "file"@,
        EntryKind::Directory => "dir"@,
    };
    let a = text::decimal(number);
    let b = a + ". ["@;
    let c = b + kind;
    let d = c + "] "@;
    let e = d + text::displayed(pick.name);
    let f = e + " ("@;
    let g = f + pick.presence.name();
    text::numeral_is_printable(number, 10);
    text::displayed_has_no_control(pick.name);
    text::control_in_either(a, ". ["@);
    text::control_in_either(b, kind);
    text::control_in_either(c, "] "@);
    text::control_in_either(d, text::displayed(pick.name));
    text::control_in_either(e, " ("@);
    text::control_in_either(f, pick.presence.name());
    text::control_in_either(g, ")"@);
}

/// No line of the menu holds a control character, whatever the entries are called.
pub proof fn menu_is_plain(current: Seq<char>, picks: Seq<PickView>)
    ensures
        forall|i: int|
            0 <= i < menu_of(current, picks).len() ==> !text::has_control(
                #[trigger] menu_of(current, picks)[i],
            ),
{
    reveal_strlit("Current path: ");
    reveal_strlit("/");
    reveal_strlit("0. Sync this folder");
    reveal_strlit("1. Parent");
    reveal_strlit(". Cancel");
    let menu = menu_of(current, picks);
    let first = first_entry(current);
    let lines = pick_lines(first, picks);
    let top: int = if current.len() == 0 {
        2
    } else {
        3
    };
    text::displayed_has_no_control(current);
    text::control_in_either("/"@, text::displayed(current));
    text::control_in_either("Current path: "@, shown(current));
    text::numeral_is_printable(first + picks.len(), 10);
    text::control_in_either(text::decimal(first + picks.len()), ". Cancel"@);
    assert forall|i: int| 0 <= i < menu.len() implies !text::has_control(#[trigger] menu[i]) by {
        if top <= i < top + lines.len() {
            assert(menu[i] == lines[i - top]);
            pick_line_is_plain(first + (i - top) as nat, picks[i - top]);
        }
    }
}

proof fn numbers_cancel_nothing(n: nat)
    ensures
        !cancels(text::decimal(n)),
{
    let s = text::decimal(n);
    text::decimal_reads_back(n);
    reveal_strlit("cancel");
    reveal_strlit("q");
    assert(text::is_digit(s[0]));
    if text::same_but_case(s, "cancel"@) {
        assert(text::alike(s[0], "cancel"@[0]));
    }
    if text::same_but_case(s, "q"@) {
        assert(text::alike(s[0], "q"@[0]));
    }
}

/// Every line of a menu behind the first starts with its number, counted from zero,
/// and that number, with whatever space around it, stands for what the line shows: the
/// directory of the menu itself, the one above it unless the menu is that of the root,
/// each entry in turn, by its own name, and at the end no choice at all.
pub proof fn a_number_means_its_line(
    current: Seq<char>,
    picks: Seq<PickView>,
    row: int,
    answer: Seq<char>,
)
    requires
        1 <= row < menu_of(current, picks).len(),
        text::trim_space(answer) == text::decimal((row - 1) as nat),
    ensures
        ({
            let menu = menu_of(current, picks);
            let number = text::decimal((row - 1) as nat);
            let given = answer_of(current, picks, answer);
            let i = row + 1 + picks.len() - menu.len();
            &&& menu.len() == picks.len() + 3 + if current.len() == 0 {
                0int
            } else {
                1int
            }
            &&& (number + ". "@).is_prefix_of(menu[row])
            &&& row == 1 ==> {
                &&& menu[row] == "0. Sync this folder"@
                &&& given == AnswerView::Chosen(
                    if current.len() == 0 {
                        ScopeView::RootDirectory
                    } else {
                        ScopeView::Path(current)
                    },
                )
            }
            &&& row > 1 && i < 0 ==> {
                &&& menu[row] == "1. Parent"@
                &&& given == AnswerView::Show(parent_of(current))
            }
            &&& row > 1 && 0 <= i < picks.len() ==> {
                &&& menu[row] == number + ". ["@ + (if picks[i].kind == EntryKind::File {
                    "file"@
                } else {
                    "dir"@
                }) + "] "@ + text::displayed(picks[i].name) + " ("@ + picks[i].presence.name()
                    + ")"@
                &&& given == if picks[i].kind == EntryKind::File {
                    AnswerView::Chosen(ScopeView::Path(paths::joined(current, picks[i].name)))
                } else {
                    AnswerView::Show(paths::joined(current, picks[i].name))
                }
            }
            &&& i == picks.len() ==> {
                &&& menu[row] == number + ". Cancel"@
                &&& given is Cancelled
            }
        }),
{
    let menu = menu_of(current, picks);
    let n = (row - 1) as nat;
    let number = text::decimal(n);
    let i = row + 1 + picks.len() - menu.len();
    text::decimal_reads_back(n);
    numbers_cancel_nothing(n);
    reveal_strlit(". ");
    reveal_strlit(". [");
    reveal_strlit(". Cancel");
    reveal_strlit("0. Sync this folder");
    reveal_strlit("1. Parent");
    let lines = pick_lines(first_entry(current), picks);
    if row == 1 {
        assert(number =~= seq!['0']);
        assert(number + ". "@ =~= menu[row].subrange(0, 3));
    } else if i < 0 {
        assert(number =~= seq!['1']);
        assert(number + ". "@ =~= menu[row].subrange(0, 3));
    } else if i < picks.len() {
        assert(menu[row] == lines[i]);
        assert(menu[row] == pick_line(n, picks[i]));
        assert(number + ". "@ =~= menu[row].subrange(0, number.len() as int + 2));
    } else {
        assert(number + ". "@ =~= menu[row].subrange(0, number.len() as int + 2));
    }
}

/// A number that no line of the menu has, and anything that is neither a number nor a
/// word for cancelling, means nothing.
pub proof fn nothing_else_is_an_answer(
    current: Seq<char>,
    picks: Seq<PickView>,
    answer: Seq<char>,
)
    ensures
        ({
            let said = text::trim_space(answer);
            let given = answer_of(current, picks, answer);
            &&& cancels(said) ==> given is Cancelled
            &&& !cancels(said) && text::number_of(said) is None ==> given is Again
            &&& !cancels(said) && text::number_of(said) is Some && text::number_of(said)->Some_0
                + 1 >= menu_of(current, picks).len() ==> given is Again
        }),
{
}

/// The directory above another one is the one that it lies in: what joins it with a
/// name leads back.
pub proof fn parent_undoes_a_step(directory: Seq<char>, name: Seq<char>)
    requires
        name.len() > 0,
        !name.contains('/'),
    ensures
        parent_of(paths::joined(directory, name)) == directory,
{
    let path = paths::joined(directory, name);
    text::last_slash_bounds(path);
    if directory.len() == 0 {
        if text::last_slash(path) is Some {
            let at = text::last_slash(path)->Some_0;
            assert(name.contains(name[at]));
        }
    } else {
        let edge = directory.len() as int;
        assert(path =~= directory + paths::slash() + name);
        assert(path[edge] == '/');
        assert(path.contains(path[edge]));
        let at = text::last_slash(path)->Some_0;
        if at < edge {
            let tail = path.skip(at + 1);
            assert(tail[edge - at - 1] == '/');
            assert(tail.contains(tail[edge - at - 1]));
        }
        if at > edge {
            assert(path[at] == name[at - edge - 1]);
            assert(name.contains(name[at - edge - 1]));
        }
        assert(path.take(edge) =~= directory);
    }
}

/// A local child is offered exactly where its name is safe, it does not belong to
/// Ferry by its name or by where it really lies, it lies in the root, is a file or
/// a directory and is not ignored; it is offered as what it is. An unsafe name is
/// always refused.
pub proof fn local_child_is_offered_as_what_it_is(
    roots: RootsView,
    directory: Seq<char>,
    name: String,
    facts: NodeFacts,
)
    ensures
        ({
            let pick = local_pick(roots, directory, PickerRead::Child(name, facts));
            let own = inventory::is_own(paths::joined(directory, name@));
            let inside = facts.canonical is Ok && paths::under_remote_root(
                roots.canonical_root,
                facts.canonical->Ok_0@,
            );
            let hidden = inside && paths::under_remote_root(
                roots.state_root,
                facts.canonical->Ok_0@,
            );
            let told = facts.kind is Ok && facts.kind->Ok_0 is Some;
            &&& pick is Ok && pick->Ok_0 is Some <==> safe_child(name@) && !own && inside && !hidden
                && told && !facts.ignored
            &&& pick is Ok && pick->Ok_0 is Some ==> pick->Ok_0->Some_0 == (NamedView {
                name: name@,
                kind: facts.kind->Ok_0->Some_0,
            })
            &&& pick is Err <==> !safe_child(name@) || (!own && (!inside || (!hidden && !told)))
        }),
{
}

/// Every local child that is offered is in the listing, and one that is refused
/// refuses the listing.
pub proof fn every_local_child_is_listed(
    roots: RootsView,
    directory: Seq<char>,
    reads: Seq<PickerRead>,
)
    ensures
        local_picks(roots, directory, reads) is Ok <==> forall|i: int|
            0 <= i < reads.len() ==> local_pick(roots, directory, #[trigger] reads[i]) is Ok,
        local_picks(roots, directory, reads) matches Ok(found) ==> forall|child: NamedView|
            #![trigger found.contains(child)]
            found.contains(child) <==> exists|i: int|
                0 <= i < reads.len() && local_pick(roots, directory, #[trigger] reads[i]) == Ok::<
                    Option<NamedView>,
                    error::ErrorView,
                >(Some(child)),
    decreases reads.len(),
{
    if reads.len() > 0 {
        let before = reads.drop_last();
        every_local_child_is_listed(roots, directory, before);
        let last = reads.len() - 1;
        assert(reads.last() == reads[last]);
        if local_picks(roots, directory, before) is Err {
            let i = choose|i: int|
                0 <= i < before.len() && !(local_pick(roots, directory, #[trigger] before[i])
                    is Ok);
            assert(before[i] == reads[i]);
            assert(!(local_pick(roots, directory, reads[i]) is Ok));
        } else if local_picks(roots, directory, reads) is Err {
            assert(!(local_pick(roots, directory, reads[last]) is Ok));
        } else {
            let found = local_picks(roots, directory, reads)->Ok_0;
            let fewer = local_picks(roots, directory, before)->Ok_0;
            assert forall|i: int| 0 <= i < reads.len() implies local_pick(
                roots,
                directory,
                #[trigger] reads[i],
            ) is Ok by {
                if i < before.len() {
                    assert(before[i] == reads[i]);
                }
            }
            assert forall|child: NamedView|
                #![trigger found.contains(child)]
                found.contains(child) <==> exists|i: int|
                    0 <= i < reads.len() && local_pick(roots, directory, #[trigger] reads[i])
                        == Ok::<Option<NamedView>, error::ErrorView>(Some(child)) by {
                if found.contains(child) {
                    let k = choose|k: int| 0 <= k < found.len() && found[k] == child;
                    if k < fewer.len() {
                        assert(fewer[k] == child);
                        assert(fewer.contains(child));
                        let i = choose|i: int|
                            0 <= i < before.len() && local_pick(
                                roots,
                                directory,
                                #[trigger] before[i],
                            ) == Ok::<Option<NamedView>, error::ErrorView>(Some(child));
                        assert(reads[i] == before[i]);
                    } else {
                        assert(local_pick(roots, directory, reads[last]) == Ok::<
                            Option<NamedView>,
                            error::ErrorView,
                        >(Some(child)));
                    }
                }
                if exists|i: int|
                    0 <= i < reads.len() && local_pick(roots, directory, #[trigger] reads[i])
                        == Ok::<Option<NamedView>, error::ErrorView>(Some(child)) {
                    let i = choose|i: int|
                        0 <= i < reads.len() && local_pick(roots, directory, #[trigger] reads[i])
                            == Ok::<Option<NamedView>, error::ErrorView>(Some(child));
                    if i < before.len() {
                        assert(before[i] == reads[i]);
                        assert(fewer.contains(child));
                        let k = choose|k: int| 0 <= k < fewer.len() && fewer[k] == child;
                        assert(found[k] == child);
                    } else {
                        assert(found[fewer.len() as int] == child);
                    }
                }
            }
        }
    }
}

/// Whether no two of some children have one name.
pub open spec fn distinct(found: Seq<NamedView>) -> bool {
    forall|i: int, j: int|
        0 <= i < j < found.len() ==> (#[trigger] found[i]).name != (#[trigger] found[j]).name
}

/// Whether one of some children has a name.
pub open spec fn has_name(found: Seq<NamedView>, name: Seq<char>) -> bool {
    exists|i: int| 0 <= i < found.len() && (#[trigger] found[i]).name == name
}

/// The kind of the child that has a name.
pub open spec fn kind_named(found: Seq<NamedView>, name: Seq<char>) -> EntryKind {
    found[choose|i: int| 0 <= i < found.len() && (#[trigger] found[i]).name == name].kind
}

proof fn merging_a_side(
    names: Map<Seq<char>, Shown>,
    found: Seq<NamedView>,
    presence: Presence,
    name: Seq<char>,
)
    requires
        distinct(found),
    ensures
        ({
            let all = merged_all(names, found, presence);
            &&& all.contains_key(name) <==> names.contains_key(name) || has_name(found, name)
            &&& names.contains_key(name) && !has_name(found, name) ==> all[name] == names[name]
            &&& !names.contains_key(name) && has_name(found, name) ==> all[name] == (Shown {
                kind: kind_named(found, name),
                presence,
            })
            &&& names.contains_key(name) && has_name(found, name) ==> all[name] == (Shown {
                kind: if names[name].kind == kind_named(found, name) {
                    names[name].kind
                } else {
                    EntryKind::File
                },
                presence: Presence::Both,
            })
        }),
    decreases found.len(),
{
    if found.len() > 0 {
        let before = found.drop_last();
        let last = found.len() - 1;
        assert(found[last] == found.last());
        assert forall|i: int, j: int| 0 <= i < j < before.len() implies (#[trigger] before[i]).name
            != (#[trigger] before[j]).name by {
            assert(before[i] == found[i] && before[j] == found[j]);
        }
        merging_a_side(names, before, presence, name);
        if has_name(before, name) {
            let i = choose|i: int| 0 <= i < before.len() && (#[trigger] before[i]).name == name;
            assert(found[i].name == name);
            assert(found[i].name != found[last].name);
            let j = choose|j: int| 0 <= j < found.len() && (#[trigger] found[j]).name == name;
            if i != j {
                if i < j {
                    assert(found[i].name != found[j].name);
                } else {
                    assert(found[j].name != found[i].name);
                }
            }
        } else if found[last].name == name {
            let j = choose|j: int| 0 <= j < found.len() && (#[trigger] found[j]).name == name;
            if j < before.len() {
                assert(before[j].name == name);
            }
        } else {
            if has_name(found, name) {
                let j = choose|j: int| 0 <= j < found.len() && (#[trigger] found[j]).name == name;
                assert(before[j].name == name);
            }
        }
    }
}

/// What both sides of a directory hold is shown once for each name: with the side
/// or the sides that hold it, and as a directory exactly where every side that
/// holds it holds one. Nothing is left out and nothing else is shown.
pub proof fn both_sides_are_shown_by_name(
    local: Seq<NamedView>,
    remote: Seq<NamedView>,
    name: Seq<char>,
)
    requires
        distinct(local),
        distinct(remote),
    ensures
        ({
            let here = merged_all(Map::empty(), local, Presence::Local);
            let all = merged_all(here, remote, Presence::Remote);
            &&& all.contains_key(name) <==> has_name(local, name) || has_name(remote, name)
            &&& all.contains_key(name) ==> {
                &&& all[name].presence == Presence::Both <==> has_name(local, name) && has_name(
                    remote,
                    name,
                )
                &&& all[name].presence == Presence::Local <==> !has_name(remote, name)
                &&& all[name].presence == Presence::Remote <==> !has_name(local, name)
                &&& all[name].kind == EntryKind::Directory <==> (has_name(local, name)
                    ==> kind_named(local, name) == EntryKind::Directory) && (has_name(remote, name)
                    ==> kind_named(remote, name) == EntryKind::Directory)
            }
        }),
{
    let here = merged_all(Map::empty(), local, Presence::Local);
    merging_a_side(Map::empty(), local, Presence::Local, name);
    merging_a_side(here, remote, Presence::Remote, name);
}

/// A directory is listed on the sides that hold it: on the local side first where
/// both do, and on the other alone where one does.
pub proof fn directory_is_listed_where_it_is(
    directory: Seq<char>,
    presence: Presence,
    source: SourceView,
    listing: LocalListing,
)
    ensures
        ({
            let start = listing_start(directory, presence);
            let next = picker_step(start, source, PickerReply::Local(listing));
            let found = local_listing(source.roots, directory, listing);
            &&& start.phase == PickerPhase::Remote <==> presence == Presence::Remote
            &&& start.phase == PickerPhase::Local <==> presence != Presence::Remote
            &&& presence != Presence::Remote ==> {
                &&& next.failure is Some <==> found is Err
                &&& next.phase == PickerPhase::Remote <==> found is Ok && presence
                    == Presence::Both
                &&& found is Ok && presence == Presence::Local ==> next.phase == PickerPhase::Done
                &&& found is Ok ==> next.names == merged_all(
                    Map::empty(),
                    found->Ok_0,
                    Presence::Local,
                )
            }
            &&& next.directory == directory
        }),
{
}

/// A local directory is listed exactly where it really lies in the root and not in
/// the state, is a directory, and all of its children can be told.
pub proof fn local_directory_is_listed_where_it_is_safe(
    roots: RootsView,
    directory: Seq<char>,
    listing: LocalListing,
)
    ensures
        local_listing(roots, directory, listing) is Ok <==> {
            &&& listing.canonical is Some
            &&& paths::under_remote_root(roots.canonical_root, listing.canonical->Some_0@)
            &&& !paths::under_remote_root(roots.state_root, listing.canonical->Some_0@)
            &&& listing.is_dir == Some(true)
            &&& listing.children is Some
            &&& local_picks(roots, directory, listing.children->Some_0@) is Ok
        },
        local_listing(roots, directory, listing) is Ok ==> local_listing(roots, directory, listing)
            == local_picks(roots, directory, listing.children->Some_0@),
{
}

/// Only a directory that was discovered can be opened, on the sides it was found
/// on.
pub proof fn only_discovered_directories_are_opened(source: SourceView, directory: Seq<char>)
    ensures
        presence_of(source, directory) is Ok <==> (directory.len() == 0 || paths::scoped(
            directory,
        )) && source.directories.contains_key(directory),
        presence_of(source, directory) matches Ok(presence) ==> presence
            == source.directories[directory],
{
}

/// Every directory that is shown is discovered, and nothing else is: what was
/// discovered before stays.
pub proof fn shown_directories_are_discovered(
    directories: Map<Seq<char>, Presence>,
    directory: Seq<char>,
    picks: Seq<PickView>,
)
    ensures
        forall|path: Seq<char>| #[trigger]
            discovered(directories, directory, picks).contains_key(path)
                <==> directories.contains_key(path) || exists|i: int|
                0 <= i < picks.len() && (#[trigger] picks[i]).kind == EntryKind::Directory && path
                    == paths::joined(directory, picks[i].name),
        forall|path: Seq<char>|
            directories.contains_key(path) && (forall|i: int|
                0 <= i < picks.len() ==> path != paths::joined(
                    directory,
                    (#[trigger] picks[i]).name,
                )) ==> #[trigger] discovered(directories, directory, picks)[path]
                == directories[path],
        picks.len() > 0 && picks.last().kind == EntryKind::Directory ==> discovered(
            directories,
            directory,
            picks,
        )[paths::joined(directory, picks.last().name)] == picks.last().presence,
    decreases picks.len(),
{
    if picks.len() > 0 {
        let before = picks.drop_last();
        let last = picks.len() - 1;
        assert(picks[last] == picks.last());
        shown_directories_are_discovered(directories, directory, before);
        let all = discovered(directories, directory, picks);
        let fewer = discovered(directories, directory, before);
        assert forall|path: Seq<char>| #[trigger] all.contains_key(path)
            <==> directories.contains_key(path) || exists|i: int|
            0 <= i < picks.len() && (#[trigger] picks[i]).kind == EntryKind::Directory && path
                == paths::joined(directory, picks[i].name) by {
            if fewer.contains_key(path) && !directories.contains_key(path) {
                let i = choose|i: int|
                    0 <= i < before.len() && (#[trigger] before[i]).kind == EntryKind::Directory
                        && path == paths::joined(directory, before[i].name);
                assert(picks[i] == before[i]);
            }
            if exists|i: int|
                0 <= i < picks.len() && (#[trigger] picks[i]).kind == EntryKind::Directory && path
                    == paths::joined(directory, picks[i].name) {
                let i = choose|i: int|
                    0 <= i < picks.len() && (#[trigger] picks[i]).kind == EntryKind::Directory
                        && path == paths::joined(directory, picks[i].name);
                if i < before.len() {
                    assert(before[i] == picks[i]);
                    assert(fewer.contains_key(path));
                }
            }
        }
        assert forall|path: Seq<char>|
            directories.contains_key(path) && (forall|i: int|
                0 <= i < picks.len() ==> path != paths::joined(
                    directory,
                    (#[trigger] picks[i]).name,
                )) implies #[trigger] all[path] == directories[path] by {
            assert forall|i: int| 0 <= i < before.len() implies path != paths::joined(
                directory,
                (#[trigger] before[i]).name,
            ) by {
                assert(picks[i] == before[i]);
            }
            assert(fewer[path] == directories[path]);
            assert(path != paths::joined(directory, picks[last].name));
        }
    }
}

/// The line of an entry holds its number, its kind, its name as it is displayed and
/// the sides that hold it, in this order.
pub proof fn line_of_an_entry_tells_it(number: nat, pick: PickView)
    ensures
        pick.kind == EntryKind::Directory ==> pick_line(number, pick) == text::decimal(number)
            + ". [dir] "@ + text::displayed(pick.name) + " ("@ + pick.presence.name() + ")"@,
        pick.kind == EntryKind::File ==> pick_line(number, pick) == text::decimal(number)
            + ". [file] "@ + text::displayed(pick.name) + " ("@ + pick.presence.name() + ")"@,
        Presence::Local.name() == "local"@,
        Presence::Remote.name() == "remote"@,
        Presence::Both.name() == "both"@,
{
    reveal_strlit(". [");
    reveal_strlit("] ");
    reveal_strlit("dir");
    reveal_strlit("file");
    reveal_strlit(". [dir] ");
    reveal_strlit(". [file] ");
    assert(". ["@ + "dir"@ + "] "@ =~= ". [dir] "@);
    assert(". ["@ + "file"@ + "] "@ =~= ". [file] "@);
    if pick.kind == EntryKind::Directory {
        assert(pick_line(number, pick) =~= text::decimal(number) + ". [dir] "@ + text::displayed(
            pick.name,
        ) + " ("@ + pick.presence.name() + ")"@);
    } else {
        assert(pick_line(number, pick) =~= text::decimal(number) + ". [file] "@ + text::displayed(
            pick.name,
        ) + " ("@ + pick.presence.name() + ")"@);
    }
}

/// Every name that was found is offered once, in order, as what it was found as,
/// and nothing else is.
pub proof fn every_name_is_offered_once(names: Map<Seq<char>, Shown>)
    requires
        names.dom().finite(),
    ensures
        forall|name: Seq<char>| #[trigger]
            names.contains_key(name) ==> picks_of(names).contains(
                PickView { name, kind: names[name].kind, presence: names[name].presence },
            ),
        forall|i: int|
            0 <= i < picks_of(names).len() ==> names.contains_key(
                (#[trigger] picks_of(names)[i]).name,
            ) && picks_of(names)[i].kind == names[picks_of(names)[i].name].kind
                && picks_of(names)[i].presence == names[picks_of(names)[i].name].presence,
        forall|i: int, j: int|
            0 <= i < j < picks_of(names).len() ==> order::before(
                (#[trigger] picks_of(names)[i]).name,
                (#[trigger] picks_of(names)[j]).name,
            ),
{
    order::keys_of_is_sound(names);
    let keys = order::keys_of(names);
    let picks = picks_of(names);
    assert forall|name: Seq<char>| #[trigger] names.contains_key(name) implies picks.contains(
        PickView { name, kind: names[name].kind, presence: names[name].presence },
    ) by {
        assert(keys.contains(name));
        let k = choose|k: int| 0 <= k < keys.len() && keys[k] == name;
        assert(picks[k] == (PickView {
            name,
            kind: names[name].kind,
            presence: names[name].presence,
        }));
    }
    assert forall|i: int| 0 <= i < picks.len() implies names.contains_key(
        (#[trigger] picks[i]).name,
    ) && picks[i].kind == names[picks[i].name].kind && picks[i].presence
        == names[picks[i].name].presence by {
        assert(keys.contains(keys[i]));
    }
    assert forall|i: int, j: int| 0 <= i < j < picks.len() implies order::before(
        (#[trigger] picks[i]).name,
        (#[trigger] picks[j]).name,
    ) by {
        assert(order::before(keys[i], keys[j]));
    }
}

/// An answer cancels exactly where it is empty, a lone escape, or says so in a word
/// or a letter, whatever the case.
pub proof fn answer_cancels_where_it_says_so(answer: Seq<char>)
    ensures
        cancels(answer) <==> {
            ||| answer.len() == 0
            ||| answer == seq!['\u{1b}']
            ||| answer.map_values(|c: char| text::lowered(c)) == "cancel"@
            ||| answer.map_values(|c: char| text::lowered(c)) == "q"@
        },
{
    reveal_strlit("cancel");
    reveal_strlit("q");
    text::same_but_case_is_same_in_lower_case(answer, "cancel"@);
    text::same_but_case_is_same_in_lower_case(answer, "q"@);
    assert("cancel"@.map_values(|c: char| text::lowered(c)) =~= "cancel"@);
    assert("q"@.map_values(|c: char| text::lowered(c)) =~= "q"@);
}

/// The picker starts at a root that both sides hold, and only where both roots can
/// be told; a state directory that is not there lies where it would be made.
pub proof fn picker_starts_at_the_root(
    local_root: Seq<char>,
    canonical_root: Result<String, Error>,
    state_root: Result<Option<String>, Error>,
    remote_root: Seq<char>,
)
    ensures
        ({
            let source = source_of(local_root, canonical_root, state_root, remote_root);
            &&& source is Ok <==> canonical_root is Ok && state_root is Ok && remote_root.len() > 0
            &&& source is Ok ==> {
                let start = source->Ok_0;
                &&& start.directories.contains_key(Seq::empty())
                &&& start.directories[Seq::empty()] == Presence::Both
                &&& forall|path: Seq<char>| #[trigger]
                    start.directories.contains_key(path) ==> path.len() == 0
                &&& start.remote_root == paths::normal_root(remote_root)
                &&& start.roots.local_root == local_root
                &&& start.roots.canonical_root == canonical_root->Ok_0@
                &&& state_root->Ok_0 is Some ==> start.roots.state_root
                    == state_root->Ok_0->Some_0@
                &&& state_root->Ok_0 is None ==> start.roots.state_root == local_paths::joined(
                    canonical_root->Ok_0@,
                    ".ferry"@,
                )
            }
        }),
{
}

/// The remote side of a directory is listed below the remote root.
pub proof fn remote_side_lies_below_the_root(remote_root: Seq<char>, directory: Seq<char>)
    ensures
        directory.len() == 0 ==> remote_directory(remote_root, directory) == remote_root,
        directory.len() > 0 ==> remote_directory(remote_root, directory) == text::trim_end(
            remote_root,
        ) + seq!['/'] + directory,
{
}

} // verus!
