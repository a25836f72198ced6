//! Walks over the two trees, which gather the paths of their files.

use crate::error::Error;
use crate::error;
use crate::file_transfer;
use crate::ftp::{Entry, EntryView};
use crate::ftp;
use crate::listing;
use crate::order::PathSet;
use crate::paths;
use crate::platform::Platform;
use crate::platform;
use crate::sync::directories;
use crate::text;
use vstd::prelude::*;

verus! {

broadcast use vstd::seq::group_seq_axioms;

/// The remote path of a relative one. The slashes at the end of the root are
/// trimmed, so that two never come together.
pub fn remote_join(root: &str, rel: &str) -> (out: String)
    ensures
        out@ == paths::remote_joined(root@, rel@),
{
    paths::remote_path_join(root, rel)
}

/// Whether a path goes up somewhere.
pub open spec fn goes_up(path: Seq<char>) -> bool {
    exists|i: int| 0 <= i < text::segments(path).len() && #[trigger] text::segments(path)[i] == ".."@
}

/// Whether a path goes up somewhere.
fn does_go_up(path: &str) -> (out: bool)
    ensures
        out == goes_up(path@),
{
    let parts = text::split_slashes(path);
    let mut i: usize = 0;
    while i < parts.len()
        invariant
            i <= parts@.len(),
            text::views(parts@) == text::segments(path@),
            forall|k: int| 0 <= k < i ==> #[trigger] text::segments(path@)[k] != ".."@,
        decreases parts.len() - i,
    {
        assert(text::segments(path@)[i as int] == parts@[i as int]@);
        if text::same(&parts[i], "..") {
            return true;
        }
        i += 1;
    }
    false
}

/// The relative path that an argument names on a machine, with slashes, without `./`
/// in front and without slashes at the end, or why it is refused.
pub open spec fn relative_on(platform: Platform, p: Seq<char>) -> Result<
    Seq<char>,
    error::ErrorView,
> {
    let rel = text::trim_dot_slash(platform::slashed(platform, p));
    if rel.len() == 0 || platform::absolute(platform, rel) || goes_up(rel) {
        Err(
            error::failure(
                "refusing path "@ + text::debug_text(p)
                    + ": must be a relative path under local_root with no '..' segments"@,
            ),
        )
    } else {
        Ok(text::trim_end(rel))
    }
}

/// The relative path that an argument names where slashes separate names.
pub open spec fn relative_of(p: Seq<char>) -> Result<Seq<char>, error::ErrorView> {
    relative_on(Platform::Slashes, p)
}

/// The relative path that an argument names on a machine. One that is empty or
/// absolute or goes up somewhere is refused.
pub fn safe_rel_on(platform: Platform, p: &str) -> (out: Result<String, Error>)
    ensures
        error::agrees(out, relative_on(platform, p@)),
{
    let rel = text::trim_dot_slashes(&platform::with_slashes(platform, p));
    if rel.as_str().unicode_len() == 0 || platform::is_absolute(platform, &rel) || does_go_up(
        &rel,
    ) {
        return Err(
            Error::failure(
                text::cat3(
                    "refusing path ",
                    &text::debug_of(p),
                    ": must be a relative path under local_root with no '..' segments",
                ),
            ),
        );
    }
    Ok(text::trim_end_slashes(&rel))
}

/// The relative path that an argument names where slashes separate names.
pub fn safe_rel(p: &str) -> (out: Result<String, Error>)
    ensures
        error::agrees(out, relative_of(p@)),
{
    safe_rel_on(Platform::Slashes, p)
}

/// Where the local root and a path lie once every symlink is followed.
#[derive(Debug)]
pub struct CanonicalPaths {
    pub root: String,
    pub path: String,
}

/// The path of a located file below the located local root, or why it is refused.
pub open spec fn below_local_root(
    local_root: Seq<char>,
    path: Seq<char>,
    canonical_root: Seq<char>,
    canonical_path: Seq<char>,
) -> Result<Seq<char>, error::ErrorView> {
    match text::stripped(canonical_path, paths::remote_joined(canonical_root, Seq::empty())) {
        Some(rel) => if rel.len() > 0 {
            Ok(rel)
        } else {
            Err(
                error::failure(
                    "path "@ + path + " is not below local_root "@ + local_root,
                ),
            )
        },
        None => Err(error::failure("path "@ + path + " is not below local_root "@ + local_root)),
    }
}

/// The path of a file relative to the local root, both located. A file that lies
/// elsewhere is refused.
pub fn relative_to_local_root(local_root: &str, path: &str, located: &CanonicalPaths) -> (out:
    Result<String, Error>)
    ensures
        error::agrees(
            out,
            below_local_root(local_root@, path@, located.root@, located.path@),
        ),
{
    let none = String::new();
    assert(none@ =~= Seq::<char>::empty());
    let prefix = paths::remote_path_join(&located.root, &none);
    match text::strip_prefix(&located.path, &prefix) {
        Some(rel) => if rel.as_str().unicode_len() > 0 {
            Ok(rel)
        } else {
            Err(
                Error::failure(
                    text::cat4("path ", path, " is not below local_root ", local_root),
                ),
            )
        },
        None => Err(
            Error::failure(text::cat4("path ", path, " is not below local_root ", local_root)),
        ),
    }
}

/// Where a path was located, its failure taken by its view.
pub open spec fn located_at(located: Result<CanonicalPaths, Error>) -> Result<
    (Seq<char>, Seq<char>),
    error::ErrorView,
> {
    match located {
        Ok(found) => Ok((found.root@, found.path@)),
        Err(e) => Err(e@),
    }
}

/// The relative path that an argument names on a machine, an absolute one being taken
/// by where the machine located it.
pub open spec fn argument_on(
    platform: Platform,
    local_root: Seq<char>,
    input: Seq<char>,
    located: Result<(Seq<char>, Seq<char>), error::ErrorView>,
) -> Result<Seq<char>, error::ErrorView> {
    if platform::absolute(platform, input) {
        match located {
            Ok((root, path)) => below_local_root(
                local_root,
                input,
                platform::given(platform, root),
                platform::given(platform, path),
            ),
            Err(e) => Err(e),
        }
    } else {
        relative_on(platform, input)
    }
}

/// The relative path that an argument names where slashes separate names.
pub open spec fn argument_of(
    local_root: Seq<char>,
    input: Seq<char>,
    located: Result<(Seq<char>, Seq<char>), error::ErrorView>,
) -> Result<Seq<char>, error::ErrorView> {
    argument_on(Platform::Slashes, local_root, input, located)
}

/// The relative path that an argument names on a machine. An absolute one is accepted
/// only if it is located below the local root; `located` is read for nothing else.
pub fn safe_arg_on(
    platform: Platform,
    local_root: &str,
    input: &str,
    located: Result<CanonicalPaths, Error>,
) -> (out: Result<String, Error>)
    ensures
        error::agrees(out, argument_on(platform, local_root@, input@, located_at(located))),
{
    if platform::is_absolute(platform, input) {
        match located {
            Ok(found) => {
                let plain = CanonicalPaths {
                    root: platform::from_machine(platform, &found.root),
                    path: platform::from_machine(platform, &found.path),
                };
                relative_to_local_root(local_root, input, &plain)
            },
            Err(e) => Err(e),
        }
    } else {
        safe_rel_on(platform, input)
    }
}

/// The relative path that an argument names where slashes separate names.
pub fn safe_arg(local_root: &str, input: &str, located: Result<CanonicalPaths, Error>) -> (out:
    Result<String, Error>)
    ensures
        error::agrees(out, argument_of(local_root@, input@, located_at(located))),
{
    safe_arg_on(Platform::Slashes, local_root, input, located)
}

/// Whether a remote path is the root or lies below it. The root `/` contains
/// everything.
pub open spec fn under(root: Seq<char>, path: Seq<char>) -> bool {
    text::trim_end(root).len() == 0 || paths::at_or_below(path, text::trim_end(root))
}

/// Whether a remote path is the root or lies below it.
pub fn is_under(root: &str, path: &str) -> (out: bool)
    ensures
        out == under(root@, path@),
{
    let root = text::trim_end_slashes(root);
    root.as_str().unicode_len() == 0 || paths::is_at_or_below(path, &root)
}

/// The direct child of `dir` that a listed name stands for, if it can be trusted.
/// A bare name is one, and so is an absolute path that is the directory and one
/// more segment below the root.
pub open spec fn child_of(root: Seq<char>, dir: Seq<char>, name: Seq<char>) -> Option<Seq<char>> {
    let rest = if paths::slash().is_prefix_of(name) {
        match text::stripped(name, paths::remote_joined(dir, Seq::empty())) {
            Some(rest) => rest,
            None => Seq::empty(),
        }
    } else {
        name
    };
    if !paths::names_entry(name) {
        None
    } else if !name.contains('/') {
        Some(name)
    } else if !paths::names_entry(rest) || rest.contains('/') || !under(
        root,
        paths::remote_joined(dir, rest),
    ) {
        None
    } else {
        Some(rest)
    }
}

/// The direct child of `dir` that a listed name stands for, if it can be trusted.
pub fn child_name(root: &str, dir: &str, name: &str) -> (out: Option<String>)
    ensures
        match (out, child_of(root@, dir@, name@)) {
            (Some(found), Some(want)) => found@ == want,
            (None, None) => true,
            _ => false,
        },
{
    if !paths::is_entry_name(name) {
        return None;
    }
    if !text::contains_char(name, '/') {
        return Some(name.to_owned());
    }
    proof {
        reveal_strlit("/");
        assert("/"@ =~= paths::slash());
    }
    let rest = if text::starts_with(name, "/") {
        let none = String::new();
        assert(none@ =~= Seq::<char>::empty());
        let prefix = paths::remote_path_join(dir, &none);
        match text::strip_prefix(name, &prefix) {
            Some(rest) => rest,
            None => none,
        }
    } else {
        name.to_owned()
    };
    if !paths::is_entry_name(&rest) || text::contains_char(&rest, '/') || !is_under(
        root,
        &paths::remote_path_join(dir, &rest),
    ) {
        return None;
    }
    Some(rest)
}

/// What a walk makes of an entry.
#[derive(Debug)]
pub enum Finding {
    Nothing,
    /// A file, by its relative path.
    File(String),
    /// A remote symlink, by its relative path, and what is said of it.
    Link(String, String),
    /// What is said of an entry that is passed over.
    Warning(String),
    /// A directory to be listed, by its relative path and the path to list.
    Descend(String, String),
    /// What ends the walk.
    Failure(Error),
}

/// What a walk makes of an entry.
pub enum FindingView {
    Nothing,
    File(Seq<char>),
    Link(Seq<char>, Seq<char>),
    Warning(Seq<char>),
    Descend(Seq<char>, Seq<char>),
    Failure(error::ErrorView),
}

impl View for Finding {
    type V = FindingView;

    open spec fn view(&self) -> FindingView {
        match self {
            Finding::Nothing => FindingView::Nothing,
            Finding::File(path) => FindingView::File(path@),
            Finding::Link(path, warning) => FindingView::Link(path@, warning@),
            Finding::Warning(warning) => FindingView::Warning(warning@),
            Finding::Descend(sub, dir) => FindingView::Descend(sub@, dir@),
            Finding::Failure(e) => FindingView::Failure(e@),
        }
    }
}

/// What is said of a remote symlink that a walk does not follow.
pub open spec fn link_warning(path: Seq<char>, dir: Seq<char>) -> Seq<char> {
    "warning: skipping remote symlink "@ + text::debug_text(path) + " in "@ + dir
        + ": not following it, the target can resolve outside the remote root"@
}

/// What is said of a remote symlink that a walk does not follow.
fn link_warning_of(path: &str, dir: &str) -> (out: String)
    ensures
        out@ == link_warning(path@, dir@),
{
    text::cat5(
        "warning: skipping remote symlink ",
        &text::debug_of(path),
        " in ",
        dir,
        ": not following it, the target can resolve outside the remote root",
    )
}

/// What a walk makes of a remote entry. At the top of a walk below `sub` an entry
/// that is called like the listed path is that path itself.
pub open spec fn finding_of(
    root: Seq<char>,
    sub: Seq<char>,
    dir: Seq<char>,
    top: bool,
    entry: EntryView,
) -> FindingView {
    if listing::dot(entry.name) {
        FindingView::Nothing
    } else if top && sub.len() > 0 && text::trim_end(entry.name) == text::trim_end(dir) {
        if entry.is_symlink {
            FindingView::Link(sub, link_warning(sub, dir))
        } else {
            FindingView::File(sub)
        }
    } else {
        match child_of(root, dir, entry.name) {
            None => FindingView::Warning(
                "warning: skipping remote entry "@ + text::debug_text(entry.name) + " in "@ + dir
                    + ": not a path under the sync root"@,
            ),
            Some(name) => if entry.is_symlink {
                FindingView::Link(
                    paths::joined(sub, name),
                    link_warning(paths::joined(sub, name), dir),
                )
            } else if entry.is_dir {
                FindingView::Descend(paths::joined(sub, name), paths::remote_joined(dir, name))
            } else {
                FindingView::File(paths::joined(sub, name))
            },
        }
    }
}

/// What a walk makes of a remote entry.
fn find(root: &str, sub: &str, dir: &str, top: bool, entry: &Entry) -> (out: Finding)
    ensures
        out@ == finding_of(root@, sub@, dir@, top, entry@),
{
    if listing::is_dot(&entry.name) {
        return Finding::Nothing;
    }
    if top && sub.unicode_len() > 0 && text::same(
        &text::trim_end_slashes(&entry.name),
        &text::trim_end_slashes(dir),
    ) {
        return if entry.is_symlink {
            Finding::Link(sub.to_owned(), link_warning_of(sub, dir))
        } else {
            Finding::File(sub.to_owned())
        };
    }
    match child_name(root, dir, &entry.name) {
        None => Finding::Warning(
            text::cat5(
                "warning: skipping remote entry ",
                &text::debug_of(&entry.name),
                " in ",
                dir,
                ": not a path under the sync root",
            ),
        ),
        Some(name) => {
            let path = paths::join_relative(sub, &name);
            if entry.is_symlink {
                let warning = link_warning_of(&path, dir);
                Finding::Link(path, warning)
            } else if entry.is_dir {
                Finding::Descend(path, paths::remote_path_join(dir, &name))
            } else {
                Finding::File(path)
            }
        },
    }
}

/// A path that a walk finds is the path it was pointed at or a direct child of the
/// directory that it lists, and a directory that it goes into lies below the root
/// if the one it lists does.
pub proof fn walk_never_leaves_the_root(
    root: Seq<char>,
    sub: Seq<char>,
    dir: Seq<char>,
    top: bool,
    entry: EntryView,
)
    ensures
        match finding_of(root, sub, dir, top, entry) {
            FindingView::File(path) => path == sub || is_child_path(sub, path),
            FindingView::Link(path, _) => path == sub || is_child_path(sub, path),
            FindingView::Descend(path, listed) => {
                &&& is_child_path(sub, path)
                &&& !entry.is_symlink
                &&& under(root, dir) ==> under(root, listed)
            },
            _ => true,
        },
{
    if let FindingView::Descend(path, listed) = finding_of(root, sub, dir, top, entry) {
        let name = child_of(root, dir, entry.name)->Some_0;
        assert(path == paths::joined(sub, name));
        let base = text::trim_end(root);
        if under(root, dir) && base.len() > 0 {
            text::trim_end_is_trimmed(root);
            trimmed_stays_under(base, dir);
            let d = text::trim_end(dir);
            assert(listed == d + paths::slash() + name);
            assert((d + paths::slash()).is_prefix_of(listed)) by {
                assert((d + paths::slash()) =~= listed.subrange(0, d.len() as int + 1));
            }
            if d != base {
                paths::below_is_transitive(listed, d, base);
            }
        }
    }
}

/// Whether a path is that of a direct child.
pub open spec fn is_child_path(sub: Seq<char>, path: Seq<char>) -> bool {
    exists|name: Seq<char>|
        paths::names_entry(name) && !name.contains('/') && path == #[trigger] paths::joined(
            sub,
            name,
        )
}

proof fn trimmed_stays_under(base: Seq<char>, dir: Seq<char>)
    requires
        paths::at_or_below(dir, base),
        base.len() > 0,
        base.last() != '/',
    ensures
        paths::at_or_below(text::trim_end(dir), base),
    decreases dir.len(),
{
    if dir.len() > 0 && dir.last() == '/' {
        let shorter = dir.drop_last();
        let edge = base + paths::slash();
        assert(edge.is_prefix_of(dir)) by {
            if dir == base {
                assert(dir.last() == base.last());
            }
        }
        if dir.len() == edge.len() {
            assert(dir.subrange(0, edge.len() as int) =~= dir);
            assert(shorter =~= base) by {
                assert(edge.drop_last() =~= base);
            }
        } else {
            assert(edge =~= shorter.subrange(0, edge.len() as int)) by {
                assert forall|i: int| 0 <= i < edge.len() implies edge[i] == shorter[i] by {
                    assert(edge[i] == dir.subrange(0, edge.len() as int)[i]);
                }
            }
        }
        trimmed_stays_under(base, shorter);
    }
}

/// What a walk has gathered, and what it still has to look at: the last finding
/// of the stack comes first.
#[derive(Debug)]
pub struct Trail {
    pub found: PathSet,
    pub symlinks: PathSet,
    pub warnings: Vec<String>,
    pub stack: Vec<Finding>,
}

/// What a trail says.
pub struct TrailView {
    pub found: Set<Seq<char>>,
    pub symlinks: Set<Seq<char>>,
    pub warnings: Seq<Seq<char>>,
    pub stack: Seq<FindingView>,
}

impl View for Trail {
    type V = TrailView;

    open spec fn view(&self) -> TrailView {
        TrailView {
            found: self.found@,
            symlinks: self.symlinks@,
            warnings: text::views(self.warnings@),
            stack: text::views(self.stack@),
        }
    }
}

/// Where a trail comes to a stop.
#[derive(Debug)]
pub enum Stop {
    End,
    /// At a directory to be listed.
    Descend(String, String),
    Failure(Error),
}

/// Where a trail comes to a stop.
pub enum StopView {
    End,
    Descend(Seq<char>, Seq<char>),
    Failure(error::ErrorView),
}

impl View for Stop {
    type V = StopView;

    open spec fn view(&self) -> StopView {
        match self {
            Stop::End => StopView::End,
            Stop::Descend(sub, dir) => StopView::Descend(sub@, dir@),
            Stop::Failure(e) => StopView::Failure(e@),
        }
    }
}

/// A trail once its findings were taken up to the next directory to be listed,
/// and where it stopped.
pub open spec fn drained(t: TrailView) -> (TrailView, StopView)
    decreases t.stack.len(),
{
    if t.stack.len() == 0 {
        (t, StopView::End)
    } else {
        let rest = TrailView { stack: t.stack.drop_last(), ..t };
        match t.stack.last() {
            FindingView::Nothing => drained(rest),
            FindingView::File(path) => drained(TrailView { found: t.found.insert(path), ..rest }),
            FindingView::Link(path, warning) => drained(
                TrailView {
                    symlinks: t.symlinks.insert(path),
                    warnings: t.warnings.push(warning),
                    ..rest
                },
            ),
            FindingView::Warning(warning) => drained(
                TrailView { warnings: t.warnings.push(warning), ..rest },
            ),
            FindingView::Descend(sub, dir) => (rest, StopView::Descend(sub, dir)),
            FindingView::Failure(e) => (rest, StopView::Failure(e)),
        }
    }
}

impl TrailView {
    /// The trail with some findings to be taken first, in order.
    pub open spec fn with_findings(self, findings: Seq<FindingView>) -> TrailView {
        TrailView { stack: self.stack + findings.reverse(), ..self }
    }
}

impl Trail {
    /// The sets of the trail are in order.
    pub open spec fn wf(&self) -> bool {
        self.found.wf() && self.symlinks.wf()
    }

    /// A trail that adds to the given sets.
    pub fn new(found: PathSet, symlinks: PathSet) -> (out: Trail)
        requires
            found.wf(),
            symlinks.wf(),
        ensures
            out.wf(),
            out@ == (TrailView {
                found: found@,
                symlinks: symlinks@,
                warnings: Seq::empty(),
                stack: Seq::empty(),
            }),
    {
        let out = Trail { found, symlinks, warnings: Vec::new(), stack: Vec::new() };
        assert(out@.warnings =~= Seq::<Seq<char>>::empty());
        assert(out@.stack =~= Seq::<FindingView>::empty());
        out
    }

    /// Puts some findings on the stack so that they are taken first, in order.
    fn put(&mut self, findings: Vec<Finding>)
        requires
            old(self).wf(),
        ensures
            final(self).wf(),
            final(self)@ == old(self)@.with_findings(text::views(findings@)),
    {
        let ghost all = text::views(findings@);
        let mut findings = findings;
        assert(self@.stack + all.skip(all.len() as int).reverse() =~= self@.stack);
        assert(all.take(all.len() as int) =~= all);
        while findings.len() > 0
            invariant
                self.wf(),
                findings@.len() <= all.len(),
                text::views(findings@) == all.take(findings@.len() as int),
                self@ == (TrailView {
                    stack: old(self)@.stack + all.skip(findings@.len() as int).reverse(),
                    ..old(self)@
                }),
            decreases findings.len(),
        {
            let ghost before = self@.stack;
            let ghost count = findings@.len() as int;
            assert(all.take(count)[count - 1] == findings@[count - 1]@);
            match findings.pop() {
                Some(finding) => {
                    self.stack.push(finding);
                    assert(text::views(findings@) =~= all.take(count - 1));
                    assert(self@.stack =~= before.push(finding@));
                    assert(all.skip(count - 1).reverse() =~= all.skip(count).reverse().push(
                        all[count - 1],
                    ));
                    assert(self@.stack =~= old(self)@.stack + all.skip(count - 1).reverse());
                },
                None => {},
            }
        }
        assert(all.skip(0) =~= all);
    }

    /// Takes the findings up to the next directory to be listed.
    fn drain(&mut self) -> (out: Stop)
        requires
            old(self).wf(),
        ensures
            final(self).wf(),
            (final(self)@, out@) == drained(old(self)@),
    {
        while self.stack.len() > 0
            invariant
                self.wf(),
                drained(self@) == drained(old(self)@),
            decreases self.stack.len(),
        {
            let ghost before = self@;
            assert(before.stack.last() == self.stack@[self.stack@.len() - 1]@);
            let taken = self.stack.pop();
            assert(self@.stack =~= before.stack.drop_last());
            match taken {
                Some(Finding::File(path)) => {
                    self.found.insert(path);
                },
                Some(Finding::Link(path, warning)) => {
                    self.symlinks.insert(path);
                    self.warnings.push(warning);
                    assert(self@.warnings =~= before.warnings.push(warning@));
                },
                Some(Finding::Warning(warning)) => {
                    self.warnings.push(warning);
                    assert(self@.warnings =~= before.warnings.push(warning@));
                },
                Some(Finding::Descend(sub, dir)) => {
                    return Stop::Descend(sub, dir);
                },
                Some(Finding::Failure(e)) => {
                    return Stop::Failure(e);
                },
                _ => {},
            }
        }
        Stop::End
    }
}

/// Whether a listing of the directory that holds a remote path shows the path as
/// a symlink, if it shows it at all.
pub open spec fn leaf_link(root: Seq<char>, path: Seq<char>, entries: Seq<EntryView>) -> Option<bool>
    decreases entries.len(),
{
    let (dir, name) = ftp::creation_site(path);
    if entries.len() == 0 {
        None
    } else if child_of(root, dir, entries[0].name) == Some(name) {
        Some(entries[0].is_symlink)
    } else {
        leaf_link(root, path, entries.skip(1))
    }
}

/// A listing by its view, if there is one.
pub open spec fn listed(listing: Option<Vec<Entry>>) -> Option<Seq<EntryView>> {
    match listing {
        Some(entries) => Some(text::views(entries@)),
        None => None,
    }
}

/// Whether the directory that holds a remote path shows it as a symlink. Without
/// a listing, or where the path is not in it, nothing can be said.
pub fn leaf_is_symlink(root: &str, path: &str, listing: &Option<Vec<Entry>>) -> (out: Option<bool>)
    ensures
        out == match listed(*listing) {
            Some(entries) => leaf_link(root@, path@, entries),
            None => None,
        },
{
    let entries = match listing {
        Some(entries) => entries,
        None => {
            return None;
        },
    };
    let (dir, leaf) = ftp::creation_site_of(path);
    let ghost all = text::views(entries@);
    let mut i: usize = 0;
    assert(all.skip(0) =~= all);
    while i < entries.len()
        invariant
            i <= entries@.len(),
            all == text::views(entries@),
            listed(*listing) == Some(all),
            (dir@, leaf@) == ftp::creation_site(path@),
            leaf_link(root@, path@, all) == leaf_link(root@, path@, all.skip(i as int)),
        decreases entries.len() - i,
    {
        assert(all.skip(i as int)[0] == entries@[i as int]@);
        assert(all.skip(i as int).skip(1) =~= all.skip(i + 1));
        if let Some(name) = child_name(root, &dir, &entries[i].name) {
            if text::same(&name, &leaf) {
                return Some(entries[i].is_symlink);
            }
        }
        i += 1;
    }
    None
}

/// What a walk of the remote tree waits for.
#[derive(Debug, Clone, Copy, PartialEq, Eq, Structural)]
pub enum WalkPhase {
    /// Whether the path it was pointed at is a file with a size.
    Size,
    /// The listing of the directory that holds that path.
    Parent,
    /// The listing of the current directory.
    List,
    /// Whether the path is a file with a size, since nothing was found below it.
    Fallback,
    Done,
}

/// A walk of the remote tree below `sub`. With `links` the path it was pointed at
/// is looked up where it lies, so that a symlink to a file is told from a file.
/// With `collect` it resolves an argument: it does not fail, and asks for the size
/// of what it found nothing below.
#[derive(Debug)]
pub struct RemoteWalk {
    pub root: String,
    pub sub: String,
    pub links: bool,
    pub collect: bool,
    pub before: usize,
    pub at_sub: String,
    pub at_dir: String,
    pub top: bool,
    pub phase: WalkPhase,
    pub trail: Trail,
    pub failure: Option<Error>,
}

/// What a walk of the remote tree says.
pub struct WalkView {
    pub root: Seq<char>,
    pub sub: Seq<char>,
    pub links: bool,
    pub collect: bool,
    pub before: nat,
    pub at_sub: Seq<char>,
    pub at_dir: Seq<char>,
    pub top: bool,
    pub phase: WalkPhase,
    pub trail: TrailView,
    pub failure: Option<error::ErrorView>,
}

impl View for RemoteWalk {
    type V = WalkView;

    open spec fn view(&self) -> WalkView {
        WalkView {
            root: self.root@,
            sub: self.sub@,
            links: self.links,
            collect: self.collect,
            before: self.before as nat,
            at_sub: self.at_sub@,
            at_dir: self.at_dir@,
            top: self.top,
            phase: self.phase,
            trail: self.trail@,
            failure: match self.failure {
                Some(e) => Some(e@),
                None => None,
            },
        }
    }
}

/// The directory that a walk below `sub` lists first.
pub open spec fn walk_dir(root: Seq<char>, sub: Seq<char>) -> Seq<char> {
    if sub.len() == 0 {
        paths::normal_root(root)
    } else {
        paths::remote_joined(root, sub)
    }
}

/// Where a walk starts.
pub open spec fn walk_start(
    root: Seq<char>,
    sub: Seq<char>,
    links: bool,
    collect: bool,
    found: Set<Seq<char>>,
    symlinks: Set<Seq<char>>,
) -> WalkView {
    WalkView {
        root,
        sub,
        links,
        collect,
        before: found.len(),
        at_sub: sub,
        at_dir: walk_dir(root, sub),
        top: true,
        phase: if sub.len() == 0 {
            WalkPhase::List
        } else {
            WalkPhase::Size
        },
        trail: TrailView { found, symlinks, warnings: Seq::empty(), stack: Seq::empty() },
        failure: None,
    }
}

impl WalkView {
    /// The walk, once the path it was pointed at is known to be a file.
    pub open spec fn resolved(self) -> WalkView {
        WalkView {
            phase: WalkPhase::Done,
            trail: TrailView { found: self.trail.found.insert(self.sub), ..self.trail },
            ..self
        }
    }

    /// The walk, once the path it was pointed at is known to be a symlink.
    pub open spec fn linked(self) -> WalkView {
        WalkView {
            phase: WalkPhase::Done,
            trail: TrailView {
                symlinks: self.trail.symlinks.insert(self.sub),
                warnings: self.trail.warnings.push(
                    link_warning(self.sub, ftp::creation_site(walk_dir(self.root, self.sub)).0),
                ),
                ..self.trail
            },
            ..self
        }
    }

    /// The walk, once there is nothing left to list.
    pub open spec fn finished(self) -> WalkView {
        WalkView {
            phase: if self.collect && self.trail.found.len() == self.before
                && !self.trail.symlinks.contains(self.sub) {
                WalkPhase::Fallback
            } else {
                WalkPhase::Done
            },
            ..self
        }
    }

    /// The walk, ended by a failure.
    pub open spec fn failed(self, failure: error::ErrorView) -> WalkView {
        if self.collect {
            WalkView { phase: WalkPhase::Fallback, ..self }
        } else {
            WalkView { phase: WalkPhase::Done, failure: Some(failure), ..self }
        }
    }

    /// The walk at the next directory to be listed.
    pub open spec fn advanced(self) -> WalkView {
        let (trail, stop) = drained(self.trail);
        let next = WalkView { trail, ..self };
        match stop {
            StopView::End => next.finished(),
            StopView::Descend(sub, dir) => WalkView {
                at_sub: sub,
                at_dir: dir,
                top: false,
                ..next
            },
            StopView::Failure(e) => next.failed(e),
        }
    }
}

/// A reply to a walk of the remote tree.
pub enum WalkReply {
    Size(bool),
    Parent(Option<Seq<EntryView>>),
    Listing(Result<Seq<EntryView>, error::ErrorView>),
}

/// What a walk makes of a listing, in order.
pub open spec fn findings_of(
    root: Seq<char>,
    sub: Seq<char>,
    dir: Seq<char>,
    top: bool,
    entries: Seq<EntryView>,
) -> Seq<FindingView> {
    Seq::new(entries.len(), |i: int| finding_of(root, sub, dir, top, entries[i]))
}

/// Where a reply leads a walk of the remote tree. A reply that the phase does not
/// wait for changes nothing. A directory that cannot be listed ends the walk only
/// at its top.
pub open spec fn walk_step(u: WalkView, reply: WalkReply) -> WalkView {
    match (u.phase, reply) {
        (WalkPhase::Size, WalkReply::Size(known)) => if !known {
            WalkView { phase: WalkPhase::List, ..u }
        } else if u.links {
            WalkView { phase: WalkPhase::Parent, ..u }
        } else {
            u.resolved()
        },
        (WalkPhase::Fallback, WalkReply::Size(known)) => if !known {
            WalkView { phase: WalkPhase::Done, ..u }
        } else if u.links {
            WalkView { phase: WalkPhase::Parent, ..u }
        } else {
            u.resolved()
        },
        (WalkPhase::Parent, WalkReply::Parent(listing)) => {
            let link = match listing {
                Some(entries) => leaf_link(u.root, walk_dir(u.root, u.sub), entries),
                None => None,
            };
            if link == Some(true) {
                u.linked()
            } else {
                u.resolved()
            }
        },
        (WalkPhase::List, WalkReply::Listing(listing)) => match listing {
            Ok(entries) => (WalkView {
                trail: u.trail.with_findings(
                    findings_of(u.root, u.at_sub, u.at_dir, u.top, entries),
                ),
                ..u
            }).advanced(),
            Err(e) => if u.top {
                u.failed(
                    error::failure_from(
                        "walking remote dir "@ + u.at_dir,
                        error::full_message(e),
                    ),
                )
            } else {
                (WalkView {
                    trail: TrailView {
                        warnings: u.trail.warnings.push(
                            "warning: skipping remote dir "@ + u.at_dir + ": "@
                                + error::full_message(e),
                        ),
                        ..u.trail
                    },
                    ..u
                }).advanced()
            },
        },
        _ => u,
    }
}

impl RemoteWalk {
    /// The sets of the walk are in order, and nothing was taken away.
    pub open spec fn wf(&self) -> bool {
        self.trail.wf() && self@.before <= self@.trail.found.len()
    }

    /// A walk below `sub` that adds to the given sets.
    fn start(
        root: &str,
        sub: &str,
        links: bool,
        collect: bool,
        found: PathSet,
        symlinks: PathSet,
    ) -> (out: RemoteWalk)
        requires
            found.wf(),
            symlinks.wf(),
        ensures
            out.wf(),
            out@ == walk_start(root@, sub@, links, collect, found@, symlinks@),
    {
        proof {
            found.facts();
        }
        let dir = if sub.unicode_len() == 0 {
            paths::normal_root_of(root)
        } else {
            paths::remote_path_join(root, sub)
        };
        let before: usize = found.len();
        RemoteWalk {
            root: root.to_owned(),
            sub: sub.to_owned(),
            links,
            collect,
            before,
            at_sub: sub.to_owned(),
            at_dir: dir,
            top: true,
            phase: if sub.unicode_len() == 0 {
                WalkPhase::List
            } else {
                WalkPhase::Size
            },
            trail: Trail::new(found, symlinks),
            failure: None,
        }
    }

    fn resolve(&mut self)
        requires
            old(self).trail.wf(),
        ensures
            final(self).trail.wf(),
            final(self)@ == old(self)@.resolved(),
    {
        let path = self.sub.clone();
        self.trail.found.insert(path);
        self.phase = WalkPhase::Done;
    }

    fn finish(&mut self)
        requires
            old(self).trail.wf(),
        ensures
            final(self).trail.wf(),
            final(self)@ == old(self)@.finished(),
    {
        proof {
            self.trail.found.facts();
        }
        self.phase = if self.collect && self.trail.found.len() == self.before
            && !self.trail.symlinks.contains(&self.sub) {
            WalkPhase::Fallback
        } else {
            WalkPhase::Done
        };
    }

    fn fail(&mut self, failure: Error)
        requires
            old(self).trail.wf(),
        ensures
            final(self).trail.wf(),
            final(self)@ == old(self)@.failed(failure@),
    {
        if self.collect {
            self.phase = WalkPhase::Fallback;
        } else {
            self.phase = WalkPhase::Done;
            self.failure = Some(failure);
        }
    }

    fn advance(&mut self)
        requires
            old(self).trail.wf(),
        ensures
            final(self).trail.wf(),
            final(self)@ == old(self)@.advanced(),
    {
        match self.trail.drain() {
            Stop::End => self.finish(),
            Stop::Descend(sub, dir) => {
                self.at_sub = sub;
                self.at_dir = dir;
                self.top = false;
            },
            Stop::Failure(e) => self.fail(e),
        }
    }

    /// Takes whether the path that the walk was pointed at has a size.
    pub fn on_size(&mut self, known: bool)
        requires
            old(self).wf(),
        ensures
            final(self).wf(),
            final(self)@ == walk_step(old(self)@, WalkReply::Size(known)),
    {
        proof {
            self.trail.found.facts();
            walk_keeps_what_it_found(self@, WalkReply::Size(known));
        }
        match self.phase {
            WalkPhase::Size => if !known {
                self.phase = WalkPhase::List;
            } else if self.links {
                self.phase = WalkPhase::Parent;
            } else {
                self.resolve();
            },
            WalkPhase::Fallback => if !known {
                self.phase = WalkPhase::Done;
            } else if self.links {
                self.phase = WalkPhase::Parent;
            } else {
                self.resolve();
            },
            _ => {},
        }
    }

    /// The path that the walk was pointed at, whose size it asks for.
    pub fn target(&self) -> (out: String)
        ensures
            out@ == walk_dir(self@.root, self@.sub),
    {
        if self.sub.as_str().unicode_len() == 0 {
            paths::normal_root_of(&self.root)
        } else {
            paths::remote_path_join(&self.root, &self.sub)
        }
    }

    /// The directory that holds the path that the walk was pointed at.
    pub fn parent(&self) -> (out: String)
        ensures
            out@ == ftp::creation_site(walk_dir(self@.root, self@.sub)).0,
    {
        ftp::creation_site_of(&self.target()).0
    }

    /// Takes the listing of the directory that holds the path that the walk was
    /// pointed at, if there is one.
    pub fn on_parent(&mut self, listing: Option<Vec<Entry>>)
        requires
            old(self).wf(),
        ensures
            final(self).wf(),
            final(self)@ == walk_step(old(self)@, WalkReply::Parent(listed(listing))),
    {
        proof {
            self.trail.found.facts();
            walk_keeps_what_it_found(self@, WalkReply::Parent(listed(listing)));
        }
        match self.phase {
            WalkPhase::Parent => {
                let target = self.target();
                let is_link = match leaf_is_symlink(&self.root, &target, &listing) {
                    Some(is_link) => is_link,
                    None => false,
                };
                if is_link {
                    let path = self.sub.clone();
                    let warning = link_warning_of(&path, &self.parent());
                    let ghost before = self@;
                    self.trail.symlinks.insert(path);
                    self.trail.warnings.push(warning);
                    assert(self@.trail.warnings =~= before.trail.warnings.push(warning@));
                    self.phase = WalkPhase::Done;
                } else {
                    self.resolve();
                }
            },
            _ => {},
        }
    }

    /// Takes the listing of the current directory.
    pub fn on_listing(&mut self, listing: Result<Vec<Entry>, Error>)
        requires
            old(self).wf(),
        ensures
            final(self).wf(),
            final(self)@ == walk_step(
                old(self)@,
                WalkReply::Listing(file_transfer::listed(listing)),
            ),
    {
        proof {
            self.trail.found.facts();
            walk_keeps_what_it_found(self@, WalkReply::Listing(file_transfer::listed(listing)));
        }
        match self.phase {
            WalkPhase::List => {},
            _ => {
                return ;
            },
        }
        match listing {
            Ok(entries) => {
                let findings = self.find_all(&entries);
                self.trail.put(findings);
                self.advance();
            },
            Err(e) => if self.top {
                let failure = Error::failure_from(
                    text::cat("walking remote dir ", &self.at_dir),
                    &e.full_message(),
                );
                self.fail(failure);
            } else {
                let warning = text::cat4(
                    "warning: skipping remote dir ",
                    &self.at_dir,
                    ": ",
                    &e.full_message(),
                );
                let ghost before = self@;
                self.trail.warnings.push(warning);
                assert(self@.trail.warnings =~= before.trail.warnings.push(warning@));
                self.advance();
            },
        }
    }

    fn find_all(&self, entries: &Vec<Entry>) -> (out: Vec<Finding>)
        ensures
            text::views(out@) == findings_of(
                self@.root,
                self@.at_sub,
                self@.at_dir,
                self@.top,
                text::views(entries@),
            ),
    {
        let mut out: Vec<Finding> = Vec::new();
        let mut i: usize = 0;
        while i < entries.len()
            invariant
                i <= entries@.len(),
                out@.len() == i,
                forall|k: int|
                    0 <= k < i ==> (#[trigger] out@[k])@ == finding_of(
                        self@.root,
                        self@.at_sub,
                        self@.at_dir,
                        self@.top,
                        entries@[k]@,
                    ),
            decreases entries.len() - i,
        {
            out.push(find(&self.root, &self.at_sub, &self.at_dir, self.top, &entries[i]));
            i += 1;
        }
        assert(text::views(out@) =~= findings_of(
            self@.root,
            self@.at_sub,
            self@.at_dir,
            self@.top,
            text::views(entries@),
        ));
        out
    }

    /// How many paths the walk has found that were not known before.
    pub fn found_count(&self) -> (out: usize)
        requires
            self.wf(),
        ensures
            out == self@.trail.found.len() - self@.before,
    {
        proof {
            self.trail.found.facts();
        }
        self.trail.found.len() - self.before
    }
}

/// A walk of the remote tree below `sub`, which adds to `found`. It fails if the
/// directory it starts at cannot be listed.
pub fn walk_remote(root: &str, sub: &str, found: PathSet) -> (out: RemoteWalk)
    requires
        found.wf(),
    ensures
        out.wf(),
        out@ == walk_start(root@, sub@, false, false, found@, Set::empty()),
{
    RemoteWalk::start(root, sub, false, false, found, PathSet::new())
}

/// A walk of the remote tree that also gathers the symlinks it passes over.
pub fn walk_remote_with_symlinks(
    root: &str,
    sub: &str,
    found: PathSet,
    symlinks: PathSet,
) -> (out: RemoteWalk)
    requires
        found.wf(),
        symlinks.wf(),
    ensures
        out.wf(),
        out@ == walk_start(root@, sub@, true, false, found@, symlinks@),
{
    RemoteWalk::start(root, sub, true, false, found, symlinks)
}

/// The resolution of one argument against the remote tree, be it a directory or
/// a file. It does not fail.
pub fn collect_remote_arg(root: &str, rel: &str, found: PathSet) -> (out: RemoteWalk)
    requires
        found.wf(),
    ensures
        out.wf(),
        out@ == walk_start(root@, rel@, false, true, found@, Set::empty()),
{
    RemoteWalk::start(root, rel, false, true, found, PathSet::new())
}

/// The resolution of one argument that also gathers symlinks.
pub fn collect_remote_arg_with_symlinks(
    root: &str,
    rel: &str,
    found: PathSet,
    symlinks: PathSet,
) -> (out: RemoteWalk)
    requires
        found.wf(),
        symlinks.wf(),
    ensures
        out.wf(),
        out@ == walk_start(root@, rel@, true, true, found@, symlinks@),
{
    RemoteWalk::start(root, rel, true, true, found, symlinks)
}

/// What a walk never takes away: the paths that it was given, and those it has
/// found so far.
pub proof fn walk_keeps_what_it_found(u: WalkView, reply: WalkReply)
    ensures
        u.trail.found.subset_of(walk_step(u, reply).trail.found),
        u.trail.symlinks.subset_of(walk_step(u, reply).trail.symlinks),
        u.trail.found.finite() ==> walk_step(u, reply).trail.found.finite() && u.trail.found.len()
            <= walk_step(u, reply).trail.found.len(),
        walk_step(u, reply).before == u.before,
{
    match reply {
        WalkReply::Listing(listing) => {
            match listing {
                Ok(entries) => {
                    drained_only_adds(
                        u.trail.with_findings(
                            findings_of(u.root, u.at_sub, u.at_dir, u.top, entries),
                        ),
                    );
                },
                Err(e) => {
                    drained_only_adds(
                        TrailView {
                            warnings: u.trail.warnings.push(
                                "warning: skipping remote dir "@ + u.at_dir + ": "@
                                    + error::full_message(e),
                            ),
                            ..u.trail
                        },
                    );
                },
            }
        },
        _ => {},
    }
    if u.trail.found.finite() {
        vstd::set_lib::lemma_len_subset(u.trail.found, walk_step(u, reply).trail.found);
    }
}

proof fn drained_only_adds(t: TrailView)
    ensures
        t.found.subset_of(drained(t).0.found),
        t.symlinks.subset_of(drained(t).0.symlinks),
        t.found.finite() ==> drained(t).0.found.finite(),
    decreases t.stack.len(),
{
    if t.stack.len() > 0 {
        let rest = TrailView { stack: t.stack.drop_last(), ..t };
        match t.stack.last() {
            FindingView::Nothing => drained_only_adds(rest),
            FindingView::File(path) => drained_only_adds(
                TrailView { found: t.found.insert(path), ..rest },
            ),
            FindingView::Link(path, warning) => drained_only_adds(
                TrailView {
                    symlinks: t.symlinks.insert(path),
                    warnings: t.warnings.push(warning),
                    ..rest
                },
            ),
            FindingView::Warning(warning) => drained_only_adds(
                TrailView { warnings: t.warnings.push(warning), ..rest },
            ),
            _ => {},
        }
    }
}

/// An entry of a local directory.
#[derive(Debug)]
pub struct LocalItem {
    pub name: String,
    pub is_dir: bool,
    pub ignored: bool,
}

/// An entry of a local directory.
pub struct ItemView {
    pub name: Seq<char>,
    pub is_dir: bool,
    pub ignored: bool,
}

impl View for LocalItem {
    type V = ItemView;

    open spec fn view(&self) -> ItemView {
        ItemView { name: self.name@, is_dir: self.is_dir, ignored: self.ignored }
    }
}

/// An entry that was read, or the failure to read it, by its view.
pub open spec fn item_read(item: Result<LocalItem, Error>) -> Result<ItemView, error::ErrorView> {
    match item {
        Ok(item) => Ok(item@),
        Err(e) => Err(e@),
    }
}

/// What a walk makes of a local entry: nothing of one that is ignored and of the
/// state directory.
pub open spec fn local_finding(
    local_root: Seq<char>,
    sub: Seq<char>,
    item: Result<ItemView, error::ErrorView>,
) -> FindingView {
    match item {
        Err(e) => FindingView::Failure(
            error::failure_from(
                "walking local dir "@ + directories::local_path(local_root, sub),
                error::full_message(e),
            ),
        ),
        Ok(item) => if item.ignored || (item.is_dir && item.name == paths::STATE_DIR@) {
            FindingView::Nothing
        } else if item.is_dir {
            FindingView::Descend(
                paths::joined(sub, item.name),
                directories::local_path(local_root, paths::joined(sub, item.name)),
            )
        } else {
            FindingView::File(paths::joined(sub, item.name))
        },
    }
}

/// What a walk makes of a local entry.
fn find_local(local_root: &str, sub: &str, item: &Result<LocalItem, Error>) -> (out: Finding)
    ensures
        out@ == local_finding(local_root@, sub@, item_read(*item)),
{
    match item {
        Err(e) => Finding::Failure(
            Error::failure_from(
                text::cat("walking local dir ", &directories::local_path_of(local_root, sub)),
                &e.full_message(),
            ),
        ),
        Ok(item) => if item.ignored || (item.is_dir && text::same(&item.name, paths::STATE_DIR)) {
            Finding::Nothing
        } else {
            let path = paths::join_relative(sub, &item.name);
            if item.is_dir {
                let dir = directories::local_path_of(local_root, &path);
                Finding::Descend(path, dir)
            } else {
                Finding::File(path)
            }
        },
    }
}

/// A walk of the local tree.
#[derive(Debug)]
pub struct LocalWalk {
    pub local_root: String,
    pub sub: String,
    pub dir: String,
    pub done: bool,
    pub trail: Trail,
    pub failure: Option<Error>,
}

/// What a walk of the local tree says.
pub struct LocalWalkView {
    pub local_root: Seq<char>,
    pub sub: Seq<char>,
    pub dir: Seq<char>,
    pub done: bool,
    pub trail: TrailView,
    pub failure: Option<error::ErrorView>,
}

impl View for LocalWalk {
    type V = LocalWalkView;

    open spec fn view(&self) -> LocalWalkView {
        LocalWalkView {
            local_root: self.local_root@,
            sub: self.sub@,
            dir: self.dir@,
            done: self.done,
            trail: self.trail@,
            failure: match self.failure {
                Some(e) => Some(e@),
                None => None,
            },
        }
    }
}

impl LocalWalkView {
    /// The walk at the next directory to be read.
    pub open spec fn advanced(self) -> LocalWalkView {
        let (trail, stop) = drained(self.trail);
        match stop {
            StopView::End => LocalWalkView { trail, done: true, ..self },
            StopView::Descend(sub, dir) => LocalWalkView { trail, sub, dir, ..self },
            StopView::Failure(e) => LocalWalkView { trail, done: true, failure: Some(e), ..self },
        }
    }
}

/// What a walk makes of what was read of a local directory, in order.
pub open spec fn local_findings(
    local_root: Seq<char>,
    sub: Seq<char>,
    items: Seq<Result<LocalItem, Error>>,
) -> Seq<FindingView> {
    Seq::new(items.len(), |i: int| local_finding(local_root, sub, item_read(items[i])))
}

/// Where a listing leads a walk of the local tree. A directory that cannot be read
/// ends it.
pub open spec fn local_walk_step(
    u: LocalWalkView,
    items: Result<Seq<Result<LocalItem, Error>>, error::ErrorView>,
) -> LocalWalkView {
    if u.done {
        u
    } else {
        match items {
            Err(e) => LocalWalkView {
                done: true,
                failure: Some(
                    error::failure_from("reading local dir "@ + u.dir, error::full_message(e)),
                ),
                ..u
            },
            Ok(items) => (LocalWalkView {
                trail: u.trail.with_findings(local_findings(u.local_root, u.sub, items)),
                ..u
            }).advanced(),
        }
    }
}

/// Where a walk of the local directory `sub` starts.
pub open spec fn local_walk_start(
    local_root: Seq<char>,
    sub: Seq<char>,
    found: Set<Seq<char>>,
) -> LocalWalkView {
    LocalWalkView {
        local_root,
        sub,
        dir: directories::local_path(local_root, sub),
        done: false,
        trail: TrailView {
            found,
            symlinks: Set::empty(),
            warnings: Seq::empty(),
            stack: Seq::empty(),
        },
        failure: None,
    }
}

/// A walk of the local directory `sub`, which adds to `found`.
pub fn walk_local(local_root: &str, sub: &str, found: PathSet) -> (out: LocalWalk)
    requires
        found.wf(),
    ensures
        out.trail.wf(),
        out@ == local_walk_start(local_root@, sub@, found@),
{
    LocalWalk {
        local_root: local_root.to_owned(),
        sub: sub.to_owned(),
        dir: directories::local_path_of(local_root, sub),
        done: false,
        trail: Trail::new(found, PathSet::new()),
        failure: None,
    }
}

impl LocalWalk {
    /// Takes what was read of the current directory.
    pub fn on_listing(&mut self, items: Result<Vec<Result<LocalItem, Error>>, Error>)
        requires
            old(self).trail.wf(),
        ensures
            final(self).trail.wf(),
            final(self)@ == local_walk_step(
                old(self)@,
                match items {
                    Ok(items) => Ok(items@),
                    Err(e) => Err(e@),
                },
            ),
    {
        if self.done {
            return ;
        }
        match items {
            Err(e) => {
                self.failure = Some(
                    Error::failure_from(
                        text::cat("reading local dir ", &self.dir),
                        &e.full_message(),
                    ),
                );
                self.done = true;
            },
            Ok(items) => {
                let mut findings: Vec<Finding> = Vec::new();
                let mut i: usize = 0;
                while i < items.len()
                    invariant
                        i <= items@.len(),
                        findings@.len() == i,
                        forall|k: int|
                            0 <= k < i ==> (#[trigger] findings@[k])@ == local_finding(
                                self.local_root@,
                                self.sub@,
                                item_read(items@[k]),
                            ),
                    decreases items.len() - i,
                {
                    findings.push(find_local(&self.local_root, &self.sub, &items[i]));
                    i += 1;
                }
                assert(text::views(findings@) =~= local_findings(
                    self.local_root@,
                    self.sub@,
                    items@,
                ));
                self.trail.put(findings);
                match self.trail.drain() {
                    Stop::End => {
                        self.done = true;
                    },
                    Stop::Descend(sub, dir) => {
                        self.sub = sub;
                        self.dir = dir;
                    },
                    Stop::Failure(e) => {
                        self.failure = Some(e);
                        self.done = true;
                    },
                }
            },
        }
    }
}

proof fn trimming_goes_up_nowhere(path: Seq<char>)
    ensures
        goes_up(text::trim_end(path)) ==> goes_up(path),
    decreases path.len(),
{
    if path.len() > 0 && path.last() == '/' {
        let rest = path.drop_last();
        trimming_goes_up_nowhere(rest);
        if goes_up(rest) {
            let i = choose|i: int|
                0 <= i < text::segments(rest).len() && #[trigger] text::segments(rest)[i] == ".."@;
            assert(text::segments(path)[i] == ".."@);
        }
    }
}

proof fn trimming_names_no_share(path: Seq<char>)
    ensures
        platform::names_share(text::trim_end(path)) ==> platform::names_share(path),
    decreases path.len(),
{
    if path.len() > 0 && path.last() == '/' {
        let rest = path.drop_last();
        trimming_names_no_share(rest);
        if platform::names_share(rest) {
            reveal_strlit("//");
            let names = text::segments(rest.skip(2));
            assert(rest.len() > 2) by {
                if rest.len() == 2 {
                    assert(text::segments(rest.skip(2))[0].len() == 0);
                }
            }
            assert(path.subrange(0, 2) =~= rest.subrange(0, 2));
            assert(path.skip(2).drop_last() =~= rest.skip(2));
            assert(path.skip(2).last() == '/');
            assert(text::segments(path.skip(2)) == names.push(Seq::empty()));
        }
    }
}

/// The relative path that an argument names on a machine is one that names itself,
/// unless nothing is left of it.
pub proof fn safe_path_names_itself(platform: Platform, p: Seq<char>)
    ensures
        relative_on(platform, p) matches Ok(rel) ==> rel.len() == 0 || relative_on(platform, rel)
            == Ok::<Seq<char>, error::ErrorView>(rel),
        platform == Platform::Slashes ==> (relative_on(platform, p) matches Ok(rel) ==> rel.len()
            > 0),
        platform == Platform::Backslashes ==> (relative_on(platform, p) matches Ok(rel)
            ==> !rel.contains('\\')),
{
    if let Ok(rel) = relative_on(platform, p) {
        let plain = platform::slashed(platform, p);
        let long = text::trim_dot_slash(plain);
        platform::slashed_stays(platform, p);
        text::trim_dot_slash_keeps_the_end(plain);
        text::trim_end_is_trimmed(long);
        trimming_goes_up_nowhere(long);
        trimming_names_no_share(long);
        text::trim_dot_slash_is_trimmed(plain);
        assert(rel =~= long.subrange(0, rel.len() as int));
        assert(platform == Platform::Backslashes ==> platform::slashed(platform, rel) =~= rel) by {
            if platform == Platform::Backslashes {
                assert forall|i: int| 0 <= i < rel.len() implies platform::slash_for(
                    #[trigger] rel[i],
                ) == rel[i] by {
                    assert(rel[i] == long[i]);
                    assert(long[i] == plain[i + plain.len() - long.len()]);
                }
            }
        }
        if platform == Platform::Slashes {
            assert(long[0] != '/') by {
                if long[0] == '/' {
                    assert(paths::slash() =~= long.subrange(0, 1));
                }
            }
            assert(rel.len() > 0) by {
                text::trim_end_keeps_what_is_no_slash(long, 0);
            }
            if platform::absolute(platform, rel) {
                assert(rel.subrange(0, 1)[0] == '/');
            }
        } else {
            assert(platform::slashed(platform, long) =~= long) by {
                assert forall|i: int| 0 <= i < long.len() implies platform::slash_for(
                    #[trigger] long[i],
                ) == long[i] by {
                    assert(long[i] == plain[i + plain.len() - long.len()]);
                }
            }
            assert(!rel.contains('\\')) by {
                if rel.contains('\\') {
                    let i = choose|i: int| 0 <= i < rel.len() && rel[i] == '\\';
                    assert(plain[i + plain.len() - long.len()] == '\\');
                }
            }
            if paths::drive_prefixed(rel) && rel.len() > 2 {
                assert(rel[0] == long[0] && rel[1] == long[1] && rel[2] == long[2]);
            }
        }
        if rel.len() > 0 {
            assert(rel[0] == long[0]);
            if rel.len() > 1 {
                assert(rel[1] == long[1]);
            }
        }
    }
}

/// A listed name is read as a child of the directory exactly if it is that child's bare
/// name, or the path of the child below the directory and below the root.
pub proof fn child_is_named_by_name_or_path(root: Seq<char>, dir: Seq<char>, name: Seq<char>)
    ensures
        child_of(root, dir, name) matches Some(child) ==> {
            &&& paths::names_entry(child) && !child.contains('/')
            &&& name == child || (name == paths::remote_joined(dir, child) && under(root, name))
        },
        paths::names_entry(name) && !name.contains('/') ==> {
            &&& child_of(root, dir, name) == Some(name)
            &&& paths::slash().is_prefix_of(paths::remote_joined(dir, name)) && under(
                root,
                paths::remote_joined(dir, name),
            ) && paths::names_entry(paths::remote_joined(dir, name)) ==> child_of(
                root,
                dir,
                paths::remote_joined(dir, name),
            ) == Some(name)
        },
{
    let prefix = paths::remote_joined(dir, Seq::empty());
    if let Some(child) = child_of(root, dir, name) {
        if name.contains('/') && paths::slash().is_prefix_of(name) && prefix.is_prefix_of(name) {
            assert(name =~= prefix + name.skip(prefix.len() as int));
            assert(name =~= paths::remote_joined(dir, child));
        }
    }
    if paths::names_entry(name) && !name.contains('/') {
        let long = paths::remote_joined(dir, name);
        assert(long =~= prefix + name);
        assert(prefix =~= long.subrange(0, prefix.len() as int));
        assert(long.skip(prefix.len() as int) =~= name);
        assert(long[text::trim_end(dir).len() as int] == '/');
        assert(long.contains('/'));
    }
}

/// A path that was located below the located root is named by the rest of it behind the
/// root and a slash, and any other path is refused.
pub proof fn located_path_is_named_from_the_root(
    local_root: Seq<char>,
    input: Seq<char>,
    root: Seq<char>,
    path: Seq<char>,
    rel: Seq<char>,
)
    requires
        rel.len() > 0,
    ensures
        below_local_root(local_root, input, root, path) == Ok::<Seq<char>, error::ErrorView>(rel)
            <==> path == text::trim_end(root) + paths::slash() + rel,
        below_local_root(local_root, input, root, path) matches Ok(named) ==> named.len() > 0,
{
    let prefix = paths::remote_joined(root, Seq::empty());
    let want = text::trim_end(root) + paths::slash() + rel;
    assert(want =~= prefix + rel);
    assert(prefix =~= want.subrange(0, prefix.len() as int));
    assert(want.skip(prefix.len() as int) =~= rel);
    if prefix.is_prefix_of(path) {
        assert(path =~= prefix + path.skip(prefix.len() as int));
    }
}

/// An argument is refused exactly if nothing, an absolute path or a step up is left of
/// it without the dots and slashes in front; these, and slashes at its end, make no
/// difference to what it names.
pub proof fn argument_names_what_is_left(p: Seq<char>)
    ensures
        ({
            let dotted = seq!['.', '/'] + p;
            let left = text::trim_dot_slash(p);
            &&& relative_of(p) is Err <==> left.len() == 0 || left[0] == '/' || goes_up(left)
            &&& relative_of(p) is Ok ==> relative_of(dotted) == relative_of(p)
            &&& relative_of(p) is Err ==> relative_of(dotted) is Err
            &&& relative_of(p) matches Ok(rel) ==> rel == text::trim_end(left)
            &&& p.len() > 0 && !(p.len() > 1 && p[0] == '.' && p[1] == '/') && p[0] != '/'
                && !goes_up(p) && p.last() != '/' ==> relative_of(p) == Ok::<
                Seq<char>,
                error::ErrorView,
            >(p)
        }),
{
    let dotted = seq!['.', '/'] + p;
    let left = text::trim_dot_slash(p);
    assert(dotted.skip(2) =~= p);
    assert(text::trim_dot_slash(dotted) == left);
    if left.len() > 0 {
        if left[0] == '/' {
            assert(paths::slash() =~= left.subrange(0, 1));
        }
        if paths::slash().is_prefix_of(left) {
            assert(left.subrange(0, 1)[0] == '/');
        }
    }
}

/// A path that the server gives a size for is a file, unless it is asked whether it is
/// a symlink and the directory it lies in shows it as one. Either way it is the one
/// path that such a walk adds.
pub proof fn sized_path_is_what_it_is_shown_as(u: WalkView, shown: Option<Seq<EntryView>>)
    requires
        u.phase == WalkPhase::Size || u.phase == WalkPhase::Fallback,
    ensures
        ({
            let v = walk_step(u, WalkReply::Size(true));
            let w = if u.links {
                walk_step(v, WalkReply::Parent(shown))
            } else {
                v
            };
            let link = u.links && match shown {
                Some(entries) => leaf_link(u.root, walk_dir(u.root, u.sub), entries) == Some(true),
                None => false,
            };
            &&& w.phase == WalkPhase::Done && w.failure == u.failure
            &&& w.trail.found == if link {
                u.trail.found
            } else {
                u.trail.found.insert(u.sub)
            }
            &&& w.trail.symlinks == if link {
                u.trail.symlinks.insert(u.sub)
            } else {
                u.trail.symlinks
            }
        }),
{
}

/// What a listing shows a path as is what its first entry of that name is, and nothing
/// where there is none.
pub proof fn leaf_is_its_first_entry(
    root: Seq<char>,
    path: Seq<char>,
    entries: Seq<EntryView>,
    at: int,
)
    requires
        0 <= at <= entries.len(),
        forall|i: int|
            0 <= i < at ==> child_of(
                root,
                ftp::creation_site(path).0,
                (#[trigger] entries[i]).name,
            ) != Some(ftp::creation_site(path).1),
    ensures
        at == entries.len() ==> leaf_link(root, path, entries) is None,
        at < entries.len() && child_of(root, ftp::creation_site(path).0, entries[at].name) == Some(
            ftp::creation_site(path).1,
        ) ==> leaf_link(root, path, entries) == Some(entries[at].is_symlink),
    decreases at,
{
    if at > 0 {
        let rest = entries.skip(1);
        assert forall|i: int| 0 <= i < at - 1 implies child_of(
            root,
            ftp::creation_site(path).0,
            (#[trigger] rest[i]).name,
        ) != Some(ftp::creation_site(path).1) by {
            assert(rest[i] == entries[i + 1]);
        }
        assert(child_of(root, ftp::creation_site(path).0, entries[0].name) != Some(
            ftp::creation_site(path).1,
        ));
        leaf_is_its_first_entry(root, path, rest, at - 1);
    }
}

/// A remote path is under a root exactly where the root is that of the server, or
/// the path is the root without its last slashes, or starts with that and goes on
/// with a slash.
pub proof fn under_is_by_whole_segments(root: Seq<char>, path: Seq<char>)
    ensures
        ({
            let base = text::trim_end(root);
            under(root, path) <==> base.len() == 0 || path == base || (path.len() > base.len()
                && path[base.len() as int] == '/' && path.take(base.len() as int) == base)
        }),
{
    paths::below_is_by_whole_segments(path, text::trim_end(root));
}

} // verus!
