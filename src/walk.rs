use vstd::prelude::*;
use crate::language::{
    extension_of, language_of_extension, language_of_path, chars_of, file_name_of, file_name_start, file_name_start_exec, lemma_file_name_start_bounds,
    string_of,
};
use crate::pattern::{any_matches, any_pattern_matches, FilePattern};

verus! {

/// What a directory entry is, as read without following symbolic links.
#[derive(Clone, Copy, Debug, PartialEq, Eq, Structural)]
pub enum EntryKind {
    File,
    Dir,
    Symlink,
}

/// An entry of a directory listing: its absolute path and its kind.
#[derive(Debug)]
pub struct DirEntry {
    pub path: String,
    pub kind: EntryKind,
}

/// What discovery does with one directory entry.
#[derive(Clone, Copy, Debug, PartialEq, Eq, Structural)]
pub enum EntryAction {
    /// Hidden or ignored, and not allowed: skipped, and a directory is not descended into.
    Ignore,
    /// A symbolic link: reported, never followed.
    SkipSymlink,
    /// A directory to walk.
    Descend,
    /// A regular file to scan.
    Collect,
}

/// `p` relative to the project root: what follows the root's text, when `p` starts
/// with it (so `/src/main.rs` under root `/home/p`).
pub open spec fn relative_to(root: Seq<char>, p: Seq<char>) -> Seq<char> {
    if root.len() <= p.len() && p.subrange(0, root.len() as int) == root {
        p.subrange(root.len() as int, p.len() as int)
    } else {
        p
    }
}

/// A path is hidden when its file name starts with a dot.
pub open spec fn is_hidden(rel: Seq<char>) -> bool {
    file_name_of(rel).len() > 0 && file_name_of(rel)[0] == '.'
}

/// An allow pattern overrides both the ignore list and the hidden-file convention.
pub open spec fn visible(rel: Seq<char>, ignores: Seq<Seq<char>>, allows: Seq<Seq<char>>) -> bool {
    any_matches(allows, rel) || !(is_hidden(rel) || any_matches(ignores, rel))
}

pub open spec fn action_of(
    root: Seq<char>,
    ignores: Seq<Seq<char>>,
    allows: Seq<Seq<char>>,
    path: Seq<char>,
    kind: EntryKind,
) -> EntryAction {
    if !visible(relative_to(root, path), ignores, allows) {
        EntryAction::Ignore
    } else {
        match kind {
            EntryKind::Symlink => EntryAction::SkipSymlink,
            EntryKind::Dir => EntryAction::Descend,
            EntryKind::File => EntryAction::Collect,
        }
    }
}

/// The paths of the entries that get a given action, in listing order.
pub open spec fn with_action(
    root: Seq<char>,
    ignores: Seq<Seq<char>>,
    allows: Seq<Seq<char>>,
    entries: Seq<(Seq<char>, EntryKind)>,
    action: EntryAction,
) -> Seq<Seq<char>>
    decreases entries.len(),
{
    if entries.len() == 0 {
        Seq::empty()
    } else {
        let rest = with_action(root, ignores, allows, entries.drop_last(), action);
        let e = entries.last();
        if action_of(root, ignores, allows, e.0, e.1) == action {
            rest.push(e.0)
        } else {
            rest
        }
    }
}

pub open spec fn entries_view(entries: Seq<DirEntry>) -> Seq<(Seq<char>, EntryKind)> {
    entries.map_values(|e: DirEntry| (e.path@, e.kind))
}

pub open spec fn patterns_view(ps: Seq<FilePattern>) -> Seq<Seq<char>> {
    ps.map_values(|q: FilePattern| q@)
}

/// The abstract state of a walk.
pub ghost struct WalkerView {
    pub root: Seq<char>,
    pub ignores: Seq<Seq<char>>,
    pub allows: Seq<Seq<char>>,
    /// Directories still to list.
    pub pending: Seq<Seq<char>>,
    /// Regular files found so far.
    pub files: Seq<Seq<char>>,
}

/// Depth-first discovery of a project's files. The walker decides; the caller lists
/// each directory that [`Walker::next_dir`] hands out and feeds the listing back to
/// [`Walker::visit`].
#[derive(Debug)]
pub struct Walker {
    root: String,
    ignores: Vec<FilePattern>,
    allows: Vec<FilePattern>,
    pending: Vec<String>,
    files: Vec<String>,
}

impl View for Walker {
    type V = WalkerView;

    closed spec fn view(&self) -> WalkerView {
        WalkerView {
            root: self.root@,
            ignores: patterns_view(self.ignores@),
            allows: patterns_view(self.allows@),
            pending: self.pending@.map_values(|s: String| s@),
            files: self.files@.map_values(|s: String| s@),
        }
    }
}

/// Whether a project-relative path is hidden.
pub fn hidden(rel: &Vec<char>) -> (r: bool)
    ensures
        r == is_hidden(rel@),
{
    let s = file_name_start_exec(rel);
    proof {
        lemma_file_name_start_bounds(rel@);
    }
    if s < rel.len() {
        assert(file_name_of(rel@)[0] == rel@[s as int]);
        rel[s] == '.'
    } else {
        false
    }
}

/// Whether `root` is a prefix of `p`.
pub fn has_prefix(root: &Vec<char>, p: &Vec<char>) -> (r: bool)
    ensures
        r == (root.len() <= p.len() && p@.subrange(0, root.len() as int) == root@),
{
    if root.len() > p.len() {
        return false;
    }
    let mut k: usize = 0;
    while k < root.len()
        invariant
            root.len() <= p.len(),
            k <= root.len(),
            forall|m: int| 0 <= m < k ==> p@[m] == root@[m],
        decreases root.len() - k,
    {
        if p[k] != root[k] {
            assert(p@.subrange(0, root.len() as int)[k as int] != root@[k as int]);
            return false;
        }
        k = k + 1;
    }
    assert(p@.subrange(0, root.len() as int) =~= root@);
    true
}

/// A path relative to the project root, as [`relative_to`] defines it.
pub fn relative_path(root: &Vec<char>, p: &Vec<char>) -> (r: String)
    ensures
        r@ == relative_to(root@, p@),
{
    if root.len() <= p.len() {
        let mut k: usize = 0;
        while k < root.len()
            invariant
                root.len() <= p.len(),
                k <= root.len(),
                forall|m: int| 0 <= m < k ==> p@[m] == root@[m],
            decreases root.len() - k,
        {
            if p[k] != root[k] {
                assert(p@.subrange(0, root.len() as int)[k as int] != root@[k as int]);
                return string_of(p, 0, p.len());
            }
            k = k + 1;
        }
        assert(p@.subrange(0, root.len() as int) =~= root@);
        string_of(p, root.len(), p.len())
    } else {
        string_of(p, 0, p.len())
    }
}

impl Walker {
    pub closed spec fn wf(&self) -> bool {
        &&& forall|k: int| 0 <= k < self.ignores.len() ==> (#[trigger] self.ignores[k]).wf()
        &&& forall|k: int| 0 <= k < self.allows.len() ==> (#[trigger] self.allows[k]).wf()
    }

    /// Starts a walk at the project root.
    pub fn new(root: String, ignores: Vec<FilePattern>, allows: Vec<FilePattern>) -> (r: Walker)
        requires
            forall|k: int| 0 <= k < ignores.len() ==> (#[trigger] ignores[k]).wf(),
            forall|k: int| 0 <= k < allows.len() ==> (#[trigger] allows[k]).wf(),
        ensures
            r.wf(),
            r@.root == root@,
            r@.ignores == patterns_view(ignores@),
            r@.allows == patterns_view(allows@),
            r@.pending == seq![root@],
            r@.files == Seq::<Seq<char>>::empty(),
    {
        let first = root.clone();
        let r = Walker { root, ignores, allows, pending: vec![first], files: Vec::new() };
        assert(r@.pending =~= seq![r@.root]);
        assert(r@.files =~= Seq::<Seq<char>>::empty());
        r
    }

    /// What the walk does with an entry at `path` of the given kind.
    pub fn classify(&self, path: &str, kind: EntryKind) -> (r: EntryAction)
        requires
            self.wf(),
        ensures
            r == action_of(self@.root, self@.ignores, self@.allows, path@, kind),
    {
        let root = chars_of(self.root.as_str());
        let p = chars_of(path);
        let rel = relative_path(&root, &p);
        let relc = chars_of(rel.as_str());
        if !any_pattern_matches(&self.allows, rel.as_str()) {
            if hidden(&relc) || any_pattern_matches(&self.ignores, rel.as_str()) {
                return EntryAction::Ignore;
            }
        }
        match kind {
            EntryKind::Symlink => EntryAction::SkipSymlink,
            EntryKind::Dir => EntryAction::Descend,
            EntryKind::File => EntryAction::Collect,
        }
    }

    /// Hands out the next directory to list, if any is left.
    pub fn next_dir(&mut self) -> (r: Option<String>)
        ensures
            final(self).wf() == old(self).wf(),
            final(self)@.root == old(self)@.root,
            final(self)@.ignores == old(self)@.ignores,
            final(self)@.allows == old(self)@.allows,
            final(self)@.files == old(self)@.files,
            old(self)@.pending.len() == 0 ==> r is None && final(self)@.pending == old(self)@.pending,
            old(self)@.pending.len() > 0 ==> (r matches Some(d) && d@ == old(self)@.pending.last()
                && final(self)@.pending == old(self)@.pending.drop_last()),
    {
        let r = self.pending.pop();
        proof {
            if old(self)@.pending.len() > 0 {
                assert(self@.pending =~= old(self)@.pending.drop_last());
            } else {
                assert(self@.pending =~= old(self)@.pending);
            }
        }
        r
    }

    /// Takes in the listing of a directory handed out by [`Walker::next_dir`]: regular
    /// files that are visible are collected, visible directories are queued.
    pub fn visit(&mut self, entries: Vec<DirEntry>)
        requires
            old(self).wf(),
        ensures
            final(self).wf(),
            final(self)@.root == old(self)@.root,
            final(self)@.ignores == old(self)@.ignores,
            final(self)@.allows == old(self)@.allows,
            final(self)@.files == old(self)@.files + with_action(
                old(self)@.root,
                old(self)@.ignores,
                old(self)@.allows,
                entries_view(entries@),
                EntryAction::Collect,
            ),
            final(self)@.pending == old(self)@.pending + with_action(
                old(self)@.root,
                old(self)@.ignores,
                old(self)@.allows,
                entries_view(entries@),
                EntryAction::Descend,
            ),
    {
        let ghost v = self@;
        let ghost ev = entries_view(entries@);
        let mut k: usize = 0;
        while k < entries.len()
            invariant
                k <= entries.len(),
                ev == entries_view(entries@),
                self.wf(),
                self@.root == v.root,
                self@.ignores == v.ignores,
                self@.allows == v.allows,
                self@.files == v.files + with_action(
                    v.root,
                    v.ignores,
                    v.allows,
                    ev.subrange(0, k as int),
                    EntryAction::Collect,
                ),
                self@.pending == v.pending + with_action(
                    v.root,
                    v.ignores,
                    v.allows,
                    ev.subrange(0, k as int),
                    EntryAction::Descend,
                ),
            decreases entries.len() - k,
        {
            let ghost before = self@;
            let e = &entries[k];
            proof {
                assert(ev.subrange(0, k + 1).drop_last() =~= ev.subrange(0, k as int));
                assert(ev.subrange(0, k + 1).last() == (e.path@, e.kind));
            }
            let action = self.classify(e.path.as_str(), e.kind);
            match action {
                EntryAction::Collect => {
                    self.files.push(e.path.clone());
                    assert(self@.files =~= before.files.push(e.path@));
                },
                EntryAction::Descend => {
                    self.pending.push(e.path.clone());
                    assert(self@.pending =~= before.pending.push(e.path@));
                },
                _ => {},
            }
            k = k + 1;
            proof {
                assert(self@.files =~= v.files + with_action(
                    v.root,
                    v.ignores,
                    v.allows,
                    ev.subrange(0, k as int),
                    EntryAction::Collect,
                ));
                assert(self@.pending =~= v.pending + with_action(
                    v.root,
                    v.ignores,
                    v.allows,
                    ev.subrange(0, k as int),
                    EntryAction::Descend,
                ));
            }
        }
        assert(ev.subrange(0, k as int) =~= ev);
    }

    /// Ends the walk: the files found, in the order found.
    pub fn into_files(self) -> (r: Vec<String>)
        ensures
            r@.map_values(|s: String| s@) == self@.files,
    {
        self.files
    }
}

/// Files matching an allow pattern are collected from a listing even when they are
/// hidden or match an ignore pattern.
pub proof fn lemma_allowed_files_collected(
    root: Seq<char>,
    ignores: Seq<Seq<char>>,
    allows: Seq<Seq<char>>,
    entries: Seq<(Seq<char>, EntryKind)>,
    k: int,
)
    requires
        0 <= k < entries.len(),
        entries[k].1 == EntryKind::File,
        any_matches(allows, relative_to(root, entries[k].0)),
    ensures
        with_action(root, ignores, allows, entries, EntryAction::Collect).contains(entries[k].0),
{
    lemma_visible_files_collected(root, ignores, allows, entries, k);
}

/// A visible file whose extension is not in the registry is still discovered, but no
/// language is detected for it: no file event is dispatched for it, and it is never
/// parsed.
pub proof fn lemma_unknown_extension_discovered(
    root: Seq<char>,
    ignores: Seq<Seq<char>>,
    allows: Seq<Seq<char>>,
    entries: Seq<(Seq<char>, EntryKind)>,
    k: int,
)
    requires
        0 <= k < entries.len(),
        entries[k].1 == EntryKind::File,
        visible(relative_to(root, entries[k].0), ignores, allows),
        extension_of(entries[k].0) matches Some(e) ==> language_of_extension(e) is None,
    ensures
        with_action(root, ignores, allows, entries, EntryAction::Collect).contains(entries[k].0),
        language_of_path(entries[k].0) is None,
{
    lemma_visible_files_collected(root, ignores, allows, entries, k);
}

/// Every visible regular file of a listing is collected, whatever its extension.
pub proof fn lemma_visible_files_collected(
    root: Seq<char>,
    ignores: Seq<Seq<char>>,
    allows: Seq<Seq<char>>,
    entries: Seq<(Seq<char>, EntryKind)>,
    k: int,
)
    requires
        0 <= k < entries.len(),
        entries[k].1 == EntryKind::File,
        visible(relative_to(root, entries[k].0), ignores, allows),
    ensures
        with_action(root, ignores, allows, entries, EntryAction::Collect).contains(entries[k].0),
    decreases entries.len(),
{
    let w = with_action(root, ignores, allows, entries, EntryAction::Collect);
    if k == entries.len() - 1 {
        assert(w.last() == entries[k].0);
    } else {
        lemma_visible_files_collected(root, ignores, allows, entries.drop_last(), k);
        let w0 = with_action(root, ignores, allows, entries.drop_last(), EntryAction::Collect);
        let m = choose|m: int| 0 <= m < w0.len() && w0[m] == entries[k].0;
        assert(w[m] == entries[k].0);
    }
}

} // verus!
