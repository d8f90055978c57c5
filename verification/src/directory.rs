//! The state of a directory listing: where it is, what it lists, which entry is
//! selected, and how far navigation may go up when the sandbox is on.
//!
//! A path is held as its components below the file-system root: `/home/a` is
//! `["home", "a"]` and `/` is `[]`. Reading the file system is the caller's
//! part: `reload` takes what the directory holds.
use vstd::prelude::*;

use crate::order::{is_stable_order, key_lt, stable_order, SortKey};
use crate::text::{chars_of, contains, lowercase, push_char, seq_contains, string_of, to_lowercase};

verus! {

/// A path as its components below the root.
pub type PathView = Seq<Seq<char>>;

/// `a` is `b` or an ancestor of `b`.
pub open spec fn is_prefix(a: PathView, b: PathView) -> bool {
    a.len() <= b.len() && b.subrange(0, a.len() as int) == a
}

/// The name shown for the entry that leads to the parent directory: `../`.
pub open spec fn parent_name() -> Seq<char> {
    seq!['.', '.', '/']
}

/// A single entry in a directory listing.
#[derive(Debug, Clone)]
pub struct DirEntry {
    /// The file or directory name; a directory's name ends in `/`.
    pub name: String,
    /// The full path, as components.
    pub path: Vec<String>,
    /// Whether this is a directory.
    pub is_dir: bool,
}

/// A directory entry as plain values.
pub struct EntryView {
    pub name: Seq<char>,
    pub path: PathView,
    pub is_dir: bool,
}

impl View for DirEntry {
    type V = EntryView;

    open spec fn view(&self) -> EntryView {
        EntryView { name: self.name@, path: self.path.deep_view(), is_dir: self.is_dir }
    }
}

/// The entry that leads to the parent directory.
pub open spec fn parent_entry() -> EntryView {
    EntryView { name: parent_name(), path: seq![seq!['.', '.']], is_dir: true }
}

impl DirEntry {
    /// Create a parent directory entry ("../").
    pub fn parent() -> (e: DirEntry)
        ensures
            e@ == parent_entry(),
    {
        let name = string_of(&vec!['.', '.', '/']);
        let up = string_of(&vec!['.', '.']);
        let mut path: Vec<String> = Vec::new();
        path.push(up);
        let e = DirEntry { name, path, is_dir: true };
        assert(e@.name =~= parent_name());
        assert(e@.path =~= seq![seq!['.', '.']]);
        e
    }
}

/// An item of a directory as the file system lists it: its file name and
/// whether it is a directory.
pub struct ListedEntry {
    pub name: String,
    pub is_dir: bool,
}

/// A listed item as plain values: its name and whether it is a directory.
pub type ListedView = (Seq<char>, bool);

impl View for ListedEntry {
    type V = ListedView;

    open spec fn view(&self) -> ListedView {
        (self.name@, self.is_dir)
    }
}

/// The listed items as plain values.
pub open spec fn listing_view(listing: Seq<ListedEntry>) -> Seq<ListedView> {
    listing.map_values(|l: ListedEntry| l@)
}

/// The name shown for a listed item: a directory's name gets a trailing `/`.
pub open spec fn display_name(l: ListedView) -> Seq<char> {
    if l.1 {
        l.0.push('/')
    } else {
        l.0
    }
}

/// The entry for a listed item of directory `dir`.
pub open spec fn listed_entry(dir: PathView, l: ListedView) -> EntryView {
    EntryView { name: display_name(l), path: dir.push(l.0), is_dir: l.1 }
}

/// The sort key of an entry: directories first, then the lowercase name.
pub open spec fn entry_key(e: EntryView) -> SortKey {
    (e.is_dir, lowercase(e.name))
}

/// The sort keys of the entries of `s`.
pub open spec fn entry_keys(s: Seq<EntryView>) -> Seq<SortKey> {
    s.map_values(|e: EntryView| entry_key(e))
}

/// No entry of `s` sorts before one that precedes it.
pub open spec fn is_sorted(s: Seq<EntryView>) -> bool {
    forall|k: int, l: int|
        0 <= k < l < s.len() ==> !key_lt(entry_key(#[trigger] s[l]), entry_key(#[trigger] s[k]))
}

/// `out` holds the items of `inp` sorted by key, items with equal keys in the
/// order of `inp`.
pub open spec fn is_stable_sort_of(out: Seq<EntryView>, inp: Seq<EntryView>) -> bool {
    exists|perm: Seq<int>|
        #[trigger] is_stable_order(perm, entry_keys(inp))
            && out == perm.map_values(|j: int| inp[j])
}

/// Manages directory listing state.
#[derive(Debug)]
pub struct Directory {
    /// Current directory path.
    pub current_dir: Vec<String>,
    /// The directory where navigation is sandboxed - cannot go above this.
    pub sandbox_root: Vec<String>,
    /// Whether sandbox mode is enabled.
    pub sandbox_enabled: bool,
    /// Entries in the current directory.
    pub entries: Vec<DirEntry>,
    /// Currently selected index.
    pub selected: usize,
    /// Scroll offset for viewport.
    pub scroll_offset: usize,
}

/// A directory listing as plain values.
pub struct DirectoryView {
    pub current_dir: PathView,
    pub sandbox_root: PathView,
    pub sandbox_enabled: bool,
    pub entries: Seq<EntryView>,
    pub selected: usize,
    pub scroll_offset: usize,
}

impl View for Directory {
    type V = DirectoryView;

    open spec fn view(&self) -> DirectoryView {
        DirectoryView {
            current_dir: self.current_dir.deep_view(),
            sandbox_root: self.sandbox_root.deep_view(),
            sandbox_enabled: self.sandbox_enabled,
            entries: self.entries@.map_values(|e: DirEntry| e@),
            selected: self.selected,
            scroll_offset: self.scroll_offset,
        }
    }
}

/// What entering the selected entry asks of the caller.
pub enum Navigation {
    /// Nothing changed.
    Stay,
    /// The current directory changed; it must be listed again (`reload`).
    ChangedDir,
    /// The selected entry is a file at this path, to be previewed.
    OpenFile(Vec<String>),
}

/// The outcome of entering, as plain values.
pub enum NavigationView {
    Stay,
    ChangedDir,
    OpenFile(PathView),
}

impl View for Navigation {
    type V = NavigationView;

    open spec fn view(&self) -> NavigationView {
        match self {
            Navigation::Stay => NavigationView::Stay,
            Navigation::ChangedDir => NavigationView::ChangedDir,
            Navigation::OpenFile(p) => NavigationView::OpenFile(p.deep_view()),
        }
    }
}

/// A listing of directory `dir` before anything is listed in it.
pub open spec fn fresh_view(dir: PathView, sandbox_enabled: bool) -> DirectoryView {
    DirectoryView {
        current_dir: dir,
        sandbox_root: dir,
        sandbox_enabled,
        entries: Seq::empty(),
        selected: 0,
        scroll_offset: 0,
    }
}

impl DirectoryView {
    /// At the sandbox root with the sandbox on.
    pub open spec fn at_sandbox_root(self) -> bool {
        self.sandbox_enabled && self.current_dir == self.sandbox_root
    }

    /// The selection is an entry (or 0 when there is none), and with the
    /// sandbox on, the current directory and every entry that can be entered
    /// lie at or below the sandbox root.
    pub open spec fn wf(self) -> bool {
        &&& (self.selected == 0 || self.selected < self.entries.len())
        &&& self.sandbox_enabled ==> is_prefix(self.sandbox_root, self.current_dir)
        &&& self.sandbox_enabled ==> forall|k: int|
            0 <= k < self.entries.len() && (#[trigger] self.entries[k]).name != parent_name()
                ==> is_prefix(self.sandbox_root, self.entries[k].path)
    }

    /// The index of the last entry, or 0 when there is none.
    pub open spec fn last_index(self) -> usize {
        if self.entries.len() == 0 {
            0
        } else {
            (self.entries.len() - 1) as usize
        }
    }

    /// The entry at the selection, if there is one.
    pub open spec fn selected_entry(self) -> Option<EntryView> {
        if self.selected < self.entries.len() {
            Some(self.entries[self.selected as int])
        } else {
            None
        }
    }

    pub open spec fn moved_down(self) -> DirectoryView {
        if self.selected < self.last_index() {
            DirectoryView { selected: (self.selected + 1) as usize, ..self }
        } else {
            self
        }
    }

    pub open spec fn moved_up(self) -> DirectoryView {
        if self.selected > 0 {
            DirectoryView { selected: (self.selected - 1) as usize, ..self }
        } else {
            self
        }
    }

    pub open spec fn at_top(self) -> DirectoryView {
        DirectoryView { selected: 0, scroll_offset: 0, ..self }
    }

    pub open spec fn at_bottom(self) -> DirectoryView {
        DirectoryView { selected: self.last_index(), ..self }
    }

    /// The listing moved to directory `dir`, selection and scroll at the top.
    pub open spec fn moved_to(self, dir: PathView) -> DirectoryView {
        DirectoryView { current_dir: dir, selected: 0, scroll_offset: 0, ..self }
    }

    /// The state after going to the parent directory, and whether it changed.
    pub open spec fn went_back(self) -> (DirectoryView, bool) {
        if !self.at_sandbox_root() && self.current_dir.len() > 0 {
            (self.moved_to(self.current_dir.drop_last()), true)
        } else {
            (self, false)
        }
    }

    /// The state after entering the selected entry, and what the caller must do.
    pub open spec fn entered(self) -> (DirectoryView, NavigationView) {
        match self.selected_entry() {
            None => (self, NavigationView::Stay),
            Some(e) => if e.is_dir {
                if e.name == parent_name() {
                    let (d, changed) = self.went_back();
                    (d, if changed {
                        NavigationView::ChangedDir
                    } else {
                        NavigationView::Stay
                    })
                } else {
                    (self.moved_to(e.path), NavigationView::ChangedDir)
                }
            } else {
                (self, NavigationView::OpenFile(e.path))
            },
        }
    }

    /// Whether the listing starts with the entry to the parent directory.
    pub open spec fn shows_parent(self) -> bool {
        self.current_dir.len() > 0 && !self.at_sandbox_root()
    }

    /// `after` is this state listed again with the items `listing`: the
    /// parent entry first (unless at the file-system root or the sandbox
    /// root), then the items sorted, directories first, then by lowercase
    /// name; the selection is kept, or moved to the last entry if it is past it.
    pub open spec fn reloaded(self, after: DirectoryView, listing: Seq<ListedView>) -> bool {
        let h: int = if self.shows_parent() {
            1
        } else {
            0
        };
        &&& after.current_dir == self.current_dir
        &&& after.sandbox_root == self.sandbox_root
        &&& after.sandbox_enabled == self.sandbox_enabled
        &&& after.scroll_offset == self.scroll_offset
        &&& after.entries.len() == h + listing.len()
        &&& h == 1 ==> after.entries[0] == parent_entry()
        &&& is_sorted(after.entries.skip(h))
        &&& is_stable_sort_of(
            after.entries.skip(h),
            listing.map_values(|l: ListedView| listed_entry(self.current_dir, l)),
        )
        &&& after.selected == (if self.selected >= after.entries.len() {
            after.last_index()
        } else {
            self.selected
        })
    }
}

/// Whether the entry named `name` is kept by the search `query`: an empty
/// query keeps everything, another keeps names whose lowercase form contains
/// the lowercase query.
pub open spec fn matches_query(name: Seq<char>, query: Seq<char>) -> bool {
    query.len() == 0 || contains(lowercase(name), lowercase(query))
}

/// The indices of the entries that `query` keeps, in increasing order.
pub open spec fn filter_indices(entries: Seq<EntryView>, query: Seq<char>) -> Seq<usize>
    decreases entries.len(),
{
    if entries.len() == 0 {
        Seq::empty()
    } else {
        let rest = filter_indices(entries.drop_last(), query);
        if matches_query(entries.last().name, query) {
            rest.push((entries.len() - 1) as usize)
        } else {
            rest
        }
    }
}

/// `r` holds, in increasing order, exactly the indices of the entries that
/// `query` keeps.
pub open spec fn is_filter_result(entries: Seq<EntryView>, query: Seq<char>, r: Seq<usize>) -> bool {
    &&& forall|k: int| 0 <= k < r.len() ==> #[trigger] r[k] < entries.len()
    &&& forall|k: int, l: int| 0 <= k < l < r.len() ==> r[k] < r[l]
    &&& forall|i: int|
        0 <= i < entries.len() ==> (matches_query(#[trigger] entries[i].name, query) <==> r.contains(
            i as usize,
        ))
}

/// A copy of a path.
pub fn clone_path(p: &Vec<String>) -> (r: Vec<String>)
    ensures
        r.deep_view() == p.deep_view(),
{
    let mut r: Vec<String> = Vec::new();
    let mut i: usize = 0;
    while i < p.len()
        invariant
            i <= p.len(),
            r.deep_view() =~= p.deep_view().take(i as int),
        decreases p.len() - i,
    {
        let ghost before = r.deep_view();
        let c = p[i].clone();
        r.push(c);
        assert(r.deep_view() =~= before.push(p.deep_view()[i as int]));
        assert(p.deep_view().take(i + 1) =~= p.deep_view().take(i as int).push(
            p.deep_view()[i as int],
        ));
        i = i + 1;
    }
    assert(p.deep_view().take(p.len() as int) =~= p.deep_view());
    r
}

/// Whether two paths are equal.
pub fn paths_equal(a: &Vec<String>, b: &Vec<String>) -> (r: bool)
    ensures
        r == (a.deep_view() == b.deep_view()),
{
    if a.len() != b.len() {
        return false;
    }
    let mut i: usize = 0;
    while i < a.len()
        invariant
            i <= a.len(),
            a.len() == b.len(),
            a.deep_view().take(i as int) =~= b.deep_view().take(i as int),
        decreases a.len() - i,
    {
        if a[i] != b[i] {
            assert(a.deep_view()[i as int] != b.deep_view()[i as int]);
            return false;
        }
        i = i + 1;
    }
    assert(a.deep_view() =~= a.deep_view().take(a.len() as int));
    assert(b.deep_view() =~= b.deep_view().take(b.len() as int));
    true
}

/// Whether `name` is `../`.
fn is_parent_name(name: &String) -> (r: bool)
    ensures
        r == (name@ == parent_name()),
{
    let cs = chars_of(name.as_str());
    let r = cs.len() == 3 && cs[0] == '.' && cs[1] == '.' && cs[2] == '/';
    if r {
        assert(cs@ =~= parent_name());
    }
    r
}

proof fn lemma_prefix_push(a: PathView, b: PathView, x: Seq<char>)
    requires
        is_prefix(a, b),
    ensures
        is_prefix(a, b.push(x)),
{
    assert(b.push(x).subrange(0, a.len() as int) =~= b.subrange(0, a.len() as int));
}

impl Directory {
    /// Returns true if at sandbox root and sandbox is enabled.
    pub fn is_at_sandbox_root(&self) -> (r: bool)
        ensures
            r == self@.at_sandbox_root(),
    {
        self.sandbox_enabled && paths_equal(&self.current_dir, &self.sandbox_root)
    }

    /// Move selection down.
    pub fn move_down(&mut self)
        ensures
            final(self)@ == old(self)@.moved_down(),
            old(self)@.wf() ==> final(self)@.wf(),
    {
        let last = if self.entries.len() == 0 {
            0
        } else {
            self.entries.len() - 1
        };
        if self.selected < last {
            self.selected = self.selected + 1;
        }
    }

    /// Move selection up.
    pub fn move_up(&mut self)
        ensures
            final(self)@ == old(self)@.moved_up(),
            old(self)@.wf() ==> final(self)@.wf(),
    {
        if self.selected > 0 {
            self.selected = self.selected - 1;
        }
    }

    /// Go to first entry.
    pub fn go_to_top(&mut self)
        ensures
            final(self)@ == old(self)@.at_top(),
            old(self)@.wf() ==> final(self)@.wf(),
    {
        self.selected = 0;
        self.scroll_offset = 0;
        assert(self@.entries == old(self)@.entries);
    }

    /// Go to last entry.
    pub fn go_to_bottom(&mut self)
        ensures
            final(self)@ == old(self)@.at_bottom(),
            old(self)@.wf() ==> final(self)@.wf(),
    {
        self.selected = if self.entries.len() == 0 {
            0
        } else {
            self.entries.len() - 1
        };
    }

    /// Get the currently selected entry.
    pub fn selected_entry(&self) -> (r: Option<&DirEntry>)
        ensures
            r is Some <==> self@.selected_entry() is Some,
            r matches Some(e) ==> self@.selected_entry() == Some(e@),
    {
        if self.selected < self.entries.len() {
            Some(&self.entries[self.selected])
        } else {
            None
        }
    }

    /// Go to the parent directory, unless at the sandbox root (sandbox on)
    /// or at the file-system root. Returns whether the directory changed, in
    /// which case it must be listed again with `reload`.
    pub fn go_back(&mut self) -> (changed: bool)
        ensures
            (final(self)@, changed) == old(self)@.went_back(),
            old(self)@.wf() ==> final(self)@.wf(),
    {
        if self.is_at_sandbox_root() {
            return false;
        }
        if self.current_dir.len() > 0 {
            let ghost before = self.current_dir.deep_view();
            self.current_dir.pop();
            assert(self.current_dir.deep_view() =~= before.drop_last());
            self.selected = 0;
            self.scroll_offset = 0;
            proof {
                let v = old(self)@;
                if v.sandbox_enabled && v.wf() {
                    assert(v.sandbox_root.len() < v.current_dir.len()) by {
                        if v.sandbox_root.len() == v.current_dir.len() {
                            assert(v.current_dir =~= v.current_dir.subrange(
                                0,
                                v.sandbox_root.len() as int,
                            ));
                        }
                    }
                    assert(before.drop_last().subrange(0, v.sandbox_root.len() as int)
                        =~= before.subrange(0, v.sandbox_root.len() as int));
                }
                assert(self@.entries == v.entries);
            }
            return true;
        }
        false
    }

    /// Enter the selected directory, or name the selected file to preview.
    /// Entering `../` goes to the parent directory as `go_back` does.
    pub fn enter(&mut self) -> (r: Navigation)
        ensures
            (final(self)@, r@) == old(self)@.entered(),
            old(self)@.wf() ==> final(self)@.wf(),
    {
        if self.selected >= self.entries.len() {
            return Navigation::Stay;
        }
        let is_dir = self.entries[self.selected].is_dir;
        if is_dir {
            if is_parent_name(&self.entries[self.selected].name) {
                if self.go_back() {
                    Navigation::ChangedDir
                } else {
                    Navigation::Stay
                }
            } else {
                let p = clone_path(&self.entries[self.selected].path);
                let ghost e = self@.entries[self.selected as int];
                self.current_dir = p;
                self.selected = 0;
                self.scroll_offset = 0;
                proof {
                    let v = old(self)@;
                    assert(v.entries[v.selected as int] == e);
                }
                Navigation::ChangedDir
            }
        } else {
            let p = clone_path(&self.entries[self.selected].path);
            Navigation::OpenFile(p)
        }
    }

    /// Create a listing of directory `current_dir` (the path as the file
    /// system resolves it), which is also the sandbox root, holding the items
    /// `listing` that the directory contains.
    pub fn new(current_dir: Vec<String>, sandbox_enabled: bool, listing: Vec<ListedEntry>) -> (d:
        Directory)
        ensures
            fresh_view(current_dir.deep_view(), sandbox_enabled).reloaded(d@, listing_view(listing@)),
            d@.wf(),
    {
        let root = clone_path(&current_dir);
        let mut d = Directory {
            current_dir,
            sandbox_root: root,
            sandbox_enabled,
            entries: Vec::new(),
            selected: 0,
            scroll_offset: 0,
        };
        assert(d@.entries =~= Seq::<EntryView>::empty());
        assert(d@.current_dir.subrange(0, d@.sandbox_root.len() as int) =~= d@.current_dir);
        assert(d@.wf());
        d.reload(listing);
        d
    }

    /// List the current directory again from `listing`, the items that it
    /// contains as the file system reports them.
    pub fn reload(&mut self, listing: Vec<ListedEntry>)
        ensures
            old(self)@.reloaded(final(self)@, listing_view(listing@)),
            old(self)@.wf() ==> final(self)@.wf(),
    {
        let show_parent = self.current_dir.len() > 0 && !self.is_at_sandbox_root();
        let mut entries: Vec<DirEntry> = Vec::new();
        if show_parent {
            entries.push(DirEntry::parent());
        }
        let ghost h: int = if show_parent { 1 } else { 0 };
        let ghost cur = self@.current_dir;
        let ghost lv = listing_view(listing@);
        let ghost mapped = lv.map_values(|l: ListedView| listed_entry(cur, l));
        let n = listing.len();
        let mut names: Vec<String> = Vec::new();
        let mut keys: Vec<(bool, Vec<char>)> = Vec::new();
        let mut j: usize = 0;
        while j < n
            invariant
                n == listing.len(),
                lv == listing_view(listing@),
                mapped == lv.map_values(|l: ListedView| listed_entry(cur, l)),
                j <= n,
                names.len() == j,
                keys.len() == j,
                forall|q: int| 0 <= q < j ==> (#[trigger] names@[q])@ == display_name(lv[q]),
                forall|q: int|
                    0 <= q < j ==> (#[trigger] keys@[q]).0 == lv[q].1 && keys@[q].1@ == lowercase(
                        display_name(lv[q]),
                    ),
            decreases n - j,
        {
            let mut name = listing[j].name.clone();
            if listing[j].is_dir {
                push_char(&mut name, '/');
            }
            let low = to_lowercase(name.as_str());
            let low_chars = chars_of(low.as_str());
            keys.push((listing[j].is_dir, low_chars));
            names.push(name);
            j = j + 1;
        }
        assert(crate::order::key_view(keys@) =~= entry_keys(mapped));
        let order = stable_order(&keys);
        let ghost perm = crate::order::index_view(order@);
        let m = order.len();
        let mut k: usize = 0;
        while k < m
            invariant
                m == order.len(),
                m == n,
                n == listing.len(),
                names.len() == n,
                lv == listing_view(listing@),
                mapped == lv.map_values(|l: ListedView| listed_entry(cur, l)),
                cur == self@.current_dir,
                forall|q: int| 0 <= q < n ==> (#[trigger] names@[q])@ == display_name(lv[q]),
                is_stable_order(perm, entry_keys(mapped)),
                perm == crate::order::index_view(order@),
                k <= m,
                0 <= h <= 1,
                entries.len() == h + k,
                h == 1 ==> entries@[0]@ == parent_entry(),
                forall|t: int| 0 <= t < k ==> (#[trigger] entries@[h + t])@ == mapped[perm[t]],
            decreases m - k,
        {
            let q = order[k];
            assert(perm[k as int] == q as int);
            let mut path = clone_path(&self.current_dir);
            let ghost before = path.deep_view();
            path.push(listing[q].name.clone());
            assert(path.deep_view() =~= cur.push(lv[q as int].0));
            let e = DirEntry { name: names[q].clone(), path, is_dir: listing[q].is_dir };
            assert(e@ == mapped[perm[k as int]]);
            let ghost prev = entries@;
            entries.push(e);
            assert forall|t: int| 0 <= t < k + 1 implies (#[trigger] entries@[h + t])@
                == mapped[perm[t]] by {
                if t < k {
                    assert(entries@[h + t] == prev[h + t]);
                }
            }
            k = k + 1;
        }
        let ghost out = entries@.map_values(|e: DirEntry| e@).skip(h);
        assert(out =~= perm.map_values(|q: int| mapped[q])) by {
            assert forall|t: int| 0 <= t < out.len() implies out[t] == perm.map_values(
                |q: int| mapped[q],
            )[t] by {
                assert(entries@[h + t]@ == mapped[perm[t]]);
            }
        }
        assert(is_sorted(out)) by {
            assert forall|a: int, b: int| 0 <= a < b < out.len() implies !key_lt(
                entry_key(#[trigger] out[b]),
                entry_key(#[trigger] out[a]),
            ) by {
                assert(entry_keys(mapped)[perm[a]] == entry_key(out[a]));
                assert(entry_keys(mapped)[perm[b]] == entry_key(out[b]));
            }
        }
        self.entries = entries;
        if self.selected >= self.entries.len() {
            self.selected = if self.entries.len() == 0 {
                0
            } else {
                self.entries.len() - 1
            };
        }
        proof {
            let v = self@;
            assert(v.entries.skip(h) == out);
            assert(is_stable_order(perm, entry_keys(mapped)) && out == perm.map_values(
                |q: int| mapped[q],
            ));
            if h == 1 {
                assert(v.entries[0] == parent_entry());
            }
            if old(self)@.wf() && v.sandbox_enabled {
                assert forall|i: int|
                    0 <= i < v.entries.len() && (#[trigger] v.entries[i]).name
                        != parent_name() implies is_prefix(v.sandbox_root, v.entries[i].path) by {
                    let t = i - h;
                    assert(out[t] == v.entries[i]);
                    assert(out[t] == mapped[perm[t]]);
                    lemma_prefix_push(v.sandbox_root, cur, lv[perm[t]].0);
                }
            }
        }
    }

    /// Filter entries by search query, returning matching indices.
    pub fn filter(&self, query: &str) -> (r: Vec<usize>)
        ensures
            is_filter_result(self@.entries, query@, r@),
            r@ == filter_indices(self@.entries, query@),
    {
        let mut r: Vec<usize> = Vec::new();
        let n = self.entries.len();
        let ghost es = self@.entries;
        let empty = query.is_empty();
        let lowered = to_lowercase(query);
        let q = chars_of(lowered.as_str());
        let mut i: usize = 0;
        while i < n
            invariant
                n == self.entries.len(),
                es == self@.entries,
                empty == (query@.len() == 0),
                q@ == lowercase(query@),
                i <= n,
                r@ == filter_indices(es.take(i as int), query@),
                forall|k: int| 0 <= k < r.len() ==> #[trigger] r@[k] < i,
                forall|k: int, l: int| 0 <= k < l < r.len() ==> r@[k] < r@[l],
                forall|t: int|
                    0 <= t < i ==> (matches_query(#[trigger] es[t].name, query@) <==> r@.contains(
                        t as usize,
                    )),
            decreases n - i,
        {
            let keep = if empty {
                true
            } else {
                let name_low = to_lowercase(self.entries[i].name.as_str());
                let name_chars = chars_of(name_low.as_str());
                seq_contains(&name_chars, &q)
            };
            assert(keep == matches_query(es[i as int].name, query@));
            let ghost before = r@;
            assert(es.take(i + 1).drop_last() =~= es.take(i as int));
            assert(es.take(i + 1).last() == es[i as int]);
            if keep {
                r.push(i);
                assert(r@[r.len() - 1] == i);
            }
            proof {
                assert forall|t: int| 0 <= t < i + 1 implies (matches_query(
                    #[trigger] es[t].name,
                    query@,
                ) <==> r@.contains(t as usize)) by {
                    if t < i {
                        if before.contains(t as usize) {
                            let w = choose|w: int| 0 <= w < before.len() && before[w] == t as usize;
                            assert(r@[w] == t as usize);
                        }
                        if r@.contains(t as usize) {
                            let w = choose|w: int| 0 <= w < r@.len() && r@[w] == t as usize;
                            if w < before.len() {
                                assert(before[w] == t as usize);
                            }
                        }
                    } else {
                        if r@.contains(t as usize) && !keep {
                            let w = choose|w: int| 0 <= w < r@.len() && r@[w] == t as usize;
                            assert(before[w] < i);
                        }
                    }
                }
            }
            i = i + 1;
        }
        assert(es.take(n as int) =~= es);
        r
    }
}

} // verus!
