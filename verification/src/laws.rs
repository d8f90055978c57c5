//! Properties of the explorer that span several operations.
use vstd::prelude::*;

use crate::action::Action;
use crate::app::{normal_action, search_action, AppState, EffectView, KeyCode, KeyEvent, Mode, Screen};
use crate::directory::{
    entry_keys, filter_indices, is_filter_result, is_prefix, listed_entry, matches_query,
    parent_name, DirectoryView, EntryView, ListedView, NavigationView,
};
use crate::order::{is_stable_order, lemma_stable_order_unique};
use crate::preview::PreviewView;
use crate::text::{contains, lowercase, occurs_at};

verus! {

/// Moving down and then up returns to the same entry, unless the selection
/// was already on the last entry.
pub proof fn law_move_down_then_up(d: DirectoryView)
    requires
        d.selected < d.last_index(),
    ensures
        d.moved_down().moved_up() == d,
{
}

/// Moving up and then down returns to the same entry, unless the selection
/// was already on the first entry.
pub proof fn law_move_up_then_down(d: DirectoryView)
    requires
        d.wf(),
        d.entries.len() <= usize::MAX,
        d.selected > 0,
    ensures
        d.moved_up().moved_down() == d,
{
}

/// At the sandbox root neither going back nor entering the `../` directory
/// entry leaves the directory.
pub proof fn law_sandbox_root_is_a_floor(d: DirectoryView)
    requires
        d.at_sandbox_root(),
    ensures
        d.went_back() == (d, false),
        d.selected_entry() matches Some(e) && e.is_dir && e.name == parent_name() ==> d.entered() == (
            d,
            NavigationView::Stay,
        ),
{
}

/// With the sandbox on, the current directory is always the sandbox root or
/// below it, whatever is entered or left.
pub proof fn law_sandbox_contains_navigation(d: DirectoryView)
    requires
        d.wf(),
        d.sandbox_enabled,
    ensures
        is_prefix(d.sandbox_root, d.current_dir),
        is_prefix(d.sandbox_root, d.entered().0.current_dir),
        is_prefix(d.sandbox_root, d.went_back().0.current_dir),
{
    let (e, _) = d.entered();
    let (b, _) = d.went_back();
    if !d.at_sandbox_root() && d.current_dir.len() > 0 {
        assert(d.sandbox_root.len() < d.current_dir.len()) by {
            if d.sandbox_root.len() == d.current_dir.len() {
                assert(d.current_dir =~= d.current_dir.subrange(0, d.sandbox_root.len() as int));
            }
        }
        assert(d.current_dir.drop_last().subrange(0, d.sandbox_root.len() as int)
            =~= d.current_dir.subrange(0, d.sandbox_root.len() as int));
    }
    match d.selected_entry() {
        Some(x) => {
            assert(d.entries[d.selected as int] == x);
        },
        None => {},
    }
}

/// Right after a directory is listed, entering one of its subdirectories and
/// going back returns to it.
pub proof fn law_enter_then_back(
    before: DirectoryView,
    after: DirectoryView,
    listing: Seq<ListedView>,
)
    requires
        before.wf(),
        before.reloaded(after, listing),
        after.selected_entry() matches Some(e) && e.is_dir && e.name != parent_name(),
    ensures
        after.entered().1 == NavigationView::ChangedDir,
        after.entered().0.went_back().1,
        after.entered().0.went_back().0.current_dir == after.current_dir,
{
    let h: int = if before.shows_parent() {
        1
    } else {
        0
    };
    let cur = before.current_dir;
    let mapped = listing.map_values(|l: ListedView| listed_entry(cur, l));
    let perm = choose|perm: Seq<int>|
        #[trigger] is_stable_order(perm, entry_keys(mapped)) && after.entries.skip(h)
            == perm.map_values(|j: int| mapped[j]);
    let e = after.entries[after.selected as int];
    assert(after.selected >= h);
    let t = after.selected - h;
    assert(after.entries.skip(h)[t] == e);
    assert(e == mapped[perm[t]]);
    let l = listing[perm[t]];
    assert(e.path == cur.push(l.0));
    let d = after.moved_to(e.path);
    assert(after.entered().0 == d);
    if before.sandbox_enabled {
        assert(d.sandbox_root != d.current_dir);
    }
    assert(d.current_dir.drop_last() =~= cur);
}

/// Listing a directory is a function of what it holds: two listings of the
/// same items are the same, entry for entry, down to the selection.
pub proof fn law_listing_is_determined(
    before: DirectoryView,
    a1: DirectoryView,
    a2: DirectoryView,
    listing: Seq<ListedView>,
)
    requires
        before.reloaded(a1, listing),
        before.reloaded(a2, listing),
    ensures
        a1 == a2,
{
    let h: int = if before.shows_parent() {
        1
    } else {
        0
    };
    let cur = before.current_dir;
    let mapped = listing.map_values(|l: ListedView| listed_entry(cur, l));
    let p1 = choose|perm: Seq<int>|
        #[trigger] is_stable_order(perm, entry_keys(mapped)) && a1.entries.skip(h)
            == perm.map_values(|j: int| mapped[j]);
    let p2 = choose|perm: Seq<int>|
        #[trigger] is_stable_order(perm, entry_keys(mapped)) && a2.entries.skip(h)
            == perm.map_values(|j: int| mapped[j]);
    lemma_stable_order_unique(p1, p2, entry_keys(mapped));
    assert(a1.entries.skip(h) == a2.entries.skip(h));
    assert forall|i: int| 0 <= i < a1.entries.len() implies a1.entries[i] == a2.entries[i] by {
        if i >= h {
            assert(a1.entries.skip(h)[i - h] == a2.entries.skip(h)[i - h]);
        }
    }
    assert(a1.entries =~= a2.entries);
}

/// A search keeps exactly the entries whose lowercase name contains the
/// lowercase query, in listing order; the empty query keeps all of them.
pub proof fn law_search_is_exact(entries: Seq<EntryView>, query: Seq<char>)
    requires
        entries.len() <= usize::MAX,
    ensures
        is_filter_result(entries, query, filter_indices(entries, query)),
        query.len() == 0 ==> filter_indices(entries, query) == Seq::new(
            entries.len(),
            |i: int| i as usize,
        ),
    decreases entries.len(),
{
    let r = filter_indices(entries, query);
    if entries.len() > 0 {
        let init = entries.drop_last();
        let n = entries.len() - 1;
        law_search_is_exact(init, query);
        let rest = filter_indices(init, query);
        assert forall|i: int| 0 <= i < entries.len() implies (matches_query(
            #[trigger] entries[i].name,
            query,
        ) <==> r.contains(i as usize)) by {
            if i < n {
                assert(init[i] == entries[i]);
                if rest.contains(i as usize) {
                    let w = choose|w: int| 0 <= w < rest.len() && rest[w] == i as usize;
                    assert(r[w] == i as usize);
                }
                if r.contains(i as usize) {
                    let w = choose|w: int| 0 <= w < r.len() && r[w] == i as usize;
                    if w < rest.len() {
                        assert(rest[w] == i as usize);
                    }
                }
            } else {
                if matches_query(entries[i].name, query) {
                    assert(r[r.len() - 1] == i as usize);
                } else if r.contains(i as usize) {
                    let w = choose|w: int| 0 <= w < r.len() && r[w] == i as usize;
                    assert(rest[w] < init.len());
                }
            }
        }
        if query.len() == 0 {
            assert(r =~= Seq::new(entries.len(), |i: int| i as usize));
        }
    } else {
        if query.len() == 0 {
            assert(r =~= Seq::new(entries.len(), |i: int| i as usize));
        }
    }
}

/// Typing more of a query never adds matches: when the lowercase longer
/// query contains the lowercase shorter one, every entry that the longer
/// query keeps, the shorter one keeps too. (An empty longer query is left
/// out: that `lowercase` maps the empty string to the empty string is known
/// only of the results of `to_lowercase`.)
pub proof fn law_longer_query_narrows(entries: Seq<EntryView>, q1: Seq<char>, q2: Seq<char>, i: usize)
    requires
        entries.len() <= usize::MAX,
        contains(lowercase(q2), lowercase(q1)),
        q2.len() > 0 || q1.len() == 0,
        filter_indices(entries, q2).contains(i),
    ensures
        filter_indices(entries, q1).contains(i),
{
    law_search_is_exact(entries, q1);
    law_search_is_exact(entries, q2);
    let r2 = filter_indices(entries, q2);
    let w = choose|w: int| 0 <= w < r2.len() && r2[w] == i;
    assert(r2[w] < entries.len());
    let k = i as int;
    assert(matches_query(entries[k].name, q2));
    if q1.len() > 0 {
        let hay = lowercase(entries[k].name);
        let a = choose|a: int| #[trigger] occurs_at(hay, lowercase(q2), a);
        let b = choose|b: int| #[trigger] occurs_at(lowercase(q2), lowercase(q1), b);
        assert(occurs_at(hay, lowercase(q1), a + b)) by {
            assert(hay.subrange(a + b, a + b + lowercase(q1).len()) =~= lowercase(q2).subrange(
                b,
                b + lowercase(q1).len(),
            ));
        }
    }
    assert(matches_query(entries[k].name, q1));
}

/// Typing a character into the search and deleting it again restores the
/// query, and the matches are those of the restored query.
pub proof fn law_search_input_then_backspace(s: AppState, c: char)
    ensures
        ({
            let s2 = s.executed(Action::SearchInput(c)).0.executed(Action::SearchBackspace).0;
            &&& s2.search_query == s.search_query
            &&& s2.filtered_indices == filter_indices(s.directory.entries, s.search_query)
            &&& s2.directory.entries == s.directory.entries
            &&& s2.mode == s.mode
        }),
{
    assert(s.search_query.push(c).drop_last() =~= s.search_query);
}

/// Leaving the search clears the query and the matches and returns to normal
/// mode; the listing is left as it is.
pub proof fn law_exit_search(s: AppState)
    ensures
        ({
            let (s2, e) = s.executed(Action::ExitMode);
            &&& s2.mode == Mode::Normal
            &&& s2.search_query.len() == 0
            &&& s2.filtered_indices.len() == 0
            &&& s2.directory == s.directory
            &&& e == EffectView::Nothing
        }),
{
}

/// Pressing `g` twice in normal mode goes to the top and leaves nothing
/// pending.
pub proof fn law_gg_goes_to_top(s: AppState, control: bool)
    requires
        s.mode == Mode::Normal,
        !s.pending_g,
    ensures
        ({
            let g = KeyEvent { code: KeyCode::Char('g'), control };
            let (s1, a1) = s.key_handled(g);
            let (s2, a2) = s1.key_handled(g);
            &&& a1 == Action::NoOp
            &&& s1.pending_g
            &&& a2 == Action::GoToTop
            &&& s2 == s
        }),
{
}

/// A key press decides an action and changes nothing but the pending `g`.
pub proof fn law_keys_only_touch_pending_g(s: AppState, key: KeyEvent)
    ensures
        s.key_handled(key).0 == (AppState { pending_g: s.key_handled(key).0.pending_g, ..s }),
{
}

/// After a single `g`, any other key cancels the pending `g` and acts as it
/// would have without it.
pub proof fn law_pending_g_cancelled(s: AppState, key: KeyEvent)
    requires
        s.mode == Mode::Normal,
        s.pending_g,
        key.code != KeyCode::Char('g'),
    ensures
        s.key_handled(key) == (AppState { pending_g: false, ..s }, normal_action(key)),
{
}

/// In search mode every character is typed into the query, even those bound
/// to commands in normal mode; Escape and Enter leave the search.
pub proof fn law_search_mode_keys(s: AppState, key: KeyEvent)
    requires
        s.mode == Mode::Search,
    ensures
        s.key_handled(key) == (s, search_action(key)),
        key.code matches KeyCode::Char(c) ==> s.key_handled(key).1 == Action::SearchInput(c),
        key.code == KeyCode::Esc ==> s.key_handled(key).1 == Action::ExitMode,
        key.code == KeyCode::Enter ==> s.key_handled(key).1 == Action::ExitMode,
{
}

/// From the preview, both Back and TogglePreview return to the directory
/// view and change nothing else.
pub proof fn law_leave_preview(s: AppState)
    requires
        s.screen == Screen::Preview,
    ensures
        s.executed(Action::Back) == (AppState { screen: Screen::Directory, ..s }, EffectView::Nothing),
        s.executed(Action::TogglePreview) == (
            AppState { screen: Screen::Directory, ..s },
            EffectView::Nothing,
        ),
{
}

/// `q`, and Control-C, quit from normal mode; executing Quit marks the app
/// to quit.
pub proof fn law_quit(s: AppState)
    requires
        s.mode == Mode::Normal,
        !s.pending_g,
    ensures
        s.key_handled(KeyEvent { code: KeyCode::Char('q'), control: false }).1 == Action::Quit,
        s.key_handled(KeyEvent { code: KeyCode::Char('c'), control: true }).1 == Action::Quit,
        s.executed(Action::Quit).0.should_quit,
{
}

/// Scrolling the preview down and then up returns to the same offset.
pub proof fn law_scroll_down_then_up(p: PreviewView)
    requires
        p.scroll_offset < usize::MAX,
    ensures
        p.scrolled_down().scrolled_up() == p,
{
}

} // verus!
