//! What each operation does, stated over its inputs and results: moving the
//! selection, going back, entering, the command-line flags, the key table
//! and the choice of syntax for a preview.
use vstd::prelude::*;

use crate::action::Action;
use crate::app::{dimmed, status_label, AppState, EffectView, KeyCode, KeyEvent, Mode, Screen, StatusMode};
use crate::laws::law_search_is_exact;
use crate::config::{apply_arg, parse_from, parsed_cli, resolved, CliView};
use crate::directory::{
    filter_indices, listed_entry, DirectoryView, EntryView, ListedView, NavigationView,
};
use crate::order::{is_stable_order, key_lt};
use crate::preview::{load_outcome, visible_window, FileProbe, LoadStep, PreviewContent, PreviewView};
use crate::text::{contains, lex_lt, lowercase};
use crate::highlight::{
    extension_of, extension_syntax, first_line_syntax, fresh_highlighter, highlight_from,
    named_syntax, named_theme, Highlighting,
};

verus! {

/// `b` is the listing `a` with at most the selection and the scroll changed.
pub open spec fn same_listing(a: DirectoryView, b: DirectoryView) -> bool {
    &&& a.current_dir == b.current_dir
    &&& a.sandbox_root == b.sandbox_root
    &&& a.sandbox_enabled == b.sandbox_enabled
    &&& a.entries == b.entries
}

/// Moving down selects the next entry unless the selection is on (or past)
/// the last one; moving up selects the previous entry unless it is on the
/// first; the top is entry 0 with the scroll reset; the bottom is the last
/// entry (0 in an empty listing). Nothing else changes.
pub proof fn law_selection_moves(d: DirectoryView)
    requires
        d.entries.len() <= usize::MAX,
    ensures
        d.selected + 1 < d.entries.len() ==> d.moved_down().selected == d.selected + 1,
        d.selected + 1 >= d.entries.len() ==> d.moved_down().selected == d.selected,
        d.selected > 0 ==> d.moved_up().selected == d.selected - 1,
        d.selected == 0 ==> d.moved_up().selected == 0,
        d.at_top().selected == 0,
        d.at_top().scroll_offset == 0,
        d.entries.len() > 0 ==> d.at_bottom().selected == d.entries.len() - 1,
        d.entries.len() == 0 ==> d.at_bottom().selected == 0,
        same_listing(d.moved_down(), d) && d.moved_down().scroll_offset == d.scroll_offset,
        same_listing(d.moved_up(), d) && d.moved_up().scroll_offset == d.scroll_offset,
        same_listing(d.at_top(), d),
        same_listing(d.at_bottom(), d) && d.at_bottom().scroll_offset == d.scroll_offset,
{
}

/// Going back from a directory that has a parent and is not the sandbox
/// root (with the sandbox on) always moves to the parent, whatever entry is
/// selected: the selection and the scroll go to the top, the listing must be
/// read again, and nothing else changes.
pub proof fn law_back_goes_to_parent(d: DirectoryView)
    requires
        d.current_dir.len() > 0,
        !(d.sandbox_enabled && d.current_dir == d.sandbox_root),
    ensures
        d.went_back().1,
        d.went_back().0.current_dir == d.current_dir.subrange(0, d.current_dir.len() - 1),
        d.went_back().0.selected == 0,
        d.went_back().0.scroll_offset == 0,
        d.went_back().0.entries == d.entries,
        d.went_back().0.sandbox_root == d.sandbox_root,
        d.went_back().0.sandbox_enabled == d.sandbox_enabled,
{
    assert(d.current_dir.drop_last() =~= d.current_dir.subrange(0, d.current_dir.len() - 1));
}

/// At the file-system root, or at the sandbox root with the sandbox on,
/// going back changes nothing.
pub proof fn law_back_blocked(d: DirectoryView)
    requires
        d.current_dir.len() == 0 || (d.sandbox_enabled && d.current_dir == d.sandbox_root),
    ensures
        d.went_back() == (d, false),
{
}

/// Entering: with nothing selected nothing happens; a selected file is named
/// for preview and nothing changes, at every selection index; a selected
/// directory other than `../` becomes the current directory, the selection
/// and scroll go to the top and the listing must be read again; `../` goes
/// back as going back does.
pub proof fn law_enter(d: DirectoryView)
    ensures
        d.selected >= d.entries.len() ==> d.entered() == (d, NavigationView::Stay),
        d.selected < d.entries.len() && !d.entries[d.selected as int].is_dir ==> d.entered() == (
            d,
            NavigationView::OpenFile(d.entries[d.selected as int].path),
        ),
        d.selected < d.entries.len() && d.entries[d.selected as int].is_dir
            && d.entries[d.selected as int].name != seq!['.', '.', '/'] ==> {
            &&& d.entered().1 == NavigationView::ChangedDir
            &&& d.entered().0.current_dir == d.entries[d.selected as int].path
            &&& d.entered().0.selected == 0
            &&& d.entered().0.scroll_offset == 0
            &&& d.entered().0.entries == d.entries
            &&& d.entered().0.sandbox_root == d.sandbox_root
            &&& d.entered().0.sandbox_enabled == d.sandbox_enabled
        },
        d.selected < d.entries.len() && d.entries[d.selected as int].is_dir
            && d.entries[d.selected as int].name == seq!['.', '.', '/'] ==> {
            &&& d.entered().0 == d.went_back().0
            &&& d.entered().1 == (if d.went_back().1 {
                NavigationView::ChangedDir
            } else {
                NavigationView::Stay
            })
        },
{
}

/// In the listing, Enter on a selected file asks for its preview and Back
/// from below the roots asks for the parent's listing; the bottom is the
/// last entry.
pub proof fn law_listing_actions(s: AppState)
    requires
        s.screen == Screen::Directory,
        s.directory.entries.len() <= usize::MAX,
    ensures
        s.directory.selected < s.directory.entries.len() && !s.directory.entries[s.directory.selected as int].is_dir
            ==> s.executed(Action::Enter) == (
            s,
            EffectView::LoadPreview(s.directory.entries[s.directory.selected as int].path),
        ),
        s.directory.current_dir.len() > 0 && !(s.directory.sandbox_enabled
            && s.directory.current_dir == s.directory.sandbox_root) ==> {
            &&& s.executed(Action::Back).1 == EffectView::ReadDirectory
            &&& s.executed(Action::Back).0.directory.current_dir == s.directory.current_dir.drop_last()
        },
        s.directory.entries.len() > 0 ==> s.executed(Action::GoToBottom).0.directory.selected
            == s.directory.entries.len() - 1,
{
    law_enter(s.directory);
    if s.directory.current_dir.len() > 0 && !(s.directory.sandbox_enabled
        && s.directory.current_dir == s.directory.sandbox_root) {
        law_back_goes_to_parent(s.directory);
        assert(s.directory.current_dir.drop_last() =~= s.directory.current_dir.subrange(
            0,
            s.directory.current_dir.len() - 1,
        ));
    }
    law_selection_moves(s.directory);
}

/// The keys of normal mode, as the key table gives them, in any state with
/// no `g` pending: `j`/Down, `k`/Up, `l`/Enter/Right, `h`/`-`/Left, `G`,
/// Tab/`p`, `/` and `q`.
pub proof fn law_key_table(s: AppState, control: bool)
    requires
        s.mode == Mode::Normal,
        !s.pending_g,
    ensures
        s.key_handled(KeyEvent { code: KeyCode::Char('j'), control }).1 == Action::MoveDown,
        s.key_handled(KeyEvent { code: KeyCode::Down, control }).1 == Action::MoveDown,
        s.key_handled(KeyEvent { code: KeyCode::Char('k'), control }).1 == Action::MoveUp,
        s.key_handled(KeyEvent { code: KeyCode::Up, control }).1 == Action::MoveUp,
        s.key_handled(KeyEvent { code: KeyCode::Char('l'), control }).1 == Action::Enter,
        s.key_handled(KeyEvent { code: KeyCode::Enter, control }).1 == Action::Enter,
        s.key_handled(KeyEvent { code: KeyCode::Right, control }).1 == Action::Enter,
        s.key_handled(KeyEvent { code: KeyCode::Char('h'), control }).1 == Action::Back,
        s.key_handled(KeyEvent { code: KeyCode::Char('-'), control }).1 == Action::Back,
        s.key_handled(KeyEvent { code: KeyCode::Left, control }).1 == Action::Back,
        s.key_handled(KeyEvent { code: KeyCode::Char('G'), control }).1 == Action::GoToBottom,
        s.key_handled(KeyEvent { code: KeyCode::Tab, control }).1 == Action::TogglePreview,
        s.key_handled(KeyEvent { code: KeyCode::Char('p'), control }).1 == Action::TogglePreview,
        s.key_handled(KeyEvent { code: KeyCode::Char('/'), control }).1 == Action::EnterSearch,
        s.key_handled(KeyEvent { code: KeyCode::Char('q'), control }).1 == Action::Quit,
{
}

/// The effect of each flag does not depend on what came before it: `-s` and
/// `--sandbox` turn the sandbox on, `-S` and `--no-sandbox` turn it off,
/// `-h` and `--help` ask for help, and nothing else changes.
pub proof fn law_flags(c: CliView)
    ensures
        apply_arg(c, "-s"@) == Ok::<CliView, Seq<char>>(CliView { sandbox: Some(true), ..c }),
        apply_arg(c, "--sandbox"@) == Ok::<CliView, Seq<char>>(
            CliView { sandbox: Some(true), ..c },
        ),
        apply_arg(c, "-S"@) == Ok::<CliView, Seq<char>>(CliView { sandbox: Some(false), ..c }),
        apply_arg(c, "--no-sandbox"@) == Ok::<CliView, Seq<char>>(
            CliView { sandbox: Some(false), ..c },
        ),
        apply_arg(c, "-h"@) == Ok::<CliView, Seq<char>>(CliView { help: true, ..c }),
        apply_arg(c, "--help"@) == Ok::<CliView, Seq<char>>(CliView { help: true, ..c }),
{
    reveal_strlit("-s");
    reveal_strlit("--sandbox");
    reveal_strlit("-S");
    reveal_strlit("--no-sandbox");
    reveal_strlit("-h");
    reveal_strlit("--help");
    assert("-s"@ =~= seq!['-', 's']);
    assert("-S"@ =~= seq!['-', 'S']);
    assert("-h"@ =~= seq!['-', 'h']);
    assert("--sandbox"@ =~= seq!['-', '-', 's', 'a', 'n', 'd', 'b', 'o', 'x']);
    assert("--no-sandbox"@ =~= seq!['-', '-', 'n', 'o', '-', 's', 'a', 'n', 'd', 'b', 'o', 'x']);
    assert("--help"@ =~= seq!['-', '-', 'h', 'e', 'l', 'p']);
    assert("-S"@[1] != "-s"@[1]);
    assert("-h"@[1] != "-s"@[1] && "-h"@[1] != "-S"@[1]);
    assert("--help"@[2] != "--sandbox"@[2]);
}

/// An argument that does not start with `-` is the starting directory, and
/// any other argument that is not a known flag is refused; wherever it stands.
pub proof fn law_directory_and_unknown_arguments(c: CliView, a: Seq<char>)
    ensures
        a.len() == 0 || a[0] != '-' ==> apply_arg(c, a) == Ok::<CliView, Seq<char>>(
            CliView { directory: Some(a), ..c },
        ),
        a.len() > 0 && a[0] == '-' && a != "-s"@ && a != "--sandbox"@ && a != "-S"@ && a
            != "--no-sandbox"@ && a != "-h"@ && a != "--help"@ ==> apply_arg(c, a) == Err::<
            CliView,
            Seq<char>,
        >(a),
{
    reveal_strlit("-s");
    reveal_strlit("--sandbox");
    reveal_strlit("-S");
    reveal_strlit("--no-sandbox");
    reveal_strlit("-h");
    reveal_strlit("--help");
}

proof fn lemma_parse_push(c: CliView, args: Seq<Seq<char>>, a: Seq<char>)
    ensures
        parse_from(c, args.push(a)) == match parse_from(c, args) {
            Ok(c2) => apply_arg(c2, a),
            Err(e) => Err(e),
        },
    decreases args.len(),
{
    if args.len() == 0 {
        assert(args.push(a)[0] == a);
        assert(args.push(a).drop_first() =~= Seq::<Seq<char>>::empty());
        match apply_arg(c, a) {
            Ok(c2) => {
                assert(parse_from(c2, Seq::<Seq<char>>::empty()) == Ok::<CliView, Seq<char>>(c2));
            },
            Err(_) => {},
        }
    } else {
        assert(args.push(a)[0] == args[0]);
        assert(args.push(a).drop_first() =~= args.drop_first().push(a));
        match apply_arg(c, args[0]) {
            Ok(c2) => lemma_parse_push(c2, args.drop_first(), a),
            Err(_) => {},
        }
    }
}

/// One more argument at the end acts on what the arguments before it gave,
/// and a refused argument ends the parse: so a later flag overrides an
/// earlier one, whatever stands between them.
pub proof fn law_parse_appends(args: Seq<Seq<char>>, a: Seq<char>)
    ensures
        parsed_cli(args.push(a)) == match parsed_cli(args) {
            Ok(c) => apply_arg(c, a),
            Err(e) => Err(e),
        },
{
    lemma_parse_push(CliView { directory: None, sandbox: None, help: false }, args, a);
}

/// A syntax found for the whole file name as an extension wins; otherwise
/// one found for the name's extension; otherwise one found for the first
/// line; otherwise plain text.
pub proof fn law_syntax_choice(h: Highlighting, name: Seq<char>, line: Seq<char>)
    ensures
        extension_syntax(h.syntax_set(), name) is Some ==> h.chosen_syntax(name, line)
            == extension_syntax(h.syntax_set(), name)->0,
        extension_syntax(h.syntax_set(), name) is None && extension_syntax(
            h.syntax_set(),
            extension_of(name),
        ) is Some ==> h.chosen_syntax(name, line) == extension_syntax(
            h.syntax_set(),
            extension_of(name),
        )->0,
        extension_syntax(h.syntax_set(), name) is None && extension_syntax(
            h.syntax_set(),
            extension_of(name),
        ) is None && first_line_syntax(h.syntax_set(), line) is Some ==> h.chosen_syntax(name, line)
            == first_line_syntax(h.syntax_set(), line)->0,
        extension_syntax(h.syntax_set(), name) is None && extension_syntax(
            h.syntax_set(),
            extension_of(name),
        ) is None && first_line_syntax(h.syntax_set(), line) is None ==> h.chosen_syntax(name, line)
            == named_syntax(h.syntax_set(), "Plain Text"@)->0,
{
}

/// Previews are highlighted with the theme `base16-ocean.dark`, starting
/// from a fresh highlighter for the chosen syntax, the first line of the
/// text choosing the syntax.
pub proof fn law_preview_theme(h: Highlighting, name: Seq<char>, lines: Seq<Seq<char>>)
    requires
        lines.len() > 0,
    ensures
        h.highlighted(name, lines) == highlight_from(
            fresh_highlighter(
                h.chosen_syntax(name, lines[0]),
                named_theme(h.theme_set(), "base16-ocean.dark"@)->0,
            ),
            lines,
            h.syntax_set(),
        ),
{
}

/// The extension of a name is what follows its last `.`, when the name has
/// something before that `.`.
pub proof fn law_extension(stem: Seq<char>, ext: Seq<char>)
    requires
        stem.len() > 0,
        !ext.contains('.'),
    ensures
        extension_of(stem + seq!['.'] + ext) == ext,
{
    let name = stem + seq!['.'] + ext;
    let d = stem.len() as int;
    assert(name[d] == '.');
    assert(forall|j: int| d < j < name.len() ==> name[j] == ext[j - d - 1]);
    assert(forall|j: int| d < j < name.len() ==> name[j] != '.') by {
        assert forall|j: int| d < j < name.len() implies name[j] != '.' by {
            if name[j] == '.' {
                assert(ext[j - d - 1] == '.');
                assert(ext.contains('.'));
            }
        }
    }
    let c = choose|c: int|
        0 < c < name.len() && name[c] == '.' && forall|j: int| c < j < name.len() ==> name[j] != '.';
    assert(c == d) by {
        if c < d {
            assert(name[d] != '.');
        }
    }
    assert(name.skip(d + 1) =~= ext);
}

/// A name with no `.` after its first character has no extension.
pub proof fn law_no_extension(name: Seq<char>)
    requires
        forall|i: int| 0 < i < name.len() ==> name[i] != '.',
    ensures
        extension_of(name) == Seq::<char>::empty(),
{
}

/// Loading a preview: a directory shows as such; a file of more than
/// 1 MiB (1048576 bytes) shows as too large; a file of at most 1 MiB must
/// have its text read, the content left as it was until then; unreadable
/// metadata fails, the content left as it was.
pub proof fn law_load(content: PreviewContent, probe: FileProbe, size: u64)
    ensures
        load_outcome(content, FileProbe::Directory) == (PreviewContent::Directory, LoadStep::Done),
        size > 1048576 ==> load_outcome(content, FileProbe::File(size)) == (
            PreviewContent::TooLarge,
            LoadStep::Done,
        ),
        size <= 1048576 ==> load_outcome(content, FileProbe::File(size)) == (
            content,
            LoadStep::ReadText,
        ),
        load_outcome(content, FileProbe::Unavailable) == (content, LoadStep::Failed),
{
}

/// Scrolling the preview moves it by one line, down up to the largest
/// offset and up down to 0; the top is offset 0; nothing else changes.
pub proof fn law_scrolling(p: PreviewView)
    ensures
        p.scroll_offset < usize::MAX ==> p.scrolled_down().scroll_offset == p.scroll_offset + 1,
        p.scroll_offset == usize::MAX ==> p.scrolled_down().scroll_offset == usize::MAX,
        p.scroll_offset > 0 ==> p.scrolled_up().scroll_offset == p.scroll_offset - 1,
        p.scroll_offset == 0 ==> p.scrolled_up().scroll_offset == 0,
        p.at_top().scroll_offset == 0,
        p.scrolled_down().path == p.path && p.scrolled_down().content == p.content,
        p.scrolled_up().path == p.path && p.scrolled_up().content == p.content,
        p.at_top().path == p.path && p.at_top().content == p.content,
{
}

/// The search keeps entry `i` exactly when the query is empty or the
/// lowercase name contains the lowercase query.
pub proof fn law_search_keeps(entries: Seq<EntryView>, query: Seq<char>, i: int)
    requires
        entries.len() <= usize::MAX,
        0 <= i < entries.len(),
    ensures
        filter_indices(entries, query).contains(i as usize) <==> (query.len() == 0 || contains(
            lowercase(entries[i].name),
            lowercase(query),
        )),
{
    law_search_is_exact(entries, query);
    assert(crate::directory::matches_query(entries[i].name, query) <==> filter_indices(
        entries,
        query,
    ).contains(i as usize));
}

/// Typing a character in the search appends it to the query, lists the
/// matches of the new query, and selects the first of them if there is one.
pub proof fn law_search_input(s: AppState, c: char)
    ensures
        s.executed(Action::SearchInput(c)).0.search_query == s.search_query.push(c),
        s.executed(Action::SearchInput(c)).0.filtered_indices == filter_indices(
            s.directory.entries,
            s.search_query.push(c),
        ),
        filter_indices(s.directory.entries, s.search_query.push(c)).len() > 0 ==> s.executed(
            Action::SearchInput(c),
        ).0.directory.selected == filter_indices(s.directory.entries, s.search_query.push(c))[0],
        filter_indices(s.directory.entries, s.search_query.push(c)).len() == 0 ==> s.executed(
            Action::SearchInput(c),
        ).0.directory == s.directory,
        s.executed(Action::SearchInput(c)).1 == EffectView::Nothing,
{
}

/// Backspace in the search drops the last character of the query (none
/// when it is empty) and lists the matches again, leaving the selection.
pub proof fn law_search_backspace(s: AppState)
    ensures
        s.search_query.len() > 0 ==> s.executed(Action::SearchBackspace).0.search_query
            == s.search_query.subrange(0, s.search_query.len() - 1),
        s.search_query.len() == 0 ==> s.executed(Action::SearchBackspace).0.search_query.len() == 0,
        s.executed(Action::SearchBackspace).0.directory == s.directory,
        s.executed(Action::SearchBackspace).0.filtered_indices == filter_indices(
            s.directory.entries,
            s.executed(Action::SearchBackspace).0.search_query,
        ),
{
    if s.search_query.len() > 0 {
        assert(s.search_query.drop_last() =~= s.search_query.subrange(
            0,
            s.search_query.len() - 1,
        ));
    }
}

/// Starting a search enters search mode with an empty query and every
/// entry listed as a match.
pub proof fn law_enter_search(s: AppState)
    requires
        s.directory.entries.len() <= usize::MAX,
    ensures
        s.executed(Action::EnterSearch).0.mode == Mode::Search,
        s.executed(Action::EnterSearch).0.search_query.len() == 0,
        s.executed(Action::EnterSearch).0.filtered_indices == Seq::new(
            s.directory.entries.len(),
            |i: int| i as usize,
        ),
        s.executed(Action::EnterSearch).0.directory == s.directory,
{
    law_search_is_exact(s.directory.entries, Seq::empty());
}

/// In search mode Backspace deletes a character of the query.
pub proof fn law_search_backspace_key(s: AppState, control: bool)
    requires
        s.mode == Mode::Search,
    ensures
        s.key_handled(KeyEvent { code: KeyCode::Backspace, control }).1 == Action::SearchBackspace,
        s.key_handled(KeyEvent { code: KeyCode::Char('q'), control }).1 == Action::SearchInput('q'),
{
}

/// In the listing, TogglePreview on a selected file asks for its preview and
/// changes nothing; on a directory or with nothing selected it does nothing.
/// Quit marks the app to quit and changes nothing else.
pub proof fn law_toggle_and_quit(s: AppState)
    requires
        s.screen == Screen::Directory,
    ensures
        s.directory.selected < s.directory.entries.len() && !s.directory.entries[s.directory.selected as int].is_dir
            ==> s.executed(Action::TogglePreview) == (
            s,
            EffectView::LoadPreview(s.directory.entries[s.directory.selected as int].path),
        ),
        !(s.directory.selected < s.directory.entries.len() && !s.directory.entries[s.directory.selected as int].is_dir)
            ==> s.executed(Action::TogglePreview) == (s, EffectView::Nothing),
        s.executed(Action::Quit) == (AppState { should_quit: true, ..s }, EffectView::Nothing),
{
}

/// `e` is the entry for item `l` of directory `dir`: named as listed, with
/// `/` after a directory's name, at the directory's path plus that name.
pub open spec fn entry_for(e: EntryView, dir: Seq<Seq<char>>, l: ListedView) -> bool {
    &&& e.name == (if l.1 {
        l.0 + seq!['/']
    } else {
        l.0
    })
    &&& e.path == dir + seq![l.0]
    &&& e.is_dir == l.1
}

/// Entry `parent_rows(before) + k` of `after` is the entry for item
/// `items[k]` of `listing`, for every `k`: `items` tells which listed item
/// each entry after the parent entry shows.
pub open spec fn lists_items(
    before: DirectoryView,
    after: DirectoryView,
    listing: Seq<ListedView>,
    items: Seq<int>,
) -> bool {
    &&& items.len() == listing.len()
    &&& forall|k: int, l: int| 0 <= k < l < items.len() ==> items[k] != items[l]
    &&& forall|k: int|
        0 <= k < listing.len() ==> 0 <= #[trigger] items[k] < listing.len() && entry_for(
            after.entries[parent_rows(before) + k],
            before.current_dir,
            listing[items[k]],
        )
}

/// 1 when a listing of `d` starts with the entry to the parent: `d` is
/// neither the file-system root nor the sandbox root with the sandbox on.
pub open spec fn parent_rows(d: DirectoryView) -> int {
    if d.current_dir.len() > 0 && !(d.sandbox_enabled && d.current_dir == d.sandbox_root) {
        1
    } else {
        0
    }
}

/// Right after a listing: the entry to the parent comes first exactly when
/// the directory is neither the file-system root nor the sandbox root with
/// the sandbox on; every other entry is a listed item (each item once), named
/// as listed with `/` after a directory's name, at the directory's path plus
/// that name; the selection stays, or moves to the last entry if past it;
/// directories come before files, and within each the lowercase names do
/// not go down in code-point order.
pub proof fn law_listing_shape(before: DirectoryView, after: DirectoryView, listing: Seq<ListedView>)
    requires
        before.reloaded(after, listing),
    ensures
        after.entries.len() == parent_rows(before) + listing.len(),
        after.current_dir == before.current_dir,
        after.scroll_offset == before.scroll_offset,
        before.selected < after.entries.len() ==> after.selected == before.selected,
        before.selected >= after.entries.len() && after.entries.len() > 0 ==> after.selected
            == after.entries.len() - 1,
        after.entries.len() == 0 ==> after.selected == 0,
        parent_rows(before) == 1 ==> after.entries[0].name == seq!['.', '.', '/']
            && after.entries[0].is_dir,
        exists|items: Seq<int>| #[trigger] lists_items(before, after, listing, items),
        forall|k: int, l: int|
            parent_rows(before) <= k < l < after.entries.len() && (#[trigger] after.entries[l]).is_dir
                ==> (#[trigger] after.entries[k]).is_dir,
        forall|k: int, l: int|
            parent_rows(before) <= k < l < after.entries.len() && (#[trigger] after.entries[l]).is_dir
                == (#[trigger] after.entries[k]).is_dir ==> !lex_lt(
                lowercase(after.entries[l].name),
                lowercase(after.entries[k].name),
            ),
{
    let h: int = if before.shows_parent() {
        1
    } else {
        0
    };
    let cur = before.current_dir;
    let mapped = listing.map_values(|l: ListedView| listed_entry(cur, l));
    let perm = choose|perm: Seq<int>|
        #[trigger] is_stable_order(perm, crate::directory::entry_keys(mapped)) && after.entries.skip(h)
            == perm.map_values(|j: int| mapped[j]);
    let out = after.entries.skip(h);
    assert(h == parent_rows(before));
    assert(after.entries.len() == h + listing.len());
    if h == 1 {
        assert(after.entries[0] == crate::directory::parent_entry());
    }
    assert forall|k: int| 0 <= k < listing.len() implies 0 <= #[trigger] perm[k] < listing.len()
        && entry_for(after.entries[parent_rows(before) + k], before.current_dir, listing[perm[k]]) by {
        assert(out[k] == after.entries[h + k]);
        let j = perm[k];
        assert(after.entries[h + k] == mapped[j]);
        assert(listing[j].0.push('/') =~= listing[j].0 + seq!['/']);
        assert(cur.push(listing[j].0) =~= cur + seq![listing[j].0]);
    }
    assert(lists_items(before, after, listing, perm));
    assert forall|k: int, l: int|
        h <= k < l < after.entries.len() && after.entries[l].is_dir implies after.entries[k].is_dir by {
        assert(out[k - h] == after.entries[k]);
        assert(out[l - h] == after.entries[l]);
        assert(!key_lt(crate::directory::entry_key(out[l - h]), crate::directory::entry_key(out[k - h])));
    }
    assert forall|k: int, l: int|
        h <= k < l < after.entries.len() && after.entries[l].is_dir == after.entries[k].is_dir
            implies !lex_lt(lowercase(after.entries[l].name), lowercase(after.entries[k].name)) by {
        assert(out[k - h] == after.entries[k]);
        assert(out[l - h] == after.entries[l]);
        assert(!key_lt(crate::directory::entry_key(out[l - h]), crate::directory::entry_key(out[k - h])));
    }
}

/// The command line wins over the config file, which wins over the default:
/// a directory given on the command line is the start, else the working
/// directory, else `.`; a sandbox flag given on the command line decides,
/// else the config file's setting.
pub proof fn law_resolution(cli: CliView, file_sandbox: bool, cwd: Option<Seq<char>>)
    ensures
        cli.directory matches Some(d) ==> resolved(cli, file_sandbox, cwd).0 == d,
        cli.directory is None ==> (cwd matches Some(w) ==> resolved(cli, file_sandbox, cwd).0 == w),
        cli.directory is None && cwd is None ==> resolved(cli, file_sandbox, cwd).0 == seq!['.'],
        cli.sandbox matches Some(b) ==> resolved(cli, file_sandbox, cwd).1 == b,
        cli.sandbox is None ==> resolved(cli, file_sandbox, cwd).1 == file_sandbox,
{
}

/// Pasting a path in normal mode asks to copy that file; executing the copy
/// changes nothing in the app and asks for the file to be copied into the
/// current directory.
pub proof fn law_paste_copies(s: AppState, text: String)
    ensures
        s.mode == Mode::Normal ==> s.paste_action(text) == Action::CopyFile(text),
        s.mode == Mode::Search ==> s.paste_action(text) == Action::NoOp,
        s.executed(Action::CopyFile(text)) == (
            s,
            EffectView::CopyFile(text@, s.directory.current_dir),
        ),
{
}

/// The preview shows the lines from the scroll offset on, at most `height`
/// of them, never past the last line; scrolled past the end it shows none.
pub proof fn law_visible_window(scroll: int, height: int, count: int)
    requires
        0 <= scroll,
        0 <= height,
        0 <= count,
    ensures
        0 <= visible_window(scroll, height, count).0 <= visible_window(scroll, height, count).1
            <= count,
        visible_window(scroll, height, count).1 - visible_window(scroll, height, count).0 <= height,
        scroll <= count ==> visible_window(scroll, height, count).0 == scroll,
        scroll + height <= count ==> visible_window(scroll, height, count).1 - visible_window(
            scroll,
            height,
            count,
        ).0 == height,
        scroll >= count ==> visible_window(scroll, height, count).0 == visible_window(
            scroll,
            height,
            count,
        ).1,
{
}

/// The status bar reads SEARCH in search mode, and otherwise NORMAL in the
/// listing and PREVIEW in the preview.
pub proof fn law_status_label(screen: Screen, mode: Mode)
    ensures
        status_label(Mode::Search, screen) == StatusMode::Search,
        status_label(Mode::Normal, Screen::Directory) == StatusMode::Normal,
        status_label(Mode::Normal, Screen::Preview) == StatusMode::Preview,
{
}

/// Outside search mode, or while nothing matches, no entry is dimmed; in a
/// search with matches exactly the entries that do not match are dimmed.
pub proof fn law_dimming(mode: Mode, filtered: Seq<usize>, i: usize)
    ensures
        mode == Mode::Normal ==> !dimmed(mode, filtered, i),
        filtered.len() == 0 ==> !dimmed(mode, filtered, i),
        mode == Mode::Search && filtered.len() > 0 ==> (dimmed(mode, filtered, i)
            <==> !filtered.contains(i)),
{
}

} // verus!
