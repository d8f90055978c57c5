//! The application state: key handling and the execution of actions.
//!
//! `execute` makes every decision of an action and tells the caller, by an
//! `Effect`, which file-system work the action still needs; the caller does
//! it and hands the result back (`Directory::reload`, `Preview::load`,
//! `Preview::set_text`, `App::show_preview`).
use vstd::prelude::*;

use crate::action::Action;
use crate::directory::{
    clone_path, filter_indices, is_filter_result, Directory, DirectoryView, Navigation,
    NavigationView, PathView,
};
use crate::preview::{Preview, PreviewContent, PreviewView};
use crate::text::{pop_char, push_char};

verus! {

/// Application mode.
#[derive(Debug, Clone, Copy, PartialEq, Eq, Structural)]
pub enum Mode {
    /// Normal navigation mode.
    Normal,
    /// Search mode (filtering by filename).
    Search,
}

/// Current view.
#[derive(Debug, Clone, Copy, PartialEq, Eq, Structural)]
pub enum Screen {
    /// Directory listing view.
    Directory,
    /// File preview view.
    Preview,
}

/// A key of the keyboard, as far as the application tells keys apart.
#[derive(Debug, Clone, Copy, PartialEq, Eq)]
pub enum KeyCode {
    Char(char),
    Up,
    Down,
    Left,
    Right,
    Enter,
    Tab,
    Esc,
    Backspace,
    /// Any other key.
    Other,
}

/// A key press: the key, and whether Control was held.
#[derive(Debug, Clone, Copy, PartialEq, Eq)]
pub struct KeyEvent {
    pub code: KeyCode,
    pub control: bool,
}

/// File-system work that an executed action still needs.
#[derive(Debug, PartialEq, Eq)]
pub enum Effect {
    /// None.
    Nothing,
    /// The current directory changed: list it and hand the items to
    /// `Directory::reload`.
    ReadDirectory,
    /// Load the preview of this file (`Preview::load`, then `set_text` if
    /// asked), then `App::show_preview`.
    LoadPreview(Vec<String>),
    /// Copy the file at the path `.0` (as pasted) into the directory `.1`
    /// under its own file name, then list that directory again with
    /// `Directory::reload`.
    CopyFile(String, Vec<String>),
}

/// An effect as plain values.
pub enum EffectView {
    Nothing,
    ReadDirectory,
    LoadPreview(PathView),
    CopyFile(Seq<char>, PathView),
}

impl View for Effect {
    type V = EffectView;

    open spec fn view(&self) -> EffectView {
        match self {
            Effect::Nothing => EffectView::Nothing,
            Effect::ReadDirectory => EffectView::ReadDirectory,
            Effect::LoadPreview(p) => EffectView::LoadPreview(p.deep_view()),
            Effect::CopyFile(f, d) => EffectView::CopyFile(f@, d.deep_view()),
        }
    }
}

/// The label of the status bar: the mode, or in normal mode the view.
#[derive(Debug, Clone, Copy, PartialEq, Eq)]
pub enum StatusMode {
    Normal,
    Preview,
    Search,
}

/// The label of the status bar in `mode` on `screen`.
pub open spec fn status_label(mode: Mode, screen: Screen) -> StatusMode {
    match mode {
        Mode::Search => StatusMode::Search,
        Mode::Normal => match screen {
            Screen::Directory => StatusMode::Normal,
            Screen::Preview => StatusMode::Preview,
        },
    }
}

/// Whether entry `i` is shown dimmed: in search mode, when something
/// matches and `i` does not.
pub open spec fn dimmed(mode: Mode, filtered: Seq<usize>, i: usize) -> bool {
    mode == Mode::Search && filtered.len() > 0 && !filtered.contains(i)
}

/// Main application state.
#[derive(Debug)]
pub struct App {
    /// Whether the app should quit.
    pub should_quit: bool,
    /// Current mode.
    pub mode: Mode,
    /// Current view.
    pub screen: Screen,
    /// Directory listing state.
    pub directory: Directory,
    /// File preview state.
    pub preview: Preview,
    /// Search query.
    pub search_query: String,
    /// Filtered indices (when searching).
    pub filtered_indices: Vec<usize>,
    /// Pending 'g' key for gg command.
    pub pending_g: bool,
}

/// The application state as plain values.
pub struct AppState {
    pub should_quit: bool,
    pub mode: Mode,
    pub screen: Screen,
    pub directory: DirectoryView,
    pub preview: PreviewView,
    pub search_query: Seq<char>,
    pub filtered_indices: Seq<usize>,
    pub pending_g: bool,
}

impl View for App {
    type V = AppState;

    open spec fn view(&self) -> AppState {
        AppState {
            should_quit: self.should_quit,
            mode: self.mode,
            screen: self.screen,
            directory: self.directory@,
            preview: self.preview@,
            search_query: self.search_query@,
            filtered_indices: self.filtered_indices@,
            pending_g: self.pending_g,
        }
    }
}

/// The action of a key in normal mode, other than `g`.
pub open spec fn normal_action(key: KeyEvent) -> Action {
    match key.code {
        KeyCode::Char(c) => if c == 'j' {
            Action::MoveDown
        } else if c == 'k' {
            Action::MoveUp
        } else if c == 'G' {
            Action::GoToBottom
        } else if c == 'h' || c == '-' {
            Action::Back
        } else if c == 'l' {
            Action::Enter
        } else if c == 'p' {
            Action::TogglePreview
        } else if c == '/' {
            Action::EnterSearch
        } else if c == 'q' {
            Action::Quit
        } else if c == 'c' && key.control {
            Action::Quit
        } else {
            Action::NoOp
        },
        KeyCode::Down => Action::MoveDown,
        KeyCode::Up => Action::MoveUp,
        KeyCode::Left => Action::Back,
        KeyCode::Enter => Action::Enter,
        KeyCode::Right => Action::Enter,
        KeyCode::Tab => Action::TogglePreview,
        _ => Action::NoOp,
    }
}

/// The action of a key in search mode.
pub open spec fn search_action(key: KeyEvent) -> Action {
    match key.code {
        KeyCode::Esc => Action::ExitMode,
        KeyCode::Enter => Action::ExitMode,
        KeyCode::Backspace => Action::SearchBackspace,
        KeyCode::Char(c) => Action::SearchInput(c),
        _ => Action::NoOp,
    }
}

impl AppState {
    /// The directory listing keeps its invariant.
    pub open spec fn wf(self) -> bool {
        self.directory.wf()
    }

    /// A key in normal mode: `g` twice goes to the top; a single `g` waits
    /// for the next key, and any other key cancels the wait.
    pub open spec fn normal_key(self, key: KeyEvent) -> (AppState, Action) {
        if self.pending_g && key.code == KeyCode::Char('g') {
            (AppState { pending_g: false, ..self }, Action::GoToTop)
        } else if key.code == KeyCode::Char('g') {
            (AppState { pending_g: true, ..self }, Action::NoOp)
        } else {
            (AppState { pending_g: false, ..self }, normal_action(key))
        }
    }

    /// The action of pasted text: in normal mode, copy the file at the
    /// pasted path into the current directory; in search mode, nothing.
    pub open spec fn paste_action(self, text: String) -> Action {
        match self.mode {
            Mode::Normal => Action::CopyFile(text),
            Mode::Search => Action::NoOp,
        }
    }

    /// The state after a key, and the action that the key maps to.
    pub open spec fn key_handled(self, key: KeyEvent) -> (AppState, Action) {
        match self.mode {
            Mode::Normal => self.normal_key(key),
            Mode::Search => (self, search_action(key)),
        }
    }

    pub open spec fn with_directory(self, d: DirectoryView) -> AppState {
        AppState { directory: d, ..self }
    }

    pub open spec fn with_preview(self, p: PreviewView) -> AppState {
        AppState { preview: p, ..self }
    }

    pub open spec fn with_screen(self, s: Screen) -> AppState {
        AppState { screen: s, ..self }
    }

    /// Search with query `q`: the matches are listed again, and with
    /// `select_first` the selection moves to the first match if there is one.
    pub open spec fn searched(self, q: Seq<char>, select_first: bool) -> AppState {
        let f = filter_indices(self.directory.entries, q);
        AppState {
            search_query: q,
            filtered_indices: f,
            directory: if select_first && f.len() > 0 {
                DirectoryView { selected: f[0], ..self.directory }
            } else {
                self.directory
            },
            ..self
        }
    }

    /// The state after executing `action`, and the file-system work it needs.
    pub open spec fn executed(self, action: Action) -> (AppState, EffectView) {
        match action {
            Action::Quit => (AppState { should_quit: true, ..self }, EffectView::Nothing),
            Action::MoveDown => (
                if self.screen == Screen::Preview {
                    self.with_preview(self.preview.scrolled_down())
                } else {
                    self.with_directory(self.directory.moved_down())
                },
                EffectView::Nothing,
            ),
            Action::MoveUp => (
                if self.screen == Screen::Preview {
                    self.with_preview(self.preview.scrolled_up())
                } else {
                    self.with_directory(self.directory.moved_up())
                },
                EffectView::Nothing,
            ),
            Action::GoToTop => (
                if self.screen == Screen::Directory {
                    self.with_directory(self.directory.at_top())
                } else {
                    self.with_preview(self.preview.at_top())
                },
                EffectView::Nothing,
            ),
            Action::GoToBottom => (
                if self.screen == Screen::Directory {
                    self.with_directory(self.directory.at_bottom())
                } else {
                    self
                },
                EffectView::Nothing,
            ),
            Action::Enter => if self.screen == Screen::Directory {
                let (d, nav) = self.directory.entered();
                (
                    self.with_directory(d),
                    match nav {
                        NavigationView::Stay => EffectView::Nothing,
                        NavigationView::ChangedDir => EffectView::ReadDirectory,
                        NavigationView::OpenFile(p) => EffectView::LoadPreview(p),
                    },
                )
            } else {
                (self, EffectView::Nothing)
            },
            Action::Back => if self.screen == Screen::Preview {
                (self.with_screen(Screen::Directory), EffectView::Nothing)
            } else {
                let (d, changed) = self.directory.went_back();
                (
                    self.with_directory(d),
                    if changed {
                        EffectView::ReadDirectory
                    } else {
                        EffectView::Nothing
                    },
                )
            },
            Action::TogglePreview => if self.screen == Screen::Directory {
                match self.directory.selected_entry() {
                    Some(e) => if !e.is_dir {
                        (self, EffectView::LoadPreview(e.path))
                    } else {
                        (self, EffectView::Nothing)
                    },
                    None => (self, EffectView::Nothing),
                }
            } else {
                (self.with_screen(Screen::Directory), EffectView::Nothing)
            },
            Action::EnterSearch => (
                AppState { mode: Mode::Search, ..self }.searched(Seq::empty(), false),
                EffectView::Nothing,
            ),
            Action::ExitMode => (
                AppState {
                    mode: Mode::Normal,
                    search_query: Seq::empty(),
                    filtered_indices: Seq::empty(),
                    ..self
                },
                EffectView::Nothing,
            ),
            Action::SearchInput(c) => (
                self.searched(self.search_query.push(c), true),
                EffectView::Nothing,
            ),
            Action::SearchBackspace => (
                self.searched(
                    if self.search_query.len() > 0 {
                        self.search_query.drop_last()
                    } else {
                        self.search_query
                    },
                    false,
                ),
                EffectView::Nothing,
            ),
            Action::NoOp => (self, EffectView::Nothing),
            Action::CopyFile(f) => (self, EffectView::CopyFile(f@, self.directory.current_dir)),
        }
    }
}

/// The action of a key in normal mode, other than `g`.
fn normal_key_action(key: KeyEvent) -> (a: Action)
    ensures
        a == normal_action(key),
{
    match key.code {
        // Navigation
        KeyCode::Char('j') | KeyCode::Down => Action::MoveDown,
        KeyCode::Char('k') | KeyCode::Up => Action::MoveUp,
        KeyCode::Char('G') => Action::GoToBottom,
        // Directory navigation
        KeyCode::Char('h') | KeyCode::Char('-') | KeyCode::Left => Action::Back,
        KeyCode::Char('l') | KeyCode::Enter | KeyCode::Right => Action::Enter,
        // View toggle
        KeyCode::Tab | KeyCode::Char('p') => Action::TogglePreview,
        // Search
        KeyCode::Char('/') => Action::EnterSearch,
        // Quit
        KeyCode::Char('q') => Action::Quit,
        KeyCode::Char('c') if key.control => Action::Quit,
        _ => Action::NoOp,
    }
}

impl App {
    /// Create a new application over the directory listing `directory`.
    pub fn new(directory: Directory) -> (app: App)
        ensures
            app@.directory == directory@,
            !app.should_quit,
            app.mode == Mode::Normal,
            app.screen == Screen::Directory,
            app.preview.path is None,
            app.preview.content == PreviewContent::Loading,
            app.preview.scroll_offset == 0,
            app@.search_query.len() == 0,
            app@.filtered_indices.len() == 0,
            !app.pending_g,
    {
        App {
            should_quit: false,
            mode: Mode::Normal,
            screen: Screen::Directory,
            directory,
            preview: Preview::new(),
            search_query: String::new(),
            filtered_indices: Vec::new(),
            pending_g: false,
        }
    }

    /// Map a key event to an action.
    pub fn handle_key(&mut self, key: KeyEvent) -> (a: Action)
        ensures
            (final(self)@, a) == old(self)@.key_handled(key),
    {
        match self.mode {
            Mode::Normal => self.handle_normal_key(key),
            Mode::Search => self.handle_search_key(key),
        }
    }

    /// Map pasted text to an action.
    pub fn handle_paste(&self, text: String) -> (a: Action)
        ensures
            a == self@.paste_action(text),
    {
        match self.mode {
            Mode::Normal => Action::CopyFile(text),
            Mode::Search => Action::NoOp,
        }
    }

    fn handle_normal_key(&mut self, key: KeyEvent) -> (a: Action)
        ensures
            final(self)@ == old(self)@.normal_key(key).0,
            a == old(self)@.normal_key(key).1,
    {
        // A pending 'g' completes the gg command; any other key cancels it
        let is_g = match key.code {
            KeyCode::Char(c) => c == 'g',
            _ => false,
        };
        if is_g && self.pending_g {
            self.pending_g = false;
            Action::GoToTop
        } else if is_g {
            self.pending_g = true;
            Action::NoOp
        } else {
            self.pending_g = false;
            normal_key_action(key)
        }
    }

    fn handle_search_key(&mut self, key: KeyEvent) -> (a: Action)
        ensures
            final(self)@ == old(self)@,
            a == search_action(key),
    {
        match key.code {
            KeyCode::Esc => Action::ExitMode,
            KeyCode::Enter => Action::ExitMode,
            KeyCode::Backspace => Action::SearchBackspace,
            KeyCode::Char(c) => Action::SearchInput(c),
            _ => Action::NoOp,
        }
    }

    /// Run the search with the current query again.
    fn refresh_search(&mut self, select_first: bool)
        ensures
            final(self)@ == old(self)@.searched(old(self)@.search_query, select_first),
            old(self)@.wf() ==> final(self)@.wf(),
    {
        let f = self.directory.filter(self.search_query.as_str());
        self.filtered_indices = f;
        if select_first && self.filtered_indices.len() > 0 {
            self.directory.selected = self.filtered_indices[0];
        }
        proof {
            let d = self@.directory;
            assert(is_filter_result(old(self)@.directory.entries, old(self)@.search_query, self@.filtered_indices));
            if select_first && self@.filtered_indices.len() > 0 {
                assert(self@.filtered_indices[0] < d.entries.len());
            }
            assert(d.entries == old(self)@.directory.entries);
        }
    }

    /// Execute an action. What the action still needs from the file system
    /// comes back as an `Effect`.
    pub fn execute(&mut self, action: Action) -> (e: Effect)
        ensures
            (final(self)@, e@) == old(self)@.executed(action),
            old(self)@.wf() ==> final(self)@.wf(),
    {
        match action {
            Action::Quit => {
                self.should_quit = true;
                Effect::Nothing
            },
            Action::MoveDown => {
                if self.screen == Screen::Preview {
                    self.preview.scroll_down();
                } else {
                    self.directory.move_down();
                }
                Effect::Nothing
            },
            Action::MoveUp => {
                if self.screen == Screen::Preview {
                    self.preview.scroll_up();
                } else {
                    self.directory.move_up();
                }
                Effect::Nothing
            },
            Action::GoToTop => {
                if self.screen == Screen::Directory {
                    self.directory.go_to_top();
                } else {
                    self.preview.scroll_offset = 0;
                }
                Effect::Nothing
            },
            Action::GoToBottom => {
                if self.screen == Screen::Directory {
                    self.directory.go_to_bottom();
                }
                Effect::Nothing
            },
            Action::Enter => {
                if self.screen == Screen::Directory {
                    match self.directory.enter() {
                        Navigation::Stay => Effect::Nothing,
                        Navigation::ChangedDir => Effect::ReadDirectory,
                        Navigation::OpenFile(p) => Effect::LoadPreview(p),
                    }
                } else {
                    Effect::Nothing
                }
            },
            Action::Back => {
                if self.screen == Screen::Preview {
                    self.screen = Screen::Directory;
                    Effect::Nothing
                } else if self.directory.go_back() {
                    Effect::ReadDirectory
                } else {
                    Effect::Nothing
                }
            },
            Action::TogglePreview => {
                if self.screen == Screen::Directory {
                    // Load preview for selected file if it's a file
                    match self.directory.selected_entry() {
                        Some(entry) => {
                            if !entry.is_dir {
                                Effect::LoadPreview(clone_path(&entry.path))
                            } else {
                                Effect::Nothing
                            }
                        },
                        None => Effect::Nothing,
                    }
                } else {
                    self.screen = Screen::Directory;
                    Effect::Nothing
                }
            },
            Action::EnterSearch => {
                self.mode = Mode::Search;
                self.search_query = String::new();
                self.refresh_search(false);
                Effect::Nothing
            },
            Action::ExitMode => {
                self.mode = Mode::Normal;
                self.search_query = String::new();
                self.filtered_indices.clear();
                Effect::Nothing
            },
            Action::SearchInput(c) => {
                push_char(&mut self.search_query, c);
                // Move selection to first match if any
                self.refresh_search(true);
                Effect::Nothing
            },
            Action::SearchBackspace => {
                pop_char(&mut self.search_query);
                self.refresh_search(false);
                Effect::Nothing
            },
            Action::NoOp => Effect::Nothing,
            Action::CopyFile(f) => Effect::CopyFile(f, clone_path(&self.directory.current_dir)),
        }
    }

    /// Show the preview, once it has loaded.
    pub fn show_preview(&mut self)
        ensures
            final(self)@ == old(self)@.with_screen(Screen::Preview),
    {
        self.screen = Screen::Preview;
    }

    /// The label of the status bar.
    pub fn status_mode(&self) -> (m: StatusMode)
        ensures
            m == (match self.mode {
                Mode::Search => StatusMode::Search,
                Mode::Normal => match self.screen {
                    Screen::Directory => StatusMode::Normal,
                    Screen::Preview => StatusMode::Preview,
                },
            }),
            m == status_label(self.mode, self.screen),
    {
        match self.mode {
            Mode::Normal => match self.screen {
                Screen::Directory => StatusMode::Normal,
                Screen::Preview => StatusMode::Preview,
            },
            Mode::Search => StatusMode::Search,
        }
    }

    /// Whether entry `i` is dimmed as not matching the search: in search
    /// mode, when something matches and `i` does not.
    pub fn is_filtered_out(&self, i: usize) -> (r: bool)
        ensures
            r == (self.mode == Mode::Search && self@.filtered_indices.len() > 0
                && !self@.filtered_indices.contains(i)),
            r == dimmed(self.mode, self@.filtered_indices, i),
    {
        if self.mode != Mode::Search || self.filtered_indices.len() == 0 {
            return false;
        }
        let mut k: usize = 0;
        while k < self.filtered_indices.len()
            invariant
                k <= self.filtered_indices.len(),
                forall|t: int| 0 <= t < k ==> self@.filtered_indices[t] != i,
            decreases self.filtered_indices.len() - k,
        {
            if self.filtered_indices[k] == i {
                return false;
            }
            k = k + 1;
        }
        true
    }
}

} // verus!
