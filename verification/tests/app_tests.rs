use komori::action::Action;
use komori::app::{App, Effect, KeyCode, KeyEvent, Mode, Screen, StatusMode};
use komori::directory::{Directory, ListedEntry};
use komori::preview::{FileProbe, LoadStep};

fn path(parts: &[&str]) -> Vec<String> {
    parts.iter().map(|s| s.to_string()).collect()
}

fn listed(name: &str, is_dir: bool) -> ListedEntry {
    ListedEntry { name: name.to_string(), is_dir }
}

fn app() -> App {
    let d = Directory::new(
        path(&["w"]),
        true,
        vec![listed("src", true), listed("README.md", false), listed("Cargo.toml", false)],
    );
    App::new(d)
}

fn key(c: char) -> KeyEvent {
    KeyEvent { code: KeyCode::Char(c), control: false }
}

fn code(k: KeyCode) -> KeyEvent {
    KeyEvent { code: k, control: false }
}

#[test]
fn new_app_starts_in_the_listing() {
    let a = app();
    assert!(!a.should_quit);
    assert_eq!(a.mode, Mode::Normal);
    assert_eq!(a.screen, Screen::Directory);
    assert!(a.search_query.is_empty());
    assert!(a.filtered_indices.is_empty());
    assert!(!a.pending_g);
    assert_eq!(a.status_mode(), StatusMode::Normal);
}

#[test]
fn normal_mode_key_bindings() {
    let mut a = app();
    assert_eq!(a.handle_key(key('j')), Action::MoveDown);
    assert_eq!(a.handle_key(code(KeyCode::Down)), Action::MoveDown);
    assert_eq!(a.handle_key(key('k')), Action::MoveUp);
    assert_eq!(a.handle_key(code(KeyCode::Up)), Action::MoveUp);
    assert_eq!(a.handle_key(key('l')), Action::Enter);
    assert_eq!(a.handle_key(code(KeyCode::Enter)), Action::Enter);
    assert_eq!(a.handle_key(code(KeyCode::Right)), Action::Enter);
    assert_eq!(a.handle_key(key('h')), Action::Back);
    assert_eq!(a.handle_key(key('-')), Action::Back);
    assert_eq!(a.handle_key(code(KeyCode::Left)), Action::Back);
    assert_eq!(a.handle_key(key('G')), Action::GoToBottom);
    assert_eq!(a.handle_key(code(KeyCode::Tab)), Action::TogglePreview);
    assert_eq!(a.handle_key(key('p')), Action::TogglePreview);
    assert_eq!(a.handle_key(key('/')), Action::EnterSearch);
    assert_eq!(a.handle_key(key('q')), Action::Quit);
    assert_eq!(a.handle_key(KeyEvent { code: KeyCode::Char('c'), control: true }), Action::Quit);
    assert_eq!(a.handle_key(key('c')), Action::NoOp);
    assert_eq!(a.handle_key(code(KeyCode::Esc)), Action::NoOp);
    assert_eq!(a.handle_key(code(KeyCode::Other)), Action::NoOp);
}

#[test]
fn gg_goes_to_top() {
    let mut a = app();
    assert_eq!(a.handle_key(key('g')), Action::NoOp);
    assert!(a.pending_g);
    assert_eq!(a.handle_key(key('g')), Action::GoToTop);
    assert!(!a.pending_g);
}

#[test]
fn other_key_cancels_pending_g() {
    let mut a = app();
    a.handle_key(key('g'));
    assert_eq!(a.handle_key(key('j')), Action::MoveDown);
    assert!(!a.pending_g);
    assert_eq!(a.handle_key(key('g')), Action::NoOp);
    assert!(a.pending_g);
}

#[test]
fn search_mode_keys() {
    let mut a = app();
    a.mode = Mode::Search;
    assert_eq!(a.handle_key(key('q')), Action::SearchInput('q'));
    assert_eq!(a.handle_key(key('j')), Action::SearchInput('j'));
    assert_eq!(a.handle_key(KeyEvent { code: KeyCode::Char('c'), control: true }), Action::SearchInput('c'));
    assert_eq!(a.handle_key(code(KeyCode::Esc)), Action::ExitMode);
    assert_eq!(a.handle_key(code(KeyCode::Enter)), Action::ExitMode);
    assert_eq!(a.handle_key(code(KeyCode::Backspace)), Action::SearchBackspace);
    assert_eq!(a.handle_key(code(KeyCode::Tab)), Action::NoOp);
    assert_eq!(a.mode, Mode::Search);
}

#[test]
fn quit_marks_the_app() {
    let mut a = app();
    assert_eq!(a.execute(Action::Quit), Effect::Nothing);
    assert!(a.should_quit);
}

#[test]
fn moving_in_listing_and_preview() {
    let mut a = app();
    a.execute(Action::MoveDown);
    assert_eq!(a.directory.selected, 1);
    a.execute(Action::GoToBottom);
    assert_eq!(a.directory.selected, 2);
    a.execute(Action::MoveUp);
    assert_eq!(a.directory.selected, 1);
    a.execute(Action::GoToTop);
    assert_eq!(a.directory.selected, 0);
    a.screen = Screen::Preview;
    a.execute(Action::MoveDown);
    a.execute(Action::MoveDown);
    assert_eq!(a.preview.scroll_offset, 2);
    assert_eq!(a.directory.selected, 0);
    a.execute(Action::MoveUp);
    assert_eq!(a.preview.scroll_offset, 1);
    a.execute(Action::GoToBottom);
    assert_eq!(a.preview.scroll_offset, 1);
    a.execute(Action::GoToTop);
    assert_eq!(a.preview.scroll_offset, 0);
}

#[test]
fn enter_directory_asks_for_a_listing() {
    let mut a = app();
    assert_eq!(a.directory.entries[0].name, "src/");
    assert_eq!(a.execute(Action::Enter), Effect::ReadDirectory);
    assert_eq!(a.directory.current_dir, path(&["w", "src"]));
    a.directory.reload(vec![listed("main.rs", false)]);
    assert_eq!(a.directory.entries.len(), 2);
    assert_eq!(a.execute(Action::Back), Effect::ReadDirectory);
    assert_eq!(a.directory.current_dir, path(&["w"]));
    a.directory.reload(vec![listed("src", true)]);
    assert_eq!(a.execute(Action::Back), Effect::Nothing);
}

#[test]
fn enter_file_asks_for_a_preview() {
    let mut a = app();
    a.directory.selected = 2;
    let e = a.execute(Action::Enter);
    assert_eq!(e, Effect::LoadPreview(path(&["w", "README.md"])));
    assert_eq!(a.screen, Screen::Directory);
    if let Effect::LoadPreview(p) = e {
        assert_eq!(a.preview.load(p, FileProbe::File(5)), LoadStep::ReadText);
        a.preview.set_text(Some(String::new()));
    }
    a.show_preview();
    assert_eq!(a.screen, Screen::Preview);
    assert_eq!(a.status_mode(), StatusMode::Preview);
    assert_eq!(a.execute(Action::Enter), Effect::Nothing);
    assert_eq!(a.execute(Action::Back), Effect::Nothing);
    assert_eq!(a.screen, Screen::Directory);
}

#[test]
fn toggle_preview() {
    let mut a = app();
    assert_eq!(a.execute(Action::TogglePreview), Effect::Nothing);
    a.directory.selected = 1;
    assert_eq!(a.execute(Action::TogglePreview), Effect::LoadPreview(path(&["w", "Cargo.toml"])));
    a.show_preview();
    assert_eq!(a.execute(Action::TogglePreview), Effect::Nothing);
    assert_eq!(a.screen, Screen::Directory);
}

#[test]
fn search_selects_first_match_and_backspace_restores() {
    let mut a = app();
    a.directory.selected = 0;
    a.execute(Action::EnterSearch);
    assert_eq!(a.mode, Mode::Search);
    assert_eq!(a.filtered_indices, vec![0, 1, 2]);
    assert_eq!(a.status_mode(), StatusMode::Search);
    a.execute(Action::SearchInput('R'));
    assert_eq!(a.search_query, "R");
    assert_eq!(a.filtered_indices, vec![0, 1, 2]);
    assert_eq!(a.directory.selected, 0);
    a.execute(Action::SearchInput('e'));
    assert_eq!(a.search_query, "Re");
    assert_eq!(a.filtered_indices, vec![2]);
    assert_eq!(a.directory.selected, 2);
    assert!(a.is_filtered_out(0));
    assert!(!a.is_filtered_out(2));
    a.execute(Action::SearchBackspace);
    assert_eq!(a.search_query, "R");
    assert_eq!(a.filtered_indices, vec![0, 1, 2]);
    assert_eq!(a.directory.selected, 2);
    a.execute(Action::SearchInput('z'));
    assert!(a.filtered_indices.is_empty());
    assert_eq!(a.directory.selected, 2);
    assert!(!a.is_filtered_out(0));
    a.execute(Action::ExitMode);
    assert_eq!(a.mode, Mode::Normal);
    assert!(a.search_query.is_empty());
    assert!(a.filtered_indices.is_empty());
    assert!(!a.is_filtered_out(0));
}

#[test]
fn backspace_on_empty_query() {
    let mut a = app();
    a.execute(Action::EnterSearch);
    a.execute(Action::SearchBackspace);
    assert!(a.search_query.is_empty());
    assert_eq!(a.filtered_indices, vec![0, 1, 2]);
}

#[test]
fn copy_file_asks_for_a_copy_into_the_current_directory() {
    let mut a = app();
    assert_eq!(
        a.execute(Action::CopyFile("/tmp/notes.txt".to_string())),
        Effect::CopyFile("/tmp/notes.txt".to_string(), path(&["w"]))
    );
    assert_eq!(a.directory.selected, 0);
    assert_eq!(a.screen, Screen::Directory);
}

#[test]
fn paste_copies_in_normal_mode_only() {
    let mut a = app();
    assert_eq!(a.handle_paste("/tmp/a".to_string()), Action::CopyFile("/tmp/a".to_string()));
    a.mode = Mode::Search;
    assert_eq!(a.handle_paste("/tmp/a".to_string()), Action::NoOp);
}

#[test]
fn noop_changes_nothing() {
    let mut a = app();
    assert_eq!(a.execute(Action::NoOp), Effect::Nothing);
    assert_eq!(a.directory.selected, 0);
    assert_eq!(a.screen, Screen::Directory);
}
