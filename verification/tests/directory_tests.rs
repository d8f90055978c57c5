use komori::directory::{DirEntry, Directory, ListedEntry, Navigation};

fn path(parts: &[&str]) -> Vec<String> {
    parts.iter().map(|s| s.to_string()).collect()
}

fn listed(name: &str, is_dir: bool) -> ListedEntry {
    ListedEntry { name: name.to_string(), is_dir }
}

fn names(d: &Directory) -> Vec<String> {
    d.entries.iter().map(|e| e.name.clone()).collect()
}

fn sample(sandbox: bool) -> Directory {
    Directory::new(
        path(&["home", "u"]),
        sandbox,
        vec![
            listed("b.txt", false),
            listed("Zeta", true),
            listed("alpha", true),
            listed("A.txt", false),
        ],
    )
}

#[test]
fn parent_entry_is_dotdot_directory() {
    let e = DirEntry::parent();
    assert_eq!(e.name, "../");
    assert_eq!(e.path, path(&[".."]));
    assert!(e.is_dir);
}

#[test]
fn listing_puts_directories_first_then_names_case_insensitively() {
    let d = sample(false);
    assert_eq!(names(&d), vec!["../", "alpha/", "Zeta/", "A.txt", "b.txt"]);
    assert_eq!(d.entries[1].path, path(&["home", "u", "alpha"]));
    assert_eq!(d.entries[2].path, path(&["home", "u", "Zeta"]));
    assert_eq!(d.entries[3].path, path(&["home", "u", "A.txt"]));
    assert!(d.entries[1].is_dir && d.entries[2].is_dir);
    assert!(!d.entries[3].is_dir && !d.entries[4].is_dir);
    assert_eq!(d.selected, 0);
    assert_eq!(d.scroll_offset, 0);
}

#[test]
fn sandbox_root_lists_no_parent_entry() {
    let d = sample(true);
    assert!(d.is_at_sandbox_root());
    assert_eq!(names(&d), vec!["alpha/", "Zeta/", "A.txt", "b.txt"]);
}

#[test]
fn file_system_root_lists_no_parent_entry() {
    let d = Directory::new(Vec::new(), false, vec![listed("etc", true)]);
    assert!(!d.is_at_sandbox_root());
    assert_eq!(names(&d), vec!["etc/"]);
    assert_eq!(d.entries[0].path, path(&["etc"]));
}

#[test]
fn equal_lowercase_names_keep_listing_order() {
    let d = Directory::new(Vec::new(), false, vec![listed("B", false), listed("b", false)]);
    assert_eq!(names(&d), vec!["B", "b"]);
    let d = Directory::new(Vec::new(), false, vec![listed("b", false), listed("B", false)]);
    assert_eq!(names(&d), vec!["b", "B"]);
}

#[test]
fn names_compare_by_code_point_after_lowercasing() {
    // '-' (0x2d) sorts before '/' (0x2f), so "a-b/" comes before "a/".
    let d = Directory::new(
        Vec::new(),
        false,
        vec![listed("a", true), listed("a-b", true), listed("Ab", false), listed("aa", false)],
    );
    assert_eq!(names(&d), vec!["a-b/", "a/", "aa", "Ab"]);
}

#[test]
fn empty_directory_has_nothing_selected() {
    let mut d = Directory::new(Vec::new(), true, Vec::new());
    assert!(d.entries.is_empty());
    assert!(d.selected_entry().is_none());
    d.move_down();
    assert_eq!(d.selected, 0);
    d.go_to_bottom();
    assert_eq!(d.selected, 0);
    d.move_up();
    assert_eq!(d.selected, 0);
    assert!(matches!(d.enter(), Navigation::Stay));
}

#[test]
fn moving_stays_within_the_listing() {
    let mut d = sample(false);
    d.move_up();
    assert_eq!(d.selected, 0);
    d.move_down();
    d.move_down();
    assert_eq!(d.selected, 2);
    d.move_up();
    assert_eq!(d.selected, 1);
    d.go_to_bottom();
    assert_eq!(d.selected, 4);
    d.move_down();
    assert_eq!(d.selected, 4);
    d.scroll_offset = 3;
    d.go_to_top();
    assert_eq!(d.selected, 0);
    assert_eq!(d.scroll_offset, 0);
}

#[test]
fn move_down_then_up_returns() {
    let mut d = sample(false);
    d.selected = 2;
    d.move_down();
    d.move_up();
    assert_eq!(d.selected, 2);
}

#[test]
fn selection_is_clamped_when_the_listing_shrinks() {
    let mut d = sample(false);
    d.selected = 4;
    d.reload(vec![listed("x", false)]);
    assert_eq!(names(&d), vec!["../", "x"]);
    assert_eq!(d.selected, 1);
    d.reload(Vec::new());
    assert_eq!(d.selected, 0);
}

#[test]
fn entering_a_directory_then_going_back() {
    let mut d = sample(false);
    d.selected = 1;
    assert!(matches!(d.enter(), Navigation::ChangedDir));
    assert_eq!(d.current_dir, path(&["home", "u", "alpha"]));
    assert_eq!(d.selected, 0);
    d.reload(vec![listed("inner.rs", false)]);
    assert_eq!(names(&d), vec!["../", "inner.rs"]);
    assert!(d.go_back());
    assert_eq!(d.current_dir, path(&["home", "u"]));
}

#[test]
fn entering_the_parent_entry_goes_up() {
    let mut d = sample(false);
    d.selected = 0;
    assert!(matches!(d.enter(), Navigation::ChangedDir));
    assert_eq!(d.current_dir, path(&["home"]));
}

#[test]
fn entering_a_file_names_it_for_preview() {
    let mut d = sample(false);
    d.selected = 3;
    match d.enter() {
        Navigation::OpenFile(p) => assert_eq!(p, path(&["home", "u", "A.txt"])),
        _ => panic!("expected a file"),
    }
    assert_eq!(d.current_dir, path(&["home", "u"]));
    assert_eq!(d.selected, 3);
}

#[test]
fn sandbox_stops_going_back_at_the_root() {
    let mut d = sample(true);
    assert!(!d.go_back());
    assert_eq!(d.current_dir, path(&["home", "u"]));
    d.selected = 0;
    assert!(matches!(d.enter(), Navigation::ChangedDir));
    d.reload(vec![listed("f", false)]);
    assert_eq!(names(&d), vec!["../", "f"]);
    d.selected = 0;
    assert!(matches!(d.enter(), Navigation::ChangedDir));
    assert_eq!(d.current_dir, path(&["home", "u"]));
    d.reload(vec![listed("alpha", true)]);
    assert_eq!(names(&d), vec!["alpha/"]);
    assert!(!d.go_back());
}

#[test]
fn without_sandbox_going_back_passes_the_start() {
    let mut d = sample(false);
    assert!(d.go_back());
    assert_eq!(d.current_dir, path(&["home"]));
    assert!(d.go_back());
    assert!(!d.go_back());
    assert!(d.current_dir.is_empty());
}

#[test]
fn filter_empty_query_keeps_everything() {
    let d = sample(false);
    assert_eq!(d.filter(""), vec![0, 1, 2, 3, 4]);
}

#[test]
fn filter_ignores_case() {
    let d = sample(false);
    assert_eq!(d.filter("ZET"), vec![2]);
    assert_eq!(d.filter(".TXT"), vec![3, 4]);
    assert_eq!(d.filter("a"), vec![1, 2, 3]);
    assert_eq!(d.filter("nothing"), Vec::<usize>::new());
}

#[test]
fn filter_matches_across_the_trailing_slash() {
    let d = sample(false);
    assert_eq!(d.filter("a/"), vec![1, 2]);
    assert_eq!(d.filter("../"), vec![0]);
}

#[test]
fn filter_lowercases_non_ascii() {
    let d = Directory::new(Vec::new(), false, vec![listed("ÄRGER", false), listed("other", false)]);
    // 'ä' (U+00E4) sorts after every ASCII letter.
    assert_eq!(names(&d), vec!["other", "ÄRGER"]);
    assert_eq!(d.filter("är"), vec![1]);
}

#[test]
fn selected_entry_follows_selection() {
    let mut d = sample(false);
    d.selected = 2;
    assert_eq!(d.selected_entry().unwrap().name, "Zeta/");
    d.selected = 9;
    assert!(d.selected_entry().is_none());
}

#[test]
fn longer_query_never_adds_matches() {
    let d = sample(false);
    let wide = d.filter("A");
    let narrow = d.filter("Al");
    assert_eq!(narrow, vec![1]);
    assert!(narrow.iter().all(|i| wide.contains(i)));
    assert!(d.filter("alpha/x").iter().all(|i| d.filter("").contains(i)));
}
