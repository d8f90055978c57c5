use komori::highlight::{extension, highlight_lines, split_lines, Highlighting};
use komori::preview::{FileProbe, HighlightedLine, LoadStep, Preview, PreviewContent, MAX_FILE_SIZE};

fn path(parts: &[&str]) -> Vec<String> {
    parts.iter().map(|s| s.to_string()).collect()
}

fn text_of(line: &HighlightedLine) -> String {
    line.segments.iter().map(|(_, t)| t.as_str()).collect()
}

#[test]
fn new_preview_is_loading() {
    let p = Preview::new();
    assert!(p.path.is_none());
    assert!(matches!(p.content, PreviewContent::Loading));
    assert_eq!(p.scroll_offset, 0);
    assert_eq!(p.line_count(), 0);
    let d = Preview::default();
    assert!(matches!(d.content, PreviewContent::Loading));
}

#[test]
fn max_file_size_is_one_mebibyte() {
    assert_eq!(MAX_FILE_SIZE, 1024 * 1024);
}

#[test]
fn directory_shows_as_directory() {
    let mut p = Preview::new();
    p.scroll_offset = 7;
    assert_eq!(p.load(path(&["d"]), FileProbe::Directory), LoadStep::Done);
    assert!(matches!(p.content, PreviewContent::Directory));
    assert_eq!(p.path, Some(path(&["d"])));
    assert_eq!(p.scroll_offset, 0);
}

#[test]
fn large_file_is_too_large() {
    let mut p = Preview::new();
    assert_eq!(p.load(path(&["big"]), FileProbe::File(MAX_FILE_SIZE + 1)), LoadStep::Done);
    assert!(matches!(p.content, PreviewContent::TooLarge));
}

#[test]
fn file_at_the_limit_is_read_and_highlighted() {
    let mut p = Preview::new();
    assert_eq!(p.load(path(&["src", "main.rs"]), FileProbe::File(MAX_FILE_SIZE)), LoadStep::ReadText);
    assert!(matches!(p.content, PreviewContent::Loading));
    p.set_text(Some("fn main() {\n    let x = 1;\n}".to_string()));
    match &p.content {
        PreviewContent::Highlighted(lines) => {
            assert_eq!(lines.len(), 3);
            assert_eq!(text_of(&lines[0]), "fn main() {\n");
            assert_eq!(text_of(&lines[1]), "    let x = 1;\n");
            assert_eq!(text_of(&lines[2]), "}");
            // Rust syntax: the keyword is colored apart from the rest.
            assert!(lines[0].segments.len() > 1);
            let fn_style = lines[0].segments[0].0;
            let other = lines[0].segments.iter().find(|(_, t)| t.contains("main")).unwrap().0;
            assert!(
                (fn_style.foreground.r, fn_style.foreground.g, fn_style.foreground.b)
                    != (other.foreground.r, other.foreground.g, other.foreground.b)
            );
        }
        _ => panic!("expected highlighted text"),
    }
    assert_eq!(p.line_count(), 3);
    assert_eq!(p.path, Some(path(&["src", "main.rs"])));
}

#[test]
fn empty_text_has_no_lines() {
    let mut p = Preview::new();
    p.load(path(&["empty.txt"]), FileProbe::File(0));
    p.set_text(Some(String::new()));
    assert!(matches!(&p.content, PreviewContent::Highlighted(lines) if lines.is_empty()));
    assert_eq!(p.line_count(), 0);
}

#[test]
fn syntax_from_first_line_when_name_does_not_tell() {
    let mut p = Preview::new();
    p.load(path(&["script"]), FileProbe::File(30));
    p.set_text(Some("#!/bin/bash\necho hi\n".to_string()));
    match &p.content {
        PreviewContent::Highlighted(lines) => {
            assert_eq!(lines.len(), 2);
            assert_eq!(text_of(&lines[1]), "echo hi\n");
        }
        _ => panic!("expected highlighted text"),
    }
}

#[test]
fn lines_keep_their_endings() {
    assert_eq!(split_lines("foo\nbar\nbaz"), vec!["foo\n", "bar\n", "baz"]);
    assert_eq!(split_lines("a\r\n\n"), vec!["a\r\n", "\n"]);
    assert!(split_lines("").is_empty());
}

#[test]
fn extension_as_path_gives_it() {
    assert_eq!(extension("main.rs"), "rs");
    assert_eq!(extension("archive.tar.gz"), "gz");
    assert_eq!(extension(".bashrc"), "");
    assert_eq!(extension("Makefile"), "");
    assert_eq!(extension("a."), "");
    assert_eq!(extension(".x.y"), "y");
}

#[test]
fn unreadable_text_is_binary() {
    let mut p = Preview::new();
    assert_eq!(p.load(path(&["bin"]), FileProbe::File(10)), LoadStep::ReadText);
    p.set_text(None);
    assert!(matches!(p.content, PreviewContent::Binary));
    assert_eq!(p.line_count(), 0);
}

#[test]
fn missing_metadata_fails_after_keeping_the_path() {
    let mut p = Preview::new();
    p.scroll_offset = 3;
    assert_eq!(p.load(path(&["gone"]), FileProbe::Unavailable), LoadStep::Failed);
    assert_eq!(p.path, Some(path(&["gone"])));
    assert_eq!(p.scroll_offset, 0);
    assert!(matches!(p.content, PreviewContent::Loading));
}

#[test]
fn scrolling_saturates() {
    let mut p = Preview::new();
    p.scroll_up();
    assert_eq!(p.scroll_offset, 0);
    p.scroll_down();
    p.scroll_down();
    assert_eq!(p.scroll_offset, 2);
    p.scroll_up();
    assert_eq!(p.scroll_offset, 1);
    p.scroll_offset = usize::MAX;
    p.scroll_down();
    assert_eq!(p.scroll_offset, usize::MAX);
}

#[test]
fn text_content_counts_lines() {
    let mut p = Preview::new();
    p.content = PreviewContent::Text(vec!["x".to_string(); 5]);
    assert_eq!(p.line_count(), 5);
    p.content = PreviewContent::Error("boom".to_string());
    assert_eq!(p.line_count(), 0);
}

#[test]
fn visible_range_clips_to_content() {
    let mut p = Preview::new();
    p.set_text(Some("1\n2\n3\n4\n5\n".to_string()));
    assert_eq!(p.visible_range(3), (0, 3));
    p.scroll_offset = 3;
    assert_eq!(p.visible_range(3), (3, 5));
    p.scroll_offset = 9;
    assert_eq!(p.visible_range(3), (5, 5));
    p.scroll_offset = 1;
    assert_eq!(p.visible_range(usize::MAX), (1, 5));
}

#[test]
fn clear_resets_everything() {
    let mut p = Preview::new();
    p.load(path(&["d"]), FileProbe::Directory);
    p.scroll_offset = 4;
    p.clear();
    assert!(p.path.is_none());
    assert!(matches!(p.content, PreviewContent::Loading));
    assert_eq!(p.scroll_offset, 0);
}

#[test]
fn highlighting_uses_the_base16_ocean_dark_theme() {
    let h = Highlighting::bundled();
    let lines = split_lines("plain words\n");
    let out = highlight_lines(&h, "notes.unknownext", &lines);
    assert_eq!(out.len(), 1);
    assert_eq!(text_of(&out[0]), "plain words\n");
    let bg = out[0].segments[0].0.background;
    // base16-ocean.dark has the background #2b303b.
    assert_eq!((bg.r, bg.g, bg.b), (0x2b, 0x30, 0x3b));
}
