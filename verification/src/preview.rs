//! The state of the file preview: which file, what it shows, how far it is
//! scrolled. Reading the file and highlighting its text are the caller's part;
//! the decisions between them are made here.
use vstd::prelude::*;

use crate::directory::PathView;
use crate::highlight::{highlight_lines, highlights, line_pieces, lines_view, split_lines, Highlighting};

verus! {

/// A color with alpha, as the highlighter reports it.
#[derive(Debug, Clone, Copy)]
pub struct Rgba {
    pub r: u8,
    pub g: u8,
    pub b: u8,
    pub a: u8,
}

/// The style of a highlighted piece of text.
#[derive(Debug, Clone, Copy)]
pub struct SegmentStyle {
    pub foreground: Rgba,
    pub background: Rgba,
    /// Bold, underline and italic as bits.
    pub font_style: u8,
}

/// A single line with syntax highlighting information.
#[derive(Debug, Clone)]
pub struct HighlightedLine {
    pub segments: Vec<(SegmentStyle, String)>,
}

/// File preview content.
#[derive(Debug)]
pub enum PreviewContent {
    /// File is loading.
    Loading,
    /// Plain text content (no highlighting).
    Text(Vec<String>),
    /// Syntax highlighted content.
    Highlighted(Vec<HighlightedLine>),
    /// Binary file (not displayable).
    Binary,
    /// Error loading file.
    Error(String),
    /// File is too large to preview.
    TooLarge,
    /// Directory (show summary instead).
    Directory,
}

/// What the file system reports of a path about to be previewed.
pub enum FileProbe {
    /// The path is a directory.
    Directory,
    /// The path is a file of this many bytes.
    File(u64),
    /// The path's metadata could not be read.
    Unavailable,
}

/// What loading a preview asks of the caller next.
#[derive(Debug, PartialEq, Eq)]
pub enum LoadStep {
    /// The preview is complete.
    Done,
    /// The file's text must be read (and highlighted) and handed to `set_text`.
    ReadText,
    /// The file's metadata could not be read: loading fails with that error.
    Failed,
}

/// Maximum file size to preview (1 MB).
pub const MAX_FILE_SIZE: u64 = 1048576;

/// Manages file preview state.
#[derive(Debug)]
pub struct Preview {
    /// Current file path being previewed.
    pub path: Option<Vec<String>>,
    /// Preview content.
    pub content: PreviewContent,
    /// Scroll offset.
    pub scroll_offset: usize,
    /// Syntax highlighting resources.
    pub highlighting: Highlighting,
}

/// The preview as plain values.
pub struct PreviewView {
    pub path: Option<PathView>,
    pub content: PreviewContent,
    pub scroll_offset: usize,
    pub highlighting: Highlighting,
}

impl View for Preview {
    type V = PreviewView;

    open spec fn view(&self) -> PreviewView {
        PreviewView {
            path: match self.path {
                Some(p) => Some(p.deep_view()),
                None => None,
            },
            content: self.content,
            scroll_offset: self.scroll_offset,
            highlighting: self.highlighting,
        }
    }
}

/// The file name of a previewed path: its last component, or nothing.
pub open spec fn file_name_of(path: Option<PathView>) -> Seq<char> {
    match path {
        Some(p) => if p.len() > 0 {
            p.last()
        } else {
            Seq::empty()
        },
        None => Seq::empty(),
    }
}

/// The content after loading a path of which the file system reported
/// `probe`, starting from `content`, and what the caller must do next.
pub open spec fn load_outcome(content: PreviewContent, probe: FileProbe) -> (PreviewContent, LoadStep) {
    match probe {
        FileProbe::Directory => (PreviewContent::Directory, LoadStep::Done),
        FileProbe::File(size) => if size > MAX_FILE_SIZE {
            (PreviewContent::TooLarge, LoadStep::Done)
        } else {
            (content, LoadStep::ReadText)
        },
        FileProbe::Unavailable => (content, LoadStep::Failed),
    }
}

/// The first and past-the-last line shown from `count` lines, scrolled by
/// `scroll`, in a view `height` lines tall.
pub open spec fn visible_window(scroll: int, height: int, count: int) -> (int, int) {
    (
        if scroll < count {
            scroll
        } else {
            count
        },
        if scroll + height < count {
            scroll + height
        } else {
            count
        },
    )
}

/// The number of lines that content shows.
pub open spec fn content_lines(c: PreviewContent) -> nat {
    match c {
        PreviewContent::Highlighted(lines) => lines@.len(),
        PreviewContent::Text(lines) => lines@.len(),
        _ => 0,
    }
}

impl PreviewView {
    pub open spec fn scrolled_down(self) -> PreviewView {
        PreviewView {
            scroll_offset: if self.scroll_offset < usize::MAX {
                (self.scroll_offset + 1) as usize
            } else {
                self.scroll_offset
            },
            ..self
        }
    }

    pub open spec fn scrolled_up(self) -> PreviewView {
        PreviewView {
            scroll_offset: if self.scroll_offset > 0 {
                (self.scroll_offset - 1) as usize
            } else {
                0
            },
            ..self
        }
    }

    pub open spec fn at_top(self) -> PreviewView {
        PreviewView { scroll_offset: 0, ..self }
    }
}

impl Preview {
    /// Create a new preview manager.
    pub fn new() -> (p: Preview)
        ensures
            p.path is None,
            p.content == PreviewContent::Loading,
            p.scroll_offset == 0,
            p.highlighting.ready(),
    {
        Preview {
            path: None,
            content: PreviewContent::Loading,
            scroll_offset: 0,
            highlighting: Highlighting::bundled(),
        }
    }

    /// Start loading the preview of `path`, given what the file system
    /// reports of it. A directory shows as such; a file larger than
    /// `MAX_FILE_SIZE` shows as too large; otherwise its text must be read
    /// (`ReadText`). The path is kept and the scroll reset in every case.
    pub fn load(&mut self, path: Vec<String>, probe: FileProbe) -> (step: LoadStep)
        ensures
            final(self).path == Some(path),
            final(self).scroll_offset == 0,
            match probe {
                FileProbe::Directory => step == LoadStep::Done && final(self).content
                    == PreviewContent::Directory,
                FileProbe::File(size) => if size > MAX_FILE_SIZE {
                    step == LoadStep::Done && final(self).content == PreviewContent::TooLarge
                } else {
                    step == LoadStep::ReadText && final(self).content == old(self).content
                },
                FileProbe::Unavailable => step == LoadStep::Failed && final(self).content == old(
                    self,
                ).content,
            },
            (final(self).content, step) == load_outcome(old(self).content, probe),
    {
        self.path = Some(path);
        self.scroll_offset = 0;
        match probe {
            FileProbe::Directory => {
                self.content = PreviewContent::Directory;
                LoadStep::Done
            },
            FileProbe::File(size) => {
                if size > MAX_FILE_SIZE {
                    self.content = PreviewContent::TooLarge;
                    LoadStep::Done
                } else {
                    LoadStep::ReadText
                }
            },
            FileProbe::Unavailable => LoadStep::Failed,
        }
    }

    /// Finish loading with the file's text, or `None` when it could not be
    /// read as text (most likely a binary file). The text is highlighted line
    /// by line, with the syntax chosen by the file's name and then its first
    /// line, and the theme `base16-ocean.dark`.
    pub fn set_text(&mut self, text: Option<String>)
        ensures
            final(self).path == old(self).path,
            final(self).scroll_offset == old(self).scroll_offset,
            final(self).highlighting == old(self).highlighting,
            match text {
                None => final(self).content == PreviewContent::Binary,
                Some(t) => match final(self).content {
                    PreviewContent::Highlighted(lines) => {
                        &&& lines_view(lines@) == old(self).highlighting.highlighted(
                            file_name_of(old(self)@.path),
                            line_pieces(t@),
                        )
                        &&& highlights(lines@, line_pieces(t@))
                    },
                    _ => false,
                },
            },
    {
        match text {
            None => {
                self.content = PreviewContent::Binary;
            },
            Some(t) => {
                let pieces = split_lines(t.as_str());
                let name: String = match &self.path {
                    Some(p) => if p.len() > 0 {
                        p[p.len() - 1].clone()
                    } else {
                        String::new()
                    },
                    None => String::new(),
                };
                assert(name@ == file_name_of(self@.path));
                let lines = highlight_lines(&self.highlighting, name.as_str(), &pieces);
                self.content = PreviewContent::Highlighted(lines);
            },
        }
    }

    /// Clear the preview.
    pub fn clear(&mut self)
        ensures
            final(self).path is None,
            final(self).content == PreviewContent::Loading,
            final(self).scroll_offset == 0,
    {
        self.path = None;
        self.content = PreviewContent::Loading;
        self.scroll_offset = 0;
    }

    /// Scroll down.
    pub fn scroll_down(&mut self)
        ensures
            final(self)@ == old(self)@.scrolled_down(),
    {
        if self.scroll_offset < usize::MAX {
            self.scroll_offset = self.scroll_offset + 1;
        }
    }

    /// Scroll up.
    pub fn scroll_up(&mut self)
        ensures
            final(self)@ == old(self)@.scrolled_up(),
    {
        if self.scroll_offset > 0 {
            self.scroll_offset = self.scroll_offset - 1;
        }
    }

    /// Get the number of lines in the preview.
    pub fn line_count(&self) -> (n: usize)
        ensures
            n == content_lines(self.content),
    {
        match &self.content {
            PreviewContent::Highlighted(lines) => lines.len(),
            PreviewContent::Text(lines) => lines.len(),
            _ => 0,
        }
    }

    /// The lines shown in a view `height` lines tall: from the scroll offset
    /// on, at most `height` of them, within the content.
    pub fn visible_range(&self, height: usize) -> (r: (usize, usize))
        ensures
            r.0 == (if self.scroll_offset < content_lines(self.content) {
                self.scroll_offset as int
            } else {
                content_lines(self.content) as int
            }),
            r.1 == (if self.scroll_offset + height < content_lines(self.content) {
                self.scroll_offset + height
            } else {
                content_lines(self.content) as int
            }),
            (r.0 as int, r.1 as int) == visible_window(
                self.scroll_offset as int,
                height as int,
                content_lines(self.content) as int,
            ),
    {
        let n = self.line_count();
        let start = if self.scroll_offset < n {
            self.scroll_offset
        } else {
            n
        };
        let end = if start < n && height < n - start {
            start + height
        } else {
            n
        };
        (start, end)
    }
}

impl Default for Preview {
    fn default() -> (p: Preview)
        ensures
            p.path is None,
            p.content == PreviewContent::Loading,
            p.scroll_offset == 0,
    {
        Preview::new()
    }
}

} // verus!
