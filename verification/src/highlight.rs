//! Syntax highlighting of a file's text with syntect: splitting the text
//! into lines, choosing the syntax, and highlighting line by line.
use vstd::prelude::*;

use syntect::easy::HighlightLines;
use syntect::highlighting::{Theme, ThemeSet};
use syntect::parsing::{SyntaxReference, SyntaxSet};

use crate::preview::{HighlightedLine, Rgba, SegmentStyle};
use crate::text::{chars_of, string_of};

verus! {

broadcast use vstd::string::group_string_axioms;

#[verifier::external_type_specification]
#[verifier::external_body]
pub struct ExSyntaxSet(SyntaxSet);

#[verifier::external_type_specification]
#[verifier::external_body]
pub struct ExSyntaxReference(SyntaxReference);

#[verifier::external_type_specification]
#[verifier::external_body]
pub struct ExThemeSet(ThemeSet);

#[verifier::external_type_specification]
#[verifier::external_body]
pub struct ExTheme(Theme);

#[verifier::external_type_specification]
#[verifier::external_body]
pub struct ExHighlightLines<'a>(HighlightLines<'a>);

/// The text split into lines, each with its line ending: a piece ends after
/// each `'\n'`, and a last piece without one counts if it is not empty.
pub open spec fn line_pieces(text: Seq<char>) -> Seq<Seq<char>> {
    let (done, rest) = split_state(text);
    if rest.len() > 0 {
        done.push(rest)
    } else {
        done
    }
}

/// The complete lines of `text`, and the unfinished line after them.
pub open spec fn split_state(text: Seq<char>) -> (Seq<Seq<char>>, Seq<char>)
    decreases text.len(),
{
    if text.len() == 0 {
        (Seq::empty(), Seq::empty())
    } else {
        let (done, cur) = split_state(text.drop_last());
        let cur2 = cur.push(text.last());
        if text.last() == '\n' {
            (done.push(cur2), Seq::empty())
        } else {
            (done, cur2)
        }
    }
}

/// The texts of the highlighted pieces, concatenated.
pub open spec fn segments_text(segs: Seq<(SegmentStyle, String)>) -> Seq<char>
    decreases segs.len(),
{
    if segs.len() == 0 {
        Seq::empty()
    } else {
        segments_text(segs.drop_last()) + segs.last().1@
    }
}

/// The pieces of a highlighted line as plain values.
pub open spec fn pieces_view(segs: Seq<(SegmentStyle, String)>) -> Seq<(SegmentStyle, Seq<char>)> {
    segs.map_values(|p: (SegmentStyle, String)| (p.0, p.1@))
}

/// Highlighted lines as plain values.
pub open spec fn lines_view(lines: Seq<HighlightedLine>) -> Seq<Seq<(SegmentStyle, Seq<char>)>> {
    lines.map_values(|l: HighlightedLine| pieces_view(l.segments@))
}

/// `lines` highlight `pieces`: one line per piece, and the texts of each
/// line's highlighted pieces make up the start of that piece (all of it
/// unless highlighting the line stopped early).
pub open spec fn highlights(lines: Seq<HighlightedLine>, pieces: Seq<Seq<char>>) -> bool {
    &&& lines.len() == pieces.len()
    &&& forall|k: int|
        0 <= k < lines.len() ==> segments_text((#[trigger] lines[k]).segments@).is_prefix_of(
            pieces[k],
        )
}

/// The syntax that `SyntaxSet::find_syntax_by_extension` finds in `set` for
/// `extension` (compared without regard to ASCII case), if any.
pub uninterp spec fn extension_syntax(set: SyntaxSet, extension: Seq<char>) -> Option<SyntaxReference>;

/// The syntax that `SyntaxSet::find_syntax_by_first_line` finds in `set` for
/// the first line `line`, if any.
pub uninterp spec fn first_line_syntax(set: SyntaxSet, line: Seq<char>) -> Option<SyntaxReference>;

/// The syntax that `SyntaxSet::find_syntax_by_name` finds in `set` under
/// `name`, if any.
pub uninterp spec fn named_syntax(set: SyntaxSet, name: Seq<char>) -> Option<SyntaxReference>;

/// The theme that `ThemeSet` holds under the key `name`, if any.
pub uninterp spec fn named_theme(themes: ThemeSet, name: Seq<char>) -> Option<Theme>;

/// The highlighter that `HighlightLines::new` makes for `syntax` and `theme`.
pub uninterp spec fn fresh_highlighter(syntax: SyntaxReference, theme: Theme) -> HighlightLines<
    'static,
>;

/// What `HighlightLines::highlight_line` does with `line` on highlighter
/// `h`: the highlighter after the line, and the line's highlighted pieces.
pub uninterp spec fn highlight_step(h: HighlightLines<'static>, line: Seq<char>, set: SyntaxSet) -> (
    HighlightLines<'static>,
    Seq<(SegmentStyle, Seq<char>)>,
);

/// The highlighted pieces of `lines`, highlighted in turn from `h` on.
pub open spec fn highlight_from(h: HighlightLines<'static>, lines: Seq<Seq<char>>, set: SyntaxSet) -> Seq<
    Seq<(SegmentStyle, Seq<char>)>,
>
    decreases lines.len(),
{
    if lines.len() == 0 {
        Seq::empty()
    } else {
        let (next, pieces) = highlight_step(h, lines[0], set);
        seq![pieces] + highlight_from(next, lines.drop_first(), set)
    }
}

/// The name of the theme previews are highlighted with.
pub open spec fn theme_key() -> Seq<char> {
    "base16-ocean.dark"@
}

/// The name of the syntax used when nothing else fits.
pub open spec fn plain_text_key() -> Seq<char> {
    "Plain Text"@
}

/// The syntax bundled with syntect and the themes bundled with it, loaded
/// once: the only sets that highlighting works with.
#[derive(Debug)]
pub struct Highlighting {
    syntaxes: SyntaxSet,
    themes: ThemeSet,
}

impl Highlighting {
    pub closed spec fn syntax_set(self) -> SyntaxSet {
        self.syntaxes
    }

    pub closed spec fn theme_set(self) -> ThemeSet {
        self.themes
    }

    /// The sets hold the plain-text syntax and the preview theme.
    pub open spec fn ready(self) -> bool {
        &&& named_syntax(self.syntax_set(), plain_text_key()) is Some
        &&& named_theme(self.theme_set(), theme_key()) is Some
    }

    #[verifier::type_invariant]
    spec fn inv(self) -> bool {
        self.ready()
    }

    /// Load the syntaxes and themes bundled with syntect.
    pub fn bundled() -> (h: Highlighting)
        ensures
            h.ready(),
    {
        let h = Highlighting { syntaxes: default_syntaxes(), themes: default_themes() };
        assert(h.ready());
        h
    }

    /// The syntax chosen for a file named `file_name` whose text starts with
    /// the line `first_line`, as `SyntaxSet::find_syntax_for_file` chooses it,
    /// falling back to plain text: by the whole name as an extension, then
    /// by the name's extension, then by the first line.
    pub open spec fn chosen_syntax(self, file_name: Seq<char>, first_line: Seq<char>) -> SyntaxReference {
        let set = self.syntax_set();
        if extension_syntax(set, file_name) is Some {
            extension_syntax(set, file_name)->0
        } else if extension_syntax(set, extension_of(file_name)) is Some {
            extension_syntax(set, extension_of(file_name))->0
        } else if first_line_syntax(set, first_line) is Some {
            first_line_syntax(set, first_line)->0
        } else {
            named_syntax(set, plain_text_key())->0
        }
    }

    /// The highlighted pieces of `lines`, the lines of the text of the file
    /// named `file_name`: highlighted in turn with the chosen syntax and the
    /// theme `base16-ocean.dark`.
    pub open spec fn highlighted(self, file_name: Seq<char>, lines: Seq<Seq<char>>) -> Seq<
        Seq<(SegmentStyle, Seq<char>)>,
    > {
        let first = if lines.len() > 0 {
            lines[0]
        } else {
            Seq::empty()
        };
        highlight_from(
            fresh_highlighter(
                self.chosen_syntax(file_name, first),
                named_theme(self.theme_set(), theme_key())->0,
            ),
            lines,
            self.syntax_set(),
        )
    }
}

/// The extension of a file name as `Path::extension` gives it: what follows
/// the last `.`, unless there is none or the name starts with its only `.`
/// (empty when there is none).
pub open spec fn extension_of(name: Seq<char>) -> Seq<char> {
    if exists|i: int| 0 < i < name.len() && name[i] == '.' {
        let i = choose|i: int|
            0 < i < name.len() && name[i] == '.' && forall|j: int|
                i < j < name.len() ==> name[j] != '.';
        name.skip(i + 1)
    } else {
        Seq::empty()
    }
}

/// Calls `SyntaxSet::load_defaults_newlines`: the syntaxes bundled with
/// syntect, for lines that keep their endings. Claimed: they include the
/// plain-text syntax, which syntect documents as always present.
#[verifier::external_body]
fn default_syntaxes() -> (r: SyntaxSet)
    ensures
        named_syntax(r, plain_text_key()) is Some,
{
    SyntaxSet::load_defaults_newlines()
}

/// Calls `ThemeSet::load_defaults`: the themes bundled with syntect.
/// Claimed: they include `base16-ocean.dark`, which syntect documents as one
/// of the keys.
#[verifier::external_body]
fn default_themes() -> (r: ThemeSet)
    ensures
        named_theme(r, theme_key()) is Some,
{
    ThemeSet::load_defaults()
}

/// Calls `SyntaxSet::find_syntax_by_extension` on the bundled syntaxes.
/// Claimed: the result is `extension_syntax` of the set and the key.
#[verifier::external_body]
fn syntax_by_extension<'a>(h: &'a Highlighting, extension: &str) -> (r: Option<&'a SyntaxReference>)
    ensures
        match r {
            Some(s) => extension_syntax(h.syntax_set(), extension@) == Some(*s),
            None => extension_syntax(h.syntax_set(), extension@) is None,
        },
{
    h.syntaxes.find_syntax_by_extension(extension)
}

/// Calls `SyntaxSet::find_syntax_by_first_line` on the bundled syntaxes,
/// whose first-line patterns all compile. Claimed: the result is
/// `first_line_syntax` of the set and the line.
#[verifier::external_body]
fn syntax_by_first_line<'a>(h: &'a Highlighting, line: &str) -> (r: Option<&'a SyntaxReference>)
    ensures
        match r {
            Some(s) => first_line_syntax(h.syntax_set(), line@) == Some(*s),
            None => first_line_syntax(h.syntax_set(), line@) is None,
        },
{
    h.syntaxes.find_syntax_by_first_line(line)
}

/// Calls `SyntaxSet::find_syntax_by_name` on the bundled syntaxes. Claimed:
/// the result is `named_syntax` of the set and the name.
#[verifier::external_body]
fn syntax_by_name<'a>(h: &'a Highlighting, name: &str) -> (r: Option<&'a SyntaxReference>)
    ensures
        match r {
            Some(s) => named_syntax(h.syntax_set(), name@) == Some(*s),
            None => named_syntax(h.syntax_set(), name@) is None,
        },
{
    h.syntaxes.find_syntax_by_name(name)
}

/// Calls `BTreeMap::get` on the bundled themes. Claimed: the result is
/// `named_theme` of the themes and the key.
#[verifier::external_body]
fn theme_by_name<'a>(h: &'a Highlighting, name: &str) -> (r: Option<&'a Theme>)
    ensures
        match r {
            Some(t) => named_theme(h.theme_set(), name@) == Some(*t),
            None => named_theme(h.theme_set(), name@) is None,
        },
{
    h.themes.themes.get(name)
}

/// Calls `HighlightLines::new`. Only syntaxes of the bundled set reach it
/// (each of which has the start context that it looks up); its one caller
/// passes what `choose_syntax` found there. Claimed: the result is
/// `fresh_highlighter` of the syntax and the theme.
#[verifier::external_body]
fn new_highlighter<'a>(syntax: &SyntaxReference, theme: &'a Theme) -> (r: HighlightLines<'a>)
    ensures
        r == fresh_highlighter(*syntax, *theme),
{
    HighlightLines::new(syntax, theme)
}

/// Calls `HighlightLines::highlight_line` with the bundled syntaxes.
/// Claimed: the highlighter and the pieces are `highlight_step` of the
/// highlighter, the line and the set; and the texts of the pieces make up
/// the start of the line, as syntect's highlight iterator yields consecutive
/// slices of the line from its start (a failure gives no pieces).
#[verifier::external_body]
fn highlight_line(h: &mut HighlightLines, line: &str, res: &Highlighting) -> (r: Vec<
    (SegmentStyle, String),
>)
    ensures
        *final(h) == highlight_step(*old(h), line@, res.syntax_set()).0,
        pieces_view(r@) == highlight_step(*old(h), line@, res.syntax_set()).1,
        segments_text(r@).is_prefix_of(line@),
{
    h.highlight_line(line, &res.syntaxes).unwrap_or_default().into_iter().map(|(s, t)| {
        let (f, b) = (s.foreground, s.background);
        let foreground = Rgba { r: f.r, g: f.g, b: f.b, a: f.a };
        let background = Rgba { r: b.r, g: b.g, b: b.b, a: b.a };
        (SegmentStyle { foreground, background, font_style: s.font_style.bits() }, t.to_string())
    }).collect()
}

/// Split `text` into its lines, each with its line ending.
pub fn split_lines(text: &str) -> (r: Vec<String>)
    ensures
        r.deep_view() == line_pieces(text@),
{
    let cs = chars_of(text);
    let mut done: Vec<String> = Vec::new();
    let mut cur: Vec<char> = Vec::new();
    let mut i: usize = 0;
    while i < cs.len()
        invariant
            i <= cs.len(),
            cs@ == text@,
            split_state(cs@.take(i as int)) == (done.deep_view(), cur@),
        decreases cs.len() - i,
    {
        let c = cs[i];
        assert(cs@.take(i + 1).drop_last() =~= cs@.take(i as int));
        cur.push(c);
        if c == '\n' {
            let line = string_of(&cur);
            let ghost before = done.deep_view();
            done.push(line);
            assert(done.deep_view() =~= before.push(cur@));
            cur = Vec::new();
            assert(cur@ =~= Seq::<char>::empty());
        }
        i = i + 1;
    }
    assert(cs@.take(cs.len() as int) =~= cs@);
    if cur.len() > 0 {
        let line = string_of(&cur);
        let ghost before = done.deep_view();
        done.push(line);
        assert(done.deep_view() =~= before.push(cur@));
    }
    done
}

/// The extension of file name `name`, as `Path::extension` gives it.
pub fn extension(name: &str) -> (r: String)
    ensures
        r@ == extension_of(name@),
{
    let cs = chars_of(name);
    let mut i: usize = cs.len();
    while i > 0 && cs[i - 1] != '.'
        invariant
            i <= cs.len(),
            cs@ == name@,
            forall|j: int| i <= j < cs.len() ==> cs@[j] != '.',
        decreases i,
    {
        i = i - 1;
    }
    // here either i == 0 or cs[i - 1] is the last '.'
    if i <= 1 {
        assert(!exists|k: int| 0 < k < name@.len() && name@[k] == '.') by {
            if exists|k: int| 0 < k < name@.len() && name@[k] == '.' {
                let k = choose|k: int| 0 < k < name@.len() && name@[k] == '.';
                assert(cs@[k] != '.');
            }
        }
        return string_of(&Vec::new());
    }
    let ghost d = (i - 1) as int;
    assert(0 < d < name@.len() && name@[d] == '.');
    let mut rest: Vec<char> = Vec::new();
    let mut k: usize = i;
    while k < cs.len()
        invariant
            i <= k <= cs.len(),
            cs@ == name@,
            rest@ == cs@.subrange(i as int, k as int),
        decreases cs.len() - k,
    {
        rest.push(cs[k]);
        assert(cs@.subrange(i as int, k + 1) =~= cs@.subrange(i as int, k as int).push(cs@[k as int]));
        k = k + 1;
    }
    proof {
        let c = choose|c: int|
            0 < c < name@.len() && name@[c] == '.' && forall|j: int|
                c < j < name@.len() ==> name@[j] != '.';
        assert(forall|j: int| d < j < name@.len() ==> name@[j] != '.');
        if c < d {
        } else if c > d {
            assert(cs@[c] != '.');
        }
        assert(c == d);
        assert(rest@ =~= name@.skip(d + 1));
    }
    string_of(&rest)
}

/// The syntax for a file named `file_name` whose text starts with the line
/// `first_line`.
fn choose_syntax<'a>(h: &'a Highlighting, file_name: &str, first_line: &str) -> (r: &'a SyntaxReference)
    ensures
        *r == h.chosen_syntax(file_name@, first_line@),
{
    proof {
        use_type_invariant(h);
    }
    if let Some(s) = syntax_by_extension(h, file_name) {
        return s;
    }
    let ext = extension(file_name);
    if let Some(s) = syntax_by_extension(h, ext.as_str()) {
        return s;
    }
    if let Some(s) = syntax_by_first_line(h, first_line) {
        return s;
    }
    syntax_by_name(h, "Plain Text").unwrap()
}

/// Highlight `lines`, the lines of the text of the file named `file_name`.
pub fn highlight_lines(h: &Highlighting, file_name: &str, lines: &Vec<String>) -> (r: Vec<HighlightedLine>)
    ensures
        lines_view(r@) == h.highlighted(file_name@, lines.deep_view()),
        highlights(r@, lines.deep_view()),
{
    proof {
        use_type_invariant(h);
    }
    let first: String = if lines.len() > 0 {
        lines[0].clone()
    } else {
        string_of(&Vec::new())
    };
    let syntax = choose_syntax(h, file_name, first.as_str());
    let theme = theme_by_name(h, "base16-ocean.dark").unwrap();
    let mut hl = new_highlighter(syntax, theme);
    let ghost start = hl;
    let ghost ls = lines.deep_view();
    let mut out: Vec<HighlightedLine> = Vec::new();
    let mut k: usize = 0;
    proof {
        assert(ls.skip(0) =~= ls);
    }
    while k < lines.len()
        invariant
            k <= lines.len(),
            ls == lines.deep_view(),
            out.len() == k,
            highlight_from(start, ls, h.syntax_set()) == lines_view(out@) + highlight_from(
                hl,
                ls.skip(k as int),
                h.syntax_set(),
            ),
            forall|j: int|
                0 <= j < k ==> segments_text((#[trigger] out@[j]).segments@).is_prefix_of(ls[j]),
        decreases lines.len() - k,
    {
        let ghost before = hl;
        let segments = highlight_line(&mut hl, lines[k].as_str(), h);
        proof {
            assert(ls.skip(k as int)[0] == ls[k as int]);
            assert(ls.skip(k as int).drop_first() =~= ls.skip(k + 1));
        }
        let ghost prev = out@;
        out.push(HighlightedLine { segments });
        proof {
            assert(lines_view(out@) =~= lines_view(prev).push(pieces_view(out@[k as int].segments@)));
            assert(lines_view(out@) + highlight_from(hl, ls.skip(k + 1), h.syntax_set()) =~= lines_view(prev) + highlight_from(before, ls.skip(k as int), h.syntax_set()));
        }
        k = k + 1;
    }
    proof {
        assert(ls.skip(lines.len() as int) =~= Seq::<Seq<char>>::empty());
        assert(lines_view(out@) + Seq::<Seq<(SegmentStyle, Seq<char>)>>::empty() =~= lines_view(out@));
        assert(start == fresh_highlighter(h.chosen_syntax(file_name@, first@), named_theme(h.theme_set(), theme_key())->0));
    }
    out
}

} // verus!
