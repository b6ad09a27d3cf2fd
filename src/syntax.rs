use vstd::prelude::*;

use syntect::easy::HighlightLines;
use syntect::highlighting::{Theme, ThemeSet};
use syntect::parsing::SyntaxSet;

use crate::model::LineOrigin;
use crate::style::{
    Color, Piece, Span, Style, lemma_row_text_same, lemma_spans_row_text, pieces_of, row_text,
    spans_joined, spans_text,
};

verus! {

#[verifier::external_type_specification]
#[verifier::external_body]
pub struct ExSyntaxSet(SyntaxSet);

#[verifier::external_type_specification]
#[verifier::external_body]
pub struct ExTheme(Theme);

/// A token of syntect: foreground red, green and blue, font bits (bold 1,
/// underline 2, italic 4), and text.
pub type Token = (u8, u8, u8, u8, String);

/// A token as a value.
pub type TokenView = (u8, u8, u8, u8, Seq<char>);

/// What syntect makes of `lines`, tokenized in order from the first with its
/// bundled grammar named `grammar` and its bundled theme named `theme` (the
/// empty theme where no bundled theme has that name): the tokens of each line;
/// none where no bundled grammar has that name or the tokenizer fails.
pub uninterp spec fn syntect_tokens(theme: Seq<char>, grammar: Seq<char>, lines: Seq<Seq<char>>) -> Option<
    Seq<Seq<TokenView>>,
>;

/// Whether syntect bundles a theme of that name.
pub uninterp spec fn bundled_theme(name: Seq<char>) -> bool;

/// The name of the bundled grammar that syntect finds for a file extension.
pub uninterp spec fn grammar_for_extension(ext: Seq<char>) -> Option<Seq<char>>;

/// Whether syntect bundles a grammar of that name.
pub uninterp spec fn grammar_named(name: Seq<char>) -> bool;

/// The extension of a file path.
pub uninterp spec fn extension_of(path: Seq<char>) -> Option<Seq<char>>;

/// The last component of a file path.
pub uninterp spec fn file_name_of(path: Seq<char>) -> Option<Seq<char>>;

/// The text of an optional string.
pub open spec fn opt_view(s: Option<String>) -> Option<Seq<char>> {
    match s {
        Some(t) => Some(t@),
        None => None,
    }
}

pub open spec fn token_view(t: Token) -> TokenView {
    (t.0, t.1, t.2, t.3, t.4@)
}

/// The tokens of each line, as values.
pub open spec fn token_rows(r: Option<Vec<Vec<Token>>>) -> Option<Seq<Seq<TokenView>>> {
    match r {
        Some(v) => Some(v@.map_values(|row: Vec<Token>| row@.map_values(|t: Token| token_view(t)))),
        None => None,
    }
}

/// Relies on `SyntaxSet::load_defaults_newlines`: syntect's bundled grammars.
#[verifier::external_body]
fn default_syntaxes() -> SyntaxSet {
    SyntaxSet::load_defaults_newlines()
}

/// Relies on `ThemeSet::load_defaults` and its map of themes by name: the
/// bundled theme of that name, if any.
#[verifier::external_body]
fn bundled_theme_named(name: &str) -> (r: Option<Theme>)
    ensures
        r is Some <==> bundled_theme(name@),
{
    ThemeSet::load_defaults().themes.remove(name)
}

/// Relies on `Theme::default`: a theme with no settings.
#[verifier::external_body]
fn empty_theme() -> Theme {
    Theme::default()
}

/// Relies on `SyntaxSet::find_syntax_by_extension`, in the highlighter's
/// bundled grammars: the name of the grammar found for an extension.
#[verifier::external_body]
fn grammar_by_extension(h: &SyntaxHighlighter, ext: &str) -> (r: Option<String>)
    ensures
        opt_view(r) == grammar_for_extension(ext@),
{
    h.syntax_set.find_syntax_by_extension(ext).map(|s| s.name.clone())
}

/// Relies on `SyntaxSet::find_syntax_by_name`, in the highlighter's bundled
/// grammars: whether a grammar has that name.
#[verifier::external_body]
fn has_grammar(h: &SyntaxHighlighter, name: &str) -> (r: bool)
    ensures
        r == grammar_named(name@),
{
    h.syntax_set.find_syntax_by_name(name).is_some()
}

/// Relies on `Path::extension`: the extension of a file path, if any.
#[verifier::external_body]
fn path_extension(path: &str) -> (r: Option<String>)
    ensures
        opt_view(r) == extension_of(path@),
{
    std::path::Path::new(path).extension().and_then(|e| e.to_str()).map(|e| e.to_string())
}

/// Relies on `Path::file_name`: the last component of a file path, if any.
#[verifier::external_body]
fn path_file_name(path: &str) -> (r: Option<String>)
    ensures
        opt_view(r) == file_name_of(path@),
{
    std::path::Path::new(path).file_name().and_then(|f| f.to_str()).map(|f| f.to_string())
}

/// Relies on `HighlightLines::new` and `HighlightLines::highlight_line`: the
/// tokens of each line, with the grammar of that name found by
/// `SyntaxSet::find_syntax_by_name` in the highlighter's own grammars, which are
/// also the ones the tokenizer is given.
#[verifier::external_body]
fn tokenize(h: &SyntaxHighlighter, grammar: &str, lines: &Vec<String>) -> (r: Option<Vec<Vec<Token>>>)
    ensures
        token_rows(r) == syntect_tokens(h.theme_key(), grammar@, lines@.map_values(|l: String| l@)),
{
    let syntax = h.syntax_set.find_syntax_by_name(grammar)?;
    let mut tokenizer = HighlightLines::new(syntax, &h.theme);
    lines.iter().map(|line| {
        tokenizer.highlight_line(line, &h.syntax_set).ok().map(|ranges| {
            ranges.into_iter().map(|(s, t)| {
                (s.foreground.r, s.foreground.g, s.foreground.b, s.font_style.bits(), t.to_string())
            }).collect()
        })
    }).collect()
}

/// The style of a token of color `(r, g, b)` with font bits `bits`.
pub open spec fn token_style(r: u8, g: u8, b: u8, bits: u8) -> Style {
    Style {
        fg: Some(Color::Rgb(r, g, b)),
        bg: None,
        bold: bits & 1 != 0,
        italic: bits & 4 != 0,
        underlined: bits & 2 != 0,
    }
}

/// The piece of a token.
pub open spec fn token_piece(t: TokenView) -> Piece {
    (token_style(t.0, t.1, t.2, t.3), t.4)
}

/// The pieces of rows of tokens.
pub open spec fn piece_rows(t: Seq<Seq<TokenView>>) -> Seq<Seq<Piece>> {
    t.map_values(|row: Seq<TokenView>| row.map_values(|x: TokenView| token_piece(x)))
}

/// Each row shows exactly its line.
pub open spec fn rows_fit(rows: Seq<Seq<Piece>>, lines: Seq<Seq<char>>) -> bool {
    &&& rows.len() == lines.len()
    &&& forall|i: int| 0 <= i < lines.len() ==> row_text(#[trigger] rows[i]) == lines[i]
}

/// The rows, where they show each line exactly.
pub open spec fn fitting(rows: Option<Seq<Seq<Piece>>>, lines: Seq<Seq<char>>) -> Option<Seq<Seq<Piece>>> {
    match rows {
        Some(r) => if rows_fit(r, lines) {
            Some(r)
        } else {
            None
        },
        None => None,
    }
}

/// The pieces of rows of spans.
pub open spec fn span_rows(r: Option<Vec<Vec<Span>>>) -> Option<Seq<Seq<Piece>>> {
    match r {
        Some(v) => Some(v@.map_values(|row: Vec<Span>| pieces_of(row@))),
        None => None,
    }
}

/// Whether a tokenizer's output gives, for each line, spans that show exactly
/// that line.
pub open spec fn tokens_fit(tokens: Option<Vec<Vec<Span>>>, lines: Seq<Seq<char>>) -> bool {
    fitting(span_rows(tokens), lines) is Some
}

/// The grammar of a file: the one found for its extension, else the one named
/// like the file, else none.
pub open spec fn grammar_choice(path: Seq<char>) -> Option<Seq<char>> {
    let by_ext = match extension_of(path) {
        Some(e) => grammar_for_extension(e),
        None => None,
    };
    if by_ext is Some {
        by_ext
    } else {
        match file_name_of(path) {
            Some(n) => if grammar_named(n) {
                Some(n)
            } else {
                None
            },
            None => None,
        }
    }
}

/// The theme a highlighter asked for `name` gets: that one, else a default
/// dark one, else another, else the empty theme.
pub open spec fn chosen_theme(name: Seq<char>) -> Seq<char> {
    if bundled_theme(name) {
        name
    } else if bundled_theme("base16-eighties.dark"@) {
        "base16-eighties.dark"@
    } else if bundled_theme("base16-ocean.dark"@) {
        "base16-ocean.dark"@
    } else {
        Seq::empty()
    }
}

/// Whether `tokens` give, for each of `lines`, spans that show exactly that line.
pub fn tokens_cover(lines: &Vec<String>, tokens: &Option<Vec<Vec<Span>>>) -> (r: bool)
    ensures
        r == tokens_fit(*tokens, lines@.map_values(|l: String| l@)),
{
    let ghost views = lines@.map_values(|l: String| l@);
    match *tokens {
        None => false,
        Some(ref t) => {
            let ghost rows = span_rows(*tokens)->0;
            if t.len() != lines.len() {
                return false;
            }
            let mut i: usize = 0;
            while i < t.len()
                invariant
                    *tokens == Some(*t),
                    rows == span_rows(*tokens)->0,
                    t@.len() == lines@.len(),
                    views == lines@.map_values(|l: String| l@),
                    i <= t@.len(),
                    forall|k: int| 0 <= k < i ==> row_text(#[trigger] rows[k]) == views[k],
                decreases t@.len() - i,
            {
                let joined = spans_joined(&t[i]);
                proof {
                    lemma_spans_row_text(t@[i as int]@);
                    assert(rows[i as int] == pieces_of(t@[i as int]@));
                    assert(views[i as int] == lines@[i as int]@);
                }
                if !(joined == lines[i]) {
                    proof {
                        assert(!rows_fit(rows, views));
                    }
                    return false;
                }
                i = i + 1;
            }
            proof {
                assert(rows_fit(rows, views));
            }
            true
        },
    }
}

/// Highlights the lines of a file with syntect's bundled grammars and one of
/// its bundled themes, and lays diff backgrounds over the result.
pub struct SyntaxHighlighter {
    syntax_set: SyntaxSet,
    theme: Theme,
    theme_name: String,
    add_bg: Color,
    del_bg: Color,
}

impl SyntaxHighlighter {
    /// The name of the bundled theme in use; empty for the empty theme.
    pub closed spec fn theme_key(&self) -> Seq<char> {
        self.theme_name@
    }

    /// The background of added lines.
    pub closed spec fn add_color(&self) -> Color {
        self.add_bg
    }

    /// The background of deleted lines.
    pub closed spec fn del_color(&self) -> Color {
        self.del_bg
    }

    /// The background that lines of origin `o` get, if any.
    pub open spec fn background(self, o: LineOrigin) -> Option<Color> {
        match o {
            LineOrigin::Addition => Some(self.add_color()),
            LineOrigin::Deletion => Some(self.del_color()),
            LineOrigin::Context => None,
        }
    }

    /// The style that a span of style `s` gets on a line of origin `o`.
    pub open spec fn overlay(self, s: Style, o: LineOrigin) -> Style {
        match self.background(o) {
            Some(c) => s.with_bg(c),
            None => s,
        }
    }

    /// `out` is `pieces` with the background of origin `o` laid over each one.
    pub open spec fn overlaid(self, out: Seq<Span>, pieces: Seq<Piece>, o: LineOrigin) -> bool {
        &&& out.len() == pieces.len()
        &&& forall|j: int|
            0 <= j < pieces.len() ==> (#[trigger] out[j]).text@ == pieces[j].1 && out[j].style
                == self.overlay(pieces[j].0, o)
    }

    /// The highlighted rows of the lines of file `path`: syntect's tokens with
    /// the file's grammar, where they show each line exactly.
    pub open spec fn highlight_spec(self, path: Seq<char>, lines: Seq<Seq<char>>) -> Option<
        Seq<Seq<Piece>>,
    > {
        match grammar_choice(path) {
            None => None,
            Some(g) => fitting(
                match syntect_tokens(self.theme_key(), g, lines) {
                    Some(t) => Some(piece_rows(t)),
                    None => None,
                },
                lines,
            ),
        }
    }

    /// A highlighter with syntect's bundled grammars, the bundled theme named
    /// `syntect_theme` (else a default dark one, else an empty theme), and the
    /// given diff backgrounds.
    pub fn new(syntect_theme: &str, add_bg: Color, del_bg: Color) -> (r: SyntaxHighlighter)
        ensures
            r.add_color() == add_bg,
            r.del_color() == del_bg,
            r.theme_key() == chosen_theme(syntect_theme@),
    {
        let syntax_set = default_syntaxes();
        let (theme, theme_name) = match bundled_theme_named(syntect_theme) {
            Some(t) => (t, syntect_theme.to_owned()),
            None => match bundled_theme_named("base16-eighties.dark") {
                Some(t) => (t, "base16-eighties.dark".to_owned()),
                None => match bundled_theme_named("base16-ocean.dark") {
                    Some(t) => (t, "base16-ocean.dark".to_owned()),
                    None => (empty_theme(), String::new()),
                },
            },
        };
        SyntaxHighlighter { syntax_set, theme, theme_name, add_bg, del_bg }
    }

    /// The name of the grammar of a file: the one found for its extension,
    /// else the one named like the file, else none.
    pub fn get_syntax(&self, file_path: &str) -> (r: Option<String>)
        ensures
            opt_view(r) == grammar_choice(file_path@),
    {
        match path_extension(file_path) {
            Some(ext) => match grammar_by_extension(self, ext.as_str()) {
                Some(g) => {
                    return Some(g);
                },
                None => {},
            },
            None => {},
        }
        match path_file_name(file_path) {
            Some(name) => if has_grammar(self, name.as_str()) {
                Some(name)
            } else {
                None
            },
            None => None,
        }
    }

    /// The highlighted lines of file `file_path`: for each line, spans that
    /// show exactly that line. None where no grammar matches, the tokenizer
    /// fails, or its spans do not show each line exactly.
    pub fn highlight_file_lines(&self, file_path: &str, lines: &Vec<String>) -> (r: Option<
        Vec<Vec<Span>>,
    >)
        ensures
            span_rows(r) == self.highlight_spec(file_path@, lines@.map_values(|l: String| l@)),
            r is Some ==> tokens_fit(r, lines@.map_values(|l: String| l@)),
    {
        let grammar = match self.get_syntax(file_path) {
            Some(g) => g,
            None => {
                return None;
            },
        };
        let tokens = match tokenize(self, grammar.as_str(), lines) {
            Some(t) => t,
            None => {
                return None;
            },
        };
        let ghost want = piece_rows(token_rows(Some(tokens))->0);
        let mut rows: Vec<Vec<Span>> = Vec::new();
        let mut i: usize = 0;
        while i < tokens.len()
            invariant
                i <= tokens@.len(),
                want == piece_rows(token_rows(Some(tokens))->0),
                rows@.map_values(|row: Vec<Span>| pieces_of(row@)) =~= want.take(i as int),
            decreases tokens@.len() - i,
        {
            let row = spans_of_tokens(&tokens[i]);
            proof {
                assert(want[i as int] =~= pieces_of(row@));
            }
            let ghost prev = rows@;
            rows.push(row);
            proof {
                assert(rows@.map_values(|row: Vec<Span>| pieces_of(row@)) =~= prev.map_values(
                    |row: Vec<Span>| pieces_of(row@),
                ).push(pieces_of(row@)));
            }
            i = i + 1;
        }
        proof {
            assert(want.take(i as int) =~= want);
        }
        checked_highlights(lines, Some(rows))
    }

    /// `spans` with the background of `origin` laid over each span: texts,
    /// count and every other attribute stay as they are.
    pub fn apply_diff_background(&self, spans: &Vec<Span>, origin: LineOrigin) -> (r: Vec<Span>)
        ensures
            self.overlaid(r@, pieces_of(spans@), origin),
            spans_text(r@) == spans_text(spans@),
    {
        let mut out: Vec<Span> = Vec::new();
        let mut j: usize = 0;
        while j < spans.len()
            invariant
                j <= spans@.len(),
                self.overlaid(out@, pieces_of(spans@.take(j as int)), origin),
            decreases spans@.len() - j,
        {
            let s = &spans[j];
            let style = match origin {
                LineOrigin::Addition => s.style.bg(self.add_bg),
                LineOrigin::Deletion => s.style.bg(self.del_bg),
                LineOrigin::Context => s.style,
            };
            out.push(Span { style, text: s.text.clone() });
            j = j + 1;
        }
        proof {
            assert(spans@.take(j as int) =~= spans@);
            lemma_spans_row_text(out@);
            lemma_spans_row_text(spans@);
            lemma_row_text_same(pieces_of(out@), pieces_of(spans@));
        }
        out
    }
}

impl Default for SyntaxHighlighter {
    /// A highlighter with the default dark theme and green and red backgrounds.
    fn default() -> (r: SyntaxHighlighter)
        ensures
            r.add_color() == Color::Rgb(0, 35, 12),
            r.del_color() == Color::Rgb(45, 0, 0),
    {
        SyntaxHighlighter::new("base16-eighties.dark", Color::Rgb(0, 35, 12), Color::Rgb(45, 0, 0))
    }
}

/// The highlighted lines, where the tokenizer's output shows each line
/// exactly; else none, and the lines are shown as plain text.
pub fn checked_highlights(lines: &Vec<String>, tokens: Option<Vec<Vec<Span>>>) -> (r: Option<
    Vec<Vec<Span>>,
>)
    ensures
        r == if tokens_fit(tokens, lines@.map_values(|l: String| l@)) {
            tokens
        } else {
            None
        },
{
    if tokens_cover(lines, &tokens) {
        tokens
    } else {
        None
    }
}

/// The spans of syntect's tokens of one line, one for one.
pub fn spans_of_tokens(tokens: &Vec<Token>) -> (r: Vec<Span>)
    ensures
        pieces_of(r@) == tokens@.map_values(|t: Token| token_piece(token_view(t))),
{
    let mut out: Vec<Span> = Vec::new();
    let mut j: usize = 0;
    while j < tokens.len()
        invariant
            j <= tokens@.len(),
            pieces_of(out@) =~= tokens@.take(j as int).map_values(|t: Token| token_piece(token_view(t))),
        decreases tokens@.len() - j,
    {
        let t = &tokens[j];
        let style = Style {
            fg: Some(Color::Rgb(t.0, t.1, t.2)),
            bg: None,
            bold: t.3 & 1 != 0,
            italic: t.3 & 4 != 0,
            underlined: t.3 & 2 != 0,
        };
        let span = Span { style, text: t.4.clone() };
        let ghost prev = out@;
        out.push(span);
        proof {
            assert(span@ == token_piece(token_view(tokens@[j as int])));
            assert(pieces_of(out@) =~= pieces_of(prev).push(span@));
            assert(tokens@.take(j + 1) =~= tokens@.take(j as int).push(tokens@[j as int]));
        }
        j = j + 1;
    }
    proof {
        assert(tokens@.take(j as int) =~= tokens@);
    }
    out
}

impl SyntaxHighlighter {
    /// Laying a diff background over spans keeps their count and the text
    /// they show; on a context line it changes nothing at all, and on an added
    /// or deleted line it changes only the background.
    pub proof fn law_overlay_keeps_text(self, out: Seq<Span>, spans: Seq<Span>, o: LineOrigin)
        requires
            self.overlaid(out, pieces_of(spans), o),
        ensures
            out.len() == spans.len(),
            spans_text(out) == spans_text(spans),
            o == LineOrigin::Context ==> pieces_of(out) == pieces_of(spans),
            forall|j: int|
                0 <= j < out.len() ==> (#[trigger] out[j]).style.fg == spans[j].style.fg
                    && out[j].style.bold == spans[j].style.bold && out[j].style.italic
                    == spans[j].style.italic && out[j].style.underlined
                    == spans[j].style.underlined,
            o != LineOrigin::Context ==> forall|j: int|
                0 <= j < out.len() ==> (#[trigger] out[j]).style.bg == self.background(o),
    {
        lemma_spans_row_text(out);
        lemma_spans_row_text(spans);
        lemma_row_text_same(pieces_of(out), pieces_of(spans));
        if o == LineOrigin::Context {
            assert(pieces_of(out) =~= pieces_of(spans));
        }
    }
}

} // verus!
