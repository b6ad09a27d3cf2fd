use vstd::prelude::*;

verus! {

/// A terminal color.
#[derive(Clone, Copy, Debug, PartialEq, Eq, Structural)]
pub enum Color {
    Black,
    Red,
    Green,
    Yellow,
    Blue,
    Magenta,
    Cyan,
    Gray,
    DarkGray,
    White,
    Rgb(u8, u8, u8),
}

/// Visual attributes of a piece of text: colors and font modifiers.
#[derive(Clone, Copy, Debug, PartialEq, Eq)]
pub struct Style {
    pub fg: Option<Color>,
    pub bg: Option<Color>,
    pub bold: bool,
    pub italic: bool,
    pub underlined: bool,
}

/// A piece of text with one style.
#[derive(Clone, Debug)]
pub struct Span {
    pub style: Style,
    pub text: String,
}

/// A styled piece of text, as a value: its style and its characters.
pub type Piece = (Style, Seq<char>);

impl View for Span {
    type V = Piece;

    open spec fn view(&self) -> Piece {
        (self.style, self.text@)
    }
}

/// The pieces that spans show.
pub open spec fn pieces_of(spans: Seq<Span>) -> Seq<Piece> {
    spans.map_values(|s: Span| s@)
}

/// The text that a row of pieces shows, in order.
pub open spec fn row_text(row: Seq<Piece>) -> Seq<char>
    decreases row.len(),
{
    if row.len() == 0 {
        Seq::empty()
    } else {
        row_text(row.drop_last()) + row.last().1
    }
}

/// Spans show the text of their pieces.
pub proof fn lemma_spans_row_text(s: Seq<Span>)
    ensures
        spans_text(s) == row_text(pieces_of(s)),
    decreases s.len(),
{
    if s.len() > 0 {
        lemma_spans_row_text(s.drop_last());
        assert(pieces_of(s).drop_last() =~= pieces_of(s.drop_last()));
    }
}

/// Two rows of equal length whose pieces hold the same texts show the same text.
pub proof fn lemma_row_text_same(a: Seq<Piece>, b: Seq<Piece>)
    requires
        a.len() == b.len(),
        forall|j: int| 0 <= j < a.len() ==> (#[trigger] a[j]).1 == b[j].1,
    ensures
        row_text(a) == row_text(b),
    decreases a.len(),
{
    if a.len() > 0 {
        lemma_row_text_same(a.drop_last(), b.drop_last());
    }
}

/// The text that a span sequence shows, in order.
pub open spec fn spans_text(spans: Seq<Span>) -> Seq<char>
    decreases spans.len(),
{
    if spans.len() == 0 {
        Seq::empty()
    } else {
        spans_text(spans.drop_last()) + spans.last().text@
    }
}

impl Style {
    /// The style with no color and no modifier.
    pub open spec fn plain() -> Style {
        Style { fg: None, bg: None, bold: false, italic: false, underlined: false }
    }

    pub open spec fn with_fg(self, c: Color) -> Style {
        Style { fg: Some(c), ..self }
    }

    pub open spec fn with_bg(self, c: Color) -> Style {
        Style { bg: Some(c), ..self }
    }

    pub open spec fn with_bold(self) -> Style {
        Style { bold: true, ..self }
    }

    pub fn new() -> (r: Style)
        ensures
            r == Style::plain(),
    {
        Style { fg: None, bg: None, bold: false, italic: false, underlined: false }
    }

    /// This style with foreground `c`.
    pub fn fg(self, c: Color) -> (r: Style)
        ensures
            r == self.with_fg(c),
    {
        Style { fg: Some(c), ..self }
    }

    /// This style with background `c`.
    pub fn bg(self, c: Color) -> (r: Style)
        ensures
            r == self.with_bg(c),
    {
        Style { bg: Some(c), ..self }
    }

    /// This style in bold.
    pub fn bold(self) -> (r: Style)
        ensures
            r == self.with_bold(),
    {
        Style { bold: true, ..self }
    }

    /// This style in italics.
    pub fn italic(self) -> (r: Style)
        ensures
            r == (Style { italic: true, ..self }),
    {
        Style { italic: true, ..self }
    }

    /// This style underlined.
    pub fn underlined(self) -> (r: Style)
        ensures
            r == (Style { underlined: true, ..self }),
    {
        Style { underlined: true, ..self }
    }
}


/// The text that `spans` show, in order.
pub fn spans_joined(spans: &Vec<Span>) -> (r: String)
    ensures
        r@ == spans_text(spans@),
{
    let mut out = String::new();
    let mut j: usize = 0;
    while j < spans.len()
        invariant
            j <= spans@.len(),
            out@ == spans_text(spans@.take(j as int)),
        decreases spans@.len() - j,
    {
        proof {
            assert(spans@.take(j + 1).drop_last() =~= spans@.take(j as int));
        }
        out.append(spans[j].text.as_str());
        j = j + 1;
    }
    proof {
        assert(spans@.take(j as int) =~= spans@);
    }
    out
}

} // verus!
