//! Styled text: colours, decorations, spans and lines.

use vstd::prelude::*;

use crate::text::{display_width, lemma_display_width_concat};

verus! {

/// A foreground or background colour.
#[derive(Clone, Copy, Debug, PartialEq, Eq, Structural)]
pub enum Color {
    Blue,
    Green,
    Yellow,
    DarkGray,
    Rgb(u8, u8, u8),
}

/// Colour and decorations of a piece of text.
#[derive(Clone, Copy, Debug, PartialEq, Eq, Structural)]
pub struct TextStyle {
    pub fg: Option<Color>,
    pub bold: bool,
    pub italic: bool,
}

impl TextStyle {
    /// No colour and no decoration.
    pub open spec fn plain_spec() -> TextStyle {
        TextStyle { fg: None, bold: false, italic: false }
    }

    /// The given colour and no decoration.
    pub open spec fn colored_spec(color: Color) -> TextStyle {
        TextStyle { fg: Some(color), bold: false, italic: false }
    }

    /// No colour and no decoration.
    #[verifier::when_used_as_spec(plain_spec)]
    pub fn plain() -> (s: TextStyle)
        ensures
            s == TextStyle::plain_spec(),
    {
        TextStyle { fg: None, bold: false, italic: false }
    }

    /// The given colour and no decoration.
    #[verifier::when_used_as_spec(colored_spec)]
    pub fn colored(color: Color) -> (s: TextStyle)
        ensures
            s == TextStyle::colored_spec(color),
    {
        TextStyle { fg: Some(color), bold: false, italic: false }
    }
}

/// A run of text in one style.
#[derive(Debug)]
pub struct Span {
    pub content: String,
    pub style: TextStyle,
}

/// What a span is to the contracts: its characters and its style.
pub struct SpanView {
    pub content: Seq<char>,
    pub style: TextStyle,
}

impl View for Span {
    type V = SpanView;

    open spec fn view(&self) -> SpanView {
        SpanView { content: self.content@, style: self.style }
    }
}

/// One line of output: spans from left to right.
#[derive(Debug)]
pub struct Line {
    pub spans: Vec<Span>,
}

impl View for Line {
    type V = Seq<SpanView>;

    open spec fn view(&self) -> Seq<SpanView> {
        spans_view(self.spans@)
    }
}

/// The views of `spans`, in order.
pub open spec fn spans_view(spans: Seq<Span>) -> Seq<SpanView> {
    spans.map_values(|s: Span| s@)
}

/// The views of `lines`, in order.
pub open spec fn lines_view(lines: Seq<Line>) -> Seq<Seq<SpanView>> {
    lines.map_values(|l: Line| l@)
}

/// Columns that the spans of a line take on screen together.
pub open spec fn line_width(spans: Seq<SpanView>) -> nat
    decreases spans.len(),
{
    if spans.len() == 0 {
        0
    } else {
        line_width(spans.drop_last()) + display_width(spans.last().content)
    }
}

/// The characters of a line, without their styles.
pub open spec fn line_text(spans: Seq<SpanView>) -> Seq<char>
    decreases spans.len(),
{
    if spans.len() == 0 {
        Seq::empty()
    } else {
        line_text(spans.drop_last()) + spans.last().content
    }
}

/// Every line is at most `width` columns wide.
pub open spec fn lines_fit(lines: Seq<Seq<SpanView>>, width: nat) -> bool {
    forall|i: int| 0 <= i < lines.len() ==> line_width(#[trigger] lines[i]) <= width
}

/// Whether `content` is a run of consecutive characters of `text`.
pub open spec fn char_piece(content: Seq<char>, text: Seq<char>) -> bool {
    exists|a: int, b: int| 0 <= a <= b <= text.len() && content == #[trigger] text.subrange(a, b)
}

/// Whether `q` holds of some span of `line`.
pub open spec fn line_some(line: Seq<SpanView>, q: spec_fn(SpanView) -> bool) -> bool {
    exists|j: int| 0 <= j < line.len() && q(#[trigger] line[j])
}

/// Whether `q` holds of some span of `lines`.
pub open spec fn lines_some(lines: Seq<Seq<SpanView>>, q: spec_fn(SpanView) -> bool) -> bool {
    exists|i: int| 0 <= i < lines.len() && line_some(#[trigger] lines[i], q)
}

/// Whether `q` holds of every span of `line`.
pub open spec fn line_every(line: Seq<SpanView>, q: spec_fn(SpanView) -> bool) -> bool {
    forall|j: int| 0 <= j < line.len() ==> q(#[trigger] line[j])
}

/// Whether `q` holds of every span of `lines`.
pub open spec fn lines_every(lines: Seq<Seq<SpanView>>, q: spec_fn(SpanView) -> bool) -> bool {
    forall|i: int| 0 <= i < lines.len() ==> line_every(#[trigger] lines[i], q)
}

/// Whether a style is neither bold nor italic.
pub open spec fn is_undecorated(style: TextStyle) -> bool {
    !style.bold && !style.italic
}

/// Whether no span of `lines` is bold or italic.
pub open spec fn undecorated(lines: Seq<Seq<SpanView>>) -> bool {
    forall|i: int, j: int|
        0 <= i < lines.len() && 0 <= j < lines[i].len() ==> is_undecorated(
            (#[trigger] lines[i][j]).style,
        )
}

/// The characters of each of `lines`, without their styles.
pub open spec fn lines_text(lines: Seq<Seq<SpanView>>) -> Seq<Seq<char>> {
    lines.map_values(|line: Seq<SpanView>| line_text(line))
}

/// A line is as wide as its characters are together.
pub proof fn lemma_line_width_is_text_width(spans: Seq<SpanView>)
    ensures
        line_width(spans) == display_width(line_text(spans)),
    decreases spans.len(),
{
    if spans.len() > 0 {
        lemma_line_width_is_text_width(spans.drop_last());
        lemma_display_width_concat(line_text(spans.drop_last()), spans.last().content);
    }
}

impl Span {
    /// A span of `content` in `style`.
    pub fn styled(content: String, style: TextStyle) -> (s: Span)
        ensures
            s@ == (SpanView { content: content@, style }),
    {
        Span { content, style }
    }

    /// A span of `content` without colour or decoration.
    pub fn raw(content: String) -> (s: Span)
        ensures
            s@ == (SpanView { content: content@, style: TextStyle::plain_spec() }),
    {
        Span { content, style: TextStyle::plain() }
    }

    /// A span of `content` in the colour with the given red, green and blue
    /// parts.
    pub fn rgb(content: String, r: u8, g: u8, b: u8) -> (s: Span)
        ensures
            s@ == (SpanView {
                content: content@,
                style: TextStyle::colored_spec(Color::Rgb(r, g, b)),
            }),
    {
        Span { content, style: TextStyle::colored(Color::Rgb(r, g, b)) }
    }
}

/// Whether the lines `a` and `b` hold the same characters, line by line.
pub fn same_text(a: &Vec<Line>, b: &Vec<Line>) -> (same: bool)
    ensures
        same == (lines_text(lines_view(a@)) == lines_text(lines_view(b@))),
{
    if a.len() != b.len() {
        assert(lines_text(lines_view(a@)).len() != lines_text(lines_view(b@)).len());
        return false;
    }
    let mut i: usize = 0;
    while i < a.len()
        invariant
            i <= a.len(),
            a.len() == b.len(),
            forall|k: int|
                0 <= k < i ==> lines_text(lines_view(a@))[k] == lines_text(lines_view(b@))[k],
        decreases a.len() - i,
    {
        let left = a[i].text();
        let right = b[i].text();
        assert(lines_text(lines_view(a@))[i as int] == left@);
        assert(lines_text(lines_view(b@))[i as int] == right@);
        if left != right {
            return false;
        }
        i += 1;
    }
    assert(lines_text(lines_view(a@)) =~= lines_text(lines_view(b@)));
    true
}

/// Whether no span of `lines` is bold or italic.
pub fn all_undecorated(lines: &Vec<Line>) -> (plain: bool)
    ensures
        plain == undecorated(lines_view(lines@)),
{
    let mut i: usize = 0;
    while i < lines.len()
        invariant
            i <= lines.len(),
            forall|a: int, b: int|
                0 <= a < i && 0 <= b < lines_view(lines@)[a].len() ==> is_undecorated(
                    (#[trigger] lines_view(lines@)[a][b]).style,
                ),
        decreases lines.len() - i,
    {
        let mut j: usize = 0;
        assert(lines_view(lines@)[i as int] == lines@[i as int]@);
        while j < lines[i].spans.len()
            invariant
                i < lines.len(),
                j <= lines[i as int].spans.len(),
                lines_view(lines@)[i as int] == lines@[i as int]@,
                forall|b: int|
                    0 <= b < j ==> is_undecorated((#[trigger] lines@[i as int]@[b]).style),
            decreases lines[i as int].spans.len() - j,
        {
            let style = lines[i].spans[j].style;
            assert(lines@[i as int]@[j as int].style == style);
            if style.bold || style.italic {
                assert(!is_undecorated(lines_view(lines@)[i as int][j as int].style));
                return false;
            }
            j += 1;
        }
        i += 1;
    }
    true
}

impl Line {
    /// The characters of the line, without their styles.
    pub fn text(&self) -> (s: String)
        ensures
            s@ == line_text(self@),
    {
        let mut s = String::new();
        let mut i: usize = 0;
        while i < self.spans.len()
            invariant
                i <= self.spans.len(),
                s@ == line_text(self@.take(i as int)),
            decreases self.spans.len() - i,
        {
            assert(self@.take(i as int + 1).drop_last() =~= self@.take(i as int));
            s.push_str(self.spans[i].content.as_str());
            i += 1;
        }
        assert(self@.take(i as int) =~= self@);
        s
    }
}

} // verus!
