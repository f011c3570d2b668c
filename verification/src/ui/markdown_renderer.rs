//! Renders Markdown content for the chat UI.

use pulldown_cmark::Event::{Code, End, HardBreak, SoftBreak, Start, Text};
use pulldown_cmark::TagEnd::{CodeBlock, Emphasis, Item, List, Paragraph, Strong};
use pulldown_cmark::{CodeBlockKind, Options, Parser, Tag};
use syntect::easy::HighlightLines;
use syntect::highlighting::ThemeSet;
use syntect::parsing::SyntaxSet;
use syntect::util::LinesWithEndings;
use vstd::prelude::*;

use crate::text::{
    chars_of, column_width, columns_within, display_width, fit_count, fit_end,
    from_chars, from_glyphs, glyph_of, lemma_columns_are_display_width, lemma_fit_count,
    lemma_measured, line_end, lines_with_endings, measure, measure_char, measure_chars, measured,
    plainly_measured, spaces, text_plainly_measured, to_chars, white_space, Glyph,
};
use crate::ui::layout::{
    add_text, columns_fit, empty_layout, flushed, indent_span, layout_all, layout_fits,
    layout_has, layout_measured, lemma_add_text_all, lemma_add_text_fits, lemma_add_text_keeps,
    lemma_add_text_measured, lemma_add_text_shows, lemma_add_text_space, lemma_flushed_has,
    lemma_fresh_line_columns, lemma_line_columns_are_width, lemma_line_columns_push,
    lemma_measured_line, lemma_measured_lines, lemma_push_line_has, lemma_push_span_has,
    lemma_push_span_measured, line_all, line_columns, line_has, line_measured, line_spans,
    lines_all, lines_have, lines_measured, lines_spans, measured_line, measured_lines,
    raw_glyphs, raw_span, span_text, text_fits, with_blank, with_lines, with_span, GlyphSpan,
    Layout, LayoutView,
};
use crate::ui::style::{
    all_undecorated, char_piece, is_undecorated, lemma_line_width_is_text_width, line_every,
    line_some, line_text, line_width, lines_every, lines_fit, lines_some, lines_text,
    lines_view, same_text, undecorated, Color, Line, Span, SpanView, TextStyle,
};

verus! {

/// The kinds of markdown element that the renderer tells apart.
#[derive(Clone, Copy, Debug, PartialEq, Eq, Structural)]
pub enum Node {
    Paragraph,
    CodeBlock,
    List,
    Item,
    Emphasis,
    Strong,
    Other,
}

/// One step of a parsed markdown document.
#[derive(Debug)]
pub enum MdEvent {
    /// An element opens.
    Start(Node),
    /// A fenced code block opens; the text is the language tag of the fence.
    Fence(String),
    /// An element closes.
    End(Node),
    /// Literal text.
    Text(String),
    /// An inline code span.
    Code(String),
    /// A line break inside a paragraph that the source did not force.
    SoftBreak,
    /// A forced line break.
    HardBreak,
    /// Anything that the renderer passes over.
    Other,
}

/// The event stream that the markdown parser produces for `content`,
/// with strikethrough enabled.
pub uninterp spec fn markdown_events(content: Seq<char>) -> Seq<MdEvent>;

/// Runs `pulldown_cmark::Parser::new_ext` over `content` with the
/// strikethrough extension and hands back its events one for one. The
/// parser reads nothing but `content`, so the events depend on it alone.
#[verifier::external_body]
fn parse_events(content: &str) -> (events: Vec<MdEvent>)
    ensures
        events@ == markdown_events(content@),
{
    let node = |end| match end {
        Paragraph => Node::Paragraph, CodeBlock => Node::CodeBlock,
        List(_) => Node::List, Item => Node::Item,
        Emphasis => Node::Emphasis, Strong => Node::Strong,
        _ => Node::Other,
    };
    Parser::new_ext(content, Options::ENABLE_STRIKETHROUGH).map(|event| match event {
        Start(Tag::CodeBlock(CodeBlockKind::Fenced(lang))) => MdEvent::Fence(lang.into_string()),
        Start(tag) => MdEvent::Start(node(tag.to_end())),
        End(end) => MdEvent::End(node(end)),
        Text(text) => MdEvent::Text(text.into_string()),
        Code(text) => MdEvent::Code(text.into_string()),
        SoftBreak => MdEvent::SoftBreak, HardBreak => MdEvent::HardBreak,
        _ => MdEvent::Other,
    }).collect()
}

/// The coloured tokens, line by line, that the syntax highlighter produces
/// for `code` under the syntax that it knows by `token`, a file extension or
/// a language name, and the theme named `theme`; `None` where it knows no
/// such syntax or theme, or reports an error.
pub uninterp spec fn highlighted(code: Seq<char>, token: Seq<char>, theme: Seq<char>) -> Option<
    Seq<Seq<SpanView>>,
>;

/// Looks the syntax up with `syntect::parsing::SyntaxSet::find_syntax_by_token`
/// and runs `syntect::easy::HighlightLines::highlight_line` over each line
/// that `syntect::util::LinesWithEndings` finds in `code`, with the bundled
/// syntaxes and the bundled theme `theme`, and hands the tokens back with
/// their foreground colours. Syntaxes and themes are compiled in, so the
/// tokens depend on `code`, `token` and `theme` alone. The highlighter
/// compiles the patterns of a bundled syntax when it first uses them and
/// counts on their compiling.
#[verifier::external_body]
fn highlight_lines(code: &str, token: &str, theme: &str) -> (lines: Option<Vec<Line>>)
    ensures
        match lines {
            Some(found) => highlighted(code@, token@, theme@) == Some(lines_view(found@)),
            None => highlighted(code@, token@, theme@) is None,
        },
{
    let syntaxes = SyntaxSet::load_defaults_newlines();
    let themes = ThemeSet::load_defaults();
    let grammar = syntaxes.find_syntax_by_token(token)?;
    let mut lighter = HighlightLines::new(grammar, themes.themes.get(theme)?);
    LinesWithEndings::from(code).map(|line| {
        let tokens = lighter.highlight_line(line, &syntaxes).ok()?;
        let color = |(style, text): (syntect::highlighting::Style, &str)| {
            Span::rgb(text.to_string(), style.foreground.r, style.foreground.g, style.foreground.b)
        };
        Some(Line { spans: tokens.into_iter().map(color).collect() })
    }).collect()
}

/// The tokens to show a code block in, given what the highlighter made of
/// it under the language tag of its fence and what it makes of it as plain
/// text: the first where there is one, else the second.
pub open spec fn tagged_or_plain(
    tagged: Option<Seq<Seq<SpanView>>>,
    plain: Option<Seq<Seq<SpanView>>>,
) -> Option<Seq<Seq<SpanView>>> {
    match tagged {
        Some(lines) => Some(lines),
        None => plain,
    }
}

/// The coloured tokens of a code block with the text `code` and the
/// language tag `lang`, with the theme "base16-ocean.dark": highlighted in
/// the syntax known under the tag, or as plain text where there is none.
pub open spec fn block_tokens(code: Seq<char>, lang: Seq<char>) -> Option<Seq<Seq<SpanView>>> {
    tagged_or_plain(
        highlighted(code, lang, "base16-ocean.dark"@),
        highlighted(code, "Plain Text"@, "base16-ocean.dark"@),
    )
}

/// The lines of `code`, each as one span without colour.
pub open spec fn plain_code_lines(code: Seq<char>) -> Seq<Seq<SpanView>> {
    lines_with_endings(code).map_values(|line: Seq<char>| seq![raw_span(line)])
}

/// The lines that a code block contributes: its highlighted tokens where
/// they spell out the lines of the code and are coloured only, neither bold
/// nor italic; else its bare lines.
pub open spec fn block_lines(tokens: Option<Seq<Seq<SpanView>>>, code: Seq<char>) -> Seq<
    Seq<SpanView>,
> {
    match tokens {
        Some(lines) => if lines_text(lines) == lines_with_endings(code) && undecorated(lines) {
            lines
        } else {
            plain_code_lines(code)
        },
        None => plain_code_lines(code),
    }
}

/// No span of a code block is bold or italic.
pub proof fn lemma_block_lines_undecorated(tokens: Option<Seq<Seq<SpanView>>>, code: Seq<char>)
    ensures
        undecorated(block_lines(tokens, code)),
{
    let plain = plain_code_lines(code);
    assert forall|i: int, j: int| 0 <= i < plain.len() && 0 <= j < plain[i].len() implies is_undecorated(
        (#[trigger] plain[i][j]).style,
    ) by {
        assert(plain[i] == seq![raw_span(lines_with_endings(code)[i])]);
    }
}

/// The bare lines of a code block spell out the lines of the code.
proof fn lemma_plain_code_lines_text(code: Seq<char>)
    ensures
        lines_text(plain_code_lines(code)) == lines_with_endings(code),
{
    let plain = plain_code_lines(code);
    assert forall|i: int| 0 <= i < plain.len() implies lines_text(plain)[i]
        == lines_with_endings(code)[i] by {
        let line = lines_with_endings(code)[i];
        assert(plain[i] == seq![raw_span(line)]);
        assert(plain[i].drop_last() =~= Seq::<SpanView>::empty());
        assert(plain[i].last() == raw_span(line));
        assert(line_text(plain[i].drop_last()) =~= Seq::<char>::empty());
        assert(line_text(plain[i]) =~= line_text(plain[i].drop_last()) + line);
        assert(line_text(plain[i]) =~= line);
    }
    assert(lines_text(plain) =~= lines_with_endings(code));
}

/// A code block is shown line for line as it was written: whatever the
/// highlighter made of it, the lines that the block contributes spell out
/// the lines of the code, line endings included.
pub proof fn lemma_block_lines_text(tokens: Option<Seq<Seq<SpanView>>>, code: Seq<char>)
    ensures
        lines_text(block_lines(tokens, code)) == lines_with_endings(code),
{
    lemma_plain_code_lines_text(code);
}

/// The style of an inline code span.
pub open spec fn code_style() -> TextStyle {
    TextStyle { fg: Some(Color::Yellow), bold: false, italic: true }
}

/// The glyph that marks an item of a list nested `level` deep.
pub open spec fn bullet_glyph(level: nat) -> char {
    if level % 2 == 1 {
        '\u{2022}'
    } else {
        '\u{25E6}'
    }
}

/// The text that opens an item of a list nested `level` deep: two spaces
/// for each enclosing list, the glyph and a space.
pub open spec fn bullet_text(level: nat) -> Seq<char> {
    spaces(
        if level > 0 {
            (2 * (level - 1)) as nat
        } else {
            0
        },
    ) + seq![bullet_glyph(level), ' ']
}

/// An inline code span as it is shown: between backticks.
pub open spec fn code_text(text: Seq<char>) -> Seq<char> {
    seq!['`'] + text + seq!['`']
}

/// What the renderer knows after some events.
pub struct RenderView {
    /// Lines produced so far.
    pub layout: LayoutView,
    /// Whether a code block is open.
    pub in_code: bool,
    /// Language tag of the open code block.
    pub lang: Seq<char>,
    /// Text of the open code block so far.
    pub code: Seq<char>,
    /// How many lists are open.
    pub level: nat,
    /// Decorations of the text that comes next.
    pub style: TextStyle,
}

/// The renderer before any event.
pub open spec fn initial_render() -> RenderView {
    RenderView {
        layout: empty_layout(glyph_of(' ')),
        in_code: false,
        lang: Seq::empty(),
        code: Seq::empty(),
        level: 0,
        style: TextStyle::plain_spec(),
    }
}

/// The renderer after one more event, for lines of `width` columns.
pub open spec fn step(st: RenderView, event: MdEvent, width: nat) -> RenderView {
    match event {
        MdEvent::Fence(lang) => RenderView {
            layout: flushed(st.layout),
            in_code: true,
            lang: lang@,
            ..st
        },
        MdEvent::Start(Node::CodeBlock) => RenderView {
            layout: flushed(st.layout),
            in_code: true,
            ..st
        },
        MdEvent::End(Node::CodeBlock) => RenderView {
            layout: with_lines(
                st.layout,
                measured_lines(block_lines(block_tokens(st.code, st.lang), st.code)),
            ),
            in_code: false,
            lang: Seq::empty(),
            code: Seq::empty(),
            ..st
        },
        MdEvent::Text(text) => if st.in_code {
            RenderView { code: st.code + text@, ..st }
        } else {
            RenderView {
                layout: add_text(st.layout, measured(text@), width, st.level, st.style),
                ..st
            }
        },
        MdEvent::SoftBreak => if st.in_code {
            st
        } else {
            RenderView {
                layout: add_text(st.layout, measured(seq![' ']), width, st.level, st.style),
                ..st
            }
        },
        MdEvent::HardBreak => if st.in_code {
            st
        } else {
            RenderView { layout: flushed(st.layout), ..st }
        },
        MdEvent::Start(Node::List) => RenderView {
            layout: flushed(st.layout),
            level: st.level + 1,
            ..st
        },
        MdEvent::End(Node::List) => RenderView {
            layout: flushed(st.layout),
            level: if st.level > 0 {
                (st.level - 1) as nat
            } else {
                0
            },
            ..st
        },
        MdEvent::Start(Node::Item) => RenderView {
            layout: with_span(flushed(st.layout), raw_glyphs(measured(bullet_text(st.level)))),
            ..st
        },
        MdEvent::End(Node::Item) => RenderView { layout: flushed(st.layout), ..st },
        MdEvent::Start(Node::Emphasis) => RenderView {
            style: TextStyle { italic: true, ..st.style },
            ..st
        },
        MdEvent::End(Node::Emphasis) => RenderView {
            style: TextStyle { italic: false, ..st.style },
            ..st
        },
        MdEvent::Start(Node::Strong) => RenderView {
            style: TextStyle { bold: true, ..st.style },
            ..st
        },
        MdEvent::End(Node::Strong) => RenderView {
            style: TextStyle { bold: false, ..st.style },
            ..st
        },
        MdEvent::Code(text) => RenderView {
            layout: add_text(
                st.layout,
                measured(code_text(text@)),
                width,
                st.level,
                code_style(),
            ),
            ..st
        },
        MdEvent::Start(Node::Paragraph) => if st.layout.lines.len() > 0 {
            RenderView { layout: with_blank(st.layout), ..st }
        } else {
            st
        },
        MdEvent::End(Node::Paragraph) => RenderView {
            layout: with_blank(flushed(st.layout)),
            ..st
        },
        _ => st,
    }
}

/// The renderer after all of `events`, taken in order.
pub open spec fn run(events: Seq<MdEvent>, width: nat) -> RenderView
    decreases events.len(),
{
    if events.len() == 0 {
        initial_render()
    } else {
        step(run(events.drop_last(), width), events.last(), width)
    }
}

/// `lines` without the lines at its end that hold no span.
pub open spec fn trim_blank(lines: Seq<Seq<SpanView>>) -> Seq<Seq<SpanView>>
    decreases lines.len(),
{
    if lines.len() > 0 && lines.last().len() == 0 {
        trim_blank(lines.drop_last())
    } else {
        lines
    }
}

/// The lines that `events` render to at `width` columns.
pub open spec fn render_events(events: Seq<MdEvent>, width: nat) -> Seq<Seq<SpanView>> {
    trim_blank(lines_spans(flushed(run(events, width).layout).lines))
}

/// The lines that the markdown text `content` renders to at `width` columns.
pub open spec fn rendered(content: Seq<char>, width: nat) -> Seq<Seq<SpanView>> {
    render_events(markdown_events(content), width)
}

/// Where a code block closes, its lines join the finished lines as they
/// were written, one line for each line of the code and whatever the width:
/// nothing of a code block is wrapped.
pub proof fn lemma_code_block_is_shown_as_written(st: RenderView, width: nat)
    ensures
        step(st, MdEvent::End(Node::CodeBlock), width).layout.lines.len()
            == st.layout.lines.len() + lines_with_endings(st.code).len(),
        lines_text(
            lines_spans(
                step(st, MdEvent::End(Node::CodeBlock), width).layout.lines.skip(
                    st.layout.lines.len() as int,
                ),
            ),
        ) == lines_with_endings(st.code),
        step(st, MdEvent::End(Node::CodeBlock), width).layout.lines.take(
            st.layout.lines.len() as int,
        ) == st.layout.lines,
{
    let block = block_lines(block_tokens(st.code, st.lang), st.code);
    lemma_block_lines_text(block_tokens(st.code, st.lang), st.code);
    lemma_measured_lines(block);
    assert(lines_text(block).len() == block.len());
    assert((st.layout.lines + measured_lines(block)).skip(st.layout.lines.len() as int)
        =~= measured_lines(block));
    assert((st.layout.lines + measured_lines(block)).take(st.layout.lines.len() as int)
        =~= st.layout.lines);
}

/// Whether `text` can be wrapped at `width` columns inside a list nested
/// `level` deep: the indentation of two spaces for each list fits, and so
/// does every character that is not whitespace beside it.
pub open spec fn fits_beside_indent(text: Seq<char>, level: nat, width: nat) -> bool {
    &&& 2 * level * column_width(' ') <= width
    &&& forall|i: int|
        0 <= i < text.len() && !white_space(#[trigger] text[i]) ==> 2 * level * column_width(' ')
            + column_width(text[i]) <= width
}

/// Whether what `event` adds to the lines fits `width` columns: the
/// characters of text fit beside the indentation, the bullet of an item
/// fits, and the lines of a code block, which are never wrapped, fit as they
/// were written.
pub open spec fn event_fits(st: RenderView, event: MdEvent, width: nat) -> bool {
    match event {
        MdEvent::End(Node::CodeBlock) => forall|k: int|
            0 <= k < lines_with_endings(st.code).len() ==> display_width(
                #[trigger] lines_with_endings(st.code)[k],
            ) <= width,
        MdEvent::Text(text) => st.in_code || fits_beside_indent(text@, st.level, width),
        MdEvent::SoftBreak => st.in_code || fits_beside_indent(seq![' '], st.level, width),
        MdEvent::Code(text) => fits_beside_indent(code_text(text@), st.level, width),
        MdEvent::Start(Node::Item) => display_width(bullet_text(st.level)) <= width,
        _ => true,
    }
}

/// Whether what the event number `j` adds fits `width` columns where it
/// stands.
pub open spec fn fits_at(events: Seq<MdEvent>, width: nat, j: int) -> bool {
    event_fits(run(events.take(j), width), events[j], width)
}

/// Whether what each of `events` adds fits `width` columns.
pub open spec fn all_fit(events: Seq<MdEvent>, width: nat) -> bool {
    forall|j: int| 0 <= j < events.len() ==> #[trigger] fits_at(events, width, j)
}

/// The first `i + 1` events all fit exactly where the first `i` do and
/// the next one does.
proof fn lemma_all_fit_step(events: Seq<MdEvent>, width: nat, i: int)
    requires
        0 <= i < events.len(),
    ensures
        all_fit(events.take(i + 1), width) == (all_fit(events.take(i), width) && fits_at(
            events,
            width,
            i,
        )),
{
    let longer = events.take(i + 1);
    let shorter = events.take(i);
    assert(longer.take(i) =~= shorter);
    assert(longer[i] == events[i]);
    assert(fits_at(longer, width, i) == fits_at(events, width, i));
    assert forall|j: int| 0 <= j < i implies fits_at(shorter, width, j) == fits_at(
        longer,
        width,
        j,
    ) by {
        assert(shorter.take(j) =~= longer.take(j));
        assert(shorter[j] == longer[j]);
    }
    if all_fit(longer, width) {
        assert forall|j: int| 0 <= j < shorter.len() implies #[trigger] fits_at(
            shorter,
            width,
            j,
        ) by {
            assert(fits_at(longer, width, j));
        }
    }
    if all_fit(shorter, width) && fits_at(events, width, i) {
        assert forall|j: int| 0 <= j < longer.len() implies #[trigger] fits_at(
            longer,
            width,
            j,
        ) by {
            if j < i {
                assert(fits_at(shorter, width, j));
            }
        }
    }
}

/// The layout takes no more than `width` columns in any line, and its
/// glyphs carry the widths of their characters.
pub open spec fn layout_sound(l: LayoutView, width: nat) -> bool {
    layout_fits(l, width) && layout_measured(l)
}

/// Finishing the line under construction keeps the layout sound.
proof fn lemma_flushed_sound(l: LayoutView, width: nat)
    requires
        layout_sound(l, width),
    ensures
        layout_sound(flushed(l), width),
{
    let f = flushed(l);
    assert forall|i: int| 0 <= i < f.lines.len() implies line_measured(#[trigger] f.lines[i])
        && line_columns(f.lines[i]) <= width by {
        if i < l.lines.len() {
            assert(f.lines[i] == l.lines[i]);
        }
    }
}

/// One more line within the width keeps the layout sound.
proof fn lemma_with_lines_sound(l: LayoutView, more: Seq<Seq<GlyphSpan>>, width: nat)
    requires
        layout_sound(l, width),
        columns_fit(more, width),
        lines_measured(more),
    ensures
        layout_sound(with_lines(l, more), width),
{
    let joined = l.lines + more;
    assert forall|i: int| 0 <= i < joined.len() implies line_measured(#[trigger] joined[i])
        && line_columns(joined[i]) <= width by {
        if i < l.lines.len() {
            assert(joined[i] == l.lines[i]);
        } else {
            assert(joined[i] == more[i - l.lines.len()]);
        }
    }
}

/// Text that fits beside the indentation has glyphs that fit a line
/// that was just begun.
proof fn lemma_fits_beside_indent(text: Seq<char>, level: nat, width: nat)
    requires
        fits_beside_indent(text, level, width),
    ensures
        text_fits(measured(text), level, glyph_of(' '), width),
{
    lemma_fresh_line_columns(level, glyph_of(' '));
    lemma_measured(text);
}

/// An event whose additions fit keeps the layout sound.
proof fn lemma_step_sound(st: RenderView, event: MdEvent, width: nat)
    requires
        layout_sound(st.layout, width),
        st.layout.space == glyph_of(' '),
        event_fits(st, event, width),
    ensures
        layout_sound(step(st, event, width).layout, width),
        step(st, event, width).layout.space == glyph_of(' '),
{
    lemma_flushed_sound(st.layout, width);
    lemma_with_lines_sound(st.layout, seq![Seq::empty()], width);
    assert(st.layout.lines + seq![Seq::<GlyphSpan>::empty()] =~= st.layout.lines.push(
        Seq::empty(),
    ));
    lemma_with_lines_sound(flushed(st.layout), seq![Seq::empty()], width);
    assert(flushed(st.layout).lines + seq![Seq::<GlyphSpan>::empty()] =~= flushed(
        st.layout,
    ).lines.push(Seq::empty()));
    match event {
        MdEvent::Text(text) => {
            if !st.in_code {
                lemma_measured(text@);
                lemma_fits_beside_indent(text@, st.level, width);
                lemma_add_text_fits(st.layout, measured(text@), width, st.level, st.style);
                lemma_add_text_measured(st.layout, measured(text@), width, st.level, st.style);
                lemma_add_text_space(st.layout, measured(text@), width, st.level, st.style);
            }
        },
        MdEvent::SoftBreak => {
            if !st.in_code {
                let text = measured(seq![' ']);
                lemma_measured(seq![' ']);
                lemma_fits_beside_indent(seq![' '], st.level, width);
                lemma_add_text_fits(st.layout, text, width, st.level, st.style);
                lemma_add_text_measured(st.layout, text, width, st.level, st.style);
                lemma_add_text_space(st.layout, text, width, st.level, st.style);
            }
        },
        MdEvent::Code(text) => {
            let shown = measured(code_text(text@));
            lemma_measured(code_text(text@));
            lemma_fits_beside_indent(code_text(text@), st.level, width);
            lemma_add_text_fits(st.layout, shown, width, st.level, code_style());
            lemma_add_text_measured(st.layout, shown, width, st.level, code_style());
            lemma_add_text_space(st.layout, shown, width, st.level, code_style());
        },
        MdEvent::Start(Node::Item) => {
            let bullet = raw_glyphs(measured(bullet_text(st.level)));
            lemma_measured(bullet_text(st.level));
            lemma_line_columns_push(flushed(st.layout).current, bullet);
            lemma_push_span_measured(flushed(st.layout).current, bullet);
            lemma_columns_are_display_width(bullet.content);
        },
        MdEvent::End(Node::CodeBlock) => {
            let block = block_lines(block_tokens(st.code, st.lang), st.code);
            lemma_block_lines_text(block_tokens(st.code, st.lang), st.code);
            lemma_measured_lines(block);
            assert forall|k: int| 0 <= k < block.len() implies line_columns(
                #[trigger] measured_lines(block)[k],
            ) <= width by {
                lemma_measured_line(block[k]);
                lemma_line_columns_are_width(measured_line(block[k]));
                lemma_line_width_is_text_width(block[k]);
                assert(lines_text(block)[k] == line_text(block[k]));
                assert(lines_text(block)[k] == lines_with_endings(st.code)[k]);
            }
            lemma_with_lines_sound(st.layout, measured_lines(block), width);
        },
        _ => {},
    }
}

/// Events whose additions fit keep the layout sound.
proof fn lemma_run_sound(events: Seq<MdEvent>, width: nat)
    requires
        all_fit(events, width),
    ensures
        layout_sound(run(events, width).layout, width),
        run(events, width).layout.space == glyph_of(' '),
    decreases events.len(),
{
    if events.len() > 0 {
        let earlier = events.drop_last();
        assert forall|j: int| 0 <= j < earlier.len() implies #[trigger] fits_at(
            earlier,
            width,
            j,
        ) by {
            assert(earlier.take(j) =~= events.take(j));
            assert(earlier[j] == events[j]);
            assert(fits_at(events, width, j));
        }
        lemma_run_sound(earlier, width);
        assert(events.take(events.len() - 1) =~= earlier);
        assert(fits_at(events, width, events.len() - 1));
        lemma_step_sound(run(earlier, width), events.last(), width);
    }
}

/// Dropping empty lines at the end keeps every line within `width` columns.
proof fn lemma_trim_blank_fits(lines: Seq<Seq<SpanView>>, width: nat)
    requires
        lines_fit(lines, width),
    ensures
        lines_fit(trim_blank(lines), width),
    decreases lines.len(),
{
    if lines.len() > 0 && lines.last().len() == 0 {
        assert forall|i: int| 0 <= i < lines.drop_last().len() implies line_width(
            #[trigger] lines.drop_last()[i],
        ) <= width by {
            assert(lines.drop_last()[i] == lines[i]);
        }
        lemma_trim_blank_fits(lines.drop_last(), width);
    }
}

/// No line that markdown renders to is wider than the width asked for,
/// provided that each thing to be shown fits a line at all: every character
/// that is not whitespace beside the indentation of its list, every bullet,
/// and every line of a code block, which is shown as it is.
pub proof fn lemma_rendered_lines_fit(events: Seq<MdEvent>, width: nat)
    requires
        all_fit(events, width),
    ensures
        lines_fit(render_events(events, width), width),
{
    lemma_run_sound(events, width);
    lemma_flushed_sound(run(events, width).layout, width);
    let lines = flushed(run(events, width).layout).lines;
    assert forall|i: int| 0 <= i < lines_spans(lines).len() implies line_width(
        #[trigger] lines_spans(lines)[i],
    ) <= width by {
        assert(lines_spans(lines)[i] == line_spans(lines[i]));
        lemma_line_columns_are_width(lines[i]);
    }
    lemma_trim_blank_fits(lines_spans(lines), width);
}

/// Whether every character of `text` that is not whitespace is at most
/// `width` columns wide.
pub open spec fn chars_narrow(text: Seq<char>, width: nat) -> bool {
    forall|i: int|
        0 <= i < text.len() && !white_space(#[trigger] text[i]) ==> column_width(text[i])
            <= width
}

/// Whether `events` hold no list and close no code block, and every
/// character to be shown that is not whitespace is at most `width` columns
/// wide.
pub open spec fn plain_and_narrow(events: Seq<MdEvent>, width: nat) -> bool {
    forall|j: int|
        0 <= j < events.len() ==> match #[trigger] events[j] {
            MdEvent::Start(Node::List) => false,
            MdEvent::Start(Node::Item) => false,
            MdEvent::End(Node::CodeBlock) => false,
            MdEvent::Text(text) => chars_narrow(text@, width),
            MdEvent::Code(text) => chars_narrow(code_text(text@), width),
            MdEvent::SoftBreak => chars_narrow(seq![' '], width),
            _ => true,
        }
}

/// Without lists the renderer stays outside every list.
proof fn lemma_no_list_no_level(events: Seq<MdEvent>, width: nat)
    requires
        forall|j: int|
            0 <= j < events.len() ==> !(#[trigger] events[j] matches MdEvent::Start(Node::List)),
    ensures
        run(events, width).level == 0,
    decreases events.len(),
{
    if events.len() > 0 {
        let earlier = events.drop_last();
        assert forall|j: int| 0 <= j < earlier.len() implies !(#[trigger] earlier[j]
            matches MdEvent::Start(Node::List)) by {
            assert(earlier[j] == events[j]);
        }
        lemma_no_list_no_level(earlier, width);
        assert(!(events[events.len() - 1] matches MdEvent::Start(Node::List)));
    }
}

/// Text without lists and code blocks is rendered within the width asked
/// for, whatever it says, as long as no single character that is not
/// whitespace is wider than a line.
pub proof fn lemma_plain_text_fits(events: Seq<MdEvent>, width: nat)
    requires
        plain_and_narrow(events, width),
    ensures
        all_fit(events, width),
        lines_fit(render_events(events, width), width),
{
    assert forall|j: int| 0 <= j < events.len() implies #[trigger] fits_at(events, width, j) by {
        let before = events.take(j);
        assert forall|k: int| 0 <= k < before.len() implies !(#[trigger] before[k]
            matches MdEvent::Start(Node::List)) by {
            assert(before[k] == events[k]);
        }
        lemma_no_list_no_level(before, width);
        let st = run(before, width);
        assert(2 * st.level * column_width(' ') == 0) by (nonlinear_arith)
            requires
                st.level == 0,
        ;
    }
    lemma_rendered_lines_fit(events, width);
}

/// Rendering is a function of the markdown text and the width: two
/// renderings of the same text at the same width agree line by line and span
/// by span.
pub proof fn lemma_rendering_is_repeatable(
    content: Seq<char>,
    width: nat,
    first: Seq<Seq<SpanView>>,
    second: Seq<Seq<SpanView>>,
)
    requires
        first == rendered(content, width),
        second == rendered(content, width),
    ensures
        first == second,
{
}

/// The decorations in force where the event number `j` stands.
pub open spec fn style_in_force(events: Seq<MdEvent>, width: nat, j: int) -> TextStyle {
    run(events.take(j), width).style
}

/// Whether a code block is open where the event number `j` stands.
pub open spec fn inside_code(events: Seq<MdEvent>, width: nat, j: int) -> bool {
    run(events.take(j), width).in_code
}

/// Text that an event asks to be shown, and the style that it is shown in.
pub struct Source {
    pub text: Seq<char>,
    pub style: TextStyle,
}

/// What the event number `j` asks to be shown as wrapped text: literal
/// text and soft breaks outside code blocks, in the decorations in force;
/// inline code between backticks, in the style of code. Other events ask for
/// no text.
pub open spec fn source(events: Seq<MdEvent>, width: nat, j: int) -> Option<Source> {
    match events[j] {
        MdEvent::Text(text) => if inside_code(events, width, j) {
            None
        } else {
            Some(Source { text: text@, style: style_in_force(events, width, j) })
        },
        MdEvent::SoftBreak => if inside_code(events, width, j) {
            None
        } else {
            Some(Source { text: seq![' '], style: style_in_force(events, width, j) })
        },
        MdEvent::Code(text) => Some(Source { text: code_text(text@), style: code_style() }),
        _ => None,
    }
}

/// Whether the measures of every character that the event number `j` asks
/// to be shown are what is fixed for the characters of its kind.
pub open spec fn measured_at(events: Seq<MdEvent>, width: nat, j: int) -> bool {
    match source(events, width, j) {
        Some(from) => text_plainly_measured(from.text),
        None => true,
    }
}

/// Whether the measures of the space and of every character that `events`
/// ask to be shown are what is fixed for the characters of their kind.
pub open spec fn texts_plainly_measured(events: Seq<MdEvent>, width: nat) -> bool {
    &&& plainly_measured(' ')
    &&& forall|j: int| 0 <= j < events.len() ==> #[trigger] measured_at(events, width, j)
}

/// Whether `span` holds a run of characters of the text of `from`, in its
/// style.
pub open spec fn comes_from(span: SpanView, from: Option<Source>) -> bool {
    from matches Some(found) && span.style == found.style && char_piece(span.content, found.text)
}

/// The spans that hold a run of characters of `text`, not empty, in
/// `style`.
pub open spec fn shows_run(style: TextStyle, text: Seq<char>) -> spec_fn(SpanView) -> bool {
    |span: SpanView| span.style == style && span.content.len() > 0 && char_piece(span.content, text)
}

/// The spans that are accounted for: those that are neither bold nor
/// italic, and those that hold a run of characters of the text of one of
/// `events`, in exactly the style of that text.
pub open spec fn accounted(events: Seq<MdEvent>, width: nat) -> spec_fn(SpanView) -> bool {
    |span: SpanView|
        is_undecorated(span.style) || exists|j: int|
            0 <= j < events.len() && comes_from(span, #[trigger] source(events, width, j))
}

/// The runs of glyphs whose text `q` holds of.
pub open spec fn of_text(q: spec_fn(SpanView) -> bool) -> spec_fn(GlyphSpan) -> bool {
    |span: GlyphSpan| q(span_text(span))
}

/// The renderer after `j + 1` events is the renderer after `j` events, one
/// step on.
proof fn lemma_run_unfold(events: Seq<MdEvent>, width: nat, j: int)
    requires
        0 <= j < events.len(),
    ensures
        run(events.take(j + 1), width) == step(run(events.take(j), width), events[j], width),
{
    assert(events.take(j + 1).drop_last() =~= events.take(j));
    assert(events.take(j + 1).last() == events[j]);
}

/// More lines at the end lose no span, and bring their own.
proof fn lemma_append_lines_has(
    lines: Seq<Seq<GlyphSpan>>,
    more: Seq<Seq<GlyphSpan>>,
    q: spec_fn(GlyphSpan) -> bool,
)
    ensures
        lines_have(lines, q) ==> lines_have(lines + more, q),
        lines_all(lines, q) && lines_all(more, q) ==> lines_all(lines + more, q),
{
    if lines_have(lines, q) {
        let i = choose|i: int| 0 <= i < lines.len() && line_has(#[trigger] lines[i], q);
        assert((lines + more)[i] == lines[i]);
    }
    if lines_all(lines, q) && lines_all(more, q) {
        assert forall|i: int| 0 <= i < (lines + more).len() implies line_all(
            #[trigger] (lines + more)[i],
            q,
        ) by {
            if i < lines.len() {
                assert((lines + more)[i] == lines[i]);
            } else {
                assert((lines + more)[i] == more[i - lines.len()]);
            }
        }
    }
}

/// No event loses a span of the layout.
proof fn lemma_step_keeps(st: RenderView, event: MdEvent, width: nat, q: spec_fn(GlyphSpan) -> bool)
    requires
        layout_has(st.layout, q),
    ensures
        layout_has(step(st, event, width).layout, q),
{
    lemma_flushed_has(st.layout, q);
    lemma_push_line_has(st.layout.lines, Seq::empty(), q);
    lemma_push_line_has(flushed(st.layout).lines, Seq::empty(), q);
    match event {
        MdEvent::End(Node::CodeBlock) => {
            lemma_append_lines_has(
                st.layout.lines,
                measured_lines(block_lines(block_tokens(st.code, st.lang), st.code)),
                q,
            );
        },
        MdEvent::Text(text) => {
            if !st.in_code {
                lemma_add_text_keeps(st.layout, measured(text@), width, st.level, st.style, q);
            }
        },
        MdEvent::SoftBreak => {
            if !st.in_code {
                lemma_add_text_keeps(
                    st.layout,
                    measured(seq![' ']),
                    width,
                    st.level,
                    st.style,
                    q,
                );
            }
        },
        MdEvent::Code(text) => {
            lemma_add_text_keeps(
                st.layout,
                measured(code_text(text@)),
                width,
                st.level,
                code_style(),
                q,
            );
        },
        MdEvent::Start(Node::Item) => {
            lemma_push_span_has(
                flushed(st.layout).current,
                raw_glyphs(measured(bullet_text(st.level))),
                q,
            );
        },
        _ => {},
    }
}

/// A span that the layout holds after some of the events, it holds after
/// all of them.
proof fn lemma_run_keeps(events: Seq<MdEvent>, width: nat, j: int, q: spec_fn(GlyphSpan) -> bool)
    requires
        0 <= j <= events.len(),
        layout_has(run(events.take(j), width).layout, q),
    ensures
        layout_has(run(events, width).layout, q),
    decreases events.len() - j,
{
    if j == events.len() {
        assert(events.take(j) =~= events);
    } else {
        lemma_run_unfold(events, width, j);
        lemma_step_keeps(run(events.take(j), width), events[j], width, q);
        lemma_run_keeps(events, width, j + 1, q);
    }
}

/// What holds of the text of the runs of glyphs holds of the spans made of
/// them.
proof fn lemma_lines_spans_have(lines: Seq<Seq<GlyphSpan>>, q: spec_fn(SpanView) -> bool)
    ensures
        lines_have(lines, of_text(q)) ==> lines_some(lines_spans(lines), q),
        lines_all(lines, of_text(q)) ==> lines_every(lines_spans(lines), q),
{
    if lines_have(lines, of_text(q)) {
        let i = choose|i: int| 0 <= i < lines.len() && line_has(#[trigger] lines[i], of_text(q));
        let j = choose|j: int| 0 <= j < lines[i].len() && of_text(q)(#[trigger] lines[i][j]);
        assert(lines_spans(lines)[i] == line_spans(lines[i]));
        assert(lines_spans(lines)[i][j] == span_text(lines[i][j]));
        assert(line_some(lines_spans(lines)[i], q));
    }
    if lines_all(lines, of_text(q)) {
        assert forall|i: int| 0 <= i < lines_spans(lines).len() implies line_every(
            #[trigger] lines_spans(lines)[i],
            q,
        ) by {
            assert(lines_spans(lines)[i] == line_spans(lines[i]));
            assert(line_all(lines[i], of_text(q)));
            assert forall|j: int| 0 <= j < line_spans(lines[i]).len() implies q(
                #[trigger] line_spans(lines[i])[j],
            ) by {
                assert(line_spans(lines[i])[j] == span_text(lines[i][j]));
                assert(of_text(q)(lines[i][j]));
            }
        }
    }
}

/// Dropping empty lines at the end loses no span.
proof fn lemma_trim_blank_keeps(lines: Seq<Seq<SpanView>>, q: spec_fn(SpanView) -> bool)
    ensures
        lines_some(lines, q) ==> lines_some(trim_blank(lines), q),
        lines_every(lines, q) ==> lines_every(trim_blank(lines), q),
    decreases lines.len(),
{
    if lines.len() > 0 && lines.last().len() == 0 {
        lemma_trim_blank_keeps(lines.drop_last(), q);
        if lines_some(lines, q) {
            let i = choose|i: int| 0 <= i < lines.len() && line_some(#[trigger] lines[i], q);
            assert(lines.drop_last()[i] == lines[i]);
        }
        if lines_every(lines, q) {
            assert forall|i: int| 0 <= i < lines.drop_last().len() implies line_every(
                #[trigger] lines.drop_last()[i],
                q,
            ) by {
                assert(lines.drop_last()[i] == lines[i]);
            }
        }
    }
}

/// Whether `text` holds a character that is not whitespace.
pub open spec fn text_has_ink(text: Seq<char>) -> bool {
    exists|i: int| 0 <= i < text.len() && !white_space(#[trigger] text[i])
}

/// Every run of glyphs of a measured text spells a run of its characters.
proof fn lemma_measured_piece(text: Seq<char>, a: int, b: int)
    requires
        0 <= a <= b <= text.len(),
    ensures
        chars_of(measured(text).subrange(a, b)) == text.subrange(a, b),
        char_piece(chars_of(measured(text).subrange(a, b)), text),
{
    assert(chars_of(measured(text).subrange(a, b)) =~= text.subrange(a, b));
}

/// Text that holds more than whitespace is shown as what it is: some span
/// of the output holds a run of its characters, not empty, in exactly the
/// style of that text. So the text of a strong run appears in a bold span,
/// and the text of an emphasised run in an italic one.
pub proof fn lemma_text_is_shown_in_its_style(events: Seq<MdEvent>, width: nat, j: int)
    requires
        0 <= j < events.len(),
        source(events, width, j) matches Some(from) && text_has_ink(from.text),
    ensures
        lines_some(
            render_events(events, width),
            shows_run(source(events, width, j)->0.style, source(events, width, j)->0.text),
        ),
{
    let from = source(events, width, j)->0;
    let shown = shows_run(from.style, from.text);
    let q = of_text(shown);
    let st = run(events.take(j), width);
    let text = measured(from.text);
    lemma_run_unfold(events, width, j);
    let i = choose|i: int| 0 <= i < from.text.len() && !white_space(#[trigger] from.text[i]);
    assert(!text[i].white);
    assert forall|a: int, b: int| 0 <= a < b <= text.len() implies q(
        GlyphSpan { content: #[trigger] text.subrange(a, b), style: from.style },
    ) by {
        lemma_measured_piece(from.text, a, b);
    }
    lemma_add_text_shows(st.layout, text, width, st.level, from.style, q);
    assert(step(st, events[j], width).layout == add_text(
        st.layout,
        text,
        width,
        st.level,
        from.style,
    ));
    lemma_run_keeps(events, width, j + 1, q);
    lemma_flushed_has(run(events, width).layout, q);
    lemma_lines_spans_have(flushed(run(events, width).layout).lines, shown);
    lemma_trim_blank_keeps(lines_spans(flushed(run(events, width).layout).lines), shown);
}

/// An event adds no span that is unaccounted for.
proof fn lemma_step_accounted(events: Seq<MdEvent>, width: nat, j: int)
    requires
        0 <= j < events.len(),
        layout_all(run(events.take(j), width).layout, of_text(accounted(events, width))),
        run(events.take(j), width).layout.space == glyph_of(' '),
    ensures
        layout_all(run(events.take(j + 1), width).layout, of_text(accounted(events, width))),
        run(events.take(j + 1), width).layout.space == glyph_of(' '),
{
    let q = of_text(accounted(events, width));
    let st = run(events.take(j), width);
    lemma_run_unfold(events, width, j);
    lemma_flushed_has(st.layout, q);
    lemma_push_line_has(st.layout.lines, Seq::empty(), q);
    lemma_push_line_has(flushed(st.layout).lines, Seq::empty(), q);
    let indent = indent_span(st.level, st.layout.space);
    let blank = raw_glyphs(seq![st.layout.space]);
    assert(q(indent));
    assert(q(blank));
    match source(events, width, j) {
        Some(from) => {
            let text = measured(from.text);
            assert forall|a: int, b: int| 0 <= a <= b <= text.len() implies q(
                GlyphSpan { content: #[trigger] text.subrange(a, b), style: from.style },
            ) by {
                lemma_measured_piece(from.text, a, b);
                let span = span_text(GlyphSpan { content: text.subrange(a, b), style: from.style });
                assert(comes_from(span, source(events, width, j)));
            }
            lemma_add_text_all(st.layout, text, width, st.level, from.style, q);
            lemma_add_text_space(st.layout, text, width, st.level, from.style);
            assert(step(st, events[j], width).layout == add_text(
                st.layout,
                text,
                width,
                st.level,
                from.style,
            ));
        },
        None => {
            match events[j] {
                MdEvent::Start(Node::Item) => {
                    lemma_push_span_has(
                        flushed(st.layout).current,
                        raw_glyphs(measured(bullet_text(st.level))),
                        q,
                    );
                },
                MdEvent::End(Node::CodeBlock) => {
                    let block = block_lines(block_tokens(st.code, st.lang), st.code);
                    lemma_block_lines_undecorated(block_tokens(st.code, st.lang), st.code);
                    assert forall|i: int| 0 <= i < measured_lines(block).len() implies line_all(
                        #[trigger] measured_lines(block)[i],
                        q,
                    ) by {
                        assert forall|k: int| 0 <= k < measured_lines(block)[i].len() implies q(
                            #[trigger] measured_lines(block)[i][k],
                        ) by {
                            assert(measured_lines(block)[i][k].style == block[i][k].style);
                        }
                    }
                    lemma_append_lines_has(st.layout.lines, measured_lines(block), q);
                },
                _ => {},
            }
        },
    }
}

/// After any number of the events every span of the layout is accounted
/// for.
proof fn lemma_run_accounted(events: Seq<MdEvent>, width: nat, j: int)
    requires
        0 <= j <= events.len(),
    ensures
        layout_all(run(events.take(j), width).layout, of_text(accounted(events, width))),
        run(events.take(j), width).layout.space == glyph_of(' '),
    decreases j,
{
    if j == 0 {
        assert(events.take(0) =~= Seq::<MdEvent>::empty());
    } else {
        lemma_run_accounted(events, width, j - 1);
        lemma_step_accounted(events, width, j - 1);
    }
}

/// No decoration comes from nowhere: every span of the output that is
/// bold or italic holds a run of characters of the text of one of the
/// events, and has exactly the style of that text. So text outside every
/// strong run is never bold, and text outside every emphasised run and
/// every inline code span is never italic.
pub proof fn lemma_every_decoration_is_accounted_for(events: Seq<MdEvent>, width: nat)
    ensures
        lines_every(render_events(events, width), accounted(events, width)),
{
    let q = accounted(events, width);
    lemma_run_accounted(events, width, events.len() as int);
    assert(events.take(events.len() as int) =~= events);
    lemma_flushed_has(run(events, width).layout, of_text(q));
    lemma_lines_spans_have(flushed(run(events, width).layout).lines, q);
    lemma_trim_blank_keeps(lines_spans(flushed(run(events, width).layout).lines), q);
}

/// Whether a strong run is open after `events`: the last of them that
/// opens or closes one opens it.
pub open spec fn strong_open(events: Seq<MdEvent>) -> bool
    decreases events.len(),
{
    if events.len() == 0 {
        false
    } else {
        match events.last() {
            MdEvent::Start(Node::Strong) => true,
            MdEvent::End(Node::Strong) => false,
            _ => strong_open(events.drop_last()),
        }
    }
}

/// Whether an emphasised run is open after `events`: the last of them that
/// opens or closes one opens it.
pub open spec fn emphasis_open(events: Seq<MdEvent>) -> bool
    decreases events.len(),
{
    if events.len() == 0 {
        false
    } else {
        match events.last() {
            MdEvent::Start(Node::Emphasis) => true,
            MdEvent::End(Node::Emphasis) => false,
            _ => emphasis_open(events.drop_last()),
        }
    }
}

/// The decorations in force follow the markup and nothing else: text is
/// bold exactly inside a strong run and italic exactly inside an emphasised
/// run, and it is never coloured.
pub proof fn lemma_style_follows_markup(events: Seq<MdEvent>, width: nat)
    ensures
        run(events, width).style == (TextStyle {
            fg: None,
            bold: strong_open(events),
            italic: emphasis_open(events),
        }),
    decreases events.len(),
{
    if events.len() > 0 {
        lemma_style_follows_markup(events.drop_last(), width);
    }
}

/// The spans that are bold only as text of a strong run, and italic only
/// as text of an emphasised run or of an inline code span.
pub open spec fn decorated_by_markup(events: Seq<MdEvent>, width: nat) -> spec_fn(
    SpanView,
) -> bool {
    |span: SpanView|
        {
            &&& span.style.bold ==> exists|j: int|
                0 <= j < events.len() && comes_from(span, #[trigger] source(events, width, j))
                    && strong_open(events.take(j))
            &&& span.style.italic ==> exists|j: int|
                0 <= j < events.len() && comes_from(span, #[trigger] source(events, width, j))
                    && (emphasis_open(events.take(j)) || events[j] is Code)
        }
}

/// What holds of every span holds of every span under a weaker claim.
proof fn lemma_lines_every_implies(
    lines: Seq<Seq<SpanView>>,
    q: spec_fn(SpanView) -> bool,
    weaker: spec_fn(SpanView) -> bool,
)
    requires
        lines_every(lines, q),
        forall|span: SpanView| #[trigger] q(span) ==> weaker(span),
    ensures
        lines_every(lines, weaker),
{
    assert forall|i: int| 0 <= i < lines.len() implies line_every(#[trigger] lines[i], weaker) by {
        assert(line_every(lines[i], q));
        assert forall|j: int| 0 <= j < lines[i].len() implies weaker(#[trigger] lines[i][j]) by {
            assert(q(lines[i][j]));
        }
    }
}

/// Bold and italic type appear only where the markup asks for them: a
/// bold span of the output holds text that stands inside a strong run, and
/// an italic span holds text that stands inside an emphasised run or is
/// inline code. Text outside these is never decorated.
pub proof fn lemma_decorations_come_from_markup(events: Seq<MdEvent>, width: nat)
    ensures
        lines_every(render_events(events, width), decorated_by_markup(events, width)),
{
    lemma_every_decoration_is_accounted_for(events, width);
    let q = accounted(events, width);
    let weaker = decorated_by_markup(events, width);
    assert forall|span: SpanView| #[trigger] q(span) implies weaker(span) by {
        if !is_undecorated(span.style) {
            let j = choose|j: int|
                0 <= j < events.len() && comes_from(span, #[trigger] source(events, width, j));
            lemma_style_follows_markup(events.take(j), width);
        }
    }
    lemma_lines_every_implies(render_events(events, width), q, weaker);
}

/// Literal text that holds more than whitespace and stands outside code
/// blocks appears in the output decorated as the markup around it says: some
/// span holds a run of its characters, not empty, and is bold exactly if the
/// text stands inside a strong run and italic exactly if it stands inside an
/// emphasised run. Inside both it is bold and italic at once.
pub proof fn lemma_marked_text_is_decorated(events: Seq<MdEvent>, width: nat, j: int)
    requires
        0 <= j < events.len(),
        events[j] matches MdEvent::Text(text) && text_has_ink(text@),
        !inside_code(events, width, j),
    ensures
        events[j] matches MdEvent::Text(text) && lines_some(
            render_events(events, width),
            shows_run(
                TextStyle {
                    fg: None,
                    bold: strong_open(events.take(j)),
                    italic: emphasis_open(events.take(j)),
                },
                text@,
            ),
        ),
{
    lemma_style_follows_markup(events.take(j), width);
    lemma_text_is_shown_in_its_style(events, width, j);
}

/// Decorations add up: where strong emphasis opens, bold type joins the
/// decorations in force; where emphasis opens, italic type joins them. What
/// was in force before stays in force, so text inside both is bold and
/// italic at once.
pub proof fn lemma_decorations_add_up(events: Seq<MdEvent>, width: nat, j: int)
    requires
        0 <= j < events.len(),
    ensures
        (events[j] matches MdEvent::Start(Node::Strong)) ==> style_in_force(events, width, j + 1)
            == (TextStyle { bold: true, ..style_in_force(events, width, j) }),
        (events[j] matches MdEvent::Start(Node::Emphasis)) ==> style_in_force(
            events,
            width,
            j + 1,
        ) == (TextStyle { italic: true, ..style_in_force(events, width, j) }),
        (events[j] matches MdEvent::Start(Node::Strong)) || (events[j] matches MdEvent::Start(
            Node::Emphasis,
        )) ==> inside_code(events, width, j + 1) == inside_code(events, width, j),
{
    lemma_run_unfold(events, width, j);
}

/// Renders Markdown content for the chat UI.
pub struct MarkdownRenderer;

impl MarkdownRenderer {
    /// Renders Markdown content into styled lines of at most `width`
    /// columns: the parsed events of `content`, laid out by `render_events`.
    #[must_use]
    pub fn render_markdown(content: &str, width: usize) -> (lines: Vec<Line>)
        ensures
            lines_view(lines@) == rendered(content@, width as nat),
            all_fit(markdown_events(content@), width as nat) ==> lines_fit(
                lines_view(lines@),
                width as nat,
            ),
            texts_plainly_measured(markdown_events(content@), width as nat),
    {
        let events = parse_events(content);
        Self::render_events(&events, width)
    }

    /// Splits `text` where its display width would pass `width`: the first
    /// part holds as many leading characters as fit, the second the rest.
    pub fn split_at_width(text: &str, width: usize) -> (parts: (String, String))
        ensures
            parts.0@ == text@.take(fit_count(measured(text@), width as nat) as int),
            parts.1@ == text@.skip(fit_count(measured(text@), width as nat) as int),
            text_plainly_measured(text@),
    {
        let glyphs = measure(text);
        let (head, tail) = Self::split_glyphs(&glyphs, width);
        proof {
            lemma_measured(text@);
            let k = fit_count(glyphs@, width as nat) as int;
            lemma_fit_count(glyphs@, width as nat);
            assert(chars_of(glyphs@.take(k)) =~= chars_of(glyphs@).take(k));
            assert(chars_of(glyphs@.skip(k)) =~= chars_of(glyphs@).skip(k));
        }
        (head, tail)
    }

    /// Splits `glyphs` where their columns would pass `width`: the first
    /// part spells as many leading glyphs as fit, the second the rest.
    pub fn split_glyphs(glyphs: &Vec<Glyph>, width: usize) -> (parts: (String, String))
        ensures
            parts.0@ == chars_of(glyphs@.take(fit_count(glyphs@, width as nat) as int)),
            parts.1@ == chars_of(glyphs@.skip(fit_count(glyphs@, width as nat) as int)),
    {
        let end = fit_end(glyphs, 0, width);
        assert(glyphs@.skip(0) =~= glyphs@);
        let head = from_glyphs(glyphs, 0, end);
        let tail = from_glyphs(glyphs, end, glyphs.len());
        assert(glyphs@.subrange(0, end as int) =~= glyphs@.take(end as int));
        assert(glyphs@.subrange(end as int, glyphs.len() as int) =~= glyphs@.skip(end as int));
        (head, tail)
    }

    /// The lines of `code`, each with its line feed, as one span without
    /// colour.
    pub fn plain_lines(code: &str) -> (lines: Vec<Line>)
        ensures
            lines_view(lines@) == plain_code_lines(code@),
    {
        let chars = to_chars(code);
        let mut lines: Vec<Line> = Vec::new();
        let mut start: usize = 0;
        assert(chars@.skip(0) =~= chars@);
        assert(lines_view(lines@) =~= Seq::empty());
        while start < chars.len()
            invariant
                start <= chars.len(),
                chars@ == code@,
                lines_view(lines@) + plain_code_lines(chars@.skip(start as int))
                    == plain_code_lines(code@),
            decreases chars.len() - start,
        {
            let ghost rest = chars@.skip(start as int);
            let end = line_end(&chars, start);
            let content = from_chars(&chars, start, end);
            let mut spans: Vec<Span> = Vec::new();
            spans.push(Span::raw(content));
            let line = Line { spans };
            proof {
                assert(chars@.subrange(start as int, end as int) =~= rest.take(end - start));
                assert(line@ =~= seq![raw_span(rest.take(end - start))]);
                assert(rest.skip(end - start) =~= chars@.skip(end as int));
                assert(plain_code_lines(rest) =~= seq![line@] + plain_code_lines(
                    chars@.skip(end as int),
                ));
                assert(lines_view(lines@.push(line)) =~= lines_view(lines@).push(line@));
            }
            lines.push(line);
            start = end;
        }
        assert(plain_code_lines(chars@.skip(start as int)) =~= Seq::empty());
        lines
    }

    /// The lines of a code block, given what the highlighter made of it:
    /// its tokens where they spell out the lines of `code` and are neither
    /// bold nor italic, else the bare lines of `code`.
    pub fn code_block_lines(tokens: Option<Vec<Line>>, code: &str) -> (lines: Vec<Line>)
        ensures
            lines_view(lines@) == block_lines(
                match tokens {
                    Some(found) => Some(lines_view(found@)),
                    None => None,
                },
                code@,
            ),
            lines_text(lines_view(lines@)) == lines_with_endings(code@),
    {
        let plain = Self::plain_lines(code);
        proof {
            lemma_plain_code_lines_text(code@);
        }
        match tokens {
            Some(found) => {
                if same_text(&found, &plain) && all_undecorated(&found) {
                    found
                } else {
                    plain
                }
            },
            None => plain,
        }
    }

    /// Highlights `code` as the language `lang`: one line of coloured
    /// tokens for each line of `code`, spelling out that line. A language
    /// that the highlighter does not know is shown as plain text.
    pub fn highlight_code(code: &str, lang: &str) -> (lines: Vec<Line>)
        ensures
            lines_view(lines@) == block_lines(block_tokens(code@, lang@), code@),
            lines_text(lines_view(lines@)) == lines_with_endings(code@),
    {
        let tokens = match highlight_lines(code, lang, "base16-ocean.dark") {
            Some(tagged) => Some(tagged),
            None => highlight_lines(code, "Plain Text", "base16-ocean.dark"),
        };
        Self::code_block_lines(tokens, code)
    }

    /// Whether `text`, given by its glyphs, can be wrapped at `width`
    /// columns inside a list nested `level` deep where a space takes `space`
    /// columns: the indentation fits, and so does every glyph that is not
    /// whitespace beside it.
    pub fn glyphs_fit_beside_indent(text: &Vec<Glyph>, level: usize, space: usize, width: usize) -> (ok:
        bool)
        ensures
            ok == (2 * level * space <= width && forall|i: int|
                0 <= i < text@.len() && !(#[trigger] text@[i]).white ==> 2 * level * space
                    + text@[i].columns <= width),
    {
        let indent: usize = if space == 0 {
            assert(2 * level * space == 0) by (nonlinear_arith)
                requires
                    space == 0,
            ;
            0
        } else {
            match level.checked_mul(2) {
                Some(doubled) => match doubled.checked_mul(space) {
                    Some(columns) => columns,
                    None => {
                        return false;
                    },
                },
                None => {
                    assert(2 * level * space >= 2 * level) by (nonlinear_arith)
                        requires
                            space >= 1,
                    ;
                    return false;
                },
            }
        };
        if indent > width {
            return false;
        }
        let room = width - indent;
        let mut i: usize = 0;
        while i < text.len()
            invariant
                i <= text.len(),
                indent == 2 * level * space,
                room == width - indent,
                indent <= width,
                forall|k: int|
                    0 <= k < i && !(#[trigger] text@[k]).white ==> indent + text@[k].columns
                        <= width,
            decreases text.len() - i,
        {
            if !text[i].white && text[i].columns > room {
                return false;
            }
            i += 1;
        }
        true
    }

    /// Whether `text` can be wrapped at `width` columns inside a list
    /// nested `level` deep.
    pub fn fits_beside_indent(text: &str, level: usize, width: usize) -> (ok: bool)
        ensures
            ok == fits_beside_indent(text@, level as nat, width as nat),
            text_plainly_measured(text@),
            plainly_measured(' '),
    {
        let glyphs = measure(text);
        let space = measure_char(' ').columns;
        proof {
            lemma_measured(text@);
            assert forall|i: int| 0 <= i < text@.len() implies (#[trigger] glyphs@[i]) == glyph_of(
                text@[i],
            ) by {}
        }
        let ok = Self::glyphs_fit_beside_indent(&glyphs, level, space, width);
        proof {
            if ok {
                assert forall|i: int|
                    0 <= i < text@.len() && !white_space(#[trigger] text@[i]) implies 2 * level
                    * column_width(' ') + column_width(text@[i]) <= width by {
                    assert(!glyphs@[i].white);
                }
            } else if 2 * level * space <= width {
                let i = choose|i: int|
                    0 <= i < glyphs@.len() && !(#[trigger] glyphs@[i]).white && !(2 * level
                        * space + glyphs@[i].columns <= width);
                assert(!white_space(text@[i]));
            }
        }
        ok
    }

    /// Whether `chars` are at most `width` columns wide together.
    pub fn chars_within(chars: &Vec<char>, width: usize) -> (ok: bool)
        ensures
            ok == (display_width(chars@) <= width),
            text_plainly_measured(chars@),
    {
        let glyphs = measure_chars(chars);
        proof {
            lemma_measured(chars@);
            lemma_columns_are_display_width(glyphs@);
            assert(glyphs@.subrange(0, glyphs.len() as int) =~= glyphs@);
        }
        columns_within(&glyphs, 0, glyphs.len(), width)
    }

    /// Whether every line of `code`, its line feed included, is at most
    /// `width` columns wide.
    pub fn code_lines_within(code: &str, width: usize) -> (ok: bool)
        ensures
            ok == (forall|k: int|
                0 <= k < lines_with_endings(code@).len() ==> display_width(
                    #[trigger] lines_with_endings(code@)[k],
                ) <= width),
            text_plainly_measured(code@),
    {
        let chars = to_chars(code);
        let glyphs = measure_chars(&chars);
        let ghost all = lines_with_endings(code@);
        let ghost mut seen: Seq<Seq<char>> = Seq::empty();
        let mut start: usize = 0;
        proof {
            lemma_measured(chars@);
            assert(chars@.skip(0) =~= chars@);
            assert(seen + lines_with_endings(chars@) =~= all);
        }
        while start < chars.len()
            invariant
                start <= chars.len(),
                chars@ == code@,
                text_plainly_measured(chars@),
                glyphs@ == measured(chars@),
                glyphs.len() == chars.len(),
                all == lines_with_endings(code@),
                all == seen + lines_with_endings(chars@.skip(start as int)),
                forall|k: int| 0 <= k < seen.len() ==> display_width(#[trigger] seen[k]) <= width,
            decreases chars.len() - start,
        {
            let ghost rest = chars@.skip(start as int);
            let end = line_end(&chars, start);
            let ghost line = chars@.subrange(start as int, end as int);
            proof {
                assert(rest.take(end - start) =~= line);
                assert(rest.skip(end - start) =~= chars@.skip(end as int));
                assert(lines_with_endings(rest) =~= seq![line] + lines_with_endings(
                    chars@.skip(end as int),
                ));
                assert(seen + lines_with_endings(rest) =~= seen.push(line) + lines_with_endings(
                    chars@.skip(end as int),
                ));
                let piece = glyphs@.subrange(start as int, end as int);
                assert(piece =~= measured(line));
                lemma_measured(line);
                lemma_columns_are_display_width(piece);
            }
            if !columns_within(&glyphs, start, end, width) {
                proof {
                    assert(all[seen.len() as int] == line);
                }
                return false;
            }
            proof {
                seen = seen.push(line);
            }
            start = end;
        }
        proof {
            assert(lines_with_endings(chars@.skip(start as int)) =~= Seq::<Seq<char>>::empty());
            assert(seen + Seq::<Seq<char>>::empty() =~= seen);
        }
        true
    }

    /// Whether what `event` adds fits `width` columns in the renderer `st`,
    /// of which `in_code`, `code` and `level` hold what the test needs; they
    /// move on to the renderer after the event.
    fn event_fits_here(
        event: &MdEvent,
        in_code: &mut bool,
        code: &mut String,
        level: &mut usize,
        width: usize,
        Ghost(st): Ghost<RenderView>,
    ) -> (fitting: bool)
        requires
            st.in_code == *old(in_code),
            st.code == old(code)@,
            st.level == *old(level),
            *old(level) < usize::MAX,
        ensures
            fitting == event_fits(st, *event, width as nat),
            step(st, *event, width as nat).in_code == *final(in_code),
            step(st, *event, width as nat).code == final(code)@,
            step(st, *event, width as nat).level == *final(level),
            *final(level) <= *old(level) + 1,
    {
        match event {
            MdEvent::Fence(_) => {
                *in_code = true;
                true
            },
            MdEvent::Start(Node::CodeBlock) => {
                *in_code = true;
                true
            },
            MdEvent::End(Node::CodeBlock) => {
                let within = Self::code_lines_within(code.as_str(), width);
                *in_code = false;
                *code = String::new();
                within
            },
            MdEvent::Text(text) => {
                if *in_code {
                    code.push_str(text.as_str());
                    true
                } else {
                    Self::fits_beside_indent(text.as_str(), *level, width)
                }
            },
            MdEvent::SoftBreak => {
                if *in_code {
                    true
                } else {
                    proof {
                        reveal_strlit(" ");
                        assert(" "@ =~= seq![' ']);
                    }
                    Self::fits_beside_indent(" ", *level, width)
                }
            },
            MdEvent::Code(text) => {
                let mut shown = "`".to_owned();
                shown.push_str(text.as_str());
                shown.push('`');
                proof {
                    reveal_strlit("`");
                    assert(shown@ =~= code_text(text@));
                }
                Self::fits_beside_indent(shown.as_str(), *level, width)
            },
            MdEvent::Start(Node::List) => {
                *level = *level + 1;
                true
            },
            MdEvent::End(Node::List) => {
                if *level > 0 {
                    *level = *level - 1;
                }
                true
            },
            MdEvent::Start(Node::Item) => Self::chars_within(&Self::bullet(*level), width),
            _ => true,
        }
    }

    /// Whether what each of `events` adds fits `width` columns, so that no
    /// line of the rendering is wider than `width`.
    pub fn fits(events: &Vec<MdEvent>, width: usize) -> (ok: bool)
        ensures
            ok == all_fit(events@, width as nat),
    {
        let mut in_code = false;
        let mut code = String::new();
        let mut level: usize = 0;
        let mut i: usize = 0;
        assert(all_fit(events@.take(0), width as nat));
        while i < events.len()
            invariant
                i <= events.len(),
                level <= i,
                run(events@.take(i as int), width as nat).in_code == in_code,
                run(events@.take(i as int), width as nat).code == code@,
                run(events@.take(i as int), width as nat).level == level,
                all_fit(events@.take(i as int), width as nat),
            decreases events.len() - i,
        {
            let ghost st = run(events@.take(i as int), width as nat);
            proof {
                lemma_run_unfold(events@, width as nat, i as int);
                lemma_all_fit_step(events@, width as nat, i as int);
            }
            let fitting = Self::event_fits_here(
                &events[i],
                &mut in_code,
                &mut code,
                &mut level,
                width,
                Ghost(st),
            );
            if !fitting {
                proof {
                    if all_fit(events@, width as nat) {
                        assert(fits_at(events@, width as nat, i as int));
                    }
                }
                return false;
            }
            i += 1;
        }
        assert(events@.take(i as int) =~= events@);
        true
    }

    /// Lays out parsed markdown in lines of `width` columns. Text is
    /// wrapped; the lines of code blocks are shown as they are. No line is
    /// wider than `width` where each thing to be shown fits a line at all.
    pub fn render_events(events: &Vec<MdEvent>, width: usize) -> (lines: Vec<Line>)
        ensures
            lines_view(lines@) == render_events(events@, width as nat),
            all_fit(events@, width as nat) ==> lines_fit(lines_view(lines@), width as nat),
            texts_plainly_measured(events@, width as nat),
    {
        let mut layout = Layout::new(measure_char(' '));
        let mut in_code = false;
        let mut lang = String::new();
        let mut code = String::new();
        let mut level: usize = 0;
        let mut style = TextStyle::plain();
        let mut i: usize = 0;
        while i < events.len()
            invariant
                i <= events.len(),
                level <= i,
                layout.wf(),
                plainly_measured(' '),
                forall|j: int|
                    0 <= j < i ==> #[trigger] measured_at(events@, width as nat, j),
                run(events@.take(i as int), width as nat) == (RenderView {
                    layout: layout@,
                    in_code,
                    lang: lang@,
                    code: code@,
                    level: level as nat,
                    style,
                }),
            decreases events.len() - i,
        {
            assert(events@.take(i as int + 1).drop_last() =~= events@.take(i as int));
            assert(events@.take(i as int + 1).last() == events@[i as int]);
            let ghost known = measured_at(events@, width as nat, i as int);
            let ghost inside = in_code;
            match &events[i] {
                MdEvent::Fence(tag) => {
                    layout.flush();
                    in_code = true;
                    lang = tag.clone();
                },
                MdEvent::Start(Node::CodeBlock) => {
                    layout.flush();
                    in_code = true;
                },
                MdEvent::End(Node::CodeBlock) => {
                    in_code = false;
                    let block = Self::highlight_code(code.as_str(), lang.as_str());
                    layout.append_lines(block);
                    code = String::new();
                    lang = String::new();
                },
                MdEvent::Text(text) => {
                    if in_code {
                        code.push_str(text.as_str());
                    } else {
                        let glyphs = measure(text.as_str());
                        layout.add_text(&glyphs, width, level, style);
                    }
                },
                MdEvent::SoftBreak => {
                    if !in_code {
                        let chars: Vec<char> = vec![' '];
                        assert(chars@ =~= seq![' ']);
                        let glyphs = measure_chars(&chars);
                        layout.add_text(&glyphs, width, level, style);
                    }
                },
                MdEvent::HardBreak => {
                    if !in_code {
                        layout.flush();
                    }
                },
                MdEvent::Start(Node::List) => {
                    layout.flush();
                    level = level + 1;
                },
                MdEvent::End(Node::List) => {
                    layout.flush();
                    if level > 0 {
                        level = level - 1;
                    }
                },
                MdEvent::Start(Node::Item) => {
                    layout.flush();
                    let bullet = measure_chars(&Self::bullet(level));
                    layout.push_glyphs(&bullet, TextStyle::plain());
                },
                MdEvent::End(Node::Item) => {
                    layout.flush();
                },
                MdEvent::Start(Node::Emphasis) => {
                    style = TextStyle { italic: true, ..style };
                },
                MdEvent::End(Node::Emphasis) => {
                    style = TextStyle { italic: false, ..style };
                },
                MdEvent::Start(Node::Strong) => {
                    style = TextStyle { bold: true, ..style };
                },
                MdEvent::End(Node::Strong) => {
                    style = TextStyle { bold: false, ..style };
                },
                MdEvent::Code(text) => {
                    let mut chars: Vec<char> = vec!['`'];
                    let mut inner = to_chars(text.as_str());
                    chars.append(&mut inner);
                    chars.push('`');
                    assert(chars@ =~= code_text(text@));
                    let glyphs = measure_chars(&chars);
                    let inline = TextStyle { fg: Some(Color::Yellow), bold: false, italic: true };
                    layout.add_text(&glyphs, width, level, inline);
                },
                MdEvent::Start(Node::Paragraph) => {
                    if !layout.has_no_lines() {
                        layout.push_blank();
                    }
                },
                MdEvent::End(Node::Paragraph) => {
                    layout.flush();
                    layout.push_blank();
                },
                _ => {},
            }
            assert(known) by {
                match source(events@, width as nat, i as int) {
                    Some(from) => {
                        assert(inside == inside_code(events@, width as nat, i as int));
                    },
                    None => {},
                }
            }
            i += 1;
        }
        assert(events@.take(i as int) =~= events@);
        layout.flush();
        let mut lines = layout.into_lines();
        let ghost full = lines_view(lines@);
        while lines.len() > 0 && lines[lines.len() - 1].spans.len() == 0
            invariant
                trim_blank(lines_view(lines@)) == trim_blank(full),
            decreases lines.len(),
        {
            assert(lines_view(lines@).drop_last() =~= lines_view(lines@.drop_last()));
            lines.pop();
        }
        proof {
            if all_fit(events@, width as nat) {
                lemma_rendered_lines_fit(events@, width as nat);
            }
        }
        lines
    }

    /// The text that opens an item of a list nested `level` deep.
    fn bullet(level: usize) -> (chars: Vec<char>)
        ensures
            chars@ == bullet_text(level as nat),
    {
        let mut chars: Vec<char> = Vec::new();
        let mut i: usize = 1;
        while i < level
            invariant
                1 <= i,
                i <= level || i == 1,
                chars@ == spaces((2 * (i - 1)) as nat),
            decreases level - i,
        {
            chars.push(' ');
            chars.push(' ');
            i += 1;
            assert(chars@ =~= spaces((2 * (i - 1)) as nat));
        }
        let glyph = if level % 2 == 1 {
            '\u{2022}'
        } else {
            '\u{25E6}'
        };
        let ghost indent = chars@;
        chars.push(glyph);
        chars.push(' ');
        assert(chars@ =~= indent + seq![glyph, ' ']);
        chars
    }
}

} // verus!
