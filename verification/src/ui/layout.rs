//! Packing styled text into lines of a fixed width.

use vstd::prelude::*;

use crate::text::{
    blanks, chars_of, clip, columns_between, columns_of, fit_count, fit_end, from_glyphs, glyph_of,
    has_ink, lemma_columns_are_display_width, lemma_columns_push, lemma_fit_count,
    lemma_measured, lemma_trim_end_keeps_ink, lemma_trim_end_prefix, measured, trim_end,
    trim_end_index, well_measured, Glyph,
};
use crate::ui::style::{
    line_width, lines_view, spans_view, Line, Span, SpanView, TextStyle,
};

verus! {

/// A run of glyphs in one style.
pub struct GlyphSpan {
    pub content: Seq<Glyph>,
    pub style: TextStyle,
}

/// Lines finished so far, the line under construction, and the glyph that
/// indents and separates.
pub struct LayoutView {
    pub lines: Seq<Seq<GlyphSpan>>,
    pub current: Seq<GlyphSpan>,
    pub space: Glyph,
}

/// A span without colour or decoration.
pub open spec fn raw_span(content: Seq<char>) -> SpanView {
    SpanView { content, style: TextStyle::plain_spec() }
}

/// A run of glyphs without colour or decoration.
pub open spec fn raw_glyphs(content: Seq<Glyph>) -> GlyphSpan {
    GlyphSpan { content, style: TextStyle::plain_spec() }
}

/// What a run of glyphs shows: its characters in its style.
pub open spec fn span_text(span: GlyphSpan) -> SpanView {
    SpanView { content: chars_of(span.content), style: span.style }
}

/// What a line of glyphs shows.
pub open spec fn line_spans(line: Seq<GlyphSpan>) -> Seq<SpanView> {
    line.map_values(|span: GlyphSpan| span_text(span))
}

/// What lines of glyphs show.
pub open spec fn lines_spans(lines: Seq<Seq<GlyphSpan>>) -> Seq<Seq<SpanView>> {
    lines.map_values(|line: Seq<GlyphSpan>| line_spans(line))
}

/// A span with the glyphs of its characters.
pub open spec fn measured_span(span: SpanView) -> GlyphSpan {
    GlyphSpan { content: measured(span.content), style: span.style }
}

/// A line with the glyphs of its characters.
pub open spec fn measured_line(line: Seq<SpanView>) -> Seq<GlyphSpan> {
    line.map_values(|span: SpanView| measured_span(span))
}

/// Lines with the glyphs of their characters.
pub open spec fn measured_lines(lines: Seq<Seq<SpanView>>) -> Seq<Seq<GlyphSpan>> {
    lines.map_values(|line: Seq<SpanView>| measured_line(line))
}

/// Columns that the glyphs of a line take together.
pub open spec fn line_columns(line: Seq<GlyphSpan>) -> nat
    decreases line.len(),
{
    if line.len() == 0 {
        0
    } else {
        line_columns(line.drop_last()) + columns_of(line.last().content)
    }
}

/// Whether text appended to `current` has to be set off by a space: the
/// line holds something that does not end in a space.
pub open spec fn needs_separator(current: Seq<GlyphSpan>) -> bool {
    current.len() > 0 && !(current.last().content.len() > 0 && current.last().content.last().ch
        == ' ')
}

/// An empty layout that indents and separates with `space`.
pub open spec fn empty_layout(space: Glyph) -> LayoutView {
    LayoutView { lines: Seq::empty(), current: Seq::empty(), space }
}

/// The line under construction, if it holds anything, joins the finished
/// lines.
pub open spec fn flushed(l: LayoutView) -> LayoutView {
    if l.current.len() > 0 {
        LayoutView { lines: l.lines.push(l.current), current: Seq::empty(), ..l }
    } else {
        l
    }
}

/// `span` joins the line under construction.
pub open spec fn with_span(l: LayoutView, span: GlyphSpan) -> LayoutView {
    LayoutView { current: l.current.push(span), ..l }
}

/// A line without spans joins the finished lines.
pub open spec fn with_blank(l: LayoutView) -> LayoutView {
    LayoutView { lines: l.lines.push(Seq::empty()), ..l }
}

/// `more` join the finished lines.
pub open spec fn with_lines(l: LayoutView, more: Seq<Seq<GlyphSpan>>) -> LayoutView {
    LayoutView { lines: l.lines + more, ..l }
}

/// The indentation that opens a line inside a list nested `level` deep.
pub open spec fn indent_span(level: nat, space: Glyph) -> GlyphSpan {
    raw_glyphs(blanks(2 * level, space))
}

/// A line that was just begun inside a list nested `level` deep.
pub open spec fn fresh_line(level: nat, space: Glyph) -> Seq<GlyphSpan> {
    if level > 0 {
        seq![indent_span(level, space)]
    } else {
        Seq::empty()
    }
}

/// The line under construction is finished and a new one begins, indented
/// when inside a list.
pub open spec fn new_line(l: LayoutView, level: nat) -> LayoutView {
    LayoutView { current: fresh_line(level, l.space), ..flushed(l) }
}

/// Columns left for text in a line of `width` columns inside a list nested
/// `level` deep.
pub open spec fn available_columns(width: nat, level: nat) -> nat {
    if width > 2 * level {
        (width - 2 * level) as nat
    } else {
        0
    }
}

/// Columns of `current` that count against the budget when more text is
/// appended: its own columns and the separating space, where one is due.
pub open spec fn used_columns(current: Seq<GlyphSpan>, space: Glyph) -> nat {
    line_columns(current) + if needs_separator(current) {
        space.columns as nat
    } else {
        0
    }
}

/// `text` is packed into the layout: as many glyphs as fit into the
/// columns that are left go onto the line under construction, set off by a
/// space where needed and without whitespace at their end; the rest
/// continues on new lines. A line without a column left takes nothing.
/// Where not even one glyph fits a line that was just begun (`fresh`), one
/// glyph is placed all the same.
pub open spec fn place(
    l: LayoutView,
    text: Seq<Glyph>,
    available: nat,
    level: nat,
    style: TextStyle,
    fresh: bool,
) -> LayoutView
    decreases text.len(), (if fresh {
        0nat
    } else {
        1nat
    }),
{
    if text.len() == 0 {
        l
    } else {
        let used = used_columns(l.current, l.space);
        let fit = if available > used {
            fit_count(text, (available - used) as nat)
        } else {
            0
        };
        if fit == 0 && !fresh {
            place(new_line(l, level), text, available, level, style, true)
        } else {
            let taken = if fit == 0 {
                1nat
            } else {
                fit
            };
            let set_off = if needs_separator(l.current) {
                with_span(l, raw_glyphs(seq![l.space]))
            } else {
                l
            };
            let placed = with_span(
                set_off,
                GlyphSpan { content: trim_end(text.take(taken as int)), style },
            );
            let rest = text.skip(taken as int);
            if rest.len() == 0 {
                placed
            } else {
                proof {
                    if available > used {
                        lemma_fit_count(text, (available - used) as nat);
                    }
                }
                place(new_line(placed, level), rest, available, level, style, true)
            }
        }
    }
}

/// `text` in `style` is added to the layout, wrapped at `width` columns
/// inside a list nested `level` deep. A line that holds nothing yet is
/// indented first.
pub open spec fn add_text(
    l: LayoutView,
    text: Seq<Glyph>,
    width: nat,
    level: nat,
    style: TextStyle,
) -> LayoutView {
    let begun = if l.current.len() == 0 {
        LayoutView { current: fresh_line(level, l.space), ..l }
    } else {
        l
    };
    place(begun, text, available_columns(width, level), level, style, l.current.len() == 0)
}

/// Every line takes at most `width` columns.
pub open spec fn columns_fit(lines: Seq<Seq<GlyphSpan>>, width: nat) -> bool {
    forall|i: int| 0 <= i < lines.len() ==> line_columns(#[trigger] lines[i]) <= width
}

/// The finished lines and the line under construction take at most `width`
/// columns.
pub open spec fn layout_fits(l: LayoutView, width: nat) -> bool {
    columns_fit(l.lines, width) && line_columns(l.current) <= width
}

/// Every glyph of `text` that is not whitespace fits a line of `width`
/// columns that was just begun inside a list nested `level` deep, and so
/// does the line that was just begun itself.
pub open spec fn text_fits(text: Seq<Glyph>, level: nat, space: Glyph, width: nat) -> bool {
    &&& used_columns(fresh_line(level, space), space) <= width
    &&& forall|i: int|
        0 <= i < text.len() && !(#[trigger] text[i]).white ==> used_columns(
            fresh_line(level, space),
            space,
        ) + text[i].columns <= width
}

/// One more span adds the columns of its glyphs to the line.
pub proof fn lemma_line_columns_push(line: Seq<GlyphSpan>, span: GlyphSpan)
    ensures
        line_columns(line.push(span)) == line_columns(line) + columns_of(span.content),
{
    assert(line.push(span).drop_last() =~= line);
}

/// Blanks take as many columns as there are, times the columns of one.
pub proof fn lemma_blanks_columns(n: nat, space: Glyph)
    ensures
        columns_of(blanks(n, space)) == n * space.columns,
    decreases n,
{
    if n > 0 {
        lemma_blanks_columns((n - 1) as nat, space);
        assert(blanks(n, space).drop_last() =~= blanks((n - 1) as nat, space));
        assert(n * space.columns == (n - 1) * space.columns + space.columns) by (nonlinear_arith);
    } else {
        assert(n * space.columns == 0) by (nonlinear_arith)
            requires
                n == 0,
        ;
    }
}

/// A line that was just begun with spaces takes two columns of a space for
/// each enclosing list, and needs no separating space.
pub proof fn lemma_fresh_line_columns(level: nat, space: Glyph)
    requires
        space.ch == ' ',
    ensures
        used_columns(fresh_line(level, space), space) == 2 * level * space.columns,
        line_columns(fresh_line(level, space)) == 2 * level * space.columns,
{
    if level > 0 {
        lemma_blanks_columns(2 * level, space);
        lemma_line_columns_push(Seq::empty(), indent_span(level, space));
        assert(Seq::<GlyphSpan>::empty().push(indent_span(level, space)) =~= fresh_line(
            level,
            space,
        ));
        assert(blanks(2 * level, space).last() == space);
    } else {
        assert(2 * level * space.columns == 0) by (nonlinear_arith)
            requires
                level == 0,
        ;
    }
}

/// Beginning a new line keeps every line within `width` columns where a
/// line that was just begun fits.
pub proof fn lemma_new_line_fits(l: LayoutView, level: nat, width: nat)
    requires
        layout_fits(l, width),
        used_columns(fresh_line(level, l.space), l.space) <= width,
    ensures
        layout_fits(new_line(l, level), width),
{
}

/// Packing text whose glyphs fit the line keeps every line within `width`
/// columns.
pub proof fn lemma_place_fits(
    l: LayoutView,
    text: Seq<Glyph>,
    available: nat,
    level: nat,
    style: TextStyle,
    fresh: bool,
    width: nat,
)
    requires
        layout_fits(l, width),
        available <= width,
        text_fits(text, level, l.space, width),
        fresh ==> l.current == fresh_line(level, l.space),
    ensures
        layout_fits(place(l, text, available, level, style, fresh), width),
    decreases text.len(), (if fresh {
        0nat
    } else {
        1nat
    }),
{
    if text.len() > 0 {
        let used = used_columns(l.current, l.space);
        let fit = if available > used {
            fit_count(text, (available - used) as nat)
        } else {
            0
        };
        if fit == 0 && !fresh {
            lemma_new_line_fits(l, level, width);
            lemma_place_fits(new_line(l, level), text, available, level, style, true, width);
        } else {
            let taken = if fit == 0 {
                1nat
            } else {
                fit
            };
            if available > used {
                lemma_fit_count(text, (available - used) as nat);
            }
            let set_off = if needs_separator(l.current) {
                with_span(l, raw_glyphs(seq![l.space]))
            } else {
                l
            };
            let chunk = text.take(taken as int);
            let span = GlyphSpan { content: trim_end(chunk), style };
            let placed = with_span(set_off, span);
            lemma_trim_end_prefix(chunk);
            lemma_line_columns_push(set_off.current, span);
            assert(line_columns(set_off.current) == used) by {
                if needs_separator(l.current) {
                    lemma_line_columns_push(l.current, raw_glyphs(seq![l.space]));
                    lemma_columns_push(Seq::empty(), l.space);
                    assert(Seq::<Glyph>::empty().push(l.space) =~= seq![l.space]);
                }
            }
            if fit == 0 {
                assert(chunk =~= seq![text[0]]);
                lemma_columns_push(Seq::empty(), text[0]);
                assert(Seq::<Glyph>::empty().push(text[0]) =~= chunk);
                if text[0].white {
                    assert(chunk.drop_last() =~= Seq::<Glyph>::empty());
                    assert(trim_end(chunk) =~= Seq::<Glyph>::empty());
                } else {
                    assert(trim_end(chunk) == chunk);
                }
            }
            assert(layout_fits(placed, width));
            let rest = text.skip(taken as int);
            if rest.len() > 0 {
                lemma_new_line_fits(placed, level, width);
                assert forall|i: int| 0 <= i < rest.len() && !(#[trigger] rest[i]).white implies used_columns(
                    fresh_line(level, l.space),
                    l.space,
                ) + rest[i].columns <= width by {
                    assert(rest[i] == text[i + taken as int]);
                }
                lemma_place_fits(
                    new_line(placed, level),
                    rest,
                    available,
                    level,
                    style,
                    true,
                    width,
                );
            }
        }
    }
}

/// Adding text whose glyphs fit the line keeps every line within `width`
/// columns.
pub proof fn lemma_add_text_fits(
    l: LayoutView,
    text: Seq<Glyph>,
    width: nat,
    level: nat,
    style: TextStyle,
)
    requires
        layout_fits(l, width),
        text_fits(text, level, l.space, width),
    ensures
        layout_fits(add_text(l, text, width, level, style), width),
{
    let begun = if l.current.len() == 0 {
        LayoutView { current: fresh_line(level, l.space), ..l }
    } else {
        l
    };
    lemma_place_fits(
        begun,
        text,
        available_columns(width, level),
        level,
        style,
        l.current.len() == 0,
        width,
    );
}

/// Whether `q` holds of some span of `line`.
pub open spec fn line_has(line: Seq<GlyphSpan>, q: spec_fn(GlyphSpan) -> bool) -> bool {
    exists|j: int| 0 <= j < line.len() && q(#[trigger] line[j])
}

/// Whether `q` holds of some span of `lines`.
pub open spec fn lines_have(lines: Seq<Seq<GlyphSpan>>, q: spec_fn(GlyphSpan) -> bool) -> bool {
    exists|i: int| 0 <= i < lines.len() && line_has(#[trigger] lines[i], q)
}

/// Whether `q` holds of some span of the layout.
pub open spec fn layout_has(l: LayoutView, q: spec_fn(GlyphSpan) -> bool) -> bool {
    lines_have(l.lines, q) || line_has(l.current, q)
}

/// Whether `q` holds of every span of `line`.
pub open spec fn line_all(line: Seq<GlyphSpan>, q: spec_fn(GlyphSpan) -> bool) -> bool {
    forall|j: int| 0 <= j < line.len() ==> q(#[trigger] line[j])
}

/// Whether `q` holds of every span of `lines`.
pub open spec fn lines_all(lines: Seq<Seq<GlyphSpan>>, q: spec_fn(GlyphSpan) -> bool) -> bool {
    forall|i: int| 0 <= i < lines.len() ==> line_all(#[trigger] lines[i], q)
}

/// Whether `q` holds of every span of the layout.
pub open spec fn layout_all(l: LayoutView, q: spec_fn(GlyphSpan) -> bool) -> bool {
    lines_all(l.lines, q) && line_all(l.current, q)
}

/// One more line loses no span, and brings its own.
pub proof fn lemma_push_line_has(
    lines: Seq<Seq<GlyphSpan>>,
    line: Seq<GlyphSpan>,
    q: spec_fn(GlyphSpan) -> bool,
)
    ensures
        lines_have(lines, q) ==> lines_have(lines.push(line), q),
        line_has(line, q) ==> lines_have(lines.push(line), q),
        lines_all(lines, q) && line_all(line, q) ==> lines_all(lines.push(line), q),
{
    if lines_have(lines, q) {
        let i = choose|i: int| 0 <= i < lines.len() && line_has(#[trigger] lines[i], q);
        assert(lines.push(line)[i] == lines[i]);
    }
    if line_has(line, q) {
        assert(lines.push(line)[lines.len() as int] == line);
    }
    if lines_all(lines, q) && line_all(line, q) {
        assert forall|i: int| 0 <= i < lines.push(line).len() implies line_all(
            #[trigger] lines.push(line)[i],
            q,
        ) by {
            if i < lines.len() {
                assert(lines.push(line)[i] == lines[i]);
            }
        }
    }
}

/// One more span loses no span of the line, and is one itself.
pub proof fn lemma_push_span_has(line: Seq<GlyphSpan>, span: GlyphSpan, q: spec_fn(GlyphSpan) -> bool)
    ensures
        line_has(line, q) ==> line_has(line.push(span), q),
        q(span) ==> line_has(line.push(span), q),
        line_all(line, q) && q(span) ==> line_all(line.push(span), q),
{
    if line_has(line, q) {
        let j = choose|j: int| 0 <= j < line.len() && q(#[trigger] line[j]);
        assert(line.push(span)[j] == line[j]);
    }
    if q(span) {
        assert(line.push(span)[line.len() as int] == span);
    }
    if line_all(line, q) && q(span) {
        assert forall|j: int| 0 <= j < line.push(span).len() implies q(
            #[trigger] line.push(span)[j],
        ) by {
            if j < line.len() {
                assert(line.push(span)[j] == line[j]);
            }
        }
    }
}

/// Finishing the line under construction moves its spans to the finished
/// lines.
pub proof fn lemma_flushed_has(l: LayoutView, q: spec_fn(GlyphSpan) -> bool)
    ensures
        layout_has(l, q) ==> lines_have(flushed(l).lines, q),
        layout_all(l, q) ==> layout_all(flushed(l), q),
{
    lemma_push_line_has(l.lines, l.current, q);
}

/// Beginning a new line loses no span, and adds at most the indentation.
pub proof fn lemma_new_line_has(l: LayoutView, level: nat, q: spec_fn(GlyphSpan) -> bool)
    ensures
        layout_has(l, q) ==> layout_has(new_line(l, level), q),
        layout_all(l, q) && q(indent_span(level, l.space)) ==> layout_all(new_line(l, level), q),
{
    lemma_flushed_has(l, q);
}

/// Packing more text loses no span of the layout.
pub proof fn lemma_place_keeps(
    l: LayoutView,
    text: Seq<Glyph>,
    available: nat,
    level: nat,
    style: TextStyle,
    fresh: bool,
    q: spec_fn(GlyphSpan) -> bool,
)
    requires
        layout_has(l, q),
    ensures
        layout_has(place(l, text, available, level, style, fresh), q),
    decreases text.len(), (if fresh {
        0nat
    } else {
        1nat
    }),
{
    if text.len() > 0 {
        let used = used_columns(l.current, l.space);
        let fit = if available > used {
            fit_count(text, (available - used) as nat)
        } else {
            0
        };
        if fit == 0 && !fresh {
            lemma_new_line_has(l, level, q);
            lemma_place_keeps(new_line(l, level), text, available, level, style, true, q);
        } else {
            let taken = if fit == 0 {
                1nat
            } else {
                fit
            };
            if available > used {
                lemma_fit_count(text, (available - used) as nat);
            }
            let set_off = if needs_separator(l.current) {
                with_span(l, raw_glyphs(seq![l.space]))
            } else {
                l
            };
            lemma_push_span_has(l.current, raw_glyphs(seq![l.space]), q);
            let span = GlyphSpan { content: trim_end(text.take(taken as int)), style };
            let placed = with_span(set_off, span);
            lemma_push_span_has(set_off.current, span, q);
            let rest = text.skip(taken as int);
            if rest.len() > 0 {
                lemma_new_line_has(placed, level, q);
                lemma_place_keeps(new_line(placed, level), rest, available, level, style, true, q);
            }
        }
    }
}

/// Text that holds more than whitespace leaves a span once it is packed:
/// a run of its glyphs, not empty, in its style.
pub proof fn lemma_place_shows(
    l: LayoutView,
    text: Seq<Glyph>,
    available: nat,
    level: nat,
    style: TextStyle,
    fresh: bool,
    q: spec_fn(GlyphSpan) -> bool,
)
    requires
        has_ink(text),
        forall|a: int, b: int|
            0 <= a < b <= text.len() ==> q(
                GlyphSpan { content: #[trigger] text.subrange(a, b), style },
            ),
    ensures
        layout_has(place(l, text, available, level, style, fresh), q),
    decreases text.len(), (if fresh {
        0nat
    } else {
        1nat
    }),
{
    let i = choose|i: int| 0 <= i < text.len() && !(#[trigger] text[i]).white;
    let used = used_columns(l.current, l.space);
    let fit = if available > used {
        fit_count(text, (available - used) as nat)
    } else {
        0
    };
    if fit == 0 && !fresh {
        lemma_place_shows(new_line(l, level), text, available, level, style, true, q);
    } else {
        let taken = if fit == 0 {
            1nat
        } else {
            fit
        };
        if available > used {
            lemma_fit_count(text, (available - used) as nat);
        }
        let set_off = if needs_separator(l.current) {
            with_span(l, raw_glyphs(seq![l.space]))
        } else {
            l
        };
        let chunk = text.take(taken as int);
        let span = GlyphSpan { content: trim_end(chunk), style };
        let placed = with_span(set_off, span);
        let rest = text.skip(taken as int);
        if i < taken {
            assert(chunk[i] == text[i]);
            lemma_trim_end_keeps_ink(chunk, i);
            lemma_trim_end_prefix(chunk);
            let m = trim_end(chunk).len() as int;
            assert(trim_end(chunk) =~= text.subrange(0, m));
            assert(q(GlyphSpan { content: text.subrange(0, m), style }));
            lemma_push_span_has(set_off.current, span, q);
            if rest.len() > 0 {
                lemma_new_line_has(placed, level, q);
                lemma_place_keeps(new_line(placed, level), rest, available, level, style, true, q);
            }
        } else {
            assert(rest[i - taken] == text[i]);
            assert forall|a: int, b: int| 0 <= a < b <= rest.len() implies q(
                GlyphSpan { content: #[trigger] rest.subrange(a, b), style },
            ) by {
                assert(rest.subrange(a, b) =~= text.subrange(a + taken, b + taken));
            }
            lemma_place_shows(new_line(placed, level), rest, available, level, style, true, q);
        }
    }
}

/// Packing text adds nothing but the indentation, the separating space
/// and runs of glyphs of the text in its style.
pub proof fn lemma_place_all(
    l: LayoutView,
    text: Seq<Glyph>,
    available: nat,
    level: nat,
    style: TextStyle,
    fresh: bool,
    q: spec_fn(GlyphSpan) -> bool,
)
    requires
        layout_all(l, q),
        q(indent_span(level, l.space)),
        q(raw_glyphs(seq![l.space])),
        forall|a: int, b: int|
            0 <= a <= b <= text.len() ==> q(
                GlyphSpan { content: #[trigger] text.subrange(a, b), style },
            ),
    ensures
        layout_all(place(l, text, available, level, style, fresh), q),
    decreases text.len(), (if fresh {
        0nat
    } else {
        1nat
    }),
{
    if text.len() > 0 {
        let used = used_columns(l.current, l.space);
        let fit = if available > used {
            fit_count(text, (available - used) as nat)
        } else {
            0
        };
        if fit == 0 && !fresh {
            lemma_new_line_has(l, level, q);
            lemma_place_all(new_line(l, level), text, available, level, style, true, q);
        } else {
            let taken = if fit == 0 {
                1nat
            } else {
                fit
            };
            if available > used {
                lemma_fit_count(text, (available - used) as nat);
            }
            let set_off = if needs_separator(l.current) {
                with_span(l, raw_glyphs(seq![l.space]))
            } else {
                l
            };
            lemma_push_span_has(l.current, raw_glyphs(seq![l.space]), q);
            let chunk = text.take(taken as int);
            lemma_trim_end_prefix(chunk);
            let m = trim_end(chunk).len() as int;
            assert(trim_end(chunk) =~= text.subrange(0, m));
            let span = GlyphSpan { content: trim_end(chunk), style };
            assert(q(GlyphSpan { content: text.subrange(0, m), style }));
            lemma_push_span_has(set_off.current, span, q);
            let placed = with_span(set_off, span);
            let rest = text.skip(taken as int);
            if rest.len() > 0 {
                lemma_new_line_has(placed, level, q);
                assert forall|a: int, b: int| 0 <= a <= b <= rest.len() implies q(
                    GlyphSpan { content: #[trigger] rest.subrange(a, b), style },
                ) by {
                    assert(rest.subrange(a, b) =~= text.subrange(a + taken, b + taken));
                }
                lemma_place_all(new_line(placed, level), rest, available, level, style, true, q);
            }
        }
    }
}

/// Adding more text loses no span of the layout.
pub proof fn lemma_add_text_keeps(
    l: LayoutView,
    text: Seq<Glyph>,
    width: nat,
    level: nat,
    style: TextStyle,
    q: spec_fn(GlyphSpan) -> bool,
)
    requires
        layout_has(l, q),
    ensures
        layout_has(add_text(l, text, width, level, style), q),
{
    let begun = if l.current.len() == 0 {
        LayoutView { current: fresh_line(level, l.space), ..l }
    } else {
        l
    };
    lemma_place_keeps(
        begun,
        text,
        available_columns(width, level),
        level,
        style,
        l.current.len() == 0,
        q,
    );
}

/// Text that holds more than whitespace leaves a span once it is added:
/// a run of its glyphs, not empty, in its style.
pub proof fn lemma_add_text_shows(
    l: LayoutView,
    text: Seq<Glyph>,
    width: nat,
    level: nat,
    style: TextStyle,
    q: spec_fn(GlyphSpan) -> bool,
)
    requires
        has_ink(text),
        forall|a: int, b: int|
            0 <= a < b <= text.len() ==> q(
                GlyphSpan { content: #[trigger] text.subrange(a, b), style },
            ),
    ensures
        layout_has(add_text(l, text, width, level, style), q),
{
    let begun = if l.current.len() == 0 {
        LayoutView { current: fresh_line(level, l.space), ..l }
    } else {
        l
    };
    lemma_place_shows(
        begun,
        text,
        available_columns(width, level),
        level,
        style,
        l.current.len() == 0,
        q,
    );
}

/// Adding text adds nothing but the indentation, the separating space and
/// runs of glyphs of the text in its style.
pub proof fn lemma_add_text_all(
    l: LayoutView,
    text: Seq<Glyph>,
    width: nat,
    level: nat,
    style: TextStyle,
    q: spec_fn(GlyphSpan) -> bool,
)
    requires
        layout_all(l, q),
        q(indent_span(level, l.space)),
        q(raw_glyphs(seq![l.space])),
        forall|a: int, b: int|
            0 <= a <= b <= text.len() ==> q(
                GlyphSpan { content: #[trigger] text.subrange(a, b), style },
            ),
    ensures
        layout_all(add_text(l, text, width, level, style), q),
{
    let begun = if l.current.len() == 0 {
        LayoutView { current: fresh_line(level, l.space), ..l }
    } else {
        l
    };
    lemma_place_all(
        begun,
        text,
        available_columns(width, level),
        level,
        style,
        l.current.len() == 0,
        q,
    );
}

/// Whether every glyph of `line` carries the width and kind of its
/// character.
pub open spec fn line_measured(line: Seq<GlyphSpan>) -> bool {
    forall|j: int| 0 <= j < line.len() ==> well_measured((#[trigger] line[j]).content)
}

/// Whether every glyph of `lines` carries the width and kind of its
/// character.
pub open spec fn lines_measured(lines: Seq<Seq<GlyphSpan>>) -> bool {
    forall|i: int| 0 <= i < lines.len() ==> line_measured(#[trigger] lines[i])
}

/// Whether every glyph of the layout carries the width and kind of its
/// character.
pub open spec fn layout_measured(l: LayoutView) -> bool {
    &&& lines_measured(l.lines)
    &&& line_measured(l.current)
    &&& l.space == glyph_of(l.space.ch)
}

/// A line of well measured glyphs takes as many columns as what it shows is
/// wide on screen.
pub proof fn lemma_line_columns_are_width(line: Seq<GlyphSpan>)
    requires
        line_measured(line),
    ensures
        line_columns(line) == line_width(line_spans(line)),
    decreases line.len(),
{
    if line.len() > 0 {
        assert forall|j: int| 0 <= j < line.drop_last().len() implies well_measured(
            (#[trigger] line.drop_last()[j]).content,
        ) by {
            assert(line.drop_last()[j] == line[j]);
        }
        lemma_line_columns_are_width(line.drop_last());
        assert(line_spans(line).drop_last() =~= line_spans(line.drop_last()));
        assert(line_spans(line).last() == span_text(line.last()));
        assert(well_measured(line[line.len() - 1].content));
        lemma_columns_are_display_width(line.last().content);
    } else {
        assert(line_spans(line) =~= Seq::<SpanView>::empty());
    }
}

/// The glyphs of a line carry the widths of its characters and show the
/// line.
pub proof fn lemma_measured_line(line: Seq<SpanView>)
    ensures
        line_measured(measured_line(line)),
        line_spans(measured_line(line)) == line,
{
    assert forall|j: int| 0 <= j < line.len() implies well_measured(
        (#[trigger] measured_line(line)[j]).content,
    ) && span_text(measured_line(line)[j]) == line[j] by {
        lemma_measured(line[j].content);
    }
    assert(line_spans(measured_line(line)) =~= line);
}

/// The glyphs of lines carry the widths of their characters and show the
/// lines.
pub proof fn lemma_measured_lines(lines: Seq<Seq<SpanView>>)
    ensures
        lines_measured(measured_lines(lines)),
        lines_spans(measured_lines(lines)) == lines,
{
    assert forall|i: int| 0 <= i < lines.len() implies line_measured(
        #[trigger] measured_lines(lines)[i],
    ) && line_spans(measured_lines(lines)[i]) == lines[i] by {
        lemma_measured_line(lines[i]);
    }
    assert(lines_spans(measured_lines(lines)) =~= lines);
}

/// A span of well measured glyphs keeps a line well measured.
pub proof fn lemma_push_span_measured(line: Seq<GlyphSpan>, span: GlyphSpan)
    requires
        line_measured(line),
        well_measured(span.content),
    ensures
        line_measured(line.push(span)),
{
    assert forall|j: int| 0 <= j < line.push(span).len() implies well_measured(
        (#[trigger] line.push(span)[j]).content,
    ) by {
        if j < line.len() {
            assert(line.push(span)[j] == line[j]);
        }
    }
}

/// Beginning a new line keeps the layout well measured.
pub proof fn lemma_new_line_measured(l: LayoutView, level: nat)
    requires
        layout_measured(l),
    ensures
        layout_measured(new_line(l, level)),
{
    let f = flushed(l);
    assert forall|i: int| 0 <= i < f.lines.len() implies line_measured(#[trigger] f.lines[i]) by {
        if i < l.lines.len() {
            assert(f.lines[i] == l.lines[i]);
        }
    }
    lemma_fresh_line_measured(level, l.space);
}

/// A line that was just begun is well measured where the space is.
pub proof fn lemma_fresh_line_measured(level: nat, space: Glyph)
    requires
        space == glyph_of(space.ch),
    ensures
        line_measured(fresh_line(level, space)),
{
}

/// Packing well measured glyphs keeps the layout well measured.
pub proof fn lemma_place_measured(
    l: LayoutView,
    text: Seq<Glyph>,
    available: nat,
    level: nat,
    style: TextStyle,
    fresh: bool,
)
    requires
        layout_measured(l),
        well_measured(text),
    ensures
        layout_measured(place(l, text, available, level, style, fresh)),
    decreases text.len(), (if fresh {
        0nat
    } else {
        1nat
    }),
{
    if text.len() > 0 {
        let used = used_columns(l.current, l.space);
        let fit = if available > used {
            fit_count(text, (available - used) as nat)
        } else {
            0
        };
        if fit == 0 && !fresh {
            lemma_new_line_measured(l, level);
            lemma_place_measured(new_line(l, level), text, available, level, style, true);
        } else {
            let taken = if fit == 0 {
                1nat
            } else {
                fit
            };
            if available > used {
                lemma_fit_count(text, (available - used) as nat);
            }
            let set_off = if needs_separator(l.current) {
                with_span(l, raw_glyphs(seq![l.space]))
            } else {
                l
            };
            if needs_separator(l.current) {
                lemma_push_span_measured(l.current, raw_glyphs(seq![l.space]));
            }
            let chunk = text.take(taken as int);
            lemma_trim_end_prefix(chunk);
            let span = GlyphSpan { content: trim_end(chunk), style };
            assert forall|k: int| 0 <= k < span.content.len() implies #[trigger] span.content[k]
                == glyph_of(span.content[k].ch) by {
                assert(span.content[k] == text[k]);
            }
            lemma_push_span_measured(set_off.current, span);
            let placed = with_span(set_off, span);
            let rest = text.skip(taken as int);
            if rest.len() > 0 {
                lemma_new_line_measured(placed, level);
                assert forall|k: int| 0 <= k < rest.len() implies #[trigger] rest[k] == glyph_of(
                    rest[k].ch,
                ) by {
                    assert(rest[k] == text[k + taken as int]);
                }
                lemma_place_measured(new_line(placed, level), rest, available, level, style, true);
            }
        }
    }
}

/// Adding well measured glyphs keeps the layout well measured.
pub proof fn lemma_add_text_measured(
    l: LayoutView,
    text: Seq<Glyph>,
    width: nat,
    level: nat,
    style: TextStyle,
)
    requires
        layout_measured(l),
        well_measured(text),
    ensures
        layout_measured(add_text(l, text, width, level, style)),
{
    let begun = if l.current.len() == 0 {
        LayoutView { current: fresh_line(level, l.space), ..l }
    } else {
        l
    };
    lemma_fresh_line_measured(level, l.space);
    lemma_place_measured(
        begun,
        text,
        available_columns(width, level),
        level,
        style,
        l.current.len() == 0,
    );
}

/// Adding text leaves the glyph that indents and separates as it is.
pub proof fn lemma_add_text_space(
    l: LayoutView,
    text: Seq<Glyph>,
    width: nat,
    level: nat,
    style: TextStyle,
)
    ensures
        add_text(l, text, width, level, style).space == l.space,
{
    let begun = if l.current.len() == 0 {
        LayoutView { current: fresh_line(level, l.space), ..l }
    } else {
        l
    };
    lemma_place_space(
        begun,
        text,
        available_columns(width, level),
        level,
        style,
        l.current.len() == 0,
    );
}

/// Packing text leaves the glyph that indents and separates as it is.
pub proof fn lemma_place_space(
    l: LayoutView,
    text: Seq<Glyph>,
    available: nat,
    level: nat,
    style: TextStyle,
    fresh: bool,
)
    ensures
        place(l, text, available, level, style, fresh).space == l.space,
    decreases text.len(), (if fresh {
        0nat
    } else {
        1nat
    }),
{
    if text.len() > 0 {
        let used = used_columns(l.current, l.space);
        let fit = if available > used {
            fit_count(text, (available - used) as nat)
        } else {
            0
        };
        if fit == 0 && !fresh {
            lemma_place_space(
                new_line(l, level),
                text,
                available,
                level,
                style,
                true,
            );
        } else {
            let taken = if fit == 0 {
                1nat
            } else {
                fit
            };
            if available > used {
                lemma_fit_count(text, (available - used) as nat);
            }
            let set_off = if needs_separator(l.current) {
                with_span(l, raw_glyphs(seq![l.space]))
            } else {
                l
            };
            let placed = with_span(
                set_off,
                GlyphSpan { content: trim_end(text.take(taken as int)), style },
            );
            let rest = text.skip(taken as int);
            if rest.len() > 0 {
                lemma_place_space(
                    new_line(placed, level),
                    rest,
                    available,
                    level,
                    style,
                    true,
                );
            }
        }
    }
}

/// The finished lines and the spans of the line under construction, with
/// the bookkeeping that packing needs.
pub struct Layout {
    lines: Vec<Line>,
    current: Vec<Span>,
    used: usize,
    open: bool,
    space: Glyph,
    model: Ghost<LayoutView>,
}

impl View for Layout {
    type V = LayoutView;

    closed spec fn view(&self) -> LayoutView {
        self.model@
    }
}

impl Layout {
    /// The lines and spans show the glyphs of the layout, and the
    /// bookkeeping agrees with the line under construction.
    pub closed spec fn wf(&self) -> bool {
        &&& lines_view(self.lines@) == lines_spans(self@.lines)
        &&& spans_view(self.current@) == line_spans(self@.current)
        &&& self.used == clip(line_columns(self@.current))
        &&& self.open == needs_separator(self@.current)
        &&& self.space == self@.space
    }

    /// An empty layout that indents and separates with `space`.
    pub fn new(space: Glyph) -> (l: Layout)
        ensures
            l.wf(),
            l@ == empty_layout(space),
    {
        let l = Layout {
            lines: Vec::new(),
            current: Vec::new(),
            used: 0,
            open: false,
            space,
            model: Ghost(empty_layout(space)),
        };
        assert(lines_view(l.lines@) =~= lines_spans(l@.lines));
        assert(spans_view(l.current@) =~= line_spans(l@.current));
        l
    }

    /// Whether no line is finished yet.
    pub fn has_no_lines(&self) -> (b: bool)
        requires
            self.wf(),
        ensures
            b == (self@.lines.len() == 0),
    {
        assert(lines_view(self.lines@).len() == self@.lines.len());
        self.lines.len() == 0
    }

    /// Gives up the finished lines; the line under construction is dropped.
    pub fn into_lines(self) -> (lines: Vec<Line>)
        requires
            self.wf(),
        ensures
            lines_view(lines@) == lines_spans(self@.lines),
    {
        self.lines
    }

    /// Finishes the line under construction, if it holds anything.
    pub fn flush(&mut self)
        requires
            old(self).wf(),
        ensures
            final(self).wf(),
            final(self)@ == flushed(old(self)@),
    {
        assert(spans_view(self.current@).len() == self@.current.len());
        if self.current.len() > 0 {
            let mut spans: Vec<Span> = Vec::new();
            core::mem::swap(&mut spans, &mut self.current);
            let line = Line { spans };
            self.lines.push(line);
            self.used = 0;
            self.open = false;
            self.model = Ghost(flushed(old(self)@));
            assert(line@ == line_spans(old(self)@.current));
            assert(lines_view(self.lines@) =~= lines_view(old(self).lines@).push(line@));
            assert(lines_spans(self@.lines) =~= lines_spans(old(self)@.lines).push(
                line_spans(old(self)@.current),
            ));
            assert(spans_view(self.current@) =~= line_spans(self@.current));
        }
    }

    /// Adds a line without spans to the finished lines.
    pub fn push_blank(&mut self)
        requires
            old(self).wf(),
        ensures
            final(self).wf(),
            final(self)@ == with_blank(old(self)@),
    {
        let line = Line { spans: Vec::new() };
        assert(line@ =~= Seq::empty());
        self.lines.push(line);
        self.model = Ghost(with_blank(old(self)@));
        assert(line_spans(Seq::<GlyphSpan>::empty()) =~= Seq::<SpanView>::empty());
        assert(lines_view(self.lines@) =~= lines_view(old(self).lines@).push(line@));
        assert(lines_spans(self@.lines) =~= lines_spans(old(self)@.lines).push(
            line_spans(Seq::<GlyphSpan>::empty()),
        ));
    }

    /// Adds finished lines after those that are there.
    pub fn append_lines(&mut self, more: Vec<Line>)
        requires
            old(self).wf(),
        ensures
            final(self).wf(),
            final(self)@ == with_lines(old(self)@, measured_lines(lines_view(more@))),
    {
        let mut rest = more;
        let ghost added = lines_view(rest@);
        self.lines.append(&mut rest);
        self.model = Ghost(with_lines(old(self)@, measured_lines(added)));
        proof {
            lemma_measured_lines(added);
            assert(lines_view(self.lines@) =~= lines_view(old(self).lines@) + added);
            assert(lines_spans(self@.lines) =~= lines_spans(old(self)@.lines) + lines_spans(
                measured_lines(added),
            ));
        }
    }

    /// Appends `glyphs` in `style` to the line under construction, as they
    /// are: nothing is wrapped or trimmed.
    pub fn push_glyphs(&mut self, glyphs: &Vec<Glyph>, style: TextStyle)
        requires
            old(self).wf(),
        ensures
            final(self).wf(),
            final(self)@ == with_span(old(self)@, GlyphSpan { content: glyphs@, style }),
    {
        assert(glyphs@.subrange(0, glyphs.len() as int) =~= glyphs@);
        self.push_range(glyphs, 0, glyphs.len(), style);
    }

    /// Appends `glyphs[from..to]` in `style` to the line under construction.
    fn push_range(&mut self, glyphs: &Vec<Glyph>, from: usize, to: usize, style: TextStyle)
        requires
            old(self).wf(),
            from <= to <= glyphs.len(),
        ensures
            final(self).wf(),
            final(self)@ == with_span(
                old(self)@,
                GlyphSpan { content: glyphs@.subrange(from as int, to as int), style },
            ),
    {
        let ghost added = GlyphSpan { content: glyphs@.subrange(from as int, to as int), style };
        let content = from_glyphs(glyphs, from, to);
        let columns = columns_between(glyphs, from, to);
        let ends_in_space = to > from && glyphs[to - 1].ch == ' ';
        let span = Span::styled(content, style);
        proof {
            lemma_line_columns_push(self@.current, added);
        }
        self.current.push(span);
        self.used = self.used.saturating_add(columns);
        self.open = !ends_in_space;
        self.model = Ghost(with_span(old(self)@, added));
        assert(span@ == span_text(added));
        assert(spans_view(self.current@) =~= spans_view(old(self).current@).push(span@));
        assert(line_spans(self@.current) =~= line_spans(old(self)@.current).push(
            span_text(added),
        ));
    }

    /// Begins a line inside a list nested `level` deep: appends twice
    /// `level` spaces, without colour or decoration, as one span.
    fn push_indent(&mut self, level: usize)
        requires
            old(self).wf(),
            level > 0,
        ensures
            final(self).wf(),
            final(self)@ == with_span(old(self)@, indent_span(level as nat, old(self)@.space)),
    {
        let space = self.space;
        let ghost added = indent_span(level as nat, space);
        let mut content = String::new();
        let mut columns: usize = 0;
        let mut i: usize = 0;
        assert(content@ =~= chars_of(blanks(0, space)));
        while i < level
            invariant
                i <= level,
                content@ == chars_of(blanks(2 * i as nat, space)),
                columns == clip(columns_of(blanks(2 * i as nat, space))),
            decreases level - i,
        {
            proof {
                let before = blanks(2 * i as nat, space);
                lemma_columns_push(before, space);
                lemma_columns_push(before.push(space), space);
                assert(before.push(space).push(space) =~= blanks(2 * (i + 1) as nat, space));
            }
            content.push(space.ch);
            content.push(space.ch);
            columns = columns.saturating_add(space.columns).saturating_add(space.columns);
            i += 1;
            assert(content@ =~= chars_of(blanks(2 * i as nat, space)));
        }
        let span = Span::raw(content);
        proof {
            lemma_line_columns_push(self@.current, added);
        }
        self.current.push(span);
        self.used = self.used.saturating_add(columns);
        self.open = !(space.ch == ' ');
        self.model = Ghost(with_span(old(self)@, added));
        assert(span@ == span_text(added));
        assert(spans_view(self.current@) =~= spans_view(old(self).current@).push(span@));
        assert(line_spans(self@.current) =~= line_spans(old(self)@.current).push(
            span_text(added),
        ));
    }

    /// Begins a line inside a list nested `level` deep on a line that holds
    /// nothing yet.
    fn begin_line(&mut self, level: usize)
        requires
            old(self).wf(),
            old(self)@.current.len() == 0,
        ensures
            final(self).wf(),
            final(self)@ == (LayoutView {
                current: fresh_line(level as nat, old(self)@.space),
                ..old(self)@
            }),
    {
        assert(self@.current =~= Seq::<GlyphSpan>::empty());
        if level > 0 {
            self.push_indent(level);
            assert(self@.current =~= fresh_line(level as nat, old(self)@.space));
        }
    }

    /// Finishes the line under construction and begins a new one, indented
    /// when `level` is not zero.
    pub fn break_line(&mut self, level: usize)
        requires
            old(self).wf(),
        ensures
            final(self).wf(),
            final(self)@ == new_line(old(self)@, level as nat),
    {
        self.flush();
        self.begin_line(level);
    }

    /// Packs `text` in `style` into the layout, wrapped at `width` columns
    /// inside a list nested `level` deep.
    pub fn add_text(&mut self, text: &Vec<Glyph>, width: usize, level: usize, style: TextStyle)
        requires
            old(self).wf(),
        ensures
            final(self).wf(),
            final(self)@ == add_text(old(self)@, text@, width as nat, level as nat, style),
    {
        let available: usize = if level >= width - width / 2 {
            0
        } else {
            width - 2 * level
        };
        assert(available == available_columns(width as nat, level as nat));
        assert(spans_view(self.current@).len() == self@.current.len());
        let mut fresh = self.current.len() == 0;
        if fresh {
            self.begin_line(level);
        }
        let space = self.space;
        let mut blank: Vec<Glyph> = Vec::new();
        blank.push(space);
        assert(blank@.subrange(0, 1) =~= seq![space]);
        let ghost goal = add_text(old(self)@, text@, width as nat, level as nat, style);
        let mut pos: usize = 0;
        assert(text@.skip(0) =~= text@);
        while pos < text.len()
            invariant
                self.wf(),
                pos <= text.len(),
                space == self@.space,
                blank@.subrange(0, 1) == seq![space],
                blank.len() == 1,
                goal == place(
                    self@,
                    text@.skip(pos as int),
                    available as nat,
                    level as nat,
                    style,
                    fresh,
                ),
            decreases text.len() - pos, (if fresh {
                0nat
            } else {
                1nat
            }),
        {
            let ghost rest = text@.skip(pos as int);
            let used = if self.open {
                self.used.saturating_add(space.columns)
            } else {
                self.used
            };
            let room = available.saturating_sub(used);
            assert(room == if available > used_columns(self@.current, self@.space) {
                (available - used_columns(self@.current, self@.space)) as nat
            } else {
                0
            });
            let fit_to = if room == 0 {
                pos
            } else {
                fit_end(text, pos, room)
            };
            if fit_to == pos && !fresh {
                self.break_line(level);
                fresh = true;
            } else {
                let end: usize = if fit_to == pos {
                    pos + 1
                } else {
                    fit_to
                };
                if self.open {
                    self.push_range(&blank, 0, 1, TextStyle::plain());
                }
                let trimmed = trim_end_index(text, pos, end);
                proof {
                    assert(rest.take(end - pos) =~= text@.subrange(pos as int, end as int));
                    assert(rest.skip(end - pos) =~= text@.skip(end as int));
                }
                self.push_range(text, pos, trimmed, style);
                pos = end;
                if pos < text.len() {
                    self.break_line(level);
                    fresh = true;
                }
            }
        }
    }
}

} // verus!
