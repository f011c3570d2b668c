//! Renders the user interface for the chat application.

use ratatui::layout::{Constraint, Direction, Layout};
use vstd::prelude::*;

use crate::text::{
    byte_len, chars_of, from_chars, glyph_chars, line_end, measure, measured, run_end, spaces,
    strip_ending_index, text_lines, text_plainly_measured, to_chars, words, Glyph,
};
use crate::ui::layout::raw_span;
use crate::ui::markdown_renderer::{rendered, MarkdownRenderer};
use crate::ui::spinner::spinner_frames;
use crate::ui::state::{text_is, InputMode, MessageView, ScrollbarState, State, StateView};
use crate::ui::style::{lines_text, lines_view, Color, Line, Span, SpanView, TextStyle};

verus! {

/// The views of `strings`, in order.
pub open spec fn strings_view(strings: Seq<String>) -> Seq<Seq<char>> {
    strings.map_values(|s: String| s@)
}

/// Greedy packing of `words` into lines of `max_width` characters: the
/// finished lines and the line under construction. A word joins the line
/// under construction, after a space, unless the line would then pass
/// `max_width`; a word longer than `max_width` stands on a line of its own.
pub open spec fn wrap_words(words: Seq<Seq<char>>, max_width: nat) -> (Seq<Seq<char>>, Seq<char>)
    decreases words.len(),
{
    if words.len() == 0 {
        (Seq::empty(), Seq::empty())
    } else {
        let (lines, open) = wrap_words(words.drop_last(), max_width);
        let word = words.last();
        if open.len() == 0 {
            (lines, word)
        } else if open.len() + word.len() + 1 > max_width {
            (lines.push(open), word)
        } else {
            (lines, open.push(' ') + word)
        }
    }
}

/// The words of `glyphs`, each as the characters that it spells.
pub open spec fn word_texts(glyphs: Seq<Glyph>) -> Seq<Seq<char>> {
    words(glyphs).map_values(|word: Seq<Glyph>| chars_of(word))
}

/// The lines that one line of text wraps to: an empty line where it holds
/// no word.
pub open spec fn wrap_line(line: Seq<Glyph>, max_width: nat) -> Seq<Seq<char>> {
    let found = word_texts(line);
    if found.len() == 0 {
        seq![Seq::empty()]
    } else {
        wrap_words(found, max_width).0.push(wrap_words(found, max_width).1)
    }
}

/// Whether a wrapped line is within `max_width` characters or is one of
/// `words` standing alone.
pub open spec fn fits_or_is_word(line: Seq<char>, words: Seq<Seq<char>>, max_width: nat) -> bool {
    line.len() <= max_width || words.contains(line)
}

/// Greedy packing never joins words into a line longer than `max_width`.
proof fn lemma_wrap_words_fit(words: Seq<Seq<char>>, max_width: nat)
    ensures
        forall|i: int|
            0 <= i < wrap_words(words, max_width).0.len() ==> fits_or_is_word(
                #[trigger] wrap_words(words, max_width).0[i],
                words,
                max_width,
            ),
        words.len() > 0 ==> fits_or_is_word(wrap_words(words, max_width).1, words, max_width),
    decreases words.len(),
{
    if words.len() > 0 {
        let earlier = words.drop_last();
        lemma_wrap_words_fit(earlier, max_width);
        let (lines, open) = wrap_words(earlier, max_width);
        let word = words.last();
        assert(words.contains(word));
        assert forall|line: Seq<char>| earlier.contains(line) implies words.contains(line) by {
            let k = choose|k: int| 0 <= k < earlier.len() && earlier[k] == line;
            assert(words[k] == line);
        }
        if earlier.len() == 0 {
            assert(open.len() == 0);
        }
    }
}

/// A wrapped line is longer than `max_width` only where it is a single
/// word that is longer: words are never broken and never joined beyond the
/// width.
pub proof fn lemma_wrapped_line_fits(line: Seq<Glyph>, max_width: nat, i: int)
    requires
        0 <= i < wrap_line(line, max_width).len(),
    ensures
        fits_or_is_word(wrap_line(line, max_width)[i], word_texts(line), max_width),
{
    lemma_wrap_words_fit(word_texts(line), max_width);
}

/// The lines that `lines` wrap to, one after another.
pub open spec fn wrap_lines(lines: Seq<Seq<Glyph>>, max_width: nat) -> Seq<Seq<char>>
    decreases lines.len(),
{
    if lines.len() == 0 {
        Seq::empty()
    } else {
        wrap_lines(lines.drop_last(), max_width) + wrap_line(lines.last(), max_width)
    }
}

/// `glyphs` wrapped word by word at `max_width` characters.
pub open spec fn wrapped_glyphs(glyphs: Seq<Glyph>, max_width: nat) -> Seq<Seq<char>> {
    wrap_lines(text_lines(glyphs), max_width)
}

/// `text` wrapped word by word at `max_width` characters.
pub open spec fn wrapped_text(text: Seq<char>, max_width: nat) -> Seq<Seq<char>> {
    wrapped_glyphs(measured(text), max_width)
}

/// A rectangle of terminal cells.
#[derive(Debug, PartialEq, Eq, Clone, Copy, Structural)]
pub struct Rect {
    /// Column of the top left corner.
    pub x: u16,
    /// Row of the top left corner.
    pub y: u16,
    pub width: u16,
    pub height: u16,
}

/// `n` clipped to what a `u16` holds.
pub open spec fn clip16(n: int) -> u16 {
    if n > u16::MAX {
        u16::MAX
    } else if n < 0 {
        0
    } else {
        n as u16
    }
}

/// The rectangle inside `area` that leaves `horizontal` columns free on the
/// left and on the right and `vertical` rows above and below; a rectangle
/// without area where the margins do not fit.
pub open spec fn inner_rect(area: Rect, horizontal: u16, vertical: u16) -> Rect {
    if area.width < clip16(2 * horizontal) || area.height < clip16(2 * vertical) {
        Rect { x: 0, y: 0, width: 0, height: 0 }
    } else {
        Rect {
            x: clip16(area.x + horizontal),
            y: clip16(area.y + vertical),
            width: (area.width - clip16(2 * horizontal)) as u16,
            height: (area.height - clip16(2 * vertical)) as u16,
        }
    }
}

/// The panel that the help is drawn in: half as wide and half as high as
/// the screen, a quarter of the width from the left and a fifth of the
/// height from the top.
pub open spec fn help_rect(area: Rect) -> Rect {
    Rect {
        x: area.width / 4,
        y: area.height / 5,
        width: area.width / 2,
        height: area.height / 2,
    }
}

/// Calls `ratatui::layout::Layout::areas` on a vertical layout with margin
/// 1 and the constraints `Min(0)` and `Length(3)`, for the message list and
/// the input box. The layout gives every area of a vertical layout the
/// columns of the screen inside the margin; what rows each gets is for its
/// solver to decide.
#[verifier::external_body]
fn split_screen(area: Rect) -> (areas: (Rect, Rect))
    ensures
        areas.0.x == inner_rect(area, 1, 1).x,
        areas.0.width == inner_rect(area, 1, 1).width,
        areas.1.x == inner_rect(area, 1, 1).x,
        areas.1.width == inner_rect(area, 1, 1).width,
{
    let outer =
        ratatui::layout::Rect { x: area.x, y: area.y, width: area.width, height: area.height };
    let rows = [Constraint::Min(0), Constraint::Length(3)];
    let layout = Layout::default().direction(Direction::Vertical).margin(1).constraints(rows);
    let [top, bottom] = layout.areas(outer);
    (
        Rect { x: top.x, y: top.y, width: top.width, height: top.height },
        Rect { x: bottom.x, y: bottom.y, width: bottom.width, height: bottom.height },
    )
}

/// How many rows the input box is meant to have on a screen of the size
/// `area`: three, or what the screen has inside its margin where that is
/// less.
pub open spec fn input_rows(area: Rect) -> u16 {
    if inner_rect(area, 1, 1).height < 3 {
        inner_rect(area, 1, 1).height
    } else {
        3
    }
}

/// Whether `messages_area` and `input_area` cut a screen of the size `area`
/// as it is meant to be cut: inside a margin of one cell, the input box in
/// the last three rows and the message list above it with the rest.
pub open spec fn regular_split(area: Rect, messages_area: Rect, input_area: Rect) -> bool {
    let inner = inner_rect(area, 1, 1);
    &&& messages_area == (Rect {
        x: inner.x,
        y: inner.y,
        width: inner.width,
        height: (inner.height - input_rows(area)) as u16,
    })
    &&& input_area == (Rect {
        x: inner.x,
        y: clip16(inner.y + inner.height - input_rows(area)),
        width: inner.width,
        height: input_rows(area),
    })
}

/// A span in bold type.
pub open spec fn bold_span(content: Seq<char>) -> SpanView {
    SpanView { content, style: TextStyle { fg: None, bold: true, italic: false } }
}

/// A span that names a key in the help panel: blue and bold.
pub open spec fn key_span(content: Seq<char>) -> SpanView {
    SpanView { content, style: TextStyle { fg: Some(Color::Blue), bold: true, italic: false } }
}

/// The colour that messages of `role` are shown in.
pub open spec fn role_style(role: Seq<char>) -> TextStyle {
    if role == "user"@ {
        TextStyle::colored_spec(Color::Blue)
    } else if role == "assistant"@ {
        TextStyle::colored_spec(Color::Green)
    } else if role == "system"@ {
        TextStyle::colored_spec(Color::Yellow)
    } else {
        TextStyle::plain_spec()
    }
}

/// The text that messages of `role` begin with.
pub open spec fn role_prefix(role: Seq<char>) -> Seq<char> {
    if role == "user"@ {
        "You: "@
    } else if role == "assistant"@ {
        "AI: "@
    } else {
        Seq::empty()
    }
}

/// Whether messages of `role` are wrapped word by word; the others are
/// rendered as markdown.
pub open spec fn wraps_plainly(role: Seq<char>) -> bool {
    role == "system"@ || role == "user"@
}

/// The content of a message as it is shown: behind the spinner glyph and a
/// space where it is animated.
pub open spec fn shown_content(content: Seq<char>, glyph: Option<char>) -> Seq<char> {
    match glyph {
        Some(g) => seq![g, ' '] + content,
        None => content,
    }
}

/// The lines of text that a message of `role` is broken into at `width`
/// characters.
pub open spec fn message_texts(role: Seq<char>, shown: Seq<char>, width: nat) -> Seq<Seq<char>> {
    if wraps_plainly(role) {
        wrapped_text(shown, width)
    } else {
        lines_text(rendered(shown, width))
    }
}

/// `texts` as lines of a list item: the first behind `prefix` in `style`,
/// the others indented by the length of `prefix`.
pub open spec fn prefixed(texts: Seq<Seq<char>>, prefix: Seq<char>, style: TextStyle) -> Seq<
    Seq<SpanView>,
> {
    Seq::new(
        texts.len(),
        |i: int|
            seq![
                if i == 0 {
                    SpanView { content: prefix, style }
                } else {
                    raw_span(spaces(prefix.len()))
                },
                raw_span(texts[i]),
            ],
    )
}

/// Columns left for the content of a message of `role` in a list that is
/// `width` columns wide: none where the prefix takes them all.
pub open spec fn content_width(role: Seq<char>, width: nat) -> nat {
    if width > role_prefix(role).len() {
        (width - role_prefix(role).len()) as nat
    } else {
        0
    }
}

/// The lines of one message in a list that is `width` columns wide.
pub open spec fn message_item(message: MessageView, glyph: Option<char>, width: nat) -> Seq<
    Seq<SpanView>,
> {
    prefixed(
        message_texts(
            message.0,
            shown_content(message.1, glyph),
            content_width(message.0, width),
        ),
        role_prefix(message.0),
        role_style(message.0),
    )
}

/// Whether a message of `role` is shown behind the spinner.
pub open spec fn animated(role: Seq<char>, mode: InputMode) -> bool {
    role == "system"@ && mode == InputMode::Waiting
}

/// The spinner glyph at `position`.
pub open spec fn glyph_at(position: nat) -> char {
    spinner_frames()[position as int % 10]
}

/// The list items of `messages`, and the position that the spinner has
/// reached: each animated message takes the next glyph.
pub open spec fn message_items(
    messages: Seq<MessageView>,
    mode: InputMode,
    spinner: nat,
    width: nat,
) -> (Seq<Seq<Seq<SpanView>>>, nat)
    decreases messages.len(),
{
    if messages.len() == 0 {
        (Seq::empty(), spinner)
    } else {
        let (items, position) = message_items(messages.drop_last(), mode, spinner, width);
        let message = messages.last();
        if animated(message.0, mode) {
            (items.push(message_item(message, Some(glyph_at(position)), width)), (position + 1) % 10)
        } else {
            (items.push(message_item(message, None, width)), position)
        }
    }
}

/// The key hints for `mode`.
pub open spec fn hint_spans(mode: InputMode) -> Seq<SpanView> {
    match mode {
        InputMode::Normal => seq![
            raw_span("Press "@),
            bold_span("q"@),
            raw_span(" to exit, "@),
            bold_span("e"@),
            raw_span(" to start editing, "@),
            bold_span("?"@),
            raw_span(" to show help menu"@),
        ],
        InputMode::Editing => seq![
            raw_span("Press "@),
            bold_span("Esc"@),
            raw_span(" to stop editing, "@),
            bold_span("Enter"@),
            raw_span(" to send the message"@),
        ],
        InputMode::Waiting => seq![
            raw_span("Press "@),
            bold_span("Esc"@),
            raw_span(" to cancel request"@),
        ],
    }
}

/// The lines of the help panel.
pub open spec fn help_lines() -> Seq<Seq<SpanView>> {
    seq![
        seq![raw_span("Shortcut Information"@)],
        seq![raw_span(""@)],
        seq![key_span("?"@), raw_span(" to toggle/untoggle this help menu"@)],
        seq![key_span("q"@), raw_span(" to quit the application"@)],
        seq![key_span("Esc"@), raw_span(" to exit from Editing Mode"@)],
        seq![key_span("Left/Right key"@), raw_span(" to scrolling horizontally"@)],
        seq![key_span("Up/Down key"@), raw_span(" to scrolling vertically"@)],
    ]
}

/// The colour of the input text in `mode`.
pub open spec fn input_style(mode: InputMode) -> TextStyle {
    match mode {
        InputMode::Normal => TextStyle::plain_spec(),
        InputMode::Editing => TextStyle::colored_spec(Color::Yellow),
        InputMode::Waiting => TextStyle::colored_spec(Color::DarkGray),
    }
}

/// The help panel: where it stands and what it says.
#[derive(Debug)]
pub struct HelpPanel {
    pub area: Rect,
    pub lines: Vec<Line>,
}

/// The help panel as the contracts see it.
pub struct HelpView {
    pub area: Rect,
    pub lines: Seq<Seq<SpanView>>,
}

/// Everything that one frame shows, ready to be drawn.
#[derive(Debug)]
pub struct Screen {
    /// Where the message list stands.
    pub messages_area: Rect,
    /// The lines of each message, one list item per message.
    pub items: Vec<Vec<Line>>,
    /// Where the scrollbar of the message list stands.
    pub vertical_scrollbar_area: Rect,
    /// Where the input box stands.
    pub input_area: Rect,
    /// The colour of the input text.
    pub input_style: TextStyle,
    /// How many columns the input text is scrolled to the left.
    pub input_scroll: u16,
    /// Where the scrollbar of the input box stands, if the input is longer
    /// than the box is wide.
    pub horizontal_scrollbar_area: Option<Rect>,
    /// Where the cursor stands, in editing mode.
    pub cursor: Option<(u16, u16)>,
    /// The key hints.
    pub hint: Line,
    /// The help panel, if it is shown.
    pub help: Option<HelpPanel>,
}

/// A frame as the contracts see it.
pub struct ScreenView {
    pub messages_area: Rect,
    pub items: Seq<Seq<Seq<SpanView>>>,
    pub vertical_scrollbar_area: Rect,
    pub input_area: Rect,
    pub input_style: TextStyle,
    pub input_scroll: u16,
    pub horizontal_scrollbar_area: Option<Rect>,
    pub cursor: Option<(u16, u16)>,
    pub hint: Seq<SpanView>,
    pub help: Option<HelpView>,
}

/// The views of the lines of each item, in order.
pub open spec fn items_view(items: Seq<Vec<Line>>) -> Seq<Seq<Seq<SpanView>>> {
    items.map_values(|item: Vec<Line>| lines_view(item@))
}

impl View for Screen {
    type V = ScreenView;

    open spec fn view(&self) -> ScreenView {
        ScreenView {
            messages_area: self.messages_area,
            items: items_view(self.items@),
            vertical_scrollbar_area: self.vertical_scrollbar_area,
            input_area: self.input_area,
            input_style: self.input_style,
            input_scroll: self.input_scroll,
            horizontal_scrollbar_area: self.horizontal_scrollbar_area,
            cursor: self.cursor,
            hint: self.hint@,
            help: match self.help {
                Some(panel) => Some(HelpView { area: panel.area, lines: lines_view(panel.lines@) }),
                None => None,
            },
        }
    }
}

/// Width of the input box `input_area` without its border.
pub open spec fn input_width_in(input_area: Rect) -> u16 {
    if input_area.width > 2 {
        (input_area.width - 2) as u16
    } else {
        0
    }
}

/// Whether the input is longer than the input box `input_area` is wide.
pub open spec fn input_overflows(s: StateView, input_area: Rect) -> bool {
    byte_len(s.input) > input_width_in(input_area)
}

/// The frame that shows `s` on a screen of the size `area`, with the
/// message list in `messages_area` and the input box in `input_area`.
pub open spec fn screen_within(
    s: StateView,
    area: Rect,
    messages_area: Rect,
    input_area: Rect,
) -> ScreenView {
    ScreenView {
        messages_area,
        items: message_items(
            s.messages,
            s.input_mode,
            s.spinner,
            inner_rect(messages_area, 1, 1).width as nat,
        ).0,
        vertical_scrollbar_area: inner_rect(messages_area, 0, 1),
        input_area,
        input_style: input_style(s.input_mode),
        input_scroll: clip16(s.horizontal_scroll as int),
        horizontal_scrollbar_area: if input_overflows(s, input_area) {
            Some(inner_rect(input_area, 1, 0))
        } else {
            None
        },
        cursor: if s.input_mode == InputMode::Editing {
            Some((clip16(input_area.x + byte_len(s.input) + 1), clip16(input_area.y + 1)))
        } else {
            None
        },
        hint: hint_spans(s.input_mode),
        help: if s.show_toggle {
            Some(HelpView { area: help_rect(area), lines: help_lines() })
        } else {
            None
        },
    }
}

/// The state after a frame was laid out with the message list in
/// `messages_area` and the input box in `input_area`: the scrollbars know
/// the sizes, the width of the input box is noted and the spinner has moved
/// past every animated message.
pub open spec fn state_within(s: StateView, messages_area: Rect, input_area: Rect) -> StateView {
    StateView {
        horizontal_scroll_state: if input_overflows(s, input_area) {
            ScrollbarState {
                content_length: byte_len(s.input),
                position: s.horizontal_scroll,
                viewport_content_length: input_width_in(input_area) as usize,
            }
        } else {
            s.horizontal_scroll_state
        },
        input_width: input_width_in(input_area),
        spinner: message_items(
            s.messages,
            s.input_mode,
            s.spinner,
            inner_rect(messages_area, 1, 1).width as nat,
        ).1,
        vertical_scroll_state: ScrollbarState {
            content_length: s.messages.len() as usize,
            viewport_content_length: messages_area.height as usize,
            ..s.vertical_scroll_state
        },
        ..s
    }
}

impl Rect {
    /// The rectangle inside this one that leaves `horizontal` columns free
    /// on either side and `vertical` rows above and below.
    #[must_use]
    pub fn inner(self, horizontal: u16, vertical: u16) -> (r: Rect)
        ensures
            r == inner_rect(self, horizontal, vertical),
    {
        let doubled_horizontal = horizontal.saturating_add(horizontal);
        let doubled_vertical = vertical.saturating_add(vertical);
        if self.width < doubled_horizontal || self.height < doubled_vertical {
            Rect { x: 0, y: 0, width: 0, height: 0 }
        } else {
            Rect {
                x: self.x.saturating_add(horizontal),
                y: self.y.saturating_add(vertical),
                width: self.width - doubled_horizontal,
                height: self.height - doubled_vertical,
            }
        }
    }
}

/// `n` as a `u16`, or the largest `u16` where it does not fit.
pub fn to_u16(n: usize) -> (r: u16)
    ensures
        r == clip16(n as int),
{
    if n > 65535 {
        65535
    } else {
        n as u16
    }
}

/// Renders the user interface for the chat application.
#[derive(Debug)]
pub struct Renderer;

impl Renderer {
    /// Creates a new `Renderer` instance.
    #[must_use]
    pub fn new() -> (renderer: Self) {
        Renderer
    }

    /// Colour, prefix and way of wrapping for messages of `role`.
    fn role_look(role: &String) -> (look: (TextStyle, &'static str, bool))
        ensures
            look.0 == role_style(role@),
            look.1@ == role_prefix(role@),
            look.2 == wraps_plainly(role@),
    {
        proof {
            reveal_strlit("");
            reveal_strlit("user");
            reveal_strlit("assistant");
            reveal_strlit("system");
            assert("user"@.len() == 4);
            assert("assistant"@.len() == 9);
            assert("system"@.len() == 6);
        }
        if text_is(role, "user") {
            (TextStyle::colored(Color::Blue), "You: ", true)
        } else if text_is(role, "assistant") {
            (TextStyle::colored(Color::Green), "AI: ", false)
        } else if text_is(role, "system") {
            assert(""@ =~= Seq::<char>::empty());
            (TextStyle::colored(Color::Yellow), "", true)
        } else {
            assert(""@ =~= Seq::<char>::empty());
            (TextStyle::plain(), "", false)
        }
    }

    /// A string of `count` spaces.
    fn blank(count: usize) -> (s: String)
        ensures
            s@ == spaces(count as nat),
    {
        let mut s = String::new();
        let mut i: usize = 0;
        while i < count
            invariant
                i <= count,
                s@ == spaces(i as nat),
            decreases count - i,
        {
            s.push(' ');
            i += 1;
            assert(s@ =~= spaces(i as nat));
        }
        s
    }

    /// `content` rendered as markdown at `width` columns, each line
    /// without its styles.
    fn markdown_texts(content: &str, width: usize) -> (texts: Vec<String>)
        ensures
            strings_view(texts@) == lines_text(rendered(content@, width as nat)),
    {
        let lines = MarkdownRenderer::render_markdown(content, width);
        let mut texts: Vec<String> = Vec::new();
        let mut i: usize = 0;
        while i < lines.len()
            invariant
                i <= lines.len(),
                lines_view(lines@) == rendered(content@, width as nat),
                strings_view(texts@) == lines_text(lines_view(lines@)).take(i as int),
            decreases lines.len() - i,
        {
            let text = lines[i].text();
            let ghost earlier = texts@;
            texts.push(text);
            i += 1;
            assert(strings_view(texts@) =~= strings_view(earlier).push(text@));
            assert(lines_view(lines@)[i - 1] == lines@[i - 1]@);
            assert(lines_text(lines_view(lines@)).take(i as int) =~= lines_text(
                lines_view(lines@),
            ).take(i - 1).push(text@));
        }
        assert(lines_text(lines_view(lines@)).take(i as int) =~= lines_text(lines_view(lines@)));
        texts
    }

    /// The lines of one message in a list that is `width` columns wide:
    /// wrapped word by word for the roles "user" and "system", rendered as
    /// markdown otherwise; the first line behind the prefix of the role, the
    /// others indented as far. `glyph` is the spinner glyph to show before
    /// the content, if any.
    pub fn message_lines(role: &String, content: &String, glyph: Option<char>, width: usize) -> (lines:
        Vec<Line>)
        ensures
            lines_view(lines@) == message_item((role@, content@), glyph, width as nat),
    {
        let look = Self::role_look(role);
        let prefix = to_chars(look.1);
        let shown = match glyph {
            Some(g) => {
                let mut s = String::new();
                s.push(g);
                s.push(' ');
                s.push_str(content.as_str());
                assert(s@ =~= seq![g, ' '] + content@);
                s
            },
            None => content.clone(),
        };
        let room = width.saturating_sub(prefix.len());
        let texts = if look.2 {
            Self::wrap_text(shown.as_str(), room)
        } else {
            Self::markdown_texts(shown.as_str(), room)
        };
        let ghost goal = prefixed(strings_view(texts@), prefix@, look.0);
        let mut lines: Vec<Line> = Vec::new();
        let mut i: usize = 0;
        while i < texts.len()
            invariant
                i <= texts.len(),
                goal == prefixed(strings_view(texts@), prefix@, look.0),
                lines_view(lines@) == goal.take(i as int),
            decreases texts.len() - i,
        {
            let head = if i == 0 {
                let text = from_chars(&prefix, 0, prefix.len());
                assert(prefix@.subrange(0, prefix.len() as int) =~= prefix@);
                Span::styled(text, look.0)
            } else {
                Span::raw(Self::blank(prefix.len()))
            };
            let body = Span::raw(texts[i].clone());
            let mut spans: Vec<Span> = Vec::new();
            spans.push(head);
            spans.push(body);
            let line = Line { spans };
            assert(strings_view(texts@)[i as int] == texts@[i as int]@);
            assert(line@ =~= goal[i as int]);
            let ghost earlier = lines@;
            lines.push(line);
            i += 1;
            assert(lines_view(lines@) =~= lines_view(earlier).push(line@));
            assert(goal.take(i as int) =~= goal.take(i - 1).push(goal[i - 1]));
        }
        assert(goal.take(i as int) =~= goal);
        lines
    }

    /// The list items of all messages, for a list that is `width` columns
    /// wide. While a request is in flight, each system message is shown
    /// behind the next spinner glyph.
    pub fn message_list(ui_state: &mut State, width: usize) -> (items: Vec<Vec<Line>>)
        ensures
            items_view(items@) == message_items(
                old(ui_state)@.messages,
                old(ui_state)@.input_mode,
                old(ui_state)@.spinner,
                width as nat,
            ).0,
            final(ui_state)@ == (StateView {
                spinner: message_items(
                    old(ui_state)@.messages,
                    old(ui_state)@.input_mode,
                    old(ui_state)@.spinner,
                    width as nat,
                ).1,
                ..old(ui_state)@
            }),
    {
        let ghost start = ui_state@;
        let mut items: Vec<Vec<Line>> = Vec::new();
        let mut i: usize = 0;
        assert(items_view(items@) =~= Seq::empty());
        assert(start.messages.take(0) =~= Seq::empty());
        while i < ui_state.messages.len()
            invariant
                i <= ui_state.messages.len(),
                ui_state@ == (StateView { spinner: ui_state@.spinner, ..start }),
                (items_view(items@), ui_state@.spinner) == message_items(
                    start.messages.take(i as int),
                    start.input_mode,
                    start.spinner,
                    width as nat,
                ),
            decreases ui_state.messages.len() - i,
        {
            assert(start.messages.take(i as int + 1).drop_last() =~= start.messages.take(
                i as int,
            ));
            assert(start.messages.take(i as int + 1).last() == start.messages[i as int]);
            let role = ui_state.messages[i].0.clone();
            let content = ui_state.messages[i].1.clone();
            let waiting = ui_state.input_mode == InputMode::Waiting;
            let glyph = if waiting && text_is(&role, "system") {
                Some(ui_state.spinner.next_frame())
            } else {
                None
            };
            let item = Self::message_lines(&role, &content, glyph, width);
            let ghost earlier = items@;
            items.push(item);
            assert(items_view(items@) =~= items_view(earlier).push(lines_view(item@)));
            i += 1;
        }
        assert(start.messages.take(i as int) =~= start.messages);
        items
    }

    /// A span of `text` without colour or decoration.
    fn plain_part(text: &str) -> (span: Span)
        ensures
            span@ == raw_span(text@),
    {
        Span::raw(text.to_owned())
    }

    /// A span of `text` in bold type.
    fn bold_part(text: &str) -> (span: Span)
        ensures
            span@ == bold_span(text@),
    {
        Span::styled(text.to_owned(), TextStyle { fg: None, bold: true, italic: false })
    }

    /// The line of the help panel that explains `key`.
    fn help_entry(key: &str, meaning: &str) -> (line: Line)
        ensures
            line@ == seq![key_span(key@), raw_span(meaning@)],
    {
        let mut spans: Vec<Span> = Vec::new();
        spans.push(
            Span::styled(
                key.to_owned(),
                TextStyle { fg: Some(Color::Blue), bold: true, italic: false },
            ),
        );
        spans.push(Self::plain_part(meaning));
        let line = Line { spans };
        assert(line@ =~= seq![key_span(key@), raw_span(meaning@)]);
        line
    }

    /// A line that holds `text` and nothing else.
    fn plain_line(text: &str) -> (line: Line)
        ensures
            line@ == seq![raw_span(text@)],
    {
        let mut spans: Vec<Span> = Vec::new();
        spans.push(Self::plain_part(text));
        let line = Line { spans };
        assert(line@ =~= seq![raw_span(text@)]);
        line
    }

    /// The key hints for `mode`: how to quit, edit and get help in normal
    /// mode, how to stop editing and send in editing mode, how to cancel
    /// while waiting.
    pub fn hint(mode: InputMode) -> (line: Line)
        ensures
            line@ == hint_spans(mode),
    {
        let mut spans: Vec<Span> = Vec::new();
        spans.push(Self::plain_part("Press "));
        match mode {
            InputMode::Normal => {
                spans.push(Self::bold_part("q"));
                spans.push(Self::plain_part(" to exit, "));
                spans.push(Self::bold_part("e"));
                spans.push(Self::plain_part(" to start editing, "));
                spans.push(Self::bold_part("?"));
                spans.push(Self::plain_part(" to show help menu"));
            },
            InputMode::Editing => {
                spans.push(Self::bold_part("Esc"));
                spans.push(Self::plain_part(" to stop editing, "));
                spans.push(Self::bold_part("Enter"));
                spans.push(Self::plain_part(" to send the message"));
            },
            InputMode::Waiting => {
                spans.push(Self::bold_part("Esc"));
                spans.push(Self::plain_part(" to cancel request"));
            },
        }
        let line = Line { spans };
        assert(line@ =~= hint_spans(mode));
        line
    }

    /// The help panel for a screen of the size `area`.
    pub fn render_help(area: Rect) -> (panel: HelpPanel)
        ensures
            panel.area == help_rect(area),
            lines_view(panel.lines@) == help_lines(),
    {
        let mut lines: Vec<Line> = Vec::new();
        lines.push(Self::plain_line("Shortcut Information"));
        lines.push(Self::plain_line(""));
        lines.push(Self::help_entry("?", " to toggle/untoggle this help menu"));
        lines.push(Self::help_entry("q", " to quit the application"));
        lines.push(Self::help_entry("Esc", " to exit from Editing Mode"));
        lines.push(Self::help_entry("Left/Right key", " to scrolling horizontally"));
        lines.push(Self::help_entry("Up/Down key", " to scrolling vertically"));
        assert(lines_view(lines@) =~= help_lines());
        HelpPanel {
            area: Rect {
                x: area.width / 4,
                y: area.height / 5,
                width: area.width / 2,
                height: area.height / 2,
            },
            lines,
        }
    }

    /// Lays out one frame for a screen of the size `area` and notes in the
    /// state what the layout fixed: the sizes that the scrollbars show and
    /// the width of the input box. The frame is the one that `render_within`
    /// lays out in the areas that the frame itself names for the message
    /// list and the input box; both take the columns inside the margin.
    pub fn render(&self, area: Rect, ui_state: &mut State) -> (screen: Screen)
        ensures
            screen@ == screen_within(
                old(ui_state)@,
                area,
                screen.messages_area,
                screen.input_area,
            ),
            final(ui_state)@ == state_within(
                old(ui_state)@,
                screen.messages_area,
                screen.input_area,
            ),
            screen.messages_area.x == inner_rect(area, 1, 1).x,
            screen.messages_area.width == inner_rect(area, 1, 1).width,
            screen.input_area.x == inner_rect(area, 1, 1).x,
            screen.input_area.width == inner_rect(area, 1, 1).width,
    {
        let (messages_area, input_area) = split_screen(area);
        self.render_within(area, messages_area, input_area, ui_state)
    }

    /// Whether `messages_area` and `input_area` cut a screen of the size
    /// `area` as it is meant to be cut: inside a margin of one cell, the
    /// input box in the last three rows and the message list above it.
    pub fn is_regular_split(area: Rect, messages_area: Rect, input_area: Rect) -> (regular: bool)
        ensures
            regular == regular_split(area, messages_area, input_area),
    {
        let inner = area.inner(1, 1);
        let rows: u16 = if inner.height < 3 {
            inner.height
        } else {
            3
        };
        let list = Rect {
            x: inner.x,
            y: inner.y,
            width: inner.width,
            height: inner.height - rows,
        };
        let bottom = (inner.y as usize + inner.height as usize) - rows as usize;
        let input = Rect { x: inner.x, y: to_u16(bottom), width: inner.width, height: rows };
        messages_area == list && input_area == input
    }

    /// Lays out one frame for a screen of the size `area` whose message
    /// list stands in `messages_area` and whose input box stands in
    /// `input_area`, and notes in the state what the layout fixed.
    pub fn render_within(
        &self,
        area: Rect,
        messages_area: Rect,
        input_area: Rect,
        ui_state: &mut State,
    ) -> (screen: Screen)
        ensures
            screen@ == screen_within(old(ui_state)@, area, messages_area, input_area),
            final(ui_state)@ == state_within(old(ui_state)@, messages_area, input_area),
    {
        let inner = messages_area.inner(1, 1);
        let items = Self::message_list(ui_state, inner.width as usize);

        ui_state.vertical_scroll_state = ui_state.vertical_scroll_state.content_length(
            ui_state.messages.len(),
        ).viewport_content_length(messages_area.height as usize);

        ui_state.input_width = input_area.width.saturating_sub(2);
        let length = ui_state.input.as_str().len();
        let overflows = length > ui_state.input_width as usize;
        if overflows {
            ui_state.horizontal_scroll_state = ui_state.horizontal_scroll_state.content_length(
                length,
            ).viewport_content_length(ui_state.input_width as usize).position(
                ui_state.horizontal_scroll,
            );
        }
        let cursor = if ui_state.input_mode == InputMode::Editing {
            let column = (input_area.x as usize).saturating_add(length).saturating_add(1);
            Some((to_u16(column), input_area.y.saturating_add(1)))
        } else {
            None
        };
        let style = match ui_state.input_mode {
            InputMode::Normal => TextStyle::plain(),
            InputMode::Editing => TextStyle::colored(Color::Yellow),
            InputMode::Waiting => TextStyle::colored(Color::DarkGray),
        };
        let help = if ui_state.show_toggle {
            Some(Self::render_help(area))
        } else {
            None
        };
        Screen {
            messages_area,
            items,
            vertical_scrollbar_area: messages_area.inner(0, 1),
            input_area,
            input_style: style,
            input_scroll: to_u16(ui_state.horizontal_scroll),
            horizontal_scrollbar_area: if overflows {
                Some(input_area.inner(1, 0))
            } else {
                None
            },
            cursor,
            hint: Self::hint(ui_state.input_mode),
            help,
        }
    }

    /// Wraps `glyphs[from..to]`, one line of text, and appends the lines to
    /// `out`.
    fn wrap_one_line(
        glyphs: &Vec<Glyph>,
        from: usize,
        to: usize,
        max_width: usize,
        out: &mut Vec<String>,
    )
        requires
            from <= to <= glyphs.len(),
        ensures
            strings_view(final(out)@) == strings_view(old(out)@) + wrap_line(
                glyphs@.subrange(from as int, to as int),
                max_width as nat,
            ),
    {
        let ghost line = glyphs@.subrange(from as int, to as int);
        let ghost before = strings_view(out@);
        let ghost mut found: Seq<Seq<char>> = Seq::empty();
        let ghost mut done: Seq<Seq<char>> = Seq::empty();
        let mut open: Vec<char> = Vec::new();
        let mut pos: usize = from;
        let mut any = false;
        assert(before + done =~= before);
        assert(found + word_texts(line) =~= word_texts(line));
        loop
            invariant
                from <= pos <= to <= glyphs.len(),
                line == glyphs@.subrange(from as int, to as int),
                word_texts(line) == found + word_texts(glyphs@.subrange(pos as int, to as int)),
                wrap_words(found, max_width as nat) == (done, open@),
                any == (found.len() > 0),
                any ==> open@.len() > 0,
                strings_view(out@) == before + done,
            ensures
                word_texts(line) == found,
                wrap_words(found, max_width as nat) == (done, open@),
                any == (found.len() > 0),
                strings_view(out@) == before + done,
            decreases to - pos,
        {
            let ghost rest = glyphs@.subrange(pos as int, to as int);
            let start = run_end(glyphs, pos, to, true);
            let end = run_end(glyphs, start, to, false);
            proof {
                assert(rest.skip(start - pos) =~= glyphs@.subrange(start as int, to as int));
                assert(rest.skip(start - pos).take(end - start) =~= glyphs@.subrange(
                    start as int,
                    end as int,
                ));
                assert(rest.skip(start - pos).skip(end - start) =~= glyphs@.subrange(
                    end as int,
                    to as int,
                ));
            }
            if end == start {
                assert(words(rest) =~= Seq::empty());
                assert(word_texts(rest) =~= Seq::empty());
                assert(found + word_texts(rest) =~= found);
                break ;
            }
            let ghost word = glyphs@.subrange(start as int, end as int);
            proof {
                let after = glyphs@.subrange(end as int, to as int);
                assert(words(rest) =~= seq![word] + words(after));
                assert(word_texts(rest) =~= seq![chars_of(word)] + word_texts(after));
                assert(found + word_texts(rest) =~= found.push(chars_of(word)) + word_texts(
                    after,
                ));
                assert(found.push(chars_of(word)).drop_last() =~= found);
            }
            let length = end - start;
            if open.len() > 0 && (open.len() >= max_width || length >= max_width - open.len()) {
                let ghost finished = open@;
                let text = from_chars(&open, 0, open.len());
                assert(open@.subrange(0, open.len() as int) =~= open@);
                let ghost earlier = out@;
                out.push(text);
                open = Vec::new();
                proof {
                    assert(strings_view(out@) =~= strings_view(earlier).push(finished));
                    assert(strings_view(out@) =~= before + done.push(finished));
                    done = done.push(finished);
                }
            } else if open.len() > 0 {
                open.push(' ');
            }
            let ghost head = open@;
            let mut i: usize = start;
            assert(head + chars_of(glyphs@.subrange(start as int, start as int)) =~= head);
            while i < end
                invariant
                    start <= i <= end <= glyphs.len(),
                    open@ == head + chars_of(glyphs@.subrange(start as int, i as int)),
                decreases end - i,
            {
                open.push(glyphs[i].ch);
                i += 1;
                assert(open@ =~= head + chars_of(glyphs@.subrange(start as int, i as int)));
            }
            proof {
                found = found.push(chars_of(word));
                assert(head + chars_of(word) =~= open@);
                if head.len() == 0 {
                    assert(open@ =~= chars_of(word));
                }
            }
            any = true;
            pos = end;
        }
        if !any {
            out.push(String::new());
            assert(strings_view(out@) =~= before + seq![Seq::<char>::empty()]);
        } else {
            let ghost finished = open@;
            let text = from_chars(&open, 0, open.len());
            assert(open@.subrange(0, open.len() as int) =~= open@);
            let ghost earlier = out@;
            out.push(text);
            assert(strings_view(out@) =~= strings_view(earlier).push(finished));
            assert(strings_view(out@) =~= before + done.push(finished));
        }
    }

    /// Wraps measured text word by word into lines of at most `max_width`
    /// characters; a word longer than that stands alone on its line. Lines
    /// of the text stay apart, and a line without a word gives an empty
    /// line.
    pub fn wrap_glyphs(glyphs: &Vec<Glyph>, max_width: usize) -> (lines: Vec<String>)
        ensures
            strings_view(lines@) == wrapped_glyphs(glyphs@, max_width as nat),
    {
        let chars = glyph_chars(glyphs);
        let mut lines: Vec<String> = Vec::new();
        let ghost mut seen: Seq<Seq<Glyph>> = Seq::empty();
        let mut start: usize = 0;
        assert(glyphs@.skip(0) =~= glyphs@);
        assert(strings_view(lines@) =~= Seq::empty());
        assert(seen + text_lines(glyphs@) =~= text_lines(glyphs@));
        while start < chars.len()
            invariant
                start <= chars.len(),
                chars@ == chars_of(glyphs@),
                chars.len() == glyphs.len(),
                text_lines(glyphs@) == seen + text_lines(glyphs@.skip(start as int)),
                strings_view(lines@) == wrap_lines(seen, max_width as nat),
            decreases chars.len() - start,
        {
            let ghost rest = glyphs@.skip(start as int);
            let next = line_end(&chars, start);
            let stop = strip_ending_index(&chars, start, next);
            let ghost line = glyphs@.subrange(start as int, stop as int);
            proof {
                assert(chars_of(rest) =~= chars@.skip(start as int));
                assert(chars_of(rest).take(next - start) =~= chars@.subrange(
                    start as int,
                    next as int,
                ));
                assert(rest.take(stop - start) =~= line);
                assert(rest.skip(next - start) =~= glyphs@.skip(next as int));
                assert(text_lines(rest) =~= seq![line] + text_lines(glyphs@.skip(next as int)));
                assert(seen + text_lines(rest) =~= seen.push(line) + text_lines(
                    glyphs@.skip(next as int),
                ));
                assert(seen.push(line).drop_last() =~= seen);
            }
            Self::wrap_one_line(glyphs, start, stop, max_width, &mut lines);
            proof {
                seen = seen.push(line);
            }
            start = next;
        }
        assert(text_lines(glyphs@.skip(start as int)) =~= Seq::empty());
        assert(seen + Seq::<Seq<Glyph>>::empty() =~= seen);
        lines
    }

    /// Wraps `text` word by word into lines of at most `max_width`
    /// characters; a word longer than that stands alone on its line.
    pub fn wrap_text(text: &str, max_width: usize) -> (lines: Vec<String>)
        ensures
            strings_view(lines@) == wrapped_text(text@, max_width as nat),
            text_plainly_measured(text@),
    {
        let glyphs = measure(text);
        Self::wrap_glyphs(&glyphs, max_width)
    }
}

impl Default for Renderer {
    fn default() -> (renderer: Self) {
        Renderer
    }
}

} // verus!
