use chatti::text::Glyph;
use chatti::ui::renderer::{to_u16, Rect, Renderer};
use chatti::ui::state::{InputMode, State};
use chatti::ui::style::{Color, Line, TextStyle};

fn screen() -> Rect {
    Rect { x: 0, y: 0, width: 80, height: 24 }
}

fn parts(line: &Line) -> Vec<String> {
    line.spans.iter().map(|span| span.content.clone()).collect()
}

#[test]
fn words_are_wrapped_at_the_width() {
    assert_eq!(
        Renderer::wrap_text("hello world foo", 11),
        vec!["hello world".to_string(), "foo".to_string()]
    );
    assert_eq!(
        Renderer::wrap_text("hello world foo", 10),
        vec!["hello".to_string(), "world foo".to_string()]
    );
    assert_eq!(
        Renderer::wrap_text("a   b\t c", 80),
        vec!["a b c".to_string()]
    );
}

#[test]
fn long_words_are_not_broken() {
    assert_eq!(
        Renderer::wrap_text("a extraordinarily b", 5),
        vec!["a".to_string(), "extraordinarily".to_string(), "b".to_string()]
    );
    assert_eq!(
        Renderer::wrap_text("one two", 0),
        vec!["one".to_string(), "two".to_string()]
    );
}

#[test]
fn lines_of_the_text_stay_apart() {
    assert_eq!(
        Renderer::wrap_text("a\n\nb c\r\n  \nd\n", 80),
        vec![
            "a".to_string(),
            String::new(),
            "b c".to_string(),
            String::new(),
            "d".to_string()
        ]
    );
    assert!(Renderer::wrap_text("", 80).is_empty());
    assert_eq!(Renderer::wrap_text("\n", 80), vec![String::new()]);
}

#[test]
fn characters_are_counted_not_bytes() {
    assert_eq!(
        Renderer::wrap_text("héé héé", 7),
        vec!["héé héé".to_string()]
    );
    assert_eq!(
        Renderer::wrap_text("héé héé", 6),
        vec!["héé".to_string(), "héé".to_string()]
    );
}

#[test]
fn inner_rectangles() {
    let area = Rect { x: 1, y: 1, width: 78, height: 19 };
    assert_eq!(area.inner(1, 1), Rect { x: 2, y: 2, width: 76, height: 17 });
    assert_eq!(area.inner(0, 1), Rect { x: 1, y: 2, width: 78, height: 17 });
    assert_eq!(area.inner(39, 0), Rect { x: 40, y: 1, width: 0, height: 19 });
    assert_eq!(area.inner(40, 0), Rect { x: 0, y: 0, width: 0, height: 0 });
    assert_eq!(area.inner(0, 10), Rect { x: 0, y: 0, width: 0, height: 0 });
    let far = Rect { x: 65535, y: 65534, width: 4, height: 4 };
    assert_eq!(far.inner(1, 1), Rect { x: 65535, y: 65535, width: 2, height: 2 });
    assert_eq!(far.inner(40000, 0), Rect { x: 0, y: 0, width: 0, height: 0 });
}

#[test]
fn numbers_are_clipped_to_sixteen_bits() {
    assert_eq!(to_u16(0), 0);
    assert_eq!(to_u16(65535), 65535);
    assert_eq!(to_u16(65536), 65535);
    assert_eq!(to_u16(usize::MAX), 65535);
}

#[test]
fn a_frame_in_normal_mode() {
    let renderer = Renderer::new();
    let mut state = State::new();
    state.messages.push(("user".to_string(), "hello world".to_string()));
    state.messages.push(("assistant".to_string(), "**hi** there".to_string()));
    state.messages.push(("system".to_string(), "note".to_string()));
    state.messages.push(("tool".to_string(), "other".to_string()));

    let frame = renderer.render(screen(), &mut state);

    assert_eq!(frame.messages_area, Rect { x: 1, y: 1, width: 78, height: 19 });
    assert_eq!(frame.input_area, Rect { x: 1, y: 20, width: 78, height: 3 });
    assert_eq!(frame.vertical_scrollbar_area, Rect { x: 1, y: 2, width: 78, height: 17 });
    assert_eq!(frame.items.len(), 4);
    assert_eq!(frame.items[0].len(), 1);
    assert_eq!(parts(&frame.items[0][0]), vec!["You: ", "hello world"]);
    assert_eq!(frame.items[0][0].spans[0].style.fg, Some(Color::Blue));
    assert_eq!(frame.items[0][0].spans[1].style, TextStyle { fg: None, bold: false, italic: false });
    assert_eq!(parts(&frame.items[1][0]), vec!["AI: ", "hi  there"]);
    assert_eq!(frame.items[1][0].spans[0].style.fg, Some(Color::Green));
    assert_eq!(parts(&frame.items[2][0]), vec!["", "note"]);
    assert_eq!(frame.items[2][0].spans[0].style.fg, Some(Color::Yellow));
    assert_eq!(parts(&frame.items[3][0]), vec!["", "other"]);
    assert_eq!(frame.items[3][0].spans[0].style.fg, None);

    assert_eq!(frame.input_style, TextStyle { fg: None, bold: false, italic: false });
    assert_eq!(frame.input_scroll, 0);
    assert_eq!(frame.horizontal_scrollbar_area, None);
    assert_eq!(frame.cursor, None);
    assert!(frame.help.is_none());
    assert_eq!(
        frame.hint.text(),
        "Press q to exit, e to start editing, ? to show help menu"
    );
    assert!(frame.hint.spans[1].style.bold);
    assert!(!frame.hint.spans[0].style.bold);

    assert_eq!(state.input_width, 76);
    assert_eq!(state.vertical_scroll_state.content_length, 4);
    assert_eq!(state.vertical_scroll_state.viewport_content_length, 19);
}

#[test]
fn long_messages_continue_under_their_prefix() {
    let renderer = Renderer::new();
    let mut state = State::new();
    state.messages.push(("user".to_string(), "aaaa bbbb cccc".to_string()));
    state.messages.push(("assistant".to_string(), "ddddeeeeffff".to_string()));
    let frame = renderer.render(Rect { x: 0, y: 0, width: 18, height: 24 }, &mut state);
    // The list is 14 columns wide inside its border; "You: " leaves 9, "AI: " leaves 10.
    assert_eq!(frame.items[0].len(), 2);
    assert_eq!(parts(&frame.items[0][0]), vec!["You: ", "aaaa bbbb"]);
    assert_eq!(parts(&frame.items[0][1]), vec!["     ", "cccc"]);
    assert_eq!(frame.items[0][1].spans[0].style.fg, None);
    assert_eq!(frame.items[1].len(), 2);
    assert_eq!(parts(&frame.items[1][0]), vec!["AI: ", "ddddeeeeff"]);
    assert_eq!(parts(&frame.items[1][1]), vec!["    ", "ff"]);
}

#[test]
fn system_messages_spin_while_waiting() {
    let renderer = Renderer::new();
    let mut state = State::new();
    state.messages.push(("user".to_string(), "hi".to_string()));
    state.messages.push(("system".to_string(), "Generating...".to_string()));
    state.messages.push(("system".to_string(), "second".to_string()));
    state.input_mode = InputMode::Waiting;

    let first = renderer.render(screen(), &mut state);
    assert_eq!(parts(&first.items[1][0]), vec!["", "⠋ Generating..."]);
    assert_eq!(parts(&first.items[2][0]), vec!["", "⠙ second"]);
    assert_eq!(parts(&first.items[0][0]), vec!["You: ", "hi"]);
    let second = renderer.render(screen(), &mut state);
    assert_eq!(parts(&second.items[1][0]), vec!["", "⠹ Generating..."]);
    assert_eq!(
        first.input_style,
        TextStyle { fg: Some(Color::DarkGray), bold: false, italic: false }
    );
    assert_eq!(first.hint.text(), "Press Esc to cancel request");

    state.input_mode = InputMode::Normal;
    let third = renderer.render(screen(), &mut state);
    assert_eq!(parts(&third.items[1][0]), vec!["", "Generating..."]);
}

#[test]
fn editing_shows_cursor_and_scrollbar() {
    let renderer = Renderer::new();
    let mut state = State::new();
    state.input_mode = InputMode::Editing;
    state.input = "hello".to_string();
    let frame = renderer.render(screen(), &mut state);
    assert_eq!(frame.cursor, Some((7, 21)));
    assert_eq!(frame.horizontal_scrollbar_area, None);
    assert_eq!(
        frame.input_style,
        TextStyle { fg: Some(Color::Yellow), bold: false, italic: false }
    );
    assert_eq!(
        frame.hint.text(),
        "Press Esc to stop editing, Enter to send the message"
    );

    state.input = "x".repeat(76);
    let fits = renderer.render(screen(), &mut state);
    assert_eq!(fits.horizontal_scrollbar_area, None);
    let untouched = state.horizontal_scroll_state;

    state.input = "x".repeat(77);
    state.horizontal_scroll = 1;
    let overflows = renderer.render(screen(), &mut state);
    assert_eq!(
        overflows.horizontal_scrollbar_area,
        Some(Rect { x: 2, y: 20, width: 76, height: 3 })
    );
    assert_eq!(overflows.input_scroll, 1);
    assert_eq!(overflows.cursor, Some((79, 21)));
    assert_ne!(state.horizontal_scroll_state, untouched);
    assert_eq!(state.horizontal_scroll_state.content_length, 77);
    assert_eq!(state.horizontal_scroll_state.viewport_content_length, 76);
    assert_eq!(state.horizontal_scroll_state.position, 1);
}

#[test]
fn help_panel_is_centred() {
    let renderer = Renderer::new();
    let mut state = State::new();
    state.show_toggle = true;
    let frame = renderer.render(screen(), &mut state);
    let help = frame.help.unwrap();
    assert_eq!(help.area, Rect { x: 20, y: 4, width: 40, height: 12 });
    let lines: Vec<String> = help.lines.iter().map(|line| line.text()).collect();
    assert_eq!(
        lines,
        vec![
            "Shortcut Information",
            "",
            "? to toggle/untoggle this help menu",
            "q to quit the application",
            "Esc to exit from Editing Mode",
            "Left/Right key to scrolling horizontally",
            "Up/Down key to scrolling vertically",
        ]
    );
    assert_eq!(
        help.lines[2].spans[0].style,
        TextStyle { fg: Some(Color::Blue), bold: true, italic: false }
    );
}

#[test]
fn a_screen_without_room_is_laid_out_all_the_same() {
    let renderer = Renderer::new();
    let mut state = State::new();
    state.messages.push(("user".to_string(), "hello world".to_string()));
    state.messages.push(("assistant".to_string(), "hello world".to_string()));
    state.input_mode = InputMode::Editing;
    state.show_toggle = true;
    for (width, height) in [(0u16, 0u16), (1, 1), (3, 2), (6, 4)] {
        let frame = renderer.render(Rect { x: 0, y: 0, width, height }, &mut state);
        assert_eq!(frame.items.len(), 2);
        assert_eq!(frame.items[0][0].spans[0].content, "You: ");
        assert!(frame.cursor.is_some());
    }
    assert_eq!(state.input_width, 2);
}

#[test]
fn message_lines_of_each_role() {
    let user = Renderer::message_lines(&"user".to_string(), &"**x**".to_string(), None, 40);
    assert_eq!(parts(&user[0]), vec!["You: ", "**x**"]);
    let assistant =
        Renderer::message_lines(&"assistant".to_string(), &"**x**".to_string(), None, 40);
    assert_eq!(parts(&assistant[0]), vec!["AI: ", "x"]);
    let spun =
        Renderer::message_lines(&"system".to_string(), &"wait".to_string(), Some('⠋'), 40);
    assert_eq!(parts(&spun[0]), vec!["", "⠋ wait"]);
    let empty = Renderer::message_lines(&"user".to_string(), &String::new(), None, 40);
    assert!(empty.is_empty());
}

#[test]
fn measured_text_is_wrapped_by_its_measures() {
    // The kind of each glyph is what the caller says it is.
    let glyphs = vec![
        Glyph { ch: 'a', columns: 1, white: false },
        Glyph { ch: '_', columns: 1, white: true },
        Glyph { ch: 'b', columns: 1, white: false },
        Glyph { ch: ' ', columns: 1, white: false },
        Glyph { ch: 'c', columns: 9, white: false },
    ];
    assert_eq!(
        Renderer::wrap_glyphs(&glyphs, 80),
        vec!["a b c".to_string()]
    );
    assert_eq!(
        Renderer::wrap_glyphs(&glyphs, 4),
        vec!["a".to_string(), "b c".to_string()]
    );
    assert!(Renderer::wrap_glyphs(&Vec::new(), 4).is_empty());
}

#[test]
fn a_frame_within_given_areas() {
    let renderer = Renderer::new();
    let mut state = State::new();
    state.messages.push(("user".to_string(), "aaaa bbbb".to_string()));
    state.input_mode = InputMode::Editing;
    state.input = "hello".to_string();
    let frame = renderer.render_within(
        Rect { x: 0, y: 0, width: 40, height: 20 },
        Rect { x: 3, y: 4, width: 11, height: 9 },
        Rect { x: 5, y: 15, width: 6, height: 3 },
        &mut state,
    );
    assert_eq!(frame.messages_area, Rect { x: 3, y: 4, width: 11, height: 9 });
    assert_eq!(frame.input_area, Rect { x: 5, y: 15, width: 6, height: 3 });
    assert_eq!(frame.vertical_scrollbar_area, Rect { x: 3, y: 5, width: 11, height: 7 });
    // Nine columns inside the border, four of them behind "You: ".
    assert_eq!(frame.items[0].len(), 2);
    assert_eq!(parts(&frame.items[0][0]), vec!["You: ", "aaaa"]);
    assert_eq!(parts(&frame.items[0][1]), vec!["     ", "bbbb"]);
    assert_eq!(state.input_width, 4);
    assert_eq!(frame.horizontal_scrollbar_area, Some(Rect { x: 6, y: 15, width: 4, height: 3 }));
    assert_eq!(frame.cursor, Some((11, 16)));
    assert_eq!(state.vertical_scroll_state.viewport_content_length, 9);
    assert_eq!(state.horizontal_scroll_state.content_length, 5);
    assert!(frame.help.is_none());
}

#[test]
fn wrapped_lines_keep_to_the_width_unless_a_word_is_longer() {
    let text = "The quick brown fox jumps over the extraordinarily lazy dog\nand rests";
    for width in [0usize, 1, 5, 9, 15, 16, 40] {
        for line in Renderer::wrap_text(text, width) {
            let length = line.chars().count();
            assert!(length <= width || !line.contains(' '));
        }
    }
}

#[test]
fn screens_are_cut_into_list_and_input_box() {
    let renderer = Renderer::new();
    let mut state = State::new();
    let mut irregular = Vec::new();
    for height in 0..40u16 {
        for width in [0u16, 1, 2, 3, 10, 80] {
            for (x, y) in [(0u16, 0u16), (3, 7)] {
                let area = Rect { x, y, width, height };
                let frame = renderer.render(area, &mut state);
                let inner = area.inner(1, 1);
                assert_eq!(frame.messages_area.x, inner.x);
                assert_eq!(frame.messages_area.width, inner.width);
                assert_eq!(frame.input_area.x, inner.x);
                assert_eq!(frame.input_area.width, inner.width);
                if !Renderer::is_regular_split(area, frame.messages_area, frame.input_area) {
                    irregular.push((area, frame.messages_area, frame.input_area));
                }
            }
        }
    }
    assert!(irregular.is_empty(), "{:?}", irregular);
}

#[test]
fn regular_splits_are_told_apart() {
    let area = Rect { x: 0, y: 0, width: 80, height: 24 };
    let list = Rect { x: 1, y: 1, width: 78, height: 19 };
    let input = Rect { x: 1, y: 20, width: 78, height: 3 };
    assert!(Renderer::is_regular_split(area, list, input));
    assert!(!Renderer::is_regular_split(area, input, list));
    assert!(!Renderer::is_regular_split(area, list, Rect { height: 2, ..input }));
    assert!(!Renderer::is_regular_split(area, Rect { height: 20, ..list }, input));
    let low = Rect { x: 2, y: 5, width: 10, height: 4 };
    assert!(Renderer::is_regular_split(
        low,
        Rect { x: 3, y: 6, width: 8, height: 0 },
        Rect { x: 3, y: 6, width: 8, height: 2 }
    ));
    let none = Rect { x: 9, y: 9, width: 1, height: 1 };
    let zero = Rect { x: 0, y: 0, width: 0, height: 0 };
    assert!(Renderer::is_regular_split(none, zero, zero));
    let far = Rect { x: 0, y: 65535, width: 4, height: 9 };
    assert!(Renderer::is_regular_split(
        far,
        Rect { x: 1, y: 65535, width: 2, height: 4 },
        Rect { x: 1, y: 65535, width: 2, height: 3 }
    ));
}
