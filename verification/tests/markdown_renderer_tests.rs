use chatti::text::{char_columns, Glyph};
use chatti::ui::layout::Layout;
use chatti::ui::markdown_renderer::{MarkdownRenderer, MdEvent, Node};
use chatti::ui::style::{Color, Line, TextStyle};

fn texts(lines: &[Line]) -> Vec<String> {
    lines.iter().map(|line| line.text()).collect()
}

#[test]
fn test_markdown_renderer() {
    let markdown = "# Hello\n\nThis is **bold** and *italic* text.";
    let rendered = MarkdownRenderer::render_markdown(markdown, 80);

    assert!(!rendered.is_empty());

    // Check if the first span of the first line contains "Hello"
    assert_eq!(rendered[0].spans[0].content, "Hello");

    // Check if the rendered content includes bold and italic text
    let full_content: String = rendered[0]
        .spans
        .iter()
        .map(|span| span.content.clone())
        .collect();
    assert!(full_content.contains("bold"));
    assert!(full_content.contains("italic"));

    // Check for styling
    assert!(rendered[0].spans.iter().any(|span| span.style.bold));
    assert!(rendered[0].spans.iter().any(|span| span.style.italic));
}

#[test]
fn empty_input_renders_nothing() {
    assert!(MarkdownRenderer::render_markdown("", 80).is_empty());
    assert!(MarkdownRenderer::render_events(&Vec::new(), 80).is_empty());
}

#[test]
fn nested_emphasis_keeps_both_decorations() {
    let rendered = MarkdownRenderer::render_markdown("**bold *both***", 80);
    let spans: Vec<_> = rendered.iter().flat_map(|line| line.spans.iter()).collect();
    assert!(spans.iter().any(|s| s.content == "bold" && s.style.bold && !s.style.italic));
    assert!(spans.iter().any(|s| s.content == "both" && s.style.bold && s.style.italic));
}

#[test]
fn fenced_rust_code_keeps_its_two_lines() {
    let markdown = "```rust\nfn main() {\n    let x = 1;\n```";
    for width in [1usize, 5, 80] {
        let rendered = MarkdownRenderer::render_markdown(markdown, width);
        assert_eq!(texts(&rendered), vec!["fn main() {\n", "    let x = 1;\n"]);
        for line in &rendered {
            assert!(line.spans.len() > 1);
            for span in &line.spans {
                assert!(matches!(span.style.fg, Some(Color::Rgb(_, _, _))));
            }
        }
        let colours: Vec<_> = rendered[0].spans.iter().map(|span| span.style.fg).collect();
        assert!(colours.iter().any(|colour| *colour != colours[0]));
    }
}

#[test]
fn code_with_a_known_extension_is_split_into_tokens() {
    let rendered = MarkdownRenderer::highlight_code("fn main() {}\n", "rs");
    assert_eq!(texts(&rendered), vec!["fn main() {}\n"]);
    assert!(rendered[0].spans.len() > 1);
    let named = MarkdownRenderer::highlight_code("fn main() {}\n", "Rust");
    assert_eq!(named[0].spans.len(), rendered[0].spans.len());
    for lang in ["", "nosuchlanguage", "Plain Text"] {
        let plain = MarkdownRenderer::highlight_code("fn main() {}\n", lang);
        assert_eq!(texts(&plain), vec!["fn main() {}\n"]);
        assert_eq!(plain[0].spans.len(), 1);
    }
    let by_extension = MarkdownRenderer::highlight_code("x = 1\n", "py");
    let by_name = MarkdownRenderer::highlight_code("x = 1\n", "python");
    assert!(by_extension[0].spans.len() > 1);
    assert_eq!(by_extension[0].spans.len(), by_name[0].spans.len());
}

#[test]
fn code_fence_without_language_passes_through() {
    let rendered = MarkdownRenderer::render_markdown("```\nplain text here\n```", 4);
    assert_eq!(texts(&rendered), vec!["plain text here\n"]);
}

#[test]
fn plain_lines_keep_their_endings() {
    let lines = MarkdownRenderer::plain_lines("a\n\nbc");
    assert_eq!(texts(&lines), vec!["a\n", "\n", "bc"]);
    assert_eq!(lines[0].spans[0].style, TextStyle { fg: None, bold: false, italic: false });
    assert!(MarkdownRenderer::plain_lines("").is_empty());
    let fallback = MarkdownRenderer::code_block_lines(None, "x\ny\n");
    assert_eq!(texts(&fallback), vec!["x\n", "y\n"]);
}

#[test]
fn tokens_are_taken_only_where_they_spell_out_the_code() {
    let coloured = MarkdownRenderer::highlight_code("let x = 1;\nx\n", "rs");
    assert_eq!(texts(&coloured), vec!["let x = 1;\n", "x\n"]);
    let spans = coloured[0].spans.len();
    assert!(spans > 1);

    let kept = MarkdownRenderer::code_block_lines(Some(coloured), "let x = 1;\nx\n");
    assert_eq!(texts(&kept), vec!["let x = 1;\n", "x\n"]);
    assert_eq!(kept[0].spans.len(), spans);

    let other = MarkdownRenderer::highlight_code("let x = 1;\nx\n", "rs");
    let replaced = MarkdownRenderer::code_block_lines(Some(other), "let y = 2;\n");
    assert_eq!(texts(&replaced), vec!["let y = 2;\n"]);
    assert_eq!(replaced[0].spans.len(), 1);
    assert_eq!(replaced[0].spans[0].style.fg, None);
}

#[test]
fn text_is_split_at_the_width() {
    let rendered = MarkdownRenderer::render_markdown("abcdefghij", 4);
    assert_eq!(texts(&rendered), vec!["abcd", "efgh", "ij"]);
}

#[test]
fn text_that_fills_the_width_does_not_overflow() {
    let rendered = MarkdownRenderer::render_markdown("This is **bold**", 8);
    assert_eq!(texts(&rendered), vec!["This is", "bold"]);
    let exact = MarkdownRenderer::render_markdown("abcd", 4);
    assert_eq!(texts(&exact), vec!["abcd"]);
}

#[test]
fn wide_characters_count_two_columns() {
    let rendered = MarkdownRenderer::render_markdown("日本語テキスト", 6);
    assert_eq!(texts(&rendered), vec!["日本語", "テキス", "ト"]);
    let (head, tail) = MarkdownRenderer::split_at_width("日本語", 5);
    assert_eq!(head, "日本");
    assert_eq!(tail, "語");
}

#[test]
fn a_character_wider_than_the_line_is_placed_alone() {
    let rendered = MarkdownRenderer::render_markdown("日本", 1);
    assert_eq!(texts(&rendered), vec!["日", "本"]);
    let nothing = MarkdownRenderer::render_markdown("ab", 0);
    assert_eq!(texts(&nothing), vec!["a", "b"]);
}

#[test]
fn split_at_width_takes_what_fits() {
    assert_eq!(
        MarkdownRenderer::split_at_width("hello world", 5),
        ("hello".to_string(), " world".to_string())
    );
    assert_eq!(
        MarkdownRenderer::split_at_width("hi", 5),
        ("hi".to_string(), String::new())
    );
    assert_eq!(
        MarkdownRenderer::split_at_width("hi", 0),
        (String::new(), "hi".to_string())
    );
    assert_eq!(
        MarkdownRenderer::split_at_width("", 3),
        (String::new(), String::new())
    );
}

#[test]
fn list_items_get_bullets_by_depth() {
    let rendered = MarkdownRenderer::render_markdown("- one\n- two\n  - deep", 40);
    assert_eq!(texts(&rendered), vec!["• one", "• two", "  ◦ deep"]);
}

#[test]
fn paragraphs_are_separated_by_a_blank_line() {
    let rendered = MarkdownRenderer::render_markdown("first\n\nsecond", 40);
    assert_eq!(texts(&rendered), vec!["first", "", "", "second"]);
    assert!(rendered[1].spans.is_empty());
}

#[test]
fn inline_code_is_yellow_and_italic() {
    let rendered = MarkdownRenderer::render_markdown("run `ls` now", 40);
    assert_eq!(rendered.len(), 1);
    let code = rendered[0].spans.iter().find(|s| s.content == "`ls`").unwrap();
    assert_eq!(code.style, TextStyle { fg: Some(Color::Yellow), bold: false, italic: true });
}

#[test]
fn soft_break_becomes_a_space() {
    let rendered = MarkdownRenderer::render_markdown("one\ntwo", 40);
    assert_eq!(texts(&rendered), vec!["one  two"]);
}

#[test]
fn events_are_laid_out_as_given() {
    let events = vec![
        MdEvent::Start(Node::Paragraph),
        MdEvent::Text("plain ".to_string()),
        MdEvent::Start(Node::Strong),
        MdEvent::Text("bold".to_string()),
        MdEvent::End(Node::Strong),
        MdEvent::HardBreak,
        MdEvent::Start(Node::Emphasis),
        MdEvent::Text("slanted".to_string()),
        MdEvent::End(Node::Emphasis),
        MdEvent::Other,
        MdEvent::End(Node::Paragraph),
    ];
    let rendered = MarkdownRenderer::render_events(&events, 40);
    assert_eq!(texts(&rendered), vec!["plain bold", "slanted"]);
    assert!(rendered[0].spans[2].style.bold);
    assert!(rendered[1].spans[0].style.italic);
    assert!(!rendered[1].spans[0].style.bold);
}

#[test]
fn rendering_twice_gives_the_same_lines() {
    let markdown = "# Title\n\nSome *text* with `code`.\n\n- a\n- b\n\n```rs\nlet x = 1;\n```";
    let first = MarkdownRenderer::render_markdown(markdown, 20);
    let second = MarkdownRenderer::render_markdown(markdown, 20);
    assert_eq!(first.len(), second.len());
    for (a, b) in first.iter().zip(second.iter()) {
        assert_eq!(a.spans.len(), b.spans.len());
        for (x, y) in a.spans.iter().zip(b.spans.iter()) {
            assert_eq!(x.content, y.content);
            assert_eq!(x.style, y.style);
        }
    }
}

fn glyphs(text: &str, columns: usize) -> Vec<Glyph> {
    text.chars()
        .map(|ch| Glyph { ch, columns, white: ch == ' ' })
        .collect()
}

fn plain() -> TextStyle {
    TextStyle { fg: None, bold: false, italic: false }
}

#[test]
fn glyphs_are_packed_by_their_given_columns() {
    let space = Glyph { ch: ' ', columns: 1, white: true };
    let mut layout = Layout::new(space);
    layout.add_text(&glyphs("ab cd", 2), 6, 0, plain());
    layout.flush();
    assert_eq!(texts(&layout.into_lines()), vec!["ab", "cd"]);

    let mut layout = Layout::new(space);
    layout.add_text(&glyphs("abcd", 1), 6, 0, plain());
    layout.add_text(&glyphs("ef", 1), 6, 0, plain());
    layout.add_text(&glyphs("gh", 1), 6, 0, plain());
    layout.flush();
    assert_eq!(texts(&layout.into_lines()), vec!["abcd e", "f gh"]);
}

#[test]
fn lines_inside_lists_are_indented() {
    let space = Glyph { ch: ' ', columns: 1, white: true };
    let mut layout = Layout::new(space);
    layout.add_text(&glyphs("abcdef", 1), 8, 1, plain());
    layout.flush();
    assert_eq!(texts(&layout.into_lines()), vec!["  abcd", "  ef"]);

    let mut layout = Layout::new(space);
    layout.add_text(&glyphs("ab", 1), 3, 1, plain());
    layout.break_line(1);
    layout.flush();
    let lines = layout.into_lines();
    assert_eq!(texts(&lines), vec!["  a", "  b", "  "]);
}

#[test]
fn a_full_line_takes_nothing_more() {
    let space = Glyph { ch: ' ', columns: 1, white: true };
    let wide = Glyph { ch: 'W', columns: 5, white: false };
    let none = Glyph { ch: '\u{0301}', columns: 0, white: false };
    let mut layout = Layout::new(space);
    layout.add_text(&vec![wide], 3, 0, plain());
    layout.add_text(&vec![none], 3, 0, plain());
    layout.flush();
    assert_eq!(texts(&layout.into_lines()), vec!["W", "\u{0301}"]);
}

#[test]
fn blank_lines_and_given_lines_join_the_layout() {
    let space = Glyph { ch: ' ', columns: 1, white: true };
    let mut layout = Layout::new(space);
    assert!(layout.has_no_lines());
    layout.push_blank();
    assert!(!layout.has_no_lines());
    layout.append_lines(MarkdownRenderer::plain_lines("x\ny"));
    layout.push_glyphs(&glyphs("ai", 1), plain());
    layout.flush();
    assert_eq!(texts(&layout.into_lines()), vec!["", "x\n", "y", "ai"]);
}

#[test]
fn split_glyphs_by_given_columns() {
    assert_eq!(
        MarkdownRenderer::split_glyphs(&glyphs("abcd", 2), 5),
        ("ab".to_string(), "cd".to_string())
    );
    assert_eq!(
        MarkdownRenderer::split_glyphs(&glyphs("abcd", 0), 0),
        ("abcd".to_string(), String::new())
    );
}

#[test]
fn no_wrapped_line_is_wider_than_asked() {
    let markdown = "Some *longer* text with **strong words**, `code` and 日本語の文字 to wrap.\n\n\
        - first item of a list\n- second item\n  - nested item with more text\n\nThe end.";
    for width in [8usize, 9, 13, 20, 40, 80] {
        let rendered = MarkdownRenderer::render_markdown(markdown, width);
        assert!(!rendered.is_empty());
        for line in &rendered {
            let columns: usize = line.text().chars().map(char_columns).sum();
            assert!(columns <= width, "{:?} is wider than {}", line.text(), width);
        }
    }
}

#[test]
fn odd_inputs_are_rendered_at_any_width() {
    let inputs = [
        "- a\n  - b\n    - c\n      - d\n        - e",
        "* * *",
        "> quoted text that is long enough to wrap",
        "| a | b |\n|---|---|\n| 1 | 2 |",
        "<div>html</div>",
        "![image](http://x/y.png) and [link](http://x)",
        "~~struck~~ text",
        "1. one\n2. two\n   continued",
        "\tindented code\n\tmore",
        "```\nunclosed fence",
        "```nosuchlanguage\nx\n```",
        "family \u{1F469}\u{200D}\u{1F469}\u{200D}\u{1F467} emoji",
        "a\u{0301}\u{0301}\u{0301} combining",
        "line one\r\nline two\r\n",
        "trailing spaces   \nhere",
        "\u{3000}\u{3000}wide spaces\u{3000}",
        "***",
        "`",
        "\n\n\n",
    ];
    for input in inputs {
        for width in [0usize, 1, 2, 3, 7, 200] {
            let rendered = MarkdownRenderer::render_markdown(input, width);
            let again = MarkdownRenderer::render_markdown(input, width);
            assert_eq!(texts(&rendered), texts(&again));
            if let Some(last) = rendered.last() {
                assert!(!last.spans.is_empty());
            }
        }
    }
}

fn text_events(text: &str) -> Vec<MdEvent> {
    vec![
        MdEvent::Start(Node::Paragraph),
        MdEvent::Text(text.to_string()),
        MdEvent::End(Node::Paragraph),
    ]
}

fn widest(lines: &[Line]) -> usize {
    lines
        .iter()
        .map(|line| line.text().chars().map(char_columns).sum())
        .max()
        .unwrap_or(0)
}

#[test]
fn fitting_is_decided_before_rendering() {
    assert!(MarkdownRenderer::fits(&text_events("some words to wrap"), 5));
    assert!(MarkdownRenderer::fits(&text_events("some words to wrap"), 1));
    assert!(!MarkdownRenderer::fits(&text_events("word"), 0));
    assert!(MarkdownRenderer::fits(&text_events("   "), 0));
    assert!(MarkdownRenderer::fits(&Vec::new(), 0));
    assert!(!MarkdownRenderer::fits(&text_events("日本"), 1));
    assert!(MarkdownRenderer::fits(&text_events("日本"), 2));

    let list = vec![
        MdEvent::Start(Node::List),
        MdEvent::Start(Node::Item),
        MdEvent::Text("ab".to_string()),
        MdEvent::End(Node::Item),
        MdEvent::End(Node::List),
        MdEvent::Text("日".to_string()),
    ];
    assert!(MarkdownRenderer::fits(&list, 3));
    assert!(!MarkdownRenderer::fits(&list, 2));

    let block = vec![
        MdEvent::Fence("rs".to_string()),
        MdEvent::Text("let x = 1;\n".to_string()),
        MdEvent::Text("x\n".to_string()),
        MdEvent::End(Node::CodeBlock),
    ];
    assert!(MarkdownRenderer::fits(&block, 11));
    assert!(!MarkdownRenderer::fits(&block, 10));

    let code = vec![MdEvent::Code("日".to_string())];
    assert!(MarkdownRenderer::fits(&code, 2));
    assert!(!MarkdownRenderer::fits(&code, 1));
}

#[test]
fn what_fits_is_rendered_within_the_width() {
    let samples = [
        text_events("some words to wrap and 日本語 too"),
        vec![
            MdEvent::Start(Node::List),
            MdEvent::Start(Node::Item),
            MdEvent::Text("first item".to_string()),
            MdEvent::Start(Node::List),
            MdEvent::Start(Node::Item),
            MdEvent::Text("nested".to_string()),
            MdEvent::Code("x".to_string()),
            MdEvent::End(Node::Item),
            MdEvent::End(Node::List),
            MdEvent::End(Node::Item),
            MdEvent::End(Node::List),
            MdEvent::Fence(String::new()),
            MdEvent::Text("code\nlines\n".to_string()),
            MdEvent::End(Node::CodeBlock),
        ],
    ];
    for events in &samples {
        let mut fitted = 0;
        for width in 0..20usize {
            let rendered = MarkdownRenderer::render_events(events, width);
            if MarkdownRenderer::fits(events, width) {
                fitted += 1;
                assert!(widest(&rendered) <= width);
            }
        }
        assert!(fitted > 0);
    }
}

#[test]
fn parts_of_the_fitting_condition() {
    assert!(MarkdownRenderer::fits_beside_indent("ab 日", 1, 4));
    assert!(!MarkdownRenderer::fits_beside_indent("ab 日", 1, 3));
    assert!(MarkdownRenderer::fits_beside_indent("", 2, 4));
    assert!(!MarkdownRenderer::fits_beside_indent("", 2, 3));
    assert!(!MarkdownRenderer::fits_beside_indent("a", usize::MAX, usize::MAX));
    assert!(MarkdownRenderer::chars_within(&vec!['a', '日'], 3));
    assert!(!MarkdownRenderer::chars_within(&vec!['a', '日'], 2));
    assert!(MarkdownRenderer::code_lines_within("ab\ncd", 3));
    assert!(!MarkdownRenderer::code_lines_within("ab\ncd", 2));
    assert!(MarkdownRenderer::code_lines_within("", 0));
    let wide = Glyph { ch: 'w', columns: 4, white: false };
    let blank = Glyph { ch: ' ', columns: 9, white: true };
    assert!(MarkdownRenderer::glyphs_fit_beside_indent(&vec![wide, blank], 1, 1, 6));
    assert!(!MarkdownRenderer::glyphs_fit_beside_indent(&vec![wide, blank], 1, 1, 5));
    assert!(MarkdownRenderer::glyphs_fit_beside_indent(&vec![wide], usize::MAX, 0, 4));
    assert!(!MarkdownRenderer::glyphs_fit_beside_indent(&vec![wide], usize::MAX, 1, usize::MAX));
}

#[test]
fn only_marked_text_is_decorated() {
    let rendered = MarkdownRenderer::render_markdown(
        "before **strong *both* end** middle *slanted* `code` after",
        200,
    );
    let spans: Vec<_> = rendered.iter().flat_map(|line| line.spans.iter()).collect();
    let style_of = |text: &str| {
        spans
            .iter()
            .find(|span| span.content.trim() == text)
            .map(|span| (span.style.bold, span.style.italic))
    };
    assert_eq!(style_of("before"), Some((false, false)));
    assert_eq!(style_of("strong"), Some((true, false)));
    assert_eq!(style_of("both"), Some((true, true)));
    assert_eq!(style_of("end"), Some((true, false)));
    assert_eq!(style_of("middle"), Some((false, false)));
    assert_eq!(style_of("slanted"), Some((false, true)));
    assert_eq!(style_of("`code`"), Some((false, true)));
    assert_eq!(style_of("after"), Some((false, false)));
    for span in &spans {
        if span.style.bold {
            assert!(["strong", "both", "end"].contains(&span.content.trim()));
        }
    }
}

#[test]
fn decorated_tokens_are_not_taken_for_code() {
    let mut lines = MarkdownRenderer::plain_lines("x\n");
    lines[0].spans[0].style.bold = true;
    let replaced = MarkdownRenderer::code_block_lines(Some(lines), "x\n");
    assert_eq!(texts(&replaced), vec!["x\n"]);
    assert!(!replaced[0].spans[0].style.bold);
}
