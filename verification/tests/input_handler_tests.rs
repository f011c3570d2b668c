use chatti::ui::input_handler::{InputHandler, KeyCode};
use chatti::ui::state::{InputMode, State};

#[test]
fn test_input_handler_normal_mode() {
    let input_handler = InputHandler::new();
    let mut ui_state = State::new();

    input_handler.handle_normal_mode(&mut ui_state, KeyCode::Char('q'));
    assert!(ui_state.quit);

    ui_state.quit = false;
    input_handler.handle_normal_mode(&mut ui_state, KeyCode::Char('e'));
    assert_eq!(ui_state.input_mode, InputMode::Editing);
}

#[test]
fn test_input_handler_editing_mode() {
    let input_handler = InputHandler::new();
    let mut ui_state = State::new();
    ui_state.input_mode = InputMode::Editing;

    let result = input_handler.handle_editing_mode(&mut ui_state, KeyCode::Char('a'));
    assert_eq!(result, None);
    assert_eq!(ui_state.input, "a");

    let result = input_handler.handle_editing_mode(&mut ui_state, KeyCode::Enter);
    assert_eq!(result, Some("a".to_string()));
    assert_eq!(ui_state.input_mode, InputMode::Waiting);
}

#[test]
fn typing_hi_and_enter_sends_hi() {
    let input_handler = InputHandler::new();
    let mut ui_state = State::new();

    input_handler.handle_normal_mode(&mut ui_state, KeyCode::Char('e'));
    assert_eq!(ui_state.input_mode, InputMode::Editing);

    assert_eq!(input_handler.handle_editing_mode(&mut ui_state, KeyCode::Char('h')), None);
    assert_eq!(input_handler.handle_editing_mode(&mut ui_state, KeyCode::Char('i')), None);
    let sent = input_handler.handle_editing_mode(&mut ui_state, KeyCode::Enter);

    assert_eq!(sent, Some("hi".to_string()));
    assert_eq!(
        ui_state.messages,
        vec![
            ("user".to_string(), "hi".to_string()),
            ("system".to_string(), "Generating...".to_string()),
        ]
    );
    assert_eq!(ui_state.input_mode, InputMode::Waiting);
    assert_eq!(ui_state.input, "");
    assert_eq!(ui_state.horizontal_scroll, 0);
}

#[test]
fn backspace_removes_the_last_character() {
    let input_handler = InputHandler::new();
    let mut ui_state = State::new();
    ui_state.input_mode = InputMode::Editing;

    for key in [
        KeyCode::Backspace,
        KeyCode::Char('a'),
        KeyCode::Char('b'),
        KeyCode::Backspace,
        KeyCode::Char('c'),
        KeyCode::Left,
        KeyCode::Other,
        KeyCode::Char('é'),
        KeyCode::Char('x'),
        KeyCode::Backspace,
    ] {
        assert_eq!(input_handler.handle_editing_mode(&mut ui_state, key), None);
    }
    assert_eq!(ui_state.input, "acé");
    let sent = input_handler.handle_editing_mode(&mut ui_state, KeyCode::Enter);
    assert_eq!(sent, Some("acé".to_string()));
    assert_eq!(ui_state.input_mode, InputMode::Waiting);
}

#[test]
fn escape_leaves_editing_without_sending() {
    let input_handler = InputHandler::new();
    let mut ui_state = State::new();
    ui_state.input_mode = InputMode::Editing;
    input_handler.handle_editing_mode(&mut ui_state, KeyCode::Char('a'));
    let sent = input_handler.handle_editing_mode(&mut ui_state, KeyCode::Esc);
    assert_eq!(sent, None);
    assert_eq!(ui_state.input_mode, InputMode::Normal);
    assert_eq!(ui_state.input, "a");
    assert!(ui_state.messages.is_empty());
}

#[test]
fn horizontal_scroll_stays_within_the_overflow() {
    let input_handler = InputHandler::new();
    let mut ui_state = State::new();
    ui_state.input_mode = InputMode::Editing;
    ui_state.input_width = 3;
    ui_state.input = "abcde".to_string();

    input_handler.handle_editing_mode(&mut ui_state, KeyCode::Left);
    assert_eq!(ui_state.horizontal_scroll, 0);
    input_handler.handle_editing_mode(&mut ui_state, KeyCode::Right);
    assert_eq!(ui_state.horizontal_scroll, 1);
    input_handler.handle_editing_mode(&mut ui_state, KeyCode::Right);
    assert_eq!(ui_state.horizontal_scroll, 2);
    input_handler.handle_editing_mode(&mut ui_state, KeyCode::Right);
    assert_eq!(ui_state.horizontal_scroll, 2);
    input_handler.handle_editing_mode(&mut ui_state, KeyCode::Left);
    assert_eq!(ui_state.horizontal_scroll, 1);

    ui_state.input_width = 80;
    input_handler.handle_editing_mode(&mut ui_state, KeyCode::Right);
    assert_eq!(ui_state.horizontal_scroll, 0);
}

#[test]
fn normal_mode_keys() {
    let input_handler = InputHandler::new();
    let mut ui_state = State::new();

    input_handler.handle_normal_mode(&mut ui_state, KeyCode::Char('?'));
    assert!(ui_state.show_toggle);
    input_handler.handle_normal_mode(&mut ui_state, KeyCode::Char('?'));
    assert!(!ui_state.show_toggle);

    input_handler.handle_normal_mode(&mut ui_state, KeyCode::Char('x'));
    input_handler.handle_normal_mode(&mut ui_state, KeyCode::Enter);
    input_handler.handle_normal_mode(&mut ui_state, KeyCode::Other);
    assert_eq!(ui_state.input_mode, InputMode::Normal);
    assert!(!ui_state.quit);
    assert_eq!(ui_state.input, "");

    ui_state.messages.push(("user".to_string(), "a".to_string()));
    ui_state.messages.push(("assistant".to_string(), "b".to_string()));
    input_handler.handle_normal_mode(&mut ui_state, KeyCode::Down);
    assert_eq!(ui_state.list_state.selected(), Some(1));
    assert_eq!(ui_state.vertical_scroll_state.position, 1);
    input_handler.handle_normal_mode(&mut ui_state, KeyCode::Down);
    assert_eq!(ui_state.list_state.selected(), Some(1));
    input_handler.handle_normal_mode(&mut ui_state, KeyCode::Up);
    assert_eq!(ui_state.list_state.selected(), Some(0));
    input_handler.handle_normal_mode(&mut ui_state, KeyCode::Up);
    assert_eq!(ui_state.list_state.selected(), Some(0));
}
