use chatti::ui::chat::{Interface, Step};
use chatti::ui::input_handler::KeyCode;
use chatti::ui::state::{Action, InputMode};

fn create_mock_chat_ui() -> Interface {
    Interface::new()
}

#[test]
fn test_chat_ui_new_response() {
    let mut chat_ui = create_mock_chat_ui();
    chat_ui.start_new_response();
    assert_eq!(chat_ui.ui_state.input_mode, InputMode::Waiting);
    assert_eq!(chat_ui.ui_state.current_response, "");
    assert_eq!(chat_ui.ui_state.messages.last().unwrap().0, "assistant");
    assert_eq!(chat_ui.ui_state.messages.last().unwrap().1, "");
}

#[test]
fn test_chat_ui_update_response() {
    let mut chat_ui = create_mock_chat_ui();
    chat_ui.start_new_response();
    chat_ui.update_response("Hello");
    chat_ui.update_response(", world!");
    assert_eq!(chat_ui.ui_state.current_response, "Hello, world!");
    assert_eq!(chat_ui.ui_state.messages.last().unwrap().1, "Hello, world!");
}

#[test]
fn test_chat_ui_add_response() {
    let mut chat_ui = create_mock_chat_ui();
    chat_ui.add_response("Test response".to_string());
    assert_eq!(chat_ui.ui_state.input_mode, InputMode::Normal);
    assert_eq!(chat_ui.ui_state.messages.last().unwrap().0, "assistant");
    assert_eq!(chat_ui.ui_state.messages.last().unwrap().1, "Test response");
}

#[test]
fn keys_go_to_the_handler_of_the_mode() {
    let mut chat_ui = create_mock_chat_ui();
    assert_eq!(chat_ui.run(KeyCode::Char('h')), None);
    assert_eq!(chat_ui.ui_state.input, "");
    assert_eq!(chat_ui.run(KeyCode::Char('e')), None);
    assert_eq!(chat_ui.ui_state.input_mode, InputMode::Editing);
    assert_eq!(chat_ui.run(KeyCode::Char('q')), None);
    assert!(!chat_ui.should_quit());
    assert_eq!(chat_ui.run(KeyCode::Enter), Some("q".to_string()));
    assert_eq!(chat_ui.ui_state.input_mode, InputMode::Waiting);
    assert_eq!(chat_ui.run(KeyCode::Char('q')), None);
    assert!(!chat_ui.should_quit());
    assert_eq!(chat_ui.ui_state.messages.len(), 2);
}

#[test]
fn escape_while_waiting_drops_the_placeholder() {
    let mut chat_ui = create_mock_chat_ui();
    chat_ui.run(KeyCode::Char('e'));
    chat_ui.run(KeyCode::Char('a'));
    chat_ui.run(KeyCode::Enter);
    chat_ui.ui_state.list_state.select(Some(1));
    assert_eq!(chat_ui.run(KeyCode::Esc), None);
    assert_eq!(chat_ui.ui_state.input_mode, InputMode::Normal);
    assert_eq!(chat_ui.ui_state.messages, vec![("user".to_string(), "a".to_string())]);
    assert_eq!(chat_ui.ui_state.list_state.selected(), Some(0));
    chat_ui.run(KeyCode::Char('q'));
    assert!(chat_ui.should_quit());
}

#[test]
fn only_escape_while_waiting_cancels() {
    let mut chat_ui = create_mock_chat_ui();
    assert_eq!(chat_ui.update(Some(KeyCode::Esc)), None);
    assert_eq!(chat_ui.update(None), None);
    chat_ui.start_new_response();
    chat_ui.update_response("partial");
    assert_eq!(chat_ui.update(Some(KeyCode::Enter)), None);
    assert_eq!(chat_ui.update(None), None);
    assert_eq!(chat_ui.ui_state.input_mode, InputMode::Waiting);
    assert_eq!(chat_ui.update(Some(KeyCode::Esc)), Some(Action::CancelRequest));
    assert_eq!(chat_ui.ui_state.input_mode, InputMode::Normal);
    assert_eq!(chat_ui.ui_state.current_response, "");
    assert_eq!(chat_ui.ui_state.messages.len(), 1);
}

#[test]
fn the_loop_reads_polls_or_stops_as_the_state_says() {
    let mut chat_ui = create_mock_chat_ui();
    assert_eq!(chat_ui.next_step(), Step::Read);
    chat_ui.run(KeyCode::Char('e'));
    assert_eq!(chat_ui.next_step(), Step::Read);
    chat_ui.run(KeyCode::Enter);
    assert_eq!(chat_ui.next_step(), Step::Poll);
    chat_ui.ui_state.quit = true;
    assert_eq!(chat_ui.next_step(), Step::Quit);
    chat_ui.ui_state.input_mode = InputMode::Normal;
    assert_eq!(chat_ui.next_step(), Step::Quit);
}
