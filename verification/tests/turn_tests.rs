use chatti::error::Application;
use chatti::turn::{Next, Phase, Turn, TurnEvent};
use chatti::ui::chat::Interface;
use chatti::ui::input_handler::KeyCode;
use chatti::ui::state::InputMode;

fn waiting_interface() -> Interface {
    let mut ui = Interface::new();
    ui.run(KeyCode::Char('e'));
    ui.run(KeyCode::Char('h'));
    ui.run(KeyCode::Char('i'));
    assert_eq!(ui.run(KeyCode::Enter), Some("hi".to_string()));
    ui.start_new_response();
    ui
}

fn message(role: &str, content: &str) -> (String, String) {
    (role.to_string(), content.to_string())
}

#[test]
fn escape_before_any_delta_cancels_the_turn() {
    let mut ui = waiting_interface();
    let mut turn = Turn::new();

    assert_eq!(turn.phase(), Phase::Sent);
    assert_eq!(turn.receive(&mut ui, TurnEvent::Tick, "/tmp/log"), Next::Poll);
    assert_eq!(turn.phase(), Phase::Sent);
    assert_eq!(turn.polled(&mut ui, Some(KeyCode::Esc)), Next::End);
    assert!(turn.has_ended());
    assert_eq!(turn.phase(), Phase::Cancelled);
    assert_eq!(ui.ui_state.input_mode, InputMode::Normal);
    assert_eq!(
        ui.ui_state.messages,
        vec![message("user", "hi"), message("system", "Request cancelled")]
    );
    assert_eq!(ui.ui_state.list_state.selected(), Some(1));
    let after_cancel = ui.ui_state.messages.clone();

    assert_eq!(
        turn.receive(&mut ui, TurnEvent::Delta("late".to_string()), "/tmp/log"),
        Next::End
    );
    assert_eq!(turn.receive(&mut ui, TurnEvent::Closed, "/tmp/log"), Next::End);
    assert_eq!(turn.polled(&mut ui, Some(KeyCode::Esc)), Next::End);
    assert_eq!(ui.ui_state.messages, after_cancel);
    assert_eq!(ui.ui_state.current_response, "");
    assert_eq!(ui.ui_state.input_mode, InputMode::Normal);
}

#[test]
fn deltas_build_the_reply_and_closing_finishes_it() {
    let mut ui = waiting_interface();
    let mut turn = Turn::new();

    assert_eq!(
        turn.receive(&mut ui, TurnEvent::Delta("He".to_string()), "/tmp/log"),
        Next::Poll
    );
    assert_eq!(turn.polled(&mut ui, None), Next::Wait);
    assert_eq!(turn.phase(), Phase::Streaming);
    assert!(!turn.has_ended());
    assert_eq!(
        turn.receive(&mut ui, TurnEvent::Delta("llo".to_string()), "/tmp/log"),
        Next::Poll
    );
    assert_eq!(turn.polled(&mut ui, Some(KeyCode::Enter)), Next::Wait);
    assert_eq!(ui.ui_state.messages.last().unwrap(), &message("assistant", "Hello"));
    assert_eq!(ui.ui_state.input_mode, InputMode::Waiting);

    assert_eq!(turn.receive(&mut ui, TurnEvent::Closed, "/tmp/log"), Next::End);
    assert!(turn.has_ended());
    assert_eq!(turn.phase(), Phase::Done);
    assert_eq!(
        ui.ui_state.messages,
        vec![message("user", "hi"), message("assistant", "Hello")]
    );
    assert_eq!(ui.ui_state.input_mode, InputMode::Normal);
}

#[test]
fn closing_without_a_reply_discards_the_placeholders() {
    let mut ui = waiting_interface();
    ui.ui_state.list_state.select(Some(2));
    let mut turn = Turn::new();
    assert_eq!(turn.receive(&mut ui, TurnEvent::Closed, "/tmp/log"), Next::End);
    assert_eq!(turn.phase(), Phase::Done);
    assert_eq!(ui.ui_state.messages, vec![message("user", "hi")]);
    assert_eq!(ui.ui_state.input_mode, InputMode::Normal);
    assert_eq!(ui.ui_state.current_response, "");
    assert_eq!(ui.ui_state.list_state.selected(), Some(0));
}

#[test]
fn a_reply_of_empty_pieces_discards_the_placeholders() {
    let mut ui = waiting_interface();
    let mut turn = Turn::new();
    assert_eq!(
        turn.receive(&mut ui, TurnEvent::Delta(String::new()), "/tmp/log"),
        Next::Poll
    );
    assert_eq!(turn.polled(&mut ui, None), Next::Wait);
    assert_eq!(
        turn.receive(&mut ui, TurnEvent::Delta(String::new()), "/tmp/log"),
        Next::Poll
    );
    assert_eq!(turn.receive(&mut ui, TurnEvent::Closed, "/tmp/log"), Next::End);
    assert_eq!(ui.ui_state.messages, vec![message("user", "hi")]);
    assert_eq!(ui.ui_state.input_mode, InputMode::Normal);
}

#[test]
fn cancelling_before_the_reply_begins_discards_the_placeholder() {
    let mut ui = Interface::new();
    ui.run(KeyCode::Char('e'));
    ui.run(KeyCode::Char('x'));
    ui.run(KeyCode::Enter);
    let mut turn = Turn::new();
    assert_eq!(turn.polled(&mut ui, Some(KeyCode::Esc)), Next::End);
    assert_eq!(
        ui.ui_state.messages,
        vec![message("user", "x"), message("system", "Request cancelled")]
    );
}

#[test]
fn a_failure_is_reported_with_the_log_path() {
    let mut ui = waiting_interface();
    let mut turn = Turn::new();
    let failure = TurnEvent::Failure(Application::Network("connection refused".to_string()));
    assert_eq!(
        turn.receive(&mut ui, failure, "/home/me/.config/chatti/logs/errors.log"),
        Next::EndAfterError
    );
    assert!(turn.has_ended());
    assert_eq!(turn.phase(), Phase::Failed);
    assert_eq!(
        ui.ui_state.messages,
        vec![
            message("user", "hi"),
            message(
                "assistant",
                "Error: There was a problem connecting to the server, For more details, please check the log file at: /home/me/.config/chatti/logs/errors.log"
            ),
        ]
    );
    assert_eq!(ui.ui_state.input_mode, InputMode::Normal);
}

#[test]
fn cancelling_during_a_reply_keeps_what_arrived() {
    let mut ui = waiting_interface();
    let mut turn = Turn::new();
    turn.receive(&mut ui, TurnEvent::Delta("par".to_string()), "/tmp/log");
    assert_eq!(turn.polled(&mut ui, Some(KeyCode::Esc)), Next::End);
    assert_eq!(
        ui.ui_state.messages,
        vec![
            message("user", "hi"),
            message("assistant", "par"),
            message("system", "Request cancelled"),
        ]
    );
    assert_eq!(ui.ui_state.list_state.selected(), Some(2));
    assert_eq!(ui.ui_state.current_response, "");
    assert_eq!(ui.ui_state.input_mode, InputMode::Normal);
}
