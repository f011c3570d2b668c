//! Handles user input for the chat UI.

use vstd::prelude::*;

use crate::text::byte_len;
use crate::ui::state::{
    message_views, scrolled_down, scrolled_up, state_inv, InputMode, ScrollbarState, State,
    StateView,
};

verus! {

/// A key press as the handlers see it.
#[derive(Debug, PartialEq, Eq, Clone, Copy, Structural)]
pub enum KeyCode {
    /// A character key.
    Char(char),
    Backspace,
    Enter,
    Esc,
    Left,
    Right,
    Up,
    Down,
    /// Any key that has no meaning here.
    Other,
}

/// The state after `key` was pressed in normal mode: `q` asks to quit, `?`
/// shows or hides the help, `e` starts editing, the arrows move the
/// selection; any other key changes nothing.
pub open spec fn normal_key(s: StateView, key: KeyCode) -> StateView {
    match key {
        KeyCode::Char('q') => StateView { quit: true, ..s },
        KeyCode::Char('?') => StateView { show_toggle: !s.show_toggle, ..s },
        KeyCode::Char('e') => StateView { input_mode: InputMode::Editing, ..s },
        KeyCode::Up => scrolled_up(s),
        KeyCode::Down => scrolled_down(s),
        _ => s,
    }
}

/// The largest horizontal scroll position: the part of the input, counted
/// in bytes, that does not fit the input box.
pub open spec fn max_scroll(s: StateView) -> nat {
    if byte_len(s.input) > s.input_width {
        (byte_len(s.input) - s.input_width) as nat
    } else {
        0
    }
}

/// The state after the input was sent: the input is empty, a user message
/// with the text and the "Generating..." message stand at the end, the mode
/// is waiting and the horizontal scroll is reset.
pub open spec fn submitted(s: StateView) -> StateView {
    StateView {
        horizontal_scroll_state: ScrollbarState {
            content_length: 0,
            position: 0,
            viewport_content_length: 0,
        },
        horizontal_scroll: 0,
        input: Seq::empty(),
        input_mode: InputMode::Waiting,
        messages: s.messages.push(("user"@, s.input)).push(("system"@, "Generating..."@)),
        ..s
    }
}

/// The state after `key` was pressed in editing mode.
pub open spec fn editing_key(s: StateView, key: KeyCode) -> StateView {
    match key {
        KeyCode::Enter => submitted(s),
        KeyCode::Char(c) => StateView { input: s.input.push(c), ..s },
        KeyCode::Backspace => StateView {
            input: if s.input.len() > 0 {
                s.input.drop_last()
            } else {
                s.input
            },
            ..s
        },
        KeyCode::Esc => StateView { input_mode: InputMode::Normal, ..s },
        KeyCode::Left => StateView {
            horizontal_scroll: if s.horizontal_scroll > 0 {
                (s.horizontal_scroll - 1) as usize
            } else {
                0
            },
            ..s
        },
        KeyCode::Right => StateView {
            horizontal_scroll: if s.horizontal_scroll + 1 <= max_scroll(s) {
                (s.horizontal_scroll + 1) as usize
            } else {
                max_scroll(s) as usize
            },
            ..s
        },
        _ => s,
    }
}

/// The message that pressing `key` in editing mode sends: the input, on
/// Enter.
pub open spec fn editing_message(s: StateView, key: KeyCode) -> Option<Seq<char>> {
    match key {
        KeyCode::Enter => Some(s.input),
        _ => None,
    }
}

/// The input after `keys` were typed onto `input`: a character key appends
/// its character, Backspace removes the last character, other keys leave
/// the text alone.
pub open spec fn typed_onto(input: Seq<char>, keys: Seq<KeyCode>) -> Seq<char>
    decreases keys.len(),
{
    if keys.len() == 0 {
        input
    } else {
        let before = typed_onto(input, keys.drop_last());
        match keys.last() {
            KeyCode::Char(c) => before.push(c),
            KeyCode::Backspace => if before.len() > 0 {
                before.drop_last()
            } else {
                before
            },
            _ => before,
        }
    }
}

/// The state after `keys` were pressed one after another in editing mode.
pub open spec fn editing_keys(s: StateView, keys: Seq<KeyCode>) -> StateView
    decreases keys.len(),
{
    if keys.len() == 0 {
        s
    } else {
        editing_key(editing_keys(s, keys.drop_last()), keys.last())
    }
}

/// Handles user input for the chat UI.
#[derive(Debug)]
pub struct InputHandler;

impl InputHandler {
    /// Creates a new `InputHandler` instance.
    #[must_use]
    pub fn new() -> (handler: Self) {
        InputHandler
    }

    /// Handles input in normal mode.
    pub fn handle_normal_mode(&self, ui_state: &mut State, key: KeyCode)
        ensures
            final(ui_state)@ == normal_key(old(ui_state)@, key),
            state_inv(old(ui_state)@) && old(ui_state)@.input_mode == InputMode::Normal
                ==> state_inv(final(ui_state)@),
    {
        match key {
            KeyCode::Char(c) => {
                if c == 'q' {
                    ui_state.quit = true;
                } else if c == '?' {
                    ui_state.show_toggle = !ui_state.show_toggle;
                } else if c == 'e' {
                    ui_state.input_mode = InputMode::Editing;
                }
            },
            KeyCode::Up => ui_state.scroll_up(),
            KeyCode::Down => ui_state.scroll_down(),
            _ => {},
        }
    }

    /// Handles input in editing mode. Returns the user's message if Enter
    /// was pressed.
    pub fn handle_editing_mode(&self, ui_state: &mut State, key: KeyCode) -> (message: Option<
        String,
    >)
        ensures
            final(ui_state)@ == editing_key(old(ui_state)@, key),
            match message {
                Some(text) => editing_message(old(ui_state)@, key) == Some(text@),
                None => editing_message(old(ui_state)@, key) is None,
            },
            state_inv(old(ui_state)@) && old(ui_state)@.input_mode == InputMode::Editing
                ==> state_inv(final(ui_state)@),
    {
        match key {
            KeyCode::Enter => {
                let message = ui_state.input.clone();
                ui_state.input = String::new();
                let ghost before = message_views(ui_state.messages@);
                ui_state.messages.push(("user".to_owned(), message.clone()));
                ui_state.input_mode = InputMode::Waiting;
                ui_state.messages.push(("system".to_owned(), "Generating...".to_owned()));
                ui_state.horizontal_scroll = 0;
                ui_state.horizontal_scroll_state = ScrollbarState::default();
                assert(message_views(ui_state.messages@) =~= before.push(
                    ("user"@, message@),
                ).push(("system"@, "Generating..."@)));
                assert(ui_state.messages.len() == ui_state.messages@.len());
                assert(ui_state@.messages.last() == ("system"@, "Generating..."@));
                Some(message)
            },
            KeyCode::Char(c) => {
                ui_state.input.push(c);
                None
            },
            KeyCode::Backspace => {
                ui_state.input.pop();
                None
            },
            KeyCode::Esc => {
                ui_state.input_mode = InputMode::Normal;
                None
            },
            KeyCode::Left => {
                ui_state.horizontal_scroll = ui_state.horizontal_scroll.saturating_sub(1);
                None
            },
            KeyCode::Right => {
                let width: usize = ui_state.input_width as usize;
                let limit = ui_state.input.as_str().len().saturating_sub(width);
                ui_state.horizontal_scroll = if ui_state.horizontal_scroll < limit {
                    ui_state.horizontal_scroll + 1
                } else {
                    limit
                };
                None
            },
            _ => None,
        }
    }
}

impl Default for InputHandler {
    fn default() -> (handler: Self) {
        InputHandler
    }
}

/// Keys that neither send the input nor leave editing mode.
pub open spec fn stays_editing(key: KeyCode) -> bool {
    key != KeyCode::Enter && key != KeyCode::Esc
}

/// Typing changes the input as `typed_onto` says and nothing else that
/// sending depends on: the mode stays editing and the messages stay as they
/// were.
pub proof fn lemma_editing_keys(s: StateView, keys: Seq<KeyCode>)
    requires
        s.input_mode == InputMode::Editing,
        forall|i: int| 0 <= i < keys.len() ==> stays_editing(#[trigger] keys[i]),
    ensures
        editing_keys(s, keys).input == typed_onto(s.input, keys),
        editing_keys(s, keys).input_mode == InputMode::Editing,
        editing_keys(s, keys).messages == s.messages,
    decreases keys.len(),
{
    if keys.len() > 0 {
        lemma_editing_keys(s, keys.drop_last());
    }
}

/// Whatever was typed in editing mode, Enter sends exactly the text that
/// the character keys built up, less what Backspace removed, and leaves the
/// interface waiting with that text as the new user message.
pub proof fn lemma_enter_sends_typed_text(s: StateView, keys: Seq<KeyCode>)
    requires
        s.input_mode == InputMode::Editing,
        forall|i: int| 0 <= i < keys.len() ==> stays_editing(#[trigger] keys[i]),
    ensures
        editing_message(editing_keys(s, keys), KeyCode::Enter) == Some(
            typed_onto(s.input, keys),
        ),
        editing_keys(s, keys.push(KeyCode::Enter)).input_mode == InputMode::Waiting,
        editing_keys(s, keys.push(KeyCode::Enter)).messages == s.messages.push(
            ("user"@, typed_onto(s.input, keys)),
        ).push(("system"@, "Generating..."@)),
{
    lemma_editing_keys(s, keys);
    assert(keys.push(KeyCode::Enter).drop_last() =~= keys);
}

} // verus!
