//! Provides the main chat user interface functionality.

use vstd::prelude::*;

use crate::ui::input_handler::{
    editing_key, editing_message, normal_key, InputHandler, KeyCode,
};
use crate::ui::renderer::{inner_rect, screen_within, state_within, Rect, Renderer, Screen};
use crate::ui::state::{
    last_index, message_views, response_added, response_started, response_updated, selecting,
    state_inv, Action, InputMode, State, StateView,
};

verus! {

/// The state after the wait for a reply was given up: normal mode, the
/// trailing placeholder message removed, nothing in flight, and the
/// selection back on a message where it pointed behind the last one.
pub open spec fn wait_abandoned(s: StateView) -> StateView {
    let messages = if s.messages.len() > 0 {
        s.messages.drop_last()
    } else {
        s.messages
    };
    let shortened = StateView {
        current_response: Seq::empty(),
        input_mode: InputMode::Normal,
        messages,
        ..s
    };
    match s.selected {
        Some(i) if i > last_index(shortened) => selecting(shortened, last_index(shortened)),
        _ => shortened,
    }
}

/// The state after `key` was pressed: handled as the mode says; while
/// waiting only Escape counts, which gives up the wait.
pub open spec fn key_pressed(s: StateView, key: KeyCode) -> StateView {
    match s.input_mode {
        InputMode::Normal => normal_key(s, key),
        InputMode::Editing => editing_key(s, key),
        InputMode::Waiting => if key == KeyCode::Esc {
            wait_abandoned(s)
        } else {
            s
        },
    }
}

/// The message that pressing `key` sends: the input, on Enter in editing
/// mode.
pub open spec fn key_message(s: StateView, key: KeyCode) -> Option<Seq<char>> {
    if s.input_mode == InputMode::Editing {
        editing_message(s, key)
    } else {
        None
    }
}

/// Whether `key`, polled while a reply streams in, cancels the request:
/// Escape in waiting mode.
pub open spec fn cancels(s: StateView, key: Option<KeyCode>) -> bool {
    key == Some(KeyCode::Esc) && s.input_mode == InputMode::Waiting
}

/// The state after a request was cancelled: normal mode and nothing in
/// flight; the messages stay.
pub open spec fn cancelled(s: StateView) -> StateView {
    StateView { current_response: Seq::empty(), input_mode: InputMode::Normal, ..s }
}

/// What the main loop does after it has drawn a frame.
#[derive(Debug, PartialEq, Eq, Clone, Copy, Structural)]
pub enum Step {
    /// Stop: the user asked to quit.
    Quit,
    /// Wait for a key until the tick is over, hand it to `run` if one
    /// came, and draw again: a request is in flight.
    Poll,
    /// Wait for the next key and hand it to `run`.
    Read,
}

/// What the main loop does next in the state `s`: it stops once the user
/// has asked to quit; while a request is in flight it only polls, so that
/// the frame keeps moving; otherwise it waits for a key.
pub open spec fn step_due(s: StateView) -> Step {
    if s.quit {
        Step::Quit
    } else if s.input_mode == InputMode::Waiting {
        Step::Poll
    } else {
        Step::Read
    }
}

/// The main structure for the chat user interface.
#[derive(Debug)]
pub struct Interface {
    pub ui_state: State,
    pub input_handler: InputHandler,
    pub ui_renderer: Renderer,
}

impl View for Interface {
    type V = StateView;

    open spec fn view(&self) -> StateView {
        self.ui_state@
    }
}

impl Interface {
    /// Creates the interface in its initial state.
    pub fn new() -> (interface: Self)
        ensures
            interface@ == crate::ui::state::initial_state(),
            state_inv(interface@),
    {
        Interface {
            ui_state: State::new(),
            input_handler: InputHandler::new(),
            ui_renderer: Renderer::new(),
        }
    }

    /// Runs one step of the main loop: handles the key that was read as
    /// the mode says and returns the user's message where the key sends one.
    /// The loop itself, which draws, reads keys and stops on a message or
    /// when the user quits, belongs to the caller.
    pub fn run(&mut self, key: KeyCode) -> (message: Option<String>)
        ensures
            final(self)@ == key_pressed(old(self)@, key),
            match message {
                Some(text) => key_message(old(self)@, key) == Some(text@),
                None => key_message(old(self)@, key) is None,
            },
            state_inv(old(self)@) ==> state_inv(final(self)@),
    {
        match self.ui_state.input_mode {
            InputMode::Normal => {
                self.input_handler.handle_normal_mode(&mut self.ui_state, key);
                None
            },
            InputMode::Editing => self.input_handler.handle_editing_mode(&mut self.ui_state, key),
            InputMode::Waiting => {
                match key {
                    KeyCode::Esc => {
                        let ghost before = message_views(self.ui_state.messages@);
                        self.ui_state.input_mode = InputMode::Normal;
                        self.ui_state.current_response = String::new();
                        self.ui_state.messages.pop();
                        assert(message_views(self.ui_state.messages@) =~= if before.len() > 0 {
                            before.drop_last()
                        } else {
                            before
                        });
                        let last = self.ui_state.messages.len().saturating_sub(1);
                        match self.ui_state.list_state.selected() {
                            Some(i) => {
                                if i > last {
                                    self.ui_state.list_state.select(Some(last));
                                    self.ui_state.vertical_scroll_state =
                                        self.ui_state.vertical_scroll_state.position(last);
                                }
                            },
                            None => {},
                        }
                    },
                    _ => {},
                }
                None
            },
        }
    }

    /// Decides what the main loop does after it has drawn a frame.
    pub fn next_step(&self) -> (step: Step)
        ensures
            step == step_due(self@),
    {
        if self.ui_state.quit {
            Step::Quit
        } else if self.ui_state.input_mode == InputMode::Waiting {
            Step::Poll
        } else {
            Step::Read
        }
    }

    /// Checks if the user has requested to quit the application.
    #[must_use]
    pub fn should_quit(&self) -> (quit: bool)
        ensures
            quit == self@.quit,
    {
        self.ui_state.quit
    }

    /// Lays out the frame that shows the interface on a screen of the size
    /// `area`: the frame of the state in the areas that the frame names for
    /// the message list and the input box.
    pub fn draw(&mut self, area: Rect) -> (screen: Screen)
        ensures
            screen@ == screen_within(old(self)@, area, screen.messages_area, screen.input_area),
            final(self)@ == state_within(old(self)@, screen.messages_area, screen.input_area),
            screen.messages_area.x == inner_rect(area, 1, 1).x,
            screen.messages_area.width == inner_rect(area, 1, 1).width,
            screen.input_area.x == inner_rect(area, 1, 1).x,
            screen.input_area.width == inner_rect(area, 1, 1).width,
            state_inv(old(self)@) ==> state_inv(final(self)@),
    {
        self.ui_renderer.render(area, &mut self.ui_state)
    }

    /// Decides on the key that was polled while a reply streams in, if
    /// any: Escape in waiting mode cancels the request.
    pub fn update(&mut self, key: Option<KeyCode>) -> (action: Option<Action>)
        ensures
            cancels(old(self)@, key) ==> action == Some(Action::CancelRequest) && final(self)@
                == cancelled(old(self)@),
            !cancels(old(self)@, key) ==> action is None && final(self)@ == old(self)@,
            state_inv(old(self)@) ==> state_inv(final(self)@),
    {
        match key {
            Some(KeyCode::Esc) => {
                if self.ui_state.input_mode == InputMode::Waiting {
                    self.ui_state.input_mode = InputMode::Normal;
                    self.ui_state.current_response = String::new();
                    Some(Action::CancelRequest)
                } else {
                    None
                }
            },
            _ => None,
        }
    }

    /// Updates the current response in the UI.
    pub fn update_response(&mut self, new_content: &str)
        ensures
            final(self)@ == response_updated(old(self)@, new_content@),
            state_inv(old(self)@) ==> state_inv(final(self)@),
    {
        self.ui_state.update_response(new_content);
    }

    /// Adds a complete response to the UI.
    pub fn add_response(&mut self, response: String)
        ensures
            final(self)@ == response_added(old(self)@, response@),
            state_inv(final(self)@),
    {
        self.ui_state.add_response(response);
    }

    /// Prepares the UI for a new response.
    pub fn start_new_response(&mut self)
        ensures
            final(self)@ == response_started(old(self)@),
            state_inv(old(self)@) ==> state_inv(final(self)@),
    {
        self.ui_state.start_new_response();
    }
}

} // verus!
