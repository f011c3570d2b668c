//! Manages the state of the user interface.

use vstd::prelude::*;

use crate::ui::spinner::Spinner;

verus! {

/// Represents the different input modes of the UI.
#[derive(Debug, PartialEq, Eq, Clone, Copy, Structural)]
pub enum InputMode {
    /// Normal mode for navigation and command input.
    Normal,
    /// Editing mode for text input.
    Editing,
    /// Waiting mode while processing a request.
    Waiting,
}

impl Default for InputMode {
    fn default() -> (mode: Self)
        ensures
            mode == InputMode::Normal,
    {
        InputMode::Normal
    }
}

/// Represents possible actions that can be taken in the UI.
#[derive(Debug, PartialEq, Eq, Clone, Copy, Structural)]
pub enum Action {
    /// Action to cancel the current request.
    CancelRequest,
}

/// Which entry of the message list is selected.
#[derive(Debug, PartialEq, Eq, Clone, Copy, Structural)]
pub struct ListState {
    pub selected: Option<usize>,
}

impl ListState {
    /// The index of the selected entry, if one is selected.
    pub fn selected(&self) -> (index: Option<usize>)
        ensures
            index == self.selected,
    {
        self.selected
    }

    /// Selects the entry at `index`, or none.
    pub fn select(&mut self, index: Option<usize>)
        ensures
            final(self).selected == index,
    {
        self.selected = index;
    }
}

impl Default for ListState {
    fn default() -> (state: Self)
        ensures
            state.selected is None,
    {
        ListState { selected: None }
    }
}

/// What a scrollbar shows: where the view stands in how much content.
#[derive(Debug, PartialEq, Eq, Clone, Copy, Structural)]
pub struct ScrollbarState {
    /// Length of the scrollable content.
    pub content_length: usize,
    /// Position of the view in the content.
    pub position: usize,
    /// Length of content that is visible at once.
    pub viewport_content_length: usize,
}

impl ScrollbarState {
    /// The same state at another position.
    #[must_use]
    pub fn position(self, position: usize) -> (state: Self)
        ensures
            state == (ScrollbarState { position, ..self }),
    {
        ScrollbarState { position, ..self }
    }

    /// The same state over content of another length.
    #[must_use]
    pub fn content_length(self, content_length: usize) -> (state: Self)
        ensures
            state == (ScrollbarState { content_length, ..self }),
    {
        ScrollbarState { content_length, ..self }
    }

    /// The same state with another length of visible content.
    #[must_use]
    pub fn viewport_content_length(self, viewport_content_length: usize) -> (state: Self)
        ensures
            state == (ScrollbarState { viewport_content_length, ..self }),
    {
        ScrollbarState { viewport_content_length, ..self }
    }
}

impl Default for ScrollbarState {
    fn default() -> (state: Self)
        ensures
            state == (ScrollbarState {
                content_length: 0,
                position: 0,
                viewport_content_length: 0,
            }),
    {
        ScrollbarState { content_length: 0, position: 0, viewport_content_length: 0 }
    }
}

/// A message as the contracts see it: role and content.
pub type MessageView = (Seq<char>, Seq<char>);

/// The views of `messages`, in order.
pub open spec fn message_views(messages: Seq<(String, String)>) -> Seq<MessageView> {
    messages.map_values(|m: (String, String)| (m.0@, m.1@))
}

/// The message that stands for a reply not yet begun.
pub open spec fn generating_message() -> MessageView {
    ("system"@, "Generating..."@)
}

/// An assistant message with the given content.
pub open spec fn assistant_message(content: Seq<char>) -> MessageView {
    ("assistant"@, content)
}

/// Whether `s` and `literal` hold the same characters.
pub fn text_is(s: &String, literal: &str) -> (same: bool)
    ensures
        same == (s@ == literal@),
{
    let other = literal.to_owned();
    *s == other
}

/// Represents the current state of the user interface.
#[derive(Debug)]
pub struct State {
    pub current_response: String,
    pub horizontal_scroll_state: ScrollbarState,
    pub horizontal_scroll: usize,
    pub input: String,
    pub input_mode: InputMode,
    pub input_width: u16,
    pub list_state: ListState,
    pub messages: Vec<(String, String)>,
    pub show_toggle: bool,
    pub spinner: Spinner,
    pub vertical_scroll_state: ScrollbarState,
    pub quit: bool,
}

/// The state of the user interface as the contracts see it.
pub struct StateView {
    pub current_response: Seq<char>,
    pub horizontal_scroll_state: ScrollbarState,
    pub horizontal_scroll: usize,
    pub input: Seq<char>,
    pub input_mode: InputMode,
    pub input_width: u16,
    pub selected: Option<usize>,
    pub messages: Seq<MessageView>,
    pub show_toggle: bool,
    pub spinner: nat,
    pub vertical_scroll_state: ScrollbarState,
    pub quit: bool,
}

impl View for State {
    type V = StateView;

    open spec fn view(&self) -> StateView {
        StateView {
            current_response: self.current_response@,
            horizontal_scroll_state: self.horizontal_scroll_state,
            horizontal_scroll: self.horizontal_scroll,
            input: self.input@,
            input_mode: self.input_mode,
            input_width: self.input_width,
            selected: self.list_state.selected,
            messages: message_views(self.messages@),
            show_toggle: self.show_toggle,
            spinner: self.spinner.position(),
            vertical_scroll_state: self.vertical_scroll_state,
            quit: self.quit,
        }
    }
}

/// The state before anything happened: no messages, empty input, normal
/// mode, the first entry selected.
pub open spec fn initial_state() -> StateView {
    StateView {
        current_response: Seq::empty(),
        horizontal_scroll_state: ScrollbarState {
            content_length: 0,
            position: 0,
            viewport_content_length: 0,
        },
        horizontal_scroll: 0,
        input: Seq::empty(),
        input_mode: InputMode::Normal,
        input_width: 0,
        selected: Some(0usize),
        messages: Seq::empty(),
        show_toggle: false,
        spinner: 0,
        vertical_scroll_state: ScrollbarState {
            content_length: 0,
            position: 0,
            viewport_content_length: 0,
        },
        quit: false,
    }
}

/// The selected index, taking no selection for the first entry.
pub open spec fn selected_or_first(s: StateView) -> usize {
    match s.selected {
        Some(i) => i,
        None => 0,
    }
}

/// Index of the last message; zero when there is none.
pub open spec fn last_index(s: StateView) -> usize {
    if s.messages.len() > 0 {
        (s.messages.len() - 1) as usize
    } else {
        0
    }
}

/// The selection stands at `index` and the vertical scrollbar follows it.
pub open spec fn selecting(s: StateView, index: usize) -> StateView {
    StateView {
        selected: Some(index),
        vertical_scroll_state: ScrollbarState { position: index, ..s.vertical_scroll_state },
        ..s
    }
}

/// The state after the selection moved up by one entry, stopping at the
/// first.
pub open spec fn scrolled_up(s: StateView) -> StateView {
    let current = selected_or_first(s);
    selecting(
        s,
        if current > 0 {
            (current - 1) as usize
        } else {
            0
        },
    )
}

/// The state after the selection moved down by one entry, stopping at the
/// last message.
pub open spec fn scrolled_down(s: StateView) -> StateView {
    let current = selected_or_first(s);
    selecting(
        s,
        if current < last_index(s) {
            (current + 1) as usize
        } else {
            last_index(s)
        },
    )
}

/// The messages after the reply grew to `response`: a trailing assistant
/// message takes the new content, otherwise an assistant message is added.
pub open spec fn with_streamed(messages: Seq<MessageView>, response: Seq<char>) -> Seq<
    MessageView,
> {
    if messages.len() > 0 && messages.last().0 == "assistant"@ {
        messages.drop_last().push(assistant_message(response))
    } else {
        messages.push(assistant_message(response))
    }
}

/// The state after `new_content` arrived for the reply in flight. Outside
/// waiting mode nothing changes. The vertical scrollbar follows only where
/// the selection stands on the last message.
pub open spec fn response_updated(s: StateView, new_content: Seq<char>) -> StateView {
    if s.input_mode == InputMode::Waiting {
        let response = s.current_response + new_content;
        let messages = with_streamed(s.messages, response);
        let last = (messages.len() - 1) as usize;
        StateView {
            current_response: response,
            messages,
            vertical_scroll_state: if s.selected == Some(last) {
                ScrollbarState { position: last, ..s.vertical_scroll_state }
            } else {
                s.vertical_scroll_state
            },
            ..s
        }
    } else {
        s
    }
}

/// The messages once the placeholders of a reply in flight are removed:
/// the last message and, where it then stands last, the "Generating..."
/// message.
pub open spec fn without_placeholders(messages: Seq<MessageView>) -> Seq<MessageView> {
    let popped = if messages.len() > 0 {
        messages.drop_last()
    } else {
        messages
    };
    if popped.len() > 0 && popped.last() == generating_message() {
        popped.drop_last()
    } else {
        popped
    }
}

/// The state after the complete reply `response` was added: in waiting mode
/// it takes the place of the placeholders; the mode is normal again, the
/// reply in flight is forgotten, the selection stands on the new message and
/// the horizontal scroll is reset.
pub open spec fn response_added(s: StateView, response: Seq<char>) -> StateView {
    let kept = if s.input_mode == InputMode::Waiting {
        without_placeholders(s.messages)
    } else {
        s.messages
    };
    let messages = kept.push(assistant_message(response));
    let last = (messages.len() - 1) as usize;
    StateView {
        current_response: Seq::empty(),
        horizontal_scroll_state: ScrollbarState {
            content_length: 0,
            position: 0,
            viewport_content_length: 0,
        },
        horizontal_scroll: 0,
        input_mode: InputMode::Normal,
        selected: Some(last),
        messages,
        vertical_scroll_state: ScrollbarState { position: last, ..s.vertical_scroll_state },
        ..s
    }
}

/// The state when a new reply begins: waiting mode, nothing received yet,
/// and an empty assistant message at the end.
pub open spec fn response_started(s: StateView) -> StateView {
    StateView {
        current_response: Seq::empty(),
        input_mode: InputMode::Waiting,
        messages: s.messages.push(assistant_message(Seq::empty())),
        ..s
    }
}

/// What holds of the state between any two operations: outside waiting
/// mode no reply is in flight; while waiting, the last message is the
/// placeholder of the reply (the "Generating..." message or the assistant
/// message being filled); and the selection points at a message, or at
/// zero when there is none.
pub open spec fn state_inv(s: StateView) -> bool {
    &&& s.input_mode != InputMode::Waiting ==> s.current_response.len() == 0
    &&& s.input_mode == InputMode::Waiting ==> s.messages.len() > 0 && (s.messages.last().0
        == "assistant"@ || s.messages.last() == generating_message())
    &&& selected_or_first(s) <= last_index(s)
}

/// The notice that stands for a cancelled request.
pub open spec fn cancelled_notice() -> MessageView {
    ("system"@, "Request cancelled"@)
}

/// The state with the selection on a message: where it pointed behind the
/// last message it stands on the last one, and the vertical scrollbar
/// follows it.
pub open spec fn selection_clamped(s: StateView) -> StateView {
    match s.selected {
        Some(i) if i > last_index(s) => selecting(s, last_index(s)),
        _ => s,
    }
}

/// The state after a reply ended without any text: in waiting mode the
/// placeholders are discarded; the mode is normal again, nothing is in
/// flight and the selection stands on a message.
pub open spec fn response_dropped(s: StateView) -> StateView {
    selection_clamped(
        StateView {
            current_response: Seq::empty(),
            input_mode: InputMode::Normal,
            messages: if s.input_mode == InputMode::Waiting {
                without_placeholders(s.messages)
            } else {
                s.messages
            },
            ..s
        },
    )
}

/// The messages that stay when a request is cancelled: the "Generating..."
/// message goes, and so does an assistant message at the end that holds no
/// text yet; what has arrived of a reply stays.
pub open spec fn without_waiting_marks(messages: Seq<MessageView>) -> Seq<MessageView> {
    let open = messages.len() > 0 && messages.last().0 == "assistant"@;
    let body = if open {
        messages.drop_last()
    } else {
        messages
    };
    let cleared = if body.len() > 0 && body.last() == generating_message() {
        body.drop_last()
    } else {
        body
    };
    if open && messages.last().1.len() > 0 {
        cleared.push(messages.last())
    } else {
        cleared
    }
}

/// The state after the request was cancelled: the placeholders are gone,
/// the notice of the cancellation stands at the end and is selected, the
/// mode is normal, nothing is in flight and the horizontal scroll is reset.
pub open spec fn request_cancelled(s: StateView) -> StateView {
    let messages = without_waiting_marks(s.messages).push(cancelled_notice());
    let last = (messages.len() - 1) as usize;
    StateView {
        current_response: Seq::empty(),
        horizontal_scroll_state: ScrollbarState {
            content_length: 0,
            position: 0,
            viewport_content_length: 0,
        },
        horizontal_scroll: 0,
        input_mode: InputMode::Normal,
        selected: Some(last),
        messages,
        vertical_scroll_state: ScrollbarState { position: last, ..s.vertical_scroll_state },
        ..s
    }
}

/// Cancelling before anything arrived leaves no trace of the wait: both
/// placeholders give way to the notice. Cancelling after part of a reply
/// arrived keeps that part and removes the "Generating..." message.
pub proof fn lemma_cancelling_discards_placeholders(
    s: StateView,
    earlier: Seq<MessageView>,
    arrived: Seq<char>,
)
    requires
        s.messages == earlier.push(generating_message()).push(assistant_message(arrived)),
    ensures
        arrived.len() == 0 ==> request_cancelled(s).messages == earlier.push(cancelled_notice()),
        arrived.len() > 0 ==> request_cancelled(s).messages == earlier.push(
            assistant_message(arrived),
        ).push(cancelled_notice()),
        request_cancelled(s).input_mode == InputMode::Normal,
        request_cancelled(s).current_response.len() == 0,
{
    let body = s.messages.drop_last();
    assert(body =~= earlier.push(generating_message()));
    assert(body.drop_last() =~= earlier);
}

/// A reply that ends without any text leaves no trace of the wait: both
/// placeholders are gone and the interface is in normal mode again.
pub proof fn lemma_empty_reply_discards_placeholders(s: StateView, earlier: Seq<MessageView>)
    requires
        s.input_mode == InputMode::Waiting,
        s.messages == earlier.push(generating_message()).push(
            assistant_message(Seq::empty()),
        ),
    ensures
        response_dropped(s).messages == earlier,
        response_dropped(s).input_mode == InputMode::Normal,
        response_dropped(s).current_response.len() == 0,
        state_inv(response_dropped(s)),
{
    let body = s.messages.drop_last();
    assert(body =~= earlier.push(generating_message()));
    assert(body.drop_last() =~= earlier);
}

/// Pieces of a reply are applied in the order of their arrival and joined,
/// nothing more: two pieces one after the other leave the state that the two
/// joined leave.
pub proof fn lemma_pieces_are_appended(s: StateView, first: Seq<char>, second: Seq<char>)
    ensures
        response_updated(response_updated(s, first), second) == response_updated(
            s,
            first + second,
        ),
{
    if s.input_mode == InputMode::Waiting {
        let once = response_updated(s, first);
        assert((s.current_response + first) + second =~= s.current_response + (first + second));
        assert(with_streamed(once.messages, once.current_response + second) =~= with_streamed(
            s.messages,
            s.current_response + (first + second),
        ));
    }
}

impl State {
    /// Creates the state that the interface starts in.
    #[must_use]
    pub fn new() -> (state: Self)
        ensures
            state@ == initial_state(),
            state_inv(state@),
    {
        let mut list_state = ListState::default();
        list_state.select(Some(0));
        let state = State {
            current_response: String::new(),
            horizontal_scroll_state: ScrollbarState::default(),
            horizontal_scroll: 0,
            input: String::new(),
            input_mode: InputMode::Normal,
            input_width: 0,
            list_state,
            messages: Vec::new(),
            show_toggle: false,
            spinner: Spinner::new(),
            vertical_scroll_state: ScrollbarState::default(),
            quit: false,
        };
        assert(state@.messages =~= Seq::empty());
        state
    }

    /// Scrolls the message list up by one item.
    pub fn scroll_up(&mut self)
        ensures
            final(self)@ == scrolled_up(old(self)@),
            state_inv(old(self)@) ==> state_inv(final(self)@),
    {
        let current = match self.list_state.selected() {
            Some(i) => i,
            None => 0,
        };
        let next = current.saturating_sub(1);
        self.list_state.select(Some(next));
        self.vertical_scroll_state = self.vertical_scroll_state.position(next);
    }

    /// Scrolls the message list down by one item.
    pub fn scroll_down(&mut self)
        ensures
            final(self)@ == scrolled_down(old(self)@),
            state_inv(old(self)@) ==> state_inv(final(self)@),
    {
        let current = match self.list_state.selected() {
            Some(i) => i,
            None => 0,
        };
        let last = self.messages.len().saturating_sub(1);
        let next = if current < last {
            current + 1
        } else {
            last
        };
        self.list_state.select(Some(next));
        self.vertical_scroll_state = self.vertical_scroll_state.position(next);
    }

    /// Updates the current response with new content.
    pub fn update_response(&mut self, new_content: &str)
        ensures
            final(self)@ == response_updated(old(self)@, new_content@),
            state_inv(old(self)@) ==> state_inv(final(self)@),
    {
        if self.input_mode == InputMode::Waiting {
            self.current_response.push_str(new_content);
            let ghost before = message_views(self.messages@);
            let streamed = self.current_response.clone();
            let trailing = self.messages.len() > 0 && text_is(
                &self.messages[self.messages.len() - 1].0,
                "assistant",
            );
            if trailing {
                let last = self.messages.pop();
                match last {
                    Some(message) => {
                        self.messages.push((message.0, streamed));
                    },
                    None => {},
                }
            } else {
                self.messages.push(("assistant".to_owned(), streamed));
            }
            assert(message_views(self.messages@) =~= with_streamed(
                before,
                self.current_response@,
            ));
            let last = self.messages.len() - 1;
            let at_bottom = match self.list_state.selected() {
                Some(i) => i == last,
                None => false,
            };
            if at_bottom {
                self.list_state.select(Some(last));
                self.vertical_scroll_state = self.vertical_scroll_state.position(last);
            }
        }
    }

    /// Adds a complete response to the message list.
    pub fn add_response(&mut self, response: String)
        ensures
            final(self)@ == response_added(old(self)@, response@),
            state_inv(final(self)@),
    {
        let ghost before = message_views(self.messages@);
        if self.input_mode == InputMode::Waiting {
            self.messages.pop();
            assert(message_views(self.messages@) =~= if before.len() > 0 {
                before.drop_last()
            } else {
                before
            });
            let generating = self.messages.len() > 0 && text_is(
                &self.messages[self.messages.len() - 1].0,
                "system",
            ) && text_is(&self.messages[self.messages.len() - 1].1, "Generating...");
            if generating {
                self.messages.pop();
            }
            assert(message_views(self.messages@) =~= without_placeholders(before));
        }
        let ghost kept = message_views(self.messages@);
        self.messages.push(("assistant".to_owned(), response));
        assert(message_views(self.messages@) =~= kept.push(assistant_message(response@)));
        self.input_mode = InputMode::Normal;
        self.current_response = String::new();
        let last = self.messages.len() - 1;
        self.list_state.select(Some(last));
        self.vertical_scroll_state = self.vertical_scroll_state.position(last);
        self.horizontal_scroll = 0;
        self.horizontal_scroll_state = ScrollbarState::default();
    }

    /// Puts the selection on a message where it pointed behind the last
    /// one.
    pub fn clamp_selection(&mut self)
        ensures
            final(self)@ == selection_clamped(old(self)@),
    {
        let last = self.messages.len().saturating_sub(1);
        match self.list_state.selected() {
            Some(i) => {
                if i > last {
                    self.list_state.select(Some(last));
                    self.vertical_scroll_state = self.vertical_scroll_state.position(last);
                }
            },
            None => {},
        }
    }

    /// Ends the wait for a reply that brought no text: the placeholders
    /// are discarded and the mode is normal again.
    pub fn drop_response(&mut self)
        ensures
            final(self)@ == response_dropped(old(self)@),
            state_inv(final(self)@),
    {
        let ghost before = message_views(self.messages@);
        if self.input_mode == InputMode::Waiting {
            self.messages.pop();
            assert(message_views(self.messages@) =~= if before.len() > 0 {
                before.drop_last()
            } else {
                before
            });
            let generating = self.messages.len() > 0 && text_is(
                &self.messages[self.messages.len() - 1].0,
                "system",
            ) && text_is(&self.messages[self.messages.len() - 1].1, "Generating...");
            if generating {
                self.messages.pop();
            }
            assert(message_views(self.messages@) =~= without_placeholders(before));
        }
        self.input_mode = InputMode::Normal;
        self.current_response = String::new();
        self.clamp_selection();
    }

    /// Shows that the request was cancelled: the placeholders of the wait
    /// are discarded, what has arrived of a reply stays, and the notice
    /// "Request cancelled" is added as a system message and selected.
    pub fn cancel_response(&mut self)
        ensures
            final(self)@ == request_cancelled(old(self)@),
            state_inv(final(self)@),
    {
        let ghost before = message_views(self.messages@);
        let open = self.messages.len() > 0 && text_is(
            &self.messages[self.messages.len() - 1].0,
            "assistant",
        );
        let mut arrived: Option<(String, String)> = None;
        if open {
            arrived = self.messages.pop();
        }
        assert(message_views(self.messages@) =~= if open {
            before.drop_last()
        } else {
            before
        });
        let generating = self.messages.len() > 0 && text_is(
            &self.messages[self.messages.len() - 1].0,
            "system",
        ) && text_is(&self.messages[self.messages.len() - 1].1, "Generating...");
        if generating {
            self.messages.pop();
        }
        let ghost cleared = message_views(self.messages@);
        match arrived {
            Some(message) => {
                if !message.1.as_str().is_empty() {
                    assert((message.0@, message.1@) == before.last());
                    self.messages.push(message);
                    assert(message_views(self.messages@) =~= cleared.push(before.last()));
                }
            },
            None => {},
        }
        assert(message_views(self.messages@) =~= without_waiting_marks(before));
        let ghost kept = message_views(self.messages@);
        self.messages.push(("system".to_owned(), "Request cancelled".to_owned()));
        assert(message_views(self.messages@) =~= kept.push(cancelled_notice()));
        self.input_mode = InputMode::Normal;
        self.current_response = String::new();
        let last = self.messages.len() - 1;
        self.list_state.select(Some(last));
        self.vertical_scroll_state = self.vertical_scroll_state.position(last);
        self.horizontal_scroll = 0;
        self.horizontal_scroll_state = ScrollbarState::default();
    }

    /// Prepares the UI state for a new response.
    pub fn start_new_response(&mut self)
        ensures
            final(self)@ == response_started(old(self)@),
            state_inv(old(self)@) ==> state_inv(final(self)@),
    {
        self.input_mode = InputMode::Waiting;
        self.current_response = String::new();
        self.messages.push(("assistant".to_owned(), String::new()));
        assert(message_views(self.messages@) =~= message_views(old(self).messages@).push(
            assistant_message(Seq::empty()),
        ));
        assert(self@.messages.last() == assistant_message(Seq::empty()));
        assert(self.messages.len() == self.messages@.len());
    }
}

impl Default for State {
    fn default() -> (state: Self)
        ensures
            state@ == initial_state(),
    {
        State::new()
    }
}

} // verus!
