//! One turn of the conversation: what the interface does with each thing
//! that happens while a reply arrives.

use vstd::prelude::*;

use crate::error::{display_text, Application, ApplicationView};
use crate::ui::chat::{cancels, Interface};
use crate::ui::input_handler::KeyCode;
use crate::ui::state::{
    request_cancelled, response_added, response_dropped, response_updated, state_inv, Action,
    StateView,
};

verus! {

/// What can happen while a reply arrives.
#[derive(Debug)]
pub enum TurnEvent {
    /// A piece of the reply arrived.
    Delta(String),
    /// The request failed.
    Failure(Application),
    /// The source of the reply is exhausted.
    Closed,
    /// Nothing arrived for a while.
    Tick,
}

/// A turn event as the contracts see it.
pub enum TurnEventView {
    Delta(Seq<char>),
    Failure(ApplicationView),
    Closed,
    Tick,
}

impl View for TurnEvent {
    type V = TurnEventView;

    open spec fn view(&self) -> TurnEventView {
        match self {
            TurnEvent::Delta(text) => TurnEventView::Delta(text@),
            TurnEvent::Failure(error) => TurnEventView::Failure(error@),
            TurnEvent::Closed => TurnEventView::Closed,
            TurnEvent::Tick => TurnEventView::Tick,
        }
    }
}

/// What the caller does next.
#[derive(Debug, PartialEq, Eq, Clone, Copy, Structural)]
pub enum Next {
    /// Redraw, poll the keyboard and report the key with `polled`.
    Poll,
    /// Wait for the next event.
    Wait,
    /// The turn is over.
    End,
    /// The turn is over because the request failed: pause before going on.
    EndAfterError,
}

/// How far the request of a turn has come.
#[derive(Debug, PartialEq, Eq, Clone, Copy, Structural)]
pub enum Phase {
    /// The request is sent and nothing has arrived yet.
    Sent,
    /// At least one piece of the reply has arrived.
    Streaming,
    /// The reply is complete.
    Done,
    /// The user cancelled the request.
    Cancelled,
    /// The request failed.
    Failed,
}

/// Whether a turn in `phase` is over.
pub open spec fn is_over(phase: Phase) -> bool {
    phase == Phase::Done || phase == Phase::Cancelled || phase == Phase::Failed
}

/// The state of one turn.
#[derive(Debug)]
pub struct Turn {
    full_response: String,
    phase: Phase,
}

/// A turn as the contracts see it.
pub struct TurnView {
    /// The pieces of the reply so far, joined.
    pub full_response: Seq<char>,
    /// How far the request has come.
    pub phase: Phase,
}

impl View for Turn {
    type V = TurnView;

    closed spec fn view(&self) -> TurnView {
        TurnView { full_response: self.full_response@, phase: self.phase }
    }
}

/// What the user is told of a failed request.
pub open spec fn error_report(error: ApplicationView, log_path: Seq<char>) -> Seq<char> {
    "Error: "@ + display_text(error) + ", For more details, please check the log file at: "@
        + log_path
}

/// The turn after `event`. A turn that is over stays as it is.
pub open spec fn turn_received(t: TurnView, event: TurnEventView) -> TurnView {
    if is_over(t.phase) {
        t
    } else {
        match event {
            TurnEventView::Delta(text) => TurnView {
                full_response: t.full_response + text,
                phase: Phase::Streaming,
            },
            TurnEventView::Failure(_) => TurnView { phase: Phase::Failed, ..t },
            TurnEventView::Closed => TurnView { phase: Phase::Done, ..t },
            TurnEventView::Tick => t,
        }
    }
}

/// The interface after `event`: a piece of the reply is shown as it
/// arrives; a failure is reported in place of the reply; when the source is
/// exhausted the whole reply takes the place of the placeholders, which are
/// discarded where the reply is empty. Once the turn is over nothing changes
/// any more.
pub open spec fn ui_received(
    t: TurnView,
    s: StateView,
    event: TurnEventView,
    log_path: Seq<char>,
) -> StateView {
    if is_over(t.phase) {
        s
    } else {
        match event {
            TurnEventView::Delta(text) => response_updated(s, text),
            TurnEventView::Failure(error) => response_added(s, error_report(error, log_path)),
            TurnEventView::Closed => if t.full_response.len() > 0 {
                response_added(s, t.full_response)
            } else {
                response_dropped(s)
            },
            TurnEventView::Tick => s,
        }
    }
}

/// What the caller does after `event`.
pub open spec fn next_received(t: TurnView, event: TurnEventView) -> Next {
    if is_over(t.phase) {
        Next::End
    } else {
        match event {
            TurnEventView::Delta(_) => Next::Poll,
            TurnEventView::Failure(_) => Next::EndAfterError,
            TurnEventView::Closed => Next::End,
            TurnEventView::Tick => Next::Poll,
        }
    }
}

/// Once a turn is over, whether complete, cancelled or failed, nothing
/// that arrives afterwards changes the turn or the interface.
pub proof fn lemma_nothing_is_applied_after_the_end(
    t: TurnView,
    s: StateView,
    event: TurnEventView,
    log_path: Seq<char>,
)
    requires
        is_over(t.phase),
    ensures
        turn_received(t, event) == t,
        ui_received(t, s, event, log_path) == s,
        next_received(t, event) == Next::End,
{
}

impl Turn {
    /// The turn of a request that was just sent.
    pub fn new() -> (turn: Self)
        ensures
            turn@ == (TurnView { full_response: Seq::empty(), phase: Phase::Sent }),
    {
        Turn { full_response: String::new(), phase: Phase::Sent }
    }

    /// How far the request has come.
    pub fn phase(&self) -> (phase: Phase)
        ensures
            phase == self@.phase,
    {
        self.phase
    }

    /// Whether the turn is over: the reply is complete, or the request was
    /// cancelled or failed.
    pub fn has_ended(&self) -> (ended: bool)
        ensures
            ended == is_over(self@.phase),
    {
        match self.phase {
            Phase::Done => true,
            Phase::Cancelled => true,
            Phase::Failed => true,
            _ => false,
        }
    }

    /// Applies `event` to the interface. `log_path` is where the log file
    /// lies; it is named in the report of a failure.
    pub fn receive(&mut self, ui: &mut Interface, event: TurnEvent, log_path: &str) -> (next: Next)
        ensures
            final(self)@ == turn_received(old(self)@, event@),
            final(ui)@ == ui_received(old(self)@, old(ui)@, event@, log_path@),
            next == next_received(old(self)@, event@),
            state_inv(old(ui)@) ==> state_inv(final(ui)@),
    {
        if self.has_ended() {
            return Next::End;
        }
        match event {
            TurnEvent::Delta(text) => {
                self.full_response.push_str(text.as_str());
                self.phase = Phase::Streaming;
                ui.update_response(text.as_str());
                Next::Poll
            },
            TurnEvent::Failure(error) => {
                let mut report = "Error: ".to_owned();
                report.push_str(error.display_message());
                report.push_str(", For more details, please check the log file at: ");
                report.push_str(log_path);
                ui.add_response(report);
                self.phase = Phase::Failed;
                Next::EndAfterError
            },
            TurnEvent::Closed => {
                if !self.full_response.as_str().is_empty() {
                    ui.add_response(self.full_response.clone());
                } else {
                    ui.ui_state.drop_response();
                }
                self.phase = Phase::Done;
                Next::End
            },
            TurnEvent::Tick => Next::Poll,
        }
    }

    /// Decides on the key that was polled after a redraw, if any. Escape
    /// while the interface waits cancels the request: the placeholders of
    /// the wait give way to the notice of the cancellation and the turn is
    /// over. Cancelling is no failure.
    pub fn polled(&mut self, ui: &mut Interface, key: Option<KeyCode>) -> (next: Next)
        ensures
            is_over(old(self)@.phase) ==> next == Next::End && final(self)@ == old(self)@
                && final(ui)@ == old(ui)@,
            !is_over(old(self)@.phase) && cancels(old(ui)@, key) ==> next == Next::End
                && final(self)@ == (TurnView { phase: Phase::Cancelled, ..old(self)@ })
                && final(ui)@ == request_cancelled(old(ui)@),
            !is_over(old(self)@.phase) && !cancels(old(ui)@, key) ==> next == Next::Wait
                && final(self)@ == old(self)@ && final(ui)@ == old(ui)@,
            state_inv(old(ui)@) ==> state_inv(final(ui)@),
    {
        if self.has_ended() {
            return Next::End;
        }
        match ui.update(key) {
            Some(Action::CancelRequest) => {
                ui.ui_state.cancel_response();
                self.phase = Phase::Cancelled;
                Next::End
            },
            None => Next::Wait,
        }
    }
}

} // verus!
