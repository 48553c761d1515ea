//! What the controller asks its driver to do.

use vstd::prelude::*;

verus! {

/// The electrical level of an output line.
#[derive(Debug, Clone, Copy, PartialEq, Eq, Structural)]
pub enum Level {
    Low,
    High,
}

/// The level that stands for a logical state: high for on, low for off.
pub open spec fn level_of(state: bool) -> Level {
    if state {
        Level::High
    } else {
        Level::Low
    }
}

impl Level {
    /// The level that stands for a logical state.
    pub fn of(state: bool) -> (level: Level)
        ensures
            level == level_of(state),
    {
        if state {
            Level::High
        } else {
            Level::Low
        }
    }
}

/// One thing for the driver to do. Every action but `Receive` is answered
/// with whether it succeeded; `Receive` is answered with the next event of
/// the queue.
#[derive(Debug, PartialEq, Eq)]
pub enum Action {
    /// Wait for the next event.
    Receive,
    /// Subscribe to `topic`.
    Subscribe { topic: String },
    /// Publish `payload` on `topic`.
    Publish { topic: String, payload: String },
    /// Let the given time pass.
    Sleep { millis: u64 },
    /// Drive the output line `pin` to `level`.
    SetLine { pin: u8, level: Level },
}

/// An action with its texts as sequences of characters.
pub enum ActionView {
    Receive,
    Subscribe { topic: Seq<char> },
    Publish { topic: Seq<char>, payload: Seq<char> },
    Sleep { millis: u64 },
    SetLine { pin: u8, level: Level },
}

impl View for Action {
    type V = ActionView;

    open spec fn view(&self) -> ActionView {
        match *self {
            Action::Receive => ActionView::Receive,
            Action::Subscribe { topic } => ActionView::Subscribe { topic: topic@ },
            Action::Publish { topic, payload } => ActionView::Publish {
                topic: topic@,
                payload: payload@,
            },
            Action::Sleep { millis } => ActionView::Sleep { millis },
            Action::SetLine { pin, level } => ActionView::SetLine { pin, level },
        }
    }
}

/// The views of a list of actions, one for one.
pub open spec fn action_views(actions: Seq<Action>) -> Seq<ActionView> {
    actions.map_values(|a: Action| a@)
}

} // verus!
