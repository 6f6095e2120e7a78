//! What an input event means for the run: a tap, the end of the run, or
//! nothing.

use vstd::prelude::*;

verus! {

/// The key of a key event, as far as it matters here.
#[derive(Clone, Copy, Debug, PartialEq, Eq)]
pub enum Key {
    /// The escape key.
    Esc,
    /// A key that stands for a character.
    Char(char),
    /// Any other key.
    Other,
}

/// An event from the keyboard or the mouse.
#[derive(Clone, Copy, Debug, PartialEq, Eq)]
pub enum InputEvent {
    /// A key event, with whether the control key was held.
    Key { code: Key, control: bool },
    /// A mouse button went down.
    MouseDown,
    /// Anything else: the mouse moved, a button went up, the window was
    /// resized.
    Other,
}

/// What the run does on an event.
#[derive(Clone, Copy, Debug, PartialEq, Eq)]
pub enum Action {
    /// Count the event as a tap.
    Tap,
    /// End the run.
    Quit,
    /// Wait for the next event.
    Ignore,
}

impl InputEvent {
    /// Whether the event ends the run: the escape key, or `c` with the
    /// control key held.
    pub open spec fn quits(self) -> bool {
        match self {
            InputEvent::Key { code, control } => code == Key::Esc || (code == Key::Char('c')
                && control),
            _ => false,
        }
    }

    /// Whether the event is a tap: a mouse button going down, or any key
    /// event that does not end the run.
    pub open spec fn taps(self) -> bool {
        match self {
            InputEvent::Key { .. } => !self.quits(),
            InputEvent::MouseDown => true,
            InputEvent::Other => false,
        }
    }

    /// What the run does on this event.
    pub fn action(&self) -> (action: Action)
        ensures
            action == Action::Quit <==> self.quits(),
            action == Action::Tap <==> self.taps(),
            action == Action::Ignore <==> !self.quits() && !self.taps(),
    {
        match self {
            InputEvent::Key { code, control } => match code {
                Key::Esc => Action::Quit,
                Key::Char(c) => if *c == 'c' && *control {
                    Action::Quit
                } else {
                    Action::Tap
                },
                Key::Other => Action::Tap,
            },
            InputEvent::MouseDown => Action::Tap,
            InputEvent::Other => Action::Ignore,
        }
    }
}

} // verus!
