//! Keys as the terminal delivers them, and the navigation events they
//! stand for.

use vstd::prelude::*;

verus! {

/// One key press.
#[derive(Clone, Copy, PartialEq, Eq, Debug, Structural)]
pub enum Key {
    ArrowUp,
    ArrowDown,
    ArrowLeft,
    ArrowRight,
    Enter,
    Escape,
    Backspace,
    /// A character key.
    Char(char),
    /// Any key the menu has no use for.
    Other,
}

/// What a key press asks of the menu.
#[derive(Clone, Copy, PartialEq, Eq, Debug, Structural)]
pub enum Event {
    /// Move the selection one option up.
    Up,
    /// Move the selection one option down.
    Down,
    /// Show the previous page.
    Left,
    /// Show the next page.
    Right,
    /// Run the selected option.
    Confirm,
    /// Leave the menu.
    Exit,
    /// Nothing.
    Other,
}

impl Key {
    /// The event bound to this key: the arrows and `k j h l` move, `b` and
    /// `w` turn pages like left and right, enter confirms, and escape, `q`
    /// and backspace leave.
    pub open spec fn event_spec(self) -> Event {
        match self {
            Key::ArrowUp => Event::Up,
            Key::ArrowDown => Event::Down,
            Key::ArrowLeft => Event::Left,
            Key::ArrowRight => Event::Right,
            Key::Enter => Event::Confirm,
            Key::Escape => Event::Exit,
            Key::Backspace => Event::Exit,
            Key::Char(c) => if c == 'k' {
                Event::Up
            } else if c == 'j' {
                Event::Down
            } else if c == 'h' || c == 'b' {
                Event::Left
            } else if c == 'l' || c == 'w' {
                Event::Right
            } else if c == 'q' {
                Event::Exit
            } else {
                Event::Other
            },
            Key::Other => Event::Other,
        }
    }

    /// Classifies a key press.
    pub fn event(&self) -> (event: Event)
        ensures
            event == self.event_spec(),
    {
        match *self {
            Key::ArrowUp => Event::Up,
            Key::ArrowDown => Event::Down,
            Key::ArrowLeft => Event::Left,
            Key::ArrowRight => Event::Right,
            Key::Enter => Event::Confirm,
            Key::Escape => Event::Exit,
            Key::Backspace => Event::Exit,
            Key::Char(c) => {
                if c == 'k' {
                    Event::Up
                } else if c == 'j' {
                    Event::Down
                } else if c == 'h' || c == 'b' {
                    Event::Left
                } else if c == 'l' || c == 'w' {
                    Event::Right
                } else if c == 'q' {
                    Event::Exit
                } else {
                    Event::Other
                }
            },
            Key::Other => Event::Other,
        }
    }
}

} // verus!
