//! What a desktop window does with the events of its mouse pointer: which of
//! them it hands on to the application, and what it remembers in between.
//!
//! The window system is not part of this library. Whoever runs its event
//! loop feeds each event to a [`PointerTracker`] and carries out the
//! [`PointerAction`] that it gets back.

use vstd::prelude::*;

verus! {

/// A position in a window, in pixels from its top-left corner.
#[derive(Clone, Copy, Debug, PartialEq, Eq, Structural)]
pub struct PixelPosition {
    pub x: i32,
    pub y: i32,
}

/// A button of the pointer, as the window system names it.
#[derive(Clone, Copy, Debug, PartialEq, Eq, Structural)]
pub enum PointerButton {
    Left,
    Right,
    Middle,
    Other(u8),
}

impl PointerButton {
    /// The number under which the application knows the button: 0 for the
    /// left, primary, button, 1 for the right one, 2 for the middle one, and
    /// its own number for any other.
    pub open spec fn number(self) -> u8 {
        match self {
            PointerButton::Left => 0,
            PointerButton::Right => 1,
            PointerButton::Middle => 2,
            PointerButton::Other(id) => id,
        }
    }

    /// Computes [`Self::number`].
    pub fn get_number(&self) -> (number: u8)
        ensures
            number == self.number(),
    {
        match *self {
            PointerButton::Left => 0,
            PointerButton::Right => 1,
            PointerButton::Middle => 2,
            PointerButton::Other(id) => id,
        }
    }
}

/// What the window system reports about the pointer.
#[derive(Clone, Copy, Debug, PartialEq, Eq, Structural)]
pub enum PointerEvent {
    /// The pointer is now at `position`, in a window of the given size.
    Moved { position: PixelPosition, width: u32, height: u32 },
    /// The pointer has come into the window.
    Entered,
    /// The pointer has left the window.
    Left,
    /// A button was let go.
    Released { button: PointerButton },
}

/// What the application is to be told.
#[derive(Clone, Copy, Debug, PartialEq, Eq, Structural)]
pub enum PointerAction {
    /// Nothing.
    Nothing,
    /// The button with this number was clicked at `position`.
    Click { position: PixelPosition, button: u8 },
    /// The pointer moved from `from` to `to`.
    Move { from: PixelPosition, to: PixelPosition },
    /// The pointer came into the window at `position`.
    Enter { position: PixelPosition },
    /// The pointer left the window; it was last seen at `position`.
    Leave { position: PixelPosition },
}

/// The position lies in a window of the given size.
pub open spec fn in_window(position: PixelPosition, width: u32, height: u32) -> bool {
    0 <= position.x < width && 0 <= position.y < height
}

/// What a window remembers about its pointer between two events.
#[derive(Clone, Copy, Debug, PartialEq, Eq, Structural)]
pub struct PointerTracker {
    /// Where the pointer was last seen inside the window, unless it has left
    /// since or was never seen.
    pub position: Option<PixelPosition>,
    /// Whether the pointer came into the window and was not yet seen at any
    /// position inside it.
    pub awaits_entry: bool,
}

impl PointerTracker {
    /// The tracker as it is after `event`.
    ///
    /// A move to a position outside the window changes nothing. Any other
    /// move makes its position the one last seen, and ends the wait for an
    /// entry if the pointer was not seen before. Coming in starts that wait,
    /// and leaving forgets the position.
    pub open spec fn after(self, event: PointerEvent) -> PointerTracker {
        match event {
            PointerEvent::Moved { position, width, height } => {
                if !in_window(position, width, height) {
                    self
                } else {
                    PointerTracker {
                        position: Some(position),
                        awaits_entry: self.awaits_entry && self.position.is_some(),
                    }
                }
            },
            PointerEvent::Entered => PointerTracker { awaits_entry: true, ..self },
            PointerEvent::Left => PointerTracker { position: None, ..self },
            PointerEvent::Released { button } => self,
        }
    }

    /// What the application is told on `event`.
    ///
    /// A release is a click where the pointer was last seen, if it was seen.
    /// A move inside the window is reported as a move if the pointer was
    /// seen before, at another position; as an entry if it was not seen
    /// before and an entry is awaited. Leaving is reported if the pointer
    /// was seen. Nothing else is reported.
    pub open spec fn action_on(self, event: PointerEvent) -> PointerAction {
        match event {
            PointerEvent::Moved { position, width, height } => {
                if !in_window(position, width, height) {
                    PointerAction::Nothing
                } else {
                    match self.position {
                        Some(previous) => {
                            if previous != position {
                                PointerAction::Move { from: previous, to: position }
                            } else {
                                PointerAction::Nothing
                            }
                        },
                        None => {
                            if self.awaits_entry {
                                PointerAction::Enter { position }
                            } else {
                                PointerAction::Nothing
                            }
                        },
                    }
                }
            },
            PointerEvent::Entered => PointerAction::Nothing,
            PointerEvent::Left => match self.position {
                Some(previous) => PointerAction::Leave { position: previous },
                None => PointerAction::Nothing,
            },
            PointerEvent::Released { button } => match self.position {
                Some(position) => PointerAction::Click { position, button: button.number() },
                None => PointerAction::Nothing,
            },
        }
    }

    /// The tracker of a window that has not seen its pointer yet.
    pub fn new() -> (tracker: PointerTracker)
        ensures
            tracker.position.is_none(),
            !tracker.awaits_entry,
    {
        PointerTracker { position: None, awaits_entry: false }
    }

    /// Takes note of `event` and tells what the application is to be told.
    pub fn handle(&mut self, event: PointerEvent) -> (action: PointerAction)
        ensures
            *final(self) == old(self).after(event),
            action == old(self).action_on(event),
    {
        match event {
            PointerEvent::Moved { position, width, height } => {
                if position.x < 0 || position.y < 0 || position.x as i64 >= width as i64
                    || position.y as i64 >= height as i64 {
                    return PointerAction::Nothing;
                }
                let action = match self.position {
                    Some(previous) => {
                        if previous.x != position.x || previous.y != position.y {
                            PointerAction::Move { from: previous, to: position }
                        } else {
                            PointerAction::Nothing
                        }
                    },
                    None => {
                        if self.awaits_entry {
                            self.awaits_entry = false;
                            PointerAction::Enter { position }
                        } else {
                            PointerAction::Nothing
                        }
                    },
                };
                self.position = Some(position);
                action
            },
            PointerEvent::Entered => {
                self.awaits_entry = true;
                PointerAction::Nothing
            },
            PointerEvent::Left => {
                let action = match self.position {
                    Some(previous) => PointerAction::Leave { position: previous },
                    None => PointerAction::Nothing,
                };
                self.position = None;
                action
            },
            PointerEvent::Released { button } => match self.position {
                Some(position) => PointerAction::Click { position, button: button.get_number() },
                None => PointerAction::Nothing,
            },
        }
    }
}

/// The shortest time, in milliseconds, from the start of one frame to the
/// start of the next.
pub const FRAME_MILLIS: u64 = 16;

/// How long to wait before the next frame, `elapsed` milliseconds after the
/// last one started: the rest of the frame time, if any is left.
pub open spec fn frame_wait(elapsed: u128) -> Option<u64> {
    if elapsed < FRAME_MILLIS as u128 {
        Some((FRAME_MILLIS - elapsed) as u64)
    } else {
        None
    }
}

/// Computes [`frame_wait`].
pub fn wait_before_frame(elapsed: u128) -> (wait: Option<u64>)
    ensures
        wait == frame_wait(elapsed),
{
    if elapsed < FRAME_MILLIS as u128 {
        Some(FRAME_MILLIS - elapsed as u64)
    } else {
        None
    }
}

} // verus!
