use vstd::prelude::*;

use crate::event::Event;

verus! {

/// A request to alter the GUI state; the preferred means of changing it.
#[derive(Clone, Debug, PartialEq, Eq)]
pub enum Command {
    /// Redraw the current frame.
    Redraw,
    /// The viewport has a new size in pixels.
    Resized { width: u32, height: u32 },
    /// A file was dropped onto the GUI.
    DroppedFile { path: String },
    /// A file is hovered over the GUI.
    HoveredFile { path: String },
    /// Revert any hovered file state.
    HoveredFileCanceled,
    /// The scale factor of GUI elements changed; it is a fraction in parts of
    /// `FRACTION_ONE`.
    ScaleFactorChanged { scale_factor: u32 },
    /// The cursor moved, in physical coordinates.
    CursorMoved { x: u32, y: u32 },
    /// A mouse button changed state.
    MouseButton { button: u16, pressed: bool },
    /// Remove every widget of this label from the widget list.
    RemoveWidget { label: String },
}

impl Command {
    /// The event that a command hands on to widgets: the pointer and file
    /// commands carry over field for field; the others have none.
    pub open spec fn spec_event(self) -> Option<Event> {
        match self {
            Command::DroppedFile { path } => Some(Event::DroppedFile { path }),
            Command::HoveredFile { path } => Some(Event::HoveredFile { path }),
            Command::HoveredFileCanceled => Some(Event::HoveredFileCanceled),
            Command::CursorMoved { x, y } => Some(Event::CursorMoved { x, y }),
            Command::MouseButton { button, pressed } => Some(Event::MouseButton { button, pressed }),
            _ => None,
        }
    }

    /// The event for this command, if it has one.
    pub fn to_event(&self) -> (r: Option<Event>)
        ensures
            r == self.spec_event(),
    {
        match self {
            Command::DroppedFile { path } => Some(Event::DroppedFile { path: path.clone() }),
            Command::HoveredFile { path } => Some(Event::HoveredFile { path: path.clone() }),
            Command::HoveredFileCanceled => Some(Event::HoveredFileCanceled),
            Command::CursorMoved { x, y } => Some(Event::CursorMoved { x: *x, y: *y }),
            Command::MouseButton { button, pressed } => Some(
                Event::MouseButton { button: *button, pressed: *pressed },
            ),
            _ => None,
        }
    }
}

} // verus!
