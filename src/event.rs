use vstd::prelude::*;

verus! {

/// An occurrence that crosses the GUI boundary toward widgets and, from
/// them, toward the application.
#[derive(Clone, Debug, PartialEq, Eq)]
pub enum Event {
    /// A file was dropped onto the GUI.
    DroppedFile { path: String },
    /// A file is hovered over the GUI.
    HoveredFile { path: String },
    /// Any hovered file state is reverted.
    HoveredFileCanceled,
    /// The cursor moved, in physical coordinates.
    CursorMoved { x: u32, y: u32 },
    /// A mouse button changed state.
    MouseButton { button: u16, pressed: bool },
}

} // verus!
