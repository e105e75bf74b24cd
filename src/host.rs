use vstd::prelude::*;

use crate::command::Command;
use crate::container::Container;
use crate::event::Event;

verus! {

/// A mouse button as the windowing system names it.
#[derive(Clone, Copy, Debug, PartialEq, Eq, Structural)]
pub enum MouseButton {
    Left,
    Right,
    Middle,
    Other(u16),
}

/// Whether a button went down or up.
#[derive(Clone, Copy, Debug, PartialEq, Eq, Structural)]
pub enum ElementState {
    Pressed,
    Released,
}

/// The vocabulary the windowing system delivers, in plain values.
#[derive(Clone, Debug, PartialEq, Eq)]
pub enum HostEvent {
    Resized { width: u32, height: u32 },
    /// The scale factor, a fraction in parts of `FRACTION_ONE`.
    ScaleFactorChanged { scale_factor: u32 },
    /// The cursor position in physical pixels.
    CursorMoved { x: u32, y: u32 },
    MouseInput { state: ElementState, button: MouseButton },
    DroppedFile { path: String },
    HoveredFile { path: String },
    HoveredFileCancelled,
    RedrawRequested,
    CloseRequested,
    /// Any event the GUI does not use.
    Other,
}

/// The number of a mouse button: left 0, right 1, middle 2, any other its
/// own number.
pub open spec fn spec_button_code(button: MouseButton) -> u16 {
    match button {
        MouseButton::Left => 0,
        MouseButton::Right => 1,
        MouseButton::Middle => 2,
        MouseButton::Other(n) => n,
    }
}

/// The event a host event becomes for containers, if any: file drops and
/// hovers, cursor moves and mouse buttons.
pub open spec fn spec_event_of(event: HostEvent) -> Option<Event> {
    match event {
        HostEvent::DroppedFile { path } => Some(Event::DroppedFile { path }),
        HostEvent::HoveredFile { path } => Some(Event::HoveredFile { path }),
        HostEvent::HoveredFileCancelled => Some(Event::HoveredFileCanceled),
        HostEvent::CursorMoved { x, y } => Some(Event::CursorMoved { x, y }),
        HostEvent::MouseInput { state, button } => Some(
            Event::MouseButton { button: spec_button_code(button), pressed: state == ElementState::Pressed },
        ),
        _ => None,
    }
}

/// The command a host event becomes for an instance, if any: every event
/// of the vocabulary but closing and the unused ones.
pub open spec fn spec_command_of(event: HostEvent) -> Option<Command> {
    match event {
        HostEvent::Resized { width, height } => Some(Command::Resized { width, height }),
        HostEvent::ScaleFactorChanged { scale_factor } => Some(Command::ScaleFactorChanged { scale_factor }),
        HostEvent::CursorMoved { x, y } => Some(Command::CursorMoved { x, y }),
        HostEvent::MouseInput { state, button } => Some(
            Command::MouseButton { button: spec_button_code(button), pressed: state == ElementState::Pressed },
        ),
        HostEvent::DroppedFile { path } => Some(Command::DroppedFile { path }),
        HostEvent::HoveredFile { path } => Some(Command::HoveredFile { path }),
        HostEvent::HoveredFileCancelled => Some(Command::HoveredFileCanceled),
        HostEvent::RedrawRequested => Some(Command::Redraw),
        _ => None,
    }
}

/// The number of a mouse button.
pub fn button_code(button: MouseButton) -> (r: u16)
    ensures
        r == spec_button_code(button),
{
    match button {
        MouseButton::Left => 0,
        MouseButton::Right => 1,
        MouseButton::Middle => 2,
        MouseButton::Other(n) => n,
    }
}

fn is_pressed(state: ElementState) -> (r: bool)
    ensures
        r == (state == ElementState::Pressed),
{
    match state {
        ElementState::Pressed => true,
        ElementState::Released => false,
    }
}

/// Translates host window events into the GUI's events and commands.
#[derive(Debug)]
pub struct EventHandler;

impl EventHandler {
    pub fn new() -> (r: EventHandler) {
        EventHandler
    }

    /// The event a host event becomes for containers, if any.
    pub fn event_of(&self, event: &HostEvent) -> (r: Option<Event>)
        ensures
            r == spec_event_of(*event),
    {
        match event {
            HostEvent::DroppedFile { path } => Some(Event::DroppedFile { path: path.clone() }),
            HostEvent::HoveredFile { path } => Some(Event::HoveredFile { path: path.clone() }),
            HostEvent::HoveredFileCancelled => Some(Event::HoveredFileCanceled),
            HostEvent::CursorMoved { x, y } => Some(Event::CursorMoved { x: *x, y: *y }),
            HostEvent::MouseInput { state, button } => Some(
                Event::MouseButton { button: button_code(*button), pressed: is_pressed(*state) },
            ),
            _ => None,
        }
    }

    /// The command a host event becomes for an instance, if any.
    pub fn command_of(&self, event: &HostEvent) -> (r: Option<Command>)
        ensures
            r == spec_command_of(*event),
    {
        match event {
            HostEvent::Resized { width, height } => Some(Command::Resized { width: *width, height: *height }),
            HostEvent::ScaleFactorChanged { scale_factor } => Some(
                Command::ScaleFactorChanged { scale_factor: *scale_factor },
            ),
            HostEvent::CursorMoved { x, y } => Some(Command::CursorMoved { x: *x, y: *y }),
            HostEvent::MouseInput { state, button } => Some(
                Command::MouseButton { button: button_code(*button), pressed: is_pressed(*state) },
            ),
            HostEvent::DroppedFile { path } => Some(Command::DroppedFile { path: path.clone() }),
            HostEvent::HoveredFile { path } => Some(Command::HoveredFile { path: path.clone() }),
            HostEvent::HoveredFileCancelled => Some(Command::HoveredFileCanceled),
            HostEvent::RedrawRequested => Some(Command::Redraw),
            _ => None,
        }
    }

    /// Hands the event that a host event becomes to every container, in
    /// order; host events without one are ignored.
    pub fn process_event(&mut self, gui: &mut Vec<Container>, event: &HostEvent)
        ensures
            final(gui)@ == old(gui)@,
    {
        let mut i: usize = 0;
        while i < gui.len()
            invariant
                i <= gui@.len(),
                gui@ == old(gui)@,
            decreases gui@.len() - i,
        {
            match self.event_of(event) {
                Some(e) => gui[i].process_event(e),
                None => {},
            }
            i += 1;
        }
    }
}

} // verus!
