use vstd::prelude::*;

verus! {

/// The outcome of acquiring the surface's texture for a frame.
#[derive(Clone, Copy, Debug, PartialEq, Eq, Structural)]
pub enum SurfaceStatus {
    Acquired,
    Timeout,
    Outdated,
    Lost,
    OutOfMemory,
}

/// What the frame loop does with a frame.
#[derive(Clone, Copy, Debug, PartialEq, Eq, Structural)]
pub enum FrameAction {
    /// Draw and present the frame.
    Draw,
    /// Give up this frame and try again with the next one.
    Skip,
    /// The surface cannot be drawn to any more: leave the loop.
    Stop,
}

/// The action for an acquisition outcome: a timeout or an outdated surface
/// skips the frame, any other failure stops the loop.
pub open spec fn spec_frame_action(status: SurfaceStatus) -> FrameAction {
    match status {
        SurfaceStatus::Acquired => FrameAction::Draw,
        SurfaceStatus::Timeout | SurfaceStatus::Outdated => FrameAction::Skip,
        _ => FrameAction::Stop,
    }
}

/// Decides what to do with a frame from how its acquisition went.
pub fn frame_action(status: SurfaceStatus) -> (r: FrameAction)
    ensures
        r == spec_frame_action(status),
{
    match status {
        SurfaceStatus::Acquired => FrameAction::Draw,
        SurfaceStatus::Timeout => FrameAction::Skip,
        SurfaceStatus::Outdated => FrameAction::Skip,
        SurfaceStatus::Lost => FrameAction::Stop,
        SurfaceStatus::OutOfMemory => FrameAction::Stop,
    }
}

} // verus!
