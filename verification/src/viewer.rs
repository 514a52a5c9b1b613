//! Frame navigation of a viewer: which frame is shown after a key press.

use vstd::prelude::*;

verus! {

/// What the user asks of the viewer.
#[derive(Debug, Clone, Copy, PartialEq, Eq, Structural)]
pub enum Message {
    NextFrame,
    PrevFrame,
}

/// The index shown after `message`, where frame `current` of `frames` is
/// shown now: one further or one back, but never before the first frame
/// nor past the last.
pub open spec fn navigate_spec(current: usize, frames: usize, message: Message) -> usize {
    match message {
        Message::PrevFrame => if frames == 0 || current == 0 {
            current
        } else {
            (current - 1) as usize
        },
        Message::NextFrame => if frames == 0 || current >= frames - 1 {
            current
        } else {
            (current + 1) as usize
        },
    }
}

/// The index of the frame to show after `message`. An index within the
/// frames stays within them.
pub fn navigate(current: usize, frames: usize, message: Message) -> (next: usize)
    ensures
        next == navigate_spec(current, frames, message),
        current < frames ==> next < frames,
{
    if frames == 0 {
        return current;
    }
    match message {
        Message::PrevFrame => if current == 0 {
            current
        } else {
            current - 1
        },
        Message::NextFrame => if current >= frames - 1 {
            current
        } else {
            current + 1
        },
    }
}

} // verus!
