use vstd::prelude::*;

use crate::interfaces::{Button, ButtonState, PartialUpdate, PenStatus, WheelDirection};

verus! {

/// What the dispatcher does with one receive from the event queue.
#[derive(Clone, Copy, Debug, PartialEq, Eq)]
pub enum DispatchStep {
    /// Hand the sample to the sink's pointer update.
    UpdatePointer(PenStatus),
    /// Hand the button and whether it is now down to the sink's button update.
    UpdateButton(Button, bool),
    /// Wheel steps are recorded in the log only.
    LogWheel(WheelDirection),
    /// Every producer is gone: the dispatcher ends.
    Stop,
}

pub open spec fn spec_dispatch(received: Option<PartialUpdate>) -> DispatchStep {
    match received {
        Some(PartialUpdate::Pen(pen)) => DispatchStep::UpdatePointer(pen),
        Some(PartialUpdate::Button(b, st)) => DispatchStep::UpdateButton(b, st == ButtonState::Press),
        Some(PartialUpdate::Wheel(d)) => DispatchStep::LogWheel(d),
        None => DispatchStep::Stop,
    }
}

/// Decides the dispatcher's action for one receive; `None` means the queue
/// is closed.
pub fn dispatch(received: Option<PartialUpdate>) -> (r: DispatchStep)
    ensures
        r == spec_dispatch(received),
{
    match received {
        Some(PartialUpdate::Pen(pen)) => DispatchStep::UpdatePointer(pen),
        Some(PartialUpdate::Button(b, st)) => {
            let pressed = match st {
                ButtonState::Press => true,
                ButtonState::Release => false,
            };
            DispatchStep::UpdateButton(b, pressed)
        },
        Some(PartialUpdate::Wheel(d)) => DispatchStep::LogWheel(d),
        None => DispatchStep::Stop,
    }
}

} // verus!
