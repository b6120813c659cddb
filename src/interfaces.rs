use vstd::prelude::*;

verus! {

/// A logical button of a pen or tablet.
#[derive(Clone, Copy, Debug, PartialEq, Eq, Hash, Structural)]
pub enum Button {
    PenPrimary,
    PenSecondary,
    Eraser,
    PenTip,
    Tablet(u32),
    Wheel,
}

/// The edge of a button: it went down or it came up.
#[derive(Clone, Copy, Debug, PartialEq, Eq, Structural)]
pub enum ButtonState {
    Press,
    Release,
}

/// The edge that leads to the given pressed state.
pub open spec fn state_of(pressed: bool) -> ButtonState {
    if pressed {
        ButtonState::Press
    } else {
        ButtonState::Release
    }
}

impl From<bool> for ButtonState {
    fn from(input: bool) -> (r: Self) {
        if input {
            ButtonState::Press
        } else {
            ButtonState::Release
        }
    }
}

impl vstd::std_specs::convert::FromSpecImpl<bool> for ButtonState {
    open spec fn obeys_from_spec() -> bool {
        true
    }

    open spec fn from_spec(v: bool) -> Self {
        state_of(v)
    }
}

impl ButtonState {
    /// The value an input-event stream carries for this edge.
    pub fn code(&self) -> (r: i32)
        ensures
            r == (if *self == ButtonState::Press { 1i32 } else { 0i32 }),
    {
        match self {
            ButtonState::Press => 1,
            ButtonState::Release => 0,
        }
    }
}

/// Direction of one wheel step.
#[derive(Clone, Copy, Debug, PartialEq, Eq, Structural)]
pub enum WheelDirection {
    Clockwise,
    CounterClockwise,
}

/// An exact quotient `num / den`, used for positions normalised by the
/// tablet's dimensions.
#[derive(Clone, Copy, Debug, PartialEq, Eq, Structural)]
pub struct Fraction {
    pub num: u32,
    pub den: u32,
}

/// One pointer sample: normalised position, tilt and pressure.
#[derive(Clone, Copy, Debug, PartialEq, Eq)]
pub struct PenStatus {
    pub position: (Fraction, Fraction),
    pub tilt: Option<(i32, i32)>,
    pub pressure: Option<i32>,
}

/// One semantic event flowing from a device reader to the dispatcher.
#[derive(Clone, Copy, Debug, PartialEq, Eq)]
pub enum PartialUpdate {
    Pen(PenStatus),
    Button(Button, ButtonState),
    Wheel(WheelDirection),
}

} // verus!
