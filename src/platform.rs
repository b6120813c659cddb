use vstd::prelude::*;

use keycode::KeyMappingId;

verus! {

#[verifier::external_type_specification]
#[verifier::external_body]
pub struct ExKeyMappingId(KeyMappingId);

/// The Linux evdev code of a keyboard key.
pub uninterp spec fn evdev_code_of(key: KeyMappingId) -> u16;

/// The name of a keyboard key.
pub uninterp spec fn key_name_of(key: KeyMappingId) -> Seq<char>;

/// Relies on keycode's `From<KeyMappingId> for KeyMap`, a fixed table: the
/// `evdev` field is the key's Linux evdev code.
#[verifier::external_body]
fn evdev_code(key: KeyMappingId) -> (r: u16)
    ensures
        r == evdev_code_of(key),
{
    keycode::KeyMap::from(key).evdev
}

/// Relies on keycode's `Display` for `KeyMappingId`, which writes the
/// variant's name.
#[verifier::external_body]
fn key_name(key: KeyMappingId) -> (r: String)
    ensures
        r@ == key_name_of(key),
{
    key.to_string()
}

/// evdev code of the left meta key.
pub const KEY_LEFTMETA: u16 = 125;

/// evdev code of the left control key.
pub const KEY_LEFTCTRL: u16 = 29;

/// evdev code of the left alt key.
pub const KEY_LEFTALT: u16 = 56;

/// evdev code of the left shift key.
pub const KEY_LEFTSHIFT: u16 = 42;

/// A pointer click that a button can be bound to.
#[derive(Clone, Copy, Debug, PartialEq, Eq, Structural)]
pub enum ClickInput {
    LeftClick,
    RightClick,
    MiddleClick,
    Touch,
}

/// The evdev code of a click.
pub open spec fn spec_click_code(c: ClickInput) -> u16 {
    match c {
        ClickInput::LeftClick => 0x110,
        ClickInput::RightClick => 0x111,
        ClickInput::MiddleClick => 0x112,
        ClickInput::Touch => 0x14a,
    }
}

/// The human-readable name of a click.
pub open spec fn spec_click_label(c: ClickInput) -> Seq<char> {
    match c {
        ClickInput::LeftClick => "Left Click"@,
        ClickInput::RightClick => "Right Click"@,
        ClickInput::MiddleClick => "Middle Click"@,
        ClickInput::Touch => "Touch"@,
    }
}

impl ClickInput {
    pub fn code(&self) -> (r: u16)
        ensures
            r == spec_click_code(*self),
    {
        match self {
            ClickInput::LeftClick => 0x110,
            ClickInput::RightClick => 0x111,
            ClickInput::MiddleClick => 0x112,
            ClickInput::Touch => 0x14a,
        }
    }

    pub fn label(&self) -> (r: &'static str)
        ensures
            r@ == spec_click_label(*self),
    {
        match self {
            ClickInput::LeftClick => "Left Click",
            ClickInput::RightClick => "Right Click",
            ClickInput::MiddleClick => "Middle Click",
            ClickInput::Touch => "Touch",
        }
    }
}

/// The key an action ends with: a keyboard key or a pointer click.
#[derive(Clone, Copy, Debug)]
pub enum InputKey {
    Keyboard(KeyMappingId),
    Mouse(ClickInput),
}

/// The evdev code of an action's key.
pub open spec fn spec_key_code(k: InputKey) -> u16 {
    match k {
        InputKey::Keyboard(key) => evdev_code_of(key),
        InputKey::Mouse(c) => spec_click_code(c),
    }
}

/// `K(name)` for a keyboard key, `M(label)` for a click.
pub open spec fn spec_key_label(k: InputKey) -> Seq<char> {
    match k {
        InputKey::Keyboard(key) => "K("@ + key_name_of(key) + ")"@,
        InputKey::Mouse(c) => "M("@ + spec_click_label(c) + ")"@,
    }
}

impl InputKey {
    pub fn code(&self) -> (r: u16)
        ensures
            r == spec_key_code(*self),
    {
        match self {
            InputKey::Keyboard(key) => evdev_code(*key),
            InputKey::Mouse(c) => c.code(),
        }
    }

    pub fn label(&self) -> (r: String)
        ensures
            r@ == spec_key_label(*self),
    {
        let (head, inner) = match self {
            InputKey::Keyboard(key) => ("K(", key_name(*key)),
            InputKey::Mouse(c) => ("M(", String::from_str(c.label())),
        };
        let mut out = String::from_str(head);
        out.append(inner.as_str());
        out.append(")");
        out
    }
}

/// One key event for the virtual device: an evdev key code and its value.
#[derive(Clone, Copy, Debug, PartialEq, Eq, Structural)]
pub struct KeyEvent {
    pub code: u16,
    pub value: i32,
}

/// A key, optionally with modifiers, that a button can be bound to.
#[derive(Clone, Copy, Debug)]
pub struct InputAction {
    pub shift: bool,
    pub ctrl: bool,
    pub alt: bool,
    pub super_key: bool,
    pub key: InputKey,
}

/// A one-event sequence when `on` holds, else nothing.
pub open spec fn press_if(on: bool, code: u16) -> Seq<KeyEvent> {
    if on {
        seq![KeyEvent { code, value: 1 }]
    } else {
        Seq::empty()
    }
}

/// Events of an action ending with the key `code`: the modifiers that are
/// set, each pressed, in the order super, ctrl, alt, shift; then the key with
/// value 1 when pressed and 0 when released.
pub open spec fn spec_action_events(a: InputAction, code: u16, pressed: bool) -> Seq<KeyEvent> {
    press_if(a.super_key, KEY_LEFTMETA) + press_if(a.ctrl, KEY_LEFTCTRL) + press_if(
        a.alt,
        KEY_LEFTALT,
    ) + press_if(a.shift, KEY_LEFTSHIFT) + seq![
        KeyEvent { code, value: if pressed { 1i32 } else { 0i32 } },
    ]
}

/// The modifier words of an action, in the order super, ctrl, alt, shift.
pub open spec fn spec_modifier_label(a: InputAction) -> Seq<char> {
    (if a.super_key { "Super "@ } else { Seq::empty() }) + (if a.ctrl { "Ctrl "@ } else { Seq::empty() })
        + (if a.alt { "Alt "@ } else { Seq::empty() }) + (if a.shift { "Shift "@ } else { Seq::empty() })
}

impl InputAction {
    /// Events for the action given the code of its key.
    pub fn events_with_code(&self, code: u16, pressed: bool) -> (r: Vec<KeyEvent>)
        ensures
            r@ == spec_action_events(*self, code, pressed),
    {
        let mut events: Vec<KeyEvent> = Vec::new();
        if self.super_key {
            events.push(KeyEvent { code: KEY_LEFTMETA, value: 1 });
        }
        if self.ctrl {
            events.push(KeyEvent { code: KEY_LEFTCTRL, value: 1 });
        }
        if self.alt {
            events.push(KeyEvent { code: KEY_LEFTALT, value: 1 });
        }
        if self.shift {
            events.push(KeyEvent { code: KEY_LEFTSHIFT, value: 1 });
        }
        events.push(KeyEvent { code, value: pressed as i32 });
        assert(events@ =~= spec_action_events(*self, code, pressed));
        events
    }

    /// Events that press or release the action on the virtual device.
    pub fn key_events(&self, pressed: bool) -> (r: Vec<KeyEvent>)
        ensures
            r@ == spec_action_events(*self, spec_key_code(self.key), pressed),
    {
        let code = self.key.code();
        self.events_with_code(code, pressed)
    }

    /// The action written as its modifiers followed by its key.
    pub fn label(&self) -> (r: String)
        ensures
            r@ == spec_modifier_label(*self) + spec_key_label(self.key),
    {
        let mut out = String::new();
        if self.super_key {
            out.append("Super ");
        }
        if self.ctrl {
            out.append("Ctrl ");
        }
        if self.alt {
            out.append("Alt ");
        }
        if self.shift {
            out.append("Shift ");
        }
        let key = self.key.label();
        out.append(key.as_str());
        assert(out@ =~= spec_modifier_label(*self) + spec_key_label(self.key));
        out
    }
}

/// evdev code of the horizontal position axis.
pub const ABS_X: u16 = 0x00;

/// evdev code of the vertical position axis.
pub const ABS_Y: u16 = 0x01;

/// evdev code of the pressure axis.
pub const ABS_PRESSURE: u16 = 0x18;

/// evdev code of the horizontal tilt axis.
pub const ABS_TILT_X: u16 = 0x1a;

/// evdev code of the vertical tilt axis.
pub const ABS_TILT_Y: u16 = 0x1b;

/// One absolute-axis event for the virtual device.
#[derive(Clone, Copy, Debug, PartialEq, Eq, Structural)]
pub struct AxisEvent {
    pub axis: u16,
    pub value: i32,
}

/// Events of one pointer sample whose position is already scaled to the
/// axis range: position first, then tilt and pressure where present.
pub open spec fn spec_axis_events(x: i32, y: i32, tilt: Option<(i32, i32)>, pressure: Option<i32>) -> Seq<
    AxisEvent,
> {
    seq![AxisEvent { axis: ABS_X, value: x }, AxisEvent { axis: ABS_Y, value: y }] + match tilt {
        Some((tx, ty)) => seq![
            AxisEvent { axis: ABS_TILT_X, value: tx },
            AxisEvent { axis: ABS_TILT_Y, value: ty },
        ],
        None => Seq::empty(),
    } + match pressure {
        Some(p) => seq![AxisEvent { axis: ABS_PRESSURE, value: p }],
        None => Seq::empty(),
    }
}

/// The axis events that replay a pointer sample, given its position scaled
/// to the axis range.
pub fn axis_events(x: i32, y: i32, tilt: Option<(i32, i32)>, pressure: Option<i32>) -> (r: Vec<
    AxisEvent,
>)
    ensures
        r@ == spec_axis_events(x, y, tilt, pressure),
{
    let mut events: Vec<AxisEvent> = Vec::new();
    events.push(AxisEvent { axis: ABS_X, value: x });
    events.push(AxisEvent { axis: ABS_Y, value: y });
    if let Some((tilt_x, tilt_y)) = tilt {
        events.push(AxisEvent { axis: ABS_TILT_X, value: tilt_x });
        events.push(AxisEvent { axis: ABS_TILT_Y, value: tilt_y });
    }
    if let Some(p) = pressure {
        events.push(AxisEvent { axis: ABS_PRESSURE, value: p });
    }
    assert(events@ =~= spec_axis_events(x, y, tilt, pressure));
    events
}

} // verus!
