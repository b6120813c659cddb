use vstd::prelude::*;

use crate::bits::SelectBit;
use crate::device_info::DeviceInfo;
use crate::interfaces::{Fraction, PenStatus};

verus! {

/// Length of a raw report; shorter reads are malformed.
pub const PACKET_LEN: usize = 12;

/// Class byte of a wheel-rotation report.
pub const WHEEL_CLASS: u8 = 0b11110001;

/// Class byte of a tablet-button report.
pub const BUTTON_CLASS: u8 = 0b11100000;

/// The three button bits that a pointer report carries in its class byte.
#[derive(Clone, Copy, Debug, PartialEq, Eq, Structural)]
pub struct PenButtons {
    pub tip: bool,
    pub primary: bool,
    pub secondary: bool,
}

/// What one raw report says, before any comparison with earlier reports.
#[derive(Clone, Copy, Debug, PartialEq, Eq)]
pub enum DecodedFrame {
    /// A pointer sample and the raw button bits of the same report.
    Pen(PenStatus, PenButtons),
    /// A wheel-rotation report; its contents are not interpreted.
    Wheel,
    /// A tablet-button report; its contents are not interpreted.
    TabletButtons,
}

/// The class bytes of pointer reports: pen in range, with tip contact and
/// with either barrel button.
pub open spec fn is_pen_class(c: u8) -> bool {
    c == 0b10000000 || c == 0b10000010 || c == 0b10000100 || c == 0b10000001
        || c == 0b10000011 || c == 0b10000101 || c == 0b10000111
}

/// A little-endian 16-bit field.
pub open spec fn le16(lo: u8, hi: u8) -> u32 {
    (lo as nat + hi as nat * 256) as u32
}

/// A byte read as a two's-complement signed value.
pub open spec fn signed8(b: u8) -> i32 {
    if b < 128 {
        b as i32
    } else {
        (b as int - 256) as i32
    }
}

/// Button bits of a pointer class byte: tip is bit 0, primary bit 1,
/// secondary bit 2.
pub open spec fn spec_pen_buttons(c: u8) -> PenButtons {
    PenButtons {
        tip: c.spec_is_bit_set(0),
        primary: c.spec_is_bit_set(1),
        secondary: c.spec_is_bit_set(2),
    }
}

/// The pointer sample of a report: position at bytes 2..6 divided by the
/// descriptor's dimensions, pressure at byte 6, tilt at bytes 10 and 11.
pub open spec fn spec_pen_sample(p: Seq<u8>, info: DeviceInfo) -> PenStatus {
    PenStatus {
        position: (
            Fraction { num: le16(p[2], p[3]), den: info.width },
            Fraction { num: le16(p[4], p[5]), den: info.height },
        ),
        tilt: Some((signed8(p[10]), signed8(p[11]))),
        pressure: Some(p[6] as i32),
    }
}

/// What a raw report decodes to: the class byte at index 1 selects the
/// layout; short reports and unknown classes decode to nothing.
pub open spec fn spec_decode(p: Seq<u8>, info: DeviceInfo) -> Option<DecodedFrame> {
    if p.len() < PACKET_LEN {
        None
    } else if is_pen_class(p[1]) {
        Some(DecodedFrame::Pen(spec_pen_sample(p, info), spec_pen_buttons(p[1])))
    } else if p[1] == WHEEL_CLASS {
        Some(DecodedFrame::Wheel)
    } else if p[1] == BUTTON_CLASS {
        Some(DecodedFrame::TabletButtons)
    } else {
        None
    }
}

fn read_le16(lo: u8, hi: u8) -> (r: u32)
    ensures
        r == le16(lo, hi),
{
    let h = hi as u32;
    assert(h << 8 == h * 256) by (bit_vector)
        requires
            h < 256,
    ;
    lo as u32 + (h << 8)
}

fn read_signed8(b: u8) -> (r: i32)
    ensures
        r == signed8(b),
{
    let v = b as i32;
    if v >= 128 {
        v - 256
    } else {
        v
    }
}

/// Decodes one raw report against the descriptor of its device.
pub fn decode(packet: &[u8], info: &DeviceInfo) -> (r: Option<DecodedFrame>)
    ensures
        r == spec_decode(packet@, *info),
{
    if packet.len() < PACKET_LEN {
        return None;
    }
    let class = packet[1];
    match class {
        0b10000000 | 0b10000010 | 0b10000100 | 0b10000001 | 0b10000011 | 0b10000101
        | 0b10000111 => {
            let x = read_le16(packet[2], packet[3]);
            let y = read_le16(packet[4], packet[5]);
            let sample = PenStatus {
                position: (Fraction { num: x, den: info.width }, Fraction { num: y, den: info.height }),
                tilt: Some((read_signed8(packet[10]), read_signed8(packet[11]))),
                pressure: Some(packet[6] as i32),
            };
            let buttons = PenButtons {
                tip: class.is_bit_set(0),
                primary: class.is_bit_set(1),
                secondary: class.is_bit_set(2),
            };
            Some(DecodedFrame::Pen(sample, buttons))
        },
        WHEEL_CLASS => Some(DecodedFrame::Wheel),
        BUTTON_CLASS => Some(DecodedFrame::TabletButtons),
        _ => None,
    }
}

} // verus!
