//! The fixed-layout HID reports and their wire encodings.
//!
//! Each report kind has a fixed report identifier, used as a transport tag,
//! and a fixed byte layout; the encoders here pin every byte.

use vstd::prelude::*;

verus! {

pub const REPORT_ID_KEYBOARD: u8 = 1;

pub const REPORT_ID_MOUSE: u8 = 2;

pub const REPORT_ID_CONSUMER: u8 = 3;

/// The eight-byte keyboard report: modifier bits, a reserved byte, six
/// keycode slots.
#[derive(Debug, Clone, Copy, PartialEq, Eq)]
pub struct KeyboardReport {
    pub modifier: u8,
    pub reserved: u8,
    pub keys: [u8; 6],
}

impl Default for KeyboardReport {
    /// The all-released report.
    fn default() -> (r: Self)
        ensures
            r.modifier == 0,
            r.reserved == 0,
            r.keys@ =~= seq![0u8, 0u8, 0u8, 0u8, 0u8, 0u8],
    {
        KeyboardReport { modifier: 0, reserved: 0, keys: [0, 0, 0, 0, 0, 0] }
    }
}

/// The four-byte mouse report: buttons bitmask, relative x, relative y,
/// wheel.
#[derive(Debug, Clone, Copy, PartialEq, Eq)]
pub struct MouseReport {
    pub buttons: u8,
    pub x: i8,
    pub y: i8,
    pub wheel: i8,
}

impl Default for MouseReport {
    /// The all-released, no-movement report.
    fn default() -> (r: Self)
        ensures
            r == (MouseReport { buttons: 0, x: 0, y: 0, wheel: 0 }),
    {
        MouseReport { buttons: 0, x: 0, y: 0, wheel: 0 }
    }
}

/// The two-byte consumer-control report: a usage id, little-endian.
#[derive(Debug, Clone, Copy, PartialEq, Eq)]
pub struct ConsumerReport {
    pub usage: u16,
}

/// One report to push to the HID endpoint, tagged by kind.
#[derive(Debug, Clone, Copy, PartialEq)]
pub enum UsbHidCommand {
    SendKeyboard(KeyboardReport),
    SendMouse(MouseReport),
    SendConsumer(ConsumerReport),
}

/// The bytes of a keyboard report, in wire order.
pub open spec fn spec_keyboard_bytes(r: KeyboardReport) -> Seq<u8> {
    seq![r.modifier, r.reserved] + r.keys@
}

/// The bytes of a mouse report, in wire order; the signed fields keep
/// their two's-complement bit patterns.
pub open spec fn spec_mouse_bytes(r: MouseReport) -> Seq<u8> {
    seq![r.buttons, i8_bits(r.x), i8_bits(r.y), i8_bits(r.wheel)]
}

/// The bytes of a consumer report: the usage id, little-endian.
pub open spec fn spec_consumer_bytes(r: ConsumerReport) -> Seq<u8> {
    seq![(r.usage & 0xFF) as u8, ((r.usage >> 8) & 0xFF) as u8]
}

/// The two's-complement byte of a signed byte.
pub open spec fn i8_bits(x: i8) -> u8 {
    if x >= 0 {
        x as u8
    } else {
        (x + 256) as u8
    }
}

/// The two's-complement byte of a signed byte.
pub fn i8_to_bits(x: i8) -> (r: u8)
    ensures
        r == i8_bits(x),
{
    if x >= 0 {
        x as u8
    } else {
        let widened: i16 = x as i16;
        (widened + 256) as u8
    }
}

/// The report identifier and wire bytes of a report: report one is the
/// keyboard's eight bytes, report two the mouse's four, report three the
/// consumer control's two.
pub fn report_bytes(cmd: &UsbHidCommand) -> (r: (u8, Vec<u8>))
    ensures
        match cmd {
            UsbHidCommand::SendKeyboard(k) => r.0 == REPORT_ID_KEYBOARD && r.1@ == spec_keyboard_bytes(*k),
            UsbHidCommand::SendMouse(m) => r.0 == REPORT_ID_MOUSE && r.1@ == spec_mouse_bytes(*m),
            UsbHidCommand::SendConsumer(c) => r.0 == REPORT_ID_CONSUMER && r.1@ == spec_consumer_bytes(*c),
        },
{
    match cmd {
        UsbHidCommand::SendKeyboard(k) => {
            let mut out: Vec<u8> = Vec::new();
            out.push(k.modifier);
            out.push(k.reserved);
            out.push(k.keys[0]);
            out.push(k.keys[1]);
            out.push(k.keys[2]);
            out.push(k.keys[3]);
            out.push(k.keys[4]);
            out.push(k.keys[5]);
            proof {
                assert(out@ =~= spec_keyboard_bytes(*k));
            }
            (REPORT_ID_KEYBOARD, out)
        },
        UsbHidCommand::SendMouse(m) => {
            let mut out: Vec<u8> = Vec::new();
            out.push(m.buttons);
            out.push(i8_to_bits(m.x));
            out.push(i8_to_bits(m.y));
            out.push(i8_to_bits(m.wheel));
            proof {
                assert(out@ =~= spec_mouse_bytes(*m));
            }
            (REPORT_ID_MOUSE, out)
        },
        UsbHidCommand::SendConsumer(c) => {
            let mut out: Vec<u8> = Vec::new();
            let u = c.usage;
            proof {
                assert(u & 0xFF <= 0xFF) by (bit_vector);
                assert((u >> 8) & 0xFF <= 0xFF) by (bit_vector);
            }
            out.push((u & 0xFF) as u8);
            out.push(((u >> 8) & 0xFF) as u8);
            proof {
                assert(out@ =~= spec_consumer_bytes(*c));
            }
            (REPORT_ID_CONSUMER, out)
        },
    }
}

} // verus!
