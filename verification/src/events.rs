//! The lowered actions the actuation pipeline executes. A `HidAction` holds
//! no symbolic names: key names and modifier names have been resolved to
//! USB HID usage codes and modifier bits.

use vstd::prelude::*;

verus! {

/// One primitive actuation step: a report to emit, or a pause.
#[derive(Debug, Clone, PartialEq)]
pub enum HidAction {
    /// Modifier bitmask and up to six keycodes, pressed together.
    KeyPress(u8, [u8; 6]),
    /// Releases all keys and modifiers.
    KeyRelease,
    /// Relative mouse movement.
    MouseMove(i8, i8),
    /// Mouse buttons bitmask to press.
    MousePress(u8),
    /// Releases all mouse buttons.
    MouseRelease,
    /// Wheel movement.
    MouseWheel(i8),
    /// Consumer-control usage to press.
    ConsumerPress(u16),
    /// Releases the consumer control.
    ConsumerRelease,
    /// Pause, in milliseconds.
    Delay(u64),
}

/// The mathematical value of a `HidAction`: the keycode array becomes a
/// sequence.
pub enum HidActionV {
    KeyPress(u8, Seq<u8>),
    KeyRelease,
    MouseMove(i8, i8),
    MousePress(u8),
    MouseRelease,
    MouseWheel(i8),
    ConsumerPress(u16),
    ConsumerRelease,
    Delay(u64),
}

impl View for HidAction {
    type V = HidActionV;

    open spec fn view(&self) -> HidActionV {
        match self {
            HidAction::KeyPress(m, ks) => HidActionV::KeyPress(*m, ks@),
            HidAction::KeyRelease => HidActionV::KeyRelease,
            HidAction::MouseMove(dx, dy) => HidActionV::MouseMove(*dx, *dy),
            HidAction::MousePress(b) => HidActionV::MousePress(*b),
            HidAction::MouseRelease => HidActionV::MouseRelease,
            HidAction::MouseWheel(a) => HidActionV::MouseWheel(*a),
            HidAction::ConsumerPress(u) => HidActionV::ConsumerPress(*u),
            HidAction::ConsumerRelease => HidActionV::ConsumerRelease,
            HidAction::Delay(ms) => HidActionV::Delay(*ms),
        }
    }
}

impl DeepView for HidAction {
    type V = HidActionV;

    open spec fn deep_view(&self) -> HidActionV {
        self.view()
    }
}

} // verus!
