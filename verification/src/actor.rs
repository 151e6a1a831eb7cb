//! Execution of action sequences: the actor.
//!
//! The actor owns the mapper and the persistent mouse-button state. A
//! button press becomes the ordered list of reports to push and pauses to
//! take; the caller performs them in that order, one press at a time, so
//! a macro always completes before the next press is processed.

use vstd::prelude::*;
use crate::events::{HidAction, HidActionV};
use crate::mapper::{mapping_view, spec_get_action_sequence, ConfigActionV, Mapper, MappingConfiguration};
use crate::reports::{ConsumerReport, KeyboardReport, MouseReport, UsbHidCommand};

verus! {

/// One step the caller must perform: push a report, or pause.
#[derive(Debug, Clone, Copy, PartialEq)]
pub enum ActorOutput {
    Hid(UsbHidCommand),
    Sleep(u64),
}

/// The mathematical value of an `ActorOutput`.
pub enum ActorOutputV {
    Keyboard { modifier: u8, reserved: u8, keys: Seq<u8> },
    Mouse { buttons: u8, x: i8, y: i8, wheel: i8 },
    Consumer { usage: u16 },
    Sleep { ms: u64 },
}

impl View for ActorOutput {
    type V = ActorOutputV;

    open spec fn view(&self) -> ActorOutputV {
        match self {
            ActorOutput::Hid(UsbHidCommand::SendKeyboard(k)) => ActorOutputV::Keyboard {
                modifier: k.modifier,
                reserved: k.reserved,
                keys: k.keys@,
            },
            ActorOutput::Hid(UsbHidCommand::SendMouse(m)) => ActorOutputV::Mouse {
                buttons: m.buttons,
                x: m.x,
                y: m.y,
                wheel: m.wheel,
            },
            ActorOutput::Hid(UsbHidCommand::SendConsumer(c)) => ActorOutputV::Consumer {
                usage: c.usage,
            },
            ActorOutput::Sleep(ms) => ActorOutputV::Sleep { ms: *ms },
        }
    }
}

impl DeepView for ActorOutput {
    type V = ActorOutputV;

    open spec fn deep_view(&self) -> ActorOutputV {
        self.view()
    }
}

/// The all-zero keyboard slots.
pub open spec fn zero_keys() -> Seq<u8> {
    seq![0u8, 0u8, 0u8, 0u8, 0u8, 0u8]
}

/// What one primitive action does to the mouse state and which steps it
/// emits: key presses and releases are one keyboard report each; mouse
/// moves and wheel turns are one-shot pulses, a report with the delta and
/// at once a zeroed report; mouse presses and releases mutate the
/// persistent button state and send it; consumer presses send the usage,
/// releases send zero; a delay is a pause.
pub open spec fn spec_execute_action(mouse: MouseReport, a: HidActionV) -> (MouseReport, Seq<ActorOutputV>) {
    match a {
        HidActionV::KeyPress(mods, keys) => (
            mouse,
            seq![ActorOutputV::Keyboard { modifier: mods, reserved: 0, keys }],
        ),
        HidActionV::KeyRelease => (
            mouse,
            seq![ActorOutputV::Keyboard { modifier: 0, reserved: 0, keys: zero_keys() }],
        ),
        HidActionV::MouseMove(dx, dy) => (
            mouse,
            seq![
                ActorOutputV::Mouse { buttons: 0, x: dx, y: dy, wheel: 0 },
                ActorOutputV::Mouse { buttons: 0, x: 0, y: 0, wheel: 0 },
            ],
        ),
        HidActionV::MousePress(buttons) => {
            let m = MouseReport { buttons, x: mouse.x, y: mouse.y, wheel: mouse.wheel };
            (m, seq![ActorOutputV::Mouse { buttons: m.buttons, x: m.x, y: m.y, wheel: m.wheel }])
        },
        HidActionV::MouseRelease => (
            MouseReport { buttons: 0, x: 0, y: 0, wheel: 0 },
            seq![ActorOutputV::Mouse { buttons: 0, x: 0, y: 0, wheel: 0 }],
        ),
        HidActionV::MouseWheel(amount) => (
            mouse,
            seq![
                ActorOutputV::Mouse { buttons: 0, x: 0, y: 0, wheel: amount },
                ActorOutputV::Mouse { buttons: 0, x: 0, y: 0, wheel: 0 },
            ],
        ),
        HidActionV::ConsumerPress(usage) => (mouse, seq![ActorOutputV::Consumer { usage }]),
        HidActionV::ConsumerRelease => (mouse, seq![ActorOutputV::Consumer { usage: 0 }]),
        HidActionV::Delay(ms) => (mouse, seq![ActorOutputV::Sleep { ms }]),
    }
}

/// What a whole action sequence does: each action applied in order to the
/// mouse state, the emitted steps concatenated in order.
pub open spec fn spec_run_sequence(mouse: MouseReport, actions: Seq<HidActionV>) -> (MouseReport, Seq<ActorOutputV>)
    decreases actions.len(),
{
    if actions.len() == 0 {
        (mouse, seq![])
    } else {
        let (m1, out1) = spec_execute_action(mouse, actions[0]);
        let (m2, out2) = spec_run_sequence(m1, actions.drop_first());
        (m2, out1 + out2)
    }
}

/// Consumes button presses and mapping updates; produces the steps the
/// caller performs against the HID transport.
pub struct Actor {
    mapper: Mapper,
    mouse: MouseReport,
}

impl Actor {
    /// The current mapping table.
    pub closed spec fn cfg(&self) -> Seq<(Seq<char>, Seq<ConfigActionV>)> {
        self.mapper.cfg()
    }

    /// The persistent mouse-button state.
    pub closed spec fn mouse_state(&self) -> MouseReport {
        self.mouse
    }

    pub fn new(mapper: Mapper) -> (r: Self)
        ensures
            r.cfg() == mapper.cfg(),
            r.mouse_state() == (MouseReport { buttons: 0, x: 0, y: 0, wheel: 0 }),
    {
        Actor { mapper, mouse: MouseReport::default() }
    }

    /// Swaps the mapping table; an in-flight sequence already handed out is
    /// unaffected.
    pub fn update_mapping_config(&mut self, config: MappingConfiguration)
        ensures
            final(self).cfg() == mapping_view(config@),
            final(self).mouse_state() == old(self).mouse_state(),
    {
        self.mapper.update_mapping_config(config);
    }

    /// Performs one primitive action on the actor's state and returns the
    /// steps it emits.
    pub fn execute_action(&mut self, action: &HidAction) -> (out: Vec<ActorOutput>)
        ensures
            (final(self).mouse_state(), out.deep_view())
                == spec_execute_action(old(self).mouse_state(), action@),
            final(self).cfg() == old(self).cfg(),
    {
        let mut out: Vec<ActorOutput> = Vec::new();
        match action {
            HidAction::KeyPress(mods, keys) => {
                out.push(ActorOutput::Hid(UsbHidCommand::SendKeyboard(KeyboardReport {
                    modifier: *mods,
                    reserved: 0,
                    keys: *keys,
                })));
            },
            HidAction::KeyRelease => {
                out.push(ActorOutput::Hid(UsbHidCommand::SendKeyboard(KeyboardReport {
                    modifier: 0,
                    reserved: 0,
                    keys: [0, 0, 0, 0, 0, 0],
                })));
                proof {
                    assert(out@[0]@->Keyboard_keys =~= zero_keys());
                }
            },
            HidAction::MouseMove(dx, dy) => {
                out.push(ActorOutput::Hid(UsbHidCommand::SendMouse(MouseReport {
                    buttons: 0,
                    x: *dx,
                    y: *dy,
                    wheel: 0,
                })));
                out.push(ActorOutput::Hid(UsbHidCommand::SendMouse(MouseReport::default())));
            },
            HidAction::MousePress(buttons) => {
                self.mouse.buttons = *buttons;
                out.push(ActorOutput::Hid(UsbHidCommand::SendMouse(self.mouse)));
            },
            HidAction::MouseRelease => {
                self.mouse = MouseReport::default();
                out.push(ActorOutput::Hid(UsbHidCommand::SendMouse(self.mouse)));
            },
            HidAction::MouseWheel(amount) => {
                out.push(ActorOutput::Hid(UsbHidCommand::SendMouse(MouseReport {
                    buttons: 0,
                    x: 0,
                    y: 0,
                    wheel: *amount,
                })));
                out.push(ActorOutput::Hid(UsbHidCommand::SendMouse(MouseReport::default())));
            },
            HidAction::ConsumerPress(usage) => {
                out.push(ActorOutput::Hid(UsbHidCommand::SendConsumer(ConsumerReport {
                    usage: *usage,
                })));
            },
            HidAction::ConsumerRelease => {
                out.push(ActorOutput::Hid(UsbHidCommand::SendConsumer(ConsumerReport { usage: 0 })));
            },
            HidAction::Delay(ms) => {
                out.push(ActorOutput::Sleep(*ms));
            },
        }
        proof {
            assert(out.deep_view() =~~= spec_execute_action(old(self).mouse_state(), action@).1);
        }
        out
    }

    /// Runs a whole action sequence, in order, against the actor's state.
    pub fn run_sequence(&mut self, actions: &Vec<HidAction>) -> (out: Vec<ActorOutput>)
        ensures
            (final(self).mouse_state(), out.deep_view())
                == spec_run_sequence(old(self).mouse_state(), actions.deep_view()),
            final(self).cfg() == old(self).cfg(),
    {
        let ghost av = actions.deep_view();
        let ghost m0 = self.mouse;
        let mut out: Vec<ActorOutput> = Vec::new();
        let mut i: usize = 0;
        proof {
            assert(av.skip(0) =~= av);
            assert(out.deep_view() =~~= Seq::<ActorOutputV>::empty());
            assert(Seq::<ActorOutputV>::empty() + spec_run_sequence(m0, av).1
                =~~= spec_run_sequence(m0, av).1);
        }
        while i < actions.len()
            invariant
                i <= actions@.len(),
                av == actions.deep_view(),
                av.len() == actions@.len(),
                self.cfg() == old(self).cfg(),
                spec_run_sequence(m0, av) == ({
                    let (m2, o2) = spec_run_sequence(self.mouse_state(), av.skip(i as int));
                    (m2, out.deep_view() + o2)
                }),
            decreases actions@.len() - i,
        {
            let ghost out0 = out.deep_view();
            let ghost mcur = self.mouse;
            let mut step_out = self.execute_action(&actions[i]);
            let ghost step_dv = step_out.deep_view();
            out.append(&mut step_out);
            proof {
                assert(av.skip(i as int)[0] == actions@[i as int].deep_view());
                assert(av.skip(i as int).drop_first() =~= av.skip(i + 1));
                assert(out.deep_view() =~~= out0 + step_dv);
                let rest = spec_run_sequence(self.mouse_state(), av.skip(i + 1)).1;
                assert((out0 + step_dv) + rest =~~= out0 + (step_dv + rest));
            }
            i = i + 1;
        }
        proof {
            assert(av.skip(av.len() as int) =~= Seq::<HidActionV>::empty());
            assert(out.deep_view() + Seq::<ActorOutputV>::empty() =~~= out.deep_view());
        }
        out
    }

    /// Resolves a button press through the mapper and runs the configured
    /// sequence to completion; nothing else is processed meanwhile.
    pub fn on_button_pressed(&mut self, button_id: i32) -> (out: Vec<ActorOutput>)
        ensures
            (final(self).mouse_state(), out.deep_view()) == spec_run_sequence(
                old(self).mouse_state(),
                spec_get_action_sequence(old(self).cfg(), button_id as int),
            ),
            final(self).cfg() == old(self).cfg(),
    {
        let actions = self.mapper.get_action_sequence(button_id);
        self.run_sequence(&actions)
    }
}

} // verus!
