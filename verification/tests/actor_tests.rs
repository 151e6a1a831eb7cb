use esp_deck::actor::{Actor, ActorOutput};
use esp_deck::events::HidAction;
use esp_deck::mapper::Mapper;
use esp_deck::reports::{
    report_bytes, ConsumerReport, KeyboardReport, MouseReport, UsbHidCommand, REPORT_ID_CONSUMER,
    REPORT_ID_KEYBOARD, REPORT_ID_MOUSE,
};

fn keyboard(modifier: u8, keys: [u8; 6]) -> ActorOutput {
    ActorOutput::Hid(UsbHidCommand::SendKeyboard(KeyboardReport { modifier, reserved: 0, keys }))
}

fn mouse(buttons: u8, x: i8, y: i8, wheel: i8) -> ActorOutput {
    ActorOutput::Hid(UsbHidCommand::SendMouse(MouseReport { buttons, x, y, wheel }))
}

#[test]
fn shifted_key_macro_emits_two_reports_with_pause() {
    // Button 1 of the default table: press Shift+A, wait ten milliseconds,
    // release everything.
    let mut actor = Actor::new(Mapper::new(Mapper::load_default_config()));
    let out = actor.on_button_pressed(1);
    assert_eq!(
        out,
        vec![
            keyboard(0x02, [0x04, 0, 0, 0, 0, 0]),
            ActorOutput::Sleep(10),
            keyboard(0, [0, 0, 0, 0, 0, 0]),
        ]
    );
}

#[test]
fn mouse_move_is_one_shot_pulse() {
    let mut actor = Actor::new(Mapper::new(Vec::new()));
    let out = actor.execute_action(&HidAction::MouseMove(10, -5));
    assert_eq!(out, vec![mouse(0, 10, -5, 0), mouse(0, 0, 0, 0)]);
}

#[test]
fn mouse_wheel_is_one_shot_pulse() {
    let mut actor = Actor::new(Mapper::new(Vec::new()));
    let out = actor.execute_action(&HidAction::MouseWheel(-5));
    assert_eq!(out, vec![mouse(0, 0, 0, -5), mouse(0, 0, 0, 0)]);
}

#[test]
fn mouse_buttons_persist_until_release() {
    let mut actor = Actor::new(Mapper::new(Vec::new()));
    assert_eq!(actor.execute_action(&HidAction::MousePress(1)), vec![mouse(1, 0, 0, 0)]);
    // A second press replaces the bitmask on the persistent state.
    assert_eq!(actor.execute_action(&HidAction::MousePress(3)), vec![mouse(3, 0, 0, 0)]);
    // Release resets the whole state.
    assert_eq!(actor.execute_action(&HidAction::MouseRelease), vec![mouse(0, 0, 0, 0)]);
}

#[test]
fn consumer_press_and_release() {
    let mut actor = Actor::new(Mapper::new(Vec::new()));
    assert_eq!(
        actor.execute_action(&HidAction::ConsumerPress(0xE9)),
        vec![ActorOutput::Hid(UsbHidCommand::SendConsumer(ConsumerReport { usage: 0xE9 }))]
    );
    assert_eq!(
        actor.execute_action(&HidAction::ConsumerRelease),
        vec![ActorOutput::Hid(UsbHidCommand::SendConsumer(ConsumerReport { usage: 0 }))]
    );
}

#[test]
fn mapping_update_swaps_table() {
    let mut actor = Actor::new(Mapper::new(Mapper::load_default_config()));
    actor.update_mapping_config(Vec::new());
    assert_eq!(actor.on_button_pressed(1), Vec::<ActorOutput>::new());
}

#[test]
fn keyboard_report_layout() {
    let cmd = UsbHidCommand::SendKeyboard(KeyboardReport {
        modifier: 0x02,
        reserved: 0,
        keys: [4, 5, 6, 0, 0, 0],
    });
    let (id, bytes) = report_bytes(&cmd);
    assert_eq!(id, REPORT_ID_KEYBOARD);
    assert_eq!(bytes, vec![0x02, 0, 4, 5, 6, 0, 0, 0]);
}

#[test]
fn mouse_report_layout_uses_twos_complement() {
    let cmd = UsbHidCommand::SendMouse(MouseReport { buttons: 1, x: -1, y: 127, wheel: -128 });
    let (id, bytes) = report_bytes(&cmd);
    assert_eq!(id, REPORT_ID_MOUSE);
    assert_eq!(bytes, vec![1, 0xFF, 0x7F, 0x80]);
}

#[test]
fn consumer_report_layout_is_little_endian() {
    let cmd = UsbHidCommand::SendConsumer(ConsumerReport { usage: 0x01E9 });
    let (id, bytes) = report_bytes(&cmd);
    assert_eq!(id, REPORT_ID_CONSUMER);
    assert_eq!(bytes, vec![0xE9, 0x01]);
}
