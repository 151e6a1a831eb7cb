use esp_deck::events::HidAction;
use esp_deck::keys::translate_key;
use esp_deck::mapper::{translate_sequence, ConfigAction, Mapper, MappingEntry};

#[test]
fn modifier_resolution_all_eight() {
    let cases: [(&str, u8); 8] = [
        ("ControlLeft", 0x01),
        ("ShiftLeft", 0x02),
        ("AltLeft", 0x04),
        ("MetaLeft", 0x08),
        ("ControlRight", 0x10),
        ("ShiftRight", 0x20),
        ("AltRight", 0x40),
        ("MetaRight", 0x80),
    ];
    for (name, bit) in cases {
        assert_eq!(translate_key(name, None), (bit, 0));
    }
}

#[test]
fn ordinary_key_resolves_to_usage() {
    assert_eq!(translate_key("KeyA", None), (0, 0x04));
    assert_eq!(translate_key("F5", None), (0, 0x3E));
}

#[test]
fn unknown_key_contributes_nothing() {
    assert_eq!(translate_key("NoSuchKey", None), (0, 0));
}

#[test]
fn modifier_string_combines_bits() {
    assert_eq!(translate_key("KeyC", Some("ControlLeft")), (0x01, 0x06));
    assert_eq!(translate_key("Delete", Some("ControlLeft AltLeft")), (0x05, 0x4C));
}

#[test]
fn non_modifier_in_modifier_string_is_ignored() {
    assert_eq!(translate_key("KeyA", Some("KeyB")), (0, 0x04));
    assert_eq!(translate_key("KeyA", Some("Bogus ShiftLeft")), (0x02, 0x04));
}

#[test]
fn keypress_truncates_to_six_keys() {
    let keys: Vec<String> = ["KeyA", "KeyB", "KeyC", "KeyD", "KeyE", "KeyF", "KeyG", "KeyH"]
        .iter()
        .map(|s| s.to_string())
        .collect();
    let actions = vec![ConfigAction::KeyPress { keys, modifier: None }];
    let lowered = translate_sequence(&actions);
    assert_eq!(
        lowered,
        vec![HidAction::KeyPress(0, [0x04, 0x05, 0x06, 0x07, 0x08, 0x09])]
    );
}

#[test]
fn send_string_expands_to_press_release_pairs() {
    let actions = vec![ConfigAction::SendString {
        keys: vec!["KeyH".to_string(), "KeyI".to_string()],
        modifiers: vec!["ShiftLeft".to_string(), "".to_string()],
    }];
    let lowered = translate_sequence(&actions);
    assert_eq!(
        lowered,
        vec![
            HidAction::KeyPress(0x02, [0x0B, 0, 0, 0, 0, 0]),
            HidAction::KeyRelease,
            HidAction::KeyPress(0, [0x0C, 0, 0, 0, 0, 0]),
            HidAction::KeyRelease,
        ]
    );
}

#[test]
fn nested_sequences_flatten() {
    let actions = vec![
        ConfigAction::Delay { ms: 1 },
        ConfigAction::Sequence(vec![
            ConfigAction::MouseWheel { amount: -5 },
            ConfigAction::Sequence(vec![ConfigAction::ConsumerPress { usage_id: 0xE9 }]),
        ]),
        ConfigAction::KeyRelease,
    ];
    let lowered = translate_sequence(&actions);
    assert_eq!(
        lowered,
        vec![
            HidAction::Delay(1),
            HidAction::MouseWheel(-5),
            HidAction::ConsumerPress(0xE9),
            HidAction::KeyRelease,
        ]
    );
}

#[test]
fn fallback_to_default_row() {
    let mapper = Mapper::new(Mapper::load_default_config());
    // Button 99 has no row of its own; the "default" row is one short delay.
    assert_eq!(mapper.get_action_sequence(99), vec![HidAction::Delay(1)]);
    assert_eq!(mapper.get_action_sequence(-3), vec![HidAction::Delay(1)]);
}

#[test]
fn missing_row_and_missing_default_yield_nothing() {
    let mapper = Mapper::new(vec![MappingEntry {
        button: "5".to_string(),
        actions: vec![ConfigAction::KeyRelease],
    }]);
    assert_eq!(mapper.get_action_sequence(7), Vec::<HidAction>::new());
}

#[test]
fn configured_row_wins_over_default() {
    let mapper = Mapper::new(Mapper::load_default_config());
    // Button 1 is the shifted 'A' macro.
    assert_eq!(
        mapper.get_action_sequence(1),
        vec![
            HidAction::KeyPress(0x02, [0x04, 0, 0, 0, 0, 0]),
            HidAction::Delay(10),
            HidAction::KeyRelease,
        ]
    );
}

#[test]
fn update_mapping_config_replaces_table() {
    let mut mapper = Mapper::new(Mapper::load_default_config());
    mapper.update_mapping_config(vec![MappingEntry {
        button: "1".to_string(),
        actions: vec![ConfigAction::ConsumerPress { usage_id: 0xCD }],
    }]);
    assert_eq!(mapper.get_action_sequence(1), vec![HidAction::ConsumerPress(0xCD)]);
    // The old fallback row is gone with the old table.
    assert_eq!(mapper.get_action_sequence(2), Vec::<HidAction>::new());
}

#[test]
fn default_button_names_count() {
    let names = Mapper::get_default_button_names();
    assert_eq!(names.len(), 16);
    assert_eq!(names[0], "A");
    assert_eq!(names[15], "TaskMgr");
}

#[test]
fn modifier_as_primary_key_combines_with_modifier_string() {
    assert_eq!(
        esp_deck::keys::translate_key("ControlLeft", Some("ShiftLeft")),
        (0x03, 0)
    );
}

#[test]
fn stringified_button_identifiers() {
    assert_eq!(esp_deck::mapper::i32_to_decimal(0), "0");
    assert_eq!(esp_deck::mapper::i32_to_decimal(16), "16");
    assert_eq!(esp_deck::mapper::i32_to_decimal(-12), "-12");
    assert_eq!(esp_deck::mapper::i32_to_decimal(i32::MIN), i32::MIN.to_string());
}

#[test]
fn extreme_button_id_falls_back_without_failing() {
    let mapper = Mapper::new(Mapper::load_default_config());
    assert_eq!(mapper.get_action_sequence(i32::MIN), vec![HidAction::Delay(1)]);
}
