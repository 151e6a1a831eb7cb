use esp_deck::config::{
    default_device_config, ButtonName, Configurator, DeviceConfig, DeviceSettings, WifiSettings,
};
use esp_deck::mapper::{ConfigAction, MappingEntry};
use esp_deck::protocol::{
    Command, CommandPlan, GetConfigCommand, ProtocolHeader, ProtocolManager, RebootCommand,
    ResetConfigCommand, Response, SetConfigCommand, PROTOCOL_VERSION,
};

fn empty_settings() -> DeviceSettings {
    DeviceSettings { wifi: None, timezone_offset: None, api_key: None }
}

fn manager() -> ProtocolManager {
    ProtocolManager::new(Configurator::new(default_device_config()))
}

#[test]
fn get_config_echoes_version_and_returns_table() {
    let m = manager();
    let cmd = Command::GetConfig(GetConfigCommand {
        header: ProtocolHeader { version: 65536, correlation_id: None },
    });
    match m.plan_command(&cmd) {
        CommandPlan::Respond(Response::Config(resp)) => {
            assert_eq!(resp.header.version, 65536);
            assert_eq!(resp.header.version, PROTOCOL_VERSION);
            assert_eq!(resp.header.correlation_id, None);
            assert_eq!(resp.config, default_device_config());
        },
        _ => panic!("GetConfig must be answered at once with the configuration"),
    }
}

#[test]
fn reboot_acks_with_correlation_id_before_restart() {
    let m = manager();
    let cmd = Command::Reboot(RebootCommand {
        header: ProtocolHeader { version: 65536, correlation_id: Some(7) },
    });
    match m.plan_command(&cmd) {
        CommandPlan::RebootAfter(Response::Ack(ack)) => {
            assert_eq!(ack.header.correlation_id, Some(7));
            assert_eq!(ack.header.version, PROTOCOL_VERSION);
            assert!(ack.success);
            assert_eq!(ack.message, "Device will reboot");
        },
        _ => panic!("Reboot must acknowledge before the restart"),
    }
}

#[test]
fn set_config_merge_skips_unknown_button_and_truncates_names() {
    let mut m = manager();
    let incoming = DeviceConfig {
        settings: empty_settings(),
        mappings: vec![
            // Button id 99 is not in the default table: it must be skipped.
            MappingEntry {
                button: "99".to_string(),
                actions: vec![ConfigAction::KeyRelease],
            },
            // Button id 2 exists: its actions are replaced.
            MappingEntry {
                button: "2".to_string(),
                actions: vec![ConfigAction::ConsumerPress { usage_id: 0xE2 }],
            },
        ],
        button_names: Some(vec![ButtonName {
            index: 1,
            name: "a name of twenty-five ch.".to_string(),
        }]),
        widgets: None,
    };
    let cmd = Command::SetConfig(SetConfigCommand {
        header: ProtocolHeader { version: 65536, correlation_id: Some(3) },
        config: incoming,
    });
    let (merged, updated, header) = match m.plan_command(&cmd) {
        CommandPlan::PersistSet { merged, updated, header } => (merged, updated, header),
        _ => panic!("SetConfig must yield a configuration to persist"),
    };
    assert!(updated.mappings);
    assert!(updated.button_names);
    assert!(!updated.wifi);
    // No row was added for the unknown id.
    assert!(merged.mappings.iter().all(|e| e.button != "99"));
    // The known id took the incoming actions.
    let row2 = merged.mappings.iter().find(|e| e.button == "2").unwrap();
    assert_eq!(row2.actions, vec![ConfigAction::ConsumerPress { usage_id: 0xE2 }]);
    // The long name was stored cut to twenty characters.
    let names = merged.button_names.as_ref().unwrap();
    let name1 = &names.iter().find(|b| b.index == 1).unwrap().name;
    assert_eq!(name1, "a name of twenty-five ch."[..20].to_string().as_str());
    assert_eq!(name1.chars().count(), 20);
    // Finish with a successful save: an acknowledgement, the new table
    // pushed, no wireless signal.
    let (response, push, wifi) =
        m.finish_set_config(merged, updated, header, true, String::new());
    match response {
        Response::Ack(ack) => {
            assert!(ack.success);
            assert_eq!(ack.message, "Config set successfully");
            assert_eq!(ack.header.correlation_id, Some(3));
        },
        _ => panic!("a persisted SetConfig must acknowledge"),
    }
    let pushed = push.unwrap();
    assert!(pushed.iter().any(|e| e.button == "2"
        && e.actions == vec![ConfigAction::ConsumerPress { usage_id: 0xE2 }]));
    assert!(wifi.is_none());
}

#[test]
fn set_config_failure_reports_error_code_one() {
    let mut m = manager();
    let incoming = DeviceConfig {
        settings: empty_settings(),
        mappings: Vec::new(),
        button_names: None,
        widgets: None,
    };
    let cmd = Command::SetConfig(SetConfigCommand {
        header: ProtocolHeader { version: 65536, correlation_id: Some(9) },
        config: incoming,
    });
    let (merged, updated, header) = match m.plan_command(&cmd) {
        CommandPlan::PersistSet { merged, updated, header } => (merged, updated, header),
        _ => panic!("SetConfig must yield a configuration to persist"),
    };
    let (response, push, wifi) =
        m.finish_set_config(merged, updated, header, false, "disk full".to_string());
    match response {
        Response::Error(err) => {
            assert_eq!(err.error_code, 1);
            assert_eq!(err.message, "disk full");
            assert_eq!(err.header.correlation_id, Some(9));
        },
        _ => panic!("a failed SetConfig must answer with the error"),
    }
    assert!(push.is_none());
    assert!(wifi.is_none());
}

#[test]
fn set_config_wifi_change_signals_new_settings() {
    let mut m = manager();
    let incoming = DeviceConfig {
        settings: DeviceSettings {
            wifi: Some(WifiSettings {
                ssid: "panel-net".to_string(),
                password: "SECRET-REDACTED".to_string(),
            }),
            timezone_offset: None,
            api_key: None,
        },
        mappings: Vec::new(),
        button_names: None,
        widgets: None,
    };
    let cmd = Command::SetConfig(SetConfigCommand {
        header: ProtocolHeader { version: 65536, correlation_id: None },
        config: incoming,
    });
    let (merged, updated, header) = match m.plan_command(&cmd) {
        CommandPlan::PersistSet { merged, updated, header } => (merged, updated, header),
        _ => panic!("SetConfig must yield a configuration to persist"),
    };
    assert!(updated.wifi);
    let (_, _, wifi) = m.finish_set_config(merged, updated, header, true, String::new());
    let settings = wifi.unwrap().unwrap();
    assert_eq!(settings.ssid, "panel-net");
}

#[test]
fn reset_config_restores_default_and_acks() {
    let mut m = manager();
    let cmd = Command::ResetConfig(ResetConfigCommand {
        header: ProtocolHeader { version: 65536, correlation_id: Some(4) },
    });
    let (merged, header) = match m.plan_command(&cmd) {
        CommandPlan::PersistReset { merged, header } => (merged, header),
        _ => panic!("ResetConfig must yield the default configuration to persist"),
    };
    assert_eq!(merged, default_device_config());
    let response = m.finish_reset_config(merged, header, true, String::new());
    match response {
        Response::Ack(ack) => {
            assert!(ack.success);
            assert_eq!(ack.message, "Config reset successfully");
            assert_eq!(ack.header.correlation_id, Some(4));
        },
        _ => panic!("a persisted reset must acknowledge"),
    }
}

#[test]
fn reset_config_failure_acks_without_success() {
    let mut m = manager();
    let cmd = Command::ResetConfig(ResetConfigCommand {
        header: ProtocolHeader { version: 65536, correlation_id: None },
    });
    let (merged, header) = match m.plan_command(&cmd) {
        CommandPlan::PersistReset { merged, header } => (merged, header),
        _ => panic!("ResetConfig must yield the default configuration to persist"),
    };
    let response = m.finish_reset_config(merged, header, false, "no space".to_string());
    match response {
        Response::Ack(ack) => {
            assert!(!ack.success);
            assert_eq!(ack.message, "no space");
        },
        _ => panic!("a failed reset still answers with an acknowledgement"),
    }
}

#[test]
fn empty_api_key_deletes_stored_key() {
    let mut with_key = default_device_config();
    with_key.settings.api_key = Some("SECRET-REDACTED".to_string());
    let mut m = ProtocolManager::new(Configurator::new(with_key));
    let incoming = DeviceConfig {
        settings: DeviceSettings {
            wifi: None,
            timezone_offset: None,
            api_key: Some(String::new()),
        },
        mappings: Vec::new(),
        button_names: None,
        widgets: None,
    };
    let cmd = Command::SetConfig(SetConfigCommand {
        header: ProtocolHeader { version: 65536, correlation_id: None },
        config: incoming,
    });
    let merged = match m.plan_command(&cmd) {
        CommandPlan::PersistSet { merged, .. } => merged,
        _ => panic!("SetConfig must yield a configuration to persist"),
    };
    assert!(merged.settings.api_key.is_none());
}
