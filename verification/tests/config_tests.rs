use esp_deck::config::{
    default_device_config, Configurator, DeviceConfig, DeviceSettings, WidgetItemConfig,
    WidgetKindConfig, WidgetSlot,
};

fn empty_settings() -> DeviceSettings {
    DeviceSettings { wifi: None, timezone_offset: None, api_key: None }
}

fn empty_incoming() -> DeviceConfig {
    DeviceConfig { settings: empty_settings(), mappings: Vec::new(), button_names: None, widgets: None }
}

fn widget(title: &str, url: &str, seconds: u64) -> WidgetItemConfig {
    WidgetItemConfig {
        title: title.to_string(),
        kind: WidgetKindConfig::Image(url.to_string()),
        update_interval_seconds: seconds,
    }
}

#[test]
fn get_config_returns_equal_copy() {
    let c = Configurator::new(default_device_config());
    assert_eq!(c.get_config(), default_device_config());
}

#[test]
fn getters_reflect_stored_settings() {
    let mut config = default_device_config();
    config.settings.timezone_offset = Some(5.5f32.to_bits());
    config.settings.api_key = Some("SECRET-REDACTED".to_string());
    let c = Configurator::new(config);
    assert_eq!(c.get_timezone_offset(), Some(5.5f32.to_bits()));
    assert_eq!(c.get_api_key(), Some("SECRET-REDACTED".to_string()));
    assert!(c.get_wifi_settings().is_none());
    assert_eq!(c.get_mappings().len(), 17);
    assert_eq!(c.get_button_names().unwrap().len(), 16);
}

#[test]
fn merge_keeps_untouched_parts() {
    let c = Configurator::new(default_device_config());
    let (merged, updated) = c.plan_save(&empty_incoming());
    assert_eq!(merged, default_device_config());
    assert!(!updated.wifi && !updated.timezone_offset && !updated.mappings);
    assert!(!updated.button_names && !updated.api_key && !updated.widgets);
}

#[test]
fn merge_overwrites_timezone_wholesale() {
    let c = Configurator::new(default_device_config());
    let mut incoming = empty_incoming();
    incoming.settings.timezone_offset = Some((-3.25f32).to_bits());
    let (merged, updated) = c.plan_save(&incoming);
    assert!(updated.timezone_offset);
    assert_eq!(merged.settings.timezone_offset, Some((-3.25f32).to_bits()));
}

#[test]
fn widget_null_slot_deletes_and_all_deleted_collapses() {
    // The default configuration holds two widgets; deleting both leaves no
    // widget table at all.
    let c = Configurator::new(default_device_config());
    let mut incoming = empty_incoming();
    incoming.widgets = Some(vec![
        WidgetSlot { index: 0, widget: None },
        WidgetSlot { index: 1, widget: None },
    ]);
    let (merged, updated) = c.plan_save(&incoming);
    assert!(updated.widgets);
    assert!(merged.widgets.is_none());
}

#[test]
fn widget_upsert_adds_new_slot_and_keeps_old() {
    let c = Configurator::new(default_device_config());
    let mut incoming = empty_incoming();
    incoming.widgets = Some(vec![WidgetSlot {
        index: 5,
        widget: Some(widget("added", "https://example.com/x.png", 30)),
    }]);
    let (merged, _) = c.plan_save(&incoming);
    let slots = merged.widgets.unwrap();
    assert!(slots.iter().any(|s| s.index == 5
        && s.widget.as_ref().map(|w| w.title.as_str()) == Some("added")));
    // The default widgets are still present.
    assert!(slots.iter().any(|s| s.index == 0 && s.widget.is_some()));
    assert!(slots.iter().any(|s| s.index == 1 && s.widget.is_some()));
}

#[test]
fn get_widgets_skips_deleted_slots() {
    let mut config = default_device_config();
    config.widgets = Some(vec![
        WidgetSlot { index: 0, widget: Some(widget("kept", "https://example.com/a.png", 5)) },
        WidgetSlot { index: 1, widget: None },
    ]);
    let c = Configurator::new(config);
    let live = c.get_widgets().unwrap();
    assert_eq!(live.len(), 1);
    assert_eq!(live[0].index, 0);
    assert!(live[0].widget.is_some());
}

#[test]
fn get_widgets_with_only_deleted_slots_is_nothing() {
    let mut config = default_device_config();
    config.widgets = Some(vec![WidgetSlot { index: 0, widget: None }]);
    let c = Configurator::new(config);
    assert!(c.get_widgets().is_none());
}

#[test]
fn commit_replaces_served_configuration() {
    let mut c = Configurator::new(default_device_config());
    let mut next = default_device_config();
    next.settings.api_key = Some("SECRET-REDACTED".to_string());
    c.commit(next.clone());
    assert_eq!(c.get_config(), next);
}
