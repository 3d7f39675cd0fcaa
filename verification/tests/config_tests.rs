use flick::config::{
    load_config, migrate_legacy_binds, stored_config_after_update, config_after_update, AppConfig,
    Binding, ConfigFields, ConfigUpdate, LegacyBindsValue, LegacyConfig, QuickStartBinds,
    QuickStartOption, QuickStartOptionData, StoredConfig, KEYCHRON_WS_PORT,
};

fn option(opt_type: &str, name: &str, path: &str) -> QuickStartOption {
    QuickStartOption {
        opt_type: opt_type.to_string(),
        opt_data: QuickStartOptionData {
            name: name.to_string(),
            path: path.to_string(),
            icon: String::new(),
            icon_path: String::new(),
        },
    }
}

fn no_fields() -> ConfigFields {
    ConfigFields {
        theme: None,
        language: None,
        autostart: None,
        ws_port: None,
        bindings: None,
        quick_start_binds: None,
    }
}

#[test]
fn test_default_config() {
    let default_config = AppConfig::default();
    assert_eq!(default_config.theme, "system");
    assert_eq!(default_config.language, "en");
    assert_eq!(default_config.autostart, false);
    assert_eq!(default_config.ws_port, KEYCHRON_WS_PORT);
    assert_eq!(default_config.bindings.len(), 1);
    assert_eq!(default_config.bindings[0].action_type, "launcher");
}

#[test]
fn config_test_update_config() {
    let current = load_config(&StoredConfig::Absent);
    let update = ConfigUpdate {
        fields: Some(ConfigFields {
            theme: Some("light".to_string()),
            language: Some("en".to_string()),
            autostart: Some(false),
            ..no_fields()
        }),
        mentions_autostart: true,
        mentions_quick_start_binds: false,
    };
    let updated = stored_config_after_update(&current, &update).expect("a well-formed update is stored");
    assert_eq!(updated.theme, "light");
    assert_eq!(updated.language, "en");
    assert_eq!(updated.autostart, false);
}

#[test]
fn update_keeps_fields_it_does_not_name() {
    let mut current = AppConfig::default();
    current.theme = "dark".to_string();
    current.quick_start_binds.insert("F13".to_string(), vec![option("App", "A", "a")]);
    let update = ConfigUpdate {
        fields: Some(ConfigFields { autostart: Some(true), ..no_fields() }),
        mentions_autostart: true,
        mentions_quick_start_binds: false,
    };
    let updated = config_after_update(&current, &update);
    assert_eq!(updated.theme, "dark");
    assert_eq!(updated.autostart, true);
    assert_eq!(updated.quick_start_binds.get("F13").unwrap()[0].opt_data.path, "a");
}

#[test]
fn update_migrates_legacy_port() {
    let current = AppConfig::default();
    let update = ConfigUpdate {
        fields: Some(ConfigFields { ws_port: Some(5005), ..no_fields() }),
        mentions_autostart: false,
        mentions_quick_start_binds: false,
    };
    assert_eq!(config_after_update(&current, &update).ws_port, 40003);
    let update = ConfigUpdate {
        fields: Some(ConfigFields { ws_port: Some(6000), ..no_fields() }),
        mentions_autostart: false,
        mentions_quick_start_binds: false,
    };
    assert_eq!(config_after_update(&current, &update).ws_port, 6000);
}

#[test]
fn malformed_update_changes_nothing() {
    let mut current = AppConfig::default();
    current.ws_port = 5005;
    current.theme = "dark".to_string();
    let update = ConfigUpdate { fields: None, mentions_autostart: true, mentions_quick_start_binds: false };
    // The store keeps its configuration as it is.
    assert!(stored_config_after_update(&current, &update).is_none());
    // The core keeps the fields but migrates the port.
    let core_view = config_after_update(&current, &update);
    assert_eq!(core_view.theme, "dark");
    assert_eq!(core_view.ws_port, 40003);
}

#[test]
fn update_twice_same_as_once() {
    let current = AppConfig::default();
    let update = ConfigUpdate {
        fields: Some(ConfigFields { theme: Some("dark".to_string()), ws_port: Some(5005), ..no_fields() }),
        mentions_autostart: false,
        mentions_quick_start_binds: false,
    };
    let once = config_after_update(&current, &update);
    let twice = config_after_update(&once, &update);
    assert_eq!(once.theme, twice.theme);
    assert_eq!(once.ws_port, twice.ws_port);
    assert_eq!(once.bindings, twice.bindings);
}

#[test]
fn load_absent_gives_defaults() {
    let c = load_config(&StoredConfig::Absent);
    assert_eq!(c.theme, "system");
    assert_eq!(c.ws_port, KEYCHRON_WS_PORT);
    assert!(c.quick_start_binds.is_empty());
}

#[test]
fn load_current_migrates_port() {
    let mut stored = AppConfig::default();
    stored.ws_port = 5005;
    stored.theme = "dark".to_string();
    let c = load_config(&StoredConfig::Current(stored));
    assert_eq!(c.ws_port, 40003);
    assert_eq!(c.theme, "dark");
}

#[test]
fn load_legacy_fills_defaults_and_truncates_port() {
    let legacy = LegacyConfig {
        theme: None,
        language: Some("pt-BR".to_string()),
        autostart: Some(true),
        ws_port: Some(65536 + 5005),
        bindings: None,
        quick_start_binds: Vec::new(),
    };
    let c = load_config(&StoredConfig::Legacy(legacy));
    assert_eq!(c.theme, "system");
    assert_eq!(c.language, "pt-BR");
    assert_eq!(c.autostart, true);
    assert_eq!(c.ws_port, 40003);
    assert_eq!(c.bindings.len(), 1);
    assert_eq!(c.bindings[0].key_id, 1);

    let legacy = LegacyConfig {
        theme: Some("light".to_string()),
        language: None,
        autostart: None,
        ws_port: Some(70000),
        bindings: Some(vec![Binding {
            key_id: 3,
            action_type: "launch_app".to_string(),
            target_app_id: Some("x.desktop".to_string()),
            target_app_name: None,
        }]),
        quick_start_binds: Vec::new(),
    };
    let c = load_config(&StoredConfig::Legacy(legacy));
    assert_eq!(c.ws_port, 4464);
    assert_eq!(c.language, "en");
    assert_eq!(c.bindings[0].key_id, 3);
}

#[test]
fn legacy_binds_are_flattened() {
    let entries = vec![
        ("F13".to_string(), LegacyBindsValue::Options(vec![option("App", "A", "a")])),
        (
            "device-1".to_string(),
            LegacyBindsValue::PerDevice(vec![
                ("F14".to_string(), Some(vec![option("Url", "W", "https://x")])),
                ("F15".to_string(), None),
            ]),
        ),
        ("F16".to_string(), LegacyBindsValue::Unreadable),
        (
            "device-2".to_string(),
            LegacyBindsValue::PerDevice(vec![("F13".to_string(), Some(vec![option("App", "B", "b")]))]),
        ),
    ];
    let binds = migrate_legacy_binds(&entries);
    assert_eq!(binds.len(), 2);
    assert_eq!(binds.keys(), vec!["F13".to_string(), "F14".to_string()]);
    // The later device overrides the earlier flat entry of F13.
    assert_eq!(binds.get("F13").unwrap()[0].opt_data.path, "b");
    assert_eq!(binds.get("F14").unwrap()[0].opt_type, "Url");
    assert!(binds.get("F15").is_none());
    assert!(binds.get("F16").is_none());
}

#[test]
fn binds_map_insert_get_remove_clear() {
    let mut binds = QuickStartBinds::new();
    assert!(binds.is_empty());
    binds.insert("F13".to_string(), vec![option("App", "A", "a")]);
    binds.insert("F14".to_string(), vec![]);
    binds.insert("F13".to_string(), vec![option("Url", "U", "u")]);
    assert_eq!(binds.len(), 2);
    assert_eq!(binds.keys(), vec!["F13".to_string(), "F14".to_string()]);
    assert_eq!(binds.get("F13").unwrap()[0].opt_type, "Url");
    assert!(binds.contains_key("F14"));
    binds.remove("F13");
    assert!(!binds.contains_key("F13"));
    assert_eq!(binds.len(), 1);
    binds.remove("F99");
    assert_eq!(binds.len(), 1);
    let copy = binds.clone();
    binds.clear();
    assert!(binds.is_empty());
    assert_eq!(copy.len(), 1);
}
