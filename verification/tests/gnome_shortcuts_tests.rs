use flick::gnome_shortcuts::{
    dconf_path_for, format_list, names_gnome_desktop, gvariant_string, is_gnome_desktop, is_owned, parse_list,
    plan_shortcut_clear, plan_shortcut_sync, relocatable_schema, shortcut_clear_plan,
    trigger_command_for,
};

#[test]
fn test_helpers() {
    assert_eq!(dconf_path_for("F17"), "/org/gnome/settings-daemon/plugins/media-keys/custom-keybindings/flick-F17/");
    assert_eq!(relocatable_schema("/path"), "org.gnome.settings-daemon.plugins.media-keys.custom-keybinding:/path");
    assert_eq!(gvariant_string("Flick F17"), "\"Flick F17\"");
    assert_eq!(gvariant_string("a\\b\"c"), "\"a\\\\b\\\"c\"");
}

#[test]
fn test_list_parse_and_format() {
    let list_str = "['/path/a/', '/path/b/']";
    let parsed = parse_list(list_str);
    assert_eq!(parsed.len(), 2);
    assert_eq!(parsed[0], "/path/a/");
    assert_eq!(parsed[1], "/path/b/");

    let empty_list = "@as []";
    assert_eq!(parse_list(empty_list).len(), 0);

    let formatted = format_list(&parsed);
    assert_eq!(formatted, "['/path/a/', '/path/b/']");

    let formatted_empty = format_list(&[]);
    assert_eq!(formatted_empty, "@as []");
}

#[test]
fn test_is_gnome_session() {
    assert!(is_gnome_desktop("Ubuntu:GNOME"));
    assert!(!is_gnome_desktop("XFCE"));
}

#[test]
fn gnome_like_desktops() {
    assert!(is_gnome_desktop("pop"));
    assert!(is_gnome_desktop("X-Cinnamon"));
    assert!(is_gnome_desktop("Unity"));
    assert!(!is_gnome_desktop("KDE"));
    assert!(!is_gnome_desktop(""));
}

#[test]
fn test_trigger_command() {
    let cmd = trigger_command_for("/usr/bin/flick", "F17");
    assert!(cmd.contains("--trigger F17"));
    assert_eq!(cmd, "'/usr/bin/flick' --trigger F17");
}

#[test]
fn trigger_command_quotes_single_quotes() {
    assert_eq!(trigger_command_for("/opt/it's/flick", "F13"), "'/opt/it'\\''s/flick' --trigger F13");
}

#[test]
fn owned_paths_are_recognised() {
    assert!(is_owned(&dconf_path_for("F13")));
    assert!(!is_owned("/org/gnome/settings-daemon/plugins/media-keys/custom-keybindings/custom0/"));
}

#[test]
fn sync_plan_keeps_foreign_entries_and_resets_stale_ones() {
    let base = "/org/gnome/settings-daemon/plugins/media-keys/custom-keybindings";
    let raw = format!("['{}/custom0/', '{}/flick-F13/', '{}/flick-F20/']", base, base, base);
    let plan = plan_shortcut_sync(&["f13".to_string(), "F14".to_string()], &raw, "/usr/bin/flick");
    assert_eq!(plan.wanted, vec!["F13".to_string(), "F14".to_string()]);
    assert_eq!(plan.reset_paths, vec![format!("{}/flick-F20/", base)]);
    assert_eq!(plan.entries.len(), 2);
    assert_eq!(plan.entries[0].schema, format!("org.gnome.settings-daemon.plugins.media-keys.custom-keybinding:{}/flick-F13/", base));
    assert_eq!(plan.entries[0].name, "\"Flick F13\"");
    assert_eq!(plan.entries[0].command, "\"'/usr/bin/flick' --trigger F13\"");
    assert_eq!(plan.entries[1].binding, "\"F14\"");
    assert_eq!(
        plan.list_value,
        format!("['{}/custom0/', '{}/flick-F13/', '{}/flick-F14/']", base, base, base)
    );
}

#[test]
fn clear_plan_resets_owned_entries() {
    let base = "/org/gnome/settings-daemon/plugins/media-keys/custom-keybindings";
    let raw = format!("['{}/custom0/', '{}/flick-F13/']", base, base);
    let plan = plan_shortcut_clear(&raw).expect("an owned entry is present");
    assert_eq!(plan.reset_paths, vec![format!("{}/flick-F13/", base)]);
    assert_eq!(plan.list_value, format!("['{}/custom0/']", base));
    assert!(plan_shortcut_clear(&format!("['{}/custom0/']", base)).is_none());
    assert!(shortcut_clear_plan(&vec![]).is_none());
    let only_owned = vec![format!("{}/flick-F13/", base)];
    assert_eq!(shortcut_clear_plan(&only_owned).unwrap().list_value, "@as []");
}

#[test]
fn syncing_twice_changes_nothing_more() {
    let base = "/org/gnome/settings-daemon/plugins/media-keys/custom-keybindings";
    let raw = format!("['{}/custom0/', '{}/flick-F20/']", base, base);
    let keys = vec!["F13".to_string(), "F15".to_string()];
    let first = plan_shortcut_sync(&keys, &raw, "/opt/flick");
    let second = plan_shortcut_sync(&keys, &first.list_value, "/opt/flick");
    assert_eq!(second.list_value, first.list_value);
    assert!(second.reset_paths.is_empty());
}

#[test]
fn unclosed_quotes_give_no_item() {
    assert_eq!(parse_list("['a', 'b"), vec!["a".to_string()]);
    assert_eq!(parse_list("'x''y'"), vec!["x".to_string(), "y".to_string()]);
}

#[test]
fn lower_case_desktop_names() {
    assert!(names_gnome_desktop("ubuntu:gnome"));
    assert!(!names_gnome_desktop("UBUNTU:GNOME"));
    assert!(!names_gnome_desktop("xfce"));
}
