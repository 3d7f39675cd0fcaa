use flick::config::{QuickStartBinds, QuickStartOption, QuickStartOptionData};
use flick::shell::{
    assist_key_action, autostart_args, floats_above, hides_on_blur, menu_action, startup_plan,
    tray_labels, AssistAction, MenuAction,
};

fn args(a: &[&str]) -> Vec<String> {
    a.iter().map(|s| s.to_string()).collect()
}

#[test]
fn tray_labels_follow_language() {
    let en = tray_labels("en");
    assert_eq!(en.settings, "Open Settings");
    assert_eq!(en.quit, "Quit");
    let pt = tray_labels("pt-BR");
    assert_eq!(pt.settings, "Abrir Configurações");
    assert_eq!(pt.launcher, "Abrir Launcher (Buscar)");
    assert_eq!(pt.autostart, "Iniciar com o Sistema");
    assert_eq!(pt.quit, "Sair");
}

#[test]
fn menu_entries() {
    assert_eq!(menu_action("settings"), MenuAction::ShowSettings);
    assert_eq!(menu_action("launcher"), MenuAction::ShowLauncher);
    assert_eq!(menu_action("autostart"), MenuAction::ToggleAutostart);
    assert_eq!(menu_action("quit"), MenuAction::Quit);
    assert_eq!(menu_action("title"), MenuAction::Nothing);
}

#[test]
fn assist_keys_fire_bound_keys_or_open_launcher() {
    let mut binds = QuickStartBinds::new();
    binds.insert(
        "F14".to_string(),
        vec![QuickStartOption {
            opt_type: "App".into(),
            opt_data: QuickStartOptionData { name: "a".into(), path: "a".into(), icon: "".into(), icon_path: "".into() },
        }],
    );
    assert_eq!(assist_key_action(2, &binds), AssistAction::Fire("F14".to_string()));
    assert_eq!(assist_key_action(1, &binds), AssistAction::OpenLauncher);
    assert_eq!(assist_key_action(0, &binds), AssistAction::OpenLauncher);
}

#[test]
fn window_rules() {
    assert!(hides_on_blur("launcher"));
    assert!(!hides_on_blur("settings"));
    assert!(floats_above("launcher"));
    assert!(!floats_above("settings"));
}

#[test]
fn startup_plans() {
    let p = startup_plan(&args(&["flick"]));
    assert!(p.show_window);
    assert_eq!(p.cold_trigger, None);
    let p = startup_plan(&args(&["flick", "--hidden"]));
    assert!(!p.show_window);
    let p = startup_plan(&args(&["flick", "--trigger", "F13"]));
    assert!(!p.show_window);
    assert_eq!(p.cold_trigger, Some("F13".to_string()));
    let p = startup_plan(&args(&["flick", "--trigger"]));
    assert!(!p.show_window);
    assert_eq!(p.cold_trigger, None);
}

#[test]
fn autostart_arguments() {
    assert_eq!(autostart_args(true), args(&["--ozone-platform=x11", "--hidden"]));
    assert_eq!(autostart_args(false), args(&["--hidden"]));
}
