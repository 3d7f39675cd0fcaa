use flick::apps::AppInfo;
use flick::bridge_ws::{
    app_list_replies, binds_reply, closing_reply_of, direct_reply, is_fkey_text_exec, is_new_bind,
    quick_start_action, route_message, BindPayload, QuickStartAction, ReplyData, WsData, WsRoute,
};
use flick::config::{QuickStartBinds, QuickStartOption, QuickStartOptionData};

fn option(opt_type: &str, path: &str) -> QuickStartOption {
    QuickStartOption {
        opt_type: opt_type.to_string(),
        opt_data: QuickStartOptionData {
            name: "n".to_string(),
            path: path.to_string(),
            icon: String::new(),
            icon_path: String::new(),
        },
    }
}

fn text(t: &str) -> WsData {
    WsData { is_string: true, text: t.to_string(), payload: None }
}

#[test]
fn messages_are_routed() {
    assert_eq!(route_message("Common", "GetVersion"), WsRoute::Version);
    assert_eq!(route_message("Common", "Other"), WsRoute::CommonEmpty);
    assert_eq!(route_message("QuickStart", "Get"), WsRoute::QuickStart);
    assert_eq!(route_message("", ""), WsRoute::Echo);
    let r = direct_reply("Mystery", "Cmd").unwrap();
    assert_eq!(r.evt_type, "Mystery");
    assert_eq!(r.cmd, "Cmd");
    assert!(matches!(r.data, ReplyData::Text(ref t) if t.is_empty()));
    let v = direct_reply("Common", "GetVersion").unwrap();
    assert!(matches!(v.data, ReplyData::Version));
    assert!(direct_reply("QuickStart", "Get").is_none());
}

#[test]
fn acknowledgments_are_ignored() {
    assert!(matches!(quick_start_action("Get", text("Success")), QuickStartAction::Ignore));
    assert!(matches!(quick_start_action("AddKeyBind", text("KeyDuplicate")), QuickStartAction::Ignore));
    assert!(matches!(quick_start_action("ClearKeyBind", text("Fail")), QuickStartAction::Ignore));
    assert!(matches!(
        quick_start_action("Get", WsData { is_string: false, text: "\"Success\"".to_string(), payload: None }),
        QuickStartAction::FetchApps
    ));
}

#[test]
fn quick_start_commands() {
    assert!(matches!(quick_start_action("GetKeyBinds", text("")), QuickStartAction::SendBinds));
    let payload = BindPayload { key: "F13".to_string(), bind: option("App", "a") };
    match quick_start_action("AddKeyBind", WsData { is_string: false, text: "{}".to_string(), payload: Some(payload) }) {
        QuickStartAction::AddBind(Some(p)) => assert_eq!(p.key, "F13"),
        other => panic!("unexpected {:?}", other),
    }
    match quick_start_action("ClearKeyBind", text("f14")) {
        QuickStartAction::ClearBinds(Some(k)) => assert_eq!(k, "f14"),
        other => panic!("unexpected {:?}", other),
    }
    assert!(matches!(quick_start_action("ClearKeyBind", text("all")), QuickStartAction::ClearBinds(None)));
    assert!(matches!(
        quick_start_action("ClearKeyBind", WsData { is_string: false, text: "null".to_string(), payload: None }),
        QuickStartAction::ClearBinds(None)
    ));
    let payload = BindPayload { key: "F15".to_string(), bind: option("Url", "u") };
    match quick_start_action("DelKeyBind", WsData { is_string: false, text: "{}".to_string(), payload: Some(payload) }) {
        QuickStartAction::RemoveBind(Some(k)) => assert_eq!(k, "F15"),
        other => panic!("unexpected {:?}", other),
    }
    assert!(matches!(quick_start_action("RemoveKeyBind", text("x")), QuickStartAction::RemoveBind(None)));
    assert!(matches!(quick_start_action("Whatever", text("x")), QuickStartAction::Unknown));
}

#[test]
fn fkey_texts() {
    assert!(is_fkey_text_exec("F13"));
    assert!(is_fkey_text_exec("f7"));
    assert!(is_fkey_text_exec("F+1"));
    assert!(!is_fkey_text_exec("F"));
    assert!(!is_fkey_text_exec("F-1"));
    assert!(!is_fkey_text_exec("G13"));
    assert!(!is_fkey_text_exec("F99999999999"));
}

#[test]
fn closing_replies() {
    let r = closing_reply_of("AddKeyBind", &QuickStartAction::AddBind(None)).unwrap();
    assert_eq!((r.evt_type.as_str(), r.cmd.as_str()), ("QuickStart", "AddKeyBind"));
    assert!(matches!(r.data, ReplyData::Text(ref t) if t == "Success"));
    let r = closing_reply_of("DeleteKeyBind", &QuickStartAction::RemoveBind(None)).unwrap();
    assert_eq!(r.cmd, "DeleteKeyBind");
    let r = closing_reply_of("Nope", &QuickStartAction::Unknown).unwrap();
    assert!(matches!(r.data, ReplyData::Text(ref t) if t.is_empty()));
    assert!(closing_reply_of("Get", &QuickStartAction::FetchApps).is_none());
}

#[test]
fn duplicate_binds_are_not_stored() {
    let mut binds = QuickStartBinds::new();
    assert!(is_new_bind(&binds, "F13", &option("App", "a")));
    binds.insert("F13".to_string(), vec![option("App", "a")]);
    assert!(!is_new_bind(&binds, "F13", &option("App", "a")));
    assert!(is_new_bind(&binds, "F13", &option("Url", "a")));
    assert!(is_new_bind(&binds, "F13", &option("App", "b")));
    binds.insert("F14".to_string(), vec![]);
    assert!(is_new_bind(&binds, "F14", &option("App", "a")));
}

#[test]
fn app_list_is_streamed() {
    let apps = vec![
        AppInfo { id: "a".into(), name: "A".into(), exec_cmd: "run-a".into(), icon: "ia".into() },
        AppInfo { id: "b".into(), name: "B".into(), exec_cmd: "run-b".into(), icon: "ib".into() },
    ];
    let r = app_list_replies(&apps);
    assert_eq!(r.len(), 4);
    assert!(matches!(r[0].data, ReplyData::FetchStart { count: 2 }));
    match &r[2].data {
        ReplyData::Fetch { index, name, path, icon } => {
            assert_eq!((*index, name.as_str(), path.as_str(), icon.as_str()), (1, "B", "run-b", "ib"));
        }
        other => panic!("unexpected {:?}", other),
    }
    assert!(matches!(r[3].data, ReplyData::FetchEnd { count: 2 }));
    assert!(r.iter().all(|m| m.evt_type == "QuickStart" && m.cmd == "Get"));
    assert_eq!(app_list_replies(&vec![]).len(), 2);
    let b = binds_reply(&QuickStartBinds::new());
    assert_eq!(b.cmd, "GetKeyBinds");
}
