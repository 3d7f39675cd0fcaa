use flick::trigger_ipc::{relay_acknowledged, trigger_ack, trigger_message, triggered_key_of, FLICK_TRIGGER_PORT};

#[test]
fn trigger_messages_round_trip() {
    assert_eq!(trigger_message("F22"), "TRIGGER F22\n");
    assert_eq!(triggered_key_of(&trigger_message("F22")), Some("F22".to_string()));
    assert_eq!(triggered_key_of(&trigger_message("  F16 ")), Some("F16".to_string()));
    assert_eq!(triggered_key_of(&trigger_message("   ")), None);
    assert_eq!(triggered_key_of(&trigger_message("")), None);
}

#[test]
fn server_reads_only_trigger_lines() {
    assert_eq!(triggered_key_of("  TRIGGER FOCUS\r\n"), Some("FOCUS".to_string()));
    assert_eq!(triggered_key_of("HELLO F13\n"), None);
    assert_eq!(triggered_key_of("TRIGGERF13\n"), None);
    assert_eq!(triggered_key_of("TRIGGER\n"), None);
}

#[test]
fn replies_acknowledge_with_ok() {
    assert_eq!(trigger_ack(), "OK\n");
    assert!(relay_acknowledged("OK\n"));
    assert!(relay_acknowledged("xxOKxx"));
    assert!(!relay_acknowledged("ok\n"));
    assert!(!relay_acknowledged(""));
    assert_eq!(FLICK_TRIGGER_PORT, 40104);
}
