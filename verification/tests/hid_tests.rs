use flick::hid::{
    assist_key_id, classify_interface, hid_key_id_to_f_key, keyboard_report_step, keychron_devices_of, keychron_interface,
    usage_to_fkey, HidDeviceRecord, HidInterface,
};

#[test]
fn test_usage_to_fkey() {
    // F13 boundary
    assert_eq!(usage_to_fkey(0x68), Some("F13".to_string()));
    // F17
    assert_eq!(usage_to_fkey(0x6c), Some("F17".to_string()));
    // F24 boundary
    assert_eq!(usage_to_fkey(0x73), Some("F24".to_string()));

    // Out of bounds
    assert_eq!(usage_to_fkey(0x67), None);
    assert_eq!(usage_to_fkey(0x74), None);
    assert_eq!(usage_to_fkey(0x00), None);
}

#[test]
fn test_hid_key_id_to_f_key() {
    assert_eq!(hid_key_id_to_f_key(1), Some("F13".to_string()));
    assert_eq!(hid_key_id_to_f_key(5), Some("F17".to_string()));
    assert_eq!(hid_key_id_to_f_key(12), Some("F24".to_string()));

    // Out of bounds cases
    assert_eq!(hid_key_id_to_f_key(0), None);
    assert_eq!(hid_key_id_to_f_key(13), None);
    assert_eq!(hid_key_id_to_f_key(255), None);
}

#[test]
fn usage_and_key_id_name_the_same_keys() {
    for id in 1u8..=12 {
        assert_eq!(usage_to_fkey(0x67 + id), hid_key_id_to_f_key(id));
    }
}

#[test]
fn interfaces_are_classified() {
    assert_eq!(classify_interface(0x01, 0x06), HidInterface::Keyboard);
    assert_eq!(classify_interface(0xff00, 0x0d), HidInterface::Assist);
    assert_eq!(classify_interface(0x01, 0x02), HidInterface::Other);
    assert_eq!(classify_interface(0x0c, 0x01), HidInterface::Other);
}

#[test]
fn keyboard_reports_send_new_presses_once() {
    let (now, newly) = keyboard_report_step(&vec![], &vec![0x00, 0x68, 0x04, 0x68, 0x6c]);
    assert_eq!(now, vec![0x68, 0x6c]);
    assert_eq!(newly, vec!["F13".to_string(), "F17".to_string()]);
    let (now2, newly2) = keyboard_report_step(&now, &vec![0x6c, 0x73]);
    assert_eq!(now2, vec![0x6c, 0x73]);
    assert_eq!(newly2, vec!["F24".to_string()]);
    let (now3, newly3) = keyboard_report_step(&now2, &vec![0, 0, 0]);
    assert!(now3.is_empty());
    assert!(newly3.is_empty());
}

#[test]
fn held_keys_are_announced_once() {
    let report = vec![0x70, 0x00, 0x70, 0x71];
    let (held, first) = keyboard_report_step(&vec![], &report);
    assert_eq!(first, vec!["F21".to_string(), "F22".to_string()]);
    let (again, second) = keyboard_report_step(&held, &report);
    assert_eq!(again, held);
    assert!(second.is_empty());
}

#[test]
fn assist_reports_give_a_key_id() {
    assert_eq!(assist_key_id(&vec![]), 1);
    assert_eq!(assist_key_id(&vec![0, 7]), 1);
    assert_eq!(assist_key_id(&vec![5, 0]), 5);
}

#[test]
fn keychron_devices_are_listed_once() {
    let records = vec![
        HidDeviceRecord { vendor_id: 0x3434, product_id: 0x0321, product_string: Some("  Keychron Q1  ".to_string()) },
        HidDeviceRecord { vendor_id: 0x046d, product_id: 0x0001, product_string: Some("Mouse".to_string()) },
        HidDeviceRecord { vendor_id: 0x3434, product_id: 0x0321, product_string: Some("Other".to_string()) },
        HidDeviceRecord { vendor_id: 0x3434, product_id: 0x00ab, product_string: None },
    ];
    let devices = keychron_devices_of(&records);
    assert_eq!(devices.len(), 2);
    assert_eq!(devices[0].vp_id, (0x3434u32 << 16) | 0x0321);
    assert_eq!(devices[0].name, "Keychron Q1");
    assert_eq!(devices[1].vp_id, (0x3434u32 << 16) | 0x00ab);
    assert_eq!(devices[1].name, "Keychron (0x00ab)");
    assert_eq!(devices[1].product_id, 0x00ab);
}

#[test]
fn only_keychron_interfaces_are_read() {
    assert_eq!(keychron_interface(0x3434, 0x01, 0x06), HidInterface::Keyboard);
    assert_eq!(keychron_interface(0x3434, 0xff00, 0x0d), HidInterface::Assist);
    assert_eq!(keychron_interface(0x3434, 0x0c, 0x01), HidInterface::Other);
    assert_eq!(keychron_interface(0x046d, 0x01, 0x06), HidInterface::Other);
}
