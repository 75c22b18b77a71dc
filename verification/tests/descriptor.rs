use virsh_usb::descriptor::{
    build_config_descriptor, build_device_descriptor, build_lang_id_descriptor,
    build_report_descriptor, build_string_descriptor, encode_utf16, handle_control_request,
};

/// A request for a descriptor of the given type and number.
fn get_descriptor(kind: u8, number: u8, length: u16) -> [u8; 8] {
    let length = length.to_le_bytes();
    [0x80, 0x06, number, kind, 0, 0, length[0], length[1]]
}

fn answer(setup: [u8; 8]) -> Vec<u8> {
    handle_control_request(&setup, 0x0c2e, 0x0b61, "Scan")
}

#[test]
fn the_device_descriptor() {
    assert_eq!(
        build_device_descriptor(0x0c2e, 0x0b61),
        [18, 1, 0, 2, 0, 0, 0, 64, 0x2e, 0x0c, 0x61, 0x0b, 0, 1, 1, 2, 0, 1]
    );
}

#[test]
fn the_configuration_descriptor() {
    let report_length = build_report_descriptor().len() as u8;
    assert_eq!(
        build_config_descriptor(),
        [
            9, 2, 34, 0, 1, 1, 0, 0x80, 50, 9, 4, 0, 0, 1, 3, 0, 0, 0, 9, 0x21, 0x11, 0x01, 0, 1,
            0x22, report_length, 0, 7, 5, 0x81, 3, 8, 0, 10,
        ]
    );
}

#[test]
fn the_report_descriptor() {
    assert_eq!(
        build_report_descriptor(),
        [
            0x06, 0x00, 0xff, 0x09, 0x01, 0xa1, 0x01, 0x09, 0x01, 0x15, 0x00, 0x26, 0xff, 0x00,
            0x75, 0x08, 0x95, 0x08, 0x81, 0x02, 0xc0,
        ]
    );
}

#[test]
fn string_descriptors_hold_utf_16() {
    assert_eq!(build_lang_id_descriptor(), [4, 3, 9, 4]);
    assert_eq!(build_string_descriptor("aß"), [6, 3, 0x61, 0, 0xdf, 0]);
    assert_eq!(build_string_descriptor(""), [2, 3]);
    assert_eq!(build_string_descriptor("😀"), [6, 3, 0x3d, 0xd8, 0x00, 0xde]);
    let long: String = "x".repeat(200);
    let d = build_string_descriptor(&long);
    assert_eq!(d.len(), 402);
    assert_eq!(d[0], (402 % 256) as u8);
}

#[test]
fn code_units_are_those_of_the_standard_library() {
    for s in ["", "plain", "Größe", "日本", "a😀b\u{10ffff}\u{e000}\u{d7ff}"] {
        assert_eq!(encode_utf16(s), s.encode_utf16().collect::<Vec<_>>());
    }
}

#[test]
fn descriptors_are_given_on_request() {
    assert_eq!(answer(get_descriptor(1, 0, 64)), build_device_descriptor(0x0c2e, 0x0b61));
    assert_eq!(answer(get_descriptor(2, 0, 255)), build_config_descriptor());
    assert_eq!(answer(get_descriptor(3, 0, 255)), build_lang_id_descriptor());
    assert_eq!(answer(get_descriptor(3, 1, 255)), build_string_descriptor("virsh-usb"));
    assert_eq!(answer(get_descriptor(3, 2, 255)), build_string_descriptor("Scan"));
    assert_eq!(answer(get_descriptor(0x22, 0, 255)), build_report_descriptor());
    assert!(answer(get_descriptor(3, 3, 255)).is_empty());
    assert!(answer(get_descriptor(9, 0, 255)).is_empty());
}

#[test]
fn answers_are_cut_to_what_was_asked_for() {
    assert_eq!(answer(get_descriptor(1, 0, 8)), build_device_descriptor(0x0c2e, 0x0b61)[..8]);
    assert_eq!(answer(get_descriptor(2, 0, 9)), build_config_descriptor()[..9]);
    assert!(answer(get_descriptor(1, 0, 0)).is_empty());
}

#[test]
fn other_requests() {
    assert_eq!(answer([0x80, 0x08, 0, 0, 0, 0, 0, 0]), [1]);
    assert_eq!(answer([0xa1, 0x01, 0, 0, 0, 0, 64, 0]), [0; 8]);
    assert_eq!(answer([0xa1, 0x01, 0, 0, 0, 0, 3, 0]), [0; 3]);
    assert_eq!(answer([0xa1, 0x02, 0, 0, 0, 0, 1, 0]), [0]);
    assert!(answer([0xa1, 0x02, 0, 0, 0, 0, 0, 0]).is_empty());
    assert!(answer([0x80, 0x00, 0, 0, 0, 0, 2, 0]).is_empty());
    assert!(answer([0xc0, 0x06, 0, 1, 0, 0, 64, 0]).is_empty());
    assert!(answer([0x00, 0x06, 0, 1, 0, 0, 64, 0]).is_empty());
    assert!(answer([0x21, 0x0a, 0, 0, 0, 0, 0, 0]).is_empty());
}
