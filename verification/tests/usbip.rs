use virsh_usb::usbip::{
    answer_import, build_devlist_reply, build_import_refusal, build_import_reply,
    build_import_request, greet, import_status, is_device_busid, usbip_device_info, Greeting,
};

fn busid(text: &[u8]) -> [u8; 32] {
    let mut field = [0u8; 32];
    field[..text.len()].copy_from_slice(text);
    field
}

#[test]
fn the_description_of_the_device() {
    let info = usbip_device_info(0x0c2e, 0x0b61);
    assert_eq!(info.len(), 312);
    let path = b"/sys/devices/platform/vhci_hcd.0/usb1/1-1";
    assert_eq!(&info[..path.len()], path);
    assert!(info[path.len()..256].iter().all(|b| *b == 0));
    assert_eq!(info[256..288], busid(b"1-1"));
    assert_eq!(
        info[288..],
        [0, 0, 0, 1, 0, 0, 0, 1, 0, 0, 0, 2, 0x0c, 0x2e, 0x0b, 0x61, 1, 0, 0, 0, 0, 1, 1, 1]
    );
}

#[test]
fn the_list_of_devices() {
    let reply = build_devlist_reply(0x0c2e, 0x0b61);
    assert_eq!(reply[..12], [0x01, 0x11, 0x00, 0x05, 0, 0, 0, 0, 0, 0, 0, 1]);
    assert_eq!(reply[12..324], usbip_device_info(0x0c2e, 0x0b61));
    assert_eq!(reply[324..], [3, 0, 0, 0]);
}

#[test]
fn import_is_asked_and_granted() {
    let request = build_import_request();
    assert_eq!(request[..8], [0x01, 0x11, 0x80, 0x03, 0, 0, 0, 0]);
    assert_eq!(request[8..], busid(b"1-1"));
    let mut header = [0u8; 8];
    header.copy_from_slice(&request[..8]);
    assert!(matches!(greet(&header, 1, 2), Greeting::Import));
    let mut id = [0u8; 32];
    id.copy_from_slice(&request[8..]);
    let (reply, granted) = answer_import(&id, 1, 2);
    assert!(granted);
    assert_eq!(reply, build_import_reply(1, 2));
    assert_eq!(reply[..8], [0x01, 0x11, 0x00, 0x03, 0, 0, 0, 0]);
    assert_eq!(reply[8..], usbip_device_info(1, 2));
    assert_eq!(import_status(&reply), 0);
}

#[test]
fn import_of_another_device_is_refused() {
    for id in [busid(b"1-2"), busid(b"1-1x"), busid(b""), [0xff; 32], busid(b"1-1\0x")] {
        assert!(!is_device_busid(&id));
        let (reply, granted) = answer_import(&id, 1, 2);
        assert!(!granted);
        assert_eq!(reply, build_import_refusal());
        assert_eq!(reply, [0x01, 0x11, 0x00, 0x03, 0, 0, 0, 1]);
        assert_eq!(import_status(&reply), 1);
    }
}

#[test]
fn a_connection_is_greeted_by_its_code() {
    match greet(&[0, 0, 0x80, 0x05, 0, 0, 0, 0], 1, 2) {
        Greeting::List(reply) => assert_eq!(reply, build_devlist_reply(1, 2)),
        _ => panic!("no list"),
    }
    assert!(matches!(greet(&[0x01, 0x11, 0x80, 0x04, 0, 0, 0, 0], 1, 2), Greeting::Ignore));
}
