use virsh_usb::host::{line_text, Pause, Reply, Request, Step};
use virsh_usb::usb::{
    attached_devices_in, extract_id, find_any_device_in_output, find_device_by_name,
    find_usb_device, find_usb_device_in_output, get_all_usb_devices, get_attached_devices,
    is_device_attached, parse_lsusb_output, parse_usb_devices, select_usb_device, Front,
};
use virsh_usb::vm::build_hostdev_xml;

fn play<T>(
    operation: impl Fn(&Vec<Reply>) -> Step<T>,
    replies: Vec<Reply>,
) -> (Vec<String>, Result<T, Vec<String>>) {
    let mut left = replies.into_iter();
    let mut log: Vec<Reply> = Vec::new();
    let mut asked: Vec<String> = Vec::new();
    loop {
        match operation(&log) {
            Ok((result, used)) => {
                assert_eq!(used, log.len());
                assert!(left.next().is_none(), "replies are left after {:?}", asked);
                return (asked, Ok(result));
            }
            Err(Pause::Ask(request)) => {
                asked.push(short(&request));
                match left.next() {
                    Some(reply) => log.push(reply),
                    None => panic!("no reply is left for {:?}", asked),
                }
            }
            Err(Pause::Fail(messages, used)) => {
                assert_eq!(used, log.len());
                assert!(left.next().is_none(), "replies are left after {:?}", asked);
                return (asked, Err(messages));
            }
        }
    }
}

fn short(request: &Request) -> String {
    match request {
        Request::Run(args) => format!("run {}", args.join(" ")),
        Request::Say(line) => format!("say {}", line_text(line)),
        Request::Warn(line) => format!("warn {}", line_text(line)),
        Request::Write(path, text) => format!("write {}: {}", path, text),
        Request::Read(path) => format!("read {}", path),
        Request::Remove(path) => format!("remove {}", path),
        Request::Exists(path) => format!("exists {}", path),
        Request::Choose(prompt, options, start) => format!(
            "choose {} [{}] {}",
            line_text(prompt),
            options.iter().map(line_text).collect::<Vec<_>>().join("|"),
            start
        ),
        other => format!("{:?}", other),
    }
}

fn out(text: &str) -> Reply {
    Reply::Exit(true, text.as_bytes().to_vec(), vec![])
}

fn error(text: &str) -> Reply {
    Reply::Exit(false, vec![], text.as_bytes().to_vec())
}

fn failed(message: &str) -> Reply {
    Reply::Failed(vec![message.to_string()])
}

const LSUSB: &str = "Bus 001 Device 001: ID 1d6b:0002 Linux Foundation 2.0 root hub\nBus 001 Device 003: ID 046d:c52b Logitech USB Receiver\nBus 003 Device 006: ID 0dd4:4105 Custom Engineering SPA PaperHandler\nBus 004 Device 002: ID 046d:c077 Logitech Mouse\n";

fn ids(pairs: &[(&str, &str)]) -> Vec<(String, String)> {
    pairs.iter().map(|(v, p)| (v.to_string(), p.to_string())).collect()
}

#[test]
fn a_line_gives_a_device() {
    let devices = parse_lsusb_output(LSUSB);
    assert_eq!(devices.len(), 3);
    let d = &devices[1];
    assert_eq!(d.bus, "003");
    assert_eq!(d.device, "006");
    assert_eq!(d.vendor_id, "0dd4");
    assert_eq!(d.product_id, "4105");
    assert_eq!(d.name, "Custom Engineering SPA PaperHandler");
    assert!(!d.attached);
    assert_eq!(
        line_text(&d.label()),
        "0dd4:4105 - Custom Engineering SPA PaperHandler (Bus 003 Device 006)"
    );
}

#[test]
fn lines_of_another_form_are_passed_over() {
    assert!(parse_lsusb_output("").is_empty());
    assert!(parse_lsusb_output("Bus 001 Device 002: ID\n").is_empty());
    assert!(parse_lsusb_output("Bus 001 Device 002: ID 1234 Name\n").is_empty());
    assert!(parse_lsusb_output("Bus 001 Device 002: ID 1:2:3 Name\n").is_empty());
    assert_eq!(parse_lsusb_output("Bus 001 Device 002: ID 1:2\n")[0].name, "");
}

#[test]
fn root_hubs_are_known_by_name_and_by_ids() {
    for line in [
        "Bus 1 Device 1: ID 1d6b:0002 x",
        "Bus 1 Device 1: ID 1d6b:0003 x",
        "Bus 1 Device 1: ID 0000:0000 some Root HUB",
        "Bus 1 Device 1: ID 0000:0000 LINUX foundation",
    ] {
        assert!(parse_lsusb_output(line).is_empty(), "{}", line);
        assert_eq!(parse_usb_devices(line).len(), 1, "{}", line);
    }
    assert_eq!(parse_lsusb_output("Bus 1 Device 1: ID 1d6b:0104 gadget").len(), 1);
}

#[test]
fn the_tool_finds_root_hubs_too() {
    assert_eq!(find_usb_device_in_output(LSUSB, "1d6b", "0002"), None);
    assert_eq!(
        find_any_device_in_output(LSUSB, "1d6b", "0002"),
        Some(("001".to_string(), "001".to_string()))
    );
    for d in parse_usb_devices(LSUSB) {
        assert_eq!(
            find_any_device_in_output(LSUSB, &d.vendor_id, &d.product_id),
            Some((d.bus, d.device))
        );
    }
}

#[test]
fn ids_stand_between_quotes() {
    assert_eq!(extract_id("<vendor id='0x0dd4'/>"), Some("0dd4".to_string()));
    assert_eq!(extract_id("<vendor id='0dd4'/>"), Some("0dd4".to_string()));
    assert_eq!(extract_id("<vendor id=\"0dd4\"/>"), None);
}

#[test]
fn host_devices_are_read_from_a_definition() {
    let xml = format!(
        "<domain>\n  <hostdev mode='subsystem' type='pci'>\n    <vendor id='0x1111'/>\n    <product id='0x2222'/>\n  </hostdev>\n{}{}</domain>\n",
        build_hostdev_xml("0dd4", "4105"),
        build_hostdev_xml("046d", "c52b"),
    );
    assert_eq!(attached_devices_in(&xml), ids(&[("0dd4", "4105"), ("046d", "c52b")]));
    assert_eq!(
        attached_devices_in("<hostdev type='usb'>\n<vendor id='0x1'/>\n</hostdev>\n"),
        ids(&[])
    );
}

#[test]
fn a_definition_is_read_back() {
    for (v, p) in [("0dd4", "4105"), ("", ""), ("x y", "\u{e9}")] {
        assert_eq!(attached_devices_in(&build_hostdev_xml(v, p)), ids(&[(v, p)]));
    }
    assert_eq!(attached_devices_in(&build_hostdev_xml("0x0dd4", "1")), ids(&[("0dd4", "1")]));
}

#[test]
fn attachment_is_asked_of_the_definition() {
    let xml = build_hostdev_xml("0dd4", "4105");
    let (asked, ended) =
        play(|log| is_device_attached(log, 0, "vm1", "0dd4", "4105"), vec![out(&xml)]);
    assert_eq!(asked, ["run virsh dumpxml vm1"]);
    assert_eq!(ended, Ok(true));
    let (_, ended) =
        play(|log| is_device_attached(log, 0, "vm1", "0dd4", "4106"), vec![out(&xml)]);
    assert_eq!(ended, Ok(false));
    let (_, ended) = play(|log| get_attached_devices(log, 0, "vm1"), vec![error("no domain")]);
    assert_eq!(ended, Ok(vec![]));
}

#[test]
fn the_host_is_asked_for_its_devices() {
    let (asked, ended) = play(|log| get_all_usb_devices(log, 0), vec![out(LSUSB)]);
    assert_eq!(asked, ["run lsusb"]);
    assert_eq!(ended.unwrap().len(), 3);
    let (_, ended) = play(|log| find_usb_device(log, 0, "0dd4", "4105"), vec![out(LSUSB)]);
    assert_eq!(ended, Ok(Some(("003".to_string(), "006".to_string()))));
    let (_, ended) = play(|log| find_usb_device(log, 0, "0dd4", "4105"), vec![error("x")]);
    assert_eq!(ended, Err(vec!["Command failed: lsusb\nError: x".to_string()]));
}

#[test]
fn a_search_ignores_case() {
    for name in ["PaperHandler", "paperhandler", "PAPER"] {
        let (_, ended) = play(
            |log| find_device_by_name(Front::Tool, log, 0, name, None, false),
            vec![out(LSUSB)],
        );
        assert_eq!(ended, Ok(("0dd4".to_string(), "4105".to_string())));
    }
}

#[test]
fn a_search_goes_beyond_ascii() {
    let (_, ended) = play(
        |log| find_device_by_name(Front::Tool, log, 0, "GRÖSSE", None, false),
        vec![out("Bus 1 Device 2: ID 1:2 Größe größe grösse\n")],
    );
    assert_eq!(ended, Ok(("1".to_string(), "2".to_string())));
}

#[test]
fn of_several_matches_the_user_picks() {
    let (asked, ended) = play(
        |log| find_device_by_name(Front::Tool, log, 0, "logitech", Some("vm1"), false),
        vec![out(LSUSB), out(""), Reply::Picked(1)],
    );
    assert_eq!(
        asked[2],
        "choose 🔌 Multiple devices match 'logitech'. Select one [046d:c52b - Logitech USB Receiver (Bus 001 Device 003)|046d:c077 - Logitech Mouse (Bus 004 Device 002)] 0"
    );
    assert_eq!(ended, Ok(("046d".to_string(), "c077".to_string())));
}

#[test]
fn no_match_is_told() {
    let (_, ended) = play(
        |log| find_device_by_name(Front::Console, log, 0, "scanner", None, false),
        vec![out(LSUSB)],
    );
    assert_eq!(ended, Err(vec!["No USB device found matching name: 'scanner',".to_string()]));
    let (_, ended) = play(
        |log| find_device_by_name(Front::Tool, log, 0, "scanner", None, false),
        vec![out(LSUSB)],
    );
    assert_eq!(ended, Err(vec!["No USB device found matching name: 'scanner'".to_string()]));
}

#[test]
fn only_attached_devices_match_for_detaching() {
    let xml = build_hostdev_xml("046d", "c077");
    let (_, ended) = play(
        |log| find_device_by_name(Front::Console, log, 0, "logitech", Some("vm1"), true),
        vec![out(LSUSB), out(&xml)],
    );
    assert_eq!(ended, Ok(("046d".to_string(), "c077".to_string())));
}

#[test]
fn a_device_is_selected_from_the_list() {
    let xml = build_hostdev_xml("046d", "c077");
    let (asked, ended) = play(
        |log| select_usb_device(log, 0, Some("vm1"), false),
        vec![out(LSUSB), out(&xml), Reply::Picked(2)],
    );
    assert_eq!(
        asked[2],
        "choose 🔌 Select a USB device [046d:c52b - Logitech USB Receiver (Bus 001 Device 003)|0dd4:4105 - Custom Engineering SPA PaperHandler (Bus 003 Device 006)|046d:c077 - Logitech Mouse (Bus 004 Device 002) [attached]] 0"
    );
    assert_eq!(ended, Ok(("046d".to_string(), "c077".to_string())));
}

#[test]
fn nothing_to_select_is_told() {
    let (_, ended) =
        play(|log| select_usb_device(log, 0, Some("vm1"), true), vec![out(LSUSB), out("")]);
    assert_eq!(ended, Err(vec!["No USB devices are currently attached to the VM".to_string()]));
    let (_, ended) = play(|log| select_usb_device(log, 0, None, false), vec![out("")]);
    assert_eq!(ended, Err(vec!["No USB devices found".to_string()]));
    let (_, ended) = play(
        |log| select_usb_device(log, 0, None, false),
        vec![out(LSUSB), failed("canceled")],
    );
    assert_eq!(
        ended,
        Err(vec!["Failed to select USB device".to_string(), "canceled".to_string()])
    );
    let (_, ended) =
        play(|log| select_usb_device(log, 0, None, false), vec![out(LSUSB), Reply::Picked(3)]);
    assert_eq!(ended, Err(vec!["Selected device not found".to_string()]));
}

#[test]
fn looking_up_agrees_with_the_list() {
    let output = "Bus 001 Device 001: ID 1d6b:0001 Linux Foundation 1.1 root hub\nBus 002 Device 003: ID 046d:c52b Logitech USB Receiver\nBus 003 Device 006: ID 0dd4:4105 PaperHandler\nBus 004 Device 007: ID 046d:c52b Logitech USB Receiver\nBus 005 Device 008: ID 0dd4:1d6b Root Hub of a plant\n";
    for (vendor_id, product_id) in [
        ("046d", "c52b"),
        ("0dd4", "4105"),
        ("0dd4", "1d6b"),
        ("1d6b", "0001"),
        ("1d6b", "0dd4"),
        ("046D", "C52B"),
    ] {
        for (listed, found) in [
            (
                parse_lsusb_output(output),
                find_usb_device_in_output(output, vendor_id, product_id),
            ),
            (
                parse_usb_devices(output),
                find_any_device_in_output(output, vendor_id, product_id),
            ),
        ] {
            let first = listed
                .iter()
                .find(|d| d.vendor_id == vendor_id && d.product_id == product_id)
                .map(|d| (d.bus.clone(), d.device.clone()));
            assert_eq!(found, first);
        }
    }
    assert_eq!(
        find_usb_device_in_output(output, "046d", "c52b"),
        Some(("002".to_string(), "003".to_string()))
    );
    assert_eq!(find_usb_device_in_output(output, "1d6b", "0001"), None);
}
