use virsh_usb::devices::{HidDevice, VirtualDrive};
use virsh_usb::host::{line_text, Pause, Reply, Request, Step};
use virsh_usb::select::{select_device, DeviceChoice};
use virsh_usb::storage::build_disk_xml;
use virsh_usb::usb::UsbDevice;
use virsh_usb::vm::build_hostdev_xml;

fn play<T>(
    operation: impl Fn(&Vec<Reply>) -> Step<T>,
    replies: Vec<Reply>,
) -> (Vec<String>, Result<T, Vec<String>>) {
    let mut left = replies.into_iter();
    let mut log: Vec<Reply> = Vec::new();
    let mut asked: Vec<String> = Vec::new();
    loop {
        match operation(&log) {
            Ok((result, used)) => {
                assert_eq!(used, log.len());
                assert!(left.next().is_none(), "replies are left after {:?}", asked);
                return (asked, Ok(result));
            }
            Err(Pause::Ask(request)) => {
                asked.push(short(&request));
                match left.next() {
                    Some(reply) => log.push(reply),
                    None => panic!("no reply is left for {:?}", asked),
                }
            }
            Err(Pause::Fail(messages, used)) => {
                assert_eq!(used, log.len());
                assert!(left.next().is_none(), "replies are left after {:?}", asked);
                return (asked, Err(messages));
            }
        }
    }
}

fn short(request: &Request) -> String {
    match request {
        Request::Run(args) => format!("run {}", args.join(" ")),
        Request::Say(line) => format!("say {}", line_text(line)),
        Request::Warn(line) => format!("warn {}", line_text(line)),
        Request::Write(path, text) => format!("write {}: {}", path, text),
        Request::Read(path) => format!("read {}", path),
        Request::Remove(path) => format!("remove {}", path),
        Request::Exists(path) => format!("exists {}", path),
        Request::Choose(prompt, options, start) => format!(
            "choose {} [{}] {}",
            line_text(prompt),
            options.iter().map(line_text).collect::<Vec<_>>().join("|"),
            start
        ),
        other => format!("{:?}", other),
    }
}

fn out(text: &str) -> Reply {
    Reply::Exit(true, text.as_bytes().to_vec(), vec![])
}

fn error(text: &str) -> Reply {
    Reply::Exit(false, vec![], text.as_bytes().to_vec())
}

fn text(s: &str) -> Reply {
    Reply::Text(s.to_string())
}

fn failed(message: &str) -> Reply {
    Reply::Failed(vec![message.to_string()])
}

const LSUSB: &str = "Bus 003 Device 006: ID 0dd4:4105 PaperHandler\nBus 001 Device 003: ID 046d:c52b Logitech USB Receiver\nBus 009 Device 002: ID 0c2e:0b61 virsh-usb scan\n";

fn drive(name: &str, size: &str) -> VirtualDrive {
    VirtualDrive { name: name.to_string(), size: size.to_string(), created_at_secs: 0 }
}

fn hid(name: &str, vid: &str, pid: &str) -> HidDevice {
    HidDevice { name: name.to_string(), vid: vid.to_string(), pid: pid.to_string() }
}

fn definition() -> String {
    format!(
        "<domain>\n{}{}{}</domain>\n",
        build_hostdev_xml("046d", "c52b"),
        build_hostdev_xml("0c2e", "0b61"),
        build_disk_xml("/i/backup", "sda"),
    )
}

/// The replies up to the choice: two drives and two HID devices are there, the
/// second drive and the first HID device are attached.
fn world() -> Vec<Reply> {
    vec![
        out(LSUSB),
        out(&definition()),
        text("/d"),
        Reply::Flag(true),
        text("[]"),
        Reply::Drives(vec![drive("MyDrive", "8G"), drive("BackupDrive", "16G"), drive("gone", "1G")]),
        out(&definition()),
        text("/d"),
        Reply::Flag(true),
        text("[]"),
        Reply::Hids(vec![hid("MyScanner", "0x0C2E", "0x0B61"), hid("MyReader", "08fc", "0012")]),
        out("/i/mydrive\n"),
        out("/i/backup\n"),
        error("no volume"),
        text("/d"),
        text("1"),
        Reply::Flag(true),
        text("/d"),
        text("2"),
        Reply::Flag(true),
    ]
}

#[test]
fn labels_tell_the_kinds_apart() {
    let usb = |attached| {
        DeviceChoice::RealUsb(UsbDevice {
            bus: "003".to_string(),
            device: "006".to_string(),
            vendor_id: "0dd4".to_string(),
            product_id: "4105".to_string(),
            name: "PaperHandler".to_string(),
            attached,
        })
    };
    for (choice, label) in [
        (usb(false), "[USB]     0dd4:4105 - PaperHandler (Bus 003 Device 006)"),
        (usb(true), "[USB]     0dd4:4105 - PaperHandler (Bus 003 Device 006) [attached]"),
        (DeviceChoice::Storage(drive("MyDrive", "8G"), false), "[STORAGE] MyDrive (8G)"),
        (DeviceChoice::Storage(drive("B", "16G"), true), "[STORAGE] B (16G) [attached]"),
        (DeviceChoice::Hid(hid("S", "0c2e", "0b61"), false), "[HID]     S (0c2e:0b61)"),
        (
            DeviceChoice::Hid(hid("MyScanner", "0x0c2e", "0x0b61"), false),
            "[HID]     MyScanner (0c2e:0b61)",
        ),
        (DeviceChoice::Hid(hid("R", "08fc", "0012"), true), "[HID]     R (08fc:0012) [attached]"),
        (DeviceChoice::CreateNewStorage, "+ Create new storage drive..."),
        (DeviceChoice::CreateNewHid, "+ Create new HID device..."),
    ] {
        assert_eq!(line_text(&choice.label()), label);
    }
}

#[test]
fn all_devices_are_offered() {
    let mut replies = world();
    replies.push(Reply::Picked(3));
    let (asked, ended) = play(|log| select_device(log, 0, Some("vm1"), false), replies);
    assert_eq!(
        asked.last().unwrap(),
        "choose 🔌 Select a device [[USB]     0dd4:4105 - PaperHandler (Bus 003 Device 006)|[USB]     046d:c52b - Logitech USB Receiver (Bus 001 Device 003) [attached]|[STORAGE] MyDrive (8G)|[STORAGE] BackupDrive (16G) [attached]|[STORAGE] gone (1G)|[HID]     MyScanner (0c2e:0b61) [attached]|[HID]     MyReader (08fc:0012)|+ Create new storage drive...|+ Create new HID device...] 0"
    );
    match ended.unwrap() {
        DeviceChoice::Storage(d, attached) => {
            assert_eq!(d.name, "BackupDrive");
            assert!(attached);
        }
        other => panic!("{:?}", other),
    }
}

#[test]
fn only_attached_devices_are_offered_for_detaching() {
    let mut replies = world();
    replies.push(Reply::Picked(2));
    let (asked, ended) = play(|log| select_device(log, 0, Some("vm1"), true), replies);
    assert_eq!(
        asked.last().unwrap(),
        "choose 🔌 Select a device to detach [[USB]     046d:c52b - Logitech USB Receiver (Bus 001 Device 003) [attached]|[STORAGE] BackupDrive (16G) [attached]|[HID]     MyScanner (0c2e:0b61) [attached]] 0"
    );
    assert!(matches!(ended, Ok(DeviceChoice::Hid(_, true))));
}

#[test]
fn there_is_always_something_to_make() {
    let nothing = || {
        vec![
            error("no usb"),
            out(""),
            text("/d"),
            Reply::Flag(false),
            out(""),
            text("/d"),
            Reply::Flag(false),
        ]
    };
    let mut replies = nothing();
    replies.push(Reply::Picked(1));
    let (_, ended) = play(|log| select_device(log, 0, Some("vm1"), false), replies);
    assert!(matches!(ended, Ok(DeviceChoice::CreateNewHid)));
    let (_, ended) = play(|log| select_device(log, 0, Some("vm1"), true), nothing());
    assert_eq!(
        ended.err(),
        Some(vec!["No devices are currently attached to the VM".to_string()])
    );
}

#[test]
fn without_a_virtual_machine_nothing_is_attached() {
    let (asked, ended) = play(
        |log| select_device(log, 0, None, false),
        vec![
            out(LSUSB),
            text("/d"),
            Reply::Flag(false),
            text("/d"),
            Reply::Flag(false),
            failed("canceled"),
        ],
    );
    assert!(!asked.last().unwrap().contains("[attached]"));
    assert_eq!(
        ended.err(),
        Some(vec!["Failed to select device".to_string(), "canceled".to_string()])
    );
}
