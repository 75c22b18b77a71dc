use virsh_usb::devices::{HidDevice, VirtualDrive};
use virsh_usb::hid::{
    attach_hid_device, create_hid_device, delete_hid_device, detach_hid_device, hid_type,
    is_hid_device_attached, list_hid_devices, show_hid_status, usb_device_file,
};
use virsh_usb::host::{line_text, Pause, Reply, Request, Step};
use virsh_usb::usbip::{build_import_refusal, build_import_reply, build_import_request};
use virsh_usb::vm::build_hostdev_xml;

fn play<T>(
    operation: impl Fn(&Vec<Reply>) -> Step<T>,
    replies: Vec<Reply>,
) -> (Vec<String>, Result<T, Vec<String>>) {
    let mut left = replies.into_iter();
    let mut log: Vec<Reply> = Vec::new();
    let mut asked: Vec<String> = Vec::new();
    loop {
        match operation(&log) {
            Ok((result, used)) => {
                assert_eq!(used, log.len());
                assert!(left.next().is_none(), "replies are left after {:?}", asked);
                return (asked, Ok(result));
            }
            Err(Pause::Ask(request)) => {
                asked.push(short(&request));
                match left.next() {
                    Some(reply) => log.push(reply),
                    None => panic!("no reply is left for {:?}", asked),
                }
            }
            Err(Pause::Fail(messages, used)) => {
                assert_eq!(used, log.len());
                assert!(left.next().is_none(), "replies are left after {:?}", asked);
                return (asked, Err(messages));
            }
        }
    }
}

fn short(request: &Request) -> String {
    match request {
        Request::Run(args) => format!("run {}", args.join(" ")),
        Request::Say(line) => format!("say {}", line_text(line)),
        Request::Warn(line) => format!("warn {}", line_text(line)),
        Request::Write(path, text) => format!("write {}: {}", path, text),
        Request::Read(path) => format!("read {}", path),
        Request::Remove(path) => format!("remove {}", path),
        Request::Exists(path) => format!("exists {}", path),
        Request::Choose(prompt, options, start) => format!(
            "choose {} [{}] {}",
            line_text(prompt),
            options.iter().map(line_text).collect::<Vec<_>>().join("|"),
            start
        ),
        other => format!("{:?}", other),
    }
}

fn out(text: &str) -> Reply {
    Reply::Exit(true, text.as_bytes().to_vec(), vec![])
}

fn error(text: &str) -> Reply {
    Reply::Exit(false, vec![], text.as_bytes().to_vec())
}

fn text(s: &str) -> Reply {
    Reply::Text(s.to_string())
}

fn failed(message: &str) -> Reply {
    Reply::Failed(vec![message.to_string()])
}

const STATUS: &str = "heading\nhs 0003 004 000 00000000 000000 0-0\n";
const LSUSB: &str = "Bus 009 Device 002: ID 0c2e:0b61 virsh-usb scan\n";

fn hid(name: &str) -> HidDevice {
    HidDevice { name: name.to_string(), vid: "0x0C2E".to_string(), pid: "0x0b61".to_string() }
}

/// The replies with which the HID devices are loaded.
fn loaded(hids: Vec<HidDevice>) -> Vec<Reply> {
    vec![text("/d"), Reply::Flag(true), text("[]"), Reply::Hids(hids)]
}

fn missing() -> Vec<Reply> {
    vec![text("/d"), Reply::Flag(false)]
}

/// The replies when it is asked whether the daemon runs.
fn daemon(runs: bool) -> Vec<Reply> {
    vec![text("/d"), text("4711"), Reply::Flag(runs)]
}

/// The replies with which the daemon is stopped.
fn stopped() -> Vec<Reply> {
    let mut replies = vec![text("/d"), text("4711"), Reply::Done];
    for _ in 0..4 {
        replies.push(text("/d"));
        replies.push(Reply::Done);
    }
    replies
}

fn all(parts: Vec<Vec<Reply>>) -> Vec<Reply> {
    parts.into_iter().flatten().collect()
}

fn attached_xml() -> Reply {
    out(&build_hostdev_xml("0c2e", "0b61"))
}

#[test]
fn a_device_is_attached_if_daemon_and_ids_are_there() {
    let (asked, ended) = play(
        |log| is_hid_device_attached(log, 0, "vm1", &hid("scan")),
        all(vec![daemon(true), vec![attached_xml()]]),
    );
    assert_eq!(asked[3], "run virsh dumpxml vm1");
    assert_eq!(ended, Ok(true));
    let (_, ended) = play(
        |log| is_hid_device_attached(log, 0, "vm1", &hid("scan")),
        all(vec![daemon(true), vec![out("<domain/>")]]),
    );
    assert_eq!(ended, Ok(false));
    let (asked, ended) =
        play(|log| is_hid_device_attached(log, 0, "vm1", &hid("scan")), daemon(false));
    assert_eq!(asked.len(), 3);
    assert_eq!(ended, Ok(false));
}

#[test]
fn a_device_is_made_and_listed() {
    let (asked, ended) = play(
        |log| create_hid_device(log, 0, "My Scanner", "0x0c2e", "0x0b61"),
        all(vec![
            loaded(vec![hid("old")]),
            missing(),
            vec![text("/d"), text("[json]"), Reply::Done, Reply::Done],
        ]),
    );
    assert!(ended.is_ok());
    assert_eq!(
        asked[7],
        "EncodeHids([HidDevice { name: \"old\", vid: \"0x0C2E\", pid: \"0x0b61\" }, HidDevice { name: \"My-Scanner\", vid: \"0x0c2e\", pid: \"0x0b61\" }])"
    );
    assert_eq!(asked[8], "write /d/hids.json: [json]");
    assert_eq!(asked[9], "say ✓ Created HID device My-Scanner (0x0c2e:0x0b61)");
}

#[test]
fn a_device_needs_a_free_name() {
    let (_, ended) = play(|log| create_hid_device(log, 0, "", "1", "2"), vec![]);
    assert_eq!(ended, Err(vec!["Device name cannot be empty".to_string()]));
    let (_, ended) = play(|log| create_hid_device(log, 0, "!!", "1", "2"), vec![]);
    assert_eq!(ended, Err(vec!["Device name is empty after sanitization".to_string()]));
    let (_, ended) =
        play(|log| create_hid_device(log, 0, "old", "1", "2"), loaded(vec![hid("old")]));
    assert_eq!(ended, Err(vec!["An HID device named 'old' already exists".to_string()]));
    let drive =
        VirtualDrive { name: "disk".to_string(), size: "4G".to_string(), created_at_secs: 0 };
    let (_, ended) = play(
        |log| create_hid_device(log, 0, "disk", "1", "2"),
        all(vec![
            missing(),
            vec![text("/d"), Reply::Flag(true), text("[]"), Reply::Drives(vec![drive])],
        ]),
    );
    assert_eq!(
        ended,
        Err(vec!["A storage drive named 'disk' already exists. Device names must be unique across all types.".to_string()])
    );
}

#[test]
fn a_device_is_deleted_with_its_state() {
    let (asked, ended) = play(
        |log| delete_hid_device(log, 0, "scan"),
        all(vec![
            loaded(vec![hid("scan"), hid("other")]),
            vec![out("vm1\n")],
            daemon(false),
            vec![
                text("/d"),
                Reply::Done,
                text("/d"),
                Reply::Done,
                text("/d"),
                Reply::Done,
                text("/d"),
                Reply::Done,
                text("/d"),
                text("[json]"),
                Reply::Done,
                Reply::Done,
            ],
        ]),
    );
    assert!(ended.is_ok());
    assert_eq!(asked[9], "remove /d/hid-scan.pid");
    assert_eq!(asked[15], "remove /d/hid-scan.vhci-port");
    assert_eq!(
        asked[17],
        "EncodeHids([HidDevice { name: \"other\", vid: \"0x0C2E\", pid: \"0x0b61\" }])"
    );
    assert_eq!(asked[19], "say ✓ Deleted HID device scan");
}

#[test]
fn an_attached_device_is_not_deleted() {
    let (asked, ended) = play(
        |log| delete_hid_device(log, 0, "scan"),
        all(vec![
            loaded(vec![hid("scan")]),
            vec![out("vm1\nvm2\n")],
            daemon(true),
            vec![out("")],
            daemon(true),
            vec![attached_xml()],
        ]),
    );
    assert_eq!(
        ended,
        Err(vec!["HID device 'scan' is currently attached to VM 'vm2'. Detach it first.".to_string()])
    );
    assert!(asked.contains(&"run virsh list --name".to_string()));
    let (_, ended) = play(|log| delete_hid_device(log, 0, "nope"), missing());
    assert_eq!(ended, Err(vec!["No HID device named 'nope'".to_string()]));
}

#[test]
fn devices_are_listed_with_their_state() {
    let (asked, ended) = play(
        |log| list_hid_devices(log, 0),
        all(vec![
            loaded(vec![hid("a"), hid("b")]),
            vec![out("vm1\n"), Reply::Done, Reply::Done],
            daemon(true),
            vec![attached_xml()],
            daemon(true),
            vec![Reply::Done, Reply::Done],
            daemon(false),
            daemon(false),
            vec![Reply::Done, Reply::Done],
        ]),
    );
    assert!(ended.is_ok());
    let said: Vec<&String> = asked.iter().filter(|s| s.starts_with("say ")).collect();
    assert_eq!(
        said,
        [
            "say Virtual USB HID Devices:",
            "say ",
            "say   a                    0x0C2E:0x0b61       daemon active  attached to: vm1",
            "say ",
            "say   b                    0x0C2E:0x0b61       daemon inactive  not attached",
            "say ",
        ]
    );
    let (asked, ended) = play(
        |log| list_hid_devices(log, 0),
        all(vec![missing(), vec![Reply::Done, Reply::Done]]),
    );
    assert!(ended.is_ok());
    assert_eq!(asked[3], "say   virsh-usb hid create <name> --vid <vid> --pid <pid>");
}

/// The replies up to the end of the handshake with a running daemon.
fn handshaken() -> Vec<Reply> {
    let reply = build_import_reply(0x0c2e, 0x0b61);
    all(vec![
        loaded(vec![hid("scan")]),
        vec![out("vm1\n")],
        daemon(false),
        vec![out("")],
        daemon(true),
        vec![
            text("/d"),
            text("40001"),
            Reply::Done,
            Reply::Done,
            Reply::Bytes(reply[..8].to_vec()),
            Reply::Bytes(reply[8..].to_vec()),
        ],
    ])
}

#[test]
fn a_device_is_brought_to_the_virtual_machine() {
    let (asked, ended) = play(
        |log| attach_hid_device(log, 0, "vm1", "scan"),
        all(vec![
            handshaken(),
            vec![
                Reply::Flag(true),
                Reply::Flag(true),
                text(STATUS),
                text("/d"),
                Reply::Done,
                Reply::Number(5),
                Reply::Done,
                Reply::Done,
                Reply::Done,
                error("busy"),
                Reply::Done,
                out(LSUSB),
                Reply::Done,
                Reply::Done,
                out("vm1\n"),
                out(""),
                out(LSUSB),
                Reply::Done,
                out(""),
                Reply::Done,
                Reply::Done,
            ],
        ]),
    );
    assert!(ended.is_ok());
    assert!(asked.contains(&"run virsh list --state-running --name".to_string()));
    assert_eq!(asked[8], "run modprobe vhci-hcd");
    assert_eq!(asked[14], "Connect(40001)");
    assert_eq!(asked[15], format!("Send({:?})", build_import_request()));
    assert_eq!(asked[16], "Receive(8)");
    assert_eq!(asked[17], "Receive(312)");
    assert_eq!(asked[22], "write /d/hid-scan.vhci-port: 3");
    assert_eq!(asked[23], "Descriptor");
    assert_eq!(
        asked[24],
        "write /sys/bus/platform/drivers/vhci_hcd/vhci_hcd.0/attach: 3 5 65537 2\n"
    );
    assert_eq!(asked[25], "HangUp");
    assert_eq!(asked[26], "Pause(100)");
    assert_eq!(asked[27], "run lsusb");
    assert_eq!(asked[30], "RunQuietly([\"udevadm\", \"settle\", \"--timeout=3\"])");
    assert_eq!(asked[31], "ClearHalt(\"/dev/bus/usb/009/002\", 129)");
    assert_eq!(asked[36], "run virsh attach-device vm1 /tmp/virsh-usb-attach.xml --live");
    assert_eq!(asked[38], "say ✓ Successfully attached virsh-usb scan (0c2e:0b61) to vm1");
}

#[test]
fn a_device_that_does_not_appear_is_unplugged_and_its_daemon_stopped() {
    let mut replies = all(vec![
        handshaken(),
        vec![
            Reply::Flag(true),
            Reply::Flag(true),
            text(STATUS),
            text("/d"),
            Reply::Done,
            Reply::Number(5),
            Reply::Done,
            Reply::Done,
        ],
    ]);
    for _ in 0..50 {
        replies.push(Reply::Done);
        replies.push(out(""));
    }
    let unplugged =
        vec![text("/d"), Reply::Flag(true), text("3"), Reply::Flag(true), Reply::Done, Reply::Done];
    let (asked, ended) = play(
        |log| attach_hid_device(log, 0, "vm1", "scan"),
        all(vec![replies, unplugged, stopped()]),
    );
    assert_eq!(
        ended,
        Err(vec!["Device 0x0C2E:0x0b61 did not appear on the host USB bus after vhci attachment".to_string()])
    );
    assert!(asked.contains(&"remove /d/hid-scan.vhci-port".to_string()));
    assert!(asked.contains(&"RunShown([\"kill\", \"-TERM\", \"4711\"])".to_string()));
}

#[test]
fn a_refused_import_stops_the_daemon() {
    let (asked, ended) = play(
        |log| attach_hid_device(log, 0, "vm1", "scan"),
        all(vec![
            loaded(vec![hid("scan")]),
            vec![out("vm1\n")],
            daemon(false),
            vec![out("")],
            daemon(true),
            vec![
                text("/d"),
                text("40001"),
                Reply::Done,
                Reply::Done,
                Reply::Bytes(build_import_refusal()),
                Reply::Done,
            ],
            stopped(),
        ]),
    );
    assert_eq!(ended, Err(vec!["USB/IP daemon rejected IMPORT (status=1)".to_string()]));
    let closed = asked.iter().position(|s| s == "HangUp").unwrap();
    let killed = asked.iter().position(|s| s.starts_with("RunShown([\"kill\"")).unwrap();
    assert!(closed < killed);
    assert!(asked.contains(&"remove /d/hid-scan.sock".to_string()));
}

#[test]
fn a_refused_plug_hangs_up_and_stops_the_daemon() {
    let (asked, ended) = play(
        |log| attach_hid_device(log, 0, "vm1", "scan"),
        all(vec![
            handshaken(),
            vec![
                Reply::Flag(true),
                Reply::Flag(true),
                text(STATUS),
                text("/d"),
                Reply::Done,
                Reply::Number(5),
                failed("denied"),
                Reply::Number(0o200),
                Reply::Done,
            ],
            stopped(),
        ]),
    );
    assert_eq!(ended.unwrap_err()[1], "denied");
    assert_eq!(asked[26], "HangUp");
}

#[test]
fn a_broken_connection_is_told() {
    let start = || {
        all(vec![
            loaded(vec![hid("scan")]),
            vec![out("vm1\n")],
            daemon(false),
            vec![out("")],
            daemon(true),
            vec![text("/d"), text("40001")],
        ])
    };
    for (replies, message) in [
        (vec![failed("x")], "Failed to connect to HID daemon"),
        (vec![Reply::Done, failed("x"), Reply::Done], "Failed to send IMPORT request"),
        (
            vec![Reply::Done, Reply::Done, failed("x"), Reply::Done],
            "Failed to read IMPORT reply",
        ),
        (
            vec![Reply::Done, Reply::Done, Reply::Bytes(vec![0; 8]), failed("x"), Reply::Done],
            "Failed to read device info",
        ),
    ] {
        let (_, ended) = play(
            |log| attach_hid_device(log, 0, "vm1", "scan"),
            all(vec![start(), replies, stopped()]),
        );
        assert_eq!(ended, Err(vec![message.to_string(), "x".to_string()]));
    }
}

#[test]
fn attaching_a_device_may_be_refused() {
    let (_, ended) = play(|log| attach_hid_device(log, 0, "vm1", "x"), missing());
    assert_eq!(ended, Err(vec!["No HID device named 'x'".to_string()]));
    let (_, ended) = play(
        |log| attach_hid_device(log, 0, "vm1", "scan"),
        all(vec![loaded(vec![hid("scan")]), vec![out("")]]),
    );
    assert_eq!(ended, Err(vec!["VM 'vm1' is not running".to_string()]));
    let (asked, ended) = play(
        |log| attach_hid_device(log, 0, "vm1", "scan"),
        all(vec![
            loaded(vec![hid("scan")]),
            vec![out("vm1\n")],
            daemon(true),
            vec![attached_xml(), Reply::Done],
        ]),
    );
    assert!(ended.is_ok());
    assert_eq!(asked[9], "say HID device 'scan' is already attached to vm1");
    let (_, ended) = play(
        |log| attach_hid_device(log, 0, "vm1", "scan"),
        all(vec![
            loaded(vec![hid("scan")]),
            vec![out("vm1\n")],
            daemon(false),
            vec![error("no module")],
        ]),
    );
    assert_eq!(
        ended,
        Err(vec![
            "Failed to load vhci-hcd module — make sure it's available".to_string(),
            "Command failed: modprobe vhci-hcd\nError: no module".to_string(),
        ])
    );
}

#[test]
fn a_device_is_taken_back() {
    let (asked, ended) = play(
        |log| detach_hid_device(log, 0, "vm1", "scan"),
        all(vec![
            loaded(vec![hid("scan")]),
            vec![out("vm1\n"), attached_xml(), attached_xml()],
            vec![
                out("vm1\n"),
                attached_xml(),
                out(LSUSB),
                Reply::Done,
                out(""),
                Reply::Done,
                Reply::Done,
            ],
            vec![text("/d"), Reply::Flag(false)],
            stopped(),
            vec![Reply::Done],
        ]),
    );
    assert!(ended.is_ok());
    assert_eq!(asked[11], "run virsh detach-device vm1 /tmp/virsh-usb-detach.xml --live");
    assert_eq!(asked.last().unwrap(), "say ✓ Detached HID device scan from vm1");
}

#[test]
fn a_daemon_without_attachment_is_stopped_too() {
    let (asked, ended) = play(
        |log| detach_hid_device(log, 0, "vm1", "scan"),
        all(vec![
            loaded(vec![hid("scan")]),
            vec![out("vm1\n"), out("")],
            daemon(true),
            vec![out(""), text("/d"), Reply::Flag(false)],
            stopped(),
            vec![Reply::Done],
        ]),
    );
    assert!(ended.is_ok());
    assert_eq!(asked.last().unwrap(), "say ✓ Detached HID device scan from vm1");
}

#[test]
fn a_device_that_is_not_attached_is_left_alone() {
    let (asked, ended) = play(
        |log| detach_hid_device(log, 0, "vm1", "scan"),
        all(vec![
            loaded(vec![hid("scan")]),
            vec![out("vm1\n"), out("")],
            daemon(false),
            vec![Reply::Done],
        ]),
    );
    assert!(ended.is_ok());
    assert_eq!(asked[9], "say HID device 'scan' is not attached to vm1");
}

#[test]
fn status_of_a_device() {
    let (asked, ended) = play(
        |log| show_hid_status(log, 0, "vm1", "scan"),
        all(vec![
            loaded(vec![hid("scan")]),
            vec![out("vm1\n"), Reply::Done],
            daemon(true),
            vec![Reply::Done],
            daemon(true),
            vec![attached_xml(), Reply::Done],
        ]),
    );
    assert!(ended.is_ok());
    assert!(asked.contains(&"run virsh list --name".to_string()));
    assert_eq!(asked[9], "say ⌨ HID Device (scan): 0x0C2E:0x0b61  daemon: active");
    assert_eq!(asked[14], "say 🔗 Attachment Status: Attached to VM");
    let (asked, ended) = play(
        |log| show_hid_status(log, 0, "vm1", "scan"),
        all(vec![
            loaded(vec![hid("scan")]),
            vec![out(""), Reply::Done],
            daemon(false),
            vec![Reply::Done],
        ]),
    );
    assert!(ended.is_ok());
    assert_eq!(asked[9], "say ⌨ HID Device (scan): 0x0C2E:0x0b61  daemon: inactive");
}

/// The replies up to the connection with the daemon's socket.
fn ready_to_type() -> Vec<Reply> {
    all(vec![
        vec![out("vm1\n")],
        loaded(vec![hid("scan")]),
        daemon(true),
        vec![attached_xml(), text("/d")],
    ])
}

#[test]
fn text_is_typed_with_enter() {
    let (asked, ended) = play(
        |log| hid_type(log, 0, "vm1", "scan", "Héy", false),
        all(vec![ready_to_type(), vec![Reply::Done, Reply::Done, Reply::Done]]),
    );
    assert!(ended.is_ok());
    assert_eq!(asked[0], "run virsh list --name");
    assert_eq!(asked[10], "ConnectSocket(\"/d/hid-scan.sock\")");
    assert_eq!(asked[11], format!("Send({:?})", "Héy\r".as_bytes()));
    assert_eq!(asked[12], "say ✓ Typed 3 character(s) via scan to vm1");
}

#[test]
fn text_is_typed_without_enter() {
    let (asked, ended) = play(
        |log| hid_type(log, 0, "vm1", "scan", "scan data", true),
        all(vec![ready_to_type(), vec![Reply::Done, Reply::Done, Reply::Done]]),
    );
    assert!(ended.is_ok());
    assert_eq!(asked[11], format!("Send({:?})", "scan data".as_bytes()));
}

#[test]
fn typing_may_be_refused() {
    let (_, ended) = play(|log| hid_type(log, 0, "vm1", "scan", "x", false), vec![out("")]);
    assert_eq!(ended, Err(vec!["VM 'vm1' is not running".to_string()]));
    let (_, ended) = play(
        |log| hid_type(log, 0, "vm1", "scan", "x", false),
        all(vec![vec![out("vm1\n")], missing()]),
    );
    assert_eq!(ended, Err(vec!["No HID device named 'scan'".to_string()]));
    let (_, ended) = play(
        |log| hid_type(log, 0, "vm1", "scan", "x", false),
        all(vec![vec![out("vm1\n")], loaded(vec![hid("scan")]), daemon(false)]),
    );
    assert_eq!(
        ended,
        Err(vec!["HID device 'scan' is not attached to VM 'vm1'. Attach it first.".to_string()])
    );
    for (replies, message) in [
        (vec![failed("x")], "Failed to connect to HID daemon socket"),
        (vec![Reply::Done, failed("x")], "Failed to send text to HID daemon"),
    ] {
        let (_, ended) = play(
            |log| hid_type(log, 0, "vm1", "scan", "x", false),
            all(vec![ready_to_type(), replies]),
        );
        assert_eq!(ended, Err(vec![message.to_string(), "x".to_string()]));
    }
}

#[test]
fn a_usb_device_has_a_file() {
    assert_eq!(usb_device_file("009", "002"), "/dev/bus/usb/009/002");
}
