use virsh_usb::devices::{HidDevice, VirtualDrive};
use virsh_usb::host::{line_text, Pause, Reply, Request, Step};
use virsh_usb::tool::{
    parse_vid_pid, resolve_device, run_tool, Cli, Commands, Ending, HidCommands, SelectedDevice,
    StorageCommands,
};

fn play<T>(
    operation: impl Fn(&Vec<Reply>) -> Step<T>,
    replies: Vec<Reply>,
) -> (Vec<String>, Result<T, Vec<String>>) {
    let mut left = replies.into_iter();
    let mut log: Vec<Reply> = Vec::new();
    let mut asked: Vec<String> = Vec::new();
    loop {
        match operation(&log) {
            Ok((result, used)) => {
                assert_eq!(used, log.len());
                assert!(left.next().is_none(), "replies are left after {:?}", asked);
                return (asked, Ok(result));
            }
            Err(Pause::Ask(request)) => {
                asked.push(short(&request));
                match left.next() {
                    Some(reply) => log.push(reply),
                    None => panic!("no reply is left for {:?}", asked),
                }
            }
            Err(Pause::Fail(messages, used)) => {
                assert_eq!(used, log.len());
                assert!(left.next().is_none(), "replies are left after {:?}", asked);
                return (asked, Err(messages));
            }
        }
    }
}

fn short(request: &Request) -> String {
    match request {
        Request::Run(args) => format!("run {}", args.join(" ")),
        Request::Say(line) => format!("say {}", line_text(line)),
        Request::Warn(line) => format!("warn {}", line_text(line)),
        Request::Write(path, text) => format!("write {}: {}", path, text),
        Request::Read(path) => format!("read {}", path),
        Request::Remove(path) => format!("remove {}", path),
        Request::Exists(path) => format!("exists {}", path),
        Request::Choose(prompt, options, start) => format!(
            "choose {} [{}] {}",
            line_text(prompt),
            options.iter().map(line_text).collect::<Vec<_>>().join("|"),
            start
        ),
        other => format!("{:?}", other),
    }
}

fn out(text: &str) -> Reply {
    Reply::Exit(true, text.as_bytes().to_vec(), vec![])
}

fn text(s: &str) -> Reply {
    Reply::Text(s.to_string())
}

fn failed(message: &str) -> Reply {
    Reply::Failed(vec![message.to_string()])
}

const LSUSB: &str = "Bus 003 Device 006: ID 0dd4:4105 PaperHandler\n";

fn drive(name: &str) -> VirtualDrive {
    VirtualDrive { name: name.to_string(), size: "4G".to_string(), created_at_secs: 0 }
}

fn hid(name: &str) -> HidDevice {
    HidDevice { name: name.to_string(), vid: "0x0c2e".to_string(), pid: "0x0b61".to_string() }
}

fn drives(list: Vec<VirtualDrive>) -> Vec<Reply> {
    vec![text("/d"), Reply::Flag(true), text("[]"), Reply::Drives(list)]
}

fn hids(list: Vec<HidDevice>) -> Vec<Reply> {
    vec![text("/d"), Reply::Flag(true), text("[]"), Reply::Hids(list)]
}

fn missing() -> Vec<Reply> {
    vec![text("/d"), Reply::Flag(false)]
}

fn all(parts: Vec<Vec<Reply>>) -> Vec<Reply> {
    parts.into_iter().flatten().collect()
}

fn asks(command: Commands, device: Option<&str>) -> Cli {
    Cli { vm: Some("vm1".to_string()), device: device.map(str::to_string), command }
}

#[test]
fn ids_are_two_hexadecimal_numbers() {
    let ids = |v: &str, p: &str| Some((v.to_string(), p.to_string()));
    assert_eq!(parse_vid_pid("0dd4:4105"), ids("0dd4", "4105"));
    assert_eq!(parse_vid_pid("0x0DD4:0x4105"), ids("0x0DD4", "0x4105"));
    assert_eq!(parse_vid_pid("0x:1"), ids("0x", "1"));
    for s in ["", ":", "0dd4", "0dd4:", ":4105", "0dd4:4105:1", "My:Drive", "0dd4:xyz"] {
        assert_eq!(parse_vid_pid(s), None, "{}", s);
    }
}

#[test]
fn names_stand_for_virtual_devices_first() {
    let (_, ended) = play(
        |log| resolve_device(log, 0, "vm1", &Some("disk".to_string()), false),
        all(vec![drives(vec![drive("disk")]), missing()]),
    );
    assert!(matches!(ended, Ok(SelectedDevice::Storage { .. })));
    let (_, ended) = play(
        |log| resolve_device(log, 0, "vm1", &Some("scan".to_string()), false),
        all(vec![drives(vec![drive("disk")]), hids(vec![hid("scan")])]),
    );
    assert!(matches!(ended, Ok(SelectedDevice::Hid { .. })));
    let (_, ended) = play(
        |log| resolve_device(log, 0, "vm1", &Some("both".to_string()), false),
        all(vec![drives(vec![drive("both")]), hids(vec![hid("both")])]),
    );
    assert_eq!(
        ended.err(),
        Some(vec!["Ambiguous device name 'both': matches both a storage drive and an HID device".to_string()])
    );
    let (_, ended) = play(
        |log| resolve_device(log, 0, "vm1", &Some("paper".to_string()), false),
        all(vec![missing(), missing(), vec![out(LSUSB), out("")]]),
    );
    match ended.unwrap() {
        SelectedDevice::RealUsb { vendor_id, product_id } => {
            assert_eq!(vendor_id, "0dd4");
            assert_eq!(product_id, "4105");
        }
        other => panic!("{:?}", other),
    }
}

#[test]
fn given_ids_need_no_lists() {
    let cli = asks(Commands::Attach, Some("0dd4:4105"));
    let (asked, ended) = play(
        |log| run_tool(log, 0, &cli),
        vec![text("/c"), Reply::Done, out("")],
    );
    assert_eq!(asked[2], "run virsh list --state-running --name");
    assert_eq!(ended.err(), Some(vec!["VM 'vm1' is not running".to_string()]));
}

#[test]
fn commands_reach_the_kind_of_device() {
    for (command, last) in [
        (Commands::Attach, "run virsh list --state-running --name"),
        (Commands::Detach, "run virsh list --state-running --name"),
    ] {
        let cli = asks(command, Some("disk"));
        let (asked, ended) = play(
            |log| run_tool(log, 0, &cli),
            all(vec![
                vec![failed("no home")],
                drives(vec![drive("disk")]),
                missing(),
                drives(vec![drive("disk")]),
                vec![out("")],
            ]),
        );
        assert_eq!(asked.last().unwrap(), last);
        assert_eq!(ended.err(), Some(vec!["VM 'vm1' is not running".to_string()]));
    }
    let cli = asks(Commands::Status, Some("scan"));
    let (asked, ended) = play(
        |log| run_tool(log, 0, &cli),
        all(vec![
            vec![text("/c"), Reply::Done],
            missing(),
            hids(vec![hid("scan")]),
            hids(vec![hid("scan")]),
            vec![out(""), Reply::Done, failed("no home"), Reply::Done],
        ]),
    );
    assert!(matches!(ended, Ok(Ending::Done)));
    assert_eq!(asked.last().unwrap(), "say ⌨ HID Device (scan): 0x0c2e:0x0b61  daemon: inactive");
}

#[test]
fn drives_are_managed_without_a_virtual_machine() {
    let cli = Cli {
        vm: None,
        device: None,
        command: Commands::Storage(StorageCommands::Delete { name: "x".to_string() }),
    };
    let (_, ended) = play(|log| run_tool(log, 0, &cli), missing());
    assert_eq!(ended.err(), Some(vec!["No storage drive named 'x'".to_string()]));
    let cli = Cli { vm: None, device: None, command: Commands::Storage(StorageCommands::List) };
    let (asked, ended) = play(
        |log| run_tool(log, 0, &cli),
        all(vec![missing(), vec![Reply::Done, Reply::Done]]),
    );
    assert!(matches!(ended, Ok(Ending::Done)));
    assert_eq!(asked[2], "say No storage drives found. Create one with:");
    let cli = Cli {
        vm: None,
        device: None,
        command: Commands::Storage(StorageCommands::Create {
            name: "".to_string(),
            size: "4G".to_string(),
        }),
    };
    let (_, ended) = play(|log| run_tool(log, 0, &cli), vec![]);
    assert_eq!(ended.err(), Some(vec!["Drive name cannot be empty".to_string()]));
}

#[test]
fn hid_devices_are_managed_without_a_virtual_machine() {
    let cli = Cli {
        vm: None,
        device: None,
        command: Commands::Hid(HidCommands::Delete { name: "x".to_string() }),
    };
    let (_, ended) = play(|log| run_tool(log, 0, &cli), missing());
    assert_eq!(ended.err(), Some(vec!["No HID device named 'x'".to_string()]));
    let cli = Cli {
        vm: None,
        device: None,
        command: Commands::Hid(HidCommands::Create {
            name: "".to_string(),
            vid: "1".to_string(),
            pid: "2".to_string(),
        }),
    };
    let (_, ended) = play(|log| run_tool(log, 0, &cli), vec![]);
    assert_eq!(ended.err(), Some(vec!["Device name cannot be empty".to_string()]));
}

#[test]
fn typing_asks_for_what_is_not_given() {
    let cli = Cli {
        vm: None,
        device: None,
        command: Commands::Hid(HidCommands::Type {
            text: "x".to_string(),
            vm: None,
            device: None,
            no_enter: false,
        }),
    };
    let (asked, ended) = play(
        |log| run_tool(log, 0, &cli),
        all(vec![
            vec![out("vm1\n"), failed("no home"), Reply::Picked(0), text("/c"), Reply::Done],
            hids(vec![hid("a"), hid("b")]),
            vec![Reply::Picked(1), out("")],
        ]),
    );
    assert_eq!(asked[4], "write /c/last_vm: vm1");
    assert_eq!(
        asked[9],
        "choose Select a HID device: [a (0x0c2e:0x0b61)|b (0x0c2e:0x0b61)] 0"
    );
    assert_eq!(ended.err(), Some(vec!["VM 'vm1' is not running".to_string()]));
}

#[test]
fn typing_needs_a_device() {
    let typing = |device: Option<&str>| Cli {
        vm: None,
        device: None,
        command: Commands::Hid(HidCommands::Type {
            text: "x".to_string(),
            vm: Some("vm1".to_string()),
            device: device.map(str::to_string),
            no_enter: false,
        }),
    };
    let cli = typing(None);
    let (_, ended) = play(|log| run_tool(log, 0, &cli), missing());
    assert_eq!(
        ended.err(),
        Some(vec!["No HID devices found. Create one with: virsh-usb hid create <name> --vid <vid> --pid <pid>".to_string()])
    );
    let (_, ended) = play(
        |log| run_tool(log, 0, &cli),
        all(vec![hids(vec![hid("a")]), vec![failed("canceled")]]),
    );
    assert_eq!(
        ended.err(),
        Some(vec!["Failed to select HID device".to_string(), "canceled".to_string()])
    );
    let cli = typing(Some("a"));
    let (asked, _) = play(|log| run_tool(log, 0, &cli), vec![out("")]);
    assert_eq!(asked, ["run virsh list --name"]);
}

#[test]
fn a_drive_is_made_on_the_spot() {
    let cli = asks(Commands::Attach, None);
    let (asked, ended) = play(
        |log| run_tool(log, 0, &cli),
        all(vec![
            vec![text("/c"), Reply::Done, out(""), out("")],
            missing(),
            vec![out("")],
            missing(),
            vec![Reply::Picked(0), text("New Drive"), Reply::Done, text("8G")],
            missing(),
            missing(),
            vec![
                out(""),
                Reply::Number(1),
                text("/d"),
                text("[]"),
                Reply::Done,
                Reply::Done,
            ],
            drives(vec![drive("New-Drive")]),
            vec![out("")],
        ]),
    );
    assert_eq!(asked[10], "Enter(\"Name for the new storage drive:\", None)");
    assert_eq!(asked[11], "say Note: name sanitized to 'New-Drive'");
    assert_eq!(asked[12], "Enter(\"Size (e.g. 4G, 8G, 16G):\", Some(\"4G\"))");
    assert_eq!(asked[17], "run virsh vol-create-as default New-Drive.qcow2 8G --format qcow2");
    assert_eq!(asked.last().unwrap(), "run virsh list --state-running --name");
    assert_eq!(ended.err(), Some(vec!["VM 'vm1' is not running".to_string()]));
}

#[test]
fn a_hid_device_is_made_on_the_spot() {
    let cli = asks(Commands::Status, None);
    let (asked, ended) = play(
        |log| run_tool(log, 0, &cli),
        all(vec![
            vec![text("/c"), Reply::Done, out(""), out("")],
            missing(),
            vec![out("")],
            missing(),
            vec![Reply::Picked(1), text("scan"), text("0x0c2e"), text("0x0b61")],
            missing(),
            missing(),
            vec![text("/d"), text("[]"), Reply::Done, Reply::Done],
            hids(vec![hid("scan")]),
            vec![out(""), Reply::Done, failed("no home"), Reply::Done],
        ]),
    );
    assert!(matches!(ended, Ok(Ending::Done)));
    assert_eq!(asked[10], "Enter(\"Name for the new HID device:\", None)");
    assert_eq!(asked[11], "Enter(\"Vendor ID (e.g. 0x0c2e):\", None)");
    assert_eq!(asked[12], "Enter(\"Product ID (e.g. 0x0b61):\", None)");
    assert_eq!(
        asked[18],
        "EncodeHids([HidDevice { name: \"scan\", vid: \"0x0c2e\", pid: \"0x0b61\" }])"
    );
}

#[test]
fn what_is_not_entered_is_told() {
    let cli = asks(Commands::Attach, None);
    let start = |pick: usize| {
        all(vec![
            vec![text("/c"), Reply::Done, out(""), out("")],
            missing(),
            vec![out("")],
            missing(),
            vec![Reply::Picked(pick)],
        ])
    };
    for (pick, entered, message) in [
        (0, vec![failed("x")], "Failed to get drive name"),
        (0, vec![text("a"), failed("x")], "Failed to get drive size"),
        (1, vec![failed("x")], "Failed to get device name"),
        (1, vec![text("a"), failed("x")], "Failed to get vendor ID"),
        (1, vec![text("a"), text("1"), failed("x")], "Failed to get product ID"),
    ] {
        let (_, ended) = play(|log| run_tool(log, 0, &cli), all(vec![start(pick), entered]));
        assert_eq!(ended.err(), Some(vec![message.to_string(), "x".to_string()]));
    }
}

#[test]
fn the_daemon_goes_on_with_its_ids() {
    let cli = Cli {
        vm: None,
        device: None,
        command: Commands::HidDaemon {
            name: "scan".to_string(),
            vid: "0x0c2e".to_string(),
            pid: "0x0b61".to_string(),
            socket_path: "/s".to_string(),
            pid_file: "/p".to_string(),
            port_file: "/q".to_string(),
        },
    };
    let (asked, ended) = play(
        |log| run_tool(log, 0, &cli),
        vec![
            Reply::Number(40001),
            Reply::Number(4711),
            Reply::Done,
            Reply::Done,
            Reply::Flag(false),
            Reply::Done,
            Reply::Done,
        ],
    );
    assert_eq!(asked[3], "write /q: 40001");
    assert!(matches!(ended, Ok(Ending::Serve { vid: 0x0c2e, pid: 0x0b61 })));
}
