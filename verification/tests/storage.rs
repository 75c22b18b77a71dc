use virsh_usb::devices::{HidDevice, VirtualDrive};
use virsh_usb::host::{line_text, Pause, Reply, Request, Step};
use virsh_usb::storage::{
    attach_virtual_drive, build_disk_xml, create_virtual_drive, delete_virtual_drive,
    detach_virtual_drive, extract_attr_value, get_next_target_dev, get_vol_path,
    is_virtual_drive_attached, list_virtual_drives, next_target_in, show_virtual_status,
    usb_disks_in,
};

fn play<T>(
    operation: impl Fn(&Vec<Reply>) -> Step<T>,
    replies: Vec<Reply>,
) -> (Vec<String>, Result<T, Vec<String>>) {
    let mut left = replies.into_iter();
    let mut log: Vec<Reply> = Vec::new();
    let mut asked: Vec<String> = Vec::new();
    loop {
        match operation(&log) {
            Ok((result, used)) => {
                assert_eq!(used, log.len());
                assert!(left.next().is_none(), "replies are left after {:?}", asked);
                return (asked, Ok(result));
            }
            Err(Pause::Ask(request)) => {
                asked.push(short(&request));
                match left.next() {
                    Some(reply) => log.push(reply),
                    None => panic!("no reply is left for {:?}", asked),
                }
            }
            Err(Pause::Fail(messages, used)) => {
                assert_eq!(used, log.len());
                assert!(left.next().is_none(), "replies are left after {:?}", asked);
                return (asked, Err(messages));
            }
        }
    }
}

fn short(request: &Request) -> String {
    match request {
        Request::Run(args) => format!("run {}", args.join(" ")),
        Request::Say(line) => format!("say {}", line_text(line)),
        Request::Warn(line) => format!("warn {}", line_text(line)),
        Request::Write(path, text) => format!("write {}: {}", path, text),
        Request::Read(path) => format!("read {}", path),
        Request::Remove(path) => format!("remove {}", path),
        Request::Exists(path) => format!("exists {}", path),
        Request::Choose(prompt, options, start) => format!(
            "choose {} [{}] {}",
            line_text(prompt),
            options.iter().map(line_text).collect::<Vec<_>>().join("|"),
            start
        ),
        other => format!("{:?}", other),
    }
}

fn out(text: &str) -> Reply {
    Reply::Exit(true, text.as_bytes().to_vec(), vec![])
}

fn error(text: &str) -> Reply {
    Reply::Exit(false, vec![], text.as_bytes().to_vec())
}

fn text(s: &str) -> Reply {
    Reply::Text(s.to_string())
}

fn failed(message: &str) -> Reply {
    Reply::Failed(vec![message.to_string()])
}

fn drive(name: &str, size: &str) -> VirtualDrive {
    VirtualDrive { name: name.to_string(), size: size.to_string(), created_at_secs: 7 }
}

fn hid(name: &str) -> HidDevice {
    HidDevice { name: name.to_string(), vid: "1".to_string(), pid: "2".to_string() }
}

/// The replies with which the drives are loaded.
fn loaded(drives: Vec<VirtualDrive>) -> Vec<Reply> {
    vec![text("/data"), Reply::Flag(true), text("[]"), Reply::Drives(drives)]
}

/// The replies with which a missing list is loaded.
fn missing() -> Vec<Reply> {
    vec![text("/data"), Reply::Flag(false)]
}

fn all(parts: Vec<Vec<Reply>>) -> Vec<Reply> {
    parts.into_iter().flatten().collect()
}

const IMAGE: &str = "/var/lib/libvirt/images/MyDrive.qcow2";

#[test]
fn an_attribute_has_what_stands_between_its_quotes() {
    assert_eq!(extract_attr_value("<source file='/a/b'/>", "file"), Some("/a/b".to_string()));
    assert_eq!(extract_attr_value("<target dev='sda' bus='usb'/>", "bus"), Some("usb".to_string()));
    assert_eq!(extract_attr_value("<target dev=''/>", "dev"), Some("".to_string()));
    assert_eq!(extract_attr_value("<target dev='sda", "dev"), None);
    assert_eq!(extract_attr_value("<target/>", "dev"), None);
}

#[test]
fn usb_disks_are_read_from_a_definition() {
    let xml = format!(
        "<domain>\n  <disk type='file' device='disk'>\n    <source file='/a.qcow2'/>\n    <target dev='vda' bus='virtio'/>\n  </disk>\n  <disk type='file' device='cdrom'>\n    <source file='/b.iso'/>\n    <target dev='sda' bus='usb'/>\n  </disk>\n{}</domain>\n",
        build_disk_xml(IMAGE, "sdb")
    );
    let disks = usb_disks_in(&xml);
    assert_eq!(disks.len(), 1);
    assert_eq!(disks[0].source_file, IMAGE);
    assert_eq!(disks[0].target_dev, "sdb");
}

#[test]
fn a_disk_is_read_back() {
    for (image, dev) in [(IMAGE, "sda"), ("", ""), ("/with space/\u{e9}.qcow2", "sdz")] {
        let disks = usb_disks_in(&build_disk_xml(image, dev));
        assert_eq!(disks.len(), 1);
        assert_eq!(disks[0].source_file, image);
        assert_eq!(disks[0].target_dev, dev);
    }
}

#[test]
fn the_definition_of_a_disk() {
    assert_eq!(
        build_disk_xml("/i.qcow2", "sda"),
        "<disk type='file' device='disk'>\n  <driver name='qemu' type='qcow2'/>\n  <source file='/i.qcow2'/>\n  <target dev='sda' bus='usb'/>\n</disk>\n"
    );
}

#[test]
fn the_next_disk_name_is_the_first_free_one() {
    assert_eq!(next_target_in(""), Some("sda".to_string()));
    let mut xml = String::new();
    for c in "abcdefghijklmnopqrstuvwxyz".chars() {
        assert_eq!(next_target_in(&xml), Some(format!("sd{}", c)));
        xml.push_str(&build_disk_xml("/i", &format!("sd{}", c)));
    }
    assert_eq!(next_target_in(&xml), None);
    assert_eq!(
        next_target_in("<target dev='sda' bus='scsi'/>\n <target dev='sdc'/>"),
        Some("sdb".to_string())
    );
}

#[test]
fn without_a_definition_the_first_disk_name_is_free() {
    let (asked, ended) = play(|log| get_next_target_dev(log, 0, "vm1"), vec![error("gone")]);
    assert_eq!(asked, ["run virsh dumpxml vm1"]);
    assert_eq!(ended, Ok("sda".to_string()));
}

#[test]
fn all_disk_names_may_be_taken() {
    let xml: String = ('a'..='z').map(|c| format!("<target dev='sd{}'/>\n", c)).collect();
    let (_, ended) = play(|log| get_next_target_dev(log, 0, "vm1"), vec![out(&xml)]);
    assert_eq!(
        ended,
        Err(vec!["No available USB disk target devices (all sda-sdz are in use)".to_string()])
    );
}

#[test]
fn the_image_is_asked_of_the_pool() {
    let (asked, ended) =
        play(|log| get_vol_path(log, 0, "MyDrive"), vec![out(&format!("{}\n\n", IMAGE))]);
    assert_eq!(asked, ["run virsh vol-path MyDrive.qcow2 --pool default"]);
    assert_eq!(ended, Ok(IMAGE.to_string()));
}

#[test]
fn a_drive_is_attached_if_its_image_is() {
    let xml = build_disk_xml(IMAGE, "sda");
    for (image, attached) in [(IMAGE, true), ("/other", false)] {
        let (_, ended) = play(
            |log| is_virtual_drive_attached(log, 0, "vm1", "MyDrive"),
            vec![out(image), out(&xml)],
        );
        assert_eq!(ended, Ok(attached));
    }
}

#[test]
fn a_drive_is_made_and_listed() {
    let (asked, ended) = play(
        |log| create_virtual_drive(log, 0, "My Drive!", "8G"),
        all(vec![
            loaded(vec![drive("old", "4G")]),
            missing(),
            vec![
                out("Vol created\n"),
                Reply::Number(1700000000),
                text("/data"),
                text("[json]"),
                Reply::Done,
                Reply::Done,
            ],
        ]),
    );
    assert!(ended.is_ok());
    assert_eq!(
        asked,
        [
            "DataDir",
            "exists /data/drives.json",
            "read /data/drives.json",
            "DecodeDrives(\"[]\")",
            "DataDir",
            "exists /data/hids.json",
            "run virsh vol-create-as default My-Drive.qcow2 8G --format qcow2",
            "Clock",
            "DataDir",
            "EncodeDrives([VirtualDrive { name: \"old\", size: \"4G\", created_at_secs: 7 }, VirtualDrive { name: \"My-Drive\", size: \"8G\", created_at_secs: 1700000000 }])",
            "write /data/drives.json: [json]",
            "say ✓ Created storage drive My-Drive (8G) at /var/lib/libvirt/images/My-Drive.qcow2",
        ]
    );
}

#[test]
fn a_clock_before_its_start_counts_as_zero() {
    let (asked, ended) = play(
        |log| create_virtual_drive(log, 0, "d", "1G"),
        all(vec![
            missing(),
            missing(),
            vec![out(""), failed("early"), text("/data"), text("[]"), Reply::Done, Reply::Done],
        ]),
    );
    assert!(ended.is_ok());
    assert_eq!(
        asked[7],
        "EncodeDrives([VirtualDrive { name: \"d\", size: \"1G\", created_at_secs: 0 }])"
    );
}

#[test]
fn a_drive_needs_a_free_name() {
    let (asked, ended) = play(|log| create_virtual_drive(log, 0, "", "4G"), vec![]);
    assert!(asked.is_empty());
    assert_eq!(ended, Err(vec!["Drive name cannot be empty".to_string()]));
    let (_, ended) = play(|log| create_virtual_drive(log, 0, "--", "4G"), vec![]);
    assert_eq!(ended, Err(vec!["Drive name is empty after sanitization".to_string()]));
    let (_, ended) =
        play(|log| create_virtual_drive(log, 0, "old", "4G"), loaded(vec![drive("old", "4G")]));
    assert_eq!(ended, Err(vec!["A storage drive named 'old' already exists".to_string()]));
    let (_, ended) = play(
        |log| create_virtual_drive(log, 0, "scan", "4G"),
        all(vec![
            missing(),
            vec![text("/data"), Reply::Flag(true), text("[]"), Reply::Hids(vec![hid("scan")])],
        ]),
    );
    assert_eq!(
        ended,
        Err(vec!["An HID device named 'scan' already exists. Device names must be unique across all types.".to_string()])
    );
}

#[test]
fn a_drive_is_deleted_from_pool_and_list() {
    let (asked, ended) = play(
        |log| delete_virtual_drive(log, 0, "b"),
        all(vec![
            loaded(vec![drive("a", "1G"), drive("b", "2G"), drive("c", "3G")]),
            vec![
                out("vm1\n"),
                out("/images/b.qcow2\n"),
                out("<domain/>"),
                error("in use"),
                Reply::Done,
                text("/data"),
                text("[json]"),
                Reply::Done,
                Reply::Done,
            ],
        ]),
    );
    assert!(ended.is_ok());
    assert_eq!(asked[4], "run virsh list --name");
    assert_eq!(asked[5], "run virsh vol-path b.qcow2 --pool default");
    assert_eq!(asked[6], "run virsh dumpxml vm1");
    assert_eq!(asked[7], "run virsh vol-delete b.qcow2 --pool default");
    assert_eq!(
        asked[8],
        "warn Warning: could not delete volume: Command failed: virsh vol-delete b.qcow2 --pool default\nError: in use"
    );
    assert_eq!(
        asked[10],
        "EncodeDrives([VirtualDrive { name: \"a\", size: \"1G\", created_at_secs: 7 }, VirtualDrive { name: \"c\", size: \"3G\", created_at_secs: 7 }])"
    );
    assert_eq!(asked[12], "say ✓ Deleted storage drive b");
}

#[test]
fn an_attached_drive_is_not_deleted() {
    let xml = build_disk_xml(IMAGE, "sda");
    let (asked, ended) = play(
        |log| delete_virtual_drive(log, 0, "MyDrive"),
        all(vec![
            loaded(vec![drive("MyDrive", "4G")]),
            vec![out("vm1\nvm2\n"), out(IMAGE), out("<domain/>"), out(IMAGE), out(&xml)],
        ]),
    );
    assert_eq!(
        ended,
        Err(vec!["Storage drive 'MyDrive' is currently attached to VM 'vm2'. Detach it first.".to_string()])
    );
    assert_eq!(asked[4], "run virsh list --name");
    let (_, ended) = play(|log| delete_virtual_drive(log, 0, "nope"), missing());
    assert_eq!(ended, Err(vec!["No storage drive named 'nope'".to_string()]));
}

#[test]
fn drives_are_listed_with_their_state() {
    let (asked, ended) = play(
        |log| list_virtual_drives(log, 0),
        all(vec![
            loaded(vec![drive("a", "4G"), drive("b", "16G"), drive("c", "1G")]),
            vec![
                out("vm1\nvm2\n"),
                out(&build_disk_xml("/i/a", "sda")),
                out(&build_disk_xml("/i/a", "sdb")),
                Reply::Done,
                Reply::Done,
                out("/i/a\n"),
                Reply::Done,
                Reply::Done,
                Reply::Done,
                out("/i/b\n"),
                Reply::Done,
                Reply::Done,
                Reply::Done,
                error("no volume"),
                Reply::Done,
                Reply::Done,
            ],
        ]),
    );
    assert!(ended.is_ok());
    assert_eq!(
        asked[7..],
        [
            "say Virtual USB Storage Drives:",
            "say ",
            "run virsh vol-path a.qcow2 --pool default",
            "say   a                    4G     attached to: vm2",
            "say   /i/a",
            "say ",
            "run virsh vol-path b.qcow2 --pool default",
            "say   b                    16G    not attached",
            "say   /i/b",
            "say ",
            "run virsh vol-path c.qcow2 --pool default",
            "say   c                    1G     [image missing]",
            "say ",
        ]
    );
}

#[test]
fn without_drives_the_user_is_told_how_to_make_one() {
    let (asked, ended) = play(
        |log| list_virtual_drives(log, 0),
        all(vec![missing(), vec![Reply::Done, Reply::Done]]),
    );
    assert!(ended.is_ok());
    assert_eq!(
        asked[2..],
        [
            "say No storage drives found. Create one with:",
            "say   virsh-usb storage create <name>",
        ]
    );
}

#[test]
fn a_drive_is_attached_under_the_next_name() {
    let (asked, ended) = play(
        |log| attach_virtual_drive(log, 0, "vm1", "MyDrive"),
        all(vec![
            loaded(vec![drive("MyDrive", "4G")]),
            vec![
                out("vm1\n"),
                out(IMAGE),
                out("<domain/>"),
                out(IMAGE),
                out("<target dev='sda' bus='sata'/>"),
                Reply::Done,
                out(""),
                Reply::Done,
                Reply::Done,
            ],
        ]),
    );
    assert!(ended.is_ok());
    assert_eq!(
        asked[9],
        format!("write /tmp/virsh-usb-storage-attach.xml: {}", build_disk_xml(IMAGE, "sdb"))
    );
    assert_eq!(asked[10], "run virsh attach-device vm1 /tmp/virsh-usb-storage-attach.xml --live");
    assert_eq!(asked[11], "remove /tmp/virsh-usb-storage-attach.xml");
    assert_eq!(asked[12], "say ✓ Successfully attached storage drive MyDrive to vm1");
}

#[test]
fn attaching_a_drive_may_be_refused() {
    let (_, ended) = play(|log| attach_virtual_drive(log, 0, "vm1", "x"), missing());
    assert_eq!(ended, Err(vec!["No storage drive named 'x'".to_string()]));
    let (_, ended) = play(
        |log| attach_virtual_drive(log, 0, "vm1", "MyDrive"),
        all(vec![loaded(vec![drive("MyDrive", "4G")]), vec![out("")]]),
    );
    assert_eq!(ended, Err(vec!["VM 'vm1' is not running".to_string()]));
    let (asked, ended) = play(
        |log| attach_virtual_drive(log, 0, "vm1", "MyDrive"),
        all(vec![
            loaded(vec![drive("MyDrive", "4G")]),
            vec![out("vm1\n"), out(IMAGE), out(&build_disk_xml(IMAGE, "sda")), Reply::Done],
        ]),
    );
    assert!(ended.is_ok());
    assert_eq!(asked[7], "say Storage drive 'MyDrive' is already attached to vm1");
    let (_, ended) = play(
        |log| attach_virtual_drive(log, 0, "vm1", "MyDrive"),
        all(vec![
            loaded(vec![drive("MyDrive", "4G")]),
            vec![out("vm1\n"), out(IMAGE), out(""), error("no volume")],
        ]),
    );
    assert_eq!(
        ended,
        Err(vec![
            "Storage drive 'MyDrive' not found in libvirt storage pool. Try: virsh vol-list default".to_string(),
            "Command failed: virsh vol-path MyDrive.qcow2 --pool default\nError: no volume".to_string(),
        ])
    );
}

#[test]
fn a_drive_is_detached_under_its_own_name() {
    let (asked, ended) = play(
        |log| detach_virtual_drive(log, 0, "vm1", "MyDrive"),
        all(vec![
            loaded(vec![drive("MyDrive", "4G")]),
            vec![
                out("vm1\n"),
                out(IMAGE),
                out(&build_disk_xml(IMAGE, "sdq")),
                Reply::Done,
                out(""),
                Reply::Done,
                Reply::Done,
            ],
        ]),
    );
    assert!(ended.is_ok());
    assert_eq!(
        asked[7],
        format!("write /tmp/virsh-usb-storage-detach.xml: {}", build_disk_xml(IMAGE, "sdq"))
    );
    assert_eq!(asked[8], "run virsh detach-device vm1 /tmp/virsh-usb-storage-detach.xml --live");
    assert_eq!(asked[10], "say ✓ Successfully detached storage drive MyDrive from vm1");
}

#[test]
fn detaching_a_drive_may_be_refused() {
    let (_, ended) = play(
        |log| detach_virtual_drive(log, 0, "vm1", "MyDrive"),
        all(vec![
            loaded(vec![drive("MyDrive", "4G")]),
            vec![out("vm1\n"), out(IMAGE), out("<domain/>")],
        ]),
    );
    assert_eq!(
        ended,
        Err(vec!["Storage drive 'MyDrive' is not attached to VM 'vm1'".to_string()])
    );
    let (_, ended) = play(|log| detach_virtual_drive(log, 0, "vm1", "x"), missing());
    assert_eq!(ended, Err(vec!["No storage drive named 'x'".to_string()]));
}

#[test]
fn status_of_a_drive() {
    let (asked, ended) = play(
        |log| show_virtual_status(log, 0, "vm1", "MyDrive"),
        all(vec![
            loaded(vec![drive("MyDrive", "4G")]),
            vec![
                out("vm1\n"),
                Reply::Done,
                out(IMAGE),
                Reply::Done,
                out(IMAGE),
                out("<domain/>"),
                Reply::Done,
            ],
        ]),
    );
    assert!(ended.is_ok());
    assert_eq!(asked[4], "run virsh list --name");
    assert_eq!(asked[5], "say 🖥 VM (vm1): Running");
    assert_eq!(asked[7], format!("say 💾 Storage Drive (MyDrive): 4G at {}", IMAGE));
    assert_eq!(asked[10], "say 🔗 Attachment Status: Not attached to VM");
    let (asked, ended) = play(
        |log| show_virtual_status(log, 0, "vm1", "MyDrive"),
        all(vec![
            loaded(vec![drive("MyDrive", "4G")]),
            vec![out(""), Reply::Done, error("no volume"), Reply::Done],
        ]),
    );
    assert!(ended.is_ok());
    assert_eq!(asked[7], "say 💾 Storage Drive (MyDrive): Image missing from storage pool");
}
