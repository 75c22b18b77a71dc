use virsh_usb::devices::{find_drive, find_hid, HidDevice, VirtualDrive};
use virsh_usb::host::{line_text, Pause, Reply, Request, Step};
use virsh_usb::registry::{
    get_data_dir, get_drives_file, get_hid_devices_file, load_hid_devices, load_virtual_drives,
    save_hid_devices, save_virtual_drives,
};

fn play<T>(
    operation: impl Fn(&Vec<Reply>) -> Step<T>,
    replies: Vec<Reply>,
) -> (Vec<String>, Result<T, Vec<String>>) {
    let mut left = replies.into_iter();
    let mut log: Vec<Reply> = Vec::new();
    let mut asked: Vec<String> = Vec::new();
    loop {
        match operation(&log) {
            Ok((result, used)) => {
                assert_eq!(used, log.len());
                assert!(left.next().is_none(), "replies are left after {:?}", asked);
                return (asked, Ok(result));
            }
            Err(Pause::Ask(request)) => {
                asked.push(short(&request));
                match left.next() {
                    Some(reply) => log.push(reply),
                    None => panic!("no reply is left for {:?}", asked),
                }
            }
            Err(Pause::Fail(messages, used)) => {
                assert_eq!(used, log.len());
                assert!(left.next().is_none(), "replies are left after {:?}", asked);
                return (asked, Err(messages));
            }
        }
    }
}

fn short(request: &Request) -> String {
    match request {
        Request::Run(args) => format!("run {}", args.join(" ")),
        Request::Say(line) => format!("say {}", line_text(line)),
        Request::Warn(line) => format!("warn {}", line_text(line)),
        Request::Write(path, text) => format!("write {}: {}", path, text),
        Request::Read(path) => format!("read {}", path),
        Request::Remove(path) => format!("remove {}", path),
        Request::Exists(path) => format!("exists {}", path),
        Request::Choose(prompt, options, start) => format!(
            "choose {} [{}] {}",
            line_text(prompt),
            options.iter().map(line_text).collect::<Vec<_>>().join("|"),
            start
        ),
        other => format!("{:?}", other),
    }
}

fn text(s: &str) -> Reply {
    Reply::Text(s.to_string())
}

fn failed(message: &str) -> Reply {
    Reply::Failed(vec![message.to_string()])
}

fn drive(name: &str) -> VirtualDrive {
    VirtualDrive { name: name.to_string(), size: "4G".to_string(), created_at_secs: 1 }
}

fn hid(name: &str) -> HidDevice {
    HidDevice { name: name.to_string(), vid: "0x1".to_string(), pid: "0x2".to_string() }
}

#[test]
fn the_lists_have_their_files() {
    assert_eq!(play(|log| get_data_dir(log, 0), vec![text("/d")]).1, Ok("/d".to_string()));
    assert_eq!(
        play(|log| get_drives_file(log, 0), vec![text("/d")]).1,
        Ok("/d/drives.json".to_string())
    );
    assert_eq!(
        play(|log| get_hid_devices_file(log, 0), vec![text("/d")]).1,
        Ok("/d/hids.json".to_string())
    );
    assert_eq!(
        play(|log| get_data_dir(log, 0), vec![failed("Could not determine data directory")]).1,
        Err(vec!["Could not determine data directory".to_string()])
    );
}

#[test]
fn kept_drives_are_loaded_from_the_same_file() {
    let (asked, ended) = play(
        |log| save_virtual_drives(log, 0, &vec![drive("a")]),
        vec![text("/d"), text("[a]"), Reply::Done],
    );
    assert!(ended.is_ok());
    assert_eq!(asked[2], "write /d/drives.json: [a]");
    let (asked, ended) = play(
        |log| load_virtual_drives(log, 0),
        vec![text("/d"), Reply::Flag(true), text("[a]"), Reply::Drives(vec![drive("a")])],
    );
    assert_eq!(asked[2..], ["read /d/drives.json", "DecodeDrives(\"[a]\")"]);
    let drives = ended.unwrap();
    assert_eq!(drives.len(), 1);
    assert_eq!(drives[0].name, "a");
    assert_eq!(drives[0].size, "4G");
    assert_eq!(drives[0].created_at_secs, 1);
}

#[test]
fn kept_hid_devices_are_loaded_from_the_same_file() {
    let (asked, ended) = play(
        |log| save_hid_devices(log, 0, &vec![hid("a")]),
        vec![text("/d"), text("[a]"), Reply::Done],
    );
    assert!(ended.is_ok());
    assert_eq!(
        asked[1],
        "EncodeHids([HidDevice { name: \"a\", vid: \"0x1\", pid: \"0x2\" }])"
    );
    assert_eq!(asked[2], "write /d/hids.json: [a]");
    let (asked, ended) = play(
        |log| load_hid_devices(log, 0),
        vec![text("/d"), Reply::Flag(true), text("[a]"), Reply::Hids(vec![hid("a")])],
    );
    assert_eq!(asked[2..], ["read /d/hids.json", "DecodeHids(\"[a]\")"]);
    assert_eq!(ended.unwrap()[0].vid, "0x1");
}

#[test]
fn a_missing_list_has_nothing_in_it() {
    let missing = || vec![text("/d"), Reply::Flag(false)];
    assert!(play(|log| load_virtual_drives(log, 0), missing()).1.unwrap().is_empty());
    assert!(play(|log| load_hid_devices(log, 0), missing()).1.unwrap().is_empty());
}

#[test]
fn a_list_that_cannot_be_read_is_told() {
    let (_, ended) = play(
        |log| load_virtual_drives(log, 0),
        vec![text("/d"), Reply::Flag(true), failed("denied")],
    );
    assert_eq!(
        ended.err(),
        Some(vec!["Failed to read /d/drives.json".to_string(), "denied".to_string()])
    );
    let (_, ended) = play(
        |log| load_virtual_drives(log, 0),
        vec![text("/d"), Reply::Flag(true), text("{"), failed("EOF")],
    );
    assert_eq!(
        ended.err(),
        Some(vec![
            "Failed to parse drives.json. The file may be corrupted. You can delete it at: /d/drives.json".to_string(),
            "EOF".to_string(),
        ])
    );
    let (_, ended) = play(
        |log| load_hid_devices(log, 0),
        vec![text("/d"), Reply::Flag(true), text("{"), failed("EOF")],
    );
    assert_eq!(
        ended.err(),
        Some(vec![
            "Failed to parse hids.json. The file may be corrupted. You can delete it at: /d/hids.json".to_string(),
            "EOF".to_string(),
        ])
    );
}

#[test]
fn devices_are_found_by_their_names() {
    let drives = vec![drive("a"), drive("b"), drive("b")];
    assert_eq!(find_drive(&drives, "b"), Some(1));
    assert_eq!(find_drive(&drives, "c"), None);
    let hids = vec![hid("x"), hid("y")];
    assert_eq!(find_hid(&hids, "y"), Some(1));
    assert_eq!(find_hid(&hids, "Y"), None);
}
