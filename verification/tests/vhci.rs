use virsh_usb::host::{line_text, Pause, Reply, Request, Step};
use virsh_usb::vhci::{
    attach_vhci, detach_vhci, find_free_vhci_port, find_vhci_sysfs_dir, free_port_in,
    hid_vhci_port_file,
};

fn play<T>(
    operation: impl Fn(&Vec<Reply>) -> Step<T>,
    replies: Vec<Reply>,
) -> (Vec<String>, Result<T, Vec<String>>) {
    let mut left = replies.into_iter();
    let mut log: Vec<Reply> = Vec::new();
    let mut asked: Vec<String> = Vec::new();
    loop {
        match operation(&log) {
            Ok((result, used)) => {
                assert_eq!(used, log.len());
                assert!(left.next().is_none(), "replies are left after {:?}", asked);
                return (asked, Ok(result));
            }
            Err(Pause::Ask(request)) => {
                asked.push(short(&request));
                match left.next() {
                    Some(reply) => log.push(reply),
                    None => panic!("no reply is left for {:?}", asked),
                }
            }
            Err(Pause::Fail(messages, used)) => {
                assert_eq!(used, log.len());
                assert!(left.next().is_none(), "replies are left after {:?}", asked);
                return (asked, Err(messages));
            }
        }
    }
}

fn short(request: &Request) -> String {
    match request {
        Request::Run(args) => format!("run {}", args.join(" ")),
        Request::Say(line) => format!("say {}", line_text(line)),
        Request::Warn(line) => format!("warn {}", line_text(line)),
        Request::Write(path, text) => format!("write {}: {}", path, text),
        Request::Read(path) => format!("read {}", path),
        Request::Remove(path) => format!("remove {}", path),
        Request::Exists(path) => format!("exists {}", path),
        Request::Choose(prompt, options, start) => format!(
            "choose {} [{}] {}",
            line_text(prompt),
            options.iter().map(line_text).collect::<Vec<_>>().join("|"),
            start
        ),
        other => format!("{:?}", other),
    }
}

fn text(s: &str) -> Reply {
    Reply::Text(s.to_string())
}

fn failed(message: &str) -> Reply {
    Reply::Failed(vec![message.to_string()])
}

const NEW: &str = "/sys/bus/platform/drivers/vhci_hcd/vhci_hcd.0";
const OLD: &str = "/sys/bus/platform/drivers/vhci_hcd/vhci_hcd";
const STATUS: &str = "hub port sta spd dev      sockfd local_busid\nhs  0000 006 002 00010001 000003 1-1\nss  0008 004 000 00000000 000000 0-0\nhs  000a 004 000 00000000 000000 0-0\nhs  000b 004 000 00000000 000000 0-0\n";

#[test]
fn the_controller_has_two_names() {
    let (asked, ended) = play(|log| find_vhci_sysfs_dir(log, 0), vec![Reply::Flag(true)]);
    assert_eq!(asked, [format!("exists {}", NEW)]);
    assert_eq!(ended, Ok(NEW.to_string()));
    let (asked, ended) =
        play(|log| find_vhci_sysfs_dir(log, 0), vec![Reply::Flag(false), Reply::Flag(true)]);
    assert_eq!(asked[1], format!("exists {}", OLD));
    assert_eq!(ended, Ok(OLD.to_string()));
    let (_, ended) =
        play(|log| find_vhci_sysfs_dir(log, 0), vec![Reply::Flag(false), Reply::Flag(false)]);
    assert_eq!(
        ended,
        Err(vec!["vhci_hcd sysfs directory not found — is the vhci-hcd module loaded?\n  Try: sudo modprobe vhci-hcd".to_string()])
    );
}

#[test]
fn the_first_free_high_speed_port_is_taken() {
    assert_eq!(free_port_in(STATUS), Some(10));
    assert_eq!(free_port_in("hs 0001 004\n"), None);
    assert_eq!(free_port_in("heading\nhs 0001 4\n"), Some(1));
    assert_eq!(free_port_in("heading\nhs zzzz 004\nhs 0002\n"), None);
    assert_eq!(free_port_in(""), None);
    let (asked, ended) =
        play(|log| find_free_vhci_port(log, 0), vec![Reply::Flag(true), text(STATUS)]);
    assert_eq!(asked[1], format!("read {}/status", NEW));
    assert_eq!(ended, Ok(10));
}

#[test]
fn a_port_may_be_lacking() {
    let (_, ended) =
        play(|log| find_free_vhci_port(log, 0), vec![Reply::Flag(true), text("heading\n")]);
    assert_eq!(ended, Err(vec!["No free vhci_hcd ports available".to_string()]));
    let (_, ended) =
        play(|log| find_free_vhci_port(log, 0), vec![Reply::Flag(true), failed("denied")]);
    assert_eq!(
        ended,
        Err(vec!["Failed to read vhci_hcd status".to_string(), "denied".to_string()])
    );
}

#[test]
fn a_device_is_plugged_in_by_four_numbers() {
    let (asked, ended) = play(|log| attach_vhci(log, 0, NEW, 10, 7), vec![Reply::Done]);
    assert_eq!(asked, [format!("write {}/attach: 10 7 65537 2\n", NEW)]);
    assert!(ended.is_ok());
}

#[test]
fn a_refused_device_tells_the_permissions() {
    for (mode, shown) in [(Reply::Number(0o100200), "100200"), (failed("gone"), "unknown")] {
        let (asked, ended) =
            play(|log| attach_vhci(log, 0, "/sys/v", 0, 3), vec![failed("denied"), mode]);
        assert_eq!(asked[1], "Mode(\"/sys/v/attach\")");
        assert_eq!(
            ended,
            Err(vec![
                format!("Failed to write to vhci_hcd attach (/sys/v/attach)\n  Permissions: {}\n  Make sure your user is in the 'plugdev' group and the udev rule is installed:\n  sudo usermod -aG plugdev $USER\n  echo 'SUBSYSTEM==\"platform\", DRIVER==\"vhci_hcd\", RUN+=\"/bin/sh -c \\'chown root:plugdev /sys%p/attach /sys%p/detach && chmod 0660 /sys%p/attach /sys%p/detach\\'\"' | sudo tee /etc/udev/rules.d/99-virsh-usb.rules", shown),
                "denied".to_string(),
            ])
        );
    }
}

#[test]
fn a_device_is_unplugged_from_its_port() {
    let (asked, ended) = play(
        |log| detach_vhci(log, 0, "scan"),
        vec![text("/d"), Reply::Flag(true), text("10\n"), Reply::Flag(true), Reply::Done, Reply::Done],
    );
    assert!(ended.is_ok());
    assert_eq!(
        asked,
        [
            "DataDir".to_string(),
            "exists /d/hid-scan.vhci-port".to_string(),
            "read /d/hid-scan.vhci-port".to_string(),
            format!("exists {}", NEW),
            format!("write {}/detach: 10\n", NEW),
            "remove /d/hid-scan.vhci-port".to_string(),
        ]
    );
    assert_eq!(
        play(|log| hid_vhci_port_file(log, 0, "scan"), vec![text("/d")]).1,
        Ok("/d/hid-scan.vhci-port".to_string())
    );
}

#[test]
fn a_device_that_is_not_plugged_in_is_left_alone() {
    let (asked, ended) =
        play(|log| detach_vhci(log, 0, "scan"), vec![text("/d"), Reply::Flag(false)]);
    assert_eq!(asked.len(), 2);
    assert!(ended.is_ok());
}

#[test]
fn unplugging_may_fail() {
    let (_, ended) = play(
        |log| detach_vhci(log, 0, "scan"),
        vec![text("/d"), Reply::Flag(true), text("port")],
    );
    assert_eq!(
        ended,
        Err(vec![
            "Invalid vhci port in state file".to_string(),
            "invalid digit found in string".to_string(),
        ])
    );
    let (_, ended) = play(
        |log| detach_vhci(log, 0, "scan"),
        vec![text("/d"), Reply::Flag(true), text("1"), Reply::Flag(true), failed("denied")],
    );
    assert_eq!(
        ended,
        Err(vec!["Failed to write to vhci_hcd detach".to_string(), "denied".to_string()])
    );
}
