use virsh_usb::host::{line_text, Pause, Reply, Request, Step};
use virsh_usb::usb::Front;
use virsh_usb::vm::{
    active_vms, attach_device, build_hostdev_xml, check_vm_running, check_vm_unpaused, detach_device,
    get_all_vms, get_config_file, join_path, load_last_vm, save_last_vm, select_vm, show_status,
};

fn play<T>(
    operation: impl Fn(&Vec<Reply>) -> Step<T>,
    replies: Vec<Reply>,
) -> (Vec<String>, Result<T, Vec<String>>) {
    let mut left = replies.into_iter();
    let mut log: Vec<Reply> = Vec::new();
    let mut asked: Vec<String> = Vec::new();
    loop {
        match operation(&log) {
            Ok((result, used)) => {
                assert_eq!(used, log.len());
                assert!(left.next().is_none(), "replies are left after {:?}", asked);
                return (asked, Ok(result));
            }
            Err(Pause::Ask(request)) => {
                asked.push(short(&request));
                match left.next() {
                    Some(reply) => log.push(reply),
                    None => panic!("no reply is left for {:?}", asked),
                }
            }
            Err(Pause::Fail(messages, used)) => {
                assert_eq!(used, log.len());
                assert!(left.next().is_none(), "replies are left after {:?}", asked);
                return (asked, Err(messages));
            }
        }
    }
}

/// Runs the operation with the answers of `host`.
fn with_host<T>(
    operation: impl Fn(&Vec<Reply>) -> Step<T>,
    host: impl Fn(&Request) -> Reply,
) -> Result<T, Vec<String>> {
    let mut log: Vec<Reply> = Vec::new();
    loop {
        match operation(&log) {
            Ok((result, _)) => return Ok(result),
            Err(Pause::Ask(request)) => log.push(host(&request)),
            Err(Pause::Fail(messages, _)) => return Err(messages),
        }
    }
}

fn short(request: &Request) -> String {
    match request {
        Request::Run(args) => format!("run {}", args.join(" ")),
        Request::Say(line) => format!("say {}", line_text(line)),
        Request::Warn(line) => format!("warn {}", line_text(line)),
        Request::Write(path, text) => format!("write {}: {}", path, text),
        Request::Read(path) => format!("read {}", path),
        Request::Remove(path) => format!("remove {}", path),
        Request::Exists(path) => format!("exists {}", path),
        Request::Choose(prompt, options, start) => format!(
            "choose {} [{}] {}",
            line_text(prompt),
            options.iter().map(line_text).collect::<Vec<_>>().join("|"),
            start
        ),
        other => format!("{:?}", other),
    }
}

fn out(text: &str) -> Reply {
    Reply::Exit(true, text.as_bytes().to_vec(), vec![])
}

fn error(text: &str) -> Reply {
    Reply::Exit(false, vec![], text.as_bytes().to_vec())
}

fn text(s: &str) -> Reply {
    Reply::Text(s.to_string())
}

fn failed(message: &str) -> Reply {
    Reply::Failed(vec![message.to_string()])
}

const LSUSB: &str = "Bus 003 Device 006: ID 0dd4:4105 Custom Engineering SPA PaperHandler\n";
const HUBS: &str = "Bus 001 Device 001: ID 1d6b:0002 Linux Foundation 2.0 root hub\n";
const XML: &str = "<domain>\n  <devices>\n    <hostdev mode='subsystem' type='usb' managed='yes'>\n      <source>\n        <vendor id='0x0dd4'/>\n        <product id='0x4105'/>\n      </source>\n    </hostdev>\n  </devices>\n</domain>\n";

#[test]
fn a_listed_virtual_machine_runs() {
    for (listed, running) in [("vm1\nvm2\n", true), ("  vm2  \n", true), ("vm21\n", false), ("", false)] {
        let (asked, ended) = play(|log| check_vm_running(log, 0, "vm2"), vec![out(listed)]);
        assert_eq!(asked, ["run virsh list --name"]);
        assert_eq!(ended, Ok(running));
        let (asked, ended) = play(|log| check_vm_unpaused(log, 0, "vm2"), vec![out(listed)]);
        assert_eq!(asked, ["run virsh list --state-running --name"]);
        assert_eq!(ended, Ok(running));
    }
}

#[test]
fn names_are_listed_without_empty_lines() {
    let (asked, ended) = play(|log| get_all_vms(log, 0), vec![out(" a \n\nb\n\n")]);
    assert_eq!(asked, ["run virsh list --all --name"]);
    assert_eq!(ended, Ok(vec!["a".to_string(), "b".to_string()]));
    let (asked, ended) = play(|log| active_vms(log, 0), vec![out("vm1\npaused\n")]);
    assert_eq!(asked, ["run virsh list --name"]);
    assert_eq!(ended, Ok(vec!["vm1".to_string(), "paused".to_string()]));
    let (_, ended) = play(|log| active_vms(log, 0), vec![error("down")]);
    assert_eq!(ended, Ok(vec![]));
}

#[test]
fn a_device_is_attached_step_by_step() {
    let (asked, ended) = play(
        |log| attach_device(Front::Console, log, 0, "vm1", "0dd4", "4105"),
        vec![
            out("vm1\n"),
            out("<domain/>\n"),
            out(LSUSB),
            Reply::Done,
            out("Device attached successfully\n"),
            Reply::Done,
            Reply::Done,
        ],
    );
    assert!(ended.is_ok());
    assert_eq!(
        asked,
        [
            "run virsh list --state-running --name",
            "run virsh dumpxml vm1",
            "run lsusb",
            "write /tmp/virsh-usb-attach.xml: <hostdev mode='subsystem' type='usb' managed='yes'>\n  <source>\n    <vendor id='0x0dd4'/>\n    <product id='0x4105'/>\n  </source>\n</hostdev>\n",
            "run virsh attach-device vm1 /tmp/virsh-usb-attach.xml --live",
            "remove /tmp/virsh-usb-attach.xml",
            "say ✓ Successfully attached Custom Engineering SPA PaperHandler (0dd4:4105) to vm1",
        ]
    );
}

#[test]
fn a_stopped_virtual_machine_gets_no_device() {
    let (asked, ended) = play(
        |log| attach_device(Front::Tool, log, 0, "vm1", "0dd4", "4105"),
        vec![out("vm2\n")],
    );
    assert_eq!(asked.len(), 1);
    assert_eq!(ended, Err(vec!["VM 'vm1' is not running".to_string()]));
    let (asked, ended) = play(
        |log| detach_device(Front::Tool, log, 0, "vm1", "0dd4", "4105"),
        vec![out("")],
    );
    assert_eq!(asked.len(), 1);
    assert_eq!(ended, Err(vec!["VM 'vm1' is not running".to_string()]));
}

/// What the host answers while `vm1` is paused: it is active, but does not run.
fn paused(request: &Request) -> Reply {
    match short(request).as_str() {
        "run virsh list --name" => out("vm1\n"),
        "run virsh list --state-running --name" => out("\n"),
        "run lsusb" | "run virsh dumpxml vm1" => out(""),
        said if said.starts_with("say ") => Reply::Done,
        other => panic!("asked for {}", other),
    }
}

#[test]
fn a_paused_virtual_machine_keeps_its_devices() {
    let not_running = || vec!["VM 'vm1' is not running".to_string()];
    let ended = with_host(|log| attach_device(Front::Tool, log, 0, "vm1", "0dd4", "4105"), paused);
    assert_eq!(ended, Err(not_running()));
    let ended = with_host(|log| detach_device(Front::Tool, log, 0, "vm1", "0dd4", "4105"), paused);
    assert_eq!(ended, Err(not_running()));
    assert_eq!(with_host(|log| check_vm_unpaused(log, 0, "vm1"), paused), Ok(false));
    assert_eq!(with_host(|log| check_vm_running(log, 0, "vm1"), paused), Ok(true));
    let ended = with_host(|log| show_status(Front::Tool, log, 0, "vm1", "0dd4", "4105"), paused);
    assert_eq!(ended, Ok(()));
    assert_eq!(with_host(|log| active_vms(log, 0), paused), Ok(vec!["vm1".to_string()]));
}

#[test]
fn an_attached_device_is_not_attached_again() {
    let (asked, ended) = play(
        |log| attach_device(Front::Tool, log, 0, "vm1", "0dd4", "4105"),
        vec![out("vm1\n"), out(XML), Reply::Done],
    );
    assert!(ended.is_ok());
    assert_eq!(asked[2], "say Device is already attached to vm1");
}

#[test]
fn a_missing_device_is_told() {
    let (_, ended) = play(
        |log| attach_device(Front::Tool, log, 0, "vm1", "0dd4", "4106"),
        vec![out("vm1\n"), error("no such domain"), out(LSUSB)],
    );
    assert_eq!(
        ended,
        Err(vec!["USB device 0dd4:4106 not found\nMake sure the USB device is connected".to_string()])
    );
}

#[test]
fn root_hubs_are_attached_by_the_tool_only() {
    let (_, ended) = play(
        |log| attach_device(Front::Console, log, 0, "vm1", "1d6b", "0002"),
        vec![out("vm1\n"), out(""), out(HUBS)],
    );
    assert!(ended.is_err());
    let (asked, ended) = play(
        |log| attach_device(Front::Tool, log, 0, "vm1", "1d6b", "0002"),
        vec![out("vm1\n"), out(""), out(HUBS), Reply::Done, out(""), Reply::Done, Reply::Done],
    );
    assert!(ended.is_ok());
    assert_eq!(
        asked[6],
        "say ✓ Successfully attached Linux Foundation 2.0 root hub (1d6b:0002) to vm1"
    );
}

#[test]
fn the_definition_is_removed_after_a_failure() {
    let (asked, ended) = play(
        |log| attach_device(Front::Tool, log, 0, "vm1", "0dd4", "4105"),
        vec![
            out("vm1\n"),
            out(""),
            out(LSUSB),
            Reply::Done,
            error("operation failed\n"),
            failed("already gone"),
        ],
    );
    assert_eq!(asked[5], "remove /tmp/virsh-usb-attach.xml");
    assert_eq!(
        ended,
        Err(vec![
            "Command failed: virsh attach-device vm1 /tmp/virsh-usb-attach.xml --live\nError: operation failed\n".to_string()
        ])
    );
}

#[test]
fn a_definition_that_cannot_be_written_is_told() {
    let (_, ended) = play(
        |log| attach_device(Front::Tool, log, 0, "vm1", "0dd4", "4105"),
        vec![out("vm1\n"), out(""), out(LSUSB), failed("disk full")],
    );
    assert_eq!(
        ended,
        Err(vec!["Failed to write temporary XML file".to_string(), "disk full".to_string()])
    );
}

#[test]
fn a_device_is_detached_with_the_same_definition() {
    let (asked, ended) = play(
        |log| detach_device(Front::Tool, log, 0, "vm1", "0dd4", "4105"),
        vec![out("vm1\n"), out(XML), out(""), Reply::Done, out(""), Reply::Done, Reply::Done],
    );
    assert!(ended.is_ok());
    assert_eq!(
        asked[3],
        format!("write /tmp/virsh-usb-detach.xml: {}", build_hostdev_xml("0dd4", "4105"))
    );
    assert_eq!(asked[4], "run virsh detach-device vm1 /tmp/virsh-usb-detach.xml --live");
    assert_eq!(asked[6], "say ✓ Successfully detached Unknown Device (0dd4:4105) from vm1");
}

#[test]
fn a_device_that_is_not_attached_is_not_detached() {
    let (asked, ended) = play(
        |log| detach_device(Front::Tool, log, 0, "vm1", "0dd4", "4105"),
        vec![out("vm1\n"), out("<domain/>"), Reply::Done],
    );
    assert!(ended.is_ok());
    assert_eq!(asked[2], "say Device is not attached to vm1");
}

#[test]
fn status_tells_of_all_three() {
    let (asked, ended) = play(
        |log| show_status(Front::Tool, log, 0, "vm1", "0dd4", "4105"),
        vec![
            out("vm1\n"),
            Reply::Done,
            out(LSUSB),
            out(LSUSB),
            Reply::Done,
            out(XML),
            Reply::Done,
        ],
    );
    assert!(ended.is_ok());
    assert_eq!(
        asked,
        [
            "run virsh list --name",
            "say 🖥 VM (vm1): Running",
            "run lsusb",
            "run lsusb",
            "say 🔌 Custom Engineering SPA PaperHandler (0dd4:4105): Connected (Bus 003 Device 006)",
            "run virsh dumpxml vm1",
            "say 🔗 Attachment Status: Attached to VM",
        ]
    );
    let (asked, ended) = play(
        |log| show_status(Front::Console, log, 0, "vm1", "1d6b", "0002"),
        vec![out(""), Reply::Done, error("no usb"), out(HUBS), Reply::Done],
    );
    assert!(ended.is_ok());
    assert_eq!(asked[1], "say 🖥 VM (vm1): Not running");
    assert_eq!(asked[4], "say 🔌 Unknown Device (1d6b:0002): Not found");
}

#[test]
fn the_last_virtual_machine_is_remembered() {
    let (asked, ended) =
        play(|log| save_last_vm(log, 0, "vm1"), vec![text("/home/u/.config"), Reply::Done]);
    assert!(ended.is_ok());
    assert_eq!(asked, ["ConfigDir", "write /home/u/.config/last_vm: vm1"]);
    let (asked, ended) =
        play(|log| load_last_vm(log, 0), vec![text("/home/u/.config"), text("vm1")]);
    assert_eq!(asked, ["ConfigDir", "read /home/u/.config/last_vm"]);
    assert_eq!(ended, Ok(Some("vm1".to_string())));
    let (_, ended) = play(|log| load_last_vm(log, 0), vec![text("/c"), failed("no such file")]);
    assert_eq!(ended, Ok(None));
    let (_, ended) = play(|log| load_last_vm(log, 0), vec![failed("no home")]);
    assert_eq!(ended, Ok(None));
    let (_, ended) = play(|log| save_last_vm(log, 0, "vm1"), vec![failed("no home")]);
    assert_eq!(ended, Err(vec!["no home".to_string()]));
}

#[test]
fn paths_are_joined_by_one_slash() {
    assert_eq!(join_path("/a", "b"), "/a/b");
    assert_eq!(join_path("/a/", "b"), "/a/b");
    assert_eq!(join_path("", "b"), "b");
    let (_, ended) = play(|log| get_config_file(log, 0), vec![text("/cfg/")]);
    assert_eq!(ended, Ok("/cfg/last_vm".to_string()));
}

#[test]
fn the_last_virtual_machine_is_offered_first() {
    for (last, start) in [("b", 1), ("c", 0), ("a", 0)] {
        let (asked, ended) = play(
            |log| select_vm(log, 0),
            vec![out("a\nb\n"), text("/c"), text(last), Reply::Picked(0)],
        );
        assert_eq!(asked[3], format!("choose 🖥 Select a VM [a|b] {}", start));
        assert_eq!(ended, Ok("a".to_string()));
    }
}

#[test]
fn without_virtual_machines_there_is_nothing_to_select() {
    let (_, ended) = play(|log| select_vm(log, 0), vec![out("\n\n")]);
    assert_eq!(ended, Err(vec!["No VMs found".to_string()]));
    let (_, ended) = play(
        |log| select_vm(log, 0),
        vec![out("a\n"), text("/c"), failed("none"), failed("Operation was canceled by the user")],
    );
    assert_eq!(
        ended,
        Err(vec![
            "Failed to select VM".to_string(),
            "Operation was canceled by the user".to_string()
        ])
    );
}
