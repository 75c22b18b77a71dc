use virsh_usb::host::{line_text, Pause, Reply, Request, Step};
use virsh_usb::console::{run, run_command, Cli, Commands};

fn play<T>(
    operation: impl Fn(&Vec<Reply>) -> Step<T>,
    replies: Vec<Reply>,
) -> (Vec<String>, Result<T, Vec<String>>) {
    let mut left = replies.into_iter();
    let mut log: Vec<Reply> = Vec::new();
    let mut asked: Vec<String> = Vec::new();
    loop {
        match operation(&log) {
            Ok((result, used)) => {
                assert_eq!(used, log.len());
                assert!(left.next().is_none(), "replies are left after {:?}", asked);
                return (asked, Ok(result));
            }
            Err(Pause::Ask(request)) => {
                asked.push(short(&request));
                match left.next() {
                    Some(reply) => log.push(reply),
                    None => panic!("no reply is left for {:?}", asked),
                }
            }
            Err(Pause::Fail(messages, used)) => {
                assert_eq!(used, log.len());
                assert!(left.next().is_none(), "replies are left after {:?}", asked);
                return (asked, Err(messages));
            }
        }
    }
}

fn short(request: &Request) -> String {
    match request {
        Request::Run(args) => format!("run {}", args.join(" ")),
        Request::Say(line) => format!("say {}", line_text(line)),
        Request::Warn(line) => format!("warn {}", line_text(line)),
        Request::Write(path, text) => format!("write {}: {}", path, text),
        Request::Read(path) => format!("read {}", path),
        Request::Remove(path) => format!("remove {}", path),
        Request::Exists(path) => format!("exists {}", path),
        Request::Choose(prompt, options, start) => format!(
            "choose {} [{}] {}",
            line_text(prompt),
            options.iter().map(line_text).collect::<Vec<_>>().join("|"),
            start
        ),
        other => format!("{:?}", other),
    }
}

fn out(text: &str) -> Reply {
    Reply::Exit(true, text.as_bytes().to_vec(), vec![])
}

fn error(text: &str) -> Reply {
    Reply::Exit(false, vec![], text.as_bytes().to_vec())
}

fn text(s: &str) -> Reply {
    Reply::Text(s.to_string())
}

fn failed(message: &str) -> Reply {
    Reply::Failed(vec![message.to_string()])
}

const LSUSB: &str = "Bus 003 Device 006: ID 0dd4:4105 Custom Engineering SPA PaperHandler\n";

fn words(args: &[&str]) -> Vec<String> {
    args.iter().map(|s| s.to_string()).collect()
}

#[test]
fn a_program_without_name_is_refused() {
    let (asked, ended) = play(|log| run_command(log, 0, vec![]), vec![]);
    assert!(asked.is_empty());
    assert_eq!(ended, Err(vec!["Command arguments cannot be empty".to_string()]));
}

#[test]
fn a_program_gives_its_output() {
    let (asked, ended) = play(|log| run_command(log, 0, words(&["lsusb"])), vec![out(LSUSB)]);
    assert_eq!(asked, ["run lsusb"]);
    assert_eq!(ended, Ok(LSUSB.to_string()));
}

#[test]
fn output_that_is_no_text_is_replaced() {
    let bytes = Reply::Exit(true, vec![b'a', 0xff, b'b'], vec![]);
    let (_, ended) = play(|log| run_command(log, 0, words(&["x"])), vec![bytes]);
    assert_eq!(ended, Ok("a\u{fffd}b".to_string()));
}

#[test]
fn a_failed_program_tells_its_errors() {
    let (_, ended) = play(
        |log| run_command(log, 0, words(&["virsh", "list"])),
        vec![error("no connection\n")],
    );
    assert_eq!(ended, Err(vec!["Command failed: virsh list\nError: no connection\n".to_string()]));
}

#[test]
fn a_program_that_cannot_start_is_told_with_its_cause() {
    let (_, ended) =
        play(|log| run_command(log, 0, words(&["virsh", "list"])), vec![failed("not found")]);
    assert_eq!(
        ended,
        Err(vec!["Failed to execute command: virsh list".to_string(), "not found".to_string()])
    );
}

#[test]
fn given_ids_are_taken_as_they_are() {
    let cli = Cli {
        vm: Some("vm1".to_string()),
        device: Some("0dd4:4105".to_string()),
        command: Commands::Status,
    };
    let (asked, ended) = play(
        |log| run(log, 0, &cli),
        vec![
            text("/cfg"),
            Reply::Done,
            out("other\n"),
            Reply::Done,
            out(LSUSB),
            out(LSUSB),
            Reply::Done,
        ],
    );
    assert!(ended.is_ok());
    assert_eq!(
        asked,
        [
            "ConfigDir",
            "write /cfg/last_vm: vm1",
            "run virsh list --name",
            "say 🖥 VM (vm1): Not running",
            "run lsusb",
            "run lsusb",
            "say 🔌 Custom Engineering SPA PaperHandler (0dd4:4105): Connected (Bus 003 Device 006)",
        ]
    );
}

#[test]
fn malformed_ids_are_refused() {
    for spec in ["a:b:c", ":4105", "0dd4:", ":"] {
        let cli = Cli {
            vm: Some("vm1".to_string()),
            device: Some(spec.to_string()),
            command: Commands::Attach,
        };
        let (_, ended) = play(|log| run(log, 0, &cli), vec![failed("no home")]);
        assert_eq!(
            ended,
            Err(vec!["Invalid device ID format. Expected format: vendor:product (e.g., 0dd4:4105) or device name".to_string()])
        );
    }
}

#[test]
fn a_name_is_looked_for_among_the_devices() {
    let cli = Cli {
        vm: Some("vm1".to_string()),
        device: Some("paperhandler".to_string()),
        command: Commands::Attach,
    };
    let (asked, ended) = play(
        |log| run(log, 0, &cli),
        vec![
            text("/cfg"),
            Reply::Done,
            out(LSUSB),
            out("<domain/>\n"),
            out("vm1\n"),
            out("<domain/>\n"),
            out(LSUSB),
            Reply::Done,
            out("Device attached successfully\n"),
            Reply::Done,
            Reply::Done,
        ],
    );
    assert!(ended.is_ok());
    assert_eq!(asked[2], "run lsusb");
    assert_eq!(asked[3], "run virsh dumpxml vm1");
    assert_eq!(
        asked[10],
        "say ✓ Successfully attached Custom Engineering SPA PaperHandler (0dd4:4105) to vm1"
    );
}

#[test]
fn for_detaching_only_attached_devices_are_offered() {
    let xml = "<hostdev mode='subsystem' type='usb'>\n<vendor id='0x0dd4'/>\n<product id='0x4105'/>\n</hostdev>\n";
    let both = "Bus 001 Device 002: ID 046d:c52b Logitech Receiver\nBus 003 Device 006: ID 0dd4:4105 PaperHandler\n";
    let cli = Cli { vm: Some("vm1".to_string()), device: None, command: Commands::Detach };
    let (asked, ended) = play(
        |log| run(log, 0, &cli),
        vec![
            text("/cfg"),
            Reply::Done,
            out(both),
            out(xml),
            Reply::Picked(0),
            out("vm1\n"),
            out(xml),
            out(both),
            Reply::Done,
            out(""),
            Reply::Done,
            Reply::Done,
        ],
    );
    assert!(ended.is_ok());
    assert_eq!(
        asked[4],
        "choose 🔌 Select a USB device to detach [0dd4:4105 - PaperHandler (Bus 003 Device 006) [attached]] 0"
    );
    assert_eq!(asked[9], "run virsh detach-device vm1 /tmp/virsh-usb-detach.xml --live");
    assert_eq!(asked[11], "say ✓ Successfully detached PaperHandler (0dd4:4105) from vm1");
}

#[test]
fn the_virtual_machine_is_selected_where_none_is_given() {
    let cli = Cli { vm: None, device: Some("1:2".to_string()), command: Commands::Attach };
    let (asked, ended) = play(
        |log| run(log, 0, &cli),
        vec![
            out("alpha\n\nbeta\n"),
            text("/cfg"),
            text("beta"),
            Reply::Picked(1),
            text("/cfg"),
            Reply::Done,
            out("\n"),
        ],
    );
    assert_eq!(ended, Err(vec!["VM 'beta' is not running".to_string()]));
    assert_eq!(asked[0], "run virsh list --all --name");
    assert_eq!(asked[3], "choose 🖥 Select a VM [alpha|beta] 1");
    assert_eq!(asked[5], "write /cfg/last_vm: beta");
}
