use virsh_usb::host::{line_text, Pause, Reply, Request, Step};
use virsh_usb::daemon::{
    cleanup_hid_state_files, hid_pid_file, hid_port_file, hid_sock_file, is_hid_daemon_running,
    normalize_hex_id, open_hid_daemon, read_hid_port, start_hid_daemon, stop_hid_daemon,
};

fn play<T>(
    operation: impl Fn(&Vec<Reply>) -> Step<T>,
    replies: Vec<Reply>,
) -> (Vec<String>, Result<T, Vec<String>>) {
    let mut left = replies.into_iter();
    let mut log: Vec<Reply> = Vec::new();
    let mut asked: Vec<String> = Vec::new();
    loop {
        match operation(&log) {
            Ok((result, used)) => {
                assert_eq!(used, log.len());
                assert!(left.next().is_none(), "replies are left after {:?}", asked);
                return (asked, Ok(result));
            }
            Err(Pause::Ask(request)) => {
                asked.push(short(&request));
                match left.next() {
                    Some(reply) => log.push(reply),
                    None => panic!("no reply is left for {:?}", asked),
                }
            }
            Err(Pause::Fail(messages, used)) => {
                assert_eq!(used, log.len());
                assert!(left.next().is_none(), "replies are left after {:?}", asked);
                return (asked, Err(messages));
            }
        }
    }
}

fn short(request: &Request) -> String {
    match request {
        Request::Run(args) => format!("run {}", args.join(" ")),
        Request::Say(line) => format!("say {}", line_text(line)),
        Request::Warn(line) => format!("warn {}", line_text(line)),
        Request::Write(path, text) => format!("write {}: {}", path, text),
        Request::Read(path) => format!("read {}", path),
        Request::Remove(path) => format!("remove {}", path),
        Request::Exists(path) => format!("exists {}", path),
        Request::Choose(prompt, options, start) => format!(
            "choose {} [{}] {}",
            line_text(prompt),
            options.iter().map(line_text).collect::<Vec<_>>().join("|"),
            start
        ),
        other => format!("{:?}", other),
    }
}

fn text(s: &str) -> Reply {
    Reply::Text(s.to_string())
}

fn failed(message: &str) -> Reply {
    Reply::Failed(vec![message.to_string()])
}

#[test]
fn ids_are_normalized() {
    assert_eq!(normalize_hex_id("0x0C2E"), "0c2e");
    assert_eq!(normalize_hex_id("0X0c2e"), "0c2e");
    assert_eq!(normalize_hex_id("0c2e"), "0c2e");
    assert_eq!(normalize_hex_id("0x0x1"), "1");
    assert_eq!(normalize_hex_id("ÄÖ"), "äö");
    assert_eq!(normalize_hex_id(""), "");
}

#[test]
fn state_files_are_named_after_the_device() {
    let dir = || vec![text("/d")];
    assert_eq!(play(|l| hid_pid_file(l, 0, "s"), dir()).1, Ok("/d/hid-s.pid".to_string()));
    assert_eq!(play(|l| hid_port_file(l, 0, "s"), dir()).1, Ok("/d/hid-s.port".to_string()));
    assert_eq!(play(|l| hid_sock_file(l, 0, "s"), dir()).1, Ok("/d/hid-s.sock".to_string()));
}

#[test]
fn a_daemon_runs_if_its_process_is_there() {
    for there in [true, false] {
        let (asked, ended) = play(
            |log| is_hid_daemon_running(log, 0, "s"),
            vec![text("/d"), text(" 4711\n"), Reply::Flag(there)],
        );
        assert_eq!(asked, ["DataDir", "read /d/hid-s.pid", "exists /proc/4711"]);
        assert_eq!(ended, Ok(there));
    }
    for replies in [
        vec![failed("no home")],
        vec![text("/d"), failed("no file")],
        vec![text("/d"), text("pid")],
        vec![text("/d"), text("4294967296")],
    ] {
        assert_eq!(play(|log| is_hid_daemon_running(log, 0, "s"), replies).1, Ok(false));
    }
}

#[test]
fn the_port_is_read_back() {
    assert_eq!(
        play(|log| read_hid_port(log, 0, "s"), vec![text("/d"), text("65535")]).1,
        Ok(65535)
    );
    assert_eq!(
        play(|log| read_hid_port(log, 0, "s"), vec![text("/d"), text("65536")]).1,
        Err(vec![
            "Invalid port in daemon port file".to_string(),
            "number too large to fit in target type".to_string(),
        ])
    );
    assert_eq!(
        play(|log| read_hid_port(log, 0, "s"), vec![text("/d"), failed("no file")]).1,
        Err(vec![
            "Daemon port file not found — daemon not running?".to_string(),
            "no file".to_string(),
        ])
    );
}

#[test]
fn cleaning_up_removes_all_state_files() {
    let (asked, ended) = play(
        |log| cleanup_hid_state_files(log, 0, "s"),
        vec![
            text("/d"),
            Reply::Done,
            text("/d"),
            failed("no file"),
            failed("no home"),
            text("/d"),
            Reply::Done,
        ],
    );
    assert!(ended.is_ok());
    assert_eq!(
        asked,
        [
            "DataDir",
            "remove /d/hid-s.pid",
            "DataDir",
            "remove /d/hid-s.port",
            "DataDir",
            "DataDir",
            "remove /d/hid-s.vhci-port",
        ]
    );
}

#[test]
fn stopping_ends_the_process() {
    let (asked, ended) = play(
        |log| stop_hid_daemon(log, 0, "s"),
        vec![
            text("/d"),
            text("4711"),
            Reply::Done,
            text("/d"),
            Reply::Done,
            text("/d"),
            Reply::Done,
            text("/d"),
            Reply::Done,
            text("/d"),
            Reply::Done,
        ],
    );
    assert!(ended.is_ok());
    assert_eq!(asked[2], "RunShown([\"kill\", \"-TERM\", \"4711\"])");
    assert_eq!(asked[8], "remove /d/hid-s.sock");
}

#[test]
fn a_running_daemon_is_not_started_again() {
    let (asked, ended) = play(
        |log| start_hid_daemon(log, 0, "s", "0x1", "0x2"),
        vec![text("/d"), text("4711"), Reply::Flag(true)],
    );
    assert_eq!(asked.len(), 3);
    assert!(ended.is_ok());
}

#[test]
fn a_daemon_is_started_and_awaited() {
    let (asked, ended) = play(
        |log| start_hid_daemon(log, 0, "s", "0x1", "0x2"),
        vec![
            text("/d"),
            failed("no file"),
            text("/d"),
            text("/d"),
            text("/d"),
            text("/usr/bin/virsh-usb"),
            Reply::Done,
            Reply::Done,
            text("/d"),
            Reply::Flag(false),
            Reply::Done,
            text("/d"),
            Reply::Flag(true),
        ],
    );
    assert!(ended.is_ok());
    assert_eq!(
        asked[5..],
        [
            "OwnPath",
            "Spawn([\"/usr/bin/virsh-usb\", \"hid-daemon\", \"--name\", \"s\", \"--vid\", \"0x1\", \"--pid\", \"0x2\", \"--socket-path\", \"/d/hid-s.sock\", \"--pid-file\", \"/d/hid-s.pid\", \"--port-file\", \"/d/hid-s.port\"], \"/tmp/virsh-usb-hid-s.log\")",
            "Pause(100)",
            "DataDir",
            "exists /d/hid-s.port",
            "Pause(100)",
            "DataDir",
            "exists /d/hid-s.port",
        ]
    );
}

#[test]
fn a_daemon_that_does_not_start_is_given_up() {
    let mut replies = vec![
        text("/d"),
        failed("no file"),
        text("/d"),
        text("/d"),
        text("/d"),
        text("/x"),
        Reply::Done,
    ];
    for _ in 0..50 {
        replies.push(Reply::Done);
        replies.push(text("/d"));
        replies.push(Reply::Flag(false));
    }
    let (_, ended) = play(|log| start_hid_daemon(log, 0, "s", "0x1", "0x2"), replies);
    assert_eq!(
        ended,
        Err(vec!["HID daemon failed to start (port file not created within 5 seconds)".to_string()])
    );
    let (_, ended) = play(
        |log| start_hid_daemon(log, 0, "s", "0x1", "0x2"),
        vec![text("/d"), text(""), text("/d"), text("/d"), text("/d"), failed("no proc")],
    );
    assert_eq!(
        ended,
        Err(vec!["Failed to find current executable".to_string(), "no proc".to_string()])
    );
    let (_, ended) = play(
        |log| start_hid_daemon(log, 0, "s", "0x1", "0x2"),
        vec![
            text("/d"),
            text(""),
            text("/d"),
            text("/d"),
            text("/d"),
            text("/x"),
            failed("no memory"),
        ],
    );
    assert_eq!(
        ended,
        Err(vec!["Failed to spawn HID daemon".to_string(), "no memory".to_string()])
    );
}

#[test]
fn the_daemon_sets_itself_up() {
    let (asked, ended) = play(
        |log| open_hid_daemon(log, 0, "0x0C2E", "0b61", "/s", "/p", "/q"),
        vec![
            Reply::Number(40001),
            Reply::Number(4711),
            Reply::Done,
            Reply::Done,
            Reply::Flag(true),
            failed("busy"),
            Reply::Done,
            Reply::Done,
        ],
    );
    assert_eq!(ended, Ok((0x0c2e, 0x0b61)));
    assert_eq!(
        asked,
        [
            "Listen",
            "OwnId",
            "write /p: 4711",
            "write /q: 40001",
            "exists /s",
            "remove /s",
            "ListenSocket(\"/s\")",
            "OpenPipe",
        ]
    );
}

#[test]
fn the_daemon_needs_proper_ids() {
    let (_, ended) = play(|log| open_hid_daemon(log, 0, "xyz", "1", "/s", "/p", "/q"), vec![]);
    assert_eq!(
        ended,
        Err(vec!["Invalid VID".to_string(), "invalid digit found in string".to_string()])
    );
    let (_, ended) = play(|log| open_hid_daemon(log, 0, "1", "0x10000", "/s", "/p", "/q"), vec![]);
    assert_eq!(
        ended,
        Err(vec!["Invalid PID".to_string(), "number too large to fit in target type".to_string()])
    );
    let (_, ended) = play(|log| open_hid_daemon(log, 0, "0x", "1", "/s", "/p", "/q"), vec![]);
    assert_eq!(
        ended,
        Err(vec!["Invalid VID".to_string(), "cannot parse integer from empty string".to_string()])
    );
}

#[test]
fn the_daemon_needs_its_pipe() {
    let (_, ended) = play(
        |log| open_hid_daemon(log, 0, "1", "2", "/s", "/p", "/q"),
        vec![
            Reply::Number(1),
            Reply::Number(2),
            Reply::Done,
            Reply::Done,
            Reply::Flag(false),
            Reply::Done,
            failed("too many files"),
        ],
    );
    assert_eq!(ended, Err(vec!["Failed to create notification pipe".to_string()]));
}
