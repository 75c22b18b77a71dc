//! The daemon behind a virtual HID device: its state files, starting and
//! stopping it, and how it sets itself up.

use vstd::prelude::*;
use vstd::string::*;
use vstd::utf8::*;

use crate::host::{
    ask_done, ask_flag, ask_number, ask_text, attempt, bind, context, fail, failure, fault,
    in_context, outcome, spec_ask_done, spec_ask_flag, spec_ask_number, spec_ask_text, spec_attempt,
    spec_fault, spec_tell, tell, word, words2, words3, words5, Chain, Log, Outcome, Pause, Reply,
    ReplyView, Request, RequestView, Step,
};
use crate::number::{decimal, fault_text, parse_radix, parsed, to_decimal};
use crate::registry::{data_file, spec_data_file};
use crate::text::{
    begins, is_hex_digit, lemma_strip_prefix, lemma_stripped, lowercased, plus, strip_all,
    to_lowercase, trim_start_matches,
};
use crate::vhci::{law_kept_number_is_read_back, number_in, spec_number_in, vhci_port_name};

verus! {

// ---------------------------------------------------------------------------
// State files
// ---------------------------------------------------------------------------

/// The name of the file with the daemon's process number.
pub open spec fn pid_name(name: Seq<char>) -> Seq<char> {
    "hid-"@ + name + ".pid"@
}

/// The name of the file with the port that the daemon listens on.
pub open spec fn port_name(name: Seq<char>) -> Seq<char> {
    "hid-"@ + name + ".port"@
}

/// The name of the socket over which the daemon takes text.
pub open spec fn sock_name(name: Seq<char>) -> Seq<char> {
    "hid-"@ + name + ".sock"@
}

fn state_name(name: &str, suffix: &str) -> (r: String)
    ensures
        r@ == "hid-"@ + name@ + suffix@,
{
    plus(plus("hid-".to_string(), name), suffix)
}

/// The file with the daemon's process number.
pub open spec fn spec_hid_pid_file(log: Log, at: int, name: Seq<char>) -> Outcome<Seq<char>> {
    spec_data_file(log, at, pid_name(name))
}

/// The file with the daemon's process number.
pub fn hid_pid_file(log: &Vec<Reply>, at: usize, name: &str) -> (r: Step<String>)
    ensures
        outcome(r) == spec_hid_pid_file(log.deep_view(), at as int, name@),
{
    data_file(log, at, state_name(name, ".pid").as_str())
}

/// The file with the port that the daemon listens on.
pub open spec fn spec_hid_port_file(log: Log, at: int, name: Seq<char>) -> Outcome<Seq<char>> {
    spec_data_file(log, at, port_name(name))
}

/// The file with the port that the daemon listens on.
pub fn hid_port_file(log: &Vec<Reply>, at: usize, name: &str) -> (r: Step<String>)
    ensures
        outcome(r) == spec_hid_port_file(log.deep_view(), at as int, name@),
{
    data_file(log, at, state_name(name, ".port").as_str())
}

/// The socket over which the daemon takes text.
pub open spec fn spec_hid_sock_file(log: Log, at: int, name: Seq<char>) -> Outcome<Seq<char>> {
    spec_data_file(log, at, sock_name(name))
}

/// The socket over which the daemon takes text.
pub fn hid_sock_file(log: &Vec<Reply>, at: usize, name: &str) -> (r: Step<String>)
    ensures
        outcome(r) == spec_hid_sock_file(log.deep_view(), at as int, name@),
{
    data_file(log, at, state_name(name, ".sock").as_str())
}

/// The daemon's process number, as its file has it.
pub open spec fn spec_daemon_pid(log: Log, at: int, name: Seq<char>) -> Outcome<u64> {
    bind(
        spec_hid_pid_file(log, at, name),
        |file: Seq<char>, at: int|
            bind(
                spec_ask_text(log, at, RequestView::Read(file)),
                |content: Seq<char>, at: int|
                    spec_number_in(at, content, 0xffff_ffff, "Invalid process number"@),
            ),
    )
}

fn daemon_pid(log: &Vec<Reply>, at: usize, name: &str) -> (r: Step<u64>)
    ensures
        outcome(r) == spec_daemon_pid(log.deep_view(), at as int, name@),
{
    let (file, at) = hid_pid_file(log, at, name)?;
    let (content, at) = ask_text(log, at, Request::Read(file))?;
    number_in(at, content.as_str(), 0xffff_ffff, "Invalid process number")
}

/// Whether the daemon runs: its file names a process that there is.
pub open spec fn spec_is_hid_daemon_running(log: Log, at: int, name: Seq<char>) -> Outcome<bool> {
    bind(
        spec_attempt(spec_daemon_pid(log, at, name)),
        |pid: Option<u64>, at: int|
            match pid {
                Some(pid) => spec_ask_flag(
                    log,
                    at,
                    RequestView::Exists("/proc/"@ + decimal(pid as int)),
                ),
                None => Outcome::Ready(false, at),
            },
    )
}

/// Whether the daemon runs: its file names a process that there is.
pub fn is_hid_daemon_running(log: &Vec<Reply>, at: usize, name: &str) -> (r: Step<bool>)
    ensures
        outcome(r) == spec_is_hid_daemon_running(log.deep_view(), at as int, name@),
{
    let (pid, at) = attempt(daemon_pid(log, at, name))?;
    match pid {
        Some(pid) => ask_flag(
            log,
            at,
            Request::Exists(plus("/proc/".to_string(), to_decimal(pid).as_str())),
        ),
        None => Ok((false, at)),
    }
}

/// The port that the daemon listens on.
pub open spec fn spec_read_hid_port(log: Log, at: int, name: Seq<char>) -> Outcome<u64> {
    bind(
        spec_hid_port_file(log, at, name),
        |file: Seq<char>, at: int|
            bind(
                in_context(
                    spec_ask_text(log, at, RequestView::Read(file)),
                    "Daemon port file not found — daemon not running?"@,
                ),
                |content: Seq<char>, at: int|
                    spec_number_in(at, content, 0xffff, "Invalid port in daemon port file"@),
            ),
    )
}

/// The port that the daemon listens on.
pub fn read_hid_port(log: &Vec<Reply>, at: usize, name: &str) -> (r: Step<u64>)
    ensures
        outcome(r) == spec_read_hid_port(log.deep_view(), at as int, name@),
{
    let (file, at) = hid_port_file(log, at, name)?;
    let (content, at) = context(
        ask_text(log, at, Request::Read(file)),
        "Daemon port file not found — daemon not running?",
    )?;
    number_in(at, content.as_str(), 0xffff, "Invalid port in daemon port file")
}

/// Removes a file of the tool's data, whatever comes of it.
pub open spec fn spec_forget(log: Log, at: int, name: Seq<char>) -> Outcome<()> {
    bind(
        spec_attempt(spec_data_file(log, at, name)),
        |file: Option<Seq<char>>, at: int|
            match file {
                Some(file) => spec_tell(log, at, RequestView::Remove(file)),
                None => Outcome::Ready((), at),
            },
    )
}

fn forget(log: &Vec<Reply>, at: usize, name: &str) -> (r: Step<()>)
    ensures
        outcome(r) == spec_forget(log.deep_view(), at as int, name@),
{
    let (file, at) = attempt(data_file(log, at, name))?;
    match file {
        Some(file) => tell(log, at, Request::Remove(file)),
        None => Ok(((), at)),
    }
}

/// Removes the daemon's state files.
pub open spec fn spec_cleanup_hid_state_files(log: Log, at: int, name: Seq<char>) -> Outcome<()> {
    bind(
        spec_forget(log, at, pid_name(name)),
        |_done: (), at: int|
            bind(
                spec_forget(log, at, port_name(name)),
                |_done: (), at: int|
                    bind(
                        spec_forget(log, at, sock_name(name)),
                        |_done: (), at: int| spec_forget(log, at, vhci_port_name(name)),
                    ),
            ),
    )
}

/// Removes the daemon's state files.
pub fn cleanup_hid_state_files(log: &Vec<Reply>, at: usize, name: &str) -> (r: Step<()>)
    ensures
        outcome(r) == spec_cleanup_hid_state_files(log.deep_view(), at as int, name@),
{
    let (_, at) = forget(log, at, state_name(name, ".pid").as_str())?;
    let (_, at) = forget(log, at, state_name(name, ".port").as_str())?;
    let (_, at) = forget(log, at, state_name(name, ".sock").as_str())?;
    forget(log, at, state_name(name, ".vhci-port").as_str())
}

// ---------------------------------------------------------------------------
// Stopping and starting
// ---------------------------------------------------------------------------

/// Stops the daemon, if its file names one, and removes its state files.
pub open spec fn spec_stop_hid_daemon(log: Log, at: int, name: Seq<char>) -> Outcome<()> {
    bind(
        spec_attempt(spec_daemon_pid(log, at, name)),
        |pid: Option<u64>, at: int|
            match pid {
                Some(pid) => bind(
                    spec_tell(
                        log,
                        at,
                        RequestView::RunShown(seq!["kill"@, "-TERM"@, decimal(pid as int)]),
                    ),
                    |_done: (), at: int| spec_cleanup_hid_state_files(log, at, name),
                ),
                None => spec_cleanup_hid_state_files(log, at, name),
            },
    )
}

/// Stops the daemon, if its file names one, and removes its state files.
pub fn stop_hid_daemon(log: &Vec<Reply>, at: usize, name: &str) -> (r: Step<()>)
    ensures
        outcome(r) == spec_stop_hid_daemon(log.deep_view(), at as int, name@),
{
    let (pid, at) = attempt(daemon_pid(log, at, name))?;
    match pid {
        Some(pid) => {
            let (_, at) = tell(
                log,
                at,
                Request::RunShown(words3("kill", "-TERM", to_decimal(pid).as_str())),
            )?;
            cleanup_hid_state_files(log, at, name)
        },
        None => cleanup_hid_state_files(log, at, name),
    }
}

/// The command that runs the daemon.
pub open spec fn daemon_command(
    program: Seq<char>,
    name: Seq<char>,
    vid: Seq<char>,
    pid: Seq<char>,
    sock_file: Seq<char>,
    pid_file: Seq<char>,
    port_file: Seq<char>,
) -> Seq<Seq<char>> {
    seq![
        program,
        "hid-daemon"@,
        "--name"@,
        name,
        "--vid"@,
        vid,
        "--pid"@,
        pid,
        "--socket-path"@,
        sock_file,
        "--pid-file"@,
        pid_file,
        "--port-file"@,
        port_file,
    ]
}

fn build_daemon_command(
    program: &str,
    name: &str,
    vid: &str,
    pid: &str,
    sock_file: &str,
    pid_file: &str,
    port_file: &str,
) -> (r: Vec<String>)
    ensures
        r.deep_view() == daemon_command(
            program@,
            name@,
            vid@,
            pid@,
            sock_file@,
            pid_file@,
            port_file@,
        ),
{
    let start = words5(program, "hid-daemon", "--name", name, "--vid");
    let ids = word(word(word(start, vid), "--pid"), pid);
    let sock = word(word(ids, "--socket-path"), sock_file);
    let pids = word(word(sock, "--pid-file"), pid_file);
    let r = word(word(pids, "--port-file"), port_file);
    assert(r.deep_view() =~= daemon_command(
        program@,
        name@,
        vid@,
        pid@,
        sock_file@,
        pid_file@,
        port_file@,
    ));
    r
}

/// Waits until the daemon's port file is there, looking every tenth of a second
/// and at most `tries` times.
pub open spec fn spec_await_port(log: Log, at: int, name: Seq<char>, tries: int) -> Outcome<bool>
    decreases tries,
{
    if tries <= 0 {
        Outcome::Ready(false, at)
    } else {
        match spec_look_for_port(log, at, name) {
            Outcome::Ask(rq) => Outcome::Ask(rq),
            Outcome::Fail(c, n) => Outcome::Fail(c, n),
            Outcome::Ready(true, n) => Outcome::Ready(true, n),
            Outcome::Ready(false, n) => spec_await_port(log, n, name, tries - 1),
        }
    }
}

/// Waits a tenth of a second, and looks whether the daemon's port file is
/// there.
pub open spec fn spec_look_for_port(log: Log, at: int, name: Seq<char>) -> Outcome<bool> {
    bind(
        spec_tell(log, at, RequestView::Pause(100)),
        |_done: (), at: int|
            bind(
                spec_attempt(spec_hid_port_file(log, at, name)),
                |file: Option<Seq<char>>, at: int|
                    match file {
                        Some(file) => spec_ask_flag(log, at, RequestView::Exists(file)),
                        None => Outcome::Ready(false, at),
                    },
            ),
    )
}

fn look_for_port(log: &Vec<Reply>, at: usize, name: &str) -> (r: Step<bool>)
    ensures
        outcome(r) == spec_look_for_port(log.deep_view(), at as int, name@),
{
    let (_, at) = tell(log, at, Request::Pause(100))?;
    let (file, at) = attempt(hid_port_file(log, at, name))?;
    match file {
        Some(file) => ask_flag(log, at, Request::Exists(file)),
        None => Ok((false, at)),
    }
}

fn await_port(log: &Vec<Reply>, at: usize, name: &str) -> (r: Step<bool>)
    ensures
        outcome(r) == spec_await_port(log.deep_view(), at as int, name@, 50),
{
    let mut tries: usize = 50;
    let mut next: usize = at;
    while tries > 0
        invariant
            spec_await_port(log.deep_view(), next as int, name@, tries as int) == spec_await_port(
                log.deep_view(),
                at as int,
                name@,
                50,
            ),
        decreases tries,
    {
        let (there, n) = look_for_port(log, next, name)?;
        if there {
            return Ok((true, n));
        }
        next = n;
        tries = tries - 1;
    }
    Ok((false, next))
}

/// Starts the daemon, unless it runs, and waits until it is ready.
pub open spec fn spec_start_hid_daemon(
    log: Log,
    at: int,
    name: Seq<char>,
    vid: Seq<char>,
    pid: Seq<char>,
) -> Outcome<()> {
    bind(
        spec_is_hid_daemon_running(log, at, name),
        |running: bool, at: int|
            if running {
                Outcome::Ready((), at)
            } else {
                bind(
                    spec_spawn_hid_daemon(log, at, name, vid, pid),
                    |_done: (), at: int|
                        bind(
                            spec_await_port(log, at, name, 50),
                            |started: bool, at: int|
                                if started {
                                    Outcome::Ready((), at)
                                } else {
                                    failure(
                                        at,
                                        "HID daemon failed to start (port file not created within 5 seconds)"@,
                                    )
                                },
                        ),
                )
            },
    )
}

/// Starts the daemon.
pub open spec fn spec_spawn_hid_daemon(
    log: Log,
    at: int,
    name: Seq<char>,
    vid: Seq<char>,
    pid: Seq<char>,
) -> Outcome<()> {
    bind(
        spec_hid_pid_file(log, at, name),
        |pid_file: Seq<char>, at: int|
            bind(
                spec_hid_port_file(log, at, name),
                |port_file: Seq<char>, at: int|
                    bind(
                        spec_hid_sock_file(log, at, name),
                        |sock_file: Seq<char>, at: int|
                            bind(
                                in_context(
                                    spec_ask_text(log, at, RequestView::OwnPath),
                                    "Failed to find current executable"@,
                                ),
                                |program: Seq<char>, at: int|
                                    in_context(
                                        spec_ask_done(
                                            log,
                                            at,
                                            RequestView::Spawn(
                                                daemon_command(
                                                    program,
                                                    name,
                                                    vid,
                                                    pid,
                                                    sock_file,
                                                    pid_file,
                                                    port_file,
                                                ),
                                                "/tmp/virsh-usb-hid-"@ + name + ".log"@,
                                            ),
                                        ),
                                        "Failed to spawn HID daemon"@,
                                    ),
                            ),
                    ),
            ),
    )
}

/// Starts the daemon, unless it runs, and waits until it is ready.
pub fn start_hid_daemon(log: &Vec<Reply>, at: usize, name: &str, vid: &str, pid: &str) -> (r: Step<
    (),
>)
    ensures
        outcome(r) == spec_start_hid_daemon(log.deep_view(), at as int, name@, vid@, pid@),
{
    let (running, at) = is_hid_daemon_running(log, at, name)?;
    if running {
        return Ok(((), at));
    }
    let (pid_file, at) = hid_pid_file(log, at, name)?;
    let (port_file, at) = hid_port_file(log, at, name)?;
    let (sock_file, at) = hid_sock_file(log, at, name)?;
    let (program, at) = context(
        ask_text(log, at, Request::OwnPath),
        "Failed to find current executable",
    )?;
    let command = build_daemon_command(
        program.as_str(),
        name,
        vid,
        pid,
        sock_file.as_str(),
        pid_file.as_str(),
        port_file.as_str(),
    );
    let log_file = plus(plus("/tmp/virsh-usb-hid-".to_string(), name), ".log");
    let (_, at) = context(
        ask_done(log, at, Request::Spawn(command, log_file)),
        "Failed to spawn HID daemon",
    )?;
    let (started, at) = await_port(log, at, name)?;
    if started {
        Ok(((), at))
    } else {
        fail(at, "HID daemon failed to start (port file not created within 5 seconds)")
    }
}

// ---------------------------------------------------------------------------
// The daemon's own start
// ---------------------------------------------------------------------------

/// An id without the `0x` before it, in lowercase.
pub open spec fn normalized(s: Seq<char>) -> Seq<char> {
    strip_all(lowercased(s), "0x"@)
}

/// An id without the `0x` before it, in lowercase.
pub fn normalize_hex_id(s: &str) -> (r: String)
    ensures
        r@ == normalized(s@),
{
    let lowered = to_lowercase(s);
    trim_start_matches(lowered.as_str(), "0x").to_string()
}

/// The number that an id stands for; a failure is told under `message`.
pub open spec fn spec_id_number(at: int, id: Seq<char>, message: Seq<char>) -> Outcome<u16> {
    match parsed(normalized(id), 16, 0xffff) {
        Ok(n) => Outcome::Ready(n as u16, at),
        Err(fault) => Outcome::Fail(seq![message, fault_text(fault)], at),
    }
}

/// The number that an id stands for; a failure is told under `message`.
pub fn id_number(at: usize, id: &str, message: &str) -> (r: Step<u16>)
    ensures
        outcome(r) == spec_id_number(at as int, id@, message@),
{
    match parse_radix(normalize_hex_id(id).as_str(), 16, 0xffff) {
        Ok(n) => Ok((n as u16, at)),
        Err(fault) => Err(Pause::Fail(words2(message, fault.describe()), at)),
    }
}

/// How the daemon sets itself up: it listens for the kernel on a free port and
/// for text on its socket, and leaves its process number and that port in its
/// state files. The result is the ids that its device presents.
pub open spec fn spec_open_hid_daemon(
    log: Log,
    at: int,
    vid: Seq<char>,
    pid: Seq<char>,
    sock_path: Seq<char>,
    pid_file: Seq<char>,
    port_file: Seq<char>,
) -> Outcome<(u16, u16)> {
    bind(
        spec_id_number(at, vid, "Invalid VID"@),
        |vid: u16, at: int|
            bind(
                spec_id_number(at, pid, "Invalid PID"@),
                |pid: u16, at: int|
                    bind(
                        spec_announce(log, at, pid_file, port_file),
                        |_done: (), at: int|
                            bind(
                                spec_open_socket(log, at, sock_path),
                                |_done: (), at: int| Outcome::Ready((vid, pid), at),
                            ),
                    ),
            ),
    )
}

/// Listens on a free port, and leaves the process number and that port in the
/// state files.
pub open spec fn spec_announce(
    log: Log,
    at: int,
    pid_file: Seq<char>,
    port_file: Seq<char>,
) -> Outcome<()> {
    bind(
        spec_ask_number(log, at, RequestView::Listen),
        |port: u64, at: int|
            bind(
                spec_ask_number(log, at, RequestView::OwnId),
                |id: u64, at: int|
                    bind(
                        spec_ask_done(log, at, RequestView::Write(pid_file, decimal(id as int))),
                        |_done: (), at: int|
                            spec_ask_done(
                                log,
                                at,
                                RequestView::Write(port_file, decimal(port as int)),
                            ),
                    ),
            ),
    )
}

fn announce(log: &Vec<Reply>, at: usize, pid_file: &str, port_file: &str) -> (r: Step<()>)
    ensures
        outcome(r) == spec_announce(log.deep_view(), at as int, pid_file@, port_file@),
{
    let (port, at) = ask_number(log, at, Request::Listen)?;
    let (id, at) = ask_number(log, at, Request::OwnId)?;
    let (_, at) = ask_done(log, at, Request::Write(pid_file.to_string(), to_decimal(id)))?;
    ask_done(log, at, Request::Write(port_file.to_string(), to_decimal(port)))
}

/// Listens on the socket, in place of what may be left of an earlier one, and
/// makes the pipe that wakes waiting transfers.
pub open spec fn spec_open_socket(log: Log, at: int, sock_path: Seq<char>) -> Outcome<()> {
    bind(
        bind(
            spec_ask_flag(log, at, RequestView::Exists(sock_path)),
            |left: bool, at: int|
                if left {
                    spec_tell(log, at, RequestView::Remove(sock_path))
                } else {
                    Outcome::Ready((), at)
                },
        ),
        |_done: (), at: int|
            bind(
                spec_ask_done(log, at, RequestView::ListenSocket(sock_path)),
                |_done: (), at: int|
                    bind(
                        spec_fault(spec_ask_done(log, at, RequestView::OpenPipe)),
                        |failed: Option<Chain>, at: int|
                            if failed is Some {
                                failure(at, "Failed to create notification pipe"@)
                            } else {
                                Outcome::Ready((), at)
                            },
                    ),
            ),
    )
}

fn open_socket(log: &Vec<Reply>, at: usize, sock_path: &str) -> (r: Step<()>)
    ensures
        outcome(r) == spec_open_socket(log.deep_view(), at as int, sock_path@),
{
    let (left, at) = ask_flag(log, at, Request::Exists(sock_path.to_string()))?;
    let at: usize = if left {
        let (_, at) = tell(log, at, Request::Remove(sock_path.to_string()))?;
        at
    } else {
        at
    };
    let (_, at) = ask_done(log, at, Request::ListenSocket(sock_path.to_string()))?;
    let (failed, at) = fault(ask_done(log, at, Request::OpenPipe))?;
    if failed.is_some() {
        fail(at, "Failed to create notification pipe")
    } else {
        Ok(((), at))
    }
}

/// How the daemon sets itself up: it listens for the kernel on a free port and
/// for text on its socket, and leaves its process number and that port in its
/// state files. The result is the ids that its device presents.
pub fn open_hid_daemon(
    log: &Vec<Reply>,
    at: usize,
    vid: &str,
    pid: &str,
    sock_path: &str,
    pid_file: &str,
    port_file: &str,
) -> (r: Step<(u16, u16)>)
    ensures
        outcome(r) == spec_open_hid_daemon(
            log.deep_view(),
            at as int,
            vid@,
            pid@,
            sock_path@,
            pid_file@,
            port_file@,
        ),
{
    let (vid, at) = id_number(at, vid, "Invalid VID")?;
    let (pid, at) = id_number(at, pid, "Invalid PID")?;
    let (_, at) = announce(log, at, pid_file, port_file)?;
    let (_, at) = open_socket(log, at, sock_path)?;
    Ok(((vid, pid), at))
}

// ---------------------------------------------------------------------------
// Laws
// ---------------------------------------------------------------------------

/// The port that the daemon leaves in its file is the one that the tool reads
/// there.
pub proof fn law_port_is_read_back(log: Log, at: int, name: Seq<char>, dir: Seq<char>, port: u64)
    requires
        0 <= at,
        log.len() == at + 2,
        log[at] == ReplyView::Text(dir),
        log[at + 1] == ReplyView::Text(decimal(port as int)),
        port <= 0xffff,
    ensures
        spec_read_hid_port(log, at, name) == Outcome::Ready(port, at + 2),
{
    law_kept_number_is_read_back(at + 2, port, 0xffff, "Invalid port in daemon port file"@);
}

/// The process number that the daemon leaves in its file is the one that the
/// tool looks for, and the one that it stops.
pub proof fn law_process_is_read_back(log: Log, at: int, name: Seq<char>, dir: Seq<char>, id: u64)
    requires
        0 <= at,
        log.len() == at + 2,
        log[at] == ReplyView::Text(dir),
        log[at + 1] == ReplyView::Text(decimal(id as int)),
        id <= 0xffff_ffff,
    ensures
        spec_is_hid_daemon_running(log, at, name) == Outcome::<bool>::Ask(
            RequestView::Exists("/proc/"@ + decimal(id as int)),
        ),
        spec_stop_hid_daemon(log, at, name) == Outcome::<()>::Ask(
            RequestView::RunShown(seq!["kill"@, "-TERM"@, decimal(id as int)]),
        ),
{
    law_kept_number_is_read_back(at + 2, id, 0xffff_ffff, "Invalid process number"@);
}

/// A normalized id does not begin with `0x`.
pub proof fn law_normalized_has_no_prefix(s: Seq<char>)
    ensures
        !begins(normalized(s), "0x"@),
{
    reveal_strlit("0x");
    lemma_stripped(lowercased(s), "0x"@);
}

/// An id in lowercase hexadecimal digits is normalized already, and the same id
/// with `0x` before it is normalized to it.
pub proof fn law_normalizing_strips_the_prefix(s: Seq<char>)
    requires
        forall|i: int|
            0 <= i < s.len() ==> is_hex_digit(#[trigger] s[i]) && !('A' <= s[i] <= 'F'),
    ensures
        normalized(s) == s,
        normalized("0x"@ + s) == s,
{
    reveal_strlit("0x");
    let t = "0x"@ + s;
    assert(is_ascii_chars(s));
    assert(is_ascii_chars(t)) by {
        assert forall|i: int| 0 <= i < t.len() implies (t[i] as nat) < 128 by {
            if i >= 2 {
                assert(t[i] == s[i - 2]);
            }
        }
    }
    assert(lowercased(s) =~= s);
    assert(lowercased(t) =~= t) by {
        assert forall|i: int| 0 <= i < t.len() implies lowercased(t)[i] == t[i] by {
            if i >= 2 {
                assert(t[i] == s[i - 2]);
            }
        }
    }
    assert(!begins(s, "0x"@)) by {
        if begins(s, "0x"@) {
            assert(s.subrange(0, 2)[1] == s[1]);
            assert(is_hex_digit(s[1]));
        }
    }
    lemma_strip_prefix("0x"@, s);
}

/// Removing one state file never fails.
proof fn lemma_forgetting_never_fails(log: Log, at: int, file: Seq<char>)
    ensures
        !(spec_forget(log, at, file) is Fail),
{
}

/// Removing the state files never fails.
proof fn lemma_cleaning_never_fails(log: Log, at: int, name: Seq<char>)
    ensures
        !(spec_cleanup_hid_state_files(log, at, name) is Fail),
{
    lemma_forgetting_never_fails(log, at, pid_name(name));
    if let Outcome::Ready(_, at) = spec_forget(log, at, pid_name(name)) {
        lemma_forgetting_never_fails(log, at, port_name(name));
        if let Outcome::Ready(_, at) = spec_forget(log, at, port_name(name)) {
            lemma_forgetting_never_fails(log, at, sock_name(name));
            if let Outcome::Ready(_, at) = spec_forget(log, at, sock_name(name)) {
                lemma_forgetting_never_fails(log, at, vhci_port_name(name));
            }
        }
    }
}

/// Stopping the daemon and removing its files never fails.
#[verifier::spinoff_prover]
pub proof fn law_stopping_never_fails(log: Log, at: int, name: Seq<char>)
    ensures
        !(spec_stop_hid_daemon(log, at, name) is Fail),
        !(spec_cleanup_hid_state_files(log, at, name) is Fail),
{
    assert forall|p: int| !(#[trigger] spec_cleanup_hid_state_files(log, p, name) is Fail) by {
        lemma_cleaning_never_fails(log, p, name);
    }
}

/// Whether the daemon runs can always be told: the answer is no where its file
/// cannot be read.
pub proof fn law_daemon_state_never_fails(log: Log, at: int, name: Seq<char>)
    ensures
        !(spec_is_hid_daemon_running(log, at, name) is Fail),
{
}

/// A daemon that runs is not started again.
pub proof fn law_daemon_is_started_once(
    log: Log,
    at: int,
    name: Seq<char>,
    vid: Seq<char>,
    pid: Seq<char>,
    n: int,
)
    requires
        spec_is_hid_daemon_running(log, at, name) == Outcome::Ready(true, n),
    ensures
        spec_start_hid_daemon(log, at, name, vid, pid) == Outcome::<()>::Ready((), n),
{
}

/// Waiting for the daemon comes to an end: the host is looked at no more often
/// than `tries` says, with three questions each time.
pub proof fn law_waiting_for_the_daemon_ends(log: Log, at: int, name: Seq<char>, tries: int)
    requires
        0 <= tries,
    ensures
        spec_await_port(log, at, name, tries) matches Outcome::Ready(_, n) ==> at <= n <= at + 3
            * tries,
        !(spec_await_port(log, at, name, tries) is Fail),
    decreases tries,
{
    if tries > 0 {
        if let Outcome::Ready(there, n) = spec_look_for_port(log, at, name) {
            if !there {
                law_waiting_for_the_daemon_ends(log, n, name, tries - 1);
            }
        }
    }
}

/// Ids that differ in the case of their letters only are the same.
pub proof fn law_normalizing_ignores_case(a: Seq<char>, b: Seq<char>)
    requires
        lowercased(a) == lowercased(b),
    ensures
        normalized(a) == normalized(b),
{
}

} // verus!
