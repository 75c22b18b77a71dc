//! The kernel's virtual host controller, `vhci_hcd`: finding it and a free port
//! of it, and plugging a device in and out.

use vstd::prelude::*;
use vstd::string::*;

use crate::host::{
    ask_done, ask_flag, ask_number, ask_text, attempt, bind, context, fail, failure, fault,
    in_context, outcome, prepended, spec_ask_done, spec_ask_flag, spec_ask_number, spec_ask_text,
    spec_attempt, spec_fault, spec_tell, tell, words2, Chain, Log, Outcome, Pause, Reply, Request,
    RequestView, Step,
};
use crate::number::{
    decimal, fault_text, law_number_round_trip, law_numbers_are_in_range, numeral, parse_radix,
    parsed, to_decimal, to_radix, ParseFault,
};
use crate::registry::{data_file, spec_data_file};
use crate::text::{lines, lines_of, plus, same, trim, trimmed, words, words_of};
use crate::usbip::{HID_BUSNUM, HID_DEVNUM, HID_SPEED};
use crate::vm::{join_path, path_in};

verus! {

/// The number in a text, at most `max`; a failure is told under `message`.
pub open spec fn spec_number_in(at: int, text: Seq<char>, max: int, message: Seq<char>) -> Outcome<
    u64,
> {
    match parsed(trimmed(text), 10, max) {
        Ok(n) => Outcome::Ready(n as u64, at),
        Err(fault) => Outcome::Fail(seq![message, fault_text(fault)], at),
    }
}

/// The number in a text, at most `max`; a failure is told under `message`.
pub fn number_in(at: usize, text: &str, max: u64, message: &str) -> (r: Step<u64>)
    requires
        max <= 0xffff_ffff,
    ensures
        outcome(r) == spec_number_in(at as int, text@, max as int, message@),
{
    match parse_radix(trim(text), 10, max) {
        Ok(n) => Ok((n, at)),
        Err(fault) => Err(Pause::Fail(words2(message, fault.describe()), at)),
    }
}

// ---------------------------------------------------------------------------
// The controller
// ---------------------------------------------------------------------------

/// The directory of the controller in sysfs: under its new or its old name.
pub open spec fn spec_find_vhci_sysfs_dir(log: Log, at: int) -> Outcome<Seq<char>> {
    bind(
        spec_ask_flag(
            log,
            at,
            RequestView::Exists("/sys/bus/platform/drivers/vhci_hcd/vhci_hcd.0"@),
        ),
        |present: bool, at: int|
            if present {
                Outcome::Ready("/sys/bus/platform/drivers/vhci_hcd/vhci_hcd.0"@, at)
            } else {
                bind(
                    spec_ask_flag(
                        log,
                        at,
                        RequestView::Exists("/sys/bus/platform/drivers/vhci_hcd/vhci_hcd"@),
                    ),
                    |present: bool, at: int|
                        if present {
                            Outcome::Ready("/sys/bus/platform/drivers/vhci_hcd/vhci_hcd"@, at)
                        } else {
                            failure(
                                at,
                                "vhci_hcd sysfs directory not found — is the vhci-hcd module loaded?\n  Try: sudo modprobe vhci-hcd"@,
                            )
                        },
                )
            },
    )
}

/// The directory of the controller in sysfs: under its new or its old name.
pub fn find_vhci_sysfs_dir(log: &Vec<Reply>, at: usize) -> (r: Step<String>)
    ensures
        outcome(r) == spec_find_vhci_sysfs_dir(log.deep_view(), at as int),
{
    let new_name = "/sys/bus/platform/drivers/vhci_hcd/vhci_hcd.0".to_string();
    let (present, at) = ask_flag(log, at, Request::Exists(new_name.clone()))?;
    if present {
        return Ok((new_name, at));
    }
    let old_name = "/sys/bus/platform/drivers/vhci_hcd/vhci_hcd".to_string();
    let (present, at) = ask_flag(log, at, Request::Exists(old_name.clone()))?;
    if present {
        return Ok((old_name, at));
    }
    fail(
        at,
        "vhci_hcd sysfs directory not found — is the vhci-hcd module loaded?\n  Try: sudo modprobe vhci-hcd",
    )
}

/// The port in a line of the controller's status, if it is a high speed port
/// that nothing is plugged into.
pub open spec fn free_port_in_line(line: Seq<char>) -> Option<u64> {
    let parts = words_of(line);
    if parts.len() >= 3 && parts[0] == "hs"@ {
        match (parsed(parts[1], 16, 0xffff_ffff), parsed(parts[2], 16, 0xffff_ffff)) {
            (Ok(port), Ok(status)) => if status == 4 {
                Some(port as u64)
            } else {
                None
            },
            _ => None,
        }
    } else {
        None
    }
}

fn parse_port_line(line: &str) -> (r: Option<u64>)
    ensures
        r == free_port_in_line(line@),
        r matches Some(port) ==> port <= 0xffff_ffff,
{
    let parts = words(line);
    let ghost seen = parts.deep_view();
    if parts.len() >= 3 {
        assert(seen[0] == parts@[0]@ && seen[1] == parts@[1]@ && seen[2] == parts@[2]@);
        if same(parts[0], "hs") {
            let port = parse_radix(parts[1], 16, 0xffff_ffff);
            let status = parse_radix(parts[2], 16, 0xffff_ffff);
            if let (Ok(port), Ok(status)) = (port, status) {
                if status == 4 {
                    return Some(port);
                }
            }
        }
    }
    None
}

/// The first free port in the lines from number `i` on.
pub open spec fn free_port_from(lines: Seq<Seq<char>>, i: int) -> Option<u64>
    decreases lines.len() - i,
{
    if i >= lines.len() {
        None
    } else {
        match free_port_in_line(lines[i]) {
            Some(port) => Some(port),
            None => free_port_from(lines, i + 1),
        }
    }
}

/// The first free port in the controller's status, whose first line is a
/// heading.
pub open spec fn free_port(status: Seq<char>) -> Option<u64> {
    free_port_from(lines_of(status), 1)
}

/// The first free port in the controller's status, whose first line is a
/// heading.
pub fn free_port_in(status: &str) -> (r: Option<u64>)
    ensures
        r == free_port(status@),
        r matches Some(port) ==> port <= 0xffff_ffff,
{
    let all = lines(status);
    let ghost seen = all.deep_view();
    let mut i: usize = 1;
    while i < all.len()
        invariant
            seen == all.deep_view(),
            1 <= i,
            free_port_from(seen, i as int) == free_port_from(seen, 1),
            seen == lines_of(status@),
        decreases all.len() - i,
    {
        assert(seen[i as int] == all@[i as int]@);
        let found = parse_port_line(all[i]);
        if found.is_some() {
            return found;
        }
        i = i + 1;
    }
    None
}

/// A free port of the controller.
pub open spec fn spec_find_free_vhci_port(log: Log, at: int) -> Outcome<u64> {
    bind(
        spec_find_vhci_sysfs_dir(log, at),
        |dir: Seq<char>, at: int|
            bind(
                in_context(
                    spec_ask_text(log, at, RequestView::Read(path_in(dir, "status"@))),
                    "Failed to read vhci_hcd status"@,
                ),
                |content: Seq<char>, at: int|
                    match free_port(content) {
                        Some(port) => Outcome::Ready(port, at),
                        None => failure(at, "No free vhci_hcd ports available"@),
                    },
            ),
    )
}

/// A free port of the controller.
pub fn find_free_vhci_port(log: &Vec<Reply>, at: usize) -> (r: Step<u64>)
    ensures
        outcome(r) == spec_find_free_vhci_port(log.deep_view(), at as int),
{
    let (dir, at) = find_vhci_sysfs_dir(log, at)?;
    let (content, at) = context(
        ask_text(log, at, Request::Read(join_path(dir.as_str(), "status"))),
        "Failed to read vhci_hcd status",
    )?;
    match free_port_in(content.as_str()) {
        Some(port) => Ok((port, at)),
        None => fail(at, "No free vhci_hcd ports available"),
    }
}

// ---------------------------------------------------------------------------
// Plugging in and out
// ---------------------------------------------------------------------------

/// The text that plugs the device behind a socket into a port: port, socket,
/// bus and device number in one, and speed.
pub open spec fn attach_text(rhport: u64, sockfd: u64) -> Seq<char> {
    decimal(rhport as int) + " "@ + decimal(sockfd as int) + " "@ + decimal(
        HID_BUSNUM * 0x1_0000 + HID_DEVNUM,
    ) + " "@ + decimal(HID_SPEED as int) + "\n"@
}

fn build_attach_text(rhport: u64, sockfd: u64) -> (r: String)
    ensures
        r@ == attach_text(rhport, sockfd),
{
    let devid: u64 = (HID_BUSNUM * 0x1_0000 + HID_DEVNUM) as u64;
    let port = plus(to_decimal(rhport), " ");
    let socket = plus(plus(port, to_decimal(sockfd).as_str()), " ");
    let device = plus(plus(socket, to_decimal(devid).as_str()), " ");
    plus(plus(device, to_decimal(HID_SPEED as u64).as_str()), "\n")
}

/// The mode bits of a file in words.
pub open spec fn mode_text(mode: Option<u64>) -> Seq<char> {
    match mode {
        Some(bits) => numeral(bits as int, 8),
        None => "unknown"@,
    }
}

/// What is said when the controller refuses a device.
pub open spec fn attach_refused(path: Seq<char>, mode: Option<u64>) -> Seq<char> {
    "Failed to write to vhci_hcd attach ("@ + path + ")\n  Permissions: "@ + mode_text(mode)
        + "\n  Make sure your user is in the 'plugdev' group and the udev rule is installed:\n  sudo usermod -aG plugdev $USER\n  echo 'SUBSYSTEM==\"platform\", DRIVER==\"vhci_hcd\", RUN+=\"/bin/sh -c \\'chown root:plugdev /sys%p/attach /sys%p/detach && chmod 0660 /sys%p/attach /sys%p/detach\\'\"' | sudo tee /etc/udev/rules.d/99-virsh-usb.rules"@
}

fn attach_refused_message(path: &str, mode: Option<u64>) -> (r: String)
    ensures
        r@ == attach_refused(path@, mode),
{
    let perms = match mode {
        Some(bits) => to_radix(bits, 8),
        None => "unknown".to_string(),
    };
    let start = plus("Failed to write to vhci_hcd attach (".to_string(), path);
    plus(
        plus(plus(start, ")\n  Permissions: "), perms.as_str()),
        "\n  Make sure your user is in the 'plugdev' group and the udev rule is installed:\n  sudo usermod -aG plugdev $USER\n  echo 'SUBSYSTEM==\"platform\", DRIVER==\"vhci_hcd\", RUN+=\"/bin/sh -c \\'chown root:plugdev /sys%p/attach /sys%p/detach && chmod 0660 /sys%p/attach /sys%p/detach\\'\"' | sudo tee /etc/udev/rules.d/99-virsh-usb.rules",
    )
}

/// Plugs the device behind a socket into a port.
pub open spec fn spec_attach_vhci(
    log: Log,
    at: int,
    dir: Seq<char>,
    rhport: u64,
    sockfd: u64,
) -> Outcome<()> {
    let path = path_in(dir, "attach"@);
    bind(
        spec_fault(
            spec_ask_done(log, at, RequestView::Write(path, attach_text(rhport, sockfd))),
        ),
        |refused: Option<Chain>, at: int|
            match refused {
                None => Outcome::Ready((), at),
                Some(c) => bind(
                    spec_attempt(spec_ask_number(log, at, RequestView::Mode(path))),
                    |mode: Option<u64>, at: int|
                        Outcome::Fail(seq![attach_refused(path, mode)] + c, at),
                ),
            },
    )
}

/// Plugs the device behind a socket into a port.
pub fn attach_vhci(
    log: &Vec<Reply>,
    at: usize,
    dir: &str,
    rhport: u64,
    sockfd: u64,
) -> (r: Step<()>)
    ensures
        outcome(r) == spec_attach_vhci(log.deep_view(), at as int, dir@, rhport, sockfd),
{
    let path = join_path(dir, "attach");
    let (refused, at) = fault(
        ask_done(log, at, Request::Write(path.clone(), build_attach_text(rhport, sockfd))),
    )?;
    match refused {
        None => Ok(((), at)),
        Some(c) => {
            let (mode, at) = attempt(ask_number(log, at, Request::Mode(path.clone())))?;
            Err(Pause::Fail(prepended(attach_refused_message(path.as_str(), mode), c), at))
        },
    }
}

/// The name of the file that keeps a device's port.
pub open spec fn vhci_port_name(name: Seq<char>) -> Seq<char> {
    "hid-"@ + name + ".vhci-port"@
}

/// The file that keeps a device's port.
pub open spec fn spec_hid_vhci_port_file(log: Log, at: int, name: Seq<char>) -> Outcome<Seq<char>> {
    spec_data_file(log, at, vhci_port_name(name))
}

/// The file that keeps a device's port.
pub fn hid_vhci_port_file(log: &Vec<Reply>, at: usize, name: &str) -> (r: Step<String>)
    ensures
        outcome(r) == spec_hid_vhci_port_file(log.deep_view(), at as int, name@),
{
    data_file(log, at, plus(plus("hid-".to_string(), name), ".vhci-port").as_str())
}

/// Unplugs a device, if it is plugged in.
pub open spec fn spec_detach_vhci(log: Log, at: int, name: Seq<char>) -> Outcome<()> {
    bind(
        spec_hid_vhci_port_file(log, at, name),
        |file: Seq<char>, at: int|
            bind(
                spec_ask_flag(log, at, RequestView::Exists(file)),
                |present: bool, at: int|
                    if !present {
                        Outcome::Ready((), at)
                    } else {
                        bind(
                            spec_ask_text(log, at, RequestView::Read(file)),
                            |content: Seq<char>, at: int| spec_unplug(log, at, file, content),
                        )
                    },
            ),
    )
}

/// Unplugs the device whose port stands in `content`, the text of `file`.
pub open spec fn spec_unplug(log: Log, at: int, file: Seq<char>, content: Seq<char>) -> Outcome<
    (),
> {
    bind(
        spec_number_in(at, content, 0xffff_ffff, "Invalid vhci port in state file"@),
        |port: u64, at: int|
            bind(
                spec_find_vhci_sysfs_dir(log, at),
                |dir: Seq<char>, at: int|
                    bind(
                        in_context(
                            spec_ask_done(
                                log,
                                at,
                                RequestView::Write(
                                    path_in(dir, "detach"@),
                                    decimal(port as int) + "\n"@,
                                ),
                            ),
                            "Failed to write to vhci_hcd detach"@,
                        ),
                        |_done: (), at: int| spec_tell(log, at, RequestView::Remove(file)),
                    ),
            ),
    )
}

/// Unplugs a device, if it is plugged in.
pub fn detach_vhci(log: &Vec<Reply>, at: usize, name: &str) -> (r: Step<()>)
    ensures
        outcome(r) == spec_detach_vhci(log.deep_view(), at as int, name@),
{
    let (file, at) = hid_vhci_port_file(log, at, name)?;
    let (present, at) = ask_flag(log, at, Request::Exists(file.clone()))?;
    if !present {
        return Ok(((), at));
    }
    let (content, at) = ask_text(log, at, Request::Read(file.clone()))?;
    let (port, at) = number_in(
        at,
        content.as_str(),
        0xffff_ffff,
        "Invalid vhci port in state file",
    )?;
    let (dir, at) = find_vhci_sysfs_dir(log, at)?;
    let (_, at) = context(
        ask_done(
            log,
            at,
            Request::Write(join_path(dir.as_str(), "detach"), plus(to_decimal(port), "\n")),
        ),
        "Failed to write to vhci_hcd detach",
    )?;
    tell(log, at, Request::Remove(file))
}

// ---------------------------------------------------------------------------
// Laws
// ---------------------------------------------------------------------------

/// A number that was kept in a file is read back as that number, if it is
/// within the limit.
pub proof fn law_kept_number_is_read_back(at: int, n: u64, max: int, message: Seq<char>)
    requires
        n <= max,
    ensures
        spec_number_in(at, decimal(n as int), max, message) == Outcome::Ready(n, at),
{
    law_number_round_trip(n as int, 10, max);
}

/// The port that is taken is the first high speed port of the controller's
/// status, below its heading, that nothing is plugged into; none is taken only
/// if there is none.
pub proof fn law_taken_port_is_free(status: Seq<char>)
    ensures
        match free_port(status) {
            Some(port) => exists|k: int|
                1 <= k < lines_of(status).len() && free_port_in_line(
                    #[trigger] lines_of(status)[k],
                ) == Some(port) && forall|j: int|
                    1 <= j < k ==> free_port_in_line(#[trigger] lines_of(status)[j]) is None,
            None => forall|j: int|
                1 <= j < lines_of(status).len() ==> free_port_in_line(
                    #[trigger] lines_of(status)[j],
                ) is None,
        },
{
    lemma_free_port_from(lines_of(status), 1);
}

proof fn lemma_free_port_from(lines: Seq<Seq<char>>, i: int)
    requires
        1 <= i,
        forall|j: int| 1 <= j < i && j < lines.len() ==> free_port_in_line(#[trigger] lines[j]) is None,
    ensures
        match free_port_from(lines, i) {
            Some(port) => exists|k: int|
                1 <= k < lines.len() && free_port_in_line(#[trigger] lines[k]) == Some(port)
                    && forall|j: int| 1 <= j < k ==> free_port_in_line(#[trigger] lines[j]) is None,
            None => forall|j: int|
                1 <= j < lines.len() ==> free_port_in_line(#[trigger] lines[j]) is None,
        },
    decreases lines.len() - i,
{
    if i < lines.len() {
        if free_port_in_line(lines[i]) is None {
            lemma_free_port_from(lines, i + 1);
        } else {
            assert(free_port_in_line(lines[i]) is Some);
        }
    }
}

/// The port under which a device is plugged in is the one from which it is
/// unplugged: it is read from the file into which it was written, and it is
/// what the controller is told.
pub proof fn law_unplugged_from_its_port(
    log: Log,
    at: int,
    file: Seq<char>,
    port: u64,
    dir: Seq<char>,
    n: int,
)
    requires
        port <= 0xffff_ffff,
        spec_find_vhci_sysfs_dir(log, at) == Outcome::Ready(dir, n),
        n == log.len(),
        0 <= at,
    ensures
        spec_unplug(log, at, file, decimal(port as int)) == Outcome::<()>::Ask(
            RequestView::Write(path_in(dir, "detach"@), decimal(port as int) + "\n"@),
        ),
{
    law_kept_number_is_read_back(
        at,
        port,
        0xffff_ffff,
        "Invalid vhci port in state file"@,
    );
}

/// A port is free exactly if its line begins with the word for a high-speed port
/// and gives the status of a free one, both in hexadecimal digits.
pub proof fn law_free_ports(line: Seq<char>, port: u64)
    ensures
        free_port_in_line(line) == Some(port) <==> {
            &&& words_of(line).len() >= 3
            &&& words_of(line)[0] == "hs"@
            &&& parsed(words_of(line)[1], 16, 0xffff_ffff) == Ok::<int, ParseFault>(port as int)
            &&& parsed(words_of(line)[2], 16, 0xffff_ffff) == Ok::<int, ParseFault>(4)
        },
{
    if words_of(line).len() >= 3 {
        law_numbers_are_in_range(words_of(line)[1], 16, 0xffff_ffff);
    }
}

} // verus!
