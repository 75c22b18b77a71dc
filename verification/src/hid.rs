//! Virtual HID devices: making and deleting them, plugging them into the host
//! and handing them to virtual machines, and typing over them.

use vstd::prelude::*;
use vstd::string::*;
use vstd::utf8::*;

use crate::console::{run_command, spec_run_command};
use crate::daemon::{
    cleanup_hid_state_files, hid_sock_file, is_hid_daemon_running, law_stopping_never_fails,
    normalize_hex_id, normalized, read_hid_port, spec_await_port, spec_cleanup_hid_state_files,
    spec_hid_sock_file, spec_is_hid_daemon_running, spec_look_for_port, spec_read_hid_port,
    spec_spawn_hid_daemon, spec_start_hid_daemon, spec_stop_hid_daemon, start_hid_daemon,
    stop_hid_daemon,
};
use crate::devices::{
    drive_named, find_drive, find_hid, hid_named, hids_without, law_deleting_undoes_making,
    law_new_hid_keeps_names_distinct, names_distinct, DriveView, HidDevice, HidView,
};
use crate::host::{
    ask_bytes, ask_done, ask_number, attempt, bind, bold_green, context, cyan, dim, fail, failure,
    fault, green, in_context, line, outcome, plain, say, spec_ask_bytes, spec_ask_done,
    spec_ask_number, spec_attempt, spec_fault, spec_say, spec_tell, tell, with, words2, words3,
    yellow, Chain, Line, Log, Outcome, Pause, Reply, Request, RequestView, SpanView, Step,
};
use crate::names::{
    law_sanitized_is_valid, law_valid_name_unchanged, sanitize_device_name, sanitized, valid_name,
};
use crate::number::{decimal, to_decimal};
use crate::registry::{
    load_hid_devices, load_virtual_drives, save_hid_devices, spec_load_hid_devices,
    spec_load_virtual_drives, spec_save_hid_devices,
};
use crate::storage::{add_attached, attached_span};
use crate::text::{pad_right, padded, plus};
use crate::transfer::{reports_of, scan_reports};
use crate::usb::{
    dumpxml, find_any_device, id_text, is_device_attached, join_ids, spec_find_usb_device,
    spec_is_device_attached, Front,
};
use crate::usbip::{build_import_request, import_request, import_status, reply_status};
use crate::vhci::{
    attach_vhci, detach_vhci, find_free_vhci_port, find_vhci_sysfs_dir, hid_vhci_port_file,
    spec_attach_vhci, spec_detach_vhci, spec_find_free_vhci_port, spec_find_vhci_sysfs_dir,
    spec_hid_vhci_port_file,
};
use crate::vm::{
    active_vms, attach_device, attachment_line, build_attachment_line, build_vm_line,
    check_vm_running, check_vm_unpaused, detach_device, device_command, list_unpaused, not_running,
    not_running_message, spec_active_vms, spec_attach_device, spec_check_vm_running,
    spec_check_vm_unpaused, spec_detach_device, vm_line,
};

verus! {

/// What is said when there is no such HID device.
pub open spec fn no_hid(name: Seq<char>) -> Seq<char> {
    "No HID device named '"@ + name + "'"@
}

fn no_hid_message(name: &str) -> (r: String)
    ensures
        r@ == no_hid(name@),
{
    plus(plus("No HID device named '".to_string(), name), "'")
}

/// Whether a HID device is attached to a virtual machine: its daemon runs, and
/// the virtual machine has a host device with its ids.
pub open spec fn spec_is_hid_device_attached(
    log: Log,
    at: int,
    vm_name: Seq<char>,
    device: HidView,
) -> Outcome<bool> {
    bind(
        spec_is_hid_daemon_running(log, at, device.name),
        |running: bool, at: int|
            if !running {
                Outcome::Ready(false, at)
            } else {
                spec_is_device_attached(
                    log,
                    at,
                    vm_name,
                    normalized(device.vid),
                    normalized(device.pid),
                )
            },
    )
}

/// Whether a HID device is attached to a virtual machine: its daemon runs, and
/// the virtual machine has a host device with its ids.
pub fn is_hid_device_attached(
    log: &Vec<Reply>,
    at: usize,
    vm_name: &str,
    device: &HidDevice,
) -> (r: Step<bool>)
    ensures
        outcome(r) == spec_is_hid_device_attached(
            log.deep_view(),
            at as int,
            vm_name@,
            device.deep_view(),
        ),
{
    let (running, at) = is_hid_daemon_running(log, at, device.name.as_str())?;
    if !running {
        return Ok((false, at));
    }
    let vid = normalize_hex_id(device.vid.as_str());
    let pid = normalize_hex_id(device.pid.as_str());
    is_device_attached(log, at, vm_name, vid.as_str(), pid.as_str())
}

// ---------------------------------------------------------------------------
// Making and deleting
// ---------------------------------------------------------------------------

/// What is said when a HID device with the name exists.
pub open spec fn hid_exists(name: Seq<char>) -> Seq<char> {
    "An HID device named '"@ + name + "' already exists"@
}

/// What is said when a drive has the name.
pub open spec fn name_of_drive(name: Seq<char>) -> Seq<char> {
    "A storage drive named '"@ + name
        + "' already exists. Device names must be unique across all types."@
}

/// What is said when a HID device has been made.
pub open spec fn hid_created_line(name: Seq<char>, vid: Seq<char>, pid: Seq<char>) -> Seq<
    SpanView,
> {
    line().push(bold_green("✓"@)).push(plain(" Created HID device "@)).push(cyan(name)).push(
        plain(" ("@ + id_text(vid, pid) + ")"@),
    )
}

/// Makes a HID device. The name is sanitized; no other virtual device may have
/// it.
pub open spec fn spec_create_hid_device(
    log: Log,
    at: int,
    name: Seq<char>,
    vid: Seq<char>,
    pid: Seq<char>,
) -> Outcome<()> {
    let clean = sanitized(name);
    if name.len() == 0 {
        failure(at, "Device name cannot be empty"@)
    } else if clean.len() == 0 {
        failure(at, "Device name is empty after sanitization"@)
    } else {
        bind(
            spec_load_hid_devices(log, at),
            |hids: Seq<HidView>, at: int|
                if hid_named(hids, clean) is Some {
                    failure(at, hid_exists(clean))
                } else {
                    bind(
                        spec_load_virtual_drives(log, at),
                        |drives: Seq<DriveView>, at: int|
                            if drive_named(drives, clean) is Some {
                                failure(at, name_of_drive(clean))
                            } else {
                                bind(
                                    spec_save_hid_devices(
                                        log,
                                        at,
                                        hids.push(HidView { name: clean, vid, pid }),
                                    ),
                                    |_done: (), at: int|
                                        spec_say(log, at, hid_created_line(clean, vid, pid)),
                                )
                            },
                    )
                },
        )
    }
}

/// Makes a HID device. The name is sanitized; no other virtual device may have
/// it.
pub fn create_hid_device(log: &Vec<Reply>, at: usize, name: &str, vid: &str, pid: &str) -> (r: Step<
    (),
>)
    ensures
        outcome(r) == spec_create_hid_device(log.deep_view(), at as int, name@, vid@, pid@),
{
    if name.unicode_len() == 0 {
        return fail(at, "Device name cannot be empty");
    }
    let clean = sanitize_device_name(name);
    if clean.as_str().unicode_len() == 0 {
        return fail(at, "Device name is empty after sanitization");
    }
    let (hids, at) = load_hid_devices(log, at)?;
    if find_hid(&hids, clean.as_str()).is_some() {
        return fail(
            at,
            plus(
                plus("An HID device named '".to_string(), clean.as_str()),
                "' already exists",
            ).as_str(),
        );
    }
    let (drives, at) = load_virtual_drives(log, at)?;
    if find_drive(&drives, clean.as_str()).is_some() {
        return fail(
            at,
            plus(
                plus("A storage drive named '".to_string(), clean.as_str()),
                "' already exists. Device names must be unique across all types.",
            ).as_str(),
        );
    }
    let hids = with(
        hids,
        HidDevice { name: clean.clone(), vid: vid.to_string(), pid: pid.to_string() },
    );
    let (_, at) = save_hid_devices(log, at, &hids)?;
    say(
        log,
        at,
        Line::new().bold_green("✓").plain(" Created HID device ").cyan(clean.as_str()).plain(
            plus(plus(" (".to_string(), join_ids(vid, pid).as_str()), ")").as_str(),
        ),
    )
}

/// What is said of a HID device in use.
pub open spec fn hid_in_use(name: Seq<char>, vm: Seq<char>) -> Seq<char> {
    "HID device '"@ + name + "' is currently attached to VM '"@ + vm + "'. Detach it first."@
}

/// The first virtual machine, from number `i` on, that the HID device is
/// attached to.
pub open spec fn spec_vm_with_hid(
    log: Log,
    at: int,
    device: HidView,
    vms: Seq<Seq<char>>,
    i: int,
) -> Outcome<Option<Seq<char>>>
    decreases vms.len() - i,
{
    if i >= vms.len() {
        Outcome::Ready(None, at)
    } else {
        match spec_is_hid_device_attached(log, at, vms[i], device) {
            Outcome::Ask(rq) => Outcome::Ask(rq),
            Outcome::Fail(c, n) => Outcome::Fail(c, n),
            Outcome::Ready(true, n) => Outcome::Ready(Some(vms[i]), n),
            Outcome::Ready(false, n) => spec_vm_with_hid(log, n, device, vms, i + 1),
        }
    }
}

/// The first of the virtual machines that the HID device is attached to.
pub fn vm_with_hid(log: &Vec<Reply>, at: usize, device: &HidDevice, vms: &Vec<String>) -> (r: Step<
    Option<String>,
>)
    ensures
        outcome(r) == spec_vm_with_hid(
            log.deep_view(),
            at as int,
            device.deep_view(),
            vms.deep_view(),
            0,
        ),
{
    let mut next: usize = at;
    let mut i: usize = 0;
    while i < vms.len()
        invariant
            i <= vms.len(),
            spec_vm_with_hid(
                log.deep_view(),
                next as int,
                device.deep_view(),
                vms.deep_view(),
                i as int,
            ) == spec_vm_with_hid(
                log.deep_view(),
                at as int,
                device.deep_view(),
                vms.deep_view(),
                0,
            ),
        decreases vms.len() - i,
    {
        assert(vms.deep_view()[i as int] == vms@[i as int]@);
        let (attached, n) = is_hid_device_attached(log, next, vms[i].as_str(), device)?;
        if attached {
            return Ok((Some(vms[i].clone()), n));
        }
        next = n;
        i = i + 1;
    }
    Ok((None, next))
}

/// What is said when a HID device has been deleted.
pub open spec fn hid_deleted_line(name: Seq<char>) -> Seq<SpanView> {
    line().push(bold_green("✓"@)).push(plain(" Deleted HID device "@)).push(cyan(name))
}

/// Deletes a HID device that no active virtual machine has: what may be left
/// of its daemon, and its entry in the list.
pub open spec fn spec_delete_hid_device(log: Log, at: int, name: Seq<char>) -> Outcome<()> {
    bind(
        spec_load_hid_devices(log, at),
        |hids: Seq<HidView>, at: int|
            match hid_named(hids, name) {
                None => failure(at, no_hid(name)),
                Some(k) => bind(
                    spec_active_vms(log, at),
                    |vms: Seq<Seq<char>>, at: int|
                        bind(
                            spec_vm_with_hid(log, at, hids[k], vms, 0),
                            |vm: Option<Seq<char>>, at: int|
                                match vm {
                                    Some(vm) => failure(at, hid_in_use(name, vm)),
                                    None => spec_drop_hid(log, at, hids, k, name),
                                },
                        ),
                ),
            },
    )
}

/// Deletes the HID device at `k`.
pub open spec fn spec_drop_hid(
    log: Log,
    at: int,
    hids: Seq<HidView>,
    k: int,
    name: Seq<char>,
) -> Outcome<()> {
    bind(
        spec_cleanup_hid_state_files(log, at, name),
        |_done: (), at: int|
            bind(
                spec_save_hid_devices(log, at, hids_without(hids, k)),
                |_done: (), at: int| spec_say(log, at, hid_deleted_line(name)),
            ),
    )
}

/// Deletes a HID device that no active virtual machine has: what may be left
/// of its daemon, and its entry in the list.
pub fn delete_hid_device(log: &Vec<Reply>, at: usize, name: &str) -> (r: Step<()>)
    ensures
        outcome(r) == spec_delete_hid_device(log.deep_view(), at as int, name@),
{
    let (mut hids, at) = load_hid_devices(log, at)?;
    match find_hid(&hids, name) {
        None => fail(at, no_hid_message(name).as_str()),
        Some(k) => {
            let (vms, at) = active_vms(log, at)?;
            assert(hids.deep_view()[k as int] == hids@[k as int].deep_view());
            let (vm, at) = vm_with_hid(log, at, &hids[k], &vms)?;
            if let Some(vm) = vm {
                let start = plus(plus("HID device '".to_string(), name), "' is currently attached to VM '");
                return fail(at, plus(plus(start, vm.as_str()), "'. Detach it first.").as_str());
            }
            let (_, at) = cleanup_hid_state_files(log, at, name)?;
            let ghost before = hids.deep_view();
            hids.remove(k);
            assert(hids.deep_view() =~= hids_without(before, k as int));
            let (_, at) = save_hid_devices(log, at, &hids)?;
            say(log, at, Line::new().bold_green("✓").plain(" Deleted HID device ").cyan(name))
        },
    }
}

// ---------------------------------------------------------------------------
// Listing
// ---------------------------------------------------------------------------

/// A line on a HID device: name and ids in columns, its daemon, and who has it.
pub open spec fn hid_line(d: HidView, active: bool, vm: Option<Seq<char>>) -> Seq<SpanView> {
    line().push(plain("  "@)).push(cyan(padded(d.name, 20))).push(
        plain(" "@ + d.vid + ":"@ + padded(d.pid, 12) + " "@),
    ).push(
        if active {
            green("daemon active"@)
        } else {
            dim("daemon inactive"@)
        },
    ).push(plain("  "@)).push(attached_span(vm))
}

fn build_hid_line(d: &HidDevice, active: bool, vm: &Option<String>) -> (r: Line)
    ensures
        r.deep_view() == hid_line(d.deep_view(), active, vm.deep_view()),
{
    let ids = plus(plus(" ".to_string(), d.vid.as_str()), ":");
    let start = Line::new().plain("  ").cyan(pad_right(d.name.as_str(), 20).as_str()).plain(
        plus(plus(ids, pad_right(d.pid.as_str(), 12).as_str()), " ").as_str(),
    );
    let middle = if active {
        start.green("daemon active")
    } else {
        start.dim("daemon inactive")
    };
    add_attached(middle.plain("  "), vm)
}

/// Tells of one HID device.
pub open spec fn spec_show_hid(log: Log, at: int, device: HidView, vms: Seq<Seq<char>>) -> Outcome<
    (),
> {
    bind(
        spec_vm_with_hid(log, at, device, vms, 0),
        |vm: Option<Seq<char>>, at: int|
            bind(
                spec_is_hid_daemon_running(log, at, device.name),
                |active: bool, at: int|
                    bind(
                        spec_say(log, at, hid_line(device, active, vm)),
                        |_done: (), at: int| spec_say(log, at, line()),
                    ),
            ),
    )
}

fn show_hid(log: &Vec<Reply>, at: usize, device: &HidDevice, vms: &Vec<String>) -> (r: Step<()>)
    ensures
        outcome(r) == spec_show_hid(
            log.deep_view(),
            at as int,
            device.deep_view(),
            vms.deep_view(),
        ),
{
    let (vm, at) = vm_with_hid(log, at, device, vms)?;
    let (active, at) = is_hid_daemon_running(log, at, device.name.as_str())?;
    let (_, at) = say(log, at, build_hid_line(device, active, &vm))?;
    say(log, at, Line::new())
}

/// Tells of the HID devices from number `i` on.
pub open spec fn spec_show_hids(
    log: Log,
    at: int,
    hids: Seq<HidView>,
    vms: Seq<Seq<char>>,
    i: int,
) -> Outcome<()>
    decreases hids.len() - i,
{
    if i >= hids.len() {
        Outcome::Ready((), at)
    } else {
        match spec_show_hid(log, at, hids[i], vms) {
            Outcome::Ask(rq) => Outcome::Ask(rq),
            Outcome::Fail(c, n) => Outcome::Fail(c, n),
            Outcome::Ready(_, n) => spec_show_hids(log, n, hids, vms, i + 1),
        }
    }
}

fn show_hids(log: &Vec<Reply>, at: usize, hids: &Vec<HidDevice>, vms: &Vec<String>) -> (r: Step<()>)
    ensures
        outcome(r) == spec_show_hids(
            log.deep_view(),
            at as int,
            hids.deep_view(),
            vms.deep_view(),
            0,
        ),
{
    let mut next: usize = at;
    let mut i: usize = 0;
    while i < hids.len()
        invariant
            i <= hids.len(),
            spec_show_hids(
                log.deep_view(),
                next as int,
                hids.deep_view(),
                vms.deep_view(),
                i as int,
            ) == spec_show_hids(
                log.deep_view(),
                at as int,
                hids.deep_view(),
                vms.deep_view(),
                0,
            ),
        decreases hids.len() - i,
    {
        assert(hids.deep_view()[i as int] == hids@[i as int].deep_view());
        let (_, n) = show_hid(log, next, &hids[i], vms)?;
        next = n;
        i = i + 1;
    }
    Ok(((), next))
}

/// Lists the HID devices, their daemons, and who has them.
pub open spec fn spec_list_hid_devices(log: Log, at: int) -> Outcome<()> {
    bind(
        spec_load_hid_devices(log, at),
        |hids: Seq<HidView>, at: int|
            if hids.len() == 0 {
                bind(
                    spec_say(
                        log,
                        at,
                        line().push(plain("No HID devices found. Create one with:"@)),
                    ),
                    |_done: (), at: int|
                        spec_say(
                            log,
                            at,
                            line().push(
                                plain("  virsh-usb hid create <name> --vid <vid> --pid <pid>"@),
                            ),
                        ),
                )
            } else {
                bind(
                    spec_active_vms(log, at),
                    |vms: Seq<Seq<char>>, at: int|
                        bind(
                            spec_say(log, at, line().push(plain("Virtual USB HID Devices:"@))),
                            |_done: (), at: int|
                                bind(
                                    spec_say(log, at, line()),
                                    |_done: (), at: int| spec_show_hids(log, at, hids, vms, 0),
                                ),
                        ),
                )
            },
    )
}

/// Lists the HID devices, their daemons, and who has them.
pub fn list_hid_devices(log: &Vec<Reply>, at: usize) -> (r: Step<()>)
    ensures
        outcome(r) == spec_list_hid_devices(log.deep_view(), at as int),
{
    let (hids, at) = load_hid_devices(log, at)?;
    if hids.len() == 0 {
        let (_, at) = say(log, at, Line::new().plain("No HID devices found. Create one with:"))?;
        return say(
            log,
            at,
            Line::new().plain("  virsh-usb hid create <name> --vid <vid> --pid <pid>"),
        );
    }
    let (vms, at) = active_vms(log, at)?;
    let (_, at) = say(log, at, Line::new().plain("Virtual USB HID Devices:"))?;
    let (_, at) = say(log, at, Line::new())?;
    show_hids(log, at, &hids, &vms)
}

// ---------------------------------------------------------------------------
// Attaching
// ---------------------------------------------------------------------------

/// Connects with the daemon.
pub open spec fn spec_reach_daemon(log: Log, at: int, name: Seq<char>) -> Outcome<()> {
    bind(
        spec_read_hid_port(log, at, name),
        |port: u64, at: int|
            in_context(
                spec_ask_done(log, at, RequestView::Connect(port)),
                "Failed to connect to HID daemon"@,
            ),
    )
}

fn reach_daemon(log: &Vec<Reply>, at: usize, name: &str) -> (r: Step<()>)
    ensures
        outcome(r) == spec_reach_daemon(log.deep_view(), at as int, name@),
{
    let (port, at) = read_hid_port(log, at, name)?;
    context(ask_done(log, at, Request::Connect(port)), "Failed to connect to HID daemon")
}

/// Asks the daemon for its device, as the kernel would: the connection then
/// carries the device's transfers.
pub open spec fn spec_import_device(log: Log, at: int) -> Outcome<()> {
    bind(
        in_context(
            spec_ask_done(log, at, RequestView::Send(import_request())),
            "Failed to send IMPORT request"@,
        ),
        |_done: (), at: int| spec_read_import_reply(log, at),
    )
}

/// Reads the daemon's reply to the import request.
pub open spec fn spec_read_import_reply(log: Log, at: int) -> Outcome<()> {
    bind(
        in_context(
            spec_ask_bytes(log, at, RequestView::Receive(8), 8),
            "Failed to read IMPORT reply"@,
        ),
        |header: Seq<u8>, at: int|
            if reply_status(header) != 0 {
                failure(
                    at,
                    "USB/IP daemon rejected IMPORT (status="@ + decimal(reply_status(header))
                        + ")"@,
                )
            } else {
                bind(
                    in_context(
                        spec_ask_bytes(log, at, RequestView::Receive(312), 312),
                        "Failed to read device info"@,
                    ),
                    |_info: Seq<u8>, at: int| Outcome::Ready((), at),
                )
            },
    )
}

fn import_device(log: &Vec<Reply>, at: usize) -> (r: Step<()>)
    ensures
        outcome(r) == spec_import_device(log.deep_view(), at as int),
{
    let (_, at) = context(
        ask_done(log, at, Request::Send(build_import_request())),
        "Failed to send IMPORT request",
    )?;
    read_import_reply(log, at)
}

fn read_import_reply(log: &Vec<Reply>, at: usize) -> (r: Step<()>)
    ensures
        outcome(r) == spec_read_import_reply(log.deep_view(), at as int),
{
    let (header, at) = match ask_bytes(log, at, Request::Receive(8), 8) {
        Ok(got) => got,
        Err(p) => {
            return context(Err(p), "Failed to read IMPORT reply");
        },
    };
    let status: u32 = import_status(header.bytes.as_slice());
    if status != 0 {
        return fail(
            at,
            plus(
                plus(
                    "USB/IP daemon rejected IMPORT (status=".to_string(),
                    to_decimal(status as u64).as_str(),
                ),
                ")",
            ).as_str(),
        );
    }
    let (_, at) = context(
        ask_bytes(log, at, Request::Receive(312), 312),
        "Failed to read device info",
    )?;
    Ok(((), at))
}

/// Hands the connection to the kernel, which plugs the device in; the port is
/// kept for unplugging it.
pub open spec fn spec_plug_in(log: Log, at: int, name: Seq<char>) -> Outcome<()> {
    bind(
        spec_find_vhci_sysfs_dir(log, at),
        |dir: Seq<char>, at: int|
            bind(
                spec_find_free_vhci_port(log, at),
                |rhport: u64, at: int|
                    bind(
                        spec_hid_vhci_port_file(log, at, name),
                        |file: Seq<char>, at: int|
                            bind(
                                spec_ask_done(
                                    log,
                                    at,
                                    RequestView::Write(file, decimal(rhport as int)),
                                ),
                                |_done: (), at: int|
                                    bind(
                                        spec_ask_number(log, at, RequestView::Descriptor),
                                        |sockfd: u64, at: int|
                                            spec_attach_vhci(log, at, dir, rhport, sockfd),
                                    ),
                            ),
                    ),
            ),
    )
}

fn plug_in(log: &Vec<Reply>, at: usize, name: &str) -> (r: Step<()>)
    ensures
        outcome(r) == spec_plug_in(log.deep_view(), at as int, name@),
{
    let (dir, at) = find_vhci_sysfs_dir(log, at)?;
    let (rhport, at) = find_free_vhci_port(log, at)?;
    let (file, at) = hid_vhci_port_file(log, at, name)?;
    let (_, at) = ask_done(log, at, Request::Write(file, to_decimal(rhport)))?;
    let (sockfd, at) = ask_number(log, at, Request::Descriptor)?;
    attach_vhci(log, at, dir.as_str(), rhport, sockfd)
}

/// Asks the daemon for its device and hands the connection to the kernel, which
/// then holds it too.
pub open spec fn spec_use_connection(log: Log, at: int, name: Seq<char>) -> Outcome<()> {
    bind(spec_import_device(log, at), |_done: (), at: int| spec_plug_in(log, at, name))
}

fn use_connection(log: &Vec<Reply>, at: usize, name: &str) -> (r: Step<()>)
    ensures
        outcome(r) == spec_use_connection(log.deep_view(), at as int, name@),
{
    let (_, at) = import_device(log, at)?;
    plug_in(log, at, name)
}

/// Plugs the daemon's device in over a connection that is closed here again,
/// whatever came of it.
pub open spec fn spec_connect_device(log: Log, at: int, name: Seq<char>) -> Outcome<()> {
    bind(
        spec_reach_daemon(log, at, name),
        |_done: (), at: int|
            bind(
                spec_fault(spec_use_connection(log, at, name)),
                |failed: Option<Chain>, at: int|
                    bind(
                        spec_tell(log, at, RequestView::HangUp),
                        |_done: (), at: int|
                            match failed {
                                Some(c) => Outcome::Fail(c, at),
                                None => Outcome::Ready((), at),
                            },
                    ),
            ),
    )
}

fn connect_device(log: &Vec<Reply>, at: usize, name: &str) -> (r: Step<()>)
    ensures
        outcome(r) == spec_connect_device(log.deep_view(), at as int, name@),
{
    let (_, at) = reach_daemon(log, at, name)?;
    let (failed, at) = fault(use_connection(log, at, name))?;
    let (_, at) = tell(log, at, Request::HangUp)?;
    match failed {
        Some(c) => Err(Pause::Fail(c, at)),
        None => Ok(((), at)),
    }
}

/// Waits a tenth of a second, and looks for the device on the host.
pub open spec fn spec_look_for_device(log: Log, at: int, vid: Seq<char>, pid: Seq<char>) -> Outcome<
    Option<(Seq<char>, Seq<char>)>,
> {
    bind(
        spec_tell(log, at, RequestView::Pause(100)),
        |_done: (), at: int|
            bind(
                spec_attempt(spec_find_usb_device(log, at, vid, pid, true)),
                |place: Option<Option<(Seq<char>, Seq<char>)>>, at: int|
                    match place {
                        Some(place) => Outcome::Ready(place, at),
                        None => Outcome::Ready(None, at),
                    },
            ),
    )
}

fn look_for_device(log: &Vec<Reply>, at: usize, vid: &str, pid: &str) -> (r: Step<
    Option<(String, String)>,
>)
    ensures
        outcome(r) == spec_look_for_device(log.deep_view(), at as int, vid@, pid@),
{
    let (_, at) = tell(log, at, Request::Pause(100))?;
    let (place, at) = attempt(find_any_device(log, at, vid, pid))?;
    match place {
        Some(place) => Ok((place, at)),
        None => Ok((None, at)),
    }
}

/// Waits until the device is on the host, looking every tenth of a second and
/// at most `tries` times.
pub open spec fn spec_await_device(
    log: Log,
    at: int,
    vid: Seq<char>,
    pid: Seq<char>,
    tries: int,
) -> Outcome<Option<(Seq<char>, Seq<char>)>>
    decreases tries,
{
    if tries <= 0 {
        Outcome::Ready(None, at)
    } else {
        match spec_look_for_device(log, at, vid, pid) {
            Outcome::Ask(rq) => Outcome::Ask(rq),
            Outcome::Fail(c, n) => Outcome::Fail(c, n),
            Outcome::Ready(Some(place), n) => Outcome::Ready(Some(place), n),
            Outcome::Ready(None, n) => spec_await_device(log, n, vid, pid, tries - 1),
        }
    }
}

fn await_device(log: &Vec<Reply>, at: usize, vid: &str, pid: &str) -> (r: Step<
    Option<(String, String)>,
>)
    ensures
        outcome(r) == spec_await_device(log.deep_view(), at as int, vid@, pid@, 50),
{
    let mut tries: usize = 50;
    let mut next: usize = at;
    while tries > 0
        invariant
            spec_await_device(log.deep_view(), next as int, vid@, pid@, tries as int)
                == spec_await_device(log.deep_view(), at as int, vid@, pid@, 50),
        decreases tries,
    {
        let (place, n) = look_for_device(log, next, vid, pid)?;
        if place.is_some() {
            return Ok((place, n));
        }
        next = n;
        tries = tries - 1;
    }
    Ok((None, next))
}

/// The file of a USB device.
pub open spec fn usb_file(bus: Seq<char>, device: Seq<char>) -> Seq<char> {
    "/dev/bus/usb/"@ + bus + "/"@ + device
}

/// The file of a USB device.
pub fn usb_device_file(bus: &str, device: &str) -> (r: String)
    ensures
        r@ == usb_file(bus@, device@),
{
    plus(plus(plus("/dev/bus/usb/".to_string(), bus), "/"), device)
}

/// Waits for the device to appear on the host, readies it, and hands it to the
/// virtual machine. A device that does not appear is unplugged again.
pub open spec fn spec_pass_on(log: Log, at: int, vm_name: Seq<char>, device: HidView) -> Outcome<
    (),
> {
    let vid = normalized(device.vid);
    let pid = normalized(device.pid);
    bind(
        spec_await_device(log, at, vid, pid, 50),
        |place: Option<(Seq<char>, Seq<char>)>, at: int|
            match place {
                None => bind(
                    spec_attempt(spec_detach_vhci(log, at, device.name)),
                    |_done: Option<()>, at: int|
                        failure(
                            at,
                            "Device "@ + id_text(device.vid, device.pid)
                                + " did not appear on the host USB bus after vhci attachment"@,
                        ),
                ),
                Some(place) => bind(
                    spec_tell(
                        log,
                        at,
                        RequestView::RunQuietly(seq!["udevadm"@, "settle"@, "--timeout=3"@]),
                    ),
                    |_done: (), at: int|
                        bind(
                            spec_tell(
                                log,
                                at,
                                RequestView::ClearHalt(usb_file(place.0, place.1), 0x81),
                            ),
                            |_done: (), at: int|
                                spec_attach_device(Front::Tool, log, at, vm_name, vid, pid),
                        ),
                ),
            },
    )
}

fn pass_on(log: &Vec<Reply>, at: usize, vm_name: &str, device: &HidDevice) -> (r: Step<()>)
    ensures
        outcome(r) == spec_pass_on(log.deep_view(), at as int, vm_name@, device.deep_view()),
{
    let vid = normalize_hex_id(device.vid.as_str());
    let pid = normalize_hex_id(device.pid.as_str());
    let (place, at) = await_device(log, at, vid.as_str(), pid.as_str())?;
    match place {
        None => {
            let (_, at) = attempt(detach_vhci(log, at, device.name.as_str()))?;
            let ids = join_ids(device.vid.as_str(), device.pid.as_str());
            fail(
                at,
                plus(
                    plus("Device ".to_string(), ids.as_str()),
                    " did not appear on the host USB bus after vhci attachment",
                ).as_str(),
            )
        },
        Some((bus, dev)) => {
            let (_, at) = tell(
                log,
                at,
                Request::RunQuietly(words3("udevadm", "settle", "--timeout=3")),
            )?;
            let (_, at) = tell(
                log,
                at,
                Request::ClearHalt(usb_device_file(bus.as_str(), dev.as_str()), 0x81),
            )?;
            attach_device(Front::Tool, log, at, vm_name, vid.as_str(), pid.as_str())
        },
    }
}

/// Brings the device from its daemon to the virtual machine.
pub open spec fn spec_bring_over(log: Log, at: int, vm_name: Seq<char>, device: HidView) -> Outcome<
    (),
> {
    bind(
        spec_connect_device(log, at, device.name),
        |_done: (), at: int| spec_pass_on(log, at, vm_name, device),
    )
}

fn bring_over(log: &Vec<Reply>, at: usize, vm_name: &str, device: &HidDevice) -> (r: Step<()>)
    ensures
        outcome(r) == spec_bring_over(log.deep_view(), at as int, vm_name@, device.deep_view()),
{
    let (_, at) = connect_device(log, at, device.name.as_str())?;
    pass_on(log, at, vm_name, device)
}

/// Attaches a HID device to a running virtual machine, unless it is attached
/// already.
pub open spec fn spec_attach_hid_device(
    log: Log,
    at: int,
    vm_name: Seq<char>,
    device_name: Seq<char>,
) -> Outcome<()> {
    bind(
        spec_load_hid_devices(log, at),
        |hids: Seq<HidView>, at: int|
            match hid_named(hids, device_name) {
                None => failure(at, no_hid(device_name)),
                Some(k) => bind(
                    spec_check_vm_unpaused(log, at, vm_name),
                    |running: bool, at: int|
                        if !running {
                            failure(at, not_running(vm_name))
                        } else {
                            bind(
                                spec_is_hid_device_attached(log, at, vm_name, hids[k]),
                                |attached: bool, at: int|
                                    if attached {
                                        spec_say(
                                            log,
                                            at,
                                            line().push(
                                                plain(
                                                    "HID device '"@ + device_name
                                                        + "' is already attached to "@ + vm_name,
                                                ),
                                            ),
                                        )
                                    } else {
                                        spec_hand_hid(log, at, vm_name, hids[k])
                                    },
                            )
                        },
                ),
            },
    )
}

/// Starts the daemon and brings its device to the virtual machine; if that
/// fails, the daemon is stopped.
pub open spec fn spec_hand_hid(log: Log, at: int, vm_name: Seq<char>, device: HidView) -> Outcome<
    (),
> {
    bind(
        in_context(
            spec_run_command(log, at, seq!["modprobe"@, "vhci-hcd"@]),
            "Failed to load vhci-hcd module — make sure it's available"@,
        ),
        |_out: Seq<char>, at: int|
            bind(
                spec_start_hid_daemon(log, at, device.name, device.vid, device.pid),
                |_done: (), at: int|
                    bind(
                        spec_fault(spec_bring_over(log, at, vm_name, device)),
                        |failed: Option<Chain>, at: int|
                            match failed {
                                None => Outcome::Ready((), at),
                                Some(c) => bind(
                                    spec_stop_hid_daemon(log, at, device.name),
                                    |_done: (), at: int| Outcome::Fail(c, at),
                                ),
                            },
                    ),
            ),
    )
}

fn hand_hid(log: &Vec<Reply>, at: usize, vm_name: &str, device: &HidDevice) -> (r: Step<()>)
    ensures
        outcome(r) == spec_hand_hid(log.deep_view(), at as int, vm_name@, device.deep_view()),
{
    let (_, at) = context(
        run_command(log, at, words2("modprobe", "vhci-hcd")),
        "Failed to load vhci-hcd module — make sure it's available",
    )?;
    let (_, at) = start_hid_daemon(
        log,
        at,
        device.name.as_str(),
        device.vid.as_str(),
        device.pid.as_str(),
    )?;
    let (failed, at) = fault(bring_over(log, at, vm_name, device))?;
    match failed {
        None => Ok(((), at)),
        Some(c) => {
            let (_, at) = stop_hid_daemon(log, at, device.name.as_str())?;
            Err(Pause::Fail(c, at))
        },
    }
}

/// Attaches a HID device to a running virtual machine, unless it is attached
/// already.
pub fn attach_hid_device(
    log: &Vec<Reply>,
    at: usize,
    vm_name: &str,
    device_name: &str,
) -> (r: Step<()>)
    ensures
        outcome(r) == spec_attach_hid_device(log.deep_view(), at as int, vm_name@, device_name@),
{
    let (hids, at) = load_hid_devices(log, at)?;
    match find_hid(&hids, device_name) {
        None => fail(at, no_hid_message(device_name).as_str()),
        Some(k) => {
            assert(hids.deep_view()[k as int] == hids@[k as int].deep_view());
            let (running, at) = check_vm_unpaused(log, at, vm_name)?;
            if !running {
                return fail(at, not_running_message(vm_name).as_str());
            }
            let (attached, at) = is_hid_device_attached(log, at, vm_name, &hids[k])?;
            if attached {
                let start = plus("HID device '".to_string(), device_name);
                let text = plus(plus(start, "' is already attached to "), vm_name);
                return say(log, at, Line::new().plain(text.as_str()));
            }
            hand_hid(log, at, vm_name, &hids[k])
        },
    }
}

// ---------------------------------------------------------------------------
// Detaching and status
// ---------------------------------------------------------------------------

/// Detaches a HID device from a running virtual machine and stops its daemon,
/// if it is attached or its daemon runs.
pub open spec fn spec_detach_hid_device(
    log: Log,
    at: int,
    vm_name: Seq<char>,
    device_name: Seq<char>,
) -> Outcome<()> {
    bind(
        spec_load_hid_devices(log, at),
        |hids: Seq<HidView>, at: int|
            match hid_named(hids, device_name) {
                None => failure(at, no_hid(device_name)),
                Some(k) => bind(
                    spec_check_vm_unpaused(log, at, vm_name),
                    |running: bool, at: int|
                        if !running {
                            failure(at, not_running(vm_name))
                        } else {
                            spec_take_hid(log, at, vm_name, hids[k])
                        },
                ),
            },
    )
}

/// Detaches a HID device and stops its daemon, if it is attached or its daemon
/// runs.
pub open spec fn spec_take_hid(log: Log, at: int, vm_name: Seq<char>, device: HidView) -> Outcome<
    (),
> {
    bind(
        spec_is_device_attached(
            log,
            at,
            vm_name,
            normalized(device.vid),
            normalized(device.pid),
        ),
        |attached: bool, at: int|
            if attached {
                spec_release_hid(log, at, vm_name, device)
            } else {
                bind(
                    spec_is_hid_daemon_running(log, at, device.name),
                    |active: bool, at: int|
                        if active {
                            spec_release_hid(log, at, vm_name, device)
                        } else {
                            spec_say(
                                log,
                                at,
                                line().push(
                                    plain(
                                        "HID device '"@ + device.name + "' is not attached to "@
                                            + vm_name,
                                    ),
                                ),
                            )
                        },
                )
            },
    )
}

/// Takes a HID device from the virtual machine, unplugs it, and stops its
/// daemon.
pub open spec fn spec_release_hid(log: Log, at: int, vm_name: Seq<char>, device: HidView) -> Outcome<
    (),
> {
    let vid = normalized(device.vid);
    let pid = normalized(device.pid);
    bind(
        bind(
            spec_is_device_attached(log, at, vm_name, vid, pid),
            |attached: bool, at: int|
                if attached {
                    spec_detach_device(Front::Tool, log, at, vm_name, vid, pid)
                } else {
                    Outcome::Ready((), at)
                },
        ),
        |_done: (), at: int|
            bind(
                spec_detach_vhci(log, at, device.name),
                |_done: (), at: int|
                    bind(
                        spec_stop_hid_daemon(log, at, device.name),
                        |_done: (), at: int|
                            spec_say(log, at, hid_released_line(device.name, vm_name)),
                    ),
            ),
    )
}

/// What is said when a HID device has been taken back.
pub open spec fn hid_released_line(name: Seq<char>, vm_name: Seq<char>) -> Seq<SpanView> {
    line().push(bold_green("✓"@)).push(plain(" Detached HID device "@)).push(cyan(name)).push(
        plain(" from "@),
    ).push(yellow(vm_name))
}

fn release_hid(log: &Vec<Reply>, at: usize, vm_name: &str, device: &HidDevice) -> (r: Step<()>)
    ensures
        outcome(r) == spec_release_hid(log.deep_view(), at as int, vm_name@, device.deep_view()),
{
    let vid = normalize_hex_id(device.vid.as_str());
    let pid = normalize_hex_id(device.pid.as_str());
    let (attached, at) = is_device_attached(log, at, vm_name, vid.as_str(), pid.as_str())?;
    let at: usize = if attached {
        let (_, at) = detach_device(Front::Tool, log, at, vm_name, vid.as_str(), pid.as_str())?;
        at
    } else {
        at
    };
    let (_, at) = detach_vhci(log, at, device.name.as_str())?;
    let (_, at) = stop_hid_daemon(log, at, device.name.as_str())?;
    say(
        log,
        at,
        Line::new().bold_green("✓").plain(" Detached HID device ").cyan(
            device.name.as_str(),
        ).plain(" from ").yellow(vm_name),
    )
}

/// Detaches a HID device from a running virtual machine and stops its daemon,
/// if it is attached or its daemon runs.
pub fn detach_hid_device(
    log: &Vec<Reply>,
    at: usize,
    vm_name: &str,
    device_name: &str,
) -> (r: Step<()>)
    ensures
        outcome(r) == spec_detach_hid_device(log.deep_view(), at as int, vm_name@, device_name@),
{
    let (hids, at) = load_hid_devices(log, at)?;
    match find_hid(&hids, device_name) {
        None => fail(at, no_hid_message(device_name).as_str()),
        Some(k) => {
            let device = &hids[k];
            assert(hids.deep_view()[k as int] == device.deep_view());
            let (running, at) = check_vm_unpaused(log, at, vm_name)?;
            if !running {
                return fail(at, not_running_message(vm_name).as_str());
            }
            let vid = normalize_hex_id(device.vid.as_str());
            let pid = normalize_hex_id(device.pid.as_str());
            let (attached, at) = is_device_attached(log, at, vm_name, vid.as_str(), pid.as_str())?;
            if attached {
                return release_hid(log, at, vm_name, device);
            }
            let (active, at) = is_hid_daemon_running(log, at, device.name.as_str())?;
            if active {
                return release_hid(log, at, vm_name, device);
            }
            let start = plus("HID device '".to_string(), device.name.as_str());
            let text = plus(plus(start, "' is not attached to "), vm_name);
            say(log, at, Line::new().plain(text.as_str()))
        },
    }
}

/// What is said of a HID device and its daemon.
pub open spec fn hid_state_line(device: HidView, active: bool) -> Seq<SpanView> {
    line().push(cyan("⌨"@)).push(plain(" HID Device ("@)).push(cyan(device.name)).push(
        plain("): "@ + id_text(device.vid, device.pid) + "  daemon: "@),
    ).push(
        if active {
            green("active"@)
        } else {
            dim("inactive"@)
        },
    )
}

/// Tells of the virtual machine, of the HID device, and, if the former runs, of
/// the latter's attachment.
pub open spec fn spec_show_hid_status(
    log: Log,
    at: int,
    vm_name: Seq<char>,
    device_name: Seq<char>,
) -> Outcome<()> {
    bind(
        spec_load_hid_devices(log, at),
        |hids: Seq<HidView>, at: int|
            match hid_named(hids, device_name) {
                None => failure(at, no_hid(device_name)),
                Some(k) => bind(
                    spec_check_vm_running(log, at, vm_name),
                    |running: bool, at: int|
                        bind(
                            spec_say(log, at, vm_line(vm_name, running)),
                            |_done: (), at: int|
                                spec_show_hid_state(log, at, vm_name, hids[k], running),
                        ),
                ),
            },
    )
}

/// Tells of the HID device, and, if the virtual machine runs, of its
/// attachment.
pub open spec fn spec_show_hid_state(
    log: Log,
    at: int,
    vm_name: Seq<char>,
    device: HidView,
    running: bool,
) -> Outcome<()> {
    bind(
        spec_is_hid_daemon_running(log, at, device.name),
        |active: bool, at: int|
            bind(
                spec_say(log, at, hid_state_line(device, active)),
                |_done: (), at: int|
                    if running {
                        bind(
                            spec_is_hid_device_attached(log, at, vm_name, device),
                            |attached: bool, at: int|
                                spec_say(log, at, attachment_line(attached)),
                        )
                    } else {
                        Outcome::Ready((), at)
                    },
            ),
    )
}

/// Tells of the virtual machine, of the HID device, and, if the former runs, of
/// the latter's attachment.
pub fn show_hid_status(
    log: &Vec<Reply>,
    at: usize,
    vm_name: &str,
    device_name: &str,
) -> (r: Step<()>)
    ensures
        outcome(r) == spec_show_hid_status(log.deep_view(), at as int, vm_name@, device_name@),
{
    let (hids, at) = load_hid_devices(log, at)?;
    match find_hid(&hids, device_name) {
        None => fail(at, no_hid_message(device_name).as_str()),
        Some(k) => {
            let device = &hids[k];
            assert(hids.deep_view()[k as int] == device.deep_view());
            let (running, at) = check_vm_running(log, at, vm_name)?;
            let (_, at) = say(log, at, build_vm_line(vm_name, running))?;
            let (active, at) = is_hid_daemon_running(log, at, device.name.as_str())?;
            let ids = join_ids(device.vid.as_str(), device.pid.as_str());
            let text = plus(plus("): ".to_string(), ids.as_str()), "  daemon: ");
            let start = Line::new().cyan("⌨").plain(" HID Device (").cyan(
                device.name.as_str(),
            ).plain(text.as_str());
            let state = if active {
                start.green("active")
            } else {
                start.dim("inactive")
            };
            let (_, at) = say(log, at, state)?;
            if running {
                let (attached, at) = is_hid_device_attached(log, at, vm_name, device)?;
                say(log, at, build_attachment_line(attached))
            } else {
                Ok(((), at))
            }
        },
    }
}

// ---------------------------------------------------------------------------
// Typing
// ---------------------------------------------------------------------------

/// What is typed: the text, and Enter behind it unless that is unwanted.
pub open spec fn typed(text: Seq<char>, no_enter: bool) -> Seq<char> {
    if no_enter {
        text
    } else {
        text.push('\r')
    }
}

/// What is said when a text has been typed.
pub open spec fn typed_line(count: int, device_name: Seq<char>, vm_name: Seq<char>) -> Seq<
    SpanView,
> {
    line().push(bold_green("✓"@)).push(
        plain(" Typed "@ + decimal(count) + " character(s) via "@),
    ).push(cyan(device_name)).push(plain(" to "@)).push(yellow(vm_name))
}

/// Types a text into a running virtual machine over a HID device that it has.
pub open spec fn spec_hid_type(
    log: Log,
    at: int,
    vm_name: Seq<char>,
    device_name: Seq<char>,
    text: Seq<char>,
    no_enter: bool,
) -> Outcome<()> {
    bind(
        spec_check_vm_running(log, at, vm_name),
        |running: bool, at: int|
            if !running {
                failure(at, not_running(vm_name))
            } else {
                bind(
                    spec_load_hid_devices(log, at),
                    |hids: Seq<HidView>, at: int|
                        match hid_named(hids, device_name) {
                            None => failure(at, no_hid(device_name)),
                            Some(k) => bind(
                                spec_is_hid_device_attached(log, at, vm_name, hids[k]),
                                |attached: bool, at: int|
                                    if !attached {
                                        failure(
                                            at,
                                            "HID device '"@ + device_name
                                                + "' is not attached to VM '"@ + vm_name
                                                + "'. Attach it first."@,
                                        )
                                    } else {
                                        spec_send_text(
                                            log,
                                            at,
                                            vm_name,
                                            device_name,
                                            text,
                                            no_enter,
                                        )
                                    },
                            ),
                        },
                )
            },
    )
}

/// Sends a text to the daemon behind a HID device.
pub open spec fn spec_send_text(
    log: Log,
    at: int,
    vm_name: Seq<char>,
    device_name: Seq<char>,
    text: Seq<char>,
    no_enter: bool,
) -> Outcome<()> {
    bind(
        spec_hid_sock_file(log, at, device_name),
        |sock_file: Seq<char>, at: int|
            bind(
                in_context(
                    spec_ask_done(log, at, RequestView::ConnectSocket(sock_file)),
                    "Failed to connect to HID daemon socket"@,
                ),
                |_done: (), at: int|
                    bind(
                        in_context(
                            spec_ask_done(
                                log,
                                at,
                                RequestView::Send(encode_utf8(typed(text, no_enter))),
                            ),
                            "Failed to send text to HID daemon"@,
                        ),
                        |_done: (), at: int|
                            spec_say(
                                log,
                                at,
                                typed_line(text.len() as int, device_name, vm_name),
                            ),
                    ),
            ),
    )
}

fn send_text(
    log: &Vec<Reply>,
    at: usize,
    vm_name: &str,
    device_name: &str,
    text: &str,
    no_enter: bool,
) -> (r: Step<()>)
    ensures
        outcome(r) == spec_send_text(
            log.deep_view(),
            at as int,
            vm_name@,
            device_name@,
            text@,
            no_enter,
        ),
{
    let (sock_file, at) = hid_sock_file(log, at, device_name)?;
    let (_, at) = context(
        ask_done(log, at, Request::ConnectSocket(sock_file)),
        "Failed to connect to HID daemon socket",
    )?;
    let mut payload = text.to_string();
    if !no_enter {
        payload.push('\r');
    }
    let (_, at) = context(
        ask_done(log, at, Request::Send(payload.as_str().as_bytes_vec())),
        "Failed to send text to HID daemon",
    )?;
    let count: usize = text.unicode_len();
    let told = plus(
        plus(" Typed ".to_string(), to_decimal(count as u64).as_str()),
        " character(s) via ",
    );
    say(
        log,
        at,
        Line::new().bold_green("✓").plain(told.as_str()).cyan(device_name).plain(" to ").yellow(
            vm_name,
        ),
    )
}

/// Types a text into a running virtual machine over a HID device that it has.
pub fn hid_type(
    log: &Vec<Reply>,
    at: usize,
    vm_name: &str,
    device_name: &str,
    text: &str,
    no_enter: bool,
) -> (r: Step<()>)
    ensures
        outcome(r) == spec_hid_type(
            log.deep_view(),
            at as int,
            vm_name@,
            device_name@,
            text@,
            no_enter,
        ),
{
    let (running, at) = check_vm_running(log, at, vm_name)?;
    if !running {
        return fail(at, not_running_message(vm_name).as_str());
    }
    let (hids, at) = load_hid_devices(log, at)?;
    match find_hid(&hids, device_name) {
        None => fail(at, no_hid_message(device_name).as_str()),
        Some(k) => {
            assert(hids.deep_view()[k as int] == hids@[k as int].deep_view());
            let (attached, at) = is_hid_device_attached(log, at, vm_name, &hids[k])?;
            if !attached {
                let start = plus("HID device '".to_string(), device_name);
                let vm = plus(plus(start, "' is not attached to VM '"), vm_name);
                return fail(at, plus(vm, "'. Attach it first.").as_str());
            }
            send_text(log, at, vm_name, device_name, text, no_enter)
        },
    }
}

// ---------------------------------------------------------------------------
// Laws
// ---------------------------------------------------------------------------

/// When the list of HID devices is to be kept after making one, it is the list
/// from before with one device more: with the given ids, under the sanitized
/// name, which is valid; and if all names were distinct, they still are.
pub proof fn law_made_hid_is_listed(
    log: Log,
    at: int,
    name: Seq<char>,
    vid: Seq<char>,
    pid: Seq<char>,
    hids: Seq<HidView>,
    n: int,
    drives: Seq<DriveView>,
    m: int,
    kept: Seq<HidView>,
)
    requires
        spec_load_hid_devices(log, at) == Outcome::Ready(hids, n),
        spec_load_virtual_drives(log, n) == Outcome::Ready(drives, m),
        spec_create_hid_device(log, at, name, vid, pid) == Outcome::<()>::Ask(
            RequestView::EncodeHids(kept),
        ),
    ensures
        kept == hids.push(HidView { name: sanitized(name), vid, pid }),
        valid_name(sanitized(name)) && sanitized(name).len() > 0,
        hid_named(kept, sanitized(name)) == Some(hids.len() as int),
        names_distinct(drives, hids) ==> names_distinct(drives, kept),
{
    law_sanitized_is_valid(name);
    let hid = HidView { name: sanitized(name), vid, pid };
    if names_distinct(drives, hids) {
        law_new_hid_keeps_names_distinct(drives, hids, hid);
    }
    law_deleting_undoes_making(
        seq![],
        DriveView { name: seq![], size: seq![], created_at_secs: 0 },
        hids,
        hid,
    );
}

/// A name that a virtual device has is refused, and so is one of which nothing
/// is left; the list is not touched then.
pub proof fn law_taken_hid_name_is_refused(
    log: Log,
    at: int,
    name: Seq<char>,
    vid: Seq<char>,
    pid: Seq<char>,
    hids: Seq<HidView>,
    n: int,
    drives: Seq<DriveView>,
    m: int,
)
    requires
        spec_load_hid_devices(log, at) == Outcome::Ready(hids, n),
        spec_load_virtual_drives(log, n) == Outcome::Ready(drives, m),
    ensures
        name.len() == 0 ==> spec_create_hid_device(log, at, name, vid, pid) == failure::<()>(
            at,
            "Device name cannot be empty"@,
        ),
        name.len() > 0 && sanitized(name).len() == 0 ==> spec_create_hid_device(
            log,
            at,
            name,
            vid,
            pid,
        ) == failure::<()>(at, "Device name is empty after sanitization"@),
        sanitized(name).len() > 0 && hid_named(hids, sanitized(name)) is Some
            ==> spec_create_hid_device(log, at, name, vid, pid) == failure::<()>(
            n,
            hid_exists(sanitized(name)),
        ),
        sanitized(name).len() > 0 && hid_named(hids, sanitized(name)) is None && drive_named(
            drives,
            sanitized(name),
        ) is Some ==> spec_create_hid_device(log, at, name, vid, pid) == failure::<()>(
            m,
            name_of_drive(sanitized(name)),
        ),
{
    if name.len() == 0 {
        law_valid_name_unchanged(name);
    }
}

/// The host has been asked whether the HID device is attached to the virtual
/// machine, and said that it is not.
pub open spec fn found_free(log: Log, vm_name: Seq<char>, device: HidView) -> bool {
    exists|p: int|
        (#[trigger] spec_is_hid_device_attached(log, p, vm_name, device)) matches Outcome::Ready(
            attached,
            _,
        ) && !attached
}

proof fn lemma_vm_with_hid(
    log: Log,
    at: int,
    device: HidView,
    vms: Seq<Seq<char>>,
    i: int,
    kept: Seq<HidView>,
)
    requires
        0 <= i,
    ensures
        spec_vm_with_hid(log, at, device, vms, i) != Outcome::<Option<Seq<char>>>::Ask(
            RequestView::EncodeHids(kept),
        ),
        spec_vm_with_hid(log, at, device, vms, i) matches Outcome::Ready(None, n) ==> forall|j: int|
            i <= j < vms.len() ==> #[trigger] found_free(log, vms[j], device),
    decreases vms.len() - i,
{
    if i < vms.len() {
        if let Outcome::Ready(attached, next) = spec_is_hid_device_attached(
            log,
            at,
            vms[i],
            device,
        ) {
            if !attached {
                assert(found_free(log, vms[i], device));
            }
            lemma_vm_with_hid(log, next, device, vms, i + 1, kept);
        }
    }
}

/// When the list of HID devices is to be kept after deleting one, it is the list
/// from before without the device of that name; and no active virtual machine
/// had it.
pub proof fn law_deleted_hid_was_free(
    log: Log,
    at: int,
    name: Seq<char>,
    hids: Seq<HidView>,
    n: int,
    kept: Seq<HidView>,
)
    requires
        spec_load_hid_devices(log, at) == Outcome::Ready(hids, n),
        spec_delete_hid_device(log, at, name) == Outcome::<()>::Ask(RequestView::EncodeHids(kept)),
    ensures
        hid_named(hids, name) matches Some(k) && kept == hids_without(hids, k) && (
        spec_active_vms(log, n) matches Outcome::Ready(vms, m) && forall|j: int|
            0 <= j < vms.len() ==> #[trigger] found_free(log, vms[j], hids[k])),
{
    if let Some(k) = hid_named(hids, name) {
        if let Outcome::Ready(vms, m) = spec_active_vms(log, n) {
            lemma_vm_with_hid(log, m, hids[k], vms, 0, kept);
        }
    }
}

/// A HID device that an active virtual machine has is not deleted: the user is
/// told to detach it first.
pub proof fn law_hid_in_use_is_refused(
    log: Log,
    at: int,
    name: Seq<char>,
    hids: Seq<HidView>,
    n: int,
    k: int,
    vms: Seq<Seq<char>>,
    m: int,
    vm: Seq<char>,
    q: int,
)
    requires
        spec_load_hid_devices(log, at) == Outcome::Ready(hids, n),
        hid_named(hids, name) == Some(k),
        spec_active_vms(log, n) == Outcome::Ready(vms, m),
        spec_vm_with_hid(log, m, hids[k], vms, 0) == Outcome::Ready(Some(vm), q),
    ensures
        spec_delete_hid_device(log, at, name) == failure::<()>(q, hid_in_use(name, vm)),
{
}

proof fn lemma_await_port_asks(log: Log, at: int, name: Seq<char>, tries: int)
    ensures
        spec_await_port(log, at, name, tries) matches Outcome::Ask(rq) ==> !(rq is Run),
    decreases tries,
{
    if tries > 0 {
        if let Outcome::Ready(there, n) = spec_look_for_port(log, at, name) {
            lemma_await_port_asks(log, n, name, tries - 1);
        }
    }
}

proof fn lemma_start_asks(log: Log, at: int, name: Seq<char>, vid: Seq<char>, pid: Seq<char>)
    ensures
        spec_start_hid_daemon(log, at, name, vid, pid) matches Outcome::Ask(rq) ==> !(rq is Run),
{
    if let Outcome::Ready(running, n) = spec_is_hid_daemon_running(log, at, name) {
        if let Outcome::Ready(_, m) = spec_spawn_hid_daemon(log, n, name, vid, pid) {
            lemma_await_port_asks(log, m, name, 50);
        }
    }
}

/// The request runs a program with as many words as those have that change the
/// devices of a virtual machine.
spec fn runs_five_words(rq: RequestView) -> bool {
    rq matches RequestView::Run(args) && args.len() == 5
}

proof fn lemma_hid_checks_ask(log: Log, at: int, vm_name: Seq<char>, rq: RequestView)
    requires
        runs_five_words(rq),
    ensures
        spec_check_vm_unpaused(log, at, vm_name) != Outcome::<bool>::Ask(rq),
        spec_check_vm_unpaused(log, at, vm_name) matches Outcome::Ready(_, n) ==> n == at + 1,
        forall|p: int, device: HidView|
            #[trigger] spec_is_hid_device_attached(log, p, vm_name, device) != Outcome::<bool>::Ask(
                rq,
            ),
{
    assert(list_unpaused().len() == 4);
    assert(dumpxml(vm_name).len() == 3);
}

proof fn lemma_hand_hid_asks(
    log: Log,
    at: int,
    vm_name: Seq<char>,
    device: HidView,
    rq: RequestView,
)
    requires
        runs_five_words(rq),
        spec_hand_hid(log, at, vm_name, device) == Outcome::<()>::Ask(rq),
    ensures
        spec_run_command(log, at, seq!["modprobe"@, "vhci-hcd"@]) is Ready,
        spec_start_hid_daemon(log, at + 1, device.name, device.vid, device.pid) is Ready,
{
    assert(seq!["modprobe"@, "vhci-hcd"@].len() == 2);
    lemma_start_asks(log, at + 1, device.name, device.vid, device.pid);
}

/// The host is asked to attach a HID device only after the virtual machine was
/// found to run and not to have it, the kernel's module was loaded, and the
/// device's daemon was found or made ready.
pub proof fn law_hid_attached_only_when_free(
    log: Log,
    at: int,
    vm_name: Seq<char>,
    device_name: Seq<char>,
    hids: Seq<HidView>,
    n: int,
)
    requires
        spec_load_hid_devices(log, at) == Outcome::Ready(hids, n),
        spec_attach_hid_device(log, at, vm_name, device_name) == Outcome::<()>::Ask(
            RequestView::Run(
                device_command("attach-device"@, vm_name, "/tmp/virsh-usb-attach.xml"@),
            ),
        ),
    ensures
        hid_named(hids, device_name) matches Some(k) && spec_check_vm_unpaused(log, n, vm_name)
            == Outcome::Ready(true, n + 1) && (spec_is_hid_device_attached(
            log,
            n + 1,
            vm_name,
            hids[k],
        ) matches Outcome::Ready(attached, p) && !attached && spec_run_command(
            log,
            p,
            seq!["modprobe"@, "vhci-hcd"@],
        ) is Ready && spec_start_hid_daemon(
            log,
            p + 1,
            hids[k].name,
            hids[k].vid,
            hids[k].pid,
        ) is Ready),
{
    let rq = RequestView::Run(
        device_command("attach-device"@, vm_name, "/tmp/virsh-usb-attach.xml"@),
    );
    lemma_hid_checks_ask(log, n, vm_name, rq);
    if let Some(k) = hid_named(hids, device_name) {
        if let Outcome::Ready(attached, p) = spec_is_hid_device_attached(
            log,
            n + 1,
            vm_name,
            hids[k],
        ) {
            if !attached {
                lemma_hand_hid_asks(log, p, vm_name, hids[k], rq);
            }
        }
    }
}

/// If a HID device cannot be brought to the virtual machine once its daemon
/// runs, the daemon is stopped before the failure is told.
pub proof fn law_failed_attach_stops_the_daemon(
    log: Log,
    at: int,
    vm_name: Seq<char>,
    device: HidView,
    c: Chain,
    n: int,
)
    requires
        spec_hand_hid(log, at, vm_name, device) == Outcome::<()>::Fail(c, n),
        spec_start_hid_daemon(log, at + 1, device.name, device.vid, device.pid) is Ready,
        spec_run_command(log, at, seq!["modprobe"@, "vhci-hcd"@]) is Ready,
    ensures
        exists|q: int|
            #[trigger] spec_stop_hid_daemon(log, q, device.name) == Outcome::<()>::Ready((), n)
                && spec_bring_over(
                log,
                spec_start_hid_daemon(log, at + 1, device.name, device.vid, device.pid)->Ready_1,
                vm_name,
                device,
            ) == Outcome::<()>::Fail(c, q),
{
    let m = spec_start_hid_daemon(log, at + 1, device.name, device.vid, device.pid)->Ready_1;
    if let Outcome::Fail(d, q) = spec_bring_over(log, m, vm_name, device) {
        law_stopping_never_fails(log, q, device.name);
        assert(spec_stop_hid_daemon(log, q, device.name) == Outcome::<()>::Ready((), n));
    }
}

/// What is typed arrives: the bytes that are sent to the daemon are the text
/// that was meant, and the reports that the daemon makes of them hold exactly
/// those bytes.
pub proof fn law_typed_text_arrives(text: Seq<char>, no_enter: bool)
    ensures
        valid_utf8(encode_utf8(typed(text, no_enter))),
        decode_utf8(encode_utf8(typed(text, no_enter))) == typed(text, no_enter),
        scan_reports(encode_utf8(typed(text, no_enter))) == reports_of(
            encode_utf8(typed(text, no_enter)),
        ),
{
    encode_utf8_valid_utf8(typed(text, no_enter));
    encode_utf8_decode_utf8(typed(text, no_enter));
}

/// Enter is typed behind the text unless that is unwanted, and nothing else is
/// added or lost.
pub proof fn law_enter_is_appended(text: Seq<char>)
    ensures
        typed(text, true) == text,
        typed(text, false).len() == text.len() + 1,
        typed(text, false).last() == '\r',
        typed(text, false).drop_last() == text,
{
    assert(typed(text, false).drop_last() =~= text);
}

/// A virtual machine that does not run gets no HID device, loses none, and is
/// not typed into: the user is told, and the host is asked for nothing more.
pub proof fn law_stopped_vm_keeps_its_hids(
    log: Log,
    at: int,
    vm_name: Seq<char>,
    device_name: Seq<char>,
    hids: Seq<HidView>,
    n: int,
    text: Seq<char>,
    no_enter: bool,
)
    requires
        spec_load_hid_devices(log, at) == Outcome::Ready(hids, n),
        hid_named(hids, device_name) is Some,
        spec_check_vm_unpaused(log, n, vm_name) == Outcome::Ready(false, n + 1),
    ensures
        spec_attach_hid_device(log, at, vm_name, device_name) == failure::<()>(
            n + 1,
            not_running(vm_name),
        ),
        spec_detach_hid_device(log, at, vm_name, device_name) == failure::<()>(
            n + 1,
            not_running(vm_name),
        ),
        spec_hid_type(log, n, vm_name, device_name, text, no_enter) == failure::<()>(
            n + 1,
            not_running(vm_name),
        ),
{
}

/// Text is sent only over a HID device that the virtual machine was found to
/// have.
pub proof fn law_text_needs_an_attached_device(
    log: Log,
    at: int,
    vm_name: Seq<char>,
    device_name: Seq<char>,
    text: Seq<char>,
    no_enter: bool,
    data: Seq<u8>,
)
    requires
        spec_hid_type(log, at, vm_name, device_name, text, no_enter) == Outcome::<()>::Ask(
            RequestView::Send(data),
        ),
    ensures
        data == encode_utf8(typed(text, no_enter)),
        spec_check_vm_running(log, at, vm_name) == Outcome::Ready(true, at + 1),
        spec_load_hid_devices(log, at + 1) matches Outcome::Ready(hids, n) && (hid_named(
            hids,
            device_name,
        ) matches Some(k) && (spec_is_hid_device_attached(
            log,
            n,
            vm_name,
            hids[k],
        ) matches Outcome::Ready(attached, _) && attached)),
{
}

} // verus!
