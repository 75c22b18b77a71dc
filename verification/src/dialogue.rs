//! What the tool asks of the host, request by request, and what it makes of the
//! replies: the course of each command, from the command line to its end.

use vstd::prelude::*;
use vstd::string::*;
use vstd::utf8::*;

use crate::bytes::zeros;
use crate::console::spec_run_command;
use crate::daemon::{
    law_normalizing_strips_the_prefix, normalized, spec_announce, spec_cleanup_hid_state_files,
    spec_daemon_pid, spec_id_number, spec_is_hid_daemon_running, spec_open_socket,
    spec_start_hid_daemon, spec_stop_hid_daemon,
};
use crate::devices::{drive_from, hid_from, AttachmentView, DriveView, HidView};
use crate::hid::{
    spec_attach_hid_device, spec_await_device, spec_bring_over, spec_connect_device,
    spec_create_hid_device, spec_detach_hid_device, spec_hand_hid, spec_hid_type,
    spec_import_device, spec_is_hid_device_attached, spec_pass_on, spec_plug_in, spec_reach_daemon,
    spec_release_hid, spec_show_hid_state, spec_show_hid_status,
};
use crate::host::{
    bind, bold_green, cyan, dim, green, line, plain, red, spec_attempt, spec_say, spec_tell, yellow,
    Chain, Log, Outcome, Pause, ReplyView, RequestView, SpanView,
};
use crate::names::sanitized;
use crate::number::{decimal, digit_char, law_number_round_trip, numeral};
use crate::registry::{spec_load_hid_devices, spec_load_virtual_drives};
use crate::storage::{
    disk_of, disks_in, free_target, spec_attach_virtual_drive, spec_create_virtual_drive,
    spec_detach_virtual_drive, spec_show_virtual_status,
};
use crate::text::{begins, contains, is_hex_digit, lemma_until_bounds, lines_of, trimmed, until};
use crate::tool::{
    is_hex_id, law_ids_come_first, spec_resolve_device, spec_run_tool, vid_pid, CliView,
    CommandsView, Ending, HidCommandsView, SelectedView, StorageCommandsView,
};
use crate::transfer::whole;
use crate::usb::{hostdevs_in, place_of, spec_is_device_attached, usb_listed, Front, UsbView};
use crate::usbip::{bus_id, import_request};
use crate::vhci::{free_port, law_kept_number_is_read_back, spec_detach_vhci};
use crate::vm::{
    device_with, lists_vm, path_in, spec_attach_device, spec_check_vm_running,
    spec_check_vm_unpaused, spec_detach_device, spec_save_last_vm, spec_show_status, vm_line,
};

verus! {

// ---------------------------------------------------------------------------
// Talking with the host
// ---------------------------------------------------------------------------

/// Requests, each with the reply that the host gives to it.
pub type Talk = Seq<(RequestView, ReplyView)>;

/// From `at` on, the log holds the replies of the talk, as far as it goes.
pub open spec fn heard(log: Log, at: int, talk: Talk) -> bool {
    &&& 0 <= at <= log.len()
    &&& forall|i: int|
        at <= i < log.len() && i < at + talk.len() ==> #[trigger] log[i] == talk[i - at].1
}

/// An operation goes through the talk: it asks for what comes next, and when the
/// last reply is there, it has ended, with a result or with a failure.
pub open spec fn came<T>(
    s: Outcome<T>,
    log: Log,
    at: int,
    talk: Talk,
    end: Result<T, Chain>,
) -> bool {
    if log.len() < at + talk.len() {
        s == Outcome::<T>::Ask(talk[log.len() - at].0)
    } else {
        match end {
            Ok(v) => s == Outcome::<T>::Ready(v, at + talk.len()),
            Err(c) => s == Outcome::<T>::Fail(c, at + talk.len()),
        }
    }
}

/// What is heard of a talk is heard of its parts.
pub proof fn lemma_heard(log: Log, at: int, a: Talk, b: Talk)
    requires
        heard(log, at, a + b),
    ensures
        heard(log, at, a),
        log.len() >= at + a.len() ==> heard(log, at + a.len(), b),
{
    let all = a + b;
    assert forall|i: int| at <= i < log.len() && i < at + a.len() implies #[trigger] log[i]
        == a[i - at].1 by {
        assert(all[i - at] == a[i - at]);
    }
    if log.len() >= at + a.len() {
        let m = at + a.len();
        assert forall|i: int| m <= i < log.len() && i < m + b.len() implies #[trigger] log[i]
            == b[i - m].1 by {
            assert(all[i - at] == b[i - m]);
        }
    }
}

/// An operation that begins with another goes through the talk of that, and then
/// through what follows.
pub proof fn lemma_came<S, T>(
    first: Outcome<S>,
    v: S,
    whole: Outcome<T>,
    log: Log,
    at: int,
    a: Talk,
    b: Talk,
    end: Result<T, Chain>,
)
    requires
        0 <= at <= log.len(),
        came(first, log, at, a, Ok(v)),
        first matches Outcome::Ask(rq) ==> whole == Outcome::<T>::Ask(rq),
        log.len() >= at + a.len() ==> came(whole, log, at + a.len(), b, end),
    ensures
        came(whole, log, at, a + b, end),
{
    let n = log.len() - at;
    if n < a.len() {
        assert((a + b)[n] == a[n]);
    } else if n < a.len() + b.len() {
        assert((a + b)[n] == b[n - a.len()]);
    }
}

/// The reply of a program that succeeds and prints `out`.
pub open spec fn ran(out: Seq<char>) -> ReplyView {
    ReplyView::Exit(true, encode_utf8(out), seq![])
}

/// A program is run for what it prints.
proof fn lemma_ran(log: Log, at: int, args: Seq<Seq<char>>, out: Seq<char>)
    requires
        args.len() > 0,
        heard(log, at, seq![(RequestView::Run(args), ran(out))]),
    ensures
        came(
            spec_run_command(log, at, args),
            log,
            at,
            seq![(RequestView::Run(args), ran(out))],
            Ok(out),
        ),
{
    encode_utf8_valid_utf8(out);
    encode_utf8_decode_utf8(out);
}

/// What the host has, and what its programs print.
pub struct World {
    /// The directory of the tool's settings.
    pub config: Seq<char>,
    /// The directory of the tool's data.
    pub data: Seq<char>,
    /// The text of the list of drives, and the drives.
    pub drives_text: Seq<char>,
    pub drives: Seq<DriveView>,
    /// The text of the list of HID devices, and the devices.
    pub hids_text: Seq<char>,
    pub hids: Seq<HidView>,
    /// The virtual machines that run unpaused, the active ones, and all.
    pub unpaused: Seq<char>,
    pub active: Seq<char>,
    pub all: Seq<char>,
    /// The definition of the virtual machine.
    pub xml: Seq<char>,
    /// The USB devices.
    pub lsusb: Seq<char>,
    /// The path of the image of the drive.
    pub image: Seq<char>,
    /// What other programs print.
    pub said: Seq<char>,
}

/// The directories of the host are not the root, and have no slash at their end.
pub open spec fn settled(w: World) -> bool {
    &&& w.config.len() > 0 && w.config.last() != '/'
    &&& w.data.len() > 0 && w.data.last() != '/'
}

/// The drive at `k` is the first with the name.
pub open spec fn first_drive(drives: Seq<DriveView>, name: Seq<char>, k: int) -> bool {
    &&& 0 <= k < drives.len()
    &&& drives[k].name == name
    &&& forall|j: int| 0 <= j < k ==> (#[trigger] drives[j]).name != name
}

/// The HID device at `k` is the first with the name.
pub open spec fn first_hid(hids: Seq<HidView>, name: Seq<char>, k: int) -> bool {
    &&& 0 <= k < hids.len()
    &&& hids[k].name == name
    &&& forall|j: int| 0 <= j < k ==> (#[trigger] hids[j]).name != name
}

/// No drive has the name.
pub open spec fn no_such_drive(drives: Seq<DriveView>, name: Seq<char>) -> bool {
    forall|j: int| 0 <= j < drives.len() ==> (#[trigger] drives[j]).name != name
}

/// No HID device has the name.
pub open spec fn no_such_hid(hids: Seq<HidView>, name: Seq<char>) -> bool {
    forall|j: int| 0 <= j < hids.len() ==> (#[trigger] hids[j]).name != name
}

pub proof fn lemma_drive_from(drives: Seq<DriveView>, name: Seq<char>, i: int)
    requires
        0 <= i,
    ensures
        drive_from(drives, name, i) matches Some(k) ==> i <= k < drives.len() && drives[k].name
            == name && forall|j: int| i <= j < k ==> (#[trigger] drives[j]).name != name,
        drive_from(drives, name, i) is None ==> forall|j: int|
            i <= j < drives.len() ==> (#[trigger] drives[j]).name != name,
    decreases drives.len() - i,
{
    if i < drives.len() && drives[i].name != name {
        lemma_drive_from(drives, name, i + 1);
    }
}

pub proof fn lemma_hid_from(hids: Seq<HidView>, name: Seq<char>, i: int)
    requires
        0 <= i,
    ensures
        hid_from(hids, name, i) matches Some(k) ==> i <= k < hids.len() && hids[k].name == name
            && forall|j: int| i <= j < k ==> (#[trigger] hids[j]).name != name,
        hid_from(hids, name, i) is None ==> forall|j: int|
            i <= j < hids.len() ==> (#[trigger] hids[j]).name != name,
    decreases hids.len() - i,
{
    if i < hids.len() && hids[i].name != name {
        lemma_hid_from(hids, name, i + 1);
    }
}

pub proof fn lemma_paths(dir: Seq<char>, name: Seq<char>)
    requires
        dir.len() > 0,
        dir.last() != '/',
    ensures
        path_in(dir, name) == dir + "/"@ + name,
{
}

// ---------------------------------------------------------------------------
// What commands have in common
// ---------------------------------------------------------------------------

/// The virtual machine is remembered.
pub open spec fn vm_remembered(w: World, vm: Seq<char>) -> Talk {
    seq![
        (RequestView::ConfigDir, ReplyView::Text(w.config)),
        (RequestView::Write(w.config + "/"@ + "last_vm"@, vm), ReplyView::Done),
    ]
}

/// The list of drives is read from its file.
pub open spec fn drives_read(w: World) -> Talk {
    let file = w.data + "/"@ + "drives.json"@;
    seq![
        (RequestView::DataDir, ReplyView::Text(w.data)),
        (RequestView::Exists(file), ReplyView::Flag(true)),
        (RequestView::Read(file), ReplyView::Text(w.drives_text)),
        (RequestView::DecodeDrives(w.drives_text), ReplyView::Drives(w.drives)),
    ]
}

/// The list of HID devices is read from its file.
pub open spec fn hids_read(w: World) -> Talk {
    let file = w.data + "/"@ + "hids.json"@;
    seq![
        (RequestView::DataDir, ReplyView::Text(w.data)),
        (RequestView::Exists(file), ReplyView::Flag(true)),
        (RequestView::Read(file), ReplyView::Text(w.hids_text)),
        (RequestView::DecodeHids(w.hids_text), ReplyView::Hids(w.hids)),
    ]
}

/// The program runs and prints `out`.
pub open spec fn run(args: Seq<Seq<char>>, out: Seq<char>) -> (RequestView, ReplyView) {
    (RequestView::Run(args), ran(out))
}

/// The user is told something.
pub open spec fn told(line: Seq<SpanView>) -> (RequestView, ReplyView) {
    (RequestView::Say(line), ReplyView::Done)
}

/// Those that run unpaused are listed.
pub open spec fn unpaused_listed(w: World) -> (RequestView, ReplyView) {
    run(seq!["virsh"@, "list"@, "--state-running"@, "--name"@], w.unpaused)
}

/// The active ones are listed.
pub open spec fn active_listed(w: World) -> (RequestView, ReplyView) {
    run(seq!["virsh"@, "list"@, "--name"@], w.active)
}

/// The virtual machine is described.
pub open spec fn described(w: World, vm: Seq<char>) -> (RequestView, ReplyView) {
    run(seq!["virsh"@, "dumpxml"@, vm], w.xml)
}

/// The devices of the host are listed.
pub open spec fn devices_listed(w: World) -> (RequestView, ReplyView) {
    run(seq!["lsusb"@], w.lsusb)
}

/// The image of a drive is looked up.
pub open spec fn image_found(w: World, name: Seq<char>) -> (RequestView, ReplyView) {
    run(seq!["virsh"@, "vol-path"@, name + ".qcow2"@, "--pool"@, "default"@], w.image)
}

/// A file is written.
pub open spec fn written(file: Seq<char>, text: Seq<char>) -> (RequestView, ReplyView) {
    (RequestView::Write(file, text), ReplyView::Done)
}

/// A file is removed.
pub open spec fn removed(file: Seq<char>) -> (RequestView, ReplyView) {
    (RequestView::Remove(file), ReplyView::Done)
}

#[verifier::spinoff_prover]
pub proof fn lemma_vm_remembered(log: Log, at: int, w: World, vm: Seq<char>)
    requires
        settled(w),
        heard(log, at, vm_remembered(w, vm)),
    ensures
        came(
            spec_save_last_vm(log, at, vm),
            log,
            at,
            vm_remembered(w, vm),
            Ok(()),
        ),
{
    broadcast use {encode_utf8_valid_utf8, encode_utf8_decode_utf8};

    let whole = spec_save_last_vm(log, at, vm);
    let t0 = vm_remembered(w, vm);
    lemma_paths(w.config, "last_vm"@);
    assert(came(whole, log, at, t0, Ok(())));
}

#[verifier::spinoff_prover]
pub proof fn lemma_drives_read(log: Log, at: int, w: World)
    requires
        settled(w),
        heard(log, at, drives_read(w)),
    ensures
        came(
            spec_load_virtual_drives(log, at),
            log,
            at,
            drives_read(w),
            Ok(w.drives),
        ),
{
    broadcast use {encode_utf8_valid_utf8, encode_utf8_decode_utf8};

    let whole = spec_load_virtual_drives(log, at);
    let t0 = drives_read(w);
    lemma_paths(w.data, "drives.json"@);
    assert(came(whole, log, at, t0, Ok(w.drives)));
}

#[verifier::spinoff_prover]
pub proof fn lemma_hids_read(log: Log, at: int, w: World)
    requires
        settled(w),
        heard(log, at, hids_read(w)),
    ensures
        came(
            spec_load_hid_devices(log, at),
            log,
            at,
            hids_read(w),
            Ok(w.hids),
        ),
{
    broadcast use {encode_utf8_valid_utf8, encode_utf8_decode_utf8};

    let whole = spec_load_hid_devices(log, at);
    let t0 = hids_read(w);
    lemma_paths(w.data, "hids.json"@);
    assert(came(whole, log, at, t0, Ok(w.hids)));
}

/// The command line that names the virtual machine and the device.
pub open spec fn asked(command: CommandsView, vm: Seq<char>, device: Seq<char>) -> CliView {
    CliView { vm: Some(vm), device: Some(device), command }
}

/// A device of the host, by its ids: some hexadecimal digits, a colon, and some
/// more.
pub open spec fn are_ids(vendor_id: Seq<char>, product_id: Seq<char>) -> bool {
    &&& vendor_id.len() > 0
    &&& product_id.len() > 0
    &&& forall|i: int| 0 <= i < vendor_id.len() ==> is_hex_digit(#[trigger] vendor_id[i])
    &&& forall|i: int| 0 <= i < product_id.len() ==> is_hex_digit(#[trigger] product_id[i])
}

proof fn lemma_hex_id(s: Seq<char>)
    requires
        forall|i: int| 0 <= i < s.len() ==> is_hex_digit(#[trigger] s[i]),
    ensures
        is_hex_id(s),
        !s.contains(':'),
{
    reveal_strlit("0x");
    if begins(s, "0x"@) {
        assert(s.subrange(0, 2)[1] == s[1]);
        assert(is_hex_digit(s[1]));
    }
}

/// Ids on the command line are those of a device of the host.
pub proof fn lemma_by_ids(
    log: Log,
    at: int,
    vm: Seq<char>,
    vendor_id: Seq<char>,
    product_id: Seq<char>,
    filter_attached: bool,
)
    requires
        are_ids(vendor_id, product_id),
    ensures
        spec_resolve_device(
            log,
            at,
            vm,
            Some(vendor_id + ":"@ + product_id),
            filter_attached,
        ) == Outcome::Ready(SelectedView::RealUsb { vendor_id, product_id }, at),
{
    lemma_hex_id(vendor_id);
    lemma_hex_id(product_id);
    law_ids_come_first(log, at, vm, vendor_id, product_id, filter_attached);
}

/// A text without a colon is a name.
pub proof fn lemma_is_name(name: Seq<char>)
    requires
        !name.contains(':'),
    ensures
        vid_pid(name) is None,
{
    lemma_until_bounds(name, ':');
    let i = until(name, ':');
    if i < name.len() {
        assert(name.contains(name[i]));
    }
}

#[verifier::spinoff_prover]
proof fn lemma_drive_by_name(
    log: Log,
    at: int,
    w: World,
    vm: Seq<char>,
    name: Seq<char>,
    k: int,
    filter_attached: bool,
)
    requires
        settled(w),
        !name.contains(':'),
        first_drive(w.drives, name, k),
        no_such_hid(w.hids, name),
        heard(log, at, drives_read(w) + hids_read(w)),
    ensures
        came(
            spec_resolve_device(log, at, vm, Some(name), filter_attached),
            log,
            at,
            drives_read(w) + hids_read(w),
            Ok(SelectedView::Storage { name }),
        ),
{
    lemma_is_name(name);
    lemma_drive_from(w.drives, name, 0);
    lemma_hid_from(w.hids, name, 0);
    broadcast use {encode_utf8_valid_utf8, encode_utf8_decode_utf8};

    let whole = spec_resolve_device(log, at, vm, Some(name), filter_attached);
    let t0 = drives_read(w);
    let t1 = hids_read(w);
    lemma_heard(log, at, t0, t1);
    lemma_drives_read(log, at, w);
    assert(came(spec_load_virtual_drives(log, at), log, at, t0, Ok(w.drives)));
    if log.len() >= at + t0.len() {
        let at1 = at + t0.len();
        lemma_hids_read(log, at1, w);
        assert(came(whole, log, at1, t1, Ok(SelectedView::Storage { name })));
    }
    lemma_came(
        spec_load_virtual_drives(log, at),
        w.drives,
        whole,
        log,
        at,
        t0,
        t1,
        Ok(SelectedView::Storage { name }),
    );
}

#[verifier::spinoff_prover]
proof fn lemma_hid_by_name(
    log: Log,
    at: int,
    w: World,
    vm: Seq<char>,
    name: Seq<char>,
    k: int,
    filter_attached: bool,
)
    requires
        settled(w),
        !name.contains(':'),
        first_hid(w.hids, name, k),
        no_such_drive(w.drives, name),
        heard(log, at, drives_read(w) + hids_read(w)),
    ensures
        came(
            spec_resolve_device(log, at, vm, Some(name), filter_attached),
            log,
            at,
            drives_read(w) + hids_read(w),
            Ok(SelectedView::Hid { name }),
        ),
{
    lemma_is_name(name);
    lemma_drive_from(w.drives, name, 0);
    lemma_hid_from(w.hids, name, 0);
    broadcast use {encode_utf8_valid_utf8, encode_utf8_decode_utf8};

    let whole = spec_resolve_device(log, at, vm, Some(name), filter_attached);
    let t0 = drives_read(w);
    let t1 = hids_read(w);
    lemma_heard(log, at, t0, t1);
    lemma_drives_read(log, at, w);
    assert(came(spec_load_virtual_drives(log, at), log, at, t0, Ok(w.drives)));
    if log.len() >= at + t0.len() {
        let at1 = at + t0.len();
        lemma_hids_read(log, at1, w);
        assert(came(whole, log, at1, t1, Ok(SelectedView::Hid { name })));
    }
    lemma_came(
        spec_load_virtual_drives(log, at),
        w.drives,
        whole,
        log,
        at,
        t0,
        t1,
        Ok(SelectedView::Hid { name }),
    );
}

// ---------------------------------------------------------------------------
// Devices of the host
// ---------------------------------------------------------------------------

/// The text that defines a host device.
pub open spec fn host_definition(vendor_id: Seq<char>, product_id: Seq<char>) -> Seq<char> {
    "<hostdev mode='subsystem' type='usb' managed='yes'>\n  <source>\n    <vendor id='0x"@
        + vendor_id + "'/>\n    <product id='0x"@ + product_id
        + "'/>\n  </source>\n</hostdev>\n"@
}

/// A device of the host is attached.
pub open spec fn usb_attached(
    w: World,
    vm: Seq<char>,
    vendor_id: Seq<char>,
    product_id: Seq<char>,
    name: Seq<char>,
) -> Talk {
    seq![
        unpaused_listed(w),
        described(w, vm),
        devices_listed(w),
        written("/tmp/virsh-usb-attach.xml"@, host_definition(vendor_id, product_id)),
        run(seq!["virsh"@, "attach-device"@, vm, "/tmp/virsh-usb-attach.xml"@, "--live"@], w.said),
        removed("/tmp/virsh-usb-attach.xml"@),
        told(
            line().push(bold_green("✓"@)).push(plain(" Successfully attached "@)).push(
                cyan(name),
            ).push(plain(" "@)).push(dim("("@ + (vendor_id + ":"@ + product_id) + ")"@)).push(
                plain(" to "@),
            ).push(yellow(vm)),
        ),
    ]
}

/// A device of the host is detached.
pub open spec fn usb_detached(
    w: World,
    vm: Seq<char>,
    vendor_id: Seq<char>,
    product_id: Seq<char>,
    name: Seq<char>,
) -> Talk {
    seq![
        unpaused_listed(w),
        described(w, vm),
        devices_listed(w),
        written("/tmp/virsh-usb-detach.xml"@, host_definition(vendor_id, product_id)),
        run(seq!["virsh"@, "detach-device"@, vm, "/tmp/virsh-usb-detach.xml"@, "--live"@], w.said),
        removed("/tmp/virsh-usb-detach.xml"@),
        told(
            line().push(bold_green("✓"@)).push(plain(" Successfully detached "@)).push(
                cyan(name),
            ).push(plain(" "@)).push(dim("("@ + (vendor_id + ":"@ + product_id) + ")"@)).push(
                plain(" from "@),
            ).push(yellow(vm)),
        ),
    ]
}

/// How it is told whether the virtual machine runs.
pub open spec fn vm_told(vm: Seq<char>, running: bool) -> (RequestView, ReplyView) {
    told(
        line().push(cyan("🖥"@)).push(plain(" VM ("@)).push(yellow(vm)).push(plain("): "@)).push(
            if running {
                green("Running"@)
            } else {
                red("Not running"@)
            },
        ),
    )
}

/// How it is told whether a device is attached.
pub open spec fn attachment_told(attached: bool) -> (RequestView, ReplyView) {
    told(
        line().push(cyan("🔗"@)).push(plain(" Attachment Status: "@)).push(
            if attached {
                green("Attached to VM"@)
            } else {
                yellow("Not attached to VM"@)
            },
        ),
    )
}

/// How it is told whether, and where, a device is connected.
pub open spec fn connection_told(
    name: Seq<char>,
    vendor_id: Seq<char>,
    product_id: Seq<char>,
    place: Option<(Seq<char>, Seq<char>)>,
) -> (RequestView, ReplyView) {
    let start = line().push(cyan("🔌"@)).push(plain(" "@)).push(cyan(name)).push(plain(" "@)).push(
        dim("("@ + (vendor_id + ":"@ + product_id) + ")"@),
    ).push(plain(": "@));
    told(
        match place {
            Some((bus, device)) => start.push(green("Connected"@)).push(
                plain(" (Bus "@ + bus + " Device "@ + device + ")"@),
            ),
            None => start.push(red("Not found"@)),
        },
    )
}

/// It is told of a device of the host and of the virtual machine; of the
/// attachment only if that is active.
pub open spec fn usb_status(
    w: World,
    vm: Seq<char>,
    vendor_id: Seq<char>,
    product_id: Seq<char>,
    name: Seq<char>,
    place: Option<(Seq<char>, Seq<char>)>,
    attached: bool,
) -> Talk {
    if lists_vm(w.active, vm) {
        seq![
            active_listed(w),
            vm_told(vm, true),
            devices_listed(w),
            devices_listed(w),
            connection_told(name, vendor_id, product_id, place),
            described(w, vm),
            attachment_told(attached),
        ]
    } else {
        seq![
            active_listed(w),
            vm_told(vm, false),
            devices_listed(w),
            devices_listed(w),
            connection_told(name, vendor_id, product_id, place),
        ]
    }
}

#[verifier::spinoff_prover]
pub proof fn lemma_usb_attached(
    log: Log,
    at: int,
    front: Front,
    w: World,
    vm: Seq<char>,
    vendor_id: Seq<char>,
    product_id: Seq<char>,
    d: UsbView,
)
    requires
        lists_vm(w.unpaused, vm),
        !hostdevs_in(w.xml).contains((vendor_id, product_id)),
        device_with(usb_listed(lines_of(w.lsusb), front.hubs()), vendor_id, product_id) == Some(d),
        heard(log, at, usb_attached(w, vm, vendor_id, product_id, d.name)),
    ensures
        came(
            spec_attach_device(front, log, at, vm, vendor_id, product_id),
            log,
            at,
            usb_attached(w, vm, vendor_id, product_id, d.name),
            Ok(()),
        ),
{
    broadcast use {encode_utf8_valid_utf8, encode_utf8_decode_utf8};

    let whole = spec_attach_device(front, log, at, vm, vendor_id, product_id);
    let t0 = usb_attached(w, vm, vendor_id, product_id, d.name);
    assert(came(whole, log, at, t0, Ok(())));
}

#[verifier::spinoff_prover]
pub proof fn lemma_usb_detached(
    log: Log,
    at: int,
    front: Front,
    w: World,
    vm: Seq<char>,
    vendor_id: Seq<char>,
    product_id: Seq<char>,
    d: UsbView,
)
    requires
        lists_vm(w.unpaused, vm),
        hostdevs_in(w.xml).contains((vendor_id, product_id)),
        device_with(usb_listed(lines_of(w.lsusb), front.hubs()), vendor_id, product_id) == Some(d),
        heard(log, at, usb_detached(w, vm, vendor_id, product_id, d.name)),
    ensures
        came(
            spec_detach_device(front, log, at, vm, vendor_id, product_id),
            log,
            at,
            usb_detached(w, vm, vendor_id, product_id, d.name),
            Ok(()),
        ),
{
    broadcast use {encode_utf8_valid_utf8, encode_utf8_decode_utf8};

    let whole = spec_detach_device(front, log, at, vm, vendor_id, product_id);
    let t0 = usb_detached(w, vm, vendor_id, product_id, d.name);
    assert(came(whole, log, at, t0, Ok(())));
}

#[verifier::spinoff_prover]
pub proof fn lemma_usb_status(
    log: Log,
    at: int,
    front: Front,
    w: World,
    vm: Seq<char>,
    vendor_id: Seq<char>,
    product_id: Seq<char>,
    d: UsbView,
    place: Option<(Seq<char>, Seq<char>)>,
    attached: bool,
)
    requires
        attached == hostdevs_in(w.xml).contains((vendor_id, product_id)),
        place == place_of(w.lsusb, vendor_id, product_id, front.hubs()),
        device_with(usb_listed(lines_of(w.lsusb), front.hubs()), vendor_id, product_id) == Some(d),
        heard(log, at, usb_status(w, vm, vendor_id, product_id, d.name, place, attached)),
    ensures
        came(
            spec_show_status(front, log, at, vm, vendor_id, product_id),
            log,
            at,
            usb_status(w, vm, vendor_id, product_id, d.name, place, attached),
            Ok(()),
        ),
{
    broadcast use {encode_utf8_valid_utf8, encode_utf8_decode_utf8};

    let whole = spec_show_status(front, log, at, vm, vendor_id, product_id);
    let t0 = usb_status(w, vm, vendor_id, product_id, d.name, place, attached);
    assert(came(whole, log, at, t0, Ok(())));
}

/// `attach` with the ids of a device that the host has and the virtual machine
/// has not: the virtual machine is remembered, the definition of that device is
/// written, and `virsh attach-device` is run with it.
#[verifier::spinoff_prover]
pub proof fn law_attach_usb(
    log: Log,
    at: int,
    w: World,
    vm: Seq<char>,
    vendor_id: Seq<char>,
    product_id: Seq<char>,
    d: UsbView,
)
    requires
        settled(w),
        are_ids(vendor_id, product_id),
        lists_vm(w.unpaused, vm),
        !hostdevs_in(w.xml).contains((vendor_id, product_id)),
        device_with(usb_listed(lines_of(w.lsusb), true), vendor_id, product_id) == Some(d),
        heard(log, at, vm_remembered(w, vm) + usb_attached(w, vm, vendor_id, product_id, d.name)),
    ensures
        came(
            spec_run_tool(log, at, asked(CommandsView::Attach, vm, vendor_id + ":"@ + product_id)),
            log,
            at,
            vm_remembered(w, vm) + usb_attached(w, vm, vendor_id, product_id, d.name),
            Ok(Ending::Done),
        ),
{
    broadcast use {encode_utf8_valid_utf8, encode_utf8_decode_utf8};

    let whole = spec_run_tool(
        log,
        at,
        asked(CommandsView::Attach, vm, vendor_id + ":"@ + product_id),
    );
    let t0 = vm_remembered(w, vm);
    let t1 = usb_attached(w, vm, vendor_id, product_id, d.name);
    lemma_heard(log, at, t0, t1);
    lemma_vm_remembered(log, at, w, vm);
    assert(came(spec_attempt(spec_save_last_vm(log, at, vm)), log, at, t0, Ok(Some(()))));
    if log.len() >= at + t0.len() {
        let at1 = at + t0.len();
        lemma_by_ids(log, at1, vm, vendor_id, product_id, false);
        lemma_usb_attached(log, at1, Front::Tool, w, vm, vendor_id, product_id, d);
        assert(came(whole, log, at1, t1, Ok(Ending::Done)));
    }
    lemma_came(
        spec_attempt(spec_save_last_vm(log, at, vm)),
        Some(()),
        whole,
        log,
        at,
        t0,
        t1,
        Ok(Ending::Done),
    );
}

/// `detach` with the ids of a device that the virtual machine has: the virtual
/// machine is remembered, the definition of that device is written, and `virsh
/// detach-device` is run with it.
#[verifier::spinoff_prover]
pub proof fn law_detach_usb(
    log: Log,
    at: int,
    w: World,
    vm: Seq<char>,
    vendor_id: Seq<char>,
    product_id: Seq<char>,
    d: UsbView,
)
    requires
        settled(w),
        are_ids(vendor_id, product_id),
        lists_vm(w.unpaused, vm),
        hostdevs_in(w.xml).contains((vendor_id, product_id)),
        device_with(usb_listed(lines_of(w.lsusb), true), vendor_id, product_id) == Some(d),
        heard(log, at, vm_remembered(w, vm) + usb_detached(w, vm, vendor_id, product_id, d.name)),
    ensures
        came(
            spec_run_tool(log, at, asked(CommandsView::Detach, vm, vendor_id + ":"@ + product_id)),
            log,
            at,
            vm_remembered(w, vm) + usb_detached(w, vm, vendor_id, product_id, d.name),
            Ok(Ending::Done),
        ),
{
    broadcast use {encode_utf8_valid_utf8, encode_utf8_decode_utf8};

    let whole = spec_run_tool(
        log,
        at,
        asked(CommandsView::Detach, vm, vendor_id + ":"@ + product_id),
    );
    let t0 = vm_remembered(w, vm);
    let t1 = usb_detached(w, vm, vendor_id, product_id, d.name);
    lemma_heard(log, at, t0, t1);
    lemma_vm_remembered(log, at, w, vm);
    assert(came(spec_attempt(spec_save_last_vm(log, at, vm)), log, at, t0, Ok(Some(()))));
    if log.len() >= at + t0.len() {
        let at1 = at + t0.len();
        lemma_by_ids(log, at1, vm, vendor_id, product_id, true);
        lemma_usb_detached(log, at1, Front::Tool, w, vm, vendor_id, product_id, d);
        assert(came(whole, log, at1, t1, Ok(Ending::Done)));
    }
    lemma_came(
        spec_attempt(spec_save_last_vm(log, at, vm)),
        Some(()),
        whole,
        log,
        at,
        t0,
        t1,
        Ok(Ending::Done),
    );
}

/// `status` with the ids of a device: the user is told whether the virtual
/// machine is active, where the device is, and whether it is attached.
#[verifier::spinoff_prover]
pub proof fn law_status_usb(
    log: Log,
    at: int,
    w: World,
    vm: Seq<char>,
    vendor_id: Seq<char>,
    product_id: Seq<char>,
    d: UsbView,
    place: Option<(Seq<char>, Seq<char>)>,
    attached: bool,
)
    requires
        settled(w),
        are_ids(vendor_id, product_id),
        attached == hostdevs_in(w.xml).contains((vendor_id, product_id)),
        place == place_of(w.lsusb, vendor_id, product_id, true),
        device_with(usb_listed(lines_of(w.lsusb), true), vendor_id, product_id) == Some(d),
        heard(
            log,
            at,
            vm_remembered(w, vm) + usb_status(
                w,
                vm,
                vendor_id,
                product_id,
                d.name,
                place,
                attached,
            ),
        ),
    ensures
        came(
            spec_run_tool(log, at, asked(CommandsView::Status, vm, vendor_id + ":"@ + product_id)),
            log,
            at,
            vm_remembered(w, vm) + usb_status(
                w,
                vm,
                vendor_id,
                product_id,
                d.name,
                place,
                attached,
            ),
            Ok(Ending::Done),
        ),
{
    broadcast use {encode_utf8_valid_utf8, encode_utf8_decode_utf8};

    let whole = spec_run_tool(
        log,
        at,
        asked(CommandsView::Status, vm, vendor_id + ":"@ + product_id),
    );
    let t0 = vm_remembered(w, vm);
    let t1 = usb_status(w, vm, vendor_id, product_id, d.name, place, attached);
    lemma_heard(log, at, t0, t1);
    lemma_vm_remembered(log, at, w, vm);
    assert(came(spec_attempt(spec_save_last_vm(log, at, vm)), log, at, t0, Ok(Some(()))));
    if log.len() >= at + t0.len() {
        let at1 = at + t0.len();
        lemma_by_ids(log, at1, vm, vendor_id, product_id, false);
        lemma_usb_status(log, at1, Front::Tool, w, vm, vendor_id, product_id, d, place, attached);
        assert(came(whole, log, at1, t1, Ok(Ending::Done)));
    }
    lemma_came(
        spec_attempt(spec_save_last_vm(log, at, vm)),
        Some(()),
        whole,
        log,
        at,
        t0,
        t1,
        Ok(Ending::Done),
    );
}

// ---------------------------------------------------------------------------
// Drives
// ---------------------------------------------------------------------------

/// The text that defines a USB disk.
pub open spec fn disk_definition(image: Seq<char>, dev: Seq<char>) -> Seq<char> {
    "<disk type='file' device='disk'>\n  <driver name='qemu' type='qcow2'/>\n  <source file='"@
        + image + "'/>\n  <target dev='"@ + dev + "' bus='usb'/>\n</disk>\n"@
}

/// A drive is attached under the name `dev`.
pub open spec fn drive_attached(w: World, vm: Seq<char>, name: Seq<char>, dev: Seq<char>) -> Talk {
    seq![
        unpaused_listed(w),
        image_found(w, name),
        described(w, vm),
        image_found(w, name),
        described(w, vm),
        written("/tmp/virsh-usb-storage-attach.xml"@, disk_definition(trimmed(w.image), dev)),
        run(
            seq!["virsh"@, "attach-device"@, vm, "/tmp/virsh-usb-storage-attach.xml"@, "--live"@],
            w.said,
        ),
        removed("/tmp/virsh-usb-storage-attach.xml"@),
        told(
            line().push(bold_green("✓"@)).push(
                plain(" Successfully attached storage drive "@),
            ).push(cyan(name)).push(plain(" to "@)).push(yellow(vm)),
        ),
    ]
}

/// A drive that is attached under the name `dev` is detached.
pub open spec fn drive_detached(w: World, vm: Seq<char>, name: Seq<char>, dev: Seq<char>) -> Talk {
    seq![
        unpaused_listed(w),
        image_found(w, name),
        described(w, vm),
        written("/tmp/virsh-usb-storage-detach.xml"@, disk_definition(trimmed(w.image), dev)),
        run(
            seq!["virsh"@, "detach-device"@, vm, "/tmp/virsh-usb-storage-detach.xml"@, "--live"@],
            w.said,
        ),
        removed("/tmp/virsh-usb-storage-detach.xml"@),
        told(
            line().push(bold_green("✓"@)).push(
                plain(" Successfully detached storage drive "@),
            ).push(cyan(name)).push(plain(" from "@)).push(yellow(vm)),
        ),
    ]
}

/// It is told of a drive and of the virtual machine; of the attachment only if
/// that is active.
pub open spec fn drive_status(
    w: World,
    vm: Seq<char>,
    name: Seq<char>,
    size: Seq<char>,
    attached: bool,
) -> Talk {
    let drive_told = told(
        line().push(cyan("💾"@)).push(plain(" Storage Drive ("@)).push(cyan(name)).push(
            plain("): "@),
        ).push(green(size)).push(plain(" at "@)).push(dim(trimmed(w.image))),
    );
    if lists_vm(w.active, vm) {
        seq![
            active_listed(w),
            vm_told(vm, true),
            image_found(w, name),
            drive_told,
            image_found(w, name),
            described(w, vm),
            attachment_told(attached),
        ]
    } else {
        seq![active_listed(w), vm_told(vm, false), image_found(w, name), drive_told]
    }
}

#[verifier::spinoff_prover]
proof fn lemma_drive_attached(
    log: Log,
    at: int,
    w: World,
    vm: Seq<char>,
    name: Seq<char>,
    k: int,
    dev: Seq<char>,
)
    requires
        settled(w),
        first_drive(w.drives, name, k),
        lists_vm(w.unpaused, vm),
        disk_of(disks_in(w.xml), trimmed(w.image)) is None,
        free_target(w.xml, 0) == Some(dev),
        heard(log, at, drives_read(w) + drive_attached(w, vm, name, dev)),
    ensures
        came(
            spec_attach_virtual_drive(log, at, vm, name),
            log,
            at,
            drives_read(w) + drive_attached(w, vm, name, dev),
            Ok(()),
        ),
{
    lemma_drive_from(w.drives, name, 0);
    broadcast use {encode_utf8_valid_utf8, encode_utf8_decode_utf8};

    let whole = spec_attach_virtual_drive(log, at, vm, name);
    let t0 = drives_read(w);
    let t1 = drive_attached(w, vm, name, dev);
    lemma_heard(log, at, t0, t1);
    lemma_drives_read(log, at, w);
    assert(came(spec_load_virtual_drives(log, at), log, at, t0, Ok(w.drives)));
    if log.len() >= at + t0.len() {
        let at1 = at + t0.len();
        assert(came(whole, log, at1, t1, Ok(())));
    }
    lemma_came(spec_load_virtual_drives(log, at), w.drives, whole, log, at, t0, t1, Ok(()));
}

#[verifier::spinoff_prover]
proof fn lemma_drive_detached(
    log: Log,
    at: int,
    w: World,
    vm: Seq<char>,
    name: Seq<char>,
    k: int,
    disk: AttachmentView,
)
    requires
        settled(w),
        first_drive(w.drives, name, k),
        lists_vm(w.unpaused, vm),
        disk_of(disks_in(w.xml), trimmed(w.image)) == Some(disk),
        heard(log, at, drives_read(w) + drive_detached(w, vm, name, disk.target_dev)),
    ensures
        came(
            spec_detach_virtual_drive(log, at, vm, name),
            log,
            at,
            drives_read(w) + drive_detached(w, vm, name, disk.target_dev),
            Ok(()),
        ),
{
    lemma_drive_from(w.drives, name, 0);
    broadcast use {encode_utf8_valid_utf8, encode_utf8_decode_utf8};

    let whole = spec_detach_virtual_drive(log, at, vm, name);
    let t0 = drives_read(w);
    let t1 = drive_detached(w, vm, name, disk.target_dev);
    lemma_heard(log, at, t0, t1);
    lemma_drives_read(log, at, w);
    assert(came(spec_load_virtual_drives(log, at), log, at, t0, Ok(w.drives)));
    if log.len() >= at + t0.len() {
        let at1 = at + t0.len();
        assert(came(whole, log, at1, t1, Ok(())));
    }
    lemma_came(spec_load_virtual_drives(log, at), w.drives, whole, log, at, t0, t1, Ok(()));
}

#[verifier::spinoff_prover]
proof fn lemma_drive_status(
    log: Log,
    at: int,
    w: World,
    vm: Seq<char>,
    name: Seq<char>,
    k: int,
    attached: bool,
)
    requires
        settled(w),
        first_drive(w.drives, name, k),
        attached == (disk_of(disks_in(w.xml), trimmed(w.image)) is Some),
        heard(log, at, drives_read(w) + drive_status(w, vm, name, w.drives[k].size, attached)),
    ensures
        came(
            spec_show_virtual_status(log, at, vm, name),
            log,
            at,
            drives_read(w) + drive_status(w, vm, name, w.drives[k].size, attached),
            Ok(()),
        ),
{
    lemma_drive_from(w.drives, name, 0);
    broadcast use {encode_utf8_valid_utf8, encode_utf8_decode_utf8};

    let whole = spec_show_virtual_status(log, at, vm, name);
    let t0 = drives_read(w);
    let t1 = drive_status(w, vm, name, w.drives[k].size, attached);
    lemma_heard(log, at, t0, t1);
    lemma_drives_read(log, at, w);
    assert(came(spec_load_virtual_drives(log, at), log, at, t0, Ok(w.drives)));
    if log.len() >= at + t0.len() {
        let at1 = at + t0.len();
        assert(came(whole, log, at1, t1, Ok(())));
    }
    lemma_came(spec_load_virtual_drives(log, at), w.drives, whole, log, at, t0, t1, Ok(()));
}

/// `attach` with the name of a drive that the virtual machine has not: the
/// definition of a disk with its image is written, under a free name, and
/// `virsh attach-device` is run with it.
#[verifier::spinoff_prover]
pub proof fn law_attach_drive(
    log: Log,
    at: int,
    w: World,
    vm: Seq<char>,
    name: Seq<char>,
    k: int,
    dev: Seq<char>,
)
    requires
        settled(w),
        !name.contains(':'),
        first_drive(w.drives, name, k),
        no_such_hid(w.hids, name),
        lists_vm(w.unpaused, vm),
        disk_of(disks_in(w.xml), trimmed(w.image)) is None,
        free_target(w.xml, 0) == Some(dev),
        heard(
            log,
            at,
            vm_remembered(w, vm) + (
                (drives_read(w) + hids_read(w))
                    + (drives_read(w) + drive_attached(w, vm, name, dev))
            ),
        ),
    ensures
        came(
            spec_run_tool(log, at, asked(CommandsView::Attach, vm, name)),
            log,
            at,
            vm_remembered(w, vm) + (
                (drives_read(w) + hids_read(w))
                    + (drives_read(w) + drive_attached(w, vm, name, dev))
            ),
            Ok(Ending::Done),
        ),
{
    broadcast use {encode_utf8_valid_utf8, encode_utf8_decode_utf8};

    let whole = spec_run_tool(log, at, asked(CommandsView::Attach, vm, name));
    let t0 = vm_remembered(w, vm);
    let t1 = (drives_read(w) + hids_read(w));
    let t2 = (drives_read(w) + drive_attached(w, vm, name, dev));
    lemma_heard(log, at, t0, t1 + t2);
    lemma_vm_remembered(log, at, w, vm);
    assert(came(spec_attempt(spec_save_last_vm(log, at, vm)), log, at, t0, Ok(Some(()))));
    if log.len() >= at + t0.len() {
        let at1 = at + t0.len();
        lemma_heard(log, at1, t1, t2);
        lemma_drive_by_name(log, at1, w, vm, name, k, false);
        assert(
            came(
                spec_resolve_device(log, at1, vm, Some(name), false),
                log,
                at1,
                t1,
                Ok(SelectedView::Storage { name }),
            )
        );
        if log.len() >= at1 + t1.len() {
            let at2 = at1 + t1.len();
            lemma_drive_attached(log, at2, w, vm, name, k, dev);
            assert(came(whole, log, at2, t2, Ok(Ending::Done)));
        }
        lemma_came(
            spec_resolve_device(log, at1, vm, Some(name), false),
            SelectedView::Storage { name },
            whole,
            log,
            at1,
            t1,
            t2,
            Ok(Ending::Done),
        );
    }
    lemma_came(
        spec_attempt(spec_save_last_vm(log, at, vm)),
        Some(()),
        whole,
        log,
        at,
        t0,
        t1 + t2,
        Ok(Ending::Done),
    );
}

/// `detach` with the name of a drive that the virtual machine has: the
/// definition of the disk with its image is written, under the name that it has
/// there, and `virsh detach-device` is run with it.
#[verifier::spinoff_prover]
pub proof fn law_detach_drive(
    log: Log,
    at: int,
    w: World,
    vm: Seq<char>,
    name: Seq<char>,
    k: int,
    disk: AttachmentView,
)
    requires
        settled(w),
        !name.contains(':'),
        first_drive(w.drives, name, k),
        no_such_hid(w.hids, name),
        lists_vm(w.unpaused, vm),
        disk_of(disks_in(w.xml), trimmed(w.image)) == Some(disk),
        heard(
            log,
            at,
            vm_remembered(w, vm) + (
                (drives_read(w) + hids_read(w))
                    + (drives_read(w) + drive_detached(w, vm, name, disk.target_dev))
            ),
        ),
    ensures
        came(
            spec_run_tool(log, at, asked(CommandsView::Detach, vm, name)),
            log,
            at,
            vm_remembered(w, vm) + (
                (drives_read(w) + hids_read(w))
                    + (drives_read(w) + drive_detached(w, vm, name, disk.target_dev))
            ),
            Ok(Ending::Done),
        ),
{
    broadcast use {encode_utf8_valid_utf8, encode_utf8_decode_utf8};

    let whole = spec_run_tool(log, at, asked(CommandsView::Detach, vm, name));
    let t0 = vm_remembered(w, vm);
    let t1 = (drives_read(w) + hids_read(w));
    let t2 = (drives_read(w) + drive_detached(w, vm, name, disk.target_dev));
    lemma_heard(log, at, t0, t1 + t2);
    lemma_vm_remembered(log, at, w, vm);
    assert(came(spec_attempt(spec_save_last_vm(log, at, vm)), log, at, t0, Ok(Some(()))));
    if log.len() >= at + t0.len() {
        let at1 = at + t0.len();
        lemma_heard(log, at1, t1, t2);
        lemma_drive_by_name(log, at1, w, vm, name, k, true);
        assert(
            came(
                spec_resolve_device(log, at1, vm, Some(name), true),
                log,
                at1,
                t1,
                Ok(SelectedView::Storage { name }),
            )
        );
        if log.len() >= at1 + t1.len() {
            let at2 = at1 + t1.len();
            lemma_drive_detached(log, at2, w, vm, name, k, disk);
            assert(came(whole, log, at2, t2, Ok(Ending::Done)));
        }
        lemma_came(
            spec_resolve_device(log, at1, vm, Some(name), true),
            SelectedView::Storage { name },
            whole,
            log,
            at1,
            t1,
            t2,
            Ok(Ending::Done),
        );
    }
    lemma_came(
        spec_attempt(spec_save_last_vm(log, at, vm)),
        Some(()),
        whole,
        log,
        at,
        t0,
        t1 + t2,
        Ok(Ending::Done),
    );
}

/// `status` with the name of a drive: the user is told whether the virtual
/// machine is active, where the image of the drive is, and whether it is
/// attached.
#[verifier::spinoff_prover]
pub proof fn law_status_drive(
    log: Log,
    at: int,
    w: World,
    vm: Seq<char>,
    name: Seq<char>,
    k: int,
    attached: bool,
)
    requires
        settled(w),
        !name.contains(':'),
        first_drive(w.drives, name, k),
        no_such_hid(w.hids, name),
        attached == (disk_of(disks_in(w.xml), trimmed(w.image)) is Some),
        heard(
            log,
            at,
            vm_remembered(w, vm) + (
                (drives_read(w) + hids_read(w))
                    + (drives_read(w) + drive_status(w, vm, name, w.drives[k].size, attached))
            ),
        ),
    ensures
        came(
            spec_run_tool(log, at, asked(CommandsView::Status, vm, name)),
            log,
            at,
            vm_remembered(w, vm) + (
                (drives_read(w) + hids_read(w))
                    + (drives_read(w) + drive_status(w, vm, name, w.drives[k].size, attached))
            ),
            Ok(Ending::Done),
        ),
{
    broadcast use {encode_utf8_valid_utf8, encode_utf8_decode_utf8};

    let whole = spec_run_tool(log, at, asked(CommandsView::Status, vm, name));
    let t0 = vm_remembered(w, vm);
    let t1 = (drives_read(w) + hids_read(w));
    let t2 = (drives_read(w) + drive_status(w, vm, name, w.drives[k].size, attached));
    lemma_heard(log, at, t0, t1 + t2);
    lemma_vm_remembered(log, at, w, vm);
    assert(came(spec_attempt(spec_save_last_vm(log, at, vm)), log, at, t0, Ok(Some(()))));
    if log.len() >= at + t0.len() {
        let at1 = at + t0.len();
        lemma_heard(log, at1, t1, t2);
        lemma_drive_by_name(log, at1, w, vm, name, k, false);
        assert(
            came(
                spec_resolve_device(log, at1, vm, Some(name), false),
                log,
                at1,
                t1,
                Ok(SelectedView::Storage { name }),
            )
        );
        if log.len() >= at1 + t1.len() {
            let at2 = at1 + t1.len();
            lemma_drive_status(log, at2, w, vm, name, k, attached);
            assert(came(whole, log, at2, t2, Ok(Ending::Done)));
        }
        lemma_came(
            spec_resolve_device(log, at1, vm, Some(name), false),
            SelectedView::Storage { name },
            whole,
            log,
            at1,
            t1,
            t2,
            Ok(Ending::Done),
        );
    }
    lemma_came(
        spec_attempt(spec_save_last_vm(log, at, vm)),
        Some(()),
        whole,
        log,
        at,
        t0,
        t1 + t2,
        Ok(Ending::Done),
    );
}

// ---------------------------------------------------------------------------
// HID devices
// ---------------------------------------------------------------------------

/// A state file of a HID device.
pub open spec fn state_file(w: World, name: Seq<char>, ending: Seq<char>) -> Seq<char> {
    w.data + "/"@ + ("hid-"@ + name + ending)
}

/// The directory of the data is asked for.
pub open spec fn data_asked(w: World) -> (RequestView, ReplyView) {
    (RequestView::DataDir, ReplyView::Text(w.data))
}

/// No daemon has left its process number.
pub open spec fn daemon_absent(w: World, name: Seq<char>, gone: Chain) -> Talk {
    seq![
        data_asked(w),
        (RequestView::Read(state_file(w, name, ".pid"@)), ReplyView::Failed(gone)),
    ]
}

/// A daemon has left its process number, and that process is there or not.
pub open spec fn daemon_known(w: World, name: Seq<char>, id: u64, alive: bool) -> Talk {
    seq![
        data_asked(w),
        (RequestView::Read(state_file(w, name, ".pid"@)), ReplyView::Text(decimal(id as int))),
        (RequestView::Exists("/proc/"@ + decimal(id as int)), ReplyView::Flag(alive)),
    ]
}

/// The daemon is started with the ids of its device, and leaves its port.
pub open spec fn daemon_spawned(
    w: World,
    name: Seq<char>,
    vid: Seq<char>,
    pid: Seq<char>,
    program: Seq<char>,
) -> Talk {
    let command = seq![
        program,
        "hid-daemon"@,
        "--name"@,
        name,
        "--vid"@,
        vid,
        "--pid"@,
        pid,
        "--socket-path"@,
        state_file(w, name, ".sock"@),
        "--pid-file"@,
        state_file(w, name, ".pid"@),
        "--port-file"@,
        state_file(w, name, ".port"@),
    ];
    seq![
        data_asked(w),
        data_asked(w),
        data_asked(w),
        (RequestView::OwnPath, ReplyView::Text(program)),
        (
            RequestView::Spawn(command, "/tmp/virsh-usb-hid-"@ + name + ".log"@),
            ReplyView::Done,
        ),
        (RequestView::Pause(100), ReplyView::Done),
        data_asked(w),
        (RequestView::Exists(state_file(w, name, ".port"@)), ReplyView::Flag(true)),
    ]
}

/// The daemon's port is read, and connected with.
pub open spec fn daemon_reached(w: World, name: Seq<char>, port: u64) -> Talk {
    seq![
        data_asked(w),
        (RequestView::Read(state_file(w, name, ".port"@)), ReplyView::Text(decimal(port as int))),
        (RequestView::Connect(port), ReplyView::Done),
    ]
}

/// The forty bytes that ask for the device: the version of the protocol, the
/// code of an import request, no status, and the bus id.
pub open spec fn import_bytes() -> Seq<u8> {
    seq![0x01u8, 0x11, 0x80, 0x03, 0, 0, 0, 0, 0x31, 0x2d, 0x31] + zeros(29)
}

/// The device is asked for, and granted.
pub open spec fn device_imported(header: Seq<u8>, info: Seq<u8>) -> Talk {
    seq![
        (RequestView::Send(import_bytes()), ReplyView::Done),
        (RequestView::Receive(8), ReplyView::Bytes(header)),
        (RequestView::Receive(312), ReplyView::Bytes(info)),
    ]
}

/// The header grants the device: its last four bytes are zero.
pub open spec fn grants(header: Seq<u8>, info: Seq<u8>) -> bool {
    &&& header.len() == 8
    &&& header[4] == 0 && header[5] == 0 && header[6] == 0 && header[7] == 0
    &&& info.len() == 312
}

/// The directory of the virtual host controller.
pub open spec fn controller() -> Seq<char> {
    "/sys/bus/platform/drivers/vhci_hcd/vhci_hcd.0"@
}

/// The connection is handed to a free port of the virtual host controller, and
/// the port is kept.
pub open spec fn device_plugged(
    w: World,
    name: Seq<char>,
    status: Seq<char>,
    rhport: u64,
    sockfd: u64,
) -> Talk {
    seq![
        (RequestView::Exists(controller()), ReplyView::Flag(true)),
        (RequestView::Exists(controller()), ReplyView::Flag(true)),
        (RequestView::Read(controller() + "/"@ + "status"@), ReplyView::Text(status)),
        data_asked(w),
        written(state_file(w, name, ".vhci-port"@), decimal(rhport as int)),
        (RequestView::Descriptor, ReplyView::Number(sockfd)),
        written(
            controller() + "/"@ + "attach"@,
            decimal(rhport as int) + " "@ + decimal(sockfd as int) + " "@ + decimal(65537) + " "@
                + decimal(2) + "\n"@,
        ),
    ]
}

/// The device appears on the host.
pub open spec fn device_appears(w: World) -> Talk {
    seq![(RequestView::Pause(100), ReplyView::Done), devices_listed(w)]
}

/// The device is made ready.
pub open spec fn device_readied(bus: Seq<char>, device: Seq<char>) -> Talk {
    seq![
        (RequestView::RunQuietly(seq!["udevadm"@, "settle"@, "--timeout=3"@]), ReplyView::Done),
        (
            RequestView::ClearHalt("/dev/bus/usb/"@ + bus + "/"@ + device, 0x81),
            ReplyView::Done,
        ),
    ]
}

/// The port of the device is read and unplugged.
pub open spec fn device_unplugged(w: World, name: Seq<char>, rhport: u64) -> Talk {
    let file = state_file(w, name, ".vhci-port"@);
    seq![
        data_asked(w),
        (RequestView::Exists(file), ReplyView::Flag(true)),
        (RequestView::Read(file), ReplyView::Text(decimal(rhport as int))),
        (RequestView::Exists(controller()), ReplyView::Flag(true)),
        written(controller() + "/"@ + "detach"@, decimal(rhport as int) + "\n"@),
        removed(file),
    ]
}

/// The state files of a device are removed.
pub open spec fn state_removed(w: World, name: Seq<char>) -> Talk {
    seq![
        data_asked(w),
        removed(state_file(w, name, ".pid"@)),
        data_asked(w),
        removed(state_file(w, name, ".port"@)),
        data_asked(w),
        removed(state_file(w, name, ".sock"@)),
        data_asked(w),
        removed(state_file(w, name, ".vhci-port"@)),
    ]
}

/// The daemon is told to end.
pub open spec fn daemon_killed(w: World, name: Seq<char>, id: u64) -> Talk {
    seq![
        data_asked(w),
        (RequestView::Read(state_file(w, name, ".pid"@)), ReplyView::Text(decimal(id as int))),
        (
            RequestView::RunShown(seq!["kill"@, "-TERM"@, decimal(id as int)]),
            ReplyView::Done,
        ),
    ]
}

#[verifier::spinoff_prover]
pub proof fn lemma_daemon_absent(log: Log, at: int, w: World, name: Seq<char>, gone: Chain)
    requires
        settled(w),
        heard(log, at, daemon_absent(w, name, gone)),
    ensures
        came(
            spec_is_hid_daemon_running(log, at, name),
            log,
            at,
            daemon_absent(w, name, gone),
            Ok(false),
        ),
{
    broadcast use {encode_utf8_valid_utf8, encode_utf8_decode_utf8};

    let whole = spec_is_hid_daemon_running(log, at, name);
    let t0 = daemon_absent(w, name, gone);
    lemma_paths(w.data, "hid-"@ + name + ".pid"@);
    assert(came(whole, log, at, t0, Ok(false)));
}

#[verifier::spinoff_prover]
pub proof fn lemma_daemon_known(
    log: Log,
    at: int,
    w: World,
    name: Seq<char>,
    id: u64,
    alive: bool,
)
    requires
        settled(w),
        id <= 0xffff_ffff,
        heard(log, at, daemon_known(w, name, id, alive)),
    ensures
        came(
            spec_is_hid_daemon_running(log, at, name),
            log,
            at,
            daemon_known(w, name, id, alive),
            Ok(alive),
        ),
{
    broadcast use {encode_utf8_valid_utf8, encode_utf8_decode_utf8};

    let whole = spec_is_hid_daemon_running(log, at, name);
    let t0 = daemon_known(w, name, id, alive);
    lemma_paths(w.data, "hid-"@ + name + ".pid"@);
    law_kept_number_is_read_back(at + 2, id, 0xffff_ffff, "Invalid process number"@);
    assert(came(whole, log, at, t0, Ok(alive)));
}

#[verifier::spinoff_prover]
proof fn lemma_daemon_spawned(
    log: Log,
    at: int,
    w: World,
    name: Seq<char>,
    vid: Seq<char>,
    pid: Seq<char>,
    program: Seq<char>,
    gone: Chain,
)
    requires
        settled(w),
        heard(log, at, daemon_absent(w, name, gone) + daemon_spawned(w, name, vid, pid, program)),
    ensures
        came(
            spec_start_hid_daemon(log, at, name, vid, pid),
            log,
            at,
            daemon_absent(w, name, gone) + daemon_spawned(w, name, vid, pid, program),
            Ok(()),
        ),
{
    broadcast use {encode_utf8_valid_utf8, encode_utf8_decode_utf8};

    let whole = spec_start_hid_daemon(log, at, name, vid, pid);
    let t0 = daemon_absent(w, name, gone);
    let t1 = daemon_spawned(w, name, vid, pid, program);
    lemma_heard(log, at, t0, t1);
    lemma_daemon_absent(log, at, w, name, gone);
    assert(came(spec_is_hid_daemon_running(log, at, name), log, at, t0, Ok(false)));
    if log.len() >= at + t0.len() {
        let at1 = at + t0.len();
        lemma_paths(w.data, "hid-"@ + name + ".pid"@);
        lemma_paths(w.data, "hid-"@ + name + ".port"@);
        lemma_paths(w.data, "hid-"@ + name + ".sock"@);
        assert(came(whole, log, at1, t1, Ok(())));
    }
    lemma_came(spec_is_hid_daemon_running(log, at, name), false, whole, log, at, t0, t1, Ok(()));
}

#[verifier::spinoff_prover]
pub proof fn lemma_daemon_reached(log: Log, at: int, w: World, name: Seq<char>, port: u64)
    requires
        settled(w),
        port <= 0xffff,
        heard(log, at, daemon_reached(w, name, port)),
    ensures
        came(
            spec_reach_daemon(log, at, name),
            log,
            at,
            daemon_reached(w, name, port),
            Ok(()),
        ),
{
    broadcast use {encode_utf8_valid_utf8, encode_utf8_decode_utf8};

    let whole = spec_reach_daemon(log, at, name);
    let t0 = daemon_reached(w, name, port);
    lemma_paths(w.data, "hid-"@ + name + ".port"@);
    law_kept_number_is_read_back(at + 2, port, 0xffff, "Invalid port in daemon port file"@);
    assert(came(whole, log, at, t0, Ok(())));
}

#[verifier::spinoff_prover]
proof fn lemma_device_imported(log: Log, at: int, header: Seq<u8>, info: Seq<u8>)
    requires
        grants(header, info),
        heard(log, at, device_imported(header, info)),
    ensures
        came(
            spec_import_device(log, at),
            log,
            at,
            device_imported(header, info),
            Ok(()),
        ),
{
    broadcast use {encode_utf8_valid_utf8, encode_utf8_decode_utf8};

    let whole = spec_import_device(log, at);
    let t0 = device_imported(header, info);
    lemma_import_bytes();
    assert(came(whole, log, at, t0, Ok(())));
}

#[verifier::spinoff_prover]
proof fn lemma_device_plugged(
    log: Log,
    at: int,
    w: World,
    name: Seq<char>,
    status: Seq<char>,
    rhport: u64,
    sockfd: u64,
)
    requires
        settled(w),
        free_port(status) == Some(rhport),
        heard(log, at, device_plugged(w, name, status, rhport, sockfd)),
    ensures
        came(
            spec_plug_in(log, at, name),
            log,
            at,
            device_plugged(w, name, status, rhport, sockfd),
            Ok(()),
        ),
{
    broadcast use {encode_utf8_valid_utf8, encode_utf8_decode_utf8};

    let whole = spec_plug_in(log, at, name);
    let t0 = device_plugged(w, name, status, rhport, sockfd);
    lemma_paths(w.data, "hid-"@ + name + ".vhci-port"@);
    lemma_controller("status"@);
    lemma_controller("attach"@);
    assert(came(whole, log, at, t0, Ok(())));
}

pub proof fn lemma_import_bytes()
    ensures
        import_request() == import_bytes(),
{
    reveal_strlit("1-1");
    assert(bus_id() =~= seq!['1', '-', '1']);
    assert(is_ascii_chars(bus_id()));
    is_ascii_chars_encode_utf8(bus_id());
    assert(encode_utf8(bus_id()) =~= seq![0x31u8, 0x2d, 0x31]);
    assert(import_request() =~= import_bytes());
}

pub proof fn lemma_controller(name: Seq<char>)
    ensures
        path_in(controller(), name) == controller() + "/"@ + name,
{
    reveal_strlit("/sys/bus/platform/drivers/vhci_hcd/vhci_hcd.0");
}

#[verifier::spinoff_prover]
proof fn lemma_device_connected(
    log: Log,
    at: int,
    w: World,
    name: Seq<char>,
    port: u64,
    header: Seq<u8>,
    info: Seq<u8>,
    status: Seq<char>,
    rhport: u64,
    sockfd: u64,
)
    requires
        settled(w),
        port <= 0xffff,
        grants(header, info),
        free_port(status) == Some(rhport),
        heard(
            log,
            at,
            daemon_reached(w, name, port) + (
                device_imported(header, info)
                    + (
                        device_plugged(w, name, status, rhport, sockfd)
                            + seq![(RequestView::HangUp, ReplyView::Done)]
                    )
            ),
        ),
    ensures
        came(
            spec_connect_device(log, at, name),
            log,
            at,
            daemon_reached(w, name, port) + (
                device_imported(header, info)
                    + (
                        device_plugged(w, name, status, rhport, sockfd)
                            + seq![(RequestView::HangUp, ReplyView::Done)]
                    )
            ),
            Ok(()),
        ),
{
    broadcast use {encode_utf8_valid_utf8, encode_utf8_decode_utf8};

    let whole = spec_connect_device(log, at, name);
    let t0 = daemon_reached(w, name, port);
    let t1 = device_imported(header, info);
    let t2 = device_plugged(w, name, status, rhport, sockfd);
    let t3 = seq![(RequestView::HangUp, ReplyView::Done)];
    lemma_heard(log, at, t0, t1 + (t2 + t3));
    lemma_daemon_reached(log, at, w, name, port);
    assert(came(spec_reach_daemon(log, at, name), log, at, t0, Ok(())));
    if log.len() >= at + t0.len() {
        let at1 = at + t0.len();
        lemma_heard(log, at1, t1, t2 + t3);
        lemma_device_imported(log, at1, header, info);
        assert(came(spec_import_device(log, at1), log, at1, t1, Ok(())));
        if log.len() >= at1 + t1.len() {
            let at2 = at1 + t1.len();
            lemma_heard(log, at2, t2, t3);
            lemma_device_plugged(log, at2, w, name, status, rhport, sockfd);
            assert(came(spec_plug_in(log, at2, name), log, at2, t2, Ok(())));
            if log.len() >= at2 + t2.len() {
                let at3 = at2 + t2.len();
                assert(came(whole, log, at3, t3, Ok(())));
            }
            lemma_came(spec_plug_in(log, at2, name), (), whole, log, at2, t2, t3, Ok(()));
        }
        lemma_came(spec_import_device(log, at1), (), whole, log, at1, t1, t2 + t3, Ok(()));
    }
    lemma_came(spec_reach_daemon(log, at, name), (), whole, log, at, t0, t1 + (t2 + t3), Ok(()));
}

/// The two steps that ready a device.
pub open spec fn readying(log: Log, at: int, bus: Seq<char>, device: Seq<char>) -> Outcome<()> {
    bind(
        spec_tell(
            log,
            at,
            RequestView::RunQuietly(seq!["udevadm"@, "settle"@, "--timeout=3"@]),
        ),
        |_done: (), at: int|
            spec_tell(
                log,
                at,
                RequestView::ClearHalt("/dev/bus/usb/"@ + bus + "/"@ + device, 0x81),
            ),
    )
}

#[verifier::spinoff_prover]
proof fn lemma_device_passed_on(
    log: Log,
    at: int,
    w: World,
    vm: Seq<char>,
    h: HidView,
    bus: Seq<char>,
    device: Seq<char>,
    d: UsbView,
)
    requires
        place_of(w.lsusb, normalized(h.vid), normalized(h.pid), true) == Some((bus, device)),
        lists_vm(w.unpaused, vm),
        !hostdevs_in(w.xml).contains((normalized(h.vid), normalized(h.pid))),
        device_with(
            usb_listed(lines_of(w.lsusb), true),
            normalized(h.vid),
            normalized(h.pid),
        ) == Some(d),
        heard(
            log,
            at,
            device_appears(w) + (
                device_readied(bus, device)
                    + usb_attached(w, vm, normalized(h.vid), normalized(h.pid), d.name)
            ),
        ),
    ensures
        came(
            spec_pass_on(log, at, vm, h),
            log,
            at,
            device_appears(w) + (
                device_readied(bus, device)
                    + usb_attached(w, vm, normalized(h.vid), normalized(h.pid), d.name)
            ),
            Ok(()),
        ),
{
    broadcast use {encode_utf8_valid_utf8, encode_utf8_decode_utf8};

    let whole = spec_pass_on(log, at, vm, h);
    let t0 = device_appears(w);
    let t1 = device_readied(bus, device);
    let t2 = usb_attached(w, vm, normalized(h.vid), normalized(h.pid), d.name);
    lemma_heard(log, at, t0, t1 + t2);
    assert(
        came(
            spec_await_device(log, at, normalized(h.vid), normalized(h.pid), 50),
            log,
            at,
            t0,
            Ok(Some((bus, device))),
        )
    );
    if log.len() >= at + t0.len() {
        let at1 = at + t0.len();
        lemma_heard(log, at1, t1, t2);
        assert(came(readying(log, at1, bus, device), log, at1, t1, Ok(())));
        if log.len() >= at1 + t1.len() {
            let at2 = at1 + t1.len();
            lemma_usb_attached(
                log,
                at2,
                Front::Tool,
                w,
                vm,
                normalized(h.vid),
                normalized(h.pid),
                d,
            );
            assert(came(whole, log, at2, t2, Ok(())));
        }
        lemma_came(readying(log, at1, bus, device), (), whole, log, at1, t1, t2, Ok(()));
    }
    lemma_came(
        spec_await_device(log, at, normalized(h.vid), normalized(h.pid), 50),
        Some((bus, device)),
        whole,
        log,
        at,
        t0,
        t1 + t2,
        Ok(()),
    );
}

/// What the host replies while a HID device is brought to a virtual machine:
/// why there is no process number, the path of this program, the daemon's port
/// and its reply, the status of the controller, its free port and the number of
/// the connection, and where the device appears.
pub struct Plugging {
    pub gone: Chain,
    pub program: Seq<char>,
    pub port: u64,
    pub header: Seq<u8>,
    pub info: Seq<u8>,
    pub status: Seq<char>,
    pub rhport: u64,
    pub sockfd: u64,
    pub bus: Seq<char>,
    pub device: Seq<char>,
}

/// Those replies fit: the port is one, the daemon grants its device, the
/// controller has a free port, and the device appears with its ids.
pub open spec fn plugs(w: World, h: HidView, x: Plugging) -> bool {
    &&& x.port <= 0xffff
    &&& grants(x.header, x.info)
    &&& free_port(x.status) == Some(x.rhport)
    &&& place_of(w.lsusb, normalized(h.vid), normalized(h.pid), true) == Some((x.bus, x.device))
}

/// The connection with the daemon: the device is asked for and plugged in.
pub open spec fn device_connected(w: World, name: Seq<char>, x: Plugging) -> Talk {
    daemon_reached(w, name, x.port) + (device_imported(x.header, x.info) + (device_plugged(
        w,
        name,
        x.status,
        x.rhport,
        x.sockfd,
    ) + seq![(RequestView::HangUp, ReplyView::Done)]))
}

/// The device appears and is handed to the virtual machine.
pub open spec fn device_passed_on(
    w: World,
    vm: Seq<char>,
    h: HidView,
    x: Plugging,
    name: Seq<char>,
) -> Talk {
    device_appears(w) + (device_readied(x.bus, x.device) + usb_attached(
        w,
        vm,
        normalized(h.vid),
        normalized(h.pid),
        name,
    ))
}

/// A HID device whose daemon is not there yet is attached: the daemon is started
/// with the ids of the device, the device is plugged in, and handed to the
/// virtual machine.
pub open spec fn hid_attached(
    w: World,
    vm: Seq<char>,
    h: HidView,
    x: Plugging,
    name: Seq<char>,
) -> Talk {
    hids_read(w) + (seq![unpaused_listed(w)] + (daemon_absent(w, h.name, x.gone) + hid_handed(
        w,
        vm,
        h,
        x,
        name,
    )))
}

/// The kernel's module is loaded, the daemon is started with the ids of the
/// device, and the device is brought to the virtual machine.
pub open spec fn hid_handed(
    w: World,
    vm: Seq<char>,
    h: HidView,
    x: Plugging,
    name: Seq<char>,
) -> Talk {
    seq![run(seq!["modprobe"@, "vhci-hcd"@], w.said)] + ((daemon_absent(w, h.name, x.gone)
        + daemon_spawned(w, h.name, h.vid, h.pid, x.program)) + (device_connected(w, h.name, x)
        + device_passed_on(w, vm, h, x, name)))
}

/// A HID device that is attached is detached: it is taken from the virtual
/// machine and unplugged, and its daemon is ended.
pub open spec fn hid_detached(
    w: World,
    vm: Seq<char>,
    h: HidView,
    rhport: u64,
    id: u64,
    name: Seq<char>,
) -> Talk {
    hids_read(w) + (seq![unpaused_listed(w)] + (seq![described(w, vm)] + hid_released(
        w,
        vm,
        h,
        rhport,
        id,
        name,
    )))
}

/// A HID device is taken from the virtual machine and unplugged, and its daemon
/// is ended.
pub open spec fn hid_released(
    w: World,
    vm: Seq<char>,
    h: HidView,
    rhport: u64,
    id: u64,
    name: Seq<char>,
) -> Talk {
    seq![described(w, vm)] + (usb_detached(
        w,
        vm,
        normalized(h.vid),
        normalized(h.pid),
        name,
    ) + (device_unplugged(w, h.name, rhport) + ((daemon_killed(w, h.name, id) + state_removed(
        w,
        h.name,
    )) + seq![
        told(
            line().push(bold_green("✓"@)).push(plain(" Detached HID device "@)).push(
                cyan(h.name),
            ).push(plain(" from "@)).push(yellow(vm)),
        ),
    ])))
}

/// It is told of a HID device with a daemon and of the virtual machine that has
/// it or not.
pub open spec fn hid_status(w: World, vm: Seq<char>, h: HidView, id: u64, attached: bool) -> Talk {
    hids_read(w) + (seq![active_listed(w), vm_told(vm, true)] + (daemon_known(w, h.name, id, true)
        + (seq![
        told(
            line().push(cyan("⌨"@)).push(plain(" HID Device ("@)).push(cyan(h.name)).push(
                plain("): "@ + (h.vid + ":"@ + h.pid) + "  daemon: "@),
            ).push(green("active"@)),
        ),
    ] + (daemon_known(w, h.name, id, true) + seq![described(w, vm), attachment_told(attached)]))))
}

/// A text is typed over a HID device that the virtual machine has.
pub open spec fn text_typed(
    w: World,
    vm: Seq<char>,
    h: HidView,
    id: u64,
    text: Seq<char>,
    no_enter: bool,
) -> Talk {
    seq![active_listed(w)] + (hids_read(w) + (daemon_known(w, h.name, id, true) + keys_sent(
        w,
        vm,
        h,
        text,
        no_enter,
    )))
}

/// The keys are sent to the daemon: the text, and Enter behind it unless that is
/// unwanted.
pub open spec fn keys_sent(
    w: World,
    vm: Seq<char>,
    h: HidView,
    text: Seq<char>,
    no_enter: bool,
) -> Talk {
    let keys = if no_enter {
        text
    } else {
        text + seq!['\r']
    };
    seq![
        described(w, vm),
        data_asked(w),
        (RequestView::ConnectSocket(state_file(w, h.name, ".sock"@)), ReplyView::Done),
        (RequestView::Send(encode_utf8(keys)), ReplyView::Done),
        told(
            line().push(bold_green("✓"@)).push(
                plain(" Typed "@ + decimal(text.len() as int) + " character(s) via "@),
            ).push(cyan(h.name)).push(plain(" to "@)).push(yellow(vm)),
        ),
    ]
}

#[verifier::spinoff_prover]
proof fn lemma_brought_over(
    log: Log,
    at: int,
    w: World,
    vm: Seq<char>,
    h: HidView,
    x: Plugging,
    d: UsbView,
)
    requires
        settled(w),
        plugs(w, h, x),
        lists_vm(w.unpaused, vm),
        !hostdevs_in(w.xml).contains((normalized(h.vid), normalized(h.pid))),
        device_with(
            usb_listed(lines_of(w.lsusb), true),
            normalized(h.vid),
            normalized(h.pid),
        ) == Some(d),
        heard(log, at, device_connected(w, h.name, x) + device_passed_on(w, vm, h, x, d.name)),
    ensures
        came(
            spec_bring_over(log, at, vm, h),
            log,
            at,
            device_connected(w, h.name, x) + device_passed_on(w, vm, h, x, d.name),
            Ok(()),
        ),
{
    broadcast use {encode_utf8_valid_utf8, encode_utf8_decode_utf8};

    let whole = spec_bring_over(log, at, vm, h);
    let t0 = device_connected(w, h.name, x);
    let t1 = device_passed_on(w, vm, h, x, d.name);
    lemma_heard(log, at, t0, t1);
    lemma_device_connected(
        log,
        at,
        w,
        h.name,
        x.port,
        x.header,
        x.info,
        x.status,
        x.rhport,
        x.sockfd,
    );
    assert(came(spec_connect_device(log, at, h.name), log, at, t0, Ok(())));
    if log.len() >= at + t0.len() {
        let at1 = at + t0.len();
        lemma_device_passed_on(log, at1, w, vm, h, x.bus, x.device, d);
        assert(came(whole, log, at1, t1, Ok(())));
    }
    lemma_came(spec_connect_device(log, at, h.name), (), whole, log, at, t0, t1, Ok(()));
}

#[verifier::spinoff_prover]
proof fn lemma_hid_handed(
    log: Log,
    at: int,
    w: World,
    vm: Seq<char>,
    h: HidView,
    x: Plugging,
    d: UsbView,
)
    requires
        settled(w),
        plugs(w, h, x),
        lists_vm(w.unpaused, vm),
        !hostdevs_in(w.xml).contains((normalized(h.vid), normalized(h.pid))),
        device_with(
            usb_listed(lines_of(w.lsusb), true),
            normalized(h.vid),
            normalized(h.pid),
        ) == Some(d),
        heard(
            log,
            at,
            seq![run(seq!["modprobe"@, "vhci-hcd"@], w.said)] + (
                (
                    daemon_absent(w, h.name, x.gone)
                        + daemon_spawned(w, h.name, h.vid, h.pid, x.program)
                )
                    + (device_connected(w, h.name, x) + device_passed_on(w, vm, h, x, d.name))
            ),
        ),
    ensures
        came(
            spec_hand_hid(log, at, vm, h),
            log,
            at,
            seq![run(seq!["modprobe"@, "vhci-hcd"@], w.said)] + (
                (
                    daemon_absent(w, h.name, x.gone)
                        + daemon_spawned(w, h.name, h.vid, h.pid, x.program)
                )
                    + (device_connected(w, h.name, x) + device_passed_on(w, vm, h, x, d.name))
            ),
            Ok(()),
        ),
{
    broadcast use {encode_utf8_valid_utf8, encode_utf8_decode_utf8};

    let whole = spec_hand_hid(log, at, vm, h);
    let t0 = seq![run(seq!["modprobe"@, "vhci-hcd"@], w.said)];
    let t1 = (
        daemon_absent(w, h.name, x.gone) + daemon_spawned(w, h.name, h.vid, h.pid, x.program)
    );
    let t2 = (device_connected(w, h.name, x) + device_passed_on(w, vm, h, x, d.name));
    lemma_heard(log, at, t0, t1 + t2);
    lemma_ran(log, at, seq!["modprobe"@, "vhci-hcd"@], w.said);
    assert(
        came(spec_run_command(log, at, seq!["modprobe"@, "vhci-hcd"@]), log, at, t0, Ok(w.said))
    );
    if log.len() >= at + t0.len() {
        let at1 = at + t0.len();
        lemma_heard(log, at1, t1, t2);
        lemma_daemon_spawned(log, at1, w, h.name, h.vid, h.pid, x.program, x.gone);
        assert(came(spec_start_hid_daemon(log, at1, h.name, h.vid, h.pid), log, at1, t1, Ok(())));
        if log.len() >= at1 + t1.len() {
            let at2 = at1 + t1.len();
            lemma_brought_over(log, at2, w, vm, h, x, d);
            assert(came(whole, log, at2, t2, Ok(())));
        }
        lemma_came(
            spec_start_hid_daemon(log, at1, h.name, h.vid, h.pid),
            (),
            whole,
            log,
            at1,
            t1,
            t2,
            Ok(()),
        );
    }
    lemma_came(
        spec_run_command(log, at, seq!["modprobe"@, "vhci-hcd"@]),
        w.said,
        whole,
        log,
        at,
        t0,
        t1 + t2,
        Ok(()),
    );
}

#[verifier::spinoff_prover]
proof fn lemma_hid_attached(
    log: Log,
    at: int,
    w: World,
    vm: Seq<char>,
    h: HidView,
    k: int,
    x: Plugging,
    d: UsbView,
)
    requires
        settled(w),
        first_hid(w.hids, h.name, k),
        w.hids[k] == h,
        plugs(w, h, x),
        lists_vm(w.unpaused, vm),
        !hostdevs_in(w.xml).contains((normalized(h.vid), normalized(h.pid))),
        device_with(
            usb_listed(lines_of(w.lsusb), true),
            normalized(h.vid),
            normalized(h.pid),
        ) == Some(d),
        heard(
            log,
            at,
            hids_read(w) + (
                seq![unpaused_listed(w)]
                    + (daemon_absent(w, h.name, x.gone) + hid_handed(w, vm, h, x, d.name))
            ),
        ),
    ensures
        came(
            spec_attach_hid_device(log, at, vm, h.name),
            log,
            at,
            hids_read(w) + (
                seq![unpaused_listed(w)]
                    + (daemon_absent(w, h.name, x.gone) + hid_handed(w, vm, h, x, d.name))
            ),
            Ok(()),
        ),
{
    lemma_hid_from(w.hids, h.name, 0);
    broadcast use {encode_utf8_valid_utf8, encode_utf8_decode_utf8};

    let whole = spec_attach_hid_device(log, at, vm, h.name);
    let t0 = hids_read(w);
    let t1 = seq![unpaused_listed(w)];
    let t2 = daemon_absent(w, h.name, x.gone);
    let t3 = hid_handed(w, vm, h, x, d.name);
    lemma_heard(log, at, t0, t1 + (t2 + t3));
    lemma_hids_read(log, at, w);
    assert(came(spec_load_hid_devices(log, at), log, at, t0, Ok(w.hids)));
    if log.len() >= at + t0.len() {
        let at1 = at + t0.len();
        lemma_heard(log, at1, t1, t2 + t3);
        assert(came(spec_check_vm_unpaused(log, at1, vm), log, at1, t1, Ok(true)));
        if log.len() >= at1 + t1.len() {
            let at2 = at1 + t1.len();
            lemma_heard(log, at2, t2, t3);
            lemma_daemon_absent(log, at2, w, h.name, x.gone);
            assert(came(spec_is_hid_device_attached(log, at2, vm, h), log, at2, t2, Ok(false)));
            if log.len() >= at2 + t2.len() {
                let at3 = at2 + t2.len();
                lemma_hid_handed(log, at3, w, vm, h, x, d);
                assert(came(whole, log, at3, t3, Ok(())));
            }
            lemma_came(
                spec_is_hid_device_attached(log, at2, vm, h),
                false,
                whole,
                log,
                at2,
                t2,
                t3,
                Ok(()),
            );
        }
        lemma_came(
            spec_check_vm_unpaused(log, at1, vm),
            true,
            whole,
            log,
            at1,
            t1,
            t2 + t3,
            Ok(()),
        );
    }
    lemma_came(spec_load_hid_devices(log, at), w.hids, whole, log, at, t0, t1 + (t2 + t3), Ok(()));
}

#[verifier::spinoff_prover]
pub proof fn lemma_device_unplugged(log: Log, at: int, w: World, name: Seq<char>, rhport: u64)
    requires
        settled(w),
        rhport <= 0xffff_ffff,
        heard(log, at, device_unplugged(w, name, rhport)),
    ensures
        came(
            spec_detach_vhci(log, at, name),
            log,
            at,
            device_unplugged(w, name, rhport),
            Ok(()),
        ),
{
    broadcast use {encode_utf8_valid_utf8, encode_utf8_decode_utf8};

    let whole = spec_detach_vhci(log, at, name);
    let t0 = device_unplugged(w, name, rhport);
    lemma_paths(w.data, "hid-"@ + name + ".vhci-port"@);
    lemma_controller("detach"@);
    law_kept_number_is_read_back(at + 3, rhport, 0xffff_ffff, "Invalid vhci port in state file"@);
    assert(came(whole, log, at, t0, Ok(())));
}

#[verifier::spinoff_prover]
pub proof fn lemma_state_removed(log: Log, at: int, w: World, name: Seq<char>)
    requires
        settled(w),
        heard(log, at, state_removed(w, name)),
    ensures
        came(
            spec_cleanup_hid_state_files(log, at, name),
            log,
            at,
            state_removed(w, name),
            Ok(()),
        ),
{
    broadcast use {encode_utf8_valid_utf8, encode_utf8_decode_utf8};

    let whole = spec_cleanup_hid_state_files(log, at, name);
    let t0 = state_removed(w, name);
    lemma_paths(w.data, "hid-"@ + name + ".pid"@);
    lemma_paths(w.data, "hid-"@ + name + ".port"@);
    lemma_paths(w.data, "hid-"@ + name + ".sock"@);
    lemma_paths(w.data, "hid-"@ + name + ".vhci-port"@);
    assert(came(whole, log, at, t0, Ok(())));
}

#[verifier::spinoff_prover]
pub proof fn lemma_daemon_killed(log: Log, at: int, w: World, name: Seq<char>, id: u64)
    requires
        settled(w),
        id <= 0xffff_ffff,
        heard(log, at, daemon_killed(w, name, id) + state_removed(w, name)),
    ensures
        came(
            spec_stop_hid_daemon(log, at, name),
            log,
            at,
            daemon_killed(w, name, id) + state_removed(w, name),
            Ok(()),
        ),
{
    broadcast use {encode_utf8_valid_utf8, encode_utf8_decode_utf8};

    let whole = spec_stop_hid_daemon(log, at, name);
    let t0 = daemon_killed(w, name, id);
    let t1 = state_removed(w, name);
    lemma_heard(log, at, t0, t1);
    lemma_paths(w.data, "hid-"@ + name + ".pid"@);
    law_kept_number_is_read_back(at + 2, id, 0xffff_ffff, "Invalid process number"@);
    assert(came(killing(log, at, name), log, at, t0, Ok(())));
    if log.len() >= at + t0.len() {
        let at1 = at + t0.len();
        lemma_state_removed(log, at1, w, name);
        assert(came(whole, log, at1, t1, Ok(())));
    }
    lemma_came(killing(log, at, name), (), whole, log, at, t0, t1, Ok(()));
}

/// Ending the daemon, without what follows.
pub open spec fn killing(log: Log, at: int, name: Seq<char>) -> Outcome<()> {
    bind(
        spec_attempt(spec_daemon_pid(log, at, name)),
        |pid: Option<u64>, at: int|
            match pid {
                Some(pid) => spec_tell(
                    log,
                    at,
                    RequestView::RunShown(seq!["kill"@, "-TERM"@, decimal(pid as int)]),
                ),
                None => Outcome::Ready((), at),
            },
    )
}

#[verifier::spinoff_prover]
proof fn lemma_hid_released(
    log: Log,
    at: int,
    w: World,
    vm: Seq<char>,
    h: HidView,
    rhport: u64,
    id: u64,
    d: UsbView,
)
    requires
        settled(w),
        rhport <= 0xffff_ffff,
        id <= 0xffff_ffff,
        lists_vm(w.unpaused, vm),
        hostdevs_in(w.xml).contains((normalized(h.vid), normalized(h.pid))),
        device_with(
            usb_listed(lines_of(w.lsusb), true),
            normalized(h.vid),
            normalized(h.pid),
        ) == Some(d),
        heard(
            log,
            at,
            seq![described(w, vm)] + (
                usb_detached(w, vm, normalized(h.vid), normalized(h.pid), d.name)
                    + (
                        device_unplugged(w, h.name, rhport)
                            + (
                                (daemon_killed(w, h.name, id) + state_removed(w, h.name))
                                    + seq![
                                        told(
                                            line().push(bold_green("✓"@)).push(
                                                plain(" Detached HID device "@),
                                            ).push(cyan(h.name)).push(plain(" from "@)).push(yellow(vm)),
                                        ),
                                    ]
                            )
                    )
            ),
        ),
    ensures
        came(
            spec_release_hid(log, at, vm, h),
            log,
            at,
            seq![described(w, vm)] + (
                usb_detached(w, vm, normalized(h.vid), normalized(h.pid), d.name)
                    + (
                        device_unplugged(w, h.name, rhport)
                            + (
                                (daemon_killed(w, h.name, id) + state_removed(w, h.name))
                                    + seq![
                                        told(
                                            line().push(bold_green("✓"@)).push(
                                                plain(" Detached HID device "@),
                                            ).push(cyan(h.name)).push(plain(" from "@)).push(yellow(vm)),
                                        ),
                                    ]
                            )
                    )
            ),
            Ok(()),
        ),
{
    broadcast use {encode_utf8_valid_utf8, encode_utf8_decode_utf8};

    let whole = spec_release_hid(log, at, vm, h);
    let t0 = seq![described(w, vm)];
    let t1 = usb_detached(w, vm, normalized(h.vid), normalized(h.pid), d.name);
    let t2 = device_unplugged(w, h.name, rhport);
    let t3 = (daemon_killed(w, h.name, id) + state_removed(w, h.name));
    let t4 = seq![
        told(
            line().push(bold_green("✓"@)).push(
                plain(" Detached HID device "@),
            ).push(cyan(h.name)).push(plain(" from "@)).push(yellow(vm)),
        ),
    ];
    lemma_heard(log, at, t0, t1 + (t2 + (t3 + t4)));
    assert(
        came(
            spec_is_device_attached(log, at, vm, normalized(h.vid), normalized(h.pid)),
            log,
            at,
            t0,
            Ok(true),
        )
    );
    if log.len() >= at + t0.len() {
        let at1 = at + t0.len();
        lemma_heard(log, at1, t1, t2 + (t3 + t4));
        lemma_usb_detached(log, at1, Front::Tool, w, vm, normalized(h.vid), normalized(h.pid), d);
        assert(
            came(
                spec_detach_device(Front::Tool, log, at1, vm, normalized(h.vid), normalized(h.pid)),
                log,
                at1,
                t1,
                Ok(()),
            )
        );
        if log.len() >= at1 + t1.len() {
            let at2 = at1 + t1.len();
            lemma_heard(log, at2, t2, t3 + t4);
            lemma_device_unplugged(log, at2, w, h.name, rhport);
            assert(came(spec_detach_vhci(log, at2, h.name), log, at2, t2, Ok(())));
            if log.len() >= at2 + t2.len() {
                let at3 = at2 + t2.len();
                lemma_heard(log, at3, t3, t4);
                lemma_daemon_killed(log, at3, w, h.name, id);
                assert(came(spec_stop_hid_daemon(log, at3, h.name), log, at3, t3, Ok(())));
                if log.len() >= at3 + t3.len() {
                    let at4 = at3 + t3.len();
                    assert(came(whole, log, at4, t4, Ok(())));
                }
                lemma_came(
                    spec_stop_hid_daemon(log, at3, h.name),
                    (),
                    whole,
                    log,
                    at3,
                    t3,
                    t4,
                    Ok(()),
                );
            }
            lemma_came(
                spec_detach_vhci(log, at2, h.name),
                (),
                whole,
                log,
                at2,
                t2,
                t3 + t4,
                Ok(()),
            );
        }
        lemma_came(
            spec_detach_device(Front::Tool, log, at1, vm, normalized(h.vid), normalized(h.pid)),
            (),
            whole,
            log,
            at1,
            t1,
            t2 + (t3 + t4),
            Ok(()),
        );
    }
    lemma_came(
        spec_is_device_attached(log, at, vm, normalized(h.vid), normalized(h.pid)),
        true,
        whole,
        log,
        at,
        t0,
        t1 + (t2 + (t3 + t4)),
        Ok(()),
    );
}

#[verifier::spinoff_prover]
proof fn lemma_hid_detached(
    log: Log,
    at: int,
    w: World,
    vm: Seq<char>,
    h: HidView,
    k: int,
    rhport: u64,
    id: u64,
    d: UsbView,
)
    requires
        settled(w),
        first_hid(w.hids, h.name, k),
        w.hids[k] == h,
        rhport <= 0xffff_ffff,
        id <= 0xffff_ffff,
        lists_vm(w.unpaused, vm),
        hostdevs_in(w.xml).contains((normalized(h.vid), normalized(h.pid))),
        device_with(
            usb_listed(lines_of(w.lsusb), true),
            normalized(h.vid),
            normalized(h.pid),
        ) == Some(d),
        heard(
            log,
            at,
            hids_read(w) + (
                seq![unpaused_listed(w)]
                    + (seq![described(w, vm)] + hid_released(w, vm, h, rhport, id, d.name))
            ),
        ),
    ensures
        came(
            spec_detach_hid_device(log, at, vm, h.name),
            log,
            at,
            hids_read(w) + (
                seq![unpaused_listed(w)]
                    + (seq![described(w, vm)] + hid_released(w, vm, h, rhport, id, d.name))
            ),
            Ok(()),
        ),
{
    lemma_hid_from(w.hids, h.name, 0);
    broadcast use {encode_utf8_valid_utf8, encode_utf8_decode_utf8};

    let whole = spec_detach_hid_device(log, at, vm, h.name);
    let t0 = hids_read(w);
    let t1 = seq![unpaused_listed(w)];
    let t2 = seq![described(w, vm)];
    let t3 = hid_released(w, vm, h, rhport, id, d.name);
    lemma_heard(log, at, t0, t1 + (t2 + t3));
    lemma_hids_read(log, at, w);
    assert(came(spec_load_hid_devices(log, at), log, at, t0, Ok(w.hids)));
    if log.len() >= at + t0.len() {
        let at1 = at + t0.len();
        lemma_heard(log, at1, t1, t2 + t3);
        assert(came(spec_check_vm_unpaused(log, at1, vm), log, at1, t1, Ok(true)));
        if log.len() >= at1 + t1.len() {
            let at2 = at1 + t1.len();
            lemma_heard(log, at2, t2, t3);
            assert(
                came(
                    spec_is_device_attached(log, at2, vm, normalized(h.vid), normalized(h.pid)),
                    log,
                    at2,
                    t2,
                    Ok(true),
                )
            );
            if log.len() >= at2 + t2.len() {
                let at3 = at2 + t2.len();
                lemma_hid_released(log, at3, w, vm, h, rhport, id, d);
                assert(came(whole, log, at3, t3, Ok(())));
            }
            lemma_came(
                spec_is_device_attached(log, at2, vm, normalized(h.vid), normalized(h.pid)),
                true,
                whole,
                log,
                at2,
                t2,
                t3,
                Ok(()),
            );
        }
        lemma_came(
            spec_check_vm_unpaused(log, at1, vm),
            true,
            whole,
            log,
            at1,
            t1,
            t2 + t3,
            Ok(()),
        );
    }
    lemma_came(spec_load_hid_devices(log, at), w.hids, whole, log, at, t0, t1 + (t2 + t3), Ok(()));
}

#[verifier::spinoff_prover]
proof fn lemma_hid_state_told(
    log: Log,
    at: int,
    w: World,
    vm: Seq<char>,
    h: HidView,
    id: u64,
    attached: bool,
)
    requires
        settled(w),
        id <= 0xffff_ffff,
        attached == hostdevs_in(w.xml).contains((normalized(h.vid), normalized(h.pid))),
        heard(
            log,
            at,
            daemon_known(w, h.name, id, true) + (
                seq![
                    told(
                        line().push(cyan("⌨"@)).push(plain(" HID Device ("@)).push(cyan(h.name)).push(
                            plain("): "@ + (h.vid + ":"@ + h.pid) + "  daemon: "@),
                        ).push(green("active"@)),
                    ),
                ]
                    + (
                        daemon_known(w, h.name, id, true)
                            + seq![described(w, vm), attachment_told(attached)]
                    )
            ),
        ),
    ensures
        came(
            spec_show_hid_state(log, at, vm, h, true),
            log,
            at,
            daemon_known(w, h.name, id, true) + (
                seq![
                    told(
                        line().push(cyan("⌨"@)).push(plain(" HID Device ("@)).push(cyan(h.name)).push(
                            plain("): "@ + (h.vid + ":"@ + h.pid) + "  daemon: "@),
                        ).push(green("active"@)),
                    ),
                ]
                    + (
                        daemon_known(w, h.name, id, true)
                            + seq![described(w, vm), attachment_told(attached)]
                    )
            ),
            Ok(()),
        ),
{
    broadcast use {encode_utf8_valid_utf8, encode_utf8_decode_utf8};

    let whole = spec_show_hid_state(log, at, vm, h, true);
    let t0 = daemon_known(w, h.name, id, true);
    let t1 = seq![
        told(
            line().push(cyan("⌨"@)).push(plain(" HID Device ("@)).push(cyan(h.name)).push(
                plain("): "@ + (h.vid + ":"@ + h.pid) + "  daemon: "@),
            ).push(green("active"@)),
        ),
    ];
    let t2 = daemon_known(w, h.name, id, true);
    let t3 = seq![described(w, vm), attachment_told(attached)];
    lemma_heard(log, at, t0, t1 + (t2 + t3));
    lemma_daemon_known(log, at, w, h.name, id, true);
    assert(came(spec_is_hid_daemon_running(log, at, h.name), log, at, t0, Ok(true)));
    if log.len() >= at + t0.len() {
        let at1 = at + t0.len();
        lemma_heard(log, at1, t1, t2 + t3);
        assert(came(spec_say(log, at1, t1[0].0->Say_0), log, at1, t1, Ok(())));
        if log.len() >= at1 + t1.len() {
            let at2 = at1 + t1.len();
            lemma_heard(log, at2, t2, t3);
            lemma_daemon_known(log, at2, w, h.name, id, true);
            assert(came(spec_is_hid_daemon_running(log, at2, h.name), log, at2, t2, Ok(true)));
            if log.len() >= at2 + t2.len() {
                let at3 = at2 + t2.len();
                assert(came(whole, log, at3, t3, Ok(())));
            }
            lemma_came(
                spec_is_hid_daemon_running(log, at2, h.name),
                true,
                whole,
                log,
                at2,
                t2,
                t3,
                Ok(()),
            );
        }
        lemma_came(spec_say(log, at1, t1[0].0->Say_0), (), whole, log, at1, t1, t2 + t3, Ok(()));
    }
    lemma_came(
        spec_is_hid_daemon_running(log, at, h.name),
        true,
        whole,
        log,
        at,
        t0,
        t1 + (t2 + t3),
        Ok(()),
    );
}

#[verifier::spinoff_prover]
proof fn lemma_hid_status(
    log: Log,
    at: int,
    w: World,
    vm: Seq<char>,
    h: HidView,
    k: int,
    id: u64,
    attached: bool,
)
    requires
        settled(w),
        first_hid(w.hids, h.name, k),
        w.hids[k] == h,
        id <= 0xffff_ffff,
        lists_vm(w.active, vm),
        attached == hostdevs_in(w.xml).contains((normalized(h.vid), normalized(h.pid))),
        heard(
            log,
            at,
            hids_read(w) + (
                seq![active_listed(w), vm_told(vm, true)]
                    + (
                        daemon_known(w, h.name, id, true)
                            + (
                                seq![
                                    told(
                                        line().push(cyan("⌨"@)).push(plain(" HID Device ("@)).push(cyan(h.name)).push(
                                            plain("): "@ + (h.vid + ":"@ + h.pid) + "  daemon: "@),
                                        ).push(green("active"@)),
                                    ),
                                ]
                                    + (
                                        daemon_known(w, h.name, id, true)
                                            + seq![described(w, vm), attachment_told(attached)]
                                    )
                            )
                    )
            ),
        ),
    ensures
        came(
            spec_show_hid_status(log, at, vm, h.name),
            log,
            at,
            hids_read(w) + (
                seq![active_listed(w), vm_told(vm, true)]
                    + (
                        daemon_known(w, h.name, id, true)
                            + (
                                seq![
                                    told(
                                        line().push(cyan("⌨"@)).push(plain(" HID Device ("@)).push(cyan(h.name)).push(
                                            plain("): "@ + (h.vid + ":"@ + h.pid) + "  daemon: "@),
                                        ).push(green("active"@)),
                                    ),
                                ]
                                    + (
                                        daemon_known(w, h.name, id, true)
                                            + seq![described(w, vm), attachment_told(attached)]
                                    )
                            )
                    )
            ),
            Ok(()),
        ),
{
    lemma_hid_from(w.hids, h.name, 0);
    broadcast use {encode_utf8_valid_utf8, encode_utf8_decode_utf8};

    let whole = spec_show_hid_status(log, at, vm, h.name);
    let t0 = hids_read(w);
    let t1 = seq![active_listed(w), vm_told(vm, true)];
    let t2 = (
        daemon_known(w, h.name, id, true)
            + (
                seq![
                    told(
                        line().push(cyan("⌨"@)).push(plain(" HID Device ("@)).push(cyan(h.name)).push(
                            plain("): "@ + (h.vid + ":"@ + h.pid) + "  daemon: "@),
                        ).push(green("active"@)),
                    ),
                ]
                    + (
                        daemon_known(w, h.name, id, true)
                            + seq![described(w, vm), attachment_told(attached)]
                    )
            )
    );
    lemma_heard(log, at, t0, t1 + t2);
    lemma_hids_read(log, at, w);
    assert(came(spec_load_hid_devices(log, at), log, at, t0, Ok(w.hids)));
    if log.len() >= at + t0.len() {
        let at1 = at + t0.len();
        lemma_heard(log, at1, t1, t2);
        assert(came(telling(log, at1, vm), log, at1, t1, Ok(())));
        if log.len() >= at1 + t1.len() {
            let at2 = at1 + t1.len();
            lemma_hid_state_told(log, at2, w, vm, h, id, attached);
            assert(came(whole, log, at2, t2, Ok(())));
        }
        lemma_came(telling(log, at1, vm), (), whole, log, at1, t1, t2, Ok(()));
    }
    lemma_came(spec_load_hid_devices(log, at), w.hids, whole, log, at, t0, t1 + t2, Ok(()));
}

/// Telling whether the virtual machine is active.
pub open spec fn telling(log: Log, at: int, vm: Seq<char>) -> Outcome<()> {
    bind(
        spec_check_vm_running(log, at, vm),
        |running: bool, at: int| spec_say(log, at, vm_line(vm, running)),
    )
}

#[verifier::spinoff_prover]
proof fn lemma_text_typed(
    log: Log,
    at: int,
    w: World,
    vm: Seq<char>,
    h: HidView,
    k: int,
    id: u64,
    text: Seq<char>,
    no_enter: bool,
)
    requires
        settled(w),
        first_hid(w.hids, h.name, k),
        w.hids[k] == h,
        id <= 0xffff_ffff,
        lists_vm(w.active, vm),
        hostdevs_in(w.xml).contains((normalized(h.vid), normalized(h.pid))),
        heard(
            log,
            at,
            seq![active_listed(w)] + (
                hids_read(w)
                    + (daemon_known(w, h.name, id, true) + keys_sent(w, vm, h, text, no_enter))
            ),
        ),
    ensures
        came(
            spec_hid_type(log, at, vm, h.name, text, no_enter),
            log,
            at,
            seq![active_listed(w)] + (
                hids_read(w)
                    + (daemon_known(w, h.name, id, true) + keys_sent(w, vm, h, text, no_enter))
            ),
            Ok(()),
        ),
{
    lemma_hid_from(w.hids, h.name, 0);
    broadcast use {encode_utf8_valid_utf8, encode_utf8_decode_utf8};

    let whole = spec_hid_type(log, at, vm, h.name, text, no_enter);
    let t0 = seq![active_listed(w)];
    let t1 = hids_read(w);
    let t2 = daemon_known(w, h.name, id, true);
    let t3 = keys_sent(w, vm, h, text, no_enter);
    lemma_heard(log, at, t0, t1 + (t2 + t3));
    assert(came(spec_check_vm_running(log, at, vm), log, at, t0, Ok(true)));
    if log.len() >= at + t0.len() {
        let at1 = at + t0.len();
        lemma_heard(log, at1, t1, t2 + t3);
        lemma_hids_read(log, at1, w);
        assert(came(spec_load_hid_devices(log, at1), log, at1, t1, Ok(w.hids)));
        if log.len() >= at1 + t1.len() {
            let at2 = at1 + t1.len();
            lemma_heard(log, at2, t2, t3);
            lemma_daemon_known(log, at2, w, h.name, id, true);
            assert(came(spec_is_hid_daemon_running(log, at2, h.name), log, at2, t2, Ok(true)));
            if log.len() >= at2 + t2.len() {
                let at3 = at2 + t2.len();
                lemma_paths(w.data, "hid-"@ + h.name + ".sock"@);
                assert(text + seq!['\r'] =~= text.push('\r'));
                assert(came(whole, log, at3, t3, Ok(())));
            }
            lemma_came(
                spec_is_hid_daemon_running(log, at2, h.name),
                true,
                whole,
                log,
                at2,
                t2,
                t3,
                Ok(()),
            );
        }
        lemma_came(spec_load_hid_devices(log, at1), w.hids, whole, log, at1, t1, t2 + t3, Ok(()));
    }
    lemma_came(
        spec_check_vm_running(log, at, vm),
        true,
        whole,
        log,
        at,
        t0,
        t1 + (t2 + t3),
        Ok(()),
    );
}

/// `attach` with the name of a HID device whose daemon is not there yet: the
/// daemon is started under that name and with the ids of that device, the
/// device is imported and plugged in, and handed to the virtual machine.
#[verifier::spinoff_prover]
pub proof fn law_attach_hid(
    log: Log,
    at: int,
    w: World,
    vm: Seq<char>,
    h: HidView,
    k: int,
    x: Plugging,
    d: UsbView,
)
    requires
        settled(w),
        !h.name.contains(':'),
        first_hid(w.hids, h.name, k),
        w.hids[k] == h,
        no_such_drive(w.drives, h.name),
        plugs(w, h, x),
        lists_vm(w.unpaused, vm),
        !hostdevs_in(w.xml).contains((normalized(h.vid), normalized(h.pid))),
        device_with(
            usb_listed(lines_of(w.lsusb), true),
            normalized(h.vid),
            normalized(h.pid),
        ) == Some(d),
        heard(
            log,
            at,
            vm_remembered(w, vm) + (
                (drives_read(w) + hids_read(w)) + hid_attached(w, vm, h, x, d.name)
            ),
        ),
    ensures
        came(
            spec_run_tool(log, at, asked(CommandsView::Attach, vm, h.name)),
            log,
            at,
            vm_remembered(w, vm) + (
                (drives_read(w) + hids_read(w)) + hid_attached(w, vm, h, x, d.name)
            ),
            Ok(Ending::Done),
        ),
{
    broadcast use {encode_utf8_valid_utf8, encode_utf8_decode_utf8};

    let whole = spec_run_tool(log, at, asked(CommandsView::Attach, vm, h.name));
    let t0 = vm_remembered(w, vm);
    let t1 = (drives_read(w) + hids_read(w));
    let t2 = hid_attached(w, vm, h, x, d.name);
    lemma_heard(log, at, t0, t1 + t2);
    lemma_vm_remembered(log, at, w, vm);
    assert(came(spec_attempt(spec_save_last_vm(log, at, vm)), log, at, t0, Ok(Some(()))));
    if log.len() >= at + t0.len() {
        let at1 = at + t0.len();
        lemma_heard(log, at1, t1, t2);
        lemma_hid_by_name(log, at1, w, vm, h.name, k, false);
        assert(
            came(
                spec_resolve_device(log, at1, vm, Some(h.name), false),
                log,
                at1,
                t1,
                Ok(SelectedView::Hid { name: h.name }),
            )
        );
        if log.len() >= at1 + t1.len() {
            let at2 = at1 + t1.len();
            lemma_hid_attached(log, at2, w, vm, h, k, x, d);
            assert(came(whole, log, at2, t2, Ok(Ending::Done)));
        }
        lemma_came(
            spec_resolve_device(log, at1, vm, Some(h.name), false),
            SelectedView::Hid { name: h.name },
            whole,
            log,
            at1,
            t1,
            t2,
            Ok(Ending::Done),
        );
    }
    lemma_came(
        spec_attempt(spec_save_last_vm(log, at, vm)),
        Some(()),
        whole,
        log,
        at,
        t0,
        t1 + t2,
        Ok(Ending::Done),
    );
}

/// `detach` with the name of a HID device that the virtual machine has: the
/// device is taken from the virtual machine and unplugged from its port, and
/// its daemon is ended.
#[verifier::spinoff_prover]
pub proof fn law_detach_hid(
    log: Log,
    at: int,
    w: World,
    vm: Seq<char>,
    h: HidView,
    k: int,
    rhport: u64,
    id: u64,
    d: UsbView,
)
    requires
        settled(w),
        !h.name.contains(':'),
        first_hid(w.hids, h.name, k),
        w.hids[k] == h,
        no_such_drive(w.drives, h.name),
        rhport <= 0xffff_ffff,
        id <= 0xffff_ffff,
        lists_vm(w.unpaused, vm),
        hostdevs_in(w.xml).contains((normalized(h.vid), normalized(h.pid))),
        device_with(
            usb_listed(lines_of(w.lsusb), true),
            normalized(h.vid),
            normalized(h.pid),
        ) == Some(d),
        heard(
            log,
            at,
            vm_remembered(w, vm) + (
                (drives_read(w) + hids_read(w)) + hid_detached(w, vm, h, rhport, id, d.name)
            ),
        ),
    ensures
        came(
            spec_run_tool(log, at, asked(CommandsView::Detach, vm, h.name)),
            log,
            at,
            vm_remembered(w, vm) + (
                (drives_read(w) + hids_read(w)) + hid_detached(w, vm, h, rhport, id, d.name)
            ),
            Ok(Ending::Done),
        ),
{
    broadcast use {encode_utf8_valid_utf8, encode_utf8_decode_utf8};

    let whole = spec_run_tool(log, at, asked(CommandsView::Detach, vm, h.name));
    let t0 = vm_remembered(w, vm);
    let t1 = (drives_read(w) + hids_read(w));
    let t2 = hid_detached(w, vm, h, rhport, id, d.name);
    lemma_heard(log, at, t0, t1 + t2);
    lemma_vm_remembered(log, at, w, vm);
    assert(came(spec_attempt(spec_save_last_vm(log, at, vm)), log, at, t0, Ok(Some(()))));
    if log.len() >= at + t0.len() {
        let at1 = at + t0.len();
        lemma_heard(log, at1, t1, t2);
        lemma_hid_by_name(log, at1, w, vm, h.name, k, true);
        assert(
            came(
                spec_resolve_device(log, at1, vm, Some(h.name), true),
                log,
                at1,
                t1,
                Ok(SelectedView::Hid { name: h.name }),
            )
        );
        if log.len() >= at1 + t1.len() {
            let at2 = at1 + t1.len();
            lemma_hid_detached(log, at2, w, vm, h, k, rhport, id, d);
            assert(came(whole, log, at2, t2, Ok(Ending::Done)));
        }
        lemma_came(
            spec_resolve_device(log, at1, vm, Some(h.name), true),
            SelectedView::Hid { name: h.name },
            whole,
            log,
            at1,
            t1,
            t2,
            Ok(Ending::Done),
        );
    }
    lemma_came(
        spec_attempt(spec_save_last_vm(log, at, vm)),
        Some(()),
        whole,
        log,
        at,
        t0,
        t1 + t2,
        Ok(Ending::Done),
    );
}

/// `status` with the name of a HID device: the user is told of the virtual
/// machine, of the device and its daemon, and whether it is attached.
#[verifier::spinoff_prover]
pub proof fn law_status_hid(
    log: Log,
    at: int,
    w: World,
    vm: Seq<char>,
    h: HidView,
    k: int,
    id: u64,
    attached: bool,
)
    requires
        settled(w),
        !h.name.contains(':'),
        first_hid(w.hids, h.name, k),
        w.hids[k] == h,
        no_such_drive(w.drives, h.name),
        id <= 0xffff_ffff,
        lists_vm(w.active, vm),
        attached == hostdevs_in(w.xml).contains((normalized(h.vid), normalized(h.pid))),
        heard(
            log,
            at,
            vm_remembered(w, vm) + (
                (drives_read(w) + hids_read(w)) + hid_status(w, vm, h, id, attached)
            ),
        ),
    ensures
        came(
            spec_run_tool(log, at, asked(CommandsView::Status, vm, h.name)),
            log,
            at,
            vm_remembered(w, vm) + (
                (drives_read(w) + hids_read(w)) + hid_status(w, vm, h, id, attached)
            ),
            Ok(Ending::Done),
        ),
{
    broadcast use {encode_utf8_valid_utf8, encode_utf8_decode_utf8};

    let whole = spec_run_tool(log, at, asked(CommandsView::Status, vm, h.name));
    let t0 = vm_remembered(w, vm);
    let t1 = (drives_read(w) + hids_read(w));
    let t2 = hid_status(w, vm, h, id, attached);
    lemma_heard(log, at, t0, t1 + t2);
    lemma_vm_remembered(log, at, w, vm);
    assert(came(spec_attempt(spec_save_last_vm(log, at, vm)), log, at, t0, Ok(Some(()))));
    if log.len() >= at + t0.len() {
        let at1 = at + t0.len();
        lemma_heard(log, at1, t1, t2);
        lemma_hid_by_name(log, at1, w, vm, h.name, k, false);
        assert(
            came(
                spec_resolve_device(log, at1, vm, Some(h.name), false),
                log,
                at1,
                t1,
                Ok(SelectedView::Hid { name: h.name }),
            )
        );
        if log.len() >= at1 + t1.len() {
            let at2 = at1 + t1.len();
            lemma_hid_status(log, at2, w, vm, h, k, id, attached);
            assert(came(whole, log, at2, t2, Ok(Ending::Done)));
        }
        lemma_came(
            spec_resolve_device(log, at1, vm, Some(h.name), false),
            SelectedView::Hid { name: h.name },
            whole,
            log,
            at1,
            t1,
            t2,
            Ok(Ending::Done),
        );
    }
    lemma_came(
        spec_attempt(spec_save_last_vm(log, at, vm)),
        Some(()),
        whole,
        log,
        at,
        t0,
        t1 + t2,
        Ok(Ending::Done),
    );
}

/// The command line for a command that needs neither virtual machine nor device.
pub open spec fn asked_only(command: CommandsView, vm: Option<Seq<char>>) -> CliView {
    CliView { vm, device: None, command }
}

/// `hid type` with a virtual machine and a HID device that it has: the text is
/// sent to the daemon of that device, with Enter behind it unless `--no-enter`
/// is given.
#[verifier::spinoff_prover]
pub proof fn law_type(
    log: Log,
    at: int,
    w: World,
    vm: Seq<char>,
    h: HidView,
    k: int,
    other: Option<Seq<char>>,
    id: u64,
    text: Seq<char>,
    no_enter: bool,
)
    requires
        settled(w),
        first_hid(w.hids, h.name, k),
        w.hids[k] == h,
        id <= 0xffff_ffff,
        lists_vm(w.active, vm),
        hostdevs_in(w.xml).contains((normalized(h.vid), normalized(h.pid))),
        heard(log, at, text_typed(w, vm, h, id, text, no_enter)),
    ensures
        came(
            spec_run_tool(
                log,
                at,
                asked_only(
                    CommandsView::Hid(
                        HidCommandsView::Type { text, vm: Some(vm), device: Some(h.name), no_enter },
                    ),
                    other,
                ),
            ),
            log,
            at,
            text_typed(w, vm, h, id, text, no_enter),
            Ok(Ending::Done),
        ),
{
    broadcast use {encode_utf8_valid_utf8, encode_utf8_decode_utf8};

    let whole = spec_run_tool(
        log,
        at,
        asked_only(
            CommandsView::Hid(
                HidCommandsView::Type { text, vm: Some(vm), device: Some(h.name), no_enter },
            ),
            other,
        ),
    );
    let t0 = text_typed(w, vm, h, id, text, no_enter);
    lemma_text_typed(log, at, w, vm, h, k, id, text, no_enter);
    assert(came(whole, log, at, t0, Ok(Ending::Done)));
}

// ---------------------------------------------------------------------------
// Making virtual devices
// ---------------------------------------------------------------------------

/// A drive is made: its volume first, then its entry in the list.
pub open spec fn drive_made(
    w: World,
    name: Seq<char>,
    size: Seq<char>,
    now: u64,
    text: Seq<char>,
) -> Talk {
    seq![
        run(
            seq![
                "virsh"@,
                "vol-create-as"@,
                "default"@,
                name + ".qcow2"@,
                size,
                "--format"@,
                "qcow2"@,
            ],
            w.said,
        ),
        (RequestView::Clock, ReplyView::Number(now)),
        data_asked(w),
        (
            RequestView::EncodeDrives(
                w.drives.push(DriveView { name, size, created_at_secs: now }),
            ),
            ReplyView::Text(text),
        ),
        written(w.data + "/"@ + "drives.json"@, text),
        told(
            line().push(bold_green("✓"@)).push(plain(" Created storage drive "@)).push(
                cyan(name),
            ).push(
                plain(" ("@ + size + ") at /var/lib/libvirt/images/"@ + (name + ".qcow2"@)),
            ),
        ),
    ]
}

/// A HID device is made: its entry in the list.
pub open spec fn hid_made(w: World, h: HidView, text: Seq<char>) -> Talk {
    seq![
        data_asked(w),
        (RequestView::EncodeHids(w.hids.push(h)), ReplyView::Text(text)),
        written(w.data + "/"@ + "hids.json"@, text),
        told(
            line().push(bold_green("✓"@)).push(plain(" Created HID device "@)).push(
                cyan(h.name),
            ).push(plain(" ("@ + (h.vid + ":"@ + h.pid) + ")"@)),
        ),
    ]
}

#[verifier::spinoff_prover]
pub proof fn lemma_drive_created(
    log: Log,
    at: int,
    w: World,
    name: Seq<char>,
    size: Seq<char>,
    now: u64,
    text: Seq<char>,
)
    requires
        settled(w),
        sanitized(name).len() > 0,
        name.len() > 0,
        no_such_drive(w.drives, sanitized(name)),
        no_such_hid(w.hids, sanitized(name)),
        heard(
            log,
            at,
            drives_read(w) + (hids_read(w) + drive_made(w, sanitized(name), size, now, text)),
        ),
    ensures
        came(
            spec_create_virtual_drive(log, at, name, size),
            log,
            at,
            drives_read(w) + (hids_read(w) + drive_made(w, sanitized(name), size, now, text)),
            Ok(()),
        ),
{
    lemma_drive_from(w.drives, sanitized(name), 0);
    lemma_hid_from(w.hids, sanitized(name), 0);
    broadcast use {encode_utf8_valid_utf8, encode_utf8_decode_utf8};

    let whole = spec_create_virtual_drive(log, at, name, size);
    let t0 = drives_read(w);
    let t1 = hids_read(w);
    let t2 = drive_made(w, sanitized(name), size, now, text);
    lemma_heard(log, at, t0, t1 + t2);
    lemma_drives_read(log, at, w);
    assert(came(spec_load_virtual_drives(log, at), log, at, t0, Ok(w.drives)));
    if log.len() >= at + t0.len() {
        let at1 = at + t0.len();
        lemma_heard(log, at1, t1, t2);
        lemma_hids_read(log, at1, w);
        assert(came(spec_load_hid_devices(log, at1), log, at1, t1, Ok(w.hids)));
        if log.len() >= at1 + t1.len() {
            let at2 = at1 + t1.len();
            lemma_paths(w.data, "drives.json"@);
            assert(came(whole, log, at2, t2, Ok(())));
        }
        lemma_came(spec_load_hid_devices(log, at1), w.hids, whole, log, at1, t1, t2, Ok(()));
    }
    lemma_came(spec_load_virtual_drives(log, at), w.drives, whole, log, at, t0, t1 + t2, Ok(()));
}

#[verifier::spinoff_prover]
pub proof fn lemma_hid_created(
    log: Log,
    at: int,
    w: World,
    name: Seq<char>,
    vid: Seq<char>,
    pid: Seq<char>,
    text: Seq<char>,
)
    requires
        settled(w),
        sanitized(name).len() > 0,
        name.len() > 0,
        no_such_drive(w.drives, sanitized(name)),
        no_such_hid(w.hids, sanitized(name)),
        heard(
            log,
            at,
            hids_read(w) + (
                drives_read(w) + hid_made(w, HidView { name: sanitized(name), vid, pid }, text)
            ),
        ),
    ensures
        came(
            spec_create_hid_device(log, at, name, vid, pid),
            log,
            at,
            hids_read(w) + (
                drives_read(w) + hid_made(w, HidView { name: sanitized(name), vid, pid }, text)
            ),
            Ok(()),
        ),
{
    lemma_drive_from(w.drives, sanitized(name), 0);
    lemma_hid_from(w.hids, sanitized(name), 0);
    broadcast use {encode_utf8_valid_utf8, encode_utf8_decode_utf8};

    let whole = spec_create_hid_device(log, at, name, vid, pid);
    let t0 = hids_read(w);
    let t1 = drives_read(w);
    let t2 = hid_made(w, HidView { name: sanitized(name), vid, pid }, text);
    lemma_heard(log, at, t0, t1 + t2);
    lemma_hids_read(log, at, w);
    assert(came(spec_load_hid_devices(log, at), log, at, t0, Ok(w.hids)));
    if log.len() >= at + t0.len() {
        let at1 = at + t0.len();
        lemma_heard(log, at1, t1, t2);
        lemma_drives_read(log, at1, w);
        assert(came(spec_load_virtual_drives(log, at1), log, at1, t1, Ok(w.drives)));
        if log.len() >= at1 + t1.len() {
            let at2 = at1 + t1.len();
            lemma_paths(w.data, "hids.json"@);
            assert(came(whole, log, at2, t2, Ok(())));
        }
        lemma_came(spec_load_virtual_drives(log, at1), w.drives, whole, log, at1, t1, t2, Ok(()));
    }
    lemma_came(spec_load_hid_devices(log, at), w.hids, whole, log, at, t0, t1 + t2, Ok(()));
}

/// `storage create` with a name that no virtual device has: a volume of the
/// given size is made under the sanitized name, and the drive is put at the end
/// of the list with that name, that size and the time.
#[verifier::spinoff_prover]
pub proof fn law_create_drive(
    log: Log,
    at: int,
    w: World,
    other: Option<Seq<char>>,
    name: Seq<char>,
    size: Seq<char>,
    now: u64,
    text: Seq<char>,
)
    requires
        settled(w),
        sanitized(name).len() > 0,
        name.len() > 0,
        no_such_drive(w.drives, sanitized(name)),
        no_such_hid(w.hids, sanitized(name)),
        heard(
            log,
            at,
            (drives_read(w) + (hids_read(w) + drive_made(w, sanitized(name), size, now, text))),
        ),
    ensures
        came(
            spec_run_tool(
                log,
                at,
                asked_only(
                    CommandsView::Storage(StorageCommandsView::Create { name, size }),
                    other,
                ),
            ),
            log,
            at,
            (drives_read(w) + (hids_read(w) + drive_made(w, sanitized(name), size, now, text))),
            Ok(Ending::Done),
        ),
{
    broadcast use {encode_utf8_valid_utf8, encode_utf8_decode_utf8};

    let whole = spec_run_tool(
        log,
        at,
        asked_only(CommandsView::Storage(StorageCommandsView::Create { name, size }), other),
    );
    let t0 = (drives_read(w) + (hids_read(w) + drive_made(w, sanitized(name), size, now, text)));
    lemma_drive_created(log, at, w, name, size, now, text);
    assert(came(whole, log, at, t0, Ok(Ending::Done)));
}

/// `hid create` with a name that no virtual device has: the HID device is put
/// at the end of the list with the sanitized name and the given ids.
#[verifier::spinoff_prover]
pub proof fn law_create_hid(
    log: Log,
    at: int,
    w: World,
    other: Option<Seq<char>>,
    name: Seq<char>,
    vid: Seq<char>,
    pid: Seq<char>,
    text: Seq<char>,
)
    requires
        settled(w),
        sanitized(name).len() > 0,
        name.len() > 0,
        no_such_drive(w.drives, sanitized(name)),
        no_such_hid(w.hids, sanitized(name)),
        heard(
            log,
            at,
            (
                hids_read(w)
                    + (
                        drives_read(w)
                            + hid_made(w, HidView { name: sanitized(name), vid, pid }, text)
                    )
            ),
        ),
    ensures
        came(
            spec_run_tool(
                log,
                at,
                asked_only(CommandsView::Hid(HidCommandsView::Create { name, vid, pid }), other),
            ),
            log,
            at,
            (
                hids_read(w)
                    + (
                        drives_read(w)
                            + hid_made(w, HidView { name: sanitized(name), vid, pid }, text)
                    )
            ),
            Ok(Ending::Done),
        ),
{
    broadcast use {encode_utf8_valid_utf8, encode_utf8_decode_utf8};

    let whole = spec_run_tool(
        log,
        at,
        asked_only(CommandsView::Hid(HidCommandsView::Create { name, vid, pid }), other),
    );
    let t0 = (
        hids_read(w)
            + (drives_read(w) + hid_made(w, HidView { name: sanitized(name), vid, pid }, text))
    );
    lemma_hid_created(log, at, w, name, vid, pid, text);
    assert(came(whole, log, at, t0, Ok(Ending::Done)));
}

// ---------------------------------------------------------------------------
// The daemon
// ---------------------------------------------------------------------------

/// The daemon makes itself known: it listens, leaves its process number and its
/// port in the given files, and listens for text on the given socket.
pub open spec fn daemon_opened(
    socket_path: Seq<char>,
    pid_file: Seq<char>,
    port_file: Seq<char>,
    port: u64,
    id: u64,
    left: bool,
) -> Talk {
    let socket = (RequestView::ListenSocket(socket_path), ReplyView::Done);
    let pipe = (RequestView::OpenPipe, ReplyView::Done);
    let start = seq![
        (RequestView::Listen, ReplyView::Number(port)),
        (RequestView::OwnId, ReplyView::Number(id)),
        written(pid_file, decimal(id as int)),
        written(port_file, decimal(port as int)),
        (RequestView::Exists(socket_path), ReplyView::Flag(left)),
    ];
    if left {
        start.push(removed(socket_path)).push(socket).push(pipe)
    } else {
        start.push(socket).push(pipe)
    }
}

proof fn lemma_small_numeral(n: int)
    requires
        0 <= n,
    ensures
        forall|i: int|
            0 <= i < numeral(n, 16).len() ==> is_hex_digit(#[trigger] numeral(n, 16)[i]) && !('A'
                <= numeral(n, 16)[i] <= 'F'),
    decreases n,
{
    let s = numeral(n, 16);
    if n >= 16 {
        lemma_small_numeral(n / 16);
        let before = numeral(n / 16, 16);
        assert(s == before.push(digit_char(n % 16)));
        assert forall|i: int| 0 <= i < s.len() implies is_hex_digit(#[trigger] s[i]) && !('A'
            <= s[i] <= 'F') by {
            if i < before.len() {
                assert(s[i] == before[i]);
            }
        }
    }
}

/// The id of a number is read as that number, with or without `0x`.
proof fn lemma_id_read(at: int, n: u16, text: Seq<char>, message: Seq<char>)
    requires
        text == "0x"@ + numeral(n as int, 16) || text == numeral(n as int, 16),
    ensures
        spec_id_number(at, text, message) == Outcome::Ready(n, at),
{
    lemma_small_numeral(n as int);
    law_normalizing_strips_the_prefix(numeral(n as int, 16));
    law_number_round_trip(n as int, 16, 0xffff);
}

#[verifier::spinoff_prover]
proof fn lemma_daemon_opened_again(
    log: Log,
    at: int,
    socket_path: Seq<char>,
    pid_file: Seq<char>,
    port_file: Seq<char>,
    port: u64,
    id: u64,
)
    requires
        heard(log, at, daemon_opened(socket_path, pid_file, port_file, port, id, true)),
    ensures
        came(
            opening(log, at, socket_path, pid_file, port_file),
            log,
            at,
            daemon_opened(socket_path, pid_file, port_file, port, id, true),
            Ok(()),
        ),
{
    broadcast use {encode_utf8_valid_utf8, encode_utf8_decode_utf8};

    let whole = opening(log, at, socket_path, pid_file, port_file);
    let t0 = daemon_opened(socket_path, pid_file, port_file, port, id, true);
    assert(came(whole, log, at, t0, Ok(())));
}

#[verifier::spinoff_prover]
proof fn lemma_daemon_opened_anew(
    log: Log,
    at: int,
    socket_path: Seq<char>,
    pid_file: Seq<char>,
    port_file: Seq<char>,
    port: u64,
    id: u64,
)
    requires
        heard(log, at, daemon_opened(socket_path, pid_file, port_file, port, id, false)),
    ensures
        came(
            opening(log, at, socket_path, pid_file, port_file),
            log,
            at,
            daemon_opened(socket_path, pid_file, port_file, port, id, false),
            Ok(()),
        ),
{
    broadcast use {encode_utf8_valid_utf8, encode_utf8_decode_utf8};

    let whole = opening(log, at, socket_path, pid_file, port_file);
    let t0 = daemon_opened(socket_path, pid_file, port_file, port, id, false);
    assert(came(whole, log, at, t0, Ok(())));
}

/// Making the daemon known.
pub open spec fn opening(
    log: Log,
    at: int,
    socket_path: Seq<char>,
    pid_file: Seq<char>,
    port_file: Seq<char>,
) -> Outcome<()> {
    bind(
        spec_announce(log, at, pid_file, port_file),
        |_done: (), at: int| spec_open_socket(log, at, socket_path),
    )
}

/// `hid-daemon` with two ids, with or without `0x`: it makes itself known under
/// the given paths, and then serves a device with these ids.
#[verifier::spinoff_prover]
pub proof fn law_hid_daemon(
    log: Log,
    at: int,
    w: World,
    other: Option<Seq<char>>,
    name: Seq<char>,
    vid: u16,
    pid: u16,
    vid_text: Seq<char>,
    pid_text: Seq<char>,
    socket_path: Seq<char>,
    pid_file: Seq<char>,
    port_file: Seq<char>,
    port: u64,
    id: u64,
    left: bool,
)
    requires
        settled(w),
        vid_text == "0x"@ + numeral(vid as int, 16) || vid_text == numeral(vid as int, 16),
        pid_text == "0x"@ + numeral(pid as int, 16) || pid_text == numeral(pid as int, 16),
        heard(log, at, daemon_opened(socket_path, pid_file, port_file, port, id, left)),
    ensures
        came(
            spec_run_tool(log, at, asked_only(CommandsView::HidDaemon {
                name,
                vid: vid_text,
                pid: pid_text,
                socket_path,
                pid_file,
                port_file,
            }, other)),
            log,
            at,
            daemon_opened(socket_path, pid_file, port_file, port, id, left),
            Ok(Ending::Serve { vid, pid }),
        ),
{
    broadcast use {encode_utf8_valid_utf8, encode_utf8_decode_utf8};

    let whole = spec_run_tool(log, at, asked_only(CommandsView::HidDaemon {
                name,
                vid: vid_text,
                pid: pid_text,
                socket_path,
                pid_file,
                port_file,
            }, other));
    let t0 = daemon_opened(socket_path, pid_file, port_file, port, id, left);
    lemma_id_read(at, vid, vid_text, "Invalid VID"@);
    lemma_id_read(at, pid, pid_text, "Invalid PID"@);
    if left {
        lemma_daemon_opened_again(log, at, socket_path, pid_file, port_file, port, id);
    } else {
        lemma_daemon_opened_anew(log, at, socket_path, pid_file, port_file, port, id);
    }
    assert(came(whole, log, at, t0, Ok(Ending::Serve { vid, pid })));
}

// ---------------------------------------------------------------------------
// What is refused, and what needs nothing
// ---------------------------------------------------------------------------

/// What is said of a virtual machine that does not run.
pub open spec fn stopped(vm: Seq<char>) -> Chain {
    seq!["VM '"@ + vm + "' is not running"@]
}

/// `attach` with the ids of a device, but the virtual machine is not among
/// those that run unpaused: that is told, and nothing else is done.
#[verifier::spinoff_prover]
pub proof fn law_attach_usb_of_stopped(
    log: Log,
    at: int,
    w: World,
    vm: Seq<char>,
    vendor_id: Seq<char>,
    product_id: Seq<char>,
)
    requires
        settled(w),
        are_ids(vendor_id, product_id),
        !lists_vm(w.unpaused, vm),
        heard(log, at, vm_remembered(w, vm) + seq![unpaused_listed(w)]),
    ensures
        came(
            spec_run_tool(log, at, asked(CommandsView::Attach, vm, vendor_id + ":"@ + product_id)),
            log,
            at,
            vm_remembered(w, vm) + seq![unpaused_listed(w)],
            Err(stopped(vm)),
        ),
{
    broadcast use {encode_utf8_valid_utf8, encode_utf8_decode_utf8};

    let whole = spec_run_tool(
        log,
        at,
        asked(CommandsView::Attach, vm, vendor_id + ":"@ + product_id),
    );
    let t0 = vm_remembered(w, vm);
    let t1 = seq![unpaused_listed(w)];
    lemma_heard(log, at, t0, t1);
    lemma_vm_remembered(log, at, w, vm);
    assert(came(spec_attempt(spec_save_last_vm(log, at, vm)), log, at, t0, Ok(Some(()))));
    if log.len() >= at + t0.len() {
        let at1 = at + t0.len();
        lemma_by_ids(log, at1, vm, vendor_id, product_id, false);
        assert(came(whole, log, at1, t1, Err(stopped(vm))));
    }
    lemma_came(
        spec_attempt(spec_save_last_vm(log, at, vm)),
        Some(()),
        whole,
        log,
        at,
        t0,
        t1,
        Err(stopped(vm)),
    );
}

/// `attach` with the ids of a device that the virtual machine has already: that
/// is said, and nothing else is done.
#[verifier::spinoff_prover]
pub proof fn law_attach_usb_needless(
    log: Log,
    at: int,
    w: World,
    vm: Seq<char>,
    vendor_id: Seq<char>,
    product_id: Seq<char>,
)
    requires
        settled(w),
        are_ids(vendor_id, product_id),
        lists_vm(w.unpaused, vm),
        hostdevs_in(w.xml).contains((vendor_id, product_id)),
        heard(
            log,
            at,
            vm_remembered(w, vm) + seq![
                unpaused_listed(w),
                described(w, vm),
                told(line().push(plain("Device is already attached to "@ + vm))),
            ],
        ),
    ensures
        came(
            spec_run_tool(log, at, asked(CommandsView::Attach, vm, vendor_id + ":"@ + product_id)),
            log,
            at,
            vm_remembered(w, vm) + seq![
                unpaused_listed(w),
                described(w, vm),
                told(line().push(plain("Device is already attached to "@ + vm))),
            ],
            Ok(Ending::Done),
        ),
{
    broadcast use {encode_utf8_valid_utf8, encode_utf8_decode_utf8};

    let whole = spec_run_tool(
        log,
        at,
        asked(CommandsView::Attach, vm, vendor_id + ":"@ + product_id),
    );
    let t0 = vm_remembered(w, vm);
    let t1 = seq![
        unpaused_listed(w),
        described(w, vm),
        told(line().push(plain("Device is already attached to "@ + vm))),
    ];
    lemma_heard(log, at, t0, t1);
    lemma_vm_remembered(log, at, w, vm);
    assert(came(spec_attempt(spec_save_last_vm(log, at, vm)), log, at, t0, Ok(Some(()))));
    if log.len() >= at + t0.len() {
        let at1 = at + t0.len();
        lemma_by_ids(log, at1, vm, vendor_id, product_id, false);
        assert(came(whole, log, at1, t1, Ok(Ending::Done)));
    }
    lemma_came(
        spec_attempt(spec_save_last_vm(log, at, vm)),
        Some(()),
        whole,
        log,
        at,
        t0,
        t1,
        Ok(Ending::Done),
    );
}

/// `detach` with the ids of a device, but the virtual machine is not among
/// those that run unpaused: that is told, and nothing else is done.
#[verifier::spinoff_prover]
pub proof fn law_detach_usb_of_stopped(
    log: Log,
    at: int,
    w: World,
    vm: Seq<char>,
    vendor_id: Seq<char>,
    product_id: Seq<char>,
)
    requires
        settled(w),
        are_ids(vendor_id, product_id),
        !lists_vm(w.unpaused, vm),
        heard(log, at, vm_remembered(w, vm) + seq![unpaused_listed(w)]),
    ensures
        came(
            spec_run_tool(log, at, asked(CommandsView::Detach, vm, vendor_id + ":"@ + product_id)),
            log,
            at,
            vm_remembered(w, vm) + seq![unpaused_listed(w)],
            Err(stopped(vm)),
        ),
{
    broadcast use {encode_utf8_valid_utf8, encode_utf8_decode_utf8};

    let whole = spec_run_tool(
        log,
        at,
        asked(CommandsView::Detach, vm, vendor_id + ":"@ + product_id),
    );
    let t0 = vm_remembered(w, vm);
    let t1 = seq![unpaused_listed(w)];
    lemma_heard(log, at, t0, t1);
    lemma_vm_remembered(log, at, w, vm);
    assert(came(spec_attempt(spec_save_last_vm(log, at, vm)), log, at, t0, Ok(Some(()))));
    if log.len() >= at + t0.len() {
        let at1 = at + t0.len();
        lemma_by_ids(log, at1, vm, vendor_id, product_id, true);
        assert(came(whole, log, at1, t1, Err(stopped(vm))));
    }
    lemma_came(
        spec_attempt(spec_save_last_vm(log, at, vm)),
        Some(()),
        whole,
        log,
        at,
        t0,
        t1,
        Err(stopped(vm)),
    );
}

/// `detach` with the ids of a device that the virtual machine has not: that is
/// said, and nothing else is done.
#[verifier::spinoff_prover]
pub proof fn law_detach_usb_needless(
    log: Log,
    at: int,
    w: World,
    vm: Seq<char>,
    vendor_id: Seq<char>,
    product_id: Seq<char>,
)
    requires
        settled(w),
        are_ids(vendor_id, product_id),
        lists_vm(w.unpaused, vm),
        !hostdevs_in(w.xml).contains((vendor_id, product_id)),
        heard(
            log,
            at,
            vm_remembered(w, vm) + seq![
                unpaused_listed(w),
                described(w, vm),
                told(line().push(plain("Device is not attached to "@ + vm))),
            ],
        ),
    ensures
        came(
            spec_run_tool(log, at, asked(CommandsView::Detach, vm, vendor_id + ":"@ + product_id)),
            log,
            at,
            vm_remembered(w, vm) + seq![
                unpaused_listed(w),
                described(w, vm),
                told(line().push(plain("Device is not attached to "@ + vm))),
            ],
            Ok(Ending::Done),
        ),
{
    broadcast use {encode_utf8_valid_utf8, encode_utf8_decode_utf8};

    let whole = spec_run_tool(
        log,
        at,
        asked(CommandsView::Detach, vm, vendor_id + ":"@ + product_id),
    );
    let t0 = vm_remembered(w, vm);
    let t1 = seq![
        unpaused_listed(w),
        described(w, vm),
        told(line().push(plain("Device is not attached to "@ + vm))),
    ];
    lemma_heard(log, at, t0, t1);
    lemma_vm_remembered(log, at, w, vm);
    assert(came(spec_attempt(spec_save_last_vm(log, at, vm)), log, at, t0, Ok(Some(()))));
    if log.len() >= at + t0.len() {
        let at1 = at + t0.len();
        lemma_by_ids(log, at1, vm, vendor_id, product_id, true);
        assert(came(whole, log, at1, t1, Ok(Ending::Done)));
    }
    lemma_came(
        spec_attempt(spec_save_last_vm(log, at, vm)),
        Some(()),
        whole,
        log,
        at,
        t0,
        t1,
        Ok(Ending::Done),
    );
}

/// `attach` with ids that no device of the host has: that is told, and nothing
/// is attached.
#[verifier::spinoff_prover]
pub proof fn law_attach_usb_missing(
    log: Log,
    at: int,
    w: World,
    vm: Seq<char>,
    vendor_id: Seq<char>,
    product_id: Seq<char>,
)
    requires
        settled(w),
        are_ids(vendor_id, product_id),
        lists_vm(w.unpaused, vm),
        !hostdevs_in(w.xml).contains((vendor_id, product_id)),
        device_with(usb_listed(lines_of(w.lsusb), true), vendor_id, product_id) is None,
        heard(
            log,
            at,
            vm_remembered(w, vm) + seq![unpaused_listed(w), described(w, vm), devices_listed(w)],
        ),
    ensures
        came(
            spec_run_tool(log, at, asked(CommandsView::Attach, vm, vendor_id + ":"@ + product_id)),
            log,
            at,
            vm_remembered(w, vm) + seq![unpaused_listed(w), described(w, vm), devices_listed(w)],
            Err(
                seq![
                    "USB device "@ + (vendor_id + ":"@ + product_id)
                        + " not found\nMake sure the USB device is connected"@,
                ],
            ),
        ),
{
    broadcast use {encode_utf8_valid_utf8, encode_utf8_decode_utf8};

    let whole = spec_run_tool(
        log,
        at,
        asked(CommandsView::Attach, vm, vendor_id + ":"@ + product_id),
    );
    let t0 = vm_remembered(w, vm);
    let t1 = seq![unpaused_listed(w), described(w, vm), devices_listed(w)];
    lemma_heard(log, at, t0, t1);
    lemma_vm_remembered(log, at, w, vm);
    assert(came(spec_attempt(spec_save_last_vm(log, at, vm)), log, at, t0, Ok(Some(()))));
    if log.len() >= at + t0.len() {
        let at1 = at + t0.len();
        lemma_by_ids(log, at1, vm, vendor_id, product_id, false);
        assert(
            came(
                whole,
                log,
                at1,
                t1,
                Err(
                    seq![
                        "USB device "@ + (vendor_id + ":"@ + product_id)
                            + " not found\nMake sure the USB device is connected"@,
                    ],
                ),
            )
        );
    }
    lemma_came(
        spec_attempt(spec_save_last_vm(log, at, vm)),
        Some(()),
        whole,
        log,
        at,
        t0,
        t1,
        Err(
            seq![
                "USB device "@ + (vendor_id + ":"@ + product_id)
                    + " not found\nMake sure the USB device is connected"@,
            ],
        ),
    );
}

#[verifier::spinoff_prover]
proof fn lemma_attach_drive_of_stopped(
    log: Log,
    at: int,
    w: World,
    vm: Seq<char>,
    name: Seq<char>,
    k: int,
)
    requires
        settled(w),
        first_drive(w.drives, name, k),
        !lists_vm(w.unpaused, vm),
        heard(log, at, drives_read(w) + seq![unpaused_listed(w)]),
    ensures
        came(
            spec_attach_virtual_drive(log, at, vm, name),
            log,
            at,
            drives_read(w) + seq![unpaused_listed(w)],
            Err(stopped(vm)),
        ),
{
    lemma_drive_from(w.drives, name, 0);
    broadcast use {encode_utf8_valid_utf8, encode_utf8_decode_utf8};

    let whole = spec_attach_virtual_drive(log, at, vm, name);
    let t0 = drives_read(w);
    let t1 = seq![unpaused_listed(w)];
    lemma_heard(log, at, t0, t1);
    lemma_drives_read(log, at, w);
    assert(came(spec_load_virtual_drives(log, at), log, at, t0, Ok(w.drives)));
    if log.len() >= at + t0.len() {
        let at1 = at + t0.len();
        assert(came(whole, log, at1, t1, Err(stopped(vm))));
    }
    lemma_came(
        spec_load_virtual_drives(log, at),
        w.drives,
        whole,
        log,
        at,
        t0,
        t1,
        Err(stopped(vm)),
    );
}

/// `attach` with the name of a drive, but the virtual machine is not among
/// those that run unpaused: that is told, and nothing else is done.
#[verifier::spinoff_prover]
pub proof fn law_attach_drive_of_stopped(
    log: Log,
    at: int,
    w: World,
    vm: Seq<char>,
    name: Seq<char>,
    k: int,
)
    requires
        settled(w),
        !name.contains(':'),
        first_drive(w.drives, name, k),
        no_such_hid(w.hids, name),
        !lists_vm(w.unpaused, vm),
        heard(
            log,
            at,
            vm_remembered(w, vm) + (
                (drives_read(w) + hids_read(w)) + (drives_read(w) + seq![unpaused_listed(w)])
            ),
        ),
    ensures
        came(
            spec_run_tool(log, at, asked(CommandsView::Attach, vm, name)),
            log,
            at,
            vm_remembered(w, vm) + (
                (drives_read(w) + hids_read(w)) + (drives_read(w) + seq![unpaused_listed(w)])
            ),
            Err(stopped(vm)),
        ),
{
    broadcast use {encode_utf8_valid_utf8, encode_utf8_decode_utf8};

    let whole = spec_run_tool(log, at, asked(CommandsView::Attach, vm, name));
    let t0 = vm_remembered(w, vm);
    let t1 = (drives_read(w) + hids_read(w));
    let t2 = (drives_read(w) + seq![unpaused_listed(w)]);
    lemma_heard(log, at, t0, t1 + t2);
    lemma_vm_remembered(log, at, w, vm);
    assert(came(spec_attempt(spec_save_last_vm(log, at, vm)), log, at, t0, Ok(Some(()))));
    if log.len() >= at + t0.len() {
        let at1 = at + t0.len();
        lemma_heard(log, at1, t1, t2);
        lemma_drive_by_name(log, at1, w, vm, name, k, false);
        assert(
            came(
                spec_resolve_device(log, at1, vm, Some(name), false),
                log,
                at1,
                t1,
                Ok(SelectedView::Storage { name }),
            )
        );
        if log.len() >= at1 + t1.len() {
            let at2 = at1 + t1.len();
            lemma_attach_drive_of_stopped(log, at2, w, vm, name, k);
            assert(came(whole, log, at2, t2, Err(stopped(vm))));
        }
        lemma_came(
            spec_resolve_device(log, at1, vm, Some(name), false),
            SelectedView::Storage { name },
            whole,
            log,
            at1,
            t1,
            t2,
            Err(stopped(vm)),
        );
    }
    lemma_came(
        spec_attempt(spec_save_last_vm(log, at, vm)),
        Some(()),
        whole,
        log,
        at,
        t0,
        t1 + t2,
        Err(stopped(vm)),
    );
}

#[verifier::spinoff_prover]
proof fn lemma_attach_hid_of_stopped(
    log: Log,
    at: int,
    w: World,
    vm: Seq<char>,
    name: Seq<char>,
    k: int,
)
    requires
        settled(w),
        first_hid(w.hids, name, k),
        !lists_vm(w.unpaused, vm),
        heard(log, at, hids_read(w) + seq![unpaused_listed(w)]),
    ensures
        came(
            spec_attach_hid_device(log, at, vm, name),
            log,
            at,
            hids_read(w) + seq![unpaused_listed(w)],
            Err(stopped(vm)),
        ),
{
    lemma_hid_from(w.hids, name, 0);
    broadcast use {encode_utf8_valid_utf8, encode_utf8_decode_utf8};

    let whole = spec_attach_hid_device(log, at, vm, name);
    let t0 = hids_read(w);
    let t1 = seq![unpaused_listed(w)];
    lemma_heard(log, at, t0, t1);
    lemma_hids_read(log, at, w);
    assert(came(spec_load_hid_devices(log, at), log, at, t0, Ok(w.hids)));
    if log.len() >= at + t0.len() {
        let at1 = at + t0.len();
        assert(came(whole, log, at1, t1, Err(stopped(vm))));
    }
    lemma_came(spec_load_hid_devices(log, at), w.hids, whole, log, at, t0, t1, Err(stopped(vm)));
}

/// `attach` with the name of a HID device, but the virtual machine is not among
/// those that run unpaused: that is told, and nothing else is done.
#[verifier::spinoff_prover]
pub proof fn law_attach_hid_of_stopped(
    log: Log,
    at: int,
    w: World,
    vm: Seq<char>,
    name: Seq<char>,
    k: int,
)
    requires
        settled(w),
        !name.contains(':'),
        first_hid(w.hids, name, k),
        no_such_drive(w.drives, name),
        !lists_vm(w.unpaused, vm),
        heard(
            log,
            at,
            vm_remembered(w, vm) + (
                (drives_read(w) + hids_read(w)) + (hids_read(w) + seq![unpaused_listed(w)])
            ),
        ),
    ensures
        came(
            spec_run_tool(log, at, asked(CommandsView::Attach, vm, name)),
            log,
            at,
            vm_remembered(w, vm) + (
                (drives_read(w) + hids_read(w)) + (hids_read(w) + seq![unpaused_listed(w)])
            ),
            Err(stopped(vm)),
        ),
{
    broadcast use {encode_utf8_valid_utf8, encode_utf8_decode_utf8};

    let whole = spec_run_tool(log, at, asked(CommandsView::Attach, vm, name));
    let t0 = vm_remembered(w, vm);
    let t1 = (drives_read(w) + hids_read(w));
    let t2 = (hids_read(w) + seq![unpaused_listed(w)]);
    lemma_heard(log, at, t0, t1 + t2);
    lemma_vm_remembered(log, at, w, vm);
    assert(came(spec_attempt(spec_save_last_vm(log, at, vm)), log, at, t0, Ok(Some(()))));
    if log.len() >= at + t0.len() {
        let at1 = at + t0.len();
        lemma_heard(log, at1, t1, t2);
        lemma_hid_by_name(log, at1, w, vm, name, k, false);
        assert(
            came(
                spec_resolve_device(log, at1, vm, Some(name), false),
                log,
                at1,
                t1,
                Ok(SelectedView::Hid { name }),
            )
        );
        if log.len() >= at1 + t1.len() {
            let at2 = at1 + t1.len();
            lemma_attach_hid_of_stopped(log, at2, w, vm, name, k);
            assert(came(whole, log, at2, t2, Err(stopped(vm))));
        }
        lemma_came(
            spec_resolve_device(log, at1, vm, Some(name), false),
            SelectedView::Hid { name },
            whole,
            log,
            at1,
            t1,
            t2,
            Err(stopped(vm)),
        );
    }
    lemma_came(
        spec_attempt(spec_save_last_vm(log, at, vm)),
        Some(()),
        whole,
        log,
        at,
        t0,
        t1 + t2,
        Err(stopped(vm)),
    );
}

#[verifier::spinoff_prover]
proof fn lemma_detach_drive_of_stopped(
    log: Log,
    at: int,
    w: World,
    vm: Seq<char>,
    name: Seq<char>,
    k: int,
)
    requires
        settled(w),
        first_drive(w.drives, name, k),
        !lists_vm(w.unpaused, vm),
        heard(log, at, drives_read(w) + seq![unpaused_listed(w)]),
    ensures
        came(
            spec_detach_virtual_drive(log, at, vm, name),
            log,
            at,
            drives_read(w) + seq![unpaused_listed(w)],
            Err(stopped(vm)),
        ),
{
    lemma_drive_from(w.drives, name, 0);
    broadcast use {encode_utf8_valid_utf8, encode_utf8_decode_utf8};

    let whole = spec_detach_virtual_drive(log, at, vm, name);
    let t0 = drives_read(w);
    let t1 = seq![unpaused_listed(w)];
    lemma_heard(log, at, t0, t1);
    lemma_drives_read(log, at, w);
    assert(came(spec_load_virtual_drives(log, at), log, at, t0, Ok(w.drives)));
    if log.len() >= at + t0.len() {
        let at1 = at + t0.len();
        assert(came(whole, log, at1, t1, Err(stopped(vm))));
    }
    lemma_came(
        spec_load_virtual_drives(log, at),
        w.drives,
        whole,
        log,
        at,
        t0,
        t1,
        Err(stopped(vm)),
    );
}

/// `detach` with the name of a drive, but the virtual machine is not among
/// those that run unpaused: that is told, and nothing else is done.
#[verifier::spinoff_prover]
pub proof fn law_detach_drive_of_stopped(
    log: Log,
    at: int,
    w: World,
    vm: Seq<char>,
    name: Seq<char>,
    k: int,
)
    requires
        settled(w),
        !name.contains(':'),
        first_drive(w.drives, name, k),
        no_such_hid(w.hids, name),
        !lists_vm(w.unpaused, vm),
        heard(
            log,
            at,
            vm_remembered(w, vm) + (
                (drives_read(w) + hids_read(w)) + (drives_read(w) + seq![unpaused_listed(w)])
            ),
        ),
    ensures
        came(
            spec_run_tool(log, at, asked(CommandsView::Detach, vm, name)),
            log,
            at,
            vm_remembered(w, vm) + (
                (drives_read(w) + hids_read(w)) + (drives_read(w) + seq![unpaused_listed(w)])
            ),
            Err(stopped(vm)),
        ),
{
    broadcast use {encode_utf8_valid_utf8, encode_utf8_decode_utf8};

    let whole = spec_run_tool(log, at, asked(CommandsView::Detach, vm, name));
    let t0 = vm_remembered(w, vm);
    let t1 = (drives_read(w) + hids_read(w));
    let t2 = (drives_read(w) + seq![unpaused_listed(w)]);
    lemma_heard(log, at, t0, t1 + t2);
    lemma_vm_remembered(log, at, w, vm);
    assert(came(spec_attempt(spec_save_last_vm(log, at, vm)), log, at, t0, Ok(Some(()))));
    if log.len() >= at + t0.len() {
        let at1 = at + t0.len();
        lemma_heard(log, at1, t1, t2);
        lemma_drive_by_name(log, at1, w, vm, name, k, true);
        assert(
            came(
                spec_resolve_device(log, at1, vm, Some(name), true),
                log,
                at1,
                t1,
                Ok(SelectedView::Storage { name }),
            )
        );
        if log.len() >= at1 + t1.len() {
            let at2 = at1 + t1.len();
            lemma_detach_drive_of_stopped(log, at2, w, vm, name, k);
            assert(came(whole, log, at2, t2, Err(stopped(vm))));
        }
        lemma_came(
            spec_resolve_device(log, at1, vm, Some(name), true),
            SelectedView::Storage { name },
            whole,
            log,
            at1,
            t1,
            t2,
            Err(stopped(vm)),
        );
    }
    lemma_came(
        spec_attempt(spec_save_last_vm(log, at, vm)),
        Some(()),
        whole,
        log,
        at,
        t0,
        t1 + t2,
        Err(stopped(vm)),
    );
}

#[verifier::spinoff_prover]
proof fn lemma_detach_hid_of_stopped(
    log: Log,
    at: int,
    w: World,
    vm: Seq<char>,
    name: Seq<char>,
    k: int,
)
    requires
        settled(w),
        first_hid(w.hids, name, k),
        !lists_vm(w.unpaused, vm),
        heard(log, at, hids_read(w) + seq![unpaused_listed(w)]),
    ensures
        came(
            spec_detach_hid_device(log, at, vm, name),
            log,
            at,
            hids_read(w) + seq![unpaused_listed(w)],
            Err(stopped(vm)),
        ),
{
    lemma_hid_from(w.hids, name, 0);
    broadcast use {encode_utf8_valid_utf8, encode_utf8_decode_utf8};

    let whole = spec_detach_hid_device(log, at, vm, name);
    let t0 = hids_read(w);
    let t1 = seq![unpaused_listed(w)];
    lemma_heard(log, at, t0, t1);
    lemma_hids_read(log, at, w);
    assert(came(spec_load_hid_devices(log, at), log, at, t0, Ok(w.hids)));
    if log.len() >= at + t0.len() {
        let at1 = at + t0.len();
        assert(came(whole, log, at1, t1, Err(stopped(vm))));
    }
    lemma_came(spec_load_hid_devices(log, at), w.hids, whole, log, at, t0, t1, Err(stopped(vm)));
}

/// `detach` with the name of a HID device, but the virtual machine is not among
/// those that run unpaused: that is told, and nothing else is done.
#[verifier::spinoff_prover]
pub proof fn law_detach_hid_of_stopped(
    log: Log,
    at: int,
    w: World,
    vm: Seq<char>,
    name: Seq<char>,
    k: int,
)
    requires
        settled(w),
        !name.contains(':'),
        first_hid(w.hids, name, k),
        no_such_drive(w.drives, name),
        !lists_vm(w.unpaused, vm),
        heard(
            log,
            at,
            vm_remembered(w, vm) + (
                (drives_read(w) + hids_read(w)) + (hids_read(w) + seq![unpaused_listed(w)])
            ),
        ),
    ensures
        came(
            spec_run_tool(log, at, asked(CommandsView::Detach, vm, name)),
            log,
            at,
            vm_remembered(w, vm) + (
                (drives_read(w) + hids_read(w)) + (hids_read(w) + seq![unpaused_listed(w)])
            ),
            Err(stopped(vm)),
        ),
{
    broadcast use {encode_utf8_valid_utf8, encode_utf8_decode_utf8};

    let whole = spec_run_tool(log, at, asked(CommandsView::Detach, vm, name));
    let t0 = vm_remembered(w, vm);
    let t1 = (drives_read(w) + hids_read(w));
    let t2 = (hids_read(w) + seq![unpaused_listed(w)]);
    lemma_heard(log, at, t0, t1 + t2);
    lemma_vm_remembered(log, at, w, vm);
    assert(came(spec_attempt(spec_save_last_vm(log, at, vm)), log, at, t0, Ok(Some(()))));
    if log.len() >= at + t0.len() {
        let at1 = at + t0.len();
        lemma_heard(log, at1, t1, t2);
        lemma_hid_by_name(log, at1, w, vm, name, k, true);
        assert(
            came(
                spec_resolve_device(log, at1, vm, Some(name), true),
                log,
                at1,
                t1,
                Ok(SelectedView::Hid { name }),
            )
        );
        if log.len() >= at1 + t1.len() {
            let at2 = at1 + t1.len();
            lemma_detach_hid_of_stopped(log, at2, w, vm, name, k);
            assert(came(whole, log, at2, t2, Err(stopped(vm))));
        }
        lemma_came(
            spec_resolve_device(log, at1, vm, Some(name), true),
            SelectedView::Hid { name },
            whole,
            log,
            at1,
            t1,
            t2,
            Err(stopped(vm)),
        );
    }
    lemma_came(
        spec_attempt(spec_save_last_vm(log, at, vm)),
        Some(()),
        whole,
        log,
        at,
        t0,
        t1 + t2,
        Err(stopped(vm)),
    );
}

#[verifier::spinoff_prover]
proof fn lemma_attach_drive_again(
    log: Log,
    at: int,
    w: World,
    vm: Seq<char>,
    name: Seq<char>,
    k: int,
)
    requires
        settled(w),
        first_drive(w.drives, name, k),
        lists_vm(w.unpaused, vm),
        disk_of(disks_in(w.xml), trimmed(w.image)) is Some,
        heard(
            log,
            at,
            drives_read(w) + seq![
                unpaused_listed(w),
                image_found(w, name),
                described(w, vm),
                told(
                    line().push(
                        plain("Storage drive '"@ + name + "' is already attached to "@ + vm),
                    ),
                ),
            ],
        ),
    ensures
        came(
            spec_attach_virtual_drive(log, at, vm, name),
            log,
            at,
            drives_read(w) + seq![
                unpaused_listed(w),
                image_found(w, name),
                described(w, vm),
                told(
                    line().push(
                        plain("Storage drive '"@ + name + "' is already attached to "@ + vm),
                    ),
                ),
            ],
            Ok(()),
        ),
{
    lemma_drive_from(w.drives, name, 0);
    broadcast use {encode_utf8_valid_utf8, encode_utf8_decode_utf8};

    let whole = spec_attach_virtual_drive(log, at, vm, name);
    let t0 = drives_read(w);
    let t1 = seq![
        unpaused_listed(w),
        image_found(w, name),
        described(w, vm),
        told(line().push(plain("Storage drive '"@ + name + "' is already attached to "@ + vm))),
    ];
    lemma_heard(log, at, t0, t1);
    lemma_drives_read(log, at, w);
    assert(came(spec_load_virtual_drives(log, at), log, at, t0, Ok(w.drives)));
    if log.len() >= at + t0.len() {
        let at1 = at + t0.len();
        assert(came(whole, log, at1, t1, Ok(())));
    }
    lemma_came(spec_load_virtual_drives(log, at), w.drives, whole, log, at, t0, t1, Ok(()));
}

/// `attach` with the name of a drive that the virtual machine has already: that
/// is said, and nothing else is done.
#[verifier::spinoff_prover]
pub proof fn law_attach_drive_needless(
    log: Log,
    at: int,
    w: World,
    vm: Seq<char>,
    name: Seq<char>,
    k: int,
)
    requires
        settled(w),
        !name.contains(':'),
        first_drive(w.drives, name, k),
        no_such_hid(w.hids, name),
        lists_vm(w.unpaused, vm),
        disk_of(disks_in(w.xml), trimmed(w.image)) is Some,
        heard(
            log,
            at,
            vm_remembered(w, vm) + (
                (drives_read(w) + hids_read(w))
                    + (
                        drives_read(w)
                            + seq![
                                unpaused_listed(w),
                                image_found(w, name),
                                described(w, vm),
                                told(
                                    line().push(
                                        plain(
                                            "Storage drive '"@ + name + "' is already attached to "@
                                                + vm,
                                        ),
                                    ),
                                ),
                            ]
                    )
            ),
        ),
    ensures
        came(
            spec_run_tool(log, at, asked(CommandsView::Attach, vm, name)),
            log,
            at,
            vm_remembered(w, vm) + (
                (drives_read(w) + hids_read(w))
                    + (
                        drives_read(w)
                            + seq![
                                unpaused_listed(w),
                                image_found(w, name),
                                described(w, vm),
                                told(
                                    line().push(
                                        plain(
                                            "Storage drive '"@ + name + "' is already attached to "@
                                                + vm,
                                        ),
                                    ),
                                ),
                            ]
                    )
            ),
            Ok(Ending::Done),
        ),
{
    broadcast use {encode_utf8_valid_utf8, encode_utf8_decode_utf8};

    let whole = spec_run_tool(log, at, asked(CommandsView::Attach, vm, name));
    let t0 = vm_remembered(w, vm);
    let t1 = (drives_read(w) + hids_read(w));
    let t2 = (
        drives_read(w)
            + seq![
                unpaused_listed(w),
                image_found(w, name),
                described(w, vm),
                told(
                    line().push(
                        plain("Storage drive '"@ + name + "' is already attached to "@ + vm),
                    ),
                ),
            ]
    );
    lemma_heard(log, at, t0, t1 + t2);
    lemma_vm_remembered(log, at, w, vm);
    assert(came(spec_attempt(spec_save_last_vm(log, at, vm)), log, at, t0, Ok(Some(()))));
    if log.len() >= at + t0.len() {
        let at1 = at + t0.len();
        lemma_heard(log, at1, t1, t2);
        lemma_drive_by_name(log, at1, w, vm, name, k, false);
        assert(
            came(
                spec_resolve_device(log, at1, vm, Some(name), false),
                log,
                at1,
                t1,
                Ok(SelectedView::Storage { name }),
            )
        );
        if log.len() >= at1 + t1.len() {
            let at2 = at1 + t1.len();
            lemma_attach_drive_again(log, at2, w, vm, name, k);
            assert(came(whole, log, at2, t2, Ok(Ending::Done)));
        }
        lemma_came(
            spec_resolve_device(log, at1, vm, Some(name), false),
            SelectedView::Storage { name },
            whole,
            log,
            at1,
            t1,
            t2,
            Ok(Ending::Done),
        );
    }
    lemma_came(
        spec_attempt(spec_save_last_vm(log, at, vm)),
        Some(()),
        whole,
        log,
        at,
        t0,
        t1 + t2,
        Ok(Ending::Done),
    );
}

#[verifier::spinoff_prover]
proof fn lemma_detach_drive_missing(
    log: Log,
    at: int,
    w: World,
    vm: Seq<char>,
    name: Seq<char>,
    k: int,
)
    requires
        settled(w),
        first_drive(w.drives, name, k),
        lists_vm(w.unpaused, vm),
        disk_of(disks_in(w.xml), trimmed(w.image)) is None,
        heard(
            log,
            at,
            drives_read(w) + seq![unpaused_listed(w), image_found(w, name), described(w, vm)],
        ),
    ensures
        came(
            spec_detach_virtual_drive(log, at, vm, name),
            log,
            at,
            drives_read(w) + seq![unpaused_listed(w), image_found(w, name), described(w, vm)],
            Err(seq!["Storage drive '"@ + name + "' is not attached to VM '"@ + vm + "'"@]),
        ),
{
    lemma_drive_from(w.drives, name, 0);
    broadcast use {encode_utf8_valid_utf8, encode_utf8_decode_utf8};

    let whole = spec_detach_virtual_drive(log, at, vm, name);
    let t0 = drives_read(w);
    let t1 = seq![unpaused_listed(w), image_found(w, name), described(w, vm)];
    lemma_heard(log, at, t0, t1);
    lemma_drives_read(log, at, w);
    assert(came(spec_load_virtual_drives(log, at), log, at, t0, Ok(w.drives)));
    if log.len() >= at + t0.len() {
        let at1 = at + t0.len();
        assert(
            came(
                whole,
                log,
                at1,
                t1,
                Err(seq!["Storage drive '"@ + name + "' is not attached to VM '"@ + vm + "'"@]),
            )
        );
    }
    lemma_came(
        spec_load_virtual_drives(log, at),
        w.drives,
        whole,
        log,
        at,
        t0,
        t1,
        Err(seq!["Storage drive '"@ + name + "' is not attached to VM '"@ + vm + "'"@]),
    );
}

/// `detach` with the name of a drive that the virtual machine has not: that is
/// told, and nothing else is done.
#[verifier::spinoff_prover]
pub proof fn law_detach_drive_needless(
    log: Log,
    at: int,
    w: World,
    vm: Seq<char>,
    name: Seq<char>,
    k: int,
)
    requires
        settled(w),
        !name.contains(':'),
        first_drive(w.drives, name, k),
        no_such_hid(w.hids, name),
        lists_vm(w.unpaused, vm),
        disk_of(disks_in(w.xml), trimmed(w.image)) is None,
        heard(
            log,
            at,
            vm_remembered(w, vm) + (
                (drives_read(w) + hids_read(w))
                    + (
                        drives_read(w)
                            + seq![unpaused_listed(w), image_found(w, name), described(w, vm)]
                    )
            ),
        ),
    ensures
        came(
            spec_run_tool(log, at, asked(CommandsView::Detach, vm, name)),
            log,
            at,
            vm_remembered(w, vm) + (
                (drives_read(w) + hids_read(w))
                    + (
                        drives_read(w)
                            + seq![unpaused_listed(w), image_found(w, name), described(w, vm)]
                    )
            ),
            Err(seq!["Storage drive '"@ + name + "' is not attached to VM '"@ + vm + "'"@]),
        ),
{
    broadcast use {encode_utf8_valid_utf8, encode_utf8_decode_utf8};

    let whole = spec_run_tool(log, at, asked(CommandsView::Detach, vm, name));
    let t0 = vm_remembered(w, vm);
    let t1 = (drives_read(w) + hids_read(w));
    let t2 = (drives_read(w) + seq![unpaused_listed(w), image_found(w, name), described(w, vm)]);
    lemma_heard(log, at, t0, t1 + t2);
    lemma_vm_remembered(log, at, w, vm);
    assert(came(spec_attempt(spec_save_last_vm(log, at, vm)), log, at, t0, Ok(Some(()))));
    if log.len() >= at + t0.len() {
        let at1 = at + t0.len();
        lemma_heard(log, at1, t1, t2);
        lemma_drive_by_name(log, at1, w, vm, name, k, true);
        assert(
            came(
                spec_resolve_device(log, at1, vm, Some(name), true),
                log,
                at1,
                t1,
                Ok(SelectedView::Storage { name }),
            )
        );
        if log.len() >= at1 + t1.len() {
            let at2 = at1 + t1.len();
            lemma_detach_drive_missing(log, at2, w, vm, name, k);
            assert(
                came(
                    whole,
                    log,
                    at2,
                    t2,
                    Err(seq!["Storage drive '"@ + name + "' is not attached to VM '"@ + vm + "'"@]),
                )
            );
        }
        lemma_came(
            spec_resolve_device(log, at1, vm, Some(name), true),
            SelectedView::Storage { name },
            whole,
            log,
            at1,
            t1,
            t2,
            Err(seq!["Storage drive '"@ + name + "' is not attached to VM '"@ + vm + "'"@]),
        );
    }
    lemma_came(
        spec_attempt(spec_save_last_vm(log, at, vm)),
        Some(()),
        whole,
        log,
        at,
        t0,
        t1 + t2,
        Err(seq!["Storage drive '"@ + name + "' is not attached to VM '"@ + vm + "'"@]),
    );
}

#[verifier::spinoff_prover]
proof fn lemma_attach_hid_again(
    log: Log,
    at: int,
    w: World,
    vm: Seq<char>,
    h: HidView,
    k: int,
    id: u64,
)
    requires
        settled(w),
        first_hid(w.hids, h.name, k),
        w.hids[k] == h,
        id <= 0xffff_ffff,
        lists_vm(w.unpaused, vm),
        hostdevs_in(w.xml).contains((normalized(h.vid), normalized(h.pid))),
        heard(
            log,
            at,
            hids_read(w) + (
                seq![unpaused_listed(w)]
                    + (
                        daemon_known(w, h.name, id, true)
                            + seq![
                                described(w, vm),
                                told(
                                    line().push(
                                        plain(
                                            "HID device '"@ + h.name + "' is already attached to "@
                                                + vm,
                                        ),
                                    ),
                                ),
                            ]
                    )
            ),
        ),
    ensures
        came(
            spec_attach_hid_device(log, at, vm, h.name),
            log,
            at,
            hids_read(w) + (
                seq![unpaused_listed(w)]
                    + (
                        daemon_known(w, h.name, id, true)
                            + seq![
                                described(w, vm),
                                told(
                                    line().push(
                                        plain(
                                            "HID device '"@ + h.name + "' is already attached to "@
                                                + vm,
                                        ),
                                    ),
                                ),
                            ]
                    )
            ),
            Ok(()),
        ),
{
    lemma_hid_from(w.hids, h.name, 0);
    broadcast use {encode_utf8_valid_utf8, encode_utf8_decode_utf8};

    let whole = spec_attach_hid_device(log, at, vm, h.name);
    let t0 = hids_read(w);
    let t1 = seq![unpaused_listed(w)];
    let t2 = daemon_known(w, h.name, id, true);
    let t3 = seq![
        described(w, vm),
        told(line().push(plain("HID device '"@ + h.name + "' is already attached to "@ + vm))),
    ];
    lemma_heard(log, at, t0, t1 + (t2 + t3));
    lemma_hids_read(log, at, w);
    assert(came(spec_load_hid_devices(log, at), log, at, t0, Ok(w.hids)));
    if log.len() >= at + t0.len() {
        let at1 = at + t0.len();
        lemma_heard(log, at1, t1, t2 + t3);
        assert(came(spec_check_vm_unpaused(log, at1, vm), log, at1, t1, Ok(true)));
        if log.len() >= at1 + t1.len() {
            let at2 = at1 + t1.len();
            lemma_heard(log, at2, t2, t3);
            lemma_daemon_known(log, at2, w, h.name, id, true);
            assert(came(spec_is_hid_daemon_running(log, at2, h.name), log, at2, t2, Ok(true)));
            if log.len() >= at2 + t2.len() {
                let at3 = at2 + t2.len();
                assert(came(whole, log, at3, t3, Ok(())));
            }
            lemma_came(
                spec_is_hid_daemon_running(log, at2, h.name),
                true,
                whole,
                log,
                at2,
                t2,
                t3,
                Ok(()),
            );
        }
        lemma_came(
            spec_check_vm_unpaused(log, at1, vm),
            true,
            whole,
            log,
            at1,
            t1,
            t2 + t3,
            Ok(()),
        );
    }
    lemma_came(spec_load_hid_devices(log, at), w.hids, whole, log, at, t0, t1 + (t2 + t3), Ok(()));
}

/// `attach` with the name of a HID device that the virtual machine has already:
/// that is said, and nothing else is done.
#[verifier::spinoff_prover]
pub proof fn law_attach_hid_needless(
    log: Log,
    at: int,
    w: World,
    vm: Seq<char>,
    h: HidView,
    k: int,
    id: u64,
)
    requires
        settled(w),
        !h.name.contains(':'),
        first_hid(w.hids, h.name, k),
        w.hids[k] == h,
        no_such_drive(w.drives, h.name),
        id <= 0xffff_ffff,
        lists_vm(w.unpaused, vm),
        hostdevs_in(w.xml).contains((normalized(h.vid), normalized(h.pid))),
        heard(
            log,
            at,
            vm_remembered(w, vm) + (
                (drives_read(w) + hids_read(w))
                    + (
                        hids_read(w)
                            + (
                                seq![unpaused_listed(w)]
                                    + (
                                        daemon_known(w, h.name, id, true)
                                            + seq![
                                                described(w, vm),
                                                told(
                                                    line().push(
                                                        plain(
                                                            "HID device '"@ + h.name
                                                                + "' is already attached to "@ + vm,
                                                        ),
                                                    ),
                                                ),
                                            ]
                                    )
                            )
                    )
            ),
        ),
    ensures
        came(
            spec_run_tool(log, at, asked(CommandsView::Attach, vm, h.name)),
            log,
            at,
            vm_remembered(w, vm) + (
                (drives_read(w) + hids_read(w))
                    + (
                        hids_read(w)
                            + (
                                seq![unpaused_listed(w)]
                                    + (
                                        daemon_known(w, h.name, id, true)
                                            + seq![
                                                described(w, vm),
                                                told(
                                                    line().push(
                                                        plain(
                                                            "HID device '"@ + h.name
                                                                + "' is already attached to "@ + vm,
                                                        ),
                                                    ),
                                                ),
                                            ]
                                    )
                            )
                    )
            ),
            Ok(Ending::Done),
        ),
{
    broadcast use {encode_utf8_valid_utf8, encode_utf8_decode_utf8};

    let whole = spec_run_tool(log, at, asked(CommandsView::Attach, vm, h.name));
    let t0 = vm_remembered(w, vm);
    let t1 = (drives_read(w) + hids_read(w));
    let t2 = (
        hids_read(w)
            + (
                seq![unpaused_listed(w)]
                    + (
                        daemon_known(w, h.name, id, true)
                            + seq![
                                described(w, vm),
                                told(
                                    line().push(
                                        plain(
                                            "HID device '"@ + h.name + "' is already attached to "@
                                                + vm,
                                        ),
                                    ),
                                ),
                            ]
                    )
            )
    );
    lemma_heard(log, at, t0, t1 + t2);
    lemma_vm_remembered(log, at, w, vm);
    assert(came(spec_attempt(spec_save_last_vm(log, at, vm)), log, at, t0, Ok(Some(()))));
    if log.len() >= at + t0.len() {
        let at1 = at + t0.len();
        lemma_heard(log, at1, t1, t2);
        lemma_hid_by_name(log, at1, w, vm, h.name, k, false);
        assert(
            came(
                spec_resolve_device(log, at1, vm, Some(h.name), false),
                log,
                at1,
                t1,
                Ok(SelectedView::Hid { name: h.name }),
            )
        );
        if log.len() >= at1 + t1.len() {
            let at2 = at1 + t1.len();
            lemma_attach_hid_again(log, at2, w, vm, h, k, id);
            assert(came(whole, log, at2, t2, Ok(Ending::Done)));
        }
        lemma_came(
            spec_resolve_device(log, at1, vm, Some(h.name), false),
            SelectedView::Hid { name: h.name },
            whole,
            log,
            at1,
            t1,
            t2,
            Ok(Ending::Done),
        );
    }
    lemma_came(
        spec_attempt(spec_save_last_vm(log, at, vm)),
        Some(()),
        whole,
        log,
        at,
        t0,
        t1 + t2,
        Ok(Ending::Done),
    );
}

#[verifier::spinoff_prover]
proof fn lemma_detach_hid_missing(
    log: Log,
    at: int,
    w: World,
    vm: Seq<char>,
    h: HidView,
    k: int,
    gone: Chain,
)
    requires
        settled(w),
        first_hid(w.hids, h.name, k),
        w.hids[k] == h,
        lists_vm(w.unpaused, vm),
        !hostdevs_in(w.xml).contains((normalized(h.vid), normalized(h.pid))),
        heard(
            log,
            at,
            hids_read(w) + (
                seq![unpaused_listed(w)]
                    + (
                        seq![described(w, vm)]
                            + (
                                daemon_absent(w, h.name, gone)
                                    + seq![
                                        told(
                                            line().push(
                                                plain(
                                                    "HID device '"@ + h.name
                                                        + "' is not attached to "@ + vm,
                                                ),
                                            ),
                                        ),
                                    ]
                            )
                    )
            ),
        ),
    ensures
        came(
            spec_detach_hid_device(log, at, vm, h.name),
            log,
            at,
            hids_read(w) + (
                seq![unpaused_listed(w)]
                    + (
                        seq![described(w, vm)]
                            + (
                                daemon_absent(w, h.name, gone)
                                    + seq![
                                        told(
                                            line().push(
                                                plain(
                                                    "HID device '"@ + h.name
                                                        + "' is not attached to "@ + vm,
                                                ),
                                            ),
                                        ),
                                    ]
                            )
                    )
            ),
            Ok(()),
        ),
{
    lemma_hid_from(w.hids, h.name, 0);
    broadcast use {encode_utf8_valid_utf8, encode_utf8_decode_utf8};

    let whole = spec_detach_hid_device(log, at, vm, h.name);
    let t0 = hids_read(w);
    let t1 = seq![unpaused_listed(w)];
    let t2 = seq![described(w, vm)];
    let t3 = daemon_absent(w, h.name, gone);
    let t4 = seq![
        told(line().push(plain("HID device '"@ + h.name + "' is not attached to "@ + vm))),
    ];
    lemma_heard(log, at, t0, t1 + (t2 + (t3 + t4)));
    lemma_hids_read(log, at, w);
    assert(came(spec_load_hid_devices(log, at), log, at, t0, Ok(w.hids)));
    if log.len() >= at + t0.len() {
        let at1 = at + t0.len();
        lemma_heard(log, at1, t1, t2 + (t3 + t4));
        assert(came(spec_check_vm_unpaused(log, at1, vm), log, at1, t1, Ok(true)));
        if log.len() >= at1 + t1.len() {
            let at2 = at1 + t1.len();
            lemma_heard(log, at2, t2, t3 + t4);
            assert(
                came(
                    spec_is_device_attached(log, at2, vm, normalized(h.vid), normalized(h.pid)),
                    log,
                    at2,
                    t2,
                    Ok(false),
                )
            );
            if log.len() >= at2 + t2.len() {
                let at3 = at2 + t2.len();
                lemma_heard(log, at3, t3, t4);
                lemma_daemon_absent(log, at3, w, h.name, gone);
                assert(came(spec_is_hid_daemon_running(log, at3, h.name), log, at3, t3, Ok(false)));
                if log.len() >= at3 + t3.len() {
                    let at4 = at3 + t3.len();
                    assert(came(whole, log, at4, t4, Ok(())));
                }
                lemma_came(
                    spec_is_hid_daemon_running(log, at3, h.name),
                    false,
                    whole,
                    log,
                    at3,
                    t3,
                    t4,
                    Ok(()),
                );
            }
            lemma_came(
                spec_is_device_attached(log, at2, vm, normalized(h.vid), normalized(h.pid)),
                false,
                whole,
                log,
                at2,
                t2,
                t3 + t4,
                Ok(()),
            );
        }
        lemma_came(
            spec_check_vm_unpaused(log, at1, vm),
            true,
            whole,
            log,
            at1,
            t1,
            t2 + (t3 + t4),
            Ok(()),
        );
    }
    lemma_came(
        spec_load_hid_devices(log, at),
        w.hids,
        whole,
        log,
        at,
        t0,
        t1 + (t2 + (t3 + t4)),
        Ok(()),
    );
}

/// `detach` with the name of a HID device that has no daemon and that the
/// virtual machine has not: that is said, and nothing else is done.
#[verifier::spinoff_prover]
pub proof fn law_detach_hid_needless(
    log: Log,
    at: int,
    w: World,
    vm: Seq<char>,
    h: HidView,
    k: int,
    gone: Chain,
)
    requires
        settled(w),
        !h.name.contains(':'),
        first_hid(w.hids, h.name, k),
        w.hids[k] == h,
        no_such_drive(w.drives, h.name),
        lists_vm(w.unpaused, vm),
        !hostdevs_in(w.xml).contains((normalized(h.vid), normalized(h.pid))),
        heard(
            log,
            at,
            vm_remembered(w, vm) + (
                (drives_read(w) + hids_read(w))
                    + (
                        hids_read(w)
                            + (
                                seq![unpaused_listed(w)]
                                    + (
                                        seq![described(w, vm)]
                                            + (
                                                daemon_absent(w, h.name, gone)
                                                    + seq![
                                                        told(
                                                            line().push(
                                                                plain(
                                                                    "HID device '"@ + h.name
                                                                        + "' is not attached to "@
                                                                        + vm,
                                                                ),
                                                            ),
                                                        ),
                                                    ]
                                            )
                                    )
                            )
                    )
            ),
        ),
    ensures
        came(
            spec_run_tool(log, at, asked(CommandsView::Detach, vm, h.name)),
            log,
            at,
            vm_remembered(w, vm) + (
                (drives_read(w) + hids_read(w))
                    + (
                        hids_read(w)
                            + (
                                seq![unpaused_listed(w)]
                                    + (
                                        seq![described(w, vm)]
                                            + (
                                                daemon_absent(w, h.name, gone)
                                                    + seq![
                                                        told(
                                                            line().push(
                                                                plain(
                                                                    "HID device '"@ + h.name
                                                                        + "' is not attached to "@
                                                                        + vm,
                                                                ),
                                                            ),
                                                        ),
                                                    ]
                                            )
                                    )
                            )
                    )
            ),
            Ok(Ending::Done),
        ),
{
    broadcast use {encode_utf8_valid_utf8, encode_utf8_decode_utf8};

    let whole = spec_run_tool(log, at, asked(CommandsView::Detach, vm, h.name));
    let t0 = vm_remembered(w, vm);
    let t1 = (drives_read(w) + hids_read(w));
    let t2 = (
        hids_read(w)
            + (
                seq![unpaused_listed(w)]
                    + (
                        seq![described(w, vm)]
                            + (
                                daemon_absent(w, h.name, gone)
                                    + seq![
                                        told(
                                            line().push(
                                                plain(
                                                    "HID device '"@ + h.name
                                                        + "' is not attached to "@ + vm,
                                                ),
                                            ),
                                        ),
                                    ]
                            )
                    )
            )
    );
    lemma_heard(log, at, t0, t1 + t2);
    lemma_vm_remembered(log, at, w, vm);
    assert(came(spec_attempt(spec_save_last_vm(log, at, vm)), log, at, t0, Ok(Some(()))));
    if log.len() >= at + t0.len() {
        let at1 = at + t0.len();
        lemma_heard(log, at1, t1, t2);
        lemma_hid_by_name(log, at1, w, vm, h.name, k, true);
        assert(
            came(
                spec_resolve_device(log, at1, vm, Some(h.name), true),
                log,
                at1,
                t1,
                Ok(SelectedView::Hid { name: h.name }),
            )
        );
        if log.len() >= at1 + t1.len() {
            let at2 = at1 + t1.len();
            lemma_detach_hid_missing(log, at2, w, vm, h, k, gone);
            assert(came(whole, log, at2, t2, Ok(Ending::Done)));
        }
        lemma_came(
            spec_resolve_device(log, at1, vm, Some(h.name), true),
            SelectedView::Hid { name: h.name },
            whole,
            log,
            at1,
            t1,
            t2,
            Ok(Ending::Done),
        );
    }
    lemma_came(
        spec_attempt(spec_save_last_vm(log, at, vm)),
        Some(()),
        whole,
        log,
        at,
        t0,
        t1 + t2,
        Ok(Ending::Done),
    );
}

/// `hid type` into a virtual machine that is not active is refused, and nothing
/// is sent.
#[verifier::spinoff_prover]
pub proof fn law_type_of_stopped(
    log: Log,
    at: int,
    w: World,
    other: Option<Seq<char>>,
    vm: Seq<char>,
    name: Seq<char>,
    text: Seq<char>,
    no_enter: bool,
)
    requires
        settled(w),
        !lists_vm(w.active, vm),
        heard(log, at, seq![active_listed(w)]),
    ensures
        came(
            spec_run_tool(
                log,
                at,
                asked_only(
                    CommandsView::Hid(
                        HidCommandsView::Type { text, vm: Some(vm), device: Some(name), no_enter },
                    ),
                    other,
                ),
            ),
            log,
            at,
            seq![active_listed(w)],
            Err(stopped(vm)),
        ),
{
    broadcast use {encode_utf8_valid_utf8, encode_utf8_decode_utf8};

    let whole = spec_run_tool(
        log,
        at,
        asked_only(
            CommandsView::Hid(
                HidCommandsView::Type { text, vm: Some(vm), device: Some(name), no_enter },
            ),
            other,
        ),
    );
    let t0 = seq![active_listed(w)];
    assert(came(whole, log, at, t0, Err(stopped(vm))));
}

/// `hid type` over a HID device that is not in the list is refused, and nothing
/// is sent.
#[verifier::spinoff_prover]
pub proof fn law_type_unknown(
    log: Log,
    at: int,
    w: World,
    other: Option<Seq<char>>,
    vm: Seq<char>,
    name: Seq<char>,
    text: Seq<char>,
    no_enter: bool,
)
    requires
        settled(w),
        lists_vm(w.active, vm),
        no_such_hid(w.hids, name),
        heard(log, at, seq![active_listed(w)] + hids_read(w)),
    ensures
        came(
            spec_run_tool(
                log,
                at,
                asked_only(
                    CommandsView::Hid(
                        HidCommandsView::Type { text, vm: Some(vm), device: Some(name), no_enter },
                    ),
                    other,
                ),
            ),
            log,
            at,
            seq![active_listed(w)] + hids_read(w),
            Err(seq!["No HID device named '"@ + name + "'"@]),
        ),
{
    lemma_hid_from(w.hids, name, 0);
    broadcast use {encode_utf8_valid_utf8, encode_utf8_decode_utf8};

    let whole = spec_run_tool(
        log,
        at,
        asked_only(
            CommandsView::Hid(
                HidCommandsView::Type { text, vm: Some(vm), device: Some(name), no_enter },
            ),
            other,
        ),
    );
    let t0 = seq![active_listed(w)];
    let t1 = hids_read(w);
    lemma_heard(log, at, t0, t1);
    assert(came(spec_check_vm_running(log, at, vm), log, at, t0, Ok(true)));
    if log.len() >= at + t0.len() {
        let at1 = at + t0.len();
        lemma_hids_read(log, at1, w);
        assert(came(whole, log, at1, t1, Err(seq!["No HID device named '"@ + name + "'"@])));
    }
    lemma_came(
        spec_check_vm_running(log, at, vm),
        true,
        whole,
        log,
        at,
        t0,
        t1,
        Err(seq!["No HID device named '"@ + name + "'"@]),
    );
}

/// `hid type` over a HID device without a daemon is refused, and nothing is
/// sent.
#[verifier::spinoff_prover]
pub proof fn law_type_unattached(
    log: Log,
    at: int,
    w: World,
    other: Option<Seq<char>>,
    vm: Seq<char>,
    name: Seq<char>,
    k: int,
    gone: Chain,
    text: Seq<char>,
    no_enter: bool,
)
    requires
        settled(w),
        lists_vm(w.active, vm),
        first_hid(w.hids, name, k),
        heard(log, at, seq![active_listed(w)] + (hids_read(w) + daemon_absent(w, name, gone))),
    ensures
        came(
            spec_run_tool(
                log,
                at,
                asked_only(
                    CommandsView::Hid(
                        HidCommandsView::Type { text, vm: Some(vm), device: Some(name), no_enter },
                    ),
                    other,
                ),
            ),
            log,
            at,
            seq![active_listed(w)] + (hids_read(w) + daemon_absent(w, name, gone)),
            Err(
                seq![
                    "HID device '"@ + name + "' is not attached to VM '"@ + vm
                        + "'. Attach it first."@,
                ],
            ),
        ),
{
    lemma_hid_from(w.hids, name, 0);
    broadcast use {encode_utf8_valid_utf8, encode_utf8_decode_utf8};

    let whole = spec_run_tool(
        log,
        at,
        asked_only(
            CommandsView::Hid(
                HidCommandsView::Type { text, vm: Some(vm), device: Some(name), no_enter },
            ),
            other,
        ),
    );
    let t0 = seq![active_listed(w)];
    let t1 = hids_read(w);
    let t2 = daemon_absent(w, name, gone);
    lemma_heard(log, at, t0, t1 + t2);
    assert(came(spec_check_vm_running(log, at, vm), log, at, t0, Ok(true)));
    if log.len() >= at + t0.len() {
        let at1 = at + t0.len();
        lemma_heard(log, at1, t1, t2);
        lemma_hids_read(log, at1, w);
        assert(came(spec_load_hid_devices(log, at1), log, at1, t1, Ok(w.hids)));
        if log.len() >= at1 + t1.len() {
            let at2 = at1 + t1.len();
            lemma_daemon_absent(log, at2, w, name, gone);
            assert(
                came(
                    whole,
                    log,
                    at2,
                    t2,
                    Err(
                        seq![
                            "HID device '"@ + name + "' is not attached to VM '"@ + vm
                                + "'. Attach it first."@,
                        ],
                    ),
                )
            );
        }
        lemma_came(
            spec_load_hid_devices(log, at1),
            w.hids,
            whole,
            log,
            at1,
            t1,
            t2,
            Err(
                seq![
                    "HID device '"@ + name + "' is not attached to VM '"@ + vm
                        + "'. Attach it first."@,
                ],
            ),
        );
    }
    lemma_came(
        spec_check_vm_running(log, at, vm),
        true,
        whole,
        log,
        at,
        t0,
        t1 + t2,
        Err(
            seq![
                "HID device '"@ + name + "' is not attached to VM '"@ + vm + "'. Attach it first."@,
            ],
        ),
    );
}

/// `storage create` with a name that, sanitized, such a device has: that is
/// told, and nothing is made.
#[verifier::spinoff_prover]
pub proof fn law_create_drive_taken(
    log: Log,
    at: int,
    w: World,
    other: Option<Seq<char>>,
    name: Seq<char>,
    k: int,
    size: Seq<char>,
)
    requires
        settled(w),
        name.len() > 0,
        sanitized(name).len() > 0,
        first_drive(w.drives, sanitized(name), k),
        heard(log, at, drives_read(w)),
    ensures
        came(
            spec_run_tool(
                log,
                at,
                asked_only(
                    CommandsView::Storage(StorageCommandsView::Create { name, size }),
                    other,
                ),
            ),
            log,
            at,
            drives_read(w),
            Err(seq!["A storage drive named '"@ + sanitized(name) + "' already exists"@]),
        ),
{
    lemma_drive_from(w.drives, sanitized(name), 0);
    lemma_hid_from(w.hids, sanitized(name), 0);
    broadcast use {encode_utf8_valid_utf8, encode_utf8_decode_utf8};

    let whole = spec_run_tool(
        log,
        at,
        asked_only(CommandsView::Storage(StorageCommandsView::Create { name, size }), other),
    );
    let t0 = drives_read(w);
    lemma_drives_read(log, at, w);
    assert(
        came(
            whole,
            log,
            at,
            t0,
            Err(seq!["A storage drive named '"@ + sanitized(name) + "' already exists"@]),
        )
    );
}

/// `storage create` with a name that, sanitized, a device of the other kind
/// has: that is told, and nothing is made.
#[verifier::spinoff_prover]
pub proof fn law_create_drive_taken_elsewhere(
    log: Log,
    at: int,
    w: World,
    other: Option<Seq<char>>,
    name: Seq<char>,
    k: int,
    size: Seq<char>,
)
    requires
        settled(w),
        name.len() > 0,
        sanitized(name).len() > 0,
        no_such_drive(w.drives, sanitized(name)),
        first_hid(w.hids, sanitized(name), k),
        heard(log, at, drives_read(w) + hids_read(w)),
    ensures
        came(
            spec_run_tool(
                log,
                at,
                asked_only(
                    CommandsView::Storage(StorageCommandsView::Create { name, size }),
                    other,
                ),
            ),
            log,
            at,
            drives_read(w) + hids_read(w),
            Err(
                seq![
                    "An HID device named '"@ + sanitized(name)
                        + "' already exists. Device names must be unique across all types."@,
                ],
            ),
        ),
{
    lemma_drive_from(w.drives, sanitized(name), 0);
    lemma_hid_from(w.hids, sanitized(name), 0);
    broadcast use {encode_utf8_valid_utf8, encode_utf8_decode_utf8};

    let whole = spec_run_tool(
        log,
        at,
        asked_only(CommandsView::Storage(StorageCommandsView::Create { name, size }), other),
    );
    let t0 = drives_read(w);
    let t1 = hids_read(w);
    lemma_heard(log, at, t0, t1);
    lemma_drives_read(log, at, w);
    assert(came(spec_load_virtual_drives(log, at), log, at, t0, Ok(w.drives)));
    if log.len() >= at + t0.len() {
        let at1 = at + t0.len();
        lemma_hids_read(log, at1, w);
        assert(
            came(
                whole,
                log,
                at1,
                t1,
                Err(
                    seq![
                        "An HID device named '"@ + sanitized(name)
                            + "' already exists. Device names must be unique across all types."@,
                    ],
                ),
            )
        );
    }
    lemma_came(
        spec_load_virtual_drives(log, at),
        w.drives,
        whole,
        log,
        at,
        t0,
        t1,
        Err(
            seq![
                "An HID device named '"@ + sanitized(name)
                    + "' already exists. Device names must be unique across all types."@,
            ],
        ),
    );
}

/// `hid create` with a name that, sanitized, such a device has: that is told,
/// and nothing is made.
#[verifier::spinoff_prover]
pub proof fn law_create_hid_taken(
    log: Log,
    at: int,
    w: World,
    other: Option<Seq<char>>,
    name: Seq<char>,
    k: int,
    vid: Seq<char>,
    pid: Seq<char>,
)
    requires
        settled(w),
        name.len() > 0,
        sanitized(name).len() > 0,
        first_hid(w.hids, sanitized(name), k),
        heard(log, at, hids_read(w)),
    ensures
        came(
            spec_run_tool(
                log,
                at,
                asked_only(CommandsView::Hid(HidCommandsView::Create { name, vid, pid }), other),
            ),
            log,
            at,
            hids_read(w),
            Err(seq!["An HID device named '"@ + sanitized(name) + "' already exists"@]),
        ),
{
    lemma_drive_from(w.drives, sanitized(name), 0);
    lemma_hid_from(w.hids, sanitized(name), 0);
    broadcast use {encode_utf8_valid_utf8, encode_utf8_decode_utf8};

    let whole = spec_run_tool(
        log,
        at,
        asked_only(CommandsView::Hid(HidCommandsView::Create { name, vid, pid }), other),
    );
    let t0 = hids_read(w);
    lemma_hids_read(log, at, w);
    assert(
        came(
            whole,
            log,
            at,
            t0,
            Err(seq!["An HID device named '"@ + sanitized(name) + "' already exists"@]),
        )
    );
}

/// `hid create` with a name that, sanitized, a device of the other kind has:
/// that is told, and nothing is made.
#[verifier::spinoff_prover]
pub proof fn law_create_hid_taken_elsewhere(
    log: Log,
    at: int,
    w: World,
    other: Option<Seq<char>>,
    name: Seq<char>,
    k: int,
    vid: Seq<char>,
    pid: Seq<char>,
)
    requires
        settled(w),
        name.len() > 0,
        sanitized(name).len() > 0,
        no_such_hid(w.hids, sanitized(name)),
        first_drive(w.drives, sanitized(name), k),
        heard(log, at, hids_read(w) + drives_read(w)),
    ensures
        came(
            spec_run_tool(
                log,
                at,
                asked_only(CommandsView::Hid(HidCommandsView::Create { name, vid, pid }), other),
            ),
            log,
            at,
            hids_read(w) + drives_read(w),
            Err(
                seq![
                    "A storage drive named '"@ + sanitized(name)
                        + "' already exists. Device names must be unique across all types."@,
                ],
            ),
        ),
{
    lemma_drive_from(w.drives, sanitized(name), 0);
    lemma_hid_from(w.hids, sanitized(name), 0);
    broadcast use {encode_utf8_valid_utf8, encode_utf8_decode_utf8};

    let whole = spec_run_tool(
        log,
        at,
        asked_only(CommandsView::Hid(HidCommandsView::Create { name, vid, pid }), other),
    );
    let t0 = hids_read(w);
    let t1 = drives_read(w);
    lemma_heard(log, at, t0, t1);
    lemma_hids_read(log, at, w);
    assert(came(spec_load_hid_devices(log, at), log, at, t0, Ok(w.hids)));
    if log.len() >= at + t0.len() {
        let at1 = at + t0.len();
        lemma_drives_read(log, at1, w);
        assert(
            came(
                whole,
                log,
                at1,
                t1,
                Err(
                    seq![
                        "A storage drive named '"@ + sanitized(name)
                            + "' already exists. Device names must be unique across all types."@,
                    ],
                ),
            )
        );
    }
    lemma_came(
        spec_load_hid_devices(log, at),
        w.hids,
        whole,
        log,
        at,
        t0,
        t1,
        Err(
            seq![
                "A storage drive named '"@ + sanitized(name)
                    + "' already exists. Device names must be unique across all types."@,
            ],
        ),
    );
}

/// A name that both a drive and a HID device have is refused, whatever is
/// asked.
#[verifier::spinoff_prover]
pub proof fn law_ambiguous_name(
    log: Log,
    at: int,
    w: World,
    vm: Seq<char>,
    name: Seq<char>,
    k: int,
    j: int,
)
    requires
        settled(w),
        !name.contains(':'),
        first_drive(w.drives, name, k),
        first_hid(w.hids, name, j),
        heard(log, at, vm_remembered(w, vm) + (drives_read(w) + hids_read(w))),
    ensures
        came(
            spec_run_tool(log, at, asked(CommandsView::Attach, vm, name)),
            log,
            at,
            vm_remembered(w, vm) + (drives_read(w) + hids_read(w)),
            Err(
                seq![
                    "Ambiguous device name '"@ + name
                        + "': matches both a storage drive and an HID device"@,
                ],
            ),
        ),
{
    broadcast use {encode_utf8_valid_utf8, encode_utf8_decode_utf8};

    let whole = spec_run_tool(log, at, asked(CommandsView::Attach, vm, name));
    let t0 = vm_remembered(w, vm);
    let t1 = drives_read(w);
    let t2 = hids_read(w);
    lemma_heard(log, at, t0, t1 + t2);
    lemma_vm_remembered(log, at, w, vm);
    assert(came(spec_attempt(spec_save_last_vm(log, at, vm)), log, at, t0, Ok(Some(()))));
    if log.len() >= at + t0.len() {
        let at1 = at + t0.len();
        lemma_heard(log, at1, t1, t2);
        lemma_drives_read(log, at1, w);
        lemma_is_name(name);
        assert(came(spec_load_virtual_drives(log, at1), log, at1, t1, Ok(w.drives)));
        if log.len() >= at1 + t1.len() {
            let at2 = at1 + t1.len();
            lemma_hids_read(log, at2, w);
            lemma_is_name(name);
            lemma_drive_from(w.drives, name, 0);
            lemma_hid_from(w.hids, name, 0);
            assert(
                came(
                    whole,
                    log,
                    at2,
                    t2,
                    Err(
                        seq![
                            "Ambiguous device name '"@ + name
                                + "': matches both a storage drive and an HID device"@,
                        ],
                    ),
                )
            );
        }
        lemma_came(
            spec_load_virtual_drives(log, at1),
            w.drives,
            whole,
            log,
            at1,
            t1,
            t2,
            Err(
                seq![
                    "Ambiguous device name '"@ + name
                        + "': matches both a storage drive and an HID device"@,
                ],
            ),
        );
    }
    lemma_came(
        spec_attempt(spec_save_last_vm(log, at, vm)),
        Some(()),
        whole,
        log,
        at,
        t0,
        t1 + t2,
        Err(
            seq![
                "Ambiguous device name '"@ + name
                    + "': matches both a storage drive and an HID device"@,
            ],
        ),
    );
}

} // verus!
