//! Deleting and listing virtual devices, request by request.

use vstd::prelude::*;
use vstd::string::*;
use vstd::utf8::*;

use crate::conduct::found;
use crate::daemon::{normalized, spec_cleanup_hid_state_files, spec_is_hid_daemon_running};
use crate::devices::{AttachmentView, DriveView, HidView};
use crate::dialogue::{
    active_listed, asked_only, came, daemon_absent, daemon_known, data_asked, drives_read,
    first_drive, first_hid, heard, hids_read, image_found, lemma_came, lemma_daemon_absent,
    lemma_daemon_known, lemma_drive_from, lemma_drives_read, lemma_heard, lemma_hid_from,
    lemma_hids_read, lemma_paths, lemma_state_removed, no_such_drive, no_such_hid, run, settled,
    state_removed, told, written, Talk, World,
};
use crate::hid::{
    hid_line, spec_delete_hid_device, spec_drop_hid, spec_is_hid_device_attached,
    spec_list_hid_devices, spec_show_hids, spec_vm_with_hid,
};
use crate::host::{
    bind, bold_green, cyan, dim, green, line, plain, spec_say, Chain, Log, Outcome, ReplyView,
    RequestView, SpanView,
};
use crate::registry::{spec_load_hid_devices, spec_load_virtual_drives};
use crate::storage::{
    attached_vm, disk_from, disks_in, images_of, spec_attached_images, spec_delete_virtual_drive,
    spec_get_attached_virtual_devices, spec_is_virtual_drive_attached, spec_list_virtual_drives,
    spec_refuse_attached_drive, spec_show_drive, spec_show_drives,
};
use crate::text::{contains, lines_of, padded, trimmed};
use crate::tool::{spec_run_tool, CommandsView, Ending, HidCommandsView, StorageCommandsView};
use crate::transfer::whole;
use crate::usb::hostdevs_in;
use crate::vm::{names_listed, spec_active_vms};

verus! {

// ---------------------------------------------------------------------------
// Deleting
// ---------------------------------------------------------------------------

/// The definitions of virtual machines are looked through for a drive, from the
/// one at `i` up to the one at `n`.
pub open spec fn drive_looked_for(
    w: World,
    name: Seq<char>,
    vms: Seq<Seq<char>>,
    xmls: spec_fn(Seq<char>) -> Seq<char>,
    i: int,
    n: int,
) -> Talk
    decreases n - i,
{
    if i >= n {
        seq![]
    } else {
        seq![image_found(w, name), run(seq!["virsh"@, "dumpxml"@, vms[i]], xmls(vms[i]))]
            + drive_looked_for(w, name, vms, xmls, i + 1, n)
    }
}

/// The virtual machine has a disk with the image.
pub open spec fn has_image(xml: Seq<char>, image: Seq<char>) -> bool {
    exists|i: int|
        0 <= i < disks_in(xml).len() && (#[trigger] disks_in(xml)[i]).source_file == image
}

pub proof fn lemma_disk_from(disks: Seq<AttachmentView>, image: Seq<char>, i: int)
    requires
        0 <= i,
    ensures
        disk_from(disks, image, i) is Some <==> exists|j: int|
            i <= j < disks.len() && (#[trigger] disks[j]).source_file == image,
        disk_from(disks, image, i) matches Some(d) ==> exists|j: int|
            i <= j < disks.len() && #[trigger] disks[j] == d && d.source_file == image,
    decreases disks.len() - i,
{
    if i < disks.len() {
        if disks[i].source_file == image {
            assert(disks[i] == disks[i]);
        } else {
            lemma_disk_from(disks, image, i + 1);
        }
    }
}

#[verifier::spinoff_prover]
proof fn lemma_drive_looked_for(
    log: Log,
    at: int,
    w: World,
    name: Seq<char>,
    vms: Seq<Seq<char>>,
    xmls: spec_fn(Seq<char>) -> Seq<char>,
    i: int,
    n: int,
)
    requires
        0 <= i <= n <= vms.len(),
        forall|j: int|
            i <= j < vms.len() && (j < n - 1 || n == vms.len()) && !(n < vms.len() && j == n - 1)
                ==> !has_image(xmls(#[trigger] vms[j]), trimmed(w.image)),
        heard(log, at, drive_looked_for(w, name, vms, xmls, i, n)),
    ensures
        n == vms.len() ==> came(
            spec_refuse_attached_drive(log, at, name, vms, i),
            log,
            at,
            drive_looked_for(w, name, vms, xmls, i, n),
            Ok(()),
        ),
    decreases n - i,
{
    broadcast use {encode_utf8_valid_utf8, encode_utf8_decode_utf8};

    if i < n && n == vms.len() {
        let t = seq![
            image_found(w, name),
            run(seq!["virsh"@, "dumpxml"@, vms[i]], xmls(vms[i])),
        ];
        let rest = drive_looked_for(w, name, vms, xmls, i + 1, n);
        let whole = spec_refuse_attached_drive(log, at, name, vms, i);
        let first = spec_is_virtual_drive_attached(log, at, vms[i], name);
        lemma_heard(log, at, t, rest);
        lemma_disk_from(disks_in(xmls(vms[i])), trimmed(w.image), 0);
        assert(!has_image(xmls(vms[i]), trimmed(w.image)));
        assert(came(first, log, at, t, Ok(false)));
        if log.len() >= at + 2 {
            lemma_drive_looked_for(log, at + 2, w, name, vms, xmls, i + 1, n);
        }
        lemma_came(first, false, whole, log, at, t, rest, Ok(()));
    }
}

/// The first virtual machine that has the drive stops the search.
#[verifier::spinoff_prover]
proof fn lemma_drive_seen(
    log: Log,
    at: int,
    w: World,
    name: Seq<char>,
    vms: Seq<Seq<char>>,
    xmls: spec_fn(Seq<char>) -> Seq<char>,
    i: int,
    j: int,
)
    requires
        0 <= i <= j < vms.len(),
        forall|k: int| i <= k < j ==> !has_image(xmls(#[trigger] vms[k]), trimmed(w.image)),
        has_image(xmls(vms[j]), trimmed(w.image)),
        heard(log, at, drive_looked_for(w, name, vms, xmls, i, j + 1)),
    ensures
        came(
            spec_refuse_attached_drive(log, at, name, vms, i),
            log,
            at,
            drive_looked_for(w, name, vms, xmls, i, j + 1),
            Err(
                seq![
                    "Storage drive '"@ + name + "' is currently attached to VM '"@ + vms[j]
                        + "'. Detach it first."@,
                ],
            ),
        ),
    decreases j - i,
{
    broadcast use {encode_utf8_valid_utf8, encode_utf8_decode_utf8};

    let t = seq![image_found(w, name), run(seq!["virsh"@, "dumpxml"@, vms[i]], xmls(vms[i]))];
    let rest = drive_looked_for(w, name, vms, xmls, i + 1, j + 1);
    let whole = spec_refuse_attached_drive(log, at, name, vms, i);
    let first = spec_is_virtual_drive_attached(log, at, vms[i], name);
    let end: Result<(), Chain> = Err(
        seq![
            "Storage drive '"@ + name + "' is currently attached to VM '"@ + vms[j]
                + "'. Detach it first."@,
        ],
    );
    lemma_heard(log, at, t, rest);
    lemma_disk_from(disks_in(xmls(vms[i])), trimmed(w.image), 0);
    assert(came(first, log, at, t, Ok(i == j)));
    if log.len() >= at + 2 {
        if i < j {
            lemma_drive_seen(log, at + 2, w, name, vms, xmls, i + 1, j);
        } else {
            assert(rest =~= seq![]);
        }
    }
    lemma_came(first, i == j, whole, log, at, t, rest, end);
}

/// A volume is deleted, and the drive is taken from the list.
pub open spec fn drive_dropped(w: World, k: int, name: Seq<char>, text: Seq<char>) -> Talk {
    seq![
        run(
            seq!["virsh"@, "vol-delete"@, name + ".qcow2"@, "--pool"@, "default"@],
            w.said,
        ),
        data_asked(w),
        (
            RequestView::EncodeDrives(w.drives.take(k) + w.drives.skip(k + 1)),
            ReplyView::Text(text),
        ),
        written(w.data + "/"@ + "drives.json"@, text),
        told(
            line().push(bold_green("✓"@)).push(plain(" Deleted storage drive "@)).push(cyan(name)),
        ),
    ]
}

#[verifier::spinoff_prover]
proof fn lemma_drive_deleted(
    log: Log,
    at: int,
    w: World,
    name: Seq<char>,
    k: int,
    vms: Seq<Seq<char>>,
    xmls: spec_fn(Seq<char>) -> Seq<char>,
    text: Seq<char>,
)
    requires
        settled(w),
        first_drive(w.drives, name, k),
        vms == names_listed(lines_of(w.active)),
        forall|j: int| 0 <= j < vms.len() ==> !has_image(xmls(#[trigger] vms[j]), trimmed(w.image)),
        heard(
            log,
            at,
            drives_read(w) + (
                seq![active_listed(w)]
                    + (
                        drive_looked_for(w, name, vms, xmls, 0, vms.len() as int)
                            + drive_dropped(w, k, name, text)
                    )
            ),
        ),
    ensures
        came(
            spec_delete_virtual_drive(log, at, name),
            log,
            at,
            drives_read(w) + (
                seq![active_listed(w)]
                    + (
                        drive_looked_for(w, name, vms, xmls, 0, vms.len() as int)
                            + drive_dropped(w, k, name, text)
                    )
            ),
            Ok(()),
        ),
{
    lemma_drive_from(w.drives, name, 0);
    broadcast use {encode_utf8_valid_utf8, encode_utf8_decode_utf8};

    let whole = spec_delete_virtual_drive(log, at, name);
    let t0 = drives_read(w);
    let t1 = seq![active_listed(w)];
    let t2 = drive_looked_for(w, name, vms, xmls, 0, vms.len() as int);
    let t3 = drive_dropped(w, k, name, text);
    lemma_heard(log, at, t0, t1 + (t2 + t3));
    lemma_drives_read(log, at, w);
    assert(came(spec_load_virtual_drives(log, at), log, at, t0, Ok(w.drives)));
    if log.len() >= at + t0.len() {
        let at1 = at + t0.len();
        lemma_heard(log, at1, t1, t2 + t3);
        assert(came(spec_active_vms(log, at1), log, at1, t1, Ok(vms)));
        if log.len() >= at1 + t1.len() {
            let at2 = at1 + t1.len();
            lemma_heard(log, at2, t2, t3);
            lemma_drive_looked_for(log, at2, w, name, vms, xmls, 0, vms.len() as int);
            assert(came(spec_refuse_attached_drive(log, at2, name, vms, 0), log, at2, t2, Ok(())));
            if log.len() >= at2 + t2.len() {
                let at3 = at2 + t2.len();
                lemma_paths(w.data, "drives.json"@);
                assert(came(whole, log, at3, t3, Ok(())));
            }
            lemma_came(
                spec_refuse_attached_drive(log, at2, name, vms, 0),
                (),
                whole,
                log,
                at2,
                t2,
                t3,
                Ok(()),
            );
        }
        lemma_came(spec_active_vms(log, at1), vms, whole, log, at1, t1, t2 + t3, Ok(()));
    }
    lemma_came(
        spec_load_virtual_drives(log, at),
        w.drives,
        whole,
        log,
        at,
        t0,
        t1 + (t2 + t3),
        Ok(()),
    );
}

/// `storage delete` with the name of a drive that no active virtual machine
/// has: its volume is deleted, and it alone is taken from the list.
#[verifier::spinoff_prover]
pub proof fn law_delete_drive(
    log: Log,
    at: int,
    w: World,
    other: Option<Seq<char>>,
    name: Seq<char>,
    k: int,
    vms: Seq<Seq<char>>,
    xmls: spec_fn(Seq<char>) -> Seq<char>,
    text: Seq<char>,
)
    requires
        settled(w),
        first_drive(w.drives, name, k),
        vms == names_listed(lines_of(w.active)),
        forall|j: int| 0 <= j < vms.len() ==> !has_image(xmls(#[trigger] vms[j]), trimmed(w.image)),
        heard(
            log,
            at,
            (
                drives_read(w)
                    + (
                        seq![active_listed(w)]
                            + (
                                drive_looked_for(w, name, vms, xmls, 0, vms.len() as int)
                                    + drive_dropped(w, k, name, text)
                            )
                    )
            ),
        ),
    ensures
        came(
            spec_run_tool(
                log,
                at,
                asked_only(CommandsView::Storage(StorageCommandsView::Delete { name }), other),
            ),
            log,
            at,
            (
                drives_read(w)
                    + (
                        seq![active_listed(w)]
                            + (
                                drive_looked_for(w, name, vms, xmls, 0, vms.len() as int)
                                    + drive_dropped(w, k, name, text)
                            )
                    )
            ),
            Ok(Ending::Done),
        ),
{
    broadcast use {encode_utf8_valid_utf8, encode_utf8_decode_utf8};

    let whole = spec_run_tool(
        log,
        at,
        asked_only(CommandsView::Storage(StorageCommandsView::Delete { name }), other),
    );
    let t0 = (
        drives_read(w)
            + (
                seq![active_listed(w)]
                    + (
                        drive_looked_for(w, name, vms, xmls, 0, vms.len() as int)
                            + drive_dropped(w, k, name, text)
                    )
            )
    );
    lemma_drive_deleted(log, at, w, name, k, vms, xmls, text);
    assert(came(whole, log, at, t0, Ok(Ending::Done)));
}

#[verifier::spinoff_prover]
proof fn lemma_drive_delete_refused(
    log: Log,
    at: int,
    w: World,
    name: Seq<char>,
    k: int,
    vms: Seq<Seq<char>>,
    xmls: spec_fn(Seq<char>) -> Seq<char>,
    j: int,
)
    requires
        settled(w),
        first_drive(w.drives, name, k),
        vms == names_listed(lines_of(w.active)),
        0 <= j < vms.len(),
        forall|i: int| 0 <= i < j ==> !has_image(xmls(#[trigger] vms[i]), trimmed(w.image)),
        has_image(xmls(vms[j]), trimmed(w.image)),
        heard(
            log,
            at,
            drives_read(w) + (
                seq![active_listed(w)] + drive_looked_for(w, name, vms, xmls, 0, j + 1)
            ),
        ),
    ensures
        came(
            spec_delete_virtual_drive(log, at, name),
            log,
            at,
            drives_read(w) + (
                seq![active_listed(w)] + drive_looked_for(w, name, vms, xmls, 0, j + 1)
            ),
            Err(
                seq![
                    "Storage drive '"@ + name + "' is currently attached to VM '"@ + vms[j]
                        + "'. Detach it first."@,
                ],
            ),
        ),
{
    lemma_drive_from(w.drives, name, 0);
    broadcast use {encode_utf8_valid_utf8, encode_utf8_decode_utf8};

    let whole = spec_delete_virtual_drive(log, at, name);
    let t0 = drives_read(w);
    let t1 = seq![active_listed(w)];
    let t2 = drive_looked_for(w, name, vms, xmls, 0, j + 1);
    lemma_heard(log, at, t0, t1 + t2);
    lemma_drives_read(log, at, w);
    assert(came(spec_load_virtual_drives(log, at), log, at, t0, Ok(w.drives)));
    if log.len() >= at + t0.len() {
        let at1 = at + t0.len();
        lemma_heard(log, at1, t1, t2);
        assert(came(spec_active_vms(log, at1), log, at1, t1, Ok(vms)));
        if log.len() >= at1 + t1.len() {
            let at2 = at1 + t1.len();
            lemma_drive_seen(log, at2, w, name, vms, xmls, 0, j);
            assert(
                came(
                    whole,
                    log,
                    at2,
                    t2,
                    Err(
                        seq![
                            "Storage drive '"@ + name + "' is currently attached to VM '"@ + vms[j]
                                + "'. Detach it first."@,
                        ],
                    ),
                )
            );
        }
        lemma_came(
            spec_active_vms(log, at1),
            vms,
            whole,
            log,
            at1,
            t1,
            t2,
            Err(
                seq![
                    "Storage drive '"@ + name + "' is currently attached to VM '"@ + vms[j]
                        + "'. Detach it first."@,
                ],
            ),
        );
    }
    lemma_came(
        spec_load_virtual_drives(log, at),
        w.drives,
        whole,
        log,
        at,
        t0,
        t1 + t2,
        Err(
            seq![
                "Storage drive '"@ + name + "' is currently attached to VM '"@ + vms[j]
                    + "'. Detach it first."@,
            ],
        ),
    );
}

/// `storage delete` with the name of a drive that an active virtual machine
/// has: the first such one is named, and nothing is deleted.
#[verifier::spinoff_prover]
pub proof fn law_delete_drive_in_use(
    log: Log,
    at: int,
    w: World,
    other: Option<Seq<char>>,
    name: Seq<char>,
    k: int,
    vms: Seq<Seq<char>>,
    xmls: spec_fn(Seq<char>) -> Seq<char>,
    j: int,
)
    requires
        settled(w),
        first_drive(w.drives, name, k),
        vms == names_listed(lines_of(w.active)),
        0 <= j < vms.len(),
        forall|i: int| 0 <= i < j ==> !has_image(xmls(#[trigger] vms[i]), trimmed(w.image)),
        has_image(xmls(vms[j]), trimmed(w.image)),
        heard(
            log,
            at,
            (
                drives_read(w)
                    + (seq![active_listed(w)] + drive_looked_for(w, name, vms, xmls, 0, j + 1))
            ),
        ),
    ensures
        came(
            spec_run_tool(
                log,
                at,
                asked_only(CommandsView::Storage(StorageCommandsView::Delete { name }), other),
            ),
            log,
            at,
            (
                drives_read(w)
                    + (seq![active_listed(w)] + drive_looked_for(w, name, vms, xmls, 0, j + 1))
            ),
            Err(
                seq![
                    "Storage drive '"@ + name + "' is currently attached to VM '"@ + vms[j]
                        + "'. Detach it first."@,
                ],
            ),
        ),
{
    broadcast use {encode_utf8_valid_utf8, encode_utf8_decode_utf8};

    let whole = spec_run_tool(
        log,
        at,
        asked_only(CommandsView::Storage(StorageCommandsView::Delete { name }), other),
    );
    let t0 = (
        drives_read(w) + (seq![active_listed(w)] + drive_looked_for(w, name, vms, xmls, 0, j + 1))
    );
    lemma_drive_delete_refused(log, at, w, name, k, vms, xmls, j);
    assert(
        came(
            whole,
            log,
            at,
            t0,
            Err(
                seq![
                    "Storage drive '"@ + name + "' is currently attached to VM '"@ + vms[j]
                        + "'. Detach it first."@,
                ],
            ),
        )
    );
}

/// `storage delete` with a name that no drive has is refused.
#[verifier::spinoff_prover]
pub proof fn law_delete_drive_unknown(
    log: Log,
    at: int,
    w: World,
    other: Option<Seq<char>>,
    name: Seq<char>,
)
    requires
        settled(w),
        no_such_drive(w.drives, name),
        heard(log, at, drives_read(w)),
    ensures
        came(
            spec_run_tool(
                log,
                at,
                asked_only(CommandsView::Storage(StorageCommandsView::Delete { name }), other),
            ),
            log,
            at,
            drives_read(w),
            Err(seq!["No storage drive named '"@ + name + "'"@]),
        ),
{
    lemma_drive_from(w.drives, name, 0);
    broadcast use {encode_utf8_valid_utf8, encode_utf8_decode_utf8};

    let whole = spec_run_tool(
        log,
        at,
        asked_only(CommandsView::Storage(StorageCommandsView::Delete { name }), other),
    );
    let t0 = drives_read(w);
    lemma_drives_read(log, at, w);
    assert(came(whole, log, at, t0, Err(seq!["No storage drive named '"@ + name + "'"@])));
}

/// What is found out of the daemon of a HID device: that it runs as `id`, or that
/// it left no number.
pub open spec fn daemon_asked(w: World, name: Seq<char>, id: Option<u64>, gone: Chain) -> Talk {
    match id {
        Some(id) => daemon_known(w, name, id, true),
        None => daemon_absent(w, name, gone),
    }
}

pub proof fn lemma_daemon_asked(
    log: Log,
    at: int,
    w: World,
    name: Seq<char>,
    id: Option<u64>,
    gone: Chain,
)
    requires
        settled(w),
        id matches Some(id) ==> id <= 0xffff_ffff,
        heard(log, at, daemon_asked(w, name, id, gone)),
    ensures
        came(
            spec_is_hid_daemon_running(log, at, name),
            log,
            at,
            daemon_asked(w, name, id, gone),
            Ok(id is Some),
        ),
{
    match id {
        Some(id) => lemma_daemon_known(log, at, w, name, id, true),
        None => lemma_daemon_absent(log, at, w, name, gone),
    }
}

/// The virtual machine has a host device with the ids of the HID device.
pub open spec fn has_hid(xml: Seq<char>, h: HidView) -> bool {
    hostdevs_in(xml).contains((normalized(h.vid), normalized(h.pid)))
}

/// The first virtual machine, from the one at `i` on, that has the HID device.
pub open spec fn first_with(
    vms: Seq<Seq<char>>,
    xmls: spec_fn(Seq<char>) -> Seq<char>,
    h: HidView,
    i: int,
) -> Option<Seq<char>>
    decreases vms.len() - i,
{
    if i >= vms.len() {
        None
    } else if has_hid(xmls(vms[i]), h) {
        Some(vms[i])
    } else {
        first_with(vms, xmls, h, i + 1)
    }
}

/// It is looked whether the virtual machine has the HID device: its daemon has to
/// run for that.
pub open spec fn hid_sought_in(
    w: World,
    h: HidView,
    id: Option<u64>,
    gone: Chain,
    vm: Seq<char>,
    xml: Seq<char>,
) -> Talk {
    daemon_asked(w, h.name, id, gone) + (if id is Some {
        seq![run(seq!["virsh"@, "dumpxml"@, vm], xml)]
    } else {
        seq![]
    })
}

/// The virtual machines are looked through for the HID device, from the one at
/// `i` on to the first that has it.
pub open spec fn hid_sought(
    w: World,
    h: HidView,
    id: Option<u64>,
    gone: Chain,
    vms: Seq<Seq<char>>,
    xmls: spec_fn(Seq<char>) -> Seq<char>,
    i: int,
) -> Talk
    decreases vms.len() - i,
{
    if i >= vms.len() {
        seq![]
    } else if id is Some && has_hid(xmls(vms[i]), h) {
        hid_sought_in(w, h, id, gone, vms[i], xmls(vms[i]))
    } else {
        hid_sought_in(w, h, id, gone, vms[i], xmls(vms[i])) + hid_sought(
            w,
            h,
            id,
            gone,
            vms,
            xmls,
            i + 1,
        )
    }
}

/// The virtual machine that has the HID device: none if its daemon does not run.
pub open spec fn holder(
    id: Option<u64>,
    vms: Seq<Seq<char>>,
    xmls: spec_fn(Seq<char>) -> Seq<char>,
    h: HidView,
    i: int,
) -> Option<Seq<char>> {
    if id is Some {
        first_with(vms, xmls, h, i)
    } else {
        None
    }
}

#[verifier::spinoff_prover]
proof fn lemma_hid_sought_in(
    log: Log,
    at: int,
    w: World,
    h: HidView,
    id: Option<u64>,
    gone: Chain,
    vm: Seq<char>,
    xml: Seq<char>,
)
    requires
        settled(w),
        id matches Some(id) ==> id <= 0xffff_ffff,
        heard(log, at, hid_sought_in(w, h, id, gone, vm, xml)),
    ensures
        came(
            spec_is_hid_device_attached(log, at, vm, h),
            log,
            at,
            hid_sought_in(w, h, id, gone, vm, xml),
            Ok(id is Some && has_hid(xml, h)),
        ),
{
    broadcast use {encode_utf8_valid_utf8, encode_utf8_decode_utf8};

    let a = daemon_asked(w, h.name, id, gone);
    let b = if id is Some {
        seq![run(seq!["virsh"@, "dumpxml"@, vm], xml)]
    } else {
        seq![]
    };
    let whole = spec_is_hid_device_attached(log, at, vm, h);
    lemma_heard(log, at, a, b);
    lemma_daemon_asked(log, at, w, h.name, id, gone);
    lemma_came(
        spec_is_hid_daemon_running(log, at, h.name),
        id is Some,
        whole,
        log,
        at,
        a,
        b,
        Ok(id is Some && has_hid(xml, h)),
    );
}

#[verifier::spinoff_prover]
proof fn lemma_hid_sought(
    log: Log,
    at: int,
    w: World,
    h: HidView,
    id: Option<u64>,
    gone: Chain,
    vms: Seq<Seq<char>>,
    xmls: spec_fn(Seq<char>) -> Seq<char>,
    i: int,
)
    requires
        settled(w),
        0 <= i <= vms.len(),
        id matches Some(id) ==> id <= 0xffff_ffff,
        heard(log, at, hid_sought(w, h, id, gone, vms, xmls, i)),
    ensures
        came(
            spec_vm_with_hid(log, at, h, vms, i),
            log,
            at,
            hid_sought(w, h, id, gone, vms, xmls, i),
            Ok(holder(id, vms, xmls, h, i)),
        ),
    decreases vms.len() - i,
{
    if i < vms.len() {
        let t = hid_sought_in(w, h, id, gone, vms[i], xmls(vms[i]));
        let here = id is Some && has_hid(xmls(vms[i]), h);
        let rest = if here {
            seq![]
        } else {
            hid_sought(w, h, id, gone, vms, xmls, i + 1)
        };
        let first = spec_is_hid_device_attached(log, at, vms[i], h);
        assert(hid_sought(w, h, id, gone, vms, xmls, i) =~= t + rest);
        lemma_heard(log, at, t, rest);
        lemma_hid_sought_in(log, at, w, h, id, gone, vms[i], xmls(vms[i]));
        if log.len() >= at + t.len() && !here {
            lemma_hid_sought(log, at + t.len(), w, h, id, gone, vms, xmls, i + 1);
        }
        lemma_came(
            first,
            here,
            spec_vm_with_hid(log, at, h, vms, i),
            log,
            at,
            t,
            rest,
            Ok(holder(id, vms, xmls, h, i)),
        );
    }
}

/// The HID device at `k` is taken from the list.
pub open spec fn hid_dropped(w: World, k: int, name: Seq<char>, text: Seq<char>) -> Talk {
    seq![
        data_asked(w),
        (
            RequestView::EncodeHids(w.hids.take(k) + w.hids.skip(k + 1)),
            ReplyView::Text(text),
        ),
        written(w.data + "/"@ + "hids.json"@, text),
        told(
            line().push(bold_green("✓"@)).push(plain(" Deleted HID device "@)).push(cyan(name)),
        ),
    ]
}

#[verifier::spinoff_prover]
proof fn lemma_hid_dropped(log: Log, at: int, w: World, k: int, name: Seq<char>, text: Seq<char>)
    requires
        settled(w),
        0 <= k < w.hids.len(),
        heard(log, at, state_removed(w, name) + hid_dropped(w, k, name, text)),
    ensures
        came(
            spec_drop_hid(log, at, w.hids, k, name),
            log,
            at,
            state_removed(w, name) + hid_dropped(w, k, name, text),
            Ok(()),
        ),
{
    broadcast use {encode_utf8_valid_utf8, encode_utf8_decode_utf8};

    let whole = spec_drop_hid(log, at, w.hids, k, name);
    let t0 = state_removed(w, name);
    let t1 = hid_dropped(w, k, name, text);
    lemma_heard(log, at, t0, t1);
    lemma_state_removed(log, at, w, name);
    assert(came(spec_cleanup_hid_state_files(log, at, name), log, at, t0, Ok(())));
    if log.len() >= at + t0.len() {
        let at1 = at + t0.len();
        lemma_paths(w.data, "hids.json"@);
        assert(came(whole, log, at1, t1, Ok(())));
    }
    lemma_came(spec_cleanup_hid_state_files(log, at, name), (), whole, log, at, t0, t1, Ok(()));
}

#[verifier::spinoff_prover]
proof fn lemma_hid_deleted(
    log: Log,
    at: int,
    w: World,
    h: HidView,
    k: int,
    id: Option<u64>,
    gone: Chain,
    vms: Seq<Seq<char>>,
    xmls: spec_fn(Seq<char>) -> Seq<char>,
    text: Seq<char>,
)
    requires
        settled(w),
        first_hid(w.hids, h.name, k),
        w.hids[k] == h,
        vms == names_listed(lines_of(w.active)),
        id matches Some(id) ==> id <= 0xffff_ffff,
        holder(id, vms, xmls, h, 0) is None,
        heard(
            log,
            at,
            hids_read(w) + (
                seq![active_listed(w)]
                    + (
                        hid_sought(w, h, id, gone, vms, xmls, 0)
                            + (state_removed(w, h.name) + hid_dropped(w, k, h.name, text))
                    )
            ),
        ),
    ensures
        came(
            spec_delete_hid_device(log, at, h.name),
            log,
            at,
            hids_read(w) + (
                seq![active_listed(w)]
                    + (
                        hid_sought(w, h, id, gone, vms, xmls, 0)
                            + (state_removed(w, h.name) + hid_dropped(w, k, h.name, text))
                    )
            ),
            Ok(()),
        ),
{
    lemma_hid_from(w.hids, h.name, 0);
    broadcast use {encode_utf8_valid_utf8, encode_utf8_decode_utf8};

    let whole = spec_delete_hid_device(log, at, h.name);
    let t0 = hids_read(w);
    let t1 = seq![active_listed(w)];
    let t2 = hid_sought(w, h, id, gone, vms, xmls, 0);
    let t3 = (state_removed(w, h.name) + hid_dropped(w, k, h.name, text));
    lemma_heard(log, at, t0, t1 + (t2 + t3));
    lemma_hids_read(log, at, w);
    assert(came(spec_load_hid_devices(log, at), log, at, t0, Ok(w.hids)));
    if log.len() >= at + t0.len() {
        let at1 = at + t0.len();
        lemma_heard(log, at1, t1, t2 + t3);
        assert(came(spec_active_vms(log, at1), log, at1, t1, Ok(vms)));
        if log.len() >= at1 + t1.len() {
            let at2 = at1 + t1.len();
            lemma_heard(log, at2, t2, t3);
            lemma_hid_sought(log, at2, w, h, id, gone, vms, xmls, 0);
            assert(came(spec_vm_with_hid(log, at2, h, vms, 0), log, at2, t2, Ok(None)));
            if log.len() >= at2 + t2.len() {
                let at3 = at2 + t2.len();
                lemma_hid_dropped(log, at3, w, k, h.name, text);
                assert(came(whole, log, at3, t3, Ok(())));
            }
            lemma_came(
                spec_vm_with_hid(log, at2, h, vms, 0),
                None,
                whole,
                log,
                at2,
                t2,
                t3,
                Ok(()),
            );
        }
        lemma_came(spec_active_vms(log, at1), vms, whole, log, at1, t1, t2 + t3, Ok(()));
    }
    lemma_came(spec_load_hid_devices(log, at), w.hids, whole, log, at, t0, t1 + (t2 + t3), Ok(()));
}

/// `hid delete` with the name of a HID device that no active virtual machine
/// has: its state files are removed, and it alone is taken from the list.
#[verifier::spinoff_prover]
pub proof fn law_delete_hid(
    log: Log,
    at: int,
    w: World,
    other: Option<Seq<char>>,
    h: HidView,
    k: int,
    id: Option<u64>,
    gone: Chain,
    vms: Seq<Seq<char>>,
    xmls: spec_fn(Seq<char>) -> Seq<char>,
    text: Seq<char>,
)
    requires
        settled(w),
        first_hid(w.hids, h.name, k),
        w.hids[k] == h,
        vms == names_listed(lines_of(w.active)),
        id matches Some(id) ==> id <= 0xffff_ffff,
        holder(id, vms, xmls, h, 0) is None,
        heard(
            log,
            at,
            (
                hids_read(w)
                    + (
                        seq![active_listed(w)]
                            + (
                                hid_sought(w, h, id, gone, vms, xmls, 0)
                                    + (state_removed(w, h.name) + hid_dropped(w, k, h.name, text))
                            )
                    )
            ),
        ),
    ensures
        came(
            spec_run_tool(
                log,
                at,
                asked_only(CommandsView::Hid(HidCommandsView::Delete { name: h.name }), other),
            ),
            log,
            at,
            (
                hids_read(w)
                    + (
                        seq![active_listed(w)]
                            + (
                                hid_sought(w, h, id, gone, vms, xmls, 0)
                                    + (state_removed(w, h.name) + hid_dropped(w, k, h.name, text))
                            )
                    )
            ),
            Ok(Ending::Done),
        ),
{
    broadcast use {encode_utf8_valid_utf8, encode_utf8_decode_utf8};

    let whole = spec_run_tool(
        log,
        at,
        asked_only(CommandsView::Hid(HidCommandsView::Delete { name: h.name }), other),
    );
    let t0 = (
        hids_read(w)
            + (
                seq![active_listed(w)]
                    + (
                        hid_sought(w, h, id, gone, vms, xmls, 0)
                            + (state_removed(w, h.name) + hid_dropped(w, k, h.name, text))
                    )
            )
    );
    lemma_hid_deleted(log, at, w, h, k, id, gone, vms, xmls, text);
    assert(came(whole, log, at, t0, Ok(Ending::Done)));
}

#[verifier::spinoff_prover]
proof fn lemma_hid_delete_refused(
    log: Log,
    at: int,
    w: World,
    h: HidView,
    k: int,
    id: Option<u64>,
    gone: Chain,
    vms: Seq<Seq<char>>,
    xmls: spec_fn(Seq<char>) -> Seq<char>,
    vm: Seq<char>,
)
    requires
        settled(w),
        first_hid(w.hids, h.name, k),
        w.hids[k] == h,
        vms == names_listed(lines_of(w.active)),
        id matches Some(id) ==> id <= 0xffff_ffff,
        holder(id, vms, xmls, h, 0) == Some(vm),
        heard(
            log,
            at,
            hids_read(w) + (seq![active_listed(w)] + hid_sought(w, h, id, gone, vms, xmls, 0)),
        ),
    ensures
        came(
            spec_delete_hid_device(log, at, h.name),
            log,
            at,
            hids_read(w) + (seq![active_listed(w)] + hid_sought(w, h, id, gone, vms, xmls, 0)),
            Err(
                seq![
                    "HID device '"@ + h.name + "' is currently attached to VM '"@ + vm
                        + "'. Detach it first."@,
                ],
            ),
        ),
{
    lemma_hid_from(w.hids, h.name, 0);
    broadcast use {encode_utf8_valid_utf8, encode_utf8_decode_utf8};

    let whole = spec_delete_hid_device(log, at, h.name);
    let t0 = hids_read(w);
    let t1 = seq![active_listed(w)];
    let t2 = hid_sought(w, h, id, gone, vms, xmls, 0);
    lemma_heard(log, at, t0, t1 + t2);
    lemma_hids_read(log, at, w);
    assert(came(spec_load_hid_devices(log, at), log, at, t0, Ok(w.hids)));
    if log.len() >= at + t0.len() {
        let at1 = at + t0.len();
        lemma_heard(log, at1, t1, t2);
        assert(came(spec_active_vms(log, at1), log, at1, t1, Ok(vms)));
        if log.len() >= at1 + t1.len() {
            let at2 = at1 + t1.len();
            lemma_hid_sought(log, at2, w, h, id, gone, vms, xmls, 0);
            assert(
                came(
                    whole,
                    log,
                    at2,
                    t2,
                    Err(
                        seq![
                            "HID device '"@ + h.name + "' is currently attached to VM '"@ + vm
                                + "'. Detach it first."@,
                        ],
                    ),
                )
            );
        }
        lemma_came(
            spec_active_vms(log, at1),
            vms,
            whole,
            log,
            at1,
            t1,
            t2,
            Err(
                seq![
                    "HID device '"@ + h.name + "' is currently attached to VM '"@ + vm
                        + "'. Detach it first."@,
                ],
            ),
        );
    }
    lemma_came(
        spec_load_hid_devices(log, at),
        w.hids,
        whole,
        log,
        at,
        t0,
        t1 + t2,
        Err(
            seq![
                "HID device '"@ + h.name + "' is currently attached to VM '"@ + vm
                    + "'. Detach it first."@,
            ],
        ),
    );
}

/// `hid delete` with the name of a HID device that an active virtual machine
/// has: the first such one is named, and nothing is deleted.
#[verifier::spinoff_prover]
pub proof fn law_delete_hid_in_use(
    log: Log,
    at: int,
    w: World,
    other: Option<Seq<char>>,
    h: HidView,
    k: int,
    id: Option<u64>,
    gone: Chain,
    vms: Seq<Seq<char>>,
    xmls: spec_fn(Seq<char>) -> Seq<char>,
    vm: Seq<char>,
)
    requires
        settled(w),
        first_hid(w.hids, h.name, k),
        w.hids[k] == h,
        vms == names_listed(lines_of(w.active)),
        id matches Some(id) ==> id <= 0xffff_ffff,
        holder(id, vms, xmls, h, 0) == Some(vm),
        heard(
            log,
            at,
            (hids_read(w) + (seq![active_listed(w)] + hid_sought(w, h, id, gone, vms, xmls, 0))),
        ),
    ensures
        came(
            spec_run_tool(
                log,
                at,
                asked_only(CommandsView::Hid(HidCommandsView::Delete { name: h.name }), other),
            ),
            log,
            at,
            (hids_read(w) + (seq![active_listed(w)] + hid_sought(w, h, id, gone, vms, xmls, 0))),
            Err(
                seq![
                    "HID device '"@ + h.name + "' is currently attached to VM '"@ + vm
                        + "'. Detach it first."@,
                ],
            ),
        ),
{
    broadcast use {encode_utf8_valid_utf8, encode_utf8_decode_utf8};

    let whole = spec_run_tool(
        log,
        at,
        asked_only(CommandsView::Hid(HidCommandsView::Delete { name: h.name }), other),
    );
    let t0 = (hids_read(w) + (seq![active_listed(w)] + hid_sought(w, h, id, gone, vms, xmls, 0)));
    lemma_hid_delete_refused(log, at, w, h, k, id, gone, vms, xmls, vm);
    assert(
        came(
            whole,
            log,
            at,
            t0,
            Err(
                seq![
                    "HID device '"@ + h.name + "' is currently attached to VM '"@ + vm
                        + "'. Detach it first."@,
                ],
            ),
        )
    );
}

/// `hid delete` with a name that no HID device has is refused.
#[verifier::spinoff_prover]
pub proof fn law_delete_hid_unknown(
    log: Log,
    at: int,
    w: World,
    other: Option<Seq<char>>,
    name: Seq<char>,
)
    requires
        settled(w),
        no_such_hid(w.hids, name),
        heard(log, at, hids_read(w)),
    ensures
        came(
            spec_run_tool(
                log,
                at,
                asked_only(CommandsView::Hid(HidCommandsView::Delete { name }), other),
            ),
            log,
            at,
            hids_read(w),
            Err(seq!["No HID device named '"@ + name + "'"@]),
        ),
{
    lemma_hid_from(w.hids, name, 0);
    broadcast use {encode_utf8_valid_utf8, encode_utf8_decode_utf8};

    let whole = spec_run_tool(
        log,
        at,
        asked_only(CommandsView::Hid(HidCommandsView::Delete { name }), other),
    );
    let t0 = hids_read(w);
    lemma_hids_read(log, at, w);
    assert(came(whole, log, at, t0, Err(seq!["No HID device named '"@ + name + "'"@])));
}

// ---------------------------------------------------------------------------
// Listing
// ---------------------------------------------------------------------------

/// `s` with spaces behind it up to a width of `width`.
pub open spec fn spaced(s: Seq<char>, width: int) -> Seq<char> {
    s + Seq::new(
        if s.len() < width {
            (width - s.len()) as nat
        } else {
            0
        },
        |i: int| ' ',
    )
}

pub proof fn lemma_padded(s: Seq<char>, width: int)
    ensures
        padded(s, width) == spaced(s, width),
    decreases width - s.len(),
{
    if s.len() < width {
        lemma_padded(s.push(' '), width);
        assert(spaced(s.push(' '), width) =~= spaced(s, width));
    } else {
        assert(spaced(s, width) =~= s);
    }
}

/// The last of the first `n` virtual machines that has a disk with the image.
pub open spec fn last_with(
    vms: Seq<Seq<char>>,
    xmls: spec_fn(Seq<char>) -> Seq<char>,
    image: Seq<char>,
    n: int,
) -> Option<Seq<char>>
    decreases n,
{
    if n <= 0 {
        None
    } else if has_image(xmls(vms[n - 1]), image) {
        Some(vms[n - 1])
    } else {
        last_with(vms, xmls, image, n - 1)
    }
}

/// The disks of the first `n` virtual machines, with whose they are.
spec fn images_found(
    vms: Seq<Seq<char>>,
    xmls: spec_fn(Seq<char>) -> Seq<char>,
    n: int,
) -> Seq<(Seq<char>, Seq<char>)>
    decreases n,
{
    if n <= 0 {
        seq![]
    } else {
        images_found(vms, xmls, n - 1) + images_of(disks_in(xmls(vms[n - 1])), vms[n - 1])
    }
}

/// Behind pairs that stand for one virtual machine, its name is found first.
proof fn lemma_attached_behind(
    before: Seq<(Seq<char>, Seq<char>)>,
    disks: Seq<AttachmentView>,
    vm: Seq<char>,
    image: Seq<char>,
)
    ensures
        attached_vm(before + images_of(disks, vm), image) == (if exists|i: int|
            0 <= i < disks.len() && (#[trigger] disks[i]).source_file == image {
            Some(vm)
        } else {
            attached_vm(before, image)
        }),
    decreases disks.len(),
{
    let all = before + images_of(disks, vm);
    if disks.len() == 0 {
        assert(all =~= before);
    } else {
        let less = disks.drop_last();
        lemma_attached_behind(before, less, vm, image);
        assert(all.drop_last() =~= before + images_of(less, vm));
        assert(all.last() == (disks.last().source_file, vm));
        if exists|i: int| 0 <= i < less.len() && (#[trigger] less[i]).source_file == image {
            let i = choose|i: int|
                0 <= i < less.len() && (#[trigger] less[i]).source_file == image;
            assert(disks[i].source_file == image);
        }
        if exists|i: int| 0 <= i < disks.len() && (#[trigger] disks[i]).source_file == image {
            let i = choose|i: int|
                0 <= i < disks.len() && (#[trigger] disks[i]).source_file == image;
            if i < less.len() {
                assert(less[i].source_file == image);
            }
        }
        assert(disks[disks.len() - 1] == disks.last());
    }
}

proof fn lemma_images_found(
    vms: Seq<Seq<char>>,
    xmls: spec_fn(Seq<char>) -> Seq<char>,
    image: Seq<char>,
    n: int,
)
    requires
        0 <= n <= vms.len(),
    ensures
        attached_vm(images_found(vms, xmls, n), image) == last_with(vms, xmls, image, n),
    decreases n,
{
    if n > 0 {
        lemma_images_found(vms, xmls, image, n - 1);
        lemma_attached_behind(
            images_found(vms, xmls, n - 1),
            disks_in(xmls(vms[n - 1])),
            vms[n - 1],
            image,
        );
    }
}

/// The definitions of the virtual machines from the one at `i` on are read.
pub open spec fn definitions_read(
    vms: Seq<Seq<char>>,
    xmls: spec_fn(Seq<char>) -> Seq<char>,
    i: int,
) -> Talk
    decreases vms.len() - i,
{
    if i >= vms.len() {
        seq![]
    } else {
        seq![run(seq!["virsh"@, "dumpxml"@, vms[i]], xmls(vms[i]))] + definitions_read(
            vms,
            xmls,
            i + 1,
        )
    }
}

#[verifier::spinoff_prover]
proof fn lemma_definitions_read(
    log: Log,
    at: int,
    vms: Seq<Seq<char>>,
    xmls: spec_fn(Seq<char>) -> Seq<char>,
    i: int,
)
    requires
        0 <= i <= vms.len(),
        heard(log, at, definitions_read(vms, xmls, i)),
    ensures
        came(
            spec_attached_images(log, at, vms, i, images_found(vms, xmls, i)),
            log,
            at,
            definitions_read(vms, xmls, i),
            Ok(images_found(vms, xmls, vms.len() as int)),
        ),
    decreases vms.len() - i,
{
    broadcast use {encode_utf8_valid_utf8, encode_utf8_decode_utf8};

    if i < vms.len() {
        let t = seq![run(seq!["virsh"@, "dumpxml"@, vms[i]], xmls(vms[i]))];
        let rest = definitions_read(vms, xmls, i + 1);
        let first = spec_get_attached_virtual_devices(log, at, vms[i]);
        lemma_heard(log, at, t, rest);
        assert(came(first, log, at, t, Ok(disks_in(xmls(vms[i])))));
        if log.len() >= at + 1 {
            lemma_definitions_read(log, at + 1, vms, xmls, i + 1);
        }
        lemma_came(
            first,
            disks_in(xmls(vms[i])),
            spec_attached_images(log, at, vms, i, images_found(vms, xmls, i)),
            log,
            at,
            t,
            rest,
            Ok(images_found(vms, xmls, vms.len() as int)),
        );
    }
}

/// How it is shown in a list that a virtual machine has a device.
pub open spec fn holder_shown(vm: Option<Seq<char>>) -> SpanView {
    match vm {
        Some(vm) => green("attached to: "@ + vm),
        None => dim("not attached"@),
    }
}

/// The drives from the one at `i` on are shown, each with its size, with the
/// virtual machine that has it, and with its image.
pub open spec fn drives_shown(
    drives: Seq<DriveView>,
    images: Seq<Seq<char>>,
    vms: Seq<Seq<char>>,
    xmls: spec_fn(Seq<char>) -> Seq<char>,
    i: int,
) -> Talk
    decreases drives.len() - i,
{
    if i >= drives.len() {
        seq![]
    } else {
        seq![
            run(
                seq!["virsh"@, "vol-path"@, drives[i].name + ".qcow2"@, "--pool"@, "default"@],
                images[i],
            ),
            told(
                line().push(plain("  "@)).push(cyan(spaced(drives[i].name, 20))).push(
                    plain(" "@ + spaced(drives[i].size, 6) + " "@),
                ).push(
                    holder_shown(
                        last_with(vms, xmls, trimmed(images[i]), vms.len() as int),
                    ),
                ),
            ),
            told(line().push(plain("  "@)).push(dim(trimmed(images[i])))),
            told(line()),
        ] + drives_shown(drives, images, vms, xmls, i + 1)
    }
}

#[verifier::spinoff_prover]
proof fn lemma_drives_shown(
    log: Log,
    at: int,
    drives: Seq<DriveView>,
    images: Seq<Seq<char>>,
    vms: Seq<Seq<char>>,
    xmls: spec_fn(Seq<char>) -> Seq<char>,
    i: int,
)
    requires
        0 <= i <= drives.len(),
        images.len() == drives.len(),
        heard(log, at, drives_shown(drives, images, vms, xmls, i)),
    ensures
        came(
            spec_show_drives(log, at, drives, images_found(vms, xmls, vms.len() as int), i),
            log,
            at,
            drives_shown(drives, images, vms, xmls, i),
            Ok(()),
        ),
    decreases drives.len() - i,
{
    broadcast use {encode_utf8_valid_utf8, encode_utf8_decode_utf8};

    if i < drives.len() {
        let t = drives_shown(drives, images, vms, xmls, i).take(4);
        let rest = drives_shown(drives, images, vms, xmls, i + 1);
        let found = images_found(vms, xmls, vms.len() as int);
        let first = spec_show_drive(log, at, drives[i], found);
        assert(drives_shown(drives, images, vms, xmls, i) =~= t + rest);
        lemma_heard(log, at, t, rest);
        lemma_padded(drives[i].name, 20);
        lemma_padded(drives[i].size, 6);
        lemma_images_found(vms, xmls, trimmed(images[i]), vms.len() as int);
        assert(came(first, log, at, t, Ok(())));
        if log.len() >= at + 4 {
            lemma_drives_shown(log, at + 4, drives, images, vms, xmls, i + 1);
        }
        lemma_came(
            first,
            (),
            spec_show_drives(log, at, drives, found, i),
            log,
            at,
            t,
            rest,
            Ok(()),
        );
    }
}

#[verifier::spinoff_prover]
proof fn lemma_drives_told(
    log: Log,
    at: int,
    w: World,
    vms: Seq<Seq<char>>,
    xmls: spec_fn(Seq<char>) -> Seq<char>,
    images: Seq<Seq<char>>,
)
    requires
        images.len() == w.drives.len(),
        heard(
            log,
            at,
            seq![
                told(line().push(plain("Virtual USB Storage Drives:"@))),
                told(line()),
            ] + drives_shown(w.drives, images, vms, xmls, 0),
        ),
    ensures
        came(
            heading_drives(log, at, w.drives, images_found(vms, xmls, vms.len() as int)),
            log,
            at,
            seq![
                told(line().push(plain("Virtual USB Storage Drives:"@))),
                told(line()),
            ] + drives_shown(w.drives, images, vms, xmls, 0),
            Ok(()),
        ),
{
    broadcast use {encode_utf8_valid_utf8, encode_utf8_decode_utf8};

    let whole = heading_drives(log, at, w.drives, images_found(vms, xmls, vms.len() as int));
    let t0 = seq![told(line().push(plain("Virtual USB Storage Drives:"@))), told(line())];
    let t1 = drives_shown(w.drives, images, vms, xmls, 0);
    lemma_heard(log, at, t0, t1);
    assert(came(heading(log, at, "Virtual USB Storage Drives:"@), log, at, t0, Ok(())));
    if log.len() >= at + t0.len() {
        let at1 = at + t0.len();
        lemma_drives_shown(log, at1, w.drives, images, vms, xmls, 0);
        assert(came(whole, log, at1, t1, Ok(())));
    }
    lemma_came(
        heading(log, at, "Virtual USB Storage Drives:"@),
        (),
        whole,
        log,
        at,
        t0,
        t1,
        Ok(()),
    );
}

spec fn heading(log: Log, at: int, text: Seq<char>) -> Outcome<()> {
    bind(
        spec_say(log, at, line().push(plain(text))),
        |_done: (), at: int| spec_say(log, at, line()),
    )
}

spec fn heading_drives(
    log: Log,
    at: int,
    drives: Seq<DriveView>,
    attached: Seq<(Seq<char>, Seq<char>)>,
) -> Outcome<()> {
    bind(
        heading(log, at, "Virtual USB Storage Drives:"@),
        |_done: (), at: int| spec_show_drives(log, at, drives, attached, 0),
    )
}

#[verifier::spinoff_prover]
proof fn lemma_drives_listed(
    log: Log,
    at: int,
    w: World,
    vms: Seq<Seq<char>>,
    xmls: spec_fn(Seq<char>) -> Seq<char>,
    images: Seq<Seq<char>>,
)
    requires
        settled(w),
        w.drives.len() > 0,
        images.len() == w.drives.len(),
        vms == names_listed(lines_of(w.active)),
        heard(
            log,
            at,
            drives_read(w) + (
                seq![active_listed(w)]
                    + (
                        definitions_read(vms, xmls, 0)
                            + (
                                seq![
                                    told(line().push(plain("Virtual USB Storage Drives:"@))),
                                    told(line()),
                                ]
                                    + drives_shown(w.drives, images, vms, xmls, 0)
                            )
                    )
            ),
        ),
    ensures
        came(
            spec_list_virtual_drives(log, at),
            log,
            at,
            drives_read(w) + (
                seq![active_listed(w)]
                    + (
                        definitions_read(vms, xmls, 0)
                            + (
                                seq![
                                    told(line().push(plain("Virtual USB Storage Drives:"@))),
                                    told(line()),
                                ]
                                    + drives_shown(w.drives, images, vms, xmls, 0)
                            )
                    )
            ),
            Ok(()),
        ),
{
    broadcast use {encode_utf8_valid_utf8, encode_utf8_decode_utf8};

    let whole = spec_list_virtual_drives(log, at);
    let t0 = drives_read(w);
    let t1 = seq![active_listed(w)];
    let t2 = definitions_read(vms, xmls, 0);
    let t3 = (
        seq![told(line().push(plain("Virtual USB Storage Drives:"@))), told(line())]
            + drives_shown(w.drives, images, vms, xmls, 0)
    );
    lemma_heard(log, at, t0, t1 + (t2 + t3));
    lemma_drives_read(log, at, w);
    assert(came(spec_load_virtual_drives(log, at), log, at, t0, Ok(w.drives)));
    if log.len() >= at + t0.len() {
        let at1 = at + t0.len();
        lemma_heard(log, at1, t1, t2 + t3);
        assert(came(spec_active_vms(log, at1), log, at1, t1, Ok(vms)));
        if log.len() >= at1 + t1.len() {
            let at2 = at1 + t1.len();
            lemma_heard(log, at2, t2, t3);
            lemma_definitions_read(log, at2, vms, xmls, 0);
            assert(
                came(
                    spec_attached_images(log, at2, vms, 0, seq![]),
                    log,
                    at2,
                    t2,
                    Ok(images_found(vms, xmls, vms.len() as int)),
                )
            );
            if log.len() >= at2 + t2.len() {
                let at3 = at2 + t2.len();
                lemma_drives_told(log, at3, w, vms, xmls, images);
                assert(came(whole, log, at3, t3, Ok(())));
            }
            lemma_came(
                spec_attached_images(log, at2, vms, 0, seq![]),
                images_found(vms, xmls, vms.len() as int),
                whole,
                log,
                at2,
                t2,
                t3,
                Ok(()),
            );
        }
        lemma_came(spec_active_vms(log, at1), vms, whole, log, at1, t1, t2 + t3, Ok(()));
    }
    lemma_came(
        spec_load_virtual_drives(log, at),
        w.drives,
        whole,
        log,
        at,
        t0,
        t1 + (t2 + t3),
        Ok(()),
    );
}

/// `storage list` shows every drive with its size, the virtual machine that has
/// its image, and that image.
#[verifier::spinoff_prover]
pub proof fn law_list_drives(
    log: Log,
    at: int,
    w: World,
    other: Option<Seq<char>>,
    vms: Seq<Seq<char>>,
    xmls: spec_fn(Seq<char>) -> Seq<char>,
    images: Seq<Seq<char>>,
)
    requires
        settled(w),
        w.drives.len() > 0,
        images.len() == w.drives.len(),
        vms == names_listed(lines_of(w.active)),
        heard(
            log,
            at,
            (
                drives_read(w)
                    + (
                        seq![active_listed(w)]
                            + (
                                definitions_read(vms, xmls, 0)
                                    + (
                                        seq![
                                            told(
                                                line().push(plain("Virtual USB Storage Drives:"@)),
                                            ),
                                            told(line()),
                                        ]
                                            + drives_shown(w.drives, images, vms, xmls, 0)
                                    )
                            )
                    )
            ),
        ),
    ensures
        came(
            spec_run_tool(
                log,
                at,
                asked_only(CommandsView::Storage(StorageCommandsView::List), other),
            ),
            log,
            at,
            (
                drives_read(w)
                    + (
                        seq![active_listed(w)]
                            + (
                                definitions_read(vms, xmls, 0)
                                    + (
                                        seq![
                                            told(
                                                line().push(plain("Virtual USB Storage Drives:"@)),
                                            ),
                                            told(line()),
                                        ]
                                            + drives_shown(w.drives, images, vms, xmls, 0)
                                    )
                            )
                    )
            ),
            Ok(Ending::Done),
        ),
{
    broadcast use {encode_utf8_valid_utf8, encode_utf8_decode_utf8};

    let whole = spec_run_tool(
        log,
        at,
        asked_only(CommandsView::Storage(StorageCommandsView::List), other),
    );
    let t0 = (
        drives_read(w)
            + (
                seq![active_listed(w)]
                    + (
                        definitions_read(vms, xmls, 0)
                            + (
                                seq![
                                    told(line().push(plain("Virtual USB Storage Drives:"@))),
                                    told(line()),
                                ]
                                    + drives_shown(w.drives, images, vms, xmls, 0)
                            )
                    )
            )
    );
    lemma_drives_listed(log, at, w, vms, xmls, images);
    assert(came(whole, log, at, t0, Ok(Ending::Done)));
}

/// `storage list` without drives tells how to make one.
#[verifier::spinoff_prover]
pub proof fn law_list_no_drives(log: Log, at: int, w: World, other: Option<Seq<char>>)
    requires
        settled(w),
        w.drives.len() == 0,
        heard(
            log,
            at,
            drives_read(w) + seq![
                told(line().push(plain("No storage drives found. Create one with:"@))),
                told(line().push(plain("  virsh-usb storage create <name>"@))),
            ],
        ),
    ensures
        came(
            spec_run_tool(
                log,
                at,
                asked_only(CommandsView::Storage(StorageCommandsView::List), other),
            ),
            log,
            at,
            drives_read(w) + seq![
                told(line().push(plain("No storage drives found. Create one with:"@))),
                told(line().push(plain("  virsh-usb storage create <name>"@))),
            ],
            Ok(Ending::Done),
        ),
{
    broadcast use {encode_utf8_valid_utf8, encode_utf8_decode_utf8};

    let whole = spec_run_tool(
        log,
        at,
        asked_only(CommandsView::Storage(StorageCommandsView::List), other),
    );
    let t0 = drives_read(w);
    let t1 = seq![
        told(line().push(plain("No storage drives found. Create one with:"@))),
        told(line().push(plain("  virsh-usb storage create <name>"@))),
    ];
    lemma_heard(log, at, t0, t1);
    lemma_drives_read(log, at, w);
    assert(came(spec_load_virtual_drives(log, at), log, at, t0, Ok(w.drives)));
    if log.len() >= at + t0.len() {
        let at1 = at + t0.len();
        assert(came(whole, log, at1, t1, Ok(Ending::Done)));
    }
    lemma_came(
        spec_load_virtual_drives(log, at),
        w.drives,
        whole,
        log,
        at,
        t0,
        t1,
        Ok(Ending::Done),
    );
}

/// A HID device is shown with its ids, its daemon, and the virtual machine that
/// has it.
pub open spec fn hid_shown(h: HidView, active: bool, vm: Option<Seq<char>>) -> Talk {
    seq![
        told(
            line().push(plain("  "@)).push(cyan(spaced(h.name, 20))).push(
                plain(" "@ + h.vid + ":"@ + spaced(h.pid, 12) + " "@),
            ).push(
                if active {
                    green("daemon active"@)
                } else {
                    dim("daemon inactive"@)
                },
            ).push(plain("  "@)).push(holder_shown(vm)),
        ),
        told(line()),
    ]
}

/// The HID devices from the one at `i` on are shown.
pub open spec fn hids_shown(
    w: World,
    ids: Seq<Option<u64>>,
    gone: Chain,
    vms: Seq<Seq<char>>,
    xmls: spec_fn(Seq<char>) -> Seq<char>,
    i: int,
) -> Talk
    decreases w.hids.len() - i,
{
    if i >= w.hids.len() {
        seq![]
    } else {
        hid_sought(w, w.hids[i], ids[i], gone, vms, xmls, 0) + (daemon_asked(
            w,
            w.hids[i].name,
            ids[i],
            gone,
        ) + (hid_shown(w.hids[i], ids[i] is Some, holder(ids[i], vms, xmls, w.hids[i], 0))
            + hids_shown(w, ids, gone, vms, xmls, i + 1)))
    }
}

spec fn shown_after(
    log: Log,
    at: int,
    h: HidView,
    vm: Option<Seq<char>>,
    hids: Seq<HidView>,
    vms: Seq<Seq<char>>,
    i: int,
) -> Outcome<()> {
    bind(
        bind(
            spec_is_hid_daemon_running(log, at, h.name),
            |active: bool, at: int|
                bind(
                    spec_say(log, at, hid_line(h, active, vm)),
                    |_done: (), at: int| spec_say(log, at, line()),
                ),
        ),
        |_done: (), at: int| spec_show_hids(log, at, hids, vms, i + 1),
    )
}

spec fn rows_after(
    log: Log,
    at: int,
    h: HidView,
    active: bool,
    vm: Option<Seq<char>>,
    hids: Seq<HidView>,
    vms: Seq<Seq<char>>,
    i: int,
) -> Outcome<()> {
    bind(
        bind(
            spec_say(log, at, hid_line(h, active, vm)),
            |_done: (), at: int| spec_say(log, at, line()),
        ),
        |_done: (), at: int| spec_show_hids(log, at, hids, vms, i + 1),
    )
}

#[verifier::spinoff_prover]
proof fn lemma_hids_shown(
    log: Log,
    at: int,
    w: World,
    ids: Seq<Option<u64>>,
    gone: Chain,
    vms: Seq<Seq<char>>,
    xmls: spec_fn(Seq<char>) -> Seq<char>,
    i: int,
)
    requires
        settled(w),
        0 <= i <= w.hids.len(),
        ids.len() == w.hids.len(),
        forall|j: int|
            0 <= j < ids.len() ==> (#[trigger] ids[j] matches Some(id) ==> id <= 0xffff_ffff),
        heard(log, at, hids_shown(w, ids, gone, vms, xmls, i)),
    ensures
        came(
            spec_show_hids(log, at, w.hids, vms, i),
            log,
            at,
            hids_shown(w, ids, gone, vms, xmls, i),
            Ok(()),
        ),
    decreases w.hids.len() - i,
{
    if i < w.hids.len() {
        let h = w.hids[i];
        let vm = holder(ids[i], vms, xmls, h, 0);
        let a = hid_sought(w, h, ids[i], gone, vms, xmls, 0);
        let b = daemon_asked(w, h.name, ids[i], gone);
        let c = hid_shown(h, ids[i] is Some, vm);
        let rest = hids_shown(w, ids, gone, vms, xmls, i + 1);
        let n1 = at + a.len();
        let n2 = n1 + b.len();
        let n3 = n2 + c.len();
        lemma_heard(log, at, a, b + (c + rest));
        lemma_hid_sought(log, at, w, h, ids[i], gone, vms, xmls, 0);
        if log.len() >= n1 {
            lemma_heard(log, n1, b, c + rest);
            lemma_daemon_asked(log, n1, w, h.name, ids[i], gone);
            if log.len() >= n2 {
                lemma_heard(log, n2, c, rest);
                lemma_row(log, n2, h, ids[i] is Some, vm);
                if log.len() >= n3 {
                    lemma_hids_shown(log, n3, w, ids, gone, vms, xmls, i + 1);
                }
                lemma_came(
                    row(log, n2, h, ids[i] is Some, vm),
                    (),
                    rows_after(log, n2, h, ids[i] is Some, vm, w.hids, vms, i),
                    log,
                    n2,
                    c,
                    rest,
                    Ok(()),
                );
            }
            lemma_came(
                spec_is_hid_daemon_running(log, n1, h.name),
                ids[i] is Some,
                shown_after(log, n1, h, vm, w.hids, vms, i),
                log,
                n1,
                b,
                c + rest,
                Ok(()),
            );
        }
        lemma_came(
            spec_vm_with_hid(log, at, h, vms, 0),
            vm,
            spec_show_hids(log, at, w.hids, vms, i),
            log,
            at,
            a,
            b + (c + rest),
            Ok(()),
        );
    }
}

spec fn row(log: Log, at: int, h: HidView, active: bool, vm: Option<Seq<char>>) -> Outcome<()> {
    bind(
        spec_say(log, at, hid_line(h, active, vm)),
        |_done: (), at: int| spec_say(log, at, line()),
    )
}

proof fn lemma_row(log: Log, at: int, h: HidView, active: bool, vm: Option<Seq<char>>)
    requires
        heard(log, at, hid_shown(h, active, vm)),
    ensures
        came(row(log, at, h, active, vm), log, at, hid_shown(h, active, vm), Ok(())),
{
    lemma_padded(h.name, 20);
    lemma_padded(h.pid, 12);
}

spec fn heading_hids(log: Log, at: int, hids: Seq<HidView>, vms: Seq<Seq<char>>) -> Outcome<()> {
    bind(
        heading(log, at, "Virtual USB HID Devices:"@),
        |_done: (), at: int| spec_show_hids(log, at, hids, vms, 0),
    )
}

#[verifier::spinoff_prover]
proof fn lemma_hids_told(
    log: Log,
    at: int,
    w: World,
    ids: Seq<Option<u64>>,
    gone: Chain,
    vms: Seq<Seq<char>>,
    xmls: spec_fn(Seq<char>) -> Seq<char>,
)
    requires
        settled(w),
        ids.len() == w.hids.len(),
        forall|j: int|
            0 <= j < ids.len() ==> (#[trigger] ids[j] matches Some(id) ==> id <= 0xffff_ffff),
        heard(
            log,
            at,
            seq![
                told(line().push(plain("Virtual USB HID Devices:"@))),
                told(line()),
            ] + hids_shown(w, ids, gone, vms, xmls, 0),
        ),
    ensures
        came(
            heading_hids(log, at, w.hids, vms),
            log,
            at,
            seq![
                told(line().push(plain("Virtual USB HID Devices:"@))),
                told(line()),
            ] + hids_shown(w, ids, gone, vms, xmls, 0),
            Ok(()),
        ),
{
    broadcast use {encode_utf8_valid_utf8, encode_utf8_decode_utf8};

    let whole = heading_hids(log, at, w.hids, vms);
    let t0 = seq![told(line().push(plain("Virtual USB HID Devices:"@))), told(line())];
    let t1 = hids_shown(w, ids, gone, vms, xmls, 0);
    lemma_heard(log, at, t0, t1);
    assert(came(heading(log, at, "Virtual USB HID Devices:"@), log, at, t0, Ok(())));
    if log.len() >= at + t0.len() {
        let at1 = at + t0.len();
        lemma_hids_shown(log, at1, w, ids, gone, vms, xmls, 0);
        assert(came(whole, log, at1, t1, Ok(())));
    }
    lemma_came(heading(log, at, "Virtual USB HID Devices:"@), (), whole, log, at, t0, t1, Ok(()));
}

#[verifier::spinoff_prover]
proof fn lemma_hids_listed(
    log: Log,
    at: int,
    w: World,
    ids: Seq<Option<u64>>,
    gone: Chain,
    vms: Seq<Seq<char>>,
    xmls: spec_fn(Seq<char>) -> Seq<char>,
)
    requires
        settled(w),
        w.hids.len() > 0,
        vms == names_listed(lines_of(w.active)),
        ids.len() == w.hids.len(),
        forall|j: int|
            0 <= j < ids.len() ==> (#[trigger] ids[j] matches Some(id) ==> id <= 0xffff_ffff),
        heard(
            log,
            at,
            hids_read(w) + (
                seq![active_listed(w)]
                    + (
                        seq![told(line().push(plain("Virtual USB HID Devices:"@))), told(line())]
                            + hids_shown(w, ids, gone, vms, xmls, 0)
                    )
            ),
        ),
    ensures
        came(
            spec_list_hid_devices(log, at),
            log,
            at,
            hids_read(w) + (
                seq![active_listed(w)]
                    + (
                        seq![told(line().push(plain("Virtual USB HID Devices:"@))), told(line())]
                            + hids_shown(w, ids, gone, vms, xmls, 0)
                    )
            ),
            Ok(()),
        ),
{
    broadcast use {encode_utf8_valid_utf8, encode_utf8_decode_utf8};

    let whole = spec_list_hid_devices(log, at);
    let t0 = hids_read(w);
    let t1 = seq![active_listed(w)];
    let t2 = (
        seq![told(line().push(plain("Virtual USB HID Devices:"@))), told(line())]
            + hids_shown(w, ids, gone, vms, xmls, 0)
    );
    lemma_heard(log, at, t0, t1 + t2);
    lemma_hids_read(log, at, w);
    assert(came(spec_load_hid_devices(log, at), log, at, t0, Ok(w.hids)));
    if log.len() >= at + t0.len() {
        let at1 = at + t0.len();
        lemma_heard(log, at1, t1, t2);
        assert(came(spec_active_vms(log, at1), log, at1, t1, Ok(vms)));
        if log.len() >= at1 + t1.len() {
            let at2 = at1 + t1.len();
            lemma_hids_told(log, at2, w, ids, gone, vms, xmls);
            assert(came(whole, log, at2, t2, Ok(())));
        }
        lemma_came(spec_active_vms(log, at1), vms, whole, log, at1, t1, t2, Ok(()));
    }
    lemma_came(spec_load_hid_devices(log, at), w.hids, whole, log, at, t0, t1 + t2, Ok(()));
}

/// `hid list` shows every HID device with its ids, with whether its daemon
/// runs, and with the first active virtual machine that has it.
#[verifier::spinoff_prover]
pub proof fn law_list_hids(
    log: Log,
    at: int,
    w: World,
    other: Option<Seq<char>>,
    ids: Seq<Option<u64>>,
    gone: Chain,
    vms: Seq<Seq<char>>,
    xmls: spec_fn(Seq<char>) -> Seq<char>,
)
    requires
        settled(w),
        w.hids.len() > 0,
        vms == names_listed(lines_of(w.active)),
        ids.len() == w.hids.len(),
        forall|j: int|
            0 <= j < ids.len() ==> (#[trigger] ids[j] matches Some(id) ==> id <= 0xffff_ffff),
        heard(
            log,
            at,
            (
                hids_read(w)
                    + (
                        seq![active_listed(w)]
                            + (
                                seq![
                                    told(line().push(plain("Virtual USB HID Devices:"@))),
                                    told(line()),
                                ]
                                    + hids_shown(w, ids, gone, vms, xmls, 0)
                            )
                    )
            ),
        ),
    ensures
        came(
            spec_run_tool(log, at, asked_only(CommandsView::Hid(HidCommandsView::List), other)),
            log,
            at,
            (
                hids_read(w)
                    + (
                        seq![active_listed(w)]
                            + (
                                seq![
                                    told(line().push(plain("Virtual USB HID Devices:"@))),
                                    told(line()),
                                ]
                                    + hids_shown(w, ids, gone, vms, xmls, 0)
                            )
                    )
            ),
            Ok(Ending::Done),
        ),
{
    broadcast use {encode_utf8_valid_utf8, encode_utf8_decode_utf8};

    let whole = spec_run_tool(log, at, asked_only(CommandsView::Hid(HidCommandsView::List), other));
    let t0 = (
        hids_read(w)
            + (
                seq![active_listed(w)]
                    + (
                        seq![told(line().push(plain("Virtual USB HID Devices:"@))), told(line())]
                            + hids_shown(w, ids, gone, vms, xmls, 0)
                    )
            )
    );
    lemma_hids_listed(log, at, w, ids, gone, vms, xmls);
    assert(came(whole, log, at, t0, Ok(Ending::Done)));
}

/// `hid list` without HID devices tells how to make one.
#[verifier::spinoff_prover]
pub proof fn law_list_no_hids(log: Log, at: int, w: World, other: Option<Seq<char>>)
    requires
        settled(w),
        w.hids.len() == 0,
        heard(
            log,
            at,
            hids_read(w) + seq![
                told(line().push(plain("No HID devices found. Create one with:"@))),
                told(line().push(plain("  virsh-usb hid create <name> --vid <vid> --pid <pid>"@))),
            ],
        ),
    ensures
        came(
            spec_run_tool(log, at, asked_only(CommandsView::Hid(HidCommandsView::List), other)),
            log,
            at,
            hids_read(w) + seq![
                told(line().push(plain("No HID devices found. Create one with:"@))),
                told(line().push(plain("  virsh-usb hid create <name> --vid <vid> --pid <pid>"@))),
            ],
            Ok(Ending::Done),
        ),
{
    broadcast use {encode_utf8_valid_utf8, encode_utf8_decode_utf8};

    let whole = spec_run_tool(log, at, asked_only(CommandsView::Hid(HidCommandsView::List), other));
    let t0 = hids_read(w);
    let t1 = seq![
        told(line().push(plain("No HID devices found. Create one with:"@))),
        told(line().push(plain("  virsh-usb hid create <name> --vid <vid> --pid <pid>"@))),
    ];
    lemma_heard(log, at, t0, t1);
    lemma_hids_read(log, at, w);
    assert(came(spec_load_hid_devices(log, at), log, at, t0, Ok(w.hids)));
    if log.len() >= at + t0.len() {
        let at1 = at + t0.len();
        assert(came(whole, log, at1, t1, Ok(Ending::Done)));
    }
    lemma_came(spec_load_hid_devices(log, at), w.hids, whole, log, at, t0, t1, Ok(Ending::Done));
}

} // verus!
