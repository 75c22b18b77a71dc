//! What becomes of a command when something on the way fails, request by request.

use vstd::prelude::*;
use vstd::string::*;
use vstd::utf8::*;

use crate::console::{spec_run, spec_run_command};
use crate::daemon::{
    normalized, spec_await_port, spec_daemon_pid, spec_is_hid_daemon_running, spec_look_for_port,
    spec_spawn_hid_daemon, spec_start_hid_daemon, spec_stop_hid_daemon,
};
use crate::devices::{AttachmentView, DriveView, HidView};
use crate::dialogue::{
    active_listed, are_ids, asked, asked_only, came, controller, daemon_absent, daemon_killed,
    daemon_known, daemon_reached, daemon_spawned, data_asked, described, device_readied,
    device_unplugged, devices_listed, disk_definition, drive_made, drives_read, first_drive,
    first_hid, heard, hids_read, host_definition, image_found, import_bytes, lemma_by_ids,
    lemma_came, lemma_controller, lemma_daemon_absent, lemma_daemon_killed, lemma_daemon_known,
    lemma_daemon_reached, lemma_device_unplugged, lemma_drive_from, lemma_drives_read, lemma_heard,
    lemma_hid_from, lemma_hids_read, lemma_import_bytes, lemma_paths, lemma_state_removed,
    lemma_usb_attached, no_such_drive, no_such_hid, readying, removed, run, settled, state_file,
    state_removed, told, unpaused_listed, usb_attached, usb_detached, usb_status, vm_told, written,
    Talk, World,
};
use crate::hid::{
    spec_attach_hid_device, spec_await_device, spec_bring_over, spec_connect_device,
    spec_detach_hid_device, spec_hand_hid, spec_look_for_device, spec_pass_on, spec_plug_in,
    spec_reach_daemon, spec_release_hid, spec_send_text, spec_show_hid_status, spec_take_hid,
};
use crate::host::{
    bold_green, cyan, dim, empty, in_context, line, plain, red, spec_attempt, spec_fault, spec_tell,
    yellow, Chain, Log, Outcome, Pause, ReplyView, RequestView,
};
use crate::inventory::{lemma_padded, spaced};
use crate::names::sanitized;
use crate::number::{decimal, numeral, parsed};
use crate::registry::{spec_load_hid_devices, spec_load_virtual_drives};
use crate::select::spec_any_usb_devices;
use crate::selection::{lemma_starts_at, starts_at, told_to};
use crate::storage::{
    disk_of, disks_in, free_target, spec_attach_virtual_drive, spec_create_virtual_drive,
    spec_detach_virtual_drive, spec_drop_drive, spec_get_attached_virtual_devices, spec_show_drive,
    spec_show_virtual_status,
};
use crate::text::{
    contains, joined, law_pieces_stand_between_separators, lines_of, pieces_of, trimmed,
};
use crate::tool::{ends, spec_run_tool, spec_typing_device, CommandsView, Ending};
use crate::transfer::{after, whole};
use crate::usb::{
    hostdevs_in, place_of, spec_get_attached_devices, spec_is_device_attached, usb_listed, Front,
    UsbView,
};
use crate::vhci::{
    free_port, law_kept_number_is_read_back, spec_attach_vhci, spec_detach_vhci,
    spec_find_vhci_sysfs_dir,
};
use crate::vm::{
    device_with, lists_vm, names_listed, plain_lines, spec_active_vms, spec_attach_device,
    spec_detach_device, spec_hand_over, spec_load_last_vm, spec_save_last_vm, spec_select_vm,
    spec_show_status,
};

verus! {

// ---------------------------------------------------------------------------
// Commands
// ---------------------------------------------------------------------------

/// A program is run, and fails with what it says of the error.
pub open spec fn fails(
    args: Seq<Seq<char>>,
    out: Seq<u8>,
    err: Seq<char>,
) -> (RequestView, ReplyView) {
    (RequestView::Run(args), ReplyView::Exit(false, out, encode_utf8(err)))
}

/// What is said of a program that failed.
pub open spec fn blamed(command: Seq<char>, err: Seq<char>) -> Seq<char> {
    "Command failed: "@ + command + "\nError: "@ + err
}

proof fn lemma_joined2(a: Seq<char>, b: Seq<char>)
    ensures
        joined(seq![a, b], " "@) == a + " "@ + b,
{
    reveal_with_fuel(joined, 3);
    assert(seq![a, b].drop_last() =~= seq![a]);
}

proof fn lemma_joined5(a: Seq<char>, b: Seq<char>, c: Seq<char>, d: Seq<char>, e: Seq<char>)
    ensures
        joined(seq![a, b, c, d, e], " "@) == a + " "@ + b + " "@ + c + " "@ + d + " "@ + e,
{
    reveal_with_fuel(joined, 6);
    assert(seq![a, b, c, d, e].drop_last() =~= seq![a, b, c, d]);
    assert(seq![a, b, c, d].drop_last() =~= seq![a, b, c]);
    assert(seq![a, b, c].drop_last() =~= seq![a, b]);
    assert(seq![a, b].drop_last() =~= seq![a]);
}

/// What a program prints is its result if it succeeds, and the words of its
/// command line stand in what is said if it does not, or if it cannot be run.
pub proof fn law_result_of_a_command(
    log: Log,
    at: int,
    args: Seq<Seq<char>>,
    out: Seq<char>,
    err: Seq<char>,
    cause: Chain,
)
    requires
        0 <= at < log.len(),
        args.len() > 0,
    ensures
        log[at] == ReplyView::Exit(true, encode_utf8(out), encode_utf8(err)) ==> spec_run_command(
            log,
            at,
            args,
        ) == Outcome::Ready(out, at + 1),
        log[at] == ReplyView::Exit(false, encode_utf8(out), encode_utf8(err)) ==> spec_run_command(
            log,
            at,
            args,
        ) == Outcome::<Seq<char>>::Fail(seq![blamed(joined(args, " "@), err)], at + 1),
        log[at] == ReplyView::Failed(cause) ==> spec_run_command(log, at, args) == Outcome::<
            Seq<char>,
        >::Fail(seq!["Failed to execute command: "@ + joined(args, " "@)] + cause, at + 1),
{
    broadcast use {encode_utf8_valid_utf8, encode_utf8_decode_utf8};

}

/// If `virsh` refuses to attach a device of the host, the definition is still
/// removed, and what `virsh` says is passed on.
#[verifier::spinoff_prover]
pub proof fn law_attach_usb_fails(
    log: Log,
    at: int,
    front: Front,
    w: World,
    vm: Seq<char>,
    vendor_id: Seq<char>,
    product_id: Seq<char>,
    out: Seq<u8>,
    err: Seq<char>,
    d: UsbView,
)
    requires
        lists_vm(w.unpaused, vm),
        !hostdevs_in(w.xml).contains((vendor_id, product_id)),
        device_with(usb_listed(lines_of(w.lsusb), front.hubs()), vendor_id, product_id) == Some(d),
        heard(
            log,
            at,
            seq![
                unpaused_listed(w),
                described(w, vm),
                devices_listed(w),
                written("/tmp/virsh-usb-attach.xml"@, host_definition(vendor_id, product_id)),
                fails(
                    seq!["virsh"@, "attach-device"@, vm, "/tmp/virsh-usb-attach.xml"@, "--live"@],
                    out,
                    err,
                ),
                removed("/tmp/virsh-usb-attach.xml"@),
            ],
        ),
    ensures
        came(
            spec_attach_device(front, log, at, vm, vendor_id, product_id),
            log,
            at,
            seq![
                unpaused_listed(w),
                described(w, vm),
                devices_listed(w),
                written("/tmp/virsh-usb-attach.xml"@, host_definition(vendor_id, product_id)),
                fails(
                    seq!["virsh"@, "attach-device"@, vm, "/tmp/virsh-usb-attach.xml"@, "--live"@],
                    out,
                    err,
                ),
                removed("/tmp/virsh-usb-attach.xml"@),
            ],
            Err(
                seq![
                    blamed(
                        "virsh"@ + " "@ + "attach-device"@ + " "@ + vm + " "@
                            + "/tmp/virsh-usb-attach.xml"@ + " "@ + "--live"@,
                        err,
                    ),
                ],
            ),
        ),
{
    broadcast use {encode_utf8_valid_utf8, encode_utf8_decode_utf8};

    let whole = spec_attach_device(front, log, at, vm, vendor_id, product_id);
    let t0 = seq![
        unpaused_listed(w),
        described(w, vm),
        devices_listed(w),
        written("/tmp/virsh-usb-attach.xml"@, host_definition(vendor_id, product_id)),
        fails(
            seq!["virsh"@, "attach-device"@, vm, "/tmp/virsh-usb-attach.xml"@, "--live"@],
            out,
            err,
        ),
        removed("/tmp/virsh-usb-attach.xml"@),
    ];
    lemma_joined5("virsh"@, "attach-device"@, vm, "/tmp/virsh-usb-attach.xml"@, "--live"@);
    assert(
        came(
            whole,
            log,
            at,
            t0,
            Err(
                seq![
                    blamed(
                        "virsh"@ + " "@ + "attach-device"@ + " "@ + vm + " "@
                            + "/tmp/virsh-usb-attach.xml"@ + " "@ + "--live"@,
                        err,
                    ),
                ],
            ),
        )
    );
}

/// If `virsh` refuses to detach a device of the host, the definition is still
/// removed, and what `virsh` says is passed on.
#[verifier::spinoff_prover]
pub proof fn law_detach_usb_fails(
    log: Log,
    at: int,
    front: Front,
    w: World,
    vm: Seq<char>,
    vendor_id: Seq<char>,
    product_id: Seq<char>,
    out: Seq<u8>,
    err: Seq<char>,
)
    requires
        lists_vm(w.unpaused, vm),
        hostdevs_in(w.xml).contains((vendor_id, product_id)),
        heard(
            log,
            at,
            seq![
                unpaused_listed(w),
                described(w, vm),
                devices_listed(w),
                written("/tmp/virsh-usb-detach.xml"@, host_definition(vendor_id, product_id)),
                fails(
                    seq!["virsh"@, "detach-device"@, vm, "/tmp/virsh-usb-detach.xml"@, "--live"@],
                    out,
                    err,
                ),
                removed("/tmp/virsh-usb-detach.xml"@),
            ],
        ),
    ensures
        came(
            spec_detach_device(front, log, at, vm, vendor_id, product_id),
            log,
            at,
            seq![
                unpaused_listed(w),
                described(w, vm),
                devices_listed(w),
                written("/tmp/virsh-usb-detach.xml"@, host_definition(vendor_id, product_id)),
                fails(
                    seq!["virsh"@, "detach-device"@, vm, "/tmp/virsh-usb-detach.xml"@, "--live"@],
                    out,
                    err,
                ),
                removed("/tmp/virsh-usb-detach.xml"@),
            ],
            Err(
                seq![
                    blamed(
                        "virsh"@ + " "@ + "detach-device"@ + " "@ + vm + " "@
                            + "/tmp/virsh-usb-detach.xml"@ + " "@ + "--live"@,
                        err,
                    ),
                ],
            ),
        ),
{
    broadcast use {encode_utf8_valid_utf8, encode_utf8_decode_utf8};

    let whole = spec_detach_device(front, log, at, vm, vendor_id, product_id);
    let t0 = seq![
        unpaused_listed(w),
        described(w, vm),
        devices_listed(w),
        written("/tmp/virsh-usb-detach.xml"@, host_definition(vendor_id, product_id)),
        fails(
            seq!["virsh"@, "detach-device"@, vm, "/tmp/virsh-usb-detach.xml"@, "--live"@],
            out,
            err,
        ),
        removed("/tmp/virsh-usb-detach.xml"@),
    ];
    lemma_joined5("virsh"@, "detach-device"@, vm, "/tmp/virsh-usb-detach.xml"@, "--live"@);
    assert(
        came(
            whole,
            log,
            at,
            t0,
            Err(
                seq![
                    blamed(
                        "virsh"@ + " "@ + "detach-device"@ + " "@ + vm + " "@
                            + "/tmp/virsh-usb-detach.xml"@ + " "@ + "--live"@,
                        err,
                    ),
                ],
            ),
        )
    );
}

/// If `virsh` refuses to attach a drive, the definition is still removed, and
/// what `virsh` says is passed on.
#[verifier::spinoff_prover]
pub proof fn law_attach_drive_fails(
    log: Log,
    at: int,
    w: World,
    vm: Seq<char>,
    name: Seq<char>,
    k: int,
    dev: Seq<char>,
    out: Seq<u8>,
    err: Seq<char>,
)
    requires
        settled(w),
        first_drive(w.drives, name, k),
        lists_vm(w.unpaused, vm),
        disk_of(disks_in(w.xml), trimmed(w.image)) is None,
        free_target(w.xml, 0) == Some(dev),
        heard(
            log,
            at,
            drives_read(w) + seq![
                unpaused_listed(w),
                image_found(w, name),
                described(w, vm),
                image_found(w, name),
                described(w, vm),
                written(
                    "/tmp/virsh-usb-storage-attach.xml"@,
                    disk_definition(trimmed(w.image), dev),
                ),
                fails(
                    seq![
                        "virsh"@,
                        "attach-device"@,
                        vm,
                        "/tmp/virsh-usb-storage-attach.xml"@,
                        "--live"@,
                    ],
                    out,
                    err,
                ),
                removed("/tmp/virsh-usb-storage-attach.xml"@),
            ],
        ),
    ensures
        came(
            spec_attach_virtual_drive(log, at, vm, name),
            log,
            at,
            drives_read(w) + seq![
                unpaused_listed(w),
                image_found(w, name),
                described(w, vm),
                image_found(w, name),
                described(w, vm),
                written(
                    "/tmp/virsh-usb-storage-attach.xml"@,
                    disk_definition(trimmed(w.image), dev),
                ),
                fails(
                    seq![
                        "virsh"@,
                        "attach-device"@,
                        vm,
                        "/tmp/virsh-usb-storage-attach.xml"@,
                        "--live"@,
                    ],
                    out,
                    err,
                ),
                removed("/tmp/virsh-usb-storage-attach.xml"@),
            ],
            Err(
                seq![
                    blamed(
                        "virsh"@ + " "@ + "attach-device"@ + " "@ + vm + " "@
                            + "/tmp/virsh-usb-storage-attach.xml"@ + " "@ + "--live"@,
                        err,
                    ),
                ],
            ),
        ),
{
    lemma_drive_from(w.drives, name, 0);
    broadcast use {encode_utf8_valid_utf8, encode_utf8_decode_utf8};

    let whole = spec_attach_virtual_drive(log, at, vm, name);
    let t0 = drives_read(w);
    let t1 = seq![
        unpaused_listed(w),
        image_found(w, name),
        described(w, vm),
        image_found(w, name),
        described(w, vm),
        written("/tmp/virsh-usb-storage-attach.xml"@, disk_definition(trimmed(w.image), dev)),
        fails(
            seq!["virsh"@, "attach-device"@, vm, "/tmp/virsh-usb-storage-attach.xml"@, "--live"@],
            out,
            err,
        ),
        removed("/tmp/virsh-usb-storage-attach.xml"@),
    ];
    lemma_heard(log, at, t0, t1);
    lemma_drives_read(log, at, w);
    assert(came(spec_load_virtual_drives(log, at), log, at, t0, Ok(w.drives)));
    if log.len() >= at + t0.len() {
        let at1 = at + t0.len();
        lemma_joined5(
            "virsh"@,
            "attach-device"@,
            vm,
            "/tmp/virsh-usb-storage-attach.xml"@,
            "--live"@,
        );
        assert(
            came(
                whole,
                log,
                at1,
                t1,
                Err(
                    seq![
                        blamed(
                            "virsh"@ + " "@ + "attach-device"@ + " "@ + vm + " "@
                                + "/tmp/virsh-usb-storage-attach.xml"@ + " "@ + "--live"@,
                            err,
                        ),
                    ],
                ),
            )
        );
    }
    lemma_came(
        spec_load_virtual_drives(log, at),
        w.drives,
        whole,
        log,
        at,
        t0,
        t1,
        Err(
            seq![
                blamed(
                    "virsh"@ + " "@ + "attach-device"@ + " "@ + vm + " "@
                        + "/tmp/virsh-usb-storage-attach.xml"@ + " "@ + "--live"@,
                    err,
                ),
            ],
        ),
    );
}

/// If `virsh` refuses to detach a drive, the definition is still removed, and
/// what `virsh` says is passed on.
#[verifier::spinoff_prover]
pub proof fn law_detach_drive_fails(
    log: Log,
    at: int,
    w: World,
    vm: Seq<char>,
    name: Seq<char>,
    k: int,
    disk: AttachmentView,
    out: Seq<u8>,
    err: Seq<char>,
)
    requires
        settled(w),
        first_drive(w.drives, name, k),
        lists_vm(w.unpaused, vm),
        disk_of(disks_in(w.xml), trimmed(w.image)) == Some(disk),
        heard(
            log,
            at,
            drives_read(w) + seq![
                unpaused_listed(w),
                image_found(w, name),
                described(w, vm),
                written(
                    "/tmp/virsh-usb-storage-detach.xml"@,
                    disk_definition(trimmed(w.image), disk.target_dev),
                ),
                fails(
                    seq![
                        "virsh"@,
                        "detach-device"@,
                        vm,
                        "/tmp/virsh-usb-storage-detach.xml"@,
                        "--live"@,
                    ],
                    out,
                    err,
                ),
                removed("/tmp/virsh-usb-storage-detach.xml"@),
            ],
        ),
    ensures
        came(
            spec_detach_virtual_drive(log, at, vm, name),
            log,
            at,
            drives_read(w) + seq![
                unpaused_listed(w),
                image_found(w, name),
                described(w, vm),
                written(
                    "/tmp/virsh-usb-storage-detach.xml"@,
                    disk_definition(trimmed(w.image), disk.target_dev),
                ),
                fails(
                    seq![
                        "virsh"@,
                        "detach-device"@,
                        vm,
                        "/tmp/virsh-usb-storage-detach.xml"@,
                        "--live"@,
                    ],
                    out,
                    err,
                ),
                removed("/tmp/virsh-usb-storage-detach.xml"@),
            ],
            Err(
                seq![
                    blamed(
                        "virsh"@ + " "@ + "detach-device"@ + " "@ + vm + " "@
                            + "/tmp/virsh-usb-storage-detach.xml"@ + " "@ + "--live"@,
                        err,
                    ),
                ],
            ),
        ),
{
    lemma_drive_from(w.drives, name, 0);
    broadcast use {encode_utf8_valid_utf8, encode_utf8_decode_utf8};

    let whole = spec_detach_virtual_drive(log, at, vm, name);
    let t0 = drives_read(w);
    let t1 = seq![
        unpaused_listed(w),
        image_found(w, name),
        described(w, vm),
        written(
            "/tmp/virsh-usb-storage-detach.xml"@,
            disk_definition(trimmed(w.image), disk.target_dev),
        ),
        fails(
            seq!["virsh"@, "detach-device"@, vm, "/tmp/virsh-usb-storage-detach.xml"@, "--live"@],
            out,
            err,
        ),
        removed("/tmp/virsh-usb-storage-detach.xml"@),
    ];
    lemma_heard(log, at, t0, t1);
    lemma_drives_read(log, at, w);
    assert(came(spec_load_virtual_drives(log, at), log, at, t0, Ok(w.drives)));
    if log.len() >= at + t0.len() {
        let at1 = at + t0.len();
        lemma_joined5(
            "virsh"@,
            "detach-device"@,
            vm,
            "/tmp/virsh-usb-storage-detach.xml"@,
            "--live"@,
        );
        assert(
            came(
                whole,
                log,
                at1,
                t1,
                Err(
                    seq![
                        blamed(
                            "virsh"@ + " "@ + "detach-device"@ + " "@ + vm + " "@
                                + "/tmp/virsh-usb-storage-detach.xml"@ + " "@ + "--live"@,
                            err,
                        ),
                    ],
                ),
            )
        );
    }
    lemma_came(
        spec_load_virtual_drives(log, at),
        w.drives,
        whole,
        log,
        at,
        t0,
        t1,
        Err(
            seq![
                blamed(
                    "virsh"@ + " "@ + "detach-device"@ + " "@ + vm + " "@
                        + "/tmp/virsh-usb-storage-detach.xml"@ + " "@ + "--live"@,
                    err,
                ),
            ],
        ),
    );
}

/// If the virtual machine has a disk under each of the names for one, no drive
/// can be attached.
#[verifier::spinoff_prover]
pub proof fn law_attach_drive_without_a_name(
    log: Log,
    at: int,
    w: World,
    vm: Seq<char>,
    name: Seq<char>,
    k: int,
)
    requires
        settled(w),
        first_drive(w.drives, name, k),
        lists_vm(w.unpaused, vm),
        disk_of(disks_in(w.xml), trimmed(w.image)) is None,
        free_target(w.xml, 0) is None,
        heard(
            log,
            at,
            drives_read(w) + seq![
                unpaused_listed(w),
                image_found(w, name),
                described(w, vm),
                image_found(w, name),
                described(w, vm),
            ],
        ),
    ensures
        came(
            spec_attach_virtual_drive(log, at, vm, name),
            log,
            at,
            drives_read(w) + seq![
                unpaused_listed(w),
                image_found(w, name),
                described(w, vm),
                image_found(w, name),
                described(w, vm),
            ],
            Err(seq!["No available USB disk target devices (all sda-sdz are in use)"@]),
        ),
{
    lemma_drive_from(w.drives, name, 0);
    broadcast use {encode_utf8_valid_utf8, encode_utf8_decode_utf8};

    let whole = spec_attach_virtual_drive(log, at, vm, name);
    let t0 = drives_read(w);
    let t1 = seq![
        unpaused_listed(w),
        image_found(w, name),
        described(w, vm),
        image_found(w, name),
        described(w, vm),
    ];
    lemma_heard(log, at, t0, t1);
    lemma_drives_read(log, at, w);
    assert(came(spec_load_virtual_drives(log, at), log, at, t0, Ok(w.drives)));
    if log.len() >= at + t0.len() {
        let at1 = at + t0.len();
        assert(
            came(
                whole,
                log,
                at1,
                t1,
                Err(seq!["No available USB disk target devices (all sda-sdz are in use)"@]),
            )
        );
    }
    lemma_came(
        spec_load_virtual_drives(log, at),
        w.drives,
        whole,
        log,
        at,
        t0,
        t1,
        Err(seq!["No available USB disk target devices (all sda-sdz are in use)"@]),
    );
}

/// A drive whose image is not found cannot be attached.
#[verifier::spinoff_prover]
pub proof fn law_attach_drive_without_image(
    log: Log,
    at: int,
    w: World,
    vm: Seq<char>,
    name: Seq<char>,
    k: int,
    out: Seq<u8>,
    err: Seq<char>,
)
    requires
        settled(w),
        first_drive(w.drives, name, k),
        lists_vm(w.unpaused, vm),
        heard(
            log,
            at,
            drives_read(w) + seq![
                unpaused_listed(w),
                fails(
                    seq!["virsh"@, "vol-path"@, name + ".qcow2"@, "--pool"@, "default"@],
                    out,
                    err,
                ),
            ],
        ),
    ensures
        came(
            spec_attach_virtual_drive(log, at, vm, name),
            log,
            at,
            drives_read(w) + seq![
                unpaused_listed(w),
                fails(
                    seq!["virsh"@, "vol-path"@, name + ".qcow2"@, "--pool"@, "default"@],
                    out,
                    err,
                ),
            ],
            Err(
                seq![
                    blamed(
                        "virsh"@ + " "@ + "vol-path"@ + " "@ + (name + ".qcow2"@) + " "@ + "--pool"@
                            + " "@ + "default"@,
                        err,
                    ),
                ],
            ),
        ),
{
    lemma_drive_from(w.drives, name, 0);
    broadcast use {encode_utf8_valid_utf8, encode_utf8_decode_utf8};

    let whole = spec_attach_virtual_drive(log, at, vm, name);
    let t0 = drives_read(w);
    let t1 = seq![
        unpaused_listed(w),
        fails(seq!["virsh"@, "vol-path"@, name + ".qcow2"@, "--pool"@, "default"@], out, err),
    ];
    lemma_heard(log, at, t0, t1);
    lemma_drives_read(log, at, w);
    assert(came(spec_load_virtual_drives(log, at), log, at, t0, Ok(w.drives)));
    if log.len() >= at + t0.len() {
        let at1 = at + t0.len();
        lemma_joined5("virsh"@, "vol-path"@, name + ".qcow2"@, "--pool"@, "default"@);
        assert(
            came(
                whole,
                log,
                at1,
                t1,
                Err(
                    seq![
                        blamed(
                            "virsh"@ + " "@ + "vol-path"@ + " "@ + (name + ".qcow2"@) + " "@
                                + "--pool"@ + " "@ + "default"@,
                            err,
                        ),
                    ],
                ),
            )
        );
    }
    lemma_came(
        spec_load_virtual_drives(log, at),
        w.drives,
        whole,
        log,
        at,
        t0,
        t1,
        Err(
            seq![
                blamed(
                    "virsh"@ + " "@ + "vol-path"@ + " "@ + (name + ".qcow2"@) + " "@ + "--pool"@
                        + " "@ + "default"@,
                    err,
                ),
            ],
        ),
    );
}

/// A drive whose image is not found cannot be detached.
#[verifier::spinoff_prover]
pub proof fn law_detach_drive_without_image(
    log: Log,
    at: int,
    w: World,
    vm: Seq<char>,
    name: Seq<char>,
    k: int,
    out: Seq<u8>,
    err: Seq<char>,
)
    requires
        settled(w),
        first_drive(w.drives, name, k),
        lists_vm(w.unpaused, vm),
        heard(
            log,
            at,
            drives_read(w) + seq![
                unpaused_listed(w),
                fails(
                    seq!["virsh"@, "vol-path"@, name + ".qcow2"@, "--pool"@, "default"@],
                    out,
                    err,
                ),
            ],
        ),
    ensures
        came(
            spec_detach_virtual_drive(log, at, vm, name),
            log,
            at,
            drives_read(w) + seq![
                unpaused_listed(w),
                fails(
                    seq!["virsh"@, "vol-path"@, name + ".qcow2"@, "--pool"@, "default"@],
                    out,
                    err,
                ),
            ],
            Err(
                seq![
                    "Storage drive '"@ + name
                        + "' not found in libvirt storage pool. Try: virsh vol-list default"@,
                    blamed(
                        "virsh"@ + " "@ + "vol-path"@ + " "@ + (name + ".qcow2"@) + " "@ + "--pool"@
                            + " "@ + "default"@,
                        err,
                    ),
                ],
            ),
        ),
{
    lemma_drive_from(w.drives, name, 0);
    broadcast use {encode_utf8_valid_utf8, encode_utf8_decode_utf8};

    let whole = spec_detach_virtual_drive(log, at, vm, name);
    let t0 = drives_read(w);
    let t1 = seq![
        unpaused_listed(w),
        fails(seq!["virsh"@, "vol-path"@, name + ".qcow2"@, "--pool"@, "default"@], out, err),
    ];
    lemma_heard(log, at, t0, t1);
    lemma_drives_read(log, at, w);
    assert(came(spec_load_virtual_drives(log, at), log, at, t0, Ok(w.drives)));
    if log.len() >= at + t0.len() {
        let at1 = at + t0.len();
        lemma_joined5("virsh"@, "vol-path"@, name + ".qcow2"@, "--pool"@, "default"@);
        assert(
            seq![
                "Storage drive '"@ + name
                    + "' not found in libvirt storage pool. Try: virsh vol-list default"@,
            ]
                + seq![blamed("virsh"@ + " "@ + "vol-path"@ + " "@ + (name + ".qcow2"@) + " "@ + "--pool"@ + " "@ + "default"@, err)] =~= seq![
                    "Storage drive '"@ + name
                        + "' not found in libvirt storage pool. Try: virsh vol-list default"@,
                    blamed(
                        "virsh"@ + " "@ + "vol-path"@ + " "@ + (name + ".qcow2"@) + " "@ + "--pool"@
                            + " "@ + "default"@,
                        err,
                    ),
                ]
        );
        assert(
            came(
                whole,
                log,
                at1,
                t1,
                Err(
                    seq![
                        "Storage drive '"@ + name
                            + "' not found in libvirt storage pool. Try: virsh vol-list default"@,
                        blamed(
                            "virsh"@ + " "@ + "vol-path"@ + " "@ + (name + ".qcow2"@) + " "@
                                + "--pool"@ + " "@ + "default"@,
                            err,
                        ),
                    ],
                ),
            )
        );
    }
    lemma_came(
        spec_load_virtual_drives(log, at),
        w.drives,
        whole,
        log,
        at,
        t0,
        t1,
        Err(
            seq![
                "Storage drive '"@ + name
                    + "' not found in libvirt storage pool. Try: virsh vol-list default"@,
                blamed(
                    "virsh"@ + " "@ + "vol-path"@ + " "@ + (name + ".qcow2"@) + " "@ + "--pool"@
                        + " "@ + "default"@,
                    err,
                ),
            ],
        ),
    );
}

/// It is told of a drive that its image is missing.
#[verifier::spinoff_prover]
pub proof fn law_status_of_drive_without_image(
    log: Log,
    at: int,
    w: World,
    vm: Seq<char>,
    name: Seq<char>,
    k: int,
    out: Seq<u8>,
    err: Seq<char>,
)
    requires
        settled(w),
        first_drive(w.drives, name, k),
        !lists_vm(w.active, vm),
        heard(
            log,
            at,
            drives_read(w) + seq![
                active_listed(w),
                vm_told(vm, false),
                fails(
                    seq!["virsh"@, "vol-path"@, name + ".qcow2"@, "--pool"@, "default"@],
                    out,
                    err,
                ),
                told(
                    line().push(cyan("💾"@)).push(plain(" Storage Drive ("@)).push(cyan(name)).push(plain("): "@)).push(
                        red("Image missing from storage pool"@),
                    ),
                ),
            ],
        ),
    ensures
        came(
            spec_show_virtual_status(log, at, vm, name),
            log,
            at,
            drives_read(w) + seq![
                active_listed(w),
                vm_told(vm, false),
                fails(
                    seq!["virsh"@, "vol-path"@, name + ".qcow2"@, "--pool"@, "default"@],
                    out,
                    err,
                ),
                told(
                    line().push(cyan("💾"@)).push(plain(" Storage Drive ("@)).push(cyan(name)).push(plain("): "@)).push(
                        red("Image missing from storage pool"@),
                    ),
                ),
            ],
            Ok(()),
        ),
{
    lemma_drive_from(w.drives, name, 0);
    broadcast use {encode_utf8_valid_utf8, encode_utf8_decode_utf8};

    let whole = spec_show_virtual_status(log, at, vm, name);
    let t0 = drives_read(w);
    let t1 = seq![
        active_listed(w),
        vm_told(vm, false),
        fails(seq!["virsh"@, "vol-path"@, name + ".qcow2"@, "--pool"@, "default"@], out, err),
        told(
            line().push(cyan("💾"@)).push(plain(" Storage Drive ("@)).push(cyan(name)).push(plain("): "@)).push(
                red("Image missing from storage pool"@),
            ),
        ),
    ];
    lemma_heard(log, at, t0, t1);
    lemma_drives_read(log, at, w);
    assert(came(spec_load_virtual_drives(log, at), log, at, t0, Ok(w.drives)));
    if log.len() >= at + t0.len() {
        let at1 = at + t0.len();
        assert(came(whole, log, at1, t1, Ok(())));
    }
    lemma_came(spec_load_virtual_drives(log, at), w.drives, whole, log, at, t0, t1, Ok(()));
}

/// A drive whose volume cannot be deleted is still taken from the list; the
/// user is warned.
#[verifier::spinoff_prover]
pub proof fn law_delete_drive_without_volume(
    log: Log,
    at: int,
    w: World,
    k: int,
    name: Seq<char>,
    text: Seq<char>,
    out: Seq<u8>,
    err: Seq<char>,
)
    requires
        settled(w),
        0 <= k < w.drives.len(),
        heard(
            log,
            at,
            seq![
                fails(
                    seq!["virsh"@, "vol-delete"@, name + ".qcow2"@, "--pool"@, "default"@],
                    out,
                    err,
                ),
                (
                    RequestView::Warn(
                        line().push(
                            plain(
                                "Warning: could not delete volume: "@ + blamed(
                                    "virsh"@ + " "@ + "vol-delete"@ + " "@ + (name + ".qcow2"@)
                                        + " "@ + "--pool"@ + " "@ + "default"@,
                                    err,
                                ),
                            ),
                        ),
                    ), ReplyView::Done
                ),
                data_asked(w),
                (
                    RequestView::EncodeDrives(
                        w.drives.take(k) + w.drives.skip(k + 1),
                    ), ReplyView::Text(text)
                ),
                written(w.data + "/"@ + "drives.json"@, text),
                told(
                    line().push(bold_green("✓"@)).push(
                        plain(" Deleted storage drive "@),
                    ).push(cyan(name)),
                ),
            ],
        ),
    ensures
        came(
            spec_drop_drive(log, at, w.drives, k, name),
            log,
            at,
            seq![
                fails(
                    seq!["virsh"@, "vol-delete"@, name + ".qcow2"@, "--pool"@, "default"@],
                    out,
                    err,
                ),
                (
                    RequestView::Warn(
                        line().push(
                            plain(
                                "Warning: could not delete volume: "@ + blamed(
                                    "virsh"@ + " "@ + "vol-delete"@ + " "@ + (name + ".qcow2"@)
                                        + " "@ + "--pool"@ + " "@ + "default"@,
                                    err,
                                ),
                            ),
                        ),
                    ), ReplyView::Done
                ),
                data_asked(w),
                (
                    RequestView::EncodeDrives(
                        w.drives.take(k) + w.drives.skip(k + 1),
                    ), ReplyView::Text(text)
                ),
                written(w.data + "/"@ + "drives.json"@, text),
                told(
                    line().push(bold_green("✓"@)).push(
                        plain(" Deleted storage drive "@),
                    ).push(cyan(name)),
                ),
            ],
            Ok(()),
        ),
{
    broadcast use {encode_utf8_valid_utf8, encode_utf8_decode_utf8};

    let whole = spec_drop_drive(log, at, w.drives, k, name);
    let t0 = seq![
        fails(seq!["virsh"@, "vol-delete"@, name + ".qcow2"@, "--pool"@, "default"@], out, err),
        (
            RequestView::Warn(
                line().push(
                    plain(
                        "Warning: could not delete volume: "@ + blamed(
                            "virsh"@ + " "@ + "vol-delete"@ + " "@ + (name + ".qcow2"@) + " "@
                                + "--pool"@ + " "@ + "default"@,
                            err,
                        ),
                    ),
                ),
            ), ReplyView::Done
        ),
        data_asked(w),
        (RequestView::EncodeDrives(w.drives.take(k) + w.drives.skip(k + 1)), ReplyView::Text(text)),
        written(w.data + "/"@ + "drives.json"@, text),
        told(
            line().push(bold_green("✓"@)).push(plain(" Deleted storage drive "@)).push(cyan(name)),
        ),
    ];
    lemma_joined5("virsh"@, "vol-delete"@, name + ".qcow2"@, "--pool"@, "default"@);
    lemma_paths(w.data, "drives.json"@);
    assert(came(whole, log, at, t0, Ok(())));
}

/// A device that is no longer connected can still be detached; it then has no
/// name.
#[verifier::spinoff_prover]
pub proof fn law_detach_usb_unlisted(
    log: Log,
    at: int,
    front: Front,
    w: World,
    vm: Seq<char>,
    vendor_id: Seq<char>,
    product_id: Seq<char>,
)
    requires
        lists_vm(w.unpaused, vm),
        hostdevs_in(w.xml).contains((vendor_id, product_id)),
        device_with(usb_listed(lines_of(w.lsusb), front.hubs()), vendor_id, product_id) is None,
        heard(log, at, usb_detached(w, vm, vendor_id, product_id, "Unknown Device"@)),
    ensures
        came(
            spec_detach_device(front, log, at, vm, vendor_id, product_id),
            log,
            at,
            usb_detached(w, vm, vendor_id, product_id, "Unknown Device"@),
            Ok(()),
        ),
{
    broadcast use {encode_utf8_valid_utf8, encode_utf8_decode_utf8};

    let whole = spec_detach_device(front, log, at, vm, vendor_id, product_id);
    let t0 = usb_detached(w, vm, vendor_id, product_id, "Unknown Device"@);
    assert(came(whole, log, at, t0, Ok(())));
}

/// It is told of a device that is not connected, too; it then has no name.
#[verifier::spinoff_prover]
pub proof fn law_status_usb_unlisted(
    log: Log,
    at: int,
    front: Front,
    w: World,
    vm: Seq<char>,
    vendor_id: Seq<char>,
    product_id: Seq<char>,
    place: Option<(Seq<char>, Seq<char>)>,
    attached: bool,
)
    requires
        attached == hostdevs_in(w.xml).contains((vendor_id, product_id)),
        place == place_of(w.lsusb, vendor_id, product_id, front.hubs()),
        device_with(usb_listed(lines_of(w.lsusb), front.hubs()), vendor_id, product_id) is None,
        heard(
            log,
            at,
            usb_status(w, vm, vendor_id, product_id, "Unknown Device"@, place, attached),
        ),
    ensures
        came(
            spec_show_status(front, log, at, vm, vendor_id, product_id),
            log,
            at,
            usb_status(w, vm, vendor_id, product_id, "Unknown Device"@, place, attached),
            Ok(()),
        ),
{
    broadcast use {encode_utf8_valid_utf8, encode_utf8_decode_utf8};

    let whole = spec_show_status(front, log, at, vm, vendor_id, product_id);
    let t0 = usb_status(w, vm, vendor_id, product_id, "Unknown Device"@, place, attached);
    assert(came(whole, log, at, t0, Ok(())));
}

// ---------------------------------------------------------------------------
// Lists
// ---------------------------------------------------------------------------

/// A list of drives that is there and cannot be read is an error, not an empty
/// list.
#[verifier::spinoff_prover]
pub proof fn law_drives_unreadable(log: Log, at: int, w: World, cause: Chain)
    requires
        settled(w),
        heard(
            log,
            at,
            seq![
                data_asked(w),
                (RequestView::Exists(w.data + "/"@ + "drives.json"@), ReplyView::Flag(true)),
                (RequestView::Read(w.data + "/"@ + "drives.json"@), ReplyView::Failed(cause)),
            ],
        ),
    ensures
        came(
            spec_load_virtual_drives(log, at),
            log,
            at,
            seq![
                data_asked(w),
                (RequestView::Exists(w.data + "/"@ + "drives.json"@), ReplyView::Flag(true)),
                (RequestView::Read(w.data + "/"@ + "drives.json"@), ReplyView::Failed(cause)),
            ],
            Err(seq!["Failed to read "@ + (w.data + "/"@ + "drives.json"@)] + cause),
        ),
{
    broadcast use {encode_utf8_valid_utf8, encode_utf8_decode_utf8};

    let whole = spec_load_virtual_drives(log, at);
    let t0 = seq![
        data_asked(w),
        (RequestView::Exists(w.data + "/"@ + "drives.json"@), ReplyView::Flag(true)),
        (RequestView::Read(w.data + "/"@ + "drives.json"@), ReplyView::Failed(cause)),
    ];
    lemma_paths(w.data, "drives.json"@);
    assert(
        came(
            whole,
            log,
            at,
            t0,
            Err(seq!["Failed to read "@ + (w.data + "/"@ + "drives.json"@)] + cause),
        )
    );
}

/// A list of drives that makes no sense is an error, not an empty list.
#[verifier::spinoff_prover]
pub proof fn law_drives_corrupted(log: Log, at: int, w: World, content: Seq<char>, cause: Chain)
    requires
        settled(w),
        heard(
            log,
            at,
            seq![
                data_asked(w),
                (RequestView::Exists(w.data + "/"@ + "drives.json"@), ReplyView::Flag(true)),
                (RequestView::Read(w.data + "/"@ + "drives.json"@), ReplyView::Text(content)),
                (RequestView::DecodeDrives(content), ReplyView::Failed(cause)),
            ],
        ),
    ensures
        came(
            spec_load_virtual_drives(log, at),
            log,
            at,
            seq![
                data_asked(w),
                (RequestView::Exists(w.data + "/"@ + "drives.json"@), ReplyView::Flag(true)),
                (RequestView::Read(w.data + "/"@ + "drives.json"@), ReplyView::Text(content)),
                (RequestView::DecodeDrives(content), ReplyView::Failed(cause)),
            ],
            Err(
                seq![
                    "Failed to parse "@ + "drives.json"@
                        + ". The file may be corrupted. You can delete it at: "@
                        + (w.data + "/"@ + "drives.json"@),
                ] + cause,
            ),
        ),
{
    broadcast use {encode_utf8_valid_utf8, encode_utf8_decode_utf8};

    let whole = spec_load_virtual_drives(log, at);
    let t0 = seq![
        data_asked(w),
        (RequestView::Exists(w.data + "/"@ + "drives.json"@), ReplyView::Flag(true)),
        (RequestView::Read(w.data + "/"@ + "drives.json"@), ReplyView::Text(content)),
        (RequestView::DecodeDrives(content), ReplyView::Failed(cause)),
    ];
    lemma_paths(w.data, "drives.json"@);
    assert(
        came(
            whole,
            log,
            at,
            t0,
            Err(
                seq![
                    "Failed to parse "@ + "drives.json"@
                        + ". The file may be corrupted. You can delete it at: "@
                        + (w.data + "/"@ + "drives.json"@),
                ] + cause,
            ),
        )
    );
}

/// Without a list there are no drives.
#[verifier::spinoff_prover]
pub proof fn law_no_drives_kept(log: Log, at: int, w: World)
    requires
        settled(w),
        heard(
            log,
            at,
            seq![
                data_asked(w),
                (RequestView::Exists(w.data + "/"@ + "drives.json"@), ReplyView::Flag(false)),
            ],
        ),
    ensures
        came(
            spec_load_virtual_drives(log, at),
            log,
            at,
            seq![
                data_asked(w),
                (RequestView::Exists(w.data + "/"@ + "drives.json"@), ReplyView::Flag(false)),
            ],
            Ok(Seq::<DriveView>::empty()),
        ),
{
    broadcast use {encode_utf8_valid_utf8, encode_utf8_decode_utf8};

    let whole = spec_load_virtual_drives(log, at);
    let t0 = seq![
        data_asked(w),
        (RequestView::Exists(w.data + "/"@ + "drives.json"@), ReplyView::Flag(false)),
    ];
    lemma_paths(w.data, "drives.json"@);
    assert(came(whole, log, at, t0, Ok(Seq::<DriveView>::empty())));
}

/// A list of HID devices that is there and cannot be read is an error, not an
/// empty list.
#[verifier::spinoff_prover]
pub proof fn law_hids_unreadable(log: Log, at: int, w: World, cause: Chain)
    requires
        settled(w),
        heard(
            log,
            at,
            seq![
                data_asked(w),
                (RequestView::Exists(w.data + "/"@ + "hids.json"@), ReplyView::Flag(true)),
                (RequestView::Read(w.data + "/"@ + "hids.json"@), ReplyView::Failed(cause)),
            ],
        ),
    ensures
        came(
            spec_load_hid_devices(log, at),
            log,
            at,
            seq![
                data_asked(w),
                (RequestView::Exists(w.data + "/"@ + "hids.json"@), ReplyView::Flag(true)),
                (RequestView::Read(w.data + "/"@ + "hids.json"@), ReplyView::Failed(cause)),
            ],
            Err(seq!["Failed to read "@ + (w.data + "/"@ + "hids.json"@)] + cause),
        ),
{
    broadcast use {encode_utf8_valid_utf8, encode_utf8_decode_utf8};

    let whole = spec_load_hid_devices(log, at);
    let t0 = seq![
        data_asked(w),
        (RequestView::Exists(w.data + "/"@ + "hids.json"@), ReplyView::Flag(true)),
        (RequestView::Read(w.data + "/"@ + "hids.json"@), ReplyView::Failed(cause)),
    ];
    lemma_paths(w.data, "hids.json"@);
    assert(
        came(
            whole,
            log,
            at,
            t0,
            Err(seq!["Failed to read "@ + (w.data + "/"@ + "hids.json"@)] + cause),
        )
    );
}

/// A list of HID devices that makes no sense is an error, not an empty list.
#[verifier::spinoff_prover]
pub proof fn law_hids_corrupted(log: Log, at: int, w: World, content: Seq<char>, cause: Chain)
    requires
        settled(w),
        heard(
            log,
            at,
            seq![
                data_asked(w),
                (RequestView::Exists(w.data + "/"@ + "hids.json"@), ReplyView::Flag(true)),
                (RequestView::Read(w.data + "/"@ + "hids.json"@), ReplyView::Text(content)),
                (RequestView::DecodeHids(content), ReplyView::Failed(cause)),
            ],
        ),
    ensures
        came(
            spec_load_hid_devices(log, at),
            log,
            at,
            seq![
                data_asked(w),
                (RequestView::Exists(w.data + "/"@ + "hids.json"@), ReplyView::Flag(true)),
                (RequestView::Read(w.data + "/"@ + "hids.json"@), ReplyView::Text(content)),
                (RequestView::DecodeHids(content), ReplyView::Failed(cause)),
            ],
            Err(
                seq![
                    "Failed to parse "@ + "hids.json"@
                        + ". The file may be corrupted. You can delete it at: "@
                        + (w.data + "/"@ + "hids.json"@),
                ] + cause,
            ),
        ),
{
    broadcast use {encode_utf8_valid_utf8, encode_utf8_decode_utf8};

    let whole = spec_load_hid_devices(log, at);
    let t0 = seq![
        data_asked(w),
        (RequestView::Exists(w.data + "/"@ + "hids.json"@), ReplyView::Flag(true)),
        (RequestView::Read(w.data + "/"@ + "hids.json"@), ReplyView::Text(content)),
        (RequestView::DecodeHids(content), ReplyView::Failed(cause)),
    ];
    lemma_paths(w.data, "hids.json"@);
    assert(
        came(
            whole,
            log,
            at,
            t0,
            Err(
                seq![
                    "Failed to parse "@ + "hids.json"@
                        + ". The file may be corrupted. You can delete it at: "@
                        + (w.data + "/"@ + "hids.json"@),
                ] + cause,
            ),
        )
    );
}

/// Without a list there are no HID devices.
#[verifier::spinoff_prover]
pub proof fn law_no_hids_kept(log: Log, at: int, w: World)
    requires
        settled(w),
        heard(
            log,
            at,
            seq![
                data_asked(w),
                (RequestView::Exists(w.data + "/"@ + "hids.json"@), ReplyView::Flag(false)),
            ],
        ),
    ensures
        came(
            spec_load_hid_devices(log, at),
            log,
            at,
            seq![
                data_asked(w),
                (RequestView::Exists(w.data + "/"@ + "hids.json"@), ReplyView::Flag(false)),
            ],
            Ok(Seq::<HidView>::empty()),
        ),
{
    broadcast use {encode_utf8_valid_utf8, encode_utf8_decode_utf8};

    let whole = spec_load_hid_devices(log, at);
    let t0 = seq![
        data_asked(w),
        (RequestView::Exists(w.data + "/"@ + "hids.json"@), ReplyView::Flag(false)),
    ];
    lemma_paths(w.data, "hids.json"@);
    assert(came(whole, log, at, t0, Ok(Seq::<HidView>::empty())));
}

/// What cannot be looked up counts as not there: the active virtual machines, the
/// devices and disks of one, the devices to choose from and the virtual machine
/// that was used last.
pub proof fn law_what_cannot_be_looked_up(log: Log, at: int, vm: Seq<char>, cause: Chain)
    requires
        0 <= at < log.len(),
        log[at] == ReplyView::Failed(cause),
    ensures
        spec_active_vms(log, at) == Outcome::Ready(Seq::<Seq<char>>::empty(), at + 1),
        spec_get_attached_devices(log, at, vm) == Outcome::Ready(
            Seq::<(Seq<char>, Seq<char>)>::empty(),
            at + 1,
        ),
        spec_get_attached_virtual_devices(log, at, vm) == Outcome::Ready(
            Seq::<AttachmentView>::empty(),
            at + 1,
        ),
        spec_any_usb_devices(log, at) == Outcome::Ready(Seq::<UsbView>::empty(), at + 1),
        spec_load_last_vm(log, at) == Outcome::Ready(None::<Seq<char>>, at + 1),
{
}

/// If the virtual machine cannot be remembered, the command goes on all the same.
pub proof fn law_remembering_is_not_needed(
    log: Log,
    at: int,
    n: int,
    vm: Seq<char>,
    vendor_id: Seq<char>,
    product_id: Seq<char>,
    cause: Chain,
)
    requires
        are_ids(vendor_id, product_id),
        spec_save_last_vm(log, at, vm) == Outcome::<()>::Fail(cause, n),
    ensures
        spec_run_tool(log, at, asked(CommandsView::Attach, vm, vendor_id + ":"@ + product_id))
            == ends(spec_attach_device(Front::Tool, log, n, vm, vendor_id, product_id)),
        spec_run_tool(log, at, asked(CommandsView::Detach, vm, vendor_id + ":"@ + product_id))
            == ends(spec_detach_device(Front::Tool, log, n, vm, vendor_id, product_id)),
        spec_run_tool(log, at, asked(CommandsView::Status, vm, vendor_id + ":"@ + product_id))
            == ends(spec_show_status(Front::Tool, log, n, vm, vendor_id, product_id)),
{
    lemma_by_ids(log, n, vm, vendor_id, product_id, false);
    lemma_by_ids(log, n, vm, vendor_id, product_id, true);
}

/// A request that is only told has no failure: whatever is replied, it goes on.
pub proof fn law_telling_goes_on(log: Log, at: int, rq: RequestView)
    requires
        0 <= at < log.len(),
    ensures
        spec_tell(log, at, rq) == Outcome::Ready((), at + 1),
        spec_tell(log, log.len() as int, rq) == Outcome::<()>::Ask(rq),
{
}

// ---------------------------------------------------------------------------
// Daemons
// ---------------------------------------------------------------------------

/// The daemon is started.
pub open spec fn daemon_launched(
    w: World,
    name: Seq<char>,
    vid: Seq<char>,
    pid: Seq<char>,
    program: Seq<char>,
) -> Talk {
    daemon_spawned(w, name, vid, pid, program).take(5)
}

/// The daemon's port is looked for `n` times, every tenth of a second, and is not
/// there.
pub open spec fn port_missed(w: World, name: Seq<char>, n: int) -> Talk
    decreases n,
{
    if n <= 0 {
        seq![]
    } else {
        seq![
            (RequestView::Pause(100), ReplyView::Done),
            data_asked(w),
            (RequestView::Exists(state_file(w, name, ".port"@)), ReplyView::Flag(false)),
        ] + port_missed(w, name, n - 1)
    }
}

/// The daemon's port is looked for, and is there.
pub open spec fn port_seen(w: World, name: Seq<char>) -> Talk {
    seq![
        (RequestView::Pause(100), ReplyView::Done),
        data_asked(w),
        (RequestView::Exists(state_file(w, name, ".port"@)), ReplyView::Flag(true)),
    ]
}

#[verifier::spinoff_prover]
proof fn lemma_port_missed(log: Log, at: int, w: World, name: Seq<char>, n: int, tries: int)
    requires
        settled(w),
        0 <= n <= tries,
        n == tries ==> heard(log, at, port_missed(w, name, n)),
        n < tries ==> heard(log, at, port_missed(w, name, n) + port_seen(w, name)),
    ensures
        n == tries ==> came(
            spec_await_port(log, at, name, tries),
            log,
            at,
            port_missed(w, name, n),
            Ok(false),
        ),
        n < tries ==> came(
            spec_await_port(log, at, name, tries),
            log,
            at,
            port_missed(w, name, n) + port_seen(w, name),
            Ok(true),
        ),
    decreases n,
{
    lemma_paths(w.data, "hid-"@ + name + ".port"@);
    let first = spec_look_for_port(log, at, name);
    let whole = spec_await_port(log, at, name, tries);
    if n > 0 {
        let t = seq![
            (RequestView::Pause(100), ReplyView::Done),
            data_asked(w),
            (RequestView::Exists(state_file(w, name, ".port"@)), ReplyView::Flag(false)),
        ];
        let rest = if n == tries {
            port_missed(w, name, n - 1)
        } else {
            port_missed(w, name, n - 1) + port_seen(w, name)
        };
        assert(port_missed(w, name, n) + port_seen(w, name) =~= t + (port_missed(w, name, n - 1)
            + port_seen(w, name)));
        lemma_heard(log, at, t, rest);
        assert(came(first, log, at, t, Ok(false)));
        if log.len() >= at + 3 {
            lemma_port_missed(log, at + 3, w, name, n - 1, tries - 1);
        }
        lemma_came(first, false, whole, log, at, t, rest, Ok(n < tries));
    } else if tries > 0 {
        assert(port_missed(w, name, n) + port_seen(w, name) =~= port_seen(w, name));
        assert(came(first, log, at, port_seen(w, name), Ok(true)));
    }
}

/// A daemon that is started has five seconds to leave its port; it is looked
/// for ten times a second.
#[verifier::spinoff_prover]
pub proof fn law_daemon_comes_late(
    log: Log,
    at: int,
    w: World,
    name: Seq<char>,
    vid: Seq<char>,
    pid: Seq<char>,
    program: Seq<char>,
    gone: Chain,
    n: int,
)
    requires
        settled(w),
        0 <= n < 50,
        heard(
            log,
            at,
            daemon_absent(w, name, gone) + (
                daemon_launched(w, name, vid, pid, program)
                    + (port_missed(w, name, n) + port_seen(w, name))
            ),
        ),
    ensures
        came(
            spec_start_hid_daemon(log, at, name, vid, pid),
            log,
            at,
            daemon_absent(w, name, gone) + (
                daemon_launched(w, name, vid, pid, program)
                    + (port_missed(w, name, n) + port_seen(w, name))
            ),
            Ok(()),
        ),
{
    broadcast use {encode_utf8_valid_utf8, encode_utf8_decode_utf8};

    let whole = spec_start_hid_daemon(log, at, name, vid, pid);
    let t0 = daemon_absent(w, name, gone);
    let t1 = daemon_launched(w, name, vid, pid, program);
    let t2 = (port_missed(w, name, n) + port_seen(w, name));
    lemma_heard(log, at, t0, t1 + t2);
    lemma_daemon_absent(log, at, w, name, gone);
    assert(came(spec_is_hid_daemon_running(log, at, name), log, at, t0, Ok(false)));
    if log.len() >= at + t0.len() {
        let at1 = at + t0.len();
        lemma_heard(log, at1, t1, t2);
        lemma_paths(w.data, "hid-"@ + name + ".pid"@);
        lemma_paths(w.data, "hid-"@ + name + ".port"@);
        lemma_paths(w.data, "hid-"@ + name + ".sock"@);
        assert(came(spec_spawn_hid_daemon(log, at1, name, vid, pid), log, at1, t1, Ok(())));
        if log.len() >= at1 + t1.len() {
            let at2 = at1 + t1.len();
            lemma_port_missed(log, at2, w, name, n, 50);
            assert(came(whole, log, at2, t2, Ok(())));
        }
        lemma_came(
            spec_spawn_hid_daemon(log, at1, name, vid, pid),
            (),
            whole,
            log,
            at1,
            t1,
            t2,
            Ok(()),
        );
    }
    lemma_came(
        spec_is_hid_daemon_running(log, at, name),
        false,
        whole,
        log,
        at,
        t0,
        t1 + t2,
        Ok(()),
    );
}

/// A daemon that has left no port after five seconds has failed to start.
#[verifier::spinoff_prover]
pub proof fn law_daemon_does_not_come(
    log: Log,
    at: int,
    w: World,
    name: Seq<char>,
    vid: Seq<char>,
    pid: Seq<char>,
    program: Seq<char>,
    gone: Chain,
)
    requires
        settled(w),
        heard(
            log,
            at,
            daemon_absent(w, name, gone) + (
                daemon_launched(w, name, vid, pid, program) + port_missed(w, name, 50)
            ),
        ),
    ensures
        came(
            spec_start_hid_daemon(log, at, name, vid, pid),
            log,
            at,
            daemon_absent(w, name, gone) + (
                daemon_launched(w, name, vid, pid, program) + port_missed(w, name, 50)
            ),
            Err(seq!["HID daemon failed to start (port file not created within 5 seconds)"@]),
        ),
{
    broadcast use {encode_utf8_valid_utf8, encode_utf8_decode_utf8};

    let whole = spec_start_hid_daemon(log, at, name, vid, pid);
    let t0 = daemon_absent(w, name, gone);
    let t1 = daemon_launched(w, name, vid, pid, program);
    let t2 = port_missed(w, name, 50);
    lemma_heard(log, at, t0, t1 + t2);
    lemma_daemon_absent(log, at, w, name, gone);
    assert(came(spec_is_hid_daemon_running(log, at, name), log, at, t0, Ok(false)));
    if log.len() >= at + t0.len() {
        let at1 = at + t0.len();
        lemma_heard(log, at1, t1, t2);
        lemma_paths(w.data, "hid-"@ + name + ".pid"@);
        lemma_paths(w.data, "hid-"@ + name + ".port"@);
        lemma_paths(w.data, "hid-"@ + name + ".sock"@);
        assert(came(spec_spawn_hid_daemon(log, at1, name, vid, pid), log, at1, t1, Ok(())));
        if log.len() >= at1 + t1.len() {
            let at2 = at1 + t1.len();
            lemma_port_missed(log, at2, w, name, 50, 50);
            assert(
                came(
                    whole,
                    log,
                    at2,
                    t2,
                    Err(
                        seq![
                            "HID daemon failed to start (port file not created within 5 seconds)"@,
                        ],
                    ),
                )
            );
        }
        lemma_came(
            spec_spawn_hid_daemon(log, at1, name, vid, pid),
            (),
            whole,
            log,
            at1,
            t1,
            t2,
            Err(seq!["HID daemon failed to start (port file not created within 5 seconds)"@]),
        );
    }
    lemma_came(
        spec_is_hid_daemon_running(log, at, name),
        false,
        whole,
        log,
        at,
        t0,
        t1 + t2,
        Err(seq!["HID daemon failed to start (port file not created within 5 seconds)"@]),
    );
}

/// The host is looked over for the device `n` times, every tenth of a second, and
/// has it not.
pub open spec fn device_missed(before: Seq<char>, n: int) -> Talk
    decreases n,
{
    if n <= 0 {
        seq![]
    } else {
        seq![
            (RequestView::Pause(100), ReplyView::Done),
            run(seq!["lsusb"@], before),
        ] + device_missed(before, n - 1)
    }
}

/// The host is looked over for the device, and has it.
pub open spec fn device_seen(after: Seq<char>) -> Talk {
    seq![(RequestView::Pause(100), ReplyView::Done), run(seq!["lsusb"@], after)]
}

#[verifier::spinoff_prover]
proof fn lemma_device_missed(
    log: Log,
    at: int,
    vid: Seq<char>,
    pid: Seq<char>,
    before: Seq<char>,
    after: Seq<char>,
    n: int,
    tries: int,
)
    requires
        0 <= n <= tries,
        place_of(before, vid, pid, true) is None,
        n < tries ==> place_of(after, vid, pid, true) is Some,
        n == tries ==> heard(log, at, device_missed(before, n)),
        n < tries ==> heard(log, at, device_missed(before, n) + device_seen(after)),
    ensures
        n == tries ==> came(
            spec_await_device(log, at, vid, pid, tries),
            log,
            at,
            device_missed(before, n),
            Ok(None),
        ),
        n < tries ==> came(
            spec_await_device(log, at, vid, pid, tries),
            log,
            at,
            device_missed(before, n) + device_seen(after),
            Ok(place_of(after, vid, pid, true)),
        ),
    decreases n,
{
    broadcast use {encode_utf8_valid_utf8, encode_utf8_decode_utf8};

    let first = spec_look_for_device(log, at, vid, pid);
    let whole = spec_await_device(log, at, vid, pid, tries);
    if n > 0 {
        let t = seq![(RequestView::Pause(100), ReplyView::Done), run(seq!["lsusb"@], before)];
        let rest = if n == tries {
            device_missed(before, n - 1)
        } else {
            device_missed(before, n - 1) + device_seen(after)
        };
        let end: Result<Option<(Seq<char>, Seq<char>)>, Chain> = if n == tries {
            Ok(None)
        } else {
            Ok(place_of(after, vid, pid, true))
        };
        assert(device_missed(before, n) + device_seen(after) =~= t + (device_missed(before, n - 1)
            + device_seen(after)));
        lemma_heard(log, at, t, rest);
        assert(came(first, log, at, t, Ok(None)));
        if log.len() >= at + 2 {
            lemma_device_missed(log, at + 2, vid, pid, before, after, n - 1, tries - 1);
        }
        lemma_came(first, None, whole, log, at, t, rest, end);
    } else if tries > 0 {
        assert(device_missed(before, n) + device_seen(after) =~= device_seen(after));
        assert(came(first, log, at, device_seen(after), Ok(place_of(after, vid, pid, true))));
    }
}

/// A HID device that the host does not have after five seconds is given up.
#[verifier::spinoff_prover]
pub proof fn law_device_does_not_appear(
    log: Log,
    at: int,
    w: World,
    vm: Seq<char>,
    h: HidView,
    before: Seq<char>,
)
    requires
        settled(w),
        place_of(before, normalized(h.vid), normalized(h.pid), true) is None,
        heard(
            log,
            at,
            device_missed(before, 50) + seq![
                data_asked(w),
                (RequestView::Exists(state_file(w, h.name, ".vhci-port"@)), ReplyView::Flag(false)),
            ],
        ),
    ensures
        came(
            spec_pass_on(log, at, vm, h),
            log,
            at,
            device_missed(before, 50) + seq![
                data_asked(w),
                (RequestView::Exists(state_file(w, h.name, ".vhci-port"@)), ReplyView::Flag(false)),
            ],
            Err(
                seq![
                    "Device "@ + (h.vid + ":"@ + h.pid)
                        + " did not appear on the host USB bus after vhci attachment"@,
                ],
            ),
        ),
{
    broadcast use {encode_utf8_valid_utf8, encode_utf8_decode_utf8};

    let whole = spec_pass_on(log, at, vm, h);
    let t0 = device_missed(before, 50);
    let t1 = seq![
        data_asked(w),
        (RequestView::Exists(state_file(w, h.name, ".vhci-port"@)), ReplyView::Flag(false)),
    ];
    lemma_heard(log, at, t0, t1);
    lemma_device_missed(log, at, normalized(h.vid), normalized(h.pid), before, before, 50, 50);
    assert(
        came(
            spec_await_device(log, at, normalized(h.vid), normalized(h.pid), 50),
            log,
            at,
            t0,
            Ok(None),
        )
    );
    if log.len() >= at + t0.len() {
        let at1 = at + t0.len();
        lemma_paths(w.data, "hid-"@ + h.name + ".vhci-port"@);
        assert(
            came(
                whole,
                log,
                at1,
                t1,
                Err(
                    seq![
                        "Device "@ + (h.vid + ":"@ + h.pid)
                            + " did not appear on the host USB bus after vhci attachment"@,
                    ],
                ),
            )
        );
    }
    lemma_came(
        spec_await_device(log, at, normalized(h.vid), normalized(h.pid), 50),
        None,
        whole,
        log,
        at,
        t0,
        t1,
        Err(
            seq![
                "Device "@ + (h.vid + ":"@ + h.pid)
                    + " did not appear on the host USB bus after vhci attachment"@,
            ],
        ),
    );
}

/// A HID device that is given up is unplugged from its port.
#[verifier::spinoff_prover]
pub proof fn law_missing_device_is_unplugged(
    log: Log,
    at: int,
    w: World,
    vm: Seq<char>,
    h: HidView,
    before: Seq<char>,
    rhport: u64,
)
    requires
        settled(w),
        rhport <= 0xffff_ffff,
        place_of(before, normalized(h.vid), normalized(h.pid), true) is None,
        heard(log, at, device_missed(before, 50) + device_unplugged(w, h.name, rhport)),
    ensures
        came(
            spec_pass_on(log, at, vm, h),
            log,
            at,
            device_missed(before, 50) + device_unplugged(w, h.name, rhport),
            Err(
                seq![
                    "Device "@ + (h.vid + ":"@ + h.pid)
                        + " did not appear on the host USB bus after vhci attachment"@,
                ],
            ),
        ),
{
    broadcast use {encode_utf8_valid_utf8, encode_utf8_decode_utf8};

    let whole = spec_pass_on(log, at, vm, h);
    let t0 = device_missed(before, 50);
    let t1 = device_unplugged(w, h.name, rhport);
    lemma_heard(log, at, t0, t1);
    lemma_device_missed(log, at, normalized(h.vid), normalized(h.pid), before, before, 50, 50);
    assert(
        came(
            spec_await_device(log, at, normalized(h.vid), normalized(h.pid), 50),
            log,
            at,
            t0,
            Ok(None),
        )
    );
    if log.len() >= at + t0.len() {
        let at1 = at + t0.len();
        lemma_device_unplugged(log, at1, w, h.name, rhport);
        assert(
            came(
                whole,
                log,
                at1,
                t1,
                Err(
                    seq![
                        "Device "@ + (h.vid + ":"@ + h.pid)
                            + " did not appear on the host USB bus after vhci attachment"@,
                    ],
                ),
            )
        );
    }
    lemma_came(
        spec_await_device(log, at, normalized(h.vid), normalized(h.pid), 50),
        None,
        whole,
        log,
        at,
        t0,
        t1,
        Err(
            seq![
                "Device "@ + (h.vid + ":"@ + h.pid)
                    + " did not appear on the host USB bus after vhci attachment"@,
            ],
        ),
    );
}

/// The host has five seconds to see a HID device that was plugged in; it is
/// then made ready and handed to the virtual machine.
#[verifier::spinoff_prover]
pub proof fn law_device_comes_late(
    log: Log,
    at: int,
    w: World,
    vm: Seq<char>,
    h: HidView,
    before: Seq<char>,
    after: Seq<char>,
    bus: Seq<char>,
    device: Seq<char>,
    n: int,
    d: UsbView,
)
    requires
        settled(w),
        0 <= n < 50,
        place_of(before, normalized(h.vid), normalized(h.pid), true) is None,
        place_of(after, normalized(h.vid), normalized(h.pid), true) == Some((bus, device)),
        lists_vm(w.unpaused, vm),
        !hostdevs_in(w.xml).contains((normalized(h.vid), normalized(h.pid))),
        device_with(
            usb_listed(lines_of(w.lsusb), true),
            normalized(h.vid),
            normalized(h.pid),
        ) == Some(d),
        heard(
            log,
            at,
            (device_missed(before, n) + device_seen(after)) + (
                device_readied(bus, device)
                    + usb_attached(w, vm, normalized(h.vid), normalized(h.pid), d.name)
            ),
        ),
    ensures
        came(
            spec_pass_on(log, at, vm, h),
            log,
            at,
            (device_missed(before, n) + device_seen(after)) + (
                device_readied(bus, device)
                    + usb_attached(w, vm, normalized(h.vid), normalized(h.pid), d.name)
            ),
            Ok(()),
        ),
{
    broadcast use {encode_utf8_valid_utf8, encode_utf8_decode_utf8};

    let whole = spec_pass_on(log, at, vm, h);
    let t0 = (device_missed(before, n) + device_seen(after));
    let t1 = device_readied(bus, device);
    let t2 = usb_attached(w, vm, normalized(h.vid), normalized(h.pid), d.name);
    lemma_heard(log, at, t0, t1 + t2);
    lemma_device_missed(log, at, normalized(h.vid), normalized(h.pid), before, after, n, 50);
    assert(
        came(
            spec_await_device(log, at, normalized(h.vid), normalized(h.pid), 50),
            log,
            at,
            t0,
            Ok(Some((bus, device))),
        )
    );
    if log.len() >= at + t0.len() {
        let at1 = at + t0.len();
        lemma_heard(log, at1, t1, t2);
        assert(came(readying(log, at1, bus, device), log, at1, t1, Ok(())));
        if log.len() >= at1 + t1.len() {
            let at2 = at1 + t1.len();
            lemma_usb_attached(
                log,
                at2,
                Front::Tool,
                w,
                vm,
                normalized(h.vid),
                normalized(h.pid),
                d,
            );
            assert(came(whole, log, at2, t2, Ok(())));
        }
        lemma_came(readying(log, at1, bus, device), (), whole, log, at1, t1, t2, Ok(()));
    }
    lemma_came(
        spec_await_device(log, at, normalized(h.vid), normalized(h.pid), 50),
        Some((bus, device)),
        whole,
        log,
        at,
        t0,
        t1 + t2,
        Ok(()),
    );
}

/// The controller is in one of two places, and the first that is there is taken.
pub proof fn law_controller_is_found(log: Log, at: int)
    requires
        0 <= at,
    ensures
        at == log.len() ==> spec_find_vhci_sysfs_dir(log, at) == Outcome::<Seq<char>>::Ask(
            RequestView::Exists("/sys/bus/platform/drivers/vhci_hcd/vhci_hcd.0"@),
        ),
        at < log.len() && log[at] == ReplyView::Flag(true) ==> spec_find_vhci_sysfs_dir(log, at)
            == Outcome::Ready("/sys/bus/platform/drivers/vhci_hcd/vhci_hcd.0"@, at + 1),
        at + 1 == log.len() && log[at] == ReplyView::Flag(false) ==> spec_find_vhci_sysfs_dir(
            log,
            at,
        ) == Outcome::<Seq<char>>::Ask(
            RequestView::Exists("/sys/bus/platform/drivers/vhci_hcd/vhci_hcd"@),
        ),
        at + 1 < log.len() && log[at] == ReplyView::Flag(false) && log[at + 1] == ReplyView::Flag(
            true,
        ) ==> spec_find_vhci_sysfs_dir(log, at) == Outcome::Ready(
            "/sys/bus/platform/drivers/vhci_hcd/vhci_hcd"@,
            at + 2,
        ),
        at + 1 < log.len() && log[at] == ReplyView::Flag(false) && log[at + 1] == ReplyView::Flag(
            false,
        ) ==> spec_find_vhci_sysfs_dir(log, at) is Fail,
{
}

/// A HID device that was not plugged in needs no unplugging.
#[verifier::spinoff_prover]
pub proof fn law_no_port_to_unplug(log: Log, at: int, w: World, name: Seq<char>)
    requires
        settled(w),
        heard(
            log,
            at,
            seq![
                data_asked(w),
                (RequestView::Exists(state_file(w, name, ".vhci-port"@)), ReplyView::Flag(false)),
            ],
        ),
    ensures
        came(
            spec_detach_vhci(log, at, name),
            log,
            at,
            seq![
                data_asked(w),
                (RequestView::Exists(state_file(w, name, ".vhci-port"@)), ReplyView::Flag(false)),
            ],
            Ok(()),
        ),
{
    broadcast use {encode_utf8_valid_utf8, encode_utf8_decode_utf8};

    let whole = spec_detach_vhci(log, at, name);
    let t0 = seq![
        data_asked(w),
        (RequestView::Exists(state_file(w, name, ".vhci-port"@)), ReplyView::Flag(false)),
    ];
    lemma_paths(w.data, "hid-"@ + name + ".vhci-port"@);
    assert(came(whole, log, at, t0, Ok(())));
}

/// If the daemon does not grant its device, the connection is closed, and the
/// status is told.
#[verifier::spinoff_prover]
pub proof fn law_refused_import(
    log: Log,
    at: int,
    w: World,
    name: Seq<char>,
    port: u64,
    header: Seq<u8>,
)
    requires
        settled(w),
        port <= 0xffff,
        header.len() == 8,
        header[4] != 0 || header[5] != 0 || header[6] != 0 || header[7] != 0,
        heard(
            log,
            at,
            daemon_reached(w, name, port) + seq![
                (RequestView::Send(import_bytes()), ReplyView::Done),
                (RequestView::Receive(8), ReplyView::Bytes(header)),
                (RequestView::HangUp, ReplyView::Done),
            ],
        ),
    ensures
        came(
            spec_connect_device(log, at, name),
            log,
            at,
            daemon_reached(w, name, port) + seq![
                (RequestView::Send(import_bytes()), ReplyView::Done),
                (RequestView::Receive(8), ReplyView::Bytes(header)),
                (RequestView::HangUp, ReplyView::Done),
            ],
            Err(
                seq![
                    "USB/IP daemon rejected IMPORT (status="@ + decimal(
                        header[4] * 0x100_0000 + header[5] * 0x1_0000 + header[6] * 0x100
                            + header[7],
                    ) + ")"@,
                ],
            ),
        ),
{
    broadcast use {encode_utf8_valid_utf8, encode_utf8_decode_utf8};

    let whole = spec_connect_device(log, at, name);
    let t0 = daemon_reached(w, name, port);
    let t1 = seq![
        (RequestView::Send(import_bytes()), ReplyView::Done),
        (RequestView::Receive(8), ReplyView::Bytes(header)),
        (RequestView::HangUp, ReplyView::Done),
    ];
    lemma_heard(log, at, t0, t1);
    lemma_daemon_reached(log, at, w, name, port);
    assert(came(spec_reach_daemon(log, at, name), log, at, t0, Ok(())));
    if log.len() >= at + t0.len() {
        let at1 = at + t0.len();
        lemma_import_bytes();
        assert(
            came(
                whole,
                log,
                at1,
                t1,
                Err(
                    seq![
                        "USB/IP daemon rejected IMPORT (status="@ + decimal(
                            header[4] * 0x100_0000 + header[5] * 0x1_0000 + header[6] * 0x100
                                + header[7],
                        ) + ")"@,
                    ],
                ),
            )
        );
    }
    lemma_came(
        spec_reach_daemon(log, at, name),
        (),
        whole,
        log,
        at,
        t0,
        t1,
        Err(
            seq![
                "USB/IP daemon rejected IMPORT (status="@ + decimal(
                    header[4] * 0x100_0000 + header[5] * 0x1_0000 + header[6] * 0x100 + header[7],
                ) + ")"@,
            ],
        ),
    );
}

/// Without the module of the controller no HID device is attached, and no
/// daemon is started.
#[verifier::spinoff_prover]
pub proof fn law_controller_module_missing(
    log: Log,
    at: int,
    w: World,
    vm: Seq<char>,
    h: HidView,
    out: Seq<u8>,
    err: Seq<char>,
)
    requires
        heard(log, at, seq![fails(seq!["modprobe"@, "vhci-hcd"@], out, err)]),
    ensures
        came(
            spec_hand_hid(log, at, vm, h),
            log,
            at,
            seq![fails(seq!["modprobe"@, "vhci-hcd"@], out, err)],
            Err(
                seq![
                    "Failed to load vhci-hcd module — make sure it's available"@,
                    blamed("modprobe"@ + " "@ + "vhci-hcd"@, err),
                ],
            ),
        ),
{
    broadcast use {encode_utf8_valid_utf8, encode_utf8_decode_utf8};

    let whole = spec_hand_hid(log, at, vm, h);
    let t0 = seq![fails(seq!["modprobe"@, "vhci-hcd"@], out, err)];
    lemma_joined2("modprobe"@, "vhci-hcd"@);
    assert(
        seq!["Failed to load vhci-hcd module — make sure it's available"@]
            + seq![blamed("modprobe"@ + " "@ + "vhci-hcd"@, err)] =~= seq![
                "Failed to load vhci-hcd module — make sure it's available"@,
                blamed("modprobe"@ + " "@ + "vhci-hcd"@, err),
            ]
    );
    assert(
        came(
            whole,
            log,
            at,
            t0,
            Err(
                seq![
                    "Failed to load vhci-hcd module — make sure it's available"@,
                    blamed("modprobe"@ + " "@ + "vhci-hcd"@, err),
                ],
            ),
        )
    );
}

/// Whatever goes wrong once the daemon runs, the daemon is ended and its state
/// files are removed before the failure is reported.
#[verifier::spinoff_prover]
pub proof fn law_failed_transfer_stops_the_daemon(
    log: Log,
    at: int,
    w: World,
    vm: Seq<char>,
    h: HidView,
    id: u64,
    t: Talk,
    cause: Chain,
)
    requires
        settled(w),
        id <= 0xffff_ffff,
        forall|from: int|
            #[trigger] heard(log, from, t)
                ==> came(spec_bring_over(log, from, vm, h), log, from, t, Err(cause)),
        heard(
            log,
            at,
            seq![run(seq!["modprobe"@, "vhci-hcd"@], w.said)] + (
                daemon_known(w, h.name, id, true)
                    + (t + (daemon_killed(w, h.name, id) + state_removed(w, h.name)))
            ),
        ),
    ensures
        came(
            spec_hand_hid(log, at, vm, h),
            log,
            at,
            seq![run(seq!["modprobe"@, "vhci-hcd"@], w.said)] + (
                daemon_known(w, h.name, id, true)
                    + (t + (daemon_killed(w, h.name, id) + state_removed(w, h.name)))
            ),
            Err(cause),
        ),
{
    broadcast use {encode_utf8_valid_utf8, encode_utf8_decode_utf8};

    let whole = spec_hand_hid(log, at, vm, h);
    let t0 = seq![run(seq!["modprobe"@, "vhci-hcd"@], w.said)];
    let t1 = daemon_known(w, h.name, id, true);
    let t2 = t;
    let t3 = (daemon_killed(w, h.name, id) + state_removed(w, h.name));
    lemma_heard(log, at, t0, t1 + (t2 + t3));
    assert(
        came(
            in_context(
                spec_run_command(log, at, seq!["modprobe"@, "vhci-hcd"@]),
                "Failed to load vhci-hcd module — make sure it's available"@,
            ),
            log,
            at,
            t0,
            Ok(w.said),
        )
    );
    if log.len() >= at + t0.len() {
        let at1 = at + t0.len();
        lemma_heard(log, at1, t1, t2 + t3);
        lemma_daemon_known(log, at1, w, h.name, id, true);
        assert(came(spec_start_hid_daemon(log, at1, h.name, h.vid, h.pid), log, at1, t1, Ok(())));
        if log.len() >= at1 + t1.len() {
            let at2 = at1 + t1.len();
            lemma_heard(log, at2, t2, t3);
            assert(
                came(spec_fault(spec_bring_over(log, at2, vm, h)), log, at2, t2, Ok(Some(cause)))
            );
            if log.len() >= at2 + t2.len() {
                let at3 = at2 + t2.len();
                lemma_daemon_killed(log, at3, w, h.name, id);
                assert(came(whole, log, at3, t3, Err(cause)));
            }
            lemma_came(
                spec_fault(spec_bring_over(log, at2, vm, h)),
                Some(cause),
                whole,
                log,
                at2,
                t2,
                t3,
                Err(cause),
            );
        }
        lemma_came(
            spec_start_hid_daemon(log, at1, h.name, h.vid, h.pid),
            (),
            whole,
            log,
            at1,
            t1,
            t2 + t3,
            Err(cause),
        );
    }
    lemma_came(
        in_context(
            spec_run_command(log, at, seq!["modprobe"@, "vhci-hcd"@]),
            "Failed to load vhci-hcd module — make sure it's available"@,
        ),
        w.said,
        whole,
        log,
        at,
        t0,
        t1 + (t2 + t3),
        Err(cause),
    );
}

/// Detaching also ends a daemon whose device the virtual machine has not: the
/// device is unplugged and the daemon ended.
#[verifier::spinoff_prover]
pub proof fn law_leftover_daemon_is_ended(
    log: Log,
    at: int,
    w: World,
    vm: Seq<char>,
    h: HidView,
    rhport: u64,
    id: u64,
)
    requires
        settled(w),
        rhport <= 0xffff_ffff,
        id <= 0xffff_ffff,
        !hostdevs_in(w.xml).contains((normalized(h.vid), normalized(h.pid))),
        heard(
            log,
            at,
            seq![described(w, vm)] + (
                daemon_known(w, h.name, id, true)
                    + (
                        seq![described(w, vm)]
                            + (
                                device_unplugged(w, h.name, rhport)
                                    + (
                                        (daemon_killed(w, h.name, id) + state_removed(w, h.name))
                                            + seq![
                                                told(
                                                    line().push(bold_green("✓"@)).push(
                                                        plain(" Detached HID device "@),
                                                    ).push(cyan(h.name)).push(plain(" from "@)).push(yellow(vm)),
                                                ),
                                            ]
                                    )
                            )
                    )
            ),
        ),
    ensures
        came(
            spec_take_hid(log, at, vm, h),
            log,
            at,
            seq![described(w, vm)] + (
                daemon_known(w, h.name, id, true)
                    + (
                        seq![described(w, vm)]
                            + (
                                device_unplugged(w, h.name, rhport)
                                    + (
                                        (daemon_killed(w, h.name, id) + state_removed(w, h.name))
                                            + seq![
                                                told(
                                                    line().push(bold_green("✓"@)).push(
                                                        plain(" Detached HID device "@),
                                                    ).push(cyan(h.name)).push(plain(" from "@)).push(yellow(vm)),
                                                ),
                                            ]
                                    )
                            )
                    )
            ),
            Ok(()),
        ),
{
    broadcast use {encode_utf8_valid_utf8, encode_utf8_decode_utf8};

    let whole = spec_take_hid(log, at, vm, h);
    let t0 = seq![described(w, vm)];
    let t1 = daemon_known(w, h.name, id, true);
    let t2 = (
        seq![described(w, vm)]
            + (
                device_unplugged(w, h.name, rhport)
                    + (
                        (daemon_killed(w, h.name, id) + state_removed(w, h.name))
                            + seq![
                                told(
                                    line().push(bold_green("✓"@)).push(
                                        plain(" Detached HID device "@),
                                    ).push(cyan(h.name)).push(plain(" from "@)).push(yellow(vm)),
                                ),
                            ]
                    )
            )
    );
    lemma_heard(log, at, t0, t1 + t2);
    assert(
        came(
            spec_is_device_attached(log, at, vm, normalized(h.vid), normalized(h.pid)),
            log,
            at,
            t0,
            Ok(false),
        )
    );
    if log.len() >= at + t0.len() {
        let at1 = at + t0.len();
        lemma_heard(log, at1, t1, t2);
        lemma_daemon_known(log, at1, w, h.name, id, true);
        assert(came(spec_is_hid_daemon_running(log, at1, h.name), log, at1, t1, Ok(true)));
        if log.len() >= at1 + t1.len() {
            let at2 = at1 + t1.len();
            lemma_released_unattached(log, at2, w, vm, h, rhport, id);
            assert(came(whole, log, at2, t2, Ok(())));
        }
        lemma_came(
            spec_is_hid_daemon_running(log, at1, h.name),
            true,
            whole,
            log,
            at1,
            t1,
            t2,
            Ok(()),
        );
    }
    lemma_came(
        spec_is_device_attached(log, at, vm, normalized(h.vid), normalized(h.pid)),
        false,
        whole,
        log,
        at,
        t0,
        t1 + t2,
        Ok(()),
    );
}

#[verifier::spinoff_prover]
proof fn lemma_released_unattached(
    log: Log,
    at: int,
    w: World,
    vm: Seq<char>,
    h: HidView,
    rhport: u64,
    id: u64,
)
    requires
        settled(w),
        rhport <= 0xffff_ffff,
        id <= 0xffff_ffff,
        !hostdevs_in(w.xml).contains((normalized(h.vid), normalized(h.pid))),
        heard(
            log,
            at,
            seq![described(w, vm)] + (
                device_unplugged(w, h.name, rhport)
                    + (
                        (daemon_killed(w, h.name, id) + state_removed(w, h.name))
                            + seq![
                                told(
                                    line().push(bold_green("✓"@)).push(
                                        plain(" Detached HID device "@),
                                    ).push(cyan(h.name)).push(plain(" from "@)).push(yellow(vm)),
                                ),
                            ]
                    )
            ),
        ),
    ensures
        came(
            spec_release_hid(log, at, vm, h),
            log,
            at,
            seq![described(w, vm)] + (
                device_unplugged(w, h.name, rhport)
                    + (
                        (daemon_killed(w, h.name, id) + state_removed(w, h.name))
                            + seq![
                                told(
                                    line().push(bold_green("✓"@)).push(
                                        plain(" Detached HID device "@),
                                    ).push(cyan(h.name)).push(plain(" from "@)).push(yellow(vm)),
                                ),
                            ]
                    )
            ),
            Ok(()),
        ),
{
    broadcast use {encode_utf8_valid_utf8, encode_utf8_decode_utf8};

    let whole = spec_release_hid(log, at, vm, h);
    let t0 = seq![described(w, vm)];
    let t1 = device_unplugged(w, h.name, rhport);
    let t2 = (daemon_killed(w, h.name, id) + state_removed(w, h.name));
    let t3 = seq![
        told(
            line().push(bold_green("✓"@)).push(
                plain(" Detached HID device "@),
            ).push(cyan(h.name)).push(plain(" from "@)).push(yellow(vm)),
        ),
    ];
    lemma_heard(log, at, t0, t1 + (t2 + t3));
    assert(
        came(
            spec_is_device_attached(log, at, vm, normalized(h.vid), normalized(h.pid)),
            log,
            at,
            t0,
            Ok(false),
        )
    );
    if log.len() >= at + t0.len() {
        let at1 = at + t0.len();
        lemma_heard(log, at1, t1, t2 + t3);
        lemma_device_unplugged(log, at1, w, h.name, rhport);
        assert(came(spec_detach_vhci(log, at1, h.name), log, at1, t1, Ok(())));
        if log.len() >= at1 + t1.len() {
            let at2 = at1 + t1.len();
            lemma_heard(log, at2, t2, t3);
            lemma_daemon_killed(log, at2, w, h.name, id);
            assert(came(spec_stop_hid_daemon(log, at2, h.name), log, at2, t2, Ok(())));
            if log.len() >= at2 + t2.len() {
                let at3 = at2 + t2.len();
                assert(came(whole, log, at3, t3, Ok(())));
            }
            lemma_came(spec_stop_hid_daemon(log, at2, h.name), (), whole, log, at2, t2, t3, Ok(()));
        }
        lemma_came(spec_detach_vhci(log, at1, h.name), (), whole, log, at1, t1, t2 + t3, Ok(()));
    }
    lemma_came(
        spec_is_device_attached(log, at, vm, normalized(h.vid), normalized(h.pid)),
        false,
        whole,
        log,
        at,
        t0,
        t1 + (t2 + t3),
        Ok(()),
    );
}

/// It is told of a HID device without a daemon that this is inactive; of the
/// attachment nothing is told if the virtual machine is not active.
#[verifier::spinoff_prover]
pub proof fn law_status_of_idle_hid(
    log: Log,
    at: int,
    w: World,
    vm: Seq<char>,
    h: HidView,
    k: int,
    gone: Chain,
)
    requires
        settled(w),
        first_hid(w.hids, h.name, k),
        w.hids[k] == h,
        !lists_vm(w.active, vm),
        heard(
            log,
            at,
            hids_read(w) + (
                seq![active_listed(w), vm_told(vm, false)]
                    + (
                        daemon_absent(w, h.name, gone)
                            + seq![
                                told(
                                    line().push(cyan("⌨"@)).push(plain(" HID Device ("@)).push(cyan(h.name)).push(
                                        plain("): "@ + (h.vid + ":"@ + h.pid) + "  daemon: "@),
                                    ).push(dim("inactive"@)),
                                ),
                            ]
                    )
            ),
        ),
    ensures
        came(
            spec_show_hid_status(log, at, vm, h.name),
            log,
            at,
            hids_read(w) + (
                seq![active_listed(w), vm_told(vm, false)]
                    + (
                        daemon_absent(w, h.name, gone)
                            + seq![
                                told(
                                    line().push(cyan("⌨"@)).push(plain(" HID Device ("@)).push(cyan(h.name)).push(
                                        plain("): "@ + (h.vid + ":"@ + h.pid) + "  daemon: "@),
                                    ).push(dim("inactive"@)),
                                ),
                            ]
                    )
            ),
            Ok(()),
        ),
{
    lemma_hid_from(w.hids, h.name, 0);
    broadcast use {encode_utf8_valid_utf8, encode_utf8_decode_utf8};

    let whole = spec_show_hid_status(log, at, vm, h.name);
    let t0 = hids_read(w);
    let t1 = (
        seq![active_listed(w), vm_told(vm, false)]
            + (
                daemon_absent(w, h.name, gone)
                    + seq![
                        told(
                            line().push(cyan("⌨"@)).push(plain(" HID Device ("@)).push(cyan(h.name)).push(
                                plain("): "@ + (h.vid + ":"@ + h.pid) + "  daemon: "@),
                            ).push(dim("inactive"@)),
                        ),
                    ]
            )
    );
    lemma_heard(log, at, t0, t1);
    lemma_hids_read(log, at, w);
    assert(came(spec_load_hid_devices(log, at), log, at, t0, Ok(w.hids)));
    if log.len() >= at + t0.len() {
        let at1 = at + t0.len();
        lemma_paths(w.data, "hid-"@ + h.name + ".pid"@);
        assert(came(whole, log, at1, t1, Ok(())));
    }
    lemma_came(spec_load_hid_devices(log, at), w.hids, whole, log, at, t0, t1, Ok(()));
}

/// Without a vendor id the daemon does not start.
pub proof fn law_daemon_refuses_bad_ids(
    log: Log,
    at: int,
    other: Option<Seq<char>>,
    name: Seq<char>,
    vid: Seq<char>,
    pid: Seq<char>,
    socket_path: Seq<char>,
    pid_file: Seq<char>,
    port_file: Seq<char>,
)
    requires
        normalized(vid).len() == 0,
    ensures
        spec_run_tool(
            log,
            at,
            asked_only(
                CommandsView::HidDaemon { name, vid, pid, socket_path, pid_file, port_file },
                other,
            ),
        ) == Outcome::<Ending>::Fail(
            seq!["Invalid VID"@, "cannot parse integer from empty string"@],
            at,
        ),
{
}

// ---------------------------------------------------------------------------
// Names and ids
// ---------------------------------------------------------------------------

/// A storage drive that is not in the list is refused before anything else.
#[verifier::spinoff_prover]
pub proof fn law_attach_drive_unknown(log: Log, at: int, w: World, vm: Seq<char>, name: Seq<char>)
    requires
        settled(w),
        no_such_drive(w.drives, name),
        heard(log, at, drives_read(w)),
    ensures
        came(
            spec_attach_virtual_drive(log, at, vm, name),
            log,
            at,
            drives_read(w),
            Err(seq!["No storage drive named '"@ + name + "'"@]),
        ),
{
    lemma_drive_from(w.drives, name, 0);
    broadcast use {encode_utf8_valid_utf8, encode_utf8_decode_utf8};

    let whole = spec_attach_virtual_drive(log, at, vm, name);
    let t0 = drives_read(w);
    lemma_drives_read(log, at, w);
    assert(came(whole, log, at, t0, Err(seq!["No storage drive named '"@ + name + "'"@])));
}

/// A storage drive that is not in the list is refused before anything else.
#[verifier::spinoff_prover]
pub proof fn law_detach_drive_unknown(log: Log, at: int, w: World, vm: Seq<char>, name: Seq<char>)
    requires
        settled(w),
        no_such_drive(w.drives, name),
        heard(log, at, drives_read(w)),
    ensures
        came(
            spec_detach_virtual_drive(log, at, vm, name),
            log,
            at,
            drives_read(w),
            Err(seq!["No storage drive named '"@ + name + "'"@]),
        ),
{
    lemma_drive_from(w.drives, name, 0);
    broadcast use {encode_utf8_valid_utf8, encode_utf8_decode_utf8};

    let whole = spec_detach_virtual_drive(log, at, vm, name);
    let t0 = drives_read(w);
    lemma_drives_read(log, at, w);
    assert(came(whole, log, at, t0, Err(seq!["No storage drive named '"@ + name + "'"@])));
}

/// A storage drive that is not in the list is refused before anything else.
#[verifier::spinoff_prover]
pub proof fn law_status_drive_unknown(log: Log, at: int, w: World, vm: Seq<char>, name: Seq<char>)
    requires
        settled(w),
        no_such_drive(w.drives, name),
        heard(log, at, drives_read(w)),
    ensures
        came(
            spec_show_virtual_status(log, at, vm, name),
            log,
            at,
            drives_read(w),
            Err(seq!["No storage drive named '"@ + name + "'"@]),
        ),
{
    lemma_drive_from(w.drives, name, 0);
    broadcast use {encode_utf8_valid_utf8, encode_utf8_decode_utf8};

    let whole = spec_show_virtual_status(log, at, vm, name);
    let t0 = drives_read(w);
    lemma_drives_read(log, at, w);
    assert(came(whole, log, at, t0, Err(seq!["No storage drive named '"@ + name + "'"@])));
}

/// A HID device that is not in the list is refused before anything else.
#[verifier::spinoff_prover]
pub proof fn law_attach_hid_unknown(log: Log, at: int, w: World, vm: Seq<char>, name: Seq<char>)
    requires
        settled(w),
        no_such_hid(w.hids, name),
        heard(log, at, hids_read(w)),
    ensures
        came(
            spec_attach_hid_device(log, at, vm, name),
            log,
            at,
            hids_read(w),
            Err(seq!["No HID device named '"@ + name + "'"@]),
        ),
{
    lemma_hid_from(w.hids, name, 0);
    broadcast use {encode_utf8_valid_utf8, encode_utf8_decode_utf8};

    let whole = spec_attach_hid_device(log, at, vm, name);
    let t0 = hids_read(w);
    lemma_hids_read(log, at, w);
    assert(came(whole, log, at, t0, Err(seq!["No HID device named '"@ + name + "'"@])));
}

/// A HID device that is not in the list is refused before anything else.
#[verifier::spinoff_prover]
pub proof fn law_detach_hid_unknown(log: Log, at: int, w: World, vm: Seq<char>, name: Seq<char>)
    requires
        settled(w),
        no_such_hid(w.hids, name),
        heard(log, at, hids_read(w)),
    ensures
        came(
            spec_detach_hid_device(log, at, vm, name),
            log,
            at,
            hids_read(w),
            Err(seq!["No HID device named '"@ + name + "'"@]),
        ),
{
    lemma_hid_from(w.hids, name, 0);
    broadcast use {encode_utf8_valid_utf8, encode_utf8_decode_utf8};

    let whole = spec_detach_hid_device(log, at, vm, name);
    let t0 = hids_read(w);
    lemma_hids_read(log, at, w);
    assert(came(whole, log, at, t0, Err(seq!["No HID device named '"@ + name + "'"@])));
}

/// A HID device that is not in the list is refused before anything else.
#[verifier::spinoff_prover]
pub proof fn law_status_hid_unknown(log: Log, at: int, w: World, vm: Seq<char>, name: Seq<char>)
    requires
        settled(w),
        no_such_hid(w.hids, name),
        heard(log, at, hids_read(w)),
    ensures
        came(
            spec_show_hid_status(log, at, vm, name),
            log,
            at,
            hids_read(w),
            Err(seq!["No HID device named '"@ + name + "'"@]),
        ),
{
    lemma_hid_from(w.hids, name, 0);
    broadcast use {encode_utf8_valid_utf8, encode_utf8_decode_utf8};

    let whole = spec_show_hid_status(log, at, vm, name);
    let t0 = hids_read(w);
    lemma_hids_read(log, at, w);
    assert(came(whole, log, at, t0, Err(seq!["No HID device named '"@ + name + "'"@])));
}

/// The console refuses a device with a colon that is not two ids with one colon
/// between them: one of the two is missing, or there is a colon too many.
pub proof fn law_console_refuses_malformed_ids(
    log: Log,
    at: int,
    m: int,
    vm: Seq<char>,
    a: Seq<char>,
    b: Seq<char>,
    c: Seq<char>,
    saved: Option<()>,
    command: crate::console::Commands,
)
    requires
        !a.contains(':'),
        !b.contains(':'),
        !c.contains(':'),
        spec_attempt(spec_save_last_vm(log, at, vm)) == Outcome::Ready(saved, m),
    ensures
        a.len() == 0 || b.len() == 0 ==> spec_run(
            log,
            at,
            told_to(command, Some(vm), Some(a + seq![':'] + b)),
        ) == Outcome::<()>::Fail(
            seq![
                "Invalid device ID format. Expected format: vendor:product (e.g., 0dd4:4105) or device name"@,
            ],
            m,
        ),
        spec_run(log, at, told_to(command, Some(vm), Some(a + seq![':'] + (b + seq![':'] + c))))
            == Outcome::<()>::Fail(
            seq![
                "Invalid device ID format. Expected format: vendor:product (e.g., 0dd4:4105) or device name"@,
            ],
            m,
        ),
{
    let two = a + seq![':'] + b;
    let rest = b + seq![':'] + c;
    let three = a + seq![':'] + rest;
    assert(two[a.len() as int] == ':');
    assert(three[a.len() as int] == ':');
    law_pieces_stand_between_separators(a, b, ':');
    law_pieces_stand_between_separators(a, rest, ':');
    law_pieces_stand_between_separators(b, c, ':');
    law_pieces_stand_between_separators(c, c, ':');
    assert(pieces_of(two, ':') =~= seq![a, b]);
    assert(pieces_of(three, ':') =~= seq![a, b, c]);
}

// ---------------------------------------------------------------------------
// Answers that fail
// ---------------------------------------------------------------------------

/// If the user picks no virtual machine, none is taken.
#[verifier::spinoff_prover]
pub proof fn law_no_machine_selected(
    log: Log,
    at: int,
    w: World,
    vms: Seq<Seq<char>>,
    last: Seq<char>,
    start: int,
    cause: Chain,
)
    requires
        settled(w),
        vms == names_listed(lines_of(w.all)),
        vms.len() > 0,
        starts_at(vms, last, start),
        heard(
            log,
            at,
            seq![
                run(seq!["virsh"@, "list"@, "--all"@, "--name"@], w.all),
                (RequestView::ConfigDir, ReplyView::Text(w.config)),
                (RequestView::Read(w.config + "/"@ + "last_vm"@), ReplyView::Text(last)),
                (
                    RequestView::Choose(
                        line().push(cyan("🖥"@)).push(plain(" Select a VM"@)),
                        Seq::new(vms.len(), |j: int| line().push(plain(vms[j]))),
                        start,
                    ), ReplyView::Failed(cause)
                ),
            ],
        ),
    ensures
        came(
            spec_select_vm(log, at),
            log,
            at,
            seq![
                run(seq!["virsh"@, "list"@, "--all"@, "--name"@], w.all),
                (RequestView::ConfigDir, ReplyView::Text(w.config)),
                (RequestView::Read(w.config + "/"@ + "last_vm"@), ReplyView::Text(last)),
                (
                    RequestView::Choose(
                        line().push(cyan("🖥"@)).push(plain(" Select a VM"@)),
                        Seq::new(vms.len(), |j: int| line().push(plain(vms[j]))),
                        start,
                    ), ReplyView::Failed(cause)
                ),
            ],
            Err(seq!["Failed to select VM"@] + cause),
        ),
{
    broadcast use {encode_utf8_valid_utf8, encode_utf8_decode_utf8};

    let whole = spec_select_vm(log, at);
    let t0 = seq![
        run(seq!["virsh"@, "list"@, "--all"@, "--name"@], w.all),
        (RequestView::ConfigDir, ReplyView::Text(w.config)),
        (RequestView::Read(w.config + "/"@ + "last_vm"@), ReplyView::Text(last)),
        (
            RequestView::Choose(
                line().push(cyan("🖥"@)).push(plain(" Select a VM"@)),
                Seq::new(vms.len(), |j: int| line().push(plain(vms[j]))),
                start,
            ), ReplyView::Failed(cause)
        ),
    ];
    lemma_paths(w.config, "last_vm"@);
    lemma_starts_at(vms, last, 0);
    assert(plain_lines(vms) =~= Seq::new(vms.len(), |j: int| line().push(plain(vms[j]))));
    assert(came(whole, log, at, t0, Err(seq!["Failed to select VM"@] + cause)));
}

/// A definition that cannot be written is not handed to `virsh`.
#[verifier::spinoff_prover]
pub proof fn law_unwritten_definition(
    log: Log,
    at: int,
    w: World,
    verb: Seq<char>,
    vm: Seq<char>,
    file: Seq<char>,
    xml: Seq<char>,
    cause: Chain,
)
    requires
        heard(log, at, seq![(RequestView::Write(file, xml), ReplyView::Failed(cause))]),
    ensures
        came(
            spec_hand_over(log, at, verb, vm, file, xml),
            log,
            at,
            seq![(RequestView::Write(file, xml), ReplyView::Failed(cause))],
            Err(seq!["Failed to write temporary XML file"@] + cause),
        ),
{
    broadcast use {encode_utf8_valid_utf8, encode_utf8_decode_utf8};

    let whole = spec_hand_over(log, at, verb, vm, file, xml);
    let t0 = seq![(RequestView::Write(file, xml), ReplyView::Failed(cause))];
    assert(came(whole, log, at, t0, Err(seq!["Failed to write temporary XML file"@] + cause)));
}

/// A daemon that cannot be connected with is told of; there is no connection to
/// close.
#[verifier::spinoff_prover]
pub proof fn law_unreachable_daemon(
    log: Log,
    at: int,
    w: World,
    name: Seq<char>,
    port: u64,
    cause: Chain,
)
    requires
        settled(w),
        port <= 0xffff,
        heard(
            log,
            at,
            seq![
                data_asked(w),
                (
                    RequestView::Read(
                        state_file(w, name, ".port"@),
                    ), ReplyView::Text(decimal(port as int))
                ),
                (RequestView::Connect(port), ReplyView::Failed(cause)),
            ],
        ),
    ensures
        came(
            spec_connect_device(log, at, name),
            log,
            at,
            seq![
                data_asked(w),
                (
                    RequestView::Read(
                        state_file(w, name, ".port"@),
                    ), ReplyView::Text(decimal(port as int))
                ),
                (RequestView::Connect(port), ReplyView::Failed(cause)),
            ],
            Err(seq!["Failed to connect to HID daemon"@] + cause),
        ),
{
    broadcast use {encode_utf8_valid_utf8, encode_utf8_decode_utf8};

    let whole = spec_connect_device(log, at, name);
    let t0 = seq![
        data_asked(w),
        (RequestView::Read(state_file(w, name, ".port"@)), ReplyView::Text(decimal(port as int))),
        (RequestView::Connect(port), ReplyView::Failed(cause)),
    ];
    lemma_paths(w.data, "hid-"@ + name + ".port"@);
    law_kept_number_is_read_back(at + 2, port, 0xffff, "Invalid port in daemon port file"@);
    assert(came(whole, log, at, t0, Err(seq!["Failed to connect to HID daemon"@] + cause)));
}

/// A daemon that has left no port is told of.
#[verifier::spinoff_prover]
pub proof fn law_daemon_without_port(log: Log, at: int, w: World, name: Seq<char>, cause: Chain)
    requires
        settled(w),
        heard(
            log,
            at,
            seq![
                data_asked(w),
                (RequestView::Read(state_file(w, name, ".port"@)), ReplyView::Failed(cause)),
            ],
        ),
    ensures
        came(
            spec_connect_device(log, at, name),
            log,
            at,
            seq![
                data_asked(w),
                (RequestView::Read(state_file(w, name, ".port"@)), ReplyView::Failed(cause)),
            ],
            Err(seq!["Daemon port file not found — daemon not running?"@] + cause),
        ),
{
    broadcast use {encode_utf8_valid_utf8, encode_utf8_decode_utf8};

    let whole = spec_connect_device(log, at, name);
    let t0 = seq![
        data_asked(w),
        (RequestView::Read(state_file(w, name, ".port"@)), ReplyView::Failed(cause)),
    ];
    lemma_paths(w.data, "hid-"@ + name + ".port"@);
    assert(
        came(
            whole,
            log,
            at,
            t0,
            Err(seq!["Daemon port file not found — daemon not running?"@] + cause),
        )
    );
}

/// If the device cannot be asked for, the connection is closed.
#[verifier::spinoff_prover]
pub proof fn law_unsent_request(
    log: Log,
    at: int,
    w: World,
    name: Seq<char>,
    port: u64,
    cause: Chain,
)
    requires
        settled(w),
        port <= 0xffff,
        heard(
            log,
            at,
            daemon_reached(w, name, port) + seq![
                (RequestView::Send(import_bytes()), ReplyView::Failed(cause)),
                (RequestView::HangUp, ReplyView::Done),
            ],
        ),
    ensures
        came(
            spec_connect_device(log, at, name),
            log,
            at,
            daemon_reached(w, name, port) + seq![
                (RequestView::Send(import_bytes()), ReplyView::Failed(cause)),
                (RequestView::HangUp, ReplyView::Done),
            ],
            Err(seq!["Failed to send IMPORT request"@] + cause),
        ),
{
    broadcast use {encode_utf8_valid_utf8, encode_utf8_decode_utf8};

    let whole = spec_connect_device(log, at, name);
    let t0 = daemon_reached(w, name, port);
    let t1 = seq![
        (RequestView::Send(import_bytes()), ReplyView::Failed(cause)),
        (RequestView::HangUp, ReplyView::Done),
    ];
    lemma_heard(log, at, t0, t1);
    lemma_daemon_reached(log, at, w, name, port);
    assert(came(spec_reach_daemon(log, at, name), log, at, t0, Ok(())));
    if log.len() >= at + t0.len() {
        let at1 = at + t0.len();
        lemma_import_bytes();
        assert(came(whole, log, at1, t1, Err(seq!["Failed to send IMPORT request"@] + cause)));
    }
    lemma_came(
        spec_reach_daemon(log, at, name),
        (),
        whole,
        log,
        at,
        t0,
        t1,
        Err(seq!["Failed to send IMPORT request"@] + cause),
    );
}

/// If the daemon does not answer, the connection is closed.
#[verifier::spinoff_prover]
pub proof fn law_unanswered_request(
    log: Log,
    at: int,
    w: World,
    name: Seq<char>,
    port: u64,
    cause: Chain,
)
    requires
        settled(w),
        port <= 0xffff,
        heard(
            log,
            at,
            daemon_reached(w, name, port) + seq![
                (RequestView::Send(import_bytes()), ReplyView::Done),
                (RequestView::Receive(8), ReplyView::Failed(cause)),
                (RequestView::HangUp, ReplyView::Done),
            ],
        ),
    ensures
        came(
            spec_connect_device(log, at, name),
            log,
            at,
            daemon_reached(w, name, port) + seq![
                (RequestView::Send(import_bytes()), ReplyView::Done),
                (RequestView::Receive(8), ReplyView::Failed(cause)),
                (RequestView::HangUp, ReplyView::Done),
            ],
            Err(seq!["Failed to read IMPORT reply"@] + cause),
        ),
{
    broadcast use {encode_utf8_valid_utf8, encode_utf8_decode_utf8};

    let whole = spec_connect_device(log, at, name);
    let t0 = daemon_reached(w, name, port);
    let t1 = seq![
        (RequestView::Send(import_bytes()), ReplyView::Done),
        (RequestView::Receive(8), ReplyView::Failed(cause)),
        (RequestView::HangUp, ReplyView::Done),
    ];
    lemma_heard(log, at, t0, t1);
    lemma_daemon_reached(log, at, w, name, port);
    assert(came(spec_reach_daemon(log, at, name), log, at, t0, Ok(())));
    if log.len() >= at + t0.len() {
        let at1 = at + t0.len();
        lemma_import_bytes();
        assert(came(whole, log, at1, t1, Err(seq!["Failed to read IMPORT reply"@] + cause)));
    }
    lemma_came(
        spec_reach_daemon(log, at, name),
        (),
        whole,
        log,
        at,
        t0,
        t1,
        Err(seq!["Failed to read IMPORT reply"@] + cause),
    );
}

/// Without a free port nothing is plugged in, and no port is kept.
#[verifier::spinoff_prover]
pub proof fn law_no_free_port(log: Log, at: int, w: World, name: Seq<char>, status: Seq<char>)
    requires
        free_port(status) is None,
        heard(
            log,
            at,
            seq![
                (RequestView::Exists(controller()), ReplyView::Flag(true)),
                (RequestView::Exists(controller()), ReplyView::Flag(true)),
                (RequestView::Read(controller() + "/"@ + "status"@), ReplyView::Text(status)),
            ],
        ),
    ensures
        came(
            spec_plug_in(log, at, name),
            log,
            at,
            seq![
                (RequestView::Exists(controller()), ReplyView::Flag(true)),
                (RequestView::Exists(controller()), ReplyView::Flag(true)),
                (RequestView::Read(controller() + "/"@ + "status"@), ReplyView::Text(status)),
            ],
            Err(seq!["No free vhci_hcd ports available"@]),
        ),
{
    broadcast use {encode_utf8_valid_utf8, encode_utf8_decode_utf8};

    let whole = spec_plug_in(log, at, name);
    let t0 = seq![
        (RequestView::Exists(controller()), ReplyView::Flag(true)),
        (RequestView::Exists(controller()), ReplyView::Flag(true)),
        (RequestView::Read(controller() + "/"@ + "status"@), ReplyView::Text(status)),
    ];
    lemma_controller("status"@);
    assert(came(whole, log, at, t0, Err(seq!["No free vhci_hcd ports available"@])));
}

/// If the controller does not take the device, the mode of its file is looked
/// up, to be told.
#[verifier::spinoff_prover]
pub proof fn law_plugging_refused(
    log: Log,
    at: int,
    w: World,
    rhport: u64,
    sockfd: u64,
    mode: Option<u64>,
    cause: Chain,
)
    requires
        heard(log, at, seq![
                (
                    RequestView::Write(
                        controller() + "/"@ + "attach"@,
                        decimal(rhport as int) + " "@ + decimal(sockfd as int) + " "@
                            + decimal(65537)
                            + " "@ + decimal(2) + "\n"@,
                    ),
                    ReplyView::Failed(cause),
                ),
                (
                    RequestView::Mode(controller() + "/"@ + "attach"@),
                    match mode {
                        Some(bits) => ReplyView::Number(bits),
                        None => ReplyView::Failed(cause),
                    },
                ),
            ]),
    ensures
        came(
            spec_attach_vhci(log, at, controller(), rhport, sockfd),
            log,
            at,
            seq![
                (
                    RequestView::Write(
                        controller() + "/"@ + "attach"@,
                        decimal(rhport as int) + " "@ + decimal(sockfd as int) + " "@
                            + decimal(65537)
                            + " "@ + decimal(2) + "\n"@,
                    ),
                    ReplyView::Failed(cause),
                ),
                (
                    RequestView::Mode(controller() + "/"@ + "attach"@),
                    match mode {
                        Some(bits) => ReplyView::Number(bits),
                        None => ReplyView::Failed(cause),
                    },
                ),
            ],
            Err(
                seq![
                    "Failed to write to vhci_hcd attach ("@ + (controller() + "/"@ + "attach"@)
                        + ")\n  Permissions: "@ + (match mode {
                        Some(bits) => numeral(bits as int, 8),
                        None => "unknown"@,
                    })
                        + "\n  Make sure your user is in the 'plugdev' group and the udev rule is installed:\n  sudo usermod -aG plugdev $USER\n  echo 'SUBSYSTEM==\"platform\", DRIVER==\"vhci_hcd\", RUN+=\"/bin/sh -c \\'chown root:plugdev /sys%p/attach /sys%p/detach && chmod 0660 /sys%p/attach /sys%p/detach\\'\"' | sudo tee /etc/udev/rules.d/99-virsh-usb.rules"@,
                ] + cause,
            ),
        ),
{
    broadcast use {encode_utf8_valid_utf8, encode_utf8_decode_utf8};

    let whole = spec_attach_vhci(log, at, controller(), rhport, sockfd);
    let t0 = seq![
                (
                    RequestView::Write(
                        controller() + "/"@ + "attach"@,
                        decimal(rhport as int) + " "@ + decimal(sockfd as int) + " "@
                            + decimal(65537)
                            + " "@ + decimal(2) + "\n"@,
                    ),
                    ReplyView::Failed(cause),
                ),
                (
                    RequestView::Mode(controller() + "/"@ + "attach"@),
                    match mode {
                        Some(bits) => ReplyView::Number(bits),
                        None => ReplyView::Failed(cause),
                    },
                ),
            ];
    lemma_controller("attach"@);
    assert(came(whole, log, at, t0, Err(
                seq![
                    "Failed to write to vhci_hcd attach ("@ + (controller() + "/"@ + "attach"@)
                        + ")\n  Permissions: "@ + (match mode {
                        Some(bits) => numeral(bits as int, 8),
                        None => "unknown"@,
                    })
                        + "\n  Make sure your user is in the 'plugdev' group and the udev rule is installed:\n  sudo usermod -aG plugdev $USER\n  echo 'SUBSYSTEM==\"platform\", DRIVER==\"vhci_hcd\", RUN+=\"/bin/sh -c \\'chown root:plugdev /sys%p/attach /sys%p/detach && chmod 0660 /sys%p/attach /sys%p/detach\\'\"' | sudo tee /etc/udev/rules.d/99-virsh-usb.rules"@,
                ] + cause,
            )));
}

/// Nothing is typed if the socket of the daemon cannot be reached.
#[verifier::spinoff_prover]
pub proof fn law_unreached_socket(
    log: Log,
    at: int,
    w: World,
    vm: Seq<char>,
    name: Seq<char>,
    text: Seq<char>,
    no_enter: bool,
    cause: Chain,
)
    requires
        settled(w),
        heard(
            log,
            at,
            seq![
                data_asked(w),
                (
                    RequestView::ConnectSocket(
                        state_file(w, name, ".sock"@),
                    ), ReplyView::Failed(cause)
                ),
            ],
        ),
    ensures
        came(
            spec_send_text(log, at, vm, name, text, no_enter),
            log,
            at,
            seq![
                data_asked(w),
                (
                    RequestView::ConnectSocket(
                        state_file(w, name, ".sock"@),
                    ), ReplyView::Failed(cause)
                ),
            ],
            Err(seq!["Failed to connect to HID daemon socket"@] + cause),
        ),
{
    broadcast use {encode_utf8_valid_utf8, encode_utf8_decode_utf8};

    let whole = spec_send_text(log, at, vm, name, text, no_enter);
    let t0 = seq![
        data_asked(w),
        (RequestView::ConnectSocket(state_file(w, name, ".sock"@)), ReplyView::Failed(cause)),
    ];
    lemma_paths(w.data, "hid-"@ + name + ".sock"@);
    assert(came(whole, log, at, t0, Err(seq!["Failed to connect to HID daemon socket"@] + cause)));
}

/// A text that cannot be sent is not said to be typed.
#[verifier::spinoff_prover]
pub proof fn law_unsent_text(
    log: Log,
    at: int,
    w: World,
    vm: Seq<char>,
    name: Seq<char>,
    text: Seq<char>,
    cause: Chain,
)
    requires
        settled(w),
        heard(
            log,
            at,
            seq![
                data_asked(w),
                (RequestView::ConnectSocket(state_file(w, name, ".sock"@)), ReplyView::Done),
                (RequestView::Send(encode_utf8(text)), ReplyView::Failed(cause)),
            ],
        ),
    ensures
        came(
            spec_send_text(log, at, vm, name, text, true),
            log,
            at,
            seq![
                data_asked(w),
                (RequestView::ConnectSocket(state_file(w, name, ".sock"@)), ReplyView::Done),
                (RequestView::Send(encode_utf8(text)), ReplyView::Failed(cause)),
            ],
            Err(seq!["Failed to send text to HID daemon"@] + cause),
        ),
{
    broadcast use {encode_utf8_valid_utf8, encode_utf8_decode_utf8};

    let whole = spec_send_text(log, at, vm, name, text, true);
    let t0 = seq![
        data_asked(w),
        (RequestView::ConnectSocket(state_file(w, name, ".sock"@)), ReplyView::Done),
        (RequestView::Send(encode_utf8(text)), ReplyView::Failed(cause)),
    ];
    lemma_paths(w.data, "hid-"@ + name + ".sock"@);
    assert(came(whole, log, at, t0, Err(seq!["Failed to send text to HID daemon"@] + cause)));
}

/// A daemon that cannot be started is not waited for.
#[verifier::spinoff_prover]
pub proof fn law_unspawned_daemon(
    log: Log,
    at: int,
    w: World,
    name: Seq<char>,
    vid: Seq<char>,
    pid: Seq<char>,
    program: Seq<char>,
    gone: Chain,
    cause: Chain,
)
    requires
        settled(w),
        heard(
            log,
            at,
            daemon_absent(w, name, gone) + (
                daemon_spawned(w, name, vid, pid, program).take(4)
                    + seq![
                        (daemon_spawned(w, name, vid, pid, program)[4].0, ReplyView::Failed(cause)),
                    ]
            ),
        ),
    ensures
        came(
            spec_start_hid_daemon(log, at, name, vid, pid),
            log,
            at,
            daemon_absent(w, name, gone) + (
                daemon_spawned(w, name, vid, pid, program).take(4)
                    + seq![
                        (daemon_spawned(w, name, vid, pid, program)[4].0, ReplyView::Failed(cause)),
                    ]
            ),
            Err(seq!["Failed to spawn HID daemon"@] + cause),
        ),
{
    broadcast use {encode_utf8_valid_utf8, encode_utf8_decode_utf8};

    let whole = spec_start_hid_daemon(log, at, name, vid, pid);
    let t0 = daemon_absent(w, name, gone);
    let t1 = (
        daemon_spawned(w, name, vid, pid, program).take(4)
            + seq![(daemon_spawned(w, name, vid, pid, program)[4].0, ReplyView::Failed(cause))]
    );
    lemma_heard(log, at, t0, t1);
    lemma_daemon_absent(log, at, w, name, gone);
    assert(came(spec_is_hid_daemon_running(log, at, name), log, at, t0, Ok(false)));
    if log.len() >= at + t0.len() {
        let at1 = at + t0.len();
        lemma_paths(w.data, "hid-"@ + name + ".pid"@);
        lemma_paths(w.data, "hid-"@ + name + ".port"@);
        lemma_paths(w.data, "hid-"@ + name + ".sock"@);
        assert(came(whole, log, at1, t1, Err(seq!["Failed to spawn HID daemon"@] + cause)));
    }
    lemma_came(
        spec_is_hid_daemon_running(log, at, name),
        false,
        whole,
        log,
        at,
        t0,
        t1,
        Err(seq!["Failed to spawn HID daemon"@] + cause),
    );
}

/// Without HID devices there is none to type over.
#[verifier::spinoff_prover]
pub proof fn law_nothing_to_type_over(log: Log, at: int, w: World)
    requires
        settled(w),
        w.hids.len() == 0,
        heard(log, at, hids_read(w)),
    ensures
        came(
            spec_typing_device(log, at, None),
            log,
            at,
            hids_read(w),
            Err(
                seq![
                    "No HID devices found. Create one with: virsh-usb hid create <name> --vid <vid> --pid <pid>"@,
                ],
            ),
        ),
{
    broadcast use {encode_utf8_valid_utf8, encode_utf8_decode_utf8};

    let whole = spec_typing_device(log, at, None);
    let t0 = hids_read(w);
    lemma_hids_read(log, at, w);
    assert(
        came(
            whole,
            log,
            at,
            t0,
            Err(
                seq![
                    "No HID devices found. Create one with: virsh-usb hid create <name> --vid <vid> --pid <pid>"@,
                ],
            ),
        )
    );
}

/// A drive is made even if the time is not known; it then counts as made at the
/// very beginning.
#[verifier::spinoff_prover]
pub proof fn law_create_drive_without_clock(
    log: Log,
    at: int,
    w: World,
    name: Seq<char>,
    size: Seq<char>,
    text: Seq<char>,
    cause: Chain,
)
    requires
        settled(w),
        sanitized(name).len() > 0,
        name.len() > 0,
        no_such_drive(w.drives, sanitized(name)),
        no_such_hid(w.hids, sanitized(name)),
        heard(
            log,
            at,
            drives_read(w) + (
                hids_read(w)
                    + seq![
                        drive_made(w, sanitized(name), size, 0, text)[0],
                        (RequestView::Clock, ReplyView::Failed(cause)),
                        drive_made(w, sanitized(name), size, 0, text)[2],
                        drive_made(w, sanitized(name), size, 0, text)[3],
                        drive_made(w, sanitized(name), size, 0, text)[4],
                        drive_made(w, sanitized(name), size, 0, text)[5],
                    ]
            ),
        ),
    ensures
        came(
            spec_create_virtual_drive(log, at, name, size),
            log,
            at,
            drives_read(w) + (
                hids_read(w)
                    + seq![
                        drive_made(w, sanitized(name), size, 0, text)[0],
                        (RequestView::Clock, ReplyView::Failed(cause)),
                        drive_made(w, sanitized(name), size, 0, text)[2],
                        drive_made(w, sanitized(name), size, 0, text)[3],
                        drive_made(w, sanitized(name), size, 0, text)[4],
                        drive_made(w, sanitized(name), size, 0, text)[5],
                    ]
            ),
            Ok(()),
        ),
{
    lemma_drive_from(w.drives, sanitized(name), 0);
    lemma_hid_from(w.hids, sanitized(name), 0);
    broadcast use {encode_utf8_valid_utf8, encode_utf8_decode_utf8};

    let whole = spec_create_virtual_drive(log, at, name, size);
    let t0 = drives_read(w);
    let t1 = hids_read(w);
    let t2 = seq![
        drive_made(w, sanitized(name), size, 0, text)[0],
        (RequestView::Clock, ReplyView::Failed(cause)),
        drive_made(w, sanitized(name), size, 0, text)[2],
        drive_made(w, sanitized(name), size, 0, text)[3],
        drive_made(w, sanitized(name), size, 0, text)[4],
        drive_made(w, sanitized(name), size, 0, text)[5],
    ];
    lemma_heard(log, at, t0, t1 + t2);
    lemma_drives_read(log, at, w);
    assert(came(spec_load_virtual_drives(log, at), log, at, t0, Ok(w.drives)));
    if log.len() >= at + t0.len() {
        let at1 = at + t0.len();
        lemma_heard(log, at1, t1, t2);
        lemma_hids_read(log, at1, w);
        assert(came(spec_load_hid_devices(log, at1), log, at1, t1, Ok(w.hids)));
        if log.len() >= at1 + t1.len() {
            let at2 = at1 + t1.len();
            lemma_paths(w.data, "drives.json"@);
            assert(came(whole, log, at2, t2, Ok(())));
        }
        lemma_came(spec_load_hid_devices(log, at1), w.hids, whole, log, at1, t1, t2, Ok(()));
    }
    lemma_came(spec_load_virtual_drives(log, at), w.drives, whole, log, at, t0, t1 + t2, Ok(()));
}

/// A drive without an image is listed as such.
#[verifier::spinoff_prover]
pub proof fn law_list_drive_without_image(
    log: Log,
    at: int,
    w: World,
    d: DriveView,
    attached: Seq<(Seq<char>, Seq<char>)>,
    out: Seq<u8>,
    err: Seq<char>,
)
    requires
        heard(
            log,
            at,
            seq![
                fails(
                    seq!["virsh"@, "vol-path"@, d.name + ".qcow2"@, "--pool"@, "default"@],
                    out,
                    err,
                ),
                told(
                    line().push(plain("  "@)).push(cyan(spaced(d.name, 20))).push(
                        plain(" "@ + spaced(d.size, 6) + " "@),
                    ).push(red("[image missing]"@)),
                ),
                told(line()),
            ],
        ),
    ensures
        came(
            spec_show_drive(log, at, d, attached),
            log,
            at,
            seq![
                fails(
                    seq!["virsh"@, "vol-path"@, d.name + ".qcow2"@, "--pool"@, "default"@],
                    out,
                    err,
                ),
                told(
                    line().push(plain("  "@)).push(cyan(spaced(d.name, 20))).push(
                        plain(" "@ + spaced(d.size, 6) + " "@),
                    ).push(red("[image missing]"@)),
                ),
                told(line()),
            ],
            Ok(()),
        ),
{
    broadcast use {encode_utf8_valid_utf8, encode_utf8_decode_utf8};

    let whole = spec_show_drive(log, at, d, attached);
    let t0 = seq![
        fails(seq!["virsh"@, "vol-path"@, d.name + ".qcow2"@, "--pool"@, "default"@], out, err),
        told(
            line().push(plain("  "@)).push(cyan(spaced(d.name, 20))).push(
                plain(" "@ + spaced(d.size, 6) + " "@),
            ).push(red("[image missing]"@)),
        ),
        told(line()),
    ];
    lemma_padded(d.name, 20);
    lemma_padded(d.size, 6);
    assert(came(whole, log, at, t0, Ok(())));
}

/// A daemon does not run if its process is gone, though its number is still
/// there.
#[verifier::spinoff_prover]
pub proof fn law_process_that_is_gone(log: Log, at: int, w: World, name: Seq<char>, id: u64)
    requires
        settled(w),
        id <= 0xffff_ffff,
        heard(log, at, daemon_known(w, name, id, false)),
    ensures
        came(
            spec_is_hid_daemon_running(log, at, name),
            log,
            at,
            daemon_known(w, name, id, false),
            Ok(false),
        ),
{
    broadcast use {encode_utf8_valid_utf8, encode_utf8_decode_utf8};

    let whole = spec_is_hid_daemon_running(log, at, name);
    let t0 = daemon_known(w, name, id, false);
    lemma_daemon_known(log, at, w, name, id, false);
    assert(came(whole, log, at, t0, Ok(false)));
}

/// A daemon does not run if what it left is no process number.
#[verifier::spinoff_prover]
pub proof fn law_number_that_is_none(
    log: Log,
    at: int,
    w: World,
    name: Seq<char>,
    content: Seq<char>,
)
    requires
        settled(w),
        parsed(trimmed(content), 10, 0xffff_ffff) is Err,
        heard(
            log,
            at,
            seq![
                data_asked(w),
                (RequestView::Read(state_file(w, name, ".pid"@)), ReplyView::Text(content)),
            ],
        ),
    ensures
        came(
            spec_is_hid_daemon_running(log, at, name),
            log,
            at,
            seq![
                data_asked(w),
                (RequestView::Read(state_file(w, name, ".pid"@)), ReplyView::Text(content)),
            ],
            Ok(false),
        ),
{
    broadcast use {encode_utf8_valid_utf8, encode_utf8_decode_utf8};

    let whole = spec_is_hid_daemon_running(log, at, name);
    let t0 = seq![
        data_asked(w),
        (RequestView::Read(state_file(w, name, ".pid"@)), ReplyView::Text(content)),
    ];
    lemma_paths(w.data, "hid-"@ + name + ".pid"@);
    assert(came(whole, log, at, t0, Ok(false)));
}

/// A daemon whose process number is not known is not ended, but its state files
/// are removed.
#[verifier::spinoff_prover]
pub proof fn law_stopping_without_number(
    log: Log,
    at: int,
    w: World,
    name: Seq<char>,
    gone: Chain,
)
    requires
        settled(w),
        heard(log, at, daemon_absent(w, name, gone) + state_removed(w, name)),
    ensures
        came(
            spec_stop_hid_daemon(log, at, name),
            log,
            at,
            daemon_absent(w, name, gone) + state_removed(w, name),
            Ok(()),
        ),
{
    broadcast use {encode_utf8_valid_utf8, encode_utf8_decode_utf8};

    let whole = spec_stop_hid_daemon(log, at, name);
    let t0 = daemon_absent(w, name, gone);
    let t1 = state_removed(w, name);
    lemma_heard(log, at, t0, t1);
    lemma_paths(w.data, "hid-"@ + name + ".pid"@);
    assert(came(spec_attempt(spec_daemon_pid(log, at, name)), log, at, t0, Ok(None)));
    if log.len() >= at + t0.len() {
        let at1 = at + t0.len();
        lemma_state_removed(log, at1, w, name);
        assert(came(whole, log, at1, t1, Ok(())));
    }
    lemma_came(spec_attempt(spec_daemon_pid(log, at, name)), None, whole, log, at, t0, t1, Ok(()));
}

/// A daemon is started if the one before it is gone.
#[verifier::spinoff_prover]
pub proof fn law_leftover_state_starts_a_daemon(
    log: Log,
    at: int,
    w: World,
    name: Seq<char>,
    vid: Seq<char>,
    pid: Seq<char>,
    program: Seq<char>,
    id: u64,
)
    requires
        settled(w),
        id <= 0xffff_ffff,
        heard(
            log,
            at,
            daemon_known(w, name, id, false) + daemon_spawned(w, name, vid, pid, program),
        ),
    ensures
        came(
            spec_start_hid_daemon(log, at, name, vid, pid),
            log,
            at,
            daemon_known(w, name, id, false) + daemon_spawned(w, name, vid, pid, program),
            Ok(()),
        ),
{
    broadcast use {encode_utf8_valid_utf8, encode_utf8_decode_utf8};

    let whole = spec_start_hid_daemon(log, at, name, vid, pid);
    let t0 = daemon_known(w, name, id, false);
    let t1 = daemon_spawned(w, name, vid, pid, program);
    lemma_heard(log, at, t0, t1);
    lemma_daemon_known(log, at, w, name, id, false);
    assert(came(spec_is_hid_daemon_running(log, at, name), log, at, t0, Ok(false)));
    if log.len() >= at + t0.len() {
        let at1 = at + t0.len();
        lemma_paths(w.data, "hid-"@ + name + ".pid"@);
        lemma_paths(w.data, "hid-"@ + name + ".port"@);
        lemma_paths(w.data, "hid-"@ + name + ".sock"@);
        assert(came(whole, log, at1, t1, Ok(())));
    }
    lemma_came(spec_is_hid_daemon_running(log, at, name), false, whole, log, at, t0, t1, Ok(()));
}

} // verus!
