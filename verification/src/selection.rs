//! Choosing the virtual machine and the device to act on, request by request.

use vstd::prelude::*;
use vstd::string::*;
use vstd::utf8::*;

use crate::console::{spec_resolve_ids, spec_run};
use crate::daemon::normalized;
use crate::devices::HidView;
use crate::dialogue::{
    asked, asked_only, came, described, devices_listed, drive_made, drives_read, heard, hid_made,
    hids_read, lemma_came, lemma_drive_created, lemma_drive_from, lemma_drives_read, lemma_heard,
    lemma_hid_created, lemma_hid_from, lemma_hids_read, lemma_is_name, lemma_paths,
    lemma_usb_attached, lemma_usb_detached, lemma_usb_status, lemma_vm_remembered, no_such_drive,
    no_such_hid, run, settled, told, usb_attached, usb_detached, usb_status, vm_remembered, Talk,
    World,
};
use crate::host::{
    bind, cyan, dim, green, in_context, law_pick_is_found, line, picked, plain, spec_ask_text,
    spec_attempt, text_of, yellow, Chain, Log, Outcome, ReplyView, RequestView, SpanView,
};
use crate::inventory::{daemon_asked, has_hid, has_image, lemma_daemon_asked, lemma_disk_from};
use crate::names::{law_sanitizing_is_idempotent, sanitized};
use crate::registry::{spec_load_hid_devices, spec_load_virtual_drives};
use crate::select::{
    add_drive, choice_label, choice_labels, offered_usb, real_devices, spec_add_drives,
    spec_add_hids, spec_any_usb_devices, spec_device_choices, spec_disks_of, spec_drive_attached,
    spec_gather, spec_hid_attached, spec_select_device, usb_choices, ChoiceView,
};
use crate::storage::disks_in;
use crate::text::{
    contains, contains_text, lemma_until_bounds, lines_of, lowercased, pieces_of, trimmed, until,
};
use crate::tool::{
    spec_enter_name, spec_new_drive, spec_new_hid, spec_resolve_device, spec_run_tool,
    spec_typing_device, typing_offers, CommandsView, Ending, HidCommandsView, SelectedView,
};
use crate::transfer::whole;
use crate::usb::{
    hostdevs_in, law_search_ignores_case, marked, named, offers, only_attached, place_of, shown,
    spec_attached_to, spec_find_device_by_name, spec_select_usb_device, spec_usb_devices,
    usb_listed, Front, UsbView,
};
use crate::vm::{
    device_with, lists_vm, names_listed, plain_lines, position_from, spec_attach_device,
    spec_detach_device, spec_save_last_vm, spec_select_vm, spec_show_status,
};

verus! {

// ---------------------------------------------------------------------------
// Virtual machines
// ---------------------------------------------------------------------------

/// The user picks a virtual machine from all that there are. The one that was
/// used last stands under the cursor, if it is among them.
pub open spec fn machine_picked(
    w: World,
    vms: Seq<Seq<char>>,
    last: Seq<char>,
    start: int,
    i: int,
) -> Talk {
    seq![
        run(seq!["virsh"@, "list"@, "--all"@, "--name"@], w.all),
        (RequestView::ConfigDir, ReplyView::Text(w.config)),
        (RequestView::Read(w.config + "/"@ + "last_vm"@), ReplyView::Text(last)),
        (
            RequestView::Choose(
                line().push(cyan("🖥"@)).push(plain(" Select a VM"@)),
                Seq::new(vms.len(), |j: int| line().push(plain(vms[j]))),
                start,
            ),
            ReplyView::Picked(i),
        ),
    ]
}

/// The virtual machine `start` is the first of that name, or none has it and
/// `start` is the first of all.
pub open spec fn starts_at(vms: Seq<Seq<char>>, last: Seq<char>, start: int) -> bool {
    if vms.contains(last) {
        0 <= start < vms.len() && vms[start] == last && forall|j: int|
            0 <= j < start ==> #[trigger] vms[j] != last
    } else {
        start == 0
    }
}

pub proof fn lemma_starts_at(vms: Seq<Seq<char>>, last: Seq<char>, i: int)
    requires
        0 <= i,
    ensures
        match position_from(vms, last, i) {
            Some(k) => i <= k < vms.len() && vms[k] == last && forall|j: int|
                i <= j < k ==> #[trigger] vms[j] != last,
            None => forall|j: int| i <= j < vms.len() ==> #[trigger] vms[j] != last,
        },
    decreases vms.len() - i,
{
    if i < vms.len() && vms[i] != last {
        lemma_starts_at(vms, last, i + 1);
    }
}

/// The virtual machine that the user picks from the list is the one taken.
#[verifier::spinoff_prover]
pub proof fn law_pick_machine(
    log: Log,
    at: int,
    w: World,
    vms: Seq<Seq<char>>,
    last: Seq<char>,
    start: int,
    i: int,
)
    requires
        settled(w),
        vms == names_listed(lines_of(w.all)),
        starts_at(vms, last, start),
        0 <= i < vms.len(),
        heard(log, at, machine_picked(w, vms, last, start, i)),
    ensures
        came(
            spec_select_vm(log, at),
            log,
            at,
            machine_picked(w, vms, last, start, i),
            Ok(vms[i]),
        ),
{
    broadcast use {encode_utf8_valid_utf8, encode_utf8_decode_utf8};

    let whole = spec_select_vm(log, at);
    let t0 = machine_picked(w, vms, last, start, i);
    lemma_paths(w.config, "last_vm"@);
    lemma_starts_at(vms, last, 0);
    assert(plain_lines(vms) =~= Seq::new(vms.len(), |j: int| line().push(plain(vms[j]))));
    assert(came(whole, log, at, t0, Ok(vms[i])));
}

/// Without any virtual machine there is nothing to pick.
#[verifier::spinoff_prover]
pub proof fn law_no_machine(log: Log, at: int, w: World)
    requires
        settled(w),
        names_listed(lines_of(w.all)).len() == 0,
        heard(log, at, seq![run(seq!["virsh"@, "list"@, "--all"@, "--name"@], w.all)]),
    ensures
        came(
            spec_select_vm(log, at),
            log,
            at,
            seq![run(seq!["virsh"@, "list"@, "--all"@, "--name"@], w.all)],
            Err(seq!["No VMs found"@]),
        ),
{
    broadcast use {encode_utf8_valid_utf8, encode_utf8_decode_utf8};

    let whole = spec_select_vm(log, at);
    let t0 = seq![run(seq!["virsh"@, "list"@, "--all"@, "--name"@], w.all)];
    assert(came(whole, log, at, t0, Err(seq!["No VMs found"@])));
}

// ---------------------------------------------------------------------------
// Devices
// ---------------------------------------------------------------------------

/// The devices of the host as the user sees them: each with whether the virtual
/// machine has it, and without those that a HID device stands behind; only those
/// that the virtual machine has, if `only`.
pub open spec fn host_devices(w: World, only: bool) -> Seq<UsbView> {
    let all = usb_listed(lines_of(w.lsusb), true);
    Seq::new(
        all.len(),
        |i: int|
            UsbView {
                attached: hostdevs_in(w.xml).contains((all[i].vendor_id, all[i].product_id)),
                ..all[i]
            },
    ).filter(
        |d: UsbView|
            !exists|k: int|
                0 <= k < w.hids.len() && normalized((#[trigger] w.hids[k]).vid) == d.vendor_id
                    && normalized(w.hids[k].pid) == d.product_id,
    ).filter(|d: UsbView| only ==> d.attached)
}

/// The drives, each with whether the virtual machine has its image.
pub open spec fn drives_offered(w: World, images: Seq<Seq<char>>) -> Seq<ChoiceView> {
    Seq::new(
        w.drives.len(),
        |i: int| ChoiceView::Storage(w.drives[i], has_image(w.xml, trimmed(images[i]))),
    )
}

/// The HID devices, each with whether its daemon runs and the virtual machine has
/// it.
pub open spec fn hids_offered(w: World, numbers: Seq<Option<u64>>) -> Seq<ChoiceView> {
    Seq::new(
        w.hids.len(),
        |i: int| ChoiceView::Hid(w.hids[i], numbers[i] is Some && has_hid(w.xml, w.hids[i])),
    )
}

/// The virtual machine has what is offered.
pub open spec fn is_held(c: ChoiceView) -> bool {
    match c {
        ChoiceView::RealUsb(d) => d.attached,
        ChoiceView::Storage(_, attached) => attached,
        ChoiceView::Hid(_, attached) => attached,
        _ => false,
    }
}

/// All that is offered: the devices of the host, the drives, the HID devices, and
/// to make a new one; if `only`, just what the virtual machine has.
pub open spec fn all_offered(
    w: World,
    images: Seq<Seq<char>>,
    numbers: Seq<Option<u64>>,
    only: bool,
) -> Seq<ChoiceView> {
    let usb = host_devices(w, only);
    let there = Seq::new(usb.len(), |i: int| ChoiceView::RealUsb(usb[i]))
        + drives_offered(w, images).filter(|c: ChoiceView| only ==> is_held(c))
        + hids_offered(w, numbers).filter(|c: ChoiceView| only ==> is_held(c));
    if only {
        there
    } else {
        there + seq![ChoiceView::CreateNewStorage, ChoiceView::CreateNewHid]
    }
}

/// How a choice reads: what kind of device it is, what it is called, and whether
/// the virtual machine has it.
pub open spec fn reads(c: ChoiceView) -> Seq<SpanView> {
    let start = match c {
        ChoiceView::RealUsb(d) => seq![
            plain("[USB]     "@),
            cyan(d.vendor_id + ":"@ + d.product_id),
            plain(" - "@),
            plain(d.name),
            plain(" "@),
            dim("(Bus "@ + d.bus + " Device "@ + d.device + ")"@),
        ],
        ChoiceView::Storage(d, _) => seq![
            plain("[STORAGE] "@),
            cyan(d.name),
            plain(" ("@ + d.size + ")"@),
        ],
        ChoiceView::Hid(d, _) => seq![
            plain("[HID]     "@),
            cyan(d.name),
            plain(" ("@ + (normalized(d.vid) + ":"@ + normalized(d.pid)) + ")"@),
        ],
        ChoiceView::CreateNewStorage => seq![dim("+ Create new storage drive..."@)],
        ChoiceView::CreateNewHid => seq![dim("+ Create new HID device..."@)],
    };
    if is_held(c) {
        start + seq![plain(" "@), green("[attached]"@)]
    } else {
        start
    }
}

proof fn lemma_reads(c: ChoiceView)
    ensures
        choice_label(c) == reads(c),
{
    assert(choice_label(c) =~= reads(c));
}

proof fn lemma_real_devices(devices: Seq<UsbView>, hids: Seq<HidView>)
    ensures
        real_devices(devices, hids) == devices.filter(
            |d: UsbView|
                !exists|k: int|
                    0 <= k < hids.len() && normalized((#[trigger] hids[k]).vid) == d.vendor_id
                        && normalized(hids[k].pid) == d.product_id,
        ),
    decreases devices.len(),
{
    reveal(Seq::filter);
    if devices.len() > 0 {
        lemma_real_devices(devices.drop_last(), hids);
    }
}

proof fn lemma_only_attached(devices: Seq<UsbView>, only: bool)
    ensures
        devices.filter(|d: UsbView| only ==> d.attached) == (if only {
            only_attached(devices)
        } else {
            devices
        }),
    decreases devices.len(),
{
    reveal(Seq::filter);
    if devices.len() > 0 {
        lemma_only_attached(devices.drop_last(), only);
        assert(devices.drop_last().push(devices.last()) =~= devices);
    }
}

proof fn lemma_host_devices(w: World, only: bool)
    ensures
        offered_usb(usb_listed(lines_of(w.lsusb), true), hostdevs_in(w.xml), w.hids, only)
            == host_devices(w, only),
{
    let all = usb_listed(lines_of(w.lsusb), true);
    let shown = marked(all, hostdevs_in(w.xml));
    assert(shown =~= Seq::new(
        all.len(),
        |i: int|
            UsbView {
                attached: hostdevs_in(w.xml).contains((all[i].vendor_id, all[i].product_id)),
                ..all[i]
            },
    ));
    lemma_real_devices(shown, w.hids);
    lemma_only_attached(real_devices(shown, w.hids), only);
}

/// The images of the drives from the one at `i` on are looked up.
pub open spec fn images_looked_up(w: World, images: Seq<Seq<char>>, i: int) -> Talk
    decreases w.drives.len() - i,
{
    if i >= w.drives.len() {
        seq![]
    } else {
        seq![
            run(
                seq!["virsh"@, "vol-path"@, w.drives[i].name + ".qcow2"@, "--pool"@, "default"@],
                images[i],
            ),
        ] + images_looked_up(w, images, i + 1)
    }
}

#[verifier::spinoff_prover]
proof fn lemma_images_looked_up(
    log: Log,
    at: int,
    w: World,
    images: Seq<Seq<char>>,
    only: bool,
    i: int,
    base: Seq<ChoiceView>,
)
    requires
        0 <= i <= w.drives.len(),
        heard(log, at, images_looked_up(w, images, i)),
    ensures
        came(
            spec_add_drives(
                log,
                at,
                w.drives,
                disks_in(w.xml),
                only,
                i,
                base + drives_offered(w, images).take(i).filter(
                    |c: ChoiceView| only ==> is_held(c),
                ),
            ),
            log,
            at,
            images_looked_up(w, images, i),
            Ok(base + drives_offered(w, images).filter(|c: ChoiceView| only ==> is_held(c))),
        ),
    decreases w.drives.len() - i,
{
    broadcast use {encode_utf8_valid_utf8, encode_utf8_decode_utf8};

    let all = drives_offered(w, images);
    let keep = |c: ChoiceView| only ==> is_held(c);
    if i < w.drives.len() {
        let t = seq![
            run(
                seq!["virsh"@, "vol-path"@, w.drives[i].name + ".qcow2"@, "--pool"@, "default"@],
                images[i],
            ),
        ];
        let rest = images_looked_up(w, images, i + 1);
        let first = spec_drive_attached(log, at, w.drives[i], disks_in(w.xml));
        let on = has_image(w.xml, trimmed(images[i]));
        let whole = spec_add_drives(
            log,
            at,
            w.drives,
            disks_in(w.xml),
            only,
            i,
            base + all.take(i).filter(keep),
        );
        lemma_heard(log, at, t, rest);
        lemma_disk_from(disks_in(w.xml), trimmed(images[i]), 0);
        assert(came(first, log, at, t, Ok(Some(on))));
        assert(all.take(i + 1).filter(keep) == (if keep(all[i]) {
            all.take(i).filter(keep).push(all[i])
        } else {
            all.take(i).filter(keep)
        })) by {
            reveal(Seq::filter);
            assert(all.take(i + 1).drop_last() =~= all.take(i));
            assert(all.take(i + 1).last() == all[i]);
        }
        assert(add_drive(
            base + all.take(i).filter(keep),
            w.drives[i],
            Some(on),
            only,
        ) =~= base + all.take(i + 1).filter(keep));
        if log.len() >= at + 1 {
            lemma_images_looked_up(log, at + 1, w, images, only, i + 1, base);
        }
        lemma_came(first, Some(on), whole, log, at, t, rest, Ok(base + all.filter(keep)));
    } else {
        assert(all.take(i) =~= all);
    }
}

/// The daemons of the HID devices from the one at `i` on are looked for.
pub open spec fn daemons_looked_for(
    w: World,
    numbers: Seq<Option<u64>>,
    gone: Chain,
    i: int,
) -> Talk
    decreases w.hids.len() - i,
{
    if i >= w.hids.len() {
        seq![]
    } else {
        daemon_asked(w, w.hids[i].name, numbers[i], gone) + daemons_looked_for(
            w,
            numbers,
            gone,
            i + 1,
        )
    }
}

#[verifier::spinoff_prover]
proof fn lemma_daemons_looked_for(
    log: Log,
    at: int,
    w: World,
    numbers: Seq<Option<u64>>,
    gone: Chain,
    only: bool,
    i: int,
    base: Seq<ChoiceView>,
)
    requires
        settled(w),
        0 <= i <= w.hids.len(),
        numbers.len() == w.hids.len(),
        forall|j: int|
            0 <= j < numbers.len()
                ==> (#[trigger] numbers[j] matches Some(id) ==> id <= 0xffff_ffff),
        heard(log, at, daemons_looked_for(w, numbers, gone, i)),
    ensures
        came(
            spec_add_hids(
                log,
                at,
                w.hids,
                hostdevs_in(w.xml),
                only,
                i,
                base + hids_offered(w, numbers).take(i).filter(
                    |c: ChoiceView| only ==> is_held(c),
                ),
            ),
            log,
            at,
            daemons_looked_for(w, numbers, gone, i),
            Ok(base + hids_offered(w, numbers).filter(|c: ChoiceView| only ==> is_held(c))),
        ),
    decreases w.hids.len() - i,
{
    let all = hids_offered(w, numbers);
    let keep = |c: ChoiceView| only ==> is_held(c);
    if i < w.hids.len() {
        let t = daemon_asked(w, w.hids[i].name, numbers[i], gone);
        let rest = daemons_looked_for(w, numbers, gone, i + 1);
        let first = spec_hid_attached(log, at, w.hids[i], hostdevs_in(w.xml));
        let on = numbers[i] is Some && has_hid(w.xml, w.hids[i]);
        let whole = spec_add_hids(
            log,
            at,
            w.hids,
            hostdevs_in(w.xml),
            only,
            i,
            base + all.take(i).filter(keep),
        );
        lemma_heard(log, at, t, rest);
        lemma_daemon_asked(log, at, w, w.hids[i].name, numbers[i], gone);
        assert(came(first, log, at, t, Ok(on)));
        assert(all.take(i + 1).filter(keep) == (if keep(all[i]) {
            all.take(i).filter(keep).push(all[i])
        } else {
            all.take(i).filter(keep)
        })) by {
            reveal(Seq::filter);
            assert(all.take(i + 1).drop_last() =~= all.take(i));
            assert(all.take(i + 1).last() == all[i]);
        }
        assert((if on || !only {
            (base + all.take(i).filter(keep)).push(ChoiceView::Hid(w.hids[i], on))
        } else {
            base + all.take(i).filter(keep)
        }) =~= base + all.take(i + 1).filter(keep));
        if log.len() >= at + t.len() {
            lemma_daemons_looked_for(log, at + t.len(), w, numbers, gone, only, i + 1, base);
        }
        lemma_came(first, on, whole, log, at, t, rest, Ok(base + all.filter(keep)));
    } else {
        assert(all.take(i) =~= all);
    }
}

/// The choices are offered, and the user picks the one at `i`.
pub open spec fn choice_made(choices: Seq<ChoiceView>, only: bool, i: int) -> Talk {
    let prompt = if only {
        line().push(yellow("🔌"@)).push(plain(" Select a device to detach"@))
    } else {
        line().push(cyan("🔌"@)).push(plain(" Select a device"@))
    };
    seq![
        (
            RequestView::Choose(prompt, Seq::new(choices.len(), |j: int| reads(choices[j])), 0),
            ReplyView::Picked(i),
        ),
    ]
}

/// All that is looked up before the user can choose.
pub open spec fn choices_prepared(
    w: World,
    vm: Seq<char>,
    images: Seq<Seq<char>>,
    numbers: Seq<Option<u64>>,
    gone: Chain,
) -> Talk {
    seq![devices_listed(w), described(w, vm)] + (drives_read(w) + (seq![described(w, vm)] + (
    hids_read(w) + (images_looked_up(w, images, 0) + daemons_looked_for(w, numbers, gone, 0)))))
}

#[verifier::spinoff_prover]
proof fn lemma_gathered(
    log: Log,
    at: int,
    w: World,
    images: Seq<Seq<char>>,
    numbers: Seq<Option<u64>>,
    gone: Chain,
    only: bool,
)
    requires
        settled(w),
        images.len() == w.drives.len(),
        numbers.len() == w.hids.len(),
        forall|j: int|
            0 <= j < numbers.len()
                ==> (#[trigger] numbers[j] matches Some(id) ==> id <= 0xffff_ffff),
        heard(log, at, images_looked_up(w, images, 0) + daemons_looked_for(w, numbers, gone, 0)),
    ensures
        came(
            spec_gather(
                log,
                at,
                host_devices(w, only),
                w.drives,
                disks_in(w.xml),
                w.hids,
                hostdevs_in(w.xml),
                only,
            ),
            log,
            at,
            images_looked_up(w, images, 0) + daemons_looked_for(w, numbers, gone, 0),
            Ok(all_offered(w, images, numbers, only)),
        ),
{
    broadcast use {encode_utf8_valid_utf8, encode_utf8_decode_utf8};

    let whole = spec_gather(
        log,
        at,
        host_devices(w, only),
        w.drives,
        disks_in(w.xml),
        w.hids,
        hostdevs_in(w.xml),
        only,
    );
    let t0 = images_looked_up(w, images, 0);
    let t1 = daemons_looked_for(w, numbers, gone, 0);
    lemma_heard(log, at, t0, t1);
    assert(
        drives_offered(w, images).take(0).filter(|c: ChoiceView| only ==> is_held(c)) =~= seq![]
    ) by { reveal(Seq::filter); }
    assert(
        usb_choices(host_devices(w, only))
            + drives_offered(w, images).take(0).filter(
                |c: ChoiceView| only ==> is_held(c),
            ) =~= usb_choices(host_devices(w, only))
    );
    lemma_images_looked_up(log, at, w, images, only, 0, usb_choices(host_devices(w, only)));
    assert(
        came(
            spec_add_drives(
                log,
                at,
                w.drives,
                disks_in(w.xml),
                only,
                0,
                usb_choices(host_devices(w, only)),
            ),
            log,
            at,
            t0,
            Ok(
                usb_choices(host_devices(w, only)) + drives_offered(w, images).filter(
                    |c: ChoiceView| only ==> is_held(c),
                ),
            ),
        )
    );
    if log.len() >= at + t0.len() {
        let at1 = at + t0.len();
        lemma_gathered_hids(log, at1, w, images, numbers, gone, only);
        assert(came(whole, log, at1, t1, Ok(all_offered(w, images, numbers, only))));
    }
    lemma_came(
        spec_add_drives(
            log,
            at,
            w.drives,
            disks_in(w.xml),
            only,
            0,
            usb_choices(host_devices(w, only)),
        ),
        usb_choices(host_devices(w, only)) + drives_offered(w, images).filter(
            |c: ChoiceView| only ==> is_held(c),
        ),
        whole,
        log,
        at,
        t0,
        t1,
        Ok(all_offered(w, images, numbers, only)),
    );
}

spec fn completed(choices: Seq<ChoiceView>, only: bool) -> Seq<ChoiceView> {
    if only {
        choices
    } else {
        choices.push(ChoiceView::CreateNewStorage).push(ChoiceView::CreateNewHid)
    }
}

#[verifier::spinoff_prover]
proof fn lemma_gathered_hids(
    log: Log,
    at: int,
    w: World,
    images: Seq<Seq<char>>,
    numbers: Seq<Option<u64>>,
    gone: Chain,
    only: bool,
)
    requires
        settled(w),
        images.len() == w.drives.len(),
        numbers.len() == w.hids.len(),
        forall|j: int|
            0 <= j < numbers.len()
                ==> (#[trigger] numbers[j] matches Some(id) ==> id <= 0xffff_ffff),
        heard(log, at, daemons_looked_for(w, numbers, gone, 0)),
    ensures
        came(
            bind(
                spec_add_hids(
                    log,
                    at,
                    w.hids,
                    hostdevs_in(w.xml),
                    only,
                    0,
                    usb_choices(host_devices(w, only)) + drives_offered(w, images).filter(
                        |c: ChoiceView| only ==> is_held(c),
                    ),
                ),
                |choices: Seq<ChoiceView>, at: int| Outcome::Ready(completed(choices, only), at),
            ),
            log,
            at,
            daemons_looked_for(w, numbers, gone, 0),
            Ok(all_offered(w, images, numbers, only)),
        ),
{
    broadcast use {encode_utf8_valid_utf8, encode_utf8_decode_utf8};

    let whole = bind(
        spec_add_hids(
            log,
            at,
            w.hids,
            hostdevs_in(w.xml),
            only,
            0,
            usb_choices(host_devices(w, only)) + drives_offered(w, images).filter(
                |c: ChoiceView| only ==> is_held(c),
            ),
        ),
        |choices: Seq<ChoiceView>, at: int| Outcome::Ready(completed(choices, only), at),
    );
    let t0 = daemons_looked_for(w, numbers, gone, 0);
    let base = usb_choices(host_devices(w, only)) + drives_offered(w, images).filter(
        |c: ChoiceView| only ==> is_held(c),
    );
    assert(
        hids_offered(w, numbers).take(0).filter(|c: ChoiceView| only ==> is_held(c)) =~= seq![]
    ) by { reveal(Seq::filter); }
    assert(
        base + hids_offered(w, numbers).take(0).filter(|c: ChoiceView| only ==> is_held(c)) =~= base
    );
    lemma_daemons_looked_for(log, at, w, numbers, gone, only, 0, base);
    assert(
        completed(
            base + hids_offered(w, numbers).filter(|c: ChoiceView| only ==> is_held(c)),
            only,
        ) =~= all_offered(w, images, numbers, only)
    );
    assert(came(whole, log, at, t0, Ok(all_offered(w, images, numbers, only))));
}

spec fn looked(log: Log, at: int, vm: Seq<char>) -> Outcome<
    (Seq<UsbView>, Seq<(Seq<char>, Seq<char>)>),
> {
    bind(
        spec_any_usb_devices(log, at),
        |devices: Seq<UsbView>, at: int|
            bind(
                spec_attached_to(log, at, Some(vm)),
                |attached: Seq<(Seq<char>, Seq<char>)>, at: int|
                    Outcome::Ready((devices, attached), at),
            ),
    )
}

#[verifier::spinoff_prover]
proof fn lemma_choices_prepared(
    log: Log,
    at: int,
    w: World,
    vm: Seq<char>,
    images: Seq<Seq<char>>,
    numbers: Seq<Option<u64>>,
    gone: Chain,
    only: bool,
)
    requires
        settled(w),
        images.len() == w.drives.len(),
        numbers.len() == w.hids.len(),
        forall|j: int|
            0 <= j < numbers.len()
                ==> (#[trigger] numbers[j] matches Some(id) ==> id <= 0xffff_ffff),
        heard(
            log,
            at,
            seq![devices_listed(w), described(w, vm)] + (
                drives_read(w)
                    + (
                        seq![described(w, vm)]
                            + (
                                hids_read(w)
                                    + (
                                        images_looked_up(w, images, 0)
                                            + daemons_looked_for(w, numbers, gone, 0)
                                    )
                            )
                    )
            ),
        ),
    ensures
        came(
            spec_device_choices(log, at, Some(vm), only),
            log,
            at,
            seq![devices_listed(w), described(w, vm)] + (
                drives_read(w)
                    + (
                        seq![described(w, vm)]
                            + (
                                hids_read(w)
                                    + (
                                        images_looked_up(w, images, 0)
                                            + daemons_looked_for(w, numbers, gone, 0)
                                    )
                            )
                    )
            ),
            Ok(all_offered(w, images, numbers, only)),
        ),
{
    broadcast use {encode_utf8_valid_utf8, encode_utf8_decode_utf8};

    let whole = spec_device_choices(log, at, Some(vm), only);
    let t0 = seq![devices_listed(w), described(w, vm)];
    let t1 = drives_read(w);
    let t2 = seq![described(w, vm)];
    let t3 = hids_read(w);
    let t4 = (images_looked_up(w, images, 0) + daemons_looked_for(w, numbers, gone, 0));
    lemma_heard(log, at, t0, t1 + (t2 + (t3 + t4)));
    assert(
        came(
            looked(log, at, vm),
            log,
            at,
            t0,
            Ok((usb_listed(lines_of(w.lsusb), true), hostdevs_in(w.xml))),
        )
    );
    if log.len() >= at + t0.len() {
        let at1 = at + t0.len();
        lemma_heard(log, at1, t1, t2 + (t3 + t4));
        lemma_drives_read(log, at1, w);
        assert(came(spec_load_virtual_drives(log, at1), log, at1, t1, Ok(w.drives)));
        if log.len() >= at1 + t1.len() {
            let at2 = at1 + t1.len();
            lemma_heard(log, at2, t2, t3 + t4);
            assert(came(spec_disks_of(log, at2, Some(vm)), log, at2, t2, Ok(disks_in(w.xml))));
            if log.len() >= at2 + t2.len() {
                let at3 = at2 + t2.len();
                lemma_heard(log, at3, t3, t4);
                lemma_hids_read(log, at3, w);
                assert(came(spec_load_hid_devices(log, at3), log, at3, t3, Ok(w.hids)));
                if log.len() >= at3 + t3.len() {
                    let at4 = at3 + t3.len();
                    lemma_host_devices(w, only);
                    lemma_gathered(log, at4, w, images, numbers, gone, only);
                    assert(came(whole, log, at4, t4, Ok(all_offered(w, images, numbers, only))));
                }
                lemma_came(
                    spec_load_hid_devices(log, at3),
                    w.hids,
                    whole,
                    log,
                    at3,
                    t3,
                    t4,
                    Ok(all_offered(w, images, numbers, only)),
                );
            }
            lemma_came(
                spec_disks_of(log, at2, Some(vm)),
                disks_in(w.xml),
                whole,
                log,
                at2,
                t2,
                t3 + t4,
                Ok(all_offered(w, images, numbers, only)),
            );
        }
        lemma_came(
            spec_load_virtual_drives(log, at1),
            w.drives,
            whole,
            log,
            at1,
            t1,
            t2 + (t3 + t4),
            Ok(all_offered(w, images, numbers, only)),
        );
    }
    lemma_came(
        looked(log, at, vm),
        (usb_listed(lines_of(w.lsusb), true), hostdevs_in(w.xml)),
        whole,
        log,
        at,
        t0,
        t1 + (t2 + (t3 + t4)),
        Ok(all_offered(w, images, numbers, only)),
    );
}

/// Every device is offered as what it is and with what it has of its own, and
/// the one that the user picks is the one taken.
#[verifier::spinoff_prover]
pub proof fn law_pick_device(
    log: Log,
    at: int,
    w: World,
    vm: Seq<char>,
    images: Seq<Seq<char>>,
    numbers: Seq<Option<u64>>,
    gone: Chain,
    only: bool,
    i: int,
)
    requires
        settled(w),
        images.len() == w.drives.len(),
        numbers.len() == w.hids.len(),
        forall|j: int|
            0 <= j < numbers.len()
                ==> (#[trigger] numbers[j] matches Some(id) ==> id <= 0xffff_ffff),
        0 <= i < all_offered(w, images, numbers, only).len(),
        heard(
            log,
            at,
            choices_prepared(w, vm, images, numbers, gone) + choice_made(
                all_offered(w, images, numbers, only),
                only,
                i,
            ),
        ),
    ensures
        came(
            spec_select_device(log, at, Some(vm), only),
            log,
            at,
            choices_prepared(w, vm, images, numbers, gone) + choice_made(
                all_offered(w, images, numbers, only),
                only,
                i,
            ),
            Ok(all_offered(w, images, numbers, only)[i]),
        ),
{
    broadcast use {encode_utf8_valid_utf8, encode_utf8_decode_utf8};

    let whole = spec_select_device(log, at, Some(vm), only);
    let t0 = choices_prepared(w, vm, images, numbers, gone);
    let t1 = choice_made(all_offered(w, images, numbers, only), only, i);
    lemma_heard(log, at, t0, t1);
    lemma_choices_prepared(log, at, w, vm, images, numbers, gone, only);
    assert(
        came(
            spec_device_choices(log, at, Some(vm), only),
            log,
            at,
            t0,
            Ok(all_offered(w, images, numbers, only)),
        )
    );
    if log.len() >= at + t0.len() {
        let at1 = at + t0.len();
        lemma_labels(all_offered(w, images, numbers, only));
        assert(came(whole, log, at1, t1, Ok(all_offered(w, images, numbers, only)[i])));
    }
    lemma_came(
        spec_device_choices(log, at, Some(vm), only),
        all_offered(w, images, numbers, only),
        whole,
        log,
        at,
        t0,
        t1,
        Ok(all_offered(w, images, numbers, only)[i]),
    );
}

proof fn lemma_labels(choices: Seq<ChoiceView>)
    ensures
        choice_labels(choices) == Seq::new(choices.len(), |j: int| reads(choices[j])),
{
    assert forall|j: int| 0 <= j < choices.len() implies choice_labels(choices)[j] == reads(
        choices[j],
    ) by {
        lemma_reads(choices[j]);
    }
    assert(choice_labels(choices) =~= Seq::new(choices.len(), |j: int| reads(choices[j])));
}

/// If the virtual machine has no device, there is none to detach.
#[verifier::spinoff_prover]
pub proof fn law_nothing_to_detach(
    log: Log,
    at: int,
    w: World,
    vm: Seq<char>,
    images: Seq<Seq<char>>,
    numbers: Seq<Option<u64>>,
    gone: Chain,
)
    requires
        settled(w),
        images.len() == w.drives.len(),
        numbers.len() == w.hids.len(),
        forall|j: int|
            0 <= j < numbers.len()
                ==> (#[trigger] numbers[j] matches Some(id) ==> id <= 0xffff_ffff),
        all_offered(w, images, numbers, true).len() == 0,
        heard(log, at, choices_prepared(w, vm, images, numbers, gone)),
    ensures
        came(
            spec_select_device(log, at, Some(vm), true),
            log,
            at,
            choices_prepared(w, vm, images, numbers, gone),
            Err(seq!["No devices are currently attached to the VM"@]),
        ),
{
    broadcast use {encode_utf8_valid_utf8, encode_utf8_decode_utf8};

    let whole = spec_select_device(log, at, Some(vm), true);
    let t0 = choices_prepared(w, vm, images, numbers, gone);
    lemma_choices_prepared(log, at, w, vm, images, numbers, gone, true);
    assert(came(whole, log, at, t0, Err(seq!["No devices are currently attached to the VM"@])));
}

// ---------------------------------------------------------------------------
// Devices of the host by name
// ---------------------------------------------------------------------------

/// The devices of the host whose name contains `name`, whatever the case of the
/// letters, each with whether the virtual machine has it; only those that it has,
/// if `only`.
pub open spec fn matching(w: World, hubs: bool, name: Seq<char>, only: bool) -> Seq<UsbView> {
    seen_devices(w, hubs, only).filter(
        |d: UsbView| contains_text(lowercased(d.name), lowercased(name)),
    )
}

/// The devices of the host, each with whether the virtual machine has it; only
/// those that it has, if `only`.
pub open spec fn seen_devices(w: World, hubs: bool, only: bool) -> Seq<UsbView> {
    let all = usb_listed(lines_of(w.lsusb), hubs);
    Seq::new(
        all.len(),
        |i: int|
            UsbView {
                attached: hostdevs_in(w.xml).contains((all[i].vendor_id, all[i].product_id)),
                ..all[i]
            },
    ).filter(|d: UsbView| only ==> d.attached)
}

proof fn lemma_seen_devices(w: World, hubs: bool, name: Seq<char>, only: bool)
    ensures
        shown(usb_listed(lines_of(w.lsusb), hubs), hostdevs_in(w.xml), only) == seen_devices(
            w,
            hubs,
            only,
        ),
        named(seen_devices(w, hubs, only), lowercased(name)) == matching(w, hubs, name, only),
{
    let all = usb_listed(lines_of(w.lsusb), hubs);
    assert(marked(all, hostdevs_in(w.xml)) =~= Seq::new(
        all.len(),
        |i: int|
            UsbView {
                attached: hostdevs_in(w.xml).contains((all[i].vendor_id, all[i].product_id)),
                ..all[i]
            },
    ));
    lemma_only_attached(marked(all, hostdevs_in(w.xml)), only);
    law_search_ignores_case(seen_devices(w, hubs, only), name, name);
}

/// How a device of the host reads among others: its ids, its name and where it is
/// connected. The console shows it in colours, with whether the virtual machine
/// has it.
pub open spec fn device_reads(front: Front, d: UsbView) -> Seq<SpanView> {
    match front {
        Front::Tool => seq![
            plain(
                (d.vendor_id + ":"@ + d.product_id) + " - "@ + d.name + " "@ + ("(Bus "@ + d.bus
                    + " Device "@ + d.device + ")"@),
            ),
        ],
        Front::Console => {
            let start = seq![
                cyan(d.vendor_id + ":"@ + d.product_id),
                plain(" - "@),
                plain(d.name),
                plain(" "@),
                dim("(Bus "@ + d.bus + " Device "@ + d.device + ")"@),
            ];
            if d.attached {
                start + seq![plain(" "@), green("[attached]"@)]
            } else {
                start
            }
        },
    }
}

proof fn lemma_device_reads(front: Front, devices: Seq<UsbView>)
    ensures
        offers(front, devices) == Seq::new(
            devices.len(),
            |j: int| device_reads(front, devices[j]),
        ),
{
    assert forall|j: int| 0 <= j < devices.len() implies offers(front, devices)[j] == device_reads(
        front,
        devices[j],
    ) by {
        assert(offers(front, devices)[j] =~= device_reads(front, devices[j]));
    }
    assert(offers(front, devices) =~= Seq::new(
        devices.len(),
        |j: int| device_reads(front, devices[j]),
    ));
}

/// The devices are offered, and the user picks the one at `i`.
pub open spec fn device_picked(
    front: Front,
    prompt: Seq<SpanView>,
    devices: Seq<UsbView>,
    i: int,
) -> Talk {
    seq![
        (
            RequestView::Choose(
                prompt,
                Seq::new(devices.len(), |j: int| device_reads(front, devices[j])),
                0,
            ),
            ReplyView::Picked(i),
        ),
    ]
}

/// No device before the one at `i` reads like it.
pub open spec fn reads_on_its_own(front: Front, devices: Seq<UsbView>, i: int) -> bool {
    &&& 0 <= i < devices.len()
    &&& forall|j: int|
        0 <= j < i ==> text_of(device_reads(front, #[trigger] devices[j])) != text_of(
            device_reads(front, devices[i]),
        )
}

proof fn lemma_picked(front: Front, devices: Seq<UsbView>, i: int)
    requires
        reads_on_its_own(front, devices, i),
    ensures
        picked(offers(front, devices), i) == Some(i),
{
    let options = offers(front, devices);
    lemma_device_reads(front, devices);
    law_pick_is_found(options, i);
    let k = picked(options, i).unwrap();
    assert(options[k] == device_reads(front, devices[k]));
    assert(options[i] == device_reads(front, devices[i]));
}

/// If one device of the host has the name in its own, that device is meant.
#[verifier::spinoff_prover]
pub proof fn law_one_match(
    log: Log,
    at: int,
    front: Front,
    w: World,
    vm: Seq<char>,
    name: Seq<char>,
    only: bool,
    d: UsbView,
)
    requires
        matching(w, front.hubs(), name, only) == seq![d],
        heard(log, at, seq![devices_listed(w), described(w, vm)]),
    ensures
        came(
            spec_find_device_by_name(front, log, at, name, Some(vm), only),
            log,
            at,
            seq![devices_listed(w), described(w, vm)],
            Ok((d.vendor_id, d.product_id)),
        ),
{
    broadcast use {encode_utf8_valid_utf8, encode_utf8_decode_utf8};

    let whole = spec_find_device_by_name(front, log, at, name, Some(vm), only);
    let t0 = seq![devices_listed(w), described(w, vm)];
    lemma_seen_devices(w, front.hubs(), name, only);
    assert(came(whole, log, at, t0, Ok((d.vendor_id, d.product_id))));
}

/// If no device of the host has the name in its own, the user is told so.
#[verifier::spinoff_prover]
pub proof fn law_no_match(
    log: Log,
    at: int,
    front: Front,
    w: World,
    vm: Seq<char>,
    name: Seq<char>,
    only: bool,
)
    requires
        matching(w, front.hubs(), name, only).len() == 0,
        heard(log, at, seq![devices_listed(w), described(w, vm)]),
    ensures
        came(
            spec_find_device_by_name(front, log, at, name, Some(vm), only),
            log,
            at,
            seq![devices_listed(w), described(w, vm)],
            Err(
                seq![
                    "No USB device found matching name: '"@ + name + match front {
                        Front::Console => "',"@,
                        Front::Tool => "'"@,
                    },
                ],
            ),
        ),
{
    broadcast use {encode_utf8_valid_utf8, encode_utf8_decode_utf8};

    let whole = spec_find_device_by_name(front, log, at, name, Some(vm), only);
    let t0 = seq![devices_listed(w), described(w, vm)];
    lemma_seen_devices(w, front.hubs(), name, only);
    assert(came(whole, log, at, t0, Err(
                seq![
                    "No USB device found matching name: '"@ + name + match front {
                        Front::Console => "',"@,
                        Front::Tool => "'"@,
                    },
                ],
            )));
}

/// If several devices of the host have the name in theirs, the user picks one
/// of them.
#[verifier::spinoff_prover]
pub proof fn law_many_matches(
    log: Log,
    at: int,
    front: Front,
    w: World,
    vm: Seq<char>,
    name: Seq<char>,
    only: bool,
    i: int,
)
    requires
        matching(w, front.hubs(), name, only).len() > 1,
        reads_on_its_own(front, matching(w, front.hubs(), name, only), i),
        heard(
            log,
            at,
            seq![devices_listed(w), described(w, vm)] + device_picked(
                front,
                line().push(cyan("🔌"@)).push(
                    plain(" Multiple devices match '"@ + name + "'. Select one"@),
                ),
                matching(w, front.hubs(), name, only),
                i,
            ),
        ),
    ensures
        came(
            spec_find_device_by_name(front, log, at, name, Some(vm), only),
            log,
            at,
            seq![devices_listed(w), described(w, vm)] + device_picked(
                front,
                line().push(cyan("🔌"@)).push(
                    plain(" Multiple devices match '"@ + name + "'. Select one"@),
                ),
                matching(w, front.hubs(), name, only),
                i,
            ),
            Ok(
                (
                    matching(
                        w,
                        front.hubs(),
                        name,
                        only,
                    )[i].vendor_id, matching(w, front.hubs(), name, only)[i].product_id
                ),
            ),
        ),
{
    broadcast use {encode_utf8_valid_utf8, encode_utf8_decode_utf8};

    let whole = spec_find_device_by_name(front, log, at, name, Some(vm), only);
    let t0 = seq![devices_listed(w), described(w, vm)];
    let t1 = device_picked(
        front,
        line().push(cyan("🔌"@)).push(plain(" Multiple devices match '"@ + name + "'. Select one"@)),
        matching(w, front.hubs(), name, only),
        i,
    );
    lemma_heard(log, at, t0, t1);
    assert(
        came(
            seen(log, at, vm, front.hubs()),
            log,
            at,
            t0,
            Ok((usb_listed(lines_of(w.lsusb), front.hubs()), hostdevs_in(w.xml))),
        )
    );
    if log.len() >= at + t0.len() {
        let at1 = at + t0.len();
        lemma_seen_devices(w, front.hubs(), name, only);
        lemma_device_reads(front, matching(w, front.hubs(), name, only));
        lemma_picked(front, matching(w, front.hubs(), name, only), i);
        assert(
            came(
                whole,
                log,
                at1,
                t1,
                Ok(
                    (
                        matching(
                            w,
                            front.hubs(),
                            name,
                            only,
                        )[i].vendor_id, matching(w, front.hubs(), name, only)[i].product_id
                    ),
                ),
            )
        );
    }
    lemma_came(
        seen(log, at, vm, front.hubs()),
        (usb_listed(lines_of(w.lsusb), front.hubs()), hostdevs_in(w.xml)),
        whole,
        log,
        at,
        t0,
        t1,
        Ok(
            (
                matching(
                    w,
                    front.hubs(),
                    name,
                    only,
                )[i].vendor_id, matching(w, front.hubs(), name, only)[i].product_id
            ),
        ),
    );
}

spec fn seen(log: Log, at: int, vm: Seq<char>, hubs: bool) -> Outcome<
    (Seq<UsbView>, Seq<(Seq<char>, Seq<char>)>),
> {
    bind(
        spec_usb_devices(log, at, hubs),
        |devices: Seq<UsbView>, at: int|
            bind(
                spec_attached_to(log, at, Some(vm)),
                |attached: Seq<(Seq<char>, Seq<char>)>, at: int|
                    Outcome::Ready((devices, attached), at),
            ),
    )
}

/// The console offers the devices of the host but for root hubs; the ids of the
/// one that the user picks are the ones taken.
#[verifier::spinoff_prover]
pub proof fn law_pick_host_device(log: Log, at: int, w: World, vm: Seq<char>, only: bool, i: int)
    requires
        reads_on_its_own(Front::Console, seen_devices(w, false, only), i),
        heard(log, at, seq![devices_listed(w), described(w, vm)] + device_picked(Front::Console, (if only {
                    line().push(yellow("🔌"@)).push(plain(" Select a USB device to detach"@))
                } else {
                    line().push(cyan("🔌"@)).push(plain(" Select a USB device"@))
                }), seen_devices(w, false, only), i)),
    ensures
        came(
            spec_select_usb_device(log, at, Some(vm), only),
            log,
            at,
            seq![devices_listed(w), described(w, vm)] + device_picked(Front::Console, (if only {
                    line().push(yellow("🔌"@)).push(plain(" Select a USB device to detach"@))
                } else {
                    line().push(cyan("🔌"@)).push(plain(" Select a USB device"@))
                }), seen_devices(w, false, only), i),
            Ok(
                (
                    seen_devices(
                        w,
                        false,
                        only,
                    )[i].vendor_id, seen_devices(w, false, only)[i].product_id
                ),
            ),
        ),
{
    broadcast use {encode_utf8_valid_utf8, encode_utf8_decode_utf8};

    let whole = spec_select_usb_device(log, at, Some(vm), only);
    let t0 = seq![devices_listed(w), described(w, vm)];
    let t1 = device_picked(Front::Console, (if only {
                    line().push(yellow("🔌"@)).push(plain(" Select a USB device to detach"@))
                } else {
                    line().push(cyan("🔌"@)).push(plain(" Select a USB device"@))
                }), seen_devices(w, false, only), i);
    lemma_heard(log, at, t0, t1);
    assert(
        came(
            seen(log, at, vm, false),
            log,
            at,
            t0,
            Ok((usb_listed(lines_of(w.lsusb), false), hostdevs_in(w.xml))),
        )
    );
    if log.len() >= at + t0.len() {
        let at1 = at + t0.len();
        lemma_seen_devices(w, false, seq![], only);
        lemma_device_reads(Front::Console, seen_devices(w, false, only));
        lemma_picked(Front::Console, seen_devices(w, false, only), i);
        assert(
            came(
                whole,
                log,
                at1,
                t1,
                Ok(
                    (
                        seen_devices(
                            w,
                            false,
                            only,
                        )[i].vendor_id, seen_devices(w, false, only)[i].product_id
                    ),
                ),
            )
        );
    }
    lemma_came(
        seen(log, at, vm, false),
        (usb_listed(lines_of(w.lsusb), false), hostdevs_in(w.xml)),
        whole,
        log,
        at,
        t0,
        t1,
        Ok((seen_devices(w, false, only)[i].vendor_id, seen_devices(w, false, only)[i].product_id)),
    );
}

/// Without any device of the host there is nothing to pick.
#[verifier::spinoff_prover]
pub proof fn law_no_host_device(log: Log, at: int, w: World, vm: Seq<char>, only: bool)
    requires
        seen_devices(w, false, only).len() == 0,
        heard(log, at, seq![devices_listed(w), described(w, vm)]),
    ensures
        came(
            spec_select_usb_device(log, at, Some(vm), only),
            log,
            at,
            seq![devices_listed(w), described(w, vm)],
            Err(
                seq![
                    if only {
                        "No USB devices are currently attached to the VM"@
                    } else {
                        "No USB devices found"@
                    },
                ],
            ),
        ),
{
    broadcast use {encode_utf8_valid_utf8, encode_utf8_decode_utf8};

    let whole = spec_select_usb_device(log, at, Some(vm), only);
    let t0 = seq![devices_listed(w), described(w, vm)];
    lemma_seen_devices(w, false, seq![], only);
    assert(came(whole, log, at, t0, Err(
                seq![
                    if only {
                        "No USB devices are currently attached to the VM"@
                    } else {
                        "No USB devices found"@
                    },
                ],
            )));
}

#[verifier::spinoff_prover]
proof fn lemma_attach_by_match(
    log: Log,
    at: int,
    w: World,
    vm: Seq<char>,
    name: Seq<char>,
    d: UsbView,
)
    requires
        settled(w),
        !name.contains(':'),
        no_such_drive(w.drives, name),
        no_such_hid(w.hids, name),
        matching(w, true, name, false) == seq![d],
        heard(log, at, drives_read(w) + (hids_read(w) + seq![devices_listed(w), described(w, vm)])),
    ensures
        came(
            spec_resolve_device(log, at, vm, Some(name), false),
            log,
            at,
            drives_read(w) + (hids_read(w) + seq![devices_listed(w), described(w, vm)]),
            Ok(SelectedView::RealUsb { vendor_id: d.vendor_id, product_id: d.product_id }),
        ),
{
    lemma_is_name(name);
    lemma_drive_from(w.drives, name, 0);
    lemma_hid_from(w.hids, name, 0);
    broadcast use {encode_utf8_valid_utf8, encode_utf8_decode_utf8};

    let whole = spec_resolve_device(log, at, vm, Some(name), false);
    let t0 = drives_read(w);
    let t1 = hids_read(w);
    let t2 = seq![devices_listed(w), described(w, vm)];
    lemma_heard(log, at, t0, t1 + t2);
    lemma_drives_read(log, at, w);
    assert(came(spec_load_virtual_drives(log, at), log, at, t0, Ok(w.drives)));
    if log.len() >= at + t0.len() {
        let at1 = at + t0.len();
        lemma_heard(log, at1, t1, t2);
        lemma_hids_read(log, at1, w);
        assert(came(spec_load_hid_devices(log, at1), log, at1, t1, Ok(w.hids)));
        if log.len() >= at1 + t1.len() {
            let at2 = at1 + t1.len();
            law_one_match(log, at2, Front::Tool, w, vm, name, false, d);
            assert(
                came(
                    whole,
                    log,
                    at2,
                    t2,
                    Ok(SelectedView::RealUsb { vendor_id: d.vendor_id, product_id: d.product_id }),
                )
            );
        }
        lemma_came(
            spec_load_hid_devices(log, at1),
            w.hids,
            whole,
            log,
            at1,
            t1,
            t2,
            Ok(SelectedView::RealUsb { vendor_id: d.vendor_id, product_id: d.product_id }),
        );
    }
    lemma_came(
        spec_load_virtual_drives(log, at),
        w.drives,
        whole,
        log,
        at,
        t0,
        t1 + t2,
        Ok(SelectedView::RealUsb { vendor_id: d.vendor_id, product_id: d.product_id }),
    );
}

/// `attach` with a part of the name of one device of the host: that device is
/// attached, by its ids.
#[verifier::spinoff_prover]
pub proof fn law_attach_usb_by_name(
    log: Log,
    at: int,
    w: World,
    vm: Seq<char>,
    name: Seq<char>,
    d: UsbView,
    e: UsbView,
)
    requires
        settled(w),
        !name.contains(':'),
        no_such_drive(w.drives, name),
        no_such_hid(w.hids, name),
        matching(w, true, name, false) == seq![d],
        lists_vm(w.unpaused, vm),
        !hostdevs_in(w.xml).contains((d.vendor_id, d.product_id)),
        device_with(usb_listed(lines_of(w.lsusb), true), d.vendor_id, d.product_id) == Some(e),
        heard(
            log,
            at,
            vm_remembered(w, vm) + (
                (drives_read(w) + (hids_read(w) + seq![devices_listed(w), described(w, vm)]))
                    + usb_attached(w, vm, d.vendor_id, d.product_id, e.name)
            ),
        ),
    ensures
        came(
            spec_run_tool(log, at, asked(CommandsView::Attach, vm, name)),
            log,
            at,
            vm_remembered(w, vm) + (
                (drives_read(w) + (hids_read(w) + seq![devices_listed(w), described(w, vm)]))
                    + usb_attached(w, vm, d.vendor_id, d.product_id, e.name)
            ),
            Ok(Ending::Done),
        ),
{
    broadcast use {encode_utf8_valid_utf8, encode_utf8_decode_utf8};

    let whole = spec_run_tool(log, at, asked(CommandsView::Attach, vm, name));
    let t0 = vm_remembered(w, vm);
    let t1 = (drives_read(w) + (hids_read(w) + seq![devices_listed(w), described(w, vm)]));
    let t2 = usb_attached(w, vm, d.vendor_id, d.product_id, e.name);
    lemma_heard(log, at, t0, t1 + t2);
    lemma_vm_remembered(log, at, w, vm);
    assert(came(spec_attempt(spec_save_last_vm(log, at, vm)), log, at, t0, Ok(Some(()))));
    if log.len() >= at + t0.len() {
        let at1 = at + t0.len();
        lemma_heard(log, at1, t1, t2);
        lemma_attach_by_match(log, at1, w, vm, name, d);
        assert(
            came(
                spec_resolve_device(log, at1, vm, Some(name), false),
                log,
                at1,
                t1,
                Ok(SelectedView::RealUsb { vendor_id: d.vendor_id, product_id: d.product_id }),
            )
        );
        if log.len() >= at1 + t1.len() {
            let at2 = at1 + t1.len();
            lemma_usb_attached(log, at2, Front::Tool, w, vm, d.vendor_id, d.product_id, e);
            assert(came(whole, log, at2, t2, Ok(Ending::Done)));
        }
        lemma_came(
            spec_resolve_device(log, at1, vm, Some(name), false),
            SelectedView::RealUsb { vendor_id: d.vendor_id, product_id: d.product_id },
            whole,
            log,
            at1,
            t1,
            t2,
            Ok(Ending::Done),
        );
    }
    lemma_came(
        spec_attempt(spec_save_last_vm(log, at, vm)),
        Some(()),
        whole,
        log,
        at,
        t0,
        t1 + t2,
        Ok(Ending::Done),
    );
}

#[verifier::spinoff_prover]
proof fn lemma_detach_by_match(
    log: Log,
    at: int,
    w: World,
    vm: Seq<char>,
    name: Seq<char>,
    d: UsbView,
)
    requires
        settled(w),
        !name.contains(':'),
        no_such_drive(w.drives, name),
        no_such_hid(w.hids, name),
        matching(w, true, name, true) == seq![d],
        heard(log, at, drives_read(w) + (hids_read(w) + seq![devices_listed(w), described(w, vm)])),
    ensures
        came(
            spec_resolve_device(log, at, vm, Some(name), true),
            log,
            at,
            drives_read(w) + (hids_read(w) + seq![devices_listed(w), described(w, vm)]),
            Ok(SelectedView::RealUsb { vendor_id: d.vendor_id, product_id: d.product_id }),
        ),
{
    lemma_is_name(name);
    lemma_drive_from(w.drives, name, 0);
    lemma_hid_from(w.hids, name, 0);
    broadcast use {encode_utf8_valid_utf8, encode_utf8_decode_utf8};

    let whole = spec_resolve_device(log, at, vm, Some(name), true);
    let t0 = drives_read(w);
    let t1 = hids_read(w);
    let t2 = seq![devices_listed(w), described(w, vm)];
    lemma_heard(log, at, t0, t1 + t2);
    lemma_drives_read(log, at, w);
    assert(came(spec_load_virtual_drives(log, at), log, at, t0, Ok(w.drives)));
    if log.len() >= at + t0.len() {
        let at1 = at + t0.len();
        lemma_heard(log, at1, t1, t2);
        lemma_hids_read(log, at1, w);
        assert(came(spec_load_hid_devices(log, at1), log, at1, t1, Ok(w.hids)));
        if log.len() >= at1 + t1.len() {
            let at2 = at1 + t1.len();
            law_one_match(log, at2, Front::Tool, w, vm, name, true, d);
            assert(
                came(
                    whole,
                    log,
                    at2,
                    t2,
                    Ok(SelectedView::RealUsb { vendor_id: d.vendor_id, product_id: d.product_id }),
                )
            );
        }
        lemma_came(
            spec_load_hid_devices(log, at1),
            w.hids,
            whole,
            log,
            at1,
            t1,
            t2,
            Ok(SelectedView::RealUsb { vendor_id: d.vendor_id, product_id: d.product_id }),
        );
    }
    lemma_came(
        spec_load_virtual_drives(log, at),
        w.drives,
        whole,
        log,
        at,
        t0,
        t1 + t2,
        Ok(SelectedView::RealUsb { vendor_id: d.vendor_id, product_id: d.product_id }),
    );
}

/// `detach` with a part of the name of one device of the host: that device is
/// detached, by its ids.
#[verifier::spinoff_prover]
pub proof fn law_detach_usb_by_name(
    log: Log,
    at: int,
    w: World,
    vm: Seq<char>,
    name: Seq<char>,
    d: UsbView,
    e: UsbView,
)
    requires
        settled(w),
        !name.contains(':'),
        no_such_drive(w.drives, name),
        no_such_hid(w.hids, name),
        matching(w, true, name, true) == seq![d],
        lists_vm(w.unpaused, vm),
        hostdevs_in(w.xml).contains((d.vendor_id, d.product_id)),
        device_with(usb_listed(lines_of(w.lsusb), true), d.vendor_id, d.product_id) == Some(e),
        heard(
            log,
            at,
            vm_remembered(w, vm) + (
                (drives_read(w) + (hids_read(w) + seq![devices_listed(w), described(w, vm)]))
                    + usb_detached(w, vm, d.vendor_id, d.product_id, e.name)
            ),
        ),
    ensures
        came(
            spec_run_tool(log, at, asked(CommandsView::Detach, vm, name)),
            log,
            at,
            vm_remembered(w, vm) + (
                (drives_read(w) + (hids_read(w) + seq![devices_listed(w), described(w, vm)]))
                    + usb_detached(w, vm, d.vendor_id, d.product_id, e.name)
            ),
            Ok(Ending::Done),
        ),
{
    broadcast use {encode_utf8_valid_utf8, encode_utf8_decode_utf8};

    let whole = spec_run_tool(log, at, asked(CommandsView::Detach, vm, name));
    let t0 = vm_remembered(w, vm);
    let t1 = (drives_read(w) + (hids_read(w) + seq![devices_listed(w), described(w, vm)]));
    let t2 = usb_detached(w, vm, d.vendor_id, d.product_id, e.name);
    lemma_heard(log, at, t0, t1 + t2);
    lemma_vm_remembered(log, at, w, vm);
    assert(came(spec_attempt(spec_save_last_vm(log, at, vm)), log, at, t0, Ok(Some(()))));
    if log.len() >= at + t0.len() {
        let at1 = at + t0.len();
        lemma_heard(log, at1, t1, t2);
        lemma_detach_by_match(log, at1, w, vm, name, d);
        assert(
            came(
                spec_resolve_device(log, at1, vm, Some(name), true),
                log,
                at1,
                t1,
                Ok(SelectedView::RealUsb { vendor_id: d.vendor_id, product_id: d.product_id }),
            )
        );
        if log.len() >= at1 + t1.len() {
            let at2 = at1 + t1.len();
            lemma_usb_detached(log, at2, Front::Tool, w, vm, d.vendor_id, d.product_id, e);
            assert(came(whole, log, at2, t2, Ok(Ending::Done)));
        }
        lemma_came(
            spec_resolve_device(log, at1, vm, Some(name), true),
            SelectedView::RealUsb { vendor_id: d.vendor_id, product_id: d.product_id },
            whole,
            log,
            at1,
            t1,
            t2,
            Ok(Ending::Done),
        );
    }
    lemma_came(
        spec_attempt(spec_save_last_vm(log, at, vm)),
        Some(()),
        whole,
        log,
        at,
        t0,
        t1 + t2,
        Ok(Ending::Done),
    );
}

/// `status` with a part of the name of one device of the host: it is told of
/// that device, by its ids.
#[verifier::spinoff_prover]
pub proof fn law_status_usb_by_name(
    log: Log,
    at: int,
    w: World,
    vm: Seq<char>,
    name: Seq<char>,
    d: UsbView,
    e: UsbView,
    place: Option<(Seq<char>, Seq<char>)>,
    attached: bool,
)
    requires
        settled(w),
        !name.contains(':'),
        no_such_drive(w.drives, name),
        no_such_hid(w.hids, name),
        matching(w, true, name, false) == seq![d],
        attached == hostdevs_in(w.xml).contains((d.vendor_id, d.product_id)),
        place == place_of(w.lsusb, d.vendor_id, d.product_id, true),
        device_with(usb_listed(lines_of(w.lsusb), true), d.vendor_id, d.product_id) == Some(e),
        heard(
            log,
            at,
            vm_remembered(w, vm) + (
                (drives_read(w) + (hids_read(w) + seq![devices_listed(w), described(w, vm)]))
                    + usb_status(w, vm, d.vendor_id, d.product_id, e.name, place, attached)
            ),
        ),
    ensures
        came(
            spec_run_tool(log, at, asked(CommandsView::Status, vm, name)),
            log,
            at,
            vm_remembered(w, vm) + (
                (drives_read(w) + (hids_read(w) + seq![devices_listed(w), described(w, vm)]))
                    + usb_status(w, vm, d.vendor_id, d.product_id, e.name, place, attached)
            ),
            Ok(Ending::Done),
        ),
{
    broadcast use {encode_utf8_valid_utf8, encode_utf8_decode_utf8};

    let whole = spec_run_tool(log, at, asked(CommandsView::Status, vm, name));
    let t0 = vm_remembered(w, vm);
    let t1 = (drives_read(w) + (hids_read(w) + seq![devices_listed(w), described(w, vm)]));
    let t2 = usb_status(w, vm, d.vendor_id, d.product_id, e.name, place, attached);
    lemma_heard(log, at, t0, t1 + t2);
    lemma_vm_remembered(log, at, w, vm);
    assert(came(spec_attempt(spec_save_last_vm(log, at, vm)), log, at, t0, Ok(Some(()))));
    if log.len() >= at + t0.len() {
        let at1 = at + t0.len();
        lemma_heard(log, at1, t1, t2);
        lemma_attach_by_match(log, at1, w, vm, name, d);
        assert(
            came(
                spec_resolve_device(log, at1, vm, Some(name), false),
                log,
                at1,
                t1,
                Ok(SelectedView::RealUsb { vendor_id: d.vendor_id, product_id: d.product_id }),
            )
        );
        if log.len() >= at1 + t1.len() {
            let at2 = at1 + t1.len();
            lemma_usb_status(
                log,
                at2,
                Front::Tool,
                w,
                vm,
                d.vendor_id,
                d.product_id,
                e,
                place,
                attached,
            );
            assert(came(whole, log, at2, t2, Ok(Ending::Done)));
        }
        lemma_came(
            spec_resolve_device(log, at1, vm, Some(name), false),
            SelectedView::RealUsb { vendor_id: d.vendor_id, product_id: d.product_id },
            whole,
            log,
            at1,
            t1,
            t2,
            Ok(Ending::Done),
        );
    }
    lemma_came(
        spec_attempt(spec_save_last_vm(log, at, vm)),
        Some(()),
        whole,
        log,
        at,
        t0,
        t1 + t2,
        Ok(Ending::Done),
    );
}

// ---------------------------------------------------------------------------
// The console
// ---------------------------------------------------------------------------

/// The command line of the console.
pub open spec fn told_to(
    command: crate::console::Commands,
    vm: Option<Seq<char>>,
    device: Option<Seq<char>>,
) -> crate::console::CliView {
    crate::console::CliView { vm, device, command }
}

/// Two ids with a colon between them.
pub open spec fn is_pair(vendor_id: Seq<char>, product_id: Seq<char>) -> bool {
    &&& vendor_id.len() > 0
    &&& product_id.len() > 0
    &&& !vendor_id.contains(':')
    &&& !product_id.contains(':')
}

proof fn lemma_until(s: Seq<char>, rest: Seq<char>)
    requires
        !s.contains(':'),
    ensures
        until(s + ":"@ + rest, ':') == s.len(),
        until(s, ':') >= s.len(),
{
    reveal_strlit(":");
    let t = s + ":"@ + rest;
    lemma_until_bounds(t, ':');
    lemma_until_bounds(s, ':');
    let i = until(t, ':');
    assert(t[s.len() as int] == ':');
    if i < s.len() {
        assert(t[i] == s[i]);
        assert(s.contains(s[i]));
    }
    let j = until(s, ':');
    if j < s.len() {
        assert(s.contains(s[j]));
    }
}

/// The console takes two ids as they are given.
proof fn lemma_pair(
    log: Log,
    at: int,
    vm: Seq<char>,
    vendor_id: Seq<char>,
    product_id: Seq<char>,
    only: bool,
)
    requires
        is_pair(vendor_id, product_id),
    ensures
        spec_resolve_ids(log, at, vm, Some(vendor_id + ":"@ + product_id), only)
            == Outcome::Ready((vendor_id, product_id), at),
{
    reveal_strlit(":");
    let s = vendor_id + ":"@ + product_id;
    lemma_until(vendor_id, product_id);
    lemma_until(product_id, seq![]);
    assert(s[vendor_id.len() as int] == ':');
    assert(s.take(vendor_id.len() as int) =~= vendor_id);
    assert(s.skip(vendor_id.len() as int + 1) =~= product_id);
    assert(pieces_of(product_id, ':') =~= seq![product_id]);
    assert(pieces_of(s, ':') =~= seq![vendor_id, product_id]);
}

/// The console with the ids of a device of the host: that device is attached.
#[verifier::spinoff_prover]
pub proof fn law_console_attach(
    log: Log,
    at: int,
    w: World,
    vm: Seq<char>,
    vendor_id: Seq<char>,
    product_id: Seq<char>,
    d: UsbView,
)
    requires
        settled(w),
        is_pair(vendor_id, product_id),
        lists_vm(w.unpaused, vm),
        !hostdevs_in(w.xml).contains((vendor_id, product_id)),
        device_with(usb_listed(lines_of(w.lsusb), false), vendor_id, product_id) == Some(d),
        heard(log, at, vm_remembered(w, vm) + usb_attached(w, vm, vendor_id, product_id, d.name)),
    ensures
        came(
            spec_run(
                log,
                at,
                told_to(
                    crate::console::Commands::Attach,
                    Some(vm),
                    Some(vendor_id + ":"@ + product_id),
                ),
            ),
            log,
            at,
            vm_remembered(w, vm) + usb_attached(w, vm, vendor_id, product_id, d.name),
            Ok(()),
        ),
{
    broadcast use {encode_utf8_valid_utf8, encode_utf8_decode_utf8};

    let whole = spec_run(
        log,
        at,
        told_to(crate::console::Commands::Attach, Some(vm), Some(vendor_id + ":"@ + product_id)),
    );
    let t0 = vm_remembered(w, vm);
    let t1 = usb_attached(w, vm, vendor_id, product_id, d.name);
    lemma_heard(log, at, t0, t1);
    lemma_vm_remembered(log, at, w, vm);
    assert(came(spec_attempt(spec_save_last_vm(log, at, vm)), log, at, t0, Ok(Some(()))));
    if log.len() >= at + t0.len() {
        let at1 = at + t0.len();
        lemma_pair(log, at1, vm, vendor_id, product_id, false);
        lemma_usb_attached(log, at1, Front::Console, w, vm, vendor_id, product_id, d);
        assert(came(whole, log, at1, t1, Ok(())));
    }
    lemma_came(
        spec_attempt(spec_save_last_vm(log, at, vm)),
        Some(()),
        whole,
        log,
        at,
        t0,
        t1,
        Ok(()),
    );
}

/// The console with the ids of a device of the host: that device is detached.
#[verifier::spinoff_prover]
pub proof fn law_console_detach(
    log: Log,
    at: int,
    w: World,
    vm: Seq<char>,
    vendor_id: Seq<char>,
    product_id: Seq<char>,
    d: UsbView,
)
    requires
        settled(w),
        is_pair(vendor_id, product_id),
        lists_vm(w.unpaused, vm),
        hostdevs_in(w.xml).contains((vendor_id, product_id)),
        device_with(usb_listed(lines_of(w.lsusb), false), vendor_id, product_id) == Some(d),
        heard(log, at, vm_remembered(w, vm) + usb_detached(w, vm, vendor_id, product_id, d.name)),
    ensures
        came(
            spec_run(
                log,
                at,
                told_to(
                    crate::console::Commands::Detach,
                    Some(vm),
                    Some(vendor_id + ":"@ + product_id),
                ),
            ),
            log,
            at,
            vm_remembered(w, vm) + usb_detached(w, vm, vendor_id, product_id, d.name),
            Ok(()),
        ),
{
    broadcast use {encode_utf8_valid_utf8, encode_utf8_decode_utf8};

    let whole = spec_run(
        log,
        at,
        told_to(crate::console::Commands::Detach, Some(vm), Some(vendor_id + ":"@ + product_id)),
    );
    let t0 = vm_remembered(w, vm);
    let t1 = usb_detached(w, vm, vendor_id, product_id, d.name);
    lemma_heard(log, at, t0, t1);
    lemma_vm_remembered(log, at, w, vm);
    assert(came(spec_attempt(spec_save_last_vm(log, at, vm)), log, at, t0, Ok(Some(()))));
    if log.len() >= at + t0.len() {
        let at1 = at + t0.len();
        lemma_pair(log, at1, vm, vendor_id, product_id, true);
        lemma_usb_detached(log, at1, Front::Console, w, vm, vendor_id, product_id, d);
        assert(came(whole, log, at1, t1, Ok(())));
    }
    lemma_came(
        spec_attempt(spec_save_last_vm(log, at, vm)),
        Some(()),
        whole,
        log,
        at,
        t0,
        t1,
        Ok(()),
    );
}

/// The console with the ids of a device of the host: it is told of that device.
#[verifier::spinoff_prover]
pub proof fn law_console_status(
    log: Log,
    at: int,
    w: World,
    vm: Seq<char>,
    vendor_id: Seq<char>,
    product_id: Seq<char>,
    d: UsbView,
    place: Option<(Seq<char>, Seq<char>)>,
    attached: bool,
)
    requires
        settled(w),
        is_pair(vendor_id, product_id),
        attached == hostdevs_in(w.xml).contains((vendor_id, product_id)),
        place == place_of(w.lsusb, vendor_id, product_id, false),
        device_with(usb_listed(lines_of(w.lsusb), false), vendor_id, product_id) == Some(d),
        heard(
            log,
            at,
            vm_remembered(w, vm) + usb_status(
                w,
                vm,
                vendor_id,
                product_id,
                d.name,
                place,
                attached,
            ),
        ),
    ensures
        came(
            spec_run(
                log,
                at,
                told_to(
                    crate::console::Commands::Status,
                    Some(vm),
                    Some(vendor_id + ":"@ + product_id),
                ),
            ),
            log,
            at,
            vm_remembered(w, vm) + usb_status(
                w,
                vm,
                vendor_id,
                product_id,
                d.name,
                place,
                attached,
            ),
            Ok(()),
        ),
{
    broadcast use {encode_utf8_valid_utf8, encode_utf8_decode_utf8};

    let whole = spec_run(
        log,
        at,
        told_to(crate::console::Commands::Status, Some(vm), Some(vendor_id + ":"@ + product_id)),
    );
    let t0 = vm_remembered(w, vm);
    let t1 = usb_status(w, vm, vendor_id, product_id, d.name, place, attached);
    lemma_heard(log, at, t0, t1);
    lemma_vm_remembered(log, at, w, vm);
    assert(came(spec_attempt(spec_save_last_vm(log, at, vm)), log, at, t0, Ok(Some(()))));
    if log.len() >= at + t0.len() {
        let at1 = at + t0.len();
        lemma_pair(log, at1, vm, vendor_id, product_id, false);
        lemma_usb_status(
            log,
            at1,
            Front::Console,
            w,
            vm,
            vendor_id,
            product_id,
            d,
            place,
            attached,
        );
        assert(came(whole, log, at1, t1, Ok(())));
    }
    lemma_came(
        spec_attempt(spec_save_last_vm(log, at, vm)),
        Some(()),
        whole,
        log,
        at,
        t0,
        t1,
        Ok(()),
    );
}

/// The console goes by the ids of the device that the user picks, or whose name
/// was found, just as if they had been given.
#[verifier::spinoff_prover]
pub proof fn law_console_acts_on_what_was_found(
    log: Log,
    at: int,
    m: int,
    n: int,
    vm: Seq<char>,
    device: Option<Seq<char>>,
    command: crate::console::Commands,
    vendor_id: Seq<char>,
    product_id: Seq<char>,
)
    requires
        spec_attempt(spec_save_last_vm(log, at, vm)) matches Outcome::Ready(saved, m0) && m0 == m,
        device matches Some(name) ==> !name.contains(':') && spec_find_device_by_name(
            Front::Console,
            log,
            m,
            name,
            Some(vm),
            command == crate::console::Commands::Detach,
        ) == Outcome::Ready((vendor_id, product_id), n),
        device is None ==> spec_select_usb_device(
            log,
            m,
            Some(vm),
            command == crate::console::Commands::Detach,
        ) == Outcome::Ready((vendor_id, product_id), n),
    ensures
        command == crate::console::Commands::Attach ==> spec_run(
            log,
            at,
            told_to(command, Some(vm), device),
        ) == spec_attach_device(Front::Console, log, n, vm, vendor_id, product_id),
        command == crate::console::Commands::Detach ==> spec_run(
            log,
            at,
            told_to(command, Some(vm), device),
        ) == spec_detach_device(Front::Console, log, n, vm, vendor_id, product_id),
        command == crate::console::Commands::Status ==> spec_run(
            log,
            at,
            told_to(command, Some(vm), device),
        ) == spec_show_status(Front::Console, log, n, vm, vendor_id, product_id),
{
}

/// Left to choose the virtual machine, the user chooses it first; all goes on as
/// if it had been given to the console.
pub proof fn law_console_acts_on_the_chosen_machine(
    log: Log,
    at: int,
    n: int,
    vm: Seq<char>,
    device: Option<Seq<char>>,
    command: crate::console::Commands,
)
    requires
        spec_select_vm(log, at) == Outcome::Ready(vm, n),
    ensures
        spec_run(log, at, told_to(command, None, device)) == spec_run(
            log,
            n,
            told_to(command, Some(vm), device),
        ),
{
}

// ---------------------------------------------------------------------------
// New devices
// ---------------------------------------------------------------------------

/// The user enters a name, and is told what it was made into, if it was changed.
pub open spec fn name_entered(prompt: Seq<char>, raw: Seq<char>) -> Talk {
    if sanitized(raw) == raw {
        seq![(RequestView::Enter(prompt, None), ReplyView::Text(raw))]
    } else {
        seq![
            (RequestView::Enter(prompt, None), ReplyView::Text(raw)),
            told(
                line().push(plain("Note: name sanitized to '"@)).push(cyan(sanitized(raw))).push(
                    plain("'"@),
                ),
            ),
        ]
    }
}

/// A drive that the user describes is made under the sanitized name and in the
/// size that was entered, and it is the device to act on.
#[verifier::spinoff_prover]
pub proof fn law_new_drive(
    log: Log,
    at: int,
    w: World,
    raw: Seq<char>,
    size: Seq<char>,
    now: u64,
    text: Seq<char>,
)
    requires
        settled(w),
        sanitized(raw).len() > 0,
        no_such_drive(w.drives, sanitized(raw)),
        no_such_hid(w.hids, sanitized(raw)),
        heard(
            log,
            at,
            name_entered("Name for the new storage drive:"@, raw) + (
                seq![
                    (
                        RequestView::Enter(
                            "Size (e.g. 4G, 8G, 16G):"@,
                            Some("4G"@),
                        ), ReplyView::Text(size)
                    ),
                ]
                    + (
                        drives_read(w)
                            + (hids_read(w) + drive_made(w, sanitized(raw), size, now, text))
                    )
            ),
        ),
    ensures
        came(
            spec_new_drive(log, at),
            log,
            at,
            name_entered("Name for the new storage drive:"@, raw) + (
                seq![
                    (
                        RequestView::Enter(
                            "Size (e.g. 4G, 8G, 16G):"@,
                            Some("4G"@),
                        ), ReplyView::Text(size)
                    ),
                ]
                    + (
                        drives_read(w)
                            + (hids_read(w) + drive_made(w, sanitized(raw), size, now, text))
                    )
            ),
            Ok(SelectedView::Storage { name: sanitized(raw) }),
        ),
{
    broadcast use {encode_utf8_valid_utf8, encode_utf8_decode_utf8};

    let whole = spec_new_drive(log, at);
    let t0 = name_entered("Name for the new storage drive:"@, raw);
    let t1 = seq![
        (RequestView::Enter("Size (e.g. 4G, 8G, 16G):"@, Some("4G"@)), ReplyView::Text(size)),
    ];
    let t2 = (drives_read(w) + (hids_read(w) + drive_made(w, sanitized(raw), size, now, text)));
    lemma_heard(log, at, t0, t1 + t2);
    assert(
        came(
            spec_enter_name(
                log,
                at,
                "Name for the new storage drive:"@,
                "Failed to get drive name"@,
            ),
            log,
            at,
            t0,
            Ok(sanitized(raw)),
        )
    );
    if log.len() >= at + t0.len() {
        let at1 = at + t0.len();
        lemma_heard(log, at1, t1, t2);
        assert(
            came(
                in_context(
                    spec_ask_text(
                        log,
                        at1,
                        RequestView::Enter("Size (e.g. 4G, 8G, 16G):"@, Some("4G"@)),
                    ),
                    "Failed to get drive size"@,
                ),
                log,
                at1,
                t1,
                Ok(size),
            )
        );
        if log.len() >= at1 + t1.len() {
            let at2 = at1 + t1.len();
            law_sanitizing_is_idempotent(raw);
            lemma_drive_created(log, at2, w, sanitized(raw), size, now, text);
            assert(came(whole, log, at2, t2, Ok(SelectedView::Storage { name: sanitized(raw) })));
        }
        lemma_came(
            in_context(
                spec_ask_text(
                    log,
                    at1,
                    RequestView::Enter("Size (e.g. 4G, 8G, 16G):"@, Some("4G"@)),
                ),
                "Failed to get drive size"@,
            ),
            size,
            whole,
            log,
            at1,
            t1,
            t2,
            Ok(SelectedView::Storage { name: sanitized(raw) }),
        );
    }
    lemma_came(
        spec_enter_name(log, at, "Name for the new storage drive:"@, "Failed to get drive name"@),
        sanitized(raw),
        whole,
        log,
        at,
        t0,
        t1 + t2,
        Ok(SelectedView::Storage { name: sanitized(raw) }),
    );
}

/// A HID device that the user describes is made under the sanitized name and
/// with the ids that were entered, and it is the device to act on.
#[verifier::spinoff_prover]
pub proof fn law_new_hid(
    log: Log,
    at: int,
    w: World,
    raw: Seq<char>,
    vid: Seq<char>,
    pid: Seq<char>,
    text: Seq<char>,
)
    requires
        settled(w),
        sanitized(raw).len() > 0,
        no_such_drive(w.drives, sanitized(raw)),
        no_such_hid(w.hids, sanitized(raw)),
        heard(
            log,
            at,
            name_entered("Name for the new HID device:"@, raw) + (
                seq![(RequestView::Enter("Vendor ID (e.g. 0x0c2e):"@, None), ReplyView::Text(vid))]
                    + (
                        seq![
                            (
                                RequestView::Enter(
                                    "Product ID (e.g. 0x0b61):"@,
                                    None,
                                ), ReplyView::Text(pid)
                            ),
                        ]
                            + (
                                hids_read(w)
                                    + (
                                        drives_read(w)
                                            + hid_made(
                                                w,
                                                HidView { name: sanitized(raw), vid, pid },
                                                text,
                                            )
                                    )
                            )
                    )
            ),
        ),
    ensures
        came(
            spec_new_hid(log, at),
            log,
            at,
            name_entered("Name for the new HID device:"@, raw) + (
                seq![(RequestView::Enter("Vendor ID (e.g. 0x0c2e):"@, None), ReplyView::Text(vid))]
                    + (
                        seq![
                            (
                                RequestView::Enter(
                                    "Product ID (e.g. 0x0b61):"@,
                                    None,
                                ), ReplyView::Text(pid)
                            ),
                        ]
                            + (
                                hids_read(w)
                                    + (
                                        drives_read(w)
                                            + hid_made(
                                                w,
                                                HidView { name: sanitized(raw), vid, pid },
                                                text,
                                            )
                                    )
                            )
                    )
            ),
            Ok(SelectedView::Hid { name: sanitized(raw) }),
        ),
{
    broadcast use {encode_utf8_valid_utf8, encode_utf8_decode_utf8};

    let whole = spec_new_hid(log, at);
    let t0 = name_entered("Name for the new HID device:"@, raw);
    let t1 = seq![(RequestView::Enter("Vendor ID (e.g. 0x0c2e):"@, None), ReplyView::Text(vid))];
    let t2 = seq![(RequestView::Enter("Product ID (e.g. 0x0b61):"@, None), ReplyView::Text(pid))];
    let t3 = (
        hids_read(w)
            + (drives_read(w) + hid_made(w, HidView { name: sanitized(raw), vid, pid }, text))
    );
    lemma_heard(log, at, t0, t1 + (t2 + t3));
    assert(
        came(
            spec_enter_name(log, at, "Name for the new HID device:"@, "Failed to get device name"@),
            log,
            at,
            t0,
            Ok(sanitized(raw)),
        )
    );
    if log.len() >= at + t0.len() {
        let at1 = at + t0.len();
        lemma_heard(log, at1, t1, t2 + t3);
        assert(
            came(
                in_context(
                    spec_ask_text(log, at1, RequestView::Enter("Vendor ID (e.g. 0x0c2e):"@, None)),
                    "Failed to get vendor ID"@,
                ),
                log,
                at1,
                t1,
                Ok(vid),
            )
        );
        if log.len() >= at1 + t1.len() {
            let at2 = at1 + t1.len();
            lemma_heard(log, at2, t2, t3);
            assert(
                came(
                    in_context(
                        spec_ask_text(
                            log,
                            at2,
                            RequestView::Enter("Product ID (e.g. 0x0b61):"@, None),
                        ),
                        "Failed to get product ID"@,
                    ),
                    log,
                    at2,
                    t2,
                    Ok(pid),
                )
            );
            if log.len() >= at2 + t2.len() {
                let at3 = at2 + t2.len();
                law_sanitizing_is_idempotent(raw);
                lemma_hid_created(log, at3, w, sanitized(raw), vid, pid, text);
                assert(came(whole, log, at3, t3, Ok(SelectedView::Hid { name: sanitized(raw) })));
            }
            lemma_came(
                in_context(
                    spec_ask_text(log, at2, RequestView::Enter("Product ID (e.g. 0x0b61):"@, None)),
                    "Failed to get product ID"@,
                ),
                pid,
                whole,
                log,
                at2,
                t2,
                t3,
                Ok(SelectedView::Hid { name: sanitized(raw) }),
            );
        }
        lemma_came(
            in_context(
                spec_ask_text(log, at1, RequestView::Enter("Vendor ID (e.g. 0x0c2e):"@, None)),
                "Failed to get vendor ID"@,
            ),
            vid,
            whole,
            log,
            at1,
            t1,
            t2 + t3,
            Ok(SelectedView::Hid { name: sanitized(raw) }),
        );
    }
    lemma_came(
        spec_enter_name(log, at, "Name for the new HID device:"@, "Failed to get device name"@),
        sanitized(raw),
        whole,
        log,
        at,
        t0,
        t1 + (t2 + t3),
        Ok(SelectedView::Hid { name: sanitized(raw) }),
    );
}

/// What the user chooses to make is made there and then, and acted on.
pub proof fn law_choosing_to_make_one(log: Log, at: int, n: int, vm: Seq<char>, only: bool)
    ensures
        spec_select_device(log, at, Some(vm), only) == Outcome::Ready(
            ChoiceView::CreateNewStorage,
            n,
        ) ==> spec_resolve_device(log, at, vm, None, only) == spec_new_drive(log, n),
        spec_select_device(log, at, Some(vm), only) == Outcome::Ready(ChoiceView::CreateNewHid, n)
            ==> spec_resolve_device(log, at, vm, None, only) == spec_new_hid(log, n),
{
}

// ---------------------------------------------------------------------------
// Typing
// ---------------------------------------------------------------------------

/// The HID devices are offered for typing, and the user picks the one at `i`.
pub open spec fn hid_picked(hids: Seq<HidView>, i: int) -> Talk {
    seq![
        (
            RequestView::Choose(
                line().push(plain("Select a HID device:"@)),
                Seq::new(
                    hids.len(),
                    |j: int|
                        line().push(
                            plain(
                                hids[j].name + " ("@ + (hids[j].vid + ":"@ + hids[j].pid) + ")"@,
                            ),
                        ),
                ),
                0,
            ),
            ReplyView::Picked(i),
        ),
    ]
}

/// Typing goes over the HID device that the user picks.
#[verifier::spinoff_prover]
pub proof fn law_pick_for_typing(log: Log, at: int, w: World, i: int)
    requires
        settled(w),
        0 <= i < w.hids.len(),
        forall|j: int|
            0 <= j < i
                ==> text_of(
                    typing_offers(w.hids)[j],
                ) != text_of(typing_offers(w.hids)[i]) || (#[trigger] w.hids[j]).name == w.hids[i].name,
        heard(log, at, hids_read(w) + hid_picked(w.hids, i)),
    ensures
        came(
            spec_typing_device(log, at, None),
            log,
            at,
            hids_read(w) + hid_picked(w.hids, i),
            Ok(w.hids[i].name),
        ),
{
    broadcast use {encode_utf8_valid_utf8, encode_utf8_decode_utf8};

    let whole = spec_typing_device(log, at, None);
    let t0 = hids_read(w);
    let t1 = hid_picked(w.hids, i);
    lemma_heard(log, at, t0, t1);
    lemma_hids_read(log, at, w);
    assert(came(spec_load_hid_devices(log, at), log, at, t0, Ok(w.hids)));
    if log.len() >= at + t0.len() {
        let at1 = at + t0.len();
        law_pick_is_found(typing_offers(w.hids), i);
        lemma_typing_offers(w.hids);
        assert(came(whole, log, at1, t1, Ok(w.hids[i].name)));
    }
    lemma_came(spec_load_hid_devices(log, at), w.hids, whole, log, at, t0, t1, Ok(w.hids[i].name));
}

proof fn lemma_typing_offers(hids: Seq<HidView>)
    ensures
        typing_offers(hids) == Seq::new(
            hids.len(),
            |j: int|
                line().push(
                    plain(hids[j].name + " ("@ + (hids[j].vid + ":"@ + hids[j].pid) + ")"@),
                ),
        ),
{
    assert(typing_offers(hids) =~= Seq::new(
        hids.len(),
        |j: int|
            line().push(plain(hids[j].name + " ("@ + (hids[j].vid + ":"@ + hids[j].pid) + ")"@)),
    ));
}

/// What is not given for typing is chosen; all goes on as if it had been given.
#[verifier::spinoff_prover]
pub proof fn law_typing_goes_by_the_choices(
    log: Log,
    at: int,
    other: Option<Seq<char>>,
    text: Seq<char>,
    vm: Seq<char>,
    name: Seq<char>,
    no_enter: bool,
    saved: Option<()>,
    m: int,
    n: int,
)
    ensures
        spec_typing_device(log, at, None) == Outcome::Ready(name, n) ==> spec_run_tool(
            log,
            at,
            asked_only(
                CommandsView::Hid(
                    HidCommandsView::Type { text, vm: Some(vm), device: None, no_enter },
                ),
                other,
            ),
        ) == spec_run_tool(
            log,
            n,
            asked_only(
                CommandsView::Hid(
                    HidCommandsView::Type { text, vm: Some(vm), device: Some(name), no_enter },
                ),
                other,
            ),
        ),
        spec_select_vm(log, at) == Outcome::Ready(vm, m) && spec_attempt(
            spec_save_last_vm(log, m, vm),
        ) == Outcome::Ready(saved, n) ==> spec_run_tool(
            log,
            at,
            asked_only(
                CommandsView::Hid(
                    HidCommandsView::Type { text, vm: None, device: Some(name), no_enter },
                ),
                other,
            ),
        ) == spec_run_tool(
            log,
            n,
            asked_only(
                CommandsView::Hid(
                    HidCommandsView::Type { text, vm: Some(vm), device: Some(name), no_enter },
                ),
                other,
            ),
        ),
{
}

} // verus!
