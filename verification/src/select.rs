//! Choosing among all devices: those of the host, the virtual drives and the
//! virtual HID devices.

use vstd::prelude::*;
use vstd::string::*;

use crate::daemon::{
    is_hid_daemon_running, normalize_hex_id, normalized, spec_is_hid_daemon_running,
};
use crate::devices::{
    AttachmentView, DriveView, HidDevice, HidView, VirtualAttachment, VirtualDrive,
};
use crate::host::{
    ask_pick, attempt, bind, context, cyan, dim, empty, fail, failure, green, in_context, line,
    outcome, plain, spec_ask_pick, spec_attempt, with, yellow, Line, Log, Outcome, Reply, Request,
    RequestView, SpanView, Step,
};
use crate::registry::{
    load_hid_devices, load_virtual_drives, spec_load_hid_devices, spec_load_virtual_drives,
};
use crate::storage::{
    disk_of, find_disk, get_attached_virtual_devices, get_vol_path,
    spec_get_attached_virtual_devices, spec_get_vol_path,
};
use crate::text::{plus, same};
use crate::usb::{
    attached_to, id_text, join_ids, keep_attached, lemma_only_attached, list_usb_devices,
    lists_device, mark_attached, marked, only_attached, spec_attached_to, spec_usb_devices,
    usb_label, UsbDevice, UsbView,
};

verus! {

/// What the user may choose: a device of the host, a virtual drive or HID
/// device and whether it is attached, or to make a new one.
#[derive(Debug)]
pub enum DeviceChoice {
    RealUsb(UsbDevice),
    Storage(VirtualDrive, bool),
    Hid(HidDevice, bool),
    CreateNewStorage,
    CreateNewHid,
}

/// What the user may choose.
pub enum ChoiceView {
    RealUsb(UsbView),
    Storage(DriveView, bool),
    Hid(HidView, bool),
    CreateNewStorage,
    CreateNewHid,
}

impl DeepView for DeviceChoice {
    type V = ChoiceView;

    open spec fn deep_view(&self) -> ChoiceView {
        match self {
            DeviceChoice::RealUsb(d) => ChoiceView::RealUsb(d.deep_view()),
            DeviceChoice::Storage(d, a) => ChoiceView::Storage(d.deep_view(), *a),
            DeviceChoice::Hid(d, a) => ChoiceView::Hid(d.deep_view(), *a),
            DeviceChoice::CreateNewStorage => ChoiceView::CreateNewStorage,
            DeviceChoice::CreateNewHid => ChoiceView::CreateNewHid,
        }
    }
}

/// `label`, with a mark if the device is attached.
pub open spec fn with_mark(label: Seq<SpanView>, attached: bool) -> Seq<SpanView> {
    if attached {
        label.push(plain(" "@)).push(green("[attached]"@))
    } else {
        label
    }
}

fn add_mark(label: Line, attached: bool) -> (r: Line)
    ensures
        r.deep_view() == with_mark(label.deep_view(), attached),
{
    if attached {
        label.plain(" ").green("[attached]")
    } else {
        label
    }
}

/// How a choice is offered.
pub open spec fn choice_label(choice: ChoiceView) -> Seq<SpanView> {
    match choice {
        ChoiceView::RealUsb(d) => usb_label(line().push(plain("[USB]     "@)), d),
        ChoiceView::Storage(d, attached) => with_mark(
            line().push(plain("[STORAGE] "@)).push(cyan(d.name)).push(plain(" ("@ + d.size + ")"@)),
            attached,
        ),
        ChoiceView::Hid(d, attached) => with_mark(
            line().push(plain("[HID]     "@)).push(cyan(d.name)).push(
                plain(" ("@ + id_text(normalized(d.vid), normalized(d.pid)) + ")"@),
            ),
            attached,
        ),
        ChoiceView::CreateNewStorage => line().push(dim("+ Create new storage drive..."@)),
        ChoiceView::CreateNewHid => line().push(dim("+ Create new HID device..."@)),
    }
}

impl DeviceChoice {
    /// How the choice is offered.
    pub fn label(&self) -> (r: Line)
        ensures
            r.deep_view() == choice_label(self.deep_view()),
    {
        match self {
            DeviceChoice::RealUsb(d) => d.label_after(Line::new().plain("[USB]     ")),
            DeviceChoice::Storage(d, attached) => {
                let size = plus(plus(" (".to_string(), d.size.as_str()), ")");
                add_mark(
                    Line::new().plain("[STORAGE] ").cyan(d.name.as_str()).plain(size.as_str()),
                    *attached,
                )
            },
            DeviceChoice::Hid(d, attached) => {
                let vid = normalize_hex_id(d.vid.as_str());
                let pid = normalize_hex_id(d.pid.as_str());
                let ids = join_ids(vid.as_str(), pid.as_str());
                let text = plus(plus(" (".to_string(), ids.as_str()), ")");
                add_mark(
                    Line::new().plain("[HID]     ").cyan(d.name.as_str()).plain(text.as_str()),
                    *attached,
                )
            },
            DeviceChoice::CreateNewStorage => Line::new().dim("+ Create new storage drive..."),
            DeviceChoice::CreateNewHid => Line::new().dim("+ Create new HID device..."),
        }
    }

    /// A choice of the same.
    pub fn copy(&self) -> (r: DeviceChoice)
        ensures
            r.deep_view() == self.deep_view(),
    {
        match self {
            DeviceChoice::RealUsb(d) => DeviceChoice::RealUsb(d.copy()),
            DeviceChoice::Storage(d, attached) => DeviceChoice::Storage(d.copy(), *attached),
            DeviceChoice::Hid(d, attached) => DeviceChoice::Hid(d.copy(), *attached),
            DeviceChoice::CreateNewStorage => DeviceChoice::CreateNewStorage,
            DeviceChoice::CreateNewHid => DeviceChoice::CreateNewHid,
        }
    }
}

/// How the choices are offered.
pub open spec fn choice_labels(choices: Seq<ChoiceView>) -> Seq<Seq<SpanView>> {
    Seq::new(choices.len(), |i: int| choice_label(choices[i]))
}

fn labels_of(choices: &Vec<DeviceChoice>) -> (r: Vec<Line>)
    ensures
        r.deep_view() == choice_labels(choices.deep_view()),
{
    let mut r: Vec<Line> = Vec::new();
    let mut i: usize = 0;
    while i < choices.len()
        invariant
            i <= choices.len(),
            r.len() == i,
            forall|k: int|
                0 <= k < i ==> (#[trigger] r@[k]).deep_view() == choice_label(
                    choices@[k].deep_view(),
                ),
        decreases choices.len() - i,
    {
        r.push(choices[i].label());
        i = i + 1;
    }
    assert(r.deep_view() =~= choice_labels(choices.deep_view()));
    r
}

// ---------------------------------------------------------------------------
// Devices of the host
// ---------------------------------------------------------------------------

/// Some HID device presents these ids.
pub open spec fn is_hid_id(hids: Seq<HidView>, vendor_id: Seq<char>, product_id: Seq<char>) -> bool {
    exists|i: int|
        0 <= i < hids.len() && normalized((#[trigger] hids[i]).vid) == vendor_id && normalized(
            hids[i].pid,
        ) == product_id
}

fn presents(hids: &Vec<HidDevice>, vendor_id: &str, product_id: &str) -> (r: bool)
    ensures
        r == is_hid_id(hids.deep_view(), vendor_id@, product_id@),
{
    let ghost all = hids.deep_view();
    let mut i: usize = 0;
    while i < hids.len()
        invariant
            all == hids.deep_view(),
            i <= hids.len(),
            forall|k: int|
                0 <= k < i ==> !(normalized((#[trigger] all[k]).vid) == vendor_id@ && normalized(
                    all[k].pid,
                ) == product_id@),
        decreases hids.len() - i,
    {
        assert(all[i as int] == hids@[i as int].deep_view());
        if same(normalize_hex_id(hids[i].vid.as_str()).as_str(), vendor_id) && same(
            normalize_hex_id(hids[i].pid.as_str()).as_str(),
            product_id,
        ) {
            return true;
        }
        i = i + 1;
    }
    false
}

/// The devices whose ids no HID device presents.
pub open spec fn real_devices(devices: Seq<UsbView>, hids: Seq<HidView>) -> Seq<UsbView>
    decreases devices.len(),
{
    if devices.len() == 0 {
        seq![]
    } else {
        let before = real_devices(devices.drop_last(), hids);
        let d = devices.last();
        if is_hid_id(hids, d.vendor_id, d.product_id) {
            before
        } else {
            before.push(d)
        }
    }
}

fn keep_real(devices: Vec<UsbDevice>, hids: &Vec<HidDevice>) -> (r: Vec<UsbDevice>)
    ensures
        r.deep_view() == real_devices(devices.deep_view(), hids.deep_view()),
{
    let ghost all = devices.deep_view();
    let mut r: Vec<UsbDevice> = empty();
    let mut i: usize = 0;
    assert(all.take(0) =~= seq![]);
    while i < devices.len()
        invariant
            all == devices.deep_view(),
            i <= devices.len(),
            r.deep_view() == real_devices(all.take(i as int), hids.deep_view()),
        decreases devices.len() - i,
    {
        assert(all.take(i + 1).drop_last() =~= all.take(i as int));
        assert(all.take(i + 1).last() == devices@[i as int].deep_view());
        if !presents(hids, devices[i].vendor_id.as_str(), devices[i].product_id.as_str()) {
            r = with(r, devices[i].copy());
        }
        i = i + 1;
    }
    assert(all.take(i as int) =~= all);
    r
}

/// The devices of the host that are offered: marked, without those that a HID
/// device stands behind, and only the attached ones if `filter_attached`.
pub open spec fn offered_usb(
    devices: Seq<UsbView>,
    attached: Seq<(Seq<char>, Seq<char>)>,
    hids: Seq<HidView>,
    filter_attached: bool,
) -> Seq<UsbView> {
    let others = real_devices(marked(devices, attached), hids);
    if filter_attached {
        only_attached(others)
    } else {
        others
    }
}

/// The devices as choices.
pub open spec fn usb_choices(devices: Seq<UsbView>) -> Seq<ChoiceView> {
    Seq::new(devices.len(), |i: int| ChoiceView::RealUsb(devices[i]))
}

fn choices_of_usb(devices: Vec<UsbDevice>) -> (r: Vec<DeviceChoice>)
    ensures
        r.deep_view() == usb_choices(devices.deep_view()),
{
    let mut r: Vec<DeviceChoice> = Vec::new();
    let mut i: usize = 0;
    while i < devices.len()
        invariant
            i <= devices.len(),
            r.len() == i,
            forall|k: int|
                0 <= k < i ==> (#[trigger] r@[k]).deep_view() == ChoiceView::RealUsb(
                    devices@[k].deep_view(),
                ),
        decreases devices.len() - i,
    {
        r.push(DeviceChoice::RealUsb(devices[i].copy()));
        i = i + 1;
    }
    assert(r.deep_view() =~= usb_choices(devices.deep_view()));
    r
}

// ---------------------------------------------------------------------------
// Virtual devices
// ---------------------------------------------------------------------------

/// Whether a drive is attached: the image behind it is behind one of the disks.
/// `None` if it has no image.
pub open spec fn spec_drive_attached(
    log: Log,
    at: int,
    drive: DriveView,
    disks: Seq<AttachmentView>,
) -> Outcome<Option<bool>> {
    bind(
        spec_attempt(spec_get_vol_path(log, at, drive.name)),
        |image: Option<Seq<char>>, at: int|
            match image {
                Some(image) => Outcome::Ready(Some(disk_of(disks, image) is Some), at),
                None => Outcome::Ready(None, at),
            },
    )
}

fn drive_attached(
    log: &Vec<Reply>,
    at: usize,
    drive: &VirtualDrive,
    disks: &Vec<VirtualAttachment>,
) -> (r: Step<Option<bool>>)
    ensures
        outcome(r) == spec_drive_attached(
            log.deep_view(),
            at as int,
            drive.deep_view(),
            disks.deep_view(),
        ),
{
    let (image, at) = attempt(get_vol_path(log, at, drive.name.as_str()))?;
    match image {
        Some(image) => Ok((Some(find_disk(disks, image.as_str()).is_some()), at)),
        None => Ok((None, at)),
    }
}

/// The choices with a drive behind them. If `filter_attached`, only an attached
/// one is offered; otherwise one without an image counts as not attached.
pub open spec fn add_drive(
    choices: Seq<ChoiceView>,
    drive: DriveView,
    attached: Option<bool>,
    filter_attached: bool,
) -> Seq<ChoiceView> {
    if attached == Some(true) {
        choices.push(ChoiceView::Storage(drive, true))
    } else if filter_attached {
        choices
    } else {
        choices.push(ChoiceView::Storage(drive, false))
    }
}

/// The choices with the drives from number `i` on behind them.
pub open spec fn spec_add_drives(
    log: Log,
    at: int,
    drives: Seq<DriveView>,
    disks: Seq<AttachmentView>,
    filter_attached: bool,
    i: int,
    choices: Seq<ChoiceView>,
) -> Outcome<Seq<ChoiceView>>
    decreases drives.len() - i,
{
    if i >= drives.len() {
        Outcome::Ready(choices, at)
    } else {
        match spec_drive_attached(log, at, drives[i], disks) {
            Outcome::Ask(rq) => Outcome::Ask(rq),
            Outcome::Fail(c, n) => Outcome::Fail(c, n),
            Outcome::Ready(attached, n) => spec_add_drives(
                log,
                n,
                drives,
                disks,
                filter_attached,
                i + 1,
                add_drive(choices, drives[i], attached, filter_attached),
            ),
        }
    }
}

fn add_drives(
    log: &Vec<Reply>,
    at: usize,
    drives: &Vec<VirtualDrive>,
    disks: &Vec<VirtualAttachment>,
    filter_attached: bool,
    choices: Vec<DeviceChoice>,
) -> (r: Step<Vec<DeviceChoice>>)
    ensures
        outcome(r) == spec_add_drives(
            log.deep_view(),
            at as int,
            drives.deep_view(),
            disks.deep_view(),
            filter_attached,
            0,
            choices.deep_view(),
        ),
{
    let ghost start = choices.deep_view();
    let mut found = choices;
    let mut next: usize = at;
    let mut i: usize = 0;
    while i < drives.len()
        invariant
            start == choices.deep_view(),
            i <= drives.len(),
            spec_add_drives(
                log.deep_view(),
                next as int,
                drives.deep_view(),
                disks.deep_view(),
                filter_attached,
                i as int,
                found.deep_view(),
            ) == spec_add_drives(
                log.deep_view(),
                at as int,
                drives.deep_view(),
                disks.deep_view(),
                filter_attached,
                0,
                start,
            ),
        decreases drives.len() - i,
    {
        assert(drives.deep_view()[i as int] == drives@[i as int].deep_view());
        let (attached, n) = drive_attached(log, next, &drives[i], disks)?;
        assert(attached.deep_view() == attached);
        let is_attached = match attached {
            Some(a) => a,
            None => false,
        };
        if is_attached || !filter_attached {
            found = with(found, DeviceChoice::Storage(drives[i].copy(), is_attached));
        }
        next = n;
        i = i + 1;
    }
    Ok((found, next))
}

/// Whether a HID device is attached: its daemon runs, and its ids are among
/// those attached.
pub open spec fn spec_hid_attached(
    log: Log,
    at: int,
    device: HidView,
    attached: Seq<(Seq<char>, Seq<char>)>,
) -> Outcome<bool> {
    bind(
        spec_is_hid_daemon_running(log, at, device.name),
        |running: bool, at: int|
            Outcome::Ready(
                running && attached.contains((normalized(device.vid), normalized(device.pid))),
                at,
            ),
    )
}

fn hid_attached(
    log: &Vec<Reply>,
    at: usize,
    device: &HidDevice,
    attached: &Vec<(String, String)>,
) -> (r: Step<bool>)
    ensures
        outcome(r) == spec_hid_attached(
            log.deep_view(),
            at as int,
            device.deep_view(),
            attached.deep_view(),
        ),
{
    let (running, at) = is_hid_daemon_running(log, at, device.name.as_str())?;
    let vid = normalize_hex_id(device.vid.as_str());
    let pid = normalize_hex_id(device.pid.as_str());
    Ok((running && lists_device(attached, vid.as_str(), pid.as_str()), at))
}

/// The choices with the HID devices from number `i` on behind them; only the
/// attached ones if `filter_attached`.
pub open spec fn spec_add_hids(
    log: Log,
    at: int,
    hids: Seq<HidView>,
    attached: Seq<(Seq<char>, Seq<char>)>,
    filter_attached: bool,
    i: int,
    choices: Seq<ChoiceView>,
) -> Outcome<Seq<ChoiceView>>
    decreases hids.len() - i,
{
    if i >= hids.len() {
        Outcome::Ready(choices, at)
    } else {
        match spec_hid_attached(log, at, hids[i], attached) {
            Outcome::Ask(rq) => Outcome::Ask(rq),
            Outcome::Fail(c, n) => Outcome::Fail(c, n),
            Outcome::Ready(a, n) => spec_add_hids(
                log,
                n,
                hids,
                attached,
                filter_attached,
                i + 1,
                if a || !filter_attached {
                    choices.push(ChoiceView::Hid(hids[i], a))
                } else {
                    choices
                },
            ),
        }
    }
}

fn add_hids(
    log: &Vec<Reply>,
    at: usize,
    hids: &Vec<HidDevice>,
    attached: &Vec<(String, String)>,
    filter_attached: bool,
    choices: Vec<DeviceChoice>,
) -> (r: Step<Vec<DeviceChoice>>)
    ensures
        outcome(r) == spec_add_hids(
            log.deep_view(),
            at as int,
            hids.deep_view(),
            attached.deep_view(),
            filter_attached,
            0,
            choices.deep_view(),
        ),
{
    let ghost start = choices.deep_view();
    let mut found = choices;
    let mut next: usize = at;
    let mut i: usize = 0;
    while i < hids.len()
        invariant
            start == choices.deep_view(),
            i <= hids.len(),
            spec_add_hids(
                log.deep_view(),
                next as int,
                hids.deep_view(),
                attached.deep_view(),
                filter_attached,
                i as int,
                found.deep_view(),
            ) == spec_add_hids(
                log.deep_view(),
                at as int,
                hids.deep_view(),
                attached.deep_view(),
                filter_attached,
                0,
                start,
            ),
        decreases hids.len() - i,
    {
        assert(hids.deep_view()[i as int] == hids@[i as int].deep_view());
        let (a, n) = hid_attached(log, next, &hids[i], attached)?;
        if a || !filter_attached {
            found = with(found, DeviceChoice::Hid(hids[i].copy(), a));
        }
        next = n;
        i = i + 1;
    }
    Ok((found, next))
}

// ---------------------------------------------------------------------------
// Selecting
// ---------------------------------------------------------------------------

/// The choices: devices of the host, then drives, then HID devices, and then,
/// unless `filter_attached`, to make a new one.
pub open spec fn spec_gather(
    log: Log,
    at: int,
    usb: Seq<UsbView>,
    drives: Seq<DriveView>,
    disks: Seq<AttachmentView>,
    hids: Seq<HidView>,
    attached: Seq<(Seq<char>, Seq<char>)>,
    filter_attached: bool,
) -> Outcome<Seq<ChoiceView>> {
    bind(
        spec_add_drives(log, at, drives, disks, filter_attached, 0, usb_choices(usb)),
        |choices: Seq<ChoiceView>, at: int|
            bind(
                spec_add_hids(log, at, hids, attached, filter_attached, 0, choices),
                |choices: Seq<ChoiceView>, at: int|
                    Outcome::Ready(
                        if filter_attached {
                            choices
                        } else {
                            choices.push(ChoiceView::CreateNewStorage).push(
                                ChoiceView::CreateNewHid,
                            )
                        },
                        at,
                    ),
            ),
    )
}

/// The disks of the virtual machine, if one is given.
pub open spec fn spec_disks_of(log: Log, at: int, vm_name: Option<Seq<char>>) -> Outcome<
    Seq<AttachmentView>,
> {
    match vm_name {
        Some(vm) => spec_get_attached_virtual_devices(log, at, vm),
        None => Outcome::Ready(seq![], at),
    }
}

fn disks_of(log: &Vec<Reply>, at: usize, vm_name: Option<&str>) -> (r: Step<
    Vec<VirtualAttachment>,
>)
    ensures
        outcome(r) == spec_disks_of(log.deep_view(), at as int, vm_name.deep_view()),
{
    match vm_name {
        Some(vm) => get_attached_virtual_devices(log, at, vm),
        None => Ok((empty(), at)),
    }
}

/// The devices of the host; none if they cannot be listed.
pub open spec fn spec_any_usb_devices(log: Log, at: int) -> Outcome<Seq<UsbView>> {
    bind(
        spec_attempt(spec_usb_devices(log, at, true)),
        |devices: Option<Seq<UsbView>>, at: int|
            match devices {
                Some(devices) => Outcome::Ready(devices, at),
                None => Outcome::Ready(seq![], at),
            },
    )
}

fn any_usb_devices(log: &Vec<Reply>, at: usize) -> (r: Step<Vec<UsbDevice>>)
    ensures
        outcome(r) == spec_any_usb_devices(log.deep_view(), at as int),
{
    let (devices, at) = attempt(list_usb_devices(log, at, true))?;
    match devices {
        Some(devices) => Ok((devices, at)),
        None => Ok((empty(), at)),
    }
}

/// All that can be chosen for the virtual machine.
pub open spec fn spec_device_choices(
    log: Log,
    at: int,
    vm_name: Option<Seq<char>>,
    filter_attached: bool,
) -> Outcome<Seq<ChoiceView>> {
    bind(
        spec_any_usb_devices(log, at),
        |devices: Seq<UsbView>, at: int|
            bind(
                spec_attached_to(log, at, vm_name),
                |attached: Seq<(Seq<char>, Seq<char>)>, at: int|
                    bind(
                        spec_load_virtual_drives(log, at),
                        |drives: Seq<DriveView>, at: int|
                            bind(
                                spec_disks_of(log, at, vm_name),
                                |disks: Seq<AttachmentView>, at: int|
                                    bind(
                                        spec_load_hid_devices(log, at),
                                        |hids: Seq<HidView>, at: int|
                                            spec_gather(
                                                log,
                                                at,
                                                offered_usb(
                                                    devices,
                                                    attached,
                                                    hids,
                                                    filter_attached,
                                                ),
                                                drives,
                                                disks,
                                                hids,
                                                attached,
                                                filter_attached,
                                            ),
                                    ),
                            ),
                    ),
            ),
    )
}

fn device_choices(
    log: &Vec<Reply>,
    at: usize,
    vm_name: Option<&str>,
    filter_attached: bool,
) -> (r: Step<Vec<DeviceChoice>>)
    ensures
        outcome(r) == spec_device_choices(
            log.deep_view(),
            at as int,
            vm_name.deep_view(),
            filter_attached,
        ),
{
    let (devices, at) = any_usb_devices(log, at)?;
    let (attached, at) = attached_to(log, at, vm_name)?;
    let (drives, at) = load_virtual_drives(log, at)?;
    let (disks, at) = disks_of(log, at, vm_name)?;
    let (hids, at) = load_hid_devices(log, at)?;
    let others = keep_real(mark_attached(devices, &attached), &hids);
    let usb = if filter_attached {
        keep_attached(others)
    } else {
        others
    };
    let (choices, at) = add_drives(
        log,
        at,
        &drives,
        &disks,
        filter_attached,
        choices_of_usb(usb),
    )?;
    let (choices, at) = add_hids(log, at, &hids, &attached, filter_attached, choices)?;
    if filter_attached {
        Ok((choices, at))
    } else {
        Ok(
            (
                with(
                    with(choices, DeviceChoice::CreateNewStorage),
                    DeviceChoice::CreateNewHid,
                ),
                at,
            ),
        )
    }
}

/// What is said when there is nothing to choose.
pub open spec fn nothing_to_choose(filter_attached: bool) -> Seq<char> {
    if filter_attached {
        "No devices are currently attached to the VM"@
    } else {
        "No USB devices found and no virtual devices exist."@
    }
}

/// The prompt for choosing a device.
pub open spec fn choice_prompt(filter_attached: bool) -> Seq<SpanView> {
    if filter_attached {
        line().push(yellow("🔌"@)).push(plain(" Select a device to detach"@))
    } else {
        line().push(cyan("🔌"@)).push(plain(" Select a device"@))
    }
}

/// Has the user choose a device, or to make one; with `filter_attached` one of
/// those attached to the virtual machine.
pub open spec fn spec_select_device(
    log: Log,
    at: int,
    vm_name: Option<Seq<char>>,
    filter_attached: bool,
) -> Outcome<ChoiceView> {
    bind(
        spec_device_choices(log, at, vm_name, filter_attached),
        |choices: Seq<ChoiceView>, at: int|
            if choices.len() == 0 {
                failure(at, nothing_to_choose(filter_attached))
            } else {
                bind(
                    in_context(
                        spec_ask_pick(
                            log,
                            at,
                            RequestView::Choose(
                                choice_prompt(filter_attached),
                                choice_labels(choices),
                                0,
                            ),
                        ),
                        "Failed to select device"@,
                    ),
                    |i: int, at: int|
                        if 0 <= i < choices.len() {
                            Outcome::Ready(choices[i], at)
                        } else {
                            failure(at, "Failed to select device"@)
                        },
                )
            },
    )
}

/// Has the user choose a device, or to make one; with `filter_attached` one of
/// those attached to the virtual machine.
pub fn select_device(
    log: &Vec<Reply>,
    at: usize,
    vm_name: Option<&str>,
    filter_attached: bool,
) -> (r: Step<DeviceChoice>)
    ensures
        outcome(r) == spec_select_device(
            log.deep_view(),
            at as int,
            vm_name.deep_view(),
            filter_attached,
        ),
{
    let (choices, at) = device_choices(log, at, vm_name, filter_attached)?;
    if choices.len() == 0 {
        return if filter_attached {
            fail(at, "No devices are currently attached to the VM")
        } else {
            fail(at, "No USB devices found and no virtual devices exist.")
        };
    }
    let prompt = if filter_attached {
        Line::new().yellow("🔌").plain(" Select a device to detach")
    } else {
        Line::new().cyan("🔌").plain(" Select a device")
    };
    let (pick, at) = context(
        ask_pick(log, at, Request::Choose(prompt, labels_of(&choices), 0)),
        "Failed to select device",
    )?;
    if pick.index < choices.len() {
        assert(choices.deep_view()[pick.index as int] == choices@[pick.index as int].deep_view());
        Ok((choices[pick.index].copy(), at))
    } else {
        fail(at, "Failed to select device")
    }
}

// ---------------------------------------------------------------------------
// Laws
// ---------------------------------------------------------------------------

/// A device that a HID device stands behind is not offered as a device of the
/// host, and nothing else is left out.
pub proof fn law_hids_are_offered_once(devices: Seq<UsbView>, hids: Seq<HidView>)
    ensures
        real_devices(devices, hids) == devices.filter(
            |d: UsbView| !is_hid_id(hids, d.vendor_id, d.product_id),
        ),
        forall|i: int|
            0 <= i < real_devices(devices, hids).len() ==> {
                let d = #[trigger] real_devices(devices, hids)[i];
                !is_hid_id(hids, d.vendor_id, d.product_id)
            },
    decreases devices.len(),
{
    reveal(Seq::filter);
    if devices.len() > 0 {
        law_hids_are_offered_once(devices.drop_last(), hids);
    }
}

/// The choice is a device that is attached.
pub open spec fn offers_attached(
    choice: ChoiceView,
    attached: Seq<(Seq<char>, Seq<char>)>,
) -> bool {
    match choice {
        ChoiceView::RealUsb(d) => d.attached && attached.contains((d.vendor_id, d.product_id)),
        ChoiceView::Storage(_, a) => a,
        ChoiceView::Hid(d, a) => a && attached.contains((normalized(d.vid), normalized(d.pid))),
        ChoiceView::CreateNewStorage => false,
        ChoiceView::CreateNewHid => false,
    }
}

/// All choices are devices that are attached.
pub open spec fn all_attached(
    choices: Seq<ChoiceView>,
    attached: Seq<(Seq<char>, Seq<char>)>,
) -> bool {
    forall|i: int| 0 <= i < choices.len() ==> offers_attached(#[trigger] choices[i], attached)
}

proof fn lemma_real_from(devices: Seq<UsbView>, hids: Seq<HidView>, i: int)
    requires
        0 <= i < real_devices(devices, hids).len(),
    ensures
        devices.contains(real_devices(devices, hids)[i]),
    decreases devices.len(),
{
    let before = devices.drop_last();
    let d = real_devices(before, hids);
    if i < d.len() {
        lemma_real_from(before, hids, i);
        let k = choose|k: int| 0 <= k < before.len() && before[k] == d[i];
        assert(devices[k] == d[i]);
    } else {
        assert(devices[devices.len() - 1] == devices.last());
    }
}

proof fn lemma_attached_usb(
    devices: Seq<UsbView>,
    attached: Seq<(Seq<char>, Seq<char>)>,
    hids: Seq<HidView>,
)
    ensures
        all_attached(usb_choices(offered_usb(devices, attached, hids, true)), attached),
{
    let all = marked(devices, attached);
    let others = real_devices(all, hids);
    let usb = offered_usb(devices, attached, hids, true);
    assert forall|i: int| 0 <= i < usb.len() implies offers_attached(
        #[trigger] usb_choices(usb)[i],
        attached,
    ) by {
        lemma_only_attached(others, i);
        let k = choose|k: int| 0 <= k < others.len() && others[k] == usb[i];
        lemma_real_from(all, hids, k);
        let m = choose|m: int| 0 <= m < all.len() && all[m] == others[k];
        assert(all[m] == usb[i]);
    }
}

proof fn lemma_add_drives(
    log: Log,
    at: int,
    drives: Seq<DriveView>,
    disks: Seq<AttachmentView>,
    filter_attached: bool,
    i: int,
    choices: Seq<ChoiceView>,
    attached: Seq<(Seq<char>, Seq<char>)>,
)
    requires
        0 <= i <= drives.len(),
    ensures
        filter_attached && all_attached(choices, attached) ==> (spec_add_drives(
            log,
            at,
            drives,
            disks,
            filter_attached,
            i,
            choices,
        ) matches Outcome::Ready(more, _) ==> all_attached(more, attached)),
        !filter_attached ==> (spec_add_drives(
            log,
            at,
            drives,
            disks,
            filter_attached,
            i,
            choices,
        ) matches Outcome::Ready(more, _) ==> more.len() == choices.len() + drives.len() - i
            && more.take(choices.len() as int) == choices && forall|j: int|
            i <= j < drives.len() ==> {
                &&& #[trigger] more[choices.len() + j - i] is Storage
                &&& more[choices.len() + j - i]->Storage_0 == drives[j]
            }),
    decreases drives.len() - i,
{
    if i < drives.len() {
        if let Outcome::Ready(a, n) = spec_drive_attached(log, at, drives[i], disks) {
            let next = add_drive(choices, drives[i], a, filter_attached);
            lemma_add_drives(log, n, drives, disks, filter_attached, i + 1, next, attached);
            if !filter_attached {
                if let Outcome::Ready(more, _) = spec_add_drives(
                    log,
                    n,
                    drives,
                    disks,
                    filter_attached,
                    i + 1,
                    next,
                ) {
                    assert(more.take(choices.len() as int) =~= next.take(choices.len() as int)) by {
                        assert(more.take(next.len() as int) == next);
                        assert forall|k: int| 0 <= k < choices.len() implies more[k] == next[k] by {
                            assert(more.take(next.len() as int)[k] == next[k]);
                        }
                    }
                    assert(next.take(choices.len() as int) =~= choices);
                    assert(more[choices.len() as int] == next[choices.len() as int]) by {
                        assert(more.take(next.len() as int)[choices.len() as int]
                            == next[choices.len() as int]);
                    }
                    assert forall|j: int| i <= j < drives.len() implies {
                        &&& #[trigger] more[choices.len() + j - i] is Storage
                        &&& more[choices.len() + j - i]->Storage_0 == drives[j]
                    } by {
                        if j > i {
                            assert(more[next.len() + j - (i + 1)] is Storage);
                        }
                    }
                }
            }
        }
    } else {
        assert(choices.take(choices.len() as int) =~= choices);
    }
}

proof fn lemma_add_hids(
    log: Log,
    at: int,
    hids: Seq<HidView>,
    attached: Seq<(Seq<char>, Seq<char>)>,
    filter_attached: bool,
    i: int,
    choices: Seq<ChoiceView>,
)
    requires
        0 <= i <= hids.len(),
    ensures
        filter_attached && all_attached(choices, attached) ==> (spec_add_hids(
            log,
            at,
            hids,
            attached,
            filter_attached,
            i,
            choices,
        ) matches Outcome::Ready(more, _) ==> all_attached(more, attached)),
        !filter_attached ==> (spec_add_hids(
            log,
            at,
            hids,
            attached,
            filter_attached,
            i,
            choices,
        ) matches Outcome::Ready(more, _) ==> more.len() == choices.len() + hids.len() - i
            && more.take(choices.len() as int) == choices && forall|j: int|
            i <= j < hids.len() ==> {
                &&& #[trigger] more[choices.len() + j - i] is Hid
                &&& more[choices.len() + j - i]->Hid_0 == hids[j]
            }),
    decreases hids.len() - i,
{
    if i < hids.len() {
        if let Outcome::Ready(a, n) = spec_hid_attached(log, at, hids[i], attached) {
            let next = if a || !filter_attached {
                choices.push(ChoiceView::Hid(hids[i], a))
            } else {
                choices
            };
            lemma_add_hids(log, n, hids, attached, filter_attached, i + 1, next);
            if !filter_attached {
                if let Outcome::Ready(more, _) = spec_add_hids(
                    log,
                    n,
                    hids,
                    attached,
                    filter_attached,
                    i + 1,
                    next,
                ) {
                    assert(more.take(choices.len() as int) =~= next.take(choices.len() as int)) by {
                        assert forall|k: int| 0 <= k < choices.len() implies more[k] == next[k] by {
                            assert(more.take(next.len() as int)[k] == next[k]);
                        }
                    }
                    assert(next.take(choices.len() as int) =~= choices);
                    assert(more[choices.len() as int] == next[choices.len() as int]) by {
                        assert(more.take(next.len() as int)[choices.len() as int]
                            == next[choices.len() as int]);
                    }
                    assert forall|j: int| i <= j < hids.len() implies {
                        &&& #[trigger] more[choices.len() + j - i] is Hid
                        &&& more[choices.len() + j - i]->Hid_0 == hids[j]
                    } by {
                        if j > i {
                            assert(more[next.len() + j - (i + 1)] is Hid);
                        }
                    }
                }
            }
        }
    } else {
        assert(choices.take(choices.len() as int) =~= choices);
    }
}

/// For detaching, only devices that are attached are offered.
pub proof fn law_detaching_offers_attached_only(
    log: Log,
    at: int,
    devices: Seq<UsbView>,
    drives: Seq<DriveView>,
    disks: Seq<AttachmentView>,
    hids: Seq<HidView>,
    attached: Seq<(Seq<char>, Seq<char>)>,
    choices: Seq<ChoiceView>,
    n: int,
)
    requires
        spec_gather(
            log,
            at,
            offered_usb(devices, attached, hids, true),
            drives,
            disks,
            hids,
            attached,
            true,
        ) == Outcome::Ready(choices, n),
    ensures
        all_attached(choices, attached),
{
    let usb = usb_choices(offered_usb(devices, attached, hids, true));
    lemma_attached_usb(devices, attached, hids);
    lemma_add_drives(log, at, drives, disks, true, 0, usb, attached);
    if let Outcome::Ready(more, m) = spec_add_drives(log, at, drives, disks, true, 0, usb) {
        lemma_add_hids(log, m, hids, attached, true, 0, more);
    }
}

/// The choice is the drive.
pub open spec fn offers_drive(choice: ChoiceView, drive: DriveView) -> bool {
    choice matches ChoiceView::Storage(d, _) && d == drive
}

/// The choice is the HID device.
pub open spec fn offers_hid(choice: ChoiceView, hid: HidView) -> bool {
    choice matches ChoiceView::Hid(d, _) && d == hid
}

/// For anything but detaching, every device is offered: those of the host, then
/// all drives, then all HID devices; and last of all to make a new drive or HID
/// device, so there is always something to choose.
pub proof fn law_all_devices_are_offered(
    log: Log,
    at: int,
    usb: Seq<UsbView>,
    drives: Seq<DriveView>,
    disks: Seq<AttachmentView>,
    hids: Seq<HidView>,
    attached: Seq<(Seq<char>, Seq<char>)>,
    choices: Seq<ChoiceView>,
    n: int,
)
    requires
        spec_gather(log, at, usb, drives, disks, hids, attached, false) == Outcome::Ready(
            choices,
            n,
        ),
    ensures
        choices.len() == usb.len() + drives.len() + hids.len() + 2,
        forall|i: int|
            0 <= i < usb.len() ==> #[trigger] choices[i] == ChoiceView::RealUsb(usb[i]),
        forall|j: int|
            0 <= j < drives.len() ==> offers_drive(
                choices[usb.len() + j],
                #[trigger] drives[j],
            ),
        forall|j: int|
            0 <= j < hids.len() ==> offers_hid(
                choices[usb.len() + drives.len() + j],
                #[trigger] hids[j],
            ),
        choices[choices.len() - 2] == ChoiceView::CreateNewStorage,
        choices[choices.len() - 1] == ChoiceView::CreateNewHid,
{
    let first = usb_choices(usb);
    lemma_add_drives(log, at, drives, disks, false, 0, first, attached);
    if let Outcome::Ready(more, m) = spec_add_drives(log, at, drives, disks, false, 0, first) {
        lemma_add_hids(log, m, hids, attached, false, 0, more);
        if let Outcome::Ready(all, _) = spec_add_hids(log, m, hids, attached, false, 0, more) {
            assert(choices =~= all.push(ChoiceView::CreateNewStorage).push(
                ChoiceView::CreateNewHid,
            ));
            assert forall|i: int| 0 <= i < usb.len() implies #[trigger] choices[i]
                == ChoiceView::RealUsb(usb[i]) by {
                assert(all.take(more.len() as int)[i] == all[i]);
                assert(more.take(first.len() as int)[i] == more[i]);
                assert(first[i] == ChoiceView::RealUsb(usb[i]));
            }
            assert forall|j: int| 0 <= j < drives.len() implies offers_drive(
                choices[usb.len() + j],
                #[trigger] drives[j],
            ) by {
                assert(all.take(more.len() as int)[usb.len() + j] == all[usb.len() + j]);
                assert(more[first.len() + j - 0] is Storage);
            }
            assert forall|j: int| 0 <= j < hids.len() implies offers_hid(
                choices[usb.len() + drives.len() + j],
                #[trigger] hids[j],
            ) by {
                assert(all[more.len() + j - 0] is Hid);
            }
        }
    }
}

} // verus!
