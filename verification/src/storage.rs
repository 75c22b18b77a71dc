//! Virtual flash drives: making and deleting them, and handing them to virtual
//! machines as disks on the USB bus.

use vstd::prelude::*;
use vstd::string::*;

use crate::console::{run_command, spec_run_command};
use crate::devices::{
    drive_named, drives_without, find_drive, find_hid, hid_named, law_deleting_undoes_making,
    law_new_drive_keeps_names_distinct, lemma_drive_from, names_distinct, AttachmentView, DriveView,
    HidView, VirtualAttachment, VirtualDrive,
};
use crate::host::{
    ask_number, attempt, bind, bold_green, context, cyan, dim, empty, fail, failure, fault, green,
    in_context, line, outcome, plain, red, say, spec_ask_number, spec_attempt, spec_fault, spec_say,
    spec_tell, tell, with, word, words3, words5, yellow, Chain, Line, Log, Outcome, Reply, Request,
    RequestView, SpanView, Step,
};
use crate::names::{
    law_sanitized_is_valid, law_valid_name_unchanged, sanitize_device_name, sanitized, valid_name,
};
use crate::registry::{
    load_hid_devices, load_virtual_drives, save_virtual_drives, spec_load_hid_devices,
    spec_load_virtual_drives, spec_save_virtual_drives,
};
use crate::text::{
    begins, contains, contains_text, find, first_match, is_space, law_trimming,
    lemma_contains_middle, lemma_lines_cons, lemma_match_from, lemma_not_contained, lemma_trimmed,
    lemma_until, lemma_until_bounds, lines, lines_of, occurs, pad_right, padded, plus, prefix_until,
    same, starts_with, trim, trimmed, until, without_cr,
};
use crate::usb::dumpxml;
use crate::vm::{
    active_vms, attachment_line, build_attachment_line, build_vm_line, check_vm_running,
    check_vm_unpaused, device_command, hand_over, list_unpaused, not_running, not_running_message,
    spec_active_vms, spec_check_vm_running, spec_check_vm_unpaused, spec_hand_over, vm_line,
};

verus! {

// ---------------------------------------------------------------------------
// Disks in the definition of a virtual machine
// ---------------------------------------------------------------------------

/// The value that `line` gives to an attribute, between single quotes.
pub open spec fn attr_value(line: Seq<char>, attr: Seq<char>) -> Option<Seq<char>> {
    let needle = attr + "='"@;
    match first_match(line, needle) {
        None => None,
        Some(i) => {
            let rest = line.skip(i + needle.len());
            let end = until(rest, '\'');
            if end < rest.len() {
                Some(rest.take(end))
            } else {
                None
            }
        },
    }
}

/// The value that `line` gives to an attribute, between single quotes.
pub fn extract_attr_value(line: &str, attr: &str) -> (r: Option<String>)
    ensures
        r.deep_view() == attr_value(line@, attr@),
{
    let needle = plus(attr.to_string(), "='");
    match find(line, needle.as_str()) {
        None => None,
        Some(i) => {
            proof {
                lemma_match_from(line@, needle@, 0);
            }
            let n: usize = line.unicode_len();
            let start: usize = i + needle.as_str().unicode_len();
            let rest = line.substring_char(start, n);
            assert(rest@ =~= line@.skip(start as int));
            let end: usize = prefix_until(rest, '\'');
            proof {
                lemma_until_bounds(rest@, '\'');
            }
            if end < rest.unicode_len() {
                let value = rest.substring_char(0, end);
                assert(value@ =~= rest@.take(end as int));
                Some(value.to_string())
            } else {
                None
            }
        },
    }
}

/// How far a definition has been read: whether within a disk, what is known of
/// that, and the disks on the USB bus so far.
pub struct DiskScan {
    pub inside: bool,
    pub source: Option<Seq<char>>,
    pub target: Option<Seq<char>>,
    pub usb: bool,
    pub found: Seq<AttachmentView>,
}

/// Before the first line.
pub open spec fn disk_start() -> DiskScan {
    DiskScan { inside: false, source: None, target: None, usb: false, found: seq![] }
}

/// The line begins a disk that a file stands behind.
pub open spec fn begins_disk(t: Seq<char>) -> bool {
    begins(t, "<disk"@) && contains_text(t, "type='file'"@) && contains_text(t, "device='disk'"@)
}

/// The line names the target of a disk on the USB bus.
pub open spec fn names_usb_target(t: Seq<char>) -> bool {
    contains_text(t, "<target"@) && contains_text(t, "bus='usb'"@)
}

/// One more line, without the white space around it.
pub open spec fn disk_line(st: DiskScan, t: Seq<char>) -> DiskScan {
    if begins_disk(t) {
        DiskScan { inside: true, source: None, target: None, usb: false, found: st.found }
    } else if t == "</disk>"@ {
        let found = if st.inside && st.usb && st.source is Some && st.target is Some {
            st.found.push(
                AttachmentView { source_file: st.source->0, target_dev: st.target->0 },
            )
        } else {
            st.found
        };
        DiskScan { inside: false, source: None, target: None, usb: false, found }
    } else if st.inside {
        DiskScan {
            inside: true,
            source: if contains_text(t, "<source file="@) {
                attr_value(t, "file"@)
            } else {
                st.source
            },
            target: if names_usb_target(t) {
                attr_value(t, "dev"@)
            } else {
                st.target
            },
            usb: st.usb || names_usb_target(t),
            found: st.found,
        }
    } else {
        st
    }
}

/// After the given lines.
pub open spec fn disk_scan(lines: Seq<Seq<char>>) -> DiskScan
    decreases lines.len(),
{
    if lines.len() == 0 {
        disk_start()
    } else {
        disk_line(disk_scan(lines.drop_last()), trimmed(lines.last()))
    }
}

/// The disks on the USB bus in the definition of a virtual machine.
pub open spec fn disks_in(xml: Seq<char>) -> Seq<AttachmentView> {
    disk_scan(lines_of(xml)).found
}

/// The disks on the USB bus in the definition of a virtual machine.
pub fn usb_disks_in(xml: &str) -> (found: Vec<VirtualAttachment>)
    ensures
        found.deep_view() == disks_in(xml@),
{
    let all = lines(xml);
    let ghost seen = all.deep_view();
    let mut found: Vec<VirtualAttachment> = empty();
    let mut inside = false;
    let mut source: Option<String> = None;
    let mut target: Option<String> = None;
    let mut usb = false;
    let mut i: usize = 0;
    assert(seen.take(0) =~= seq![]);
    while i < all.len()
        invariant
            seen == all.deep_view(),
            i <= all.len(),
            disk_scan(seen.take(i as int)) == (DiskScan {
                inside,
                source: source.deep_view(),
                target: target.deep_view(),
                usb,
                found: found.deep_view(),
            }),
        decreases all.len() - i,
    {
        assert(seen.take(i + 1).drop_last() =~= seen.take(i as int));
        assert(seen.take(i + 1).last() == all@[i as int]@);
        let t = trim(all[i]);
        if starts_with(t, "<disk") && contains(t, "type='file'") && contains(t, "device='disk'") {
            inside = true;
            source = None;
            target = None;
            usb = false;
        } else if same(t, "</disk>") {
            if inside && usb {
                if let (Some(source_file), Some(target_dev)) = (source, target) {
                    found = with(found, VirtualAttachment { source_file, target_dev });
                }
            }
            inside = false;
            source = None;
            target = None;
            usb = false;
        } else if inside {
            if contains(t, "<source file=") {
                source = extract_attr_value(t, "file");
            }
            if contains(t, "<target") && contains(t, "bus='usb'") {
                usb = true;
                target = extract_attr_value(t, "dev");
            }
        }
        i = i + 1;
    }
    assert(seen.take(i as int) =~= seen);
    found
}

/// The disks on the USB bus of a virtual machine; none if its definition
/// cannot be had.
pub open spec fn spec_get_attached_virtual_devices(log: Log, at: int, vm_name: Seq<char>) -> Outcome<
    Seq<AttachmentView>,
> {
    bind(
        spec_attempt(spec_run_command(log, at, dumpxml(vm_name))),
        |xml: Option<Seq<char>>, at: int|
            match xml {
                Some(xml) => Outcome::Ready(disks_in(xml), at),
                None => Outcome::Ready(seq![], at),
            },
    )
}

/// The disks on the USB bus of a virtual machine; none if its definition
/// cannot be had.
pub fn get_attached_virtual_devices(log: &Vec<Reply>, at: usize, vm_name: &str) -> (r: Step<
    Vec<VirtualAttachment>,
>)
    ensures
        outcome(r) == spec_get_attached_virtual_devices(log.deep_view(), at as int, vm_name@),
{
    let (xml, at) = attempt(run_command(log, at, words3("virsh", "dumpxml", vm_name)))?;
    match xml {
        Some(xml) => Ok((usb_disks_in(xml.as_str()), at)),
        None => Ok((empty(), at)),
    }
}

/// The first disk, from `i` on, with the given image behind it.
pub open spec fn disk_from(disks: Seq<AttachmentView>, image: Seq<char>, i: int) -> Option<
    AttachmentView,
>
    decreases disks.len() - i,
{
    if i >= disks.len() {
        None
    } else if disks[i].source_file == image {
        Some(disks[i])
    } else {
        disk_from(disks, image, i + 1)
    }
}

/// The first disk with the given image behind it.
pub open spec fn disk_of(disks: Seq<AttachmentView>, image: Seq<char>) -> Option<AttachmentView> {
    disk_from(disks, image, 0)
}

/// The device name of the first disk with the given image behind it.
pub fn find_disk(disks: &Vec<VirtualAttachment>, image: &str) -> (r: Option<String>)
    ensures
        match r {
            Some(dev) => disk_of(disks.deep_view(), image@) matches Some(d) && d.target_dev == dev@,
            None => disk_of(disks.deep_view(), image@) is None,
        },
{
    let mut i: usize = 0;
    while i < disks.len()
        invariant
            i <= disks.len(),
            disk_from(disks.deep_view(), image@, i as int) == disk_of(disks.deep_view(), image@),
        decreases disks.len() - i,
    {
        assert(disks.deep_view()[i as int] == disks@[i as int].deep_view());
        if same(disks[i].source_file.as_str(), image) {
            return Some(disks[i].target_dev.clone());
        }
        i = i + 1;
    }
    None
}

// ---------------------------------------------------------------------------
// Volumes and device names
// ---------------------------------------------------------------------------

/// The volume behind a drive.
pub open spec fn volume(name: Seq<char>) -> Seq<char> {
    name + ".qcow2"@
}

/// The volume behind a drive.
pub fn volume_name(name: &str) -> (r: String)
    ensures
        r@ == volume(name@),
{
    plus(name.to_string(), ".qcow2")
}

/// The path of the image behind a drive.
pub open spec fn spec_get_vol_path(log: Log, at: int, name: Seq<char>) -> Outcome<Seq<char>> {
    bind(
        spec_run_command(
            log,
            at,
            seq!["virsh"@, "vol-path"@, volume(name), "--pool"@, "default"@],
        ),
        |out: Seq<char>, at: int| Outcome::Ready(trimmed(out), at),
    )
}

/// The path of the image behind a drive.
pub fn get_vol_path(log: &Vec<Reply>, at: usize, name: &str) -> (r: Step<String>)
    ensures
        outcome(r) == spec_get_vol_path(log.deep_view(), at as int, name@),
{
    let (out, at) = run_command(
        log,
        at,
        words5("virsh", "vol-path", volume_name(name).as_str(), "--pool", "default"),
    )?;
    Ok((trim(out.as_str()).to_string(), at))
}

/// Whether a drive is attached to a virtual machine.
pub open spec fn spec_is_virtual_drive_attached(
    log: Log,
    at: int,
    vm_name: Seq<char>,
    drive_name: Seq<char>,
) -> Outcome<bool> {
    bind(
        spec_get_vol_path(log, at, drive_name),
        |image: Seq<char>, at: int|
            bind(
                spec_get_attached_virtual_devices(log, at, vm_name),
                |disks: Seq<AttachmentView>, at: int|
                    Outcome::Ready(disk_of(disks, image) is Some, at),
            ),
    )
}

/// Whether a drive is attached to a virtual machine.
pub fn is_virtual_drive_attached(
    log: &Vec<Reply>,
    at: usize,
    vm_name: &str,
    drive_name: &str,
) -> (r: Step<bool>)
    ensures
        outcome(r) == spec_is_virtual_drive_attached(
            log.deep_view(),
            at as int,
            vm_name@,
            drive_name@,
        ),
{
    let (image, at) = get_vol_path(log, at, drive_name)?;
    let (disks, at) = get_attached_virtual_devices(log, at, vm_name)?;
    Ok((find_disk(&disks, image.as_str()).is_some(), at))
}

/// The device name that a line of a definition takes, if it takes one.
pub open spec fn dev_in_line(line: Seq<char>) -> Option<Seq<char>> {
    let t = trimmed(line);
    if contains_text(t, "<target"@) && contains_text(t, "dev="@) {
        attr_value(t, "dev"@)
    } else {
        None
    }
}

/// Some line of the definition takes the device name.
pub open spec fn dev_used(xml: Seq<char>, dev: Seq<char>) -> bool {
    exists|i: int|
        0 <= i < lines_of(xml).len() && dev_in_line(#[trigger] lines_of(xml)[i]) == Some(dev)
}

/// The device names that the lines take, in order.
pub open spec fn devs_in(lines: Seq<Seq<char>>) -> Seq<Seq<char>>
    decreases lines.len(),
{
    if lines.len() == 0 {
        seq![]
    } else {
        let before = devs_in(lines.drop_last());
        match dev_in_line(lines.last()) {
            Some(dev) => before.push(dev),
            None => before,
        }
    }
}

proof fn lemma_devs_in(lines: Seq<Seq<char>>, dev: Seq<char>)
    ensures
        devs_in(lines).contains(dev) <==> exists|i: int|
            0 <= i < lines.len() && dev_in_line(#[trigger] lines[i]) == Some(dev),
    decreases lines.len(),
{
    if lines.len() > 0 {
        let before = lines.drop_last();
        lemma_devs_in(before, dev);
        let d = devs_in(before);
        if d.contains(dev) {
            let i = choose|i: int|
                0 <= i < before.len() && dev_in_line(#[trigger] before[i]) == Some(dev);
            assert(dev_in_line(lines[i]) == Some(dev));
            let k = choose|k: int| 0 <= k < d.len() && d[k] == dev;
            if dev_in_line(lines.last()) is Some {
                assert(devs_in(lines)[k] == dev);
            }
        }
        if dev_in_line(lines.last()) == Some(dev) {
            assert(devs_in(lines).last() == dev);
            assert(dev_in_line(lines[lines.len() - 1]) == Some(dev));
        }
        if devs_in(lines).contains(dev) && !d.contains(dev) {
            let k = choose|k: int| 0 <= k < devs_in(lines).len() && devs_in(lines)[k] == dev;
            if k < d.len() {
                assert(d[k] == dev);
            }
            assert(dev_in_line(lines[lines.len() - 1]) == Some(dev));
        }
        if exists|i: int| 0 <= i < lines.len() && dev_in_line(#[trigger] lines[i]) == Some(dev) {
            let i = choose|i: int|
                0 <= i < lines.len() && dev_in_line(#[trigger] lines[i]) == Some(dev);
            if i < before.len() {
                assert(dev_in_line(before[i]) == Some(dev));
            }
        }
    }
}

/// The device names that a definition takes.
fn used_devs(xml: &str) -> (used: Vec<String>)
    ensures
        forall|dev: Seq<char>| #[trigger]
            used.deep_view().contains(dev) <==> dev_used(xml@, dev),
{
    let all = lines(xml);
    let ghost seen = all.deep_view();
    let mut used: Vec<String> = empty();
    let mut i: usize = 0;
    assert(seen.take(0) =~= seq![]);
    while i < all.len()
        invariant
            seen == all.deep_view(),
            i <= all.len(),
            used.deep_view() == devs_in(seen.take(i as int)),
        decreases all.len() - i,
    {
        assert(seen.take(i + 1).drop_last() =~= seen.take(i as int));
        assert(seen.take(i + 1).last() == all@[i as int]@);
        let t = trim(all[i]);
        if contains(t, "<target") && contains(t, "dev=") {
            if let Some(dev) = extract_attr_value(t, "dev") {
                used = with(used, dev);
            }
        }
        i = i + 1;
    }
    assert(seen.take(i as int) =~= seen);
    assert forall|dev: Seq<char>| #[trigger]
        used.deep_view().contains(dev) <==> dev_used(xml@, dev) by {
        lemma_devs_in(seen, dev);
    }
    used
}

/// Whether the text is among the texts.
pub fn is_among(texts: &Vec<String>, text: &str) -> (r: bool)
    ensures
        r == texts.deep_view().contains(text@),
{
    let mut i: usize = 0;
    while i < texts.len()
        invariant
            i <= texts.len(),
            forall|k: int| 0 <= k < i ==> (#[trigger] texts.deep_view()[k]) != text@,
        decreases texts.len() - i,
    {
        assert(texts.deep_view()[i as int] == texts@[i as int]@);
        if same(texts[i].as_str(), text) {
            return true;
        }
        i = i + 1;
    }
    false
}

/// The disk names `sda` to `sdz`, by number.
pub open spec fn target_name(k: int) -> Seq<char> {
    "sd"@.push(('a' as u32 + k) as char)
}

/// The first disk name, from number `k` on, that the definition does not take.
pub open spec fn free_target(xml: Seq<char>, k: int) -> Option<Seq<char>>
    decreases 26 - k,
{
    if k >= 26 {
        None
    } else if !dev_used(xml, target_name(k)) {
        Some(target_name(k))
    } else {
        free_target(xml, k + 1)
    }
}

/// The first of the disk names `sda` to `sdz` that the definition does not
/// take.
pub fn next_target_in(xml: &str) -> (r: Option<String>)
    ensures
        r.deep_view() == free_target(xml@, 0),
{
    let used = used_devs(xml);
    let letters = "abcdefghijklmnopqrstuvwxyz";
    proof {
        reveal_strlit("abcdefghijklmnopqrstuvwxyz");
    }
    let mut k: usize = 0;
    while k < 26
        invariant
            letters@.len() == 26,
            forall|i: int| 0 <= i < 26 ==> #[trigger] letters@[i] == ('a' as u32 + i) as char,
            forall|dev: Seq<char>| #[trigger]
                used.deep_view().contains(dev) <==> dev_used(xml@, dev),
            k <= 26,
            free_target(xml@, k as int) == free_target(xml@, 0),
        decreases 26 - k,
    {
        let mut name = "sd".to_string();
        name.push(letters.get_char(k));
        if !is_among(&used, name.as_str()) {
            return Some(name);
        }
        k = k + 1;
    }
    None
}

/// The disk name for the next drive of a virtual machine.
pub open spec fn spec_get_next_target_dev(log: Log, at: int, vm_name: Seq<char>) -> Outcome<
    Seq<char>,
> {
    bind(
        spec_attempt(spec_run_command(log, at, dumpxml(vm_name))),
        |xml: Option<Seq<char>>, at: int|
            {
                let xml = match xml {
                    Some(xml) => xml,
                    None => seq![],
                };
                match free_target(xml, 0) {
                    Some(dev) => Outcome::Ready(dev, at),
                    None => failure(
                        at,
                        "No available USB disk target devices (all sda-sdz are in use)"@,
                    ),
                }
            },
    )
}

/// The disk name for the next drive of a virtual machine.
pub fn get_next_target_dev(log: &Vec<Reply>, at: usize, vm_name: &str) -> (r: Step<String>)
    ensures
        outcome(r) == spec_get_next_target_dev(log.deep_view(), at as int, vm_name@),
{
    let (xml, at) = attempt(run_command(log, at, words3("virsh", "dumpxml", vm_name)))?;
    let xml = match xml {
        Some(xml) => xml,
        None => String::new(),
    };
    match next_target_in(xml.as_str()) {
        Some(dev) => Ok((dev, at)),
        None => fail(at, "No available USB disk target devices (all sda-sdz are in use)"),
    }
}

// ---------------------------------------------------------------------------
// Making and deleting drives
// ---------------------------------------------------------------------------

/// What is said when there is no such drive.
pub open spec fn no_drive(name: Seq<char>) -> Seq<char> {
    "No storage drive named '"@ + name + "'"@
}

fn no_drive_message(name: &str) -> (r: String)
    ensures
        r@ == no_drive(name@),
{
    plus(plus("No storage drive named '".to_string(), name), "'")
}

/// What is said when a drive with the name exists.
pub open spec fn drive_exists(name: Seq<char>) -> Seq<char> {
    "A storage drive named '"@ + name + "' already exists"@
}

/// What is said when a HID device has the name.
pub open spec fn name_of_hid(name: Seq<char>) -> Seq<char> {
    "An HID device named '"@ + name
        + "' already exists. Device names must be unique across all types."@
}

/// What is said when a drive has been made.
pub open spec fn created_line(name: Seq<char>, size: Seq<char>) -> Seq<SpanView> {
    line().push(bold_green("✓"@)).push(plain(" Created storage drive "@)).push(cyan(name)).push(
        plain(" ("@ + size + ") at /var/lib/libvirt/images/"@ + volume(name)),
    )
}

/// Makes a drive: a volume of the default pool, and an entry in the list. The
/// name is sanitized; no other virtual device may have it.
pub open spec fn spec_create_virtual_drive(
    log: Log,
    at: int,
    name: Seq<char>,
    size: Seq<char>,
) -> Outcome<()> {
    let clean = sanitized(name);
    if name.len() == 0 {
        failure(at, "Drive name cannot be empty"@)
    } else if clean.len() == 0 {
        failure(at, "Drive name is empty after sanitization"@)
    } else {
        bind(
            spec_load_virtual_drives(log, at),
            |drives: Seq<DriveView>, at: int|
                if drive_named(drives, clean) is Some {
                    failure(at, drive_exists(clean))
                } else {
                    bind(
                        spec_load_hid_devices(log, at),
                        |hids: Seq<HidView>, at: int|
                            if hid_named(hids, clean) is Some {
                                failure(at, name_of_hid(clean))
                            } else {
                                spec_make_drive(log, at, drives, clean, size)
                            },
                    )
                },
        )
    }
}

/// Makes a drive with a name that is free.
pub open spec fn spec_make_drive(
    log: Log,
    at: int,
    drives: Seq<DriveView>,
    name: Seq<char>,
    size: Seq<char>,
) -> Outcome<()> {
    bind(
        spec_run_command(
            log,
            at,
            seq![
                "virsh"@,
                "vol-create-as"@,
                "default"@,
                volume(name),
                size,
                "--format"@,
                "qcow2"@,
            ],
        ),
        |_out: Seq<char>, at: int|
            bind(
                spec_attempt(spec_ask_number(log, at, RequestView::Clock)),
                |now: Option<u64>, at: int|
                    {
                        let created_at_secs = match now {
                            Some(n) => n,
                            None => 0,
                        };
                        let drive = DriveView { name, size, created_at_secs };
                        bind(
                            spec_save_virtual_drives(log, at, drives.push(drive)),
                            |_done: (), at: int| spec_say(log, at, created_line(name, size)),
                        )
                    },
            ),
    )
}

fn make_drive(
    log: &Vec<Reply>,
    at: usize,
    drives: Vec<VirtualDrive>,
    name: &str,
    size: &str,
) -> (r: Step<()>)
    ensures
        outcome(r) == spec_make_drive(
            log.deep_view(),
            at as int,
            drives.deep_view(),
            name@,
            size@,
        ),
{
    let vol_name = volume_name(name);
    let args = word(
        word(words5("virsh", "vol-create-as", "default", vol_name.as_str(), size), "--format"),
        "qcow2",
    );
    assert(args.deep_view() =~= seq![
        "virsh"@,
        "vol-create-as"@,
        "default"@,
        volume(name@),
        size@,
        "--format"@,
        "qcow2"@,
    ]);
    let (_, at) = run_command(log, at, args)?;
    let (now, at) = attempt(ask_number(log, at, Request::Clock))?;
    let created_at_secs: u64 = match now {
        Some(n) => n,
        None => 0,
    };
    let drives = with(
        drives,
        VirtualDrive { name: name.to_string(), size: size.to_string(), created_at_secs },
    );
    let (_, at) = save_virtual_drives(log, at, &drives)?;
    say(
        log,
        at,
        Line::new().bold_green("✓").plain(" Created storage drive ").cyan(name).plain(
            plus(
                plus(plus(" (".to_string(), size), ") at /var/lib/libvirt/images/"),
                vol_name.as_str(),
            ).as_str(),
        ),
    )
}

/// Makes a drive: a volume of the default pool, and an entry in the list. The
/// name is sanitized; no other virtual device may have it.
pub fn create_virtual_drive(log: &Vec<Reply>, at: usize, name: &str, size: &str) -> (r: Step<()>)
    ensures
        outcome(r) == spec_create_virtual_drive(log.deep_view(), at as int, name@, size@),
{
    if name.unicode_len() == 0 {
        return fail(at, "Drive name cannot be empty");
    }
    let clean = sanitize_device_name(name);
    if clean.as_str().unicode_len() == 0 {
        return fail(at, "Drive name is empty after sanitization");
    }
    let (drives, at) = load_virtual_drives(log, at)?;
    if find_drive(&drives, clean.as_str()).is_some() {
        return fail(
            at,
            plus(
                plus("A storage drive named '".to_string(), clean.as_str()),
                "' already exists",
            ).as_str(),
        );
    }
    let (hids, at) = load_hid_devices(log, at)?;
    if find_hid(&hids, clean.as_str()).is_some() {
        return fail(
            at,
            plus(
                plus("An HID device named '".to_string(), clean.as_str()),
                "' already exists. Device names must be unique across all types.",
            ).as_str(),
        );
    }
    make_drive(log, at, drives, clean.as_str(), size)
}

/// What is said of a drive in use.
pub open spec fn drive_in_use(name: Seq<char>, vm: Seq<char>) -> Seq<char> {
    "Storage drive '"@ + name + "' is currently attached to VM '"@ + vm + "'. Detach it first."@
}

/// Fails if the drive is attached to one of the virtual machines from number
/// `i` on.
pub open spec fn spec_refuse_attached_drive(
    log: Log,
    at: int,
    name: Seq<char>,
    vms: Seq<Seq<char>>,
    i: int,
) -> Outcome<()>
    decreases vms.len() - i,
{
    if i >= vms.len() {
        Outcome::Ready((), at)
    } else {
        match spec_is_virtual_drive_attached(log, at, vms[i], name) {
            Outcome::Ask(rq) => Outcome::Ask(rq),
            Outcome::Fail(c, n) => Outcome::Fail(c, n),
            Outcome::Ready(true, n) => failure(n, drive_in_use(name, vms[i])),
            Outcome::Ready(false, n) => spec_refuse_attached_drive(log, n, name, vms, i + 1),
        }
    }
}

fn refuse_attached_drive(log: &Vec<Reply>, at: usize, name: &str, vms: &Vec<String>) -> (r: Step<()>)
    ensures
        outcome(r) == spec_refuse_attached_drive(
            log.deep_view(),
            at as int,
            name@,
            vms.deep_view(),
            0,
        ),
{
    let mut next: usize = at;
    let mut i: usize = 0;
    while i < vms.len()
        invariant
            i <= vms.len(),
            spec_refuse_attached_drive(
                log.deep_view(),
                next as int,
                name@,
                vms.deep_view(),
                i as int,
            ) == spec_refuse_attached_drive(log.deep_view(), at as int, name@, vms.deep_view(), 0),
        decreases vms.len() - i,
    {
        assert(vms.deep_view()[i as int] == vms@[i as int]@);
        let (attached, n) = is_virtual_drive_attached(log, next, vms[i].as_str(), name)?;
        if attached {
            return fail(
                n,
                plus(
                    plus(
                        plus(
                            plus("Storage drive '".to_string(), name),
                            "' is currently attached to VM '",
                        ),
                        vms[i].as_str(),
                    ),
                    "'. Detach it first.",
                ).as_str(),
            );
        }
        next = n;
        i = i + 1;
    }
    Ok(((), next))
}

/// The outermost message of a failure.
pub open spec fn outermost(c: Chain) -> Seq<char> {
    if c.len() == 0 {
        seq![]
    } else {
        c[0]
    }
}

/// The outermost message of a failure.
pub fn first_message(c: &Vec<String>) -> (r: String)
    ensures
        r@ == outermost(c.deep_view()),
{
    if c.len() == 0 {
        String::new()
    } else {
        c[0].clone()
    }
}

/// What is said when a drive has been deleted.
pub open spec fn deleted_line(name: Seq<char>) -> Seq<SpanView> {
    line().push(bold_green("✓"@)).push(plain(" Deleted storage drive "@)).push(cyan(name))
}

/// Deletes the volume behind a drive; a failure is only told.
pub open spec fn spec_delete_volume(log: Log, at: int, name: Seq<char>) -> Outcome<()> {
    bind(
        spec_fault(
            spec_run_command(
                log,
                at,
                seq!["virsh"@, "vol-delete"@, volume(name), "--pool"@, "default"@],
            ),
        ),
        |fault: Option<Chain>, at: int|
            match fault {
                Some(c) => spec_tell(
                    log,
                    at,
                    RequestView::Warn(
                        line().push(
                            plain("Warning: could not delete volume: "@ + outermost(c)),
                        ),
                    ),
                ),
                None => Outcome::Ready((), at),
            },
    )
}

fn delete_volume(log: &Vec<Reply>, at: usize, name: &str) -> (r: Step<()>)
    ensures
        outcome(r) == spec_delete_volume(log.deep_view(), at as int, name@),
{
    let (failed, at) = fault(
        run_command(
            log,
            at,
            words5("virsh", "vol-delete", volume_name(name).as_str(), "--pool", "default"),
        ),
    )?;
    match failed {
        Some(c) => tell(
            log,
            at,
            Request::Warn(
                Line::new().plain(
                    plus(
                        "Warning: could not delete volume: ".to_string(),
                        first_message(&c).as_str(),
                    ).as_str(),
                ),
            ),
        ),
        None => Ok(((), at)),
    }
}

/// Deletes a drive that no active virtual machine has: its volume, and its
/// entry in the list.
pub open spec fn spec_delete_virtual_drive(log: Log, at: int, name: Seq<char>) -> Outcome<()> {
    bind(
        spec_load_virtual_drives(log, at),
        |drives: Seq<DriveView>, at: int|
            match drive_named(drives, name) {
                None => failure(at, no_drive(name)),
                Some(k) => bind(
                    spec_active_vms(log, at),
                    |vms: Seq<Seq<char>>, at: int|
                        bind(
                            spec_refuse_attached_drive(log, at, drives[k].name, vms, 0),
                            |_free: (), at: int|
                                spec_drop_drive(log, at, drives, k, name),
                        ),
                ),
            },
    )
}

/// Deletes the drive at `k`.
pub open spec fn spec_drop_drive(
    log: Log,
    at: int,
    drives: Seq<DriveView>,
    k: int,
    name: Seq<char>,
) -> Outcome<()> {
    bind(
        spec_delete_volume(log, at, name),
        |_done: (), at: int|
            bind(
                spec_save_virtual_drives(log, at, drives_without(drives, k)),
                |_done: (), at: int| spec_say(log, at, deleted_line(name)),
            ),
    )
}

/// Deletes a drive that no active virtual machine has: its volume, and its
/// entry in the list.
pub fn delete_virtual_drive(log: &Vec<Reply>, at: usize, name: &str) -> (r: Step<()>)
    ensures
        outcome(r) == spec_delete_virtual_drive(log.deep_view(), at as int, name@),
{
    let (mut drives, at) = load_virtual_drives(log, at)?;
    match find_drive(&drives, name) {
        None => fail(at, no_drive_message(name).as_str()),
        Some(k) => {
            let (vms, at) = active_vms(log, at)?;
            let (_, at) = refuse_attached_drive(log, at, drives[k].name.as_str(), &vms)?;
            let (_, at) = delete_volume(log, at, name)?;
            let ghost before = drives.deep_view();
            drives.remove(k);
            assert(drives.deep_view() =~= drives_without(before, k as int));
            let (_, at) = save_virtual_drives(log, at, &drives)?;
            say(
                log,
                at,
                Line::new().bold_green("✓").plain(" Deleted storage drive ").cyan(name),
            )
        },
    }
}

// ---------------------------------------------------------------------------
// Listing drives
// ---------------------------------------------------------------------------

/// Which image is attached to which virtual machine; of several entries for an
/// image the last one holds.
pub open spec fn attached_vm(pairs: Seq<(Seq<char>, Seq<char>)>, image: Seq<char>) -> Option<
    Seq<char>,
>
    decreases pairs.len(),
{
    if pairs.len() == 0 {
        None
    } else if pairs.last().0 == image {
        Some(pairs.last().1)
    } else {
        attached_vm(pairs.drop_last(), image)
    }
}

fn find_attached_vm(pairs: &Vec<(String, String)>, image: &str) -> (r: Option<String>)
    ensures
        r.deep_view() == attached_vm(pairs.deep_view(), image@),
{
    let ghost all = pairs.deep_view();
    let mut i: usize = pairs.len();
    assert(all.take(i as int) =~= all);
    while i > 0
        invariant
            all == pairs.deep_view(),
            i <= pairs.len(),
            attached_vm(all.take(i as int), image@) == attached_vm(all, image@),
        decreases i,
    {
        assert(all.take(i as int).drop_last() =~= all.take(i - 1));
        assert(all.take(i as int).last() == (pairs@[i - 1].0@, pairs@[i - 1].1@));
        i = i - 1;
        if same(pairs[i].0.as_str(), image) {
            return Some(pairs[i].1.clone());
        }
    }
    None
}

/// The images behind the disks, each with the virtual machine.
pub open spec fn images_of(disks: Seq<AttachmentView>, vm: Seq<char>) -> Seq<
    (Seq<char>, Seq<char>),
> {
    Seq::new(disks.len(), |i: int| (disks[i].source_file, vm))
}

fn add_images(
    pairs: Vec<(String, String)>,
    disks: Vec<VirtualAttachment>,
    vm: &str,
) -> (r: Vec<(String, String)>)
    ensures
        r.deep_view() == pairs.deep_view() + images_of(disks.deep_view(), vm@),
{
    let ghost before = pairs.deep_view();
    let ghost images = images_of(disks.deep_view(), vm@);
    let mut r = pairs;
    let mut i: usize = 0;
    assert(before + images.take(0) =~= before);
    while i < disks.len()
        invariant
            i <= disks.len(),
            images == images_of(disks.deep_view(), vm@),
            r.deep_view() == before + images.take(i as int),
        decreases disks.len() - i,
    {
        assert(disks.deep_view()[i as int] == disks@[i as int].deep_view());
        r = with(r, (disks[i].source_file.clone(), vm.to_string()));
        assert(before + images.take(i + 1) =~= (before + images.take(i as int)).push(
            images[i as int],
        ));
        i = i + 1;
    }
    assert(images.take(i as int) =~= images);
    r
}

/// The images attached to the virtual machines from number `i` on, behind
/// those found so far.
pub open spec fn spec_attached_images(
    log: Log,
    at: int,
    vms: Seq<Seq<char>>,
    i: int,
    found: Seq<(Seq<char>, Seq<char>)>,
) -> Outcome<Seq<(Seq<char>, Seq<char>)>>
    decreases vms.len() - i,
{
    if i >= vms.len() {
        Outcome::Ready(found, at)
    } else {
        match spec_get_attached_virtual_devices(log, at, vms[i]) {
            Outcome::Ask(rq) => Outcome::Ask(rq),
            Outcome::Fail(c, n) => Outcome::Fail(c, n),
            Outcome::Ready(disks, n) => spec_attached_images(
                log,
                n,
                vms,
                i + 1,
                found + images_of(disks, vms[i]),
            ),
        }
    }
}

fn attached_images(log: &Vec<Reply>, at: usize, vms: &Vec<String>) -> (r: Step<
    Vec<(String, String)>,
>)
    ensures
        outcome(r) == spec_attached_images(
            log.deep_view(),
            at as int,
            vms.deep_view(),
            0,
            seq![],
        ),
{
    let mut found: Vec<(String, String)> = empty();
    let mut next: usize = at;
    let mut i: usize = 0;
    while i < vms.len()
        invariant
            i <= vms.len(),
            spec_attached_images(
                log.deep_view(),
                next as int,
                vms.deep_view(),
                i as int,
                found.deep_view(),
            ) == spec_attached_images(log.deep_view(), at as int, vms.deep_view(), 0, seq![]),
        decreases vms.len() - i,
    {
        assert(vms.deep_view()[i as int] == vms@[i as int]@);
        let (disks, n) = get_attached_virtual_devices(log, next, vms[i].as_str())?;
        found = add_images(found, disks, vms[i].as_str());
        next = n;
        i = i + 1;
    }
    Ok((found, next))
}

/// A drive's name and size, in columns.
pub open spec fn drive_columns(d: DriveView) -> Seq<SpanView> {
    line().push(plain("  "@)).push(cyan(padded(d.name, 20))).push(
        plain(" "@ + padded(d.size, 6) + " "@),
    )
}

fn build_drive_columns(d: &VirtualDrive) -> (r: Line)
    ensures
        r.deep_view() == drive_columns(d.deep_view()),
{
    Line::new().plain("  ").cyan(pad_right(d.name.as_str(), 20).as_str()).plain(
        plus(plus(" ".to_string(), pad_right(d.size.as_str(), 6).as_str()), " ").as_str(),
    )
}

/// How an entry of a list ends: with the virtual machine that has the device.
pub open spec fn attached_span(vm: Option<Seq<char>>) -> SpanView {
    match vm {
        Some(vm) => green("attached to: "@ + vm),
        None => dim("not attached"@),
    }
}

/// `start` with the virtual machine that has the device.
pub fn add_attached(start: Line, vm: &Option<String>) -> (r: Line)
    ensures
        r.deep_view() == start.deep_view().push(attached_span(vm.deep_view())),
{
    match vm {
        Some(vm) => start.green(plus("attached to: ".to_string(), vm.as_str()).as_str()),
        None => start.dim("not attached"),
    }
}

/// Tells of one drive: name, size, who has it, and the path of its image.
pub open spec fn spec_show_drive(
    log: Log,
    at: int,
    drive: DriveView,
    attached: Seq<(Seq<char>, Seq<char>)>,
) -> Outcome<()> {
    bind(
        bind(
            spec_attempt(spec_get_vol_path(log, at, drive.name)),
            |image: Option<Seq<char>>, at: int|
                match image {
                    Some(image) => bind(
                        spec_say(
                            log,
                            at,
                            drive_columns(drive).push(attached_span(attached_vm(attached, image))),
                        ),
                        |_done: (), at: int|
                            spec_say(log, at, line().push(plain("  "@)).push(dim(image))),
                    ),
                    None => spec_say(
                        log,
                        at,
                        drive_columns(drive).push(red("[image missing]"@)),
                    ),
                },
        ),
        |_done: (), at: int| spec_say(log, at, line()),
    )
}

fn show_drive(
    log: &Vec<Reply>,
    at: usize,
    drive: &VirtualDrive,
    attached: &Vec<(String, String)>,
) -> (r: Step<()>)
    ensures
        outcome(r) == spec_show_drive(
            log.deep_view(),
            at as int,
            drive.deep_view(),
            attached.deep_view(),
        ),
{
    let (image, at) = attempt(get_vol_path(log, at, drive.name.as_str()))?;
    let columns = build_drive_columns(drive);
    let at: usize = match image {
        Some(image) => {
            let vm = find_attached_vm(attached, image.as_str());
            let (_, at) = say(log, at, add_attached(columns, &vm))?;
            let (_, at) = say(log, at, Line::new().plain("  ").dim(image.as_str()))?;
            at
        },
        None => {
            let (_, at) = say(log, at, columns.red("[image missing]"))?;
            at
        },
    };
    say(log, at, Line::new())
}

/// Tells of the drives from number `i` on.
pub open spec fn spec_show_drives(
    log: Log,
    at: int,
    drives: Seq<DriveView>,
    attached: Seq<(Seq<char>, Seq<char>)>,
    i: int,
) -> Outcome<()>
    decreases drives.len() - i,
{
    if i >= drives.len() {
        Outcome::Ready((), at)
    } else {
        match spec_show_drive(log, at, drives[i], attached) {
            Outcome::Ask(rq) => Outcome::Ask(rq),
            Outcome::Fail(c, n) => Outcome::Fail(c, n),
            Outcome::Ready(_, n) => spec_show_drives(log, n, drives, attached, i + 1),
        }
    }
}

fn show_drives(
    log: &Vec<Reply>,
    at: usize,
    drives: &Vec<VirtualDrive>,
    attached: &Vec<(String, String)>,
) -> (r: Step<()>)
    ensures
        outcome(r) == spec_show_drives(
            log.deep_view(),
            at as int,
            drives.deep_view(),
            attached.deep_view(),
            0,
        ),
{
    let mut next: usize = at;
    let mut i: usize = 0;
    while i < drives.len()
        invariant
            i <= drives.len(),
            spec_show_drives(
                log.deep_view(),
                next as int,
                drives.deep_view(),
                attached.deep_view(),
                i as int,
            ) == spec_show_drives(
                log.deep_view(),
                at as int,
                drives.deep_view(),
                attached.deep_view(),
                0,
            ),
        decreases drives.len() - i,
    {
        assert(drives.deep_view()[i as int] == drives@[i as int].deep_view());
        let (_, n) = show_drive(log, next, &drives[i], attached)?;
        next = n;
        i = i + 1;
    }
    Ok(((), next))
}

/// Lists the drives and who has them.
pub open spec fn spec_list_virtual_drives(log: Log, at: int) -> Outcome<()> {
    bind(
        spec_load_virtual_drives(log, at),
        |drives: Seq<DriveView>, at: int|
            if drives.len() == 0 {
                bind(
                    spec_say(
                        log,
                        at,
                        line().push(plain("No storage drives found. Create one with:"@)),
                    ),
                    |_done: (), at: int|
                        spec_say(
                            log,
                            at,
                            line().push(plain("  virsh-usb storage create <name>"@)),
                        ),
                )
            } else {
                bind(
                    spec_active_vms(log, at),
                    |vms: Seq<Seq<char>>, at: int|
                        bind(
                            spec_attached_images(log, at, vms, 0, seq![]),
                            |attached: Seq<(Seq<char>, Seq<char>)>, at: int|
                                bind(
                                    spec_say(
                                        log,
                                        at,
                                        line().push(plain("Virtual USB Storage Drives:"@)),
                                    ),
                                    |_done: (), at: int|
                                        bind(
                                            spec_say(log, at, line()),
                                            |_done: (), at: int|
                                                spec_show_drives(log, at, drives, attached, 0),
                                        ),
                                ),
                        ),
                )
            },
    )
}

/// Lists the drives and who has them.
pub fn list_virtual_drives(log: &Vec<Reply>, at: usize) -> (r: Step<()>)
    ensures
        outcome(r) == spec_list_virtual_drives(log.deep_view(), at as int),
{
    let (drives, at) = load_virtual_drives(log, at)?;
    if drives.len() == 0 {
        let (_, at) = say(
            log,
            at,
            Line::new().plain("No storage drives found. Create one with:"),
        )?;
        return say(log, at, Line::new().plain("  virsh-usb storage create <name>"));
    }
    let (vms, at) = active_vms(log, at)?;
    let (attached, at) = attached_images(log, at, &vms)?;
    let (_, at) = say(log, at, Line::new().plain("Virtual USB Storage Drives:"))?;
    let (_, at) = say(log, at, Line::new())?;
    show_drives(log, at, &drives, &attached)
}

// ---------------------------------------------------------------------------
// Handing drives over
// ---------------------------------------------------------------------------

/// The definition of a disk on the USB bus.
pub open spec fn disk_xml(image: Seq<char>, dev: Seq<char>) -> Seq<char> {
    "<disk type='file' device='disk'>\n  <driver name='qemu' type='qcow2'/>\n  <source file='"@
        + image + "'/>\n  <target dev='"@ + dev + "' bus='usb'/>\n</disk>\n"@
}

/// The definition of a disk on the USB bus.
pub fn build_disk_xml(image: &str, dev: &str) -> (r: String)
    ensures
        r@ == disk_xml(image@, dev@),
{
    plus(
        plus(
            plus(
                plus(
                    "<disk type='file' device='disk'>\n  <driver name='qemu' type='qcow2'/>\n  <source file='".to_string(),
                    image,
                ),
                "'/>\n  <target dev='",
            ),
            dev,
        ),
        "' bus='usb'/>\n</disk>\n",
    )
}

/// What is said when the image of a drive cannot be found.
pub open spec fn image_missing(name: Seq<char>) -> Seq<char> {
    "Storage drive '"@ + name
        + "' not found in libvirt storage pool. Try: virsh vol-list default"@
}

/// The path of the image behind a drive, which should be there.
pub open spec fn spec_image_of(log: Log, at: int, name: Seq<char>) -> Outcome<Seq<char>> {
    in_context(spec_get_vol_path(log, at, name), image_missing(name))
}

fn image_of(log: &Vec<Reply>, at: usize, name: &str) -> (r: Step<String>)
    ensures
        outcome(r) == spec_image_of(log.deep_view(), at as int, name@),
{
    context(
        get_vol_path(log, at, name),
        plus(
            plus("Storage drive '".to_string(), name),
            "' not found in libvirt storage pool. Try: virsh vol-list default",
        ).as_str(),
    )
}

/// What is said when a drive has been handed over or taken back.
pub open spec fn drive_handed_line(
    deed: Seq<char>,
    name: Seq<char>,
    towards: Seq<char>,
    vm_name: Seq<char>,
) -> Seq<SpanView> {
    line().push(bold_green("✓"@)).push(plain(deed)).push(cyan(name)).push(plain(towards)).push(
        yellow(vm_name),
    )
}

/// Attaches a drive to a running virtual machine, unless it is attached
/// already.
pub open spec fn spec_attach_virtual_drive(
    log: Log,
    at: int,
    vm_name: Seq<char>,
    drive_name: Seq<char>,
) -> Outcome<()> {
    bind(
        spec_load_virtual_drives(log, at),
        |drives: Seq<DriveView>, at: int|
            match drive_named(drives, drive_name) {
                None => failure(at, no_drive(drive_name)),
                Some(k) => bind(
                    spec_check_vm_unpaused(log, at, vm_name),
                    |running: bool, at: int|
                        if !running {
                            failure(at, not_running(vm_name))
                        } else {
                            bind(
                                spec_is_virtual_drive_attached(log, at, vm_name, drives[k].name),
                                |attached: bool, at: int|
                                    if attached {
                                        spec_say(
                                            log,
                                            at,
                                            line().push(
                                                plain(
                                                    "Storage drive '"@ + drive_name
                                                        + "' is already attached to "@
                                                        + vm_name,
                                                ),
                                            ),
                                        )
                                    } else {
                                        spec_hand_drive(log, at, vm_name, drive_name)
                                    },
                            )
                        },
                ),
            },
    )
}

/// Attaches a drive under the next free disk name.
pub open spec fn spec_hand_drive(
    log: Log,
    at: int,
    vm_name: Seq<char>,
    drive_name: Seq<char>,
) -> Outcome<()> {
    bind(
        spec_image_of(log, at, drive_name),
        |image: Seq<char>, at: int|
            bind(
                spec_get_next_target_dev(log, at, vm_name),
                |dev: Seq<char>, at: int|
                    bind(
                        spec_hand_over(
                            log,
                            at,
                            "attach-device"@,
                            vm_name,
                            "/tmp/virsh-usb-storage-attach.xml"@,
                            disk_xml(image, dev),
                        ),
                        |_done: (), at: int|
                            spec_say(
                                log,
                                at,
                                drive_handed_line(
                                    " Successfully attached storage drive "@,
                                    drive_name,
                                    " to "@,
                                    vm_name,
                                ),
                            ),
                    ),
            ),
    )
}

/// Attaches a drive to a running virtual machine, unless it is attached
/// already.
pub fn attach_virtual_drive(
    log: &Vec<Reply>,
    at: usize,
    vm_name: &str,
    drive_name: &str,
) -> (r: Step<()>)
    ensures
        outcome(r) == spec_attach_virtual_drive(
            log.deep_view(),
            at as int,
            vm_name@,
            drive_name@,
        ),
{
    let (drives, at) = load_virtual_drives(log, at)?;
    match find_drive(&drives, drive_name) {
        None => fail(at, no_drive_message(drive_name).as_str()),
        Some(k) => {
            let (running, at) = check_vm_unpaused(log, at, vm_name)?;
            if !running {
                return fail(at, not_running_message(vm_name).as_str());
            }
            let (attached, at) = is_virtual_drive_attached(
                log,
                at,
                vm_name,
                drives[k].name.as_str(),
            )?;
            if attached {
                let start = plus("Storage drive '".to_string(), drive_name);
                let text = plus(plus(start, "' is already attached to "), vm_name);
                return say(log, at, Line::new().plain(text.as_str()));
            }
            let (image, at) = image_of(log, at, drive_name)?;
            let (dev, at) = get_next_target_dev(log, at, vm_name)?;
            let (_, at) = hand_over(
                log,
                at,
                "attach-device",
                vm_name,
                "/tmp/virsh-usb-storage-attach.xml",
                build_disk_xml(image.as_str(), dev.as_str()),
            )?;
            say(
                log,
                at,
                Line::new().bold_green("✓").plain(" Successfully attached storage drive ").cyan(
                    drive_name,
                ).plain(" to ").yellow(vm_name),
            )
        },
    }
}

/// What is said of a drive that the virtual machine does not have.
pub open spec fn drive_not_attached(name: Seq<char>, vm_name: Seq<char>) -> Seq<char> {
    "Storage drive '"@ + name + "' is not attached to VM '"@ + vm_name + "'"@
}

/// Detaches a drive from a running virtual machine that has it.
pub open spec fn spec_detach_virtual_drive(
    log: Log,
    at: int,
    vm_name: Seq<char>,
    drive_name: Seq<char>,
) -> Outcome<()> {
    bind(
        spec_load_virtual_drives(log, at),
        |drives: Seq<DriveView>, at: int|
            if drive_named(drives, drive_name) is None {
                failure(at, no_drive(drive_name))
            } else {
                bind(
                    spec_check_vm_unpaused(log, at, vm_name),
                    |running: bool, at: int|
                        if !running {
                            failure(at, not_running(vm_name))
                        } else {
                            spec_take_drive(log, at, vm_name, drive_name)
                        },
                )
            },
    )
}

/// Detaches a drive that the virtual machine has.
pub open spec fn spec_take_drive(
    log: Log,
    at: int,
    vm_name: Seq<char>,
    drive_name: Seq<char>,
) -> Outcome<()> {
    bind(
        spec_image_of(log, at, drive_name),
        |image: Seq<char>, at: int|
            bind(
                spec_get_attached_virtual_devices(log, at, vm_name),
                |disks: Seq<AttachmentView>, at: int|
                    match disk_of(disks, image) {
                        None => failure(at, drive_not_attached(drive_name, vm_name)),
                        Some(disk) => bind(
                            spec_hand_over(
                                log,
                                at,
                                "detach-device"@,
                                vm_name,
                                "/tmp/virsh-usb-storage-detach.xml"@,
                                disk_xml(image, disk.target_dev),
                            ),
                            |_done: (), at: int|
                                spec_say(
                                    log,
                                    at,
                                    drive_handed_line(
                                        " Successfully detached storage drive "@,
                                        drive_name,
                                        " from "@,
                                        vm_name,
                                    ),
                                ),
                        ),
                    },
            ),
    )
}

/// Detaches a drive from a running virtual machine that has it.
pub fn detach_virtual_drive(
    log: &Vec<Reply>,
    at: usize,
    vm_name: &str,
    drive_name: &str,
) -> (r: Step<()>)
    ensures
        outcome(r) == spec_detach_virtual_drive(
            log.deep_view(),
            at as int,
            vm_name@,
            drive_name@,
        ),
{
    let (drives, at) = load_virtual_drives(log, at)?;
    if find_drive(&drives, drive_name).is_none() {
        return fail(at, no_drive_message(drive_name).as_str());
    }
    let (running, at) = check_vm_unpaused(log, at, vm_name)?;
    if !running {
        return fail(at, not_running_message(vm_name).as_str());
    }
    let (image, at) = image_of(log, at, drive_name)?;
    let (disks, at) = get_attached_virtual_devices(log, at, vm_name)?;
    match find_disk(&disks, image.as_str()) {
        None => {
            let start = plus("Storage drive '".to_string(), drive_name);
            let text = plus(plus(plus(start, "' is not attached to VM '"), vm_name), "'");
            fail(at, text.as_str())
        },
        Some(dev) => {
            let (_, at) = hand_over(
                log,
                at,
                "detach-device",
                vm_name,
                "/tmp/virsh-usb-storage-detach.xml",
                build_disk_xml(image.as_str(), dev.as_str()),
            )?;
            say(
                log,
                at,
                Line::new().bold_green("✓").plain(" Successfully detached storage drive ").cyan(
                    drive_name,
                ).plain(" from ").yellow(vm_name),
            )
        },
    }
}

/// What is said of a drive's image.
pub open spec fn image_line(drive: DriveView, name: Seq<char>, image: Option<Seq<char>>) -> Seq<
    SpanView,
> {
    let start = line().push(cyan("💾"@)).push(plain(" Storage Drive ("@)).push(cyan(name)).push(
        plain("): "@),
    );
    match image {
        Some(image) => start.push(green(drive.size)).push(plain(" at "@)).push(dim(image)),
        None => start.push(red("Image missing from storage pool"@)),
    }
}

/// Tells of the virtual machine, of the drive, and, if the former runs, of the
/// latter's attachment.
pub open spec fn spec_show_virtual_status(
    log: Log,
    at: int,
    vm_name: Seq<char>,
    drive_name: Seq<char>,
) -> Outcome<()> {
    bind(
        spec_load_virtual_drives(log, at),
        |drives: Seq<DriveView>, at: int|
            match drive_named(drives, drive_name) {
                None => failure(at, no_drive(drive_name)),
                Some(k) => bind(
                    spec_check_vm_running(log, at, vm_name),
                    |running: bool, at: int|
                        bind(
                            spec_say(log, at, vm_line(vm_name, running)),
                            |_done: (), at: int|
                                spec_show_drive_state(
                                    log,
                                    at,
                                    vm_name,
                                    drive_name,
                                    drives[k],
                                    running,
                                ),
                        ),
                ),
            },
    )
}

/// Tells of the drive, and, if the virtual machine runs, of its attachment.
pub open spec fn spec_show_drive_state(
    log: Log,
    at: int,
    vm_name: Seq<char>,
    drive_name: Seq<char>,
    drive: DriveView,
    running: bool,
) -> Outcome<()> {
    bind(
        spec_attempt(spec_get_vol_path(log, at, drive_name)),
        |image: Option<Seq<char>>, at: int|
            bind(
                spec_say(log, at, image_line(drive, drive_name, image)),
                |_done: (), at: int|
                    if running {
                        bind(
                            spec_is_virtual_drive_attached(log, at, vm_name, drive.name),
                            |attached: bool, at: int|
                                spec_say(log, at, attachment_line(attached)),
                        )
                    } else {
                        Outcome::Ready((), at)
                    },
            ),
    )
}

/// Tells of the virtual machine, of the drive, and, if the former runs, of the
/// latter's attachment.
pub fn show_virtual_status(
    log: &Vec<Reply>,
    at: usize,
    vm_name: &str,
    drive_name: &str,
) -> (r: Step<()>)
    ensures
        outcome(r) == spec_show_virtual_status(
            log.deep_view(),
            at as int,
            vm_name@,
            drive_name@,
        ),
{
    let (drives, at) = load_virtual_drives(log, at)?;
    match find_drive(&drives, drive_name) {
        None => fail(at, no_drive_message(drive_name).as_str()),
        Some(k) => {
            let (running, at) = check_vm_running(log, at, vm_name)?;
            let (_, at) = say(log, at, build_vm_line(vm_name, running))?;
            let (image, at) = attempt(get_vol_path(log, at, drive_name))?;
            let start = Line::new().cyan("💾").plain(" Storage Drive (").cyan(drive_name).plain(
                "): ",
            );
            let text = match image {
                Some(image) => start.green(drives[k].size.as_str()).plain(" at ").dim(
                    image.as_str(),
                ),
                None => start.red("Image missing from storage pool"),
            };
            let (_, at) = say(log, at, text)?;
            if running {
                let (attached, at) = is_virtual_drive_attached(
                    log,
                    at,
                    vm_name,
                    drives[k].name.as_str(),
                )?;
                say(log, at, build_attachment_line(attached))
            } else {
                Ok(((), at))
            }
        },
    }
}

// ---------------------------------------------------------------------------
// Laws
// ---------------------------------------------------------------------------

/// When the list of drives is to be kept after making one, it is the list from
/// before with one drive more: of the given size, under the sanitized name,
/// which is valid; and if all names were distinct, they still are.
pub proof fn law_made_drive_is_listed(
    log: Log,
    at: int,
    name: Seq<char>,
    size: Seq<char>,
    drives: Seq<DriveView>,
    n: int,
    hids: Seq<HidView>,
    m: int,
    kept: Seq<DriveView>,
)
    requires
        spec_load_virtual_drives(log, at) == Outcome::Ready(drives, n),
        spec_load_hid_devices(log, n) == Outcome::Ready(hids, m),
        spec_create_virtual_drive(log, at, name, size) == Outcome::<()>::Ask(
            RequestView::EncodeDrives(kept),
        ),
    ensures
        kept.len() == drives.len() + 1,
        kept.drop_last() == drives,
        kept.last().name == sanitized(name),
        kept.last().size == size,
        valid_name(sanitized(name)) && sanitized(name).len() > 0,
        drive_named(kept, sanitized(name)) == Some(drives.len() as int),
        names_distinct(drives, hids) ==> names_distinct(kept, hids),
{
    law_sanitized_is_valid(name);
    assert(kept.drop_last() =~= drives);
    assert(kept =~= drives.push(kept.last()));
    if names_distinct(drives, hids) {
        law_new_drive_keeps_names_distinct(drives, hids, kept.last());
    }
    law_deleting_undoes_making(
        drives,
        kept.last(),
        seq![],
        HidView { name: seq![], vid: seq![], pid: seq![] },
    );
}

/// A name that a virtual device has is refused, and so is one of which nothing
/// is left; no volume is made then and the list is not touched.
pub proof fn law_taken_drive_name_is_refused(
    log: Log,
    at: int,
    name: Seq<char>,
    size: Seq<char>,
    drives: Seq<DriveView>,
    n: int,
    hids: Seq<HidView>,
    m: int,
)
    requires
        spec_load_virtual_drives(log, at) == Outcome::Ready(drives, n),
        spec_load_hid_devices(log, n) == Outcome::Ready(hids, m),
    ensures
        name.len() == 0 ==> spec_create_virtual_drive(log, at, name, size) == failure::<()>(
            at,
            "Drive name cannot be empty"@,
        ),
        name.len() > 0 && sanitized(name).len() == 0 ==> spec_create_virtual_drive(
            log,
            at,
            name,
            size,
        ) == failure::<()>(at, "Drive name is empty after sanitization"@),
        sanitized(name).len() > 0 && drive_named(drives, sanitized(name)) is Some
            ==> spec_create_virtual_drive(log, at, name, size) == failure::<()>(
            n,
            drive_exists(sanitized(name)),
        ),
        sanitized(name).len() > 0 && drive_named(drives, sanitized(name)) is None && hid_named(
            hids,
            sanitized(name),
        ) is Some ==> spec_create_virtual_drive(log, at, name, size) == failure::<()>(
            m,
            name_of_hid(sanitized(name)),
        ),
{
    if name.len() == 0 {
        law_valid_name_unchanged(name);
    }
}

/// The host has been asked whether the drive is attached to the virtual
/// machine, and said that it is not.
pub open spec fn found_free(log: Log, vm_name: Seq<char>, drive_name: Seq<char>) -> bool {
    exists|p: int|
        (#[trigger] spec_is_virtual_drive_attached(log, p, vm_name, drive_name)) matches Outcome::Ready(
            attached,
            _,
        ) && !attached
}

proof fn lemma_refuse_attached_drive(
    log: Log,
    at: int,
    name: Seq<char>,
    vms: Seq<Seq<char>>,
    i: int,
    n: int,
)
    requires
        0 <= i,
        spec_refuse_attached_drive(log, at, name, vms, i) == Outcome::<()>::Ready((), n),
    ensures
        forall|j: int| i <= j < vms.len() ==> #[trigger] found_free(log, vms[j], name),
    decreases vms.len() - i,
{
    if i < vms.len() {
        if let Outcome::Ready(attached, next) = spec_is_virtual_drive_attached(
            log,
            at,
            vms[i],
            name,
        ) {
            assert(found_free(log, vms[i], name));
            lemma_refuse_attached_drive(log, next, name, vms, i + 1, n);
        }
    }
}

/// When the list of drives is to be kept after deleting one, it is the list from
/// before without the drive of that name; and no active virtual machine had
/// it.
pub proof fn law_deleted_drive_was_free(
    log: Log,
    at: int,
    name: Seq<char>,
    drives: Seq<DriveView>,
    n: int,
    kept: Seq<DriveView>,
)
    requires
        spec_load_virtual_drives(log, at) == Outcome::Ready(drives, n),
        spec_delete_virtual_drive(log, at, name) == Outcome::<()>::Ask(
            RequestView::EncodeDrives(kept),
        ),
    ensures
        drive_named(drives, name) matches Some(k) && kept == drives_without(drives, k),
        spec_active_vms(log, n) matches Outcome::Ready(vms, m) && forall|j: int|
            0 <= j < vms.len() ==> #[trigger] found_free(log, vms[j], name),
{
    lemma_drive_from(drives, name, 0);
    if let Outcome::Ready(vms, m) = spec_active_vms(log, n) {
        if let Outcome::Ready(_, q) = spec_refuse_attached_drive(log, m, name, vms, 0) {
            lemma_refuse_attached_drive(log, m, name, vms, 0, q);
        }
        lemma_refuse_asks(log, m, name, vms, 0, kept);
    }
}

proof fn lemma_refuse_asks(
    log: Log,
    at: int,
    name: Seq<char>,
    vms: Seq<Seq<char>>,
    i: int,
    kept: Seq<DriveView>,
)
    ensures
        spec_refuse_attached_drive(log, at, name, vms, i) != Outcome::<()>::Ask(
            RequestView::EncodeDrives(kept),
        ),
    decreases vms.len() - i,
{
    if i < vms.len() {
        if let Outcome::Ready(attached, next) = spec_is_virtual_drive_attached(
            log,
            at,
            vms[i],
            name,
        ) {
            lemma_refuse_asks(log, next, name, vms, i + 1, kept);
        }
    }
}

/// The position in the log behind the questions whether the first `j` virtual
/// machines have the drive, if none of them has it.
pub open spec fn behind_free(
    log: Log,
    at: int,
    name: Seq<char>,
    vms: Seq<Seq<char>>,
    j: int,
) -> Option<int>
    decreases j,
{
    if j <= 0 {
        Some(at)
    } else {
        match behind_free(log, at, name, vms, j - 1) {
            Some(p) => match spec_is_virtual_drive_attached(log, p, vms[j - 1], name) {
                Outcome::Ready(false, n) => Some(n),
                _ => None,
            },
            None => None,
        }
    }
}

proof fn lemma_behind_free(log: Log, at: int, name: Seq<char>, vms: Seq<Seq<char>>, j: int, p: int)
    requires
        0 <= j <= vms.len(),
        behind_free(log, at, name, vms, j) == Some(p),
    ensures
        spec_refuse_attached_drive(log, at, name, vms, 0) == spec_refuse_attached_drive(
            log,
            p,
            name,
            vms,
            j,
        ),
    decreases j,
{
    if j > 0 {
        lemma_behind_free(
            log,
            at,
            name,
            vms,
            j - 1,
            behind_free(log, at, name, vms, j - 1)->0,
        );
    }
}

/// A drive that an active virtual machine has is not deleted: the user is told
/// to detach it first.
pub proof fn law_drive_in_use_is_refused(
    log: Log,
    at: int,
    name: Seq<char>,
    drives: Seq<DriveView>,
    n: int,
    vms: Seq<Seq<char>>,
    m: int,
    j: int,
    p: int,
    q: int,
)
    requires
        spec_load_virtual_drives(log, at) == Outcome::Ready(drives, n),
        drive_named(drives, name) is Some,
        spec_active_vms(log, n) == Outcome::Ready(vms, m),
        0 <= j < vms.len(),
        behind_free(log, m, name, vms, j) == Some(p),
        spec_is_virtual_drive_attached(log, p, vms[j], name) == Outcome::Ready(true, q),
    ensures
        spec_delete_virtual_drive(log, at, name) == failure::<()>(q, drive_in_use(name, vms[j])),
{
    lemma_drive_from(drives, name, 0);
    lemma_behind_free(log, m, name, vms, j, p);
}

/// Loading needs no more of the log than the replies that it uses.
proof fn lemma_load_prefix(log: Log, at: int, drives: Seq<DriveView>, n: int, most: int)
    requires
        0 <= at,
        spec_load_virtual_drives(log, at) == Outcome::Ready(drives, n),
        n <= most <= log.len(),
    ensures
        at < n,
        spec_load_virtual_drives(log.take(most), at) == Outcome::Ready(drives, n),
{
}

/// The host is asked to attach a drive only after the virtual machine was found
/// to run and not to have the drive; and the definition that was written names
/// the drive's image and the first free disk name.
pub proof fn law_drive_attached_only_when_free(
    log: Log,
    at: int,
    vm_name: Seq<char>,
    drive_name: Seq<char>,
    drives: Seq<DriveView>,
    n: int,
)
    requires
        0 <= at,
        spec_load_virtual_drives(log, at) == Outcome::Ready(drives, n),
        spec_attach_virtual_drive(log, at, vm_name, drive_name) == Outcome::<()>::Ask(
            RequestView::Run(
                device_command("attach-device"@, vm_name, "/tmp/virsh-usb-storage-attach.xml"@),
            ),
        ),
    ensures
        drive_named(drives, drive_name) is Some,
        spec_check_vm_unpaused(log, n, vm_name) == Outcome::Ready(true, n + 1),
        spec_is_virtual_drive_attached(log, n + 1, vm_name, drive_name) == Outcome::Ready(
            false,
            n + 3,
        ),
        spec_get_vol_path(log, n + 3, drive_name) matches Outcome::Ready(image, _) && (
        spec_get_next_target_dev(log, n + 4, vm_name) matches Outcome::Ready(dev, _)
            && spec_attach_virtual_drive(log.take(n + 5), at, vm_name, drive_name)
            == Outcome::<()>::Ask(
            RequestView::Write("/tmp/virsh-usb-storage-attach.xml"@, disk_xml(image, dev)),
        )),
{
    reveal_strlit("attach-device");
    reveal_strlit("vol-path");
    assert(device_command(
        "attach-device"@,
        vm_name,
        "/tmp/virsh-usb-storage-attach.xml"@,
    )[1].len() == 13);
    let vol = seq!["virsh"@, "vol-path"@, volume(drive_name), "--pool"@, "default"@];
    assert(vol[1].len() == 8);
    assert(list_unpaused().len() == 4);
    assert(dumpxml(vm_name).len() == 3);
    lemma_drive_from(drives, drive_name, 0);
    let short = log.take(n + 5);
    assert(log.len() > n + 5);
    lemma_load_prefix(log, at, drives, n, n + 5);
    assert(spec_check_vm_unpaused(short, n, vm_name) == spec_check_vm_unpaused(log, n, vm_name));
    assert(spec_is_virtual_drive_attached(short, n + 1, vm_name, drive_name)
        == spec_is_virtual_drive_attached(log, n + 1, vm_name, drive_name));
    assert(spec_image_of(short, n + 3, drive_name) == spec_image_of(log, n + 3, drive_name));
    assert(spec_get_next_target_dev(short, n + 4, vm_name) == spec_get_next_target_dev(
        log,
        n + 4,
        vm_name,
    ));
}

/// The host is asked to detach a drive only after the virtual machine was found
/// to run and to have the drive; and the definition that was written names the
/// drive's image and the disk name under which it is attached.
pub proof fn law_drive_detached_only_when_attached(
    log: Log,
    at: int,
    vm_name: Seq<char>,
    drive_name: Seq<char>,
    drives: Seq<DriveView>,
    n: int,
)
    requires
        0 <= at,
        spec_load_virtual_drives(log, at) == Outcome::Ready(drives, n),
        spec_detach_virtual_drive(log, at, vm_name, drive_name) == Outcome::<()>::Ask(
            RequestView::Run(
                device_command("detach-device"@, vm_name, "/tmp/virsh-usb-storage-detach.xml"@),
            ),
        ),
    ensures
        drive_named(drives, drive_name) is Some,
        spec_check_vm_unpaused(log, n, vm_name) == Outcome::Ready(true, n + 1),
        spec_get_vol_path(log, n + 1, drive_name) matches Outcome::Ready(image, _) && (
        spec_get_attached_virtual_devices(log, n + 2, vm_name) matches Outcome::Ready(disks, _) && (
        disk_of(disks, image) matches Some(disk) && spec_detach_virtual_drive(
            log.take(n + 3),
            at,
            vm_name,
            drive_name,
        ) == Outcome::<()>::Ask(
            RequestView::Write(
                "/tmp/virsh-usb-storage-detach.xml"@,
                disk_xml(image, disk.target_dev),
            ),
        ))),
{
    reveal_strlit("detach-device");
    reveal_strlit("vol-path");
    assert(device_command(
        "detach-device"@,
        vm_name,
        "/tmp/virsh-usb-storage-detach.xml"@,
    )[1].len() == 13);
    let vol = seq!["virsh"@, "vol-path"@, volume(drive_name), "--pool"@, "default"@];
    assert(vol[1].len() == 8);
    assert(list_unpaused().len() == 4);
    assert(dumpxml(vm_name).len() == 3);
    let short = log.take(n + 3);
    assert(log.len() > n + 3);
    lemma_load_prefix(log, at, drives, n, n + 3);
    assert(spec_check_vm_unpaused(short, n, vm_name) == spec_check_vm_unpaused(log, n, vm_name));
    assert(spec_image_of(short, n + 1, drive_name) == spec_image_of(log, n + 1, drive_name));
    assert(spec_get_attached_virtual_devices(short, n + 2, vm_name)
        == spec_get_attached_virtual_devices(log, n + 2, vm_name));
}

/// A virtual machine that does not run gets no drive and loses none: the user
/// is told, and the host is asked for nothing more.
pub proof fn law_stopped_vm_keeps_its_drives(
    log: Log,
    at: int,
    vm_name: Seq<char>,
    drive_name: Seq<char>,
    drives: Seq<DriveView>,
    n: int,
)
    requires
        spec_load_virtual_drives(log, at) == Outcome::Ready(drives, n),
        drive_named(drives, drive_name) is Some,
        spec_check_vm_unpaused(log, n, vm_name) == Outcome::Ready(false, n + 1),
    ensures
        spec_attach_virtual_drive(log, at, vm_name, drive_name) == failure::<()>(
            n + 1,
            not_running(vm_name),
        ),
        spec_detach_virtual_drive(log, at, vm_name, drive_name) == failure::<()>(
            n + 1,
            not_running(vm_name),
        ),
{
}

/// The disk name for the next drive is the first of `sda` to `sdz` that the
/// virtual machine's definition does not take; there is none only if it takes
/// all of them.
pub proof fn law_next_target_is_first_free(xml: Seq<char>)
    ensures
        match free_target(xml, 0) {
            Some(dev) => exists|k: int|
                0 <= k < 26 && dev == #[trigger] target_name(k) && !dev_used(xml, dev) && forall|
                    j: int,
                |
                    0 <= j < k ==> dev_used(xml, #[trigger] target_name(j)),
            None => forall|j: int| 0 <= j < 26 ==> dev_used(xml, #[trigger] target_name(j)),
        },
{
    lemma_free_target(xml, 0);
}

proof fn lemma_free_target(xml: Seq<char>, i: int)
    requires
        0 <= i <= 26,
        forall|j: int| 0 <= j < i ==> dev_used(xml, #[trigger] target_name(j)),
    ensures
        match free_target(xml, i) {
            Some(dev) => exists|k: int|
                i <= k < 26 && dev == #[trigger] target_name(k) && !dev_used(xml, dev) && forall|
                    j: int,
                |
                    0 <= j < k ==> dev_used(xml, #[trigger] target_name(j)),
            None => forall|j: int| 0 <= j < 26 ==> dev_used(xml, #[trigger] target_name(j)),
        },
    decreases 26 - i,
{
    if i < 26 && dev_used(xml, target_name(i)) {
        lemma_free_target(xml, i + 1);
    }
}

// ---------------------------------------------------------------------------
// Reading a disk back
// ---------------------------------------------------------------------------

/// A value that a definition can hold as it is: no quote and no newline ends
/// it, and no tag begins in it.
pub open spec fn plain_value(s: Seq<char>) -> bool {
    !s.contains('\'') && !s.contains('\n') && !s.contains('<')
}

/// The line of a definition with the image in it.
pub open spec fn source_line(image: Seq<char>) -> Seq<char> {
    "  <source "@ + "file='"@ + image + "'/>"@
}

/// The line of a definition with the disk name in it.
pub open spec fn target_line(dev: Seq<char>) -> Seq<char> {
    "  <target "@ + "dev='"@ + dev + "'"@ + " bus='usb'/>"@
}

/// What an attribute has, where nothing like it stands before.
proof fn lemma_attr_value(start: Seq<char>, attr: Seq<char>, value: Seq<char>, rest: Seq<char>)
    requires
        attr.len() > 0,
        !start.contains(attr[0]),
        !value.contains('\''),
        rest.len() > 0,
        rest[0] == '\'',
    ensures
        attr_value(start + (attr + "='"@) + value + rest, attr) == Some(value),
{
    let needle = attr + "='"@;
    let s = start + needle + value + rest;
    let n = start.len() as int;
    lemma_contains_middle(start, needle, value + rest);
    assert(start + needle + (value + rest) =~= s);
    lemma_match_from(s, needle, 0);
    assert forall|j: int| 0 <= j < n implies !occurs(s, needle, j) by {
        if occurs(s, needle, j) {
            assert(s.subrange(j, j + needle.len())[0] == s[j]);
            assert(s[j] == start[j]);
        }
    }
    let tail = s.skip(n + needle.len());
    assert(tail =~= value + rest);
    assert forall|i: int| 0 <= i < value.len() implies tail[i] != '\'' by {
        assert(tail[i] == value[i]);
    }
    lemma_until(tail, '\'', value.len() as int);
    assert(tail.take(value.len() as int) =~= value);
}

proof fn lemma_source_line(image: Seq<char>)
    requires
        plain_value(image),
    ensures
        !source_line(image).contains('\n'),
        without_cr(source_line(image)) == source_line(image),
        !begins_disk(trimmed(source_line(image))),
        trimmed(source_line(image)) != "</disk>"@,
        contains_text(trimmed(source_line(image)), "<source file="@),
        attr_value(trimmed(source_line(image)), "file"@) == Some(image),
        !names_usb_target(trimmed(source_line(image))),
{
    reveal_strlit("  <source ");
    reveal_strlit("file='");
    reveal_strlit("file");
    reveal_strlit("='");
    reveal_strlit("'/>");
    reveal_strlit("<disk");
    reveal_strlit("</disk>");
    reveal_strlit("<source file=");
    reveal_strlit("<target");
    let l = source_line(image);
    assert forall|i: int| 0 <= i < l.len() implies l[i] != '\n' by {
        if 16 <= i < 16 + image.len() {
            assert(l[i] == image[i - 16]);
        }
    }
    assert(l.last() == '>');
    lemma_trimmed(l, 2);
    let t = l.skip(2);
    assert forall|i: int| 1 <= i < t.len() implies t[i] != '<' by {
        if 14 <= i < 14 + image.len() {
            assert(t[i] == image[i - 14]);
        }
    }
    assert(t[1] == 's');
    lemma_not_contained(t, "<target"@);
    assert(!begins(t, "<disk"@)) by {
        if begins(t, "<disk"@) {
            assert(t.subrange(0, 5)[1] == t[1]);
        }
    }
    let none: Seq<char> = seq![];
    let head = "<source file="@;
    assert(t =~= none + head + ("'"@ + image + "'/>"@)) by {
        reveal_strlit("'");
    }
    lemma_contains_middle(none, head, "'"@ + image + "'/>"@);
    let start = seq!['<', 's', 'o', 'u', 'r', 'c', 'e', ' '];
    assert(t =~= start + ("file"@ + "='"@) + image + "'/>"@);
    lemma_attr_value(start, "file"@, image, "'/>"@);
}

proof fn lemma_target_line(dev: Seq<char>)
    requires
        plain_value(dev),
    ensures
        !target_line(dev).contains('\n'),
        without_cr(target_line(dev)) == target_line(dev),
        !begins_disk(trimmed(target_line(dev))),
        trimmed(target_line(dev)) != "</disk>"@,
        !contains_text(trimmed(target_line(dev)), "<source file="@),
        names_usb_target(trimmed(target_line(dev))),
        attr_value(trimmed(target_line(dev)), "dev"@) == Some(dev),
        dev_in_line(target_line(dev)) == Some(dev),
{
    reveal_strlit("  <target ");
    reveal_strlit("dev='");
    reveal_strlit("dev");
    reveal_strlit("dev=");
    reveal_strlit("='");
    reveal_strlit("'");
    reveal_strlit(" bus='usb'/>");
    reveal_strlit("bus='usb'");
    reveal_strlit("<disk");
    reveal_strlit("</disk>");
    reveal_strlit("<source file=");
    reveal_strlit("<target");
    let l = target_line(dev);
    assert forall|i: int| 0 <= i < l.len() implies l[i] != '\n' by {
        if 15 <= i < 15 + dev.len() {
            assert(l[i] == dev[i - 15]);
        }
    }
    assert(l.last() == '>');
    lemma_trimmed(l, 2);
    let t = l.skip(2);
    assert forall|i: int| 1 <= i < t.len() implies t[i] != '<' by {
        if 13 <= i < 13 + dev.len() {
            assert(t[i] == dev[i - 13]);
        }
    }
    assert(t[1] == 't');
    lemma_not_contained(t, "<source file="@);
    assert(!begins(t, "<disk"@)) by {
        if begins(t, "<disk"@) {
            assert(t.subrange(0, 5)[1] == t[1]);
        }
    }
    let none: Seq<char> = seq![];
    let after = seq![' '] + "dev='"@ + dev + "'"@ + " bus='usb'/>"@;
    assert(t =~= none + "<target"@ + after);
    lemma_contains_middle(none, "<target"@, after);
    let before = seq!['<', 't', 'a', 'r', 'g', 'e', 't', ' '] + "dev='"@ + dev + "'"@ + seq![' '];
    let last = seq!['/', '>'];
    assert(t =~= before + "bus='usb'"@ + last);
    lemma_contains_middle(before, "bus='usb'"@, last);
    let start = seq!['<', 't', 'a', 'r', 'g', 'e', 't', ' '];
    let rest = "'"@ + " bus='usb'/>"@;
    assert(t =~= start + ("dev"@ + "='"@) + dev + rest);
    lemma_attr_value(start, "dev"@, dev, rest);
    let tail = seq!['\''] + dev + rest;
    assert(t =~= start + "dev="@ + tail);
    lemma_contains_middle(start, "dev="@, tail);
}

/// The lines of a disk's definition.
pub open spec fn disk_lines(image: Seq<char>, dev: Seq<char>) -> Seq<Seq<char>> {
    Seq::<Seq<char>>::empty().push("<disk type='file' device='disk'>"@).push(
        "  <driver name='qemu' type='qcow2'/>"@,
    ).push(source_line(image)).push(target_line(dev)).push("</disk>"@)
}

proof fn lemma_disk_lines(image: Seq<char>, dev: Seq<char>)
    requires
        plain_value(image),
        plain_value(dev),
    ensures
        lines_of(disk_xml(image, dev)) == disk_lines(image, dev),
{
    reveal_strlit(
        "<disk type='file' device='disk'>\n  <driver name='qemu' type='qcow2'/>\n  <source file='",
    );
    reveal_strlit("'/>\n  <target dev='");
    reveal_strlit("' bus='usb'/>\n</disk>\n");
    reveal_strlit("<disk type='file' device='disk'>");
    reveal_strlit("  <driver name='qemu' type='qcow2'/>");
    reveal_strlit("  <source ");
    reveal_strlit("file='");
    reveal_strlit("'/>");
    reveal_strlit("  <target ");
    reveal_strlit("dev='");
    reveal_strlit("'");
    reveal_strlit(" bus='usb'/>");
    reveal_strlit("</disk>");
    lemma_source_line(image);
    lemma_target_line(dev);
    let l1 = "<disk type='file' device='disk'>"@;
    let l2 = "  <driver name='qemu' type='qcow2'/>"@;
    let l3 = source_line(image);
    let l4 = target_line(dev);
    let l5 = "</disk>"@;
    let r5: Seq<char> = seq![];
    let r4 = l5.push('\n') + r5;
    let r3 = l4.push('\n') + r4;
    let r2 = l3.push('\n') + r3;
    let r1 = l2.push('\n') + r2;
    let all = l1.push('\n') + r1;
    assert(all =~= disk_xml(image, dev));
    lemma_lines_cons(l1, r1);
    lemma_lines_cons(l2, r2);
    lemma_lines_cons(l3, r3);
    lemma_lines_cons(l4, r4);
    lemma_lines_cons(l5, r5);
    assert(lines_of(all) =~= disk_lines(image, dev));
}

proof fn lemma_disk_fixed_lines()
    ensures
        begins_disk(trimmed("<disk type='file' device='disk'>"@)),
        !begins_disk(trimmed("  <driver name='qemu' type='qcow2'/>"@)),
        trimmed("  <driver name='qemu' type='qcow2'/>"@) != "</disk>"@,
        !contains_text(trimmed("  <driver name='qemu' type='qcow2'/>"@), "<source file="@),
        !names_usb_target(trimmed("  <driver name='qemu' type='qcow2'/>"@)),
        !begins_disk(trimmed("</disk>"@)),
        trimmed("</disk>"@) == "</disk>"@,
{
    reveal_strlit("<disk type='file' device='disk'>");
    reveal_strlit("  <driver name='qemu' type='qcow2'/>");
    reveal_strlit("</disk>");
    reveal_strlit("<disk");
    reveal_strlit("type='file'");
    reveal_strlit("device='disk'");
    reveal_strlit("<source file=");
    reveal_strlit("<target");
    let l1 = "<disk type='file' device='disk'>"@;
    lemma_trimmed(l1, 0);
    assert(l1.skip(0) =~= l1);
    assert(l1.subrange(0, 5) =~= "<disk"@);
    assert(l1.subrange(6, 17) =~= "type='file'"@);
    assert(occurs(l1, "type='file'"@, 6));
    assert(l1.subrange(18, 31) =~= "device='disk'"@);
    assert(occurs(l1, "device='disk'"@, 18));
    let l2 = "  <driver name='qemu' type='qcow2'/>"@;
    lemma_trimmed(l2, 2);
    let t2 = l2.skip(2);
    assert(t2[1] == 'd' && t2[2] == 'r');
    lemma_not_contained(t2, "<source file="@);
    lemma_not_contained(t2, "<target"@);
    assert(!begins(t2, "<disk"@)) by {
        if begins(t2, "<disk"@) {
            assert(t2.subrange(0, 5)[2] == t2[2]);
        }
    }
    let l5 = "</disk>"@;
    lemma_trimmed(l5, 0);
    assert(l5.skip(0) =~= l5);
    assert(!begins(l5, "<disk"@)) by {
        if begins(l5, "<disk"@) {
            assert(l5.subrange(0, 5)[1] == l5[1]);
        }
    }
}

proof fn lemma_disk_push(lines: Seq<Seq<char>>, l: Seq<char>)
    ensures
        disk_scan(lines.push(l)) == disk_line(disk_scan(lines), trimmed(l)),
{
    assert(lines.push(l).drop_last() =~= lines);
}

proof fn lemma_disk_grows(lines: Seq<Seq<char>>, after: Seq<Seq<char>>, disk: AttachmentView)
    requires
        disk_scan(lines).found.contains(disk),
    ensures
        disk_scan(lines + after).found.contains(disk),
    decreases after.len(),
{
    if after.len() == 0 {
        assert(lines + after =~= lines);
    } else {
        let rest = after.drop_last();
        lemma_disk_grows(lines, rest, disk);
        let d = disk_scan(lines + rest).found;
        let k = choose|k: int| 0 <= k < d.len() && d[k] == disk;
        assert((lines + after).drop_last() =~= lines + rest);
        assert(disk_scan(lines + after).found[k] == disk);
    }
}

/// The definition with which a drive is attached, wherever it stands among the
/// lines of a virtual machine's definition, is read back as that disk: its
/// image under its disk name.
pub proof fn law_disk_is_read_back(
    before: Seq<Seq<char>>,
    image: Seq<char>,
    dev: Seq<char>,
    after: Seq<Seq<char>>,
)
    requires
        plain_value(image),
        plain_value(dev),
    ensures
        disk_scan(before + lines_of(disk_xml(image, dev))).found == disk_scan(before).found.push(
            AttachmentView { source_file: image, target_dev: dev },
        ),
        disk_scan(before + lines_of(disk_xml(image, dev)) + after).found.contains(
            AttachmentView { source_file: image, target_dev: dev },
        ),
{
    lemma_disk_lines(image, dev);
    lemma_source_line(image);
    lemma_target_line(dev);
    lemma_disk_fixed_lines();
    let l1 = "<disk type='file' device='disk'>"@;
    let l2 = "  <driver name='qemu' type='qcow2'/>"@;
    let l3 = source_line(image);
    let l4 = target_line(dev);
    let l5 = "</disk>"@;
    let s1 = before.push(l1);
    let s2 = s1.push(l2);
    let s3 = s2.push(l3);
    let s4 = s3.push(l4);
    let s5 = s4.push(l5);
    assert(before + disk_lines(image, dev) =~= s5);
    lemma_disk_push(before, l1);
    lemma_disk_push(s1, l2);
    lemma_disk_push(s2, l3);
    lemma_disk_push(s3, l4);
    lemma_disk_push(s4, l5);
    let disk = AttachmentView { source_file: image, target_dev: dev };
    assert(disk_scan(s5).found.last() == disk);
    lemma_disk_grows(s5, after, disk);
}

/// A disk name under which a drive is attached is taken in the definition that
/// holds the disk, so the next drive gets another one.
pub proof fn law_attached_name_is_taken(xml: Seq<char>, image: Seq<char>, dev: Seq<char>, i: int)
    requires
        plain_value(image),
        plain_value(dev),
        0 <= i <= lines_of(xml).len() - lines_of(disk_xml(image, dev)).len(),
        lines_of(xml).subrange(i, i + lines_of(disk_xml(image, dev)).len()) == lines_of(
            disk_xml(image, dev),
        ),
    ensures
        dev_used(xml, dev),
        free_target(xml, 0) != Some(dev),
{
    lemma_disk_lines(image, dev);
    lemma_target_line(dev);
    let part = lines_of(xml).subrange(i, i + lines_of(disk_xml(image, dev)).len());
    assert(part[3] == lines_of(xml)[i + 3]);
    assert(dev_in_line(lines_of(xml)[i + 3]) == Some(dev));
    lemma_free_target(xml, 0);
}

/// The names for a disk are `sda` to `sdz`.
pub proof fn law_names_of_disks(k: int)
    requires
        0 <= k < 26,
    ensures
        target_name(k).len() == 3,
        target_name(k)[0] == 's',
        target_name(k)[1] == 'd',
        target_name(k)[2] as int == 'a' as int + k,
{
    reveal_strlit("sd");
}

/// A virtual machine whose definition speaks of no USB bus has no USB disk.
pub proof fn law_other_buses_do_not_count(xml: Seq<char>)
    requires
        forall|i: int|
            0 <= i < lines_of(xml).len() ==> !contains_text(
                trimmed(#[trigger] lines_of(xml)[i]),
                "bus='usb'"@,
            ),
    ensures
        disks_in(xml) == Seq::<AttachmentView>::empty(),
{
    lemma_no_usb(lines_of(xml));
}

proof fn lemma_no_usb(lines: Seq<Seq<char>>)
    requires
        forall|i: int|
            0 <= i < lines.len() ==> !contains_text(trimmed(#[trigger] lines[i]), "bus='usb'"@),
    ensures
        disk_scan(lines).found == Seq::<AttachmentView>::empty(),
        !disk_scan(lines).usb,
    decreases lines.len(),
{
    if lines.len() > 0 {
        let before = lines.drop_last();
        assert forall|i: int| 0 <= i < before.len() implies !contains_text(
            trimmed(#[trigger] before[i]),
            "bus='usb'"@,
        ) by {
            assert(before[i] == lines[i]);
        }
        lemma_no_usb(before);
        assert(lines.last() == lines[lines.len() - 1]);
    }
}

/// A disk is found by its image; of several with the same image it is the first.
pub proof fn law_disk_is_found_by_its_image(disks: Seq<AttachmentView>, image: Seq<char>)
    ensures
        match disk_of(disks, image) {
            Some(d) => exists|k: int| {
                &&& 0 <= k < disks.len()
                &&& #[trigger] disks[k] == d
                &&& d.source_file == image
                &&& forall|j: int| 0 <= j < k ==> (#[trigger] disks[j]).source_file != image
            },
            None => forall|j: int|
                0 <= j < disks.len() ==> (#[trigger] disks[j]).source_file != image,
        },
{
    lemma_image_from(disks, image, 0);
}

proof fn lemma_image_from(disks: Seq<AttachmentView>, image: Seq<char>, i: int)
    requires
        0 <= i,
    ensures
        match disk_from(disks, image, i) {
            Some(d) => exists|k: int| {
                &&& i <= k < disks.len()
                &&& #[trigger] disks[k] == d
                &&& d.source_file == image
                &&& forall|j: int| i <= j < k ==> (#[trigger] disks[j]).source_file != image
            },
            None => forall|j: int|
                i <= j < disks.len() ==> (#[trigger] disks[j]).source_file != image,
        },
    decreases disks.len() - i,
{
    if i < disks.len() {
        if disks[i].source_file == image {
            assert(disks[i] == disks[i]);
        } else {
            lemma_image_from(disks, image, i + 1);
        }
    }
}

/// Every disk takes the name that its target has, on whatever bus it is.
pub proof fn law_any_target_takes_its_name(indent: Seq<char>, dev: Seq<char>, rest: Seq<char>)
    requires
        forall|i: int| 0 <= i < indent.len() ==> is_space(#[trigger] indent[i]),
        plain_value(dev),
        rest.len() > 0,
        rest[0] == '\'',
        !is_space(rest.last()),
    ensures
        dev_in_line(indent + ("<target "@ + ("dev"@ + "='"@) + dev + rest)) == Some(dev),
{
    reveal_strlit("<target ");
    reveal_strlit("<target");
    reveal_strlit("dev");
    reveal_strlit("='");
    reveal_strlit("dev=");
    let t = "<target "@ + ("dev"@ + "='"@) + dev + rest;
    assert(t[0] == '<');
    assert(t.last() == rest.last());
    law_trimming(indent, t, seq![]);
    assert(indent + t + seq![] =~= indent + t);
    lemma_contains_middle(seq![], "<target"@, t.skip(7));
    assert(seq![] + "<target"@ + t.skip(7) =~= t);
    lemma_contains_middle("<target "@, "dev="@, t.skip(12));
    assert("<target "@ + "dev="@ + t.skip(12) =~= t);
    assert(!"<target "@.contains('d'));
    lemma_attr_value("<target "@, "dev"@, dev, rest);
}

/// A disk that is no file, or no disk but a drive for other media, does not count.
pub proof fn law_only_disks_of_files_count(xml: Seq<char>)
    ensures
        (forall|i: int|
            0 <= i < lines_of(xml).len() ==> !contains_text(
                trimmed(#[trigger] lines_of(xml)[i]),
                "type='file'"@,
            )) ==> disks_in(xml) == Seq::<AttachmentView>::empty(),
        (forall|i: int|
            0 <= i < lines_of(xml).len() ==> !contains_text(
                trimmed(#[trigger] lines_of(xml)[i]),
                "device='disk'"@,
            )) ==> disks_in(xml) == Seq::<AttachmentView>::empty(),
{
    let lines = lines_of(xml);
    if forall|i: int|
        0 <= i < lines.len() ==> !contains_text(trimmed(#[trigger] lines[i]), "type='file'"@) {
        assert forall|i: int| 0 <= i < lines.len() implies !begins_disk(
            trimmed(#[trigger] lines[i]),
        ) by {}
        lemma_no_disk(lines);
    }
    if forall|i: int|
        0 <= i < lines.len() ==> !contains_text(trimmed(#[trigger] lines[i]), "device='disk'"@) {
        assert forall|i: int| 0 <= i < lines.len() implies !begins_disk(
            trimmed(#[trigger] lines[i]),
        ) by {}
        lemma_no_disk(lines);
    }
}

proof fn lemma_no_disk(lines: Seq<Seq<char>>)
    requires
        forall|i: int| 0 <= i < lines.len() ==> !begins_disk(trimmed(#[trigger] lines[i])),
    ensures
        disk_scan(lines).found == Seq::<AttachmentView>::empty(),
        !disk_scan(lines).inside,
    decreases lines.len(),
{
    if lines.len() > 0 {
        let before = lines.drop_last();
        assert forall|i: int| 0 <= i < before.len() implies !begins_disk(
            trimmed(#[trigger] before[i]),
        ) by {
            assert(before[i] == lines[i]);
        }
        lemma_no_disk(before);
        assert(lines.last() == lines[lines.len() - 1]);
    }
}

} // verus!
