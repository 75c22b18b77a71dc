//! The virtual devices that the tool keeps track of.

use vstd::prelude::*;

verus! {

/// A virtual flash drive, backed by a volume of the default storage pool.
#[derive(Debug)]
pub struct VirtualDrive {
    pub name: String,
    pub size: String,
    pub created_at_secs: u64,
}

/// A virtual flash drive.
pub struct DriveView {
    pub name: Seq<char>,
    pub size: Seq<char>,
    pub created_at_secs: u64,
}

impl DeepView for VirtualDrive {
    type V = DriveView;

    open spec fn deep_view(&self) -> DriveView {
        DriveView {
            name: self.name@,
            size: self.size@,
            created_at_secs: self.created_at_secs,
        }
    }
}

impl VirtualDrive {
    /// A drive with the same fields.
    pub fn copy(&self) -> (r: VirtualDrive)
        ensures
            r.deep_view() == self.deep_view(),
    {
        VirtualDrive {
            name: self.name.clone(),
            size: self.size.clone(),
            created_at_secs: self.created_at_secs,
        }
    }
}

/// A disk on the USB bus of a virtual machine: the image behind it and its
/// device name in the guest.
#[derive(Debug)]
pub struct VirtualAttachment {
    pub source_file: String,
    pub target_dev: String,
}

/// A disk on the USB bus of a virtual machine.
pub struct AttachmentView {
    pub source_file: Seq<char>,
    pub target_dev: Seq<char>,
}

impl DeepView for VirtualAttachment {
    type V = AttachmentView;

    open spec fn deep_view(&self) -> AttachmentView {
        AttachmentView { source_file: self.source_file@, target_dev: self.target_dev@ }
    }
}

/// A virtual HID device with the ids that it presents.
#[derive(Debug)]
pub struct HidDevice {
    pub name: String,
    pub vid: String,
    pub pid: String,
}

/// A virtual HID device.
pub struct HidView {
    pub name: Seq<char>,
    pub vid: Seq<char>,
    pub pid: Seq<char>,
}

impl DeepView for HidDevice {
    type V = HidView;

    open spec fn deep_view(&self) -> HidView {
        HidView { name: self.name@, vid: self.vid@, pid: self.pid@ }
    }
}

impl HidDevice {
    /// A device with the same fields.
    pub fn copy(&self) -> (r: HidDevice)
        ensures
            r.deep_view() == self.deep_view(),
    {
        HidDevice { name: self.name.clone(), vid: self.vid.clone(), pid: self.pid.clone() }
    }
}

/// The position of the first drive named `name`, from `i` on.
pub open spec fn drive_from(drives: Seq<DriveView>, name: Seq<char>, i: int) -> Option<int>
    decreases drives.len() - i,
{
    if i >= drives.len() {
        None
    } else if drives[i].name == name {
        Some(i)
    } else {
        drive_from(drives, name, i + 1)
    }
}

/// The position of the first drive named `name`.
pub open spec fn drive_named(drives: Seq<DriveView>, name: Seq<char>) -> Option<int> {
    drive_from(drives, name, 0)
}

/// The position of the first HID device named `name`, from `i` on.
pub open spec fn hid_from(hids: Seq<HidView>, name: Seq<char>, i: int) -> Option<int>
    decreases hids.len() - i,
{
    if i >= hids.len() {
        None
    } else if hids[i].name == name {
        Some(i)
    } else {
        hid_from(hids, name, i + 1)
    }
}

/// The position of the first HID device named `name`.
pub open spec fn hid_named(hids: Seq<HidView>, name: Seq<char>) -> Option<int> {
    hid_from(hids, name, 0)
}

/// A search for a drive finds the first one of that name, if there is one.
pub proof fn lemma_drive_from(drives: Seq<DriveView>, name: Seq<char>, i: int)
    requires
        0 <= i,
    ensures
        match drive_from(drives, name, i) {
            Some(k) => {
                &&& i <= k < drives.len()
                &&& drives[k].name == name
                &&& forall|j: int| i <= j < k ==> (#[trigger] drives[j]).name != name
            },
            None => forall|j: int| i <= j < drives.len() ==> (#[trigger] drives[j]).name != name,
        },
    decreases drives.len() - i,
{
    if i < drives.len() && drives[i].name != name {
        lemma_drive_from(drives, name, i + 1);
    }
}

/// A search for a HID device finds the first one of that name, if there is one.
pub proof fn lemma_hid_from(hids: Seq<HidView>, name: Seq<char>, i: int)
    requires
        0 <= i,
    ensures
        match hid_from(hids, name, i) {
            Some(k) => {
                &&& i <= k < hids.len()
                &&& hids[k].name == name
                &&& forall|j: int| i <= j < k ==> (#[trigger] hids[j]).name != name
            },
            None => forall|j: int| i <= j < hids.len() ==> (#[trigger] hids[j]).name != name,
        },
    decreases hids.len() - i,
{
    if i < hids.len() && hids[i].name != name {
        lemma_hid_from(hids, name, i + 1);
    }
}

/// The position of the first drive named `name`.
pub fn find_drive(drives: &Vec<VirtualDrive>, name: &str) -> (r: Option<usize>)
    ensures
        match r {
            Some(i) => i < drives.len() && drive_named(drives.deep_view(), name@) == Some(i as int),
            None => drive_named(drives.deep_view(), name@) is None,
        },
{
    let wanted = name.to_string();
    let mut i: usize = 0;
    while i < drives.len()
        invariant
            wanted@ == name@,
            i <= drives.len(),
            drive_from(drives.deep_view(), name@, i as int) == drive_named(
                drives.deep_view(),
                name@,
            ),
        decreases drives.len() - i,
    {
        if drives[i].name == wanted {
            return Some(i);
        }
        i = i + 1;
    }
    None
}

/// The position of the first HID device named `name`.
pub fn find_hid(hids: &Vec<HidDevice>, name: &str) -> (r: Option<usize>)
    ensures
        match r {
            Some(i) => i < hids.len() && hid_named(hids.deep_view(), name@) == Some(i as int),
            None => hid_named(hids.deep_view(), name@) is None,
        },
{
    let wanted = name.to_string();
    let mut i: usize = 0;
    while i < hids.len()
        invariant
            wanted@ == name@,
            i <= hids.len(),
            hid_from(hids.deep_view(), name@, i as int) == hid_named(hids.deep_view(), name@),
        decreases hids.len() - i,
    {
        if hids[i].name == wanted {
            return Some(i);
        }
        i = i + 1;
    }
    None
}

/// The drives but the one at `k`.
pub open spec fn drives_without(drives: Seq<DriveView>, k: int) -> Seq<DriveView> {
    drives.take(k) + drives.skip(k + 1)
}

/// The HID devices but the one at `k`.
pub open spec fn hids_without(hids: Seq<HidView>, k: int) -> Seq<HidView> {
    hids.take(k) + hids.skip(k + 1)
}

/// The names of all virtual devices differ: within each kind and between the
/// kinds.
pub open spec fn names_distinct(drives: Seq<DriveView>, hids: Seq<HidView>) -> bool {
    &&& forall|i: int, j: int|
        0 <= i < j < drives.len() ==> (#[trigger] drives[i]).name != (#[trigger] drives[j]).name
    &&& forall|i: int, j: int|
        0 <= i < j < hids.len() ==> (#[trigger] hids[i]).name != (#[trigger] hids[j]).name
    &&& forall|i: int, j: int|
        0 <= i < drives.len() && 0 <= j < hids.len() ==> (#[trigger] drives[i]).name != (
        #[trigger] hids[j]).name
}

// ---------------------------------------------------------------------------
// Laws
// ---------------------------------------------------------------------------

/// A drive with a name that no virtual device has keeps the names distinct.
pub proof fn law_new_drive_keeps_names_distinct(
    drives: Seq<DriveView>,
    hids: Seq<HidView>,
    drive: DriveView,
)
    requires
        names_distinct(drives, hids),
        drive_named(drives, drive.name) is None,
        hid_named(hids, drive.name) is None,
    ensures
        names_distinct(drives.push(drive), hids),
{
    lemma_drive_from(drives, drive.name, 0);
    lemma_hid_from(hids, drive.name, 0);
}

/// A HID device with a name that no virtual device has keeps the names
/// distinct.
pub proof fn law_new_hid_keeps_names_distinct(
    drives: Seq<DriveView>,
    hids: Seq<HidView>,
    hid: HidView,
)
    requires
        names_distinct(drives, hids),
        drive_named(drives, hid.name) is None,
        hid_named(hids, hid.name) is None,
    ensures
        names_distinct(drives, hids.push(hid)),
{
    lemma_drive_from(drives, hid.name, 0);
    lemma_hid_from(hids, hid.name, 0);
}

/// Deleting the drive that a name stands for keeps the names distinct, leaves
/// no drive with that name, and changes nothing for the other names.
pub proof fn law_deleted_drive_is_gone(
    drives: Seq<DriveView>,
    hids: Seq<HidView>,
    name: Seq<char>,
    k: int,
    other: Seq<char>,
)
    requires
        names_distinct(drives, hids),
        drive_named(drives, name) == Some(k),
    ensures
        names_distinct(drives_without(drives, k), hids),
        drive_named(drives_without(drives, k), name) is None,
        other != name ==> (drive_named(drives_without(drives, k), other) is Some <==> drive_named(
            drives,
            other,
        ) is Some),
        drives_without(drives, k).len() == drives.len() - 1,
{
    lemma_drive_from(drives, name, 0);
    let rest = drives_without(drives, k);
    assert forall|i: int| 0 <= i < rest.len() implies #[trigger] rest[i] == if i < k {
        drives[i]
    } else {
        drives[i + 1]
    } by {}
    lemma_drive_from(rest, name, 0);
    lemma_drive_from(rest, other, 0);
    lemma_drive_from(drives, other, 0);
    if other != name {
        if let Some(j) = drive_named(drives, other) {
            let i = if j < k {
                j
            } else {
                j - 1
            };
            assert(rest[i].name == other);
        }
        if let Some(i) = drive_named(rest, other) {
            let j = if i < k {
                i
            } else {
                i + 1
            };
            assert(drives[j].name == other);
        }
    }
}

/// Deleting the HID device that a name stands for keeps the names distinct,
/// leaves no HID device with that name, and changes nothing for the other
/// names.
pub proof fn law_deleted_hid_is_gone(
    drives: Seq<DriveView>,
    hids: Seq<HidView>,
    name: Seq<char>,
    k: int,
    other: Seq<char>,
)
    requires
        names_distinct(drives, hids),
        hid_named(hids, name) == Some(k),
    ensures
        names_distinct(drives, hids_without(hids, k)),
        hid_named(hids_without(hids, k), name) is None,
        other != name ==> (hid_named(hids_without(hids, k), other) is Some <==> hid_named(
            hids,
            other,
        ) is Some),
        hids_without(hids, k).len() == hids.len() - 1,
{
    lemma_hid_from(hids, name, 0);
    let rest = hids_without(hids, k);
    assert forall|i: int| 0 <= i < rest.len() implies #[trigger] rest[i] == if i < k {
        hids[i]
    } else {
        hids[i + 1]
    } by {}
    lemma_hid_from(rest, name, 0);
    lemma_hid_from(rest, other, 0);
    lemma_hid_from(hids, other, 0);
    if other != name {
        if let Some(j) = hid_named(hids, other) {
            let i = if j < k {
                j
            } else {
                j - 1
            };
            assert(rest[i].name == other);
        }
        if let Some(i) = hid_named(rest, other) {
            let j = if i < k {
                i
            } else {
                i + 1
            };
            assert(hids[j].name == other);
        }
    }
}

/// Deleting a device that was just made gives back the list from before.
pub proof fn law_deleting_undoes_making(
    drives: Seq<DriveView>,
    drive: DriveView,
    hids: Seq<HidView>,
    hid: HidView,
)
    requires
        drive_named(drives, drive.name) is None,
        hid_named(hids, hid.name) is None,
    ensures
        drive_named(drives.push(drive), drive.name) == Some(drives.len() as int),
        drives_without(drives.push(drive), drives.len() as int) == drives,
        hid_named(hids.push(hid), hid.name) == Some(hids.len() as int),
        hids_without(hids.push(hid), hids.len() as int) == hids,
{
    let more = drives.push(drive);
    lemma_drive_from(drives, drive.name, 0);
    lemma_drive_from(more, drive.name, 0);
    assert(more[drives.len() as int].name == drive.name);
    assert forall|j: int| 0 <= j < drives.len() implies (#[trigger] more[j]).name
        != drive.name by {
        assert(more[j] == drives[j]);
    }
    assert(drives_without(more, drives.len() as int) =~= drives);
    let others = hids.push(hid);
    lemma_hid_from(hids, hid.name, 0);
    lemma_hid_from(others, hid.name, 0);
    assert(others[hids.len() as int].name == hid.name);
    assert forall|j: int| 0 <= j < hids.len() implies (#[trigger] others[j]).name != hid.name by {
        assert(others[j] == hids[j]);
    }
    assert(hids_without(others, hids.len() as int) =~= hids);
}

/// While the names are distinct, a name stands for at most one virtual device.
pub proof fn law_name_stands_for_one_device(
    drives: Seq<DriveView>,
    hids: Seq<HidView>,
    name: Seq<char>,
)
    requires
        names_distinct(drives, hids),
    ensures
        !(drive_named(drives, name) is Some && hid_named(hids, name) is Some),
        forall|i: int|
            0 <= i < drives.len() && (#[trigger] drives[i]).name == name ==> drive_named(
                drives,
                name,
            ) == Some(i),
        forall|i: int|
            0 <= i < hids.len() && (#[trigger] hids[i]).name == name ==> hid_named(hids, name)
                == Some(i),
{
    lemma_drive_from(drives, name, 0);
    lemma_hid_from(hids, name, 0);
}

} // verus!
