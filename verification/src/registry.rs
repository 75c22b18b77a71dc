//! Where the tool keeps what it knows of its virtual devices.

use vstd::prelude::*;
use vstd::string::*;

use crate::devices::{DriveView, HidDevice, HidView, VirtualDrive};
use crate::host::{
    ask_done, ask_drives, ask_flag, ask_hids, ask_text, bind, context, copy_drives, copy_hids,
    empty, in_context, outcome, spec_ask_done, spec_ask_drives, spec_ask_flag, spec_ask_hids,
    spec_ask_text, Log, Outcome, Reply, ReplyView, Request, RequestView, Step,
};
use crate::text::plus;
use crate::vm::{join_path, path_in};

verus! {

/// The directory of the tool's data.
pub open spec fn spec_get_data_dir(log: Log, at: int) -> Outcome<Seq<char>> {
    spec_ask_text(log, at, RequestView::DataDir)
}

/// The directory of the tool's data.
pub fn get_data_dir(log: &Vec<Reply>, at: usize) -> (r: Step<String>)
    ensures
        outcome(r) == spec_get_data_dir(log.deep_view(), at as int),
{
    ask_text(log, at, Request::DataDir)
}

/// A file in the directory of the tool's data.
pub open spec fn spec_data_file(log: Log, at: int, name: Seq<char>) -> Outcome<Seq<char>> {
    bind(
        spec_get_data_dir(log, at),
        |dir: Seq<char>, at: int| Outcome::Ready(path_in(dir, name), at),
    )
}

/// A file in the directory of the tool's data.
pub fn data_file(log: &Vec<Reply>, at: usize, name: &str) -> (r: Step<String>)
    ensures
        outcome(r) == spec_data_file(log.deep_view(), at as int, name@),
{
    let (dir, at) = get_data_dir(log, at)?;
    Ok((join_path(dir.as_str(), name), at))
}

/// What is said when a file cannot be read.
pub open spec fn unreadable(path: Seq<char>) -> Seq<char> {
    "Failed to read "@ + path
}

/// What is said when a file does not hold what it should.
pub open spec fn corrupted(name: Seq<char>, path: Seq<char>) -> Seq<char> {
    "Failed to parse "@ + name
        + ". The file may be corrupted. You can delete it at: "@ + path
}

fn corrupted_message(name: &str, path: &str) -> (r: String)
    ensures
        r@ == corrupted(name@, path@),
{
    plus(
        plus(
            plus("Failed to parse ".to_string(), name),
            ". The file may be corrupted. You can delete it at: ",
        ),
        path,
    )
}

// ---------------------------------------------------------------------------
// Drives
// ---------------------------------------------------------------------------

/// The file that lists the virtual drives.
pub open spec fn spec_get_drives_file(log: Log, at: int) -> Outcome<Seq<char>> {
    spec_data_file(log, at, "drives.json"@)
}

/// The file that lists the virtual drives.
pub fn get_drives_file(log: &Vec<Reply>, at: usize) -> (r: Step<String>)
    ensures
        outcome(r) == spec_get_drives_file(log.deep_view(), at as int),
{
    data_file(log, at, "drives.json")
}

/// The virtual drives: those in the file, none without it.
pub open spec fn spec_load_virtual_drives(log: Log, at: int) -> Outcome<Seq<DriveView>> {
    bind(
        spec_get_drives_file(log, at),
        |path: Seq<char>, at: int|
            bind(
                spec_ask_flag(log, at, RequestView::Exists(path)),
                |present: bool, at: int|
                    if !present {
                        Outcome::Ready(seq![], at)
                    } else {
                        bind(
                            in_context(
                                spec_ask_text(log, at, RequestView::Read(path)),
                                unreadable(path),
                            ),
                            |content: Seq<char>, at: int|
                                in_context(
                                    spec_ask_drives(log, at, RequestView::DecodeDrives(content)),
                                    corrupted("drives.json"@, path),
                                ),
                        )
                    },
            ),
    )
}

/// The virtual drives: those in the file, none without it.
pub fn load_virtual_drives(log: &Vec<Reply>, at: usize) -> (r: Step<Vec<VirtualDrive>>)
    ensures
        outcome(r) == spec_load_virtual_drives(log.deep_view(), at as int),
{
    let (path, at) = get_drives_file(log, at)?;
    let (present, at) = ask_flag(log, at, Request::Exists(path.clone()))?;
    if !present {
        return Ok((empty(), at));
    }
    let (content, at) = context(
        ask_text(log, at, Request::Read(path.clone())),
        plus("Failed to read ".to_string(), path.as_str()).as_str(),
    )?;
    context(
        ask_drives(log, at, Request::DecodeDrives(content)),
        corrupted_message("drives.json", path.as_str()).as_str(),
    )
}

/// Keeps the virtual drives.
pub open spec fn spec_save_virtual_drives(log: Log, at: int, drives: Seq<DriveView>) -> Outcome<
    (),
> {
    bind(
        spec_get_drives_file(log, at),
        |path: Seq<char>, at: int|
            bind(
                spec_ask_text(log, at, RequestView::EncodeDrives(drives)),
                |content: Seq<char>, at: int|
                    spec_ask_done(log, at, RequestView::Write(path, content)),
            ),
    )
}

/// Keeps the virtual drives.
pub fn save_virtual_drives(log: &Vec<Reply>, at: usize, drives: &Vec<VirtualDrive>) -> (r: Step<()>)
    ensures
        outcome(r) == spec_save_virtual_drives(log.deep_view(), at as int, drives.deep_view()),
{
    let (path, at) = get_drives_file(log, at)?;
    let (content, at) = ask_text(log, at, Request::EncodeDrives(copy_drives(drives)))?;
    ask_done(log, at, Request::Write(path, content))
}

// ---------------------------------------------------------------------------
// HID devices
// ---------------------------------------------------------------------------

/// The file that lists the virtual HID devices.
pub open spec fn spec_get_hid_devices_file(log: Log, at: int) -> Outcome<Seq<char>> {
    spec_data_file(log, at, "hids.json"@)
}

/// The file that lists the virtual HID devices.
pub fn get_hid_devices_file(log: &Vec<Reply>, at: usize) -> (r: Step<String>)
    ensures
        outcome(r) == spec_get_hid_devices_file(log.deep_view(), at as int),
{
    data_file(log, at, "hids.json")
}

/// The virtual HID devices: those in the file, none without it.
pub open spec fn spec_load_hid_devices(log: Log, at: int) -> Outcome<Seq<HidView>> {
    bind(
        spec_get_hid_devices_file(log, at),
        |path: Seq<char>, at: int|
            bind(
                spec_ask_flag(log, at, RequestView::Exists(path)),
                |present: bool, at: int|
                    if !present {
                        Outcome::Ready(seq![], at)
                    } else {
                        bind(
                            in_context(
                                spec_ask_text(log, at, RequestView::Read(path)),
                                unreadable(path),
                            ),
                            |content: Seq<char>, at: int|
                                in_context(
                                    spec_ask_hids(log, at, RequestView::DecodeHids(content)),
                                    corrupted("hids.json"@, path),
                                ),
                        )
                    },
            ),
    )
}

/// The virtual HID devices: those in the file, none without it.
pub fn load_hid_devices(log: &Vec<Reply>, at: usize) -> (r: Step<Vec<HidDevice>>)
    ensures
        outcome(r) == spec_load_hid_devices(log.deep_view(), at as int),
{
    let (path, at) = get_hid_devices_file(log, at)?;
    let (present, at) = ask_flag(log, at, Request::Exists(path.clone()))?;
    if !present {
        return Ok((empty(), at));
    }
    let (content, at) = context(
        ask_text(log, at, Request::Read(path.clone())),
        plus("Failed to read ".to_string(), path.as_str()).as_str(),
    )?;
    context(
        ask_hids(log, at, Request::DecodeHids(content)),
        corrupted_message("hids.json", path.as_str()).as_str(),
    )
}

/// Keeps the virtual HID devices.
pub open spec fn spec_save_hid_devices(log: Log, at: int, devices: Seq<HidView>) -> Outcome<()> {
    bind(
        spec_get_hid_devices_file(log, at),
        |path: Seq<char>, at: int|
            bind(
                spec_ask_text(log, at, RequestView::EncodeHids(devices)),
                |content: Seq<char>, at: int|
                    spec_ask_done(log, at, RequestView::Write(path, content)),
            ),
    )
}

/// Keeps the virtual HID devices.
pub fn save_hid_devices(log: &Vec<Reply>, at: usize, devices: &Vec<HidDevice>) -> (r: Step<()>)
    ensures
        outcome(r) == spec_save_hid_devices(log.deep_view(), at as int, devices.deep_view()),
{
    let (path, at) = get_hid_devices_file(log, at)?;
    let (content, at) = ask_text(log, at, Request::EncodeHids(copy_hids(devices)))?;
    ask_done(log, at, Request::Write(path, content))
}

// ---------------------------------------------------------------------------
// Laws
// ---------------------------------------------------------------------------

/// The drives that are kept are those that are loaded later: the text that
/// stores them is written to the file that is read, and the text that is read
/// there is what the drives are taken from.
pub proof fn law_kept_drives_are_loaded(dir: Seq<char>, drives: Seq<DriveView>, content: Seq<char>)
    ensures
        spec_save_virtual_drives(seq![ReplyView::Text(dir)], 0, drives) == Outcome::<()>::Ask(
            RequestView::EncodeDrives(drives),
        ),
        spec_save_virtual_drives(
            seq![ReplyView::Text(dir), ReplyView::Text(content)],
            0,
            drives,
        ) == Outcome::<()>::Ask(RequestView::Write(path_in(dir, "drives.json"@), content)),
        spec_load_virtual_drives(seq![ReplyView::Text(dir), ReplyView::Flag(true)], 0)
            == Outcome::<Seq<DriveView>>::Ask(RequestView::Read(path_in(dir, "drives.json"@))),
        spec_load_virtual_drives(
            seq![ReplyView::Text(dir), ReplyView::Flag(true), ReplyView::Text(content)],
            0,
        ) == Outcome::<Seq<DriveView>>::Ask(RequestView::DecodeDrives(content)),
        spec_load_virtual_drives(
            seq![
                ReplyView::Text(dir),
                ReplyView::Flag(true),
                ReplyView::Text(content),
                ReplyView::Drives(drives),
            ],
            0,
        ) == Outcome::Ready(drives, 4),
{
}

/// The HID devices that are kept are those that are loaded later: the text that
/// stores them is written to the file that is read, and the text that is read
/// there is what the devices are taken from.
pub proof fn law_kept_hids_are_loaded(dir: Seq<char>, hids: Seq<HidView>, content: Seq<char>)
    ensures
        spec_save_hid_devices(seq![ReplyView::Text(dir)], 0, hids) == Outcome::<()>::Ask(
            RequestView::EncodeHids(hids),
        ),
        spec_save_hid_devices(seq![ReplyView::Text(dir), ReplyView::Text(content)], 0, hids)
            == Outcome::<()>::Ask(RequestView::Write(path_in(dir, "hids.json"@), content)),
        spec_load_hid_devices(seq![ReplyView::Text(dir), ReplyView::Flag(true)], 0) == Outcome::<
            Seq<HidView>,
        >::Ask(RequestView::Read(path_in(dir, "hids.json"@))),
        spec_load_hid_devices(
            seq![ReplyView::Text(dir), ReplyView::Flag(true), ReplyView::Text(content)],
            0,
        ) == Outcome::<Seq<HidView>>::Ask(RequestView::DecodeHids(content)),
        spec_load_hid_devices(
            seq![
                ReplyView::Text(dir),
                ReplyView::Flag(true),
                ReplyView::Text(content),
                ReplyView::Hids(hids),
            ],
            0,
        ) == Outcome::Ready(hids, 4),
{
}

/// Without its file a list is empty.
pub proof fn law_missing_list_is_empty(dir: Seq<char>)
    ensures
        spec_load_virtual_drives(seq![ReplyView::Text(dir), ReplyView::Flag(false)], 0)
            == Outcome::Ready(Seq::<DriveView>::empty(), 2),
        spec_load_hid_devices(seq![ReplyView::Text(dir), ReplyView::Flag(false)], 0)
            == Outcome::Ready(Seq::<HidView>::empty(), 2),
{
}

/// Drives and HID devices are kept in different files.
pub proof fn law_lists_are_kept_apart(dir: Seq<char>)
    ensures
        path_in(dir, "drives.json"@) != path_in(dir, "hids.json"@),
{
    reveal_strlit("drives.json");
    reveal_strlit("hids.json");
    assert(path_in(dir, "drives.json"@).len() == path_in(dir, "hids.json"@).len() + 2);
}

} // verus!
