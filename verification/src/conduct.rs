//! What the operations may ask to be done to the host, whatever they are told.

use vstd::prelude::*;
use vstd::string::*;
use vstd::utf8::*;

use crate::console::spec_choose_vm;
use crate::daemon::{
    spec_announce, spec_await_port, spec_cleanup_hid_state_files, spec_daemon_pid, spec_forget,
    spec_hid_pid_file, spec_hid_port_file, spec_hid_sock_file, spec_is_hid_daemon_running,
    spec_look_for_port, spec_open_hid_daemon, spec_open_socket, spec_read_hid_port,
    spec_spawn_hid_daemon, spec_start_hid_daemon, spec_stop_hid_daemon,
};
use crate::devices::{hid_named, AttachmentView, DriveView, HidView};
use crate::dialogue::{asked_only, first_hid, lemma_hid_from};
use crate::hid::{
    spec_attach_hid_device, spec_await_device, spec_bring_over, spec_connect_device,
    spec_create_hid_device, spec_delete_hid_device, spec_detach_hid_device, spec_drop_hid,
    spec_hand_hid, spec_hid_type, spec_import_device, spec_is_hid_device_attached,
    spec_list_hid_devices, spec_look_for_device, spec_pass_on, spec_plug_in, spec_reach_daemon,
    spec_read_import_reply, spec_release_hid, spec_send_text, spec_show_hid, spec_show_hid_state,
    spec_show_hid_status, spec_show_hids, spec_take_hid, spec_use_connection, spec_vm_with_hid,
};
use crate::host::{spec_attempt, Log, Outcome, RequestView, SpanView};
use crate::registry::{
    spec_get_drives_file, spec_get_hid_devices_file, spec_load_hid_devices,
    spec_load_virtual_drives, spec_save_hid_devices, spec_save_virtual_drives,
};
use crate::select::{
    add_drive, spec_add_drives, spec_add_hids, spec_any_usb_devices, spec_device_choices,
    spec_disks_of, spec_drive_attached, spec_gather, spec_hid_attached, spec_select_device,
    ChoiceView,
};
use crate::storage::{
    images_of, spec_attach_virtual_drive, spec_attached_images, spec_create_virtual_drive,
    spec_delete_virtual_drive, spec_delete_volume, spec_detach_virtual_drive, spec_drop_drive,
    spec_get_attached_virtual_devices, spec_get_next_target_dev, spec_get_vol_path, spec_hand_drive,
    spec_image_of, spec_is_virtual_drive_attached, spec_list_virtual_drives, spec_make_drive,
    spec_refuse_attached_drive, spec_show_drive, spec_show_drive_state, spec_show_drives,
    spec_show_virtual_status, spec_take_drive,
};
use crate::tool::{
    ends, spec_device_by_choice, spec_device_by_name, spec_enter_name, spec_new_drive, spec_new_hid,
    spec_resolve_device, spec_run_hid, spec_run_storage, spec_run_tool, spec_typing_device,
    spec_typing_vm, CliView, CommandsView, HidCommandsView, SelectedView, StorageCommandsView,
};
use crate::usb::{
    spec_attached_to, spec_find_device_by_name, spec_find_usb_device, spec_get_attached_devices,
    spec_is_device_attached, spec_pick_device, spec_usb_devices, Front, UsbView,
};
use crate::vhci::{
    spec_attach_vhci, spec_detach_vhci, spec_find_free_vhci_port, spec_find_vhci_sysfs_dir,
    spec_hid_vhci_port_file, spec_unplug,
};
use crate::vm::{
    device_name, spec_active_vms, spec_attach_device, spec_attach_listed, spec_check_vm_running,
    spec_check_vm_unpaused, spec_detach_device, spec_detach_listed, spec_get_all_vms,
    spec_get_config_file, spec_load_last_vm, spec_read_last_vm, spec_save_last_vm, spec_select_vm,
    spec_show_device, spec_show_status,
};

verus! {

/// What is done to the host besides looking and telling. The field of an act is
/// true if it may be asked for.
pub struct Acts {
    /// `virsh attach-device`.
    pub attach: bool,
    /// `virsh detach-device`.
    pub detach: bool,
    /// `virsh vol-create-as`.
    pub make: bool,
    /// `virsh vol-delete`.
    pub delete: bool,
    /// A process is started.
    pub spawn: bool,
    /// A process is ended.
    pub end: bool,
    /// Bytes are sent.
    pub send: bool,
    /// A list of virtual devices is encoded, to be kept.
    pub list: bool,
    /// A file is written.
    pub write: bool,
    /// A file is removed.
    pub remove: bool,
}

/// No act at all.
pub open spec fn idle() -> Acts {
    Acts {
        attach: false,
        detach: false,
        make: false,
        delete: false,
        spawn: false,
        end: false,
        send: false,
        list: false,
        write: false,
        remove: false,
    }
}

/// A program is run with `word` as the first word behind its name.
pub open spec fn runs(rq: RequestView, word: Seq<char>) -> bool {
    match rq {
        RequestView::Run(args) => args.len() >= 2 && args[1] == word,
        RequestView::RunQuietly(args) => args.len() >= 2 && args[1] == word,
        RequestView::RunShown(args) => args.len() >= 2 && args[1] == word,
        _ => false,
    }
}

/// The request is none of the acts that `may` leaves out.
pub open spec fn allowed(rq: RequestView, may: Acts) -> bool {
    &&& runs(rq, "attach-device"@) ==> may.attach
    &&& runs(rq, "detach-device"@) ==> may.detach
    &&& runs(rq, "vol-create-as"@) ==> may.make
    &&& runs(rq, "vol-delete"@) ==> may.delete
    &&& rq is Spawn ==> may.spawn
    &&& rq is RunShown ==> may.end
    &&& rq is Send ==> may.send
    &&& rq is EncodeDrives || rq is EncodeHids ==> may.list
    &&& rq is Write ==> may.write
    &&& rq is Remove ==> may.remove
}

/// What is asked for next is none of the acts that `may` leaves out.
pub open spec fn within<T>(o: Outcome<T>, may: Acts) -> bool {
    match o {
        Outcome::Ask(rq) => allowed(rq, may),
        _ => true,
    }
}

proof fn lemma_words()
    ensures
        "attach-device"@ != "detach-device"@,
        "attach-device"@ != "vol-create-as"@,
        "attach-device"@ != "vol-delete"@,
        "detach-device"@ != "vol-create-as"@,
        "detach-device"@ != "vol-delete"@,
        "vol-create-as"@ != "vol-delete"@,
        "attach-device"@.len() == 13,
        "detach-device"@.len() == 13,
        "vol-create-as"@.len() == 13,
        "vol-delete"@.len() == 10,
        "vol-path"@.len() == 8,
        "dumpxml"@.len() == 7,
        "list"@.len() == 4,
        "vhci-hcd"@.len() == 8,
        "settle"@.len() == 6,
        "-TERM"@.len() == 5,
{
    reveal_strlit("attach-device");
    reveal_strlit("detach-device");
    reveal_strlit("vol-create-as");
    reveal_strlit("vol-delete");
    reveal_strlit("vol-path");
    reveal_strlit("dumpxml");
    reveal_strlit("list");
    reveal_strlit("vhci-hcd");
    reveal_strlit("settle");
    reveal_strlit("-TERM");
    assert("attach-device"@[0] == 'a');
    assert("detach-device"@[0] == 'd');
    assert("vol-create-as"@[0] == 'v');
    assert("vol-create-as"@.len() == 13);
    assert("vol-delete"@.len() == 10);
}

broadcast proof fn lemma_conduct_of_announce(
    log: Log,
    at: int,
    pid_file: Seq<char>,
    port_file: Seq<char>,
)
    ensures
        within(
            #[trigger] spec_announce(log, at, pid_file, port_file),
            Acts { write: true, ..idle() },
        ),
{
    lemma_words();
}

broadcast proof fn lemma_conduct_of_open_socket(log: Log, at: int, sock_path: Seq<char>)
    ensures
        within(#[trigger] spec_open_socket(log, at, sock_path), Acts { remove: true, ..idle() }),
{
    lemma_words();
}

broadcast proof fn lemma_conduct_of_open_hid_daemon(
    log: Log,
    at: int,
    vid: Seq<char>,
    pid: Seq<char>,
    sock_path: Seq<char>,
    pid_file: Seq<char>,
    port_file: Seq<char>,
)
    ensures
        within(
            #[trigger] spec_open_hid_daemon(log, at, vid, pid, sock_path, pid_file, port_file),
            Acts { write: true, remove: true, ..idle() },
        ),
{
    broadcast use {lemma_conduct_of_announce, lemma_conduct_of_open_socket};

    lemma_words();
}

broadcast proof fn lemma_conduct_of_get_drives_file(log: Log, at: int)
    ensures
        within(#[trigger] spec_get_drives_file(log, at), idle()),
{
    lemma_words();
}

broadcast proof fn lemma_conduct_of_load_virtual_drives(log: Log, at: int)
    ensures
        within(#[trigger] spec_load_virtual_drives(log, at), idle()),
{
    broadcast use lemma_conduct_of_get_drives_file;

    lemma_words();
}

broadcast proof fn lemma_conduct_of_get_hid_devices_file(log: Log, at: int)
    ensures
        within(#[trigger] spec_get_hid_devices_file(log, at), idle()),
{
    lemma_words();
}

broadcast proof fn lemma_conduct_of_load_hid_devices(log: Log, at: int)
    ensures
        within(#[trigger] spec_load_hid_devices(log, at), idle()),
{
    broadcast use lemma_conduct_of_get_hid_devices_file;

    lemma_words();
}

broadcast proof fn lemma_conduct_of_save_virtual_drives(log: Log, at: int, drives: Seq<DriveView>)
    ensures
        within(
            #[trigger] spec_save_virtual_drives(log, at, drives),
            Acts { list: true, write: true, ..idle() },
        ),
{
    broadcast use lemma_conduct_of_get_drives_file;

    lemma_words();
}

broadcast proof fn lemma_conduct_of_make_drive(
    log: Log,
    at: int,
    drives: Seq<DriveView>,
    name: Seq<char>,
    size: Seq<char>,
)
    ensures
        within(
            #[trigger] spec_make_drive(log, at, drives, name, size),
            Acts { make: true, list: true, write: true, ..idle() },
        ),
{
    broadcast use lemma_conduct_of_save_virtual_drives;

    lemma_words();
}

broadcast proof fn lemma_conduct_of_create_virtual_drive(
    log: Log,
    at: int,
    name: Seq<char>,
    size: Seq<char>,
)
    ensures
        within(
            #[trigger] spec_create_virtual_drive(log, at, name, size),
            Acts { make: true, list: true, write: true, ..idle() },
        ),
{
    broadcast use {
        lemma_conduct_of_load_virtual_drives,
        lemma_conduct_of_load_hid_devices,
        lemma_conduct_of_make_drive,
    };

    lemma_words();
}

broadcast proof fn lemma_conduct_of_active_vms(log: Log, at: int)
    ensures
        within(#[trigger] spec_active_vms(log, at), idle()),
{
    lemma_words();
}

broadcast proof fn lemma_conduct_of_get_attached_virtual_devices(
    log: Log,
    at: int,
    vm_name: Seq<char>,
)
    ensures
        within(#[trigger] spec_get_attached_virtual_devices(log, at, vm_name), idle()),
{
    lemma_words();
}

broadcast proof fn lemma_conduct_of_attached_images(
    log: Log,
    at: int,
    vms: Seq<Seq<char>>,
    i: int,
    found: Seq<(Seq<char>, Seq<char>)>,
)
    ensures
        within(#[trigger] spec_attached_images(log, at, vms, i, found), idle()),
    decreases vms.len() - i,
{
    broadcast use lemma_conduct_of_get_attached_virtual_devices;

    lemma_words();
    if !(i >= vms.len()) {
        match spec_get_attached_virtual_devices(log, at, vms[i]) {
            Outcome::Ready(disks, n) => {
                lemma_conduct_of_attached_images(
                    log,
                    n,
                    vms,
                    i + 1,
                    found + images_of(disks, vms[i]),
                );
            },
            _ => {},
        }
    }
}

broadcast proof fn lemma_conduct_of_get_vol_path(log: Log, at: int, name: Seq<char>)
    ensures
        within(#[trigger] spec_get_vol_path(log, at, name), idle()),
{
    lemma_words();
}

broadcast proof fn lemma_conduct_of_show_drive(
    log: Log,
    at: int,
    drive: DriveView,
    attached: Seq<(Seq<char>, Seq<char>)>,
)
    ensures
        within(#[trigger] spec_show_drive(log, at, drive, attached), idle()),
{
    broadcast use lemma_conduct_of_get_vol_path;

    lemma_words();
}

broadcast proof fn lemma_conduct_of_show_drives(
    log: Log,
    at: int,
    drives: Seq<DriveView>,
    attached: Seq<(Seq<char>, Seq<char>)>,
    i: int,
)
    ensures
        within(#[trigger] spec_show_drives(log, at, drives, attached, i), idle()),
    decreases drives.len() - i,
{
    broadcast use lemma_conduct_of_show_drive;

    lemma_words();
    if !(i >= drives.len()) {
        match spec_show_drive(log, at, drives[i], attached) {
            Outcome::Ready(_, n) => {
                lemma_conduct_of_show_drives(log, n, drives, attached, i + 1);
            },
            _ => {},
        }
    }
}

#[verifier::spinoff_prover]
broadcast proof fn lemma_conduct_of_list_virtual_drives(log: Log, at: int)
    ensures
        within(#[trigger] spec_list_virtual_drives(log, at), idle()),
{
    broadcast use {
        lemma_conduct_of_load_virtual_drives,
        lemma_conduct_of_active_vms,
        lemma_conduct_of_attached_images,
        lemma_conduct_of_show_drives,
    };

    lemma_words();
}

broadcast proof fn lemma_conduct_of_is_virtual_drive_attached(
    log: Log,
    at: int,
    vm_name: Seq<char>,
    drive_name: Seq<char>,
)
    ensures
        within(#[trigger] spec_is_virtual_drive_attached(log, at, vm_name, drive_name), idle()),
{
    broadcast use {lemma_conduct_of_get_vol_path, lemma_conduct_of_get_attached_virtual_devices};

    lemma_words();
}

broadcast proof fn lemma_conduct_of_refuse_attached_drive(
    log: Log,
    at: int,
    name: Seq<char>,
    vms: Seq<Seq<char>>,
    i: int,
)
    ensures
        within(#[trigger] spec_refuse_attached_drive(log, at, name, vms, i), idle()),
    decreases vms.len() - i,
{
    broadcast use lemma_conduct_of_is_virtual_drive_attached;

    lemma_words();
    if !(i >= vms.len()) {
        match spec_is_virtual_drive_attached(log, at, vms[i], name) {
            Outcome::Ready(false, n) => {
                lemma_conduct_of_refuse_attached_drive(log, n, name, vms, i + 1);
            },
            _ => {},
        }
    }
}

broadcast proof fn lemma_conduct_of_delete_volume(log: Log, at: int, name: Seq<char>)
    ensures
        within(#[trigger] spec_delete_volume(log, at, name), Acts { delete: true, ..idle() }),
{
    lemma_words();
}

broadcast proof fn lemma_conduct_of_drop_drive(
    log: Log,
    at: int,
    drives: Seq<DriveView>,
    k: int,
    name: Seq<char>,
)
    ensures
        within(
            #[trigger] spec_drop_drive(log, at, drives, k, name),
            Acts { delete: true, list: true, write: true, ..idle() },
        ),
{
    broadcast use {lemma_conduct_of_delete_volume, lemma_conduct_of_save_virtual_drives};

    lemma_words();
}

#[verifier::spinoff_prover]
broadcast proof fn lemma_conduct_of_delete_virtual_drive(log: Log, at: int, name: Seq<char>)
    ensures
        within(
            #[trigger] spec_delete_virtual_drive(log, at, name),
            Acts { delete: true, list: true, write: true, ..idle() },
        ),
{
    broadcast use {
        lemma_conduct_of_load_virtual_drives,
        lemma_conduct_of_active_vms,
        lemma_conduct_of_refuse_attached_drive,
        lemma_conduct_of_drop_drive,
    };

    lemma_words();
}

broadcast proof fn lemma_conduct_of_run_storage(log: Log, at: int, action: StorageCommandsView)
    ensures
        within(
            #[trigger] spec_run_storage(log, at, action),
            Acts { make: true, delete: true, list: true, write: true, ..idle() },
        ),
{
    broadcast use {
        lemma_conduct_of_create_virtual_drive,
        lemma_conduct_of_list_virtual_drives,
        lemma_conduct_of_delete_virtual_drive,
    };

    lemma_words();
}

broadcast proof fn lemma_conduct_of_save_hid_devices(log: Log, at: int, devices: Seq<HidView>)
    ensures
        within(
            #[trigger] spec_save_hid_devices(log, at, devices),
            Acts { list: true, write: true, ..idle() },
        ),
{
    broadcast use lemma_conduct_of_get_hid_devices_file;

    lemma_words();
}

broadcast proof fn lemma_conduct_of_create_hid_device(
    log: Log,
    at: int,
    name: Seq<char>,
    vid: Seq<char>,
    pid: Seq<char>,
)
    ensures
        within(
            #[trigger] spec_create_hid_device(log, at, name, vid, pid),
            Acts { list: true, write: true, ..idle() },
        ),
{
    broadcast use {
        lemma_conduct_of_load_hid_devices,
        lemma_conduct_of_load_virtual_drives,
        lemma_conduct_of_save_hid_devices,
    };

    lemma_words();
}

broadcast proof fn lemma_conduct_of_hid_pid_file(log: Log, at: int, name: Seq<char>)
    ensures
        within(#[trigger] spec_hid_pid_file(log, at, name), idle()),
{
    lemma_words();
}

broadcast proof fn lemma_conduct_of_daemon_pid(log: Log, at: int, name: Seq<char>)
    ensures
        within(#[trigger] spec_daemon_pid(log, at, name), idle()),
{
    broadcast use lemma_conduct_of_hid_pid_file;

    lemma_words();
}

broadcast proof fn lemma_conduct_of_is_hid_daemon_running(log: Log, at: int, name: Seq<char>)
    ensures
        within(#[trigger] spec_is_hid_daemon_running(log, at, name), idle()),
{
    broadcast use lemma_conduct_of_daemon_pid;

    lemma_words();
}

broadcast proof fn lemma_conduct_of_get_attached_devices(log: Log, at: int, vm_name: Seq<char>)
    ensures
        within(#[trigger] spec_get_attached_devices(log, at, vm_name), idle()),
{
    lemma_words();
}

broadcast proof fn lemma_conduct_of_is_device_attached(
    log: Log,
    at: int,
    vm_name: Seq<char>,
    vendor_id: Seq<char>,
    product_id: Seq<char>,
)
    ensures
        within(
            #[trigger] spec_is_device_attached(log, at, vm_name, vendor_id, product_id),
            idle(),
        ),
{
    broadcast use lemma_conduct_of_get_attached_devices;

    lemma_words();
}

broadcast proof fn lemma_conduct_of_is_hid_device_attached(
    log: Log,
    at: int,
    vm_name: Seq<char>,
    device: HidView,
)
    ensures
        within(#[trigger] spec_is_hid_device_attached(log, at, vm_name, device), idle()),
{
    broadcast use {lemma_conduct_of_is_hid_daemon_running, lemma_conduct_of_is_device_attached};

    lemma_words();
}

broadcast proof fn lemma_conduct_of_vm_with_hid(
    log: Log,
    at: int,
    device: HidView,
    vms: Seq<Seq<char>>,
    i: int,
)
    ensures
        within(#[trigger] spec_vm_with_hid(log, at, device, vms, i), idle()),
    decreases vms.len() - i,
{
    broadcast use lemma_conduct_of_is_hid_device_attached;

    lemma_words();
    if !(i >= vms.len()) {
        match spec_is_hid_device_attached(log, at, vms[i], device) {
            Outcome::Ready(false, n) => {
                lemma_conduct_of_vm_with_hid(log, n, device, vms, i + 1);
            },
            _ => {},
        }
    }
}

broadcast proof fn lemma_conduct_of_show_hid(
    log: Log,
    at: int,
    device: HidView,
    vms: Seq<Seq<char>>,
)
    ensures
        within(#[trigger] spec_show_hid(log, at, device, vms), idle()),
{
    broadcast use {lemma_conduct_of_vm_with_hid, lemma_conduct_of_is_hid_daemon_running};

    lemma_words();
}

broadcast proof fn lemma_conduct_of_show_hids(
    log: Log,
    at: int,
    hids: Seq<HidView>,
    vms: Seq<Seq<char>>,
    i: int,
)
    ensures
        within(#[trigger] spec_show_hids(log, at, hids, vms, i), idle()),
    decreases hids.len() - i,
{
    broadcast use lemma_conduct_of_show_hid;

    lemma_words();
    if !(i >= hids.len()) {
        match spec_show_hid(log, at, hids[i], vms) {
            Outcome::Ready(_, n) => {
                lemma_conduct_of_show_hids(log, n, hids, vms, i + 1);
            },
            _ => {},
        }
    }
}

broadcast proof fn lemma_conduct_of_list_hid_devices(log: Log, at: int)
    ensures
        within(#[trigger] spec_list_hid_devices(log, at), idle()),
{
    broadcast use {
        lemma_conduct_of_load_hid_devices,
        lemma_conduct_of_active_vms,
        lemma_conduct_of_show_hids,
    };

    lemma_words();
}

broadcast proof fn lemma_conduct_of_forget(log: Log, at: int, name: Seq<char>)
    ensures
        within(#[trigger] spec_forget(log, at, name), Acts { remove: true, ..idle() }),
{
    lemma_words();
}

broadcast proof fn lemma_conduct_of_cleanup_hid_state_files(log: Log, at: int, name: Seq<char>)
    ensures
        within(
            #[trigger] spec_cleanup_hid_state_files(log, at, name),
            Acts { remove: true, ..idle() },
        ),
{
    broadcast use lemma_conduct_of_forget;

    lemma_words();
}

broadcast proof fn lemma_conduct_of_drop_hid(
    log: Log,
    at: int,
    hids: Seq<HidView>,
    k: int,
    name: Seq<char>,
)
    ensures
        within(
            #[trigger] spec_drop_hid(log, at, hids, k, name),
            Acts { list: true, write: true, remove: true, ..idle() },
        ),
{
    broadcast use {lemma_conduct_of_cleanup_hid_state_files, lemma_conduct_of_save_hid_devices};

    lemma_words();
}

#[verifier::spinoff_prover]
broadcast proof fn lemma_conduct_of_delete_hid_device(log: Log, at: int, name: Seq<char>)
    ensures
        within(
            #[trigger] spec_delete_hid_device(log, at, name),
            Acts { list: true, write: true, remove: true, ..idle() },
        ),
{
    broadcast use {
        lemma_conduct_of_load_hid_devices,
        lemma_conduct_of_active_vms,
        lemma_conduct_of_vm_with_hid,
        lemma_conduct_of_drop_hid,
    };

    lemma_words();
}

broadcast proof fn lemma_conduct_of_get_all_vms(log: Log, at: int)
    ensures
        within(#[trigger] spec_get_all_vms(log, at), idle()),
{
    lemma_words();
}

broadcast proof fn lemma_conduct_of_get_config_file(log: Log, at: int)
    ensures
        within(#[trigger] spec_get_config_file(log, at), idle()),
{
    lemma_words();
}

broadcast proof fn lemma_conduct_of_read_last_vm(log: Log, at: int)
    ensures
        within(#[trigger] spec_read_last_vm(log, at), idle()),
{
    broadcast use lemma_conduct_of_get_config_file;

    lemma_words();
}

broadcast proof fn lemma_conduct_of_load_last_vm(log: Log, at: int)
    ensures
        within(#[trigger] spec_load_last_vm(log, at), idle()),
{
    broadcast use lemma_conduct_of_read_last_vm;

    lemma_words();
}

broadcast proof fn lemma_conduct_of_select_vm(log: Log, at: int)
    ensures
        within(#[trigger] spec_select_vm(log, at), idle()),
{
    broadcast use {lemma_conduct_of_get_all_vms, lemma_conduct_of_load_last_vm};

    lemma_words();
}

broadcast proof fn lemma_conduct_of_save_last_vm(log: Log, at: int, vm: Seq<char>)
    ensures
        within(#[trigger] spec_save_last_vm(log, at, vm), Acts { write: true, ..idle() }),
{
    broadcast use lemma_conduct_of_get_config_file;

    lemma_words();
}

broadcast proof fn lemma_conduct_of_typing_vm(log: Log, at: int, vm: Option<Seq<char>>)
    ensures
        within(#[trigger] spec_typing_vm(log, at, vm), Acts { write: true, ..idle() }),
{
    broadcast use {lemma_conduct_of_select_vm, lemma_conduct_of_save_last_vm};

    lemma_words();
}

broadcast proof fn lemma_conduct_of_typing_device(log: Log, at: int, device: Option<Seq<char>>)
    ensures
        within(#[trigger] spec_typing_device(log, at, device), idle()),
{
    broadcast use lemma_conduct_of_load_hid_devices;

    lemma_words();
}

broadcast proof fn lemma_conduct_of_check_vm_running(log: Log, at: int, vm_name: Seq<char>)
    ensures
        within(#[trigger] spec_check_vm_running(log, at, vm_name), idle()),
{
    lemma_words();
}

broadcast proof fn lemma_conduct_of_hid_sock_file(log: Log, at: int, name: Seq<char>)
    ensures
        within(#[trigger] spec_hid_sock_file(log, at, name), idle()),
{
    lemma_words();
}

broadcast proof fn lemma_conduct_of_send_text(
    log: Log,
    at: int,
    vm_name: Seq<char>,
    device_name: Seq<char>,
    text: Seq<char>,
    no_enter: bool,
)
    ensures
        within(
            #[trigger] spec_send_text(log, at, vm_name, device_name, text, no_enter),
            Acts { send: true, ..idle() },
        ),
{
    broadcast use lemma_conduct_of_hid_sock_file;

    lemma_words();
}

#[verifier::spinoff_prover]
broadcast proof fn lemma_conduct_of_hid_type(
    log: Log,
    at: int,
    vm_name: Seq<char>,
    device_name: Seq<char>,
    text: Seq<char>,
    no_enter: bool,
)
    ensures
        within(
            #[trigger] spec_hid_type(log, at, vm_name, device_name, text, no_enter),
            Acts { send: true, ..idle() },
        ),
{
    broadcast use {
        lemma_conduct_of_check_vm_running,
        lemma_conduct_of_load_hid_devices,
        lemma_conduct_of_is_hid_device_attached,
        lemma_conduct_of_send_text,
    };

    lemma_words();
}

#[verifier::spinoff_prover]
broadcast proof fn lemma_conduct_of_run_hid(log: Log, at: int, action: HidCommandsView)
    ensures
        within(
            #[trigger] spec_run_hid(log, at, action),
            Acts { send: true, list: true, write: true, remove: true, ..idle() },
        ),
{
    broadcast use {
        lemma_conduct_of_create_hid_device,
        lemma_conduct_of_list_hid_devices,
        lemma_conduct_of_delete_hid_device,
        lemma_conduct_of_typing_vm,
        lemma_conduct_of_typing_device,
        lemma_conduct_of_hid_type,
    };

    lemma_words();
}

broadcast proof fn lemma_conduct_of_choose_vm(log: Log, at: int, vm: Option<Seq<char>>)
    ensures
        within(#[trigger] spec_choose_vm(log, at, vm), idle()),
{
    broadcast use lemma_conduct_of_select_vm;

    lemma_words();
}

broadcast proof fn lemma_conduct_of_usb_devices(log: Log, at: int, hubs: bool)
    ensures
        within(#[trigger] spec_usb_devices(log, at, hubs), idle()),
{
    lemma_words();
}

broadcast proof fn lemma_conduct_of_attached_to(log: Log, at: int, vm_name: Option<Seq<char>>)
    ensures
        within(#[trigger] spec_attached_to(log, at, vm_name), idle()),
{
    broadcast use lemma_conduct_of_get_attached_devices;

    lemma_words();
}

broadcast proof fn lemma_conduct_of_pick_device(
    front: Front,
    log: Log,
    at: int,
    prompt: Seq<SpanView>,
    devices: Seq<UsbView>,
)
    ensures
        within(#[trigger] spec_pick_device(front, log, at, prompt, devices), idle()),
{
    lemma_words();
}

broadcast proof fn lemma_conduct_of_find_device_by_name(
    front: Front,
    log: Log,
    at: int,
    name: Seq<char>,
    vm_name: Option<Seq<char>>,
    filter_attached: bool,
)
    ensures
        within(
            #[trigger] spec_find_device_by_name(front, log, at, name, vm_name, filter_attached),
            idle(),
        ),
{
    broadcast use {
        lemma_conduct_of_usb_devices,
        lemma_conduct_of_attached_to,
        lemma_conduct_of_pick_device,
    };

    lemma_words();
}

broadcast proof fn lemma_conduct_of_device_by_name(
    log: Log,
    at: int,
    vm: Seq<char>,
    name: Seq<char>,
    filter_attached: bool,
)
    ensures
        within(#[trigger] spec_device_by_name(log, at, vm, name, filter_attached), idle()),
{
    broadcast use {
        lemma_conduct_of_load_virtual_drives,
        lemma_conduct_of_load_hid_devices,
        lemma_conduct_of_find_device_by_name,
    };

    lemma_words();
}

broadcast proof fn lemma_conduct_of_any_usb_devices(log: Log, at: int)
    ensures
        within(#[trigger] spec_any_usb_devices(log, at), idle()),
{
    broadcast use lemma_conduct_of_usb_devices;

    lemma_words();
}

broadcast proof fn lemma_conduct_of_disks_of(log: Log, at: int, vm_name: Option<Seq<char>>)
    ensures
        within(#[trigger] spec_disks_of(log, at, vm_name), idle()),
{
    broadcast use lemma_conduct_of_get_attached_virtual_devices;

    lemma_words();
}

broadcast proof fn lemma_conduct_of_drive_attached(
    log: Log,
    at: int,
    drive: DriveView,
    disks: Seq<AttachmentView>,
)
    ensures
        within(#[trigger] spec_drive_attached(log, at, drive, disks), idle()),
{
    broadcast use lemma_conduct_of_get_vol_path;

    lemma_words();
}

broadcast proof fn lemma_conduct_of_add_drives(
    log: Log,
    at: int,
    drives: Seq<DriveView>,
    disks: Seq<AttachmentView>,
    filter_attached: bool,
    i: int,
    choices: Seq<ChoiceView>,
)
    ensures
        within(
            #[trigger] spec_add_drives(log, at, drives, disks, filter_attached, i, choices),
            idle(),
        ),
    decreases drives.len() - i,
{
    broadcast use lemma_conduct_of_drive_attached;

    lemma_words();
    if !(i >= drives.len()) {
        match spec_drive_attached(log, at, drives[i], disks) {
            Outcome::Ready(attached, n) => {
                lemma_conduct_of_add_drives(
                    log,
                    n,
                    drives,
                    disks,
                    filter_attached,
                    i + 1,
                    add_drive(choices, drives[i], attached, filter_attached),
                );
            },
            _ => {},
        }
    }
}

broadcast proof fn lemma_conduct_of_hid_attached(
    log: Log,
    at: int,
    device: HidView,
    attached: Seq<(Seq<char>, Seq<char>)>,
)
    ensures
        within(#[trigger] spec_hid_attached(log, at, device, attached), idle()),
{
    broadcast use lemma_conduct_of_is_hid_daemon_running;

    lemma_words();
}

broadcast proof fn lemma_conduct_of_add_hids(
    log: Log,
    at: int,
    hids: Seq<HidView>,
    attached: Seq<(Seq<char>, Seq<char>)>,
    filter_attached: bool,
    i: int,
    choices: Seq<ChoiceView>,
)
    ensures
        within(
            #[trigger] spec_add_hids(log, at, hids, attached, filter_attached, i, choices),
            idle(),
        ),
    decreases hids.len() - i,
{
    broadcast use lemma_conduct_of_hid_attached;

    lemma_words();
    if !(i >= hids.len()) {
        match spec_hid_attached(log, at, hids[i], attached) {
            Outcome::Ready(a, n) => {
                lemma_conduct_of_add_hids(
                    log,
                    n,
                    hids,
                    attached,
                    filter_attached,
                    i + 1,
                    if a || !filter_attached {
                        choices.push(ChoiceView::Hid(hids[i], a))
                    } else {
                        choices
                    },
                );
            },
            _ => {},
        }
    }
}

broadcast proof fn lemma_conduct_of_gather(
    log: Log,
    at: int,
    usb: Seq<UsbView>,
    drives: Seq<DriveView>,
    disks: Seq<AttachmentView>,
    hids: Seq<HidView>,
    attached: Seq<(Seq<char>, Seq<char>)>,
    filter_attached: bool,
)
    ensures
        within(
            #[trigger] spec_gather(log, at, usb, drives, disks, hids, attached, filter_attached),
            idle(),
        ),
{
    broadcast use {lemma_conduct_of_add_drives, lemma_conduct_of_add_hids};

    lemma_words();
}

#[verifier::spinoff_prover]
broadcast proof fn lemma_conduct_of_device_choices(
    log: Log,
    at: int,
    vm_name: Option<Seq<char>>,
    filter_attached: bool,
)
    ensures
        within(#[trigger] spec_device_choices(log, at, vm_name, filter_attached), idle()),
{
    broadcast use {
        lemma_conduct_of_any_usb_devices,
        lemma_conduct_of_attached_to,
        lemma_conduct_of_load_virtual_drives,
        lemma_conduct_of_disks_of,
        lemma_conduct_of_load_hid_devices,
        lemma_conduct_of_gather,
    };

    lemma_words();
}

broadcast proof fn lemma_conduct_of_select_device(
    log: Log,
    at: int,
    vm_name: Option<Seq<char>>,
    filter_attached: bool,
)
    ensures
        within(#[trigger] spec_select_device(log, at, vm_name, filter_attached), idle()),
{
    broadcast use lemma_conduct_of_device_choices;

    lemma_words();
}

broadcast proof fn lemma_conduct_of_enter_name(
    log: Log,
    at: int,
    prompt: Seq<char>,
    message: Seq<char>,
)
    ensures
        within(#[trigger] spec_enter_name(log, at, prompt, message), idle()),
{
    lemma_words();
}

broadcast proof fn lemma_conduct_of_new_drive(log: Log, at: int)
    ensures
        within(
            #[trigger] spec_new_drive(log, at),
            Acts { make: true, list: true, write: true, ..idle() },
        ),
{
    broadcast use {lemma_conduct_of_enter_name, lemma_conduct_of_create_virtual_drive};

    lemma_words();
}

broadcast proof fn lemma_conduct_of_new_hid(log: Log, at: int)
    ensures
        within(#[trigger] spec_new_hid(log, at), Acts { list: true, write: true, ..idle() }),
{
    broadcast use {lemma_conduct_of_enter_name, lemma_conduct_of_create_hid_device};

    lemma_words();
}

broadcast proof fn lemma_conduct_of_device_by_choice(
    log: Log,
    at: int,
    vm: Seq<char>,
    filter_attached: bool,
)
    ensures
        within(
            #[trigger] spec_device_by_choice(log, at, vm, filter_attached),
            Acts { make: true, list: true, write: true, ..idle() },
        ),
{
    broadcast use {
        lemma_conduct_of_select_device,
        lemma_conduct_of_new_drive,
        lemma_conduct_of_new_hid,
    };

    lemma_words();
}

broadcast proof fn lemma_conduct_of_resolve_device(
    log: Log,
    at: int,
    vm: Seq<char>,
    device: Option<Seq<char>>,
    filter_attached: bool,
)
    ensures
        within(
            #[trigger] spec_resolve_device(log, at, vm, device, filter_attached),
            Acts { make: true, list: true, write: true, ..idle() },
        ),
{
    broadcast use {lemma_conduct_of_device_by_name, lemma_conduct_of_device_by_choice};

    lemma_words();
}

broadcast proof fn lemma_conduct_of_check_vm_unpaused(log: Log, at: int, vm_name: Seq<char>)
    ensures
        within(#[trigger] spec_check_vm_unpaused(log, at, vm_name), idle()),
{
    lemma_words();
}

broadcast proof fn lemma_conduct_of_attach_listed(
    front: Front,
    log: Log,
    at: int,
    vm_name: Seq<char>,
    vendor_id: Seq<char>,
    product_id: Seq<char>,
)
    ensures
        within(
            #[trigger] spec_attach_listed(front, log, at, vm_name, vendor_id, product_id),
            Acts { attach: true, write: true, remove: true, ..idle() },
        ),
{
    broadcast use lemma_conduct_of_usb_devices;

    lemma_words();
}

broadcast proof fn lemma_conduct_of_attach_device(
    front: Front,
    log: Log,
    at: int,
    vm_name: Seq<char>,
    vendor_id: Seq<char>,
    product_id: Seq<char>,
)
    ensures
        within(
            #[trigger] spec_attach_device(front, log, at, vm_name, vendor_id, product_id),
            Acts { attach: true, write: true, remove: true, ..idle() },
        ),
{
    broadcast use {
        lemma_conduct_of_check_vm_unpaused,
        lemma_conduct_of_is_device_attached,
        lemma_conduct_of_attach_listed,
    };

    lemma_words();
}

broadcast proof fn lemma_conduct_of_detach_listed(
    front: Front,
    log: Log,
    at: int,
    vm_name: Seq<char>,
    vendor_id: Seq<char>,
    product_id: Seq<char>,
)
    ensures
        within(
            #[trigger] spec_detach_listed(front, log, at, vm_name, vendor_id, product_id),
            Acts { detach: true, write: true, remove: true, ..idle() },
        ),
{
    broadcast use lemma_conduct_of_usb_devices;

    lemma_words();
}

broadcast proof fn lemma_conduct_of_detach_device(
    front: Front,
    log: Log,
    at: int,
    vm_name: Seq<char>,
    vendor_id: Seq<char>,
    product_id: Seq<char>,
)
    ensures
        within(
            #[trigger] spec_detach_device(front, log, at, vm_name, vendor_id, product_id),
            Acts { detach: true, write: true, remove: true, ..idle() },
        ),
{
    broadcast use {
        lemma_conduct_of_check_vm_unpaused,
        lemma_conduct_of_is_device_attached,
        lemma_conduct_of_detach_listed,
    };

    lemma_words();
}

broadcast proof fn lemma_conduct_of_find_usb_device(
    log: Log,
    at: int,
    vendor_id: Seq<char>,
    product_id: Seq<char>,
    hubs: bool,
)
    ensures
        within(#[trigger] spec_find_usb_device(log, at, vendor_id, product_id, hubs), idle()),
{
    lemma_words();
}

broadcast proof fn lemma_conduct_of_show_device(
    front: Front,
    log: Log,
    at: int,
    vm_name: Seq<char>,
    vendor_id: Seq<char>,
    product_id: Seq<char>,
    running: bool,
    name: Seq<char>,
)
    ensures
        within(
            #[trigger] spec_show_device(
                front,
                log,
                at,
                vm_name,
                vendor_id,
                product_id,
                running,
                name,
            ),
            idle(),
        ),
{
    broadcast use {lemma_conduct_of_find_usb_device, lemma_conduct_of_is_device_attached};

    lemma_words();
}

broadcast proof fn lemma_conduct_of_show_status(
    front: Front,
    log: Log,
    at: int,
    vm_name: Seq<char>,
    vendor_id: Seq<char>,
    product_id: Seq<char>,
)
    ensures
        within(
            #[trigger] spec_show_status(front, log, at, vm_name, vendor_id, product_id),
            idle(),
        ),
{
    broadcast use {lemma_conduct_of_check_vm_running, lemma_conduct_of_show_device};

    lemma_words();
}

broadcast proof fn lemma_conduct_of_image_of(log: Log, at: int, name: Seq<char>)
    ensures
        within(#[trigger] spec_image_of(log, at, name), idle()),
{
    broadcast use lemma_conduct_of_get_vol_path;

    lemma_words();
}

broadcast proof fn lemma_conduct_of_get_next_target_dev(log: Log, at: int, vm_name: Seq<char>)
    ensures
        within(#[trigger] spec_get_next_target_dev(log, at, vm_name), idle()),
{
    lemma_words();
}

broadcast proof fn lemma_conduct_of_hand_drive(
    log: Log,
    at: int,
    vm_name: Seq<char>,
    drive_name: Seq<char>,
)
    ensures
        within(
            #[trigger] spec_hand_drive(log, at, vm_name, drive_name),
            Acts { attach: true, write: true, remove: true, ..idle() },
        ),
{
    broadcast use {lemma_conduct_of_image_of, lemma_conduct_of_get_next_target_dev};

    lemma_words();
}

#[verifier::spinoff_prover]
broadcast proof fn lemma_conduct_of_attach_virtual_drive(
    log: Log,
    at: int,
    vm_name: Seq<char>,
    drive_name: Seq<char>,
)
    ensures
        within(
            #[trigger] spec_attach_virtual_drive(log, at, vm_name, drive_name),
            Acts { attach: true, write: true, remove: true, ..idle() },
        ),
{
    broadcast use {
        lemma_conduct_of_load_virtual_drives,
        lemma_conduct_of_check_vm_unpaused,
        lemma_conduct_of_is_virtual_drive_attached,
        lemma_conduct_of_hand_drive,
    };

    lemma_words();
}

broadcast proof fn lemma_conduct_of_take_drive(
    log: Log,
    at: int,
    vm_name: Seq<char>,
    drive_name: Seq<char>,
)
    ensures
        within(
            #[trigger] spec_take_drive(log, at, vm_name, drive_name),
            Acts { detach: true, write: true, remove: true, ..idle() },
        ),
{
    broadcast use {lemma_conduct_of_image_of, lemma_conduct_of_get_attached_virtual_devices};

    lemma_words();
}

broadcast proof fn lemma_conduct_of_detach_virtual_drive(
    log: Log,
    at: int,
    vm_name: Seq<char>,
    drive_name: Seq<char>,
)
    ensures
        within(
            #[trigger] spec_detach_virtual_drive(log, at, vm_name, drive_name),
            Acts { detach: true, write: true, remove: true, ..idle() },
        ),
{
    broadcast use {
        lemma_conduct_of_load_virtual_drives,
        lemma_conduct_of_check_vm_unpaused,
        lemma_conduct_of_take_drive,
    };

    lemma_words();
}

broadcast proof fn lemma_conduct_of_show_drive_state(
    log: Log,
    at: int,
    vm_name: Seq<char>,
    drive_name: Seq<char>,
    drive: DriveView,
    running: bool,
)
    ensures
        within(
            #[trigger] spec_show_drive_state(log, at, vm_name, drive_name, drive, running),
            idle(),
        ),
{
    broadcast use {lemma_conduct_of_get_vol_path, lemma_conduct_of_is_virtual_drive_attached};

    lemma_words();
}

broadcast proof fn lemma_conduct_of_show_virtual_status(
    log: Log,
    at: int,
    vm_name: Seq<char>,
    drive_name: Seq<char>,
)
    ensures
        within(#[trigger] spec_show_virtual_status(log, at, vm_name, drive_name), idle()),
{
    broadcast use {
        lemma_conduct_of_load_virtual_drives,
        lemma_conduct_of_check_vm_running,
        lemma_conduct_of_show_drive_state,
    };

    lemma_words();
}

broadcast proof fn lemma_conduct_of_hid_port_file(log: Log, at: int, name: Seq<char>)
    ensures
        within(#[trigger] spec_hid_port_file(log, at, name), idle()),
{
    lemma_words();
}

broadcast proof fn lemma_conduct_of_spawn_hid_daemon(
    log: Log,
    at: int,
    name: Seq<char>,
    vid: Seq<char>,
    pid: Seq<char>,
)
    ensures
        within(
            #[trigger] spec_spawn_hid_daemon(log, at, name, vid, pid),
            Acts { spawn: true, ..idle() },
        ),
{
    broadcast use {
        lemma_conduct_of_hid_pid_file,
        lemma_conduct_of_hid_port_file,
        lemma_conduct_of_hid_sock_file,
    };

    lemma_words();
}

broadcast proof fn lemma_conduct_of_look_for_port(log: Log, at: int, name: Seq<char>)
    ensures
        within(#[trigger] spec_look_for_port(log, at, name), idle()),
{
    broadcast use lemma_conduct_of_hid_port_file;

    lemma_words();
}

broadcast proof fn lemma_conduct_of_await_port(log: Log, at: int, name: Seq<char>, tries: int)
    ensures
        within(#[trigger] spec_await_port(log, at, name, tries), idle()),
    decreases tries,
{
    broadcast use lemma_conduct_of_look_for_port;

    lemma_words();
    if !(tries <= 0) {
        match spec_look_for_port(log, at, name) {
            Outcome::Ready(false, n) => {
                lemma_conduct_of_await_port(log, n, name, tries - 1);
            },
            _ => {},
        }
    }
}

broadcast proof fn lemma_conduct_of_start_hid_daemon(
    log: Log,
    at: int,
    name: Seq<char>,
    vid: Seq<char>,
    pid: Seq<char>,
)
    ensures
        within(
            #[trigger] spec_start_hid_daemon(log, at, name, vid, pid),
            Acts { spawn: true, ..idle() },
        ),
{
    broadcast use {
        lemma_conduct_of_is_hid_daemon_running,
        lemma_conduct_of_spawn_hid_daemon,
        lemma_conduct_of_await_port,
    };

    lemma_words();
}

broadcast proof fn lemma_conduct_of_read_hid_port(log: Log, at: int, name: Seq<char>)
    ensures
        within(#[trigger] spec_read_hid_port(log, at, name), idle()),
{
    broadcast use lemma_conduct_of_hid_port_file;

    lemma_words();
}

broadcast proof fn lemma_conduct_of_reach_daemon(log: Log, at: int, name: Seq<char>)
    ensures
        within(#[trigger] spec_reach_daemon(log, at, name), idle()),
{
    broadcast use lemma_conduct_of_read_hid_port;

    lemma_words();
}

broadcast proof fn lemma_conduct_of_read_import_reply(log: Log, at: int)
    ensures
        within(#[trigger] spec_read_import_reply(log, at), idle()),
{
    lemma_words();
}

broadcast proof fn lemma_conduct_of_import_device(log: Log, at: int)
    ensures
        within(#[trigger] spec_import_device(log, at), Acts { send: true, ..idle() }),
{
    broadcast use lemma_conduct_of_read_import_reply;

    lemma_words();
}

broadcast proof fn lemma_conduct_of_find_vhci_sysfs_dir(log: Log, at: int)
    ensures
        within(#[trigger] spec_find_vhci_sysfs_dir(log, at), idle()),
{
    lemma_words();
}

broadcast proof fn lemma_conduct_of_find_free_vhci_port(log: Log, at: int)
    ensures
        within(#[trigger] spec_find_free_vhci_port(log, at), idle()),
{
    broadcast use lemma_conduct_of_find_vhci_sysfs_dir;

    lemma_words();
}

broadcast proof fn lemma_conduct_of_hid_vhci_port_file(log: Log, at: int, name: Seq<char>)
    ensures
        within(#[trigger] spec_hid_vhci_port_file(log, at, name), idle()),
{
    lemma_words();
}

broadcast proof fn lemma_conduct_of_attach_vhci(
    log: Log,
    at: int,
    dir: Seq<char>,
    rhport: u64,
    sockfd: u64,
)
    ensures
        within(
            #[trigger] spec_attach_vhci(log, at, dir, rhport, sockfd),
            Acts { write: true, ..idle() },
        ),
{
    lemma_words();
}

#[verifier::spinoff_prover]
broadcast proof fn lemma_conduct_of_plug_in(log: Log, at: int, name: Seq<char>)
    ensures
        within(#[trigger] spec_plug_in(log, at, name), Acts { write: true, ..idle() }),
{
    broadcast use {
        lemma_conduct_of_find_vhci_sysfs_dir,
        lemma_conduct_of_find_free_vhci_port,
        lemma_conduct_of_hid_vhci_port_file,
        lemma_conduct_of_attach_vhci,
    };

    lemma_words();
}

broadcast proof fn lemma_conduct_of_use_connection(log: Log, at: int, name: Seq<char>)
    ensures
        within(
            #[trigger] spec_use_connection(log, at, name),
            Acts { send: true, write: true, ..idle() },
        ),
{
    broadcast use {lemma_conduct_of_import_device, lemma_conduct_of_plug_in};

    lemma_words();
}

broadcast proof fn lemma_conduct_of_connect_device(log: Log, at: int, name: Seq<char>)
    ensures
        within(
            #[trigger] spec_connect_device(log, at, name),
            Acts { send: true, write: true, ..idle() },
        ),
{
    broadcast use {lemma_conduct_of_reach_daemon, lemma_conduct_of_use_connection};

    lemma_words();
}

broadcast proof fn lemma_conduct_of_look_for_device(
    log: Log,
    at: int,
    vid: Seq<char>,
    pid: Seq<char>,
)
    ensures
        within(#[trigger] spec_look_for_device(log, at, vid, pid), idle()),
{
    broadcast use lemma_conduct_of_find_usb_device;

    lemma_words();
}

broadcast proof fn lemma_conduct_of_await_device(
    log: Log,
    at: int,
    vid: Seq<char>,
    pid: Seq<char>,
    tries: int,
)
    ensures
        within(#[trigger] spec_await_device(log, at, vid, pid, tries), idle()),
    decreases tries,
{
    broadcast use lemma_conduct_of_look_for_device;

    lemma_words();
    if !(tries <= 0) {
        match spec_look_for_device(log, at, vid, pid) {
            Outcome::Ready(None, n) => {
                lemma_conduct_of_await_device(log, n, vid, pid, tries - 1);
            },
            _ => {},
        }
    }
}

broadcast proof fn lemma_conduct_of_unplug(log: Log, at: int, file: Seq<char>, content: Seq<char>)
    ensures
        within(
            #[trigger] spec_unplug(log, at, file, content),
            Acts { write: true, remove: true, ..idle() },
        ),
{
    broadcast use lemma_conduct_of_find_vhci_sysfs_dir;

    lemma_words();
}

broadcast proof fn lemma_conduct_of_detach_vhci(log: Log, at: int, name: Seq<char>)
    ensures
        within(
            #[trigger] spec_detach_vhci(log, at, name),
            Acts { write: true, remove: true, ..idle() },
        ),
{
    broadcast use {lemma_conduct_of_hid_vhci_port_file, lemma_conduct_of_unplug};

    lemma_words();
}

broadcast proof fn lemma_conduct_of_pass_on(
    log: Log,
    at: int,
    vm_name: Seq<char>,
    device: HidView,
)
    ensures
        within(
            #[trigger] spec_pass_on(log, at, vm_name, device),
            Acts { attach: true, write: true, remove: true, ..idle() },
        ),
{
    broadcast use {
        lemma_conduct_of_await_device,
        lemma_conduct_of_detach_vhci,
        lemma_conduct_of_attach_device,
    };

    lemma_words();
}

broadcast proof fn lemma_conduct_of_bring_over(
    log: Log,
    at: int,
    vm_name: Seq<char>,
    device: HidView,
)
    ensures
        within(
            #[trigger] spec_bring_over(log, at, vm_name, device),
            Acts { attach: true, send: true, write: true, remove: true, ..idle() },
        ),
{
    broadcast use {lemma_conduct_of_connect_device, lemma_conduct_of_pass_on};

    lemma_words();
}

broadcast proof fn lemma_conduct_of_stop_hid_daemon(log: Log, at: int, name: Seq<char>)
    ensures
        within(
            #[trigger] spec_stop_hid_daemon(log, at, name),
            Acts { end: true, remove: true, ..idle() },
        ),
{
    broadcast use {lemma_conduct_of_daemon_pid, lemma_conduct_of_cleanup_hid_state_files};

    lemma_words();
}

broadcast proof fn lemma_conduct_of_hand_hid(
    log: Log,
    at: int,
    vm_name: Seq<char>,
    device: HidView,
)
    ensures
        within(
            #[trigger] spec_hand_hid(log, at, vm_name, device),
            Acts { attach: true, spawn: true, end: true, send: true, write: true, remove: true, ..idle() },
        ),
{
    broadcast use {
        lemma_conduct_of_start_hid_daemon,
        lemma_conduct_of_bring_over,
        lemma_conduct_of_stop_hid_daemon,
    };

    lemma_words();
}

#[verifier::spinoff_prover]
broadcast proof fn lemma_conduct_of_attach_hid_device(
    log: Log,
    at: int,
    vm_name: Seq<char>,
    device_name: Seq<char>,
)
    ensures
        within(
            #[trigger] spec_attach_hid_device(log, at, vm_name, device_name),
            Acts { attach: true, spawn: true, end: true, send: true, write: true, remove: true, ..idle() },
        ),
{
    broadcast use {
        lemma_conduct_of_load_hid_devices,
        lemma_conduct_of_check_vm_unpaused,
        lemma_conduct_of_is_hid_device_attached,
        lemma_conduct_of_hand_hid,
    };

    lemma_words();
}

#[verifier::spinoff_prover]
broadcast proof fn lemma_conduct_of_release_hid(
    log: Log,
    at: int,
    vm_name: Seq<char>,
    device: HidView,
)
    ensures
        within(
            #[trigger] spec_release_hid(log, at, vm_name, device),
            Acts { detach: true, end: true, write: true, remove: true, ..idle() },
        ),
{
    broadcast use {
        lemma_conduct_of_is_device_attached,
        lemma_conduct_of_detach_device,
        lemma_conduct_of_detach_vhci,
        lemma_conduct_of_stop_hid_daemon,
    };

    lemma_words();
}

broadcast proof fn lemma_conduct_of_take_hid(
    log: Log,
    at: int,
    vm_name: Seq<char>,
    device: HidView,
)
    ensures
        within(
            #[trigger] spec_take_hid(log, at, vm_name, device),
            Acts { detach: true, end: true, write: true, remove: true, ..idle() },
        ),
{
    broadcast use {
        lemma_conduct_of_is_device_attached,
        lemma_conduct_of_release_hid,
        lemma_conduct_of_is_hid_daemon_running,
    };

    lemma_words();
}

broadcast proof fn lemma_conduct_of_detach_hid_device(
    log: Log,
    at: int,
    vm_name: Seq<char>,
    device_name: Seq<char>,
)
    ensures
        within(
            #[trigger] spec_detach_hid_device(log, at, vm_name, device_name),
            Acts { detach: true, end: true, write: true, remove: true, ..idle() },
        ),
{
    broadcast use {
        lemma_conduct_of_load_hid_devices,
        lemma_conduct_of_check_vm_unpaused,
        lemma_conduct_of_take_hid,
    };

    lemma_words();
}

broadcast proof fn lemma_conduct_of_show_hid_state(
    log: Log,
    at: int,
    vm_name: Seq<char>,
    device: HidView,
    running: bool,
)
    ensures
        within(#[trigger] spec_show_hid_state(log, at, vm_name, device, running), idle()),
{
    broadcast use {
        lemma_conduct_of_is_hid_daemon_running,
        lemma_conduct_of_is_hid_device_attached,
    };

    lemma_words();
}

broadcast proof fn lemma_conduct_of_show_hid_status(
    log: Log,
    at: int,
    vm_name: Seq<char>,
    device_name: Seq<char>,
)
    ensures
        within(#[trigger] spec_show_hid_status(log, at, vm_name, device_name), idle()),
{
    broadcast use {
        lemma_conduct_of_load_hid_devices,
        lemma_conduct_of_check_vm_running,
        lemma_conduct_of_show_hid_state,
    };

    lemma_words();
}

// ---------------------------------------------------------------------------
// Commands
// ---------------------------------------------------------------------------

/// Attaching never detaches anything and deletes no volume, whatever kind of
/// device is meant. Only a device that was not named can be made on the way.
#[verifier::spinoff_prover]
pub proof fn law_conduct_of_attach(
    log: Log,
    at: int,
    vm: Option<Seq<char>>,
    device: Option<Seq<char>>,
)
    ensures
        within(
            spec_run_tool(log, at, CliView { vm, device, command: CommandsView::Attach }),
            Acts {
                attach: true,
                spawn: true,
                end: true,
                send: true,
                write: true,
                remove: true,
                make: device is None,
                list: device is None,
                ..idle()
            },
        ),
{
    broadcast use {
        lemma_conduct_of_choose_vm,
        lemma_conduct_of_save_last_vm,
        lemma_conduct_of_device_by_name,
        lemma_conduct_of_device_by_choice,
        lemma_conduct_of_attach_device,
        lemma_conduct_of_attach_virtual_drive,
        lemma_conduct_of_attach_hid_device,
    };

    lemma_words();
}

/// Detaching never attaches anything, starts nothing and sends nothing, makes
/// no device and deletes none, whatever kind of device is meant.
#[verifier::spinoff_prover]
pub proof fn law_conduct_of_detach(
    log: Log,
    at: int,
    vm: Option<Seq<char>>,
    device: Option<Seq<char>>,
)
    ensures
        within(
            spec_run_tool(log, at, CliView { vm, device, command: CommandsView::Detach }),
            Acts {
                detach: true,
                end: true,
                write: true,
                remove: true,
                make: device is None,
                list: device is None,
                ..idle()
            },
        ),
{
    broadcast use {
        lemma_conduct_of_choose_vm,
        lemma_conduct_of_save_last_vm,
        lemma_conduct_of_device_by_name,
        lemma_conduct_of_device_by_choice,
        lemma_conduct_of_detach_device,
        lemma_conduct_of_detach_virtual_drive,
        lemma_conduct_of_detach_hid_device,
    };

    lemma_words();
}

/// Telling of a device changes nothing about it: nothing is attached, detached,
/// started, ended or sent, and no file removed. Only a device that was not
/// named can be made on the way.
#[verifier::spinoff_prover]
pub proof fn law_conduct_of_status(
    log: Log,
    at: int,
    vm: Option<Seq<char>>,
    device: Option<Seq<char>>,
)
    ensures
        within(
            spec_run_tool(log, at, CliView { vm, device, command: CommandsView::Status }),
            Acts {
                write: true,
                make: device is None,
                list: device is None,
                ..idle()
            },
        ),
{
    broadcast use {
        lemma_conduct_of_choose_vm,
        lemma_conduct_of_save_last_vm,
        lemma_conduct_of_device_by_name,
        lemma_conduct_of_device_by_choice,
        lemma_conduct_of_show_status,
        lemma_conduct_of_show_virtual_status,
        lemma_conduct_of_show_hid_status,
    };

    lemma_words();
}

/// Making a drive makes a volume and changes the list, and does nothing else.
pub proof fn law_conduct_of_storage_create(
    log: Log,
    at: int,
    other: Option<Seq<char>>,
    name: Seq<char>,
    size: Seq<char>,
)
    ensures
        within(
            spec_run_tool(
                log,
                at,
                asked_only(
                    CommandsView::Storage(StorageCommandsView::Create { name, size }),
                    other,
                ),
            ),
            Acts { make: true, list: true, write: true, ..idle() },
        ),
{
    broadcast use lemma_conduct_of_create_virtual_drive;

}

/// Listing the drives changes nothing.
pub proof fn law_conduct_of_storage_list(log: Log, at: int, other: Option<Seq<char>>)
    ensures
        within(
            spec_run_tool(
                log,
                at,
                asked_only(CommandsView::Storage(StorageCommandsView::List), other),
            ),
            idle(),
        ),
{
    broadcast use lemma_conduct_of_list_virtual_drives;

}

/// Deleting a drive deletes a volume and changes the list, and does nothing
/// else.
pub proof fn law_conduct_of_storage_delete(
    log: Log,
    at: int,
    other: Option<Seq<char>>,
    name: Seq<char>,
)
    ensures
        within(
            spec_run_tool(
                log,
                at,
                asked_only(CommandsView::Storage(StorageCommandsView::Delete { name }), other),
            ),
            Acts { delete: true, list: true, write: true, ..idle() },
        ),
{
    broadcast use lemma_conduct_of_delete_virtual_drive;

}

/// Making a HID device changes the list, and does nothing else.
pub proof fn law_conduct_of_hid_create(
    log: Log,
    at: int,
    other: Option<Seq<char>>,
    name: Seq<char>,
    vid: Seq<char>,
    pid: Seq<char>,
)
    ensures
        within(
            spec_run_tool(
                log,
                at,
                asked_only(CommandsView::Hid(HidCommandsView::Create { name, vid, pid }), other),
            ),
            Acts { list: true, write: true, ..idle() },
        ),
{
    broadcast use lemma_conduct_of_create_hid_device;

}

/// Listing the HID devices changes nothing.
pub proof fn law_conduct_of_hid_list(log: Log, at: int, other: Option<Seq<char>>)
    ensures
        within(
            spec_run_tool(log, at, asked_only(CommandsView::Hid(HidCommandsView::List), other)),
            idle(),
        ),
{
    broadcast use lemma_conduct_of_list_hid_devices;

}

/// Deleting a HID device removes its state files and changes the list, and does
/// nothing else.
pub proof fn law_conduct_of_hid_delete(
    log: Log,
    at: int,
    other: Option<Seq<char>>,
    name: Seq<char>,
)
    ensures
        within(
            spec_run_tool(
                log,
                at,
                asked_only(CommandsView::Hid(HidCommandsView::Delete { name }), other),
            ),
            Acts { list: true, write: true, remove: true, ..idle() },
        ),
{
    broadcast use lemma_conduct_of_delete_hid_device;

}

/// Typing sends the text and nothing else: with Enter behind it unless that is
/// unwanted. It changes nothing but the virtual machine that is remembered.
#[verifier::spinoff_prover]
pub proof fn law_what_typing_sends(
    log: Log,
    at: int,
    other: Option<Seq<char>>,
    text: Seq<char>,
    vm: Option<Seq<char>>,
    device: Option<Seq<char>>,
    no_enter: bool,
)
    ensures
        within(
            spec_run_tool(
                log,
                at,
                asked_only(
                    CommandsView::Hid(HidCommandsView::Type { text, vm, device, no_enter }),
                    other,
                ),
            ),
            Acts { send: true, write: vm is None, ..idle() },
        ),
        spec_run_tool(
            log,
            at,
            asked_only(
                CommandsView::Hid(HidCommandsView::Type { text, vm, device, no_enter }),
                other,
            ),
        ) matches Outcome::Ask(RequestView::Send(data)) ==> {
            &&& no_enter ==> data == encode_utf8(text)
            &&& !no_enter ==> data == encode_utf8(text.push('\r'))
        },
{
    broadcast use {
        lemma_conduct_of_select_vm,
        lemma_conduct_of_save_last_vm,
        lemma_conduct_of_typing_device,
        lemma_conduct_of_check_vm_running,
        lemma_conduct_of_load_hid_devices,
        lemma_conduct_of_is_hid_device_attached,
        lemma_conduct_of_hid_sock_file,
    };

    assert(text.push('\r') =~= text + seq!['\r']);
}

/// The command line that starts the daemon of a HID device: behind each option
/// stands what the list has of that device.
pub open spec fn starts_daemon_of(args: Seq<Seq<char>>, h: HidView) -> bool {
    &&& args.len() == 14
    &&& args[1] == "hid-daemon"@
    &&& args[2] == "--name"@
    &&& args[3] == h.name
    &&& args[4] == "--vid"@
    &&& args[5] == h.vid
    &&& args[6] == "--pid"@
    &&& args[7] == h.pid
    &&& args[8] == "--socket-path"@
    &&& args[10] == "--pid-file"@
    &&& args[12] == "--port-file"@
}

/// A process that attaching a HID device starts is the daemon of the first
/// device of that name in the list, under its name and with its ids.
#[verifier::spinoff_prover]
pub proof fn law_daemon_of_the_listed_device(log: Log, at: int, vm: Seq<char>, name: Seq<char>)
    ensures
        spec_attach_hid_device(log, at, vm, name) matches Outcome::Ask(
            RequestView::Spawn(args, file),
        ) ==> {
            &&& file == "/tmp/virsh-usb-hid-"@ + name + ".log"@
            &&& spec_load_hid_devices(log, at) matches Outcome::Ready(hids, n) && exists|k: int|
                first_hid(hids, name, k) && starts_daemon_of(args, #[trigger] hids[k])
        },
{
    broadcast use {
        lemma_conduct_of_load_hid_devices,
        lemma_conduct_of_check_vm_unpaused,
        lemma_conduct_of_is_hid_device_attached,
        lemma_conduct_of_is_hid_daemon_running,
        lemma_conduct_of_hid_pid_file,
        lemma_conduct_of_hid_port_file,
        lemma_conduct_of_hid_sock_file,
        lemma_conduct_of_await_port,
        lemma_conduct_of_bring_over,
        lemma_conduct_of_stop_hid_daemon,
    };

    if let Outcome::Ready(hids, _n) = spec_load_hid_devices(log, at) {
        lemma_hid_from(hids, name, 0);
        if hid_named(hids, name) is Some {
            let k = hid_named(hids, name).unwrap();
            assert(first_hid(hids, name, k));
            assert(hids[k].name == name);
        }
    }
}

/// The list of HID devices is loaded, and `h` is the first in it of its name.
pub open spec fn found(log: Log, from: int, h: HidView) -> bool {
    spec_load_hid_devices(log, from) matches Outcome::Ready(hids, n) && exists|k: int|
        first_hid(hids, h.name, k) && #[trigger] hids[k] == h
}

/// A process that the tool starts is the daemon of a HID device that it found in
/// the list; of the one with the given name, if a name is given.
#[verifier::spinoff_prover]
pub proof fn law_what_the_tool_starts(log: Log, at: int, cli: CliView)
    ensures
        spec_run_tool(log, at, cli) matches Outcome::Ask(RequestView::Spawn(args, file)) ==> {
            &&& cli.command is Attach
            &&& exists|from: int, h: HidView| {
                &&& #[trigger] found(log, from, h)
                &&& starts_daemon_of(args, h)
                &&& cli.device matches Some(name) ==> h.name == name
            }
        },
{
    broadcast use {
        lemma_conduct_of_open_hid_daemon,
        lemma_conduct_of_run_storage,
        lemma_conduct_of_run_hid,
        lemma_conduct_of_choose_vm,
        lemma_conduct_of_save_last_vm,
        lemma_conduct_of_resolve_device,
        lemma_conduct_of_attach_device,
        lemma_conduct_of_attach_virtual_drive,
        lemma_conduct_of_detach_device,
        lemma_conduct_of_detach_virtual_drive,
        lemma_conduct_of_detach_hid_device,
        lemma_conduct_of_show_status,
        lemma_conduct_of_show_virtual_status,
        lemma_conduct_of_show_hid_status,
    };

    if cli.command is Attach {
        if let Outcome::Ready(vm, at1) = spec_choose_vm(log, at, cli.vm) {
            if let Outcome::Ready(_saved, at2) = spec_attempt(spec_save_last_vm(log, at1, vm)) {
                if let Outcome::Ready(SelectedView::Hid { name }, at3) = spec_resolve_device(
                    log,
                    at2,
                    vm,
                    cli.device,
                    false,
                ) {
                    law_daemon_of_the_listed_device(log, at3, vm, name);
                    if let Outcome::Ready(hids, _n) = spec_load_hid_devices(log, at3) {
                        if let Outcome::Ask(RequestView::Spawn(args, _file)) =
                            spec_attach_hid_device(log, at3, vm, name) {
                            let k = choose|k: int|
                                first_hid(hids, name, k) && starts_daemon_of(
                                    args,
                                    #[trigger] hids[k],
                                );
                            assert(found(log, at3, hids[k]));
                        }
                    }
                }
            }
        }
    }
}

/// What stands for a choice when the tool acts on it: for a device of the host
/// its two ids, for a virtual one its name.
pub open spec fn stands_for(device: SelectedView, choice: ChoiceView) -> bool {
    match choice {
        ChoiceView::RealUsb(d) => device matches SelectedView::RealUsb { vendor_id, product_id }
            && vendor_id == d.vendor_id && product_id == d.product_id,
        ChoiceView::Storage(d, _) => device matches SelectedView::Storage { name }
            && name == d.name,
        ChoiceView::Hid(d, _) => device matches SelectedView::Hid { name } && name == d.name,
        ChoiceView::CreateNewStorage => device is Storage,
        ChoiceView::CreateNewHid => device is Hid,
    }
}

/// What the user picks is what is acted on. A device that is there needs no
/// further question.
#[verifier::spinoff_prover]
pub proof fn law_pick_is_acted_on(log: Log, at: int, vm: Seq<char>, filter_attached: bool)
    ensures
        spec_select_device(log, at, Some(vm), filter_attached) matches Outcome::Ready(choice, n)
            ==> {
            let device = spec_resolve_device(log, at, vm, None, filter_attached);
            &&& device matches Outcome::Ready(device, m) ==> stands_for(device, choice)
            &&& !(choice is CreateNewStorage) && !(choice is CreateNewHid) ==> (device matches
                Outcome::Ready(device, m) && m == n)
        },
{
}

/// Left to choose the virtual machine, the user chooses it first; all goes on as
/// if it had been given.
pub proof fn law_chosen_machine_is_acted_on(
    log: Log,
    at: int,
    n: int,
    vm: Seq<char>,
    device: Option<Seq<char>>,
    command: CommandsView,
)
    requires
        spec_select_vm(log, at) == Outcome::Ready(vm, n),
        command is Attach || command is Detach || command is Status,
    ensures
        spec_run_tool(log, at, CliView { vm: None, device, command }) == spec_run_tool(
            log,
            n,
            CliView { vm: Some(vm), device, command },
        ),
{
}

/// A device of the host that is picked is treated like one whose ids are given.
#[verifier::spinoff_prover]
pub proof fn law_picked_host_device_goes_by_its_ids(
    log: Log,
    at: int,
    n: int,
    vm: Seq<char>,
    d: UsbView,
    command: CommandsView,
)
    requires
        command is Attach || command is Detach || command is Status,
        spec_attempt(spec_save_last_vm(log, at, vm)) matches Outcome::Ready(saved, m)
            && spec_select_device(log, m, Some(vm), command is Detach) == Outcome::Ready(
            ChoiceView::RealUsb(d),
            n,
        ),
    ensures
        command is Attach
            ==> spec_run_tool(log, at, CliView { vm: Some(vm), device: None, command })
            == ends(spec_attach_device(Front::Tool, log, n, vm, d.vendor_id, d.product_id)),
        command is Detach
            ==> spec_run_tool(log, at, CliView { vm: Some(vm), device: None, command })
            == ends(spec_detach_device(Front::Tool, log, n, vm, d.vendor_id, d.product_id)),
        command is Status
            ==> spec_run_tool(log, at, CliView { vm: Some(vm), device: None, command })
            == ends(spec_show_status(Front::Tool, log, n, vm, d.vendor_id, d.product_id)),
{
}

/// A drive that is picked is treated under its name.
#[verifier::spinoff_prover]
pub proof fn law_picked_drive_goes_by_its_name(
    log: Log,
    at: int,
    n: int,
    vm: Seq<char>,
    d: DriveView,
    attached: bool,
    command: CommandsView,
)
    requires
        command is Attach || command is Detach || command is Status,
        spec_attempt(spec_save_last_vm(log, at, vm)) matches Outcome::Ready(saved, m)
            && spec_select_device(log, m, Some(vm), command is Detach) == Outcome::Ready(
            ChoiceView::Storage(d, attached),
            n,
        ),
    ensures
        command is Attach
            ==> spec_run_tool(log, at, CliView { vm: Some(vm), device: None, command })
            == ends(spec_attach_virtual_drive(log, n, vm, d.name)),
        command is Detach
            ==> spec_run_tool(log, at, CliView { vm: Some(vm), device: None, command })
            == ends(spec_detach_virtual_drive(log, n, vm, d.name)),
        command is Status
            ==> spec_run_tool(log, at, CliView { vm: Some(vm), device: None, command })
            == ends(spec_show_virtual_status(log, n, vm, d.name)),
{
}

/// A HID device that is picked is treated under its name.
#[verifier::spinoff_prover]
pub proof fn law_picked_hid_goes_by_its_name(
    log: Log,
    at: int,
    n: int,
    vm: Seq<char>,
    d: HidView,
    attached: bool,
    command: CommandsView,
)
    requires
        command is Attach || command is Detach || command is Status,
        spec_attempt(spec_save_last_vm(log, at, vm)) matches Outcome::Ready(saved, m)
            && spec_select_device(log, m, Some(vm), command is Detach) == Outcome::Ready(
            ChoiceView::Hid(d, attached),
            n,
        ),
    ensures
        command is Attach
            ==> spec_run_tool(log, at, CliView { vm: Some(vm), device: None, command })
            == ends(spec_attach_hid_device(log, n, vm, d.name)),
        command is Detach
            ==> spec_run_tool(log, at, CliView { vm: Some(vm), device: None, command })
            == ends(spec_detach_hid_device(log, n, vm, d.name)),
        command is Status
            ==> spec_run_tool(log, at, CliView { vm: Some(vm), device: None, command })
            == ends(spec_show_hid_status(log, n, vm, d.name)),
{
}

} // verus!
