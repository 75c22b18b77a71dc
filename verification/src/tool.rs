//! The tool as a whole: what it is asked to do, with devices of the host and
//! with virtual ones.

use vstd::prelude::*;
use vstd::string::*;

use crate::console::{choose_vm, spec_choose_vm, spec_treat_device, treat_device};
use crate::daemon::{open_hid_daemon, spec_open_hid_daemon};
use crate::devices::{
    drive_named, find_drive, find_hid, hid_named, law_name_stands_for_one_device, names_distinct,
    DriveView, HidDevice, HidView,
};
use crate::hid::{
    attach_hid_device, create_hid_device, delete_hid_device, detach_hid_device, hid_type,
    list_hid_devices, show_hid_status, spec_attach_hid_device, spec_create_hid_device,
    spec_delete_hid_device, spec_detach_hid_device, spec_hid_type, spec_list_hid_devices,
    spec_show_hid_status,
};
use crate::host::{
    ask_pick, ask_text, attempt, bind, context, cyan, fail, failure, find_picked, in_context, line,
    outcome, picked, plain, say, spec_ask_pick, spec_ask_text, spec_attempt, spec_say, Line, Log,
    Outcome, Reply, Request, RequestView, SpanView, Step,
};
use crate::names::{
    law_sanitized_is_valid, law_sanitizing_is_idempotent, sanitize_device_name, sanitized,
    valid_name,
};
use crate::registry::{
    load_hid_devices, load_virtual_drives, spec_load_hid_devices, spec_load_virtual_drives,
};
use crate::select::{select_device, spec_select_device, ChoiceView, DeviceChoice};
use crate::storage::{
    attach_virtual_drive, create_virtual_drive, delete_virtual_drive, detach_virtual_drive,
    list_virtual_drives, show_virtual_status, spec_attach_virtual_drive, spec_create_virtual_drive,
    spec_delete_virtual_drive, spec_detach_virtual_drive, spec_list_virtual_drives,
    spec_show_virtual_status,
};
use crate::text::{
    begins, chars_of, is_ascii_hexdigit, is_hex_digit, lemma_until, lemma_until_bounds, plus,
    prefix_until, same, strip_all, trim_start_matches, until,
};
use crate::usb::{find_device_by_name, id_text, join_ids, spec_find_device_by_name, Front};
use crate::vm::{save_last_vm, select_vm, spec_save_last_vm, spec_select_vm};

verus! {

// ---------------------------------------------------------------------------
// What is asked
// ---------------------------------------------------------------------------

/// What to do with virtual drives.
#[derive(Debug)]
pub enum StorageCommands {
    /// Make one.
    Create { name: String, size: String },
    /// List them.
    List,
    /// Delete one.
    Delete { name: String },
}

/// What to do with virtual drives.
pub enum StorageCommandsView {
    Create { name: Seq<char>, size: Seq<char> },
    List,
    Delete { name: Seq<char> },
}

impl DeepView for StorageCommands {
    type V = StorageCommandsView;

    open spec fn deep_view(&self) -> StorageCommandsView {
        match self {
            StorageCommands::Create { name, size } => StorageCommandsView::Create {
                name: name@,
                size: size@,
            },
            StorageCommands::List => StorageCommandsView::List,
            StorageCommands::Delete { name } => StorageCommandsView::Delete { name: name@ },
        }
    }
}

/// What to do with virtual HID devices.
#[derive(Debug)]
pub enum HidCommands {
    /// Make one.
    Create { name: String, vid: String, pid: String },
    /// List them.
    List,
    /// Delete one.
    Delete { name: String },
    /// Type a text over one.
    Type { text: String, vm: Option<String>, device: Option<String>, no_enter: bool },
}

/// What to do with virtual HID devices.
pub enum HidCommandsView {
    Create { name: Seq<char>, vid: Seq<char>, pid: Seq<char> },
    List,
    Delete { name: Seq<char> },
    Type {
        text: Seq<char>,
        vm: Option<Seq<char>>,
        device: Option<Seq<char>>,
        no_enter: bool,
    },
}

impl DeepView for HidCommands {
    type V = HidCommandsView;

    open spec fn deep_view(&self) -> HidCommandsView {
        match self {
            HidCommands::Create { name, vid, pid } => HidCommandsView::Create {
                name: name@,
                vid: vid@,
                pid: pid@,
            },
            HidCommands::List => HidCommandsView::List,
            HidCommands::Delete { name } => HidCommandsView::Delete { name: name@ },
            HidCommands::Type { text, vm, device, no_enter } => HidCommandsView::Type {
                text: text@,
                vm: vm.deep_view(),
                device: device.deep_view(),
                no_enter: *no_enter,
            },
        }
    }
}

/// What the tool is to do.
#[derive(Debug)]
pub enum Commands {
    /// Attach a device to a virtual machine.
    Attach,
    /// Detach a device from a virtual machine.
    Detach,
    /// Tell of a device and a virtual machine.
    Status,
    /// Manage virtual drives.
    Storage(StorageCommands),
    /// Manage virtual HID devices.
    Hid(HidCommands),
    /// Be the daemon behind a virtual HID device.
    HidDaemon {
        name: String,
        vid: String,
        pid: String,
        socket_path: String,
        pid_file: String,
        port_file: String,
    },
}

/// What the tool is to do.
pub enum CommandsView {
    Attach,
    Detach,
    Status,
    Storage(StorageCommandsView),
    Hid(HidCommandsView),
    HidDaemon {
        name: Seq<char>,
        vid: Seq<char>,
        pid: Seq<char>,
        socket_path: Seq<char>,
        pid_file: Seq<char>,
        port_file: Seq<char>,
    },
}

impl DeepView for Commands {
    type V = CommandsView;

    open spec fn deep_view(&self) -> CommandsView {
        match self {
            Commands::Attach => CommandsView::Attach,
            Commands::Detach => CommandsView::Detach,
            Commands::Status => CommandsView::Status,
            Commands::Storage(action) => CommandsView::Storage(action.deep_view()),
            Commands::Hid(action) => CommandsView::Hid(action.deep_view()),
            Commands::HidDaemon { name, vid, pid, socket_path, pid_file, port_file } =>
                CommandsView::HidDaemon {
                name: name@,
                vid: vid@,
                pid: pid@,
                socket_path: socket_path@,
                pid_file: pid_file@,
                port_file: port_file@,
            },
        }
    }
}

/// What the user asks for: a command, and the virtual machine and the device
/// that it is about, where they are given.
#[derive(Debug)]
pub struct Cli {
    pub vm: Option<String>,
    pub device: Option<String>,
    pub command: Commands,
}

/// What the user asks for.
pub struct CliView {
    pub vm: Option<Seq<char>>,
    pub device: Option<Seq<char>>,
    pub command: CommandsView,
}

impl DeepView for Cli {
    type V = CliView;

    open spec fn deep_view(&self) -> CliView {
        CliView {
            vm: self.vm.deep_view(),
            device: self.device.deep_view(),
            command: self.command.deep_view(),
        }
    }
}

// ---------------------------------------------------------------------------
// Which device is meant
// ---------------------------------------------------------------------------

/// The device that a command is about.
#[derive(Debug)]
pub enum SelectedDevice {
    /// A device of the host.
    RealUsb { vendor_id: String, product_id: String },
    /// A virtual drive.
    Storage { name: String },
    /// A virtual HID device.
    Hid { name: String },
}

/// The device that a command is about.
pub enum SelectedView {
    RealUsb { vendor_id: Seq<char>, product_id: Seq<char> },
    Storage { name: Seq<char> },
    Hid { name: Seq<char> },
}

impl DeepView for SelectedDevice {
    type V = SelectedView;

    open spec fn deep_view(&self) -> SelectedView {
        match self {
            SelectedDevice::RealUsb { vendor_id, product_id } => SelectedView::RealUsb {
                vendor_id: vendor_id@,
                product_id: product_id@,
            },
            SelectedDevice::Storage { name } => SelectedView::Storage { name: name@ },
            SelectedDevice::Hid { name } => SelectedView::Hid { name: name@ },
        }
    }
}

/// Hexadecimal digits only, but for `0x` before them.
pub open spec fn is_hex_id(s: Seq<char>) -> bool {
    forall|i: int|
        0 <= i < strip_all(s, "0x"@).len() ==> is_hex_digit(#[trigger] strip_all(s, "0x"@)[i])
}

fn looks_like_hex(s: &str) -> (r: bool)
    ensures
        r == is_hex_id(s@),
{
    let cs = chars_of(trim_start_matches(s, "0x"));
    let mut i: usize = 0;
    while i < cs.len()
        invariant
            cs@ == strip_all(s@, "0x"@),
            i <= cs.len(),
            forall|k: int| 0 <= k < i ==> is_hex_digit(#[trigger] strip_all(s@, "0x"@)[k]),
        decreases cs.len() - i,
    {
        if !is_ascii_hexdigit(cs[i]) {
            assert(!is_hex_digit(strip_all(s@, "0x"@)[i as int]));
            return false;
        }
        i = i + 1;
    }
    true
}

/// The vendor and the product, if a text gives them: two hexadecimal ids with a
/// colon between them.
pub open spec fn vid_pid(s: Seq<char>) -> Option<(Seq<char>, Seq<char>)> {
    let i = until(s, ':');
    if i < s.len() {
        let vendor = s.take(i);
        let product = s.skip(i + 1);
        if vendor.len() > 0 && product.len() > 0 && is_hex_id(vendor) && is_hex_id(product) {
            Some((vendor, product))
        } else {
            None
        }
    } else {
        None
    }
}

/// The vendor and the product, if a text gives them: two hexadecimal ids with a
/// colon between them.
pub fn parse_vid_pid(s: &str) -> (r: Option<(String, String)>)
    ensures
        r.deep_view() == vid_pid(s@),
{
    let n: usize = s.unicode_len();
    let i: usize = prefix_until(s, ':');
    proof {
        lemma_until_bounds(s@, ':');
    }
    if i < n {
        let vendor = s.substring_char(0, i);
        let product = s.substring_char(i + 1, n);
        assert(vendor@ =~= s@.take(i as int));
        assert(product@ =~= s@.skip(i + 1));
        if vendor.unicode_len() > 0 && product.unicode_len() > 0 && looks_like_hex(vendor)
            && looks_like_hex(product) {
            return Some((vendor.to_string(), product.to_string()));
        }
    }
    None
}

/// What is said of a name that two virtual devices have.
pub open spec fn ambiguous(name: Seq<char>) -> Seq<char> {
    "Ambiguous device name '"@ + name + "': matches both a storage drive and an HID device"@
}

/// The device with the given name: a virtual one with exactly that name, or
/// else a device of the host whose name contains it.
pub open spec fn spec_device_by_name(
    log: Log,
    at: int,
    vm: Seq<char>,
    name: Seq<char>,
    filter_attached: bool,
) -> Outcome<SelectedView> {
    bind(
        spec_load_virtual_drives(log, at),
        |drives: Seq<DriveView>, at: int|
            bind(
                spec_load_hid_devices(log, at),
                |hids: Seq<HidView>, at: int|
                    {
                        let is_storage = drive_named(drives, name) is Some;
                        let is_hid = hid_named(hids, name) is Some;
                        if is_storage && is_hid {
                            failure(at, ambiguous(name))
                        } else if is_storage {
                            Outcome::Ready(SelectedView::Storage { name }, at)
                        } else if is_hid {
                            Outcome::Ready(SelectedView::Hid { name }, at)
                        } else {
                            bind(
                                spec_find_device_by_name(
                                    Front::Tool,
                                    log,
                                    at,
                                    name,
                                    Some(vm),
                                    filter_attached,
                                ),
                                |ids: (Seq<char>, Seq<char>), at: int|
                                    Outcome::Ready(
                                        SelectedView::RealUsb {
                                            vendor_id: ids.0,
                                            product_id: ids.1,
                                        },
                                        at,
                                    ),
                            )
                        }
                    },
            ),
    )
}

fn device_by_name(
    log: &Vec<Reply>,
    at: usize,
    vm: &str,
    name: &str,
    filter_attached: bool,
) -> (r: Step<SelectedDevice>)
    ensures
        outcome(r) == spec_device_by_name(log.deep_view(), at as int, vm@, name@, filter_attached),
{
    let (drives, at) = load_virtual_drives(log, at)?;
    let (hids, at) = load_hid_devices(log, at)?;
    let is_storage = find_drive(&drives, name).is_some();
    let is_hid = find_hid(&hids, name).is_some();
    if is_storage && is_hid {
        let start = plus("Ambiguous device name '".to_string(), name);
        return fail(
            at,
            plus(start, "': matches both a storage drive and an HID device").as_str(),
        );
    }
    if is_storage {
        return Ok((SelectedDevice::Storage { name: name.to_string() }, at));
    }
    if is_hid {
        return Ok((SelectedDevice::Hid { name: name.to_string() }, at));
    }
    let (ids, at) = find_device_by_name(Front::Tool, log, at, name, Some(vm), filter_attached)?;
    Ok((SelectedDevice::RealUsb { vendor_id: ids.0, product_id: ids.1 }, at))
}

/// A device name that the user enters, sanitized; the user is told if that
/// changed it.
pub open spec fn spec_enter_name(log: Log, at: int, prompt: Seq<char>, message: Seq<char>) -> Outcome<
    Seq<char>,
> {
    bind(
        in_context(
            spec_ask_text(log, at, RequestView::Enter(prompt, None)),
            message,
        ),
        |raw: Seq<char>, at: int|
            {
                let name = sanitized(raw);
                if name != raw {
                    bind(
                        spec_say(
                            log,
                            at,
                            line().push(plain("Note: name sanitized to '"@)).push(
                                cyan(name),
                            ).push(plain("'"@)),
                        ),
                        |_done: (), at: int| Outcome::Ready(name, at),
                    )
                } else {
                    Outcome::Ready(name, at)
                }
            },
    )
}

fn enter_name(log: &Vec<Reply>, at: usize, prompt: &str, message: &str) -> (r: Step<String>)
    ensures
        outcome(r) == spec_enter_name(log.deep_view(), at as int, prompt@, message@),
{
    let (raw, at) = context(
        ask_text(log, at, Request::Enter(prompt.to_string(), None)),
        message,
    )?;
    let name = sanitize_device_name(raw.as_str());
    if !same(name.as_str(), raw.as_str()) {
        let (_, at) = say(
            log,
            at,
            Line::new().plain("Note: name sanitized to '").cyan(name.as_str()).plain("'"),
        )?;
        return Ok((name, at));
    }
    Ok((name, at))
}

/// Makes a drive as the user describes it.
pub open spec fn spec_new_drive(log: Log, at: int) -> Outcome<SelectedView> {
    bind(
        spec_enter_name(
            log,
            at,
            "Name for the new storage drive:"@,
            "Failed to get drive name"@,
        ),
        |name: Seq<char>, at: int|
            bind(
                in_context(
                    spec_ask_text(
                        log,
                        at,
                        RequestView::Enter("Size (e.g. 4G, 8G, 16G):"@, Some("4G"@)),
                    ),
                    "Failed to get drive size"@,
                ),
                |size: Seq<char>, at: int|
                    bind(
                        spec_create_virtual_drive(log, at, name, size),
                        |_done: (), at: int| Outcome::Ready(SelectedView::Storage { name }, at),
                    ),
            ),
    )
}

fn new_drive(log: &Vec<Reply>, at: usize) -> (r: Step<SelectedDevice>)
    ensures
        outcome(r) == spec_new_drive(log.deep_view(), at as int),
{
    let (name, at) = enter_name(
        log,
        at,
        "Name for the new storage drive:",
        "Failed to get drive name",
    )?;
    let (size, at) = context(
        ask_text(
            log,
            at,
            Request::Enter("Size (e.g. 4G, 8G, 16G):".to_string(), Some("4G".to_string())),
        ),
        "Failed to get drive size",
    )?;
    let (_, at) = create_virtual_drive(log, at, name.as_str(), size.as_str())?;
    Ok((SelectedDevice::Storage { name }, at))
}

/// Makes a HID device as the user describes it.
pub open spec fn spec_new_hid(log: Log, at: int) -> Outcome<SelectedView> {
    bind(
        spec_enter_name(
            log,
            at,
            "Name for the new HID device:"@,
            "Failed to get device name"@,
        ),
        |name: Seq<char>, at: int|
            bind(
                in_context(
                    spec_ask_text(
                        log,
                        at,
                        RequestView::Enter("Vendor ID (e.g. 0x0c2e):"@, None),
                    ),
                    "Failed to get vendor ID"@,
                ),
                |vid: Seq<char>, at: int|
                    bind(
                        in_context(
                            spec_ask_text(
                                log,
                                at,
                                RequestView::Enter("Product ID (e.g. 0x0b61):"@, None),
                            ),
                            "Failed to get product ID"@,
                        ),
                        |pid: Seq<char>, at: int|
                            bind(
                                spec_create_hid_device(log, at, name, vid, pid),
                                |_done: (), at: int|
                                    Outcome::Ready(SelectedView::Hid { name }, at),
                            ),
                    ),
            ),
    )
}

fn new_hid(log: &Vec<Reply>, at: usize) -> (r: Step<SelectedDevice>)
    ensures
        outcome(r) == spec_new_hid(log.deep_view(), at as int),
{
    let (name, at) = enter_name(
        log,
        at,
        "Name for the new HID device:",
        "Failed to get device name",
    )?;
    let (vid, at) = context(
        ask_text(log, at, Request::Enter("Vendor ID (e.g. 0x0c2e):".to_string(), None)),
        "Failed to get vendor ID",
    )?;
    let (pid, at) = context(
        ask_text(log, at, Request::Enter("Product ID (e.g. 0x0b61):".to_string(), None)),
        "Failed to get product ID",
    )?;
    let (_, at) = create_hid_device(log, at, name.as_str(), vid.as_str(), pid.as_str())?;
    Ok((SelectedDevice::Hid { name }, at))
}

/// The device that the user chooses, made on the spot if that is the choice.
pub open spec fn spec_device_by_choice(
    log: Log,
    at: int,
    vm: Seq<char>,
    filter_attached: bool,
) -> Outcome<SelectedView> {
    bind(
        spec_select_device(log, at, Some(vm), filter_attached),
        |choice: ChoiceView, at: int|
            match choice {
                ChoiceView::RealUsb(d) => Outcome::Ready(
                    SelectedView::RealUsb { vendor_id: d.vendor_id, product_id: d.product_id },
                    at,
                ),
                ChoiceView::Storage(d, _) => Outcome::Ready(
                    SelectedView::Storage { name: d.name },
                    at,
                ),
                ChoiceView::Hid(d, _) => Outcome::Ready(SelectedView::Hid { name: d.name }, at),
                ChoiceView::CreateNewStorage => spec_new_drive(log, at),
                ChoiceView::CreateNewHid => spec_new_hid(log, at),
            },
    )
}

fn device_by_choice(log: &Vec<Reply>, at: usize, vm: &str, filter_attached: bool) -> (r: Step<
    SelectedDevice,
>)
    ensures
        outcome(r) == spec_device_by_choice(log.deep_view(), at as int, vm@, filter_attached),
{
    let (choice, at) = select_device(log, at, Some(vm), filter_attached)?;
    match choice {
        DeviceChoice::RealUsb(d) => Ok(
            (SelectedDevice::RealUsb { vendor_id: d.vendor_id, product_id: d.product_id }, at),
        ),
        DeviceChoice::Storage(d, _) => Ok((SelectedDevice::Storage { name: d.name }, at)),
        DeviceChoice::Hid(d, _) => Ok((SelectedDevice::Hid { name: d.name }, at)),
        DeviceChoice::CreateNewStorage => new_drive(log, at),
        DeviceChoice::CreateNewHid => new_hid(log, at),
    }
}

/// The device that is meant: by its ids, by its name, or else by choice.
pub open spec fn spec_resolve_device(
    log: Log,
    at: int,
    vm: Seq<char>,
    device: Option<Seq<char>>,
    filter_attached: bool,
) -> Outcome<SelectedView> {
    match device {
        Some(spec) => match vid_pid(spec) {
            Some(ids) => Outcome::Ready(
                SelectedView::RealUsb { vendor_id: ids.0, product_id: ids.1 },
                at,
            ),
            None => spec_device_by_name(log, at, vm, spec, filter_attached),
        },
        None => spec_device_by_choice(log, at, vm, filter_attached),
    }
}

/// The device that is meant: by its ids, by its name, or else by choice.
pub fn resolve_device(
    log: &Vec<Reply>,
    at: usize,
    vm: &str,
    device: &Option<String>,
    filter_attached: bool,
) -> (r: Step<SelectedDevice>)
    ensures
        outcome(r) == spec_resolve_device(
            log.deep_view(),
            at as int,
            vm@,
            device.deep_view(),
            filter_attached,
        ),
{
    match device {
        Some(spec) => match parse_vid_pid(spec.as_str()) {
            Some((vendor_id, product_id)) => Ok(
                (SelectedDevice::RealUsb { vendor_id, product_id }, at),
            ),
            None => device_by_name(log, at, vm, spec.as_str(), filter_attached),
        },
        None => device_by_choice(log, at, vm, filter_attached),
    }
}

// ---------------------------------------------------------------------------
// Doing it
// ---------------------------------------------------------------------------

/// Attaches, detaches or tells of a device.
pub open spec fn spec_treat(
    log: Log,
    at: int,
    command: crate::console::Commands,
    vm: Seq<char>,
    device: SelectedView,
) -> Outcome<()> {
    match device {
        SelectedView::RealUsb { vendor_id, product_id } => spec_treat_device(
            Front::Tool,
            log,
            at,
            command,
            vm,
            vendor_id,
            product_id,
        ),
        SelectedView::Storage { name } => match command {
            crate::console::Commands::Attach => spec_attach_virtual_drive(log, at, vm, name),
            crate::console::Commands::Detach => spec_detach_virtual_drive(log, at, vm, name),
            crate::console::Commands::Status => spec_show_virtual_status(log, at, vm, name),
        },
        SelectedView::Hid { name } => match command {
            crate::console::Commands::Attach => spec_attach_hid_device(log, at, vm, name),
            crate::console::Commands::Detach => spec_detach_hid_device(log, at, vm, name),
            crate::console::Commands::Status => spec_show_hid_status(log, at, vm, name),
        },
    }
}

fn treat(
    log: &Vec<Reply>,
    at: usize,
    command: crate::console::Commands,
    vm: &str,
    device: &SelectedDevice,
) -> (r: Step<()>)
    ensures
        outcome(r) == spec_treat(log.deep_view(), at as int, command, vm@, device.deep_view()),
{
    match device {
        SelectedDevice::RealUsb { vendor_id, product_id } => treat_device(
            Front::Tool,
            log,
            at,
            command,
            vm,
            vendor_id.as_str(),
            product_id.as_str(),
        ),
        SelectedDevice::Storage { name } => match command {
            crate::console::Commands::Attach => attach_virtual_drive(log, at, vm, name.as_str()),
            crate::console::Commands::Detach => detach_virtual_drive(log, at, vm, name.as_str()),
            crate::console::Commands::Status => show_virtual_status(log, at, vm, name.as_str()),
        },
        SelectedDevice::Hid { name } => match command {
            crate::console::Commands::Attach => attach_hid_device(log, at, vm, name.as_str()),
            crate::console::Commands::Detach => detach_hid_device(log, at, vm, name.as_str()),
            crate::console::Commands::Status => show_hid_status(log, at, vm, name.as_str()),
        },
    }
}

/// Attaches, detaches or tells of the device that is meant, on the virtual
/// machine that is meant.
pub open spec fn spec_run_on_device(
    log: Log,
    at: int,
    command: crate::console::Commands,
    vm: Option<Seq<char>>,
    device: Option<Seq<char>>,
) -> Outcome<()> {
    bind(
        spec_choose_vm(log, at, vm),
        |vm: Seq<char>, at: int|
            bind(
                spec_attempt(spec_save_last_vm(log, at, vm)),
                |_saved: Option<()>, at: int|
                    bind(
                        spec_resolve_device(
                            log,
                            at,
                            vm,
                            device,
                            command == crate::console::Commands::Detach,
                        ),
                        |selected: SelectedView, at: int|
                            spec_treat(log, at, command, vm, selected),
                    ),
            ),
    )
}

fn run_on_device(
    log: &Vec<Reply>,
    at: usize,
    command: crate::console::Commands,
    vm: &Option<String>,
    device: &Option<String>,
) -> (r: Step<()>)
    ensures
        outcome(r) == spec_run_on_device(
            log.deep_view(),
            at as int,
            command,
            vm.deep_view(),
            device.deep_view(),
        ),
{
    let (vm, at) = choose_vm(log, at, vm)?;
    let (_, at) = attempt(save_last_vm(log, at, vm.as_str()))?;
    let filter_attached = command == crate::console::Commands::Detach;
    let (selected, at) = resolve_device(log, at, vm.as_str(), device, filter_attached)?;
    treat(log, at, command, vm.as_str(), &selected)
}

/// The virtual machine to type into: the one given, or else the one that the
/// user selects, which is then remembered.
pub open spec fn spec_typing_vm(log: Log, at: int, vm: Option<Seq<char>>) -> Outcome<Seq<char>> {
    match vm {
        Some(vm) => Outcome::Ready(vm, at),
        None => bind(
            spec_select_vm(log, at),
            |vm: Seq<char>, at: int|
                bind(
                    spec_attempt(spec_save_last_vm(log, at, vm)),
                    |_saved: Option<()>, at: int| Outcome::Ready(vm, at),
                ),
        ),
    }
}

fn typing_vm(log: &Vec<Reply>, at: usize, vm: &Option<String>) -> (r: Step<String>)
    ensures
        outcome(r) == spec_typing_vm(log.deep_view(), at as int, vm.deep_view()),
{
    match vm {
        Some(vm) => Ok((vm.clone(), at)),
        None => {
            let (vm, at) = select_vm(log, at)?;
            let (_, at) = attempt(save_last_vm(log, at, vm.as_str()))?;
            Ok((vm, at))
        },
    }
}

/// How HID devices are offered for typing: by name, with their ids as they were
/// given.
pub open spec fn typing_offers(hids: Seq<HidView>) -> Seq<Seq<SpanView>> {
    Seq::new(
        hids.len(),
        |i: int| line().push(plain(hids[i].name + " ("@ + id_text(hids[i].vid, hids[i].pid) + ")"@)),
    )
}

fn offer_for_typing(hids: &Vec<HidDevice>) -> (r: Vec<Line>)
    ensures
        r.deep_view() == typing_offers(hids.deep_view()),
{
    let ghost all = typing_offers(hids.deep_view());
    let mut r: Vec<Line> = Vec::new();
    let mut i: usize = 0;
    while i < hids.len()
        invariant
            i <= hids.len(),
            all == typing_offers(hids.deep_view()),
            r.len() == i,
            forall|k: int| 0 <= k < i ==> (#[trigger] r@[k]).deep_view() == all[k],
        decreases hids.len() - i,
    {
        assert(hids.deep_view()[i as int] == hids@[i as int].deep_view());
        let ids = join_ids(hids[i].vid.as_str(), hids[i].pid.as_str());
        let start = plus(hids[i].name.clone(), " (");
        r.push(Line::new().plain(plus(plus(start, ids.as_str()), ")").as_str()));
        i = i + 1;
    }
    assert(r.deep_view() =~= all);
    r
}

/// The HID device to type over: the one given, or else the one that the user
/// selects.
pub open spec fn spec_typing_device(log: Log, at: int, device: Option<Seq<char>>) -> Outcome<
    Seq<char>,
> {
    match device {
        Some(name) => Outcome::Ready(name, at),
        None => bind(
            spec_load_hid_devices(log, at),
            |hids: Seq<HidView>, at: int|
                if hids.len() == 0 {
                    failure(
                        at,
                        "No HID devices found. Create one with: virsh-usb hid create <name> --vid <vid> --pid <pid>"@,
                    )
                } else {
                    bind(
                        in_context(
                            spec_ask_pick(
                                log,
                                at,
                                RequestView::Choose(
                                    line().push(plain("Select a HID device:"@)),
                                    typing_offers(hids),
                                    0,
                                ),
                            ),
                            "Failed to select HID device"@,
                        ),
                        |i: int, at: int|
                            match picked(typing_offers(hids), i) {
                                Some(k) => Outcome::Ready(hids[k].name, at),
                                None => failure(at, "Failed to select HID device"@),
                            },
                    )
                },
        ),
    }
}

fn typing_device(log: &Vec<Reply>, at: usize, device: &Option<String>) -> (r: Step<String>)
    ensures
        outcome(r) == spec_typing_device(log.deep_view(), at as int, device.deep_view()),
{
    match device {
        Some(name) => Ok((name.clone(), at)),
        None => {
            let (hids, at) = load_hid_devices(log, at)?;
            if hids.len() == 0 {
                return fail(
                    at,
                    "No HID devices found. Create one with: virsh-usb hid create <name> --vid <vid> --pid <pid>",
                );
            }
            let options = offer_for_typing(&hids);
            let prompt = Line::new().plain("Select a HID device:");
            let (pick, at) = context(
                ask_pick(log, at, Request::Choose(prompt, offer_for_typing(&hids), 0)),
                "Failed to select HID device",
            )?;
            match find_picked(&options, pick.index) {
                Some(k) => {
                    assert(hids.deep_view()[k as int] == hids@[k as int].deep_view());
                    Ok((hids[k].name.clone(), at))
                },
                None => fail(at, "Failed to select HID device"),
            }
        },
    }
}

/// Does what is asked with virtual drives.
pub open spec fn spec_run_storage(log: Log, at: int, action: StorageCommandsView) -> Outcome<()> {
    match action {
        StorageCommandsView::Create { name, size } => spec_create_virtual_drive(
            log,
            at,
            name,
            size,
        ),
        StorageCommandsView::List => spec_list_virtual_drives(log, at),
        StorageCommandsView::Delete { name } => spec_delete_virtual_drive(log, at, name),
    }
}

fn run_storage(log: &Vec<Reply>, at: usize, action: &StorageCommands) -> (r: Step<()>)
    ensures
        outcome(r) == spec_run_storage(log.deep_view(), at as int, action.deep_view()),
{
    match action {
        StorageCommands::Create { name, size } => create_virtual_drive(
            log,
            at,
            name.as_str(),
            size.as_str(),
        ),
        StorageCommands::List => list_virtual_drives(log, at),
        StorageCommands::Delete { name } => delete_virtual_drive(log, at, name.as_str()),
    }
}

/// Does what is asked with virtual HID devices.
pub open spec fn spec_run_hid(log: Log, at: int, action: HidCommandsView) -> Outcome<()> {
    match action {
        HidCommandsView::Create { name, vid, pid } => spec_create_hid_device(
            log,
            at,
            name,
            vid,
            pid,
        ),
        HidCommandsView::List => spec_list_hid_devices(log, at),
        HidCommandsView::Delete { name } => spec_delete_hid_device(log, at, name),
        HidCommandsView::Type { text, vm, device, no_enter } => bind(
            spec_typing_vm(log, at, vm),
            |vm_name: Seq<char>, at: int|
                bind(
                    spec_typing_device(log, at, device),
                    |device_name: Seq<char>, at: int|
                        spec_hid_type(log, at, vm_name, device_name, text, no_enter),
                ),
        ),
    }
}

fn run_hid(log: &Vec<Reply>, at: usize, action: &HidCommands) -> (r: Step<()>)
    ensures
        outcome(r) == spec_run_hid(log.deep_view(), at as int, action.deep_view()),
{
    match action {
        HidCommands::Create { name, vid, pid } => create_hid_device(
            log,
            at,
            name.as_str(),
            vid.as_str(),
            pid.as_str(),
        ),
        HidCommands::List => list_hid_devices(log, at),
        HidCommands::Delete { name } => delete_hid_device(log, at, name.as_str()),
        HidCommands::Type { text, vm, device, no_enter } => {
            let (vm_name, at) = typing_vm(log, at, vm)?;
            let (device_name, at) = typing_device(log, at, device)?;
            hid_type(
                log,
                at,
                vm_name.as_str(),
                device_name.as_str(),
                text.as_str(),
                *no_enter,
            )
        },
    }
}

/// How the tool ends: it is done, or it goes on as the daemon of a device with
/// the given ids.
#[derive(Debug)]
pub enum Ending {
    Done,
    Serve { vid: u16, pid: u16 },
}

impl DeepView for Ending {
    type V = Ending;

    open spec fn deep_view(&self) -> Ending {
        *self
    }
}

/// The end of what has nothing to follow.
pub open spec fn ends(s: Outcome<()>) -> Outcome<Ending> {
    bind(s, |_done: (), at: int| Outcome::Ready(Ending::Done, at))
}

fn end(s: Step<()>) -> (r: Step<Ending>)
    ensures
        outcome(r) == ends(outcome(s)),
{
    let (_, at) = s?;
    Ok((Ending::Done, at))
}

/// Does what is asked.
pub open spec fn spec_run_tool(log: Log, at: int, cli: CliView) -> Outcome<Ending> {
    match cli.command {
        CommandsView::HidDaemon { name, vid, pid, socket_path, pid_file, port_file } => bind(
            spec_open_hid_daemon(log, at, vid, pid, socket_path, pid_file, port_file),
            |ids: (u16, u16), at: int|
                Outcome::Ready(Ending::Serve { vid: ids.0, pid: ids.1 }, at),
        ),
        CommandsView::Storage(action) => ends(spec_run_storage(log, at, action)),
        CommandsView::Hid(action) => ends(spec_run_hid(log, at, action)),
        CommandsView::Attach => ends(
            spec_run_on_device(
                log,
                at,
                crate::console::Commands::Attach,
                cli.vm,
                cli.device,
            ),
        ),
        CommandsView::Detach => ends(
            spec_run_on_device(
                log,
                at,
                crate::console::Commands::Detach,
                cli.vm,
                cli.device,
            ),
        ),
        CommandsView::Status => ends(
            spec_run_on_device(
                log,
                at,
                crate::console::Commands::Status,
                cli.vm,
                cli.device,
            ),
        ),
    }
}

/// Does what is asked.
pub fn run_tool(log: &Vec<Reply>, at: usize, cli: &Cli) -> (r: Step<Ending>)
    ensures
        outcome(r) == spec_run_tool(log.deep_view(), at as int, cli.deep_view()),
{
    match &cli.command {
        Commands::HidDaemon { name: _, vid, pid, socket_path, pid_file, port_file } => {
            let (ids, at) = open_hid_daemon(
                log,
                at,
                vid.as_str(),
                pid.as_str(),
                socket_path.as_str(),
                pid_file.as_str(),
                port_file.as_str(),
            )?;
            Ok((Ending::Serve { vid: ids.0, pid: ids.1 }, at))
        },
        Commands::Storage(action) => end(run_storage(log, at, action)),
        Commands::Hid(action) => end(run_hid(log, at, action)),
        Commands::Attach => end(
            run_on_device(log, at, crate::console::Commands::Attach, &cli.vm, &cli.device),
        ),
        Commands::Detach => end(
            run_on_device(log, at, crate::console::Commands::Detach, &cli.vm, &cli.device),
        ),
        Commands::Status => end(
            run_on_device(log, at, crate::console::Commands::Status, &cli.vm, &cli.device),
        ),
    }
}

// ---------------------------------------------------------------------------
// Laws
// ---------------------------------------------------------------------------

/// A name that the user enters for a new device is valid by the time it is
/// used, and making the device does not change it again: the device that is
/// made is the one that is then treated.
pub proof fn law_new_device_keeps_its_name(
    log: Log,
    at: int,
    prompt: Seq<char>,
    message: Seq<char>,
    name: Seq<char>,
    n: int,
)
    requires
        spec_enter_name(log, at, prompt, message) == Outcome::Ready(name, n),
    ensures
        valid_name(name),
        sanitized(name) == name,
{
    if let Outcome::Ready(raw, _) = in_context(
        spec_ask_text(log, at, RequestView::Enter(prompt, None)),
        message,
    ) {
        law_sanitized_is_valid(raw);
        law_sanitizing_is_idempotent(raw);
    }
}

/// Ids are taken as ids: no virtual device and no name is looked for.
pub proof fn law_ids_come_first(
    log: Log,
    at: int,
    vm: Seq<char>,
    vendor_id: Seq<char>,
    product_id: Seq<char>,
    filter_attached: bool,
)
    requires
        vendor_id.len() > 0,
        product_id.len() > 0,
        !vendor_id.contains(':'),
        is_hex_id(vendor_id),
        is_hex_id(product_id),
    ensures
        spec_resolve_device(
            log,
            at,
            vm,
            Some(id_text(vendor_id, product_id)),
            filter_attached,
        ) == Outcome::Ready(SelectedView::RealUsb { vendor_id, product_id }, at),
{
    reveal_strlit(":");
    let s = id_text(vendor_id, product_id);
    let i = vendor_id.len() as int;
    assert forall|k: int| 0 <= k < i implies s[k] != ':' by {
        assert(s[k] == vendor_id[k]);
    }
    lemma_until(s, ':', i);
    assert(s.take(i) =~= vendor_id);
    assert(s.skip(i + 1) =~= product_id);
}

/// While the names of virtual devices are distinct, a name is never ambiguous:
/// it stands for the drive or for the HID device that has it, or else for a
/// device of the host.
pub proof fn law_distinct_names_are_never_ambiguous(
    log: Log,
    at: int,
    vm: Seq<char>,
    name: Seq<char>,
    filter_attached: bool,
    drives: Seq<DriveView>,
    n: int,
    hids: Seq<HidView>,
    m: int,
)
    requires
        vid_pid(name) is None,
        spec_load_virtual_drives(log, at) == Outcome::Ready(drives, n),
        spec_load_hid_devices(log, n) == Outcome::Ready(hids, m),
        names_distinct(drives, hids),
    ensures
        drive_named(drives, name) is Some ==> spec_resolve_device(
            log,
            at,
            vm,
            Some(name),
            filter_attached,
        ) == Outcome::Ready(SelectedView::Storage { name }, m),
        hid_named(hids, name) is Some ==> spec_resolve_device(
            log,
            at,
            vm,
            Some(name),
            filter_attached,
        ) == Outcome::Ready(SelectedView::Hid { name }, m),
{
    law_name_stands_for_one_device(drives, hids, name);
}

/// Ids are two texts of hexadecimal digits, with or without `0x` before them, and
/// a colon between them; nothing else is taken for ids.
pub proof fn law_ids_are_hexadecimal(s: Seq<char>)
    ensures
        vid_pid(s) matches Some((vendor_id, product_id)) ==> {
            &&& s == vendor_id + ":"@ + product_id
            &&& vendor_id.len() > 0 && !vendor_id.contains(':')
            &&& product_id.len() > 0
            &&& forall|i: int|
                0 <= i < vendor_id.len() ==> is_hex_digit(#[trigger] vendor_id[i]) || vendor_id[i]
                    == 'x'
            &&& forall|i: int|
                0 <= i < product_id.len() ==> is_hex_digit(#[trigger] product_id[i])
                    || product_id[i] == 'x'
        },
{
    reveal_strlit(":");
    lemma_until_bounds(s, ':');
    let i = until(s, ':');
    if i < s.len() {
        assert(s =~= s.take(i) + ":"@ + s.skip(i + 1));
        if is_hex_id(s.take(i)) {
            lemma_hexadecimal(s.take(i));
        }
        if is_hex_id(s.skip(i + 1)) {
            lemma_hexadecimal(s.skip(i + 1));
        }
    }
}

proof fn lemma_hexadecimal(s: Seq<char>)
    requires
        is_hex_id(s),
    ensures
        forall|i: int| 0 <= i < s.len() ==> is_hex_digit(#[trigger] s[i]) || s[i] == 'x',
    decreases s.len(),
{
    reveal_strlit("0x");
    if begins(s, "0x"@) {
        let t = s.skip(2);
        assert(s.subrange(0, 2)[0] == s[0] && s.subrange(0, 2)[1] == s[1]);
        assert(strip_all(s, "0x"@) == strip_all(t, "0x"@));
        lemma_hexadecimal(t);
        assert forall|i: int| 0 <= i < s.len() implies is_hex_digit(#[trigger] s[i]) || s[i]
            == 'x' by {
            if i >= 2 {
                assert(t[i - 2] == s[i]);
            }
        }
    } else {
        assert(strip_all(s, "0x"@) == s);
    }
}

} // verus!
