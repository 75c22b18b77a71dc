//! Virtual machines: which there are, which run, and handing them the host's
//! USB devices.

use vstd::prelude::*;
use vstd::string::*;

use crate::console::{command_result, run_command, spec_run_command};
use crate::host::{
    ask_done, ask_pick, ask_text, attempt, bind, bold_green, context, cyan, dim, empty, fail,
    failure, fault, green, in_context, line, outcome, plain, red, say, spec_ask_done, spec_ask_pick,
    spec_ask_text, spec_attempt, spec_fault, spec_say, spec_tell, tell, word, words1, words3,
    words5, yellow, Chain, Line, Log, Outcome, Pause, Reply, ReplyView, Request, RequestView,
    SpanView, Step,
};
use crate::text::{lines, lines_of, plus, same, trim, trimmed};
use crate::usb::{
    find_any_device, find_usb_device, id_text, is_device_attached, join_ids, list_usb_devices,
    parse_lsusb_output, parse_usb_devices, spec_find_usb_device, spec_is_device_attached,
    spec_usb_devices, usb_listed, Front, UsbDevice, UsbView,
};

verus! {

// ---------------------------------------------------------------------------
// Which virtual machines run
// ---------------------------------------------------------------------------

/// The command that lists the active virtual machines: those that run, paused
/// ones among them.
pub open spec fn list_active() -> Seq<Seq<char>> {
    seq!["virsh"@, "list"@, "--name"@]
}

/// The command that lists the virtual machines that run and are not paused.
pub open spec fn list_unpaused() -> Seq<Seq<char>> {
    seq!["virsh"@, "list"@, "--state-running"@, "--name"@]
}

/// A line of the output, without the white space around it, is the name.
pub open spec fn lists_vm(output: Seq<char>, vm_name: Seq<char>) -> bool {
    exists|i: int|
        0 <= i < lines_of(output).len() && trimmed(#[trigger] lines_of(output)[i]) == vm_name
}

/// Whether a line of the output, without the white space around it, is the
/// name.
pub fn output_lists_vm(output: &str, vm_name: &str) -> (r: bool)
    ensures
        r == lists_vm(output@, vm_name@),
{
    let all = lines(output);
    let ghost seen = all.deep_view();
    let mut i: usize = 0;
    while i < all.len()
        invariant
            seen == all.deep_view(),
            seen == lines_of(output@),
            i <= all.len(),
            forall|k: int| 0 <= k < i ==> trimmed(#[trigger] seen[k]) != vm_name@,
        decreases all.len() - i,
    {
        assert(seen[i as int] == all@[i as int]@);
        if same(trim(all[i]), vm_name) {
            return true;
        }
        i = i + 1;
    }
    false
}

/// Whether the virtual machine is active: it runs, though it may be paused.
pub open spec fn spec_check_vm_running(log: Log, at: int, vm_name: Seq<char>) -> Outcome<bool> {
    bind(
        spec_run_command(log, at, list_active()),
        |out: Seq<char>, at: int| Outcome::Ready(lists_vm(out, vm_name), at),
    )
}

/// Whether the virtual machine is active: it runs, though it may be paused.
pub fn check_vm_running(log: &Vec<Reply>, at: usize, vm_name: &str) -> (r: Step<bool>)
    ensures
        outcome(r) == spec_check_vm_running(log.deep_view(), at as int, vm_name@),
{
    let (out, at) = run_command(log, at, words3("virsh", "list", "--name"))?;
    Ok((output_lists_vm(out.as_str(), vm_name), at))
}

/// Whether devices can be attached to the virtual machine and detached from it:
/// it runs, and is not paused.
pub open spec fn spec_check_vm_unpaused(log: Log, at: int, vm_name: Seq<char>) -> Outcome<bool> {
    bind(
        spec_run_command(log, at, list_unpaused()),
        |out: Seq<char>, at: int| Outcome::Ready(lists_vm(out, vm_name), at),
    )
}

/// Whether devices can be attached to the virtual machine and detached from it:
/// it runs, and is not paused.
pub fn check_vm_unpaused(log: &Vec<Reply>, at: usize, vm_name: &str) -> (r: Step<bool>)
    ensures
        outcome(r) == spec_check_vm_unpaused(log.deep_view(), at as int, vm_name@),
{
    let args = word(words3("virsh", "list", "--state-running"), "--name");
    assert(args.deep_view() =~= list_unpaused());
    let (out, at) = run_command(log, at, args)?;
    Ok((output_lists_vm(out.as_str(), vm_name), at))
}

/// What is said of a virtual machine that does not run.
pub open spec fn not_running(vm_name: Seq<char>) -> Seq<char> {
    "VM '"@ + vm_name + "' is not running"@
}

/// What is said of a virtual machine that does not run.
pub fn not_running_message(vm_name: &str) -> (r: String)
    ensures
        r@ == not_running(vm_name@),
{
    plus(plus("VM '".to_string(), vm_name), "' is not running")
}

/// The names in the lines of `output`, each without the white space around
/// it, and without the empty ones.
pub open spec fn names_listed(lines: Seq<Seq<char>>) -> Seq<Seq<char>>
    decreases lines.len(),
{
    if lines.len() == 0 {
        seq![]
    } else {
        let before = names_listed(lines.drop_last());
        let name = trimmed(lines.last());
        if name.len() == 0 {
            before
        } else {
            before.push(name)
        }
    }
}

/// The names in the lines of `output`, each without the white space around
/// it, and without the empty ones.
pub fn vm_names_in(output: &str) -> (names: Vec<String>)
    ensures
        names.deep_view() == names_listed(lines_of(output@)),
{
    let all = lines(output);
    let ghost seen = all.deep_view();
    let mut names: Vec<String> = empty();
    let mut i: usize = 0;
    assert(seen.take(0) =~= seq![]);
    while i < all.len()
        invariant
            seen == all.deep_view(),
            i <= all.len(),
            names.deep_view() == names_listed(seen.take(i as int)),
        decreases all.len() - i,
    {
        assert(seen.take(i + 1).drop_last() =~= seen.take(i as int));
        assert(seen.take(i + 1).last() == all@[i as int]@);
        let name = trim(all[i]);
        if !name.is_empty() {
            names = word(names, name);
        }
        i = i + 1;
    }
    assert(seen.take(i as int) =~= seen);
    names
}

/// The names of all virtual machines.
pub open spec fn spec_get_all_vms(log: Log, at: int) -> Outcome<Seq<Seq<char>>> {
    bind(
        spec_run_command(log, at, seq!["virsh"@, "list"@, "--all"@, "--name"@]),
        |out: Seq<char>, at: int| Outcome::Ready(names_listed(lines_of(out)), at),
    )
}

/// The names of all virtual machines.
pub fn get_all_vms(log: &Vec<Reply>, at: usize) -> (r: Step<Vec<String>>)
    ensures
        outcome(r) == spec_get_all_vms(log.deep_view(), at as int),
{
    let args = word(words3("virsh", "list", "--all"), "--name");
    assert(args.deep_view() =~= seq!["virsh"@, "list"@, "--all"@, "--name"@]);
    let (out, at) = run_command(log, at, args)?;
    Ok((vm_names_in(out.as_str()), at))
}

/// The names of the active virtual machines, paused ones among them; none if
/// they cannot be listed.
pub open spec fn spec_active_vms(log: Log, at: int) -> Outcome<Seq<Seq<char>>> {
    bind(
        spec_attempt(spec_run_command(log, at, list_active())),
        |out: Option<Seq<char>>, at: int|
            match out {
                Some(out) => Outcome::Ready(names_listed(lines_of(out)), at),
                None => Outcome::Ready(seq![], at),
            },
    )
}

/// The names of the active virtual machines, paused ones among them; none if
/// they cannot be listed.
pub fn active_vms(log: &Vec<Reply>, at: usize) -> (r: Step<Vec<String>>)
    ensures
        outcome(r) == spec_active_vms(log.deep_view(), at as int),
{
    let (out, at) = attempt(run_command(log, at, words3("virsh", "list", "--name")))?;
    match out {
        Some(out) => Ok((vm_names_in(out.as_str()), at)),
        None => Ok((empty(), at)),
    }
}

// ---------------------------------------------------------------------------
// The last used virtual machine
// ---------------------------------------------------------------------------

/// A file in a directory.
pub open spec fn path_in(dir: Seq<char>, name: Seq<char>) -> Seq<char> {
    if dir.len() == 0 || dir.last() == '/' {
        dir + name
    } else {
        dir + "/"@ + name
    }
}

/// A file in a directory.
pub fn join_path(dir: &str, name: &str) -> (r: String)
    ensures
        r@ == path_in(dir@, name@),
{
    let n: usize = dir.unicode_len();
    if n == 0 || dir.get_char(n - 1) == '/' {
        plus(dir.to_string(), name)
    } else {
        plus(plus(dir.to_string(), "/"), name)
    }
}

/// The file that remembers the last used virtual machine.
pub open spec fn spec_get_config_file(log: Log, at: int) -> Outcome<Seq<char>> {
    bind(
        spec_ask_text(log, at, RequestView::ConfigDir),
        |dir: Seq<char>, at: int| Outcome::Ready(path_in(dir, "last_vm"@), at),
    )
}

/// The file that remembers the last used virtual machine.
pub fn get_config_file(log: &Vec<Reply>, at: usize) -> (r: Step<String>)
    ensures
        outcome(r) == spec_get_config_file(log.deep_view(), at as int),
{
    let (dir, at) = ask_text(log, at, Request::ConfigDir)?;
    Ok((join_path(dir.as_str(), "last_vm"), at))
}

/// Remembers the virtual machine as the last used one.
pub open spec fn spec_save_last_vm(log: Log, at: int, vm: Seq<char>) -> Outcome<()> {
    bind(
        spec_get_config_file(log, at),
        |file: Seq<char>, at: int| spec_ask_done(log, at, RequestView::Write(file, vm)),
    )
}

/// Remembers the virtual machine as the last used one.
pub fn save_last_vm(log: &Vec<Reply>, at: usize, vm: &str) -> (r: Step<()>)
    ensures
        outcome(r) == spec_save_last_vm(log.deep_view(), at as int, vm@),
{
    let (file, at) = get_config_file(log, at)?;
    ask_done(log, at, Request::Write(file, vm.to_string()))
}

/// The last used virtual machine.
pub open spec fn spec_read_last_vm(log: Log, at: int) -> Outcome<Seq<char>> {
    bind(
        spec_get_config_file(log, at),
        |file: Seq<char>, at: int| spec_ask_text(log, at, RequestView::Read(file)),
    )
}

/// The last used virtual machine.
fn read_last_vm(log: &Vec<Reply>, at: usize) -> (r: Step<String>)
    ensures
        outcome(r) == spec_read_last_vm(log.deep_view(), at as int),
{
    let (file, at) = get_config_file(log, at)?;
    ask_text(log, at, Request::Read(file))
}

/// The last used virtual machine, if one is remembered.
pub open spec fn spec_load_last_vm(log: Log, at: int) -> Outcome<Option<Seq<char>>> {
    spec_attempt(spec_read_last_vm(log, at))
}

/// The last used virtual machine, if one is remembered.
pub fn load_last_vm(log: &Vec<Reply>, at: usize) -> (r: Step<Option<String>>)
    ensures
        outcome(r) == spec_load_last_vm(log.deep_view(), at as int),
{
    attempt(read_last_vm(log, at))
}

/// The first position, from `i` on, at which `name` stands among `names`.
pub open spec fn position_from(names: Seq<Seq<char>>, name: Seq<char>, i: int) -> Option<int>
    decreases names.len() - i,
{
    if i >= names.len() {
        None
    } else if names[i] == name {
        Some(i)
    } else {
        position_from(names, name, i + 1)
    }
}

/// The option offered first: the last used virtual machine if it is among
/// those listed, otherwise the first one.
pub open spec fn default_index(vms: Seq<Seq<char>>, last: Option<Seq<char>>) -> int {
    match last {
        Some(vm) => match position_from(vms, vm, 0) {
            Some(i) => i,
            None => 0,
        },
        None => 0,
    }
}

/// The option offered first: the last used virtual machine if it is among
/// those listed, otherwise the first one.
pub fn starting_option(vms: &Vec<String>, last: &Option<String>) -> (r: usize)
    ensures
        r == default_index(vms.deep_view(), last.deep_view()),
{
    match last {
        Some(vm) => {
            let mut i: usize = 0;
            assert(last.deep_view() == Some(vm@));
            while i < vms.len()
                invariant
                    last.deep_view() == Some(vm@),
                    i <= vms.len(),
                    position_from(vms.deep_view(), vm@, i as int) == position_from(
                        vms.deep_view(),
                        vm@,
                        0,
                    ),
                decreases vms.len() - i,
            {
                assert(vms.deep_view()[i as int] == vms@[i as int]@);
                if same(vms[i].as_str(), vm.as_str()) {
                    return i;
                }
                i = i + 1;
            }
            0
        },
        None => 0,
    }
}

/// Names as options.
pub open spec fn plain_lines(names: Seq<Seq<char>>) -> Seq<Seq<SpanView>> {
    Seq::new(names.len(), |i: int| line().push(plain(names[i])))
}

/// Names as options.
pub fn lines_of_names(names: &Vec<String>) -> (r: Vec<Line>)
    ensures
        r.deep_view() == plain_lines(names.deep_view()),
{
    let mut r: Vec<Line> = Vec::new();
    let mut i: usize = 0;
    while i < names.len()
        invariant
            i <= names.len(),
            r.len() == i,
            forall|k: int|
                0 <= k < i ==> (#[trigger] r@[k]).deep_view() == line().push(plain(names@[k]@)),
        decreases names.len() - i,
    {
        r.push(Line::new().plain(names[i].as_str()));
        i = i + 1;
    }
    assert(r.deep_view() =~= plain_lines(names.deep_view()));
    r
}

/// Has the user select a virtual machine, the last used one offered first.
pub open spec fn spec_select_vm(log: Log, at: int) -> Outcome<Seq<char>> {
    bind(
        spec_get_all_vms(log, at),
        |vms: Seq<Seq<char>>, at: int|
            if vms.len() == 0 {
                failure(at, "No VMs found"@)
            } else {
                bind(
                    spec_load_last_vm(log, at),
                    |last: Option<Seq<char>>, at: int|
                        bind(
                            in_context(
                                spec_ask_pick(
                                    log,
                                    at,
                                    RequestView::Choose(
                                        line().push(cyan("🖥"@)).push(plain(" Select a VM"@)),
                                        plain_lines(vms),
                                        default_index(vms, last),
                                    ),
                                ),
                                "Failed to select VM"@,
                            ),
                            |i: int, at: int|
                                if 0 <= i < vms.len() {
                                    Outcome::Ready(vms[i], at)
                                } else {
                                    failure(at, "Failed to select VM"@)
                                },
                        ),
                )
            },
    )
}

/// Has the user select a virtual machine, the last used one offered first.
pub fn select_vm(log: &Vec<Reply>, at: usize) -> (r: Step<String>)
    ensures
        outcome(r) == spec_select_vm(log.deep_view(), at as int),
{
    let (vms, at) = get_all_vms(log, at)?;
    if vms.len() == 0 {
        return fail(at, "No VMs found");
    }
    let (last, at) = load_last_vm(log, at)?;
    let start: usize = starting_option(&vms, &last);
    let prompt = Line::new().cyan("🖥").plain(" Select a VM");
    let (pick, at) = context(
        ask_pick(log, at, Request::Choose(prompt, lines_of_names(&vms), start)),
        "Failed to select VM",
    )?;
    if pick.index < vms.len() {
        Ok((vms[pick.index].clone(), at))
    } else {
        fail(at, "Failed to select VM")
    }
}

// ---------------------------------------------------------------------------
// Handing a device over
// ---------------------------------------------------------------------------

/// The definition of a USB host device.
pub open spec fn hostdev_xml(vendor_id: Seq<char>, product_id: Seq<char>) -> Seq<char> {
    "<hostdev mode='subsystem' type='usb' managed='yes'>\n  <source>\n    <vendor id='0x"@
        + vendor_id + "'/>\n    <product id='0x"@ + product_id
        + "'/>\n  </source>\n</hostdev>\n"@
}

/// The definition of a USB host device.
pub fn build_hostdev_xml(vendor_id: &str, product_id: &str) -> (r: String)
    ensures
        r@ == hostdev_xml(vendor_id@, product_id@),
{
    plus(
        plus(
            plus(
                plus(
                    "<hostdev mode='subsystem' type='usb' managed='yes'>\n  <source>\n    <vendor id='0x".to_string(),
                    vendor_id,
                ),
                "'/>\n    <product id='0x",
            ),
            product_id,
        ),
        "'/>\n  </source>\n</hostdev>\n",
    )
}

/// The command that changes the devices of a running virtual machine.
pub open spec fn device_command(
    verb: Seq<char>,
    vm_name: Seq<char>,
    file: Seq<char>,
) -> Seq<Seq<char>> {
    seq!["virsh"@, verb, vm_name, file, "--live"@]
}

/// Writes a definition to a temporary file and gives that to `virsh`; the file
/// is removed whatever comes of it.
pub open spec fn spec_hand_over(
    log: Log,
    at: int,
    verb: Seq<char>,
    vm_name: Seq<char>,
    file: Seq<char>,
    xml: Seq<char>,
) -> Outcome<()> {
    bind(
        in_context(
            spec_ask_done(log, at, RequestView::Write(file, xml)),
            "Failed to write temporary XML file"@,
        ),
        |_done: (), at: int|
            bind(
                spec_fault(spec_run_command(log, at, device_command(verb, vm_name, file))),
                |fault: Option<Chain>, at: int|
                    bind(
                        spec_tell(log, at, RequestView::Remove(file)),
                        |_done: (), at: int|
                            match fault {
                                Some(c) => Outcome::Fail(c, at),
                                None => Outcome::Ready((), at),
                            },
                    ),
            ),
    )
}

/// Writes a definition to a temporary file and gives that to `virsh`; the file
/// is removed whatever comes of it.
pub fn hand_over(
    log: &Vec<Reply>,
    at: usize,
    verb: &str,
    vm_name: &str,
    file: &str,
    xml: String,
) -> (r: Step<()>)
    ensures
        outcome(r) == spec_hand_over(
            log.deep_view(),
            at as int,
            verb@,
            vm_name@,
            file@,
            xml@,
        ),
{
    let (_, at) = context(
        ask_done(log, at, Request::Write(file.to_string(), xml)),
        "Failed to write temporary XML file",
    )?;
    let (fault, at) = fault(
        run_command(log, at, words5("virsh", verb, vm_name, file, "--live")),
    )?;
    let (_, at) = tell(log, at, Request::Remove(file.to_string()))?;
    match fault {
        Some(c) => Err(Pause::Fail(c, at)),
        None => Ok(((), at)),
    }
}

/// The first device, from `i` on, with the given ids.
pub open spec fn device_from(
    devices: Seq<UsbView>,
    vendor_id: Seq<char>,
    product_id: Seq<char>,
    i: int,
) -> Option<UsbView>
    decreases devices.len() - i,
{
    if i >= devices.len() {
        None
    } else if devices[i].vendor_id == vendor_id && devices[i].product_id == product_id {
        Some(devices[i])
    } else {
        device_from(devices, vendor_id, product_id, i + 1)
    }
}

/// The first device with the given ids.
pub open spec fn device_with(
    devices: Seq<UsbView>,
    vendor_id: Seq<char>,
    product_id: Seq<char>,
) -> Option<UsbView> {
    device_from(devices, vendor_id, product_id, 0)
}

/// The first device with the given ids.
pub fn find_by_ids(devices: &Vec<UsbDevice>, vendor_id: &str, product_id: &str) -> (r: Option<
    UsbDevice,
>)
    ensures
        r.deep_view() == device_with(devices.deep_view(), vendor_id@, product_id@),
{
    let mut i: usize = 0;
    while i < devices.len()
        invariant
            i <= devices.len(),
            device_from(devices.deep_view(), vendor_id@, product_id@, i as int) == device_with(
                devices.deep_view(),
                vendor_id@,
                product_id@,
            ),
        decreases devices.len() - i,
    {
        assert(devices.deep_view()[i as int] == devices@[i as int].deep_view());
        if same(devices[i].vendor_id.as_str(), vendor_id) && same(
            devices[i].product_id.as_str(),
            product_id,
        ) {
            return Some(devices[i].copy());
        }
        i = i + 1;
    }
    None
}

/// The name of the first device with the given ids.
pub open spec fn name_with(
    devices: Seq<UsbView>,
    vendor_id: Seq<char>,
    product_id: Seq<char>,
) -> Seq<char> {
    match device_with(devices, vendor_id, product_id) {
        Some(d) => d.name,
        None => "Unknown Device"@,
    }
}

/// The name of the first device with the given ids.
pub fn device_name(devices: &Vec<UsbDevice>, vendor_id: &str, product_id: &str) -> (r: String)
    ensures
        r@ == name_with(devices.deep_view(), vendor_id@, product_id@),
{
    match find_by_ids(devices, vendor_id, product_id) {
        Some(d) => d.name,
        None => "Unknown Device".to_string(),
    }
}

/// Ids in brackets.
pub open spec fn bracketed(vendor_id: Seq<char>, product_id: Seq<char>) -> Seq<char> {
    "("@ + id_text(vendor_id, product_id) + ")"@
}

/// Ids in brackets.
pub fn in_brackets(vendor_id: &str, product_id: &str) -> (r: String)
    ensures
        r@ == bracketed(vendor_id@, product_id@),
{
    plus(plus("(".to_string(), join_ids(vendor_id, product_id).as_str()), ")")
}

/// What is said when a device has been handed over or taken back.
pub open spec fn handed_line(
    deed: Seq<char>,
    name: Seq<char>,
    vendor_id: Seq<char>,
    product_id: Seq<char>,
    towards: Seq<char>,
    vm_name: Seq<char>,
) -> Seq<SpanView> {
    line().push(bold_green("✓"@)).push(plain(deed)).push(cyan(name)).push(plain(" "@)).push(
        dim(bracketed(vendor_id, product_id)),
    ).push(plain(towards)).push(yellow(vm_name))
}

fn build_handed_line(
    deed: &str,
    name: &str,
    vendor_id: &str,
    product_id: &str,
    towards: &str,
    vm_name: &str,
) -> (r: Line)
    ensures
        r.deep_view() == handed_line(deed@, name@, vendor_id@, product_id@, towards@, vm_name@),
{
    Line::new().bold_green("✓").plain(deed).cyan(name).plain(" ").dim(
        in_brackets(vendor_id, product_id).as_str(),
    ).plain(towards).yellow(vm_name)
}

/// What is said when the host does not have the device.
pub open spec fn not_connected(vendor_id: Seq<char>, product_id: Seq<char>) -> Seq<char> {
    "USB device "@ + id_text(vendor_id, product_id)
        + " not found\nMake sure the USB device is connected"@
}

/// Attaches the host's device with the given ids to a running virtual machine,
/// unless it is attached already.
pub open spec fn spec_attach_device(
    front: Front,
    log: Log,
    at: int,
    vm_name: Seq<char>,
    vendor_id: Seq<char>,
    product_id: Seq<char>,
) -> Outcome<()> {
    bind(
        spec_check_vm_unpaused(log, at, vm_name),
        |running: bool, at: int|
            if !running {
                failure(at, not_running(vm_name))
            } else {
                bind(
                    spec_is_device_attached(log, at, vm_name, vendor_id, product_id),
                    |attached: bool, at: int|
                        if attached {
                            spec_say(
                                log,
                                at,
                                line().push(plain("Device is already attached to "@ + vm_name)),
                            )
                        } else {
                            spec_attach_listed(front, log, at, vm_name, vendor_id, product_id)
                        },
                )
            },
    )
}

/// Attaches the host's device with the given ids, if the host has it.
pub open spec fn spec_attach_listed(
    front: Front,
    log: Log,
    at: int,
    vm_name: Seq<char>,
    vendor_id: Seq<char>,
    product_id: Seq<char>,
) -> Outcome<()> {
    bind(
        spec_usb_devices(log, at, front.hubs()),
        |devices: Seq<UsbView>, at: int|
            match device_with(devices, vendor_id, product_id) {
                None => failure(at, not_connected(vendor_id, product_id)),
                Some(d) => bind(
                    spec_hand_over(
                        log,
                        at,
                        "attach-device"@,
                        vm_name,
                        "/tmp/virsh-usb-attach.xml"@,
                        hostdev_xml(vendor_id, product_id),
                    ),
                    |_done: (), at: int|
                        spec_say(
                            log,
                            at,
                            handed_line(
                                " Successfully attached "@,
                                d.name,
                                vendor_id,
                                product_id,
                                " to "@,
                                vm_name,
                            ),
                        ),
                ),
            },
    )
}

/// Attaches the host's device with the given ids to a running virtual machine,
/// unless it is attached already.
pub fn attach_device(
    front: Front,
    log: &Vec<Reply>,
    at: usize,
    vm_name: &str,
    vendor_id: &str,
    product_id: &str,
) -> (r: Step<()>)
    ensures
        outcome(r) == spec_attach_device(
            front,
            log.deep_view(),
            at as int,
            vm_name@,
            vendor_id@,
            product_id@,
        ),
{
    let (running, at) = check_vm_unpaused(log, at, vm_name)?;
    if !running {
        return fail(at, not_running_message(vm_name).as_str());
    }
    let (attached, at) = is_device_attached(log, at, vm_name, vendor_id, product_id)?;
    if attached {
        return say(
            log,
            at,
            Line::new().plain(plus("Device is already attached to ".to_string(), vm_name).as_str()),
        );
    }
    let (devices, at) = list_usb_devices(log, at, front.shows_hubs())?;
    match find_by_ids(&devices, vendor_id, product_id) {
        None => fail(
            at,
            plus(
                plus("USB device ".to_string(), join_ids(vendor_id, product_id).as_str()),
                " not found\nMake sure the USB device is connected",
            ).as_str(),
        ),
        Some(d) => {
            let (_, at) = hand_over(
                log,
                at,
                "attach-device",
                vm_name,
                "/tmp/virsh-usb-attach.xml",
                build_hostdev_xml(vendor_id, product_id),
            )?;
            say(
                log,
                at,
                build_handed_line(
                    " Successfully attached ",
                    d.name.as_str(),
                    vendor_id,
                    product_id,
                    " to ",
                    vm_name,
                ),
            )
        },
    }
}

/// Detaches the device with the given ids from a running virtual machine, if
/// it is attached.
pub open spec fn spec_detach_device(
    front: Front,
    log: Log,
    at: int,
    vm_name: Seq<char>,
    vendor_id: Seq<char>,
    product_id: Seq<char>,
) -> Outcome<()> {
    bind(
        spec_check_vm_unpaused(log, at, vm_name),
        |running: bool, at: int|
            if !running {
                failure(at, not_running(vm_name))
            } else {
                bind(
                    spec_is_device_attached(log, at, vm_name, vendor_id, product_id),
                    |attached: bool, at: int|
                        if !attached {
                            spec_say(
                                log,
                                at,
                                line().push(plain("Device is not attached to "@ + vm_name)),
                            )
                        } else {
                            spec_detach_listed(front, log, at, vm_name, vendor_id, product_id)
                        },
                )
            },
    )
}

/// Detaches the device with the given ids.
pub open spec fn spec_detach_listed(
    front: Front,
    log: Log,
    at: int,
    vm_name: Seq<char>,
    vendor_id: Seq<char>,
    product_id: Seq<char>,
) -> Outcome<()> {
    bind(
        spec_usb_devices(log, at, front.hubs()),
        |devices: Seq<UsbView>, at: int|
            bind(
                spec_hand_over(
                    log,
                    at,
                    "detach-device"@,
                    vm_name,
                    "/tmp/virsh-usb-detach.xml"@,
                    hostdev_xml(vendor_id, product_id),
                ),
                |_done: (), at: int|
                    spec_say(
                        log,
                        at,
                        handed_line(
                            " Successfully detached "@,
                            name_with(devices, vendor_id, product_id),
                            vendor_id,
                            product_id,
                            " from "@,
                            vm_name,
                        ),
                    ),
            ),
    )
}

/// Detaches the device with the given ids from a running virtual machine, if
/// it is attached.
pub fn detach_device(
    front: Front,
    log: &Vec<Reply>,
    at: usize,
    vm_name: &str,
    vendor_id: &str,
    product_id: &str,
) -> (r: Step<()>)
    ensures
        outcome(r) == spec_detach_device(
            front,
            log.deep_view(),
            at as int,
            vm_name@,
            vendor_id@,
            product_id@,
        ),
{
    let (running, at) = check_vm_unpaused(log, at, vm_name)?;
    if !running {
        return fail(at, not_running_message(vm_name).as_str());
    }
    let (attached, at) = is_device_attached(log, at, vm_name, vendor_id, product_id)?;
    if !attached {
        return say(
            log,
            at,
            Line::new().plain(plus("Device is not attached to ".to_string(), vm_name).as_str()),
        );
    }
    let (devices, at) = list_usb_devices(log, at, front.shows_hubs())?;
    let name = device_name(&devices, vendor_id, product_id);
    let (_, at) = hand_over(
        log,
        at,
        "detach-device",
        vm_name,
        "/tmp/virsh-usb-detach.xml",
        build_hostdev_xml(vendor_id, product_id),
    )?;
    say(
        log,
        at,
        build_handed_line(
            " Successfully detached ",
            name.as_str(),
            vendor_id,
            product_id,
            " from ",
            vm_name,
        ),
    )
}

// ---------------------------------------------------------------------------
// Status
// ---------------------------------------------------------------------------

/// What is said of a virtual machine's state.
pub open spec fn vm_line(vm_name: Seq<char>, running: bool) -> Seq<SpanView> {
    line().push(cyan("🖥"@)).push(plain(" VM ("@)).push(yellow(vm_name)).push(plain("): "@)).push(
        if running {
            green("Running"@)
        } else {
            red("Not running"@)
        },
    )
}

/// What is said of a virtual machine's state.
pub fn build_vm_line(vm_name: &str, running: bool) -> (r: Line)
    ensures
        r.deep_view() == vm_line(vm_name@, running),
{
    let start = Line::new().cyan("🖥").plain(" VM (").yellow(vm_name).plain("): ");
    if running {
        start.green("Running")
    } else {
        start.red("Not running")
    }
}

/// What is said of a device's attachment.
pub open spec fn attachment_line(attached: bool) -> Seq<SpanView> {
    line().push(cyan("🔗"@)).push(plain(" Attachment Status: "@)).push(
        if attached {
            green("Attached to VM"@)
        } else {
            yellow("Not attached to VM"@)
        },
    )
}

/// What is said of a device's attachment.
pub fn build_attachment_line(attached: bool) -> (r: Line)
    ensures
        r.deep_view() == attachment_line(attached),
{
    let start = Line::new().cyan("🔗").plain(" Attachment Status: ");
    if attached {
        start.green("Attached to VM")
    } else {
        start.yellow("Not attached to VM")
    }
}

/// What is said of a device's connection to the host.
pub open spec fn connection_line(
    name: Seq<char>,
    vendor_id: Seq<char>,
    product_id: Seq<char>,
    place: Option<(Seq<char>, Seq<char>)>,
) -> Seq<SpanView> {
    let start = line().push(cyan("🔌"@)).push(plain(" "@)).push(cyan(name)).push(plain(" "@)).push(
        dim(bracketed(vendor_id, product_id)),
    ).push(plain(": "@));
    match place {
        Some((bus, device)) => start.push(green("Connected"@)).push(
            plain(" (Bus "@ + bus + " Device "@ + device + ")"@),
        ),
        None => start.push(red("Not found"@)),
    }
}

fn build_connection_line(
    name: &str,
    vendor_id: &str,
    product_id: &str,
    place: Option<(String, String)>,
) -> (r: Line)
    ensures
        r.deep_view() == connection_line(name@, vendor_id@, product_id@, place.deep_view()),
{
    let start = Line::new().cyan("🔌").plain(" ").cyan(name).plain(" ").dim(
        in_brackets(vendor_id, product_id).as_str(),
    ).plain(": ");
    match place {
        Some((bus, device)) => start.green("Connected").plain(
            plus(
                plus(plus(plus(" (Bus ".to_string(), bus.as_str()), " Device "), device.as_str()),
                ")",
            ).as_str(),
        ),
        None => start.red("Not found"),
    }
}

/// Tells of the virtual machine, of the device, and, if the former runs, of
/// the latter's attachment.
pub open spec fn spec_show_status(
    front: Front,
    log: Log,
    at: int,
    vm_name: Seq<char>,
    vendor_id: Seq<char>,
    product_id: Seq<char>,
) -> Outcome<()> {
    bind(
        spec_check_vm_running(log, at, vm_name),
        |running: bool, at: int|
            bind(
                spec_say(log, at, vm_line(vm_name, running)),
                |_done: (), at: int|
                    bind(
                        spec_attempt(spec_run_command(log, at, seq!["lsusb"@])),
                        |out: Option<Seq<char>>, at: int|
                            {
                                let devices = match out {
                                    Some(out) => usb_listed(lines_of(out), front.hubs()),
                                    None => seq![],
                                };
                                let name = name_with(devices, vendor_id, product_id);
                                spec_show_device(
                                    front,
                                    log,
                                    at,
                                    vm_name,
                                    vendor_id,
                                    product_id,
                                    running,
                                    name,
                                )
                            },
                    ),
            ),
    )
}

/// Tells of the device, and, if the virtual machine runs, of its attachment.
pub open spec fn spec_show_device(
    front: Front,
    log: Log,
    at: int,
    vm_name: Seq<char>,
    vendor_id: Seq<char>,
    product_id: Seq<char>,
    running: bool,
    name: Seq<char>,
) -> Outcome<()> {
    bind(
        spec_find_usb_device(log, at, vendor_id, product_id, front.hubs()),
        |place: Option<(Seq<char>, Seq<char>)>, at: int|
            bind(
                spec_say(log, at, connection_line(name, vendor_id, product_id, place)),
                |_done: (), at: int|
                    if running {
                        bind(
                            spec_is_device_attached(log, at, vm_name, vendor_id, product_id),
                            |attached: bool, at: int|
                                spec_say(log, at, attachment_line(attached)),
                        )
                    } else {
                        Outcome::Ready((), at)
                    },
            ),
    )
}

/// Tells of the virtual machine, of the device, and, if the former runs, of
/// the latter's attachment.
pub fn show_status(
    front: Front,
    log: &Vec<Reply>,
    at: usize,
    vm_name: &str,
    vendor_id: &str,
    product_id: &str,
) -> (r: Step<()>)
    ensures
        outcome(r) == spec_show_status(
            front,
            log.deep_view(),
            at as int,
            vm_name@,
            vendor_id@,
            product_id@,
        ),
{
    let (running, at) = check_vm_running(log, at, vm_name)?;
    let (_, at) = say(log, at, build_vm_line(vm_name, running))?;
    let (out, at) = attempt(run_command(log, at, words1("lsusb")))?;
    let devices = match out {
        Some(out) => match front {
            Front::Console => parse_lsusb_output(out.as_str()),
            Front::Tool => parse_usb_devices(out.as_str()),
        },
        None => empty(),
    };
    let name = device_name(&devices, vendor_id, product_id);
    let (place, at) = match front {
        Front::Console => find_usb_device(log, at, vendor_id, product_id)?,
        Front::Tool => find_any_device(log, at, vendor_id, product_id)?,
    };
    let (_, at) = say(
        log,
        at,
        build_connection_line(name.as_str(), vendor_id, product_id, place),
    )?;
    if running {
        let (attached, at) = is_device_attached(log, at, vm_name, vendor_id, product_id)?;
        say(log, at, build_attachment_line(attached))
    } else {
        Ok(((), at))
    }
}

// ---------------------------------------------------------------------------
// Laws
// ---------------------------------------------------------------------------

/// The host is asked to attach a device only after the virtual machine was
/// found to run and not to have the device, the device was found on the host,
/// and its definition was written.
pub proof fn law_attach_only_when_free(
    front: Front,
    log: Log,
    at: int,
    vm_name: Seq<char>,
    vendor_id: Seq<char>,
    product_id: Seq<char>,
)
    requires
        0 <= at,
        spec_attach_device(front, log, at, vm_name, vendor_id, product_id) == Outcome::<()>::Ask(
            RequestView::Run(
                device_command("attach-device"@, vm_name, "/tmp/virsh-usb-attach.xml"@),
            ),
        ),
    ensures
        spec_check_vm_unpaused(log, at, vm_name) == Outcome::Ready(true, at + 1),
        spec_is_device_attached(log, at + 1, vm_name, vendor_id, product_id) == Outcome::Ready(
            false,
            at + 2,
        ),
        spec_usb_devices(log, at + 2, front.hubs()) matches Outcome::Ready(devices, n) && n == at
            + 3 && device_with(devices, vendor_id, product_id) is Some,
        spec_attach_device(front, log.take(at + 3), at, vm_name, vendor_id, product_id)
            == Outcome::<()>::Ask(
            RequestView::Write(
                "/tmp/virsh-usb-attach.xml"@,
                hostdev_xml(vendor_id, product_id),
            ),
        ),
        log.len() == at + 4,
        !(log[at + 3] is Failed),
{
    let short = log.take(at + 3);
    assert(device_command("attach-device"@, vm_name, "/tmp/virsh-usb-attach.xml"@).len() == 5);
    assert(list_unpaused().len() == 4);
    assert(crate::usb::dumpxml(vm_name).len() == 3);
    assert(seq!["lsusb"@].len() == 1);
    assert(spec_check_vm_unpaused(short, at, vm_name) == spec_check_vm_unpaused(log, at, vm_name));
    assert(spec_is_device_attached(short, at + 1, vm_name, vendor_id, product_id)
        == spec_is_device_attached(log, at + 1, vm_name, vendor_id, product_id));
    assert(spec_usb_devices(short, at + 2, front.hubs()) == spec_usb_devices(
        log,
        at + 2,
        front.hubs(),
    ));
}

/// The host is asked to detach a device only after the virtual machine was
/// found to run and to have the device, and the same definition was written
/// with which the device is attached.
pub proof fn law_detach_only_when_attached(
    front: Front,
    log: Log,
    at: int,
    vm_name: Seq<char>,
    vendor_id: Seq<char>,
    product_id: Seq<char>,
)
    requires
        0 <= at,
        spec_detach_device(front, log, at, vm_name, vendor_id, product_id) == Outcome::<()>::Ask(
            RequestView::Run(
                device_command("detach-device"@, vm_name, "/tmp/virsh-usb-detach.xml"@),
            ),
        ),
    ensures
        spec_check_vm_unpaused(log, at, vm_name) == Outcome::Ready(true, at + 1),
        spec_is_device_attached(log, at + 1, vm_name, vendor_id, product_id) == Outcome::Ready(
            true,
            at + 2,
        ),
        spec_detach_device(front, log.take(at + 3), at, vm_name, vendor_id, product_id)
            == Outcome::<()>::Ask(
            RequestView::Write(
                "/tmp/virsh-usb-detach.xml"@,
                hostdev_xml(vendor_id, product_id),
            ),
        ),
        log.len() == at + 4,
        !(log[at + 3] is Failed),
{
    let short = log.take(at + 3);
    assert(device_command("detach-device"@, vm_name, "/tmp/virsh-usb-detach.xml"@).len() == 5);
    assert(list_unpaused().len() == 4);
    assert(crate::usb::dumpxml(vm_name).len() == 3);
    assert(seq!["lsusb"@].len() == 1);
    assert(spec_check_vm_unpaused(short, at, vm_name) == spec_check_vm_unpaused(log, at, vm_name));
    assert(spec_is_device_attached(short, at + 1, vm_name, vendor_id, product_id)
        == spec_is_device_attached(log, at + 1, vm_name, vendor_id, product_id));
    assert(spec_usb_devices(short, at + 2, front.hubs()) == spec_usb_devices(
        log,
        at + 2,
        front.hubs(),
    ));
}

/// A virtual machine that is not listed among those that run unpaused, because
/// it is paused or stopped, is told of as not running, whether a device is to be
/// attached or detached, and the host is asked for nothing more.
pub proof fn law_stopped_vm_is_refused(
    front: Front,
    log: Log,
    at: int,
    vm_name: Seq<char>,
    vendor_id: Seq<char>,
    product_id: Seq<char>,
)
    requires
        spec_check_vm_unpaused(log, at, vm_name) == Outcome::Ready(false, at + 1),
    ensures
        spec_attach_device(front, log, at, vm_name, vendor_id, product_id) == failure::<()>(
            at + 1,
            not_running(vm_name),
        ),
        spec_detach_device(front, log, at, vm_name, vendor_id, product_id) == failure::<()>(
            at + 1,
            not_running(vm_name),
        ),
{
}

/// A device that is attached already is not attached again, and one that is not
/// attached is not detached: the user is told, and that is all.
pub proof fn law_nothing_to_change(
    front: Front,
    log: Log,
    at: int,
    vm_name: Seq<char>,
    vendor_id: Seq<char>,
    product_id: Seq<char>,
    attached: bool,
)
    requires
        spec_check_vm_unpaused(log, at, vm_name) == Outcome::Ready(true, at + 1),
        spec_is_device_attached(log, at + 1, vm_name, vendor_id, product_id) == Outcome::Ready(
            attached,
            at + 2,
        ),
    ensures
        attached ==> spec_attach_device(front, log, at, vm_name, vendor_id, product_id) == spec_say(
            log,
            at + 2,
            line().push(plain("Device is already attached to "@ + vm_name)),
        ),
        !attached ==> spec_detach_device(front, log, at, vm_name, vendor_id, product_id)
            == spec_say(log, at + 2, line().push(plain("Device is not attached to "@ + vm_name))),
{
}

/// Once the definition of a device has been written and `virsh` has answered,
/// the temporary file is removed next, whatever the answer was; and then the
/// operation ends as the answer says.
pub proof fn law_definition_is_removed(
    log: Log,
    at: int,
    verb: Seq<char>,
    vm_name: Seq<char>,
    file: Seq<char>,
    xml: Seq<char>,
)
    requires
        0 <= at,
        log.len() == at + 3,
        !(log[at] is Failed),
    ensures
        spec_hand_over(log.take(at + 2), at, verb, vm_name, file, xml) == Outcome::<()>::Ask(
            RequestView::Remove(file),
        ),
        spec_hand_over(log, at, verb, vm_name, file, xml) == match command_result(
            device_command(verb, vm_name, file),
            log[at + 1],
        ) {
            Ok(_) => Outcome::Ready((), at + 3),
            Err(c) => Outcome::Fail(c, at + 3),
        },
{
    let short = log.take(at + 2);
    assert(short[at] == log[at] && short[at + 1] == log[at + 1]);
    assert(device_command(verb, vm_name, file).len() == 5);
}

proof fn lemma_position_from(names: Seq<Seq<char>>, name: Seq<char>, i: int)
    requires
        0 <= i,
    ensures
        match position_from(names, name, i) {
            Some(k) => {
                &&& i <= k < names.len()
                &&& names[k] == name
                &&& forall|j: int| i <= j < k ==> #[trigger] names[j] != name
            },
            None => forall|j: int| i <= j < names.len() ==> #[trigger] names[j] != name,
        },
    decreases names.len() - i,
{
    if i < names.len() && names[i] != name {
        lemma_position_from(names, name, i + 1);
    }
}

/// The last used virtual machine is the one offered first whenever it is among
/// those listed; otherwise the first one is.
pub proof fn law_last_vm_offered_first(vms: Seq<Seq<char>>, last: Option<Seq<char>>)
    requires
        vms.len() > 0,
    ensures
        0 <= default_index(vms, last) < vms.len(),
        last matches Some(vm) ==> (vms.contains(vm) ==> vms[default_index(vms, last)] == vm),
        last matches Some(vm) ==> (!vms.contains(vm) ==> default_index(vms, last) == 0),
        last is None ==> default_index(vms, last) == 0,
{
    if let Some(vm) = last {
        lemma_position_from(vms, vm, 0);
    }
}

/// The virtual machine that is remembered is the one that is offered later: the
/// name is written to the file that is read, and what is read there is the
/// last used virtual machine.
pub proof fn law_last_vm_is_read_back(dir: Seq<char>, vm: Seq<char>)
    ensures
        spec_save_last_vm(seq![ReplyView::Text(dir)], 0, vm) == Outcome::<()>::Ask(
            RequestView::Write(path_in(dir, "last_vm"@), vm),
        ),
        spec_load_last_vm(seq![ReplyView::Text(dir)], 0) == Outcome::<Option<Seq<char>>>::Ask(
            RequestView::Read(path_in(dir, "last_vm"@)),
        ),
        spec_load_last_vm(seq![ReplyView::Text(dir), ReplyView::Text(vm)], 0) == Outcome::Ready(
            Some(vm),
            2,
        ),
{
}

/// A virtual machine counts as running exactly if its name is one of those that
/// are listed as running, and those are never empty.
pub proof fn law_running_means_listed(output: Seq<char>, vm_name: Seq<char>)
    requires
        vm_name.len() > 0,
    ensures
        lists_vm(output, vm_name) <==> names_listed(lines_of(output)).contains(vm_name),
        !names_listed(lines_of(output)).contains(seq![]),
{
    lemma_names_listed(lines_of(output), vm_name);
    lemma_names_listed(lines_of(output), seq![]);
}

proof fn lemma_names_listed(lines: Seq<Seq<char>>, name: Seq<char>)
    ensures
        name.len() > 0 ==> (names_listed(lines).contains(name) <==> exists|i: int|
            0 <= i < lines.len() && trimmed(#[trigger] lines[i]) == name),
        name.len() == 0 ==> !names_listed(lines).contains(name),
    decreases lines.len(),
{
    if lines.len() > 0 {
        let before = lines.drop_last();
        let d = names_listed(before);
        let all = names_listed(lines);
        lemma_names_listed(before, name);
        let last = trimmed(lines.last());
        assert(trimmed(lines[lines.len() - 1]) == last);
        assert forall|i: int| 0 <= i < before.len() implies trimmed(#[trigger] before[i])
            == trimmed(lines[i]) by {}
        if last.len() > 0 {
            assert(all =~= d.push(last));
            assert(all.contains(name) <==> d.contains(name) || name == last) by {
                if d.contains(name) {
                    let k = choose|k: int| 0 <= k < d.len() && d[k] == name;
                    assert(all[k] == name);
                }
                if name == last {
                    assert(all[d.len() as int] == name);
                }
                if all.contains(name) && name != last {
                    let k = choose|k: int| 0 <= k < all.len() && all[k] == name;
                    assert(d[k] == name);
                }
            }
        }
        if exists|i: int| 0 <= i < lines.len() && trimmed(#[trigger] lines[i]) == name {
            let i = choose|i: int| 0 <= i < lines.len() && trimmed(#[trigger] lines[i]) == name;
            if i < before.len() {
                assert(trimmed(before[i]) == name);
            }
        }
        if exists|i: int| 0 <= i < before.len() && trimmed(#[trigger] before[i]) == name {
            let i = choose|i: int| 0 <= i < before.len() && trimmed(#[trigger] before[i]) == name;
            assert(trimmed(lines[i]) == name);
        }
    }
}

/// A device is found by both of its ids; of several with the same ids it is the
/// first.
pub proof fn law_device_is_found_by_its_ids(
    devices: Seq<UsbView>,
    vendor_id: Seq<char>,
    product_id: Seq<char>,
)
    ensures
        match device_with(devices, vendor_id, product_id) {
            Some(d) => exists|k: int| {
                &&& 0 <= k < devices.len()
                &&& #[trigger] devices[k] == d
                &&& d.vendor_id == vendor_id
                &&& d.product_id == product_id
                &&& forall|j: int|
                    0 <= j < k ==> (#[trigger] devices[j]).vendor_id != vendor_id
                        || devices[j].product_id != product_id
            },
            None => forall|j: int|
                0 <= j < devices.len() ==> (#[trigger] devices[j]).vendor_id != vendor_id
                    || devices[j].product_id != product_id,
        },
{
    lemma_found_from(devices, vendor_id, product_id, 0);
}

proof fn lemma_found_from(
    devices: Seq<UsbView>,
    vendor_id: Seq<char>,
    product_id: Seq<char>,
    i: int,
)
    requires
        0 <= i,
    ensures
        match device_from(devices, vendor_id, product_id, i) {
            Some(d) => exists|k: int| {
                &&& i <= k < devices.len()
                &&& #[trigger] devices[k] == d
                &&& d.vendor_id == vendor_id
                &&& d.product_id == product_id
                &&& forall|j: int|
                    i <= j < k ==> (#[trigger] devices[j]).vendor_id != vendor_id
                        || devices[j].product_id != product_id
            },
            None => forall|j: int|
                i <= j < devices.len() ==> (#[trigger] devices[j]).vendor_id != vendor_id
                    || devices[j].product_id != product_id,
        },
    decreases devices.len() - i,
{
    if i < devices.len() {
        if devices[i].vendor_id == vendor_id && devices[i].product_id == product_id {
            assert(devices[i] == devices[i]);
        } else {
            lemma_found_from(devices, vendor_id, product_id, i + 1);
        }
    }
}

/// The names in a list keep their order, and each is one line without the white
/// space around it; blank lines count for nothing.
pub proof fn law_names_stand_in_lines(lines: Seq<Seq<char>>, l: Seq<char>)
    ensures
        trimmed(l).len() > 0 ==> names_listed(lines.push(l)) == names_listed(lines).push(
            trimmed(l),
        ),
        trimmed(l).len() == 0 ==> names_listed(lines.push(l)) == names_listed(lines),
        names_listed(seq![]) == Seq::<Seq<char>>::empty(),
{
    assert(lines.push(l).drop_last() =~= lines);
}

/// A file stands in its directory behind one slash.
pub proof fn law_paths(dir: Seq<char>, name: Seq<char>)
    requires
        dir.len() > 0,
    ensures
        dir.last() != '/' ==> path_in(dir, name) == dir + "/"@ + name,
        dir.last() == '/' ==> path_in(dir, name) == dir + name,
{
}

} // verus!
