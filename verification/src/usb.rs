//! The USB devices of the host, as `lsusb` lists them, and those handed to a
//! virtual machine, as its definition lists them.

use vstd::prelude::*;
use vstd::string::*;
use vstd::utf8::*;

use crate::console::{run_command, spec_run_command};
use crate::host::{
    ask_pick, attempt, bind, context, cyan, dim, empty, fail, failure, find_picked, green,
    in_context, line, outcome, picked, plain, spec_ask_pick, spec_attempt, with, words1, words3,
    yellow, Line, Log, Outcome, Reply, Request, RequestView, SpanView, Step,
};
use crate::text::{
    ascii_lower, contains, contains_text, is_hex_digit, is_space, join_from, joined,
    law_pieces_stand_between_separators, lemma_contains_after, lemma_contains_middle,
    lemma_lines_cons, lemma_not_contained, lemma_second_piece, lemma_strip_prefix, lemma_trimmed,
    lemma_two_pieces, lemma_until, lemma_word_occurs, lemma_words_cons, lines, lines_of, lowercased,
    occurs, pieces_of, plus, same, split, strip_all, to_lowercase, trim, trim_end_char,
    trim_end_char_of, trim_start_matches, trimmed, without_cr, words, words_of,
};
use crate::vm::{device_from, device_with, hostdev_xml};

verus! {

// ---------------------------------------------------------------------------
// Devices
// ---------------------------------------------------------------------------

/// A USB device of the host.
#[derive(Debug)]
pub struct UsbDevice {
    pub bus: String,
    pub device: String,
    pub vendor_id: String,
    pub product_id: String,
    pub name: String,
    pub attached: bool,
}

/// A USB device of the host.
pub struct UsbView {
    pub bus: Seq<char>,
    pub device: Seq<char>,
    pub vendor_id: Seq<char>,
    pub product_id: Seq<char>,
    pub name: Seq<char>,
    pub attached: bool,
}

impl DeepView for UsbDevice {
    type V = UsbView;

    open spec fn deep_view(&self) -> UsbView {
        UsbView {
            bus: self.bus@,
            device: self.device@,
            vendor_id: self.vendor_id@,
            product_id: self.product_id@,
            name: self.name@,
            attached: self.attached,
        }
    }
}

/// A vendor and product, as `vendor:product`.
pub open spec fn id_text(vendor_id: Seq<char>, product_id: Seq<char>) -> Seq<char> {
    vendor_id + ":"@ + product_id
}

/// A vendor and product, as `vendor:product`.
pub fn join_ids(vendor_id: &str, product_id: &str) -> (r: String)
    ensures
        r@ == id_text(vendor_id@, product_id@),
{
    plus(plus(vendor_id.to_string(), ":"), product_id)
}

/// Where a device is connected, in brackets.
pub open spec fn place_text(bus: Seq<char>, device: Seq<char>) -> Seq<char> {
    "(Bus "@ + bus + " Device "@ + device + ")"@
}

/// Where a device is connected, in brackets.
pub fn describe_place(bus: &str, device: &str) -> (r: String)
    ensures
        r@ == place_text(bus@, device@),
{
    plus(plus(plus(plus("(Bus ".to_string(), bus), " Device "), device), ")")
}

/// What a list shows of a device after `start`: its ids, its name, where it is
/// connected, and whether it is attached.
pub open spec fn usb_label(start: Seq<SpanView>, d: UsbView) -> Seq<SpanView> {
    let label = start.push(cyan(id_text(d.vendor_id, d.product_id))).push(plain(" - "@)).push(
        plain(d.name),
    ).push(plain(" "@)).push(dim(place_text(d.bus, d.device)));
    if d.attached {
        label.push(plain(" "@)).push(green("[attached]"@))
    } else {
        label
    }
}

impl UsbDevice {
    /// What a list shows of the device after `start`.
    pub fn label_after(&self, start: Line) -> (r: Line)
        ensures
            r.deep_view() == usb_label(start.deep_view(), self.deep_view()),
    {
        let label = start.cyan(
            join_ids(self.vendor_id.as_str(), self.product_id.as_str()).as_str(),
        ).plain(" - ").plain(self.name.as_str()).plain(" ").dim(
            describe_place(self.bus.as_str(), self.device.as_str()).as_str(),
        );
        if self.attached {
            label.plain(" ").green("[attached]")
        } else {
            label
        }
    }

    /// What a list shows of the device.
    pub fn label(&self) -> (r: Line)
        ensures
            r.deep_view() == usb_label(line(), self.deep_view()),
    {
        self.label_after(Line::new())
    }

    /// A device with the same fields.
    pub fn copy(&self) -> (r: UsbDevice)
        ensures
            r.deep_view() == self.deep_view(),
    {
        UsbDevice {
            bus: self.bus.clone(),
            device: self.device.clone(),
            vendor_id: self.vendor_id.clone(),
            product_id: self.product_id.clone(),
            name: self.name.clone(),
            attached: self.attached,
        }
    }
}

// ---------------------------------------------------------------------------
// Reading lsusb
// ---------------------------------------------------------------------------

/// The device in a line of the form `Bus 003 Device 006: ID 0dd4:4105 Name`:
/// the second word is the bus, the fourth, without colons at its end, the
/// device, the sixth the two ids, and the rest the name.
pub open spec fn usb_in_line(line: Seq<char>) -> Option<UsbView> {
    let w = words_of(line);
    if w.len() >= 6 {
        let ids = pieces_of(w[5], ':');
        if ids.len() == 2 {
            Some(
                UsbView {
                    bus: w[1],
                    device: trim_end_char_of(w[3], ':'),
                    vendor_id: ids[0],
                    product_id: ids[1],
                    name: joined(w.skip(6), " "@),
                    attached: false,
                },
            )
        } else {
            None
        }
    } else {
        None
    }
}

/// The device in a line of `lsusb`.
pub fn parse_usb_line(line: &str) -> (r: Option<UsbDevice>)
    ensures
        r.deep_view() == usb_in_line(line@),
{
    let parts = words(line);
    if parts.len() < 6 {
        return None;
    }
    let ids = split(parts[5], ':');
    if ids.len() != 2 {
        return None;
    }
    assert(parts.deep_view()[1] == parts@[1]@);
    assert(parts.deep_view()[3] == parts@[3]@);
    assert(parts.deep_view()[5] == parts@[5]@);
    assert(ids.deep_view()[0] == ids@[0]@);
    assert(ids.deep_view()[1] == ids@[1]@);
    Some(
        UsbDevice {
            bus: parts[1].to_string(),
            device: trim_end_char(parts[3], ':').to_string(),
            vendor_id: ids[0].to_string(),
            product_id: ids[1].to_string(),
            name: join_from(&parts, 6, " "),
            attached: false,
        },
    )
}

/// A text, in lowercase, that tells of a root hub of the system.
pub open spec fn tells_of_hub(lowered: Seq<char>) -> bool {
    contains_text(lowered, "root hub"@) || contains_text(lowered, "linux foundation"@)
}

/// Whether a text, in lowercase, tells of a root hub of the system.
pub fn mentions_hub(lowered: &str) -> (r: bool)
    ensures
        r == tells_of_hub(lowered@),
{
    contains(lowered, "root hub") || contains(lowered, "linux foundation")
}

/// A root hub of the system, by its ids and its name in lowercase.
pub open spec fn hub_by(vendor_id: Seq<char>, product_id: Seq<char>, lowered: Seq<char>) -> bool {
    tells_of_hub(lowered) || (vendor_id == "1d6b"@ && (product_id == "0002"@ || product_id
        == "0003"@))
}

/// Whether ids and a name in lowercase are those of a root hub.
pub fn is_hub(vendor_id: &str, product_id: &str, lowered: &str) -> (r: bool)
    ensures
        r == hub_by(vendor_id@, product_id@, lowered@),
{
    mentions_hub(lowered) || (same(vendor_id, "1d6b") && (same(product_id, "0002") || same(
        product_id,
        "0003",
    )))
}

/// A root hub of the system.
pub open spec fn is_root_hub(d: UsbView) -> bool {
    hub_by(d.vendor_id, d.product_id, lowercased(d.name))
}

/// The devices in the lines of `lsusb`, in order; root hubs only if `hubs`.
pub open spec fn usb_listed(lines: Seq<Seq<char>>, hubs: bool) -> Seq<UsbView>
    decreases lines.len(),
{
    if lines.len() == 0 {
        seq![]
    } else {
        let before = usb_listed(lines.drop_last(), hubs);
        match usb_in_line(lines.last()) {
            Some(d) => if hubs || !is_root_hub(d) {
                before.push(d)
            } else {
                before
            },
            None => before,
        }
    }
}

fn list_devices(output: &str, hubs: bool) -> (devices: Vec<UsbDevice>)
    ensures
        devices.deep_view() == usb_listed(lines_of(output@), hubs),
{
    let all = lines(output);
    let ghost seen = all.deep_view();
    let mut devices: Vec<UsbDevice> = empty();
    let mut i: usize = 0;
    assert(seen.take(0) =~= seq![]);
    while i < all.len()
        invariant
            seen == all.deep_view(),
            i <= all.len(),
            devices.deep_view() == usb_listed(seen.take(i as int), hubs),
        decreases all.len() - i,
    {
        assert(seen.take(i + 1).drop_last() =~= seen.take(i as int));
        assert(seen.take(i + 1).last() == all@[i as int]@);
        match parse_usb_line(all[i]) {
            Some(d) => {
                let lowered = to_lowercase(d.name.as_str());
                if hubs || !is_hub(d.vendor_id.as_str(), d.product_id.as_str(), lowered.as_str()) {
                    devices = with(devices, d);
                }
            },
            None => {},
        }
        i = i + 1;
    }
    assert(seen.take(i as int) =~= seen);
    devices
}

/// The devices that `lsusb` lists, without the system's root hubs.
pub fn parse_lsusb_output(output: &str) -> (devices: Vec<UsbDevice>)
    ensures
        devices.deep_view() == usb_listed(lines_of(output@), false),
{
    list_devices(output, false)
}

/// The devices that `lsusb` lists, the system's root hubs among them.
pub fn parse_usb_devices(output: &str) -> (devices: Vec<UsbDevice>)
    ensures
        devices.deep_view() == usb_listed(lines_of(output@), true),
{
    list_devices(output, true)
}

/// The bus and device in a line of `lsusb`, if the line holds the given ids
/// and, unless `hubs`, does not tell of a root hub.
pub open spec fn place_in_line(
    line: Seq<char>,
    vendor_id: Seq<char>,
    product_id: Seq<char>,
    hubs: bool,
) -> Option<(Seq<char>, Seq<char>)> {
    let w = words_of(line);
    if contains_text(line, id_text(vendor_id, product_id)) && (hubs || !tells_of_hub(
        lowercased(line),
    )) && w.len() >= 4 {
        Some((w[1], trim_end_char_of(w[3], ':')))
    } else {
        None
    }
}

/// The bus and device in the first line, from `i` on, that gives them.
pub open spec fn place_from(
    lines: Seq<Seq<char>>,
    vendor_id: Seq<char>,
    product_id: Seq<char>,
    hubs: bool,
    i: int,
) -> Option<(Seq<char>, Seq<char>)>
    decreases lines.len() - i,
{
    if i >= lines.len() {
        None
    } else {
        match place_in_line(lines[i], vendor_id, product_id, hubs) {
            Some(place) => Some(place),
            None => place_from(lines, vendor_id, product_id, hubs, i + 1),
        }
    }
}

/// The bus and device of the given ids in the output of `lsusb`.
pub open spec fn place_of(
    output: Seq<char>,
    vendor_id: Seq<char>,
    product_id: Seq<char>,
    hubs: bool,
) -> Option<(Seq<char>, Seq<char>)> {
    place_from(lines_of(output), vendor_id, product_id, hubs, 0)
}

fn find_place(output: &str, vendor_id: &str, product_id: &str, hubs: bool) -> (r: Option<
    (String, String),
>)
    ensures
        r.deep_view() == place_of(output@, vendor_id@, product_id@, hubs),
{
    let all = lines(output);
    let id = join_ids(vendor_id, product_id);
    let ghost seen = all.deep_view();
    let mut i: usize = 0;
    while i < all.len()
        invariant
            seen == all.deep_view(),
            seen == lines_of(output@),
            i <= all.len(),
            id@ == id_text(vendor_id@, product_id@),
            place_from(seen, vendor_id@, product_id@, hubs, i as int) == place_of(
                output@,
                vendor_id@,
                product_id@,
                hubs,
            ),
        decreases all.len() - i,
    {
        let line = all[i];
        assert(seen[i as int] == line@);
        if contains(line, id.as_str()) {
            let lowered = to_lowercase(line);
            if hubs || !mentions_hub(lowered.as_str()) {
                let parts = words(line);
                if parts.len() >= 4 {
                    assert(parts.deep_view()[1] == parts@[1]@);
                    assert(parts.deep_view()[3] == parts@[3]@);
                    return Some(
                        (parts[1].to_string(), trim_end_char(parts[3], ':').to_string()),
                    );
                }
            }
        }
        i = i + 1;
    }
    None
}

/// The bus and device of the given ids in the output of `lsusb`, passing over
/// the system's root hubs.
pub fn find_usb_device_in_output(output: &str, vendor_id: &str, product_id: &str) -> (r: Option<
    (String, String),
>)
    ensures
        r.deep_view() == place_of(output@, vendor_id@, product_id@, false),
{
    find_place(output, vendor_id, product_id, false)
}

/// The bus and device of the given ids in the output of `lsusb`.
pub fn find_any_device_in_output(output: &str, vendor_id: &str, product_id: &str) -> (r: Option<
    (String, String),
>)
    ensures
        r.deep_view() == place_of(output@, vendor_id@, product_id@, true),
{
    find_place(output, vendor_id, product_id, true)
}

// ---------------------------------------------------------------------------
// Reading the definition of a virtual machine
// ---------------------------------------------------------------------------

/// The id in a line such as `<vendor id='0x0dd4'/>`: the text between the
/// first two quotes, without `0x` at its start.
pub open spec fn quoted_id(line: Seq<char>) -> Option<Seq<char>> {
    let pieces = pieces_of(line, '\'');
    if pieces.len() > 1 {
        Some(strip_all(pieces[1], "0x"@))
    } else {
        None
    }
}

/// The id in a line such as `<vendor id='0x0dd4'/>`.
pub fn extract_id(line: &str) -> (r: Option<String>)
    ensures
        r.deep_view() == quoted_id(line@),
{
    let pieces = split(line, '\'');
    if pieces.len() > 1 {
        assert(pieces.deep_view()[1] == pieces@[1]@);
        Some(trim_start_matches(pieces[1], "0x").to_string())
    } else {
        None
    }
}

/// How far a definition has been read: whether a USB host device is open, the
/// ids seen in it, and the devices found.
pub struct HostdevScan {
    pub inside: bool,
    pub vendor: Option<Seq<char>>,
    pub product: Option<Seq<char>>,
    pub found: Seq<(Seq<char>, Seq<char>)>,
}

/// Before the first line.
pub open spec fn hostdev_start() -> HostdevScan {
    HostdevScan { inside: false, vendor: None, product: None, found: seq![] }
}

/// One more line, without the white space around it. A USB host device opens;
/// or one ends, and counts if both its ids were seen; or, inside one, an id is
/// read.
pub open spec fn hostdev_line(st: HostdevScan, t: Seq<char>) -> HostdevScan {
    if contains_text(t, "<hostdev"@) && contains_text(t, "usb"@) {
        HostdevScan { inside: true, ..st }
    } else if contains_text(t, "</hostdev>"@) {
        HostdevScan {
            inside: false,
            vendor: None,
            product: None,
            found: if st.inside && st.vendor is Some && st.product is Some {
                st.found.push((st.vendor->0, st.product->0))
            } else {
                st.found
            },
        }
    } else if st.inside && contains_text(t, "<vendor id="@) && quoted_id(t) is Some {
        HostdevScan { vendor: quoted_id(t), ..st }
    } else if st.inside && contains_text(t, "<product id="@) && quoted_id(t) is Some {
        HostdevScan { product: quoted_id(t), ..st }
    } else {
        st
    }
}

/// The given lines read, each without the white space around it.
pub open spec fn hostdev_scan(lines: Seq<Seq<char>>) -> HostdevScan
    decreases lines.len(),
{
    if lines.len() == 0 {
        hostdev_start()
    } else {
        hostdev_line(hostdev_scan(lines.drop_last()), trimmed(lines.last()))
    }
}

/// The vendors and products of the USB host devices in a definition.
pub open spec fn hostdevs_in(xml: Seq<char>) -> Seq<(Seq<char>, Seq<char>)> {
    hostdev_scan(lines_of(xml)).found
}

/// The vendors and products of the USB host devices in a definition.
pub fn attached_devices_in(xml: &str) -> (devices: Vec<(String, String)>)
    ensures
        devices.deep_view() == hostdevs_in(xml@),
{
    let all = lines(xml);
    let ghost seen = all.deep_view();
    let mut devices: Vec<(String, String)> = empty();
    let mut inside: bool = false;
    let mut vendor: Option<String> = None;
    let mut product: Option<String> = None;
    let mut i: usize = 0;
    assert(seen.take(0) =~= seq![]);
    while i < all.len()
        invariant
            seen == all.deep_view(),
            i <= all.len(),
            inside == hostdev_scan(seen.take(i as int)).inside,
            vendor.deep_view() == hostdev_scan(seen.take(i as int)).vendor,
            product.deep_view() == hostdev_scan(seen.take(i as int)).product,
            devices.deep_view() == hostdev_scan(seen.take(i as int)).found,
        decreases all.len() - i,
    {
        assert(seen.take(i + 1).drop_last() =~= seen.take(i as int));
        assert(seen.take(i + 1).last() == all@[i as int]@);
        let t = trim(all[i]);
        if contains(t, "<hostdev") && contains(t, "usb") {
            inside = true;
        } else if contains(t, "</hostdev>") {
            if inside {
                match (&vendor, &product) {
                    (Some(v), Some(p)) => {
                        devices = with(devices, (v.clone(), p.clone()));
                    },
                    _ => {},
                }
            }
            inside = false;
            vendor = None;
            product = None;
        } else if inside {
            let id = extract_id(t);
            if contains(t, "<vendor id=") && id.is_some() {
                vendor = id;
            } else if contains(t, "<product id=") && id.is_some() {
                product = id;
            }
        }
        i = i + 1;
    }
    assert(seen.take(i as int) =~= seen);
    devices
}

/// Whether a list of ids holds the given vendor and product.
pub fn lists_device(devices: &Vec<(String, String)>, vendor_id: &str, product_id: &str) -> (r: bool)
    ensures
        r == devices.deep_view().contains((vendor_id@, product_id@)),
{
    let mut i: usize = 0;
    while i < devices.len()
        invariant
            i <= devices.len(),
            forall|k: int|
                0 <= k < i ==> #[trigger] devices.deep_view()[k] != (vendor_id@, product_id@),
        decreases devices.len() - i,
    {
        assert(devices.deep_view()[i as int] == (devices@[i as int].0@, devices@[i as int].1@));
        if same(devices[i].0.as_str(), vendor_id) && same(devices[i].1.as_str(), product_id) {
            return true;
        }
        i = i + 1;
    }
    false
}

// ---------------------------------------------------------------------------
// Asking the host
// ---------------------------------------------------------------------------

/// The bus and device of the given ids on this host.
pub open spec fn spec_find_usb_device(
    log: Log,
    at: int,
    vendor_id: Seq<char>,
    product_id: Seq<char>,
    hubs: bool,
) -> Outcome<Option<(Seq<char>, Seq<char>)>> {
    bind(
        spec_run_command(log, at, seq!["lsusb"@]),
        |out: Seq<char>, at: int| Outcome::Ready(place_of(out, vendor_id, product_id, hubs), at),
    )
}

/// The bus and device of the given ids on this host, passing over root hubs.
pub fn find_usb_device(log: &Vec<Reply>, at: usize, vendor_id: &str, product_id: &str) -> (r: Step<
    Option<(String, String)>,
>)
    ensures
        outcome(r) == spec_find_usb_device(
            log.deep_view(),
            at as int,
            vendor_id@,
            product_id@,
            false,
        ),
{
    let (out, at) = run_command(log, at, words1("lsusb"))?;
    Ok((find_usb_device_in_output(out.as_str(), vendor_id, product_id), at))
}

/// The bus and device of the given ids on this host.
pub fn find_any_device(log: &Vec<Reply>, at: usize, vendor_id: &str, product_id: &str) -> (r: Step<
    Option<(String, String)>,
>)
    ensures
        outcome(r) == spec_find_usb_device(
            log.deep_view(),
            at as int,
            vendor_id@,
            product_id@,
            true,
        ),
{
    let (out, at) = run_command(log, at, words1("lsusb"))?;
    Ok((find_any_device_in_output(out.as_str(), vendor_id, product_id), at))
}

/// The command that prints the definition of a virtual machine.
pub open spec fn dumpxml(vm_name: Seq<char>) -> Seq<Seq<char>> {
    seq!["virsh"@, "dumpxml"@, vm_name]
}

/// The vendors and products of the host devices of a virtual machine; none if
/// its definition cannot be had.
pub open spec fn spec_get_attached_devices(log: Log, at: int, vm_name: Seq<char>) -> Outcome<
    Seq<(Seq<char>, Seq<char>)>,
> {
    bind(
        spec_attempt(spec_run_command(log, at, dumpxml(vm_name))),
        |xml: Option<Seq<char>>, at: int|
            match xml {
                Some(xml) => Outcome::Ready(hostdevs_in(xml), at),
                None => Outcome::Ready(seq![], at),
            },
    )
}

/// The vendors and products of the host devices of a virtual machine; none if
/// its definition cannot be had.
pub fn get_attached_devices(log: &Vec<Reply>, at: usize, vm_name: &str) -> (r: Step<
    Vec<(String, String)>,
>)
    ensures
        outcome(r) == spec_get_attached_devices(log.deep_view(), at as int, vm_name@),
{
    let (xml, at) = attempt(run_command(log, at, words3("virsh", "dumpxml", vm_name)))?;
    match xml {
        Some(xml) => Ok((attached_devices_in(xml.as_str()), at)),
        None => Ok((empty(), at)),
    }
}

/// Whether a virtual machine has a host device with the given ids.
pub open spec fn spec_is_device_attached(
    log: Log,
    at: int,
    vm_name: Seq<char>,
    vendor_id: Seq<char>,
    product_id: Seq<char>,
) -> Outcome<bool> {
    bind(
        spec_get_attached_devices(log, at, vm_name),
        |devices: Seq<(Seq<char>, Seq<char>)>, at: int|
            Outcome::Ready(devices.contains((vendor_id, product_id)), at),
    )
}

/// Whether a virtual machine has a host device with the given ids.
pub fn is_device_attached(
    log: &Vec<Reply>,
    at: usize,
    vm_name: &str,
    vendor_id: &str,
    product_id: &str,
) -> (r: Step<bool>)
    ensures
        outcome(r) == spec_is_device_attached(
            log.deep_view(),
            at as int,
            vm_name@,
            vendor_id@,
            product_id@,
        ),
{
    let (devices, at) = get_attached_devices(log, at, vm_name)?;
    Ok((lists_device(&devices, vendor_id, product_id), at))
}

/// The USB devices of this host.
pub open spec fn spec_usb_devices(log: Log, at: int, hubs: bool) -> Outcome<Seq<UsbView>> {
    bind(
        spec_run_command(log, at, seq!["lsusb"@]),
        |out: Seq<char>, at: int| Outcome::Ready(usb_listed(lines_of(out), hubs), at),
    )
}

/// The USB devices of this host; root hubs only if `hubs`.
pub fn list_usb_devices(log: &Vec<Reply>, at: usize, hubs: bool) -> (r: Step<Vec<UsbDevice>>)
    ensures
        outcome(r) == spec_usb_devices(log.deep_view(), at as int, hubs),
{
    let (out, at) = run_command(log, at, words1("lsusb"))?;
    Ok((list_devices(out.as_str(), hubs), at))
}

/// The USB devices of this host, without root hubs.
pub fn get_all_usb_devices(log: &Vec<Reply>, at: usize) -> (r: Step<Vec<UsbDevice>>)
    ensures
        outcome(r) == spec_usb_devices(log.deep_view(), at as int, false),
{
    list_usb_devices(log, at, false)
}

// ---------------------------------------------------------------------------
// Choosing a device
// ---------------------------------------------------------------------------

/// Who asks: the console, which deals with physical devices alone and leaves
/// root hubs out, or the tool, which lists every device.
#[derive(Debug, Clone, Copy, PartialEq, Eq, Structural)]
pub enum Front {
    Console,
    Tool,
}

impl Front {
    /// Whether root hubs are listed.
    pub open spec fn hubs(self) -> bool {
        self == Front::Tool
    }

    /// Whether root hubs are listed.
    pub fn shows_hubs(self) -> (r: bool)
        ensures
            r == self.hubs(),
    {
        match self {
            Front::Console => false,
            Front::Tool => true,
        }
    }
}

/// A device, marked as attached if its ids are among `attached`.
pub open spec fn mark(d: UsbView, attached: Seq<(Seq<char>, Seq<char>)>) -> UsbView {
    UsbView { attached: attached.contains((d.vendor_id, d.product_id)), ..d }
}

/// The devices, each marked as attached if its ids are among `attached`.
pub open spec fn marked(devices: Seq<UsbView>, attached: Seq<(Seq<char>, Seq<char>)>) -> Seq<
    UsbView,
> {
    Seq::new(devices.len(), |i: int| mark(devices[i], attached))
}

/// Marks each device as attached if its ids are among `attached`.
pub fn mark_attached(devices: Vec<UsbDevice>, attached: &Vec<(String, String)>) -> (r: Vec<
    UsbDevice,
>)
    ensures
        r.deep_view() == marked(devices.deep_view(), attached.deep_view()),
{
    let mut r: Vec<UsbDevice> = Vec::new();
    let mut i: usize = 0;
    while i < devices.len()
        invariant
            i <= devices.len(),
            r.len() == i,
            forall|k: int|
                0 <= k < i ==> (#[trigger] r@[k]).deep_view() == mark(
                    devices@[k].deep_view(),
                    attached.deep_view(),
                ),
        decreases devices.len() - i,
    {
        let mut d = devices[i].copy();
        d.attached = lists_device(attached, d.vendor_id.as_str(), d.product_id.as_str());
        r.push(d);
        i = i + 1;
    }
    assert(r.deep_view() =~= marked(devices.deep_view(), attached.deep_view()));
    r
}

/// The devices that are attached.
pub open spec fn only_attached(devices: Seq<UsbView>) -> Seq<UsbView>
    decreases devices.len(),
{
    if devices.len() == 0 {
        seq![]
    } else {
        let before = only_attached(devices.drop_last());
        if devices.last().attached {
            before.push(devices.last())
        } else {
            before
        }
    }
}

/// The devices that are attached.
pub fn keep_attached(devices: Vec<UsbDevice>) -> (r: Vec<UsbDevice>)
    ensures
        r.deep_view() == only_attached(devices.deep_view()),
{
    let ghost all = devices.deep_view();
    let mut r: Vec<UsbDevice> = empty();
    let mut i: usize = 0;
    assert(all.take(0) =~= seq![]);
    while i < devices.len()
        invariant
            all == devices.deep_view(),
            i <= devices.len(),
            r.deep_view() == only_attached(all.take(i as int)),
        decreases devices.len() - i,
    {
        assert(all.take(i + 1).drop_last() =~= all.take(i as int));
        assert(all.take(i + 1).last() == devices@[i as int].deep_view());
        if devices[i].attached {
            r = with(r, devices[i].copy());
        }
        i = i + 1;
    }
    assert(all.take(i as int) =~= all);
    r
}

/// The devices marked, and only the attached ones if `filter_attached`.
pub open spec fn shown(
    devices: Seq<UsbView>,
    attached: Seq<(Seq<char>, Seq<char>)>,
    filter_attached: bool,
) -> Seq<UsbView> {
    if filter_attached {
        only_attached(marked(devices, attached))
    } else {
        marked(devices, attached)
    }
}

/// The devices marked, and only the attached ones if `filter_attached`.
pub fn show_devices(
    devices: Vec<UsbDevice>,
    attached: &Vec<(String, String)>,
    filter_attached: bool,
) -> (r: Vec<UsbDevice>)
    ensures
        r.deep_view() == shown(devices.deep_view(), attached.deep_view(), filter_attached),
{
    let all = mark_attached(devices, attached);
    if filter_attached {
        keep_attached(all)
    } else {
        all
    }
}

/// The devices whose name, in lowercase, contains `needle`.
pub open spec fn named(devices: Seq<UsbView>, needle: Seq<char>) -> Seq<UsbView>
    decreases devices.len(),
{
    if devices.len() == 0 {
        seq![]
    } else {
        let before = named(devices.drop_last(), needle);
        if contains_text(lowercased(devices.last().name), needle) {
            before.push(devices.last())
        } else {
            before
        }
    }
}

/// The devices whose name contains `name`, in either case.
pub fn matching_devices(devices: Vec<UsbDevice>, name: &str) -> (r: Vec<UsbDevice>)
    ensures
        r.deep_view() == named(devices.deep_view(), lowercased(name@)),
{
    let needle = to_lowercase(name);
    let ghost all = devices.deep_view();
    let mut r: Vec<UsbDevice> = empty();
    let mut i: usize = 0;
    assert(all.take(0) =~= seq![]);
    while i < devices.len()
        invariant
            needle@ == lowercased(name@),
            all == devices.deep_view(),
            i <= devices.len(),
            r.deep_view() == named(all.take(i as int), needle@),
        decreases devices.len() - i,
    {
        assert(all.take(i + 1).drop_last() =~= all.take(i as int));
        assert(all.take(i + 1).last() == devices@[i as int].deep_view());
        let lowered = to_lowercase(devices[i].name.as_str());
        if contains(lowered.as_str(), needle.as_str()) {
            r = with(r, devices[i].copy());
        }
        i = i + 1;
    }
    assert(all.take(i as int) =~= all);
    r
}

/// How a device is offered.
pub open spec fn offer(front: Front, d: UsbView) -> Seq<SpanView> {
    match front {
        Front::Console => usb_label(line(), d),
        Front::Tool => line().push(
            plain(
                id_text(d.vendor_id, d.product_id) + " - "@ + d.name + " "@ + place_text(
                    d.bus,
                    d.device,
                ),
            ),
        ),
    }
}

/// How the devices are offered.
pub open spec fn offers(front: Front, devices: Seq<UsbView>) -> Seq<Seq<SpanView>> {
    Seq::new(devices.len(), |i: int| offer(front, devices[i]))
}

/// How the devices are offered.
pub fn offer_devices(front: Front, devices: &Vec<UsbDevice>) -> (r: Vec<Line>)
    ensures
        r.deep_view() == offers(front, devices.deep_view()),
{
    let mut r: Vec<Line> = Vec::new();
    let mut i: usize = 0;
    while i < devices.len()
        invariant
            i <= devices.len(),
            r.len() == i,
            forall|k: int|
                0 <= k < i ==> (#[trigger] r@[k]).deep_view() == offer(
                    front,
                    devices@[k].deep_view(),
                ),
        decreases devices.len() - i,
    {
        let d = &devices[i];
        let line = match front {
            Front::Console => d.label(),
            Front::Tool => Line::new().plain(
                plus(
                    plus(
                        plus(
                            plus(
                                join_ids(d.vendor_id.as_str(), d.product_id.as_str()),
                                " - ",
                            ),
                            d.name.as_str(),
                        ),
                        " ",
                    ),
                    describe_place(d.bus.as_str(), d.device.as_str()).as_str(),
                ).as_str(),
            ),
        };
        r.push(line);
        i = i + 1;
    }
    assert(r.deep_view() =~= offers(front, devices.deep_view()));
    r
}

/// The ids of a device.
pub open spec fn ids(d: UsbView) -> (Seq<char>, Seq<char>) {
    (d.vendor_id, d.product_id)
}

/// Has the user pick one of the devices, under the given prompt.
pub open spec fn spec_pick_device(
    front: Front,
    log: Log,
    at: int,
    prompt: Seq<SpanView>,
    devices: Seq<UsbView>,
) -> Outcome<(Seq<char>, Seq<char>)> {
    bind(
        in_context(
            spec_ask_pick(log, at, RequestView::Choose(prompt, offers(front, devices), 0)),
            "Failed to select USB device"@,
        ),
        |i: int, at: int|
            match picked(offers(front, devices), i) {
                Some(k) => Outcome::Ready(ids(devices[k]), at),
                None => failure(at, "Selected device not found"@),
            },
    )
}

fn pick_device(
    front: Front,
    log: &Vec<Reply>,
    at: usize,
    prompt: Line,
    devices: &Vec<UsbDevice>,
) -> (r: Step<(String, String)>)
    ensures
        outcome(r) == spec_pick_device(
            front,
            log.deep_view(),
            at as int,
            prompt.deep_view(),
            devices.deep_view(),
        ),
{
    let options = offer_devices(front, devices);
    let (pick, at) = context(
        ask_pick(log, at, Request::Choose(prompt, offer_devices(front, devices), 0)),
        "Failed to select USB device",
    )?;
    match find_picked(&options, pick.index) {
        Some(k) => Ok(((devices[k].vendor_id.clone(), devices[k].product_id.clone()), at)),
        None => fail(at, "Selected device not found"),
    }
}

/// What is attached to the virtual machine, if one is given.
pub open spec fn spec_attached_to(log: Log, at: int, vm_name: Option<Seq<char>>) -> Outcome<
    Seq<(Seq<char>, Seq<char>)>,
> {
    match vm_name {
        Some(vm) => spec_get_attached_devices(log, at, vm),
        None => Outcome::Ready(seq![], at),
    }
}

/// What is attached to the virtual machine, if one is given.
pub fn attached_to(log: &Vec<Reply>, at: usize, vm_name: Option<&str>) -> (r: Step<
    Vec<(String, String)>,
>)
    ensures
        outcome(r) == spec_attached_to(log.deep_view(), at as int, vm_name.deep_view()),
{
    match vm_name {
        Some(vm) => get_attached_devices(log, at, vm),
        None => Ok((empty(), at)),
    }
}

/// What is said when no device has the name.
pub open spec fn no_match_message(front: Front, name: Seq<char>) -> Seq<char> {
    match front {
        Front::Console => "No USB device found matching name: '"@ + name + "',"@,
        Front::Tool => "No USB device found matching name: '"@ + name + "'"@,
    }
}

/// The prompt when several devices have the name.
pub open spec fn many_match_prompt(name: Seq<char>) -> Seq<SpanView> {
    line().push(cyan("🔌"@)).push(
        plain(" Multiple devices match '"@ + name + "'. Select one"@),
    )
}

/// The ids of the device whose name contains `name`; the user picks if there
/// are several. With `filter_attached` only those attached to the virtual
/// machine count.
pub open spec fn spec_find_device_by_name(
    front: Front,
    log: Log,
    at: int,
    name: Seq<char>,
    vm_name: Option<Seq<char>>,
    filter_attached: bool,
) -> Outcome<(Seq<char>, Seq<char>)> {
    bind(
        spec_usb_devices(log, at, front.hubs()),
        |devices: Seq<UsbView>, at: int|
            bind(
                spec_attached_to(log, at, vm_name),
                |attached: Seq<(Seq<char>, Seq<char>)>, at: int|
                    {
                        let matches = named(
                            shown(devices, attached, filter_attached),
                            lowercased(name),
                        );
                        if matches.len() == 0 {
                            failure(at, no_match_message(front, name))
                        } else if matches.len() == 1 {
                            Outcome::Ready(ids(matches[0]), at)
                        } else {
                            spec_pick_device(front, log, at, many_match_prompt(name), matches)
                        }
                    },
            ),
    )
}

/// The ids of the device whose name contains `name`; the user picks if there
/// are several.
pub fn find_device_by_name(
    front: Front,
    log: &Vec<Reply>,
    at: usize,
    name: &str,
    vm_name: Option<&str>,
    filter_attached: bool,
) -> (r: Step<(String, String)>)
    ensures
        outcome(r) == spec_find_device_by_name(
            front,
            log.deep_view(),
            at as int,
            name@,
            vm_name.deep_view(),
            filter_attached,
        ),
{
    let (devices, at) = list_usb_devices(log, at, front.shows_hubs())?;
    let (attached, at) = attached_to(log, at, vm_name)?;
    let matches = matching_devices(show_devices(devices, &attached, filter_attached), name);
    if matches.len() == 0 {
        let start = plus("No USB device found matching name: '".to_string(), name);
        return match front {
            Front::Console => fail(at, plus(start, "',").as_str()),
            Front::Tool => fail(at, plus(start, "'").as_str()),
        };
    }
    if matches.len() == 1 {
        return Ok(((matches[0].vendor_id.clone(), matches[0].product_id.clone()), at));
    }
    let prompt = Line::new().cyan("🔌").plain(
        plus(plus(" Multiple devices match '".to_string(), name), "'. Select one").as_str(),
    );
    pick_device(front, log, at, prompt, &matches)
}

/// What is said when there is no device to select.
pub open spec fn nothing_to_select(filter_attached: bool) -> Seq<char> {
    if filter_attached {
        "No USB devices are currently attached to the VM"@
    } else {
        "No USB devices found"@
    }
}

/// The prompt for selecting a device.
pub open spec fn select_prompt(filter_attached: bool) -> Seq<SpanView> {
    if filter_attached {
        line().push(yellow("🔌"@)).push(plain(" Select a USB device to detach"@))
    } else {
        line().push(cyan("🔌"@)).push(plain(" Select a USB device"@))
    }
}

/// Has the user select a device; with `filter_attached` one of those attached
/// to the virtual machine.
pub open spec fn spec_select_usb_device(
    log: Log,
    at: int,
    vm_name: Option<Seq<char>>,
    filter_attached: bool,
) -> Outcome<(Seq<char>, Seq<char>)> {
    bind(
        spec_usb_devices(log, at, false),
        |devices: Seq<UsbView>, at: int|
            bind(
                spec_attached_to(log, at, vm_name),
                |attached: Seq<(Seq<char>, Seq<char>)>, at: int|
                    {
                        let offered = shown(devices, attached, filter_attached);
                        if offered.len() == 0 {
                            failure(at, nothing_to_select(filter_attached))
                        } else {
                            spec_pick_device(
                                Front::Console,
                                log,
                                at,
                                select_prompt(filter_attached),
                                offered,
                            )
                        }
                    },
            ),
    )
}

/// Has the user select a device; with `filter_attached` one of those attached
/// to the virtual machine.
pub fn select_usb_device(
    log: &Vec<Reply>,
    at: usize,
    vm_name: Option<&str>,
    filter_attached: bool,
) -> (r: Step<(String, String)>)
    ensures
        outcome(r) == spec_select_usb_device(
            log.deep_view(),
            at as int,
            vm_name.deep_view(),
            filter_attached,
        ),
{
    let (devices, at) = get_all_usb_devices(log, at)?;
    let (attached, at) = attached_to(log, at, vm_name)?;
    let offered = show_devices(devices, &attached, filter_attached);
    if offered.len() == 0 {
        return if filter_attached {
            fail(at, "No USB devices are currently attached to the VM")
        } else {
            fail(at, "No USB devices found")
        };
    }
    let prompt = if filter_attached {
        Line::new().yellow("🔌").plain(" Select a USB device to detach")
    } else {
        Line::new().cyan("🔌").plain(" Select a USB device")
    };
    pick_device(Front::Console, log, at, prompt, &offered)
}

// ---------------------------------------------------------------------------
// Laws
// ---------------------------------------------------------------------------

/// Without root hubs, exactly the devices that are no root hubs are listed, in
/// the same order.
pub proof fn law_root_hubs_not_listed(lines: Seq<Seq<char>>)
    ensures
        usb_listed(lines, false) == usb_listed(lines, true).filter(|d: UsbView| !is_root_hub(d)),
        forall|i: int|
            0 <= i < usb_listed(lines, false).len() ==> !is_root_hub(
                #[trigger] usb_listed(lines, false)[i],
            ),
    decreases lines.len(),
{
    let keep = |d: UsbView| !is_root_hub(d);
    reveal(Seq::filter);
    if lines.len() > 0 {
        let before = lines.drop_last();
        law_root_hubs_not_listed(before);
        if let Some(d) = usb_in_line(lines.last()) {
            let all = usb_listed(before, true);
            assert(all.push(d).drop_last() =~= all);
        }
    }
}

/// A device that is found without root hubs stands in a line that holds its ids
/// and does not tell of a root hub; and passing over root hubs finds nothing
/// that would not be found anyway.
pub proof fn law_root_hubs_not_found(
    output: Seq<char>,
    vendor_id: Seq<char>,
    product_id: Seq<char>,
)
    ensures
        place_of(output, vendor_id, product_id, false) matches Some(place) ==> exists|i: int|
            0 <= i < lines_of(output).len() && !tells_of_hub(
                lowercased(#[trigger] lines_of(output)[i]),
            ) && contains_text(lines_of(output)[i], id_text(vendor_id, product_id)),
        place_of(output, vendor_id, product_id, true) is None ==> place_of(
            output,
            vendor_id,
            product_id,
            false,
        ) is None,
{
    lemma_place_from(lines_of(output), vendor_id, product_id, 0);
}

proof fn lemma_place_from(
    lines: Seq<Seq<char>>,
    vendor_id: Seq<char>,
    product_id: Seq<char>,
    i: int,
)
    requires
        0 <= i,
    ensures
        place_from(lines, vendor_id, product_id, false, i) is Some ==> exists|k: int|
            0 <= k < lines.len() && !tells_of_hub(lowercased(#[trigger] lines[k])) && contains_text(
                lines[k],
                id_text(vendor_id, product_id),
            ),
        place_from(lines, vendor_id, product_id, true, i) is None ==> place_from(
            lines,
            vendor_id,
            product_id,
            false,
            i,
        ) is None,
    decreases lines.len() - i,
{
    if i < lines.len() {
        lemma_place_from(lines, vendor_id, product_id, i + 1);
    }
}

/// Each device that is listed can be found by its ids.
pub proof fn law_listed_device_is_found(output: Seq<char>, i: int)
    requires
        0 <= i < usb_listed(lines_of(output), true).len(),
    ensures
        place_of(
            output,
            usb_listed(lines_of(output), true)[i].vendor_id,
            usb_listed(lines_of(output), true)[i].product_id,
            true,
        ) is Some,
{
    let lines = lines_of(output);
    let d = usb_listed(lines, true)[i];
    lemma_listed_line(lines, i);
    let k = choose|k: int| 0 <= k < lines.len() && usb_in_line(#[trigger] lines[k]) == Some(d);
    let w = words_of(lines[k]);
    lemma_word_occurs(lines[k], 5);
    lemma_two_pieces(w[5], ':');
    reveal_strlit(":");
    assert(id_text(d.vendor_id, d.product_id) =~= w[5]);
    lemma_place_found(lines, d.vendor_id, d.product_id, k, 0);
}

proof fn lemma_listed_line(lines: Seq<Seq<char>>, i: int)
    requires
        0 <= i < usb_listed(lines, true).len(),
    ensures
        exists|k: int|
            0 <= k < lines.len() && usb_in_line(#[trigger] lines[k]) == Some(
                usb_listed(lines, true)[i],
            ),
    decreases lines.len(),
{
    let before = lines.drop_last();
    let d = usb_listed(before, true);
    if i < d.len() {
        lemma_listed_line(before, i);
        let k = choose|k: int|
            0 <= k < before.len() && usb_in_line(#[trigger] before[k]) == Some(d[i]);
        assert(usb_in_line(lines[k]) == Some(d[i]));
    } else {
        assert(usb_in_line(lines[lines.len() - 1]) is Some);
    }
}

proof fn lemma_place_found(
    lines: Seq<Seq<char>>,
    vendor_id: Seq<char>,
    product_id: Seq<char>,
    k: int,
    i: int,
)
    requires
        0 <= i <= k < lines.len(),
        place_in_line(lines[k], vendor_id, product_id, true) is Some,
    ensures
        place_from(lines, vendor_id, product_id, true, i) is Some,
    decreases k - i,
{
    if i < k {
        lemma_place_found(lines, vendor_id, product_id, k, i + 1);
    }
}

/// Only attached devices are shown for detaching.
pub proof fn law_only_attached_shown(
    devices: Seq<UsbView>,
    attached: Seq<(Seq<char>, Seq<char>)>,
    i: int,
)
    requires
        0 <= i < shown(devices, attached, true).len(),
    ensures
        attached.contains(ids(shown(devices, attached, true)[i])),
        shown(devices, attached, true)[i].attached,
{
    lemma_only_attached(marked(devices, attached), i);
}

/// What is kept of a list because it is attached stands in that list.
pub proof fn lemma_only_attached(devices: Seq<UsbView>, i: int)
    requires
        0 <= i < only_attached(devices).len(),
    ensures
        only_attached(devices)[i].attached,
        devices.contains(only_attached(devices)[i]),
    decreases devices.len(),
{
    let before = devices.drop_last();
    let d = only_attached(before);
    if i < d.len() {
        lemma_only_attached(before, i);
        let k = choose|k: int| 0 <= k < before.len() && before[k] == d[i];
        assert(devices[k] == d[i]);
    } else {
        assert(devices[devices.len() - 1] == devices.last());
    }
}

/// A search by name finds exactly the devices whose name contains what is
/// looked for, in order, whatever the case of the letters.
pub proof fn law_search_ignores_case(devices: Seq<UsbView>, a: Seq<char>, b: Seq<char>)
    ensures
        named(devices, lowercased(a)) == devices.filter(
            |d: UsbView| contains_text(lowercased(d.name), lowercased(a)),
        ),
        lowercased(a) == lowercased(b) ==> named(devices, lowercased(a)) == named(
            devices,
            lowercased(b),
        ),
    decreases devices.len(),
{
    reveal(Seq::filter);
    if devices.len() > 0 {
        law_search_ignores_case(devices.drop_last(), a, b);
    }
}

/// The scan after one more line.
proof fn lemma_hostdev_push(lines: Seq<Seq<char>>, l: Seq<char>)
    ensures
        hostdev_scan(lines.push(l)) == hostdev_line(hostdev_scan(lines), trimmed(l)),
{
    assert(lines.push(l).drop_last() =~= lines);
}

/// An id that a definition can hold as it is: no quote and no newline ends it,
/// and no tag begins in it.
pub open spec fn plain_id(s: Seq<char>) -> bool {
    !s.contains('\'') && !s.contains('\n') && !s.contains('<')
}

/// The line of a definition with an id in it.
pub open spec fn id_line(tag: Seq<char>, id: Seq<char>) -> Seq<char> {
    "    "@ + tag + "'0x"@ + id + "'/>"@
}

/// A tag with an id in it.
spec fn id_tag(tag: Seq<char>, id: Seq<char>) -> Seq<char> {
    tag + "'0x"@ + id + "'/>"@
}

/// The line with an id is one line, and holds the tag behind white space.
#[verifier::spinoff_prover]
proof fn lemma_id_line_trimmed(tag: Seq<char>, id: Seq<char>)
    requires
        plain_id(id),
        tag.len() > 0,
        !is_space(tag[0]),
        !tag.contains('\n'),
    ensures
        !id_line(tag, id).contains('\n'),
        without_cr(id_line(tag, id)) == id_line(tag, id),
        trimmed(id_line(tag, id)) == id_tag(tag, id),
{
    reveal_strlit("    ");
    reveal_strlit("'0x");
    reveal_strlit("'/>");
    let l = id_line(tag, id);
    assert forall|i: int| 0 <= i < l.len() implies l[i] != '\n' by {
        if 4 <= i < 4 + tag.len() {
            assert(l[i] == tag[i - 4]);
        } else if 4 + tag.len() + 3 <= i < 4 + tag.len() + 3 + id.len() {
            assert(l[i] == id[i - 7 - tag.len()]);
        }
    }
    assert(l.last() == '>');
    assert(l[4] == tag[0]);
    lemma_trimmed(l, 4);
    assert(l.skip(4) =~= id_tag(tag, id));
}

/// A tag with an id in it holds no pattern that begins as a tag does and goes
/// on otherwise.
#[verifier::spinoff_prover]
proof fn lemma_id_tag_holds_no(tag: Seq<char>, id: Seq<char>, pat: Seq<char>)
    requires
        plain_id(id),
        tag.len() > 1,
        forall|i: int| 1 <= i < tag.len() ==> tag[i] != '<',
        pat.len() > 1,
        pat[0] == '<',
        tag[1] != pat[1],
    ensures
        !contains_text(id_tag(tag, id), pat),
{
    reveal_strlit("'0x");
    reveal_strlit("'/>");
    let t = id_tag(tag, id);
    assert forall|i: int| 1 <= i < t.len() implies t[i] != '<' by {
        if i < tag.len() {
            assert(t[i] == tag[i]);
        } else if tag.len() + 3 <= i < tag.len() + 3 + id.len() {
            assert(t[i] == id[i - 3 - tag.len()]);
        }
    }
    assert(t[1] == tag[1]);
    lemma_not_contained(t, pat);
}

/// A tag with an id in it holds the tag, and the id between its quotes.
#[verifier::spinoff_prover]
proof fn lemma_id_tag_quotes(tag: Seq<char>, id: Seq<char>)
    requires
        plain_id(id),
        !tag.contains('\''),
    ensures
        contains_text(id_tag(tag, id), tag),
        quoted_id(id_tag(tag, id)) == Some(strip_all(id, "0x"@)),
{
    reveal_strlit("'0x");
    reveal_strlit("'/>");
    reveal_strlit("0x");
    let t = id_tag(tag, id);
    let none: Seq<char> = seq![];
    assert(none + tag + ("'0x"@ + id + "'/>"@) =~= t);
    lemma_contains_middle(none, tag, "'0x"@ + id + "'/>"@);
    let value = "0x"@ + id;
    let rest = seq!['/', '>'];
    assert(tag.push('\'') + value.push('\'') + rest =~= t);
    assert(!value.contains('\'')) by {
        assert forall|i: int| 0 <= i < value.len() implies value[i] != '\'' by {
            if i >= 2 {
                assert(value[i] == id[i - 2]);
            }
        }
    }
    lemma_second_piece(tag, value, rest, '\'');
    lemma_strip_prefix("0x"@, id);
}

#[verifier::spinoff_prover]
proof fn lemma_id_line(tag: Seq<char>, id: Seq<char>)
    requires
        plain_id(id),
        tag == "<vendor id="@ || tag == "<product id="@,
    ensures
        !id_line(tag, id).contains('\n'),
        without_cr(id_line(tag, id)) == id_line(tag, id),
        !contains_text(trimmed(id_line(tag, id)), "<hostdev"@),
        !contains_text(trimmed(id_line(tag, id)), "</hostdev>"@),
        contains_text(trimmed(id_line(tag, id)), tag),
        tag == "<product id="@ ==> !contains_text(trimmed(id_line(tag, id)), "<vendor id="@),
        quoted_id(trimmed(id_line(tag, id))) == Some(strip_all(id, "0x"@)),
{
    reveal_strlit("<vendor id=");
    reveal_strlit("<product id=");
    reveal_strlit("<hostdev");
    reveal_strlit("</hostdev>");
    lemma_id_line_trimmed(tag, id);
    lemma_id_tag_holds_no(tag, id, "<hostdev"@);
    lemma_id_tag_holds_no(tag, id, "</hostdev>"@);
    if tag == "<product id="@ {
        lemma_id_tag_holds_no(tag, id, "<vendor id="@);
    }
    lemma_id_tag_quotes(tag, id);
}

/// The lines of a host device's definition.
pub open spec fn hostdev_lines(vendor_id: Seq<char>, product_id: Seq<char>) -> Seq<Seq<char>> {
    Seq::<Seq<char>>::empty().push("<hostdev mode='subsystem' type='usb' managed='yes'>"@).push(
        "  <source>"@,
    ).push(id_line("<vendor id="@, vendor_id)).push(id_line("<product id="@, product_id)).push(
        "  </source>"@,
    ).push("</hostdev>"@)
}

/// The text of the lines of a definition, each with its end.
spec fn hostdev_text(vendor_id: Seq<char>, product_id: Seq<char>) -> Seq<char> {
    let last = "</hostdev>"@.push('\n') + seq![];
    let closing = "  </source>"@.push('\n') + last;
    let product = id_line("<product id="@, product_id).push('\n') + closing;
    let vendor = id_line("<vendor id="@, vendor_id).push('\n') + product;
    "<hostdev mode='subsystem' type='usb' managed='yes'>"@.push('\n') + ("  <source>"@.push('\n')
        + vendor)
}

proof fn lemma_hostdev_text(vendor_id: Seq<char>, product_id: Seq<char>)
    ensures
        hostdev_xml(vendor_id, product_id) == hostdev_text(vendor_id, product_id),
{
    reveal_strlit(
        "<hostdev mode='subsystem' type='usb' managed='yes'>\n  <source>\n    <vendor id='0x",
    );
    reveal_strlit("'/>\n    <product id='0x");
    reveal_strlit("'/>\n  </source>\n</hostdev>\n");
    reveal_strlit("<hostdev mode='subsystem' type='usb' managed='yes'>");
    reveal_strlit("  <source>");
    reveal_strlit("  </source>");
    reveal_strlit("</hostdev>");
    reveal_strlit("    ");
    reveal_strlit("<vendor id=");
    reveal_strlit("<product id=");
    reveal_strlit("'0x");
    reveal_strlit("'/>");
    assert(hostdev_xml(vendor_id, product_id) =~= hostdev_text(vendor_id, product_id));
}

proof fn lemma_hostdev_lines(vendor_id: Seq<char>, product_id: Seq<char>)
    requires
        plain_id(vendor_id),
        plain_id(product_id),
    ensures
        lines_of(hostdev_xml(vendor_id, product_id)) == hostdev_lines(vendor_id, product_id),
{
    lemma_hostdev_text(vendor_id, product_id);
    reveal_strlit("<hostdev mode='subsystem' type='usb' managed='yes'>");
    reveal_strlit("  <source>");
    reveal_strlit("  </source>");
    reveal_strlit("</hostdev>");
    reveal_strlit("<vendor id=");
    reveal_strlit("<product id=");
    let l1 = "<hostdev mode='subsystem' type='usb' managed='yes'>"@;
    let l2 = "  <source>"@;
    let l3 = id_line("<vendor id="@, vendor_id);
    let l4 = id_line("<product id="@, product_id);
    let l5 = "  </source>"@;
    let l6 = "</hostdev>"@;
    lemma_id_line("<vendor id="@, vendor_id);
    lemma_id_line("<product id="@, product_id);
    let r6: Seq<char> = seq![];
    let r5 = l6.push('\n') + r6;
    let r4 = l5.push('\n') + r5;
    let r3 = l4.push('\n') + r4;
    let r2 = l3.push('\n') + r3;
    let r1 = l2.push('\n') + r2;
    lemma_lines_cons(l1, r1);
    lemma_lines_cons(l2, r2);
    lemma_lines_cons(l3, r3);
    lemma_lines_cons(l4, r4);
    lemma_lines_cons(l5, r5);
    lemma_lines_cons(l6, r6);
    assert(lines_of(l1.push('\n') + r1) =~= hostdev_lines(vendor_id, product_id));
}

/// The definition with which a device is attached, wherever it stands among the
/// lines of a virtual machine's definition, is read back as that device: one
/// host device with its ids, without `0x`.
pub proof fn law_host_device_is_read_back(
    before: Seq<Seq<char>>,
    vendor_id: Seq<char>,
    product_id: Seq<char>,
    after: Seq<Seq<char>>,
)
    requires
        plain_id(vendor_id),
        plain_id(product_id),
    ensures
        hostdev_scan(
            before + lines_of(hostdev_xml(vendor_id, product_id)) + after,
        ).found.contains((strip_all(vendor_id, "0x"@), strip_all(product_id, "0x"@))),
        hostdev_scan(before + lines_of(hostdev_xml(vendor_id, product_id))).found == hostdev_scan(
            before,
        ).found.push((strip_all(vendor_id, "0x"@), strip_all(product_id, "0x"@))),
        hostdevs_in(hostdev_xml(vendor_id, product_id)) == seq![
            (strip_all(vendor_id, "0x"@), strip_all(product_id, "0x"@)),
        ],
{
    let id = (strip_all(vendor_id, "0x"@), strip_all(product_id, "0x"@));
    let upto = before + lines_of(hostdev_xml(vendor_id, product_id));
    lemma_hostdev_found(before, vendor_id, product_id);
    assert(hostdev_scan(upto).found.last() == id);
    lemma_hostdev_grows(upto, after, id);
    let none = Seq::<Seq<char>>::empty();
    lemma_hostdev_found(none, vendor_id, product_id);
    assert(none + lines_of(hostdev_xml(vendor_id, product_id)) =~= lines_of(
        hostdev_xml(vendor_id, product_id),
    ));
}

proof fn lemma_hostdev_grows(
    lines: Seq<Seq<char>>,
    after: Seq<Seq<char>>,
    id: (Seq<char>, Seq<char>),
)
    requires
        hostdev_scan(lines).found.contains(id),
    ensures
        hostdev_scan(lines + after).found.contains(id),
    decreases after.len(),
{
    if after.len() == 0 {
        assert(lines + after =~= lines);
    } else {
        let rest = after.drop_last();
        lemma_hostdev_grows(lines, rest, id);
        let d = hostdev_scan(lines + rest).found;
        let k = choose|k: int| 0 <= k < d.len() && d[k] == id;
        assert((lines + after).drop_last() =~= lines + rest);
        assert(hostdev_scan(lines + after).found[k] == id);
    }
}

proof fn lemma_hostdev_found(
    before: Seq<Seq<char>>,
    vendor_id: Seq<char>,
    product_id: Seq<char>,
)
    requires
        plain_id(vendor_id),
        plain_id(product_id),
    ensures
        hostdev_scan(before + lines_of(hostdev_xml(vendor_id, product_id))).found == hostdev_scan(
            before,
        ).found.push((strip_all(vendor_id, "0x"@), strip_all(product_id, "0x"@))),
{
    lemma_hostdev_lines(vendor_id, product_id);
    lemma_id_line("<vendor id="@, vendor_id);
    lemma_id_line("<product id="@, product_id);
    let l1 = "<hostdev mode='subsystem' type='usb' managed='yes'>"@;
    let l2 = "  <source>"@;
    let l3 = id_line("<vendor id="@, vendor_id);
    let l4 = id_line("<product id="@, product_id);
    let l5 = "  </source>"@;
    let l6 = "</hostdev>"@;
    lemma_fixed_lines();
    let s1 = before.push(l1);
    let s2 = s1.push(l2);
    let s3 = s2.push(l3);
    let s4 = s3.push(l4);
    let s5 = s4.push(l5);
    let s6 = s5.push(l6);
    assert(before + hostdev_lines(vendor_id, product_id) =~= s6);
    lemma_hostdev_push(before, l1);
    lemma_hostdev_push(s1, l2);
    lemma_hostdev_push(s2, l3);
    lemma_hostdev_push(s3, l4);
    lemma_hostdev_push(s4, l5);
    lemma_hostdev_push(s5, l6);
}

proof fn lemma_fixed_lines()
    ensures
        contains_text(
            trimmed("<hostdev mode='subsystem' type='usb' managed='yes'>"@),
            "<hostdev"@,
        ),
        contains_text(trimmed("<hostdev mode='subsystem' type='usb' managed='yes'>"@), "usb"@),
        !contains_text(trimmed("  <source>"@), "<hostdev"@),
        !contains_text(trimmed("  <source>"@), "</hostdev>"@),
        !contains_text(trimmed("  <source>"@), "<vendor id="@),
        !contains_text(trimmed("  <source>"@), "<product id="@),
        !contains_text(trimmed("  </source>"@), "<hostdev"@),
        !contains_text(trimmed("  </source>"@), "</hostdev>"@),
        !contains_text(trimmed("  </source>"@), "<vendor id="@),
        !contains_text(trimmed("  </source>"@), "<product id="@),
        !contains_text(trimmed("</hostdev>"@), "<hostdev"@),
        contains_text(trimmed("</hostdev>"@), "</hostdev>"@),
{
    reveal_strlit("<hostdev mode='subsystem' type='usb' managed='yes'>");
    reveal_strlit("  <source>");
    reveal_strlit("  </source>");
    reveal_strlit("</hostdev>");
    reveal_strlit("<hostdev");
    reveal_strlit("usb");
    reveal_strlit("<vendor id=");
    reveal_strlit("<product id=");
    let l1 = "<hostdev mode='subsystem' type='usb' managed='yes'>"@;
    lemma_trimmed(l1, 0);
    assert(l1.skip(0) =~= l1);
    assert(l1.subrange(0, 8) =~= "<hostdev"@);
    assert(occurs(l1, "<hostdev"@, 0));
    assert(l1.subrange(32, 35) =~= "usb"@);
    assert(occurs(l1, "usb"@, 32));
    let t2 = "  <source>"@.skip(2);
    lemma_trimmed("  <source>"@, 2);
    lemma_not_contained(t2, "<hostdev"@);
    lemma_not_contained(t2, "</hostdev>"@);
    lemma_not_contained(t2, "<vendor id="@);
    lemma_not_contained(t2, "<product id="@);
    let l5 = "  </source>"@;
    let t5 = l5.skip(2);
    lemma_trimmed(l5, 2);
    lemma_not_contained(t5, "<hostdev"@);
    lemma_not_contained(t5, "<vendor id="@);
    lemma_not_contained(t5, "<product id="@);
    assert forall|i: int| !occurs(t5, "</hostdev>"@, i) by {
        if occurs(t5, "</hostdev>"@, i) {
            assert(t5.len() == 9);
        }
    }
    let l6 = "</hostdev>"@;
    lemma_trimmed(l6, 0);
    assert(l6.skip(0) =~= l6);
    lemma_not_contained(l6, "<hostdev"@);
    assert(l6.subrange(0, 10) =~= l6);
    assert(occurs(l6, "</hostdev>"@, 0));
}

/// A device is shown as attached exactly if the virtual machine has a host
/// device with its ids; nothing else of it changes, and none is lost.
pub proof fn law_marks_tell_attachment(
    devices: Seq<UsbView>,
    attached: Seq<(Seq<char>, Seq<char>)>,
    i: int,
)
    requires
        0 <= i < devices.len(),
    ensures
        shown(devices, attached, false).len() == devices.len(),
        shown(devices, attached, false)[i].attached <==> attached.contains(ids(devices[i])),
        shown(devices, attached, false)[i] == (UsbView {
            attached: shown(devices, attached, false)[i].attached,
            ..devices[i]
        }),
{
}

// ---------------------------------------------------------------------------
// Looking up and listing agree
// ---------------------------------------------------------------------------

/// One or more decimal digits.
pub open spec fn is_count(s: Seq<char>) -> bool {
    &&& s.len() > 0
    &&& forall|i: int| 0 <= i < s.len() ==> '0' <= #[trigger] s[i] <= '9'
}

/// Four hexadecimal digits.
pub open spec fn is_id(s: Seq<char>) -> bool {
    &&& s.len() == 4
    &&& forall|i: int| 0 <= i < s.len() ==> is_hex_digit(#[trigger] s[i])
}

/// What a line of `lsusb` begins with, up to the ids.
pub open spec fn line_start(d: UsbView) -> Seq<char> {
    "Bus "@ + d.bus + " Device "@ + d.device + ": ID "@
}

/// The line that `lsusb` prints of a device.
pub open spec fn usb_line(d: UsbView) -> Seq<char> {
    line_start(d) + id_text(d.vendor_id, d.product_id) + " "@ + d.name
}

/// A device as `lsusb` prints it: bus and device are counted, the ids have four
/// digits, and the name is words with single spaces between them and no colon.
pub open spec fn is_regular(d: UsbView) -> bool {
    &&& is_count(d.bus)
    &&& is_count(d.device)
    &&& is_id(d.vendor_id)
    &&& is_id(d.product_id)
    &&& d.name == joined(words_of(d.name), " "@)
    &&& !d.name.contains(':')
    &&& !d.attached
}

/// The device has the given ids.
pub open spec fn has_ids(d: UsbView, vendor_id: Seq<char>, product_id: Seq<char>) -> bool {
    d.vendor_id == vendor_id && d.product_id == product_id
}

/// The line of a device tells of a root hub.
pub open spec fn line_tells_of_hub(d: UsbView) -> bool {
    tells_of_hub(lowercased(usb_line(d)))
}

/// Bus and device of a device that was found.
pub open spec fn place_of_device(found: Option<UsbView>) -> Option<(Seq<char>, Seq<char>)> {
    match found {
        Some(d) => Some((d.bus, d.device)),
        None => None,
    }
}

/// What `lsusb` prints is read back, and looking a device up by its ids gives
/// bus and device of the first one that is listed with them, and nothing where
/// there is none; without root hubs, of the first one whose line does not tell
/// of one.
pub proof fn law_look_up_gives_the_first(
    output: Seq<char>,
    devices: Seq<UsbView>,
    vendor_id: Seq<char>,
    product_id: Seq<char>,
)
    requires
        lines_of(output) == devices.map_values(|d: UsbView| usb_line(d)),
        forall|i: int| 0 <= i < devices.len() ==> is_regular(#[trigger] devices[i]),
        is_id(vendor_id),
        is_id(product_id),
    ensures
        usb_listed(lines_of(output), true) == devices,
        place_of(output, vendor_id, product_id, true) == place_of_device(
            device_with(usb_listed(lines_of(output), true), vendor_id, product_id),
        ),
        place_of(output, vendor_id, product_id, false) == place_of_device(
            device_with(
                usb_listed(lines_of(output), true).filter(|d: UsbView| !line_tells_of_hub(d)),
                vendor_id,
                product_id,
            ),
        ),
{
    lemma_lines_read(devices);
    lemma_first_place(devices, |d: UsbView| true, vendor_id, product_id, true);
    lemma_filter_all(devices);
    lemma_first_place(devices, |d: UsbView| !line_tells_of_hub(d), vendor_id, product_id, false);
}

/// Without root hubs, looking a device up by its ids gives bus and device of
/// the first one that is listed with them, and nothing where there is none. The
/// two ids are left out by which the listing alone knows a root hub. A device
/// with the ids looked for has a name in ASCII, or else its line tells of a
/// root hub exactly if its name does: how the lowercase form of a text outside
/// ASCII is made up of those of its parts is not known.
pub proof fn law_look_up_agrees_with_listing(
    output: Seq<char>,
    devices: Seq<UsbView>,
    vendor_id: Seq<char>,
    product_id: Seq<char>,
)
    requires
        lines_of(output) == devices.map_values(|d: UsbView| usb_line(d)),
        forall|i: int| 0 <= i < devices.len() ==> is_regular(#[trigger] devices[i]),
        is_id(vendor_id),
        is_id(product_id),
        !(vendor_id == "1d6b"@ && (product_id == "0002"@ || product_id == "0003"@)),
        forall|i: int|
            0 <= i < devices.len() && has_ids(#[trigger] devices[i], vendor_id, product_id) ==> {
                ||| is_ascii_chars(devices[i].name)
                ||| line_tells_of_hub(devices[i]) == tells_of_hub(lowercased(devices[i].name))
            },
    ensures
        place_of(output, vendor_id, product_id, false) == place_of_device(
            device_with(usb_listed(lines_of(output), false), vendor_id, product_id),
        ),
{
    lemma_lines_read(devices);
    law_root_hubs_not_listed(lines_of(output));
    let by_line = |d: UsbView| !line_tells_of_hub(d);
    let by_device = |d: UsbView| !is_root_hub(d);
    lemma_first_place(devices, by_line, vendor_id, product_id, false);
    assert forall|i: int|
        0 <= i < devices.len() && has_ids(
            #[trigger] devices[i],
            vendor_id,
            product_id,
        ) implies by_line(devices[i]) == by_device(devices[i]) by {
        if is_ascii_chars(devices[i].name) {
            lemma_line_hub(devices[i]);
        }
    }
    lemma_same_first(devices, by_line, by_device, vendor_id, product_id);
}

/// All lines are read back.
proof fn lemma_lines_read(devices: Seq<UsbView>)
    requires
        forall|i: int| 0 <= i < devices.len() ==> is_regular(#[trigger] devices[i]),
    ensures
        usb_listed(devices.map_values(|d: UsbView| usb_line(d)), true) == devices,
    decreases devices.len(),
{
    let lines = devices.map_values(|d: UsbView| usb_line(d));
    if devices.len() > 0 {
        let before = devices.drop_last();
        assert(lines.drop_last() =~= before.map_values(|d: UsbView| usb_line(d)));
        assert(is_regular(devices[devices.len() - 1]));
        lemma_lines_read(before);
        lemma_line_read(devices.last());
        assert(before.push(devices.last()) =~= devices);
    } else {
        assert(usb_listed(lines, true) =~= devices);
    }
}

/// A look-up gives the first device with the ids among those that `keep`
/// leaves, if that leaves those whose lines are not passed over.
proof fn lemma_first_place(
    devices: Seq<UsbView>,
    keep: spec_fn(UsbView) -> bool,
    vendor_id: Seq<char>,
    product_id: Seq<char>,
    hubs: bool,
)
    requires
        forall|i: int| 0 <= i < devices.len() ==> is_regular(#[trigger] devices[i]),
        is_id(vendor_id),
        is_id(product_id),
        forall|d: UsbView| #[trigger] keep(d) == (hubs || !line_tells_of_hub(d)),
    ensures
        place_from(
            devices.map_values(|d: UsbView| usb_line(d)),
            vendor_id,
            product_id,
            hubs,
            0,
        ) == place_of_device(device_with(devices.filter(keep), vendor_id, product_id)),
    decreases devices.len(),
{
    reveal(Seq::filter);
    let lines = devices.map_values(|d: UsbView| usb_line(d));
    if devices.len() > 0 {
        let before = devices.drop_last();
        let d = devices.last();
        assert(lines.drop_last() =~= before.map_values(|d: UsbView| usb_line(d)));
        assert(lines.last() == usb_line(d));
        assert(is_regular(devices[devices.len() - 1]));
        lemma_first_place(before, keep, vendor_id, product_id, hubs);
        lemma_place_last(lines, vendor_id, product_id, hubs, 0);
        lemma_line_place(d, vendor_id, product_id, hubs);
        lemma_device_last(before.filter(keep), d, vendor_id, product_id, 0);
    }
}

/// Leaving everything changes nothing.
proof fn lemma_filter_all(devices: Seq<UsbView>)
    ensures
        devices.filter(|d: UsbView| true) == devices,
    decreases devices.len(),
{
    reveal(Seq::filter);
    if devices.len() > 0 {
        lemma_filter_all(devices.drop_last());
        assert(devices.drop_last().push(devices.last()) =~= devices);
    } else {
        assert(devices.filter(|d: UsbView| true) =~= devices);
    }
}

/// The first device with the ids is the same among what two conditions leave
/// that agree on the devices with the ids.
proof fn lemma_same_first(
    devices: Seq<UsbView>,
    a: spec_fn(UsbView) -> bool,
    b: spec_fn(UsbView) -> bool,
    vendor_id: Seq<char>,
    product_id: Seq<char>,
)
    requires
        forall|i: int|
            0 <= i < devices.len() && has_ids(#[trigger] devices[i], vendor_id, product_id) ==> a(
                devices[i],
            ) == b(devices[i]),
    ensures
        device_with(devices.filter(a), vendor_id, product_id) == device_with(
            devices.filter(b),
            vendor_id,
            product_id,
        ),
    decreases devices.len(),
{
    reveal(Seq::filter);
    if devices.len() > 0 {
        let before = devices.drop_last();
        let d = devices.last();
        assert forall|i: int|
            0 <= i < before.len() && has_ids(#[trigger] before[i], vendor_id, product_id) implies a(
            before[i],
        ) == b(before[i]) by {
            assert(before[i] == devices[i]);
        }
        assert(d == devices[devices.len() - 1]);
        lemma_same_first(before, a, b, vendor_id, product_id);
        lemma_device_last(before.filter(a), d, vendor_id, product_id, 0);
        lemma_device_last(before.filter(b), d, vendor_id, product_id, 0);
    }
}

/// A look-up gives what the lines before the last give, or else what the last
/// gives.
proof fn lemma_place_last(
    lines: Seq<Seq<char>>,
    vendor_id: Seq<char>,
    product_id: Seq<char>,
    hubs: bool,
    i: int,
)
    requires
        0 <= i < lines.len(),
    ensures
        place_from(lines, vendor_id, product_id, hubs, i) == (match place_from(
            lines.drop_last(),
            vendor_id,
            product_id,
            hubs,
            i,
        ) {
            Some(place) => Some(place),
            None => place_in_line(lines.last(), vendor_id, product_id, hubs),
        }),
    decreases lines.len() - i,
{
    if i < lines.len() - 1 {
        assert(lines.drop_last()[i] == lines[i]);
        lemma_place_last(lines, vendor_id, product_id, hubs, i + 1);
    } else {
        assert(place_from(lines, vendor_id, product_id, hubs, i + 1) is None);
    }
}

/// The first device with the ids is the first of those before the last, or else
/// the last.
proof fn lemma_device_last(
    devices: Seq<UsbView>,
    d: UsbView,
    vendor_id: Seq<char>,
    product_id: Seq<char>,
    i: int,
)
    requires
        0 <= i <= devices.len(),
    ensures
        device_from(devices.push(d), vendor_id, product_id, i) == (match device_from(
            devices,
            vendor_id,
            product_id,
            i,
        ) {
            Some(found) => Some(found),
            None => if d.vendor_id == vendor_id && d.product_id == product_id {
                Some(d)
            } else {
                None
            },
        }),
    decreases devices.len() - i,
{
    if i < devices.len() {
        assert(devices.push(d)[i] == devices[i]);
        lemma_device_last(devices, d, vendor_id, product_id, i + 1);
    } else {
        assert(device_from(devices.push(d), vendor_id, product_id, i + 1) is None);
    }
}

/// The words of a line of `lsusb`.
proof fn lemma_line_words(d: UsbView)
    requires
        is_regular(d),
    ensures
        words_of(usb_line(d)) == seq![
            seq!['B', 'u', 's'],
            d.bus,
            seq!['D', 'e', 'v', 'i', 'c', 'e'],
            d.device.push(':'),
            seq!['I', 'D'],
            id_text(d.vendor_id, d.product_id),
        ] + words_of(d.name),
{
    reveal_strlit("Bus ");
    reveal_strlit(" Device ");
    reveal_strlit(": ID ");
    reveal_strlit(" ");
    reveal_strlit(":");
    let id = id_text(d.vendor_id, d.product_id);
    let t5 = id.push(' ') + d.name;
    let t4 = seq!['I', 'D'].push(' ') + t5;
    let t3 = d.device.push(':').push(' ') + t4;
    let t2 = seq!['D', 'e', 'v', 'i', 'c', 'e'].push(' ') + t3;
    let t1 = d.bus.push(' ') + t2;
    let t0 = seq!['B', 'u', 's'].push(' ') + t1;
    assert(usb_line(d) =~= t0);
    lemma_words_cons(id, d.name);
    lemma_words_cons(seq!['I', 'D'], t5);
    lemma_words_cons(d.device.push(':'), t4);
    lemma_words_cons(seq!['D', 'e', 'v', 'i', 'c', 'e'], t3);
    lemma_words_cons(d.bus, t2);
    lemma_words_cons(seq!['B', 'u', 's'], t1);
    assert(words_of(t0) =~= seq![
        seq!['B', 'u', 's'],
        d.bus,
        seq!['D', 'e', 'v', 'i', 'c', 'e'],
        d.device.push(':'),
        seq!['I', 'D'],
        id,
    ] + words_of(d.name));
}

/// A device is read back from its line.
proof fn lemma_line_read(d: UsbView)
    requires
        is_regular(d),
    ensures
        usb_in_line(usb_line(d)) == Some(d),
        words_of(usb_line(d)).len() >= 6,
        words_of(usb_line(d))[1] == d.bus,
        trim_end_char_of(words_of(usb_line(d))[3], ':') == d.device,
{
    lemma_line_words(d);
    let w = words_of(usb_line(d));
    let id = id_text(d.vendor_id, d.product_id);
    reveal_strlit(":");
    assert(w.skip(6) =~= words_of(d.name));
    assert(d.device.push(':').drop_last() =~= d.device);
    assert(trim_end_char_of(d.device, ':') == d.device);
    assert(id[4] == ':');
    assert forall|i: int| 0 <= i < 4 implies id[i] != ':' by {
        assert(id[i] == d.vendor_id[i]);
    }
    lemma_until(id, ':', 4);
    assert(id.take(4) =~= d.vendor_id);
    let rest = id.skip(5);
    assert(rest =~= d.product_id);
    assert forall|i: int| 0 <= i < 4 implies rest[i] != ':' by {
        assert(rest[i] == d.product_id[i]);
    }
    lemma_until(rest, ':', 4);
    assert(pieces_of(rest, ':') =~= seq![rest]);
    assert(pieces_of(id, ':') =~= seq![d.vendor_id, d.product_id]);
}

/// A character that can stand before the name of a device.
spec fn before_name(c: char) -> bool {
    ||| is_hex_digit(c)
    ||| c == ' ' || c == ':'
    ||| c == 'u' || c == 's' || c == 'v' || c == 'i' || c == 'I'
}

/// What stands in the start of a line: characters of a kind, and one colon,
/// with a space behind it.
#[verifier::spinoff_prover]
proof fn lemma_line_start(d: UsbView)
    requires
        is_regular(d),
    ensures
        line_start(d).len() >= 5,
        line_start(d)[line_start(d).len() - 4] == ' ',
        forall|i: int| 0 <= i < line_start(d).len() ==> before_name(#[trigger] line_start(d)[i]),
        forall|i: int|
            0 <= i < line_start(d).len() && #[trigger] line_start(d)[i] == ':' ==> i
                == line_start(d).len() - 5,
{
    reveal_strlit("Bus ");
    reveal_strlit(" Device ");
    reveal_strlit(": ID ");
    let start = line_start(d);
    let to_bus = 4 + d.bus.len();
    let to_device = to_bus + 8 + d.device.len();
    assert forall|i: int| 0 <= i < start.len() implies before_name(#[trigger] start[i]) && (start[i]
        == ':' ==> i == start.len() - 5) by {
        if i < 4 {
            assert(start[i] == "Bus "@[i]);
        } else if i < to_bus {
            assert(start[i] == d.bus[i - 4]);
        } else if i < to_bus + 8 {
            assert(start[i] == " Device "@[i - to_bus]);
        } else if i < to_device {
            assert(start[i] == d.device[i - to_bus - 8]);
        } else {
            assert(start[i] == ": ID "@[i - to_device]);
        }
    }
}

/// The ids of a device, as text.
proof fn lemma_id_text(vendor_id: Seq<char>, product_id: Seq<char>)
    requires
        is_id(vendor_id),
        is_id(product_id),
    ensures
        id_text(vendor_id, product_id).len() == 9,
        id_text(vendor_id, product_id).take(4) == vendor_id,
        id_text(vendor_id, product_id)[4] == ':',
        id_text(vendor_id, product_id).skip(5) == product_id,
        forall|i: int|
            0 <= i < 9 && i != 4 ==> is_hex_digit(#[trigger] id_text(vendor_id, product_id)[i]),
{
    reveal_strlit(":");
    let id = id_text(vendor_id, product_id);
    assert(id.take(4) =~= vendor_id);
    assert(id.skip(5) =~= product_id);
    assert forall|i: int| 0 <= i < 9 && i != 4 implies is_hex_digit(#[trigger] id[i]) by {
        if i < 4 {
            assert(id[i] == vendor_id[i]);
        } else {
            assert(id[i] == product_id[i - 5]);
        }
    }
}

/// Ids stand in a line only where its own ids stand.
#[verifier::spinoff_prover]
proof fn lemma_ids_stand_once(d: UsbView, vendor_id: Seq<char>, product_id: Seq<char>, i: int)
    requires
        is_regular(d),
        is_id(vendor_id),
        is_id(product_id),
        occurs(usb_line(d), id_text(vendor_id, product_id), i),
    ensures
        i == line_start(d).len(),
{
    reveal_strlit(" ");
    let line = usb_line(d);
    let start = line_start(d);
    let n = start.len() as int;
    let own = id_text(d.vendor_id, d.product_id);
    let id = id_text(vendor_id, product_id);
    lemma_line_start(d);
    lemma_id_text(vendor_id, product_id);
    lemma_id_text(d.vendor_id, d.product_id);
    let t = line.subrange(i, i + id.len());
    assert(t[4] == line[i + 4] && t[5] == line[i + 5]);
    let k = i + 4;
    if k < n {
        assert(line[k] == start[k]);
        assert(line[k + 1] == start[k + 1]);
    } else if k < n + 9 {
        assert(line[k] == own[k - n]);
    } else if k > n + 9 {
        assert(line[k] == d.name[k - n - 10]);
    }
}

/// A line holds exactly its own ids.
#[verifier::spinoff_prover]
proof fn lemma_line_ids(d: UsbView, vendor_id: Seq<char>, product_id: Seq<char>)
    requires
        is_regular(d),
        is_id(vendor_id),
        is_id(product_id),
    ensures
        contains_text(usb_line(d), id_text(vendor_id, product_id)) <==> has_ids(
            d,
            vendor_id,
            product_id,
        ),
{
    let start = line_start(d);
    let own = id_text(d.vendor_id, d.product_id);
    let rest = " "@ + d.name;
    let id = id_text(vendor_id, product_id);
    assert(usb_line(d) =~= start + own + rest);
    lemma_contains_middle(start, own, rest);
    if contains_text(usb_line(d), id) {
        let i = choose|i: int| occurs(usb_line(d), id, i);
        lemma_ids_stand_once(d, vendor_id, product_id, i);
        lemma_id_text(vendor_id, product_id);
        lemma_id_text(d.vendor_id, d.product_id);
        assert((start + own + rest).subrange(i, i + 9) =~= own);
    }
}

/// A line tells of a root hub exactly if the name does, if that is in ASCII.
#[verifier::spinoff_prover]
proof fn lemma_line_hub(d: UsbView)
    requires
        is_regular(d),
        is_ascii_chars(d.name),
    ensures
        line_tells_of_hub(d) == tells_of_hub(lowercased(d.name)),
{
    reveal_strlit(" ");
    reveal_strlit("root hub");
    reveal_strlit("linux foundation");
    let line = usb_line(d);
    let start = line_start(d);
    let id = id_text(d.vendor_id, d.product_id);
    let head = start + id + " "@;
    lemma_line_start(d);
    lemma_id_text(d.vendor_id, d.product_id);
    assert forall|i: int| 0 <= i < head.len() implies before_name(#[trigger] head[i]) by {
        if i < start.len() {
            assert(head[i] == start[i]);
        } else if i < start.len() + 9 {
            assert(head[i] == id[i - start.len()]);
        }
    }
    assert(line =~= head + d.name);
    assert(is_ascii_chars(line));
    let lower = |c: char| ascii_lower(c);
    let low = head.map_values(lower);
    let name = d.name.map_values(lower);
    assert(line.map_values(lower) =~= low + name);
    assert forall|i: int| 0 <= i < low.len() implies #[trigger] low[i] != 'r' && low[i]
        != 'l' by {
        assert(before_name(head[i]));
    }
    lemma_contains_after(low, name, "root hub"@);
    lemma_contains_after(low, name, "linux foundation"@);
}

/// A line gives bus and device of its device for the ids of that device, unless
/// it tells of a root hub and these are passed over, and for no others.
proof fn lemma_line_place(
    d: UsbView,
    vendor_id: Seq<char>,
    product_id: Seq<char>,
    hubs: bool,
)
    requires
        is_regular(d),
        is_id(vendor_id),
        is_id(product_id),
    ensures
        place_in_line(usb_line(d), vendor_id, product_id, hubs) == (if has_ids(
            d,
            vendor_id,
            product_id,
        ) && (hubs || !line_tells_of_hub(d)) {
            Some((d.bus, d.device))
        } else {
            None
        }),
{
    lemma_line_read(d);
    lemma_line_ids(d, vendor_id, product_id);
}

/// A root hub is told by the words in its name, or by the ids of the virtual hub
/// of the kernel.
pub proof fn law_root_hubs(d: UsbView)
    ensures
        is_root_hub(d) <==> {
            ||| contains_text(lowercased(d.name), "root hub"@)
            ||| contains_text(lowercased(d.name), "linux foundation"@)
            ||| (d.vendor_id == "1d6b"@ && d.product_id == "0002"@)
            ||| (d.vendor_id == "1d6b"@ && d.product_id == "0003"@)
        },
{
}

/// A virtual machine whose definition speaks of no host device has none.
pub proof fn law_no_host_devices(xml: Seq<char>)
    requires
        forall|i: int|
            0 <= i < lines_of(xml).len() ==> !contains_text(
                trimmed(#[trigger] lines_of(xml)[i]),
                "<hostdev"@,
            ),
    ensures
        hostdevs_in(xml) == Seq::<(Seq<char>, Seq<char>)>::empty(),
{
    lemma_outside(lines_of(xml));
}

proof fn lemma_outside(lines: Seq<Seq<char>>)
    requires
        forall|i: int|
            0 <= i < lines.len() ==> !contains_text(trimmed(#[trigger] lines[i]), "<hostdev"@),
    ensures
        hostdev_scan(lines).found == Seq::<(Seq<char>, Seq<char>)>::empty(),
        !hostdev_scan(lines).inside,
    decreases lines.len(),
{
    if lines.len() > 0 {
        let before = lines.drop_last();
        assert forall|i: int| 0 <= i < before.len() implies !contains_text(
            trimmed(#[trigger] before[i]),
            "<hostdev"@,
        ) by {
            assert(before[i] == lines[i]);
        }
        lemma_outside(before);
        assert(lines.last() == lines[lines.len() - 1]);
    }
}

/// A host device on another bus does not count.
pub proof fn law_other_host_devices_do_not_count(xml: Seq<char>)
    requires
        forall|i: int|
            0 <= i < lines_of(xml).len() ==> !contains_text(
                trimmed(#[trigger] lines_of(xml)[i]),
                "usb"@,
            ),
    ensures
        hostdevs_in(xml) == Seq::<(Seq<char>, Seq<char>)>::empty(),
{
    lemma_off_the_bus(lines_of(xml));
}

proof fn lemma_off_the_bus(lines: Seq<Seq<char>>)
    requires
        forall|i: int|
            0 <= i < lines.len() ==> !contains_text(trimmed(#[trigger] lines[i]), "usb"@),
    ensures
        hostdev_scan(lines).found == Seq::<(Seq<char>, Seq<char>)>::empty(),
        !hostdev_scan(lines).inside,
    decreases lines.len(),
{
    if lines.len() > 0 {
        let before = lines.drop_last();
        assert forall|i: int| 0 <= i < before.len() implies !contains_text(
            trimmed(#[trigger] before[i]),
            "usb"@,
        ) by {
            assert(before[i] == lines[i]);
        }
        lemma_off_the_bus(before);
        assert(lines.last() == lines[lines.len() - 1]);
    }
}

/// A line without the ids of a device lists none, and changes nothing about what
/// the others list.
pub proof fn law_other_lines_list_nothing(lines: Seq<Seq<char>>, l: Seq<char>, hubs: bool)
    requires
        words_of(l).len() < 6 || !words_of(l)[5].contains(':'),
    ensures
        usb_listed(lines.push(l), hubs) == usb_listed(lines, hubs),
{
    assert(lines.push(l).drop_last() =~= lines);
    if words_of(l).len() >= 6 {
        law_pieces_stand_between_separators(words_of(l)[5], seq![], ':');
    }
}

} // verus!
