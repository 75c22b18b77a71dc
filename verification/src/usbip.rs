//! The messages of the USB/IP protocol, as the scanner's daemon sends and
//! reads them.

use vstd::prelude::*;
use vstd::string::*;
use vstd::utf8::*;

use crate::bytes::{
    be16, be32, get_be32, join16, put_all, put_be16, put_be32, put_zeros, word16, word32, zeros,
};
use crate::descriptor::at_most;
use crate::text::trim_end_char_of;

verus! {

pub const USBIP_VERSION: u16 = 0x0111;

pub const OP_REQ_DEVLIST: u16 = 0x8005;

pub const OP_REP_DEVLIST: u16 = 0x0005;

pub const OP_REQ_IMPORT: u16 = 0x8003;

pub const OP_REP_IMPORT: u16 = 0x0003;

pub const USBIP_CMD_SUBMIT: u32 = 0x00000001;

pub const USBIP_CMD_UNLINK: u32 = 0x00000002;

pub const USBIP_RET_SUBMIT: u32 = 0x00000003;

pub const USBIP_RET_UNLINK: u32 = 0x00000004;

/// The bus of the virtual device.
pub const HID_BUSNUM: u32 = 1;

/// The number of the virtual device on its bus.
pub const HID_DEVNUM: u32 = 1;

/// Full speed.
pub const HID_SPEED: u32 = 2;

/// The name under which the virtual device is exported.
pub open spec fn bus_id() -> Seq<char> {
    "1-1"@
}

/// Where the virtual device is said to live.
pub open spec fn device_path() -> Seq<char> {
    "/sys/devices/platform/vhci_hcd.0/usb1/1-1"@
}

// ---------------------------------------------------------------------------
// Fixed fields
// ---------------------------------------------------------------------------

/// A field of `size` bytes: at most `most` bytes of the text, then zeros.
pub open spec fn text_field(s: Seq<char>, most: int, size: int) -> Seq<u8> {
    let data = at_most(encode_utf8(s), most);
    data + zeros(size - data.len())
}

/// Appends a field of `size` bytes: at most `most` bytes of the text, then
/// zeros.
fn put_text_field(out: &mut Vec<u8>, s: &str, most: usize, size: usize)
    requires
        most <= size,
    ensures
        final(out)@ == old(out)@ + text_field(s@, most as int, size as int),
{
    let data: &[u8] = s.as_bytes();
    let n: usize = if data.len() < most {
        data.len()
    } else {
        most
    };
    put_all(out, vstd::slice::slice_subrange(data, 0, n));
    assert(data@.subrange(0, n as int) =~= at_most(encode_utf8(s@), most as int));
    put_zeros(out, size - n);
    assert(out@ =~= old(out)@ + text_field(s@, most as int, size as int));
}

/// The description of the exported device: its path, its bus id, its bus and
/// device numbers, its speed, its ids and version, and its class bytes and
/// counts.
pub open spec fn device_info(vid: u16, pid: u16) -> Seq<u8> {
    text_field(device_path(), 255, 256) + text_field(bus_id(), 32, 32) + be32(HID_BUSNUM) + be32(
        HID_DEVNUM,
    ) + be32(HID_SPEED) + be16(vid) + be16(pid) + be16(0x0100) + seq![0u8, 0, 0, 1, 1, 1]
}

/// The description of the exported device, of 312 bytes.
pub fn usbip_device_info(vid: u16, pid: u16) -> (d: Vec<u8>)
    ensures
        d@ == device_info(vid, pid),
        d.len() == 312,
{
    let mut d: Vec<u8> = Vec::new();
    put_text_field(&mut d, "/sys/devices/platform/vhci_hcd.0/usb1/1-1", 255, 256);
    put_text_field(&mut d, "1-1", 32, 32);
    put_be32(&mut d, HID_BUSNUM);
    put_be32(&mut d, HID_DEVNUM);
    put_be32(&mut d, HID_SPEED);
    put_be16(&mut d, vid);
    put_be16(&mut d, pid);
    put_be16(&mut d, 0x0100);  // bcdDevice
    d.push(0x00);  // bDeviceClass
    d.push(0x00);  // bDeviceSubClass
    d.push(0x00);  // bDeviceProtocol
    d.push(1);  // bConfigurationValue
    d.push(1);  // bNumConfigurations
    d.push(1);  // bNumInterfaces
    assert(d@ =~= device_info(vid, pid));
    d
}

// ---------------------------------------------------------------------------
// Device list and import
// ---------------------------------------------------------------------------

/// The head of a reply or request: version, operation, status.
pub open spec fn op_header(code: u16, status: u32) -> Seq<u8> {
    be16(USBIP_VERSION) + be16(code) + be32(status)
}

fn build_op_header(code: u16, status: u32) -> (d: Vec<u8>)
    ensures
        d@ == op_header(code, status),
{
    let mut d: Vec<u8> = Vec::new();
    put_be16(&mut d, USBIP_VERSION);
    put_be16(&mut d, code);
    put_be32(&mut d, status);
    assert(d@ =~= op_header(code, status));
    d
}

/// The answer to a request for the list of devices: success, one device, its
/// description, and its one interface of class HID.
pub open spec fn devlist_reply(vid: u16, pid: u16) -> Seq<u8> {
    op_header(OP_REP_DEVLIST, 0) + be32(1) + device_info(vid, pid) + seq![0x03u8, 0, 0, 0]
}

/// The answer to a request for the list of devices.
pub fn build_devlist_reply(vid: u16, pid: u16) -> (d: Vec<u8>)
    ensures
        d@ == devlist_reply(vid, pid),
{
    let mut d = build_op_header(OP_REP_DEVLIST, 0);
    put_be32(&mut d, 1);
    put_all(&mut d, usbip_device_info(vid, pid).as_slice());
    put_all(&mut d, &[0x03, 0x00, 0x00, 0x00]);
    assert(d@ =~= devlist_reply(vid, pid));
    d
}

/// The answer to an import request that is granted.
pub open spec fn import_reply(vid: u16, pid: u16) -> Seq<u8> {
    op_header(OP_REP_IMPORT, 0) + device_info(vid, pid)
}

/// The answer to an import request that is granted.
pub fn build_import_reply(vid: u16, pid: u16) -> (d: Vec<u8>)
    ensures
        d@ == import_reply(vid, pid),
{
    let mut d = build_op_header(OP_REP_IMPORT, 0);
    put_all(&mut d, usbip_device_info(vid, pid).as_slice());
    d
}

/// The answer to an import request for a device that is not there.
pub open spec fn import_refusal() -> Seq<u8> {
    op_header(OP_REP_IMPORT, 1)
}

/// The answer to an import request for a device that is not there.
pub fn build_import_refusal() -> (d: Vec<u8>)
    ensures
        d@ == import_refusal(),
{
    build_op_header(OP_REP_IMPORT, 1)
}

/// The request to import the virtual device.
pub open spec fn import_request() -> Seq<u8> {
    op_header(OP_REQ_IMPORT, 0) + text_field(bus_id(), 32, 32)
}

/// The request to import the virtual device.
pub fn build_import_request() -> (d: Vec<u8>)
    ensures
        d@ == import_request(),
{
    let mut d = build_op_header(OP_REQ_IMPORT, 0);
    put_text_field(&mut d, "1-1", 32, 32);
    d
}

// ---------------------------------------------------------------------------
// What a client asks of the daemon
// ---------------------------------------------------------------------------

/// What the daemon does with a new connection, by the request's head.
pub enum Greeting {
    /// Send these bytes and close.
    List(Vec<u8>),
    /// Read the 32 bytes of the bus id that follow.
    Import,
    /// Close.
    Ignore,
}

/// What the daemon does with a new connection.
pub enum GreetingView {
    List(Seq<u8>),
    Import,
    Ignore,
}

impl View for Greeting {
    type V = GreetingView;

    open spec fn view(&self) -> GreetingView {
        match self {
            Greeting::List(d) => GreetingView::List(d@),
            Greeting::Import => GreetingView::Import,
            Greeting::Ignore => GreetingView::Ignore,
        }
    }
}

/// What the daemon does with a connection whose first eight bytes are
/// `header`: the operation stands in the third and fourth.
pub open spec fn greeting(header: Seq<u8>, vid: u16, pid: u16) -> GreetingView {
    let code = word16(header[2], header[3]);
    if code == OP_REQ_DEVLIST {
        GreetingView::List(devlist_reply(vid, pid))
    } else if code == OP_REQ_IMPORT {
        GreetingView::Import
    } else {
        GreetingView::Ignore
    }
}

/// What the daemon does with a new connection.
pub fn greet(header: &[u8; 8], vid: u16, pid: u16) -> (r: Greeting)
    ensures
        r@ == greeting(header@, vid, pid),
{
    let code: u16 = join16(header[2], header[3]);
    if code == OP_REQ_DEVLIST {
        Greeting::List(build_devlist_reply(vid, pid))
    } else if code == OP_REQ_IMPORT {
        Greeting::Import
    } else {
        Greeting::Ignore
    }
}

/// The bus id of an import request names the virtual device: its characters,
/// then zeros up to the end of the field.
pub open spec fn names_device(busid: Seq<u8>) -> bool {
    busid == text_field(bus_id(), 32, 32)
}

/// Whether the bus id of an import request names the virtual device.
pub fn is_device_busid(busid: &[u8; 32]) -> (r: bool)
    ensures
        r == names_device(busid@),
{
    let mut wanted: Vec<u8> = Vec::new();
    put_text_field(&mut wanted, "1-1", 32, 32);
    assert(wanted@ =~= text_field(bus_id(), 32, 32));
    let mut i: usize = 0;
    while i < 32
        invariant
            i <= 32,
            wanted.len() == 32,
            wanted@ == text_field(bus_id(), 32, 32),
            forall|k: int| 0 <= k < i ==> busid@[k] == wanted@[k],
        decreases 32 - i,
    {
        if busid[i] != wanted[i] {
            return false;
        }
        i = i + 1;
    }
    assert(busid@ =~= wanted@);
    true
}

/// The daemon's answer to an import request with the given bus id.
pub open spec fn import_answer(busid: Seq<u8>, vid: u16, pid: u16) -> Seq<u8> {
    if names_device(busid) {
        import_reply(vid, pid)
    } else {
        import_refusal()
    }
}

/// Answers an import request: the bytes to send, and whether transfers follow.
pub fn answer_import(busid: &[u8; 32], vid: u16, pid: u16) -> (r: (Vec<u8>, bool))
    ensures
        r.0@ == import_answer(busid@, vid, pid),
        r.1 == names_device(busid@),
{
    if is_device_busid(busid) {
        (build_import_reply(vid, pid), true)
    } else {
        (build_import_refusal(), false)
    }
}

/// The status in the first eight bytes of a reply.
pub open spec fn reply_status(header: Seq<u8>) -> int {
    word32(header, 4)
}

/// The status in the first eight bytes of a reply.
pub fn import_status(header: &[u8]) -> (r: u32)
    requires
        header.len() >= 8,
    ensures
        r == reply_status(header@),
{
    get_be32(header, 4)
}

proof fn lemma_op_header(code: u16, status: u32, rest: Seq<u8>)
    ensures
        op_header(code, status).len() == 8,
        word16((op_header(code, status) + rest)[2], (op_header(code, status) + rest)[3]) == code,
        reply_status(op_header(code, status) + rest) == status,
{
    let s = op_header(code, status) + rest;
    assert(s[2] == be16(code)[0] && s[3] == be16(code)[1]);
    assert(s[4] == be32(status)[0] && s[5] == be32(status)[1] && s[6] == be32(status)[2] && s[7]
        == be32(status)[3]);
}

/// The daemon grants the import request that the tool sends, whatever the
/// device's ids; and the reply is what the tool then reads: eight bytes with
/// status zero and a description of 312 bytes.
pub proof fn law_import_handshake(vid: u16, pid: u16)
    ensures
        import_request().len() == 40,
        greeting(import_request().take(8), vid, pid) == GreetingView::Import,
        names_device(import_request().skip(8)),
        import_reply(vid, pid).len() == 8 + 312,
        reply_status(import_reply(vid, pid).take(8)) == 0,
        import_reply(vid, pid).skip(8) == device_info(vid, pid),
{
    let id = text_field(bus_id(), 32, 32);
    lemma_op_header(OP_REQ_IMPORT, 0, id);
    lemma_op_header(OP_REP_IMPORT, 0, device_info(vid, pid));
    assert(import_request().skip(8) =~= id);
    assert(device_info(vid, pid).len() == 312);
    assert(import_reply(vid, pid).skip(8) =~= device_info(vid, pid));
}

/// An import request for any other bus id is refused with a status that is not
/// zero, and nothing after it.
pub proof fn law_import_refused(busid: Seq<u8>, vid: u16, pid: u16)
    requires
        !names_device(busid),
    ensures
        import_answer(busid, vid, pid).len() == 8,
        reply_status(import_answer(busid, vid, pid)) != 0,
{
    lemma_op_header(OP_REP_IMPORT, 1, seq![]);
    assert(op_header(OP_REP_IMPORT, 1) + seq![] =~= op_header(OP_REP_IMPORT, 1));
}

/// `n` NUL characters.
pub open spec fn nuls(n: int) -> Seq<char> {
    Seq::new(n as nat, |i: int| '\0')
}

proof fn lemma_trim_nuls(base: Seq<char>, n: int)
    requires
        base.len() > 0,
        base.last() != '\0',
        n >= 0,
    ensures
        trim_end_char_of(base + nuls(n), '\0') == base,
    decreases n,
{
    let s = base + nuls(n);
    if n == 0 {
        assert(s =~= base);
    } else {
        assert(s.drop_last() =~= base + nuls(n - 1));
        lemma_trim_nuls(base, n - 1);
    }
}

proof fn lemma_trimmed_nuls(s: Seq<char>)
    ensures
        s == trim_end_char_of(s, '\0') + nuls(s.len() - trim_end_char_of(s, '\0').len()),
        trim_end_char_of(s, '\0').len() <= s.len(),
    decreases s.len(),
{
    if s.len() > 0 && s.last() == '\0' {
        let init = s.drop_last();
        let t = trim_end_char_of(init, '\0');
        lemma_trimmed_nuls(init);
        assert(s =~= init.push('\0'));
        assert(t + nuls(s.len() - t.len()) =~= (t + nuls(init.len() - t.len())).push('\0'));
    }
    assert(s =~= trim_end_char_of(s, '\0') + nuls(s.len() - trim_end_char_of(s, '\0').len()));
}

proof fn lemma_bus_id_bytes(n: int)
    requires
        n >= 0,
    ensures
        encode_utf8(bus_id() + nuls(n)) == seq![0x31u8, 0x2d, 0x31] + zeros(n),
        bus_id() == seq!['1', '-', '1'],
{
    reveal_strlit("1-1");
    assert(bus_id() =~= seq!['1', '-', '1']);
    let s = bus_id() + nuls(n);
    assert(is_ascii_chars(s));
    is_ascii_chars_encode_utf8(s);
    assert(encode_utf8(s) =~= seq![0x31u8, 0x2d, 0x31] + zeros(n));
}

/// The bus id names the device exactly when, read as text and freed of the
/// NULs at its end, it is the device's name.
pub proof fn law_busid_as_text(busid: Seq<u8>)
    requires
        busid.len() == 32,
    ensures
        names_device(busid) <==> valid_utf8(busid) && trim_end_char_of(decode_utf8(busid), '\0')
            == bus_id(),
{
    lemma_bus_id_bytes(0);
    assert(bus_id() + nuls(0) =~= bus_id());
    assert(encode_utf8(bus_id()) =~= seq![0x31u8, 0x2d, 0x31]);
    lemma_bus_id_bytes(29);
    assert(text_field(bus_id(), 32, 32) =~= seq![0x31u8, 0x2d, 0x31] + zeros(29));
    if names_device(busid) {
        let s = bus_id() + nuls(29);
        encode_utf8_valid_utf8(s);
        encode_utf8_decode_utf8(s);
        lemma_trim_nuls(bus_id(), 29);
    }
    if valid_utf8(busid) && trim_end_char_of(decode_utf8(busid), '\0') == bus_id() {
        let d = decode_utf8(busid);
        decode_utf8_encode_utf8(busid);
        lemma_trimmed_nuls(d);
        lemma_bus_id_bytes(d.len() - 3);
        assert(busid.len() == d.len());
    }
}

/// The description of the device, byte by byte: its path and its bus id, each
/// with zeros up to the end of its field, bus one, device one, full speed, the
/// ids most significant byte first, version one, and one configuration with one
/// interface.
pub proof fn law_device_info_bytes(vid: u16, pid: u16)
    ensures
        device_info(vid, pid).len() == 312,
        device_info(vid, pid).take(41) == encode_utf8("/sys/devices/platform/vhci_hcd.0/usb1/1-1"@),
        device_info(vid, pid).subrange(41, 256) == zeros(215),
        device_info(vid, pid).subrange(256, 288) == seq![0x31u8, 0x2d, 0x31] + zeros(29),
        device_info(vid, pid).skip(288) == seq![
            0u8,
            0,
            0,
            1,
            0,
            0,
            0,
            1,
            0,
            0,
            0,
            2,
            (vid / 256) as u8,
            (vid % 256) as u8,
            (pid / 256) as u8,
            (pid % 256) as u8,
            1,
            0,
            0,
            0,
            0,
            1,
            1,
            1,
        ],
{
    reveal_strlit("/sys/devices/platform/vhci_hcd.0/usb1/1-1");
    let path = device_path();
    assert(is_ascii_chars(path));
    is_ascii_chars_encode_utf8(path);
    assert(encode_utf8(path).len() == 41);
    lemma_bus_id_bytes(0);
    assert(bus_id() + nuls(0) =~= bus_id());
    let a = text_field(path, 255, 256);
    let b = text_field(bus_id(), 32, 32);
    assert(b =~= seq![0x31u8, 0x2d, 0x31] + zeros(29));
    assert(a.take(41) =~= encode_utf8(path));
    assert(a.subrange(41, 256) =~= zeros(215));
    let d = device_info(vid, pid);
    assert(d.take(41) =~= a.take(41));
    assert(d.subrange(41, 256) =~= a.subrange(41, 256));
    assert(d.subrange(256, 288) =~= b);
    assert(d.skip(288) =~= seq![
        0u8,
        0,
        0,
        1,
        0,
        0,
        0,
        1,
        0,
        0,
        0,
        2,
        (vid / 256) as u8,
        (vid % 256) as u8,
        (pid / 256) as u8,
        (pid % 256) as u8,
        1,
        0,
        0,
        0,
        0,
        1,
        1,
        1,
    ]);
}

/// A request for the list of devices is answered with the one device and its
/// one interface of the HID class, whatever version the host names; a request
/// for an import is heard; and nothing else is answered.
pub proof fn law_greeting_bytes(header: Seq<u8>, vid: u16, pid: u16)
    requires
        header.len() == 8,
    ensures
        header[2] == 0x80 && header[3] == 0x05 ==> (greeting(header, vid, pid) matches
            GreetingView::List(reply) && reply == seq![0x01u8, 0x11, 0, 5, 0, 0, 0, 0, 0, 0, 0, 1]
            + device_info(vid, pid) + seq![3u8, 0, 0, 0]),
        header[2] == 0x80 && header[3] == 0x03 ==> greeting(header, vid, pid)
            == GreetingView::Import,
        !(header[2] == 0x80 && (header[3] == 0x05 || header[3] == 0x03)) ==> greeting(
            header,
            vid,
            pid,
        ) == GreetingView::Ignore,
{
    assert(op_header(OP_REP_DEVLIST, 0) + be32(1) =~= seq![
        0x01u8,
        0x11,
        0,
        5,
        0,
        0,
        0,
        0,
        0,
        0,
        0,
        1,
    ]);
}

/// An import is granted to the bus id `1-1` and to no other: with no status and
/// the device, or else with a status of one and nothing more.
pub proof fn law_import_answer_bytes(busid: Seq<u8>, vid: u16, pid: u16)
    requires
        busid.len() == 32,
    ensures
        ({
            let ours = busid == seq![0x31u8, 0x2d, 0x31] + zeros(29);
            &&& names_device(busid) == ours
            &&& ours ==> import_answer(busid, vid, pid) == seq![0x01u8, 0x11, 0, 3, 0, 0, 0, 0]
                + device_info(vid, pid)
            &&& !ours ==> import_answer(busid, vid, pid) == seq![0x01u8, 0x11, 0, 3, 0, 0, 0, 1]
        }),
{
    lemma_bus_id_bytes(0);
    assert(bus_id() + nuls(0) =~= bus_id());
    assert(text_field(bus_id(), 32, 32) =~= seq![0x31u8, 0x2d, 0x31] + zeros(29));
    assert(op_header(OP_REP_IMPORT, 0) =~= seq![0x01u8, 0x11, 0, 3, 0, 0, 0, 0]);
    assert(op_header(OP_REP_IMPORT, 1) =~= seq![0x01u8, 0x11, 0, 3, 0, 0, 0, 1]);
}

} // verus!
