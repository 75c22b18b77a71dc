//! The USB descriptors of the virtual scanner, and its answers to control
//! requests.

use vstd::prelude::*;
use vstd::utf8::*;

use crate::bytes::{join16, le16, put_all, put_le16, put_zeros, word16, zeros};
use crate::text::chars_of;

verus! {

/// The report descriptor: one vendor-defined input report of 8 raw bytes.
pub open spec fn report_descriptor() -> Seq<u8> {
    seq![
        0x06u8, 0x00, 0xff,  // Usage Page (vendor-defined 0xff00)
        0x09, 0x01,  // Usage (1)
        0xa1, 0x01,  // Collection (Application)
        0x09, 0x01,  // Usage (1)
        0x15, 0x00,  // Logical Minimum (0)
        0x26, 0xff, 0x00,  // Logical Maximum (255)
        0x75, 0x08,  // Report Size (8)
        0x95, 0x08,  // Report Count (8)
        0x81, 0x02,  // Input (Data, Variable, Absolute)
        0xc0,  // End Collection
    ]
}

/// The report descriptor.
pub fn build_report_descriptor() -> (d: Vec<u8>)
    ensures
        d@ == report_descriptor(),
{
    let d: Vec<u8> = vec![
        0x06, 0x00, 0xff, 0x09, 0x01, 0xa1, 0x01, 0x09, 0x01, 0x15, 0x00, 0x26, 0xff, 0x00, 0x75,
        0x08, 0x95, 0x08, 0x81, 0x02, 0xc0,
    ];
    assert(d@ =~= report_descriptor());
    d
}

/// The device descriptor of a device with the given vendor and product.
pub open spec fn device_descriptor(vid: u16, pid: u16) -> Seq<u8> {
    seq![18u8, 0x01, 0x00, 0x02, 0x00, 0x00, 0x00, 64] + le16(vid) + le16(pid) + le16(0x0100)
        + seq![1u8, 2, 0, 1]
}

/// The device descriptor of a device with the given vendor and product.
pub fn build_device_descriptor(vid: u16, pid: u16) -> (d: Vec<u8>)
    ensures
        d@ == device_descriptor(vid, pid),
        d.len() == 18,
{
    let mut d: Vec<u8> = vec![
        18,  // bLength
        0x01,  // bDescriptorType = DEVICE
        0x00,
        0x02,  // bcdUSB = 2.00
        0x00,  // bDeviceClass
        0x00,  // bDeviceSubClass
        0x00,  // bDeviceProtocol
        64,  // bMaxPacketSize0
    ];
    put_le16(&mut d, vid);
    put_le16(&mut d, pid);
    put_le16(&mut d, 0x0100);  // bcdDevice
    d.push(1);  // iManufacturer
    d.push(2);  // iProduct
    d.push(0);  // iSerialNumber
    d.push(1);  // bNumConfigurations
    assert(d@ =~= device_descriptor(vid, pid));
    d
}

/// The configuration descriptor with everything that goes with it: one
/// configuration, its interface, the HID descriptor, and the endpoint.
pub open spec fn config_descriptor() -> Seq<u8> {
    seq![9u8, 0x02] + le16(34) + seq![1u8, 1, 0, 0x80, 50] + seq![9u8, 0x04, 0, 0, 1, 0x03, 0, 0, 0]
        + seq![9u8, 0x21] + le16(0x0111) + seq![0u8, 1, 0x22] + le16(
        report_descriptor().len() as u16,
    ) + seq![7u8, 0x05, 0x81, 0x03, 8, 0, 10]
}

/// The configuration descriptor with everything that goes with it.
pub fn build_config_descriptor() -> (d: Vec<u8>)
    ensures
        d@ == config_descriptor(),
        d.len() == 34,
{
    let report_desc_len: u16 = build_report_descriptor().len() as u16;
    let total_len: u16 = 9 + 9 + 9 + 7;
    let mut d: Vec<u8> = Vec::new();
    d.push(9);
    d.push(0x02);  // CONFIGURATION
    put_le16(&mut d, total_len);
    put_all(&mut d, &[1, 1, 0, 0x80, 50]);
    // One interface of class HID without a boot protocol.
    put_all(&mut d, &[9, 0x04, 0, 0, 1, 0x03, 0x00, 0x00, 0]);
    d.push(9);
    d.push(0x21);  // HID
    put_le16(&mut d, 0x0111);  // bcdHID 1.11
    d.push(0);  // bCountryCode
    d.push(1);  // bNumDescriptors
    d.push(0x22);  // Report
    put_le16(&mut d, report_desc_len);
    // Endpoint 1, interrupt, to the host.
    put_all(&mut d, &[7, 0x05, 0x81, 0x03, 8, 0, 10]);
    assert(d@ =~= config_descriptor());
    d
}

/// The descriptor that lists the one language, US English.
pub open spec fn lang_id_descriptor() -> Seq<u8> {
    seq![4u8, 0x03, 0x09, 0x04]
}

/// The descriptor that lists the one language, US English.
pub fn build_lang_id_descriptor() -> (d: Vec<u8>)
    ensures
        d@ == lang_id_descriptor(),
{
    let d: Vec<u8> = vec![4, 0x03, 0x09, 0x04];
    assert(d@ =~= lang_id_descriptor());
    d
}

/// The UTF-16 code units of one character.
pub open spec fn utf16_units(c: char) -> Seq<u16> {
    let n = c as u32;
    if n < 0x1_0000 {
        seq![n as u16]
    } else {
        seq![(0xd800 + (n - 0x1_0000) / 0x400) as u16, (0xdc00 + (n - 0x1_0000) % 0x400) as u16]
    }
}

/// The UTF-16 code units of a text.
pub open spec fn utf16_of(s: Seq<char>) -> Seq<u16>
    decreases s.len(),
{
    if s.len() == 0 {
        seq![]
    } else {
        utf16_of(s.drop_last()) + utf16_units(s.last())
    }
}

/// The UTF-16 code units of a text.
pub fn encode_utf16(s: &str) -> (r: Vec<u16>)
    ensures
        r@ == utf16_of(s@),
{
    let cs = chars_of(s);
    let mut r: Vec<u16> = Vec::new();
    let mut i: usize = 0;
    assert(s@.take(0) =~= seq![]);
    while i < cs.len()
        invariant
            cs@ == s@,
            i <= cs.len(),
            r@ == utf16_of(s@.take(i as int)),
        decreases cs.len() - i,
    {
        let ghost before = r@;
        let c: char = cs[i];
        let n: u32 = c as u32;
        proof {
            char_is_scalar(c);
        }
        if n < 0x1_0000 {
            r.push(n as u16);
        } else {
            r.push((0xd800 + (n - 0x1_0000) / 0x400) as u16);
            r.push((0xdc00 + (n - 0x1_0000) % 0x400) as u16);
        }
        assert(r@ =~= before + utf16_units(s@[i as int]));
        assert(s@.take(i + 1).drop_last() =~= s@.take(i as int));
        i = i + 1;
    }
    assert(s@.take(i as int) =~= s@);
    r
}

/// The bytes of a sequence of code units, each least significant byte first.
pub open spec fn le_units(units: Seq<u16>) -> Seq<u8>
    decreases units.len(),
{
    if units.len() == 0 {
        seq![]
    } else {
        le_units(units.drop_last()) + le16(units.last())
    }
}

/// The string descriptor of a text. Its length byte holds the low eight bits
/// of the descriptor's length.
pub open spec fn string_descriptor(s: Seq<char>) -> Seq<u8> {
    let units = utf16_of(s);
    seq![((2 + 2 * units.len()) % 256) as u8, 0x03] + le_units(units)
}

/// The string descriptor of a text.
pub fn build_string_descriptor(s: &str) -> (d: Vec<u8>)
    ensures
        d@ == string_descriptor(s@),
{
    let units = encode_utf16(s);
    let low: usize = units.len() % 128 * 2 + 2;
    let mut d: Vec<u8> = Vec::new();
    d.push((low % 256) as u8);
    d.push(0x03);
    let ghost head = d@;
    assert((2 + 2 * units@.len()) % 256 == low % 256);
    let mut i: usize = 0;
    assert(units@.take(0) =~= seq![]);
    assert(head + le_units(units@.take(0)) =~= head);
    while i < units.len()
        invariant
            i <= units.len(),
            d@ == head + le_units(units@.take(i as int)),
        decreases units.len() - i,
    {
        put_le16(&mut d, units[i]);
        assert(units@.take(i + 1).drop_last() =~= units@.take(i as int));
        assert(d@ =~= head + le_units(units@.take(i + 1)));
        i = i + 1;
    }
    assert(units@.take(i as int) =~= units@);
    assert(d@ =~= string_descriptor(s@));
    d
}

/// The first `n` bytes of `data`; all of them if there are fewer.
pub open spec fn at_most(data: Seq<u8>, n: int) -> Seq<u8> {
    if data.len() <= n {
        data
    } else {
        data.take(n)
    }
}

/// The first `n` bytes of `data`; all of them if there are fewer.
fn cut(data: Vec<u8>, n: usize) -> (r: Vec<u8>)
    ensures
        r@ == at_most(data@, n as int),
{
    let mut data = data;
    if data.len() > n {
        data.truncate(n);
    }
    data
}

/// The smaller of two numbers.
pub open spec fn least(a: int, b: int) -> int {
    if a <= b {
        a
    } else {
        b
    }
}

/// The manufacturer that the device names.
pub open spec fn manufacturer() -> Seq<char> {
    "virsh-usb"@
}

/// The descriptor of the given type and index, where the device has one.
pub open spec fn descriptor_of(
    kind: int,
    index: int,
    vid: u16,
    pid: u16,
    device_name: Seq<char>,
) -> Option<Seq<u8>> {
    if kind == 0x01 {
        Some(device_descriptor(vid, pid))
    } else if kind == 0x02 {
        Some(config_descriptor())
    } else if kind == 0x03 && index == 0 {
        Some(lang_id_descriptor())
    } else if kind == 0x03 && index == 1 {
        Some(string_descriptor(manufacturer()))
    } else if kind == 0x03 && index == 2 {
        Some(string_descriptor(device_name))
    } else if kind == 0x22 {
        Some(report_descriptor())
    } else {
        None
    }
}

/// The answer to a control request, given its eight setup bytes: request type,
/// request, value, index and length, the last three of two bytes each, least
/// significant first. A request from the host is acknowledged with no data.
pub open spec fn control_response(
    setup: Seq<u8>,
    vid: u16,
    pid: u16,
    device_name: Seq<char>,
) -> Seq<u8> {
    let to_host = setup[0] >= 128;
    let kind = setup[0] / 32 % 4;
    let request = setup[1];
    let length = word16(setup[7], setup[6]);
    if !to_host {
        seq![]
    } else if kind == 0 && request == 0x06 {
        // GET_DESCRIPTOR
        match descriptor_of(setup[3] as int, setup[2] as int, vid, pid, device_name) {
            Some(data) => at_most(data, length),
            None => seq![],
        }
    } else if kind == 0 && request == 0x08 {
        // GET_CONFIGURATION
        seq![1u8]
    } else if kind == 1 && request == 0x01 {
        // GET_REPORT
        zeros(least(8, length))
    } else if kind == 1 && request == 0x02 {
        // GET_IDLE
        zeros(least(1, length))
    } else {
        seq![]
    }
}

/// Answers a control request: the data for one to the host, nothing for one
/// from the host.
pub fn handle_control_request(setup: &[u8; 8], vid: u16, pid: u16, device_name: &str) -> (r: Vec<u8>)
    ensures
        r@ == control_response(setup@, vid, pid, device_name@),
{
    let bm_request_type: u8 = setup[0];
    let b_request: u8 = setup[1];
    let w_value: u16 = join16(setup[3], setup[2]);
    let w_length: usize = join16(setup[7], setup[6]) as usize;
    let direction_in: bool = (bm_request_type & 0x80) != 0;
    let req_type: u8 = (bm_request_type >> 5) & 0x03;
    assert(((bm_request_type & 0x80) != 0) == (bm_request_type >= 128)) by (bit_vector);
    assert(((bm_request_type >> 5) & 0x03) == bm_request_type / 32 % 4) by (bit_vector);
    let ghost expected = control_response(setup@, vid, pid, device_name@);
    if !direction_in {
        let none: Vec<u8> = Vec::new();
        assert(none@ =~= expected);
        return none;
    }
    if req_type == 0 && b_request == 0x06 {
        let desc_type: u8 = (w_value / 256) as u8;
        let desc_index: u8 = (w_value % 256) as u8;
        if desc_type == 0x01 {
            cut(build_device_descriptor(vid, pid), w_length)
        } else if desc_type == 0x02 {
            cut(build_config_descriptor(), w_length)
        } else if desc_type == 0x03 && desc_index == 0 {
            cut(build_lang_id_descriptor(), w_length)
        } else if desc_type == 0x03 && desc_index == 1 {
            cut(build_string_descriptor("virsh-usb"), w_length)
        } else if desc_type == 0x03 && desc_index == 2 {
            cut(build_string_descriptor(device_name), w_length)
        } else if desc_type == 0x22 {
            cut(build_report_descriptor(), w_length)
        } else {
            let none: Vec<u8> = Vec::new();
            assert(none@ =~= expected);
            none
        }
    } else if req_type == 0 && b_request == 0x08 {
        let one: Vec<u8> = vec![1];
        assert(one@ =~= expected);
        one
    } else if req_type == 1 && (b_request == 0x01 || b_request == 0x02) {
        let most: usize = if b_request == 0x01 {
            8
        } else {
            1
        };
        let mut data: Vec<u8> = Vec::new();
        put_zeros(
            &mut data,
            if w_length < most {
                w_length
            } else {
                most
            },
        );
        assert(data@ =~= expected);
        data
    } else {
        let none: Vec<u8> = Vec::new();
        assert(none@ =~= expected);
        none
    }
}

proof fn lemma_le_units_len(units: Seq<u16>)
    ensures
        le_units(units).len() == 2 * units.len(),
    decreases units.len(),
{
    if units.len() > 0 {
        lemma_le_units_len(units.drop_last());
    }
}

/// Each descriptor states its own length: the device descriptor has 18 bytes,
/// the configuration with all that goes with it 34, and these are the lengths
/// that they announce; so do the parts of the configuration, one after the
/// other, and the HID descriptor announces the length of the report
/// descriptor.
pub proof fn law_descriptors_state_their_lengths(vid: u16, pid: u16)
    ensures
        device_descriptor(vid, pid).len() == 18,
        device_descriptor(vid, pid)[0] == 18,
        config_descriptor().len() == 34,
        word16(config_descriptor()[3], config_descriptor()[2]) == 34,
        config_descriptor()[0] + config_descriptor()[9] + config_descriptor()[18]
            + config_descriptor()[27] == 34,
        config_descriptor()[0] == 9 && config_descriptor()[9] == 9 && config_descriptor()[18] == 9,
        word16(config_descriptor()[26], config_descriptor()[25]) == report_descriptor().len(),
        lang_id_descriptor()[0] == lang_id_descriptor().len(),
{
    assert(report_descriptor().len() == 21);
}

/// The device descriptor carries the vendor and the product it was made for.
pub proof fn law_device_descriptor_ids(vid: u16, pid: u16)
    ensures
        word16(device_descriptor(vid, pid)[9], device_descriptor(vid, pid)[8]) == vid,
        word16(device_descriptor(vid, pid)[11], device_descriptor(vid, pid)[10]) == pid,
{
}

/// A string descriptor has two bytes more than twice its code units, and says
/// so while that fits into one byte.
pub proof fn law_string_descriptor_length(s: Seq<char>)
    ensures
        string_descriptor(s).len() == 2 + 2 * utf16_of(s).len(),
        utf16_of(s).len() <= 126 ==> string_descriptor(s)[0] == string_descriptor(s).len(),
{
    lemma_le_units_len(utf16_of(s));
}

/// An answer is never longer than the host asked for, except that the one byte
/// of GET_CONFIGURATION is always sent; and a request from the host gets no
/// data.
pub proof fn law_control_response_bounded(
    setup: Seq<u8>,
    vid: u16,
    pid: u16,
    device_name: Seq<char>,
)
    requires
        setup.len() == 8,
    ensures
        !(setup[0] / 32 % 4 == 0 && setup[1] == 0x08) ==> control_response(
            setup,
            vid,
            pid,
            device_name,
        ).len() <= word16(setup[7], setup[6]),
        setup[0] < 128 ==> control_response(setup, vid, pid, device_name).len() == 0,
{
}

/// A host that asks for a descriptor gets the first bytes of it, as many as it
/// asks for, whichever recipient it names: these bytes of the device, of its
/// configuration, of its reports and of its languages; a string for its
/// manufacturer and one for its name; and of any other descriptor, none.
pub proof fn law_descriptor_request(setup: Seq<u8>, vid: u16, pid: u16, device_name: Seq<char>)
    requires
        setup.len() == 8,
        setup[0] >= 128,
        setup[0] / 32 % 4 == 0,
        setup[1] == 6,
    ensures
        ({
            let asked = setup[6] + 256 * setup[7];
            let first = |d: Seq<u8>|
                d.take(
                    if asked < d.len() {
                        asked
                    } else {
                        d.len() as int
                    },
                );
            let given = control_response(setup, vid, pid, device_name);
            &&& setup[3] == 1 ==> given == first(
                seq![
                    18u8,
                    1,
                    0,
                    2,
                    0,
                    0,
                    0,
                    64,
                    (vid % 256) as u8,
                    (vid / 256) as u8,
                    (pid % 256) as u8,
                    (pid / 256) as u8,
                    0,
                    1,
                    1,
                    2,
                    0,
                    1,
                ],
            )
            &&& setup[3] == 2 ==> given == first(
                seq![9u8, 2, 34, 0, 1, 1, 0, 0x80, 50] + seq![9u8, 4, 0, 0, 1, 3, 0, 0, 0] + seq![
                    9u8,
                    0x21,
                    0x11,
                    1,
                    0,
                    1,
                    0x22,
                    21,
                    0,
                ] + seq![7u8, 5, 0x81, 3, 8, 0, 10],
            )
            &&& setup[3] == 0x22 ==> given == first(
                seq![
                    0x06u8, 0x00, 0xff, 0x09, 0x01, 0xa1, 0x01, 0x09, 0x01, 0x15, 0x00, 0x26, 0xff,
                    0x00, 0x75, 0x08, 0x95, 0x08, 0x81, 0x02, 0xc0,
                ],
            )
            &&& setup[3] == 3 && setup[2] == 0 ==> given == first(seq![4u8, 3, 9, 4])
            &&& setup[3] == 3 && setup[2] == 1 ==> given == first(string_descriptor("virsh-usb"@))
            &&& setup[3] == 3 && setup[2] == 2 ==> given == first(string_descriptor(device_name))
            &&& setup[3] == 3 && setup[2] > 2 ==> given.len() == 0
            &&& setup[3] != 1 && setup[3] != 2 && setup[3] != 3 && setup[3] != 0x22 ==> given.len()
                == 0
        }),
{
    let asked = setup[6] + 256 * setup[7];
    let given = control_response(setup, vid, pid, device_name);
    assert(asked == word16(setup[7], setup[6]));
    if setup[3] == 1 {
        let d = seq![
            18u8,
            1,
            0,
            2,
            0,
            0,
            0,
            64,
            (vid % 256) as u8,
            (vid / 256) as u8,
            (pid % 256) as u8,
            (pid / 256) as u8,
            0,
            1,
            1,
            2,
            0,
            1,
        ];
        assert(device_descriptor(vid, pid) =~= d);
        lemma_first(d, asked);
    } else if setup[3] == 2 {
        let d = seq![9u8, 2, 34, 0, 1, 1, 0, 0x80, 50] + seq![9u8, 4, 0, 0, 1, 3, 0, 0, 0] + seq![
            9u8,
            0x21,
            0x11,
            1,
            0,
            1,
            0x22,
            21,
            0,
        ] + seq![7u8, 5, 0x81, 3, 8, 0, 10];
        assert(report_descriptor().len() == 21);
        assert(config_descriptor() =~= d);
        lemma_first(d, asked);
    } else if setup[3] == 3 {
        lemma_first(lang_id_descriptor(), asked);
        lemma_first(string_descriptor("virsh-usb"@), asked);
        lemma_first(string_descriptor(device_name), asked);
    } else {
        lemma_first(report_descriptor(), asked);
    }
}

proof fn lemma_first(d: Seq<u8>, asked: int)
    requires
        0 <= asked,
    ensures
        at_most(d, asked) == d.take(
            if asked < d.len() {
                asked
            } else {
                d.len() as int
            },
        ),
{
    assert(d.take(d.len() as int) =~= d);
}

/// What else a host may ask for: the number of the configuration, which is one;
/// an empty report or idle rate of the HID class, as many bytes as it asks for
/// but no more than eight or one; and nothing else. What a host sends gets no
/// data back.
pub proof fn law_other_control_requests(
    setup: Seq<u8>,
    vid: u16,
    pid: u16,
    device_name: Seq<char>,
)
    requires
        setup.len() == 8,
    ensures
        ({
            let asked = setup[6] + 256 * setup[7];
            let kind = setup[0] / 32 % 4;
            let given = control_response(setup, vid, pid, device_name);
            &&& setup[0] < 128 ==> given.len() == 0
            &&& setup[0] >= 128 && kind == 0 && setup[1] == 8 ==> given == seq![1u8]
            &&& setup[0] >= 128 && kind == 1 && setup[1] == 1 ==> given.len() == (if asked < 8 {
                asked
            } else {
                8
            })
            &&& setup[0] >= 128 && kind == 1 && setup[1] == 2 ==> given.len() == (if asked < 1 {
                asked
            } else {
                1
            })
            &&& kind == 1 ==> forall|i: int| 0 <= i < given.len() ==> #[trigger] given[i] == 0
            &&& kind == 0 && setup[1] != 6 && setup[1] != 8 ==> given.len() == 0
            &&& kind == 1 && setup[1] != 1 && setup[1] != 2 ==> given.len() == 0
            &&& kind != 0 && kind != 1 ==> given.len() == 0
        }),
{
}

/// The string descriptor of a text holds its characters in order, two bytes
/// each, least significant first, if none lies beyond the sixteen bits.
pub proof fn law_string_descriptor_holds_the_text(s: Seq<char>)
    requires
        forall|i: int| 0 <= i < s.len() ==> (#[trigger] s[i]) as u32 <= 0xffff,
    ensures
        string_descriptor(s).len() == 2 + 2 * s.len(),
        string_descriptor(s)[0] == (2 + 2 * s.len()) % 256,
        string_descriptor(s)[1] == 3,
        forall|i: int|
            0 <= i < s.len() ==> string_descriptor(s)[2 + 2 * i] == (#[trigger] s[i]) as u32 % 256
                && string_descriptor(s)[3 + 2 * i] == s[i] as u32 / 256,
{
    lemma_basic_units(s);
    lemma_le_units_len(utf16_of(s));
    assert forall|i: int| 0 <= i < s.len() implies string_descriptor(s)[2 + 2 * i] == (
    #[trigger] s[i]) as u32 % 256 && string_descriptor(s)[3 + 2 * i] == s[i] as u32 / 256 by {
        char_is_scalar(s[i]);
        assert(utf16_of(s)[i] == s[i] as u32);
        lemma_unit_bytes(utf16_of(s), i);
    }
}

proof fn lemma_basic_units(s: Seq<char>)
    requires
        forall|i: int| 0 <= i < s.len() ==> (#[trigger] s[i]) as u32 <= 0xffff,
    ensures
        utf16_of(s).len() == s.len(),
        forall|i: int| 0 <= i < s.len() ==> #[trigger] utf16_of(s)[i] == s[i] as u32,
    decreases s.len(),
{
    if s.len() > 0 {
        let before = s.drop_last();
        assert forall|i: int| 0 <= i < before.len() implies (#[trigger] before[i]) as u32
            <= 0xffff by {
            assert(before[i] == s[i]);
        }
        lemma_basic_units(before);
        let c = s[s.len() - 1];
        char_is_scalar(c);
        assert(c as u32 <= 0xffff);
        assert(utf16_units(c) =~= seq![(c as u32) as u16]);
    }
}

proof fn lemma_unit_bytes(units: Seq<u16>, i: int)
    requires
        0 <= i < units.len(),
    ensures
        le_units(units).len() == 2 * units.len(),
        le_units(units)[2 * i] == units[i] % 256,
        le_units(units)[2 * i + 1] == units[i] / 256,
    decreases units.len(),
{
    lemma_le_units_len(units);
    lemma_le_units_len(units.drop_last());
    if i < units.len() - 1 {
        lemma_unit_bytes(units.drop_last(), i);
    }
}

/// A character beyond the sixteen bits is held as two code units from which it
/// is found again.
pub proof fn law_surrogates_hold_the_character(c: char)
    requires
        c as u32 >= 0x1_0000,
    ensures
        utf16_units(c).len() == 2,
        0xd800 <= utf16_units(c)[0] < 0xdc00,
        0xdc00 <= utf16_units(c)[1] < 0xe000,
        0x1_0000 + (utf16_units(c)[0] - 0xd800) * 0x400 + (utf16_units(c)[1] - 0xdc00) == c as u32,
{
    char_is_scalar(c);
}

} // verus!
