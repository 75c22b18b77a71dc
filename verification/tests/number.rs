use virsh_usb::number::{parse_radix, to_decimal, to_radix, ParseFault};

const SAMPLES: [&str; 18] = [
    "", "+", "-", "0", "+0", "007", "65535", "65536", "4294967295", "4294967296", "12a", "ff",
    "FF", "0x10", " 1", "1 ", "99999999999999999999999999", "ß",
];

#[test]
fn sixteen_bits_are_read_as_the_standard_library_does() {
    for s in SAMPLES {
        for radix in [10u32, 16] {
            let expected = u16::from_str_radix(s, radix);
            match parse_radix(s, u64::from(radix), 0xffff) {
                Ok(n) => assert_eq!(Ok(n as u16), expected, "{:?}", s),
                Err(fault) => {
                    assert_eq!(fault.describe(), expected.unwrap_err().to_string(), "{:?}", s)
                }
            }
        }
    }
}

#[test]
fn thirty_two_bits_are_read_as_the_standard_library_does() {
    for s in SAMPLES {
        for radix in [10u32, 16] {
            let expected = u32::from_str_radix(s, radix);
            match parse_radix(s, u64::from(radix), 0xffff_ffff) {
                Ok(n) => assert_eq!(Ok(n as u32), expected, "{:?}", s),
                Err(fault) => {
                    assert_eq!(fault.describe(), expected.unwrap_err().to_string(), "{:?}", s)
                }
            }
        }
    }
}

#[test]
fn each_fault_has_its_input() {
    assert_eq!(parse_radix("", 10, 0xffff), Err(ParseFault::Empty));
    assert_eq!(parse_radix("12a", 10, 0xffff), Err(ParseFault::InvalidDigit));
    assert_eq!(parse_radix("65536", 10, 0xffff), Err(ParseFault::TooLarge));
}

#[test]
fn numbers_are_written_in_their_base() {
    for n in [0u64, 7, 8, 0o644, 4096, 65537, u64::MAX] {
        assert_eq!(to_decimal(n), n.to_string());
        assert_eq!(to_radix(n, 8), format!("{:o}", n));
        assert_eq!(to_radix(n, 16), format!("{:x}", n));
        assert_eq!(to_radix(n, 2), format!("{:b}", n));
    }
}

#[test]
fn written_numbers_are_read_back() {
    for n in [0u64, 1, 9, 10, 65535, 0xffff_ffff] {
        assert_eq!(parse_radix(&to_decimal(n), 10, 0xffff_ffff), Ok(n));
        assert_eq!(parse_radix(&to_radix(n, 16), 16, 0xffff_ffff), Ok(n));
    }
}
