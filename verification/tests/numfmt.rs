use lib::numfmt::{format_decimal, format_hex, format_radix};

#[test]
fn decimal_formatting() {
    assert_eq!(format_decimal(0), "0");
    assert_eq!(format_decimal(7), "7");
    assert_eq!(format_decimal(10), "10");
    assert_eq!(format_decimal(1234), "1234");
    assert_eq!(format_decimal(u32::MAX as u64), "4294967295");
    assert_eq!(format_decimal(u64::MAX), "18446744073709551615");
}

#[test]
fn hex_formatting() {
    assert_eq!(format_hex(0), "0");
    assert_eq!(format_hex(15), "f");
    assert_eq!(format_hex(16), "10");
    assert_eq!(format_hex(0xdead_beef), "deadbeef");
    assert_eq!(format_hex(u64::MAX), "ffffffffffffffff");
}

#[test]
fn other_radixes() {
    assert_eq!(format_radix(5, 2), "101");
    assert_eq!(format_radix(8, 8), "10");
    assert_eq!(format_radix(35, 12), "2b");
}
