use mining_proxy::util::hex::{format_hex, hex_to_int, parse_hex};

#[test]
fn hex_to_int_reads_digits() {
    assert_eq!(hex_to_int("500000"), Some(5242880));
    assert_eq!(hex_to_int("ff"), Some(255));
    assert_eq!(hex_to_int("FF"), Some(255));
    assert_eq!(hex_to_int(""), None);
    assert_eq!(hex_to_int("0x10"), None);
    assert_eq!(hex_to_int("ffffffffffffffff"), Some(u64::MAX));
    assert_eq!(hex_to_int("10000000000000000"), None);
}

#[test]
fn parse_hex_takes_both_forms() {
    assert_eq!(parse_hex("0x500000"), 5242880);
    assert_eq!(parse_hex("500000"), 5242880);
    assert_eq!(parse_hex("0x"), 0);
    assert_eq!(parse_hex("zz"), 0);
    assert_eq!(parse_hex(""), 0);
}

#[test]
fn format_then_parse_is_identity() {
    for h in [0u64, 1, 15, 16, 255, 4096, 5242880, u64::MAX] {
        assert_eq!(parse_hex(&format_hex(h, true)), h);
        assert_eq!(parse_hex(&format_hex(h, false)), h);
    }
    assert_eq!(format_hex(5242880, true), "0x500000");
    assert_eq!(format_hex(0, false), "0");
}
