use plex_radio::text::{decimal, hex};

#[test]
fn decimal_writes_every_digit() {
    assert_eq!(decimal(0), "0");
    assert_eq!(decimal(7), "7");
    assert_eq!(decimal(10), "10");
    assert_eq!(decimal(1234567890), "1234567890");
    assert_eq!(decimal(1000), "1000");
    assert_eq!(decimal(u64::MAX), "18446744073709551615");
}

#[test]
fn hex_writes_every_digit() {
    assert_eq!(hex(0), "0");
    assert_eq!(hex(9), "9");
    assert_eq!(hex(10), "a");
    assert_eq!(hex(16), "10");
    assert_eq!(hex(0x1234_5678_9abc_def0), "123456789abcdef0");
    assert_eq!(hex(u64::MAX), "ffffffffffffffff");
}

#[test]
fn decimal_and_hex_agree_with_the_standard_formats() {
    let samples: [u64; 8] = [0, 1, 9, 15, 16, 99, 4096, 9_999_999_999];
    for n in samples {
        assert_eq!(decimal(n), n.to_string());
        assert_eq!(hex(n), format!("{:x}", n));
    }
}
