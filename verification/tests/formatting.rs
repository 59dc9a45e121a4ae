use devdash::formatting::{format_bytes, format_bytes_unit, format_number, u64_to_string, Unit};

#[test]
fn test_format_bytes() {
    assert_eq!(format_bytes(0), "0 B");
    assert_eq!(format_bytes(1023), "1023 B");
    assert_eq!(format_bytes(1024), "1.0 KB");
    assert_eq!(format_bytes(1536), "1.5 KB");
    assert_eq!(format_bytes(1024 * 1024), "1.0 MB");
    assert_eq!(format_bytes(1024 * 1024 * 1024), "1.0 GB");
    assert_eq!(format_bytes(1024_u64.pow(4)), "1.0 TB");
}

#[test]
fn test_format_bytes_unit() {
    assert_eq!(format_bytes_unit(1024, Unit::KB), "1.0 KB");
    assert_eq!(format_bytes_unit(1024, Unit::MB), "0.0 MB");
    assert_eq!(format_bytes_unit(1024, Unit::Bytes), "1024 B");
}

#[test]
fn test_format_number() {
    assert_eq!(format_number(123), "123");
    assert_eq!(format_number(1234), "1,234");
    assert_eq!(format_number(1234567), "1,234,567");
    assert_eq!(format_number(1234567890), "1,234,567,890");
}

#[test]
fn test_unit_cycle() {
    assert_eq!(Unit::Auto.next(), Unit::Bytes);
    assert_eq!(Unit::Bytes.next(), Unit::KB);
    assert_eq!(Unit::KB.next(), Unit::MB);
    assert_eq!(Unit::MB.next(), Unit::GB);
    assert_eq!(Unit::GB.next(), Unit::TB);
    assert_eq!(Unit::TB.next(), Unit::Auto);
}

#[test]
fn test_format_bytes_larger_values() {
    assert_eq!(format_bytes(1536 * 1024 * 1024), "1.5 GB");
    assert_eq!(format_bytes(512 * 1024 * 1024), "512.0 MB");
}

#[test]
fn test_format_bytes_rounding_is_half_even() {
    // 1024 + 51 bytes is 1.0498 KB, displayed as 1.0 KB; 1024 + 52 rounds up.
    assert_eq!(format_bytes_unit(1075, Unit::KB), "1.0 KB");
    assert_eq!(format_bytes_unit(1076, Unit::KB), "1.1 KB");
    // 256/1024 is exactly 0.25: ties go to the even tenth.
    assert_eq!(format_bytes_unit(256, Unit::KB), "0.2 KB");
}

#[test]
fn test_u64_to_string_plain_digits() {
    assert_eq!(u64_to_string(0), "0");
    assert_eq!(u64_to_string(907), "907");
    assert_eq!(u64_to_string(u64::MAX), "18446744073709551615");
}
