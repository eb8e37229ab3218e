use fsbrowse::format::format_size;

#[test]
fn bytes_are_printed_plain() {
    assert_eq!(format_size(0), "0B");
    assert_eq!(format_size(512), "512B");
    assert_eq!(format_size(1023), "1023B");
}

#[test]
fn kibibytes_get_two_decimals() {
    assert_eq!(format_size(1024), "1.00KB");
    assert_eq!(format_size(1536), "1.50KB");
    assert_eq!(format_size(10 * 1024 + 256), "10.25KB");
}

#[test]
fn rounding_carries_into_the_whole_part() {
    assert_eq!(format_size(1024 * 1024 - 1), "1024.00KB");
}

#[test]
fn larger_units_take_over() {
    assert_eq!(format_size(1024 * 1024), "1.00MB");
    assert_eq!(format_size(3 * 1024 * 1024 * 1024 / 2), "1.50GB");
    assert_eq!(format_size(2 * 1024 * 1024 * 1024 * 1024), "2.00TB");
}

#[test]
fn beyond_tebibytes_is_refused() {
    assert_eq!(format_size(1024 * 1024 * 1024 * 1024 * 1024), "Too big!");
    assert_eq!(format_size(u64::MAX), "Too big!");
}
