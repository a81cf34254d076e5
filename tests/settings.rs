use dvd_saver::config::{parse_decimal, ConfigRecord};

fn record(speed: u64, icon: u64, size: u64, path: &str) -> ConfigRecord {
    ConfigRecord { speed, icon_index: icon, size_factor: size, custom_image_path: path.to_string() }
}

#[test]
fn default_record_values() {
    assert_eq!(ConfigRecord::default_record(), record(50_000_000, 0, 160_000, ""));
}

#[test]
fn empty_or_malformed_text_gives_defaults() {
    let d = ConfigRecord::default_record();
    assert_eq!(ConfigRecord::from_text(""), d);
    assert_eq!(ConfigRecord::from_text("abc"), d);
    assert_eq!(ConfigRecord::from_text("fast\n-1\nbig\n"), d);
    assert_eq!(ConfigRecord::from_text("1e3\nx"), d);
}

#[test]
fn fields_fall_back_one_by_one() {
    let r = ConfigRecord::from_text("oops\n2\n");
    assert_eq!(r, record(50_000_000, 2, 160_000, ""));
}

#[test]
fn reads_text_written_elsewhere() {
    let r = ConfigRecord::from_text("137.5\n+1\n0.12345678\nC:\\pics\\logo.png\r\nextra");
    assert_eq!(r, record(137_500_000, 1, 123_456, "C:\\pics\\logo.png"));
    let r = ConfigRecord::from_text("50\n0\n0.16");
    assert_eq!(r, ConfigRecord::default_record());
}

#[test]
fn writes_one_field_per_line() {
    assert_eq!(ConfigRecord::default_record().to_text(), "50\n0\n0.160000\n\n");
    assert_eq!(record(10_000_001, 2, 500_000, "/tmp/a.png").to_text(), "10.000001\n2\n0.500000\n/tmp/a.png\n");
}

#[test]
fn save_then_load_gives_the_same_record() {
    for r in [
        ConfigRecord::default_record(),
        record(10_000_000, 2, 50_000, "/home/me/Pictures/x.webp"),
        record(200_000_000, 1, 500_000, "C:\\a b\\c.png"),
        record(123_456_789, 7, 333_333, ""),
        record(u64::MAX, u64::MAX, 1, "é"),
    ] {
        assert_eq!(ConfigRecord::from_text(&r.to_text()), r);
    }
}

#[test]
fn decimal_overflow_is_rejected() {
    let s = "18446744073709.551615";
    assert_eq!(parse_decimal(s, 0, s.chars().count()), Some(u64::MAX));
    let s = "18446744073709.551616";
    assert_eq!(parse_decimal(s, 0, s.chars().count()), None);
    let s = "3.";
    assert_eq!(parse_decimal(s, 0, 2), None);
    let s = ".5";
    assert_eq!(parse_decimal(s, 0, 2), None);
}
