use dga::{size_to_string, Size};

#[test]
fn parse_round_trip_every_unit() {
    // one unit at each tier parses to exactly 1024^tier bytes ...
    assert_eq!(Size::parse("1.00 B").size(), 1);
    assert_eq!(Size::parse("1.00 KB").size(), 1024);
    assert_eq!(Size::parse("1.00 MB").size(), 1024 * 1024);
    assert_eq!(Size::parse("1.00 GB").size(), 1024 * 1024 * 1024);
    assert_eq!(Size::parse("1.00 TB").size(), 1024u64 * 1024 * 1024 * 1024);
    // ... and that byte count renders back at the same tier with a 1.00 mantissa
    assert_eq!(Size::new(1).format(), "1.00 B");
    assert_eq!(Size::new(1024).format(), "1.00 KB");
    assert_eq!(Size::new(1024 * 1024).format(), "1.00 MB");
    assert_eq!(Size::new(1024 * 1024 * 1024).format(), "1.00 GB");
    assert_eq!(Size::new(1024u64 * 1024 * 1024 * 1024).format(), "1.00 TB");
}

#[test]
fn parse_fractions_and_case() {
    assert_eq!(Size::parse("1.5GB").size(), 1610612736);
    assert_eq!(Size::parse("1.2GB").size(), 1288490188);
    assert_eq!(Size::parse("512 MB").size(), 536870912);
    assert_eq!(Size::parse("2 kb").size(), 2048);
    assert_eq!(Size::parse("3 Mb").size(), 3 * 1024 * 1024);
    assert_eq!(Size::parse("700MB").size(), 734003200);
}

#[test]
fn parse_malformed_numbers() {
    assert_eq!(Size::parse("1.2.3 GB").size(), 0);
    assert_eq!(Size::parse(". GB").size(), 0);
    assert_eq!(Size::parse("GB").size(), 0);
    assert_eq!(Size::parse("").size(), 0);
    assert_eq!(Size::parse("1. KB").size(), 1024);
    assert_eq!(Size::parse(".5 KB").size(), 512);
}

#[test]
fn unknown_unit_defaults_to_zero() {
    assert_eq!(Size::parse("5 XJ").size(), 0);
    assert_eq!(Size::parse("5").size(), 0);
    assert_eq!(Size::parse("5 PB").size(), 0);
}

#[test]
fn ordering_follows_byte_count_not_display() {
    let a = Size::parse("2 KB");
    let b = Size::parse("1 MB");
    assert!(a.size() < b.size());
    assert!(a < b);
    // "1 MB" sorts after "2 KB" even though "1..." < "2..." as strings
    assert!(b.format() < a.format());
    let c = Size::new(999);
    let d = Size::new(1000);
    assert!(c < d);
    assert!(!(d < c));
    assert_eq!(Size::new(42), Size::new(42));
}

#[test]
fn rendering_picks_the_tier() {
    assert_eq!(Size::new(0).format(), "0.00 B");
    assert_eq!(Size::new(512).format(), "512.00 B");
    assert_eq!(Size::new(1536).format(), "1.50 KB");
    assert_eq!(Size::new(1288490188).format(), "1.20 GB");
    assert_eq!(Size::new(u64::MAX).format(), "16.00 PB");
}

#[test]
fn size_to_string_humanizes() {
    assert_eq!(size_to_string(0), "0 B");
    assert_eq!(size_to_string(-5), "0 B");
    assert_eq!(size_to_string(1536), "1.50 KB");
    assert_eq!(size_to_string(536870912), "512.00 MB");
}

#[test]
fn speed_rendering_appends_rate_suffix() {
    assert_eq!(dga::size::human_read_speed(1024), "1.00 KB/s");
    assert_eq!(dga::size::human_read_size(1024), "1.00 KB");
}

#[test]
fn huge_sizes_saturate() {
    // far beyond the largest representable byte count
    assert_eq!(Size::parse("99999999999 TB").size(), u64::MAX);
}
