use dga::{Date, Madou};

#[test]
fn parse_failure_is_non_fatal() {
    let d = Date::parse_date("not-a-date", "%Y-%m-%d");
    assert_eq!(d.timestamp(), 0);
    let t = Date::parse_date_time("garbage", "%Y-%m-%d %H:%M:%S");
    assert_eq!(t.timestamp(), 0);
}

#[test]
fn parse_date_pads_to_midnight() {
    let d = Date::parse_date("2024-05-01", "%Y-%m-%d");
    assert_eq!(d.timestamp(), 1714521600);
}

#[test]
fn parse_date_time_keeps_the_time() {
    let d = Date::parse_date_time("2024-02-02 10:00:00", "%Y-%m-%d %H:%M:%S");
    assert_eq!(d.timestamp(), 1706868000);
}

#[test]
fn from_ymd_and_fallback() {
    assert_eq!(Date::from_ymd(2024, 5, 1).timestamp(), 1714521600);
    // an impossible calendar day falls back to the epoch
    assert_eq!(Date::from_ymd(2023, 2, 31).timestamp(), 0);
}

#[test]
fn ordering_follows_timestamp() {
    let a = Date::parse_date("2023-01-01", "%Y-%m-%d");
    let b = Date::parse_date("2024-06-01", "%Y-%m-%d");
    assert!(a < b);
    assert!(!(b < a));
    assert_eq!(a.timestamp(), 1672531200);
    assert_eq!(b.timestamp(), 1717200000);
}

#[test]
fn listing_date_reads_previous_year() {
    // "06-21" against today 2024-05-01 is 2023-06-21
    let d = Madou::parse_listing_date("06-21", 2024, 5, 1);
    assert_eq!(d.timestamp(), 1687305600);
}

#[test]
fn listing_date_fallbacks() {
    // a bad month falls back to today's month
    let d = Madou::parse_listing_date("xx-21", 2024, 5, 1);
    assert_eq!(d.timestamp(), 1684627200); // 2023-05-21
    // no dash at all falls back to today's month and day
    let d = Madou::parse_listing_date("whenever", 2024, 5, 1);
    assert_eq!(d.timestamp(), 1682899200); // 2023-05-01
    // an impossible day falls back to the epoch
    let d = Madou::parse_listing_date("02-31", 2024, 5, 1);
    assert_eq!(d.timestamp(), 0);
}
