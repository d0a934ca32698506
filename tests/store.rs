use truffles::area::Area;
use truffles::cache::{needs_header, Cache};
use truffles::cond::Condition;
use truffles::error::{Error, ErrorKind};
use truffles::listing::{Kind, Listing};
use truffles::plot::{Kind as PlotKind, Plot};
use truffles::property::{Kind as PropertyKind, Property};
use truffles::site::Website;
use truffles::time::Timestamp;

fn ts(y: i32, mo: u32, d: u32, h: u32, mi: u32, s: u32, ns: u32) -> Timestamp {
    Timestamp::new(y, mo, d, h, mi, s, ns).unwrap()
}

fn property(url: &str, at: Timestamp) -> Property {
    Property::new(
        "bazaraki_1".to_string(),
        url.to_string(),
        Website::Bazaraki,
        at,
        PropertyKind::Villa,
        42000,
        Area::Limassol,
        Some(42),
        Some(Condition::Resale),
        Some(1992),
        Some(1),
        Some(1),
        Some(2020),
    )
}

fn bare_property(url: &str, at: Timestamp) -> Property {
    Property::new(
        "bazaraki_2, \"quoted\"".to_string(),
        url.to_string(),
        Website::Bazaraki,
        at,
        PropertyKind::House,
        0,
        Area::Ammochostos,
        None,
        None,
        None,
        None,
        None,
        None,
    )
}

fn plot(url: &str, at: Timestamp) -> Plot {
    Plot::new(
        "bazaraki_3".to_string(),
        url.to_string(),
        Website::Bazaraki,
        at,
        4294967295,
        Area::Paphos,
        Some(PlotKind::Agricultural),
        Some(4200),
        Some(20),
        Some(40),
        Some(1020),
        Some(1),
    )
}

fn text(v: Vec<char>) -> String {
    v.into_iter().collect()
}

#[test]
fn timestamp_text_forms() {
    assert_eq!(text(ts(2021, 3, 4, 5, 6, 7, 0).to_text()), "2021-03-04 05:06:07 UTC");
    assert_eq!(text(ts(2021, 3, 4, 5, 6, 7, 123_000_000).to_text()), "2021-03-04 05:06:07.123 UTC");
    assert_eq!(text(ts(999, 12, 31, 23, 59, 59, 120_000).to_text()), "0999-12-31 23:59:59.000120 UTC");
    assert_eq!(text(ts(2020, 2, 29, 0, 0, 0, 7).to_text()), "2020-02-29 00:00:00.000000007 UTC");
    let back: Vec<char> = "2020-02-29 00:00:00.000000007 UTC".chars().collect();
    assert_eq!(Timestamp::from_text(&back), Some(ts(2020, 2, 29, 0, 0, 0, 7)));
    let bad: Vec<char> = "2021-02-29 00:00:00 UTC".chars().collect();
    assert_eq!(Timestamp::from_text(&bad), None);
    let odd: Vec<char> = "2021-02-01 00:00:00.000 UTC".chars().collect();
    assert_eq!(Timestamp::from_text(&odd), None);
    assert_eq!(Timestamp::new(2021, 2, 29, 0, 0, 0, 0), None);
    assert_eq!(Timestamp::new(2021, 13, 1, 0, 0, 0, 0), None);
}

#[test]
fn timestamp_order_and_age() {
    let a = ts(2021, 1, 31, 23, 0, 0, 0);
    let b = ts(2021, 2, 1, 0, 0, 0, 0);
    assert!(b.is_after(&a));
    assert!(!a.is_after(&b));
    assert!(!a.is_after(&a));
    assert_eq!(b.nanos() - a.nanos(), 3_600_000_000_000);
    let now = ts(2021, 3, 4, 12, 0, 0, 0);
    assert!(ts(2021, 1, 23, 12, 0, 0, 0).is_older_than(&now, 40));
    assert!(!ts(2021, 1, 23, 12, 0, 0, 1).is_older_than(&now, 40));
    assert!(ts(2020, 3, 4, 12, 0, 0, 0).is_older_than(&now, 365));
    assert!(!ts(2020, 3, 4, 12, 0, 0, 0).is_older_than(&now, 366));
}

#[test]
fn property_row_round_trip() {
    let p = property("https://foo.bar/1", ts(2021, 3, 4, 5, 6, 7, 123_456_789));
    let row = p.to_row();
    assert_eq!(
        row,
        vec![
            "bazaraki_1", "https://foo.bar/1", "Bazaraki", "2021-03-04 05:06:07.123456789 UTC",
            "Villa", "42000", "Limassol", "42", "Resale", "1992", "1", "1", "2020",
        ]
    );
    assert_eq!(Property::from_row(&row).unwrap(), p);
    let q = bare_property("https://foo.bar/2", ts(2000, 1, 1, 0, 0, 0, 0));
    let row = q.to_row();
    assert_eq!(row[7], "");
    assert_eq!(Property::from_row(&row).unwrap(), q);
    assert_eq!(Property::header().len(), row.len());
}

#[test]
fn plot_row_round_trip() {
    let p = plot("https://foo.bar/3", ts(2019, 7, 1, 8, 0, 0, 5_000_000));
    let row = p.to_row();
    assert_eq!(row[3], "2019-07-01 08:00:00.005 UTC");
    assert_eq!(row[4], "4294967295");
    assert_eq!(row[6], "Agricultural");
    assert_eq!(Plot::from_row(&row).unwrap(), p);
    assert_eq!(Plot::header()[10], "height");
}

#[test]
fn bad_rows() {
    let mut row = property("https://foo.bar/1", ts(2021, 3, 4, 5, 6, 7, 0)).to_row();
    row[6] = "Athens".to_string();
    assert_eq!(Property::from_row(&row).unwrap_err().kind, ErrorKind::BadRow);
    let short: Vec<String> = vec!["x".to_string()];
    assert_eq!(Plot::from_row(&short).unwrap_err().kind, ErrorKind::BadRow);
    let mut row = plot("https://foo.bar/3", ts(2019, 7, 1, 8, 0, 0, 0)).to_row();
    row[8] = "-1".to_string();
    assert_eq!(Plot::from_row(&row).unwrap_err().kind, ErrorKind::BadRow);
}

#[test]
fn last_seen_is_the_latest() {
    let mut cache = Cache::new();
    let early = ts(2021, 1, 1, 0, 0, 0, 0);
    let late = ts(2021, 2, 1, 0, 0, 0, 0);
    assert_eq!(cache.get_last_timestamp("https://foo.bar/1"), None);
    cache.add(Listing::Property(property("https://foo.bar/1", late)));
    cache.add(Listing::Property(property("https://foo.bar/1", early)));
    cache.add(Listing::Plot(plot("https://foo.bar/2", early)));
    assert_eq!(cache.get_last_timestamp("https://foo.bar/1"), Some(late));
    assert_eq!(cache.get_last_timestamp("https://foo.bar/2"), Some(early));
    assert_eq!(cache.len(), 3);
}

#[test]
fn same_record_twice() {
    let mut cache = Cache::new();
    let old = Listing::Plot(plot("https://foo.bar/9", ts(2020, 1, 1, 0, 0, 0, 0)));
    cache.add(old);
    let record = Listing::Property(property("https://foo.bar/9", ts(2021, 6, 1, 0, 0, 0, 0)));
    cache.add(record.clone());
    cache.add(record.clone());
    let mut positions = cache.positions("https://foo.bar/9");
    positions.sort();
    assert_eq!(positions, vec![0, 1, 2]);
    assert_eq!(cache.get(1), &record);
    assert_eq!(cache.get(2), &record);
    assert_eq!(cache.get_last_timestamp("https://foo.bar/9"), Some(ts(2021, 6, 1, 0, 0, 0, 0)));
}

#[test]
fn freshness_window() {
    let mut cache = Cache::new();
    let now = ts(2021, 3, 4, 12, 0, 0, 0);
    cache.add(Listing::Property(property("https://foo.bar/recent", ts(2021, 2, 22, 12, 0, 0, 0))));
    cache.add(Listing::Property(property("https://foo.bar/old", ts(2021, 1, 23, 12, 0, 0, 0))));
    assert!(!cache.is_due("https://foo.bar/recent", &now, 30, false));
    assert!(cache.is_due("https://foo.bar/recent", &now, 30, true));
    assert!(cache.is_due("https://foo.bar/old", &now, 30, false));
    assert!(cache.is_due("https://foo.bar/new", &now, 30, false));
    let urls = vec![
        "https://foo.bar/recent".to_string(),
        "https://foo.bar/old".to_string(),
        "https://foo.bar/new".to_string(),
    ];
    assert_eq!(
        cache.select_due(&urls, &now, 30, false),
        vec!["https://foo.bar/old".to_string(), "https://foo.bar/new".to_string()]
    );
    assert_eq!(cache.select_due(&urls, &now, 30, true), urls);
}

#[test]
fn header_rows() {
    assert!(needs_header(false));
    assert!(!needs_header(true));
}

#[test]
fn rows_with_a_bad_url() {
    let mut row = property("https://foo.bar/1", ts(2021, 3, 4, 5, 6, 7, 0)).to_row();
    row[1] = "not a url".to_string();
    assert_eq!(Property::from_row(&row).unwrap_err().kind, ErrorKind::BadRow);
    let mut row = plot("https://foo.bar/3", ts(2019, 7, 1, 8, 0, 0, 0)).to_row();
    row[1] = "https://foo.bar".to_string();
    assert_eq!(Plot::from_row(&row).unwrap_err().kind, ErrorKind::BadRow);
}

#[test]
fn listing_accessors() {
    let at = ts(2019, 7, 1, 8, 0, 0, 0);
    let l = Listing::Plot(plot("https://foo.bar/3", at));
    assert_eq!(l.kind(), Kind::Plot);
    assert_eq!(l.url(), "https://foo.bar/3");
    assert_eq!(*l.timestamp(), at);
    assert_eq!(Kind::all(), vec![Kind::Plot, Kind::Property]);
    assert_eq!(Kind::from_str(" PLOT ").unwrap(), Kind::Plot);
    assert_eq!(Kind::from_str("house").unwrap_err().kind, ErrorKind::UnknownName);
}

#[test]
fn errors() {
    let e = Error::from("went wrong");
    assert_eq!(e.kind, ErrorKind::Other);
    assert_eq!(e.msg, "went wrong");
    assert_eq!(e.message(), "Error:went wrong");
    assert_eq!(Error::from(42).msg, "42");
}
