use tracing_profile::utils::{max_rss_mib, rss_unit, Platform, RssUnit};

#[test]
fn rss_unit_follows_target() {
    assert_eq!(rss_unit(Platform::Apple), RssUnit::Bytes);
    assert_eq!(rss_unit(Platform::OtherUnix), RssUnit::Kilobytes);
    assert_eq!(rss_unit(Platform::Windows), RssUnit::Bytes);
}

#[test]
fn kilobytes_to_mib() {
    assert_eq!(max_rss_mib(2048, RssUnit::Kilobytes), 2);
    assert_eq!(max_rss_mib(1023, RssUnit::Kilobytes), 0);
    assert_eq!(max_rss_mib(0, RssUnit::Kilobytes), 0);
    assert_eq!(max_rss_mib(5000, RssUnit::Kilobytes), 4);
}

#[test]
fn bytes_to_mib() {
    assert_eq!(max_rss_mib(1_048_575, RssUnit::Bytes), 0);
    assert_eq!(max_rss_mib(3 * 1_048_576 + 5, RssUnit::Bytes), 3);
    assert_eq!(max_rss_mib(i64::MAX, RssUnit::Bytes), i64::MAX / 1_048_576);
}

#[test]
fn negative_rounds_toward_zero() {
    assert_eq!(max_rss_mib(-1500, RssUnit::Kilobytes), -1);
    assert_eq!(max_rss_mib(i64::MIN, RssUnit::Kilobytes), i64::MIN / 1024);
}

#[test]
fn units_agree_on_same_amount() {
    for kib in [0i64, 1, 1023, 1024, 5000, 123_456_789] {
        assert_eq!(
            max_rss_mib(kib, RssUnit::Kilobytes),
            max_rss_mib(kib * 1024, RssUnit::Bytes)
        );
    }
}

#[test]
fn mib_bounded_by_amount() {
    for (v, u) in [(7i64, RssUnit::Kilobytes), (-7, RssUnit::Bytes), (1 << 40, RssUnit::Bytes)] {
        let m = max_rss_mib(v, u);
        if v >= 0 {
            assert!(0 <= m && m <= v);
        } else {
            assert!(v <= m && m <= 0);
        }
    }
}
