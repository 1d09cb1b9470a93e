use std::time::{Duration, SystemTime};

use llmman::clock::{FIRST_SECOND, LAST_SECOND};
use llmman::fmt::{
    human_size, relative_time, relative_time_at, relative_time_rfc3339, relative_time_rfc3339_at,
    relative_time_secs, short_id,
};

#[test]
fn short_id_truncates_to_12_hex_chars() {
    assert_eq!(
        short_id("sha256:0123456789abcdef0123456789abcdef"),
        "0123456789ab"
    );
    // No prefix: still truncates.
    assert_eq!(short_id("0123456789abcdef"), "0123456789ab");
}

#[test]
fn short_id_of_a_short_digest_is_all_of_it() {
    assert_eq!(short_id("sha256:abc"), "abc");
    assert_eq!(short_id(""), "");
    // Only one prefix is taken off.
    assert_eq!(short_id("sha256:sha256:0123456"), "sha256:01234");
}

#[test]
fn human_size_picks_the_right_unit() {
    assert_eq!(human_size(512), "512 B");
    assert_eq!(human_size(1_500), "1.5 kB");
    assert_eq!(human_size(1_500_000), "1.5 MB");
    assert_eq!(human_size(1_500_000_000), "1.5 GB");
}

#[test]
fn human_size_ported_ollama_humanbytes_boundaries() {
    // Bytes.
    assert_eq!(human_size(0), "0 B");
    assert_eq!(human_size(1), "1 B");
    assert_eq!(human_size(999), "999 B");

    // Kilobytes.
    assert_eq!(human_size(1_000), "1.0 kB");
    assert_eq!(human_size(1_234), "1.2 kB");
    assert_eq!(human_size(999_999), "1000.0 kB");

    // Megabytes.
    assert_eq!(human_size(1_000_000), "1.0 MB");
    assert_eq!(human_size(1_234_567), "1.2 MB");

    // Gigabytes.
    assert_eq!(human_size(1_000_000_000), "1.0 GB");
    assert_eq!(human_size(1_234_567_890), "1.2 GB");

    // No TB tier: terabyte-scale sizes keep counting in GB.
    assert_eq!(human_size(1_000_000_000_000), "1000.0 GB");
    assert_eq!(human_size(1_500_000_000_000), "1500.0 GB");
}

fn by_double(bytes: u64) -> String {
    if bytes >= 1_000_000_000 {
        format!("{:.1} GB", bytes as f64 / 1_000_000_000f64)
    } else if bytes >= 1_000_000 {
        format!("{:.1} MB", bytes as f64 / 1_000_000f64)
    } else if bytes >= 1_000 {
        format!("{:.1} kB", bytes as f64 / 1_000f64)
    } else {
        format!("{bytes} B")
    }
}

#[test]
fn human_size_divides_and_rounds_as_doubles_do() {
    // Every size in kB to the last byte, ties among them.
    let mut n: u64 = 0;
    while n < 200_000 {
        assert_eq!(human_size(n), by_double(n));
        n += 1;
    }
    // Ties in the larger units.
    let mut k: u64 = 0;
    while k < 2_000 {
        for unit in [1_000u64, 1_000_000, 1_000_000_000] {
            let n = unit + k * (unit / 20);
            assert_eq!(human_size(n), by_double(n));
        }
        k += 1;
    }
    // Sizes that are no doubles.
    for n in [
        u64::MAX,
        u64::MAX - 1,
        (1 << 53) + 1,
        (1 << 53) + 3,
        (1 << 62) + 257,
        18_014_398_549_999_999,
        9_007_199_250_000_001,
    ] {
        assert_eq!(human_size(n), by_double(n));
    }
    // A spread over the whole range.
    let mut x: u64 = 88_172_645_463_325_252;
    let mut i = 0;
    while i < 20_000 {
        x ^= x << 13;
        x ^= x >> 7;
        x ^= x << 17;
        let n = x >> (i % 60);
        assert_eq!(human_size(n), by_double(n));
        i += 1;
    }
}

#[test]
fn relative_time_secs_ported_ollama_humantime_unit_ladder() {
    const DAY: u64 = 86_400;
    assert_eq!(relative_time_secs(0), "just now");
    assert_eq!(relative_time_secs(59), "just now");
    assert_eq!(relative_time_secs(60), "1 minutes ago");
    assert_eq!(relative_time_secs(120), "2 minutes ago");
    assert_eq!(relative_time_secs(3_600), "1 hours ago");
    assert_eq!(relative_time_secs(7_200), "2 hours ago");
    assert_eq!(relative_time_secs(DAY), "yesterday");
    assert_eq!(relative_time_secs(2 * DAY - 1), "yesterday");
    assert_eq!(relative_time_secs(2 * DAY), "2 days ago");
    assert_eq!(relative_time_secs(6 * DAY), "6 days ago");
    assert_eq!(relative_time_secs(7 * DAY), "1 week ago");
    assert_eq!(relative_time_secs(14 * DAY), "2 weeks ago");
    assert_eq!(relative_time_secs(30 * DAY), "1 month ago");
    assert_eq!(relative_time_secs(60 * DAY), "2 months ago");
    assert_eq!(relative_time_secs(365 * DAY), "1 year ago");
    assert_eq!(relative_time_secs(730 * DAY), "2 years ago");
    assert_eq!(relative_time_secs(200 * 365 * DAY), "200 years ago");
}

#[test]
fn relative_time_ported_ollama_humantime_edge_cases() {
    assert_eq!(relative_time(None), "unknown");
    let future = SystemTime::now() + std::time::Duration::from_secs(2 * 86_400);
    assert_eq!(relative_time(Some(future)), "just now");
    let past = SystemTime::now() - std::time::Duration::from_secs(2 * 86_400);
    assert_eq!(relative_time(Some(past)), "2 days ago");
}

#[test]
fn relative_time_at_counts_whole_seconds() {
    let t = SystemTime::UNIX_EPOCH + Duration::from_secs(1_000_000);
    let at = |d: Duration| relative_time_at(Some(t), t + d);
    assert_eq!(at(Duration::from_millis(59_999)), "just now");
    assert_eq!(at(Duration::from_millis(60_000)), "1 minutes ago");
    assert_eq!(at(Duration::from_secs(3_599)), "59 minutes ago");
    assert_eq!(relative_time_at(Some(t), t - Duration::from_secs(1)), "just now");
    assert_eq!(relative_time_at(None, t), "unknown");
}

#[test]
fn relative_time_rfc3339_handles_recent_and_invalid_timestamps() {
    let now = chrono::Utc::now().to_rfc3339_opts(chrono::SecondsFormat::Secs, true);
    assert_eq!(relative_time_rfc3339(&now), "just now");
    assert_eq!(relative_time_rfc3339("not a timestamp"), "unknown");
}

#[test]
fn relative_time_rfc3339_at_reads_zones_and_clamps_the_future() {
    // 2021-01-01T00:00:00Z.
    let noon = 1_609_459_200i64;
    assert_eq!(relative_time_rfc3339_at("2021-01-01T00:00:00Z", (noon + 120, 0)), "2 minutes ago");
    assert_eq!(
        relative_time_rfc3339_at("2021-01-01T02:00:00+02:00", (noon + 7_200, 0)),
        "2 hours ago"
    );
    // A fraction of a second does not count as a second.
    assert_eq!(
        relative_time_rfc3339_at("2021-01-01T00:00:00.5Z", (noon + 60, 0)),
        "just now"
    );
    assert_eq!(relative_time_rfc3339_at("2021-01-01T00:00:00Z", (noon - 86_400, 0)), "just now");
    assert_eq!(relative_time_rfc3339_at("2021-01-01", (noon, 0)), "unknown");
}

#[test]
fn every_timestamp_has_an_age_at_a_point_in_range() {
    let t = "2021-01-01T00:00:00Z";
    assert!(relative_time_rfc3339_at(t, (LAST_SECOND, 999_999_999)).ends_with(" years ago"));
    assert_eq!(relative_time_rfc3339_at(t, (LAST_SECOND + 1, 0)), "unknown");
    assert_eq!(relative_time_rfc3339_at(t, (FIRST_SECOND, 0)), "just now");
    assert_eq!(relative_time_rfc3339_at(t, (FIRST_SECOND - 1, 0)), "unknown");
    assert_eq!(relative_time_rfc3339_at(t, (i64::MAX, 0)), "unknown");
    for s in ["0000-01-01T00:00:00+23:59", "9999-12-31T23:59:60-23:59", "2016-12-31T23:59:60.5Z"] {
        assert_ne!(relative_time_rfc3339(s), "unknown");
    }
    // A leap second is one only at the end of a minute.
    assert_eq!(relative_time_rfc3339_at("2016-12-31T23:59:60Z", (1_483_228_920, 0)), "2 minutes ago");
    assert_ne!(relative_time_rfc3339_at(t, (1_483_228_799, 1_000_000_000)), "unknown");
    assert_eq!(relative_time_rfc3339_at(t, (1_483_228_800, 1_000_000_000)), "unknown");
}
