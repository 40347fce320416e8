use blackhole_linux::decimal::{to_double, to_nearest};
use blackhole_linux::fetch::{
    cache_hit, download_to_cached, downloading_path, format_bytes, format_duration, is_success,
    print_progress, rate_bps, refused_download, sidecar_path, sidecar_temp_path, upstream_matches,
    CacheStep, FetchMetadata,
};

#[test]
fn downloading_path_appends_suffix() {
    assert_eq!(downloading_path("/tmp/foo.bin"), "/tmp/foo.bin.downloading");
}

#[test]
fn downloading_path_appends_to_extensionless_path() {
    assert_eq!(downloading_path("/tmp/Image"), "/tmp/Image.downloading");
}

#[test]
fn sidecar_path_appends_fetch_json() {
    assert_eq!(sidecar_path("/tmp/foo.bin"), "/tmp/foo.bin.fetch.json");
}

#[test]
fn format_bytes_handles_each_range() {
    assert_eq!(format_bytes(0), "0 B");
    assert_eq!(format_bytes(512), "512 B");
    assert_eq!(format_bytes(1024), "1.0 KiB");
    assert_eq!(format_bytes(1536), "1.5 KiB");
    assert_eq!(format_bytes(1024 * 1024), "1.0 MiB");
    assert_eq!(format_bytes(50 * 1024 * 1024), "50.0 MiB");
    assert_eq!(format_bytes(1024 * 1024 * 1024), "1.00 GiB");
    assert_eq!(format_bytes(2_500_000_000), "2.33 GiB");
}

#[test]
fn format_bytes_rounds_as_a_double_does() {
    for n in [
        1u64,
        1023,
        1025,
        1075,
        1077,
        1126,
        1127,
        1_048_575,
        1_048_577,
        1_101_004,
        999_999_999,
        5_368_709_119,
        u64::MAX,
    ] {
        let expected = if n >= 1 << 30 {
            format!("{:.2} GiB", n as f64 / (1u64 << 30) as f64)
        } else if n >= 1 << 20 {
            format!("{:.1} MiB", n as f64 / (1u64 << 20) as f64)
        } else if n >= 1 << 10 {
            format!("{:.1} KiB", n as f64 / (1u64 << 10) as f64)
        } else {
            format!("{} B", n)
        };
        assert_eq!(format_bytes(n), expected);
    }
}

#[test]
fn format_duration_subsecond_returns_one_decimal_seconds() {
    assert_eq!(format_duration(0, 450_000_000), "0.5s");
    assert_eq!(format_duration(8, 500_000_000), "8.5s");
}

#[test]
fn format_duration_minutes_and_hours() {
    assert_eq!(format_duration(75, 0), "1m15s");
    assert_eq!(format_duration(3725, 0), "1h2m");
}

#[test]
fn format_duration_rounds_as_a_double_does() {
    for (secs, nanos) in [
        (0u64, 0u32),
        (0, 50_000_000),
        (0, 150_000_000),
        (0, 250_000_000),
        (1, 50_000_000),
        (2, 350_000_000),
        (9, 949_999_999),
        (9, 950_000_000),
        (59, 949_999_999),
        (59, 999_999_999),
    ] {
        let d = std::time::Duration::new(secs, nanos);
        assert_eq!(
            format_duration(secs, nanos),
            format!("{:.1}s", d.as_secs_f64())
        );
    }
}

#[test]
fn rate_bps_zero_elapsed_yields_zero() {
    assert_eq!(rate_bps(1024, 0, 0), 0);
}

#[test]
fn rate_bps_computes_average() {
    // 1 MiB over 2 s = 524288 B/s.
    let half_meg = rate_bps(1024 * 1024, 2, 0);
    assert_eq!(half_meg, 524288);
}

/// Numbers of all sizes, without a pattern.
fn numbers() -> Vec<u64> {
    let mut x = 0x9E37_79B9_7F4A_7C15u64;
    let mut list = vec![0, 1, 2, 3, (1 << 53) - 1, 1 << 53, (1 << 53) + 1, u64::MAX - 1, u64::MAX];
    for i in 0..400u32 {
        x ^= x << 13;
        x ^= x >> 7;
        x ^= x << 17;
        list.push(x >> (i % 64));
    }
    list
}

#[test]
fn rates_are_quotients_of_doubles() {
    let list = numbers();
    for (i, bytes) in list.iter().enumerate() {
        let secs = list[(i * 7 + 3) % list.len()];
        for (secs, nanos) in [
            (secs, (list[(i * 5 + 1) % list.len()] % 1_000_000_000) as u32),
            (0, (list[(i * 3 + 2) % list.len()] % 1_000_000_000) as u32),
            (secs, 0),
            (secs >> 40, 999_999_999),
            (0, 1),
        ] {
            let t = std::time::Duration::new(secs, nanos).as_secs_f64();
            let expected = if t <= 0.0 { 0 } else { (*bytes as f64 / t) as u64 };
            assert_eq!(rate_bps(*bytes, secs, nanos), expected, "{bytes} / {secs}.{nanos:09}");
        }
    }
}

#[test]
fn percentages_are_those_of_doubles() {
    let list = numbers();
    for (i, got) in list.iter().enumerate() {
        for total in [list[(i * 11 + 4) % list.len()], got.saturating_mul(3), 1000, 2000, u64::MAX] {
            if total == 0 {
                continue;
            }
            let percent = (*got as f64 / total as f64 * 100.0).min(100.0);
            let line = print_progress(*got, Some(total), 1, 0);
            assert!(line.contains(&format!(" ({percent:.1}%) ")), "{got} of {total}: {line}");
        }
    }
}

#[test]
fn halves_go_to_the_even_neighbour() {
    assert_eq!(to_nearest(5, 2), 2);
    assert_eq!(to_nearest(7, 2), 4);
    assert_eq!(to_nearest(8, 3), 3);
    assert_eq!(to_double(1u128 << 60, 1), 1u128 << 60);
    assert_eq!(to_double((1u128 << 53) + 1, 1), 1u128 << 53);
    assert_eq!(to_double((1u128 << 53) + 3, 1), (1u128 << 53) + 4);
}

#[test]
fn upstream_matches_on_etag_alone() {
    let cached = FetchMetadata {
        etag: Some("\"x\"".to_string()),
        last_modified: None,
    };
    let upstream = FetchMetadata {
        etag: Some("\"x\"".to_string()),
        last_modified: Some("ignored".to_string()),
    };
    assert!(upstream_matches(&cached, &upstream));
}

#[test]
fn upstream_matches_on_last_modified_when_etag_missing() {
    let cached = FetchMetadata {
        etag: None,
        last_modified: Some("Mon, 01 Jan 2024 00:00:00 GMT".to_string()),
    };
    let upstream = FetchMetadata {
        etag: None,
        last_modified: Some("Mon, 01 Jan 2024 00:00:00 GMT".to_string()),
    };
    assert!(upstream_matches(&cached, &upstream));
}

#[test]
fn upstream_does_not_match_when_etag_changes() {
    let cached = FetchMetadata {
        etag: Some("\"old\"".to_string()),
        last_modified: Some("same".to_string()),
    };
    let upstream = FetchMetadata {
        etag: Some("\"new\"".to_string()),
        last_modified: None,
    };
    assert!(!upstream_matches(&cached, &upstream));
}

#[test]
fn upstream_does_not_match_when_both_missing() {
    let cached = FetchMetadata::default();
    let upstream = FetchMetadata::default();
    assert!(!upstream_matches(&cached, &upstream));
}

#[test]
fn upstream_does_not_match_empty_strings() {
    let cached = FetchMetadata {
        etag: Some(String::new()),
        last_modified: None,
    };
    let upstream = FetchMetadata {
        etag: Some(String::new()),
        last_modified: None,
    };
    assert!(!upstream_matches(&cached, &upstream));
}

fn tagged(etag: &str) -> Option<FetchMetadata> {
    Some(FetchMetadata {
        etag: Some(etag.to_string()),
        last_modified: None,
    })
}

#[test]
fn cache_hit_false_when_anchor_does_not_exist() {
    assert!(!cache_hit(false, &tagged("\"abc123\""), &tagged("\"abc123\"")));
    assert!(cache_hit(true, &tagged("\"abc123\""), &tagged("\"abc123\"")));
}

#[test]
fn sidecar_lives_at_anchor_not_at_dest() {
    let dest = "/images/rootfs.ext4.xz";
    let anchor = "/images/rootfs.ext4";
    assert_ne!(sidecar_path(anchor), sidecar_path(dest));
    assert_eq!(sidecar_path(anchor), "/images/rootfs.ext4.fetch.json");
    assert_eq!(
        sidecar_temp_path(anchor),
        "/images/rootfs.ext4.fetch.json.tmp"
    );
}

#[test]
fn a_miss_or_a_force_fetches() {
    assert_eq!(download_to_cached(false, true), CacheStep::Skip);
    assert_eq!(download_to_cached(true, true), CacheStep::Fetch);
    assert_eq!(download_to_cached(false, false), CacheStep::Fetch);
    assert!(!cache_hit(true, &None, &tagged("a")));
    assert!(!cache_hit(true, &tagged("a"), &None));
}

#[test]
fn only_a_success_is_a_success() {
    assert!(is_success(200) && is_success(299));
    assert!(!is_success(199) && !is_success(304) && !is_success(404));
    assert_eq!(
        refused_download("http://x/y", 404),
        "GET http://x/y returned status 404"
    );
}
