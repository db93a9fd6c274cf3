use decoreco::text::{dec_u64, eq_str, humanize_bytes, time_human, truncate};

#[test]
fn dec_renders_decimal() {
    assert_eq!(dec_u64(0), "0");
    assert_eq!(dec_u64(7), "7");
    assert_eq!(dec_u64(10), "10");
    assert_eq!(dec_u64(105), "105");
    assert_eq!(dec_u64(u64::MAX), "18446744073709551615");
}

#[test]
fn humanize_small_counts_in_bytes() {
    assert_eq!(humanize_bytes(0), "0 B");
    assert_eq!(humanize_bytes(1), "1 B");
    assert_eq!(humanize_bytes(1023), "1023 B");
}

#[test]
fn humanize_kib() {
    assert_eq!(humanize_bytes(1024), "1 KiB");
    assert_eq!(humanize_bytes(1536), "1 KiB");
    assert_eq!(humanize_bytes(10 * 1024), "10 KiB");
}

#[test]
fn humanize_larger_units() {
    assert_eq!(humanize_bytes(1024 * 1024), "1 MiB");
    assert_eq!(humanize_bytes(10 * 1024 * 1024), "10 MiB");
    assert_eq!(humanize_bytes(1024 * 1024 * 1024), "1 GiB");
    assert_eq!(humanize_bytes(1024_u64 * 1024 * 1024 * 1024), "1 TiB");
    assert_eq!(humanize_bytes(2048_u64 * 1024 * 1024 * 1024), "2 TiB");
    // the ladder ends at TiB, however large the count
    assert_eq!(humanize_bytes(1024_u64 * 1024 * 1024 * 1024 * 1024), "1024 TiB");
}

#[test]
fn time_below_one_second_is_millis() {
    assert_eq!(time_human(0), "0ms");
    assert_eq!(time_human(999), "999ms");
}

#[test]
fn time_above_one_second_omits_zero_parts() {
    assert_eq!(time_human(1000), "1s");
    assert_eq!(time_human(60_000), "1m");
    assert_eq!(time_human(61_000), "1m1s");
    assert_eq!(time_human(3_600_000), "1h");
    assert_eq!(time_human(3_661_000), "1h1m1s");
    assert_eq!(time_human(7_322_000), "2h2m2s");
}

#[test]
fn time_drops_sub_second_remainder() {
    assert_eq!(time_human(1999), "1s");
}

#[test]
fn truncate_cuts_long_strings() {
    assert_eq!(truncate("Hello, world!", 5), "Hello...");
    assert_eq!(truncate("Hello", 5), "Hello");
    assert_eq!(truncate("Hi", 5), "Hi");
    assert_eq!(truncate("anything", 0), "...");
    assert_eq!(truncate("", 3), "");
}

#[test]
fn eq_str_compares_contents() {
    assert!(eq_str("png", "png"));
    assert!(!eq_str("png", "jpg"));
    assert!(!eq_str("png", "pngs"));
    assert!(eq_str("", ""));
}
