use pastahandler::logging::{format_epoch, log_line, needs_rotation, MAX_LOG_BYTES};

#[test]
fn format_epoch_matches_known_dates() {
    assert_eq!(format_epoch(0), "1970-01-01 00:00:00Z");
    assert_eq!(format_epoch(86_400), "1970-01-02 00:00:00Z");
    assert_eq!(format_epoch(951_782_400), "2000-02-29 00:00:00Z"); // leap day
    assert_eq!(format_epoch(1_755_468_245), "2025-08-17 22:04:05Z");
}

#[test]
fn format_epoch_century_and_year_edges() {
    assert_eq!(format_epoch(86_399), "1970-01-01 23:59:59Z");
    assert_eq!(format_epoch(951_868_800), "2000-03-01 00:00:00Z");
    assert_eq!(format_epoch(4_107_542_400), "2100-03-01 00:00:00Z"); // 2100 is not leap
    assert_eq!(format_epoch(4_107_542_399), "2100-02-28 23:59:59Z");
    assert_eq!(format_epoch(978_307_199), "2000-12-31 23:59:59Z");
    assert_eq!(format_epoch(253_402_300_799), "9999-12-31 23:59:59Z");
    assert_eq!(format_epoch(253_402_300_800), "10000-01-01 00:00:00Z");
}

#[test]
fn format_epoch_handles_the_largest_input() {
    let s = format_epoch(u64::MAX);
    assert!(s.ends_with("Z"));
    assert_eq!(s, "584554051223-11-09 07:00:15Z");
}

#[test]
fn log_lines_carry_the_timestamp() {
    assert_eq!(
        log_line("2025-08-17 22:04:05Z", "config reload failed"),
        "[2025-08-17 22:04:05Z] config reload failed"
    );
}

#[test]
fn rotation_starts_at_the_limit() {
    assert!(!needs_rotation(599, 600));
    assert!(needs_rotation(600, 600));
    assert!(needs_rotation(601, 512));
    assert_eq!(MAX_LOG_BYTES, 512 * 1024);
}

#[test]
fn current_timestamp_has_the_calendar_shape() {
    let s = pastahandler::logging::timestamp_utc();
    assert_eq!(s.len(), "2025-08-17 22:04:05Z".len());
    assert!(s.ends_with('Z'));
    assert_eq!(&s[4..5], "-");
    assert_eq!(&s[10..11], " ");
    assert!(s.as_str() > "2020");
}

#[test]
fn timestamps_sort_in_time_order() {
    let instants: [u64; 9] = [
        0,
        59,
        3_599,
        86_399,
        951_782_400,
        951_868_799,
        1_755_468_245,
        4_107_542_399,
        253_402_300_799,
    ];
    for pair in instants.windows(2) {
        let a = format_epoch(pair[0]);
        let b = format_epoch(pair[1]);
        assert!(a < b, "{a} must sort before {b}");
        assert_eq!(a.len(), 20);
    }
}
