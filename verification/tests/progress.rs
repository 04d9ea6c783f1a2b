use remote_transfer::progress::parse_rsync_progress;

#[test]
fn progress_line_is_parsed() {
    assert_eq!(
        parse_rsync_progress("  1,234,567  42%  1.23MB/s  0:01:23"),
        Some((1234567, 2939445))
    );
}

#[test]
fn total_is_the_scaled_count() {
    assert_eq!(parse_rsync_progress("50 50%"), Some((50, 100)));
    assert_eq!(parse_rsync_progress("100 100%"), Some((100, 100)));
    assert_eq!(parse_rsync_progress("1 3%"), Some((1, 33)));
    assert_eq!(parse_rsync_progress("0 7%"), Some((0, 0)));
}

#[test]
fn percentage_of_zero_reports_the_bytes_as_the_total() {
    assert_eq!(parse_rsync_progress("512 0%"), Some((0, 512)));
    assert_eq!(parse_rsync_progress("0 0%"), None);
}

#[test]
fn percentage_may_lack_its_sign_or_have_several() {
    assert_eq!(parse_rsync_progress("10 20"), Some((10, 50)));
    assert_eq!(parse_rsync_progress("10 20%%"), Some((10, 50)));
    assert_eq!(parse_rsync_progress("10 %20"), None);
    assert_eq!(parse_rsync_progress("10 %"), None);
}

#[test]
fn commas_are_dropped_from_the_byte_count_only() {
    assert_eq!(parse_rsync_progress(",1,,0, 10%"), Some((10, 100)));
    assert_eq!(parse_rsync_progress("10 1,0%"), None);
    assert_eq!(parse_rsync_progress(", 10%"), None);
}

#[test]
fn plus_signs_are_part_of_a_number() {
    assert_eq!(parse_rsync_progress("+5 +50%"), Some((5, 10)));
    assert_eq!(parse_rsync_progress("-5 50%"), None);
    assert_eq!(parse_rsync_progress("+ 50%"), None);
}

#[test]
fn other_lines_report_nothing() {
    assert_eq!(parse_rsync_progress(""), None);
    assert_eq!(parse_rsync_progress("   \t "), None);
    assert_eq!(parse_rsync_progress("1234"), None);
    assert_eq!(parse_rsync_progress("sending incremental file list"), None);
    assert_eq!(parse_rsync_progress("12 files to consider"), None);
    assert_eq!(parse_rsync_progress("18446744073709551616 1%"), None);
}

#[test]
fn all_white_space_separates() {
    assert_eq!(parse_rsync_progress("\u{3000}10\u{a0}10%\u{2028}x"), Some((10, 100)));
}

#[test]
fn large_counts_are_scaled_exactly() {
    assert_eq!(
        parse_rsync_progress("184,467,440,737,095,517 100% 1.00MB/s 0:00:00"),
        Some((184467440737095517, 184467440737095517))
    );
    assert_eq!(
        parse_rsync_progress("18446744073709551615 100%"),
        Some((18446744073709551615, 18446744073709551615))
    );
    assert_eq!(
        parse_rsync_progress("18446744073709551615 200%"),
        Some((18446744073709551615, 9223372036854775807))
    );
    assert_eq!(
        parse_rsync_progress("184467440737095516 1%"),
        Some((184467440737095516, 18446744073709551600))
    );
    assert_eq!(
        parse_rsync_progress("18446744073709551615 0%"),
        Some((0, 18446744073709551615))
    );
}

#[test]
fn total_beyond_a_u64_is_not_reported() {
    assert_eq!(parse_rsync_progress("184467440737095517 1%"), None);
    assert_eq!(parse_rsync_progress("18446744073709551615 99%"), None);
}
