use rsynced::format::format_bytes;
use rsynced::progress::{parse_rsync_progress, RsyncProgress};
use rsynced::stats::parse_rsync_stats;
use rsynced::text::grouped_number;

fn record(bytes: u64, pct: u8, speed: &str, eta: &str) -> RsyncProgress {
    RsyncProgress {
        bytes_transferred: bytes,
        percentage: pct,
        speed: speed.to_string(),
        estimated_time: eta.to_string(),
    }
}

#[test]
fn progress_line_with_grouping() {
    let r = parse_rsync_progress("      1,234,567  45%    1.23MB/s    0:00:12");
    assert_eq!(r, Some(record(1234567, 45, "1.23MB/s", "0:00:12")));
}

#[test]
fn progress_line_two_digit_hours() {
    let r = parse_rsync_progress("32768 100% 12.00kB/s 10:01:02\r");
    assert_eq!(r, Some(record(32768, 100, "12.00kB/s", "10:01:02")));
}

#[test]
fn progress_line_dot_grouping() {
    let r = parse_rsync_progress("1.048.576 7% 3,5MB/s 0:01:40");
    assert_eq!(r, Some(record(1048576, 7, "3,5MB/s", "0:01:40")));
}

#[test]
fn progress_parse_is_repeatable() {
    let line = "500 50% 1kB/s 0:00:01";
    assert_eq!(parse_rsync_progress(line), parse_rsync_progress(line));
}

#[test]
fn progress_rejects_malformed_lines() {
    assert_eq!(parse_rsync_progress(""), None);
    assert_eq!(parse_rsync_progress("1,234 45% 1.23MB/s"), None);
    assert_eq!(parse_rsync_progress("abc 45% 1.23MB/s 0:00:12"), None);
    assert_eq!(parse_rsync_progress("1,234 4x% 1.23MB/s 0:00:12"), None);
    assert_eq!(parse_rsync_progress("1,234 45 1.23MB/s 0:00:12"), None);
    assert_eq!(parse_rsync_progress("1,234 101% 1.23MB/s 0:00:12"), None);
    assert_eq!(parse_rsync_progress("1,234 45% 1.23MB/s 0:0:12"), None);
    assert_eq!(parse_rsync_progress("1,234 45% 1.23MB/s 100:00:12"), None);
    assert_eq!(parse_rsync_progress("1,234 45% fast 0:00:12"), None);
    assert_eq!(parse_rsync_progress("1,234 45% 1.23MB/s 0:00:12 extra"), None);
    assert_eq!(parse_rsync_progress("99999999999999999999999 45% 1MB/s 0:00:12"), None);
    assert_eq!(parse_rsync_progress("sending incremental file list"), None);
}

#[test]
fn grouped_numbers() {
    assert_eq!(grouped_number("1,234,567"), Some(1234567));
    assert_eq!(grouped_number("0"), Some(0));
    assert_eq!(grouped_number("18446744073709551615"), Some(u64::MAX));
    assert_eq!(grouped_number("18446744073709551616"), None);
    assert_eq!(grouped_number(""), None);
    assert_eq!(grouped_number(",12"), None);
    assert_eq!(grouped_number("12a"), None);
}

#[test]
fn format_bytes_values() {
    assert_eq!(format_bytes(0), "0 B");
    assert_eq!(format_bytes(1536), "1.5 KiB");
    assert_eq!(format_bytes(512), "512 B");
    assert_eq!(format_bytes(1023), "1023 B");
    assert_eq!(format_bytes(1024), "1.0 KiB");
    assert_eq!(format_bytes(1075), "1.0 KiB");
    assert_eq!(format_bytes(1048576), "1.0 MiB");
    assert_eq!(format_bytes(5 * 1073741824 / 2), "2.5 GiB");
    assert_eq!(format_bytes(u64::MAX), "16.0 EiB");
}

#[test]
fn summary_number_of_files() {
    let s = parse_rsync_stats("Number of files: 1,234 (reg: 1,000, dir: 234)");
    assert_eq!(s.get("Number of files (total)"), Some("1,234".to_string()));
    assert_eq!(s.get("Number of files (regular)"), Some("1,000".to_string()));
    assert_eq!(s.get("Number of files (directories)"), Some("234".to_string()));
    assert_eq!(s.get("Number of files (links)"), None);
    assert_eq!(s.get("Number of files"), None);
    assert_eq!(grouped_number("1,234"), Some(1234));
    assert_eq!(s.regular_file_count(), Some(1000));
}

#[test]
fn summary_number_of_files_with_links() {
    let s = parse_rsync_stats("Number of files: 12 (reg: 9, dir: 2, link: 1)\n");
    assert_eq!(s.get("Number of files (links)"), Some("1".to_string()));
    assert_eq!(s.regular_file_count(), Some(9));
}

#[test]
fn summary_total_size_line() {
    let s = parse_rsync_stats("total size is 500000  speedup is 2.50  (DRY RUN)");
    assert_eq!(s.get("Total size (summary)"), Some("500000".to_string()));
    assert_eq!(s.get("Speedup"), Some("2.50".to_string()));
    assert_eq!(s.get("Run type"), Some("DRY RUN".to_string()));
    assert_eq!(s.len(), 3);
}

#[test]
fn summary_full_preview_output() {
    let text = "\nNumber of files: 3 (reg: 2, dir: 1)\r\nNumber of created files: 0\n\
                Total file size: 1,024 bytes\nLiteral data:   \n\
                sent 120 bytes  received 20 bytes  280.00 bytes/sec\n\
                total size is 1,024  speedup is 7.31 (DRY RUN)\n";
    let s = parse_rsync_stats(text);
    assert_eq!(s.get("Number of created files"), Some("0".to_string()));
    assert_eq!(s.get("Total file size"), Some("1,024 bytes".to_string()));
    assert_eq!(s.get("Literal data"), Some("".to_string()));
    assert_eq!(s.get("Total size (summary)"), Some("1,024".to_string()));
    assert_eq!(s.get("Speedup"), Some("7.31".to_string()));
    assert_eq!(s.regular_file_count(), Some(2));
}

#[test]
fn summary_later_label_wins_and_bad_breakdown_is_skipped() {
    let s = parse_rsync_stats("Speedup: 1\nA: x\nA: y\nNumber of files: lots");
    assert_eq!(s.get("A"), Some("y".to_string()));
    assert_eq!(s.get("Speedup"), Some("1".to_string()));
    assert_eq!(s.regular_file_count(), None);
    assert_eq!(s.len(), 3);
}

#[test]
fn summary_of_empty_text() {
    let s = parse_rsync_stats("");
    assert_eq!(s.len(), 0);
    assert_eq!(s.regular_file_count(), None);
}

#[test]
fn progress_line_printed_from_values_reads_back() {
    let line = format!("{}  {}%  {}  {}", "18,446,744,073,709,551,615", 0, "32MB/s", "12:34:56");
    assert_eq!(parse_rsync_progress(&line), Some(record(u64::MAX, 0, "32MB/s", "12:34:56")));
}
