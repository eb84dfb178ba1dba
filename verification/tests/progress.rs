use downloader::progress::pretty_size;
use downloader::progress::update_progress;
use downloader::progress::BAR_WIDTH;

fn bar(filled: usize) -> String {
    format!("{}{}", "█".repeat(filled), " ".repeat(30 - filled))
}

#[test]
fn bar_is_thirty_wide() {
    assert_eq!(BAR_WIDTH, 30);
}

#[test]
fn unknown_size_is_a_line_of_its_own() {
    assert_eq!(update_progress("f", 123, 0), "f: 123 bytes / unknown size\n");
    assert_eq!(update_progress("a.bin", 0, 0), "a.bin: 0 bytes / unknown size\n");
}

#[test]
fn unknown_size_has_no_carriage_return_and_no_bar() {
    let line = update_progress("f.bin", 42, 0);
    assert_eq!(line, "f.bin: 42 bytes / unknown size\n");
    assert!(!line.contains('\r'));
    assert!(!line.contains('['));
    assert!(!line.contains('%'));
}

#[test]
fn known_size_draws_a_bar_and_a_percentage() {
    assert_eq!(
        update_progress("file.bin", 400, 1000),
        format!("\rfile.bin: [{}] 40.00%", bar(12))
    );
}

#[test]
fn nothing_downloaded_is_an_empty_bar() {
    assert_eq!(update_progress("x", 0, 1000), format!("\rx: [{}] 0.00%", bar(0)));
}

#[test]
fn everything_downloaded_is_a_full_bar() {
    assert_eq!(update_progress("x", 1000, 1000), format!("\rx: [{}] 100.00%", bar(30)));
}

#[test]
fn bar_is_rounded_down_and_percentage_to_the_nearest() {
    assert_eq!(update_progress("x", 1, 3), format!("\rx: [{}] 33.33%", bar(10)));
    assert_eq!(update_progress("x", 2, 3), format!("\rx: [{}] 66.67%", bar(20)));
    assert_eq!(update_progress("x", 999, 1000), format!("\rx: [{}] 99.90%", bar(29)));
    assert_eq!(update_progress("x", 99_999, 100_000), format!("\rx: [{}] 100.00%", bar(29)));
}

#[test]
fn percentage_tie_goes_to_the_even_hundredth() {
    assert_eq!(update_progress("x", 1, 20_000), format!("\rx: [{}] 0.00%", bar(0)));
    assert_eq!(update_progress("x", 3, 20_000), format!("\rx: [{}] 0.02%", bar(0)));
    assert_eq!(update_progress("x", 1, 8), format!("\rx: [{}] 12.50%", bar(3)));
}

#[test]
fn more_than_declared_fills_the_bar_and_reports_more_than_all() {
    assert_eq!(update_progress("x", 1500, 1000), format!("\rx: [{}] 150.00%", bar(30)));
    assert_eq!(
        update_progress("x", u64::MAX, 1),
        format!("\rx: [{}] 1844674407370955161500.00%", bar(30))
    );
}

#[test]
fn large_counters_do_not_overflow() {
    assert_eq!(
        update_progress("x", u64::MAX, u64::MAX),
        format!("\rx: [{}] 100.00%", bar(30))
    );
    assert_eq!(
        update_progress("x", u64::MAX / 2, u64::MAX),
        format!("\rx: [{}] 50.00%", bar(14))
    );
}

#[test]
fn name_is_printed_as_it_is() {
    assert_eq!(
        update_progress("日本 file.bin", 5, 0),
        "日本 file.bin: 5 bytes / unknown size\n"
    );
    assert_eq!(update_progress("", 1, 2), format!("\r: [{}] 50.00%", bar(15)));
}

#[test]
fn pretty_size_in_bytes() {
    assert_eq!(pretty_size(0), "0.00 B");
    assert_eq!(pretty_size(1), "1.00 B");
    assert_eq!(pretty_size(1023), "1023.00 B");
}

#[test]
fn pretty_size_picks_the_unit() {
    assert_eq!(pretty_size(1024), "1.00 KB");
    assert_eq!(pretty_size(1536), "1.50 KB");
    assert_eq!(pretty_size(1024 * 1024), "1.00 MB");
    assert_eq!(pretty_size(1024 * 1024 * 1024), "1.00 GB");
    assert_eq!(pretty_size(1024 * 1024 * 1024 * 1024), "1.00 TB");
    assert_eq!(pretty_size(5 * 1024 * 1024 + 512 * 1024), "5.50 MB");
}

#[test]
fn pretty_size_rounds_to_the_nearest_hundredth() {
    assert_eq!(pretty_size(1025), "1.00 KB");
    assert_eq!(pretty_size(1029), "1.00 KB");
    assert_eq!(pretty_size(1030), "1.01 KB");
    assert_eq!(pretty_size(1024 * 1024 - 1), "1024.00 KB");
}

#[test]
fn pretty_size_sends_a_tie_to_the_even_hundredth() {
    assert_eq!(pretty_size(1152), "1.12 KB");
    assert_eq!(pretty_size(1408), "1.38 KB");
}

#[test]
fn pretty_size_stops_at_terabytes() {
    assert_eq!(pretty_size(1024 * 1024 * 1024 * 1024 * 1024), "1024.00 TB");
    assert_eq!(pretty_size(u64::MAX), "16777216.00 TB");
}

#[test]
fn pretty_size_agrees_with_floating_point_on_small_sizes() {
    let units = ["B", "KB", "MB", "GB", "TB"];
    for size in [
        0u64, 1, 999, 1000, 1023, 1024, 1152, 1408, 1500, 2047, 2048, 123_456, 7_654_321,
        1_000_000_000, 123_456_789_012, 1_099_511_627_775, 1_099_511_627_776,
    ] {
        let mut value = size as f64;
        let mut unit = 0;
        while value >= 1024.0 && unit < units.len() - 1 {
            value /= 1024.0;
            unit += 1;
        }
        assert_eq!(pretty_size(size), format!("{:.2} {}", value, units[unit]));
    }
}
