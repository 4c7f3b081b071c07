use oci_sniper_rs::logging::{collect_log_files, newest_log_file, tail_text, LogEntry};

fn entry(path: &str, modified: i128) -> LogEntry {
    LogEntry { path: path.to_string(), modified }
}

#[test]
fn zips_only_requested_number_of_latest_logs() {
    let entries = vec![entry("a.log", 1_000), entry("b.log", 11_000_000)];
    assert_eq!(collect_log_files(entries, Some(1)), vec!["b.log".to_string()]);
}

#[test]
fn returns_truncated_tail_from_latest_log() {
    let tail = tail_text("line1\nline2\nline3\nline4\nline5\nline6", 4, 10);
    assert_eq!(tail, "ine5\nline6");
}

#[test]
fn orders_logs_newest_first_and_keeps_ties_in_order() {
    let entries = vec![
        entry("old.log", 1),
        entry("tie1.log", 5),
        entry("new.log", 9),
        entry("tie2.log", 5),
    ];
    assert_eq!(
        collect_log_files(entries, None),
        vec!["new.log", "tie1.log", "tie2.log", "old.log"]
    );
    let entries = vec![entry("a", 2), entry("b", 3)];
    assert_eq!(collect_log_files(entries, Some(10)), vec!["b", "a"]);
    assert_eq!(collect_log_files(vec![], Some(3)), Vec::<String>::new());
    assert_eq!(collect_log_files(vec![entry("a", 1)], Some(0)), Vec::<String>::new());
}

#[test]
fn picks_the_last_of_equally_new_logs() {
    assert_eq!(newest_log_file(&vec![]), None);
    let entries = vec![entry("a", 4), entry("b", 7), entry("c", 7), entry("d", 1)];
    assert_eq!(newest_log_file(&entries), Some("c".to_string()));
}

#[test]
fn tail_keeps_at_least_one_line_and_drops_carriage_returns() {
    assert_eq!(tail_text("a\r\nb\r\nc\n", 2, 100), "b\nc");
    assert_eq!(tail_text("a\nb", 0, 100), "b");
    assert_eq!(tail_text("", 5, 100), "");
    assert_eq!(tail_text("x\n\ny", 5, 100), "x\n\ny");
}

#[test]
fn tail_never_exceeds_the_character_limit() {
    let long: String = (0..500).map(|i| format!("line number {i}\n")).collect();
    let tail = tail_text(&long, 1000, 3800);
    assert!(tail.chars().count() <= 3800);
    assert!(tail.ends_with("line number 499"));
    assert_eq!(tail_text(&long, 1000, 7).chars().count(), 7);
}

#[test]
fn keeps_the_newest_files_under_a_limit() {
    let entries = vec![
        entry("c.log", 30),
        entry("a.log", 10),
        entry("e.log", 50),
        entry("b.log", 20),
        entry("d.log", 40),
    ];
    assert_eq!(collect_log_files(entries, Some(2)), vec!["e.log", "d.log"]);
}
