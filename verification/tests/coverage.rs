use unsafe_perf::unsafe_coverage::{
    compare_lines, Rank, SourceFile, UnsafeCoverageTracker,
};

fn percentage(tracker: &UnsafeCoverageTracker) -> f64 {
    let registered = tracker.get_registered_count();
    let executed = tracker.get_executed_count();
    if registered > 0 {
        (executed as f64 / registered as f64) * 100.0
    } else {
        0.0
    }
}

#[test]
fn test_unsafe_coverage_functions() {
    let mut tracker = UnsafeCoverageTracker::new();
    // Reset stats before testing
    tracker.reset();

    let filename = SourceFile::Name("test.rs");
    // Test registration (normally called from module constructor)
    tracker.register_line(42, filename);

    // Test execution tracking (normally called at runtime)
    tracker.track_execution(42, filename);

    // Test coverage query functions
    let percentage = percentage(&tracker);
    assert!(percentage >= 0.0 && percentage <= 100.0);

    let registered_count = tracker.get_registered_count();
    assert!(registered_count >= 1); // We registered at least one line

    let executed_count = tracker.get_executed_count();
    assert!(executed_count >= 1); // We executed at least one line

    // Since we registered and executed the same line, coverage should be 100%
    assert_eq!(percentage, 100.0);

    // Test stats printing (normally called from module destructor)
    let report = tracker.write_stats(1700000000).unwrap();
    assert_eq!(
        report.head,
        "=== RUN_1 ===\n=== REGISTERED_LINES ===\ntest.rs:42\n\n=== EXECUTED_LINES ===\ntest.rs:42\n\n=== SUMMARY ===\nregistered_count=1\nexecuted_count=1\n"
    );
    assert_eq!(report.tail, "run_timestamp=1700000000\n\n");
}

#[test]
fn locations_name_file_and_line() {
    assert_eq!(
        UnsafeCoverageTracker::make_location(42, SourceFile::Name("src/main.rs")),
        "src/main.rs:42"
    );
    assert_eq!(UnsafeCoverageTracker::make_location(7, SourceFile::Unknown), "<unknown>:7");
    assert_eq!(UnsafeCoverageTracker::make_location(7, SourceFile::Invalid), "<invalid>:7");
    assert_eq!(UnsafeCoverageTracker::make_location(-3, SourceFile::Name("a")), "a:-3");
    assert_eq!(UnsafeCoverageTracker::make_location(0, SourceFile::Name("")), ":0");
    assert_eq!(
        UnsafeCoverageTracker::make_location(i64::MIN, SourceFile::Unknown),
        "<unknown>:-9223372036854775808"
    );
}

#[test]
fn lines_are_counted_once() {
    let mut tracker = UnsafeCoverageTracker::new();
    assert_eq!(tracker.get_registered_count(), 0);
    assert_eq!(tracker.get_executed_count(), 0);
    tracker.register_line(1, SourceFile::Name("a.rs"));
    tracker.register_line(2, SourceFile::Name("a.rs"));
    tracker.register_line(1, SourceFile::Name("a.rs"));
    tracker.register_line(1, SourceFile::Name("b.rs"));
    tracker.register_line(1, SourceFile::Unknown);
    tracker.register_line(1, SourceFile::Unknown);
    tracker.track_execution(2, SourceFile::Name("a.rs"));
    tracker.track_execution(2, SourceFile::Name("a.rs"));
    assert_eq!(tracker.get_registered_count(), 4);
    assert_eq!(tracker.get_executed_count(), 1);
    assert_eq!(percentage(&tracker), 25.0);
}

#[test]
fn report_lists_lines_in_order() {
    let mut tracker = UnsafeCoverageTracker::new();
    for (line, file) in [
        (10, "b.rs"),
        (9, "b.rs"),
        (100, "a.rs"),
        (2, "a.rs"),
        (2, "a.rs"),
        (1, "é.rs"),
        (1, "z.rs"),
        (1, "a"),
        (1, "A.rs"),
    ] {
        tracker.register_line(line, SourceFile::Name(file));
    }
    tracker.track_execution(9, SourceFile::Name("b.rs"));
    tracker.track_execution(100, SourceFile::Name("a.rs"));
    tracker.track_execution(5, SourceFile::Invalid);
    let report = tracker.write_stats(12).unwrap();
    let mut expected = vec![
        "b.rs:10", "b.rs:9", "a.rs:100", "a.rs:2", "é.rs:1", "z.rs:1", "a:1", "A.rs:1",
    ];
    expected.sort();
    assert_eq!(
        expected,
        vec!["A.rs:1", "a.rs:100", "a.rs:2", "a:1", "b.rs:10", "b.rs:9", "z.rs:1", "é.rs:1"]
    );
    assert_eq!(
        report.head,
        "=== RUN_1 ===\n\
         === REGISTERED_LINES ===\n\
         A.rs:1\na.rs:100\na.rs:2\na:1\nb.rs:10\nb.rs:9\nz.rs:1\né.rs:1\n\
         \n\
         === EXECUTED_LINES ===\n\
         <invalid>:5\na.rs:100\nb.rs:9\n\
         \n\
         === SUMMARY ===\n\
         registered_count=8\n\
         executed_count=3\n"
    );
    assert_eq!(report.tail, "run_timestamp=12\n\n");
    assert_eq!(report.run_num, 1);
    assert_eq!(report.registered_count, 8);
    assert_eq!(report.executed_count, 3);
}

#[test]
fn coverage_report_is_handed_out_once_until_reset() {
    let mut tracker = UnsafeCoverageTracker::new();
    tracker.register_line(1, SourceFile::Name("a.rs"));
    assert!(tracker.write_stats(5).is_some());
    assert!(tracker.write_stats(6).is_none());
    assert!(tracker.write_stats(7).is_none());
    assert_eq!(tracker.get_registered_count(), 1);
    tracker.reset();
    assert_eq!(tracker.get_registered_count(), 0);
    assert_eq!(tracker.get_executed_count(), 0);
    let report = tracker.write_stats(8).unwrap();
    assert_eq!(report.run_num, 1);
    assert_eq!(
        report.head,
        "=== RUN_1 ===\n=== REGISTERED_LINES ===\n\n=== EXECUTED_LINES ===\n\n=== SUMMARY ===\nregistered_count=0\nexecuted_count=0\n"
    );
}

#[test]
fn detailed_report_takes_what_it_is_given() {
    let registered = vec![String::from("x:1"), String::from("y:2")];
    let executed = vec![String::from("y:2")];
    let report =
        UnsafeCoverageTracker::write_detailed_stats(3, &registered, &executed, 2, 1, 99);
    assert_eq!(
        report.head,
        "=== RUN_3 ===\n=== REGISTERED_LINES ===\nx:1\ny:2\n\n=== EXECUTED_LINES ===\ny:2\n\n=== SUMMARY ===\nregistered_count=2\nexecuted_count=1\n"
    );
    assert_eq!(report.tail, "run_timestamp=99\n\n");
}

#[test]
fn lines_compare_by_their_bytes() {
    assert_eq!(compare_lines("a", "b"), Rank::Before);
    assert_eq!(compare_lines("b", "a"), Rank::After);
    assert_eq!(compare_lines("abc", "abc"), Rank::Same);
    assert_eq!(compare_lines("", ""), Rank::Same);
    assert_eq!(compare_lines("", "a"), Rank::Before);
    assert_eq!(compare_lines("ab", "abc"), Rank::Before);
    assert_eq!(compare_lines("abc", "ab"), Rank::After);
    assert_eq!(compare_lines("Z", "a"), Rank::Before);
    assert_eq!(compare_lines("z", "é"), Rank::Before);
    assert_eq!(compare_lines("a:10", "a:9"), Rank::Before);
}
