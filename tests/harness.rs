use stm32f3_common::harness::Tally;

#[test]
fn tally_counts_passes_and_failures() {
    let mut t = Tally::new();
    assert!(t.all_passed());
    assert!(t.record(true));
    assert!(!t.record(false));
    assert!(t.record(true));
    assert_eq!(t.passed(), 2);
    assert_eq!(t.failed(), 1);
    assert!(!t.all_passed());
}

#[test]
fn equality_check_records_its_result() {
    let mut t = Tally::new();
    assert!(t.check_equal(0xAA, 0xAA));
    assert!(!t.check_equal(0xAA, 0x55));
    assert_eq!((t.passed(), t.failed()), (1, 1));
}

#[test]
fn range_check_includes_both_ends() {
    let mut t = Tally::new();
    assert!(t.check_in_range(10, 10, 20));
    assert!(t.check_in_range(20, 10, 20));
    assert!(!t.check_in_range(9, 10, 20));
    assert!(!t.check_in_range(21, 10, 20));
    assert_eq!((t.passed(), t.failed()), (2, 2));
}

#[test]
fn failure_does_not_stop_later_checks() {
    let mut t = Tally::new();
    t.record(false);
    assert!(t.check_equal(3, 3));
    assert_eq!((t.passed(), t.failed()), (1, 1));
}
