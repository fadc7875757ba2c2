use time_warp::compare::{compare_count, compare_to_baseline, finished_before, prettyprint_usize};

#[test]
fn pretty_small_numbers() {
    assert_eq!(prettyprint_usize(0), "0");
    assert_eq!(prettyprint_usize(7), "7");
    assert_eq!(prettyprint_usize(42), "42");
    assert_eq!(prettyprint_usize(999), "999");
}

#[test]
fn pretty_grouped_numbers() {
    assert_eq!(prettyprint_usize(1000), "1,000");
    assert_eq!(prettyprint_usize(12345), "12,345");
    assert_eq!(prettyprint_usize(1234567), "1,234,567");
    assert_eq!(prettyprint_usize(1000000), "1,000,000");
}

#[test]
fn compare_count_equal() {
    assert_eq!(compare_count(5, 5), "+0");
    assert_eq!(compare_count(0, 0), "+0");
}

#[test]
fn compare_count_ahead() {
    assert_eq!(compare_count(7, 4), "+3");
    assert_eq!(compare_count(1234567, 0), "+1,234,567");
}

#[test]
fn compare_count_behind() {
    assert_eq!(compare_count(1, 2), "-1");
    assert_eq!(compare_count(0, 2500), "-2,500");
}

#[test]
fn baseline_count_at_time() {
    let trace: Vec<u64> = vec![100, 200, 300];
    assert_eq!(finished_before(&trace, 250), 2);
    assert_eq!(finished_before(&trace, 99), 0);
    assert_eq!(finished_before(&trace, 100), 1);
    assert_eq!(finished_before(&trace, 300), 3);
    assert_eq!(finished_before(&trace, 5000), 3);
}

#[test]
fn baseline_count_empty_and_ties() {
    let empty: Vec<u64> = vec![];
    assert_eq!(finished_before(&empty, 123), 0);
    let ties: Vec<u64> = vec![100, 100, 200];
    assert_eq!(finished_before(&ties, 100), 2);
}

#[test]
fn comparator_example() {
    // baseline finished trips at 100, 200, 300; one live finished trip at
    // time 250 sits one behind the baseline's two
    let trace: Vec<u64> = vec![100, 200, 300];
    assert_eq!(compare_to_baseline(&trace, 250, 1), "-1");
    assert_eq!(compare_to_baseline(&trace, 250, 2), "+0");
    assert_eq!(compare_to_baseline(&trace, 250, 5), "+3");
}
