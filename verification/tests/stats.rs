use boa::stats::percentile;

#[test]
fn percentile_reads_the_sorted_values() {
    let data = [5, 1, 3, -7, 9];
    // Sorted: -7, 1, 3, 5, 9.
    assert_eq!(percentile(&data, 0), -7);
    assert_eq!(percentile(&data, 50), 3);
    assert_eq!(percentile(&data, 90), 9);
    assert_eq!(percentile(&data, 100), 9);
    assert_eq!(percentile(&data, 250), 9);
}

#[test]
fn percentile_of_nothing_is_zero() {
    assert_eq!(percentile(&[], 50), 0);
}

#[test]
fn percentile_keeps_duplicates() {
    assert_eq!(percentile(&[2, 2, 2, 1], 25), 2);
    assert_eq!(percentile(&[2, 2, 2, 1], 10), 1);
}

#[test]
fn sampling_takes_every_rate_th_call() {
    assert_eq!(boa::probe_events::sample_step(7, 1), (true, 7));
    assert_eq!(boa::probe_events::sample_step(7, 0), (true, 7));
    assert_eq!(boa::probe_events::sample_step(0, 3), (true, 1));
    assert_eq!(boa::probe_events::sample_step(1, 3), (false, 2));
    assert_eq!(boa::probe_events::sample_step(u64::MAX, 2), (false, 0));
}
