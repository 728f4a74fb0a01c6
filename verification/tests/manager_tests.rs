use pi_estimation_channels::manager::ManagerState;
use pi_estimation_channels::manager::FLUSH_THRESHOLD;
use pi_estimation_channels::tally::Report;

#[test]
fn flush_threshold_is_ten_thousand() {
    assert_eq!(FLUSH_THRESHOLD, 10_000);
}

#[test]
fn observe_flushes_exactly_at_threshold() {
    let mut state = ManagerState::new(5);
    for i in 0..4 {
        assert!(state.observe(i % 2 == 0).is_none());
    }
    let flushed = state.observe(true);
    assert_eq!(flushed, Some(Report::new(3, 5)));
    assert_eq!(state.num_inside, 0);
    assert_eq!(state.total_points, 0);
}

#[test]
fn thirteen_samples_at_threshold_five_give_two_full_flushes_and_a_remainder() {
    // 13 = 2 * 5 + 3: two full tallies of 5 and one final tally of 3.
    let mut state = ManagerState::new(5);
    let mut flushed = Vec::new();
    for i in 0..13 {
        // Samples 0, 2, 4, ... match; 7 of the 13 match in all.
        if let Some(report) = state.observe(i % 2 == 0) {
            flushed.push(report);
        }
    }
    assert_eq!(flushed, vec![Report::new(3, 5), Report::new(2, 5)]);
    let last = state.finish();
    assert_eq!(last, Some(Report::new(2, 3)));
}

#[test]
fn no_empty_tally_when_the_stream_ends_on_a_flush() {
    // 10 = 2 * 5 + 0: two full tallies and nothing more.
    let mut state = ManagerState::new(5);
    let mut count = 0;
    for _ in 0..10 {
        if state.observe(true).is_some() {
            count += 1;
        }
    }
    assert_eq!(count, 2);
    assert_eq!(state.finish(), None);
}

#[test]
fn finish_on_untouched_state_is_none() {
    let state = ManagerState::new(7);
    assert_eq!(state.finish(), None);
}

#[test]
fn conservation_across_flushes() {
    // However the flushes fall, the tallies account for every sample.
    let mut state = ManagerState::new(7);
    let mut total = 0;
    let mut inside = 0;
    for i in 0..40 {
        if let Some(r) = state.observe(i % 3 == 0) {
            total += r.total_num_points;
            inside += r.num_inside_points;
        }
    }
    if let Some(r) = state.finish() {
        total += r.total_num_points;
        inside += r.num_inside_points;
    }
    assert_eq!(total, 40);
    assert_eq!(inside, (0..40).filter(|i| i % 3 == 0).count());
}
