use pi_estimation_channels::pipeline::count_inside;
use pi_estimation_channels::pipeline::run_pipeline;
use pi_estimation_channels::pipeline::run_pipeline_with_points;
use pi_estimation_channels::pipeline::serial_tally;
use pi_estimation_channels::point::Point;
use pi_estimation_channels::point::COORDINATE_SCALE;
use pi_estimation_channels::tally::Report;

fn inside_point() -> Point {
    Point::new(0, 0)
}

fn outside_point() -> Point {
    Point::new(COORDINATE_SCALE, COORDINATE_SCALE)
}

#[test]
fn round_trip_two_generators_two_managers() {
    // 20,000 synthetic samples, exactly 15,000 of which match: the final
    // cumulative tally must be {matching: 15000, total: 20000} and the
    // estimate exactly 3.0.
    let mut points = Vec::new();
    for _ in 0..15_000 {
        points.push(inside_point());
    }
    for _ in 0..5_000 {
        points.push(outside_point());
    }
    let tally = run_pipeline_with_points(points, 2, 2, 10_000).unwrap();
    assert_eq!(tally, Report::new(15_000, 20_000));
    let estimate = 4.0 * (tally.num_inside_points as f64) / (tally.total_num_points as f64);
    assert_eq!(estimate, 3.0);
}

#[test]
fn conservation_across_configurations() {
    // The final total always equals the number of samples produced, however
    // the generators and managers are arranged.
    for (generators, managers) in [(1, 1), (2, 3), (3, 2), (4, 1), (1, 4)] {
        let tally = run_pipeline(generators, managers, 2_500, 1_000).unwrap();
        assert_eq!(tally.total_num_points, generators * 2_500);
        assert!(tally.num_inside_points <= tally.total_num_points);
    }
}

#[test]
fn fixed_ratio_gives_exact_estimate() {
    // A deterministic source with one sample in four matching: the reported
    // estimate is exactly 4 * 25 / 100 = 1.0.
    let mut points = Vec::new();
    for i in 0..100 {
        if i % 4 == 0 {
            points.push(inside_point());
        } else {
            points.push(outside_point());
        }
    }
    let tally = run_pipeline_with_points(points, 1, 1, 10).unwrap();
    assert_eq!(tally, Report::new(25, 100));
    let estimate = 4.0 * (tally.num_inside_points as f64) / (tally.total_num_points as f64);
    assert_eq!(estimate, 1.0);
}

#[test]
fn threshold_smaller_than_stream_flushes_everything() {
    // 7 = 2 * 3 + 1 with threshold 3: still every sample is accounted for.
    let mut points = Vec::new();
    for _ in 0..7 {
        points.push(inside_point());
    }
    let tally = run_pipeline_with_points(points, 1, 1, 3).unwrap();
    assert_eq!(tally, Report::new(7, 7));
}

#[test]
fn empty_stream_gives_empty_tally() {
    let tally = run_pipeline_with_points(Vec::new(), 2, 2, 5).unwrap();
    assert_eq!(tally, Report::new(0, 0));
}

#[test]
fn random_pipeline_estimate_is_plausible() {
    // With genuinely random samples the tally is conserved and the estimate
    // lands in the unit square's possible range [0, 4].
    let tally = run_pipeline(2, 2, 5_000, 1_000).unwrap();
    assert_eq!(tally.total_num_points, 10_000);
    let estimate = 4.0 * (tally.num_inside_points as f64) / (tally.total_num_points as f64);
    assert!((0.0..=4.0).contains(&estimate));
    // A sanity band: the true value is pi, and 10,000 samples land well
    // within [2, 4] with overwhelming probability.
    assert!((2.0..4.0).contains(&estimate));
}

#[test]
fn count_inside_counts_exactly() {
    let points = vec![
        inside_point(),
        outside_point(),
        inside_point(),
        Point::new(COORDINATE_SCALE, 0),
        Point::new(COORDINATE_SCALE, 1),
    ];
    assert_eq!(count_inside(&points), 3);
    assert_eq!(count_inside(&Vec::new()), 0);
}

#[test]
fn serial_tally_counts_every_sample() {
    let tally = serial_tally(10_000);
    assert_eq!(tally.total_num_points, 10_000);
    assert!(tally.num_inside_points <= 10_000);
    let estimate = 4.0 * (tally.num_inside_points as f64) / (tally.total_num_points as f64);
    assert!((2.0..4.0).contains(&estimate));
}
