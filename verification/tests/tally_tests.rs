use pi_estimation_channels::tally::CumulativeTally;
use pi_estimation_channels::tally::Report;

#[test]
fn report_new_holds_its_counts() {
    let r = Report::new(7, 19);
    assert_eq!(r.num_inside_points, 7);
    assert_eq!(r.total_num_points, 19);
}

#[test]
fn cumulative_tally_starts_empty() {
    let t = CumulativeTally::new();
    assert_eq!(t.num_inside_points, 0);
    assert_eq!(t.total_num_points, 0);
}

#[test]
fn merge_sums_both_fields() {
    let mut t = CumulativeTally::new();
    t.merge(&Report::new(3, 10));
    t.merge(&Report::new(4, 10));
    assert_eq!(t.num_inside_points, 7);
    assert_eq!(t.total_num_points, 20);
}

#[test]
fn merge_order_is_irrelevant() {
    let reports = [Report::new(1, 5), Report::new(2, 7), Report::new(3, 11), Report::new(0, 2)];

    let mut forward = CumulativeTally::new();
    for r in reports.iter() {
        forward.merge(r);
    }

    let mut backward = CumulativeTally::new();
    for r in reports.iter().rev() {
        backward.merge(r);
    }

    assert_eq!(forward.num_inside_points, backward.num_inside_points);
    assert_eq!(forward.total_num_points, backward.total_num_points);
    assert_eq!(forward.total_num_points, 25);
    assert_eq!(forward.num_inside_points, 6);
}

#[test]
fn cumulative_tally_only_grows() {
    let mut t = CumulativeTally::new();
    let mut last_inside = 0;
    let mut last_total = 0;
    for r in [Report::new(5, 9), Report::new(0, 0), Report::new(2, 3)] {
        t.merge(&r);
        assert!(t.num_inside_points >= last_inside);
        assert!(t.total_num_points >= last_total);
        last_inside = t.num_inside_points;
        last_total = t.total_num_points;
    }
}

#[test]
fn can_merge_detects_overflow() {
    let mut t = CumulativeTally::new();
    t.merge(&Report::new(0, usize::MAX));
    assert!(!t.can_merge(&Report::new(0, 1)));
    assert!(t.can_merge(&Report::new(0, 0)));
}
