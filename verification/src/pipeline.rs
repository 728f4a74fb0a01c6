use vstd::prelude::*;

use crate::channel::clone_sender;
use crate::channel::release_sender;
use crate::channel::unbounded_channel;
use crate::channel::ChannelSender;
use crate::channel::PipelineError;
use crate::generator::MessageGenerator;
use crate::manager::PointManager;
use crate::point::Point;
use crate::reporter::Reporter;
use crate::tally::aggregate;
use crate::tally::count_matching;
use crate::tally::lemma_aggregate_is_sums;
use crate::tally::lemma_aggregate_order_irrelevant;
use crate::tally::lemma_manager_conservation;
use crate::tally::lemma_sum_concat;
use crate::tally::manager_reports;
use crate::tally::sum_inside;
use crate::tally::sum_total;
use crate::tally::Report;
use crate::tally::ReportModel;

verus! {

/// How many samples a run with these histories produced in all.
pub open spec fn total_samples(hs: Seq<Seq<bool>>) -> int
    decreases hs.len(),
{
    if hs.len() == 0 {
        0
    } else {
        total_samples(hs.drop_last()) + hs.last().len()
    }
}

/// How many of those samples matched the predicate.
pub open spec fn total_matching(hs: Seq<Seq<bool>>) -> int
    decreases hs.len(),
{
    if hs.len() == 0 {
        0
    } else {
        total_matching(hs.drop_last()) + count_matching(hs.last())
    }
}

/// Every partial tally the Managers send when the samples are partitioned
/// among them — history `hs[i]` to the `i`-th Manager.
pub open spec fn all_reports(hs: Seq<Seq<bool>>, threshold: int) -> Seq<ReportModel>
    decreases hs.len(),
{
    if hs.len() == 0 {
        Seq::empty()
    } else {
        all_reports(hs.drop_last(), threshold) + manager_reports(hs.last(), threshold)
    }
}

/// Conservation across the whole pipeline: however the Generators' samples
/// are partitioned among the Managers, the tallies the Managers send account
/// for every sample produced and for every match — none lost, none invented.
pub proof fn lemma_pipeline_conservation(hs: Seq<Seq<bool>>, threshold: int)
    requires
        threshold >= 1,
    ensures
        sum_total(all_reports(hs, threshold)) == total_samples(hs),
        sum_inside(all_reports(hs, threshold)) == total_matching(hs),
    decreases hs.len(),
{
    if hs.len() > 0 {
        lemma_pipeline_conservation(hs.drop_last(), threshold);
        lemma_manager_conservation(hs.last(), threshold);
        lemma_sum_concat(all_reports(hs.drop_last(), threshold), manager_reports(hs.last(), threshold));
    }
}

/// What the Aggregator ends with: whatever order the network delivers the
/// Managers' tallies in, the final cumulative tally counts exactly the
/// samples produced and the samples that matched.
pub proof fn lemma_aggregator_final_tally(
    hs: Seq<Seq<bool>>,
    delivered: Seq<ReportModel>,
    threshold: int,
)
    requires
        threshold >= 1,
        delivered.to_multiset() == all_reports(hs, threshold).to_multiset(),
    ensures
        aggregate(delivered) == (ReportModel {
            inside: total_matching(hs),
            total: total_samples(hs),
        }),
{
    lemma_aggregate_order_irrelevant(delivered, all_reports(hs, threshold));
    lemma_aggregate_is_sums(delivered);
    lemma_pipeline_conservation(hs, threshold);
}

/// Wire and run the whole pipeline on prepared samples: `num_generators`
/// Generators split `points` round-robin among themselves, each distributing
/// its share round-robin over `num_managers` Managers, whose partial tallies
/// one Aggregator merges. Returns the final cumulative tally.
///
/// The stages run to completion in turn, upstream first; the unbounded
/// channels buffer each stage's full output, and every driver-held endpoint
/// is released as soon as its stage is wired, so each channel closes as soon
/// as its producers finish.
pub fn run_pipeline_with_points(
    points: Vec<Point>,
    num_generators: usize,
    num_managers: usize,
    threshold: usize,
) -> (r: Result<Report, PipelineError>)
    requires
        num_generators >= 1,
        num_managers >= 1,
        threshold >= 1,
        points@.len() + num_generators + num_managers <= usize::MAX,
{
    let total = points.len();
    let reporter = Reporter::new();

    // One inbound channel per Manager.
    let mut point_senders: Vec<ChannelSender<Point>> = Vec::new();
    let mut managers: Vec<PointManager> = Vec::new();
    let mut mi: usize = 0;
    while mi < num_managers
        invariant
            threshold >= 1,
            forall|k: int| 0 <= k < managers@.len() ==> (#[trigger] managers@[k]).wf(),
        decreases num_managers - mi,
    {
        let (s, r) = unbounded_channel();
        point_senders.push(s);
        managers.push(PointManager::with_threshold(reporter.get_sender(), r, threshold));
        mi = mi + 1;
    }

    // Each Generator owns one endpoint per Manager and its round-robin share
    // of the samples: the indices congruent to its own index.
    let mut gi: usize = 0;
    while gi < num_generators
        invariant
            gi <= num_generators,
            total == points@.len(),
            total + num_generators <= usize::MAX,
            num_generators >= 1,
        decreases num_generators - gi,
    {
        let mut chunk: Vec<Point> = Vec::new();
        let mut j: usize = gi;
        while j < total
            invariant
                total == points@.len(),
                total + num_generators <= usize::MAX,
                num_generators >= 1,
            ensures
                true,
            decreases total - j,
        {
            chunk.push(points[j]);
            let next = j + num_generators;
            if next >= total {
                break ;
            }
            j = next;
        }
        let mut channels: Vec<ChannelSender<Point>> = Vec::new();
        let mut ci: usize = 0;
        while ci < point_senders.len()
            invariant
                channels@.len() == ci,
                ci <= point_senders@.len(),
            decreases point_senders@.len() - ci,
        {
            channels.push(clone_sender(&point_senders[ci]));
            ci = ci + 1;
        }
        if channels.len() == 0 {
            // No Manager channel was wired: a wiring bug, not a data fault.
            return Err(PipelineError::Disconnected);
        }
        let generator = MessageGenerator::new(chunk.len(), channels);
        match generator.send_points(chunk) {
            Ok(_) => (),
            Err(e) => {
                return Err(e);
            },
        }
        gi = gi + 1;
    }

    // Release every driver-held endpoint: only then can the Managers see
    // their channels close once the Generators are done.
    loop
        ensures
            true,
        decreases point_senders@.len(),
    {
        match point_senders.pop() {
            Some(s) => release_sender(s),
            None => {
                break ;
            },
        }
    }

    // Drain every Manager; each may have received anything up to the whole
    // stream.
    loop
        invariant
            forall|k: int| 0 <= k < managers@.len() ==> (#[trigger] managers@[k]).wf(),
        ensures
            true,
        decreases managers@.len(),
    {
        match managers.pop() {
            Some(m) => {
                match m.receive_stuff(total) {
                    Ok(_) => (),
                    Err(e) => {
                        return Err(e);
                    },
                }
            },
            None => {
                break ;
            },
        }
    }

    // Merge everything: no Manager flushes more tallies than it received
    // samples, plus one final remainder each.
    let snapshots = match reporter.report_stuff(total + num_managers) {
        Ok(s) => s,
        Err(e) => {
            return Err(e);
        },
    };
    if snapshots.len() > 0 {
        Ok(snapshots[snapshots.len() - 1])
    } else {
        Ok(Report { num_inside_points: 0, total_num_points: 0 })
    }
}

/// Wire and run the pipeline on random samples: each Generator draws
/// `points_per_generator` of them. Returns the final cumulative tally.
pub fn run_pipeline(
    num_generators: usize,
    num_managers: usize,
    points_per_generator: usize,
    threshold: usize,
) -> (r: Result<Report, PipelineError>)
    requires
        num_generators >= 1,
        num_managers >= 1,
        threshold >= 1,
        num_generators * points_per_generator + num_managers <= usize::MAX,
{
    let total = num_generators * points_per_generator;
    let reporter = Reporter::new();

    let mut point_senders: Vec<ChannelSender<Point>> = Vec::new();
    let mut managers: Vec<PointManager> = Vec::new();
    let mut mi: usize = 0;
    while mi < num_managers
        invariant
            threshold >= 1,
            forall|k: int| 0 <= k < managers@.len() ==> (#[trigger] managers@[k]).wf(),
        decreases num_managers - mi,
    {
        let (s, r) = unbounded_channel();
        point_senders.push(s);
        managers.push(PointManager::with_threshold(reporter.get_sender(), r, threshold));
        mi = mi + 1;
    }

    let mut gi: usize = 0;
    while gi < num_generators
        invariant
            num_generators >= 1,
        decreases num_generators - gi,
    {
        let mut channels: Vec<ChannelSender<Point>> = Vec::new();
        let mut ci: usize = 0;
        while ci < point_senders.len()
            invariant
                channels@.len() == ci,
                ci <= point_senders@.len(),
            decreases point_senders@.len() - ci,
        {
            channels.push(clone_sender(&point_senders[ci]));
            ci = ci + 1;
        }
        if channels.len() == 0 {
            return Err(PipelineError::Disconnected);
        }
        let generator = MessageGenerator::new(points_per_generator, channels);
        match generator.send_messages() {
            Ok(_) => (),
            Err(e) => {
                return Err(e);
            },
        }
        gi = gi + 1;
    }

    loop
        ensures
            true,
        decreases point_senders@.len(),
    {
        match point_senders.pop() {
            Some(s) => release_sender(s),
            None => {
                break ;
            },
        }
    }

    loop
        invariant
            forall|k: int| 0 <= k < managers@.len() ==> (#[trigger] managers@[k]).wf(),
        ensures
            true,
        decreases managers@.len(),
    {
        match managers.pop() {
            Some(m) => {
                match m.receive_stuff(total) {
                    Ok(_) => (),
                    Err(e) => {
                        return Err(e);
                    },
                }
            },
            None => {
                break ;
            },
        }
    }

    let snapshots = match reporter.report_stuff(total + num_managers) {
        Ok(s) => s,
        Err(e) => {
            return Err(e);
        },
    };
    if snapshots.len() > 0 {
        Ok(snapshots[snapshots.len() - 1])
    } else {
        Ok(Report { num_inside_points: 0, total_num_points: 0 })
    }
}

/// How many of the points lie inside the unit circle.
pub open spec fn spec_count_inside(ps: Seq<Point>) -> int
    decreases ps.len(),
{
    if ps.len() == 0 {
        0
    } else {
        spec_count_inside(ps.drop_last()) + (if ps.last().spec_inside_unit_circle() {
            1int
        } else {
            0int
        })
    }
}

/// Classifying a batch of points yields the history whose matching count is
/// exactly the number of points inside the circle: with a deterministic
/// source of known ratio, the conserved tally is therefore known exactly.
pub proof fn lemma_classification_history(ps: Seq<Point>)
    ensures
        count_matching(ps.map(|i: int, p: Point| p.spec_inside_unit_circle()))
            == spec_count_inside(ps),
    decreases ps.len(),
{
    let f = |i: int, p: Point| p.spec_inside_unit_circle();
    if ps.len() > 0 {
        lemma_classification_history(ps.drop_last());
        assert(ps.map(f).drop_last() =~= ps.drop_last().map(f));
        assert(ps.map(f).last() == f(ps.len() - 1, ps.last()));
    }
}

/// Classify a prepared batch of points in one pass.
pub fn count_inside(points: &Vec<Point>) -> (n: usize)
    ensures
        n == spec_count_inside(points@),
        n <= points@.len(),
{
    let mut n: usize = 0;
    let mut i: usize = 0;
    while i < points.len()
        invariant
            i <= points@.len(),
            n == spec_count_inside(points@.subrange(0, i as int)),
            n <= i,
        decreases points@.len() - i,
    {
        if points[i].inside_unit_circle() {
            n = n + 1;
        }
        proof {
            assert(points@.subrange(0, i + 1).drop_last() =~= points@.subrange(0, i as int));
            assert(points@.subrange(0, i + 1).last() == points@[i as int]);
        }
        i = i + 1;
    }
    proof {
        assert(points@.subrange(0, points@.len() as int) =~= points@);
    }
    n
}

/// The single-threaded estimator: draw and classify samples one by one and
/// return the tally of the whole run.
pub fn serial_tally(num_points: usize) -> (r: Report)
    ensures
        r.total_num_points == num_points,
        r.num_inside_points <= num_points,
        r.wf(),
{
    let mut num_inside: usize = 0;
    let mut i: usize = 0;
    while i < num_points
        invariant
            i <= num_points,
            num_inside <= i,
        decreases num_points - i,
    {
        let point = Point::random();
        if point.inside_unit_circle() {
            num_inside = num_inside + 1;
        }
        i = i + 1;
    }
    Report { num_inside_points: num_inside, total_num_points: num_points }
}

} // verus!
