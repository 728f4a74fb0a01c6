use vstd::prelude::*;
use vstd::arithmetic::div_mod::lemma_fundamental_div_mod;
use vstd::arithmetic::div_mod::lemma_mod_decreases;
use vstd::arithmetic::div_mod::lemma_fundamental_div_mod_converse;
use vstd::seq_lib::commutative_foldr;
use vstd::seq_lib::lemma_fold_right_permutation;

verus! {

/// A partial tally: how many of a batch of samples matched the predicate,
/// out of how many received, as a Manager flushes it downstream. Immutable
/// once created and consumed exactly once by the Aggregator.
#[derive(Clone, Copy, Debug, PartialEq, Eq, Structural)]
pub struct Report {
    pub num_inside_points: usize,
    pub total_num_points: usize,
}

/// The mathematical content of a `Report`: a pair of unbounded counts.
pub struct ReportModel {
    pub inside: int,
    pub total: int,
}

impl View for Report {
    type V = ReportModel;

    open spec fn view(&self) -> ReportModel {
        ReportModel { inside: self.num_inside_points as int, total: self.total_num_points as int }
    }
}

impl Report {
    pub fn new(num_inside_points: usize, total_num_points: usize) -> (r: Report)
        ensures
            r == (Report { num_inside_points, total_num_points }),
    {
        Report { num_inside_points, total_num_points }
    }

    /// No batch can match more often than it has samples.
    pub open spec fn wf(self) -> bool {
        self.num_inside_points <= self.total_num_points
    }
}

/// How many entries of a classification history are `true`.
pub open spec fn count_matching(h: Seq<bool>) -> int
    decreases h.len(),
{
    if h.len() == 0 {
        0
    } else {
        count_matching(h.drop_last()) + (if h.last() {
            1int
        } else {
            0int
        })
    }
}

/// The sum of the `total` fields of a sequence of tallies.
pub open spec fn sum_total(rs: Seq<ReportModel>) -> int
    decreases rs.len(),
{
    if rs.len() == 0 {
        0
    } else {
        sum_total(rs.drop_last()) + rs.last().total
    }
}

/// The sum of the `inside` fields of a sequence of tallies.
pub open spec fn sum_inside(rs: Seq<ReportModel>) -> int
    decreases rs.len(),
{
    if rs.len() == 0 {
        0
    } else {
        sum_inside(rs.drop_last()) + rs.last().inside
    }
}

/// Where a Manager stands after classifying a history of samples: the tallies
/// it has flushed so far, and the counts still pending in its registers.
pub struct TallyProgress {
    pub flushed: Seq<ReportModel>,
    pub pending_inside: int,
    pub pending_total: int,
}

/// The Manager's flushing discipline, as a function of the classification
/// history: every time the pending total reaches `threshold`, a tally of the
/// pending counts is flushed and the registers reset.
pub open spec fn run_tally(h: Seq<bool>, threshold: int) -> TallyProgress
    decreases h.len(),
{
    if h.len() == 0 {
        TallyProgress { flushed: Seq::empty(), pending_inside: 0, pending_total: 0 }
    } else {
        let prev = run_tally(h.drop_last(), threshold);
        let inside = prev.pending_inside + (if h.last() {
            1int
        } else {
            0int
        });
        let total = prev.pending_total + 1;
        if total == threshold {
            TallyProgress {
                flushed: prev.flushed.push(ReportModel { inside, total }),
                pending_inside: 0,
                pending_total: 0,
            }
        } else {
            TallyProgress { flushed: prev.flushed, pending_inside: inside, pending_total: total }
        }
    }
}

/// Everything a Manager sends for a history: the flushed tallies, then one
/// final tally of the remainder if any samples are still pending at stream
/// end — and no empty tally otherwise.
pub open spec fn manager_reports(h: Seq<bool>, threshold: int) -> Seq<ReportModel> {
    let m = run_tally(h, threshold);
    if m.pending_total > 0 {
        m.flushed.push(ReportModel { inside: m.pending_inside, total: m.pending_total })
    } else {
        m.flushed
    }
}

/// The registers a `run_tally` progress can reach: the pending counts stay
/// consistent and strictly under the threshold, and every flushed tally is a
/// well-formed batch of exactly `threshold` samples.
pub proof fn lemma_run_tally_wf(h: Seq<bool>, threshold: int)
    requires
        threshold >= 1,
    ensures
        0 <= run_tally(h, threshold).pending_inside <= run_tally(h, threshold).pending_total,
        run_tally(h, threshold).pending_total < threshold,
        forall|k: int|
            0 <= k < run_tally(h, threshold).flushed.len() ==> {
                &&& 0 <= #[trigger] run_tally(h, threshold).flushed[k].inside
                &&& run_tally(h, threshold).flushed[k].inside <= threshold
                &&& run_tally(h, threshold).flushed[k].total == threshold
            },
    decreases h.len(),
{
    if h.len() > 0 {
        lemma_run_tally_wf(h.drop_last(), threshold);
    }
}

/// Conservation at one Manager: counting what was flushed together with what
/// is still pending gives back exactly the history — both the sample count
/// and the matching count.
pub proof fn lemma_run_tally_conservation(h: Seq<bool>, threshold: int)
    requires
        threshold >= 1,
    ensures
        sum_total(run_tally(h, threshold).flushed) + run_tally(h, threshold).pending_total
            == h.len(),
        sum_inside(run_tally(h, threshold).flushed) + run_tally(h, threshold).pending_inside
            == count_matching(h),
    decreases h.len(),
{
    if h.len() > 0 {
        lemma_run_tally_conservation(h.drop_last(), threshold);
        let prev = run_tally(h.drop_last(), threshold);
        let cur = run_tally(h, threshold);
        if prev.pending_total + 1 == threshold {
            assert(cur.flushed.drop_last() == prev.flushed);
        }
    }
}

/// Conservation over a whole Manager run: the tallies it sends, final
/// remainder included, account for every sample it received and every match.
pub proof fn lemma_manager_conservation(h: Seq<bool>, threshold: int)
    requires
        threshold >= 1,
    ensures
        sum_total(manager_reports(h, threshold)) == h.len(),
        sum_inside(manager_reports(h, threshold)) == count_matching(h),
{
    lemma_run_tally_wf(h, threshold);
    lemma_run_tally_conservation(h, threshold);
    let m = run_tally(h, threshold);
    if m.pending_total > 0 {
        let rs = manager_reports(h, threshold);
        assert(rs.drop_last() =~= m.flushed);
        assert(sum_total(rs) == sum_total(m.flushed) + m.pending_total);
        assert(sum_inside(rs) == sum_inside(m.flushed) + m.pending_inside);
    }
}

/// Flush correctness: a Manager that receives exactly `k * threshold + r`
/// samples (`0 <= r < threshold`) flushes exactly `k` full tallies of
/// `threshold` samples each; the final flush covers exactly the remainder
/// `r` when `r > 0`, and is not sent at all when `r == 0`.
pub proof fn lemma_flush_correctness(h: Seq<bool>, threshold: int)
    requires
        threshold >= 1,
    ensures
        run_tally(h, threshold).flushed.len() == h.len() as int / threshold,
        run_tally(h, threshold).pending_total == h.len() as int % threshold,
        forall|k: int|
            0 <= k < run_tally(h, threshold).flushed.len() ==> #[trigger] run_tally(
                h,
                threshold,
            ).flushed[k].total == threshold,
        h.len() as int % threshold == 0 ==> manager_reports(h, threshold) == run_tally(h, threshold).flushed,
        h.len() as int % threshold > 0 ==> {
            &&& manager_reports(h, threshold).len() == h.len() as int / threshold + 1
            &&& manager_reports(h, threshold).last().total == h.len() as int % threshold
        },
    decreases h.len(),
{
    lemma_run_tally_wf(h, threshold);
    let n = h.len() as int;
    if h.len() == 0 {
        lemma_fundamental_div_mod_converse(0, threshold, 0, 0);
    } else {
        lemma_flush_correctness(h.drop_last(), threshold);
        lemma_run_tally_wf(h.drop_last(), threshold);
        lemma_fundamental_div_mod(n - 1, threshold);
        let prev = run_tally(h.drop_last(), threshold);
        let q = (n - 1) / threshold;
        let r = (n - 1) % threshold;
        if prev.pending_total + 1 == threshold {
            assert(n - 1 == threshold * q + r);
            assert((q + 1) * threshold == q * threshold + threshold) by (nonlinear_arith);
            assert(threshold * q == q * threshold) by (nonlinear_arith);
            assert(n == (q + 1) * threshold + 0);
            lemma_fundamental_div_mod_converse(n, threshold, q + 1, 0);
        } else {
            lemma_fundamental_div_mod_converse(n, threshold, q, r + 1);
        }
    }
}

/// The pending registers always cover exactly the tail of the history since
/// the last flush.
pub proof fn lemma_pending_is_tail(h: Seq<bool>, threshold: int)
    requires
        threshold >= 1,
    ensures
        run_tally(h, threshold).pending_inside == count_matching(
            h.subrange(h.len() - (h.len() as int % threshold), h.len() as int),
        ),
    decreases h.len(),
{
    lemma_flush_correctness(h, threshold);
    let n = h.len() as int;
    if h.len() == 0 {
        assert(h.subrange(0, 0) =~= Seq::<bool>::empty());
    } else {
        lemma_pending_is_tail(h.drop_last(), threshold);
        lemma_flush_correctness(h.drop_last(), threshold);
        let prev = run_tally(h.drop_last(), threshold);
        let r_prev = (n - 1) % threshold;
        if prev.pending_total + 1 == threshold {
            // A flush just happened: the new tail is empty.
            assert(n % threshold == 0);
            assert(h.subrange(n - (n % threshold), n) =~= Seq::<bool>::empty());
        } else {
            assert(n % threshold == r_prev + 1);
            lemma_mod_decreases((n - 1) as nat, threshold as nat);
            assert(0 <= r_prev <= n - 1);
            let tail = h.subrange(n - (r_prev + 1), n);
            assert(tail.drop_last() =~= h.drop_last().subrange((n - 1) - r_prev, n - 1));
            assert(tail.last() == h.last());
        }
    }
}

/// Each flushed tally covers exactly its own chunk of the history: the
/// `k`-th one counts the matches among samples `k * threshold` up to
/// `(k + 1) * threshold`.
pub proof fn lemma_flush_chunks(h: Seq<bool>, threshold: int)
    requires
        threshold >= 1,
    ensures
        forall|k: int|
            0 <= k < run_tally(h, threshold).flushed.len() ==> #[trigger] run_tally(
                h,
                threshold,
            ).flushed[k] == (ReportModel {
                inside: count_matching(h.subrange(k * threshold, (k + 1) * threshold)),
                total: threshold,
            }),
    decreases h.len(),
{
    lemma_flush_correctness(h, threshold);
    let n = h.len() as int;
    if h.len() > 0 {
        lemma_flush_chunks(h.drop_last(), threshold);
        lemma_flush_correctness(h.drop_last(), threshold);
        lemma_pending_is_tail(h.drop_last(), threshold);
        lemma_fundamental_div_mod(n - 1, threshold);
        let prev = run_tally(h.drop_last(), threshold);
        let cur = run_tally(h, threshold);
        let q = (n - 1) / threshold;
        let r_prev = (n - 1) % threshold;
        // Chunks that lie wholly inside the prefix are untouched.
        assert forall|k: int| 0 <= k < prev.flushed.len() implies #[trigger] h.subrange(
            k * threshold,
            (k + 1) * threshold,
        ) == h.drop_last().subrange(k * threshold, (k + 1) * threshold) by {
            assert(k * threshold >= 0) by (nonlinear_arith)
                requires
                    k >= 0,
                    threshold >= 1,
            ;
            assert((k + 1) * threshold <= q * threshold) by (nonlinear_arith)
                requires
                    k + 1 <= q,
                    threshold >= 1,
            ;
            assert(k * threshold <= (k + 1) * threshold) by (nonlinear_arith)
                requires
                    threshold >= 1,
            ;
            assert(q * threshold == threshold * q) by (nonlinear_arith);
            assert(threshold * q == n - 1 - r_prev);
            assert(r_prev >= 0);
            assert(h.subrange(k * threshold, (k + 1) * threshold) =~= h.drop_last().subrange(
                k * threshold,
                (k + 1) * threshold,
            ));
        }
        if prev.pending_total + 1 == threshold {
            // The sample just observed completes chunk q.
            assert(r_prev + 1 == threshold);
            assert(q * threshold == threshold * q) by (nonlinear_arith);
            assert(q * threshold == n - threshold);
            assert((q + 1) * threshold == q * threshold + threshold) by (nonlinear_arith);
            let chunk = h.subrange(q * threshold, (q + 1) * threshold);
            assert(chunk.drop_last() =~= h.drop_last().subrange((n - 1) - r_prev, n - 1));
            assert(chunk.last() == h.last());
            assert(cur.flushed[q as int].inside == count_matching(chunk));
            assert(cur.flushed.drop_last() == prev.flushed);
            assert forall|k: int| 0 <= k < cur.flushed.len() implies #[trigger] cur.flushed[k]
                == (ReportModel {
                inside: count_matching(h.subrange(k * threshold, (k + 1) * threshold)),
                total: threshold,
            }) by {
                if k < q {
                    assert(cur.flushed[k] == prev.flushed[k]);
                }
            }
        }
    }
}

/// Both sums distribute over concatenation.
pub proof fn lemma_sum_concat(a: Seq<ReportModel>, b: Seq<ReportModel>)
    ensures
        sum_total(a + b) == sum_total(a) + sum_total(b),
        sum_inside(a + b) == sum_inside(a) + sum_inside(b),
    decreases b.len(),
{
    if b.len() == 0 {
        assert(a + b =~= a);
    } else {
        lemma_sum_concat(a, b.drop_last());
        assert((a + b).drop_last() =~= a + b.drop_last());
        assert((a + b).last() == b.last());
    }
}

/// Merging two tallies sums both of their counts.
pub open spec fn merge_model(a: ReportModel, b: ReportModel) -> ReportModel {
    ReportModel { inside: a.inside + b.inside, total: a.total + b.total }
}

/// The tally of no samples at all.
pub open spec fn empty_model() -> ReportModel {
    ReportModel { inside: 0, total: 0 }
}

/// The cumulative tally after merging a sequence of partial tallies in order.
pub open spec fn aggregate(rs: Seq<ReportModel>) -> ReportModel {
    rs.fold_right(|r: ReportModel, acc: ReportModel| merge_model(r, acc), empty_model())
}

proof fn lemma_aggregate_fold(rs: Seq<ReportModel>, acc: ReportModel)
    ensures
        rs.fold_right(|r: ReportModel, a: ReportModel| merge_model(r, a), acc) == (ReportModel {
            inside: sum_inside(rs) + acc.inside,
            total: sum_total(rs) + acc.total,
        }),
    decreases rs.len(),
{
    if rs.len() > 0 {
        lemma_aggregate_fold(rs.drop_last(), merge_model(rs.last(), acc));
    }
}

/// Aggregation is nothing but the two sums: the cumulative tally of a
/// sequence of partial tallies is the sum of their counts.
pub proof fn lemma_aggregate_is_sums(rs: Seq<ReportModel>)
    ensures
        aggregate(rs) == (ReportModel { inside: sum_inside(rs), total: sum_total(rs) }),
{
    lemma_aggregate_fold(rs, empty_model());
}

/// Merging is commutative.
pub proof fn lemma_merge_commutative(a: ReportModel, b: ReportModel)
    ensures
        merge_model(a, b) == merge_model(b, a),
{
}

/// Merging is associative.
pub proof fn lemma_merge_associative(a: ReportModel, b: ReportModel, c: ReportModel)
    ensures
        merge_model(merge_model(a, b), c) == merge_model(a, merge_model(b, c)),
{
}

/// Commutativity of aggregation: merging the same collection of partial
/// tallies in any delivery order yields the same cumulative tally.
pub proof fn lemma_aggregate_order_irrelevant(rs1: Seq<ReportModel>, rs2: Seq<ReportModel>)
    requires
        rs1.to_multiset() == rs2.to_multiset(),
    ensures
        aggregate(rs1) == aggregate(rs2),
        sum_inside(rs1) == sum_inside(rs2),
        sum_total(rs1) == sum_total(rs2),
{
    let f = |r: ReportModel, acc: ReportModel| merge_model(r, acc);
    assert(commutative_foldr(f)) by {
        assert forall|x: ReportModel, y: ReportModel, v: ReportModel| #[trigger] f(x, f(y, v)) == f(
            y,
            f(x, v),
        ) by {}
    }
    lemma_fold_right_permutation(rs1, rs2, f, empty_model());
    lemma_aggregate_is_sums(rs1);
    lemma_aggregate_is_sums(rs2);
}

/// The Aggregator's running total: the cumulative tally over every partial
/// tally received so far, which only the Aggregator owns and mutates.
pub struct CumulativeTally {
    pub num_inside_points: usize,
    pub total_num_points: usize,
    pub received: Ghost<Seq<ReportModel>>,
}

impl CumulativeTally {
    /// The counters hold exactly the sums over the tallies received so far.
    pub open spec fn wf(self) -> bool {
        &&& self.num_inside_points == sum_inside(self.received@)
        &&& self.total_num_points == sum_total(self.received@)
    }

    pub fn new() -> (t: CumulativeTally)
        ensures
            t.wf(),
            t.num_inside_points == 0,
            t.total_num_points == 0,
            t.received@ == Seq::<ReportModel>::empty(),
    {
        CumulativeTally {
            num_inside_points: 0,
            total_num_points: 0,
            received: Ghost(Seq::empty()),
        }
    }

    /// Whether one more tally still fits in the machine's integer range.
    pub fn can_merge(&self, report: &Report) -> (r: bool)
        ensures
            r == {
                &&& self.num_inside_points + report.num_inside_points <= usize::MAX
                &&& self.total_num_points + report.total_num_points <= usize::MAX
            },
    {
        report.num_inside_points <= usize::MAX - self.num_inside_points
            && report.total_num_points <= usize::MAX - self.total_num_points
    }

    /// One merge step: both counts grow by the partial tally's counts, so the
    /// cumulative tally is monotonic in both fields.
    pub fn merge(&mut self, report: &Report)
        requires
            old(self).wf(),
            old(self).num_inside_points + report.num_inside_points <= usize::MAX,
            old(self).total_num_points + report.total_num_points <= usize::MAX,
        ensures
            final(self).wf(),
            final(self).num_inside_points == old(self).num_inside_points
                + report.num_inside_points,
            final(self).total_num_points == old(self).total_num_points + report.total_num_points,
            final(self).received@ == old(self).received@.push(report@),
            final(self).num_inside_points >= old(self).num_inside_points,
            final(self).total_num_points >= old(self).total_num_points,
    {
        self.num_inside_points = self.num_inside_points + report.num_inside_points;
        self.total_num_points = self.total_num_points + report.total_num_points;
        proof {
            let pushed = self.received@.push(report@);
            assert(pushed.drop_last() =~= self.received@);
            self.received@ = pushed;
        }
    }
}

} // verus!
