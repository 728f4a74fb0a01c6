use vstd::prelude::*;

use crate::channel::channel_recv;
use crate::channel::ChannelReceiver;
use crate::channel::ChannelSender;
use crate::channel::channel_send;
use crate::channel::release_sender;
use crate::channel::PipelineError;
use crate::point::Point;
use crate::tally::run_tally;
use crate::tally::Report;

verus! {

/// How many samples a Manager tallies before it flushes a partial tally
/// downstream.
pub const FLUSH_THRESHOLD: usize = 10_000;

/// The Manager's classification registers: the counts pending since the last
/// flush, together with the (ghost) history of every classification observed.
pub struct ManagerState {
    pub num_inside: usize,
    pub total_points: usize,
    pub threshold: usize,
    pub history: Ghost<Seq<bool>>,
}

impl ManagerState {
    /// The registers hold exactly what `run_tally` says the history pends.
    pub open spec fn wf(self) -> bool {
        let m = run_tally(self.history@, self.threshold as int);
        &&& self.threshold >= 1
        &&& self.num_inside == m.pending_inside
        &&& self.total_points == m.pending_total
        &&& self.num_inside <= self.total_points
        &&& self.total_points < self.threshold
    }

    pub fn new(threshold: usize) -> (s: ManagerState)
        requires
            threshold >= 1,
        ensures
            s.wf(),
            s.threshold == threshold,
            s.history@ == Seq::<bool>::empty(),
    {
        ManagerState {
            num_inside: 0,
            total_points: 0,
            threshold,
            history: Ghost(Seq::empty()),
        }
    }

    /// Classify one more sample. Exactly when the pending total reaches the
    /// threshold, the pending counts come back as a flushed tally and the
    /// registers reset; otherwise nothing is flushed and the counts grow.
    pub fn observe(&mut self, matching: bool) -> (r: Option<Report>)
        requires
            old(self).wf(),
        ensures
            final(self).wf(),
            final(self).threshold == old(self).threshold,
            final(self).history@ == old(self).history@.push(matching),
            old(self).total_points + 1 == old(self).threshold ==> {
                &&& r == Some(
                    Report {
                        num_inside_points: (old(self).num_inside + (if matching {
                            1int
                        } else {
                            0int
                        })) as usize,
                        total_num_points: old(self).threshold,
                    },
                )
                &&& final(self).num_inside == 0
                &&& final(self).total_points == 0
            },
            old(self).total_points + 1 < old(self).threshold ==> {
                &&& r is None
                &&& final(self).num_inside == old(self).num_inside + (if matching {
                    1int
                } else {
                    0int
                })
                &&& final(self).total_points == old(self).total_points + 1
            },
    {
        proof {
            let h = self.history@.push(matching);
            assert(h.drop_last() =~= self.history@);
            self.history@ = h;
        }
        if matching {
            self.num_inside = self.num_inside + 1;
        }
        self.total_points = self.total_points + 1;
        if self.total_points == self.threshold {
            let report = Report {
                num_inside_points: self.num_inside,
                total_num_points: self.total_points,
            };
            self.num_inside = 0;
            self.total_points = 0;
            Some(report)
        } else {
            None
        }
    }

    /// The final, possibly partial flush at stream end: the pending counts if
    /// any sample is still unflushed, and nothing — no empty tally — if the
    /// last flush left the registers clean.
    pub fn finish(self) -> (r: Option<Report>)
        requires
            self.wf(),
        ensures
            self.total_points > 0 ==> r == Some(
                Report {
                    num_inside_points: self.num_inside,
                    total_num_points: self.total_points,
                },
            ),
            self.total_points == 0 ==> r is None,
    {
        if self.total_points > 0 {
            Some(Report { num_inside_points: self.num_inside, total_num_points: self.total_points })
        } else {
            None
        }
    }
}

/// The Manager / Classifier stage: one inbound channel of samples, one
/// outbound channel of partial tallies to the Aggregator.
pub struct PointManager {
    report_sender: ChannelSender<Report>,
    point_receiver: ChannelReceiver<Point>,
    threshold: usize,
}

impl PointManager {
    pub closed spec fn wf(self) -> bool {
        self.threshold >= 1
    }

    pub closed spec fn spec_threshold(self) -> usize {
        self.threshold
    }

    pub fn new(
        report_sender: ChannelSender<Report>,
        point_receiver: ChannelReceiver<Point>,
    ) -> (m: PointManager)
        ensures
            m.wf(),
            m.spec_threshold() == FLUSH_THRESHOLD,
    {
        PointManager { report_sender, point_receiver, threshold: FLUSH_THRESHOLD }
    }

    pub fn with_threshold(
        report_sender: ChannelSender<Report>,
        point_receiver: ChannelReceiver<Point>,
        threshold: usize,
    ) -> (m: PointManager)
        requires
            threshold >= 1,
        ensures
            m.wf(),
            m.spec_threshold() == threshold,
    {
        PointManager { report_sender, point_receiver, threshold }
    }

    /// Receive samples until the inbound channel closes, classify each one,
    /// and flush a partial tally every `threshold` samples, plus one final
    /// tally for a non-empty remainder. Returns how many samples it received.
    ///
    /// `max_points` bounds the stage's work; a sample beyond that bound is a
    /// capacity fault. A send that fails reveals the Aggregator gone: a
    /// wiring fault.
    pub fn receive_stuff(self, max_points: usize) -> (r: Result<usize, PipelineError>)
        requires
            self.wf(),
        ensures
            r matches Ok(n) ==> n <= max_points,
    {
        let PointManager { report_sender, point_receiver, threshold } = self;
        let mut state = ManagerState::new(threshold);
        let mut received: usize = 0;
        let mut closed = false;
        while !closed
            invariant
                state.wf(),
                received <= max_points,
                received == state.history@.len(),
            decreases max_points - received, (if closed {
                0int
            } else {
                1int
            }),
        {
            match channel_recv(&point_receiver) {
                None => {
                    closed = true;
                },
                Some(point) => {
                    if received == max_points {
                        return Err(PipelineError::CapacityExceeded);
                    }
                    received = received + 1;
                    let matching = point.inside_unit_circle();
                    if let Some(report) = state.observe(matching) {
                        match channel_send(&report_sender, report) {
                            Ok(()) => (),
                            Err(e) => {
                                return Err(e);
                            },
                        }
                    }
                },
            }
        }
        if let Some(report) = state.finish() {
            match channel_send(&report_sender, report) {
                Ok(()) => (),
                Err(e) => {
                    return Err(e);
                },
            }
        }
        release_sender(report_sender);
        Ok(received)
    }
}

} // verus!
