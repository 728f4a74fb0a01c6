use vstd::prelude::*;

use crate::channel::channel_recv;
use crate::channel::ChannelReceiver;
use crate::channel::ChannelSender;
use crate::channel::clone_sender;
use crate::channel::release_sender;
use crate::channel::unbounded_channel;
use crate::channel::PipelineError;
use crate::tally::CumulativeTally;
use crate::tally::Report;

verus! {

/// The Aggregator / Reporter stage: it owns the one inbound channel all
/// Managers feed, merges every partial tally into a cumulative total, and
/// records the running total after each merge.
pub struct Reporter {
    sender: ChannelSender<Report>,
    receiver: ChannelReceiver<Report>,
}

impl Reporter {
    pub fn new() -> (r: Reporter) {
        let (sender, receiver) = unbounded_channel();
        Reporter { sender, receiver }
    }

    /// A fresh endpoint into the Reporter's inbound channel, one per Manager.
    pub fn get_sender(&self) -> (s: ChannelSender<Report>) {
        clone_sender(&self.sender)
    }

    /// Merge partial tallies until every Manager has released its endpoint,
    /// and return the cumulative tally as it stood after each merge, in
    /// order. The cumulative tally never shrinks: both counts grow
    /// monotonically along the returned snapshots.
    ///
    /// `max_reports` bounds the stage's work; a tally beyond the bound is a
    /// capacity fault, and one that no longer fits the machine's integers is
    /// an overflow fault.
    pub fn report_stuff(self, max_reports: usize) -> (r: Result<Vec<Report>, PipelineError>)
        ensures
            r matches Ok(snapshots) ==> {
                &&& snapshots@.len() <= max_reports
                &&& forall|i: int, j: int|
                    0 <= i <= j < snapshots@.len() ==> {
                        &&& #[trigger] snapshots@[i].num_inside_points
                            <= #[trigger] snapshots@[j].num_inside_points
                        &&& snapshots@[i].total_num_points <= snapshots@[j].total_num_points
                    }
            },
    {
        let Reporter { sender, receiver } = self;
        // The Reporter's own clone of the sender must go before draining, or
        // the channel could never close.
        release_sender(sender);
        let mut cumulative = CumulativeTally::new();
        let mut snapshots: Vec<Report> = Vec::new();
        let mut closed = false;
        while !closed
            invariant
                cumulative.wf(),
                snapshots@.len() <= max_reports,
                forall|i: int|
                    0 <= i < snapshots@.len() ==> {
                        &&& #[trigger] snapshots@[i].num_inside_points
                            <= cumulative.num_inside_points
                        &&& snapshots@[i].total_num_points <= cumulative.total_num_points
                    },
                forall|i: int, j: int|
                    0 <= i <= j < snapshots@.len() ==> {
                        &&& #[trigger] snapshots@[i].num_inside_points
                            <= #[trigger] snapshots@[j].num_inside_points
                        &&& snapshots@[i].total_num_points <= snapshots@[j].total_num_points
                    },
            decreases max_reports - snapshots@.len(), (if closed {
                0int
            } else {
                1int
            }),
        {
            match channel_recv(&receiver) {
                None => {
                    closed = true;
                },
                Some(report) => {
                    if snapshots.len() == max_reports {
                        return Err(PipelineError::CapacityExceeded);
                    }
                    if !cumulative.can_merge(&report) {
                        return Err(PipelineError::TallyOverflow);
                    }
                    cumulative.merge(&report);
                    snapshots.push(
                        Report {
                            num_inside_points: cumulative.num_inside_points,
                            total_num_points: cumulative.total_num_points,
                        },
                    );
                },
            }
        }
        Ok(snapshots)
    }
}

} // verus!
