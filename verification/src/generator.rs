use vstd::prelude::*;

use crate::channel::channel_send;
use crate::channel::ChannelSender;
use crate::channel::PipelineError;
use crate::point::Point;

verus! {

/// The outbound endpoint for the `i`-th sample when `num_channels` endpoints
/// are owned: plain round-robin.
pub open spec fn route(i: int, num_channels: int) -> int {
    i % num_channels
}

/// The Generator stage: it owns a count of samples to produce and one
/// outbound endpoint per Manager, and distributes samples round-robin.
pub struct MessageGenerator {
    num_messages: usize,
    send_channels: Vec<ChannelSender<Point>>,
}

impl MessageGenerator {
    pub closed spec fn wf(self) -> bool {
        self.send_channels@.len() >= 1
    }

    pub closed spec fn spec_num_messages(self) -> usize {
        self.num_messages
    }

    pub fn new(num_messages: usize, send_channels: Vec<ChannelSender<Point>>) -> (g:
        MessageGenerator)
        requires
            send_channels@.len() >= 1,
        ensures
            g.wf(),
            g.spec_num_messages() == num_messages,
    {
        MessageGenerator { num_messages, send_channels }
    }

    /// Draw `num_messages` random samples and send the `i`-th into the
    /// endpoint `route(i, ...)` picks. On success exactly `num_messages`
    /// samples went out; a failed send means the receiving Manager is
    /// already gone — a wiring fault.
    pub fn send_messages(self) -> (r: Result<usize, PipelineError>)
        requires
            self.wf(),
        ensures
            r matches Ok(n) ==> n == self.spec_num_messages(),
            r matches Err(e) ==> e == PipelineError::Disconnected,
    {
        let num_messages = self.num_messages;
        let num_channels = self.send_channels.len();
        let mut i: usize = 0;
        while i < num_messages
            invariant
                i <= num_messages,
                num_channels == self.send_channels@.len(),
                num_channels >= 1,
            decreases num_messages - i,
        {
            let value = Point::random();
            let idx = i % num_channels;
            proof {
                assert(idx == route(i as int, num_channels as int));
            }
            match channel_send(&self.send_channels[idx], value) {
                Ok(()) => (),
                Err(e) => {
                    return Err(e);
                },
            }
            i = i + 1;
        }
        Ok(i)
    }

    /// Send a prepared batch of samples instead of random ones, still
    /// round-robin; the deterministic twin of `send_messages`.
    pub fn send_points(self, points: Vec<Point>) -> (r: Result<usize, PipelineError>)
        requires
            self.wf(),
            points@.len() == self.spec_num_messages(),
        ensures
            r matches Ok(n) ==> n == self.spec_num_messages(),
            r matches Err(e) ==> e == PipelineError::Disconnected,
    {
        let num_messages = self.num_messages;
        let num_channels = self.send_channels.len();
        let mut i: usize = 0;
        while i < num_messages
            invariant
                i <= num_messages,
                num_messages == points@.len(),
                num_channels == self.send_channels@.len(),
                num_channels >= 1,
            decreases num_messages - i,
        {
            let value = points[i];
            let idx = i % num_channels;
            match channel_send(&self.send_channels[idx], value) {
                Ok(()) => (),
                Err(e) => {
                    return Err(e);
                },
            }
            i = i + 1;
        }
        Ok(i)
    }
}

/// A single-endpoint Generator feeding one consumer.
pub struct PointGenerator {
    pub(crate) num_points_to_generate: u32,
    pub(crate) send_channel: ChannelSender<Point>,
}

impl PointGenerator {
    pub closed spec fn spec_num_points(self) -> u32 {
        self.num_points_to_generate
    }

    pub fn new(num_points_to_generate: u32, send_channel: ChannelSender<Point>) -> (g:
        PointGenerator)
        ensures
            g.spec_num_points() == num_points_to_generate,
    {
        PointGenerator { num_points_to_generate, send_channel }
    }

    /// Draw and send the configured number of random samples, then release
    /// the endpoint — the sole completion signal the consumer gets.
    pub fn generate_points(self) -> (r: Result<u32, PipelineError>)
        ensures
            r matches Ok(n) ==> n == self.spec_num_points(),
            r matches Err(e) ==> e == PipelineError::Disconnected,
    {
        let n = self.num_points_to_generate;
        let mut i: u32 = 0;
        while i < n
            invariant
                i <= n,
            decreases n - i,
        {
            let value = Point::random();
            match channel_send(&self.send_channel, value) {
                Ok(()) => (),
                Err(e) => {
                    return Err(e);
                },
            }
            i = i + 1;
        }
        Ok(i)
    }
}

} // verus!
