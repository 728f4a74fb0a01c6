use vstd::prelude::*;

use crate::channel::bounded_channel;
use crate::channel::ChannelReceiver;
use crate::channel::ChannelSender;
use crate::channel::channel_recv;
use crate::channel::clone_sender;
use crate::channel::release_sender;
use crate::channel::PipelineError;

verus! {

/// The capacity of the channel a `Receiver` owns: a bounded buffer that
/// throttles fast producers (backpressure).
pub const CHANNEL_SIZE: usize = 100;

/// A consumer that owns both ends of its inbound channel and hands fresh
/// sender clones to producers.
#[verifier::reject_recursive_types(T)]
pub struct Receiver<T> {
    send_channel: ChannelSender<T>,
    receive_channel: ChannelReceiver<T>,
}

impl<T> Receiver<T> {
    pub fn new() -> (r: Receiver<T>) {
        let (send_channel, receive_channel) = bounded_channel(CHANNEL_SIZE);
        Receiver { send_channel, receive_channel }
    }

    /// A fresh endpoint into this consumer's channel.
    pub fn send_channel(&self) -> (s: ChannelSender<T>) {
        clone_sender(&self.send_channel)
    }

    /// Drain the channel until every producer has released its endpoint, and
    /// return how many messages arrived. `max_items` bounds the stage's
    /// work; a message beyond it is a capacity fault.
    pub fn receive_stuff(self, max_items: usize) -> (r: Result<usize, PipelineError>)
        ensures
            r matches Ok(n) ==> n <= max_items,
    {
        let Receiver { send_channel, receive_channel } = self;
        // The consumer's own clone of the sender must go before draining, or
        // the channel could never close.
        release_sender(send_channel);
        let mut received: usize = 0;
        let mut closed = false;
        while !closed
            invariant
                received <= max_items,
            decreases max_items - received, (if closed {
                0int
            } else {
                1int
            }),
        {
            match channel_recv(&receive_channel) {
                None => {
                    closed = true;
                },
                Some(_) => {
                    if received == max_items {
                        return Err(PipelineError::CapacityExceeded);
                    }
                    received = received + 1;
                },
            }
        }
        Ok(received)
    }
}

} // verus!
