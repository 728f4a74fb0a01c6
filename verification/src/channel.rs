use vstd::prelude::*;

verus! {

/// The failures a pipeline stage can report. Every one of them points at a
/// defect in the wiring or at a machine limit, never at a transient condition,
/// so none is retried.
#[derive(Clone, Copy, Debug, PartialEq, Eq, Structural)]
pub enum PipelineError {
    /// A send found every receiver of the channel already gone.
    Disconnected,
    /// A running tally would exceed the machine's integer range.
    TallyOverflow,
    /// A stage received more items than the bound it was given.
    CapacityExceeded,
}

/// A producing endpoint of a crossbeam_channel channel. Opaque to the
/// verifier: the channel's buffer is shared between threads, so nothing can
/// be stated of the value itself, only of what the operations return.
#[verifier::external_body]
#[verifier::reject_recursive_types(T)]
pub struct ChannelSender<T> {
    inner: crossbeam_channel::Sender<T>,
}

/// The consuming endpoint of a crossbeam_channel channel, opaque like the
/// sender.
#[verifier::external_body]
#[verifier::reject_recursive_types(T)]
pub struct ChannelReceiver<T> {
    inner: crossbeam_channel::Receiver<T>,
}

/// Relies on crossbeam_channel::unbounded: a FIFO channel of unlimited
/// capacity, on which a send never blocks.
#[verifier::external_body]
pub fn unbounded_channel<T>() -> (ChannelSender<T>, ChannelReceiver<T>) {
    let (s, r) = crossbeam_channel::unbounded();
    (ChannelSender { inner: s }, ChannelReceiver { inner: r })
}

/// Relies on crossbeam_channel::bounded: a FIFO channel holding at most
/// `capacity` messages, on which a send blocks while the buffer is full.
/// A capacity of zero would make every send wait for a simultaneous receive,
/// so it is left out.
#[verifier::external_body]
pub fn bounded_channel<T>(capacity: usize) -> (ChannelSender<T>, ChannelReceiver<T>)
    requires
        capacity >= 1,
{
    let (s, r) = crossbeam_channel::bounded(capacity);
    (ChannelSender { inner: s }, ChannelReceiver { inner: r })
}

/// Relies on crossbeam_channel::Sender::send: the message is delivered unless
/// every receiver of the channel is gone, in which case an error comes back.
#[verifier::external_body]
pub fn channel_send<T>(sender: &ChannelSender<T>, message: T) -> (r: Result<
    (),
    PipelineError,
>)
    ensures
        r matches Err(e) ==> e == PipelineError::Disconnected,
{
    match sender.inner.send(message) {
        Ok(()) => Ok(()),
        Err(_) => Err(PipelineError::Disconnected),
    }
}

/// Relies on crossbeam_channel::Receiver::recv: it blocks until a message
/// arrives, and returns an error exactly when the channel is closed (no
/// sender left) and drained. `None` therefore means that no further message
/// will ever arrive on this channel.
#[verifier::external_body]
pub(crate) fn channel_recv<T>(receiver: &ChannelReceiver<T>) -> (r: Option<T>) {
    receiver.inner.recv().ok()
}

/// Relies on Clone for crossbeam_channel::Sender: the clone feeds the same
/// channel, which stays open while any such clone is live.
#[verifier::external_body]
pub fn clone_sender<T>(sender: &ChannelSender<T>) -> (r: ChannelSender<T>) {
    ChannelSender { inner: sender.inner.clone() }
}

/// Relies on drop of crossbeam_channel::Sender: releasing an endpoint is the
/// sole termination signal of the pipeline — once every sender of a channel
/// is gone and the buffer is drained, the receivers' `recv` reports closure.
#[verifier::external_body]
pub fn release_sender<T>(sender: ChannelSender<T>) {
    drop(sender);
}

} // verus!
