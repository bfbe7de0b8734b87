//! The streaming pipe: a bounded channel of `tokio`, with its write end for
//! the producer and its read end as the stream that the transport drains.

use vstd::prelude::*;
use crate::messages::StreamItem;

verus! {

/// `tokio::sync::mpsc::Sender`, the write end of a channel: carried, never
/// looked into.
#[verifier::external_type_specification]
#[verifier::external_body]
#[verifier::reject_recursive_types(T)]
pub struct ExSender<T>(tokio::sync::mpsc::Sender<T>);

/// `tokio::sync::mpsc::Receiver`, the read end of a channel: carried, never
/// looked into.
#[verifier::external_type_specification]
#[verifier::external_body]
#[verifier::reject_recursive_types(T)]
pub struct ExReceiver<T>(tokio::sync::mpsc::Receiver<T>);

/// `tokio_stream::wrappers::ReceiverStream`, a read end as a stream: carried,
/// never looked into.
#[verifier::external_type_specification]
#[verifier::external_body]
#[verifier::reject_recursive_types(T)]
pub struct ExReceiverStream<T>(tokio_stream::wrappers::ReceiverStream<T>);

/// The largest capacity that a pipe can be made with.
pub const MAX_PIPE_CAPACITY: usize = usize::MAX >> 3;

/// How many items the pipe behind `sender` buffers at most: what
/// `Sender::max_capacity` returns, fixed when the channel is made.
pub uninterp spec fn pipe_bound(sender: tokio::sync::mpsc::Sender<StreamItem>) -> nat;

/// `tokio::sync::mpsc::channel`. The call panics on a capacity of 0 and on
/// one above `usize::MAX >> 3`, so neither is admitted. Believed of it: the
/// write end reports the capacity that the channel was made with.
#[verifier::external_body]
fn channel(capacity: usize) -> (ends: (
    tokio::sync::mpsc::Sender<StreamItem>,
    tokio::sync::mpsc::Receiver<StreamItem>,
))
    requires
        1 <= capacity <= MAX_PIPE_CAPACITY,
    ensures
        pipe_bound(ends.0) == capacity,
{
    tokio::sync::mpsc::channel(capacity)
}

/// `tokio::sync::mpsc::Sender::max_capacity`. Believed of it: the result is
/// the bound of the sender's channel.
#[verifier::external_body]
fn max_capacity(sender: &tokio::sync::mpsc::Sender<StreamItem>) -> (bound: usize)
    ensures
        bound == pipe_bound(*sender),
{
    sender.max_capacity()
}

/// `tokio_stream::wrappers::ReceiverStream::new`. Nothing is claimed of the
/// stream that comes back.
#[verifier::external_body]
fn receiver_stream(receiver: tokio::sync::mpsc::Receiver<StreamItem>) -> (stream:
    tokio_stream::wrappers::ReceiverStream<StreamItem>)
{
    tokio_stream::wrappers::ReceiverStream::new(receiver)
}

/// The two ends of one pipe.
pub struct Pipe {
    /// The write end, for the producer's driver.
    pub sender: tokio::sync::mpsc::Sender<StreamItem>,
    /// The read end, for the transport.
    pub stream: tokio_stream::wrappers::ReceiverStream<StreamItem>,
}

impl Pipe {
    /// How many items this pipe buffers at most.
    pub open spec fn bound(&self) -> nat {
        pipe_bound(self.sender)
    }

    /// Makes a pipe that buffers up to `capacity` items, where a pipe can be
    /// made with that capacity.
    pub fn open(capacity: usize) -> (pipe: Option<Pipe>)
        ensures
            pipe is Some <==> 1 <= capacity <= MAX_PIPE_CAPACITY,
            pipe matches Some(p) ==> p.bound() == capacity,
    {
        if capacity == 0 || capacity > MAX_PIPE_CAPACITY {
            None
        } else {
            let (sender, receiver) = channel(capacity);
            Some(Pipe { sender, stream: receiver_stream(receiver) })
        }
    }

    /// How many items this pipe buffers at most.
    pub fn capacity(&self) -> (bound: usize)
        ensures
            bound == self.bound(),
    {
        max_capacity(&self.sender)
    }
}

/// A pipe can be made with any capacity up to `2^29 - 1`, whatever the width
/// of `usize`.
pub proof fn lemma_small_capacity_fits(capacity: usize)
    requires
        capacity <= 0x1fff_ffff,
    ensures
        capacity <= MAX_PIPE_CAPACITY,
{
    assert(forall|x: usize| x >= 0xffff_ffff ==> #[trigger] (x >> 3) >= 0x1fff_ffff)
        by (bit_vector);
}

} // verus!
