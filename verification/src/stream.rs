//! One history stream as a whole: the producer, the pipe between it and the
//! consumer, and the consumer.
//!
//! The producer here is the one of this library, step for step. The pipe and
//! the consumer are described by what the stream relies on: the pipe is a
//! queue that hands items on in the order written, takes a write only while
//! the consumer is there and fewer than `capacity` items wait, and refuses it
//! once the consumer has left. What is proved below holds of every stream
//! whose pipe and consumer behave so, in whatever order the parts move.

use vstd::prelude::*;
use crate::generator::record;
use crate::messages::{ServiceError, TransactionRecord};
use crate::producer::{ActionView, Phase, ProducerEvent, ProducerState};
use crate::trace::{steps_left, stretch};

verus! {

/// A stream at one instant.
pub struct StreamState {
    /// The producer.
    pub producer: ProducerState,
    /// The item that the producer has handed out and the pipe has neither
    /// taken nor refused yet.
    pub in_flight: Option<Result<TransactionRecord, ServiceError>>,
    /// How many items the pipe buffers at most.
    pub capacity: nat,
    /// The items in the pipe that the consumer has not read: oldest first.
    pub buffered: Seq<Result<TransactionRecord, ServiceError>>,
    /// The items that the consumer has read, in the order read.
    pub delivered: Seq<Result<TransactionRecord, ServiceError>>,
    /// The consumer still holds its end of the pipe.
    pub consumer_open: bool,
}

/// What can happen next in a stream.
pub enum StreamMove {
    /// The producer begins.
    Start,
    /// The pipe takes the item in flight.
    PipeTakes,
    /// The pipe refuses the item in flight.
    PipeRefuses,
    /// A pause of the producer ends.
    PauseEnds,
    /// The consumer reads the oldest item in the pipe.
    ConsumerReads,
    /// The consumer closes its end, or goes away.
    ConsumerLeaves,
}

impl StreamState {
    /// The stream of a call that was just set up: nothing written, nothing
    /// read, the consumer there.
    pub open spec fn opened(producer: ProducerState, capacity: nat) -> StreamState {
        StreamState {
            producer,
            in_flight: None,
            capacity,
            buffered: Seq::empty(),
            delivered: Seq::empty(),
            consumer_open: true,
        }
    }

    /// `m` can happen now.
    pub open spec fn can(self, m: StreamMove) -> bool {
        match m {
            StreamMove::Start => self.producer.phase == Phase::Idle,
            StreamMove::PipeTakes => self.in_flight is Some && self.consumer_open
                && self.buffered.len() < self.capacity,
            StreamMove::PipeRefuses => self.in_flight is Some && !self.consumer_open,
            StreamMove::PauseEnds => self.producer.phase == Phase::Pausing,
            StreamMove::ConsumerReads => self.consumer_open && self.buffered.len() > 0,
            StreamMove::ConsumerLeaves => self.consumer_open,
        }
    }

    /// The stream after its producer was told `event`: the producer takes
    /// its step, and a record that it hands out is in flight.
    pub open spec fn told(self, event: ProducerEvent) -> StreamState {
        let (producer, action) = self.producer.step(event);
        StreamState {
            producer,
            in_flight: match action {
                ActionView::Send(item) => Some(item),
                _ => None,
            },
            ..self
        }
    }

    /// The stream after `m`, where `m` can happen; the stream as it is, where
    /// it cannot.
    pub open spec fn after(self, m: StreamMove) -> StreamState {
        if !self.can(m) {
            self
        } else {
            match m {
                StreamMove::Start => self.told(ProducerEvent::Started),
                StreamMove::PipeTakes => StreamState {
                    buffered: self.buffered.push(self.in_flight->Some_0),
                    ..self
                }.told(ProducerEvent::Sent),
                StreamMove::PipeRefuses => self.told(ProducerEvent::ConsumerGone),
                StreamMove::PauseEnds => self.told(ProducerEvent::Resumed),
                StreamMove::ConsumerReads => StreamState {
                    buffered: self.buffered.drop_first(),
                    delivered: self.delivered.push(self.buffered.first()),
                    ..self
                },
                StreamMove::ConsumerLeaves => StreamState { consumer_open: false, ..self },
            }
        }
    }

    /// Nothing can happen any more, unless it be that the consumer leaves.
    pub open spec fn at_rest(self) -> bool {
        forall|m: StreamMove| m != StreamMove::ConsumerLeaves ==> !self.can(m)
    }

    /// How far the stream is from rest, at most: every move that happens
    /// brings it nearer.
    pub open spec fn weight(self) -> nat {
        2 * steps_left(self.producer) + self.buffered.len() + if self.consumer_open {
            1nat
        } else {
            0nat
        }
    }

    /// How many records the producer has made.
    pub open spec fn generated(self) -> nat {
        self.producer.records.position
    }
}

/// The stream that `moves` lead to from `start`, one after the other.
pub open spec fn play(start: StreamState, moves: Seq<StreamMove>) -> StreamState
    decreases moves.len(),
{
    if moves.len() == 0 {
        start
    } else {
        play(start, moves.drop_last()).after(moves.last())
    }
}

/// What holds of a stream at every instant, where its producer began as
/// `first` and its pipe has room for `capacity` items.
pub open spec fn coherent(s: StreamState, first: ProducerState, capacity: nat) -> bool {
    let from = first.records.position;
    let made = s.producer.records.position;
    let taken = from + s.delivered.len() + s.buffered.len();
    &&& s.capacity == capacity
    &&& s.producer.records.count == first.records.count
    &&& s.producer.batch == first.batch
    &&& s.producer.pause_secs == first.pause_secs
    &&& made <= first.records.count
    &&& s.buffered.len() <= capacity
    &&& s.delivered + s.buffered == stretch(from, taken)
    &&& match s.producer.phase {
        Phase::Sending => made == taken + 1 && s.in_flight == Some(
            Ok::<TransactionRecord, ServiceError>(record(taken)),
        ),
        Phase::Idle => made == taken && s.in_flight is None,
        Phase::Pausing => made == taken && s.in_flight is None,
        Phase::Closed => {
            &&& taken <= made <= taken + 1
            &&& s.in_flight is None
            &&& s.consumer_open ==> made == taken && made == first.records.count
        },
    }
}

/// A stream that is coherent stays so, whatever happens next.
pub proof fn lemma_coherent_after(
    s: StreamState,
    m: StreamMove,
    first: ProducerState,
    capacity: nat,
)
    requires
        coherent(s, first, capacity),
    ensures
        coherent(s.after(m), first, capacity),
{
    let from = first.records.position;
    let taken = from + s.delivered.len() + s.buffered.len();
    let t = s.after(m);
    if s.can(m) {
        match m {
            StreamMove::PipeTakes => {
                let item = Ok::<TransactionRecord, ServiceError>(record(taken));
                assert(stretch(from, taken).push(item) =~= stretch(from, taken + 1));
                assert(s.delivered + s.buffered.push(item) =~= (s.delivered + s.buffered).push(
                    item,
                ));
            },
            StreamMove::ConsumerReads => {
                assert(t.delivered + t.buffered =~= s.delivered + s.buffered);
            },
            _ => {},
        }
    }
}

/// Every stream that began with an idle producer and an empty pipe is
/// coherent at every instant.
pub proof fn lemma_coherent_play(first: ProducerState, capacity: nat, moves: Seq<StreamMove>)
    requires
        first.phase == Phase::Idle,
        first.records.position <= first.records.count,
    ensures
        coherent(play(StreamState::opened(first, capacity), moves), first, capacity),
    decreases moves.len(),
{
    let start = StreamState::opened(first, capacity);
    if moves.len() == 0 {
        assert(start.delivered + start.buffered =~= stretch(
            first.records.position,
            first.records.position,
        ));
    } else {
        lemma_coherent_play(first, capacity, moves.drop_last());
        lemma_coherent_after(play(start, moves.drop_last()), moves.last(), first, capacity);
    }
}

/// Back-pressure: at no instant does the pipe hold more unread items than
/// it has room for.
pub proof fn lemma_pipe_never_overfull(
    first: ProducerState,
    capacity: nat,
    moves: Seq<StreamMove>,
)
    requires
        first.phase == Phase::Idle,
        first.records.position <= first.records.count,
    ensures
        play(StreamState::opened(first, capacity), moves).buffered.len() <= capacity,
{
    lemma_coherent_play(first, capacity, moves);
}

/// Order from end to end: what the consumer has read so far is the start of
/// the history, each record once and in rising order, and what waits in the
/// pipe follows on it without a gap.
pub proof fn lemma_delivery_in_order(first: ProducerState, capacity: nat, moves: Seq<StreamMove>)
    requires
        first.phase == Phase::Idle,
        first.records.position <= first.records.count,
    ensures
        ({
            let s = play(StreamState::opened(first, capacity), moves);
            let from = first.records.position;
            let read = from + s.delivered.len();
            &&& read + s.buffered.len() <= first.records.count
            &&& s.delivered == stretch(from, read)
            &&& s.buffered == stretch(read, read + s.buffered.len())
        }),
{
    lemma_coherent_play(first, capacity, moves);
    let s = play(StreamState::opened(first, capacity), moves);
    let from = first.records.position;
    let read = from + s.delivered.len();
    let taken = read + s.buffered.len();
    let all = s.delivered + s.buffered;
    assert(all == stretch(from, taken));
    assert(s.delivered =~= all.subrange(0, s.delivered.len() as int));
    assert(s.buffered =~= all.subrange(s.delivered.len() as int, all.len() as int));
    assert(all.subrange(0, s.delivered.len() as int) =~= stretch(from, read));
    assert(all.subrange(s.delivered.len() as int, all.len() as int) =~= stretch(read, taken));
}

/// Cancellation: when the consumer has left after reading `K` records, the
/// producer has made no more than those `K`, the ones that waited unread in
/// the pipe, and one that was in flight. So with a pipe of capacity `C` it
/// makes `K + C + 1` records at most, and `K + 1` where the pipe was empty.
pub proof fn lemma_production_stops_near_consumer(
    first: ProducerState,
    capacity: nat,
    moves: Seq<StreamMove>,
)
    requires
        first.phase == Phase::Idle,
        first.records.position <= first.records.count,
    ensures
        ({
            let s = play(StreamState::opened(first, capacity), moves);
            let from = first.records.position;
            &&& s.generated() <= from + s.delivered.len() + s.buffered.len() + 1
            &&& s.generated() <= from + s.delivered.len() + capacity + 1
        }),
{
    lemma_coherent_play(first, capacity, moves);
}

/// Once the consumer has left, nothing is delivered any more, the pipe takes
/// nothing, and the producer makes one more record at most: none where a
/// write was in flight or production was over, one where it stood idle or
/// pausing. That record is refused, and the producer closes.
pub proof fn lemma_consumer_left(s: StreamState, moves: Seq<StreamMove>)
    requires
        !s.consumer_open,
        s.producer.phase == Phase::Sending ==> s.in_flight is Some,
    ensures
        ({
            let t = play(s, moves);
            let waiting = s.producer.phase == Phase::Idle || s.producer.phase == Phase::Pausing;
            &&& !t.consumer_open
            &&& t.delivered == s.delivered
            &&& t.buffered == s.buffered
            &&& s.generated() <= t.generated() <= s.generated() + 1
            &&& !waiting ==> t.generated() == s.generated()
            &&& t.producer.phase == Phase::Sending ==> t.in_flight is Some
            &&& t.producer.phase == Phase::Idle || t.producer.phase == Phase::Pausing ==> waiting
                && t.generated() == s.generated()
            &&& t.at_rest() ==> t.producer.phase == Phase::Closed
        }),
    decreases moves.len(),
{
    let t = play(s, moves);
    if moves.len() > 0 {
        lemma_consumer_left(s, moves.drop_last());
    }
    if t.at_rest() {
        assert(!t.can(StreamMove::Start));
        assert(!t.can(StreamMove::PauseEnds));
        assert(!t.can(StreamMove::PipeRefuses));
    }
}

/// Completeness from end to end: when the consumer is still there and
/// nothing can happen any more, it has read the whole history, and the
/// producer is closed. So a stream whose consumer stays never comes to rest
/// before the last record is read.
pub proof fn lemma_rest_means_all_delivered(
    first: ProducerState,
    capacity: nat,
    moves: Seq<StreamMove>,
)
    requires
        first.phase == Phase::Idle,
        first.records.position <= first.records.count,
        capacity >= 1,
    ensures
        ({
            let s = play(StreamState::opened(first, capacity), moves);
            s.consumer_open && s.at_rest() ==> {
                &&& s.delivered == stretch(first.records.position, first.records.count)
                &&& s.buffered.len() == 0
                &&& s.producer.phase == Phase::Closed
            }
        }),
{
    lemma_coherent_play(first, capacity, moves);
    let s = play(StreamState::opened(first, capacity), moves);
    if s.consumer_open && s.at_rest() {
        assert(!s.can(StreamMove::Start));
        assert(!s.can(StreamMove::PauseEnds));
        assert(!s.can(StreamMove::ConsumerReads));
        assert(!s.can(StreamMove::PipeTakes));
        assert(s.delivered + s.buffered =~= s.delivered);
    }
}

/// Every move that happens brings the stream nearer to rest.
pub proof fn lemma_move_lightens(s: StreamState, m: StreamMove)
    requires
        s.can(m),
        s.in_flight is Some ==> s.producer.phase == Phase::Sending,
    ensures
        s.after(m).weight() < s.weight(),
{
    let t = s.after(m);
    match m {
        StreamMove::ConsumerReads => {},
        StreamMove::ConsumerLeaves => {},
        _ => {
            assert(steps_left(t.producer) + 1 <= steps_left(s.producer));
        },
    }
}

/// How many of `moves` happen, played from `start`.
pub open spec fn happened(start: StreamState, moves: Seq<StreamMove>) -> nat
    decreases moves.len(),
{
    if moves.len() == 0 {
        0
    } else {
        let earlier = happened(start, moves.drop_last());
        if play(start, moves.drop_last()).can(moves.last()) {
            earlier + 1
        } else {
            earlier
        }
    }
}

/// Finiteness: a stream comes to rest. However long the list of moves, no
/// more than `4 * n + 3` of them happen in a stream that has `n` records to
/// write.
pub proof fn lemma_stream_is_finite(first: ProducerState, capacity: nat, moves: Seq<StreamMove>)
    requires
        first.phase == Phase::Idle,
        first.records.position <= first.records.count,
    ensures
        ({
            let start = StreamState::opened(first, capacity);
            &&& start.weight() == 4 * (first.records.count - first.records.position) + 3
            &&& happened(start, moves) + play(start, moves).weight() <= start.weight()
        }),
    decreases moves.len(),
{
    if moves.len() > 0 {
        let start = StreamState::opened(first, capacity);
        lemma_stream_is_finite(first, capacity, moves.drop_last());
        lemma_coherent_play(first, capacity, moves.drop_last());
        let before = play(start, moves.drop_last());
        if before.can(moves.last()) {
            lemma_move_lightens(before, moves.last());
        }
    }
}

} // verus!
