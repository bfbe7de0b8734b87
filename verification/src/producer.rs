//! The production side of a history stream, as a state machine.
//!
//! The producer never waits by itself. It hands out one action at a time and
//! is told, as an event, how that action ended: whoever drives it writes to
//! the pipe and sleeps. An event that does not answer the action last handed
//! out closes the producer, so that no record is ever made twice or out of
//! order.

use vstd::prelude::*;
use crate::generator::{record, SequenceState, TransactionSequence};
use crate::messages::{item_view, ServiceError, StreamItem, TransactionRecord};

verus! {

/// After how many records the producer pauses.
pub const PACE_BATCH: u64 = 10;

/// How long a pause lasts, in seconds.
pub const PACE_PAUSE_SECS: u64 = 1;

/// Where the producer stands.
#[derive(Clone, Copy, Debug, PartialEq, Eq, Structural)]
pub enum Phase {
    /// Nothing was handed out yet.
    Idle,
    /// A record was handed out to be written to the pipe.
    Sending,
    /// A pause was handed out.
    Pausing,
    /// Production is over: the write end is to be closed.
    Closed,
}

/// How the action last handed out ended.
#[derive(Clone, Copy, Debug, PartialEq, Eq, Structural)]
pub enum ProducerEvent {
    /// Production begins.
    Started,
    /// The pipe took the record.
    Sent,
    /// The write failed: the consumer has closed its end.
    ConsumerGone,
    /// The pause is over.
    Resumed,
}

/// What the driver is to do next.
#[derive(Debug, PartialEq, Eq)]
pub enum ProducerAction {
    /// Write this item to the pipe, waiting while the pipe is full.
    Send(StreamItem),
    /// Sleep for this many seconds.
    Pause(u64),
    /// Close the write end and stop.
    Close,
}

/// An action as plain values.
pub enum ActionView {
    Send(Result<TransactionRecord, ServiceError>),
    Pause(nat),
    Close,
}

impl View for ProducerAction {
    type V = ActionView;

    open spec fn view(&self) -> ActionView {
        match *self {
            ProducerAction::Send(item) => ActionView::Send(item_view(item)),
            ProducerAction::Pause(seconds) => ActionView::Pause(seconds as nat),
            ProducerAction::Close => ActionView::Close,
        }
    }
}

/// A producer as plain values.
pub struct ProducerState {
    pub phase: Phase,
    pub records: SequenceState,
    pub batch: nat,
    pub pause_secs: nat,
}

impl ProducerState {
    /// A producer of `count` records that has not begun.
    pub open spec fn fresh(count: nat, batch: nat, pause_secs: nat) -> ProducerState {
        ProducerState {
            phase: Phase::Idle,
            records: SequenceState { position: 0, count },
            batch,
            pause_secs,
        }
    }

    /// The record made last closes a batch: its index is one less than a
    /// multiple of the batch size. A batch size of 0 means no pause at all.
    pub open spec fn pause_due(self) -> bool {
        &&& self.batch > 0
        &&& self.records.position > 0
        &&& (self.records.position - 1) % (self.batch as int) == self.batch - 1
    }

    /// This state, closed.
    pub open spec fn closed(self) -> ProducerState {
        ProducerState { phase: Phase::Closed, ..self }
    }

    /// Goes on with the next record, or closes when none is left.
    pub open spec fn emit(self) -> (ProducerState, ActionView) {
        if self.records.exhausted() {
            (self.closed(), ActionView::Close)
        } else {
            (
                ProducerState { phase: Phase::Sending, records: self.records.advanced(), ..self },
                ActionView::Send(Ok(record(self.records.position))),
            )
        }
    }

    /// The state that follows `event`, and the action that answers it.
    pub open spec fn step(self, event: ProducerEvent) -> (ProducerState, ActionView) {
        match (self.phase, event) {
            (Phase::Idle, ProducerEvent::Started) => self.emit(),
            (Phase::Sending, ProducerEvent::Sent) => {
                if self.pause_due() {
                    (
                        ProducerState { phase: Phase::Pausing, ..self },
                        ActionView::Pause(self.pause_secs),
                    )
                } else {
                    self.emit()
                }
            },
            (Phase::Pausing, ProducerEvent::Resumed) => self.emit(),
            _ => (self.closed(), ActionView::Close),
        }
    }
}

/// The producer of one history stream.
#[derive(Debug)]
pub struct HistoryProducer {
    records: TransactionSequence,
    batch: u64,
    pause_secs: u64,
    phase: Phase,
}

impl View for HistoryProducer {
    type V = ProducerState;

    closed spec fn view(&self) -> ProducerState {
        ProducerState {
            phase: self.phase,
            records: self.records@,
            batch: self.batch as nat,
            pause_secs: self.pause_secs as nat,
        }
    }
}

impl HistoryProducer {
    /// A producer that will write what is left of `records`, pausing for
    /// `pause_secs` seconds after each batch of `batch` records.
    pub fn new(records: TransactionSequence, batch: u64, pause_secs: u64) -> (p: Self)
        ensures
            p@ == (ProducerState {
                phase: Phase::Idle,
                records: records@,
                batch: batch as nat,
                pause_secs: pause_secs as nat,
            }),
    {
        HistoryProducer { records, batch, pause_secs, phase: Phase::Idle }
    }

    /// Where the producer stands.
    pub fn phase(&self) -> (phase: Phase)
        ensures
            phase == self@.phase,
    {
        self.phase
    }

    /// How many records were made so far.
    pub fn generated(&self) -> (n: u64)
        ensures
            n == self@.records.position,
    {
        self.records.position()
    }

    fn pause_due(&self) -> (due: bool)
        ensures
            due == self@.pause_due(),
    {
        let made: u64 = self.records.position();
        self.batch > 0 && made > 0 && (made - 1) % self.batch == self.batch - 1
    }

    fn close(&mut self) -> (action: ProducerAction)
        ensures
            final(self)@ == old(self)@.closed(),
            action@ == ActionView::Close,
    {
        self.phase = Phase::Closed;
        ProducerAction::Close
    }

    fn emit(&mut self) -> (action: ProducerAction)
        ensures
            final(self)@ == old(self)@.emit().0,
            action@ == old(self)@.emit().1,
    {
        match self.records.next_record() {
            Some(made) => {
                self.phase = Phase::Sending;
                ProducerAction::Send(Ok(made))
            },
            None => self.close(),
        }
    }

    /// Takes in how the last action ended and hands out the next one.
    pub fn step(&mut self, event: ProducerEvent) -> (action: ProducerAction)
        ensures
            final(self)@ == old(self)@.step(event).0,
            action@ == old(self)@.step(event).1,
    {
        match (self.phase, event) {
            (Phase::Idle, ProducerEvent::Started) => self.emit(),
            (Phase::Sending, ProducerEvent::Sent) => {
                if self.pause_due() {
                    self.phase = Phase::Pausing;
                    ProducerAction::Pause(self.pause_secs)
                } else {
                    self.emit()
                }
            },
            (Phase::Pausing, ProducerEvent::Resumed) => self.emit(),
            _ => self.close(),
        }
    }
}

} // verus!
