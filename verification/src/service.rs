//! The two services: what each call answers, without the transport.

use vstd::prelude::*;
use crate::generator::{list_transactions, process_payment, record, RECORD_COUNT};
use crate::messages::{
    PaymentRequest, PaymentResponse, ServiceError, TransactionRecord, TransactionRequest,
};
use crate::pipe::{lemma_small_capacity_fits, Pipe};
use crate::producer::{
    ActionView, HistoryProducer, ProducerEvent, ProducerState, PACE_BATCH, PACE_PAUSE_SECS,
};
use crate::trace::{lemma_unhindered_run_is_complete, run, unhindered, written};

verus! {

/// How many items the pipe of a history stream buffers.
pub const PIPE_CAPACITY: usize = 4;

/// The payment service: one request, one answer.
#[derive(Debug)]
pub struct MyPaymentService {}

impl Default for MyPaymentService {
    fn default() -> (service: Self)
        ensures
            service == (MyPaymentService {}),
    {
        MyPaymentService {}
    }
}

impl MyPaymentService {
    /// Settles one payment. Every request is answered, at once and with
    /// success.
    pub fn process_payment(&self, request: &PaymentRequest) -> (answer: Result<
        PaymentResponse,
        ServiceError,
    >)
        ensures
            answer == Ok::<PaymentResponse, ServiceError>(PaymentResponse { success: true }),
    {
        Ok(process_payment(request))
    }
}

/// The transaction service: one request, a stream of records.
#[derive(Debug)]
pub struct MyTransactionService {}

impl Default for MyTransactionService {
    fn default() -> (service: Self)
        ensures
            service == (MyTransactionService {}),
    {
        MyTransactionService {}
    }
}

/// A history call that was set up: the producer that has not begun, and the
/// pipe that carries its records to the transport.
pub struct HistoryCall {
    pub producer: HistoryProducer,
    pub pipe: Pipe,
}

impl MyTransactionService {
    /// The producer that every history call begins with.
    pub open spec fn initial_producer() -> ProducerState {
        ProducerState::fresh(RECORD_COUNT as nat, PACE_BATCH as nat, PACE_PAUSE_SECS as nat)
    }

    /// Sets up one history call. Every query is accepted. The call gets a
    /// pipe of its own with room for `PIPE_CAPACITY` items, and a producer of
    /// its own that stands at the start of the history: what it will write
    /// depends on nothing that an earlier call did.
    pub fn get_transaction_history(&self, request: &TransactionRequest) -> (call: Result<
        HistoryCall,
        ServiceError,
    >)
        ensures
            call matches Ok(c) && c.producer@ == Self::initial_producer() && c.pipe.bound()
                == PIPE_CAPACITY,
    {
        proof {
            lemma_small_capacity_fits(PIPE_CAPACITY);
        }
        let producer = HistoryProducer::new(list_transactions(request), PACE_BATCH, PACE_PAUSE_SECS);
        match Pipe::open(PIPE_CAPACITY) {
            Some(pipe) => Ok(HistoryCall { producer, pipe }),
            None => Err(ServiceError::Internal),
        }
    }
}

/// A history call that nothing hinders writes 30 records, the one at place
/// `i` being `record(i)`, and then closes.
pub proof fn lemma_history_call_writes_thirty_records()
    ensures
        ({
            let first = MyTransactionService::initial_producer();
            let r = run(first, unhindered(first, ProducerEvent::Started));
            &&& written(r.actions).len() == 30
            &&& forall|i: int|
                0 <= i < 30 ==> written(r.actions)[i] == Ok::<TransactionRecord, ServiceError>(
                    record(i as nat),
                )
            &&& r.actions.last() == ActionView::Close
        }),
{
    lemma_unhindered_run_is_complete(MyTransactionService::initial_producer());
}

} // verus!
