//! The response generator: what a payment call answers, and the records of a
//! transaction history, made one at a time.

use vstd::prelude::*;
use vstd::string::*;
use crate::decimal::{decimal, decimal_string, lemma_decimal_injective};
use crate::messages::{PaymentRequest, PaymentResponse, TransactionRecord, TransactionRequest, TransactionResponse};

verus! {

/// How many records a history holds.
pub const RECORD_COUNT: u64 = 30;

/// The amount of every record: 100.00.
pub const RECORD_AMOUNT_CENTS: u64 = 10_000;

/// The identifier of the record at `index`: `trans_` and the index in decimal.
pub open spec fn transaction_id(index: nat) -> Seq<char> {
    "trans_"@ + decimal(index)
}

/// The record at `index` of a history.
pub open spec fn record(index: nat) -> TransactionRecord {
    TransactionRecord {
        transaction_id: transaction_id(index),
        status: "Completed"@,
        amount_cents: RECORD_AMOUNT_CENTS as nat,
        timestamp: "2022-01-01T12:00:00Z"@,
    }
}

/// The first `count` records of a history, in order.
pub open spec fn history(count: nat) -> Seq<TransactionRecord> {
    Seq::new(count, |i: int| record(i as nat))
}

/// Records at different places of a history carry different identifiers.
pub proof fn lemma_transaction_ids_differ(i: nat, j: nat)
    requires
        i != j,
    ensures
        transaction_id(i) != transaction_id(j),
        record(i) != record(j),
{
    if transaction_id(i) == transaction_id(j) {
        let prefix = "trans_"@;
        let a = transaction_id(i);
        let b = transaction_id(j);
        assert(a.subrange(prefix.len() as int, a.len() as int) =~= decimal(i));
        assert(b.subrange(prefix.len() as int, b.len() as int) =~= decimal(j));
        lemma_decimal_injective(i, j);
    }
}

/// The answer to a payment: every request is settled.
pub fn process_payment(request: &PaymentRequest) -> (response: PaymentResponse)
    ensures
        response == (PaymentResponse { success: true }),
{
    PaymentResponse { success: true }
}

/// Makes the record at `index`.
pub fn synthesize_record(index: u64) -> (r: TransactionResponse)
    ensures
        r@ == record(index as nat),
{
    let mut id = String::from_str("trans_");
    let digits = decimal_string(index);
    id.append(digits.as_str());
    TransactionResponse {
        transaction_id: id,
        status: String::from_str("Completed"),
        amount_cents: RECORD_AMOUNT_CENTS,
        timestamp: String::from_str("2022-01-01T12:00:00Z"),
    }
}

/// A history as it is read: finite, in order, each record made when it is
/// asked for, and never from the start again.
#[derive(Debug)]
pub struct TransactionSequence {
    position: u64,
    count: u64,
}

/// A sequence as plain values: how many records were made, and how many there are.
pub struct SequenceState {
    pub position: nat,
    pub count: nat,
}

impl SequenceState {
    /// No record is left to make.
    pub open spec fn exhausted(self) -> bool {
        self.position >= self.count
    }

    /// The state after one more record was made.
    pub open spec fn advanced(self) -> SequenceState {
        SequenceState { position: self.position + 1, count: self.count }
    }
}

impl View for TransactionSequence {
    type V = SequenceState;

    closed spec fn view(&self) -> SequenceState {
        SequenceState { position: self.position as nat, count: self.count as nat }
    }
}

impl TransactionSequence {
    /// A sequence of `count` records, none made yet.
    pub fn with_count(count: u64) -> (s: Self)
        ensures
            s@ == (SequenceState { position: 0, count: count as nat }),
    {
        TransactionSequence { position: 0, count }
    }

    /// How many records were made so far.
    pub fn position(&self) -> (p: u64)
        ensures
            p == self@.position,
    {
        self.position
    }

    /// How many records the sequence holds, made or not.
    pub fn count(&self) -> (c: u64)
        ensures
            c == self@.count,
    {
        self.count
    }

    /// Makes the next record, if one is left.
    pub fn next_record(&mut self) -> (r: Option<TransactionResponse>)
        ensures
            match r {
                Some(made) => {
                    &&& !old(self)@.exhausted()
                    &&& made@ == record(old(self)@.position)
                    &&& final(self)@ == old(self)@.advanced()
                },
                None => old(self)@.exhausted() && final(self)@ == old(self)@,
            },
    {
        if self.position < self.count {
            let made = synthesize_record(self.position);
            self.position = self.position + 1;
            Some(made)
        } else {
            None
        }
    }
}

/// The history that answers `query`: `RECORD_COUNT` records, none made yet.
pub fn list_transactions(query: &TransactionRequest) -> (s: TransactionSequence)
    ensures
        s@ == (SequenceState { position: 0, count: RECORD_COUNT as nat }),
{
    TransactionSequence::with_count(RECORD_COUNT)
}

} // verus!
