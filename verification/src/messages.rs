//! The messages that the two services take and give.

use vstd::prelude::*;

verus! {

/// Why a call, or one item of a stream, fails.
#[derive(Clone, Copy, Debug, PartialEq, Eq, Structural)]
pub enum ServiceError {
    /// The request cannot be acted on as it was given.
    InvalidRequest,
    /// The service failed on its own side while answering.
    Internal,
}

impl ServiceError {
    /// The words that tell a caller of this failure.
    pub open spec fn text(self) -> Seq<char> {
        match self {
            ServiceError::InvalidRequest => "invalid request"@,
            ServiceError::Internal => "internal error"@,
        }
    }

    /// The words that tell a caller of this failure.
    pub fn message(&self) -> (words: &'static str)
        ensures
            words@ == self.text(),
    {
        match self {
            ServiceError::InvalidRequest => "invalid request",
            ServiceError::Internal => "internal error",
        }
    }
}

/// A payment to settle: who is paid, and how much, in hundredths of a unit.
#[derive(Clone, Debug, PartialEq, Eq)]
pub struct PaymentRequest {
    pub payee: String,
    pub amount_cents: u64,
}

impl Default for PaymentRequest {
    fn default() -> (r: Self)
        ensures
            r.payee@ == Seq::<char>::empty(),
            r.amount_cents == 0,
    {
        PaymentRequest { payee: String::new(), amount_cents: 0 }
    }
}

/// The answer to a payment call.
#[derive(Clone, Copy, Debug, PartialEq, Eq, Structural)]
pub struct PaymentResponse {
    pub success: bool,
}

/// Whose transaction history is asked for.
#[derive(Clone, Debug, PartialEq, Eq)]
pub struct TransactionRequest {
    pub account_id: String,
}

impl Default for TransactionRequest {
    fn default() -> (r: Self)
        ensures
            r.account_id@ == Seq::<char>::empty(),
    {
        TransactionRequest { account_id: String::new() }
    }
}

/// One record of a transaction history. The amount is a decimal held in
/// hundredths of a unit, so that 100.00 is 10 000.
#[derive(Clone, Debug, PartialEq, Eq)]
pub struct TransactionResponse {
    pub transaction_id: String,
    pub status: String,
    pub amount_cents: u64,
    pub timestamp: String,
}

/// What a `TransactionResponse` holds, as plain values.
pub struct TransactionRecord {
    pub transaction_id: Seq<char>,
    pub status: Seq<char>,
    pub amount_cents: nat,
    pub timestamp: Seq<char>,
}

impl View for TransactionResponse {
    type V = TransactionRecord;

    open spec fn view(&self) -> TransactionRecord {
        TransactionRecord {
            transaction_id: self.transaction_id@,
            status: self.status@,
            amount_cents: self.amount_cents as nat,
            timestamp: self.timestamp@,
        }
    }
}

/// One item of a history stream: a record, or the failure that ends the stream.
pub type StreamItem = Result<TransactionResponse, ServiceError>;

/// A stream item as plain values.
pub open spec fn item_view(item: StreamItem) -> Result<TransactionRecord, ServiceError> {
    match item {
        Ok(record) => Ok(record@),
        Err(e) => Err(e),
    }
}

} // verus!
