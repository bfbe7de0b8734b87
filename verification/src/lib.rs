//! The logic of a payment service: a unary call that settles a payment and a
//! streamed call that delivers a transaction history through a bounded pipe.

pub mod decimal;
pub mod generator;
pub mod messages;
pub mod pipe;
pub mod producer;
pub mod service;
pub mod stream;
pub mod trace;

pub use messages::{PaymentRequest, PaymentResponse, ServiceError, StreamItem, TransactionRequest, TransactionResponse};
pub use pipe::Pipe;
pub use producer::{HistoryProducer, Phase, ProducerAction, ProducerEvent};
pub use service::{HistoryCall, MyPaymentService, MyTransactionService};
