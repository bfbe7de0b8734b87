use std::time::Duration;

use payment_services::generator::synthesize_record;
use payment_services::pipe::MAX_PIPE_CAPACITY;
use payment_services::service::PIPE_CAPACITY;
use payment_services::{
    HistoryCall, HistoryProducer, MyPaymentService, MyTransactionService, PaymentRequest,
    PaymentResponse, Phase, Pipe, ProducerAction, ProducerEvent, ServiceError, StreamItem,
    TransactionRequest, TransactionResponse,
};
use tokio::sync::mpsc::Sender;
use tokio_stream::StreamExt;

fn runtime() -> tokio::runtime::Runtime {
    tokio::runtime::Builder::new_current_thread().enable_time().build().unwrap()
}

/// Runs a producer against the write end of a pipe until it closes. A pause
/// of one second lasts one millisecond here.
async fn drive(producer: HistoryProducer, sender: Sender<StreamItem>) -> HistoryProducer {
    drive_from(producer, sender, ProducerEvent::Started).await
}

/// Runs a producer from the event that it is to be told next.
async fn drive_from(
    mut producer: HistoryProducer,
    sender: Sender<StreamItem>,
    first: ProducerEvent,
) -> HistoryProducer {
    let mut event = first;
    loop {
        match producer.step(event) {
            ProducerAction::Send(item) => {
                event = if sender.send(item).await.is_ok() {
                    ProducerEvent::Sent
                } else {
                    ProducerEvent::ConsumerGone
                };
            }
            ProducerAction::Pause(seconds) => {
                tokio::time::sleep(Duration::from_millis(seconds)).await;
                event = ProducerEvent::Resumed;
            }
            ProducerAction::Close => return producer,
        }
    }
}

fn open_call() -> HistoryCall {
    MyTransactionService::default().get_transaction_history(&TransactionRequest::default()).unwrap()
}

#[test]
fn payment_call_succeeds() {
    let service = MyPaymentService::default();
    assert_eq!(
        service.process_payment(&PaymentRequest::default()),
        Ok(PaymentResponse { success: true })
    );
}

#[test]
fn payment_call_succeeds_for_any_request() {
    let service = MyPaymentService::default();
    let requests = [
        PaymentRequest { payee: String::from("acct-17"), amount_cents: 1 },
        PaymentRequest { payee: String::new(), amount_cents: u64::MAX },
        PaymentRequest { payee: String::from("\u{1F600}"), amount_cents: 0 },
    ];
    for request in requests.iter() {
        assert_eq!(service.process_payment(request), Ok(PaymentResponse { success: true }));
    }
}

#[test]
fn history_call_sets_up_an_idle_producer() {
    let call = open_call();
    assert_eq!(call.producer.phase(), Phase::Idle);
    assert_eq!(call.producer.generated(), 0);
}

#[test]
fn history_call_has_a_pipe_of_four() {
    assert_eq!(PIPE_CAPACITY, 4);
    let call = open_call();
    assert_eq!(call.pipe.capacity(), 4);
    assert_eq!(call.pipe.sender.max_capacity(), 4);
    assert_eq!(call.pipe.sender.capacity(), 4);
    assert_eq!(call.pipe.stream.as_ref().max_capacity(), 4);
}

#[test]
fn pipe_reports_the_capacity_it_was_made_with() {
    for capacity in [1usize, 2, 4, 17, 1_000] {
        let pipe = Pipe::open(capacity).unwrap();
        assert_eq!(pipe.capacity(), capacity);
    }
}

#[test]
fn pipe_of_no_capacity_is_refused() {
    assert!(Pipe::open(0).is_none());
}

#[test]
fn pipe_of_too_large_a_capacity_is_refused() {
    assert_eq!(MAX_PIPE_CAPACITY, usize::MAX >> 3);
    assert!(Pipe::open(MAX_PIPE_CAPACITY + 1).is_none());
    assert!(Pipe::open(usize::MAX).is_none());
}

#[test]
fn pipe_of_the_largest_capacity_opens() {
    let pipe = Pipe::open(MAX_PIPE_CAPACITY).unwrap();
    assert_eq!(pipe.capacity(), MAX_PIPE_CAPACITY);
}

#[test]
fn pipe_delivers_in_the_order_written() {
    let Pipe { sender, mut stream } = Pipe::open(3).unwrap();
    runtime().block_on(async move {
        for i in 0..3 {
            sender.send(Ok(synthesize_record(i))).await.unwrap();
        }
        drop(sender);
        for i in 0..3 {
            assert_eq!(stream.next().await, Some(Ok(synthesize_record(i))));
        }
        assert_eq!(stream.next().await, None);
    });
}

#[test]
fn pipe_carries_a_failure_as_an_item() {
    let Pipe { sender, mut stream } = Pipe::open(2).unwrap();
    runtime().block_on(async move {
        sender.send(Ok(synthesize_record(0))).await.unwrap();
        sender.send(Err(ServiceError::Internal)).await.unwrap();
        drop(sender);
        assert_eq!(stream.next().await, Some(Ok(synthesize_record(0))));
        assert_eq!(stream.next().await, Some(Err(ServiceError::Internal)));
        assert_eq!(stream.next().await, None);
    });
    let Pipe { sender, mut stream } = Pipe::open(1).unwrap();
    runtime().block_on(async move {
        sender.send(Err(ServiceError::InvalidRequest)).await.unwrap();
        assert_eq!(stream.next().await, Some(Err(ServiceError::InvalidRequest)));
    });
}

#[test]
fn pipe_write_fails_once_the_stream_is_dropped() {
    let Pipe { sender, stream } = Pipe::open(4).unwrap();
    drop(stream);
    runtime().block_on(async move {
        assert!(sender.send(Ok(synthesize_record(0))).await.is_err());
    });
}

#[test]
fn streamed_history_end_to_end() {
    let payment = MyPaymentService::default().process_payment(&PaymentRequest::default());
    assert_eq!(payment, Ok(PaymentResponse { success: true }));

    let HistoryCall { producer, pipe } = open_call();
    let Pipe { sender, mut stream } = pipe;
    runtime().block_on(async move {
        let task = tokio::spawn(drive(producer, sender));
        let mut records: Vec<TransactionResponse> = Vec::new();
        while let Some(item) = stream.next().await {
            records.push(item.unwrap());
        }
        let producer = task.await.unwrap();
        assert_eq!(records.len(), 30);
        assert_eq!(
            records[0],
            TransactionResponse {
                transaction_id: String::from("trans_0"),
                status: String::from("Completed"),
                amount_cents: 10_000,
                timestamp: String::from("2022-01-01T12:00:00Z"),
            }
        );
        assert_eq!((records[0].amount_cents as f64) / 100.0, 100.0);
        assert_eq!(records[29].transaction_id, "trans_29");
        for (i, r) in records.iter().enumerate() {
            assert_eq!(*r, synthesize_record(i as u64));
        }
        assert_eq!(producer.phase(), Phase::Closed);
        assert_eq!(producer.generated(), 30);
    });
}

#[test]
fn slow_consumer_holds_the_producer_back() {
    let HistoryCall { producer, pipe } = open_call();
    let Pipe { sender, mut stream } = pipe;
    runtime().block_on(async move {
        let task = tokio::spawn(drive(producer, sender));
        let mut received = 0;
        let mut fullest = 0;
        loop {
            // Give the producer every chance to run ahead before each read.
            tokio::time::sleep(Duration::from_millis(5)).await;
            let buffered = stream.as_ref().len();
            assert!(buffered <= 4);
            assert_eq!(buffered + stream.as_ref().capacity(), 4);
            fullest = fullest.max(buffered);
            match stream.next().await {
                Some(item) => {
                    assert_eq!(item, Ok(synthesize_record(received)));
                    received += 1;
                }
                None => break,
            }
        }
        assert_eq!(fullest, 4);
        assert_eq!(received, 30);
        assert_eq!(task.await.unwrap().generated(), 30);
    });
}

#[test]
fn dropped_stream_stops_the_producer() {
    let HistoryCall { producer, pipe } = open_call();
    let Pipe { sender, mut stream } = pipe;
    runtime().block_on(async move {
        let task = tokio::spawn(drive(producer, sender));
        for i in 0..3 {
            assert_eq!(stream.next().await, Some(Ok(synthesize_record(i))));
        }
        // Let the producer fill the pipe again, then go away.
        while stream.as_ref().len() < 4 {
            tokio::time::sleep(Duration::from_millis(1)).await;
        }
        drop(stream);
        let producer = task.await.unwrap();
        assert_eq!(producer.phase(), Phase::Closed);
        // Three received, four buffered, and the one write that failed.
        assert_eq!(producer.generated(), 8);
    });
}

#[test]
fn stream_dropped_with_an_empty_pipe_costs_one_record() {
    let HistoryCall { producer, pipe } = open_call();
    let Pipe { sender, mut stream } = pipe;
    runtime().block_on(async move {
        // Lock step: the producer is told of each write only after the read.
        let mut producer = producer;
        let mut event = ProducerEvent::Started;
        for i in 0..5 {
            match producer.step(event) {
                ProducerAction::Send(item) => sender.send(item).await.unwrap(),
                other => panic!("unexpected action {:?}", other),
            }
            assert_eq!(stream.next().await, Some(Ok(synthesize_record(i))));
            event = ProducerEvent::Sent;
        }
        drop(stream);
        let producer = drive_from(producer, sender, event).await;
        assert_eq!(producer.phase(), Phase::Closed);
        // Five received, and the one write that failed.
        assert_eq!(producer.generated(), 6);
    });
}

#[test]
fn stream_dropped_before_the_first_read_stops_the_producer() {
    let HistoryCall { producer, pipe } = open_call();
    let Pipe { sender, stream } = pipe;
    drop(stream);
    runtime().block_on(async move {
        let producer = drive(producer, sender).await;
        assert_eq!(producer.phase(), Phase::Closed);
        assert_eq!(producer.generated(), 1);
    });
}

#[test]
fn simultaneous_calls_each_see_their_own_history() {
    let service = MyTransactionService::default();
    let first = service.get_transaction_history(&TransactionRequest::default()).unwrap();
    let second = service.get_transaction_history(&TransactionRequest::default()).unwrap();
    runtime().block_on(async move {
        let Pipe { sender: tx_a, stream: mut rx_a } = first.pipe;
        let Pipe { sender: tx_b, stream: mut rx_b } = second.pipe;
        let task_a = tokio::spawn(drive(first.producer, tx_a));
        let task_b = tokio::spawn(drive(second.producer, tx_b));
        let (mut got_a, mut got_b) = (Vec::new(), Vec::new());
        let (mut open_a, mut open_b) = (true, true);
        while open_a || open_b {
            if open_a {
                match rx_a.next().await {
                    Some(item) => got_a.push(item.unwrap().transaction_id),
                    None => open_a = false,
                }
            }
            if open_b {
                match rx_b.next().await {
                    Some(item) => got_b.push(item.unwrap().transaction_id),
                    None => open_b = false,
                }
            }
        }
        let expected: Vec<String> = (0..30).map(|i| format!("trans_{}", i)).collect();
        assert_eq!(got_a, expected);
        assert_eq!(got_b, expected);
        assert_eq!(task_a.await.unwrap().generated(), 30);
        assert_eq!(task_b.await.unwrap().generated(), 30);
    });
}
