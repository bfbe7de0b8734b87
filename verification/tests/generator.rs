use payment_services::decimal::decimal_string;
use payment_services::generator::{
    list_transactions, process_payment, synthesize_record, TransactionSequence, RECORD_AMOUNT_CENTS,
    RECORD_COUNT,
};
use payment_services::{PaymentRequest, PaymentResponse, TransactionRequest, TransactionResponse};

#[test]
fn decimal_of_single_digits() {
    let expected = ["0", "1", "2", "3", "4", "5", "6", "7", "8", "9"];
    for (n, text) in expected.iter().enumerate() {
        assert_eq!(decimal_string(n as u64), *text);
    }
}

#[test]
fn decimal_of_longer_numbers() {
    assert_eq!(decimal_string(10), "10");
    assert_eq!(decimal_string(29), "29");
    assert_eq!(decimal_string(100), "100");
    assert_eq!(decimal_string(1_002_003), "1002003");
    assert_eq!(decimal_string(9_876_543_210), "9876543210");
}

#[test]
fn decimal_of_largest_number() {
    assert_eq!(decimal_string(u64::MAX), "18446744073709551615");
}

#[test]
fn decimal_agrees_with_std() {
    let mut n: u64 = 0;
    while n < 5_000 {
        assert_eq!(decimal_string(n), n.to_string());
        n += 1;
    }
    let mut m: u64 = 1;
    for _ in 0..19 {
        m *= 10;
        assert_eq!(decimal_string(m - 1), (m - 1).to_string());
        assert_eq!(decimal_string(m), m.to_string());
    }
}

#[test]
fn record_has_the_fixed_fields() {
    let r = synthesize_record(7);
    assert_eq!(
        r,
        TransactionResponse {
            transaction_id: String::from("trans_7"),
            status: String::from("Completed"),
            amount_cents: 10_000,
            timestamp: String::from("2022-01-01T12:00:00Z"),
        }
    );
    assert_eq!(RECORD_AMOUNT_CENTS, 10_000);
    assert_eq!((r.amount_cents as f64) / 100.0, 100.0);
}

#[test]
fn record_identifier_follows_the_index() {
    assert_eq!(synthesize_record(0).transaction_id, "trans_0");
    assert_eq!(synthesize_record(29).transaction_id, "trans_29");
    assert_eq!(synthesize_record(12_345).transaction_id, "trans_12345");
}

#[test]
fn record_identifiers_are_distinct() {
    let mut seen = std::collections::HashSet::new();
    for i in 0..1_000u64 {
        assert!(seen.insert(synthesize_record(i).transaction_id));
    }
}

#[test]
fn generator_settles_every_payment() {
    let empty = PaymentRequest::default();
    assert_eq!(process_payment(&empty), PaymentResponse { success: true });
    let filled = PaymentRequest { payee: String::from("acct-17"), amount_cents: 2_599 };
    assert_eq!(process_payment(&filled), PaymentResponse { success: true });
}

#[test]
fn default_requests_are_empty() {
    assert_eq!(PaymentRequest::default(), PaymentRequest { payee: String::new(), amount_cents: 0 });
    assert_eq!(TransactionRequest::default(), TransactionRequest { account_id: String::new() });
}

#[test]
fn sequence_yields_each_record_once_then_ends() {
    let mut s = TransactionSequence::with_count(2);
    assert_eq!(s.position(), 0);
    assert_eq!(s.count(), 2);
    assert_eq!(s.next_record().unwrap().transaction_id, "trans_0");
    assert_eq!(s.position(), 1);
    assert_eq!(s.next_record().unwrap().transaction_id, "trans_1");
    assert_eq!(s.position(), 2);
    assert_eq!(s.next_record(), None);
    assert_eq!(s.next_record(), None);
    assert_eq!(s.position(), 2);
    assert_eq!(s.count(), 2);
}

#[test]
fn empty_sequence_yields_nothing() {
    let mut s = TransactionSequence::with_count(0);
    assert_eq!(s.next_record(), None);
    assert_eq!(s.position(), 0);
}

#[test]
fn listed_history_has_thirty_records() {
    assert_eq!(RECORD_COUNT, 30);
    let mut s = list_transactions(&TransactionRequest::default());
    assert_eq!(s.count(), 30);
    let mut ids = Vec::new();
    while let Some(r) = s.next_record() {
        assert_eq!(r.status, "Completed");
        assert_eq!(r.amount_cents, 10_000);
        assert_eq!(r.timestamp, "2022-01-01T12:00:00Z");
        ids.push(r.transaction_id);
    }
    let expected: Vec<String> = (0..30).map(|i| format!("trans_{}", i)).collect();
    assert_eq!(ids, expected);
}

#[test]
fn listed_history_ignores_the_query() {
    let mut a = list_transactions(&TransactionRequest { account_id: String::from("a") });
    let mut b = list_transactions(&TransactionRequest { account_id: String::from("b") });
    loop {
        let (x, y) = (a.next_record(), b.next_record());
        assert_eq!(x, y);
        if x.is_none() {
            break;
        }
    }
}

#[test]
fn failures_have_their_words() {
    assert_eq!(payment_services::ServiceError::InvalidRequest.message(), "invalid request");
    assert_eq!(payment_services::ServiceError::Internal.message(), "internal error");
}
