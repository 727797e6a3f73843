use qa_store::model::{Access, StoreError};
use qa_store::remote::{
    format_u64_decimal, interpret_secret_fetch, parse_u64_decimal, question_from_record,
    SecretFetch,
};

#[test]
fn secret_fetch_transport_failure_is_store_unavailable() {
    let r = interpret_secret_fetch(SecretFetch::Unreachable, &String::from("s"));
    assert_eq!(r, Err(StoreError::StoreUnavailable));
}

#[test]
fn secret_fetch_missing_event_is_forbidden() {
    let r = interpret_secret_fetch(SecretFetch::Missing, &String::from("s"));
    assert_eq!(r, Ok(Access::Forbidden));
}

#[test]
fn secret_fetch_match_authorizes() {
    let r = interpret_secret_fetch(
        SecretFetch::Found(String::from("hunter2")),
        &String::from("hunter2"),
    );
    assert_eq!(r, Ok(Access::Authorized));
}

#[test]
fn secret_fetch_mismatch_is_forbidden() {
    let r = interpret_secret_fetch(
        SecretFetch::Found(String::from("hunter2")),
        &String::from("hunter"),
    );
    assert_eq!(r, Ok(Access::Forbidden));
}

#[test]
fn parse_decimal_reads_exact_values() {
    assert_eq!(parse_u64_decimal(&b"0".to_vec()), Some(0));
    assert_eq!(parse_u64_decimal(&b"42".to_vec()), Some(42));
    assert_eq!(parse_u64_decimal(&b"007".to_vec()), Some(7));
    assert_eq!(
        parse_u64_decimal(&b"18446744073709551615".to_vec()),
        Some(u64::MAX)
    );
}

#[test]
fn parse_decimal_refuses_malformed_text() {
    assert_eq!(parse_u64_decimal(&b"".to_vec()), None);
    assert_eq!(parse_u64_decimal(&b"12a".to_vec()), None);
    assert_eq!(parse_u64_decimal(&b"-3".to_vec()), None);
    assert_eq!(parse_u64_decimal(&b"18446744073709551616".to_vec()), None);
    assert_eq!(parse_u64_decimal(&b"99999999999999999999999".to_vec()), None);
}

#[test]
fn format_decimal_writes_exact_text() {
    assert_eq!(format_u64_decimal(0), b"0".to_vec());
    assert_eq!(format_u64_decimal(7), b"7".to_vec());
    assert_eq!(format_u64_decimal(1234567890), b"1234567890".to_vec());
    assert_eq!(format_u64_decimal(u64::MAX), b"18446744073709551615".to_vec());
}

#[test]
fn format_then_parse_round_trips() {
    for v in [0u64, 1, 9, 10, 99, 100, 4242, u64::MAX] {
        assert_eq!(parse_u64_decimal(&format_u64_decimal(v)), Some(v));
    }
}

#[test]
fn question_record_decodes_plain_fields() {
    let q = question_from_record(
        11,
        3,
        String::from("why?"),
        &b"5".to_vec(),
        true,
        false,
        &b"1600000000".to_vec(),
    )
    .unwrap();
    assert_eq!(q.id, 11);
    assert_eq!(q.event_id, 3);
    assert_eq!(q.text, "why?");
    assert_eq!(q.votes, 5);
    assert!(q.hidden);
    assert!(!q.answered);
    assert_eq!(q.created, 1_600_000_000);
}

#[test]
fn malformed_question_record_is_store_unavailable() {
    let r = question_from_record(
        11,
        3,
        String::from("why?"),
        &b"five".to_vec(),
        false,
        false,
        &b"1600000000".to_vec(),
    );
    assert_eq!(r, Err(StoreError::StoreUnavailable));
    let r = question_from_record(
        11,
        3,
        String::from("why?"),
        &b"5".to_vec(),
        false,
        false,
        &b"".to_vec(),
    );
    assert_eq!(r, Err(StoreError::StoreUnavailable));
}
