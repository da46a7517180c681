use price_oracle::backoff::{backoff_delay_secs, MAX_RETRIES};
use price_oracle::decimal::{parse_decimal, parse_decimal_cents, DecimalPrice};
use price_oracle::ingest::{
    evaluate_response, finish_fetch, handle_http_error, is_success_status, kline_from_fields,
    kline_window, parse_kline_response, FetchError, HttpFailure, Kline,
};
use price_oracle::retry::{RetryMachine, RetryPhase, RetryStep};
use price_oracle::validator::{validate_price, PriceFlag, PriceRejection};

fn dec(cents: i64, whole: u64, fraction_nonzero: bool) -> DecimalPrice {
    DecimalPrice { cents, negative: false, whole, fraction_nonzero }
}

fn close_body(close: &str) -> String {
    format!("[[1700000040000,\"1\",\"2\",\"0.5\",\"{}\",\"\"]]", close)
}

#[test]
fn test_price_validation() {
    assert!(validate_price(5_000_000).is_ok());
    assert!(validate_price(0).is_err());
    assert!(validate_price(-10_000).is_err());
}

#[test]
fn test_http_error_handling() {
    assert!(handle_http_error(404).is_err());
    assert!(handle_http_error(429).is_err());
    assert!(handle_http_error(500).is_err());
}

#[test]
fn validation_flags_outside_band() {
    assert_eq!(validate_price(1), Ok(PriceFlag::UnusuallyLow));
    assert_eq!(validate_price(99_999), Ok(PriceFlag::UnusuallyLow));
    assert_eq!(validate_price(100_000), Ok(PriceFlag::Normal));
    assert_eq!(validate_price(100_000_000), Ok(PriceFlag::Normal));
    assert_eq!(validate_price(100_000_001), Ok(PriceFlag::UnusuallyHigh));
    assert_eq!(validate_price(-1), Err(PriceRejection::NotPositive));
}

#[test]
fn http_statuses_are_classified() {
    let kind = |c: u16| match handle_http_error(c) {
        Err(FetchError::Http(k)) => k,
        _ => panic!("expected an HTTP failure"),
    };
    assert_eq!(kind(400), HttpFailure::BadRequest);
    assert_eq!(kind(401), HttpFailure::Unauthorized);
    assert_eq!(kind(403), HttpFailure::Forbidden);
    assert_eq!(kind(404), HttpFailure::NotFound);
    assert_eq!(kind(429), HttpFailure::RateLimited);
    assert_eq!(kind(503), HttpFailure::ServerError);
    assert_eq!(kind(302), HttpFailure::Other(302));
    assert!(is_success_status(200));
    assert!(is_success_status(299));
    assert!(!is_success_status(300));
}

#[test]
fn backoff_doubles_from_one_second() {
    assert_eq!(backoff_delay_secs(1), 1);
    assert_eq!(backoff_delay_secs(2), 2);
    assert_eq!(backoff_delay_secs(3), 4);
    assert_eq!(backoff_delay_secs(64), 1u64 << 63);
}

#[test]
fn two_failures_then_success_waits_three_seconds() {
    let mut m = RetryMachine::new(MAX_RETRIES);
    assert_eq!(m.record_failure(), RetryStep::RetryAfter(1));
    assert_eq!(m.record_failure(), RetryStep::RetryAfter(2));
    m.record_success();
    assert_eq!(m.phase, RetryPhase::Succeeded);
    assert_eq!(m.attempt, 3);
    assert_eq!(m.total_wait_secs, 3);
}

#[test]
fn retries_exhausted_give_up() {
    let mut m = RetryMachine::new(MAX_RETRIES);
    assert_eq!(m.record_failure(), RetryStep::RetryAfter(1));
    assert_eq!(m.record_failure(), RetryStep::RetryAfter(2));
    assert_eq!(m.record_failure(), RetryStep::GiveUp);
    assert_eq!(m.phase, RetryPhase::Failed);
    assert_eq!(m.attempt, 3);
    assert_eq!(m.total_wait_secs, 3);
}

#[test]
fn decimal_text_to_cents() {
    assert_eq!(parse_decimal_cents("67234.12"), Ok(6_723_412));
    assert_eq!(parse_decimal_cents("67234.125"), Ok(6_723_413));
    assert_eq!(parse_decimal_cents("67234.12499"), Ok(6_723_412));
    assert_eq!(parse_decimal_cents("5"), Ok(500));
    assert_eq!(parse_decimal_cents("5."), Ok(500));
    assert_eq!(parse_decimal_cents(".5"), Ok(50));
    assert_eq!(parse_decimal_cents("-100"), Ok(-10_000));
    assert_eq!(parse_decimal_cents("0.00"), Ok(0));
    assert!(parse_decimal_cents("").is_err());
    assert!(parse_decimal_cents(".").is_err());
    assert!(parse_decimal_cents("-").is_err());
    assert!(parse_decimal_cents("1.2.3").is_err());
    assert!(parse_decimal_cents("NaN").is_err());
    assert!(parse_decimal_cents("inf").is_err());
    assert!(parse_decimal_cents("1e5").is_err());
    assert!(parse_decimal_cents("99999999999999999999").is_err());
    assert_eq!(parse_decimal_cents("92233720368547758.07"), Ok(i64::MAX));
    assert!(parse_decimal_cents("92233720368547758.08").is_err());
}

#[test]
fn kline_fields_are_read() {
    assert_eq!(
        kline_from_fields(Some(1_700_000_040_000), Some("100.5")),
        Ok(Kline { open_time_secs: 1_700_000_040, close: dec(10_050, 100, true) })
    );
    assert_eq!(kline_from_fields(Some(1), None), Err(FetchError::CloseNotText));
    assert_eq!(kline_from_fields(Some(1), Some("x")), Err(FetchError::CloseNotNumber));
    assert_eq!(kline_from_fields(None, Some("1")), Err(FetchError::OpenTimeNotInteger));
}

#[test]
fn kline_response_body_is_parsed() {
    let body = r#"[[1700000040000,"67000.00","67100.00","66900.00","67050.55","12.5",1700000099999]]"#;
    assert_eq!(
        parse_kline_response(body),
        Ok(Kline { open_time_secs: 1_700_000_040, close: dec(6_705_055, 67050, true) })
    );
    assert_eq!(parse_kline_response("[]"), Err(FetchError::Empty));
    assert_eq!(parse_kline_response("not json"), Err(FetchError::Malformed));
    assert_eq!(parse_kline_response("[[1,2,3]]"), Err(FetchError::Malformed));
    assert_eq!(parse_kline_response("[[1,2,3,4,5]]"), Err(FetchError::CloseNotText));
    assert_eq!(parse_kline_response(r#"[["t",2,3,4,"5"]]"#), Err(FetchError::OpenTimeNotInteger));
}

#[test]
fn response_is_evaluated() {
    let body = r#"[[1700000040000,"1","2","0.5","65000.4",""]]"#;
    let p = evaluate_response(200, body, 1_700_000_105).unwrap();
    assert_eq!(p.price_cents, 6_500_040);
    assert_eq!(p.timestamp, 1_700_000_105);
    assert_eq!(p.source, "binance");
    assert_eq!(p.flag, PriceFlag::Normal);
    let s = p.to_submission("node".to_string());
    assert_eq!(s.price, 6_500_040);
    assert_eq!(s.reporter_id, "node");
    assert!(matches!(
        evaluate_response(429, body, 0),
        Err(FetchError::Http(HttpFailure::RateLimited))
    ));
    let zero = r#"[[1700000040000,"1","2","0.5","0.00",""]]"#;
    assert!(matches!(
        evaluate_response(200, zero, 0),
        Err(FetchError::Rejected(PriceRejection::NotPositive))
    ));
}

#[test]
fn finished_fetch_is_tagged() {
    let p = finish_fetch(Kline { open_time_secs: 0, close: dec(50, 0, true) }, 7).unwrap();
    assert_eq!(p.flag, PriceFlag::UnusuallyLow);
    assert_eq!(p.source, "binance");
    assert!(finish_fetch(Kline { open_time_secs: 0, close: DecimalPrice { cents: -5, negative: true, whole: 0, fraction_nonzero: true } }, 7).is_err());
}

#[test]
fn window_is_last_full_minute() {
    let w = kline_window(1_700_000_105);
    assert_eq!(w.end_ms, 1_700_000_100_000);
    assert_eq!(w.start_ms, 1_700_000_040_000);
    let w = kline_window(120);
    assert_eq!(w.start_ms, 60_000);
    assert_eq!(w.end_ms, 120_000);
}

#[test]
fn no_attempt_allowed_fails_at_once() {
    let m = RetryMachine::new(0);
    assert_eq!(m.phase, RetryPhase::Failed);
    assert_eq!(m.attempt, 0);
    assert_eq!(m.total_wait_secs, 0);
}

#[test]
fn short_or_odd_bodies_are_parse_failures() {
    assert_eq!(parse_kline_response(r#"[[1700000000000, "1"]]"#), Err(FetchError::Malformed));
    assert_eq!(parse_kline_response(r#"{"a": 1}"#), Err(FetchError::Malformed));
    assert_eq!(parse_kline_response("[1, 2]"), Err(FetchError::Malformed));
    assert_eq!(parse_kline_response(""), Err(FetchError::Malformed));
    assert!(matches!(
        evaluate_response(200, r#"[[1700000000000, "1"]]"#, 0),
        Err(FetchError::Malformed)
    ));
    assert!(matches!(evaluate_response(200, "[]", 0), Err(FetchError::Empty)));
    assert!(matches!(
        evaluate_response(200, r#"[[0,"","","","abc"]]"#, 0),
        Err(FetchError::CloseNotNumber)
    ));
}

#[test]
fn exact_value_decides_validation() {
    let p = evaluate_response(200, &close_body("0.001"), 5).unwrap();
    assert_eq!(p.price_cents, 0);
    assert_eq!(p.flag, PriceFlag::UnusuallyLow);
    let p = evaluate_response(200, &close_body("999.996"), 5).unwrap();
    assert_eq!(p.price_cents, 100_000);
    assert_eq!(p.flag, PriceFlag::UnusuallyLow);
    let p = evaluate_response(200, &close_body("1000"), 5).unwrap();
    assert_eq!(p.flag, PriceFlag::Normal);
    let p = evaluate_response(200, &close_body("1000000.000"), 5).unwrap();
    assert_eq!(p.flag, PriceFlag::Normal);
    let p = evaluate_response(200, &close_body("1000000.004"), 5).unwrap();
    assert_eq!(p.price_cents, 100_000_000);
    assert_eq!(p.flag, PriceFlag::UnusuallyHigh);
    assert!(matches!(
        evaluate_response(200, &close_body("0.000"), 5),
        Err(FetchError::Rejected(PriceRejection::NotPositive))
    ));
    assert!(matches!(
        evaluate_response(200, &close_body("-0.001"), 5),
        Err(FetchError::Rejected(PriceRejection::NotPositive))
    ));
}

#[test]
fn decimal_reading_keeps_exact_parts() {
    assert_eq!(
        parse_decimal("-12.0040"),
        Ok(DecimalPrice { cents: -1_200, negative: true, whole: 12, fraction_nonzero: true })
    );
    assert_eq!(
        parse_decimal("7.000"),
        Ok(DecimalPrice { cents: 700, negative: false, whole: 7, fraction_nonzero: false })
    );
}
