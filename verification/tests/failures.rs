use kivio_core::failover::{FailoverLoop, KeyChoice, KeyVerdict};
use kivio_core::reply::status_error_message;
use kivio_core::retry::{
    extract_status_code, http_error_message, is_failover_error, is_retryable_error,
    is_retryable_status, is_success_status, parse_leading_status_code, parse_retry_after,
    retry_delay_ms, transport_error_message, RetryLoop, RetryStep,
};

// ===== Status codes in messages =====

#[test]
fn extract_status_code_parses_typical_send_with_retry_format() {
    let s = "OpenAI API Error: 429 Too Many Requests - {\"error\":\"rate_limit\"}";
    assert_eq!(extract_status_code(s), Some(429));
}

#[test]
fn extract_status_code_handles_each_failover_status() {
    assert_eq!(extract_status_code("X Error: 401 Unauthorized - body"), Some(401));
    assert_eq!(extract_status_code("X Error: 402 Payment Required - body"), Some(402));
    assert_eq!(extract_status_code("X Error: 403 Forbidden - body"), Some(403));
    assert_eq!(extract_status_code("X Error: 429 Too Many Requests - body"), Some(429));
}

#[test]
fn extract_status_code_handles_defensive_http_format() {
    assert_eq!(extract_status_code("Stream HTTP 429: rate limited"), Some(429));
    assert_eq!(extract_status_code("Stream HTTP 401: unauthorized"), Some(401));
    assert_eq!(extract_status_code("Vision API HTTP 403: forbidden"), Some(403));
}

#[test]
fn extract_status_code_handles_non_failover_status() {
    assert_eq!(extract_status_code("X Error: 400 Bad Request - body"), Some(400));
    assert_eq!(extract_status_code("X Error: 500 Internal Server Error - body"), Some(500));
}

#[test]
fn extract_status_code_returns_none_for_network_error() {
    let s = "Stream chat Error: error sending request: connection refused (attempt 3/3)";
    assert_eq!(extract_status_code(s), None);
}

#[test]
fn extract_status_code_returns_none_when_marker_missing() {
    assert_eq!(extract_status_code("just some message"), None);
    assert_eq!(extract_status_code(""), None);
}

#[test]
fn is_failover_error_only_triggers_on_auth_quota_codes() {
    assert!(is_failover_error("X Error: 401 - body"));
    assert!(is_failover_error("X Error: 402 - body"));
    assert!(is_failover_error("X Error: 403 - body"));
    assert!(is_failover_error("X Error: 429 - body"));
    assert!(is_failover_error("Stream HTTP 429: rate limited"));
    assert!(is_failover_error("Stream HTTP 401: unauthorized"));
}

#[test]
fn is_failover_error_does_not_trigger_on_400_or_5xx() {
    assert!(!is_failover_error("X Error: 400 Bad Request - body"));
    assert!(!is_failover_error("Stream HTTP 400: bad request"));
    assert!(!is_failover_error("X Error: 500 Internal Server Error - body"));
    assert!(!is_failover_error("X Error: 503 Service Unavailable - body"));
}

#[test]
fn is_failover_error_does_not_trigger_on_network_failure() {
    assert!(!is_failover_error("Stream Error: error sending request: timed out"));
    assert!(!is_failover_error("X Error: connection closed"));
}

#[test]
fn is_failover_error_does_not_trigger_on_body_keywords_alone() {
    assert!(!is_failover_error("X Error: 400 - {\"message\":\"billing issue\"}"));
    assert!(!is_failover_error("X Error: 500 - {\"message\":\"quota exceeded\"}"));
}

#[test]
fn a_network_failure_has_no_status_code() {
    let message = "X Error: error sending request: bad HTTP 403 reply";
    assert_eq!(extract_status_code(message), None);
    assert!(!is_failover_error(message));
    assert_eq!(extract_status_code("X Error: refused by HTTP 403: no"), None);
    assert_eq!(extract_status_code("X HTTP 403 Error: refused"), None);
    let mut tries = RetryLoop::new("X", 1);
    match tries.on_failure("proxy says HTTP 429: slow down", false, true) {
        RetryStep::Fail(message) => assert!(!is_failover_error(&message)),
        RetryStep::Sleep(_) => panic!("one try"),
    }
}

#[test]
fn the_form_of_a_message_decides_where_its_status_code_stands() {
    assert_eq!(extract_status_code("Stream HTTP 429: {} Error: 500 x"), Some(429));
    assert_eq!(extract_status_code("Stream HTTP 429: Error: 500"), Some(429));
    assert_eq!(extract_status_code("My HTTP client Error: 401 Unauthorized - x"), Some(401));
    assert_eq!(extract_status_code("Over HTTP 2 Error: 401 Unauthorized - x"), Some(401));
    assert_eq!(extract_status_code("X Error: 99999 - HTTP 401: no"), Some(401));
    assert_eq!(extract_status_code("X HTTP 403 and HTTP 500"), Some(403));
    assert_eq!(extract_status_code("X HTTP Error: 402 - x"), Some(402));
    assert_eq!(extract_status_code("X Error: 00429 - body"), Some(429));
    assert_eq!(
        extract_status_code(&status_error_message("Stream", 403, "Error: 500 inside")),
        Some(403)
    );
}

#[test]
fn a_failed_send_tells_its_status_whatever_its_label() {
    for label in ["A HTTP 500: B", "HTTP 500: B", "A HTTP 500:", "A HTTP ", "A HTTP", "", "A Error"] {
        for body in ["", " Error: 500", "x HTTP 401: y", " Error: 500 (attempt 9/9)"] {
            let mut tries = RetryLoop::new(label, 1);
            match tries.on_failed_answer(429, None, body) {
                RetryStep::Fail(message) => {
                    assert_eq!(extract_status_code(&message), Some(429));
                    assert!(is_failover_error(&message));
                }
                RetryStep::Sleep(_) => panic!("one try"),
            }
        }
        let mut tries = RetryLoop::new(label, 1);
        match tries.on_failure("refused, HTTP 401: no", false, false) {
            RetryStep::Fail(message) => assert_eq!(extract_status_code(&message), None),
            RetryStep::Sleep(_) => panic!("one try"),
        }
    }
}

#[test]
fn the_number_of_a_try_has_its_form() {
    for (end, code) in [
        (" (attempt 1/1)", 500),
        (" (attempt 12/345)", 500),
        (" (attempt /1)", 429),
        (" (attempt 1/)", 429),
        (" (attempt 1/1) ", 429),
        ("(attempt 1/1)", 429),
        (" (attempt 1-1)", 429),
        (" (attempt 1/1", 429),
    ] {
        let message = format!("X HTTP 429: y Error: 500{}", end);
        assert_eq!(extract_status_code(&message), Some(code));
    }
    assert_eq!(extract_status_code(")"), None);
}

#[test]
fn leading_status_code_stops_at_first_other_character() {
    assert_eq!(parse_leading_status_code("429 Too Many"), Some(429));
    assert_eq!(parse_leading_status_code("65535"), Some(65535));
    assert_eq!(parse_leading_status_code("65536"), None);
    assert_eq!(parse_leading_status_code("+429"), None);
    assert_eq!(parse_leading_status_code(""), None);
}

// ===== Retrying =====

#[test]
fn retry_delays_double_up_to_ten_seconds() {
    assert_eq!(retry_delay_ms(1, None), 500);
    assert_eq!(retry_delay_ms(2, None), 1000);
    assert_eq!(retry_delay_ms(3, None), 2000);
    assert_eq!(retry_delay_ms(4, None), 4000);
    assert_eq!(retry_delay_ms(5, None), 8000);
    assert_eq!(retry_delay_ms(6, None), 10_000);
    assert_eq!(retry_delay_ms(60, None), 10_000);
    assert_eq!(retry_delay_ms(1_000_000, None), 10_000);
    assert_eq!(retry_delay_ms(usize::MAX, None), 10_000);
    assert_eq!(retry_delay_ms((u32::MAX as usize).saturating_add(2), None), 10_000);
}

#[test]
fn retry_after_sets_the_delay() {
    assert_eq!(retry_delay_ms(6, Some(0)), 0);
    assert_eq!(retry_delay_ms(1, Some(30)), 30_000);
    assert_eq!(retry_delay_ms(1, Some(u64::MAX)), u64::MAX);
    assert_eq!(parse_retry_after(Some("5")), Some(5_000));
    assert_eq!(parse_retry_after(Some("120")), Some(120_000));
    assert_eq!(parse_retry_after(Some("+5")), Some(5_000));
    assert_eq!(parse_retry_after(Some("0")), Some(0));
    assert_eq!(parse_retry_after(Some(" 5")), None);
    assert_eq!(parse_retry_after(Some("-5")), None);
    assert_eq!(parse_retry_after(Some("")), None);
    assert_eq!(parse_retry_after(Some("Wed, 21 Oct 2015 07:28:00 GMT")), None);
    assert_eq!(parse_retry_after(Some("18446744073709551615")), Some(u64::MAX));
    assert_eq!(parse_retry_after(Some("18446744073709551616")), None);
    assert_eq!(parse_retry_after(None), None);
}

#[test]
fn statuses_are_sorted_into_success_and_retryable() {
    for status in 100u16..=999 {
        let code = reqwest::StatusCode::from_u16(status).unwrap();
        assert_eq!(is_success_status(status), code.is_success());
        assert_eq!(
            is_retryable_status(status),
            code == reqwest::StatusCode::TOO_MANY_REQUESTS || code.is_server_error()
        );
    }
    assert!(is_retryable_error(true, false));
    assert!(is_retryable_error(false, true));
    assert!(!is_retryable_error(false, false));
}

#[test]
fn http_error_message_writes_the_status_as_reqwest_does() {
    assert_eq!(
        http_error_message("OpenAI API", 429, "slow down"),
        "OpenAI API Error: 429 Too Many Requests - slow down"
    );
    assert_eq!(
        http_error_message("X", 404, ""),
        format!("X Error: {} - ", reqwest::StatusCode::NOT_FOUND)
    );
    let unknown = reqwest::StatusCode::from_u16(599).unwrap();
    assert_eq!(http_error_message("X", 599, "b"), format!("X Error: {} - b", unknown));
    assert_eq!(transport_error_message("X", "timed out"), "X Error: timed out");
}

#[test]
fn every_status_survives_in_the_message() {
    for status in 100u16..=999 {
        let message = http_error_message("Vision API", status, "body Error: 200");
        assert_eq!(extract_status_code(&message), Some(status));
        let other = status_error_message("Vision API", status, "body");
        assert_eq!(extract_status_code(&other), Some(status));
    }
}

#[test]
fn retry_loop_waits_and_then_gives_up() {
    let mut tries = RetryLoop::new("Vision API", 3);
    assert_eq!(tries.attempts(), 3);
    assert_eq!(tries.on_failed_answer(503, None, "down"), RetryStep::Sleep(500));
    assert_eq!(tries.attempt(), 2);
    assert_eq!(tries.on_failure("timed out", true, false), RetryStep::Sleep(1000));
    assert_eq!(
        tries.on_failed_answer(503, None, "down"),
        RetryStep::Fail(
            "Vision API Error: 503 Service Unavailable - down (attempt 3/3)".to_string()
        )
    );
}

#[test]
fn retry_loop_obeys_retry_after() {
    let mut tries = RetryLoop::new("X", 2);
    assert_eq!(tries.on_failed_answer(429, Some("7"), ""), RetryStep::Sleep(7000));
}

#[test]
fn retry_loop_gives_up_at_once_where_retrying_is_no_use() {
    let mut tries = RetryLoop::new("X", 5);
    assert_eq!(
        tries.on_failed_answer(400, Some("7"), "bad"),
        RetryStep::Fail("X Error: 400 Bad Request - bad (attempt 1/5)".to_string())
    );
    assert_eq!(
        tries.on_failure("no route", false, false),
        RetryStep::Fail("X Error: no route (attempt 1/5)".to_string())
    );
}

#[test]
fn retry_loop_tries_at_least_once() {
    let mut tries = RetryLoop::new("X", 0);
    assert_eq!(
        tries.on_failure("refused", false, true),
        RetryStep::Fail("X Error: refused (attempt 1/1)".to_string())
    );
}

// ===== Keys =====

#[test]
fn failover_needs_a_key() {
    match FailoverLoop::new("OCR", 0) {
        Ok(_) => panic!("no key is an error"),
        Err(message) => assert_eq!(message, "OCR Error: No API key configured"),
    }
}

#[test]
fn failover_goes_through_the_keys() {
    let mut keys = FailoverLoop::new("X", 2).unwrap_or_else(|e| panic!("{}", e));
    assert_eq!(keys.total(), 2);
    assert_eq!(keys.on_pick(Some(1)), KeyChoice::Send(1));
    assert!(keys.tried().contains(&1) && !keys.tried().contains(&0));
    assert_eq!(
        keys.on_failure("X Error: 401 Unauthorized - no"),
        KeyVerdict { mark_failed: true, give_up: None }
    );
    assert_eq!(keys.on_pick(Some(0)), KeyChoice::Send(0));
    assert_eq!(
        keys.on_failure("X Error: 429 Too Many Requests - no"),
        KeyVerdict {
            mark_failed: true,
            give_up: Some("X Error: 429 Too Many Requests - no".to_string())
        }
    );
}

#[test]
fn failover_stops_at_other_failures() {
    let mut keys = FailoverLoop::new("X", 3).unwrap_or_else(|e| panic!("{}", e));
    assert_eq!(keys.on_pick(Some(0)), KeyChoice::Send(0));
    assert_eq!(
        keys.on_failure("X Error: 500 Internal Server Error - no"),
        KeyVerdict {
            mark_failed: false,
            give_up: Some("X Error: 500 Internal Server Error - no".to_string())
        }
    );
}

#[test]
fn failover_remembers_the_last_failure_when_no_key_is_left() {
    let mut keys = FailoverLoop::new("X", 3).unwrap_or_else(|e| panic!("{}", e));
    assert_eq!(
        keys.on_pick(None),
        KeyChoice::GiveUp("X Error: all 3 keys exhausted".to_string())
    );
    assert_eq!(keys.on_pick(Some(2)), KeyChoice::Send(2));
    assert_eq!(keys.on_failure("X HTTP 403: no").give_up, None);
    assert_eq!(keys.on_pick(None), KeyChoice::GiveUp("X HTTP 403: no".to_string()));
}

#[test]
fn sends_are_bounded_by_keys_and_tries() {
    let mut keys = FailoverLoop::new("X", 3).unwrap_or_else(|e| panic!("{}", e));
    let mut sent = 0;
    let mut next = 0usize;
    let last = loop {
        let picked = if next < 3 { Some(next) } else { None };
        next += 1;
        if let KeyChoice::GiveUp(message) = keys.on_pick(picked) {
            break message;
        }
        let mut tries = RetryLoop::new("X", 2);
        let failure = loop {
            sent += 1;
            if let RetryStep::Fail(message) = tries.on_failed_answer(429, None, "slow") {
                break message;
            }
        };
        let verdict = keys.on_failure(&failure);
        assert!(verdict.mark_failed);
        if let Some(message) = verdict.give_up {
            break message;
        }
    };
    assert_eq!(sent, 6);
    assert_eq!(last, "X Error: 429 Too Many Requests - slow (attempt 2/2)");
}
