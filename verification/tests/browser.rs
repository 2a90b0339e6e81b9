use kivio_core::bridge::{
    bind_error_message, command_timeout_ms, needs_write, BrowserAutomation, BrowserCommand,
    PollRequest, PollStep, ResultRequest, ResultStep, POLL_NANOS, TIMED_OUT, WAIT_NANOS,
};
use kivio_core::http::{
    not_found_reply, ok_reply, parse_http_head, route_request, write_json_response,
    write_response, ReadStep, RequestReader, Route, HEAD_LIMIT,
};
use kivio_core::json::Json;
use kivio_core::json_text::write_json;
use kivio_core::tabs::BrowserTab;

fn tab(id: i64, title: &str, active: bool) -> BrowserTab {
    BrowserTab {
        id,
        url: "https://x".to_string(),
        title: title.to_string(),
        active,
        window_id: None,
    }
}

fn result(id: &str, ok: bool) -> ResultRequest {
    ResultRequest {
        id: id.to_string(),
        ok,
        data: Json::string("d"),
        error: Json::string("bad"),
        new_tabs: vec![],
    }
}

fn answer(step: PollStep) -> String {
    match step {
        PollStep::Answer(json) => write_json(&json),
        PollStep::Wait(_) => panic!("no answer"),
    }
}

fn outcome(step: ResultStep) -> Result<String, String> {
    match step {
        ResultStep::Done(result) => result.map(|json| write_json(&json)),
        ResultStep::Wait(_) => panic!("not done"),
    }
}

// ===== Requests =====

#[test]
fn heads_are_found() {
    assert_eq!(parse_http_head(b"GET / HTTP/1.1\r\nHost: x\r\n\r"), None);
    assert_eq!(parse_http_head(b"GET / HTTP/1.1\r\n\r\nbody"), Some((18, 0)));
    assert_eq!(
        parse_http_head(b"POST / HTTP/1.1\r\nCONTENT-length:  12 \r\n\r\n"),
        Some((41, 12))
    );
    assert_eq!(parse_http_head(b"\r\n\r\n"), Some((4, 0)));
    assert_eq!(
        parse_http_head(b"P\r\nContent-Length: x\r\nContent-Length: 3\r\nContent-Length: 4\r\n\r\n"),
        Some((62, 3))
    );
    assert_eq!(parse_http_head(b"P\r\n Content-Length: 3\r\n\r\n"), Some((25, 0)));
    assert_eq!(parse_http_head(b"P\nContent-Length: +3\n\xff\r\n\r\n"), Some((26, 3)));
    assert_eq!(parse_http_head(b""), None);
}

#[test]
fn requests_are_read_until_they_are_complete() {
    let mut reader = RequestReader::new();
    assert_eq!(reader.feed(b"POST /api/poll HTTP/1.1\r\nContent-Le"), ReadStep::More);
    assert_eq!(reader.feed(b"ngth: 4\r\n\r"), ReadStep::More);
    assert_eq!(reader.feed(b"\nab"), ReadStep::More);
    assert_eq!(reader.feed(b"cd"), ReadStep::Complete);
    assert_eq!(reader.route(), Route::Poll("abcd".to_string()));
    assert_eq!(reader.feed(b"ef"), ReadStep::Complete);
    assert_eq!(reader.route(), Route::Poll("abcdef".to_string()));
}

#[test]
fn heads_have_a_limit() {
    let mut reader = RequestReader::new();
    assert_eq!(reader.feed(&vec![b'a'; HEAD_LIMIT]), ReadStep::More);
    assert_eq!(reader.feed(b"a"), ReadStep::TooLarge);
    let mut reader = RequestReader::new();
    let head = format!("P /health\r\nContent-Length: {}\r\n\r\n", usize::MAX);
    assert_eq!(reader.feed(head.as_bytes()), ReadStep::More);
    assert_eq!(reader.feed(&vec![b'a'; HEAD_LIMIT + 1]), ReadStep::More);
}

#[test]
fn requests_are_routed() {
    assert_eq!(route_request("GET /health HTTP/1.1\r\n\r\n"), Route::Health);
    assert_eq!(
        route_request("POST \t /api/result\u{3000}HTTP/1.1\r\nX: y\r\n\r\n{}\r\n\r\n"),
        Route::Result("{}\r\n\r\n".to_string())
    );
    assert_eq!(route_request("POST /api/poll"), Route::Poll(String::new()));
    assert_eq!(route_request("POST /api/poll/ x"), Route::Unknown);
    assert_eq!(route_request("/health"), Route::Unknown);
    assert_eq!(route_request("GET\n/health"), Route::Unknown);
    assert_eq!(route_request(""), Route::Unknown);
}

#[test]
fn responses_tell_the_length_of_their_body_in_bytes() {
    assert_eq!(
        write_response("字"),
        "HTTP/1.1 200 OK\r\nContent-Type: application/json; charset=utf-8\r\nAccess-Control-Allow-Origin: *\r\nContent-Length: 3\r\nConnection: close\r\n\r\n字"
    );
    let response = write_json_response(&ok_reply());
    assert!(response.ends_with("\r\n\r\n{\"ok\":true}"));
    let (end, length) = match parse_http_head(response.as_bytes()) {
        Some(head) => head,
        None => panic!("no head"),
    };
    assert_eq!(end + length, response.len());
    assert_eq!(write_json(&not_found_reply()), "{\"error\":\"not found\",\"ok\":false}");
}

// ===== The bridge =====

#[test]
fn commands_come_in_order_and_once() {
    let mut bridge = BrowserAutomation::new();
    bridge.enqueue("1", Some(7), "a()");
    bridge.enqueue("2", None, "b()");
    assert_eq!(
        answer(bridge.handle_poll(0)),
        "{\"code\":\"a()\",\"id\":\"1\",\"tabId\":7,\"type\":\"execute_js\"}"
    );
    assert_eq!(
        answer(bridge.handle_poll(POLL_NANOS)),
        "{\"code\":\"b()\",\"id\":\"2\",\"type\":\"execute_js\"}"
    );
    assert!(matches!(bridge.handle_poll(POLL_NANOS - 1), PollStep::Wait(WAIT_NANOS)));
    assert_eq!(answer(bridge.handle_poll(POLL_NANOS)), "{\"type\":\"noop\"}");
}

#[test]
fn commands_get_random_identifiers() {
    let mut bridge = BrowserAutomation::new();
    let first = bridge.submit(None, "a");
    let second = bridge.submit(None, "b");
    assert_ne!(first, second);
    assert_eq!(first.len(), 36);
    assert_eq!(&first[14..15], "4");
    assert_eq!(first.chars().filter(|c| *c == '-').count(), 4);
    assert!(first.chars().all(|c| c == '-' || c.is_ascii_digit() || ('a'..='f').contains(&c)));
    let expected = BrowserCommand::ExecuteJs { id: first, tab_id: None, code: "a".to_string() };
    assert_eq!(answer(bridge.handle_poll(0)), write_json(&expected.to_json()));
}

#[test]
fn results_are_taken_once() {
    let mut bridge = BrowserAutomation::new();
    let limit = 1_000_000_000u128;
    assert!(matches!(bridge.await_result("1", 0, limit), ResultStep::Wait(WAIT_NANOS)));
    assert!(matches!(
        bridge.await_result("1", limit - 5, limit),
        ResultStep::Wait(5)
    ));
    assert_eq!(write_json(&bridge.handle_result(result("1", false))), "{\"ok\":true}");
    bridge.handle_result(result("2", false));
    bridge.handle_result(result("1", true));
    assert_eq!(
        outcome(bridge.await_result("1", limit, limit)),
        Ok("{\"data\":\"d\",\"newTabs\":[]}".to_string())
    );
    assert_eq!(outcome(bridge.await_result("1", limit, limit)), Err(TIMED_OUT.to_string()));
    assert_eq!(outcome(bridge.await_result("2", 0, limit)), Err("\"bad\"".to_string()));
}

#[test]
fn tabs_are_listed_in_order() {
    let mut bridge = BrowserAutomation::new();
    bridge.begin_poll(&PollRequest {
        tabs: vec![tab(5, "a", false), tab(9, "b", true), tab(-1, "c", false), tab(5, "d", false)],
    });
    let mut told = result("1", true);
    let mut opened = tab(4, "e", true);
    opened.window_id = Some(2);
    told.new_tabs = vec![opened];
    bridge.handle_result(told);
    let listed: Vec<(i64, String)> =
        bridge.tabs().into_iter().map(|tab| (tab.id, tab.title)).collect();
    assert_eq!(
        listed,
        vec![
            (4, "e".to_string()),
            (9, "b".to_string()),
            (-1, "c".to_string()),
            (5, "d".to_string())
        ]
    );
    assert_eq!(
        outcome(bridge.await_result("1", 0, 1)),
        Ok("{\"data\":\"d\",\"newTabs\":[{\"active\":true,\"id\":4,\"title\":\"e\",\"url\":\"https://x\",\"windowId\":2}]}".to_string())
    );
    assert_eq!(
        write_json(&tab(1, "t", false).to_json()),
        "{\"active\":false,\"id\":1,\"title\":\"t\",\"url\":\"https://x\",\"windowId\":null}"
    );
    let info = bridge.info("/data/ext");
    assert_eq!((info.host, info.port), ("127.0.0.1", 18765));
    assert_eq!((info.extension_dir.as_str(), info.session_count), ("/data/ext", 4));
}

#[test]
fn small_decisions_around_the_bridge() {
    assert_eq!(command_timeout_ms(None), 15_000);
    assert_eq!(command_timeout_ms(Some(0)), 1_000);
    assert_eq!(command_timeout_ms(Some(5_000)), 5_000);
    assert_eq!(command_timeout_ms(Some(u64::MAX)), 120_000);
    assert!(needs_write(None, "x"));
    assert!(needs_write(Some("y"), "x"));
    assert!(!needs_write(Some("x"), "x"));
    assert_eq!(
        bind_error_message("in use"),
        "Failed to bind browser automation bridge on 127.0.0.1:18765: in use"
    );
}
