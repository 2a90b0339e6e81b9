use kivio_core::combined_stream::CombinedStream;
use kivio_core::json_text::write_json;
use kivio_core::responses_stream::ResponsesStream;
use kivio_core::sse::Emission;
use kivio_core::vision_stream::VisionStream;

fn chunk(content: &str) -> String {
    let text = serde_json::Value::from(content).to_string();
    format!("data: {{\"choices\":[{{\"delta\":{{\"content\":{}}}}}]}}\n", text)
}

fn delta(kind: &str, text: &str) -> Emission {
    Emission::Delta { kind: kind.to_string(), delta: text.to_string() }
}

fn reasoning(kind: &str, text: &str) -> Emission {
    Emission::Reasoning { kind: kind.to_string(), delta: text.to_string() }
}

fn done(kind: &str, reason: &str, full: &str) -> Emission {
    Emission::Done { kind: kind.to_string(), reason: reason.to_string(), full: full.to_string() }
}

fn end(reason: &str) -> Emission {
    Emission::End { reason: reason.to_string() }
}

/// The texts of the events of a kind, put together.
fn texts(emitted: &[Emission], wanted: &str) -> String {
    let mut out = String::new();
    for emission in emitted {
        if let Emission::Delta { kind, delta } = emission {
            if kind == wanted {
                out.push_str(delta);
            }
        }
    }
    out
}

// ===== One text =====

#[test]
fn a_vision_stream_hands_on_its_pieces() {
    let mut stream = VisionStream::new("answer");
    let turn = stream.feed_text(&format!(": comment\n\n{}{}", chunk(" he"), chunk("")));
    assert_eq!(turn.emitted, vec![delta("answer", " he")]);
    assert_eq!(turn.end, None);
    let turn = stream.feed_text("data: {\"choices\":[{\"delta\":{\"reasoning\":\"hm\",\"content\":\"y \"}}]}\ndata: nonsense\ndata:\n");
    assert_eq!(turn.emitted, vec![reasoning("answer", "hm"), delta("answer", "y ")]);
    let turn = stream.feed_text("data: [DONE]\ndata: ignored");
    assert_eq!(turn.emitted, vec![done("answer", "done", "hey")]);
    assert_eq!(turn.end, Some(Ok("hey".to_string())));
}

#[test]
fn a_vision_stream_does_not_mind_where_it_is_cut() {
    let whole = format!("{}{}{}", chunk("字a"), chunk("b"), chunk("c"));
    let mut one = VisionStream::new("k");
    let expected = one.feed_text(&whole).emitted;
    let mut many = VisionStream::new("k");
    let mut emitted: Vec<Emission> = vec![];
    for c in whole.chars() {
        let mut turn = many.feed_text(&c.to_string());
        emitted.append(&mut turn.emitted);
    }
    assert_eq!(emitted, expected);
    assert_eq!(texts(&emitted, "k"), "字abc");
    assert_eq!(many.finish().end, Some(Ok("字abc".to_string())));
}

#[test]
fn a_vision_stream_can_end_early() {
    let mut stream = VisionStream::new("k");
    stream.feed_text(&chunk("half "));
    assert_eq!(stream.cancel().emitted, vec![done("k", "cancelled", "half")]);
    assert_eq!(stream.cancel().end, Some(Ok("half".to_string())));
    assert_eq!(stream.fail("reset").emitted, vec![done("k", "error", "half")]);
    assert_eq!(stream.fail("reset").end, Some(Err("reset".to_string())));
    assert_eq!(stream.finish().emitted, vec![done("k", "done", "half")]);
}

#[test]
fn bytes_that_are_no_text_are_replaced() {
    let mut stream = VisionStream::new("k");
    let mut bytes = b"data: {\"choices\":[{\"delta\":{\"content\":\"".to_vec();
    bytes.push(0xff);
    bytes.extend_from_slice(b"\"}}]}\n");
    let turn = stream.feed(&bytes);
    assert_eq!(turn.emitted, vec![delta("k", "\u{fffd}")]);
    let turn = stream.feed("data: {\"choices\":[{\"delta\":{\"content\":\"字\"}}]}\n".as_bytes());
    assert_eq!(turn.emitted, vec![delta("k", "字")]);
}

#[test]
fn reasoning_content_hides_reasoning() {
    let mut stream = VisionStream::new("k");
    let turn = stream.feed_text(
        "data: {\"choices\":[{\"delta\":{\"reasoning_content\":null,\"reasoning\":\"x\"}}]}\n",
    );
    assert_eq!(turn.emitted, vec![]);
    let turn = stream
        .feed_text("data:data: {\"choices\":[{\"delta\":{\"reasoning_content\":\"r\"}}]}\n");
    assert_eq!(turn.emitted, vec![reasoning("k", "r")]);
}

#[test]
fn events_are_told_to_the_window() {
    assert_eq!(
        write_json(&delta("k", "d").payload("i")),
        "{\"delta\":\"d\",\"imageId\":\"i\",\"kind\":\"k\"}"
    );
    assert_eq!(
        write_json(&reasoning("k", "r").payload("i")),
        "{\"delta\":\"\",\"imageId\":\"i\",\"kind\":\"k\",\"reasoningDelta\":\"r\"}"
    );
    assert_eq!(
        write_json(&done("k", "done", "f").payload("i")),
        "{\"delta\":\"\",\"done\":true,\"full\":\"f\",\"imageId\":\"i\",\"kind\":\"k\",\"reason\":\"done\"}"
    );
    assert_eq!(
        write_json(&end("error").payload("i")),
        "{\"delta\":\"\",\"done\":true,\"imageId\":\"i\",\"reason\":\"error\"}"
    );
}

// ===== A translation and its original =====

#[test]
fn a_combined_stream_splits_at_the_separator() {
    let mut stream = CombinedStream::new();
    let turn = stream.feed_text(&chunk("Hello\n\n<<<ORIGINAL>>>\n你好"));
    assert_eq!(turn.emitted, vec![delta("translated", "Hello"), delta("original", "你好")]);
    let turn = stream.feed_text(&format!("{}data: [DONE]\n", chunk("吗")));
    assert_eq!(turn.emitted, vec![delta("original", "吗"), end("done")]);
    assert_eq!(turn.end, Some(Ok(("Hello".to_string(), "你好吗".to_string()))));
}

#[test]
fn a_combined_stream_finds_a_separator_in_pieces() {
    let answer = "译文译文译文\n<<<ORIGINAL>>>\noriginal";
    let characters: Vec<char> = answer.chars().collect();
    for width in 1..characters.len() {
        let mut stream = CombinedStream::new();
        let mut emitted: Vec<Emission> = vec![];
        for piece in characters.chunks(width) {
            let piece: String = piece.iter().collect();
            let mut turn = stream.feed_text(&chunk(&piece));
            emitted.append(&mut turn.emitted);
        }
        assert!(!texts(&emitted, "translated").contains('<'));
        assert!(!texts(&emitted, "original").contains('>'));
        let turn = stream.finish();
        assert_eq!(turn.emitted, vec![end("done")]);
        match turn.end {
            Some(Ok((translated, original))) => {
                assert_eq!(translated.trim_end_matches('\n'), "译文译文译文");
                assert_eq!(original.trim_start_matches('\n'), "original");
                assert_eq!(translated, texts(&emitted, "translated"));
                assert_eq!(original, texts(&emitted, "original"));
            }
            _ => panic!("no result"),
        }
    }
}

#[test]
fn a_combined_stream_holds_back_what_may_be_a_separator() {
    let mut stream = CombinedStream::new();
    let turn = stream.feed_text(&chunk("0123456789abc"));
    assert_eq!(turn.emitted, vec![]);
    let turn = stream.feed_text(&chunk("d"));
    assert_eq!(turn.emitted, vec![delta("translated", "0")]);
    assert_eq!(
        stream.finish().emitted,
        vec![delta("translated", "123456789abcd"), end("done")]
    );
    assert_eq!(
        stream.cancel().emitted,
        vec![delta("translated", "123456789abcd"), end("cancelled")]
    );
    assert_eq!(
        stream.cancel().end,
        Some(Ok(("0123456789abcd".to_string(), String::new())))
    );
    assert_eq!(stream.fail("reset").emitted, vec![end("error")]);
    assert_eq!(stream.fail("reset").end, Some(Err("reset".to_string())));
}

#[test]
fn a_combined_stream_cuts_between_characters() {
    let mut stream = CombinedStream::new();
    let turn = stream.feed_text(&chunk("字字字字字"));
    assert_eq!(turn.emitted, vec![]);
    let turn = stream.feed_text(&chunk("字"));
    assert_eq!(turn.emitted, vec![delta("translated", "字")]);
}

#[test]
fn a_combined_stream_hands_on_the_translation_first_and_ends_once() {
    let answer = "abcdefghijklmnop<<<ORIGINAL>>>q<<<ORIGINAL>>>r";
    let mut stream = CombinedStream::new();
    let mut emitted: Vec<Emission> = vec![];
    for c in answer.chars() {
        let mut turn = stream.feed_text(&chunk(&c.to_string()));
        emitted.append(&mut turn.emitted);
    }
    let mut turn = stream.feed_text("data: [DONE]\n");
    emitted.append(&mut turn.emitted);
    let mut seen_original = false;
    for (i, emission) in emitted.iter().enumerate() {
        match emission {
            Emission::Delta { kind, .. } if kind == "original" => seen_original = true,
            Emission::Delta { .. } => assert!(!seen_original),
            Emission::End { .. } => assert_eq!(i, emitted.len() - 1),
            _ => panic!("no other event"),
        }
    }
    assert_eq!(emitted.last(), Some(&end("done")));
    assert_eq!(texts(&emitted, "translated"), "abcdefghijklmnop");
    assert_eq!(texts(&emitted, "original"), "q<<<ORIGINAL>>>r");
}

// ===== The responses API =====

#[test]
fn a_responses_stream_follows_its_events() {
    let mut stream = ResponsesStream::new("k");
    let turn = stream.feed_text("event: response.output_text.delta\ndata: {\"delta\":\"He\"}\n");
    assert_eq!(turn.emitted, vec![delta("k", "He")]);
    let turn = stream.feed_text(
        "data: {\"type\":\"response.reasoning_summary_text.delta\",\"delta\":\"hm\"}\n",
    );
    assert_eq!(turn.emitted, vec![reasoning("k", "hm")]);
    let turn =
        stream.feed_text("data: {\"type\":\"response.output_text.done\",\"text\":\"Hello \"}\n");
    assert_eq!(turn.emitted, vec![delta("k", "llo ")]);
    let turn = stream.feed_text(
        "data: {\"type\":\"response.completed\",\"response\":{\"output_text\":\"other\"}}\n",
    );
    assert_eq!(turn.emitted, vec![done("k", "done", "Hello")]);
    assert_eq!(turn.end, Some(Ok("Hello".to_string())));
}

#[test]
fn a_responses_stream_notices_a_search_once() {
    let mut stream = ResponsesStream::new("k");
    let turn = stream.feed_text("data: {\"type\":\"response.web_search_call.searching\"}\n");
    assert_eq!(turn.emitted, vec![reasoning("k", "正在联网搜索...\n")]);
    let turn =
        stream.feed_text("data: {\"type\":\"x\",\"item\":{\"type\":\"web_search_call\"}}\n");
    assert_eq!(turn.emitted, vec![]);
}

#[test]
fn a_responses_stream_takes_the_text_at_its_completion() {
    let mut stream = ResponsesStream::new("k");
    let turn = stream.feed_text(
        "data: {\"type\":\"response.completed\",\"response\":{\"output_text\":\"all\"}}\n",
    );
    assert_eq!(turn.emitted, vec![delta("k", "all"), done("k", "done", "all")]);
}

#[test]
fn a_responses_stream_fails_with_the_error_told() {
    let mut stream = ResponsesStream::new("k");
    stream.feed_text("data: {\"text\":\"part\"}\n");
    let turn = stream
        .feed_text("data: {\"type\":\"response.failed\",\"response\":{\"error\":{\"code\":1}}}\n");
    assert_eq!(turn.emitted, vec![done("k", "error", "part")]);
    assert_eq!(turn.end, Some(Err("Responses stream error: {\"code\":1}".to_string())));
    let mut stream = ResponsesStream::new("k");
    let turn = stream.feed_text("event: error\ndata: {\"message\":\"m\"}\n");
    assert_eq!(turn.end, Some(Err("Responses stream error: {\"message\":\"m\"}".to_string())));
}

#[test]
fn a_responses_stream_can_end_early() {
    let mut stream = ResponsesStream::new("k");
    stream.feed(b"data: {\"delta\":\"a \"}\ndata: {\"delta\":\"\"}\n");
    assert_eq!(stream.cancel().emitted, vec![done("k", "cancelled", "a")]);
    assert_eq!(stream.finish().end, Some(Ok("a".to_string())));
    assert_eq!(
        stream.fail("reset").end,
        Some(Err("Responses stream read body: reset".to_string()))
    );
    let turn = stream.feed_text("data: [DONE]\n");
    assert_eq!(turn.end, Some(Ok("a".to_string())));
}
