use kivio_core::json_text::{read_json, write_json};
use kivio_core::json::Json;
use kivio_core::reply::{
    chat_text_answer, parse_answer, read_error_message, read_ocr_reply, read_text_reply,
    read_vision_reply, status_error_message,
};
use kivio_core::responses::{
    apply_responses_reasoning, apply_responses_web_search, chat_messages_to_responses_input,
    parse_response_output_text, response_output_text, response_stream_delta_text,
    response_stream_done_text, responses_role, responses_text_message, responses_tools,
};

fn parsed(text: &str) -> Json {
    read_json(text).unwrap_or_else(|e| panic!("{}", e))
}

#[test]
fn messages_hold_an_excerpt_of_the_reply() {
    let long = "字".repeat(600);
    assert_eq!(
        status_error_message("OCR", 418, &long),
        format!("OCR HTTP 418: {}", "字".repeat(500))
    );
    assert_eq!(read_error_message("Vision API", "closed"), "Vision API read body: closed");
    let raw = format!("[{}", "x".repeat(600));
    let error = match serde_json::from_str::<serde_json::Value>(&raw) {
        Ok(_) => panic!("not a value"),
        Err(error) => error,
    };
    assert_eq!(
        read_ocr_reply(&raw, false),
        Err(format!(
            "OCR parse JSON: {} (body: {})",
            error,
            raw.chars().take(500).collect::<String>()
        ))
    );
}

#[test]
fn chat_answers_are_trimmed() {
    let raw = "{\"choices\":[{\"message\":{\"content\":\" hi \\n\"}},{\"message\":{\"content\":\"no\"}}]}";
    assert_eq!(chat_text_answer(&parsed(raw)), Ok("hi".to_string()));
    assert_eq!(read_ocr_reply(raw, false), Ok("hi".to_string()));
    assert_eq!(read_vision_reply(raw, false), Ok("hi".to_string()));
    assert_eq!(parse_answer(raw, &parsed(raw), false, "A", "b"), Ok("hi".to_string()));
}

#[test]
fn answers_without_text_are_errors() {
    for raw in ["{}", "{\"choices\":[]}", "{\"choices\":[{\"message\":{\"content\":7}}]}"] {
        assert_eq!(chat_text_answer(&parsed(raw)), Err("Invalid response".to_string()));
        assert_eq!(read_ocr_reply(raw, false), Err(format!("Invalid OCR response: {}", raw)));
        assert_eq!(read_ocr_reply(raw, true), Err(format!("Invalid OCR response: {}", raw)));
        assert_eq!(
            read_vision_reply(raw, false),
            Err(format!("Invalid vision response: {}", raw))
        );
        assert_eq!(
            read_vision_reply(raw, true),
            Err(format!("Invalid Vision API response: {}", raw))
        );
        assert_eq!(
            read_text_reply(raw),
            Err(format!("Invalid OpenAI Responses response: {}", raw))
        );
    }
    assert!(read_text_reply("nope")
        .err()
        .map(|m| m.starts_with("OpenAI Responses parse JSON: "))
        .unwrap_or(false));
}

#[test]
fn responses_answers_are_put_together() {
    let raw = "{\"output\":[{\"content\":[{\"text\":\" a\"},{\"output_text\":\"b\"},{\"text\":1,\"output_text\":\"no\"}]},{\"x\":1},{\"content\":[{\"text\":\"c \"}]}]}";
    assert_eq!(response_output_text(&parsed(raw)), Some(" abc ".to_string()));
    assert_eq!(read_vision_reply(raw, true), Ok("abc".to_string()));
    assert_eq!(read_text_reply(raw), Ok("abc".to_string()));
    let direct = "{\"output_text\":\" \",\"output\":[]}";
    assert_eq!(response_output_text(&parsed(direct)), Some(" ".to_string()));
    assert_eq!(parse_response_output_text(direct, &parsed(direct), "X"), Ok("".to_string()));
    let blank = "{\"output\":[{\"content\":[{\"text\":\"  \"}]}]}";
    assert_eq!(response_output_text(&parsed(blank)), None);
}

#[test]
fn roles_and_messages_are_changed() {
    assert_eq!(responses_role("system"), "developer");
    assert_eq!(responses_role("developer"), "developer");
    assert_eq!(responses_role("assistant"), "assistant");
    assert_eq!(responses_role("tool"), "user");
    assert_eq!(
        write_json(&responses_text_message("assistant", "x")),
        "{\"content\":[{\"text\":\"x\",\"type\":\"output_text\"}],\"role\":\"assistant\"}"
    );
    let messages = parsed(
        "[{\"role\":\"system\",\"content\":\"s\"},{\"content\":[{\"type\":\"text\",\"text\":\"t\"},{\"type\":\"image_url\",\"image_url\":{\"url\":\"u1\"}},{\"type\":\"input_image\",\"image_url\":\"u2\"},{\"type\":\"image_url\",\"image_url\":{\"image_url\":\"u3\"}},{\"type\":\"image_url\",\"url\":\"u4\"},{\"type\":\"video\"}]},{\"role\":\"assistant\",\"content\":[{\"type\":\"image_url\",\"url\":\"no\"}]},{\"role\":\"user\",\"content\":[]}]",
    );
    assert_eq!(
        write_json(&chat_messages_to_responses_input(&messages)),
        "[{\"content\":[{\"text\":\"s\",\"type\":\"input_text\"}],\"role\":\"developer\"},{\"content\":[{\"text\":\"t\",\"type\":\"input_text\"},{\"image_url\":\"u1\",\"type\":\"input_image\"},{\"image_url\":\"u2\",\"type\":\"input_image\"},{\"image_url\":\"u3\",\"type\":\"input_image\"},{\"image_url\":\"u4\",\"type\":\"input_image\"}],\"role\":\"user\"}]"
    );
    assert_eq!(write_json(&chat_messages_to_responses_input(&Json::Null)), "[]");
}

#[test]
fn tools_and_reasoning_are_set() {
    let mut body = Json::object();
    apply_responses_web_search(&mut body, false);
    apply_responses_reasoning(&mut body, true);
    assert_eq!(write_json(&body), "{}");
    apply_responses_web_search(&mut body, true);
    apply_responses_reasoning(&mut body, false);
    assert_eq!(
        write_json(&body),
        "{\"reasoning\":{\"effort\":\"low\"},\"tool_choice\":\"auto\",\"tools\":[{\"type\":\"web_search\"}]}"
    );
    assert_eq!(write_json(&responses_tools(false)), "[]");
}

#[test]
fn texts_of_stream_events() {
    assert_eq!(response_stream_delta_text(&parsed("{\"delta\":\"d\",\"text\":\"t\"}")), Some("d".to_string()));
    assert_eq!(response_stream_delta_text(&parsed("{\"text\":\"t\"}")), Some("t".to_string()));
    assert_eq!(
        response_stream_delta_text(&parsed(
            "{\"delta\":1,\"text\":\"t\",\"item\":{\"content\":[{\"text\":\"a\"},{\"output_text\":\"b\"}]}}"
        )),
        Some("ab".to_string())
    );
    assert_eq!(response_stream_delta_text(&parsed("{\"item\":{\"content\":[]}}")), None);
    assert_eq!(response_stream_done_text(&parsed("{\"output_text\":\"o\"}")), Some("o".to_string()));
    assert_eq!(
        response_stream_done_text(&parsed("{\"response\":{\"output_text\":\"r\"}}")),
        Some("r".to_string())
    );
    assert_eq!(response_stream_done_text(&parsed("{\"x\":1}")), None);
}
