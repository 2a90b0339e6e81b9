use kivio_core::conversation::{
    vision_provider, vision_request, ExplainMessage, VisionCall, NO_VISION_PROVIDER,
    VISION_NEEDS_CLOUD,
};
use kivio_core::endpoint::{provider_endpoint_kind, ModelEndpointKind};
use kivio_core::json::Json;
use kivio_core::json_text::{read_json, write_json};
use kivio_core::provider::{ModelProvider, Settings};
use kivio_core::request::{
    build_ocr_request_body, check_ocr_call, ocr_request, plan_text_call, ApiRequest, TextPlan,
    NO_MODEL, READING_NEEDS_CLOUD,
};
use kivio_core::stream_request::{
    combined_request, stream_chat_request, TRANSLATION_NEEDS_CLOUD,
};

const ON_DEVICE: &str = "apple-intelligence://local";
const CHAT: &str = "https://h/v1/";
const RESPONSES: &str = "https://h/v1/responses";

fn provider(base_url: &str) -> ModelProvider {
    ModelProvider {
        id: "p".to_string(),
        base_url: base_url.to_string(),
        api_keys: vec!["k".to_string()],
    }
}

fn settings(base_url: &str, model: &str) -> Settings {
    Settings {
        providers: vec![provider(base_url)],
        retry_enabled: false,
        retry_attempts: 0,
        translator_provider_id: "p".to_string(),
        translator_model: model.to_string(),
    }
}

fn sent(plan: Result<TextPlan, String>) -> ApiRequest {
    match plan {
        Ok(TextPlan::Send(request)) => request,
        _ => panic!("not sent"),
    }
}

fn message(role: &str, content: &str) -> ExplainMessage {
    ExplainMessage { role: role.to_string(), content: content.to_string() }
}

fn parsed(text: &str) -> Json {
    read_json(text).unwrap_or_else(|e| panic!("{}", e))
}

#[test]
fn a_text_is_sent_to_the_chat_api() {
    let request = sent(plan_text_call(&provider(CHAT), ON_DEVICE, "m", "hello", true));
    assert_eq!(request.label, "OpenAI API");
    assert_eq!(request.url, "https://h/v1/chat/completions");
    assert!(!request.responses);
    assert_eq!(
        write_json(&request.body),
        "{\"messages\":[{\"content\":\"hello\",\"role\":\"user\"}],\"model\":\"m\",\"temperature\":0.2}"
    );
    let request = sent(plan_text_call(&provider(CHAT), ON_DEVICE, "m", "hello", false));
    assert_eq!(
        write_json(&request.body),
        "{\"messages\":[{\"content\":\"hello\",\"role\":\"user\"}],\"model\":\"m\",\"temperature\":0.2,\"thinking\":{\"type\":\"disabled\"}}"
    );
}

#[test]
fn a_text_is_sent_to_the_responses_api() {
    let request = sent(plan_text_call(&provider(RESPONSES), ON_DEVICE, "m", "hello", false));
    assert_eq!(request.label, "OpenAI Responses");
    assert_eq!(request.url, "https://h/v1/responses");
    assert!(request.responses);
    assert_eq!(
        write_json(&request.body),
        "{\"input\":[{\"content\":[{\"text\":\"hello\",\"type\":\"input_text\"}],\"role\":\"user\"}],\"max_output_tokens\":2000,\"model\":\"m\",\"reasoning\":{\"effort\":\"low\"}}"
    );
}

#[test]
fn a_text_can_stay_on_the_device() {
    let plan = plan_text_call(&provider(ON_DEVICE), ON_DEVICE, "", "hello", true);
    assert!(matches!(plan, Ok(TextPlan::OnDevice)));
}

#[test]
fn a_model_must_be_selected() {
    let plan = plan_text_call(&provider(CHAT), ON_DEVICE, " \n", "hello", true);
    assert_eq!(plan.err(), Some(NO_MODEL.to_string()));
    assert_eq!(check_ocr_call(&provider(CHAT), ON_DEVICE, ""), Err(NO_MODEL.to_string()));
    assert_eq!(check_ocr_call(&provider(CHAT), ON_DEVICE, "m"), Ok(()));
    assert_eq!(
        check_ocr_call(&provider(ON_DEVICE), ON_DEVICE, ""),
        Err(READING_NEEDS_CLOUD.to_string())
    );
    let refused = stream_chat_request(&provider(CHAT), ON_DEVICE, "", Json::Null);
    assert_eq!(refused.err(), Some(NO_MODEL.to_string()));
    let refused = stream_chat_request(&provider(ON_DEVICE), ON_DEVICE, "", Json::Null);
    assert_eq!(refused.err(), Some(TRANSLATION_NEEDS_CLOUD.to_string()));
    let refused = combined_request(&provider(ON_DEVICE), ON_DEVICE, "m", Json::Null);
    assert_eq!(refused.err(), Some(TRANSLATION_NEEDS_CLOUD.to_string()));
    let refused = combined_request(&provider(CHAT), ON_DEVICE, "\t", Json::Null);
    assert_eq!(refused.err(), Some(NO_MODEL.to_string()));
}

#[test]
fn the_text_of_an_image_is_asked_for() {
    let request = ocr_request(&provider(CHAT), "m", b"foo", "read", false);
    assert_eq!(request.label, "OpenAI OCR");
    assert_eq!(request.url, "https://h/v1/chat/completions");
    assert_eq!(
        write_json(&request.body),
        "{\"max_tokens\":2000,\"messages\":[{\"content\":[{\"image_url\":{\"url\":\"data:image/png;base64,Zm9v\"},\"type\":\"image_url\"},{\"text\":\"read\",\"type\":\"text\"}],\"role\":\"user\"}],\"model\":\"m\",\"temperature\":0,\"thinking\":{\"type\":\"disabled\"}}"
    );
    let request = ocr_request(&provider(RESPONSES), "m", b"foo", "read", true);
    assert_eq!(request.label, "OpenAI OCR");
    assert!(request.responses);
    assert_eq!(
        write_json(&request.body),
        "{\"input\":[{\"content\":[{\"image_url\":\"data:image/png;base64,Zm9v\",\"type\":\"input_image\"},{\"text\":\"read\",\"type\":\"input_text\"}],\"role\":\"user\"}],\"max_output_tokens\":2000,\"model\":\"m\"}"
    );
}

#[test]
fn an_image_is_read_at_temperature_zero() {
    let request = ocr_request(&provider("https://api.example.com/v1"), "m", b"Man", "read", true);
    assert_eq!(
        write_json(&request.body),
        "{\"max_tokens\":2000,\"messages\":[{\"content\":[{\"image_url\":{\"url\":\"data:image/png;base64,TWFu\"},\"type\":\"image_url\"},{\"text\":\"read\",\"type\":\"text\"}],\"role\":\"user\"}],\"model\":\"m\",\"temperature\":0}"
    );
}

#[test]
fn the_body_of_an_image_stream_has_no_model() {
    let body = build_ocr_request_body(b"foo", "read", true);
    assert_eq!(
        write_json(&body),
        "{\"max_tokens\":2000,\"messages\":[{\"content\":[{\"image_url\":{\"url\":\"data:image/png;base64,Zm9v\"},\"type\":\"image_url\"},{\"text\":\"read\",\"type\":\"text\"}],\"role\":\"user\"}],\"stream\":true,\"temperature\":0.2}"
    );
    let body = build_ocr_request_body(b"foo", "read", false);
    assert_eq!(body.get("thinking").and_then(|t| t.text_at("type")), Some("disabled"));
}

#[test]
fn a_stream_carries_its_body_over() {
    let body = build_ocr_request_body(b"foo", "read", false);
    let request = stream_chat_request(&provider(RESPONSES), ON_DEVICE, "m", body);
    let request = request.unwrap_or_else(|e| panic!("{}", e));
    assert_eq!(request.label, "Stream chat");
    assert_eq!(request.url, "https://h/v1/responses");
    assert_eq!(
        write_json(&request.body),
        "{\"input\":[{\"content\":[{\"image_url\":\"data:image/png;base64,Zm9v\",\"type\":\"input_image\"},{\"text\":\"read\",\"type\":\"input_text\"}],\"role\":\"user\"}],\"max_output_tokens\":2000,\"model\":\"m\",\"stream\":true}"
    );
    let request = stream_chat_request(&provider(RESPONSES), ON_DEVICE, "m", Json::Null);
    let request = request.unwrap_or_else(|e| panic!("{}", e));
    assert_eq!(
        write_json(&request.body),
        "{\"input\":[],\"max_output_tokens\":2000,\"model\":\"m\",\"stream\":true}"
    );
    let body = parsed("{\"max_tokens\":77,\"model\":\"other\",\"x\":1}");
    let request = stream_chat_request(&provider(CHAT), ON_DEVICE, "m", body);
    let request = request.unwrap_or_else(|e| panic!("{}", e));
    assert_eq!(request.url, "https://h/v1/chat/completions");
    assert_eq!(write_json(&request.body), "{\"max_tokens\":77,\"model\":\"m\",\"x\":1}");
    let body = parsed("{\"max_tokens\":77}");
    let request = stream_chat_request(&provider(RESPONSES), ON_DEVICE, "m", body);
    let request = request.unwrap_or_else(|e| panic!("{}", e));
    assert_eq!(
        write_json(&request.body),
        "{\"input\":[],\"max_output_tokens\":77,\"model\":\"m\",\"stream\":true}"
    );
}

#[test]
fn a_combined_translation_always_goes_to_the_chat_path() {
    for (base, url) in [
        ("https://h/v1//", "https://h/v1/chat/completions"),
        ("https://h/v1/responses", "https://h/v1/responses/chat/completions"),
        ("https://h/v1 ", "https://h/v1 /chat/completions"),
    ] {
        let request = combined_request(&provider(base), ON_DEVICE, "m", Json::object());
        let request = request.unwrap_or_else(|e| panic!("{}", e));
        assert_eq!(request.label, "Stream translate combined");
        assert_eq!(request.url, url);
        assert_eq!(write_json(&request.body), "{\"model\":\"m\"}");
        assert!(!request.responses);
        assert_eq!(provider_endpoint_kind(&request.url), ModelEndpointKind::ChatCompletions);
    }
}

#[test]
fn a_conversation_goes_to_its_provider() {
    let some = settings(CHAT, "m");
    assert!(vision_provider(&some, ON_DEVICE, None).is_ok());
    assert!(vision_provider(&some, ON_DEVICE, Some("")).is_ok());
    assert!(vision_provider(&some, ON_DEVICE, Some("p")).is_ok());
    assert_eq!(
        vision_provider(&some, ON_DEVICE, Some("q")).err(),
        Some(NO_VISION_PROVIDER.to_string())
    );
    let local = settings(ON_DEVICE, "m");
    assert_eq!(
        vision_provider(&local, ON_DEVICE, None).err(),
        Some(VISION_NEEDS_CLOUD.to_string())
    );
}

#[test]
fn a_conversation_about_an_image() {
    let messages = vec![
        message("assistant", "what is this"),
        message("assistant", "a cat"),
        message("user", "sure?"),
    ];
    let some = settings(CHAT, "m");
    let call = VisionCall {
        messages: &messages,
        image: Some(b"foo"),
        system_prompt_override: Some("be brief"),
        default_prompt: "default",
        no_think: " /no_think",
        model_override: Some(""),
        stream: true,
        thinking_enabled: false,
        web_search_enabled: true,
    };
    let request = vision_request(&some, &some.providers[0], &call);
    let request = request.unwrap_or_else(|e| panic!("{}", e));
    assert_eq!(request.label, "Vision API");
    assert_eq!(
        write_json(&request.body),
        "{\"max_tokens\":2000,\"messages\":[{\"content\":\"be brief /no_think\",\"role\":\"system\"},{\"content\":[{\"image_url\":{\"url\":\"data:image/png;base64,Zm9v\"},\"type\":\"image_url\"},{\"text\":\"what is this\",\"type\":\"text\"}],\"role\":\"user\"},{\"content\":\"a cat\",\"role\":\"assistant\"},{\"content\":\"sure?\",\"role\":\"user\"}],\"model\":\"m\",\"stream\":true,\"temperature\":0.7,\"thinking\":{\"type\":\"disabled\"}}"
    );
    let request = vision_request(&some, &provider(RESPONSES), &call);
    let request = request.unwrap_or_else(|e| panic!("{}", e));
    assert_eq!(
        write_json(&request.body),
        "{\"input\":[{\"content\":[{\"text\":\"be brief /no_think\",\"type\":\"input_text\"}],\"role\":\"developer\"},{\"content\":[{\"image_url\":\"data:image/png;base64,Zm9v\",\"type\":\"input_image\"},{\"text\":\"what is this\",\"type\":\"input_text\"}],\"role\":\"user\"},{\"content\":[{\"text\":\"a cat\",\"type\":\"output_text\"}],\"role\":\"assistant\"},{\"content\":[{\"text\":\"sure?\",\"type\":\"input_text\"}],\"role\":\"user\"}],\"max_output_tokens\":2000,\"model\":\"m\",\"reasoning\":{\"effort\":\"low\"},\"stream\":true,\"tool_choice\":\"auto\",\"tools\":[{\"type\":\"web_search\"}]}"
    );
}

#[test]
fn a_conversation_about_a_text() {
    let messages = vec![message("user", "hi")];
    let some = settings(CHAT, " ");
    let mut call = VisionCall {
        messages: &messages,
        image: None,
        system_prompt_override: None,
        default_prompt: "default",
        no_think: " /no_think",
        model_override: None,
        stream: false,
        thinking_enabled: true,
        web_search_enabled: false,
    };
    let refused = vision_request(&some, &some.providers[0], &call);
    assert_eq!(refused.err(), Some(NO_MODEL.to_string()));
    call.model_override = Some("own");
    let request = vision_request(&some, &some.providers[0], &call);
    let request = request.unwrap_or_else(|e| panic!("{}", e));
    assert_eq!(
        write_json(&request.body),
        "{\"max_tokens\":2000,\"messages\":[{\"content\":\"default\",\"role\":\"system\"},{\"content\":\"hi\",\"role\":\"user\"}],\"model\":\"own\",\"temperature\":0.7}"
    );
    let none: Vec<ExplainMessage> = vec![];
    call.messages = &none;
    call.image = Some(b"foo");
    let request = vision_request(&some, &some.providers[0], &call);
    let request = request.unwrap_or_else(|e| panic!("{}", e));
    assert_eq!(request.body.items_at("messages").map(|m| m.len()), Some(1));
}
