//! The requests to a provider: when one is refused before it is sent, where it goes, and what it
//! asks. This module has the calls about one text or one image.

use crate::endpoint::ModelEndpointKind;
use crate::json::{Json, JsonView};
use crate::provider::ModelProvider;
use crate::{endpoint, image, json, json_text, responses, text};
use vstd::prelude::*;
use vstd::string::*;

verus! {

/// The refusal of an image by the model on the device, where its text is to be read.
pub const READING_NEEDS_CLOUD: &'static str =
    "Apple Intelligence 暂不支持图像输入,请为截图/视觉功能配置云端 provider";

/// The message where no model is selected.
pub const NO_MODEL: &'static str = "Please select a model first";

/// A request to a provider.
#[derive(Debug)]
pub struct ApiRequest {
    /// What the messages about the request call it.
    pub label: String,
    /// The address it is sent to.
    pub url: String,
    /// What it asks.
    pub body: Json,
    /// Whether it speaks the responses API.
    pub responses: bool,
}

/// What a request to a provider is.
pub struct RequestView {
    pub label: Seq<char>,
    pub url: Seq<char>,
    pub body: JsonView,
    pub responses: bool,
}

impl View for ApiRequest {
    type V = RequestView;

    open spec fn view(&self) -> RequestView {
        RequestView {
            label: self.label@,
            url: self.url@,
            body: self.body@,
            responses: self.responses,
        }
    }
}

// ===== Parts of a body =====

/// The part of a message that is an image, for the chat API.
pub open spec fn image_item(address: Seq<char>) -> JsonView {
    json::empty_object().with("type"@, JsonView::Str("image_url"@)).with(
        "image_url"@,
        json::empty_object().with("url"@, JsonView::Str(address)),
    )
}

/// The part of a message that is a text, for the chat API.
pub open spec fn text_item(content: Seq<char>) -> JsonView {
    responses::typed_part("text"@, "text"@, content)
}

/// A message of a role, for the chat API.
pub open spec fn chat_message(role: Seq<char>, content: JsonView) -> JsonView {
    json::empty_object().with("role"@, JsonView::Str(role)).with("content"@, content)
}

/// The message of the user that holds an image and then a text, for the chat API.
pub open spec fn image_message(bytes: Seq<u8>, prompt: Seq<char>) -> JsonView {
    chat_message(
        "user"@,
        JsonView::Array(seq![image_item(image::image_address(bytes)), text_item(prompt)]),
    )
}

/// A chat request that forbids thinking where it is not wanted.
pub open spec fn with_thinking(body: JsonView, thinking_enabled: bool) -> JsonView {
    if thinking_enabled {
        body
    } else {
        body.with("thinking"@, json::empty_object().with("type"@, JsonView::Str("disabled"@)))
    }
}

/// The greatest length of an answer, in tokens.
pub open spec fn token_limit() -> JsonView {
    json_text::number_json("2000"@)
}

/// The greatest length of an answer, in tokens.
pub(crate) fn token_limit_json() -> (result: Json)
    ensures
        result@ == token_limit(),
{
    proof {
        reveal_strlit("2000");
    }
    json_text::number("2000")
}

/// The temperature for tasks with one right answer.
fn low_temperature_json() -> (result: Json)
    ensures
        result@ == json_text::number_json("0.2"@),
{
    proof {
        reveal_strlit("0.2");
        assert("0.2"@[1] == '.');
    }
    json_text::number("0.2")
}

/// The temperature for reading an image, which is to give the same text each time.
fn zero_temperature_json() -> (result: Json)
    ensures
        result@ == json_text::number_json("0"@),
{
    proof {
        reveal_strlit("0");
    }
    json_text::number("0")
}

/// The temperature for conversations.
pub(crate) fn high_temperature_json() -> (result: Json)
    ensures
        result@ == json_text::number_json("0.7"@),
{
    proof {
        reveal_strlit("0.7");
        assert("0.7"@[1] == '.');
    }
    json_text::number("0.7")
}

/// An array of one value.
fn one_item(item: Json) -> (result: Json)
    ensures
        result@ == JsonView::Array(seq![item@]),
{
    let mut items: Vec<Json> = Vec::new();
    items.push(item);
    assert(json::items_view(items@) =~= seq![item@]);
    Json::array(items)
}

/// An array of two values.
fn two_items(first: Json, second: Json) -> (result: Json)
    ensures
        result@ == JsonView::Array(seq![first@, second@]),
{
    let mut items: Vec<Json> = Vec::new();
    items.push(first);
    items.push(second);
    assert(json::items_view(items@) =~= seq![first@, second@]);
    Json::array(items)
}

/// A message of a role, for the chat API.
pub(crate) fn chat_message_json(role: &str, content: Json) -> (result: Json)
    ensures
        result@ == chat_message(role@, content@),
{
    Json::object().with("role", Json::string(role)).with("content", content)
}

/// The message of the user that holds an image and then a text, for the chat API.
pub(crate) fn image_message_json(bytes: &[u8], prompt: &str) -> (result: Json)
    requires
        image::encodable(bytes@.len() as int),
    ensures
        result@ == image_message(bytes@, prompt@),
{
    let address = image::png_address(bytes);
    let picture = Json::object().with("type", Json::string("image_url")).with(
        "image_url",
        Json::object().with("url", Json::string(&address)),
    );
    let words = Json::object().with("type", Json::string("text")).with(
        "text",
        Json::string(prompt),
    );
    chat_message_json("user", two_items(picture, words))
}

/// A chat request that forbids thinking where it is not wanted.
pub(crate) fn forbid_thinking(body: Json, thinking_enabled: bool) -> (result: Json)
    requires
        body@.takes_fields(),
    ensures
        result@ == with_thinking(body@, thinking_enabled),
{
    if thinking_enabled {
        body
    } else {
        body.with("thinking", Json::object().with("type", Json::string("disabled")))
    }
}

/// Whether a provider speaks the responses API.
pub open spec fn speaks_responses(base_url: Seq<char>) -> bool {
    endpoint::endpoint_kind(base_url) == ModelEndpointKind::Responses
}

/// Whether a provider speaks the responses API.
pub(crate) fn is_responses(base_url: &str) -> (result: bool)
    ensures
        result == speaks_responses(base_url@),
{
    endpoint::provider_endpoint_kind(base_url) == ModelEndpointKind::Responses
}

/// Whether a model is selected.
pub open spec fn is_selected(model: Seq<char>) -> bool {
    text::trim(model).len() > 0
}

/// Whether a model is selected.
pub(crate) fn model_is_selected(model: &str) -> (result: bool)
    ensures
        result == is_selected(model@),
{
    !text::trim_text(model).as_str().is_empty()
}

// ===== A text for a text =====

/// How a text is answered: by the model on the device, or by a provider.
#[derive(Debug)]
pub enum TextPlan {
    OnDevice,
    Send(ApiRequest),
}

/// The request that asks for an answer to a text.
pub open spec fn text_request(
    base_url: Seq<char>,
    model: Seq<char>,
    prompt: Seq<char>,
    thinking_enabled: bool,
) -> RequestView {
    if speaks_responses(base_url) {
        RequestView {
            label: "OpenAI Responses"@,
            url: endpoint::responses_url(base_url),
            body: responses::with_reasoning(
                json::empty_object().with("model"@, JsonView::Str(model)).with(
                    "input"@,
                    JsonView::Array(seq![responses::text_message("user"@, prompt)]),
                ).with("max_output_tokens"@, token_limit()),
                thinking_enabled,
            ),
            responses: true,
        }
    } else {
        RequestView {
            label: "OpenAI API"@,
            url: endpoint::chat_url(base_url),
            body: with_thinking(
                json::empty_object().with("model"@, JsonView::Str(model)).with(
                    "messages"@,
                    JsonView::Array(seq![chat_message("user"@, JsonView::Str(prompt))]),
                ).with("temperature"@, json_text::number_json("0.2"@)),
                thinking_enabled,
            ),
            responses: false,
        }
    }
}

/// How a text is answered. The model on the device, which has the address `on_device_url`, needs
/// nothing further; of a provider a model must be selected.
pub fn plan_text_call(
    config: &ModelProvider,
    on_device_url: &str,
    model: &str,
    prompt: &str,
    thinking_enabled: bool,
) -> (result: Result<TextPlan, String>)
    ensures
        match result {
            Ok(TextPlan::OnDevice) => config.base_url@ == on_device_url@,
            Ok(TextPlan::Send(request)) => config.base_url@ != on_device_url@ && is_selected(model@)
                && request@ == text_request(config.base_url@, model@, prompt@, thinking_enabled),
            Err(message) => config.base_url@ != on_device_url@ && !is_selected(model@) && message@
                == NO_MODEL@,
        },
{
    if text::same_text(&config.base_url, on_device_url) {
        return Ok(TextPlan::OnDevice);
    }
    if !model_is_selected(model) {
        return Err(NO_MODEL.to_owned());
    }
    if is_responses(&config.base_url) {
        let mut body = Json::object().with("model", Json::string(model)).with(
            "input",
            one_item(responses::responses_text_message("user", prompt)),
        ).with("max_output_tokens", token_limit_json());
        responses::apply_responses_reasoning(&mut body, thinking_enabled);
        return Ok(
            TextPlan::Send(
                ApiRequest {
                    label: "OpenAI Responses".to_owned(),
                    url: endpoint::responses_api_url(&config.base_url),
                    body,
                    responses: true,
                },
            ),
        );
    }
    let body = Json::object().with("model", Json::string(model)).with(
        "messages",
        one_item(chat_message_json("user", Json::string(prompt))),
    ).with("temperature", low_temperature_json());
    Ok(
        TextPlan::Send(
            ApiRequest {
                label: "OpenAI API".to_owned(),
                url: endpoint::chat_completions_url(&config.base_url),
                body: forbid_thinking(body, thinking_enabled),
                responses: false,
            },
        ),
    )
}

// ===== The text of an image =====

/// The message with which a call that needs a provider is refused: its own one where it would go to
/// the model on the device, else the one that no model is selected, where that is so.
pub open spec fn refusal(
    base_url: Seq<char>,
    on_device_url: Seq<char>,
    model: Seq<char>,
    needs_cloud: Seq<char>,
) -> Option<Seq<char>> {
    if base_url == on_device_url {
        Some(needs_cloud)
    } else if !is_selected(model) {
        Some(NO_MODEL@)
    } else {
        None
    }
}

/// The message with which a call that needs a provider is refused.
pub(crate) fn refuse(
    base_url: &str,
    on_device_url: &str,
    model: &str,
    needs_cloud: &str,
) -> (result: Option<String>)
    ensures
        match result {
            Some(message) => refusal(base_url@, on_device_url@, model@, needs_cloud@) == Some(
                message@,
            ),
            None => refusal(base_url@, on_device_url@, model@, needs_cloud@) is None,
        },
{
    if text::same_text(base_url, on_device_url) {
        Some(needs_cloud.to_owned())
    } else if !model_is_selected(model) {
        Some(NO_MODEL.to_owned())
    } else {
        None
    }
}

/// Whether the text of an image can be asked for; this is found out before the image is read.
pub fn check_ocr_call(config: &ModelProvider, on_device_url: &str, model: &str) -> (result: Result<
    (),
    String,
>)
    ensures
        match result {
            Ok(_) => refusal(
                config.base_url@,
                on_device_url@,
                model@,
                READING_NEEDS_CLOUD@,
            ) is None,
            Err(message) => refusal(
                config.base_url@,
                on_device_url@,
                model@,
                READING_NEEDS_CLOUD@,
            ) == Some(message@),
        },
{
    match refuse(&config.base_url, on_device_url, model, READING_NEEDS_CLOUD) {
        Some(message) => Err(message),
        None => Ok(()),
    }
}

/// The request that asks for the text of an image.
pub open spec fn ocr_request_view(
    base_url: Seq<char>,
    model: Seq<char>,
    bytes: Seq<u8>,
    prompt: Seq<char>,
    thinking_enabled: bool,
) -> RequestView {
    if speaks_responses(base_url) {
        RequestView {
            label: "OpenAI OCR"@,
            url: endpoint::responses_url(base_url),
            body: responses::with_reasoning(
                json::empty_object().with("model"@, JsonView::Str(model)).with(
                    "input"@,
                    JsonView::Array(
                        seq![
                            responses::message_json(
                                "user"@,
                                seq![
                                    responses::image_part(image::image_address(bytes)),
                                    responses::typed_part("input_text"@, "text"@, prompt),
                                ],
                            ),
                        ],
                    ),
                ).with("max_output_tokens"@, token_limit()),
                thinking_enabled,
            ),
            responses: true,
        }
    } else {
        RequestView {
            label: "OpenAI OCR"@,
            url: endpoint::chat_url(base_url),
            body: with_thinking(
                json::empty_object().with("model"@, JsonView::Str(model)).with(
                    "messages"@,
                    JsonView::Array(seq![image_message(bytes, prompt)]),
                ).with("temperature"@, json_text::number_json("0"@)).with(
                    "max_tokens"@,
                    token_limit(),
                ),
                thinking_enabled,
            ),
            responses: false,
        }
    }
}

/// The request that asks for the text of an image.
pub fn ocr_request(
    config: &ModelProvider,
    model: &str,
    bytes: &[u8],
    prompt: &str,
    thinking_enabled: bool,
) -> (result: ApiRequest)
    requires
        image::encodable(bytes@.len() as int),
    ensures
        result@ == ocr_request_view(
            config.base_url@,
            model@,
            bytes@,
            prompt@,
            thinking_enabled,
        ),
{
    if is_responses(&config.base_url) {
        let address = image::png_address(bytes);
        let parts = two_items(
            responses::responses_input_image(&address),
            responses::responses_input_text(prompt),
        );
        let mut body = Json::object().with("model", Json::string(model)).with(
            "input",
            one_item(Json::object().with("role", Json::string("user")).with("content", parts)),
        ).with("max_output_tokens", token_limit_json());
        responses::apply_responses_reasoning(&mut body, thinking_enabled);
        return ApiRequest {
            label: "OpenAI OCR".to_owned(),
            url: endpoint::responses_api_url(&config.base_url),
            body,
            responses: true,
        };
    }
    let body = Json::object().with("model", Json::string(model)).with(
        "messages",
        one_item(image_message_json(bytes, prompt)),
    ).with("temperature", zero_temperature_json()).with("max_tokens", token_limit_json());
    ApiRequest {
        label: "OpenAI OCR".to_owned(),
        url: endpoint::chat_completions_url(&config.base_url),
        body: forbid_thinking(body, thinking_enabled),
        responses: false,
    }
}

/// What a stream about an image asks. The model is set where it is sent.
pub open spec fn ocr_body(bytes: Seq<u8>, prompt: Seq<char>, thinking_enabled: bool) -> JsonView {
    with_thinking(
        json::empty_object().with(
            "messages"@,
            JsonView::Array(seq![image_message(bytes, prompt)]),
        ).with("temperature"@, json_text::number_json("0.2"@)).with(
            "max_tokens"@,
            token_limit(),
        ).with("stream"@, JsonView::Bool(true)),
        thinking_enabled,
    )
}

/// What a stream about an image asks. The model is set where it is sent.
pub fn build_ocr_request_body(bytes: &[u8], prompt: &str, thinking_enabled: bool) -> (result: Json)
    requires
        image::encodable(bytes@.len() as int),
    ensures
        result@ == ocr_body(bytes@, prompt@, thinking_enabled),
{
    let body = Json::object().with(
        "messages",
        one_item(image_message_json(bytes, prompt)),
    ).with("temperature", low_temperature_json()).with("max_tokens", token_limit_json()).with(
        "stream",
        Json::Bool(true),
    );
    forbid_thinking(body, thinking_enabled)
}

}
