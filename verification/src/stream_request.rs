//! The requests for an answer in pieces whose body the caller brings along.

use crate::endpoint::CHAT_PATH;
use crate::json::{Json, JsonView};
use crate::provider::ModelProvider;
use crate::request::{ApiRequest, RequestView};
use crate::{endpoint, json, request, responses, text};
use vstd::prelude::*;
use vstd::string::*;

verus! {

/// The refusal of an image by the model on the device.
pub const TRANSLATION_NEEDS_CLOUD: &'static str =
    "Apple Intelligence 暂不支持图像输入,请为截图翻译配置云端 provider";

/// Whether an answer in pieces can be asked for.
pub fn check_stream_call(provider: &ModelProvider, on_device_url: &str, model: &str) -> (result:
    Result<(), String>)
    ensures
        ({
            let refused = request::refusal(
                provider.base_url@,
                on_device_url@,
                model@,
                TRANSLATION_NEEDS_CLOUD@,
            );
            match result {
                Ok(_) => refused is None,
                Err(message) => refused == Some(message@),
            }
        }),
{
    match request::refuse(&provider.base_url, on_device_url, model, TRANSLATION_NEEDS_CLOUD) {
        Some(message) => Err(message),
        None => Ok(()),
    }
}

/// The value, or the usual one where there is none.
pub open spec fn value_or(value: Option<JsonView>, usual: JsonView) -> JsonView {
    match value {
        Some(found) => found,
        None => usual,
    }
}

/// The request that sends a body for the chat API to a model of a provider. Where the provider
/// speaks the responses API, its messages and its limit are carried over to that.
pub open spec fn stream_request_view(
    base_url: Seq<char>,
    model: Seq<char>,
    body: JsonView,
) -> RequestView {
    if request::speaks_responses(base_url) {
        RequestView {
            label: "Stream chat"@,
            url: endpoint::responses_url(base_url),
            body: json::empty_object().with("model"@, JsonView::Str(model)).with(
                "input"@,
                responses::input_json(value_or(body.get("messages"@), JsonView::Null)),
            ).with("stream"@, JsonView::Bool(true)).with(
                "max_output_tokens"@,
                value_or(body.get("max_tokens"@), request::token_limit()),
            ),
            responses: true,
        }
    } else {
        RequestView {
            label: "Stream chat"@,
            url: endpoint::chat_url(base_url),
            body: body.with("model"@, JsonView::Str(model)),
            responses: false,
        }
    }
}

/// The request that sends a body for the chat API to a model of a provider.
pub fn stream_chat_request(
    provider: &ModelProvider,
    on_device_url: &str,
    model: &str,
    body: Json,
) -> (result: Result<ApiRequest, String>)
    requires
        request::refusal(
            provider.base_url@,
            on_device_url@,
            model@,
            TRANSLATION_NEEDS_CLOUD@,
        ) is None ==> body@.takes_fields(),
    ensures
        ({
            let refused = request::refusal(
                provider.base_url@,
                on_device_url@,
                model@,
                TRANSLATION_NEEDS_CLOUD@,
            );
            match result {
                Ok(request) => refused is None && request@ == stream_request_view(
                    provider.base_url@,
                    model@,
                    body@,
                ),
                Err(message) => refused == Some(message@),
            }
        }),
{
    if let Some(message) = request::refuse(
        &provider.base_url,
        on_device_url,
        model,
        TRANSLATION_NEEDS_CLOUD,
    ) {
        return Err(message);
    }
    if request::is_responses(&provider.base_url) {
        let input = match body.get("messages") {
            Some(messages) => responses::chat_messages_to_responses_input(messages),
            None => responses::chat_messages_to_responses_input(&Json::Null),
        };
        let limit = match body.get("max_tokens") {
            Some(limit) => limit.copy(),
            None => request::token_limit_json(),
        };
        return Ok(
            ApiRequest {
                label: "Stream chat".to_owned(),
                url: endpoint::responses_api_url(&provider.base_url),
                body: Json::object().with("model", Json::string(model)).with("input", input).with(
                    "stream",
                    Json::Bool(true),
                ).with("max_output_tokens", limit),
                responses: true,
            },
        );
    }
    Ok(
        ApiRequest {
            label: "Stream chat".to_owned(),
            url: endpoint::chat_completions_url(&provider.base_url),
            body: body.with("model", Json::string(model)),
            responses: false,
        },
    )
}

/// The request for a translation and its original in one answer. It always goes to the chat API
/// behind the address of the provider.
pub open spec fn combined_request_view(
    base_url: Seq<char>,
    model: Seq<char>,
    body: JsonView,
) -> RequestView {
    RequestView {
        label: "Stream translate combined"@,
        url: text::trim_end_by(base_url, text::only('/')) + CHAT_PATH@,
        body: body.with("model"@, JsonView::Str(model)),
        responses: false,
    }
}

/// The request for a translation and its original in one answer.
pub fn combined_request(
    provider: &ModelProvider,
    on_device_url: &str,
    model: &str,
    body: Json,
) -> (result: Result<ApiRequest, String>)
    requires
        request::refusal(
            provider.base_url@,
            on_device_url@,
            model@,
            TRANSLATION_NEEDS_CLOUD@,
        ) is None ==> body@.takes_fields(),
    ensures
        ({
            let refused = request::refusal(
                provider.base_url@,
                on_device_url@,
                model@,
                TRANSLATION_NEEDS_CLOUD@,
            );
            match result {
                Ok(request) => refused is None && request@ == combined_request_view(
                    provider.base_url@,
                    model@,
                    body@,
                ),
                Err(message) => refused == Some(message@),
            }
        }),
{
    if let Some(message) = request::refuse(
        &provider.base_url,
        on_device_url,
        model,
        TRANSLATION_NEEDS_CLOUD,
    ) {
        return Err(message);
    }
    let base = text::trim_end_char(&provider.base_url, '/');
    Ok(
        ApiRequest {
            label: "Stream translate combined".to_owned(),
            url: base.concat(CHAT_PATH),
            body: body.with("model", Json::string(model)),
            responses: false,
        },
    )
}

}
