//! A conversation about an image or a text: the provider that it goes to, its messages, and the
//! request that asks for the next one.

use crate::json::{Json, JsonView};
use crate::provider::{ModelProvider, Settings};
use crate::request::{ApiRequest, RequestView};
use crate::{endpoint, image, json, json_text, request, responses, text};
use vstd::prelude::*;
use vstd::string::*;

verus! {

/// The refusal of an image by the model on the device.
pub const VISION_NEEDS_CLOUD: &'static str =
    "Apple Intelligence 暂不支持图像输入,请为 Lens / 截图视觉功能配置云端 provider";

/// The message where the provider is not in the settings.
pub const NO_VISION_PROVIDER: &'static str = "Vision provider not found";

/// A message of a conversation.
#[derive(Debug, Clone)]
pub struct ExplainMessage {
    pub role: String,
    pub content: String,
}

/// A call for the next message of a conversation.
pub struct VisionCall<'a> {
    /// The messages so far.
    pub messages: &'a Vec<ExplainMessage>,
    /// The image that the conversation is about, where it is about one.
    pub image: Option<&'a [u8]>,
    /// The system prompt where it is not the default one.
    pub system_prompt_override: Option<&'a str>,
    /// The default system prompt.
    pub default_prompt: &'a str,
    /// What is put behind the system prompt to forbid thinking.
    pub no_think: &'a str,
    /// The model where it is not the one in the settings.
    pub model_override: Option<&'a str>,
    /// Whether the answer is to come in pieces.
    pub stream: bool,
    pub thinking_enabled: bool,
    pub web_search_enabled: bool,
}

/// The given text where it is not empty, else the usual one.
pub open spec fn chosen(given: Option<Seq<char>>, usual: Seq<char>) -> Seq<char> {
    match given {
        Some(own) => if own.len() > 0 {
            own
        } else {
            usual
        },
        None => usual,
    }
}

/// The given text where it is not empty, else the usual one.
fn choose_text<'a>(given: Option<&'a str>, usual: &'a str) -> (result: &'a str)
    ensures
        result@ == chosen(text::optional(given), usual@),
{
    match given {
        Some(own) => if !own.is_empty() {
            own
        } else {
            usual
        },
        None => usual,
    }
}

// ===== The provider =====

/// The provider that a conversation goes to: the one that is named, else the one for translations.
/// It must be in the settings and must not be the model on the device.
pub open spec fn conversation_provider(
    settings: Settings,
    on_device_url: Seq<char>,
    given: Option<Seq<char>>,
) -> Result<ModelProvider, Seq<char>> {
    match settings.provider(chosen(given, settings.translator_provider_id@)) {
        Some(provider) => if provider.base_url@ == on_device_url {
            Err(VISION_NEEDS_CLOUD@)
        } else {
            Ok(provider)
        },
        None => Err(NO_VISION_PROVIDER@),
    }
}

/// The provider that a conversation goes to.
pub fn vision_provider<'a>(
    settings: &'a Settings,
    on_device_url: &str,
    provider_id_override: Option<&str>,
) -> (result: Result<&'a ModelProvider, String>)
    ensures
        match result {
            Ok(provider) => conversation_provider(
                *settings,
                on_device_url@,
                text::optional(provider_id_override),
            ) == Ok::<ModelProvider, Seq<char>>(*provider),
            Err(message) => conversation_provider(
                *settings,
                on_device_url@,
                text::optional(provider_id_override),
            ) == Err::<ModelProvider, Seq<char>>(message@),
        },
{
    let id = choose_text(provider_id_override, &settings.translator_provider_id);
    match settings.get_provider(id) {
        Some(provider) => {
            if text::same_text(&provider.base_url, on_device_url) {
                Err(VISION_NEEDS_CLOUD.to_owned())
            } else {
                Ok(provider)
            }
        },
        None => Err(NO_VISION_PROVIDER.to_owned()),
    }
}

// ===== The messages =====

/// The messages of a row, as they are, for the chat API.
pub open spec fn plain_messages(messages: Seq<ExplainMessage>) -> Seq<JsonView> {
    Seq::new(
        messages.len(),
        |i: int| request::chat_message(messages[i].role@, JsonView::Str(messages[i].content@)),
    )
}

/// The messages of a conversation for the chat API: the system prompt, and then the messages, of
/// which the first one holds the image where there is one. That one is always of the user.
pub open spec fn conversation_messages(
    system: Seq<char>,
    picture: Option<Seq<u8>>,
    messages: Seq<ExplainMessage>,
) -> Seq<JsonView> {
    let start = seq![request::chat_message("system"@, JsonView::Str(system))];
    match picture {
        Some(bytes) => if messages.len() == 0 {
            start
        } else {
            start.push(request::image_message(bytes, messages[0].content@)) + plain_messages(
                messages.drop_first(),
            )
        },
        None => start + plain_messages(messages),
    }
}

/// What an optional image holds.
pub open spec fn optional_bytes(bytes: Option<&[u8]>) -> Option<Seq<u8>> {
    match bytes {
        Some(found) => Some(found@),
        None => None,
    }
}

/// Appends the messages from the position `from` on to a row.
fn push_messages(items: &mut Vec<Json>, messages: &Vec<ExplainMessage>, from: usize)
    requires
        from <= messages@.len(),
    ensures
        json::items_view(final(items)@) == json::items_view(old(items)@) + plain_messages(
            messages@.skip(from as int),
        ),
{
    let ghost rest = plain_messages(messages@.skip(from as int));
    let ghost before = json::items_view(items@);
    assert(before =~= before + rest.take(0));
    let mut i: usize = from;
    while i < messages.len()
        invariant
            from <= i <= messages@.len(),
            rest == plain_messages(messages@.skip(from as int)),
            json::items_view(items@) == before + rest.take(i - from),
        decreases messages@.len() - i,
    {
        let ghost items_before = items@;
        let message = request::chat_message_json(
            &messages[i].role,
            Json::string(&messages[i].content),
        );
        items.push(message);
        proof {
            assert(rest[i - from] == message@);
            assert(json::items_view(items@) =~= json::items_view(items_before).push(message@));
            assert(rest.take(i + 1 - from) =~= rest.take(i - from).push(message@));
            assert(before + rest.take(i + 1 - from) =~= (before + rest.take(i - from)).push(
                message@,
            ));
        }
        i = i + 1;
    }
    assert(rest.take(rest.len() as int) =~= rest);
}

/// The messages of a conversation for the chat API.
fn conversation_items(system: &str, picture: Option<&[u8]>, messages: &Vec<ExplainMessage>) -> (result:
    Vec<Json>)
    requires
        picture matches Some(bytes) ==> image::encodable(bytes@.len() as int),
    ensures
        json::items_view(result@) == conversation_messages(
            system@,
            optional_bytes(picture),
            messages@,
        ),
{
    let mut items: Vec<Json> = Vec::new();
    items.push(request::chat_message_json("system", Json::string(system)));
    let ghost start = seq![request::chat_message("system"@, JsonView::Str(system@))];
    assert(json::items_view(items@) =~= start);
    match picture {
        Some(bytes) => {
            if messages.len() > 0 {
                let first = request::image_message_json(bytes, &messages[0].content);
                let ghost before = items@;
                items.push(first);
                assert(json::items_view(items@) =~= start.push(first@));
                push_messages(&mut items, messages, 1);
                assert(messages@.skip(1) =~= messages@.drop_first());
            }
        },
        None => {
            push_messages(&mut items, messages, 0);
            assert(messages@.skip(0) =~= messages@);
        },
    }
    items
}

// ===== The request =====

impl<'a> VisionCall<'a> {
    /// The system prompt, with what forbids thinking where it is not wanted.
    pub open spec fn system_prompt(self) -> Seq<char> {
        let base = chosen(text::optional(self.system_prompt_override), self.default_prompt@);
        if self.thinking_enabled {
            base
        } else {
            base + self.no_think@
        }
    }

    /// The messages for the chat API.
    pub open spec fn chat_messages(self) -> Seq<JsonView> {
        conversation_messages(
            self.system_prompt(),
            optional_bytes(self.image),
            self.messages@,
        )
    }
}

/// A request for an answer in pieces where that is wanted.
pub open spec fn with_stream(body: JsonView, stream: bool) -> JsonView {
    if stream {
        body.with("stream"@, JsonView::Bool(true))
    } else {
        body
    }
}

/// The request for the next message of a conversation with `model` of a provider.
pub open spec fn vision_request_view(
    base_url: Seq<char>,
    model: Seq<char>,
    call: VisionCall,
) -> RequestView {
    if request::speaks_responses(base_url) {
        let body = json::empty_object().with("model"@, JsonView::Str(model)).with(
            "input"@,
            responses::input_json(JsonView::Array(call.chat_messages())),
        ).with("max_output_tokens"@, request::token_limit());
        RequestView {
            label: "Vision API"@,
            url: endpoint::responses_url(base_url),
            body: with_stream(
                responses::with_reasoning(
                    responses::with_web_search(body, call.web_search_enabled),
                    call.thinking_enabled,
                ),
                call.stream,
            ),
            responses: true,
        }
    } else {
        let body = json::empty_object().with("model"@, JsonView::Str(model)).with(
            "messages"@,
            JsonView::Array(call.chat_messages()),
        ).with("temperature"@, json_text::number_json("0.7"@)).with(
            "max_tokens"@,
            request::token_limit(),
        );
        RequestView {
            label: "Vision API"@,
            url: endpoint::chat_url(base_url),
            body: request::with_thinking(with_stream(body, call.stream), call.thinking_enabled),
            responses: false,
        }
    }
}

/// The request for the next message of a conversation. A model must be selected, for the call or in
/// the settings.
pub fn vision_request(settings: &Settings, provider: &ModelProvider, call: &VisionCall) -> (result:
    Result<ApiRequest, String>)
    requires
        call.image matches Some(bytes) ==> image::encodable(bytes@.len() as int),
    ensures
        ({
            let model = chosen(text::optional(call.model_override), settings.translator_model@);
            match result {
                Ok(request) => request::is_selected(model) && request@ == vision_request_view(
                    provider.base_url@,
                    model,
                    *call,
                ),
                Err(message) => !request::is_selected(model) && message@ == request::NO_MODEL@,
            }
        }),
{
    let base = choose_text(call.system_prompt_override, call.default_prompt);
    let system = if call.thinking_enabled {
        base.to_owned()
    } else {
        base.to_owned().concat(call.no_think)
    };
    let messages = Json::array(conversation_items(&system, call.image, call.messages));
    let model = choose_text(call.model_override, &settings.translator_model);
    if !request::model_is_selected(model) {
        return Err(request::NO_MODEL.to_owned());
    }
    if request::is_responses(&provider.base_url) {
        let mut body = Json::object().with("model", Json::string(model)).with(
            "input",
            responses::chat_messages_to_responses_input(&messages),
        ).with("max_output_tokens", request::token_limit_json());
        responses::apply_responses_web_search(&mut body, call.web_search_enabled);
        responses::apply_responses_reasoning(&mut body, call.thinking_enabled);
        if call.stream {
            body.set("stream", Json::Bool(true));
        }
        return Ok(
            ApiRequest {
                label: "Vision API".to_owned(),
                url: endpoint::responses_api_url(&provider.base_url),
                body,
                responses: true,
            },
        );
    }
    let mut body = Json::object().with("model", Json::string(model)).with(
        "messages",
        messages,
    ).with("temperature", request::high_temperature_json()).with(
        "max_tokens",
        request::token_limit_json(),
    );
    if call.stream {
        body.set("stream", Json::Bool(true));
    }
    Ok(
        ApiRequest {
            label: "Vision API".to_owned(),
            url: endpoint::chat_completions_url(&provider.base_url),
            body: request::forbid_thinking(body, call.thinking_enabled),
            responses: false,
        },
    )
}

}
