//! What the requests to a provider are, field by field.

use crate::endpoint::ModelEndpointKind;
use crate::json::JsonView;
use crate::request::{ApiRequest, RequestView};
use crate::sse::{Emission, EmissionView};
use crate::{
    endpoint, image, json_laws, json_text, request, responses, responses_laws, sse, stream_request,
    text, text_laws,
};
use vstd::prelude::*;
use vstd::string::*;

verus! {

// ===== Parts of messages =====

/// A string value.
pub open spec fn string(s: Seq<char>) -> JsonView {
    JsonView::Str(s)
}

/// The parts and messages of both APIs, with all their fields.
pub proof fn law_parts_have_these_fields(
    role: Seq<char>,
    content: JsonView,
    s: Seq<char>,
    bytes: Seq<u8>,
    parts: Seq<JsonView>,
)
    ensures
        request::chat_message(role, content) == JsonView::Object(
            map!["role"@ => string(role), "content"@ => content],
        ),
        request::image_item(s) == JsonView::Object(
            map![
                "type"@ => string("image_url"@),
                "image_url"@ => JsonView::Object(map!["url"@ => string(s)]),
            ],
        ),
        request::text_item(s) == JsonView::Object(
            map!["type"@ => string("text"@), "text"@ => string(s)],
        ),
        request::image_message(bytes, s) == JsonView::Object(
            map![
                "role"@ => string("user"@),
                "content"@ => JsonView::Array(
                    seq![
                        request::image_item("data:image/png;base64,"@ + image::base64(bytes)),
                        request::text_item(s),
                    ],
                ),
            ],
        ),
        responses::typed_part("input_text"@, "text"@, s) == JsonView::Object(
            map!["type"@ => string("input_text"@), "text"@ => string(s)],
        ),
        responses::typed_part("output_text"@, "text"@, s) == JsonView::Object(
            map!["type"@ => string("output_text"@), "text"@ => string(s)],
        ),
        responses::image_part(s) == JsonView::Object(
            map!["type"@ => string("input_image"@), "image_url"@ => string(s)],
        ),
        responses::message_json(role, parts) == JsonView::Object(
            map!["role"@ => string(role), "content"@ => JsonView::Array(parts)],
        ),
        request::token_limit() == json_text::number_json("2000"@),
        json_text::number_json(s) == JsonView::Number(json_text::number_from_text(s)->0),
{
}

/// A text is a part of output where the assistant speaks, and a part of input else.
pub proof fn law_text_part_goes_by_the_role(role: Seq<char>, s: Seq<char>)
    ensures
        responses::text_part("assistant"@, s) == JsonView::Object(
            map!["type"@ => string("output_text"@), "text"@ => string(s)],
        ),
        role != "assistant"@ ==> responses::text_part(role, s) == JsonView::Object(
            map!["type"@ => string("input_text"@), "text"@ => string(s)],
        ),
{
}

/// The roles of the responses API: those of the system and of the developer are one, the assistant
/// stays what it is, and everyone else is the user.
pub proof fn law_roles_are_three(role: Seq<char>)
    ensures
        responses::role_in_responses("system"@) == "developer"@,
        responses::role_in_responses("developer"@) == "developer"@,
        responses::role_in_responses("assistant"@) == "assistant"@,
        role != "system"@ && role != "developer"@ && role != "assistant"@
            ==> responses::role_in_responses(role) == "user"@,
{
    reveal_strlit("assistant");
    reveal_strlit("system");
    reveal_strlit("developer");
    assert("assistant"@[0] == 'a' && "system"@[0] == 's' && "developer"@[0] == 'd');
}

/// A message of one text for the responses API.
pub proof fn law_text_message(role: Seq<char>, s: Seq<char>)
    ensures
        responses::text_message(role, s) == responses::message_json(
            responses::role_in_responses(role),
            seq![responses::text_part(responses::role_in_responses(role), s)],
        ),
{
}

// ===== What a request may add =====

/// A search in the web is offered as the only tool and left to the model; without it a request
/// stays as it is, and so do all other fields.
pub proof fn law_web_search_is_offered(body: JsonView, key: Seq<char>)
    ensures
        responses::with_web_search(body, false) == body,
        json_laws::has(
            responses::with_web_search(body, true),
            "tools"@,
            JsonView::Array(seq![JsonView::Object(map!["type"@ => string("web_search"@)])]),
        ),
        json_laws::has(
            responses::with_web_search(body, true),
            "tool_choice"@,
            string("auto"@),
        ),
        key != "tools"@ && key != "tool_choice"@ ==> responses::with_web_search(body, true).get(key)
            == body.get(key),
        responses::tools_json(true) == JsonView::Array(
            seq![JsonView::Object(map!["type"@ => string("web_search"@)])],
        ),
        responses::tools_json(false) == JsonView::Array(Seq::empty()),
{
    reveal_strlit("tools");
    reveal_strlit("tool_choice");
    assert("tools"@.len() == 5 && "tool_choice"@.len() == 11);
}

/// Little reasoning is asked for where thinking is not wanted, and then only that is added.
pub proof fn law_reasoning_is_held_down(body: JsonView, key: Seq<char>)
    ensures
        responses::with_reasoning(body, true) == body,
        json_laws::has(
            responses::with_reasoning(body, false),
            "reasoning"@,
            JsonView::Object(map!["effort"@ => string("low"@)]),
        ),
        key != "reasoning"@ ==> responses::with_reasoning(body, false).get(key) == body.get(key),
        request::with_thinking(body, true) == body,
        json_laws::has(
            request::with_thinking(body, false),
            "thinking"@,
            JsonView::Object(map!["type"@ => string("disabled"@)]),
        ),
        key != "thinking"@ ==> request::with_thinking(body, false).get(key) == body.get(key),
{
}

// ===== Requests =====

/// What a request holds is what its fields hold.
pub proof fn law_request_is_its_fields(request: ApiRequest)
    ensures
        request@.label == request.label@,
        request@.url == request.url@,
        request@.body == request.body@,
        request@.responses == request.responses,
{
}

/// A request goes to the responses API exactly where the address of the provider is one of it, and
/// to the chat API else.
pub proof fn law_address_picks_the_api(base_url: Seq<char>)
    ensures
        request::speaks_responses(base_url) <==> endpoint::endpoint_kind(base_url)
            == ModelEndpointKind::Responses,
{
}

/// A call that needs a provider is refused where it would go to the model on the device, and where
/// the name of the model is no more than white space. Else it is not refused.
pub proof fn law_calls_are_refused(
    base_url: Seq<char>,
    on_device_url: Seq<char>,
    model: Seq<char>,
    needs_cloud: Seq<char>,
)
    ensures
        request::refusal(on_device_url, on_device_url, model, needs_cloud) == Some(needs_cloud),
        base_url != on_device_url && text_laws::is_blank(model) ==> request::refusal(
            base_url,
            on_device_url,
            model,
            needs_cloud,
        ) == Some("Please select a model first"@),
        base_url != on_device_url && !text_laws::is_blank(model) ==> request::refusal(
            base_url,
            on_device_url,
            model,
            needs_cloud,
        ) is None,
        request::is_selected(model) <==> !text_laws::is_blank(model),
{
    responses_laws::lemma_blank_is_trimmed_away(model);
}

/// The request for an answer to a text, with all its fields.
pub proof fn law_text_request_asks_this(
    base_url: Seq<char>,
    model: Seq<char>,
    prompt: Seq<char>,
    thinking: bool,
)
    ensures
        ({
            let sent = request::text_request(base_url, model, prompt, thinking);
            if endpoint::endpoint_kind(base_url) == ModelEndpointKind::Responses {
                let body = JsonView::Object(
                    map![
                        "model"@ => string(model),
                        "input"@ => JsonView::Array(
                            seq![
                                responses::message_json(
                                    "user"@,
                                    seq![responses::typed_part("input_text"@, "text"@, prompt)],
                                ),
                            ],
                        ),
                        "max_output_tokens"@ => json_text::number_json("2000"@),
                    ],
                );
                sent == RequestView {
                    label: "OpenAI Responses"@,
                    url: endpoint::responses_url(base_url),
                    body: responses::with_reasoning(body, thinking),
                    responses: true,
                }
            } else {
                let body = JsonView::Object(
                    map![
                        "model"@ => string(model),
                        "messages"@ => JsonView::Array(
                            seq![request::chat_message("user"@, string(prompt))],
                        ),
                        "temperature"@ => json_text::number_json("0.2"@),
                    ],
                );
                sent == RequestView {
                    label: "OpenAI API"@,
                    url: endpoint::chat_url(base_url),
                    body: request::with_thinking(body, thinking),
                    responses: false,
                }
            }
        }),
{
    reveal_strlit("user");
    reveal_strlit("assistant");
    reveal_strlit("system");
    reveal_strlit("developer");
    assert("user"@.len() == 4 && "assistant"@.len() == 9 && "system"@.len() == 6
        && "developer"@.len() == 9);
}

/// The request for the text of an image, with all its fields.
pub proof fn law_image_request_asks_this(
    base_url: Seq<char>,
    model: Seq<char>,
    bytes: Seq<u8>,
    prompt: Seq<char>,
    thinking: bool,
)
    ensures
        ({
            let sent = request::ocr_request_view(base_url, model, bytes, prompt, thinking);
            if endpoint::endpoint_kind(base_url) == ModelEndpointKind::Responses {
                let body = JsonView::Object(
                    map![
                        "model"@ => string(model),
                        "input"@ => JsonView::Array(
                            seq![
                                responses::message_json(
                                    "user"@,
                                    seq![
                                        responses::image_part(
                                            "data:image/png;base64,"@ + image::base64(bytes),
                                        ),
                                        responses::typed_part("input_text"@, "text"@, prompt),
                                    ],
                                ),
                            ],
                        ),
                        "max_output_tokens"@ => json_text::number_json("2000"@),
                    ],
                );
                sent == RequestView {
                    label: "OpenAI OCR"@,
                    url: endpoint::responses_url(base_url),
                    body: responses::with_reasoning(body, thinking),
                    responses: true,
                }
            } else {
                let body = JsonView::Object(
                    map![
                        "model"@ => string(model),
                        "messages"@ => JsonView::Array(
                            seq![request::image_message(bytes, prompt)],
                        ),
                        "temperature"@ => json_text::number_json("0"@),
                        "max_tokens"@ => json_text::number_json("2000"@),
                    ],
                );
                sent == RequestView {
                    label: "OpenAI OCR"@,
                    url: endpoint::chat_url(base_url),
                    body: request::with_thinking(body, thinking),
                    responses: false,
                }
            }
        }),
{
}

/// What a stream about an image asks, with all its fields.
pub proof fn law_image_stream_asks_this(bytes: Seq<u8>, prompt: Seq<char>, thinking: bool)
    ensures
        request::ocr_body(bytes, prompt, thinking) == request::with_thinking(
            JsonView::Object(
                map![
                    "messages"@ => JsonView::Array(seq![request::image_message(bytes, prompt)]),
                    "temperature"@ => json_text::number_json("0.2"@),
                    "max_tokens"@ => json_text::number_json("2000"@),
                    "stream"@ => JsonView::Bool(true),
                ],
            ),
            thinking,
        ),
{
}

/// A body that the caller brings along goes to the chat API with the model set and every other
/// field as it is. To the responses API go its messages as input and its limit, or the usual one.
pub proof fn law_stream_request_carries_the_body(
    base_url: Seq<char>,
    model: Seq<char>,
    body: JsonView,
    messages: JsonView,
    limit: JsonView,
    key: Seq<char>,
)
    requires
        json_laws::has(body, "messages"@, messages) || json_laws::lacks(body, "messages"@)
            && messages == JsonView::Null,
        json_laws::has(body, "max_tokens"@, limit) || json_laws::lacks(body, "max_tokens"@) && limit
            == json_text::number_json("2000"@),
    ensures
        ({
            let sent = stream_request::stream_request_view(base_url, model, body);
            if endpoint::endpoint_kind(base_url) == ModelEndpointKind::Responses {
                sent == RequestView {
                    label: "Stream chat"@,
                    url: endpoint::responses_url(base_url),
                    body: JsonView::Object(
                        map![
                            "model"@ => string(model),
                            "input"@ => responses::input_json(messages),
                            "stream"@ => JsonView::Bool(true),
                            "max_output_tokens"@ => limit,
                        ],
                    ),
                    responses: true,
                }
            } else {
                &&& sent.label == "Stream chat"@
                &&& sent.url == endpoint::chat_url(base_url)
                &&& !sent.responses
                &&& json_laws::has(sent.body, "model"@, string(model))
                &&& key != "model"@ ==> sent.body.get(key) == body.get(key)
            }
        }),
{
}

/// A translation and its original are asked for at the chat API behind the address of the provider
/// without its last slashes, with the model set and every other field as it is.
pub proof fn law_combined_request_carries_the_body(
    plain: Seq<char>,
    slashes: nat,
    model: Seq<char>,
    body: JsonView,
    key: Seq<char>,
)
    requires
        plain.len() > 0 ==> plain.last() != '/',
    ensures
        ({
            let base_url = plain + Seq::new(slashes, |i: int| '/');
            let sent = stream_request::combined_request_view(base_url, model, body);
            &&& sent.label == "Stream translate combined"@
            &&& sent.url == plain + "/chat/completions"@
            &&& !sent.responses
            &&& json_laws::has(sent.body, "model"@, string(model))
            &&& key != "model"@ ==> sent.body.get(key) == body.get(key)
        }),
{
    let base_url = plain + Seq::new(slashes, |i: int| '/');
    text::lemma_trim_end(base_url, text::only('/'), plain.len() as int);
    assert(base_url.take(plain.len() as int) =~= plain);
}

// ===== Events =====

/// What an event holds is what its fields hold.
pub proof fn law_event_is_its_fields(kind: String, delta: String, reason: String, full: String)
    ensures
        (Emission::Delta { kind, delta })@ == (EmissionView::Delta { kind: kind@, delta: delta@ }),
        (Emission::Reasoning { kind, delta })@ == (EmissionView::Reasoning {
            kind: kind@,
            delta: delta@,
        }),
        (Emission::Done { kind, reason, full })@ == (EmissionView::Done {
            kind: kind@,
            reason: reason@,
            full: full@,
        }),
        (Emission::End { reason })@ == (EmissionView::End { reason: reason@ }),
{
}

/// The messages that carry events, with all their fields.
pub proof fn law_messages_carry_events(
    image_id: Seq<char>,
    kind: Seq<char>,
    delta: Seq<char>,
    reason: Seq<char>,
    full: Seq<char>,
)
    ensures
        sse::payload_json(EmissionView::Delta { kind, delta }, image_id) == JsonView::Object(
            map![
                "imageId"@ => string(image_id),
                "kind"@ => string(kind),
                "delta"@ => string(delta),
            ],
        ),
        sse::payload_json(EmissionView::Reasoning { kind, delta }, image_id) == JsonView::Object(
            map![
                "imageId"@ => string(image_id),
                "kind"@ => string(kind),
                "delta"@ => string(""@),
                "reasoningDelta"@ => string(delta),
            ],
        ),
        sse::payload_json(EmissionView::Done { kind, reason, full }, image_id) == JsonView::Object(
            map![
                "imageId"@ => string(image_id),
                "kind"@ => string(kind),
                "delta"@ => string(""@),
                "done"@ => JsonView::Bool(true),
                "reason"@ => string(reason),
                "full"@ => string(full),
            ],
        ),
        sse::payload_json(EmissionView::End { reason }, image_id) == JsonView::Object(
            map![
                "imageId"@ => string(image_id),
                "delta"@ => string(""@),
                "done"@ => JsonView::Bool(true),
                "reason"@ => string(reason),
            ],
        ),
        sse::done_emission(kind, reason, full) == seq![
            EmissionView::Done { kind, reason, full: text::trim(full) },
        ],
{
}

}
