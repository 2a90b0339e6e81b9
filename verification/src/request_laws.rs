//! What holds of the requests to a provider, whatever they ask.

use crate::conversation::VisionCall;
use crate::endpoint::ModelEndpointKind;
use crate::json::JsonView;
use crate::request::RequestView;
use crate::{conversation, endpoint, request, stream_request, text};
use vstd::prelude::*;
use vstd::string::*;

verus! {

/// Whether a request is sent to an address of the API that it speaks.
pub open spec fn goes_where_it_speaks(request: RequestView) -> bool {
    if request.responses {
        endpoint::endpoint_kind(request.url) == ModelEndpointKind::Responses
    } else {
        endpoint::endpoint_kind(request.url) == ModelEndpointKind::ChatCompletions
    }
}

/// Every request is sent to an address of the API that it speaks, whatever address the provider
/// has.
pub proof fn law_requests_go_where_they_speak(
    base_url: Seq<char>,
    model: Seq<char>,
    prompt: Seq<char>,
    bytes: Seq<u8>,
    body: JsonView,
    call: VisionCall,
    thinking_enabled: bool,
)
    ensures
        goes_where_it_speaks(request::text_request(base_url, model, prompt, thinking_enabled)),
        goes_where_it_speaks(
            request::ocr_request_view(base_url, model, bytes, prompt, thinking_enabled),
        ),
        goes_where_it_speaks(conversation::vision_request_view(base_url, model, call)),
        goes_where_it_speaks(stream_request::stream_request_view(base_url, model, body)),
        goes_where_it_speaks(stream_request::combined_request_view(base_url, model, body)),
{
    endpoint::lemma_chat_path_speaks_chat(text::trim_end_by(base_url, text::only('/')));
    endpoint::law_derived_address_speaks_its_api(base_url);
}

/// The fields that a request for the next message of a conversation may have.
pub open spec fn is_vision_field(responses: bool, key: Seq<char>) -> bool {
    if responses {
        key == "model"@ || key == "input"@ || key == "max_output_tokens"@ || key == "tools"@ || key
            == "tool_choice"@ || key == "reasoning"@ || key == "stream"@
    } else {
        key == "model"@ || key == "messages"@ || key == "temperature"@ || key == "max_tokens"@
            || key == "stream"@ || key == "thinking"@
    }
}

/// A request for the next message of a conversation has the fields of the API that it speaks and no
/// others: `thinking` only for the chat API and only to forbid it, `tools` only for the responses
/// API and only where the web may be searched.
pub proof fn law_vision_request_has_known_fields(
    base_url: Seq<char>,
    model: Seq<char>,
    call: VisionCall,
    key: Seq<char>,
)
    ensures
        ({
            let sent = conversation::vision_request_view(base_url, model, call);
            &&& sent.body.get(key) is Some ==> is_vision_field(sent.responses, key)
            &&& sent.body.get("model"@) == Some(JsonView::Str(model))
        }),
{
    lemma_field_names();
}

/// The name of the field for the model is that of no other field, and no field has a name of the
/// length of a private switch.
proof fn lemma_field_names()
    ensures
        "model"@ != "input"@,
        "model"@ != "messages"@,
        "model"@ != "max_output_tokens"@,
        "model"@ != "max_tokens"@,
        "model"@ != "temperature"@,
        "model"@ != "stream"@,
        "model"@ != "thinking"@,
        "model"@ != "tools"@,
        "model"@ != "tool_choice"@,
        "model"@ != "reasoning"@,
        forall|responses: bool, key: Seq<char>| #[trigger]
            is_vision_field(responses, key) ==> key.len() != 15 && key.len() != 16 && key.len() != 20,
{
    reveal_strlit("model");
    reveal_strlit("input");
    reveal_strlit("messages");
    reveal_strlit("max_output_tokens");
    reveal_strlit("max_tokens");
    reveal_strlit("temperature");
    reveal_strlit("stream");
    reveal_strlit("thinking");
    reveal_strlit("tools");
    reveal_strlit("tool_choice");
    reveal_strlit("reasoning");
    assert("model"@[0] == 'm' && "input"@[0] == 'i' && "tools"@[0] == 't');
    assert("model"@.len() == 5);
    assert("input"@.len() == 5);
    assert("messages"@.len() == 8);
    assert("max_output_tokens"@.len() == 17);
    assert("max_tokens"@.len() == 10);
    assert("temperature"@.len() == 11);
    assert("stream"@.len() == 6);
    assert("thinking"@.len() == 8);
    assert("tools"@.len() == 5);
    assert("tool_choice"@.len() == 11);
    assert("reasoning"@.len() == 9);
}

/// A request for the next message of a conversation never has the private switches of single
/// servers, which others refuse.
pub proof fn law_vision_request_has_no_private_switches(
    base_url: Seq<char>,
    model: Seq<char>,
    call: VisionCall,
)
    ensures
        ({
            let body = conversation::vision_request_view(base_url, model, call).body;
            &&& body.get("chat_template_kwargs"@) is None
            &&& body.get("enable_thinking"@) is None
            &&& body.get("reasoning_effort"@) is None
        }),
{
    law_vision_request_has_known_fields(base_url, model, call, "chat_template_kwargs"@);
    law_vision_request_has_known_fields(base_url, model, call, "enable_thinking"@);
    law_vision_request_has_known_fields(base_url, model, call, "reasoning_effort"@);
    reveal_strlit("chat_template_kwargs");
    reveal_strlit("enable_thinking");
    reveal_strlit("reasoning_effort");
    lemma_field_names();
}

}
