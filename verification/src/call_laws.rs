//! What callers can rely on: the results of public functions, said of their arguments alone.

use crate::combined_stream::{CombinedStream, CombinedTurn};
use crate::conversation::VisionCall;
use crate::failover::FailoverLoop;
use crate::json::Json;
use crate::provider::{ModelProvider, Settings};
use crate::request::{ApiRequest, TextPlan};
use crate::responses_stream::ResponsesStream;
use crate::retry::RetryLoop;
use crate::sse::{EmissionView, Turn};
use crate::vision_stream::VisionStream;
use crate::{
    bridge, combined_stream, conversation, endpoint, provider, reply, request, responses_laws,
    retry, sse, stream_request, text, text_laws,
};
use vstd::prelude::*;
use vstd::string::*;

verus! {

// ===== Settings =====

/// A request is tried as often as the settings say where retrying is switched on, and once else.
pub proof fn law_tries_follow_the_settings(settings: &Settings, attempts: usize)
    requires
        call_ensures(provider::effective_retry_attempts, (settings,), attempts),
    ensures
        settings.retry_enabled ==> attempts == settings.retry_attempts,
        !settings.retry_enabled ==> attempts == 1,
{
}

/// The tries of a request start with the first one of as many as are asked for, and of one at
/// least.
pub proof fn law_tries_start_with_the_first(label: &str, attempts: usize, tries: RetryLoop)
    requires
        call_ensures(RetryLoop::new, (label, attempts), tries),
    ensures
        tries@.label == label@,
        tries@.attempt == 1,
        attempts >= 1 ==> tries@.attempts == attempts,
        attempts == 0 ==> tries@.attempts == 1,
{
}

/// The keys start untried. It is an error to have none.
pub proof fn law_keys_start_untried(
    label: &str,
    total: usize,
    keys: Result<FailoverLoop, String>,
)
    requires
        call_ensures(FailoverLoop::new, (label, total), keys),
    ensures
        total == 0 ==> keys is Err && keys->Err_0@ == label@ + " Error: No API key configured"@,
        total > 0 ==> keys is Ok && keys->Ok_0@.label == label@ && keys->Ok_0@.total == total
            && keys->Ok_0@.tried == Set::<usize>::empty() && keys->Ok_0@.last_error is None,
{
}

/// A failure to send is worth another try exactly when it timed out or found no connection.
pub proof fn law_lost_requests_are_tried_again(
    is_timeout: bool,
    is_connect: bool,
    again: bool,
)
    requires
        call_ensures(retry::is_retryable_error, (is_timeout, is_connect), again),
    ensures
        again <==> is_timeout || is_connect,
{
}

// ===== Requests =====

/// The models of a provider are listed behind its address without the path of either API.
pub proof fn law_models_are_listed_there(url: &str, models: String)
    requires
        call_ensures(endpoint::models_url_from_provider_url, (url,), models),
    ensures
        models@ == endpoint::base_url(url@) + "/models"@,
{
}

/// A text goes to the model on the device where the provider has its address. Else a model must be
/// selected, and the text goes to the provider.
pub proof fn law_text_is_answered(
    config: &ModelProvider,
    on_device_url: &str,
    model: &str,
    prompt: &str,
    thinking: bool,
    plan: Result<TextPlan, String>,
)
    requires
        call_ensures(
            request::plan_text_call,
            (config, on_device_url, model, prompt, thinking),
            plan,
        ),
    ensures
        ({
            let on_device = config.base_url@ == on_device_url@;
            let selected = !text_laws::is_blank(model@);
            &&& on_device ==> plan is Ok && plan->Ok_0 is OnDevice
            &&& !on_device && !selected ==> plan is Err && plan->Err_0@
                == "Please select a model first"@
            &&& !on_device && selected ==> plan is Ok && (plan->Ok_0 matches TextPlan::Send(sent)
                && sent@ == request::text_request(config.base_url@, model@, prompt@, thinking))
        }),
{
    responses_laws::lemma_blank_is_trimmed_away(model@);
}

/// An image cannot go to the model on the device, and a model must be selected.
pub proof fn law_image_calls_are_checked(
    config: &ModelProvider,
    on_device_url: &str,
    model: &str,
    reading: Result<(), String>,
    streaming: Result<(), String>,
)
    requires
        call_ensures(request::check_ocr_call, (config, on_device_url, model), reading),
        call_ensures(stream_request::check_stream_call, (config, on_device_url, model), streaming),
    ensures
        ({
            let on_device = config.base_url@ == on_device_url@;
            let selected = !text_laws::is_blank(model@);
            &&& on_device ==> reading is Err && reading->Err_0@ == request::READING_NEEDS_CLOUD@
            &&& on_device ==> streaming is Err && streaming->Err_0@
                == stream_request::TRANSLATION_NEEDS_CLOUD@
            &&& !on_device && !selected ==> reading is Err && streaming is Err && reading->Err_0@
                == "Please select a model first"@ && streaming->Err_0@
                == "Please select a model first"@
            &&& !on_device && selected ==> reading is Ok && streaming is Ok
        }),
{
    responses_laws::lemma_blank_is_trimmed_away(model@);
}

/// A body that the caller brings along is sent unless the call is refused.
pub proof fn law_brought_bodies_are_sent(
    config: &ModelProvider,
    on_device_url: &str,
    model: &str,
    body: Json,
    plain: Result<ApiRequest, String>,
    combined: Result<ApiRequest, String>,
)
    requires
        config.base_url@ != on_device_url@,
        !text_laws::is_blank(model@),
        call_ensures(
            stream_request::stream_chat_request,
            (config, on_device_url, model, body),
            plain,
        ),
        call_ensures(
            stream_request::combined_request,
            (config, on_device_url, model, body),
            combined,
        ),
    ensures
        plain is Ok && plain->Ok_0@ == stream_request::stream_request_view(
            config.base_url@,
            model@,
            body@,
        ),
        combined is Ok && combined->Ok_0@ == stream_request::combined_request_view(
            config.base_url@,
            model@,
            body@,
        ),
{
    responses_laws::lemma_blank_is_trimmed_away(model@);
}

/// The next message of a conversation is asked for with the model of the call, or else with the one
/// in the settings, which must be selected.
pub proof fn law_next_message_is_asked_for(
    settings: &Settings,
    config: &ModelProvider,
    call: &VisionCall,
    sent: Result<ApiRequest, String>,
)
    requires
        call_ensures(conversation::vision_request, (settings, config, call), sent),
    ensures
        ({
            let model = if call.model_override is Some && call.model_override->0@.len() > 0 {
                call.model_override->0@
            } else {
                settings.translator_model@
            };
            &&& text_laws::is_blank(model) ==> sent is Err && sent->Err_0@
                == "Please select a model first"@
            &&& !text_laws::is_blank(model) ==> sent is Ok && sent->Ok_0@
                == conversation::vision_request_view(config.base_url@, model, *call)
        }),
{
    responses_laws::lemma_blank_is_trimmed_away(
        if call.model_override is Some && call.model_override->0@.len() > 0 {
            call.model_override->0@
        } else {
            settings.translator_model@
        },
    );
}

// ===== Replies =====

/// The replies to each kind of request are read under its own label.
pub proof fn law_replies_are_read_under_their_labels(
    raw: &str,
    responses_api: bool,
    words: Result<String, String>,
    reading: Result<String, String>,
    talk: Result<String, String>,
    message: &str,
    label: &str,
    broken: String,
)
    requires
        call_ensures(reply::read_text_reply, (raw,), words),
        call_ensures(reply::read_ocr_reply, (raw, responses_api), reading),
        call_ensures(reply::read_vision_reply, (raw, responses_api), talk),
        call_ensures(reply::read_error_message, (label, message), broken),
    ensures
        reply::result_view(words) == reply::reply_text(
            raw@,
            true,
            "OpenAI Responses"@,
            "OpenAI Responses"@,
        ),
        reply::result_view(reading) == reply::reply_text(raw@, responses_api, "OCR"@, "OCR"@),
        reply::result_view(talk) == reply::reply_text(
            raw@,
            responses_api,
            "Vision API"@,
            "vision"@,
        ),
        broken@ == label@ + " read body: "@ + message@,
{
}

/// An answer of the chat API to a text is read as its text, or told of as no valid one.
pub proof fn law_chat_answers_are_read(value: &Json, read: Result<String, String>)
    requires
        call_ensures(reply::chat_text_answer, (value,), read),
    ensures
        reply::chat_content(value@) matches Some(s) ==> read is Ok && read->Ok_0@ == text::trim(s),
        reply::chat_content(value@) is None ==> read is Err && read->Err_0@ == "Invalid response"@,
{
}

// ===== The ends of streams =====

/// A stream of one text returns the text that has come, without the white space around it, when it
/// is broken off or closed, and the last event tells which of both it was.
pub proof fn law_text_streams_return_what_has_come(
    chat: &VisionStream,
    cancelled: Turn,
    finished: Turn,
    stream: &ResponsesStream,
    also_cancelled: Turn,
    also_finished: Turn,
)
    requires
        call_ensures(VisionStream::cancel, (chat,), cancelled),
        call_ensures(VisionStream::finish, (chat,), finished),
        call_ensures(ResponsesStream::cancel, (stream,), also_cancelled),
        call_ensures(ResponsesStream::finish, (stream,), also_finished),
    ensures
        ends_with(cancelled, chat.state().kind, "cancelled"@, chat.state().full),
        ends_with(finished, chat.state().kind, "done"@, chat.state().full),
        ends_with(also_cancelled, stream.state().kind, "cancelled"@, stream.state().full),
        ends_with(also_finished, stream.state().kind, "done"@, stream.state().full),
{
}

/// Whether a stream ends with one event, which gives the reason, and with a text, both without the
/// white space around the text.
pub open spec fn ends_with(
    turn: Turn,
    kind: Seq<char>,
    reason: Seq<char>,
    full: Seq<char>,
) -> bool {
    &&& sse::emissions_view(turn.emitted@) == seq![
        EmissionView::Done { kind, reason, full: text::trim(full) },
    ]
    &&& turn.end matches Some(Ok(whole)) && whole@ == text::trim(full)
}

/// A stream whose connection fails returns a message, and tells of the text that has come.
pub proof fn law_failed_streams_return_a_message(
    chat: &VisionStream,
    stream: &ResponsesStream,
    pair: &CombinedStream,
    message: &str,
    first: Turn,
    second: Turn,
    third: CombinedTurn,
)
    requires
        call_ensures(VisionStream::fail, (chat, message), first),
        call_ensures(ResponsesStream::fail, (stream, message), second),
        call_ensures(CombinedStream::fail, (pair, message), third),
    ensures
        sse::emissions_view(first.emitted@) == seq![
            EmissionView::Done {
                kind: chat.state().kind,
                reason: "error"@,
                full: text::trim(chat.state().full),
            },
        ],
        first.end matches Some(Err(told)) && told@ == message@,
        sse::emissions_view(second.emitted@) == seq![
            EmissionView::Done {
                kind: stream.state().kind,
                reason: "error"@,
                full: text::trim(stream.state().full),
            },
        ],
        second.end matches Some(Err(told)) && told@ == "Responses stream read body: "@ + message@,
        sse::emissions_view(third.emitted@) == seq![EmissionView::End { reason: "error"@ }],
        third.end matches Some(Err(told)) && told@ == message@,
{
}

/// A stream of a translation and its original returns both when it is broken off or closed, with
/// the text that was held back.
pub proof fn law_translation_streams_return_what_has_come(
    pair: &CombinedStream,
    cancelled: CombinedTurn,
    finished: CombinedTurn,
)
    requires
        call_ensures(CombinedStream::cancel, (pair,), cancelled),
        call_ensures(CombinedStream::finish, (pair,), finished),
    ensures
        sse::emissions_view(cancelled.emitted@) == combined_stream::combined_end_emitted(
            pair.state(),
            "cancelled"@,
        ),
        sse::emissions_view(finished.emitted@) == combined_stream::combined_end_emitted(
            pair.state(),
            "done"@,
        ),
        cancelled.end matches Some(Ok(both)) && (both.0@, both.1@)
            == combined_stream::combined_result(pair.state()),
        finished.end matches Some(Ok(both)) && (both.0@, both.1@)
            == combined_stream::combined_result(pair.state()),
{
}

// ===== The bridge =====

/// A file is written exactly where it is missing or holds something else.
pub proof fn law_files_are_written_where_they_differ(
    current: &str,
    contents: &str,
    other: bool,
    missing: bool,
)
    requires
        call_ensures(bridge::needs_write, (Some(current), contents), other),
        call_ensures(bridge::needs_write, (None, contents), missing),
    ensures
        other <==> current@ != contents@,
        missing,
{
}

/// The message where the bridge cannot listen tells where it was to listen, and why it cannot.
pub proof fn law_bridge_tells_why_it_cannot_listen(reason: &str, message: String)
    requires
        call_ensures(bridge::bind_error_message, (reason,), message),
    ensures
        message@ == "Failed to bind browser automation bridge on "@ + "127.0.0.1"@ + ":"@
            + text::decimal(18765) + ": "@ + reason@,
{
}

}
