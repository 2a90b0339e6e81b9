//! What one call does to the value that it is made on, and what it gives back.

use crate::bridge::{
    BrowserAutomation, BrowserAutomationInfo, PollRequest, PollStep, ResultRequest, ResultStep,
};
use crate::combined_stream::{CombinedStream, CombinedTurn};
use crate::conversation::VisionCall;
use crate::endpoint::ModelEndpointKind;
use crate::failover::{FailoverLoop, KeyChoice, KeyVerdict};
use crate::http::{ReadStep, RequestReader};
use crate::json::{Json, JsonView};
use crate::provider::{ModelProvider, Settings};
use crate::request::ApiRequest;
use crate::responses_stream::ResponsesStream;
use crate::retry::{RetryLoop, RetryStep};
use crate::sse::{Emission, EmissionView, Turn};
use crate::tabs::BrowserTab;
use crate::vision_stream::VisionStream;
use crate::{
    bridge, combined_stream, conversation, conversation_laws, endpoint, http, http_laws, json_laws,
    json_text, piece_laws, reply, responses, responses_laws, responses_stream_laws, retry, sse,
    sse_laws, step_laws, tabs, text, text_laws,
};
use vstd::prelude::*;
use vstd::string::*;

verus! {

// ===== Chunks and streams =====

/// The piece that is read of a chunk is the string at `content`, exactly, where that is not empty.
pub proof fn law_piece_read_of_a_chunk(value: &Json, s: Seq<char>, piece: Option<String>)
    requires
        call_ensures(sse::content_of, (value,), piece),
        sse_laws::chunk_has(value@, "content"@, JsonView::Str(s)),
    ensures
        s.len() > 0 ==> piece is Some && piece->0@ == s,
        s.len() == 0 ==> piece is None,
{
    if s.len() > 0 {
        sse_laws::law_chunk_text_is_the_string(value@, s);
    } else if let Some(t) = piece {
        sse_laws::law_chunk_text_is_the_string(value@, t@);
    }
}

/// A stream of one text that is fed chunks holds the strings at their `content`, put together
/// character for character, behind what it held.
pub proof fn law_fed_text_is_all_contents(
    stream: &mut VisionStream,
    more: &str,
    lines: Seq<Seq<char>>,
    contents: Seq<Seq<char>>,
    turn: Turn,
)
    requires
        call_ensures(VisionStream::feed_text, (stream, more), turn),
        old(stream).rest() + more@ == lines.flatten(),
        sse_laws::carry_contents(lines, contents),
    ensures
        final(stream).state().full == old(stream).state().full + contents.flatten(),
        final(stream).state().kind == old(stream).state().kind,
        final(stream).rest().len() == 0,
        turn.end is None,
{
    sse_laws::law_text_is_all_contents(old(stream).state(), lines, contents);
}

/// A stream of a translation and its original that is fed the chunks of a whole answer returns the
/// translation and the original of which the strings at `content`, put together character for
/// character, are made up.
pub proof fn law_fed_translation_is_all_contents(
    stream: &mut CombinedStream,
    more: &str,
    lines: Seq<Seq<char>>,
    contents: Seq<Seq<char>>,
    turn: CombinedTurn,
)
    requires
        call_ensures(CombinedStream::feed_text, (stream, more), turn),
        old(stream).state() == combined_stream::start_state(),
        old(stream).rest() + more@ == lines.flatten(),
        sse_laws::carry_contents(lines, contents),
    ensures
        ({
            let (translated, original) = combined_stream::combined_result(final(stream).state());
            let answer = contents.flatten();
            match text::find_text(answer, "<<<ORIGINAL>>>"@) {
                Some(i) => {
                    &&& exists|count: nat| #[trigger]
                        piece_laws::and_feeds(answer.take(i), translated, count)
                    &&& exists|count: nat| #[trigger]
                        piece_laws::feeds_and(answer.skip(i + 14), count, original)
                },
                None => translated == answer && original.len() == 0,
            }
        }),
{
    piece_laws::law_translation_and_original_are_the_contents(lines, contents);
}

/// The data of an event with `output_text.delta` in its name and a string at `delta` lets the text
/// grow by exactly that string, and one event carries exactly that string, where it is not empty.
/// This is so whatever else the data holds.
pub proof fn law_delta_is_taken_in_as_it_is(
    stream: &mut ResponsesStream,
    value: &Json,
    emitted: &mut Vec<Emission>,
    event: Seq<char>,
    s: Seq<char>,
    end: Option<Result<String, String>>,
)
    requires
        call_ensures(ResponsesStream::on_value, (stream, value, emitted), end),
        responses_stream_laws::is_named(old(stream).state(), value@, event),
        text::contains_text(event, "output_text.delta"@),
        json_laws::has(value@, "delta"@, JsonView::Str(s)),
    ensures
        final(stream).state().full == old(stream).state().full + s,
        end is None,
        ({
            let told = responses_stream_laws::notice(old(stream).state(), event, value@);
            let before = sse::emissions_view(old(emitted)@);
            let after = sse::emissions_view(final(emitted)@);
            &&& s.len() > 0 ==> after == before + (told + seq![
                EmissionView::Delta { kind: old(stream).state().kind, delta: s },
            ])
            &&& s.len() == 0 ==> after == before + told
        }),
{
    responses_stream_laws::law_text_grows_by_what_comes(
        old(stream).state(),
        value@,
        event,
        s,
    );
}

/// A stream that is fed events with `output_text.delta` in their names holds the strings at their
/// `delta`, put together character for character, behind what it held.
pub proof fn law_fed_text_is_all_deltas(
    stream: &mut ResponsesStream,
    more: &str,
    lines: Seq<Seq<char>>,
    texts: Seq<Seq<char>>,
    turn: Turn,
)
    requires
        call_ensures(ResponsesStream::feed_text, (stream, more), turn),
        old(stream).rest() + more@ == lines.flatten(),
        responses_stream_laws::carry_texts(lines, texts),
    ensures
        final(stream).state().full == old(stream).state().full + texts.flatten(),
        final(stream).state().kind == old(stream).state().kind,
        final(stream).rest().len() == 0,
        turn.end is None,
{
    responses_stream_laws::law_text_is_all_deltas(old(stream).state(), lines, texts);
}

// ===== Answers =====

/// The text that is read of an answer without a string at `output_text` is what the parts of its
/// output say, put together in their order, where that is more than white space.
pub proof fn law_text_read_of_an_answer(
    value: &Json,
    items: Seq<JsonView>,
    rows: Seq<Seq<Seq<char>>>,
    read: Option<String>,
)
    requires
        call_ensures(responses::response_output_text, (value,), read),
        !json_laws::has_text(value@, "output_text"@),
        json_laws::has(value@, "output"@, JsonView::Array(items)),
        responses_laws::items_say(items, rows),
    ensures
        text_laws::is_blank(rows.flatten().flatten()) ==> read is None,
        !text_laws::is_blank(rows.flatten().flatten()) ==> read is Some && read->0@
            == rows.flatten().flatten(),
{
    responses_laws::law_answer_is_all_its_texts(value@, items, rows);
}

/// So it is for a whole reply, whose text is given back without the white space around it.
pub proof fn law_text_read_of_a_reply(
    raw: &str,
    value: JsonView,
    items: Seq<JsonView>,
    rows: Seq<Seq<Seq<char>>>,
    read: Result<String, String>,
)
    requires
        call_ensures(reply::read_vision_reply, (raw, true), read) || call_ensures(
            reply::read_ocr_reply,
            (raw, true),
            read,
        ) || call_ensures(reply::read_text_reply, (raw,), read),
        json_text::parsed_json(raw@) == Ok::<JsonView, Seq<char>>(value),
        !json_laws::has_text(value, "output_text"@),
        json_laws::has(value, "output"@, JsonView::Array(items)),
        responses_laws::items_say(items, rows),
        !text_laws::is_blank(rows.flatten().flatten()),
    ensures
        read is Ok && read->Ok_0@ == text::trim(rows.flatten().flatten()),
{
    responses_laws::law_answer_is_all_its_texts(value, items, rows);
}

// ===== Conversations =====

/// The request for the next message of a conversation without an image sends the system prompt and
/// then every message with its own role and content, in the same order: one more than the
/// conversation has.
pub proof fn law_request_sends_every_message(
    settings: &Settings,
    config: &ModelProvider,
    call: &VisionCall,
    sent: Result<ApiRequest, String>,
)
    requires
        call_ensures(conversation::vision_request, (settings, config, call), sent),
        sent is Ok,
        endpoint::endpoint_kind(config.base_url@) != ModelEndpointKind::Responses,
        call.image is None,
    ensures
        exists|row: Seq<JsonView>|
            {
                &&& #[trigger] json_laws::has(
                    sent->Ok_0@.body,
                    "messages"@,
                    JsonView::Array(row),
                )
                &&& row.len() == call.messages@.len() + 1
                &&& row[0] == conversation_laws::says("system"@, call.system_prompt())
                &&& forall|i: int|
                    0 <= i < call.messages@.len() ==> row[i + 1] == conversation_laws::says(
                        (#[trigger] call.messages@[i]).role@,
                        call.messages@[i].content@,
                    )
            },
{
    let model = conversation::chosen(
        text::optional(call.model_override),
        settings.translator_model@,
    );
    conversation_laws::law_every_message_is_sent(call.system_prompt(), call.messages@);
    conversation_laws::law_chat_request_asks_this(config.base_url@, model, *call);
    assert(json_laws::has(
        sent->Ok_0@.body,
        "messages"@,
        JsonView::Array(call.chat_messages()),
    ));
}

/// With an image, the first message is one of the user that shows the image, and every later one is
/// sent with its own role and content, in the same order.
pub proof fn law_request_sends_every_message_with_the_image(
    settings: &Settings,
    config: &ModelProvider,
    call: &VisionCall,
    bytes: &[u8],
    sent: Result<ApiRequest, String>,
)
    requires
        call_ensures(conversation::vision_request, (settings, config, call), sent),
        sent is Ok,
        endpoint::endpoint_kind(config.base_url@) != ModelEndpointKind::Responses,
        call.image == Some(bytes),
        call.messages@.len() > 0,
    ensures
        exists|row: Seq<JsonView>|
            {
                &&& #[trigger] json_laws::has(
                    sent->Ok_0@.body,
                    "messages"@,
                    JsonView::Array(row),
                )
                &&& row.len() == call.messages@.len() + 1
                &&& row[0] == conversation_laws::says("system"@, call.system_prompt())
                &&& row[1] == conversation_laws::shows(bytes@, call.messages@[0].content@)
                &&& forall|i: int|
                    1 <= i < call.messages@.len() ==> row[i + 1] == conversation_laws::says(
                        (#[trigger] call.messages@[i]).role@,
                        call.messages@[i].content@,
                    )
            },
{
    let model = conversation::chosen(
        text::optional(call.model_override),
        settings.translator_model@,
    );
    conversation_laws::law_every_message_is_sent_with_the_image(
        call.system_prompt(),
        bytes@,
        call.messages@,
    );
    conversation_laws::law_chat_request_asks_this(config.base_url@, model, *call);
    assert(json_laws::has(
        sent->Ok_0@.body,
        "messages"@,
        JsonView::Array(call.chat_messages()),
    ));
}

// ===== Tries and keys =====

/// After an answer there is another try exactly when its status code is 429 or one from 500 to 599
/// and a try is left. The number of the try then grows by one, and else nothing changes.
pub proof fn law_answer_decides_on_another_try(
    tries: &mut RetryLoop,
    status: u16,
    retry_after: Option<&str>,
    body: &str,
    step: RetryStep,
)
    requires
        call_ensures(RetryLoop::on_failed_answer, (tries, status, retry_after, body), step),
        old(tries)@.wf(),
    ensures
        step is Sleep <==> (status == 429 || (500 <= status && status <= 599))
            && old(tries)@.attempt < old(tries)@.attempts,
        step is Sleep ==> final(tries)@.attempt == old(tries)@.attempt + 1,
        step is Fail ==> final(tries)@.attempt == old(tries)@.attempt,
        final(tries)@.attempts == old(tries)@.attempts,
        final(tries)@.label == old(tries)@.label,
        step matches RetryStep::Sleep(wait) ==> (retry_after is None ==> step_laws::is_due(
            old(tries)@.attempt,
            wait as nat,
        )),
        step matches RetryStep::Fail(message) ==> message@ == step_laws::label_and_status(
            old(tries)@.label,
            status,
        ) + " - "@ + body@ + step_laws::number_of(old(tries)@),
{
    step_laws::law_step_goes_by_the_status(
        old(tries)@,
        status,
        text::optional(retry_after),
        body@,
        step,
    );
}

/// After a failure to send there is another try exactly when it timed out or found no connection
/// and a try is left. The number of the try then grows by one, and else nothing changes.
pub proof fn law_failure_decides_on_another_try(
    tries: &mut RetryLoop,
    message: &str,
    is_timeout: bool,
    is_connect: bool,
    step: RetryStep,
)
    requires
        call_ensures(RetryLoop::on_failure, (tries, message, is_timeout, is_connect), step),
        old(tries)@.wf(),
    ensures
        step is Sleep <==> (is_timeout || is_connect) && old(tries)@.attempt
            < old(tries)@.attempts,
        step is Sleep ==> final(tries)@.attempt == old(tries)@.attempt + 1,
        step is Fail ==> final(tries)@.attempt == old(tries)@.attempt,
        final(tries)@.attempts == old(tries)@.attempts,
        final(tries)@.label == old(tries)@.label,
        step matches RetryStep::Sleep(wait) ==> step_laws::is_due(
            old(tries)@.attempt,
            wait as nat,
        ),
        step matches RetryStep::Fail(whole) ==> whole@ == old(tries)@.label + " Error: "@ + message@
            + step_laws::number_of(old(tries)@),
{
    step_laws::law_step_goes_by_the_failure(
        old(tries)@,
        message@,
        is_timeout,
        is_connect,
        step,
    );
}

/// The message of a failure decides on another key: one that tells 401, 402, 403 or 429 marks the
/// key, and leads to the next one where one is left untried. Every other one, and the last, is
/// given up with as it is.
pub proof fn law_failure_decides_on_another_key(
    keys: &mut FailoverLoop,
    message: &str,
    verdict: KeyVerdict,
)
    requires
        call_ensures(FailoverLoop::on_failure, (keys, message), verdict),
    ensures
        ({
            let code = retry::status_code(message@);
            let helps = code == Some(401nat) || code == Some(402nat) || code == Some(403nat)
                || code == Some(429nat);
            let left = old(keys)@.tried.len() < old(keys)@.total;
            &&& verdict.mark_failed <==> helps
            &&& verdict.give_up is None <==> helps && left
            &&& verdict.give_up matches Some(told) ==> told@ == message@
            &&& final(keys)@.tried == old(keys)@.tried
            &&& final(keys)@.total == old(keys)@.total
            &&& final(keys)@.label == old(keys)@.label
            &&& helps && left ==> final(keys)@.last_error == Some(message@)
            &&& !(helps && left) ==> final(keys)@.last_error == old(keys)@.last_error
        }),
{
    step_laws::law_another_key_may_help(message@);
}

/// A picked key is sent with and is tried from then on. Where none can be picked, the last message
/// that called for another key is given up with, or one that tells how many keys there are.
pub proof fn law_pick_decides_on_the_key(
    keys: &mut FailoverLoop,
    picked: Option<usize>,
    choice: KeyChoice,
)
    requires
        call_ensures(FailoverLoop::on_pick, (keys, picked), choice),
    ensures
        picked matches Some(i) ==> choice == KeyChoice::Send(i) && final(keys)@.tried
            == old(keys)@.tried.insert(i) && final(keys)@.last_error == old(keys)@.last_error
            && final(keys)@.total == old(keys)@.total,
        picked is None ==> final(keys)@ == old(keys)@ && (choice matches KeyChoice::GiveUp(told)
            && (old(keys)@.last_error is Some ==> told@ == old(keys)@.last_error->0) && (old(
            keys,
        )@.last_error is None ==> told@ == old(keys)@.label + " Error: all "@ + text::decimal(
            old(keys)@.total,
        ) + " keys exhausted"@)),
{
}

// ===== The bridge =====

/// A command waits at the end of the queue, and nothing else changes.
pub proof fn law_command_is_put_into_the_queue(
    automation: &mut BrowserAutomation,
    id: &str,
    tab_id: Option<i64>,
    code: &str,
)
    requires
        call_ensures(BrowserAutomation::enqueue, (automation, id, tab_id, code), ()),
    ensures
        ({
            let queue = old(automation)@.queue;
            let after = final(automation)@;
            &&& after.queue.len() == queue.len() + 1
            &&& after.queue.drop_last() == queue
            &&& after.queue.last().id == id@
            &&& after.queue.last().tab_id == tab_id
            &&& after.queue.last().code == code@
            &&& after.tabs == old(automation)@.tabs
            &&& after.results == old(automation)@.results
        }),
{
    assert(final(automation)@.queue.drop_last() =~= old(automation)@.queue);
}

/// A browser that asks gets the first command of the queue, which leaves it. Without one it waits a
/// quarter of a second at a time, and after five seconds it is told that there is nothing to do.
pub proof fn law_poll_takes_the_first_command(
    automation: &mut BrowserAutomation,
    waited: u128,
    step: PollStep,
)
    requires
        call_ensures(BrowserAutomation::handle_poll, (automation, waited), step),
    ensures
        ({
            let queue = old(automation)@.queue;
            let after = final(automation)@;
            &&& queue.len() > 0 ==> {
                &&& step matches PollStep::Answer(answer) && answer@ == bridge::command_json(
                    queue[0],
                )
                &&& after.queue == queue.drop_first()
            }
            &&& queue.len() == 0 && waited < 5_000_000_000 ==> step == PollStep::Wait(250_000_000)
            &&& queue.len() == 0 && waited >= 5_000_000_000 ==> (step matches PollStep::Answer(
                answer,
            ) && answer@ == JsonView::Object(map!["type"@ => JsonView::Str("noop"@)]))
            &&& queue.len() == 0 ==> after.queue == queue
            &&& after.tabs == old(automation)@.tabs
            &&& after.results == old(automation)@.results
        }),
{
}

/// A result is taken by the one who waits for it, and is then gone. While there is none, the wait
/// goes on until the time is up.
pub proof fn law_result_is_waited_for(
    automation: &mut BrowserAutomation,
    id: &str,
    waited: u128,
    limit: u128,
    step: ResultStep,
)
    requires
        call_ensures(BrowserAutomation::await_result, (automation, id, waited, limit), step),
    ensures
        ({
            let results = old(automation)@.results;
            let after = final(automation)@;
            &&& results.contains_key(id@) ==> {
                &&& step matches ResultStep::Done(result) && bridge::outcome_view(result)
                    == bridge::outcome(results[id@])
                &&& after.results == results.remove(id@)
            }
            &&& !results.contains_key(id@) ==> {
                &&& after.results == results
                &&& waited >= limit ==> (step matches ResultStep::Done(Err(told)) && told@
                    == bridge::TIMED_OUT@)
                &&& waited < limit ==> (step matches ResultStep::Wait(nanos) && nanos <= 250_000_000
                    && (nanos == 250_000_000 || nanos == limit - waited) && nanos <= limit - waited)
            }
            &&& after.queue == old(automation)@.queue
            &&& after.tabs == old(automation)@.tabs
        }),
{
}

/// A result that is told of waits under its identifier, as it was told, and the tabs that were
/// opened are taken note of.
pub proof fn law_result_is_kept_for_its_command(
    automation: &mut BrowserAutomation,
    request: ResultRequest,
    answer: Json,
)
    requires
        call_ensures(BrowserAutomation::handle_result, (automation, request), answer),
    ensures
        ({
            let after = final(automation)@;
            let kept = after.results[request.id@];
            &&& answer@ == JsonView::Object(map!["ok"@ => JsonView::Bool(true)])
            &&& after.results.dom() == old(automation)@.results.dom().insert(request.id@)
            &&& kept.ok == request.ok
            &&& kept.data == request.data@
            &&& kept.error == request.error@
            &&& kept.new_tabs == tabs::tabs_view(request.new_tabs@)
            &&& forall|other: Seq<char>|
                other != request.id@ && old(automation)@.results.contains_key(other)
                    ==> #[trigger] after.results[other] == old(automation)@.results[other]
            &&& after.tabs == tabs::with_tabs(
                old(automation)@.tabs,
                tabs::tabs_view(request.new_tabs@),
            )
            &&& after.queue == old(automation)@.queue
        }),
{
}

/// The tabs that a browser tells of when it asks are taken note of, and nothing else changes.
pub proof fn law_told_tabs_are_noted(automation: &mut BrowserAutomation, request: &PollRequest)
    requires
        call_ensures(BrowserAutomation::begin_poll, (automation, request), ()),
    ensures
        final(automation)@.tabs == tabs::with_tabs(
            old(automation)@.tabs,
            tabs::tabs_view(request.tabs@),
        ),
        final(automation)@.queue == old(automation)@.queue,
        final(automation)@.results == old(automation)@.results,
{
}

/// What is told of the bridge: where it listens, where its extension lies, and how many tabs it
/// knows. Its tabs are listed in order, each of them once.
pub proof fn law_bridge_tells_of_itself(
    automation: &BrowserAutomation,
    extension_dir: &str,
    info: BrowserAutomationInfo,
    list: Vec<BrowserTab>,
)
    requires
        call_ensures(BrowserAutomation::info, (automation, extension_dir), info),
        call_ensures(BrowserAutomation::tabs, (automation,), list),
    ensures
        info.host@ == "127.0.0.1"@,
        info.port == 18765,
        info.extension_dir@ == extension_dir@,
        info.session_count == automation@.tabs.dom().len(),
        tabs::is_listing(tabs::tabs_view(list@), automation@.tabs),
{
}

// ===== Reading a request =====

/// A request is read to its end: bytes are appended as they come, and it is complete exactly when
/// its head and as many further bytes are there as the head announces.
pub proof fn law_bytes_are_read_to_the_end(
    reader: &mut RequestReader,
    chunk: &[u8],
    before: Seq<u8>,
    rest: Seq<u8>,
    step: ReadStep,
)
    requires
        call_ensures(RequestReader::feed, (reader, chunk), step),
        old(reader)@ + chunk@ == before + http_laws::empty_line() + rest,
        !http_laws::has_empty_line(before + seq![13u8, 10u8, 13u8]),
    ensures
        final(reader)@ == old(reader)@ + chunk@,
        ({
            let length = http::body_length(
                text::lossy_text(before + http_laws::empty_line()),
            );
            &&& length <= rest.len() ==> step == ReadStep::Complete
            &&& length > rest.len() ==> step == ReadStep::More
        }),
{
    http_laws::law_request_is_read_to_its_end(before, rest, Seq::empty());
}

}
