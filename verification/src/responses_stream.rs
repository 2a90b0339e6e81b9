//! The stream of an answer of the responses API.

use crate::json::{Json, JsonView};
use crate::sse::{Emission, EmissionView, LineEffect, TextEffect, Turn};
use crate::{json_text, responses, sse, text};
use vstd::prelude::*;
use vstd::string::*;

verus! {

/// The piece of reasoning that tells of a search in the web.
pub const WEB_SEARCH_NOTICE: &'static str = "正在联网搜索...\n";

/// What such a stream remembers from one line to the next: the kind of its events, the text that
/// has come so far, whether a search in the web was told of, and the type of the event that the
/// next data belongs to.
pub struct ResponsesState {
    pub kind: Seq<char>,
    pub full: Seq<char>,
    pub noticed: bool,
    pub event: Seq<char>,
}

/// What the data of an event is for.
pub enum EventRole {
    /// A further piece of the text.
    Text,
    /// A further piece of the reasoning.
    Reasoning,
    /// The whole of a text whose pieces may have come before.
    Whole,
    /// The end of the answer.
    Completed,
    /// The failure of the answer.
    Failed,
    /// Anything else, which may carry a piece of the text.
    Other,
}

/// What the data of an event of this type is for.
pub open spec fn event_role(event: Seq<char>) -> EventRole {
    if text::contains_text(event, "output_text.delta"@) || text::contains_text(
        event,
        "response.text.delta"@,
    ) {
        EventRole::Text
    } else if text::contains_text(event, "reasoning"@) && text::contains_text(event, "delta"@) {
        EventRole::Reasoning
    } else if event == "response.output_text.done"@ || event == "response.text.done"@ || event
        == "response.content_part.done"@ {
        EventRole::Whole
    } else if event == "response.completed"@ {
        EventRole::Completed
    } else if event == "response.failed"@ || event == "response.incomplete"@ || event
        == "error"@ {
        EventRole::Failed
    } else {
        EventRole::Other
    }
}

/// The type of the event that some data belongs to: the one that the data names, else the one that
/// was named before it.
pub open spec fn event_type(state: ResponsesState, value: JsonView) -> Seq<char> {
    match value.text_at("type"@) {
        Some(event) => event,
        None => state.event,
    }
}

/// Whether an event tells of a search in the web, by its type or by that of its item.
pub open spec fn tells_of_web_search(event: Seq<char>, value: JsonView) -> bool {
    ||| text::contains_text(event, "web_search"@)
    ||| match value.get("item"@) {
        Some(item) => match item.text_at("type"@) {
            Some(kind) => text::contains_text(kind, "web_search"@),
            None => false,
        },
        None => false,
    }
}

/// The piece of text that an event adds to the text `full`.
pub open spec fn added_text(full: Seq<char>, event: Seq<char>, value: JsonView) -> Seq<char> {
    let piece = match event_role(event) {
        EventRole::Text | EventRole::Other => responses::stream_delta(value),
        EventRole::Whole => match responses::stream_whole(value) {
            Some(whole) => if full.is_prefix_of(whole) {
                Some(whole.skip(full.len() as int))
            } else {
                Some(whole)
            },
            None => None,
        },
        EventRole::Completed => if text::trim(full).len() == 0 {
            match value.get("response"@) {
                Some(response) => responses::output_text(response),
                None => None,
            }
        } else {
            None
        },
        EventRole::Reasoning | EventRole::Failed => None,
    };
    match piece {
        Some(piece) => piece,
        None => Seq::empty(),
    }
}

/// The piece of reasoning that an event adds.
pub open spec fn added_reasoning(event: Seq<char>, value: JsonView) -> Seq<char> {
    match (event_role(event), responses::stream_delta(value)) {
        (EventRole::Reasoning, Some(piece)) => piece,
        _ => Seq::empty(),
    }
}

/// The event that carries a piece of text, where it is not empty.
pub open spec fn text_emitted(kind: Seq<char>, delta: Seq<char>) -> Seq<EmissionView> {
    if delta.len() == 0 {
        Seq::empty()
    } else {
        seq![EmissionView::Delta { kind, delta }]
    }
}

/// The event that carries a piece of reasoning, where it is not empty.
pub open spec fn reasoning_emitted(kind: Seq<char>, delta: Seq<char>) -> Seq<EmissionView> {
    if delta.len() == 0 {
        Seq::empty()
    } else {
        seq![EmissionView::Reasoning { kind, delta }]
    }
}

/// The value that tells why an answer failed: that at `error`, else that at `error` in the answer,
/// else the whole data.
pub open spec fn failure_value(value: JsonView) -> JsonView {
    let inner = match value.get("response"@) {
        Some(response) => response.get("error"@),
        None => None,
    };
    match (value.get("error"@), inner) {
        (Some(error), _) => error,
        (None, Some(error)) => error,
        (None, None) => value,
    }
}

/// The message of a failed answer, with the beginning of the text of what tells why.
pub open spec fn failure_message(value: JsonView) -> Seq<char> {
    "Responses stream error: "@ + text::head(
        json_text::printed_json(failure_value(value)),
        500,
    )
}

/// The state after the data of an event.
pub open spec fn responses_value_state(state: ResponsesState, value: JsonView) -> ResponsesState {
    let event = event_type(state, value);
    ResponsesState {
        kind: state.kind,
        full: state.full + added_text(state.full, event, value),
        noticed: state.noticed || tells_of_web_search(event, value),
        event: Seq::empty(),
    }
}

/// The notice of a search in the web, where it is the first one told of.
pub open spec fn search_notice(state: ResponsesState, value: JsonView) -> Seq<EmissionView> {
    if !state.noticed && tells_of_web_search(event_type(state, value), value) {
        seq![EmissionView::Reasoning { kind: state.kind, delta: WEB_SEARCH_NOTICE@ }]
    } else {
        Seq::empty()
    }
}

/// The events that the data of an event causes: a notice of the first search in the web, the piece
/// of text, the piece of reasoning, and the end of the stream.
pub open spec fn responses_value_emitted(state: ResponsesState, value: JsonView) -> Seq<
    EmissionView,
> {
    let event = event_type(state, value);
    let notice = search_notice(state, value);
    let pieces = text_emitted(state.kind, added_text(state.full, event, value))
        + reasoning_emitted(state.kind, added_reasoning(event, value));
    let full = responses_value_state(state, value).full;
    let end = match event_role(event) {
        EventRole::Completed => sse::done_emission(state.kind, "done"@, full),
        EventRole::Failed => sse::done_emission(state.kind, "error"@, full),
        _ => Seq::empty(),
    };
    notice + pieces + end
}

/// The result where the data of an event ends the stream.
pub open spec fn responses_value_end(state: ResponsesState, value: JsonView) -> Option<
    Result<Seq<char>, Seq<char>>,
> {
    match event_role(event_type(state, value)) {
        EventRole::Completed => Some(Ok(text::trim(responses_value_state(state, value).full))),
        EventRole::Failed => Some(Err(failure_message(value))),
        _ => None,
    }
}

/// The effect of a line: one with an event type sets it for the data that follows; one without
/// data, or whose data is not JSON, has none; the data `[DONE]` ends the stream.
pub open spec fn responses_line(state: ResponsesState, line: Seq<char>) -> LineEffect<
    ResponsesState,
    Result<Seq<char>, Seq<char>>,
> {
    let nothing = LineEffect { state, emitted: Seq::empty(), end: None };
    let plain = text::trim(line);
    if "event:"@.is_prefix_of(plain) {
        LineEffect {
            state: ResponsesState {
                event: text::trim(plain.skip("event:"@.len() as int)),
                ..state
            },
            emitted: Seq::empty(),
            end: None,
        }
    } else {
        match sse::line_data(line) {
            Some(data) => if data == "[DONE]"@ {
                LineEffect {
                    state,
                    emitted: sse::done_emission(state.kind, "done"@, state.full),
                    end: Some(Ok(text::trim(state.full))),
                }
            } else {
                match json_text::parsed_json(data) {
                    Ok(value) => LineEffect {
                        state: responses_value_state(state, value),
                        emitted: responses_value_emitted(state, value),
                        end: responses_value_end(state, value),
                    },
                    Err(_) => nothing,
                }
            },
            None => nothing,
        }
    }
}

/// The effect of a line, as a function.
pub open spec fn responses_step() -> spec_fn(ResponsesState, Seq<char>) -> LineEffect<
    ResponsesState,
    Result<Seq<char>, Seq<char>>,
> {
    |state: ResponsesState, line: Seq<char>| responses_line(state, line)
}

/// What the data of an event of this type is for.
pub fn role_of_event(event: &str) -> (result: EventRole)
    ensures
        result == event_role(event@),
{
    if text::contains(event, "output_text.delta") || text::contains(event, "response.text.delta") {
        EventRole::Text
    } else if text::contains(event, "reasoning") && text::contains(event, "delta") {
        EventRole::Reasoning
    } else if text::same_text(event, "response.output_text.done") || text::same_text(
        event,
        "response.text.done",
    ) || text::same_text(event, "response.content_part.done") {
        EventRole::Whole
    } else if text::same_text(event, "response.completed") {
        EventRole::Completed
    } else if text::same_text(event, "response.failed") || text::same_text(
        event,
        "response.incomplete",
    ) || text::same_text(event, "error") {
        EventRole::Failed
    } else {
        EventRole::Other
    }
}

/// Whether an event tells of a search in the web.
fn is_web_search(event: &str, value: &Json) -> (result: bool)
    ensures
        result == tells_of_web_search(event@, value@),
{
    let by_item = match value.get("item") {
        Some(item) => match item.text_at("type") {
            Some(kind) => text::contains(kind, "web_search"),
            None => false,
        },
        None => false,
    };
    by_item || text::contains(event, "web_search")
}

/// The message of a failed answer.
fn message_of_failure(value: &Json) -> (result: String)
    ensures
        result@ == failure_message(value@),
{
    let inner = match value.get("response") {
        Some(response) => response.get("error"),
        None => None,
    };
    let reason = match value.get("error") {
        Some(error) => error,
        None => match inner {
            Some(error) => error,
            None => value,
        },
    };
    let beginning = text::head_text(&json_text::write_json(reason), 500);
    "Responses stream error: ".to_owned().concat(&beginning)
}

/// The stream of an answer of the responses API.
pub struct ResponsesStream {
    kind: String,
    buffer: String,
    full: String,
    noticed: bool,
    event: String,
}

impl ResponsesStream {
    /// The state of the stream.
    pub closed spec fn state(self) -> ResponsesState {
        ResponsesState {
            kind: self.kind@,
            full: self.full@,
            noticed: self.noticed,
            event: self.event@,
        }
    }

    /// The text after the last complete line.
    pub closed spec fn rest(self) -> Seq<char> {
        self.buffer@
    }

    /// The effect of a further text.
    pub open spec fn fed(self, more: Seq<char>) -> TextEffect<
        ResponsesState,
        Result<Seq<char>, Seq<char>>,
    > {
        sse::run_lines(responses_step(), self.state(), self.rest() + more)
    }

    /// A stream at its start, with events of the kind `kind`.
    pub fn new(kind: &str) -> (result: ResponsesStream)
        ensures
            result.state() == (ResponsesState {
                kind: kind@,
                full: Seq::empty(),
                noticed: false,
                event: Seq::empty(),
            }),
            result.rest() == Seq::<char>::empty(),
    {
        ResponsesStream {
            kind: kind.to_owned(),
            buffer: String::new(),
            full: String::new(),
            noticed: false,
            event: String::new(),
        }
    }

    /// Adds a piece to the text and appends the event that carries it, where it is not empty.
    fn emit_responses_text_delta(&mut self, delta: &str, emitted: &mut Vec<Emission>)
        ensures
            final(self).state() == (ResponsesState {
                full: old(self).state().full + delta@,
                ..old(self).state()
            }),
            final(self).rest() == old(self).rest(),
            sse::emissions_view(final(emitted)@) == sse::emissions_view(old(emitted)@)
                + text_emitted(old(self).state().kind, delta@),
    {
        let ghost before = sse::emissions_view(emitted@);
        if delta.is_empty() {
            assert(self.full@ =~= self.full@ + delta@);
        } else {
            self.full.append(delta);
            sse::emit(
                emitted,
                Emission::Delta { kind: self.kind.clone(), delta: delta.to_owned() },
            );
        }
        assert(sse::emissions_view(emitted@) =~= before + text_emitted(self.kind@, delta@));
    }

    /// Appends the event that carries a piece of reasoning, where it is not empty.
    fn emit_responses_reasoning_delta(&self, delta: &str, emitted: &mut Vec<Emission>)
        ensures
            sse::emissions_view(final(emitted)@) == sse::emissions_view(old(emitted)@)
                + reasoning_emitted(self.state().kind, delta@),
    {
        let ghost before = sse::emissions_view(emitted@);
        if !delta.is_empty() {
            sse::emit(
                emitted,
                Emission::Reasoning { kind: self.kind.clone(), delta: delta.to_owned() },
            );
        }
        assert(sse::emissions_view(emitted@) =~= before + reasoning_emitted(self.kind@, delta@));
    }

    /// Appends the event that ends the stream, and gives the text without surrounding white space.
    fn emit_done(&self, reason: &str, emitted: &mut Vec<Emission>) -> (full: String)
        ensures
            sse::emissions_view(final(emitted)@) == sse::emissions_view(old(emitted)@)
                + sse::done_emission(self.state().kind, reason@, self.state().full),
            full@ == text::trim(self.state().full),
    {
        let ghost before = sse::emissions_view(emitted@);
        let full = text::trim_text(&self.full);
        sse::emit(
            emitted,
            Emission::Done {
                kind: self.kind.clone(),
                reason: reason.to_owned(),
                full: full.clone(),
            },
        );
        assert(sse::emissions_view(emitted@) =~= before + sse::done_emission(
            self.kind@,
            reason@,
            self.full@,
        ));
        full
    }

    /// The piece of text that an event adds.
    fn piece_of(&self, event: &str, value: &Json) -> (result: String)
        ensures
            result@ == added_text(self.state().full, event@, value@),
    {
        let piece = match role_of_event(event) {
            EventRole::Text | EventRole::Other => responses::response_stream_delta_text(value),
            EventRole::Whole => match responses::response_stream_done_text(value) {
                Some(whole) => match text::strip_prefix(&whole, &self.full) {
                    Some(rest) => Some(rest),
                    None => Some(whole),
                },
                None => None,
            },
            EventRole::Completed => if text::trim_text(&self.full).as_str().is_empty() {
                match value.get("response") {
                    Some(response) => responses::response_output_text(response),
                    None => None,
                }
            } else {
                None
            },
            EventRole::Reasoning | EventRole::Failed => None,
        };
        match piece {
            Some(piece) => piece,
            None => String::new(),
        }
    }

    /// Takes in the data of an event, appends the events that it causes, and gives the result where
    /// it ends the stream.
    pub fn on_value(&mut self, value: &Json, emitted: &mut Vec<Emission>) -> (end: Option<
        Result<String, String>,
    >)
        ensures
            final(self).state() == responses_value_state(old(self).state(), value@),
            final(self).rest() == old(self).rest(),
            sse::emissions_view(final(emitted)@) == sse::emissions_view(old(emitted)@)
                + responses_value_emitted(old(self).state(), value@),
            sse::result_view(end) == responses_value_end(old(self).state(), value@),
    {
        let ghost before = sse::emissions_view(emitted@);
        let ghost start = self.state();
        let event = match value.text_at("type") {
            Some(event) => event.to_owned(),
            None => self.event.clone(),
        };
        self.event = String::new();
        if !self.noticed && is_web_search(&event, value) {
            self.noticed = true;
            sse::emit(
                emitted,
                Emission::Reasoning {
                    kind: self.kind.clone(),
                    delta: WEB_SEARCH_NOTICE.to_owned(),
                },
            );
        }
        let piece = self.piece_of(&event, value);
        self.emit_responses_text_delta(&piece, emitted);
        let mut end: Option<Result<String, String>> = None;
        match role_of_event(&event) {
            EventRole::Reasoning => {
                if let Some(delta) = responses::response_stream_delta_text(value) {
                    self.emit_responses_reasoning_delta(&delta, emitted);
                }
            },
            EventRole::Completed => {
                let full = self.emit_done("done", emitted);
                end = Some(Ok(full));
            },
            EventRole::Failed => {
                let _full = self.emit_done("error", emitted);
                end = Some(Err(message_of_failure(value)));
            },
            _ => {},
        }
        assert(self.state() == responses_value_state(start, value@));
        assert(sse::emissions_view(emitted@) =~= before + responses_value_emitted(start, value@));
        end
    }

    /// Takes in a line, appends the events that it causes, and gives the result where it ends the
    /// stream.
    pub fn on_line(&mut self, line: &str, emitted: &mut Vec<Emission>) -> (end: Option<
        Result<String, String>,
    >)
        ensures
            final(self).state() == responses_line(old(self).state(), line@).state,
            final(self).rest() == old(self).rest(),
            sse::emissions_view(final(emitted)@) == sse::emissions_view(old(emitted)@)
                + responses_line(old(self).state(), line@).emitted,
            sse::result_view(end) == responses_line(old(self).state(), line@).end,
    {
        let ghost before = sse::emissions_view(emitted@);
        let plain = text::trim_text(line);
        if let Some(event) = text::strip_prefix(&plain, "event:") {
            self.event = text::trim_text(&event);
            assert(sse::emissions_view(emitted@) =~= before + Seq::empty());
            return None;
        }
        match sse::data_of_line(line) {
            Some(data) => {
                if text::same_text(&data, "[DONE]") {
                    let full = self.emit_done("done", emitted);
                    return Some(Ok(full));
                }
                match json_text::read_json(&data) {
                    Ok(value) => self.on_value(&value, emitted),
                    Err(_) => {
                        assert(sse::emissions_view(emitted@) =~= before + Seq::empty());
                        None
                    },
                }
            },
            None => {
                assert(sse::emissions_view(emitted@) =~= before + Seq::empty());
                None
            },
        }
    }

    /// Takes in a further text: its complete lines are worked off, until one of them ends the
    /// stream.
    pub fn feed_text(&mut self, more: &str) -> (turn: Turn)
        ensures
            final(self).state() == old(self).fed(more@).state,
            final(self).rest() == old(self).fed(more@).buffer,
            sse::emissions_view(turn.emitted@) == old(self).fed(more@).emitted,
            sse::result_view(turn.end) == old(self).fed(more@).end,
    {
        let ghost whole = self.fed(more@);
        self.buffer.append(more);
        let mut emitted: Vec<Emission> = Vec::new();
        assert(sse::emissions_view(emitted@) + whole.emitted =~= whole.emitted);
        loop
            invariant
                whole == old(self).fed(more@),
                ({
                    let further = sse::run_lines(responses_step(), self.state(), self.rest());
                    &&& whole.state == further.state
                    &&& whole.buffer == further.buffer
                    &&& whole.emitted == sse::emissions_view(emitted@) + further.emitted
                    &&& whole.end == further.end
                }),
            decreases self.rest().len(),
        {
            let ghost before = *self;
            let ghost sent = sse::emissions_view(emitted@);
            let ghost further = sse::run_lines(responses_step(), self.state(), self.rest());
            match sse::take_line(&mut self.buffer) {
                Some(line) => {
                    let ghost effect = responses_line(before.state(), line@);
                    let end = self.on_line(&line, &mut emitted);
                    if end.is_some() {
                        return Turn { emitted, end };
                    }
                    assert((sent + effect.emitted) + sse::run_lines(
                        responses_step(),
                        self.state(),
                        self.rest(),
                    ).emitted =~= sent + further.emitted);
                },
                None => {
                    assert(sent + further.emitted =~= sent);
                    return Turn { emitted, end: None };
                },
            }
        }
    }

    /// Takes in a further chunk of bytes.
    pub fn feed(&mut self, chunk: &[u8]) -> (turn: Turn)
        ensures
            final(self).state() == old(self).fed(text::lossy_text(chunk@)).state,
            final(self).rest() == old(self).fed(text::lossy_text(chunk@)).buffer,
            sse::emissions_view(turn.emitted@) == old(self).fed(text::lossy_text(chunk@)).emitted,
            sse::result_view(turn.end) == old(self).fed(text::lossy_text(chunk@)).end,
            vstd::utf8::valid_utf8(chunk@) ==> text::lossy_text(chunk@) == vstd::utf8::decode_utf8(
                chunk@,
            ),
    {
        let more = text::decode_lossy(chunk);
        self.feed_text(&more)
    }

    /// The stream was superseded or cancelled: it returns the text that has come so far.
    pub fn cancel(&self) -> (turn: Turn)
        ensures
            sse::emissions_view(turn.emitted@) == sse::done_emission(
                self.state().kind,
                "cancelled"@,
                self.state().full,
            ),
            sse::result_view(turn.end) == Some(
                Ok::<Seq<char>, Seq<char>>(text::trim(self.state().full)),
            ),
    {
        let mut emitted: Vec<Emission> = Vec::new();
        let full = self.emit_done("cancelled", &mut emitted);
        assert(sse::emissions_view(emitted@) =~= sse::done_emission(
            self.kind@,
            "cancelled"@,
            self.full@,
        ));
        Turn { emitted, end: Some(Ok(full)) }
    }

    /// The connection was closed: the stream returns the text that has come.
    pub fn finish(&self) -> (turn: Turn)
        ensures
            sse::emissions_view(turn.emitted@) == sse::done_emission(
                self.state().kind,
                "done"@,
                self.state().full,
            ),
            sse::result_view(turn.end) == Some(
                Ok::<Seq<char>, Seq<char>>(text::trim(self.state().full)),
            ),
    {
        let mut emitted: Vec<Emission> = Vec::new();
        let full = self.emit_done("done", &mut emitted);
        assert(sse::emissions_view(emitted@) =~= sse::done_emission(
            self.kind@,
            "done"@,
            self.full@,
        ));
        Turn { emitted, end: Some(Ok(full)) }
    }

    /// Reading from the connection failed: the stream returns a message with that of the failure.
    pub fn fail(&self, message: &str) -> (turn: Turn)
        ensures
            sse::emissions_view(turn.emitted@) == sse::done_emission(
                self.state().kind,
                "error"@,
                self.state().full,
            ),
            sse::result_view(turn.end) == Some(
                Err::<Seq<char>, Seq<char>>("Responses stream read body: "@ + message@),
            ),
    {
        let mut emitted: Vec<Emission> = Vec::new();
        let _full = self.emit_done("error", &mut emitted);
        assert(sse::emissions_view(emitted@) =~= sse::done_emission(
            self.kind@,
            "error"@,
            self.full@,
        ));
        let message = "Responses stream read body: ".to_owned().concat(message);
        Turn { emitted, end: Some(Err(message)) }
    }
}

/// The text that the events of one row of pieces carry.
proof fn lemma_value_text(state: ResponsesState, value: JsonView)
    ensures
        ({
            let after = responses_value_state(state, value);
            let emitted = responses_value_emitted(state, value);
            after.full == state.full + sse::delta_text(emitted, state.kind)
        }),
{
    reveal_with_fuel(sse::delta_text, 3);
    let kind = state.kind;
    let event = event_type(state, value);
    let added = added_text(state.full, event, value);
    let notice = search_notice(state, value);
    let own = text_emitted(kind, added);
    let thought = reasoning_emitted(kind, added_reasoning(event, value));
    let full = responses_value_state(state, value).full;
    let end = match event_role(event) {
        EventRole::Completed => sse::done_emission(kind, "done"@, full),
        EventRole::Failed => sse::done_emission(kind, "error"@, full),
        _ => Seq::empty(),
    };
    assert(sse::delta_text(notice, kind) =~= Seq::empty());
    assert(sse::delta_text(thought, kind) =~= Seq::empty());
    assert(sse::delta_text(end, kind) =~= Seq::empty());
    assert(sse::delta_text(own, kind) =~= added) by {
        if added.len() > 0 {
            assert(own.drop_last() =~= Seq::empty());
        }
    }
    sse::lemma_delta_text_append(own, thought, kind);
    sse::lemma_delta_text_append(notice, own + thought, kind);
    sse::lemma_delta_text_append(notice + (own + thought), end, kind);
    assert(sse::delta_text(responses_value_emitted(state, value), kind) =~= added);
}

/// The text that a stream holds is the text of the events that it has handed on: what a further
/// text adds to the one it adds to the other.
pub proof fn law_full_text_is_what_was_emitted(state: ResponsesState, buffer: Seq<char>)
    ensures
        ({
            let effect = sse::run_lines(responses_step(), state, buffer);
            &&& effect.state.kind == state.kind
            &&& effect.state.full == state.full + sse::delta_text(effect.emitted, state.kind)
        }),
    decreases buffer.len(),
{
    let effect = sse::run_lines(responses_step(), state, buffer);
    match sse::line_end(buffer) {
        Some(i) => {
            text::lemma_find(buffer, seq!['\n']);
            let line = responses_line(state, buffer.take(i + 1));
            assert(line.state.full == state.full + sse::delta_text(line.emitted, state.kind)) by {
                reveal_with_fuel(sse::delta_text, 2);
                if let Some(data) = sse::line_data(buffer.take(i + 1)) {
                    if let Ok(value) = json_text::parsed_json(data) {
                        lemma_value_text(state, value);
                    }
                }
                assert(state.full + Seq::empty() =~= state.full);
            }
            if line.end is None {
                let rest = buffer.skip(i + 1);
                law_full_text_is_what_was_emitted(line.state, rest);
                let further = sse::run_lines(responses_step(), line.state, rest);
                sse::lemma_delta_text_append(line.emitted, further.emitted, state.kind);
                assert(state.full + sse::delta_text(effect.emitted, state.kind)
                    =~= effect.state.full);
            }
        },
        None => {
            assert(state.full + sse::delta_text(effect.emitted, state.kind) =~= state.full);
        },
    }
}

/// Cutting the text of a stream into pieces makes no difference to its events and its result.
pub proof fn law_pieces_do_not_matter(stream: ResponsesStream, a: Seq<char>, b: Seq<char>)
    ensures
        ({
            let first = stream.fed(a);
            let second = sse::run_lines(responses_step(), first.state, first.buffer + b);
            let whole = stream.fed(a + b);
            if first.end is Some {
                whole.emitted == first.emitted && whole.end == first.end
            } else {
                &&& whole.state == second.state
                &&& whole.buffer == second.buffer
                &&& whole.emitted == first.emitted + second.emitted
                &&& whole.end == second.end
            }
        }),
{
    sse::law_pieces_do_not_matter(responses_step(), stream.state(), stream.rest() + a, b);
    assert(stream.rest() + (a + b) =~= (stream.rest() + a) + b);
}

/// Text that has come is not repeated. An event that reports a whole text which begins with what
/// has come leaves exactly that text; the end of an answer of which text has come adds nothing.
pub proof fn law_text_is_not_repeated(state: ResponsesState, value: JsonView)
    ensures
        event_role(event_type(state, value)) is Whole && (responses::stream_whole(
            value,
        ) matches Some(whole) && state.full.is_prefix_of(whole)) ==> responses_value_state(
            state,
            value,
        ).full == responses::stream_whole(value)->0,
        event_role(event_type(state, value)) is Completed && text::trim(state.full).len() > 0
            ==> responses_value_state(state, value).full == state.full,
{
    if let Some(whole) = responses::stream_whole(value) {
        if state.full.is_prefix_of(whole) {
            assert(state.full + whole.skip(state.full.len() as int) =~= whole);
        }
    }
    assert(state.full + Seq::empty() =~= state.full);
}

/// A search in the web is told of once: when it was, the stream remembers that whatever comes, and
/// no further data is announced with a notice.
pub proof fn law_search_is_told_of_once(
    state: ResponsesState,
    value: JsonView,
    buffer: Seq<char>,
    later: JsonView,
)
    requires
        search_notice(state, value).len() > 0,
    ensures
        ({
            let told = responses_value_state(state, value);
            let reached = sse::run_lines(responses_step(), told, buffer).state;
            search_notice(reached, later).len() == 0
        }),
{
    lemma_notice_is_kept(responses_value_state(state, value), buffer);
}

/// What was told of stays told of.
proof fn lemma_notice_is_kept(state: ResponsesState, buffer: Seq<char>)
    requires
        state.noticed,
    ensures
        sse::run_lines(responses_step(), state, buffer).state.noticed,
    decreases buffer.len(),
{
    text::lemma_find(buffer, seq!['\n']);
    if let Some(i) = sse::line_end(buffer) {
        let line = responses_line(state, buffer.take(i + 1));
        if line.end is None {
            lemma_notice_is_kept(line.state, buffer.skip(i + 1));
        }
    }
}

}
