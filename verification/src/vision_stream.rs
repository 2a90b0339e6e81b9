//! The stream of a chat completion that answers with one text.

use crate::json::{Json, JsonView};
use crate::sse::{Emission, EmissionView, LineEffect, TextEffect, Turn};
use crate::{json_text, sse, text};
use vstd::prelude::*;
use vstd::string::*;

verus! {

/// What such a stream remembers from one line to the next: the kind of its events and the text
/// that has come so far.
pub struct ChatState {
    pub kind: Seq<char>,
    pub full: Seq<char>,
}

/// The events that a chunk causes: its piece of reasoning, then its piece of text.
pub open spec fn chat_value_emitted(kind: Seq<char>, value: JsonView) -> Seq<EmissionView> {
    let reasoning = match sse::reasoning_piece(value) {
        Some(delta) => seq![EmissionView::Reasoning { kind, delta }],
        None => Seq::empty(),
    };
    match sse::content_piece(value) {
        Some(delta) => reasoning.push(EmissionView::Delta { kind, delta }),
        None => reasoning,
    }
}

/// The text after a chunk: its piece of text is appended.
pub open spec fn chat_value_full(full: Seq<char>, value: JsonView) -> Seq<char> {
    match sse::content_piece(value) {
        Some(delta) => full + delta,
        None => full,
    }
}

/// The effect of a line: one without data, or whose data is not JSON, has none; the data `[DONE]`
/// ends the stream.
pub open spec fn chat_line(state: ChatState, line: Seq<char>) -> LineEffect<
    ChatState,
    Result<Seq<char>, Seq<char>>,
> {
    let nothing = LineEffect { state, emitted: Seq::empty(), end: None };
    match sse::line_data(line) {
        Some(data) => if data == "[DONE]"@ {
            LineEffect {
                state,
                emitted: sse::done_emission(state.kind, "done"@, state.full),
                end: Some(Ok(text::trim(state.full))),
            }
        } else {
            match json_text::parsed_json(data) {
                Ok(value) => LineEffect {
                    state: ChatState {
                        kind: state.kind,
                        full: chat_value_full(state.full, value),
                    },
                    emitted: chat_value_emitted(state.kind, value),
                    end: None,
                },
                Err(_) => nothing,
            }
        },
        None => nothing,
    }
}

/// The effect of a line, as a function.
pub open spec fn chat_step() -> spec_fn(ChatState, Seq<char>) -> LineEffect<
    ChatState,
    Result<Seq<char>, Seq<char>>,
> {
    |state: ChatState, line: Seq<char>| chat_line(state, line)
}

/// The stream of a chat completion that answers with one text.
pub struct VisionStream {
    kind: String,
    buffer: String,
    full: String,
}

impl VisionStream {
    /// The kind of the events and the text that has come so far.
    pub closed spec fn state(self) -> ChatState {
        ChatState { kind: self.kind@, full: self.full@ }
    }

    /// The text after the last complete line.
    pub closed spec fn rest(self) -> Seq<char> {
        self.buffer@
    }

    /// The effect of a further text.
    pub open spec fn fed(self, more: Seq<char>) -> TextEffect<
        ChatState,
        Result<Seq<char>, Seq<char>>,
    > {
        sse::run_lines(chat_step(), self.state(), self.rest() + more)
    }

    /// A stream at its start, with events of the kind `kind`.
    pub fn new(kind: &str) -> (result: VisionStream)
        ensures
            result.state() == (ChatState { kind: kind@, full: Seq::empty() }),
            result.rest() == Seq::<char>::empty(),
    {
        VisionStream { kind: kind.to_owned(), buffer: String::new(), full: String::new() }
    }

    /// Takes in a chunk and appends the events that it causes.
    pub fn on_value(&mut self, value: &Json, emitted: &mut Vec<Emission>)
        ensures
            final(self).state() == (ChatState {
                kind: old(self).state().kind,
                full: chat_value_full(old(self).state().full, value@),
            }),
            final(self).rest() == old(self).rest(),
            sse::emissions_view(final(emitted)@) == sse::emissions_view(old(emitted)@)
                + chat_value_emitted(old(self).state().kind, value@),
    {
        let ghost before = sse::emissions_view(emitted@);
        if let Some(delta) = sse::reasoning_of(value) {
            sse::emit(emitted, Emission::Reasoning { kind: self.kind.clone(), delta });
        }
        if let Some(delta) = sse::content_of(value) {
            self.full.append(&delta);
            sse::emit(emitted, Emission::Delta { kind: self.kind.clone(), delta });
        }
        assert(sse::emissions_view(emitted@) =~= before + chat_value_emitted(
            old(self).kind@,
            value@,
        ));
    }

    /// Takes in a line, appends the events that it causes, and gives the result where it ends the
    /// stream.
    pub fn on_line(&mut self, line: &str, emitted: &mut Vec<Emission>) -> (end: Option<
        Result<String, String>,
    >)
        ensures
            final(self).state() == chat_line(old(self).state(), line@).state,
            final(self).rest() == old(self).rest(),
            sse::emissions_view(final(emitted)@) == sse::emissions_view(old(emitted)@) + chat_line(
                old(self).state(),
                line@,
            ).emitted,
            sse::result_view(end) == chat_line(old(self).state(), line@).end,
    {
        let ghost before = sse::emissions_view(emitted@);
        match sse::data_of_line(line) {
            Some(data) => {
                if text::same_text(&data, "[DONE]") {
                    let full = text::trim_text(&self.full);
                    sse::emit(
                        emitted,
                        Emission::Done {
                            kind: self.kind.clone(),
                            reason: "done".to_owned(),
                            full: full.clone(),
                        },
                    );
                    assert(sse::emissions_view(emitted@) =~= before + sse::done_emission(
                        self.kind@,
                        "done"@,
                        self.full@,
                    ));
                    return Some(Ok(full));
                }
                if let Ok(value) = json_text::read_json(&data) {
                    self.on_value(&value, emitted);
                } else {
                    assert(sse::emissions_view(emitted@) =~= before + Seq::empty());
                }
                None
            },
            None => {
                assert(sse::emissions_view(emitted@) =~= before + Seq::empty());
                None
            },
        }
    }

    /// Takes in a further text: its complete lines are worked off, until one of them ends the
    /// stream.
    pub fn feed_text(&mut self, more: &str) -> (turn: Turn)
        ensures
            final(self).state() == old(self).fed(more@).state,
            final(self).rest() == old(self).fed(more@).buffer,
            sse::emissions_view(turn.emitted@) == old(self).fed(more@).emitted,
            sse::result_view(turn.end) == old(self).fed(more@).end,
    {
        let ghost whole = self.fed(more@);
        self.buffer.append(more);
        let mut emitted: Vec<Emission> = Vec::new();
        assert(sse::emissions_view(emitted@) + whole.emitted =~= whole.emitted);
        loop
            invariant
                whole == old(self).fed(more@),
                ({
                    let further = sse::run_lines(chat_step(), self.state(), self.rest());
                    &&& whole.state == further.state
                    &&& whole.buffer == further.buffer
                    &&& whole.emitted == sse::emissions_view(emitted@) + further.emitted
                    &&& whole.end == further.end
                }),
            decreases self.rest().len(),
        {
            let ghost before = *self;
            let ghost sent = sse::emissions_view(emitted@);
            let ghost further = sse::run_lines(chat_step(), self.state(), self.rest());
            match sse::take_line(&mut self.buffer) {
                Some(line) => {
                    let ghost effect = chat_line(before.state(), line@);
                    let end = self.on_line(&line, &mut emitted);
                    if end.is_some() {
                        return Turn { emitted, end };
                    }
                    assert((sent + effect.emitted) + sse::run_lines(
                        chat_step(),
                        self.state(),
                        self.rest(),
                    ).emitted =~= sent + further.emitted);
                },
                None => {
                    assert(sent + further.emitted =~= sent);
                    return Turn { emitted, end: None };
                },
            }
        }
    }

    /// Takes in a further chunk of bytes.
    pub fn feed(&mut self, chunk: &[u8]) -> (turn: Turn)
        ensures
            final(self).state() == old(self).fed(text::lossy_text(chunk@)).state,
            final(self).rest() == old(self).fed(text::lossy_text(chunk@)).buffer,
            sse::emissions_view(turn.emitted@) == old(self).fed(text::lossy_text(chunk@)).emitted,
            sse::result_view(turn.end) == old(self).fed(text::lossy_text(chunk@)).end,
            vstd::utf8::valid_utf8(chunk@) ==> text::lossy_text(chunk@) == vstd::utf8::decode_utf8(
                chunk@,
            ),
    {
        let more = text::decode_lossy(chunk);
        self.feed_text(&more)
    }

    /// The last turn of a stream, with the reason why it ends and its result.
    fn ended(&self, reason: &str, end: Result<String, String>) -> (turn: Turn)
        ensures
            sse::emissions_view(turn.emitted@) == sse::done_emission(
                self.state().kind,
                reason@,
                self.state().full,
            ),
            turn.end == Some(end),
    {
        let mut emitted: Vec<Emission> = Vec::new();
        sse::emit(
            &mut emitted,
            Emission::Done {
                kind: self.kind.clone(),
                reason: reason.to_owned(),
                full: text::trim_text(&self.full),
            },
        );
        assert(sse::emissions_view(emitted@) =~= sse::done_emission(
            self.kind@,
            reason@,
            self.full@,
        ));
        Turn { emitted, end: Some(end) }
    }

    /// The stream was superseded or cancelled: it returns the text that has come so far.
    pub fn cancel(&self) -> (turn: Turn)
        ensures
            sse::emissions_view(turn.emitted@) == sse::done_emission(
                self.state().kind,
                "cancelled"@,
                self.state().full,
            ),
            sse::result_view(turn.end) == Some(
                Ok::<Seq<char>, Seq<char>>(text::trim(self.state().full)),
            ),
    {
        self.ended("cancelled", Ok(text::trim_text(&self.full)))
    }

    /// The connection was closed: the stream returns the text that has come.
    pub fn finish(&self) -> (turn: Turn)
        ensures
            sse::emissions_view(turn.emitted@) == sse::done_emission(
                self.state().kind,
                "done"@,
                self.state().full,
            ),
            sse::result_view(turn.end) == Some(
                Ok::<Seq<char>, Seq<char>>(text::trim(self.state().full)),
            ),
    {
        self.ended("done", Ok(text::trim_text(&self.full)))
    }

    /// Reading from the connection failed: the stream returns the message of the failure.
    pub fn fail(&self, message: &str) -> (turn: Turn)
        ensures
            sse::emissions_view(turn.emitted@) == sse::done_emission(
                self.state().kind,
                "error"@,
                self.state().full,
            ),
            sse::result_view(turn.end) == Some(Err::<Seq<char>, Seq<char>>(message@)),
    {
        self.ended("error", Err(message.to_owned()))
    }
}

/// The text that a stream holds is the text of the events that it has handed on: what a further
/// text adds to the one it adds to the other.
pub proof fn law_full_text_is_what_was_emitted(state: ChatState, buffer: Seq<char>)
    ensures
        ({
            let effect = sse::run_lines(chat_step(), state, buffer);
            &&& effect.state.kind == state.kind
            &&& effect.state.full == state.full + sse::delta_text(effect.emitted, state.kind)
        }),
    decreases buffer.len(),
{
    let effect = sse::run_lines(chat_step(), state, buffer);
    match sse::line_end(buffer) {
        Some(i) => {
            text::lemma_find(buffer, seq!['\n']);
            let line = chat_line(state, buffer.take(i + 1));
            assert(line.state.full == state.full + sse::delta_text(line.emitted, state.kind)) by {
                lemma_line_text(state, buffer.take(i + 1));
            }
            if line.end is None {
                let rest = buffer.skip(i + 1);
                law_full_text_is_what_was_emitted(line.state, rest);
                let further = sse::run_lines(chat_step(), line.state, rest);
                sse::lemma_delta_text_append(line.emitted, further.emitted, state.kind);
                assert(state.full + sse::delta_text(effect.emitted, state.kind) =~= effect.state.full);
            }
        },
        None => {
            assert(state.full + sse::delta_text(effect.emitted, state.kind) =~= state.full);
        },
    }
}

/// The same for one line.
proof fn lemma_line_text(state: ChatState, line: Seq<char>)
    ensures
        ({
            let effect = chat_line(state, line);
            &&& effect.state.kind == state.kind
            &&& effect.state.full == state.full + sse::delta_text(effect.emitted, state.kind)
        }),
{
    reveal_with_fuel(sse::delta_text, 3);
    let effect = chat_line(state, line);
    assert(effect.state.full =~= state.full + sse::delta_text(effect.emitted, state.kind));
}

/// Cutting the text of a stream into pieces makes no difference to its events and its result.
pub proof fn law_pieces_do_not_matter(stream: VisionStream, a: Seq<char>, b: Seq<char>)
    ensures
        ({
            let first = stream.fed(a);
            let second = sse::run_lines(chat_step(), first.state, first.buffer + b);
            let whole = stream.fed(a + b);
            if first.end is Some {
                whole.emitted == first.emitted && whole.end == first.end
            } else {
                &&& whole.state == second.state
                &&& whole.buffer == second.buffer
                &&& whole.emitted == first.emitted + second.emitted
                &&& whole.end == second.end
            }
        }),
{
    sse::law_pieces_do_not_matter(chat_step(), stream.state(), stream.rest() + a, b);
    assert(stream.rest() + (a + b) =~= (stream.rest() + a) + b);
}

}
