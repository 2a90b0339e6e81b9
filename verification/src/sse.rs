//! Server-sent events: cutting a stream of text into lines, reading the data of a line, and the
//! events that a stream hands on to the window that shows it.

use crate::json::{Json, JsonView};
use crate::{json, text};
use vstd::prelude::*;
use vstd::string::*;

verus! {

// ===== Events for the window =====

/// An event that a stream hands on.
#[derive(Debug, PartialEq, Eq)]
pub enum Emission {
    /// A further piece of the text.
    Delta { kind: String, delta: String },
    /// A further piece of the reasoning that leads to the text.
    Reasoning { kind: String, delta: String },
    /// The end of a stream that returns one text.
    Done { kind: String, reason: String, full: String },
    /// The end of a stream that returns a translation and its original.
    End { reason: String },
}

/// What an event holds.
pub enum EmissionView {
    Delta { kind: Seq<char>, delta: Seq<char> },
    Reasoning { kind: Seq<char>, delta: Seq<char> },
    Done { kind: Seq<char>, reason: Seq<char>, full: Seq<char> },
    End { reason: Seq<char> },
}

impl View for Emission {
    type V = EmissionView;

    open spec fn view(&self) -> EmissionView {
        match *self {
            Emission::Delta { kind, delta } => EmissionView::Delta { kind: kind@, delta: delta@ },
            Emission::Reasoning { kind, delta } => EmissionView::Reasoning {
                kind: kind@,
                delta: delta@,
            },
            Emission::Done { kind, reason, full } => EmissionView::Done {
                kind: kind@,
                reason: reason@,
                full: full@,
            },
            Emission::End { reason } => EmissionView::End { reason: reason@ },
        }
    }
}

/// What the events of a row hold.
pub open spec fn emissions_view(emissions: Seq<Emission>) -> Seq<EmissionView> {
    Seq::new(emissions.len(), |i: int| emissions[i]@)
}

/// The pieces of text that the events of a kind carry, put together.
pub open spec fn delta_text(emissions: Seq<EmissionView>, wanted: Seq<char>) -> Seq<char>
    decreases emissions.len(),
{
    if emissions.len() == 0 {
        Seq::empty()
    } else {
        let before = delta_text(emissions.drop_last(), wanted);
        match emissions.last() {
            EmissionView::Delta { kind, delta } => if kind == wanted {
                before + delta
            } else {
                before
            },
            _ => before,
        }
    }
}

/// The text that two rows carry is that of the first and then that of the second.
pub proof fn lemma_delta_text_append(
    a: Seq<EmissionView>,
    b: Seq<EmissionView>,
    wanted: Seq<char>,
)
    ensures
        delta_text(a + b, wanted) == delta_text(a, wanted) + delta_text(b, wanted),
    decreases b.len(),
{
    if b.len() == 0 {
        assert(a + b =~= a);
        assert(delta_text(a, wanted) + delta_text(b, wanted) =~= delta_text(a, wanted));
    } else {
        lemma_delta_text_append(a, b.drop_last(), wanted);
        assert((a + b).drop_last() =~= a + b.drop_last());
        assert((a + b).last() == b.last());
        assert(delta_text(a + b, wanted) =~= delta_text(a, wanted) + delta_text(b, wanted));
    }
}

/// The message that carries an event about the image `image_id`.
pub open spec fn payload_json(emission: EmissionView, image_id: Seq<char>) -> JsonView {
    let about = json::empty_object().with("imageId"@, JsonView::Str(image_id));
    match emission {
        EmissionView::Delta { kind, delta } => about.with("kind"@, JsonView::Str(kind)).with(
            "delta"@,
            JsonView::Str(delta),
        ),
        EmissionView::Reasoning { kind, delta } => about.with("kind"@, JsonView::Str(kind)).with(
            "delta"@,
            JsonView::Str(""@),
        ).with("reasoningDelta"@, JsonView::Str(delta)),
        EmissionView::Done { kind, reason, full } => about.with("kind"@, JsonView::Str(kind)).with(
            "delta"@,
            JsonView::Str(""@),
        ).with("done"@, JsonView::Bool(true)).with("reason"@, JsonView::Str(reason)).with(
            "full"@,
            JsonView::Str(full),
        ),
        EmissionView::End { reason } => about.with("delta"@, JsonView::Str(""@)).with(
            "done"@,
            JsonView::Bool(true),
        ).with("reason"@, JsonView::Str(reason)),
    }
}

impl Emission {
    /// The message that carries this event about the image `image_id`.
    pub fn payload(&self, image_id: &str) -> (result: Json)
        ensures
            result@ == payload_json(self@, image_id@),
    {
        let about = Json::object().with("imageId", Json::string(image_id));
        match self {
            Emission::Delta { kind, delta } => about.with("kind", Json::string(kind)).with(
                "delta",
                Json::string(delta),
            ),
            Emission::Reasoning { kind, delta } => about.with("kind", Json::string(kind)).with(
                "delta",
                Json::string(""),
            ).with("reasoningDelta", Json::string(delta)),
            Emission::Done { kind, reason, full } => about.with("kind", Json::string(kind)).with(
                "delta",
                Json::string(""),
            ).with("done", Json::Bool(true)).with("reason", Json::string(reason)).with(
                "full",
                Json::string(full),
            ),
            Emission::End { reason } => about.with("delta", Json::string("")).with(
                "done",
                Json::Bool(true),
            ).with("reason", Json::string(reason)),
        }
    }
}

/// What a stream has to say after it was given something: the events to hand on, and the result
/// where the stream has ended.
pub struct Turn {
    pub emitted: Vec<Emission>,
    pub end: Option<Result<String, String>>,
}

/// What the result of a stream holds.
pub open spec fn result_view(end: Option<Result<String, String>>) -> Option<
    Result<Seq<char>, Seq<char>>,
> {
    match end {
        Some(Ok(full)) => Some(Ok(full@)),
        Some(Err(message)) => Some(Err(message@)),
        None => None,
    }
}

/// The events that end a stream of one text: the reason, and the text without surrounding white
/// space.
pub open spec fn done_emission(kind: Seq<char>, reason: Seq<char>, full: Seq<char>) -> Seq<
    EmissionView,
> {
    seq![EmissionView::Done { kind, reason, full: text::trim(full) }]
}

/// Appends an event to a row.
pub fn emit(emitted: &mut Vec<Emission>, emission: Emission)
    ensures
        emissions_view(final(emitted)@) == emissions_view(old(emitted)@).push(emission@),
{
    emitted.push(emission);
    assert(emissions_view(emitted@) =~= emissions_view(old(emitted)@).push(emission@));
}

// ===== Lines =====

/// The position of the first line feed.
pub open spec fn line_end(buffer: Seq<char>) -> Option<int> {
    text::find_text(buffer, seq!['\n'])
}

/// The data that a line carries: what follows the field name `data:`, where it is not empty.
pub open spec fn line_data(line: Seq<char>) -> Option<Seq<char>> {
    let plain = text::trim(line);
    if "data:"@.is_prefix_of(plain) {
        let data = text::trim(text::strip_repeated(plain, "data:"@));
        if data.len() == 0 {
            None
        } else {
            Some(data)
        }
    } else {
        None
    }
}

/// What one line does to a stream: the state that it leaves, the events that it causes, and the
/// result where it ends the stream.
pub struct LineEffect<S, R> {
    pub state: S,
    pub emitted: Seq<EmissionView>,
    pub end: Option<R>,
}

/// What a text does to a stream: as for a line, and the text that is left over.
pub struct TextEffect<S, R> {
    pub state: S,
    pub buffer: Seq<char>,
    pub emitted: Seq<EmissionView>,
    pub end: Option<R>,
}

/// The effect of the complete lines of `buffer`, one after the other, until one of them ends the
/// stream. What stands behind the last line taken is left over.
pub open spec fn run_lines<S, R>(
    step: spec_fn(S, Seq<char>) -> LineEffect<S, R>,
    state: S,
    buffer: Seq<char>,
) -> TextEffect<S, R>
    decreases buffer.len(),
{
    match line_end(buffer) {
        Some(i) => {
            proof {
                text::lemma_find(buffer, seq!['\n']);
            }
            let effect = step(state, buffer.take(i + 1));
            let rest = buffer.skip(i + 1);
            if effect.end is Some {
                TextEffect {
                    state: effect.state,
                    buffer: rest,
                    emitted: effect.emitted,
                    end: effect.end,
                }
            } else {
                let further = run_lines(step, effect.state, rest);
                TextEffect {
                    state: further.state,
                    buffer: further.buffer,
                    emitted: effect.emitted + further.emitted,
                    end: further.end,
                }
            }
        },
        None => TextEffect { state, buffer, emitted: Seq::empty(), end: None },
    }
}

/// The end of the first line stays where it is when text is appended.
proof fn lemma_line_end_append(a: Seq<char>, b: Seq<char>)
    ensures
        line_end(a) matches Some(i) ==> {
            &&& 0 <= i < a.len()
            &&& line_end(a + b) == Some(i)
            &&& (a + b).take(i + 1) == a.take(i + 1)
            &&& (a + b).skip(i + 1) == a.skip(i + 1) + b
        },
{
    text::lemma_find(a, seq!['\n']);
    if let Some(i) = line_end(a) {
        let whole = a + b;
        assert(whole.subrange(i, i + 1) =~= a.subrange(i, i + 1));
        assert forall|j: int| 0 <= j < i implies !#[trigger] text::occurs_at(
            whole,
            seq!['\n'],
            j,
        ) by {
            assert(whole.subrange(j, j + 1) =~= a.subrange(j, j + 1));
            assert(!text::occurs_at(a, seq!['\n'], j));
        }
        text::lemma_find_first(whole, seq!['\n'], i);
        assert(whole.take(i + 1) =~= a.take(i + 1));
        assert(whole.skip(i + 1) =~= a.skip(i + 1) + b);
    }
}

/// Where a stream of text is cut into pieces makes no difference: the lines of `a` followed by
/// those of what is left over and `b` have the effect of the lines of `a` and `b` in one piece.
pub proof fn law_pieces_do_not_matter<S, R>(
    step: spec_fn(S, Seq<char>) -> LineEffect<S, R>,
    state: S,
    a: Seq<char>,
    b: Seq<char>,
)
    ensures
        ({
            let first = run_lines(step, state, a);
            let second = run_lines(step, first.state, first.buffer + b);
            let whole = run_lines(step, state, a + b);
            if first.end is Some {
                &&& whole.state == first.state
                &&& whole.buffer == first.buffer + b
                &&& whole.emitted == first.emitted
                &&& whole.end == first.end
            } else {
                &&& whole.state == second.state
                &&& whole.buffer == second.buffer
                &&& whole.emitted == first.emitted + second.emitted
                &&& whole.end == second.end
            }
        }),
    decreases a.len(),
{
    lemma_line_end_append(a, b);
    match line_end(a) {
        Some(i) => {
            let effect = step(state, a.take(i + 1));
            if effect.end is None {
                law_pieces_do_not_matter(step, effect.state, a.skip(i + 1), b);
                let first = run_lines(step, state, a);
                let second = run_lines(step, first.state, first.buffer + b);
                let inner = run_lines(step, effect.state, a.skip(i + 1));
                assert(effect.emitted + (inner.emitted + second.emitted) =~= (effect.emitted
                    + inner.emitted) + second.emitted);
            }
        },
        None => {
            let whole = run_lines(step, state, a + b);
            assert(Seq::<EmissionView>::empty() + whole.emitted =~= whole.emitted);
        },
    }
}

/// Takes the first line, with its line feed, off a text.
pub fn take_line(buffer: &mut String) -> (result: Option<String>)
    ensures
        match result {
            Some(line) => {
                &&& line_end(old(buffer)@) matches Some(i)
                &&& line@ == old(buffer)@.take(i + 1)
                &&& final(buffer)@ == old(buffer)@.skip(i + 1)
                &&& final(buffer)@.len() < old(buffer)@.len()
            },
            None => line_end(old(buffer)@) is None && final(buffer)@ == old(buffer)@,
        },
{
    let newline = "\n";
    proof {
        reveal_strlit("\n");
        assert(newline@ =~= seq!['\n']);
    }
    match text::find(buffer, newline) {
        Some(i) => {
            let length = text::chars_of(buffer).len();
            let line = text::slice_text(buffer, 0, i + 1);
            let rest = text::slice_text(buffer, i + 1, length);
            proof {
                assert(buffer@.subrange(0, i + 1) =~= buffer@.take(i + 1));
                assert(buffer@.subrange(i + 1, length as int) =~= buffer@.skip(i + 1));
            }
            *buffer = rest;
            Some(line)
        },
        None => None,
    }
}

/// The data that a line carries.
pub fn data_of_line(line: &str) -> (result: Option<String>)
    ensures
        match result {
            Some(data) => line_data(line@) == Some(data@),
            None => line_data(line@) is None,
        },
{
    let plain = text::trim_text(line);
    if !text::starts_with(&plain, "data:") {
        return None;
    }
    let data = text::trim_text(&text::strip_repeated_text(&plain, "data:"));
    if data.as_str().is_empty() {
        None
    } else {
        Some(data)
    }
}

// ===== What a chunk of a chat completion carries =====

/// The object with the new pieces of a chat completion.
pub open spec fn choice_delta(value: JsonView) -> Option<JsonView> {
    match value.get("choices"@) {
        Some(choices) => match choices.at(0) {
            Some(choice) => choice.get("delta"@),
            None => None,
        },
        None => None,
    }
}

/// A text, where it is not empty.
pub open spec fn non_empty(piece: Option<Seq<char>>) -> Option<Seq<char>> {
    match piece {
        Some(t) => if t.len() > 0 {
            Some(t)
        } else {
            None
        },
        None => None,
    }
}

/// The new piece of reasoning: the text at `reasoning_content`, or at `reasoning` where there is
/// no such field.
pub open spec fn reasoning_piece(value: JsonView) -> Option<Seq<char>> {
    match choice_delta(value) {
        Some(delta) => non_empty(
            if delta.get("reasoning_content"@) is Some {
                delta.text_at("reasoning_content"@)
            } else {
                delta.text_at("reasoning"@)
            },
        ),
        None => None,
    }
}

/// The new piece of text.
pub open spec fn content_piece(value: JsonView) -> Option<Seq<char>> {
    match choice_delta(value) {
        Some(delta) => non_empty(delta.text_at("content"@)),
        None => None,
    }
}

fn delta_of_choice(value: &Json) -> (result: Option<&Json>)
    ensures
        match result {
            Some(delta) => choice_delta(value@) == Some(delta@),
            None => choice_delta(value@) is None,
        },
{
    match value.get("choices") {
        Some(choices) => match choices.at(0) {
            Some(choice) => choice.get("delta"),
            None => None,
        },
        None => None,
    }
}

fn keep_non_empty(piece: Option<&str>) -> (result: Option<String>)
    ensures
        match result {
            Some(t) => piece matches Some(p) && p@ == t@ && t@.len() > 0,
            None => piece matches Some(p) ==> p@.len() == 0,
        },
{
    match piece {
        Some(t) => if t.is_empty() {
            None
        } else {
            Some(t.to_owned())
        },
        None => None,
    }
}

/// The new piece of reasoning in a chunk.
pub fn reasoning_of(value: &Json) -> (result: Option<String>)
    ensures
        match result {
            Some(t) => reasoning_piece(value@) == Some(t@),
            None => reasoning_piece(value@) is None,
        },
{
    match delta_of_choice(value) {
        Some(delta) => {
            let piece = if delta.get("reasoning_content").is_some() {
                delta.text_at("reasoning_content")
            } else {
                delta.text_at("reasoning")
            };
            keep_non_empty(piece)
        },
        None => None,
    }
}

/// The new piece of text in a chunk.
pub fn content_of(value: &Json) -> (result: Option<String>)
    ensures
        match result {
            Some(t) => content_piece(value@) == Some(t@),
            None => content_piece(value@) is None,
        },
{
    match delta_of_choice(value) {
        Some(delta) => keep_non_empty(delta.text_at("content")),
        None => None,
    }
}

}
