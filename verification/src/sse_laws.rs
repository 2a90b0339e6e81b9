//! What holds of the lines of a stream and of the chunks of a chat completion that they carry.

use crate::combined_stream::{CombinedState, CombinedStream};
use crate::json::JsonView;
use crate::sse::{EmissionView, LineEffect};
use crate::vision_stream::{ChatState, VisionStream};
use crate::{combined_stream, json_text, sse, text, text_laws, vision_stream};
use vstd::prelude::*;
use vstd::string::*;

verus! {

// ===== Lines =====

/// Whether a text is one complete line: its only line feed is its last character.
pub open spec fn is_complete_line(line: Seq<char>) -> bool {
    &&& line.len() > 0
    &&& line[line.len() - 1] == '\n'
    &&& forall|i: int| 0 <= i < line.len() - 1 ==> #[trigger] line[i] != '\n'
}

/// The end of the first line is that of the line that stands first.
proof fn lemma_line_stands_first(line: Seq<char>, rest: Seq<char>)
    requires
        is_complete_line(line),
    ensures
        sse::line_end(line + rest) == Some(line.len() - 1),
        (line + rest).take(line.len() as int) == line,
        (line + rest).skip(line.len() as int) == rest,
{
    let whole = line + rest;
    let end = line.len() - 1;
    let feed = seq!['\n'];
    assert(whole.subrange(end, end + 1) =~= feed);
    assert forall|j: int| 0 <= j < end implies !#[trigger] text::occurs_at(whole, feed, j) by {
        assert(whole.subrange(j, j + 1)[0] == line[j]);
    }
    text::lemma_find_first(whole, feed, end);
    assert(whole.take(line.len() as int) =~= line);
    assert(whole.skip(line.len() as int) =~= rest);
}

/// A stream takes its complete lines one by one: the first line has its effect, and where it does
/// not end the stream, what follows has its effect on the state that the line has left.
pub proof fn law_lines_are_taken_one_by_one<S, R>(
    step: spec_fn(S, Seq<char>) -> LineEffect<S, R>,
    state: S,
    line: Seq<char>,
    rest: Seq<char>,
)
    requires
        is_complete_line(line),
    ensures
        ({
            let whole = sse::run_lines(step, state, line + rest);
            let first = step(state, line);
            if first.end is Some {
                &&& whole.state == first.state
                &&& whole.emitted == first.emitted
                &&& whole.end == first.end
                &&& whole.buffer == rest
            } else {
                let further = sse::run_lines(step, first.state, rest);
                &&& whole.state == further.state
                &&& whole.emitted == first.emitted + further.emitted
                &&& whole.end == further.end
                &&& whole.buffer == further.buffer
            }
        }),
{
    lemma_line_stands_first(line, rest);
}

/// A line that is not complete has no effect yet and is kept.
pub proof fn law_incomplete_lines_wait<S, R>(
    step: spec_fn(S, Seq<char>) -> LineEffect<S, R>,
    state: S,
    buffer: Seq<char>,
)
    requires
        forall|i: int| 0 <= i < buffer.len() ==> #[trigger] buffer[i] != '\n',
    ensures
        ({
            let effect = sse::run_lines(step, state, buffer);
            &&& effect.state == state
            &&& effect.buffer == buffer
            &&& effect.emitted.len() == 0
            &&& effect.end is None
        }),
{
    text::lemma_find(buffer, seq!['\n']);
    if let Some(i) = sse::line_end(buffer) {
        assert(buffer.subrange(i, i + 1)[0] == buffer[i]);
    }
}

/// A line with the field name `data:` carries what follows it, without the white space around it,
/// where that is not empty. A line that does not start with it carries nothing.
pub proof fn law_lines_carry_their_data(
    before: Seq<char>,
    between: Seq<char>,
    data: Seq<char>,
    after: Seq<char>,
)
    requires
        text_laws::is_blank(before),
        text_laws::is_blank(between),
        text_laws::is_blank(after),
        text_laws::is_tight(data),
        between.len() == 0 ==> !"data:"@.is_prefix_of(data),
    ensures
        data.len() > 0 ==> sse::line_data(before + "data:"@ + between + data + after) == Some(data),
        data.len() == 0 ==> sse::line_data(before + "data:"@ + between + data + after) is None,
        data.len() > 0 && between.len() == 0 ==> sse::line_data(before + data + after) is None,
{
    reveal_strlit("data:");
    let name = "data:"@;
    let line = before + name + between + data + after;
    if data.len() > 0 {
        let inside = name + between + data;
        assert(inside[0] == 'd' && inside[inside.len() - 1] == data[data.len() - 1]);
        text_laws::law_trim_keeps_the_inside(before, inside, after);
        assert(before + inside + after =~= line);
        let behind = between + data;
        assert(inside =~= name + behind);
        assert(inside.subrange(0, 5) =~= name);
        text_laws::law_repetitions_are_taken_off(name, behind);
        if between.len() > 0 {
            if name.is_prefix_of(behind) {
                assert(behind.subrange(0, 5)[0] == between[0]);
            }
        } else {
            assert(behind =~= data);
        }
        text_laws::law_trim_keeps_the_inside(between, data, Seq::empty());
        assert(between + data + Seq::<char>::empty() =~= behind);
        if between.len() == 0 {
            text_laws::law_trim_keeps_the_inside(before, data, after);
        }
    } else {
        let blank = between + after;
        assert forall|i: int| 0 <= i < blank.len() implies text::is_whitespace(
            #[trigger] blank[i],
        ) by {
            if i < between.len() {
                assert(blank[i] == between[i]);
            } else {
                assert(blank[i] == after[i - between.len()]);
            }
        }
        text_laws::law_trim_keeps_the_inside(before, name, blank);
        assert(before + name + blank =~= line);
        let nothing = Seq::<char>::empty();
        assert(name + nothing =~= name);
        assert(name.subrange(0, 5) =~= name);
        text_laws::law_repetitions_are_taken_off(name, nothing);
        text_laws::law_trim_keeps_the_inside(nothing, nothing, nothing);
        assert(nothing + nothing + nothing =~= nothing);
    }
}

/// The field name is taken off as often as it stands at the start.
pub proof fn law_field_name_may_be_repeated(data: Seq<char>)
    requires
        text_laws::is_tight(data),
        "data:"@.is_prefix_of(data),
    ensures
        sse::line_data("data:"@ + data) == sse::line_data(data),
{
    reveal_strlit("data:");
    let name = "data:"@;
    let nothing = Seq::<char>::empty();
    let line = name + data;
    assert(line[0] == 'd' && line[line.len() - 1] == data[data.len() - 1]);
    text_laws::law_trim_keeps_the_inside(nothing, line, nothing);
    assert(nothing + line + nothing =~= line);
    text_laws::law_trim_keeps_the_inside(nothing, data, nothing);
    assert(nothing + data + nothing =~= data);
    assert(line.subrange(0, 5) =~= name);
    text_laws::law_repetitions_are_taken_off(name, data);
}

// ===== Chunks =====

/// Whether a chunk of a chat completion has a value in a field of its new pieces: at
/// `choices[0].delta`.
pub open spec fn chunk_has(value: JsonView, field: Seq<char>, found: JsonView) -> bool {
    &&& value matches JsonView::Object(top)
    &&& top.contains_key("choices"@)
    &&& top["choices"@] matches JsonView::Array(choices)
    &&& choices.len() > 0
    &&& choices[0] matches JsonView::Object(choice)
    &&& choice.contains_key("delta"@)
    &&& choice["delta"@] matches JsonView::Object(delta)
    &&& delta.contains_key(field)
    &&& delta[field] == found
}

/// The piece of text that a chunk carries is the string at `content`, exactly as it stands there,
/// whatever characters it holds. Only an empty string is no piece.
pub proof fn law_chunk_text_is_the_string(value: JsonView, s: Seq<char>)
    ensures
        sse::content_piece(value) == Some(s) <==> s.len() > 0 && chunk_has(
            value,
            "content"@,
            JsonView::Str(s),
        ),
{
}

/// The piece of reasoning that a chunk carries is the string at `reasoning_content`, or the one at
/// `reasoning` where there is no field `reasoning_content` at all, exactly as it stands there.
pub proof fn law_chunk_reasoning_is_the_string(value: JsonView, s: Seq<char>)
    ensures
        sse::reasoning_piece(value) == Some(s) <==> s.len() > 0 && (chunk_has(
            value,
            "reasoning_content"@,
            JsonView::Str(s),
        ) || chunk_has(value, "reasoning"@, JsonView::Str(s)) && forall|other: JsonView|
            !#[trigger] chunk_has(value, "reasoning_content"@, other)),
{
    if let Some(delta) = sse::choice_delta(value) {
        if let Some(own) = delta.get("reasoning_content"@) {
            assert(chunk_has(value, "reasoning_content"@, own));
        }
    }
}

/// Whether a line carries a chunk.
pub open spec fn carries(line: Seq<char>, value: JsonView) -> bool {
    &&& sse::line_data(line) matches Some(data)
    &&& data != "[DONE]"@
    &&& json_text::parsed_json(data) == Ok::<JsonView, Seq<char>>(value)
}

/// Whether a line carries neither a chunk nor the end of the stream.
pub open spec fn carries_nothing(line: Seq<char>) -> bool {
    match sse::line_data(line) {
        Some(data) => data != "[DONE]"@ && json_text::parsed_json(data) is Err,
        None => true,
    }
}

/// The event that carries a piece of reasoning, where a chunk has one.
pub open spec fn reasoning_event(kind: Seq<char>, value: JsonView) -> Seq<EmissionView> {
    match sse::reasoning_piece(value) {
        Some(delta) => seq![EmissionView::Reasoning { kind, delta }],
        None => Seq::empty(),
    }
}

// ===== A stream of one text =====

/// A chunk of a stream of one text hands on its reasoning and its text, in that order, and the text
/// grows by exactly the string at `content`. It never ends the stream.
pub proof fn law_chunk_grows_the_text(
    state: ChatState,
    line: Seq<char>,
    value: JsonView,
    s: Seq<char>,
)
    requires
        carries(line, value),
    ensures
        ({
            let effect = vision_stream::chat_line(state, line);
            let reasoning = reasoning_event(state.kind, value);
            &&& effect.end is None
            &&& effect.state.kind == state.kind
            &&& s.len() > 0 && chunk_has(value, "content"@, JsonView::Str(s)) ==> {
                &&& effect.state.full == state.full + s
                &&& effect.emitted == reasoning + seq![
                    EmissionView::Delta { kind: state.kind, delta: s },
                ]
            }
            &&& (forall|t: Seq<char>|
                t.len() > 0 ==> !#[trigger] chunk_has(value, "content"@, JsonView::Str(t))) ==> {
                &&& effect.state.full == state.full
                &&& effect.emitted == reasoning
            }
        }),
{
    law_chunk_text_is_the_string(value, s);
    if let Some(t) = sse::content_piece(value) {
        law_chunk_text_is_the_string(value, t);
    }
    let effect = vision_stream::chat_line(state, line);
    if s.len() > 0 && chunk_has(value, "content"@, JsonView::Str(s)) {
        assert(effect.emitted =~= reasoning_event(state.kind, value) + seq![
            EmissionView::Delta { kind: state.kind, delta: s },
        ]);
    }
}

/// A line without a chunk changes nothing, and the line `[DONE]` ends a stream of one text with the
/// text without surrounding white space.
pub proof fn law_other_lines_of_a_text(state: ChatState, line: Seq<char>)
    ensures
        ({
            let effect = vision_stream::chat_line(state, line);
            &&& carries_nothing(line) ==> effect.state == state && effect.emitted.len() == 0
                && effect.end is None
            &&& sse::line_data(line) == Some("[DONE]"@) ==> {
                &&& effect.state == state
                &&& effect.end == Some(Ok::<Seq<char>, Seq<char>>(text::trim(state.full)))
                &&& effect.emitted == seq![
                    EmissionView::Done {
                        kind: state.kind,
                        reason: "done"@,
                        full: text::trim(state.full),
                    },
                ]
            }
        }),
{
}

/// Whether the lines of a row carry chunks whose strings at `content` are those of another row.
pub open spec fn carry_contents(lines: Seq<Seq<char>>, contents: Seq<Seq<char>>) -> bool {
    &&& lines.len() == contents.len()
    &&& forall|i: int|
        0 <= i < lines.len() ==> is_complete_line(#[trigger] lines[i]) && carries_content(
            lines[i],
            contents[i],
        )
}

/// Whether a line carries a chunk with a string at `content` that is not empty.
pub open spec fn carries_content(line: Seq<char>, content: Seq<char>) -> bool {
    content.len() > 0 && exists|value: JsonView|
        #[trigger] carries(line, value) && chunk_has(value, "content"@, JsonView::Str(content))
}

/// The text of a stream is the strings at `content` of its chunks put together, character for
/// character.
pub proof fn law_text_is_all_contents(
    state: ChatState,
    lines: Seq<Seq<char>>,
    contents: Seq<Seq<char>>,
)
    requires
        carry_contents(lines, contents),
    ensures
        ({
            let effect = sse::run_lines(vision_stream::chat_step(), state, lines.flatten());
            &&& effect.state.full == state.full + contents.flatten()
            &&& effect.state.kind == state.kind
            &&& effect.buffer.len() == 0
            &&& effect.end is None
        }),
    decreases lines.len(),
{
    let step = vision_stream::chat_step();
    if lines.len() == 0 {
        law_incomplete_lines_wait(step, state, lines.flatten());
        assert(state.full + contents.flatten() =~= state.full);
    } else {
        let line = lines[0];
        let content = contents[0];
        assert(carries_content(line, content));
        let value = choose|value: JsonView|
            #[trigger] carries(line, value) && chunk_has(value, "content"@, JsonView::Str(content));
        law_chunk_grows_the_text(state, line, value, content);
        law_lines_are_taken_one_by_one(step, state, line, lines.drop_first().flatten());
        let next = vision_stream::chat_line(state, line).state;
        assert forall|i: int| 0 <= i < lines.drop_first().len() implies is_complete_line(
            #[trigger] lines.drop_first()[i],
        ) && carries_content(lines.drop_first()[i], contents.drop_first()[i]) by {
            assert(lines.drop_first()[i] == lines[i + 1]);
        }
        law_text_is_all_contents(next, lines.drop_first(), contents.drop_first());
        assert(state.full + contents.flatten() =~= (state.full + content)
            + contents.drop_first().flatten());
    }
}

/// A stream takes what comes behind what it has kept, character for character.
pub proof fn law_text_stream_takes_all(stream: VisionStream, more: Seq<char>)
    ensures
        stream.fed(more) == sse::run_lines(
            vision_stream::chat_step(),
            stream.state(),
            stream.rest() + more,
        ),
{
}

/// A stream that is ended by the line `[DONE]` returns the strings at `content` of all its chunks
/// put together, without the white space around the whole.
pub proof fn law_text_is_returned(
    state: ChatState,
    lines: Seq<Seq<char>>,
    contents: Seq<Seq<char>>,
    last: Seq<char>,
)
    requires
        carry_contents(lines, contents),
        is_complete_line(last),
        sse::line_data(last) == Some("[DONE]"@),
    ensures
        ({
            let effect = sse::run_lines(vision_stream::chat_step(), state, lines.flatten() + last);
            let full = text::trim(state.full + contents.flatten());
            &&& effect.end == Some(Ok::<Seq<char>, Seq<char>>(full))
            &&& effect.emitted.len() > 0
            &&& effect.emitted.last() == (EmissionView::Done {
                kind: state.kind,
                reason: "done"@,
                full,
            })
        }),
{
    let step = vision_stream::chat_step();
    law_text_is_all_contents(state, lines, contents);
    sse::law_pieces_do_not_matter(step, state, lines.flatten(), last);
    let first = sse::run_lines(step, state, lines.flatten());
    assert(first.buffer + last =~= last + Seq::<char>::empty());
    law_other_lines_of_a_text(first.state, last);
    law_lines_are_taken_one_by_one(step, first.state, last, Seq::empty());
    let second = sse::run_lines(step, first.state, last + Seq::<char>::empty());
    let whole = sse::run_lines(step, state, lines.flatten() + last);
    assert(whole.emitted.last() == second.emitted.last());
}

// ===== A stream of a translation and its original =====

/// A chunk of a stream of a translation and its original hands on its reasoning first, and then
/// works off exactly the string at `content`. It never ends the stream.
pub proof fn law_chunk_is_one_piece(
    state: CombinedState,
    line: Seq<char>,
    value: JsonView,
    s: Seq<char>,
)
    requires
        carries(line, value),
    ensures
        ({
            let effect = combined_stream::combined_line(state, line);
            let reasoning = reasoning_event("translated"@, value);
            &&& effect.end is None
            &&& s.len() > 0 && chunk_has(value, "content"@, JsonView::Str(s)) ==> {
                &&& effect.state == combined_stream::piece_state(state, s)
                &&& effect.emitted == reasoning + combined_stream::piece_emissions(state, s)
            }
            &&& (forall|t: Seq<char>|
                t.len() > 0 ==> !#[trigger] chunk_has(value, "content"@, JsonView::Str(t))) ==> {
                &&& effect.state == state
                &&& effect.emitted == reasoning
            }
        }),
{
    law_chunk_text_is_the_string(value, s);
    if let Some(t) = sse::content_piece(value) {
        law_chunk_text_is_the_string(value, t);
    }
}

/// A line without a chunk changes nothing, and the line `[DONE]` ends the stream with the text that
/// was held back, where no separator has come, at the end of the translation.
pub proof fn law_other_lines_of_a_translation(state: CombinedState, line: Seq<char>)
    ensures
        ({
            let effect = combined_stream::combined_line(state, line);
            let held = if state.separated {
                Seq::empty()
            } else {
                state.tail
            };
            let last = seq![EmissionView::End { reason: "done"@ }];
            &&& carries_nothing(line) ==> effect.state == state && effect.emitted.len() == 0
                && effect.end is None
            &&& sse::line_data(line) == Some("[DONE]"@) ==> {
                &&& effect.state == state
                &&& effect.end == Some(
                    Ok::<(Seq<char>, Seq<char>), Seq<char>>(
                        (state.translated + held, state.original),
                    ),
                )
                &&& held.len() > 0 ==> effect.emitted == seq![
                    EmissionView::Delta { kind: "translated"@, delta: held },
                ] + last
                &&& held.len() == 0 ==> effect.emitted == last
            }
        }),
{
    let effect = combined_stream::combined_line(state, line);
    let last = seq![EmissionView::End { reason: "done"@ }];
    if sse::line_data(line) == Some("[DONE]"@) {
        let held = combined_stream::held_back(state);
        if held.len() > 0 {
            assert(effect.emitted =~= seq![
                EmissionView::Delta { kind: "translated"@, delta: held },
            ] + last);
        } else {
            assert(effect.emitted =~= last);
        }
    }
}

/// The pieces that a stream works off are the strings at `content` of its chunks.
pub proof fn law_pieces_are_all_contents(
    state: CombinedState,
    lines: Seq<Seq<char>>,
    contents: Seq<Seq<char>>,
)
    requires
        carry_contents(lines, contents),
    ensures
        ({
            let effect = sse::run_lines(combined_stream::combined_step(), state, lines.flatten());
            &&& effect.state == pieces_worked_off(state, contents)
            &&& effect.buffer.len() == 0
            &&& effect.end is None
        }),
    decreases lines.len(),
{
    let step = combined_stream::combined_step();
    if lines.len() == 0 {
        law_incomplete_lines_wait(step, state, lines.flatten());
    } else {
        let line = lines[0];
        let content = contents[0];
        assert(carries_content(line, content));
        let value = choose|value: JsonView|
            #[trigger] carries(line, value) && chunk_has(value, "content"@, JsonView::Str(content));
        law_chunk_is_one_piece(state, line, value, content);
        law_lines_are_taken_one_by_one(step, state, line, lines.drop_first().flatten());
        let next = combined_stream::combined_line(state, line).state;
        assert forall|i: int| 0 <= i < lines.drop_first().len() implies is_complete_line(
            #[trigger] lines.drop_first()[i],
        ) && carries_content(lines.drop_first()[i], contents.drop_first()[i]) by {
            assert(lines.drop_first()[i] == lines[i + 1]);
        }
        law_pieces_are_all_contents(next, lines.drop_first(), contents.drop_first());
    }
}

/// A stream takes what comes behind what it has kept, character for character.
pub proof fn law_translation_stream_takes_all(stream: CombinedStream, more: Seq<char>)
    ensures
        stream.fed(more) == sse::run_lines(
            combined_stream::combined_step(),
            stream.state(),
            stream.rest() + more,
        ),
{
}

/// The state after pieces of text, one after the other.
pub open spec fn pieces_worked_off(state: CombinedState, pieces: Seq<Seq<char>>) -> CombinedState
    decreases pieces.len(),
{
    if pieces.len() == 0 {
        state
    } else {
        pieces_worked_off(combined_stream::piece_state(state, pieces[0]), pieces.drop_first())
    }
}

}
