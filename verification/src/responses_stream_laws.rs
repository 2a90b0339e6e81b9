//! What holds of the events of a stream of the responses API, stated on the names of the events and
//! on the fields of their data.

use crate::json::JsonView;
use crate::responses_stream::{ResponsesState, ResponsesStream};
use crate::sse::EmissionView;
use crate::{
    json_laws, json_text, responses, responses_laws, responses_stream, sse, sse_laws, text,
    text_laws,
};
use vstd::prelude::*;
use vstd::string::*;

verus! {

// ===== The names of events =====

/// A text that lacks a character of a pattern does not contain the pattern.
proof fn lemma_not_contained(s: Seq<char>, pattern: Seq<char>, k: int)
    requires
        0 <= k < pattern.len(),
        forall|i: int| 0 <= i < s.len() ==> #[trigger] s[i] != pattern[k],
    ensures
        !text::contains_text(s, pattern),
{
    assert forall|i: int| !#[trigger] text::occurs_at(s, pattern, i) by {
        if text::occurs_at(s, pattern, i) {
            assert(s.subrange(i, i + pattern.len())[k] == s[i + k]);
        }
    }
    text::lemma_find(s, pattern);
}

/// Whether an event brings new text, by its name.
pub open spec fn brings_text(event: Seq<char>) -> bool {
    text::contains_text(event, "output_text.delta"@) || text::contains_text(
        event,
        "response.text.delta"@,
    )
}

/// Whether an event brings new reasoning, by its name.
pub open spec fn brings_reasoning(event: Seq<char>) -> bool {
    &&& !brings_text(event)
    &&& text::contains_text(event, "reasoning"@)
    &&& text::contains_text(event, "delta"@)
}

/// What the data of an event is for shows in its name. Three names report a whole text, one the end
/// of the answer, three its failure, and every other name may bring text.
pub proof fn law_names_of_events(event: Seq<char>)
    ensures
        responses_stream::event_role(event) is Text <==> brings_text(event),
        responses_stream::event_role(event) is Reasoning <==> brings_reasoning(event),
        responses_stream::event_role(event) is Whole <==> event == "response.output_text.done"@
            || event == "response.text.done"@ || event == "response.content_part.done"@,
        responses_stream::event_role(event) is Completed <==> event == "response.completed"@,
        responses_stream::event_role(event) is Failed <==> event == "response.failed"@ || event
            == "response.incomplete"@ || event == "error"@,
{
    reveal_strlit("output_text.delta");
    reveal_strlit("response.text.delta");
    reveal_strlit("delta");
    reveal_strlit("response.output_text.done");
    reveal_strlit("response.text.done");
    reveal_strlit("response.content_part.done");
    reveal_strlit("response.completed");
    reveal_strlit("response.failed");
    reveal_strlit("response.incomplete");
    reveal_strlit("error");
    if event == "response.content_part.done"@ {
        lemma_not_contained(event, "output_text.delta"@, 14);
        lemma_not_contained(event, "response.text.delta"@, 16);
        lemma_not_contained(event, "delta"@, 2);
    } else if event == "response.failed"@ || event == "error"@ {
        lemma_not_contained(event, "output_text.delta"@, 2);
        lemma_not_contained(event, "response.text.delta"@, 9);
        lemma_not_contained(event, "delta"@, 3);
    } else if event == "response.output_text.done"@ || event == "response.text.done"@ || event
        == "response.completed"@ || event == "response.incomplete"@ {
        lemma_not_contained(event, "output_text.delta"@, 16);
        lemma_not_contained(event, "response.text.delta"@, 18);
        lemma_not_contained(event, "delta"@, 4);
    }
    assert("response.failed"@.len() == 15 && "error"@.len() == 5 && "response.incomplete"@.len()
        == 19 && "response.completed"@.len() == 18 && "response.text.done"@.len() == 18
        && "response.output_text.done"@.len() == 25 && "response.content_part.done"@.len() == 26);
    assert("response.completed"@[9] == 'c' && "response.text.done"@[9] == 't');
}

/// Whether the data of an event belongs to an event of this name: the string at `type`, else the
/// name that was told before.
pub open spec fn is_named(state: ResponsesState, value: JsonView, event: Seq<char>) -> bool {
    if json_laws::has_text(value, "type"@) {
        json_laws::has(value, "type"@, JsonView::Str(event))
    } else {
        event == state.event
    }
}

/// Whether an event tells of a search in the web, by its own name or by that of its item.
pub open spec fn searches(event: Seq<char>, value: JsonView) -> bool {
    ||| text::contains_text(event, "web_search"@)
    ||| exists|item: JsonView, kind: Seq<char>|
        {
            &&& #[trigger] json_laws::has(value, "item"@, item)
            &&& #[trigger] json_laws::has(item, "type"@, JsonView::Str(kind))
            &&& text::contains_text(kind, "web_search"@)
        }
}

/// The notice of a search in the web, where none was told of before.
pub open spec fn notice(state: ResponsesState, event: Seq<char>, value: JsonView) -> Seq<
    EmissionView,
> {
    if searches(event, value) && !state.noticed {
        seq![EmissionView::Reasoning { kind: state.kind, delta: "正在联网搜索...\n"@ }]
    } else {
        Seq::empty()
    }
}

/// Whether a state is one that an event of this name leaves, apart from the text.
pub open spec fn follows(
    state: ResponsesState,
    event: Seq<char>,
    value: JsonView,
    next: ResponsesState,
) -> bool {
    &&& next.kind == state.kind
    &&& next.noticed == (state.noticed || searches(event, value))
    &&& next.event.len() == 0
}

/// The name, the notice and the state without the text are as the data and its name tell.
proof fn lemma_event(state: ResponsesState, value: JsonView, event: Seq<char>)
    requires
        is_named(state, value, event),
    ensures
        responses_stream::event_type(state, value) == event,
        responses_stream::search_notice(state, value) == notice(state, event, value),
        follows(state, event, value, responses_stream::responses_value_state(state, value)),
{
    let none = Seq::<JsonView>::empty();
    json_laws::law_reading_is_having(value, "type"@, value, event, none);
    if let Some(item) = value.get("item"@) {
        assert(json_laws::has(value, "item"@, item));
        if let Some(kind) = item.text_at("type"@) {
            assert(json_laws::has(item, "type"@, JsonView::Str(kind)));
        }
    }
    assert(responses_stream::tells_of_web_search(event, value) == searches(event, value));
}

// ===== One event =====

/// An event that brings text lets the text grow by exactly what its data says, and hands on exactly
/// that in one event, where it is not empty. It does not end the stream.
pub proof fn law_text_grows_by_what_comes(
    state: ResponsesState,
    value: JsonView,
    event: Seq<char>,
    s: Seq<char>,
)
    requires
        is_named(state, value, event),
        brings_text(event),
        responses_laws::event_says(value, s),
    ensures
        ({
            let next = responses_stream::responses_value_state(state, value);
            let emitted = responses_stream::responses_value_emitted(state, value);
            &&& next.full == state.full + s
            &&& follows(state, event, value, next)
            &&& s.len() > 0 ==> emitted == notice(state, event, value) + seq![
                EmissionView::Delta { kind: state.kind, delta: s },
            ]
            &&& s.len() == 0 ==> emitted == notice(state, event, value)
            &&& responses_stream::responses_value_end(state, value) is None
        }),
{
    lemma_event(state, value, event);
    law_names_of_events(event);
    responses_laws::law_new_text_is_what_the_data_says(value, s);
    let emitted = responses_stream::responses_value_emitted(state, value);
    if s.len() > 0 {
        assert(emitted =~= notice(state, event, value) + seq![
            EmissionView::Delta { kind: state.kind, delta: s },
        ]);
    } else {
        assert(state.full + s =~= state.full);
        assert(emitted =~= notice(state, event, value));
    }
}

/// The string at `delta` of an event whose name has `output_text.delta` in it is what the text
/// grows by, character for character.
pub proof fn law_delta_is_added_as_it_is(
    state: ResponsesState,
    value: JsonView,
    event: Seq<char>,
    s: Seq<char>,
)
    requires
        is_named(state, value, event),
        text::contains_text(event, "output_text.delta"@),
        json_laws::has(value, "delta"@, JsonView::Str(s)),
    ensures
        responses_stream::responses_value_state(state, value).full == state.full + s,
        s.len() > 0 ==> responses_stream::responses_value_emitted(state, value) == notice(
            state,
            event,
            value,
        ) + seq![EmissionView::Delta { kind: state.kind, delta: s }],
        responses_stream::responses_value_end(state, value) is None,
{
    law_text_grows_by_what_comes(state, value, event, s);
}

/// An event of a name that says nothing of what it is for adds what its data says too.
pub proof fn law_other_events_may_bring_text(
    state: ResponsesState,
    value: JsonView,
    event: Seq<char>,
    s: Seq<char>,
)
    requires
        is_named(state, value, event),
        responses_stream::event_role(event) is Other,
        responses_laws::event_says(value, s),
    ensures
        ({
            let next = responses_stream::responses_value_state(state, value);
            let emitted = responses_stream::responses_value_emitted(state, value);
            &&& next.full == state.full + s
            &&& follows(state, event, value, next)
            &&& s.len() > 0 ==> emitted == notice(state, event, value) + seq![
                EmissionView::Delta { kind: state.kind, delta: s },
            ]
            &&& s.len() == 0 ==> emitted == notice(state, event, value)
            &&& responses_stream::responses_value_end(state, value) is None
        }),
{
    lemma_event(state, value, event);
    responses_laws::law_new_text_is_what_the_data_says(value, s);
    let emitted = responses_stream::responses_value_emitted(state, value);
    if s.len() > 0 {
        assert(emitted =~= notice(state, event, value) + seq![
            EmissionView::Delta { kind: state.kind, delta: s },
        ]);
    } else {
        assert(state.full + s =~= state.full);
        assert(emitted =~= notice(state, event, value));
    }
}

/// An event that brings reasoning hands on exactly what its data says, as reasoning, and leaves the
/// text alone.
pub proof fn law_reasoning_is_handed_on(
    state: ResponsesState,
    value: JsonView,
    event: Seq<char>,
    s: Seq<char>,
)
    requires
        is_named(state, value, event),
        brings_reasoning(event),
        responses_laws::event_says(value, s),
    ensures
        ({
            let next = responses_stream::responses_value_state(state, value);
            let emitted = responses_stream::responses_value_emitted(state, value);
            &&& next.full == state.full
            &&& follows(state, event, value, next)
            &&& s.len() > 0 ==> emitted == notice(state, event, value) + seq![
                EmissionView::Reasoning { kind: state.kind, delta: s },
            ]
            &&& s.len() == 0 ==> emitted == notice(state, event, value)
            &&& responses_stream::responses_value_end(state, value) is None
        }),
{
    lemma_event(state, value, event);
    law_names_of_events(event);
    responses_laws::law_new_text_is_what_the_data_says(value, s);
    let emitted = responses_stream::responses_value_emitted(state, value);
    assert(state.full + Seq::empty() =~= state.full);
    if s.len() > 0 {
        assert(emitted =~= notice(state, event, value) + seq![
            EmissionView::Reasoning { kind: state.kind, delta: s },
        ]);
    } else {
        assert(emitted =~= notice(state, event, value));
    }
}

/// An event that reports a whole text adds what is missing of it: where the text that has come is
/// its beginning, the text is then the whole one, and else the whole one joins it.
pub proof fn law_whole_text_completes_the_text(
    state: ResponsesState,
    value: JsonView,
    event: Seq<char>,
    missing: Seq<char>,
)
    requires
        is_named(state, value, event),
        event == "response.output_text.done"@ || event == "response.text.done"@ || event
            == "response.content_part.done"@,
    ensures
        ({
            let next = responses_stream::responses_value_state(state, value);
            let emitted = responses_stream::responses_value_emitted(state, value);
            let whole = responses::stream_whole(value);
            &&& follows(state, event, value, next)
            &&& responses_stream::responses_value_end(state, value) is None
            &&& whole is None ==> next.full == state.full && emitted == notice(state, event, value)
            &&& whole == Some(state.full + missing) && missing.len() > 0 ==> next.full == state.full
                + missing && emitted == notice(state, event, value) + seq![
                EmissionView::Delta { kind: state.kind, delta: missing },
            ]
            &&& whole == Some(state.full) ==> next.full == state.full && emitted == notice(
                state,
                event,
                value,
            )
            &&& whole matches Some(other) ==> (other.len() > 0 && !state.full.is_prefix_of(other)
                ==> next.full == state.full + other && emitted == notice(state, event, value)
                + seq![EmissionView::Delta { kind: state.kind, delta: other }])
        }),
{
    lemma_event(state, value, event);
    law_names_of_events(event);
    let emitted = responses_stream::responses_value_emitted(state, value);
    let added = responses_stream::added_text(state.full, event, value);
    assert(state.full + Seq::empty() =~= state.full);
    if responses::stream_whole(value) == Some(state.full + missing) {
        assert((state.full + missing).subrange(0, state.full.len() as int) =~= state.full);
        assert((state.full + missing).skip(state.full.len() as int) =~= missing);
    }
    if responses::stream_whole(value) == Some(state.full) {
        assert(state.full.subrange(0, state.full.len() as int) =~= state.full);
        assert(state.full.skip(state.full.len() as int) =~= Seq::empty());
    }
    if added.len() > 0 {
        assert(emitted =~= notice(state, event, value) + seq![
            EmissionView::Delta { kind: state.kind, delta: added },
        ]);
    } else {
        assert(emitted =~= notice(state, event, value));
    }
}

/// The end of an answer ends the stream with the text without the white space around it. Where no
/// more than white space has come, the text of the answer at `response` joins it first.
pub proof fn law_completion_ends_the_stream(
    state: ResponsesState,
    value: JsonView,
    answer: JsonView,
)
    requires
        is_named(state, value, "response.completed"@),
        json_laws::has(value, "response"@, answer) || json_laws::lacks(value, "response"@)
            && responses::output_text(answer) is None,
    ensures
        ({
            let event = "response.completed"@;
            let next = responses_stream::responses_value_state(state, value);
            let emitted = responses_stream::responses_value_emitted(state, value);
            let late = if text_laws::is_blank(state.full) {
                match responses::output_text(answer) {
                    Some(whole) => whole,
                    None => Seq::empty(),
                }
            } else {
                Seq::empty()
            };
            let last = seq![
                EmissionView::Done {
                    kind: state.kind,
                    reason: "done"@,
                    full: text::trim(state.full + late),
                },
            ];
            &&& next.full == state.full + late
            &&& follows(state, event, value, next)
            &&& responses_stream::responses_value_end(state, value) == Some(
                Ok::<Seq<char>, Seq<char>>(text::trim(state.full + late)),
            )
            &&& late.len() > 0 ==> emitted == notice(state, event, value) + seq![
                EmissionView::Delta { kind: state.kind, delta: late },
            ] + last
            &&& late.len() == 0 ==> emitted == notice(state, event, value) + last
        }),
{
    let event = "response.completed"@;
    lemma_event(state, value, event);
    law_names_of_events(event);
    responses_laws::lemma_blank_is_trimmed_away(state.full);
    json_laws::law_reading_is_having(value, "response"@, answer, Seq::empty(), Seq::empty());
    let emitted = responses_stream::responses_value_emitted(state, value);
    let late = responses_stream::added_text(state.full, event, value);
    let last = seq![
        EmissionView::Done {
            kind: state.kind,
            reason: "done"@,
            full: text::trim(state.full + late),
        },
    ];
    if late.len() > 0 {
        assert(emitted =~= notice(state, event, value) + seq![
            EmissionView::Delta { kind: state.kind, delta: late },
        ] + last);
    } else {
        assert(emitted =~= notice(state, event, value) + last);
    }
}

/// The failure of an answer ends the stream with a message that holds the first five hundred
/// characters of the text of the value at `error`, or of the one at `error` in the answer at
/// `response`, or of the whole data. The text that has come is told of as it is.
pub proof fn law_failure_ends_the_stream(
    state: ResponsesState,
    value: JsonView,
    event: Seq<char>,
    answer: JsonView,
    reason: JsonView,
)
    requires
        is_named(state, value, event),
        event == "response.failed"@ || event == "response.incomplete"@ || event == "error"@,
        json_laws::has(value, "error"@, reason) || json_laws::lacks(value, "error"@)
            && json_laws::has(value, "response"@, answer) && json_laws::has(
            answer,
            "error"@,
            reason,
        ) || json_laws::lacks(value, "error"@) && (json_laws::lacks(value, "response"@)
            || json_laws::has(value, "response"@, answer) && json_laws::lacks(answer, "error"@))
            && reason == value,
    ensures
        ({
            let next = responses_stream::responses_value_state(state, value);
            let printed = json_text::printed_json(reason);
            &&& next.full == state.full
            &&& follows(state, event, value, next)
            &&& responses_stream::responses_value_emitted(state, value) == notice(
                state,
                event,
                value,
            ) + seq![
                EmissionView::Done {
                    kind: state.kind,
                    reason: "error"@,
                    full: text::trim(state.full),
                },
            ]
            &&& responses_stream::responses_value_end(state, value) == Some(
                Err::<Seq<char>, Seq<char>>(
                    "Responses stream error: "@ + if printed.len() <= 500 {
                        printed
                    } else {
                        printed.take(500)
                    },
                ),
            )
        }),
{
    lemma_event(state, value, event);
    law_names_of_events(event);
    let none = Seq::<JsonView>::empty();
    json_laws::law_reading_is_having(value, "error"@, reason, Seq::empty(), none);
    json_laws::law_reading_is_having(value, "response"@, answer, Seq::empty(), none);
    json_laws::law_reading_is_having(answer, "error"@, reason, Seq::empty(), none);
    assert(state.full + Seq::empty() =~= state.full);
    assert(responses_stream::responses_value_emitted(state, value) =~= notice(state, event, value)
        + seq![
        EmissionView::Done { kind: state.kind, reason: "error"@, full: text::trim(state.full) },
    ]);
}

// ===== Lines =====

/// A line with data that is JSON has the effect of its event.
pub proof fn law_line_has_the_effect_of_its_data(
    state: ResponsesState,
    line: Seq<char>,
    value: JsonView,
)
    requires
        sse_laws::carries(line, value),
    ensures
        ({
            let effect = responses_stream::responses_line(state, line);
            &&& effect.state == responses_stream::responses_value_state(state, value)
            &&& effect.emitted == responses_stream::responses_value_emitted(state, value)
            &&& effect.end == responses_stream::responses_value_end(state, value)
        }),
{
    lemma_data_is_no_name(line);
}

/// A line with data does not name an event.
proof fn lemma_data_is_no_name(line: Seq<char>)
    ensures
        sse::line_data(line) is Some ==> !"event:"@.is_prefix_of(text::trim(line)),
{
    reveal_strlit("event:");
    reveal_strlit("data:");
    let plain = text::trim(line);
    if sse::line_data(line) is Some {
        assert("data:"@.is_prefix_of(plain));
        assert(plain.subrange(0, 5)[0] == plain[0]);
        if "event:"@.is_prefix_of(plain) {
            assert(plain.subrange(0, 6)[0] == plain[0]);
        }
    }
}

/// A line that names an event sets the name for the data that follows, and does nothing else.
pub proof fn law_line_names_the_next_event(
    state: ResponsesState,
    before: Seq<char>,
    between: Seq<char>,
    name: Seq<char>,
    after: Seq<char>,
)
    requires
        text_laws::is_blank(before),
        text_laws::is_blank(between),
        text_laws::is_blank(after),
        text_laws::is_tight(name),
    ensures
        ({
            let effect = responses_stream::responses_line(
                state,
                before + "event:"@ + between + name + after,
            );
            &&& effect.state == (ResponsesState { event: name, ..state })
            &&& effect.emitted.len() == 0
            &&& effect.end is None
        }),
{
    reveal_strlit("event:");
    let head = "event:"@;
    if name.len() == 0 {
        let blank = between + after;
        assert forall|i: int| 0 <= i < blank.len() implies text::is_whitespace(
            #[trigger] blank[i],
        ) by {
            if i < between.len() {
                assert(blank[i] == between[i]);
            } else {
                assert(blank[i] == after[i - between.len()]);
            }
        }
        text_laws::law_trim_keeps_the_inside(before, head, blank);
        assert(before + head + blank =~= before + head + between + name + after);
        assert(head.subrange(0, 6) =~= head);
        assert(head.skip(6) =~= name);
        text_laws::law_trim_keeps_the_inside(name, name, name);
        assert(name + name + name =~= name);
    } else {
        let inside = head + between + name;
        assert(inside[0] == 'e' && inside[inside.len() - 1] == name[name.len() - 1]);
        text_laws::law_trim_keeps_the_inside(before, inside, after);
        assert(before + inside + after =~= before + head + between + name + after);
        assert(inside.subrange(0, 6) =~= head);
        assert(inside.skip(6) =~= between + name + Seq::<char>::empty());
        text_laws::law_trim_keeps_the_inside(between, name, Seq::empty());
    }
}

/// The line `[DONE]` ends the stream with the text without the white space around it. A line with
/// neither a name nor data that is JSON changes nothing.
pub proof fn law_other_lines(state: ResponsesState, line: Seq<char>)
    ensures
        ({
            let effect = responses_stream::responses_line(state, line);
            &&& sse::line_data(line) == Some("[DONE]"@) ==> {
                &&& effect.state == state
                &&& effect.end == Some(Ok::<Seq<char>, Seq<char>>(text::trim(state.full)))
                &&& effect.emitted == seq![
                    EmissionView::Done {
                        kind: state.kind,
                        reason: "done"@,
                        full: text::trim(state.full),
                    },
                ]
            }
            &&& sse_laws::carries_nothing(line) && !"event:"@.is_prefix_of(text::trim(line))
                ==> effect.state == state && effect.emitted.len() == 0 && effect.end is None
        }),
{
    lemma_data_is_no_name(line);
}

// ===== A stream of events =====

/// A stream takes what comes behind what it has kept, character for character.
pub proof fn law_stream_takes_all(stream: ResponsesStream, more: Seq<char>)
    ensures
        stream.fed(more) == sse::run_lines(
            responses_stream::responses_step(),
            stream.state(),
            stream.rest() + more,
        ),
{
}

/// Whether a line carries an event that brings a text.
pub open spec fn carries_text(line: Seq<char>, s: Seq<char>) -> bool {
    exists|value: JsonView, event: Seq<char>|
        {
            &&& #[trigger] sse_laws::carries(line, value)
            &&& #[trigger] json_laws::has(value, "type"@, JsonView::Str(event))
            &&& text::contains_text(event, "output_text.delta"@)
            &&& json_laws::has(value, "delta"@, JsonView::Str(s))
        }
}

/// Whether the lines of a row carry events that bring the texts of another row.
pub open spec fn carry_texts(lines: Seq<Seq<char>>, texts: Seq<Seq<char>>) -> bool {
    &&& lines.len() == texts.len()
    &&& forall|i: int|
        0 <= i < lines.len() ==> sse_laws::is_complete_line(#[trigger] lines[i]) && carries_text(
            lines[i],
            texts[i],
        )
}

/// The text of a stream is the strings at `delta` of its events put together, character for
/// character.
pub proof fn law_text_is_all_deltas(
    state: ResponsesState,
    lines: Seq<Seq<char>>,
    texts: Seq<Seq<char>>,
)
    requires
        carry_texts(lines, texts),
    ensures
        ({
            let effect = sse::run_lines(
                responses_stream::responses_step(),
                state,
                lines.flatten(),
            );
            &&& effect.state.full == state.full + texts.flatten()
            &&& effect.state.kind == state.kind
            &&& effect.buffer.len() == 0
            &&& effect.end is None
        }),
    decreases lines.len(),
{
    let step = responses_stream::responses_step();
    if lines.len() == 0 {
        sse_laws::law_incomplete_lines_wait(step, state, lines.flatten());
        assert(state.full + texts.flatten() =~= state.full);
    } else {
        let line = lines[0];
        let s = texts[0];
        assert(carries_text(line, s));
        let (value, event) = choose|value: JsonView, event: Seq<char>|
            {
                &&& #[trigger] sse_laws::carries(line, value)
                &&& #[trigger] json_laws::has(value, "type"@, JsonView::Str(event))
                &&& text::contains_text(event, "output_text.delta"@)
                &&& json_laws::has(value, "delta"@, JsonView::Str(s))
            };
        law_line_has_the_effect_of_its_data(state, line, value);
        law_text_grows_by_what_comes(state, value, event, s);
        sse_laws::law_lines_are_taken_one_by_one(step, state, line, lines.drop_first().flatten());
        let next = responses_stream::responses_line(state, line).state;
        assert forall|i: int| 0 <= i < lines.drop_first().len() implies sse_laws::is_complete_line(
            #[trigger] lines.drop_first()[i],
        ) && carries_text(lines.drop_first()[i], texts.drop_first()[i]) by {
            assert(lines.drop_first()[i] == lines[i + 1]);
        }
        law_text_is_all_deltas(next, lines.drop_first(), texts.drop_first());
        assert(state.full + texts.flatten() =~= (state.full + s) + texts.drop_first().flatten());
    }
}

/// A stream that is ended by the line `[DONE]` returns the strings at `delta` of all its events put
/// together, without the white space around the whole.
pub proof fn law_text_is_returned(
    state: ResponsesState,
    lines: Seq<Seq<char>>,
    texts: Seq<Seq<char>>,
    last: Seq<char>,
)
    requires
        carry_texts(lines, texts),
        sse_laws::is_complete_line(last),
        sse::line_data(last) == Some("[DONE]"@),
    ensures
        ({
            let effect = sse::run_lines(
                responses_stream::responses_step(),
                state,
                lines.flatten() + last,
            );
            let full = text::trim(state.full + texts.flatten());
            &&& effect.end == Some(Ok::<Seq<char>, Seq<char>>(full))
            &&& effect.emitted.len() > 0
            &&& effect.emitted.last() == (EmissionView::Done {
                kind: state.kind,
                reason: "done"@,
                full,
            })
        }),
{
    let step = responses_stream::responses_step();
    law_text_is_all_deltas(state, lines, texts);
    sse::law_pieces_do_not_matter(step, state, lines.flatten(), last);
    let first = sse::run_lines(step, state, lines.flatten());
    assert(first.buffer + last =~= last + Seq::<char>::empty());
    law_other_lines(first.state, last);
    sse_laws::law_lines_are_taken_one_by_one(step, first.state, last, Seq::empty());
    let second = sse::run_lines(step, first.state, last + Seq::<char>::empty());
    let whole = sse::run_lines(step, state, lines.flatten() + last);
    assert(whole.emitted.last() == second.emitted.last());
}

}
