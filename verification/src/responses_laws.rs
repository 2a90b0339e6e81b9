//! What holds of the answers of the responses API and of the data of its events, stated on the
//! fields of the values themselves.

use crate::json::JsonView;
use crate::{json_laws, responses, text, text_laws};
use vstd::prelude::*;
use vstd::string::*;

verus! {

// ===== The texts of parts and items =====

/// Whether a part says a text: the string at `text`, whatever its other fields are, or the one at
/// `output_text` where there is no field `text`. A part without such a string says nothing.
pub open spec fn part_says(part: JsonView, s: Seq<char>) -> bool {
    if json_laws::lacks(part, "text"@) {
        if json_laws::has_text(part, "output_text"@) {
            json_laws::has(part, "output_text"@, JsonView::Str(s))
        } else {
            s.len() == 0
        }
    } else if json_laws::has_text(part, "text"@) {
        json_laws::has(part, "text"@, JsonView::Str(s))
    } else {
        s.len() == 0
    }
}

/// Whether parts say texts, one each.
pub open spec fn parts_say(parts: Seq<JsonView>, texts: Seq<Seq<char>>) -> bool {
    &&& parts.len() == texts.len()
    &&& forall|i: int| 0 <= i < parts.len() ==> part_says(#[trigger] parts[i], texts[i])
}

/// Whether an item of an output says texts: those of the parts in its row at `content`.
pub open spec fn item_says(item: JsonView, texts: Seq<Seq<char>>) -> bool {
    if json_laws::has_row(item, "content"@) {
        exists|parts: Seq<JsonView>|
            #[trigger] parts_say(parts, texts) && json_laws::has(
                item,
                "content"@,
                JsonView::Array(parts),
            )
    } else {
        texts.len() == 0
    }
}

/// Whether items say texts, a row each.
pub open spec fn items_say(items: Seq<JsonView>, rows: Seq<Seq<Seq<char>>>) -> bool {
    &&& items.len() == rows.len()
    &&& forall|i: int| 0 <= i < items.len() ==> item_says(#[trigger] items[i], rows[i])
}

/// A part whose field `text` is a string has exactly that text, and one without the field that at
/// `output_text`. No other part has a text.
pub proof fn law_part_text_is_the_string(part: JsonView, s: Seq<char>)
    ensures
        json_laws::has(part, "text"@, JsonView::Str(s)) ==> responses::part_text(part) == Some(s),
        json_laws::lacks(part, "text"@) && json_laws::has(part, "output_text"@, JsonView::Str(s))
            ==> responses::part_text(part) == Some(s),
        responses::part_text(part) == Some(s) ==> json_laws::has(part, "text"@, JsonView::Str(s))
            || (json_laws::lacks(part, "text"@) && json_laws::has(
            part,
            "output_text"@,
            JsonView::Str(s),
        )),
{
}

/// A part that says a text adds exactly that text.
proof fn lemma_part_adds(part: JsonView, s: Seq<char>)
    requires
        part_says(part, s),
    ensures
        match responses::part_text(part) {
            Some(content) => content == s,
            None => s.len() == 0,
        },
{
    json_laws::law_reading_is_having(part, "text"@, part, s, Seq::empty());
    json_laws::law_reading_is_having(part, "output_text"@, part, s, Seq::empty());
}

/// The text of parts is what they say, put together in their order.
pub proof fn law_parts_are_put_together(parts: Seq<JsonView>, texts: Seq<Seq<char>>)
    requires
        parts_say(parts, texts),
    ensures
        responses::parts_text(parts) == texts.flatten(),
    decreases parts.len(),
{
    texts.lemma_flatten_and_flatten_alt_are_equivalent();
    if parts.len() > 0 {
        let before = parts.drop_last();
        let said = texts.drop_last();
        assert forall|i: int| 0 <= i < before.len() implies part_says(
            #[trigger] before[i],
            said[i],
        ) by {
            assert(before[i] == parts[i]);
        }
        law_parts_are_put_together(before, said);
        said.lemma_flatten_and_flatten_alt_are_equivalent();
        assert(parts.last() == parts[parts.len() - 1]);
        lemma_part_adds(parts.last(), texts.last());
        assert(responses::parts_text(parts) =~= said.flatten() + texts.last());
    }
}

/// The text of an item is what its parts say.
proof fn lemma_item_adds(item: JsonView, texts: Seq<Seq<char>>)
    requires
        item_says(item, texts),
    ensures
        match item.items_at("content"@) {
            Some(parts) => responses::parts_text(parts) == texts.flatten(),
            None => texts.flatten().len() == 0,
        },
{
    json_laws::law_reading_is_having(item, "content"@, item, Seq::empty(), Seq::empty());
    if json_laws::has_row(item, "content"@) {
        let parts = choose|parts: Seq<JsonView>|
            #[trigger] parts_say(parts, texts) && json_laws::has(
                item,
                "content"@,
                JsonView::Array(parts),
            );
        law_parts_are_put_together(parts, texts);
    }
}

/// The text of the items of an output is all that their parts say, put together in their order.
pub proof fn law_items_are_put_together(items: Seq<JsonView>, rows: Seq<Seq<Seq<char>>>)
    requires
        items_say(items, rows),
    ensures
        responses::outputs_text(items) == rows.flatten().flatten(),
    decreases items.len(),
{
    rows.lemma_flatten_and_flatten_alt_are_equivalent();
    if items.len() > 0 {
        let before = items.drop_last();
        let said = rows.drop_last();
        assert forall|i: int| 0 <= i < before.len() implies item_says(
            #[trigger] before[i],
            said[i],
        ) by {
            assert(before[i] == items[i]);
        }
        law_items_are_put_together(before, said);
        said.lemma_flatten_and_flatten_alt_are_equivalent();
        assert(items.last() == items[items.len() - 1]);
        lemma_item_adds(items.last(), rows.last());
        assert(rows.flatten() =~= said.flatten() + rows.last());
        lemma_flatten_of_both(said.flatten(), rows.last());
        assert(responses::outputs_text(items) =~= said.flatten().flatten()
            + rows.last().flatten());
    }
}

/// Two rows put together are put together one after the other.
pub proof fn lemma_flatten_of_both(a: Seq<Seq<char>>, b: Seq<Seq<char>>)
    ensures
        (a + b).flatten() == a.flatten() + b.flatten(),
    decreases a.len(),
{
    if a.len() == 0 {
        assert(a + b =~= b);
        assert(a.flatten() + b.flatten() =~= b.flatten());
    } else {
        assert((a + b).drop_first() =~= a.drop_first() + b);
        lemma_flatten_of_both(a.drop_first(), b);
        assert((a + b).first() == a.first());
        assert((a + b).flatten() =~= a.flatten() + b.flatten());
    }
}

// ===== The text of an answer =====

/// An answer with a string at `output_text` has exactly that text.
pub proof fn law_own_text_of_an_answer_comes_first(value: JsonView, s: Seq<char>)
    requires
        json_laws::has(value, "output_text"@, JsonView::Str(s)),
    ensures
        responses::output_text(value) == Some(s),
{
}

/// An answer without a string at `output_text` has the text that the parts of its output say, put
/// together in their order, where that is more than white space, and else none.
pub proof fn law_answer_is_all_its_texts(
    value: JsonView,
    items: Seq<JsonView>,
    rows: Seq<Seq<Seq<char>>>,
)
    requires
        !json_laws::has_text(value, "output_text"@),
        json_laws::has(value, "output"@, JsonView::Array(items)),
        items_say(items, rows),
    ensures
        ({
            let whole = rows.flatten().flatten();
            &&& text_laws::is_blank(whole) ==> responses::output_text(value) is None
            &&& !text_laws::is_blank(whole) ==> responses::output_text(value) == Some(whole)
        }),
{
    json_laws::law_reading_is_having(value, "output_text"@, value, Seq::empty(), items);
    law_items_are_put_together(items, rows);
    lemma_blank_is_trimmed_away(rows.flatten().flatten());
}

/// An answer with neither a string at `output_text` nor a row at `output` has no text.
pub proof fn law_answer_without_output_has_no_text(value: JsonView)
    requires
        !json_laws::has_text(value, "output_text"@),
        !json_laws::has_row(value, "output"@),
    ensures
        responses::output_text(value) is None,
{
    json_laws::law_reading_is_having(value, "output_text"@, value, Seq::empty(), Seq::empty());
    json_laws::law_reading_is_having(value, "output"@, value, Seq::empty(), Seq::empty());
    lemma_blank_is_trimmed_away(Seq::empty());
}

/// White space is all that is trimmed away.
pub proof fn lemma_blank_is_trimmed_away(s: Seq<char>)
    ensures
        text::trim(s).len() == 0 <==> text_laws::is_blank(s),
{
    let sides = text_laws::law_trim_takes_white_space_alone(s);
    if text::trim(s).len() == 0 {
        assert forall|i: int| 0 <= i < s.len() implies text::is_whitespace(#[trigger] s[i]) by {
            if i < sides.0.len() {
                assert(s[i] == sides.0[i]);
            } else {
                assert(s[i] == sides.1[i - sides.0.len()]);
            }
        }
    }
    if text_laws::is_blank(s) && text::trim(s).len() > 0 {
        let t = text::trim(s);
        assert(t[0] == s[sides.0.len() as int]);
    }
}

/// An answer is read as its text without the white space around it. One without a text is told of
/// with the first five hundred characters of its raw text.
pub proof fn law_answer_is_its_text(
    raw: Seq<char>,
    rest: Seq<char>,
    value: JsonView,
    label: Seq<char>,
)
    ensures
        responses::output_text(value) matches Some(whole) ==> responses::answer_text(
            raw,
            value,
            label,
        ) == Ok::<Seq<char>, Seq<char>>(text::trim(whole)),
        responses::output_text(value) is None && raw.len() <= 500 ==> responses::answer_text(
            raw,
            value,
            label,
        ) == Err::<Seq<char>, Seq<char>>("Invalid "@ + label + " response: "@ + raw),
        responses::output_text(value) is None && raw.len() == 500 ==> responses::answer_text(
            raw + rest,
            value,
            label,
        ) == Err::<Seq<char>, Seq<char>>("Invalid "@ + label + " response: "@ + raw),
{
    assert(raw.len() <= 500 ==> text::head(raw, 500) =~= raw);
    assert(raw.len() == 500 ==> text::head(raw + rest, 500) =~= raw);
}

// ===== The data of events =====

/// Whether the data of an event says a new text: the string at `delta`, or the one at `text` where
/// there is no field `delta`, or else what the parts in the row at `content` of its item say.
pub open spec fn event_says(value: JsonView, s: Seq<char>) -> bool {
    if json_laws::has_text(value, "delta"@) {
        json_laws::has(value, "delta"@, JsonView::Str(s))
    } else if json_laws::lacks(value, "delta"@) && json_laws::has_text(value, "text"@) {
        json_laws::has(value, "text"@, JsonView::Str(s))
    } else if json_laws::lacks(value, "item"@) {
        s.len() == 0
    } else {
        exists|item: JsonView, texts: Seq<Seq<char>>| #[trigger]
            json_laws::has(value, "item"@, item) && #[trigger] item_says(item, texts) && s
                == texts.flatten()
    }
}

/// The new text of an event is what its data says; where it says nothing, there is no more than an
/// empty one.
pub proof fn law_new_text_is_what_the_data_says(value: JsonView, s: Seq<char>)
    requires
        event_says(value, s),
    ensures
        s.len() > 0 ==> responses::stream_delta(value) == Some(s),
        responses::stream_delta(value) matches Some(t) ==> t == s,
{
    json_laws::law_reading_is_having(value, "delta"@, value, s, Seq::empty());
    json_laws::law_reading_is_having(value, "text"@, value, s, Seq::empty());
    json_laws::law_reading_is_having(value, "item"@, value, s, Seq::empty());
    if !json_laws::has_text(value, "delta"@) && !(json_laws::lacks(value, "delta"@)
        && json_laws::has_text(value, "text"@))
        && !json_laws::lacks(value, "item"@) {
        let (item, texts) = choose|item: JsonView, texts: Seq<Seq<char>>| #[trigger]
            json_laws::has(value, "item"@, item) && #[trigger] item_says(item, texts) && s
                == texts.flatten();
        lemma_item_adds(item, texts);
    }
}

/// The whole text that an event reports is the string at `text`, or the one at `output_text` where
/// there is no field `text`; else the text of the answer at `response`; else its own text, taken as
/// an answer.
pub proof fn law_whole_text_of_an_event(value: JsonView, s: Seq<char>, answer: JsonView)
    ensures
        json_laws::has(value, "text"@, JsonView::Str(s)) ==> responses::stream_whole(value) == Some(
            s,
        ),
        json_laws::lacks(value, "text"@) && json_laws::has(value, "output_text"@, JsonView::Str(s))
            ==> responses::stream_whole(value) == Some(s),
        !json_laws::has_text(value, "text"@) && !(json_laws::lacks(value, "text"@)
            && json_laws::has_text(value, "output_text"@))
            && json_laws::has(value, "response"@, answer) && responses::output_text(answer) is Some
            ==> responses::stream_whole(value) == responses::output_text(answer),
        !json_laws::has_text(value, "text"@) && !(json_laws::lacks(value, "text"@)
            && json_laws::has_text(value, "output_text"@))
            && (json_laws::lacks(value, "response"@) || json_laws::has(value, "response"@, answer)
            && responses::output_text(answer) is None) ==> responses::stream_whole(value)
            == responses::output_text(value),
{
    json_laws::law_reading_is_having(value, "text"@, value, s, Seq::empty());
    json_laws::law_reading_is_having(value, "output_text"@, value, s, Seq::empty());
    json_laws::law_reading_is_having(value, "response"@, answer, s, Seq::empty());
}

}
