//! What holds of the replies of a provider, stated on the fields of the values themselves.

use crate::json::JsonView;
use crate::{json_laws, json_text, reply, responses, responses_laws, text, text_laws};
use vstd::prelude::*;
use vstd::string::*;

verus! {

/// Whether an answer of the chat API has a value as the content of its first choice: at
/// `choices[0].message.content`.
pub open spec fn answers(value: JsonView, found: JsonView) -> bool {
    &&& value matches JsonView::Object(top)
    &&& top.contains_key("choices"@)
    &&& top["choices"@] matches JsonView::Array(choices)
    &&& choices.len() > 0
    &&& choices[0] matches JsonView::Object(choice)
    &&& choice.contains_key("message"@)
    &&& choice["message"@] matches JsonView::Object(message)
    &&& message.contains_key("content"@)
    &&& message["content"@] == found
}

/// The text of an answer of the chat API is the string that is the content of its first choice, and
/// there is no other.
pub proof fn law_chat_content_is_the_string(value: JsonView, s: Seq<char>)
    ensures
        reply::chat_content(value) == Some(s) <==> answers(value, JsonView::Str(s)),
{
}

/// An answer of the chat API is its text without the white space around it, or the given message
/// where it has none.
pub proof fn law_chat_answer_is_its_text(value: JsonView, s: Seq<char>, invalid: Seq<char>)
    ensures
        answers(value, JsonView::Str(s)) ==> reply::chat_text(value, invalid) == Ok::<
            Seq<char>,
            Seq<char>,
        >(text::trim(s)),
        (forall|t: Seq<char>| !#[trigger] answers(value, JsonView::Str(t))) ==> reply::chat_text(
            value,
            invalid,
        ) == Err::<Seq<char>, Seq<char>>(invalid),
{
    if let Some(t) = reply::chat_content(value) {
        law_chat_content_is_the_string(value, t);
    }
    law_chat_content_is_the_string(value, s);
}

/// The first five hundred characters of a text, or all of it.
pub open spec fn excerpt(s: Seq<char>) -> Seq<char> {
    if s.len() <= 500 {
        s
    } else {
        s.take(500)
    }
}

/// The messages about replies hold the label and an excerpt of the reply.
pub proof fn law_messages_hold_an_excerpt(
    label: Seq<char>,
    status: u16,
    raw: Seq<char>,
    message: Seq<char>,
)
    ensures
        reply::status_error(label, status, raw) == label + " HTTP "@ + text::decimal(status as nat)
            + ": "@ + excerpt(raw),
        reply::parse_error(label, message, raw) == label + " parse JSON: "@ + message + " (body: "@
            + excerpt(raw) + ")"@,
        responses::invalid_answer(label, raw) == "Invalid "@ + label + " response: "@ + excerpt(raw),
{
}

/// A reply that is no JSON text is told of with what is wrong with it.
pub proof fn law_reply_must_be_json(
    raw: Seq<char>,
    message: Seq<char>,
    responses_api: bool,
    label: Seq<char>,
    chat_label: Seq<char>,
)
    requires
        json_text::parsed_json(raw) == Err::<JsonView, Seq<char>>(message),
    ensures
        reply::reply_text(raw, responses_api, label, chat_label) == Err::<Seq<char>, Seq<char>>(
            label + " parse JSON: "@ + message + " (body: "@ + excerpt(raw) + ")"@,
        ),
{
}

/// A reply of the chat API is the string that is the content of its first choice, without the white
/// space around it, or the message that there is none.
pub proof fn law_chat_reply_is_its_text(
    raw: Seq<char>,
    value: JsonView,
    s: Seq<char>,
    label: Seq<char>,
    chat_label: Seq<char>,
)
    requires
        json_text::parsed_json(raw) == Ok::<JsonView, Seq<char>>(value),
    ensures
        answers(value, JsonView::Str(s)) ==> reply::reply_text(raw, false, label, chat_label)
            == Ok::<Seq<char>, Seq<char>>(text::trim(s)),
        (forall|t: Seq<char>| !#[trigger] answers(value, JsonView::Str(t))) ==> reply::reply_text(
            raw,
            false,
            label,
            chat_label,
        ) == Err::<Seq<char>, Seq<char>>(
            "Invalid "@ + chat_label + " response: "@ + excerpt(raw),
        ),
{
    law_chat_answer_is_its_text(value, s, responses::invalid_answer(chat_label, raw));
}

/// A reply of the responses API without a string at `output_text` is what the parts of its output
/// say, put together in their order, without the white space around it. Where that is nothing, the
/// message tells so.
pub proof fn law_responses_reply_is_all_its_texts(
    raw: Seq<char>,
    value: JsonView,
    items: Seq<JsonView>,
    rows: Seq<Seq<Seq<char>>>,
    label: Seq<char>,
    chat_label: Seq<char>,
)
    requires
        json_text::parsed_json(raw) == Ok::<JsonView, Seq<char>>(value),
        !json_laws::has_text(value, "output_text"@),
        json_laws::has(value, "output"@, JsonView::Array(items)),
        responses_laws::items_say(items, rows),
    ensures
        ({
            let whole = rows.flatten().flatten();
            &&& !text_laws::is_blank(whole) ==> reply::reply_text(raw, true, label, chat_label)
                == Ok::<Seq<char>, Seq<char>>(text::trim(whole))
            &&& text_laws::is_blank(whole) ==> reply::reply_text(raw, true, label, chat_label)
                == Err::<Seq<char>, Seq<char>>("Invalid "@ + label + " response: "@ + excerpt(raw))
        }),
{
    responses_laws::law_answer_is_all_its_texts(value, items, rows);
}

/// A reply of the responses API with a string at `output_text` is that string without the white
/// space around it.
pub proof fn law_responses_reply_is_its_own_text(
    raw: Seq<char>,
    value: JsonView,
    s: Seq<char>,
    label: Seq<char>,
    chat_label: Seq<char>,
)
    requires
        json_text::parsed_json(raw) == Ok::<JsonView, Seq<char>>(value),
        json_laws::has(value, "output_text"@, JsonView::Str(s)),
    ensures
        reply::reply_text(raw, true, label, chat_label) == Ok::<Seq<char>, Seq<char>>(
            text::trim(s),
        ),
{
    responses_laws::law_own_text_of_an_answer_comes_first(value, s);
}

}
