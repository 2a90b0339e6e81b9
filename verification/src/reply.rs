//! The replies of a provider: the messages of those that are no use, and the text of the others.

use crate::json::{Json, JsonView};
use crate::{json_text, responses, retry, text};
use vstd::prelude::*;
use vstd::string::*;

verus! {

/// How much of a reply is put into a message about it, in characters.
pub const EXCERPT: usize = 500;

/// What a result of text or message holds.
pub open spec fn result_view(result: Result<String, String>) -> Result<Seq<char>, Seq<char>> {
    match result {
        Ok(whole) => Ok(whole@),
        Err(message) => Err(message@),
    }
}

// ===== Messages =====

/// The message about a reply with a status code other than success.
pub open spec fn status_error(label: Seq<char>, status: u16, body: Seq<char>) -> Seq<char> {
    label + " HTTP "@ + text::decimal(status as nat) + ": "@ + text::head(body, EXCERPT as nat)
}

/// The message about a reply with a status code other than success.
pub fn status_error_message(label: &str, status: u16, body: &str) -> (result: String)
    ensures
        result@ == status_error(label@, status, body@),
{
    let code = text::decimal_text(status as u64);
    let excerpt = text::head_text(body, EXCERPT);
    label.to_owned().concat(" HTTP ").concat(&code).concat(": ").concat(&excerpt)
}

/// The message about a reply that could not be read to its end.
pub fn read_error_message(label: &str, message: &str) -> (result: String)
    ensures
        result@ == label@ + " read body: "@ + message@,
{
    label.to_owned().concat(" read body: ").concat(message)
}

/// The message about a reply that is no JSON text.
pub open spec fn parse_error(label: Seq<char>, message: Seq<char>, raw: Seq<char>) -> Seq<char> {
    label + " parse JSON: "@ + message + " (body: "@ + text::head(raw, EXCERPT as nat) + ")"@
}

/// The message about a reply that is no JSON text.
pub fn parse_error_message(label: &str, message: &str, raw: &str) -> (result: String)
    ensures
        result@ == parse_error(label@, message@, raw@),
{
    let excerpt = text::head_text(raw, EXCERPT);
    label.to_owned().concat(" parse JSON: ").concat(message).concat(" (body: ").concat(
        &excerpt,
    ).concat(")")
}

// ===== The text of an answer =====

/// The value at a key of a value that may be missing.
pub open spec fn field(value: Option<JsonView>, key: Seq<char>) -> Option<JsonView> {
    match value {
        Some(found) => found.get(key),
        None => None,
    }
}

/// The text of the first choice in an answer of the chat API.
pub open spec fn chat_content(value: JsonView) -> Option<Seq<char>> {
    let first = match value.get("choices"@) {
        Some(choices) => choices.at(0),
        None => None,
    };
    match field(field(first, "message"@), "content"@) {
        Some(content) => content.text(),
        None => None,
    }
}

/// The text of the first choice in an answer of the chat API.
fn content_of_chat(value: &Json) -> (result: Option<&str>)
    ensures
        match result {
            Some(content) => chat_content(value@) == Some(content@),
            None => chat_content(value@) is None,
        },
{
    let choices = match value.get("choices") {
        Some(choices) => choices,
        None => {
            return None;
        },
    };
    let first = match choices.at(0) {
        Some(first) => first,
        None => {
            return None;
        },
    };
    match first.get("message") {
        Some(message) => message.text_at("content"),
        None => None,
    }
}

/// The text of an answer of the chat API without surrounding white space, or the given message where
/// it has none.
pub open spec fn chat_text(value: JsonView, invalid: Seq<char>) -> Result<Seq<char>, Seq<char>> {
    match chat_content(value) {
        Some(content) => Ok(text::trim(content)),
        None => Err(invalid),
    }
}

/// The answer to a text, from the chat API.
pub fn chat_text_answer(value: &Json) -> (result: Result<String, String>)
    ensures
        result_view(result) == chat_text(value@, "Invalid response"@),
{
    match content_of_chat(value) {
        Some(content) => Ok(text::trim_text(content)),
        None => Err("Invalid response".to_owned()),
    }
}

/// The text of an answer of either API, in which `raw` is the whole reply.
pub open spec fn answer(
    raw: Seq<char>,
    value: JsonView,
    responses_api: bool,
    label: Seq<char>,
    chat_label: Seq<char>,
) -> Result<Seq<char>, Seq<char>> {
    if responses_api {
        responses::answer_text(raw, value, label)
    } else {
        chat_text(value, responses::invalid_answer(chat_label, raw))
    }
}

/// The text of an answer of either API, in which `raw` is the whole reply.
pub fn parse_answer(
    raw: &str,
    value: &Json,
    responses_api: bool,
    label: &str,
    chat_label: &str,
) -> (result: Result<String, String>)
    ensures
        result_view(result) == answer(raw@, value@, responses_api, label@, chat_label@),
{
    if responses_api {
        return responses::parse_response_output_text(raw, value, label);
    }
    match content_of_chat(value) {
        Some(content) => Ok(text::trim_text(content)),
        None => Err(responses::invalid_answer_message(chat_label, raw)),
    }
}

/// The text of a reply of either API.
pub open spec fn reply_text(
    raw: Seq<char>,
    responses_api: bool,
    label: Seq<char>,
    chat_label: Seq<char>,
) -> Result<Seq<char>, Seq<char>> {
    match json_text::parsed_json(raw) {
        Ok(value) => answer(raw, value, responses_api, label, chat_label),
        Err(message) => Err(parse_error(label, message, raw)),
    }
}

/// The text of a reply of either API.
fn read_reply(raw: &str, responses_api: bool, label: &str, chat_label: &str) -> (result: Result<
    String,
    String,
>)
    ensures
        result_view(result) == reply_text(raw@, responses_api, label@, chat_label@),
{
    match json_text::read_json(raw) {
        Ok(value) => parse_answer(raw, &value, responses_api, label, chat_label),
        Err(message) => Err(parse_error_message(label, &message, raw)),
    }
}

/// The answer to a text, from the responses API.
pub fn read_text_reply(raw: &str) -> (result: Result<String, String>)
    ensures
        result_view(result) == reply_text(raw@, true, "OpenAI Responses"@, "OpenAI Responses"@),
{
    read_reply(raw, true, "OpenAI Responses", "OpenAI Responses")
}

/// The text of an image, from either API.
pub fn read_ocr_reply(raw: &str, responses_api: bool) -> (result: Result<String, String>)
    ensures
        result_view(result) == reply_text(raw@, responses_api, "OCR"@, "OCR"@),
{
    read_reply(raw, responses_api, "OCR", "OCR")
}

/// The next message of a conversation, from either API.
pub fn read_vision_reply(raw: &str, responses_api: bool) -> (result: Result<String, String>)
    ensures
        result_view(result) == reply_text(raw@, responses_api, "Vision API"@, "vision"@),
{
    read_reply(raw, responses_api, "Vision API", "vision")
}

// ===== What holds of the messages =====

/// The message about a reply with a status code other than success tells the status code, and asks
/// for another key exactly when the status code is one for which another key may help. The label
/// must not look like the start of a message about a failure itself, and the reply must not hold such
/// a message with the number of its try at the end.
pub proof fn law_status_message_tells_the_status(label: Seq<char>, status: u16, body: Seq<char>)
    requires
        !text::contains_text(label + " HTTP "@.drop_last(), " HTTP "@),
        !text::contains_text(label + " "@, " Error: "@),
        text::contains_text(status_error(label, status, body), " Error: "@)
            ==> !retry::tells_attempt(status_error(label, status, body)),
    ensures
        retry::status_code(status_error(label, status, body)) == Some(status as nat),
        retry::failover_error(status_error(label, status, body))
            == retry::is_key_status(status as nat),
{
    let message = status_error(label, status, body);
    let digits = text::decimal(status as nat);
    text::lemma_find(message, " Error: "@);
    let front = match text::find_text(message, " Error: "@) {
        Some(i) => message.take(i),
        None => message,
    };
    lemma_status_before_error(label, status, body);
    let rest = front.skip(label.len() as int + 6);
    reveal_strlit(" HTTP ");
    reveal_strlit(": ");
    assert(front =~= label + " HTTP "@ + rest);
    text::lemma_find_behind(label, " HTTP "@, rest);
    text::lemma_decimal_round_trip(status as nat);
    assert(rest[digits.len() as int] == ':');
    assert forall|i: int| 0 <= i < digits.len() implies text::digit()(#[trigger] rest[i]) by {
        assert(rest[i] == digits[i]);
    }
    text::lemma_trim_start(rest, text::digit(), digits.len() as int);
    assert(text::take_while(rest, text::digit()) =~= digits);
}

/// The status code in such a message and the colon behind it stand before any ` Error: `.
proof fn lemma_status_before_error(label: Seq<char>, status: u16, body: Seq<char>)
    requires
        !text::contains_text(label + " "@, " Error: "@),
    ensures
        ({
            let message = status_error(label, status, body);
            text::find_text(message, " Error: "@) matches Some(i) ==> label.len() + 6
                + text::decimal(status as nat).len() < i <= message.len()
        }),
{
    reveal_strlit(" HTTP ");
    reveal_strlit(": ");
    reveal_strlit(" ");
    reveal_strlit(" Error: ");
    let message = status_error(label, status, body);
    let marker = " Error: "@;
    let digits = text::decimal(status as nat);
    let start = label.len() as int;
    let colon = start + 6 + digits.len();
    text::lemma_decimal_round_trip(status as nat);
    text::lemma_find(message, marker);
    assert(message[start] == ' ' && message[start + 1] == 'H' && message[colon] == ':');
    assert(message.take(message.len() as int) =~= message);
    if let Some(i) = text::find_text(message, marker) {
        let found = message.subrange(i, i + 8);
        assert(found == marker);
        assert(found[0] == message[i] && found[1] == message[i + 1]);
        if i < start {
            if i + 8 <= start + 1 {
                assert((label + " "@).subrange(i, i + 8) =~= found);
                assert(text::occurs_at(label + " "@, marker, i));
            } else {
                assert(found[start + 1 - i] == 'H');
            }
        } else if start + 6 <= i < colon {
            assert(text::is_digit(digits[i - start - 6]));
            assert(message[i] == digits[i - start - 6]);
        } else if i == start + 5 {
            assert(text::is_digit(digits[0]));
            assert(message[i + 1] == digits[0]);
        }
        assert(i > colon);
    }
}

}
