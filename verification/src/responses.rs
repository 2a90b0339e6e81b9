//! The responses API: its messages, the change of chat messages into its input, and the text of its
//! answers.

use crate::json::{Json, JsonView};
use crate::{json, text};
use vstd::prelude::*;
use vstd::string::*;

verus! {

// ===== Parts of a request =====

/// The role of the responses API that stands for a role of a chat.
pub open spec fn role_in_responses(role: Seq<char>) -> Seq<char> {
    if role == "system"@ || role == "developer"@ {
        "developer"@
    } else if role == "assistant"@ {
        "assistant"@
    } else {
        "user"@
    }
}

/// An object with the fields `type` and one more, both strings.
pub open spec fn typed_part(kind: Seq<char>, key: Seq<char>, value: Seq<char>) -> JsonView {
    json::empty_object().with("type"@, JsonView::Str(kind)).with(key, JsonView::Str(value))
}

/// A text as a part of a message: output where the assistant speaks, else input.
pub open spec fn text_part(role: Seq<char>, content: Seq<char>) -> JsonView {
    if role == "assistant"@ {
        typed_part("output_text"@, "text"@, content)
    } else {
        typed_part("input_text"@, "text"@, content)
    }
}

/// An image as a part of a message.
pub open spec fn image_part(url: Seq<char>) -> JsonView {
    typed_part("input_image"@, "image_url"@, url)
}

/// A message with a role and parts.
pub open spec fn message_json(role: Seq<char>, parts: Seq<JsonView>) -> JsonView {
    json::empty_object().with("role"@, JsonView::Str(role)).with(
        "content"@,
        JsonView::Array(parts),
    )
}

/// A message of one text.
pub open spec fn text_message(role: Seq<char>, content: Seq<char>) -> JsonView {
    message_json(
        role_in_responses(role),
        seq![text_part(role_in_responses(role), content)],
    )
}

/// The tools that a request offers.
pub open spec fn tools_json(web_search: bool) -> JsonView {
    JsonView::Array(
        if web_search {
            seq![json::empty_object().with("type"@, JsonView::Str("web_search"@))]
        } else {
            Seq::empty()
        },
    )
}

/// A request that may search the web where that is wanted.
pub open spec fn with_web_search(body: JsonView, web_search: bool) -> JsonView {
    if web_search {
        body.with("tools"@, tools_json(true)).with("tool_choice"@, JsonView::Str("auto"@))
    } else {
        body
    }
}

/// A request that asks for little reasoning where thinking is not wanted.
pub open spec fn with_reasoning(body: JsonView, thinking_enabled: bool) -> JsonView {
    if thinking_enabled {
        body
    } else {
        body.with(
            "reasoning"@,
            json::empty_object().with("effort"@, JsonView::Str("low"@)),
        )
    }
}

/// The role of the responses API that stands for a role of a chat.
pub fn responses_role(role: &str) -> (result: &'static str)
    ensures
        result@ == role_in_responses(role@),
{
    if text::same_text(role, "system") || text::same_text(role, "developer") {
        "developer"
    } else if text::same_text(role, "assistant") {
        "assistant"
    } else {
        "user"
    }
}

/// A text as input.
pub fn responses_input_text(content: &str) -> (result: Json)
    ensures
        result@ == typed_part("input_text"@, "text"@, content@),
{
    Json::object().with("type", Json::string("input_text")).with("text", Json::string(content))
}

/// A text as output.
pub fn responses_output_text(content: &str) -> (result: Json)
    ensures
        result@ == typed_part("output_text"@, "text"@, content@),
{
    Json::object().with("type", Json::string("output_text")).with("text", Json::string(content))
}

/// An image as input.
pub fn responses_input_image(url: &str) -> (result: Json)
    ensures
        result@ == image_part(url@),
{
    Json::object().with("type", Json::string("input_image")).with("image_url", Json::string(url))
}

/// A text as a part of a message of a role of the responses API.
pub fn responses_text_content_for_role(role: &str, content: &str) -> (result: Json)
    ensures
        result@ == text_part(role@, content@),
{
    if text::same_text(role, "assistant") {
        responses_output_text(content)
    } else {
        responses_input_text(content)
    }
}

/// A message of one text, for a role of a chat.
pub fn responses_text_message(role: &str, content: &str) -> (result: Json)
    ensures
        result@ == text_message(role@, content@),
{
    let role = responses_role(role);
    let mut parts: Vec<Json> = Vec::new();
    parts.push(responses_text_content_for_role(role, content));
    assert(json::items_view(parts@) =~= seq![text_part(role@, content@)]);
    Json::object().with("role", Json::string(role)).with("content", Json::array(parts))
}

/// The tools that a request offers.
pub fn responses_tools(web_search: bool) -> (result: Json)
    ensures
        result@ == tools_json(web_search),
{
    let mut tools: Vec<Json> = Vec::new();
    if web_search {
        tools.push(Json::object().with("type", Json::string("web_search")));
    }
    assert(json::items_view(tools@) =~= tools_json(web_search)->Array_0);
    Json::array(tools)
}

/// Lets a request search the web where that is wanted.
pub fn apply_responses_web_search(body: &mut Json, web_search: bool)
    requires
        old(body)@.takes_fields(),
    ensures
        final(body)@ == with_web_search(old(body)@, web_search),
{
    if web_search {
        body.set("tools", responses_tools(true));
        body.set("tool_choice", Json::string("auto"));
    }
}

/// Asks for little reasoning where thinking is not wanted.
pub fn apply_responses_reasoning(body: &mut Json, thinking_enabled: bool)
    requires
        old(body)@.takes_fields(),
    ensures
        final(body)@ == with_reasoning(old(body)@, thinking_enabled),
{
    if !thinking_enabled {
        body.set("reasoning", Json::object().with("effort", Json::string("low")));
    }
}

// ===== Chat messages as input =====

/// The first of two, or the second where there is no first.
pub open spec fn first_of(a: Option<Seq<char>>, b: Option<Seq<char>>) -> Option<Seq<char>> {
    match a {
        Some(_) => a,
        None => b,
    }
}

/// The address of the image of a part: the text at `image_url`, or in there at `url` or at
/// `image_url`, or the text at `url`.
pub open spec fn image_address(item: JsonView) -> Option<Seq<char>> {
    let own = match item.get("image_url"@) {
        Some(image) => first_of(
            image.text(),
            first_of(image.text_at("url"@), image.text_at("image_url"@)),
        ),
        None => None,
    };
    first_of(own, item.text_at("url"@))
}

/// Whether a part of this type carries a text.
pub open spec fn is_text_type(kind: Seq<char>) -> bool {
    kind == "text"@ || kind == "input_text"@ || kind == "output_text"@
}

/// Whether a part of this type carries an image.
pub open spec fn is_image_type(kind: Seq<char>) -> bool {
    kind == "image_url"@ || kind == "input_image"@
}

/// The part of the responses API that stands for a part of a chat message. Images of the assistant
/// and parts of other types are left out.
pub open spec fn part_in_responses(role: Seq<char>, item: JsonView) -> Option<JsonView> {
    let kind = match item.text_at("type"@) {
        Some(kind) => kind,
        None => ""@,
    };
    if is_text_type(kind) {
        match item.text_at("text"@) {
            Some(content) => Some(text_part(role, content)),
            None => None,
        }
    } else if is_image_type(kind) && role != "assistant"@ {
        match image_address(item) {
            Some(url) => Some(image_part(url)),
            None => None,
        }
    } else {
        None
    }
}

/// The parts that stand for a row of parts, in their order.
pub open spec fn parts_in_responses(role: Seq<char>, items: Seq<JsonView>) -> Seq<JsonView>
    decreases items.len(),
{
    if items.len() == 0 {
        Seq::empty()
    } else {
        let before = parts_in_responses(role, items.drop_last());
        match part_in_responses(role, items.last()) {
            Some(part) => before.push(part),
            None => before,
        }
    }
}

/// The parts that stand for the content of a chat message, which is a text or a row of parts.
pub open spec fn content_in_responses(role: Seq<char>, content: JsonView) -> Seq<JsonView> {
    match content {
        JsonView::Str(only) => seq![text_part(role, only)],
        JsonView::Array(items) => parts_in_responses(role, items),
        _ => Seq::empty(),
    }
}

/// The role of a chat message, as the responses API has it.
pub open spec fn message_role(message: JsonView) -> Seq<char> {
    match message.text_at("role"@) {
        Some(role) => role_in_responses(role),
        None => "user"@,
    }
}

/// The content of a chat message, as the responses API has it.
pub open spec fn message_parts(message: JsonView) -> Seq<JsonView> {
    match message.get("content"@) {
        Some(content) => content_in_responses(message_role(message), content),
        None => Seq::empty(),
    }
}

/// The input that stands for a row of chat messages, without those that are left without parts.
pub open spec fn messages_in_responses(messages: Seq<JsonView>) -> Seq<JsonView>
    decreases messages.len(),
{
    if messages.len() == 0 {
        Seq::empty()
    } else {
        let before = messages_in_responses(messages.drop_last());
        let message = messages.last();
        if message_parts(message).len() == 0 {
            before
        } else {
            before.push(message_json(message_role(message), message_parts(message)))
        }
    }
}

/// The input that stands for the messages of a chat.
pub open spec fn input_json(messages: JsonView) -> JsonView {
    match messages {
        JsonView::Array(items) => JsonView::Array(messages_in_responses(items)),
        _ => JsonView::Array(Seq::empty()),
    }
}

/// The address of the image of a part.
fn address_of_image(item: &Json) -> (result: Option<&str>)
    ensures
        match result {
            Some(url) => image_address(item@) == Some(url@),
            None => image_address(item@) is None,
        },
{
    if let Some(image) = item.get("image_url") {
        if let Some(url) = image.as_str() {
            return Some(url);
        }
        if let Some(url) = image.text_at("url") {
            return Some(url);
        }
        if let Some(url) = image.text_at("image_url") {
            return Some(url);
        }
    }
    item.text_at("url")
}

/// The part of the responses API that stands for a part of a chat message.
fn responses_part(role: &str, item: &Json) -> (result: Option<Json>)
    ensures
        match result {
            Some(part) => part_in_responses(role@, item@) == Some(part@),
            None => part_in_responses(role@, item@) is None,
        },
{
    let kind = match item.text_at("type") {
        Some(kind) => kind,
        None => "",
    };
    if text::same_text(kind, "text") || text::same_text(kind, "input_text") || text::same_text(
        kind,
        "output_text",
    ) {
        match item.text_at("text") {
            Some(content) => Some(responses_text_content_for_role(role, content)),
            None => None,
        }
    } else if text::same_text(kind, "image_url") || text::same_text(kind, "input_image") {
        if text::same_text(role, "assistant") {
            None
        } else {
            match address_of_image(item) {
                Some(url) => Some(responses_input_image(url)),
                None => None,
            }
        }
    } else {
        None
    }
}

/// The parts that stand for the content of a chat message of a role of the responses API.
pub fn chat_content_to_responses_content(role: &str, content: &Json) -> (result: Vec<Json>)
    ensures
        json::items_view(result@) == content_in_responses(role@, content@),
{
    let mut parts: Vec<Json> = Vec::new();
    if let Some(only) = content.as_str() {
        parts.push(responses_text_content_for_role(role, only));
        assert(json::items_view(parts@) =~= content_in_responses(role@, content@));
        return parts;
    }
    if let Some(items) = content.as_array() {
        let ghost views = json::items_view(items@);
        assert(json::items_view(parts@) =~= parts_in_responses(role@, views.take(0)));
        for i in 0..items.len()
            invariant
                views == json::items_view(items@),
                json::items_view(parts@) == parts_in_responses(role@, views.take(i as int)),
        {
            let ghost before = parts@;
            let item = &items[i];
            proof {
                assert(views.take(i + 1).drop_last() =~= views.take(i as int));
                assert(views.take(i + 1).last() == item@);
            }
            if let Some(part) = responses_part(role, item) {
                parts.push(part);
                assert(json::items_view(parts@) =~= json::items_view(before).push(part@));
            }
        }
        assert(views.take(views.len() as int) =~= views);
    } else {
        assert(json::items_view(parts@) =~= Seq::empty());
    }
    parts
}

/// The input that stands for the messages of a chat.
pub fn chat_messages_to_responses_input(messages: &Json) -> (result: Json)
    ensures
        result@ == input_json(messages@),
{
    let mut input: Vec<Json> = Vec::new();
    if let Some(items) = messages.as_array() {
        let ghost views = json::items_view(items@);
        assert(json::items_view(input@) =~= messages_in_responses(views.take(0)));
        for i in 0..items.len()
            invariant
                views == json::items_view(items@),
                json::items_view(input@) == messages_in_responses(views.take(i as int)),
        {
            let ghost before = input@;
            let message = &items[i];
            proof {
                assert(views.take(i + 1).drop_last() =~= views.take(i as int));
                assert(views.take(i + 1).last() == message@);
            }
            let role = match message.text_at("role") {
                Some(role) => responses_role(role),
                None => "user",
            };
            let parts = match message.get("content") {
                Some(content) => chat_content_to_responses_content(role, content),
                None => Vec::new(),
            };
            assert(json::items_view(parts@) =~= message_parts(message@));
            if parts.len() > 0 {
                let converted = Json::object().with("role", Json::string(role)).with(
                    "content",
                    Json::array(parts),
                );
                input.push(converted);
                assert(json::items_view(input@) =~= json::items_view(before).push(converted@));
            }
        }
        assert(views.take(views.len() as int) =~= views);
    } else {
        assert(json::items_view(input@) =~= Seq::empty());
    }
    Json::array(input)
}

// ===== The text of an answer =====

/// The text of a part of an answer: that at `text`, or at `output_text` where there is no such
/// field.
pub open spec fn part_text(part: JsonView) -> Option<Seq<char>> {
    if part.get("text"@) is Some {
        part.text_at("text"@)
    } else {
        part.text_at("output_text"@)
    }
}

/// The texts of a row of parts put together.
pub open spec fn parts_text(parts: Seq<JsonView>) -> Seq<char>
    decreases parts.len(),
{
    if parts.len() == 0 {
        Seq::empty()
    } else {
        let before = parts_text(parts.drop_last());
        match part_text(parts.last()) {
            Some(content) => before + content,
            None => before,
        }
    }
}

/// The texts of the contents of a row of items put together.
pub open spec fn outputs_text(items: Seq<JsonView>) -> Seq<char>
    decreases items.len(),
{
    if items.len() == 0 {
        Seq::empty()
    } else {
        let before = outputs_text(items.drop_last());
        match items.last().items_at("content"@) {
            Some(parts) => before + parts_text(parts),
            None => before,
        }
    }
}

/// The text of an answer: that at `output_text`, else the texts in its output put together, where
/// they are more than white space.
pub open spec fn output_text(value: JsonView) -> Option<Seq<char>> {
    match value.text_at("output_text"@) {
        Some(whole) => Some(whole),
        None => {
            let whole = match value.items_at("output"@) {
                Some(items) => outputs_text(items),
                None => Seq::empty(),
            };
            if text::trim(whole).len() == 0 {
                None
            } else {
                Some(whole)
            }
        },
    }
}

/// The message about an answer that is not as it should be, with the beginning of its text.
pub open spec fn invalid_answer(label: Seq<char>, raw: Seq<char>) -> Seq<char> {
    "Invalid "@ + label + " response: "@ + text::head(raw, 500)
}

/// The text of an answer without surrounding white space, or the message that it has none.
pub open spec fn answer_text(raw: Seq<char>, value: JsonView, label: Seq<char>) -> Result<
    Seq<char>,
    Seq<char>,
> {
    match output_text(value) {
        Some(whole) => Ok(text::trim(whole)),
        None => Err(invalid_answer(label, raw)),
    }
}

/// The text of a part of an answer.
fn text_of_part(part: &Json) -> (result: Option<&str>)
    ensures
        match result {
            Some(content) => part_text(part@) == Some(content@),
            None => part_text(part@) is None,
        },
{
    if part.get("text").is_some() {
        part.text_at("text")
    } else {
        part.text_at("output_text")
    }
}

/// The texts of a row of parts put together.
fn text_of_parts(parts: &Vec<Json>) -> (result: String)
    ensures
        result@ == parts_text(json::items_view(parts@)),
{
    let ghost views = json::items_view(parts@);
    let mut out = String::new();
    for i in 0..parts.len()
        invariant
            views == json::items_view(parts@),
            out@ == parts_text(views.take(i as int)),
    {
        proof {
            assert(views.take(i + 1).drop_last() =~= views.take(i as int));
            assert(views.take(i + 1).last() == parts@[i as int]@);
        }
        if let Some(content) = text_of_part(&parts[i]) {
            out.append(content);
        }
    }
    assert(views.take(views.len() as int) =~= views);
    out
}

/// The text of an answer of the responses API.
pub fn response_output_text(value: &Json) -> (result: Option<String>)
    ensures
        match result {
            Some(whole) => output_text(value@) == Some(whole@),
            None => output_text(value@) is None,
        },
{
    if let Some(whole) = value.text_at("output_text") {
        return Some(whole.to_owned());
    }
    let mut out = String::new();
    if let Some(items) = value.items_at("output") {
        let ghost views = json::items_view(items@);
        for i in 0..items.len()
            invariant
                views == json::items_view(items@),
                out@ == outputs_text(views.take(i as int)),
        {
            proof {
                assert(views.take(i + 1).drop_last() =~= views.take(i as int));
                assert(views.take(i + 1).last() == items@[i as int]@);
            }
            if let Some(parts) = items[i].items_at("content") {
                let content = text_of_parts(parts);
                out.append(&content);
            }
        }
        assert(views.take(views.len() as int) =~= views);
    }
    if text::trim_text(&out).as_str().is_empty() {
        None
    } else {
        Some(out)
    }
}

/// The message about an answer that is not as it should be.
pub fn invalid_answer_message(label: &str, raw: &str) -> (result: String)
    ensures
        result@ == invalid_answer(label@, raw@),
{
    let beginning = text::head_text(raw, 500);
    "Invalid ".to_owned().concat(label).concat(" response: ").concat(&beginning)
}

/// The text of an answer without surrounding white space, or the message that it has none.
pub fn parse_response_output_text(raw: &str, value: &Json, label: &str) -> (result: Result<
    String,
    String,
>)
    ensures
        match result {
            Ok(whole) => answer_text(raw@, value@, label@) == Ok::<Seq<char>, Seq<char>>(whole@),
            Err(message) => answer_text(raw@, value@, label@) == Err::<Seq<char>, Seq<char>>(
                message@,
            ),
        },
{
    match response_output_text(value) {
        Some(whole) => Ok(text::trim_text(&whole)),
        None => Err(invalid_answer_message(label, raw)),
    }
}

// ===== The text of an event of a stream =====

/// The new piece of text of an event: that at `delta`, or at `text` where there is no such field,
/// else the texts in the content of its item put together, where they are not empty.
pub open spec fn stream_delta(value: JsonView) -> Option<Seq<char>> {
    let own = if value.get("delta"@) is Some {
        value.text_at("delta"@)
    } else {
        value.text_at("text"@)
    };
    let parts = match value.get("item"@) {
        Some(item) => item.items_at("content"@),
        None => None,
    };
    first_of(
        own,
        match parts {
            Some(parts) => if parts_text(parts).len() == 0 {
                None
            } else {
                Some(parts_text(parts))
            },
            None => None,
        },
    )
}

/// The whole text that an event reports: that at `text`, or at `output_text` where there is no
/// such field, else that of the answer it carries, else its own as an answer.
pub open spec fn stream_whole(value: JsonView) -> Option<Seq<char>> {
    let answer = match value.get("response"@) {
        Some(response) => output_text(response),
        None => None,
    };
    first_of(part_text(value), first_of(answer, output_text(value)))
}

/// The new piece of text of an event.
pub fn response_stream_delta_text(value: &Json) -> (result: Option<String>)
    ensures
        match result {
            Some(piece) => stream_delta(value@) == Some(piece@),
            None => stream_delta(value@) is None,
        },
{
    let own = if value.get("delta").is_some() {
        value.text_at("delta")
    } else {
        value.text_at("text")
    };
    if let Some(piece) = own {
        return Some(piece.to_owned());
    }
    if let Some(item) = value.get("item") {
        if let Some(parts) = item.items_at("content") {
            let whole = text_of_parts(parts);
            if !whole.as_str().is_empty() {
                return Some(whole);
            }
        }
    }
    None
}

/// The whole text that an event reports.
pub fn response_stream_done_text(value: &Json) -> (result: Option<String>)
    ensures
        match result {
            Some(whole) => stream_whole(value@) == Some(whole@),
            None => stream_whole(value@) is None,
        },
{
    if let Some(whole) = text_of_part(value) {
        return Some(whole.to_owned());
    }
    if let Some(response) = value.get("response") {
        if let Some(whole) = response_output_text(response) {
            return Some(whole);
        }
    }
    response_output_text(value)
}

// ===== Laws =====

/// Whether a part is one that a message of a role may have: a text, or, but for the assistant, an
/// image.
pub open spec fn fits_role(role: Seq<char>, part: JsonView) -> bool {
    ||| exists|content: Seq<char>| part == #[trigger] text_part(role, content)
    ||| role != "assistant"@ && exists|url: Seq<char>| part == #[trigger] image_part(url)
}

/// Whether a value is a message that the responses API takes: its role is one of three, and it has
/// one or more parts that fit the role.
pub open spec fn is_input_message(message: JsonView) -> bool {
    exists|role: Seq<char>, parts: Seq<JsonView>|
        {
            &&& message == #[trigger] message_json(role, parts)
            &&& role == "developer"@ || role == "assistant"@ || role == "user"@
            &&& parts.len() > 0
            &&& forall|i: int| 0 <= i < parts.len() ==> fits_role(role, #[trigger] parts[i])
        }
}

proof fn lemma_parts_fit(role: Seq<char>, items: Seq<JsonView>)
    ensures
        forall|i: int|
            0 <= i < parts_in_responses(role, items).len() ==> fits_role(
                role,
                #[trigger] parts_in_responses(role, items)[i],
            ),
    decreases items.len(),
{
    if items.len() > 0 {
        lemma_parts_fit(role, items.drop_last());
        let parts = parts_in_responses(role, items);
        let before = parts_in_responses(role, items.drop_last());
        assert forall|i: int| 0 <= i < parts.len() implies fits_role(
            role,
            #[trigger] parts[i],
        ) by {
            if i < before.len() {
                assert(parts[i] == before[i]);
            }
        }
    }
}

proof fn lemma_messages_fit(messages: Seq<JsonView>)
    ensures
        forall|i: int|
            0 <= i < messages_in_responses(messages).len() ==> is_input_message(
                #[trigger] messages_in_responses(messages)[i],
            ),
    decreases messages.len(),
{
    if messages.len() > 0 {
        lemma_messages_fit(messages.drop_last());
        let input = messages_in_responses(messages);
        let before = messages_in_responses(messages.drop_last());
        let role = message_role(messages.last());
        let parts = message_parts(messages.last());
        assert forall|i: int| 0 <= i < input.len() implies is_input_message(
            #[trigger] input[i],
        ) by {
            if i < before.len() {
                assert(input[i] == before[i]);
            } else {
                if let Some(JsonView::Array(items)) = messages.last().get("content"@) {
                    lemma_parts_fit(role, items);
                }
                assert(input[i] == message_json(role, parts));
            }
        }
    }
}

/// Whatever the messages of a chat are, the input made of them is a row of messages that the
/// responses API takes. In particular no message is empty, and none of the assistant has an image.
pub proof fn law_input_is_well_formed(messages: JsonView)
    ensures
        input_json(messages) matches JsonView::Array(input) && forall|i: int|
            0 <= i < input.len() ==> is_input_message(#[trigger] input[i]),
{
    if let JsonView::Array(items) = messages {
        lemma_messages_fit(items);
    }
}

}
