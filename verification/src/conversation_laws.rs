//! What holds of a conversation and of its messages, position by position.

use crate::conversation::{ExplainMessage, VisionCall};
use crate::endpoint::ModelEndpointKind;
use crate::json::JsonView;
use crate::provider::Settings;
use crate::{
    body_laws, conversation, endpoint, image, json_laws, json_text, request, responses, text,
};
use vstd::prelude::*;
use vstd::string::*;

verus! {

// ===== Messages of a chat =====

/// A message of a chat that says a text, with all its fields.
pub open spec fn says(role: Seq<char>, content: Seq<char>) -> JsonView {
    JsonView::Object(map!["role"@ => JsonView::Str(role), "content"@ => JsonView::Str(content)])
}

/// A message of the user that shows an image and says a text, with all its fields.
pub open spec fn shows(bytes: Seq<u8>, content: Seq<char>) -> JsonView {
    JsonView::Object(
        map![
            "role"@ => JsonView::Str("user"@),
            "content"@ => JsonView::Array(
                seq![
                    JsonView::Object(
                        map![
                            "type"@ => JsonView::Str("image_url"@),
                            "image_url"@ => JsonView::Object(
                                map![
                                    "url"@ => JsonView::Str(
                                        "data:image/png;base64,"@ + image::base64(bytes),
                                    ),
                                ],
                            ),
                        ],
                    ),
                    JsonView::Object(
                        map![
                            "type"@ => JsonView::Str("text"@),
                            "text"@ => JsonView::Str(content),
                        ],
                    ),
                ],
            ),
        ],
    )
}

/// Without an image, the messages for the chat API are the system prompt and then every message of
/// the conversation with its own role and content, in the same order. None is lost and none is
/// added.
pub proof fn law_every_message_is_sent(system: Seq<char>, messages: Seq<ExplainMessage>)
    ensures
        ({
            let sent = conversation::conversation_messages(system, None, messages);
            &&& sent.len() == messages.len() + 1
            &&& sent[0] == says("system"@, system)
            &&& forall|i: int|
                0 <= i < messages.len() ==> sent[i + 1] == says(
                    (#[trigger] messages[i]).role@,
                    messages[i].content@,
                )
        }),
{
}

/// With an image, the first message of the conversation is one of the user that shows the image and
/// has the content of the message, and every later one has its own role and content, in the same
/// order. None is lost and none is added. A conversation without messages shows no image.
pub proof fn law_every_message_is_sent_with_the_image(
    system: Seq<char>,
    bytes: Seq<u8>,
    messages: Seq<ExplainMessage>,
)
    ensures
        ({
            let sent = conversation::conversation_messages(system, Some(bytes), messages);
            &&& sent.len() == messages.len() + 1
            &&& sent[0] == says("system"@, system)
            &&& messages.len() > 0 ==> sent[1] == shows(bytes, messages[0].content@)
            &&& forall|i: int|
                1 <= i < messages.len() ==> sent[i + 1] == says(
                    (#[trigger] messages[i]).role@,
                    messages[i].content@,
                )
        }),
{
    let sent = conversation::conversation_messages(system, Some(bytes), messages);
    assert forall|i: int| 1 <= i < messages.len() implies sent[i + 1] == says(
        (#[trigger] messages[i]).role@,
        messages[i].content@,
    ) by {
        assert(messages.drop_first()[i - 1] == messages[i]);
        assert(sent[i + 1] == conversation::plain_messages(messages.drop_first())[i - 1]);
    }
}

// ===== Messages as input =====

/// The parts of the responses API that stand for parts put together are those for each of them.
pub proof fn law_parts_are_taken_one_by_one(role: Seq<char>, a: Seq<JsonView>, b: Seq<JsonView>)
    ensures
        responses::parts_in_responses(role, a + b) == responses::parts_in_responses(role, a)
            + responses::parts_in_responses(role, b),
    decreases b.len(),
{
    if b.len() == 0 {
        assert(a + b =~= a);
        assert(responses::parts_in_responses(role, a) + responses::parts_in_responses(role, b)
            =~= responses::parts_in_responses(role, a));
    } else {
        law_parts_are_taken_one_by_one(role, a, b.drop_last());
        assert((a + b).drop_last() =~= a + b.drop_last());
        assert((a + b).last() == b.last());
        assert(responses::parts_in_responses(role, a + b) =~= responses::parts_in_responses(role, a)
            + responses::parts_in_responses(role, b));
    }
}

/// Whether a value has a string at `type` that is this one.
pub open spec fn is_of_type(item: JsonView, kind: Seq<char>) -> bool {
    json_laws::has(item, "type"@, JsonView::Str(kind))
}

/// Whether a part of a chat message is one of text, by its type.
pub open spec fn is_text(item: JsonView) -> bool {
    is_of_type(item, "text"@) || is_of_type(item, "input_text"@) || is_of_type(
        item,
        "output_text"@,
    )
}

/// Whether a part of a chat message is one of an image, by its type.
pub open spec fn is_image(item: JsonView) -> bool {
    is_of_type(item, "image_url"@) || is_of_type(item, "input_image"@)
}

/// A part of text stands for a part with exactly the string at `text`, of output for the assistant
/// and of input else. Without such a string it stands for nothing.
pub proof fn law_text_is_carried_over(role: Seq<char>, item: JsonView, s: Seq<char>)
    requires
        is_text(item),
    ensures
        json_laws::has(item, "text"@, JsonView::Str(s)) && role != "assistant"@
            ==> responses::parts_in_responses(role, seq![item]) == seq![
            JsonView::Object(
                map!["type"@ => JsonView::Str("input_text"@), "text"@ => JsonView::Str(s)],
            ),
        ],
        json_laws::has(item, "text"@, JsonView::Str(s)) && role == "assistant"@
            ==> responses::parts_in_responses(role, seq![item]) == seq![
            JsonView::Object(
                map!["type"@ => JsonView::Str("output_text"@), "text"@ => JsonView::Str(s)],
            ),
        ],
        !json_laws::has_text(item, "text"@) ==> responses::parts_in_responses(
            role,
            seq![item],
        ).len() == 0,
{
    reveal_with_fuel(responses::parts_in_responses, 2);
    json_laws::law_reading_is_having(item, "text"@, item, s, Seq::empty());
    assert(seq![item].drop_last() =~= Seq::empty());
    assert(seq![item].last() == item);
}

/// The types of parts are different names.
proof fn lemma_types_differ()
    ensures
        "image_url"@ != "text"@,
        "image_url"@ != "input_text"@,
        "image_url"@ != "output_text"@,
        "input_image"@ != "text"@,
        "input_image"@ != "input_text"@,
        "input_image"@ != "output_text"@,
        ""@.len() == 0,
        "text"@.len() == 4,
        "input_text"@.len() == 10,
        "output_text"@.len() == 11,
        "image_url"@.len() == 9,
        "input_image"@.len() == 11,
{
    reveal_strlit("image_url");
    reveal_strlit("input_image");
    reveal_strlit("text");
    reveal_strlit("input_text");
    reveal_strlit("output_text");
    reveal_strlit("");
    assert("text"@.len() == 4 && "input_text"@.len() == 10 && "output_text"@.len() == 11
        && "image_url"@.len() == 9 && "input_image"@.len() == 11);
    assert("input_image"@[0] == 'i' && "output_text"@[0] == 'o');
}

/// Whether an image of a part has this address: the string at `image_url`, else the one at `url` in
/// there, else the one at `image_url` in there, else the one at `url` of the part.
pub open spec fn has_address(item: JsonView, url: Seq<char>) -> bool {
    let inner = match item {
        JsonView::Object(fields) => if fields.contains_key("image_url"@) {
            fields["image_url"@]
        } else {
            JsonView::Null
        },
        _ => JsonView::Null,
    };
    if inner is Str {
        inner == JsonView::Str(url)
    } else if json_laws::has_text(inner, "url"@) {
        json_laws::has(inner, "url"@, JsonView::Str(url))
    } else if json_laws::has_text(inner, "image_url"@) {
        json_laws::has(inner, "image_url"@, JsonView::Str(url))
    } else {
        json_laws::has(item, "url"@, JsonView::Str(url))
    }
}

/// A part of an image stands for a part with its address, but for the assistant. Without an address
/// it stands for nothing.
pub proof fn law_image_is_carried_over(role: Seq<char>, item: JsonView, url: Seq<char>)
    requires
        is_image(item),
    ensures
        role == "assistant"@ ==> responses::parts_in_responses(role, seq![item]).len() == 0,
        role != "assistant"@ && has_address(item, url) ==> responses::parts_in_responses(
            role,
            seq![item],
        ) == seq![
            JsonView::Object(
                map![
                    "type"@ => JsonView::Str("input_image"@),
                    "image_url"@ => JsonView::Str(url),
                ],
            ),
        ],
        (forall|other: Seq<char>| !#[trigger] has_address(item, other))
            ==> responses::parts_in_responses(role, seq![item]).len() == 0,
{
    reveal_with_fuel(responses::parts_in_responses, 2);
    lemma_types_differ();
    assert(seq![item].drop_last() =~= Seq::empty());
    assert(seq![item].last() == item);
    json_laws::law_reading_is_having(item, "url"@, item, url, Seq::empty());
    if let Some(inner) = item.get("image_url"@) {
        json_laws::law_reading_is_having(inner, "url"@, inner, url, Seq::empty());
        json_laws::law_reading_is_having(inner, "image_url"@, inner, url, Seq::empty());
    }
    if let Some(found) = responses::image_address(item) {
        assert(has_address(item, found));
    }
}

/// A part that is neither of text nor of an image, by its type, stands for nothing.
pub proof fn law_other_parts_are_left_out(role: Seq<char>, item: JsonView)
    requires
        !is_text(item),
        !is_image(item),
    ensures
        responses::parts_in_responses(role, seq![item]).len() == 0,
{
    reveal_with_fuel(responses::parts_in_responses, 2);
    lemma_types_differ();
    assert(seq![item].drop_last() =~= Seq::empty());
    assert(seq![item].last() == item);
}

/// The content of a chat message is a text, which is one part, or a row of parts. Anything else has
/// no parts.
pub proof fn law_content_is_text_or_parts(
    role: Seq<char>,
    s: Seq<char>,
    items: Seq<JsonView>,
    other: JsonView,
)
    requires
        !(other is Str),
        !(other is Array),
    ensures
        responses::content_in_responses(role, JsonView::Str(s)) == seq![
            responses::text_part(role, s),
        ],
        responses::content_in_responses(role, JsonView::Array(items))
            == responses::parts_in_responses(role, items),
        responses::content_in_responses(role, other).len() == 0,
{
}

/// The input for messages put together is the input for each of them.
pub proof fn law_messages_are_taken_one_by_one(a: Seq<JsonView>, b: Seq<JsonView>)
    ensures
        responses::messages_in_responses(a + b) == responses::messages_in_responses(a)
            + responses::messages_in_responses(b),
    decreases b.len(),
{
    if b.len() == 0 {
        assert(a + b =~= a);
        assert(responses::messages_in_responses(a) + responses::messages_in_responses(b)
            =~= responses::messages_in_responses(a));
    } else {
        law_messages_are_taken_one_by_one(a, b.drop_last());
        assert((a + b).drop_last() =~= a + b.drop_last());
        assert((a + b).last() == b.last());
        assert(responses::messages_in_responses(a + b) =~= responses::messages_in_responses(a)
            + responses::messages_in_responses(b));
    }
}

/// Whether a chat message is of a role of the responses API; one without a string at `role` is of
/// the user.
pub open spec fn is_of_role(message: JsonView, role: Seq<char>) -> bool {
    if json_laws::has_text(message, "role"@) {
        exists|own: Seq<char>| #[trigger]
            json_laws::has(message, "role"@, JsonView::Str(own)) && role
                == responses::role_in_responses(own)
    } else {
        role == "user"@
    }
}

/// One chat message stands for one message of its role with the parts of its content, or for none
/// where there are no parts.
pub proof fn law_message_is_carried_over(message: JsonView, role: Seq<char>, content: JsonView)
    requires
        is_of_role(message, role),
        json_laws::has(message, "content"@, content) || json_laws::lacks(message, "content"@)
            && content is Null,
    ensures
        ({
            let parts = responses::content_in_responses(role, content);
            let input = responses::messages_in_responses(seq![message]);
            &&& parts.len() == 0 ==> input.len() == 0
            &&& parts.len() > 0 ==> input == seq![
                JsonView::Object(
                    map!["role"@ => JsonView::Str(role), "content"@ => JsonView::Array(parts)],
                ),
            ]
        }),
{
    reveal_with_fuel(responses::messages_in_responses, 2);
    json_laws::law_reading_is_having(message, "content"@, content, role, Seq::empty());
    json_laws::law_reading_is_having(message, "role"@, content, role, Seq::empty());
    assert(seq![message].drop_last() =~= Seq::empty());
    assert(seq![message].last() == message);
}

/// The input is a row in any case: that of the messages where there is one, else an empty one.
pub proof fn law_input_is_that_of_the_messages(items: Seq<JsonView>, other: JsonView)
    requires
        !(other is Array),
    ensures
        responses::input_json(JsonView::Array(items)) == JsonView::Array(
            responses::messages_in_responses(items),
        ),
        responses::input_json(other) == JsonView::Array(Seq::empty()),
{
}

/// A message of the responses API that says a text, with all its fields.
pub open spec fn says_in_responses(role: Seq<char>, content: Seq<char>) -> JsonView {
    let kind = if role == "assistant"@ {
        "output_text"@
    } else {
        "input_text"@
    };
    JsonView::Object(
        map![
            "role"@ => JsonView::Str(role),
            "content"@ => JsonView::Array(
                seq![
                    JsonView::Object(
                        map!["type"@ => JsonView::Str(kind), "text"@ => JsonView::Str(content)],
                    ),
                ],
            ),
        ],
    )
}

/// Messages of a chat that say texts stand for as many messages that say the same texts, in the
/// same order.
pub proof fn law_every_text_is_carried_over(
    messages: Seq<JsonView>,
    roles: Seq<Seq<char>>,
    contents: Seq<Seq<char>>,
)
    requires
        messages.len() == roles.len(),
        messages.len() == contents.len(),
        forall|i: int|
            0 <= i < messages.len() ==> #[trigger] messages[i] == says(roles[i], contents[i]),
    ensures
        ({
            let input = responses::messages_in_responses(messages);
            &&& input.len() == messages.len()
            &&& forall|i: int|
                0 <= i < messages.len() ==> #[trigger] input[i] == says_in_responses(
                    responses::role_in_responses(roles[i]),
                    contents[i],
                )
        }),
    decreases messages.len(),
{
    if messages.len() > 0 {
        let before = messages.drop_last();
        assert forall|i: int| 0 <= i < before.len() implies #[trigger] before[i] == says(
            roles.drop_last()[i],
            contents.drop_last()[i],
        ) by {
            assert(before[i] == messages[i]);
        }
        law_every_text_is_carried_over(before, roles.drop_last(), contents.drop_last());
        let n = messages.len() - 1;
        let message = messages.last();
        let role = responses::role_in_responses(roles[n]);
        assert(message == says(roles[n], contents[n]));
        lemma_role_and_content();
        assert(json_laws::has(message, "role"@, JsonView::Str(roles[n])));
        assert(is_of_role(message, role)) by {
            assert(json_laws::has_text(message, "role"@));
        }
        assert(json_laws::has(message, "content"@, JsonView::Str(contents[n])));
        law_message_is_carried_over(message, role, JsonView::Str(contents[n]));
        law_messages_are_taken_one_by_one(before, seq![message]);
        assert(before + seq![message] =~= messages);
        body_laws::law_text_part_goes_by_the_role(role, contents[n]);
    }
}

/// The fields of a message have different names.
proof fn lemma_role_and_content()
    ensures
        "role"@ != "content"@,
{
    reveal_strlit("role");
    reveal_strlit("content");
    assert("role"@.len() == 4 && "content"@.len() == 7);
}

/// Over the responses API too every message of a conversation without an image is sent, behind the
/// system prompt, with the role that stands for its own and with its own content, in the same
/// order.
pub proof fn law_every_message_is_input(system: Seq<char>, messages: Seq<ExplainMessage>)
    ensures
        responses::input_json(
            JsonView::Array(conversation::conversation_messages(system, None, messages)),
        ) matches JsonView::Array(input) && {
            &&& input.len() == messages.len() + 1
            &&& input[0] == says_in_responses("developer"@, system)
            &&& forall|i: int|
                0 <= i < messages.len() ==> input[i + 1] == says_in_responses(
                    responses::role_in_responses((#[trigger] messages[i]).role@),
                    messages[i].content@,
                )
        },
{
    law_every_message_is_sent(system, messages);
    let sent = conversation::conversation_messages(system, None, messages);
    let roles = Seq::new(
        sent.len(),
        |i: int|
            if i == 0 {
                "system"@
            } else {
                messages[i - 1].role@
            },
    );
    let contents = Seq::new(
        sent.len(),
        |i: int|
            if i == 0 {
                system
            } else {
                messages[i - 1].content@
            },
    );
    assert forall|i: int| 0 <= i < sent.len() implies #[trigger] sent[i] == says(
        roles[i],
        contents[i],
    ) by {
        if i > 0 {
            let message = messages[i - 1];
            assert(sent[i - 1 + 1] == says(message.role@, message.content@));
        }
    }
    law_every_text_is_carried_over(sent, roles, contents);
    body_laws::law_roles_are_three("system"@);
    let input = responses::messages_in_responses(sent);
    assert(input[0] == says_in_responses(responses::role_in_responses(roles[0]), contents[0]));
    assert forall|i: int| 0 <= i < messages.len() implies input[i + 1] == says_in_responses(
        responses::role_in_responses((#[trigger] messages[i]).role@),
        messages[i].content@,
    ) by {
        assert(input[i + 1] == says_in_responses(
            responses::role_in_responses(roles[i + 1]),
            contents[i + 1],
        ));
    }
}

/// A message of the responses API that shows an image and says a text, with all its fields.
pub open spec fn shows_in_responses(bytes: Seq<u8>, content: Seq<char>) -> JsonView {
    JsonView::Object(
        map![
            "role"@ => JsonView::Str("user"@),
            "content"@ => JsonView::Array(
                seq![
                    JsonView::Object(
                        map![
                            "type"@ => JsonView::Str("input_image"@),
                            "image_url"@ => JsonView::Str(
                                "data:image/png;base64,"@ + image::base64(bytes),
                            ),
                        ],
                    ),
                    JsonView::Object(
                        map![
                            "type"@ => JsonView::Str("input_text"@),
                            "text"@ => JsonView::Str(content),
                        ],
                    ),
                ],
            ),
        ],
    )
}

/// The image and the text of a message of the user are carried over, in this order.
pub proof fn law_image_message_is_carried_over(bytes: Seq<u8>, content: Seq<char>)
    ensures
        responses::messages_in_responses(seq![shows(bytes, content)]) == seq![
            shows_in_responses(bytes, content),
        ],
{
    let message = shows(bytes, content);
    let address = "data:image/png;base64,"@ + image::base64(bytes);
    lemma_role_and_content();
    lemma_types_differ();
    lemma_other_names();
    let parts = request::image_message(bytes, content)->Object_0["content"@]->Array_0;
    let picture = parts[0];
    let words = parts[1];
    assert(parts =~= seq![picture] + seq![words]);
    assert(json_laws::has(message, "content"@, JsonView::Array(parts)));
    assert(json_laws::has(message, "role"@, JsonView::Str("user"@)));
    assert(json_laws::has_text(message, "role"@));
    assert(is_of_role(message, "user"@));
    law_message_is_carried_over(message, "user"@, JsonView::Array(parts));
    law_parts_are_taken_one_by_one("user"@, seq![picture], seq![words]);
    assert(is_of_type(picture, "image_url"@));
    let inner = JsonView::Object(map!["url"@ => JsonView::Str(address)]);
    assert(json_laws::has(inner, "url"@, JsonView::Str(address)));
    assert(has_address(picture, address));
    law_image_is_carried_over("user"@, picture, address);
    assert(is_of_type(words, "text"@));
    law_text_is_carried_over("user"@, words, content);
    let input_parts = shows_in_responses(bytes, content)->Object_0["content"@]->Array_0;
    assert(responses::parts_in_responses("user"@, parts) =~= input_parts);
}

/// Further names of fields and roles that are different.
proof fn lemma_other_names()
    ensures
        "type"@ != "image_url"@,
        "type"@ != "text"@,
        "user"@ != "assistant"@,
        responses::role_in_responses("user"@) == "user"@,
{
    reveal_strlit("type");
    reveal_strlit("image_url");
    reveal_strlit("text");
    reveal_strlit("user");
    reveal_strlit("assistant");
    reveal_strlit("system");
    reveal_strlit("developer");
    assert("type"@[1] == 'y' && "text"@[1] == 'e');
    assert("type"@.len() == 4 && "image_url"@.len() == 9 && "user"@.len() == 4 && "assistant"@.len()
        == 9 && "system"@.len() == 6 && "developer"@.len() == 9);
}

/// Over the responses API too the image is shown with the first message of a conversation, and
/// every later one is sent with the role that stands for its own and with its own content.
pub proof fn law_every_message_is_input_with_the_image(
    system: Seq<char>,
    bytes: Seq<u8>,
    messages: Seq<ExplainMessage>,
)
    requires
        messages.len() > 0,
    ensures
        responses::input_json(
            JsonView::Array(conversation::conversation_messages(system, Some(bytes), messages)),
        ) matches JsonView::Array(input) && {
            &&& input.len() == messages.len() + 1
            &&& input[0] == says_in_responses("developer"@, system)
            &&& input[1] == shows_in_responses(bytes, messages[0].content@)
            &&& forall|i: int|
                1 <= i < messages.len() ==> input[i + 1] == says_in_responses(
                    responses::role_in_responses((#[trigger] messages[i]).role@),
                    messages[i].content@,
                )
        },
{
    law_every_message_is_sent_with_the_image(system, bytes, messages);
    let sent = conversation::conversation_messages(system, Some(bytes), messages);
    let first = sent.subrange(0, 1);
    let picture = sent.subrange(1, 2);
    let rest = sent.subrange(2, sent.len() as int);
    assert(sent =~= first + picture + rest);
    assert(picture =~= seq![shows(bytes, messages[0].content@)]);
    law_messages_are_taken_one_by_one(first, picture);
    law_messages_are_taken_one_by_one(first + picture, rest);
    law_image_message_is_carried_over(bytes, messages[0].content@);
    assert(first[0] == says(seq!["system"@][0], seq![system][0]));
    law_every_text_is_carried_over(first, seq!["system"@], seq![system]);
    body_laws::law_roles_are_three("system"@);
    let later = messages.drop_first();
    let roles = Seq::new(later.len(), |i: int| later[i].role@);
    let contents = Seq::new(later.len(), |i: int| later[i].content@);
    assert forall|i: int| 0 <= i < rest.len() implies #[trigger] rest[i] == says(
        roles[i],
        contents[i],
    ) by {
        let message = messages[i + 1];
        assert(sent[i + 1 + 1] == says(message.role@, message.content@));
    }
    law_every_text_is_carried_over(rest, roles, contents);
    let input = responses::messages_in_responses(sent);
    let start = responses::messages_in_responses(first);
    let tail = responses::messages_in_responses(rest);
    assert(input =~= start + seq![shows_in_responses(bytes, messages[0].content@)] + tail);
    assert(input[0] == start[0]);
    assert forall|i: int| 1 <= i < messages.len() implies input[i + 1] == says_in_responses(
        responses::role_in_responses((#[trigger] messages[i]).role@),
        messages[i].content@,
    ) by {
        assert(input[i + 1] == tail[i - 1]);
        assert(tail[i - 1] == says_in_responses(
            responses::role_in_responses(roles[i - 1]),
            contents[i - 1],
        ));
    }
}

// ===== The request =====

/// A text that is given counts where it is not empty, and else the usual one does.
pub proof fn law_given_text_counts(given: Seq<char>, usual: Seq<char>)
    ensures
        given.len() > 0 ==> conversation::chosen(Some(given), usual) == given,
        given.len() == 0 ==> conversation::chosen(Some(given), usual) == usual,
        conversation::chosen(None, usual) == usual,
{
}

/// The messages of a call are those of the conversation behind its system prompt: the given one or
/// the usual one, and where thinking is not wanted, what forbids it behind that.
pub proof fn law_call_sends_its_messages(call: VisionCall)
    ensures
        ({
            let prompt = conversation::chosen(
                text::optional(call.system_prompt_override),
                call.default_prompt@,
            );
            let picture = match call.image {
                Some(bytes) => Some(bytes@),
                None => None,
            };
            &&& call.thinking_enabled ==> call.system_prompt() == prompt
            &&& !call.thinking_enabled ==> call.system_prompt() == prompt + call.no_think@
            &&& call.chat_messages() == conversation::conversation_messages(
                call.system_prompt(),
                picture,
                call.messages@,
            )
        }),
{
}

/// The request for the next message at the chat API has the messages of the call, and these other
/// fields.
pub proof fn law_chat_request_asks_this(base_url: Seq<char>, model: Seq<char>, call: VisionCall)
    requires
        endpoint::endpoint_kind(base_url) != ModelEndpointKind::Responses,
    ensures
        ({
            let sent = conversation::vision_request_view(base_url, model, call);
            &&& sent.label == "Vision API"@
            &&& sent.url == endpoint::chat_url(base_url)
            &&& !sent.responses
            &&& json_laws::has(sent.body, "model"@, JsonView::Str(model))
            &&& json_laws::has(sent.body, "messages"@, JsonView::Array(call.chat_messages()))
            &&& json_laws::has(sent.body, "temperature"@, json_text::number_json("0.7"@))
            &&& json_laws::has(sent.body, "max_tokens"@, json_text::number_json("2000"@))
            &&& if call.stream {
                json_laws::has(sent.body, "stream"@, JsonView::Bool(true))
            } else {
                json_laws::lacks(sent.body, "stream"@)
            }
            &&& if call.thinking_enabled {
                json_laws::lacks(sent.body, "thinking"@)
            } else {
                json_laws::has(
                    sent.body,
                    "thinking"@,
                    JsonView::Object(map!["type"@ => JsonView::Str("disabled"@)]),
                )
            }
        }),
{
    lemma_names_of_fields();
}

/// The request for the next message at the responses API has the messages of the call as its input,
/// and these other fields.
pub proof fn law_responses_request_asks_this(
    base_url: Seq<char>,
    model: Seq<char>,
    call: VisionCall,
)
    requires
        endpoint::endpoint_kind(base_url) == ModelEndpointKind::Responses,
    ensures
        ({
            let sent = conversation::vision_request_view(base_url, model, call);
            &&& sent.label == "Vision API"@
            &&& sent.url == endpoint::responses_url(base_url)
            &&& sent.responses
            &&& json_laws::has(sent.body, "model"@, JsonView::Str(model))
            &&& json_laws::has(
                sent.body,
                "input"@,
                responses::input_json(JsonView::Array(call.chat_messages())),
            )
            &&& json_laws::has(sent.body, "max_output_tokens"@, json_text::number_json("2000"@))
            &&& if call.stream {
                json_laws::has(sent.body, "stream"@, JsonView::Bool(true))
            } else {
                json_laws::lacks(sent.body, "stream"@)
            }
            &&& if call.thinking_enabled {
                json_laws::lacks(sent.body, "reasoning"@)
            } else {
                json_laws::has(
                    sent.body,
                    "reasoning"@,
                    JsonView::Object(map!["effort"@ => JsonView::Str("low"@)]),
                )
            }
            &&& if call.web_search_enabled {
                &&& json_laws::has(
                    sent.body,
                    "tools"@,
                    JsonView::Array(
                        seq![JsonView::Object(map!["type"@ => JsonView::Str("web_search"@)])],
                    ),
                )
                &&& json_laws::has(sent.body, "tool_choice"@, JsonView::Str("auto"@))
            } else {
                json_laws::lacks(sent.body, "tools"@) && json_laws::lacks(
                    sent.body,
                    "tool_choice"@,
                )
            }
        }),
{
    lemma_names_of_fields();
}

/// The fields of a request have different names.
proof fn lemma_names_of_fields()
    ensures
        "model"@.len() == 5 && "model"@[0] == 'm',
        "input"@.len() == 5 && "input"@[0] == 'i',
        "tools"@.len() == 5 && "tools"@[0] == 't',
        "stream"@.len() == 6,
        "messages"@.len() == 8 && "messages"@[0] == 'm',
        "thinking"@.len() == 8 && "thinking"@[0] == 't',
        "reasoning"@.len() == 9,
        "max_tokens"@.len() == 10,
        "temperature"@.len() == 11 && "temperature"@[1] == 'e',
        "tool_choice"@.len() == 11 && "tool_choice"@[1] == 'o',
        "max_output_tokens"@.len() == 17,
{
    reveal_strlit("model");
    reveal_strlit("input");
    reveal_strlit("tools");
    reveal_strlit("stream");
    reveal_strlit("messages");
    reveal_strlit("thinking");
    reveal_strlit("reasoning");
    reveal_strlit("max_tokens");
    reveal_strlit("temperature");
    reveal_strlit("tool_choice");
    reveal_strlit("max_output_tokens");
}

// ===== The provider =====

/// A conversation goes to the provider that is given, or else to the one for translations; it must
/// be in the settings and have another address than the model on the device.
pub proof fn law_conversation_goes_to_a_provider(
    settings: Settings,
    on_device_url: Seq<char>,
    given: Option<Seq<char>>,
)
    ensures
        ({
            let id = conversation::chosen(given, settings.translator_provider_id@);
            let found = conversation::conversation_provider(settings, on_device_url, given);
            match settings.provider(id) {
                Some(provider) => if provider.base_url@ == on_device_url {
                    found is Err && found->Err_0 == conversation::VISION_NEEDS_CLOUD@
                } else {
                    found is Ok && found->Ok_0 == provider
                },
                None => found is Err && found->Err_0 == "Vision provider not found"@,
            }
        }),
{
}

}
