//! The addresses of a model provider: which API an address speaks, and the addresses derived
//! from it.

use crate::text;
use vstd::prelude::*;
use vstd::string::*;

verus! {

/// The path at which the chat completions API is served.
pub const CHAT_PATH: &'static str = "/chat/completions";

/// The path at which the responses API is served.
pub const RESPONSES_PATH: &'static str = "/responses";

/// The API that an address speaks, read off its path.
#[derive(Debug, Clone, Copy, PartialEq, Eq, Structural)]
pub enum ModelEndpointKind {
    ChatCompletions,
    Responses,
    LegacyBase,
}

/// An address without surrounding white space and without the slashes at its end.
pub open spec fn normalized(url: Seq<char>) -> Seq<char> {
    text::trim_end_by(text::trim(url), text::only('/'))
}

/// The API that an address speaks: the one whose path it ends with, whatever the case of its
/// letters.
pub open spec fn endpoint_kind(url: Seq<char>) -> ModelEndpointKind {
    if RESPONSES_PATH@.is_suffix_of(text::lower(normalized(url))) {
        ModelEndpointKind::Responses
    } else if CHAT_PATH@.is_suffix_of(text::lower(normalized(url))) {
        ModelEndpointKind::ChatCompletions
    } else {
        ModelEndpointKind::LegacyBase
    }
}

/// The address of the chat completions API of a provider.
pub open spec fn chat_url(url: Seq<char>) -> Seq<char> {
    if endpoint_kind(normalized(url)) == ModelEndpointKind::ChatCompletions {
        normalized(url)
    } else {
        normalized(url) + CHAT_PATH@
    }
}

/// The address of the responses API of a provider.
pub open spec fn responses_url(url: Seq<char>) -> Seq<char> {
    if endpoint_kind(normalized(url)) == ModelEndpointKind::Responses {
        normalized(url)
    } else {
        normalized(url) + RESPONSES_PATH@
    }
}

/// The address of a provider without the path of either API.
pub open spec fn base_url(url: Seq<char>) -> Seq<char> {
    let plain = normalized(url);
    if CHAT_PATH@.is_suffix_of(text::lower(plain)) {
        plain.take(plain.len() - CHAT_PATH@.len())
    } else if RESPONSES_PATH@.is_suffix_of(text::lower(plain)) {
        plain.take(plain.len() - RESPONSES_PATH@.len())
    } else {
        plain
    }
}

/// The address without surrounding white space and without the slashes at its end.
pub fn normalized_provider_url(url: &str) -> (result: String)
    ensures
        result@ == normalized(url@),
{
    text::trim_end_char(&text::trim_text(url), '/')
}

/// The API that an address speaks.
pub fn provider_endpoint_kind(url: &str) -> (result: ModelEndpointKind)
    ensures
        result == endpoint_kind(url@),
{
    let plain = normalized_provider_url(url);
    if text::ends_with_lower(&plain, RESPONSES_PATH) {
        ModelEndpointKind::Responses
    } else if text::ends_with_lower(&plain, CHAT_PATH) {
        ModelEndpointKind::ChatCompletions
    } else {
        ModelEndpointKind::LegacyBase
    }
}

/// The address of the chat completions API: the address itself where it already is one, else the
/// address with the path appended.
pub fn chat_completions_url(url: &str) -> (result: String)
    ensures
        result@ == chat_url(url@),
{
    let plain = normalized_provider_url(url);
    if provider_endpoint_kind(&plain) == ModelEndpointKind::ChatCompletions {
        plain
    } else {
        plain.concat(CHAT_PATH)
    }
}

/// The address of the responses API: the address itself where it already is one, else the address
/// with the path appended.
pub fn responses_api_url(url: &str) -> (result: String)
    ensures
        result@ == responses_url(url@),
{
    let plain = normalized_provider_url(url);
    if provider_endpoint_kind(&plain) == ModelEndpointKind::Responses {
        plain
    } else {
        plain.concat(RESPONSES_PATH)
    }
}

/// The address at which a provider lists its models.
pub fn models_url_from_provider_url(url: &str) -> (result: String)
    ensures
        result@ == base_url(url@) + "/models"@,
{
    let plain = normalized_provider_url(url);
    let length = text::chars_of(&plain).len();
    let base = if text::ends_with_lower(&plain, CHAT_PATH) {
        let cut = text::chars_of(CHAT_PATH).len();
        assert(plain@.subrange(0, length - cut) =~= plain@.take(length - cut));
        text::slice_text(&plain, 0, length - cut)
    } else if text::ends_with_lower(&plain, RESPONSES_PATH) {
        let cut = text::chars_of(RESPONSES_PATH).len();
        assert(plain@.subrange(0, length - cut) =~= plain@.take(length - cut));
        text::slice_text(&plain, 0, length - cut)
    } else {
        plain
    };
    base.concat("/models")
}

/// A normalized address does not start with white space.
proof fn lemma_normalized_start(url: Seq<char>)
    ensures
        normalized(url).len() > 0 ==> !text::is_whitespace(normalized(url)[0]),
{
    let start = text::lemma_trim_start_shape(url, text::space());
    let body = text::trim_start_by(url, text::space());
    let kept = text::lemma_trim_end_shape(body, text::space());
    let plain = text::trim(url);
    let end = text::lemma_trim_end_shape(plain, text::only('/'));
    if normalized(url).len() > 0 {
        assert(normalized(url)[0] == url[start]);
    }
}

/// Normalizing keeps a text that neither starts nor ends with white space nor ends with a slash.
proof fn lemma_already_normalized(plain: Seq<char>)
    requires
        plain.len() > 0,
        !text::is_whitespace(plain[0]),
        !text::is_whitespace(plain.last()),
        plain.last() != '/',
    ensures
        normalized(plain) == plain,
{
    text::lemma_trim_start(plain, text::space(), 0);
    assert(plain.skip(0) =~= plain);
    text::lemma_trim_end(plain, text::space(), plain.len() as int);
    assert(plain.take(plain.len() as int) =~= plain);
    text::lemma_trim_end(plain, text::only('/'), plain.len() as int);
}

/// A text with the path of an API behind it, which starts with no white space, is normalized, and
/// the path that it ends with is the one that was appended.
proof fn lemma_appended(plain: Seq<char>)
    requires
        plain.len() > 0 ==> !text::is_whitespace(plain[0]),
    ensures
        normalized(plain + CHAT_PATH@) == plain + CHAT_PATH@,
        CHAT_PATH@.is_suffix_of(text::lower(plain + CHAT_PATH@)),
        !RESPONSES_PATH@.is_suffix_of(text::lower(plain + CHAT_PATH@)),
        normalized(plain + RESPONSES_PATH@) == plain + RESPONSES_PATH@,
        RESPONSES_PATH@.is_suffix_of(text::lower(plain + RESPONSES_PATH@)),
        !CHAT_PATH@.is_suffix_of(text::lower(plain + RESPONSES_PATH@)),
{
    reveal_strlit("/chat/completions");
    reveal_strlit("/responses");
    let chat = plain + CHAT_PATH@;
    let responses = plain + RESPONSES_PATH@;
    lemma_already_normalized(chat);
    lemma_already_normalized(responses);
    assert(text::lower(chat).subrange(plain.len() as int, chat.len() as int) =~= CHAT_PATH@);
    assert(text::lower(responses).subrange(plain.len() as int, responses.len() as int)
        =~= RESPONSES_PATH@);
    let n = chat.len() as int;
    assert(text::lower(chat)[n - 4] == 'i');
    assert(text::lower(chat).subrange(n - 10, n)[6] == 'i');
    let m = responses.len() as int;
    if m >= 17 {
        assert(text::lower(responses)[m - 4] == 'n');
        assert(text::lower(responses).subrange(m - 17, m)[13] == 'n');
    }
}

/// A normalized address whose path is that of an API stays the same when it is normalized again.
proof fn lemma_path_is_normalized(url: Seq<char>)
    requires
        CHAT_PATH@.is_suffix_of(text::lower(normalized(url))) || RESPONSES_PATH@.is_suffix_of(
            text::lower(normalized(url)),
        ),
    ensures
        normalized(normalized(url)) == normalized(url),
{
    reveal_strlit("/chat/completions");
    reveal_strlit("/responses");
    let plain = normalized(url);
    let n = plain.len() as int;
    lemma_normalized_start(url);
    if CHAT_PATH@.is_suffix_of(text::lower(plain)) {
        assert(text::lower(plain).subrange(n - 17, n)[16] == 's');
    } else {
        assert(text::lower(plain).subrange(n - 10, n)[9] == 's');
    }
    assert(text::lower_char(plain.last()) == 's');
    lemma_already_normalized(plain);
}

/// The address derived for an API is one that speaks that API.
pub proof fn law_derived_address_speaks_its_api(url: Seq<char>)
    ensures
        endpoint_kind(chat_url(url)) == ModelEndpointKind::ChatCompletions,
        endpoint_kind(responses_url(url)) == ModelEndpointKind::Responses,
{
    lemma_normalized_start(url);
    lemma_appended(normalized(url));
}

/// An address with the path of the chat completions API behind it speaks that API.
pub proof fn lemma_chat_path_speaks_chat(plain: Seq<char>)
    ensures
        endpoint_kind(plain + CHAT_PATH@) == ModelEndpointKind::ChatCompletions,
{
    reveal_strlit("/chat/completions");
    let n = text::lemma_trim_start_shape(plain, text::space());
    let start = plain.skip(n);
    let whole = plain + CHAT_PATH@;
    assert forall|i: int| 0 <= i < n implies text::space()(#[trigger] whole[i]) by {
        assert(whole[i] == plain[i]);
    }
    assert(whole[n] == if n < plain.len() {
        plain[n]
    } else {
        '/'
    });
    text::lemma_trim_start(whole, text::space(), n);
    assert(whole.skip(n) =~= start + CHAT_PATH@);
    let short = start + CHAT_PATH@;
    assert(short[0] == whole[n]);
    text::lemma_trim_start(short, text::space(), 0);
    assert(short.skip(0) =~= short);
    assert(normalized(whole) == normalized(short));
    lemma_appended(start);
}

/// Deriving the address of the chat completions API twice gives what deriving it once gives. The
/// one exception is an address that already ends with the path and white space and slashes behind
/// it, from which one pass removes the slashes alone.
pub proof fn law_chat_url_is_stable(url: Seq<char>)
    requires
        endpoint_kind(normalized(url)) == ModelEndpointKind::ChatCompletions ==> normalized(
            normalized(url),
        ) == normalized(url),
    ensures
        chat_url(chat_url(url)) == chat_url(url),
{
    lemma_normalized_start(url);
    lemma_appended(normalized(url));
}

/// Deriving the address of the responses API twice gives what deriving it once gives, with the
/// same exception as for the chat completions API.
pub proof fn law_responses_url_is_stable(url: Seq<char>)
    requires
        endpoint_kind(normalized(url)) == ModelEndpointKind::Responses ==> normalized(
            normalized(url),
        ) == normalized(url),
    ensures
        responses_url(responses_url(url)) == responses_url(url),
{
    lemma_normalized_start(url);
    lemma_appended(normalized(url));
}

/// The models of a provider are listed at one address, whether the address of the provider is
/// given plainly or with the path of either API behind it.
pub proof fn law_models_address_ignores_the_api_path(url: Seq<char>)
    requires
        endpoint_kind(normalized(url)) == ModelEndpointKind::LegacyBase,
    ensures
        base_url(url) == normalized(url),
        base_url(chat_url(url)) == base_url(url),
        base_url(responses_url(url)) == base_url(url),
{
    let plain = normalized(url);
    lemma_normalized_start(url);
    lemma_appended(plain);
    if CHAT_PATH@.is_suffix_of(text::lower(plain)) || RESPONSES_PATH@.is_suffix_of(text::lower(plain)) {
        lemma_path_is_normalized(url);
    }
    assert((plain + CHAT_PATH@).take(plain.len() as int) =~= plain);
    assert((plain + RESPONSES_PATH@).take(plain.len() as int) =~= plain);
}

}
