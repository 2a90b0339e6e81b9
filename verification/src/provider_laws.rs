//! What holds of the addresses, the keys and the settings of providers, stated on the texts
//! themselves.

use crate::endpoint::ModelEndpointKind;
use crate::provider::{ProviderConnectionInput, Settings};
use crate::{endpoint, provider, responses_laws, text, text_laws};
use vstd::prelude::*;
use vstd::string::*;

verus! {

// ===== Addresses =====

/// An address is normalized by taking off the white space around it and then the slashes at its
/// end, and nothing else.
pub proof fn law_address_is_normalized(
    before: Seq<char>,
    plain: Seq<char>,
    slashes: nat,
    after: Seq<char>,
)
    requires
        text_laws::is_blank(before),
        text_laws::is_blank(after),
        plain.len() > 0 ==> !text::is_whitespace(plain[0]) && plain.last() != '/',
        slashes == 0 ==> text_laws::is_tight(plain),
    ensures
        endpoint::normalized(before + plain + Seq::new(slashes, |i: int| '/') + after) == plain,
{
    let ending = Seq::new(slashes, |i: int| '/');
    let inside = plain + ending;
    if inside.len() > 0 {
        assert(inside[0] == if plain.len() > 0 {
            plain[0]
        } else {
            '/'
        });
        assert(inside[inside.len() - 1] == if slashes > 0 {
            '/'
        } else {
            plain[plain.len() - 1]
        });
    }
    text_laws::law_trim_keeps_the_inside(before, inside, after);
    assert(before + inside + after =~= before + plain + ending + after);
    text::lemma_trim_end(inside, text::only('/'), plain.len() as int);
    assert(inside.take(plain.len() as int) =~= plain);
}

/// The API that an address speaks is the one of the path at its end, whatever the case of the
/// letters; with another end it speaks neither.
pub proof fn law_path_tells_the_api(url: Seq<char>, head: Seq<char>, path: Seq<char>)
    requires
        endpoint::normalized(url) == head + path,
    ensures
        text::lower(path) == "/responses"@ ==> endpoint::endpoint_kind(url)
            == ModelEndpointKind::Responses,
        text::lower(path) == "/chat/completions"@ ==> endpoint::endpoint_kind(url)
            == ModelEndpointKind::ChatCompletions,
        path.len() == 10 && endpoint::endpoint_kind(url) == ModelEndpointKind::Responses
            ==> text::lower(path) == "/responses"@,
        path.len() == 17 && endpoint::endpoint_kind(url) == ModelEndpointKind::ChatCompletions
            ==> text::lower(path) == "/chat/completions"@,
        endpoint::endpoint_kind(url) == ModelEndpointKind::Responses ==> endpoint::normalized(
            url,
        ).len() >= 10,
        endpoint::endpoint_kind(url) == ModelEndpointKind::ChatCompletions ==> endpoint::normalized(
            url,
        ).len() >= 17,
{
    reveal_strlit("/responses");
    reveal_strlit("/chat/completions");
    let plain = head + path;
    let n = plain.len() as int;
    let k = head.len() as int;
    assert(text::lower(plain).subrange(k, n) =~= text::lower(path));
    if text::lower(path) == "/chat/completions"@ && "/responses"@.is_suffix_of(text::lower(plain)) {
        assert(text::lower(plain).subrange(n - 10, n)[6] == text::lower(path)[13]);
    }
}

/// The address of an API is the normalized one where that speaks the API already, and else the
/// normalized one with the path of the API behind it.
pub proof fn law_path_is_put_behind_the_address(url: Seq<char>)
    ensures
        ({
            let plain = endpoint::normalized(url);
            &&& endpoint::endpoint_kind(plain) == ModelEndpointKind::ChatCompletions
                ==> endpoint::chat_url(url) == plain
            &&& endpoint::endpoint_kind(plain) != ModelEndpointKind::ChatCompletions
                ==> endpoint::chat_url(url) == plain + "/chat/completions"@
            &&& endpoint::endpoint_kind(plain) == ModelEndpointKind::Responses
                ==> endpoint::responses_url(url) == plain
            &&& endpoint::endpoint_kind(plain) != ModelEndpointKind::Responses
                ==> endpoint::responses_url(url) == plain + "/responses"@
        }),
{
}

/// The path of either API is taken off an address, and nothing else is.
pub proof fn law_path_is_taken_off(url: Seq<char>, head: Seq<char>, path: Seq<char>)
    requires
        endpoint::normalized(url) == head + path,
    ensures
        text::lower(path) == "/responses"@ ==> endpoint::base_url(url) == head,
        text::lower(path) == "/chat/completions"@ ==> endpoint::base_url(url) == head,
        endpoint::endpoint_kind(url) == ModelEndpointKind::LegacyBase ==> endpoint::base_url(url)
            == head + path,
{
    reveal_strlit("/responses");
    reveal_strlit("/chat/completions");
    let plain = head + path;
    let n = plain.len() as int;
    let k = head.len() as int;
    assert(text::lower(plain).subrange(k, n) =~= text::lower(path));
    assert(plain.take(k) =~= head);
    if text::lower(path) == "/responses"@ && "/chat/completions"@.is_suffix_of(text::lower(plain)) {
        assert(text::lower(plain).subrange(n - 17, n)[13] == text::lower(path)[6]);
    }
}

// ===== Settings =====

/// The provider with an identifier is the first one in the settings that has it.
pub proof fn law_first_provider_is_found(settings: Settings, id: Seq<char>, i: int)
    requires
        0 <= i < settings.providers@.len(),
        settings.providers@[i].id@ == id,
        forall|j: int| 0 <= j < i ==> (#[trigger] settings.providers@[j]).id@ != id,
    ensures
        settings.provider(id) == Some(settings.providers@[i]),
{
    lemma_provider_from(settings, id, i, 0);
}

/// The search reaches the first provider that has the identifier.
proof fn lemma_provider_from(settings: Settings, id: Seq<char>, i: int, from: int)
    requires
        0 <= from <= i < settings.providers@.len(),
        settings.providers@[i].id@ == id,
        forall|j: int| 0 <= j < i ==> (#[trigger] settings.providers@[j]).id@ != id,
    ensures
        provider::provider_index(settings.providers@, id, from) == Some(i),
    decreases i - from,
{
    if from < i {
        lemma_provider_from(settings, id, i, from + 1);
    }
}

/// Where no provider in the settings has an identifier, none is found.
pub proof fn law_missing_provider_is_not_found(settings: Settings, id: Seq<char>)
    requires
        forall|j: int|
            0 <= j < settings.providers@.len() ==> (#[trigger] settings.providers@[j]).id@ != id,
    ensures
        settings.provider(id) is None,
{
    lemma_no_provider_from(settings, id, 0);
}

/// The search passes over providers with other identifiers.
proof fn lemma_no_provider_from(settings: Settings, id: Seq<char>, from: int)
    requires
        0 <= from <= settings.providers@.len(),
        forall|j: int|
            0 <= j < settings.providers@.len() ==> (#[trigger] settings.providers@[j]).id@ != id,
    ensures
        provider::provider_index(settings.providers@, id, from) is None,
    decreases settings.providers@.len() - from,
{
    if from < settings.providers@.len() {
        lemma_no_provider_from(settings, id, from + 1);
    }
}

// ===== Keys =====

/// The usable keys of rows put together are those of each of them, in their order.
pub proof fn law_keys_are_taken_one_by_one(a: Seq<Seq<char>>, b: Seq<Seq<char>>)
    ensures
        provider::usable_keys(a + b) == provider::usable_keys(a) + provider::usable_keys(b),
    decreases b.len(),
{
    if b.len() == 0 {
        assert(a + b =~= a);
        assert(provider::usable_keys(a) + provider::usable_keys(b) =~= provider::usable_keys(a));
    } else {
        law_keys_are_taken_one_by_one(a, b.drop_last());
        assert((a + b).drop_last() =~= a + b.drop_last());
        assert((a + b).last() == b.last());
        assert(provider::usable_keys(a + b) =~= provider::usable_keys(a) + provider::usable_keys(b));
    }
}

/// A key is usable without the white space around it, and not at all where there is nothing else.
pub proof fn law_key_is_trimmed(key: Seq<char>)
    ensures
        text_laws::is_blank(key) ==> provider::usable_keys(seq![key]).len() == 0,
        !text_laws::is_blank(key) ==> provider::usable_keys(seq![key]) == seq![text::trim(key)],
        provider::usable_keys(Seq::empty()).len() == 0,
{
    reveal_with_fuel(provider::usable_keys, 2);
    responses_laws::lemma_blank_is_trimmed_away(key);
    assert(seq![key].drop_last() =~= Seq::empty());
    assert(seq![key].last() == key);
}

/// The keys of a connection are the usable ones of its row, and that of older windows only where
/// the row has none.
pub proof fn law_row_of_keys_comes_first(input: ProviderConnectionInput)
    ensures
        ({
            let row = Seq::new(input.api_keys@.len(), |i: int| input.api_keys@[i]@);
            &&& provider::usable_keys(row).len() > 0 ==> input.keys() == provider::usable_keys(row)
            &&& provider::usable_keys(row).len() == 0 && input.api_key is None ==> input.keys().len()
                == 0
            &&& provider::usable_keys(row).len() == 0 && input.api_key is Some ==> input.keys()
                == provider::usable_keys(seq![input.api_key->0@])
        }),
{
    assert(provider::texts(input.api_keys@) =~= Seq::new(
        input.api_keys@.len(),
        |i: int| input.api_keys@[i]@,
    ));
}

/// A connection that is brought along counts where it names the provider, or none; else the
/// provider in the settings does, with all of its keys as they are.
pub proof fn law_own_connection_comes_first(
    settings: Settings,
    id: Seq<char>,
    input: ProviderConnectionInput,
)
    ensures
        ({
            let meant = input.id is None || input.id->0@.len() == 0 || input.id->0@ == id;
            let own = provider::credentials(settings, id, Some(input));
            let stored = provider::credentials(settings, id, None);
            &&& meant ==> own is Ok && own->Ok_0 == (input.base_url@, input.keys())
            &&& !meant ==> own == stored
            &&& match settings.provider(id) {
                Some(found) => {
                    &&& stored is Ok
                    &&& stored->Ok_0.0 == found.base_url@
                    &&& stored->Ok_0.1 == Seq::new(
                        found.api_keys@.len(),
                        |i: int| found.api_keys@[i]@,
                    )
                },
                None => stored is Err && stored->Err_0 == "Provider not found"@,
            }
        }),
{
    if let Some(found) = settings.provider(id) {
        assert(provider::texts(found.api_keys@) =~= Seq::new(
            found.api_keys@.len(),
            |i: int| found.api_keys@[i]@,
        ));
    }
}

}
