//! Model providers: the settings that are read of them, and the credentials for a connection.

use crate::text;
use vstd::prelude::*;
use vstd::string::*;

verus! {

/// A provider of models: its identifier, its address and its keys.
#[derive(Debug, Clone)]
pub struct ModelProvider {
    pub id: String,
    pub base_url: String,
    pub api_keys: Vec<String>,
}

/// The settings that bear on the calls to a provider.
#[derive(Debug, Clone)]
pub struct Settings {
    pub providers: Vec<ModelProvider>,
    pub retry_enabled: bool,
    pub retry_attempts: u32,
    pub translator_provider_id: String,
    pub translator_model: String,
}

/// A connection to a provider that is to be tried without being in the settings. `api_keys` counts;
/// `api_key` is the field of older windows, which know of one key.
#[derive(Debug, Clone)]
pub struct ProviderConnectionInput {
    pub id: Option<String>,
    pub base_url: String,
    pub api_keys: Vec<String>,
    pub api_key: Option<String>,
}

/// The texts of a row of strings.
pub open spec fn texts(strings: Seq<String>) -> Seq<Seq<char>> {
    Seq::new(strings.len(), |i: int| strings[i]@)
}

/// The position of the first provider with an identifier.
pub open spec fn provider_index(providers: Seq<ModelProvider>, id: Seq<char>, from: int) -> Option<
    int,
>
    decreases providers.len() - from,
{
    if from < 0 || from >= providers.len() {
        None
    } else if providers[from].id@ == id {
        Some(from)
    } else {
        provider_index(providers, id, from + 1)
    }
}

impl Settings {
    /// The first provider with an identifier.
    pub open spec fn provider(self, id: Seq<char>) -> Option<ModelProvider> {
        match provider_index(self.providers@, id, 0) {
            Some(i) => Some(self.providers@[i]),
            None => None,
        }
    }

    /// The first provider with an identifier.
    pub fn get_provider(&self, id: &str) -> (result: Option<&ModelProvider>)
        ensures
            match result {
                Some(provider) => self.provider(id@) == Some(*provider),
                None => self.provider(id@) is None,
            },
    {
        let mut i: usize = 0;
        while i < self.providers.len()
            invariant
                i <= self.providers@.len(),
                provider_index(self.providers@, id@, 0) == provider_index(
                    self.providers@,
                    id@,
                    i as int,
                ),
            decreases self.providers@.len() - i,
        {
            if text::same_text(&self.providers[i].id, id) {
                return Some(&self.providers[i]);
            }
            i = i + 1;
        }
        None
    }
}

/// How often a request is tried: once where retrying is switched off.
pub fn effective_retry_attempts(settings: &Settings) -> (result: usize)
    ensures
        result == if settings.retry_enabled {
            settings.retry_attempts as int
        } else {
            1
        },
{
    if settings.retry_enabled {
        settings.retry_attempts as usize
    } else {
        1
    }
}

/// The keys of a row without surrounding white space, without those that are left empty.
pub open spec fn usable_keys(keys: Seq<Seq<char>>) -> Seq<Seq<char>>
    decreases keys.len(),
{
    if keys.len() == 0 {
        Seq::empty()
    } else {
        let before = usable_keys(keys.drop_last());
        let key = text::trim(keys.last());
        if key.len() == 0 {
            before
        } else {
            before.push(key)
        }
    }
}

impl ProviderConnectionInput {
    /// The usable keys: those of `api_keys`, or that of `api_key` where there are none.
    pub open spec fn keys(self) -> Seq<Seq<char>> {
        let keys = usable_keys(texts(self.api_keys@));
        if keys.len() > 0 {
            keys
        } else {
            match self.api_key {
                Some(key) => usable_keys(seq![key@]),
                None => Seq::empty(),
            }
        }
    }

    /// Whether this connection is meant for the provider `provider_id`: it names that one or none.
    pub open spec fn is_for(self, provider_id: Seq<char>) -> bool {
        match self.id {
            Some(id) => id@.len() == 0 || id@ == provider_id,
            None => true,
        }
    }

    /// The usable keys: those of `api_keys`, or that of `api_key` where there are none.
    pub fn merged_keys(&self) -> (result: Vec<String>)
        ensures
            texts(result@) == self.keys(),
    {
        let ghost given = texts(self.api_keys@);
        let mut keys: Vec<String> = Vec::new();
        assert(texts(keys@) =~= usable_keys(given.take(0)));
        for i in 0..self.api_keys.len()
            invariant
                given == texts(self.api_keys@),
                texts(keys@) == usable_keys(given.take(i as int)),
        {
            let ghost before = keys@;
            proof {
                assert(given.take(i + 1).drop_last() =~= given.take(i as int));
                assert(given.take(i + 1).last() == self.api_keys@[i as int]@);
            }
            let key = text::trim_text(&self.api_keys[i]);
            if !key.as_str().is_empty() {
                keys.push(key);
                assert(texts(keys@) =~= texts(before).push(key@));
            }
        }
        assert(given.take(given.len() as int) =~= given);
        if keys.len() == 0 {
            assert(texts(keys@) =~= Seq::empty());
            if let Some(legacy) = &self.api_key {
                proof {
                    let row = seq![legacy@];
                    assert(row.drop_last() =~= Seq::empty());
                    assert(usable_keys(Seq::empty()) == Seq::<Seq<char>>::empty());
                }
                let key = text::trim_text(legacy);
                if !key.as_str().is_empty() {
                    keys.push(key);
                    assert(texts(keys@) =~= Seq::empty().push(key@));
                }
            }
        }
        keys
    }
}

/// The address and the keys for a connection to the provider `provider_id`: those of the given
/// connection where it is meant for that provider, else those in the settings.
pub open spec fn credentials(
    settings: Settings,
    provider_id: Seq<char>,
    provider: Option<ProviderConnectionInput>,
) -> Result<(Seq<char>, Seq<Seq<char>>), Seq<char>> {
    match provider {
        Some(input) if input.is_for(provider_id) => Ok((input.base_url@, input.keys())),
        _ => match settings.provider(provider_id) {
            Some(found) => Ok((found.base_url@, texts(found.api_keys@))),
            None => Err("Provider not found"@),
        },
    }
}

/// Copies a row of strings.
fn copy_strings(strings: &Vec<String>) -> (result: Vec<String>)
    ensures
        texts(result@) == texts(strings@),
{
    let mut copies: Vec<String> = Vec::new();
    for i in 0..strings.len()
        invariant
            copies@.len() == i,
            forall|j: int| 0 <= j < i ==> (#[trigger] copies@[j])@ == strings@[j]@,
    {
        copies.push(strings[i].clone());
    }
    assert(texts(copies@) =~= texts(strings@));
    copies
}

/// The address and the keys for a connection to a provider.
pub fn resolve_provider_credentials(
    settings: &Settings,
    provider_id: &str,
    provider: Option<ProviderConnectionInput>,
) -> (result: Result<(String, Vec<String>), String>)
    ensures
        match result {
            Ok(found) => credentials(*settings, provider_id@, provider) == Ok::<
                (Seq<char>, Seq<Seq<char>>),
                Seq<char>,
            >((found.0@, texts(found.1@))),
            Err(message) => credentials(*settings, provider_id@, provider) == Err::<
                (Seq<char>, Seq<Seq<char>>),
                Seq<char>,
            >(message@),
        },
{
    if let Some(input) = &provider {
        let meant = match &input.id {
            Some(id) => id.as_str().is_empty() || text::same_text(id, provider_id),
            None => true,
        };
        if meant {
            return Ok((input.base_url.clone(), input.merged_keys()));
        }
    }
    match settings.get_provider(provider_id) {
        Some(found) => Ok((found.base_url.clone(), copy_strings(&found.api_keys))),
        None => Err("Provider not found".to_owned()),
    }
}

/// Trimming a text that was trimmed changes nothing.
proof fn lemma_trim_twice(s: Seq<char>)
    ensures
        text::trim(text::trim(s)) == text::trim(s),
{
    let start = text::lemma_trim_start_shape(s, text::space());
    let body = s.skip(start);
    let end = text::lemma_trim_end_shape(body, text::space());
    let short = body.take(end);
    if end > 0 {
        assert(short[0] == s[start]);
    }
    text::lemma_trim_start(short, text::space(), 0);
    assert(short.skip(0) =~= short);
    text::lemma_trim_end(short, text::space(), end);
    assert(short.take(end) =~= short);
}

proof fn lemma_usable_keys(keys: Seq<Seq<char>>)
    ensures
        forall|i: int|
            0 <= i < usable_keys(keys).len() ==> (#[trigger] usable_keys(keys)[i]).len() > 0
                && text::trim(usable_keys(keys)[i]) == usable_keys(keys)[i],
    decreases keys.len(),
{
    if keys.len() > 0 {
        lemma_usable_keys(keys.drop_last());
        lemma_trim_twice(keys.last());
        let before = usable_keys(keys.drop_last());
        let all = usable_keys(keys);
        assert forall|i: int| 0 <= i < all.len() implies (#[trigger] all[i]).len() > 0
            && text::trim(all[i]) == all[i] by {
            if i < before.len() {
                assert(all[i] == before[i]);
            }
        }
    }
}

/// No usable key of a connection is empty or has white space around it.
pub proof fn law_keys_are_usable(input: ProviderConnectionInput)
    ensures
        forall|i: int|
            0 <= i < input.keys().len() ==> (#[trigger] input.keys()[i]).len() > 0 && text::trim(
                input.keys()[i],
            ) == input.keys()[i],
{
    lemma_usable_keys(texts(input.api_keys@));
    if let Some(key) = input.api_key {
        lemma_usable_keys(seq![key@]);
    }
}

}
