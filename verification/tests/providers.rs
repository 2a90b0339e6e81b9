use kivio_core::endpoint::{
    chat_completions_url, models_url_from_provider_url, normalized_provider_url,
    provider_endpoint_kind, responses_api_url, ModelEndpointKind,
};
use kivio_core::provider::{
    effective_retry_attempts, resolve_provider_credentials, ModelProvider,
    ProviderConnectionInput, Settings,
};

fn settings() -> Settings {
    Settings {
        providers: vec![
            ModelProvider {
                id: "a".to_string(),
                base_url: "https://a".to_string(),
                api_keys: vec![" k1 ".to_string(), "".to_string()],
            },
            ModelProvider {
                id: "a".to_string(),
                base_url: "https://second".to_string(),
                api_keys: vec![],
            },
        ],
        retry_enabled: true,
        retry_attempts: 4,
        translator_provider_id: "a".to_string(),
        translator_model: "m".to_string(),
    }
}

fn input(id: Option<&str>, keys: &[&str], key: Option<&str>) -> ProviderConnectionInput {
    ProviderConnectionInput {
        id: id.map(|s| s.to_string()),
        base_url: "https://given".to_string(),
        api_keys: keys.iter().map(|s| s.to_string()).collect(),
        api_key: key.map(|s| s.to_string()),
    }
}

#[test]
fn addresses_are_derived() {
    assert_eq!(normalized_provider_url("  https://h/v1// "), "https://h/v1");
    assert_eq!(provider_endpoint_kind("https://h/v1/Responses/"), ModelEndpointKind::Responses);
    assert_eq!(
        provider_endpoint_kind("https://h/v1/chat/COMPLETIONS"),
        ModelEndpointKind::ChatCompletions
    );
    assert_eq!(provider_endpoint_kind("https://h/v1"), ModelEndpointKind::LegacyBase);
    assert_eq!(chat_completions_url("https://h/v1/"), "https://h/v1/chat/completions");
    assert_eq!(
        chat_completions_url("https://h/v1/chat/completions/"),
        "https://h/v1/chat/completions"
    );
    assert_eq!(
        chat_completions_url("https://h/v1/responses"),
        "https://h/v1/responses/chat/completions"
    );
    assert_eq!(responses_api_url("https://h/v1"), "https://h/v1/responses");
    assert_eq!(responses_api_url("https://h/v1/responses/"), "https://h/v1/responses");
    assert_eq!(models_url_from_provider_url("https://h/v1"), "https://h/v1/models");
    assert_eq!(
        models_url_from_provider_url("https://h/v1/chat/completions"),
        "https://h/v1/models"
    );
    assert_eq!(models_url_from_provider_url("https://h/v1/responses/ "), "https://h/v1/models");
    assert_eq!(models_url_from_provider_url(""), "/models");
}

#[test]
fn keys_are_merged() {
    assert_eq!(input(None, &[" a ", "", "b"], Some("c")).merged_keys(), vec!["a", "b"]);
    assert_eq!(input(None, &[" ", ""], Some(" c ")).merged_keys(), vec!["c"]);
    assert!(input(None, &[], Some("  ")).merged_keys().is_empty());
    assert!(input(None, &[], None).merged_keys().is_empty());
}

#[test]
fn credentials_come_from_the_connection_meant_for_the_provider() {
    let found = resolve_provider_credentials(&settings(), "a", Some(input(None, &["x"], None)));
    assert_eq!(found, Ok(("https://given".to_string(), vec!["x".to_string()])));
    let found = resolve_provider_credentials(&settings(), "a", Some(input(Some(""), &["x"], None)));
    assert_eq!(found, Ok(("https://given".to_string(), vec!["x".to_string()])));
    let found =
        resolve_provider_credentials(&settings(), "zz", Some(input(Some("zz"), &[], None)));
    assert_eq!(found, Ok(("https://given".to_string(), vec![])));
}

#[test]
fn credentials_come_from_the_settings_else() {
    let found = resolve_provider_credentials(&settings(), "a", Some(input(Some("b"), &["x"], None)));
    assert_eq!(
        found,
        Ok(("https://a".to_string(), vec![" k1 ".to_string(), "".to_string()]))
    );
    let found = resolve_provider_credentials(&settings(), "c", None);
    assert_eq!(found, Err("Provider not found".to_string()));
}

#[test]
fn retrying_can_be_switched_off() {
    let mut some = settings();
    assert_eq!(effective_retry_attempts(&some), 4);
    some.retry_attempts = 0;
    assert_eq!(effective_retry_attempts(&some), 0);
    some.retry_enabled = false;
    some.retry_attempts = 9;
    assert_eq!(effective_retry_attempts(&some), 1);
}

#[test]
fn derived_addresses_are_stable() {
    for url in ["https://h/v1", " https://h/v1// ", "https://h/Chat/Completions", "/responses", ""] {
        let chat = chat_completions_url(url);
        assert_eq!(chat_completions_url(&chat), chat);
        assert_eq!(provider_endpoint_kind(&chat), ModelEndpointKind::ChatCompletions);
        let responses = responses_api_url(url);
        assert_eq!(responses_api_url(&responses), responses);
        assert_eq!(provider_endpoint_kind(&responses), ModelEndpointKind::Responses);
    }
    let base = models_url_from_provider_url("https://h/v1");
    assert_eq!(models_url_from_provider_url(&chat_completions_url("https://h/v1")), base);
    assert_eq!(models_url_from_provider_url(&responses_api_url("https://h/v1")), base);
    let odd = chat_completions_url("x/chat/completions /");
    assert_ne!(chat_completions_url(&odd), odd);
}
