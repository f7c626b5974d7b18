use bhumi::base_llm::BaseLLM;
use bhumi::config::BaseLLMConfig;
use bhumi::engine::{build_envelope, prepare_envelope, Dispatcher};
use bhumi::json::{lookup, navigate};
use bhumi::{Json, Seg};

#[test]
fn request_url_joins_base_and_path() {
    let llm = BaseLLM::new(BaseLLMConfig::default());
    assert_eq!(llm.request_url(), "https://api.openai.com/v1/chat/completions");
}

#[test]
fn auth_header_splits_name_and_prefix() {
    let llm = BaseLLM::new(BaseLLMConfig::default());
    let (name, value) = llm.auth_header("SECRET-REDACTED").unwrap();
    assert_eq!(name, "Authorization");
    assert_eq!(value, "Bearer SECRET-REDACTED");
}

#[test]
fn auth_header_without_separator_is_refused() {
    let mut config = BaseLLMConfig::default();
    config.api_key_header = "x-api-key".to_string();
    let llm = BaseLLM::new(config);
    assert!(llm.auth_header("k").is_none());
}

#[test]
fn auth_header_with_empty_prefix() {
    let mut config = BaseLLMConfig::default();
    config.api_key_header = "x-api-key: ".to_string();
    let llm = BaseLLM::new(config);
    let (name, value) = llm.auth_header("k").unwrap();
    assert_eq!(name, "x-api-key");
    assert_eq!(value, " k");
}

#[test]
fn replayed_response_pushes_data_payloads_verbatim() {
    let mut d = Dispatcher::new();
    let body = "data: one\nevent: ping\n\ndata: [DONE]\n";
    d.process_stream_response(body);
    assert_eq!(d.get_stream_chunk(), Some("one".to_string()));
    assert_eq!(d.get_stream_chunk(), Some("[DONE]".to_string()));
    assert_eq!(d.get_stream_chunk(), None);
}

#[test]
fn built_envelope_round_trips_through_preparation() {
    let messages = vec![
        ("user".to_string(), "hello".to_string()),
        ("assistant".to_string(), "hi".to_string()),
    ];
    let envelope = build_envelope(&messages, "SECRET-REDACTED");
    match &envelope {
        Json::Object(fields) => {
            assert!(lookup(fields, &"_headers".to_string()).is_some());
            let msgs = lookup(fields, &"messages".to_string()).unwrap();
            match msgs {
                Json::Array(items) => assert_eq!(items.len(), 2),
                _ => panic!("messages must be an array"),
            }
        }
        _ => panic!("the envelope must be an object"),
    }
    let role = navigate(&envelope, &vec![
        Seg::Key("messages".to_string()),
        Seg::Index(1),
        Seg::Key("role".to_string()),
    ]);
    assert!(matches!(role, Some(Json::Text(t)) if t == "assistant"));
    let key = navigate(&envelope, &vec![
        Seg::Key("_headers".to_string()),
        Seg::Key("Authorization".to_string()),
    ]);
    assert!(matches!(key, Some(Json::Text(t)) if t == "SECRET-REDACTED"));
}

#[test]
fn prepared_request_carries_the_built_credential() {
    // the envelope the convenience wrapper builds, written as its wire text
    let envelope = "{\"_headers\":{\"Authorization\":\"k1\"},\"messages\":[{\"role\":\"user\",\"content\":\"q\"}]}";
    let p = prepare_envelope(envelope, "openai", "http://host").unwrap();
    assert_eq!(p.api_key, "k1");
    assert_eq!(p.url, "http://host/chat/completions");
    assert!(!p.stream);
}
