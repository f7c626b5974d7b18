use bhumi::base_llm::BaseLLM;
use bhumi::config::BaseLLMConfig;
use bhumi::engine::{prepare_envelope, Dispatcher, PrepareError};
use bhumi::json::lookup;
use bhumi::stream::CompletionAccumulator;
use bhumi::Json;

#[test]
fn first_parseable_prefix_wins_and_later_bytes_are_discarded() {
    let mut acc = CompletionAccumulator::new();
    let first = acc.feed(&b"{\"choices\":[{\"message\":".to_vec());
    assert_eq!(first, None);
    let second = acc.feed(&b"{\"content\":\"done\"}}]}".to_vec());
    assert_eq!(
        second,
        Some("{\"choices\":[{\"message\":{\"content\":\"done\"}}]}".to_string())
    );
    // the third chunk arrives after acceptance: it is discarded
    let third = acc.feed(&b"{\"more\": true}".to_vec());
    assert_eq!(third, None);
}

#[test]
fn accepted_body_reaches_the_response_channel() {
    let mut acc = CompletionAccumulator::new();
    let mut d = Dispatcher::new();
    assert!(acc.feed(&b"{\"ok\"".to_vec()).is_none());
    let body = acc.feed(&b":true}".to_vec()).unwrap();
    assert!(d.publish_response(body));
    assert_eq!(d.get_response(), Some("{\"ok\":true}".to_string()));
    assert_eq!(d.get_response(), None);
}

#[test]
fn a_prefix_that_parses_on_its_own_truncates_the_body() {
    // a numeral is a complete JSON document, so a body sent as "42" then
    // "000" is accepted at the first chunk boundary — the engine's
    // long-standing early-accept behavior, preserved deliberately
    let mut acc = CompletionAccumulator::new();
    assert_eq!(acc.feed(&b"42".to_vec()), Some("42".to_string()));
    assert_eq!(acc.feed(&b"000".to_vec()), None);
}

#[test]
fn invalid_utf8_prefix_is_not_accepted() {
    let mut acc = CompletionAccumulator::new();
    // a split multi-byte character: bytes so far are not UTF-8, not JSON
    assert_eq!(acc.feed(&vec![b'"', 0xc3]), None);
    assert_eq!(acc.feed(&vec![0xa9, b'"']), Some("\"\u{e9}\"".to_string()));
}

#[test]
fn completion_text_is_read_from_the_content_path() {
    let llm = BaseLLM::new(BaseLLMConfig::default());
    let body = "{\"choices\":[{\"message\":{\"content\":\"whole answer\"}}]}";
    assert_eq!(llm.process_completion_response(body), Some("whole answer".to_string()));
    assert_eq!(llm.process_completion_response("{\"choices\":[]}"), None);
    assert_eq!(llm.process_completion_response("not json"), None);
}

#[test]
fn envelope_with_authorization_header_is_prepared() {
    let envelope = "{\"_headers\":{\"Authorization\":\"SECRET-REDACTED\"},\"stream\":true,\"model\":\"m\"}";
    let p = prepare_envelope(envelope, "openai", "https://api.example.test").unwrap();
    assert_eq!(p.api_key, "SECRET-REDACTED");
    assert!(p.stream);
    assert_eq!(p.url, "https://api.example.test/chat/completions");
    match &p.body {
        Json::Object(fields) => {
            assert!(lookup(fields, &"_headers".to_string()).is_none());
            assert!(lookup(fields, &"model".to_string()).is_some());
        }
        _ => panic!("body must stay an object"),
    }
}

#[test]
fn anthropic_reads_x_api_key() {
    let envelope = "{\"_headers\":{\"x-api-key\":\"SECRET-REDACTED\"}}";
    let p = prepare_envelope(envelope, "anthropic", "").unwrap();
    assert_eq!(p.api_key, "SECRET-REDACTED");
    assert!(!p.stream);
    assert_eq!(p.url, "/chat/completions");
    // the same envelope under another provider misses Authorization
    let err = prepare_envelope(envelope, "openai", "").unwrap_err();
    assert_eq!(err, PrepareError::MissingCredential);
}

#[test]
fn malformed_and_credential_less_envelopes_are_told_apart() {
    assert_eq!(
        prepare_envelope("{not json", "openai", "").unwrap_err(),
        PrepareError::MalformedJson
    );
    assert_eq!(
        prepare_envelope("{\"stream\":false}", "openai", "").unwrap_err(),
        PrepareError::MissingCredential
    );
    assert_eq!(
        prepare_envelope("[1,2]", "openai", "").unwrap_err(),
        PrepareError::MissingCredential
    );
    // a non-text credential value is as good as absent
    assert_eq!(
        prepare_envelope("{\"_headers\":{\"Authorization\":7}}", "openai", "").unwrap_err(),
        PrepareError::MissingCredential
    );
}

#[test]
fn non_boolean_stream_flag_means_false() {
    let envelope = "{\"_headers\":{\"Authorization\":\"k\"},\"stream\":\"yes\"}";
    let p = prepare_envelope(envelope, "openai", "").unwrap();
    assert!(!p.stream);
}
