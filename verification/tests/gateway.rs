use chorus::config::{AggregatorConfig, BackendConfig, Config, PanelConfig, Profile, RouterConfig, ServerConfig};
use chorus::error::Error;
use chorus::gateway::{
    completions_url, decode_error, model_ids, profile_name, resolve_profile, stream_event,
    upstream_error, ApiError, StreamEvent,
};
use chorus::pipeline::fusion_alias;
use chorus::schema::{ChatCompletionResponse, ChatMessage, Choice};

fn profile(name: &str) -> Profile {
    Profile {
        name: name.into(),
        router: RouterConfig {
            policy: "always_fuse".into(),
            single_model: "b/s".into(),
            classifier_model: None,
            threshold: 500_000,
        },
        panel: PanelConfig {
            members: vec!["b/a".into()],
            self_moa: false,
            samples: 3,
            min_quorum: 1,
            timeout_ms: 5_000,
        },
        aggregator: AggregatorConfig {
            judge: "b/judge".into(),
            synthesizer: "b/syn".into(),
            anonymize_sources: true,
            normalize_length: true,
            single_source_cap: true,
            layers: 1,
            max_reference_chars: 8_000,
        },
        tools: vec![],
    }
}

fn config() -> Config {
    Config {
        server: ServerConfig { bind: "127.0.0.1:0".into(), max_concurrent_requests: 8 },
        backend: BackendConfig {
            base_url: "http://b/v1".into(),
            api_key_env: "UNUSED".into(),
            timeout_ms: 5_000,
        },
        profiles: vec![profile("research"), profile("code")],
    }
}

#[test]
fn profile_name_strips_the_fusion_prefix() {
    assert_eq!(profile_name("fusion/research").unwrap(), "research");
    assert_eq!(profile_name("fusion/").unwrap(), "");
    assert!(matches!(profile_name("gpt-4"), Err(Error::InvalidModel(m)) if m == "gpt-4"));
}

#[test]
fn resolve_profile_finds_or_reports() {
    let c = config();
    assert_eq!(resolve_profile(&c, "fusion/code").unwrap().name, "code");
    assert!(matches!(
        resolve_profile(&c, "fusion/nope"),
        Err(Error::UnknownProfile(n)) if n == "nope"
    ));
    assert!(matches!(resolve_profile(&c, "research"), Err(Error::InvalidModel(_))));
}

#[test]
fn advertised_models_resolve_back() {
    let c = config();
    let ids = model_ids(&c);
    assert_eq!(ids, vec!["fusion/research", "fusion/code"]);
    for (id, p) in ids.iter().zip(&c.profiles) {
        assert_eq!(resolve_profile(&c, id).unwrap().name, p.name);
    }
    assert_eq!(fusion_alias("x"), "fusion/x");
}

#[test]
fn api_errors_map_to_openai_statuses() {
    let cases = [
        (Error::UnknownProfile("p".into()), 404, "invalid_request_error"),
        (Error::InvalidModel("m".into()), 404, "invalid_request_error"),
        (Error::Config("c".into()), 400, "invalid_request_error"),
        (Error::Quorum { got: 0, needed: 1 }, 502, "upstream_error"),
        (Error::Backend("b".into()), 502, "upstream_error"),
        (Error::Synthesis("s".into()), 502, "upstream_error"),
        (Error::Timeout, 504, "timeout"),
    ];
    for (e, status, kind) in cases {
        let api = ApiError(e);
        assert_eq!(api.status(), status);
        assert_eq!(api.kind(), kind);
    }
    assert_eq!(ApiError(Error::Timeout).message(), "backend timed out");
}

#[test]
fn completions_url_trims_trailing_slashes() {
    assert_eq!(completions_url("http://localhost:8000/v1"), "http://localhost:8000/v1/chat/completions");
    assert_eq!(completions_url("http://localhost:8000/v1//"), "http://localhost:8000/v1/chat/completions");
    assert_eq!(completions_url(""), "/chat/completions");
}

#[test]
fn upstream_failures_become_backend_errors() {
    assert!(matches!(
        upstream_error("429 Too Many Requests", "rate limited"),
        Error::Backend(m) if m == "upstream 429 Too Many Requests: rate limited"
    ));
    assert!(matches!(decode_error("eof"), Error::Backend(m) if m == "decode: eof"));
}

#[test]
fn stream_event_carries_answer_or_error() {
    let resp = ChatCompletionResponse {
        id: "x".into(),
        object: "chat.completion".into(),
        created: 7,
        model: "b/syn".into(),
        choices: vec![Choice {
            index: 0,
            message: ChatMessage { role: "assistant".into(), content: "FUSED".into() },
            finish_reason: Some("stop".into()),
        }],
        usage: None,
    };
    match stream_event("fusion/research", &Ok(resp)) {
        StreamEvent::Chunk { id, created, model, content } => {
            assert_eq!((id.as_str(), created, model.as_str(), content.as_str()), ("x", 7, "fusion/research", "FUSED"));
        }
        other => panic!("expected a chunk, got {other:?}"),
    }
    match stream_event("fusion/research", &Err(Error::Timeout)) {
        StreamEvent::Failure { message } => assert_eq!(message, "backend timed out"),
        other => panic!("expected a failure, got {other:?}"),
    }
}
