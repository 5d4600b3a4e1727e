use chorus::error::Error;
use chorus::schema::{ChatCompletionRequest, ChatCompletionResponse, ChatMessage, Choice, Usage};
use chorus::usage::UsageAccumulator;
use serde_json::Value;

fn message_from(v: &Value) -> ChatMessage {
    ChatMessage {
        role: v["role"].as_str().unwrap().to_string(),
        content: v["content"].as_str().unwrap().to_string(),
    }
}

/// Reads a request the way the wire format defines it: `stream` defaults to false.
fn request_from(json: &str) -> ChatCompletionRequest {
    let v: Value = serde_json::from_str(json).unwrap();
    ChatCompletionRequest {
        model: v["model"].as_str().unwrap().to_string(),
        messages: v["messages"].as_array().unwrap().iter().map(message_from).collect(),
        stream: v.get("stream").and_then(Value::as_bool).unwrap_or(false),
        temperature: None,
        max_tokens: None,
    }
}

fn response_from(json: &str) -> ChatCompletionResponse {
    let v: Value = serde_json::from_str(json).unwrap();
    let usage = v.get("usage").map(|u| Usage {
        prompt_tokens: u["prompt_tokens"].as_u64().unwrap() as u32,
        completion_tokens: u["completion_tokens"].as_u64().unwrap() as u32,
        total_tokens: u["total_tokens"].as_u64().unwrap() as u32,
    });
    ChatCompletionResponse {
        id: v["id"].as_str().unwrap().to_string(),
        object: v["object"].as_str().unwrap().to_string(),
        created: v["created"].as_u64().unwrap(),
        model: v["model"].as_str().unwrap().to_string(),
        choices: v["choices"]
            .as_array()
            .unwrap()
            .iter()
            .map(|c| Choice {
                index: c["index"].as_u64().unwrap() as u32,
                message: message_from(&c["message"]),
                finish_reason: c["finish_reason"].as_str().map(str::to_string),
            })
            .collect(),
        usage,
    }
}

#[test]
fn request_defaults_stream_false() {
    let json = r#"{"model":"m","messages":[{"role":"user","content":"hi"}]}"#;
    let req = request_from(json);
    assert!(!req.stream);
    assert_eq!(req.last_user_text(), "hi");
}

#[test]
fn response_roundtrips_and_reads_first_content() {
    let json = r#"{"id":"a","object":"chat.completion","created":1,"model":"m",
        "choices":[{"index":0,"message":{"role":"assistant","content":"yo"},"finish_reason":"stop"}],
        "usage":{"prompt_tokens":3,"completion_tokens":1,"total_tokens":4}}"#;
    let resp = response_from(json);
    assert_eq!(resp.first_content(), "yo");
    assert_eq!(resp.usage.unwrap().total_tokens, 4);
}

#[test]
fn last_user_text_takes_the_last_user_message() {
    let req = ChatCompletionRequest {
        model: "m".into(),
        messages: vec![
            ChatMessage::system("sys"),
            ChatMessage::user("first"),
            ChatMessage { role: "assistant".into(), content: "a".into() },
            ChatMessage::user("second"),
            ChatMessage { role: "assistant".into(), content: "b".into() },
        ],
        stream: false,
        temperature: None,
        max_tokens: None,
    };
    assert_eq!(req.last_user_text(), "second");
    let none = ChatCompletionRequest { messages: vec![ChatMessage::system("s")], ..req };
    assert_eq!(none.last_user_text(), "");
}

#[test]
fn first_content_of_no_choices_is_empty() {
    let resp = ChatCompletionResponse {
        id: "x".into(),
        object: "chat.completion".into(),
        created: 1,
        model: "m".into(),
        choices: vec![],
        usage: None,
    };
    assert_eq!(resp.first_content(), "");
}

#[test]
fn message_constructors_set_roles() {
    assert_eq!(ChatMessage::system("s").role, "system");
    assert_eq!(ChatMessage::user("u").role, "user");
    assert_eq!(ChatMessage::user("u").content, "u");
}

#[test]
fn quorum_error_renders_counts() {
    let e = Error::Quorum { got: 1, needed: 2 };
    assert_eq!(e.message(), "quorum not met: 1 of 2 panel members returned");
}

#[test]
fn error_messages_render_every_variant() {
    assert_eq!(Error::Backend("x".into()).message(), "backend request failed: x");
    assert_eq!(Error::Timeout.message(), "backend timed out");
    assert_eq!(Error::Synthesis("y".into()).message(), "synthesis failed: y");
    assert_eq!(Error::UnknownProfile("p".into()).message(), "unknown profile: p");
    assert_eq!(Error::InvalidModel("m".into()).message(), "invalid model alias: m");
    assert_eq!(Error::Config("c".into()).message(), "config error: c");
    assert_eq!(
        Error::Quorum { got: 10, needed: 123 }.message(),
        "quorum not met: 10 of 123 panel members returned"
    );
}

#[test]
fn sums_present_skips_absent() {
    let mut acc = UsageAccumulator::default();
    acc.add(Some(&Usage {
        prompt_tokens: 1,
        completion_tokens: 2,
        total_tokens: 3,
    }));
    acc.add(None);
    acc.add(Some(&Usage {
        prompt_tokens: 4,
        completion_tokens: 5,
        total_tokens: 9,
    }));
    let u = acc.into_usage();
    assert_eq!(
        u,
        Usage {
            prompt_tokens: 5,
            completion_tokens: 7,
            total_tokens: 12
        }
    );
}

#[test]
fn usage_order_does_not_matter() {
    let a = Usage { prompt_tokens: 1, completion_tokens: 2, total_tokens: 3 };
    let b = Usage { prompt_tokens: 10, completion_tokens: 20, total_tokens: 30 };
    let mut x = UsageAccumulator::default();
    x.add(Some(&a));
    x.add(Some(&b));
    let mut y = UsageAccumulator::default();
    y.add(Some(&b));
    y.add(Some(&a));
    assert_eq!(x.into_usage(), y.into_usage());
}
