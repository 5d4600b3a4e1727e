use std::cell::{Cell, RefCell};

use chorus::config::{AggregatorConfig, PanelConfig, Profile, RouterConfig};
use chorus::error::Error;
use chorus::judge::{judge_outcome, judge_request};
use chorus::panel::{collect_panel, member_calls, member_requests};
use chorus::pipeline::{degraded_from_panel, Action, Event, Pipeline};
use chorus::router::{AlwaysFuse, ClassifierRouter, RouteDecision};
use chorus::schema::{ChatCompletionRequest, ChatCompletionResponse, ChatMessage, Choice, Usage};
use chorus::synthesis::synthesis_request;

fn resp(model: &str, content: &str, tokens: u32) -> ChatCompletionResponse {
    ChatCompletionResponse {
        id: "x".into(),
        object: "chat.completion".into(),
        created: 1,
        model: model.into(),
        choices: vec![Choice {
            index: 0,
            message: ChatMessage {
                role: "assistant".into(),
                content: content.into(),
            },
            finish_reason: Some("stop".into()),
        }],
        usage: Some(Usage {
            prompt_tokens: tokens,
            completion_tokens: tokens,
            total_tokens: tokens * 2,
        }),
    }
}

fn profile() -> Profile {
    Profile {
        name: "research".into(),
        router: RouterConfig {
            policy: "always_fuse".into(),
            single_model: "b/single".into(),
            classifier_model: None,
            threshold: 500_000,
        },
        panel: PanelConfig {
            members: vec!["b/a".into(), "b/b".into(), "b/c".into()],
            self_moa: false,
            samples: 3,
            min_quorum: 2,
            timeout_ms: 1_000,
        },
        aggregator: agg(),
        tools: vec![],
    }
}

fn agg() -> AggregatorConfig {
    AggregatorConfig {
        judge: "b/judge".into(),
        synthesizer: "b/syn".into(),
        anonymize_sources: true,
        normalize_length: true,
        single_source_cap: true,
        layers: 1,
        max_reference_chars: 8_000,
    }
}

fn req() -> ChatCompletionRequest {
    ChatCompletionRequest {
        model: "fusion/research".into(),
        messages: vec![ChatMessage::user("what is X")],
        stream: false,
        temperature: None,
        max_tokens: None,
    }
}

/// Runs one request to the end, answering every backend call with `backend`
/// (a panel member that errors counts as dropped).
fn drive(
    profile: Profile,
    request: ChatCompletionRequest,
    backend: &dyn Fn(&ChatCompletionRequest) -> Result<ChatCompletionResponse, Error>,
) -> (Result<ChatCompletionResponse, Error>, Pipeline) {
    let mut p = Pipeline::new(profile, request);
    let mut event = Event::Begin;
    loop {
        assert!(p.accepts(&event));
        match p.run(event) {
            Action::Call(r) => event = Event::Reply(backend(&r)),
            Action::FanOut { requests, .. } => {
                event = Event::Panel(requests.iter().map(|r| backend(r).ok()).collect())
            }
            Action::Finish(r) => return (r, p),
        }
    }
}

fn scripted(req: &ChatCompletionRequest) -> Result<ChatCompletionResponse, Error> {
    let content = match req.model.as_str() {
        "b/syn" => "FINAL ANSWER",
        "b/judge" => "Consensus: ...",
        other => return Ok(resp(other, &format!("panel:{other}"), 1)),
    };
    Ok(resp(&req.model, content, 1))
}

#[test]
fn full_pipeline_returns_synthesized_answer_with_aggregated_usage() {
    let (out, p) = drive(profile(), req(), &scripted);
    let out = out.unwrap();
    assert_eq!(out.first_content(), "FINAL ANSWER");
    assert_eq!(out.model, "fusion/research");
    // 3 panel + 1 judge + 1 synth = 5 calls, each total_tokens 2 => 10.
    assert_eq!(out.usage.unwrap().total_tokens, 10);
    assert_eq!(p.route(), Some(RouteDecision::Fuse));
}

#[test]
fn degrades_when_judge_fails() {
    let backend = |req: &ChatCompletionRequest| match req.model.as_str() {
        "b/judge" => Err(Error::Backend("judge down".into())),
        "b/syn" => Ok(resp(&req.model, "FINAL DESPITE NO JUDGE", 1)),
        other => Ok(resp(other, "panel", 1)),
    };
    let (out, _) = drive(profile(), req(), &backend);
    assert_eq!(out.unwrap().first_content(), "FINAL DESPITE NO JUDGE");
}

#[test]
fn degrades_to_panel_answer_when_synthesis_fails() {
    // A flaky synthesizer must not fail the whole fusion: the pipeline falls
    // back to the strongest panel answer instead.
    let backend = |req: &ChatCompletionRequest| match req.model.as_str() {
        "b/judge" => Ok(resp(&req.model, "Consensus: ...", 1)),
        "b/syn" => Err(Error::Backend("decode: error decoding response body".into())),
        other => Ok(resp(other, &format!("panel:{other}"), 1)),
    };
    let (out, _) = drive(profile(), req(), &backend);
    let out = out.expect("synthesis failure should degrade, not error");
    assert!(
        out.first_content().starts_with("panel:"),
        "expected a panel answer, got {:?}",
        out.first_content()
    );
    assert_eq!(out.model, "fusion/research");
    // Panel (3) + judge (1) calls are still accounted; the degraded answer
    // carries no synthesizer usage of its own.
    assert_eq!(out.usage.unwrap().total_tokens, 8);
}

#[test]
fn classifier_easy_query_routes_to_single_model() {
    let backend = |req: &ChatCompletionRequest| {
        let content = match req.model.as_str() {
            "b/cheap" => "0.1", // low difficulty => Single
            "b/single" => "SINGLE ANSWER",
            other => return Ok(resp(other, "panel", 1)),
        };
        Ok(resp(&req.model, content, 1))
    };
    let mut p = profile();
    p.router.policy = "classifier".into();
    p.router.classifier_model = Some("b/cheap".into());
    p.router.single_model = "b/single".into();
    p.router.threshold = 500_000;
    let (out, pipe) = drive(p, req(), &backend);
    assert_eq!(out.unwrap().first_content(), "SINGLE ANSWER");
    assert_eq!(pipe.route(), Some(RouteDecision::Single));
}

#[test]
fn classifier_failure_fails_open_to_fusion() {
    let backend = |req: &ChatCompletionRequest| match req.model.as_str() {
        "b/cheap" => Err(Error::Timeout),
        other => scripted(&ChatCompletionRequest { model: other.into(), ..req.clone() }),
    };
    let mut p = profile();
    p.router.policy = "classifier".into();
    p.router.classifier_model = Some("b/cheap".into());
    let (out, pipe) = drive(p, req(), &backend);
    assert_eq!(out.unwrap().first_content(), "FINAL ANSWER");
    assert_eq!(pipe.route(), Some(RouteDecision::Fuse));
}

#[test]
fn run_synthesis_retries_once_on_transient_error() {
    let calls = Cell::new(0);
    let backend = |req: &ChatCompletionRequest| match req.model.as_str() {
        "b/syn" => {
            calls.set(calls.get() + 1);
            if calls.get() == 1 {
                Err(Error::Backend("decode: error decoding response body".into()))
            } else {
                let mut r = resp(&req.model, "SYNTH", 1);
                r.usage = None;
                Ok(r)
            }
        }
        _ => scripted(req),
    };
    let (out, _) = drive(profile(), req(), &backend);
    let out = out.expect("retry should recover the transient failure");
    assert_eq!(out.first_content(), "SYNTH");
    // One failed call plus one successful retry.
    assert_eq!(calls.get(), 2);
}

#[test]
fn run_synthesis_surfaces_synthesis_error_after_retry_exhausted() {
    // Blank panel answers leave nothing to degrade to.
    let backend = |req: &ChatCompletionRequest| match req.model.as_str() {
        "b/syn" => Err(Error::Backend("decode: error decoding response body".into())),
        "b/judge" => Ok(resp(&req.model, "Consensus: ...", 1)),
        other => Ok(resp(other, "  \n", 1)),
    };
    let (out, _) = drive(profile(), req(), &backend);
    match out {
        Err(Error::Synthesis(m)) => {
            assert_eq!(m, "backend request failed: decode: error decoding response body")
        }
        other => panic!("expected a synthesis error, got {other:?}"),
    }
}

#[test]
fn synthesizer_is_called_at_most_twice() {
    let calls = Cell::new(0);
    let backend = |req: &ChatCompletionRequest| match req.model.as_str() {
        "b/syn" => {
            calls.set(calls.get() + 1);
            Err(Error::Timeout)
        }
        _ => scripted(req),
    };
    let (out, pipe) = drive(profile(), req(), &backend);
    assert!(out.is_ok());
    assert_eq!(calls.get(), 2);
    assert_eq!(pipe.route(), Some(RouteDecision::Fuse));
}

#[test]
fn all_members_succeed() {
    let base = req();
    let cfg = profile().panel;
    let results = member_requests(&base, &cfg)
        .iter()
        .map(|r| scripted(r).ok())
        .collect();
    let out = collect_panel(results, 2).unwrap();
    assert_eq!(out.responses.len(), 3);
    assert_eq!(out.usage.total_tokens, 6);
}

#[test]
fn proceeds_at_quorum_with_partial_failure() {
    let seen = Cell::new(0);
    let results = member_requests(&req(), &profile().panel)
        .iter()
        .map(|r| {
            seen.set(seen.get() + 1);
            if seen.get() <= 1 {
                None
            } else {
                scripted(r).ok()
            }
        })
        .collect();
    let out = collect_panel(results, 2).unwrap();
    assert_eq!(out.responses.len(), 2);
}

#[test]
fn fails_below_quorum() {
    let seen = Cell::new(0);
    let results = member_requests(&req(), &profile().panel)
        .iter()
        .map(|r| {
            seen.set(seen.get() + 1);
            if seen.get() <= 2 {
                None
            } else {
                scripted(r).ok()
            }
        })
        .collect();
    let err = collect_panel(results, 2).unwrap_err();
    assert!(matches!(err, Error::Quorum { got: 1, needed: 2 }));
}

#[test]
fn self_moa_samples_one_model() {
    let mut cfg = profile().panel;
    cfg.members = vec!["only".into()];
    cfg.self_moa = true;
    cfg.min_quorum = 1;
    let requests = member_requests(&req(), &cfg);
    assert_eq!(requests.len(), 3); // samples, not members
    let temps: Vec<Option<i64>> = requests.iter().map(|r| r.temperature).collect();
    assert_eq!(temps, vec![Some(300_000), Some(500_000), Some(700_000)]);
    let results = requests
        .iter()
        .map(|r| Some(resp(&r.model, &format!("answer-from-{}", r.model), 1)))
        .collect();
    let out = collect_panel(results, 1).unwrap();
    assert_eq!(out.responses.len(), 3);
    assert!(out.responses.iter().all(|r| r == "answer-from-only"));
}

#[test]
fn self_moa_temperature_is_capped_at_two() {
    let mut cfg = profile().panel;
    cfg.self_moa = true;
    cfg.samples = 12;
    let calls = member_calls(&cfg);
    assert_eq!(calls.len(), 12);
    assert!(calls.iter().all(|(m, _)| m == "b/a"));
    let requests = member_requests(&req(), &cfg);
    assert_eq!(requests[8].temperature, Some(1_900_000));
    assert_eq!(requests[9].temperature, Some(2_000_000));
    assert_eq!(requests[11].temperature, Some(2_000_000));
    assert!(requests.iter().all(|r| !r.stream));
}

#[test]
fn panel_requests_keep_caller_settings() {
    let mut base = req();
    base.stream = true;
    base.temperature = Some(700_000);
    base.max_tokens = Some(64);
    let requests = member_requests(&base, &profile().panel);
    let models: Vec<&str> = requests.iter().map(|r| r.model.as_str()).collect();
    assert_eq!(models, vec!["b/a", "b/b", "b/c"]);
    for r in &requests {
        assert!(!r.stream);
        assert_eq!(r.temperature, Some(700_000));
        assert_eq!(r.max_tokens, Some(64));
        assert_eq!(r.messages[0].content, "what is X");
    }
}

#[test]
fn judge_uses_judge_model_and_returns_analysis() {
    let last_model = RefCell::new(String::new());
    let request = judge_request(&agg(), "q", &["a".to_string(), "b".to_string()]);
    *last_model.borrow_mut() = request.model.clone();
    let mut reply = resp(&request.model, "Consensus: ...", 2);
    reply.usage = Some(Usage { prompt_tokens: 2, completion_tokens: 2, total_tokens: 4 });
    let out = judge_outcome(&reply);
    assert_eq!(out.analysis, "Consensus: ...");
    assert_eq!(*last_model.borrow(), "b/judge");
    assert_eq!(out.usage.unwrap().total_tokens, 4);
    assert_eq!(request.temperature, Some(0));
    assert!(request.messages[1].content.contains("Response A:\na\n\nResponse B:\nb"));
}

#[test]
fn synthesis_request_targets_synthesizer_and_sets_stream() {
    let req = synthesis_request(&agg(), "q", &["a".to_string()], "analysis", true, None);
    assert_eq!(req.model, "b/syn");
    assert!(req.stream);
    assert_eq!(req.messages.len(), 2);
    assert_eq!(req.max_tokens, None);
}

#[test]
fn synthesis_request_forwards_max_tokens() {
    let req = synthesis_request(&agg(), "q", &["a".to_string()], "analysis", false, Some(512));
    assert_eq!(req.max_tokens, Some(512));
    assert_eq!(req.temperature, Some(300_000));
}

#[test]
fn always_fuse_fuses() {
    let r = AlwaysFuse;
    let req = ChatCompletionRequest {
        model: "fusion/research".into(),
        messages: vec![ChatMessage::user("hi")],
        stream: false,
        temperature: None,
        max_tokens: None,
    };
    assert_eq!(r.decide(&req), RouteDecision::Fuse);
}

#[test]
fn classifier_decides_on_the_threshold() {
    let router = ClassifierRouter::new("b/cheap".into(), 500_000);
    let score = |text: &str| router.decide(&Ok(resp("b/cheap", text, 1)));
    assert_eq!(score("0.1"), RouteDecision::Single);
    assert_eq!(score("0.499999"), RouteDecision::Single);
    assert_eq!(score("0.5"), RouteDecision::Fuse);
    assert_eq!(score("0.9"), RouteDecision::Fuse);
    assert_eq!(score("no idea"), RouteDecision::Fuse);
    assert_eq!(router.decide(&Err(Error::Timeout)), RouteDecision::Fuse);
    let scoring = router.scoring_request(&req());
    assert_eq!(scoring.model, "b/cheap");
    assert_eq!(scoring.temperature, Some(0));
    assert_eq!(scoring.messages[1].content, "Query:\nwhat is X");
}

#[test]
fn degraded_answer_is_the_longest_non_blank_one() {
    let answers = vec![
        "short".to_string(),
        "   ".to_string(),
        "longer one".to_string(),
        "equal size".to_string(),
    ];
    let d = degraded_from_panel(&answers).unwrap();
    // a tie on length goes to the later answer
    assert_eq!(d.first_content(), "equal size");
    assert_eq!(d.id, "chorus-degraded");
    assert_eq!(d.model, "");
    assert!(d.usage.is_none());
    assert!(degraded_from_panel(&["".to_string(), "\n\t".to_string()]).is_none());
}

#[test]
fn degraded_answer_compares_byte_length() {
    // "ééé" is 6 bytes, "abcd" is 4.
    let answers = vec!["ééé".to_string(), "abcd".to_string()];
    assert_eq!(degraded_from_panel(&answers).unwrap().first_content(), "ééé");
}

#[test]
fn single_route_returns_backend_error_verbatim() {
    let backend = |req: &ChatCompletionRequest| match req.model.as_str() {
        "b/cheap" => Ok(resp("b/cheap", "0.0", 1)),
        _ => Err(Error::Backend("down".into())),
    };
    let mut p = profile();
    p.router.policy = "classifier".into();
    p.router.classifier_model = Some("b/cheap".into());
    let (out, _) = drive(p, req(), &backend);
    assert!(matches!(out, Err(Error::Backend(m)) if m == "down"));
}

#[test]
fn pipeline_rejects_out_of_turn_events() {
    let p = Pipeline::new(profile(), req());
    assert!(p.accepts(&Event::Begin));
    assert!(!p.accepts(&Event::Reply(Err(Error::Timeout))));
    assert!(!p.accepts(&Event::Panel(vec![])));
}

#[test]
fn scoring_call_usage_is_counted_on_the_fused_route() {
    // The classifier answers with an unreadable score, so the query fails open
    // to fusion: scoring (2) + panel (3 x 2) + judge (2) + synthesis (2) = 12.
    let backend = |req: &ChatCompletionRequest| match req.model.as_str() {
        "b/cheap" => Ok(resp("b/cheap", "no idea", 1)),
        other => scripted(&ChatCompletionRequest { model: other.into(), ..req.clone() }),
    };
    let mut p = profile();
    p.router.policy = "classifier".into();
    p.router.classifier_model = Some("b/cheap".into());
    let (out, pipe) = drive(p, req(), &backend);
    let out = out.unwrap();
    assert_eq!(pipe.route(), Some(RouteDecision::Fuse));
    assert_eq!(out.first_content(), "FINAL ANSWER");
    let u = out.usage.unwrap();
    assert_eq!(u.total_tokens, 12);
    assert_eq!(u.prompt_tokens, 6);
}

#[test]
fn scoring_call_usage_is_counted_on_the_single_route() {
    let backend = |req: &ChatCompletionRequest| match req.model.as_str() {
        "b/cheap" => Ok(resp("b/cheap", "0.1", 1)),
        _ => Ok(resp("b/single", "SINGLE ANSWER", 3)),
    };
    let mut p = profile();
    p.router.policy = "classifier".into();
    p.router.classifier_model = Some("b/cheap".into());
    let (out, _) = drive(p, req(), &backend);
    let out = out.unwrap();
    assert_eq!(out.model, "b/single");
    assert_eq!(
        out.usage,
        Some(Usage { prompt_tokens: 4, completion_tokens: 4, total_tokens: 8 })
    );
}
