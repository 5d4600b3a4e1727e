use chorus::config::{
    default_backend_timeout_ms, default_layers, default_max_concurrent,
    default_max_reference_chars, default_panel_timeout_ms, default_router_policy, default_samples,
    default_threshold, default_true, AggregatorConfig, BackendConfig, Config, PanelConfig,
    Profile, RouterConfig, ServerConfig,
};
use chorus::error::Error;

fn profile(name: &str, members: Vec<&str>, quorum: usize) -> Profile {
    Profile {
        name: name.into(),
        router: RouterConfig {
            policy: "always_fuse".into(),
            single_model: "b/s".into(),
            classifier_model: None,
            threshold: 500_000,
        },
        panel: PanelConfig {
            members: members.into_iter().map(Into::into).collect(),
            self_moa: false,
            samples: 3,
            min_quorum: quorum,
            timeout_ms: 90_000,
        },
        aggregator: AggregatorConfig {
            judge: "b/j".into(),
            synthesizer: "b/syn".into(),
            anonymize_sources: true,
            normalize_length: true,
            single_source_cap: true,
            layers: 1,
            max_reference_chars: 8_000,
        },
        tools: vec![],
    }
}

fn cfg(profiles: Vec<Profile>) -> Config {
    Config {
        server: ServerConfig {
            bind: "0.0.0.0:8080".into(),
            max_concurrent_requests: 64,
        },
        backend: BackendConfig {
            base_url: "http://b/v1".into(),
            api_key_env: "K".into(),
            timeout_ms: 120_000,
        },
        profiles,
    }
}

fn config_message(r: Result<(), Error>) -> String {
    match r {
        Err(Error::Config(m)) => m,
        other => panic!("expected a config error, got {other:?}"),
    }
}

#[test]
fn valid_config_passes() {
    let c = cfg(vec![profile("research", vec!["b/a", "b/b"], 2)]);
    assert!(c.validate().is_ok());
}

#[test]
fn rejects_fusion_alias_in_panel() {
    let c = cfg(vec![profile("research", vec!["fusion/research", "b/b"], 2)]);
    assert!(matches!(c.validate(), Err(Error::Config(_))));
}

#[test]
fn rejects_quorum_out_of_range() {
    let c = cfg(vec![profile("research", vec!["b/a", "b/b"], 3)]);
    assert!(matches!(c.validate(), Err(Error::Config(_))));
}

#[test]
fn rejects_duplicate_names() {
    let c = cfg(vec![
        profile("research", vec!["b/a", "b/b"], 2),
        profile("research", vec!["b/a", "b/b"], 2),
    ]);
    assert!(matches!(c.validate(), Err(Error::Config(_))));
}

#[test]
fn rejects_multi_layer() {
    let mut p = profile("research", vec!["b/a", "b/b"], 2);
    p.aggregator.layers = 2;
    assert!(matches!(cfg(vec![p]).validate(), Err(Error::Config(_))));
}

#[test]
fn classifier_policy_requires_model() {
    let mut p = profile("research", vec!["b/a", "b/b"], 2);
    p.router.policy = "classifier".into();
    p.router.classifier_model = None;
    assert!(matches!(cfg(vec![p]).validate(), Err(Error::Config(_))));
}

#[test]
fn classifier_policy_with_model_passes() {
    let mut p = profile("research", vec!["b/a", "b/b"], 2);
    p.router.policy = "classifier".into();
    p.router.classifier_model = Some("b/cheap".into());
    assert!(cfg(vec![p]).validate().is_ok());
}

#[test]
fn rejects_unknown_router_policy() {
    let mut p = profile("research", vec!["b/a", "b/b"], 2);
    p.router.policy = "magic".into();
    assert!(matches!(cfg(vec![p]).validate(), Err(Error::Config(_))));
}

#[test]
fn rejects_threshold_out_of_range() {
    let mut p = profile("research", vec!["b/a", "b/b"], 2);
    p.router.threshold = 1_500_000;
    assert!(matches!(cfg(vec![p]).validate(), Err(Error::Config(_))));
}

#[test]
fn rejects_fusion_alias_in_classifier_model() {
    let mut p = profile("research", vec!["b/a", "b/b"], 2);
    p.router.policy = "classifier".into();
    p.router.classifier_model = Some("fusion/research".into());
    assert!(matches!(cfg(vec![p]).validate(), Err(Error::Config(_))));
}

#[test]
fn validation_messages_name_the_problem() {
    let c = cfg(vec![
        profile("research", vec!["b/a", "b/b"], 2),
        profile("research", vec!["b/a", "b/b"], 2),
    ]);
    assert_eq!(config_message(c.validate()), "duplicate profile name: research");

    let c = cfg(vec![profile("research", vec!["b/a", "fusion/x"], 2)]);
    assert_eq!(
        config_message(c.validate()),
        "profile research: model fusion/x references a fusion alias (loop)"
    );

    let c = cfg(vec![profile("research", vec![], 1)]);
    assert_eq!(config_message(c.validate()), "profile research: empty panel");

    let c = cfg(vec![profile("research", vec!["b/a", "b/b"], 3)]);
    assert_eq!(
        config_message(c.validate()),
        "profile research: min_quorum 3 out of range 1..=2"
    );

    let c = cfg(vec![profile("research", vec!["b/a", "b/b"], 0)]);
    assert_eq!(
        config_message(c.validate()),
        "profile research: min_quorum 0 out of range 1..=2"
    );

    let mut p = profile("research", vec!["b/a"], 1);
    p.aggregator.layers = 3;
    assert_eq!(
        config_message(cfg(vec![p]).validate()),
        "profile research: multi-layer is not implemented yet (layers must be 1)"
    );

    let mut p = profile("research", vec!["b/a"], 1);
    p.router.policy = "magic".into();
    assert_eq!(
        config_message(cfg(vec![p]).validate()),
        "profile research: unknown router policy magic"
    );

    let mut p = profile("research", vec!["b/a"], 1);
    p.router.policy = "classifier".into();
    assert_eq!(
        config_message(cfg(vec![p]).validate()),
        "profile research: classifier policy requires router.classifier_model"
    );
}

#[test]
fn threshold_messages_print_like_floats() {
    let cases = [
        (1_500_000, "1.5"),
        (2_000_000, "2"),
        (-250_000, "-0.25"),
        (1_000_001, "1.000001"),
    ];
    for (t, text) in cases {
        let mut p = profile("r", vec!["b/a"], 1);
        p.router.threshold = t;
        assert_eq!(
            config_message(cfg(vec![p]).validate()),
            format!("profile r: router.threshold {text} out of range 0.0..=1.0")
        );
    }
}

#[test]
fn threshold_bounds_are_inclusive() {
    for t in [0, 1_000_000] {
        let mut p = profile("r", vec!["b/a"], 1);
        p.router.threshold = t;
        assert!(cfg(vec![p]).validate().is_ok());
    }
}

#[test]
fn fusion_alias_in_judge_or_synthesizer_is_rejected() {
    let mut p = profile("r", vec!["b/a"], 1);
    p.aggregator.synthesizer = "fusion/other".into();
    assert_eq!(
        config_message(cfg(vec![p]).validate()),
        "profile r: model fusion/other references a fusion alias (loop)"
    );
}

#[test]
fn profile_lookup_finds_first_by_name() {
    let c = cfg(vec![
        profile("a", vec!["b/a"], 1),
        profile("b", vec!["b/x", "b/y"], 2),
    ]);
    assert_eq!(c.profile("b").unwrap().panel.members.len(), 2);
    assert!(c.profile("c").is_none());
}

#[test]
fn all_models_lists_every_slot_in_order() {
    let mut p = profile("r", vec!["b/a", "b/b"], 1);
    p.router.classifier_model = Some("b/cheap".into());
    assert_eq!(
        p.all_models(),
        vec!["b/s", "b/cheap", "b/a", "b/b", "b/j", "b/syn"]
    );
}

#[test]
fn defaults_match_the_documented_values() {
    assert_eq!(default_max_concurrent(), 64);
    assert_eq!(default_backend_timeout_ms(), 120_000);
    assert_eq!(default_panel_timeout_ms(), 90_000);
    assert_eq!(default_router_policy(), "always_fuse");
    assert_eq!(default_threshold(), 500_000);
    assert_eq!(default_samples(), 3);
    assert!(default_true());
    assert_eq!(default_layers(), 1);
    assert_eq!(default_max_reference_chars(), 8_000);
}
