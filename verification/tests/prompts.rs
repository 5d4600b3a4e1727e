use chorus::prompts::{
    cap_length, difficulty_messages, format_references, judge_messages, label_for,
    parse_difficulty, refine_messages, synthesis_messages,
};

#[test]
fn difficulty_prompt_asks_for_a_single_number() {
    let msgs = difficulty_messages("q");
    assert!(msgs[0].content.contains("single"));
    assert!(msgs[0].content.contains("ONLY the number"));
}

#[test]
fn parses_bare_and_noisy_scores() {
    assert_eq!(parse_difficulty("0.8"), Some(800_000));
    assert_eq!(parse_difficulty("The difficulty is 0.3 overall"), Some(300_000));
    assert_eq!(parse_difficulty("1"), Some(1_000_000));
    assert_eq!(parse_difficulty("nonsense"), None);
}

#[test]
fn clamps_out_of_range() {
    assert_eq!(parse_difficulty("2.5"), Some(1_000_000));
}

#[test]
fn cap_length_truncates_on_char_count() {
    assert_eq!(cap_length("hello", 10), "hello");
    assert_eq!(cap_length("hello", 3), "hel [...truncated]");
}

#[test]
fn references_are_anonymized_and_capped() {
    let refs = format_references(&["aaaa".to_string(), "bbbb".to_string()], true, 2);
    // labels, not model names; bodies capped
    assert!(refs.contains("Response A:"));
    assert!(refs.contains("Response B:"));
    assert!(refs.contains("aa [...truncated]"));
    assert!(!refs.contains("model"));
}

#[test]
fn judge_prompt_demands_structure_and_forbids_final_answer() {
    let msgs = judge_messages("q", "refs", true);
    let sys = &msgs[0].content;
    assert!(sys.contains("STRUCTURED ANALYSIS"));
    assert!(sys.contains("Do not write a final answer"));
    assert!(sys.contains("Do not let any single response dominate"));
    // base hardening is always present
    assert!(sys.contains("biased, incorrect"));
}

#[test]
fn judge_prompt_omits_dominance_clause_when_flag_off() {
    let msgs = judge_messages("q", "refs", false);
    let sys = &msgs[0].content;
    // base hardening still present
    assert!(sys.contains("biased, incorrect"));
    // dominance clause must be absent
    assert!(!sys.contains("Do not let any single response dominate"));
}

#[test]
fn label_for_wraps_after_z() {
    assert_eq!(label_for(0), 'A', "slot 0 must be 'A'");
    assert_eq!(label_for(25), 'Z', "slot 25 must be 'Z'");
    // slot 26 must wrap back to 'A'
    assert_eq!(label_for(26), 'A', "slot 26 must wrap to 'A'");
}

/// The 27th response (index 26) is labelled "Response A" again because
/// `label_for` wraps at 26: panels with more than 26 members produce
/// duplicate labels.
#[test]
fn format_references_27th_label_wraps_to_a() {
    let responses: Vec<String> = (0..27).map(|i| format!("answer{i}")).collect();
    let formatted = format_references(&responses, false, 1_000);
    let count = formatted.matches("Response A:").count();
    assert_eq!(
        count, 2,
        "expected exactly 2 'Response A:' entries (slots 0 and 26), got {count}"
    );
}

#[test]
fn refine_prompt_asks_for_an_answer_with_hardening() {
    let msgs = refine_messages("q", "refs", true);
    let sys = &msgs[0].content;
    // It must ask for an improved standalone answer, not an analysis.
    assert!(sys.contains("improved standalone answer"));
    assert!(!sys.contains("STRUCTURED ANALYSIS"));
    // Hardening is carried, including the dominance clause when capped.
    assert!(sys.contains("biased, incorrect"));
    assert!(sys.contains("Do not let any single response dominate"));
    // The user message carries the query and the references.
    assert!(msgs[1].content.contains("User query:"));
    assert!(msgs[1].content.contains("refs"));
}

#[test]
fn synthesis_prompt_carries_hardening() {
    let msgs = synthesis_messages("q", "refs", "analysis", true);
    assert!(
        msgs[0]
            .content
            .contains("Do not let any single response dominate")
    );
    assert!(msgs[0].content.contains("biased, incorrect"));
}

#[test]
fn references_have_exact_layout_and_trailing_space_is_trimmed() {
    let refs = format_references(&["one".to_string(), "two  \n".to_string()], false, 10);
    assert_eq!(refs, "Response A:\none\n\nResponse B:\ntwo");
}

#[test]
fn cap_length_counts_characters_not_bytes() {
    assert_eq!(cap_length("ééé", 3), "ééé");
    assert_eq!(cap_length("éééé", 2), "éé [...truncated]");
    assert_eq!(cap_length("", 0), "");
}

#[test]
fn judge_prompt_has_exact_user_message() {
    let msgs = judge_messages("q", "refs", true);
    assert_eq!(msgs.len(), 2);
    assert_eq!(msgs[0].role, "system");
    assert_eq!(msgs[1].role, "user");
    assert_eq!(msgs[1].content, "User query:\nq\n\nCandidate responses:\nrefs");
    assert!(msgs[0].content.ends_with("Blind spots. Do not write a final answer."));
}

#[test]
fn synthesis_prompt_has_exact_user_message() {
    let msgs = synthesis_messages("q", "refs", "an", false);
    assert_eq!(
        msgs[1].content,
        "User query:\nq\n\nCandidate responses:\nrefs\n\nAnalysis:\nan"
    );
    assert!(!msgs[0].content.contains("dominate"));
}

#[test]
fn difficulty_user_message_carries_the_query() {
    let msgs = difficulty_messages("what is X");
    assert_eq!(msgs[1].content, "Query:\nwhat is X");
}

#[test]
fn parse_difficulty_edge_cases() {
    assert_eq!(parse_difficulty("0"), Some(0));
    assert_eq!(parse_difficulty(".5"), Some(500_000));
    assert_eq!(parse_difficulty("5."), Some(1_000_000));
    assert_eq!(parse_difficulty("00.25"), Some(250_000));
    assert_eq!(parse_difficulty("0.1234567"), Some(123_456));
    assert_eq!(parse_difficulty("."), None);
    assert_eq!(parse_difficulty("1.2.3"), Some(1_000_000));
    assert_eq!(parse_difficulty("Score: 0.7."), Some(700_000));
    assert_eq!(parse_difficulty(".5.3"), Some(500_000));
    assert_eq!(parse_difficulty("..5"), None);
    assert_eq!(parse_difficulty(""), None);
    assert_eq!(parse_difficulty("score: 0.9, confidence 0.2"), Some(900_000));
}

#[test]
fn label_period_is_26() {
    for i in 0..100usize {
        assert_eq!(label_for(i), label_for(i + 26));
    }
    assert_eq!(label_for(1), 'B');
}
