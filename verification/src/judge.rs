//! The judge: a structured analysis over anonymized panel answers.

use vstd::prelude::*;

use crate::config::{AggregatorConfig, AggregatorView};
use crate::prompts::{conversation, format_references, judge_messages, judge_system, query_and_references, references, strings_view};
use crate::schema::{first_content, ChatCompletionRequest, ChatCompletionResponse, RequestView, Usage};
use crate::text::owned;

verus! {

/// The outcome of a judge call: a structured analysis text and token usage.
#[derive(Debug)]
pub struct JudgeOutcome {
    /// The structured analysis produced by the judge model.
    pub analysis: String,
    /// Token usage for the judge call, if the backend reported it.
    pub usage: Option<Usage>,
}

/// The judge request: the judge model at temperature 0 over the anonymized,
/// length-normalized references.
pub open spec fn judge_call(agg: AggregatorView, query: Seq<char>, rs: Seq<Seq<char>>) -> RequestView {
    RequestView {
        model: agg.judge,
        messages: conversation(
            judge_system(agg.single_source_cap),
            query_and_references(
                query,
                references(rs, agg.normalize_length, agg.max_reference_chars as nat),
            ),
        ),
        stream: false,
        temperature: Some(0),
        max_tokens: None,
    }
}

/// Build the judge request for the panel answers `responses`.
pub fn judge_request(cfg: &AggregatorConfig, query: &str, responses: &[String]) -> (r:
    ChatCompletionRequest)
    ensures
        r@ == judge_call(cfg@, query@, strings_view(responses@)),
{
    let refs = format_references(responses, cfg.normalize_length, cfg.max_reference_chars);
    ChatCompletionRequest {
        model: cfg.judge.clone(),
        messages: judge_messages(query, refs.as_str(), cfg.single_source_cap),
        stream: false,
        temperature: Some(0),
        max_tokens: None,
    }
}

/// The judge's analysis and usage from its reply.
pub fn judge_outcome(resp: &ChatCompletionResponse) -> (o: JudgeOutcome)
    ensures
        o.analysis@ == first_content(resp@),
        o.usage == resp.usage,
{
    JudgeOutcome { analysis: owned(resp.first_content()), usage: resp.usage }
}

/// The judge sees the question and every answer: its request goes to the
/// judge model, unstreamed, at temperature 0, as a system prompt followed by
/// the user message `"User query:\n" + query + "\n\nCandidate responses:\n" +
/// the formatted references`. Two different queries over the same answers
/// give two different user messages.
pub proof fn lemma_judge_sees_query(
    agg: AggregatorView,
    query: Seq<char>,
    other: Seq<char>,
    rs: Seq<Seq<char>>,
)
    ensures
        ({
            let r = judge_call(agg, query, rs);
            let refs = references(rs, agg.normalize_length, agg.max_reference_chars as nat);
            &&& r.model == agg.judge
            &&& !r.stream
            &&& r.temperature == Some(0i64)
            &&& r.max_tokens is None
            &&& r.messages.len() == 2
            &&& r.messages[0].role == "system"@
            &&& r.messages[1].role == "user"@
            &&& r.messages[1].content == "User query:\n"@ + query + "\n\nCandidate responses:\n"@
                + refs
        }),
        query != other ==> judge_call(agg, query, rs).messages[1].content != judge_call(
            agg,
            other,
            rs,
        ).messages[1].content,
{
    let refs = references(rs, agg.normalize_length, agg.max_reference_chars as nat);
    let a = "User query:\n"@ + query + "\n\nCandidate responses:\n"@ + refs;
    let b = "User query:\n"@ + other + "\n\nCandidate responses:\n"@ + refs;
    assert(judge_call(agg, query, rs).messages[1].content =~= a);
    assert(judge_call(agg, other, rs).messages[1].content =~= b);
    if query != other && a == b {
        let tail = "\n\nCandidate responses:\n"@ + refs;
        assert(a =~= "User query:\n"@ + (query + tail));
        assert(b =~= "User query:\n"@ + (other + tail));
        let n = "User query:\n"@.len();
        assert((query + tail) =~= a.skip(n as int));
        assert((other + tail) =~= b.skip(n as int));
        assert(query.len() == other.len());
        assert(query =~= (query + tail).take(query.len() as int));
        assert(other =~= (other + tail).take(other.len() as int));
    }
}

} // verus!
