//! The synthesizer: the final grounded answer under the hardened prompt.

use vstd::prelude::*;

use crate::config::{AggregatorConfig, AggregatorView};
use crate::error::{error_message, Error, ErrorView};
use crate::prompts::{conversation, format_references, references, strings_view, synthesis_messages, synthesis_system, synthesis_user};
use crate::schema::{ChatCompletionRequest, RequestView};

verus! {

/// The synthesis request: the synthesizer model at temperature 0.3, with the
/// caller's `max_tokens`, over the references and the judge's analysis.
pub open spec fn synthesis_call(
    agg: AggregatorView,
    query: Seq<char>,
    rs: Seq<Seq<char>>,
    analysis: Seq<char>,
    stream: bool,
    max_tokens: Option<u32>,
) -> RequestView {
    RequestView {
        model: agg.synthesizer,
        messages: conversation(
            synthesis_system(agg.single_source_cap),
            synthesis_user(
                query,
                references(rs, agg.normalize_length, agg.max_reference_chars as nat),
                analysis,
            ),
        ),
        stream,
        temperature: Some(300_000),
        max_tokens,
    }
}

/// Build the synthesis request.
///
/// This is a separate public function so the streaming path can reuse the
/// same request construction. `max_tokens` is forwarded from the caller's
/// inbound request so the final answer is bounded the same way a single-model
/// call would be.
pub fn synthesis_request(
    cfg: &AggregatorConfig,
    query: &str,
    responses: &[String],
    analysis: &str,
    stream: bool,
    max_tokens: Option<u32>,
) -> (r: ChatCompletionRequest)
    ensures
        r@ == synthesis_call(
            cfg@,
            query@,
            strings_view(responses@),
            analysis@,
            stream,
            max_tokens,
        ),
{
    let refs = format_references(responses, cfg.normalize_length, cfg.max_reference_chars);
    ChatCompletionRequest {
        model: cfg.synthesizer.clone(),
        messages: synthesis_messages(query, refs.as_str(), analysis, cfg.single_source_cap),
        stream,
        temperature: Some(300_000),
        max_tokens,
    }
}

/// The error surfaced when the synthesizer's retry fails too: it wraps the
/// second failure's message.
pub fn synthesis_failure(second: &Error) -> (e: Error)
    ensures
        e@ == ErrorView::Synthesis(error_message(second@)),
{
    Error::Synthesis(second.message())
}

/// The synthesizer sees the question, every answer and the judge's analysis:
/// its request goes to the synthesizer model at temperature 0.3 with the
/// caller's `stream` and `max_tokens`, as a system prompt followed by the user
/// message `"User query:\n" + query + "\n\nCandidate responses:\n" + the
/// formatted references + "\n\nAnalysis:\n" + analysis`. Two different
/// analyses, or two different queries, give two different user messages.
pub proof fn lemma_synthesis_sees_analysis(
    agg: AggregatorView,
    query: Seq<char>,
    rs: Seq<Seq<char>>,
    analysis: Seq<char>,
    other_query: Seq<char>,
    other_analysis: Seq<char>,
    stream: bool,
    max_tokens: Option<u32>,
)
    ensures
        ({
            let r = synthesis_call(agg, query, rs, analysis, stream, max_tokens);
            let refs = references(rs, agg.normalize_length, agg.max_reference_chars as nat);
            &&& r.model == agg.synthesizer
            &&& r.stream == stream
            &&& r.temperature == Some(300_000i64)
            &&& r.max_tokens == max_tokens
            &&& r.messages.len() == 2
            &&& r.messages[0].role == "system"@
            &&& r.messages[1].role == "user"@
            &&& r.messages[1].content == "User query:\n"@ + query + "\n\nCandidate responses:\n"@
                + refs + "\n\nAnalysis:\n"@ + analysis
        }),
        analysis != other_analysis ==> synthesis_call(
            agg,
            query,
            rs,
            analysis,
            stream,
            max_tokens,
        ).messages[1].content != synthesis_call(
            agg,
            query,
            rs,
            other_analysis,
            stream,
            max_tokens,
        ).messages[1].content,
        query != other_query ==> synthesis_call(
            agg,
            query,
            rs,
            analysis,
            stream,
            max_tokens,
        ).messages[1].content != synthesis_call(
            agg,
            other_query,
            rs,
            analysis,
            stream,
            max_tokens,
        ).messages[1].content,
{
    let refs = references(rs, agg.normalize_length, agg.max_reference_chars as nat);
    let head = "User query:\n"@;
    let mid = "\n\nCandidate responses:\n"@ + refs + "\n\nAnalysis:\n"@;
    let full = |q: Seq<char>, a: Seq<char>| head + q + mid + a;
    assert(synthesis_call(agg, query, rs, analysis, stream, max_tokens).messages[1].content
        =~= full(query, analysis));
    assert(synthesis_call(agg, query, rs, other_analysis, stream, max_tokens).messages[1].content
        =~= full(query, other_analysis));
    assert(synthesis_call(agg, other_query, rs, analysis, stream, max_tokens).messages[1].content
        =~= full(other_query, analysis));
    assert("User query:\n"@ + query + "\n\nCandidate responses:\n"@ + refs + "\n\nAnalysis:\n"@
        + analysis =~= full(query, analysis));
    if analysis != other_analysis && full(query, analysis) == full(query, other_analysis) {
        let p = head + query + mid;
        assert(full(query, analysis) =~= p + analysis);
        assert(full(query, other_analysis) =~= p + other_analysis);
        assert(analysis =~= (p + analysis).skip(p.len() as int));
        assert(other_analysis =~= (p + other_analysis).skip(p.len() as int));
    }
    if query != other_query && full(query, analysis) == full(other_query, analysis) {
        let t = mid + analysis;
        assert(full(query, analysis) =~= head + (query + t));
        assert(full(other_query, analysis) =~= head + (other_query + t));
        assert((query + t) =~= full(query, analysis).skip(head.len() as int));
        assert((other_query + t) =~= full(other_query, analysis).skip(head.len() as int));
        assert(query.len() == other_query.len());
        assert(query =~= (query + t).take(query.len() as int));
        assert(other_query =~= (other_query + t).take(other_query.len() as int));
    }
}

} // verus!
