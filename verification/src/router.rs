//! The router gate: decide whether to fuse or forward to a single model.

use vstd::prelude::*;

use crate::error::{Error, ErrorView};
use crate::prompts::{conversation, difficulty, difficulty_messages, difficulty_system};
use crate::schema::{first_content, last_user_text, ChatCompletionRequest, ChatCompletionResponse, MessageView, RequestView, ResponseView};

verus! {

/// Whether a query is fused by the panel or forwarded to one model.
#[derive(Debug, Clone, Copy, PartialEq, Eq, Structural)]
pub enum RouteDecision {
    Fuse,
    Single,
}

/// The value of a backend reply.
pub open spec fn reply_view(r: Result<ChatCompletionResponse, Error>) -> Result<ResponseView, ErrorView> {
    match r {
        Ok(resp) => Ok(resp@),
        Err(e) => Err(e@),
    }
}

/// The baseline policy: always fuse.
#[derive(Debug)]
pub struct AlwaysFuse;

impl AlwaysFuse {
    /// Every query is fused.
    pub fn decide(&self, _req: &ChatCompletionRequest) -> (d: RouteDecision)
        ensures
            d == RouteDecision::Fuse,
    {
        RouteDecision::Fuse
    }
}

/// Routes by a cheap difficulty score: fuse when the score is at least the
/// threshold (both in millionths).
#[derive(Debug)]
pub struct ClassifierRouter {
    pub model: String,
    pub threshold: i64,
}

/// The request that asks `model` to rate the difficulty of `req`'s query.
pub open spec fn scoring_request(model: Seq<char>, req: RequestView) -> RequestView {
    RequestView {
        model,
        messages: conversation(difficulty_system(), "Query:\n"@ + last_user_text(req.messages)),
        stream: false,
        temperature: Some(0),
        max_tokens: None,
    }
}

/// The decision for a scoring reply: single only for a readable score below
/// the threshold; any failure or unreadable reply fails open to fusion.
pub open spec fn classify(reply: Result<ResponseView, ErrorView>, threshold: i64) -> RouteDecision {
    match reply {
        Ok(r) => match difficulty(first_content(r)) {
            Some(score) => if score < threshold {
                RouteDecision::Single
            } else {
                RouteDecision::Fuse
            },
            None => RouteDecision::Fuse,
        },
        Err(_) => RouteDecision::Fuse,
    }
}

impl ClassifierRouter {
    /// A classifier router scoring with `model`.
    pub fn new(model: String, threshold: i64) -> (r: Self)
        ensures
            r.model == model,
            r.threshold == threshold,
    {
        ClassifierRouter { model, threshold }
    }

    /// The difficulty-scoring request for `req`.
    pub fn scoring_request(&self, req: &ChatCompletionRequest) -> (s: ChatCompletionRequest)
        ensures
            s@ == scoring_request(self.model@, req@),
    {
        ChatCompletionRequest {
            model: self.model.clone(),
            messages: difficulty_messages(req.last_user_text()),
            stream: false,
            temperature: Some(0),
            max_tokens: None,
        }
    }

    /// The decision for the scoring reply.
    pub fn decide(&self, reply: &Result<ChatCompletionResponse, Error>) -> (d: RouteDecision)
        ensures
            d == classify(reply_view(*reply), self.threshold),
    {
        match reply {
            Ok(resp) => match crate::prompts::parse_difficulty(resp.first_content()) {
                Some(score) => if (score as i64) < self.threshold {
                    RouteDecision::Single
                } else {
                    RouteDecision::Fuse
                },
                None => RouteDecision::Fuse,
            },
            Err(_) => RouteDecision::Fuse,
        }
    }
}

/// The router fails open: a failed scoring call or an unreadable score always
/// fuses, and a query is forwarded to a single model only on a readable score
/// strictly below the threshold.
pub proof fn lemma_router_fails_open(reply: Result<ResponseView, ErrorView>, threshold: i64)
    ensures
        reply is Err ==> classify(reply, threshold) == RouteDecision::Fuse,
        (reply matches Ok(r) && difficulty(first_content(r)) is None) ==> classify(
            reply,
            threshold,
        ) == RouteDecision::Fuse,
        classify(reply, threshold) == RouteDecision::Single ==> (reply matches Ok(r) && difficulty(
            first_content(r),
        ) is Some && difficulty(first_content(r))->0 < threshold),
        threshold <= 0 ==> classify(reply, threshold) == RouteDecision::Fuse,
{
}

/// The difficulty question is about the caller's query: the scoring request
/// goes to the classifier model, unstreamed, at temperature 0 and without a
/// token limit, as the classifier prompt followed by the user message
/// `"Query:\n"` + the caller's last user text.
pub proof fn lemma_scoring_request(model: Seq<char>, req: RequestView)
    ensures
        ({
            let s = scoring_request(model, req);
            &&& s.model == model
            &&& !s.stream
            &&& s.temperature == Some(0i64)
            &&& s.max_tokens is None
            &&& s.messages.len() == 2
            &&& s.messages[0] == MessageView { role: "system"@, content: difficulty_system() }
            &&& s.messages[1] == MessageView {
                role: "user"@,
                content: "Query:\n"@ + last_user_text(req.messages),
            }
        }),
{
}

/// The threshold decides a readable score: below it the query goes to the
/// single model, at or above it the query is fused.
pub proof fn lemma_router_threshold(reply: Result<ResponseView, ErrorView>, threshold: i64)
    ensures
        (reply matches Ok(r) && difficulty(first_content(r)) matches Some(s) && (s as int)
            < threshold) ==> classify(reply, threshold) == RouteDecision::Single,
        (reply matches Ok(r) && difficulty(first_content(r)) matches Some(s) && (s as int)
            >= threshold) ==> classify(reply, threshold) == RouteDecision::Fuse,
{
}

} // verus!
