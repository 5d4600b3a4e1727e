//! Orchestrate router -> panel -> judge -> synthesis for one request.
//!
//! A [`Pipeline`] is the decision side of one fused request. It never waits
//! on the network itself: each call to [`Pipeline::run`] takes what the last
//! outside call produced (an [`Event`]) and answers with the next thing to do
//! (an [`Action`]): call the backend once, fan out to the panel, or finish.

use vstd::prelude::*;
use vstd::pervasive::unreached;

use crate::config::{Profile, ProfileView};
use crate::error::{error_message, Error, ErrorView};
use crate::judge::{judge_call, judge_outcome, judge_request};
use crate::panel::{
    collect_panel, member_requests, panel_requests, panel_result, requests_view, results_view,
    survivors, usage_sum_fits,
};
use crate::prompts::strings_view;
use crate::router::{classify, reply_view, scoring_request, ClassifierRouter, RouteDecision};
use crate::schema::{
    last_user_text, ChatCompletionRequest, ChatCompletionResponse, ChatMessage, Choice,
    ChoiceView, MessageView, RequestView, ResponseView, Usage, first_content,
};
use crate::synthesis::{synthesis_call, synthesis_failure, synthesis_request};
use crate::text::{byte_length, has_visible, owned, visible};
use crate::panel::usage_sum;
use crate::usage::{no_usage, usage_add, usage_add_fits, usage_fits, usage_plus, UsageAccumulator};

verus! {

/// Where one request stands.
#[derive(Debug)]
pub enum Stage {
    /// Nothing has happened yet.
    Start,
    /// Waiting for the classifier's difficulty score.
    Scoring,
    /// Waiting for the single model's answer; the scoring call cost `usage`.
    Forwarding { usage: Usage },
    /// Waiting for the panel; the calls so far cost `usage`.
    Fanning { usage: Usage },
    /// Waiting for the judge; the panel answered with `responses`.
    Judging { responses: Vec<String>, usage: Usage },
    /// Waiting for the synthesizer; `retried` once it failed a first time.
    Synthesizing { responses: Vec<String>, analysis: String, usage: Usage, retried: bool },
    /// Finished; `degraded` when the answer is a panel answer standing in for
    /// a failed synthesis.
    Done { route: RouteDecision, degraded: bool },
}

/// The value of a [`Stage`].
pub enum StageView {
    Start,
    Scoring,
    Forwarding { usage: Usage },
    Fanning { usage: Usage },
    Judging { responses: Seq<Seq<char>>, usage: Usage },
    Synthesizing { responses: Seq<Seq<char>>, analysis: Seq<char>, usage: Usage, retried: bool },
    Done { route: RouteDecision, degraded: bool },
}

impl View for Stage {
    type V = StageView;

    open spec fn view(&self) -> StageView {
        match self {
            Stage::Start => StageView::Start,
            Stage::Scoring => StageView::Scoring,
            Stage::Forwarding { usage } => StageView::Forwarding { usage: *usage },
            Stage::Fanning { usage } => StageView::Fanning { usage: *usage },
            Stage::Judging { responses, usage } => StageView::Judging {
                responses: strings_view(responses@),
                usage: *usage,
            },
            Stage::Synthesizing { responses, analysis, usage, retried } => StageView::Synthesizing {
                responses: strings_view(responses@),
                analysis: analysis@,
                usage: *usage,
                retried: *retried,
            },
            Stage::Done { route, degraded } => StageView::Done { route: *route, degraded: *degraded },
        }
    }
}

/// What the outside world reports back to the pipeline.
#[derive(Debug)]
pub enum Event {
    /// Start the request.
    Begin,
    /// The reply to the last [`Action::Call`].
    Reply(Result<ChatCompletionResponse, Error>),
    /// The panel results, one per call, `None` for a member that failed or
    /// timed out.
    Panel(Vec<Option<ChatCompletionResponse>>),
}

/// The value of an [`Event`].
pub enum EventView {
    Begin,
    Reply(Result<ResponseView, ErrorView>),
    Panel(Seq<Option<ResponseView>>),
}

impl View for Event {
    type V = EventView;

    open spec fn view(&self) -> EventView {
        match self {
            Event::Begin => EventView::Begin,
            Event::Reply(r) => EventView::Reply(reply_view(*r)),
            Event::Panel(rs) => EventView::Panel(results_view(rs@)),
        }
    }
}

/// What the pipeline asks the outside world to do next.
#[derive(Debug)]
pub enum Action {
    /// Send one request to the backend and report the reply.
    Call(ChatCompletionRequest),
    /// Send all requests concurrently, each under `timeout_ms`, and report the results.
    FanOut { requests: Vec<ChatCompletionRequest>, timeout_ms: u64 },
    /// The request is answered.
    Finish(Result<ChatCompletionResponse, Error>),
}

/// The value of an [`Action`].
pub enum ActionView {
    Call(RequestView),
    FanOut { requests: Seq<RequestView>, timeout_ms: u64 },
    Finish(Result<ResponseView, ErrorView>),
}

impl View for Action {
    type V = ActionView;

    open spec fn view(&self) -> ActionView {
        match self {
            Action::Call(r) => ActionView::Call(r@),
            Action::FanOut { requests, timeout_ms } => ActionView::FanOut {
                requests: requests_view(requests@),
                timeout_ms: *timeout_ms,
            },
            Action::Finish(r) => ActionView::Finish(reply_view(*r)),
        }
    }
}

/// End-to-end MoA pipeline for one request: router gate -> panel -> judge -> synthesis.
pub struct Pipeline {
    profile: Profile,
    request: ChatCompletionRequest,
    stage: Stage,
}

/// The value of a [`Pipeline`].
pub struct PipelineView {
    pub profile: ProfileView,
    pub request: RequestView,
    pub stage: StageView,
}

impl View for Pipeline {
    type V = PipelineView;

    closed spec fn view(&self) -> PipelineView {
        PipelineView { profile: self.profile@, request: self.request@, stage: self.stage@ }
    }
}

/// The model alias under which a profile is served.
pub open spec fn alias_of(name: Seq<char>) -> Seq<char> {
    "fusion/"@ + name
}

/// The model alias `fusion/<name>`.
pub fn fusion_alias(name: &str) -> (a: String)
    ensures
        a@ == alias_of(name@),
{
    let mut a = String::new();
    a.append("fusion/");
    a.append(name);
    a
}

/// The profile routes through the difficulty classifier.
pub open spec fn uses_classifier(p: ProfileView) -> bool {
    p.router.policy == "classifier"@ && p.router.classifier_model is Some
}

/// The caller's request forwarded to the single model, unstreamed.
pub open spec fn single_request(p: ProfileView, req: RequestView) -> RequestView {
    RequestView { model: p.router.single_model, stream: false, ..req }
}

/// The query the judge and synthesizer see.
pub open spec fn query_of(req: RequestView) -> Seq<char> {
    last_user_text(req.messages)
}

/// The usage of a reply, if it answered.
pub open spec fn reply_usage(r: Result<ResponseView, ErrorView>) -> Option<Usage> {
    match r {
        Ok(resp) => resp.usage,
        Err(_) => None,
    }
}

/// What the scoring call cost: its reported usage, zero when it failed or
/// reported none.
pub open spec fn scoring_usage(r: Result<ResponseView, ErrorView>) -> Usage {
    usage_add(no_usage(), reply_usage(r))
}

/// The single model's reply, its usage raised by the `spent` of the scoring call.
pub open spec fn forwarded(r: Result<ResponseView, ErrorView>, spent: Usage) -> Result<
    ResponseView,
    ErrorView,
> {
    match r {
        Ok(resp) => Ok(ResponseView { usage: Some(usage_add(spent, resp.usage)), ..resp }),
        Err(e) => Err(e),
    }
}

/// Fan out to the panel, after calls that cost `spent`.
pub open spec fn fan_out(p: ProfileView, req: RequestView, spent: Usage) -> (StageView, ActionView) {
    (
        StageView::Fanning { usage: spent },
        ActionView::FanOut {
            requests: panel_requests(req, p.panel),
            timeout_ms: p.panel.timeout_ms,
        },
    )
}

/// A response presented as the fusion alias, with the aggregated usage.
pub open spec fn finalize(resp: ResponseView, name: Seq<char>, usage: Usage) -> ResponseView {
    ResponseView { model: alias_of(name), usage: Some(usage), ..resp }
}

/// The UTF-8 length of a text, in bytes.
pub open spec fn byte_len(s: Seq<char>) -> nat {
    vstd::utf8::encode_utf8(s).len()
}

/// The slot of the strongest panel answer: the longest (in bytes) answer that
/// is not blank, the last of them on a tie.
pub open spec fn best_answer(rs: Seq<Seq<char>>) -> Option<int>
    decreases rs.len(),
{
    if rs.len() == 0 {
        None
    } else {
        let b = best_answer(rs.drop_last());
        let i = rs.len() - 1;
        if has_visible(rs[i]) && (b is None || byte_len(rs[b->0]) <= byte_len(rs[i])) {
            Some(i)
        } else {
            b
        }
    }
}

/// The stand-in response that carries a panel answer.
pub open spec fn degraded_response(content: Seq<char>) -> ResponseView {
    ResponseView {
        id: "chorus-degraded"@,
        object: "chat.completion"@,
        created: 0,
        model: Seq::empty(),
        choices: seq![
            ChoiceView {
                index: 0,
                message: MessageView { role: "assistant"@, content },
                finish_reason: Some("stop"@),
            },
        ],
        usage: None,
    }
}

/// The degraded answer for panel answers `rs`, if any is usable.
pub open spec fn degraded(rs: Seq<Seq<char>>) -> Option<ResponseView> {
    match best_answer(rs) {
        Some(i) => Some(degraded_response(rs[i])),
        None => None,
    }
}

/// One step of the pipeline: the next stage and action for an event.
///
/// An event that the stage does not wait for (see [`accepts`]) leaves the
/// stage as it is and finishes with a timeout; [`Pipeline::run`] never takes
/// such an event.
pub open spec fn step(p: ProfileView, req: RequestView, stage: StageView, ev: EventView) -> (
    StageView,
    ActionView,
) {
    match stage {
        StageView::Start => if uses_classifier(p) {
            (StageView::Scoring, ActionView::Call(scoring_request(p.router.classifier_model->0, req)))
        } else {
            fan_out(p, req, no_usage())
        },
        StageView::Scoring => match ev {
            EventView::Reply(r) => if classify(r, p.router.threshold) == RouteDecision::Single {
                (
                    StageView::Forwarding { usage: scoring_usage(r) },
                    ActionView::Call(single_request(p, req)),
                )
            } else {
                fan_out(p, req, scoring_usage(r))
            },
            _ => (stage, ActionView::Finish(Err(ErrorView::Timeout))),
        },
        StageView::Forwarding { usage } => match ev {
            EventView::Reply(r) => (
                StageView::Done { route: RouteDecision::Single, degraded: false },
                ActionView::Finish(forwarded(r, usage)),
            ),
            _ => (stage, ActionView::Finish(Err(ErrorView::Timeout))),
        },
        StageView::Fanning { usage } => match ev {
            EventView::Panel(rs) => match panel_result(rs, p.panel.min_quorum) {
                Err(e) => (
                    StageView::Done { route: RouteDecision::Fuse, degraded: false },
                    ActionView::Finish(Err(e)),
                ),
                Ok((texts, panel_usage)) => (
                    StageView::Judging { responses: texts, usage: usage_plus(usage, panel_usage) },
                    ActionView::Call(judge_call(p.aggregator, query_of(req), texts)),
                ),
            },
            _ => (stage, ActionView::Finish(Err(ErrorView::Timeout))),
        },
        StageView::Judging { responses, usage } => match ev {
            EventView::Reply(r) => {
                let analysis = match r {
                    Ok(resp) => first_content(resp),
                    Err(_) => Seq::empty(),
                };
                let total = match r {
                    Ok(resp) => usage_add(usage, resp.usage),
                    Err(_) => usage,
                };
                (
                    StageView::Synthesizing { responses, analysis, usage: total, retried: false },
                    ActionView::Call(
                        synthesis_call(
                            p.aggregator,
                            query_of(req),
                            responses,
                            analysis,
                            false,
                            req.max_tokens,
                        ),
                    ),
                )
            },
            _ => (stage, ActionView::Finish(Err(ErrorView::Timeout))),
        },
        StageView::Synthesizing { responses, analysis, usage, retried } => match ev {
            EventView::Reply(Ok(resp)) => (
                StageView::Done { route: RouteDecision::Fuse, degraded: false },
                ActionView::Finish(Ok(finalize(resp, p.name, usage_add(usage, resp.usage)))),
            ),
            EventView::Reply(Err(e)) => if !retried {
                (
                    StageView::Synthesizing { responses, analysis, usage, retried: true },
                    ActionView::Call(
                        synthesis_call(
                            p.aggregator,
                            query_of(req),
                            responses,
                            analysis,
                            false,
                            req.max_tokens,
                        ),
                    ),
                )
            } else {
                match degraded(responses) {
                    Some(d) => (
                        StageView::Done { route: RouteDecision::Fuse, degraded: true },
                        ActionView::Finish(Ok(finalize(d, p.name, usage))),
                    ),
                    None => (
                        StageView::Done { route: RouteDecision::Fuse, degraded: false },
                        ActionView::Finish(Err(ErrorView::Synthesis(error_message(e)))),
                    ),
                }
            },
            _ => (stage, ActionView::Finish(Err(ErrorView::Timeout))),
        },
        StageView::Done { .. } => (stage, ActionView::Finish(Err(ErrorView::Timeout))),
    }
}

/// The event is the one the stage waits for, and the usage it reports can be
/// added without exceeding the `u32` counters.
pub open spec fn accepts(stage: StageView, ev: EventView) -> bool {
    match stage {
        StageView::Start => ev is Begin,
        StageView::Scoring => ev is Reply,
        StageView::Forwarding { usage } => match ev {
            EventView::Reply(Ok(resp)) => usage_add_fits(usage, resp.usage),
            EventView::Reply(Err(_)) => true,
            _ => false,
        },
        StageView::Fanning { usage } => match ev {
            EventView::Panel(rs) => usage_sum_fits(survivors(rs)) && usage_fits(
                usage,
                usage_sum(survivors(rs)),
            ),
            _ => false,
        },
        StageView::Judging { usage, .. } => match ev {
            EventView::Reply(Ok(resp)) => usage_add_fits(usage, resp.usage),
            EventView::Reply(Err(_)) => true,
            _ => false,
        },
        StageView::Synthesizing { usage, .. } => match ev {
            EventView::Reply(Ok(resp)) => usage_add_fits(usage, resp.usage),
            EventView::Reply(Err(_)) => true,
            _ => false,
        },
        StageView::Done { .. } => false,
    }
}

/// Build a degraded fusion response from the strongest available panel answer
/// when synthesis fails: the longest non-blank answer. Returns `None` only if
/// no panel answer is usable.
pub fn degraded_from_panel(responses: &[String]) -> (r: Option<ChatCompletionResponse>)
    ensures
        match (r, degraded(strings_view(responses@))) {
            (Some(x), Some(d)) => x@ == d,
            (None, None) => true,
            _ => false,
        },
{
    let ghost rs = strings_view(responses@);
    let mut best: Option<usize> = None;
    let mut best_len: u128 = 0;
    let mut i: usize = 0;
    while i < responses.len()
        invariant
            rs == strings_view(responses@),
            i <= responses.len(),
            match best {
                Some(b) => best_answer(rs.take(i as int)) == Some(b as int) && b < i && best_len
                    == byte_len(rs[b as int]),
                None => best_answer(rs.take(i as int)) is None,
            },
        decreases responses.len() - i,
    {
        let r = &responses[i];
        let len = byte_length(r.as_str());
        let usable = visible(r.as_str());
        proof {
            let t = rs.take(i + 1);
            assert(t.drop_last() =~= rs.take(i as int));
            assert(t[i as int] == r@);
            if let Some(b) = best {
                assert(t[b as int] == rs[b as int]);
            }
        }
        let better = match best {
            Some(_) => best_len <= len,
            None => true,
        };
        if usable && better {
            best = Some(i);
            best_len = len;
        }
        i = i + 1;
    }
    proof {
        assert(rs.take(i as int) =~= rs);
    }
    match best {
        Some(b) => {
            let mut choices: Vec<Choice> = Vec::new();
            choices.push(
                Choice {
                    index: 0,
                    message: ChatMessage { role: owned("assistant"), content: responses[b].clone() },
                    finish_reason: Some(owned("stop")),
                },
            );
            let resp = ChatCompletionResponse {
                id: owned("chorus-degraded"),
                object: owned("chat.completion"),
                created: 0,
                model: String::new(),
                choices,
                usage: None,
            };
            proof {
                assert(resp@.choices =~= degraded_response(rs[b as int]).choices);
            }
            Some(resp)
        },
        None => None,
    }
}

impl Pipeline {
    /// A pipeline for one request under `profile`, at its start.
    pub fn new(profile: Profile, request: ChatCompletionRequest) -> (p: Self)
        ensures
            p@.profile == profile@,
            p@.request == request@,
            p@.stage == StageView::Start,
    {
        Pipeline { profile, request, stage: Stage::Start }
    }

    /// Where the request stands.
    pub fn stage(&self) -> (s: &Stage)
        ensures
            s@ == self@.stage,
    {
        &self.stage
    }

    /// The routing decision, once it is made.
    pub fn route(&self) -> (d: Option<RouteDecision>)
        ensures
            d == match self@.stage {
                StageView::Start | StageView::Scoring => None,
                StageView::Forwarding { .. } => Some(RouteDecision::Single),
                StageView::Done { route, .. } => Some(route),
                _ => Some(RouteDecision::Fuse),
            },
    {
        match &self.stage {
            Stage::Start | Stage::Scoring => None,
            Stage::Forwarding { .. } => Some(RouteDecision::Single),
            Stage::Done { route, .. } => Some(*route),
            _ => Some(RouteDecision::Fuse),
        }
    }

    /// Whether `event` is one this pipeline can take now.
    pub fn accepts(&self, event: &Event) -> (b: bool)
        ensures
            b == accepts(self@.stage, event@),
    {
        match (&self.stage, event) {
            (Stage::Start, Event::Begin) => true,
            (Stage::Scoring, Event::Reply(_)) => true,
            (Stage::Forwarding { usage }, Event::Reply(Ok(resp))) => fits(usage, &resp.usage),
            (Stage::Forwarding { .. }, Event::Reply(Err(_))) => true,
            (Stage::Fanning { usage }, Event::Panel(rs)) => panel_usage_fits(usage, rs),
            (Stage::Judging { usage, .. }, Event::Reply(Ok(resp))) => fits(usage, &resp.usage),
            (Stage::Judging { .. }, Event::Reply(Err(_))) => true,
            (Stage::Synthesizing { usage, .. }, Event::Reply(Ok(resp))) => fits(usage, &resp.usage),
            (Stage::Synthesizing { .. }, Event::Reply(Err(_))) => true,
            _ => false,
        }
    }

    /// Take the outcome of the last outside step and decide the next one.
    pub fn run(&mut self, event: Event) -> (action: Action)
        requires
            accepts(old(self)@.stage, event@),
        ensures
            final(self)@.profile == old(self)@.profile,
            final(self)@.request == old(self)@.request,
            (final(self)@.stage, action@) == step(
                old(self)@.profile,
                old(self)@.request,
                old(self)@.stage,
                event@,
            ),
    {
        let mut stage = Stage::Start;
        std::mem::swap(&mut stage, &mut self.stage);
        match stage {
            Stage::Start => {
                if self.uses_classifier() {
                    let model = match &self.profile.router.classifier_model {
                        Some(m) => m.clone(),
                        None => String::new(),
                    };
                    let router = ClassifierRouter::new(model, self.profile.router.threshold);
                    self.stage = Stage::Scoring;
                    Action::Call(router.scoring_request(&self.request))
                } else {
                    self.fan_out(UsageAccumulator::default().into_usage())
                }
            },
            Stage::Scoring => match event {
                Event::Reply(reply) => {
                    let router = ClassifierRouter::new(String::new(), self.profile.router.threshold);
                    let mut acc = UsageAccumulator::default();
                    if let Ok(resp) = &reply {
                        acc.add(resp.usage.as_ref());
                    }
                    let spent = acc.into_usage();
                    if router.decide(&reply) == RouteDecision::Single {
                        let mut single = self.request.clone();
                        single.model = self.profile.router.single_model.clone();
                        single.stream = false;
                        self.stage = Stage::Forwarding { usage: spent };
                        Action::Call(single)
                    } else {
                        self.fan_out(spent)
                    }
                },
                _ => unreached(),
            },
            Stage::Forwarding { usage } => match event {
                Event::Reply(Ok(mut resp)) => {
                    resp.usage = Some(add_usage(&usage, &resp.usage));
                    self.stage = Stage::Done { route: RouteDecision::Single, degraded: false };
                    Action::Finish(Ok(resp))
                },
                Event::Reply(Err(e)) => {
                    self.stage = Stage::Done { route: RouteDecision::Single, degraded: false };
                    Action::Finish(Err(e))
                },
                _ => unreached(),
            },
            Stage::Fanning { usage } => match event {
                Event::Panel(results) => match collect_panel(results, self.profile.panel.min_quorum) {
                    Err(e) => {
                        self.stage = Stage::Done { route: RouteDecision::Fuse, degraded: false };
                        Action::Finish(Err(e))
                    },
                    Ok(outcome) => {
                        let mut acc = UsageAccumulator::from_usage(usage);
                        acc.add(Some(&outcome.usage));
                        let req = judge_request(
                            &self.profile.aggregator,
                            self.request.last_user_text(),
                            outcome.responses.as_slice(),
                        );
                        self.stage = Stage::Judging {
                            responses: outcome.responses,
                            usage: acc.into_usage(),
                        };
                        Action::Call(req)
                    },
                },
                _ => unreached(),
            },
            Stage::Judging { responses, usage } => match event {
                Event::Reply(reply) => {
                    let mut acc = UsageAccumulator::from_usage(usage);
                    let analysis = match &reply {
                        Ok(resp) => {
                            let judged = judge_outcome(resp);
                            acc.add(judged.usage.as_ref());
                            judged.analysis
                        },
                        Err(_) => String::new(),
                    };
                    let req = synthesis_request(
                        &self.profile.aggregator,
                        self.request.last_user_text(),
                        responses.as_slice(),
                        analysis.as_str(),
                        false,
                        self.request.max_tokens,
                    );
                    self.stage = Stage::Synthesizing {
                        responses,
                        analysis,
                        usage: acc.into_usage(),
                        retried: false,
                    };
                    Action::Call(req)
                },
                _ => unreached(),
            },
            Stage::Synthesizing { responses, analysis, usage, retried } => match event {
                Event::Reply(Ok(mut resp)) => {
                    let mut acc = UsageAccumulator::from_usage(usage);
                    acc.add(resp.usage.as_ref());
                    resp.model = fusion_alias(self.profile.name.as_str());
                    resp.usage = Some(acc.into_usage());
                    self.stage = Stage::Done { route: RouteDecision::Fuse, degraded: false };
                    Action::Finish(Ok(resp))
                },
                Event::Reply(Err(e)) => {
                    if !retried {
                        let req = synthesis_request(
                            &self.profile.aggregator,
                            self.request.last_user_text(),
                            responses.as_slice(),
                            analysis.as_str(),
                            false,
                            self.request.max_tokens,
                        );
                        self.stage = Stage::Synthesizing {
                            responses,
                            analysis,
                            usage,
                            retried: true,
                        };
                        Action::Call(req)
                    } else {
                        match degraded_from_panel(responses.as_slice()) {
                            Some(mut resp) => {
                                resp.model = fusion_alias(self.profile.name.as_str());
                                resp.usage = Some(usage);
                                self.stage = Stage::Done {
                                    route: RouteDecision::Fuse,
                                    degraded: true,
                                };
                                Action::Finish(Ok(resp))
                            },
                            None => {
                                self.stage = Stage::Done {
                                    route: RouteDecision::Fuse,
                                    degraded: false,
                                };
                                Action::Finish(Err(synthesis_failure(&e)))
                            },
                        }
                    }
                },
                _ => unreached(),
            },
            Stage::Done { .. } => unreached(),
        }
    }

    /// Whether this profile routes through the difficulty classifier.
    fn uses_classifier(&self) -> (b: bool)
        ensures
            b == uses_classifier(self.profile@),
    {
        crate::text::same_text(self.profile.router.policy.as_str(), "classifier")
            && self.profile.router.classifier_model.is_some()
    }

    /// Start the panel, after calls that cost `spent`.
    fn fan_out(&mut self, spent: Usage) -> (action: Action)
        ensures
            final(self).profile == old(self).profile,
            final(self).request == old(self).request,
            (final(self).stage@, action@) == fan_out(old(self).profile@, old(self).request@, spent),
    {
        let requests = member_requests(&self.request, &self.profile.panel);
        self.stage = Stage::Fanning { usage: spent };
        Action::FanOut { requests, timeout_ms: self.profile.panel.timeout_ms }
    }
}

/// Whether summing the panel survivors' usage, and adding the sum to `spent`,
/// stays within the counters.
fn panel_usage_fits(spent: &Usage, results: &Vec<Option<ChatCompletionResponse>>) -> (b: bool)
    ensures
        b == (usage_sum_fits(survivors(results_view(results@))) && usage_fits(
            *spent,
            usage_sum(survivors(results_view(results@))),
        )),
{
    let ghost rv = results_view(results@);
    let mut acc = Usage { prompt_tokens: 0, completion_tokens: 0, total_tokens: 0 };
    let mut i: usize = 0;
    while i < results.len()
        invariant
            rv == results_view(results@),
            i <= results.len(),
            usage_sum_fits(survivors(rv.take(i as int))),
            acc == crate::panel::usage_sum(survivors(rv.take(i as int))),
        decreases results.len() - i,
    {
        proof {
            assert(rv.take(i + 1).drop_last() =~= rv.take(i as int));
        }
        if let Some(resp) = &results[i] {
            proof {
                let s = survivors(rv.take(i + 1));
                assert(rv.take(i + 1).last() == Some(resp@));
                assert(s.drop_last() =~= survivors(rv.take(i as int)));
                assert(s.last() == resp@);
            }
            if !fits(&acc, &resp.usage) {
                proof {
                    lemma_fits_prefix(rv, i + 1);
                }
                return false;
            }
            acc = add_usage(&acc, &resp.usage);
        } else {
            proof {
                assert(rv.take(i + 1).last() is None);
            }
        }
        i = i + 1;
    }
    proof {
        assert(rv.take(i as int) =~= rv);
    }
    fits(spent, &Some(acc))
}

/// If the whole result list sums within the counters, so does any prefix.
proof fn lemma_fits_prefix(rv: Seq<Option<ResponseView>>, n: int)
    requires
        0 <= n <= rv.len(),
        !usage_sum_fits(survivors(rv.take(n))),
    ensures
        !usage_sum_fits(survivors(rv)),
    decreases rv.len() - n,
{
    if n < rv.len() {
        let t = rv.take(n + 1);
        assert(t.drop_last() =~= rv.take(n));
        if t.last() is Some {
            assert(survivors(t).drop_last() =~= survivors(rv.take(n)));
        }
        lemma_fits_prefix(rv, n + 1);
    } else {
        assert(rv.take(n) =~= rv);
    }
}

/// Whether `u` can be added to `a` within the counters.
fn fits(a: &Usage, u: &Option<Usage>) -> (b: bool)
    ensures
        b == usage_add_fits(*a, *u),
{
    match u {
        Some(x) => a.prompt_tokens <= u32::MAX - x.prompt_tokens && a.completion_tokens
            <= u32::MAX - x.completion_tokens && a.total_tokens <= u32::MAX - x.total_tokens,
        None => true,
    }
}

/// `a` plus `u`, when it fits.
fn add_usage(a: &Usage, u: &Option<Usage>) -> (r: Usage)
    requires
        usage_add_fits(*a, *u),
    ensures
        r == usage_add(*a, *u),
{
    let mut acc = UsageAccumulator::from_usage(*a);
    acc.add(u.as_ref());
    acc.into_usage()
}

/// A fused answer never hides its cost: on the always-fuse path, when the
/// panel meets its quorum and the synthesizer answers, the response is the
/// synthesizer's, presented as the profile's `fusion/` alias, and its usage
/// is the sum of the surviving panel members', the judge's (when it answered)
/// and the synthesizer's.
pub proof fn lemma_fused_answer_usage(
    p: ProfileView,
    req: RequestView,
    results: Seq<Option<ResponseView>>,
    judge: Result<ResponseView, ErrorView>,
    synth: ResponseView,
)
    requires
        !uses_classifier(p),
        survivors(results).len() >= p.panel.min_quorum,
    ensures
        ({
            let (s1, a1) = step(p, req, StageView::Start, EventView::Begin);
            let (s2, a2) = step(p, req, s1, EventView::Panel(results));
            let (s3, a3) = step(p, req, s2, EventView::Reply(judge));
            let (s4, a4) = step(p, req, s3, EventView::Reply(Ok(synth)));
            &&& a1 == ActionView::FanOut {
                requests: panel_requests(req, p.panel),
                timeout_ms: p.panel.timeout_ms,
            }
            &&& a2 == ActionView::Call(
                judge_call(p.aggregator, query_of(req), crate::panel::contents(survivors(results))),
            )
            &&& a4 == ActionView::Finish(
                Ok(
                    finalize(
                        synth,
                        p.name,
                        usage_add(
                            usage_add(crate::panel::usage_sum(survivors(results)), reply_usage(judge)),
                            synth.usage,
                        ),
                    ),
                ),
            )
            &&& s4 == StageView::Done { route: RouteDecision::Fuse, degraded: false }
        }),
{
}

/// Judge failure is not request failure: when the judge errors the pipeline
/// goes on to synthesize over the raw answers with an empty analysis.
pub proof fn lemma_judge_failure_degrades(
    p: ProfileView,
    req: RequestView,
    responses: Seq<Seq<char>>,
    usage: Usage,
    e: ErrorView,
)
    ensures
        step(p, req, StageView::Judging { responses, usage }, EventView::Reply(Err(e))) == (
            StageView::Synthesizing {
                responses,
                analysis: Seq::empty(),
                usage,
                retried: false,
            },
            ActionView::Call(
                synthesis_call(
                    p.aggregator,
                    query_of(req),
                    responses,
                    Seq::empty(),
                    false,
                    req.max_tokens,
                ),
            ),
        ),
{
}

/// The synthesizer gets exactly one retry: its first failure sends the very
/// same request again, and a second failure never calls the backend again.
pub proof fn lemma_synthesis_retried_once(
    p: ProfileView,
    req: RequestView,
    responses: Seq<Seq<char>>,
    analysis: Seq<char>,
    usage: Usage,
    e: ErrorView,
)
    ensures
        step(
            p,
            req,
            StageView::Synthesizing { responses, analysis, usage, retried: false },
            EventView::Reply(Err(e)),
        ) == (
            StageView::Synthesizing { responses, analysis, usage, retried: true },
            ActionView::Call(
                synthesis_call(p.aggregator, query_of(req), responses, analysis, false, req.max_tokens),
            ),
        ),
        step(
            p,
            req,
            StageView::Synthesizing { responses, analysis, usage, retried: true },
            EventView::Reply(Err(e)),
        ).1 is Finish,
{
}

/// There is a best panel answer exactly when some answer is not blank, and
/// then it is a non-blank answer no shorter than any other non-blank one.
pub proof fn lemma_best_answer(rs: Seq<Seq<char>>)
    ensures
        best_answer(rs) is Some <==> exists|i: int| 0 <= i < rs.len() && has_visible(#[trigger] rs[i]),
        best_answer(rs) matches Some(b) ==> 0 <= b < rs.len() && has_visible(rs[b]) && forall|j: int|
            0 <= j < rs.len() && has_visible(#[trigger] rs[j]) ==> byte_len(rs[j]) <= byte_len(rs[b]),
    decreases rs.len(),
{
    if rs.len() > 0 {
        let d = rs.drop_last();
        lemma_best_answer(d);
        assert forall|i: int| 0 <= i < d.len() implies #[trigger] d[i] == rs[i] by {}
        if let Some(b) = best_answer(rs) {
            assert forall|j: int|
                0 <= j < rs.len() && has_visible(#[trigger] rs[j]) implies byte_len(rs[j])
                <= byte_len(rs[b]) by {
                if j < rs.len() - 1 {
                    assert(has_visible(d[j]));
                }
            }
        }
        if exists|i: int| 0 <= i < rs.len() && has_visible(#[trigger] rs[i]) {
            let i = choose|i: int| 0 <= i < rs.len() && has_visible(#[trigger] rs[i]);
            if i < rs.len() - 1 {
                assert(has_visible(d[i]));
            }
        }
    }
}

/// A flaky synthesizer does not fail a fusion whose panel produced a usable
/// answer: after the retry also fails, the request is answered with the
/// longest non-blank panel answer, under the fusion alias and with the usage
/// gathered so far; only when every panel answer is blank is the synthesis
/// error surfaced.
pub proof fn lemma_synthesis_failure_degrades(
    p: ProfileView,
    req: RequestView,
    responses: Seq<Seq<char>>,
    analysis: Seq<char>,
    usage: Usage,
    e: ErrorView,
)
    ensures
        ({
            let (s, a) = step(
                p,
                req,
                StageView::Synthesizing { responses, analysis, usage, retried: true },
                EventView::Reply(Err(e)),
            );
            if exists|i: int| 0 <= i < responses.len() && has_visible(#[trigger] responses[i]) {
                &&& a matches ActionView::Finish(Ok(r))
                &&& r.model == alias_of(p.name)
                &&& r.usage == Some(usage)
                &&& exists|i: int|
                    0 <= i < responses.len() && has_visible(#[trigger] responses[i])
                        && first_content(r) == responses[i]
                &&& s == StageView::Done { route: RouteDecision::Fuse, degraded: true }
            } else {
                a == ActionView::Finish(Err(ErrorView::Synthesis(error_message(e))))
            }
        }),
{
    lemma_best_answer(responses);
    if let Some(b) = best_answer(responses) {
        assert(first_content(finalize(degraded_response(responses[b]), p.name, usage))
            == responses[b]);
    }
}

/// A query routed to the single model is forwarded unchanged but for the model
/// and the stream flag (the whole conversation, temperature and token limit go
/// along), and its reply is returned as it came, but for its
/// usage, which also counts the scoring call.
pub proof fn lemma_single_route(
    p: ProfileView,
    req: RequestView,
    score: Result<ResponseView, ErrorView>,
    reply: Result<ResponseView, ErrorView>,
)
    requires
        classify(score, p.router.threshold) == RouteDecision::Single,
    ensures
        ({
            let (s1, a1) = step(p, req, StageView::Scoring, EventView::Reply(score));
            let (s2, a2) = step(p, req, s1, EventView::Reply(reply));
            &&& s1 == StageView::Forwarding { usage: scoring_usage(score) }
            &&& a1 == ActionView::Call(single_request(p, req))
            &&& a1 matches ActionView::Call(fwd)
            &&& fwd.model == p.router.single_model
            &&& !fwd.stream
            &&& fwd.messages == req.messages
            &&& fwd.temperature == req.temperature
            &&& fwd.max_tokens == req.max_tokens
            &&& a2 == ActionView::Finish(forwarded(reply, scoring_usage(score)))
            &&& (reply matches Ok(r) ==> a2 matches ActionView::Finish(Ok(out)) && out.choices
                == r.choices && out.model == r.model && out.usage == Some(
                usage_add(scoring_usage(score), r.usage),
            ))
            &&& (reply matches Err(e) ==> a2 == ActionView::Finish(Err(e)))
        }),
{
}

/// Every call is paid for in the answer: on a classifier profile whose score
/// sends the query to the panel, the fused response's usage is the sum of the
/// scoring call's, the surviving panel members', the judge's (when it
/// answered) and the synthesizer's.
pub proof fn lemma_scored_fusion_usage(
    p: ProfileView,
    req: RequestView,
    score: Result<ResponseView, ErrorView>,
    results: Seq<Option<ResponseView>>,
    judge: Result<ResponseView, ErrorView>,
    synth: ResponseView,
)
    requires
        uses_classifier(p),
        classify(score, p.router.threshold) == RouteDecision::Fuse,
        survivors(results).len() >= p.panel.min_quorum,
    ensures
        ({
            let (s0, a0) = step(p, req, StageView::Start, EventView::Begin);
            let (s1, a1) = step(p, req, s0, EventView::Reply(score));
            let (s2, a2) = step(p, req, s1, EventView::Panel(results));
            let (s3, a3) = step(p, req, s2, EventView::Reply(judge));
            let (s4, a4) = step(p, req, s3, EventView::Reply(Ok(synth)));
            &&& a0 == ActionView::Call(scoring_request(p.router.classifier_model->0, req))
            &&& a1 == ActionView::FanOut {
                requests: panel_requests(req, p.panel),
                timeout_ms: p.panel.timeout_ms,
            }
            &&& a4 == ActionView::Finish(
                Ok(
                    finalize(
                        synth,
                        p.name,
                        usage_add(
                            usage_add(
                                usage_plus(
                                    scoring_usage(score),
                                    usage_sum(survivors(results)),
                                ),
                                reply_usage(judge),
                            ),
                            synth.usage,
                        ),
                    ),
                ),
            )
            &&& s4 == StageView::Done { route: RouteDecision::Fuse, degraded: false }
        }),
{
}

/// A fused answer keeps the synthesizer's id, object, creation time and
/// choices, and only changes the model, to `fusion/<name>`, and the usage, to
/// the aggregated total. A degraded answer is one assistant choice with the
/// panel answer as its content, finished with `stop`, id `chorus-degraded`
/// and no usage of its own.
pub proof fn lemma_presented_answers(resp: ResponseView, name: Seq<char>, u: Usage, content: Seq<char>)
    ensures
        ({
            let f = finalize(resp, name, u);
            &&& f.model == "fusion/"@ + name
            &&& f.usage == Some(u)
            &&& f.id == resp.id
            &&& f.object == resp.object
            &&& f.created == resp.created
            &&& f.choices == resp.choices
            &&& first_content(f) == first_content(resp)
        }),
        ({
            let d = degraded_response(content);
            &&& d.id == "chorus-degraded"@
            &&& d.object == "chat.completion"@
            &&& d.usage is None
            &&& d.choices.len() == 1
            &&& d.choices[0].index == 0
            &&& d.choices[0].message.role == "assistant"@
            &&& d.choices[0].message.content == content
            &&& d.choices[0].finish_reason == Some("stop"@)
            &&& first_content(d) == content
        }),
{
}

} // verus!
