//! The panel: per-member requests, self-MoA sampling, and the partial-failure quorum.
//!
//! The calls themselves run concurrently outside the library, each under the
//! panel's timeout; a member that fails or times out is reported as `None`.

use vstd::prelude::*;

use crate::config::{PanelConfig, PanelView};
use crate::error::{Error, ErrorView};
use crate::prompts::strings_view;
use crate::schema::{first_content, ChatCompletionRequest, ChatCompletionResponse, RequestView, ResponseView, Usage};
use crate::text::owned;
use crate::usage::{no_usage, usage_add, usage_add_fits, UsageAccumulator};

verus! {

/// The outcome of a successful panel run.
#[derive(Debug)]
pub struct PanelOutcome {
    /// Survivor answer contents, anonymized by position downstream.
    pub responses: Vec<String>,
    /// Aggregated token usage across all surviving panel members.
    pub usage: Usage,
}

/// The temperature, in millionths, of self-MoA sample `idx`: 0.3, 0.5, 0.7, ...
/// capped at 2.0.
pub open spec fn sample_temperature(idx: int) -> i64 {
    if 300_000 + 200_000 * idx <= 2_000_000 {
        (300_000 + 200_000 * idx) as i64
    } else {
        2_000_000
    }
}

/// The request sent to one panel call: the caller's request aimed at `model`,
/// never streamed, with a varied temperature when sampling one model.
pub open spec fn panel_request(base: RequestView, model: Seq<char>, self_moa: bool, idx: int) -> RequestView {
    RequestView {
        model,
        stream: false,
        temperature: if self_moa {
            Some(sample_temperature(idx))
        } else {
            base.temperature
        },
        ..base
    }
}

/// The `(model, idx)` calls of a panel: `samples` calls of the first member in
/// self-MoA mode, else one call per member.
pub open spec fn panel_calls(cfg: PanelView) -> Seq<(Seq<char>, int)> {
    if cfg.self_moa {
        Seq::new(
            cfg.samples as nat,
            |i: int|
                (
                    if cfg.members.len() > 0 {
                        cfg.members[0]
                    } else {
                        Seq::empty()
                    },
                    i,
                ),
        )
    } else {
        Seq::new(cfg.members.len(), |i: int| (cfg.members[i], i))
    }
}

/// All requests of a panel run, in call order.
pub open spec fn panel_requests(base: RequestView, cfg: PanelView) -> Seq<RequestView> {
    panel_calls(cfg).map_values(|c: (Seq<char>, int)| panel_request(base, c.0, cfg.self_moa, c.1))
}

/// The values of a list of calls.
pub open spec fn calls_view(cs: Seq<(String, usize)>) -> Seq<(Seq<char>, int)> {
    cs.map_values(|c: (String, usize)| (c.0@, c.1 as int))
}

/// The values of a list of requests.
pub open spec fn requests_view(rs: Seq<ChatCompletionRequest>) -> Seq<RequestView> {
    rs.map_values(|r: ChatCompletionRequest| r@)
}

/// Build the per-call request for member `idx`.
pub fn member_request(base: &ChatCompletionRequest, model: &str, self_moa: bool, idx: usize) -> (r:
    ChatCompletionRequest)
    ensures
        r@ == panel_request(base@, model@, self_moa, idx as int),
{
    let mut req = base.clone();
    req.model = owned(model);
    req.stream = false;
    if self_moa {
        let temp: i64 = if idx <= 8 {
            300_000 + 200_000 * (idx as i64)
        } else {
            2_000_000
        };
        req.temperature = Some(temp);
    }
    req
}

/// The list of `(model, idx)` calls this panel will make.
pub fn member_calls(cfg: &PanelConfig) -> (calls: Vec<(String, usize)>)
    ensures
        calls_view(calls@) == panel_calls(cfg@),
{
    let mut calls: Vec<(String, usize)> = Vec::new();
    if cfg.self_moa {
        let model = if cfg.members.len() > 0 {
            cfg.members[0].clone()
        } else {
            String::new()
        };
        let mut i: usize = 0;
        while i < cfg.samples
            invariant
                i <= cfg.samples,
                calls.len() == i,
                model@ == panel_calls(cfg@)[0].0 || cfg.samples == 0,
                cfg.self_moa,
                forall|k: int| 0 <= k < i ==> #[trigger] calls@[k].0@ == model@ && calls@[k].1 == k,
            decreases cfg.samples - i,
        {
            calls.push((model.clone(), i));
            i = i + 1;
        }
        proof {
            assert(calls_view(calls@) =~= panel_calls(cfg@));
        }
    } else {
        let mut i: usize = 0;
        while i < cfg.members.len()
            invariant
                i <= cfg.members.len(),
                calls.len() == i,
                forall|k: int|
                    0 <= k < i ==> #[trigger] calls@[k].0@ == cfg.members@[k]@ && calls@[k].1 == k,
            decreases cfg.members.len() - i,
        {
            calls.push((cfg.members[i].clone(), i));
            i = i + 1;
        }
        proof {
            assert(calls_view(calls@) =~= panel_calls(cfg@));
        }
    }
    calls
}

/// Every request of a panel run, in call order.
pub fn member_requests(base: &ChatCompletionRequest, cfg: &PanelConfig) -> (rs: Vec<
    ChatCompletionRequest,
>)
    ensures
        requests_view(rs@) == panel_requests(base@, cfg@),
{
    let calls = member_calls(cfg);
    let mut rs: Vec<ChatCompletionRequest> = Vec::new();
    let mut i: usize = 0;
    while i < calls.len()
        invariant
            calls_view(calls@) == panel_calls(cfg@),
            i <= calls.len(),
            rs.len() == i,
            forall|k: int|
                0 <= k < i ==> #[trigger] rs@[k]@ == panel_request(
                    base@,
                    calls@[k].0@,
                    cfg.self_moa,
                    calls@[k].1 as int,
                ),
        decreases calls.len() - i,
    {
        rs.push(member_request(base, calls[i].0.as_str(), cfg.self_moa, calls[i].1));
        i = i + 1;
    }
    proof {
        assert forall|k: int| 0 <= k < rs.len() implies #[trigger] requests_view(rs@)[k]
            == panel_requests(base@, cfg@)[k] by {
            assert(calls_view(calls@)[k] == (calls@[k].0@, calls@[k].1 as int));
        }
        assert(requests_view(rs@) =~= panel_requests(base@, cfg@));
    }
    rs
}

/// The values of the panel results.
pub open spec fn results_view(rs: Seq<Option<ChatCompletionResponse>>) -> Seq<Option<ResponseView>> {
    rs.map_values(
        |r: Option<ChatCompletionResponse>|
            match r {
                Some(x) => Some(x@),
                None => None,
            },
    )
}

/// The members that answered, in result order.
pub open spec fn survivors(rs: Seq<Option<ResponseView>>) -> Seq<ResponseView>
    decreases rs.len(),
{
    if rs.len() == 0 {
        Seq::empty()
    } else {
        let s = survivors(rs.drop_last());
        match rs.last() {
            Some(r) => s.push(r),
            None => s,
        }
    }
}

/// The summed usage of a list of responses (absent usage counts as nothing).
pub open spec fn usage_sum(rs: Seq<ResponseView>) -> Usage
    decreases rs.len(),
{
    if rs.len() == 0 {
        no_usage()
    } else {
        usage_add(usage_sum(rs.drop_last()), rs.last().usage)
    }
}

/// Summing the usage of `rs` in order never exceeds the `u32` counters.
pub open spec fn usage_sum_fits(rs: Seq<ResponseView>) -> bool
    decreases rs.len(),
{
    rs.len() == 0 || (usage_sum_fits(rs.drop_last()) && usage_add_fits(
        usage_sum(rs.drop_last()),
        rs.last().usage,
    ))
}

/// The answer contents of a list of responses.
pub open spec fn contents(rs: Seq<ResponseView>) -> Seq<Seq<char>> {
    rs.map_values(|r: ResponseView| first_content(r))
}

/// The panel result: the quorum error when fewer than `min_quorum` members
/// answered, else the survivors' answers and summed usage.
pub open spec fn panel_result(rs: Seq<Option<ResponseView>>, min_quorum: usize) -> Result<
    (Seq<Seq<char>>, Usage),
    ErrorView,
> {
    let s = survivors(rs);
    if s.len() < min_quorum {
        Err(ErrorView::Quorum { got: s.len(), needed: min_quorum as nat })
    } else {
        Ok((contents(s), usage_sum(s)))
    }
}

/// Keep the members that answered, aggregate their usage, and return
/// [`Error::Quorum`] if fewer than `min_quorum` of them did.
pub fn collect_panel(results: Vec<Option<ChatCompletionResponse>>, min_quorum: usize) -> (r: Result<
    PanelOutcome,
    Error,
>)
    requires
        usage_sum_fits(survivors(results_view(results@))),
    ensures
        match (r, panel_result(results_view(results@), min_quorum)) {
            (Ok(out), Ok((texts, usage))) => strings_view(out.responses@) == texts && out.usage
                == usage,
            (Err(e), Err(v)) => e@ == v,
            _ => false,
        },
{
    let ghost rv = results_view(results@);
    let mut responses: Vec<String> = Vec::new();
    let mut acc = UsageAccumulator::default();
    let mut i: usize = 0;
    while i < results.len()
        invariant
            rv == results_view(results@),
            i <= results.len(),
            usage_sum_fits(survivors(rv)),
            strings_view(responses@) == contents(survivors(rv.take(i as int))),
            acc@ == usage_sum(survivors(rv.take(i as int))),
            usage_sum_fits(survivors(rv.take(i as int))),
        decreases results.len() - i,
    {
        proof {
            assert(rv.take(i + 1).drop_last() =~= rv.take(i as int));
            lemma_survivors_prefix_fits(rv, i + 1);
        }
        if let Some(resp) = &results[i] {
            proof {
                assert(rv.take(i + 1).last() == Some(resp@));
                assert(survivors(rv.take(i + 1)) == survivors(rv.take(i as int)).push(resp@));
                assert(survivors(rv.take(i + 1)).drop_last() =~= survivors(rv.take(i as int)));
                assert(survivors(rv.take(i + 1)).last() == resp@);
            }
            acc.add(resp.usage.as_ref());
            responses.push(owned(resp.first_content()));
            proof {
                assert(contents(survivors(rv.take(i + 1))) =~= contents(
                    survivors(rv.take(i as int)),
                ).push(first_content(resp@)));
                assert(strings_view(responses@) =~= contents(survivors(rv.take(i + 1))));
            }
        } else {
            proof {
                assert(rv.take(i + 1).last() is None);
            }
        }
        i = i + 1;
    }
    proof {
        assert(rv.take(i as int) =~= rv);
    }
    let usage = acc.into_usage();
    if responses.len() < min_quorum {
        return Err(Error::Quorum { got: responses.len(), needed: min_quorum });
    }
    Ok(PanelOutcome { responses, usage })
}

/// A prefix of the results sums within the counters whenever all of them do.
proof fn lemma_survivors_prefix_fits(rv: Seq<Option<ResponseView>>, n: int)
    requires
        0 <= n <= rv.len(),
        usage_sum_fits(survivors(rv)),
    ensures
        usage_sum_fits(survivors(rv.take(n))),
    decreases rv.len() - n,
{
    if n < rv.len() {
        lemma_survivors_prefix_fits(rv, n + 1);
        let t = rv.take(n + 1);
        assert(t.drop_last() =~= rv.take(n));
        if t.last() is Some {
            assert(survivors(t).drop_last() =~= survivors(rv.take(n)));
        }
    } else {
        assert(rv.take(n) =~= rv);
    }
}

/// The partial-failure quorum: the panel fails exactly when fewer than
/// `min_quorum` members answered, and then reports how many did.
pub proof fn lemma_quorum(rs: Seq<Option<ResponseView>>, min_quorum: usize)
    ensures
        panel_result(rs, min_quorum) is Err <==> survivors(rs).len() < min_quorum,
        panel_result(rs, min_quorum) matches Ok((texts, _)) ==> texts.len() == survivors(rs).len()
            && texts.len() >= min_quorum,
        survivors(rs).len() <= rs.len(),
    decreases rs.len(),
{
    if rs.len() > 0 {
        lemma_quorum(rs.drop_last(), min_quorum);
    }
}

/// The panel's calls: in self-MoA mode `samples` calls of the first member,
/// each with its own temperature between 0.3 and 2.0, else one call per member
/// at the caller's temperature; every call carries the caller's messages and
/// is never streamed.
pub proof fn lemma_panel_requests(base: RequestView, cfg: PanelView)
    ensures
        cfg.self_moa ==> panel_requests(base, cfg).len() == cfg.samples,
        !cfg.self_moa ==> panel_requests(base, cfg).len() == cfg.members.len(),
        forall|i: int|
            0 <= i < panel_requests(base, cfg).len() ==> {
                let r = #[trigger] panel_requests(base, cfg)[i];
                &&& r.messages == base.messages
                &&& !r.stream
                &&& r.max_tokens == base.max_tokens
                &&& cfg.self_moa ==> r.model == (if cfg.members.len() > 0 {
                    cfg.members[0]
                } else {
                    Seq::empty()
                }) && r.temperature == Some(sample_temperature(i)) && 300_000
                    <= sample_temperature(i) <= 2_000_000
                &&& !cfg.self_moa ==> r.model == cfg.members[i] && r.temperature
                    == base.temperature
            },
{
}

/// The tokens a response reported in one counter, zero when it reported none.
pub open spec fn reported(r: ResponseView, field: int) -> int {
    match r.usage {
        Some(u) => if field == 0 {
            u.prompt_tokens as int
        } else if field == 1 {
            u.completion_tokens as int
        } else {
            u.total_tokens as int
        },
        None => 0,
    }
}

/// The panel's usage is counted field by field: when the sum stays within the
/// counters, its prompt, completion and total tokens are each the plain sum of
/// that counter over the responses (a response without usage adds nothing),
/// and one response alone contributes exactly the usage it reported.
pub proof fn lemma_usage_sum_fields(rs: Seq<ResponseView>, r: ResponseView)
    ensures
        usage_sum_fits(rs) ==> usage_sum(rs).prompt_tokens == rs.fold_left(
            0int,
            |acc: int, x: ResponseView| acc + reported(x, 0),
        ),
        usage_sum_fits(rs) ==> usage_sum(rs).completion_tokens == rs.fold_left(
            0int,
            |acc: int, x: ResponseView| acc + reported(x, 1),
        ),
        usage_sum_fits(rs) ==> usage_sum(rs).total_tokens == rs.fold_left(
            0int,
            |acc: int, x: ResponseView| acc + reported(x, 2),
        ),
        usage_sum(seq![r]) == match r.usage {
            Some(u) => u,
            None => no_usage(),
        },
    decreases rs.len(),
{
    let one = seq![r];
    assert(one.drop_last() =~= Seq::<ResponseView>::empty());
    assert(one.last() == r);
    assert(usage_sum(one.drop_last()) == no_usage());
    assert(usage_sum(one) == usage_add(no_usage(), r.usage));
    if let Some(u) = r.usage {
        assert(usage_add(no_usage(), r.usage) == u);
    }
    if rs.len() > 0 && usage_sum_fits(rs) {
        lemma_usage_sum_fields(rs.drop_last(), r);
    }
}

/// The survivors are exactly the members that answered, in result order:
/// the results with the failed and timed-out (`None`) members left out.
pub proof fn lemma_survivors(rs: Seq<Option<ResponseView>>)
    ensures
        survivors(rs) == rs.filter_map(|o: Option<ResponseView>| o),
    decreases rs.len(),
{
    if rs.len() > 0 {
        lemma_survivors(rs.drop_last());
        if let Some(x) = rs.last() {
            assert(survivors(rs) =~= rs.drop_last().filter_map(|o: Option<ResponseView>| o)
                + seq![x]);
        }
    }
}

/// Self-MoA samples warm up in steps of 0.2 from 0.3: each sample is 0.2
/// hotter than the one before, until the cap of 2.0, where they stay.
pub proof fn lemma_sample_temperatures(i: int)
    requires
        0 <= i,
    ensures
        sample_temperature(0) == 300_000,
        i <= 7 ==> sample_temperature(i + 1) == sample_temperature(i) + 200_000,
        i >= 9 ==> sample_temperature(i) == 2_000_000,
        300_000 <= sample_temperature(i) <= 2_000_000,
{
}

} // verus!
