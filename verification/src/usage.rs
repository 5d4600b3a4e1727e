//! Aggregate token usage across pipeline stages.

use vstd::prelude::*;

use crate::schema::Usage;

verus! {

/// The zero usage.
pub open spec fn no_usage() -> Usage {
    Usage { prompt_tokens: 0, completion_tokens: 0, total_tokens: 0 }
}

/// Adding `b` to `a` stays within the `u32` counters.
pub open spec fn usage_fits(a: Usage, b: Usage) -> bool {
    &&& a.prompt_tokens + b.prompt_tokens <= u32::MAX
    &&& a.completion_tokens + b.completion_tokens <= u32::MAX
    &&& a.total_tokens + b.total_tokens <= u32::MAX
}

/// The field-wise sum of two usages.
pub open spec fn usage_plus(a: Usage, b: Usage) -> Usage {
    Usage {
        prompt_tokens: (a.prompt_tokens + b.prompt_tokens) as u32,
        completion_tokens: (a.completion_tokens + b.completion_tokens) as u32,
        total_tokens: (a.total_tokens + b.total_tokens) as u32,
    }
}

/// `a` plus `u` when `u` is present, else `a`.
pub open spec fn usage_add(a: Usage, u: Option<Usage>) -> Usage {
    match u {
        Some(b) => usage_plus(a, b),
        None => a,
    }
}

/// Adding `u` to `a`, if present, stays within the counters.
pub open spec fn usage_add_fits(a: Usage, u: Option<Usage>) -> bool {
    match u {
        Some(b) => usage_fits(a, b),
        None => true,
    }
}

/// Accumulates [`Usage`] across multiple pipeline stages, skipping absent values.
#[derive(Debug, Clone)]
pub struct UsageAccumulator {
    total: Usage,
}

impl View for UsageAccumulator {
    type V = Usage;

    closed spec fn view(&self) -> Usage {
        self.total
    }
}

impl Default for UsageAccumulator {
    fn default() -> (acc: Self)
        ensures
            acc@ == no_usage(),
    {
        UsageAccumulator { total: Usage { prompt_tokens: 0, completion_tokens: 0, total_tokens: 0 } }
    }
}

impl UsageAccumulator {
    /// Add a usage value to the accumulator. `None` is silently skipped.
    pub fn add(&mut self, u: Option<&Usage>)
        requires
            match u {
                Some(x) => usage_fits(old(self)@, *x),
                None => true,
            },
        ensures
            final(self)@ == match u {
                Some(x) => usage_plus(old(self)@, *x),
                None => old(self)@,
            },
    {
        if let Some(u) = u {
            self.total.prompt_tokens = self.total.prompt_tokens + u.prompt_tokens;
            self.total.completion_tokens = self.total.completion_tokens + u.completion_tokens;
            self.total.total_tokens = self.total.total_tokens + u.total_tokens;
        }
    }

    /// An accumulator that starts from `u`.
    pub fn from_usage(u: Usage) -> (acc: Self)
        ensures
            acc@ == u,
    {
        UsageAccumulator { total: u }
    }

    /// Consume the accumulator and return the aggregated [`Usage`].
    pub fn into_usage(self) -> (u: Usage)
        ensures
            u == self@,
    {
        self.total
    }
}

/// Adding usages is order-independent: two stages reported in either order
/// give the same total.
pub proof fn lemma_usage_add_commutes(a: Usage, x: Usage, y: Usage)
    requires
        usage_fits(a, x),
        usage_fits(usage_plus(a, x), y),
    ensures
        usage_fits(a, y),
        usage_fits(usage_plus(a, y), x),
        usage_plus(usage_plus(a, x), y) == usage_plus(usage_plus(a, y), x),
{
}

/// Absent usage is neutral and the zero usage is the starting point: adding
/// one reported usage to a fresh accumulator gives exactly that usage.
pub proof fn lemma_usage_add_neutral(a: Usage, x: Usage)
    ensures
        usage_add(a, None) == a,
        usage_fits(no_usage(), x),
        usage_plus(no_usage(), x) == x,
{
}

/// Usage adds counter by counter: when the sum fits, each of the prompt,
/// completion and total tokens of `a` plus `b` is the sum of that counter, and
/// adding an absent usage changes nothing.
pub proof fn lemma_usage_plus_fields(a: Usage, b: Usage)
    ensures
        usage_fits(a, b) ==> usage_add(a, Some(b)).prompt_tokens == a.prompt_tokens + b.prompt_tokens,
        usage_fits(a, b) ==> usage_add(a, Some(b)).completion_tokens == a.completion_tokens
            + b.completion_tokens,
        usage_fits(a, b) ==> usage_add(a, Some(b)).total_tokens == a.total_tokens + b.total_tokens,
        usage_add(a, None) == a,
        no_usage().prompt_tokens == 0 && no_usage().completion_tokens == 0
            && no_usage().total_tokens == 0,
{
}

} // verus!
