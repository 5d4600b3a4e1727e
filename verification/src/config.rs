//! Typed configuration and validation.
//!
//! The router threshold is held in millionths: `0.5` is `500_000`.

use vstd::prelude::*;

use crate::error::{Error, ErrorView};
use crate::prompts::strings_view;
use crate::schema::{clone_opt, opt_view};
use crate::text::{decimal, owned, push_char, push_decimal, same_text, starts_with, has_prefix};

verus! {

/// The whole service configuration.
#[derive(Debug)]
pub struct Config {
    pub server: ServerConfig,
    pub backend: BackendConfig,
    pub profiles: Vec<Profile>,
}

/// Where and how hard the server listens.
#[derive(Debug)]
pub struct ServerConfig {
    pub bind: String,
    pub max_concurrent_requests: usize,
}

/// The one OpenAI-compatible upstream.
#[derive(Debug)]
pub struct BackendConfig {
    pub base_url: String,
    pub api_key_env: String,
    pub timeout_ms: u64,
}

/// One fusion profile, served as the model alias `fusion/<name>`.
#[derive(Debug)]
pub struct Profile {
    pub name: String,
    pub router: RouterConfig,
    pub panel: PanelConfig,
    pub aggregator: AggregatorConfig,
    pub tools: Vec<String>,
}

/// The router gate of a profile.
#[derive(Debug)]
pub struct RouterConfig {
    pub policy: String,
    pub single_model: String,
    /// The cheap model used to score query difficulty when `policy` is `"classifier"`.
    pub classifier_model: Option<String>,
    /// Fuse when the difficulty score, in millionths, is at least this value
    /// (valid range `0..=1_000_000`).
    pub threshold: i64,
}

/// The panel of a profile.
#[derive(Debug)]
pub struct PanelConfig {
    pub members: Vec<String>,
    pub self_moa: bool,
    pub samples: usize,
    pub min_quorum: usize,
    pub timeout_ms: u64,
}

/// The judge and synthesizer of a profile.
#[derive(Debug)]
pub struct AggregatorConfig {
    pub judge: String,
    pub synthesizer: String,
    /// Reserved: panel answers never carry a model identity, so they are always anonymous.
    pub anonymize_sources: bool,
    pub normalize_length: bool,
    /// Whether the judge and synthesis prompts forbid any single response from dominating.
    pub single_source_cap: bool,
    pub layers: usize,
    pub max_reference_chars: usize,
}

/// The value of a [`RouterConfig`].
pub struct RouterView {
    pub policy: Seq<char>,
    pub single_model: Seq<char>,
    pub classifier_model: Option<Seq<char>>,
    pub threshold: i64,
}

/// The value of a [`PanelConfig`].
pub struct PanelView {
    pub members: Seq<Seq<char>>,
    pub self_moa: bool,
    pub samples: usize,
    pub min_quorum: usize,
    pub timeout_ms: u64,
}

/// The value of an [`AggregatorConfig`].
pub struct AggregatorView {
    pub judge: Seq<char>,
    pub synthesizer: Seq<char>,
    pub anonymize_sources: bool,
    pub normalize_length: bool,
    pub single_source_cap: bool,
    pub layers: usize,
    pub max_reference_chars: usize,
}

/// The value of a [`Profile`].
pub struct ProfileView {
    pub name: Seq<char>,
    pub router: RouterView,
    pub panel: PanelView,
    pub aggregator: AggregatorView,
    pub tools: Seq<Seq<char>>,
}

impl View for RouterConfig {
    type V = RouterView;

    open spec fn view(&self) -> RouterView {
        RouterView {
            policy: self.policy@,
            single_model: self.single_model@,
            classifier_model: opt_view(self.classifier_model),
            threshold: self.threshold,
        }
    }
}

impl View for PanelConfig {
    type V = PanelView;

    open spec fn view(&self) -> PanelView {
        PanelView {
            members: strings_view(self.members@),
            self_moa: self.self_moa,
            samples: self.samples,
            min_quorum: self.min_quorum,
            timeout_ms: self.timeout_ms,
        }
    }
}

impl View for AggregatorConfig {
    type V = AggregatorView;

    open spec fn view(&self) -> AggregatorView {
        AggregatorView {
            judge: self.judge@,
            synthesizer: self.synthesizer@,
            anonymize_sources: self.anonymize_sources,
            normalize_length: self.normalize_length,
            single_source_cap: self.single_source_cap,
            layers: self.layers,
            max_reference_chars: self.max_reference_chars,
        }
    }
}

impl View for Profile {
    type V = ProfileView;

    open spec fn view(&self) -> ProfileView {
        ProfileView {
            name: self.name@,
            router: self.router@,
            panel: self.panel@,
            aggregator: self.aggregator@,
            tools: strings_view(self.tools@),
        }
    }
}

/// The values of a list of profiles.
pub open spec fn profiles_view(ps: Seq<Profile>) -> Seq<ProfileView> {
    ps.map_values(|p: Profile| p@)
}

/// A copy of a list of strings.
pub fn clone_strings(ss: &Vec<String>) -> (r: Vec<String>)
    ensures
        strings_view(r@) == strings_view(ss@),
{
    let mut r: Vec<String> = Vec::new();
    let mut i: usize = 0;
    while i < ss.len()
        invariant
            i <= ss.len(),
            r.len() == i,
            forall|k: int| 0 <= k < i ==> #[trigger] r@[k]@ == ss@[k]@,
        decreases ss.len() - i,
    {
        r.push(ss[i].clone());
        i = i + 1;
    }
    proof {
        assert(strings_view(r@) =~= strings_view(ss@));
    }
    r
}

impl Clone for RouterConfig {
    fn clone(&self) -> (r: Self)
        ensures
            r@ == self@,
    {
        RouterConfig {
            policy: self.policy.clone(),
            single_model: self.single_model.clone(),
            classifier_model: clone_opt(&self.classifier_model),
            threshold: self.threshold,
        }
    }
}

impl Clone for PanelConfig {
    fn clone(&self) -> (r: Self)
        ensures
            r@ == self@,
    {
        PanelConfig {
            members: clone_strings(&self.members),
            self_moa: self.self_moa,
            samples: self.samples,
            min_quorum: self.min_quorum,
            timeout_ms: self.timeout_ms,
        }
    }
}

impl Clone for AggregatorConfig {
    fn clone(&self) -> (r: Self)
        ensures
            r@ == self@,
    {
        AggregatorConfig {
            judge: self.judge.clone(),
            synthesizer: self.synthesizer.clone(),
            anonymize_sources: self.anonymize_sources,
            normalize_length: self.normalize_length,
            single_source_cap: self.single_source_cap,
            layers: self.layers,
            max_reference_chars: self.max_reference_chars,
        }
    }
}

impl Clone for Profile {
    fn clone(&self) -> (r: Self)
        ensures
            r@ == self@,
    {
        Profile {
            name: self.name.clone(),
            router: self.router.clone(),
            panel: self.panel.clone(),
            aggregator: self.aggregator.clone(),
            tools: clone_strings(&self.tools),
        }
    }
}

/// Default bound on requests served at once.
pub fn default_max_concurrent() -> (n: usize)
    ensures
        n == 64,
{
    64
}

/// Default backend timeout, in milliseconds.
pub fn default_backend_timeout_ms() -> (n: u64)
    ensures
        n == 120_000,
{
    120_000
}

/// Default per-member panel timeout, in milliseconds.
pub fn default_panel_timeout_ms() -> (n: u64)
    ensures
        n == 90_000,
{
    90_000
}

/// Default router policy: always fuse.
pub fn default_router_policy() -> (s: String)
    ensures
        s@ == "always_fuse"@,
{
    owned("always_fuse")
}

/// Default router threshold: one half, in millionths.
pub fn default_threshold() -> (t: i64)
    ensures
        t == 500_000,
{
    500_000
}

/// Default number of self-MoA samples.
pub fn default_samples() -> (n: usize)
    ensures
        n == 3,
{
    3
}

/// The default of the boolean aggregator switches.
pub fn default_true() -> (b: bool)
    ensures
        b,
{
    true
}

/// Default number of refine layers.
pub fn default_layers() -> (n: usize)
    ensures
        n == 1,
{
    1
}

/// Default cap on one reference, in characters.
pub fn default_max_reference_chars() -> (n: usize)
    ensures
        n == 8_000,
{
    8_000
}

/// The alias prefix that names a fusion profile.
pub open spec fn fusion_prefix() -> Seq<char> {
    "fusion/"@
}

/// The list holding the value of `o`, if any.
pub open spec fn opt_list(o: Option<Seq<char>>) -> Seq<Seq<char>> {
    match o {
        Some(s) => seq![s],
        None => Seq::empty(),
    }
}

/// Every model id a profile references, in the order the loop guard checks them:
/// single model, classifier model, panel members, judge, synthesizer.
pub open spec fn all_models(p: ProfileView) -> Seq<Seq<char>> {
    seq![p.router.single_model] + opt_list(p.router.classifier_model) + p.panel.members + seq![
        p.aggregator.judge,
        p.aggregator.synthesizer,
    ]
}

/// The first of `ms` that names a fusion alias.
pub open spec fn first_fusion_model(ms: Seq<Seq<char>>) -> Option<Seq<char>>
    decreases ms.len(),
{
    if ms.len() == 0 {
        None
    } else if has_prefix(ms[0], fusion_prefix()) {
        Some(ms[0])
    } else {
        first_fusion_model(ms.drop_first())
    }
}

/// `value` zero-padded (or cut) to `width` decimal digits.
pub open spec fn padded(value: nat, width: nat) -> Seq<char>
    decreases width,
{
    if width == 0 {
        Seq::empty()
    } else {
        padded(value / 10, (width - 1) as nat).push(crate::text::digit_char((value % 10) as int))
    }
}

/// The digits of a fraction of `width` places, with trailing zeros dropped.
pub open spec fn significant(value: nat, width: nat) -> Seq<char>
    decreases width,
{
    if width > 0 && value % 10 == 0 {
        significant(value / 10, (width - 1) as nat)
    } else {
        padded(value, width)
    }
}

/// A value in millionths written as a decimal number, the way a float prints:
/// `1_500_000` is `1.5`, `2_000_000` is `2`, `-250_000` is `-0.25`.
pub open spec fn millionths_text(t: int) -> Seq<char> {
    let a = if t < 0 {
        -t
    } else {
        t
    };
    let sign = if t < 0 {
        "-"@
    } else {
        Seq::empty()
    };
    let whole = decimal((a / 1_000_000) as nat);
    let frac = (a % 1_000_000) as nat;
    if frac == 0 {
        sign + whole
    } else {
        sign + whole + "."@ + significant(frac, 6)
    }
}

/// The message prefix that names a profile.
pub open spec fn about(p: ProfileView) -> Seq<char> {
    "profile "@ + p.name + ": "@
}

/// What is wrong with the router policy of `p`, if anything.
pub open spec fn policy_problem(p: ProfileView) -> Option<Seq<char>> {
    if p.router.policy == "always_fuse"@ {
        None
    } else if p.router.policy == "classifier"@ {
        if p.router.classifier_model is None {
            Some(about(p) + "classifier policy requires router.classifier_model"@)
        } else {
            None
        }
    } else {
        Some(about(p) + "unknown router policy "@ + p.router.policy)
    }
}

/// What is wrong with profile `p`, given the names of the profiles before it.
/// Checks run in a fixed order and the first failing one is reported.
pub open spec fn profile_problem(p: ProfileView, earlier: Seq<Seq<char>>) -> Option<Seq<char>> {
    let n = p.panel.members.len();
    let q = p.panel.min_quorum;
    if earlier.contains(p.name) {
        Some("duplicate profile name: "@ + p.name)
    } else if first_fusion_model(all_models(p)) is Some {
        Some(about(p) + "model "@ + first_fusion_model(all_models(p))->0
            + " references a fusion alias (loop)"@)
    } else if n == 0 {
        Some(about(p) + "empty panel"@)
    } else if q < 1 || q > n {
        Some(about(p) + "min_quorum "@ + decimal(q as nat) + " out of range 1..="@ + decimal(n))
    } else if p.aggregator.layers != 1 {
        Some(about(p) + "multi-layer is not implemented yet (layers must be 1)"@)
    } else if policy_problem(p) is Some {
        policy_problem(p)
    } else if p.router.threshold < 0 || p.router.threshold > 1_000_000 {
        Some(about(p) + "router.threshold "@ + millionths_text(p.router.threshold as int)
            + " out of range 0.0..=1.0"@)
    } else {
        None
    }
}

/// The names of a list of profiles.
pub open spec fn names(ps: Seq<ProfileView>) -> Seq<Seq<char>> {
    ps.map_values(|p: ProfileView| p.name)
}

/// The first problem among `ps[from..]`, each checked against the names before it.
pub open spec fn problem_from(ps: Seq<ProfileView>, from: int) -> Option<Seq<char>>
    decreases ps.len() - from,
{
    if from < 0 || from >= ps.len() {
        None
    } else if profile_problem(ps[from], names(ps.take(from))) is Some {
        profile_problem(ps[from], names(ps.take(from)))
    } else {
        problem_from(ps, from + 1)
    }
}

/// The outcome of validating a list of profiles.
pub open spec fn validation(ps: Seq<ProfileView>) -> Result<(), ErrorView> {
    match problem_from(ps, 0) {
        Some(msg) => Err(ErrorView::Config(msg)),
        None => Ok(()),
    }
}

/// Index of the first profile at or after `i` named `name`.
pub open spec fn find_profile(ps: Seq<ProfileView>, name: Seq<char>, i: int) -> Option<int>
    decreases ps.len() - i,
{
    if i < 0 || i >= ps.len() {
        None
    } else if ps[i].name == name {
        Some(i)
    } else {
        find_profile(ps, name, i + 1)
    }
}

/// Appends `value` zero-padded to `width` digits.
fn push_padded(out: &mut String, value: u64, width: u64)
    ensures
        final(out)@ == old(out)@ + padded(value as nat, width as nat),
    decreases width,
{
    if width > 0 {
        push_padded(out, value / 10, width - 1);
        let c: char = (48u8 + (value % 10) as u8) as char;
        push_char(out, c);
        proof {
            assert(old(out)@ + padded(value as nat, width as nat) =~= (old(out)@ + padded(
                (value / 10) as nat,
                (width - 1) as nat,
            )).push(c));
        }
    } else {
        proof {
            assert(old(out)@ + padded(value as nat, width as nat) =~= old(out)@);
        }
    }
}

/// Appends the fraction digits of `value` over `width` places, trailing zeros dropped.
fn push_significant(out: &mut String, value: u64, width: u64)
    ensures
        final(out)@ == old(out)@ + significant(value as nat, width as nat),
    decreases width,
{
    if width > 0 && value % 10 == 0 {
        push_significant(out, value / 10, width - 1);
    } else {
        push_padded(out, value, width);
    }
}

/// Appends a value in millionths written as a decimal number.
fn push_millionths(out: &mut String, t: i64)
    ensures
        final(out)@ == old(out)@ + millionths_text(t as int),
{
    let a: u64 = if t < 0 {
        (0i128 - t as i128) as u64
    } else {
        t as u64
    };
    let ghost start = out@;
    if t < 0 {
        out.append("-");
    }
    push_decimal(out, a / 1_000_000);
    let frac = a % 1_000_000;
    if frac != 0 {
        out.append(".");
        push_significant(out, frac, 6);
    }
    proof {
        assert(final(out)@ =~= start + millionths_text(t as int));
    }
}

/// Appends `"profile {name}: "`.
fn push_about(out: &mut String, p: &Profile)
    ensures
        final(out)@ == old(out)@ + about(p@),
{
    let ghost start = out@;
    out.append("profile ");
    out.append(p.name.as_str());
    out.append(": ");
    proof {
        assert(final(out)@ =~= start + about(p@));
    }
}

impl Profile {
    /// Every model id referenced by this profile, for the loop guard.
    pub fn all_models(&self) -> (ms: Vec<String>)
        ensures
            strings_view(ms@) == all_models(self@),
    {
        let mut ms: Vec<String> = Vec::new();
        ms.push(self.router.single_model.clone());
        if let Some(m) = &self.router.classifier_model {
            ms.push(m.clone());
        }
        let mut i: usize = 0;
        let ghost head = strings_view(ms@);
        while i < self.panel.members.len()
            invariant
                i <= self.panel.members.len(),
                strings_view(ms@) == head + strings_view(self.panel.members@.take(i as int)),
            decreases self.panel.members.len() - i,
        {
            let ghost before = ms@;
            ms.push(self.panel.members[i].clone());
            i = i + 1;
            proof {
                assert(strings_view(ms@) =~= strings_view(before).push(
                    self.panel.members@[i - 1]@,
                ));
                assert(strings_view(self.panel.members@.take(i as int)) =~= strings_view(
                    self.panel.members@.take(i - 1),
                ).push(self.panel.members@[i - 1]@));
                assert(strings_view(ms@) =~= head + strings_view(
                    self.panel.members@.take(i as int),
                ));
            }
        }
        ms.push(self.aggregator.judge.clone());
        ms.push(self.aggregator.synthesizer.clone());
        proof {
            assert(self.panel.members@.take(i as int) =~= self.panel.members@);
            assert(head =~= seq![self.router.single_model@] + opt_list(
                opt_view(self.router.classifier_model),
            ));
            assert(strings_view(ms@) =~= all_models(self@));
        }
        ms
    }

    /// The first model of this profile that names a fusion alias.
    fn fusion_model(&self) -> (m: Option<String>)
        ensures
            opt_view(m) == first_fusion_model(all_models(self@)),
    {
        let ms = self.all_models();
        let ghost all = strings_view(ms@);
        let mut k: usize = 0;
        proof {
            assert(all.skip(0) =~= all);
        }
        while k < ms.len()
            invariant
                all == strings_view(ms@),
                all == all_models(self@),
                k <= ms.len(),
                first_fusion_model(all) == first_fusion_model(all.skip(k as int)),
            decreases ms.len() - k,
        {
            proof {
                assert(all.skip(k as int).drop_first() =~= all.skip(k + 1));
                assert(all.skip(k as int)[0] == ms@[k as int]@);
            }
            if starts_with(ms[k].as_str(), "fusion/") {
                return Some(ms[k].clone());
            }
            k = k + 1;
        }
        proof {
            assert(all.skip(k as int) =~= Seq::<Seq<char>>::empty());
        }
        None
    }

    /// What is wrong with this profile's router policy, if anything.
    fn policy_problem(&self) -> (m: Option<String>)
        ensures
            opt_view(m) == policy_problem(self@),
    {
        if same_text(self.router.policy.as_str(), "always_fuse") {
            return None;
        }
        let mut out = String::new();
        push_about(&mut out, self);
        if same_text(self.router.policy.as_str(), "classifier") {
            if self.router.classifier_model.is_none() {
                out.append("classifier policy requires router.classifier_model");
                return Some(out);
            }
            return None;
        }
        out.append("unknown router policy ");
        out.append(self.router.policy.as_str());
        Some(out)
    }
}

/// What is wrong with `ps[i]`, given the profiles before it.
fn profile_problem_at(ps: &Vec<Profile>, i: usize) -> (m: Option<String>)
    requires
        i < ps.len(),
    ensures
        opt_view(m) == profile_problem(ps@[i as int]@, names(profiles_view(ps@).take(i as int))),
{
    let p = &ps[i];
    let ghost earlier = names(profiles_view(ps@).take(i as int));
    let mut j: usize = 0;
    while j < i
        invariant
            i < ps.len(),
            j <= i,
            earlier == names(profiles_view(ps@).take(i as int)),
            p@ == ps@[i as int]@,
            forall|k: int| 0 <= k < j ==> ps@[k]@.name != p@.name,
        decreases i - j,
    {
        if same_text(ps[j].name.as_str(), p.name.as_str()) {
            proof {
                assert(earlier[j as int] == p@.name);
            }
            let mut out = String::new();
            out.append("duplicate profile name: ");
            out.append(p.name.as_str());
            proof {
                assert(out@ =~= "duplicate profile name: "@ + p@.name);
                assert(earlier.contains(p@.name));
                assert(p@ == ps@[i as int]@);
                assert(profile_problem(ps@[i as int]@, earlier) == Some(
                    "duplicate profile name: "@ + p@.name,
                ));
            }
            return Some(out);
        }
        j = j + 1;
    }
    proof {
        assert forall|k: int| 0 <= k < earlier.len() implies earlier[k] != p@.name by {
            assert(earlier[k] == ps@[k]@.name);
        }
        assert(!earlier.contains(p@.name));
    }
    if let Some(m) = p.fusion_model() {
        let mut out = String::new();
        push_about(&mut out, p);
        out.append("model ");
        out.append(m.as_str());
        out.append(" references a fusion alias (loop)");
        return Some(out);
    }
    let n = p.panel.members.len();
    if n == 0 {
        let mut out = String::new();
        push_about(&mut out, p);
        out.append("empty panel");
        return Some(out);
    }
    if p.panel.min_quorum < 1 || p.panel.min_quorum > n {
        let mut out = String::new();
        push_about(&mut out, p);
        out.append("min_quorum ");
        push_decimal(&mut out, p.panel.min_quorum as u64);
        out.append(" out of range 1..=");
        push_decimal(&mut out, n as u64);
        return Some(out);
    }
    if p.aggregator.layers != 1 {
        let mut out = String::new();
        push_about(&mut out, p);
        out.append("multi-layer is not implemented yet (layers must be 1)");
        return Some(out);
    }
    let policy = p.policy_problem();
    if policy.is_some() {
        return policy;
    }
    if p.router.threshold < 0 || p.router.threshold > 1_000_000 {
        let mut out = String::new();
        push_about(&mut out, p);
        out.append("router.threshold ");
        push_millionths(&mut out, p.router.threshold);
        out.append(" out of range 0.0..=1.0");
        return Some(out);
    }
    None
}

impl Config {
    /// Validate every profile: loop guard, quorum bounds, unique names, single layer,
    /// router policy and threshold.
    pub fn validate(&self) -> (r: Result<(), Error>)
        ensures
            match r {
                Ok(()) => validation(profiles_view(self.profiles@)) is Ok,
                Err(e) => validation(profiles_view(self.profiles@)) == Err::<(), ErrorView>(e@),
            },
    {
        let ghost ps = profiles_view(self.profiles@);
        let mut i: usize = 0;
        while i < self.profiles.len()
            invariant
                ps == profiles_view(self.profiles@),
                i <= self.profiles.len(),
                problem_from(ps, 0) == problem_from(ps, i as int),
            decreases self.profiles.len() - i,
        {
            let problem = profile_problem_at(&self.profiles, i);
            proof {
                assert(ps[i as int] == self.profiles@[i as int]@);
            }
            if let Some(msg) = problem {
                return Err(Error::Config(msg));
            }
            i = i + 1;
        }
        Ok(())
    }

    /// Look up a profile by name.
    pub fn profile(&self, name: &str) -> (r: Option<&Profile>)
        ensures
            match find_profile(profiles_view(self.profiles@), name@, 0) {
                Some(i) => r is Some && r->0@ == self.profiles@[i]@,
                None => r is None,
            },
    {
        let ghost ps = profiles_view(self.profiles@);
        let mut i: usize = 0;
        while i < self.profiles.len()
            invariant
                ps == profiles_view(self.profiles@),
                i <= self.profiles.len(),
                find_profile(ps, name@, 0) == find_profile(ps, name@, i as int),
            decreases self.profiles.len() - i,
        {
            proof {
                assert(ps[i as int] == self.profiles@[i as int]@);
            }
            if same_text(self.profiles[i].name.as_str(), name) {
                return Some(&self.profiles[i]);
            }
            i = i + 1;
        }
        None
    }
}

/// A profile that passes every per-profile check: no model slot names a
/// fusion alias, the panel is non-empty, the quorum is within `1..=members`,
/// a single layer, a known router policy (the classifier with its model), and
/// a threshold within `0..=1_000_000` millionths.
pub open spec fn profile_sound(p: ProfileView) -> bool {
    &&& forall|k: int|
        0 <= k < all_models(p).len() ==> !has_prefix(#[trigger] all_models(p)[k], fusion_prefix())
    &&& p.panel.members.len() > 0
    &&& 1 <= p.panel.min_quorum <= p.panel.members.len()
    &&& p.aggregator.layers == 1
    &&& (p.router.policy == "always_fuse"@ || (p.router.policy == "classifier"@
        && p.router.classifier_model is Some))
    &&& 0 <= p.router.threshold <= 1_000_000
}

proof fn lemma_first_fusion_model(ms: Seq<Seq<char>>)
    ensures
        first_fusion_model(ms) is None <==> forall|k: int|
            0 <= k < ms.len() ==> !has_prefix(#[trigger] ms[k], fusion_prefix()),
    decreases ms.len(),
{
    if ms.len() > 0 {
        lemma_first_fusion_model(ms.drop_first());
        if first_fusion_model(ms) is None {
            assert forall|k: int| 0 <= k < ms.len() implies !has_prefix(
                #[trigger] ms[k],
                fusion_prefix(),
            ) by {
                if k > 0 {
                    assert(ms[k] == ms.drop_first()[k - 1]);
                }
            }
        } else if forall|k: int| 0 <= k < ms.len() ==> !has_prefix(#[trigger] ms[k], fusion_prefix()) {
            assert(!has_prefix(ms[0], fusion_prefix()));
            assert forall|k: int| 0 <= k < ms.drop_first().len() implies !has_prefix(
                #[trigger] ms.drop_first()[k],
                fusion_prefix(),
            ) by {
                assert(ms.drop_first()[k] == ms[k + 1]);
            }
        }
    }
}

proof fn lemma_profile_problem(p: ProfileView, earlier: Seq<Seq<char>>)
    ensures
        profile_problem(p, earlier) is None <==> !earlier.contains(p.name) && profile_sound(p),
{
    lemma_first_fusion_model(all_models(p));
}

proof fn lemma_problem_from(ps: Seq<ProfileView>, from: int)
    requires
        0 <= from <= ps.len(),
    ensures
        problem_from(ps, from) is None <==> forall|i: int|
            from <= i < ps.len() ==> #[trigger] profile_problem(ps[i], names(ps.take(i))) is None,
    decreases ps.len() - from,
{
    if from < ps.len() {
        lemma_problem_from(ps, from + 1);
    }
}

/// The loop guard and the other configuration rules: a list of profiles
/// validates exactly when every profile is sound and no two profiles share a
/// name. In particular no model slot of a validated configuration references
/// a `fusion/` alias, so the gateway cannot call itself.
pub proof fn lemma_validation_sound(ps: Seq<ProfileView>)
    ensures
        validation(ps) is Ok <==> (forall|i: int| 0 <= i < ps.len() ==> profile_sound(#[trigger] ps[i]))
            && (forall|i: int, j: int|
            0 <= i < j < ps.len() ==> #[trigger] ps[i].name != #[trigger] ps[j].name),
{
    lemma_problem_from(ps, 0);
    assert forall|i: int| 0 <= i < ps.len() implies (profile_problem(ps[i], names(ps.take(i))) is None
        <==> (profile_sound(ps[i]) && forall|j: int| 0 <= j < i ==> ps[j].name != ps[i].name)) by {
        lemma_profile_problem(ps[i], names(ps.take(i)));
        if names(ps.take(i)).contains(ps[i].name) {
            let k = choose|k: int| 0 <= k < names(ps.take(i)).len() && names(ps.take(i))[k] == ps[i].name;
            assert(ps[k].name == ps[i].name);
        } else {
            assert forall|j: int| 0 <= j < i implies ps[j].name != ps[i].name by {
                assert(names(ps.take(i))[j] == ps[j].name);
            }
        }
    }
    if validation(ps) is Ok {
        assert forall|i: int, j: int| 0 <= i < j < ps.len() implies #[trigger] ps[i].name
            != #[trigger] ps[j].name by {
            assert(profile_problem(ps[j], names(ps.take(j))) is None);
        }
    }
    if (forall|i: int| 0 <= i < ps.len() ==> profile_sound(#[trigger] ps[i])) && (forall|i: int, j: int|
        0 <= i < j < ps.len() ==> #[trigger] ps[i].name != #[trigger] ps[j].name) {
        assert forall|i: int| 0 <= i < ps.len() implies #[trigger] profile_problem(
            ps[i],
            names(ps.take(i)),
        ) is None by {
            assert(profile_sound(ps[i]));
            assert forall|j: int| 0 <= j < i implies ps[j].name != ps[i].name by {
                assert(ps[j].name != ps[i].name);
            }
        }
    }
}

/// A found profile is in range and carries the name searched for.
pub proof fn lemma_find_profile(ps: Seq<ProfileView>, name: Seq<char>, from: int)
    requires
        0 <= from,
    ensures
        find_profile(ps, name, from) matches Some(i) ==> 0 <= from <= i < ps.len() && ps[i].name
            == name,
        find_profile(ps, name, from) is None ==> forall|j: int|
            from <= j < ps.len() ==> #[trigger] ps[j].name != name,
    decreases ps.len() - from,
{
    if from < ps.len() {
        lemma_find_profile(ps, name, from + 1);
    }
}

} // verus!
