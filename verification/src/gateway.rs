//! The decisions of the OpenAI-compatible HTTP surface: model aliases, profile
//! lookup, error statuses, the upstream URL, and the content of a streamed answer.

use vstd::prelude::*;

use crate::config::{find_profile, lemma_find_profile, lemma_validation_sound, profiles_view, validation, Config, Profile, ProfileView};
use crate::error::{error_message, Error, ErrorView};
use crate::pipeline::{alias_of, fusion_alias};
use crate::prompts::strings_view;
use crate::schema::{first_content, ChatCompletionResponse};
use crate::text::{chars_of, has_prefix, owned, starts_with, string_from};

verus! {

/// The profile name an alias names: `fusion/<name>` gives `<name>`.
pub open spec fn alias_target(model: Seq<char>) -> Result<Seq<char>, ErrorView> {
    if has_prefix(model, "fusion/"@) {
        Ok(model.skip(7))
    } else {
        Err(ErrorView::InvalidModel(model))
    }
}

/// Resolve the profile name from a `fusion/<name>` model alias.
pub fn profile_name(model: &str) -> (r: Result<String, Error>)
    ensures
        match (r, alias_target(model@)) {
            (Ok(name), Ok(n)) => name@ == n,
            (Err(e), Err(v)) => e@ == v,
            _ => false,
        },
{
    proof {
        reveal_strlit("fusion/");
    }
    if starts_with(model, "fusion/") {
        let cs = chars_of(model);
        Ok(string_from(&cs, 7, cs.len()))
    } else {
        Err(Error::InvalidModel(owned(model)))
    }
}

/// The profile a request's model alias selects.
pub open spec fn resolved_profile(ps: Seq<ProfileView>, model: Seq<char>) -> Result<ProfileView, ErrorView> {
    match alias_target(model) {
        Err(e) => Err(e),
        Ok(name) => match find_profile(ps, name, 0) {
            Some(i) => Ok(ps[i]),
            None => Err(ErrorView::UnknownProfile(name)),
        },
    }
}

/// Find the profile that a request's `fusion/<name>` model alias selects.
pub fn resolve_profile(config: &Config, model: &str) -> (r: Result<Profile, Error>)
    ensures
        match (r, resolved_profile(profiles_view(config.profiles@), model@)) {
            (Ok(p), Ok(v)) => p@ == v,
            (Err(e), Err(v)) => e@ == v,
            _ => false,
        },
{
    let name = match profile_name(model) {
        Ok(n) => n,
        Err(e) => return Err(e),
    };
    match config.profile(name.as_str()) {
        Some(p) => {
            proof {
                let ps = profiles_view(config.profiles@);
                lemma_find_profile(ps, name@, 0);
                let i = find_profile(ps, name@, 0)->0;
                assert(ps[i] == config.profiles@[i]@);
            }
            Ok(p.clone())
        },
        None => Err(Error::UnknownProfile(name)),
    }
}

/// The model ids the gateway advertises: one `fusion/<name>` per profile.
pub open spec fn advertised(ps: Seq<ProfileView>) -> Seq<Seq<char>> {
    ps.map_values(|p: ProfileView| alias_of(p.name))
}

/// The advertised model ids, in profile order.
pub fn model_ids(config: &Config) -> (ids: Vec<String>)
    ensures
        strings_view(ids@) == advertised(profiles_view(config.profiles@)),
{
    let mut ids: Vec<String> = Vec::new();
    let mut i: usize = 0;
    while i < config.profiles.len()
        invariant
            i <= config.profiles.len(),
            ids.len() == i,
            forall|k: int|
                0 <= k < i ==> #[trigger] ids@[k]@ == alias_of(config.profiles@[k]@.name),
        decreases config.profiles.len() - i,
    {
        ids.push(fusion_alias(config.profiles[i].name.as_str()));
        i = i + 1;
    }
    proof {
        assert(strings_view(ids@) =~= advertised(profiles_view(config.profiles@)));
    }
    ids
}

/// Every model a validated configuration advertises resolves back to its own
/// profile: the alias `fusion/<name>` names `<name>`, and names are unique.
pub proof fn lemma_advertised_models_resolve(ps: Seq<ProfileView>)
    requires
        validation(ps) is Ok,
    ensures
        forall|i: int|
            0 <= i < ps.len() ==> resolved_profile(ps, #[trigger] advertised(ps)[i]) == Ok::<
                ProfileView,
                ErrorView,
            >(ps[i]),
{
    lemma_validation_sound(ps);
    assert forall|i: int| 0 <= i < ps.len() implies resolved_profile(
        ps,
        #[trigger] advertised(ps)[i],
    ) == Ok::<ProfileView, ErrorView>(ps[i]) by {
        lemma_alias_target(ps[i].name);
        lemma_find_first(ps, ps[i].name, 0, i);
    }
}

/// The alias of a name resolves to that name.
pub proof fn lemma_alias_target(name: Seq<char>)
    ensures
        alias_target(alias_of(name)) == Ok::<Seq<char>, ErrorView>(name),
{
    reveal_strlit("fusion/");
    assert(alias_of(name).take(7) =~= "fusion/"@);
    assert(alias_of(name).skip(7) =~= name);
}

/// With unique names, the search from `from` finds the profile named like `ps[i]` at `i`.
proof fn lemma_find_first(ps: Seq<ProfileView>, name: Seq<char>, from: int, i: int)
    requires
        0 <= from <= i < ps.len(),
        ps[i].name == name,
        forall|j: int, k: int| 0 <= j < k < ps.len() ==> #[trigger] ps[j].name != #[trigger] ps[k].name,
    ensures
        find_profile(ps, name, from) == Some(i),
    decreases i - from,
{
    if from < i {
        assert(ps[from].name != ps[i].name);
        lemma_find_first(ps, name, from + 1, i);
    }
}

/// A core error as the HTTP surface reports it.
#[derive(Debug)]
pub struct ApiError(pub Error);

/// The HTTP status of an error.
pub open spec fn status_of(e: ErrorView) -> u16 {
    match e {
        ErrorView::UnknownProfile(_) | ErrorView::InvalidModel(_) => 404,
        ErrorView::Config(_) => 400,
        ErrorView::Quorum { .. } | ErrorView::Backend(_) | ErrorView::Synthesis(_) => 502,
        ErrorView::Timeout => 504,
    }
}

/// The OpenAI error type of an error.
pub open spec fn kind_of(e: ErrorView) -> Seq<char> {
    match e {
        ErrorView::UnknownProfile(_) | ErrorView::InvalidModel(_) | ErrorView::Config(_) => "invalid_request_error"@,
        ErrorView::Quorum { .. } | ErrorView::Backend(_) | ErrorView::Synthesis(_) => "upstream_error"@,
        ErrorView::Timeout => "timeout"@,
    }
}

impl ApiError {
    /// The HTTP status code: 404 for an unknown profile or alias, 400 for a
    /// configuration error, 502 for upstream failures, 504 for a timeout.
    pub fn status(&self) -> (s: u16)
        ensures
            s == status_of(self.0@),
    {
        match &self.0 {
            Error::UnknownProfile(_) | Error::InvalidModel(_) => 404,
            Error::Config(_) => 400,
            Error::Quorum { .. } | Error::Backend(_) | Error::Synthesis(_) => 502,
            Error::Timeout => 504,
        }
    }

    /// The OpenAI error `type` field.
    pub fn kind(&self) -> (k: &'static str)
        ensures
            k@ == kind_of(self.0@),
    {
        match &self.0 {
            Error::UnknownProfile(_) | Error::InvalidModel(_) | Error::Config(_) => "invalid_request_error",
            Error::Quorum { .. } | Error::Backend(_) | Error::Synthesis(_) => "upstream_error",
            Error::Timeout => "timeout",
        }
    }

    /// The OpenAI error `message` field.
    pub fn message(&self) -> (m: String)
        ensures
            m@ == error_message(self.0@),
    {
        self.0.message()
    }
}

/// `s` without its trailing `/` characters.
pub open spec fn trim_slashes(s: Seq<char>) -> Seq<char>
    decreases s.len(),
{
    if s.len() > 0 && s.last() == '/' {
        trim_slashes(s.drop_last())
    } else {
        s
    }
}

/// The chat-completions endpoint under an upstream base URL.
pub open spec fn endpoint_of(base: Seq<char>) -> Seq<char> {
    trim_slashes(base) + "/chat/completions"@
}

/// `base_url` is the full prefix including any version segment, for example
/// `http://localhost:8000/v1`; requests go to `{base_url}/chat/completions`,
/// whatever trailing slashes `base_url` has.
pub fn completions_url(base_url: &str) -> (u: String)
    ensures
        u@ == endpoint_of(base_url@),
{
    let cs = chars_of(base_url);
    let mut k = cs.len();
    proof {
        assert(cs@.take(k as int) =~= cs@);
    }
    while k > 0 && cs[k - 1] == '/'
        invariant
            cs@ == base_url@,
            k <= cs.len(),
            trim_slashes(cs@) == trim_slashes(cs@.take(k as int)),
        decreases k,
    {
        proof {
            assert(cs@.take(k as int).drop_last() =~= cs@.take(k - 1));
        }
        k = k - 1;
    }
    let mut u = string_from(&cs, 0, k);
    u.append("/chat/completions");
    proof {
        assert(cs@.subrange(0, k as int) =~= cs@.take(k as int));
    }
    u
}

/// The error for a non-success upstream status: `status` is the status line
/// (code and reason), `body` the upstream's response text.
pub fn upstream_error(status: &str, body: &str) -> (e: Error)
    ensures
        e@ == ErrorView::Backend("upstream "@ + status@ + ": "@ + body@),
{
    let mut m = String::new();
    m.append("upstream ");
    m.append(status);
    m.append(": ");
    m.append(body);
    proof {
        assert(m@ =~= "upstream "@ + status@ + ": "@ + body@);
    }
    Error::Backend(m)
}

/// The error for an upstream body that does not decode.
pub fn decode_error(detail: &str) -> (e: Error)
    ensures
        e@ == ErrorView::Backend("decode: "@ + detail@),
{
    let mut m = String::new();
    m.append("decode: ");
    m.append(detail);
    Error::Backend(m)
}

/// What one streamed answer carries.
#[derive(Debug)]
pub enum StreamEvent {
    /// One `chat.completion.chunk` with the whole answer.
    Chunk { id: String, created: u64, model: String, content: String },
    /// An `upstream_error` with this message.
    Failure { message: String },
}

/// The streamed event for a pipeline outcome: the answer under the fusion
/// alias, or the error's message.
pub fn stream_event(alias: &str, result: &Result<ChatCompletionResponse, Error>) -> (ev: StreamEvent)
    ensures
        match (ev, result) {
            (StreamEvent::Chunk { id, created, model, content }, Ok(resp)) => id@ == resp.id@
                && created == resp.created && model@ == alias@ && content@ == first_content(resp@),
            (StreamEvent::Failure { message }, Err(e)) => message@ == error_message(e@),
            _ => false,
        },
{
    match result {
        Ok(resp) => StreamEvent::Chunk {
            id: resp.id.clone(),
            created: resp.created,
            model: owned(alias),
            content: owned(resp.first_content()),
        },
        Err(e) => StreamEvent::Failure { message: e.message() },
    }
}

/// The endpoint is the base URL with `/chat/completions` appended: a base
/// without a trailing `/` gets it appended as is, and trailing slashes on the
/// base do not change the endpoint.
pub proof fn lemma_endpoint(base: Seq<char>)
    ensures
        (base.len() == 0 || base.last() != '/') ==> endpoint_of(base) == base
            + "/chat/completions"@,
        endpoint_of(base.push('/')) == endpoint_of(base),
{
    assert(base.push('/').drop_last() =~= base);
}

/// Errors split cleanly for clients: the caller's mistakes (an unknown
/// profile or alias, a bad configuration) are 4xx `invalid_request_error`s,
/// upstream failures are 502 `upstream_error`s and a timeout is a 504; and an
/// error's message names what went wrong, ending with its detail text, so two
/// errors of one kind with different details read differently.
pub proof fn lemma_error_surface(e: ErrorView, s: Seq<char>, t: Seq<char>)
    ensures
        (400 <= status_of(e) < 500) <==> kind_of(e) == "invalid_request_error"@,
        status_of(e) == 502 <==> kind_of(e) == "upstream_error"@,
        status_of(e) == 504 <==> e is Timeout,
        error_message(ErrorView::Backend(s)) == "backend request failed: "@ + s,
        error_message(ErrorView::Synthesis(s)) == "synthesis failed: "@ + s,
        error_message(ErrorView::UnknownProfile(s)) == "unknown profile: "@ + s,
        error_message(ErrorView::InvalidModel(s)) == "invalid model alias: "@ + s,
        error_message(ErrorView::Config(s)) == "config error: "@ + s,
        s != t ==> error_message(ErrorView::Backend(s)) != error_message(ErrorView::Backend(t)),
        s != t ==> error_message(ErrorView::Synthesis(s)) != error_message(
            ErrorView::Synthesis(t),
        ),
{
    reveal_strlit("invalid_request_error");
    reveal_strlit("upstream_error");
    reveal_strlit("timeout");
    assert("invalid_request_error"@.len() == 21);
    assert("upstream_error"@.len() == 14);
    assert("timeout"@.len() == 7);
    if s != t {
        let b = "backend request failed: "@;
        assert((b + s).skip(b.len() as int) =~= s);
        assert((b + t).skip(b.len() as int) =~= t);
        let y = "synthesis failed: "@;
        assert((y + s).skip(y.len() as int) =~= s);
        assert((y + t).skip(y.len() as int) =~= t);
    }
}

} // verus!
