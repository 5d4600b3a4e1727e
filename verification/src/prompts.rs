//! Reference formatting and prompt builders, with the aggregator hardening baked in.

use vstd::prelude::*;

use crate::schema::{messages_view, ChatMessage, MessageView};
use crate::text::{base_ten, chars_of, push_char, string_from, trim_end, trim_end_len};

verus! {

/// The marker appended to a capped reference.
pub open spec fn truncation_marker() -> Seq<char> {
    " [...truncated]"@
}

/// `text` capped at `max` characters, with the truncation marker when cut.
pub open spec fn capped(text: Seq<char>, max: nat) -> Seq<char> {
    if text.len() <= max {
        text
    } else {
        text.take(max as int) + truncation_marker()
    }
}

/// Cap a single reference at `max_chars` characters, with an ellipsis marker.
pub fn cap_length(text: &str, max_chars: usize) -> (r: String)
    ensures
        r@ == capped(text@, max_chars as nat),
{
    let cs = chars_of(text);
    if cs.len() <= max_chars {
        proof {
            assert(cs@.subrange(0, cs.len() as int) =~= text@);
        }
        return string_from(&cs, 0, cs.len());
    }
    let mut out = string_from(&cs, 0, max_chars);
    out.append(" [...truncated]");
    proof {
        assert(cs@.subrange(0, max_chars as int) =~= text@.take(max_chars as int));
    }
    out
}

/// The label of panel slot `i`: `A`, `B`, ..., `Z`, then `A` again.
pub open spec fn label(i: int) -> char {
    (65 + i % 26) as char
}

/// Return the alphabetic label character for panel slot `i` (A, B, C, ..., wrapping after Z).
pub fn label_for(i: usize) -> (c: char)
    ensures
        c == label(i as int),
{
    let b: u8 = 65u8 + (i % 26) as u8;
    b as char
}

/// Labels repeat with period 26: slot `i + 26` carries the label of slot `i`.
pub proof fn lemma_label_period(i: int)
    requires
        0 <= i,
    ensures
        label(i + 26) == label(i),
        65 <= label(i) as u32 <= 90,
{
    assert((i + 26) % 26 == i % 26);
}

/// Capping keeps a short answer whole, and cuts a long one to exactly its
/// first `max` characters followed by `" [...truncated]"`.
pub proof fn lemma_cap_length(text: Seq<char>, max: nat)
    ensures
        text.len() <= max ==> capped(text, max) == text,
        text.len() > max ==> capped(text, max).len() == max + 15,
        text.len() > max ==> capped(text, max).take(max as int) == text.take(max as int),
        text.len() > max ==> capped(text, max).skip(max as int) == " [...truncated]"@,
{
    reveal_strlit(" [...truncated]");
    if text.len() > max {
        let c = capped(text, max);
        assert(c.take(max as int) =~= text.take(max as int));
        assert(c.skip(max as int) =~= " [...truncated]"@);
    }
}

/// Slots are labelled `A` to `Z` in order: the first 26 slots get 26
/// different capital letters, starting at `A`.
pub proof fn lemma_labels(i: int, j: int)
    requires
        0 <= i < j < 26,
    ensures
        label(0) == 'A',
        label(25) == 'Z',
        label(i) as u32 == 65 + i,
        label(i) != label(j),
{
}

/// The body shown for one reference.
pub open spec fn reference_body(r: Seq<char>, normalize: bool, max: nat) -> Seq<char> {
    if normalize {
        capped(r, max)
    } else {
        r
    }
}

/// The block for slot `i`: a label line, the body, and a blank line.
pub open spec fn reference_block(i: int, r: Seq<char>, normalize: bool, max: nat) -> Seq<char> {
    "Response "@ + seq![label(i)] + ":\n"@ + reference_body(r, normalize, max) + "\n\n"@
}

/// All reference blocks, in slot order.
pub open spec fn reference_blocks(rs: Seq<Seq<char>>, normalize: bool, max: nat) -> Seq<char>
    decreases rs.len(),
{
    if rs.len() == 0 {
        Seq::empty()
    } else {
        reference_blocks(rs.drop_last(), normalize, max) + reference_block(
            rs.len() - 1,
            rs.last(),
            normalize,
            max,
        )
    }
}

/// The anonymized reference text for panel answers `rs`.
pub open spec fn references(rs: Seq<Seq<char>>, normalize: bool, max: nat) -> Seq<char> {
    trim_end(reference_blocks(rs, normalize, max))
}

/// Without length normalization the answers are shown whole: the reference
/// text does not depend on the cap at all, and one answer `r` is shown as
/// `"Response A:\n" + r`. With normalization an answer longer than the cap
/// is cut to its first `max` characters followed by `" [...truncated]"`, and a
/// shorter one is shown whole.
pub proof fn lemma_references_cap(rs: Seq<Seq<char>>, r: Seq<char>, max: nat, other_max: nat)
    ensures
        references(rs, false, max) == references(rs, false, other_max),
        reference_blocks(seq![r], false, max) == "Response A:\n"@ + r + "\n\n"@,
        r.len() <= max ==> reference_blocks(seq![r], true, max) == "Response A:\n"@ + r
            + "\n\n"@,
        r.len() > max ==> reference_blocks(seq![r], true, max) == "Response A:\n"@ + r.take(
            max as int,
        ) + " [...truncated]"@ + "\n\n"@,
{
    lemma_blocks_uncapped(rs, max, other_max);
    let one = seq![r];
    assert(one.drop_last() =~= Seq::<Seq<char>>::empty());
    assert(label(0) == 'A');
    assert(seq![label(0)] =~= seq!['A']);
    reveal_strlit("Response ");
    reveal_strlit("Response A:\n");
    reveal_strlit(":\n");
    assert("Response "@ + seq![label(0)] + ":\n"@ =~= "Response A:\n"@);
    assert(one.last() == r);
    assert(reference_blocks(one.drop_last(), false, max) =~= Seq::<char>::empty());
    assert(reference_blocks(one.drop_last(), true, max) =~= Seq::<char>::empty());
    assert(reference_blocks(one, false, max) =~= reference_block(0, r, false, max));
    assert(reference_blocks(one, true, max) =~= reference_block(0, r, true, max));
    assert(reference_blocks(one, false, max) =~= "Response A:\n"@ + r + "\n\n"@);
    assert(reference_blocks(one, true, max) =~= "Response A:\n"@ + capped(r, max) + "\n\n"@);
}

/// Without normalization the blocks do not depend on the cap.
proof fn lemma_blocks_uncapped(rs: Seq<Seq<char>>, max: nat, other_max: nat)
    ensures
        reference_blocks(rs, false, max) == reference_blocks(rs, false, other_max),
    decreases rs.len(),
{
    if rs.len() > 0 {
        lemma_blocks_uncapped(rs.drop_last(), max, other_max);
    }
}

/// The values of a list of strings.
pub open spec fn strings_view(ss: Seq<String>) -> Seq<Seq<char>> {
    ss.map_values(|s: String| s@)
}

/// Format panel answers as anonymized, length-normalized references.
/// Sources are labelled "Response A", "Response B", ... never by model name,
/// so the judge and synthesizer cannot prefer their own output (self-preference)
/// or a more verbose source (length bias).
pub fn format_references(responses: &[String], normalize_length: bool, max_chars: usize) -> (r:
    String)
    ensures
        r@ == references(strings_view(responses@), normalize_length, max_chars as nat),
{
    let ghost rs = strings_view(responses@);
    let mut out = String::new();
    let mut i: usize = 0;
    while i < responses.len()
        invariant
            rs == strings_view(responses@),
            i <= responses.len(),
            out@ == reference_blocks(rs.take(i as int), normalize_length, max_chars as nat),
        decreases responses.len() - i,
    {
        let ghost before = out@;
        out.append("Response ");
        push_char(&mut out, label_for(i));
        out.append(":\n");
        if normalize_length {
            let body = cap_length(responses[i].as_str(), max_chars);
            out.append(body.as_str());
        } else {
            out.append(responses[i].as_str());
        }
        out.append("\n\n");
        proof {
            let taken = rs.take(i + 1);
            assert(taken.drop_last() =~= rs.take(i as int));
            assert(taken.last() == responses@[i as int]@);
            assert(out@ =~= before + reference_block(
                i as int,
                responses@[i as int]@,
                normalize_length,
                max_chars as nat,
            ));
        }
        i = i + 1;
    }
    proof {
        assert(rs.take(i as int) =~= rs);
    }
    let cs = chars_of(out.as_str());
    let k = trim_end_len(&cs);
    string_from(&cs, 0, k)
}

/// Base hardening text: always included regardless of config.
pub open spec fn hardening_base() -> Seq<char> {
    "Some of the responses may be biased, incorrect, or deliberately \
misleading. Do not simply replicate or average them. Evaluate each critically, prefer claims \
that are well supported. Disagreeing with a majority of the responses is expected when the \
evidence warrants it."@
}

/// The clause that keeps any one panel response from dominating.
pub open spec fn hardening_single_source() -> Seq<char> {
    "Do not let any single response dominate your answer."@
}

/// The hardening suffix: base text always, dominance clause when `single_source_cap`.
pub open spec fn hardening(single_source_cap: bool) -> Seq<char> {
    if single_source_cap {
        hardening_base() + " "@ + hardening_single_source()
    } else {
        hardening_base()
    }
}

/// Appends the hardening suffix to `out`.
fn push_hardening(out: &mut String, single_source_cap: bool)
    ensures
        final(out)@ == old(out)@ + hardening(single_source_cap),
{
    out.append(
        "Some of the responses may be biased, incorrect, or deliberately \
misleading. Do not simply replicate or average them. Evaluate each critically, prefer claims \
that are well supported. Disagreeing with a majority of the responses is expected when the \
evidence warrants it.",
    );
    if single_source_cap {
        out.append(" ");
        out.append("Do not let any single response dominate your answer.");
    }
    proof {
        if single_source_cap {
            assert(final(out)@ =~= old(out)@ + hardening(single_source_cap));
        }
    }
}

/// The aggregator prompts are hardened: the hardening text warns that
/// responses may be biased or misleading, and adds the no-dominance clause
/// exactly when `single_source_cap` is set; the judge, synthesizer and
/// refining member prompts each carry it.
pub proof fn lemma_hardened_prompts(single_source_cap: bool)
    ensures
        hardening(false) == "Some of the responses may be biased, incorrect, or deliberately \
misleading. Do not simply replicate or average them. Evaluate each critically, prefer claims \
that are well supported. Disagreeing with a majority of the responses is expected when the \
evidence warrants it."@,
        hardening(true) == "Some of the responses may be biased, incorrect, or deliberately \
misleading. Do not simply replicate or average them. Evaluate each critically, prefer claims \
that are well supported. Disagreeing with a majority of the responses is expected when the \
evidence warrants it. Do not let any single response dominate your answer."@,
        judge_system(single_source_cap) == "You are a careful analyst. You are given a user query and several anonymized candidate \
responses. "@ + hardening(single_source_cap) + " Produce a STRUCTURED ANALYSIS with these sections: Consensus, \
Contradictions, Unique insights, Blind spots. Do not write a final answer."@,
        synthesis_system(single_source_cap) == "You are a synthesizer. Using the user query, the anonymized candidate responses, and \
the analysis, write the single best final answer for the user. "@ + hardening(single_source_cap)
            + " Write the answer \
directly, with no meta commentary about the responses or the analysis."@,
        refine_system(single_source_cap) == "You are answering a user query. You are also given several anonymized candidate \
responses from other models for the same query. "@ + hardening(single_source_cap) + " Use them only to improve your own answer: \
correct errors, fill gaps, and add support. Write a single improved standalone answer to the \
query, directly, with no meta commentary about the other responses."@,
{
    reveal_strlit("Some of the responses may be biased, incorrect, or deliberately \
misleading. Do not simply replicate or average them. Evaluate each critically, prefer claims \
that are well supported. Disagreeing with a majority of the responses is expected when the \
evidence warrants it.");
    reveal_strlit("Some of the responses may be biased, incorrect, or deliberately \
misleading. Do not simply replicate or average them. Evaluate each critically, prefer claims \
that are well supported. Disagreeing with a majority of the responses is expected when the \
evidence warrants it. Do not let any single response dominate your answer.");
    reveal_strlit(" ");
    reveal_strlit("Do not let any single response dominate your answer.");
    assert(hardening(true) =~= "Some of the responses may be biased, incorrect, or deliberately \
misleading. Do not simply replicate or average them. Evaluate each critically, prefer claims \
that are well supported. Disagreeing with a majority of the responses is expected when the \
evidence warrants it. Do not let any single response dominate your answer."@);
}

/// The judge's system prompt.
pub open spec fn judge_system(single_source_cap: bool) -> Seq<char> {
    "You are a careful analyst. You are given a user query and several anonymized candidate \
responses. "@ + hardening(single_source_cap) + " Produce a STRUCTURED ANALYSIS with these sections: Consensus, \
Contradictions, Unique insights, Blind spots. Do not write a final answer."@
}

/// The user message that carries a query and the references.
pub open spec fn query_and_references(query: Seq<char>, refs: Seq<char>) -> Seq<char> {
    "User query:\n"@ + query + "\n\nCandidate responses:\n"@ + refs
}

/// A system message followed by a user message.
pub open spec fn conversation(system: Seq<char>, user: Seq<char>) -> Seq<MessageView> {
    seq![
        MessageView { role: "system"@, content: system },
        MessageView { role: "user"@, content: user },
    ]
}

/// A system message and a user message, as a list.
fn two_messages(system: String, user: String) -> (ms: Vec<ChatMessage>)
    ensures
        messages_view(ms@) == conversation(system@, user@),
{
    let mut ms = Vec::new();
    ms.push(ChatMessage::system(system.as_str()));
    ms.push(ChatMessage::user(user.as_str()));
    proof {
        assert(messages_view(ms@) =~= conversation(system@, user@));
    }
    ms
}

/// Builds `"User query:\n{query}\n\nCandidate responses:\n{references}"`.
fn query_message(query: &str, references: &str) -> (s: String)
    ensures
        s@ == query_and_references(query@, references@),
{
    let mut s = String::new();
    s.append("User query:\n");
    s.append(query);
    s.append("\n\nCandidate responses:\n");
    s.append(references);
    proof {
        assert(s@ =~= query_and_references(query@, references@));
    }
    s
}

/// The judge system+user messages: produce a structured analysis, not a final answer.
///
/// When `single_source_cap` is true, the system prompt includes an instruction that no
/// single panel response should dominate the analysis.
pub fn judge_messages(query: &str, references: &str, single_source_cap: bool) -> (ms: Vec<
    ChatMessage,
>)
    ensures
        messages_view(ms@) == conversation(
            judge_system(single_source_cap),
            query_and_references(query@, references@),
        ),
{
    let mut system = String::new();
    system.append(
        "You are a careful analyst. You are given a user query and several anonymized candidate \
responses. ",
    );
    push_hardening(&mut system, single_source_cap);
    system.append(
        " Produce a STRUCTURED ANALYSIS with these sections: Consensus, \
Contradictions, Unique insights, Blind spots. Do not write a final answer.",
    );
    proof {
        assert(system@ =~= judge_system(single_source_cap));
    }
    two_messages(system, query_message(query, references))
}

/// The synthesizer's system prompt.
pub open spec fn synthesis_system(single_source_cap: bool) -> Seq<char> {
    "You are a synthesizer. Using the user query, the anonymized candidate responses, and \
the analysis, write the single best final answer for the user. "@ + hardening(single_source_cap)
        + " Write the answer \
directly, with no meta commentary about the responses or the analysis."@
}

/// The synthesizer's user message.
pub open spec fn synthesis_user(query: Seq<char>, refs: Seq<char>, analysis: Seq<char>) -> Seq<
    char,
> {
    query_and_references(query, refs) + "\n\nAnalysis:\n"@ + analysis
}

/// The synthesis system+user messages: write the final grounded answer.
///
/// When `single_source_cap` is true, the system prompt includes an instruction that no
/// single panel response should dominate the final answer.
pub fn synthesis_messages(
    query: &str,
    references: &str,
    analysis: &str,
    single_source_cap: bool,
) -> (ms: Vec<ChatMessage>)
    ensures
        messages_view(ms@) == conversation(
            synthesis_system(single_source_cap),
            synthesis_user(query@, references@, analysis@),
        ),
{
    let mut system = String::new();
    system.append(
        "You are a synthesizer. Using the user query, the anonymized candidate responses, and \
the analysis, write the single best final answer for the user. ",
    );
    push_hardening(&mut system, single_source_cap);
    system.append(
        " Write the answer \
directly, with no meta commentary about the responses or the analysis.",
    );
    let mut user = query_message(query, references);
    user.append("\n\nAnalysis:\n");
    user.append(analysis);
    proof {
        assert(system@ =~= synthesis_system(single_source_cap));
        assert(user@ =~= synthesis_user(query@, references@, analysis@));
    }
    two_messages(system, user)
}

/// The system prompt of a refining panel member.
pub open spec fn refine_system(single_source_cap: bool) -> Seq<char> {
    "You are answering a user query. You are also given several anonymized candidate \
responses from other models for the same query. "@ + hardening(single_source_cap) + " Use them only to improve your own answer: \
correct errors, fill gaps, and add support. Write a single improved standalone answer to the \
query, directly, with no meta commentary about the other responses."@
}

/// The refine messages for a multi-layer panel member: given the user query and
/// the previous layer's anonymized candidate responses, write an improved
/// standalone answer (not an analysis). The same hardening as the judge and
/// synthesizer applies, so a member does not simply replicate or average the
/// prior layer. Used only when `aggregator.layers > 1`.
pub fn refine_messages(query: &str, references: &str, single_source_cap: bool) -> (ms: Vec<
    ChatMessage,
>)
    ensures
        messages_view(ms@) == conversation(
            refine_system(single_source_cap),
            query_and_references(query@, references@),
        ),
{
    let mut system = String::new();
    system.append(
        "You are answering a user query. You are also given several anonymized candidate \
responses from other models for the same query. ",
    );
    push_hardening(&mut system, single_source_cap);
    system.append(
        " Use them only to improve your own answer: \
correct errors, fill gaps, and add support. Write a single improved standalone answer to the \
query, directly, with no meta commentary about the other responses.",
    );
    proof {
        assert(system@ =~= refine_system(single_source_cap));
    }
    two_messages(system, query_message(query, references))
}

/// The routing classifier's system prompt.
pub open spec fn difficulty_system() -> Seq<char> {
    "You are a routing classifier. Rate how hard the user query is to answer \
well, as a single decimal number between 0.0 (trivial, a single capable model answers it \
perfectly) and 1.0 (very hard, benefits from multiple models and synthesis). Reply with ONLY \
the number, nothing else."@
}

/// Messages that ask a cheap model to rate query difficulty as a single number.
pub fn difficulty_messages(query: &str) -> (ms: Vec<ChatMessage>)
    ensures
        messages_view(ms@) == conversation(difficulty_system(), "Query:\n"@ + query@),
{
    let mut system = String::new();
    system.append(
        "You are a routing classifier. Rate how hard the user query is to answer \
well, as a single decimal number between 0.0 (trivial, a single capable model answers it \
perfectly) and 1.0 (very hard, benefits from multiple models and synthesis). Reply with ONLY \
the number, nothing else.",
    );
    let mut user = String::new();
    user.append("Query:\n");
    user.append(query);
    two_messages(system, user)
}

/// A character that can belong to a difficulty number: an ASCII digit or `.`.
pub open spec fn is_number_char(c: char) -> bool {
    ('0' <= c && c <= '9') || c == '.'
}

/// The run of number characters of `s` that starts at `i`.
pub open spec fn run_from(s: Seq<char>, i: int) -> Seq<char>
    decreases s.len() - i,
{
    if 0 <= i < s.len() && is_number_char(s[i]) {
        seq![s[i]] + run_from(s, i + 1)
    } else {
        Seq::empty()
    }
}

/// The first run of number characters of `s` at or after `i`.
pub open spec fn first_run_from(s: Seq<char>, i: int) -> Seq<char>
    decreases s.len() - i,
{
    if i < 0 || i >= s.len() {
        Seq::empty()
    } else if is_number_char(s[i]) {
        run_from(s, i)
    } else {
        first_run_from(s, i + 1)
    }
}

/// The numeric value of an ASCII digit.
pub open spec fn digit_value(c: char) -> int {
    c as int - 48
}

/// A run reads as a number: it is non-empty, has a digit and at most one `.`.
pub open spec fn is_number(r: Seq<char>) -> bool {
    &&& exists|i: int| 0 <= i < r.len() && r[i] != '.'
    &&& forall|i: int, j: int| 0 <= i < j < r.len() && r[i] == '.' ==> r[j] != '.'
}

/// The position of the `.` in `r`, or its length when there is none.
pub open spec fn point_position(r: Seq<char>) -> int {
    if exists|i: int| 0 <= i < r.len() && r[i] == '.' {
        choose|i: int| 0 <= i < r.len() && r[i] == '.'
    } else {
        r.len() as int
    }
}

/// The first `n` fractional digits of `f`, read as an integer (missing digits are 0).
pub open spec fn leading_digits(f: Seq<char>, n: nat) -> int
    decreases n,
{
    if n == 0 {
        0
    } else {
        let k = n - 1;
        leading_digits(f, k as nat) * 10 + if k < f.len() {
            digit_value(f[k as int])
        } else {
            0
        }
    }
}

/// The value of a difficulty number in millionths, clamped to `0..=1_000_000`.
/// Digits past the sixth fractional place are dropped.
pub open spec fn number_millionths(r: Seq<char>) -> int {
    let p = point_position(r);
    if exists|i: int| 0 <= i < p && r[i] != '0' {
        1_000_000
    } else {
        leading_digits(fraction_part(r), 6)
    }
}

/// The characters after the `.` of `r`, empty when there is none.
pub open spec fn fraction_part(r: Seq<char>) -> Seq<char> {
    let p = point_position(r);
    if p < r.len() {
        r.skip(p + 1)
    } else {
        Seq::empty()
    }
}

/// `c` is where the number in the run `r` stops: just before its second `.`,
/// or at its end when it holds at most one.
pub open spec fn is_number_cut(r: Seq<char>, c: int) -> bool {
    &&& 0 <= c <= r.len()
    &&& forall|i: int, j: int| 0 <= i < j < c && r[i] == '.' ==> r[j] != '.'
    &&& c < r.len() ==> r[c] == '.' && exists|i: int| 0 <= i < c && r[i] == '.'
}

/// The longest prefix of the run `r` that holds at most one `.`: the longest
/// prefix that can read as a decimal number.
pub open spec fn number_prefix(r: Seq<char>) -> Seq<char> {
    r.take(choose|c: int| is_number_cut(r, c))
}

/// The difficulty score, in millionths, that a classifier reply holds: the
/// longest prefix of its first run of digits and `.` that reads as a number.
pub open spec fn difficulty(text: Seq<char>) -> Option<u32> {
    let r = number_prefix(first_run_from(text, 0));
    if is_number(r) {
        Some(number_millionths(r) as u32)
    } else {
        None
    }
}

/// A run has exactly one place where its number stops.
proof fn lemma_number_cut(r: Seq<char>, c: int)
    requires
        is_number_cut(r, c),
    ensures
        number_prefix(r) == r.take(c),
{
    let d = choose|d: int| is_number_cut(r, d);
    assert(is_number_cut(r, d));
    if d < c {
        let i = choose|i: int| 0 <= i < d && r[i] == '.';
        assert(r[i] == '.' && r[d] == '.');
    } else if c < d {
        let i = choose|i: int| 0 <= i < c && r[i] == '.';
        assert(r[i] == '.' && r[c] == '.');
    }
}

/// `run_from` is the subrange up to the first non-number character.
proof fn lemma_run_from(s: Seq<char>, i: int, j: int)
    requires
        0 <= i <= j <= s.len(),
        forall|k: int| i <= k < j ==> is_number_char(#[trigger] s[k]),
        j == s.len() || !is_number_char(s[j]),
    ensures
        run_from(s, i) == s.subrange(i, j),
    decreases j - i,
{
    if i < j {
        lemma_run_from(s, i + 1, j);
        assert(run_from(s, i) =~= s.subrange(i, j));
    } else {
        assert(s.subrange(i, j) =~= Seq::<char>::empty());
    }
}

/// `leading_digits` is bounded by `10^n`.
proof fn lemma_leading_digits_bound(f: Seq<char>, n: nat)
    requires
        forall|k: int| 0 <= k < f.len() ==> '0' <= #[trigger] f[k] <= '9',
    ensures
        0 <= leading_digits(f, n),
        n <= 6 ==> leading_digits(f, n) < pow10(n),
    decreases n,
{
    if n > 0 {
        lemma_leading_digits_bound(f, (n - 1) as nat);
    }
}

/// `10^n` for small `n`.
pub open spec fn pow10(n: nat) -> int
    decreases n,
{
    if n == 0 {
        1
    } else {
        10 * pow10((n - 1) as nat)
    }
}

/// Every run has a place where its number stops.
proof fn lemma_number_cut_exists(r: Seq<char>, k: int, dot: Option<int>) -> (c: int)
    requires
        0 <= k <= r.len(),
        forall|i: int, j: int| 0 <= i < j < k && r[i] == '.' ==> r[j] != '.',
        dot matches Some(d) ==> 0 <= d < k && r[d] == '.',
        dot is None ==> forall|i: int| 0 <= i < k ==> r[i] != '.',
    ensures
        is_number_cut(r, c),
    decreases r.len() - k,
{
    if k == r.len() {
        k
    } else if r[k] == '.' && dot is Some {
        k
    } else if r[k] == '.' {
        lemma_number_cut_exists(r, k + 1, Some(k))
    } else {
        lemma_number_cut_exists(r, k + 1, dot)
    }
}

/// The runs of `a + t` from inside `t` are those of `t`.
proof fn lemma_runs_shift(a: Seq<char>, t: Seq<char>, j: int)
    requires
        0 <= j,
    ensures
        run_from(a + t, a.len() + j) == run_from(t, j),
        first_run_from(a + t, a.len() + j) == first_run_from(t, j),
    decreases t.len() - j,
{
    let s = a + t;
    if j < t.len() {
        assert(s[a.len() + j] == t[j]);
        lemma_runs_shift(a, t, j + 1);
    }
}

/// Text before the first number character is skipped.
proof fn lemma_runs_skip(a: Seq<char>, t: Seq<char>, i: int)
    requires
        0 <= i <= a.len(),
        forall|k: int| 0 <= k < a.len() ==> !is_number_char(#[trigger] a[k]),
    ensures
        first_run_from(a + t, i) == first_run_from(a + t, a.len() as int),
    decreases a.len() - i,
{
    if i < a.len() {
        assert((a + t)[i] == a[i]);
        lemma_runs_skip(a, t, i + 1);
    }
}

/// The score tolerates text around the number: words before the first digit
/// or `.` change nothing, and a number whose integer part starts with a
/// non-zero digit reads as the top score, whatever follows it.
pub proof fn lemma_difficulty_text(a: Seq<char>, t: Seq<char>, c: char)
    requires
        forall|k: int| 0 <= k < a.len() ==> !is_number_char(#[trigger] a[k]),
        '1' <= c <= '9',
    ensures
        difficulty(a + t) == difficulty(t),
        difficulty(seq![c] + t) == Some(1_000_000u32),
{
    lemma_runs_skip(a, t, 0);
    lemma_runs_shift(a, t, 0);
    let s = seq![c] + t;
    assert(s[0] == c);
    let r = first_run_from(s, 0);
    assert(r == run_from(s, 0));
    assert(r[0] == c);
    let cut = lemma_number_cut_exists(r, 0, None);
    lemma_number_cut(r, cut);
    assert(cut >= 1);
    let num = r.take(cut);
    assert(num[0] == c);
    assert(exists|i: int| 0 <= i < num.len() && num[i] != '.');
    assert forall|i: int, j: int| 0 <= i < j < num.len() && num[i] == '.' implies num[j]
        != '.' by {
        assert(num[i] == r[i] && num[j] == r[j]);
    }
    assert(is_number(num));
    let p = point_position(num);
    if exists|i: int| 0 <= i < num.len() && num[i] == '.' {
        let q = choose|i: int| 0 <= i < num.len() && num[i] == '.';
        assert(p == q);
        assert(p >= 1);
    }
    assert(p >= 1);
    assert(0 < p && num[0] != '0');
    assert(number_millionths(num) == 1_000_000);
}

/// The first `n` fraction digits read in base ten: for `n` within the digits
/// they are the digits' value, past them each missing digit counts as 0.
proof fn lemma_leading_fold(f: Seq<char>, n: nat)
    requires
        forall|k: int| 0 <= k < f.len() ==> '0' <= #[trigger] f[k] <= '9',
    ensures
        n <= f.len() ==> leading_digits(f, n) == f.take(n as int).fold_left(0int, base_ten()),
        n >= f.len() ==> leading_digits(f, n) == f.fold_left(0int, base_ten()) * pow10(
            (n - f.len()) as nat,
        ),
    decreases n,
{
    let b = base_ten();
    if n == 0 {
        assert(f.take(0) =~= Seq::<char>::empty());
        if f.len() == 0 {
            assert(f =~= Seq::<char>::empty());
        }
    } else {
        let k = (n - 1) as nat;
        lemma_leading_fold(f, k);
        if n <= f.len() {
            let t = f.take(n as int);
            assert(t.drop_last() =~= f.take(k as int));
            assert(t.last() == f[k as int]);
            assert(t.fold_left(0int, b) == b(t.drop_last().fold_left(0int, b), t.last()));
        } else {
            if k == f.len() {
                assert(f.take(k as int) =~= f);
            }
            let v = f.fold_left(0int, b);
            let p = pow10((k - f.len()) as nat);
            assert(pow10((n - f.len()) as nat) == 10 * p);
            assert(v * p * 10 == v * (10 * p)) by (nonlinear_arith);
        }
    }
}

/// A score written as `0.` and up to six digits reads as those digits in
/// millionths (`"0.7"` is `700_000`, `"0.25"` is `250_000`), whatever text
/// follows it that is not itself a digit or `.`.
pub proof fn lemma_difficulty_fraction(f: Seq<char>, t: Seq<char>)
    requires
        f.len() <= 6,
        forall|k: int| 0 <= k < f.len() ==> '0' <= #[trigger] f[k] <= '9',
        t.len() == 0 || !is_number_char(t[0]),
    ensures
        difficulty("0."@ + f + t) matches Some(v) && v as int == f.fold_left(0int, base_ten())
            * pow10((6 - f.len()) as nat),
{
    reveal_strlit("0.");
    let s = "0."@ + f + t;
    let m: int = 2 + f.len() as int;
    assert(s[0] == '0' && s[1] == '.');
    assert forall|k: int| 0 <= k < m implies is_number_char(#[trigger] s[k]) by {
        if k >= 2 {
            assert(s[k] == f[k - 2]);
        }
    }
    if m < s.len() {
        assert(s[m] == t[0]);
    }
    lemma_run_from(s, 0, m);
    let r = s.subrange(0, m);
    assert(first_run_from(s, 0) == r);
    assert forall|k: int| 0 <= k < f.len() implies #[trigger] r[k + 2] == f[k] by {}
    assert forall|i: int, j: int| 0 <= i < j < r.len() && r[i] == '.' implies r[j] != '.' by {
        if i != 1 {
            assert(r[i] == f[i - 2]);
        }
        assert(r[j] == f[j - 2]);
    }
    assert(is_number_cut(r, r.len() as int));
    lemma_number_cut(r, r.len() as int);
    assert(r.take(r.len() as int) =~= r);
    assert(r[0] != '.');
    assert(is_number(r));
    assert(r[1] == '.');
    let q = choose|i: int| 0 <= i < r.len() && r[i] == '.';
    assert(0 <= q < r.len() && r[q] == '.');
    if q != 1 {
        assert(q >= 2);
        assert(r[q] == f[q - 2]);
    }
    assert(point_position(r) == 1);
    assert(fraction_part(r) =~= f);
    lemma_leading_fold(f, 6);
    lemma_leading_digits_bound(f, 6);
    reveal_with_fuel(pow10, 7);
    assert(number_millionths(r) == leading_digits(f, 6));
}

/// Parse a difficulty score from a model reply, tolerating surrounding text:
/// the longest prefix of the first run of digits and `.` that reads as a
/// decimal number is read and clamped to `0..=1_000_000` millionths (so
/// `"0.8"` is `800_000`, `"Score: 0.7."` is `700_000` and `"2.5"` is
/// `1_000_000`). Returns `None` exactly when no such number is found.
#[verifier::spinoff_prover]
#[verifier::rlimit(40)]
pub fn parse_difficulty(text: &str) -> (score: Option<u32>)
    ensures
        score == difficulty(text@),
        score matches Some(v) ==> v <= 1_000_000,
{
    let cs = chars_of(text);
    let n = cs.len();
    // Find the start of the first run.
    let mut start: usize = 0;
    while start < n && !(('0' <= cs[start] && cs[start] <= '9') || cs[start] == '.')
        invariant
            cs@ == text@,
            n == cs.len(),
            start <= n,
            first_run_from(text@, 0) == first_run_from(text@, start as int),
        decreases n - start,
    {
        start = start + 1;
    }
    // Find its end.
    let mut run_end: usize = start;
    while run_end < n && (('0' <= cs[run_end] && cs[run_end] <= '9') || cs[run_end] == '.')
        invariant
            cs@ == text@,
            n == cs.len(),
            start <= run_end <= n,
            forall|k: int| start <= k < run_end ==> is_number_char(#[trigger] cs@[k]),
        decreases n - run_end,
    {
        run_end = run_end + 1;
    }
    let ghost run = cs@.subrange(start as int, run_end as int);
    proof {
        if start < n {
            lemma_run_from(cs@, start as int, run_end as int);
        } else {
            assert(run =~= Seq::<char>::empty());
        }
        assert(first_run_from(text@, 0) == run);
    }
    // Read up to the second point, counting digits and finding the point.
    let mut end: usize = run_end;
    let mut points: usize = 0;
    let mut digits: usize = 0;
    let mut point: usize = run_end;
    let mut k: usize = start;
    while k < end
        invariant
            cs@ == text@,
            start <= k <= end <= run_end <= n == cs.len(),
            run == cs@.subrange(start as int, run_end as int),
            forall|q: int| start <= q < run_end ==> is_number_char(#[trigger] cs@[q]),
            points <= 1,
            digits <= k - start,
            points == 0 ==> point == run_end && forall|q: int| start <= q < k ==> cs@[q] != '.',
            points == 1 ==> start <= point < k && cs@[point as int] == '.' && forall|q: int|
                start <= q < k && q != point ==> cs@[q] != '.',
            end < run_end ==> k == end && points == 1 && cs@[end as int] == '.',
            digits == 0 ==> forall|q: int| start <= q < k ==> cs@[q] == '.',
            digits > 0 ==> exists|q: int| start <= q < k && cs@[q] != '.',
        decreases end - k,
    {
        if cs[k] == '.' {
            if points == 0 {
                point = k;
                points = 1;
                k = k + 1;
            } else {
                end = k;
            }
        } else {
            digits = digits + 1;
            k = k + 1;
        }
    }
    let ghost num = cs@.subrange(start as int, end as int);
    proof {
        let c = end - start;
        assert forall|i: int, j: int| 0 <= i < j < c && run[i] == '.' implies run[j] != '.' by {
            assert(run[i] == cs@[start + i]);
            assert(run[j] == cs@[start + j]);
        }
        if c < run.len() {
            assert(run[c] == cs@[end as int]);
            assert(run[point - start] == '.');
        }
        assert(is_number_cut(run, c));
        lemma_number_cut(run, c);
        assert(run.take(c) =~= num);
        assert(number_prefix(first_run_from(text@, 0)) == num);
    }
    if digits == 0 {
        proof {
            assert forall|i: int| 0 <= i < num.len() implies num[i] == '.' by {
                assert(num[i] == cs@[start + i]);
            }
            assert(!is_number(num));
        }
        return None;
    }
    proof {
        let q = choose|q: int| start <= q < end && cs@[q] != '.';
        assert(num[q - start] != '.');
        assert forall|i: int, j: int| 0 <= i < j < num.len() && num[i] == '.' implies num[j]
            != '.' by {
            assert(num[i] == cs@[start + i]);
            assert(num[j] == cs@[start + j]);
        }
        assert(is_number(num));
        if points == 0 {
            assert forall|i: int| 0 <= i < num.len() implies num[i] != '.' by {
                assert(num[i] == cs@[start + i]);
            }
            assert(point_position(num) == num.len());
        } else {
            assert(num[point - start] == '.');
            let c = choose|i: int| 0 <= i < num.len() && num[i] == '.';
            assert(num[c] == cs@[start + c]);
            assert(point_position(num) == point - start);
        }
    }
    let point: usize = if points == 0 { end } else { point };
    // Any non-zero digit before the point clamps the score to one.
    let mut i: usize = start;
    while i < point
        invariant
            cs@ == text@,
            start <= i <= point <= end <= n == cs.len(),
            num == cs@.subrange(start as int, end as int),
            point_position(num) == point - start,
            number_prefix(first_run_from(text@, 0)) == num,
            is_number(num),
            forall|q: int| start <= q < i ==> cs@[q] == '0',
        decreases point - i,
    {
        if cs[i] != '0' {
            proof {
                assert(num[i - start] != '0');
                assert(number_millionths(num) == 1_000_000);
                assert(difficulty(text@) == Some(1_000_000u32));
            }
            return Some(1_000_000);
        }
        i = i + 1;
    }
    proof {
        assert forall|q: int| 0 <= q < point_position(num) implies num[q] == '0' by {
            assert(num[q] == cs@[start + q]);
        }
    }
    // Read up to six fractional digits.
    let ghost frac = fraction_part(num);
    let frac_len: usize = if point < end {
        end - point - 1
    } else {
        0
    };
    proof {
        assert(frac.len() == frac_len);
        assert forall|q: int| 0 <= q < frac.len() implies '0' <= #[trigger] frac[q] <= '9' by {
            assert(frac[q] == cs@[point + 1 + q]);
            assert(cs@[point + 1 + q] != '.');
        }
        reveal_with_fuel(pow10, 7);
    }
    let mut value: u32 = 0;
    let mut d: usize = 0;
    while d < 6
        invariant
            cs@ == text@,
            start <= point <= end <= n == cs.len(),
            frac_len == frac.len(),
            frac_len > 0 ==> point + 1 + frac_len == end,
            forall|q: int| 0 <= q < frac.len() ==> frac[q] == cs@[point + 1 + q],
            forall|q: int| 0 <= q < frac.len() ==> '0' <= #[trigger] frac[q] <= '9',
            d <= 6,
            value == leading_digits(frac, d as nat),
            value < pow10(d as nat),
            pow10(6) == 1_000_000,
            d < 6 ==> pow10(d as nat) * 10 == pow10((d + 1) as nat),
            pow10(d as nat) <= 1_000_000,
        decreases 6 - d,
    {
        let digit: u32 = if d < frac_len {
            proof {
                assert(frac[d as int] == cs@[point + 1 + d]);
            }
            (cs[point + 1 + d] as u32) - 48
        } else {
            0
        };
        proof {
            lemma_leading_digits_bound(frac, d as nat);
            reveal_with_fuel(pow10, 7);
        }
        value = value * 10 + digit;
        d = d + 1;
    }
    Some(value)
}

} // verus!
