//! Hand-owned OpenAI chat-completion types and their mathematical views.
//!
//! Fractional quantities (sampling temperatures) are held as integer
//! millionths, so `0.3` is `300_000`.

use vstd::prelude::*;

use crate::text::{owned, same_text};

verus! {

/// One chat message.
#[derive(Debug)]
pub struct ChatMessage {
    pub role: String,
    pub content: String,
}

/// The value of a [`ChatMessage`].
pub struct MessageView {
    pub role: Seq<char>,
    pub content: Seq<char>,
}

impl View for ChatMessage {
    type V = MessageView;

    open spec fn view(&self) -> MessageView {
        MessageView { role: self.role@, content: self.content@ }
    }
}

impl Clone for ChatMessage {
    fn clone(&self) -> (r: Self)
        ensures
            r@ == self@,
    {
        ChatMessage { role: self.role.clone(), content: self.content.clone() }
    }
}

/// The value of an optional string.
pub open spec fn opt_view(o: Option<String>) -> Option<Seq<char>> {
    match o {
        Some(s) => Some(s@),
        None => None,
    }
}

/// A copy of an optional string.
pub fn clone_opt(o: &Option<String>) -> (r: Option<String>)
    ensures
        opt_view(r) == opt_view(*o),
{
    match o {
        Some(s) => Some(s.clone()),
        None => None,
    }
}

/// The values of a list of messages.
pub open spec fn messages_view(ms: Seq<ChatMessage>) -> Seq<MessageView> {
    ms.map_values(|m: ChatMessage| m@)
}

/// A copy of a list of messages.
pub fn clone_messages(ms: &Vec<ChatMessage>) -> (r: Vec<ChatMessage>)
    ensures
        messages_view(r@) == messages_view(ms@),
{
    let mut r: Vec<ChatMessage> = Vec::new();
    let mut i: usize = 0;
    while i < ms.len()
        invariant
            i <= ms.len(),
            r.len() == i,
            forall|k: int| 0 <= k < i ==> #[trigger] r@[k]@ == ms@[k]@,
        decreases ms.len() - i,
    {
        r.push(ms[i].clone());
        i = i + 1;
    }
    proof {
        assert(messages_view(r@) =~= messages_view(ms@));
    }
    r
}

impl ChatMessage {
    /// A message with the `system` role.
    pub fn system(content: &str) -> (m: Self)
        ensures
            m@ == (MessageView { role: "system"@, content: content@ }),
    {
        ChatMessage { role: owned("system"), content: owned(content) }
    }

    /// A message with the `user` role.
    pub fn user(content: &str) -> (m: Self)
        ensures
            m@ == (MessageView { role: "user"@, content: content@ }),
    {
        ChatMessage { role: owned("user"), content: owned(content) }
    }
}

/// A chat-completion request. `temperature` is in millionths.
#[derive(Debug)]
pub struct ChatCompletionRequest {
    pub model: String,
    pub messages: Vec<ChatMessage>,
    pub stream: bool,
    pub temperature: Option<i64>,
    pub max_tokens: Option<u32>,
}

/// The value of a [`ChatCompletionRequest`].
pub struct RequestView {
    pub model: Seq<char>,
    pub messages: Seq<MessageView>,
    pub stream: bool,
    pub temperature: Option<i64>,
    pub max_tokens: Option<u32>,
}

impl View for ChatCompletionRequest {
    type V = RequestView;

    open spec fn view(&self) -> RequestView {
        RequestView {
            model: self.model@,
            messages: messages_view(self.messages@),
            stream: self.stream,
            temperature: self.temperature,
            max_tokens: self.max_tokens,
        }
    }
}

impl Clone for ChatCompletionRequest {
    fn clone(&self) -> (r: Self)
        ensures
            r@ == self@,
    {
        ChatCompletionRequest {
            model: self.model.clone(),
            messages: clone_messages(&self.messages),
            stream: self.stream,
            temperature: self.temperature,
            max_tokens: self.max_tokens,
        }
    }
}

/// The content of the last message whose role is `user`, or empty if none is.
pub open spec fn last_user_text(ms: Seq<MessageView>) -> Seq<char>
    decreases ms.len(),
{
    if ms.len() == 0 {
        Seq::empty()
    } else if ms.last().role == "user"@ {
        ms.last().content
    } else {
        last_user_text(ms.drop_last())
    }
}

impl ChatCompletionRequest {
    /// The last user message content, used as the query for judge and synthesis.
    pub fn last_user_text(&self) -> (t: &str)
        ensures
            t@ == last_user_text(self@.messages),
    {
        let mut i = self.messages.len();
        proof {
            assert(self@.messages.take(i as int) =~= self@.messages);
        }
        while i > 0
            invariant
                i <= self.messages.len(),
                last_user_text(self@.messages) == last_user_text(
                    self@.messages.take(i as int),
                ),
            decreases i,
        {
            let m = &self.messages[i - 1];
            let ghost pre = self@.messages.take(i as int);
            proof {
                assert(self@.messages[i - 1] == m@);
                assert(pre.last() == m@);
                assert(pre.drop_last() =~= self@.messages.take(i - 1));
            }
            if same_text(m.role.as_str(), "user") {
                return m.content.as_str();
            }
            proof {
                assert(last_user_text(pre) == last_user_text(pre.drop_last()));
            }
            i = i - 1;
        }
        proof {
            reveal_strlit("");
            assert(self@.messages.take(0) =~= Seq::<MessageView>::empty());
        }
        ""
    }
}

/// Token usage of one or more completions.
#[derive(Clone, Copy, Debug, PartialEq, Eq, Structural)]
pub struct Usage {
    pub prompt_tokens: u32,
    pub completion_tokens: u32,
    pub total_tokens: u32,
}

impl Default for Usage {
    fn default() -> (u: Self)
        ensures
            u == (Usage { prompt_tokens: 0, completion_tokens: 0, total_tokens: 0 }),
    {
        Usage { prompt_tokens: 0, completion_tokens: 0, total_tokens: 0 }
    }
}

/// One choice of a completion.
#[derive(Debug)]
pub struct Choice {
    pub index: u32,
    pub message: ChatMessage,
    pub finish_reason: Option<String>,
}

/// The value of a [`Choice`].
pub struct ChoiceView {
    pub index: u32,
    pub message: MessageView,
    pub finish_reason: Option<Seq<char>>,
}

impl View for Choice {
    type V = ChoiceView;

    open spec fn view(&self) -> ChoiceView {
        ChoiceView {
            index: self.index,
            message: self.message@,
            finish_reason: opt_view(self.finish_reason),
        }
    }
}

impl Clone for Choice {
    fn clone(&self) -> (r: Self)
        ensures
            r@ == self@,
    {
        Choice {
            index: self.index,
            message: self.message.clone(),
            finish_reason: clone_opt(&self.finish_reason),
        }
    }
}

/// The values of a list of choices.
pub open spec fn choices_view(cs: Seq<Choice>) -> Seq<ChoiceView> {
    cs.map_values(|c: Choice| c@)
}

/// A copy of a list of choices.
pub fn clone_choices(cs: &Vec<Choice>) -> (r: Vec<Choice>)
    ensures
        choices_view(r@) == choices_view(cs@),
{
    let mut r: Vec<Choice> = Vec::new();
    let mut i: usize = 0;
    while i < cs.len()
        invariant
            i <= cs.len(),
            r.len() == i,
            forall|k: int| 0 <= k < i ==> #[trigger] r@[k]@ == cs@[k]@,
        decreases cs.len() - i,
    {
        r.push(cs[i].clone());
        i = i + 1;
    }
    proof {
        assert(choices_view(r@) =~= choices_view(cs@));
    }
    r
}

/// A chat-completion response.
#[derive(Debug)]
pub struct ChatCompletionResponse {
    pub id: String,
    pub object: String,
    pub created: u64,
    pub model: String,
    pub choices: Vec<Choice>,
    pub usage: Option<Usage>,
}

/// The value of a [`ChatCompletionResponse`].
pub struct ResponseView {
    pub id: Seq<char>,
    pub object: Seq<char>,
    pub created: u64,
    pub model: Seq<char>,
    pub choices: Seq<ChoiceView>,
    pub usage: Option<Usage>,
}

impl View for ChatCompletionResponse {
    type V = ResponseView;

    open spec fn view(&self) -> ResponseView {
        ResponseView {
            id: self.id@,
            object: self.object@,
            created: self.created,
            model: self.model@,
            choices: choices_view(self.choices@),
            usage: self.usage,
        }
    }
}

impl Clone for ChatCompletionResponse {
    fn clone(&self) -> (r: Self)
        ensures
            r@ == self@,
    {
        ChatCompletionResponse {
            id: self.id.clone(),
            object: self.object.clone(),
            created: self.created,
            model: self.model.clone(),
            choices: clone_choices(&self.choices),
            usage: self.usage,
        }
    }
}

/// The assistant content of the first choice, or empty when there is none.
pub open spec fn first_content(r: ResponseView) -> Seq<char> {
    if r.choices.len() == 0 {
        Seq::empty()
    } else {
        r.choices[0].message.content
    }
}

impl ChatCompletionResponse {
    /// Convenience: the assistant content of the first choice.
    pub fn first_content(&self) -> (t: &str)
        ensures
            t@ == first_content(self@),
    {
        if self.choices.len() == 0 {
            proof {
                reveal_strlit("");
            }
            ""
        } else {
            self.choices[0].message.content.as_str()
        }
    }
}

/// The query is the newest user message: when some message has role `user`,
/// the query is the content of the last such message (later system or
/// assistant messages do not count); when none has, the query is empty.
pub proof fn lemma_last_user_text(ms: Seq<MessageView>, i: int)
    ensures
        (forall|k: int| 0 <= k < ms.len() ==> (#[trigger] ms[k]).role != "user"@)
            ==> last_user_text(ms) == Seq::<char>::empty(),
        (0 <= i < ms.len() && ms[i].role == "user"@ && forall|k: int|
            i < k < ms.len() ==> (#[trigger] ms[k]).role != "user"@) ==> last_user_text(ms)
            == ms[i].content,
    decreases ms.len(),
{
    if ms.len() > 0 {
        let d = ms.drop_last();
        assert forall|k: int| 0 <= k < d.len() implies #[trigger] d[k] == ms[k] by {}
        lemma_last_user_text(d, i);
        if (forall|k: int| 0 <= k < ms.len() ==> (#[trigger] ms[k]).role != "user"@) {
            assert(ms[ms.len() - 1].role != "user"@);
            assert forall|k: int| 0 <= k < d.len() implies (#[trigger] d[k]).role != "user"@ by {
                assert(ms[k].role != "user"@);
            }
        }
        if 0 <= i < ms.len() && ms[i].role == "user"@ && (forall|k: int|
            i < k < ms.len() ==> (#[trigger] ms[k]).role != "user"@) && i < ms.len() - 1 {
            assert(ms[ms.len() - 1].role != "user"@);
            assert forall|k: int| i < k < d.len() implies (#[trigger] d[k]).role != "user"@ by {
                assert(ms[k].role != "user"@);
            }
        }
    }
}

} // verus!
