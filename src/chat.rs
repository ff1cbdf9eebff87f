//! Chat exchanges: single-turn requests and the two-turn chain, where the second request
//! carries the whole first turn, the assistant's reply included, as its context.
use vstd::prelude::*;

verus! {

#[derive(Debug, Clone, Copy, PartialEq, Eq, Structural)]
pub enum Role {
    System,
    User,
    Assistant,
}

/// One role-tagged message of a conversation.
pub struct ChatMessage {
    pub role: Role,
    pub content: String,
}

impl ChatMessage {
    pub open spec fn view(&self) -> (Role, Seq<char>) {
        (self.role, self.content@)
    }

    pub fn new(role: Role, content: &str) -> (r: ChatMessage)
        ensures
            r.view() == (role, content@),
    {
        ChatMessage { role, content: content.to_owned() }
    }
}

pub open spec fn message_views(v: Seq<ChatMessage>) -> Seq<(Role, Seq<char>)> {
    v.map_values(|m: ChatMessage| m.view())
}

/// A request to the chat backend: the conversation so far and a cap on the reply's length.
pub struct ChatRequest {
    pub messages: Vec<ChatMessage>,
    pub max_tokens: u16,
}

impl ChatRequest {
    pub open spec fn view(&self) -> (Seq<(Role, Seq<char>)>, u16) {
        (message_views(self.messages@), self.max_tokens)
    }
}

/// A single-turn request: one system message, one user message.
pub fn single_turn(system_prompt: &str, user_prompt: &str, max_tokens: u16) -> (r: ChatRequest)
    ensures
        r.view() == (seq![(Role::System, system_prompt@), (Role::User, user_prompt@)], max_tokens),
{
    let mut messages: Vec<ChatMessage> = Vec::new();
    messages.push(ChatMessage::new(Role::System, system_prompt));
    messages.push(ChatMessage::new(Role::User, user_prompt));
    let r = ChatRequest { messages, max_tokens };
    assert(message_views(r.messages@) =~= seq![
        (Role::System, system_prompt@),
        (Role::User, user_prompt@),
    ]);
    r
}

/// Whether a backend reply counts as an answer: it came, and it holds some text.
pub open spec fn is_answer(reply: Option<Seq<char>>) -> bool {
    reply matches Some(t) && t.len() > 0
}

pub open spec fn reply_view(reply: Option<String>) -> Option<Seq<char>> {
    match reply {
        Some(t) => Some(t@),
        None => None,
    }
}

/// Where a two-turn chain stands.
#[derive(Debug, Clone, Copy, PartialEq, Eq, Structural)]
pub enum ChainStage {
    /// The first request is out.
    First,
    /// The second request is out.
    Second,
    /// The chain has ended.
    Done,
}

/// What the caller does next in a chain.
pub enum ChainAction {
    /// Send this request and hand its reply back.
    Send(ChatRequest),
    /// The chain succeeded with this text, the reply to the second request.
    Finish(String),
    /// The chain failed; the text tags the operation that failed.
    Fail(String),
}

/// A two-turn exchange: a first request that asks for analysis, then a second one that
/// carries the first turn and asks for the analysis in a constrained form.
pub struct ChainOfChat {
    pub stage: ChainStage,
    pub first: ChatRequest,
    pub second_prompt: String,
    pub second_max_tokens: u16,
    pub error_tag: String,
}

impl ChainOfChat {
    /// Starts a chain; `first` is the request to send first.
    pub fn new(
        sys_prompt_1: &str,
        usr_prompt_1: &str,
        gen_len_1: u16,
        usr_prompt_2: &str,
        gen_len_2: u16,
        error_tag: &str,
    ) -> (r: ChainOfChat)
        ensures
            r.stage == ChainStage::First,
            r.first.view() == (
                seq![(Role::System, sys_prompt_1@), (Role::User, usr_prompt_1@)],
                gen_len_1,
            ),
            r.second_prompt@ == usr_prompt_2@,
            r.second_max_tokens == gen_len_2,
            r.error_tag@ == error_tag@,
    {
        ChainOfChat {
            stage: ChainStage::First,
            first: single_turn(sys_prompt_1, usr_prompt_1, gen_len_1),
            second_prompt: usr_prompt_2.to_owned(),
            second_max_tokens: gen_len_2,
            error_tag: error_tag.to_owned(),
        }
    }

    /// Takes the backend's reply to the request last sent (`None` for a backend error or a
    /// reply without content) and says what to do next. An answer to the first request
    /// yields the second request: the first request's messages, the answer as the assistant's
    /// message, then the second prompt, capped at `second_max_tokens`. An answer to the
    /// second request finishes the chain with it. Anything else fails the chain with its
    /// tag, and the first turn's output is not returned.
    pub fn on_reply(&mut self, reply: Option<String>) -> (r: ChainAction)
        ensures
            final(self).first == old(self).first,
            final(self).second_prompt == old(self).second_prompt,
            final(self).second_max_tokens == old(self).second_max_tokens,
            final(self).error_tag == old(self).error_tag,
            old(self).stage == ChainStage::First && is_answer(reply_view(reply)) ==> {
                &&& final(self).stage == ChainStage::Second
                &&& r matches ChainAction::Send(q) && q.view() == (
                    old(self).first.view().0 + seq![
                        (Role::Assistant, reply_view(reply)->0),
                        (Role::User, old(self).second_prompt@),
                    ],
                    old(self).second_max_tokens,
                )
            },
            old(self).stage == ChainStage::Second && is_answer(reply_view(reply)) ==> {
                &&& final(self).stage == ChainStage::Done
                &&& r matches ChainAction::Finish(t) && t@ == reply_view(reply)->0
            },
            old(self).stage == ChainStage::Done || !is_answer(reply_view(reply)) ==> {
                &&& final(self).stage == ChainStage::Done
                &&& r matches ChainAction::Fail(t) && t@ == old(self).error_tag@
            },
    {
        let answer = match reply {
            Some(t) => if t.as_str().is_empty() {
                None
            } else {
                Some(t)
            },
            None => None,
        };
        match (self.stage, answer) {
            (ChainStage::First, Some(text)) => {
                let mut messages: Vec<ChatMessage> = Vec::new();
                let mut i: usize = 0;
                while i < self.first.messages.len()
                    invariant
                        i <= self.first.messages.len(),
                        messages.len() == i,
                        message_views(messages@) == message_views(self.first.messages@).take(
                            i as int,
                        ),
                    decreases self.first.messages.len() - i,
                {
                    let m = &self.first.messages[i];
                    let ghost before = messages@;
                    messages.push(ChatMessage { role: m.role, content: m.content.clone() });
                    assert(messages@[i as int].view() == self.first.messages@[i as int].view());
                    assert(message_views(messages@) =~= message_views(before).push(
                        self.first.messages@[i as int].view(),
                    ));
                    assert(message_views(messages@) =~= message_views(self.first.messages@).take(
                        i + 1,
                    ));
                    i = i + 1;
                }
                let ghost base = messages@;
                messages.push(ChatMessage { role: Role::Assistant, content: text });
                messages.push(ChatMessage::new(Role::User, self.second_prompt.as_str()));
                proof {
                    assert(message_views(self.first.messages@).take(
                        self.first.messages@.len() as int,
                    ) =~= message_views(self.first.messages@));
                    assert(message_views(messages@) =~= message_views(self.first.messages@)
                        + seq![
                        (Role::Assistant, reply_view(reply)->0),
                        (Role::User, self.second_prompt@),
                    ]);
                }
                self.stage = ChainStage::Second;
                ChainAction::Send(ChatRequest { messages, max_tokens: self.second_max_tokens })
            },
            (ChainStage::Second, Some(text)) => {
                self.stage = ChainStage::Done;
                ChainAction::Finish(text)
            },
            _ => {
                self.stage = ChainStage::Done;
                ChainAction::Fail(self.error_tag.clone())
            },
        }
    }
}

} // verus!
