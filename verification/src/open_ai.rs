//! What is sent to the completion backend and what comes back, as plain values.

use vstd::prelude::*;
use vstd::string::StringExecFns;

verus! {

/// Where chat completions are asked for.
pub const CHAT_COMPLETION_URL: &'static str = "https://api.openai.com/v1/chat/completions";

/// Who speaks in a turn of the conversation.
#[derive(Clone, Copy, Debug, PartialEq, Eq, Structural)]
pub enum Role {
    User,
    Assistant,
}

impl Role {
    /// The name of the role as the backend spells it.
    pub fn name(&self) -> (name: &'static str)
        ensures
            name@ == role_name(*self),
    {
        match self {
            Role::User => "user",
            Role::Assistant => "assistant",
        }
    }
}

/// The name of `role` as the backend spells it.
pub open spec fn role_name(role: Role) -> Seq<char> {
    match role {
        Role::User => "user"@,
        Role::Assistant => "assistant"@,
    }
}

/// One message of the exchange with the backend.
#[derive(Debug)]
pub struct ConversationTurn {
    pub role: Role,
    pub content: String,
}

/// A `ConversationTurn` as plain values.
pub ghost struct TurnView {
    pub role: Role,
    pub content: Seq<char>,
}

impl View for ConversationTurn {
    type V = TurnView;

    open spec fn view(&self) -> TurnView {
        TurnView { role: self.role, content: self.content@ }
    }
}

impl Clone for ConversationTurn {
    fn clone(&self) -> (copy: Self)
        ensures
            copy@ == self@,
    {
        ConversationTurn { role: self.role, content: self.content.clone() }
    }
}

/// The views of `turns`, in order.
pub open spec fn turn_views(turns: Seq<ConversationTurn>) -> Seq<TurnView> {
    turns.map_values(|t: ConversationTurn| t@)
}

/// A copy of `turns`.
pub fn copy_turns(turns: &Vec<ConversationTurn>) -> (copy: Vec<ConversationTurn>)
    ensures
        turn_views(copy@) == turn_views(turns@),
{
    let mut copy: Vec<ConversationTurn> = Vec::new();
    let mut i: usize = 0;
    while i < turns.len()
        invariant
            i <= turns.len(),
            turn_views(copy@) == turn_views(turns@).take(i as int),
        decreases turns.len() - i,
    {
        let ghost before = copy@;
        copy.push(turns[i].clone());
        assert(turn_views(copy@) == turn_views(before).push(turns@[i as int]@));
        i += 1;
    }
    copy
}

/// How the backend hands back its proposals. Fixed by configuration, never guessed from an
/// answer.
#[derive(Clone, Copy, Debug, PartialEq, Eq, Structural)]
pub enum ResponseConvention {
    /// One proposal per choice, on the first line of its content that is not empty.
    PlainText,
    /// One choice, whose content is a JSON object with the proposals under `messages`.
    Json,
}

/// A request for completions.
#[derive(Debug)]
pub struct CompletionRequest {
    pub model: String,
    /// How many proposals are asked for.
    pub n: usize,
    /// The text at which the backend is to stop, if any.
    pub stop: Option<String>,
    pub messages: Vec<ConversationTurn>,
}

/// A function that the backend asks to have called.
#[derive(Debug)]
pub struct Function {
    pub name: String,
    pub arguments: String,
}

/// A request of the backend to call a tool.
#[derive(Debug)]
pub struct ToolCall {
    pub id: String,
    pub kind: String,
    pub function: Function,
}

/// The message of one choice.
#[derive(Debug)]
pub struct Message {
    pub content: Option<String>,
    pub tool_calls: Option<Vec<ToolCall>>,
    pub role: String,
}

/// What a completion cost, in tokens.
#[derive(Clone, Copy, Debug)]
pub struct Usage {
    pub completion_tokens: u32,
    pub prompt_tokens: u32,
    pub total_tokens: u32,
}

/// One completion of those that were asked for.
#[derive(Debug)]
pub struct Choice {
    pub finish_reason: Option<String>,
    pub index: u32,
    pub message: Message,
}

/// The answer of the backend to a request for completions.
#[derive(Debug)]
pub struct ChatCompletionResponse {
    pub id: String,
    pub choices: Vec<Choice>,
    pub created: u32,
    pub model: String,
    pub system_fingerprint: Option<String>,
    pub object: String,
    pub usage: Option<Usage>,
}

/// The content of a choice as plain values: `None` where it has none.
pub open spec fn content_view(choice: Choice) -> Option<Seq<char>> {
    match choice.message.content {
        Some(text) => Some(text@),
        None => None,
    }
}

/// The contents of `choices`, in order.
pub open spec fn content_views(choices: Seq<Choice>) -> Seq<Option<Seq<char>>> {
    choices.map_values(|c: Choice| content_view(c))
}

/// What came of a request to the backend.
#[derive(Debug)]
pub enum BackendReply {
    /// The backend answered with this completion.
    Completion(ChatCompletionResponse),
    /// The backend answered with something that is no completion: what it sent.
    Malformed(String),
    /// The backend could not be reached: why.
    Unreachable(String),
}

/// A `BackendReply` as plain values; of a completion, the contents of its choices.
pub ghost enum ReplyView {
    Completion(Seq<Option<Seq<char>>>),
    Malformed(Seq<char>),
    Unreachable(Seq<char>),
}

impl View for BackendReply {
    type V = ReplyView;

    open spec fn view(&self) -> ReplyView {
        match self {
            BackendReply::Completion(completion) => ReplyView::Completion(
                content_views(completion.choices@),
            ),
            BackendReply::Malformed(payload) => ReplyView::Malformed(payload@),
            BackendReply::Unreachable(reason) => ReplyView::Unreachable(reason@),
        }
    }
}

/// The access token of the backend. It is handed through and never stored or shown.
pub struct OpenAIKey {
    key: String,
}

impl View for OpenAIKey {
    type V = Seq<char>;

    closed spec fn view(&self) -> Seq<char> {
        self.key@
    }
}

impl OpenAIKey {
    /// The key that holds `key`.
    pub fn new(key: String) -> (made: OpenAIKey)
        ensures
            made@ == key@,
    {
        OpenAIKey { key }
    }

    /// The key that was found in one place, unless the user asked to be prompted for a new
    /// one.
    pub fn unless_forced(force_key_prompt: bool, found: Option<String>) -> (key: Option<
        OpenAIKey,
    >)
        ensures
            key is Some <==> !force_key_prompt && found is Some,
            key matches Some(k) ==> k@ == found.unwrap()@,
    {
        match found {
            Some(text) => {
                if force_key_prompt {
                    None
                } else {
                    Some(OpenAIKey { key: text })
                }
            },
            None => None,
        }
    }

    /// The token itself.
    pub fn get_key(&self) -> (key: &str)
        ensures
            key@ == self@,
    {
        self.key.as_str()
    }
}

/// The client of the backend: it knows the token with which requests are signed.
pub struct OpenAIClient {
    api_key: OpenAIKey,
}

impl OpenAIClient {
    /// The token of this client.
    pub closed spec fn key(&self) -> Seq<char> {
        self.api_key@
    }

    /// A client that signs with `api_key`.
    pub fn new(api_key: OpenAIKey) -> (client: OpenAIClient)
        ensures
            client.key() == api_key@,
    {
        OpenAIClient { api_key }
    }

    /// The value of the `Authorization` header of a request.
    pub fn authorization(&self) -> (value: String)
        ensures
            value@ == "Bearer "@ + self.key(),
    {
        "Bearer ".to_owned().concat(self.api_key.get_key())
    }
}

} // verus!
