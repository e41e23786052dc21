use vstd::prelude::*;

verus! {

/// The settings of a client of the Cerebras chat completion service: the API key
/// and the base URL of the service.
#[derive(Clone, Debug)]
pub struct CerebrasClient {
    api_key: String,
    base_url: String,
}

impl CerebrasClient {
    pub closed spec fn api_key(&self) -> Seq<char> {
        self.api_key@
    }

    pub closed spec fn base_url(&self) -> Seq<char> {
        self.base_url@
    }

    /// A client with the key `api_key` for the public Cerebras service.
    pub fn new(api_key: String) -> (c: CerebrasClient)
        ensures
            c.api_key() == api_key@,
            c.base_url() == "https://api.cerebras.ai/v1"@,
    {
        CerebrasClient { api_key, base_url: String::from_str("https://api.cerebras.ai/v1") }
    }

    /// The URL that chat completions are posted to.
    pub fn completions_url(&self) -> (u: String)
        ensures
            u@ == self.base_url() + "/chat/completions"@,
    {
        let mut u = self.base_url.clone();
        u.append("/chat/completions");
        u
    }

    /// The value of the `Authorization` header.
    pub fn authorization(&self) -> (h: String)
        ensures
            h@ == "Bearer "@ + self.api_key(),
    {
        let mut h = String::from_str("Bearer ");
        h.append(self.api_key.as_str());
        h
    }
}

/// The author of a message sent to the service.
#[derive(Clone, Copy, Debug, PartialEq, Eq, Structural)]
pub enum Role {
    System,
    User,
    Assistant,
}

impl Role {
    pub open spec fn name_spec(self) -> Seq<char> {
        match self {
            Role::System => "system"@,
            Role::User => "user"@,
            Role::Assistant => "assistant"@,
        }
    }

    /// The role's name in the request.
    pub fn name(&self) -> (s: &'static str)
        ensures
            s@ == self.name_spec(),
    {
        match self {
            Role::System => "system",
            Role::User => "user",
            Role::Assistant => "assistant",
        }
    }
}

/// A part of a chat message: text, or something else (an image, a tool call).
pub enum ContentPart {
    Text(String),
    Other,
}

/// A message of the chat history.
pub enum ChatMessage {
    System(String),
    User(Vec<ContentPart>),
    Assistant(Vec<ContentPart>),
}

/// A message as the service receives it.
pub struct RequestMessage {
    pub role: Role,
    pub content: String,
}

/// The text parts of `parts`, concatenated in order; other parts are left out.
pub open spec fn parts_text(parts: Seq<ContentPart>) -> Seq<char>
    decreases parts.len(),
{
    if parts.len() == 0 {
        Seq::empty()
    } else {
        parts_text(parts.drop_last()) + match parts.last() {
            ContentPart::Text(t) => t@,
            ContentPart::Other => Seq::empty(),
        }
    }
}

/// The role and text that a history message is sent as.
pub open spec fn message_view(m: ChatMessage) -> (Role, Seq<char>) {
    match m {
        ChatMessage::System(c) => (Role::System, c@),
        ChatMessage::User(parts) => (Role::User, parts_text(parts@)),
        ChatMessage::Assistant(parts) => (Role::Assistant, parts_text(parts@)),
    }
}

/// A request message read as its role and text.
pub open spec fn request_view(m: RequestMessage) -> (Role, Seq<char>) {
    (m.role, m.content@)
}

/// The messages of a request: the preamble as a system message where there is
/// one, then each message of the history with its text parts joined.
pub open spec fn request_messages(preamble: Option<Seq<char>>, history: Seq<ChatMessage>) -> Seq<(Role, Seq<char>)> {
    (match preamble {
        Some(p) => seq![(Role::System, p)],
        None => Seq::empty(),
    }) + history.map_values(|m: ChatMessage| message_view(m))
}

/// The text parts of `parts`, joined.
pub fn text_of_parts(parts: &[ContentPart]) -> (t: String)
    ensures
        t@ == parts_text(parts@),
{
    let mut t = String::new();
    let n = parts.len();
    let mut i: usize = 0;
    while i < n
        invariant
            i <= n,
            n == parts@.len(),
            t@ == parts_text(parts@.take(i as int)),
        decreases n - i,
    {
        proof {
            assert(parts@.take(i + 1).drop_last() =~= parts@.take(i as int));
        }
        match &parts[i] {
            ContentPart::Text(s) => {
                t.append(s.as_str());
            },
            ContentPart::Other => {
                proof {
                    assert(t@ + Seq::<char>::empty() =~= t@);
                }
            },
        }
        i = i + 1;
    }
    proof {
        assert(parts@.take(n as int) =~= parts@);
    }
    t
}

/// The message that a history message is sent as.
pub fn request_message(m: &ChatMessage) -> (r: RequestMessage)
    ensures
        request_view(r) == message_view(*m),
{
    match m {
        ChatMessage::System(c) => RequestMessage { role: Role::System, content: c.clone() },
        ChatMessage::User(parts) => RequestMessage {
            role: Role::User,
            content: text_of_parts(parts.as_slice()),
        },
        ChatMessage::Assistant(parts) => RequestMessage {
            role: Role::Assistant,
            content: text_of_parts(parts.as_slice()),
        },
    }
}

/// The messages of a chat completion request.
pub fn build_messages(preamble: Option<String>, history: &[ChatMessage]) -> (r: Vec<RequestMessage>)
    ensures
        r@.map_values(|m: RequestMessage| request_view(m)) == request_messages(
            match preamble {
                Some(p) => Some(p@),
                None => None,
            },
            history@,
        ),
{
    let mut r: Vec<RequestMessage> = Vec::new();
    let ghost head: Seq<(Role, Seq<char>)> = match &preamble {
        Some(p) => seq![(Role::System, p@)],
        None => Seq::empty(),
    };
    match preamble {
        Some(p) => {
            r.push(RequestMessage { role: Role::System, content: p });
        },
        None => {},
    }
    proof {
        assert(r@.map_values(|m: RequestMessage| request_view(m)) =~= head);
    }
    let n = history.len();
    let mut i: usize = 0;
    while i < n
        invariant
            i <= n,
            n == history@.len(),
            r@.map_values(|m: RequestMessage| request_view(m)) =~= head + history@.take(
                i as int,
            ).map_values(|m: ChatMessage| message_view(m)),
        decreases n - i,
    {
        let m = request_message(&history[i]);
        let ghost before = r@;
        r.push(m);
        proof {
            assert(r@ == before.push(m));
            assert(history@.take(i + 1).map_values(|m: ChatMessage| message_view(m))
                =~= history@.take(i as int).map_values(|m: ChatMessage| message_view(m)).push(
                message_view(history@[i as int]),
            ));
            assert(r@.map_values(|m: RequestMessage| request_view(m)) =~= before.map_values(
                |m: RequestMessage| request_view(m),
            ).push(request_view(m)));
        }
        i = i + 1;
    }
    proof {
        assert(history@.take(n as int) =~= history@);
    }
    r
}

/// The reply of the service.
#[derive(Clone, Debug)]
pub struct CerebrasCompletionResponse {
    pub id: Option<String>,
    pub choices: Vec<CerebrasChoice>,
    pub usage: Option<CerebrasUsage>,
}

/// One of the answers in a reply.
#[derive(Clone, Debug)]
pub struct CerebrasChoice {
    pub index: Option<usize>,
    pub message: CerebrasResponseMessage,
    pub finish_reason: Option<String>,
}

/// The message of an answer.
#[derive(Clone, Debug)]
pub struct CerebrasResponseMessage {
    pub role: String,
    pub content: String,
}

/// The token counts that the service reports.
#[derive(Clone, Debug)]
pub struct CerebrasUsage {
    pub prompt_tokens: usize,
    pub completion_tokens: usize,
    pub total_tokens: usize,
}

/// The token counts of a reply, with 0 for what was not reported.
#[derive(Clone, Copy, Debug)]
pub struct TokenUsage {
    pub input_tokens: u64,
    pub output_tokens: u64,
    pub total_tokens: u64,
}

impl CerebrasCompletionResponse {
    /// The text of the first answer; empty where there is none.
    pub fn choice_text(&self) -> (t: String)
        ensures
            t@ == if self.choices@.len() > 0 {
                self.choices@[0].message.content@
            } else {
                Seq::<char>::empty()
            },
    {
        if self.choices.len() > 0 {
            self.choices[0].message.content.clone()
        } else {
            String::new()
        }
    }

    /// The token counts of the reply: those reported, or 0 each.
    pub fn token_usage(&self) -> (u: TokenUsage)
        ensures
            match self.usage {
                Some(r) => u.input_tokens == r.prompt_tokens && u.output_tokens
                    == r.completion_tokens && u.total_tokens == r.total_tokens,
                None => u.input_tokens == 0 && u.output_tokens == 0 && u.total_tokens == 0,
            },
    {
        match &self.usage {
            Some(r) => TokenUsage {
                input_tokens: r.prompt_tokens as u64,
                output_tokens: r.completion_tokens as u64,
                total_tokens: r.total_tokens as u64,
            },
            None => TokenUsage { input_tokens: 0, output_tokens: 0, total_tokens: 0 },
        }
    }
}

/// What can go wrong with the Cerebras client: no API key, a failed HTTP
/// exchange (with the transport's description) or a refused request.
pub enum CerebrasError {
    ApiKeyNotFound,
    HttpError(String),
    RequestError(String),
}

impl CerebrasError {
    /// The text of the error as it is shown to the user.
    pub fn message(&self) -> (m: String)
        ensures
            m@ == match self {
                CerebrasError::ApiKeyNotFound => "CEREBRAS_API_KEY environment variable not found"@,
                CerebrasError::HttpError(e) => "HTTP error: "@ + e@,
                CerebrasError::RequestError(msg) => "Request error: "@ + msg@,
            },
    {
        match self {
            CerebrasError::ApiKeyNotFound => String::from_str(
                "CEREBRAS_API_KEY environment variable not found",
            ),
            CerebrasError::HttpError(e) => {
                let mut m = String::from_str("HTTP error: ");
                m.append(e.as_str());
                m
            },
            CerebrasError::RequestError(msg) => {
                let mut m = String::from_str("Request error: ");
                m.append(msg.as_str());
                m
            },
        }
    }
}

/// Each text part of a list of parts stands, whole, in their joined text.
proof fn lemma_part_in_parts_text(parts: Seq<ContentPart>, i: int, t: String)
    requires
        0 <= i < parts.len(),
        parts[i] == ContentPart::Text(t),
    ensures
        exists|x: Seq<char>, y: Seq<char>| parts_text(parts) == x + t@ + y,
    decreases parts.len(),
{
    if i == parts.len() - 1 {
        assert(parts_text(parts) =~= parts_text(parts.drop_last()) + t@ + Seq::<char>::empty());
    } else {
        assert(parts.drop_last()[i] == parts[i]);
        lemma_part_in_parts_text(parts.drop_last(), i, t);
        let (x, y) = choose|x: Seq<char>, y: Seq<char>| parts_text(parts.drop_last()) == x + t@ + y;
        let tail = match parts.last() {
            ContentPart::Text(u) => u@,
            ContentPart::Other => Seq::<char>::empty(),
        };
        assert(parts_text(parts) =~= x + t@ + (y + tail));
    }
}

/// Every text part of a user or an assistant message is sent, whole, in that
/// message's content.
pub proof fn law_text_parts_are_sent(m: ChatMessage, i: int, t: String)
    requires
        match m {
            ChatMessage::User(parts) => 0 <= i < parts@.len() && parts@[i] == ContentPart::Text(t),
            ChatMessage::Assistant(parts) => 0 <= i < parts@.len() && parts@[i]
                == ContentPart::Text(t),
            ChatMessage::System(_) => false,
        },
    ensures
        exists|x: Seq<char>, y: Seq<char>| message_view(m).1 == x + t@ + y,
{
    match m {
        ChatMessage::User(parts) => lemma_part_in_parts_text(parts@, i, t),
        ChatMessage::Assistant(parts) => lemma_part_in_parts_text(parts@, i, t),
        ChatMessage::System(_) => {},
    }
}

/// The role of a message does not change the text it is sent with: the same
/// parts give the same content from the user as from the assistant, and a
/// system message is sent as its text.
pub proof fn law_role_keeps_text(parts: Vec<ContentPart>, c: String)
    ensures
        message_view(ChatMessage::User(parts)).1 == message_view(ChatMessage::Assistant(parts)).1,
        message_view(ChatMessage::System(c)).1 == c@,
{
}
} // verus!
