//! Backend-independent vocabulary: answer events, roles and chat messages.

use vstd::prelude::*;
use vstd::string::*;

verus! {

/// One increment of a streamed answer, as delivered to the consumer.
#[derive(Clone, Debug)]
pub enum LLMAnswer {
    StartAnswer,
    Answer(String),
    EndAnswer,
}

/// Mathematical model of an [`LLMAnswer`].
pub enum AnswerEvent {
    Start,
    Chunk(Seq<char>),
    End,
}

impl View for LLMAnswer {
    type V = AnswerEvent;

    open spec fn view(&self) -> AnswerEvent {
        match self {
            LLMAnswer::StartAnswer => AnswerEvent::Start,
            LLMAnswer::Answer(text) => AnswerEvent::Chunk(text@),
            LLMAnswer::EndAnswer => AnswerEvent::End,
        }
    }
}

/// Who authored a chat message.
#[derive(Clone, Copy, Debug, PartialEq, Eq, Structural)]
pub enum LLMRole {
    ASSISTANT,
    SYSTEM,
    USER,
}

impl LLMRole {
    /// The lower-case tag under which the role travels on the wire.
    pub open spec fn tag(self) -> Seq<char> {
        match self {
            LLMRole::ASSISTANT => "assistant"@,
            LLMRole::SYSTEM => "system"@,
            LLMRole::USER => "user"@,
        }
    }

    /// Renders the role as its wire tag.
    pub fn to_string(&self) -> (s: String)
        ensures
            s@ == self.tag(),
    {
        match self {
            LLMRole::ASSISTANT => String::from_str("assistant"),
            LLMRole::SYSTEM => String::from_str("system"),
            LLMRole::USER => String::from_str("user"),
        }
    }
}

/// The provider a conversation talks to.
#[derive(Clone, Copy, Debug, PartialEq, Eq, Structural)]
pub enum LLMBackend {
    ChatGPT,
    LLamacpp,
    Ollama,
    Xai,
    Gemini,
}

/// One entry of the context that is sent with the next request.
#[derive(Debug)]
pub struct ChatMessage {
    pub role: LLMRole,
    pub content: String,
}

/// Mathematical model of a [`ChatMessage`].
pub struct Message {
    pub role: LLMRole,
    pub content: Seq<char>,
}

impl View for ChatMessage {
    type V = Message;

    open spec fn view(&self) -> Message {
        Message { role: self.role, content: self.content@ }
    }
}

impl Clone for ChatMessage {
    fn clone(&self) -> (copy: ChatMessage)
        ensures
            copy@ == self@,
    {
        ChatMessage { role: self.role, content: self.content.clone() }
    }
}

/// The models of a list of chat messages.
pub open spec fn messages_of(messages: Seq<ChatMessage>) -> Seq<Message> {
    Seq::new(messages.len(), |i: int| messages[i]@)
}

/// Copies the context into the message list of a request: the same
/// messages in the same order, none added and none left out.
pub fn request_messages(messages: &Vec<ChatMessage>) -> (sent: Vec<ChatMessage>)
    ensures
        messages_of(sent@) == messages_of(messages@),
{
    let mut sent: Vec<ChatMessage> = Vec::new();
    let mut i: usize = 0;
    while i < messages.len()
        invariant
            0 <= i <= messages.len(),
            sent.len() == i,
            forall|j: int| 0 <= j < i ==> sent@[j]@ == messages@[j]@,
        decreases messages.len() - i,
    {
        sent.push(messages[i].clone());
        i = i + 1;
    }
    assert(messages_of(sent@) =~= messages_of(messages@));
    sent
}

/// What a backend asks the transport to send: where to, under which
/// credentials, for which model, with which context, and whether the answer
/// is to be streamed. The request is a JSON body that is posted.
#[derive(Debug)]
pub struct ChatRequest {
    pub url: String,
    /// The value of the `Authorization` header, where one is sent.
    pub authorization: Option<String>,
    pub model: Option<String>,
    pub messages: Vec<ChatMessage>,
    /// Whether the answer is asked for as a stream.
    pub stream: bool,
}

/// The `Authorization` header value that carries `key`.
pub open spec fn bearer(key: Seq<char>) -> Seq<char> {
    "Bearer "@ + key
}

/// Builds the `Authorization` header value that carries `key`.
pub fn bearer_token(key: &str) -> (value: String)
    ensures
        value@ == bearer(key@),
{
    let mut value = String::from_str("Bearer ");
    value.append(key);
    value
}

/// The characters of an optional string.
pub open spec fn text_of(value: Option<String>) -> Option<Seq<char>> {
    match value {
        Some(text) => Some(text@),
        None => None,
    }
}

/// What every backend client offers between two requests: an ordered context
/// that grows by one message at a time and can be emptied.
pub trait LLM {
    /// The context that the next request will carry.
    spec fn context(&self) -> Seq<Message>;

    /// Appends one message to the context.
    fn append_chat_msg(&mut self, msg: String, role: LLMRole)
        ensures
            final(self).context() == old(self).context().push(Message { role, content: msg@ }),
    ;

    /// Empties the context.
    fn clear(&mut self)
        ensures
            final(self).context() == Seq::<Message>::empty(),
    ;
}

} // verus!
