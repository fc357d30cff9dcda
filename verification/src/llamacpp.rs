//! The client of a llama.cpp server.
use vstd::prelude::*;
use vstd::string::*;
use crate::config::LLamacppConfig;
use crate::llm::{
    bearer, bearer_token, messages_of, request_messages, text_of,
    ChatMessage, ChatRequest, LLMRole, Message, LLM,
};
use crate::stream::{initial, StreamParser, WireFormat};

verus! {

/// The client of a llama.cpp server.
#[derive(Debug)]
pub struct LLamacpp {
    url: String,
    api_key: Option<String>,
    messages: Vec<ChatMessage>,
}

impl LLamacpp {
    /// The address requests are posted to.
    pub closed spec fn endpoint(&self) -> Seq<char> {
        self.url@
    }

    /// The API key requests are signed with, where there is one.
    pub closed spec fn key(&self) -> Option<Seq<char>> {
        text_of(self.api_key)
    }

    /// The key that is used: the one found in the environment, else the
    /// configured one.
    pub open spec fn chosen_key(config: LLamacppConfig, env_key: Option<String>) -> Option<
        Seq<char>,
    > {
        match env_key {
            Some(key) => Some(key@),
            None => text_of(config.api_key),
        }
    }

    /// Builds the client. `env_key` is the API key found in the environment,
    /// if any.
    pub fn new(config: LLamacppConfig, env_key: Option<String>) -> (client: LLamacpp)
        ensures
            client.key() == LLamacpp::chosen_key(config, env_key),
            client.endpoint() == config.url@,
            client.context() == Seq::<Message>::empty(),
    {
        let api_key = match env_key {
            Some(key) => Some(key),
            None => config.api_key,
        };
        let client = LLamacpp { url: config.url, api_key, messages: Vec::new() };
        assert(messages_of(client.messages@) =~= Seq::<Message>::empty());
        client
    }

    /// A parser for the answer to one request: this backend streams
    /// server-sent events whose payloads are found by pattern.
    pub fn parser(&self) -> (parser: StreamParser)
        ensures
            parser@ == initial(WireFormat::SsePattern),
    {
        StreamParser::new(WireFormat::SsePattern)
    }

    /// The request that asks for the next answer: it carries the context
    /// as it stands, message for message.
    pub fn request(&self) -> (request: ChatRequest)
        ensures
            request.url@ == self.endpoint(),
            text_of(request.authorization) == match self.key() {
                Some(key) => Some(bearer(key)),
                None => None,
            },
            request.model is None,
            messages_of(request.messages@) == self.context(),
            request.stream,
    {
        ChatRequest {
            url: self.url.clone(),
            authorization: match &self.api_key {
                Some(key) => Some(bearer_token(key.as_str())),
                None => None,
            },
            model: None,
            messages: request_messages(&self.messages),
            stream: true,
        }
    }
}

impl LLM for LLamacpp {
    closed spec fn context(&self) -> Seq<Message> {
        messages_of(self.messages@)
    }

    fn append_chat_msg(&mut self, msg: String, role: LLMRole)
        ensures
            final(self).endpoint() == old(self).endpoint(),
            final(self).key() == old(self).key(),
    {
        self.messages.push(ChatMessage { role, content: msg });
        assert(messages_of(self.messages@) =~= messages_of(old(self).messages@).push(
            Message { role, content: msg@ },
        ));
    }

    fn clear(&mut self)
        ensures
            final(self).endpoint() == old(self).endpoint(),
            final(self).key() == old(self).key(),
    {
        self.messages.clear();
        assert(messages_of(self.messages@) =~= Seq::<Message>::empty());
    }
}

} // verus!
