//! The client of the xAI chat completion service.
use vstd::prelude::*;
use vstd::string::*;
use crate::config::{ConfigError, XaiConfig};
use crate::llm::{
    bearer, bearer_token, messages_of, request_messages, text_of,
    ChatMessage, ChatRequest, LLMBackend, LLMRole, Message, LLM,
};
use crate::stream::{initial, StreamParser, WireFormat};

verus! {

/// The client of the xAI chat completion service.
#[derive(Debug)]
pub struct Xai {
    url: String,
    model: String,
    api_key: String,
    messages: Vec<ChatMessage>,
}

impl Xai {
    /// The address requests are posted to.
    pub closed spec fn endpoint(&self) -> Seq<char> {
        self.url@
    }

    /// The model requests ask for.
    pub closed spec fn model_name(&self) -> Seq<char> {
        self.model@
    }

    /// The API key requests are signed with.
    pub closed spec fn key(&self) -> Seq<char> {
        self.api_key@
    }

    /// The key that is used: the one found in the environment, else the
    /// configured one.
    pub open spec fn chosen_key(config: XaiConfig, env_key: Option<String>) -> Option<Seq<char>> {
        match env_key {
            Some(key) => Some(key@),
            None => text_of(config.xai_api_key),
        }
    }

    /// Builds the client. `env_key` is the API key found in the environment,
    /// if any; without any key the client cannot be built.
    pub fn new(config: XaiConfig, env_key: Option<String>) -> (client: Result<Xai, ConfigError>)
        ensures
            match client {
                Ok(client) => {
                    &&& Xai::chosen_key(config, env_key) == Some(client.key())
                    &&& client.endpoint() == config.url@
                    &&& client.model_name() == config.model@
                    &&& client.context() == Seq::<Message>::empty()
                },
                Err(error) => {
                    &&& Xai::chosen_key(config, env_key) is None
                    &&& error == ConfigError::MissingApiKey(LLMBackend::Xai)
                },
            },
    {
        let api_key = match env_key {
            Some(key) => key,
            None => match config.xai_api_key {
                Some(key) => key,
                None => return Err(ConfigError::MissingApiKey(LLMBackend::Xai)),
            },
        };
        let client = Xai { url: config.url, model: config.model, api_key, messages: Vec::new() };
        assert(messages_of(client.messages@) =~= Seq::<Message>::empty());
        Ok(client)
    }

    /// A parser for the answer to one request: this backend streams
    /// server-sent `data:` lines.
    pub fn parser(&self) -> (parser: StreamParser)
        ensures
            parser@ == initial(WireFormat::Sse),
    {
        StreamParser::new(WireFormat::Sse)
    }

    /// The request that asks for the next answer: it carries the context
    /// as it stands, message for message.
    pub fn request(&self) -> (request: ChatRequest)
        ensures
            request.url@ == self.endpoint(),
            text_of(request.authorization) == Some(bearer(self.key())),
            text_of(request.model) == Some(self.model_name()),
            messages_of(request.messages@) == self.context(),
            request.stream,
    {
        ChatRequest {
            url: self.url.clone(),
            authorization: Some(bearer_token(self.api_key.as_str())),
            model: Some(self.model.clone()),
            messages: request_messages(&self.messages),
            stream: true,
        }
    }
}

impl LLM for Xai {
    closed spec fn context(&self) -> Seq<Message> {
        messages_of(self.messages@)
    }

    fn append_chat_msg(&mut self, msg: String, role: LLMRole)
        ensures
            final(self).endpoint() == old(self).endpoint(),
            final(self).model_name() == old(self).model_name(),
            final(self).key() == old(self).key(),
    {
        self.messages.push(ChatMessage { role, content: msg });
        assert(messages_of(self.messages@) =~= messages_of(old(self).messages@).push(
            Message { role, content: msg@ },
        ));
    }

    fn clear(&mut self)
        ensures
            final(self).endpoint() == old(self).endpoint(),
            final(self).model_name() == old(self).model_name(),
            final(self).key() == old(self).key(),
    {
        self.messages.clear();
        assert(messages_of(self.messages@) =~= Seq::<Message>::empty());
    }
}

} // verus!
