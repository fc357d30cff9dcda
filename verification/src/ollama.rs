//! The client of an Ollama server.
use vstd::prelude::*;
use vstd::string::*;
use crate::config::OllamaConfig;
use crate::llm::{
    messages_of, request_messages, text_of, ChatMessage, ChatRequest,
    LLMRole, Message, LLM,
};
use crate::stream::{initial, StreamParser, WireFormat};

verus! {

/// The client of an Ollama server.
#[derive(Debug)]
pub struct Ollama {
    url: String,
    model: String,
    messages: Vec<ChatMessage>,
}

impl Ollama {
    /// The address requests are posted to.
    pub closed spec fn endpoint(&self) -> Seq<char> {
        self.url@
    }

    /// The model requests ask for.
    pub closed spec fn model_name(&self) -> Seq<char> {
        self.model@
    }

    /// Builds the client.
    pub fn new(config: OllamaConfig) -> (client: Ollama)
        ensures
            client.endpoint() == config.url@,
            client.model_name() == config.model@,
            client.context() == Seq::<Message>::empty(),
    {
        let client = Ollama { url: config.url, model: config.model, messages: Vec::new() };
        assert(messages_of(client.messages@) =~= Seq::<Message>::empty());
        client
    }

    /// A parser for the answer to one request: this backend streams
    /// one JSON object per line.
    pub fn parser(&self) -> (parser: StreamParser)
        ensures
            parser@ == initial(WireFormat::JsonLines),
    {
        StreamParser::new(WireFormat::JsonLines)
    }

    /// The request that asks for the next answer: it carries the context
    /// as it stands, message for message.
    pub fn request(&self) -> (request: ChatRequest)
        ensures
            request.url@ == self.endpoint(),
            request.authorization is None,
            text_of(request.model) == Some(self.model_name()),
            messages_of(request.messages@) == self.context(),
            request.stream,
    {
        ChatRequest {
            url: self.url.clone(),
            authorization: None,
            model: Some(self.model.clone()),
            messages: request_messages(&self.messages),
            stream: true,
        }
    }
}

impl LLM for Ollama {
    closed spec fn context(&self) -> Seq<Message> {
        messages_of(self.messages@)
    }

    fn append_chat_msg(&mut self, msg: String, role: LLMRole)
        ensures
            final(self).endpoint() == old(self).endpoint(),
            final(self).model_name() == old(self).model_name(),
    {
        self.messages.push(ChatMessage { role, content: msg });
        assert(messages_of(self.messages@) =~= messages_of(old(self).messages@).push(
            Message { role, content: msg@ },
        ));
    }

    fn clear(&mut self)
        ensures
            final(self).endpoint() == old(self).endpoint(),
            final(self).model_name() == old(self).model_name(),
    {
        self.messages.clear();
        assert(messages_of(self.messages@) =~= Seq::<Message>::empty());
    }
}

} // verus!
