//! The client of the OpenAI chat completion service that answers in one
//! piece.

use vstd::prelude::*;
use vstd::string::*;
use serde_json::Value;
use crate::config::ConfigError;
use crate::json::{element, json_element, json_member, json_string, member, string_of};
use crate::llm::{
    bearer, bearer_token, messages_of, request_messages, text_of,
    ChatMessage, ChatRequest, LLMBackend,
};
use crate::text::{stripped, trim_matches};

verus! {

/// The client of the OpenAI chat completion service that answers in one
/// piece.
#[derive(Debug)]
pub struct GPT {
    openai_api_key: String,
}

/// The text under `choices[0].message.content`, where that path leads to a
/// JSON string.
pub open spec fn message_text_of(value: Value) -> Option<Seq<char>> {
    match json_member(value, "choices"@) {
        Some(choices) => match json_element(choices, 0) {
            Some(first) => match json_member(first, "message"@) {
                Some(message) => match json_member(message, "content"@) {
                    Some(content) => json_string(content),
                    None => None,
                },
                None => None,
            },
            None => None,
        },
        None => None,
    }
}

/// The answer a response carries: its message text without quotation marks
/// around it.
pub open spec fn answer_of(value: Value) -> Option<Seq<char>> {
    match message_text_of(value) {
        Some(text) => Some(stripped(text, '"')),
        None => None,
    }
}

impl GPT {
    /// The API key requests are signed with.
    pub closed spec fn key(&self) -> Seq<char> {
        self.openai_api_key@
    }

    /// The key that is used: the one found in the environment, else the
    /// configured one.
    pub open spec fn chosen_key(api_key: Option<String>, env_key: Option<String>) -> Option<
        Seq<char>,
    > {
        match env_key {
            Some(key) => Some(key@),
            None => text_of(api_key),
        }
    }

    /// Builds the client. `env_key` is the API key found in the environment,
    /// if any; without any key the client cannot be built.
    pub fn new(api_key: Option<String>, env_key: Option<String>) -> (client: Result<
        GPT,
        ConfigError,
    >)
        ensures
            match client {
                Ok(client) => GPT::chosen_key(api_key, env_key) == Some(client.key()),
                Err(error) => {
                    &&& GPT::chosen_key(api_key, env_key) is None
                    &&& error == ConfigError::MissingApiKey(LLMBackend::ChatGPT)
                },
            },
    {
        match env_key {
            Some(key) => Ok(GPT { openai_api_key: key }),
            None => match api_key {
                Some(key) => Ok(GPT { openai_api_key: key }),
                None => Err(ConfigError::MissingApiKey(LLMBackend::ChatGPT)),
            },
        }
    }

    /// The request that asks for an answer to `chat_messages`: it carries
    /// those messages, one for one.
    pub fn request(&self, chat_messages: &Vec<ChatMessage>) -> (request: ChatRequest)
        ensures
            request.url@ == "https://api.openai.com/v1/chat/completions"@,
            text_of(request.authorization) == Some(bearer(self.key())),
            text_of(request.model) == Some("gpt-3.5-turbo"@),
            messages_of(request.messages@) == messages_of(chat_messages@),
            !request.stream,
    {
        ChatRequest {
            url: String::from_str("https://api.openai.com/v1/chat/completions"),
            authorization: Some(bearer_token(self.openai_api_key.as_str())),
            model: Some(String::from_str("gpt-3.5-turbo")),
            messages: request_messages(chat_messages),
            stream: false,
        }
    }

    /// Reads the answer out of a response, if it carries one.
    pub fn answer(response: &Value) -> (answer: Option<String>)
        ensures
            text_of(answer) == answer_of(*response),
    {
        let choices = match member(response, "choices") {
            Some(v) => v,
            None => return None,
        };
        let first = match element(choices, 0) {
            Some(v) => v,
            None => return None,
        };
        let message = match member(first, "message") {
            Some(v) => v,
            None => return None,
        };
        let content = match member(message, "content") {
            Some(v) => v,
            None => return None,
        };
        match string_of(content) {
            Some(text) => Some(String::from_str(trim_matches(text.as_str(), '"'))),
            None => None,
        }
    }
}

} // verus!
