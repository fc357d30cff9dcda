//! The one place where a configuration is turned into a backend client.

use vstd::prelude::*;
use crate::chatgpt::ChatGPT;
use crate::config::{Config, ConfigError};
use crate::gemini::{generate_url, Gemini};
use crate::llamacpp::LLamacpp;
use crate::llm::{LLMBackend, LLMRole, Message, LLM};
use crate::ollama::Ollama;
use crate::xai::Xai;

verus! {

/// The API keys found in the environment.
#[derive(Debug)]
pub struct ApiKeys {
    pub openai: Option<String>,
    pub llamacpp: Option<String>,
    pub xai: Option<String>,
    pub gemini: Option<String>,
}

/// The client of the selected backend.
#[derive(Debug)]
pub enum Backend {
    ChatGPT(ChatGPT),
    LLamacpp(LLamacpp),
    Ollama(Ollama),
    Xai(Xai),
    Gemini(Gemini),
}

/// The registry of backends.
pub struct LLMModel;

/// Why no client for `model` can be built from `config` and `keys`, if
/// there is a reason: the backend's section is missing, or the backend needs
/// an API key and neither the section nor the environment holds one.
pub open spec fn init_error(model: LLMBackend, config: Config, keys: ApiKeys) -> Option<
    ConfigError,
> {
    match model {
        LLMBackend::ChatGPT => if ChatGPT::chosen_key(config.chatgpt, keys.openai) is None {
            Some(ConfigError::MissingApiKey(model))
        } else {
            None
        },
        LLMBackend::LLamacpp => if config.llamacpp is None {
            Some(ConfigError::MissingBackend(model))
        } else {
            None
        },
        LLMBackend::Ollama => if config.ollama is None {
            Some(ConfigError::MissingBackend(model))
        } else {
            None
        },
        LLMBackend::Xai => match config.xai {
            None => Some(ConfigError::MissingBackend(model)),
            Some(section) => if Xai::chosen_key(section, keys.xai) is None {
                Some(ConfigError::MissingApiKey(model))
            } else {
                None
            },
        },
        LLMBackend::Gemini => match config.gemini {
            None => Some(ConfigError::MissingBackend(model)),
            Some(section) => if Gemini::chosen_key(section, keys.gemini) is None {
                Some(ConfigError::MissingApiKey(model))
            } else {
                None
            },
        },
    }
}

/// The address, the model and the API key of the client that is built for
/// `model` from `config` and `keys`, where one can be built.
pub open spec fn init_settings(model: LLMBackend, config: Config, keys: ApiKeys) -> (
    Seq<char>,
    Option<Seq<char>>,
    Option<Seq<char>>,
) {
    match model {
        LLMBackend::ChatGPT => (
            config.chatgpt.url@,
            Some(config.chatgpt.model@),
            ChatGPT::chosen_key(config.chatgpt, keys.openai),
        ),
        LLMBackend::LLamacpp => (
            config.llamacpp->0.url@,
            None,
            LLamacpp::chosen_key(config.llamacpp->0, keys.llamacpp),
        ),
        LLMBackend::Ollama => (config.ollama->0.url@, Some(config.ollama->0.model@), None),
        LLMBackend::Xai => (
            config.xai->0.url@,
            Some(config.xai->0.model@),
            Xai::chosen_key(config.xai->0, keys.xai),
        ),
        LLMBackend::Gemini => (
            generate_url(Gemini::chosen_base(config.gemini->0), config.gemini->0.model@),
            Some(config.gemini->0.model@),
            Gemini::chosen_key(config.gemini->0, keys.gemini),
        ),
    }
}

impl Backend {
    /// The address requests are posted to.
    pub open spec fn endpoint(&self) -> Seq<char> {
        match self {
            Backend::ChatGPT(client) => client.endpoint(),
            Backend::LLamacpp(client) => client.endpoint(),
            Backend::Ollama(client) => client.endpoint(),
            Backend::Xai(client) => client.endpoint(),
            Backend::Gemini(client) => client.endpoint(),
        }
    }

    /// The model requests ask for, where the backend takes one.
    pub open spec fn model_name(&self) -> Option<Seq<char>> {
        match self {
            Backend::ChatGPT(client) => Some(client.model_name()),
            Backend::LLamacpp(_) => None,
            Backend::Ollama(client) => Some(client.model_name()),
            Backend::Xai(client) => Some(client.model_name()),
            Backend::Gemini(client) => Some(client.model_name()),
        }
    }

    /// The API key requests are signed with, where there is one.
    pub open spec fn key(&self) -> Option<Seq<char>> {
        match self {
            Backend::ChatGPT(client) => Some(client.key()),
            Backend::LLamacpp(client) => client.key(),
            Backend::Ollama(_) => None,
            Backend::Xai(client) => Some(client.key()),
            Backend::Gemini(client) => Some(client.key()),
        }
    }

    /// Which backend the client talks to.
    pub open spec fn kind(&self) -> LLMBackend {
        match self {
            Backend::ChatGPT(_) => LLMBackend::ChatGPT,
            Backend::LLamacpp(_) => LLMBackend::LLamacpp,
            Backend::Ollama(_) => LLMBackend::Ollama,
            Backend::Xai(_) => LLMBackend::Xai,
            Backend::Gemini(_) => LLMBackend::Gemini,
        }
    }

    /// Names the backend the client talks to.
    pub fn backend(&self) -> (kind: LLMBackend)
        ensures
            kind == self.kind(),
    {
        match self {
            Backend::ChatGPT(_) => LLMBackend::ChatGPT,
            Backend::LLamacpp(_) => LLMBackend::LLamacpp,
            Backend::Ollama(_) => LLMBackend::Ollama,
            Backend::Xai(_) => LLMBackend::Xai,
            Backend::Gemini(_) => LLMBackend::Gemini,
        }
    }
}

impl LLM for Backend {
    open spec fn context(&self) -> Seq<Message> {
        match self {
            Backend::ChatGPT(client) => client.context(),
            Backend::LLamacpp(client) => client.context(),
            Backend::Ollama(client) => client.context(),
            Backend::Xai(client) => client.context(),
            Backend::Gemini(client) => client.context(),
        }
    }

    fn append_chat_msg(&mut self, msg: String, role: LLMRole)
        ensures
            final(self).kind() == old(self).kind(),
            final(self).endpoint() == old(self).endpoint(),
            final(self).model_name() == old(self).model_name(),
            final(self).key() == old(self).key(),
    {
        match self {
            Backend::ChatGPT(client) => client.append_chat_msg(msg, role),
            Backend::LLamacpp(client) => client.append_chat_msg(msg, role),
            Backend::Ollama(client) => client.append_chat_msg(msg, role),
            Backend::Xai(client) => client.append_chat_msg(msg, role),
            Backend::Gemini(client) => client.append_chat_msg(msg, role),
        }
    }

    fn clear(&mut self)
        ensures
            final(self).kind() == old(self).kind(),
            final(self).endpoint() == old(self).endpoint(),
            final(self).model_name() == old(self).model_name(),
            final(self).key() == old(self).key(),
    {
        match self {
            Backend::ChatGPT(client) => client.clear(),
            Backend::LLamacpp(client) => client.clear(),
            Backend::Ollama(client) => client.clear(),
            Backend::Xai(client) => client.clear(),
            Backend::Gemini(client) => client.clear(),
        }
    }
}

impl LLMModel {
    /// Builds the client of backend `model` from its section of `config`
    /// and the keys found in the environment. The client takes its address,
    /// its model and its key from there and starts with an empty context.
    pub fn init(model: &LLMBackend, config: Config, keys: ApiKeys) -> (client: Result<
        Backend,
        ConfigError,
    >)
        ensures
            match client {
                Ok(client) => {
                    &&& init_error(*model, config, keys) is None
                    &&& client.kind() == *model
                    &&& client.context() == Seq::<Message>::empty()
                    &&& client.endpoint() == init_settings(*model, config, keys).0
                    &&& client.model_name() == init_settings(*model, config, keys).1
                    &&& client.key() == init_settings(*model, config, keys).2
                },
                Err(error) => init_error(*model, config, keys) == Some(error),
            },
    {
        match model {
            LLMBackend::ChatGPT => match ChatGPT::new(config.chatgpt, keys.openai) {
                Ok(client) => Ok(Backend::ChatGPT(client)),
                Err(error) => Err(error),
            },
            LLMBackend::LLamacpp => match config.llamacpp {
                Some(section) => Ok(Backend::LLamacpp(LLamacpp::new(section, keys.llamacpp))),
                None => Err(ConfigError::MissingBackend(LLMBackend::LLamacpp)),
            },
            LLMBackend::Ollama => match config.ollama {
                Some(section) => Ok(Backend::Ollama(Ollama::new(section))),
                None => Err(ConfigError::MissingBackend(LLMBackend::Ollama)),
            },
            LLMBackend::Xai => match config.xai {
                Some(section) => match Xai::new(section, keys.xai) {
                    Ok(client) => Ok(Backend::Xai(client)),
                    Err(error) => Err(error),
                },
                None => Err(ConfigError::MissingBackend(LLMBackend::Xai)),
            },
            LLMBackend::Gemini => match config.gemini {
                Some(section) => match Gemini::new(section, keys.gemini) {
                    Ok(client) => Ok(Backend::Gemini(client)),
                    Err(error) => Err(error),
                },
                None => Err(ConfigError::MissingBackend(LLMBackend::Gemini)),
            },
        }
    }
}

} // verus!
