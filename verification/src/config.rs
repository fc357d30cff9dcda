//! The settings of the client, with the values that hold where the
//! configuration file is silent.

use vstd::prelude::*;
use vstd::string::*;
use crate::llm::LLMBackend;
use crate::text::{trim, trimmed};

verus! {

/// Settings of the ChatGPT backend.
#[derive(Debug, Clone)]
pub struct ChatGPTConfig {
    pub openai_api_key: Option<String>,
    pub model: String,
    pub url: String,
    pub system_prompt: String,
}

/// Settings of the llama.cpp backend.
#[derive(Debug, Clone)]
pub struct LLamacppConfig {
    pub url: String,
    pub api_key: Option<String>,
}

/// Settings of the Ollama backend.
#[derive(Debug, Clone)]
pub struct OllamaConfig {
    pub url: String,
    pub model: String,
}

/// Settings of the xAI backend.
#[derive(Debug, Clone)]
pub struct XaiConfig {
    pub url: String,
    pub model: String,
    pub xai_api_key: Option<String>,
}

/// Settings of the Gemini backend.
#[derive(Debug, Clone)]
pub struct GeminiConfig {
    pub gemini_api_key: Option<String>,
    pub model: String,
    pub url: String,
}

/// Settings of the speech service.
#[derive(Debug, Clone)]
pub struct TTSConfig {
    pub url: String,
    pub default_voice: Option<String>,
}

/// Files that the prompt reads from and the chat writes to.
#[derive(Debug, Clone)]
pub struct InputConfig {
    pub input_file: Option<String>,
    pub output_file: Option<String>,
}

/// The characters bound to the client's commands.
#[derive(Debug, Clone, Copy)]
pub struct KeyBindings {
    pub show_help: char,
    pub show_history: char,
    pub new_chat: char,
    pub stop_stream: char,
    pub load_voice: char,
}

/// All settings of the client.
#[derive(Debug, Clone)]
pub struct Config {
    pub key_bindings: KeyBindings,
    pub llm: LLMBackend,
    pub chatgpt: ChatGPTConfig,
    pub llamacpp: Option<LLamacppConfig>,
    pub ollama: Option<OllamaConfig>,
    pub xai: Option<XaiConfig>,
    pub gemini: Option<GeminiConfig>,
    pub tts: TTSConfig,
    pub input: InputConfig,
}

/// Why a configuration cannot be used.
#[derive(Debug, Clone, Copy, PartialEq, Eq, Structural)]
pub enum ConfigError {
    /// The selected backend has no section of its own.
    MissingBackend(LLMBackend),
    /// The selected backend needs an API key and none was given.
    MissingApiKey(LLMBackend),
}

/// The backend that is used where none is selected.
pub fn default_llm_backend() -> (backend: LLMBackend)
    ensures
        backend == LLMBackend::ChatGPT,
{
    LLMBackend::ChatGPT
}

impl ChatGPTConfig {
    pub fn default_model() -> (model: String)
        ensures
            model@ == "gpt-3.5-turbo"@,
    {
        String::from_str("gpt-3.5-turbo")
    }

    pub fn default_url() -> (url: String)
        ensures
            url@ == "https://api.openai.com/v1/chat/completions"@,
    {
        String::from_str("https://api.openai.com/v1/chat/completions")
    }

    pub fn default_system_prompt() -> (prompt: String)
        ensures
            prompt@ == "You are a helpful assistant."@,
    {
        String::from_str("You are a helpful assistant.")
    }
}

impl Default for ChatGPTConfig {
    fn default() -> (config: ChatGPTConfig)
        ensures
            config.openai_api_key is None,
            config.model@ == "gpt-3.5-turbo"@,
            config.url@ == "https://api.openai.com/v1/chat/completions"@,
            config.system_prompt@ == "You are a helpful assistant."@,
    {
        ChatGPTConfig {
            openai_api_key: None,
            model: ChatGPTConfig::default_model(),
            url: ChatGPTConfig::default_url(),
            system_prompt: ChatGPTConfig::default_system_prompt(),
        }
    }
}

impl GeminiConfig {
    pub fn default_url() -> (url: String)
        ensures
            url@ == "https://generativelanguage.googleapis.com/v1beta/models"@,
    {
        String::from_str("https://generativelanguage.googleapis.com/v1beta/models")
    }
}

impl TTSConfig {
    pub fn default_url() -> (url: String)
        ensures
            url@ == "http://0.0.0.0:8000/v1/audio/speech"@,
    {
        String::from_str("http://0.0.0.0:8000/v1/audio/speech")
    }
}

impl Default for TTSConfig {
    fn default() -> (config: TTSConfig)
        ensures
            config.url@ == "http://0.0.0.0:8000/v1/audio/speech"@,
            config.default_voice is None,
    {
        TTSConfig { url: TTSConfig::default_url(), default_voice: None }
    }
}

impl Default for InputConfig {
    fn default() -> (config: InputConfig)
        ensures
            config.input_file is None,
            config.output_file is None,
    {
        InputConfig { input_file: None, output_file: None }
    }
}

impl KeyBindings {
    pub fn default_show_help() -> (key: char)
        ensures
            key == '?',
    {
        '?'
    }

    pub fn default_show_history() -> (key: char)
        ensures
            key == 'h',
    {
        'h'
    }

    pub fn default_new_chat() -> (key: char)
        ensures
            key == 'n',
    {
        'n'
    }

    pub fn default_stop_stream() -> (key: char)
        ensures
            key == 't',
    {
        't'
    }

    pub fn default_load_voice() -> (key: char)
        ensures
            key == 'v',
    {
        'v'
    }
}

impl Default for KeyBindings {
    fn default() -> (keys: KeyBindings)
        ensures
            keys.show_help == '?',
            keys.show_history == 'h',
            keys.new_chat == 'n',
            keys.stop_stream == 't',
            keys.load_voice == 'v',
    {
        KeyBindings {
            show_help: '?',
            show_history: 'h',
            new_chat: 'n',
            stop_stream: 't',
            load_voice: 'v',
        }
    }
}

impl Config {
    /// Whether the selected backend has the section it needs. ChatGPT needs
    /// none: its settings have defaults.
    pub open spec fn backend_configured(&self) -> bool {
        match self.llm {
            LLMBackend::ChatGPT => true,
            LLMBackend::LLamacpp => self.llamacpp is Some,
            LLMBackend::Ollama => self.ollama is Some,
            LLMBackend::Xai => self.xai is Some,
            LLMBackend::Gemini => self.gemini is Some,
        }
    }

    /// Accepts the configuration exactly if the selected backend is
    /// configured, and otherwise names the backend whose section is missing.
    pub fn check(&self) -> (outcome: Result<(), ConfigError>)
        ensures
            outcome is Ok <==> self.backend_configured(),
            outcome is Err ==> outcome == Err::<(), ConfigError>(
                ConfigError::MissingBackend(self.llm),
            ),
    {
        let configured = match self.llm {
            LLMBackend::ChatGPT => true,
            LLMBackend::LLamacpp => self.llamacpp.is_some(),
            LLMBackend::Ollama => self.ollama.is_some(),
            LLMBackend::Xai => self.xai.is_some(),
            LLMBackend::Gemini => self.gemini.is_some(),
        };
        if configured {
            Ok(())
        } else {
            Err(ConfigError::MissingBackend(self.llm))
        }
    }

    /// Takes over a voice that was saved earlier: its identifier is the
    /// saved text without surrounding white space, and blank text changes
    /// nothing.
    pub fn adopt_saved_voice(&mut self, saved: &str)
        ensures
            trimmed(saved@).len() == 0 ==> *final(self) == *old(self),
            trimmed(saved@).len() > 0 ==> {
                &&& final(self).tts.default_voice matches Some(voice)
                &&& voice@ == trimmed(saved@)
                &&& final(self).tts.url == old(self).tts.url
                &&& final(self).key_bindings == old(self).key_bindings
                &&& final(self).llm == old(self).llm
                &&& final(self).chatgpt == old(self).chatgpt
                &&& final(self).llamacpp == old(self).llamacpp
                &&& final(self).ollama == old(self).ollama
                &&& final(self).xai == old(self).xai
                &&& final(self).gemini == old(self).gemini
                &&& final(self).input == old(self).input
            },
    {
        let voice = trim(saved);
        if !voice.is_empty() {
            self.tts.default_voice = Some(String::from_str(voice));
        }
    }
}

impl Default for Config {
    fn default() -> (config: Config)
        ensures
            config.llm == LLMBackend::ChatGPT,
            config.llamacpp is None,
            config.ollama is None,
            config.xai is None,
            config.gemini is None,
            config.backend_configured(),
            config.key_bindings.show_help == '?',
            config.key_bindings.show_history == 'h',
            config.key_bindings.new_chat == 'n',
            config.key_bindings.stop_stream == 't',
            config.key_bindings.load_voice == 'v',
            config.chatgpt.openai_api_key is None,
            config.chatgpt.model@ == "gpt-3.5-turbo"@,
            config.chatgpt.url@ == "https://api.openai.com/v1/chat/completions"@,
            config.chatgpt.system_prompt@ == "You are a helpful assistant."@,
            config.tts.url@ == "http://0.0.0.0:8000/v1/audio/speech"@,
            config.tts.default_voice is None,
            config.input.input_file is None,
            config.input.output_file is None,
    {
        Config {
            key_bindings: KeyBindings::default(),
            llm: default_llm_backend(),
            chatgpt: ChatGPTConfig::default(),
            llamacpp: None,
            ollama: None,
            xai: None,
            gemini: None,
            tts: TTSConfig::default(),
            input: InputConfig::default(),
        }
    }
}

impl ConfigError {
    /// The sentence shown to the user.
    pub fn message(&self) -> (text: String)
        ensures
            text@ == self.message_text(),
    {
        match self {
            ConfigError::MissingBackend(LLMBackend::ChatGPT) => String::from_str(
                "Config for ChatGPT is not provided",
            ),
            ConfigError::MissingBackend(LLMBackend::LLamacpp) => String::from_str(
                "Config for LLamacpp is not provided",
            ),
            ConfigError::MissingBackend(LLMBackend::Ollama) => String::from_str(
                "Config for Ollama is not provided",
            ),
            ConfigError::MissingBackend(LLMBackend::Xai) => String::from_str(
                "Config for Xai is not provided",
            ),
            ConfigError::MissingBackend(LLMBackend::Gemini) => String::from_str(
                "Config for Gemini is not provided",
            ),
            ConfigError::MissingApiKey(_) => String::from_str(
                "Can not find the api key\nYou need to define one whether in the \
                 configuration file or as an environment variable",
            ),
        }
    }

    /// The sentence shown to the user, as a sequence of characters.
    pub open spec fn message_text(&self) -> Seq<char> {
        match self {
            ConfigError::MissingBackend(LLMBackend::ChatGPT) =>
                "Config for ChatGPT is not provided"@,
            ConfigError::MissingBackend(LLMBackend::LLamacpp) =>
                "Config for LLamacpp is not provided"@,
            ConfigError::MissingBackend(LLMBackend::Ollama) => "Config for Ollama is not provided"@,
            ConfigError::MissingBackend(LLMBackend::Xai) => "Config for Xai is not provided"@,
            ConfigError::MissingBackend(LLMBackend::Gemini) => "Config for Gemini is not provided"@,
            ConfigError::MissingApiKey(_) =>
                "Can not find the api key\nYou need to define one whether in the \
                 configuration file or as an environment variable"@,
        }
    }
}

} // verus!
