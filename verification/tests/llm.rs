use tenere::chatgpt::ChatGPT;
use tenere::config::{
    default_llm_backend, ChatGPTConfig, Config, ConfigError, GeminiConfig, InputConfig,
    KeyBindings, LLamacppConfig, OllamaConfig, TTSConfig, XaiConfig,
};
use tenere::json::delta_content;
use tenere::llamacpp::LLamacpp;
use tenere::llm::{
    bearer_token, request_messages, ChatMessage, LLMBackend, LLMRole, LLM,
};
use tenere::ollama::Ollama;
use tenere::registry::{ApiKeys, Backend, LLMModel};
use tenere::stream::{StreamPhase, WireFormat};
use tenere::xai::Xai;

fn no_keys() -> ApiKeys {
    ApiKeys { openai: None, llamacpp: None, xai: None, gemini: None }
}

fn pairs(messages: &[ChatMessage]) -> Vec<(LLMRole, String)> {
    messages.iter().map(|m| (m.role, m.content.clone())).collect()
}

#[test]
fn roles_are_rendered_in_lower_case() {
    assert_eq!(LLMRole::ASSISTANT.to_string(), "assistant");
    assert_eq!(LLMRole::SYSTEM.to_string(), "system");
    assert_eq!(LLMRole::USER.to_string(), "user");
}

#[test]
fn request_carries_the_context_exactly() {
    let context = vec![
        ChatMessage { role: LLMRole::USER, content: "hi".to_string() },
        ChatMessage { role: LLMRole::ASSISTANT, content: "hello".to_string() },
    ];
    assert_eq!(
        pairs(&request_messages(&context)),
        vec![(LLMRole::USER, "hi".to_string()), (LLMRole::ASSISTANT, "hello".to_string())]
    );
    assert!(request_messages(&vec![]).is_empty());
    assert_eq!(pairs(&[context[0].clone()]), vec![(LLMRole::USER, "hi".to_string())]);
}

#[test]
fn bearer_token_carries_the_key() {
    assert_eq!(bearer_token("abc"), "Bearer abc");
}

#[test]
fn chatgpt_prefers_the_configured_key() {
    let mut config = ChatGPTConfig::default();
    config.openai_api_key = Some("config-key".to_string());
    let mut client = ChatGPT::new(config, Some("env-key".to_string())).unwrap();
    client.append_chat_msg("hi".to_string(), LLMRole::USER);
    let request = client.request();
    assert_eq!(request.url, "https://api.openai.com/v1/chat/completions");
    assert_eq!(request.authorization, Some("Bearer config-key".to_string()));
    assert_eq!(request.model, Some("gpt-3.5-turbo".to_string()));
    assert!(request.stream);
    assert_eq!(
        pairs(&request.messages),
        vec![(LLMRole::USER, "hi".to_string())]
    );
    let parser = client.parser();
    assert_eq!(parser.format(), WireFormat::Sse);
    assert_eq!(parser.phase(), StreamPhase::Idle);
}

#[test]
fn chatgpt_falls_back_to_the_environment_key() {
    let client = ChatGPT::new(ChatGPTConfig::default(), Some("env-key".to_string())).unwrap();
    assert_eq!(client.request().authorization, Some("Bearer env-key".to_string()));
}

#[test]
fn chatgpt_needs_a_key() {
    assert_eq!(
        ChatGPT::new(ChatGPTConfig::default(), None).err(),
        Some(ConfigError::MissingApiKey(LLMBackend::ChatGPT))
    );
}

#[test]
fn llamacpp_key_is_optional() {
    let config = LLamacppConfig { url: "http://localhost:8080".to_string(), api_key: None };
    let client = LLamacpp::new(config, None);
    let request = client.request();
    assert_eq!(request.url, "http://localhost:8080");
    assert_eq!(request.authorization, None);
    assert_eq!(request.model, None);
    assert_eq!(client.parser().format(), WireFormat::SsePattern);
    let config = LLamacppConfig {
        url: "http://localhost:8080".to_string(),
        api_key: Some("config-key".to_string()),
    };
    assert_eq!(
        LLamacpp::new(config.clone(), None).request().authorization,
        Some("Bearer config-key".to_string())
    );
    assert_eq!(
        LLamacpp::new(config, Some("env-key".to_string())).request().authorization,
        Some("Bearer env-key".to_string())
    );
}

#[test]
fn ollama_streams_json_lines() {
    let config = OllamaConfig { url: "http://localhost:11434/api/chat".to_string(), model: "llama3".to_string() };
    let mut client = Ollama::new(config);
    client.append_chat_msg("a".to_string(), LLMRole::USER);
    client.append_chat_msg("b".to_string(), LLMRole::ASSISTANT);
    let request = client.request();
    assert_eq!(request.authorization, None);
    assert_eq!(request.model, Some("llama3".to_string()));
    assert_eq!(
        pairs(&request.messages),
        vec![(LLMRole::USER, "a".to_string()), (LLMRole::ASSISTANT, "b".to_string())]
    );
    assert_eq!(client.parser().format(), WireFormat::JsonLines);
    client.clear();
    assert!(client.request().messages.is_empty());
}

#[test]
fn xai_prefers_the_environment_key() {
    let config = XaiConfig {
        url: "https://api.x.ai/v1/chat/completions".to_string(),
        model: "grok".to_string(),
        xai_api_key: Some("config-key".to_string()),
    };
    let client = Xai::new(config.clone(), Some("env-key".to_string())).unwrap();
    assert_eq!(client.request().authorization, Some("Bearer env-key".to_string()));
    let client = Xai::new(config, None).unwrap();
    assert_eq!(client.request().authorization, Some("Bearer config-key".to_string()));
    assert_eq!(client.parser().format(), WireFormat::Sse);
    let bare = XaiConfig { url: String::new(), model: String::new(), xai_api_key: None };
    assert_eq!(Xai::new(bare, None).err(), Some(ConfigError::MissingApiKey(LLMBackend::Xai)));
}

#[test]
fn delta_content_follows_the_path() {
    let value: serde_json::Value =
        serde_json::from_str("{\"choices\":[{\"delta\":{\"content\":\"Hi\"}},{\"delta\":{\"content\":\"no\"}}]}")
            .unwrap();
    assert_eq!(delta_content(&value), Some("Hi".to_string()));
    for body in ["{}", "{\"choices\":{}}", "{\"choices\":[{\"delta\":{\"content\":3}}]}", "null"] {
        let value: serde_json::Value = serde_json::from_str(body).unwrap();
        assert_eq!(delta_content(&value), None);
    }
}

#[test]
fn registry_builds_the_selected_backend() {
    let mut keys = no_keys();
    keys.openai = Some("k".to_string());
    let backend = LLMModel::init(&LLMBackend::ChatGPT, Config::default(), keys).unwrap();
    assert_eq!(backend.backend(), LLMBackend::ChatGPT);
    assert!(matches!(backend, Backend::ChatGPT(_)));

    let mut config = Config::default();
    config.ollama = Some(OllamaConfig { url: "u".to_string(), model: "m".to_string() });
    let mut backend = LLMModel::init(&LLMBackend::Ollama, config, no_keys()).unwrap();
    assert_eq!(backend.backend(), LLMBackend::Ollama);
    backend.append_chat_msg("hi".to_string(), LLMRole::USER);
    if let Backend::Ollama(client) = &backend {
        assert_eq!(client.request().messages.len(), 1);
        assert_eq!(client.request().url, "u");
        assert_eq!(client.request().model, Some("m".to_string()));
    } else {
        panic!("wrong backend");
    }
    backend.clear();
    if let Backend::Ollama(client) = &backend {
        assert!(client.request().messages.is_empty());
        assert_eq!(client.request().url, "u");
        assert_eq!(client.request().model, Some("m".to_string()));
    }

    let mut config = Config::default();
    config.llamacpp = Some(LLamacppConfig { url: "u".to_string(), api_key: None });
    assert!(matches!(
        LLMModel::init(&LLMBackend::LLamacpp, config, no_keys()),
        Ok(Backend::LLamacpp(_))
    ));

    let mut config = Config::default();
    config.gemini = Some(GeminiConfig { gemini_api_key: Some("k".to_string()), model: "m".to_string(), url: String::new() });
    assert!(matches!(
        LLMModel::init(&LLMBackend::Gemini, config, no_keys()),
        Ok(Backend::Gemini(_))
    ));

    let mut config = Config::default();
    config.xai = Some(XaiConfig { url: "u".to_string(), model: "m".to_string(), xai_api_key: None });
    let mut keys = no_keys();
    keys.xai = Some("k".to_string());
    assert!(matches!(LLMModel::init(&LLMBackend::Xai, config, keys), Ok(Backend::Xai(_))));
}

#[test]
fn registry_names_what_is_missing() {
    assert_eq!(
        LLMModel::init(&LLMBackend::ChatGPT, Config::default(), no_keys()).err(),
        Some(ConfigError::MissingApiKey(LLMBackend::ChatGPT))
    );
    for backend in [LLMBackend::LLamacpp, LLMBackend::Ollama, LLMBackend::Xai, LLMBackend::Gemini] {
        assert_eq!(
            LLMModel::init(&backend, Config::default(), no_keys()).err(),
            Some(ConfigError::MissingBackend(backend))
        );
    }
    let mut config = Config::default();
    config.gemini = Some(GeminiConfig { gemini_api_key: None, model: "m".to_string(), url: String::new() });
    assert_eq!(
        LLMModel::init(&LLMBackend::Gemini, config, no_keys()).err(),
        Some(ConfigError::MissingApiKey(LLMBackend::Gemini))
    );
    let mut config = Config::default();
    config.xai = Some(XaiConfig { url: "u".to_string(), model: "m".to_string(), xai_api_key: None });
    assert_eq!(
        LLMModel::init(&LLMBackend::Xai, config, no_keys()).err(),
        Some(ConfigError::MissingApiKey(LLMBackend::Xai))
    );
}

#[test]
fn defaults_are_as_documented() {
    assert_eq!(default_llm_backend(), LLMBackend::ChatGPT);
    assert_eq!(ChatGPTConfig::default_model(), "gpt-3.5-turbo");
    assert_eq!(ChatGPTConfig::default_url(), "https://api.openai.com/v1/chat/completions");
    assert_eq!(ChatGPTConfig::default_system_prompt(), "You are a helpful assistant.");
    assert_eq!(TTSConfig::default_url(), "http://0.0.0.0:8000/v1/audio/speech");
    assert_eq!(KeyBindings::default_show_help(), '?');
    assert_eq!(KeyBindings::default_show_history(), 'h');
    assert_eq!(KeyBindings::default_new_chat(), 'n');
    assert_eq!(KeyBindings::default_stop_stream(), 't');
    assert_eq!(KeyBindings::default_load_voice(), 'v');
    let keys = KeyBindings::default();
    assert_eq!(
        (keys.show_help, keys.show_history, keys.new_chat, keys.stop_stream, keys.load_voice),
        ('?', 'h', 'n', 't', 'v')
    );
    let config = Config::default();
    assert_eq!(config.llm, LLMBackend::ChatGPT);
    assert_eq!(config.chatgpt.model, "gpt-3.5-turbo");
    assert_eq!(config.chatgpt.openai_api_key, None);
    assert_eq!(config.tts.default_voice, None);
    assert!(config.llamacpp.is_none() && config.ollama.is_none());
    let input = InputConfig::default();
    assert!(input.input_file.is_none() && input.output_file.is_none());
}

#[test]
fn check_accepts_a_configured_backend_only() {
    let mut config = Config::default();
    assert_eq!(config.check(), Ok(()));
    config.llm = LLMBackend::LLamacpp;
    assert_eq!(config.check(), Err(ConfigError::MissingBackend(LLMBackend::LLamacpp)));
    config.llamacpp = Some(LLamacppConfig { url: "u".to_string(), api_key: None });
    assert_eq!(config.check(), Ok(()));
    config.llm = LLMBackend::Ollama;
    assert_eq!(config.check(), Err(ConfigError::MissingBackend(LLMBackend::Ollama)));
    config.llm = LLMBackend::Xai;
    assert_eq!(config.check(), Err(ConfigError::MissingBackend(LLMBackend::Xai)));
    config.llm = LLMBackend::Gemini;
    assert_eq!(config.check(), Err(ConfigError::MissingBackend(LLMBackend::Gemini)));
}

#[test]
fn config_errors_have_messages() {
    assert_eq!(
        ConfigError::MissingBackend(LLMBackend::LLamacpp).message(),
        "Config for LLamacpp is not provided"
    );
    assert_eq!(
        ConfigError::MissingBackend(LLMBackend::Ollama).message(),
        "Config for Ollama is not provided"
    );
    assert!(ConfigError::MissingApiKey(LLMBackend::Gemini).message().starts_with("Can not find"));
}

#[test]
fn saved_voice_is_adopted_unless_blank() {
    let mut config = Config::default();
    config.adopt_saved_voice("  \n");
    assert_eq!(config.tts.default_voice, None);
    config.adopt_saved_voice(" voice-7\n");
    assert_eq!(config.tts.default_voice, Some("voice-7".to_string()));
    config.adopt_saved_voice("");
    assert_eq!(config.tts.default_voice, Some("voice-7".to_string()));
    assert_eq!(config.tts.url, "http://0.0.0.0:8000/v1/audio/speech");
}
