use tenere::config::{ConfigError, GeminiConfig};
use tenere::gemini::{simulate, Gemini, GeminiRole, Resegmenter};
use tenere::llm::{LLMAnswer, LLMBackend, LLMRole, LLM};
use tenere::stream::{StreamPhase, WireFormat};

fn shown(events: &[LLMAnswer]) -> Vec<String> {
    events
        .iter()
        .map(|event| match event {
            LLMAnswer::StartAnswer => "<start>".to_string(),
            LLMAnswer::Answer(text) => text.clone(),
            LLMAnswer::EndAnswer => "<end>".to_string(),
        })
        .collect()
}

fn body_with(text: &str) -> String {
    let mut part = serde_json::Map::new();
    part.insert("text".to_string(), serde_json::Value::String(text.to_string()));
    let mut content = serde_json::Map::new();
    content.insert(
        "parts".to_string(),
        serde_json::Value::Array(vec![serde_json::Value::Object(part)]),
    );
    let mut candidate = serde_json::Map::new();
    candidate.insert("content".to_string(), serde_json::Value::Object(content));
    let mut root = serde_json::Map::new();
    root.insert(
        "candidates".to_string(),
        serde_json::Value::Array(vec![serde_json::Value::Object(candidate)]),
    );
    serde_json::Value::Object(root).to_string()
}

fn client(url: &str) -> Gemini {
    let config = GeminiConfig {
        gemini_api_key: Some("config-key".to_string()),
        model: "gemini-2.0-flash".to_string(),
        url: url.to_string(),
    };
    Gemini::new(config, None).unwrap()
}

#[test]
fn extracts_the_text_of_the_first_part() {
    let value: serde_json::Value = serde_json::from_str(&body_with("hello")).unwrap();
    assert_eq!(Gemini::extract_text_from_gemini_response(&value), Some("hello".to_string()));
}

#[test]
fn extraction_fails_off_the_path() {
    for body in [
        "{}",
        "{\"candidates\":[]}",
        "{\"candidates\":{}}",
        "{\"candidates\":[{\"content\":{\"parts\":[]}}]}",
        "{\"candidates\":[{\"content\":{\"parts\":[{\"text\":7}]}}]}",
        "[1,2]",
    ] {
        let value: serde_json::Value = serde_json::from_str(body).unwrap();
        assert_eq!(Gemini::extract_text_from_gemini_response(&value), None, "{}", body);
    }
}

#[test]
fn answer_is_replayed_in_segments_of_five_characters() {
    let events = simulate(&body_with("Hello, w\u{f6}rld!"), None);
    assert_eq!(shown(&events), vec!["<start>", "Hello", ", w\u{f6}r", "ld!", "<end>"]);
}

#[test]
fn empty_answer_is_start_and_end() {
    assert_eq!(shown(&simulate(&body_with(""), None)), vec!["<start>", "<end>"]);
}

#[test]
fn every_segment_is_forwarded_as_it_is() {
    assert_eq!(shown(&simulate(&body_with("null"), None)), vec!["<start>", "null", "<end>"]);
    assert_eq!(
        shown(&simulate(&body_with("abcdenull"), None)),
        vec!["<start>", "abcde", "null", "<end>"]
    );
    assert_eq!(
        shown(&simulate(&body_with("a\n\"b\" null"), None)),
        vec!["<start>", "a\n\"b\"", " null", "<end>"]
    );
}

#[test]
fn segments_rejoin_to_the_answer() {
    for text in ["", "x", "12345", "123456", "null", "line one\nline \"two\"\n", "\u{1F464}\u{e9}\u{e9}abc\u{3000}z"] {
        let events = simulate(&body_with(text), None);
        let chunks: Vec<String> = events
            .iter()
            .filter_map(|event| match event {
                LLMAnswer::Answer(chunk) => Some(chunk.clone()),
                _ => None,
            })
            .collect();
        assert_eq!(chunks.concat(), text);
        let count = text.chars().count();
        assert_eq!(chunks.len(), (count + 4) / 5);
        for (i, chunk) in chunks.iter().enumerate() {
            let size = chunk.chars().count();
            assert!(size <= 5 && (size == 5 || i + 1 == chunks.len()));
        }
        assert_eq!(shown(&simulate(&body_with(text), None)), shown(&events));
    }
}

#[test]
fn replay_stops_where_cancellation_is_observed() {
    let body = body_with("0123456789abcdef");
    assert_eq!(shown(&simulate(&body, Some(0))), vec!["<start>", "<end>"]);
    assert_eq!(shown(&simulate(&body, Some(2))), vec!["<start>", "01234", "56789", "<end>"]);
    assert_eq!(
        shown(&simulate(&body, Some(99))),
        vec!["<start>", "01234", "56789", "abcde", "f", "<end>"]
    );
}

#[test]
fn body_without_text_is_reported() {
    assert_eq!(
        shown(&simulate("{\"candidates\":[]}", None)),
        vec!["<start>", "Error: Unable to parse Gemini response", "<end>"]
    );
}

#[test]
fn body_that_is_not_json_is_reported() {
    assert_eq!(
        shown(&simulate("<html>", None)),
        vec!["<start>", "expected value at line 1 column 1", "<end>"]
    );
}

#[test]
fn resegmenter_steps_one_segment_at_a_time() {
    let (mut replay, opened) = Resegmenter::open(&body_with("abcdefg"));
    assert_eq!(shown(&opened), vec!["<start>"]);
    assert_eq!(replay.phase(), StreamPhase::Streaming);
    assert_eq!(shown(&replay.step(false)), vec!["abcde"]);
    assert_eq!(shown(&replay.step(false)), vec!["fg"]);
    assert_eq!(shown(&replay.step(false)), vec!["<end>"]);
    assert_eq!(replay.phase(), StreamPhase::Completed);
    assert!(replay.step(false).is_empty());
    assert!(replay.step(true).is_empty());
}

#[test]
fn resegmenter_reports_a_failed_request() {
    let (mut replay, events) = Resegmenter::failed("Error with Gemini request: 500".to_string());
    assert_eq!(shown(&events), vec!["<start>", "Error with Gemini request: 500", "<end>"]);
    assert_eq!(replay.phase(), StreamPhase::Completed);
    assert!(replay.step(false).is_empty());
}

#[test]
fn resegmenter_begins_from_a_parsed_body() {
    let (replay, events) = Resegmenter::begin(Ok(Some("ab".to_string())));
    assert_eq!(shown(&events), vec!["<start>"]);
    assert_eq!(replay.phase(), StreamPhase::Streaming);
    let (replay, events) = Resegmenter::begin(Ok(None));
    assert_eq!(events.len(), 3);
    assert_eq!(replay.phase(), StreamPhase::Completed);
    let (_, events) = Resegmenter::begin(Err("broken".to_string()));
    assert_eq!(shown(&events), vec!["<start>", "broken", "<end>"]);
}

#[test]
fn cancelled_replay_ends_cancelled() {
    let (mut replay, _) = Resegmenter::open(&body_with("abcdefg"));
    assert_eq!(shown(&replay.step(true)), vec!["<end>"]);
    assert_eq!(replay.phase(), StreamPhase::Cancelled);
}

#[test]
fn address_is_built_from_base_and_model() {
    let gemini = client("https://example.test/v1beta/models");
    let request = gemini.native_request();
    assert_eq!(
        request.url,
        "https://example.test/v1beta/models/gemini-2.0-flash:generateContent?key=config-key"
    );
    assert!(!gemini.speaks_openai());
}

#[test]
fn empty_base_falls_back_to_the_default() {
    let gemini = client("");
    assert_eq!(
        gemini.request().url,
        "https://generativelanguage.googleapis.com/v1beta/models/gemini-2.0-flash:generateContent"
    );
    assert_eq!(GeminiConfig::default_url(), "https://generativelanguage.googleapis.com/v1beta/models");
}

#[test]
fn key_is_appended_to_an_existing_query() {
    let gemini = client("https://example.test/models?alt=sse");
    assert_eq!(
        gemini.native_request().url,
        "https://example.test/models?alt=sse/gemini-2.0-flash:generateContent&key=config-key"
    );
}

#[test]
fn openai_endpoint_shows_in_the_address() {
    let gemini = client("https://example.test/v1beta/openai");
    assert!(gemini.speaks_openai());
    assert_eq!(gemini.parser().format(), WireFormat::SsePattern);
    let request = gemini.request();
    assert_eq!(request.authorization, Some("Bearer config-key".to_string()));
    assert_eq!(request.model, Some("gemini-2.0-flash".to_string()));
    assert!(request.messages.is_empty());
}

#[test]
fn environment_key_comes_first() {
    let config = GeminiConfig {
        gemini_api_key: Some("config-key".to_string()),
        model: "m".to_string(),
        url: "https://example.test".to_string(),
    };
    let gemini = Gemini::new(config, Some("env-key".to_string())).unwrap();
    assert_eq!(gemini.request().authorization, Some("Bearer env-key".to_string()));
}

#[test]
fn client_needs_a_key() {
    let config = GeminiConfig { gemini_api_key: None, model: "m".to_string(), url: String::new() };
    assert_eq!(
        Gemini::new(config, None).err(),
        Some(ConfigError::MissingApiKey(LLMBackend::Gemini))
    );
}

#[test]
fn context_is_gathered_into_turns() {
    let mut gemini = client("https://example.test");
    gemini.append_chat_msg("one".to_string(), LLMRole::USER);
    gemini.append_chat_msg("two".to_string(), LLMRole::USER);
    gemini.append_chat_msg("three".to_string(), LLMRole::ASSISTANT);
    gemini.append_chat_msg("four".to_string(), LLMRole::USER);
    let contents = gemini.convert_messages_to_gemini_format();
    let seen: Vec<(GeminiRole, Vec<String>)> =
        contents.into_iter().map(|turn| (turn.role, turn.parts)).collect();
    assert_eq!(
        seen,
        vec![
            (GeminiRole::User, vec!["You are a helpful assistant.".to_string()]),
            (GeminiRole::Model, vec!["I'm a helpful assistant.".to_string()]),
            (GeminiRole::User, vec!["one".to_string(), "two".to_string()]),
            (GeminiRole::Model, vec!["three".to_string()]),
            (GeminiRole::User, vec!["four".to_string()]),
        ]
    );
}

#[test]
fn system_message_replaces_the_preamble() {
    let mut gemini = client("https://example.test");
    gemini.append_chat_msg("be brief".to_string(), LLMRole::SYSTEM);
    gemini.append_chat_msg("hi".to_string(), LLMRole::USER);
    gemini.append_chat_msg("hello".to_string(), LLMRole::ASSISTANT);
    let contents = gemini.native_request().contents;
    let seen: Vec<(GeminiRole, Vec<String>)> =
        contents.into_iter().map(|turn| (turn.role, turn.parts)).collect();
    assert_eq!(
        seen,
        vec![
            (GeminiRole::User, vec!["be brief".to_string(), "hi".to_string()]),
            (GeminiRole::Model, vec!["hello".to_string()]),
        ]
    );
}

#[test]
fn empty_context_is_the_preamble_alone() {
    let gemini = client("https://example.test");
    assert_eq!(gemini.convert_messages_to_gemini_format().len(), 2);
    assert_eq!(GeminiRole::User.to_string(), "user");
    assert_eq!(GeminiRole::Model.to_string(), "model");
}

#[test]
fn clear_empties_the_context() {
    let mut gemini = client("https://example.test");
    gemini.append_chat_msg("one".to_string(), LLMRole::USER);
    assert_eq!(gemini.request().messages.len(), 1);
    assert_eq!(gemini.request().messages[0].content, "one");
    gemini.clear();
    assert!(gemini.request().messages.is_empty());
}
