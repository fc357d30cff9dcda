use tenere::config::ConfigError;
use tenere::gpt::GPT;
use tenere::llm::{ChatMessage, LLMBackend, LLMRole};
use tenere::text::{contains, strip_prefix};
use tenere::tts::{choose_player, speech_text, voice_url, Player};
use tenere::utils::{close_strings, count_char, parse_json_safely, truncate_json_safely};

#[test]
fn short_text_is_not_cut() {
    assert_eq!(truncate_json_safely("{\"a\":1}", 7), "{\"a\":1}");
    assert_eq!(truncate_json_safely("{\"a\":1}", 100), "{\"a\":1}");
    assert_eq!(truncate_json_safely("", 0), "");
}

#[test]
fn cut_falls_after_the_last_closing_brace() {
    assert_eq!(truncate_json_safely("{\"a\":{\"b\":1},\"c\":[1,2],\"d\":3}", 20), "{\"a\":{\"b\":1}");
    assert_eq!(truncate_json_safely("[{\"a\":1},{\"b\":2}]", 10), "[{\"a\":1}");
}

#[test]
fn cut_falls_after_the_last_closing_bracket_without_a_brace() {
    assert_eq!(truncate_json_safely("[[1,2],[3,4],[5,6]]", 10), "[[1,2]");
}

#[test]
fn cut_falls_after_the_last_quotation_mark_otherwise() {
    assert_eq!(truncate_json_safely("[\"ab\",\"cdefgh\",\"i\"]", 9), "[\"ab\",\"");
    assert_eq!(truncate_json_safely("\"abcdef\"", 4), "\"");
}

#[test]
fn escaped_quotation_mark_is_no_place_to_cut() {
    assert_eq!(truncate_json_safely("ab\\\"cdefgh", 6), "ab\\\"cd");
}

#[test]
fn text_without_any_mark_is_cut_at_the_limit() {
    assert_eq!(truncate_json_safely("1234567890", 4), "1234");
    assert_eq!(truncate_json_safely("h\u{e9}llo w\u{f6}rld", 3), "h\u{e9}");
}

#[test]
fn backslash_is_looked_for_among_the_characters() {
    assert_eq!(truncate_json_safely("\u{e9}\\\u{e9}\"xxxxxx", 7), "\u{e9}\\\u{e9}\"");
    assert_eq!(truncate_json_safely("\u{e9}\u{e9}\u{e9}\\\"ab", 9), "\u{e9}\u{e9}\u{e9}\\\"");
}

#[test]
fn characters_are_counted() {
    assert_eq!(count_char("{{a}{", '{'), 3);
    assert_eq!(count_char("{{a}{", '}'), 1);
    assert_eq!(count_char("", 'x'), 0);
    assert_eq!(count_char("\u{e9}\u{e9}e", '\u{e9}'), 2);
}

#[test]
fn strings_are_closed_and_their_line_breaks_escaped() {
    assert_eq!(close_strings("{\"a\":\"x\ny\"}"), "{\"a\":\"x\\ny\"}");
    assert_eq!(close_strings("{\"a\":\"x\r\ny"), "{\"a\":\"x\\ny\"");
    assert_eq!(close_strings("{\n\"a\":1}\r\n"), "{\n\"a\":1}\r\n");
    assert_eq!(close_strings("\"a\\\"b"), "\"a\\\"b\"");
    assert_eq!(close_strings(""), "");
}

#[test]
fn valid_json_is_read_as_it_is() {
    let value = parse_json_safely("{\"a\":[1,2]}").unwrap();
    assert_eq!(value.to_string(), "{\"a\":[1,2]}");
}

#[test]
fn line_break_inside_a_string_is_mended() {
    let value = parse_json_safely("{\"a\":\"x\ny\"}").unwrap();
    assert_eq!(value.get("a").and_then(|v| v.as_str()), Some("x\ny"));
}

#[test]
fn open_string_and_brackets_are_closed() {
    let value = parse_json_safely("{\"a\":{\"b\":\"c").unwrap();
    assert_eq!(value.to_string(), "{\"a\":{\"b\":\"c\"}}");
    let value = parse_json_safely("{\"a\":{\"b\":1").unwrap();
    assert_eq!(value.to_string(), "{\"a\":{\"b\":1}}");
    let value = parse_json_safely("[[1,2").unwrap();
    assert_eq!(value.to_string(), "[[1,2]]");
}

#[test]
fn braces_are_closed_before_brackets() {
    assert!(parse_json_safely("{\"a\":[{\"b\":\"c").is_err());
    let value = parse_json_safely("[{\"a\":1").unwrap();
    assert_eq!(value.to_string(), "[{\"a\":1}]");
}

#[test]
fn text_beyond_repair_is_an_error() {
    assert!(parse_json_safely("{\"a\":}").is_err());
    assert!(parse_json_safely("}}}").is_err());
    assert!(parse_json_safely("]").is_err());
}

#[test]
fn gpt_needs_a_key_and_prefers_the_environment() {
    assert_eq!(GPT::new(None, None).err(), Some(ConfigError::MissingApiKey(LLMBackend::ChatGPT)));
    let client = GPT::new(Some("config-key".to_string()), Some("env-key".to_string())).unwrap();
    let request = client.request(&vec![ChatMessage { role: LLMRole::USER, content: "hi".to_string() }]);
    assert_eq!(request.url, "https://api.openai.com/v1/chat/completions");
    assert_eq!(request.authorization, Some("Bearer env-key".to_string()));
    assert_eq!(request.model, Some("gpt-3.5-turbo".to_string()));
    assert!(!request.stream);
    assert_eq!(request.messages.len(), 1);
    assert_eq!(request.messages[0].role, LLMRole::USER);
    assert_eq!(request.messages[0].content, "hi");
    let client = GPT::new(Some("config-key".to_string()), None).unwrap();
    assert_eq!(client.request(&vec![]).authorization, Some("Bearer config-key".to_string()));
}

#[test]
fn gpt_answer_loses_its_quotation_marks() {
    let value: serde_json::Value =
        serde_json::from_str("{\"choices\":[{\"message\":{\"content\":\"\\\"\\\"Hi \\\"you\\\"\\\"\"}}]}").unwrap();
    assert_eq!(GPT::answer(&value), Some("Hi \"you".to_string()));
    let value: serde_json::Value =
        serde_json::from_str("{\"choices\":[{\"message\":{\"content\":\"plain\"}}]}").unwrap();
    assert_eq!(GPT::answer(&value), Some("plain".to_string()));
    let value: serde_json::Value = serde_json::from_str("{\"choices\":[]}").unwrap();
    assert_eq!(GPT::answer(&value), None);
}

#[test]
fn player_is_chosen_by_preference() {
    assert_eq!(choose_player(true, true, true, "audio/mp3"), Some(Player::Mpv));
    assert_eq!(choose_player(false, true, true, "audio/wav"), Some(Player::Ffplay));
    assert_eq!(choose_player(false, false, true, "audio/wav"), Some(Player::Aplay));
    assert_eq!(choose_player(false, false, true, "audio/x-wav; rate=1"), Some(Player::Aplay));
    assert_eq!(choose_player(false, false, true, "audio/mp3"), None);
    assert_eq!(choose_player(false, false, false, "audio/wav"), None);
    assert_eq!(Player::Mpv.program(), "mpv");
    assert_eq!(Player::Ffplay.program(), "ffplay");
    assert_eq!(Player::Aplay.program(), "aplay");
    assert_eq!(Player::Mpv.arguments(), vec!["-", "--no-cache", "--no-terminal", "--audio-buffer=0.1"]);
    assert_eq!(
        Player::Ffplay.arguments(),
        vec!["-i", "pipe:0", "-autoexit", "-nodisp", "-hide_banner", "-loglevel", "quiet"]
    );
    assert!(Player::Aplay.arguments().is_empty());
}

#[test]
fn blank_text_is_not_spoken() {
    assert_eq!(speech_text("  hello there \n"), Some("hello there".to_string()));
    assert_eq!(speech_text(" \n\t"), None);
    assert_eq!(speech_text(""), None);
}

#[test]
fn voice_address_replaces_the_speech_endpoint() {
    assert_eq!(voice_url("http://0.0.0.0:8000/v1/audio/speech"), "http://0.0.0.0:8000/v1/audio/voice");
    assert_eq!(voice_url("http://host/audio/"), "http://host/audio/voice");
    assert_eq!(voice_url("http://host/audio/speech/speech//"), "http://host/audio/speech/speech/voice");
    assert_eq!(voice_url("http://host/speech/speech"), "http://host/voice");
    assert_eq!(voice_url(""), "/voice");
}

#[test]
fn prefix_is_stripped_where_it_stands() {
    assert_eq!(strip_prefix("data: {}", "data: "), Some("{}"));
    assert_eq!(strip_prefix("data: ", "data: "), Some(""));
    assert_eq!(strip_prefix("data:{}", "data: "), None);
    assert_eq!(strip_prefix("da", "data: "), None);
    assert_eq!(strip_prefix(" data: x", "data: "), None);
    assert_eq!(strip_prefix("\u{e9}t\u{e9}", "\u{e9}"), Some("t\u{e9}"));
    assert_eq!(strip_prefix("abc", ""), Some("abc"));
    assert_eq!(strip_prefix("", ""), Some(""));
}

#[test]
fn pattern_is_found_anywhere() {
    assert!(contains("https://host/v1beta/openai/chat", "openai"));
    assert!(contains("openai", "openai"));
    assert!(contains("xopenai", "openai"));
    assert!(!contains("openaX", "openai"));
    assert!(!contains("open", "openai"));
    assert!(contains("abc", ""));
    assert!(contains("", ""));
    assert!(!contains("", "a"));
    assert!(contains("h\u{e9}llo?", "?"));
    assert!(contains("aab", "ab"));
}

#[test]
fn white_space_is_the_documented_set() {
    let listed = |c: char| {
        let code = c as u32;
        (0x0009..=0x000D).contains(&code)
            || [0x0020, 0x0085, 0x00A0, 0x1680, 0x2028, 0x2029, 0x202F, 0x205F, 0x3000]
                .contains(&code)
            || (0x2000..=0x200A).contains(&code)
    };
    for code in 0..=0x10FFFFu32 {
        if let Some(c) = char::from_u32(code) {
            assert_eq!(c.is_whitespace(), listed(c), "U+{:04X}", code);
        }
    }
    assert_eq!(speech_text("\u{3000}\u{2003}hi\u{85}\u{a0}"), Some("hi".to_string()));
    assert_eq!(speech_text("\u{200B}hi\u{200B}"), Some("\u{200B}hi\u{200B}".to_string()));
}
