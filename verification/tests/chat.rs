use tenere::chat::{on_answer_event, split_command, Answer, Chat, CommandResult, CommandStep};
use tenere::config::OllamaConfig;
use tenere::llm::{LLMAnswer, LLMRole, LLM};
use tenere::ollama::Ollama;

fn format(text: &str) -> Vec<String> {
    text.lines().map(|line| format!("<{}>", line)).collect()
}

fn ollama() -> Ollama {
    Ollama::new(OllamaConfig { url: "u".to_string(), model: "m".to_string() })
}

fn chat_with(entries: &[&str]) -> Chat<String> {
    let mut chat: Chat<String> = Chat::new();
    for entry in entries {
        chat.plain_chat.push(entry.to_string());
        chat.formatted_chat.push(entry.to_string());
    }
    chat
}

#[test]
fn answer_round_trip_adds_one_entry_and_one_message() {
    let mut chat: Chat<String> = Chat::new();
    let mut llm = ollama();
    chat.formatted_chat.push("waiting".to_string());
    chat.reserved = true;
    let events = vec![
        LLMAnswer::StartAnswer,
        LLMAnswer::Answer("a".to_string()),
        LLMAnswer::Answer("b".to_string()),
        LLMAnswer::EndAnswer,
    ];
    for event in events {
        on_answer_event(&mut chat, &mut llm, event, &format, "...".to_string());
    }
    assert_eq!(chat.formatted_chat, format("ab"));
    assert_eq!(chat.formatted_chat, vec!["<ab>".to_string()]);
    assert_eq!(chat.plain_chat, vec![": ab".to_string()]);
    assert_eq!(chat.answer.plain_answer, "");
    assert!(chat.answer.formatted_answer.is_empty());
    assert!(!chat.reserved);
    let messages = llm.request().messages;
    assert_eq!(messages.len(), 1);
    assert_eq!(messages[0].role, LLMRole::ASSISTANT);
    assert_eq!(messages[0].content, "ab");
}

#[test]
fn every_chunk_formats_the_whole_answer_anew() {
    let mut chat: Chat<String> = Chat::new();
    chat.handle_answer(LLMAnswer::StartAnswer, &format, "...".to_string());
    chat.handle_answer(LLMAnswer::Answer("one\n".to_string()), &format, "...".to_string());
    assert_eq!(chat.answer.formatted_answer, vec!["<one>".to_string()]);
    chat.handle_answer(LLMAnswer::Answer("two".to_string()), &format, "...".to_string());
    assert_eq!(chat.answer.plain_answer, "one\ntwo");
    assert_eq!(chat.answer.formatted_answer, vec!["<one>".to_string(), "<two>".to_string()]);
    assert_eq!(chat.formatted_chat, vec!["...".to_string()]);
    chat.handle_answer(LLMAnswer::EndAnswer, &format, "...".to_string());
    assert_eq!(chat.formatted_chat, vec!["<one>".to_string(), "<two>".to_string()]);
    assert_eq!(chat.plain_chat, vec![": one\ntwo".to_string()]);
}

#[test]
fn start_reserves_a_placeholder_line() {
    let mut empty: Chat<String> = Chat::new();
    empty.handle_answer(LLMAnswer::StartAnswer, &format, "...".to_string());
    assert_eq!(empty.formatted_chat, vec!["...".to_string()]);
    assert!(empty.reserved);
    assert!(empty.plain_chat.is_empty());

    let mut chat = chat_with(&["user line", "answer line"]);
    chat.answer.plain_answer = "stale".to_string();
    chat.answer.formatted_answer = vec!["<stale>".to_string()];
    chat.handle_answer(LLMAnswer::StartAnswer, &format, "...".to_string());
    assert_eq!(
        chat.formatted_chat,
        vec!["user line".to_string(), "answer line".to_string(), "...".to_string()]
    );
    assert!(chat.reserved);
    assert_eq!(chat.answer.plain_answer, "");
    assert!(chat.answer.formatted_answer.is_empty());
    assert_eq!(chat.plain_chat, vec!["user line".to_string(), "answer line".to_string()]);
}

#[test]
fn start_renews_a_placeholder_that_is_reserved() {
    let mut chat = chat_with(&["user line", "waiting 3"]);
    chat.reserved = true;
    chat.handle_answer(LLMAnswer::StartAnswer, &format, "...".to_string());
    assert_eq!(chat.formatted_chat, vec!["user line".to_string(), "...".to_string()]);
    chat.handle_answer(LLMAnswer::StartAnswer, &format, "again".to_string());
    assert_eq!(chat.formatted_chat, vec!["user line".to_string(), "again".to_string()]);
    assert!(chat.reserved);
}

#[test]
fn end_puts_the_answer_in_the_place_of_the_placeholder() {
    let mut chat = chat_with(&["user line"]);
    chat.handle_answer(LLMAnswer::StartAnswer, &format, "...".to_string());
    chat.handle_answer(LLMAnswer::Answer("x".to_string()), &format, "...".to_string());
    assert_eq!(chat.formatted_chat, vec!["user line".to_string(), "...".to_string()]);
    chat.handle_answer(LLMAnswer::EndAnswer, &format, "...".to_string());
    assert_eq!(chat.formatted_chat, vec!["user line".to_string(), "<x>".to_string()]);
    assert!(!chat.reserved);
    let mut bare = chat_with(&["user line"]);
    bare.answer.formatted_answer = vec!["<y>".to_string()];
    bare.handle_answer(LLMAnswer::EndAnswer, &format, "...".to_string());
    assert_eq!(bare.formatted_chat, vec!["user line".to_string(), "<y>".to_string()]);
}

#[test]
fn effects_tell_what_else_is_due() {
    let mut chat: Chat<String> = Chat::new();
    let mut llm = ollama();
    let effects = on_answer_event(&mut chat, &mut llm, LLMAnswer::StartAnswer, &format, "...".to_string());
    assert!(effects.stop_spinner && !effects.reset_cancellation && effects.speak.is_none());
    let effects = on_answer_event(&mut chat, &mut llm, LLMAnswer::Answer("hi".to_string()), &format, "...".to_string());
    assert!(!effects.stop_spinner && !effects.reset_cancellation && effects.speak.is_none());
    assert!(llm.request().messages.is_empty());
    let effects = on_answer_event(&mut chat, &mut llm, LLMAnswer::EndAnswer, &format, "...".to_string());
    assert!(!effects.stop_spinner && effects.reset_cancellation);
    assert_eq!(effects.speak, Some("hi".to_string()));
}

#[test]
fn empty_answer_is_not_spoken() {
    let mut chat: Chat<String> = Chat::new();
    let mut llm = ollama();
    on_answer_event(&mut chat, &mut llm, LLMAnswer::StartAnswer, &format, "...".to_string());
    let effects = on_answer_event(&mut chat, &mut llm, LLMAnswer::EndAnswer, &format, "...".to_string());
    assert!(effects.speak.is_none() && effects.reset_cancellation);
    assert_eq!(chat.plain_chat, vec![": ".to_string()]);
    assert_eq!(llm.request().messages[0].content, "");
}

#[test]
fn new_conversation_is_empty() {
    let chat: Chat<String> = Chat::new();
    assert!(chat.plain_chat.is_empty() && chat.formatted_chat.is_empty());
    assert_eq!((chat.scroll, chat.area_height, chat.area_width), (0, 0, 0));
    assert!(chat.automatic_scroll && !chat.reserved);
    let answer: Answer<String> = Answer::new();
    assert!(answer.plain_answer.is_empty() && answer.formatted_answer.is_empty());
}

#[test]
fn height_counts_lines_wrapped_rows_and_three_spare() {
    let mut chat = chat_with(&["a", "b"]);
    chat.answer.formatted_answer.push("c".to_string());
    chat.area_width = 10;
    assert_eq!(chat.height(&[0, 9, 10]), 3 + 3 + 1);
    assert_eq!(chat.height(&[25, 30, 5]), 3 + 3 + 2 + 3);
    let mut empty: Chat<String> = Chat::new();
    empty.area_width = 1;
    assert_eq!(empty.height(&[]), 3);
}

#[test]
fn bottom_shows_the_last_rows() {
    let mut chat = chat_with(&["1", "2", "3", "4", "5", "6", "7", "8", "9", "10"]);
    chat.answer.formatted_answer.push("11".to_string());
    chat.answer.formatted_answer.push("12".to_string());
    chat.area_height = 7;
    chat.move_to_bottom();
    assert_eq!(chat.scroll, 12 - 5);
    chat.area_height = 40;
    chat.move_to_bottom();
    assert_eq!(chat.scroll, 0);
    chat.area_height = 1;
    chat.move_to_bottom();
    assert_eq!(chat.scroll, 12);
    chat.move_to_top();
    assert_eq!(chat.scroll, 0);
}

#[test]
fn command_line_is_split_at_the_first_blank() {
    assert_eq!(split_command("  :w out.txt  "), Some(("w".to_string(), "out.txt".to_string())));
    assert_eq!(split_command(":save my file.txt"), Some(("save".to_string(), "my file.txt".to_string())));
    assert_eq!(split_command(":clear"), Some(("clear".to_string(), String::new())));
    assert_eq!(split_command(":w "), Some(("w".to_string(), String::new())));
    assert_eq!(split_command(":"), Some((String::new(), String::new())));
    assert_eq!(split_command(": x"), Some((String::new(), "x".to_string())));
    assert_eq!(split_command(":w  x"), Some(("w".to_string(), " x".to_string())));
    assert_eq!(split_command(""), None);
    assert_eq!(split_command("   "), None);
    assert_eq!(split_command("clear"), None);
}

fn step_result(step: CommandStep) -> (String, String) {
    match step {
        CommandStep::Done(CommandResult::Success(message)) => ("success".to_string(), message),
        CommandStep::Done(CommandResult::Error(message)) => ("error".to_string(), message),
        CommandStep::Done(CommandResult::Exit) => ("exit".to_string(), String::new()),
        CommandStep::Load { path } => ("load".to_string(), path),
        CommandStep::Store { path, contents, .. } => (format!("store {}", path), contents),
        CommandStep::Quit => ("quit".to_string(), String::new()),
    }
}

#[test]
fn commands_are_understood() {
    let entries = ["\u{1F464}: hi\n", ": hello", "\u{1F464}: more\n", ": sure", "\u{1F464}: bye\n"];
    let mut chat = chat_with(&entries);
    assert_eq!(step_result(chat.execute_command("hello")), ("error".to_string(), "Not a command".to_string()));
    assert_eq!(step_result(chat.execute_command(":o")), ("error".to_string(), "Filename required".to_string()));
    assert_eq!(step_result(chat.execute_command(":w")), ("error".to_string(), "Filename required".to_string()));
    assert_eq!(step_result(chat.execute_command(":save")), ("error".to_string(), "Filename required".to_string()));
    assert_eq!(step_result(chat.execute_command(":o notes.md")), ("load".to_string(), "notes.md".to_string()));
    assert_eq!(step_result(chat.execute_command(":w out.txt")), ("store out.txt".to_string(), ": sure".to_string()));
    assert_eq!(
        step_result(chat.execute_command(":save all.txt")),
        ("store all.txt".to_string(), entries.join("\n"))
    );
    assert_eq!(step_result(chat.execute_command(":quit")), ("quit".to_string(), String::new()));
    assert_eq!(
        step_result(chat.execute_command(":frobnicate now")),
        ("error".to_string(), "Unknown command: frobnicate".to_string())
    );
    assert_eq!(chat.plain_chat.len(), 5);
    chat.scroll = 4;
    assert_eq!(step_result(chat.execute_command(" :clear ")), ("success".to_string(), "Chat cleared".to_string()));
    assert!(chat.plain_chat.is_empty() && chat.formatted_chat.is_empty());
    assert_eq!(chat.scroll, 0);
    assert_eq!(step_result(chat.execute_command(":w out.txt")), ("store out.txt".to_string(), String::new()));
}

#[test]
fn last_answer_and_plain_text() {
    let chat = chat_with(&["\u{1F464}: hi\n", ": one", "", ": two", "\u{1F464}: bye\n"]);
    assert_eq!(chat.last_answer(), ": two");
    assert_eq!(chat.plain_text(), "\u{1F464}: hi\n\n: one\n\n: two\n\u{1F464}: bye\n");
    let chat = chat_with(&["only"]);
    assert_eq!(chat.last_answer(), "");
    assert_eq!(chat.plain_text(), "only");
    let chat = chat_with(&[]);
    assert_eq!(chat.last_answer(), "");
    assert_eq!(chat.plain_text(), "");
}

fn result_text(result: CommandResult) -> (bool, String) {
    match result {
        CommandResult::Success(message) => (true, message),
        CommandResult::Error(message) => (false, message),
        CommandResult::Exit => (true, "exit".to_string()),
    }
}

#[test]
fn commands_are_finished_with_the_outcome_of_the_file_access() {
    let mut chat = chat_with(&[": answer"]);
    assert_eq!(
        result_text(chat.execute_command(":o in.txt").finish(None)),
        (true, "Loaded file: in.txt".to_string())
    );
    assert_eq!(
        result_text(chat.execute_command(":o in.txt").finish(Some("No such file".to_string()))),
        (false, "Failed to load file: No such file".to_string())
    );
    assert_eq!(
        result_text(chat.execute_command(":w out.txt").finish(None)),
        (true, "Written to file: out.txt".to_string())
    );
    assert_eq!(
        result_text(chat.execute_command(":w out.txt").finish(Some("denied".to_string()))),
        (false, "Failed to write to file: denied".to_string())
    );
    assert_eq!(
        result_text(chat.execute_command(":save s.txt").finish(None)),
        (true, "Saved to s.txt".to_string())
    );
    assert_eq!(
        result_text(chat.execute_command(":save s.txt").finish(Some("full".to_string()))),
        (false, "Failed to save: full".to_string())
    );
    assert_eq!(result_text(chat.execute_command(":quit").finish(None)), (true, "exit".to_string()));
    assert_eq!(
        result_text(chat.execute_command(":nope").finish(None)),
        (false, "Unknown command: nope".to_string())
    );
}
