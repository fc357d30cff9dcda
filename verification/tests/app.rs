use tenere::app::{handle_key_events, App, FocusedBlock};
use tenere::chat::{CommandResult, CommandStep};
use tenere::config::{KeyBindings, OllamaConfig};
use tenere::llm::LLMRole;
use tenere::notification::{expire, Notification, NotificationLevel};
use tenere::ollama::Ollama;
use tenere::prompt::{CursorMove, EditorCommand, Key, KeyModifiers, Mode};

fn format(text: &str) -> Vec<String> {
    vec![format!("<{}>", text)]
}

fn ollama() -> Ollama {
    Ollama::new(OllamaConfig { url: "u".to_string(), model: "m".to_string() })
}

fn app() -> App<String> {
    App::new(KeyBindings::default())
}

fn press(
    app: &mut App<String>,
    llm: &mut Ollama,
    key: Key,
    modifiers: KeyModifiers,
    input: &str,
) -> tenere::app::KeyOutcome {
    handle_key_events(key, modifiers, app, llm, input, &format, "placeholder".to_string())
}

#[test]
fn new_client_runs_with_focus_on_the_prompt() {
    let app = app();
    assert!(app.running);
    assert_eq!(app.focused_block, FocusedBlock::Prompt);
    assert_eq!(app.prompt.mode, Mode::Normal);
    assert_eq!(app.previous_key, Key::Null);
    assert!(!app.spinner_active);
    assert!(app.notifications.is_empty());
}

#[test]
fn q_quits_outside_insert_mode() {
    let mut llm = ollama();
    let mut one = app();
    press(&mut one, &mut llm, Key::Char('q'), KeyModifiers::Plain, "");
    assert!(!one.running);
    let mut two = app();
    two.prompt.mode = Mode::Insert;
    let outcome = press(&mut two, &mut llm, Key::Char('q'), KeyModifiers::Plain, "");
    assert!(two.running);
    assert_eq!(outcome.edits, vec![EditorCommand::InsertChar('q')]);
}

#[test]
fn control_c_quits_in_any_mode() {
    let mut llm = ollama();
    let mut app = app();
    app.prompt.mode = Mode::Insert;
    press(&mut app, &mut llm, Key::Char('c'), KeyModifiers::Control, "");
    assert!(!app.running);
}

#[test]
fn control_t_requests_cancellation() {
    let mut llm = ollama();
    let mut app = app();
    let outcome = press(&mut app, &mut llm, Key::Char('t'), KeyModifiers::Control, "");
    assert!(outcome.request_cancel);
    assert!(app.running);
    let outcome = press(&mut app, &mut llm, Key::Char('t'), KeyModifiers::Plain, "");
    assert!(!outcome.request_cancel);
}

#[test]
fn scrolling_follows_the_focus() {
    let mut llm = ollama();
    let mut app = app();
    app.focused_block = FocusedBlock::Chat;
    press(&mut app, &mut llm, Key::Char('j'), KeyModifiers::Plain, "");
    press(&mut app, &mut llm, Key::Down, KeyModifiers::Plain, "");
    assert_eq!(app.chat.scroll, 2);
    assert!(!app.chat.automatic_scroll);
    press(&mut app, &mut llm, Key::Char('k'), KeyModifiers::Plain, "");
    press(&mut app, &mut llm, Key::Up, KeyModifiers::Plain, "");
    press(&mut app, &mut llm, Key::Up, KeyModifiers::Plain, "");
    assert_eq!(app.chat.scroll, 0);
    app.chat.scroll = u16::MAX;
    press(&mut app, &mut llm, Key::Down, KeyModifiers::Plain, "");
    assert_eq!(app.chat.scroll, u16::MAX);

    app.focused_block = FocusedBlock::Preview;
    press(&mut app, &mut llm, Key::Down, KeyModifiers::Plain, "");
    assert_eq!(app.history.preview.scroll, 1);
    press(&mut app, &mut llm, Key::Up, KeyModifiers::Plain, "");
    press(&mut app, &mut llm, Key::Up, KeyModifiers::Plain, "");
    assert_eq!(app.history.preview.scroll, 0);

    app.focused_block = FocusedBlock::History;
    app.history.text = vec![vec!["a".to_string()], vec!["b".to_string()], vec!["c".to_string()]];
    press(&mut app, &mut llm, Key::Down, KeyModifiers::Plain, "");
    assert_eq!(app.history.selected, Some(0));
    press(&mut app, &mut llm, Key::Down, KeyModifiers::Plain, "");
    press(&mut app, &mut llm, Key::Down, KeyModifiers::Plain, "");
    press(&mut app, &mut llm, Key::Down, KeyModifiers::Plain, "");
    assert_eq!(app.history.selected, Some(2));
    press(&mut app, &mut llm, Key::Up, KeyModifiers::Plain, "");
    assert_eq!(app.history.selected, Some(1));
    press(&mut app, &mut llm, Key::Char('G'), KeyModifiers::Plain, "");
    assert_eq!(app.history.selected, Some(2));
    press(&mut app, &mut llm, Key::Char('g'), KeyModifiers::Plain, "");
    assert_eq!(app.history.selected, Some(2));
    press(&mut app, &mut llm, Key::Char('g'), KeyModifiers::Plain, "");
    assert_eq!(app.history.selected, Some(0));
}

#[test]
fn jumps_in_the_conversation() {
    let mut llm = ollama();
    let mut app = app();
    app.focused_block = FocusedBlock::Chat;
    for i in 0..30 {
        app.chat.formatted_chat.push(format!("line {}", i));
    }
    app.chat.area_height = 12;
    press(&mut app, &mut llm, Key::Char('G'), KeyModifiers::Plain, "");
    assert_eq!(app.chat.scroll, 20);
    press(&mut app, &mut llm, Key::Char('g'), KeyModifiers::Plain, "");
    assert_eq!(app.chat.scroll, 20);
    press(&mut app, &mut llm, Key::Char('g'), KeyModifiers::Plain, "");
    assert_eq!(app.chat.scroll, 0);
}

#[test]
fn tab_moves_the_focus() {
    let mut llm = ollama();
    let mut app = app();
    app.prompt.mode = Mode::Insert;
    press(&mut app, &mut llm, Key::Tab, KeyModifiers::Plain, "");
    assert_eq!(app.focused_block, FocusedBlock::Chat);
    assert_eq!(app.prompt.mode, Mode::Normal);
    app.chat.automatic_scroll = false;
    press(&mut app, &mut llm, Key::Tab, KeyModifiers::Plain, "");
    assert_eq!(app.focused_block, FocusedBlock::Prompt);
    assert!(app.chat.automatic_scroll);
    app.focused_block = FocusedBlock::History;
    app.history.preview.scroll = 5;
    press(&mut app, &mut llm, Key::Tab, KeyModifiers::Plain, "");
    assert_eq!(app.focused_block, FocusedBlock::Preview);
    assert_eq!(app.history.preview.scroll, 0);
    press(&mut app, &mut llm, Key::Tab, KeyModifiers::Plain, "");
    assert_eq!(app.focused_block, FocusedBlock::History);
    app.focused_block = FocusedBlock::Help;
    press(&mut app, &mut llm, Key::Tab, KeyModifiers::Plain, "");
    assert_eq!(app.focused_block, FocusedBlock::Help);
}

#[test]
fn pop_ups_open_and_close() {
    let mut llm = ollama();
    let mut app = app();
    press(&mut app, &mut llm, Key::Char('?'), KeyModifiers::Plain, "");
    assert_eq!(app.focused_block, FocusedBlock::Help);
    press(&mut app, &mut llm, Key::Esc, KeyModifiers::Plain, "");
    assert_eq!(app.focused_block, FocusedBlock::Prompt);
    press(&mut app, &mut llm, Key::Char('h'), KeyModifiers::Control, "");
    assert_eq!(app.focused_block, FocusedBlock::History);
    press(&mut app, &mut llm, Key::Esc, KeyModifiers::Plain, "");
    assert_eq!(app.focused_block, FocusedBlock::Prompt);
    app.prompt.mode = Mode::Insert;
    press(&mut app, &mut llm, Key::Char('?'), KeyModifiers::Plain, "");
    assert_eq!(app.focused_block, FocusedBlock::Prompt);
    press(&mut app, &mut llm, Key::Char('h'), KeyModifiers::Control, "");
    assert_eq!(app.focused_block, FocusedBlock::Prompt);
}

#[test]
fn enter_sends_the_prompt() {
    let mut llm = ollama();
    let mut app = app();
    let outcome = press(&mut app, &mut llm, Key::Enter, KeyModifiers::Plain, "  What is 2+2?\n ");
    assert!(outcome.ask);
    assert_eq!(outcome.edits, vec![EditorCommand::SelectAll, EditorCommand::Cut]);
    assert!(app.spinner_active);
    assert_eq!(app.chat.plain_chat, vec!["\u{1F464}: What is 2+2?\n".to_string()]);
    assert_eq!(
        app.chat.formatted_chat,
        vec!["<\u{1F464}: What is 2+2?\n>".to_string(), "placeholder".to_string()]
    );
    assert!(app.chat.reserved);
    let messages = llm.request().messages;
    assert_eq!(messages.len(), 1);
    assert_eq!(messages[0].role, LLMRole::USER);
    assert_eq!(messages[0].content, "What is 2+2?");
    assert_eq!(app.previous_key, Key::Enter);
}

#[test]
fn enter_on_an_empty_prompt_does_nothing() {
    let mut llm = ollama();
    let mut app = app();
    app.previous_key = Key::Char('x');
    let outcome = press(&mut app, &mut llm, Key::Enter, KeyModifiers::Plain, "   \n");
    assert!(!outcome.ask && outcome.edits.is_empty() && outcome.command.is_none());
    assert!(app.chat.plain_chat.is_empty());
    assert_eq!(app.previous_key, Key::Char('x'));
    assert!(llm.request().messages.is_empty());
}

#[test]
fn enter_in_normal_mode_drops_a_command_line() {
    let mut llm = ollama();
    let mut app = app();
    let outcome = press(&mut app, &mut llm, Key::Enter, KeyModifiers::Plain, ":clear");
    assert!(!outcome.ask && outcome.command.is_none());
    assert_eq!(outcome.edits, vec![EditorCommand::SelectAll, EditorCommand::Cut]);
    assert!(app.chat.plain_chat.is_empty());
}

#[test]
fn enter_in_command_mode_runs_the_command() {
    let mut llm = ollama();
    let mut app = app();
    app.chat.plain_chat.push(": old".to_string());
    app.prompt.mode = Mode::Command;
    let outcome = press(&mut app, &mut llm, Key::Enter, KeyModifiers::Plain, ":clear");
    assert!(matches!(
        outcome.command,
        Some(CommandStep::Done(CommandResult::Success(ref message))) if message == "Chat cleared"
    ));
    assert_eq!(outcome.edits, vec![EditorCommand::SelectAll, EditorCommand::Cut]);
    assert_eq!(app.prompt.mode, Mode::Normal);
    assert!(app.chat.plain_chat.is_empty());

    app.prompt.mode = Mode::Command;
    let outcome = press(&mut app, &mut llm, Key::Enter, KeyModifiers::Plain, ":w out.txt");
    assert!(matches!(outcome.command, Some(CommandStep::Store { ref path, .. }) if path == "out.txt"));

    app.prompt.mode = Mode::Command;
    app.previous_key = Key::Char('z');
    let outcome = press(&mut app, &mut llm, Key::Enter, KeyModifiers::Plain, "");
    assert!(outcome.command.is_none() && outcome.edits.is_empty());
    assert_eq!(app.prompt.mode, Mode::Normal);
    assert_eq!(app.previous_key, Key::Char('z'));
}

#[test]
fn keys_reach_the_prompt_only_when_it_has_the_focus() {
    let mut llm = ollama();
    let mut app = app();
    let outcome = press(&mut app, &mut llm, Key::Char('i'), KeyModifiers::Plain, "");
    assert!(outcome.edits.is_empty());
    assert_eq!(app.prompt.mode, Mode::Insert);
    let outcome = press(&mut app, &mut llm, Key::Char('x'), KeyModifiers::Plain, "");
    assert_eq!(outcome.edits, vec![EditorCommand::InsertChar('x')]);
    app.focused_block = FocusedBlock::Help;
    let outcome = press(&mut app, &mut llm, Key::Char('y'), KeyModifiers::Plain, "");
    assert!(outcome.edits.is_empty());
    assert_eq!(app.previous_key, Key::Char('y'));
}

#[test]
fn scroll_keys_also_move_the_cursor_of_a_focused_prompt() {
    let mut llm = ollama();
    let mut app = app();
    let outcome = press(&mut app, &mut llm, Key::Char('j'), KeyModifiers::Plain, "");
    assert_eq!(outcome.edits, vec![EditorCommand::MoveCursor(CursorMove::Down)]);
    assert_eq!(app.chat.scroll, 0);
}

#[test]
fn new_chat_puts_the_conversation_away() {
    let mut llm = ollama();
    let mut app = app();
    press(&mut app, &mut llm, Key::Enter, KeyModifiers::Plain, "hello");
    let plain = app.chat.plain_chat.clone();
    let formatted = app.chat.formatted_chat.clone();
    app.chat.scroll = 3;
    let outcome = press(&mut app, &mut llm, Key::Char('n'), KeyModifiers::Control, "");
    assert_eq!(outcome.save_history, Some(0));
    assert_eq!(&outcome.edits[..2], &[EditorCommand::SelectAll, EditorCommand::Cut]);
    assert_eq!(app.history.text, vec![plain]);
    assert_eq!(app.history.preview.text, vec![formatted]);
    assert!(app.chat.plain_chat.is_empty() && app.chat.formatted_chat.is_empty());
    assert_eq!(app.chat.scroll, 0);
    assert!(!app.chat.reserved);
    assert!(llm.request().messages.is_empty());
    let outcome = press(&mut app, &mut llm, Key::Char('n'), KeyModifiers::Plain, "");
    assert_eq!(outcome.save_history, None);
}

#[test]
fn tick_ages_notifications_and_animates_the_wait() {
    let mut app = app();
    app.notify(Notification::new("saved".to_string(), NotificationLevel::Info));
    let mut stale = Notification::new("old".to_string(), NotificationLevel::Error);
    stale.ttl = 0;
    app.notify(stale);
    app.chat.formatted_chat.push("line".to_string());
    assert!(!app.tick("frame 1".to_string()));
    assert_eq!(app.notifications.len(), 1);
    assert_eq!(app.notifications[0].message, "saved");
    assert_eq!(app.notifications[0].ttl, 7);
    assert_eq!(app.chat.formatted_chat, vec!["line".to_string()]);
    app.spinner_active = true;
    assert!(app.tick("frame 2".to_string()));
    assert_eq!(app.chat.formatted_chat, vec!["line".to_string(), "frame 2".to_string()]);
    assert!(app.chat.reserved);
    assert!(app.tick("frame 3".to_string()));
    assert_eq!(app.chat.formatted_chat, vec!["line".to_string(), "frame 3".to_string()]);
    assert_eq!(app.notifications[0].ttl, 5);
}

#[test]
fn notification_lives_eight_ticks() {
    let note = Notification::new("hello".to_string(), NotificationLevel::Warning);
    assert_eq!(note.ttl, 8);
    assert_eq!(note.level, NotificationLevel::Warning);
    assert_eq!(note.title(), "Warning");
    assert_eq!(Notification::new(String::new(), NotificationLevel::Info).title(), "Info");
    assert_eq!(Notification::new(String::new(), NotificationLevel::Error).title(), "Error");
    let mut notes = vec![note.clone()];
    for _ in 0..8 {
        assert_eq!(notes.len(), 1);
        expire(&mut notes);
    }
    assert_eq!(notes[0].ttl, 0);
    expire(&mut notes);
    assert!(notes.is_empty());
}

#[test]
fn expiry_keeps_the_order() {
    let mut notes: Vec<Notification> = Vec::new();
    for (i, ttl) in [3u16, 0, 1, 0, 9].iter().enumerate() {
        let mut note = Notification::new(format!("n{}", i), NotificationLevel::Info);
        note.ttl = *ttl;
        notes.push(note);
    }
    expire(&mut notes);
    let seen: Vec<(String, u16)> = notes.iter().map(|n| (n.message.clone(), n.ttl)).collect();
    assert_eq!(seen, vec![("n0".to_string(), 2), ("n2".to_string(), 0), ("n4".to_string(), 8)]);
}
