use tenere::history::{first_line_of, History};

fn history(entries: usize) -> History<String> {
    let mut history: History<String> = History::new();
    for i in 0..entries {
        history.load_chat(&format!("chat {}\nsecond line", i), format!("doc {}", i));
    }
    history
}

#[test]
fn new_history_is_empty() {
    let history: History<String> = History::new();
    assert!(history.text.is_empty() && history.preview.text.is_empty());
    assert_eq!(history.selected, None);
    assert_eq!(history.preview.scroll, 0);
}

#[test]
fn empty_history_ignores_moves() {
    let mut history = history(0);
    history.scroll_down();
    history.scroll_up();
    history.move_to_bottom();
    history.move_to_top();
    history.ensure_selection();
    assert_eq!(history.selected, None);
}

#[test]
fn selection_steps_stay_inside_the_list() {
    let mut history = history(3);
    history.scroll_down();
    assert_eq!(history.selected, Some(0));
    history.scroll_down();
    history.scroll_down();
    assert_eq!(history.selected, Some(2));
    history.scroll_down();
    assert_eq!(history.selected, Some(2));
    history.scroll_up();
    assert_eq!(history.selected, Some(1));
    history.scroll_up();
    history.scroll_up();
    assert_eq!(history.selected, Some(0));
    history.move_to_bottom();
    assert_eq!(history.selected, Some(2));
    history.move_to_top();
    assert_eq!(history.selected, Some(0));
}

#[test]
fn step_up_without_selection_selects_the_first() {
    let mut history = history(2);
    history.scroll_up();
    assert_eq!(history.selected, Some(0));
}

#[test]
fn drawing_selects_the_first_entry_once() {
    let mut history = history(2);
    history.ensure_selection();
    assert_eq!(history.selected, Some(0));
    history.scroll_down();
    history.ensure_selection();
    assert_eq!(history.selected, Some(1));
}

#[test]
fn archive_is_listed_by_its_first_line() {
    let history = history(2);
    assert_eq!(history.text, vec![vec!["chat 0".to_string()], vec!["chat 1".to_string()]]);
    assert_eq!(history.preview.text, vec!["doc 0".to_string(), "doc 1".to_string()]);
}

#[test]
fn first_line_ends_at_the_line_break() {
    assert_eq!(first_line_of("one\ntwo"), "one");
    assert_eq!(first_line_of("one\r\ntwo"), "one");
    assert_eq!(first_line_of("one"), "one");
    assert_eq!(first_line_of("one\r"), "one\r");
    assert_eq!(first_line_of("one\r\r\n"), "one\r");
    assert_eq!(first_line_of("\r\n"), "");
    assert_eq!(first_line_of("\nrest"), "");
    assert_eq!(first_line_of(""), "");
    assert_eq!(first_line_of("\u{1F464}: h\u{e9}\nx"), "\u{1F464}: h\u{e9}");
}

#[test]
fn archive_text_runs_the_entries_together() {
    let mut history = history(1);
    history.text.push(vec!["a\n".to_string(), "b".to_string(), "c\n".to_string()]);
    history.text.push(vec![]);
    assert_eq!(history.archive_text(0), Some("chat 0".to_string()));
    assert_eq!(history.archive_text(1), Some("a\nbc\n".to_string()));
    assert_eq!(history.archive_text(2), Some(String::new()));
    assert_eq!(history.archive_text(3), None);
}
