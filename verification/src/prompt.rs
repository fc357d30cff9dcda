//! The modal prompt: which editing commands a key stands for.
//!
//! The prompt decides; the editor widget that holds the text carries the
//! commands out.

use vstd::prelude::*;
use vstd::string::*;
use crate::config::Config;
use crate::llm::{text_of, LLMBackend};

verus! {

/// The mode the prompt is in.
#[derive(Debug, Clone, Copy, PartialEq, Eq, Structural)]
pub enum Mode {
    Normal,
    Insert,
    Visual,
    Command,
}

/// What the backend is doing, as the status line shows it.
#[derive(Debug, Clone, Copy, PartialEq, Eq, Structural)]
pub enum LLMStatus {
    Idle,
    Responding,
    Finished,
}

/// A key as the prompt tells keys apart.
#[derive(Debug, Clone, Copy, PartialEq, Eq, Structural)]
pub enum Key {
    Char(char),
    Enter,
    Backspace,
    Esc,
    Left,
    Right,
    Up,
    Down,
    Home,
    End,
    Delete,
    Tab,
    Null,
    Other,
}

/// The modifier keys held down with a key.
#[derive(Debug, Clone, Copy, PartialEq, Eq, Structural)]
pub enum KeyModifiers {
    /// None at all.
    Plain,
    /// Control and nothing else.
    Control,
    /// Any other combination.
    Other,
}

/// Where the editor is to move its cursor.
#[derive(Debug, Clone, Copy, PartialEq, Eq, Structural)]
pub enum CursorMove {
    Back,
    Forward,
    Up,
    Down,
    Head,
    End,
    WordForward,
    WordBack,
    Bottom,
    /// The first column of the first line.
    Top,
}

/// One thing the editor is asked to do.
#[derive(Debug, Clone, Copy, PartialEq, Eq, Structural)]
pub enum EditorCommand {
    InsertNewline,
    InsertChar(char),
    DeleteChar,
    DeleteNextChar,
    DeleteNextWord,
    DeleteWord,
    DeleteLineByEnd,
    DeleteLineByHead,
    MoveCursor(CursorMove),
    SelectAll,
    Cut,
    StartSelection,
    CancelSelection,
    /// Copy the selection, to the system clipboard too.
    Copy,
    /// Paste what was copied, or else what the system clipboard holds.
    Paste,
    Undo,
    /// Insert the contents of the configured input file.
    LoadInputFile,
}

/// The state of the prompt.
#[derive(Debug)]
pub struct Prompt {
    pub mode: Mode,
    pub llm_status: LLMStatus,
}

/// What a key does in insert mode.
pub open spec fn insert_step(mode: Mode, key: Key) -> (Mode, Seq<EditorCommand>) {
    match key {
        Key::Enter => (mode, seq![EditorCommand::InsertNewline]),
        Key::Char(c) => (mode, seq![EditorCommand::InsertChar(c)]),
        Key::Backspace => (mode, seq![EditorCommand::DeleteChar]),
        Key::Esc => (Mode::Normal, Seq::empty()),
        Key::Left => (mode, seq![EditorCommand::MoveCursor(CursorMove::Back)]),
        Key::Right => (mode, seq![EditorCommand::MoveCursor(CursorMove::Forward)]),
        Key::Up => (mode, seq![EditorCommand::MoveCursor(CursorMove::Up)]),
        Key::Down => (mode, seq![EditorCommand::MoveCursor(CursorMove::Down)]),
        Key::Home => (mode, seq![EditorCommand::MoveCursor(CursorMove::Head)]),
        Key::End => (mode, seq![EditorCommand::MoveCursor(CursorMove::End)]),
        Key::Delete => (mode, seq![EditorCommand::DeleteNextChar]),
        _ => (mode, Seq::empty()),
    }
}

/// What a key does in command mode.
pub open spec fn command_step(mode: Mode, key: Key) -> (Mode, Seq<EditorCommand>) {
    match key {
        Key::Enter => (Mode::Normal, Seq::empty()),
        Key::Esc => (Mode::Normal, seq![EditorCommand::SelectAll, EditorCommand::Cut]),
        Key::Char(c) => (mode, seq![EditorCommand::InsertChar(c)]),
        Key::Backspace => (mode, seq![EditorCommand::DeleteChar]),
        Key::Left => (mode, seq![EditorCommand::MoveCursor(CursorMove::Back)]),
        Key::Right => (mode, seq![EditorCommand::MoveCursor(CursorMove::Forward)]),
        _ => (mode, Seq::empty()),
    }
}

/// What a letter does in normal and in visual mode: here the letters that
/// change the mode or move by one place; other letters are left to
/// [`word_motion_step`]. Some letters complete a command that the key before
/// began.
pub open spec fn letter_step(mode: Mode, c: char, modifiers: KeyModifiers, previous: Key) -> (
    Mode,
    Seq<EditorCommand>,
) {
    if c == ':' {
        if mode == Mode::Normal {
            (Mode::Command, seq![EditorCommand::InsertChar(':')])
        } else {
            (mode, Seq::empty())
        }
    } else if c == 'i' {
        (Mode::Insert, Seq::empty())
    } else if c == 'v' {
        (Mode::Visual, seq![EditorCommand::StartSelection])
    } else if c == 'h' {
        if modifiers == KeyModifiers::Plain {
            (mode, seq![EditorCommand::MoveCursor(CursorMove::Back)])
        } else {
            (mode, Seq::empty())
        }
    } else if c == 'j' {
        if modifiers == KeyModifiers::Plain {
            (mode, seq![EditorCommand::MoveCursor(CursorMove::Down)])
        } else {
            (mode, Seq::empty())
        }
    } else if c == 'k' {
        if modifiers == KeyModifiers::Plain {
            (mode, seq![EditorCommand::MoveCursor(CursorMove::Up)])
        } else {
            (mode, Seq::empty())
        }
    } else if c == 'l' {
        if modifiers == KeyModifiers::Plain {
            (mode, seq![EditorCommand::MoveCursor(CursorMove::Forward)])
        } else {
            (mode, Seq::empty())
        }
    } else {
        word_motion_step(mode, c, modifiers, previous)
    }
}

/// What the letters of word and line motions do, and `m`; other letters are
/// left to [`change_step`].
pub open spec fn word_motion_step(mode: Mode, c: char, modifiers: KeyModifiers, previous: Key) -> (
    Mode,
    Seq<EditorCommand>,
) {
    if c == 'm' {
        (mode, seq![EditorCommand::LoadInputFile])
    } else if c == 'w' {
        if previous == Key::Char('d') {
            (mode, seq![EditorCommand::DeleteNextWord])
        } else if previous == Key::Char('c') {
            (Mode::Insert, seq![EditorCommand::DeleteNextWord])
        } else {
            (mode, seq![EditorCommand::MoveCursor(CursorMove::WordForward)])
        }
    } else if c == 'b' {
        if previous == Key::Char('d') {
            (mode, seq![EditorCommand::DeleteWord])
        } else if previous == Key::Char('c') {
            (Mode::Insert, seq![EditorCommand::DeleteWord])
        } else {
            (mode, seq![EditorCommand::MoveCursor(CursorMove::WordBack)])
        }
    } else if c == '$' {
        if previous == Key::Char('d') {
            (mode, seq![EditorCommand::DeleteLineByEnd])
        } else if previous == Key::Char('c') {
            (Mode::Insert, seq![EditorCommand::DeleteLineByEnd])
        } else {
            (mode, seq![EditorCommand::MoveCursor(CursorMove::End)])
        }
    } else if c == '0' {
        if previous == Key::Char('d') {
            (mode, seq![EditorCommand::DeleteLineByHead])
        } else if previous == Key::Char('c') {
            (Mode::Insert, seq![EditorCommand::DeleteLineByHead])
        } else {
            (mode, seq![EditorCommand::MoveCursor(CursorMove::Head)])
        }
    } else if c == 'G' {
        (mode, seq![EditorCommand::MoveCursor(CursorMove::Bottom)])
    } else if c == 'g' {
        if previous == Key::Char('g') {
            (mode, seq![EditorCommand::MoveCursor(CursorMove::Top)])
        } else {
            (mode, Seq::empty())
        }
    } else {
        change_step(mode, c, modifiers, previous)
    }
}

/// What the letters that delete, change and append do; other letters are
/// left to [`opening_step`].
pub open spec fn change_step(mode: Mode, c: char, modifiers: KeyModifiers, previous: Key) -> (
    Mode,
    Seq<EditorCommand>,
) {
    if c == 'D' {
        (
            mode,
            seq![
                EditorCommand::MoveCursor(CursorMove::Head),
                EditorCommand::DeleteLineByEnd,
                EditorCommand::DeleteLineByHead,
            ],
        )
    } else if c == 'd' {
        if previous == Key::Char('d') {
            (
                mode,
                seq![
                    EditorCommand::MoveCursor(CursorMove::Head),
                    EditorCommand::DeleteLineByEnd,
                ],
            )
        } else {
            (mode, Seq::empty())
        }
    } else if c == 'c' {
        if previous == Key::Char('c') {
            (
                Mode::Insert,
                seq![
                    EditorCommand::MoveCursor(CursorMove::Head),
                    EditorCommand::DeleteLineByEnd,
                ],
            )
        } else {
            (mode, Seq::empty())
        }
    } else if c == 'C' {
        (Mode::Insert, seq![EditorCommand::DeleteLineByEnd])
    } else if c == 'x' {
        (mode, seq![EditorCommand::DeleteNextChar])
    } else if c == 'a' {
        (Mode::Insert, seq![EditorCommand::MoveCursor(CursorMove::Forward)])
    } else if c == 'A' {
        (Mode::Insert, seq![EditorCommand::MoveCursor(CursorMove::End)])
    } else {
        opening_step(mode, c, modifiers, previous)
    }
}

/// What the letters that open a line, copy, paste and undo do; any other
/// letter does nothing.
pub open spec fn opening_step(mode: Mode, c: char, modifiers: KeyModifiers, previous: Key) -> (
    Mode,
    Seq<EditorCommand>,
) {
    if c == 'o' {
        (
            Mode::Insert,
            seq![
                EditorCommand::MoveCursor(CursorMove::End),
                EditorCommand::InsertNewline,
            ],
        )
    } else if c == 'O' {
        (
            Mode::Insert,
            seq![
                EditorCommand::MoveCursor(CursorMove::Head),
                EditorCommand::InsertNewline,
                EditorCommand::MoveCursor(CursorMove::Up),
            ],
        )
    } else if c == 'I' {
        (Mode::Insert, seq![EditorCommand::MoveCursor(CursorMove::Head)])
    } else if c == 'y' {
        (mode, seq![EditorCommand::Copy])
    } else if c == 'p' {
        (mode, seq![EditorCommand::Paste])
    } else if c == 'u' {
        (mode, seq![EditorCommand::Undo])
    } else {
        (mode, Seq::empty())
    }
}

/// What a key does in normal and in visual mode.
pub open spec fn normal_step(mode: Mode, key: Key, modifiers: KeyModifiers, previous: Key) -> (
    Mode,
    Seq<EditorCommand>,
) {
    match key {
        Key::Esc => (Mode::Normal, seq![EditorCommand::CancelSelection]),
        Key::Left => if modifiers == KeyModifiers::Plain {
                (mode, seq![EditorCommand::MoveCursor(CursorMove::Back)])
            } else {
                (mode, Seq::empty())
            },
        Key::Down => if modifiers == KeyModifiers::Plain {
                (mode, seq![EditorCommand::MoveCursor(CursorMove::Down)])
            } else {
                (mode, Seq::empty())
            },
        Key::Up => if modifiers == KeyModifiers::Plain {
                (mode, seq![EditorCommand::MoveCursor(CursorMove::Up)])
            } else {
                (mode, Seq::empty())
            },
        Key::Right => if modifiers == KeyModifiers::Plain {
                (mode, seq![EditorCommand::MoveCursor(CursorMove::Forward)])
            } else {
                (mode, Seq::empty())
            },
        Key::Home => (mode, seq![EditorCommand::MoveCursor(CursorMove::Head)]),
        Key::End => (mode, seq![EditorCommand::MoveCursor(CursorMove::End)]),
        Key::Char(c) => letter_step(mode, c, modifiers, previous),
        _ => (mode, Seq::empty()),
    }
}

/// The mode a key leaves the prompt in and the commands it stands for.
pub open spec fn prompt_step(mode: Mode, key: Key, modifiers: KeyModifiers, previous: Key) -> (
    Mode,
    Seq<EditorCommand>,
) {
    match mode {
        Mode::Insert => insert_step(mode, key),
        Mode::Command => command_step(mode, key),
        Mode::Normal | Mode::Visual => normal_step(mode, key, modifiers, previous),
    }
}

/// The label of a mode on the status line.
pub open spec fn mode_label(mode: Mode) -> Seq<char> {
    match mode {
        Mode::Insert => "INSERT"@,
        Mode::Normal => "NORMAL"@,
        Mode::Visual => "VISUAL"@,
        Mode::Command => "COMMAND"@,
    }
}

/// What the status line shows for the selected backend: its model, or for
/// llama.cpp, which has none, its address.
pub open spec fn current_model(config: &Config) -> Option<Seq<char>> {
    match config.llm {
        LLMBackend::ChatGPT => Some(config.chatgpt.model@),
        LLMBackend::LLamacpp => match config.llamacpp {
            Some(section) => Some(section.url@),
            None => None,
        },
        LLMBackend::Ollama => match config.ollama {
            Some(section) => Some(section.model@),
            None => None,
        },
        LLMBackend::Xai => match config.xai {
            Some(section) => Some(section.model@),
            None => None,
        },
        LLMBackend::Gemini => match config.gemini {
            Some(section) => Some(section.model@),
            None => None,
        },
    }
}

/// No command.
fn none() -> (list: Vec<EditorCommand>)
    ensures
        list@ == Seq::<EditorCommand>::empty(),
{
    Vec::new()
}

/// One command.
fn one(first: EditorCommand) -> (list: Vec<EditorCommand>)
    ensures
        list@ == seq![first],
{
    let mut list: Vec<EditorCommand> = Vec::new();
    list.push(first);
    assert(list@ =~= seq![first]);
    list
}

/// Two commands.
fn two(first: EditorCommand, second: EditorCommand) -> (list: Vec<EditorCommand>)
    ensures
        list@ == seq![first, second],
{
    let mut list: Vec<EditorCommand> = Vec::new();
    list.push(first);
    list.push(second);
    assert(list@ =~= seq![first, second]);
    list
}

/// Three commands.
fn three(first: EditorCommand, second: EditorCommand, third: EditorCommand) -> (list: Vec<
    EditorCommand,
>)
    ensures
        list@ == seq![first, second, third],
{
    let mut list: Vec<EditorCommand> = Vec::new();
    list.push(first);
    list.push(second);
    list.push(third);
    assert(list@ =~= seq![first, second, third]);
    list
}

/// Carries out [`insert_step`].
fn insert_keys(mode: Mode, key: Key) -> (step: (Mode, Vec<EditorCommand>))
    ensures
        step.0 == insert_step(mode, key).0,
        step.1@ == insert_step(mode, key).1,
{
    match key {
        Key::Enter => (mode, one(EditorCommand::InsertNewline)),
        Key::Char(c) => (mode, one(EditorCommand::InsertChar(c))),
        Key::Backspace => (mode, one(EditorCommand::DeleteChar)),
        Key::Esc => (Mode::Normal, none()),
        Key::Left => (mode, one(EditorCommand::MoveCursor(CursorMove::Back))),
        Key::Right => (mode, one(EditorCommand::MoveCursor(CursorMove::Forward))),
        Key::Up => (mode, one(EditorCommand::MoveCursor(CursorMove::Up))),
        Key::Down => (mode, one(EditorCommand::MoveCursor(CursorMove::Down))),
        Key::Home => (mode, one(EditorCommand::MoveCursor(CursorMove::Head))),
        Key::End => (mode, one(EditorCommand::MoveCursor(CursorMove::End))),
        Key::Delete => (mode, one(EditorCommand::DeleteNextChar)),
        _ => (mode, none()),
    }
}

/// Carries out [`command_step`].
fn command_keys(mode: Mode, key: Key) -> (step: (Mode, Vec<EditorCommand>))
    ensures
        step.0 == command_step(mode, key).0,
        step.1@ == command_step(mode, key).1,
{
    match key {
        Key::Enter => (Mode::Normal, none()),
        Key::Esc => (Mode::Normal, two(EditorCommand::SelectAll, EditorCommand::Cut)),
        Key::Char(c) => (mode, one(EditorCommand::InsertChar(c))),
        Key::Backspace => (mode, one(EditorCommand::DeleteChar)),
        Key::Left => (mode, one(EditorCommand::MoveCursor(CursorMove::Back))),
        Key::Right => (mode, one(EditorCommand::MoveCursor(CursorMove::Forward))),
        _ => (mode, none()),
    }
}

/// Carries out [`letter_step`].
fn letter_keys(mode: Mode, c: char, modifiers: KeyModifiers, previous: Key) -> (step: (
    Mode,
    Vec<EditorCommand>,
))
    ensures
        step.0 == letter_step(mode, c, modifiers, previous).0,
        step.1@ == letter_step(mode, c, modifiers, previous).1,
{
    if c == ':' {
        if mode == Mode::Normal {
            (Mode::Command, one(EditorCommand::InsertChar(':')))
        } else {
            (mode, none())
        }
    } else if c == 'i' {
        (Mode::Insert, none())
    } else if c == 'v' {
        (Mode::Visual, one(EditorCommand::StartSelection))
    } else if c == 'h' {
        if modifiers == KeyModifiers::Plain {
            (mode, one(EditorCommand::MoveCursor(CursorMove::Back)))
        } else {
            (mode, none())
        }
    } else if c == 'j' {
        if modifiers == KeyModifiers::Plain {
            (mode, one(EditorCommand::MoveCursor(CursorMove::Down)))
        } else {
            (mode, none())
        }
    } else if c == 'k' {
        if modifiers == KeyModifiers::Plain {
            (mode, one(EditorCommand::MoveCursor(CursorMove::Up)))
        } else {
            (mode, none())
        }
    } else if c == 'l' {
        if modifiers == KeyModifiers::Plain {
            (mode, one(EditorCommand::MoveCursor(CursorMove::Forward)))
        } else {
            (mode, none())
        }
    } else {
        word_motion_keys(mode, c, modifiers, previous)
    }
}

/// Carries out [`word_motion_step`].
fn word_motion_keys(mode: Mode, c: char, modifiers: KeyModifiers, previous: Key) -> (step: (
    Mode,
    Vec<EditorCommand>,
))
    ensures
        step.0 == word_motion_step(mode, c, modifiers, previous).0,
        step.1@ == word_motion_step(mode, c, modifiers, previous).1,
{
    if c == 'm' {
        (mode, one(EditorCommand::LoadInputFile))
    } else if c == 'w' {
        if previous == Key::Char('d') {
            (mode, one(EditorCommand::DeleteNextWord))
        } else if previous == Key::Char('c') {
            (Mode::Insert, one(EditorCommand::DeleteNextWord))
        } else {
            (mode, one(EditorCommand::MoveCursor(CursorMove::WordForward)))
        }
    } else if c == 'b' {
        if previous == Key::Char('d') {
            (mode, one(EditorCommand::DeleteWord))
        } else if previous == Key::Char('c') {
            (Mode::Insert, one(EditorCommand::DeleteWord))
        } else {
            (mode, one(EditorCommand::MoveCursor(CursorMove::WordBack)))
        }
    } else if c == '$' {
        if previous == Key::Char('d') {
            (mode, one(EditorCommand::DeleteLineByEnd))
        } else if previous == Key::Char('c') {
            (Mode::Insert, one(EditorCommand::DeleteLineByEnd))
        } else {
            (mode, one(EditorCommand::MoveCursor(CursorMove::End)))
        }
    } else if c == '0' {
        if previous == Key::Char('d') {
            (mode, one(EditorCommand::DeleteLineByHead))
        } else if previous == Key::Char('c') {
            (Mode::Insert, one(EditorCommand::DeleteLineByHead))
        } else {
            (mode, one(EditorCommand::MoveCursor(CursorMove::Head)))
        }
    } else if c == 'G' {
        (mode, one(EditorCommand::MoveCursor(CursorMove::Bottom)))
    } else if c == 'g' {
        if previous == Key::Char('g') {
            (mode, one(EditorCommand::MoveCursor(CursorMove::Top)))
        } else {
            (mode, none())
        }
    } else {
        change_keys(mode, c, modifiers, previous)
    }
}

/// Carries out [`change_step`].
fn change_keys(mode: Mode, c: char, modifiers: KeyModifiers, previous: Key) -> (step: (
    Mode,
    Vec<EditorCommand>,
))
    ensures
        step.0 == change_step(mode, c, modifiers, previous).0,
        step.1@ == change_step(mode, c, modifiers, previous).1,
{
    if c == 'D' {
        (
            mode,
            three(
                EditorCommand::MoveCursor(CursorMove::Head),
                EditorCommand::DeleteLineByEnd,
                EditorCommand::DeleteLineByHead,
            ),
        )
    } else if c == 'd' {
        if previous == Key::Char('d') {
            (mode, two(EditorCommand::MoveCursor(CursorMove::Head), EditorCommand::DeleteLineByEnd))
        } else {
            (mode, none())
        }
    } else if c == 'c' {
        if previous == Key::Char('c') {
            (
                Mode::Insert,
                two(
                    EditorCommand::MoveCursor(CursorMove::Head),
                    EditorCommand::DeleteLineByEnd,
                ),
            )
        } else {
            (mode, none())
        }
    } else if c == 'C' {
        (Mode::Insert, one(EditorCommand::DeleteLineByEnd))
    } else if c == 'x' {
        (mode, one(EditorCommand::DeleteNextChar))
    } else if c == 'a' {
        (Mode::Insert, one(EditorCommand::MoveCursor(CursorMove::Forward)))
    } else if c == 'A' {
        (Mode::Insert, one(EditorCommand::MoveCursor(CursorMove::End)))
    } else {
        opening_keys(mode, c, modifiers, previous)
    }
}

/// Carries out [`opening_step`].
fn opening_keys(mode: Mode, c: char, modifiers: KeyModifiers, previous: Key) -> (step: (
    Mode,
    Vec<EditorCommand>,
))
    ensures
        step.0 == opening_step(mode, c, modifiers, previous).0,
        step.1@ == opening_step(mode, c, modifiers, previous).1,
{
    if c == 'o' {
        (
            Mode::Insert,
            two(
                EditorCommand::MoveCursor(CursorMove::End),
                EditorCommand::InsertNewline,
            ),
        )
    } else if c == 'O' {
        (
            Mode::Insert,
            three(
                EditorCommand::MoveCursor(CursorMove::Head),
                EditorCommand::InsertNewline,
                EditorCommand::MoveCursor(CursorMove::Up),
            ),
        )
    } else if c == 'I' {
        (Mode::Insert, one(EditorCommand::MoveCursor(CursorMove::Head)))
    } else if c == 'y' {
        (mode, one(EditorCommand::Copy))
    } else if c == 'p' {
        (mode, one(EditorCommand::Paste))
    } else if c == 'u' {
        (mode, one(EditorCommand::Undo))
    } else {
        (mode, none())
    }
}

/// Carries out [`normal_step`].
fn normal_keys(mode: Mode, key: Key, modifiers: KeyModifiers, previous: Key) -> (step: (
    Mode,
    Vec<EditorCommand>,
))
    ensures
        step.0 == normal_step(mode, key, modifiers, previous).0,
        step.1@ == normal_step(mode, key, modifiers, previous).1,
{
    match key {
        Key::Esc => (Mode::Normal, one(EditorCommand::CancelSelection)),
        Key::Left => if modifiers == KeyModifiers::Plain {
                (mode, one(EditorCommand::MoveCursor(CursorMove::Back)))
            } else {
                (mode, none())
            },
        Key::Down => if modifiers == KeyModifiers::Plain {
                (mode, one(EditorCommand::MoveCursor(CursorMove::Down)))
            } else {
                (mode, none())
            },
        Key::Up => if modifiers == KeyModifiers::Plain {
                (mode, one(EditorCommand::MoveCursor(CursorMove::Up)))
            } else {
                (mode, none())
            },
        Key::Right => if modifiers == KeyModifiers::Plain {
                (mode, one(EditorCommand::MoveCursor(CursorMove::Forward)))
            } else {
                (mode, none())
            },
        Key::Home => (mode, one(EditorCommand::MoveCursor(CursorMove::Head))),
        Key::End => (mode, one(EditorCommand::MoveCursor(CursorMove::End))),
        Key::Char(c) => letter_keys(mode, c, modifiers, previous),
        _ => (mode, none()),
    }
}

impl Prompt {
    /// A prompt in normal mode.
    pub fn new() -> (prompt: Prompt)
        ensures
            prompt.mode == Mode::Normal,
            prompt.llm_status == LLMStatus::Idle,
    {
        Prompt { mode: Mode::Normal, llm_status: LLMStatus::Idle }
    }

    /// The commands that empty the editor.
    pub fn clear(&self) -> (list: Vec<EditorCommand>)
        ensures
            list@ == seq![EditorCommand::SelectAll, EditorCommand::Cut],
    {
        two(EditorCommand::SelectAll, EditorCommand::Cut)
    }

    /// What the status line shows for the selected backend.
    pub fn get_current_model(config: &Config) -> (model: Option<String>)
        ensures
            text_of(model) == current_model(config),
    {
        match config.llm {
            LLMBackend::ChatGPT => Some(config.chatgpt.model.clone()),
            LLMBackend::LLamacpp => match &config.llamacpp {
                Some(section) => Some(section.url.clone()),
                None => None,
            },
            LLMBackend::Ollama => match &config.ollama {
                Some(section) => Some(section.model.clone()),
                None => None,
            },
            LLMBackend::Xai => match &config.xai {
                Some(section) => Some(section.model.clone()),
                None => None,
            },
            LLMBackend::Gemini => match &config.gemini {
                Some(section) => Some(section.model.clone()),
                None => None,
            },
        }
    }

    /// The label of the mode on the status line.
    pub fn mode_text(&self) -> (label: &'static str)
        ensures
            label@ == mode_label(self.mode),
    {
        match self.mode {
            Mode::Insert => "INSERT",
            Mode::Normal => "NORMAL",
            Mode::Visual => "VISUAL",
            Mode::Command => "COMMAND",
        }
    }

    /// Takes a key: the mode changes as the key asks, and the commands the
    /// key stands for are returned for the editor to carry out, in order.
    /// `previous_key` is the key that was pressed before.
    pub fn handler(&mut self, key: Key, modifiers: KeyModifiers, previous_key: Key) -> (list: Vec<
        EditorCommand,
    >)
        ensures
            final(self).mode == prompt_step(old(self).mode, key, modifiers, previous_key).0,
            list@ == prompt_step(old(self).mode, key, modifiers, previous_key).1,
            final(self).llm_status == old(self).llm_status,
    {
        let mode = self.mode;
        let previous = previous_key;
        let (next, list) = match mode {
            Mode::Insert => insert_keys(mode, key),
            Mode::Command => command_keys(mode, key),
            Mode::Normal | Mode::Visual => normal_keys(mode, key, modifiers, previous),
        };
        self.mode = next;
        list
    }
}

} // verus!
