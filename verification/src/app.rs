//! The state of the client between two events and what a key does to it.

use vstd::prelude::*;
use vstd::string::*;
use crate::chat::{
    bottom_scroll, clears, command_plan, computes, settled_lines, texts_of, Chat, CommandStep,
    Transcript,
};
use crate::config::KeyBindings;
use crate::history::{stepped_down, stepped_up, History};
use crate::llm::{LLMRole, Message, LLM};
use crate::notification::{aged, expire, notes_of, Notification};
use crate::prompt::{
    prompt_step, EditorCommand, Key, KeyModifiers, LLMStatus, Mode, Prompt,
};
use crate::text::{trim, trimmed};

verus! {

/// The part of the screen that takes the keys.
#[derive(Debug, Clone, Copy, PartialEq, Eq, Structural)]
pub enum FocusedBlock {
    Prompt,
    Chat,
    History,
    Preview,
    Help,
}

/// The state of the client. `L` is the type of a styled line.
#[derive(Debug)]
pub struct App<L> {
    pub running: bool,
    pub prompt: Prompt,
    pub chat: Chat<L>,
    pub focused_block: FocusedBlock,
    pub history: History<Vec<L>>,
    pub notifications: Vec<Notification>,
    /// Whether the client is waiting for the first event of an answer.
    pub spinner_active: bool,
    pub previous_key: Key,
    pub key_bindings: KeyBindings,
}

/// What the caller is to do after a key.
#[derive(Debug)]
pub struct KeyOutcome {
    /// What the prompt's editor is to carry out, in order.
    pub edits: Vec<EditorCommand>,
    /// Whether the cancellation flag is to be set.
    pub request_cancel: bool,
    /// The conversation of the history that is to be archived.
    pub save_history: Option<usize>,
    /// Whether the backend is to be asked for an answer.
    pub ask: bool,
    /// The command that is to be finished.
    pub command: Option<CommandStep>,
}

/// The small part of the client's state that keys steer.
pub struct Controls {
    pub running: bool,
    pub mode: Mode,
    pub focus: FocusedBlock,
    pub scroll: u16,
    pub automatic_scroll: bool,
    pub selected: Option<usize>,
    pub preview_scroll: usize,
}

/// What a key steers by: the bindings and the sizes of what is shown.
pub struct Surroundings {
    pub bindings: KeyBindings,
    pub previous: Key,
    /// How many conversations the history lists.
    pub listed: int,
    /// How many styled lines the conversation has, the answer under way
    /// included.
    pub lines: int,
    pub area_height: int,
}

/// What a key asks for beyond steering.
#[derive(PartialEq, Eq)]
pub enum Request {
    Nothing,
    /// Stop the answer that is being streamed.
    Cancel,
    /// Put the conversation away and begin a new one.
    NewChat,
}

/// One more, staying at the largest value.
pub open spec fn bumped(value: int, largest: int) -> int {
    if value < largest {
        value + 1
    } else {
        largest
    }
}

/// One less, staying at zero.
pub open spec fn lowered(value: int) -> int {
    if value > 0 {
        value - 1
    } else {
        0
    }
}

/// What a key does wherever the focus is: it quits, stops the answer,
/// scrolls, jumps, begins a new conversation, moves the focus, or opens and
/// closes the pop-ups. The first rule that fits decides.
pub open spec fn global_step(
    state: Controls,
    around: Surroundings,
    key: Key,
    modifiers: KeyModifiers,
) -> (Controls, Request) {
    let control = modifiers == KeyModifiers::Control;
    let typing = state.mode == Mode::Insert;
    if key == Key::Char('q') && !typing {
        (Controls { running: false, ..state }, Request::Nothing)
    } else if key == Key::Char('c') && control {
        (Controls { running: false, ..state }, Request::Nothing)
    } else if key == Key::Char('t') && control {
        (state, Request::Cancel)
    } else if key == Key::Char('j') || key == Key::Down {
        (
            match state.focus {
                FocusedBlock::History => Controls {
                    selected: stepped_down(state.selected, around.listed),
                    ..state
                },
                FocusedBlock::Chat => Controls {
                    automatic_scroll: false,
                    scroll: bumped(state.scroll as int, u16::MAX as int) as u16,
                    ..state
                },
                FocusedBlock::Preview => Controls {
                    preview_scroll: bumped(state.preview_scroll as int, usize::MAX as int) as usize,
                    ..state
                },
                _ => state,
            },
            Request::Nothing,
        )
    } else if key == Key::Char('k') || key == Key::Up {
        (
            match state.focus {
                FocusedBlock::History => Controls {
                    selected: stepped_up(state.selected, around.listed),
                    ..state
                },
                FocusedBlock::Chat => Controls {
                    automatic_scroll: false,
                    scroll: lowered(state.scroll as int) as u16,
                    ..state
                },
                FocusedBlock::Preview => Controls {
                    preview_scroll: lowered(state.preview_scroll as int) as usize,
                    ..state
                },
                _ => state,
            },
            Request::Nothing,
        )
    } else if key == Key::Char('G') {
        (
            match state.focus {
                FocusedBlock::Chat => Controls {
                    scroll: bottom_scroll(around.lines, around.area_height) as u16,
                    ..state
                },
                FocusedBlock::History => if around.listed > 0 {
                    Controls { selected: Some((around.listed - 1) as usize), ..state }
                } else {
                    state
                },
                _ => state,
            },
            Request::Nothing,
        )
    } else if key == Key::Char('g') {
        (
            if around.previous == Key::Char('g') {
                match state.focus {
                    FocusedBlock::Chat => Controls { scroll: 0, ..state },
                    FocusedBlock::History => if around.listed > 0 {
                        Controls { selected: Some(0usize), ..state }
                    } else {
                        state
                    },
                    _ => state,
                }
            } else {
                state
            },
            Request::Nothing,
        )
    } else if key == Key::Char(around.bindings.new_chat) && control {
        (Controls { scroll: 0, automatic_scroll: true, ..state }, Request::NewChat)
    } else if key == Key::Tab {
        (
            match state.focus {
                FocusedBlock::Chat => Controls {
                    focus: FocusedBlock::Prompt,
                    automatic_scroll: true,
                    ..state
                },
                FocusedBlock::Prompt => Controls {
                    focus: FocusedBlock::Chat,
                    mode: Mode::Normal,
                    scroll: bottom_scroll(around.lines, around.area_height) as u16,
                    ..state
                },
                FocusedBlock::History => Controls {
                    focus: FocusedBlock::Preview,
                    preview_scroll: 0,
                    ..state
                },
                FocusedBlock::Preview => Controls {
                    focus: FocusedBlock::History,
                    preview_scroll: 0,
                    ..state
                },
                FocusedBlock::Help => state,
            },
            Request::Nothing,
        )
    } else if key == Key::Char(around.bindings.show_help) && !typing {
        (
            Controls { focus: FocusedBlock::Help, automatic_scroll: true, ..state },
            Request::Nothing,
        )
    } else if key == Key::Char(around.bindings.show_history) && !typing && control {
        (
            Controls { focus: FocusedBlock::History, automatic_scroll: true, ..state },
            Request::Nothing,
        )
    } else if key == Key::Esc {
        (
            match state.focus {
                FocusedBlock::History | FocusedBlock::Preview | FocusedBlock::Help => Controls {
                    focus: FocusedBlock::Prompt,
                    ..state
                },
                _ => state,
            },
            Request::Nothing,
        )
    } else {
        (state, Request::Nothing)
    }
}

/// The entry under which a prompt of the user stands in the transcript.
pub open spec fn user_entry(input: Seq<char>) -> Seq<char> {
    "\u{1F464}: "@ + input + "\n"@
}

/// What [`App::global_key`] does: `after` and `context_after` are the client
/// and the backend's context that it leaves, `outcome` is what it returns.
pub open spec fn global_outcome<L>(
    before: &App<L>,
    after: &App<L>,
    context_before: Seq<Message>,
    context_after: Seq<Message>,
    key: Key,
    modifiers: KeyModifiers,
    outcome: &KeyOutcome,
) -> bool {
    let step = global_step(before.controls(), before.surroundings(), key, modifiers);
    &&& after.controls() == step.0
    &&& outcome.request_cancel == (step.1 == Request::Cancel)
    &&& !outcome.ask
    &&& outcome.command is None
    &&& after.notifications == before.notifications
    &&& after.spinner_active == before.spinner_active
    &&& after.previous_key == before.previous_key
    &&& after.key_bindings == before.key_bindings
    &&& after.prompt.llm_status == before.prompt.llm_status
    &&& step.1 == Request::NewChat ==> {
        &&& after.chat@ == (Transcript::<L> {
            plain: Seq::empty(),
            formatted: Seq::empty(),
            partial: Seq::empty(),
            partial_formatted: Seq::empty(),
            reserved: false,
        })
        &&& after.chat.area_height == 0
        &&& after.chat.area_width == 0
        &&& after.history.text@ == before.history.text@.push(before.chat.plain_chat)
        &&& after.history.preview.text@ == before.history.preview.text@.push(
            before.chat.formatted_chat,
        )
        &&& context_after == Seq::<Message>::empty()
        &&& outcome.edits@ == seq![EditorCommand::SelectAll, EditorCommand::Cut]
        &&& outcome.save_history == Some(before.history.text@.len() as usize)
    }
    &&& step.1 != Request::NewChat ==> {
        &&& after.same_contents(before)
        &&& context_after == context_before
        &&& outcome.edits@ == Seq::<EditorCommand>::empty()
        &&& outcome.save_history is None
    }
}

/// What a key means to the prompt, once it has had its effect everywhere
/// else.
pub enum PromptCase {
    /// The focus is elsewhere: the prompt does not see the key.
    Elsewhere,
    /// Enter on an empty prompt in normal mode: nothing happens.
    Idle,
    /// Enter on an empty prompt in command mode: back to normal mode.
    Leave,
    /// Enter in normal mode on text that begins with a colon: the text is
    /// dropped.
    Discard,
    /// Enter in normal mode on any other text: the text is sent.
    Submit,
    /// Enter in command mode on a command line: the command is run.
    Run,
    /// Any other key: the prompt's own key table decides.
    Edit,
}

/// Which case a key is, given the focus, the mode and the trimmed text of
/// the prompt.
pub open spec fn prompt_case(focus: FocusedBlock, mode: Mode, key: Key, input: Seq<char>)
    -> PromptCase {
    if focus != FocusedBlock::Prompt {
        PromptCase::Elsewhere
    } else if mode == Mode::Normal && key == Key::Enter {
        if input.len() == 0 {
            PromptCase::Idle
        } else if input[0] == ':' {
            PromptCase::Discard
        } else {
            PromptCase::Submit
        }
    } else if mode == Mode::Command && key == Key::Enter {
        if input.len() == 0 {
            PromptCase::Leave
        } else {
            PromptCase::Run
        }
    } else {
        PromptCase::Edit
    }
}

/// Whether nothing but the mode, the key before and the conversation
/// changed between `before` and `after`.
pub open spec fn same_screen<L>(before: &App<L>, after: &App<L>) -> bool {
    &&& after.running == before.running
    &&& after.focused_block == before.focused_block
    &&& after.history == before.history
    &&& after.notifications == before.notifications
    &&& after.key_bindings == before.key_bindings
    &&& after.prompt.llm_status == before.prompt.llm_status
    &&& after.chat.area_height == before.chat.area_height
    &&& after.chat.area_width == before.chat.area_width
    &&& after.chat.automatic_scroll == before.chat.automatic_scroll
}

/// What [`App::prompt_key`] does: `after` and `context_after` are the client
/// and the backend's context that it leaves, `outcome` is what it returns.
pub open spec fn prompt_outcome<L, F: Fn(&str) -> Vec<L>>(
    before: &App<L>,
    after: &App<L>,
    context_before: Seq<Message>,
    context_after: Seq<Message>,
    key: Key,
    modifiers: KeyModifiers,
    user_input: Seq<char>,
    formatter: &F,
    placeholder: L,
    outcome: &KeyOutcome,
) -> bool {
    let input = trimmed(user_input);
    let case = prompt_case(before.focused_block, before.prompt.mode, key, input);
    let step = prompt_step(before.prompt.mode, key, modifiers, before.previous_key);
    &&& same_screen(before, after)
    &&& !outcome.request_cancel
    &&& outcome.save_history is None
    &&& outcome.ask == (case is Submit)
    &&& after.spinner_active == (before.spinner_active || case is Submit)
    &&& after.previous_key == if case is Idle || case is Leave {
        before.previous_key
    } else {
        key
    }
    &&& after.prompt.mode == match case {
        PromptCase::Leave | PromptCase::Run => Mode::Normal,
        PromptCase::Edit => step.0,
        _ => before.prompt.mode,
    }
    &&& outcome.edits@ == match case {
        PromptCase::Discard | PromptCase::Submit | PromptCase::Run => seq![
            EditorCommand::SelectAll,
            EditorCommand::Cut,
        ],
        PromptCase::Edit => step.1,
        _ => Seq::empty(),
    }
    &&& context_after == if case is Submit {
        context_before.push(Message { role: LLMRole::USER, content: input })
    } else {
        context_before
    }
    &&& match outcome.command {
        Some(command) => case is Run && command@ == command_plan(input, before.chat@.plain),
        None => !(case is Run),
    }
    &&& match case {
        PromptCase::Submit => {
            &&& after.chat@.plain == before.chat@.plain.push(user_entry(input))
            &&& after.chat@.partial == before.chat@.partial
            &&& after.chat@.partial_formatted == before.chat@.partial_formatted
            &&& after.chat@.reserved
            &&& after.chat.scroll == before.chat.scroll
            &&& exists|text: &str, lines: Vec<L>|
                text@ == user_entry(input) && #[trigger] formatter.ensures((text,), lines)
                    && after.chat@.formatted == (before.chat@.formatted + lines@).push(
                    placeholder,
                )
            &&& forall|format: spec_fn(Seq<char>) -> Seq<L>|
                computes(formatter, format) ==> after.chat@.formatted == (before.chat@.formatted
                    + #[trigger] format(user_entry(input))).push(placeholder)
        },
        PromptCase::Run => {
            &&& after.chat@ == if clears(input) {
                Transcript {
                    plain: Seq::empty(),
                    formatted: Seq::empty(),
                    reserved: false,
                    ..before.chat@
                }
            } else {
                before.chat@
            }
            &&& after.chat.scroll == if clears(input) {
                0
            } else {
                before.chat.scroll
            }
        },
        _ => after.chat@ == before.chat@ && after.chat.scroll == before.chat.scroll,
    }
}

/// What [`handle_key_events`] does: the key first has its effect wherever
/// the focus is, then the prompt sees it, and the caller gets what both
/// parts ask for.
pub open spec fn key_outcome<L, F: Fn(&str) -> Vec<L>>(
    before: &App<L>,
    after: &App<L>,
    context_before: Seq<Message>,
    context_after: Seq<Message>,
    key: Key,
    modifiers: KeyModifiers,
    user_input: Seq<char>,
    formatter: &F,
    placeholder: L,
    outcome: &KeyOutcome,
) -> bool {
    exists|between: App<L>, context_between: Seq<Message>, first: KeyOutcome, second: KeyOutcome|
        {
            &&& #[trigger] global_outcome(
                before,
                &between,
                context_before,
                context_between,
                key,
                modifiers,
                &first,
            )
            &&& #[trigger] prompt_outcome(
                &between,
                after,
                context_between,
                context_after,
                key,
                modifiers,
                user_input,
                formatter,
                placeholder,
                &second,
            )
            &&& outcome.edits@ == first.edits@ + second.edits@
            &&& outcome.request_cancel == first.request_cancel
            &&& outcome.save_history == first.save_history
            &&& outcome.ask == second.ask
            &&& outcome.command == second.command
        }
}

impl<L> App<L> {
    /// The part of the state that keys steer.
    pub open spec fn controls(&self) -> Controls {
        Controls {
            running: self.running,
            mode: self.prompt.mode,
            focus: self.focused_block,
            scroll: self.chat.scroll,
            automatic_scroll: self.chat.automatic_scroll,
            selected: self.history.selected,
            preview_scroll: self.history.preview.scroll,
        }
    }

    /// What keys steer by.
    pub open spec fn surroundings(&self) -> Surroundings {
        Surroundings {
            bindings: self.key_bindings,
            previous: self.previous_key,
            listed: self.history.text@.len() as int,
            lines: (self.chat.formatted_chat@.len() + self.chat.answer.formatted_answer@.len())
                as int,
            area_height: self.chat.area_height as int,
        }
    }

    /// Whether `self` differs from `old` in nothing but what keys steer.
    pub open spec fn same_contents(&self, old: &App<L>) -> bool {
        &&& self.chat@ == old.chat@
        &&& self.chat.area_height == old.chat.area_height
        &&& self.chat.area_width == old.chat.area_width
        &&& self.history.text == old.history.text
        &&& self.history.preview.text == old.history.preview.text
        &&& self.notifications == old.notifications
        &&& self.spinner_active == old.spinner_active
        &&& self.previous_key == old.previous_key
        &&& self.key_bindings == old.key_bindings
        &&& self.prompt.llm_status == old.prompt.llm_status
    }

    /// A client that runs, with an empty conversation and the focus on the
    /// prompt.
    pub fn new(key_bindings: KeyBindings) -> (app: App<L>)
        ensures
            app.running,
            app.focused_block == FocusedBlock::Prompt,
            app.prompt.mode == Mode::Normal,
            app.chat@ == (Transcript::<L> {
                plain: Seq::empty(),
                formatted: Seq::empty(),
                partial: Seq::empty(),
                partial_formatted: Seq::empty(),
                reserved: false,
            }),
            app.prompt.llm_status == LLMStatus::Idle,
            app.chat.scroll == 0,
            app.chat.area_height == 0,
            app.chat.area_width == 0,
            app.chat.automatic_scroll,
            app.history.text@.len() == 0,
            app.history.selected is None,
            app.history.preview.text@.len() == 0,
            app.history.preview.scroll == 0,
            app.notifications@.len() == 0,
            !app.spinner_active,
            app.previous_key == Key::Null,
            app.key_bindings == key_bindings,
    {
        App {
            running: true,
            prompt: Prompt::new(),
            chat: Chat::new(),
            focused_block: FocusedBlock::Prompt,
            history: History::new(),
            notifications: Vec::new(),
            spinner_active: false,
            previous_key: Key::Null,
            key_bindings,
        }
    }

    /// Lets one tick of the clock pass: notifications age, and while the
    /// client waits for an answer the line reserved for it shows `waiting`,
    /// the next frame of the waiting indicator. The result says whether the
    /// indicator was drawn.
    pub fn tick(&mut self, waiting: L) -> (animated: bool)
        ensures
            animated == old(self).spinner_active,
            notes_of(final(self).notifications@) == aged(notes_of(old(self).notifications@)),
            final(self).chat@.formatted == if old(self).spinner_active {
                settled_lines(old(self).chat@).push(waiting)
            } else {
                old(self).chat@.formatted
            },
            final(self).chat@.reserved == (old(self).chat@.reserved || old(self).spinner_active),
            final(self).chat@.plain == old(self).chat@.plain,
            final(self).chat@.partial == old(self).chat@.partial,
            final(self).chat@.partial_formatted == old(self).chat@.partial_formatted,
            final(self).controls() == old(self).controls(),
            final(self).spinner_active == old(self).spinner_active,
            final(self).previous_key == old(self).previous_key,
            final(self).key_bindings == old(self).key_bindings,
            final(self).history == old(self).history,
            final(self).prompt == old(self).prompt,
            final(self).chat.area_height == old(self).chat.area_height,
            final(self).chat.area_width == old(self).chat.area_width,
    {
        expire(&mut self.notifications);
        if self.spinner_active {
            if self.chat.reserved && self.chat.formatted_chat.len() > 0 {
                self.chat.formatted_chat.pop();
            }
            self.chat.formatted_chat.push(waiting);
            self.chat.reserved = true;
        }
        self.spinner_active
    }

    /// Takes a notification off the event bus.
    pub fn notify(&mut self, notification: Notification)
        ensures
            final(self).notifications@ == old(self).notifications@.push(notification),
            final(self).running == old(self).running,
            final(self).prompt == old(self).prompt,
            final(self).chat == old(self).chat,
            final(self).focused_block == old(self).focused_block,
            final(self).history == old(self).history,
            final(self).spinner_active == old(self).spinner_active,
            final(self).previous_key == old(self).previous_key,
            final(self).key_bindings == old(self).key_bindings,
    {
        self.notifications.push(notification);
    }

    /// Applies the first part of a key: what it does wherever the focus is.
    ///
    /// Where the key begins a new conversation, the conversation is put away
    /// in the history as its last entry, `llm` forgets its context, and the
    /// caller is told to empty the editor and to archive that entry.
    pub fn global_key<B: LLM>(
        &mut self,
        key: Key,
        modifiers: KeyModifiers,
        llm: &mut B,
    ) -> (outcome: KeyOutcome)
        ensures
            global_outcome(
                old(self),
                final(self),
                old(llm).context(),
                final(llm).context(),
                key,
                modifiers,
                &outcome,
            ),
    {
        let mut outcome = KeyOutcome {
            edits: Vec::new(),
            request_cancel: false,
            save_history: None,
            ask: false,
            command: None,
        };
        let control = modifiers == KeyModifiers::Control;
        let typing = self.prompt.mode == Mode::Insert;
        if key == Key::Char('q') && !typing {
            self.running = false;
        } else if key == Key::Char('c') && control {
            self.running = false;
        } else if key == Key::Char('t') && control {
            outcome.request_cancel = true;
        } else if key == Key::Char('j') || key == Key::Down {
            match self.focused_block {
                FocusedBlock::History => {
                    self.history.scroll_down();
                },
                FocusedBlock::Chat => {
                    self.chat.automatic_scroll = false;
                    if self.chat.scroll < u16::MAX {
                        self.chat.scroll = self.chat.scroll + 1;
                    }
                },
                FocusedBlock::Preview => {
                    if self.history.preview.scroll < usize::MAX {
                        self.history.preview.scroll = self.history.preview.scroll + 1;
                    }
                },
                _ => {},
            }
        } else if key == Key::Char('k') || key == Key::Up {
            match self.focused_block {
                FocusedBlock::History => {
                    self.history.scroll_up();
                },
                FocusedBlock::Chat => {
                    self.chat.automatic_scroll = false;
                    if self.chat.scroll > 0 {
                        self.chat.scroll = self.chat.scroll - 1;
                    }
                },
                FocusedBlock::Preview => {
                    if self.history.preview.scroll > 0 {
                        self.history.preview.scroll = self.history.preview.scroll - 1;
                    }
                },
                _ => {},
            }
        } else if key == Key::Char('G') {
            match self.focused_block {
                FocusedBlock::Chat => {
                    self.chat.move_to_bottom();
                },
                FocusedBlock::History => {
                    self.history.move_to_bottom();
                },
                _ => {},
            }
        } else if key == Key::Char('g') {
            if self.previous_key == Key::Char('g') {
                match self.focused_block {
                    FocusedBlock::Chat => {
                        self.chat.move_to_top();
                    },
                    FocusedBlock::History => {
                        self.history.move_to_top();
                    },
                    _ => {},
                }
            }
        } else if key == Key::Char(self.key_bindings.new_chat) && control {
            outcome.edits = self.prompt.clear();
            let mut finished: Chat<L> = Chat::new();
            core::mem::swap(&mut self.chat, &mut finished);
            self.history.preview.text.push(finished.formatted_chat);
            self.history.text.push(finished.plain_chat);
            outcome.save_history = Some(self.history.text.len() - 1);
            llm.clear();
        } else if key == Key::Tab {
            match self.focused_block {
                FocusedBlock::Chat => {
                    self.focused_block = FocusedBlock::Prompt;
                    self.chat.automatic_scroll = true;
                },
                FocusedBlock::Prompt => {
                    self.chat.move_to_bottom();
                    self.focused_block = FocusedBlock::Chat;
                    self.prompt.mode = Mode::Normal;
                },
                FocusedBlock::History => {
                    self.focused_block = FocusedBlock::Preview;
                    self.history.preview.scroll = 0;
                },
                FocusedBlock::Preview => {
                    self.focused_block = FocusedBlock::History;
                    self.history.preview.scroll = 0;
                },
                FocusedBlock::Help => {},
            }
        } else if key == Key::Char(self.key_bindings.show_help) && !typing {
            self.focused_block = FocusedBlock::Help;
            self.chat.automatic_scroll = true;
        } else if key == Key::Char(self.key_bindings.show_history) && !typing && control {
            self.focused_block = FocusedBlock::History;
            self.chat.automatic_scroll = true;
        } else if key == Key::Esc {
            match self.focused_block {
                FocusedBlock::History | FocusedBlock::Preview | FocusedBlock::Help => {
                    self.focused_block = FocusedBlock::Prompt;
                },
                _ => {},
            }
        }
        outcome
    }

    /// Applies the second part of a key: what it means to the prompt.
    ///
    /// `user_input` is the text the editor holds, `formatter` styles the
    /// user's entry for the transcript, and `placeholder` is the line that
    /// stands in for the answer until its first event arrives.
    pub fn prompt_key<B: LLM, F: Fn(&str) -> Vec<L>>(
        &mut self,
        key: Key,
        modifiers: KeyModifiers,
        llm: &mut B,
        user_input: &str,
        formatter: &F,
        placeholder: L,
    ) -> (outcome: KeyOutcome)
        requires
            forall|text: &str| #[trigger] formatter.requires((text,)),
        ensures
            prompt_outcome(
                old(self),
                final(self),
                old(llm).context(),
                final(llm).context(),
                key,
                modifiers,
                user_input@,
                formatter,
                placeholder,
                &outcome,
            ),
    {
        let mut outcome = KeyOutcome {
            edits: Vec::new(),
            request_cancel: false,
            save_history: None,
            ask: false,
            command: None,
        };
        if self.focused_block != FocusedBlock::Prompt {
            self.previous_key = key;
            return outcome;
        }
        let entering = key == Key::Enter;
        if entering && self.prompt.mode == Mode::Normal {
            let input = trim(user_input);
            if input.is_empty() {
                return outcome;
            }
            outcome.edits = self.prompt.clear();
            if input.get_char(0) != ':' {
                let mut entry = String::from_str("\u{1F464}: ");
                entry.append(input);
                entry.append("\n");
                let shown = entry.as_str();
                let mut lines = formatter(shown);
                let ghost styled = lines;
                let ghost witness = shown;
                self.chat.plain_chat.push(entry);
                self.chat.formatted_chat.append(&mut lines);
                self.chat.formatted_chat.push(placeholder);
                self.chat.reserved = true;
                llm.append_chat_msg(String::from_str(input), LLMRole::USER);
                self.spinner_active = true;
                outcome.ask = true;
                proof {
                    assert(texts_of(self.chat.plain_chat@) =~= texts_of(
                        old(self).chat.plain_chat@,
                    ).push(user_entry(input@)));
                    assert(witness@ == user_entry(input@) && formatter.ensures(
                        (witness,),
                        styled,
                    ) && self.chat@.formatted == (old(self).chat@.formatted + styled@).push(
                        placeholder,
                    ));
                }
            }
            self.previous_key = key;
            return outcome;
        }
        if entering && self.prompt.mode == Mode::Command {
            let input = trim(user_input);
            if input.is_empty() {
                self.prompt.mode = Mode::Normal;
                return outcome;
            }
            outcome.edits = self.prompt.clear();
            outcome.command = Some(self.chat.execute_command(input));
            self.prompt.mode = Mode::Normal;
            self.previous_key = key;
            return outcome;
        }
        outcome.edits = self.prompt.handler(key, modifiers, self.previous_key);
        self.previous_key = key;
        outcome
    }
}

/// Takes a key on behalf of the whole client.
///
/// `user_input` is the text the prompt's editor holds, `formatter` styles
/// the user's entry for the transcript, and `placeholder` is the line that
/// stands in for the answer until its first event arrives. The result tells
/// the caller what is left for it to do.
pub fn handle_key_events<L, B: LLM, F: Fn(&str) -> Vec<L>>(
    key: Key,
    modifiers: KeyModifiers,
    app: &mut App<L>,
    llm: &mut B,
    user_input: &str,
    formatter: &F,
    placeholder: L,
) -> (outcome: KeyOutcome)
    requires
        forall|text: &str| #[trigger] formatter.requires((text,)),
    ensures
        key_outcome(
            old(app),
            final(app),
            old(llm).context(),
            final(llm).context(),
            key,
            modifiers,
            user_input@,
            formatter,
            placeholder,
            &outcome,
        ),
{
    let first = app.global_key(key, modifiers, llm);
    let ghost between = *app;
    let ghost context_between = llm.context();
    let second = app.prompt_key(key, modifiers, llm, user_input, formatter, placeholder);
    let ghost one = first;
    let ghost two = second;
    let mut edits = first.edits;
    let mut more = second.edits;
    edits.append(&mut more);
    let outcome = KeyOutcome {
        edits,
        request_cancel: first.request_cancel,
        save_history: first.save_history,
        ask: second.ask,
        command: second.command,
    };
    assert(global_outcome(
        old(app),
        &between,
        old(llm).context(),
        context_between,
        key,
        modifiers,
        &one,
    ));
    assert(prompt_outcome(
        &between,
        app,
        context_between,
        llm.context(),
        key,
        modifiers,
        user_input@,
        formatter,
        placeholder,
        &two,
    ));
    outcome
}

} // verus!
