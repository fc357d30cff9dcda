//! The conversation accumulator: it turns the events of an answer into
//! entries of the transcript.
//!
//! The accumulator is generic in the type `L` of a styled line. Styling is
//! the business of a formatter that the caller passes in; the accumulator
//! only stores and moves what the formatter returns.

use vstd::prelude::*;
use vstd::string::*;
use crate::llm::{AnswerEvent, LLMAnswer, LLMRole, Message, LLM};
use crate::text::{same_text, trim, trimmed};

verus! {

/// How a command ended.
#[derive(Debug)]
pub enum CommandResult {
    Success(String),
    Error(String),
    Exit,
}

/// The answer that is being streamed.
#[derive(Debug)]
pub struct Answer<L> {
    pub plain_answer: String,
    pub formatted_answer: Vec<L>,
}

/// The transcript of a conversation and the answer under way.
#[derive(Debug)]
pub struct Chat<L> {
    pub plain_chat: Vec<String>,
    pub formatted_chat: Vec<L>,
    pub answer: Answer<L>,
    pub scroll: u16,
    pub area_height: u16,
    pub area_width: u16,
    pub automatic_scroll: bool,
    /// Whether the last line of `formatted_chat` is a placeholder that is
    /// reserved for the coming answer.
    pub reserved: bool,
}

/// Mathematical model of the text a [`Chat`] holds.
pub struct Transcript<L> {
    /// The finished entries as plain text.
    pub plain: Seq<Seq<char>>,
    /// The finished entries as styled lines.
    pub formatted: Seq<L>,
    /// The text of the answer under way.
    pub partial: Seq<char>,
    /// The styled lines of the answer under way.
    pub partial_formatted: Seq<L>,
    /// Whether the last of the finished lines is a placeholder that is
    /// reserved for the coming answer.
    pub reserved: bool,
}

/// The finished lines without the placeholder, where one is reserved.
pub open spec fn settled_lines<L>(state: Transcript<L>) -> Seq<L> {
    if state.reserved && state.formatted.len() > 0 {
        state.formatted.drop_last()
    } else {
        state.formatted
    }
}

/// The characters of each string of a list.
pub open spec fn texts_of(lines: Seq<String>) -> Seq<Seq<char>> {
    Seq::new(lines.len(), |i: int| lines[i]@)
}

/// The plain transcript entry of a finished answer.
pub open spec fn answer_entry(answer: Seq<char>) -> Seq<char> {
    ": "@ + answer
}

/// What one answer event does to the transcript, where `format` is the
/// function the formatter computes and `placeholder` the line that stands in
/// for an answer.
///
/// `Start` clears the answer under way and reserves a placeholder line at
/// the end of the transcript; a placeholder that is reserved already is
/// renewed. A chunk is appended to the answer, which is then formatted anew
/// as a whole. `End` puts the answer in the place of the placeholder and
/// clears it.
pub open spec fn accumulate<L>(
    state: Transcript<L>,
    event: AnswerEvent,
    format: spec_fn(Seq<char>) -> Seq<L>,
    placeholder: L,
) -> Transcript<L> {
    match event {
        AnswerEvent::Start => Transcript {
            plain: state.plain,
            formatted: settled_lines(state).push(placeholder),
            partial: Seq::empty(),
            partial_formatted: Seq::empty(),
            reserved: true,
        },
        AnswerEvent::Chunk(text) => Transcript {
            plain: state.plain,
            formatted: state.formatted,
            partial: state.partial + text,
            partial_formatted: format(state.partial + text),
            reserved: state.reserved,
        },
        AnswerEvent::End => Transcript {
            plain: state.plain.push(answer_entry(state.partial)),
            formatted: settled_lines(state) + state.partial_formatted,
            partial: Seq::empty(),
            partial_formatted: Seq::empty(),
            reserved: false,
        },
    }
}

/// Whether `after` is what the answer event `event` makes of `before`, with
/// the answer under way styled by `formatter`: all is settled by the event
/// but the styled lines that a chunk makes the formatter compute.
pub open spec fn accumulated<L, F: Fn(&str) -> Vec<L>>(
    before: Transcript<L>,
    after: Transcript<L>,
    event: AnswerEvent,
    formatter: &F,
    placeholder: L,
) -> bool {
    let settled = accumulate(before, event, |text: Seq<char>| after.partial_formatted, placeholder);
    &&& after == settled
    &&& event is Chunk ==> exists|text: &str, lines: Vec<L>|
        text@ == after.partial && #[trigger] formatter.ensures((text,), lines) && lines@
            == after.partial_formatted
}

/// Feeding the events one after the other.
pub open spec fn accumulate_all<L>(
    state: Transcript<L>,
    events: Seq<AnswerEvent>,
    format: spec_fn(Seq<char>) -> Seq<L>,
    placeholder: L,
) -> Transcript<L>
    decreases events.len(),
{
    if events.len() == 0 {
        state
    } else {
        accumulate_all(
            accumulate(state, events[0], format, placeholder),
            events.drop_first(),
            format,
            placeholder,
        )
    }
}

/// The chunks of text joined in order.
pub open spec fn joined(chunks: Seq<Seq<char>>) -> Seq<char>
    decreases chunks.len(),
{
    if chunks.len() == 0 {
        Seq::empty()
    } else {
        joined(chunks.drop_last()) + chunks.last()
    }
}

/// The events of one answer that arrives as `chunks`.
pub open spec fn answer_events(chunks: Seq<Seq<char>>) -> Seq<AnswerEvent> {
    seq![AnswerEvent::Start] + Seq::new(chunks.len(), |i: int| AnswerEvent::Chunk(chunks[i]))
        + seq![AnswerEvent::End]
}

/// Feeding chunks to an answer under way appends their joined text and
/// leaves the transcript alone.
pub proof fn lemma_accumulate_chunks<L>(
    state: Transcript<L>,
    chunks: Seq<Seq<char>>,
    format: spec_fn(Seq<char>) -> Seq<L>,
    placeholder: L,
)
    requires
        chunks.len() > 0,
    ensures
        accumulate_all(
            state,
            Seq::new(chunks.len(), |i: int| AnswerEvent::Chunk(chunks[i])),
            format,
            placeholder,
        ) == (Transcript {
            partial: state.partial + joined(chunks),
            partial_formatted: format(state.partial + joined(chunks)),
            ..state
        }),
    decreases chunks.len(),
{
    let events = Seq::new(chunks.len(), |i: int| AnswerEvent::Chunk(chunks[i]));
    let next = accumulate(state, events[0], format, placeholder);
    let rest = chunks.drop_first();
    assert(events.drop_first() =~= Seq::new(rest.len(), |i: int| AnswerEvent::Chunk(rest[i])));
    lemma_joined_front(chunks);
    if rest.len() > 0 {
        lemma_accumulate_chunks(next, rest, format, placeholder);
        assert(state.partial + chunks[0] + joined(rest) =~= state.partial + (chunks[0] + joined(
            rest,
        )));
    } else {
        assert(accumulate_all(next, events.drop_first(), format, placeholder) == next);
        assert(joined(rest) =~= Seq::<char>::empty());
        assert(state.partial + chunks[0] =~= state.partial + (chunks[0] + joined(rest)));
    }
}

/// Joining chunks is the first chunk followed by the others joined.
pub proof fn lemma_joined_front(chunks: Seq<Seq<char>>)
    requires
        chunks.len() > 0,
    ensures
        joined(chunks) == chunks[0] + joined(chunks.drop_first()),
    decreases chunks.len(),
{
    if chunks.len() == 1 {
        assert(chunks.drop_last() =~= Seq::<Seq<char>>::empty());
        assert(chunks.drop_first() =~= Seq::<Seq<char>>::empty());
        assert(joined(chunks.drop_last()) =~= Seq::<char>::empty());
        assert(joined(chunks.drop_first()) =~= Seq::<char>::empty());
        assert(joined(chunks) =~= chunks[0] + Seq::<char>::empty());
    } else {
        let init = chunks.drop_last();
        lemma_joined_front(init);
        assert(init.drop_first() =~= chunks.drop_first().drop_last());
        assert(init[0] == chunks[0]);
        assert((chunks[0] + joined(init.drop_first())) + chunks.last() =~= chunks[0] + (joined(
            chunks.drop_first().drop_last(),
        ) + chunks.drop_first().last()));
    }
}

/// One whole answer, whatever its chunks, adds exactly one entry to the
/// transcript: the formatted text of the chunks joined in order, which
/// stands where the placeholder was reserved. Nothing of the answer stays
/// behind, and no placeholder.
pub proof fn law_answer_round_trip<L>(
    state: Transcript<L>,
    chunks: Seq<Seq<char>>,
    format: spec_fn(Seq<char>) -> Seq<L>,
    placeholder: L,
)
    requires
        chunks.len() > 0,
    ensures
        accumulate_all(state, answer_events(chunks), format, placeholder) == (Transcript {
            plain: state.plain.push(answer_entry(joined(chunks))),
            formatted: settled_lines(state) + format(joined(chunks)),
            partial: Seq::empty(),
            partial_formatted: Seq::empty(),
            reserved: false,
        }),
{
    let body = Seq::new(chunks.len(), |i: int| AnswerEvent::Chunk(chunks[i]));
    let events = answer_events(chunks);
    let started = accumulate(state, AnswerEvent::Start, format, placeholder);
    assert(events.drop_first() =~= body + seq![AnswerEvent::End]);
    lemma_accumulate_all_concat(started, body, seq![AnswerEvent::End], format, placeholder);
    lemma_accumulate_chunks(started, chunks, format, placeholder);
    let filled = accumulate_all(started, body, format, placeholder);
    let end = seq![AnswerEvent::End];
    assert(end.drop_first() =~= Seq::<AnswerEvent>::empty());
    assert(accumulate_all(filled, end, format, placeholder) == accumulate(
        filled,
        AnswerEvent::End,
        format,
        placeholder,
    )) by {
        reveal_with_fuel(accumulate_all, 2);
    }
    assert(started.partial + joined(chunks) =~= joined(chunks));
    assert(settled_lines(filled) =~= settled_lines(state));
}

/// After `Start` the transcript ends with the line reserved for the answer,
/// whatever it held before, and nothing of an earlier answer is left.
pub proof fn law_start_reserves_a_line<L>(
    state: Transcript<L>,
    format: spec_fn(Seq<char>) -> Seq<L>,
    placeholder: L,
)
    ensures
        ({
            let started = accumulate(state, AnswerEvent::Start, format, placeholder);
            &&& started.reserved
            &&& started.formatted.len() > 0
            &&& started.formatted.last() == placeholder
            &&& started.formatted.drop_last() == settled_lines(state)
            &&& started.partial.len() == 0
            &&& started.partial_formatted.len() == 0
            &&& started.plain == state.plain
        }),
{
    let started = accumulate(state, AnswerEvent::Start, format, placeholder);
    assert(started.formatted.drop_last() =~= settled_lines(state));
}

/// Feeding `first + second` is feeding `first`, then `second`.
pub proof fn lemma_accumulate_all_concat<L>(
    state: Transcript<L>,
    first: Seq<AnswerEvent>,
    second: Seq<AnswerEvent>,
    format: spec_fn(Seq<char>) -> Seq<L>,
    placeholder: L,
)
    ensures
        accumulate_all(state, first + second, format, placeholder) == accumulate_all(
            accumulate_all(state, first, format, placeholder),
            second,
            format,
            placeholder,
        ),
    decreases first.len(),
{
    if first.len() == 0 {
        assert(first + second =~= second);
    } else {
        let next = accumulate(state, first[0], format, placeholder);
        assert((first + second).drop_first() =~= first.drop_first() + second);
        lemma_accumulate_all_concat(next, first.drop_first(), second, format, placeholder);
    }
}

/// Whether `format` is the function that the formatter `formatter` computes.
pub open spec fn computes<L, F: Fn(&str) -> Vec<L>>(
    formatter: &F,
    format: spec_fn(Seq<char>) -> Seq<L>,
) -> bool {
    forall|text: &str, lines: Vec<L>| #[trigger]
        formatter.ensures((text,), lines) ==> lines@ == format(text@)
}

/// What the client does beside the transcript when an answer event arrives.
#[derive(Debug)]
pub struct TurnEffects {
    /// The finished answer, to be spoken, where it is not empty.
    pub speak: Option<String>,
    /// Whether the cancellation flag is to be reset for the next turn.
    pub reset_cancellation: bool,
    /// Whether the waiting indicator is to be switched off.
    pub stop_spinner: bool,
}

impl<L> View for Chat<L> {
    type V = Transcript<L>;

    open spec fn view(&self) -> Transcript<L> {
        Transcript {
            plain: texts_of(self.plain_chat@),
            formatted: self.formatted_chat@,
            partial: self.answer.plain_answer@,
            partial_formatted: self.answer.formatted_answer@,
            reserved: self.reserved,
        }
    }
}

impl<L> Answer<L> {
    /// An answer of which nothing has arrived yet.
    pub fn new() -> (answer: Answer<L>)
        ensures
            answer.plain_answer@ == Seq::<char>::empty(),
            answer.formatted_answer@ == Seq::<L>::empty(),
    {
        Answer { plain_answer: String::new(), formatted_answer: Vec::new() }
    }
}

impl<L> Chat<L> {
    /// An empty conversation that follows its end as it grows.
    pub fn new() -> (chat: Chat<L>)
        ensures
            chat@ == (Transcript::<L> {
                plain: Seq::empty(),
                formatted: Seq::empty(),
                partial: Seq::empty(),
                partial_formatted: Seq::empty(),
                reserved: false,
            }),
            chat.scroll == 0,
            chat.area_height == 0,
            chat.area_width == 0,
            chat.automatic_scroll,
    {
        let chat = Chat {
            plain_chat: Vec::new(),
            formatted_chat: Vec::new(),
            answer: Answer::new(),
            scroll: 0,
            area_height: 0,
            area_width: 0,
            automatic_scroll: true,
            reserved: false,
        };
        assert(texts_of(chat.plain_chat@) =~= Seq::<Seq<char>>::empty());
        chat
    }

    /// Whether only the transcript changed between `old` and `self`.
    pub open spec fn same_frame(&self, old: &Chat<L>) -> bool {
        &&& self.scroll == old.scroll
        &&& self.area_height == old.area_height
        &&& self.area_width == old.area_width
        &&& self.automatic_scroll == old.automatic_scroll
    }

    /// Takes in one event of an answer. `formatter` turns plain text into
    /// styled lines; it is called on the whole answer after every chunk.
    /// `placeholder` is the line that is reserved for the answer when it
    /// starts.
    pub fn handle_answer<F: Fn(&str) -> Vec<L>>(
        &mut self,
        event: LLMAnswer,
        formatter: &F,
        placeholder: L,
    )
        requires
            forall|text: &str| #[trigger] formatter.requires((text,)),
        ensures
            accumulated(old(self)@, final(self)@, event@, formatter, placeholder),
            forall|format: spec_fn(Seq<char>) -> Seq<L>|
                computes(formatter, format) ==> final(self)@ == #[trigger] accumulate(
                    old(self)@,
                    event@,
                    format,
                    placeholder,
                ),
            final(self).same_frame(old(self)),
    {
        match event {
            LLMAnswer::StartAnswer => {
                if self.reserved && self.formatted_chat.len() > 0 {
                    self.formatted_chat.pop();
                }
                self.formatted_chat.push(placeholder);
                self.reserved = true;
                self.answer = Answer::new();
            },
            LLMAnswer::Answer(text) => {
                self.answer.plain_answer.append(text.as_str());
                let whole = self.answer.plain_answer.as_str();
                let lines = formatter(whole);
                let ghost witness = whole;
                self.answer.formatted_answer = lines;
                assert(witness@ == self.answer.plain_answer@ && formatter.ensures(
                    (witness,),
                    self.answer.formatted_answer,
                ) && self.answer.formatted_answer@ == self@.partial_formatted);
            },
            LLMAnswer::EndAnswer => {
                let mut entry = String::from_str(": ");
                entry.append(self.answer.plain_answer.as_str());
                self.plain_chat.push(entry);
                let mut finished = Answer::new();
                core::mem::swap(&mut self.answer, &mut finished);
                let mut lines = finished.formatted_answer;
                if self.reserved && self.formatted_chat.len() > 0 {
                    self.formatted_chat.pop();
                }
                self.formatted_chat.append(&mut lines);
                self.reserved = false;
                assert(texts_of(self.plain_chat@) =~= texts_of(old(self).plain_chat@).push(
                    answer_entry(old(self).answer.plain_answer@),
                ));
            },
        }
    }

    /// How many rows the transcript and the answer under way take up on a
    /// screen `area_width` cells wide: one per line, one more for every full
    /// width a line runs over, and three to spare. `widths` holds the width
    /// of every line in cells.
    pub fn height(&self, widths: &[usize]) -> (rows: usize)
        requires
            self.area_width > 0,
            widths@.len() == self.formatted_chat@.len() + self.answer.formatted_answer@.len(),
            rows_of(widths@, self.area_width as int) <= usize::MAX,
        ensures
            rows == rows_of(widths@, self.area_width as int),
    {
        let width = self.area_width as usize;
        let mut rows: usize = widths.len();
        let mut i: usize = 0;
        proof {
            lemma_overflow_monotone(widths@, self.area_width as int, 0);
            assert(widths@.take(0) =~= Seq::<usize>::empty());
        }
        assert(overflow_rows(widths@.take(0), width as int) == 0);
        while i < widths.len()
            invariant
                0 <= i <= widths.len(),
                width == self.area_width,
                width > 0,
                rows_of(widths@, width as int) <= usize::MAX,
                rows == widths.len() + overflow_rows(widths@.take(i as int), width as int),
            decreases widths.len() - i,
        {
            proof {
                lemma_overflow_monotone(widths@, width as int, i + 1);
                assert(widths@.take(i + 1).drop_last() =~= widths@.take(i as int));
                assert(widths@.take(i + 1).last() == widths@[i as int]);
            }
            rows = rows + widths[i] / width;
            i = i + 1;
        }
        assert(widths@.take(i as int) =~= widths@);
        rows + 3
    }

    /// Scrolls to the last rows of the conversation.
    pub fn move_to_bottom(&mut self)
        ensures
            final(self).scroll == bottom_scroll(
                (old(self).formatted_chat@.len() + old(self).answer.formatted_answer@.len()) as int,
                old(self).area_height as int,
            ),
            final(self)@ == old(self)@,
            final(self).area_height == old(self).area_height,
            final(self).area_width == old(self).area_width,
            final(self).automatic_scroll == old(self).automatic_scroll,
    {
        let lines: u128 = self.formatted_chat.len() as u128
            + self.answer.formatted_answer.len() as u128;
        let visible: u128 = if self.area_height >= 2 {
            (self.area_height - 2) as u128
        } else {
            0
        };
        let hidden: u128 = if lines >= visible {
            (lines - visible) as u128
        } else {
            0
        };
        self.scroll = (hidden % 65536) as u16;
    }

    /// Scrolls to the first row of the conversation.
    pub fn move_to_top(&mut self)
        ensures
            final(self).scroll == 0,
            final(self)@ == old(self)@,
            final(self).area_height == old(self).area_height,
            final(self).area_width == old(self).area_width,
            final(self).automatic_scroll == old(self).automatic_scroll,
    {
        self.scroll = 0;
    }

    /// Empties the transcript. An answer under way is kept.
    pub fn clear(&mut self)
        ensures
            final(self)@ == (Transcript {
                plain: Seq::empty(),
                formatted: Seq::empty(),
                reserved: false,
                ..old(self)@
            }),
            final(self).scroll == 0,
            final(self).area_height == old(self).area_height,
            final(self).area_width == old(self).area_width,
            final(self).automatic_scroll == old(self).automatic_scroll,
    {
        self.plain_chat.clear();
        self.formatted_chat.clear();
        self.reserved = false;
        self.scroll = 0;
        assert(texts_of(self.plain_chat@) =~= Seq::<Seq<char>>::empty());
    }
}

/// The rows that lines of the given widths run over their first row on a
/// screen `width` cells wide.
pub open spec fn overflow_rows(widths: Seq<usize>, width: int) -> int
    decreases widths.len(),
{
    if widths.len() == 0 {
        0
    } else {
        overflow_rows(widths.drop_last(), width) + widths.last() as int / width
    }
}

/// The rows that lines of the given widths take up on a screen `width` cells
/// wide, with three rows to spare.
pub open spec fn rows_of(widths: Seq<usize>, width: int) -> int {
    widths.len() + overflow_rows(widths, width) + 3
}

/// The first lines run over no more rows than all of them.
pub proof fn lemma_overflow_monotone(widths: Seq<usize>, width: int, count: int)
    requires
        width > 0,
        0 <= count <= widths.len(),
    ensures
        0 <= overflow_rows(widths.take(count), width) <= overflow_rows(widths, width),
    decreases widths.len() - count,
{
    if count == widths.len() {
        assert(widths.take(count) =~= widths);
        lemma_overflow_nonnegative(widths, width);
    } else {
        lemma_overflow_monotone(widths, width, count + 1);
        assert(widths.take(count + 1).drop_last() =~= widths.take(count));
        lemma_overflow_nonnegative(widths.take(count), width);
        assert(widths.take(count + 1).last() as int / width >= 0) by (nonlinear_arith)
            requires
                width > 0,
                widths.take(count + 1).last() as int >= 0,
        ;
    }
}

/// Lines run over no negative number of rows.
pub proof fn lemma_overflow_nonnegative(widths: Seq<usize>, width: int)
    requires
        width > 0,
    ensures
        overflow_rows(widths, width) >= 0,
    decreases widths.len(),
{
    if widths.len() > 0 {
        lemma_overflow_nonnegative(widths.drop_last(), width);
        assert(widths.last() as int / width >= 0) by (nonlinear_arith)
            requires
                width > 0,
                widths.last() as int >= 0,
        ;
    }
}

/// The scroll offset that shows the last rows of `lines` lines on a screen
/// `area_height` rows high, of which two are taken by the frame. A screen
/// lower than its frame shows nothing. Offsets wrap at sixteen bits.
pub open spec fn bottom_scroll(lines: int, area_height: int) -> int {
    let visible = if area_height >= 2 {
        area_height - 2
    } else {
        0
    };
    if lines >= visible {
        (lines - visible) % 65536
    } else {
        0
    }
}

/// Takes in one event of an answer on behalf of the whole client: the
/// transcript is updated, a finished answer joins the context of `llm` as
/// the assistant's message, and the caller is told what else is due.
pub fn on_answer_event<L, F: Fn(&str) -> Vec<L>, B: LLM>(
    chat: &mut Chat<L>,
    llm: &mut B,
    event: LLMAnswer,
    formatter: &F,
    placeholder: L,
) -> (effects: TurnEffects)
    requires
        forall|text: &str| #[trigger] formatter.requires((text,)),
    ensures
        accumulated(old(chat)@, final(chat)@, event@, formatter, placeholder),
        forall|format: spec_fn(Seq<char>) -> Seq<L>|
            computes(formatter, format) ==> final(chat)@ == #[trigger] accumulate(
                old(chat)@,
                event@,
                format,
                placeholder,
            ),
        final(chat).same_frame(old(chat)),
        event is EndAnswer ==> final(llm).context() == old(llm).context().push(
            Message { role: LLMRole::ASSISTANT, content: old(chat)@.partial },
        ),
        !(event is EndAnswer) ==> final(llm).context() == old(llm).context(),
        effects.reset_cancellation == (event is EndAnswer),
        effects.stop_spinner == (event is StartAnswer),
        match effects.speak {
            Some(text) => event is EndAnswer && text@ == old(chat)@.partial && text@.len() > 0,
            None => !(event is EndAnswer) || old(chat)@.partial.len() == 0,
        },
{
    let mut effects = TurnEffects { speak: None, reset_cancellation: false, stop_spinner: false };
    match &event {
        LLMAnswer::StartAnswer => {
            effects.stop_spinner = true;
        },
        LLMAnswer::Answer(_) => {},
        LLMAnswer::EndAnswer => {
            llm.append_chat_msg(chat.answer.plain_answer.clone(), LLMRole::ASSISTANT);
            if !chat.answer.plain_answer.as_str().is_empty() {
                effects.speak = Some(chat.answer.plain_answer.clone());
            }
            effects.reset_cancellation = true;
        },
    }
    chat.handle_answer(event, formatter, placeholder);
    effects
}

/// What is left to do for a command once it has been understood.
#[derive(Debug)]
pub enum CommandStep {
    /// Nothing: the command has ended.
    Done(CommandResult),
    /// Read the file at `path` and insert its contents into the prompt.
    Load { path: String },
    /// Write `contents` to the file at `path`; on success report `done`.
    Store { path: String, contents: String, done: String, failed: String },
    /// Leave the program.
    Quit,
}

/// Mathematical model of a [`CommandStep`].
pub enum Plan {
    Succeeded(Seq<char>),
    Failed(Seq<char>),
    Load { path: Seq<char> },
    Store { path: Seq<char>, contents: Seq<char>, done: Seq<char>, failed: Seq<char> },
    Quit,
}

impl View for CommandStep {
    type V = Plan;

    open spec fn view(&self) -> Plan {
        match self {
            CommandStep::Done(CommandResult::Success(message)) => Plan::Succeeded(message@),
            CommandStep::Done(CommandResult::Error(message)) => Plan::Failed(message@),
            CommandStep::Done(CommandResult::Exit) => Plan::Quit,
            CommandStep::Load { path } => Plan::Load { path: path@ },
            CommandStep::Store { path, contents, done, failed } => Plan::Store {
                path: path@,
                contents: contents@,
                done: done@,
                failed: failed@,
            },
            CommandStep::Quit => Plan::Quit,
        }
    }
}

/// The position of the first blank in `text`, or its length where it has
/// none.
pub open spec fn first_blank(text: Seq<char>) -> int
    decreases text.len(),
{
    if text.len() == 0 {
        0
    } else if text[0] == ' ' {
        0
    } else {
        1 + first_blank(text.drop_first())
    }
}

/// A position is the first blank exactly if it holds one and nothing before
/// it does.
pub proof fn lemma_first_blank(text: Seq<char>, at: int)
    requires
        0 <= at <= text.len(),
        forall|j: int| 0 <= j < at ==> text[j] != ' ',
        at < text.len() ==> text[at] == ' ',
    ensures
        first_blank(text) == at,
    decreases text.len(),
{
    if text.len() > 0 && at > 0 {
        let rest = text.drop_first();
        assert forall|j: int| 0 <= j < at - 1 implies rest[j] != ' ' by {
            assert(rest[j] == text[j + 1]);
        }
        lemma_first_blank(rest, at - 1);
    }
}

/// The word and the argument of a command line: the line is trimmed and
/// must begin with a colon; the word runs from there to the first blank, the
/// argument is all that follows that blank.
pub open spec fn command_line(input: Seq<char>) -> Option<(Seq<char>, Seq<char>)> {
    let line = trimmed(input);
    if line.len() == 0 || line[0] != ':' {
        None
    } else {
        let body = line.subrange(1, line.len() as int);
        let blank = first_blank(body);
        Some(
            (
                body.subrange(0, blank),
                if blank < body.len() {
                    body.subrange(blank + 1, body.len() as int)
                } else {
                    Seq::empty()
                },
            ),
        )
    }
}

/// The last entry that begins with a colon, as the assistant's entries do,
/// or nothing where there is none.
pub open spec fn last_response(plain: Seq<Seq<char>>) -> Seq<char>
    decreases plain.len(),
{
    if plain.len() == 0 {
        Seq::empty()
    } else if plain.last().len() > 0 && plain.last()[0] == ':' {
        plain.last()
    } else {
        last_response(plain.drop_last())
    }
}

/// The entries joined by line breaks.
pub open spec fn joined_lines(plain: Seq<Seq<char>>) -> Seq<char>
    decreases plain.len(),
{
    if plain.len() == 0 {
        Seq::empty()
    } else if plain.len() == 1 {
        plain[0]
    } else {
        joined_lines(plain.drop_last()) + "\n"@ + plain.last()
    }
}

/// What the command `word` with argument `argument` asks for, given the
/// plain transcript.
pub open spec fn plan_of(word: Seq<char>, argument: Seq<char>, plain: Seq<Seq<char>>) -> Plan {
    if word == "o"@ {
        if argument.len() == 0 {
            Plan::Failed("Filename required"@)
        } else {
            Plan::Load { path: argument }
        }
    } else if word == "w"@ {
        if argument.len() == 0 {
            Plan::Failed("Filename required"@)
        } else {
            Plan::Store {
                path: argument,
                contents: last_response(plain),
                done: "Written to file: "@ + argument,
                failed: "Failed to write to file: "@,
            }
        }
    } else if word == "clear"@ {
        Plan::Succeeded("Chat cleared"@)
    } else if word == "save"@ {
        if argument.len() == 0 {
            Plan::Failed("Filename required"@)
        } else {
            Plan::Store {
                path: argument,
                contents: joined_lines(plain),
                done: "Saved to "@ + argument,
                failed: "Failed to save: "@,
            }
        }
    } else if word == "quit"@ {
        Plan::Quit
    } else {
        Plan::Failed("Unknown command: "@ + word)
    }
}

/// What the command line `input` asks for.
pub open spec fn command_plan(input: Seq<char>, plain: Seq<Seq<char>>) -> Plan {
    match command_line(input) {
        Some((word, argument)) => plan_of(word, argument, plain),
        None => Plan::Failed("Not a command"@),
    }
}

/// Whether the command line `input` is the command that empties the
/// transcript.
pub open spec fn clears(input: Seq<char>) -> bool {
    command_line(input) matches Some((word, _)) && word == "clear"@
}

/// Splits a command line into its word and its argument.
pub fn split_command(input: &str) -> (parts: Option<(String, String)>)
    ensures
        match parts {
            Some((word, argument)) => command_line(input@) == Some((word@, argument@)),
            None => command_line(input@) is None,
        },
{
    let line = trim(input);
    let len = line.unicode_len();
    if len == 0 || line.get_char(0) != ':' {
        return None;
    }
    let body = line.substring_char(1, len);
    let size = len - 1;
    let mut at: usize = 0;
    while at < size && body.get_char(at) != ' '
        invariant
            0 <= at <= size,
            size == body@.len(),
            forall|j: int| 0 <= j < at ==> body@[j] != ' ',
        decreases size - at,
    {
        at = at + 1;
    }
    proof {
        lemma_first_blank(body@, at as int);
    }
    let word = String::from_str(body.substring_char(0, at));
    let argument = if at < size {
        String::from_str(body.substring_char(at + 1, size))
    } else {
        String::new()
    };
    Some((word, argument))
}

/// Joins two texts.
fn concat(first: &str, second: &str) -> (both: String)
    ensures
        both@ == first@ + second@,
{
    let mut both = String::from_str(first);
    both.append(second);
    both
}

impl<L> Chat<L> {
    /// The last entry of the plain transcript that the assistant wrote.
    pub fn last_answer(&self) -> (entry: String)
        ensures
            entry@ == last_response(self@.plain),
    {
        let ghost plain = texts_of(self.plain_chat@);
        let mut i: usize = self.plain_chat.len();
        assert(plain.take(i as int) =~= plain);
        while i > 0
            invariant
                0 <= i <= self.plain_chat.len(),
                plain == texts_of(self.plain_chat@),
                last_response(plain) == last_response(plain.take(i as int)),
            decreases i,
        {
            let entry = self.plain_chat[i - 1].as_str();
            proof {
                assert(plain.take(i as int).last() == entry@);
                assert(plain.take(i as int).drop_last() =~= plain.take(i - 1));
            }
            if !entry.is_empty() && entry.get_char(0) == ':' {
                return String::from_str(entry);
            }
            i = i - 1;
        }
        String::new()
    }

    /// The plain transcript as one text, an entry to a line.
    pub fn plain_text(&self) -> (text: String)
        ensures
            text@ == joined_lines(self@.plain),
    {
        let ghost plain = texts_of(self.plain_chat@);
        let mut text = String::new();
        let mut i: usize = 0;
        assert(plain.take(0) =~= Seq::<Seq<char>>::empty());
        while i < self.plain_chat.len()
            invariant
                0 <= i <= self.plain_chat.len(),
                plain == texts_of(self.plain_chat@),
                text@ == joined_lines(plain.take(i as int)),
            decreases self.plain_chat.len() - i,
        {
            proof {
                assert(plain.take(i + 1).drop_last() =~= plain.take(i as int));
                assert(plain.take(i + 1).last() == self.plain_chat@[i as int]@);
                if i == 0 {
                    assert(plain.take(1)[0] == self.plain_chat@[0]@);
                    assert(Seq::<char>::empty() + self.plain_chat@[0]@ =~= self.plain_chat@[0]@);
                }
            }
            if i > 0 {
                text.append("\n");
            }
            text.append(self.plain_chat[i].as_str());
            i = i + 1;
        }
        assert(plain.take(i as int) =~= plain);
        text
    }

    /// Understands the command line `command` and carries out what needs no
    /// file: `clear` empties the transcript at once. Commands that read or
    /// write a file are handed back with everything they need.
    pub fn execute_command(&mut self, command: &str) -> (step: CommandStep)
        ensures
            step@ == command_plan(command@, old(self)@.plain),
            clears(command@) ==> final(self)@ == (Transcript {
                plain: Seq::empty(),
                formatted: Seq::empty(),
                reserved: false,
                ..old(self)@
            }) && final(self).scroll == 0,
            !clears(command@) ==> final(self)@ == old(self)@ && final(self).scroll == old(
                self,
            ).scroll,
            final(self).area_height == old(self).area_height,
            final(self).area_width == old(self).area_width,
            final(self).automatic_scroll == old(self).automatic_scroll,
    {
        let (word, argument) = match split_command(command) {
            Some(parts) => parts,
            None => {
                return CommandStep::Done(CommandResult::Error(String::from_str("Not a command")));
            },
        };
        let missing = argument.as_str().is_empty();
        proof {
            reveal_strlit("o");
            reveal_strlit("w");
            reveal_strlit("clear");
            assert("o"@.len() == 1 && "w"@.len() == 1 && "clear"@.len() == 5);
        }
        if same_text(word.as_str(), "o") {
            if missing {
                CommandStep::Done(CommandResult::Error(String::from_str("Filename required")))
            } else {
                CommandStep::Load { path: argument }
            }
        } else if same_text(word.as_str(), "w") {
            if missing {
                CommandStep::Done(CommandResult::Error(String::from_str("Filename required")))
            } else {
                CommandStep::Store {
                    contents: self.last_answer(),
                    done: concat("Written to file: ", argument.as_str()),
                    failed: String::from_str("Failed to write to file: "),
                    path: argument,
                }
            }
        } else if same_text(word.as_str(), "clear") {
            self.clear();
            CommandStep::Done(CommandResult::Success(String::from_str("Chat cleared")))
        } else if same_text(word.as_str(), "save") {
            if missing {
                CommandStep::Done(CommandResult::Error(String::from_str("Filename required")))
            } else {
                CommandStep::Store {
                    contents: self.plain_text(),
                    done: concat("Saved to ", argument.as_str()),
                    failed: String::from_str("Failed to save: "),
                    path: argument,
                }
            }
        } else if same_text(word.as_str(), "quit") {
            CommandStep::Quit
        } else {
            CommandStep::Done(
                CommandResult::Error(concat("Unknown command: ", word.as_str())),
            )
        }
    }
}

impl CommandStep {
    /// How a command that read or wrote a file ended: `failure` is the
    /// message of the error that stopped it, if one did.
    pub fn finish(self, failure: Option<String>) -> (result: CommandResult)
        ensures
            match (self@, failure) {
                (Plan::Succeeded(message), _) => result matches CommandResult::Success(text)
                    && text@ == message,
                (Plan::Failed(message), _) => result matches CommandResult::Error(text) && text@
                    == message,
                (Plan::Quit, _) => result is Exit,
                (Plan::Load { path }, None) => result matches CommandResult::Success(text)
                    && text@ == "Loaded file: "@ + path,
                (Plan::Load { path }, Some(error)) => result matches CommandResult::Error(text)
                    && text@ == "Failed to load file: "@ + error@,
                (Plan::Store { done, .. }, None) => result matches CommandResult::Success(text)
                    && text@ == done,
                (Plan::Store { failed, .. }, Some(error)) => result matches CommandResult::Error(
                    text,
                ) && text@ == failed + error@,
            },
    {
        match self {
            CommandStep::Done(result) => result,
            CommandStep::Quit => CommandResult::Exit,
            CommandStep::Load { path } => match failure {
                None => CommandResult::Success(concat("Loaded file: ", path.as_str())),
                Some(error) => CommandResult::Error(
                    concat("Failed to load file: ", error.as_str()),
                ),
            },
            CommandStep::Store { path, contents, done, failed } => match failure {
                None => CommandResult::Success(done),
                Some(error) => CommandResult::Error(concat(failed.as_str(), error.as_str())),
            },
        }
    }
}

} // verus!
