//! The incremental response parser shared by the streaming backends.
//!
//! A backend hands the parser the bytes of each network read. The parser
//! frames them into lines, turns each line into answer events according to
//! the wire format, and guarantees that one exchange yields `StartAnswer`,
//! any number of `Answer`s and exactly one `EndAnswer`.

use vstd::prelude::*;
use vstd::slice::*;
use vstd::string::*;
use crate::json::{
    boolean_of, delta_content, delta_content_of, error_is_eof, error_text, json_boolean,
    json_error_is_eof, json_error_text, json_member, json_parse, json_string, member, parse,
    string_of,
};
use crate::buffer::{buffer_bytes, buffer_from, bytes_of, empty_buffer, split_to};
use crate::llm::{AnswerEvent, LLMAnswer};
use crate::pattern::{
    compile, fields_of, first_groups, refusal, regex_error_text, regex_first_groups, regex_new,
};
use crate::text::{decode_lossy, same_text, strip_prefix, trim, trimmed, utf8_lossy, without_prefix};

verus! {

/// The incremental framing a backend speaks.
#[derive(Clone, Copy, Debug, PartialEq, Eq, Structural)]
pub enum WireFormat {
    /// Lines of the form `data: <json>`, closed by `data: [DONE]`. A line
    /// that does not begin with `data: ` is read as a payload too: it
    /// continues a JSON value that was spread over several lines.
    Sse,
    /// The same events, found by pattern: the payload is what follows
    /// `data:` and one white space up to the end of the line, wherever in the
    /// line that stands. A line without it is skipped.
    SsePattern,
    /// One complete JSON object per line, closed by `"done": true`.
    JsonLines,
}

/// Where one conversation turn stands.
#[derive(Clone, Copy, Debug, PartialEq, Eq, Structural)]
pub enum StreamPhase {
    Idle,
    Streaming,
    Completed,
    Cancelled,
}

/// What one candidate JSON text amounts to.
#[derive(Debug)]
pub enum Frame {
    /// A parsed object; the answer text it carries, where it carries one.
    Text(Option<String>),
    /// A parsed object that marks the end of the answer.
    Done,
    /// The text stopped before the JSON value was complete.
    Truncated,
    /// The text is not JSON; the parser's message.
    Malformed(String),
}

/// Mathematical model of a [`Frame`].
pub enum FrameView {
    Text(Option<Seq<char>>),
    Done,
    Truncated,
    Malformed(Seq<char>),
}

impl View for Frame {
    type V = FrameView;

    open spec fn view(&self) -> FrameView {
        match self {
            Frame::Text(Some(text)) => FrameView::Text(Some(text@)),
            Frame::Text(None) => FrameView::Text(None),
            Frame::Done => FrameView::Done,
            Frame::Truncated => FrameView::Truncated,
            Frame::Malformed(message) => FrameView::Malformed(message@),
        }
    }
}

/// Mathematical model of a [`StreamParser`].
pub struct ParserState {
    pub format: WireFormat,
    pub phase: StreamPhase,
    /// Bytes received after the last line break.
    pub pending: Seq<u8>,
    /// JSON text held back because it was truncated.
    pub partial: Seq<char>,
    /// The compiled pattern by which payloads are found, where the format
    /// asks for one and the exchange has begun.
    pub matcher: Option<regex::Regex>,
}

/// The events a step emits together with the state it leaves.
pub type Step = (ParserState, Seq<AnswerEvent>);

/// The models of a list of answer events.
pub open spec fn events_of(events: Seq<LLMAnswer>) -> Seq<AnswerEvent> {
    Seq::new(events.len(), |i: int| events[i]@)
}

/// A fresh parser for `format`, before the exchange has begun.
pub open spec fn initial(format: WireFormat) -> ParserState {
    ParserState {
        format,
        phase: StreamPhase::Idle,
        pending: Seq::empty(),
        partial: Seq::empty(),
        matcher: None,
    }
}

/// `state` after the turn has ended in `phase`: nothing stays buffered.
pub open spec fn ended(state: ParserState, phase: StreamPhase) -> ParserState {
    ParserState {
        format: state.format,
        phase,
        pending: Seq::empty(),
        partial: Seq::empty(),
        matcher: None,
    }
}

/// The pattern by which [`WireFormat::SsePattern`] finds its payloads.
pub open spec fn data_pattern() -> Seq<char> {
    "data:\\s(.*)"@
}

/// The chunk that reports a line that is not JSON.
pub open spec fn parse_error_text(message: Seq<char>) -> Seq<char> {
    "[JSON PARSE ERROR: "@ + message + "]"@
}

/// The text under `message.content`, where that path leads to a JSON string.
pub open spec fn message_content_of(value: serde_json::Value) -> Option<Seq<char>> {
    match json_member(value, "message"@) {
        Some(message) => match json_member(message, "content"@) {
            Some(content) => json_string(content),
            None => None,
        },
        None => None,
    }
}

/// Whether the object carries `"done": true`.
pub open spec fn marks_done(value: serde_json::Value) -> bool {
    match json_member(value, "done"@) {
        Some(done) => json_boolean(done) == Some(true),
        None => false,
    }
}

/// The frame that `text` amounts to under `format`.
pub open spec fn frame_of(format: WireFormat, text: Seq<char>) -> FrameView {
    match json_parse(text) {
        Ok(value) => match format {
            WireFormat::JsonLines => if marks_done(value) {
                FrameView::Done
            } else {
                FrameView::Text(message_content_of(value))
            },
            _ => FrameView::Text(delta_content_of(value)),
        },
        Err(error) => if format != WireFormat::JsonLines && json_error_is_eof(error) {
            FrameView::Truncated
        } else {
            FrameView::Malformed(json_error_text(error))
        },
    }
}

/// What a streaming parser does once `candidate` has been read as `frame`.
///
/// Text is forwarded, an absent or empty text as a line break. Truncated
/// JSON is kept for the next line. Malformed JSON is reported as one chunk
/// and dropped.
pub open spec fn settle_step(state: ParserState, candidate: Seq<char>, frame: FrameView) -> Step {
    match frame {
        FrameView::Text(Some(text)) => (
            ParserState { partial: Seq::empty(), ..state },
            if text.len() > 0 {
                seq![AnswerEvent::Chunk(text)]
            } else {
                seq![AnswerEvent::Chunk("\n"@)]
            },
        ),
        FrameView::Text(None) => (
            ParserState { partial: Seq::empty(), ..state },
            seq![AnswerEvent::Chunk("\n"@)],
        ),
        FrameView::Done => (ended(state, StreamPhase::Completed), seq![AnswerEvent::End]),
        FrameView::Truncated => (ParserState { partial: candidate, ..state }, Seq::empty()),
        FrameView::Malformed(message) => (
            ParserState { partial: Seq::empty(), ..state },
            seq![AnswerEvent::Chunk(parse_error_text(message))],
        ),
    }
}

/// The payloads of a trimmed line that is not empty. Under `Sse` it is what
/// follows `data: `, or the whole line where it does not begin that way;
/// under `JsonLines` it is the line; under `SsePattern` there is one payload
/// for every match of the pattern, and none before the pattern is compiled.
pub open spec fn payloads_of(state: ParserState, line: Seq<char>) -> Seq<Option<Seq<char>>> {
    match state.format {
        WireFormat::Sse => seq![
            Some(
                match without_prefix(line, "data: "@) {
                    Some(rest) => rest,
                    None => line,
                },
            ),
        ],
        WireFormat::JsonLines => seq![Some(line)],
        WireFormat::SsePattern => match state.matcher {
            Some(regex) => regex_first_groups(regex, line),
            None => Seq::empty(),
        },
    }
}

/// What a streaming parser does with one payload: `[DONE]` closes a
/// server-sent answer; any other payload is appended to the JSON text held
/// back, and the whole is read and settled.
pub open spec fn payload_step(state: ParserState, payload: Option<Seq<char>>) -> Step {
    match payload {
        Some(payload) => if state.format != WireFormat::JsonLines && payload == "[DONE]"@ {
            (ended(state, StreamPhase::Completed), seq![AnswerEvent::End])
        } else {
            let candidate = state.partial + payload;
            settle_step(state, candidate, frame_of(state.format, candidate))
        },
        None => (state, Seq::empty()),
    }
}

/// What a streaming parser does with the payloads of a line: it takes them
/// in turn until the answer is closed.
pub open spec fn payloads_step(state: ParserState, payloads: Seq<Option<Seq<char>>>) -> Step
    decreases payloads.len(),
{
    if payloads.len() == 0 {
        (state, Seq::empty())
    } else {
        let (next, head) = payload_step(state, payloads[0]);
        if next.phase == StreamPhase::Streaming {
            let (last, tail) = payloads_step(next, payloads.drop_first());
            (last, head + tail)
        } else {
            (next, head)
        }
    }
}

/// The state in which the payloads of a line are looked for: a format that
/// finds them by pattern compiles its pattern when the first line arrives.
/// Where the pattern does not compile, the result is the compiler's
/// message.
pub open spec fn armed(state: ParserState) -> Result<ParserState, Seq<char>> {
    if state.format == WireFormat::SsePattern && state.matcher is None {
        match regex_new(data_pattern()) {
            Ok(regex) => Ok(ParserState { matcher: Some(regex), ..state }),
            Err(error) => Err(regex_error_text(error)),
        }
    } else {
        Ok(state)
    }
}

/// What a streaming parser does with one complete line (without its line
/// break): a blank line is skipped, any other line is trimmed and its
/// payloads are taken. A pattern that does not compile is reported as one
/// chunk and closes the answer.
pub open spec fn line_step(state: ParserState, line: Seq<u8>) -> Step {
    let text = trimmed(utf8_lossy(line));
    if text.len() == 0 {
        (state, Seq::empty())
    } else {
        match armed(state) {
            Ok(ready) => payloads_step(ready, payloads_of(ready, text)),
            Err(message) => (
                ended(state, StreamPhase::Completed),
                seq![AnswerEvent::Chunk(message), AnswerEvent::End],
            ),
        }
    }
}

/// Taking payloads leaves the pending bytes alone while the answer is open.
pub proof fn lemma_payloads_keep_pending(state: ParserState, payloads: Seq<Option<Seq<char>>>)
    ensures
        payloads_step(state, payloads).0.phase == StreamPhase::Streaming ==> payloads_step(
            state,
            payloads,
        ).0.pending == state.pending,
    decreases payloads.len(),
{
    if payloads.len() > 0 {
        let (next, head) = payload_step(state, payloads[0]);
        if next.phase == StreamPhase::Streaming {
            lemma_payloads_keep_pending(next, payloads.drop_first());
        }
    }
}

/// Taking a line leaves the pending bytes alone while the answer is open.
pub proof fn lemma_line_keeps_pending(state: ParserState, line: Seq<u8>)
    ensures
        line_step(state, line).0.phase == StreamPhase::Streaming ==> line_step(
            state,
            line,
        ).0.pending == state.pending,
{
    let text = trimmed(utf8_lossy(line));
    if text.len() > 0 {
        match armed(state) {
            Ok(ready) => {
                lemma_payloads_keep_pending(ready, payloads_of(ready, text));
            },
            Err(_) => {},
        }
    }
}

/// The position of the first line break in `bytes`, or their length where
/// there is none.
pub open spec fn line_break(bytes: Seq<u8>) -> int
    decreases bytes.len(),
{
    if bytes.len() == 0 {
        0
    } else if bytes[0] == 10u8 {
        0
    } else {
        1 + line_break(bytes.drop_first())
    }
}

/// What a streaming parser with nothing pending does with `bytes`: every
/// complete line is taken in turn until the turn ends, and what follows the
/// last line break stays pending.
pub open spec fn drain(state: ParserState, bytes: Seq<u8>) -> Step
    decreases bytes.len(),
{
    let at = line_break(bytes);
    if 0 <= at < bytes.len() {
        let (next, head) = line_step(state, bytes.subrange(0, at));
        if next.phase == StreamPhase::Streaming {
            let (last, tail) = drain(next, bytes.subrange(at + 1, bytes.len() as int));
            (last, head + tail)
        } else {
            (next, head)
        }
    } else {
        (ParserState { pending: bytes, ..state }, Seq::empty())
    }
}

/// The start of an exchange.
pub open spec fn begin_step(state: ParserState) -> Step {
    if state.phase == StreamPhase::Idle {
        (ParserState { phase: StreamPhase::Streaming, ..state }, seq![AnswerEvent::Start])
    } else {
        (state, Seq::empty())
    }
}

/// One network read. The cancellation flag is looked at before the bytes.
pub open spec fn feed_step(state: ParserState, chunk: Seq<u8>, cancelled: bool) -> Step {
    if state.phase != StreamPhase::Streaming {
        (state, Seq::empty())
    } else if cancelled {
        (ended(state, StreamPhase::Cancelled), seq![AnswerEvent::End])
    } else {
        drain(ParserState { pending: Seq::empty(), ..state }, state.pending + chunk)
    }
}

/// The end of the response body: an unfinished last line is still taken.
pub open spec fn finish_step(state: ParserState) -> Step {
    if state.phase != StreamPhase::Streaming {
        (state, Seq::empty())
    } else if state.pending.len() == 0 {
        (ended(state, StreamPhase::Completed), seq![AnswerEvent::End])
    } else {
        let (next, head) = line_step(
            ParserState { pending: Seq::empty(), ..state },
            state.pending,
        );
        if next.phase == StreamPhase::Streaming {
            (ended(next, StreamPhase::Completed), head + seq![AnswerEvent::End])
        } else {
            (next, head)
        }
    }
}

/// A transport failure, reported as one chunk before the answer is closed.
pub open spec fn abort_step(state: ParserState, message: Seq<char>) -> Step {
    match state.phase {
        StreamPhase::Idle => (
            ended(state, StreamPhase::Completed),
            seq![AnswerEvent::Start, AnswerEvent::Chunk(message), AnswerEvent::End],
        ),
        StreamPhase::Streaming => (
            ended(state, StreamPhase::Completed),
            seq![AnswerEvent::Chunk(message), AnswerEvent::End],
        ),
        _ => (state, Seq::empty()),
    }
}

/// `events_of` distributes over appending one event.
pub proof fn lemma_events_of_push(events: Seq<LLMAnswer>, event: LLMAnswer)
    ensures
        events_of(events.push(event)) == events_of(events).push(event@),
{
    assert(events_of(events.push(event)) =~= events_of(events).push(event@));
}

/// `events_of` distributes over concatenation.
pub proof fn lemma_events_of_concat(a: Seq<LLMAnswer>, b: Seq<LLMAnswer>)
    ensures
        events_of(a + b) == events_of(a) + events_of(b),
{
    assert(events_of(a + b) =~= events_of(a) + events_of(b));
}

/// A position is the first line break exactly if it holds one and nothing
/// before it does.
pub proof fn lemma_line_break(bytes: Seq<u8>, at: int)
    requires
        0 <= at <= bytes.len(),
        forall|j: int| 0 <= j < at ==> bytes[j] != 10u8,
        at < bytes.len() ==> bytes[at] == 10u8,
    ensures
        line_break(bytes) == at,
    decreases bytes.len(),
{
    if bytes.len() > 0 && at > 0 {
        let rest = bytes.drop_first();
        assert forall|j: int| 0 <= j < at - 1 implies rest[j] != 10u8 by {
            assert(rest[j] == bytes[j + 1]);
        }
        lemma_line_break(rest, at - 1);
    }
}

/// The first line break lies within the bytes, with none before it.
pub proof fn lemma_line_break_bounds(bytes: Seq<u8>)
    ensures
        0 <= line_break(bytes) <= bytes.len(),
        forall|j: int| 0 <= j < line_break(bytes) ==> bytes[j] != 10u8,
        line_break(bytes) < bytes.len() ==> bytes[line_break(bytes)] == 10u8,
    decreases bytes.len(),
{
    if bytes.len() > 0 && bytes[0] != 10u8 {
        let rest = bytes.drop_first();
        lemma_line_break_bounds(rest);
        assert forall|j: int| 0 <= j < line_break(bytes) implies bytes[j] != 10u8 by {
            if j > 0 {
                assert(rest[j - 1] == bytes[j]);
            }
        }
    }
}

/// Finds the first line break in `bytes`.
fn find_line_break(bytes: &[u8]) -> (at: usize)
    ensures
        at == line_break(bytes@),
        at <= bytes@.len(),
{
    let mut at: usize = 0;
    while at < bytes.len() && bytes[at] != 10u8
        invariant
            0 <= at <= bytes.len(),
            forall|j: int| 0 <= j < at ==> bytes@[j] != 10u8,
        decreases bytes.len() - at,
    {
        at = at + 1;
    }
    proof {
        lemma_line_break(bytes@, at as int);
    }
    at
}

/// The parser of one exchange.
#[derive(Debug)]
pub struct StreamParser {
    format: WireFormat,
    phase: StreamPhase,
    pending: bytes::Bytes,
    partial: String,
    matcher: Option<regex::Regex>,
}

impl View for StreamParser {
    type V = ParserState;

    closed spec fn view(&self) -> ParserState {
        ParserState {
            format: self.format,
            phase: self.phase,
            pending: bytes_of(self.pending),
            partial: self.partial@,
            matcher: self.matcher,
        }
    }
}

/// Reads `text` as one frame of `format`.
pub fn read_frame(format: WireFormat, text: &str) -> (frame: Frame)
    ensures
        frame@ == frame_of(format, text@),
{
    match parse(text) {
        Ok(value) => match format {
            WireFormat::Sse | WireFormat::SsePattern => Frame::Text(delta_content(&value)),
            WireFormat::JsonLines => {
                let done = match member(&value, "done") {
                    Some(flag) => match boolean_of(flag) {
                        Some(b) => b,
                        None => false,
                    },
                    None => false,
                };
                if done {
                    Frame::Done
                } else {
                    let content = match member(&value, "message") {
                        Some(message) => match member(message, "content") {
                            Some(content) => string_of(content),
                            None => None,
                        },
                        None => None,
                    };
                    Frame::Text(content)
                }
            },
        },
        Err(error) => {
            let truncated = match format {
                WireFormat::Sse | WireFormat::SsePattern => error_is_eof(&error),
                WireFormat::JsonLines => false,
            };
            if truncated {
                Frame::Truncated
            } else {
                Frame::Malformed(error_text(&error))
            }
        },
    }
}

impl StreamParser {
    /// A parser for `format` in the idle phase.
    pub fn new(format: WireFormat) -> (parser: StreamParser)
        ensures
            parser@ == initial(format),
    {
        StreamParser {
            format,
            phase: StreamPhase::Idle,
            pending: empty_buffer(),
            partial: String::new(),
            matcher: None,
        }
    }

    /// The wire format the parser reads.
    pub fn format(&self) -> (format: WireFormat)
        ensures
            format == self@.format,
    {
        self.format
    }

    /// Where the turn stands.
    pub fn phase(&self) -> (phase: StreamPhase)
        ensures
            phase == self@.phase,
    {
        self.phase
    }

    /// The bytes received after the last line break.
    pub fn pending(&self) -> (bytes: &[u8])
        ensures
            bytes@ == self@.pending,
    {
        buffer_bytes(&self.pending)
    }

    /// The JSON text held back as truncated.
    pub fn partial(&self) -> (text: &str)
        ensures
            text@ == self@.partial,
    {
        self.partial.as_str()
    }

    fn end(&mut self, phase: StreamPhase)
        ensures
            final(self)@ == ended(old(self)@, phase),
    {
        self.phase = phase;
        self.pending = empty_buffer();
        self.partial = String::new();
        self.matcher = None;
    }

    /// Opens the exchange: from the idle phase this emits `StartAnswer`.
    pub fn begin(&mut self) -> (events: Vec<LLMAnswer>)
        ensures
            final(self)@ == begin_step(old(self)@).0,
            events_of(events@) == begin_step(old(self)@).1,
    {
        let mut events: Vec<LLMAnswer> = Vec::new();
        if self.phase == StreamPhase::Idle {
            self.phase = StreamPhase::Streaming;
            events.push(LLMAnswer::StartAnswer);
        }
        assert(events_of(events@) =~= begin_step(old(self)@).1);
        events
    }

    /// Applies the reading `frame` of `candidate` to a streaming parser.
    pub fn settle(&mut self, candidate: String, frame: Frame) -> (events: Vec<LLMAnswer>)
        ensures
            final(self)@ == settle_step(old(self)@, candidate@, frame@).0,
            events_of(events@) == settle_step(old(self)@, candidate@, frame@).1,
    {
        let mut events: Vec<LLMAnswer> = Vec::new();
        match frame {
            Frame::Text(Some(text)) => {
                self.partial = String::new();
                if text.as_str().is_empty() {
                    events.push(LLMAnswer::Answer(String::from_str("\n")));
                } else {
                    events.push(LLMAnswer::Answer(text));
                }
            },
            Frame::Text(None) => {
                self.partial = String::new();
                events.push(LLMAnswer::Answer(String::from_str("\n")));
            },
            Frame::Done => {
                self.end(StreamPhase::Completed);
                events.push(LLMAnswer::EndAnswer);
            },
            Frame::Truncated => {
                self.partial = candidate;
            },
            Frame::Malformed(message) => {
                self.partial = String::new();
                let mut text = String::from_str("[JSON PARSE ERROR: ");
                text.append(message.as_str());
                text.append("]");
                events.push(LLMAnswer::Answer(text));
            },
        }
        assert(events_of(events@) =~= settle_step(old(self)@, candidate@, frame@).1);
        events
    }

    /// Takes one payload of a line.
    pub fn take_payload(&mut self, payload: &str) -> (events: Vec<LLMAnswer>)
        ensures
            final(self)@ == payload_step(old(self)@, Some(payload@)).0,
            events_of(events@) == payload_step(old(self)@, Some(payload@)).1,
    {
        if self.format != WireFormat::JsonLines && same_text(payload, "[DONE]") {
            self.end(StreamPhase::Completed);
            let mut events: Vec<LLMAnswer> = Vec::new();
            events.push(LLMAnswer::EndAnswer);
            assert(events_of(events@) =~= seq![AnswerEvent::End]);
            return events;
        }
        let mut candidate = self.partial.clone();
        candidate.append(payload);
        let frame = read_frame(self.format, candidate.as_str());
        self.settle(candidate, frame)
    }

    /// Finds the payloads of a trimmed line that is not empty.
    fn payloads(&self, text: &str) -> (found: Vec<Option<String>>)
        ensures
            fields_of(found@) == payloads_of(self@, text@),
    {
        let mut found: Vec<Option<String>> = Vec::new();
        match self.format {
            WireFormat::Sse => {
                let payload = match strip_prefix(text, "data: ") {
                    Some(rest) => rest,
                    None => text,
                };
                found.push(Some(String::from_str(payload)));
            },
            WireFormat::JsonLines => {
                found.push(Some(String::from_str(text)));
            },
            WireFormat::SsePattern => match &self.matcher {
                Some(regex) => {
                    return first_groups(regex, text);
                },
                None => {},
            },
        }
        assert(fields_of(found@) =~= payloads_of(self@, text@));
        found
    }

    /// Takes one complete line, given without its line break.
    pub fn take_line(&mut self, line: &[u8]) -> (events: Vec<LLMAnswer>)
        ensures
            final(self)@ == line_step(old(self)@, line@).0,
            events_of(events@) == line_step(old(self)@, line@).1,
    {
        let mut events: Vec<LLMAnswer> = Vec::new();
        assert(events_of(events@) =~= Seq::<AnswerEvent>::empty());
        let decoded = decode_lossy(line);
        let text = trim(decoded.as_str());
        if text.is_empty() {
            return events;
        }
        if self.format == WireFormat::SsePattern && self.matcher.is_none() {
            match compile("data:\\s(.*)") {
                Ok(regex) => {
                    self.matcher = Some(regex);
                },
                Err(error) => {
                    events.push(LLMAnswer::Answer(refusal(&error)));
                    events.push(LLMAnswer::EndAnswer);
                    self.end(StreamPhase::Completed);
                    assert(events_of(events@) =~= line_step(old(self)@, line@).1);
                    return events;
                },
            }
        }
        let found = self.payloads(text);
        let ghost all = fields_of(found@);
        let ghost origin = self@;
        let mut i: usize = 0;
        assert(armed(old(self)@) == Ok::<ParserState, Seq<char>>(origin));
        assert(all.subrange(0, all.len() as int) =~= all);
        assert(events_of(events@) + payloads_step(origin, all).1 =~= payloads_step(
            origin,
            all,
        ).1);
        while i < found.len()
            invariant
                0 <= i <= found.len(),
                all == fields_of(found@),
                line_step(old(self)@, line@) == payloads_step(origin, all),
                payloads_step(origin, all) == (
                    payloads_step(self@, all.subrange(i as int, all.len() as int)).0,
                    events_of(events@) + payloads_step(
                        self@,
                        all.subrange(i as int, all.len() as int),
                    ).1,
                ),
            decreases found.len() - i,
        {
            let ghost rest = all.subrange(i as int, all.len() as int);
            let ghost emitted = events_of(events@);
            let ghost before = self@;
            proof {
                assert(rest[0] == all[i as int]);
                assert(rest.drop_first() =~= all.subrange(i + 1, all.len() as int));
            }
            let mut head = match &found[i] {
                Some(payload) => self.take_payload(payload.as_str()),
                None => Vec::new(),
            };
            proof {
                assert(events_of(head@) =~= payload_step(before, rest[0]).1);
                lemma_events_of_concat(events@, head@);
            }
            events.append(&mut head);
            if self.phase != StreamPhase::Streaming {
                return events;
            }
            i = i + 1;
            proof {
                let step = payload_step(before, rest[0]);
                let tail = payloads_step(self@, all.subrange(i as int, all.len() as int));
                assert((emitted + step.1) + tail.1 =~= emitted + (step.1 + tail.1));
            }
        }
        assert(events_of(events@) + Seq::<AnswerEvent>::empty() =~= events_of(events@));
        events
    }

    /// Takes the bytes of one network read.
    ///
    /// `cancelled` is the cancellation flag as read before the bytes: where
    /// it is set the bytes are dropped, unread, and the answer is closed.
    pub fn feed(&mut self, chunk: &[u8], cancelled: bool) -> (events: Vec<LLMAnswer>)
        ensures
            final(self)@ == feed_step(old(self)@, chunk@, cancelled).0,
            events_of(events@) == feed_step(old(self)@, chunk@, cancelled).1,
    {
        let mut events: Vec<LLMAnswer> = Vec::new();
        if self.phase != StreamPhase::Streaming {
            assert(events_of(events@) =~= Seq::<AnswerEvent>::empty());
            return events;
        }
        if cancelled {
            self.end(StreamPhase::Cancelled);
            events.push(LLMAnswer::EndAnswer);
            assert(events_of(events@) =~= seq![AnswerEvent::End]);
            return events;
        }
        let mut joined: Vec<u8> = Vec::new();
        joined.extend_from_slice(buffer_bytes(&self.pending));
        joined.extend_from_slice(chunk);
        assert(joined@ =~= old(self)@.pending + chunk@);
        let mut buffer = buffer_from(joined);
        self.pending = empty_buffer();
        let ghost origin = ParserState { pending: Seq::empty(), ..old(self)@ };
        let ghost all = bytes_of(buffer);
        assert(self@ == origin);
        assert(events_of(events@) =~= Seq::<AnswerEvent>::empty());
        assert(events_of(events@) + drain(origin, all).1 =~= drain(origin, all).1);
        loop
            invariant
                old(self)@.phase == StreamPhase::Streaming,
                !cancelled,
                all == old(self)@.pending + chunk@,
                origin == (ParserState { pending: Seq::empty(), ..old(self)@ }),
                self@.phase == StreamPhase::Streaming,
                self@.pending.len() == 0,
                drain(origin, all) == (
                    drain(self@, bytes_of(buffer)).0,
                    events_of(events@) + drain(self@, bytes_of(buffer)).1,
                ),
            decreases bytes_of(buffer).len(),
        {
            let ghost rest = bytes_of(buffer);
            let ghost before = self@;
            let ghost emitted = events_of(events@);
            let at = find_line_break(buffer_bytes(&buffer));
            if at == buffer_bytes(&buffer).len() {
                proof {
                    assert(events_of(events@) + Seq::<AnswerEvent>::empty() =~= events_of(
                        events@,
                    ));
                }
                self.pending = buffer;
                return events;
            }
            let taken = split_to(&mut buffer, at + 1);
            let line = slice_subrange(buffer_bytes(&taken), 0, at);
            proof {
                assert(line@ =~= rest.subrange(0, at as int));
                lemma_line_keeps_pending(before, line@);
            }
            let mut head = self.take_line(line);
            proof {
                lemma_events_of_concat(events@, head@);
            }
            events.append(&mut head);
            if self.phase != StreamPhase::Streaming {
                return events;
            }
            proof {
                let step = line_step(before, line@);
                let tail = drain(self@, bytes_of(buffer));
                assert((emitted + step.1) + tail.1 =~= emitted + (step.1 + tail.1));
            }
        }
    }

    /// Closes the exchange at the end of the response body.
    pub fn finish(&mut self) -> (events: Vec<LLMAnswer>)
        ensures
            final(self)@ == finish_step(old(self)@).0,
            events_of(events@) == finish_step(old(self)@).1,
    {
        let mut events: Vec<LLMAnswer> = Vec::new();
        if self.phase != StreamPhase::Streaming {
            assert(events_of(events@) =~= Seq::<AnswerEvent>::empty());
            return events;
        }
        if buffer_bytes(&self.pending).len() > 0 {
            let mut line = empty_buffer();
            core::mem::swap(&mut self.pending, &mut line);
            assert(self@ == (ParserState { pending: Seq::empty(), ..old(self)@ }));
            events = self.take_line(buffer_bytes(&line));
            if self.phase != StreamPhase::Streaming {
                return events;
            }
        }
        proof {
            lemma_events_of_push(events@, LLMAnswer::EndAnswer);
        }
        self.end(StreamPhase::Completed);
        events.push(LLMAnswer::EndAnswer);
        assert(events_of(events@) =~= finish_step(old(self)@).1);
        events
    }

    /// Closes the exchange after a transport failure described by `message`.
    pub fn abort(&mut self, message: &str) -> (events: Vec<LLMAnswer>)
        ensures
            final(self)@ == abort_step(old(self)@, message@).0,
            events_of(events@) == abort_step(old(self)@, message@).1,
    {
        let mut events: Vec<LLMAnswer> = Vec::new();
        match self.phase {
            StreamPhase::Idle => {
                events.push(LLMAnswer::StartAnswer);
                events.push(LLMAnswer::Answer(String::from_str(message)));
                events.push(LLMAnswer::EndAnswer);
                self.end(StreamPhase::Completed);
            },
            StreamPhase::Streaming => {
                events.push(LLMAnswer::Answer(String::from_str(message)));
                events.push(LLMAnswer::EndAnswer);
                self.end(StreamPhase::Completed);
            },
            _ => {},
        }
        assert(events_of(events@) =~= abort_step(old(self)@, message@).1);
        events
    }
}

} // verus!
