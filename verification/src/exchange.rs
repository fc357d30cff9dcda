//! A whole exchange as the consumer sees it, and what holds of every one.

use vstd::prelude::*;
use crate::llm::{AnswerEvent, LLMAnswer};
use crate::stream::{
    abort_step, armed, begin_step, drain, ended, events_of, feed_step, finish_step, frame_of,
    initial, lemma_events_of_concat, lemma_line_break, lemma_line_break_bounds, line_break,
    line_step, payload_step, payloads_of, payloads_step, settle_step, FrameView, ParserState,
    Step, StreamParser, StreamPhase, WireFormat,
};

verus! {

/// One network read: the bytes it brought and the cancellation flag as it
/// stood just before.
pub struct Read {
    pub bytes: Seq<u8>,
    pub cancelled: bool,
}

/// How the response body came to its end.
pub enum Ending {
    /// The body was read to its end.
    Eof,
    /// The transport failed with this message.
    Failed(Seq<char>),
}

/// The reads of an exchange in which the cancellation flag is set from read
/// `cancel_at` on.
pub open spec fn script(reads: Seq<Vec<u8>>, cancel_at: Option<usize>) -> Seq<Read> {
    Seq::new(
        reads.len(),
        |i: int|
            Read {
                bytes: reads[i]@,
                cancelled: cancel_at matches Some(k) && k <= i,
            },
    )
}

/// The ending that an optional failure message stands for.
pub open spec fn ending_of(failure: Option<String>) -> Ending {
    match failure {
        Some(message) => Ending::Failed(message@),
        None => Ending::Eof,
    }
}

/// Feeding `reads` one after the other.
pub open spec fn feed_all(state: ParserState, reads: Seq<Read>) -> Step
    decreases reads.len(),
{
    if reads.len() == 0 {
        (state, Seq::empty())
    } else {
        let (next, head) = feed_step(state, reads[0].bytes, reads[0].cancelled);
        let (last, tail) = feed_all(next, reads.drop_first());
        (last, head + tail)
    }
}

/// How a parser that has taken in the whole body is closed.
pub open spec fn close_step(state: ParserState, ending: Ending) -> Step {
    match ending {
        Ending::Eof => finish_step(state),
        Ending::Failed(message) => abort_step(state, message),
    }
}

/// Everything a fresh parser emits over one exchange.
pub open spec fn exchange(format: WireFormat, reads: Seq<Read>, ending: Ending) -> Seq<
    AnswerEvent,
> {
    let (opened, start) = begin_step(initial(format));
    let (fed, body) = feed_all(opened, reads);
    let (closed, end) = close_step(fed, ending);
    start + body + end
}

/// Every event is a chunk of text.
pub open spec fn chunks_only(events: Seq<AnswerEvent>) -> bool {
    forall|i: int| 0 <= i < events.len() ==> events[i] is Chunk
}

/// Chunks of text followed by the one `End`.
pub open spec fn closes(events: Seq<AnswerEvent>) -> bool {
    events.len() > 0 && events.last() is End && chunks_only(events.drop_last())
}

/// One `Start`, then chunks of text, then one `End`.
pub open spec fn framed(events: Seq<AnswerEvent>) -> bool {
    &&& events.len() >= 2
    &&& events[0] is Start
    &&& events.last() is End
    &&& forall|i: int| 0 < i < events.len() - 1 ==> events[i] is Chunk
}

/// Whether the turn has ended.
pub open spec fn terminal(phase: StreamPhase) -> bool {
    phase == StreamPhase::Completed || phase == StreamPhase::Cancelled
}

/// What every step of a parser past its idle phase obeys: while streaming it
/// emits chunks only, it emits `End` exactly when it leaves the streaming
/// phase, and afterwards it is silent and unchanged.
pub open spec fn orderly(before: ParserState, step: Step) -> bool {
    &&& step.0.format == before.format
    &&& before.phase == StreamPhase::Streaming ==> {
        ||| step.0.phase == StreamPhase::Streaming && chunks_only(step.1)
        ||| terminal(step.0.phase) && closes(step.1) && step.0 == ended(before, step.0.phase)
    }
    &&& terminal(before.phase) ==> step == (before, Seq::<AnswerEvent>::empty())
}

/// Chunks followed by chunks are chunks.
pub proof fn lemma_chunks_concat(a: Seq<AnswerEvent>, b: Seq<AnswerEvent>)
    requires
        chunks_only(a),
        chunks_only(b),
    ensures
        chunks_only(a + b),
{
}

/// Chunks followed by a closing run are a closing run.
pub proof fn lemma_closes_concat(a: Seq<AnswerEvent>, b: Seq<AnswerEvent>)
    requires
        chunks_only(a),
        closes(b),
    ensures
        closes(a + b),
{
    assert((a + b).drop_last() =~= a + b.drop_last());
    lemma_chunks_concat(a, b.drop_last());
}

/// Applying a frame is orderly and leaves the pending bytes alone.
pub proof fn lemma_settle_orderly(state: ParserState, candidate: Seq<char>, frame: FrameView)
    requires
        state.phase == StreamPhase::Streaming,
    ensures
        orderly(state, settle_step(state, candidate, frame)),
        settle_step(state, candidate, frame).0.phase == StreamPhase::Streaming ==> settle_step(
            state,
            candidate,
            frame,
        ).0.pending == state.pending,
{
    let step = settle_step(state, candidate, frame);
    if terminal(step.0.phase) {
        assert(step.1 =~= seq![AnswerEvent::End]);
        assert(step.1.drop_last() =~= Seq::<AnswerEvent>::empty());
    }
}

/// Taking a payload is orderly and leaves the pending bytes alone.
pub proof fn lemma_payload_orderly(state: ParserState, payload: Option<Seq<char>>)
    requires
        state.phase == StreamPhase::Streaming,
    ensures
        orderly(state, payload_step(state, payload)),
        payload_step(state, payload).0.phase == StreamPhase::Streaming ==> payload_step(
            state,
            payload,
        ).0.pending == state.pending,
{
    let step = payload_step(state, payload);
    match payload {
        Some(text) => {
            if state.format != WireFormat::JsonLines && text == "[DONE]"@ {
                assert(step.1 =~= seq![AnswerEvent::End]);
                assert(step.1.drop_last() =~= Seq::<AnswerEvent>::empty());
            } else {
                let candidate = state.partial + text;
                lemma_settle_orderly(state, candidate, frame_of(state.format, candidate));
            }
        },
        None => {},
    }
}

/// Taking the payloads of a line is orderly and leaves the pending bytes
/// alone.
pub proof fn lemma_payloads_orderly(state: ParserState, payloads: Seq<Option<Seq<char>>>)
    requires
        state.phase == StreamPhase::Streaming,
    ensures
        orderly(state, payloads_step(state, payloads)),
        payloads_step(state, payloads).0.phase == StreamPhase::Streaming ==> payloads_step(
            state,
            payloads,
        ).0.pending == state.pending,
    decreases payloads.len(),
{
    if payloads.len() > 0 {
        let (next, head) = payload_step(state, payloads[0]);
        lemma_payload_orderly(state, payloads[0]);
        if next.phase == StreamPhase::Streaming {
            let (last, tail) = payloads_step(next, payloads.drop_first());
            lemma_payloads_orderly(next, payloads.drop_first());
            if last.phase == StreamPhase::Streaming {
                lemma_chunks_concat(head, tail);
            } else {
                lemma_closes_concat(head, tail);
            }
        }
    }
}

/// Taking a line is orderly and leaves the pending bytes alone.
pub proof fn lemma_line_orderly(state: ParserState, line: Seq<u8>)
    requires
        state.phase == StreamPhase::Streaming,
    ensures
        orderly(state, line_step(state, line)),
        line_step(state, line).0.phase == StreamPhase::Streaming ==> line_step(
            state,
            line,
        ).0.pending == state.pending,
{
    let text = crate::text::trimmed(crate::text::utf8_lossy(line));
    if text.len() > 0 {
        match armed(state) {
            Ok(ready) => {
                lemma_payloads_orderly(ready, payloads_of(ready, text));
                let step = payloads_step(ready, payloads_of(ready, text));
                if terminal(step.0.phase) {
                    assert(ended(ready, step.0.phase) == ended(state, step.0.phase));
                }
            },
            Err(message) => {
                let step = line_step(state, line);
                assert(step.1.drop_last() =~= seq![AnswerEvent::Chunk(message)]);
            },
        }
    }
}

/// Taking in bytes line by line is orderly.
pub proof fn lemma_drain_orderly(state: ParserState, bytes: Seq<u8>)
    requires
        state.phase == StreamPhase::Streaming,
        state.pending.len() == 0,
    ensures
        orderly(state, drain(state, bytes)),
    decreases bytes.len(),
{
    let at = line_break(bytes);
    lemma_line_break_bounds(bytes);
    if at < bytes.len() {
        let line = bytes.subrange(0, at);
        let (next, head) = line_step(state, line);
        lemma_line_orderly(state, line);
        if next.phase == StreamPhase::Streaming {
            let rest = bytes.subrange(at + 1, bytes.len() as int);
            let (last, tail) = drain(next, rest);
            lemma_drain_orderly(next, rest);
            assert(next.pending =~= state.pending);
            if last.phase == StreamPhase::Streaming {
                lemma_chunks_concat(head, tail);
            } else {
                lemma_closes_concat(head, tail);
            }
        }
    }
}

/// One read is orderly.
pub proof fn lemma_feed_orderly(state: ParserState, chunk: Seq<u8>, cancelled: bool)
    ensures
        orderly(state, feed_step(state, chunk, cancelled)),
{
    if state.phase == StreamPhase::Streaming {
        if cancelled {
            let step = feed_step(state, chunk, cancelled);
            assert(step.1.drop_last() =~= Seq::<AnswerEvent>::empty());
        } else {
            let origin = ParserState { pending: Seq::empty(), ..state };
            lemma_drain_orderly(origin, state.pending + chunk);
        }
    }
}

/// Any number of reads is orderly.
pub proof fn lemma_feed_all_orderly(state: ParserState, reads: Seq<Read>)
    ensures
        orderly(state, feed_all(state, reads)),
    decreases reads.len(),
{
    if reads.len() > 0 {
        let (next, head) = feed_step(state, reads[0].bytes, reads[0].cancelled);
        let (last, tail) = feed_all(next, reads.drop_first());
        lemma_feed_orderly(state, reads[0].bytes, reads[0].cancelled);
        lemma_feed_all_orderly(next, reads.drop_first());
        if state.phase == StreamPhase::Streaming {
            if next.phase == StreamPhase::Streaming {
                if last.phase == StreamPhase::Streaming {
                    lemma_chunks_concat(head, tail);
                } else {
                    lemma_closes_concat(head, tail);
                }
            } else {
                assert(head + tail =~= head);
            }
        } else if terminal(state.phase) {
            assert(head + tail =~= Seq::<AnswerEvent>::empty());
        }
    } else {
        if state.phase == StreamPhase::Streaming {
            assert(chunks_only(feed_all(state, reads).1));
        }
    }
}

/// Closing a streaming parser always ends the answer; closing one that has
/// ended adds nothing.
pub proof fn lemma_close(state: ParserState, ending: Ending)
    ensures
        state.phase == StreamPhase::Streaming ==> closes(close_step(state, ending).1),
        terminal(state.phase) ==> close_step(state, ending).1 == Seq::<AnswerEvent>::empty(),
{
    if state.phase == StreamPhase::Streaming {
        match ending {
            Ending::Eof => {
                if state.pending.len() == 0 {
                    let step = finish_step(state);
                    assert(step.1.drop_last() =~= Seq::<AnswerEvent>::empty());
                } else {
                    let origin = ParserState { pending: Seq::empty(), ..state };
                    let (next, head) = line_step(origin, state.pending);
                    lemma_line_orderly(origin, state.pending);
                    if next.phase == StreamPhase::Streaming {
                        let end = seq![AnswerEvent::End];
                        assert(end.drop_last() =~= Seq::<AnswerEvent>::empty());
                        lemma_closes_concat(head, end);
                    }
                }
            },
            Ending::Failed(message) => {
                let step = abort_step(state, message);
                assert(step.1.drop_last() =~= seq![AnswerEvent::Chunk(message)]);
            },
        }
    }
}

/// Whatever the network delivers, whenever cancellation is observed and
/// however the body ends, the consumer sees exactly one `Start`, then only
/// chunks of text, then exactly one `End`.
pub proof fn law_exchange_is_framed(format: WireFormat, reads: Seq<Read>, ending: Ending)
    ensures
        framed(exchange(format, reads, ending)),
{
    let (opened, start) = begin_step(initial(format));
    let (fed, body) = feed_all(opened, reads);
    let (closed, end) = close_step(fed, ending);
    lemma_feed_all_orderly(opened, reads);
    lemma_close(fed, ending);
    let all = start + body + end;
    assert(all[0] == AnswerEvent::Start);
    if fed.phase == StreamPhase::Streaming {
        assert(all.last() == end.last());
        assert forall|i: int| 0 < i < all.len() - 1 implies all[i] is Chunk by {
            if i < 1 + body.len() {
                assert(all[i] == body[i - 1]);
            } else {
                assert(all[i] == end.drop_last()[i - 1 - body.len()]);
            }
        }
    } else {
        assert(all =~= start + body);
        assert(all.last() == body.last());
        assert forall|i: int| 0 < i < all.len() - 1 implies all[i] is Chunk by {
            assert(all[i] == body.drop_last()[i - 1]);
        }
    }
}

/// Once cancellation has been observed, later reads add nothing.
pub proof fn lemma_feed_all_after_end(state: ParserState, reads: Seq<Read>)
    requires
        terminal(state.phase),
    ensures
        feed_all(state, reads) == (state, Seq::<AnswerEvent>::empty()),
{
    lemma_feed_all_orderly(state, reads);
}

/// Where the cancellation flag is already set when the first read arrives,
/// the consumer sees `Start` and `End` and no text at all, whatever the
/// network delivered.
pub proof fn law_cancelled_before_first_read(
    format: WireFormat,
    reads: Seq<Read>,
    ending: Ending,
)
    requires
        reads.len() > 0,
        reads[0].cancelled,
    ensures
        exchange(format, reads, ending) == seq![AnswerEvent::Start, AnswerEvent::End],
{
    let (opened, start) = begin_step(initial(format));
    let (next, head) = feed_step(opened, reads[0].bytes, reads[0].cancelled);
    lemma_feed_all_after_end(next, reads.drop_first());
    let (fed, body) = feed_all(opened, reads);
    assert(body =~= seq![AnswerEvent::End]);
    lemma_close(fed, ending);
    assert(exchange(format, reads, ending) =~= seq![AnswerEvent::Start, AnswerEvent::End]);
}

/// Taking in `first + second` at once comes to the same as taking in
/// `first`, then what stayed pending together with `second`.
pub proof fn lemma_drain_append(state: ParserState, first: Seq<u8>, second: Seq<u8>)
    requires
        state.phase == StreamPhase::Streaming,
        state.pending.len() == 0,
    ensures
        ({
            let (middle, head) = drain(state, first);
            drain(state, first + second) == if middle.phase == StreamPhase::Streaming {
                let (last, tail) = drain(
                    ParserState { pending: Seq::empty(), ..middle },
                    middle.pending + second,
                );
                (last, head + tail)
            } else {
                (middle, head)
            }
        }),
    decreases first.len(),
{
    let at = line_break(first);
    lemma_line_break_bounds(first);
    let whole = first + second;
    if at < first.len() {
        assert forall|j: int| 0 <= j < at implies whole[j] != 10u8 by {
            assert(whole[j] == first[j]);
        }
        lemma_line_break(whole, at);
        let line = first.subrange(0, at);
        assert(whole.subrange(0, at) =~= line);
        let rest = first.subrange(at + 1, first.len() as int);
        assert(whole.subrange(at + 1, whole.len() as int) =~= rest + second);
        let (next, lead) = line_step(state, line);
        lemma_line_orderly(state, line);
        if next.phase == StreamPhase::Streaming {
            assert(next.pending =~= state.pending);
            lemma_drain_append(next, rest, second);
            let (middle, body) = drain(next, rest);
            if middle.phase == StreamPhase::Streaming {
                let (last, tail) = drain(
                    ParserState { pending: Seq::empty(), ..middle },
                    middle.pending + second,
                );
                assert(lead + (body + tail) =~= (lead + body) + tail);
            }
        }
    } else {
        let middle = ParserState { pending: first, ..state };
        assert((ParserState { pending: Seq::empty(), ..middle }) == state) by {
            assert(state.pending =~= Seq::<u8>::empty());
        }
        let (last, tail) = drain(state, whole);
        assert(Seq::<AnswerEvent>::empty() + tail =~= tail);
    }
}

/// A payload split at any byte offset over two reads yields the same events,
/// and leaves the parser in the same state, as the payload delivered in one
/// read.
pub proof fn law_split_read(state: ParserState, first: Seq<u8>, second: Seq<u8>)
    ensures
        ({
            let whole = feed_step(state, first + second, false);
            let one = feed_step(state, first, false);
            let two = feed_step(one.0, second, false);
            whole.0 == two.0 && whole.1 == one.1 + two.1
        }),
{
    let whole = feed_step(state, first + second, false);
    let one = feed_step(state, first, false);
    let two = feed_step(one.0, second, false);
    if state.phase == StreamPhase::Streaming {
        let origin = ParserState { pending: Seq::empty(), ..state };
        assert(state.pending + (first + second) =~= (state.pending + first) + second);
        lemma_drain_append(origin, state.pending + first, second);
        lemma_drain_orderly(origin, state.pending + first);
        if one.0.phase != StreamPhase::Streaming {
            assert(one.1 + two.1 =~= one.1);
        }
    } else {
        assert(one.1 + two.1 =~= Seq::<AnswerEvent>::empty());
    }
}

/// Which of two parsers a read is meant for.
pub struct Routed {
    pub to_first: bool,
    pub read: Read,
}

/// The reads of an interleaving that are meant for one of the two parsers.
pub open spec fn routed_to(reads: Seq<Routed>, first: bool) -> Seq<Read>
    decreases reads.len(),
{
    if reads.len() == 0 {
        Seq::empty()
    } else if reads[0].to_first == first {
        seq![reads[0].read] + routed_to(reads.drop_first(), first)
    } else {
        routed_to(reads.drop_first(), first)
    }
}

/// Two parsers taking their reads in an interleaved order: each read goes to
/// the parser it is meant for.
pub open spec fn feed_pair(a: ParserState, b: ParserState, reads: Seq<Routed>) -> (Step, Step)
    decreases reads.len(),
{
    if reads.len() == 0 {
        ((a, Seq::empty()), (b, Seq::empty()))
    } else if reads[0].to_first {
        let (next, head) = feed_step(a, reads[0].read.bytes, reads[0].read.cancelled);
        let (first, second) = feed_pair(next, b, reads.drop_first());
        ((first.0, head + first.1), second)
    } else {
        let (next, head) = feed_step(b, reads[0].read.bytes, reads[0].read.cancelled);
        let (first, second) = feed_pair(a, next, reads.drop_first());
        (first, (second.0, head + second.1))
    }
}

/// Two parsers whose reads are interleaved do not see each other: each ends
/// in the state, and emits the events, of a run on its own reads alone.
pub proof fn law_parsers_are_isolated(a: ParserState, b: ParserState, reads: Seq<Routed>)
    ensures
        feed_pair(a, b, reads).0 == feed_all(a, routed_to(reads, true)),
        feed_pair(a, b, reads).1 == feed_all(b, routed_to(reads, false)),
    decreases reads.len(),
{
    if reads.len() > 0 {
        let rest = reads.drop_first();
        let read = reads[0].read;
        if reads[0].to_first {
            let (next, head) = feed_step(a, read.bytes, read.cancelled);
            law_parsers_are_isolated(next, b, rest);
            let mine = routed_to(reads, true);
            assert(mine.drop_first() =~= routed_to(rest, true));
            assert(mine[0] == read);
        } else {
            let (next, head) = feed_step(b, read.bytes, read.cancelled);
            law_parsers_are_isolated(a, next, rest);
            let mine = routed_to(reads, false);
            assert(mine.drop_first() =~= routed_to(rest, false));
            assert(mine[0] == read);
        }
    }
}

/// Runs a fresh parser over a recorded exchange and returns everything it
/// emits, in order.
///
/// `reads` are the network reads, `cancel_at` the first read before which
/// the cancellation flag was found set, and `failure` the transport error
/// that cut the body short, if one did.
pub fn replay(
    format: WireFormat,
    reads: &Vec<Vec<u8>>,
    cancel_at: Option<usize>,
    failure: Option<String>,
) -> (events: Vec<LLMAnswer>)
    ensures
        events_of(events@) == exchange(format, script(reads@, cancel_at), ending_of(failure)),
{
    let mut parser = StreamParser::new(format);
    let mut events = parser.begin();
    let ghost all = script(reads@, cancel_at);
    let ghost opened = parser@;
    let ghost start = events_of(events@);
    let mut i: usize = 0;
    assert(all.subrange(0, all.len() as int) =~= all);
    assert(start + Seq::<AnswerEvent>::empty() =~= start);
    while i < reads.len()
        invariant
            0 <= i <= reads.len(),
            all == script(reads@, cancel_at),
            start + feed_all(opened, all).1 == events_of(events@) + feed_all(
                parser@,
                all.subrange(i as int, all.len() as int),
            ).1,
            feed_all(opened, all).0 == feed_all(
                parser@,
                all.subrange(i as int, all.len() as int),
            ).0,
        decreases reads.len() - i,
    {
        let cancelled = match cancel_at {
            Some(k) => k <= i,
            None => false,
        };
        let ghost rest = all.subrange(i as int, all.len() as int);
        let ghost before = parser@;
        let ghost emitted = events_of(events@);
        let mut head = parser.feed(reads[i].as_slice(), cancelled);
        proof {
            assert(rest[0] == all[i as int]);
            assert(rest.drop_first() =~= all.subrange(i + 1, all.len() as int));
            lemma_events_of_concat(events@, head@);
            let tail = feed_all(parser@, rest.drop_first()).1;
            assert(emitted + (events_of(head@) + tail) =~= (emitted + events_of(head@)) + tail);
        }
        events.append(&mut head);
        i = i + 1;
    }
    assert(all.subrange(i as int, all.len() as int) =~= Seq::<Read>::empty());
    let ghost body = feed_all(opened, all).1;
    assert(start + body =~= events_of(events@) + Seq::<AnswerEvent>::empty());
    let mut end = match failure {
        Some(message) => parser.abort(message.as_str()),
        None => parser.finish(),
    };
    proof {
        lemma_events_of_concat(events@, end@);
    }
    events.append(&mut end);
    events
}

} // verus!
