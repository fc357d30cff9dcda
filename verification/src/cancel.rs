//! The cancellation signal: a flag that the user interface sets and that a
//! backend task looks at between two reads.

use std::sync::atomic::{AtomicBool, Ordering};
use std::sync::Arc;
use vstd::prelude::*;
use crate::gemini::{segment_step, Resegmenter};
use crate::llm::LLMAnswer;
use crate::stream::{events_of, feed_step, StreamParser};

verus! {

/// A flag shared between the main loop and the backend tasks. Any holder
/// may set or clear it at any time, so a reading says nothing about the
/// next.
#[derive(Debug)]
pub struct CancellationSignal {
    flag: Arc<AtomicBool>,
}

impl CancellationSignal {
    /// A signal that is not set.
    pub fn new() -> (signal: CancellationSignal) {
        CancellationSignal { flag: Arc::new(AtomicBool::new(false)) }
    }

    /// The flag the handle points to.
    pub closed spec fn flag(&self) -> Arc<AtomicBool> {
        self.flag
    }

    /// Another handle to the same flag.
    pub fn share(&self) -> (signal: CancellationSignal)
        ensures
            signal.flag() == self.flag(),
    {
        CancellationSignal { flag: self.flag.clone() }
    }

    /// Asks the backend task to stop.
    pub fn request(&self) {
        self.flag.store(true, Ordering::Relaxed);
    }

    /// Clears the flag for the next turn.
    pub fn reset(&self) {
        self.flag.store(false, Ordering::Relaxed);
    }

    /// Reads the flag. Any holder may have written it since, so nothing is
    /// promised of the value: [`StreamParser::feed`] and
    /// [`Resegmenter::step`] say what follows from either reading.
    pub fn is_requested(&self) -> (requested: bool) {
        self.flag.load(Ordering::Relaxed)
    }
}

impl StreamParser {
    /// Takes the bytes of one network read after a look at the signal: the
    /// result is that of [`StreamParser::feed`] for the flag as it was
    /// found.
    pub fn poll(&mut self, chunk: &[u8], signal: &CancellationSignal) -> (events: Vec<LLMAnswer>)
        ensures
            exists|cancelled: bool|
                {
                    &&& final(self)@ == (#[trigger] feed_step(old(self)@, chunk@, cancelled)).0
                    &&& events_of(events@) == feed_step(old(self)@, chunk@, cancelled).1
                },
    {
        let cancelled = signal.is_requested();
        self.feed(chunk, cancelled)
    }
}

impl Resegmenter {
    /// Takes one step of the replay after a look at the signal: the result
    /// is that of [`Resegmenter::step`] for the flag as it was found.
    pub fn poll(&mut self, signal: &CancellationSignal) -> (events: Vec<LLMAnswer>)
        ensures
            exists|cancelled: bool|
                {
                    &&& final(self)@ == (#[trigger] segment_step(old(self)@, cancelled)).0
                    &&& events_of(events@) == segment_step(old(self)@, cancelled).1
                },
    {
        let cancelled = signal.is_requested();
        self.step(cancelled)
    }
}

} // verus!
