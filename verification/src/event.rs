//! What travels over the event bus to the main loop.

use vstd::prelude::*;
use crate::llm::LLMAnswer;
use crate::notification::Notification;

verus! {

/// A request to the speech service, or its outcome.
#[derive(Debug)]
pub enum TTSEvent {
    /// Speak `text`, in `voice` where one is named.
    PlayText { text: String, voice: Option<String> },
    Complete,
    Error(String),
}

/// One event of the bus. `K` and `M` are the terminal's key and mouse
/// events, which the bus carries through unread.
#[derive(Debug)]
pub enum Event<K, M> {
    Tick,
    Key(K),
    Mouse(M),
    Resize(u16, u16),
    LLMEvent(LLMAnswer),
    Notification(Notification),
    TTSEvent(TTSEvent),
}

} // verus!
