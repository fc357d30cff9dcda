use tenere::cancel::CancellationSignal;
use tenere::gemini::Resegmenter;
use tenere::llm::LLMAnswer;
use tenere::stream::{StreamParser, StreamPhase, WireFormat};

const LINE: &[u8] = b"data: {\"choices\":[{\"delta\":{\"content\":\"Hi\"}}]}\n";

#[test]
fn signal_starts_clear_and_is_shared() {
    let signal = CancellationSignal::new();
    let other = signal.share();
    assert!(!signal.is_requested() && !other.is_requested());
    other.request();
    assert!(signal.is_requested() && other.is_requested());
    signal.reset();
    assert!(!signal.is_requested() && !other.is_requested());
}

#[test]
fn signals_are_independent() {
    let one = CancellationSignal::new();
    let two = CancellationSignal::new();
    one.request();
    assert!(one.is_requested());
    assert!(!two.is_requested());
}

#[test]
fn parser_stops_when_the_signal_is_set() {
    let signal = CancellationSignal::new();
    let mut parser = StreamParser::new(WireFormat::Sse);
    parser.begin();
    let events = parser.poll(LINE, &signal);
    assert!(matches!(&events[..], [LLMAnswer::Answer(text)] if text == "Hi"));
    signal.share().request();
    let events = parser.poll(LINE, &signal);
    assert!(matches!(&events[..], [LLMAnswer::EndAnswer]));
    assert_eq!(parser.phase(), StreamPhase::Cancelled);
    signal.reset();
    assert!(parser.poll(LINE, &signal).is_empty());
}

#[test]
fn replay_stops_when_the_signal_is_set() {
    let signal = CancellationSignal::new();
    let (mut replay, _) = Resegmenter::begin(Ok(Some("abcdefghij".to_string())));
    let events = replay.poll(&signal);
    assert!(matches!(&events[..], [LLMAnswer::Answer(text)] if text == "abcde"));
    signal.request();
    let events = replay.poll(&signal);
    assert!(matches!(&events[..], [LLMAnswer::EndAnswer]));
    assert_eq!(replay.phase(), StreamPhase::Cancelled);
}
