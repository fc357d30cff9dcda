//! The client of the Gemini service.
//!
//! Gemini is reached either through its OpenAI-compatible endpoint, which
//! streams server-sent `data:` lines, or through its native endpoint, which
//! answers in one piece. A native answer is cut into short segments and
//! replayed as if it had been streamed.

use vstd::prelude::*;
use vstd::string::*;
use serde_json::Value;
use crate::config::{ConfigError, GeminiConfig};
use crate::json::{
    element, error_text, json_element, json_error_text, json_member, json_parse, json_string,
    member, parse, string_of,
};
use crate::llm::{
    bearer, bearer_token, messages_of, request_messages, text_of,
    AnswerEvent, ChatMessage, ChatRequest, LLMAnswer, LLMBackend, LLMRole, Message, LLM,
};
use crate::exchange::{closes, framed, lemma_closes_concat};
use crate::stream::{
    events_of, initial, lemma_events_of_concat, StreamParser, StreamPhase, WireFormat,
};
use crate::text::{contains, has_substring};

verus! {

/// The client of the Gemini service.
#[derive(Debug)]
pub struct Gemini {
    api_key: String,
    model: String,
    url: String,
    messages: Vec<ChatMessage>,
}

/// Who speaks in a native Gemini request, which knows no system role.
#[derive(Clone, Copy, Debug, PartialEq, Eq, Structural)]
pub enum GeminiRole {
    User,
    Model,
}

/// One turn of a native Gemini request: consecutive messages of one speaker.
#[derive(Debug)]
pub struct GeminiContent {
    pub role: GeminiRole,
    pub parts: Vec<String>,
}

/// Mathematical model of a [`GeminiContent`].
pub struct Turn {
    pub role: GeminiRole,
    pub parts: Seq<Seq<char>>,
}

impl View for GeminiContent {
    type V = Turn;

    open spec fn view(&self) -> Turn {
        Turn { role: self.role, parts: Seq::new(self.parts@.len(), |i: int| self.parts@[i]@) }
    }
}

/// The models of a list of turns.
pub open spec fn turns_of(contents: Seq<GeminiContent>) -> Seq<Turn> {
    Seq::new(contents.len(), |i: int| contents[i]@)
}

/// What a native request asks the transport to send.
#[derive(Debug)]
pub struct GeminiRequest {
    pub url: String,
    pub contents: Vec<GeminiContent>,
}

impl GeminiRole {
    /// The tag under which the speaker travels on the wire.
    pub open spec fn tag(self) -> Seq<char> {
        match self {
            GeminiRole::User => "user"@,
            GeminiRole::Model => "model"@,
        }
    }

    /// Renders the speaker as its wire tag.
    pub fn to_string(&self) -> (s: String)
        ensures
            s@ == self.tag(),
    {
        match self {
            GeminiRole::User => String::from_str("user"),
            GeminiRole::Model => String::from_str("model"),
        }
    }
}

/// The speaker a chat role maps to: only the assistant speaks as the model.
pub open spec fn speaker_of(role: LLMRole) -> GeminiRole {
    match role {
        LLMRole::ASSISTANT => GeminiRole::Model,
        _ => GeminiRole::User,
    }
}

/// The messages gathered into turns: every maximal run of consecutive
/// messages of one speaker becomes one turn that holds their texts in order.
pub open spec fn turns(messages: Seq<Message>) -> Seq<Turn>
    decreases messages.len(),
{
    if messages.len() == 0 {
        Seq::empty()
    } else {
        let before = turns(messages.drop_last());
        let message = messages.last();
        if before.len() > 0 && before.last().role == speaker_of(message.role) {
            before.drop_last().push(
                Turn { role: before.last().role, parts: before.last().parts.push(message.content) },
            )
        } else {
            before.push(Turn { role: speaker_of(message.role), parts: seq![message.content] })
        }
    }
}

/// Whether some message was written by the system.
pub open spec fn has_system_message(messages: Seq<Message>) -> bool {
    exists|i: int| 0 <= i < messages.len() && (#[trigger] messages[i]).role == LLMRole::SYSTEM
}

/// The two turns that stand in for a system instruction.
pub open spec fn preamble() -> Seq<Turn> {
    seq![
        Turn { role: GeminiRole::User, parts: seq!["You are a helpful assistant."@] },
        Turn { role: GeminiRole::Model, parts: seq!["I'm a helpful assistant."@] },
    ]
}

/// The contents of a native request: the preamble unless the context holds
/// a system message of its own, then the context gathered into turns.
pub open spec fn native_contents(messages: Seq<Message>) -> Seq<Turn> {
    if has_system_message(messages) {
        turns(messages)
    } else {
        preamble() + turns(messages)
    }
}

/// The text under `candidates[0].content.parts[0].text`, where that path
/// leads to a JSON string.
pub open spec fn gemini_text_of(value: Value) -> Option<Seq<char>> {
    match json_member(value, "candidates"@) {
        Some(candidates) => match json_element(candidates, 0) {
            Some(candidate) => match json_member(candidate, "content"@) {
                Some(content) => match json_member(content, "parts"@) {
                    Some(parts) => match json_element(parts, 0) {
                        Some(part) => match json_member(part, "text"@) {
                            Some(text) => json_string(text),
                            None => None,
                        },
                        None => None,
                    },
                    None => None,
                },
                None => None,
            },
            None => None,
        },
        None => None,
    }
}

/// The address of the native endpoint for `model` below `base`.
pub open spec fn generate_url(base: Seq<char>, model: Seq<char>) -> Seq<char> {
    base + "/"@ + model + ":generateContent"@
}

/// `url` with the API key as a query parameter.
pub open spec fn keyed_url(url: Seq<char>, key: Seq<char>) -> Seq<char> {
    if has_substring(url, "?"@) {
        url + "&key="@ + key
    } else {
        url + "?key="@ + key
    }
}

impl Gemini {
    /// The address requests are posted to.
    pub closed spec fn endpoint(&self) -> Seq<char> {
        self.url@
    }

    /// The model requests ask for.
    pub closed spec fn model_name(&self) -> Seq<char> {
        self.model@
    }

    /// The API key requests are signed with.
    pub closed spec fn key(&self) -> Seq<char> {
        self.api_key@
    }

    /// The key that is used: the one found in the environment, else the
    /// configured one.
    pub open spec fn chosen_key(config: GeminiConfig, env_key: Option<String>) -> Option<
        Seq<char>,
    > {
        match env_key {
            Some(key) => Some(key@),
            None => text_of(config.gemini_api_key),
        }
    }

    /// The base address that is used: the configured one, or the default
    /// where none is configured.
    pub open spec fn chosen_base(config: GeminiConfig) -> Seq<char> {
        if config.url@.len() == 0 {
            "https://generativelanguage.googleapis.com/v1beta/models"@
        } else {
            config.url@
        }
    }

    /// Reads the answer text out of a native response.
    pub fn extract_text_from_gemini_response(json_response: &Value) -> (text: Option<String>)
        ensures
            text_of(text) == gemini_text_of(*json_response),
    {
        let candidates = match member(json_response, "candidates") {
            Some(v) => v,
            None => return None,
        };
        let candidate = match element(candidates, 0) {
            Some(v) => v,
            None => return None,
        };
        let content = match member(candidate, "content") {
            Some(v) => v,
            None => return None,
        };
        let parts = match member(content, "parts") {
            Some(v) => v,
            None => return None,
        };
        let part = match element(parts, 0) {
            Some(v) => v,
            None => return None,
        };
        let text = match member(part, "text") {
            Some(v) => v,
            None => return None,
        };
        string_of(text)
    }

    /// Builds the client. `env_key` is the API key found in the environment,
    /// if any; without any key the client cannot be built.
    pub fn new(config: GeminiConfig, env_key: Option<String>) -> (client: Result<
        Gemini,
        ConfigError,
    >)
        ensures
            match client {
                Ok(client) => {
                    &&& Gemini::chosen_key(config, env_key) == Some(client.key())
                    &&& client.endpoint() == generate_url(
                        Gemini::chosen_base(config),
                        config.model@,
                    )
                    &&& client.model_name() == config.model@
                    &&& client.context() == Seq::<Message>::empty()
                },
                Err(error) => {
                    &&& Gemini::chosen_key(config, env_key) is None
                    &&& error == ConfigError::MissingApiKey(LLMBackend::Gemini)
                },
            },
    {
        let api_key = match env_key {
            Some(key) => key,
            None => match config.gemini_api_key {
                Some(key) => key,
                None => return Err(ConfigError::MissingApiKey(LLMBackend::Gemini)),
            },
        };
        let mut url = if config.url.as_str().is_empty() {
            GeminiConfig::default_url()
        } else {
            config.url
        };
        url.append("/");
        url.append(config.model.as_str());
        url.append(":generateContent");
        let client = Gemini { api_key, model: config.model, url, messages: Vec::new() };
        assert(messages_of(client.messages@) =~= Seq::<Message>::empty());
        Ok(client)
    }

    /// Whether the endpoint is the OpenAI-compatible one, which shows in its
    /// address.
    pub fn speaks_openai(&self) -> (yes: bool)
        ensures
            yes == has_substring(self.endpoint(), "openai"@),
    {
        contains(self.url.as_str(), "openai")
    }

    /// A parser for the answer to one request to the OpenAI-compatible
    /// endpoint, which streams server-sent events whose payloads are found by
    /// pattern.
    pub fn parser(&self) -> (parser: StreamParser)
        ensures
            parser@ == initial(WireFormat::SsePattern),
    {
        StreamParser::new(WireFormat::SsePattern)
    }

    /// The request to the OpenAI-compatible endpoint: it carries the context
    /// as it stands, message for message.
    pub fn request(&self) -> (request: ChatRequest)
        ensures
            request.url@ == self.endpoint(),
            text_of(request.authorization) == Some(bearer(self.key())),
            text_of(request.model) == Some(self.model_name()),
            messages_of(request.messages@) == self.context(),
            request.stream,
    {
        ChatRequest {
            url: self.url.clone(),
            authorization: Some(bearer_token(self.api_key.as_str())),
            model: Some(self.model.clone()),
            messages: request_messages(&self.messages),
            stream: true,
        }
    }

    /// The request to the native endpoint: the key travels in the address,
    /// the context as turns.
    pub fn native_request(&self) -> (request: GeminiRequest)
        ensures
            request.url@ == keyed_url(self.endpoint(), self.key()),
            turns_of(request.contents@) == native_contents(self.context()),
    {
        let mut url = self.url.clone();
        if contains(self.url.as_str(), "?") {
            url.append("&key=");
        } else {
            url.append("?key=");
        }
        url.append(self.api_key.as_str());
        GeminiRequest { url, contents: self.convert_messages_to_gemini_format() }
    }

    /// Gathers the context into the turns of a native request.
    pub fn convert_messages_to_gemini_format(&self) -> (contents: Vec<GeminiContent>)
        ensures
            turns_of(contents@) == native_contents(self.context()),
    {
        let ghost context = messages_of(self.messages@);
        let mut has_system = false;
        let mut i: usize = 0;
        while i < self.messages.len()
            invariant
                0 <= i <= self.messages.len(),
                context == messages_of(self.messages@),
                has_system == has_system_message(context.take(i as int)),
            decreases self.messages.len() - i,
        {
            let ghost seen = context.take(i as int);
            let ghost next = context.take(i + 1);
            proof {
                assert(next.drop_last() =~= seen);
                if has_system_message(seen) {
                    let k = choose|k: int|
                        0 <= k < seen.len() && (#[trigger] seen[k]).role == LLMRole::SYSTEM;
                    assert(next[k].role == LLMRole::SYSTEM);
                }
                if has_system_message(next) {
                    let k = choose|k: int|
                        0 <= k < next.len() && (#[trigger] next[k]).role == LLMRole::SYSTEM;
                    if k < i {
                        assert(seen[k].role == LLMRole::SYSTEM);
                    }
                }
                assert(next[i as int] == context[i as int]);
            }
            if self.messages[i].role == LLMRole::SYSTEM {
                has_system = true;
            }
            i = i + 1;
        }
        assert(context.take(i as int) =~= context);
        let mut contents: Vec<GeminiContent> = Vec::new();
        if !has_system {
            let mut user_parts: Vec<String> = Vec::new();
            user_parts.push(String::from_str("You are a helpful assistant."));
            contents.push(GeminiContent { role: GeminiRole::User, parts: user_parts });
            let mut model_parts: Vec<String> = Vec::new();
            model_parts.push(String::from_str("I'm a helpful assistant."));
            contents.push(GeminiContent { role: GeminiRole::Model, parts: model_parts });
            assert(contents@[0]@.parts =~= seq!["You are a helpful assistant."@]);
            assert(contents@[1]@.parts =~= seq!["I'm a helpful assistant."@]);
            assert(turns_of(contents@) =~= preamble());
        } else {
            assert(turns_of(contents@) =~= Seq::<Turn>::empty());
        }
        let ghost lead = turns_of(contents@);
        let mut groups: Vec<GeminiContent> = Vec::new();
        assert(turns_of(groups@) =~= turns(context.take(0)));
        let mut j: usize = 0;
        while j < self.messages.len()
            invariant
                0 <= j <= self.messages.len(),
                context == messages_of(self.messages@),
                turns_of(groups@) == turns(context.take(j as int)),
            decreases self.messages.len() - j,
        {
            let ghost before = turns_of(groups@);
            let ghost next = context.take(j + 1);
            proof {
                assert(next.drop_last() =~= context.take(j as int));
                assert(next.last() == context[j as int]);
            }
            let speaker = match self.messages[j].role {
                LLMRole::ASSISTANT => GeminiRole::Model,
                _ => GeminiRole::User,
            };
            let text = self.messages[j].content.clone();
            let joins = groups.len() > 0 && groups[groups.len() - 1].role == speaker;
            if joins {
                let mut last = groups.pop().unwrap();
                let ghost held = last@;
                last.parts.push(text);
                assert(last@.parts =~= held.parts.push(text@));
                groups.push(last);
                assert(turns_of(groups@) =~= before.drop_last().push(
                    Turn { role: held.role, parts: held.parts.push(text@) },
                ));
            } else {
                let mut parts: Vec<String> = Vec::new();
                parts.push(text);
                let content = GeminiContent { role: speaker, parts };
                assert(content@.parts =~= seq![text@]);
                groups.push(content);
                assert(turns_of(groups@) =~= before.push(
                    Turn { role: speaker, parts: seq![text@] },
                ));
            }
            j = j + 1;
        }
        assert(context.take(j as int) =~= context);
        let ghost tail = turns_of(groups@);
        contents.append(&mut groups);
        assert(turns_of(contents@) =~= lead + tail);
        contents
    }
}

impl LLM for Gemini {
    closed spec fn context(&self) -> Seq<Message> {
        messages_of(self.messages@)
    }

    fn append_chat_msg(&mut self, msg: String, role: LLMRole)
        ensures
            final(self).endpoint() == old(self).endpoint(),
            final(self).model_name() == old(self).model_name(),
            final(self).key() == old(self).key(),
    {
        self.messages.push(ChatMessage { role, content: msg });
        assert(messages_of(self.messages@) =~= messages_of(old(self).messages@).push(
            Message { role, content: msg@ },
        ));
    }

    fn clear(&mut self)
        ensures
            final(self).endpoint() == old(self).endpoint(),
            final(self).model_name() == old(self).model_name(),
            final(self).key() == old(self).key(),
    {
        self.messages.clear();
        assert(messages_of(self.messages@) =~= Seq::<Message>::empty());
    }
}

/// How many characters one replayed segment holds at most.
pub const SEGMENT_CHARS: usize = 5;

/// Mathematical model of a [`Resegmenter`].
pub struct ReplayState {
    pub phase: StreamPhase,
    /// The whole answer.
    pub text: Seq<char>,
    /// How many characters of it have been replayed.
    pub offset: int,
}

/// The events a replay step emits together with the state it leaves.
pub type ReplayStep = (ReplayState, Seq<AnswerEvent>);

/// A replay that has ended in `phase`.
pub open spec fn replay_ended(phase: StreamPhase) -> ReplayState {
    ReplayState { phase, text: Seq::empty(), offset: 0 }
}

/// The answer that is closed at once after a failure described by `message`.
pub open spec fn failed_step(message: Seq<char>) -> ReplayStep {
    (
        replay_ended(StreamPhase::Completed),
        seq![AnswerEvent::Start, AnswerEvent::Chunk(message), AnswerEvent::End],
    )
}

/// The start of a replay of the native response `body`: a body that is not
/// JSON, or that holds no answer text, is reported in place of an answer.
pub open spec fn open_step(body: Seq<char>) -> ReplayStep {
    match json_parse(body) {
        Ok(value) => match gemini_text_of(value) {
            Some(text) => (
                ReplayState { phase: StreamPhase::Streaming, text, offset: 0 },
                seq![AnswerEvent::Start],
            ),
            None => failed_step("Error: Unable to parse Gemini response"@),
        },
        Err(error) => failed_step(json_error_text(error)),
    }
}

/// Where the segment that starts at `offset` ends.
pub open spec fn segment_end(text: Seq<char>, offset: int) -> int {
    if offset + SEGMENT_CHARS <= text.len() {
        offset + SEGMENT_CHARS
    } else {
        text.len() as int
    }
}

/// One step of a replay. The cancellation flag is looked at first; then the
/// next segment is forwarded as it is; after the last segment
/// the answer is closed.
pub open spec fn segment_step(state: ReplayState, cancelled: bool) -> ReplayStep {
    if state.phase != StreamPhase::Streaming {
        (state, Seq::empty())
    } else if cancelled {
        (replay_ended(StreamPhase::Cancelled), seq![AnswerEvent::End])
    } else if state.offset >= state.text.len() {
        (replay_ended(StreamPhase::Completed), seq![AnswerEvent::End])
    } else {
        let end = segment_end(state.text, state.offset);
        let segment = state.text.subrange(state.offset, end);
        (
            ReplayState { offset: end, ..state },
            seq![AnswerEvent::Chunk(segment)],
        )
    }
}

/// Whether the cancellation flag is set at step `index`, given the first
/// step at which it was found set.
pub open spec fn cancelled_at(cancel_at: Option<usize>, index: int) -> bool {
    cancel_at matches Some(first) && first <= index
}

/// How many steps a well-formed replay in `state` has ahead of it at most.
pub open spec fn steps_left(state: ReplayState) -> int {
    if state.phase == StreamPhase::Streaming && 0 <= state.offset <= state.text.len() {
        state.text.len() - state.offset + 1
    } else {
        0
    }
}

/// Everything a replay emits from step `index` on.
pub open spec fn replay_from(state: ReplayState, index: int, cancel_at: Option<usize>) -> Seq<
    AnswerEvent,
>
    decreases steps_left(state),
{
    if steps_left(state) > 0 {
        let (next, head) = segment_step(state, cancelled_at(cancel_at, index));
        head + replay_from(next, index + 1, cancel_at)
    } else {
        Seq::empty()
    }
}

/// Everything the replay of the native response `body` emits.
pub open spec fn simulated(body: Seq<char>, cancel_at: Option<usize>) -> Seq<AnswerEvent> {
    let (state, start) = open_step(body);
    start + replay_from(state, 0, cancel_at)
}

/// A replay that is under way emits segments and then closes the answer.
pub proof fn lemma_replay_closes(state: ReplayState, index: int, cancel_at: Option<usize>)
    requires
        steps_left(state) > 0,
    ensures
        closes(replay_from(state, index, cancel_at)),
    decreases steps_left(state),
{
    let (next, head) = segment_step(state, cancelled_at(cancel_at, index));
    let tail = replay_from(next, index + 1, cancel_at);
    if steps_left(next) > 0 {
        lemma_replay_closes(next, index + 1, cancel_at);
        lemma_closes_concat(head, tail);
    } else {
        assert(head + tail =~= head);
        assert(head.drop_last() =~= Seq::<AnswerEvent>::empty());
    }
}

/// Whatever the native endpoint answered and whenever cancellation is
/// observed, the consumer of a replay sees exactly one `Start`, then only
/// chunks of text, then exactly one `End`.
pub proof fn law_replay_is_framed(body: Seq<char>, cancel_at: Option<usize>)
    ensures
        framed(simulated(body, cancel_at)),
{
    let (state, start) = open_step(body);
    let rest = replay_from(state, 0, cancel_at);
    let all = start + rest;
    if state.phase == StreamPhase::Streaming {
        lemma_replay_closes(state, 0, cancel_at);
        assert(all.last() == rest.last());
        assert forall|i: int| 0 < i < all.len() - 1 implies all[i] is Chunk by {
            assert(all[i] == rest.drop_last()[i - 1]);
        }
    } else {
        assert(all =~= start);
    }
}

/// The texts of the chunks among `events`, joined in order.
pub open spec fn chunk_text(events: Seq<AnswerEvent>) -> Seq<char>
    decreases events.len(),
{
    if events.len() == 0 {
        Seq::empty()
    } else {
        (match events[0] {
            AnswerEvent::Chunk(text) => text,
            _ => Seq::empty(),
        }) + chunk_text(events.drop_first())
    }
}

/// The chunk text of two runs of events is the chunk text of the first
/// followed by that of the second.
pub proof fn lemma_chunk_text_concat(first: Seq<AnswerEvent>, second: Seq<AnswerEvent>)
    ensures
        chunk_text(first + second) == chunk_text(first) + chunk_text(second),
    decreases first.len(),
{
    if first.len() == 0 {
        assert(first + second =~= second);
        assert(chunk_text(first) + chunk_text(second) =~= chunk_text(second));
    } else {
        assert((first + second).drop_first() =~= first.drop_first() + second);
        lemma_chunk_text_concat(first.drop_first(), second);
        let head = match first[0] {
            AnswerEvent::Chunk(text) => text,
            _ => Seq::empty(),
        };
        assert(head + (chunk_text(first.drop_first()) + chunk_text(second)) =~= (head
            + chunk_text(first.drop_first())) + chunk_text(second));
    }
}

/// A replay that is not cancelled forwards, chunk by chunk, exactly the
/// text that is left.
pub proof fn lemma_replay_rejoins(state: ReplayState, index: int)
    requires
        steps_left(state) > 0,
    ensures
        chunk_text(replay_from(state, index, None)) == state.text.subrange(
            state.offset,
            state.text.len() as int,
        ),
    decreases steps_left(state),
{
    let (next, head) = segment_step(state, false);
    let tail = replay_from(next, index + 1, None);
    lemma_chunk_text_concat(head, tail);
    reveal_with_fuel(chunk_text, 2);
    if state.offset >= state.text.len() {
        assert(tail =~= Seq::<AnswerEvent>::empty());
        assert(chunk_text(head) =~= Seq::<char>::empty());
        assert(chunk_text(head) + chunk_text(tail) =~= state.text.subrange(
            state.offset,
            state.text.len() as int,
        ));
    } else {
        let end = segment_end(state.text, state.offset);
        let segment = state.text.subrange(state.offset, end);
        assert(head.drop_first() =~= Seq::<AnswerEvent>::empty());
        assert(chunk_text(head) =~= segment);
        lemma_replay_rejoins(next, index + 1);
        assert(segment + state.text.subrange(end, state.text.len() as int)
            =~= state.text.subrange(state.offset, state.text.len() as int));
    }
}

/// A step that is not cancelled forwards one segment of five characters, or
/// of what is left of the answer where that is less, and moves on by its
/// length.
pub proof fn law_segments_are_full(state: ReplayState)
    requires
        state.phase == StreamPhase::Streaming,
        0 <= state.offset < state.text.len(),
    ensures
        ({
            let (next, events) = segment_step(state, false);
            let left = state.text.len() - state.offset;
            &&& events.len() == 1
            &&& events[0] matches AnswerEvent::Chunk(segment)
            &&& segment.len() == if left >= SEGMENT_CHARS {
                SEGMENT_CHARS as int
            } else {
                left
            }
            &&& segment == state.text.subrange(state.offset, state.offset + segment.len())
            &&& next.offset == state.offset + segment.len()
            &&& next.phase == StreamPhase::Streaming
        }),
{
}

/// The replay of an answer that is not cancelled forwards the whole answer
/// and nothing else: the chunks joined in order are the answer text.
pub proof fn law_replay_rejoins(body: Seq<char>)
    requires
        open_step(body).0.phase == StreamPhase::Streaming,
    ensures
        chunk_text(simulated(body, None)) == open_step(body).0.text,
{
    let (state, start) = open_step(body);
    let rest = replay_from(state, 0, None);
    lemma_chunk_text_concat(start, rest);
    lemma_replay_rejoins(state, 0);
    reveal_with_fuel(chunk_text, 2);
    assert(start.drop_first() =~= Seq::<AnswerEvent>::empty());
    assert(chunk_text(start) =~= Seq::<char>::empty());
    assert(state.text.subrange(0, state.text.len() as int) =~= state.text);
    assert(chunk_text(start) + chunk_text(rest) =~= state.text);
}

/// Where the cancellation flag is already set at the first step, the
/// consumer of a replay of an answer sees `Start` and `End` and no text.
pub proof fn law_replay_cancelled_at_once(body: Seq<char>, cancel_at: Option<usize>)
    requires
        cancel_at == Some(0usize),
        open_step(body).0.phase == StreamPhase::Streaming,
    ensures
        simulated(body, cancel_at) == seq![AnswerEvent::Start, AnswerEvent::End],
{
    let (state, start) = open_step(body);
    let (next, head) = segment_step(state, true);
    assert(replay_from(next, 1, cancel_at) =~= Seq::<AnswerEvent>::empty());
    assert(simulated(body, cancel_at) =~= seq![AnswerEvent::Start, AnswerEvent::End]);
}

/// Replays an answer that arrived in one piece as a stream of short
/// segments.
#[derive(Debug)]
pub struct Resegmenter {
    phase: StreamPhase,
    text: String,
    length: usize,
    offset: usize,
}

impl View for Resegmenter {
    type V = ReplayState;

    closed spec fn view(&self) -> ReplayState {
        ReplayState { phase: self.phase, text: self.text@, offset: self.offset as int }
    }
}

impl Resegmenter {
    #[verifier::type_invariant]
    spec fn well_formed(&self) -> bool {
        self.length == self.text@.len() && self.offset <= self.length
    }

    /// Where the replay stands.
    pub fn phase(&self) -> (phase: StreamPhase)
        ensures
            phase == self@.phase,
    {
        self.phase
    }

    /// Closes the answer at once with a report of the failure `message`.
    pub fn failed(message: String) -> (opened: (Resegmenter, Vec<LLMAnswer>))
        ensures
            opened.0@ == failed_step(message@).0,
            events_of(opened.1@) == failed_step(message@).1,
    {
        let replay = Resegmenter {
            phase: StreamPhase::Completed,
            text: String::new(),
            length: 0,
            offset: 0,
        };
        let mut events: Vec<LLMAnswer> = Vec::new();
        events.push(LLMAnswer::StartAnswer);
        events.push(LLMAnswer::Answer(message));
        events.push(LLMAnswer::EndAnswer);
        assert(events_of(events@) =~= failed_step(message@).1);
        (replay, events)
    }

    /// Applies the reading `parsed` of a native response body: with answer
    /// text the replay begins, without it the failure is reported.
    pub fn begin(parsed: Result<Option<String>, String>) -> (opened: (Resegmenter, Vec<LLMAnswer>))
        ensures
            match parsed {
                Ok(Some(text)) => {
                    &&& opened.0@ == (ReplayState {
                        phase: StreamPhase::Streaming,
                        text: text@,
                        offset: 0,
                    })
                    &&& events_of(opened.1@) == seq![AnswerEvent::Start]
                },
                Ok(None) => {
                    &&& opened.0@ == failed_step("Error: Unable to parse Gemini response"@).0
                    &&& events_of(opened.1@) == failed_step(
                        "Error: Unable to parse Gemini response"@,
                    ).1
                },
                Err(message) => {
                    &&& opened.0@ == failed_step(message@).0
                    &&& events_of(opened.1@) == failed_step(message@).1
                },
            },
    {
        match parsed {
            Ok(Some(text)) => {
                let length = text.as_str().unicode_len();
                let replay = Resegmenter {
                    phase: StreamPhase::Streaming,
                    text,
                    length,
                    offset: 0,
                };
                let mut events: Vec<LLMAnswer> = Vec::new();
                events.push(LLMAnswer::StartAnswer);
                assert(events_of(events@) =~= seq![AnswerEvent::Start]);
                (replay, events)
            },
            Ok(None) => Resegmenter::failed(
                String::from_str("Error: Unable to parse Gemini response"),
            ),
            Err(message) => Resegmenter::failed(message),
        }
    }

    /// Starts the replay of the native response `body`.
    pub fn open(body: &str) -> (opened: (Resegmenter, Vec<LLMAnswer>))
        ensures
            opened.0@ == open_step(body@).0,
            events_of(opened.1@) == open_step(body@).1,
    {
        let parsed = match parse(body) {
            Ok(value) => Ok(Gemini::extract_text_from_gemini_response(&value)),
            Err(error) => Err(error_text(&error)),
        };
        Resegmenter::begin(parsed)
    }

    /// Takes one step of the replay. `cancelled` is the cancellation flag as
    /// read before the step.
    pub fn step(&mut self, cancelled: bool) -> (events: Vec<LLMAnswer>)
        ensures
            final(self)@ == segment_step(old(self)@, cancelled).0,
            events_of(events@) == segment_step(old(self)@, cancelled).1,
            steps_left(old(self)@) > 0 ==> steps_left(final(self)@) < steps_left(old(self)@),
            old(self)@.phase == StreamPhase::Streaming ==> steps_left(old(self)@) > 0,
    {
        proof {
            use_type_invariant(&*self);
        }
        let mut events: Vec<LLMAnswer> = Vec::new();
        if self.phase != StreamPhase::Streaming {
            assert(events_of(events@) =~= Seq::<AnswerEvent>::empty());
            return events;
        }
        if cancelled || self.offset >= self.length {
            let phase = if cancelled {
                StreamPhase::Cancelled
            } else {
                StreamPhase::Completed
            };
            *self = Resegmenter { phase, text: String::new(), length: 0, offset: 0 };
            events.push(LLMAnswer::EndAnswer);
            assert(events_of(events@) =~= seq![AnswerEvent::End]);
            return events;
        }
        let end = if self.length - self.offset >= SEGMENT_CHARS {
            self.offset + SEGMENT_CHARS
        } else {
            self.length
        };
        let segment = self.text.as_str().substring_char(self.offset, end);
        events.push(LLMAnswer::Answer(String::from_str(segment)));
        self.offset = end;
        assert(events_of(events@) =~= segment_step(old(self)@, cancelled).1);
        events
    }
}

/// Replays the native response `body` to its end and returns everything
/// that is emitted, in order. `cancel_at` is the first step before which the
/// cancellation flag was found set.
pub fn simulate(body: &str, cancel_at: Option<usize>) -> (events: Vec<LLMAnswer>)
    ensures
        events_of(events@) == simulated(body@, cancel_at),
        framed(events_of(events@)),
{
    let (mut replay, mut events) = Resegmenter::open(body);
    let mut index: usize = 0;
    while replay.phase() == StreamPhase::Streaming
        invariant
            simulated(body@, cancel_at) == events_of(events@) + replay_from(
                replay@,
                index as int,
                cancel_at,
            ),
            replay@.phase == StreamPhase::Streaming ==> index <= replay@.offset,
        decreases steps_left(replay@),
    {
        let cancelled = match cancel_at {
            Some(first) => first <= index,
            None => false,
        };
        let ghost emitted = events_of(events@);
        let mut head = replay.step(cancelled);
        proof {
            lemma_events_of_concat(events@, head@);
            let tail = replay_from(replay@, index + 1, cancel_at);
            assert(emitted + (events_of(head@) + tail) =~= (emitted + events_of(head@)) + tail);
        }
        events.append(&mut head);
        if replay.phase() == StreamPhase::Streaming {
            index = index + 1;
        } else {
            assert(replay_from(replay@, index as int, cancel_at) =~= replay_from(
                replay@,
                index + 1,
                cancel_at,
            ));
        }
    }
    proof {
        assert(events_of(events@) + Seq::<AnswerEvent>::empty() =~= events_of(events@));
        law_replay_is_framed(body@, cancel_at);
    }
    events
}

} // verus!
