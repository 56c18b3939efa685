//! Streaming speech-to-text: the connection parameters, the messages, and
//! the session that turns both into transcript events.

use crate::clock::Instant;
use crate::events::{EventModel, PipelineEvent, TrackId};
use crate::json::{json_node, read_node, JsonNode, NodeModel};
use crate::pcm::i16_le_bytes;
use crate::text::{decimal_text, same_text, text_view, trim_text};
use crate::transcript::{
    BufferInput, BufferModel, BufferOutput, OutputModel, TranscriptBuffer, TranscriptBufferConfig,
};
use vstd::prelude::*;
use vstd::string::*;

verus! {

broadcast use vstd::string::group_string_axioms;

/// Parameters of a streaming connection.
#[derive(Debug, Clone)]
pub struct DeepgramConfig {
    pub api_key: String,
    pub model: String,
    /// Language code, or `"multi"` for automatic detection within the stream.
    pub language: String,
    pub sample_rate: u32,
    pub channels: u16,
    pub interim_results: bool,
    pub endpointing_ms: u32,
    pub utterance_end_ms: u32,
    pub smart_format: bool,
    pub punctuate: bool,
    pub endpoint: String,
}

/// Whether a configuration has the default parameters, with the given key and language.
pub open spec fn default_stream(cfg: DeepgramConfig, api_key: Seq<char>, language: Seq<char>) -> bool {
    &&& cfg.api_key@ == api_key
    &&& cfg.model@ == "nova-3"@
    &&& cfg.language@ == language
    &&& cfg.sample_rate == 16_000
    &&& cfg.channels == 1
    &&& cfg.interim_results
    &&& cfg.endpointing_ms == 300
    &&& cfg.utterance_end_ms == 1000
    &&& cfg.smart_format
    &&& cfg.punctuate
    &&& cfg.endpoint@ == "wss://api.deepgram.com/v1/listen"@
}

/// The word for a truth value.
pub open spec fn bool_word(b: bool) -> Seq<char> {
    if b {
        "true"@
    } else {
        "false"@
    }
}

/// The query parameters of a connection, in their order.
pub open spec fn stream_params(cfg: DeepgramConfig) -> Seq<(Seq<char>, Seq<char>)> {
    seq![
        ("model"@, cfg.model@),
        ("language"@, cfg.language@),
        ("encoding"@, "linear16"@),
        ("sample_rate"@, crate::text::decimal(cfg.sample_rate as nat)),
        ("channels"@, crate::text::decimal(cfg.channels as nat)),
        ("interim_results"@, bool_word(cfg.interim_results)),
        ("endpointing"@, crate::text::decimal(cfg.endpointing_ms as nat)),
        ("utterance_end_ms"@, crate::text::decimal(cfg.utterance_end_ms as nat)),
        ("smart_format"@, bool_word(cfg.smart_format)),
        ("punctuate"@, bool_word(cfg.punctuate)),
    ]
}

/// Query parameters as `name=value`, with `&` between them.
pub open spec fn query_text(params: Seq<(Seq<char>, Seq<char>)>) -> Seq<char> {
    crate::text::joined(
        params.map_values(|p: (Seq<char>, Seq<char>)| p.0 + "="@ + p.1),
        "&"@,
    )
}

impl DeepgramConfig {
    /// Default parameters: `language=multi`, which detects the language
    /// within the stream.
    pub fn with_detect_language(api_key: String) -> (r: DeepgramConfig)
        ensures
            default_stream(r, api_key@, "multi"@),
    {
        DeepgramConfig {
            api_key,
            model: "nova-3".to_owned(),
            language: "multi".to_owned(),
            sample_rate: 16_000,
            channels: 1,
            interim_results: true,
            endpointing_ms: 300,
            utterance_end_ms: 1000,
            smart_format: true,
            punctuate: true,
            endpoint: "wss://api.deepgram.com/v1/listen".to_owned(),
        }
    }

    /// Default parameters with a fixed language code.
    pub fn with_language(api_key: String, language: &str) -> (r: DeepgramConfig)
        ensures
            default_stream(r, api_key@, language@),
    {
        let mut r: DeepgramConfig = DeepgramConfig::with_detect_language(api_key);
        r.language = language.to_owned();
        r
    }

    /// The address to connect to: the endpoint, and behind a question mark
    /// the query parameters.
    pub fn build_url(&self) -> (r: String)
        ensures
            r@ == self.endpoint@ + "?"@ + query_text(stream_params(*self)),
    {
        let mut names: Vec<&str> = Vec::new();
        let mut values: Vec<String> = Vec::new();
        names.push("model");
        values.push(self.model.clone());
        names.push("language");
        values.push(self.language.clone());
        names.push("encoding");
        values.push("linear16".to_owned());
        names.push("sample_rate");
        values.push(decimal_text(self.sample_rate as u64));
        names.push("channels");
        values.push(decimal_text(self.channels as u64));
        names.push("interim_results");
        values.push(bool_str(self.interim_results).to_owned());
        names.push("endpointing");
        values.push(decimal_text(self.endpointing_ms as u64));
        names.push("utterance_end_ms");
        values.push(decimal_text(self.utterance_end_ms as u64));
        names.push("smart_format");
        values.push(bool_str(self.smart_format).to_owned());
        names.push("punctuate");
        values.push(bool_str(self.punctuate).to_owned());
        let ghost params = stream_params(*self);
        let ghost parts = params.map_values(|p: (Seq<char>, Seq<char>)| p.0 + "="@ + p.1);
        let mut url: String = self.endpoint.clone();
        url.append("?");
        let ghost head = url@;
        let n: usize = names.len();
        for i in 0..n
            invariant
                n == 10,
                names@.len() == 10,
                values@.len() == 10,
                params.len() == 10,
                parts == params.map_values(|p: (Seq<char>, Seq<char>)| p.0 + "="@ + p.1),
                forall|j: int|
                    0 <= j < 10 ==> #[trigger] params[j] == (names@[j]@, values@[j]@),
                url@ == head + crate::text::joined(parts.take(i as int), "&"@),
        {
            if i > 0 {
                url.append("&");
            }
            url.append(names[i]);
            url.append("=");
            url.append(values[i].as_str());
            proof {
                let before = parts.take(i as int);
                let part = names@[i as int]@ + "="@ + values@[i as int]@;
                assert(params[i as int] == (names@[i as int]@, values@[i as int]@));
                assert(parts[i as int] == part);
                assert(parts.take(i + 1) =~= before.push(part));
                crate::text::lemma_joined_push(before, "&"@, part);
                if i > 0 {
                    assert(url@ =~= head + (crate::text::joined(before, "&"@) + "&"@ + part));
                } else {
                    assert(url@ =~= head + part);
                }
            }
        }
        assert(parts.take(10) =~= parts);
        url
    }
}

/// The authorization header of a connection.
pub fn stream_auth_header(cfg: &DeepgramConfig) -> (r: String)
    ensures
        r@ == "Token "@ + cfg.api_key@,
{
    let mut out: String = "Token ".to_owned();
    out.append(cfg.api_key.as_str());
    out
}

/// The word for a truth value.
pub fn bool_str(b: bool) -> (r: &'static str)
    ensures
        r@ == bool_word(b),
{
    if b {
        "true"
    } else {
        "false"
    }
}

/// One hypothesis of a result.
#[derive(Debug)]
pub struct Alternative {
    pub transcript: String,
}

/// The hypotheses of a channel.
#[derive(Debug)]
pub struct Channel {
    pub alternatives: Vec<Alternative>,
}

/// A transcript result.
#[derive(Debug)]
pub struct ResultsMsg {
    pub is_final: bool,
    pub speech_final: bool,
    pub channel: Channel,
}

/// What a [`ResultsMsg`] says.
pub struct ResultsModel {
    pub is_final: bool,
    pub speech_final: bool,
    pub transcripts: Seq<Seq<char>>,
}

impl View for ResultsMsg {
    type V = ResultsModel;

    open spec fn view(&self) -> ResultsModel {
        ResultsModel {
            is_final: self.is_final,
            speech_final: self.speech_final,
            transcripts: self.channel.alternatives@.map_values(|a: Alternative| a.transcript@),
        }
    }
}

/// The only field of a record that is written as an object with that member,
/// or as an array of that one element.
pub open spec fn sole_field(text: Seq<char>, name: Seq<char>) -> Option<Seq<char>> {
    match json_node(text) {
        Some(NodeModel::Object(members)) => crate::json::find_member(members, name),
        Some(NodeModel::Array(items)) => if items.len() == 1 {
            Some(items[0])
        } else {
            None
        },
        _ => None,
    }
}

/// The transcript of a hypothesis: a string under `transcript`.
pub open spec fn transcript_in(text: Seq<char>) -> Option<Seq<char>> {
    match sole_field(text, "transcript"@) {
        Some(t) => match json_node(t) {
            Some(NodeModel::Text(s)) => Some(s),
            _ => None,
        },
        None => None,
    }
}

/// The transcripts of a list of hypotheses, each of which must have one.
pub open spec fn transcripts_in(items: Seq<Seq<char>>) -> Option<Seq<Seq<char>>>
    decreases items.len(),
{
    if items.len() == 0 {
        Some(Seq::empty())
    } else {
        match (transcripts_in(items.drop_last()), transcript_in(items.last())) {
            (Some(before), Some(t)) => Some(before.push(t)),
            _ => None,
        }
    }
}

/// The transcripts of a channel: an array of hypotheses under `alternatives`.
pub open spec fn channel_in(text: Seq<char>) -> Option<Seq<Seq<char>>> {
    match sole_field(text, "alternatives"@) {
        Some(t) => match json_node(t) {
            Some(NodeModel::Array(items)) => transcripts_in(items),
            _ => None,
        },
        None => None,
    }
}

/// A flag that may be missing, which means false, but must else be a truth value.
pub open spec fn flag_in(node: NodeModel, name: Seq<char>) -> Option<bool> {
    if node.member(name) is None {
        Some(false)
    } else {
        node.bool_member(name)
    }
}

/// The result that a message holds, if it has the form of one. Other members
/// are ignored.
pub open spec fn results_in(node: NodeModel) -> Option<ResultsModel> {
    match (flag_in(node, "is_final"@), flag_in(node, "speech_final"@), node.member("channel"@)) {
        (Some(is_final), Some(speech_final), Some(channel)) => match channel_in(channel) {
            Some(transcripts) => Some(ResultsModel { is_final, speech_final, transcripts }),
            None => None,
        },
        _ => None,
    }
}

fn read_sole_field(text: &str, name: &str) -> (r: Option<String>)
    ensures
        text_view(r) == sole_field(text@, name@),
{
    match read_node(text) {
        Ok(node) => match node {
            JsonNode::Object(_) => node.member(name),
            JsonNode::Array(items) => {
                if items.len() == 1 {
                    Some(items[0].clone())
                } else {
                    None
                }
            },
            _ => None,
        },
        Err(_) => None,
    }
}

fn read_transcript(text: &str) -> (r: Option<String>)
    ensures
        text_view(r) == transcript_in(text@),
{
    match read_sole_field(text, "transcript") {
        None => None,
        Some(t) => match read_node(t.as_str()) {
            Ok(JsonNode::Text(s)) => Some(s),
            _ => None,
        },
    }
}

fn read_channel(text: &str) -> (r: Option<Channel>)
    ensures
        match r {
            Some(c) => channel_in(text@) == Some(
                c.alternatives@.map_values(|a: Alternative| a.transcript@),
            ),
            None => channel_in(text@) is None,
        },
{
    let list: String = match read_sole_field(text, "alternatives") {
        None => return None,
        Some(t) => t,
    };
    let items: Vec<String> = match read_node(list.as_str()) {
        Ok(JsonNode::Array(items)) => items,
        _ => return None,
    };
    let ghost texts = items@.map_values(|s: String| s@);
    let mut alternatives: Vec<Alternative> = Vec::new();
    let n: usize = items.len();
    let mut i: usize = 0;
    let mut ok: bool = true;
    assert(texts.take(0) =~= Seq::empty());
    assert(alternatives@.map_values(|a: Alternative| a.transcript@) =~= Seq::empty());
    while i < n
        invariant
            n == items@.len(),
            i <= n,
            texts == items@.map_values(|s: String| s@),
            ok ==> transcripts_in(texts.take(i as int)) == Some(
                alternatives@.map_values(|a: Alternative| a.transcript@),
            ),
            !ok ==> transcripts_in(texts.take(i as int)) is None,
        decreases n - i,
    {
        proof {
            let next = texts.take(i + 1);
            assert(next.drop_last() =~= texts.take(i as int));
            assert(next.last() == items@[i as int]@);
        }
        match read_transcript(items[i].as_str()) {
            Some(transcript) => {
                let ghost old_list = alternatives@;
                alternatives.push(Alternative { transcript });
                assert(alternatives@.map_values(|a: Alternative| a.transcript@) =~= old_list.map_values(
                    |a: Alternative| a.transcript@,
                ).push(transcript@));
            },
            None => {
                ok = false;
            },
        }
        i = i + 1;
    }
    assert(texts.take(n as int) =~= texts);
    if ok {
        Some(Channel { alternatives })
    } else {
        None
    }
}

fn read_flag(node: &JsonNode, name: &str) -> (r: Option<bool>)
    ensures
        r == flag_in(node@, name@),
{
    match node.member(name) {
        None => Some(false),
        Some(_) => node.bool_member(name),
    }
}

/// Reads a transcript result from a message.
pub fn read_results(node: &JsonNode) -> (r: Option<ResultsMsg>)
    ensures
        match r {
            Some(m) => results_in(node@) == Some(m@),
            None => results_in(node@) is None,
        },
{
    match (read_flag(node, "is_final"), read_flag(node, "speech_final"), node.member("channel")) {
        (Some(is_final), Some(speech_final), Some(text)) => match read_channel(text.as_str()) {
            Some(channel) => Some(ResultsMsg { is_final, speech_final, channel }),
            None => None,
        },
        _ => None,
    }
}

/// The event that tells of a buffer output.
pub open spec fn event_of(track: TrackId, out: OutputModel) -> EventModel {
    match out {
        OutputModel::Finalised { text } => EventModel::Finalised { track, text },
        OutputModel::Flushed { text, reason } => EventModel::Flushed {
            track,
            text,
            reason: crate::transcript::reason_label(reason),
        },
    }
}

/// The event that tells of an output, where there is one.
pub open spec fn events_of(track: TrackId, out: Option<OutputModel>) -> Option<EventModel> {
    match out {
        Some(o) => Some(event_of(track, o)),
        None => None,
    }
}

/// What an optional event says.
pub open spec fn event_view(o: Option<PipelineEvent>) -> Option<EventModel> {
    match o {
        Some(e) => Some(e@),
        None => None,
    }
}

/// The event that tells of a buffer output.
pub fn emit_buffer_output(track: TrackId, out: BufferOutput) -> (r: PipelineEvent)
    ensures
        r@ == event_of(track, out@),
{
    match out {
        BufferOutput::Finalised { text } => PipelineEvent::Finalised { track, text },
        BufferOutput::Flushed { text, reason } => PipelineEvent::Flushed {
            track,
            text,
            reason: reason.as_str(),
        },
    }
}

/// The transcript that a result tells: that of its first hypothesis.
pub open spec fn first_transcript(msg: ResultsModel) -> Seq<char> {
    if msg.transcripts.len() > 0 {
        msg.transcripts[0]
    } else {
        Seq::empty()
    }
}

/// The buffer after a result, and the event that it causes: a final result
/// goes into the buffer, any other is a partial. One without words is ignored.
pub open spec fn result_step(
    m: BufferModel,
    msg: ResultsModel,
    now: Instant,
    track: TrackId,
) -> (BufferModel, Option<EventModel>) {
    let transcript = first_transcript(msg);
    if crate::text::blank(transcript) {
        (m, None)
    } else if msg.is_final {
        let (next, out) = m.after_final(transcript, now);
        (next, events_of(track, out))
    } else {
        (m.with_partial(transcript), Some(EventModel::Partial { track, text: transcript }))
    }
}

/// Takes a transcript result into the buffer.
pub fn handle_result(
    msg: &ResultsMsg,
    buf: &mut TranscriptBuffer,
    now: Instant,
    track: TrackId,
) -> (r: Option<PipelineEvent>)
    ensures
        (final(buf)@, event_view(r)) == result_step(old(buf)@, msg@, now, track),
{
    let transcript: String = if msg.channel.alternatives.len() > 0 {
        msg.channel.alternatives[0].transcript.clone()
    } else {
        String::new()
    };
    assert(transcript@ == first_transcript(msg@));
    if trim_text(transcript.as_str()).as_str().is_empty() {
        return None;
    }
    if msg.is_final {
        let mut outputs: Vec<BufferOutput> = buf.on_final(transcript.as_str(), now);
        match outputs.pop() {
            Some(o) => Some(emit_buffer_output(track, o)),
            None => None,
        }
    } else {
        let text: String = buf.on_partial(transcript).to_owned();
        Some(PipelineEvent::Partial { track, text })
    }
}

/// A message of the connection. Nothing but text is read.
#[derive(Debug)]
pub enum WsMessage {
    Text(String),
    Binary,
    Ping,
    Pong,
    Frame,
    Close,
}

/// What is wrong with a message.
#[derive(Debug)]
pub enum MessageError {
    /// The message is not JSON.
    Json(serde_json::Error),
    /// The message says that it is a result, but does not have the form of one.
    Schema,
}

/// The type that a message says it has.
pub open spec fn message_type(node: NodeModel) -> Seq<char> {
    match node.text_member("type"@) {
        Some(kind) => kind,
        None => ""@,
    }
}

/// The buffer after a JSON message, and the event that it causes; `None` where
/// a result does not have the form of one.
pub open spec fn node_step(m: BufferModel, node: NodeModel, now: Instant, track: TrackId) -> Option<
    (BufferModel, Option<EventModel>),
> {
    if message_type(node) == "Results"@ {
        match results_in(node) {
            Some(msg) => Some(result_step(m, msg, now, track)),
            None => None,
        }
    } else if message_type(node) == "UtteranceEnd"@ {
        let (next, out) = m.after_utterance_end();
        Some((next, events_of(track, out)))
    } else {
        Some((m, None))
    }
}

/// The buffer after a message, and the event that it causes; `None` where the
/// message is faulty.
pub open spec fn message_step(m: BufferModel, msg: WsMessage, now: Instant, track: TrackId) -> Option<
    (BufferModel, Option<EventModel>),
> {
    match msg {
        WsMessage::Text(text) => match json_node(text@) {
            Some(node) => node_step(m, node, now, track),
            None => None,
        },
        _ => Some((m, None)),
    }
}

/// Takes a parsed message into the buffer.
pub fn handle_node(
    node: &JsonNode,
    buf: &mut TranscriptBuffer,
    now: Instant,
    track: TrackId,
) -> (r: Result<Option<PipelineEvent>, MessageError>)
    ensures
        match r {
            Ok(event) => node_step(old(buf)@, node@, now, track) == Some(
                (final(buf)@, event_view(event)),
            ),
            Err(e) => {
                &&& node_step(old(buf)@, node@, now, track) is None
                &&& e is Schema
                &&& final(buf)@ == old(buf)@
            },
        },
{
    let kind: String = match node.text_member("type") {
        Some(kind) => kind,
        None => "".to_owned(),
    };
    if same_text(kind.as_str(), "Results") {
        match read_results(node) {
            Some(msg) => Ok(handle_result(&msg, buf, now, track)),
            None => Err(MessageError::Schema),
        }
    } else if same_text(kind.as_str(), "UtteranceEnd") {
        match buf.on_utterance_end() {
            Some(o) => Ok(Some(emit_buffer_output(track, o))),
            None => Ok(None),
        }
    } else {
        Ok(None)
    }
}

/// Takes a message of the connection into the buffer.
pub fn handle_ws_message(
    msg: &WsMessage,
    buf: &mut TranscriptBuffer,
    now: Instant,
    track: TrackId,
) -> (r: Result<Option<PipelineEvent>, MessageError>)
    ensures
        match r {
            Ok(event) => message_step(old(buf)@, *msg, now, track) == Some(
                (final(buf)@, event_view(event)),
            ),
            Err(e) => {
                &&& message_step(old(buf)@, *msg, now, track) is None
                &&& e@ == fault_of(*msg)
                &&& final(buf)@ == old(buf)@
            },
        },
{
    match msg {
        WsMessage::Text(text) => match read_node(text.as_str()) {
            Ok(node) => handle_node(&node, buf, now, track),
            Err(e) => Err(MessageError::Json(e)),
        },
        _ => Ok(None),
    }
}

/// Where a streaming session stands.
#[derive(Debug, Clone, Copy, PartialEq, Eq, Structural)]
pub enum SessionPhase {
    /// Audio goes out and messages come in.
    Streaming,
    /// The audio has ended; the last messages come in.
    Draining,
    /// The session is over.
    Closed,
}

/// What happens to a streaming session.
#[derive(Debug)]
pub enum ClientInput {
    /// Samples to send.
    Audio(Vec<i16>),
    /// No more samples will come.
    AudioEnded,
    /// A message came in.
    Message(WsMessage),
    /// The connection failed, with the given description.
    Failed(String),
    /// No more messages will come.
    MessagesEnded,
    /// The clock ticked.
    Tick,
}

/// What a streaming session has done.
#[derive(Debug)]
pub enum ClientAction {
    /// Send these bytes.
    SendBinary(Vec<u8>),
    /// Send this text.
    SendText(String),
    /// Hand out this event.
    Emit(PipelineEvent),
    /// Report a faulty message.
    Report(MessageError),
    /// End with this error.
    Fail(String),
}

/// What a [`ClientAction`] says.
pub enum ActionModel {
    SendBinary(Seq<u8>),
    SendText(Seq<char>),
    Emit(EventModel),
    Report(FaultModel),
    Fail(Seq<char>),
}

/// What a [`MessageError`] says.
pub enum FaultModel {
    Json,
    Schema,
}

impl View for MessageError {
    type V = FaultModel;

    open spec fn view(&self) -> FaultModel {
        match self {
            MessageError::Json(_) => FaultModel::Json,
            MessageError::Schema => FaultModel::Schema,
        }
    }
}

/// What is wrong with a faulty message: a text that is no JSON, or else a
/// result that does not have the form of one.
pub open spec fn fault_of(msg: WsMessage) -> FaultModel {
    match msg {
        WsMessage::Text(text) => if json_node(text@) is None {
            FaultModel::Json
        } else {
            FaultModel::Schema
        },
        _ => FaultModel::Schema,
    }
}

impl View for ClientAction {
    type V = ActionModel;

    open spec fn view(&self) -> ActionModel {
        match self {
            ClientAction::SendBinary(bytes) => ActionModel::SendBinary(bytes@),
            ClientAction::SendText(text) => ActionModel::SendText(text@),
            ClientAction::Emit(event) => ActionModel::Emit(event@),
            ClientAction::Report(error) => ActionModel::Report(error@),
            ClientAction::Fail(text) => ActionModel::Fail(text@),
        }
    }
}

/// What a streaming session holds.
pub struct SessionModel {
    pub phase: SessionPhase,
    pub track: TrackId,
    pub buffer: BufferModel,
}

/// The message that ends the audio.
pub open spec fn close_stream() -> Seq<char> {
    "{\"type\":\"CloseStream\"}"@
}

impl SessionModel {
    /// The same session with another buffer, and the event that was caused.
    pub open spec fn told(self, buffer: BufferModel, event: Option<EventModel>) -> (
        SessionModel,
        Option<ActionModel>,
    ) {
        (
            SessionModel { buffer, ..self },
            match event {
                Some(e) => Some(ActionModel::Emit(e)),
                None => None,
            },
        )
    }

    /// The end of the session: what is left in the buffer goes out.
    pub open spec fn finished(self) -> (SessionModel, Option<ActionModel>) {
        let (buffer, out) = self.buffer.after_flush_now();
        let (next, action) = self.told(buffer, events_of(self.track, out));
        (SessionModel { phase: SessionPhase::Closed, ..next }, action)
    }

    /// The step for a message; faulty ones are reported only while streaming.
    pub open spec fn after_message(self, msg: WsMessage, now: Instant) -> (
        SessionModel,
        Option<ActionModel>,
    ) {
        match message_step(self.buffer, msg, now, self.track) {
            Some((buffer, event)) => self.told(buffer, event),
            None => (
                self,
                if self.phase == SessionPhase::Streaming {
                    Some(ActionModel::Report(fault_of(msg)))
                } else {
                    None
                },
            ),
        }
    }

    /// One step of a session.
    pub open spec fn step(self, input: ClientInput, now: Instant) -> (
        SessionModel,
        Option<ActionModel>,
    ) {
        match (self.phase, input) {
            (SessionPhase::Streaming, ClientInput::Audio(samples)) => (
                self,
                Some(ActionModel::SendBinary(crate::pcm::le_bytes(samples@))),
            ),
            (SessionPhase::Streaming, ClientInput::AudioEnded) => (
                SessionModel { phase: SessionPhase::Draining, ..self },
                Some(ActionModel::SendText(close_stream())),
            ),
            (SessionPhase::Streaming, ClientInput::Failed(error)) => (
                SessionModel { phase: SessionPhase::Closed, ..self },
                Some(ActionModel::Fail(error@)),
            ),
            (SessionPhase::Streaming, ClientInput::Tick) => {
                let (buffer, out) = self.buffer.after_tick(now);
                self.told(buffer, events_of(self.track, out))
            },
            (SessionPhase::Draining, ClientInput::Failed(_)) => self.finished(),
            (SessionPhase::Closed, _) => (self, None),
            (_, ClientInput::Message(msg)) => self.after_message(msg, now),
            (_, ClientInput::MessagesEnded) => self.finished(),
            _ => (self, None),
        }
    }
}

/// A streaming session: the transcript buffer of a track, and how far the
/// exchange with the service has come.
pub struct DeepgramClient {
    phase: SessionPhase,
    track: TrackId,
    buffer: TranscriptBuffer,
}

impl View for DeepgramClient {
    type V = SessionModel;

    closed spec fn view(&self) -> SessionModel {
        SessionModel { phase: self.phase, track: self.track, buffer: self.buffer@ }
    }
}

/// What an optional action says.
pub open spec fn action_view(o: Option<ClientAction>) -> Option<ActionModel> {
    match o {
        Some(a) => Some(a@),
        None => None,
    }
}

fn emit(event: Option<PipelineEvent>) -> (r: Option<ClientAction>)
    ensures
        action_view(r) == match event_view(event) {
            Some(e) => Some(ActionModel::Emit(e)),
            None => None,
        },
{
    match event {
        Some(e) => Some(ClientAction::Emit(e)),
        None => None,
    }
}

impl DeepgramClient {
    /// A session that is about to stream.
    pub fn new(buffer_cfg: TranscriptBufferConfig, track: TrackId) -> (r: DeepgramClient)
        ensures
            r@ == (SessionModel {
                phase: SessionPhase::Streaming,
                track,
                buffer: BufferModel::fresh(buffer_cfg),
            }),
    {
        DeepgramClient {
            phase: SessionPhase::Streaming,
            track,
            buffer: TranscriptBuffer::new(buffer_cfg),
        }
    }

    /// Where the session stands.
    pub fn phase(&self) -> (r: SessionPhase)
        ensures
            r == self@.phase,
    {
        self.phase
    }

    /// Takes what happened into the session, and returns what is to be done.
    pub fn step(&mut self, input: ClientInput, now: Instant) -> (r: Option<ClientAction>)
        ensures
            (final(self)@, action_view(r)) == old(self)@.step(input, now),
    {
        match self.phase {
            SessionPhase::Streaming => match input {
                ClientInput::Audio(samples) => Some(
                    ClientAction::SendBinary(i16_le_bytes(samples.as_slice())),
                ),
                ClientInput::AudioEnded => {
                    self.phase = SessionPhase::Draining;
                    Some(ClientAction::SendText("{\"type\":\"CloseStream\"}".to_owned()))
                },
                ClientInput::Failed(error) => {
                    self.phase = SessionPhase::Closed;
                    Some(ClientAction::Fail(error))
                },
                ClientInput::Tick => match self.buffer.on_tick(now) {
                    Some(o) => Some(ClientAction::Emit(emit_buffer_output(self.track, o))),
                    None => None,
                },
                ClientInput::Message(msg) => {
                    match handle_ws_message(&msg, &mut self.buffer, now, self.track) {
                        Ok(event) => emit(event),
                        Err(e) => Some(ClientAction::Report(e)),
                    }
                },
                ClientInput::MessagesEnded => self.finish(),
            },
            SessionPhase::Draining => match input {
                ClientInput::Message(msg) => {
                    match handle_ws_message(&msg, &mut self.buffer, now, self.track) {
                        Ok(event) => emit(event),
                        Err(_) => None,
                    }
                },
                ClientInput::Failed(_) => self.finish(),
                ClientInput::MessagesEnded => self.finish(),
                _ => None,
            },
            SessionPhase::Closed => None,
        }
    }

    fn finish(&mut self) -> (r: Option<ClientAction>)
        ensures
            (final(self)@, action_view(r)) == old(self)@.finished(),
    {
        self.phase = SessionPhase::Closed;
        match self.buffer.flush_now() {
            Some(o) => Some(ClientAction::Emit(emit_buffer_output(self.track, o))),
            None => None,
        }
    }
}

/// How the task of a session ended.
#[derive(Debug)]
pub enum TaskOutcome {
    Finished,
    Failed(String),
    /// It panicked, with the message that it left, if that was text.
    Panicked(Option<String>),
}

/// What is told of the end of a task, if anything.
pub open spec fn outcome_text(outcome: TaskOutcome) -> Option<Seq<char>> {
    match outcome {
        TaskOutcome::Finished => None,
        TaskOutcome::Failed(error) => Some(error@),
        TaskOutcome::Panicked(Some(text)) => Some("client task panicked: "@ + text@),
        TaskOutcome::Panicked(None) => Some(
            "client task panicked: "@ + "<non-string panic>"@,
        ),
    }
}

/// The event that tells of the end of a task; a task that simply finished
/// causes none.
pub fn task_ended(track: TrackId, outcome: TaskOutcome) -> (r: Option<PipelineEvent>)
    ensures
        event_view(r) == match outcome_text(outcome) {
            Some(error) => Some(EventModel::Error { track, error }),
            None => None,
        },
{
    match outcome {
        TaskOutcome::Finished => None,
        TaskOutcome::Failed(error) => Some(PipelineEvent::Error { track, error }),
        TaskOutcome::Panicked(text) => {
            let mut error: String = "client task panicked: ".to_owned();
            match text {
                Some(s) => error.append(s.as_str()),
                None => error.append("<non-string panic>"),
            }
            Some(PipelineEvent::Error { track, error })
        },
    }
}

/// What became of samples that were offered to the queue of a session.
#[derive(Debug, Clone, Copy, PartialEq, Eq, Structural)]
pub enum SendOutcome {
    Sent,
    Full,
    Closed,
}

/// What to report of samples that were not sent.
#[derive(Debug, Clone, Copy, PartialEq, Eq, Structural)]
pub enum PushReport {
    Nothing,
    /// The queue was full and the samples were dropped.
    Dropped,
    /// The session has ended; reported once.
    SessionEnded,
}

/// Whether samples are offered to the queue at all: empty ones are not.
pub fn worth_sending(samples: &[i16]) -> (r: bool)
    ensures
        r == (samples@.len() > 0),
{
    samples.len() > 0
}

/// What to report once samples were offered, where `reported` says whether the
/// end of the session has been reported before; and whether it has been now.
pub fn push_report(outcome: SendOutcome, reported: bool) -> (r: (PushReport, bool))
    ensures
        r == match outcome {
            SendOutcome::Sent => (PushReport::Nothing, reported),
            SendOutcome::Full => (PushReport::Dropped, reported),
            SendOutcome::Closed => (
                if reported {
                    PushReport::Nothing
                } else {
                    PushReport::SessionEnded
                },
                true,
            ),
        },
{
    match outcome {
        SendOutcome::Sent => (PushReport::Nothing, reported),
        SendOutcome::Full => (PushReport::Dropped, reported),
        SendOutcome::Closed => {
            if reported {
                (PushReport::Nothing, true)
            } else {
                (PushReport::SessionEnded, true)
            }
        },
    }
}

/// A session and what it has done, after a sequence of inputs, each with the
/// time at which it came.
pub open spec fn session_run(
    cfg: TranscriptBufferConfig,
    track: TrackId,
    inputs: Seq<(ClientInput, Instant)>,
) -> (SessionModel, Seq<ActionModel>)
    decreases inputs.len(),
{
    if inputs.len() == 0 {
        (
            SessionModel {
                phase: SessionPhase::Streaming,
                track,
                buffer: BufferModel::fresh(cfg),
            },
            Seq::empty(),
        )
    } else {
        let (m, actions) = session_run(cfg, track, inputs.drop_last());
        let (next, action) = m.step(inputs.last().0, inputs.last().1);
        (
            next,
            match action {
                Some(a) => actions.push(a),
                None => actions,
            },
        )
    }
}

/// What a JSON message brings to the transcript buffer, if anything.
pub open spec fn node_input(node: NodeModel, now: Instant) -> Option<BufferInput> {
    if message_type(node) == "Results"@ {
        match results_in(node) {
            Some(msg) => {
                let transcript = first_transcript(msg);
                if crate::text::blank(transcript) {
                    None
                } else if msg.is_final {
                    Some(BufferInput::Final(transcript, now))
                } else {
                    Some(BufferInput::Partial(transcript))
                }
            },
            None => None,
        }
    } else if message_type(node) == "UtteranceEnd"@ {
        Some(BufferInput::UtteranceEnd)
    } else {
        None
    }
}

/// What an input of a session brings to the transcript buffer, if anything.
pub open spec fn input_heard(phase: SessionPhase, input: ClientInput, now: Instant) -> Option<
    BufferInput,
> {
    match (phase, input) {
        (SessionPhase::Closed, _) => None,
        (SessionPhase::Streaming, ClientInput::Tick) => Some(BufferInput::Tick(now)),
        (SessionPhase::Draining, ClientInput::Failed(_)) => Some(BufferInput::FlushNow),
        (_, ClientInput::Message(WsMessage::Text(text))) => match json_node(text@) {
            Some(node) => node_input(node, now),
            None => None,
        },
        (_, ClientInput::MessagesEnded) => Some(BufferInput::FlushNow),
        _ => None,
    }
}

/// What the inputs of a session bring to the transcript buffer.
pub open spec fn heard(
    cfg: TranscriptBufferConfig,
    track: TrackId,
    inputs: Seq<(ClientInput, Instant)>,
) -> Seq<BufferInput>
    decreases inputs.len(),
{
    if inputs.len() == 0 {
        Seq::empty()
    } else {
        let before = inputs.drop_last();
        match input_heard(
            session_run(cfg, track, before).0.phase,
            inputs.last().0,
            inputs.last().1,
        ) {
            Some(b) => heard(cfg, track, before).push(b),
            None => heard(cfg, track, before),
        }
    }
}

/// The flushed texts that were handed out, in their order.
pub open spec fn flushed_texts(actions: Seq<ActionModel>) -> Seq<Seq<char>>
    decreases actions.len(),
{
    if actions.len() == 0 {
        Seq::empty()
    } else {
        match actions.last() {
            ActionModel::Emit(EventModel::Flushed { text, .. }) => flushed_texts(
                actions.drop_last(),
            ).push(text),
            _ => flushed_texts(actions.drop_last()),
        }
    }
}

proof fn lemma_session_is_its_buffer(
    cfg: TranscriptBufferConfig,
    track: TrackId,
    inputs: Seq<(ClientInput, Instant)>,
)
    ensures
        session_run(cfg, track, inputs).0.track == track,
        session_run(cfg, track, inputs).0.buffer == crate::transcript::buffer_run(cfg, heard(cfg, track, inputs)).0,
        flushed_texts(session_run(cfg, track, inputs).1) == crate::transcript::buffer_run(
            cfg,
            heard(cfg, track, inputs),
        ).1.map_values(|o: OutputModel| crate::transcript::output_text(o)),
    decreases inputs.len(),
{
    let texts = |o: OutputModel| crate::transcript::output_text(o);
    if inputs.len() == 0 {
        assert(crate::transcript::buffer_run(cfg, heard(cfg, track, inputs)).1.map_values(texts) =~= Seq::empty());
    } else {
        let before = inputs.drop_last();
        lemma_session_is_its_buffer(cfg, track, before);
        let (m, actions) = session_run(cfg, track, before);
        let (input, now) = inputs.last();
        let (next, action) = m.step(input, now);
        let past = heard(cfg, track, before);
        let outs = crate::transcript::buffer_run(cfg, past).1;
        if let Some(a) = action {
            assert(actions.push(a).drop_last() =~= actions);
        }
        match input_heard(m.phase, input, now) {
            Some(b) => {
                assert(past.push(b).drop_last() =~= past);
                let (buffer, out) = crate::transcript::buffer_step(m.buffer, b);
                crate::transcript::buffer_stays_settled(cfg, past.push(b));
                if let Some(o) = out {
                    let all = crate::transcript::buffer_run(cfg, past.push(b)).1;
                    assert(all == outs.push(o));
                    assert(all.last() is Flushed);
                    assert(outs.push(o).map_values(texts) =~= outs.map_values(texts).push(
                        crate::transcript::output_text(o),
                    ));
                }
            },
            None => {},
        }
    }
}

/// No word that the service was sure of is lost, doubled or put out of order:
/// in every state of a session, the flushed texts that were handed out and
/// the text that still waits, joined by spaces, are the final transcripts
/// joined by spaces.
pub proof fn session_keeps_every_word(
    cfg: TranscriptBufferConfig,
    track: TrackId,
    inputs: Seq<(ClientInput, Instant)>,
)
    ensures
        ({
            let (m, actions) = session_run(cfg, track, inputs);
            let gone = flushed_texts(actions);
            let told = if m.buffer.text.len() == 0 {
                gone
            } else {
                gone.push(m.buffer.text)
            };
            crate::text::joined(told, seq![' ']) == crate::text::joined(
                crate::transcript::said(heard(cfg, track, inputs)),
                seq![' '],
            )
        }),
{
    lemma_session_is_its_buffer(cfg, track, inputs);
    crate::transcript::buffer_keeps_every_word(cfg, heard(cfg, track, inputs));
}

/// A session that has come to its end without a failure holds nothing back:
/// all that was said has been handed out.
pub proof fn closed_session_has_told_all(
    cfg: TranscriptBufferConfig,
    track: TrackId,
    inputs: Seq<(ClientInput, Instant)>,
)
    requires
        session_run(cfg, track, inputs).0.phase == SessionPhase::Closed,
        forall|i: int| 0 <= i < inputs.len() ==> !((#[trigger] inputs[i]).0 is Failed),
    ensures
        session_run(cfg, track, inputs).0.buffer.text.len() == 0,
        crate::text::joined(flushed_texts(session_run(cfg, track, inputs).1), seq![' '])
            == crate::text::joined(crate::transcript::said(heard(cfg, track, inputs)), seq![' ']),
{
    lemma_closed_is_empty(cfg, track, inputs);
    session_keeps_every_word(cfg, track, inputs);
}

proof fn lemma_closed_is_empty(
    cfg: TranscriptBufferConfig,
    track: TrackId,
    inputs: Seq<(ClientInput, Instant)>,
)
    requires
        forall|i: int| 0 <= i < inputs.len() ==> !((#[trigger] inputs[i]).0 is Failed),
    ensures
        session_run(cfg, track, inputs).0.phase == SessionPhase::Closed ==> session_run(
            cfg,
            track,
            inputs,
        ).0.buffer.text.len() == 0,
    decreases inputs.len(),
{
    if inputs.len() > 0 {
        let before = inputs.drop_last();
        assert forall|i: int| 0 <= i < before.len() implies !((#[trigger] before[i]).0 is Failed) by {
            assert(before[i] == inputs[i]);
        }
        lemma_closed_is_empty(cfg, track, before);
        assert(!(inputs[inputs.len() - 1].0 is Failed));
    }
}

/// Nothing happens in a session that is over, and no audio is sent once it
/// has ended.
pub proof fn ended_audio_is_not_sent(m: SessionModel, input: ClientInput, now: Instant)
    requires
        m.phase != SessionPhase::Streaming,
    ensures
        m.step(input, now).0.phase != SessionPhase::Streaming,
        !(m.step(input, now).1 matches Some(ActionModel::SendBinary(_))),
        !(m.step(input, now).1 matches Some(ActionModel::SendText(_))),
        m.phase == SessionPhase::Closed ==> m.step(input, now) == (m, None::<ActionModel>),
{
}

/// Whether no more audio goes out after these inputs: it has ended, the
/// connection has failed, or no more messages will come.
pub open spec fn audio_over(inputs: Seq<(ClientInput, Instant)>) -> bool {
    exists|i: int|
        0 <= i < inputs.len() && ((#[trigger] inputs[i]).0 is AudioEnded || inputs[i].0 is Failed
            || inputs[i].0 is MessagesEnded)
}

/// Whether a session is over after these inputs: the connection has failed, or
/// no more messages will come.
pub open spec fn exchange_over(inputs: Seq<(ClientInput, Instant)>) -> bool {
    exists|i: int|
        0 <= i < inputs.len() && ((#[trigger] inputs[i]).0 is Failed || inputs[i].0 is MessagesEnded)
}

/// The audio that was captured before it was over, block by block.
pub open spec fn captured(inputs: Seq<(ClientInput, Instant)>) -> Seq<Seq<i16>>
    decreases inputs.len(),
{
    if inputs.len() == 0 {
        Seq::empty()
    } else {
        let before = inputs.drop_last();
        match inputs.last().0 {
            ClientInput::Audio(samples) if !audio_over(before) => captured(before).push(samples@),
            _ => captured(before),
        }
    }
}

/// The binary messages that were sent.
pub open spec fn binaries(actions: Seq<ActionModel>) -> Seq<Seq<u8>>
    decreases actions.len(),
{
    if actions.len() == 0 {
        Seq::empty()
    } else {
        match actions.last() {
            ActionModel::SendBinary(bytes) => binaries(actions.drop_last()).push(bytes),
            _ => binaries(actions.drop_last()),
        }
    }
}

/// The text messages that were sent.
pub open spec fn texts_sent(actions: Seq<ActionModel>) -> Seq<Seq<char>>
    decreases actions.len(),
{
    if actions.len() == 0 {
        Seq::empty()
    } else {
        match actions.last() {
            ActionModel::SendText(text) => texts_sent(actions.drop_last()).push(text),
            _ => texts_sent(actions.drop_last()),
        }
    }
}

proof fn lemma_over_step(inputs: Seq<(ClientInput, Instant)>)
    requires
        inputs.len() > 0,
    ensures
        audio_over(inputs) <==> audio_over(inputs.drop_last()) || inputs.last().0 is AudioEnded
            || inputs.last().0 is Failed || inputs.last().0 is MessagesEnded,
        exchange_over(inputs) <==> exchange_over(inputs.drop_last()) || inputs.last().0 is Failed
            || inputs.last().0 is MessagesEnded,
        exchange_over(inputs) ==> audio_over(inputs),
{
    let before = inputs.drop_last();
    let last = inputs.len() - 1;
    assert(inputs[last] == inputs.last());
    assert(forall|i: int| 0 <= i < before.len() ==> #[trigger] before[i] == inputs[i]);
    assert(forall|i: int| 0 <= i < last ==> #[trigger] inputs[i] == before[i]);
}

proof fn lemma_phase(cfg: TranscriptBufferConfig, track: TrackId, inputs: Seq<(ClientInput, Instant)>)
    ensures
        session_run(cfg, track, inputs).0.track == track,
        session_run(cfg, track, inputs).0.phase == SessionPhase::Streaming <==> !audio_over(inputs),
        session_run(cfg, track, inputs).0.phase == SessionPhase::Closed <==> exchange_over(inputs),
    decreases inputs.len(),
{
    if inputs.len() > 0 {
        lemma_phase(cfg, track, inputs.drop_last());
        lemma_over_step(inputs);
    }
}

/// All audio is sent: over every run of a session, the binary messages are the
/// little-endian bytes of every block that came before the audio was over, one
/// for each, in their order, whatever came between. The only text message asks
/// the service to close the stream; it goes out once, where the audio ended
/// while the session was streaming.
pub proof fn all_audio_is_sent(
    cfg: TranscriptBufferConfig,
    track: TrackId,
    inputs: Seq<(ClientInput, Instant)>,
)
    ensures
        binaries(session_run(cfg, track, inputs).1) == captured(inputs).map_values(
            |samples: Seq<i16>| crate::pcm::le_bytes(samples),
        ),
        texts_sent(session_run(cfg, track, inputs).1) == if ended_while_streaming(inputs) {
            seq!["{\"type\":\"CloseStream\"}"@]
        } else {
            Seq::empty()
        },
    decreases inputs.len(),
{
    let bytes_of = |samples: Seq<i16>| crate::pcm::le_bytes(samples);
    if inputs.len() == 0 {
        assert(captured(inputs).map_values(bytes_of) =~= Seq::empty());
    } else {
        let before = inputs.drop_last();
        all_audio_is_sent(cfg, track, before);
        lemma_phase(cfg, track, before);
        lemma_ended_step(inputs);
        let (m, actions) = session_run(cfg, track, before);
        let action = m.step(inputs.last().0, inputs.last().1).1;
        if let Some(a) = action {
            assert(actions.push(a).drop_last() =~= actions);
        }
        if let ClientInput::Audio(samples) = inputs.last().0 {
            assert(captured(before).push(samples@).map_values(bytes_of) =~= captured(
                before,
            ).map_values(bytes_of).push(crate::pcm::le_bytes(samples@)));
        }
    }
}

/// Whether the audio ended before the connection failed and before the last
/// message.
pub open spec fn ended_while_streaming(inputs: Seq<(ClientInput, Instant)>) -> bool {
    exists|i: int|
        0 <= i < inputs.len() && (#[trigger] inputs[i]).0 is AudioEnded && !exchange_over(
            inputs.take(i),
        )
}

proof fn lemma_ended_step(inputs: Seq<(ClientInput, Instant)>)
    requires
        inputs.len() > 0,
    ensures
        ended_while_streaming(inputs) <==> ended_while_streaming(inputs.drop_last()) || (
        inputs.last().0 is AudioEnded && !exchange_over(inputs.drop_last())),
        audio_over(inputs.drop_last()) && !exchange_over(inputs.drop_last())
            ==> ended_while_streaming(inputs.drop_last()),
{
    let before = inputs.drop_last();
    let last = inputs.len() - 1;
    assert(inputs.take(last) =~= before);
    assert forall|i: int| 0 <= i < last implies #[trigger] inputs[i] == before[i] && inputs.take(i)
        == before.take(i) by {
        assert(inputs.take(i) =~= before.take(i));
    }
    if ended_while_streaming(before) {
        let i = choose|i: int|
            0 <= i < before.len() && (#[trigger] before[i]).0 is AudioEnded && !exchange_over(
                before.take(i),
            );
        assert(inputs[i].0 is AudioEnded);
    }
    if inputs.last().0 is AudioEnded && !exchange_over(before) {
        assert(inputs[last].0 is AudioEnded);
    }
    if audio_over(before) && !exchange_over(before) {
        let i = choose|i: int|
            0 <= i < before.len() && ((#[trigger] before[i]).0 is AudioEnded || before[i].0
                is Failed || before[i].0 is MessagesEnded);
        assert(before[i].0 is AudioEnded);
        if exchange_over(before.take(i)) {
            let j = choose|j: int|
                0 <= j < before.take(i).len() && ((#[trigger] before.take(i)[j]).0 is Failed
                    || before.take(i)[j].0 is MessagesEnded);
            assert(before[j] == before.take(i)[j]);
        }
    }
}

/// The words of a result that an input brings, and whether the service is sure
/// of them.
pub open spec fn words_in(input: ClientInput) -> Option<(bool, Seq<char>)> {
    match input {
        ClientInput::Message(WsMessage::Text(text)) => match json_node(text@) {
            Some(node) => if node.text_member("type"@) == Some("Results"@) {
                match results_in(node) {
                    Some(msg) => if msg.transcripts.len() > 0 && !crate::text::all_white(
                        msg.transcripts[0],
                    ) {
                        Some((msg.is_final, msg.transcripts[0]))
                    } else {
                        None
                    },
                    None => None,
                }
            } else {
                None
            },
            None => None,
        },
        _ => None,
    }
}

/// The words that the service was sure of, while the session was not over,
/// without whitespace around them.
pub open spec fn final_words(inputs: Seq<(ClientInput, Instant)>) -> Seq<Seq<char>>
    decreases inputs.len(),
{
    if inputs.len() == 0 {
        Seq::empty()
    } else {
        let before = inputs.drop_last();
        match words_in(inputs.last().0) {
            Some((true, words)) if !exchange_over(before) => final_words(before).push(
                crate::text::trimmed(words),
            ),
            _ => final_words(before),
        }
    }
}

/// The words that the service was not sure of, while the session was not over.
pub open spec fn live_words(inputs: Seq<(ClientInput, Instant)>) -> Seq<Seq<char>>
    decreases inputs.len(),
{
    if inputs.len() == 0 {
        Seq::empty()
    } else {
        let before = inputs.drop_last();
        match words_in(inputs.last().0) {
            Some((false, words)) if !exchange_over(before) => live_words(before).push(words),
            _ => live_words(before),
        }
    }
}

/// The partials that were handed out, in their order.
pub open spec fn partial_texts(actions: Seq<ActionModel>) -> Seq<Seq<char>>
    decreases actions.len(),
{
    if actions.len() == 0 {
        Seq::empty()
    } else {
        match actions.last() {
            ActionModel::Emit(EventModel::Partial { text, .. }) => partial_texts(
                actions.drop_last(),
            ).push(text),
            _ => partial_texts(actions.drop_last()),
        }
    }
}

proof fn lemma_said_is_heard(
    cfg: TranscriptBufferConfig,
    track: TrackId,
    inputs: Seq<(ClientInput, Instant)>,
)
    ensures
        crate::transcript::said(heard(cfg, track, inputs)) == final_words(inputs),
        partial_texts(session_run(cfg, track, inputs).1) == live_words(inputs),
    decreases inputs.len(),
{
    if inputs.len() > 0 {
        let before = inputs.drop_last();
        lemma_said_is_heard(cfg, track, before);
        lemma_phase(cfg, track, before);
        let (m, actions) = session_run(cfg, track, before);
        let (input, now) = inputs.last();
        let past = heard(cfg, track, before);
        if let ClientInput::Message(WsMessage::Text(text)) = input {
            if let Some(node) = json_node(text@) {
                if let Some(msg) = results_in(node) {
                    crate::text::lemma_blank_is_white(first_transcript(msg));
                }
                reveal_strlit("");
                reveal_strlit("Results");
                reveal_strlit("UtteranceEnd");
                assert(""@.len() != "Results"@.len());
                assert("UtteranceEnd"@.len() != "Results"@.len());
            }
        }
        if let Some(b) = input_heard(m.phase, input, now) {
            assert(past.push(b).drop_last() =~= past);
        }
        if let Some(a) = m.step(input, now).1 {
            assert(actions.push(a).drop_last() =~= actions);
        }
    }
}

/// Every word is told: over every run of a session, the flushed texts and the
/// text that still waits, joined by spaces, are all the words that the service
/// was sure of before the session was over; and the partials are all those
/// that it was not sure of, each told once, in their order.
pub proof fn every_word_is_told(
    cfg: TranscriptBufferConfig,
    track: TrackId,
    inputs: Seq<(ClientInput, Instant)>,
)
    ensures
        ({
            let (m, actions) = session_run(cfg, track, inputs);
            let told = if m.buffer.text.len() == 0 {
                flushed_texts(actions)
            } else {
                flushed_texts(actions).push(m.buffer.text)
            };
            &&& crate::text::joined(told, seq![' ']) == crate::text::joined(
                final_words(inputs),
                seq![' '],
            )
            &&& partial_texts(actions) == live_words(inputs)
        }),
{
    session_keeps_every_word(cfg, track, inputs);
    lemma_said_is_heard(cfg, track, inputs);
}

/// The track that an event is told of.
pub open spec fn track_of(event: EventModel) -> TrackId {
    match event {
        EventModel::Partial { track, .. } => track,
        EventModel::Finalised { track, .. } => track,
        EventModel::Flushed { track, .. } => track,
        EventModel::Translated { track, .. } => track,
        EventModel::Error { track, .. } => track,
    }
}

/// What a step of a session does, seen from outside: audio goes out as it is,
/// its end asks the service to close the stream, a failure while streaming is
/// handed on, and every event is told of the session's own track.
pub proof fn session_step_is_seen(
    c: &mut DeepgramClient,
    input: ClientInput,
    now: Instant,
    r: Option<ClientAction>,
)
    requires
        call_ensures(DeepgramClient::step, (c, input, now), r),
    ensures
        final(c)@.track == old(c)@.track,
        final(c)@.buffer.cfg == old(c)@.buffer.cfg,
        r matches Some(ClientAction::Emit(event)) ==> track_of(event@) == old(c)@.track,
        old(c)@.phase == SessionPhase::Streaming ==> match input {
            ClientInput::Audio(samples) => {
                &&& r matches Some(ClientAction::SendBinary(bytes)) && bytes@
                    == crate::pcm::le_bytes(samples@)
                &&& final(c)@ == old(c)@
            },
            ClientInput::AudioEnded => {
                &&& r matches Some(ClientAction::SendText(text)) && text@
                    == "{\"type\":\"CloseStream\"}"@
                &&& final(c)@ == (SessionModel { phase: SessionPhase::Draining, ..old(c)@ })
            },
            ClientInput::Failed(error) => {
                &&& r matches Some(ClientAction::Fail(text)) && text@ == error@
                &&& final(c)@.phase == SessionPhase::Closed
            },
            _ => true,
        },
        old(c)@.phase == SessionPhase::Closed ==> r is None && final(c)@ == old(c)@,
{
}

/// While a session streams, a tick tells the waiting text once the silence has
/// lasted long enough; once the session is draining, no tick does.
pub proof fn silence_is_told_while_streaming(
    c: &mut DeepgramClient,
    now: Instant,
    r: Option<ClientAction>,
    last: Instant,
)
    requires
        call_ensures(DeepgramClient::step, (c, ClientInput::Tick, now), r),
        old(c)@.buffer.text.len() > 0,
        old(c)@.buffer.last_word_at == Some(last),
    ensures
        ({
            let span = old(c)@.buffer.cfg.silence_flush.nanos;
            let silent = span == 0 || now.nanos >= last.nanos + span;
            &&& old(c)@.phase == SessionPhase::Streaming && silent ==> action_view(r) == Some(
                ActionModel::Emit(
                    EventModel::Flushed {
                        track: old(c)@.track,
                        text: old(c)@.buffer.text,
                        reason: "silence"@,
                    },
                ),
            ) && final(c)@.buffer.text.len() == 0
            &&& !(old(c)@.phase == SessionPhase::Streaming && silent) ==> r is None && final(c)@
                == old(c)@
        }),
{
}

/// The end of a session tells what is left: no more messages, or a failure
/// while the last ones come in, flushes the waiting text, and the session is
/// over.
pub proof fn end_of_session_tells_what_is_left(
    c: &mut DeepgramClient,
    input: ClientInput,
    now: Instant,
    r: Option<ClientAction>,
)
    requires
        call_ensures(DeepgramClient::step, (c, input, now), r),
        old(c)@.phase != SessionPhase::Closed,
        input is MessagesEnded || (input is Failed && old(c)@.phase == SessionPhase::Draining),
    ensures
        final(c)@.phase == SessionPhase::Closed,
        final(c)@.buffer.text.len() == 0,
        action_view(r) == if old(c)@.buffer.text.len() > 0 {
            Some(
                ActionModel::Emit(
                    EventModel::Flushed {
                        track: old(c)@.track,
                        text: old(c)@.buffer.text,
                        reason: "manual"@,
                    },
                ),
            )
        } else {
            None
        },
{
}

/// What a message from the service does, by its type. A result that is final
/// goes into the buffer, one that is not is told as a partial; the end of an
/// utterance flushes what waits; any other type does nothing.
pub proof fn messages_do_what_their_type_says(
    m: BufferModel,
    node: NodeModel,
    kind: Seq<char>,
    now: Instant,
    track: TrackId,
)
    requires
        node.text_member("type"@) == Some(kind),
    ensures
        kind == "Results"@ ==> match results_in(node) {
            Some(msg) => if msg.transcripts.len() == 0 || crate::text::all_white(
                msg.transcripts[0],
            ) {
                node_step(m, node, now, track) == Some((m, None::<EventModel>))
            } else if msg.is_final {
                ({
                    let (next, out) = m.after_final(msg.transcripts[0], now);
                    node_step(m, node, now, track) == Some(
                        (
                            next,
                            match out {
                                Some(OutputModel::Flushed { text, reason }) => Some(
                                    EventModel::Flushed {
                                        track,
                                        text,
                                        reason: crate::transcript::reason_label(reason),
                                    },
                                ),
                                _ => None,
                            },
                        ),
                    )
                })
            } else {
                node_step(m, node, now, track) == Some(
                    (
                        (BufferModel { partial: msg.transcripts[0], ..m }),
                        Some(EventModel::Partial { track, text: msg.transcripts[0] }),
                    ),
                )
            },
            None => node_step(m, node, now, track) is None,
        },
        kind == "UtteranceEnd"@ ==> node_step(m, node, now, track) == Some(
            if m.cfg.flush_on_utterance_end && m.text.len() > 0 {
                (
                    (BufferModel { text: Seq::empty(), last_word_at: None, ..m }),
                    Some(EventModel::Flushed { track, text: m.text, reason: "utterance-end"@ }),
                )
            } else {
                (m, None)
            },
        ),
        kind != "Results"@ && kind != "UtteranceEnd"@ ==> node_step(m, node, now, track) == Some(
            (m, None::<EventModel>),
        ),
{
    reveal_strlit("Results");
    reveal_strlit("UtteranceEnd");
    assert("UtteranceEnd"@.len() != "Results"@.len());
    if let Some(msg) = results_in(node) {
        crate::text::lemma_blank_is_white(first_transcript(msg));
    }
}

/// How a result is written: flags that say whether it is final and whether the
/// speech is, which may be missing and then say no, and under `channel` the
/// `alternatives`, each with its `transcript`. Such a message is read as that
/// result, whatever else it holds.
pub proof fn results_are_read_as_written(
    members: Seq<(Seq<char>, Seq<char>)>,
    sure: Option<(Seq<char>, bool)>,
    ending: Option<(Seq<char>, bool)>,
    channel: Seq<char>,
    channel_members: Seq<(Seq<char>, Seq<char>)>,
    list: Seq<char>,
    items: Seq<Seq<char>>,
    words: Seq<Seq<char>>,
)
    requires
        match sure {
            Some((text, is_final)) => crate::json::find_member(members, "is_final"@) == Some(text)
                && json_node(text) == Some(NodeModel::Bool(is_final)),
            None => crate::json::find_member(members, "is_final"@) is None,
        },
        match ending {
            Some((text, speech_final)) => crate::json::find_member(members, "speech_final"@)
                == Some(text) && json_node(text) == Some(NodeModel::Bool(speech_final)),
            None => crate::json::find_member(members, "speech_final"@) is None,
        },
        crate::json::find_member(members, "channel"@) == Some(channel),
        json_node(channel) == Some(NodeModel::Object(channel_members)),
        crate::json::find_member(channel_members, "alternatives"@) == Some(list),
        json_node(list) == Some(NodeModel::Array(items)),
        items.len() == words.len(),
        forall|i: int|
            0 <= i < items.len() ==> (json_node(#[trigger] items[i]) matches Some(
                NodeModel::Object(m),
            ) && (crate::json::find_member(m, "transcript"@) matches Some(t) && json_node(t)
                == Some(NodeModel::Text(words[i])))),
    ensures
        results_in(NodeModel::Object(members)) matches Some(msg) && msg.is_final == (sure matches Some(
            (_, true),
        )) && msg.speech_final == (ending matches Some((_, true))) && msg.transcripts == words,
{
    lemma_transcripts(items, words);
}

proof fn lemma_transcripts(items: Seq<Seq<char>>, words: Seq<Seq<char>>)
    requires
        items.len() == words.len(),
        forall|i: int|
            0 <= i < items.len() ==> (json_node(#[trigger] items[i]) matches Some(
                NodeModel::Object(m),
            ) && (crate::json::find_member(m, "transcript"@) matches Some(t) && json_node(t)
                == Some(NodeModel::Text(words[i])))),
    ensures
        transcripts_in(items) == Some(words),
    decreases items.len(),
{
    if items.len() == 0 {
        assert(words =~= Seq::empty());
    } else {
        let before = items.drop_last();
        assert forall|i: int| 0 <= i < before.len() implies (json_node(
            #[trigger] before[i],
        ) matches Some(NodeModel::Object(m)) && (crate::json::find_member(m, "transcript"@) matches Some(
            t,
        ) && json_node(t) == Some(NodeModel::Text(words.drop_last()[i])))) by {
            assert(before[i] == items[i]);
        }
        lemma_transcripts(before, words.drop_last());
        assert(items[items.len() - 1] == items.last());
        assert(words.drop_last().push(words.last()) =~= words);
    }
}

/// How the end of a session's task is told: not at all where it simply
/// finished, else as an error of its track, with what went wrong.
pub proof fn task_failures_are_told(
    track: TrackId,
    error: String,
    failed: Option<PipelineEvent>,
    panicked: Option<PipelineEvent>,
    finished: Option<PipelineEvent>,
)
    requires
        call_ensures(task_ended, (track, TaskOutcome::Failed(error)), failed),
        call_ensures(task_ended, (track, TaskOutcome::Panicked(Some(error))), panicked),
        call_ensures(task_ended, (track, TaskOutcome::Finished), finished),
    ensures
        event_view(failed) == Some(EventModel::Error { track, error: error@ }),
        event_view(panicked) == Some(
            EventModel::Error { track, error: "client task panicked: "@ + error@ },
        ),
        finished is None,
{
}

/// Samples that were not sent are reported: as dropped each time the queue was
/// full, as the end of the session only the first time.
pub proof fn lost_samples_are_reported(
    outcome: SendOutcome,
    first: (PushReport, bool),
    second: (PushReport, bool),
)
    requires
        call_ensures(push_report, (outcome, false), first),
        call_ensures(push_report, (outcome, first.1), second),
    ensures
        outcome == SendOutcome::Sent ==> first.0 == PushReport::Nothing && second.0
            == PushReport::Nothing,
        outcome == SendOutcome::Full ==> first.0 == PushReport::Dropped && second.0
            == PushReport::Dropped,
        outcome == SendOutcome::Closed ==> first.0 == PushReport::SessionEnded && second.0
            == PushReport::Nothing,
        first.1 <==> outcome == SendOutcome::Closed,
{
}

/// The address names every parameter of the connection with its value, each
/// once, in one order.
pub proof fn address_names_every_parameter(cfg: &DeepgramConfig, url: String)
    requires
        call_ensures(DeepgramConfig::build_url, (cfg,), url),
    ensures
        ({
            let word = |b: bool|
                if b {
                    "true"@
                } else {
                    "false"@
                };
            url@ == cfg.endpoint@ + "?"@ + crate::text::joined(
                seq![
                    "model"@ + "="@ + cfg.model@,
                    "language"@ + "="@ + cfg.language@,
                    "encoding"@ + "="@ + "linear16"@,
                    "sample_rate"@ + "="@ + crate::text::decimal(cfg.sample_rate as nat),
                    "channels"@ + "="@ + crate::text::decimal(cfg.channels as nat),
                    "interim_results"@ + "="@ + word(cfg.interim_results),
                    "endpointing"@ + "="@ + crate::text::decimal(cfg.endpointing_ms as nat),
                    "utterance_end_ms"@ + "="@ + crate::text::decimal(cfg.utterance_end_ms as nat),
                    "smart_format"@ + "="@ + word(cfg.smart_format),
                    "punctuate"@ + "="@ + word(cfg.punctuate),
                ],
                "&"@,
            )
        }),
{
    let parts = stream_params(*cfg).map_values(|p: (Seq<char>, Seq<char>)| p.0 + "="@ + p.1);
    assert(parts =~= seq![
        "model"@ + "="@ + cfg.model@,
        "language"@ + "="@ + cfg.language@,
        "encoding"@ + "="@ + "linear16"@,
        "sample_rate"@ + "="@ + crate::text::decimal(cfg.sample_rate as nat),
        "channels"@ + "="@ + crate::text::decimal(cfg.channels as nat),
        "interim_results"@ + "="@ + bool_word(cfg.interim_results),
        "endpointing"@ + "="@ + crate::text::decimal(cfg.endpointing_ms as nat),
        "utterance_end_ms"@ + "="@ + crate::text::decimal(cfg.utterance_end_ms as nat),
        "smart_format"@ + "="@ + bool_word(cfg.smart_format),
        "punctuate"@ + "="@ + bool_word(cfg.punctuate),
    ]);
}

/// The default parameters of a connection, with the language that was given,
/// or its detection.
pub proof fn connections_have_their_language(
    key: String,
    lang: &str,
    fixed: DeepgramConfig,
    detecting: DeepgramConfig,
)
    requires
        call_ensures(DeepgramConfig::with_language, (key, lang), fixed),
        call_ensures(DeepgramConfig::with_detect_language, (key,), detecting),
    ensures
        fixed.language@ == lang@,
        detecting.language@ == "multi"@,
        fixed.api_key@ == key@ && detecting.api_key@ == key@,
        fixed.model@ == "nova-3"@ && detecting.model@ == "nova-3"@,
        fixed.sample_rate == 16_000 && detecting.sample_rate == 16_000,
        fixed.channels == 1 && detecting.channels == 1,
        fixed.interim_results && detecting.interim_results,
        fixed.smart_format && detecting.smart_format,
        fixed.punctuate && detecting.punctuate,
        fixed.endpointing_ms == 300 && detecting.endpointing_ms == 300,
        fixed.utterance_end_ms == 1000 && detecting.utterance_end_ms == 1000,
        fixed.endpoint@ == detecting.endpoint@,
{
}

/// A message reaches the buffer as long as the session is not over: what it
/// does there is done, and what it tells is told. One that is no JSON, or no
/// result although it says so, changes nothing, and is reported while the
/// session streams.
pub proof fn messages_reach_the_buffer(
    c: &mut DeepgramClient,
    text: String,
    now: Instant,
    r: Option<ClientAction>,
)
    requires
        call_ensures(
            DeepgramClient::step,
            (c, ClientInput::Message(WsMessage::Text(text)), now),
            r,
        ),
        old(c)@.phase != SessionPhase::Closed,
    ensures
        final(c)@.phase == old(c)@.phase,
        match json_node(text@) {
            Some(node) => match node_step(old(c)@.buffer, node, now, old(c)@.track) {
                Some((buffer, event)) => {
                    &&& final(c)@.buffer == buffer
                    &&& match event {
                        Some(e) => r matches Some(ClientAction::Emit(told)) && told@ == e,
                        None => r is None,
                    }
                },
                None => {
                    &&& final(c)@.buffer == old(c)@.buffer
                    &&& if old(c)@.phase == SessionPhase::Streaming {
                        r matches Some(ClientAction::Report(e)) && e is Schema
                    } else {
                        r is None
                    }
                },
            },
            None => {
                &&& final(c)@.buffer == old(c)@.buffer
                &&& if old(c)@.phase == SessionPhase::Streaming {
                    r matches Some(ClientAction::Report(e)) && e is Json
                } else {
                    r is None
                }
            },
        },
{
}

/// A new session streams into an empty buffer of its track.
pub proof fn new_session_streams(cfg: TranscriptBufferConfig, track: TrackId, c: DeepgramClient)
    requires
        call_ensures(DeepgramClient::new, (cfg, track), c),
    ensures
        c@.phase == SessionPhase::Streaming,
        c@.track == track,
        c@.buffer.cfg == cfg,
        c@.buffer.text.len() == 0,
{
}

/// The key goes along with a connection, and samples are offered to it unless
/// there are none.
pub proof fn connection_is_authorized(cfg: &DeepgramConfig, auth: String, samples: &[i16], r: bool)
    requires
        call_ensures(stream_auth_header, (cfg,), auth),
        call_ensures(worth_sending, (samples,), r),
    ensures
        auth@ == "Token "@ + cfg.api_key@,
        r <==> samples@.len() > 0,
{
}

} // verus!
