//! Streaming text-to-speech: the connection parameters, the messages, and
//! the session that turns text into audio.

use crate::clock::Instant;
use crate::json::{json_node, quote, read_node, JsonNode, NodeModel};
use crate::pcm::samples_from_le;
use crate::text::{chars_of, decimal_text, has_prefix, parse_up_to, text_after, trim_text};
use base64::Engine;
use vstd::prelude::*;
use vstd::string::*;

verus! {

broadcast use vstd::string::group_string_axioms;

/// Parameters of the speech service. The voice settings are in hundredths.
#[derive(Debug, Clone)]
pub struct ElevenLabsConfig {
    pub api_key: String,
    pub voice_id: String,
    pub model_id: String,
    pub output_format: String,
    pub stability_percent: u32,
    pub similarity_percent: u32,
    pub endpoint: String,
}

/// The sample rate that an output format implies: the number behind `pcm_`,
/// or 24000 where there is none.
pub open spec fn rate_of(output_format: Seq<char>) -> nat {
    if "pcm_"@.is_prefix_of(output_format) {
        match crate::text::parsed_up_to(output_format.skip("pcm_"@.len() as int), u32::MAX as nat) {
            Some(rate) => rate,
            None => 24_000,
        }
    } else {
        24_000
    }
}

impl ElevenLabsConfig {
    /// Default parameters for a voice.
    pub fn new(api_key: String, voice_id: String) -> (r: ElevenLabsConfig)
        ensures
            r.api_key@ == api_key@,
            r.voice_id@ == voice_id@,
            r.model_id@ == "eleven_flash_v2_5"@,
            r.output_format@ == "pcm_24000"@,
            r.stability_percent == 50,
            r.similarity_percent == 80,
            r.endpoint@ == "wss://api.elevenlabs.io/v1/text-to-speech"@,
    {
        ElevenLabsConfig {
            api_key,
            voice_id,
            model_id: "eleven_flash_v2_5".to_owned(),
            output_format: "pcm_24000".to_owned(),
            stability_percent: 50,
            similarity_percent: 80,
            endpoint: "wss://api.elevenlabs.io/v1/text-to-speech".to_owned(),
        }
    }

    /// The address to connect to.
    pub fn build_url(&self) -> (r: String)
        ensures
            r@ == self.endpoint@ + "/"@ + self.voice_id@ + "/stream-input?model_id="@
                + self.model_id@ + "&output_format="@ + self.output_format@,
    {
        let mut url: String = self.endpoint.clone();
        url.append("/");
        url.append(self.voice_id.as_str());
        url.append("/stream-input?model_id=");
        url.append(self.model_id.as_str());
        url.append("&output_format=");
        url.append(self.output_format.as_str());
        url
    }

    /// Sample rate implied by `output_format` (e.g. `pcm_24000` means 24000).
    pub fn sample_rate(&self) -> (r: u32)
        ensures
            r == rate_of(self.output_format@),
    {
        proof {
            reveal_strlit("pcm_");
        }
        if has_prefix(self.output_format.as_str(), "pcm_") {
            let rest: String = text_after(self.output_format.as_str(), 4);
            match parse_up_to(rest.as_str(), 0xffff_ffff) {
                Some(rate) => rate as u32,
                None => 24_000,
            }
        } else {
            24_000
        }
    }

    /// The message that opens a connection.
    pub fn init_message(&self) -> (r: String)
        ensures
            r@ == init_text(self.stability_percent as nat, self.similarity_percent as nat),
    {
        let mut out: String = "{\"text\":\" \",\"voice_settings\":{\"stability\":".to_owned();
        out.append(hundredths(self.stability_percent).as_str());
        out.append(",\"similarity_boost\":");
        out.append(hundredths(self.similarity_percent).as_str());
        out.append(",\"use_speaker_boost\":false},");
        out.append("\"generation_config\":{\"chunk_length_schedule\":[50,120,160,250]}}");
        out
    }
}

/// A number of hundredths as a decimal fraction.
pub open spec fn hundredths_text(n: nat) -> Seq<char> {
    crate::text::decimal(n / 100) + "."@ + crate::calendar::zero_padded(n % 100, 2)
}

/// The message that opens a connection.
pub open spec fn init_text(stability: nat, similarity: nat) -> Seq<char> {
    "{\"text\":\" \",\"voice_settings\":{\"stability\":"@ + hundredths_text(stability)
        + ",\"similarity_boost\":"@ + hundredths_text(similarity)
        + ",\"use_speaker_boost\":false},"@
        + "\"generation_config\":{\"chunk_length_schedule\":[50,120,160,250]}}"@
}

fn hundredths(n: u32) -> (r: String)
    ensures
        r@ == hundredths_text(n as nat),
{
    let mut out: String = decimal_text((n / 100) as u64);
    out.append(".");
    out.append(crate::calendar::zero_pad((n % 100) as u64, 2).as_str());
    out
}

/// The bytes that a text denotes in standard base64 with padding, if it is base64.
pub uninterp spec fn base64_bytes(text: Seq<char>) -> Option<Seq<u8>>;

/// `base64::engine::general_purpose::STANDARD.decode`: the bytes of a text in
/// standard base64 with padding, or nothing where the text is not that. The
/// result is a function of the text alone, and is named [`base64_bytes`].
#[verifier::external_body]
pub(crate) fn decode_base64(text: &str) -> (r: Option<Vec<u8>>)
    ensures
        match r {
            Some(bytes) => base64_bytes(text@) == Some(bytes@),
            None => base64_bytes(text@) is None,
        },
{
    base64::engine::general_purpose::STANDARD.decode(text).ok()
}

/// The samples of decoded audio, of which there is at least one.
pub open spec fn audio_of(bytes: Option<Seq<u8>>) -> Option<Seq<i16>> {
    match bytes {
        Some(b) => if b.len() >= 2 {
            Some(crate::pcm::samples_of(b))
        } else {
            None
        },
        None => None,
    }
}

/// The samples that an audio field holds.
pub open spec fn audio_in(text: Seq<char>) -> Option<Seq<i16>> {
    if text.len() == 0 {
        None
    } else {
        audio_of(base64_bytes(text))
    }
}

/// What optional samples are.
pub open spec fn samples_view(o: Option<Vec<i16>>) -> Option<Seq<i16>> {
    match o {
        Some(v) => Some(v@),
        None => None,
    }
}

/// The samples of decoded audio.
pub fn pcm_of(bytes: Option<Vec<u8>>) -> (r: Option<Vec<i16>>)
    ensures
        samples_view(r) == audio_of(
            match bytes {
                Some(b) => Some(b@),
                None => None,
            },
        ),
{
    match bytes {
        None => None,
        Some(b) => {
            if b.len() < 2 {
                None
            } else {
                Some(samples_from_le(b.as_slice()))
            }
        },
    }
}

/// Decodes an audio field: base64 of 16-bit little-endian samples.
pub fn decode_pcm(b64: &str) -> (r: Option<Vec<i16>>)
    ensures
        samples_view(r) == audio_in(b64@),
{
    if b64.is_empty() {
        return None;
    }
    pcm_of(decode_base64(b64))
}

/// The text of an utterance as it is sent: it ends in a space.
pub open spec fn spaced(text: Seq<char>) -> Seq<char> {
    if text.len() > 0 && text.last() == ' ' {
        text
    } else {
        text.push(' ')
    }
}

/// The message that speaks an utterance.
pub open spec fn utterance_text(text: Seq<char>) -> Seq<char> {
    "{\"text\":"@ + crate::json::json_quoted(spaced(text)) + ",\"flush\":true}"@
}

/// The text of an utterance as it is sent: it ends in a space.
pub fn spaced_text(text: &str) -> (r: String)
    ensures
        r@ == spaced(text@),
{
    let chars: Vec<char> = chars_of(text);
    let mut full: String = text.to_owned();
    if !(chars.len() > 0 && chars[chars.len() - 1] == ' ') {
        full.push(' ');
    }
    full
}

/// The message that speaks a text in JSON notation.
pub fn flush_message(quoted: &str) -> (r: String)
    ensures
        r@ == "{\"text\":"@ + quoted@ + ",\"flush\":true}"@,
{
    let mut out: String = "{\"text\":".to_owned();
    out.append(quoted);
    out.append(",\"flush\":true}");
    out
}

/// The message that speaks an utterance.
pub fn utterance_message(text: &str) -> (r: String)
    ensures
        r@ == utterance_text(text@),
{
    let full: String = spaced_text(text);
    flush_message(quote(full.as_str()).as_str())
}

/// The message that keeps an idle connection open.
pub open spec fn keepalive_text() -> Seq<char> {
    "{\"text\":\" \"}"@
}

/// The message that ends a connection.
pub open spec fn close_text() -> Seq<char> {
    "{\"text\":\"\"}"@
}

/// Where a speech session stands.
#[derive(Debug, Clone, Copy, PartialEq, Eq, Structural)]
pub enum TtsPhase {
    /// Text goes out and audio comes in.
    Speaking,
    /// No more text goes out; the last audio comes in.
    Draining,
    /// The session is over.
    Closed,
}

/// What happens to a speech session.
#[derive(Debug)]
pub enum TtsInput {
    /// A sentence to speak.
    Text(String),
    /// No more sentences will come.
    TextEnded,
    /// A text message came in.
    Reply(String),
    /// A binary message came in.
    Audio(Vec<u8>),
    /// A message of another kind came in.
    Other,
    /// The connection was closed or failed, or stayed silent for too long
    /// while the last audio was awaited.
    Ended,
    /// The keepalive timer fired.
    KeepaliveTick,
}

/// What a speech session has done.
#[derive(Debug)]
pub enum TtsAction {
    /// Send this text message.
    Send(String),
    /// Play these samples.
    Play(Vec<i16>),
    /// An utterance is complete.
    Boundary,
}

/// What a [`TtsAction`] says.
pub enum TtsActionModel {
    Send(Seq<char>),
    Play(Seq<i16>),
    Boundary,
}

impl View for TtsAction {
    type V = TtsActionModel;

    open spec fn view(&self) -> TtsActionModel {
        match self {
            TtsAction::Send(text) => TtsActionModel::Send(text@),
            TtsAction::Play(samples) => TtsActionModel::Play(samples@),
            TtsAction::Boundary => TtsActionModel::Boundary,
        }
    }
}

/// What a list of actions says.
pub open spec fn actions_view(actions: Seq<TtsAction>) -> Seq<TtsActionModel> {
    actions.map_values(|a: TtsAction| a@)
}

/// The samples to play of a message's `audio` member, if it has any.
pub open spec fn reply_audio(node: NodeModel) -> Seq<TtsActionModel> {
    match node.text_member("audio"@) {
        Some(b64) => match audio_in(b64) {
            Some(samples) => seq![TtsActionModel::Play(samples)],
            None => Seq::empty(),
        },
        None => Seq::empty(),
    }
}

/// What a message asks for while text goes out: its audio is played, and
/// `isFinal` marks the end of an utterance.
pub open spec fn reply_actions(node: NodeModel) -> Seq<TtsActionModel> {
    if node.bool_member("isFinal"@) == Some(true) {
        reply_audio(node).push(TtsActionModel::Boundary)
    } else {
        reply_audio(node)
    }
}

/// How long a connection is idle before a keepalive goes out.
pub open spec fn keepalive_idle_nanos() -> int {
    8_000_000_000
}

/// A speech session: how far the exchange with the service has come, and when
/// text was last sent.
#[derive(Debug, Clone, Copy, PartialEq, Eq, Structural)]
pub struct TtsSession {
    pub phase: TtsPhase,
    pub last_text_at: Instant,
}

impl TtsSession {
    /// One step of a session.
    pub open spec fn stepped(self, input: TtsInput, now: Instant) -> (
        TtsSession,
        Seq<TtsActionModel>,
    ) {
        match (self.phase, input) {
            (TtsPhase::Speaking, TtsInput::Text(text)) => if crate::text::blank(text@) {
                (self, Seq::empty())
            } else {
                (
                    TtsSession { last_text_at: now, ..self },
                    seq![TtsActionModel::Send(utterance_text(text@))],
                )
            },
            (TtsPhase::Speaking, TtsInput::TextEnded) => (
                TtsSession { phase: TtsPhase::Draining, ..self },
                seq![TtsActionModel::Send(close_text())],
            ),
            (TtsPhase::Speaking, TtsInput::Reply(text)) => (
                self,
                match json_node(text@) {
                    Some(node) => reply_actions(node),
                    None => Seq::empty(),
                },
            ),
            (TtsPhase::Speaking, TtsInput::Audio(bytes)) => (
                self,
                if bytes@.len() > 0 {
                    seq![TtsActionModel::Play(crate::pcm::samples_of(bytes@))]
                } else {
                    Seq::empty()
                },
            ),
            (TtsPhase::Speaking, TtsInput::Ended) => (
                TtsSession { phase: TtsPhase::Draining, ..self },
                Seq::empty(),
            ),
            (TtsPhase::Speaking, TtsInput::KeepaliveTick) => (
                self,
                if crate::clock::elapsed(now, self.last_text_at) >= keepalive_idle_nanos() {
                    seq![TtsActionModel::Send(keepalive_text())]
                } else {
                    Seq::empty()
                },
            ),
            (TtsPhase::Draining, TtsInput::Reply(text)) => (
                self,
                match json_node(text@) {
                    Some(node) => reply_audio(node),
                    None => Seq::empty(),
                },
            ),
            (TtsPhase::Draining, TtsInput::Audio(_)) => (
                TtsSession { phase: TtsPhase::Closed, ..self },
                Seq::empty(),
            ),
            (TtsPhase::Draining, TtsInput::Other) => (
                TtsSession { phase: TtsPhase::Closed, ..self },
                Seq::empty(),
            ),
            (TtsPhase::Draining, TtsInput::Ended) => (
                TtsSession { phase: TtsPhase::Closed, ..self },
                Seq::empty(),
            ),
            _ => (self, Seq::empty()),
        }
    }

    /// A session whose connection has just been opened.
    pub fn new(now: Instant) -> (r: TtsSession)
        ensures
            r == (TtsSession { phase: TtsPhase::Speaking, last_text_at: now }),
    {
        TtsSession { phase: TtsPhase::Speaking, last_text_at: now }
    }

    /// Takes what happened into the session, and returns what is to be done.
    pub fn step(&mut self, input: TtsInput, now: Instant) -> (r: Vec<TtsAction>)
        ensures
            (*final(self), actions_view(r@)) == old(self).stepped(input, now),
    {
        let mut out: Vec<TtsAction> = Vec::new();
        assert(actions_view(out@) =~= Seq::empty());
        match self.phase {
            TtsPhase::Speaking => match input {
                TtsInput::Text(text) => {
                    if !trim_text(text.as_str()).as_str().is_empty() {
                        out.push(TtsAction::Send(utterance_message(text.as_str())));
                        self.last_text_at = now;
                        assert(actions_view(out@) =~= seq![
                            TtsActionModel::Send(utterance_text(text@)),
                        ]);
                    }
                },
                TtsInput::TextEnded => {
                    out.push(TtsAction::Send("{\"text\":\"\"}".to_owned()));
                    self.phase = TtsPhase::Draining;
                    assert(actions_view(out@) =~= seq![TtsActionModel::Send(close_text())]);
                },
                TtsInput::Reply(text) => {
                    if let Ok(node) = read_node(text.as_str()) {
                        out = node_actions(&node, true);
                    }
                },
                TtsInput::Audio(bytes) => {
                    if bytes.len() > 0 {
                        out.push(TtsAction::Play(samples_from_le(bytes.as_slice())));
                        assert(actions_view(out@) =~= seq![
                            TtsActionModel::Play(crate::pcm::samples_of(bytes@)),
                        ]);
                    }
                },
                TtsInput::Other => {},
                TtsInput::Ended => {
                    self.phase = TtsPhase::Draining;
                },
                TtsInput::KeepaliveTick => {
                    if now.duration_since(self.last_text_at).nanos >= 8_000_000_000 {
                        out.push(TtsAction::Send("{\"text\":\" \"}".to_owned()));
                        assert(actions_view(out@) =~= seq![TtsActionModel::Send(keepalive_text())]);
                    }
                },
            },
            TtsPhase::Draining => match input {
                TtsInput::Reply(text) => {
                    if let Ok(node) = read_node(text.as_str()) {
                        out = node_actions(&node, false);
                    }
                },
                TtsInput::Audio(_) => {
                    self.phase = TtsPhase::Closed;
                },
                TtsInput::Other => {
                    self.phase = TtsPhase::Closed;
                },
                TtsInput::Ended => {
                    self.phase = TtsPhase::Closed;
                },
                _ => {},
            },
            TtsPhase::Closed => {},
        }
        out
    }
}

/// What a parsed message asks for; the end of an utterance is told only where
/// `boundaries` says so.
pub fn node_actions(node: &JsonNode, boundaries: bool) -> (r: Vec<TtsAction>)
    ensures
        actions_view(r@) == if boundaries {
            reply_actions(node@)
        } else {
            reply_audio(node@)
        },
{
    let mut out: Vec<TtsAction> = Vec::new();
    assert(actions_view(out@) =~= Seq::empty());
    if let Some(b64) = node.text_member("audio") {
        if let Some(samples) = decode_pcm(b64.as_str()) {
            out.push(TtsAction::Play(samples));
            assert(actions_view(out@) =~= seq![TtsActionModel::Play(samples@)]);
        }
    }
    if boundaries {
        if let Some(true) = node.bool_member("isFinal") {
            let ghost before = out@;
            out.push(TtsAction::Boundary);
            assert(actions_view(out@) =~= actions_view(before).push(TtsActionModel::Boundary));
        }
    }
    out
}

/// Once no more text will come, nothing is sent any more, and once the session
/// is over nothing happens.
pub proof fn drained_session_is_silent(m: TtsSession, input: TtsInput, now: Instant)
    requires
        m.phase != TtsPhase::Speaking,
    ensures
        m.stepped(input, now).0.phase != TtsPhase::Speaking,
        forall|i: int|
            0 <= i < m.stepped(input, now).1.len() ==> (#[trigger] m.stepped(input, now).1[i])
                is Play,
        m.phase == TtsPhase::Closed ==> m.stepped(input, now) == (
            m,
            Seq::<TtsActionModel>::empty(),
        ),
{
}

/// A keepalive is sent only where no sentence was sent for eight seconds, and
/// it does not count as one.
pub proof fn keepalive_waits(m: TtsSession, now: Instant)
    ensures
        m.stepped(TtsInput::KeepaliveTick, now).0 == m,
        m.stepped(TtsInput::KeepaliveTick, now).1.len() > 0 <==> m.phase == TtsPhase::Speaking
            && crate::clock::elapsed(now, m.last_text_at) >= 8_000_000_000,
{
}

/// A session after a sequence of inputs, each with the time at which it came,
/// and all that it has done.
pub open spec fn session_after(m: TtsSession, inputs: Seq<(TtsInput, Instant)>) -> (
    TtsSession,
    Seq<TtsActionModel>,
)
    decreases inputs.len(),
{
    if inputs.len() == 0 {
        (m, Seq::empty())
    } else {
        let (before, done) = session_after(m, inputs.drop_last());
        let (after, more) = before.stepped(inputs.last().0, inputs.last().1);
        (after, done + more)
    }
}

/// The messages that were sent.
pub open spec fn sent_messages(actions: Seq<TtsActionModel>) -> Seq<Seq<char>>
    decreases actions.len(),
{
    if actions.len() == 0 {
        Seq::empty()
    } else {
        match actions.last() {
            TtsActionModel::Send(text) => sent_messages(actions.drop_last()).push(text),
            _ => sent_messages(actions.drop_last()),
        }
    }
}

/// The messages that speak: neither a keepalive nor the closing message.
pub open spec fn utterances(messages: Seq<Seq<char>>) -> Seq<Seq<char>>
    decreases messages.len(),
{
    if messages.len() == 0 {
        Seq::empty()
    } else if messages.last() == keepalive_text() || messages.last() == close_text() {
        utterances(messages.drop_last())
    } else {
        utterances(messages.drop_last()).push(messages.last())
    }
}

/// The texts among the inputs that are not blank.
pub open spec fn texts_in(inputs: Seq<(TtsInput, Instant)>) -> Seq<Seq<char>>
    decreases inputs.len(),
{
    if inputs.len() == 0 {
        Seq::empty()
    } else {
        match inputs.last().0 {
            TtsInput::Text(text) => if crate::text::blank(text@) {
                texts_in(inputs.drop_last())
            } else {
                texts_in(inputs.drop_last()).push(text@)
            },
            _ => texts_in(inputs.drop_last()),
        }
    }
}

/// Whether an input is the end of the text or of the connection.
pub open spec fn is_end(input: TtsInput) -> bool {
    input is TextEnded || input is Ended
}

/// Whether neither the text nor the connection has ended.
pub open spec fn no_end(inputs: Seq<(TtsInput, Instant)>) -> bool {
    forall|i: int| 0 <= i < inputs.len() ==> !is_end((#[trigger] inputs[i]).0)
}

/// The inputs before the first end of the text or of the connection.
pub open spec fn before_end(inputs: Seq<(TtsInput, Instant)>) -> Seq<(TtsInput, Instant)>
    decreases inputs.len(),
{
    if inputs.len() == 0 || no_end(inputs) {
        inputs
    } else {
        before_end(inputs.drop_last())
    }
}

/// Whether the first end among the inputs is that of the text.
pub open spec fn text_ends_first(inputs: Seq<(TtsInput, Instant)>) -> bool {
    &&& before_end(inputs).len() < inputs.len()
    &&& inputs[before_end(inputs).len() as int].0 is TextEnded
}

proof fn lemma_before_end(inputs: Seq<(TtsInput, Instant)>)
    ensures
        before_end(inputs).len() <= inputs.len(),
        no_end(inputs) <==> before_end(inputs).len() == inputs.len(),
    decreases inputs.len(),
{
    if inputs.len() > 0 && !no_end(inputs) {
        lemma_before_end(inputs.drop_last());
    }
}

proof fn lemma_no_end_step(inputs: Seq<(TtsInput, Instant)>)
    requires
        inputs.len() > 0,
    ensures
        no_end(inputs) <==> no_end(inputs.drop_last()) && !is_end(inputs.last().0),
{
    let earlier = inputs.drop_last();
    assert(forall|i: int| 0 <= i < earlier.len() ==> #[trigger] earlier[i] == inputs[i]);
    assert(forall|i: int|
        0 <= i < inputs.len() ==> #[trigger] inputs[i] == if i < earlier.len() {
            earlier[i]
        } else {
            inputs.last()
        });
}

proof fn lemma_sent_add(a: Seq<TtsActionModel>, b: Seq<TtsActionModel>)
    ensures
        sent_messages(a + b) == sent_messages(a) + sent_messages(b),
    decreases b.len(),
{
    if b.len() == 0 {
        assert(a + b =~= a);
    } else {
        lemma_sent_add(a, b.drop_last());
        assert((a + b).drop_last() =~= a + b.drop_last());
        assert((a + b).last() == b.last());
    }
}

proof fn lemma_nothing_sent(actions: Seq<TtsActionModel>)
    requires
        forall|i: int| 0 <= i < actions.len() ==> !((#[trigger] actions[i]) is Send),
    ensures
        sent_messages(actions) == Seq::<Seq<char>>::empty(),
    decreases actions.len(),
{
    if actions.len() > 0 {
        assert(!(actions[actions.len() - 1] is Send));
        lemma_nothing_sent(actions.drop_last());
    }
}

proof fn lemma_one_sent(text: Seq<char>)
    ensures
        sent_messages(seq![TtsActionModel::Send(text)]) == seq![text],
{
    reveal_with_fuel(sent_messages, 2);
    assert(seq![TtsActionModel::Send(text)].drop_last() =~= Seq::empty());
}

proof fn lemma_messages_differ(text: Seq<char>)
    ensures
        utterance_text(text) != keepalive_text(),
        utterance_text(text) != close_text(),
        keepalive_text() != close_text(),
{
    reveal_strlit("{\"text\":");
    reveal_strlit(",\"flush\":true}");
    reveal_strlit("{\"text\":\" \"}");
    reveal_strlit("{\"text\":\"\"}");
    assert(utterance_text(text).len() > keepalive_text().len() > close_text().len());
}

proof fn lemma_step_sends(m: TtsSession, input: TtsInput, now: Instant)
    ensures
        ({
            let sent = sent_messages(m.stepped(input, now).1);
            match (m.phase, input) {
                (TtsPhase::Speaking, TtsInput::Text(text)) => sent == if crate::text::blank(text@) {
                    Seq::<Seq<char>>::empty()
                } else {
                    seq![utterance_text(text@)]
                },
                (TtsPhase::Speaking, TtsInput::TextEnded) => sent == seq![close_text()],
                (TtsPhase::Speaking, TtsInput::KeepaliveTick) => sent
                    == Seq::<Seq<char>>::empty() || sent == seq![keepalive_text()],
                _ => sent == Seq::<Seq<char>>::empty(),
            }
        }),
{
    match (m.phase, input) {
        (TtsPhase::Speaking, TtsInput::Text(text)) => {
            lemma_one_sent(utterance_text(text@));
        },
        (TtsPhase::Speaking, TtsInput::TextEnded) => {
            lemma_one_sent(close_text());
        },
        (TtsPhase::Speaking, TtsInput::KeepaliveTick) => {
            lemma_one_sent(keepalive_text());
        },
        _ => {
            lemma_nothing_sent(m.stepped(input, now).1);
        },
    }
}

proof fn lemma_spoken(new: TtsSession, inputs: Seq<(TtsInput, Instant)>)
    requires
        new.phase == TtsPhase::Speaking,
    ensures
        session_after(new, inputs).0.phase == TtsPhase::Speaking <==> no_end(inputs),
        ({
            let sent = sent_messages(session_after(new, inputs).1);
            &&& utterances(sent) == texts_in(before_end(inputs)).map_values(
                |text: Seq<char>| utterance_text(text),
            )
            &&& text_ends_first(inputs) ==> sent.len() > 0 && sent.last() == close_text()
                && !sent.drop_last().contains(close_text())
            &&& !text_ends_first(inputs) ==> !sent.contains(close_text())
        }),
    decreases inputs.len(),
{
    let speak = |text: Seq<char>| utterance_text(text);
    let sent = sent_messages(session_after(new, inputs).1);
    lemma_before_end(inputs);
    if inputs.len() == 0 {
        assert(texts_in(before_end(inputs)).map_values(speak) =~= Seq::empty());
    } else {
        let earlier = inputs.drop_last();
        let (input, now) = inputs.last();
        let (before, done) = session_after(new, earlier);
        let sent_before = sent_messages(done);
        let sent_now = sent_messages(before.stepped(input, now).1);
        lemma_spoken(new, earlier);
        lemma_before_end(earlier);
        lemma_sent_add(done, before.stepped(input, now).1);
        lemma_step_sends(before, input, now);
        lemma_no_end_step(inputs);
        if sent_now.len() == 0 {
            assert(sent =~= sent_before);
        } else {
            assert(sent =~= sent_before.push(sent_now[0]));
            assert(sent.drop_last() =~= sent_before);
            assert(forall|i: int|
                0 <= i < sent.len() ==> #[trigger] sent[i] == if i < sent_before.len() {
                    sent_before[i]
                } else {
                    sent_now[0]
                });
        }
        lemma_messages_differ(Seq::empty());
        if no_end(inputs) {
            assert(before_end(inputs) == inputs);
            assert(before_end(earlier) == earlier);
            if let TtsInput::Text(text) = input {
                lemma_messages_differ(text@);
                if !crate::text::blank(text@) {
                    assert(texts_in(inputs).map_values(speak) =~= texts_in(earlier).map_values(
                        speak,
                    ).push(utterance_text(text@)));
                }
            }
        }
    }
}

/// What a session sends: each text that is not blank and came before the first
/// end of the text or of the connection is spoken, once, in its order, and
/// nothing else is. The closing message goes out where the text ended while
/// the session was speaking, once, as the last one.
pub proof fn every_text_is_spoken_once(start: Instant, inputs: Seq<(TtsInput, Instant)>)
    ensures
        ({
            let new = TtsSession { phase: TtsPhase::Speaking, last_text_at: start };
            let sent = sent_messages(session_after(new, inputs).1);
            &&& utterances(sent) == texts_in(before_end(inputs)).map_values(
                |text: Seq<char>| utterance_text(text),
            )
            &&& text_ends_first(inputs) ==> sent.len() > 0 && sent.last() == close_text()
                && !sent.drop_last().contains(close_text())
            &&& !text_ends_first(inputs) ==> !sent.contains(close_text())
        }),
{
    let new = TtsSession { phase: TtsPhase::Speaking, last_text_at: start };
    lemma_spoken(new, inputs);
}

/// The audio that was played, piece by piece.
pub open spec fn played(actions: Seq<TtsActionModel>) -> Seq<Seq<i16>>
    decreases actions.len(),
{
    if actions.len() == 0 {
        Seq::empty()
    } else {
        match actions.last() {
            TtsActionModel::Play(samples) => played(actions.drop_last()).push(samples),
            _ => played(actions.drop_last()),
        }
    }
}

/// The audio that an input carries: that of a message's `audio` member, or that
/// of a binary message.
pub open spec fn carried(input: TtsInput) -> Option<Seq<i16>> {
    match input {
        TtsInput::Reply(text) => match json_node(text@) {
            Some(node) => match node.text_member("audio"@) {
                Some(b64) => audio_in(b64),
                None => None,
            },
            None => None,
        },
        TtsInput::Audio(bytes) => if bytes@.len() > 0 {
            Some(crate::pcm::samples_of(bytes@))
        } else {
            None
        },
        _ => None,
    }
}

/// The audio among the inputs, piece by piece.
pub open spec fn audio_among(inputs: Seq<(TtsInput, Instant)>) -> Seq<Seq<i16>>
    decreases inputs.len(),
{
    if inputs.len() == 0 {
        Seq::empty()
    } else {
        match carried(inputs.last().0) {
            Some(samples) => audio_among(inputs.drop_last()).push(samples),
            None => audio_among(inputs.drop_last()),
        }
    }
}

proof fn lemma_played_add(a: Seq<TtsActionModel>, b: Seq<TtsActionModel>)
    ensures
        played(a + b) == played(a) + played(b),
    decreases b.len(),
{
    if b.len() == 0 {
        assert(a + b =~= a);
    } else {
        lemma_played_add(a, b.drop_last());
        assert((a + b).drop_last() =~= a + b.drop_last());
        assert((a + b).last() == b.last());
    }
}

proof fn lemma_step_plays(m: TtsSession, input: TtsInput, now: Instant)
    requires
        m.phase == TtsPhase::Speaking || m.phase == TtsPhase::Draining && input is Reply,
    ensures
        played(m.stepped(input, now).1) == match carried(input) {
            Some(samples) => seq![samples],
            None => Seq::empty(),
        },
{
    let actions = m.stepped(input, now).1;
    reveal_with_fuel(played, 3);
    if actions.len() == 2 {
        assert(actions.drop_last().drop_last() =~= Seq::empty());
    } else if actions.len() == 1 {
        assert(actions.drop_last() =~= Seq::empty());
    }
}

proof fn lemma_played_speaking(new: TtsSession, inputs: Seq<(TtsInput, Instant)>)
    requires
        new.phase == TtsPhase::Speaking,
        no_end(inputs),
    ensures
        session_after(new, inputs).0.phase == TtsPhase::Speaking,
        played(session_after(new, inputs).1) == audio_among(inputs),
    decreases inputs.len(),
{
    if inputs.len() > 0 {
        let earlier = inputs.drop_last();
        let (input, now) = inputs.last();
        let (before, done) = session_after(new, earlier);
        lemma_no_end_step(inputs);
        lemma_played_speaking(new, earlier);
        lemma_played_add(done, before.stepped(input, now).1);
        lemma_step_plays(before, input, now);
        assert(played(session_after(new, inputs).1) =~= audio_among(inputs));
    }
}

proof fn lemma_played_draining(
    new: TtsSession,
    inputs: Seq<(TtsInput, Instant)>,
    end: (TtsInput, Instant),
    rest: Seq<(TtsInput, Instant)>,
)
    requires
        new.phase == TtsPhase::Speaking,
        no_end(inputs),
        is_end(end.0),
        forall|i: int| 0 <= i < rest.len() ==> (#[trigger] rest[i]).0 is Reply,
    ensures
        session_after(new, inputs.push(end) + rest).0.phase == TtsPhase::Draining,
        played(session_after(new, inputs.push(end) + rest).1) == audio_among(inputs)
            + audio_among(rest),
    decreases rest.len(),
{
    let all = inputs.push(end) + rest;
    let (input, now) = all.last();
    let (before, done) = session_after(new, all.drop_last());
    lemma_played_add(done, before.stepped(input, now).1);
    if rest.len() == 0 {
        assert(all.drop_last() =~= inputs);
        lemma_played_speaking(new, inputs);
    } else {
        let earlier = rest.drop_last();
        assert(all.drop_last() =~= inputs.push(end) + earlier);
        assert(input == rest[rest.len() - 1].0);
        assert(forall|i: int| 0 <= i < earlier.len() ==> #[trigger] earlier[i] == rest[i]);
        lemma_played_draining(new, inputs, end, earlier);
    }
    lemma_step_plays(before, input, now);
    assert(played(session_after(new, all).1) =~= audio_among(inputs) + audio_among(rest));
}

/// What a session plays: the audio of every message that comes while the
/// session is speaking, and that of the replies that come after its end, all
/// of it, in its order.
pub proof fn audio_is_played_as_it_comes(
    start: Instant,
    inputs: Seq<(TtsInput, Instant)>,
    end: (TtsInput, Instant),
    rest: Seq<(TtsInput, Instant)>,
)
    requires
        no_end(inputs),
        is_end(end.0),
        forall|i: int| 0 <= i < rest.len() ==> (#[trigger] rest[i]).0 is Reply,
    ensures
        ({
            let new = TtsSession { phase: TtsPhase::Speaking, last_text_at: start };
            &&& played(session_after(new, inputs).1) == audio_among(inputs)
            &&& played(session_after(new, inputs.push(end) + rest).1) == audio_among(inputs)
                + audio_among(rest)
        }),
{
    let new = TtsSession { phase: TtsPhase::Speaking, last_text_at: start };
    lemma_played_speaking(new, inputs);
    lemma_played_draining(new, inputs, end, rest);
}

/// What a step of a session does, seen from outside while it is speaking: a
/// text that is not blank is sent as an utterance that ends in a space, the
/// end of the text closes the connection, and binary audio is played.
pub proof fn speaking_session_is_seen(
    s: &mut TtsSession,
    input: TtsInput,
    now: Instant,
    r: Vec<TtsAction>,
)
    requires
        call_ensures(TtsSession::step, (s, input, now), r),
        old(s).phase == TtsPhase::Speaking,
    ensures
        input matches TtsInput::Text(text) ==> if crate::text::all_white(text@) {
            r@.len() == 0 && *final(s) == *old(s)
        } else {
            &&& actions_view(r@) == seq![
                TtsActionModel::Send(
                    "{\"text\":"@ + crate::json::json_quoted(
                        if text@.last() == ' ' {
                            text@
                        } else {
                            text@ + seq![' ']
                        },
                    ) + ",\"flush\":true}"@,
                ),
            ]
            &&& *final(s) == (TtsSession { phase: TtsPhase::Speaking, last_text_at: now })
        },
        input is TextEnded ==> actions_view(r@) == seq![TtsActionModel::Send("{\"text\":\"\"}"@)]
            && final(s).phase == TtsPhase::Draining,
        input is Ended ==> r@.len() == 0 && final(s).phase == TtsPhase::Draining,
        input is KeepaliveTick ==> *final(s) == *old(s) && actions_view(r@) == if now.nanos >= old(
            s).last_text_at.nanos + 8_000_000_000 {
            seq![TtsActionModel::Send("{\"text\":\" \"}"@)]
        } else {
            Seq::empty()
        },
        input matches TtsInput::Audio(bytes) ==> *final(s) == *old(s) && actions_view(r@)
            == if bytes@.len() > 0 {
            seq![TtsActionModel::Play(crate::pcm::samples_of(bytes@))]
        } else {
            Seq::empty()
        },
        input is Other ==> r@.len() == 0 && *final(s) == *old(s),
{
    assert(actions_view(r@).len() == r@.len());
    if let TtsInput::Text(text) = input {
        crate::text::lemma_blank_is_white(text@);
        assert(text@.push(' ') =~= text@ + seq![' ']);
    }
}

/// What a reply does: its audio is played whenever the session is not over,
/// and while it is speaking the end of an utterance is told behind it.
pub proof fn replies_are_played(
    s: &mut TtsSession,
    text: String,
    now: Instant,
    r: Vec<TtsAction>,
    node: NodeModel,
    b64: Seq<char>,
    bytes: Seq<u8>,
)
    requires
        call_ensures(TtsSession::step, (s, TtsInput::Reply(text), now), r),
        old(s).phase != TtsPhase::Closed,
        json_node(text@) == Some(node),
        node.text_member("audio"@) == Some(b64),
        b64.len() > 0,
        base64_bytes(b64) == Some(bytes),
        bytes.len() >= 2,
    ensures
        *final(s) == *old(s),
        actions_view(r@) == if old(s).phase == TtsPhase::Speaking && node.bool_member("isFinal"@)
            == Some(true) {
            seq![TtsActionModel::Play(crate::pcm::samples_of(bytes)), TtsActionModel::Boundary]
        } else {
            seq![TtsActionModel::Play(crate::pcm::samples_of(bytes))]
        },
{
    let play = seq![TtsActionModel::Play(crate::pcm::samples_of(bytes))];
    assert(play.push(TtsActionModel::Boundary) =~= seq![
        TtsActionModel::Play(crate::pcm::samples_of(bytes)),
        TtsActionModel::Boundary,
    ]);
}

/// The parameters of a connection: the address names the voice, the model and
/// the format, and the rate of the audio is the number in the format.
pub proof fn connection_has_its_parameters(
    cfg: &ElevenLabsConfig,
    url: String,
    rate: u32,
    n: u32,
)
    requires
        call_ensures(ElevenLabsConfig::build_url, (cfg,), url),
        call_ensures(ElevenLabsConfig::sample_rate, (cfg,), rate),
    ensures
        url@ == cfg.endpoint@ + "/"@ + cfg.voice_id@ + "/stream-input?model_id="@ + cfg.model_id@
            + "&output_format="@ + cfg.output_format@,
        cfg.output_format@ == "pcm_"@ + crate::text::decimal(n as nat) ==> rate == n,
{
    crate::text::decimal_denotes(n as nat);
    reveal_strlit("pcm_");
    let digits = crate::text::decimal(n as nat);
    if cfg.output_format@ == "pcm_"@ + digits {
        assert(cfg.output_format@.skip(4) =~= digits);
        assert("pcm_"@ =~= cfg.output_format@.subrange(0, 4));
    }
}

/// The message that opens a connection tells the voice settings as decimal
/// fractions, whatever they are.
pub proof fn opening_tells_the_voice_settings(cfg: &ElevenLabsConfig, r: String)
    requires
        call_ensures(ElevenLabsConfig::init_message, (cfg,), r),
        cfg.stability_percent < 100,
        cfg.similarity_percent < 100,
    ensures
        ({
            let two = |n: u32|
                "0."@ + seq![
                    crate::text::digit_char((n / 10) as nat),
                    crate::text::digit_char((n % 10) as nat),
                ];
            r@ == "{\"text\":\" \",\"voice_settings\":{\"stability\":"@ + two(
                cfg.stability_percent,
            ) + ",\"similarity_boost\":"@ + two(cfg.similarity_percent)
                + ",\"use_speaker_boost\":false},"@
                + "\"generation_config\":{\"chunk_length_schedule\":[50,120,160,250]}}"@
        }),
{
    lemma_hundredths(cfg.stability_percent);
    lemma_hundredths(cfg.similarity_percent);
}

proof fn lemma_hundredths(n: u32)
    requires
        n < 100,
    ensures
        hundredths_text(n as nat) == "0."@ + seq![
            crate::text::digit_char((n / 10) as nat),
            crate::text::digit_char((n % 10) as nat),
        ],
{
    reveal_strlit(".");
    reveal_strlit("0.");
    reveal_with_fuel(crate::text::decimal, 3);
    assert(hundredths_text(n as nat) =~= "0."@ + seq![
        crate::text::digit_char((n / 10) as nat),
        crate::text::digit_char((n % 10) as nat),
    ]);
}

/// Once no more text goes out, texts and ticks change nothing, and the first
/// message that is no reply ends the session.
pub proof fn draining_session_is_seen(
    s: &mut TtsSession,
    input: TtsInput,
    now: Instant,
    r: Vec<TtsAction>,
)
    requires
        call_ensures(TtsSession::step, (s, input, now), r),
        old(s).phase == TtsPhase::Draining,
        !(input is Reply),
    ensures
        r@.len() == 0,
        final(s).phase == if input is Audio || input is Other || input is Ended {
            TtsPhase::Closed
        } else {
            TtsPhase::Draining
        },
{
    assert(actions_view(r@).len() == r@.len());
}

/// The default parameters of the service, with the key and the voice that were
/// given.
pub proof fn default_voice_parameters(key: String, voice: String, r: ElevenLabsConfig)
    requires
        call_ensures(ElevenLabsConfig::new, (key, voice), r),
    ensures
        r.api_key@ == key@,
        r.voice_id@ == voice@,
        r.model_id@ == "eleven_flash_v2_5"@,
        r.output_format@ == "pcm_24000"@,
        r.stability_percent == 50 && r.similarity_percent == 80,
{
}

/// An audio field is read as the samples of its bytes, where it is base64 and
/// holds a sample; else nothing is read.
pub proof fn audio_fields_are_decoded(b64: &str, r: Option<Vec<i16>>)
    requires
        call_ensures(decode_pcm, (b64,), r),
    ensures
        r is Some <==> b64@.len() > 0 && (base64_bytes(b64@) matches Some(bytes) && bytes.len()
            >= 2),
        r matches Some(samples) ==> (base64_bytes(b64@) matches Some(bytes) && samples@
            == crate::pcm::samples_of(bytes)),
{
}

} // verus!
