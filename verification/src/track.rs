//! One track: transcription, optional translation and optional speech.
//!
//! Outgoing: the microphone is transcribed, translated and spoken. Incoming:
//! what a sink plays is transcribed and translated, for subtitles only.

use crate::capture::CaptureTarget;
use crate::clock::Instant;
use crate::config::{clone_text, AppConfig, ConfigModel};
use crate::deepgram::DeepgramConfig;
use crate::deepl::{ContextModel, DeepLConfig, TranslationContext};
use crate::elevenlabs::ElevenLabsConfig;
use crate::events::{EventModel, PipelineEvent, TrackId};
use crate::playback::{PlaybackFormat, PlaybackTarget};
use crate::session_log::LogTrack;
use crate::text::{text_view, trim_text};
use vstd::prelude::*;
use vstd::string::*;
use vstd::utf8::encode_utf8;

verus! {

broadcast use vstd::string::group_string_axioms;

/// Events of a track, for the user interface.
#[derive(Debug)]
pub enum TrackEvent {
    /// Live transcript, not committed yet.
    Partial { track: TrackId, text: String },
    /// Live transcript, translated; may be stale.
    PartialTranslated { track: TrackId, source: String, translated: String, seq: u64 },
    /// Flushed source text, translation pending.
    Flushed { track: TrackId, source: String },
    /// The translation of a flushed text.
    Translated { track: TrackId, source: String, translated: String },
    /// Something failed; the track keeps running.
    Error { track: TrackId, message: String },
    /// The track has ended.
    Ended { track: TrackId },
}

/// What a [`TrackEvent`] says.
pub enum TrackEventModel {
    Partial { track: TrackId, text: Seq<char> },
    PartialTranslated { track: TrackId, source: Seq<char>, translated: Seq<char>, seq: u64 },
    Flushed { track: TrackId, source: Seq<char> },
    Translated { track: TrackId, source: Seq<char>, translated: Seq<char> },
    Error { track: TrackId, message: Seq<char> },
    Ended { track: TrackId },
}

impl View for TrackEvent {
    type V = TrackEventModel;

    open spec fn view(&self) -> TrackEventModel {
        match self {
            TrackEvent::Partial { track, text } => TrackEventModel::Partial {
                track: *track,
                text: text@,
            },
            TrackEvent::PartialTranslated { track, source, translated, seq } => {
                TrackEventModel::PartialTranslated {
                    track: *track,
                    source: source@,
                    translated: translated@,
                    seq: *seq,
                }
            },
            TrackEvent::Flushed { track, source } => TrackEventModel::Flushed {
                track: *track,
                source: source@,
            },
            TrackEvent::Translated { track, source, translated } => TrackEventModel::Translated {
                track: *track,
                source: source@,
                translated: translated@,
            },
            TrackEvent::Error { track, message } => TrackEventModel::Error {
                track: *track,
                message: message@,
            },
            TrackEvent::Ended { track } => TrackEventModel::Ended { track: *track },
        }
    }
}

impl Clone for TrackEvent {
    fn clone(&self) -> (r: Self)
        ensures
            r@ == self@,
    {
        match self {
            TrackEvent::Partial { track, text } => TrackEvent::Partial {
                track: *track,
                text: text.clone(),
            },
            TrackEvent::PartialTranslated { track, source, translated, seq } => {
                TrackEvent::PartialTranslated {
                    track: *track,
                    source: source.clone(),
                    translated: translated.clone(),
                    seq: *seq,
                }
            },
            TrackEvent::Flushed { track, source } => TrackEvent::Flushed {
                track: *track,
                source: source.clone(),
            },
            TrackEvent::Translated { track, source, translated } => TrackEvent::Translated {
                track: *track,
                source: source.clone(),
                translated: translated.clone(),
            },
            TrackEvent::Error { track, message } => TrackEvent::Error {
                track: *track,
                message: message.clone(),
            },
            TrackEvent::Ended { track } => TrackEvent::Ended { track: *track },
        }
    }
}

/// How a track captures audio.
#[derive(Debug, Clone, Copy, PartialEq, Eq, Structural)]
pub enum TrackSource {
    /// A microphone; `None` for the default source.
    Mic(Option<u32>),
    /// What a sink is playing; `None` for the default sink.
    SinkMonitor(Option<u32>),
}

/// The capture target of a source.
pub open spec fn capture_of(source: TrackSource) -> CaptureTarget {
    match source {
        TrackSource::Mic(None) => CaptureTarget::Default,
        TrackSource::Mic(Some(id)) => CaptureTarget::Node(id),
        TrackSource::SinkMonitor(None) => CaptureTarget::DefaultSinkMonitor,
        TrackSource::SinkMonitor(Some(id)) => CaptureTarget::SinkMonitor(id),
    }
}

impl TrackSource {
    /// The capture target of the source.
    pub fn to_capture_target(&self) -> (r: CaptureTarget)
        ensures
            r == capture_of(*self),
    {
        match self {
            TrackSource::Mic(None) => CaptureTarget::Default,
            TrackSource::Mic(Some(id)) => CaptureTarget::Node(*id),
            TrackSource::SinkMonitor(None) => CaptureTarget::DefaultSinkMonitor,
            TrackSource::SinkMonitor(Some(id)) => CaptureTarget::SinkMonitor(*id),
        }
    }

    /// Whether the source is what a sink is playing.
    pub fn is_sink_monitor(&self) -> (r: bool)
        ensures
            r == (self is SinkMonitor),
    {
        match self {
            TrackSource::Mic(_) => false,
            TrackSource::SinkMonitor(_) => true,
        }
    }

    /// The track that the log names for this source.
    pub fn log_track(&self) -> (r: LogTrack)
        ensures
            r == match *self {
                TrackSource::Mic(_) => LogTrack::Mic,
                TrackSource::SinkMonitor(_) => LogTrack::Audio,
            },
    {
        match self {
            TrackSource::Mic(_) => LogTrack::Mic,
            TrackSource::SinkMonitor(_) => LogTrack::Audio,
        }
    }
}

/// The translation of a track.
#[derive(Debug, Clone)]
pub struct DeeplTrackConfig {
    pub api_key: String,
    pub source_lang: Option<String>,
    pub target_lang: String,
    pub context_sentences: usize,
}

/// The speech of a track.
#[derive(Debug, Clone)]
pub struct TtsConfig {
    pub el_api_key: String,
    pub voice_id: String,
    /// `None` for the default sink.
    pub sink_name: Option<String>,
}

/// The settings of a track.
#[derive(Debug, Clone)]
pub struct TrackConfig {
    pub track_id: TrackId,
    pub source: TrackSource,
    pub dg_api_key: String,
    /// `None` to detect the language.
    pub source_lang: Option<String>,
    pub deepl: Option<DeeplTrackConfig>,
    /// Outgoing only.
    pub tts: Option<TtsConfig>,
}

/// What a [`DeeplTrackConfig`] says.
pub struct DeeplModel {
    pub api_key: Seq<char>,
    pub source_lang: Option<Seq<char>>,
    pub target_lang: Seq<char>,
    pub context_sentences: usize,
}

/// What a [`TtsConfig`] says.
pub struct TtsModel {
    pub el_api_key: Seq<char>,
    pub voice_id: Seq<char>,
    pub sink_name: Option<Seq<char>>,
}

/// What a [`TrackConfig`] says.
pub struct TrackModel {
    pub track_id: TrackId,
    pub source: TrackSource,
    pub dg_api_key: Seq<char>,
    pub source_lang: Option<Seq<char>>,
    pub deepl: Option<DeeplModel>,
    pub tts: Option<TtsModel>,
}

impl View for DeeplTrackConfig {
    type V = DeeplModel;

    open spec fn view(&self) -> DeeplModel {
        DeeplModel {
            api_key: self.api_key@,
            source_lang: text_view(self.source_lang),
            target_lang: self.target_lang@,
            context_sentences: self.context_sentences,
        }
    }
}

impl View for TtsConfig {
    type V = TtsModel;

    open spec fn view(&self) -> TtsModel {
        TtsModel {
            el_api_key: self.el_api_key@,
            voice_id: self.voice_id@,
            sink_name: text_view(self.sink_name),
        }
    }
}

impl View for TrackConfig {
    type V = TrackModel;

    open spec fn view(&self) -> TrackModel {
        TrackModel {
            track_id: self.track_id,
            source: self.source,
            dg_api_key: self.dg_api_key@,
            source_lang: text_view(self.source_lang),
            deepl: match self.deepl {
                Some(d) => Some(d@),
                None => None,
            },
            tts: match self.tts {
                Some(t) => Some(t@),
                None => None,
            },
        }
    }
}

/// The translation into a language, if there is a key for it.
pub open spec fn deepl_for(cfg: ConfigModel, target_lang: Seq<char>) -> Option<DeeplModel> {
    if cfg.translates() {
        Some(
            DeeplModel {
                api_key: cfg.deepl_key,
                source_lang: cfg.source_lang,
                target_lang,
                context_sentences: cfg.context_sentences,
            },
        )
    } else {
        None
    }
}

/// The speech of the outgoing track, if there is a key and a voice for it.
pub open spec fn tts_for(cfg: ConfigModel) -> Option<TtsModel> {
    if cfg.speaks() {
        Some(
            TtsModel {
                el_api_key: cfg.el_key,
                voice_id: cfg.voice_id,
                sink_name: cfg.tts_sink_name,
            },
        )
    } else {
        None
    }
}

/// The outgoing track: it always runs.
pub open spec fn outgoing(cfg: ConfigModel, mic: Option<u32>, target_lang: Seq<char>) -> TrackModel {
    TrackModel {
        track_id: TrackId::Outgoing,
        source: TrackSource::Mic(mic),
        dg_api_key: cfg.dg_api_key,
        source_lang: cfg.source_lang,
        deepl: deepl_for(cfg, target_lang),
        tts: tts_for(cfg),
    }
}

/// The incoming track: it runs where it is enabled, and never speaks.
pub open spec fn incoming(cfg: ConfigModel, sink: Option<u32>, target_lang: Seq<char>) -> Option<
    TrackModel,
> {
    if cfg.track2_enabled {
        Some(
            TrackModel {
                track_id: TrackId::Incoming,
                source: TrackSource::SinkMonitor(sink),
                dg_api_key: cfg.dg_api_key,
                source_lang: cfg.source_lang,
                deepl: deepl_for(cfg, target_lang),
                tts: None,
            },
        )
    } else {
        None
    }
}

fn make_deepl(cfg: &AppConfig, target_lang: &str) -> (r: Option<DeeplTrackConfig>)
    ensures
        match r {
            Some(d) => deepl_for(cfg@, target_lang@) == Some(d@),
            None => deepl_for(cfg@, target_lang@) is None,
        },
{
    if cfg.has_deepl() {
        Some(
            DeeplTrackConfig {
                api_key: cfg.deepl_key.clone(),
                source_lang: clone_text(&cfg.source_lang),
                target_lang: target_lang.to_owned(),
                context_sentences: cfg.context_sentences,
            },
        )
    } else {
        None
    }
}

/// The settings of the outgoing track, and of the incoming one where it is
/// enabled. Each track has a target language of its own.
pub fn track_configs_from_app(
    cfg: &AppConfig,
    mic_node: Option<u32>,
    sink_node: Option<u32>,
    t1_target_lang: &str,
    t2_target_lang: &str,
) -> (r: (TrackConfig, Option<TrackConfig>))
    ensures
        r.0@ == outgoing(cfg@, mic_node, t1_target_lang@),
        match r.1 {
            Some(t2) => incoming(cfg@, sink_node, t2_target_lang@) == Some(t2@),
            None => incoming(cfg@, sink_node, t2_target_lang@) is None,
        },
{
    let tts: Option<TtsConfig> = if cfg.has_tts() {
        Some(
            TtsConfig {
                el_api_key: cfg.el_key.clone(),
                voice_id: cfg.voice_id.clone(),
                sink_name: clone_text(&cfg.tts_sink_name),
            },
        )
    } else {
        None
    };
    let t1 = TrackConfig {
        track_id: TrackId::Outgoing,
        source: TrackSource::Mic(mic_node),
        dg_api_key: cfg.dg_api_key.clone(),
        source_lang: clone_text(&cfg.source_lang),
        deepl: make_deepl(cfg, t1_target_lang),
        tts,
    };
    let t2: Option<TrackConfig> = if cfg.track2_enabled {
        Some(
            TrackConfig {
                track_id: TrackId::Incoming,
                source: TrackSource::SinkMonitor(sink_node),
                dg_api_key: cfg.dg_api_key.clone(),
                source_lang: clone_text(&cfg.source_lang),
                deepl: make_deepl(cfg, t2_target_lang),
                tts: None,
            },
        )
    } else {
        None
    };
    (t1, t2)
}

/// Which keys a track needs: without a key for translation no track
/// translates, without a key and a voice for speech none speaks, and the
/// incoming track never speaks and runs with no more keys than the outgoing
/// one.
pub proof fn keys_enable_stages(
    cfg: ConfigModel,
    mic: Option<u32>,
    sink: Option<u32>,
    t1_lang: Seq<char>,
    t2_lang: Seq<char>,
)
    ensures
        outgoing(cfg, mic, t1_lang).deepl is Some <==> cfg.deepl_key.len() > 0,
        outgoing(cfg, mic, t1_lang).tts is Some <==> cfg.el_key.len() > 0 && cfg.voice_id.len() > 0,
        incoming(cfg, sink, t2_lang) is Some <==> cfg.track2_enabled,
        incoming(cfg, sink, t2_lang) matches Some(t2) ==> {
            &&& t2.tts is None
            &&& t2.deepl is Some <==> cfg.deepl_key.len() > 0
            &&& t2.dg_api_key == outgoing(cfg, mic, t1_lang).dg_api_key
        },
{
}

impl TrackConfig {
    /// The parameters of the transcription: the given language, or detection.
    pub fn stt_config(&self) -> (r: DeepgramConfig)
        ensures
            crate::deepgram::default_stream(
                r,
                self.dg_api_key@,
                match text_view(self.source_lang) {
                    Some(lang) => lang,
                    None => "multi"@,
                },
            ),
    {
        match &self.source_lang {
            Some(lang) => DeepgramConfig::with_language(self.dg_api_key.clone(), lang.as_str()),
            None => DeepgramConfig::with_detect_language(self.dg_api_key.clone()),
        }
    }
}

impl DeeplTrackConfig {
    /// The parameters of the translation.
    pub fn translation_config(&self) -> (r: DeepLConfig)
        ensures
            crate::deepl::default_translation(
                (DeepLConfig { context_sentences: 5, ..r }),
                self.api_key@,
                match text_view(self.source_lang) {
                    Some(lang) => Some(crate::deepl::upper_code(lang)),
                    None => None,
                },
                crate::deepl::upper_code(self.target_lang@),
            ),
            r.context_sentences == self.context_sentences,
    {
        let source: Option<&str> = match &self.source_lang {
            Some(lang) => Some(lang.as_str()),
            None => None,
        };
        let mut cfg: DeepLConfig = DeepLConfig::new(
            self.api_key.clone(),
            source,
            self.target_lang.as_str(),
        );
        cfg.context_sentences = self.context_sentences;
        cfg
    }
}

/// How many samples wait at most for playback: 30 seconds at 24 kHz.
pub const RING_CAPACITY: usize = 720_000;

impl TtsConfig {
    /// Where the speech goes.
    pub fn playback_target(&self) -> (r: PlaybackTarget)
        ensures
            match r {
                PlaybackTarget::NodeName(name) => text_view(self.sink_name) == Some(name@),
                PlaybackTarget::Default => self.sink_name is None,
            },
    {
        PlaybackTarget::for_sink(clone_text(&self.sink_name))
    }
}

/// The playback format of speech: one channel, at the rate of the service.
pub fn speech_format(cfg: &ElevenLabsConfig) -> (r: PlaybackFormat)
    ensures
        r.sample_rate == crate::elevenlabs::rate_of(cfg.output_format@),
        r.channels == 1,
{
    PlaybackFormat { sample_rate: cfg.sample_rate(), channels: 1 }
}

/// What happens to a track.
#[derive(Debug)]
pub enum TrackInput {
    /// The track was asked to stop.
    Stop,
    /// Nothing happened for a while.
    Quiet,
    /// No more events will come.
    Closed,
    /// The transcription has an event.
    Event(PipelineEvent),
    /// The translation of `source` came back, or failed with the given
    /// description.
    Translation { source: String, result: Result<String, String> },
}

/// What a track is to do.
#[derive(Debug)]
pub enum TrackAction {
    /// Write a line for a live partial.
    LogPartial(String),
    /// Write a line for flushed source text.
    LogSource(String),
    /// Write a line for a translation.
    LogTranslated { lang: String, text: String },
    /// Hand out an event.
    Emit(TrackEvent),
    /// Let go of the audio: the transcription then tells what is left and
    /// closes.
    CloseAudio,
    /// Offer a live partial for translation, without waiting.
    OfferPartial(String),
    /// Translate a text, with the given context.
    Translate { text: String, context: String },
    /// Speak a text.
    Speak(String),
}

/// What a [`TrackAction`] says.
pub enum TrackActionModel {
    LogPartial(Seq<char>),
    LogSource(Seq<char>),
    LogTranslated { lang: Seq<char>, text: Seq<char> },
    Emit(TrackEventModel),
    CloseAudio,
    OfferPartial(Seq<char>),
    Translate { text: Seq<char>, context: Seq<char> },
    Speak(Seq<char>),
}

impl View for TrackAction {
    type V = TrackActionModel;

    open spec fn view(&self) -> TrackActionModel {
        match self {
            TrackAction::LogPartial(text) => TrackActionModel::LogPartial(text@),
            TrackAction::LogSource(text) => TrackActionModel::LogSource(text@),
            TrackAction::LogTranslated { lang, text } => TrackActionModel::LogTranslated {
                lang: lang@,
                text: text@,
            },
            TrackAction::Emit(event) => TrackActionModel::Emit(event@),
            TrackAction::CloseAudio => TrackActionModel::CloseAudio,
            TrackAction::OfferPartial(text) => TrackActionModel::OfferPartial(text@),
            TrackAction::Translate { text, context } => TrackActionModel::Translate {
                text: text@,
                context: context@,
            },
            TrackAction::Speak(text) => TrackActionModel::Speak(text@),
        }
    }
}

/// What a list of actions says.
pub open spec fn actions_view(actions: Seq<TrackAction>) -> Seq<TrackActionModel> {
    actions.map_values(|a: TrackAction| a@)
}

/// What a [`TrackRunner`] holds.
pub struct RunnerModel {
    pub track: TrackId,
    /// The target language and the context, where the track translates.
    pub translation: Option<(Seq<char>, ContextModel)>,
    pub speaks: bool,
    /// Whether the track was asked to stop.
    pub stopping: bool,
    pub ended: bool,
}

impl RunnerModel {
    /// What an event of the transcription leads to. Flushed text is logged
    /// and told; then it is translated, or else it stands for its own
    /// translation.
    pub open spec fn on_event(self, event: EventModel) -> (RunnerModel, Seq<TrackActionModel>) {
        let track = self.track;
        match event {
            EventModel::Partial { text, .. } => (
                self,
                seq![
                    TrackActionModel::LogPartial(text),
                    TrackActionModel::Emit(TrackEventModel::Partial { track, text }),
                    TrackActionModel::OfferPartial(text),
                ],
            ),
            EventModel::Finalised { .. } => (self, Seq::empty()),
            EventModel::Flushed { text, .. } => match self.translation {
                Some((lang, context)) => (
                    RunnerModel { translation: Some((lang, context.pushed(text))), ..self },
                    seq![
                        TrackActionModel::LogSource(text),
                        TrackActionModel::Emit(TrackEventModel::Flushed { track, source: text }),
                        TrackActionModel::Translate { text, context: context.context() },
                    ],
                ),
                None => (
                    self,
                    seq![
                        TrackActionModel::LogSource(text),
                        TrackActionModel::Emit(TrackEventModel::Flushed { track, source: text }),
                        TrackActionModel::LogTranslated { lang: "SRC"@, text },
                        TrackActionModel::Emit(
                            TrackEventModel::Translated { track, source: text, translated: text },
                        ),
                    ],
                ),
            },
            EventModel::Translated { source_text, translated, .. } => (
                self,
                seq![
                    TrackActionModel::Emit(
                        TrackEventModel::Translated { track, source: source_text, translated },
                    ),
                ],
            ),
            EventModel::Error { error, .. } => (
                self,
                seq![TrackActionModel::Emit(TrackEventModel::Error { track, message: error })],
            ),
        }
    }

    /// What the end of a translation leads to: it is logged, told, and spoken
    /// where the track speaks. A failure is told.
    pub open spec fn on_translation(
        self,
        source: Seq<char>,
        result: Result<Seq<char>, Seq<char>>,
    ) -> Seq<TrackActionModel> {
        let track = self.track;
        match (self.translation, result) {
            (Some((lang, _)), Ok(translated)) => {
                let told = seq![
                    TrackActionModel::LogTranslated { lang, text: translated },
                    TrackActionModel::Emit(TrackEventModel::Translated { track, source, translated }),
                ];
                if self.speaks {
                    told.push(TrackActionModel::Speak(translated))
                } else {
                    told
                }
            },
            (Some(_), Err(error)) => seq![
                TrackActionModel::Emit(
                    TrackEventModel::Error { track, message: "DeepL: "@ + error },
                ),
            ],
            (None, _) => Seq::empty(),
        }
    }

    /// One step of a track. Where it is asked to stop, it lets go of the audio
    /// and takes the events that still come. It ends when no more will come;
    /// nothing happens afterwards.
    pub open spec fn step(self, input: TrackInput) -> (RunnerModel, Seq<TrackActionModel>) {
        if self.ended {
            (self, Seq::empty())
        } else {
            match input {
                TrackInput::Quiet => (self, Seq::empty()),
                TrackInput::Stop => if self.stopping {
                    (self, Seq::empty())
                } else {
                    (RunnerModel { stopping: true, ..self }, seq![TrackActionModel::CloseAudio])
                },
                TrackInput::Closed => self.ending(),
                TrackInput::Event(event) => self.on_event(event@),
                TrackInput::Translation { source, result } => (
                    self,
                    self.on_translation(source@, result_view(result)),
                ),
            }
        }
    }

    /// The end of a track, which is told.
    pub open spec fn ending(self) -> (RunnerModel, Seq<TrackActionModel>) {
        (
            RunnerModel { ended: true, ..self },
            seq![TrackActionModel::Emit(TrackEventModel::Ended { track: self.track })],
        )
    }
}

/// What the result of a translation says.
pub open spec fn result_view(r: Result<String, String>) -> Result<Seq<char>, Seq<char>> {
    match r {
        Ok(text) => Ok(text@),
        Err(error) => Err(error@),
    }
}

/// A running track.
pub struct TrackRunner {
    track: TrackId,
    translation: Option<(String, TranslationContext)>,
    speaks: bool,
    stopping: bool,
    ended: bool,
}

impl View for TrackRunner {
    type V = RunnerModel;

    closed spec fn view(&self) -> RunnerModel {
        RunnerModel {
            track: self.track,
            translation: match self.translation {
                Some((lang, context)) => Some((lang@, context@)),
                None => None,
            },
            speaks: self.speaks,
            stopping: self.stopping,
            ended: self.ended,
        }
    }
}

impl TrackRunner {
    /// A track that is about to run with the given settings.
    pub fn new(cfg: &TrackConfig) -> (r: TrackRunner)
        ensures
            r@ == (RunnerModel {
                track: cfg.track_id,
                translation: match cfg@.deepl {
                    Some(d) => Some(
                        (d.target_lang, ContextModel::empty(d.context_sentences as nat)),
                    ),
                    None => None,
                },
                speaks: cfg@.tts is Some,
                stopping: false,
                ended: false,
            }),
    {
        let translation: Option<(String, TranslationContext)> = match &cfg.deepl {
            Some(d) => Some((d.target_lang.clone(), TranslationContext::new(d.context_sentences))),
            None => None,
        };
        let speaks: bool = match &cfg.tts {
            Some(_) => true,
            None => false,
        };
        TrackRunner { track: cfg.track_id, translation, speaks, stopping: false, ended: false }
    }

    /// Whether the track was asked to stop.
    pub fn stopping(&self) -> (r: bool)
        ensures
            r == self@.stopping,
    {
        self.stopping
    }

    /// Whether the track has ended.
    pub fn ended(&self) -> (r: bool)
        ensures
            r == self@.ended,
    {
        self.ended
    }

    fn handle_pipeline_event(&mut self, event: PipelineEvent) -> (r: Vec<TrackAction>)
        ensures
            (final(self)@, actions_view(r@)) == old(self)@.on_event(event@),
    {
        let track: TrackId = self.track;
        let mut out: Vec<TrackAction> = Vec::new();
        match event {
            PipelineEvent::Partial { text, .. } => {
                out.push(TrackAction::LogPartial(text.clone()));
                out.push(TrackAction::Emit(TrackEvent::Partial { track, text: text.clone() }));
                out.push(TrackAction::OfferPartial(text));
                assert(actions_view(out@) =~= self@.on_event(event@).1);
            },
            PipelineEvent::Finalised { .. } => {
                assert(actions_view(out@) =~= Seq::empty());
            },
            PipelineEvent::Flushed { text, .. } => {
                out.push(TrackAction::LogSource(text.clone()));
                out.push(TrackAction::Emit(TrackEvent::Flushed { track, source: text.clone() }));
                match self.translation.take() {
                    Some((lang, mut window)) => {
                        let context: String = window.push_and_context(text.as_str());
                        self.translation = Some((lang, window));
                        out.push(TrackAction::Translate { text, context });
                    },
                    None => {
                        out.push(
                            TrackAction::LogTranslated {
                                lang: "SRC".to_owned(),
                                text: text.clone(),
                            },
                        );
                        out.push(
                            TrackAction::Emit(
                                TrackEvent::Translated {
                                    track,
                                    source: text.clone(),
                                    translated: text,
                                },
                            ),
                        );
                    },
                }
                assert(actions_view(out@) =~= old(self)@.on_event(event@).1);
            },
            PipelineEvent::Translated { source_text, translated, .. } => {
                out.push(
                    TrackAction::Emit(
                        TrackEvent::Translated { track, source: source_text, translated },
                    ),
                );
                assert(actions_view(out@) =~= self@.on_event(event@).1);
            },
            PipelineEvent::Error { error, .. } => {
                out.push(TrackAction::Emit(TrackEvent::Error { track, message: error }));
                assert(actions_view(out@) =~= self@.on_event(event@).1);
            },
        }
        out
    }

    fn handle_translation(&self, source: String, result: Result<String, String>) -> (r: Vec<
        TrackAction,
    >)
        ensures
            actions_view(r@) == self@.on_translation(source@, result_view(result)),
    {
        let track: TrackId = self.track;
        let mut out: Vec<TrackAction> = Vec::new();
        if let Some((lang, _)) = &self.translation {
            match result {
                Ok(translated) => {
                    out.push(
                        TrackAction::LogTranslated { lang: lang.clone(), text: translated.clone() },
                    );
                    out.push(
                        TrackAction::Emit(
                            TrackEvent::Translated {
                                track,
                                source,
                                translated: translated.clone(),
                            },
                        ),
                    );
                    if self.speaks {
                        out.push(TrackAction::Speak(translated));
                    }
                },
                Err(error) => {
                    let mut message: String = "DeepL: ".to_owned();
                    message.append(error.as_str());
                    out.push(TrackAction::Emit(TrackEvent::Error { track, message }));
                },
            }
        }
        assert(actions_view(out@) =~= self@.on_translation(source@, result_view(result)));
        out
    }

    /// Takes what happened into the track, and returns what is to be done, in
    /// its order.
    pub fn step(&mut self, input: TrackInput) -> (r: Vec<TrackAction>)
        ensures
            (final(self)@, actions_view(r@)) == old(self)@.step(input),
    {
        let mut out: Vec<TrackAction> = Vec::new();
        assert(actions_view(out@) =~= Seq::empty());
        if self.ended {
            return out;
        }
        match input {
            TrackInput::Quiet => out,
            TrackInput::Stop => {
                if !self.stopping {
                    self.stopping = true;
                    out.push(TrackAction::CloseAudio);
                    assert(actions_view(out@) =~= seq![TrackActionModel::CloseAudio]);
                }
                out
            },
            TrackInput::Closed => {
                self.ended = true;
                out.push(TrackAction::Emit(TrackEvent::Ended { track: self.track }));
                assert(actions_view(out@) =~= old(self)@.ending().1);
                out
            },
            TrackInput::Event(event) => self.handle_pipeline_event(event),
            TrackInput::Translation { source, result } => self.handle_translation(source, result),
        }
    }
}

/// A track, the steps it takes and the actions they lead to.
pub open spec fn track_run(m: RunnerModel, inputs: Seq<TrackInput>) -> (
    RunnerModel,
    Seq<TrackActionModel>,
)
    decreases inputs.len(),
{
    if inputs.len() == 0 {
        (m, Seq::empty())
    } else {
        let (before, actions) = track_run(m, inputs.drop_last());
        let (after, more) = before.step(inputs.last());
        (after, actions + more)
    }
}

/// How often the end of a track is told.
pub open spec fn endings(actions: Seq<TrackActionModel>) -> nat
    decreases actions.len(),
{
    if actions.len() == 0 {
        0
    } else {
        endings(actions.drop_last()) + if actions.last() matches TrackActionModel::Emit(
            TrackEventModel::Ended { .. },
        ) {
            1nat
        } else {
            0nat
        }
    }
}

proof fn lemma_endings_add(a: Seq<TrackActionModel>, b: Seq<TrackActionModel>)
    ensures
        endings(a + b) == endings(a) + endings(b),
    decreases b.len(),
{
    if b.len() == 0 {
        assert(a + b =~= a);
    } else {
        assert((a + b).drop_last() =~= a + b.drop_last());
        lemma_endings_add(a, b.drop_last());
    }
}

proof fn lemma_step_endings(m: RunnerModel, input: TrackInput)
    ensures
        endings(m.step(input).1) == if !m.ended && m.step(input).0.ended {
            1nat
        } else {
            0nat
        },
        m.ended ==> m.step(input).0.ended,
{
    reveal_with_fuel(endings, 6);
}

/// The end of a track is told exactly once, when it ends.
pub proof fn end_is_told_once(m: RunnerModel, inputs: Seq<TrackInput>)
    requires
        !m.ended,
    ensures
        endings(track_run(m, inputs).1) == if track_run(m, inputs).0.ended {
            1nat
        } else {
            0nat
        },
    decreases inputs.len(),
{
    if inputs.len() > 0 {
        end_is_told_once(m, inputs.drop_last());
        let (before, actions) = track_run(m, inputs.drop_last());
        lemma_step_endings(before, inputs.last());
        lemma_endings_add(actions, before.step(inputs.last()).1);
    }
}

/// A track drains when it is asked to stop: until no more events will come, it
/// does with each of them what it would have done without.
pub proof fn stopping_track_drains(m: RunnerModel, input: TrackInput)
    requires
        !m.ended,
        !(input is Stop),
    ensures
        !m.step(TrackInput::Stop).0.ended,
        m.step(TrackInput::Stop).0.step(input).1 == m.step(input).1,
        m.step(TrackInput::Stop).0.step(input).0 == (RunnerModel {
            stopping: true,
            ..m.step(input).0
        }),
        m.step(input).0.ended <==> input is Closed,
{
}

/// Without a key for translation the source text passes through: what was
/// flushed is told as its own translation, and nothing is translated or spoken.
pub proof fn untranslated_text_passes_through(
    m: RunnerModel,
    text: Seq<char>,
    of: TrackId,
    reason: Seq<char>,
)
    requires
        m.translation is None,
    ensures
        ({
            let (after, actions) = m.on_event(EventModel::Flushed { track: of, text, reason });
            &&& after == m
            &&& actions.last() == TrackActionModel::Emit(
                TrackEventModel::Translated { track: m.track, source: text, translated: text },
            )
            &&& forall|i: int|
                0 <= i < actions.len() ==> !(#[trigger] actions[i] is Translate)
                    && !(actions[i] is Speak)
        }),
{
}

/// The outgoing text that is spoken is a translation that came back, and only
/// a track with speech speaks.
pub proof fn only_translations_are_spoken(m: RunnerModel, input: TrackInput, i: int)
    requires
        0 <= i < m.step(input).1.len(),
        m.step(input).1[i] is Speak,
    ensures
        m.speaks,
        input matches TrackInput::Translation { result: Ok(text), .. }
            && m.step(input).1[i] == TrackActionModel::Speak(text@),
{
}

/// How long to wait between translations of live partials.
pub open spec fn partial_pause_nanos() -> int {
    300_000_000
}

/// The live partials on their way to translation: the latest one, and when
/// one was last handed on.
pub struct PartialThrottle {
    current: Option<String>,
    last_at: Option<Instant>,
    seq: u64,
}

/// What a [`PartialThrottle`] holds.
pub struct ThrottleModel {
    pub current: Option<Seq<char>>,
    pub last_at: Option<Instant>,
    pub seq: u64,
}

impl View for PartialThrottle {
    type V = ThrottleModel;

    closed spec fn view(&self) -> ThrottleModel {
        ThrottleModel { current: text_view(self.current), last_at: self.last_at, seq: self.seq }
    }
}

/// Whether a partial is long enough for translation: at least five bytes
/// without the whitespace around it.
pub open spec fn long_enough(text: Seq<char>) -> bool {
    encode_utf8(crate::text::trimmed(text)).len() >= 5
}

impl ThrottleModel {
    /// Whether a partial may be handed on now.
    pub open spec fn rested(self, now: Instant) -> bool {
        match self.last_at {
            Some(at) => crate::clock::elapsed(now, at) >= partial_pause_nanos(),
            None => true,
        }
    }

    /// The state after a newer partial, where there is one, and the partial
    /// that is handed on, with its number: the latest, unless one was handed
    /// on a moment ago. One that is too short is forgotten.
    pub open spec fn offered(self, newer: Option<Seq<char>>, now: Instant) -> (
        ThrottleModel,
        Option<(Seq<char>, u64)>,
    ) {
        let current = if newer is Some {
            newer
        } else {
            self.current
        };
        match current {
            Some(text) => if !self.rested(now) {
                (ThrottleModel { current, ..self }, None)
            } else if long_enough(text) {
                let seq = (self.seq + 1) as u64;
                (ThrottleModel { current: None, last_at: Some(now), seq }, Some((text, seq)))
            } else {
                (ThrottleModel { current: None, ..self }, None)
            },
            None => (self, None),
        }
    }
}

/// Partials are handed on at least 300 ms apart, in the order of their
/// numbers, and each one only once.
pub proof fn partials_are_spaced(m: ThrottleModel, newer: Option<Seq<char>>, now: Instant)
    requires
        m.seq < u64::MAX,
        m.offered(newer, now).1 is Some,
    ensures
        m.last_at matches Some(at) ==> crate::clock::elapsed(now, at) >= 300_000_000,
        m.offered(newer, now).1->Some_0.1 == m.seq + 1,
        m.offered(newer, now).0 == (ThrottleModel {
            current: None,
            last_at: Some(now),
            seq: (m.seq + 1) as u64,
        }),
{
}

impl PartialThrottle {
    /// A throttle that nothing has passed.
    pub fn new() -> (r: PartialThrottle)
        ensures
            r@ == (ThrottleModel { current: None, last_at: None, seq: 0 }),
    {
        PartialThrottle { current: None, last_at: None, seq: 0 }
    }

    /// How many partials have been handed on.
    pub fn count(&self) -> (r: u64)
        ensures
            r == self@.seq,
    {
        self.seq
    }

    /// Takes a newer partial, where there is one, and returns the partial to
    /// translate now, if any, with its number.
    pub fn offer(&mut self, newer: Option<String>, now: Instant) -> (r: Option<(String, u64)>)
        requires
            old(self)@.seq < u64::MAX,
        ensures
            (
                final(self)@,
                match r {
                    Some((text, seq)) => Some((text@, seq)),
                    None => None,
                },
            ) == old(self)@.offered(text_view(newer), now),
    {
        if let Some(text) = newer {
            self.current = Some(text);
        }
        let rested: bool = match self.last_at {
            Some(at) => now.duration_since(at).nanos >= 300_000_000,
            None => true,
        };
        if !rested {
            return None;
        }
        match self.current.take() {
            None => None,
            Some(text) => {
                let words: String = trim_text(text.as_str());
                if words.as_str().as_bytes().len() < 5 {
                    None
                } else {
                    self.last_at = Some(now);
                    self.seq = self.seq + 1;
                    Some((text, self.seq))
                }
            },
        }
    }
}

/// Each track gets its settings: the outgoing one the microphone and the first
/// target language, the incoming one, where it is enabled, the sink and the
/// second. Both transcribe with the same key and language, and translate where
/// there is a key for it; only the outgoing one speaks, where there are a key
/// and a voice for it.
pub proof fn tracks_get_their_settings(
    cfg: &AppConfig,
    mic: Option<u32>,
    sink: Option<u32>,
    t1_lang: &str,
    t2_lang: &str,
    r: (TrackConfig, Option<TrackConfig>),
)
    requires
        call_ensures(track_configs_from_app, (cfg, mic, sink, t1_lang, t2_lang), r),
    ensures
        ({
            let one = r.0@;
            &&& one.track_id == TrackId::Outgoing
            &&& one.source == TrackSource::Mic(mic)
            &&& one.dg_api_key == cfg.dg_api_key@
            &&& one.source_lang == text_view(cfg.source_lang)
            &&& cfg.deepl_key@.len() == 0 ==> one.deepl is None
            &&& cfg.deepl_key@.len() > 0 ==> (one.deepl matches Some(d) && d.api_key
                == cfg.deepl_key@ && d.source_lang == text_view(cfg.source_lang) && d.target_lang
                == t1_lang@ && d.context_sentences == cfg.context_sentences)
            &&& cfg.el_key@.len() == 0 || cfg.voice_id@.len() == 0 ==> one.tts is None
            &&& cfg.el_key@.len() > 0 && cfg.voice_id@.len() > 0 ==> (one.tts matches Some(s)
                && s.el_api_key == cfg.el_key@ && s.voice_id == cfg.voice_id@ && s.sink_name
                == text_view(cfg.tts_sink_name))
        }),
        r.1 is Some <==> cfg.track2_enabled,
        r.1 matches Some(other) ==> {
            let two = other@;
            &&& two.track_id == TrackId::Incoming
            &&& two.source == TrackSource::SinkMonitor(sink)
            &&& two.dg_api_key == cfg.dg_api_key@
            &&& two.source_lang == text_view(cfg.source_lang)
            &&& cfg.deepl_key@.len() == 0 ==> two.deepl is None
            &&& cfg.deepl_key@.len() > 0 ==> (two.deepl matches Some(d) && d.api_key
                == cfg.deepl_key@ && d.source_lang == text_view(cfg.source_lang) && d.target_lang
                == t2_lang@ && d.context_sentences == cfg.context_sentences)
            &&& two.tts is None
        },
{
}

/// A source is captured as what it is: a microphone from its node, and what a
/// sink plays from that sink; without an id, from the default one. The log
/// names the two apart.
pub proof fn sources_are_captured_as_they_are(
    source: &TrackSource,
    id: Option<u32>,
    target: CaptureTarget,
    log: LogTrack,
    monitor: bool,
)
    requires
        call_ensures(TrackSource::to_capture_target, (source,), target),
        call_ensures(TrackSource::log_track, (source,), log),
        call_ensures(TrackSource::is_sink_monitor, (source,), monitor),
    ensures
        monitor <==> log == LogTrack::Audio,
        *source == TrackSource::Mic(id) ==> log == LogTrack::Mic && target == match id {
            Some(n) => CaptureTarget::Node(n),
            None => CaptureTarget::Default,
        },
        *source == TrackSource::SinkMonitor(id) ==> log == LogTrack::Audio && target == match id {
            Some(n) => CaptureTarget::SinkMonitor(n),
            None => CaptureTarget::DefaultSinkMonitor,
        },
{
}

/// The services of a track get its settings: the transcription its key and
/// language, or detection where there is none; the translation its key, its
/// languages and the length of its context; the speech its sink.
pub proof fn services_get_the_settings_of_the_track(
    track: &TrackConfig,
    stt: DeepgramConfig,
    deepl: &DeeplTrackConfig,
    translation: DeepLConfig,
    tts: &TtsConfig,
    target: PlaybackTarget,
)
    requires
        call_ensures(TrackConfig::stt_config, (track,), stt),
        call_ensures(DeeplTrackConfig::translation_config, (deepl,), translation),
        call_ensures(TtsConfig::playback_target, (tts,), target),
    ensures
        stt.api_key@ == track.dg_api_key@,
        stt.language@ == match text_view(track.source_lang) {
            Some(lang) => lang,
            None => "multi"@,
        },
        stt.sample_rate == 16_000 && stt.channels == 1,
        translation.api_key@ == deepl.api_key@,
        text_view(translation.source_lang) == match text_view(deepl.source_lang) {
            Some(lang) => Some(crate::deepl::upper_code(lang)),
            None => None,
        },
        translation.target_lang@ == crate::deepl::upper_code(deepl.target_lang@),
        translation.model_type@ == "latency_optimized"@,
        translation.context_sentences == deepl.context_sentences,
        match text_view(tts.sink_name) {
            Some(name) => target matches PlaybackTarget::NodeName(n) && n@ == name,
            None => target is Default,
        },
{
}

/// A track that starts to run has the settings of its configuration, and an
/// empty context.
pub proof fn new_track_has_its_settings(cfg: &TrackConfig, t: TrackRunner)
    requires
        call_ensures(TrackRunner::new, (cfg,), t),
    ensures
        t@.track == cfg.track_id,
        t@.speaks <==> cfg.tts is Some,
        !t@.stopping && !t@.ended,
        cfg.deepl is None ==> t@.translation is None,
        cfg.deepl matches Some(d) ==> (t@.translation matches Some((lang, window)) && lang
            == d.target_lang@ && window.sentences.len() == 0 && window.capacity
            == d.context_sentences),
{
}

/// What a flushed text leads to. It is logged and told. On a track that
/// translates, whether it speaks or not, one translation of it is asked for,
/// with the sentences flushed before it as context, one to a line, and it
/// joins them; the oldest leaves where there is no more room. On a track that
/// does not translate, it is logged and told as its own translation.
pub proof fn flushed_text_is_translated(
    t: &mut TrackRunner,
    event: PipelineEvent,
    r: Vec<TrackAction>,
    of: TrackId,
    text: Seq<char>,
    reason: Seq<char>,
)
    requires
        call_ensures(TrackRunner::step, (t, TrackInput::Event(event)), r),
        event@ == (EventModel::Flushed { track: of, text, reason }),
        !old(t)@.ended,
    ensures
        final(t)@.track == old(t)@.track,
        final(t)@.speaks == old(t)@.speaks,
        final(t)@.stopping == old(t)@.stopping,
        !final(t)@.ended,
        old(t)@.translation matches Some((lang, window)) ==> {
            &&& actions_view(r@) == seq![
                TrackActionModel::LogSource(text),
                TrackActionModel::Emit(
                    TrackEventModel::Flushed { track: old(t)@.track, source: text },
                ),
                TrackActionModel::Translate {
                    text,
                    context: crate::text::joined(window.sentences, "\n"@),
                },
            ]
            &&& final(t)@.translation matches Some((lang_after, after)) && lang_after == lang
                && after.capacity == window.capacity && after.sentences
                == if window.sentences.len() < window.capacity {
                window.sentences.push(text)
            } else {
                window.sentences.push(text).skip(1)
            }
        },
        old(t)@.translation is None ==> {
            &&& actions_view(r@) == seq![
                TrackActionModel::LogSource(text),
                TrackActionModel::Emit(
                    TrackEventModel::Flushed { track: old(t)@.track, source: text },
                ),
                TrackActionModel::LogTranslated { lang: "SRC"@, text },
                TrackActionModel::Emit(
                    TrackEventModel::Translated {
                        track: old(t)@.track,
                        source: text,
                        translated: text,
                    },
                ),
            ]
            &&& final(t)@.translation is None
        },
{
}

/// What a translation leads to once it has come back: it is logged under its
/// language, told with its source, and spoken where the track speaks. A
/// failure is told as an error, and nothing is spoken.
pub proof fn translation_is_told_and_spoken(
    t: &mut TrackRunner,
    source: String,
    result: Result<String, String>,
    r: Vec<TrackAction>,
    lang: Seq<char>,
    window: ContextModel,
)
    requires
        call_ensures(TrackRunner::step, (t, TrackInput::Translation { source, result }), r),
        !old(t)@.ended,
        old(t)@.translation == Some((lang, window)),
    ensures
        final(t)@ == old(t)@,
        result matches Ok(text) ==> ({
            let logged = TrackActionModel::LogTranslated { lang, text: text@ };
            let told = TrackActionModel::Emit(
                TrackEventModel::Translated {
                    track: old(t)@.track,
                    source: source@,
                    translated: text@,
                },
            );
            &&& old(t)@.speaks ==> actions_view(r@) == seq![
                logged,
                told,
                TrackActionModel::Speak(text@),
            ]
            &&& !old(t)@.speaks ==> actions_view(r@) == seq![logged, told]
        }),
        result matches Err(error) ==> actions_view(r@) == seq![
            TrackActionModel::Emit(
                TrackEventModel::Error { track: old(t)@.track, message: "DeepL: "@ + error@ },
            ),
        ],
{
}

/// What the other events of a transcription lead to: a partial is logged, told
/// and offered for translation, an error is told, and neither changes the
/// track.
pub proof fn partials_and_errors_are_told(
    t: &mut TrackRunner,
    event: PipelineEvent,
    r: Vec<TrackAction>,
)
    requires
        call_ensures(TrackRunner::step, (t, TrackInput::Event(event)), r),
        !old(t)@.ended,
        !(event is Flushed),
    ensures
        final(t)@ == old(t)@,
        event matches PipelineEvent::Partial { text, .. } ==> actions_view(r@) == seq![
            TrackActionModel::LogPartial(text@),
            TrackActionModel::Emit(
                TrackEventModel::Partial { track: old(t)@.track, text: text@ },
            ),
            TrackActionModel::OfferPartial(text@),
        ],
        event matches PipelineEvent::Error { error, .. } ==> actions_view(r@) == seq![
            TrackActionModel::Emit(
                TrackEventModel::Error { track: old(t)@.track, message: error@ },
            ),
        ],
        event matches PipelineEvent::Translated { source_text, translated, .. } ==> actions_view(
            r@,
        ) == seq![
            TrackActionModel::Emit(
                TrackEventModel::Translated {
                    track: old(t)@.track,
                    source: source_text@,
                    translated: translated@,
                },
            ),
        ],
        event is Finalised ==> r@.len() == 0,
{
    assert(actions_view(r@).len() == r@.len());
}

/// How a track stops and ends: the first request lets go of the audio and does
/// nothing else, a further one does nothing, and the end of the events is told
/// once, after which nothing happens.
pub proof fn track_stops_and_ends(t: &mut TrackRunner, input: TrackInput, r: Vec<TrackAction>)
    requires
        call_ensures(TrackRunner::step, (t, input), r),
    ensures
        old(t)@.ended || input is Quiet ==> r@.len() == 0 && final(t)@ == old(t)@,
        !old(t)@.ended && input is Stop ==> {
            &&& final(t)@ == (RunnerModel { stopping: true, ..old(t)@ })
            &&& !old(t)@.stopping ==> actions_view(r@) == seq![TrackActionModel::CloseAudio]
            &&& old(t)@.stopping ==> r@.len() == 0
        },
        !old(t)@.ended && input is Closed ==> {
            &&& final(t)@ == (RunnerModel { ended: true, ..old(t)@ })
            &&& actions_view(r@) == seq![
                TrackActionModel::Emit(TrackEventModel::Ended { track: old(t)@.track }),
            ]
        },
{
    assert(actions_view(r@).len() == r@.len());
}

/// Whether the events of a track have come to their end.
pub open spec fn events_over(inputs: Seq<TrackInput>) -> bool {
    exists|i: int| 0 <= i < inputs.len() && (#[trigger] inputs[i]) is Closed
}

/// The texts that were flushed before the events came to their end.
pub open spec fn flushed_in(inputs: Seq<TrackInput>) -> Seq<Seq<char>>
    decreases inputs.len(),
{
    if inputs.len() == 0 {
        Seq::empty()
    } else {
        let before = inputs.drop_last();
        match inputs.last() {
            TrackInput::Event(PipelineEvent::Flushed { text, .. }) if !events_over(before)
                => flushed_in(before).push(text@),
            _ => flushed_in(before),
        }
    }
}

/// The translations that came back before the events came to their end, each
/// with its source.
pub open spec fn came_back(inputs: Seq<TrackInput>) -> Seq<(Seq<char>, Seq<char>)>
    decreases inputs.len(),
{
    if inputs.len() == 0 {
        Seq::empty()
    } else {
        let before = inputs.drop_last();
        match inputs.last() {
            TrackInput::Translation { source, result: Ok(text) } if !events_over(before)
                => came_back(before).push((source@, text@)),
            _ => came_back(before),
        }
    }
}

/// The translations that were asked for, each with its context.
pub open spec fn asked_for(actions: Seq<TrackActionModel>) -> Seq<(Seq<char>, Seq<char>)>
    decreases actions.len(),
{
    if actions.len() == 0 {
        Seq::empty()
    } else {
        match actions.last() {
            TrackActionModel::Translate { text, context } => asked_for(actions.drop_last()).push(
                (text, context),
            ),
            _ => asked_for(actions.drop_last()),
        }
    }
}

/// The translations that were told, each with its source.
pub open spec fn told_pairs(actions: Seq<TrackActionModel>) -> Seq<(Seq<char>, Seq<char>)>
    decreases actions.len(),
{
    if actions.len() == 0 {
        Seq::empty()
    } else {
        match actions.last() {
            TrackActionModel::Emit(TrackEventModel::Translated { source, translated, .. })
                => told_pairs(actions.drop_last()).push((source, translated)),
            _ => told_pairs(actions.drop_last()),
        }
    }
}

/// The texts that were spoken.
pub open spec fn spoken(actions: Seq<TrackActionModel>) -> Seq<Seq<char>>
    decreases actions.len(),
{
    if actions.len() == 0 {
        Seq::empty()
    } else {
        match actions.last() {
            TrackActionModel::Speak(text) => spoken(actions.drop_last()).push(text),
            _ => spoken(actions.drop_last()),
        }
    }
}

proof fn lemma_lists_add(a: Seq<TrackActionModel>, b: Seq<TrackActionModel>)
    ensures
        asked_for(a + b) == asked_for(a) + asked_for(b),
        told_pairs(a + b) == told_pairs(a) + told_pairs(b),
        spoken(a + b) == spoken(a) + spoken(b),
    decreases b.len(),
{
    if b.len() == 0 {
        assert(a + b =~= a);
    } else {
        assert((a + b).drop_last() =~= a + b.drop_last());
        lemma_lists_add(a, b.drop_last());
    }
}

proof fn lemma_events_over_step(inputs: Seq<TrackInput>)
    requires
        inputs.len() > 0,
    ensures
        events_over(inputs) <==> events_over(inputs.drop_last()) || inputs.last() is Closed,
{
    let before = inputs.drop_last();
    assert(inputs[inputs.len() - 1] == inputs.last());
    assert(forall|i: int| 0 <= i < before.len() ==> #[trigger] before[i] == inputs[i]);
    assert(forall|i: int| 0 <= i < before.len() ==> #[trigger] inputs[i] == before[i]);
}

/// The last `n` of some sentences, or all where there are fewer.
pub open spec fn last_of(sentences: Seq<Seq<char>>, n: nat) -> Seq<Seq<char>> {
    if sentences.len() <= n {
        sentences
    } else {
        sentences.skip(sentences.len() - n)
    }
}

#[verifier::spinoff_prover]
#[verifier::rlimit(50)]
proof fn lemma_translated_run(
    start: RunnerModel,
    lang: Seq<char>,
    capacity: nat,
    inputs: Seq<TrackInput>,
)
    requires
        start.translation matches Some((l, window)) && l == lang && window.capacity == capacity
            && window.sentences.len() == 0,
        !start.ended,
        forall|i: int|
            0 <= i < inputs.len() ==> !((#[trigger] inputs[i]) matches TrackInput::Event(
                PipelineEvent::Translated { .. },
            )),
    ensures
        ({
            let (m, actions) = track_run(start, inputs);
            let texts = flushed_in(inputs);
            &&& m.ended <==> events_over(inputs)
            &&& m.speaks == start.speaks
            &&& m.translation == Some((lang, crate::deepl::context_after(capacity, texts)))
            &&& asked_for(actions).len() == texts.len()
            &&& forall|k: int|
                0 <= k < texts.len() ==> #[trigger] asked_for(actions)[k] == (
                    texts[k],
                    crate::text::joined(last_of(texts.take(k), capacity), "\n"@),
                )
            &&& told_pairs(actions) == came_back(inputs)
            &&& spoken(actions) == if start.speaks {
                came_back(inputs).map_values(|p: (Seq<char>, Seq<char>)| p.1)
            } else {
                Seq::empty()
            }
        }),
    decreases inputs.len(),
{
    let second = |p: (Seq<char>, Seq<char>)| p.1;
    if inputs.len() == 0 {
        assert(start.translation->Some_0.1.sentences =~= Seq::empty());
        assert(came_back(inputs).map_values(second) =~= Seq::empty());
    } else {
        let before = inputs.drop_last();
        let input = inputs.last();
        assert forall|i: int| 0 <= i < before.len() implies !((
        #[trigger] before[i]) matches TrackInput::Event(PipelineEvent::Translated { .. })) by {
            assert(before[i] == inputs[i]);
        }
        assert(inputs[inputs.len() - 1] == input);
        lemma_translated_run(start, lang, capacity, before);
        lemma_events_over_step(inputs);
        let (m, actions) = track_run(start, before);
        let more = m.step(input).1;
        lemma_lists_add(actions, more);
        reveal_with_fuel(asked_for, 5);
        reveal_with_fuel(told_pairs, 5);
        reveal_with_fuel(spoken, 5);
        let texts = flushed_in(before);
        crate::deepl::context_is_most_recent(capacity, texts);
        match input {
            TrackInput::Event(PipelineEvent::Flushed { text, .. }) if !m.ended => {
                assert(texts.push(text@).drop_last() =~= texts);
                assert(asked_for(more) =~= seq![
                    (text@, crate::text::joined(last_of(texts, capacity), "\n"@)),
                ]);
                assert(told_pairs(more) =~= Seq::empty());
                assert(spoken(more) =~= Seq::empty());
                let all = texts.push(text@);
                assert(all.take(texts.len() as int) =~= texts);
                assert forall|k: int| 0 <= k < all.len() implies #[trigger] asked_for(
                    actions + more,
                )[k] == (all[k], crate::text::joined(last_of(all.take(k), capacity), "\n"@)) by {
                    if k < texts.len() {
                        assert(asked_for(actions)[k] == asked_for(actions + more)[k]);
                        assert(all.take(k) =~= texts.take(k));
                    }
                }
            },
            TrackInput::Translation { source, result: Ok(text) } if !m.ended => {
                assert(asked_for(more) =~= Seq::empty());
                assert(told_pairs(more) =~= seq![(source@, text@)]);
                assert(asked_for(actions + more) =~= asked_for(actions));
                assert(told_pairs(actions + more) =~= came_back(inputs));
                let back = came_back(before);
                assert(back.push((source@, text@)).map_values(second) =~= back.map_values(
                    second,
                ).push(text@));
                if start.speaks {
                    assert(spoken(more) =~= seq![text@]);
                } else {
                    assert(spoken(more) =~= Seq::empty());
                }
            },
            _ => {
                assert(asked_for(more) =~= Seq::empty());
                assert(told_pairs(more) =~= Seq::empty());
                assert(spoken(more) =~= Seq::empty());
                assert(asked_for(actions + more) =~= asked_for(actions));
                assert(told_pairs(actions + more) =~= told_pairs(actions));
                assert(spoken(actions + more) =~= spoken(actions));
            },
        }
    }
}

/// What a track that translates has done after a run. A translation was asked
/// for of every flushed text, once, in their order, each with the sentences
/// that were flushed before it as context, as many as the settings say. What
/// was told as translated is what came back, once, in that order; and what was
/// spoken is just that, where the track speaks, and else nothing.
pub proof fn every_flushed_text_is_translated(
    start: RunnerModel,
    lang: Seq<char>,
    capacity: nat,
    inputs: Seq<TrackInput>,
)
    requires
        start.translation matches Some((l, window)) && l == lang && window.capacity == capacity
            && window.sentences.len() == 0,
        !start.ended,
        forall|i: int|
            0 <= i < inputs.len() ==> !((#[trigger] inputs[i]) matches TrackInput::Event(
                PipelineEvent::Translated { .. },
            )),
    ensures
        ({
            let actions = track_run(start, inputs).1;
            let texts = flushed_in(inputs);
            &&& asked_for(actions).len() == texts.len()
            &&& forall|k: int|
                0 <= k < texts.len() ==> #[trigger] asked_for(actions)[k] == (
                    texts[k],
                    crate::text::joined(last_of(texts.take(k), capacity), "\n"@),
                )
            &&& told_pairs(actions) == came_back(inputs)
            &&& spoken(actions) == if start.speaks {
                came_back(inputs).map_values(|p: (Seq<char>, Seq<char>)| p.1)
            } else {
                Seq::empty()
            }
        }),
{
    lemma_translated_run(start, lang, capacity, inputs);
}

/// Which partial goes to translation: the newest one, where it has at least
/// five bytes without the whitespace around it and none was handed on in the
/// last 300 milliseconds. One that comes too soon is kept until then, or until
/// a newer one comes; one that is too short is forgotten.
pub proof fn newest_partial_is_handed_on(
    t: &mut PartialThrottle,
    newer: Option<String>,
    now: Instant,
    r: Option<(String, u64)>,
    newest: Seq<char>,
)
    requires
        call_ensures(PartialThrottle::offer, (t, newer, now), r),
        old(t)@.seq < u64::MAX,
        newer is Some ==> text_view(newer) == Some(newest),
        newer is None ==> old(t)@.current == Some(newest),
    ensures
        ({
            let soon = old(t)@.last_at matches Some(at) && now.nanos < at.nanos + 300_000_000;
            let short = encode_utf8(crate::text::trimmed(newest)).len() < 5;
            &&& soon ==> r is None && final(t)@ == (ThrottleModel {
                current: Some(newest),
                ..old(t)@
            })
            &&& !soon && short ==> r is None && final(t)@ == (ThrottleModel {
                current: None,
                ..old(t)@
            })
            &&& !soon && !short ==> {
                &&& r matches Some((text, number)) && text@ == newest && number == old(t)@.seq + 1
                &&& final(t)@.current is None
                &&& final(t)@.last_at == Some(now)
                &&& final(t)@.seq == old(t)@.seq + 1
            }
        }),
{
}

/// Speech is played in one channel, at the rate of its format.
pub proof fn speech_is_played_at_its_rate(
    cfg: &ElevenLabsConfig,
    format: PlaybackFormat,
    rate: u32,
)
    requires
        call_ensures(speech_format, (cfg,), format),
        call_ensures(ElevenLabsConfig::sample_rate, (cfg,), rate),
    ensures
        format.sample_rate == rate,
        format.channels == 1,
{
}

/// Whether a track stops or has ended can be read off it, and how many partials
/// a throttle has handed on; a new one has handed on none and lets the first
/// one pass.
pub proof fn progress_can_be_read(
    t: &TrackRunner,
    stopping: bool,
    ended: bool,
    throttle: &PartialThrottle,
    count: u64,
    fresh: PartialThrottle,
)
    requires
        call_ensures(TrackRunner::stopping, (t,), stopping),
        call_ensures(TrackRunner::ended, (t,), ended),
        call_ensures(PartialThrottle::count, (throttle,), count),
        call_ensures(PartialThrottle::new, (), fresh),
    ensures
        stopping == t@.stopping,
        ended == t@.ended,
        count == throttle@.seq,
        fresh@.current is None && fresh@.last_at is None && fresh@.seq == 0,
{
}

} // verus!
