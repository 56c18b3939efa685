//! The state of the user interface, and how the events of a session change it.

use crate::clock::{Duration, Instant};
use crate::config::{AppConfig, ConfigModel};
use crate::events::TrackId;
use crate::nodes::{MediaClass, NodeInfo};
use crate::text::{parse_up_to, same_text, text_view, trim_text};
use crate::track::{TrackEvent, TrackEventModel};
use crate::transcript::TranscriptBufferConfig;
use vstd::prelude::*;
use vstd::string::*;

verus! {

broadcast use vstd::string::group_string_axioms;

/// An audio node that can be picked.
#[derive(Debug, Clone)]
pub struct AudioNode {
    pub id: u32,
    pub name: String,
    pub description: String,
    pub class: MediaClass,
}

impl From<NodeInfo> for AudioNode {
    fn from(n: NodeInfo) -> (r: Self) {
        AudioNode { id: n.id, name: n.name, description: n.description, class: n.media_class }
    }
}

impl vstd::std_specs::convert::FromSpecImpl<NodeInfo> for AudioNode {
    open spec fn obeys_from_spec() -> bool {
        true
    }

    open spec fn from_spec(n: NodeInfo) -> AudioNode {
        AudioNode { id: n.id, name: n.name, description: n.description, class: n.media_class }
    }
}

/// A line of subtitles.
#[derive(Debug)]
pub struct SubtitleLine {
    pub track: TrackId,
    pub source: String,
    pub translated: String,
    pub ts: Instant,
}

/// What a [`SubtitleLine`] says.
pub struct LineModel {
    pub track: TrackId,
    pub source: Seq<char>,
    pub translated: Seq<char>,
    pub ts: Instant,
}

impl View for SubtitleLine {
    type V = LineModel;

    open spec fn view(&self) -> LineModel {
        LineModel {
            track: self.track,
            source: self.source@,
            translated: self.translated@,
            ts: self.ts,
        }
    }
}

impl Clone for SubtitleLine {
    fn clone(&self) -> (r: Self)
        ensures
            r@ == self@,
    {
        SubtitleLine {
            track: self.track,
            source: self.source.clone(),
            translated: self.translated.clone(),
            ts: self.ts,
        }
    }
}

/// What a list of lines says.
pub open spec fn lines_view(lines: Seq<SubtitleLine>) -> Seq<LineModel> {
    lines.map_values(|l: SubtitleLine| l@)
}

/// What a list of texts says.
pub open spec fn texts_view(texts: Seq<String>) -> Seq<Seq<char>> {
    texts.map_values(|s: String| s@)
}

/// Where a session stands.
#[derive(Debug, Clone, Copy, PartialEq, Eq, Structural)]
pub enum SessionStatus {
    Idle,
    Running,
    Stopping,
}

/// How many target languages there are.
pub const LANGUAGE_COUNT: usize = 12;

/// The code of a target language.
pub open spec fn code_at(i: int) -> Option<Seq<char>> {
    if i == 0 {
        Some("EN"@)
    } else if i == 1 {
        Some("DE"@)
    } else if i == 2 {
        Some("NL"@)
    } else if i == 3 {
        Some("IT"@)
    } else if i == 4 {
        Some("ES"@)
    } else if i == 5 {
        Some("FR"@)
    } else if i == 6 {
        Some("PL"@)
    } else if i == 7 {
        Some("PT-PT"@)
    } else if i == 8 {
        Some("RU"@)
    } else if i == 9 {
        Some("ZH"@)
    } else if i == 10 {
        Some("JA"@)
    } else if i == 11 {
        Some("KO"@)
    } else {
        None
    }
}

/// The name of a target language.
pub open spec fn language_at(i: int) -> Option<Seq<char>> {
    if i == 0 {
        Some("English"@)
    } else if i == 1 {
        Some("German"@)
    } else if i == 2 {
        Some("Dutch"@)
    } else if i == 3 {
        Some("Italian"@)
    } else if i == 4 {
        Some("Spanish"@)
    } else if i == 5 {
        Some("French"@)
    } else if i == 6 {
        Some("Polish"@)
    } else if i == 7 {
        Some("Portuguese"@)
    } else if i == 8 {
        Some("Russian"@)
    } else if i == 9 {
        Some("Chinese"@)
    } else if i == 10 {
        Some("Japanese"@)
    } else if i == 11 {
        Some("Korean"@)
    } else {
        None
    }
}

/// What an optional string slice says.
pub open spec fn str_view(o: Option<&'static str>) -> Option<Seq<char>> {
    match o {
        Some(s) => Some(s@),
        None => None,
    }
}

/// The code of a target language.
pub fn language_code(i: usize) -> (r: Option<&'static str>)
    ensures
        str_view(r) == code_at(i as int),
{
    match i {
        0 => Some("EN"),
        1 => Some("DE"),
        2 => Some("NL"),
        3 => Some("IT"),
        4 => Some("ES"),
        5 => Some("FR"),
        6 => Some("PL"),
        7 => Some("PT-PT"),
        8 => Some("RU"),
        9 => Some("ZH"),
        10 => Some("JA"),
        11 => Some("KO"),
        _ => None,
    }
}

/// The name of a target language.
pub fn language_name(i: usize) -> (r: Option<&'static str>)
    ensures
        str_view(r) == language_at(i as int),
{
    match i {
        0 => Some("English"),
        1 => Some("German"),
        2 => Some("Dutch"),
        3 => Some("Italian"),
        4 => Some("Spanish"),
        5 => Some("French"),
        6 => Some("Polish"),
        7 => Some("Portuguese"),
        8 => Some("Russian"),
        9 => Some("Chinese"),
        10 => Some("Japanese"),
        11 => Some("Korean"),
        _ => None,
    }
}

/// Whether a language at or behind `from` has the given code.
pub open spec fn has_code(code: Seq<char>, from: int) -> bool {
    exists|i: int| from <= i < LANGUAGE_COUNT && #[trigger] code_at(i) == Some(code)
}

/// The first language with the given code, or `default` where none has it.
pub fn language_index(code: &str, default: usize) -> (r: usize)
    ensures
        has_code(code@, 0) ==> r < LANGUAGE_COUNT && code_at(r as int) == Some(code@) && forall|
            j: int,
        |
            0 <= j < r ==> #[trigger] code_at(j) != Some(code@),
        !has_code(code@, 0) ==> r == default,
{
    let mut i: usize = 0;
    while i < LANGUAGE_COUNT
        invariant
            i <= LANGUAGE_COUNT,
            forall|j: int| 0 <= j < i ==> #[trigger] code_at(j) != Some(code@),
        decreases LANGUAGE_COUNT - i,
    {
        if let Some(c) = language_code(i) {
            if same_text(c, code) {
                return i;
            }
        }
        i = i + 1;
    }
    default
}

/// All that the user interface shows and lets the user change.
pub struct UiState {
    pub nodes: Vec<AudioNode>,
    /// Index into the nodes: the microphone.
    pub selected_mic_idx: Option<usize>,
    /// Index into the nodes: the sink whose audio is captured.
    pub selected_sink_idx: Option<usize>,
    /// Target language of the outgoing track.
    pub t1_target_lang_idx: usize,
    /// Target language of the incoming track.
    pub t2_target_lang_idx: usize,
    pub tts_sink_name: String,
    pub track2_enabled: bool,
    pub context_sentences: usize,
    pub silence_flush_ms: u32,
    pub min_chars_punct: usize,
    pub max_chars: usize,
    pub dg_key: String,
    pub deepl_key: String,
    pub el_key: String,
    pub voice_id: String,
    /// How many lines of subtitles the overlay shows.
    pub overlay_lines: usize,
    pub status: SessionStatus,
    /// Whether the outgoing track has started and not ended.
    pub outgoing_live: bool,
    /// Whether the incoming track has started and not ended.
    pub incoming_live: bool,
    pub log_path: Option<String>,
    /// What the user said, with translations.
    pub mic_lines: Vec<SubtitleLine>,
    /// What the other side said, with translations.
    pub audio_lines: Vec<SubtitleLine>,
    pub mic_partial: String,
    pub audio_partial: String,
    /// Errors, the most recent first.
    pub errors: Vec<String>,
}

/// What a session changes in the [`UiState`].
#[verifier::ext_equal]
pub struct LiveModel {
    pub status: SessionStatus,
    pub outgoing_live: bool,
    pub incoming_live: bool,
    pub log_path: Option<Seq<char>>,
    pub mic_lines: Seq<LineModel>,
    pub audio_lines: Seq<LineModel>,
    pub mic_partial: Seq<char>,
    pub audio_partial: Seq<char>,
    pub errors: Seq<Seq<char>>,
}

/// How many lines are kept for a track.
pub open spec fn line_limit() -> int {
    100
}

/// How many errors are kept.
pub open spec fn error_limit() -> int {
    10
}

/// The most recent lines, as many as are kept.
pub open spec fn recent_lines(lines: Seq<LineModel>) -> Seq<LineModel> {
    if lines.len() > line_limit() {
        lines.skip(lines.len() - line_limit())
    } else {
        lines
    }
}

/// The index of the last line with the given source text, or -1.
pub open spec fn last_with_source(lines: Seq<LineModel>, source: Seq<char>) -> int
    decreases lines.len(),
{
    if lines.len() == 0 {
        -1
    } else if lines.last().source == source {
        lines.len() - 1
    } else {
        last_with_source(lines.drop_last(), source)
    }
}

/// The lines once a translation is known: the last line with its source text
/// gets it, or else a new line.
pub open spec fn with_translation(
    lines: Seq<LineModel>,
    track: TrackId,
    source: Seq<char>,
    translated: Seq<char>,
    ts: Instant,
) -> Seq<LineModel> {
    let i = last_with_source(lines, source);
    if i >= 0 {
        lines.update(i, LineModel { translated, ts, ..lines[i] })
    } else {
        lines.push(LineModel { track, source, translated, ts })
    }
}

/// The errors once one more is known.
pub open spec fn with_error(errors: Seq<Seq<char>>, message: Seq<char>) -> Seq<Seq<char>> {
    let all = seq![message] + errors;
    if all.len() > error_limit() {
        all.take(error_limit())
    } else {
        all
    }
}

impl LiveModel {
    /// The state before the first session.
    pub open spec fn idle() -> LiveModel {
        LiveModel {
            status: SessionStatus::Idle,
            outgoing_live: false,
            incoming_live: false,
            log_path: None,
            mic_lines: Seq::empty(),
            audio_lines: Seq::empty(),
            mic_partial: Seq::empty(),
            audio_partial: Seq::empty(),
            errors: Seq::empty(),
        }
    }

    /// The state once a session has started, with the incoming track or
    /// without it.
    pub open spec fn started(self, log_path: Seq<char>, with_incoming: bool) -> LiveModel {
        LiveModel {
            status: SessionStatus::Running,
            outgoing_live: true,
            incoming_live: with_incoming,
            log_path: Some(log_path),
            ..LiveModel::idle()
        }
    }

    /// The state with one more error.
    pub open spec fn with_message(self, message: Seq<char>) -> LiveModel {
        LiveModel { errors: with_error(self.errors, message), ..self }
    }

    /// The state after an event of a session.
    pub open spec fn after(self, event: TrackEventModel, now: Instant) -> LiveModel {
        match event {
            TrackEventModel::Partial { track, text } => match track {
                TrackId::Outgoing => LiveModel { mic_partial: text, ..self },
                TrackId::Incoming => LiveModel { audio_partial: text, ..self },
            },
            TrackEventModel::PartialTranslated { .. } => self,
            TrackEventModel::Flushed { track, .. } => match track {
                TrackId::Outgoing => LiveModel { mic_partial: Seq::empty(), ..self },
                TrackId::Incoming => LiveModel { audio_partial: Seq::empty(), ..self },
            },
            TrackEventModel::Translated { track, source, translated } => match track {
                TrackId::Outgoing => LiveModel {
                    mic_lines: recent_lines(
                        with_translation(self.mic_lines, track, source, translated, now),
                    ),
                    audio_lines: recent_lines(self.audio_lines),
                    ..self
                },
                TrackId::Incoming => LiveModel {
                    mic_lines: recent_lines(self.mic_lines),
                    audio_lines: recent_lines(
                        with_translation(self.audio_lines, track, source, translated, now),
                    ),
                    ..self
                },
            },
            TrackEventModel::Error { message, .. } => self.with_message(message),
            TrackEventModel::Ended { track } => {
                let outgoing_live = self.outgoing_live && track != TrackId::Outgoing;
                let incoming_live = self.incoming_live && track != TrackId::Incoming;
                LiveModel {
                    status: if outgoing_live || incoming_live {
                        self.status
                    } else {
                        SessionStatus::Idle
                    },
                    outgoing_live,
                    incoming_live,
                    mic_partial: Seq::empty(),
                    audio_partial: Seq::empty(),
                    ..self
                }
            },
        }
    }

    /// Whether no more lines of a track are kept than the limit says.
    pub open spec fn lines_bounded(self) -> bool {
        self.mic_lines.len() <= line_limit() && self.audio_lines.len() <= line_limit()
    }

    /// Whether no more errors are kept than the limit says.
    pub open spec fn errors_bounded(self) -> bool {
        self.errors.len() <= error_limit()
    }
}

/// What the user has chosen and typed.
pub struct ChoiceModel {
    pub selected_mic_idx: Option<usize>,
    pub selected_sink_idx: Option<usize>,
    pub t1_target_lang_idx: usize,
    pub t2_target_lang_idx: usize,
    pub tts_sink_name: Seq<char>,
    pub track2_enabled: bool,
    pub context_sentences: usize,
    pub silence_flush_ms: u32,
    pub min_chars_punct: usize,
    pub max_chars: usize,
    pub dg_key: Seq<char>,
    pub deepl_key: Seq<char>,
    pub el_key: Seq<char>,
    pub voice_id: Seq<char>,
    pub overlay_lines: usize,
}

/// The target language at an index, or the given one where there is none.
pub open spec fn target_or(i: int, default: Seq<char>) -> Seq<char> {
    match code_at(i) {
        Some(code) => code,
        None => default,
    }
}

impl ChoiceModel {
    /// The choices at the start of the application, with the given target
    /// languages.
    pub open spec fn of_settings(cfg: ConfigModel, t1_idx: usize, t2_idx: usize) -> ChoiceModel {
        ChoiceModel {
            selected_mic_idx: None,
            selected_sink_idx: None,
            t1_target_lang_idx: t1_idx,
            t2_target_lang_idx: t2_idx,
            tts_sink_name: match cfg.tts_sink_name {
                Some(name) => name,
                None => Seq::empty(),
            },
            track2_enabled: cfg.track2_enabled,
            context_sentences: cfg.context_sentences,
            silence_flush_ms: (cfg.buf.silence_flush.nanos as int / 1_000_000 % 0x1_0000_0000) as u32,
            min_chars_punct: cfg.buf.min_chars_for_punct_flush,
            max_chars: cfg.buf.max_chars_before_flush,
            dg_key: cfg.dg_api_key,
            deepl_key: cfg.deepl_key,
            el_key: cfg.el_key,
            voice_id: cfg.voice_id,
            overlay_lines: 3,
        }
    }

    /// The settings of a session that starts now.
    pub open spec fn applied_to(self, cfg: ConfigModel) -> ConfigModel {
        ConfigModel {
            dg_api_key: self.dg_key,
            deepl_key: self.deepl_key,
            el_key: self.el_key,
            voice_id: self.voice_id,
            t1_target_lang: target_or(self.t1_target_lang_idx as int, "DE"@),
            t2_target_lang: target_or(self.t2_target_lang_idx as int, "EN"@),
            tts_sink_name: if crate::text::blank(self.tts_sink_name) {
                None
            } else {
                Some(crate::text::trimmed(self.tts_sink_name))
            },
            track2_enabled: self.track2_enabled,
            context_sentences: self.context_sentences,
            buf: TranscriptBufferConfig {
                min_chars_for_punct_flush: self.min_chars_punct,
                max_chars_before_flush: self.max_chars,
                silence_flush: Duration { nanos: (self.silence_flush_ms * 1_000_000) as u128 },
                flush_on_utterance_end: cfg.buf.flush_on_utterance_end,
            },
            ..cfg
        }
    }
}

/// Whether `i` is the first node of a class.
pub open spec fn is_first_of(nodes: Seq<AudioNode>, class: MediaClass, i: int) -> bool {
    &&& 0 <= i < nodes.len()
    &&& nodes[i].class == class
    &&& forall|j: int| 0 <= j < i ==> (#[trigger] nodes[j]).class != class
}

/// Whether `r` is the first node of a class, or nothing where there is none.
pub open spec fn first_of(nodes: Seq<AudioNode>, class: MediaClass, r: Option<usize>) -> bool {
    match r {
        Some(i) => is_first_of(nodes, class, i as int),
        None => forall|j: int| 0 <= j < nodes.len() ==> (#[trigger] nodes[j]).class != class,
    }
}

/// The first node of a class.
pub fn first_index(nodes: &Vec<AudioNode>, class: MediaClass) -> (r: Option<usize>)
    ensures
        first_of(nodes@, class, r),
{
    let n: usize = nodes.len();
    let mut i: usize = 0;
    while i < n
        invariant
            n == nodes@.len(),
            i <= n,
            forall|j: int| 0 <= j < i ==> (#[trigger] nodes@[j]).class != class,
        decreases n - i,
    {
        if nodes[i].class == class {
            return Some(i);
        }
        i = i + 1;
    }
    None
}

/// The id of the node at an index.
pub open spec fn id_at(nodes: Seq<AudioNode>, i: Option<usize>) -> Option<u32> {
    match i {
        Some(k) => if k < nodes.len() {
            Some(nodes[k as int].id)
        } else {
            None
        },
        None => None,
    }
}

fn node_id_at(nodes: &Vec<AudioNode>, i: Option<usize>) -> (r: Option<u32>)
    ensures
        r == id_at(nodes@, i),
{
    match i {
        Some(k) => {
            if k < nodes.len() {
                Some(nodes[k].id)
            } else {
                None
            }
        },
        None => None,
    }
}

fn put_translation(
    lines: &mut Vec<SubtitleLine>,
    track: TrackId,
    source: String,
    translated: String,
    ts: Instant,
)
    ensures
        lines_view(final(lines)@) == with_translation(
            lines_view(old(lines)@),
            track,
            source@,
            translated@,
            ts,
        ),
{
    let ghost before = lines_view(lines@);
    let n: usize = lines.len();
    let mut i: usize = n;
    assert(before.take(n as int) =~= before);
    while i > 0
        invariant
            n == lines@.len(),
            i <= n,
            before == lines_view(lines@),
            lines@ == old(lines)@,
            last_with_source(before, source@) == last_with_source(before.take(i as int), source@),
        decreases i,
    {
        proof {
            assert(before.take(i as int).drop_last() =~= before.take(i - 1));
            assert(before.take(i as int).last() == lines@[i - 1]@);
        }
        if same_text(lines[i - 1].source.as_str(), source.as_str()) {
            let old_line: SubtitleLine = lines[i - 1].clone();
            let line = SubtitleLine {
                track: old_line.track,
                source: old_line.source,
                translated,
                ts,
            };
            lines.set(i - 1, line);
            assert(lines_view(lines@) =~= with_translation(
                before,
                track,
                source@,
                translated@,
                ts,
            ));
            return;
        }
        i = i - 1;
    }
    let line = SubtitleLine { track, source, translated, ts };
    lines.push(line);
    assert(lines_view(lines@) =~= before.push(line@));
}

fn trim_lines(lines: &mut Vec<SubtitleLine>)
    ensures
        lines_view(final(lines)@) == recent_lines(lines_view(old(lines)@)),
{
    let n: usize = lines.len();
    if n > 100 {
        let kept: Vec<SubtitleLine> = lines.split_off(n - 100);
        *lines = kept;
        assert(lines_view(lines@) =~= recent_lines(lines_view(old(lines)@)));
    }
}

fn node_text(node: &AudioNode) -> (r: String)
    ensures
        r@ == node.description@ + " ("@ + node.name@ + ")"@,
{
    let mut out: String = node.description.clone();
    out.append(" (");
    out.append(node.name.as_str());
    out.append(")");
    out
}

impl UiState {
    /// What a session changes.
    pub open spec fn live(&self) -> LiveModel {
        LiveModel {
            status: self.status,
            outgoing_live: self.outgoing_live,
            incoming_live: self.incoming_live,
            log_path: text_view(self.log_path),
            mic_lines: lines_view(self.mic_lines@),
            audio_lines: lines_view(self.audio_lines@),
            mic_partial: self.mic_partial@,
            audio_partial: self.audio_partial@,
            errors: texts_view(self.errors@),
        }
    }

    /// What the user has chosen and typed.
    pub open spec fn choices(&self) -> ChoiceModel {
        ChoiceModel {
            selected_mic_idx: self.selected_mic_idx,
            selected_sink_idx: self.selected_sink_idx,
            t1_target_lang_idx: self.t1_target_lang_idx,
            t2_target_lang_idx: self.t2_target_lang_idx,
            tts_sink_name: self.tts_sink_name@,
            track2_enabled: self.track2_enabled,
            context_sentences: self.context_sentences,
            silence_flush_ms: self.silence_flush_ms,
            min_chars_punct: self.min_chars_punct,
            max_chars: self.max_chars,
            dg_key: self.dg_key@,
            deepl_key: self.deepl_key@,
            el_key: self.el_key@,
            voice_id: self.voice_id@,
            overlay_lines: self.overlay_lines,
        }
    }

    /// The state at the start of the application. A target language that is
    /// not in the list becomes German for the outgoing track and English for
    /// the incoming one. The milliseconds of silence are kept modulo 2^32.
    pub fn from_config(cfg: &AppConfig) -> (r: UiState)
        ensures
            r.nodes@.len() == 0,
            r.live() == LiveModel::idle(),
            has_code(cfg.t1_target_lang@, 0) ==> code_at(r.t1_target_lang_idx as int) == Some(
                cfg.t1_target_lang@,
            ),
            !has_code(cfg.t1_target_lang@, 0) ==> r.t1_target_lang_idx == 1,
            has_code(cfg.t2_target_lang@, 0) ==> code_at(r.t2_target_lang_idx as int) == Some(
                cfg.t2_target_lang@,
            ),
            !has_code(cfg.t2_target_lang@, 0) ==> r.t2_target_lang_idx == 0,
            r.choices() == ChoiceModel::of_settings(
                cfg@,
                r.t1_target_lang_idx,
                r.t2_target_lang_idx,
            ),
    {
        let tts_sink_name: String = match &cfg.tts_sink_name {
            Some(name) => name.clone(),
            None => String::new(),
        };
        let ms: u128 = cfg.buf.silence_flush.as_millis();
        let r = UiState {
            nodes: Vec::new(),
            selected_mic_idx: None,
            selected_sink_idx: None,
            t1_target_lang_idx: language_index(cfg.t1_target_lang.as_str(), 1),
            t2_target_lang_idx: language_index(cfg.t2_target_lang.as_str(), 0),
            tts_sink_name,
            track2_enabled: cfg.track2_enabled,
            context_sentences: cfg.context_sentences,
            silence_flush_ms: (ms % 0x1_0000_0000) as u32,
            min_chars_punct: cfg.buf.min_chars_for_punct_flush,
            max_chars: cfg.buf.max_chars_before_flush,
            dg_key: cfg.dg_api_key.clone(),
            deepl_key: cfg.deepl_key.clone(),
            el_key: cfg.el_key.clone(),
            voice_id: cfg.voice_id.clone(),
            overlay_lines: 3,
            status: SessionStatus::Idle,
            outgoing_live: false,
            incoming_live: false,
            log_path: None,
            mic_lines: Vec::new(),
            audio_lines: Vec::new(),
            mic_partial: String::new(),
            audio_partial: String::new(),
            errors: Vec::new(),
        };
        assert(r.live() =~= LiveModel::idle());
        assert(cfg.tts_sink_name is None ==> r.tts_sink_name@ =~= Seq::empty());
        r
    }

    /// Takes a new list of nodes, or the reason why there is none. Where no
    /// microphone or no sink is selected, the first one is.
    pub fn refresh_nodes(&mut self, listed: Result<Vec<NodeInfo>, String>)
        ensures
            match listed {
                Ok(nodes) => {
                    &&& final(self).nodes@ == nodes@.map_values(
                        |n: NodeInfo|
                            AudioNode {
                                id: n.id,
                                name: n.name,
                                description: n.description,
                                class: n.media_class,
                            },
                    )
                    &&& if old(self).selected_mic_idx is Some {
                        final(self).selected_mic_idx == old(self).selected_mic_idx
                    } else {
                        first_of(
                            final(self).nodes@,
                            MediaClass::Source,
                            final(self).selected_mic_idx,
                        )
                    }
                    &&& if old(self).selected_sink_idx is Some {
                        final(self).selected_sink_idx == old(self).selected_sink_idx
                    } else {
                        first_of(
                            final(self).nodes@,
                            MediaClass::Sink,
                            final(self).selected_sink_idx,
                        )
                    }
                    &&& final(self).live() == old(self).live()
                },
                Err(error) => {
                    &&& final(self).nodes@ == old(self).nodes@
                    &&& final(self).selected_mic_idx == old(self).selected_mic_idx
                    &&& final(self).selected_sink_idx == old(self).selected_sink_idx
                    &&& final(self).live() == old(self).live().with_message(
                        "PipeWire node list: "@ + error@,
                    )
                },
            },
            final(self).choices() == (ChoiceModel {
                selected_mic_idx: final(self).selected_mic_idx,
                selected_sink_idx: final(self).selected_sink_idx,
                ..old(self).choices()
            }),
    {
        match listed {
            Ok(nodes) => {
                let mut rest: Vec<NodeInfo> = nodes;
                let mut list: Vec<AudioNode> = Vec::new();
                let ghost picked = nodes@.map_values(
                    |n: NodeInfo|
                        AudioNode {
                            id: n.id,
                            name: n.name,
                            description: n.description,
                            class: n.media_class,
                        },
                );
                while rest.len() > 0
                    invariant
                        picked.len() == nodes@.len(),
                        list@.len() + rest@.len() == nodes@.len(),
                        rest@ == nodes@.skip(list@.len() as int),
                        list@ == picked.take(list@.len() as int),
                        picked == nodes@.map_values(
                            |n: NodeInfo|
                                AudioNode {
                                    id: n.id,
                                    name: n.name,
                                    description: n.description,
                                    class: n.media_class,
                                },
                        ),
                    decreases rest@.len(),
                {
                    let ghost k = list@.len() as int;
                    let n: NodeInfo = rest.remove(0);
                    list.push(AudioNode::from(n));
                    assert(rest@ =~= nodes@.skip(k + 1));
                    assert(list@ =~= picked.take(k + 1));
                }
                assert(list@ =~= picked);
                self.nodes = list;
                if self.selected_mic_idx.is_none() {
                    self.selected_mic_idx = first_index(&self.nodes, MediaClass::Source);
                }
                if self.selected_sink_idx.is_none() {
                    self.selected_sink_idx = first_index(&self.nodes, MediaClass::Sink);
                }
            },
            Err(error) => {
                let mut message: String = "PipeWire node list: ".to_owned();
                message.append(error.as_str());
                self.push_error(message);
            },
        }
    }

    /// Takes an event of a session into the state.
    pub fn apply_event(&mut self, evt: TrackEvent, now: Instant)
        ensures
            final(self).live() == old(self).live().after(evt@, now),
            final(self).choices() == old(self).choices(),
            final(self).nodes@ == old(self).nodes@,
    {
        let ghost before = self.live();
        match evt {
            TrackEvent::Partial { track, text } => match track {
                TrackId::Outgoing => {
                    self.mic_partial = text;
                },
                TrackId::Incoming => {
                    self.audio_partial = text;
                },
            },
            TrackEvent::PartialTranslated { .. } => {},
            TrackEvent::Flushed { track, .. } => match track {
                TrackId::Outgoing => {
                    self.mic_partial = String::new();
                    assert(self.mic_partial@ =~= Seq::empty());
                },
                TrackId::Incoming => {
                    self.audio_partial = String::new();
                    assert(self.audio_partial@ =~= Seq::empty());
                },
            },
            TrackEvent::Translated { track, source, translated } => {
                match track {
                    TrackId::Outgoing => {
                        put_translation(&mut self.mic_lines, track, source, translated, now);
                    },
                    TrackId::Incoming => {
                        put_translation(&mut self.audio_lines, track, source, translated, now);
                    },
                }
                trim_lines(&mut self.mic_lines);
                trim_lines(&mut self.audio_lines);
            },
            TrackEvent::Error { message, .. } => {
                self.push_error(message);
            },
            TrackEvent::Ended { track } => {
                match track {
                    TrackId::Outgoing => {
                        self.outgoing_live = false;
                    },
                    TrackId::Incoming => {
                        self.incoming_live = false;
                    },
                }
                if !self.outgoing_live && !self.incoming_live {
                    self.status = SessionStatus::Idle;
                }
                self.mic_partial = String::new();
                self.audio_partial = String::new();
                assert(self.mic_partial@ =~= Seq::empty());
                assert(self.audio_partial@ =~= Seq::empty());
            },
        }
        assert(self.live() =~= before.after(evt@, now));
    }

    /// The target language of the outgoing track.
    pub fn t1_target_lang(&self) -> (r: &'static str)
        ensures
            r@ == target_or(self.t1_target_lang_idx as int, "DE"@),
    {
        match language_code(self.t1_target_lang_idx) {
            Some(code) => code,
            None => "DE",
        }
    }

    /// The target language of the incoming track.
    pub fn t2_target_lang(&self) -> (r: &'static str)
        ensures
            r@ == target_or(self.t2_target_lang_idx as int, "EN"@),
    {
        match language_code(self.t2_target_lang_idx) {
            Some(code) => code,
            None => "EN",
        }
    }

    /// The id of the selected microphone.
    pub fn mic_node_id(&self) -> (r: Option<u32>)
        ensures
            r == id_at(self.nodes@, self.selected_mic_idx),
    {
        node_id_at(&self.nodes, self.selected_mic_idx)
    }

    /// The id of the selected sink.
    pub fn sink_node_id(&self) -> (r: Option<u32>)
        ensures
            r == id_at(self.nodes@, self.selected_sink_idx),
    {
        node_id_at(&self.nodes, self.selected_sink_idx)
    }

    /// Adds an error in front of the others, and forgets the oldest ones.
    pub fn push_error(&mut self, msg: String)
        ensures
            final(self).live() == old(self).live().with_message(msg@),
            final(self).choices() == old(self).choices(),
            final(self).nodes@ == old(self).nodes@,
    {
        let ghost before = self.live();
        self.errors.insert(0, msg);
        assert(texts_view(self.errors@) =~= seq![msg@] + before.errors);
        if self.errors.len() > 10 {
            self.errors.truncate(10);
            assert(texts_view(self.errors@) =~= (seq![msg@] + before.errors).take(10));
        }
        assert(self.live() =~= before.with_message(msg@));
    }

    fn prepend_error(&mut self, msg: String)
        ensures
            final(self).live() == (LiveModel {
                errors: seq![msg@] + old(self).live().errors,
                ..old(self).live()
            }),
            final(self).choices() == old(self).choices(),
            final(self).nodes@ == old(self).nodes@,
    {
        let ghost before = self.live();
        self.errors.insert(0, msg);
        assert(texts_view(self.errors@) =~= seq![msg@] + before.errors);
    }

    /// The settings of a session that starts now: `cfg`, with what the user
    /// has chosen and typed. Without a key for transcription there is no
    /// session, which is told as an error.
    pub fn session_config(&mut self, cfg: &AppConfig) -> (r: Option<AppConfig>)
        ensures
            match r {
                Some(live) => {
                    &&& old(self).dg_key@.len() > 0
                    &&& live@ == old(self).choices().applied_to(cfg@)
                    &&& final(self).live() == old(self).live()
                },
                None => {
                    &&& old(self).dg_key@.len() == 0
                    &&& final(self).live() == (LiveModel {
                        errors: seq!["DEEPGRAM_API_KEY is required."@] + old(self).live().errors,
                        ..old(self).live()
                    })
                },
            },
            final(self).choices() == old(self).choices(),
            final(self).nodes@ == old(self).nodes@,
    {
        if self.dg_key.as_str().is_empty() {
            self.prepend_error("DEEPGRAM_API_KEY is required.".to_owned());
            return None;
        }
        let sink: String = trim_text(self.tts_sink_name.as_str());
        let tts_sink_name: Option<String> = if sink.as_str().is_empty() {
            None
        } else {
            Some(sink)
        };
        let base: AppConfig = cfg.clone();
        let live = AppConfig {
            dg_api_key: self.dg_key.clone(),
            deepl_key: self.deepl_key.clone(),
            el_key: self.el_key.clone(),
            voice_id: self.voice_id.clone(),
            source_lang: base.source_lang,
            t1_target_lang: self.t1_target_lang().to_owned(),
            t2_target_lang: self.t2_target_lang().to_owned(),
            tts_sink_name,
            track2_enabled: self.track2_enabled,
            buf: TranscriptBufferConfig {
                min_chars_for_punct_flush: self.min_chars_punct,
                max_chars_before_flush: self.max_chars,
                silence_flush: Duration::from_millis(self.silence_flush_ms as u64),
                flush_on_utterance_end: base.buf.flush_on_utterance_end,
            },
            context_sentences: self.context_sentences,
        };
        Some(live)
    }

    /// Takes note that a session has started, with the incoming track or
    /// without it: what an earlier one left is gone.
    pub fn session_started(&mut self, log_path: String, with_incoming: bool)
        ensures
            final(self).live() == old(self).live().started(log_path@, with_incoming),
            final(self).choices() == old(self).choices(),
            final(self).nodes@ == old(self).nodes@,
    {
        let ghost before = self.live();
        self.log_path = Some(log_path);
        self.status = SessionStatus::Running;
        self.outgoing_live = true;
        self.incoming_live = with_incoming;
        self.errors = Vec::new();
        self.mic_lines = Vec::new();
        self.audio_lines = Vec::new();
        self.mic_partial = String::new();
        self.audio_partial = String::new();
        assert(self.live() =~= before.started(log_path@, with_incoming));
    }

    /// Takes note that a session could not start.
    pub fn start_failed(&mut self, error: &str)
        ensures
            final(self).live() == (LiveModel {
                errors: seq!["Start failed: "@ + error@] + old(self).live().errors,
                ..old(self).live()
            }),
            final(self).choices() == old(self).choices(),
            final(self).nodes@ == old(self).nodes@,
    {
        let mut message: String = "Start failed: ".to_owned();
        message.append(error);
        self.prepend_error(message);
    }

    /// Takes note that the session was asked to stop.
    pub fn stop_requested(&mut self)
        ensures
            final(self).live() == (LiveModel {
                status: SessionStatus::Stopping,
                ..old(self).live()
            }),
            final(self).choices() == old(self).choices(),
            final(self).nodes@ == old(self).nodes@,
    {
        self.status = SessionStatus::Stopping;
    }

    /// Whether the settings can be changed: not during a session.
    pub fn editable(&self) -> (r: bool)
        ensures
            r == (self.status == SessionStatus::Idle),
    {
        self.status == SessionStatus::Idle
    }

    /// Whether the subtitles are shown: during a session with the incoming
    /// track enabled, and as long as there are lines.
    pub fn overlay_visible(&self) -> (r: bool)
        ensures
            r == (self.track2_enabled && (self.status == SessionStatus::Running
                || self.audio_lines@.len() > 0)),
    {
        self.track2_enabled && (self.status == SessionStatus::Running || self.audio_lines.len() > 0)
    }

    /// The label of the node at an index.
    pub fn node_label(&self, idx: Option<usize>) -> (r: String)
        ensures
            r@ == match idx {
                None => "Default"@,
                Some(i) => if i < self.nodes@.len() {
                    self.nodes@[i as int].description@ + " ("@ + self.nodes@[i as int].name@ + ")"@
                } else {
                    "?"@
                },
            },
    {
        match idx {
            None => "Default".to_owned(),
            Some(i) => {
                if i < self.nodes.len() {
                    node_text(&self.nodes[i])
                } else {
                    "?".to_owned()
                }
            },
        }
    }

    /// The nodes of a class, by their indices.
    pub fn nodes_of_class(&self, class: MediaClass) -> (r: Vec<usize>)
        ensures
            r@ == indices_of(self.nodes@, class),
    {
        let n: usize = self.nodes.len();
        let mut out: Vec<usize> = Vec::new();
        assert(out@ =~= indices_of(self.nodes@.take(0), class));
        for i in 0..n
            invariant
                n == self.nodes@.len(),
                out@ == indices_of(self.nodes@.take(i as int), class),
        {
            assert(self.nodes@.take(i + 1).drop_last() =~= self.nodes@.take(i as int));
            assert(self.nodes@.take(i + 1).last() == self.nodes@[i as int]);
            if self.nodes[i].class == class {
                out.push(i);
            }
        }
        assert(self.nodes@.take(n as int) =~= self.nodes@);
        out
    }

    /// Takes the text of the silence field; text that is no number changes
    /// nothing, and a number below 100 counts as 100.
    pub fn edit_silence_flush(&mut self, text: &str)
        ensures
            final(self).choices() == (ChoiceModel {
                silence_flush_ms: match crate::text::parsed_up_to(text@, u32::MAX as nat) {
                    Some(n) => at_least(n, 100) as u32,
                    None => old(self).silence_flush_ms,
                },
                ..old(self).choices()
            }),
            final(self).live() == old(self).live(),
            final(self).nodes@ == old(self).nodes@,
    {
        if let Some(v) = parse_up_to(text, 0xffff_ffff) {
            self.silence_flush_ms = if v < 100 {
                100
            } else {
                v as u32
            };
        }
    }

    /// Takes the text of the field for the least number of characters.
    pub fn edit_min_chars(&mut self, text: &str)
        ensures
            final(self).choices() == (ChoiceModel {
                min_chars_punct: match crate::text::parsed_up_to(text@, usize::MAX as nat) {
                    Some(n) => n as usize,
                    None => old(self).min_chars_punct,
                },
                ..old(self).choices()
            }),
            final(self).live() == old(self).live(),
            final(self).nodes@ == old(self).nodes@,
    {
        if let Some(v) = parse_up_to(text, usize::MAX as u64) {
            self.min_chars_punct = v as usize;
        }
    }

    /// Takes the text of the field for the greatest number of characters; a
    /// number below 50 counts as 50.
    pub fn edit_max_chars(&mut self, text: &str)
        ensures
            final(self).choices() == (ChoiceModel {
                max_chars: match crate::text::parsed_up_to(text@, usize::MAX as nat) {
                    Some(n) => at_least(n, 50) as usize,
                    None => old(self).max_chars,
                },
                ..old(self).choices()
            }),
            final(self).live() == old(self).live(),
            final(self).nodes@ == old(self).nodes@,
    {
        if let Some(v) = parse_up_to(text, usize::MAX as u64) {
            self.max_chars = if v < 50 {
                50
            } else {
                v as usize
            };
        }
    }

    /// Takes the text of the field for the context; the number is kept from 1 to 20.
    pub fn edit_context_sentences(&mut self, text: &str)
        ensures
            final(self).choices() == (ChoiceModel {
                context_sentences: match crate::text::parsed_up_to(text@, usize::MAX as nat) {
                    Some(n) => at_most(at_least(n, 1), 20) as usize,
                    None => old(self).context_sentences,
                },
                ..old(self).choices()
            }),
            final(self).live() == old(self).live(),
            final(self).nodes@ == old(self).nodes@,
    {
        if let Some(v) = parse_up_to(text, usize::MAX as u64) {
            self.context_sentences = if v < 1 {
                1
            } else if v > 20 {
                20
            } else {
                v as usize
            };
        }
    }

    /// Takes the text of the field for the overlay; the number is kept from 1 to 10.
    pub fn edit_overlay_lines(&mut self, text: &str)
        ensures
            final(self).choices() == (ChoiceModel {
                overlay_lines: match crate::text::parsed_up_to(text@, usize::MAX as nat) {
                    Some(n) => at_most(at_least(n, 1), 10) as usize,
                    None => old(self).overlay_lines,
                },
                ..old(self).choices()
            }),
            final(self).live() == old(self).live(),
            final(self).nodes@ == old(self).nodes@,
    {
        if let Some(v) = parse_up_to(text, usize::MAX as u64) {
            self.overlay_lines = if v < 1 {
                1
            } else if v > 10 {
                10
            } else {
                v as usize
            };
        }
    }
}

/// The greater of a number and a lower bound.
pub open spec fn at_least(n: nat, low: nat) -> nat {
    if n < low {
        low
    } else {
        n
    }
}

/// The lesser of a number and an upper bound.
pub open spec fn at_most(n: nat, high: nat) -> nat {
    if n > high {
        high
    } else {
        n
    }
}

/// The indices of the nodes of a class, in their order.
pub open spec fn indices_of(nodes: Seq<AudioNode>, class: MediaClass) -> Seq<usize>
    decreases nodes.len(),
{
    if nodes.len() == 0 {
        Seq::empty()
    } else if nodes.last().class == class {
        indices_of(nodes.drop_last(), class).push((nodes.len() - 1) as usize)
    } else {
        indices_of(nodes.drop_last(), class)
    }
}

/// How many of the most recent lines the main window shows.
pub const SHOWN_MIC_LINES: usize = 8;

/// How many of the most recent errors are shown.
pub const SHOWN_ERRORS: usize = 3;

/// How many events are taken at a time.
pub const EVENT_BATCH: usize = 64;

/// Where the last `shown` of `n` lines start.
pub fn first_shown(n: usize, shown: usize) -> (r: usize)
    ensures
        r == if n > shown {
            n - shown
        } else {
            0
        },
{
    if n > shown {
        n - shown
    } else {
        0
    }
}

/// Whether a line shows its source text below the translation.
pub fn shows_source(line: &SubtitleLine) -> (r: bool)
    ensures
        r == (line.source@.len() > 0 && line.source@ != line.translated@),
{
    !line.source.as_str().is_empty() && !same_text(line.source.as_str(), line.translated.as_str())
}

/// A session that starts before the user has changed anything has the settings
/// that were loaded, where the window can show them: target languages of the
/// list, a sink name that is not blank and has no whitespace around it, and
/// whole milliseconds of silence below 2^32.
pub proof fn untouched_settings_are_kept(cfg: ConfigModel, t1_idx: usize, t2_idx: usize)
    requires
        code_at(t1_idx as int) == Some(cfg.t1_target_lang),
        code_at(t2_idx as int) == Some(cfg.t2_target_lang),
        cfg.tts_sink_name matches Some(name) ==> !crate::text::blank(name)
            && crate::text::trimmed(name) == name,
        cfg.buf.silence_flush.nanos % 1_000_000 == 0,
        cfg.buf.silence_flush.nanos < 0x1_0000_0000 * 1_000_000,
    ensures
        ChoiceModel::of_settings(cfg, t1_idx, t2_idx).applied_to(cfg) == cfg,
{
    let choices = ChoiceModel::of_settings(cfg, t1_idx, t2_idx);
    assert(choices.silence_flush_ms * 1_000_000 == cfg.buf.silence_flush.nanos);
    if cfg.tts_sink_name is None {
        assert(crate::text::blank(choices.tts_sink_name));
    }
    assert(choices.applied_to(cfg).buf == cfg.buf);
}

/// The state after a sequence of events, each with the time at which it came.
pub open spec fn live_after(m: LiveModel, events: Seq<(TrackEventModel, Instant)>) -> LiveModel
    decreases events.len(),
{
    if events.len() == 0 {
        m
    } else {
        live_after(m, events.drop_last()).after(events.last().0, events.last().1)
    }
}

proof fn lemma_last_with_source(lines: Seq<LineModel>, source: Seq<char>)
    ensures
        -1 <= last_with_source(lines, source) < lines.len(),
        last_with_source(lines, source) >= 0 ==> lines[last_with_source(lines, source)].source
            == source,
        forall|j: int|
            last_with_source(lines, source) < j < lines.len() ==> (#[trigger] lines[j]).source
                != source,
    decreases lines.len(),
{
    if lines.len() > 0 && lines.last().source != source {
        lemma_last_with_source(lines.drop_last(), source);
        assert forall|j: int|
            last_with_source(lines, source) < j < lines.len() implies (#[trigger] lines[j]).source
            != source by {
            if j < lines.len() - 1 {
                assert(lines.drop_last()[j].source != source);
            }
        }
        let i = last_with_source(lines, source);
        if i >= 0 {
            assert(lines.drop_last()[i].source == source);
        }
    }
}

proof fn lemma_after_is_bounded(m: LiveModel, event: TrackEventModel, now: Instant)
    ensures
        m.lines_bounded() ==> m.after(event, now).lines_bounded(),
        m.errors_bounded() ==> m.after(event, now).errors_bounded(),
{
    if let TrackEventModel::Translated { track, source, translated } = event {
        lemma_last_with_source(m.mic_lines, source);
        lemma_last_with_source(m.audio_lines, source);
    }
}

/// However many events come in, no more than a hundred lines of a track and no
/// more than ten errors are kept.
pub proof fn history_is_bounded(m: LiveModel, events: Seq<(TrackEventModel, Instant)>)
    ensures
        m.lines_bounded() ==> live_after(m, events).lines_bounded(),
        m.errors_bounded() ==> live_after(m, events).errors_bounded(),
    decreases events.len(),
{
    if events.len() > 0 {
        history_is_bounded(m, events.drop_last());
        lemma_after_is_bounded(
            live_after(m, events.drop_last()),
            events.last().0,
            events.last().1,
        );
    }
}

/// A translation is shown: once it has come in, the most recent line of its
/// track with its source text has it.
pub proof fn translation_is_shown(
    m: LiveModel,
    track: TrackId,
    source: Seq<char>,
    translated: Seq<char>,
    now: Instant,
)
    requires
        m.lines_bounded(),
    ensures
        ({
            let after = m.after(TrackEventModel::Translated { track, source, translated }, now);
            let lines = match track {
                TrackId::Outgoing => after.mic_lines,
                TrackId::Incoming => after.audio_lines,
            };
            let i = last_with_source(lines, source);
            0 <= i < lines.len() && lines[i].source == source && lines[i].translated == translated
        }),
{
    let before = match track {
        TrackId::Outgoing => m.mic_lines,
        TrackId::Incoming => m.audio_lines,
    };
    let after = m.after(TrackEventModel::Translated { track, source, translated }, now);
    let lines = match track {
        TrackId::Outgoing => after.mic_lines,
        TrackId::Incoming => after.audio_lines,
    };
    lemma_last_with_source(before, source);
    lemma_last_with_source(lines, source);
    let i = last_with_source(before, source);
    let k = last_with_source(lines, source);
    if i >= 0 {
        assert(lines =~= before.update(i, LineModel { translated, ts: now, ..before[i] }));
        assert(lines[i].source == source);
        if k != i {
            assert(lines[k].source == before[k].source);
        }
    } else {
        let last = lines.len() - 1;
        assert(lines[last].source == source);
        assert(lines[last].translated == translated);
    }
}

/// Either track can end without taking down the other: as long as one of them
/// is live, the session goes on, and it is over once neither is.
pub proof fn tracks_end_independently(m: LiveModel, track: TrackId, now: Instant)
    ensures
        ({
            let after = m.after(TrackEventModel::Ended { track }, now);
            &&& after.outgoing_live || after.incoming_live ==> after.status == m.status
            &&& !after.outgoing_live && !after.incoming_live ==> after.status == SessionStatus::Idle
            &&& track == TrackId::Outgoing ==> after.incoming_live == m.incoming_live
            &&& track == TrackId::Incoming ==> after.outgoing_live == m.outgoing_live
            &&& after.mic_lines == m.mic_lines && after.audio_lines == m.audio_lines
        }),
{
}

/// Whether `after` are the lines of a track once a translation has come in,
/// where `before` were at most a hundred. The most recent line with its source
/// text, where there is one, gets the translation and the time, and every
/// other line is as it was. Else a new line stands behind the others, of which
/// the first gives way where there were a hundred.
pub open spec fn translation_came_in(
    before: Seq<LineModel>,
    after: Seq<LineModel>,
    track: TrackId,
    source: Seq<char>,
    translated: Seq<char>,
    now: Instant,
) -> bool {
    ||| exists|i: int|
        0 <= i < before.len() && (#[trigger] before[i]).source == source && after.len()
            == before.len() && after[i] == (LineModel {
            track: before[i].track,
            source,
            translated,
            ts: now,
        }) && (forall|j: int| 0 <= j < before.len() && j != i ==> #[trigger] after[j] == before[j])
            && (forall|j: int| i < j < before.len() ==> (#[trigger] before[j]).source != source)
    ||| {
        &&& forall|j: int| 0 <= j < before.len() ==> (#[trigger] before[j]).source != source
        &&& after == (if before.len() < 100 {
            before
        } else {
            before.skip(1)
        }).push(LineModel { track, source, translated, ts: now })
    }
}

proof fn lemma_translation_came_in(
    before: Seq<LineModel>,
    track: TrackId,
    source: Seq<char>,
    translated: Seq<char>,
    now: Instant,
)
    requires
        before.len() <= 100,
    ensures
        translation_came_in(
            before,
            recent_lines(with_translation(before, track, source, translated, now)),
            track,
            source,
            translated,
            now,
        ),
{
    let after = recent_lines(with_translation(before, track, source, translated, now));
    let i = last_with_source(before, source);
    lemma_last_with_source(before, source);
    if i >= 0 {
        assert(before[i].source == source);
        assert(after =~= before.update(i, LineModel { translated, ts: now, ..before[i] }));
    } else {
        let line = LineModel { track, source, translated, ts: now };
        if before.len() < 100 {
            assert(after =~= before.push(line));
        } else {
            assert(after =~= before.skip(1).push(line));
        }
    }
}

/// A translation changes one line of its own track, and nothing else: the
/// lines of the other track, the partials, the errors, the session and what
/// the user chose are as they were.
pub proof fn translation_changes_one_line(
    s: &mut UiState,
    event: TrackEvent,
    now: Instant,
    track: TrackId,
    source: String,
    translated: String,
)
    requires
        call_ensures(UiState::apply_event, (s, event, now), ()),
        event == (TrackEvent::Translated { track, source, translated }),
        old(s).mic_lines@.len() <= 100,
        old(s).audio_lines@.len() <= 100,
    ensures
        track == TrackId::Outgoing ==> translation_came_in(
            lines_view(old(s).mic_lines@),
            lines_view(final(s).mic_lines@),
            track,
            source@,
            translated@,
            now,
        ) && lines_view(final(s).audio_lines@) == lines_view(old(s).audio_lines@),
        track == TrackId::Incoming ==> translation_came_in(
            lines_view(old(s).audio_lines@),
            lines_view(final(s).audio_lines@),
            track,
            source@,
            translated@,
            now,
        ) && lines_view(final(s).mic_lines@) == lines_view(old(s).mic_lines@),
        final(s).mic_partial@ == old(s).mic_partial@,
        final(s).audio_partial@ == old(s).audio_partial@,
        texts_view(final(s).errors@) == texts_view(old(s).errors@),
        final(s).status == old(s).status,
        final(s).outgoing_live == old(s).outgoing_live,
        final(s).incoming_live == old(s).incoming_live,
        text_view(final(s).log_path) == text_view(old(s).log_path),
        final(s).nodes@ == old(s).nodes@,
        final(s).choices() == old(s).choices(),
{
    let before = old(s).live();
    let after = before.after(event@, now);
    assert(final(s).live() == after);
    if track == TrackId::Outgoing {
        lemma_translation_came_in(before.mic_lines, track, source@, translated@, now);
        assert(after.audio_lines == before.audio_lines);
    } else {
        lemma_translation_came_in(before.audio_lines, track, source@, translated@, now);
        assert(after.mic_lines == before.mic_lines);
    }
    assert(final(s).live().mic_lines == after.mic_lines);
    assert(final(s).live().audio_lines == after.audio_lines);
    assert(final(s).live().errors == after.errors);
    assert(final(s).live().log_path == after.log_path);
}

/// A partial is shown for its own track, until a text of that track is
/// flushed; the other track's partial stays, and so does all the rest. The
/// translation of a partial changes nothing.
pub proof fn partials_are_shown_for_their_track(
    s: &mut UiState,
    event: TrackEvent,
    now: Instant,
    track: TrackId,
    text: String,
)
    requires
        call_ensures(UiState::apply_event, (s, event, now), ()),
        event == (TrackEvent::Partial { track, text }) || event == (TrackEvent::Flushed {
            track,
            source: text,
        }) || event is PartialTranslated,
    ensures
        ({
            let shown = if event is Partial {
                text@
            } else {
                Seq::empty()
            };
            let live = old(s).live();
            final(s).live() == if event is PartialTranslated {
                live
            } else if track == TrackId::Outgoing {
                LiveModel { mic_partial: shown, ..live }
            } else {
                LiveModel { audio_partial: shown, ..live }
            }
        }),
        final(s).nodes@ == old(s).nodes@,
        final(s).choices() == old(s).choices(),
{
}

/// An error of either track stands in front of the others, of which as many
/// stay as make ten with it, in their order; nothing else changes.
pub proof fn newest_error_comes_first(
    s: &mut UiState,
    event: TrackEvent,
    now: Instant,
    track: TrackId,
    message: String,
)
    requires
        call_ensures(UiState::apply_event, (s, event, now), ()),
        event == (TrackEvent::Error { track, message }),
    ensures
        ({
            let before = texts_view(old(s).errors@);
            let after = texts_view(final(s).errors@);
            &&& after.len() == if before.len() < 10 {
                before.len() + 1
            } else {
                10
            }
            &&& after[0] == message@
            &&& forall|i: int| 0 < i < after.len() ==> #[trigger] after[i] == before[i - 1]
            &&& final(s).live() == (LiveModel { errors: after, ..old(s).live() })
        }),
        final(s).nodes@ == old(s).nodes@,
        final(s).choices() == old(s).choices(),
{
    let before = old(s).live();
    assert(final(s).live() == before.with_message(message@));
    assert(final(s).live().errors == with_error(before.errors, message@));
}

/// The end of a track takes that track out of the session and empties the
/// partials; the session is over once neither track is left. The lines and the
/// errors stay.
pub proof fn end_of_a_track_keeps_the_other(
    s: &mut UiState,
    event: TrackEvent,
    now: Instant,
    track: TrackId,
)
    requires
        call_ensures(UiState::apply_event, (s, event, now), ()),
        event == (TrackEvent::Ended { track }),
    ensures
        final(s).outgoing_live == (old(s).outgoing_live && track == TrackId::Incoming),
        final(s).incoming_live == (old(s).incoming_live && track == TrackId::Outgoing),
        final(s).status == if final(s).outgoing_live || final(s).incoming_live {
            old(s).status
        } else {
            SessionStatus::Idle
        },
        final(s).mic_partial@.len() == 0,
        final(s).audio_partial@.len() == 0,
        lines_view(final(s).mic_lines@) == lines_view(old(s).mic_lines@),
        lines_view(final(s).audio_lines@) == lines_view(old(s).audio_lines@),
        texts_view(final(s).errors@) == texts_view(old(s).errors@),
        text_view(final(s).log_path) == text_view(old(s).log_path),
        final(s).nodes@ == old(s).nodes@,
        final(s).choices() == old(s).choices(),
{
    let after = old(s).live().after(event@, now);
    assert(final(s).live() == after);
    assert(final(s).live().mic_lines == after.mic_lines);
    assert(final(s).live().audio_lines == after.audio_lines);
    assert(final(s).live().mic_partial == after.mic_partial);
    assert(final(s).live().audio_partial == after.audio_partial);
    assert(final(s).live().errors == after.errors);
    assert(final(s).live().log_path == after.log_path);
}

/// A session that starts has the settings of the window: the keys, the voice
/// and the numbers as they stand there, the target languages that are picked
/// there, and the sink without the whitespace around its name, or none where
/// the name is blank. Only what the window does not show comes from the loaded
/// settings. It starts where there is a key for transcription.
pub proof fn session_has_the_settings_of_the_window(
    s: &mut UiState,
    cfg: &AppConfig,
    r: Option<AppConfig>,
    lead: Seq<char>,
    sink: Seq<char>,
    trail: Seq<char>,
)
    requires
        call_ensures(UiState::session_config, (s, cfg), r),
        old(s).tts_sink_name@ == lead + sink + trail,
        crate::text::all_white(lead),
        crate::text::all_white(trail),
        crate::text::has_firm_ends(sink),
    ensures
        r is Some <==> old(s).dg_key@.len() > 0,
        r matches Some(live) ==> {
            &&& live.dg_api_key@ == old(s).dg_key@
            &&& live.deepl_key@ == old(s).deepl_key@
            &&& live.el_key@ == old(s).el_key@
            &&& live.voice_id@ == old(s).voice_id@
            &&& old(s).t1_target_lang_idx < 12 ==> Some(live.t1_target_lang@) == code_at(
                old(s).t1_target_lang_idx as int,
            )
            &&& old(s).t2_target_lang_idx < 12 ==> Some(live.t2_target_lang@) == code_at(
                old(s).t2_target_lang_idx as int,
            )
            &&& old(s).t1_target_lang_idx >= 12 ==> live.t1_target_lang@ == "DE"@
            &&& old(s).t2_target_lang_idx >= 12 ==> live.t2_target_lang@ == "EN"@
            &&& text_view(live.tts_sink_name) == if sink.len() == 0 {
                None
            } else {
                Some(sink)
            }
            &&& live.track2_enabled == old(s).track2_enabled
            &&& live.context_sentences == old(s).context_sentences
            &&& live.buf.min_chars_for_punct_flush == old(s).min_chars_punct
            &&& live.buf.max_chars_before_flush == old(s).max_chars
            &&& live.buf.silence_flush.nanos == old(s).silence_flush_ms * 1_000_000
            &&& live.buf.flush_on_utterance_end == cfg.buf.flush_on_utterance_end
            &&& text_view(live.source_lang) == text_view(cfg.source_lang)
            &&& final(s).live() == old(s).live()
        },
        r is None ==> texts_view(final(s).errors@) == seq!["DEEPGRAM_API_KEY is required."@]
            + texts_view(old(s).errors@) && final(s).status == old(s).status,
        final(s).choices() == old(s).choices(),
        final(s).nodes@ == old(s).nodes@,
{
    crate::text::lemma_trimmed_body(lead, sink, trail);
    if let Some(live) = r {
        let model = live@;
        assert(model == old(s).choices().applied_to(cfg@));
        assert(model.tts_sink_name == text_view(live.tts_sink_name));
        assert(model.source_lang == cfg@.source_lang);
        assert(model.el_key == live.el_key@);
        assert(model.buf == live.buf);
    } else {
        assert(final(s).live().errors == texts_view(final(s).errors@));
        assert(old(s).live().errors == texts_view(old(s).errors@));
    }
}

/// Two windows that differ in a field give sessions that differ in it, whatever
/// the loaded settings are.
pub proof fn windows_tell_sessions_apart(
    a: &mut UiState,
    b: &mut UiState,
    cfg_a: &AppConfig,
    cfg_b: &AppConfig,
    ra: AppConfig,
    rb: AppConfig,
)
    requires
        call_ensures(UiState::session_config, (a, cfg_a), Some(ra)),
        call_ensures(UiState::session_config, (b, cfg_b), Some(rb)),
    ensures
        ra.dg_api_key@ == rb.dg_api_key@ <==> old(a).dg_key@ == old(b).dg_key@,
        ra.deepl_key@ == rb.deepl_key@ <==> old(a).deepl_key@ == old(b).deepl_key@,
        ra.el_key@ == rb.el_key@ <==> old(a).el_key@ == old(b).el_key@,
        ra.voice_id@ == rb.voice_id@ <==> old(a).voice_id@ == old(b).voice_id@,
        ra.track2_enabled == rb.track2_enabled <==> old(a).track2_enabled == old(b).track2_enabled,
        ra.context_sentences == rb.context_sentences <==> old(a).context_sentences
            == old(b).context_sentences,
        ra.buf.min_chars_for_punct_flush == rb.buf.min_chars_for_punct_flush <==> old(a).min_chars_punct == old(b).min_chars_punct,
        ra.buf.max_chars_before_flush == rb.buf.max_chars_before_flush <==> old(a).max_chars == old(b).max_chars,
        ra.buf.silence_flush.nanos == rb.buf.silence_flush.nanos <==> old(a).silence_flush_ms
            == old(b).silence_flush_ms,
        old(a).t1_target_lang_idx < 12 && old(b).t1_target_lang_idx < 12 ==> (ra.t1_target_lang@
            == rb.t1_target_lang@ <==> old(a).t1_target_lang_idx == old(b).t1_target_lang_idx),
        old(a).t2_target_lang_idx < 12 && old(b).t2_target_lang_idx < 12 ==> (ra.t2_target_lang@
            == rb.t2_target_lang@ <==> old(a).t2_target_lang_idx == old(b).t2_target_lang_idx),
{
    let ma = old(a).choices().applied_to(cfg_a@);
    let mb = old(b).choices().applied_to(cfg_b@);
    assert(ra@ == ma && rb@ == mb);
    assert(ra@.el_key == ra.el_key@ && rb@.el_key == rb.el_key@);
    assert(ra@.buf == ra.buf && rb@.buf == rb.buf);
    if old(a).t1_target_lang_idx < 12 && old(b).t1_target_lang_idx < 12 {
        lemma_codes_differ(old(a).t1_target_lang_idx as int, old(b).t1_target_lang_idx as int);
    }
    if old(a).t2_target_lang_idx < 12 && old(b).t2_target_lang_idx < 12 {
        lemma_codes_differ(old(a).t2_target_lang_idx as int, old(b).t2_target_lang_idx as int);
    }
}

proof fn lemma_codes_differ(i: int, j: int)
    requires
        0 <= i < 12,
        0 <= j < 12,
    ensures
        code_at(i) is Some,
        code_at(j) is Some,
        code_at(i) == code_at(j) <==> i == j,
{
    reveal_strlit("EN");
    reveal_strlit("DE");
    reveal_strlit("NL");
    reveal_strlit("IT");
    reveal_strlit("ES");
    reveal_strlit("FR");
    reveal_strlit("PL");
    reveal_strlit("PT-PT");
    reveal_strlit("RU");
    reveal_strlit("ZH");
    reveal_strlit("JA");
    reveal_strlit("KO");
    let a = code_at(i)->Some_0;
    let b = code_at(j)->Some_0;
    assert(a == b ==> a[0] == b[0] && a[1] == b[1]);
}

/// The target languages that can be picked, by their codes and names; beyond
/// the last one there is none.
pub proof fn languages_are_listed(i: usize, code: Option<&'static str>, name: Option<&'static str>)
    requires
        call_ensures(language_code, (i,), code),
        call_ensures(language_name, (i,), name),
    ensures
        ({
            let codes = seq![
                "EN"@,
                "DE"@,
                "NL"@,
                "IT"@,
                "ES"@,
                "FR"@,
                "PL"@,
                "PT-PT"@,
                "RU"@,
                "ZH"@,
                "JA"@,
                "KO"@,
            ];
            let names = seq![
                "English"@,
                "German"@,
                "Dutch"@,
                "Italian"@,
                "Spanish"@,
                "French"@,
                "Polish"@,
                "Portuguese"@,
                "Russian"@,
                "Chinese"@,
                "Japanese"@,
                "Korean"@,
            ];
            if i < 12 {
                str_view(code) == Some(codes[i as int]) && str_view(name) == Some(names[i as int])
            } else {
                code is None && name is None
            }
        }),
{
}

/// A language is found by its code; a code that no language has gives the
/// default.
pub proof fn languages_are_found_by_their_codes(
    i: usize,
    code: &'static str,
    wanted: &str,
    default: usize,
    r: usize,
)
    requires
        call_ensures(language_code, (i,), Some(code)),
        call_ensures(language_index, (wanted, default), r),
    ensures
        wanted@ == code@ ==> r == i,
        r == default || code_at(r as int) == Some(wanted@),
{
    assert(code_at(i as int) == Some(code@));
    assert(i < 12);
    if wanted@ == code@ {
        assert(has_code(wanted@, 0));
        lemma_codes_differ(i as int, r as int);
    }
}

/// At the start the window shows the loaded settings, and nothing of a session.
pub proof fn window_shows_the_loaded_settings(cfg: &AppConfig, s: UiState)
    requires
        call_ensures(UiState::from_config, (cfg,), s),
    ensures
        s.dg_key@ == cfg.dg_api_key@,
        s.deepl_key@ == cfg.deepl_key@,
        s.el_key@ == cfg.el_key@,
        s.voice_id@ == cfg.voice_id@,
        s.track2_enabled == cfg.track2_enabled,
        s.context_sentences == cfg.context_sentences,
        s.min_chars_punct == cfg.buf.min_chars_for_punct_flush,
        s.max_chars == cfg.buf.max_chars_before_flush,
        cfg.buf.silence_flush.nanos < 0x1_0000_0000 * 1_000_000 ==> s.silence_flush_ms
            == cfg.buf.silence_flush.nanos / 1_000_000,
        text_view(cfg.tts_sink_name) matches Some(name) ==> s.tts_sink_name@ == name,
        cfg.tts_sink_name is None ==> s.tts_sink_name@.len() == 0,
        forall|i: int|
            0 <= i < 12 && #[trigger] code_at(i) == Some(cfg.t1_target_lang@)
                ==> s.t1_target_lang_idx == i,
        forall|i: int|
            0 <= i < 12 && #[trigger] code_at(i) == Some(cfg.t2_target_lang@)
                ==> s.t2_target_lang_idx == i,
        (forall|i: int| 0 <= i < 12 ==> #[trigger] code_at(i) != Some(cfg.t1_target_lang@))
            ==> s.t1_target_lang_idx == 1,
        (forall|i: int| 0 <= i < 12 ==> #[trigger] code_at(i) != Some(cfg.t2_target_lang@))
            ==> s.t2_target_lang_idx == 0,
        s.overlay_lines == 3,
        !s.outgoing_live && !s.incoming_live && s.log_path is None && s.nodes@.len() == 0,
        s.status == SessionStatus::Idle,
        s.mic_lines@.len() == 0 && s.audio_lines@.len() == 0,
        s.mic_partial@.len() == 0 && s.audio_partial@.len() == 0,
        s.errors@.len() == 0,
        s.selected_mic_idx is None && s.selected_sink_idx is None,
{
    let c = s.choices();
    assert(c == ChoiceModel::of_settings(cfg@, s.t1_target_lang_idx, s.t2_target_lang_idx));
    assert(c.el_key == s.el_key@);
    assert(cfg@.tts_sink_name == text_view(cfg.tts_sink_name));
    let live = s.live();
    assert(live.mic_lines.len() == s.mic_lines@.len());
    assert(live.audio_lines.len() == s.audio_lines@.len());
    assert(live.errors.len() == s.errors@.len());
    assert(live.log_path == text_view(s.log_path));
    assert forall|i: int|
        0 <= i < 12 && #[trigger] code_at(i) == Some(cfg.t1_target_lang@) implies s.t1_target_lang_idx
        == i by {
        assert(has_code(cfg.t1_target_lang@, 0));
        lemma_codes_differ(i, s.t1_target_lang_idx as int);
    }
    assert forall|i: int|
        0 <= i < 12 && #[trigger] code_at(i) == Some(cfg.t2_target_lang@) implies s.t2_target_lang_idx
        == i by {
        assert(has_code(cfg.t2_target_lang@, 0));
        lemma_codes_differ(i, s.t2_target_lang_idx as int);
    }
}

/// A new list of nodes is shown node by node. What the user has selected stays
/// selected; where nothing was, the first microphone and the first sink are.
pub proof fn new_nodes_are_listed(s: &mut UiState, nodes: Vec<NodeInfo>)
    requires
        call_ensures(UiState::refresh_nodes, (s, Ok::<Vec<NodeInfo>, String>(nodes)), ()),
    ensures
        final(s).nodes@.len() == nodes@.len(),
        forall|i: int|
            0 <= i < nodes@.len() ==> (#[trigger] final(s).nodes@[i]).id == nodes@[i].id && final(s).nodes@[i].name@ == nodes@[i].name@ && final(s).nodes@[i].description@
                == nodes@[i].description@ && final(s).nodes@[i].class == nodes@[i].media_class,
        old(s).selected_mic_idx is Some ==> final(s).selected_mic_idx == old(s).selected_mic_idx,
        old(s).selected_sink_idx is Some ==> final(s).selected_sink_idx == old(s).selected_sink_idx,
        old(s).selected_mic_idx is None ==> match final(s).selected_mic_idx {
            Some(k) => k < nodes@.len() && nodes@[k as int].media_class == MediaClass::Source
                && forall|j: int|
                0 <= j < k ==> (#[trigger] nodes@[j]).media_class != MediaClass::Source,
            None => forall|j: int|
                0 <= j < nodes@.len() ==> (#[trigger] nodes@[j]).media_class != MediaClass::Source,
        },
        old(s).selected_sink_idx is None ==> match final(s).selected_sink_idx {
            Some(k) => k < nodes@.len() && nodes@[k as int].media_class == MediaClass::Sink
                && forall|j: int|
                0 <= j < k ==> (#[trigger] nodes@[j]).media_class != MediaClass::Sink,
            None => forall|j: int|
                0 <= j < nodes@.len() ==> (#[trigger] nodes@[j]).media_class != MediaClass::Sink,
        },
        final(s).live() == old(s).live(),
{
    let list = final(s).nodes@;
    assert(forall|j: int| 0 <= j < nodes@.len() ==> #[trigger] nodes@[j].media_class == list[j].class);
}

/// The selected microphone and sink are captured by the ids of their nodes;
/// where none is selected, there is no id.
pub proof fn selected_nodes_are_captured(s: &UiState, mic: Option<u32>, sink: Option<u32>)
    requires
        call_ensures(UiState::mic_node_id, (s,), mic),
        call_ensures(UiState::sink_node_id, (s,), sink),
    ensures
        s.selected_mic_idx is None ==> mic is None,
        s.selected_sink_idx is None ==> sink is None,
        s.selected_mic_idx matches Some(k) ==> (k < s.nodes@.len() ==> mic == Some(
            s.nodes@[k as int].id,
        )),
        s.selected_sink_idx matches Some(k) ==> (k < s.nodes@.len() ==> sink == Some(
            s.nodes@[k as int].id,
        )),
{
}

/// The tracks translate into the languages that are picked, each into its own.
pub proof fn picked_languages_are_targets(
    s: &UiState,
    t1: &'static str,
    t2: &'static str,
)
    requires
        call_ensures(UiState::t1_target_lang, (s,), t1),
        call_ensures(UiState::t2_target_lang, (s,), t2),
    ensures
        s.t1_target_lang_idx < 12 ==> code_at(s.t1_target_lang_idx as int) == Some(t1@),
        s.t2_target_lang_idx < 12 ==> code_at(s.t2_target_lang_idx as int) == Some(t2@),
        s.t1_target_lang_idx >= 12 ==> t1@ == "DE"@,
        s.t2_target_lang_idx >= 12 ==> t2@ == "EN"@,
{
}

/// A session that has started runs, with the log it was given and with nothing
/// of an earlier one; what the user chose is as it was.
pub proof fn session_starts_anew(s: &mut UiState, log_path: String, with_incoming: bool)
    requires
        call_ensures(UiState::session_started, (s, log_path, with_incoming), ()),
    ensures
        final(s).status == SessionStatus::Running,
        final(s).outgoing_live,
        final(s).incoming_live == with_incoming,
        text_view(final(s).log_path) == Some(log_path@),
        final(s).mic_lines@.len() == 0 && final(s).audio_lines@.len() == 0,
        final(s).mic_partial@.len() == 0 && final(s).audio_partial@.len() == 0,
        final(s).errors@.len() == 0,
        final(s).choices() == old(s).choices(),
        final(s).nodes@ == old(s).nodes@,
{
    let live = final(s).live();
    assert(live.mic_lines.len() == final(s).mic_lines@.len());
    assert(live.audio_lines.len() == final(s).audio_lines@.len());
    assert(live.errors.len() == final(s).errors@.len());
    assert(live.log_path == text_view(final(s).log_path));
}

/// A stop is shown as such until the tracks have ended, and a start that failed
/// as an error in front of the others; neither changes anything else.
pub proof fn stops_and_failed_starts_are_shown(
    stopped: &mut UiState,
    failed: &mut UiState,
    error: &str,
)
    requires
        call_ensures(UiState::stop_requested, (stopped,), ()),
        call_ensures(UiState::start_failed, (failed, error), ()),
    ensures
        final(stopped).live() == (LiveModel {
            status: SessionStatus::Stopping,
            ..old(stopped).live()
        }),
        final(stopped).choices() == old(stopped).choices(),
        final(failed).live() == (LiveModel {
            errors: seq!["Start failed: "@ + error@] + old(failed).live().errors,
            ..old(failed).live()
        }),
        final(failed).choices() == old(failed).choices(),
{
}

/// What the window lets the user do and see: settings are edited only while no
/// session runs or stops, and the subtitles are shown while the incoming track
/// is enabled and a session runs or lines are left.
pub proof fn window_follows_the_session(s: &UiState, editable: bool, visible: bool)
    requires
        call_ensures(UiState::editable, (s,), editable),
        call_ensures(UiState::overlay_visible, (s,), visible),
    ensures
        editable ==> s.status != SessionStatus::Running && s.status != SessionStatus::Stopping,
        s.status == SessionStatus::Idle ==> editable,
        !s.track2_enabled ==> !visible,
        s.track2_enabled && s.status == SessionStatus::Running ==> visible,
        s.track2_enabled && s.audio_lines@.len() > 0 ==> visible,
        s.status != SessionStatus::Running && s.audio_lines@.len() == 0 ==> !visible,
{
}

/// A number that is typed into a field is taken, within the bounds of the
/// field, and changes that field only.
pub proof fn typed_numbers_are_taken(
    n: u32,
    text: &str,
    silence: &mut UiState,
    least: &mut UiState,
    most: &mut UiState,
    context: &mut UiState,
    overlay: &mut UiState,
)
    requires
        text@ == crate::text::decimal(n as nat),
        call_ensures(UiState::edit_silence_flush, (silence, text), ()),
        call_ensures(UiState::edit_min_chars, (least, text), ()),
        call_ensures(UiState::edit_max_chars, (most, text), ()),
        call_ensures(UiState::edit_context_sentences, (context, text), ()),
        call_ensures(UiState::edit_overlay_lines, (overlay, text), ()),
    ensures
        final(silence).choices() == (ChoiceModel {
            silence_flush_ms: if n < 100 {
                100
            } else {
                n
            },
            ..old(silence).choices()
        }),
        final(least).choices() == (ChoiceModel {
            min_chars_punct: n as usize,
            ..old(least).choices()
        }),
        final(most).choices() == (ChoiceModel {
            max_chars: if n < 50 {
                50
            } else {
                n as usize
            },
            ..old(most).choices()
        }),
        final(context).choices() == (ChoiceModel {
            context_sentences: if n < 1 {
                1
            } else if n > 20 {
                20
            } else {
                n as usize
            },
            ..old(context).choices()
        }),
        final(overlay).choices() == (ChoiceModel {
            overlay_lines: if n < 1 {
                1
            } else if n > 10 {
                10
            } else {
                n as usize
            },
            ..old(overlay).choices()
        }),
{
    crate::text::decimal_denotes(n as nat);
}

/// The nodes of a class are listed by their indices, all of them, each once,
/// in their order.
pub proof fn nodes_of_a_class_are_listed(s: &UiState, class: MediaClass, r: Vec<usize>)
    requires
        call_ensures(UiState::nodes_of_class, (s, class), r),
        s.nodes@.len() <= usize::MAX,
    ensures
        forall|k: int|
            0 <= k < r@.len() ==> (#[trigger] r@[k]) < s.nodes@.len() && s.nodes@[r@[k] as int].class
                == class,
        forall|a: int, b: int| 0 <= a < b < r@.len() ==> #[trigger] r@[a] < #[trigger] r@[b],
        forall|i: int|
            0 <= i < s.nodes@.len() && (#[trigger] s.nodes@[i]).class == class ==> r@.contains(
                i as usize,
            ),
{
    lemma_indices(s.nodes@, class);
}

proof fn lemma_indices(nodes: Seq<AudioNode>, class: MediaClass)
    requires
        nodes.len() <= usize::MAX,
    ensures
        ({
            let r = indices_of(nodes, class);
            &&& forall|k: int|
                0 <= k < r.len() ==> (#[trigger] r[k]) < nodes.len() && nodes[r[k] as int].class
                    == class
            &&& forall|a: int, b: int| 0 <= a < b < r.len() ==> #[trigger] r[a] < #[trigger] r[b]
            &&& forall|i: int|
                0 <= i < nodes.len() && (#[trigger] nodes[i]).class == class ==> r.contains(
                    i as usize,
                )
        }),
    decreases nodes.len(),
{
    if nodes.len() > 0 {
        let before = nodes.drop_last();
        lemma_indices(before, class);
        let past = indices_of(before, class);
        let r = indices_of(nodes, class);
        assert(forall|k: int|
            0 <= k < past.len() ==> before[#[trigger] past[k] as int] == nodes[past[k] as int]);
        assert forall|i: int| 0 <= i < nodes.len() && (#[trigger] nodes[i]).class == class implies r.contains(
            i as usize,
        ) by {
            if i < before.len() {
                assert(before[i].class == class);
                let k = choose|k: int| 0 <= k < past.len() && past[k] == i as usize;
                assert(r[k] == i as usize);
            } else {
                assert(r[r.len() - 1] == i as usize);
            }
        }
    }
}

/// The last lines are shown, as many as there is room for, and the source text
/// below a translation where it says something else.
pub proof fn last_lines_are_shown(
    n: usize,
    shown: usize,
    first: usize,
    line: &SubtitleLine,
    with_source: bool,
)
    requires
        call_ensures(first_shown, (n, shown), first),
        call_ensures(shows_source, (line,), with_source),
    ensures
        first <= n,
        n <= shown ==> first == 0,
        n > shown ==> n - first == shown,
        with_source <==> line.source@.len() > 0 && line.source@ != line.translated@,
{
}

/// Where the nodes cannot be listed, that is told as an error in front of the
/// others, and the nodes and the selection stay.
pub proof fn unlisted_nodes_are_told(s: &mut UiState, error: String)
    requires
        call_ensures(UiState::refresh_nodes, (s, Err::<Vec<NodeInfo>, String>(error)), ()),
    ensures
        final(s).nodes@ == old(s).nodes@,
        final(s).choices() == old(s).choices(),
        texts_view(final(s).errors@).len() > 0,
        texts_view(final(s).errors@)[0] == "PipeWire node list: "@ + error@,
{
    assert(final(s).live().errors == texts_view(final(s).errors@));
    assert(final(s).live() == old(s).live().with_message("PipeWire node list: "@ + error@));
}

/// An error that is pushed stands in front of the others, of which as many stay
/// as make ten with it.
pub proof fn pushed_error_comes_first(s: &mut UiState, message: String)
    requires
        call_ensures(UiState::push_error, (s, message), ()),
    ensures
        ({
            let before = texts_view(old(s).errors@);
            let after = texts_view(final(s).errors@);
            &&& after.len() == if before.len() < 10 {
                before.len() + 1
            } else {
                10
            }
            &&& after[0] == message@
            &&& forall|i: int| 0 < i < after.len() ==> #[trigger] after[i] == before[i - 1]
            &&& final(s).live() == (LiveModel { errors: after, ..old(s).live() })
        }),
        final(s).choices() == old(s).choices(),
{
    let before = old(s).live();
    assert(final(s).live() == before.with_message(message@));
    assert(final(s).live().errors == with_error(before.errors, message@));
}

/// A node is labelled by its description and its name.
pub proof fn nodes_are_labelled(s: &UiState, idx: Option<usize>, label: String)
    requires
        call_ensures(UiState::node_label, (s, idx), label),
    ensures
        idx is None ==> label@ == "Default"@,
        idx matches Some(i) ==> (i < s.nodes@.len() ==> label@ == s.nodes@[i as int].description@
            + " ("@ + s.nodes@[i as int].name@ + ")"@),
{
}

} // verus!
