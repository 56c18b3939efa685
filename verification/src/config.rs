//! The settings of the application, and where they and the logs are kept.
//!
//! Sources, of which a later one overrides an earlier: the defaults, the
//! configuration file, the environment.

use crate::clock::Duration;
use crate::text::{chars_of, text_view};
use crate::transcript::TranscriptBufferConfig;
use vstd::prelude::*;
use vstd::string::*;

verus! {

broadcast use vstd::string::group_string_axioms;

/// All settings.
#[derive(Debug)]
pub struct AppConfig {
    // The keys come from the environment only.
    pub dg_api_key: String,
    pub deepl_key: String,
    pub el_key: String,
    pub voice_id: String,
    /// The language that is spoken; `None` to detect it.
    pub source_lang: Option<String>,
    /// The language that the microphone is translated into.
    pub t1_target_lang: String,
    /// The language that incoming audio is translated into.
    pub t2_target_lang: String,
    /// The name of the sink for the spoken translation; `None` for the
    /// default sink.
    pub tts_sink_name: Option<String>,
    pub track2_enabled: bool,
    pub buf: TranscriptBufferConfig,
    /// How many prior sentences are passed to the translation as context.
    pub context_sentences: usize,
}

/// What an [`AppConfig`] says.
pub struct ConfigModel {
    pub dg_api_key: Seq<char>,
    pub deepl_key: Seq<char>,
    pub el_key: Seq<char>,
    pub voice_id: Seq<char>,
    pub source_lang: Option<Seq<char>>,
    pub t1_target_lang: Seq<char>,
    pub t2_target_lang: Seq<char>,
    pub tts_sink_name: Option<Seq<char>>,
    pub track2_enabled: bool,
    pub buf: TranscriptBufferConfig,
    pub context_sentences: usize,
}

impl View for AppConfig {
    type V = ConfigModel;

    open spec fn view(&self) -> ConfigModel {
        ConfigModel {
            dg_api_key: self.dg_api_key@,
            deepl_key: self.deepl_key@,
            el_key: self.el_key@,
            voice_id: self.voice_id@,
            source_lang: text_view(self.source_lang),
            t1_target_lang: self.t1_target_lang@,
            t2_target_lang: self.t2_target_lang@,
            tts_sink_name: text_view(self.tts_sink_name),
            track2_enabled: self.track2_enabled,
            buf: self.buf,
            context_sentences: self.context_sentences,
        }
    }
}

/// The `[buffer]` table of the configuration file.
#[derive(Debug)]
pub struct TomlBuffer {
    pub min_chars_for_punct_flush: Option<usize>,
    pub max_chars_before_flush: Option<usize>,
    pub silence_flush_ms: Option<u32>,
    pub flush_on_utterance_end: Option<bool>,
}

/// The configuration file. What it leaves out keeps its value.
#[derive(Debug)]
pub struct TomlFile {
    pub t1_target_lang: Option<String>,
    pub t2_target_lang: Option<String>,
    pub source_lang: Option<String>,
    pub tts_sink_name: Option<String>,
    pub track2_enabled: Option<bool>,
    pub context_sentences: Option<usize>,
    pub buffer: Option<TomlBuffer>,
}

/// The keys that are set in the environment.
#[derive(Debug)]
pub struct EnvKeys {
    /// `DEEPGRAM_API_KEY`
    pub deepgram: Option<String>,
    /// `DEEPL_API_KEY`
    pub deepl: Option<String>,
    /// `ELEVENLABS_API_KEY`
    pub elevenlabs: Option<String>,
    /// `VOICE_ID`
    pub voice_id: Option<String>,
}

/// A setting that a source may override.
pub open spec fn overridden<T>(value: T, by: Option<T>) -> T {
    match by {
        Some(v) => v,
        None => value,
    }
}

/// The buffer settings once the file has been applied.
pub open spec fn buffer_with(buf: TranscriptBufferConfig, t: TomlBuffer) -> TranscriptBufferConfig {
    TranscriptBufferConfig {
        min_chars_for_punct_flush: overridden(
            buf.min_chars_for_punct_flush,
            t.min_chars_for_punct_flush,
        ),
        max_chars_before_flush: overridden(buf.max_chars_before_flush, t.max_chars_before_flush),
        silence_flush: match t.silence_flush_ms {
            Some(ms) => Duration { nanos: (ms * 1_000_000) as u128 },
            None => buf.silence_flush,
        },
        flush_on_utterance_end: overridden(buf.flush_on_utterance_end, t.flush_on_utterance_end),
    }
}

impl ConfigModel {
    /// The settings before any source was applied.
    pub open spec fn built_in() -> ConfigModel {
        ConfigModel {
            dg_api_key: Seq::empty(),
            deepl_key: Seq::empty(),
            el_key: Seq::empty(),
            voice_id: Seq::empty(),
            source_lang: None,
            t1_target_lang: "DE"@,
            t2_target_lang: "EN"@,
            tts_sink_name: Some("translator_virtmic_sink"@),
            track2_enabled: true,
            buf: TranscriptBufferConfig {
                min_chars_for_punct_flush: 30,
                max_chars_before_flush: 240,
                silence_flush: Duration { nanos: 1_500_000_000 },
                flush_on_utterance_end: true,
            },
            context_sentences: 5,
        }
    }

    /// The settings once the configuration file has been applied.
    pub open spec fn with_file(self, t: TomlFile) -> ConfigModel {
        ConfigModel {
            source_lang: if t.source_lang is Some {
                text_view(t.source_lang)
            } else {
                self.source_lang
            },
            t1_target_lang: overridden(self.t1_target_lang, text_view(t.t1_target_lang)),
            t2_target_lang: overridden(self.t2_target_lang, text_view(t.t2_target_lang)),
            tts_sink_name: if t.tts_sink_name is Some {
                text_view(t.tts_sink_name)
            } else {
                self.tts_sink_name
            },
            track2_enabled: overridden(self.track2_enabled, t.track2_enabled),
            context_sentences: overridden(self.context_sentences, t.context_sentences),
            buf: match t.buffer {
                Some(b) => buffer_with(self.buf, b),
                None => self.buf,
            },
            ..self
        }
    }

    /// The settings once the environment has been applied.
    pub open spec fn with_env(self, env: EnvKeys) -> ConfigModel {
        ConfigModel {
            dg_api_key: overridden(self.dg_api_key, text_view(env.deepgram)),
            deepl_key: overridden(self.deepl_key, text_view(env.deepl)),
            el_key: overridden(self.el_key, text_view(env.elevenlabs)),
            voice_id: overridden(self.voice_id, text_view(env.voice_id)),
            ..self
        }
    }

    /// Whether there is a key for translation.
    pub open spec fn translates(self) -> bool {
        self.deepl_key.len() > 0
    }

    /// Whether there is a key and a voice for speech.
    pub open spec fn speaks(self) -> bool {
        self.el_key.len() > 0 && self.voice_id.len() > 0
    }
}

impl Default for AppConfig {
    fn default() -> (r: Self)
        ensures
            r@ == ConfigModel::built_in(),
    {
        let r = AppConfig {
            dg_api_key: String::new(),
            deepl_key: String::new(),
            el_key: String::new(),
            voice_id: String::new(),
            source_lang: None,
            t1_target_lang: "DE".to_owned(),
            t2_target_lang: "EN".to_owned(),
            tts_sink_name: Some("translator_virtmic_sink".to_owned()),
            track2_enabled: true,
            buf: TranscriptBufferConfig::default(),
            context_sentences: 5,
        };
        assert(r.dg_api_key@ =~= Seq::empty());
        r
    }
}

/// A copy of an optional text.
pub fn clone_text(o: &Option<String>) -> (r: Option<String>)
    ensures
        text_view(r) == text_view(*o),
{
    match o {
        Some(s) => Some(s.clone()),
        None => None,
    }
}

impl Clone for AppConfig {
    fn clone(&self) -> (r: Self)
        ensures
            r@ == self@,
    {
        AppConfig {
            dg_api_key: self.dg_api_key.clone(),
            deepl_key: self.deepl_key.clone(),
            el_key: self.el_key.clone(),
            voice_id: self.voice_id.clone(),
            source_lang: clone_text(&self.source_lang),
            t1_target_lang: self.t1_target_lang.clone(),
            t2_target_lang: self.t2_target_lang.clone(),
            tts_sink_name: clone_text(&self.tts_sink_name),
            track2_enabled: self.track2_enabled,
            buf: self.buf,
            context_sentences: self.context_sentences,
        }
    }
}

impl AppConfig {
    /// The settings from all sources: the defaults, then the file, where there
    /// is one, then the environment.
    pub fn layered(file: Option<TomlFile>, env: EnvKeys) -> (r: AppConfig)
        ensures
            r@ == match file {
                Some(t) => ConfigModel::built_in().with_file(t).with_env(env),
                None => ConfigModel::built_in().with_env(env),
            },
    {
        let mut cfg: AppConfig = AppConfig::default();
        if let Some(t) = file {
            cfg.apply_toml(t);
        }
        cfg.apply_env(env);
        cfg
    }

    /// Applies the configuration file.
    pub fn apply_toml(&mut self, t: TomlFile)
        ensures
            final(self)@ == old(self)@.with_file(t),
    {
        if let Some(lang) = t.t1_target_lang {
            self.t1_target_lang = lang;
        }
        if let Some(lang) = t.t2_target_lang {
            self.t2_target_lang = lang;
        }
        if let Some(lang) = t.source_lang {
            self.source_lang = Some(lang);
        }
        if let Some(sink) = t.tts_sink_name {
            self.tts_sink_name = Some(sink);
        }
        if let Some(v) = t.track2_enabled {
            self.track2_enabled = v;
        }
        if let Some(v) = t.context_sentences {
            self.context_sentences = v;
        }
        if let Some(b) = t.buffer {
            if let Some(v) = b.min_chars_for_punct_flush {
                self.buf.min_chars_for_punct_flush = v;
            }
            if let Some(v) = b.max_chars_before_flush {
                self.buf.max_chars_before_flush = v;
            }
            if let Some(v) = b.silence_flush_ms {
                self.buf.silence_flush = Duration::from_millis(v as u64);
            }
            if let Some(v) = b.flush_on_utterance_end {
                self.buf.flush_on_utterance_end = v;
            }
        }
    }

    /// Applies the environment.
    pub fn apply_env(&mut self, env: EnvKeys)
        ensures
            final(self)@ == old(self)@.with_env(env),
    {
        if let Some(v) = env.deepgram {
            self.dg_api_key = v;
        }
        if let Some(v) = env.deepl {
            self.deepl_key = v;
        }
        if let Some(v) = env.elevenlabs {
            self.el_key = v;
        }
        if let Some(v) = env.voice_id {
            self.voice_id = v;
        }
    }

    /// Whether there is a key for translation.
    pub fn has_deepl(&self) -> (r: bool)
        ensures
            r == self@.translates(),
    {
        !self.deepl_key.as_str().is_empty()
    }

    /// Whether there is a key and a voice for speech.
    pub fn has_tts(&self) -> (r: bool)
        ensures
            r == self@.speaks(),
    {
        !self.el_key.as_str().is_empty() && !self.voice_id.as_str().is_empty()
    }
}

/// The environment overrides the file: whatever the file says, a key that is
/// set in the environment is the key that counts, and the file sets no key.
pub proof fn environment_wins(t: TomlFile, env: EnvKeys)
    ensures
        ({
            let cfg = ConfigModel::built_in().with_file(t).with_env(env);
            &&& cfg.dg_api_key == overridden(Seq::empty(), text_view(env.deepgram))
            &&& cfg.deepl_key == overridden(Seq::empty(), text_view(env.deepl))
            &&& cfg.el_key == overridden(Seq::empty(), text_view(env.elevenlabs))
            &&& cfg.voice_id == overridden(Seq::empty(), text_view(env.voice_id))
        }),
{
}

/// A field that the file leaves out keeps its default.
pub proof fn missing_fields_keep_defaults(t: TomlFile, env: EnvKeys)
    ensures
        ({
            let cfg = ConfigModel::built_in().with_file(t).with_env(env);
            let d = ConfigModel::built_in();
            &&& t.t1_target_lang is None ==> cfg.t1_target_lang == d.t1_target_lang
            &&& t.t2_target_lang is None ==> cfg.t2_target_lang == d.t2_target_lang
            &&& t.source_lang is None ==> cfg.source_lang == d.source_lang
            &&& t.tts_sink_name is None ==> cfg.tts_sink_name == d.tts_sink_name
            &&& t.track2_enabled is None ==> cfg.track2_enabled == d.track2_enabled
            &&& t.context_sentences is None ==> cfg.context_sentences == d.context_sentences
            &&& t.buffer is None ==> cfg.buf == d.buf
        }),
{
}

/// A path with one more part behind it. An absolute part stands for itself;
/// else a slash stands between the two, unless the path is empty or ends in
/// one.
pub open spec fn path_with(base: Seq<char>, part: Seq<char>) -> Seq<char> {
    if part.len() > 0 && part[0] == '/' {
        part
    } else if base.len() == 0 || base.last() == '/' {
        base + part
    } else {
        base + "/"@ + part
    }
}

/// A path with one more part behind it.
pub fn join_path(base: &str, part: &str) -> (r: String)
    ensures
        r@ == path_with(base@, part@),
{
    let tail: Vec<char> = chars_of(part);
    if tail.len() > 0 && tail[0] == '/' {
        return part.to_owned();
    }
    let head: Vec<char> = chars_of(base);
    let mut out: String = base.to_owned();
    if head.len() > 0 && head[head.len() - 1] != '/' {
        out.append("/");
    }
    out.append(part);
    out
}

/// The configuration file under a home directory.
pub open spec fn config_file(home: Seq<char>) -> Seq<char> {
    path_with(path_with(path_with(home, ".config"@), "realtime-translation"@), "config.toml"@)
}

/// The directory of the session logs under a home directory.
pub open spec fn log_directory(home: Seq<char>) -> Seq<char> {
    path_with(
        path_with(path_with(path_with(home, ".local"@), "share"@), "realtime-translation"@),
        "sessions"@,
    )
}

/// Where the configuration file is, if there is a home directory.
pub fn config_toml_path(home: Option<&str>) -> (r: Option<String>)
    ensures
        text_view(r) == match home {
            Some(h) => Some(config_file(h@)),
            None => None,
        },
{
    match home {
        None => None,
        Some(h) => {
            let config: String = join_path(h, ".config");
            let dir: String = join_path(config.as_str(), "realtime-translation");
            Some(join_path(dir.as_str(), "config.toml"))
        },
    }
}

/// Where the session logs are, if there is a home directory.
pub fn sessions_dir(home: Option<&str>) -> (r: Option<String>)
    ensures
        text_view(r) == match home {
            Some(h) => Some(log_directory(h@)),
            None => None,
        },
{
    match home {
        None => None,
        Some(h) => {
            let local: String = join_path(h, ".local");
            let share: String = join_path(local.as_str(), "share");
            let dir: String = join_path(share.as_str(), "realtime-translation");
            Some(join_path(dir.as_str(), "sessions"))
        },
    }
}

/// Where each setting comes from: one that the file names is that of the file,
/// the others are the documented defaults; a key is that of the environment,
/// and empty where it has none.
pub proof fn settings_come_from_their_sources(t: TomlFile, env: EnvKeys, r: AppConfig)
    requires
        call_ensures(AppConfig::layered, (Some(t), env), r),
    ensures
        t.t1_target_lang matches Some(lang) ==> r.t1_target_lang@ == lang@,
        t.t1_target_lang is None ==> r.t1_target_lang@ == "DE"@,
        t.t2_target_lang matches Some(lang) ==> r.t2_target_lang@ == lang@,
        t.t2_target_lang is None ==> r.t2_target_lang@ == "EN"@,
        text_view(r.source_lang) == text_view(t.source_lang),
        text_view(r.tts_sink_name) == match text_view(t.tts_sink_name) {
            Some(name) => Some(name),
            None => Some("translator_virtmic_sink"@),
        },
        t.track2_enabled matches Some(v) ==> r.track2_enabled == v,
        t.track2_enabled is None ==> r.track2_enabled,
        t.context_sentences matches Some(v) ==> r.context_sentences == v,
        t.context_sentences is None ==> r.context_sentences == 5,
        env.deepgram matches Some(key) ==> r.dg_api_key@ == key@,
        env.deepgram is None ==> r.dg_api_key@.len() == 0,
        env.deepl matches Some(key) ==> r.deepl_key@ == key@,
        env.deepl is None ==> r.deepl_key@.len() == 0,
        env.elevenlabs matches Some(key) ==> r.el_key@ == key@,
        env.elevenlabs is None ==> r.el_key@.len() == 0,
        env.voice_id matches Some(key) ==> r.voice_id@ == key@,
        env.voice_id is None ==> r.voice_id@.len() == 0,
{
    let m = r@;
    assert(m.source_lang == text_view(r.source_lang));
    assert(m.tts_sink_name == text_view(r.tts_sink_name));
    assert(m.dg_api_key == r.dg_api_key@);
    assert(m.t1_target_lang == r.t1_target_lang@);
}

/// The same of the thresholds in the `[buffer]` table, each by itself; where
/// there is no table, all are the defaults.
pub proof fn thresholds_come_from_their_table(t: TomlFile, env: EnvKeys, r: AppConfig)
    requires
        call_ensures(AppConfig::layered, (Some(t), env), r),
    ensures
        t.buffer is None ==> r.buf.min_chars_for_punct_flush == 30 && r.buf.max_chars_before_flush
            == 240 && r.buf.silence_flush.nanos == 1_500_000_000 && r.buf.flush_on_utterance_end,
        t.buffer matches Some(b) ==> {
            &&& r.buf.min_chars_for_punct_flush == match b.min_chars_for_punct_flush {
                Some(v) => v,
                None => 30,
            }
            &&& r.buf.max_chars_before_flush == match b.max_chars_before_flush {
                Some(v) => v,
                None => 240,
            }
            &&& r.buf.silence_flush.nanos == match b.silence_flush_ms {
                Some(ms) => ms * 1_000_000,
                None => 1_500_000_000,
            }
            &&& r.buf.flush_on_utterance_end == match b.flush_on_utterance_end {
                Some(v) => v,
                None => true,
            }
        },
{
    assert(r@.buf == r.buf);
}

/// Without a file, the settings are those of a file that names none.
pub proof fn missing_file_is_an_empty_one(
    empty: TomlFile,
    env: EnvKeys,
    without: AppConfig,
    with: AppConfig,
)
    requires
        empty.t1_target_lang is None && empty.t2_target_lang is None && empty.source_lang is None,
        empty.tts_sink_name is None && empty.track2_enabled is None,
        empty.context_sentences is None && empty.buffer is None,
        call_ensures(AppConfig::layered, (None::<TomlFile>, env), without),
        call_ensures(AppConfig::layered, (Some(empty), env), with),
    ensures
        without@ == with@,
{
}

/// A source that is applied changes what it names and keeps the rest: the file
/// keeps the keys, the environment everything else.
pub proof fn sources_keep_what_they_do_not_name(
    filed: &mut AppConfig,
    t: TomlFile,
    keyed: &mut AppConfig,
    env: EnvKeys,
)
    requires
        call_ensures(AppConfig::apply_toml, (filed, t), ()),
        call_ensures(AppConfig::apply_env, (keyed, env), ()),
    ensures
        final(filed).dg_api_key@ == old(filed).dg_api_key@,
        final(filed).deepl_key@ == old(filed).deepl_key@,
        final(filed).el_key@ == old(filed).el_key@,
        final(filed).voice_id@ == old(filed).voice_id@,
        t.t1_target_lang is None ==> final(filed).t1_target_lang@ == old(filed).t1_target_lang@,
        t.t2_target_lang is None ==> final(filed).t2_target_lang@ == old(filed).t2_target_lang@,
        t.source_lang is None ==> text_view(final(filed).source_lang) == text_view(
            old(filed).source_lang,
        ),
        t.tts_sink_name is None ==> text_view(final(filed).tts_sink_name) == text_view(
            old(filed).tts_sink_name,
        ),
        t.track2_enabled is None ==> final(filed).track2_enabled == old(filed).track2_enabled,
        t.context_sentences is None ==> final(filed).context_sentences == old(
            filed).context_sentences,
        t.buffer is None ==> final(filed).buf == old(filed).buf,
        env.deepgram is None ==> final(keyed).dg_api_key@ == old(keyed).dg_api_key@,
        env.deepl is None ==> final(keyed).deepl_key@ == old(keyed).deepl_key@,
        env.elevenlabs is None ==> final(keyed).el_key@ == old(keyed).el_key@,
        env.voice_id is None ==> final(keyed).voice_id@ == old(keyed).voice_id@,
        final(keyed)@ == (ConfigModel {
            dg_api_key: final(keyed).dg_api_key@,
            deepl_key: final(keyed).deepl_key@,
            el_key: final(keyed).el_key@,
            voice_id: final(keyed).voice_id@,
            ..old(keyed)@
        }),
{
    let a = final(filed)@;
    let b = old(filed)@;
    assert(a.el_key == b.el_key);
    assert(a.source_lang == text_view(final(filed).source_lang));
    assert(b.source_lang == text_view(old(filed).source_lang));
    assert(a.tts_sink_name == text_view(final(filed).tts_sink_name));
    assert(b.tts_sink_name == text_view(old(filed).tts_sink_name));
    assert(a.t1_target_lang == final(filed).t1_target_lang@);
    assert(final(keyed)@.el_key == final(keyed).el_key@);
}

/// There is translation where there is a key for it, and speech where there are
/// a key and a voice.
pub proof fn keys_decide_what_runs(cfg: &AppConfig, deepl: bool, tts: bool)
    requires
        call_ensures(AppConfig::has_deepl, (cfg,), deepl),
        call_ensures(AppConfig::has_tts, (cfg,), tts),
    ensures
        deepl <==> cfg.deepl_key@.len() > 0,
        tts <==> cfg.el_key@.len() > 0 && cfg.voice_id@.len() > 0,
{
}

/// The configuration file and the logs lie under the home directory, where
/// there is one; whether its path ends in a slash does not matter.
pub proof fn files_lie_under_the_home_directory(
    home: &str,
    file: Option<String>,
    logs: Option<String>,
    no_file: Option<String>,
    no_logs: Option<String>,
)
    requires
        call_ensures(config_toml_path, (Some(home),), file),
        call_ensures(sessions_dir, (Some(home),), logs),
        call_ensures(config_toml_path, (None::<&str>,), no_file),
        call_ensures(sessions_dir, (None::<&str>,), no_logs),
        home@.len() > 0,
    ensures
        ({
            let dir = if home@.last() == '/' {
                home@
            } else {
                home@ + "/"@
            };
            &&& text_view(file) == Some(
                dir + ".config"@ + "/"@ + "realtime-translation"@ + "/"@ + "config.toml"@,
            )
            &&& text_view(logs) == Some(
                dir + ".local"@ + "/"@ + "share"@ + "/"@ + "realtime-translation"@ + "/"@
                    + "sessions"@,
            )
        }),
        no_file is None && no_logs is None,
{
    reveal_strlit("/");
    reveal_strlit(".config");
    reveal_strlit("realtime-translation");
    reveal_strlit("config.toml");
    reveal_strlit(".local");
    reveal_strlit("share");
    reveal_strlit("sessions");
}

} // verus!
