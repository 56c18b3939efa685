use realtime_translation::clock::Duration;
use realtime_translation::config::{
    config_toml_path, join_path, sessions_dir, AppConfig, EnvKeys, TomlBuffer, TomlFile,
};

fn no_keys() -> EnvKeys {
    EnvKeys { deepgram: None, deepl: None, elevenlabs: None, voice_id: None }
}

fn empty_file() -> TomlFile {
    TomlFile {
        t1_target_lang: None,
        t2_target_lang: None,
        source_lang: None,
        tts_sink_name: None,
        track2_enabled: None,
        context_sentences: None,
        buffer: None,
    }
}

#[test]
fn built_in_settings() {
    let c = AppConfig::default();
    assert_eq!(c.dg_api_key, "");
    assert_eq!(c.t1_target_lang, "DE");
    assert_eq!(c.t2_target_lang, "EN");
    assert_eq!(c.tts_sink_name, Some("translator_virtmic_sink".into()));
    assert!(c.source_lang.is_none());
    assert!(c.track2_enabled);
    assert_eq!(c.context_sentences, 5);
    assert_eq!(c.buf.silence_flush, Duration::from_millis(1500));
    assert!(!c.has_deepl() && !c.has_tts());
}

#[test]
fn file_overrides_defaults() {
    let mut f = empty_file();
    f.t1_target_lang = Some("FR".into());
    f.t2_target_lang = Some("ES".into());
    f.source_lang = Some("en".into());
    f.tts_sink_name = Some("speakers".into());
    f.track2_enabled = Some(false);
    f.context_sentences = Some(2);
    f.buffer = Some(TomlBuffer {
        min_chars_for_punct_flush: Some(10),
        max_chars_before_flush: None,
        silence_flush_ms: Some(400),
        flush_on_utterance_end: Some(false),
    });
    let c = AppConfig::layered(Some(f), no_keys());
    assert_eq!((c.t1_target_lang.as_str(), c.t2_target_lang.as_str()), ("FR", "ES"));
    assert_eq!(c.source_lang, Some("en".into()));
    assert_eq!(c.tts_sink_name, Some("speakers".into()));
    assert!(!c.track2_enabled);
    assert_eq!(c.context_sentences, 2);
    assert_eq!(c.buf.min_chars_for_punct_flush, 10);
    assert_eq!(c.buf.max_chars_before_flush, 240);
    assert_eq!(c.buf.silence_flush.as_millis(), 400);
    assert!(!c.buf.flush_on_utterance_end);
}

#[test]
fn environment_overrides_and_missing_fields_stay() {
    let env = EnvKeys {
        deepgram: Some("dg".into()),
        deepl: None,
        elevenlabs: Some("el".into()),
        voice_id: Some("v".into()),
    };
    let c = AppConfig::layered(Some(empty_file()), env);
    assert_eq!(c.dg_api_key, "dg");
    assert_eq!(c.deepl_key, "");
    assert!(!c.has_deepl());
    assert!(c.has_tts());
    assert_eq!(c.t1_target_lang, "DE");
    let copy = c.clone();
    assert_eq!(copy.voice_id, "v");
    let c = AppConfig::layered(None, no_keys());
    assert_eq!(c.dg_api_key, "");
}

#[test]
fn speech_needs_a_key_and_a_voice() {
    let mut c = AppConfig::default();
    c.el_key = "k".into();
    assert!(!c.has_tts());
    c.voice_id = "v".into();
    assert!(c.has_tts());
    c.deepl_key = "d".into();
    assert!(c.has_deepl());
}

#[test]
fn paths_are_under_the_home_directory() {
    assert_eq!(
        config_toml_path(Some("/home/me")),
        Some("/home/me/.config/realtime-translation/config.toml".into())
    );
    assert_eq!(
        sessions_dir(Some("/home/me/")),
        Some("/home/me/.local/share/realtime-translation/sessions".into())
    );
    assert_eq!(config_toml_path(None), None);
    assert_eq!(sessions_dir(None), None);
    assert_eq!(join_path("", "a"), "a");
    assert_eq!(join_path("a", "/b"), "/b");
    for (base, part) in [("", "x"), ("/", "x"), ("a", "b"), ("a/", "b"), ("a", "/b"), ("a", "")] {
        let joined = std::path::PathBuf::from(base).join(part);
        assert_eq!(join_path(base, part), joined.to_str().unwrap());
    }
}
