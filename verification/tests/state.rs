use realtime_translation::clock::{Duration, Instant};
use realtime_translation::config::AppConfig;
use realtime_translation::events::TrackId;
use realtime_translation::nodes::{MediaClass, NodeInfo};
use realtime_translation::state::{
    first_shown, language_code, language_index, language_name, shows_source, SessionStatus,
    SubtitleLine, UiState, LANGUAGE_COUNT,
};
use realtime_translation::track::TrackEvent;

fn at(ms: u64) -> Instant {
    Instant { nanos: ms as u128 * 1_000_000 }
}

fn state() -> UiState {
    UiState::from_config(&AppConfig::default())
}

fn node(id: u32, class: MediaClass) -> NodeInfo {
    NodeInfo { id, name: format!("n{id}"), description: format!("Node {id}"), media_class: class }
}

fn translated(track: TrackId, source: &str, text: &str) -> TrackEvent {
    TrackEvent::Translated { track, source: source.into(), translated: text.into() }
}

#[test]
fn state_starts_from_the_settings() {
    let mut cfg = AppConfig::default();
    cfg.t1_target_lang = "KO".into();
    cfg.t2_target_lang = "XX".into();
    cfg.tts_sink_name = None;
    cfg.buf.silence_flush = Duration::from_millis(700);
    let s = UiState::from_config(&cfg);
    assert_eq!(s.t1_target_lang(), "KO");
    assert_eq!(s.t2_target_lang(), "EN");
    assert_eq!(s.tts_sink_name, "");
    assert_eq!(s.silence_flush_ms, 700);
    assert_eq!((s.min_chars_punct, s.max_chars, s.overlay_lines), (30, 240, 3));
    assert_eq!(s.status, SessionStatus::Idle);
    assert!(s.mic_node_id().is_none() && s.sink_node_id().is_none());
    let mut cfg = AppConfig::default();
    cfg.t1_target_lang = "xx".into();
    assert_eq!(UiState::from_config(&cfg).t1_target_lang(), "DE");
}

#[test]
fn languages_have_codes_and_names() {
    assert_eq!(LANGUAGE_COUNT, 12);
    assert_eq!(language_code(7), Some("PT-PT"));
    assert_eq!(language_name(7), Some("Portuguese"));
    assert_eq!(language_code(12), None);
    assert_eq!(language_name(12), None);
    for i in 0..LANGUAGE_COUNT {
        assert_eq!(language_index(language_code(i).unwrap(), 99), i);
    }
    assert_eq!(language_index("en", 99), 99);
    let mut s = state();
    s.t1_target_lang_idx = 50;
    s.t2_target_lang_idx = 50;
    assert_eq!((s.t1_target_lang(), s.t2_target_lang()), ("DE", "EN"));
}

#[test]
fn refresh_selects_the_first_devices() {
    let mut s = state();
    let list = vec![
        node(1, MediaClass::Sink),
        node(2, MediaClass::Source),
        node(3, MediaClass::Source),
    ];
    s.refresh_nodes(Ok(list));
    assert_eq!(s.mic_node_id(), Some(2));
    assert_eq!(s.sink_node_id(), Some(1));
    assert_eq!(s.nodes_of_class(MediaClass::Source), vec![1, 2]);
    assert_eq!(s.node_label(Some(2)), "Node 3 (n3)");
    assert_eq!(s.node_label(Some(9)), "?");
    assert_eq!(s.node_label(None), "Default");
    // A selection stays, even where the list gets shorter.
    s.selected_mic_idx = Some(2);
    s.refresh_nodes(Ok(vec![node(8, MediaClass::Source)]));
    assert_eq!(s.selected_mic_idx, Some(2));
    assert_eq!(s.mic_node_id(), None);
    s.refresh_nodes(Err("no daemon".into()));
    assert_eq!(s.errors, vec!["PipeWire node list: no daemon"]);
    assert_eq!(s.nodes.len(), 1);
}

#[test]
fn partials_are_shown_until_flushed() {
    let mut s = state();
    s.apply_event(TrackEvent::Partial { track: TrackId::Outgoing, text: "he".into() }, at(0));
    s.apply_event(TrackEvent::Partial { track: TrackId::Incoming, text: "gu".into() }, at(0));
    assert_eq!((s.mic_partial.as_str(), s.audio_partial.as_str()), ("he", "gu"));
    s.apply_event(TrackEvent::Flushed { track: TrackId::Outgoing, source: "hello".into() }, at(0));
    assert_eq!((s.mic_partial.as_str(), s.audio_partial.as_str()), ("", "gu"));
    assert!(s.mic_lines.is_empty());
    s.apply_event(
        TrackEvent::PartialTranslated {
            track: TrackId::Incoming,
            source: "gu".into(),
            translated: "go".into(),
            seq: 1,
        },
        at(0),
    );
    assert_eq!(s.audio_partial, "gu");
}

#[test]
fn a_translation_replaces_the_last_line_with_its_source() {
    let mut s = state();
    s.apply_event(translated(TrackId::Incoming, "a", "1"), at(1));
    s.apply_event(translated(TrackId::Incoming, "b", "2"), at(2));
    s.apply_event(translated(TrackId::Incoming, "a", "3"), at(3));
    assert_eq!(s.audio_lines.len(), 2);
    assert_eq!(s.audio_lines[0].translated, "3");
    assert_eq!(s.audio_lines[0].ts, at(3));
    assert_eq!(s.audio_lines[1].translated, "2");
    assert!(s.mic_lines.is_empty());
}

#[test]
fn history_is_cut() {
    let mut s = state();
    for i in 0..130 {
        s.apply_event(translated(TrackId::Outgoing, &format!("s{i}"), "t"), at(i));
        s.apply_event(
            TrackEvent::Error { track: TrackId::Outgoing, message: format!("e{i}") },
            at(i),
        );
    }
    assert_eq!(s.mic_lines.len(), 100);
    assert_eq!(s.mic_lines[0].source, "s30");
    assert_eq!(s.errors.len(), 10);
    assert_eq!(s.errors[0], "e129");
    assert_eq!(s.errors[9], "e120");
}

#[test]
fn one_track_can_end_before_the_other() {
    let mut s = state();
    s.session_started("/tmp/x.log".into(), true);
    assert_eq!(s.status, SessionStatus::Running);
    s.apply_event(TrackEvent::Ended { track: TrackId::Incoming }, at(0));
    assert_eq!(s.status, SessionStatus::Running);
    s.stop_requested();
    assert_eq!(s.status, SessionStatus::Stopping);
    s.apply_event(TrackEvent::Ended { track: TrackId::Outgoing }, at(0));
    assert_eq!(s.status, SessionStatus::Idle);
    s.session_started("/tmp/y.log".into(), false);
    s.apply_event(TrackEvent::Ended { track: TrackId::Outgoing }, at(0));
    assert_eq!(s.status, SessionStatus::Idle);
    // With no track on record, any end is the end of the session.
    let mut s = state();
    s.status = SessionStatus::Running;
    s.mic_partial = "x".into();
    s.apply_event(TrackEvent::Ended { track: TrackId::Incoming }, at(0));
    assert_eq!(s.status, SessionStatus::Idle);
    assert_eq!(s.mic_partial, "");
}

#[test]
fn a_session_needs_a_transcription_key() {
    let mut s = state();
    let cfg = AppConfig::default();
    assert!(s.session_config(&cfg).is_none());
    assert_eq!(s.errors, vec!["DEEPGRAM_API_KEY is required."]);
    s.start_failed("disk full");
    assert_eq!(s.errors[0], "Start failed: disk full");
    s.dg_key = "dg".into();
    s.deepl_key = "dl".into();
    s.tts_sink_name = "  sink ".into();
    s.t1_target_lang_idx = 5;
    s.silence_flush_ms = 250;
    s.max_chars = 99;
    s.track2_enabled = false;
    let mut cfg = AppConfig::default();
    cfg.source_lang = Some("de".into());
    cfg.buf.flush_on_utterance_end = false;
    let live = s.session_config(&cfg).unwrap();
    assert_eq!(live.dg_api_key, "dg");
    assert_eq!(live.deepl_key, "dl");
    assert_eq!(live.source_lang, Some("de".into()));
    assert_eq!(live.t1_target_lang, "FR");
    assert_eq!(live.tts_sink_name, Some("sink".into()));
    assert_eq!(live.buf.silence_flush.as_millis(), 250);
    assert_eq!(live.buf.max_chars_before_flush, 99);
    assert!(!live.buf.flush_on_utterance_end);
    assert!(s.session_config(&AppConfig::default()).unwrap().buf.flush_on_utterance_end);
    assert!(!live.track2_enabled);
    s.tts_sink_name = " \t".into();
    assert_eq!(s.session_config(&cfg).unwrap().tts_sink_name, None);
}

#[test]
fn a_new_session_clears_the_old_one() {
    let mut s = state();
    s.push_error("old".into());
    s.apply_event(translated(TrackId::Outgoing, "a", "b"), at(0));
    s.apply_event(TrackEvent::Partial { track: TrackId::Incoming, text: "p".into() }, at(0));
    s.session_started("/tmp/z.log".into(), true);
    assert_eq!(s.log_path, Some("/tmp/z.log".into()));
    assert!(s.errors.is_empty() && s.mic_lines.is_empty() && s.audio_lines.is_empty());
    assert_eq!(s.audio_partial, "");
    assert!(s.overlay_visible());
    assert!(!s.editable());
    s.track2_enabled = false;
    assert!(!s.overlay_visible());
}

#[test]
fn fields_keep_their_bounds() {
    let mut s = state();
    s.edit_silence_flush("50");
    assert_eq!(s.silence_flush_ms, 100);
    s.edit_silence_flush("900");
    s.edit_silence_flush("x");
    s.edit_silence_flush("4294967296");
    assert_eq!(s.silence_flush_ms, 900);
    s.edit_min_chars("0");
    assert_eq!(s.min_chars_punct, 0);
    s.edit_max_chars("7");
    assert_eq!(s.max_chars, 50);
    s.edit_max_chars("+77");
    assert_eq!(s.max_chars, 77);
    s.edit_context_sentences("0");
    assert_eq!(s.context_sentences, 1);
    s.edit_context_sentences("21");
    assert_eq!(s.context_sentences, 20);
    s.edit_overlay_lines("0");
    assert_eq!(s.overlay_lines, 1);
    s.edit_overlay_lines("11");
    assert_eq!(s.overlay_lines, 10);
    s.edit_overlay_lines("");
    s.edit_overlay_lines("-1");
    assert_eq!(s.overlay_lines, 10);
}

#[test]
fn the_last_lines_are_shown() {
    assert_eq!(first_shown(20, 8), 12);
    assert_eq!(first_shown(8, 8), 0);
    assert_eq!(first_shown(3, 8), 0);
    let line = |source: &str, text: &str| SubtitleLine {
        track: TrackId::Outgoing,
        source: source.into(),
        translated: text.into(),
        ts: at(0),
    };
    assert!(shows_source(&line("a", "b")));
    assert!(!shows_source(&line("a", "a")));
    assert!(!shows_source(&line("", "b")));
}

#[test]
fn an_untouched_window_keeps_the_settings() {
    let mut cfg = AppConfig::default();
    cfg.dg_api_key = "dg".into();
    cfg.deepl_key = "dl".into();
    cfg.t1_target_lang = "JA".into();
    cfg.source_lang = Some("en".into());
    cfg.context_sentences = 7;
    let live = UiState::from_config(&cfg).session_config(&cfg).unwrap();
    assert_eq!(live.dg_api_key, "dg");
    assert_eq!(live.deepl_key, "dl");
    assert_eq!((live.t1_target_lang.as_str(), live.t2_target_lang.as_str()), ("JA", "EN"));
    assert_eq!(live.source_lang, cfg.source_lang);
    assert_eq!(live.tts_sink_name, cfg.tts_sink_name);
    assert_eq!(live.context_sentences, 7);
    assert_eq!(live.buf.silence_flush, cfg.buf.silence_flush);
    assert_eq!(live.buf.max_chars_before_flush, cfg.buf.max_chars_before_flush);
}
