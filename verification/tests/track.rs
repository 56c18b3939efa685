use realtime_translation::capture::CaptureTarget;
use realtime_translation::clock::{Duration, Instant};
use realtime_translation::config::AppConfig;
use realtime_translation::elevenlabs::ElevenLabsConfig;
use realtime_translation::events::{PipelineEvent, TrackId};
use realtime_translation::playback::PlaybackTarget;
use realtime_translation::session_log::LogTrack;
use realtime_translation::track::{
    speech_format, track_configs_from_app, PartialThrottle, TrackAction, TrackConfig, TrackEvent,
    TrackInput, TrackRunner, TrackSource, RING_CAPACITY,
};

fn app(deepl: &str, el: &str, voice: &str) -> AppConfig {
    let mut c = AppConfig::default();
    c.dg_api_key = "dg".into();
    c.deepl_key = deepl.into();
    c.el_key = el.into();
    c.voice_id = voice.into();
    c
}

fn tracks(c: &AppConfig) -> (TrackConfig, Option<TrackConfig>) {
    track_configs_from_app(c, Some(3), None, "fr", "EN")
}

fn flushed(text: &str) -> TrackInput {
    TrackInput::Event(PipelineEvent::Flushed {
        track: TrackId::Outgoing,
        text: text.into(),
        reason: "manual",
    })
}

#[test]
fn keys_decide_which_stages_run() {
    let (t1, t2) = tracks(&app("dl", "el", "v"));
    assert_eq!(t1.track_id, TrackId::Outgoing);
    assert_eq!(t1.source, TrackSource::Mic(Some(3)));
    let d = t1.deepl.as_ref().unwrap();
    assert_eq!((d.api_key.as_str(), d.target_lang.as_str()), ("dl", "fr"));
    let tts = t1.tts.as_ref().unwrap();
    assert_eq!(tts.voice_id, "v");
    assert!(matches!(tts.playback_target(), PlaybackTarget::NodeName(n) if n == "translator_virtmic_sink"));
    let t2 = t2.unwrap();
    assert_eq!(t2.track_id, TrackId::Incoming);
    assert_eq!(t2.source, TrackSource::SinkMonitor(None));
    assert_eq!(t2.deepl.unwrap().target_lang, "EN");
    assert!(t2.tts.is_none());
    // Without a translation key both tracks still run.
    let (t1, t2) = tracks(&app("", "el", ""));
    assert!(t1.deepl.is_none() && t1.tts.is_none());
    assert!(t2.unwrap().deepl.is_none());
    let mut c = app("dl", "", "");
    c.track2_enabled = false;
    assert!(tracks(&c).1.is_none());
}

#[test]
fn sources_have_targets() {
    assert_eq!(TrackSource::Mic(None).to_capture_target(), CaptureTarget::Default);
    assert_eq!(TrackSource::Mic(Some(4)).to_capture_target(), CaptureTarget::Node(4));
    assert_eq!(TrackSource::SinkMonitor(None).to_capture_target(), CaptureTarget::DefaultSinkMonitor);
    assert_eq!(TrackSource::SinkMonitor(Some(5)).to_capture_target(), CaptureTarget::SinkMonitor(5));
    assert!(TrackSource::SinkMonitor(None).is_sink_monitor());
    assert!(!TrackSource::Mic(None).is_sink_monitor());
    assert_eq!(TrackSource::Mic(None).log_track(), LogTrack::Mic);
    assert_eq!(TrackSource::SinkMonitor(None).log_track(), LogTrack::Audio);
}

#[test]
fn stages_get_their_parameters() {
    let mut c = app("dl:fx", "el", "v");
    c.source_lang = Some("en".into());
    c.context_sentences = 2;
    c.tts_sink_name = None;
    let (t1, _) = tracks(&c);
    assert_eq!(t1.stt_config().language, "en");
    assert_eq!(t1.stt_config().api_key, "dg");
    let d = t1.deepl.as_ref().unwrap().translation_config();
    assert_eq!(d.source_lang, Some("EN".into()));
    assert_eq!(d.target_lang, "FR");
    assert_eq!(d.context_sentences, 2);
    assert_eq!(d.endpoint, "https://api-free.deepl.com/v2");
    assert!(matches!(t1.tts.as_ref().unwrap().playback_target(), PlaybackTarget::Default));
    c.source_lang = None;
    assert_eq!(tracks(&c).0.stt_config().language, "multi");
    let format = speech_format(&ElevenLabsConfig::new("k".into(), "v".into()));
    assert_eq!((format.sample_rate, format.channels), (24_000, 1));
    assert_eq!(RING_CAPACITY, 24_000 * 30);
}

#[test]
fn flushed_text_is_translated_and_spoken() {
    let (t1, _) = tracks(&app("dl", "el", "v"));
    let mut r = TrackRunner::new(&t1);
    let a = r.step(flushed("one."));
    assert_eq!(a.len(), 3);
    assert!(matches!(&a[0], TrackAction::LogSource(t) if t == "one."));
    assert!(matches!(&a[1], TrackAction::Emit(TrackEvent::Flushed { source, .. }) if source == "one."));
    assert!(matches!(&a[2], TrackAction::Translate { text, context } if text == "one." && context.is_empty()));
    let a = r.step(flushed("two."));
    assert!(matches!(&a[2], TrackAction::Translate { context, .. } if context == "one."));
    let a = r.step(TrackInput::Translation { source: "one.".into(), result: Ok("un.".into()) });
    assert_eq!(a.len(), 3);
    assert!(matches!(&a[0], TrackAction::LogTranslated { lang, text } if lang == "fr" && text == "un."));
    assert!(matches!(&a[1], TrackAction::Emit(TrackEvent::Translated { source, translated, .. })
        if source == "one." && translated == "un."));
    assert!(matches!(&a[2], TrackAction::Speak(t) if t == "un."));
    let a = r.step(TrackInput::Translation { source: "two.".into(), result: Err("503".into()) });
    assert_eq!(a.len(), 1);
    assert!(matches!(&a[0], TrackAction::Emit(TrackEvent::Error { message, .. }) if message == "DeepL: 503"));
}

#[test]
fn text_passes_through_without_translation() {
    let (t1, _) = tracks(&app("", "el", "v"));
    let mut r = TrackRunner::new(&t1);
    let a = r.step(flushed("one."));
    assert_eq!(a.len(), 4);
    assert!(matches!(&a[2], TrackAction::LogTranslated { lang, text } if lang == "SRC" && text == "one."));
    assert!(matches!(&a[3], TrackAction::Emit(TrackEvent::Translated { source, translated, .. })
        if source == "one." && translated == "one."));
}

#[test]
fn other_events_are_handed_on() {
    let (_, t2) = tracks(&app("dl", "", ""));
    let mut r = TrackRunner::new(&t2.unwrap());
    let t = TrackId::Outgoing;
    let a = r.step(TrackInput::Event(PipelineEvent::Partial { track: t, text: "he".into() }));
    assert_eq!(a.len(), 3);
    assert!(matches!(&a[0], TrackAction::LogPartial(p) if p == "he"));
    assert!(matches!(&a[1], TrackAction::Emit(TrackEvent::Partial { track: TrackId::Incoming, .. })));
    assert!(matches!(&a[2], TrackAction::OfferPartial(p) if p == "he"));
    let a = r.step(TrackInput::Event(PipelineEvent::Finalised { track: t, text: "he".into() }));
    assert!(a.is_empty());
    let a = r.step(TrackInput::Event(PipelineEvent::Error { track: t, error: "x".into() }));
    assert!(matches!(&a[0], TrackAction::Emit(TrackEvent::Error { message, .. }) if message == "x"));
    let a = r.step(TrackInput::Event(PipelineEvent::Translated {
        track: t,
        source_text: "a".into(),
        translated: "b".into(),
    }));
    assert!(matches!(&a[0], TrackAction::Emit(TrackEvent::Translated { source, .. }) if source == "a"));
    // No speech on this track.
    let a = r.step(TrackInput::Translation { source: "a".into(), result: Ok("b".into()) });
    assert_eq!(a.len(), 2);
}

#[test]
fn a_track_ends_once() {
    let (t1, _) = tracks(&app("", "", ""));
    let mut r = TrackRunner::new(&t1);
    assert!(r.step(TrackInput::Quiet).is_empty());
    assert!(!r.ended());
    let a = r.step(TrackInput::Closed);
    assert_eq!(a.len(), 1);
    assert!(matches!(&a[0], TrackAction::Emit(TrackEvent::Ended { track: TrackId::Outgoing })));
    assert!(r.ended());
    assert!(r.step(TrackInput::Closed).is_empty());
    assert!(r.step(TrackInput::Stop).is_empty());
    assert!(r.step(flushed("late")).is_empty());
}

#[test]
fn a_stopped_track_drains() {
    let (t1, _) = tracks(&app("", "", ""));
    let mut r = TrackRunner::new(&t1);
    let a = r.step(TrackInput::Stop);
    assert_eq!(a.len(), 1);
    assert!(matches!(&a[0], TrackAction::CloseAudio));
    assert!(r.stopping() && !r.ended());
    assert!(r.step(TrackInput::Stop).is_empty());
    // The last words still come in.
    let a = r.step(flushed("last words."));
    assert!(matches!(&a[1], TrackAction::Emit(TrackEvent::Flushed { source, .. }) if source == "last words."));
    assert_eq!(a.len(), 4);
    let a = r.step(TrackInput::Closed);
    assert!(matches!(&a[0], TrackAction::Emit(TrackEvent::Ended { .. })));
    assert!(r.ended());
}

#[test]
fn partials_are_throttled() {
    let t0 = Instant { nanos: 0 };
    let later = |ms: u64| t0.plus(Duration::from_millis(ms));
    let mut p = PartialThrottle::new();
    assert_eq!(p.offer(None, t0), None);
    assert_eq!(p.offer(Some("hello".into()), t0), Some(("hello".into(), 1)));
    assert_eq!(p.offer(Some("hello th".into()), later(100)), None);
    assert_eq!(p.offer(Some("hello there".into()), later(299)), None);
    assert_eq!(p.offer(None, later(300)), Some(("hello there".into(), 2)));
    assert_eq!(p.offer(None, later(900)), None);
    // Too short a text is forgotten; bytes count.
    assert_eq!(p.offer(Some("  abcd ".into()), later(900)), None);
    assert_eq!(p.offer(None, later(1200)), None);
    assert_eq!(p.offer(Some("éé!".into()), later(1200)), Some(("éé!".into(), 3)));
    assert_eq!(p.count(), 3);
}
