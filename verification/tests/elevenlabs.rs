use base64::Engine;
use realtime_translation::clock::{Duration, Instant};
use realtime_translation::elevenlabs::{
    decode_pcm, flush_message, pcm_of, spaced_text, utterance_message, ElevenLabsConfig, TtsAction, TtsInput, TtsPhase,
    TtsSession,
};

fn start() -> Instant {
    Instant { nanos: 7_000_000_000 }
}

fn encoded(raw: &[u8]) -> String {
    base64::engine::general_purpose::STANDARD.encode(raw)
}

#[test]
fn sample_rate_parsed_from_format() {
    let cfg = ElevenLabsConfig::new("key".into(), "vid".into());
    assert_eq!(cfg.sample_rate(), 24_000);
}

#[test]
fn url_contains_voice_and_model() {
    let cfg = ElevenLabsConfig::new("key".into(), "my_voice_id".into());
    let url = cfg.build_url();
    assert!(url.contains("my_voice_id"), "{url}");
    assert!(url.contains("eleven_flash_v2_5"), "{url}");
    assert!(url.contains("pcm_24000"), "{url}");
}

#[test]
fn decode_pcm_valid() {
    let raw = vec![0u8, 0, 0xFF, 0x7F];
    let b64 = encoded(&raw);
    let samples: Vec<f32> = decode_pcm(&b64)
        .unwrap()
        .into_iter()
        .map(|s| s as f32 / 32768.0)
        .collect();
    assert_eq!(samples.len(), 2);
    assert!((samples[0] - 0.0).abs() < 0.001);
    assert!((samples[1] - 1.0).abs() < 0.001);
}

#[test]
fn decode_pcm_empty() {
    assert!(decode_pcm("").is_none());
}

#[test]
fn decode_pcm_refuses_what_is_no_audio() {
    assert!(decode_pcm("not base64!").is_none());
    assert!(decode_pcm(&encoded(&[1])).is_none());
    assert_eq!(decode_pcm(&encoded(&[0, 0x80, 9])), Some(vec![-32768]));
    assert_eq!(pcm_of(None), None);
    assert_eq!(pcm_of(Some(vec![1, 2, 3, 4])), Some(vec![0x0201, 0x0403]));
}

#[test]
fn sample_rates_of_other_formats() {
    let mut cfg = ElevenLabsConfig::new("key".into(), "vid".into());
    for (format, rate) in [
        ("pcm_44100", 44_100),
        ("pcm_+8000", 8_000),
        ("mp3_44100", 24_000),
        ("pcm_", 24_000),
        ("pcm_99999999999", 24_000),
        ("pcm_16k", 24_000),
    ] {
        cfg.output_format = format.into();
        assert_eq!(cfg.sample_rate(), rate, "{format}");
    }
}

#[test]
fn url_and_init_message_are_exact() {
    let cfg = ElevenLabsConfig::new("key".into(), "v1".into());
    assert_eq!(
        cfg.build_url(),
        "wss://api.elevenlabs.io/v1/text-to-speech/v1/stream-input\
         ?model_id=eleven_flash_v2_5&output_format=pcm_24000"
    );
    let v: serde_json::Value = serde_json::from_str(&cfg.init_message()).unwrap();
    assert_eq!(v["text"], " ");
    assert_eq!(v["voice_settings"]["stability"], 0.5);
    assert_eq!(v["voice_settings"]["similarity_boost"], 0.8);
    assert_eq!(v["voice_settings"]["use_speaker_boost"], false);
    let schedule: Vec<i64> = v["generation_config"]["chunk_length_schedule"]
        .as_array()
        .unwrap()
        .iter()
        .map(|n| n.as_i64().unwrap())
        .collect();
    assert_eq!(schedule, vec![50, 120, 160, 250]);
}

#[test]
fn utterances_are_quoted_and_end_in_a_space() {
    assert_eq!(utterance_message("Hello world"), "{\"text\":\"Hello world \",\"flush\":true}");
    assert_eq!(spaced_text(""), " ");
    assert_eq!(spaced_text("a "), "a ");
    assert_eq!(flush_message("\"x\""), "{\"text\":\"x\",\"flush\":true}");
    assert_eq!(utterance_message("Hello "), "{\"text\":\"Hello \",\"flush\":true}");
    assert_eq!(
        utterance_message("say \"é\"\n"),
        "{\"text\":\"say \\\"é\\\"\\n \",\"flush\":true}"
    );
    assert_eq!(
        utterance_message("\\/\u{8}\t\r\u{c}\u{0}\u{1f}\u{7f}"),
        "{\"text\":\"\\\\/\\b\\t\\r\\f\\u0000\\u001f\u{7f} \",\"flush\":true}"
    );
}

fn sent(actions: Vec<TtsAction>) -> Vec<String> {
    actions
        .into_iter()
        .map(|a| match a {
            TtsAction::Send(t) => t,
            other => panic!("{other:?}"),
        })
        .collect()
}

#[test]
fn session_speaks_and_drains() {
    let mut s = TtsSession::new(start());
    assert!(s.step(TtsInput::Text("  ".into()), start()).is_empty());
    let later = start().plus(Duration::from_secs(20));
    assert_eq!(
        sent(s.step(TtsInput::Text("Hi".into()), later)),
        vec!["{\"text\":\"Hi \",\"flush\":true}"]
    );
    assert_eq!(s.last_text_at, later);
    let reply = format!("{{\"audio\":\"{}\",\"isFinal\":true}}", encoded(&[1, 0]));
    let actions = s.step(TtsInput::Reply(reply.clone()), later);
    assert_eq!(actions.len(), 2);
    assert!(matches!(&actions[0], TtsAction::Play(p) if *p == vec![1]));
    assert!(matches!(&actions[1], TtsAction::Boundary));
    assert!(s.step(TtsInput::Reply("no json".into()), later).is_empty());
    assert!(s.step(TtsInput::Reply("{\"audio\":null}".into()), later).is_empty());
    let actions = s.step(TtsInput::Audio(vec![2, 0, 3]), later);
    assert!(matches!(&actions[0], TtsAction::Play(p) if *p == vec![2]));
    assert!(s.step(TtsInput::Audio(vec![]), later).is_empty());
    assert!(s.step(TtsInput::Other, later).is_empty());
    assert_eq!(sent(s.step(TtsInput::TextEnded, later)), vec!["{\"text\":\"\"}"]);
    assert_eq!(s.phase, TtsPhase::Draining);
    // The last audio still comes in; the end of an utterance is no longer told.
    let actions = s.step(TtsInput::Reply(reply), later);
    assert_eq!(actions.len(), 1);
    assert!(s.step(TtsInput::Text("too late".into()), later).is_empty());
    assert!(s.step(TtsInput::Ended, later).is_empty());
    assert_eq!(s.phase, TtsPhase::Closed);
    assert!(s.step(TtsInput::TextEnded, later).is_empty());
}

#[test]
fn keepalives_wait_for_eight_idle_seconds() {
    let mut s = TtsSession::new(start());
    let soon = start().plus(Duration::from_millis(7999));
    assert!(s.step(TtsInput::KeepaliveTick, soon).is_empty());
    let then = start().plus(Duration::from_secs(8));
    assert_eq!(sent(s.step(TtsInput::KeepaliveTick, then)), vec!["{\"text\":\" \"}"]);
    // A keepalive is no sentence: the next one is due at once.
    assert_eq!(sent(s.step(TtsInput::KeepaliveTick, then)).len(), 1);
}

#[test]
fn a_binary_message_ends_the_draining() {
    let mut s = TtsSession::new(start());
    assert!(s.step(TtsInput::Ended, start()).is_empty());
    assert_eq!(s.phase, TtsPhase::Draining);
    assert!(s.step(TtsInput::Audio(vec![1, 2]), start()).is_empty());
    assert_eq!(s.phase, TtsPhase::Closed);
}

#[test]
fn a_session_speaks_each_text_once_and_closes_last() {
    let mut s = TtsSession::new(start());
    let mut messages = Vec::new();
    for input in [
        TtsInput::Text("one.".into()),
        TtsInput::Text(" \t".into()),
        TtsInput::Other,
        TtsInput::Text("two.".into()),
        TtsInput::Text("two.".into()),
        TtsInput::Reply("{}".into()),
        TtsInput::TextEnded,
        TtsInput::Text("late".into()),
        TtsInput::TextEnded,
        TtsInput::Ended,
        TtsInput::Text("later".into()),
    ] {
        messages.extend(sent(s.step(input, start())));
    }
    assert_eq!(
        messages,
        vec![
            "{\"text\":\"one. \",\"flush\":true}",
            "{\"text\":\"two. \",\"flush\":true}",
            "{\"text\":\"two. \",\"flush\":true}",
            "{\"text\":\"\"}",
        ]
    );
    // A connection that ends first is not closed by a message.
    let mut s = TtsSession::new(start());
    assert_eq!(sent(s.step(TtsInput::Text("one.".into()), start())).len(), 1);
    assert!(s.step(TtsInput::Ended, start()).is_empty());
    assert!(s.step(TtsInput::TextEnded, start()).is_empty());
    assert!(s.step(TtsInput::Text("late".into()), start()).is_empty());
}

#[test]
fn audio_is_played_in_its_order() {
    let mut s = TtsSession::new(start());
    let mut pieces = Vec::new();
    for input in [
        TtsInput::Audio(vec![1, 0]),
        TtsInput::Reply(format!("{{\"audio\":\"{}\",\"isFinal\":true}}", encoded(&[2, 0, 3, 0]))),
        TtsInput::Reply("not JSON".into()),
        TtsInput::TextEnded,
        TtsInput::Reply(format!("{{\"audio\":\"{}\"}}", encoded(&[4, 0]))),
        TtsInput::Reply("{\"isFinal\":true}".into()),
        TtsInput::Reply(format!("{{\"audio\":\"{}\"}}", encoded(&[5, 0]))),
    ] {
        for action in s.step(input, start()) {
            if let TtsAction::Play(samples) = action {
                pieces.push(samples);
            }
        }
    }
    assert_eq!(pieces, vec![vec![1], vec![2, 3], vec![4], vec![5]]);
}
