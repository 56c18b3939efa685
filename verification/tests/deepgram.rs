use realtime_translation::clock::{Duration, Instant};
use realtime_translation::deepgram::{
    bool_str, handle_ws_message, push_report, read_results, stream_auth_header, task_ended,
    worth_sending, ClientAction, ClientInput, DeepgramClient, DeepgramConfig, MessageError,
    PushReport, SendOutcome, SessionPhase, TaskOutcome, WsMessage,
};
use realtime_translation::events::{PipelineEvent, TrackId};
use realtime_translation::json::JsonNode;
use realtime_translation::pcm::{i16_le_bytes, samples_from_le};
use realtime_translation::transcript::{TranscriptBuffer, TranscriptBufferConfig};

fn now() -> Instant {
    Instant { nanos: 5_000_000_000 }
}

fn node(v: &serde_json::Value) -> JsonNode {
    match v {
        serde_json::Value::Null => JsonNode::Null,
        serde_json::Value::Bool(b) => JsonNode::Bool(*b),
        serde_json::Value::Number(_) => JsonNode::Number,
        serde_json::Value::String(s) => JsonNode::Text(s.clone()),
        serde_json::Value::Array(items) => {
            JsonNode::Array(items.iter().map(|i| i.to_string()).collect())
        }
        serde_json::Value::Object(members) => JsonNode::Object(
            members.iter().map(|(k, m)| (k.clone(), m.to_string())).collect(),
        ),
    }
}

fn result(transcript: &str, is_final: bool) -> WsMessage {
    WsMessage::Text(format!(
        r#"{{"type":"Results","is_final":{is_final},"channel":{{"alternatives":[{{"transcript":"{transcript}"}}]}}}}"#
    ))
}

#[test]
fn url_auto_detect_uses_multi() {
    // Without an explicit language, language=multi is in the URL.
    let cfg = DeepgramConfig::with_detect_language("dummy".into());
    let url = cfg.build_url();
    assert!(url.starts_with("wss://api.deepgram.com/v1/listen?"));
    assert!(url.contains("language=multi"), "missing language=multi in {url}");
    assert!(!url.contains("detect_language"), "detect_language must not appear in streaming URL: {url}");
    for needle in [
        "model=nova-3",
        "encoding=linear16",
        "sample_rate=16000",
        "channels=1",
        "interim_results=true",
        "endpointing=300",
        "utterance_end_ms=1000",
        "smart_format=true",
        "punctuate=true",
    ] {
        assert!(url.contains(needle), "missing {needle} in {url}");
    }
}

#[test]
fn url_explicit_language_en() {
    let cfg = DeepgramConfig::with_language("dummy".into(), "en");
    let url = cfg.build_url();
    assert!(url.contains("language=en"), "missing language=en in {url}");
    assert!(!url.contains("detect_language"), "detect_language must be absent: {url}");
}

#[test]
fn url_explicit_language_de() {
    let cfg = DeepgramConfig::with_language("dummy".into(), "de");
    let url = cfg.build_url();
    assert!(url.contains("language=de"), "missing language=de in {url}");
    assert!(!url.contains("detect_language"), "detect_language must be absent: {url}");
}

#[test]
fn parse_results_message() {
    // The shape of a message of the service.
    let s = r#"{
            "type": "Results",
            "channel_index": [0,1],
            "duration": 1.0,
            "start": 0.0,
            "is_final": true,
            "speech_final": true,
            "channel": {
                "alternatives": [{
                    "transcript": "hello world",
                    "confidence": 0.99,
                    "words": []
                }]
            }
        }"#;
    let v: serde_json::Value = serde_json::from_str(s).unwrap();
    let n = node(&v);
    let kind = n.text_member("type").unwrap();
    assert_eq!(kind, "Results");
    let r = read_results(&n).unwrap();
    assert!(r.is_final);
    assert!(r.speech_final);
    assert_eq!(r.channel.alternatives[0].transcript, "hello world");
}

#[test]
fn i16_to_le_round_trip() {
    let samples: Vec<i16> = vec![0, 1, -1, 32767, -32768];
    let bytes = i16_le_bytes(&samples);
    assert_eq!(bytes.len(), samples.len() * 2);
    // First sample is 0x0000.
    assert_eq!(&bytes[0..2], &[0u8, 0u8]);
    // Last sample is 0x8000 little-endian = [0x00, 0x80].
    assert_eq!(&bytes[bytes.len() - 2..], &[0x00, 0x80]);
    assert_eq!(samples_from_le(&bytes), samples);
}

#[test]
fn url_is_exact() {
    let cfg = DeepgramConfig::with_language("k".into(), "en");
    assert_eq!(
        cfg.build_url(),
        "wss://api.deepgram.com/v1/listen?model=nova-3&language=en&encoding=linear16\
         &sample_rate=16000&channels=1&interim_results=true&endpointing=300\
         &utterance_end_ms=1000&smart_format=true&punctuate=true"
    );
    assert_eq!(stream_auth_header(&cfg), "Token k");
    assert_eq!(bool_str(true), "true");
    assert_eq!(bool_str(false), "false");
}

#[test]
fn flags_may_be_missing_but_not_ill_typed() {
    let missing = serde_json::from_str::<serde_json::Value>(
        r#"{"channel":{"alternatives":[]}}"#,
    )
    .unwrap();
    let r = read_results(&node(&missing)).unwrap();
    assert!(!r.is_final && !r.speech_final);
    assert!(r.channel.alternatives.is_empty());
    for bad in [
        r#"{"is_final":1,"channel":{"alternatives":[]}}"#,
        r#"{"is_final":true}"#,
        r#"{"channel":{"alternatives":[{"transcript":7}]}}"#,
        r#"{"channel":{}}"#,
    ] {
        let v = serde_json::from_str::<serde_json::Value>(bad).unwrap();
        assert!(read_results(&node(&v)).is_none(), "{bad}");
    }
}

#[test]
fn escapes_in_a_transcript_are_read() {
    let mut buf = TranscriptBuffer::new(TranscriptBufferConfig::default());
    let e = handle_ws_message(&result("caf\\u00e9 \\\"x\\\"", false), &mut buf, now(), TrackId::Incoming)
        .unwrap()
        .unwrap();
    match e {
        PipelineEvent::Partial { track, text } => {
            assert_eq!(track, TrackId::Incoming);
            assert_eq!(text, "café \"x\"");
        }
        other => panic!("{other:?}"),
    }
    assert_eq!(buf.latest_partial(), "café \"x\"");
}

#[test]
fn messages_without_words_or_of_other_kinds_do_nothing() {
    let mut buf = TranscriptBuffer::new(TranscriptBufferConfig::default());
    for msg in [
        result("   ", true),
        WsMessage::Text(r#"{"type":"Metadata"}"#.into()),
        WsMessage::Text(r#"{"type":7}"#.into()),
        WsMessage::Text("[1,2]".into()),
        WsMessage::Binary,
        WsMessage::Ping,
        WsMessage::Pong,
        WsMessage::Frame,
        WsMessage::Close,
    ] {
        assert!(handle_ws_message(&msg, &mut buf, now(), TrackId::Outgoing).unwrap().is_none());
    }
    assert_eq!(buf.current(), "");
}

#[test]
fn faulty_messages_are_errors() {
    let mut buf = TranscriptBuffer::new(TranscriptBufferConfig::default());
    buf.on_final("kept", now());
    let bad = WsMessage::Text("{not json".into());
    assert!(matches!(
        handle_ws_message(&bad, &mut buf, now(), TrackId::Outgoing),
        Err(MessageError::Json(_))
    ));
    let odd = WsMessage::Text(r#"{"type":"Results"}"#.into());
    assert!(matches!(
        handle_ws_message(&odd, &mut buf, now(), TrackId::Outgoing),
        Err(MessageError::Schema)
    ));
    assert_eq!(buf.current(), "kept");
}

#[test]
fn session_streams_drains_and_flushes() {
    let mut c = DeepgramClient::new(TranscriptBufferConfig::default(), TrackId::Outgoing);
    match c.step(ClientInput::Audio(vec![1, -1]), now()) {
        Some(ClientAction::SendBinary(b)) => assert_eq!(b, vec![1, 0, 255, 255]),
        other => panic!("{other:?}"),
    }
    assert!(c.step(ClientInput::Message(result("good morning", true)), now()).is_none());
    assert!(c.step(ClientInput::Tick, now()).is_none());
    match c.step(ClientInput::Tick, now().plus(Duration::from_millis(1500))) {
        Some(ClientAction::Emit(PipelineEvent::Flushed { text, reason, .. })) => {
            assert_eq!(text, "good morning");
            assert_eq!(reason, "silence");
        }
        other => panic!("{other:?}"),
    }
    match c.step(ClientInput::AudioEnded, now()) {
        Some(ClientAction::SendText(t)) => assert_eq!(t, "{\"type\":\"CloseStream\"}"),
        other => panic!("{other:?}"),
    }
    assert_eq!(c.phase(), SessionPhase::Draining);
    // No audio goes out any more, and the clock no longer flushes.
    assert!(c.step(ClientInput::Audio(vec![3]), now()).is_none());
    assert!(c.step(ClientInput::Message(result("and good night", true)), now()).is_none());
    assert!(c.step(ClientInput::Message(WsMessage::Text("oops".into())), now()).is_none());
    match c.step(ClientInput::MessagesEnded, now()) {
        Some(ClientAction::Emit(PipelineEvent::Flushed { text, reason, .. })) => {
            assert_eq!(text, "and good night");
            assert_eq!(reason, "manual");
        }
        other => panic!("{other:?}"),
    }
    assert_eq!(c.phase(), SessionPhase::Closed);
    assert!(c.step(ClientInput::MessagesEnded, now()).is_none());
}

#[test]
fn failures_end_a_session() {
    let mut c = DeepgramClient::new(TranscriptBufferConfig::default(), TrackId::Outgoing);
    assert!(matches!(
        c.step(ClientInput::Message(WsMessage::Text("oops".into())), now()),
        Some(ClientAction::Report(MessageError::Json(_)))
    ));
    assert!(matches!(
        c.step(ClientInput::Message(WsMessage::Text("{\"type\":\"Results\"}".into())), now()),
        Some(ClientAction::Report(MessageError::Schema))
    ));
    match c.step(ClientInput::Failed("reset".into()), now()) {
        Some(ClientAction::Fail(e)) => assert_eq!(e, "reset"),
        other => panic!("{other:?}"),
    }
    assert_eq!(c.phase(), SessionPhase::Closed);
}

#[test]
fn task_outcomes_are_told() {
    assert!(task_ended(TrackId::Outgoing, TaskOutcome::Finished).is_none());
    let told = |o: TaskOutcome| match task_ended(TrackId::Incoming, o) {
        Some(PipelineEvent::Error { track, error }) => {
            assert_eq!(track, TrackId::Incoming);
            error
        }
        other => panic!("{other:?}"),
    };
    assert_eq!(told(TaskOutcome::Failed("x".into())), "x");
    assert_eq!(told(TaskOutcome::Panicked(Some("boom".into()))), "client task panicked: boom");
    assert_eq!(told(TaskOutcome::Panicked(None)), "client task panicked: <non-string panic>");
}

#[test]
fn end_of_session_is_reported_once() {
    assert!(!worth_sending(&[]));
    assert!(worth_sending(&[0]));
    assert_eq!(push_report(SendOutcome::Sent, false), (PushReport::Nothing, false));
    assert_eq!(push_report(SendOutcome::Full, false), (PushReport::Dropped, false));
    assert_eq!(push_report(SendOutcome::Closed, false), (PushReport::SessionEnded, true));
    assert_eq!(push_report(SendOutcome::Closed, true), (PushReport::Nothing, true));
}
