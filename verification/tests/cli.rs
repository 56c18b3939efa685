use realtime_translation::capture::CaptureTarget;
use realtime_translation::cli::{
    event_line, parse_capture_args, parse_stt_args, parse_tone_args, translation_line, wav_chunk,
    Arg, CliError, SttMode,
};
use realtime_translation::events::{PipelineEvent, TrackId};

fn args(texts: &[&str]) -> Vec<Arg<f32>> {
    texts
        .iter()
        .map(|t| Arg { text: t.to_string(), number: t.parse().ok() })
        .collect()
}

fn message(e: CliError) -> String {
    e.message().unwrap()
}

#[test]
fn recorder_arguments() {
    let o = parse_capture_args(&args(&["out.wav"])).unwrap();
    assert_eq!((o.out.as_str(), o.secs, o.target), ("out.wav", None, CaptureTarget::Default));
    let o = parse_capture_args(&args(&["o", "--secs", "2.5", "--node", "45"])).unwrap();
    assert_eq!((o.secs, o.target), (Some(2.5), CaptureTarget::Node(45)));
    let o = parse_capture_args(&args(&["o", "--node", "1", "--sink-monitor", "69"])).unwrap();
    assert_eq!(o.target, CaptureTarget::SinkMonitor(69));
}

#[test]
fn recorder_errors() {
    let fail = |a: &[&str]| parse_capture_args(&args(a)).unwrap_err();
    assert_eq!(message(fail(&[])), "missing OUT.wav; see source for usage");
    assert_eq!(message(fail(&["o", "--secs"])), "--secs needs a number");
    assert_eq!(message(fail(&["o", "--node"])), "--node needs an id");
    assert_eq!(message(fail(&["o", "--sink-monitor"])), "--sink-monitor needs an id");
    assert_eq!(message(fail(&["o", "--loud"])), "unknown flag: --loud");
    assert!(matches!(fail(&["o", "--secs", "soon", "--loud"]), CliError::BadNumber(t) if t == "soon"));
    assert!(matches!(fail(&["o", "--node", "-1"]), CliError::BadId(t) if t == "-1"));
    assert!(fail(&["o", "--node", "4294967296"]).message().is_none());
}

#[test]
fn tone_arguments() {
    let o = parse_tone_args(&args(&[])).unwrap();
    assert!(o.secs.is_none() && o.freq.is_none() && o.volume.is_none() && o.node_name.is_none());
    let o = parse_tone_args(&args(&[
        "--node-name", "sink", "--freq", "880", "--volume", "0.3", "--secs", "1",
    ]))
    .unwrap();
    assert_eq!((o.secs, o.freq, o.volume), (Some(1.0), Some(880.0), Some(0.3)));
    assert_eq!(o.node_name, Some("sink".into()));
    let fail = |a: &[&str]| message(parse_tone_args(&args(a)).unwrap_err());
    assert_eq!(fail(&["--secs"]), "--secs needs a number");
    assert_eq!(fail(&["--freq"]), "--freq needs a number");
    assert_eq!(fail(&["--volume"]), "--volume needs 0.0..1.0");
    assert_eq!(fail(&["--node-name"]), "--node-name needs a string");
    assert_eq!(fail(&["x"]), "unknown flag: x");
}

#[test]
fn transcription_arguments() {
    let o = parse_stt_args(&args(&["--mic"])).unwrap();
    assert!(matches!(o.mode, SttMode::Mic));
    assert_eq!((o.target_lang.as_str(), o.context_sentences), ("EN", 5));
    let o = parse_stt_args(&args(&[
        "--wav", "a.wav", "--mic", "--secs", "9", "--language", "en", "--source-lang", "de",
        "--target-lang", "fr", "--context", "3", "--sink", "s",
    ]))
    .unwrap();
    assert!(matches!(o.mode, SttMode::Wav(p) if p == "a.wav"));
    assert_eq!(o.secs, Some(9.0));
    assert_eq!(o.language, Some("en".into()));
    assert_eq!(o.source_lang, Some("DE".into()));
    assert_eq!(o.target_lang, "FR");
    assert_eq!(o.context_sentences, 3);
    assert_eq!(o.sink_name, Some("s".into()));
    let o = parse_stt_args(&args(&["--mic", "--wav", "b.wav"])).unwrap();
    assert!(matches!(o.mode, SttMode::Wav(_)));
}

#[test]
fn transcription_errors() {
    let fail = |a: &[&str]| parse_stt_args(&args(a)).unwrap_err();
    assert_eq!(message(fail(&[])), "specify --wav FILE or --mic");
    assert_eq!(message(fail(&["--wav"])), "--wav needs a path");
    assert_eq!(message(fail(&["--language"])), "--language needs a code");
    assert_eq!(message(fail(&["--source-lang"])), "--source-lang needs a code");
    assert_eq!(message(fail(&["--target-lang"])), "--target-lang needs a code");
    assert_eq!(message(fail(&["--context"])), "--context needs a number");
    assert_eq!(message(fail(&["--context", "-2"])), "--context must be a positive integer");
    assert_eq!(message(fail(&["--sink"])), "--sink needs a node name");
    assert_eq!(
        message(fail(&["--detect-language"])),
        "--detect-language is not a flag; omit --language to auto-detect."
    );
    assert!(matches!(fail(&["--mic", "-h"]), CliError::Help));
    assert!(fail(&["--help"]).message().is_none());
    assert!(matches!(fail(&["--secs", "x"]), CliError::BadNumber(_)));
    assert_eq!(message(fail(&["--what"])), "unknown flag: --what");
}

#[test]
fn printed_lines() {
    let t = TrackId::Outgoing;
    assert_eq!(
        event_line(42, &PipelineEvent::Partial { track: t, text: "hi".into() }),
        "[    42 ms] PARTIAL    hi"
    );
    assert_eq!(
        event_line(1234567, &PipelineEvent::Finalised { track: t, text: "hi".into() }),
        "[1234567 ms] FINALISED  hi"
    );
    assert_eq!(
        event_line(0, &PipelineEvent::Flushed { track: t, text: "hi".into(), reason: "silence" }),
        "[     0 ms] FLUSHED    (silence)  hi"
    );
    assert_eq!(
        event_line(1, &PipelineEvent::Translated { track: t, source_text: "a".into(), translated: "b".into() }),
        "[     1 ms] TRANSLATED a → b"
    );
    assert_eq!(
        event_line(1, &PipelineEvent::Error { track: t, error: "e".into() }),
        "[     1 ms] ERROR      e"
    );
    assert_eq!(translation_line(9, "DE", &Ok("hallo".into())), "[     9 ms] TRANSLATED [→ DE]  hallo");
    assert_eq!(translation_line(9, "DE", &Err("503".into())), "[     9 ms] DEEPL ERR  503");
    assert_eq!(wav_chunk(44_100, 2), 1764);
    assert_eq!(wav_chunk(49, 2), 0);
}
