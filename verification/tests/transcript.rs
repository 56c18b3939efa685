use realtime_translation::clock::{Duration, Instant};
use realtime_translation::transcript::{
    BufferOutput, FlushReason, TranscriptBuffer, TranscriptBufferConfig,
};

fn cfg() -> TranscriptBufferConfig {
    TranscriptBufferConfig {
        min_chars_for_punct_flush: 10,
        max_chars_before_flush: 50,
        silence_flush: Duration::from_millis(500),
        flush_on_utterance_end: true,
    }
}

fn now() -> Instant {
    Instant { nanos: 1_000_000_000_000 }
}

#[test]
fn empty_final_is_ignored() {
    let mut b = TranscriptBuffer::new(cfg());
    let out = b.on_final("   ", now());
    assert!(out.is_empty());
    assert_eq!(b.current(), "");
}

#[test]
fn short_final_stays_buffered() {
    let mut b = TranscriptBuffer::new(cfg());
    // "hi." is 3 chars, below min_chars_for_punct_flush=10, stays in the buffer.
    let out = b.on_final("hi.", now());
    assert!(out.is_empty(), "short sentence should stay buffered, got {out:?}");
    assert_eq!(b.current(), "hi.");
}

#[test]
fn punctuation_above_threshold_flushes() {
    let mut b = TranscriptBuffer::new(cfg());
    let out = b.on_final("hello there friend.", now());
    assert_eq!(out.len(), 1);
    match &out[0] {
        BufferOutput::Flushed { text, reason } => {
            assert_eq!(text, "hello there friend.");
            assert_eq!(*reason, FlushReason::Punctuation);
        }
        other => panic!("expected Flushed, got {other:?}"),
    }
    assert_eq!(b.current(), "");
}

#[test]
fn finals_accumulate_across_pauses() {
    let mut b = TranscriptBuffer::new(cfg());
    // Fragments accumulate until a chunk that ends a sentence arrives.
    b.on_final("um", now());
    b.on_final("hello there", now());
    let out = b.on_final("friend.", now());
    assert!(out.iter().any(|o| matches!(
        o,
        BufferOutput::Flushed { reason: FlushReason::Punctuation, .. }
    )));
}

#[test]
fn max_chars_flush_without_punctuation() {
    let mut b = TranscriptBuffer::new(cfg());
    // A long final with no terminal punctuation.
    let big = "word ".repeat(20);
    let out = b.on_final(big.trim(), now());
    assert!(out.iter().any(|o| matches!(
        o,
        BufferOutput::Flushed { reason: FlushReason::MaxChars, .. }
    )));
}

#[test]
fn silence_flush_after_threshold() {
    let mut b = TranscriptBuffer::new(cfg());
    let t0 = now();
    b.on_final("we have something", t0);
    // Tick before the silence threshold: no flush.
    assert!(b.on_tick(t0.plus(Duration::from_millis(200))).is_none());
    // Tick after the silence threshold: flush.
    let f = b.on_tick(t0.plus(Duration::from_millis(600))).expect("flush");
    assert!(matches!(
        f,
        BufferOutput::Flushed { reason: FlushReason::Silence, .. }
    ));
    assert_eq!(b.current(), "");
}

#[test]
fn silence_flush_does_nothing_when_empty() {
    let mut b = TranscriptBuffer::new(cfg());
    assert!(b.on_tick(now()).is_none());
}

#[test]
fn utterance_end_flushes() {
    let mut b = TranscriptBuffer::new(cfg());
    b.on_final("partial thought", now());
    let f = b.on_utterance_end().expect("flush");
    assert!(matches!(
        f,
        BufferOutput::Flushed { reason: FlushReason::UtteranceEnd, .. }
    ));
}

#[test]
fn utterance_end_on_empty_is_noop() {
    let mut b = TranscriptBuffer::new(cfg());
    assert!(b.on_utterance_end().is_none());
}

#[test]
fn manual_flush() {
    let mut b = TranscriptBuffer::new(cfg());
    b.on_final("anything", now());
    let f = b.flush_now().expect("flush");
    assert!(matches!(
        f,
        BufferOutput::Flushed { reason: FlushReason::Manual, .. }
    ));
    assert!(b.flush_now().is_none()); // already empty
}

#[test]
fn partial_does_not_affect_buffer() {
    let mut b = TranscriptBuffer::new(cfg());
    b.on_final("committed", now());
    b.on_partial("committed and more in flight".into());
    assert_eq!(b.current(), "committed");
    assert_eq!(b.latest_partial(), "committed and more in flight");
}

#[test]
fn final_clears_partial() {
    let mut b = TranscriptBuffer::new(cfg());
    b.on_partial("draft".into());
    b.on_final("real", now());
    assert_eq!(b.latest_partial(), "");
}

#[test]
fn default_thresholds() {
    let d = TranscriptBufferConfig::default();
    assert_eq!(d.min_chars_for_punct_flush, 30);
    assert_eq!(d.max_chars_before_flush, 240);
    assert_eq!(d.silence_flush, Duration::from_millis(1500));
    assert!(d.flush_on_utterance_end);
    let b = TranscriptBuffer::new(d);
    assert_eq!(b.config().max_chars_before_flush, 240);
}

#[test]
fn utterance_end_can_be_switched_off() {
    let mut c = cfg();
    c.flush_on_utterance_end = false;
    let mut b = TranscriptBuffer::new(c);
    b.on_final("partial thought", now());
    assert!(b.on_utterance_end().is_none());
    assert_eq!(b.current(), "partial thought");
}

#[test]
fn ellipsis_ends_a_sentence() {
    let mut b = TranscriptBuffer::new(cfg());
    let out = b.on_final("  well, I thought…  ", now());
    assert_eq!(
        out,
        vec![BufferOutput::Flushed {
            text: "well, I thought…".into(),
            reason: FlushReason::Punctuation,
        }]
    );
}

#[test]
fn silence_flushes_at_the_threshold_exactly() {
    let mut b = TranscriptBuffer::new(cfg());
    b.on_final("short", now());
    assert!(b.on_tick(now().plus(Duration::from_millis(499))).is_none());
    assert!(b.on_tick(now().plus(Duration::from_millis(500))).is_some());
}

#[test]
fn no_word_is_lost_over_several_flushes() {
    let mut b = TranscriptBuffer::new(cfg());
    let finals = [" one", "two ", "three four five.", "six", "  ", "seven"];
    let mut told: Vec<String> = Vec::new();
    for f in finals {
        for o in b.on_final(f, now()) {
            if let BufferOutput::Flushed { text, .. } = o {
                told.push(text);
            }
        }
    }
    if let Some(BufferOutput::Flushed { text, .. }) = b.flush_now() {
        told.push(text);
    }
    assert_eq!(told, vec!["one two three four five.", "six seven"]);
    assert_eq!(told.join(" "), "one two three four five. six seven");
}

#[test]
fn flush_reasons_have_labels() {
    assert_eq!(FlushReason::Punctuation.as_str(), "punctuation");
    assert_eq!(FlushReason::MaxChars.as_str(), "max-chars");
    assert_eq!(FlushReason::Silence.as_str(), "silence");
    assert_eq!(FlushReason::UtteranceEnd.as_str(), "utterance-end");
    assert_eq!(FlushReason::Manual.as_str(), "manual");
}
