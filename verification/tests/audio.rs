use realtime_translation::capture::{
    announced_format, captured_bytes, needs_resampler, AudioFormat, CaptureTarget, CapturedBuffer,
    StreamParam,
};
use realtime_translation::playback::{
    channel_layout, fill_stops, plan_frames, plan_samples, ChannelLayout, FillPlan, PlaybackFormat,
    PlaybackTarget,
};
use realtime_translation::ring::{player_ring, read_limit, silence_from, stops};

const STEREO: AudioFormat = AudioFormat { sample_rate: 48_000, channels: 2 };

#[test]
fn capture_targets() {
    assert!(CaptureTarget::SinkMonitor(4).captures_sink());
    assert!(CaptureTarget::DefaultSinkMonitor.captures_sink());
    assert!(!CaptureTarget::Node(4).captures_sink());
    assert!(!CaptureTarget::Default.captures_sink());
    assert_eq!(CaptureTarget::Node(4).node_id(), Some(4));
    assert_eq!(CaptureTarget::SinkMonitor(5).node_id(), Some(5));
    assert_eq!(CaptureTarget::Default.node_id(), None);
    assert_eq!(CaptureTarget::DefaultSinkMonitor.node_id(), None);
}

#[test]
fn formats_are_taken_from_raw_audio_parameters() {
    let p = StreamParam { is_format: true, is_raw_audio: true, info: Some((48_000, 2)) };
    assert_eq!(announced_format(Some(p)), Some(STEREO));
    assert_eq!(announced_format(None), None);
    assert_eq!(announced_format(Some(StreamParam { is_format: false, ..p })), None);
    assert_eq!(announced_format(Some(StreamParam { is_raw_audio: false, ..p })), None);
    assert_eq!(announced_format(Some(StreamParam { info: None, ..p })), None);
    let wide = StreamParam { info: Some((1, 0x1_0003)), ..p };
    assert_eq!(announced_format(Some(wide)).unwrap().channels, 3);
}

#[test]
fn buffers_are_read_as_far_as_they_are_filled() {
    let b = CapturedBuffer { planes: 1, filled: 64, mapped: Some(100) };
    assert_eq!(captured_bytes(Some(STEREO), b), Some((STEREO, 64)));
    let cut = CapturedBuffer { mapped: Some(40), ..b };
    assert_eq!(captured_bytes(Some(STEREO), cut), Some((STEREO, 40)));
    assert_eq!(captured_bytes(None, b), None);
    assert_eq!(captured_bytes(Some(STEREO), CapturedBuffer { planes: 0, ..b }), None);
    assert_eq!(captured_bytes(Some(STEREO), CapturedBuffer { filled: 0, ..b }), None);
    assert_eq!(captured_bytes(Some(STEREO), CapturedBuffer { mapped: None, ..b }), None);
}

#[test]
fn a_changed_format_needs_a_new_resampler() {
    assert!(needs_resampler(None, STEREO));
    assert!(!needs_resampler(Some(STEREO), STEREO));
    assert!(needs_resampler(Some(AudioFormat { channels: 1, ..STEREO }), STEREO));
    assert!(needs_resampler(Some(AudioFormat { sample_rate: 44_100, ..STEREO }), STEREO));
}

#[test]
fn playback_buffers_are_planned() {
    let f = PlaybackFormat::stereo_48k();
    assert_eq!((f.sample_rate, f.channels, f.stride()), (48_000, 2, 8));
    assert_eq!(plan_frames(1030, f, STEREO), Some(FillPlan { samples: 256, stride: 8, size: 1024 }));
    let mono = AudioFormat { channels: 1, ..STEREO };
    assert_eq!(plan_frames(1030, f, mono), Some(FillPlan { samples: 128, stride: 8, size: 1024 }));
    assert_eq!(plan_frames(7, f, STEREO), None);
    assert_eq!(plan_frames(7, f, AudioFormat { channels: 0, ..STEREO }), None);
    assert!(fill_stops(0) && !fill_stops(1));
    assert_eq!(plan_samples(1030, f), Some(FillPlan { samples: 257, stride: 8, size: 1028 }));
    assert_eq!(plan_samples(3, f), None);
    assert_eq!(channel_layout(1), ChannelLayout::Mono);
    assert_eq!(channel_layout(2), ChannelLayout::Stereo);
    assert_eq!(channel_layout(6), ChannelLayout::Unknown);
    let named = PlaybackTarget::for_sink(Some("s".into()));
    assert_eq!(named.target_object(), Some("s".into()));
    assert_eq!(PlaybackTarget::for_sink(None).target_object(), None);
}

#[test]
fn the_ring_keeps_samples_in_order() {
    let (mut handle, mut feed) = player_ring(8);
    assert!(feed.drained(true));
    assert!(!feed.drained(false));
    assert_eq!(handle.push_pcm(&[1, 2, 3]), 0);
    assert!(!feed.drained(true));
    let mut out = [9u32; 2];
    assert_eq!(feed.render(&mut out), 2);
    assert_eq!(out, [1, 2]);
    // The rest of the ring takes seven; the last two find no room.
    assert_eq!(handle.push_pcm(&[4, 5, 6, 7, 8, 9, 10, 11, 12]), 2);
    let mut out = [99u32; 10];
    assert_eq!(feed.render(&mut out), 8);
    assert_eq!(out, [3, 4, 5, 6, 7, 8, 9, 10, 0, 0]);
    assert!(feed.drained(true));
    let mut out = [99u32; 3];
    assert_eq!(feed.render(&mut out), 0);
    assert_eq!(out, [0, 0, 0]);
}

#[test]
fn playback_helpers() {
    assert_eq!(read_limit(3, 5), 3);
    assert_eq!(read_limit(9, 5), 5);
    assert!(stops(true, true) && !stops(true, false) && !stops(false, true));
    let mut s = [1u32, 2, 3];
    silence_from(&mut s, 1);
    assert_eq!(s, [1, 0, 0]);
    silence_from(&mut s, 7);
    assert_eq!(s, [1, 0, 0]);
}
