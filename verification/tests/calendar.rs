use realtime_translation::calendar::{timestamp_filename, ts, unix_decompose, unix_to_iso8601, zero_pad};
use realtime_translation::session_log::{
    log_file_name, log_line, partial_line, source_line, translated_line, LogTrack,
};

#[test]
fn known_dates() {
    assert_eq!(unix_decompose(0), (1970, 1, 1, 0, 0, 0));
    assert_eq!(unix_decompose(951_782_399), (2000, 2, 28, 23, 59, 59));
    assert_eq!(unix_decompose(951_782_400), (2000, 2, 29, 0, 0, 0));
    assert_eq!(unix_decompose(4_107_542_400), (2100, 3, 1, 0, 0, 0));
    assert_eq!(unix_to_iso8601(1_777_217_401), "2026-04-26T15:30:01Z");
    assert_eq!(timestamp_filename(1_777_217_401), "2026-04-26_15-30-01");
    assert_eq!(unix_to_iso8601(253_402_300_799), "9999-12-31T23:59:59Z");
    assert_eq!(unix_to_iso8601(253_402_300_800), "10000-01-01T00:00:00Z");
}

#[test]
fn days_follow_each_other() {
    let mut last = (1969, 12, 31);
    for day in 0..40_000u64 {
        let (y, m, d, h, mi, s) = unix_decompose(day * 86_400);
        assert!((y, m, d) > last, "{y}-{m}-{d}");
        assert_eq!((h, mi, s), (0, 0, 0));
        last = (y, m, d);
    }
    assert_eq!(last, (2079, 7, 7));
}

#[test]
fn clock_times_have_milliseconds() {
    assert_eq!(ts(0), "00:00:00.000");
    assert_eq!(ts(1_777_217_401_042), "15:30:01.042");
    assert_eq!(ts(86_399_999), "23:59:59.999");
    assert_eq!(zero_pad(7, 3), "007");
    assert_eq!(zero_pad(12345, 3), "12345");
}

#[test]
fn log_lines_have_columns() {
    let secs = 1_777_217_401;
    assert_eq!(
        partial_line(secs, LogTrack::Mic, "hello there"),
        "[2026-04-26T15:30:01Z] [MIC]   PARTIAL  hello there\n"
    );
    assert_eq!(
        source_line(secs + 1, LogTrack::Mic, "hello there, friend."),
        "[2026-04-26T15:30:02Z] [MIC]   SOURCE   hello there, friend.\n"
    );
    assert_eq!(
        translated_line(secs + 1, LogTrack::Mic, "DE", "Hallo, Freund."),
        "[2026-04-26T15:30:02Z] [MIC]   DE       Hallo, Freund.\n"
    );
    assert_eq!(
        partial_line(secs + 4, LogTrack::Audio, "gut morgen"),
        "[2026-04-26T15:30:05Z] [AUDIO] PARTIAL  gut morgen\n"
    );
    assert_eq!(
        translated_line(secs + 6, LogTrack::Audio, "EN", "Good morning..."),
        "[2026-04-26T15:30:07Z] [AUDIO] EN       Good morning...\n"
    );
    assert_eq!(&log_line(0, LogTrack::Audio, "X", "text")[40..], "text\n");
    assert_eq!(LogTrack::Mic.label(), "MIC");
    assert_eq!(log_file_name(secs), "2026-04-26_15-30-01.log");
}

#[test]
fn file_names_differ_from_second_to_second() {
    let mut last = String::new();
    for secs in (951_782_390..951_782_410).chain(253_402_300_790..253_402_300_810) {
        let name = log_file_name(secs);
        assert_ne!(name, last);
        last = name;
    }
    assert_eq!(last, "10000-01-01_00-00-09.log");
}
