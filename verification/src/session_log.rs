//! The session log: one line for each event of a session.

use crate::calendar::unix_to_iso8601;
use crate::text::pad_right;
use vstd::prelude::*;
use vstd::string::*;

verus! {

broadcast use vstd::string::group_string_axioms;

/// The track that a log line tells of.
#[derive(Debug, Clone, Copy, PartialEq, Eq, Structural)]
pub enum LogTrack {
    /// Outgoing: the user's microphone.
    Mic,
    /// Incoming: browser or system audio.
    Audio,
}

/// The label of a track in the log.
pub open spec fn track_label(track: LogTrack) -> Seq<char> {
    match track {
        LogTrack::Mic => "MIC"@,
        LogTrack::Audio => "AUDIO"@,
    }
}

impl LogTrack {
    /// The label of the track in the log.
    pub fn label(self) -> (r: &'static str)
        ensures
            r@ == track_label(self),
    {
        match self {
            LogTrack::Mic => "MIC",
            LogTrack::Audio => "AUDIO",
        }
    }
}

/// A log line: the time, the track, the kind of line and the text, in columns.
pub open spec fn line_text(secs: nat, track: LogTrack, kind: Seq<char>, text: Seq<char>) -> Seq<char> {
    "["@ + crate::calendar::iso8601_text(secs) + "] "@ + crate::text::padded_right(
        "["@ + track_label(track) + "]"@,
        7,
    ) + " "@ + crate::text::padded_right(kind, 8) + " "@ + text + "\n"@
}

/// A log line, for a time in seconds since 1970.
pub fn log_line(secs: u64, track: LogTrack, kind: &str, text: &str) -> (r: String)
    ensures
        r@ == line_text(secs as nat, track, kind@, text@),
{
    let mut label: String = "[".to_owned();
    label.append(track.label());
    label.append("]");
    let mut out: String = "[".to_owned();
    out.append(unix_to_iso8601(secs).as_str());
    out.append("] ");
    out.append(pad_right(label.as_str(), 7).as_str());
    out.append(" ");
    out.append(pad_right(kind, 8).as_str());
    out.append(" ");
    out.append(text);
    out.append("\n");
    out
}

/// The line for a live partial.
pub fn partial_line(secs: u64, track: LogTrack, text: &str) -> (r: String)
    ensures
        r@ == line_text(secs as nat, track, "PARTIAL"@, text@),
{
    log_line(secs, track, "PARTIAL", text)
}

/// The line for flushed source text, before its translation.
pub fn source_line(secs: u64, track: LogTrack, text: &str) -> (r: String)
    ensures
        r@ == line_text(secs as nat, track, "SOURCE"@, text@),
{
    log_line(secs, track, "SOURCE", text)
}

/// The line for a translation into the language `lang`.
pub fn translated_line(secs: u64, track: LogTrack, lang: &str, text: &str) -> (r: String)
    ensures
        r@ == line_text(secs as nat, track, lang@, text@),
{
    log_line(secs, track, lang, text)
}

/// The columns of a log line are aligned: up to the end of the year 9999, and
/// for a kind of at most eight characters, the time stands in the first 22
/// places, the track in places 23 to 29, the kind in places 31 to 38, and the
/// text from place 40 to the end of the line.
pub proof fn log_lines_are_aligned(
    secs: nat,
    track: LogTrack,
    kind: Seq<char>,
    text: Seq<char>,
)
    requires
        secs < crate::calendar::year_10000(),
        kind.len() <= 8,
    ensures
        ({
            let line = line_text(secs, track, kind, text);
            &&& line.subrange(0, 22) == "["@ + crate::calendar::iso8601_text(secs) + "]"@
            &&& line.subrange(23, 30) == crate::text::padded_right(
                "["@ + track_label(track) + "]"@,
                7,
            )
            &&& line.subrange(31, 39) == crate::text::padded_right(kind, 8)
            &&& line.subrange(40, line.len() - 1) == text
            &&& line.last() == '\n'
        }),
{
    crate::calendar::timestamps_have_one_width(secs);
    reveal_strlit("[");
    reveal_strlit("]");
    reveal_strlit("] ");
    reveal_strlit(" ");
    reveal_strlit("\n");
    reveal_strlit("MIC");
    reveal_strlit("AUDIO");
    let stamp = crate::calendar::iso8601_text(secs);
    let label = crate::text::padded_right("["@ + track_label(track) + "]"@, 7);
    let column = crate::text::padded_right(kind, 8);
    let line = line_text(secs, track, kind, text);
    assert(label.len() == 7);
    assert(column.len() == 8);
    assert(line.subrange(0, 22) =~= "["@ + stamp + "]"@);
    assert(line.subrange(23, 30) =~= label);
    assert(line.subrange(31, 39) =~= column);
    assert(line.subrange(40, line.len() - 1) =~= text);
}

/// The name of the log file of a session that starts at the given time.
pub fn log_file_name(secs: u64) -> (r: String)
    ensures
        r@ == crate::calendar::filename_text(secs as nat) + ".log"@,
{
    let mut out: String = crate::calendar::timestamp_filename(secs);
    out.append(".log");
    out
}

/// The lines of the log: the time, then the track as `[MIC]` or `[AUDIO]`, then
/// what the line is, then the text, to the end of the line.
pub proof fn log_lines_say_what_they_are(
    secs: u64,
    track: LogTrack,
    text: &str,
    lang: &str,
    partial: String,
    source: String,
    translated: String,
)
    requires
        call_ensures(partial_line, (secs, track, text), partial),
        call_ensures(source_line, (secs, track, text), source),
        call_ensures(translated_line, (secs, track, lang, text), translated),
        lang@.len() <= 8,
    ensures
        ({
            let head = "["@ + crate::calendar::iso8601_text(secs as nat) + "] "@ + (if track
                == LogTrack::Mic {
                "[MIC]   "@
            } else {
                "[AUDIO] "@
            });
            &&& partial@ == head + "PARTIAL  "@ + text@ + "\n"@
            &&& source@ == head + "SOURCE   "@ + text@ + "\n"@
            &&& translated@ == head + lang@ + Seq::new((9 - lang@.len()) as nat, |i: int| ' ')
                + text@ + "\n"@
        }),
{
    reveal_strlit("[");
    reveal_strlit("]");
    reveal_strlit(" ");
    reveal_strlit("MIC");
    reveal_strlit("AUDIO");
    reveal_strlit("[MIC]   ");
    reveal_strlit("[AUDIO] ");
    reveal_strlit("PARTIAL");
    reveal_strlit("PARTIAL  ");
    reveal_strlit("SOURCE");
    reveal_strlit("SOURCE   ");
    let stamp = "["@ + crate::calendar::iso8601_text(secs as nat) + "] "@;
    let label = if track == LogTrack::Mic {
        "[MIC]   "@
    } else {
        "[AUDIO] "@
    };
    assert(crate::text::padded_right("["@ + track_label(track) + "]"@, 7) + " "@ =~= label);
    assert(crate::text::padded_right("PARTIAL"@, 8) + " "@ =~= "PARTIAL  "@);
    assert(crate::text::padded_right("SOURCE"@, 8) + " "@ =~= "SOURCE   "@);
    let rest = Seq::new((9 - lang@.len()) as nat, |i: int| ' ');
    assert(crate::text::padded_right(lang@, 8) + " "@ =~= lang@ + rest);
    assert(partial@ =~= stamp + label + "PARTIAL  "@ + text@ + "\n"@);
    assert(source@ =~= stamp + label + "SOURCE   "@ + text@ + "\n"@);
    assert(translated@ =~= stamp + label + (lang@ + rest) + text@ + "\n"@);
    assert(translated@ =~= stamp + label + lang@ + rest + text@ + "\n"@);
}

/// The log file is named after the time at which its session starts.
pub proof fn log_file_is_named_after_its_start(secs: u64, time: String, name: String)
    requires
        call_ensures(crate::calendar::timestamp_filename, (secs,), time),
        call_ensures(log_file_name, (secs,), name),
    ensures
        name@ == time@ + ".log"@,
{
}

} // verus!
