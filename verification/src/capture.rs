//! Audio capture: what is captured, and what a delivered buffer holds.

use vstd::prelude::*;

verus! {

/// A negotiated audio format. The samples are 32-bit floats, little-endian.
#[derive(Debug, Clone, Copy, PartialEq, Eq, Structural)]
pub struct AudioFormat {
    pub sample_rate: u32,
    pub channels: u16,
}

/// What to capture.
#[derive(Debug, Clone, Copy, PartialEq, Eq, Structural)]
pub enum CaptureTarget {
    /// The default source.
    Default,
    /// A node, by its id: a microphone, a virtual source or a sink.
    Node(u32),
    /// A sink, by its id: what it is playing.
    SinkMonitor(u32),
    /// What the default sink is playing.
    DefaultSinkMonitor,
}

impl CaptureTarget {
    /// Whether a stream on this target asks for what a sink is playing.
    pub fn captures_sink(&self) -> (r: bool)
        ensures
            r == (self is SinkMonitor || self is DefaultSinkMonitor),
    {
        match self {
            CaptureTarget::SinkMonitor(_) => true,
            CaptureTarget::DefaultSinkMonitor => true,
            _ => false,
        }
    }

    /// The node to connect to; none for the default ones.
    pub fn node_id(&self) -> (r: Option<u32>)
        ensures
            r == match *self {
                CaptureTarget::Default => None,
                CaptureTarget::DefaultSinkMonitor => None,
                CaptureTarget::Node(id) => Some(id),
                CaptureTarget::SinkMonitor(id) => Some(id),
            },
    {
        match self {
            CaptureTarget::Default => None,
            CaptureTarget::DefaultSinkMonitor => None,
            CaptureTarget::Node(id) => Some(*id),
            CaptureTarget::SinkMonitor(id) => Some(*id),
        }
    }
}

/// A parameter that a stream was told of.
#[derive(Debug, Clone, Copy, PartialEq, Eq)]
pub struct StreamParam {
    /// Whether it is the format parameter.
    pub is_format: bool,
    /// Whether it could be read as a format, of raw audio.
    pub is_raw_audio: bool,
    /// The rate and the number of channels, where they could be read.
    pub info: Option<(u32, u32)>,
}

/// The format that a parameter announces, if it announces one. The number of
/// channels is kept modulo 2^16.
pub fn announced_format(param: Option<StreamParam>) -> (r: Option<AudioFormat>)
    ensures
        r == match param {
            Some(p) => match p.info {
                Some((rate, channels)) => if p.is_format && p.is_raw_audio {
                    Some(
                        AudioFormat { sample_rate: rate, channels: (channels as int % 0x1_0000) as u16 },
                    )
                } else {
                    None
                },
                None => None,
            },
            None => None,
        },
{
    match param {
        None => None,
        Some(p) => {
            if !p.is_format || !p.is_raw_audio {
                return None;
            }
            match p.info {
                None => None,
                Some((rate, channels)) => {
                    Some(AudioFormat { sample_rate: rate, channels: (channels % 0x1_0000) as u16 })
                },
            }
        },
    }
}

/// A buffer that a capture stream delivered.
#[derive(Debug, Clone, Copy, PartialEq, Eq, Structural)]
pub struct CapturedBuffer {
    /// How many planes it has.
    pub planes: usize,
    /// How many bytes of the first plane are said to be filled.
    pub filled: u32,
    /// How many bytes of the first plane are mapped, if it is.
    pub mapped: Option<usize>,
}

/// How many bytes to read from the first plane of a buffer, and in which
/// format. Nothing is read before a format was negotiated, nor from a buffer
/// that has no plane, is not filled or is not mapped.
pub open spec fn readable(negotiated: Option<AudioFormat>, buffer: CapturedBuffer) -> Option<
    (AudioFormat, int),
> {
    match (negotiated, buffer.mapped) {
        (Some(format), Some(mapped)) => if buffer.planes > 0 && buffer.filled > 0 {
            Some(
                (
                    format,
                    if buffer.filled < mapped {
                        buffer.filled as int
                    } else {
                        mapped as int
                    },
                ),
            )
        } else {
            None
        },
        _ => None,
    }
}

/// How many bytes to read from the first plane of a buffer, and in which format.
pub fn captured_bytes(negotiated: Option<AudioFormat>, buffer: CapturedBuffer) -> (r: Option<
    (AudioFormat, usize),
>)
    ensures
        match r {
            Some((format, n)) => readable(negotiated, buffer) == Some((format, n as int)),
            None => readable(negotiated, buffer) is None,
        },
{
    if buffer.planes == 0 || buffer.filled == 0 {
        return None;
    }
    match (negotiated, buffer.mapped) {
        (Some(format), Some(mapped)) => {
            if (buffer.filled as u64) < mapped as u64 {
                Some((format, buffer.filled as usize))
            } else {
                Some((format, mapped))
            }
        },
        _ => None,
    }
}

/// Whether samples of the given format need a new resampler, where `current`
/// is the format of the present one.
pub fn needs_resampler(current: Option<AudioFormat>, format: AudioFormat) -> (r: bool)
    ensures
        r == (current != Some(format)),
{
    match current {
        None => true,
        Some(c) => c.sample_rate != format.sample_rate || c.channels != format.channels,
    }
}

/// How much of a buffer is read: as much as is filled, and no more than is
/// mapped, in the format that was negotiated; nothing before that, and nothing
/// of an empty buffer.
pub proof fn filled_part_is_read(
    negotiated: Option<AudioFormat>,
    buffer: CapturedBuffer,
    r: Option<(AudioFormat, usize)>,
)
    requires
        call_ensures(captured_bytes, (negotiated, buffer), r),
    ensures
        r is Some <==> negotiated is Some && buffer.mapped is Some && buffer.planes > 0
            && buffer.filled > 0,
        r matches Some((format, n)) ==> {
            &&& negotiated == Some(format)
            &&& n <= buffer.filled
            &&& n <= buffer.mapped->Some_0
            &&& n == buffer.filled || n == buffer.mapped->Some_0
        },
{
}

/// Which node a target connects to, and whether what it plays is captured
/// rather than what it records.
pub proof fn targets_name_their_node(
    target: &CaptureTarget,
    node: Option<u32>,
    sink: bool,
    id: u32,
)
    requires
        call_ensures(CaptureTarget::node_id, (target,), node),
        call_ensures(CaptureTarget::captures_sink, (target,), sink),
    ensures
        *target == CaptureTarget::Default ==> node is None && !sink,
        *target == CaptureTarget::Node(id) ==> node == Some(id) && !sink,
        *target == CaptureTarget::SinkMonitor(id) ==> node == Some(id) && sink,
        *target == CaptureTarget::DefaultSinkMonitor ==> node is None && sink,
{
}

/// A format is taken from the format parameter of raw audio where it tells one,
/// and from nothing else.
pub proof fn formats_are_announced(
    param: Option<StreamParam>,
    r: Option<AudioFormat>,
    rate: u32,
    channels: u16,
)
    requires
        call_ensures(announced_format, (param,), r),
    ensures
        r is Some <==> (param matches Some(p) && p.is_format && p.is_raw_audio && p.info is Some),
        (param matches Some(p) && p.is_format && p.is_raw_audio && p.info == Some(
            (rate, channels as u32),
        )) ==> r == Some(AudioFormat { sample_rate: rate, channels }),
{
}

/// A resampler is kept as long as the format stays the same.
pub proof fn resampler_is_kept_for_its_format(
    current: Option<AudioFormat>,
    format: AudioFormat,
    r: bool,
)
    requires
        call_ensures(needs_resampler, (current, format), r),
    ensures
        r <==> !(current matches Some(c) && c.sample_rate == format.sample_rate && c.channels
            == format.channels),
{
}

} // verus!
