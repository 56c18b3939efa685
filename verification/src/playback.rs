//! Audio playback: where it goes, in which format, and how much of a buffer
//! is filled.

use crate::capture::AudioFormat;
use crate::text::text_view;
use vstd::prelude::*;
use vstd::string::*;

verus! {

broadcast use vstd::string::group_string_axioms;

/// Where playback goes.
#[derive(Debug, Clone)]
pub enum PlaybackTarget {
    /// The default sink.
    Default,
    /// The node of this name, whatever its id, which can change.
    NodeName(String),
}

impl PlaybackTarget {
    /// The target for an optional sink name.
    pub fn for_sink(name: Option<String>) -> (r: PlaybackTarget)
        ensures
            r == match name {
                Some(n) => PlaybackTarget::NodeName(n),
                None => PlaybackTarget::Default,
            },
    {
        match name {
            Some(n) => PlaybackTarget::NodeName(n),
            None => PlaybackTarget::Default,
        }
    }

    /// The name of the object that a stream on this target asks for.
    pub fn target_object(&self) -> (r: Option<String>)
        ensures
            text_view(r) == match *self {
                PlaybackTarget::Default => None,
                PlaybackTarget::NodeName(name) => Some(name@),
            },
    {
        match self {
            PlaybackTarget::Default => None,
            PlaybackTarget::NodeName(name) => Some(name.clone()),
        }
    }
}

/// The format of playback, which is declared up front.
#[derive(Debug, Clone, Copy, PartialEq, Eq, Structural)]
pub struct PlaybackFormat {
    pub sample_rate: u32,
    pub channels: u16,
}

impl PlaybackFormat {
    /// Two channels at 48 kHz.
    pub fn stereo_48k() -> (r: PlaybackFormat)
        ensures
            r == (PlaybackFormat { sample_rate: 48_000, channels: 2 }),
    {
        PlaybackFormat { sample_rate: 48_000, channels: 2 }
    }

    /// The bytes of a frame: one 32-bit float for each channel.
    pub fn stride(&self) -> (r: usize)
        ensures
            r == self.channels * 4,
    {
        self.channels as usize * 4
    }
}

/// The layout of the channels of a stream.
#[derive(Debug, Clone, Copy, PartialEq, Eq, Structural)]
pub enum ChannelLayout {
    Mono,
    /// Front left and front right.
    Stereo,
    /// Left to the audio server.
    Unknown,
}

/// The layout that a number of channels has.
pub fn channel_layout(channels: u16) -> (r: ChannelLayout)
    ensures
        r == if channels == 1 {
            ChannelLayout::Mono
        } else if channels == 2 {
            ChannelLayout::Stereo
        } else {
            ChannelLayout::Unknown
        },
{
    if channels == 1 {
        ChannelLayout::Mono
    } else if channels == 2 {
        ChannelLayout::Stereo
    } else {
        ChannelLayout::Unknown
    }
}

/// How a playback buffer is filled and handed back.
#[derive(Debug, Clone, Copy, PartialEq, Eq, Structural)]
pub struct FillPlan {
    /// How many samples to ask for.
    pub samples: usize,
    /// The bytes of a frame.
    pub stride: i32,
    /// How many bytes are declared as written, silence included.
    pub size: u32,
}

/// The plan for a buffer of whole frames: all frames that fit are declared as
/// written, in the format that was asked for, and as many samples are asked
/// for as those frames have in the negotiated format.
pub open spec fn frame_plan(bytes: int, format: PlaybackFormat, negotiated: AudioFormat) -> FillPlan {
    let stride = format.channels * 4;
    FillPlan {
        samples: ((bytes / stride) * negotiated.channels) as usize,
        stride: stride as i32,
        size: ((bytes / stride) * stride % 0x1_0000_0000) as u32,
    }
}

/// How to fill a buffer of `bytes` bytes, if it has room for a frame.
pub fn plan_frames(bytes: usize, format: PlaybackFormat, negotiated: AudioFormat) -> (r: Option<
    FillPlan,
>)
    requires
        format.channels > 0,
        bytes as int / (format.channels * 4) > 0 ==> negotiated.channels > 0 && (bytes as int / (
        format.channels * 4)) * negotiated.channels * 4 <= bytes,
    ensures
        r == if bytes as int / (format.channels * 4) > 0 {
            Some(frame_plan(bytes as int, format, negotiated))
        } else {
            None
        },
{
    let stride: usize = format.stride();
    let frames: usize = bytes / stride;
    if frames == 0 {
        return None;
    }
    let ghost product = frames * negotiated.channels;
    assert(frames * stride <= bytes) by (nonlinear_arith)
        requires
            frames == bytes / stride,
            stride > 0,
    ;
    assert(0 <= product) by (nonlinear_arith)
        requires
            product == frames * negotiated.channels,
    ;
    let samples: usize = frames * negotiated.channels as usize;
    let size: u32 = ((frames * stride) as u64 % 0x1_0000_0000) as u32;
    Some(FillPlan { samples, stride: stride as i32, size })
}

/// Whether playback stops after a buffer that `written` samples were written
/// to: once there were none to write.
pub fn fill_stops(written: usize) -> (r: bool)
    ensures
        r == (written == 0),
{
    written == 0
}

/// The plan for a buffer of single samples: every sample that fits is filled.
pub fn plan_samples(bytes: usize, format: PlaybackFormat) -> (r: Option<FillPlan>)
    ensures
        r == if bytes / 4 > 0 {
            Some(
                FillPlan {
                    samples: bytes / 4,
                    stride: (format.channels * 4) as i32,
                    size: ((bytes / 4) * 4 % 0x1_0000_0000) as u32,
                },
            )
        } else {
            None
        },
{
    let samples: usize = bytes / 4;
    if samples == 0 {
        return None;
    }
    let size: u32 = ((samples * 4) as u64 % 0x1_0000_0000) as u32;
    Some(FillPlan { samples, stride: format.stride() as i32, size })
}

/// A sink name is the object that playback asks for; without one it goes to
/// the default sink.
pub proof fn playback_goes_to_the_named_sink(
    name: Option<String>,
    target: &PlaybackTarget,
    object: Option<String>,
)
    requires
        call_ensures(PlaybackTarget::for_sink, (name,), *target),
        call_ensures(PlaybackTarget::target_object, (target,), object),
    ensures
        text_view(object) == text_view(name),
{
}

/// What is declared as written fits into the buffer, is all of it but less than
/// a frame, and has as many samples as are asked for, where the format is the
/// negotiated one.
pub proof fn whole_frames_are_filled(
    bytes: usize,
    format: PlaybackFormat,
    negotiated: AudioFormat,
    r: Option<FillPlan>,
)
    requires
        call_ensures(plan_frames, (bytes, format, negotiated), r),
        format.channels > 0,
        negotiated.channels == format.channels,
        bytes <= u32::MAX,
    ensures
        r is Some <==> bytes >= format.channels * 4,
        r matches Some(plan) ==> {
            &&& plan.stride == format.channels * 4
            &&& plan.size <= bytes
            &&& bytes - plan.size < plan.stride
            &&& plan.samples * 4 == plan.size
        },
{
    let stride = format.channels * 4;
    let frames = bytes as int / stride;
    assert(0 <= frames && frames * stride <= bytes < frames * stride + stride) by (nonlinear_arith)
        requires
            stride > 0,
            frames == bytes as int / stride,
    ;
    assert(frames > 0 <==> bytes >= stride) by (nonlinear_arith)
        requires
            stride > 0,
            0 <= frames,
            frames * stride <= bytes < frames * stride + stride,
    ;
    assert(frames * format.channels * 4 == frames * stride) by (nonlinear_arith)
        requires
            stride == format.channels * 4,
    ;
    assert(0 <= frames * format.channels <= bytes) by (nonlinear_arith)
        requires
            0 <= frames,
            frames * format.channels * 4 <= bytes,
    ;
}

/// The same of a buffer of single samples; playback stops once there is nothing
/// to write.
pub proof fn every_sample_is_filled(
    bytes: usize,
    format: PlaybackFormat,
    r: Option<FillPlan>,
    written: usize,
    stops: bool,
)
    requires
        call_ensures(plan_samples, (bytes, format), r),
        call_ensures(fill_stops, (written,), stops),
        bytes <= u32::MAX,
    ensures
        r is Some <==> bytes >= 4,
        r matches Some(plan) ==> {
            &&& plan.samples * 4 == plan.size
            &&& plan.size <= bytes
            &&& bytes - plan.size < 4
            &&& plan.stride == format.channels * 4
        },
        stops <==> written == 0,
{
}

/// One channel is mono, two are stereo, and a frame has four bytes for each.
pub proof fn layouts_follow_the_channels(
    format: &PlaybackFormat,
    layout: ChannelLayout,
    stride: usize,
)
    requires
        call_ensures(channel_layout, (format.channels,), layout),
        call_ensures(PlaybackFormat::stride, (format,), stride),
    ensures
        layout == ChannelLayout::Mono <==> format.channels == 1,
        layout == ChannelLayout::Stereo <==> format.channels == 2,
        stride == 4 * format.channels,
{
}

} // verus!
