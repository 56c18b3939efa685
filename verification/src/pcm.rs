//! 16-bit PCM samples as bytes, and frames of interleaved samples.

use vstd::prelude::*;

verus! {

/// The two's complement of a sample, as a number below 2^16.
pub open spec fn sample_word(s: i16) -> int {
    if s >= 0 {
        s as int
    } else {
        s + 0x1_0000
    }
}

/// The samples in little-endian order: the low byte of each, then its high byte.
pub open spec fn le_bytes(samples: Seq<i16>) -> Seq<u8> {
    Seq::new(
        2 * samples.len(),
        |i: int|
            if i % 2 == 0 {
                (sample_word(samples[i / 2]) % 256) as u8
            } else {
                (sample_word(samples[i / 2]) / 256) as u8
            },
    )
}

/// The sample of a low and a high byte.
pub open spec fn sample_of(lo: u8, hi: u8) -> i16 {
    let w = lo + 256 * hi;
    if w < 0x8000 {
        w as i16
    } else {
        (w - 0x1_0000) as i16
    }
}

/// The samples of little-endian bytes; an odd byte at the end is left out.
pub open spec fn samples_of(bytes: Seq<u8>) -> Seq<i16> {
    Seq::new(bytes.len() / 2, |i: int| sample_of(bytes[2 * i], bytes[2 * i + 1]))
}

/// The samples as little-endian bytes.
pub fn i16_le_bytes(samples: &[i16]) -> (out: Vec<u8>)
    ensures
        out@ == le_bytes(samples@),
{
    let mut out: Vec<u8> = Vec::new();
    let n: usize = samples.len();
    for i in 0..n
        invariant
            n == samples@.len(),
            out@ == le_bytes(samples@.take(i as int)),
    {
        let s: i16 = samples[i];
        let w: u32 = if s >= 0 {
            s as u32
        } else {
            (s as i32 + 0x1_0000) as u32
        };
        out.push((w % 256) as u8);
        out.push((w / 256) as u8);
        assert(out@ =~= le_bytes(samples@.take(i + 1)));
    }
    assert(samples@.take(n as int) =~= samples@);
    out
}

/// The samples of little-endian bytes.
pub fn samples_from_le(bytes: &[u8]) -> (out: Vec<i16>)
    ensures
        out@ == samples_of(bytes@),
{
    let mut out: Vec<i16> = Vec::new();
    let n: usize = bytes.len() / 2;
    for i in 0..n
        invariant
            n == bytes.len() / 2,
            out@ == samples_of(bytes@).take(i as int),
    {
        let w: i32 = bytes[2 * i] as i32 + 256 * (bytes[2 * i + 1] as i32);
        let s: i16 = if w < 0x8000 {
            w as i16
        } else {
            (w - 0x1_0000) as i16
        };
        out.push(s);
        assert(out@ =~= samples_of(bytes@).take(i + 1));
    }
    assert(samples_of(bytes@).take(n as int) =~= samples_of(bytes@));
    out
}

/// Samples turned into bytes and back are the same samples.
pub proof fn bytes_round_trip(samples: Seq<i16>)
    ensures
        samples_of(le_bytes(samples)) == samples,
{
    assert forall|i: int| 0 <= i < samples.len() implies #[trigger] samples_of(le_bytes(samples))[i]
        == samples[i] by {
        let w = sample_word(samples[i]);
        assert((2 * i) / 2 == i && (2 * i + 1) / 2 == i);
        assert(w % 256 + 256 * (w / 256) == w);
    }
    assert(samples_of(le_bytes(samples)) =~= samples);
}

/// Each sample becomes two bytes, the low one first: together they are its
/// two's complement, and so two samples never share their bytes.
pub proof fn bytes_are_little_endian(samples: &[i16], bytes: Vec<u8>, i: int)
    requires
        call_ensures(i16_le_bytes, (samples,), bytes),
        0 <= i < samples@.len(),
    ensures
        bytes@.len() == 2 * samples@.len(),
        bytes@ == le_bytes(samples@),
        bytes@[2 * i] + 256 * bytes@[2 * i + 1] == if samples@[i] < 0 {
            samples@[i] + 65_536
        } else {
            samples@[i] as int
        },
{
    assert((2 * i) / 2 == i && (2 * i + 1) / 2 == i);
}

/// Bytes are read as samples, two at a time, the low one first; an odd byte at
/// the end is left out.
pub proof fn samples_are_little_endian(bytes: &[u8], samples: Vec<i16>, i: int)
    requires
        call_ensures(samples_from_le, (bytes,), samples),
        0 <= i < samples@.len(),
    ensures
        samples@.len() == bytes@.len() / 2,
        samples@ == samples_of(bytes@),
        bytes@[2 * i] + 256 * bytes@[2 * i + 1] == if samples@[i] < 0 {
            samples@[i] + 65_536
        } else {
            samples@[i] as int
        },
{
}

} // verus!
