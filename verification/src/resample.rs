//! The buffering around a resampler: interleaved samples become one channel,
//! which is fed to the resampler in chunks of a fixed size. What a sample is
//! does not matter here.

use vstd::prelude::*;
use vstd::slice::slice_subrange;

verus! {

/// How many samples of one channel the resampler takes at a time: 10 ms at 48 kHz.
pub const CHUNK_IN_FRAMES: usize = 480;

/// The rate that the resampler produces.
pub const OUT_RATE: u32 = 16_000;

/// The number of whole frames in interleaved samples.
pub open spec fn frames_in(samples: int, channels: int) -> int {
    samples / channels
}

/// The samples of a frame, one for each channel.
pub open spec fn frame<T>(samples: Seq<T>, channels: int, i: int) -> Seq<T> {
    samples.subrange(i * channels, (i + 1) * channels)
}

/// How many channels interleaved samples are taken to have: at least one.
pub open spec fn channel_count(channels: u16) -> int {
    if channels == 0 {
        1
    } else {
        channels as int
    }
}

/// Whether `mixed` is what `mix` may make of a frame.
pub open spec fn mixes_to<T, F: Fn(&[T]) -> T>(mix: F, frame: Seq<T>, mixed: T) -> bool {
    exists|f: &[T]| f@ == frame && call_ensures(mix, (f,), mixed)
}

/// Whether `mono` is one channel made of interleaved samples: of one channel
/// the samples themselves, of several a mixed sample for each whole frame.
pub open spec fn collapses_to<T, F: Fn(&[T]) -> T>(
    samples: Seq<T>,
    channels: u16,
    mix: F,
    mono: Seq<T>,
) -> bool {
    let ch = channel_count(channels);
    if ch == 1 {
        mono == samples
    } else {
        &&& mono.len() == frames_in(samples.len() as int, ch)
        &&& forall|i: int|
            0 <= i < mono.len() ==> mixes_to(mix, frame(samples, ch, i), #[trigger] mono[i])
    }
}

/// Makes one channel of interleaved samples; samples behind the last whole
/// frame are dropped.
pub fn collapse<T: Copy, F: Fn(&[T]) -> T>(samples: &[T], channels: u16, mix: F) -> (mono: Vec<T>)
    requires
        forall|f: &[T]| f@.len() == channel_count(channels) ==> call_requires(mix, (f,)),
    ensures
        collapses_to(samples@, channels, mix, mono@),
{
    let ch: usize = if channels == 0 {
        1
    } else {
        channels as usize
    };
    let mut mono: Vec<T> = Vec::new();
    let n: usize = samples.len();
    if ch == 1 {
        for i in 0..n
            invariant
                n == samples@.len(),
                mono@ == samples@.take(i as int),
        {
            mono.push(samples[i]);
            assert(mono@ =~= samples@.take(i + 1));
        }
        assert(mono@ =~= samples@);
        return mono;
    }
    let mut at: usize = 0;
    while n - at >= ch
        invariant
            n == samples@.len(),
            ch == channel_count(channels),
            ch > 1,
            at <= n,
            at == mono@.len() * ch,
            forall|f: &[T]| f@.len() == channel_count(channels) ==> call_requires(mix, (f,)),
            forall|i: int|
                0 <= i < mono@.len() ==> mixes_to(
                    mix,
                    frame(samples@, ch as int, i),
                    #[trigger] mono@[i],
                ),
        decreases n - at,
    {
        let f: &[T] = slice_subrange(samples, at, at + ch);
        let ghost before = mono@;
        let mixed: T = mix(f);
        mono.push(mixed);
        proof {
            let k = before.len() as int;
            assert((k + 1) * ch == k * ch + ch) by (nonlinear_arith);
            assert(f@ =~= frame(samples@, ch as int, k));
            assert(mixes_to(mix, frame(samples@, ch as int, k), mixed));
            assert(mono@.drop_last() =~= before);
            assert forall|i: int| 0 <= i < mono@.len() implies mixes_to(
                mix,
                frame(samples@, ch as int, i),
                #[trigger] mono@[i],
            ) by {
                if i < k {
                    assert(mono@[i] == before[i]);
                }
            }
        }
        at = at + ch;
    }
    proof {
        let k = mono@.len() as int;
        assert(k == n as int / ch as int) by (nonlinear_arith)
            requires
                at == k * ch,
                at <= n,
                n - at < ch,
                ch > 1,
        ;
    }
    mono
}

/// The frames of samples that come in two parts are those of the first part,
/// then those of the second, where the first ends with a whole frame.
pub proof fn frames_of_two_parts<T>(a: Seq<T>, b: Seq<T>, channels: int, i: int)
    requires
        channels > 0,
        a.len() as int % channels == 0,
        0 <= i < frames_in((a + b).len() as int, channels),
    ensures
        frames_in((a + b).len() as int, channels) == frames_in(a.len() as int, channels)
            + frames_in(b.len() as int, channels),
        frame(a + b, channels, i) == if i < frames_in(a.len() as int, channels) {
            frame(a, channels, i)
        } else {
            frame(b, channels, i - frames_in(a.len() as int, channels))
        },
{
    let k = frames_in(a.len() as int, channels);
    let m = frames_in(b.len() as int, channels);
    let la = a.len() as int;
    let lb = b.len() as int;
    assert(la == k * channels && m * channels <= lb < m * channels + channels) by (nonlinear_arith)
        requires
            channels > 0,
            la % channels == 0,
            k == la / channels,
            m == lb / channels,
    ;
    assert(k * channels + m * channels == (k + m) * channels) by (nonlinear_arith);
    assert((la + lb) / channels == k + m) by (nonlinear_arith)
        requires
            channels > 0,
            (k + m) * channels <= la + lb < (k + m) * channels + channels,
    ;
    assert((i + 1) * channels == i * channels + channels) by (nonlinear_arith);
    if i < k {
        assert(0 <= i * channels && (i + 1) * channels <= k * channels) by (nonlinear_arith)
            requires
                0 <= i < k,
                channels > 0,
        ;
        assert(frame(a + b, channels, i) =~= frame(a, channels, i));
    } else {
        let j = i - k;
        assert(j * channels + k * channels == i * channels && (j + 1) * channels == j * channels
            + channels) by (nonlinear_arith)
            requires
                j == i - k,
        ;
        assert(0 <= j * channels && (j + 1) * channels <= m * channels) by (nonlinear_arith)
            requires
                0 <= j < m,
                channels > 0,
        ;
        assert(frame(a + b, channels, i) =~= frame(b, channels, j));
    }
}

/// The number of whole chunks in `n` samples.
pub open spec fn chunks_in(n: int) -> int {
    n / CHUNK_IN_FRAMES as int
}

/// The whole chunks of samples, in their order.
pub open spec fn chunks<T>(samples: Seq<T>) -> Seq<Seq<T>> {
    Seq::new(
        chunks_in(samples.len() as int) as nat,
        |i: int| samples.subrange(i * CHUNK_IN_FRAMES, (i + 1) * CHUNK_IN_FRAMES),
    )
}

/// The samples behind the last whole chunk.
pub open spec fn behind_chunks<T>(samples: Seq<T>) -> Seq<T> {
    samples.skip(chunks_in(samples.len() as int) * CHUNK_IN_FRAMES)
}

/// The samples of one channel on their way to the resampler: whole chunks
/// leave at once, the rest waits for more.
pub struct ResampleState<T> {
    in_rate: u32,
    in_channels: u16,
    mono: Vec<T>,
}

/// What a [`ResampleState`] holds.
pub struct ResampleModel<T> {
    pub in_rate: u32,
    pub in_channels: u16,
    pub mono: Seq<T>,
}

impl<T> View for ResampleState<T> {
    type V = ResampleModel<T>;

    closed spec fn view(&self) -> ResampleModel<T> {
        ResampleModel { in_rate: self.in_rate, in_channels: self.in_channels, mono: self.mono@ }
    }
}

/// What leaves of the samples of one channel: all of them where the rate is
/// already right, else the whole chunks.
pub open spec fn leaving<T>(in_rate: u32, mono: Seq<T>) -> Seq<Seq<T>> {
    if in_rate == OUT_RATE {
        seq![mono]
    } else {
        chunks(mono)
    }
}

/// What waits of the samples of one channel.
pub open spec fn waiting<T>(in_rate: u32, mono: Seq<T>) -> Seq<T> {
    if in_rate == OUT_RATE {
        Seq::empty()
    } else {
        behind_chunks(mono)
    }
}

/// What a list of chunks is.
pub open spec fn chunks_view<T>(list: Seq<Vec<T>>) -> Seq<Seq<T>> {
    list.map_values(|v: Vec<T>| v@)
}

fn copy_range<T: Copy>(v: &Vec<T>, from: usize, to: usize) -> (r: Vec<T>)
    requires
        from <= to <= v@.len(),
    ensures
        r@ == v@.subrange(from as int, to as int),
{
    let mut r: Vec<T> = Vec::new();
    for i in from..to
        invariant
            to <= v@.len(),
            from <= i <= to,
            r@ == v@.subrange(from as int, i as int),
    {
        r.push(v[i]);
        assert(r@ =~= v@.subrange(from as int, i + 1));
    }
    r
}

impl<T: Copy> ResampleState<T> {
    /// The state for samples of the given rate and number of channels.
    pub fn new(in_rate: u32, in_channels: u16) -> (r: ResampleState<T>)
        ensures
            r@ == (ResampleModel { in_rate, in_channels, mono: Seq::<T>::empty() }),
    {
        ResampleState { in_rate, in_channels, mono: Vec::new() }
    }

    pub fn in_rate(&self) -> (r: u32)
        ensures
            r == self@.in_rate,
    {
        self.in_rate
    }

    pub fn in_channels(&self) -> (r: u16)
        ensures
            r == self@.in_channels,
    {
        self.in_channels
    }

    /// Whether the samples have the right rate already, so that they need no
    /// resampler.
    pub fn passes_through(&self) -> (r: bool)
        ensures
            r == (self@.in_rate == OUT_RATE),
    {
        self.in_rate == OUT_RATE
    }

    /// Takes interleaved samples in, and returns the chunks to resample.
    pub fn push<F: Fn(&[T]) -> T>(&mut self, samples: &[T], mix: F) -> (r: Vec<Vec<T>>)
        requires
            forall|f: &[T]|
                f@.len() == channel_count(old(self)@.in_channels) ==> call_requires(mix, (f,)),
        ensures
            exists|mono: Seq<T>| #[trigger]
                collapses_to(samples@, old(self)@.in_channels, mix, mono) && chunks_view(r@)
                    == leaving(old(self)@.in_rate, old(self)@.mono + mono) && final(self)@ == (
                ResampleModel {
                    mono: waiting(old(self)@.in_rate, old(self)@.mono + mono),
                    ..old(self)@
                }),
    {
        let mut more: Vec<T> = collapse(samples, self.in_channels, mix);
        let ghost mono = more@;
        let ghost before = self.mono@;
        self.mono.append(&mut more);
        let all: Vec<T> = copy_range(&self.mono, 0, self.mono.len());
        assert(all@ =~= before + mono);
        let mut out: Vec<Vec<T>> = Vec::new();
        if self.in_rate == OUT_RATE {
            self.mono = Vec::new();
            out.push(all);
            assert(chunks_view(out@) =~= seq![before + mono]);
            assert(self.mono@ =~= Seq::empty());
            assert(self@.mono =~= waiting(old(self)@.in_rate, before + mono));
            return out;
        }
        let mut at: usize = 0;
        let n: usize = all.len();
        assert(chunks_view(out@) =~= chunks(all@).take(0));
        while n - at >= CHUNK_IN_FRAMES
            invariant
                n == all@.len(),
                at <= n,
                at == out@.len() * CHUNK_IN_FRAMES,
                chunks_view(out@) == chunks(all@).take(out@.len() as int),
            decreases n - at,
        {
            let ghost old_out = out@;
            out.push(copy_range(&all, at, at + CHUNK_IN_FRAMES));
            at = at + CHUNK_IN_FRAMES;
            assert(chunks_view(out@) =~= chunks(all@).take(out@.len() as int)) by {
                assert(out@.drop_last() =~= old_out);
                assert(chunks_view(out@) =~= chunks_view(old_out).push(out@.last()@));
                assert(chunks(all@).take(out@.len() as int) =~= chunks(all@).take(
                    old_out.len() as int,
                ).push(chunks(all@)[old_out.len() as int]));
            }
        }
        self.mono = copy_range(&all, at, n);
        assert(chunks(all@).take(out@.len() as int) =~= chunks(all@));
        assert(self.mono@ =~= behind_chunks(all@));
        out
    }
}

/// Fewer samples wait than make a chunk.
pub proof fn less_than_a_chunk_waits<T>(in_rate: u32, mono: Seq<T>)
    ensures
        waiting(in_rate, mono).len() < CHUNK_IN_FRAMES,
{
}

/// Samples that arrive in two parts leave in the same chunks as in one, and
/// the same samples wait afterwards. So the resampler is fed the same however
/// the samples are split.
pub proof fn streamed_is_one_shot<T>(in_rate: u32, a: Seq<T>, b: Seq<T>)
    requires
        in_rate != OUT_RATE,
    ensures
        leaving(in_rate, a + b) == leaving(in_rate, a) + leaving(
            in_rate,
            waiting(in_rate, a) + b,
        ),
        waiting(in_rate, a + b) == waiting(in_rate, waiting(in_rate, a) + b),
{
    let rest = behind_chunks(a);
    let k = chunks_in(a.len() as int);
    assert((a + b).skip(k * CHUNK_IN_FRAMES) =~= rest + b);
    assert(chunks_in((a + b).len() as int) == k + chunks_in((rest + b).len() as int));
    let one = chunks(a + b);
    let two = chunks(a) + chunks(rest + b);
    assert forall|i: int| 0 <= i < one.len() implies #[trigger] one[i] =~= two[i] by {
        if i < k {
            assert(two[i] == chunks(a)[i]);
        } else {
            assert(two[i] == chunks(rest + b)[i - k]);
            assert((i - k) * CHUNK_IN_FRAMES + k * CHUNK_IN_FRAMES == i * CHUNK_IN_FRAMES);
        }
    }
    assert(one =~= two);
    assert(behind_chunks(a + b) =~= behind_chunks(rest + b));
}

/// Samples that arrive in parts, put together.
pub open spec fn together<T>(parts: Seq<Seq<T>>) -> Seq<T>
    decreases parts.len(),
{
    if parts.len() == 0 {
        Seq::empty()
    } else {
        together(parts.drop_last()) + parts.last()
    }
}

/// The samples of one channel that wait once they have arrived in parts.
pub open spec fn waiting_of_parts<T>(in_rate: u32, parts: Seq<Seq<T>>) -> Seq<T>
    decreases parts.len(),
{
    if parts.len() == 0 {
        Seq::empty()
    } else {
        waiting(in_rate, waiting_of_parts(in_rate, parts.drop_last()) + parts.last())
    }
}

/// The chunks that leave as samples of one channel arrive in parts.
pub open spec fn leaving_of_parts<T>(in_rate: u32, parts: Seq<Seq<T>>) -> Seq<Seq<T>>
    decreases parts.len(),
{
    if parts.len() == 0 {
        Seq::empty()
    } else {
        let before = parts.drop_last();
        leaving_of_parts(in_rate, before) + leaving(
            in_rate,
            waiting_of_parts(in_rate, before) + parts.last(),
        )
    }
}

/// The state of a resampler and all that it has put out, once it was fed
/// chunks one after the other. `feed` says what a chunk does to the state and
/// what is put out for it.
pub open spec fn resampled<S, T, U>(
    start: S,
    feed: spec_fn(S, Seq<T>) -> (S, Seq<U>),
    fed: Seq<Seq<T>>,
) -> (S, Seq<U>)
    decreases fed.len(),
{
    if fed.len() == 0 {
        (start, Seq::empty())
    } else {
        let (state, out) = resampled(start, feed, fed.drop_last());
        let (next, more) = feed(state, fed.last());
        (next, out + more)
    }
}

proof fn lemma_parts<T>(in_rate: u32, parts: Seq<Seq<T>>)
    requires
        in_rate != OUT_RATE,
    ensures
        leaving_of_parts(in_rate, parts) == leaving(in_rate, together(parts)),
        waiting_of_parts(in_rate, parts) == waiting(in_rate, together(parts)),
    decreases parts.len(),
{
    if parts.len() == 0 {
        assert(chunks(together(parts)) =~= Seq::empty());
        assert(behind_chunks(together(parts)) =~= Seq::empty());
    } else {
        lemma_parts(in_rate, parts.drop_last());
        streamed_is_one_shot(in_rate, together(parts.drop_last()), parts.last());
    }
}

/// The resampled samples are the same however the input is cut into parts, for
/// every resampler that starts anew and whose output is a function of the
/// chunks that it was fed; so their number is the same too.
pub proof fn resampled_however_cut<S, T, U>(
    in_rate: u32,
    parts: Seq<Seq<T>>,
    start: S,
    feed: spec_fn(S, Seq<T>) -> (S, Seq<U>),
)
    requires
        in_rate != OUT_RATE,
    ensures
        resampled(start, feed, leaving_of_parts(in_rate, parts)) == resampled(
            start,
            feed,
            leaving(in_rate, together(parts)),
        ),
        resampled(start, feed, leaving_of_parts(in_rate, parts)).1.len() == resampled(
            start,
            feed,
            leaving(in_rate, together(parts)),
        ).1.len(),
{
    lemma_parts(in_rate, parts);
}

/// Where the rate is already right, the samples that come out are the same
/// however the input is cut into parts: all of them, in their order, each
/// converted by itself.
pub proof fn passed_through_however_cut<T, U>(parts: Seq<Seq<T>>, convert: spec_fn(T) -> U)
    ensures
        together(leaving_of_parts(OUT_RATE, parts)) == together(parts),
        together(leaving_of_parts(OUT_RATE, parts)).map_values(convert) == together(
            leaving(OUT_RATE, together(parts)),
        ).map_values(convert),
        waiting_of_parts(OUT_RATE, parts).len() == 0,
    decreases parts.len(),
{
    let whole = together(parts);
    assert(leaving(OUT_RATE, whole).drop_last() =~= Seq::<Seq<T>>::empty());
    assert(together(leaving(OUT_RATE, whole)) =~= whole) by {
        reveal_with_fuel(together, 2);
    }
    if parts.len() > 0 {
        let before = parts.drop_last();
        passed_through_however_cut(before, convert);
        let past = leaving_of_parts(OUT_RATE, before);
        let last = waiting_of_parts(OUT_RATE, before) + parts.last();
        assert(last =~= parts.last());
        assert(past + leaving(OUT_RATE, last) =~= past.push(last));
        assert(past.push(last).drop_last() =~= past);
    }
}

/// Samples that pass through all leave, in their order, however they are split.
pub proof fn passing_through_keeps_all<T>(a: Seq<T>, b: Seq<T>)
    ensures
        leaving(OUT_RATE, a + b)[0] == leaving(OUT_RATE, a)[0] + leaving(
            OUT_RATE,
            waiting(OUT_RATE, a) + b,
        )[0],
{
    assert(waiting(OUT_RATE, a) + b =~= b);
}

/// How many samples to make room for in the output of a chunk: twice the
/// nominal number, and some more.
pub fn out_capacity(in_rate: u32) -> (r: usize)
    requires
        in_rate > 0,
    ensures
        r == if in_rate == OUT_RATE {
            CHUNK_IN_FRAMES as int
        } else {
            (CHUNK_IN_FRAMES * OUT_RATE / in_rate as int) * 2 + 32
        },
{
    if in_rate == OUT_RATE {
        CHUNK_IN_FRAMES
    } else {
        let nominal: usize = 7_680_000usize / in_rate as usize;
        assert(nominal <= 7_680_000) by (nonlinear_arith)
            requires
                nominal == 7_680_000usize / in_rate as usize,
                in_rate > 0,
        ;
        nominal * 2 + 32
    }
}

proof fn lemma_chunks_together<T>(samples: Seq<T>, n: int)
    requires
        0 <= n <= chunks(samples).len(),
    ensures
        together(chunks(samples).take(n)) == samples.take(n * CHUNK_IN_FRAMES),
    decreases n,
{
    let list = chunks(samples).take(n);
    if n == 0 {
        assert(list =~= Seq::empty());
        assert(samples.take(0) =~= Seq::empty());
    } else {
        lemma_chunks_together(samples, n - 1);
        assert(list.drop_last() =~= chunks(samples).take(n - 1));
        assert(list.last() == chunks(samples)[n - 1]);
        assert(samples.take((n - 1) * CHUNK_IN_FRAMES) + samples.subrange(
            (n - 1) * CHUNK_IN_FRAMES,
            n * CHUNK_IN_FRAMES,
        ) =~= samples.take(n * CHUNK_IN_FRAMES));
    }
}

/// No sample of one channel is lost, doubled or put out of order: what leaves,
/// chunk by chunk, and what waits behind it are the samples that waited before
/// and those that came in, made one channel. Where a resampler is needed, every chunk has the
/// same size and less than a chunk waits; else nothing does.
pub proof fn no_sample_is_lost<T: Copy, F: Fn(&[T]) -> T>(
    s: &mut ResampleState<T>,
    samples: &[T],
    mix: F,
    r: Vec<Vec<T>>,
)
    requires
        call_ensures(ResampleState::<T>::push::<F>, (s, samples, mix), r),
    ensures
        exists|mono: Seq<T>| #[trigger]
            collapses_to(samples@, old(s)@.in_channels, mix, mono) && together(chunks_view(r@))
                + final(s)@.mono == old(s)@.mono + mono,
        old(s)@.in_channels <= 1 ==> together(chunks_view(r@)) + final(s)@.mono == old(s)@.mono
            + samples@,
        final(s)@.in_rate == old(s)@.in_rate,
        final(s)@.in_channels == old(s)@.in_channels,
        old(s)@.in_rate == 16_000 ==> final(s)@.mono.len() == 0,
        old(s)@.in_rate != 16_000 ==> final(s)@.mono.len() < 480 && forall|i: int|
            0 <= i < chunks_view(r@).len() ==> (#[trigger] chunks_view(r@)[i]).len() == 480,
{
    let mono = choose|mono: Seq<T>| #[trigger]
        collapses_to(samples@, old(s)@.in_channels, mix, mono) && chunks_view(r@) == leaving(
            old(s)@.in_rate,
            old(s)@.mono + mono,
        ) && final(s)@ == (ResampleModel {
            mono: waiting(old(s)@.in_rate, old(s)@.mono + mono),
            ..old(s)@
        });
    let all = old(s)@.mono + mono;
    if old(s)@.in_rate == OUT_RATE {
        reveal_with_fuel(together, 2);
        assert(chunks_view(r@).drop_last() =~= Seq::empty());
        assert(together(chunks_view(r@)) =~= all);
        assert(together(chunks_view(r@)) + final(s)@.mono =~= all);
    } else {
        let n = chunks(all).len() as int;
        lemma_chunks_together(all, n);
        assert(chunks(all).take(n) =~= chunks(all));
        assert(together(chunks_view(r@)) + final(s)@.mono =~= all);
    }
}

/// Of several channels one is made, with a sample for each whole frame, mixed
/// from the samples of that frame and no others.
pub proof fn frames_are_mixed<T: Copy, F: Fn(&[T]) -> T>(
    samples: &[T],
    channels: u16,
    mix: F,
    mono: Vec<T>,
    i: int,
)
    requires
        call_ensures(collapse::<T, F>, (samples, channels, mix), mono),
        channels > 1,
        0 <= i < mono@.len(),
    ensures
        mono@.len() == samples@.len() / channels as nat,
        exists|f: &[T]| #[trigger]
            f@ == samples@.subrange(i * channels, (i + 1) * channels) && call_ensures(
                mix,
                (f,),
                mono@[i],
            ),
{
    assert(mixes_to(mix, frame(samples@, channels as int, i), mono@[i]));
}

/// There is room for twice the samples that a chunk makes at the rate of the
/// output, and the samples pass through exactly where they have that rate.
pub proof fn output_has_room<T: Copy>(
    in_rate: u32,
    room: usize,
    s: &ResampleState<T>,
    through: bool,
)
    requires
        call_ensures(out_capacity, (in_rate,), room),
        in_rate > 0,
        call_ensures(ResampleState::<T>::passes_through, (s,), through),
    ensures
        in_rate == 16_000 ==> room == 480,
        in_rate != 16_000 ==> room >= 2 * (7_680_000int / in_rate as int),
        through <==> s@.in_rate == 16_000,
{
}

} // verus!
