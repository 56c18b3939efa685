//! The ring that carries samples from the task that receives them to the
//! playback thread. A sample is a 32-bit word, whose zero is silence.

use ringbuf::traits::{Consumer, Observer, Producer, Split};
use ringbuf::{HeapCons, HeapProd, HeapRb};
use vstd::prelude::*;

verus! {

/// The writing end of a ring: a `ringbuf::HeapProd`.
#[verifier::external_body]
pub struct RingWriter {
    inner: HeapProd<u32>,
}

/// The reading end of a ring: a `ringbuf::HeapCons`.
#[verifier::external_body]
pub struct RingReader {
    inner: HeapCons<u32>,
}

/// All samples that went in through a writing end, in their order.
pub uninterp spec fn written(w: RingWriter) -> Seq<u32>;

/// How many samples the ring of a writing end holds.
pub uninterp spec fn capacity(w: RingWriter) -> nat;

/// All samples that came out through a reading end, in their order.
pub uninterp spec fn taken(r: RingReader) -> Seq<u32>;

/// How many samples a reading end has found waiting in the ring and not taken
/// out since. More may be waiting: the end has not looked since they went in.
pub uninterp spec fn seen(r: RingReader) -> nat;

/// All samples that ever go through the ring of a writing end, in their order.
/// The end has written a first part of them.
pub uninterp spec fn stream_in(w: RingWriter) -> Seq<u32>;

/// All samples that ever go through the ring of a reading end, in their order.
/// The end has taken out a first part of them.
pub uninterp spec fn stream_out(r: RingReader) -> Seq<u32>;

/// `ringbuf::HeapRb::new` and `split`: the two ends of a new ring that holds
/// `size` samples; none has gone in, and none has come out. What goes in
/// through the one end comes out through the other. A ring of no samples, or
/// of more than can be allocated, is a panic.
#[verifier::external_body]
pub(crate) fn new_ring(size: usize) -> (r: (RingWriter, RingReader))
    requires
        0 < size,
        size * 4 <= isize::MAX,
    ensures
        written(r.0) == Seq::<u32>::empty(),
        capacity(r.0) == size,
        taken(r.1) == Seq::<u32>::empty(),
        seen(r.1) == 0,
        stream_in(r.0) == stream_out(r.1),
{
    let (writer, reader) = HeapRb::<u32>::new(size).split();
    (RingWriter { inner: writer }, RingReader { inner: reader })
}

/// `ringbuf::traits::Producer::push_slice`: the first samples go in, as many
/// as there is room for; the result counts them. That some are left over
/// means that the ring is full, so at least its capacity has gone in so far.
/// How many fit is not stated otherwise: the reading end may make room at any
/// time.
#[verifier::external_body]
pub(crate) fn push_slice(w: &mut RingWriter, samples: &[u32]) -> (n: usize)
    ensures
        n <= samples@.len(),
        written(*final(w)) == written(*old(w)) + samples@.take(n as int),
        capacity(*final(w)) == capacity(*old(w)),
        n < samples@.len() ==> written(*final(w)).len() >= capacity(*old(w)),
        stream_in(*final(w)) == stream_in(*old(w)),
        written(*final(w)).is_prefix_of(stream_in(*final(w))),
{
    w.inner.push_slice(samples)
}

/// `ringbuf::traits::Observer::occupied_len`: how many samples are in the
/// ring. None but the reading end takes samples out, so those that it has
/// seen are among them. How many more there are is not stated: that is up to
/// the thread that holds the writing end.
#[verifier::external_body]
pub(crate) fn occupied_len(r: &mut RingReader) -> (n: usize)
    ensures
        n >= seen(*old(r)),
        seen(*final(r)) == n,
        taken(*final(r)) == taken(*old(r)),
        stream_out(*final(r)) == stream_out(*old(r)),
{
    r.inner.occupied_len()
}

/// `ringbuf::traits::Consumer::pop_slice` on the first `limit` places of
/// `out`: samples come out into the first places, and the result counts them;
/// the places behind them stay as they are. They are the next ones that went
/// in through the writing end. Those that the reading end has seen come out
/// as far as there are places. How many more come out is not stated: that is
/// up to the thread that holds the writing end.
#[verifier::external_body]
pub(crate) fn pop_slice(r: &mut RingReader, out: &mut [u32], limit: usize) -> (n: usize)
    requires
        limit <= old(out)@.len(),
    ensures
        n <= limit,
        n < limit ==> n >= seen(*old(r)),
        final(out)@.len() == old(out)@.len(),
        final(out)@.skip(n as int) == old(out)@.skip(n as int),
        taken(*final(r)) == taken(*old(r)) + final(out)@.take(n as int),
        seen(*final(r)) == if seen(*old(r)) > n {
            seen(*old(r)) - n
        } else {
            0
        },
        stream_out(*final(r)) == stream_out(*old(r)),
        taken(*final(r)).is_prefix_of(stream_out(*final(r))),
{
    r.inner.pop_slice(&mut out[..limit])
}

/// `ringbuf::traits::Observer::is_empty`: whether the ring holds no sample. It
/// is not empty as long as the reading end has seen a sample; where it is not
/// empty, the reading end has now seen one. When else it is empty is not
/// stated: that is up to the thread that holds the writing end.
#[verifier::external_body]
pub(crate) fn is_empty(r: &mut RingReader) -> (b: bool)
    ensures
        seen(*old(r)) > 0 ==> !b,
        seen(*final(r)) == if b {
            0
        } else if seen(*old(r)) > 0 {
            seen(*old(r))
        } else {
            1
        },
        taken(*final(r)) == taken(*old(r)),
        stream_out(*final(r)) == stream_out(*old(r)),
{
    r.inner.is_empty()
}

/// The producer's handle on a streaming player.
pub struct StreamingPlayerHandle {
    pub writer: RingWriter,
}

/// The player's side of the ring.
pub struct PlayerFeed {
    pub reader: RingReader,
}

/// The two sides of a player whose ring holds `ring_capacity` samples.
pub fn player_ring(ring_capacity: usize) -> (r: (StreamingPlayerHandle, PlayerFeed))
    requires
        0 < ring_capacity,
        ring_capacity * 4 <= isize::MAX,
    ensures
        written(r.0.writer) == Seq::<u32>::empty(),
        capacity(r.0.writer) == ring_capacity,
        taken(r.1.reader) == Seq::<u32>::empty(),
        seen(r.1.reader) == 0,
        stream_in(r.0.writer) == stream_out(r.1.reader),
{
    let (writer, reader) = new_ring(ring_capacity);
    (StreamingPlayerHandle { writer }, PlayerFeed { reader })
}

impl StreamingPlayerHandle {
    /// Hands samples to the player without waiting: those that find no room
    /// are dropped, from the end, and the result counts them.
    pub fn push_pcm(&mut self, samples: &[u32]) -> (dropped: usize)
        ensures
            dropped <= samples@.len(),
            written(final(self).writer) == written(old(self).writer) + samples@.take(
                samples@.len() - dropped,
            ),
            capacity(final(self).writer) == capacity(old(self).writer),
            dropped > 0 ==> written(final(self).writer).len() >= capacity(old(self).writer),
            stream_in(final(self).writer) == stream_in(old(self).writer),
            written(final(self).writer).is_prefix_of(stream_in(final(self).writer)),
    {
        let pushed: usize = push_slice(&mut self.writer, samples);
        samples.len() - pushed
    }
}

/// Whether the samples behind the first `read` are silence.
pub open spec fn silent_from(samples: Seq<u32>, read: int) -> bool {
    forall|i: int| read <= i < samples.len() ==> #[trigger] samples[i] == 0
}

/// Silences the samples behind the first `from`.
pub fn silence_from(samples: &mut [u32], from: usize)
    ensures
        final(samples)@.len() == old(samples)@.len(),
        forall|i: int|
            0 <= i < old(samples)@.len() ==> #[trigger] final(samples)@[i] == if i < from {
                old(samples)@[i]
            } else {
                0
            },
{
    let n: usize = samples.len();
    let mut i: usize = from;
    let ghost before = samples@;
    while i < n
        invariant
            n == samples@.len(),
            n == before.len(),
            from <= i,
            forall|j: int|
                0 <= j < n ==> #[trigger] samples@[j] == if from <= j < i {
                    0
                } else {
                    before[j]
                },
        decreases n - i,
    {
        samples[i] = 0;
        i = i + 1;
    }
}

/// How many of the waiting samples are read into a buffer with `places` places.
pub fn read_limit(waiting: usize, places: usize) -> (r: usize)
    ensures
        r == if waiting < places {
            waiting
        } else {
            places
        },
{
    if waiting < places {
        waiting
    } else {
        places
    }
}

impl PlayerFeed {
    /// Fills `out` with the samples that are waiting, and with silence behind
    /// them. The result counts the samples.
    pub fn render(&mut self, out: &mut [u32]) -> (read: usize)
        ensures
            read <= old(out)@.len(),
            final(out)@.len() == old(out)@.len(),
            taken(final(self).reader) == taken(old(self).reader) + final(out)@.take(read as int),
            silent_from(final(out)@, read as int),
            read < old(out)@.len() ==> read >= seen(old(self).reader) && seen(final(self).reader)
                == 0,
            stream_out(final(self).reader) == stream_out(old(self).reader),
            taken(final(self).reader).is_prefix_of(stream_out(final(self).reader)),
    {
        let waiting: usize = occupied_len(&mut self.reader);
        let limit: usize = read_limit(waiting, out.len());
        let read: usize = pop_slice(&mut self.reader, out, limit);
        let ghost popped = out@.take(read as int);
        silence_from(out, read);
        assert(out@.take(read as int) =~= popped);
        read
    }

    /// Whether the player is to stop, where `done` says whether the producer
    /// has finished: once it has, and no sample is waiting. As long as it goes
    /// on after that, a sample has been seen, which the next buffer takes.
    pub fn drained(&mut self, done: bool) -> (r: bool)
        ensures
            r ==> done && seen(old(self).reader) == 0 && seen(final(self).reader) == 0,
            done && !r ==> seen(final(self).reader) > 0,
            seen(final(self).reader) >= seen(old(self).reader),
            taken(final(self).reader) == taken(old(self).reader),
            stream_out(final(self).reader) == stream_out(old(self).reader),
    {
        stops(done, is_empty(&mut self.reader))
    }
}

/// The player plays what the producer pushed, in its order: of the two ends of
/// one ring, each sample that was taken out is the one that went in at its
/// place, as far as it has been written.
pub proof fn pushed_samples_are_played_in_order(w: RingWriter, r: RingReader, i: int)
    requires
        stream_in(w) == stream_out(r),
        written(w).is_prefix_of(stream_in(w)),
        taken(r).is_prefix_of(stream_out(r)),
        0 <= i < taken(r).len(),
        i < written(w).len(),
    ensures
        taken(r)[i] == written(w)[i],
{
    assert(written(w)[i] == stream_in(w)[i]);
    assert(taken(r)[i] == stream_out(r)[i]);
}

/// Whether the player is to stop, where `empty` says that no sample is waiting.
pub fn stops(done: bool, empty: bool) -> (r: bool)
    ensures
        r == (done && empty),
{
    done && empty
}

/// What finds no room is dropped from the end: the samples that went in are
/// the first ones, in their order, and with those dropped they are all. Only
/// a full ring drops any.
pub proof fn first_samples_go_in(h: &mut StreamingPlayerHandle, samples: &[u32], dropped: usize)
    requires
        call_ensures(StreamingPlayerHandle::push_pcm, (h, samples), dropped),
    ensures
        dropped <= samples@.len(),
        written(final(h).writer).len() == written(old(h).writer).len() + samples@.len() - dropped,
        forall|i: int|
            0 <= i < samples@.len() - dropped ==> #[trigger] samples@[i] == written(
                final(h).writer,
            )[written(old(h).writer).len() + i],
        dropped > 0 ==> written(final(h).writer).len() >= capacity(old(h).writer),
{
}

/// What is played is what was taken out of the ring, in its order, and silence
/// behind it; all that was known to wait is played, as far as there is room.
pub proof fn waiting_samples_are_played(f: &mut PlayerFeed, out: &mut [u32], read: usize)
    requires
        call_ensures(PlayerFeed::render, (f, out), read),
    ensures
        read <= old(out)@.len(),
        final(out)@.len() == old(out)@.len(),
        taken(final(f).reader).len() == taken(old(f).reader).len() + read,
        forall|i: int|
            0 <= i < read ==> #[trigger] final(out)@[i] == taken(final(f).reader)[taken(
                old(f).reader,
            ).len() + i],
        forall|i: int| read <= i < final(out)@.len() ==> #[trigger] final(out)@[i] == 0,
        read < old(out)@.len() ==> read >= seen(old(f).reader),
{
}

/// The player stops only once the producer is done and nothing waits; while
/// the producer goes on, it never does.
pub proof fn player_stops_when_drained(f: &mut PlayerFeed, done: bool, r: bool)
    requires
        call_ensures(PlayerFeed::drained, (f, done), r),
    ensures
        !done ==> !r,
        seen(old(f).reader) > 0 ==> !r,
        done && !r ==> seen(final(f).reader) > 0,
        taken(final(f).reader) == taken(old(f).reader),
{
}

/// Silence stands behind the first samples, which stay as they are; and no more
/// samples are read than wait or than there are places.
pub proof fn silence_stands_behind(
    samples: &mut [u32],
    from: usize,
    waiting: usize,
    places: usize,
    limit: usize,
)
    requires
        call_ensures(silence_from, (samples, from), ()),
        call_ensures(read_limit, (waiting, places), limit),
    ensures
        final(samples)@.len() == old(samples)@.len(),
        forall|i: int|
            0 <= i < old(samples)@.len() && i < from ==> #[trigger] final(samples)@[i]
                == old(samples)@[i],
        forall|i: int| from <= i < old(samples)@.len() ==> #[trigger] final(samples)@[i] == 0,
        limit <= waiting && limit <= places,
        limit == waiting || limit == places,
{
}

} // verus!
