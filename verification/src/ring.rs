//! The two ends of a lock-free sample ring (`ringbuf`).
//!
//! One thread writes, another reads, and neither waits. Each end's view of the
//! queue is what it knew to be queued after its own last operation: since then the
//! reader may have taken samples off the front, or the writer added some at the
//! back. The contracts say what an operation does whatever the other end did in
//! the meantime.

use crate::audio::silence;
use ringbuf::traits::{Consumer, Observer, Producer, Split};
use ringbuf::{HeapCons, HeapProd, HeapRb};
use vstd::prelude::*;

verus! {

/// A ring whose two ends have not been handed out yet.
#[verifier::external_body]
pub struct Ring {
    inner: HeapRb<u32>,
}

/// The write end of a ring.
#[verifier::external_body]
pub struct RingProducer {
    inner: HeapProd<u32>,
}

/// The read end of a ring.
#[verifier::external_body]
pub struct RingConsumer {
    inner: HeapCons<u32>,
}

/// The most samples a ring can hold.
pub uninterp spec fn ring_limit(ring: Ring) -> nat;

/// The samples the write end knew to be queued after its last operation, oldest first.
pub uninterp spec fn producer_queue(end: RingProducer) -> Seq<u32>;

/// The most samples the write end's ring can hold.
pub uninterp spec fn producer_limit(end: RingProducer) -> nat;

/// The samples the read end knew to be queued after its last operation, oldest first.
pub uninterp spec fn consumer_queue(end: RingConsumer) -> Seq<u32>;

/// The most samples the read end's ring can hold.
pub uninterp spec fn consumer_limit(end: RingConsumer) -> nat;

/// Which ring this is. The two ends of a ring share its identity.
pub uninterp spec fn ring_id(ring: Ring) -> int;

/// Which ring the write end belongs to.
pub uninterp spec fn producer_ring(end: RingProducer) -> int;

/// Which ring the read end belongs to.
pub uninterp spec fn consumer_ring(end: RingConsumer) -> int;

/// How many samples have gone in at the write end.
pub uninterp spec fn producer_position(end: RingProducer) -> nat;

/// How many samples have come out at the read end.
pub uninterp spec fn consumer_position(end: RingConsumer) -> nat;

/// The sample a ring carries at a position, counted from the first that ever went in.
/// A ring is first in, first out, so over its life it carries one sequence of samples:
/// the write end supplies it and the read end gets it.
pub uninterp spec fn carried(ring: int, position: int) -> u32;

/// Whether a ring carries `samples` from a position on.
pub open spec fn carries(ring: int, position: nat, samples: Seq<u32>) -> bool {
    forall|i: int| 0 <= i < samples.len() ==> carried(ring, position + i) == #[trigger] samples[i]
}

/// One end's knowledge of its ring.
#[verifier::ext_equal]
pub struct RingState {
    pub ring: int,
    /// Samples that have passed this end.
    pub position: nat,
    pub queue: Seq<u32>,
    pub limit: nat,
}

/// The largest ring that can be made: its storage must be addressable.
pub open spec fn max_ring() -> int {
    usize::MAX as int / 8
}

/// A push of `elems` onto a queue of which the reader had first taken the oldest
/// `taken`: as many samples go in as there is room for, from the front of `elems`.
pub open spec fn push_effect(
    before: Seq<u32>,
    limit: nat,
    taken: int,
    elems: Seq<u32>,
    pushed: int,
    after: Seq<u32>,
) -> bool {
    let room = limit - (before.len() - taken);
    &&& 0 <= taken <= before.len()
    &&& 0 <= room
    &&& pushed == if elems.len() <= room {
        elems.len() as int
    } else {
        room
    }
    &&& after == before.skip(taken) + elems.take(pushed)
}

/// A pop from a queue at the back of which the writer had first added `arrived`:
/// as many samples come out as there are and as are asked for, oldest first.
pub open spec fn pop_effect(
    before: Seq<u32>,
    limit: nat,
    arrived: Seq<u32>,
    wanted: int,
    popped: Seq<u32>,
    after: Seq<u32>,
) -> bool {
    let available = before + arrived;
    &&& available.len() <= limit
    &&& popped.len() == if available.len() <= wanted {
        available.len() as int
    } else {
        wanted
    }
    &&& popped == available.take(popped.len() as int)
    &&& after == available.skip(popped.len() as int)
}

/// `HeapRb::new`: an empty ring that holds exactly `capacity` samples. It panics on
/// a capacity of zero.
#[verifier::external_body]
pub(crate) fn ring_new(capacity: usize) -> (ring: Ring)
    requires
        0 < capacity <= max_ring(),
    ensures
        ring_limit(ring) == capacity,
{
    Ring { inner: HeapRb::new(capacity) }
}

/// `Split::split`: hand out the two ends of a ring, which nothing has passed yet. Both
/// are ends of that ring.
#[verifier::external_body]
pub(crate) fn ring_split(ring: Ring) -> (ends: (RingProducer, RingConsumer))
    ensures
        producer_ring(ends.0) == ring_id(ring),
        consumer_ring(ends.1) == ring_id(ring),
        producer_position(ends.0) == 0,
        consumer_position(ends.1) == 0,
        producer_queue(ends.0) == Seq::<u32>::empty(),
        producer_limit(ends.0) == ring_limit(ring),
        consumer_queue(ends.1) == Seq::<u32>::empty(),
        consumer_limit(ends.1) == ring_limit(ring),
{
    let (producer, consumer) = ring.inner.split();
    (RingProducer { inner: producer }, RingConsumer { inner: consumer })
}

/// `Producer::push_slice`: append as much of the front of `elems` as fits, and say
/// how many samples that was. How much fits depends on what the reader has taken. What
/// went in is what the ring carries next.
#[verifier::external_body]
pub(crate) fn ring_push(end: &mut RingProducer, elems: &[u32]) -> (pushed: usize)
    ensures
        producer_ring(*final(end)) == producer_ring(*old(end)),
        producer_limit(*final(end)) == producer_limit(*old(end)),
        producer_position(*final(end)) == producer_position(*old(end)) + pushed,
        forall|i: int|
            0 <= i < pushed ==> carried(
                producer_ring(*old(end)),
                producer_position(*old(end)) + i,
            ) == #[trigger] elems@[i],
        exists|taken: int| #[trigger]
            push_effect(
                producer_queue(*old(end)),
                producer_limit(*old(end)),
                taken,
                elems@,
                pushed as int,
                producer_queue(*final(end)),
            ),
{
    end.inner.push_slice(elems)
}

/// `Observer::occupied_len`, called on the write end: how many samples are queued. The
/// write end fetches how far the reader is, and from then on knows exactly so many to be
/// queued; the reader may have taken some of those it knew of before, and nobody else
/// adds any. How many the reader has taken is left open.
#[verifier::external_body]
pub(crate) fn ring_occupied(end: &mut RingProducer) -> (occupied: usize)
    ensures
        producer_ring(*final(end)) == producer_ring(*old(end)),
        producer_limit(*final(end)) == producer_limit(*old(end)),
        producer_position(*final(end)) == producer_position(*old(end)),
        exists|taken: int|
            0 <= taken <= producer_queue(*old(end)).len() && producer_queue(*final(end))
                == #[trigger] producer_queue(*old(end)).skip(taken),
        occupied == producer_queue(*final(end)).len(),
{
    end.inner.occupied_len()
}

/// `Consumer::pop_slice`: move the oldest samples into the front of `elems`, as
/// many as there are and as fit, and say how many that was. How many there are
/// depends on what the writer has added. They are what the ring carries next.
#[verifier::external_body]
pub(crate) fn ring_pop(end: &mut RingConsumer, elems: &mut [u32]) -> (popped: usize)
    ensures
        consumer_ring(*final(end)) == consumer_ring(*old(end)),
        consumer_limit(*final(end)) == consumer_limit(*old(end)),
        consumer_position(*final(end)) == consumer_position(*old(end)) + popped,
        forall|i: int|
            0 <= i < popped ==> carried(
                consumer_ring(*old(end)),
                consumer_position(*old(end)) + i,
            ) == #[trigger] final(elems)@[i],
        popped <= old(elems)@.len(),
        final(elems)@.len() == old(elems)@.len(),
        final(elems)@.skip(popped as int) == old(elems)@.skip(popped as int),
        exists|arrived: Seq<u32>| #[trigger]
            pop_effect(
                consumer_queue(*old(end)),
                consumer_limit(*old(end)),
                arrived,
                old(elems)@.len() as int,
                final(elems)@.take(popped as int),
                consumer_queue(*final(end)),
            ),
{
    end.inner.pop_slice(elems)
}

/// Take up to `wanted` samples off a ring, oldest first.
pub(crate) fn ring_take(end: &mut RingConsumer, wanted: usize) -> (popped: Vec<u32>)
    ensures
        consumer_ring(*final(end)) == consumer_ring(*old(end)),
        consumer_limit(*final(end)) == consumer_limit(*old(end)),
        consumer_position(*final(end)) == consumer_position(*old(end)) + popped@.len(),
        carries(consumer_ring(*old(end)), consumer_position(*old(end)), popped@),
        exists|arrived: Seq<u32>| #[trigger]
            pop_effect(
                consumer_queue(*old(end)),
                consumer_limit(*old(end)),
                arrived,
                wanted as int,
                popped@,
                consumer_queue(*final(end)),
            ),
{
    let mut samples: Vec<u32> = silence(wanted);
    let n: usize = ring_pop(end, samples.as_mut_slice());
    samples.truncate(n);
    samples
}

/// Samples leave a ring in the order in which they went in, and none is lost in it.
pub proof fn popping_keeps_order(
    before: Seq<u32>,
    limit: nat,
    arrived: Seq<u32>,
    wanted: int,
    popped: Seq<u32>,
    after: Seq<u32>,
)
    requires
        pop_effect(before, limit, arrived, wanted, popped, after),
        0 <= wanted,
    ensures
        popped + after == before + arrived,
        popped.len() <= wanted,
        popped.len() < wanted ==> after.len() == 0,
{
    assert(popped + after =~= before + arrived);
}

/// A push keeps what was queued and not taken, adds a prefix of the new samples
/// behind it, and never exceeds the capacity; samples are refused only by a ring
/// that is then full.
pub proof fn pushing_keeps_order(
    before: Seq<u32>,
    limit: nat,
    taken: int,
    elems: Seq<u32>,
    pushed: int,
    after: Seq<u32>,
)
    requires
        push_effect(before, limit, taken, elems, pushed, after),
    ensures
        before.take(taken) + after == before + elems.take(pushed),
        after.len() <= limit,
        pushed < elems.len() ==> after.len() == limit,
{
    assert(before.take(taken) + after =~= before + elems.take(pushed));
}

/// What comes out of a ring is what went in: from a common position on, what the two
/// ends saw agrees as far as both go.
pub proof fn reading_gives_what_was_written(
    ring: int,
    position: nat,
    written: Seq<u32>,
    read: Seq<u32>,
)
    requires
        carries(ring, position, written),
        carries(ring, position, read),
    ensures
        written.len() <= read.len() ==> written == read.take(written.len() as int),
        read.len() <= written.len() ==> read == written.take(read.len() as int),
{
    if written.len() <= read.len() {
        assert(written =~= read.take(written.len() as int));
    }
    if read.len() <= written.len() {
        assert(read =~= written.take(read.len() as int));
    }
}

/// Several pushes, or several pops, one after the other are as good as one.
pub proof fn passages_join(ring: int, position: nat, first: Seq<u32>, second: Seq<u32>)
    requires
        carries(ring, position, first),
        carries(ring, position + first.len(), second),
    ensures
        carries(ring, position, first + second),
{
    let both = first + second;
    assert forall|i: int| 0 <= i < both.len() implies carried(ring, position + i)
        == #[trigger] both[i] by {
        if i < first.len() {
            assert(both[i] == first[i]);
        } else {
            assert(both[i] == second[i - first.len()]);
        }
    }
}

/// What it means that a ring carries samples, sample by sample.
pub proof fn carried_samples_are_the_rings(ring: int, position: nat, samples: Seq<u32>)
    ensures
        carries(ring, position, samples) ==> forall|i: int|
            0 <= i < samples.len() ==> #[trigger] samples[i] == carried(ring, position + i),
        (forall|i: int|
            0 <= i < samples.len() ==> #[trigger] samples[i] == carried(ring, position + i))
            ==> carries(ring, position, samples),
{
}

} // verus!
