//! The bounded queue between the capture thread and the render callback.
//!
//! The queue is a lock-free ring of sample words.  Whole, it has one owner
//! and behaves as a bounded FIFO; split, its two halves live on two threads
//! and each sees only how its own call ended.  A push that finds the ring
//! full drops the sample and counts it; a pop that finds it empty reads as
//! silence.

use vstd::prelude::*;
use crate::sample::SILENCE;

verus! {

/// A heap-allocated ring of sample words, not yet split: a
/// `ringbuf::HeapRb<u32>`, of which nothing is known here but what the
/// functions below say.
#[verifier::external_body]
pub struct SampleRing {
    inner: ringbuf::HeapRb<u32>,
}

/// The writing half of a split ring: a `ringbuf::HeapProd<u32>`.
#[verifier::external_body]
pub struct SampleProducer {
    inner: ringbuf::HeapProd<u32>,
}

/// The reading half of a split ring: a `ringbuf::HeapCons<u32>`.
#[verifier::external_body]
pub struct SampleConsumer {
    inner: ringbuf::HeapCons<u32>,
}

/// What a ring holds, oldest sample first.
pub uninterp spec fn ring_contents(ring: SampleRing) -> Seq<u32>;

/// The capacity that a ring was made with.
pub uninterp spec fn ring_capacity(ring: SampleRing) -> nat;

/// `HeapRb::new`: an empty ring of exactly the capacity asked for.  The
/// call panics on a capacity of zero and on one whose bytes overflow an
/// allocation, so both are left out.
#[verifier::external_body]
fn ring_new(capacity: usize) -> (ring: SampleRing)
    requires
        0 < capacity,
        capacity * 4 <= isize::MAX,
    ensures
        ring_contents(ring) == Seq::<u32>::empty(),
        ring_capacity(ring) == capacity,
{
    SampleRing { inner: ringbuf::HeapRb::<u32>::new(capacity) }
}

/// `Producer::try_push` on a ring with one owner: below capacity the sample
/// is appended; at capacity the ring is left as it is and the sample comes
/// back in `Err`.
#[verifier::external_body]
fn ring_try_push(ring: &mut SampleRing, sample: u32) -> (r: Result<(), u32>)
    ensures
        ring_capacity(*final(ring)) == ring_capacity(*old(ring)),
        r is Ok <==> ring_contents(*old(ring)).len() < ring_capacity(*old(ring)),
        r is Ok ==> ring_contents(*final(ring)) == ring_contents(*old(ring)).push(sample),
        r is Err ==> r->Err_0 == sample && ring_contents(*final(ring)) == ring_contents(
            *old(ring),
        ),
{
    ringbuf::traits::Producer::try_push(&mut ring.inner, sample)
}

/// `Consumer::try_pop` on a ring with one owner: the oldest sample leaves,
/// or `None` comes back from an empty ring, which stays as it is.
#[verifier::external_body]
fn ring_try_pop(ring: &mut SampleRing) -> (r: Option<u32>)
    ensures
        ring_capacity(*final(ring)) == ring_capacity(*old(ring)),
        r is Some <==> ring_contents(*old(ring)).len() > 0,
        r is Some ==> r->Some_0 == ring_contents(*old(ring))[0] && ring_contents(*final(ring))
            == ring_contents(*old(ring)).drop_first(),
        r is None ==> ring_contents(*final(ring)) == ring_contents(*old(ring)),
{
    ringbuf::traits::Consumer::try_pop(&mut ring.inner)
}

/// `Split::split`: the two halves of the ring, which from here on is
/// reached only through them.
#[verifier::external_body]
fn ring_split(ring: SampleRing) -> (halves: (SampleProducer, SampleConsumer)) {
    let (producer, consumer) = ringbuf::traits::Split::split(ring.inner);
    (SampleProducer { inner: producer }, SampleConsumer { inner: consumer })
}

/// `Producer::try_push` on the writing half.  Whether the ring has room
/// depends on the reading thread; a sample that found none comes back in
/// `Err`.
#[verifier::external_body]
fn producer_try_push(producer: &mut SampleProducer, sample: u32) -> (r: Result<(), u32>)
    ensures
        r is Err ==> r->Err_0 == sample,
{
    ringbuf::traits::Producer::try_push(&mut producer.inner, sample)
}

/// `Consumer::try_pop` on the reading half.  What comes back depends on the
/// writing thread.
#[verifier::external_body]
fn consumer_try_pop(consumer: &mut SampleConsumer) -> (r: Option<u32>) {
    ringbuf::traits::Consumer::try_pop(&mut consumer.inner)
}

/// How often a dropped sample is reported after the first.
pub const OVERFLOW_REPORT_PERIOD: u64 = 10000;

/// Whether the drop that brings the count to `dropped` is reported: the
/// first one, and every 10,000th.
pub open spec fn reports_drop(dropped: int) -> bool {
    dropped == 1 || dropped % 10000 == 0
}

/// How a push ended.
#[derive(Debug, Clone, Copy, PartialEq, Eq, Structural)]
pub enum PushOutcome {
    /// The sample is in the ring.
    Accepted,
    /// The ring was full and the sample is lost; `report` says whether
    /// this drop is one to log.
    Dropped { report: bool },
}

/// A count of the samples that found the ring full.
pub struct OverflowMeter {
    dropped: u64,
}

impl OverflowMeter {
    /// The number of samples dropped so far.
    pub closed spec fn count(&self) -> int {
        self.dropped as int
    }

    /// A meter that has seen no drop.
    pub fn new() -> (r: Self)
        ensures
            r.count() == 0,
    {
        OverflowMeter { dropped: 0 }
    }

    /// The number of samples dropped so far.
    pub fn dropped(&self) -> (r: u64)
        ensures
            r == self.count(),
    {
        self.dropped
    }

    /// Takes note of how a push ended.  A rejected sample raises the count
    /// by one (the count stays at its largest value once it is reached)
    /// and is reported if it is the first or a 10,000th.
    pub fn record(&mut self, pushed: Result<(), u32>) -> (outcome: PushOutcome)
        ensures
            pushed is Ok ==> outcome == PushOutcome::Accepted && final(self).count() == old(
                self,
            ).count(),
            pushed is Err ==> final(self).count() == (if old(self).count() < u64::MAX {
                old(self).count() + 1
            } else {
                old(self).count()
            }) && outcome == (PushOutcome::Dropped {
                report: reports_drop(final(self).count()),
            }),
    {
        match pushed {
            Ok(_) => PushOutcome::Accepted,
            Err(_) => {
                if self.dropped < u64::MAX {
                    self.dropped = self.dropped + 1;
                }
                PushOutcome::Dropped {
                    report: self.dropped == 1 || self.dropped % OVERFLOW_REPORT_PERIOD == 0,
                }
            },
        }
    }
}

/// What the render side plays for a pop: the sample, or silence where the
/// ring had none.
pub open spec fn sample_or_silence(popped: Option<u32>) -> u32 {
    match popped {
        Some(sample) => sample,
        None => SILENCE,
    }
}

/// Substitutes silence for a missing sample.
pub fn or_silence(popped: Option<u32>) -> (r: u32)
    ensures
        r == sample_or_silence(popped),
{
    match popped {
        Some(sample) => sample,
        None => SILENCE,
    }
}

/// Whether a transport can be made with this capacity: it holds at least
/// one sample, and its bytes fit an allocation.
pub open spec fn capacity_is_valid(capacity: int) -> bool {
    0 < capacity && capacity * 4 <= isize::MAX
}

/// The transport before it is split: a bounded FIFO of samples with a
/// count of the samples it had to drop.
pub struct Transport {
    ring: SampleRing,
    overflow: OverflowMeter,
}

impl Transport {
    /// The samples queued, oldest first.
    pub closed spec fn contents(&self) -> Seq<u32> {
        ring_contents(self.ring)
    }

    /// The number of samples the transport holds at most.
    pub closed spec fn capacity(&self) -> nat {
        ring_capacity(self.ring)
    }

    /// The number of samples dropped so far.
    pub closed spec fn dropped(&self) -> int {
        self.overflow.count()
    }

    /// An empty transport of the given capacity, or `None` for a capacity
    /// of zero or one too large to allocate.
    pub fn new(capacity: usize) -> (r: Option<Self>)
        ensures
            r is Some <==> capacity_is_valid(capacity as int),
            r matches Some(t) ==> t.contents() == Seq::<u32>::empty() && t.capacity() == capacity
                && t.dropped() == 0,
    {
        if capacity == 0 || capacity > (isize::MAX as usize) / 4 {
            None
        } else {
            Some(Transport { ring: ring_new(capacity), overflow: OverflowMeter::new() })
        }
    }

    /// Queues a sample if there is room, and drops and counts it if not.
    pub fn push(&mut self, sample: u32) -> (outcome: PushOutcome)
        ensures
            final(self).capacity() == old(self).capacity(),
            final(self).contents() == pushed(old(self).contents(), old(self).capacity(), sample),
            has_room(old(self).contents(), old(self).capacity()) ==> outcome
                == PushOutcome::Accepted && final(self).dropped() == old(self).dropped(),
            !has_room(old(self).contents(), old(self).capacity()) ==> final(self).dropped() == (
            if old(self).dropped() < u64::MAX {
                old(self).dropped() + 1
            } else {
                old(self).dropped()
            }) && outcome == (PushOutcome::Dropped {
                report: reports_drop(final(self).dropped()),
            }),
    {
        let pushed = ring_try_push(&mut self.ring, sample);
        self.overflow.record(pushed)
    }

    /// Takes the oldest sample out, or returns `None` at once if there is
    /// none.
    pub fn pop(&mut self) -> (r: Option<u32>)
        ensures
            final(self).capacity() == old(self).capacity(),
            final(self).dropped() == old(self).dropped(),
            r == popped(old(self).contents()).0,
            final(self).contents() == popped(old(self).contents()).1,
    {
        ring_try_pop(&mut self.ring)
    }

    /// Takes the oldest sample out, or silence if there is none.
    pub fn pop_or_silence(&mut self) -> (r: u32)
        ensures
            final(self).capacity() == old(self).capacity(),
            final(self).dropped() == old(self).dropped(),
            r == sample_or_silence(popped(old(self).contents()).0),
            final(self).contents() == popped(old(self).contents()).1,
    {
        or_silence(ring_try_pop(&mut self.ring))
    }

    /// Splits the transport into the half that the capture thread writes
    /// and the half that the render callback reads.  The count of dropped
    /// samples goes with the writing half.
    pub fn split(self) -> (halves: (TransportProducer, TransportConsumer))
        ensures
            halves.0.dropped() == self.dropped(),
    {
        let (producer, consumer) = ring_split(self.ring);
        (
            TransportProducer { half: producer, overflow: self.overflow },
            TransportConsumer { half: consumer },
        )
    }
}

/// The writing half of the transport.
pub struct TransportProducer {
    half: SampleProducer,
    overflow: OverflowMeter,
}

impl TransportProducer {
    /// The number of samples dropped so far.
    pub closed spec fn dropped(&self) -> int {
        self.overflow.count()
    }

    /// The number of samples dropped so far.
    pub fn dropped_samples(&self) -> (r: u64)
        ensures
            r == self.dropped(),
    {
        self.overflow.dropped()
    }

    /// Offers a sample to the ring without blocking.  Whether it is
    /// accepted depends on how far the reader has come; a sample that is
    /// not accepted is dropped and counted, and reported if it is the
    /// first or a 10,000th.
    pub fn push(&mut self, sample: u32) -> (outcome: PushOutcome)
        ensures
            outcome == PushOutcome::Accepted ==> final(self).dropped() == old(self).dropped(),
            outcome != PushOutcome::Accepted ==> final(self).dropped() == (if old(self).dropped()
                < u64::MAX {
                old(self).dropped() + 1
            } else {
                old(self).dropped()
            }) && outcome == (PushOutcome::Dropped {
                report: reports_drop(final(self).dropped()),
            }),
    {
        let pushed = producer_try_push(&mut self.half, sample);
        self.overflow.record(pushed)
    }
}

/// The reading half of the transport.
pub struct TransportConsumer {
    half: SampleConsumer,
}

impl TransportConsumer {
    /// Takes the oldest sample out without blocking; `None` if the ring
    /// has none.
    pub fn pop(&mut self) -> Option<u32> {
        consumer_try_pop(&mut self.half)
    }

    /// Takes the oldest sample out without blocking, or silence if the
    /// ring has none: an underflow is played as silence, not reported.
    pub fn pop_or_silence(&mut self) -> u32 {
        or_silence(consumer_try_pop(&mut self.half))
    }
}

/// Whether a ring with these contents takes one more sample.
pub open spec fn has_room(contents: Seq<u32>, capacity: nat) -> bool {
    contents.len() < capacity
}

/// What a ring holds after a push: the sample is appended if there is
/// room, and lost if not.
pub open spec fn pushed(contents: Seq<u32>, capacity: nat, sample: u32) -> Seq<u32> {
    if has_room(contents, capacity) {
        contents.push(sample)
    } else {
        contents
    }
}

/// What a pop returns and what it leaves.
pub open spec fn popped(contents: Seq<u32>) -> (Option<u32>, Seq<u32>) {
    if contents.len() > 0 {
        (Some(contents[0]), contents.drop_first())
    } else {
        (None, contents)
    }
}

/// What a ring holds after each sample of `input` was pushed in turn.
pub open spec fn pushed_all(contents: Seq<u32>, capacity: nat, input: Seq<u32>) -> Seq<u32>
    decreases input.len(),
{
    if input.len() == 0 {
        contents
    } else {
        pushed(pushed_all(contents, capacity, input.drop_last()), capacity, input.last())
    }
}

/// What `n` pops return, in the order they return it.
pub open spec fn popped_run(contents: Seq<u32>, n: nat) -> Seq<Option<u32>>
    decreases n,
{
    if n == 0 {
        Seq::empty()
    } else {
        seq![popped(contents).0] + popped_run(popped(contents).1, (n - 1) as nat)
    }
}

/// What a ring holds after `n` pops.
pub open spec fn after_pops(contents: Seq<u32>, n: nat) -> Seq<u32>
    decreases n,
{
    if n == 0 {
        contents
    } else {
        after_pops(popped(contents).1, (n - 1) as nat)
    }
}

/// Samples that fit are queued behind what the ring holds, in their order.
pub proof fn pushes_that_fit_append(contents: Seq<u32>, capacity: nat, input: Seq<u32>)
    requires
        contents.len() + input.len() <= capacity,
    ensures
        pushed_all(contents, capacity, input) == contents + input,
    decreases input.len(),
{
    if input.len() == 0 {
        assert(contents + input =~= contents);
    } else {
        pushes_that_fit_append(contents, capacity, input.drop_last());
        assert((contents + input.drop_last()).push(input.last()) =~= contents + input);
    }
}

/// Pops hand the queued samples out oldest first, as long as there are any.
pub proof fn pops_return_oldest_first(contents: Seq<u32>, n: nat)
    requires
        n <= contents.len(),
    ensures
        popped_run(contents, n) == Seq::new(n, |i: int| Some(contents[i])),
        after_pops(contents, n) == contents.skip(n as int),
    decreases n,
{
    if n == 0 {
        assert(popped_run(contents, n) =~= Seq::new(n, |i: int| Some(contents[i])));
        assert(contents.skip(0) =~= contents);
    } else {
        let rest = contents.drop_first();
        pops_return_oldest_first(rest, (n - 1) as nat);
        assert(popped_run(contents, n) =~= Seq::new(n, |i: int| Some(contents[i])));
        assert(rest.skip(n - 1) =~= contents.skip(n as int));
    }
}

/// A ring filled to its capacity and then emptied hands back what went in,
/// first in, first out; while it is full a further push fails and leaves
/// what is queued untouched; and a pop from an empty ring returns no value
/// and leaves it empty.
pub proof fn ring_is_a_bounded_fifo(capacity: nat, input: Seq<u32>, extra: u32)
    requires
        input.len() == capacity,
    ensures
        pushed_all(Seq::empty(), capacity, input) == input,
        !has_room(input, capacity),
        pushed(input, capacity, extra) == input,
        popped_run(input, capacity) == Seq::new(capacity, |i: int| Some(input[i])),
        after_pops(input, capacity) == Seq::<u32>::empty(),
        popped(Seq::<u32>::empty()) == (None::<u32>, Seq::<u32>::empty()),
{
    pushes_that_fit_append(Seq::empty(), capacity, input);
    assert(Seq::<u32>::empty() + input =~= input);
    pops_return_oldest_first(input, capacity);
    assert(input.skip(capacity as int) =~= Seq::<u32>::empty());
}

} // verus!
