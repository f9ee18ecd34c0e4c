//! Bounded batch reads over an unbounded push-stream.
//!
//! A [`StreamHandle`] owns the queue of items that a push-stream has produced
//! but the caller has not read yet. The background pump that listens to the
//! native stream appends with [`StreamHandle::push`]; the caller pulls a
//! bounded batch with [`StreamHandle::drain`]. Items are handed out exactly
//! once, in arrival order, bounded only by the batch limit the caller gives.
//!
//! The waiting itself is the host's: it polls the native stream under the
//! per-item timeout. Every decision about what one bounded read collects is
//! a [`DrainBatch`]'s: items are kept in arrival order, and the read is over
//! as soon as one wait times out or the batch limit is reached. What cannot
//! be stated here is the wall-clock bound itself; the host keeps each wait
//! within the configured timeout.

use vstd::prelude::*;

verus! {

/// The smaller of two bounds.
pub open spec fn spec_min(a: int, b: int) -> int {
    if a <= b {
        a
    } else {
        b
    }
}

/// One live push-stream, owned by at most one reader.
///
/// `queued` is what has arrived and not been read; `delivered` is what was
/// already handed to the caller, in order. Their concatenation,
/// [`StreamHandle::emitted`], is the stream's full emission order: it only
/// ever grows at the tail, which is exactly the no-loss, no-duplication,
/// no-reorder guarantee.
pub struct StreamHandle<T> {
    queue: Vec<T>,
    past: Ghost<Seq<T>>,
}

impl<T> StreamHandle<T> {
    /// Items that have arrived and were not yet handed out, in arrival order.
    pub closed spec fn queued(self) -> Seq<T> {
        self.queue@
    }

    /// Items already handed to the caller, in the order they were handed out.
    pub closed spec fn delivered(self) -> Seq<T> {
        self.past@
    }

    /// Everything the stream has emitted, in emission order.
    pub open spec fn emitted(self) -> Seq<T> {
        self.delivered() + self.queued()
    }

    /// A fresh handle with nothing emitted yet.
    pub fn new() -> (r: Self)
        ensures
            r.queued() == Seq::<T>::empty(),
            r.delivered() == Seq::<T>::empty(),
    {
        StreamHandle { queue: Vec::new(), past: Ghost(Seq::empty()) }
    }

    /// Pump side: one more item arrived from the native stream.
    pub fn push(&mut self, item: T)
        ensures
            final(self).queued() == old(self).queued().push(item),
            final(self).delivered() == old(self).delivered(),
    {
        self.queue.push(item);
    }

    /// How many items are currently queued.
    pub fn len(&self) -> (n: usize)
        ensures
            n == self.queued().len(),
    {
        self.queue.len()
    }

    /// Hand out the single oldest queued item, if any.
    pub fn pop(&mut self) -> (r: Option<T>)
        ensures
            old(self).queued().len() == 0 ==> r is None && *final(self) == *old(self),
            old(self).queued().len() > 0 ==> {
                &&& r == Some(old(self).queued()[0])
                &&& final(self).queued() == old(self).queued().skip(1)
                &&& final(self).delivered() == old(self).delivered().push(old(self).queued()[0])
            },
    {
        if self.queue.len() == 0 {
            None
        } else {
            let ghost q0 = self.queue@;
            let x = self.queue.remove(0);
            self.past = Ghost(self.past@.push(x));
            proof {
                assert(self.queue@ =~= q0.skip(1));
            }
            Some(x)
        }
    }

    /// Pull a bounded batch: the oldest queued items, at most `max_items` of
    /// them, in arrival order. Whatever is handed out leaves the queue; the
    /// overall emission order is untouched.
    pub fn drain(&mut self, max_items: usize) -> (batch: Vec<T>)
        ensures
            batch@ == old(self).queued().take(
                spec_min(max_items as int, old(self).queued().len() as int),
            ),
            final(self).queued() == old(self).queued().skip(
                spec_min(max_items as int, old(self).queued().len() as int),
            ),
            final(self).delivered() == old(self).delivered() + batch@,
            final(self).emitted() == old(self).emitted(),
    {
        let ghost q0 = self.queue@;
        let ghost d0 = self.past@;
        let k: usize = if max_items < self.queue.len() {
            max_items
        } else {
            self.queue.len()
        };
        let mut batch: Vec<T> = Vec::new();
        let mut i: usize = 0;
        while i < k
            invariant
                0 <= i <= k,
                k == spec_min(max_items as int, q0.len() as int),
                k <= q0.len(),
                self.queue@ == q0.skip(i as int),
                batch@ == q0.take(i as int),
                self.past@ == d0,
            decreases k - i,
        {
            let x = self.queue.remove(0);
            batch.push(x);
            proof {
                assert(self.queue@ =~= q0.skip(i as int + 1));
                assert(batch@ =~= q0.take(i as int + 1));
            }
            i = i + 1;
        }
        self.past = Ghost(d0 + batch@);
        proof {
            assert(final(self).delivered() + final(self).queued() =~= d0 + q0);
        }
        batch
    }
}

/// What one bounded wait for the next item came back with: the item, or
/// nothing within the per-item timeout.
pub enum PollOutcome<T> {
    Item(T),
    TimedOut,
}

/// The collection state of one bounded read over a push-stream.
///
/// The host polls the stream, waiting up to the per-item timeout for each
/// next item, and offers every outcome here; this type makes the read's
/// decisions: an item is kept in arrival order, and the read is over as
/// soon as either one wait timed out or the batch limit is reached --
/// never later.
pub struct DrainBatch<T> {
    limit: usize,
    items: Vec<T>,
    timed_out: bool,
}

impl<T> DrainBatch<T> {
    /// The batch limit the read was given.
    pub closed spec fn limit(self) -> usize {
        self.limit
    }

    /// The items collected so far, in arrival order.
    pub closed spec fn collected(self) -> Seq<T> {
        self.items@
    }

    /// Whether a wait already timed out.
    pub closed spec fn saw_timeout(self) -> bool {
        self.timed_out
    }

    /// Whether the read is over: one wait timed out, or the limit is
    /// reached.
    pub open spec fn is_done(self) -> bool {
        self.saw_timeout() || self.collected().len() >= self.limit()
    }

    /// A fresh read bounded by `max_items`.
    pub fn new(max_items: usize) -> (r: Self)
        ensures
            r.limit() == max_items,
            r.collected() == Seq::<T>::empty(),
            !r.saw_timeout(),
    {
        DrainBatch { limit: max_items, items: Vec::new(), timed_out: false }
    }

    /// Whether the host should wait for one more item.
    pub fn wants_more(&self) -> (r: bool)
        ensures
            r == !self.is_done(),
    {
        !self.timed_out && self.items.len() < self.limit
    }

    /// One more wait finished: keep its item, or end the read on its
    /// timeout.
    pub fn offer(&mut self, outcome: PollOutcome<T>)
        requires
            !old(self).is_done(),
        ensures
            final(self).limit() == old(self).limit(),
            (outcome matches PollOutcome::Item(x) ==> final(self).collected() == old(
                self,
            ).collected().push(x) && !final(self).saw_timeout()),
            outcome is TimedOut ==> final(self).collected() == old(self).collected()
                && final(self).saw_timeout(),
    {
        match outcome {
            PollOutcome::Item(x) => self.items.push(x),
            PollOutcome::TimedOut => self.timed_out = true,
        }
    }

    /// The finished read's items, in arrival order.
    pub fn into_items(self) -> (r: Vec<T>)
        ensures
            r@ == self.collected(),
    {
        self.items
    }
}

/// Law: whatever state a handle is in, what it has delivered so far is
/// exactly a prefix of the stream's emission order -- so concatenating the
/// batches of every read so far reproduces the emission order, with nothing
/// lost, duplicated or reordered.
pub proof fn lemma_delivered_is_prefix_of_emitted<T>(h: StreamHandle<T>)
    ensures
        h.delivered() == h.emitted().take(h.delivered().len() as int),
{
    assert(h.delivered() =~= (h.delivered() + h.queued()).take(h.delivered().len() as int));
}

/// Law: two drains in a row lose nothing and duplicate nothing. The two
/// batches, concatenated, are one contiguous prefix of the queue in its
/// arrival order -- exactly what a single larger drain would have returned.
pub proof fn lemma_consecutive_drains<T>(q: Seq<T>, m1: int, m2: int)
    requires
        0 <= m1,
        0 <= m2,
    ensures
        ({
            let k1 = spec_min(m1, q.len() as int);
            let k2 = spec_min(m2, q.skip(k1).len() as int);
            q.take(k1) + q.skip(k1).take(k2) == q.take(k1 + k2)
        }),
{
    let k1 = spec_min(m1, q.len() as int);
    let k2 = spec_min(m2, q.skip(k1).len() as int);
    assert(q.take(k1) + q.skip(k1).take(k2) =~= q.take(k1 + k2));
}

/// Law: a drain hands out every queued item when the queue holds fewer items
/// than the batch limit, and exactly the limit otherwise.
pub proof fn lemma_drain_batch_len<T>(q: Seq<T>, max_items: int)
    requires
        0 <= max_items,
    ensures
        q.len() <= max_items ==> q.take(spec_min(max_items, q.len() as int)) == q,
        spec_min(max_items, q.len() as int) == if q.len() <= max_items {
            q.len() as int
        } else {
            max_items
        },
{
    if q.len() <= max_items {
        assert(q.take(q.len() as int) =~= q);
    }
}

} // verus!
