//! The bounded stream-pair pool behind the request/response client. A call
//! takes a free pair, opens a new stream while the opened-streams budget
//! lasts, and otherwise waits for a pair to come back; the pool never holds
//! more streams than it was configured for.

use vstd::prelude::*;

verus! {

/// What a caller must do to obtain a stream pair.
#[derive(Clone, Copy, Debug, PartialEq, Eq, Structural)]
pub enum AcquireOutcome {
    /// A free pair was taken from the pool.
    Reuse,
    /// The budget allows opening one new bidirectional stream.
    OpenNew,
    /// Pool empty and budget spent: block until a pair is released.
    Wait,
}

/// Counts of the stream pairs of one request/response client.
///
/// Every pair is in exactly one of four places: idle in the pool, checked
/// out by an in-flight call, still unopened budget, or lost to a dead
/// connection.
#[derive(Clone, Copy, Debug, PartialEq, Eq, Structural)]
pub struct StreamPool {
    /// Configured cap on bidirectional streams.
    pub max: u16,
    /// Pairs sitting idle in the pool.
    pub idle: u16,
    /// Streams not yet opened.
    pub budget: u16,
    /// Pairs bound to an in-flight call.
    pub in_use: u16,
    /// Pairs discarded after the connection died mid-call.
    pub lost: u16,
}

impl StreamPool {
    /// Every pair is accounted for exactly once.
    pub open spec fn wf(self) -> bool {
        self.idle + self.budget + self.in_use + self.lost == self.max
    }

    /// How many streams are open right now.
    pub open spec fn opened(self) -> int {
        self.idle + self.in_use
    }

    pub fn new(max: u16) -> (r: Self)
        ensures
            r.wf(),
            r.max == max,
            r.idle == 0,
            r.in_use == 0,
            r.lost == 0,
            r.budget == max,
    {
        StreamPool { max, idle: 0, budget: max, in_use: 0, lost: 0 }
    }

    /// Decide how the next call obtains its pair: reuse a free one, open a
    /// new stream while the budget lasts, else wait. Waiting never fails.
    pub fn acquire(&mut self) -> (r: AcquireOutcome)
        requires
            old(self).wf(),
        ensures
            final(self).wf(),
            final(self).max == old(self).max,
            final(self).lost == old(self).lost,
            (r == AcquireOutcome::Reuse) <==> old(self).idle > 0,
            (r == AcquireOutcome::OpenNew) <==> (old(self).idle == 0 && old(self).budget > 0),
            (r == AcquireOutcome::Wait) <==> (old(self).idle == 0 && old(self).budget == 0),
            r == AcquireOutcome::Reuse ==> *final(self) == (StreamPool {
                idle: (old(self).idle - 1) as u16,
                in_use: (old(self).in_use + 1) as u16,
                ..*old(self)
            }),
            r == AcquireOutcome::OpenNew ==> *final(self) == (StreamPool {
                budget: (old(self).budget - 1) as u16,
                in_use: (old(self).in_use + 1) as u16,
                ..*old(self)
            }),
            r == AcquireOutcome::Wait ==> *final(self) == *old(self),
    {
        if self.idle > 0 {
            self.idle = self.idle - 1;
            self.in_use = self.in_use + 1;
            AcquireOutcome::Reuse
        } else if self.budget > 0 {
            self.budget = self.budget - 1;
            self.in_use = self.in_use + 1;
            AcquireOutcome::OpenNew
        } else {
            AcquireOutcome::Wait
        }
    }

    /// A call finished on its pair; the pair returns to the pool.
    pub fn release(&mut self)
        requires
            old(self).wf(),
            old(self).in_use > 0,
        ensures
            final(self).wf(),
            *final(self) == (StreamPool {
                idle: (old(self).idle + 1) as u16,
                in_use: (old(self).in_use - 1) as u16,
                ..*old(self)
            }),
    {
        self.in_use = self.in_use - 1;
        self.idle = self.idle + 1;
    }

    /// The connection died mid-call; the pair is dropped, not returned.
    pub fn discard(&mut self)
        requires
            old(self).wf(),
            old(self).in_use > 0,
        ensures
            final(self).wf(),
            *final(self) == (StreamPool {
                lost: (old(self).lost + 1) as u16,
                in_use: (old(self).in_use - 1) as u16,
                ..*old(self)
            }),
    {
        self.in_use = self.in_use - 1;
        self.lost = self.lost + 1;
    }
}

/// The pool never exceeds its cap: however calls interleave, the number of
/// open streams stays at or below `max`.
pub proof fn lemma_pool_cap(p: StreamPool)
    requires
        p.wf(),
    ensures
        p.opened() <= p.max,
{
}

/// A caller is told to wait, rather than being failed, exactly when the
/// pool is empty and the budget is spent.
pub proof fn lemma_wait_means_saturated(p: StreamPool)
    requires
        p.wf(),
        p.idle == 0,
        p.budget == 0,
    ensures
        p.in_use + p.lost == p.max,
{
}

} // verus!
