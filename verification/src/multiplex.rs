//! The operator set of the request-id-multiplexed client. Each operator
//! owns one bidirectional stream and many in-flight calls at once,
//! correlated by a per-operator monotonic 64-bit request id. New operators
//! are allocated while the stream budget lasts; afterwards calls spread over
//! the existing operators by a random pick.

use vstd::prelude::*;

use crate::error::TransportError;

verus! {

/// One stream operator: a stable index, the monotonic request-id counter,
/// and the ids of the calls still awaiting their response.
#[derive(Debug)]
pub struct Operator {
    /// Stable identity within the set.
    pub index: u16,
    /// The next request id this operator will hand out.
    pub next_req_id: u64,
    /// Request ids of in-flight calls, oldest first.
    pub pending: Vec<u64>,
}

impl Operator {
    /// Pending ids are pairwise distinct and all below the counter.
    pub open spec fn wf(self) -> bool {
        &&& forall|i: int| 0 <= i < self.pending@.len() ==> #[trigger] self.pending@[i]
            < self.next_req_id
        &&& forall|i: int, j: int|
            0 <= i < j < self.pending@.len() ==> #[trigger] self.pending@[i] != #[trigger] self.pending@[j]
    }

    /// Whether `req_id` belongs to an in-flight call.
    pub open spec fn is_pending(self, req_id: u64) -> bool {
        exists|i: int| 0 <= i < self.pending@.len() && self.pending@[i] == req_id
    }
}

/// No two in-flight calls on one operator ever share a request id.
pub proof fn lemma_pending_ids_distinct(op: Operator)
    requires
        op.wf(),
    ensures
        forall|i: int, j: int|
            0 <= i < j < op.pending@.len() ==> #[trigger] op.pending@[i]
                != #[trigger] op.pending@[j],
{
}

/// The set of operators of one client, with the remaining stream budget.
#[derive(Debug)]
pub struct OperatorSet {
    pub ops: Vec<Operator>,
    /// Streams that may still be opened.
    pub budget: u16,
    /// Configured cap on bidirectional streams.
    pub max: u16,
    /// The index the next operator will receive.
    pub next_index: u16,
}

impl OperatorSet {
    /// Operators are well formed, their indexes distinct and below the
    /// running index counter, and the set never outgrows the stream cap.
    pub open spec fn wf(self) -> bool {
        &&& forall|k: int| 0 <= k < self.ops@.len() ==> (#[trigger] self.ops@[k]).wf()
        &&& forall|k: int| 0 <= k < self.ops@.len() ==> (#[trigger] self.ops@[k]).index
            < self.next_index
        &&& forall|k: int, l: int|
            0 <= k < l < self.ops@.len() ==> (#[trigger] self.ops@[k]).index != (
            #[trigger] self.ops@[l]).index
        &&& self.budget <= self.max
        &&& self.next_index == self.max - self.budget
        &&& self.ops@.len() + self.budget <= self.max
    }

    pub fn new(max: u16) -> (r: Self)
        ensures
            r.wf(),
            r.ops@.len() == 0,
            r.budget == max,
            r.max == max,
    {
        OperatorSet { ops: Vec::new(), budget: max, max, next_index: 0 }
    }

    /// Spend one unit of budget on a fresh operator; returns its position.
    pub fn add_operator(&mut self) -> (pos: usize)
        requires
            old(self).wf(),
            old(self).budget > 0,
        ensures
            final(self).wf(),
            pos == old(self).ops@.len(),
            final(self).ops@.len() == old(self).ops@.len() + 1,
            forall|j: int| 0 <= j < old(self).ops@.len() ==> final(self).ops@[j] == old(
                self,
            ).ops@[j],
            final(self).ops@[pos as int].index == old(self).next_index,
            final(self).ops@[pos as int].next_req_id == 0,
            final(self).ops@[pos as int].pending@.len() == 0,
            final(self).budget == old(self).budget - 1,
            final(self).max == old(self).max,
    {
        let pos = self.ops.len();
        let op = Operator { index: self.next_index, next_req_id: 0, pending: Vec::new() };
        self.ops.push(op);
        self.budget = self.budget - 1;
        self.next_index = self.next_index + 1;
        pos
    }

    /// Pick an operator position for the next call, spreading load by a
    /// uniformly random draw; `None` only when the set is empty.
    pub fn pick_operator(&self) -> (r: Option<usize>)
        requires
            self.wf(),
        ensures
            match r {
                Some(pos) => pos < self.ops@.len(),
                None => self.ops@.len() == 0,
            },
    {
        if self.ops.len() == 0 {
            return None;
        }
        let n = self.ops.len() as u16;
        let i = random_below(n);
        Some(i as usize)
    }

    /// Hand out the next request id of the operator at `pos` and record the
    /// call as in flight. The id is fresh: no call in flight on this
    /// operator carries it.
    pub fn alloc_req_id(&mut self, pos: usize) -> (r: u64)
        requires
            old(self).wf(),
            pos < old(self).ops@.len(),
            old(self).ops@[pos as int].next_req_id < u64::MAX,
        ensures
            final(self).wf(),
            r == old(self).ops@[pos as int].next_req_id,
            final(self).ops@.len() == old(self).ops@.len(),
            forall|j: int|
                0 <= j < old(self).ops@.len() && j != pos ==> final(self).ops@[j] == old(
                    self,
                ).ops@[j],
            final(self).ops@[pos as int].index == old(self).ops@[pos as int].index,
            final(self).ops@[pos as int].next_req_id == r + 1,
            final(self).ops@[pos as int].pending@ == old(self).ops@[pos as int].pending@.push(r),
            forall|i: int|
                0 <= i < old(self).ops@[pos as int].pending@.len() ==> old(
                    self,
                ).ops@[pos as int].pending@[i] != r,
            final(self).budget == old(self).budget,
            final(self).max == old(self).max,
            final(self).next_index == old(self).next_index,
    {
        let mut op = self.ops.remove(pos);
        let r = op.next_req_id;
        op.next_req_id = op.next_req_id + 1;
        op.pending.push(r);
        self.ops.insert(pos, op);
        proof {
            assert(self.ops@ =~= old(self).ops@.update(pos as int, self.ops@[pos as int]));
        }
        r
    }

    /// Route a response frame carrying `req_id` to the operator at `pos`:
    /// the call leaves the in-flight set and the response is delivered.
    /// Returns false for an unknown id, which the caller drops.
    pub fn route_response(&mut self, pos: usize, req_id: u64) -> (r: bool)
        requires
            old(self).wf(),
            pos < old(self).ops@.len(),
        ensures
            final(self).wf(),
            r == old(self).ops@[pos as int].is_pending(req_id),
            final(self).ops@.len() == old(self).ops@.len(),
            forall|j: int|
                0 <= j < old(self).ops@.len() && j != pos ==> final(self).ops@[j] == old(
                    self,
                ).ops@[j],
            final(self).ops@[pos as int].index == old(self).ops@[pos as int].index,
            final(self).ops@[pos as int].next_req_id == old(self).ops@[pos as int].next_req_id,
            !final(self).ops@[pos as int].is_pending(req_id),
            !r ==> final(self).ops@[pos as int].pending@ == old(self).ops@[pos as int].pending@,
            r ==> exists|k: int|
                0 <= k < old(self).ops@[pos as int].pending@.len() && old(
                    self,
                ).ops@[pos as int].pending@[k] == req_id && final(self).ops@[pos as int].pending@
                    == old(self).ops@[pos as int].pending@.remove(k),
            final(self).budget == old(self).budget,
            final(self).max == old(self).max,
            final(self).next_index == old(self).next_index,
    {
        let mut op = self.ops.remove(pos);
        let ghost p0 = op.pending@;
        let mut found: bool = false;
        let mut k: usize = 0;
        while k < op.pending.len() && !found
            invariant
                k <= op.pending@.len(),
                op.pending@ == p0,
                found ==> k < p0.len() && p0[k as int] == req_id,
                !found ==> forall|i: int| 0 <= i < k ==> p0[i] != req_id,
            decreases op.pending@.len() - k + (if found {
                0int
            } else {
                1int
            }),
        {
            if op.pending[k] == req_id {
                found = true;
            } else {
                k = k + 1;
            }
        }
        if found {
            assert(p0[k as int] == req_id);
            op.pending.remove(k);
            proof {
                assert forall|i: int|
                    0 <= i < op.pending@.len() implies op.pending@[i] != req_id by {
                    if i < k {
                        assert(op.pending@[i] == p0[i]);
                    } else {
                        assert(op.pending@[i] == p0[i + 1]);
                    }
                }
                assert forall|i: int, j: int|
                    0 <= i < j < op.pending@.len() implies op.pending@[i] != op.pending@[j] by {
                    let i0 = if i < k {
                        i
                    } else {
                        i + 1
                    };
                    let j0 = if j < k {
                        j
                    } else {
                        j + 1
                    };
                    assert(op.pending@[i] == p0[i0]);
                    assert(op.pending@[j] == p0[j0]);
                }
            }
        } else {
            proof {
                assert(!op.is_pending(req_id));
            }
        }
        let ghost op_final = op;
        self.ops.insert(pos, op);
        proof {
            assert(self.ops@ =~= old(self).ops@.update(pos as int, op_final));
            if found {
                assert(op_final.pending@ == p0.remove(k as int));
            }
        }
        found
    }

    /// Remove the operator at `pos` after its stream closed; the returned
    /// ids are the in-flight calls that must all fail with `Closed`.
    pub fn close_operator(&mut self, pos: usize) -> (r: Vec<u64>)
        requires
            old(self).wf(),
            pos < old(self).ops@.len(),
        ensures
            final(self).wf(),
            r@ == old(self).ops@[pos as int].pending@,
            final(self).ops@ == old(self).ops@.remove(pos as int),
            final(self).budget == old(self).budget,
            final(self).max == old(self).max,
    {
        let op = self.ops.remove(pos);
        proof {
            assert forall|k: int, l: int|
                0 <= k < l < self.ops@.len() implies self.ops@[k].index
                != self.ops@[l].index by {
                let k0 = if k < pos {
                    k
                } else {
                    k + 1
                };
                let l0 = if l < pos {
                    l
                } else {
                    l + 1
                };
                assert(self.ops@[k] == old(self).ops@[k0]);
                assert(self.ops@[l] == old(self).ops@[l0]);
            }
        }
        op.pending
    }

    /// The decision at the head of `call`: while the budget lasts, spend it
    /// on a fresh operator; otherwise spread over an existing one; fail with
    /// `Closed` only when no stream can exist at all. Returns the chosen
    /// position and the fresh request id.
    pub fn begin_call(&mut self) -> (r: Result<(usize, u64), TransportError>)
        requires
            old(self).wf(),
            forall|k: int| 0 <= k < old(self).ops@.len() ==> (#[trigger] old(
                self,
            ).ops@[k]).next_req_id < u64::MAX,
        ensures
            final(self).wf(),
            final(self).max == old(self).max,
            r is Err <==> (old(self).budget == 0 && old(self).ops@.len() == 0),
            match r {
                Ok((pos, id)) => {
                    &&& pos < final(self).ops@.len()
                    &&& final(self).ops@[pos as int].next_req_id == id + 1
                    &&& final(self).ops@[pos as int].is_pending(id)
                    &&& (old(self).budget > 0 ==> final(self).ops@.len() == old(self).ops@.len()
                        + 1 && pos == old(self).ops@.len() && id == 0 && final(self).budget == old(
                        self,
                    ).budget - 1)
                    &&& (old(self).budget == 0 ==> final(self).ops@.len() == old(
                        self,
                    ).ops@.len() && pos < old(self).ops@.len() && id == old(
                        self,
                    ).ops@[pos as int].next_req_id && !old(self).ops@[pos as int].is_pending(id)
                        && final(self).budget == 0)
                },
                Err(e) => e == TransportError::Closed && *final(self) == *old(self),
            },
    {
        if self.budget > 0 {
            let pos = self.add_operator();
            let id = self.alloc_req_id(pos);
            proof {
                assert(self.ops@[pos as int].pending@[0] == id);
            }
            Ok((pos, id))
        } else {
            match self.pick_operator() {
                Some(pos) => {
                    let ghost old_pending = self.ops@[pos as int].pending@;
                    let id = self.alloc_req_id(pos);
                    proof {
                        assert(self.ops@[pos as int].pending@[old_pending.len() as int] == id);
                        if old(self).ops@[pos as int].is_pending(id) {
                            let i = choose|i: int|
                                0 <= i < old_pending.len() && old_pending[i] == id;
                            assert(old_pending[i] != id);
                        }
                    }
                    Ok((pos, id))
                },
                None => Err(TransportError::Closed),
            }
        }
    }
}

/// Relies on fastrand::u16: the draw lies in the given range, and the call
/// panics only on an empty range, which the precondition excludes.
#[verifier::external_body]
fn random_below(n: u16) -> (r: u16)
    requires
        n > 0,
    ensures
        r < n,
{
    fastrand::u16(0..n)
}

} // verus!
