//! The pending table of the timeout wrapper. Every outbound message is
//! parked under its `(sender, seq_num)` key with an expiry; an inbound `Ack`
//! removes the entry; on expiry the message is surfaced on the timeout
//! channel exactly once.

use vstd::prelude::*;

use crate::msg::Msg;

verus! {

/// One parked outbound message and its deadline.
pub struct PendingEntry {
    pub msg: Msg,
    pub expire_at_ms: u64,
}

/// The key a message is parked under.
pub open spec fn entry_key(e: PendingEntry) -> (u64, u64) {
    (e.msg.head.sender, e.msg.head.seq_num)
}

/// Whether some entry in `s` is parked under `(sender, seq_num)`.
pub open spec fn has_key(s: Seq<PendingEntry>, sender: u64, seq_num: u64) -> bool {
    exists|i: int| 0 <= i < s.len() && entry_key(#[trigger] s[i]) == (sender, seq_num)
}

/// No two entries share a key.
pub open spec fn table_wf(s: Seq<PendingEntry>) -> bool {
    forall|i: int, j: int|
        0 <= i < j < s.len() ==> entry_key(#[trigger] s[i]) != entry_key(#[trigger] s[j])
}

/// The table after removing every entry keyed `(sender, seq_num)`.
pub open spec fn spec_remove_key(s: Seq<PendingEntry>, sender: u64, seq_num: u64) -> Seq<
    PendingEntry,
> {
    s.filter(|e: PendingEntry| entry_key(e) != (sender, seq_num))
}

/// The entries still pending at `now_ms`: those whose deadline lies ahead.
pub open spec fn spec_kept(s: Seq<PendingEntry>, now_ms: u64) -> Seq<PendingEntry> {
    s.filter(|e: PendingEntry| e.expire_at_ms > now_ms)
}

/// The entries due at `now_ms`: those whose deadline has passed.
pub open spec fn spec_fired(s: Seq<PendingEntry>, now_ms: u64) -> Seq<PendingEntry> {
    s.filter(|e: PendingEntry| e.expire_at_ms <= now_ms)
}

/// The messages of a run of entries, in order.
pub open spec fn msgs_of(s: Seq<PendingEntry>) -> Seq<Msg> {
    s.map_values(|e: PendingEntry| e.msg)
}

/// Every element of a filtered sequence is an element of the original.
proof fn lemma_filter_elem<A>(s: Seq<A>, pred: spec_fn(A) -> bool, i: int)
    requires
        0 <= i < s.filter(pred).len(),
    ensures
        exists|j: int| 0 <= j < s.len() && s[j] == s.filter(pred)[i],
    decreases s.len(),
{
    reveal(Seq::filter);
    if s.len() == 0 {
    } else {
        let d = s.drop_last();
        if pred(s.last()) {
            if i < d.filter(pred).len() {
                lemma_filter_elem(d, pred, i);
                let j = choose|j: int| 0 <= j < d.len() && d[j] == d.filter(pred)[i];
                assert(s[j] == d[j]);
            } else {
                assert(s.filter(pred)[i] == s.last());
                assert(s[s.len() - 1] == s.last());
            }
        } else {
            lemma_filter_elem(d, pred, i);
            let j = choose|j: int| 0 <= j < d.len() && d[j] == d.filter(pred)[i];
            assert(s[j] == d[j]);
        }
    }
}

/// Filtering never introduces a duplicate key.
proof fn lemma_filter_preserves_wf(s: Seq<PendingEntry>, pred: spec_fn(PendingEntry) -> bool)
    requires
        table_wf(s),
    ensures
        table_wf(s.filter(pred)),
    decreases s.len(),
{
    reveal(Seq::filter);
    if s.len() == 0 {
    } else {
        let d = s.drop_last();
        assert(table_wf(d)) by {
            assert(forall|i: int| 0 <= i < d.len() ==> #[trigger] d[i] == s[i]);
        }
        lemma_filter_preserves_wf(d, pred);
        if pred(s.last()) {
            let f = d.filter(pred);
            assert forall|i: int| 0 <= i < f.len() implies entry_key(f[i]) != entry_key(
                s.last(),
            ) by {
                lemma_filter_elem(d, pred, i);
                let j = choose|j: int| 0 <= j < d.len() && d[j] == f[i];
                assert(s[j] == d[j]);
                assert(entry_key(s[j]) != entry_key(s[s.len() - 1]));
            }
            assert(s.filter(pred) == f.push(s.last()));
            assert forall|i: int, j: int|
                0 <= i < j < s.filter(pred).len() implies entry_key(s.filter(pred)[i])
                != entry_key(s.filter(pred)[j]) by {
                if j == f.len() {
                    assert(s.filter(pred)[j] == s.last());
                    assert(s.filter(pred)[i] == f[i]);
                } else {
                    assert(s.filter(pred)[i] == f[i]);
                    assert(s.filter(pred)[j] == f[j]);
                }
            }
        }
    }
}

/// An entry that is due fires: if some entry under the key has its deadline
/// at or before `now_ms`, the fired run carries that key.
pub proof fn lemma_due_entry_fires(s: Seq<PendingEntry>, now_ms: u64, sender: u64, seq_num: u64)
    requires
        exists|i: int|
            0 <= i < s.len() && entry_key(#[trigger] s[i]) == (sender, seq_num) && s[i].expire_at_ms
                <= now_ms,
    ensures
        has_key(spec_fired(s, now_ms), sender, seq_num),
{
    let pred = |e: PendingEntry| e.expire_at_ms <= now_ms;
    let i = choose|i: int|
        0 <= i < s.len() && entry_key(#[trigger] s[i]) == (sender, seq_num) && s[i].expire_at_ms
            <= now_ms;
    s.lemma_filter_contains(pred, i);
    let f = s.filter(pred);
    let j = choose|j: int| 0 <= j < f.len() && f[j] == s[i];
    assert(entry_key(f[j]) == (sender, seq_num));
}

/// After an `Ack` removes a key, no later expiry fires that key.
pub proof fn lemma_ack_prevents_timeout(
    s: Seq<PendingEntry>,
    sender: u64,
    seq_num: u64,
    now_ms: u64,
)
    ensures
        !has_key(spec_remove_key(s, sender, seq_num), sender, seq_num),
        !has_key(spec_fired(spec_remove_key(s, sender, seq_num), now_ms), sender, seq_num),
{
    let pred = |e: PendingEntry| entry_key(e) != (sender, seq_num);
    let removed = s.filter(pred);
    assert forall|i: int| 0 <= i < removed.len() implies entry_key(removed[i]) != (
    sender,
    seq_num,
    ) by {
        s.lemma_filter_pred(pred, i);
    }
    let fire_pred = |e: PendingEntry| e.expire_at_ms <= now_ms;
    let f = removed.filter(fire_pred);
    assert forall|i: int| 0 <= i < f.len() implies entry_key(f[i]) != (sender, seq_num) by {
        lemma_filter_elem(removed, fire_pred, i);
    }
}

/// A message fires at most once: when an expiry fires a key, the key is no
/// longer pending, and no later expiry fires it again.
pub proof fn lemma_timeout_exactly_once(
    s: Seq<PendingEntry>,
    now1_ms: u64,
    now2_ms: u64,
    sender: u64,
    seq_num: u64,
)
    requires
        table_wf(s),
        has_key(spec_fired(s, now1_ms), sender, seq_num),
    ensures
        !has_key(spec_kept(s, now1_ms), sender, seq_num),
        !has_key(spec_fired(spec_kept(s, now1_ms), now2_ms), sender, seq_num),
{
    let fire_pred = |e: PendingEntry| e.expire_at_ms <= now1_ms;
    let keep_pred = |e: PendingEntry| e.expire_at_ms > now1_ms;
    let fired = s.filter(fire_pred);
    let kept = s.filter(keep_pred);
    let i_f = choose|i: int| 0 <= i < fired.len() && entry_key(#[trigger] fired[i]) == (
    sender,
    seq_num,
    );
    s.lemma_filter_pred(fire_pred, i_f);
    lemma_filter_elem(s, fire_pred, i_f);
    let j1 = choose|j: int| 0 <= j < s.len() && s[j] == fired[i_f];
    if has_key(kept, sender, seq_num) {
        let i_k = choose|i: int| 0 <= i < kept.len() && entry_key(#[trigger] kept[i]) == (
        sender,
        seq_num,
        );
        s.lemma_filter_pred(keep_pred, i_k);
        lemma_filter_elem(s, keep_pred, i_k);
        let j2 = choose|j: int| 0 <= j < s.len() && s[j] == kept[i_k];
        assert(s[j1].expire_at_ms <= now1_ms);
        assert(s[j2].expire_at_ms > now1_ms);
        assert(j1 != j2);
        assert(entry_key(s[j1]) != entry_key(s[j2]));
        assert(false);
    }
    let fire2_pred = |e: PendingEntry| e.expire_at_ms <= now2_ms;
    let f2 = kept.filter(fire2_pred);
    assert forall|i: int| 0 <= i < f2.len() implies entry_key(f2[i]) != (sender, seq_num) by {
        lemma_filter_elem(kept, fire2_pred, i);
        let j = choose|j: int| 0 <= j < kept.len() && kept[j] == f2[i];
        if entry_key(kept[j]) == (sender, seq_num) {
            assert(has_key(kept, sender, seq_num));
        }
    }
}

/// Removing a key from a table extended by one entry keeps the entry
/// exactly when its key differs.
proof fn lemma_remove_key_snoc(s: Seq<PendingEntry>, x: PendingEntry, sender: u64, seq_num: u64)
    ensures
        entry_key(x) != (sender, seq_num) ==> spec_remove_key(s.push(x), sender, seq_num)
            == spec_remove_key(s, sender, seq_num).push(x),
        entry_key(x) == (sender, seq_num) ==> spec_remove_key(s.push(x), sender, seq_num)
            == spec_remove_key(s, sender, seq_num),
{
    reveal(Seq::filter);
    assert(s.push(x).drop_last() =~= s);
    assert(s.push(x).last() == x);
}

/// Splitting a table extended by one entry at a deadline sends the entry to
/// exactly one side.
proof fn lemma_expire_snoc(s: Seq<PendingEntry>, x: PendingEntry, now_ms: u64)
    ensures
        x.expire_at_ms > now_ms ==> spec_kept(s.push(x), now_ms) == spec_kept(s, now_ms).push(x),
        x.expire_at_ms <= now_ms ==> spec_kept(s.push(x), now_ms) == spec_kept(s, now_ms),
        x.expire_at_ms <= now_ms ==> spec_fired(s.push(x), now_ms) == spec_fired(s, now_ms).push(
            x,
        ),
        x.expire_at_ms > now_ms ==> spec_fired(s.push(x), now_ms) == spec_fired(s, now_ms),
{
    reveal(Seq::filter);
    assert(s.push(x).drop_last() =~= s);
    assert(s.push(x).last() == x);
}

/// Filtering the empty table gives the empty table.
proof fn lemma_filter_empty(sender: u64, seq_num: u64, now_ms: u64)
    ensures
        spec_remove_key(Seq::<PendingEntry>::empty(), sender, seq_num) == Seq::<
            PendingEntry,
        >::empty(),
        spec_kept(Seq::<PendingEntry>::empty(), now_ms) == Seq::<PendingEntry>::empty(),
        spec_fired(Seq::<PendingEntry>::empty(), now_ms) == Seq::<PendingEntry>::empty(),
{
    reveal(Seq::filter);
}

/// The pending table itself: entries keyed by `(sender, seq_num)`, no key
/// twice.
pub struct PendingTable {
    pub entries: Vec<PendingEntry>,
}

impl PendingTable {
    /// The table's invariant: no two entries share a key.
    pub open spec fn wf(self) -> bool {
        table_wf(self.entries@)
    }

    pub fn new() -> (r: Self)
        ensures
            r.entries@.len() == 0,
            r.wf(),
    {
        PendingTable { entries: Vec::new() }
    }

    /// Remove every entry parked under `(sender, seq_num)`; the reaction to
    /// an inbound `Ack` naming that sequence number.
    pub fn on_ack(&mut self, sender: u64, seq_num: u64)
        requires
            old(self).wf(),
        ensures
            final(self).entries@ == spec_remove_key(old(self).entries@, sender, seq_num),
            final(self).wf(),
            !has_key(final(self).entries@, sender, seq_num),
    {
        let ghost e0 = self.entries@;
        let mut old_entries: Vec<PendingEntry> = Vec::new();
        core::mem::swap(&mut self.entries, &mut old_entries);
        proof {
            assert(e0.take(0) =~= Seq::<PendingEntry>::empty());
            lemma_filter_empty(sender, seq_num, 0);
        }
        while old_entries.len() > 0
            invariant
                old_entries@.len() <= e0.len(),
                old_entries@ == e0.skip(e0.len() - old_entries@.len()),
                self.entries@ == spec_remove_key(
                    e0.take(e0.len() - old_entries@.len()),
                    sender,
                    seq_num,
                ),
            decreases old_entries@.len(),
        {
            let ghost i = e0.len() - old_entries@.len();
            let e = old_entries.remove(0);
            proof {
                assert(e == e0[i]);
                assert(old_entries@ =~= e0.skip(i + 1));
                assert(e0.take(i + 1) =~= e0.take(i).push(e0[i]));
                lemma_remove_key_snoc(e0.take(i), e0[i], sender, seq_num);
            }
            if !(e.msg.head.sender == sender && e.msg.head.seq_num == seq_num) {
                assert(entry_key(e0[i]) != (sender, seq_num));
                self.entries.push(e);
            } else {
                assert(entry_key(e0[i]) == (sender, seq_num));
            }
        }
        proof {
            assert(e0.take(e0.len() as int) =~= e0);
            let pred = |e: PendingEntry| entry_key(e) != (sender, seq_num);
            lemma_filter_preserves_wf(e0, pred);
            assert forall|i: int|
                0 <= i < self.entries@.len() implies entry_key(self.entries@[i]) != (
            sender,
            seq_num,
            ) by {
                e0.lemma_filter_pred(pred, i);
            }
        }
    }

    /// Park an outbound message: any older entry under the same key is
    /// replaced, and the new entry expires `timeout_ms` after `now_ms`.
    pub fn on_send(&mut self, msg: Msg, now_ms: u64, timeout_ms: u64)
        requires
            old(self).wf(),
            now_ms + timeout_ms <= u64::MAX,
        ensures
            final(self).entries@ == spec_remove_key(
                old(self).entries@,
                msg.head.sender,
                msg.head.seq_num,
            ).push((PendingEntry { msg, expire_at_ms: (now_ms + timeout_ms) as u64 })),
            final(self).wf(),
            has_key(final(self).entries@, msg.head.sender, msg.head.seq_num),
    {
        let ghost sender = msg.head.sender;
        let ghost seq_num = msg.head.seq_num;
        self.on_ack(msg.head.sender, msg.head.seq_num);
        let ghost removed = self.entries@;
        let entry = PendingEntry { msg, expire_at_ms: now_ms + timeout_ms };
        self.entries.push(entry);
        proof {
            assert forall|i: int, j: int|
                0 <= i < j < self.entries@.len() implies entry_key(self.entries@[i]) != entry_key(
                self.entries@[j],
            ) by {
                if j == removed.len() {
                    assert(entry_key(self.entries@[j]) == (sender, seq_num));
                    assert(self.entries@[i] == removed[i]);
                } else {
                    assert(self.entries@[i] == removed[i]);
                    assert(self.entries@[j] == removed[j]);
                }
            }
            assert(entry_key(self.entries@[removed.len() as int]) == (sender, seq_num));
        }
    }

    /// Surface every message whose deadline has passed, removing it from the
    /// table; each is returned exactly once, in table order.
    pub fn expire(&mut self, now_ms: u64) -> (fired: Vec<Msg>)
        requires
            old(self).wf(),
        ensures
            final(self).entries@ == spec_kept(old(self).entries@, now_ms),
            fired@ == msgs_of(spec_fired(old(self).entries@, now_ms)),
            final(self).wf(),
    {
        let ghost e0 = self.entries@;
        let mut old_entries: Vec<PendingEntry> = Vec::new();
        core::mem::swap(&mut self.entries, &mut old_entries);
        let mut fired: Vec<Msg> = Vec::new();
        proof {
            assert(e0.take(0) =~= Seq::<PendingEntry>::empty());
            lemma_filter_empty(0, 0, now_ms);
            assert(msgs_of(spec_fired(e0.take(0), now_ms)) =~= Seq::<Msg>::empty());
        }
        while old_entries.len() > 0
            invariant
                old_entries@.len() <= e0.len(),
                old_entries@ == e0.skip(e0.len() - old_entries@.len()),
                self.entries@ == spec_kept(e0.take(e0.len() - old_entries@.len()), now_ms),
                fired@ == msgs_of(spec_fired(e0.take(e0.len() - old_entries@.len()), now_ms)),
            decreases old_entries@.len(),
        {
            let ghost i = e0.len() - old_entries@.len();
            let e = old_entries.remove(0);
            proof {
                assert(e == e0[i]);
                assert(old_entries@ =~= e0.skip(i + 1));
                assert(e0.take(i + 1) =~= e0.take(i).push(e0[i]));
                lemma_expire_snoc(e0.take(i), e0[i], now_ms);
            }
            if e.expire_at_ms <= now_ms {
                fired.push(e.msg);
                proof {
                    assert(spec_fired(e0.take(i + 1), now_ms) == spec_fired(
                        e0.take(i),
                        now_ms,
                    ).push(e0[i]));
                    assert(fired@ =~= msgs_of(spec_fired(e0.take(i + 1), now_ms)));
                }
            } else {
                self.entries.push(e);
                proof {
                    assert(fired@ =~= msgs_of(spec_fired(e0.take(i + 1), now_ms)));
                }
            }
        }
        proof {
            assert(e0.take(e0.len() as int) =~= e0);
            let keep_pred = |e: PendingEntry| e.expire_at_ms > now_ms;
            lemma_filter_preserves_wf(e0, keep_pred);
        }
        fired
    }
}

} // verus!
