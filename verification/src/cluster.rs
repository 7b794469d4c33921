//! The cluster connection map: the sender end of a peer's bridge channel,
//! keyed by the peer's server id. An entry is inserted once the peer's auth
//! reply is accepted and removed when the connection's handler returns.
//!
//! The value type is generic: the I/O layer stores its channel senders here.

use vstd::prelude::*;

verus! {

/// Whether some entry carries the given server id.
pub open spec fn map_has_id<V>(s: Seq<(u32, V)>, id: u32) -> bool {
    exists|i: int| 0 <= i < s.len() && (#[trigger] s[i]).0 == id
}

/// No two entries share a server id.
pub open spec fn map_wf<V>(s: Seq<(u32, V)>) -> bool {
    forall|i: int, j: int| 0 <= i < j < s.len() ==> (#[trigger] s[i]).0 != (#[trigger] s[j]).0
}

/// The map after removing every entry keyed `id`.
pub open spec fn spec_remove_id<V>(s: Seq<(u32, V)>, id: u32) -> Seq<(u32, V)> {
    s.filter(|e: (u32, V)| e.0 != id)
}

/// Removal keeps distinctness, leaves no entry under the removed id, and
/// invents no entry.
proof fn lemma_remove_id_props<V>(s: Seq<(u32, V)>, id: u32)
    requires
        map_wf(s),
    ensures
        map_wf(spec_remove_id(s, id)),
        forall|i: int|
            0 <= i < spec_remove_id(s, id).len() ==> (#[trigger] spec_remove_id(s, id)[i]).0
                != id,
        forall|i: int|
            0 <= i < spec_remove_id(s, id).len() ==> exists|j: int|
                0 <= j < s.len() && s[j] == (#[trigger] spec_remove_id(s, id)[i]),
    decreases s.len(),
{
    reveal(Seq::filter);
    if s.len() == 0 {
    } else {
        let d = s.drop_last();
        assert(map_wf(d)) by {
            assert(forall|i: int| 0 <= i < d.len() ==> #[trigger] d[i] == s[i]);
        }
        lemma_remove_id_props(d, id);
        let f = spec_remove_id(d, id);
        let r = spec_remove_id(s, id);
        assert(forall|j: int| 0 <= j < d.len() ==> #[trigger] d[j] == s[j]);
        if s.last().0 != id {
            assert(r == f.push(s.last()));
            assert forall|i: int| 0 <= i < r.len() implies exists|j: int|
                0 <= j < s.len() && s[j] == (#[trigger] r[i]) by {
                if i < f.len() {
                    let j = choose|j: int| 0 <= j < d.len() && d[j] == f[i];
                    assert(s[j] == r[i]);
                } else {
                    assert(s[s.len() - 1] == r[i]);
                }
            }
            assert forall|i: int, j: int| 0 <= i < j < r.len() implies (#[trigger] r[i]).0 != (
            #[trigger] r[j]).0 by {
                if j == f.len() {
                    assert(r[j] == s.last());
                    assert(r[i] == f[i]);
                    let j0 = choose|j0: int| 0 <= j0 < d.len() && d[j0] == f[i];
                    assert(s[j0] == d[j0]);
                    assert(s[j0].0 != s[s.len() - 1].0);
                } else {
                    assert(r[i] == f[i]);
                    assert(r[j] == f[j]);
                }
            }
        } else {
            assert(r == f);
        }
    }
}

/// Removing an id keeps an entry exactly when its id differs.
proof fn lemma_remove_id_snoc<V>(s: Seq<(u32, V)>, x: (u32, V), id: u32)
    ensures
        x.0 != id ==> spec_remove_id(s.push(x), id) == spec_remove_id(s, id).push(x),
        x.0 == id ==> spec_remove_id(s.push(x), id) == spec_remove_id(s, id),
{
    reveal(Seq::filter);
    assert(s.push(x).drop_last() =~= s);
    assert(s.push(x).last() == x);
}

/// Removing an id from the empty map gives the empty map.
proof fn lemma_remove_id_empty<V>(id: u32)
    ensures
        spec_remove_id(Seq::<(u32, V)>::empty(), id) == Seq::<(u32, V)>::empty(),
{
    reveal(Seq::filter);
}

/// A map from server id to the sender handle of that peer's connection.
pub struct ConnectionMap<V> {
    pub entries: Vec<(u32, V)>,
}

impl<V> ConnectionMap<V> {
    /// The map's invariant: no two entries share an id.
    pub open spec fn wf(self) -> bool {
        map_wf(self.entries@)
    }

    pub fn new() -> (r: Self)
        ensures
            r.entries@.len() == 0,
            r.wf(),
    {
        ConnectionMap { entries: Vec::new() }
    }

    /// Remove every entry keyed `id`; the reaction to a connection handler
    /// returning.
    pub fn remove(&mut self, id: u32)
        requires
            old(self).wf(),
        ensures
            final(self).entries@ == spec_remove_id(old(self).entries@, id),
            final(self).wf(),
            !map_has_id(final(self).entries@, id),
    {
        let ghost e0 = self.entries@;
        let mut old_entries: Vec<(u32, V)> = Vec::new();
        core::mem::swap(&mut self.entries, &mut old_entries);
        proof {
            assert(e0.take(0) =~= Seq::<(u32, V)>::empty());
            lemma_remove_id_empty::<V>(id);
        }
        while old_entries.len() > 0
            invariant
                old_entries@.len() <= e0.len(),
                old_entries@ == e0.skip(e0.len() - old_entries@.len()),
                self.entries@ == spec_remove_id(e0.take(e0.len() - old_entries@.len()), id),
            decreases old_entries@.len(),
        {
            let ghost i = e0.len() - old_entries@.len();
            let e = old_entries.remove(0);
            proof {
                assert(e == e0[i]);
                assert(old_entries@ =~= e0.skip(i + 1));
                assert(e0.take(i + 1) =~= e0.take(i).push(e0[i]));
                lemma_remove_id_snoc(e0.take(i), e0[i], id);
            }
            if e.0 != id {
                self.entries.push(e);
            }
        }
        proof {
            assert(e0.take(e0.len() as int) =~= e0);
            lemma_remove_id_props(e0, id);
        }
    }

    /// Insert the sender handle of a newly authenticated peer, replacing any
    /// stale entry under the same id.
    pub fn insert(&mut self, id: u32, v: V)
        requires
            old(self).wf(),
        ensures
            final(self).entries@ == spec_remove_id(old(self).entries@, id).push((id, v)),
            final(self).wf(),
            map_has_id(final(self).entries@, id),
    {
        self.remove(id);
        let ghost removed = self.entries@;
        self.entries.push((id, v));
        proof {
            assert forall|i: int, j: int|
                0 <= i < j < self.entries@.len() implies self.entries@[i].0
                != self.entries@[j].0 by {
                if j == removed.len() {
                    assert(self.entries@[i] == removed[i]);
                } else {
                    assert(self.entries@[i] == removed[i]);
                    assert(self.entries@[j] == removed[j]);
                }
            }
            assert(self.entries@[removed.len() as int].0 == id);
        }
    }

    /// Look up the sender handle of a peer.
    pub fn get(&self, id: u32) -> (r: Option<&V>)
        requires
            self.wf(),
        ensures
            match r {
                Some(v) => exists|i: int|
                    0 <= i < self.entries@.len() && (#[trigger] self.entries@[i]).0 == id
                        && self.entries@[i].1 == *v,
                None => !map_has_id(self.entries@, id),
            },
    {
        let mut i: usize = 0;
        while i < self.entries.len()
            invariant
                i <= self.entries@.len(),
                forall|j: int| 0 <= j < i ==> (#[trigger] self.entries@[j]).0 != id,
            decreases self.entries@.len() - i,
        {
            if self.entries[i].0 == id {
                return Some(&self.entries[i].1);
            }
            i = i + 1;
        }
        None
    }

    /// How many peers are connected.
    pub fn len(&self) -> (r: usize)
        ensures
            r == self.entries@.len(),
    {
        self.entries.len()
    }
}

} // verus!
