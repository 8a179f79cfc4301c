//! Maps that are keyed by peer, and the peers of such a map in ascending order.

use crate::ids::PeerId;
use std::collections::{BTreeMap, HashMap};
use vstd::prelude::*;

verus! {

broadcast use {
    vstd::std_specs::hash::group_hash_axioms,
    vstd::std_specs::btree::group_btree_axioms,
    vstd::laws_cmp::group_laws_cmp,
};

/// The views of a map's values, under the same keys.
pub open spec fn view_map<V: View>(m: Map<PeerId, V>) -> Map<PeerId, V::V> {
    m.map_values(|v: V| v@)
}

/// The peers of `peers` that are smaller than `bound`, in ascending order.
pub open spec fn ids_below(peers: Set<PeerId>, bound: nat) -> Seq<PeerId>
    decreases bound,
{
    if bound == 0 {
        Seq::empty()
    } else {
        let id = (bound - 1) as PeerId;
        let smaller = ids_below(peers, (bound - 1) as nat);
        if peers.contains(id) {
            smaller.push(id)
        } else {
            smaller
        }
    }
}

/// The peers of `peers` in ascending order.
pub open spec fn ids_of(peers: Set<PeerId>) -> Seq<PeerId> {
    ids_below(peers, 0x1_0000)
}

/// Whether `ids` ascends without repeating a peer.
pub open spec fn ascending(ids: Seq<PeerId>) -> bool {
    forall|i: int, j: int| 0 <= i < j < ids.len() ==> ids[i] < ids[j]
}

proof fn lemma_ids_below(peers: Set<PeerId>, bound: nat)
    requires
        bound <= 0x1_0000,
    ensures
        ascending(ids_below(peers, bound)),
        forall|id: PeerId| #[trigger]
            ids_below(peers, bound).contains(id) <==> peers.contains(id) && id < bound,
    decreases bound,
{
    if bound > 0 {
        lemma_ids_below(peers, (bound - 1) as nat);
        let id = (bound - 1) as PeerId;
        let smaller = ids_below(peers, (bound - 1) as nat);
        let all = ids_below(peers, bound);
        assert forall|i: int| 0 <= i < smaller.len() implies smaller[i] < bound - 1 by {
            assert(smaller.contains(smaller[i]));
        }
        assert forall|k: PeerId| #[trigger] all.contains(k) <==> peers.contains(k) && k < bound by {
            if peers.contains(id) {
                assert(all[all.len() - 1] == id);
                if all.contains(k) {
                    let j = choose|j: int| 0 <= j < all.len() && all[j] == k;
                    if j < smaller.len() {
                        assert(smaller[j] == k);
                        assert(smaller.contains(k));
                    }
                }
                if peers.contains(k) && k < bound && k != id {
                    assert(smaller.contains(k));
                    let j = choose|j: int| 0 <= j < smaller.len() && smaller[j] == k;
                    assert(all[j] == k);
                }
            }
        }
    }
}

/// `ids_of` lists every peer once, in ascending order, and nothing else.
pub proof fn lemma_ids_of(peers: Set<PeerId>)
    ensures
        ascending(ids_of(peers)),
        forall|id: PeerId| #[trigger] ids_of(peers).contains(id) <==> peers.contains(id),
        ids_of(peers).to_set() == peers,
        ids_of(peers).len() == peers.len(),
        ids_of(peers).no_duplicates(),
        peers.finite(),
{
    lemma_ids_below(peers, 0x1_0000);
    let ids = ids_of(peers);
    assert(ids.to_set() =~= peers);
    assert(ids.no_duplicates());
    ids.unique_seq_to_set();
}

/// Two ascending lists of the same peers are the same list.
pub proof fn lemma_ascending_unique(a: Seq<PeerId>, b: Seq<PeerId>)
    requires
        ascending(a),
        ascending(b),
        a.to_set() == b.to_set(),
    ensures
        a == b,
    decreases a.len(),
{
    if a.len() == 0 {
        if b.len() > 0 {
            assert(b.to_set().contains(b[0]));
            assert(a.to_set().contains(b[0]));
        }
        assert(a =~= b);
    } else {
        assert(a.to_set().contains(a.last()));
        assert(b.to_set().contains(a.last()));
        assert(b.contains(a.last()));
        assert(b.to_set().contains(b.last()));
        assert(a.contains(b.last()));
        assert(a.last() == b.last());
        let a2 = a.drop_last();
        let b2 = b.drop_last();
        assert forall|k: PeerId| a2.to_set().contains(k) <==> b2.to_set().contains(k) by {
            if a2.contains(k) {
                let j = choose|j: int| 0 <= j < a2.len() && a2[j] == k;
                assert(a[j] == k);
                assert(a.to_set().contains(k));
                assert(b.contains(k));
                let i = choose|i: int| 0 <= i < b.len() && b[i] == k;
                assert(b2[i] == k);
            }
            if b2.contains(k) {
                let j = choose|j: int| 0 <= j < b2.len() && b2[j] == k;
                assert(b[j] == k);
                assert(b.to_set().contains(k));
                assert(a.contains(k));
                let i = choose|i: int| 0 <= i < a.len() && a[i] == k;
                assert(a2[i] == k);
            }
        }
        assert(a2.to_set() =~= b2.to_set());
        lemma_ascending_unique(a2, b2);
        assert(a =~= a2.push(a.last()));
        assert(b =~= b2.push(b.last()));
    }
}

/// The peers of `m` in ascending order.
pub fn sorted_ids<V>(m: &BTreeMap<PeerId, V>) -> (ids: Vec<PeerId>)
    ensures
        ids@ == ids_of(m@.dom()),
        ids@.to_set() == m@.dom(),
        ids@.no_duplicates(),
{
    let mut ids: Vec<PeerId> = Vec::new();
    let iter = m.iter();
    let ghost entries = vstd::std_specs::iter::IteratorSpec::remaining(&iter);
    let ghost keys = entries.map_values(|kv: (&PeerId, &V)| *kv.0);
    for (id, value) in it: iter
        invariant
            it.seq() == entries,
            keys == entries.map_values(|kv: (&PeerId, &V)| *kv.0),
            ids@ == keys.take(it.index()),
    {
        ids.push(*id);
    }
    proof {
        assert(ids@ =~= keys);
        lemma_ids_of(m@.dom());
        assert(vstd::std_specs::btree::increasing_seq(keys));
        assert forall|i: int, j: int| 0 <= i < j < keys.len() implies keys[i] < keys[j] by {
            assert(vstd::std_specs::cmp::OrdSpec::cmp_spec(&keys[i], &keys[j]) is Less);
        }
        assert forall|id: PeerId| keys.to_set().contains(id) <==> m@.contains_key(id) by {
            if keys.contains(id) {
                let j = choose|j: int| 0 <= j < keys.len() && keys[j] == id;
                assert(m@.contains_key(*entries[j].0));
            }
            if m@.contains_key(id) {
                assert(entries.contains((&id, &m@[id])));
                let j = choose|j: int| 0 <= j < entries.len() && entries[j] == (&id, &m@[id]);
                assert(keys[j] == id);
            }
        }
        assert(keys.to_set() =~= m@.dom());
        lemma_ascending_unique(keys, ids_of(m@.dom()));
    }
    ids
}

/// The map that holds `f(id)` for each `id` in `ids`.
pub fn collect_map<V, F: Fn(PeerId) -> V>(ids: &[PeerId], f: F) -> (m: BTreeMap<PeerId, V>)
    requires
        forall|id: PeerId| ids@.contains(id) ==> #[trigger] f.requires((id,)),
    ensures
        m@.dom() == ids@.to_set(),
        forall|id: PeerId| #[trigger] m@.contains_key(id) ==> f.ensures((id,), m@[id]),
{
    let mut m: BTreeMap<PeerId, V> = BTreeMap::new();
    for i in 0..ids.len()
        invariant
            forall|id: PeerId| ids@.contains(id) ==> #[trigger] f.requires((id,)),
            m@.dom() == ids@.take(i as int).to_set(),
            forall|id: PeerId| #[trigger] m@.contains_key(id) ==> f.ensures((id,), m@[id]),
    {
        proof {
            assert(ids@.contains(ids@[i as int]));
            assert(ids@.take(i + 1) =~= ids@.take(i as int).push(ids@[i as int]));
            ids@.take(i as int).lemma_push_to_set_commute(ids@[i as int]);
        }
        m.insert(ids[i], f(ids[i]));
    }
    proof {
        assert(ids@.take(ids@.len() as int) =~= ids@);
    }
    m
}

/// The map that holds `f(id)` for each `id` in `ids`.
pub fn collect_hash_map<V, F: Fn(PeerId) -> V>(ids: &[PeerId], f: F) -> (m: HashMap<PeerId, V>)
    requires
        forall|id: PeerId| ids@.contains(id) ==> #[trigger] f.requires((id,)),
    ensures
        m@.dom() == ids@.to_set(),
        forall|id: PeerId| #[trigger] m@.contains_key(id) ==> f.ensures((id,), m@[id]),
{
    let mut m: HashMap<PeerId, V> = HashMap::new();
    for i in 0..ids.len()
        invariant
            forall|id: PeerId| ids@.contains(id) ==> #[trigger] f.requires((id,)),
            m@.dom() == ids@.take(i as int).to_set(),
            forall|id: PeerId| #[trigger] m@.contains_key(id) ==> f.ensures((id,), m@[id]),
    {
        proof {
            assert(ids@.contains(ids@[i as int]));
            assert(ids@.take(i + 1) =~= ids@.take(i as int).push(ids@[i as int]));
            ids@.take(i as int).lemma_push_to_set_commute(ids@[i as int]);
        }
        m.insert(ids[i], f(ids[i]));
    }
    proof {
        assert(ids@.take(ids@.len() as int) =~= ids@);
    }
    m
}

} // verus!
