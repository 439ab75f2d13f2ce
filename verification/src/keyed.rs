//! The model of a list of keyed entries: a map from each entry's key (by its
//! view) to what its value stands for. The exit map and the room registry both
//! keep their entries in such a list, with no key twice.

use vstd::prelude::*;

verus! {

/// The keys of the entries, in order.
pub open spec fn keys_of<K: View, V>(es: Seq<(K, V)>) -> Seq<K::V> {
    es.map_values(|e: (K, V)| e.0@)
}

/// No two entries share a key.
pub open spec fn distinct_keys<K: View, V>(es: Seq<(K, V)>) -> bool {
    forall|i: int, j: int|
        0 <= i < es.len() && 0 <= j < es.len() && i != j ==> (#[trigger] es[i]).0@ != (
        #[trigger] es[j]).0@
}

/// Some entry has key `k`.
pub open spec fn has_key<K: View, V>(es: Seq<(K, V)>, k: K::V) -> bool {
    exists|i: int| 0 <= i < es.len() && (#[trigger] es[i]).0@ == k
}

/// The map from each key to `f` of the value of the entry holding it.
pub open spec fn entries_map<K: View, V, W>(es: Seq<(K, V)>, f: spec_fn(V) -> W) -> Map<K::V, W> {
    Map::new(
        |k: K::V| has_key(es, k),
        |k: K::V| f(es[choose|i: int| 0 <= i < es.len() && (#[trigger] es[i]).0@ == k].1),
    )
}

/// With distinct keys, the map sends each entry's key to its value.
pub proof fn lemma_entries_lookup<K: View, V, W>(es: Seq<(K, V)>, f: spec_fn(V) -> W, i: int)
    requires
        distinct_keys(es),
        0 <= i < es.len(),
    ensures
        entries_map(es, f).contains_key(es[i].0@),
        entries_map(es, f)[es[i].0@] == f(es[i].1),
{
    let k = es[i].0@;
    assert(has_key(es, k));
    let j = choose|j: int| 0 <= j < es.len() && (#[trigger] es[j]).0@ == k;
    assert(j == i);
}

/// The empty list is the empty map.
pub proof fn lemma_entries_empty<K: View, V, W>(es: Seq<(K, V)>, f: spec_fn(V) -> W)
    requires
        es.len() == 0,
    ensures
        distinct_keys(es),
        entries_map(es, f) == Map::<K::V, W>::empty(),
{
    assert(entries_map(es, f) =~= Map::<K::V, W>::empty());
}

/// Appending an entry with a new key inserts it into the map.
pub proof fn lemma_entries_push<K: View, V, W>(es: Seq<(K, V)>, f: spec_fn(V) -> W, e: (K, V))
    requires
        distinct_keys(es),
        !has_key(es, e.0@),
    ensures
        distinct_keys(es.push(e)),
        entries_map(es.push(e), f) == entries_map(es, f).insert(e.0@, f(e.1)),
{
    let ps = es.push(e);
    assert(distinct_keys(ps)) by {
        assert forall|i: int, j: int|
            0 <= i < ps.len() && 0 <= j < ps.len() && i != j implies (#[trigger] ps[i]).0@ != (
            #[trigger] ps[j]).0@ by {
            if i < es.len() && j < es.len() {
                assert(ps[i] == es[i] && ps[j] == es[j]);
            } else if i < es.len() {
                assert(ps[i] == es[i]);
            } else {
                assert(ps[j] == es[j]);
            }
        }
    }
    let m = entries_map(es, f).insert(e.0@, f(e.1));
    assert forall|k: K::V| #[trigger] entries_map(ps, f).contains_key(k) <==> m.contains_key(k) by {
        if has_key(es, k) {
            let i = choose|i: int| 0 <= i < es.len() && (#[trigger] es[i]).0@ == k;
            assert(ps[i] == es[i]);
        }
        if has_key(ps, k) && k != e.0@ {
            let i = choose|i: int| 0 <= i < ps.len() && (#[trigger] ps[i]).0@ == k;
            assert(ps[i] == es[i]);
        }
        assert(ps[es.len() as int] == e);
    }
    assert forall|k: K::V| #[trigger] entries_map(ps, f).contains_key(k) implies entries_map(ps, f)[k]
        == m[k] by {
        let i = choose|i: int| 0 <= i < ps.len() && (#[trigger] ps[i]).0@ == k;
        lemma_entries_lookup(ps, f, i);
        if i < es.len() {
            assert(ps[i] == es[i]);
            lemma_entries_lookup(es, f, i);
        }
    }
    assert(entries_map(ps, f) =~= m);
}

/// Removing the entry at `i` removes its key from the map.
pub proof fn lemma_entries_remove<K: View, V, W>(es: Seq<(K, V)>, f: spec_fn(V) -> W, i: int)
    requires
        distinct_keys(es),
        0 <= i < es.len(),
    ensures
        distinct_keys(es.remove(i)),
        entries_map(es.remove(i), f) == entries_map(es, f).remove(es[i].0@),
{
    let rs = es.remove(i);
    let old_index = |j: int| if j < i { j } else { j + 1 };
    assert forall|j: int| 0 <= j < rs.len() implies #[trigger] rs[j] == es[old_index(j)] by {}
    assert(distinct_keys(rs)) by {
        assert forall|a: int, b: int|
            0 <= a < rs.len() && 0 <= b < rs.len() && a != b implies (#[trigger] rs[a]).0@ != (
            #[trigger] rs[b]).0@ by {
            assert(rs[a] == es[old_index(a)]);
            assert(rs[b] == es[old_index(b)]);
        }
    }
    let m = entries_map(es, f).remove(es[i].0@);
    assert forall|k: K::V| #[trigger] entries_map(rs, f).contains_key(k) <==> m.contains_key(k) by {
        if has_key(rs, k) {
            let j = choose|j: int| 0 <= j < rs.len() && (#[trigger] rs[j]).0@ == k;
            assert(rs[j] == es[old_index(j)]);
            assert(es[old_index(j)].0@ == k);
        }
        if has_key(es, k) && k != es[i].0@ {
            let j = choose|j: int| 0 <= j < es.len() && (#[trigger] es[j]).0@ == k;
            assert(j != i);
            if j < i {
                assert(rs[j] == es[j]);
            } else {
                assert(rs[j - 1] == es[j]);
            }
        }
    }
    assert forall|k: K::V| #[trigger] entries_map(rs, f).contains_key(k) implies entries_map(rs, f)[k]
        == m[k] by {
        let j = choose|j: int| 0 <= j < rs.len() && (#[trigger] rs[j]).0@ == k;
        lemma_entries_lookup(rs, f, j);
        assert(rs[j] == es[old_index(j)]);
        lemma_entries_lookup(es, f, old_index(j));
    }
    assert(entries_map(rs, f) =~= m);
}

/// Inserting into a finite map keeps it finite and adds one key exactly when
/// the key is new.
pub proof fn lemma_map_insert_len<K, V>(m: Map<K, V>, k: K, v: V)
    requires
        m.dom().finite(),
    ensures
        m.insert(k, v).dom().finite(),
        m.insert(k, v).len() == m.len() + if m.contains_key(k) {
            0int
        } else {
            1int
        },
{
    if m.contains_key(k) {
        assert(m.insert(k, v).dom() =~= m.dom());
    }
}

/// Removing from a finite map keeps it finite and drops one key exactly when
/// the key was there.
pub proof fn lemma_map_remove_len<K, V>(m: Map<K, V>, k: K)
    requires
        m.dom().finite(),
    ensures
        m.remove(k).dom().finite(),
        m.remove(k).len() == m.len() - if m.contains_key(k) {
            1int
        } else {
            0int
        },
{
    if !m.contains_key(k) {
        assert(m.remove(k).dom() =~= m.dom());
    }
}

/// With distinct keys, the map has one key per entry.
pub proof fn lemma_entries_len<K: View, V, W>(es: Seq<(K, V)>, f: spec_fn(V) -> W)
    requires
        distinct_keys(es),
    ensures
        entries_map(es, f).dom().finite(),
        entries_map(es, f).len() == es.len(),
{
    let ks = keys_of(es);
    assert(entries_map(es, f).dom() =~= ks.to_set()) by {
        assert forall|k: K::V| #[trigger] entries_map(es, f).dom().contains(k) <==> ks.contains(k) by {
            if has_key(es, k) {
                let i = choose|i: int| 0 <= i < es.len() && (#[trigger] es[i]).0@ == k;
                assert(ks[i] == k);
            }
            if ks.contains(k) {
                let i = choose|i: int| 0 <= i < ks.len() && ks[i] == k;
                assert(es[i].0@ == k);
            }
        }
    }
    assert(ks.no_duplicates()) by {
        assert forall|i: int, j: int| 0 <= i < ks.len() && 0 <= j < ks.len() && i != j implies ks[i]
            != ks[j] by {
            assert(ks[i] == es[i].0@ && ks[j] == es[j].0@);
        }
    }
    ks.unique_seq_to_set();
    vstd::seq_lib::seq_to_set_is_finite(ks);
}

} // verus!
