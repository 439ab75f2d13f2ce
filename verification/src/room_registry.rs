//! Room registry mapping `RoomKey` to ECS entity.
//!
//! The registry is an opaque newtype: the backing store is private and
//! callers use the public API (get, insert, remove, contains, len, iter).

use vstd::prelude::*;

use hecs::Entity;

use crate::keyed::{
    distinct_keys, entries_map, has_key, lemma_entries_empty, lemma_entries_len,
    lemma_entries_lookup, lemma_entries_push, lemma_entries_remove, lemma_map_insert_len,
    lemma_map_remove_len,
};
use crate::room_key::RoomKey;

verus! {

/// The authoritative map from [`RoomKey`] to the ECS entity representing that
/// room, seen as a map from the key's characters to the entity. Each key
/// occurs at most once.
#[derive(Debug)]
pub struct RoomRegistry {
    entries: Vec<(RoomKey, Entity)>,
}

/// Entities appear in the map view as they are.
pub open spec fn entity_view() -> spec_fn(Entity) -> Entity {
    |e: Entity| e
}

/// Registering a key makes it resolve to the entity; the number of rooms grows
/// by one exactly when the key was new; and removing a key that was new gives
/// back the registry from before.
pub proof fn lemma_register_then_lookup(m: Map<Seq<char>, Entity>, key: Seq<char>, e: Entity)
    requires
        m.dom().finite(),
    ensures
        m.insert(key, e).contains_key(key),
        m.insert(key, e)[key] == e,
        m.insert(key, e).len() == if m.contains_key(key) {
            m.len()
        } else {
            m.len() + 1
        },
        !m.contains_key(key) ==> m.insert(key, e).remove(key) == m,
        !m.insert(key, e).remove(key).contains_key(key),
{
    if !m.contains_key(key) {
        assert(m.insert(key, e).remove(key) =~= m);
    } else {
        assert(m.insert(key, e).dom() =~= m.dom());
    }
}

impl View for RoomRegistry {
    type V = Map<Seq<char>, Entity>;

    closed spec fn view(&self) -> Map<Seq<char>, Entity> {
        entries_map(self.entries@, entity_view())
    }
}

/// Finds the entry for `key`.
fn find_entry(es: &Vec<(RoomKey, Entity)>, key: &RoomKey) -> (r: Option<usize>)
    ensures
        match r {
            Some(i) => i < es.len() && es@[i as int].0@ == key@,
            None => !has_key(es@, key@),
        },
{
    let mut i: usize = 0;
    while i < es.len()
        invariant
            i <= es.len(),
            forall|j: int| 0 <= j < i ==> (#[trigger] es@[j]).0@ != key@,
        decreases es.len() - i,
    {
        if es[i].0 == *key {
            return Some(i);
        }
        i = i + 1;
    }
    None
}

impl RoomRegistry {
    #[verifier::type_invariant]
    spec fn inv(self) -> bool {
        distinct_keys(self.entries@)
    }

    /// Create an empty registry.
    pub fn new() -> (r: RoomRegistry)
        ensures
            r@ == Map::<Seq<char>, Entity>::empty(),
    {
        let r = RoomRegistry { entries: Vec::new() };
        proof {
            lemma_entries_empty(r.entries@, entity_view());
        }
        r
    }

    /// Look up the entity for a room key.
    pub fn get(&self, key: &RoomKey) -> (r: Option<Entity>)
        ensures
            match r {
                Some(e) => self@.contains_key(key@) && e == self@[key@],
                None => !self@.contains_key(key@),
            },
    {
        proof {
            use_type_invariant(self);
        }
        match find_entry(&self.entries, key) {
            Some(i) => {
                proof {
                    lemma_entries_lookup(self.entries@, entity_view(), i as int);
                }
                Some(self.entries[i].1)
            },
            None => None,
        }
    }

    /// Returns `true` if the registry contains the given key.
    pub fn contains(&self, key: &RoomKey) -> (r: bool)
        ensures
            r == self@.contains_key(key@),
    {
        match find_entry(&self.entries, key) {
            Some(_) => true,
            None => false,
        }
    }

    /// Insert a room key to entity mapping. Returns the previous entity if the
    /// key was already registered (keys are unique, so this is a replacement,
    /// e.g. during hot-swap).
    pub fn insert(&mut self, key: RoomKey, entity: Entity) -> (r: Option<Entity>)
        ensures
            final(self)@ == old(self)@.insert(key@, entity),
            final(self)@.dom().finite(),
            final(self)@.len() == old(self)@.len() + if old(self)@.contains_key(key@) {
                0int
            } else {
                1int
            },
            match r {
                Some(e) => old(self)@.contains_key(key@) && e == old(self)@[key@],
                None => !old(self)@.contains_key(key@),
            },
    {
        proof {
            use_type_invariant(&*self);
            lemma_entries_len(self.entries@, entity_view());
            lemma_map_insert_len(self@, key@, entity);
        }
        let mut es: Vec<(RoomKey, Entity)> = Vec::new();
        std::mem::swap(&mut es, &mut self.entries);
        let ghost es0 = es@;
        let previous = match find_entry(&es, &key) {
            Some(i) => {
                proof {
                    lemma_entries_lookup(es0, entity_view(), i as int);
                    lemma_entries_remove(es0, entity_view(), i as int);
                }
                let (_, e) = es.remove(i);
                Some(e)
            },
            None => None,
        };
        let ghost es1 = es@;
        assert(!has_key(es1, key@)) by {
            if has_key(es1, key@) {
                let j = choose|j: int| 0 <= j < es1.len() && (#[trigger] es1[j]).0@ == key@;
                lemma_entries_lookup(es1, entity_view(), j);
            }
        }
        proof {
            lemma_entries_push(es1, entity_view(), (key, entity));
        }
        es.push((key, entity));
        self.entries = es;
        previous
    }

    /// Remove a room key from the registry. Returns the entity that was
    /// registered, or `None` if the key was not present.
    pub fn remove(&mut self, key: &RoomKey) -> (r: Option<Entity>)
        ensures
            final(self)@ == old(self)@.remove(key@),
            final(self)@.dom().finite(),
            final(self)@.len() == old(self)@.len() - if old(self)@.contains_key(key@) {
                1int
            } else {
                0int
            },
            match r {
                Some(e) => old(self)@.contains_key(key@) && e == old(self)@[key@],
                None => !old(self)@.contains_key(key@),
            },
    {
        proof {
            use_type_invariant(&*self);
            lemma_entries_len(self.entries@, entity_view());
            lemma_map_remove_len(self@, key@);
        }
        let mut es: Vec<(RoomKey, Entity)> = Vec::new();
        std::mem::swap(&mut es, &mut self.entries);
        let ghost es0 = es@;
        let removed = match find_entry(&es, key) {
            Some(i) => {
                proof {
                    lemma_entries_lookup(es0, entity_view(), i as int);
                    lemma_entries_remove(es0, entity_view(), i as int);
                }
                let (_, e) = es.remove(i);
                Some(e)
            },
            None => {
                assert(entries_map(es0, entity_view()).remove(key@) =~= entries_map(
                    es0,
                    entity_view(),
                ));
                None
            },
        };
        self.entries = es;
        removed
    }

    /// How many rooms are registered.
    pub fn len(&self) -> (r: usize)
        ensures
            self@.dom().finite(),
            r == self@.len(),
    {
        proof {
            use_type_invariant(self);
            lemma_entries_len(self.entries@, entity_view());
        }
        self.entries.len()
    }

    /// Whether the registry is empty.
    pub fn is_empty(&self) -> (r: bool)
        ensures
            r == (self@.len() == 0),
    {
        self.len() == 0
    }

    /// All (key, entity) pairs, each key once.
    pub fn iter(&self) -> (r: Vec<(&RoomKey, &Entity)>)
        ensures
            r.len() == self@.len(),
            forall|i: int|
                0 <= i < r.len() ==> self@.contains_key((#[trigger] r[i]).0@) && self@[r[i].0@]
                    == *r[i].1,
            forall|i: int, j: int|
                0 <= i < r.len() && 0 <= j < r.len() && i != j ==> (#[trigger] r[i]).0@ != (
                #[trigger] r[j]).0@,
    {
        proof {
            use_type_invariant(self);
            lemma_entries_len(self.entries@, entity_view());
        }
        let mut r: Vec<(&RoomKey, &Entity)> = Vec::new();
        let mut i: usize = 0;
        while i < self.entries.len()
            invariant
                i <= self.entries.len(),
                distinct_keys(self.entries@),
                r.len() == i,
                forall|j: int|
                    0 <= j < i ==> (#[trigger] r[j]).0@ == self.entries@[j].0@ && *r[j].1
                        == self.entries@[j].1,
            decreases self.entries.len() - i,
        {
            let e = &self.entries[i];
            r.push((&e.0, &e.1));
            i = i + 1;
        }
        assert forall|j: int| 0 <= j < r.len() implies self@.contains_key((#[trigger] r[j]).0@)
            && self@[r[j].0@] == *r[j].1 by {
            lemma_entries_lookup(self.entries@, entity_view(), j);
        }
        assert forall|a: int, b: int| 0 <= a < r.len() && 0 <= b < r.len() && a != b implies (
        #[trigger] r[a]).0@ != (#[trigger] r[b]).0@ by {
            assert(self.entries@[a].0@ != self.entries@[b].0@);
        }
        r
    }
}

impl Default for RoomRegistry {
    fn default() -> (r: RoomRegistry)
        ensures
            r@ == Map::<Seq<char>, Entity>::empty(),
    {
        RoomRegistry::new()
    }
}

} // verus!
