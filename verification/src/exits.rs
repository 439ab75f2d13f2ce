//! Opaque exit map enforcing bidirectional consistency.
//!
//! The `Exits` component maps directions to room keys. Mutation goes through
//! its API, which returns the operations that the caller must apply to the
//! destination room to keep exits bidirectional. The backing container is
//! private.

use vstd::prelude::*;

use crate::direction::{inverse_name, Direction};
use crate::keyed::{
    distinct_keys, entries_map, has_key, lemma_entries_empty, lemma_entries_len,
    lemma_entries_lookup, lemma_entries_push, lemma_entries_remove, lemma_map_insert_len,
    lemma_map_remove_len,
};
use crate::room_key::RoomKey;

verus! {

/// An exit map for a single room, seen as a map from direction name to the key
/// of the room that the exit leads to.
///
/// Each direction occurs at most once. All mutations go through methods that
/// return [`ExitPatch`] values describing the reciprocal operations the caller
/// must apply to keep exits bidirectional.
#[derive(Debug)]
pub struct Exits {
    entries: Vec<(Direction, RoomKey)>,
}

/// A reciprocal operation that must be applied to a destination room's exits
/// to maintain bidirectional consistency.
#[derive(Clone, Debug, PartialEq, Eq)]
pub enum ExitPatch {
    /// The destination room should add an exit in the given direction pointing
    /// to the given room key.
    Add { direction: Direction, target: RoomKey },
    /// The destination room should remove the exit in the given direction.
    Remove { direction: Direction },
}

/// How a stored room key appears in the map view: by its characters.
pub open spec fn target_view() -> spec_fn(RoomKey) -> Seq<char> {
    |k: RoomKey| k@
}

/// `p` tells the destination to add an exit named `direction` leading to `target`.
pub open spec fn is_add_patch(p: ExitPatch, direction: Seq<char>, target: Seq<char>) -> bool {
    p matches ExitPatch::Add { direction: d, target: t } && d@ == direction && t@ == target
}

/// `p` tells the destination to remove its exit named `direction`.
pub open spec fn is_remove_patch(p: ExitPatch, direction: Seq<char>) -> bool {
    p matches ExitPatch::Remove { direction: d } && d@ == direction
}

/// The exit map `m` after applying `p` to it.
pub open spec fn patched(m: Map<Seq<char>, Seq<char>>, p: ExitPatch) -> Map<Seq<char>, Seq<char>> {
    match p {
        ExitPatch::Add { direction, target } => m.insert(direction@, target@),
        ExitPatch::Remove { direction } => m.remove(direction@),
    }
}

/// Applying the patch that `set` returns to the destination room gives it an
/// exit in the inverse direction leading back to the source room, and going
/// back through that exit's inverse is the original direction.
pub proof fn lemma_add_patch_links_back(
    dest: Map<Seq<char>, Seq<char>>,
    p: ExitPatch,
    direction: Seq<char>,
    source: Seq<char>,
)
    requires
        is_add_patch(p, inverse_name(direction), source),
    ensures
        patched(dest, p).contains_key(inverse_name(direction)),
        patched(dest, p)[inverse_name(direction)] == source,
        inverse_name(inverse_name(direction)) == direction,
{
    crate::direction::lemma_inverse_involution(direction);
}

/// The patch that `remove` returns undoes, on a destination that had no exit in
/// the inverse direction before, the patch that `set` gave it.
pub proof fn lemma_remove_patch_undoes_add_patch(
    dest: Map<Seq<char>, Seq<char>>,
    add: ExitPatch,
    remove: ExitPatch,
    direction: Seq<char>,
    source: Seq<char>,
)
    requires
        is_add_patch(add, inverse_name(direction), source),
        is_remove_patch(remove, inverse_name(direction)),
        !dest.contains_key(inverse_name(direction)),
    ensures
        patched(patched(dest, add), remove) == dest,
{
    assert(patched(patched(dest, add), remove) =~= dest);
}

/// Removing an exit that was just set in a free direction gives back the exit
/// map from before, and the removed target is the one that was set.
pub proof fn lemma_set_then_remove_restores(
    m: Map<Seq<char>, Seq<char>>,
    direction: Seq<char>,
    target: Seq<char>,
)
    requires
        !m.contains_key(direction),
    ensures
        m.insert(direction, target).remove(direction) == m,
        m.insert(direction, target)[direction] == target,
{
    assert(m.insert(direction, target).remove(direction) =~= m);
}

impl View for Exits {
    type V = Map<Seq<char>, Seq<char>>;

    closed spec fn view(&self) -> Map<Seq<char>, Seq<char>> {
        entries_map(self.entries@, target_view())
    }
}

/// Finds the entry for `direction`.
fn find_entry(es: &Vec<(Direction, RoomKey)>, direction: &Direction) -> (r: Option<usize>)
    ensures
        match r {
            Some(i) => i < es.len() && es@[i as int].0@ == direction@,
            None => !has_key(es@, direction@),
        },
{
    let mut i: usize = 0;
    while i < es.len()
        invariant
            i <= es.len(),
            forall|j: int| 0 <= j < i ==> (#[trigger] es@[j]).0@ != direction@,
        decreases es.len() - i,
    {
        if es[i].0 == *direction {
            return Some(i);
        }
        i = i + 1;
    }
    None
}

impl Exits {
    #[verifier::type_invariant]
    spec fn inv(self) -> bool {
        distinct_keys(self.entries@)
    }

    /// Create an empty exit map.
    pub fn new() -> (r: Exits)
        ensures
            r@ == Map::<Seq<char>, Seq<char>>::empty(),
    {
        let r = Exits { entries: Vec::new() };
        proof {
            lemma_entries_empty(r.entries@, target_view());
        }
        r
    }

    /// Look up where a direction leads.
    pub fn get(&self, direction: &Direction) -> (r: Option<&RoomKey>)
        ensures
            match r {
                Some(k) => self@.contains_key(direction@) && k@ == self@[direction@],
                None => !self@.contains_key(direction@),
            },
    {
        proof {
            use_type_invariant(self);
        }
        match find_entry(&self.entries, direction) {
            Some(i) => {
                proof {
                    lemma_entries_lookup(self.entries@, target_view(), i as int);
                }
                Some(&self.entries[i].1)
            },
            None => None,
        }
    }

    /// Returns `true` if this exit map contains the given direction.
    pub fn contains(&self, direction: &Direction) -> (r: bool)
        ensures
            r == self@.contains_key(direction@),
    {
        match find_entry(&self.entries, direction) {
            Some(_) => true,
            None => false,
        }
    }

    /// How many exits this room has.
    pub fn len(&self) -> (r: usize)
        ensures
            self@.dom().finite(),
            r == self@.len(),
    {
        proof {
            use_type_invariant(self);
            lemma_entries_len(self.entries@, target_view());
        }
        self.entries.len()
    }

    /// Whether this room has no exits.
    pub fn is_empty(&self) -> (r: bool)
        ensures
            r == (self@.len() == 0),
    {
        self.len() == 0
    }

    /// All (direction, room key) pairs, each direction once.
    pub fn iter(&self) -> (r: Vec<(&Direction, &RoomKey)>)
        ensures
            r.len() == self@.len(),
            forall|i: int|
                0 <= i < r.len() ==> self@.contains_key((#[trigger] r[i]).0@) && self@[r[i].0@]
                    == r[i].1@,
            forall|i: int, j: int|
                0 <= i < r.len() && 0 <= j < r.len() && i != j ==> (#[trigger] r[i]).0@ != (
                #[trigger] r[j]).0@,
    {
        proof {
            use_type_invariant(self);
            lemma_entries_len(self.entries@, target_view());
        }
        let mut r: Vec<(&Direction, &RoomKey)> = Vec::new();
        let mut i: usize = 0;
        while i < self.entries.len()
            invariant
                i <= self.entries.len(),
                distinct_keys(self.entries@),
                r.len() == i,
                forall|j: int|
                    0 <= j < i ==> (#[trigger] r[j]).0@ == self.entries@[j].0@ && r[j].1@
                        == self.entries@[j].1@,
            decreases self.entries.len() - i,
        {
            let e = &self.entries[i];
            r.push((&e.0, &e.1));
            i = i + 1;
        }
        assert forall|j: int| 0 <= j < r.len() implies self@.contains_key((#[trigger] r[j]).0@)
            && self@[r[j].0@] == r[j].1@ by {
            lemma_entries_lookup(self.entries@, target_view(), j);
        }
        assert forall|a: int, b: int| 0 <= a < r.len() && 0 <= b < r.len() && a != b implies (
        #[trigger] r[a]).0@ != (#[trigger] r[b]).0@ by {
            assert(self.entries@[a].0@ != self.entries@[b].0@);
        }
        r
    }

    /// Add a two-way exit. Returns an [`ExitPatch::Add`] that the caller must
    /// apply to the destination room to complete the bidirectional link: an
    /// exit in the inverse direction leading back to `self_key`.
    ///
    /// If an exit already existed in this direction, the old target is
    /// displaced. The second element of the returned tuple then carries that
    /// old target and an [`ExitPatch::Remove`] of the inverse direction, to be
    /// applied to the old target to clean up its stale reciprocal; when no
    /// displacement occurs it is `None`.
    pub fn set(&mut self, direction: Direction, target: RoomKey, self_key: &RoomKey) -> (r: (
        ExitPatch,
        Option<(RoomKey, ExitPatch)>,
    ))
        ensures
            final(self)@ == old(self)@.insert(direction@, target@),
            final(self)@.dom().finite(),
            final(self)@.len() == old(self)@.len() + if old(self)@.contains_key(direction@) {
                0int
            } else {
                1int
            },
            is_add_patch(r.0, inverse_name(direction@), self_key@),
            match r.1 {
                Some((old_target, patch)) => {
                    &&& old(self)@.contains_key(direction@)
                    &&& old_target@ == old(self)@[direction@]
                    &&& is_remove_patch(patch, inverse_name(direction@))
                },
                None => !old(self)@.contains_key(direction@),
            },
    {
        let ghost before = self@;
        let back = direction.inverse();
        let back_again = back.clone();
        let ghost (d, t) = (direction@, target@);
        let old = self.insert_entry(direction, target);
        proof {
            lemma_map_insert_len(before, d, t);
        }
        let add_patch = ExitPatch::Add { direction: back, target: self_key.clone() };
        let displacement = match old {
            Some(old_target) => Some((old_target, ExitPatch::Remove { direction: back_again })),
            None => None,
        };
        (add_patch, displacement)
    }

    /// Add a one-way exit (no reciprocal patch): the destination simply has no
    /// corresponding exit back.
    pub fn set_one_way(&mut self, direction: Direction, target: RoomKey)
        ensures
            final(self)@ == old(self)@.insert(direction@, target@),
            final(self)@.dom().finite(),
            final(self)@.len() == old(self)@.len() + if old(self)@.contains_key(direction@) {
                0int
            } else {
                1int
            },
    {
        let ghost before = self@;
        let ghost (d, t) = (direction@, target@);
        self.insert_entry(direction, target);
        proof {
            lemma_map_insert_len(before, d, t);
        }
    }

    /// Remove an exit. Returns where it led and an [`ExitPatch::Remove`] of
    /// the inverse direction that the caller must apply to the destination
    /// room to clean up the reciprocal link; `None` if no exit existed in this
    /// direction.
    pub fn remove(&mut self, direction: &Direction) -> (r: Option<(RoomKey, ExitPatch)>)
        ensures
            final(self)@ == old(self)@.remove(direction@),
            final(self)@.dom().finite(),
            final(self)@.len() == old(self)@.len() - if old(self)@.contains_key(direction@) {
                1int
            } else {
                0int
            },
            match r {
                Some((target, patch)) => {
                    &&& old(self)@.contains_key(direction@)
                    &&& target@ == old(self)@[direction@]
                    &&& is_remove_patch(patch, inverse_name(direction@))
                },
                None => !old(self)@.contains_key(direction@),
            },
    {
        let ghost before = self@;
        let removed = self.remove_entry(direction);
        proof {
            lemma_map_remove_len(before, direction@);
        }
        let target = removed?;
        let patch = ExitPatch::Remove { direction: direction.inverse() };
        Some((target, patch))
    }

    /// Remove an exit without producing a reciprocal patch. Used when applying
    /// an [`ExitPatch::Remove`] from another room.
    pub fn remove_one_way(&mut self, direction: &Direction) -> (r: Option<RoomKey>)
        ensures
            final(self)@ == old(self)@.remove(direction@),
            final(self)@.dom().finite(),
            final(self)@.len() == old(self)@.len() - if old(self)@.contains_key(direction@) {
                1int
            } else {
                0int
            },
            match r {
                Some(target) => old(self)@.contains_key(direction@) && target@ == old(
                    self,
                )@[direction@],
                None => !old(self)@.contains_key(direction@),
            },
    {
        let ghost before = self@;
        let removed = self.remove_entry(direction);
        proof {
            lemma_map_remove_len(before, direction@);
        }
        removed
    }

    /// Apply an [`ExitPatch`] received from another room's mutation.
    pub fn apply_patch(&mut self, patch: ExitPatch)
        ensures
            final(self)@ == patched(old(self)@, patch),
            final(self)@.dom().finite(),
    {
        match patch {
            ExitPatch::Add { direction, target } => {
                self.insert_entry(direction, target);
            },
            ExitPatch::Remove { direction } => {
                self.remove_entry(&direction);
            },
        }
    }

    /// Points `direction` at `target`, returning the target it had before.
    fn insert_entry(&mut self, direction: Direction, target: RoomKey) -> (r: Option<RoomKey>)
        ensures
            final(self)@ == old(self)@.insert(direction@, target@),
            old(self)@.dom().finite(),
            final(self)@.dom().finite(),
            match r {
                Some(k) => old(self)@.contains_key(direction@) && k@ == old(self)@[direction@],
                None => !old(self)@.contains_key(direction@),
            },
    {
        proof {
            use_type_invariant(&*self);
            lemma_entries_len(self.entries@, target_view());
        }
        let mut es: Vec<(Direction, RoomKey)> = Vec::new();
        std::mem::swap(&mut es, &mut self.entries);
        let ghost es0 = es@;
        let previous = match find_entry(&es, &direction) {
            Some(i) => {
                proof {
                    lemma_entries_lookup(es0, target_view(), i as int);
                    lemma_entries_remove(es0, target_view(), i as int);
                }
                let (_, k) = es.remove(i);
                Some(k)
            },
            None => None,
        };
        let ghost es1 = es@;
        assert(!has_key(es1, direction@)) by {
            if has_key(es1, direction@) {
                let j = choose|j: int| 0 <= j < es1.len() && (#[trigger] es1[j]).0@ == direction@;
                lemma_entries_lookup(es1, target_view(), j);
            }
        }
        proof {
            lemma_entries_push(es1, target_view(), (direction, target));
        }
        es.push((direction, target));
        self.entries = es;
        previous
    }

    /// Removes the exit in `direction`, returning where it led.
    fn remove_entry(&mut self, direction: &Direction) -> (r: Option<RoomKey>)
        ensures
            final(self)@ == old(self)@.remove(direction@),
            old(self)@.dom().finite(),
            final(self)@.dom().finite(),
            match r {
                Some(k) => old(self)@.contains_key(direction@) && k@ == old(self)@[direction@],
                None => !old(self)@.contains_key(direction@),
            },
    {
        proof {
            use_type_invariant(&*self);
            lemma_entries_len(self.entries@, target_view());
        }
        let mut es: Vec<(Direction, RoomKey)> = Vec::new();
        std::mem::swap(&mut es, &mut self.entries);
        let ghost es0 = es@;
        let removed = match find_entry(&es, direction) {
            Some(i) => {
                proof {
                    lemma_entries_lookup(es0, target_view(), i as int);
                    lemma_entries_remove(es0, target_view(), i as int);
                }
                let (_, k) = es.remove(i);
                Some(k)
            },
            None => {
                assert(entries_map(es0, target_view()).remove(direction@) =~= entries_map(
                    es0,
                    target_view(),
                ));
                None
            },
        };
        self.entries = es;
        removed
    }
}

impl Default for Exits {
    fn default() -> (r: Exits)
        ensures
            r@ == Map::<Seq<char>, Seq<char>>::empty(),
    {
        Exits::new()
    }
}

impl Clone for Exits {
    fn clone(&self) -> (r: Exits)
        ensures
            r@ == self@,
    {
        proof {
            use_type_invariant(self);
        }
        let mut es: Vec<(Direction, RoomKey)> = Vec::new();
        let mut i: usize = 0;
        while i < self.entries.len()
            invariant
                i <= self.entries.len(),
                distinct_keys(self.entries@),
                es.len() == i,
                forall|j: int|
                    0 <= j < i ==> (#[trigger] es@[j]).0@ == self.entries@[j].0@ && es@[j].1@
                        == self.entries@[j].1@,
            decreases self.entries.len() - i,
        {
            let e = &self.entries[i];
            es.push((e.0.clone(), e.1.clone()));
            i = i + 1;
        }
        assert(distinct_keys(es@)) by {
            assert forall|a: int, b: int|
                0 <= a < es@.len() && 0 <= b < es@.len() && a != b implies (#[trigger] es@[a]).0@
                != (#[trigger] es@[b]).0@ by {
                assert(self.entries@[a].0@ != self.entries@[b].0@);
            }
        }
        let r = Exits { entries: es };
        assert forall|k: Seq<char>| #[trigger] r@.contains_key(k) <==> self@.contains_key(k) by {
            if has_key(es@, k) {
                let j = choose|j: int| 0 <= j < es@.len() && (#[trigger] es@[j]).0@ == k;
                assert(self.entries@[j].0@ == k);
            }
            if has_key(self.entries@, k) {
                let j = choose|j: int|
                    0 <= j < self.entries@.len() && (#[trigger] self.entries@[j]).0@ == k;
                assert(es@[j].0@ == k);
            }
        }
        assert forall|k: Seq<char>| #[trigger] r@.contains_key(k) implies r@[k] == self@[k] by {
            let j = choose|j: int| 0 <= j < es@.len() && (#[trigger] es@[j]).0@ == k;
            lemma_entries_lookup(es@, target_view(), j);
            lemma_entries_lookup(self.entries@, target_view(), j);
        }
        assert(r@ =~= self@);
        r
    }
}

} // verus!
