use catena::direction::Direction;
use catena::exits::{ExitPatch, Exits};
use catena::room_key::RoomKey;

fn key(s: &str) -> RoomKey {
    RoomKey::try_new(s).unwrap()
}

fn north() -> Direction {
    Direction::standard("north").unwrap()
}

fn south() -> Direction {
    Direction::standard("south").unwrap()
}

#[test]
fn set_produces_reciprocal_patch() {
    let mut exits = Exits::new();
    let self_key = key("catena:room-a");
    let target_key = key("catena:room-b");

    let (patch, displacement) = exits.set(north(), target_key.clone(), &self_key);

    // Our exit map now has north -> room-b
    assert_eq!(exits.get(&north()), Some(&target_key));

    // The patch tells room-b to add south -> room-a
    assert_eq!(
        patch,
        ExitPatch::Add {
            direction: south(),
            target: self_key,
        }
    );

    // No displacement: the slot was empty
    assert!(displacement.is_none());
}

#[test]
fn apply_patch_creates_reciprocal_exit() {
    let mut exits_a = Exits::new();
    let mut exits_b = Exits::new();
    let key_a = key("catena:a");
    let key_b = key("catena:b");

    let (patch, _) = exits_a.set(north(), key_b.clone(), &key_a);
    exits_b.apply_patch(patch);

    // A has north -> B
    assert_eq!(exits_a.get(&north()), Some(&key_b));
    // B has south -> A
    assert_eq!(exits_b.get(&south()), Some(&key_a));
}

#[test]
fn set_displacement_returns_old_target() {
    let mut exits = Exits::new();
    let self_key = key("catena:a");
    let old_target = key("catena:b");
    let new_target = key("catena:c");

    // First set: no displacement
    let (_, displacement) = exits.set(north(), old_target.clone(), &self_key);
    assert!(displacement.is_none());

    // Overwrite north with a new target: old target displaced
    let (add_patch, displacement) = exits.set(north(), new_target.clone(), &self_key);

    // The add patch points the new target back to us
    assert_eq!(
        add_patch,
        ExitPatch::Add {
            direction: south(),
            target: self_key.clone(),
        }
    );

    // Displacement tells caller to clean up room-b's stale reciprocal
    let (displaced_key, remove_patch) = displacement.unwrap();
    assert_eq!(displaced_key, old_target);
    assert_eq!(remove_patch, ExitPatch::Remove { direction: south() });

    // Our exit map points north -> room-c now
    assert_eq!(exits.get(&north()), Some(&new_target));
}

#[test]
fn remove_produces_reciprocal_patch() {
    let mut exits = Exits::new();
    let self_key = key("catena:a");
    let target_key = key("catena:b");

    exits.set(north(), target_key.clone(), &self_key);
    let (removed_target, patch) = exits.remove(&north()).unwrap();

    assert_eq!(removed_target, target_key);
    assert_eq!(exits.get(&north()), None);
    assert_eq!(patch, ExitPatch::Remove { direction: south() });
}

#[test]
fn remove_nonexistent_returns_none() {
    let mut exits = Exits::new();
    assert!(exits.remove(&north()).is_none());
}

#[test]
fn one_way_exit_no_patch() {
    let mut exits = Exits::new();
    exits.set_one_way(north(), key("catena:trap"));
    assert_eq!(exits.get(&north()), Some(&key("catena:trap")));
}

#[test]
fn exits_len_and_is_empty() {
    let mut exits = Exits::new();
    assert!(exits.is_empty());
    assert_eq!(exits.len(), 0);

    exits.set_one_way(north(), key("catena:a"));
    assert!(!exits.is_empty());
    assert_eq!(exits.len(), 1);
}

#[test]
fn iter_yields_all_exits() {
    let mut exits = Exits::new();
    exits.set_one_way(north(), key("catena:a"));
    exits.set_one_way(Direction::standard("east").unwrap(), key("catena:b"));

    let collected: Vec<_> = exits.iter().into_iter().collect();
    assert_eq!(collected.len(), 2);
}

// --- further cases ---

#[test]
fn remove_patch_undoes_add_patch() {
    let mut exits_a = Exits::new();
    let mut exits_b = Exits::new();
    let key_a = key("catena:a");
    let key_b = key("catena:b");
    exits_b.set_one_way(north(), key("catena:c"));

    let (add, _) = exits_a.set(north(), key_b.clone(), &key_a);
    exits_b.apply_patch(add);
    assert_eq!(exits_b.len(), 2);
    let (_, remove) = exits_a.remove(&north()).unwrap();
    exits_b.apply_patch(remove);
    assert_eq!(exits_b.len(), 1);
    assert_eq!(exits_b.get(&south()), None);
    assert_eq!(exits_b.get(&north()), Some(&key("catena:c")));
    assert!(exits_a.is_empty());
}

#[test]
fn custom_direction_patch_keeps_the_name() {
    let mut exits = Exits::new();
    let portal = Direction::new("portal").unwrap();
    let (patch, _) = exits.set(portal.clone(), key("catena:b"), &key("catena:a"));
    assert_eq!(
        patch,
        ExitPatch::Add {
            direction: portal,
            target: key("catena:a"),
        }
    );
}

#[test]
fn remove_one_way_and_contains() {
    let mut exits = Exits::new();
    exits.set_one_way(north(), key("catena:a"));
    assert!(exits.contains(&north()));
    assert!(!exits.contains(&south()));
    assert_eq!(exits.remove_one_way(&north()), Some(key("catena:a")));
    assert!(!exits.contains(&north()));
    assert_eq!(exits.remove_one_way(&north()), None);
}

#[test]
fn overwrite_keeps_one_entry_per_direction() {
    let mut exits = Exits::new();
    exits.set_one_way(north(), key("catena:a"));
    exits.set_one_way(north(), key("catena:b"));
    exits.set_one_way(south(), key("catena:c"));
    assert_eq!(exits.len(), 2);
    let all = exits.iter();
    assert_eq!(all.len(), 2);
    assert!(all.iter().any(|(d, k)| **d == north() && **k == key("catena:b")));
    assert!(all.iter().any(|(d, k)| **d == south() && **k == key("catena:c")));
}

#[test]
fn clone_and_default_exits() {
    let mut exits = Exits::default();
    assert!(exits.is_empty());
    exits.set_one_way(north(), key("catena:a"));
    let copy = exits.clone();
    assert_eq!(copy.get(&north()), Some(&key("catena:a")));
    assert_eq!(copy.len(), 1);
}
