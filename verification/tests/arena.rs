//! Handle-arena behavior: handles resolve from insert to remove and never
//! again afterward, even when slots are reused.

use rare::handle::{Handle, HandleArena};

#[test]
fn insert_then_get() {
    let mut arena: HandleArena<u32> = HandleArena::new();
    let a = arena.insert(10);
    let b = arena.insert(20);
    assert_eq!(arena.get(a), Some(&10));
    assert_eq!(arena.get(b), Some(&20));
    assert!(arena.contains(a));
    assert!(arena.contains(b));
}

#[test]
fn remove_makes_handle_unresolvable() {
    let mut arena: HandleArena<u32> = HandleArena::new();
    let a = arena.insert(10);
    let b = arena.insert(20);
    assert_eq!(arena.remove(a), Some(10));
    assert_eq!(arena.get(a), None);
    assert!(!arena.contains(a));
    assert_eq!(arena.get(b), Some(&20));
    assert_eq!(arena.remove(a), None);
}

#[test]
fn removed_handle_stays_dead_after_slot_reuse() {
    let mut arena: HandleArena<u32> = HandleArena::new();
    let a = arena.insert(1);
    assert_eq!(arena.remove(a), Some(1));
    let b = arena.insert(2);
    // The slot is reused, but the old handle must not alias the newcomer.
    assert_eq!(b.index, a.index);
    assert_ne!(a, b);
    assert_eq!(arena.get(a), None);
    assert_eq!(arena.get(b), Some(&2));
}

#[test]
fn interleaved_churn_keeps_live_handles_valid() {
    let mut arena: HandleArena<u32> = HandleArena::new();
    let mut live: Vec<(Handle, u32)> = Vec::new();
    let mut dead: Vec<Handle> = Vec::new();
    for round in 0..6u32 {
        for k in 0..4u32 {
            let v = round * 10 + k;
            live.push((arena.insert(v), v));
        }
        // Remove every other live entry.
        let mut keep = Vec::new();
        for (idx, (h, v)) in live.drain(..).enumerate() {
            if idx % 2 == 0 {
                assert_eq!(arena.remove(h), Some(v));
                dead.push(h);
            } else {
                keep.push((h, v));
            }
        }
        live = keep;
        for (h, v) in &live {
            assert_eq!(arena.get(*h), Some(v));
        }
        for h in &dead {
            assert_eq!(arena.get(*h), None);
        }
    }
}

#[test]
fn append_issues_handles_in_input_order() {
    let mut arena: HandleArena<&str> = HandleArena::new();
    let hs = arena.append(vec!["a", "b", "c"]);
    assert_eq!(hs.len(), 3);
    assert_eq!(arena.get(hs[0]), Some(&"a"));
    assert_eq!(arena.get(hs[1]), Some(&"b"));
    assert_eq!(arena.get(hs[2]), Some(&"c"));
    assert_ne!(hs[0], hs[1]);
    assert_ne!(hs[1], hs[2]);
}

#[test]
fn handles_walk_slots_in_order() {
    let mut arena: HandleArena<u32> = HandleArena::new();
    let a = arena.insert(1);
    let b = arena.insert(2);
    let c = arena.insert(3);
    arena.remove(b);
    let hs = arena.handles();
    assert_eq!(hs, vec![a, c]);
}

#[test]
fn unknown_handle_resolves_to_nothing() {
    let arena: HandleArena<u32> = HandleArena::new();
    let stray = Handle { index: 7, generation: 3 };
    assert_eq!(arena.get(stray), None);
    assert!(!arena.contains(stray));
}
