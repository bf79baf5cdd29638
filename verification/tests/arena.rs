use hex_guest::arena::Arena;

fn pattern(seed: u8, len: u32) -> Vec<u8> {
    (0..len).map(|i| seed.wrapping_add(i as u8).wrapping_mul(31)).collect()
}

#[test]
fn new_arena_is_zeroed() {
    let arena = Arena::new(16);
    assert_eq!(arena.read(0, 16), vec![0u8; 16]);
}

#[test]
fn allocate_within_capacity_succeeds() {
    let mut arena = Arena::new(8);
    assert!(arena.allocate(8).is_some());
    assert!(arena.allocate(1).is_none());
}

#[test]
fn allocations_are_disjoint_and_writes_do_not_leak() {
    let mut arena = Arena::new(64);
    let a = arena.allocate(8).unwrap();
    let b = arena.allocate(8).unwrap();
    assert_ne!(a, b);
    arena.write(a, &pattern(1, 8));
    arena.write(b, &pattern(2, 8));
    assert_eq!(arena.read(a, 8), pattern(1, 8));
    assert_eq!(arena.read(b, 8), pattern(2, 8));
}

#[test]
fn space_is_reclaimed_once_everything_is_released() {
    let mut arena = Arena::new(4);
    for _ in 0..100 {
        let p = arena.allocate(4).unwrap();
        arena.release(p, 4);
    }
}

#[test]
fn zero_size_allocations_have_distinct_pointers() {
    let mut arena = Arena::new(4);
    let a = arena.allocate(0).unwrap();
    let b = arena.allocate(0).unwrap();
    assert_ne!(a, b);
}

#[test]
fn random_cycles_never_corrupt_live_allocations() {
    let mut arena = Arena::new(1 << 12);
    let mut live: Vec<(u32, u32, u8)> = Vec::new();
    let mut state: u64 = 0x9E37_79B9_7F4A_7C15;
    let mut step = || {
        state = state.wrapping_mul(6364136223846793005).wrapping_add(1442695040888963407);
        (state >> 33) as u32
    };
    for round in 0..2000 {
        let release_first = !live.is_empty() && step() % 3 == 0;
        if release_first {
            let at = step() as usize % live.len();
            let (p, s, _) = live.swap_remove(at);
            arena.release(p, s);
        } else {
            let size = step() % 24;
            if let Some(p) = arena.allocate(size) {
                let seed = (round % 251) as u8;
                arena.write(p, &pattern(seed, size));
                live.push((p, size, seed));
            } else {
                // Out of space: drain everything and let the arena reclaim.
                for (p, s, _) in live.drain(..) {
                    arena.release(p, s);
                }
            }
        }
        for &(p, s, seed) in &live {
            assert_eq!(arena.read(p, s), pattern(seed, s));
        }
    }
}
