use pathtrace::random::{pcg_hash, wang_hash, PcgHashRng};

#[test]
fn pcg_hash_known_values() {
    assert_eq!(pcg_hash(0), 129708002);
    assert_eq!(pcg_hash(1), 2831084092);
    assert_eq!(pcg_hash(42), 1223963391);
    assert_eq!(pcg_hash(u32::MAX), 3861530882);
}

#[test]
fn wang_hash_known_values() {
    assert_eq!(wang_hash(0), 3232319850);
    assert_eq!(wang_hash(1), 663891101);
    assert_eq!(wang_hash(42), 1462734105);
    assert_eq!(wang_hash(u32::MAX), 1895078355);
}

#[test]
fn rng_new_keeps_seed() {
    let rng = PcgHashRng::new(99);
    assert_eq!(rng.seed, 99);
}

#[test]
fn rng_next_u32_steps_by_hash() {
    let mut rng = PcgHashRng::new(0);
    assert_eq!(rng.next_u32(), 129708002);
    assert_eq!(rng.seed, 129708002);
    assert_eq!(rng.next_u32(), pcg_hash(129708002));
}

#[test]
fn rng_next_u64_joins_two_draws_low_first() {
    let mut rng = PcgHashRng::new(7);
    let value = rng.next_u64();
    assert_eq!(value, 9270346049047171612);
    assert_eq!(value & 0xffff_ffff, 2120684060);
    assert_eq!(value >> 32, 2158420637);
    assert_eq!(rng.seed, 2158420637);
}

#[test]
fn rng_same_seed_same_sequence() {
    let mut a = PcgHashRng::new(12345);
    let mut b = PcgHashRng::new(12345);
    for _ in 0..100 {
        assert_eq!(a.next_u32(), b.next_u32());
    }
    let mut c = PcgHashRng::new(12346);
    let mut d = PcgHashRng::new(12345);
    assert_ne!(c.next_u32(), d.next_u32());
}
