use chess_engine::tt::{entry_count, Bound, Tt, TtEntry, MIN_ENTRIES};

fn fill_fraction(tt: &Tt) -> f32 {
    tt.filled() as f32 / tt.len() as f32
}

#[test]
fn stores_and_probes() {
    let mut tt = Tt::new(1);
    tt.store(0xDEAD_BEEF, 5, 42, Bound::Exact, None);
    let e = tt.probe(0xDEAD_BEEF).expect("entry should be found");
    assert_eq!(e.depth, 5);
    assert_eq!(e.score, 42);
}

#[test]
fn a_miss_returns_none() {
    let tt = Tt::new(1);
    assert!(tt.probe(0xDEAD_BEEF).is_none());
}

#[test]
fn key_zero_is_never_cached() {
    let mut tt = Tt::new(1);
    tt.store(0, 9, 123, Bound::Exact, None);
    assert!(tt.probe(0).is_none(), "key 0 must not match empty slots");
    assert_eq!(fill_fraction(&tt), 0.0);
}

#[test]
fn a_deeper_entry_survives_a_shallower_store() {
    let mut tt = Tt::new(1);
    tt.store(7, 8, 100, Bound::Exact, None);
    tt.store(7, 3, 200, Bound::Exact, None);
    assert_eq!(tt.probe(7).unwrap().score, 100);
}

#[test]
fn filled_counts_slots_not_stores() {
    let mut tt = Tt::new(1);
    tt.store(7, 1, 0, Bound::Exact, None);
    tt.store(7, 2, 0, Bound::Exact, None); // same slot, replaced
    assert_eq!(tt.filled(), 1);
}

#[test]
fn clear_empties_the_table() {
    let mut tt = Tt::new(1);
    tt.store(7, 1, 0, Bound::Exact, None);
    tt.clear();
    assert_eq!(fill_fraction(&tt), 0.0);
    assert!(tt.probe(7).is_none());
}

#[test]
fn size_never_exceeds_the_request() {
    for mb in [1usize, 2, 3, 7, 64, 100] {
        let tt = Tt::new(mb);
        let bytes = tt.len() * std::mem::size_of::<TtEntry>();
        assert!(
            bytes <= mb * 1024 * 1024 || tt.len() == MIN_ENTRIES,
            "{mb} MiB request allocated {bytes} bytes"
        );
        assert!(tt.len().is_power_of_two());
    }
}

#[test]
fn entry_count_is_a_power_of_two_within_the_budget() {
    let per = std::mem::size_of::<TtEntry>();
    assert_eq!(entry_count(0), MIN_ENTRIES);
    for mb in [1usize, 16, 64, 1024] {
        let n = entry_count(mb);
        assert!(n.is_power_of_two());
        assert!(n * per <= mb * 1024 * 1024);
        // The next power of two would not fit.
        assert!(2 * n * per > mb * 1024 * 1024);
    }
}

#[test]
fn a_shallower_entry_for_another_key_is_replaced() {
    let mut tt = Tt::new(1);
    let n = tt.len() as u64;
    tt.store(5, 9, 1, Bound::Lower, None);
    tt.store(5 + n, 1, 2, Bound::Upper, None); // same slot, other key
    assert!(tt.probe(5).is_none());
    let e = tt.probe(5 + n).unwrap();
    assert_eq!((e.depth, e.score, e.bound), (1, 2, Bound::Upper));
    assert_eq!(tt.filled(), 1);
}

#[test]
fn hashfull_is_in_permille() {
    let mut tt = Tt::new(0);
    assert_eq!(tt.len(), MIN_ENTRIES);
    assert_eq!(tt.hashfull(), 0);
    for k in 1..=512u64 {
        tt.store(k, 1, 0, Bound::Exact, None);
    }
    assert_eq!(tt.filled(), 512);
    assert_eq!(tt.hashfull(), 500);
    tt.resize(1);
    assert_eq!(tt.filled(), 0);
}
