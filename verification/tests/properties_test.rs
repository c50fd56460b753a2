use hypeerlog::Hypeerlog;
use hypeerlog::murmur::{Murmur3BuildHasher, Murmur3Hasher, hash_u64};
use hypeerlog::utils::{get_bucket, longest_run, pow_two};

fn splitmix64(state: &mut u64) -> u64 {
    *state = state.wrapping_add(0x9E3779B97F4A7C15);
    let mut z = *state;
    z = (z ^ (z >> 30)).wrapping_mul(0xBF58476D1CE4E5B9);
    z = (z ^ (z >> 27)).wrapping_mul(0x94D049BB133111EB);
    z ^ (z >> 31)
}

fn distinct_values(count: usize, seed: u64) -> Vec<u64> {
    let mut state = seed;
    let mut seen = std::collections::HashSet::with_capacity(count);
    let mut out = Vec::with_capacity(count);
    while out.len() < count {
        let v = splitmix64(&mut state);
        if seen.insert(v) {
            out.push(v);
        }
    }
    out
}

fn estimate_cardinality(dump: &[u8]) -> f64 {
    let regs = &dump[..dump.len() - 1];
    let m = regs.len() as f64;
    let zeros = regs.iter().filter(|&&v| v == 0).count();
    if zeros == regs.len() {
        return 0.0;
    }
    let alpha = match regs.len() {
        16 => 0.673,
        32 => 0.697,
        64 => 0.709,
        _ => 0.7213 / (1.0 + 1.079 / m),
    };
    let z: f64 = regs.iter().map(|&v| 2.0f64.powi(-(v as i32))).sum();
    let mut e = alpha * m * m / z;
    if zeros > 0 && e <= 2.5 * m {
        e = m * (m / zeros as f64).ln();
    }
    let threshold = 2.0f64.powi(64) / 30.0;
    if e > threshold {
        e = -threshold * (1.0 - e / threshold).ln();
    }
    e
}

fn filled(p: u8, values: &[u64]) -> Hypeerlog {
    let mut h = Hypeerlog::with_percision(p);
    h.insert_many(values);
    h
}

#[test]
fn test_insert_order_irrelevant() {
    let a: u64 = 0xDEAD_BEEF;
    let b: u64 = 42;
    let c: u64 = u64::MAX;
    let mut one = Hypeerlog::with_percision(8);
    one.insert_many(&[a, b, c]);
    let mut two = Hypeerlog::with_percision(8);
    two.insert_many(&[c, b, a]);
    assert_eq!(one.dump(), two.dump());
    assert!(one == two);
}

#[test]
fn test_duplicates_do_not_change_state() {
    let values = distinct_values(50, 11);
    let mut once = Hypeerlog::with_percision(10);
    once.insert_many(&values);
    let mut thrice = Hypeerlog::with_percision(10);
    thrice.insert_many(&values);
    thrice.insert_many(&values);
    thrice.insert_many(&values);
    assert!(once == thrice);
}

#[test]
fn test_dump_format() {
    let h = Hypeerlog::with_percision(4);
    let d = h.dump();
    assert_eq!(d.len(), 17);
    assert_eq!(d[16], 4);
    assert!(d[..16].iter().all(|&v| v == 0));
}

#[test]
fn test_roundtrip_small() {
    let mut h = Hypeerlog::with_percision(4);
    h.insert(1);
    h.insert(2);
    h.insert(3);
    let reloaded = Hypeerlog::load(h.dump()).unwrap();
    assert!(reloaded == h);
    assert_eq!(reloaded.dump(), h.dump());
}

#[test]
fn test_load_rejects_empty() {
    assert!(Hypeerlog::load(vec![]).is_err());
}

#[test]
fn test_load_rejects_length_mismatch() {
    // trailing byte says 2^2 = 4 registers, but only 3 precede it
    assert!(Hypeerlog::load(vec![0, 0, 0, 2]).is_err());
    // 16 registers but the trailing byte says 2^5 = 32
    let mut sixteen = vec![0u8; 16];
    sixteen.push(5);
    assert!(Hypeerlog::load(sixteen).is_err());
    // a matching buffer loads: 4 registers and a trailing 2
    let ok = Hypeerlog::load(vec![7, 0, 255, 1, 2]).unwrap();
    assert_eq!(ok.registers(), 4);
    assert!(!ok.is_empty());
}

#[test]
fn test_merge_mismatched_percision_fails() {
    let a = Hypeerlog::with_percision(8);
    let b = Hypeerlog::with_percision(10);
    assert!(a.merge(b).is_err());
}

#[test]
fn test_merge_commutative() {
    let xs = distinct_values(300, 21);
    let ys = distinct_values(400, 22);
    let ab = filled(10, &xs).merge(filled(10, &ys)).unwrap();
    let ba = filled(10, &ys).merge(filled(10, &xs)).unwrap();
    assert_eq!(ab.dump(), ba.dump());
}

#[test]
fn test_merge_associative() {
    let xs = distinct_values(300, 31);
    let ys = distinct_values(400, 32);
    let zs = distinct_values(500, 33);
    let left = filled(10, &xs)
        .merge(filled(10, &ys))
        .unwrap()
        .merge(filled(10, &zs))
        .unwrap();
    let right = filled(10, &xs)
        .merge(filled(10, &ys).merge(filled(10, &zs)).unwrap())
        .unwrap();
    assert_eq!(left.dump(), right.dump());
}

#[test]
fn test_merge_disjoint_counts_like_union() {
    let xs = distinct_values(800, 7);
    let mut state: u64 = 9;
    let mut ys = Vec::with_capacity(900);
    let xset: std::collections::HashSet<u64> = xs.iter().copied().collect();
    let mut yseen = std::collections::HashSet::new();
    while ys.len() < 900 {
        let v = splitmix64(&mut state);
        if !xset.contains(&v) && yseen.insert(v) {
            ys.push(v);
        }
    }
    let merged = filled(10, &xs).merge(filled(10, &ys)).unwrap();
    let mut union = Hypeerlog::with_percision(10);
    union.insert_many(&xs);
    union.insert_many(&ys);
    assert!(merged == union);
    let e_merged = estimate_cardinality(&merged.dump());
    let e_union = estimate_cardinality(&union.dump());
    assert!(e_merged == e_union);
    let true_card = 1700.0;
    let bound = 3.0 * 1.04 / (1024.0f64).sqrt();
    assert!((e_merged - true_card).abs() / true_card < bound);
}

#[test]
fn test_fresh_estimator_is_empty() {
    let h = Hypeerlog::new();
    assert!(h.is_empty());
    assert_eq!(h.registers(), 1 << 14);
    assert_eq!(estimate_cardinality(&h.dump()), 0.0);
}

#[test]
fn test_clear_resets_but_keeps_percision() {
    let mut h = Hypeerlog::with_percision(6);
    h.insert_many(&distinct_values(100, 5));
    assert!(!h.is_empty());
    h.clear();
    assert!(h.is_empty());
    assert_eq!(h.registers(), 64);
    assert_eq!(estimate_cardinality(&h.dump()), 0.0);
    let d = h.dump();
    assert_eq!(d[d.len() - 1], 6);
}

#[test]
fn test_percision_clamping() {
    assert_eq!(Hypeerlog::with_percision(0).registers(), 16);
    assert_eq!(Hypeerlog::with_percision(4).registers(), 16);
    assert_eq!(Hypeerlog::with_percision(20).registers(), 1 << 20);
    assert_eq!(Hypeerlog::with_percision(25).registers(), 1 << 20);
    assert_eq!(Hypeerlog::with_percision_seed(2, 99).registers(), 16);
}

#[test]
fn test_accuracy_within_error_bound() {
    for &p in &[6u8, 8, 10, 12] {
        let m = 1u64 << p;
        let bound = 3.0 * 1.04 / (m as f64).sqrt();
        for card in (100..=1000).step_by(100) {
            let seed = (p as u64) * 1000 + card as u64;
            let values = distinct_values(card, seed);
            let h = filled(p, &values);
            let e = estimate_cardinality(&h.dump());
            let err = (e - card as f64).abs() / card as f64;
            assert!(
                err < bound,
                "p={} card={} estimate={} err={} bound={}",
                p,
                card,
                e,
                err,
                bound
            );
        }
    }
}

#[test]
fn test_thousand_distinct_values() {
    let mut h = Hypeerlog::with_percision(8);
    h.insert_many(&distinct_values(1000, 42));
    let e = estimate_cardinality(&h.dump());
    assert!(950.0 <= e && e <= 1050.0, "estimate was {}", e);
}

#[test]
fn test_single_value_inserted_often() {
    let mut h = Hypeerlog::with_percision(8);
    for _ in 0..1000 {
        h.insert(42);
    }
    let e = estimate_cardinality(&h.dump());
    assert!(0.9 <= e && e <= 1.1, "estimate was {}", e);
    let d = h.dump();
    assert_eq!(d[..256].iter().filter(|&&v| v != 0).count(), 1);
}

#[test]
fn test_linear_counting_exact_value() {
    let mut h = Hypeerlog::with_percision(4);
    h.insert(1);
    let e = estimate_cardinality(&h.dump());
    let expected = 16.0 * (16.0f64 / 15.0).ln();
    assert!((e - expected).abs() < 1e-12);
}

#[test]
fn test_bit_utils_exact_values() {
    assert_eq!(pow_two(0), 1);
    assert_eq!(pow_two(4), 16);
    assert_eq!(pow_two(20), 1 << 20);
    assert_eq!(get_bucket(8, 0x1FF), 0xFF);
    assert_eq!(get_bucket(0, u64::MAX), 0);
    assert_eq!(get_bucket(63, u64::MAX), (1u64 << 63) as usize - 1);
    assert_eq!(longest_run(8, 0x100), 1);
    assert_eq!(longest_run(8, 0x400), 3);
    assert_eq!(longest_run(8, 0), 65);
    assert_eq!(longest_run(0, 0), 65);
}

#[test]
fn test_murmur_known_vectors() {
    let h = Murmur3Hasher::new(0);
    assert_eq!(h.finish(), 0x0);

    let mut h = Murmur3Hasher::new(0);
    h.write(&[0, 0, 0, 0]);
    assert_eq!(h.finish(), 0x2362f9de);

    let mut h = Murmur3Hasher::new(0);
    h.write(b"test");
    assert_eq!(h.finish(), 0xba6bd213);

    let mut h = Murmur3Hasher::new(1234);
    h.write(b"Hello, world!");
    assert_eq!(h.finish(), 0xfaf6cdb3);
}

#[test]
fn test_murmur_streaming_matches_one_shot() {
    let mut one = Murmur3Hasher::new(9);
    one.write(b"abcdefghijk");
    let mut parts = Murmur3Hasher::new(9);
    parts.write(b"abc");
    parts.write(b"defgh");
    parts.write(b"");
    parts.write(b"ijk");
    assert_eq!(one.finish(), parts.finish());
}

#[test]
fn test_hash_u64_known_values() {
    let b0 = Murmur3BuildHasher::new(0);
    assert_eq!(hash_u64(&b0, 42), 0x6f8f913e);
    assert_eq!(hash_u64(&b0, 42), 0x6f8f913e);
    let b77 = Murmur3BuildHasher::new(77);
    assert_eq!(hash_u64(&b77, 42), 0xdcb9ce5d);
}

#[test]
fn test_seed_changes_hashing_but_not_equality() {
    let mut a = Hypeerlog::with_percision_seed(8, 1);
    let mut b = Hypeerlog::with_percision_seed(8, 2);
    assert!(a == b);
    a.insert(5);
    b.insert(5);
    // different seeds place the same value in different registers
    assert!(a != b);
    let mut c = Hypeerlog::with_seed(3);
    assert_eq!(c.registers(), 1 << 14);
    c.insert(5);
    assert!(!c.is_empty());
}
