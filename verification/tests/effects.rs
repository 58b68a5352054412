use gobcam::decode_cache::{DecodeCache, ANIMATED_DECODE_CACHE_CAP};
use gobcam::effects::{
    alpha_keyframes, clock_nanos, millis_to_clock, needs_xpos_curve, position_keyframes, Keyframe,
};

fn pairs(k: &[Keyframe]) -> Vec<(u64, i32)> {
    k.iter().map(|f| (f.at, f.value)).collect()
}

#[test]
fn default_alpha_curve() {
    // 5 s lifetime, 200 ms fade-in, fade-out from 3 s over 2 s.
    let ms = 1_000_000u64;
    let k = alpha_keyframes(10 * ms, 5000 * ms, 200 * ms, 3000 * ms, 2000 * ms);
    assert_eq!(
        pairs(&k),
        vec![(0, 0), (10 * ms, 0), (210 * ms, 1), (3010 * ms, 1), (5010 * ms, 0)]
    );
}

#[test]
fn alpha_curve_is_cut_by_the_lifetime() {
    // Fade-out would end after the lifetime: it is cut at the end.
    let k = alpha_keyframes(0, 100, 10, 80, 50);
    assert_eq!(pairs(&k), vec![(0, 0), (0, 0), (10, 1), (80, 1), (100, 0)]);
    // Fade-out ends early: transparent until the end.
    let k = alpha_keyframes(0, 100, 10, 20, 30);
    assert_eq!(pairs(&k), vec![(0, 0), (0, 0), (10, 1), (20, 1), (50, 0), (100, 0)]);
    // Fade-in longer than the lifetime.
    let k = alpha_keyframes(5, 10, 50, 50, 50);
    assert_eq!(pairs(&k), vec![(0, 0), (5, 0), (15, 1), (15, 0)]);
    assert_eq!(k.last().copied(), Some(Keyframe { at: 15, value: 0 }));
}

#[test]
fn position_curves() {
    assert_eq!(
        pairs(&position_keyframes(100, 50, 384, -96)),
        vec![(100, 384), (150, -96)]
    );
    assert!(needs_xpos_curve(10, 20));
    assert!(!needs_xpos_curve(10, 10));
}

#[test]
fn clock_conversions_saturate() {
    assert_eq!(clock_nanos(5), 5);
    assert_eq!(clock_nanos(u128::from(u64::MAX) + 1), u64::MAX);
    assert_eq!(millis_to_clock(5000), 5_000_000_000);
    assert_eq!(millis_to_clock(u64::MAX), u64::MAX);
}

#[test]
fn decode_cache_hits_and_misses() {
    let mut c = DecodeCache::new();
    assert_eq!(c.lookup(1), None);
    assert_eq!(c.insert(1, 100), None);
    assert_eq!(c.lookup(1), Some(100));
    // Replacing a key hands back the previous handle.
    assert_eq!(c.insert(1, 101), Some(100));
    assert_eq!(c.lookup(1), Some(101));
}

#[test]
fn decode_cache_evicts_least_recently_used() {
    let mut c = DecodeCache::new();
    let cap = ANIMATED_DECODE_CACHE_CAP as u64;
    for k in 0..cap {
        assert_eq!(c.insert(k, k + 1000), None);
    }
    // Touch key 0 so that key 1 is the least recently used.
    assert_eq!(c.lookup(0), Some(1000));
    assert_eq!(c.insert(cap, 9), Some(1001));
    assert_eq!(c.lookup(1), None);
    assert_eq!(c.lookup(0), Some(1000));
    assert_eq!(c.lookup(cap), Some(9));
}
