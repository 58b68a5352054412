use gobcam::animation::{
    placement_in_range, admission, count_busy, effective_max_concurrent, is_drop_oldest, oldest_active, place,
    Admission, AnimationStore,
};
use gobcam::protocol::{AnimationConfig, DropPolicy};
use gobcam::reactor::{Activation, Reactor};
use gobcam::slots::SlotState;

fn cfg() -> AnimationConfig {
    AnimationConfig::default()
}

#[test]
fn effective_max_concurrent_respects_slot_count() {
    let mut c = cfg();
    c.max_concurrent = 100;
    assert_eq!(effective_max_concurrent(&c, 16), 16);
    c.max_concurrent = 4;
    assert_eq!(effective_max_concurrent(&c, 16), 4);
}

#[test]
fn store_snapshot_is_isolated_from_replace() {
    let mut store = AnimationStore::new(AnimationConfig::default());
    let snap_a = store.snapshot();
    store.replace(AnimationConfig { lifetime_ms: 9999, ..AnimationConfig::default() });
    let snap_b = store.snapshot();
    assert_eq!(snap_a.lifetime_ms, 5000);
    assert_eq!(snap_b.lifetime_ms, 9999);
}

#[test]
fn drop_policy_decides_eviction() {
    assert!(is_drop_oldest(DropPolicy::DropOldest));
    assert!(!is_drop_oldest(DropPolicy::DropNew));
    assert_eq!(DropPolicy::default(), DropPolicy::DropNew);
}

#[test]
fn admission_follows_cap_and_policy() {
    let mut c = cfg();
    c.max_concurrent = 2;
    assert_eq!(admission(&c, 1, 4, false), Admission::Proceed);
    assert_eq!(admission(&c, 2, 4, false), Admission::DropNew);
    assert_eq!(admission(&c, 2, 4, true), Admission::Proceed);
    c.drop_policy = DropPolicy::DropOldest;
    assert_eq!(admission(&c, 3, 4, false), Admission::EvictOldest);
    // The cap never exceeds the slot count.
    c.max_concurrent = 10;
    assert_eq!(admission(&c, 4, 4, false), Admission::EvictOldest);
}

#[test]
fn busy_slots_are_counted() {
    assert_eq!(count_busy(&[]), 0);
    assert_eq!(count_busy(&[true, false, true, true]), 3);
}

#[test]
fn oldest_active_picks_first_minimum() {
    assert_eq!(oldest_active(&[None, None]), None);
    assert_eq!(oldest_active(&[None, Some(30), Some(10), Some(10)]), Some(2));
    assert_eq!(oldest_active(&[Some(5)]), Some(0));
}

#[test]
fn placement_stays_inside_canvas() {
    // Anchor at mid-width, jitter pushing far right: clamped.
    let p = place((1280, 720), (256, 256), 640, 5000, 80, 0, -480);
    assert_eq!(p.start_x, 1024);
    assert_eq!(p.start_y, 720 - 256 - 80);
    assert_eq!(p.end_x, 1024);
    assert_eq!(p.end_y, 384 - 480);
    // Jitter pushing far left, travel to the right.
    let p = place((1280, 720), (256, 256), 640, -5000, 80, 300, 0);
    assert_eq!(p.start_x, 0);
    assert_eq!(p.end_x, 300);
    // Centred without jitter.
    let p = place((1280, 720), (256, 256), 640, 0, 80, 0, -480);
    assert_eq!(p.start_x, 512);
    assert_eq!(p.end_x, p.start_x);
    assert_eq!(p.start_y - p.end_y, 480);
    // An offset above the top pins the start to the top edge.
    let p = place((1280, 720), (256, 256), 640, 0, 1000, 0, 0);
    assert_eq!(p.start_y, 0);
    // A source wider than the canvas sits at the left edge.
    let p = place((100, 100), (256, 256), 50, 0, 0, 10, 0);
    assert_eq!((p.start_x, p.start_y, p.end_x), (0, 0, 0));
}

#[test]
fn slot_lifecycle() {
    let mut s = SlotState::new();
    assert!(!s.is_busy());
    assert_eq!(s.started_at(), None);
    assert_eq!(s.next_frame(), None);
    assert_eq!(s.push_seed(33), 0);
    assert!(s.try_activate(3, 7, 100));
    assert!(!s.try_activate(2, 8, 200));
    assert!(s.is_active_for(7));
    assert!(!s.is_active_for(8));
    assert_eq!(s.started_at(), Some(100));
    let a = s.advance(10);
    assert_eq!((a.frame_idx, a.pts, a.first_push_id), (0, 33, Some(7)));
    let b = s.advance(10);
    assert_eq!((b.frame_idx, b.pts, b.first_push_id), (1, 43, None));
    let c = s.advance(10);
    assert_eq!(c.frame_idx, 2);
    let d = s.advance(10);
    assert_eq!((d.frame_idx, d.pts), (0, 63));
    assert_eq!(s.deactivate(), Some(7));
    assert_eq!(s.deactivate(), None);
    assert!(!s.is_active_for(7));
    assert_eq!(s.next_frame(), None);
    // Timestamps carry on after a release.
    assert_eq!(s.push_seed(33), 73);
}

#[test]
fn reactor_claims_slots_in_order() {
    let mut r = Reactor::new(3, cfg());
    assert_eq!(r.slot_count(), 3);
    let (id0, a) = r.activate("fire", Some(4), false, 10);
    assert_eq!(id0, 0);
    assert_eq!(a, Ok(Activation::Claimed { slot: 0, evicted: None }));
    let (id1, b) = r.activate("tada", Some(1), false, 20);
    assert_eq!(id1, 1);
    assert_eq!(b, Ok(Activation::Claimed { slot: 1, evicted: None }));
    assert_eq!(r.active_count(), 2);
}

#[test]
fn reactor_reports_unknown_emoji() {
    let mut r = Reactor::new(2, cfg());
    let (id, res) = r.activate("nope", None, false, 0);
    assert_eq!(id, 0);
    assert_eq!(res, Err("emoji 'nope' not found".to_string()));
    assert_eq!(r.active_count(), 0);
    // The failed trigger still used up an id.
    let (id, _) = r.activate("fire", Some(1), false, 0);
    assert_eq!(id, 1);
}

#[test]
fn reactor_drops_new_at_cap() {
    let mut c = cfg();
    c.max_concurrent = 1;
    let mut r = Reactor::new(3, c);
    assert!(r.activate("a", Some(1), false, 0).1.is_ok());
    assert_eq!(r.activate("b", Some(1), false, 1).1, Ok(Activation::Dropped));
    assert_eq!(r.active_count(), 1);
    // An always-on overlay skips the cap.
    assert_eq!(
        r.activate("c", Some(1), true, 2).1,
        Ok(Activation::Claimed { slot: 1, evicted: None })
    );
    assert_eq!(r.active_count(), 2);
}

#[test]
fn reactor_evicts_oldest_at_cap() {
    let mut c = cfg();
    c.max_concurrent = 2;
    c.drop_policy = DropPolicy::DropOldest;
    let mut r = Reactor::new(4, c);
    assert!(r.activate("a", Some(1), false, 50).1.is_ok());
    assert!(r.activate("b", Some(1), false, 20).1.is_ok());
    // Slot 1 started first (at 20), so it gives way.
    assert_eq!(
        r.activate("c", Some(1), false, 90).1,
        Ok(Activation::Claimed { slot: 1, evicted: Some(1) })
    );
    assert_eq!(r.active_count(), 2);
}

#[test]
fn reactor_reports_all_busy() {
    let mut r = Reactor::new(2, cfg());
    assert!(r.activate("a", Some(1), true, 0).1.is_ok());
    assert!(r.activate("b", Some(1), true, 0).1.is_ok());
    assert_eq!(r.activate("c", Some(1), true, 0).1, Err("all 2 slots busy".to_string()));
    let mut empty = Reactor::new(0, cfg());
    let mut c = cfg();
    c.drop_policy = DropPolicy::DropOldest;
    empty.set_config(c);
    assert_eq!(empty.activate("c", Some(1), false, 0).1, Err("all 0 slots busy".to_string()));
}

#[test]
fn reactor_timer_skips_preempted_slot() {
    let mut c = cfg();
    c.max_concurrent = 1;
    c.drop_policy = DropPolicy::DropOldest;
    let mut r = Reactor::new(1, c);
    let (first, _) = r.activate("a", Some(1), false, 0);
    let (second, res) = r.activate("b", Some(1), false, 5);
    assert_eq!(res, Ok(Activation::Claimed { slot: 0, evicted: Some(0) }));
    // The first trigger's timer fires after it was evicted.
    assert!(!r.expire(0, first));
    assert_eq!(r.active_count(), 1);
    assert!(r.expire(0, second));
    assert_eq!(r.active_count(), 0);
    assert!(!r.expire(0, second));
}

#[test]
fn reactor_config_is_replaced_for_later_triggers() {
    let mut r = Reactor::new(1, cfg());
    assert_eq!(r.config_snapshot().lifetime_ms, 5000);
    r.set_config(AnimationConfig { lifetime_ms: 1234, ..AnimationConfig::default() });
    assert_eq!(r.config_snapshot().lifetime_ms, 1234);
}

#[test]
fn placement_range_check() {
    assert!(placement_in_range((1280, 720), (256, 256), 640, 220, 80, 0, -480));
    assert!(placement_in_range((1280, 720), (256, 256), i32::MAX, 1, 80, 0, 0));
    assert!(!placement_in_range((1280, 720), (256, 256), i32::MAX, 200, 80, 0, 0));
    assert!(!placement_in_range((i32::MIN, 720), (256, 256), 0, 0, 0, 0, 0));
    assert!(!placement_in_range((1280, 720), (256, 256), 640, 0, 80, 0, i32::MAX));
}

#[test]
fn reactor_drives_slot_pumps() {
    let mut r = Reactor::new(2, cfg());
    assert_eq!(r.next_frame(0), None);
    assert_eq!(r.push_seed(0, 33), 0);
    assert_eq!(r.next_pts(0), 33);
    let (id, res) = r.activate("fire", Some(2), false, 0);
    assert_eq!(res, Ok(Activation::Claimed { slot: 0, evicted: None }));
    assert!(r.is_busy(0) && !r.is_busy(1));
    assert_eq!(r.next_frame(0), Some(0));
    let p = r.advance(0, 40);
    assert_eq!((p.frame_idx, p.pts, p.first_push_id), (0, 33, Some(id)));
    assert_eq!(r.next_frame(0), Some(1));
    let p = r.advance(0, 40);
    assert_eq!((p.frame_idx, p.pts, p.first_push_id), (1, 73, None));
    assert_eq!(r.next_frame(0), Some(0));
    assert!(r.expire(0, id));
    assert_eq!(r.next_frame(0), None);
    assert_eq!(r.next_pts(0), 113);
}

#[test]
fn fifth_trigger_on_four_busy_slots_fails_fast() {
    let mut r = Reactor::new(4, cfg());
    for i in 0..4 {
        assert!(r.activate("fire", Some(1), true, i).1.is_ok());
    }
    assert_eq!(r.activate("fire", Some(1), true, 9).1, Err("all 4 slots busy".to_string()));
}

#[test]
fn drop_oldest_reuses_the_evicted_slot() {
    let mut c = cfg();
    c.max_concurrent = 1;
    c.drop_policy = DropPolicy::DropOldest;
    let mut r = Reactor::new(2, c);
    let (a, _) = r.activate("a", Some(1), false, 0);
    assert_eq!(r.activate("b", Some(1), true, 1).1, Ok(Activation::Claimed { slot: 1, evicted: None }));
    assert!(r.expire(0, a));
    // Slot 0 is idle, slot 1 busy: the new trigger takes over slot 1.
    let (c_id, res) = r.activate("c", Some(1), false, 2);
    assert_eq!(res, Ok(Activation::Claimed { slot: 1, evicted: Some(1) }));
    assert!(!r.is_busy(0));
    assert!(r.is_busy(1));
    assert_eq!(r.active_count(), 1);
    assert!(r.expire(1, c_id));
}
