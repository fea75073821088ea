use egui::animation::{AnimationManager, ANIM_SCALE};
use egui::id::Id;

#[test]
fn bool_animation_first_query_snaps() {
    let mut m = AnimationManager::new();
    assert_eq!(m.animate_bool(1_000_000, 16_000, 100_000, Id::new("a"), true), ANIM_SCALE);
    assert_eq!(m.animate_bool(1_000_000, 16_000, 100_000, Id::new("b"), false), 0);
}

#[test]
fn bool_animation_rises_monotonically_to_one() {
    let mut m = AnimationManager::new();
    let id = Id::new("toggle");
    let dt = 16_000;
    let mut now = 1_000_000;
    assert_eq!(m.animate_bool(now, dt, 100_000, id, false), 0);
    let mut last = 0;
    let mut values = vec![];
    for _ in 0..10 {
        now += dt;
        let v = m.animate_bool(now, dt, 100_000, id, true);
        assert!(v >= last);
        assert!(v <= ANIM_SCALE);
        values.push(v);
        last = v;
    }
    // Each step moves 16 ms of a 100 ms animation.
    assert_eq!(values[0], 160_000);
    assert_eq!(values[1], 320_000);
    assert_eq!(values[5], 960_000);
    assert_eq!(values[6], ANIM_SCALE);
    assert_eq!(values[9], ANIM_SCALE);
}

#[test]
fn bool_animation_retarget_goes_back_smoothly() {
    let mut m = AnimationManager::new();
    let id = Id::new("toggle");
    let dt = 16_000;
    let mut now = 0;
    m.animate_bool(now, dt, 100_000, id, false);
    for _ in 0..3 {
        now += dt;
        m.animate_bool(now, dt, 100_000, id, true);
    }
    now += dt;
    let v = m.animate_bool(now, dt, 100_000, id, false);
    // From 480_000 one step back, not a jump.
    assert_eq!(v, 320_000);
    for _ in 0..5 {
        now += dt;
        let w = m.animate_bool(now, dt, 100_000, id, false);
        assert!(w <= ANIM_SCALE);
    }
    now += dt;
    assert_eq!(m.animate_bool(now, dt, 100_000, id, false), 0);
}

#[test]
fn bool_animation_long_pause_is_capped() {
    let mut m = AnimationManager::new();
    let id = Id::new("idle");
    m.animate_bool(0, 16_000, 100_000, id, false);
    // A 10 s pause still counts as one stable frame.
    assert_eq!(m.animate_bool(10_000_000, 16_000, 100_000, id, true), 160_000);
}

#[test]
fn bool_animation_zero_time_snaps() {
    let mut m = AnimationManager::new();
    let id = Id::new("snap");
    m.animate_bool(0, 16_000, 0, id, false);
    assert_eq!(m.animate_bool(16_000, 16_000, 0, id, true), ANIM_SCALE);
}

#[test]
fn value_animation_interpolates_and_retargets() {
    let mut m = AnimationManager::new();
    let id = Id::new("value");
    assert_eq!(m.animate_value(0, 0, 100_000, id, 10), 10);
    // Retarget at t=0: position is still 10, the animation runs 10 -> 110.
    assert_eq!(m.animate_value(0, 0, 100_000, id, 110), 10);
    assert_eq!(m.animate_value(50_000, 0, 100_000, id, 110), 60);
    // Retarget mid-flight starts from the current position.
    assert_eq!(m.animate_value(50_000, 0, 100_000, id, 0), 60);
    assert_eq!(m.animate_value(100_000, 0, 100_000, id, 0), 30);
    assert_eq!(m.animate_value(200_000, 0, 100_000, id, 0), 0);
}

#[test]
fn value_animation_clear_forgets() {
    let mut m = AnimationManager::new();
    let id = Id::new("value");
    m.animate_value(0, 0, 100_000, id, 10);
    m.clear();
    assert_eq!(m.animate_value(0, 0, 100_000, id, 99), 99);
}

#[test]
fn bool_animation_small_steps_still_converge() {
    let mut m = AnimationManager::new();
    let id = Id::new("slow");
    let mut now = 0;
    m.animate_bool(now, 1, 2_000_000, id, false);
    let mut last = 0;
    for _ in 0..ANIM_SCALE {
        now += 1;
        let v = m.animate_bool(now, 1, 2_000_000, id, true);
        assert!(v > last || v == ANIM_SCALE);
        last = v;
    }
    assert_eq!(last, ANIM_SCALE);
}

#[test]
fn value_animation_zero_time_snaps_at_once() {
    let mut m = AnimationManager::new();
    let id = Id::new("snap");
    assert_eq!(m.animate_value(0, 0, 0, id, 5), 5);
    assert_eq!(m.animate_value(10, 0, 0, id, 50), 50);
    assert_eq!(m.animate_value(20, 0, 0, id, 50), 50);
}
