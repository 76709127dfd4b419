use space_invaders::projectile::{PROJECTILE_CADENCE, PROJECTILE_GONE_Y, PROJECTILE_STEP, TWIN_BOLT_GAP};
use space_invaders::Projectile;

#[test]
fn new_projectile_shows_in_flight_frame() {
    let p = Projectile::new(100, 2000, 5);
    assert_eq!(p.x, 100);
    assert_eq!(p.y, 2000);
    assert!(!p.hit);
    assert_eq!(p.current_frame_index, 1);
    assert_eq!(p.frame_time_elapsed, 0);
}

#[test]
fn flight_rises_one_step_per_tick_until_above_top() {
    let mut p = Projectile::new(0, 120, 5);
    let mut last = p.y;
    let mut ticks = 0;
    while !p.can_be_removed() {
        p.update(PROJECTILE_CADENCE);
        assert!(p.y < last);
        assert_eq!(p.y, last - PROJECTILE_STEP);
        last = p.y;
        ticks += 1;
        assert_eq!(p.can_be_removed(), p.y < 0);
    }
    assert_eq!(ticks, 3);
    assert_eq!(p.y, -30);
}

#[test]
fn short_updates_accumulate_to_one_tick() {
    let mut p = Projectile::new(0, 1000, 5);
    p.update(4_000);
    p.update(4_000);
    assert_eq!(p.y, 1000);
    assert_eq!(p.frame_time_elapsed, 8_000);
    p.update(2_000);
    assert_eq!(p.y, 950);
    assert_eq!(p.frame_time_elapsed, 0);
}

#[test]
fn hit_projectile_plays_animation_then_leaves() {
    let mut p = Projectile::new(0, 1000, 5);
    p.notify_hit();
    p.notify_hit();
    assert!(p.hit);
    for expected in 2..5usize {
        p.update(PROJECTILE_CADENCE);
        assert_eq!(p.current_frame_index, expected);
        assert_eq!(p.y, 1000);
        assert!(!p.can_be_removed());
    }
    p.update(PROJECTILE_CADENCE);
    assert_eq!(p.current_frame_index, 4);
    assert_eq!(p.y, PROJECTILE_GONE_Y);
    assert!(p.can_be_removed());
}

#[test]
fn zero_dt_leaves_projectile_unchanged() {
    let mut p = Projectile::new(30, 700, 5);
    for _ in 0..10 {
        p.update(0);
    }
    assert_eq!(p.y, 700);
    assert_eq!(p.current_frame_index, 1);
}

#[test]
fn twin_bolts_are_a_gap_apart() {
    let p = Projectile::new(250, 900, 5);
    let (a, b) = p.bolt_positions();
    assert_eq!(a, (250, 900));
    assert_eq!(b, (250 + TWIN_BOLT_GAP, 900));
    assert_eq!(TWIN_BOLT_GAP, 540);
}
