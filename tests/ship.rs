use space_invaders::ship::{
    DRIFT_DAMAGED, DRIFT_HEALTHY, ENEMY_RECOIL_X, ENEMY_RECOIL_Y, MUZZLE_DX, MUZZLE_DY, PLAYER_RECOIL_X,
    SHIP_CADENCE,
};
use space_invaders::{DestructionState, FrameTier, Ship, ShipFrames};

fn frames() -> ShipFrames {
    ShipFrames { normal: 10, damaged: 1, explosion: 8 }
}

fn enemy(x: i64, y: i64) -> Ship {
    Ship::new(x, y, 31416, false, frames(), 5)
}

#[test]
fn new_ship_is_healthy() {
    let s = enemy(100, 200);
    assert_eq!(s.health, 100);
    assert!(s.state == DestructionState::Normal);
    assert_eq!(s.current_frame_index, 0);
    assert!(s.projectiles.is_empty());
    assert!(s.sprite() == Some((FrameTier::Normal, 0)));
}

#[test]
fn five_small_hits_leave_ship_damaged_and_drifting() {
    let mut s = enemy(4000, 1000);
    s.update(SHIP_CADENCE);
    s.update(SHIP_CADENCE);
    assert_eq!(s.current_frame_index, 2);
    for _ in 0..5 {
        s.notify_hit(10);
    }
    assert_eq!(s.health, 50);
    assert!(s.active_tier() == FrameTier::Damaged);
    assert_eq!(s.current_frame_index, 0);
    assert!(s.is_alive());
    let y = s.y;
    s.update(SHIP_CADENCE);
    assert_eq!(s.y, y + DRIFT_DAMAGED);
    assert_eq!(s.current_frame_index, 0);
}

#[test]
fn healthy_enemy_drifts_faster() {
    let mut s = enemy(0, 0);
    s.update(SHIP_CADENCE);
    assert_eq!(s.y, DRIFT_HEALTHY);
    assert_eq!(DRIFT_HEALTHY, 20);
    assert_eq!(DRIFT_DAMAGED, 10);
}

#[test]
fn player_does_not_drift() {
    let mut s = Ship::new(500, 600, 0, true, frames(), 5);
    s.update(SHIP_CADENCE);
    assert_eq!(s.y, 600);
    assert_eq!(s.current_frame_index, 1);
}

#[test]
fn frame_index_wraps_within_active_set() {
    let mut s = enemy(0, 0);
    for i in 1..=25usize {
        s.update(SHIP_CADENCE);
        assert_eq!(s.current_frame_index, i % 10);
    }
}

#[test]
fn lethal_damage_walks_the_destruction_sequence_in_order() {
    let mut s = enemy(1000, 1000);
    s.notify_hit(60);
    s.notify_hit(60);
    assert_eq!(s.health, 0);
    assert!(s.state == DestructionState::DestroyStart);
    s.update(SHIP_CADENCE);
    assert!(s.state == DestructionState::Destroying);
    assert_eq!(s.current_frame_index, 0);
    assert_eq!(s.x, 1000 + ENEMY_RECOIL_X);
    assert_eq!(s.y, 1000 + ENEMY_RECOIL_Y);
    assert!(s.sprite() == Some((FrameTier::Explosion, 0)));
    let mut seen = vec![s.state];
    for _ in 0..20 {
        s.update(SHIP_CADENCE);
        if *seen.last().unwrap() != s.state {
            seen.push(s.state);
        }
        assert!(s.current_frame_index < 8);
    }
    assert!(
        seen == vec![DestructionState::Destroying, DestructionState::DestroyEnd, DestructionState::Destroyed]
    );
    assert!(s.can_be_removed(7200));
    assert!(s.sprite().is_none());
}

#[test]
fn destruction_ends_on_the_tick_that_shows_the_last_frame() {
    let mut s = enemy(0, 0);
    s.destroy();
    s.update(SHIP_CADENCE);
    assert!(s.state == DestructionState::Destroying);
    assert_eq!(s.current_frame_index, 0);
    for expected in 1..7usize {
        s.update(SHIP_CADENCE);
        assert!(s.state == DestructionState::Destroying);
        assert_eq!(s.current_frame_index, expected);
    }
    s.update(SHIP_CADENCE);
    assert!(s.state == DestructionState::DestroyEnd);
    assert_eq!(s.current_frame_index, 7);
    s.update(SHIP_CADENCE);
    assert!(s.state == DestructionState::Destroyed);
    assert_eq!(s.current_frame_index, 7);
}

#[test]
fn one_frame_explosion_still_passes_every_stage() {
    let mut s = Ship::new(0, 0, 0, false, ShipFrames { normal: 2, damaged: 1, explosion: 1 }, 5);
    s.destroy();
    s.update(SHIP_CADENCE);
    assert!(s.state == DestructionState::Destroying);
    s.update(SHIP_CADENCE);
    assert!(s.state == DestructionState::DestroyEnd);
    s.update(SHIP_CADENCE);
    assert!(s.state == DestructionState::Destroyed);
    assert_eq!(s.current_frame_index, 0);
}

#[test]
fn player_recoil_is_horizontal_only() {
    let mut s = Ship::new(5000, 5400, 0, true, frames(), 5);
    s.destroy();
    assert_eq!(s.health, 100);
    s.update(SHIP_CADENCE);
    assert_eq!(s.x, 5000 + PLAYER_RECOIL_X);
    assert_eq!(s.y, 5400);
}

#[test]
fn hit_on_destroyed_ship_is_a_no_op() {
    let mut s = enemy(0, 0);
    s.notify_hit(100);
    for _ in 0..10 {
        s.update(SHIP_CADENCE);
    }
    assert!(s.state == DestructionState::Destroyed);
    let (x, y, health) = (s.x, s.y, s.health);
    s.notify_hit(10);
    assert!(s.state == DestructionState::Destroyed);
    assert_eq!((s.x, s.y, s.health), (x, y, health));
}

#[test]
fn zero_dt_updates_move_nothing() {
    let mut s = enemy(300, 400);
    s.update(SHIP_CADENCE);
    s.shoot();
    let before = (s.x, s.y, s.current_frame_index, s.projectiles[0].y);
    for _ in 0..50 {
        s.update(0);
    }
    assert_eq!((s.x, s.y, s.current_frame_index, s.projectiles[0].y), before);
}

#[test]
fn movement_is_not_clamped_to_the_screen() {
    let mut s = Ship::new(0, 0, 0, true, frames(), 5);
    for _ in 0..10 {
        s.mov(-50);
    }
    assert_eq!(s.x, -500);
    s.mov(i64::MIN);
    assert_eq!(s.x, i64::MIN);
}

#[test]
fn shoot_places_projectile_at_muzzle() {
    let mut s = Ship::new(1000, 2000, 0, true, frames(), 5);
    s.shoot();
    assert_eq!(s.projectiles.len(), 1);
    assert_eq!(s.projectiles[0].x, 1000 + MUZZLE_DX);
    assert_eq!(s.projectiles[0].y, 2000 + MUZZLE_DY);
    assert_eq!((MUZZLE_DX, MUZZLE_DY), (240, -400));
}

#[test]
fn update_prunes_projectiles_that_left() {
    let mut s = Ship::new(0, 430, 0, true, frames(), 5);
    s.shoot();
    s.update(0);
    assert_eq!(s.projectiles.len(), 1);
    s.update(10_000);
    assert_eq!(s.projectiles[0].y, -20);
    s.update(0);
    assert!(s.projectiles.is_empty());
}

#[test]
fn enemy_below_screen_can_be_removed() {
    let s = enemy(0, 7201);
    assert!(s.can_be_removed(7200));
    let t = enemy(0, 7200);
    assert!(!t.can_be_removed(7200));
}
