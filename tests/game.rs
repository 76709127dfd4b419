use space_invaders::game::{
    spawn_fraction, spawn_position, stacked, touches, ENEMY_ANGLE, PLAYER_SPEED, SPAWN_INTERVAL, SPAWN_SLOTS,
    SPAWN_Y,
};
use space_invaders::ship::SHIP_CADENCE;
use space_invaders::{DestructionState, Game, Projectile, Ship, ShipFrames};

const WIDTH: i64 = 12800;
const HEIGHT: i64 = 7200;

fn frames() -> ShipFrames {
    ShipFrames { normal: 10, damaged: 1, explosion: 8 }
}

fn game() -> Game {
    Game::new(WIDTH, HEIGHT, frames(), frames(), 5)
}

fn enemy(x: i64, y: i64) -> Ship {
    Ship::new(x, y, ENEMY_ANGLE, false, frames(), 5)
}

#[test]
fn new_game_places_player_centred_near_bottom() {
    let g = game();
    assert_eq!(g.player.x, 6400);
    assert_eq!(g.player.y, 5400);
    assert!(g.player.is_player);
    assert!(g.enemies.is_empty());
    assert_eq!(g.spawn_index, 0);
}

#[test]
fn projectile_overlapping_enemy_hits_it() {
    let mut g = game();
    g.enemies.push(enemy(4900, 2500));
    g.player.projectiles.push(Projectile::new(5000, 3000, 5));
    g.shot_pass();
    assert_eq!(g.enemies[0].health, 90);
    assert!(g.player.projectiles[0].hit);
    assert!(g.enemies[0].is_alive());
}

#[test]
fn projectile_outside_band_misses() {
    let mut g = game();
    g.enemies.push(enemy(4900, 2500));
    g.player.projectiles.push(Projectile::new(5220, 3000, 5));
    g.player.projectiles.push(Projectile::new(5000, 4000, 5));
    g.shot_pass();
    assert_eq!(g.enemies[0].health, 100);
    assert!(!g.player.projectiles[0].hit);
    assert!(!g.player.projectiles[1].hit);
}

#[test]
fn one_projectile_may_hit_several_enemies_in_a_pass() {
    let mut g = game();
    g.enemies.push(enemy(4900, 2500));
    g.enemies.push(enemy(5100, 2600));
    g.player.projectiles.push(Projectile::new(5000, 3000, 5));
    g.shot_pass();
    assert_eq!(g.enemies[0].health, 90);
    assert_eq!(g.enemies[1].health, 90);
}

#[test]
fn projectile_already_hit_is_not_tested() {
    let mut g = game();
    g.enemies.push(enemy(4900, 2500));
    let mut p = Projectile::new(5000, 3000, 5);
    p.notify_hit();
    g.player.projectiles.push(p);
    g.shot_pass();
    assert_eq!(g.enemies[0].health, 100);
}

#[test]
fn stacked_enemies_crash() {
    let mut g = game();
    g.enemies.push(enemy(4000, 1000));
    g.enemies.push(enemy(4000, 1500));
    assert!(stacked(&g.enemies[0], &g.enemies[1]));
    g.stacking_pass();
    assert_eq!(g.enemies[0].health, 50);
    assert!(g.enemies[0].state == DestructionState::Normal);
    assert_eq!(g.enemies[1].health, 0);
    assert!(g.enemies[1].state == DestructionState::DestroyStart);
}

#[test]
fn stacked_enemies_crash_whatever_their_order() {
    let mut g = game();
    g.enemies.push(enemy(4000, 1500));
    g.enemies.push(enemy(4000, 1000));
    g.stacking_pass();
    assert_eq!(g.enemies[0].health, 0);
    assert_eq!(g.enemies[1].health, 50);
}

#[test]
fn enemies_apart_or_in_other_columns_do_not_crash() {
    let mut g = game();
    g.enemies.push(enemy(4000, 1000));
    g.enemies.push(enemy(4000, 1801));
    g.enemies.push(enemy(4001, 1000));
    g.stacking_pass();
    for e in g.enemies.iter() {
        assert_eq!(e.health, 100);
    }
}

#[test]
fn no_crash_when_lower_enemy_is_dying() {
    let mut g = game();
    g.enemies.push(enemy(4000, 1000));
    let mut lower = enemy(4000, 1500);
    lower.destroy();
    g.enemies.push(lower);
    g.stacking_pass();
    assert_eq!(g.enemies[0].health, 100);
}

#[test]
fn enemy_touching_player_is_destroyed_and_player_unhurt() {
    let mut g = game();
    let (px, py) = (g.player.x, g.player.y);
    g.enemies.push(enemy(px + 60 - 590, py - 350 + 890));
    g.enemies.push(enemy(px + 60 + 600, py - 350));
    assert!(touches(&g.player, &g.enemies[0]));
    assert!(!touches(&g.player, &g.enemies[1]));
    g.contact_pass();
    assert!(g.enemies[0].state == DestructionState::DestroyStart);
    assert_eq!(g.enemies[1].health, 100);
    assert_eq!(g.player.health, 100);
}

#[test]
fn spawn_positions_follow_the_cycle() {
    let tenths = [1, 7, 9, 5, 3, 8, 2, 6, 4, 9, 5, 3, 1, 7, 2, 6, 4, 8];
    for (slot, t) in tenths.iter().enumerate() {
        assert_eq!(spawn_fraction(slot), *t);
        assert_eq!(spawn_position(WIDTH, slot), WIDTH * t / 10);
    }
    assert_eq!(SPAWN_SLOTS, 18);
}

#[test]
fn spawn_cycle_repeats_after_eighteen_intervals() {
    let mut g = game();
    for _ in 0..36 {
        assert!(g.advance_spawn(SPAWN_INTERVAL));
    }
    assert_eq!(g.enemies.len(), 36);
    let xs: Vec<i64> = g.enemies.iter().map(|e| e.x).collect();
    assert_eq!(
        xs[..18].to_vec(),
        vec![1280, 8960, 11520, 6400, 3840, 10240, 2560, 7680, 5120, 11520, 6400, 3840, 1280, 8960, 2560, 7680, 5120, 10240]
    );
    assert_eq!(xs[18..].to_vec(), xs[..18].to_vec());
    assert!(g.enemies.iter().all(|e| e.y == SPAWN_Y && e.angle == ENEMY_ANGLE && !e.is_player));
    assert_eq!(g.spawn_index, 0);
    assert_eq!(ENEMY_ANGLE, 31416);
}

#[test]
fn spawn_waits_for_the_interval() {
    let mut g = game();
    assert!(!g.advance_spawn(1_999_999));
    assert!(g.enemies.is_empty());
    assert!(g.advance_spawn(1));
    assert_eq!(g.enemies.len(), 1);
    assert_eq!(g.spawn_timer, 0);
}

#[test]
fn input_moves_and_fires() {
    let mut g = game();
    let x = g.player.x;
    g.apply_input(true, false, false);
    assert_eq!(g.player.x, x - PLAYER_SPEED);
    g.apply_input(false, true, true);
    assert_eq!(g.player.x, x);
    assert_eq!(g.player.projectiles.len(), 1);
    g.apply_input(true, true, false);
    assert_eq!(g.player.x, x);
}

#[test]
fn prune_drops_finished_and_fallen_enemies_in_order() {
    let mut g = game();
    g.enemies.push(enemy(1, 100));
    g.enemies.push(enemy(2, HEIGHT + 1));
    let mut gone = enemy(3, 100);
    gone.destroy();
    for _ in 0..10 {
        gone.update(SHIP_CADENCE);
    }
    g.enemies.push(gone);
    g.enemies.push(enemy(4, 200));
    g.prune_enemies();
    let xs: Vec<i64> = g.enemies.iter().map(|e| e.x).collect();
    assert_eq!(xs, vec![1, 4]);
}

#[test]
fn step_with_zero_dt_moves_nothing() {
    let mut g = game();
    g.enemies.push(enemy(1000, 1000));
    g.step(SHIP_CADENCE, false, false, true);
    let before: Vec<(i64, i64, usize)> =
        g.enemies.iter().map(|e| (e.x, e.y, e.current_frame_index)).collect();
    let proj_y = g.player.projectiles[0].y;
    for _ in 0..20 {
        g.step(0, false, false, false);
    }
    let after: Vec<(i64, i64, usize)> =
        g.enemies.iter().map(|e| (e.x, e.y, e.current_frame_index)).collect();
    assert_eq!(before, after);
    assert_eq!(g.player.projectiles[0].y, proj_y);
}

#[test]
fn step_runs_a_whole_frame() {
    let mut g = game();
    g.step(SPAWN_INTERVAL, false, false, false);
    assert_eq!(g.enemies.len(), 1);
    assert_eq!(g.enemies[0].x, 1280);
    assert_eq!(g.enemies[0].y, SPAWN_Y + 20);
    assert_eq!(g.spawn_index, 1);
}
