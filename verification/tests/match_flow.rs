//! Whole-match behavior through `Game::update`: firing, kills, misses,
//! obstacle blocks, the catch penalty, wave respawns, clamping, and the
//! game-over fade.

use graveyard::config::{standard_config, Config, FADE_ONE};
use graveyard::formation::Enemy;
use graveyard::game::{Game, Key};
use graveyard::geom::{Vec2, PX};
use graveyard::player::Input;

const DT_1S: i64 = 1_000_000;
const DT_60: i64 = 16_666;

fn idle() -> Input {
    Input { left: false, right: false }
}

fn one_enemy(x_px: i64, y_px: i64) -> Vec<Enemy> {
    vec![Enemy {
        position: Vec2 { x: x_px * PX, y: y_px * PX },
        size: Vec2 { x: 40 * PX, y: 40 * PX },
        dead: false,
    }]
}

/// Places the player (and the loaded bolt that tracks it).
fn place_player(g: &mut Game, x_px: i64, y_px: i64) {
    g.player.position = Vec2 { x: x_px * PX, y: y_px * PX };
    g.bolt.position = g.player.position;
}

#[test]
fn fire_spawns_the_bolt_at_the_player() {
    let mut g = Game::new(standard_config());
    assert!(g.fire());
    assert!(g.bolt.in_flight);
    assert!(!g.player.has_bolt);
    assert_eq!(g.bolt.position, g.player.position);
}

#[test]
fn fire_while_in_flight_is_a_noop() {
    let mut g = Game::new(standard_config());
    assert!(g.fire());
    let bolt_before = g.bolt;
    let player_before = g.player;
    assert!(!g.fire());
    assert_eq!(g.bolt, bolt_before);
    assert_eq!(g.player, player_before);
    assert!(g.bolt.in_flight);
}

#[test]
fn key_down_fires_only_on_the_fire_key() {
    let mut g = Game::new(standard_config());
    assert!(!g.handle_key_down(Key::Left));
    assert!(!g.handle_key_down(Key::Right));
    assert!(g.player.has_bolt);
    assert!(g.handle_key_down(Key::Fire));
    assert!(g.bolt.in_flight);
    assert!(!g.handle_key_down(Key::Fire));
}

#[test]
fn left_clamp_scenario() {
    // Left bound at 35 px, player starting at 10 px, holding left for one
    // frame of a whole second: the result is the bound, not a negative x.
    let c = Config { player_min_x: 35 * PX, ..standard_config() };
    let mut g = Game::new(c);
    place_player(&mut g, 10, 100);
    g.update(Input { left: true, right: false }, DT_1S);
    assert_eq!(g.player.position.x, 35 * PX);
}

#[test]
fn holding_right_never_leaves_the_bounds() {
    let c = standard_config();
    let mut g = Game::new(c);
    for _ in 0..300 {
        g.update(Input { left: false, right: true }, DT_60);
        assert!(g.player.position.x >= c.player_min_x);
        assert!(g.player.position.x <= c.player_max_x);
    }
    assert_eq!(g.player.position.x, c.player_max_x);
}

#[test]
fn kill_scenario_one_enemy() {
    // A single enemy at (100, 100), the bolt fired from (100, 50), bolt
    // speed 400 px/s, sixtieth-of-a-second frames.  The bolt box top
    // starts 34 px below the enemy box and rises 6.6664 px per frame, so
    // the sixth flight step crosses and the seventh frame's collision
    // pass resolves the kill.
    let c = Config { march_speed: 0, ..standard_config() };
    let mut g = Game::new(c);
    g.formation.enemies = one_enemy(100, 100);
    place_player(&mut g, 100, 50);
    assert!(g.fire());
    for _ in 0..6 {
        g.update(idle(), DT_60);
    }
    assert_eq!(g.formation.enemies.len(), 1);
    assert_eq!(g.state.score, 0);
    assert!(g.bolt.in_flight);
    g.update(idle(), DT_60);
    assert_eq!(g.formation.enemies.len(), 0);
    assert_eq!(g.state.score, 100);
    assert!(g.player.has_bolt);
    assert!(!g.bolt.in_flight);
    assert_eq!(g.bolt.position, g.player.position);
}

#[test]
fn kill_takes_the_first_enemy_in_order() {
    // Two stacked enemies both overlapping the bolt: only the first in
    // order dies, and only one reward is paid.
    let c = Config { march_speed: 0, ..standard_config() };
    let mut g = Game::new(c);
    let mut enemies = one_enemy(100, 100);
    enemies.extend(one_enemy(100, 110));
    g.formation.enemies = enemies;
    place_player(&mut g, 100, 90);
    assert!(g.fire());
    g.update(idle(), DT_60);
    assert_eq!(g.formation.enemies.len(), 1);
    assert_eq!(g.state.score, 100);
    assert_eq!(g.formation.enemies[0].position.y, 110 * PX);
    assert!(g.player.has_bolt);
}

#[test]
fn bolt_missing_everything_returns_at_the_top() {
    let mut g = Game::new(standard_config());
    g.formation.enemies = Vec::new();
    assert!(g.fire());
    g.update(idle(), DT_1S);
    assert!(g.bolt.in_flight);
    assert_eq!(g.bolt.position.y, 500 * PX);
    g.update(idle(), DT_1S);
    // 900 px is past the 810 px boundary: a miss, no score.
    assert!(!g.bolt.in_flight);
    assert!(g.player.has_bolt);
    assert_eq!(g.state.score, 0);
    assert_eq!(g.bolt.position, g.player.position);
}

#[test]
fn obstacle_intercepts_the_bolt() {
    let mut g = Game::new(standard_config());
    g.formation.enemies = Vec::new();
    // The first tombstone box spans x in [85, 170], y in [200, 248].
    place_player(&mut g, 100, 100);
    assert!(g.fire());
    let dt: i64 = 100_000;
    for _ in 0..4 {
        g.update(idle(), dt);
    }
    assert!(!g.bolt.in_flight);
    assert!(g.player.has_bolt);
    assert_eq!(g.state.score, 0);
}

#[test]
fn catch_freezes_then_resets_the_wave_and_costs_a_life() {
    let c = Config { march_speed: 0, ..standard_config() };
    let mut g = Game::new(c);
    g.formation.enemies = one_enemy(100, 100);
    place_player(&mut g, 100, 100);
    g.update(idle(), DT_1S);
    assert!(g.state.player_caught);
    assert_eq!(g.state.caught_timer, DT_1S);
    // While caught, held keys no longer move the player.
    let x_before = g.player.position.x;
    g.update(Input { left: false, right: true }, DT_1S);
    assert_eq!(g.player.position.x, x_before);
    g.update(idle(), DT_1S);
    assert!(g.state.player_caught);
    // The fourth second exceeds the three-second grace period.
    g.update(idle(), DT_1S);
    assert!(!g.state.player_caught);
    assert_eq!(g.state.caught_timer, 0);
    assert_eq!(g.player.lives, 2);
    assert_eq!(g.formation.enemies.len(), 55);
    assert!(g.formation.moving_left);
}

#[test]
fn enemy_below_the_player_resets_the_wave() {
    let c = standard_config();
    let mut g = Game::new(c);
    g.formation.enemies = one_enemy(300, 50);
    place_player(&mut g, 100, 100);
    for _ in 0..3 {
        g.update(idle(), DT_1S);
    }
    assert_eq!(g.formation.enemies.len(), 1);
    assert_eq!(g.state.respawn_timer, 3 * DT_1S);
    g.update(idle(), DT_1S);
    assert_eq!(g.formation.enemies.len(), 55);
    assert_eq!(g.state.respawn_timer, 0);
    assert_eq!(g.player.lives, 3);
}

#[test]
fn empty_formation_respawns_after_the_delay() {
    let mut g = Game::new(standard_config());
    g.formation.enemies = Vec::new();
    g.formation.moving_left = false;
    for _ in 0..3 {
        g.update(idle(), DT_1S);
        assert_eq!(g.formation.enemies.len(), 0);
    }
    assert_eq!(g.state.respawn_timer, 3 * DT_1S);
    g.update(idle(), DT_1S);
    assert_eq!(g.formation.enemies.len(), 55);
    assert!(g.formation.moving_left);
    assert_eq!(g.formation.enemies[0].position, Vec2 { x: 125 * PX, y: 320 * PX });
    assert_eq!(g.formation.enemies[54].position, Vec2 { x: 625 * PX, y: 680 * PX });
    assert_eq!(g.state.respawn_timer, 0);
}

#[test]
fn fade_pulses_between_the_thresholds() {
    let mut g = Game::new(standard_config());
    g.trigger_game_over();
    assert!(g.state.game_over);
    assert_eq!(g.state.fade_level, FADE_ONE);
    // At full opacity the direction turns downward: 0.4/s for one second.
    g.update(idle(), DT_1S);
    assert!(!g.state.fade_rising);
    assert_eq!(g.state.fade_level, 6 * FADE_ONE / 10);
    g.update(idle(), DT_1S);
    assert_eq!(g.state.fade_level, 2 * FADE_ONE / 10);
    // 0.2 is at or below the 0.3 threshold: the direction turns upward.
    g.update(idle(), DT_1S);
    assert!(g.state.fade_rising);
    assert_eq!(g.state.fade_level, 6 * FADE_ONE / 10);
}

#[test]
fn fade_turns_upward_exactly_at_the_low_threshold() {
    let mut g = Game::new(standard_config());
    g.trigger_game_over();
    g.state.fade_level = 3 * FADE_ONE / 10;
    g.state.fade_rising = false;
    g.update(idle(), DT_1S);
    assert!(g.state.fade_rising);
    assert_eq!(g.state.fade_level, 7 * FADE_ONE / 10);
}

#[test]
fn animation_advances_through_update() {
    let mut g = Game::new(standard_config());
    for _ in 0..15 {
        g.update(idle(), DT_60);
    }
    // 15 frames are 249,990 us: just under the quarter-second period.
    assert_eq!(g.formation.frame, 0);
    g.update(idle(), DT_60);
    assert_eq!(g.formation.frame, 1);
    assert_eq!(g.formation.animation_timer, 250_000);
}

#[test]
fn fade_stays_within_bounds_for_long_runs() {
    let mut g = Game::new(standard_config());
    g.trigger_game_over();
    for _ in 0..200 {
        g.update(idle(), 330_000);
        assert!(g.state.fade_level >= 0);
        assert!(g.state.fade_level <= FADE_ONE);
    }
}

#[test]
fn game_over_latches_and_gameplay_continues_by_default() {
    let mut g = Game::new(standard_config());
    g.trigger_game_over();
    let x0 = g.formation.enemies[0].position.x;
    g.update(Input { left: true, right: false }, DT_1S);
    assert!(g.state.game_over);
    // Default behavior: the simulation keeps running under the overlay.
    assert!(g.formation.enemies[0].position.x != x0);
    assert!(g.player.position.x != 100 * PX);
}

#[test]
fn freeze_flag_stops_gameplay_after_game_over() {
    let c = Config { freeze_on_game_over: true, ..standard_config() };
    let mut g = Game::new(c);
    g.trigger_game_over();
    let x0 = g.formation.enemies[0].position.x;
    g.update(Input { left: true, right: false }, DT_1S);
    assert_eq!(g.formation.enemies[0].position.x, x0);
    assert_eq!(g.player.position.x, 100 * PX);
    // Only the fade moved.
    assert_eq!(g.state.fade_level, 6 * FADE_ONE / 10);
}

#[test]
fn score_saturates_at_the_carrier_top() {
    let c = Config { march_speed: 0, ..standard_config() };
    let mut g = Game::new(c);
    g.formation.enemies = one_enemy(100, 100);
    place_player(&mut g, 100, 90);
    g.state.score = u64::MAX - 50;
    assert!(g.fire());
    g.update(idle(), DT_60);
    assert_eq!(g.formation.enemies.len(), 0);
    assert_eq!(g.state.score, u64::MAX);
}

#[test]
fn new_match_snapshot() {
    let g = Game::new(standard_config());
    assert_eq!(g.state.score, 0);
    assert!(!g.state.game_over);
    assert!(!g.state.player_caught);
    assert_eq!(g.player.lives, 3);
    assert!(g.player.has_bolt);
    assert!(!g.bolt.in_flight);
    assert_eq!(g.formation.enemies.len(), 55);
    assert_eq!(g.obstacles.len(), 4);
    assert_eq!(g.obstacles[0], Vec2 { x: 100 * PX, y: 200 * PX });
    assert_eq!(g.obstacles[3], Vec2 { x: 610 * PX, y: 200 * PX });
}
