//! Component-level behavior: config, player movement, the formation grid,
//! the difficulty scale, the animation clock, and the march.

use graveyard::config::{standard_config, FADE_ONE};
use graveyard::formation::{spawn_wave, speed_scale, Enemy, Formation};
use graveyard::geom::{Vec2, PX};
use graveyard::player::{Input, Player, SpriteFrame};

#[test]
fn standard_config_values() {
    let c = standard_config();
    assert_eq!(c.screen_width, 800 * PX);
    assert_eq!(c.player_speed, 200);
    assert_eq!(c.player_min_x, 0);
    assert_eq!(c.player_max_x, 726 * PX);
    assert_eq!(c.bolt_speed, 400);
    assert_eq!(c.bolt_exit_y, 810 * PX);
    assert_eq!(c.march_speed, 10);
    assert_eq!(c.left_margin, -22 * PX);
    assert_eq!(c.right_margin, 728 * PX);
    assert_eq!(c.descent_step, 10 * PX);
    assert_eq!(c.animation_period, 250_000);
    assert_eq!(c.respawn_delay, 3_000_000);
    assert_eq!(c.caught_limit, 3_000_000);
    assert_eq!(c.kill_reward, 100);
    assert_eq!(c.fade_rate, 400_000);
    assert_eq!(c.fade_low, 3 * FADE_ONE / 10);
    assert!(!c.freeze_on_game_over);
}

#[test]
fn new_player_is_loaded_with_three_lives() {
    let p = Player::new();
    assert_eq!(p.position, Vec2 { x: 100 * PX, y: 100 * PX });
    assert!(p.has_bolt);
    assert_eq!(p.lives, 3);
    assert_eq!(p.sprite(), SpriteFrame::Loaded);
}

#[test]
fn sprite_tracks_ammo() {
    let mut p = Player::new();
    assert_eq!(p.sprite(), SpriteFrame::Loaded);
    p.has_bolt = false;
    assert_eq!(p.sprite(), SpriteFrame::Unloaded);
}

#[test]
fn step_move_left_and_clamp() {
    let c = standard_config();
    let mut p = Player::new();
    // 200 px/s for half a second: 100 px left, exactly to the bound.
    p.step_move(c, Input { left: true, right: false }, 500_000);
    assert_eq!(p.position.x, 0);
    // Further movement stays clamped.
    p.step_move(c, Input { left: true, right: false }, 500_000);
    assert_eq!(p.position.x, 0);
}

#[test]
fn step_move_right_and_clamp() {
    let c = standard_config();
    let mut p = Player::new();
    p.step_move(c, Input { left: false, right: true }, 1_000_000);
    assert_eq!(p.position.x, 300 * PX);
    // Four more seconds overshoot 726 px and clamp.
    p.step_move(c, Input { left: false, right: true }, 1_000_000);
    p.step_move(c, Input { left: false, right: true }, 1_000_000);
    p.step_move(c, Input { left: false, right: true }, 1_000_000);
    assert_eq!(p.position.x, 726 * PX);
}

#[test]
fn no_keys_no_movement() {
    let c = standard_config();
    let mut p = Player::new();
    p.step_move(c, Input { left: false, right: false }, 1_000_000);
    assert_eq!(p.position.x, 100 * PX);
}

#[test]
fn wave_grid_layout() {
    let wave = spawn_wave();
    assert_eq!(wave.len(), 55);
    // Column-major: 5 rows per column.
    assert_eq!(wave[0].position, Vec2 { x: 125 * PX, y: 320 * PX });
    assert_eq!(wave[1].position, Vec2 { x: 125 * PX, y: 410 * PX });
    assert_eq!(wave[5].position, Vec2 { x: 175 * PX, y: 320 * PX });
    assert_eq!(wave[54].position, Vec2 { x: 625 * PX, y: 680 * PX });
    assert!(wave.iter().all(|e| !e.dead));
    assert!(wave.iter().all(|e| e.size == Vec2 { x: 40 * PX, y: 40 * PX }));
}

#[test]
fn difficulty_scale_grows_as_wave_thins() {
    assert_eq!(speed_scale(55), 2);
    assert_eq!(speed_scale(30), 10);
    assert_eq!(speed_scale(0), 20);
}

#[test]
fn animation_clock_advances_modulo_four() {
    let c = standard_config();
    let mut f = Formation::new(c);
    assert_eq!(f.frame, 0);
    assert_eq!(f.animation_timer, 250_000);
    f.step_animation(c, 250_000);
    assert_eq!(f.frame, 0);
    assert_eq!(f.animation_timer, 0);
    f.step_animation(c, 1);
    assert_eq!(f.frame, 1);
    assert_eq!(f.animation_timer, 250_000);
    for _ in 0..3 {
        f.step_animation(c, 300_000);
    }
    assert_eq!(f.frame, 0);
}

fn single_enemy_formation(x_px: i64, y_px: i64) -> Formation {
    Formation {
        enemies: vec![Enemy {
            position: Vec2 { x: x_px * PX, y: y_px * PX },
            size: Vec2 { x: 40 * PX, y: 40 * PX },
            dead: false,
        }],
        moving_left: true,
        frame: 0,
        animation_timer: 250_000,
    }
}

#[test]
fn march_moves_left_without_margin_contact() {
    let c = standard_config();
    let mut f = single_enemy_formation(400, 320);
    // One enemy: scale 20, so 10 px/s * 20 = 200 px over one second.
    f.step_march(c, 1_000_000);
    assert!(f.moving_left);
    assert_eq!(f.enemies[0].position, Vec2 { x: 200 * PX, y: 320 * PX });
}

#[test]
fn march_bounces_at_left_margin_and_descends() {
    let c = standard_config();
    let mut f = single_enemy_formation(-30, 320);
    f.step_march(c, 1_000_000);
    assert!(!f.moving_left);
    // Reversed: 200 px to the right, one 10 px step down.
    assert_eq!(f.enemies[0].position, Vec2 { x: 170 * PX, y: 310 * PX });
}

#[test]
fn march_bounces_at_right_margin() {
    let c = standard_config();
    let mut f = single_enemy_formation(750, 320);
    f.moving_left = false;
    f.step_march(c, 1_000_000);
    assert!(f.moving_left);
    assert_eq!(f.enemies[0].position, Vec2 { x: 550 * PX, y: 310 * PX });
}

#[test]
fn respawn_restores_the_grid() {
    let c = standard_config();
    let mut f = single_enemy_formation(400, 320);
    f.moving_left = false;
    f.respawn();
    assert!(f.moving_left);
    assert_eq!(f.enemies.len(), 55);
    assert_eq!(f.enemies[0].position, Vec2 { x: 125 * PX, y: 320 * PX });
}
