//! Per-match tunable constants.
//!
//! Every rule constant of the simulation is a field here rather than a
//! literal in the logic: speeds (pixels per second), bounds and hit-box
//! shapes (micro-pixels), timer periods (microseconds), the kill reward,
//! and the game-over fade parameters.  `config_wf` bounds each field so
//! that all per-frame arithmetic provably stays inside `i64`.

use crate::geom::{BoxSpec, Vec2};
use vstd::prelude::*;

verus! {

/// The fade level that represents full opacity.
pub const FADE_ONE: i64 = 1_000_000_000_000;

/// Largest speed a config may ask for, in pixels per second.
pub const SPEED_LIMIT: i64 = 10_000;

/// Largest magnitude a config coordinate (bound, margin, step, box side)
/// may have, in micro-pixels.
pub const CFG_COORD_LIMIT: i64 = 1_000_000_000_000;

/// Largest duration a config timer period may have, in microseconds.
pub const TIME_LIMIT: i64 = 1_000_000_000_000;

/// Largest fade rate a config may ask for, in fade units per microsecond.
pub const FADE_RATE_LIMIT: i64 = 1_000_000_000;

/// Largest per-frame time delta accepted by the simulation, in microseconds.
pub const DT_LIMIT: i64 = 1_000_000_000;

/// A per-frame time delta: non-negative and within the accepted range.
pub open spec fn dt_wf(dt: i64) -> bool {
    0 <= dt <= DT_LIMIT
}

/// All tunable constants of one match.
#[derive(Clone, Copy, PartialEq, Eq, Structural, Debug)]
pub struct Config {
    /// Screen size in micro-pixels; read by the renderer, not by the rules.
    pub screen_width: i64,
    pub screen_height: i64,
    /// Player horizontal speed in pixels per second.
    pub player_speed: i64,
    /// Clamp bounds for the player's x coordinate, in micro-pixels.
    pub player_min_x: i64,
    pub player_max_x: i64,
    /// Bolt upward speed in pixels per second.
    pub bolt_speed: i64,
    /// The bolt leaves flight once its y coordinate exceeds this.
    pub bolt_exit_y: i64,
    /// Base horizontal formation speed in pixels per second; the live-count
    /// difficulty scale multiplies it.
    pub march_speed: i64,
    /// The formation reverses direction when an enemy crosses a margin.
    pub left_margin: i64,
    pub right_margin: i64,
    /// Vertical step, in micro-pixels, applied on each frame in which the
    /// formation touches a margin.
    pub descent_step: i64,
    /// Shared enemy animation period in microseconds.
    pub animation_period: i64,
    /// Delay before an emptied or bottomed-out wave respawns, in microseconds.
    pub respawn_delay: i64,
    /// Grace period after the formation catches the player, in microseconds.
    pub caught_limit: i64,
    /// Score awarded for one killed enemy.
    pub kill_reward: u64,
    /// Hit-box shapes per entity type.
    pub player_box: BoxSpec,
    pub bolt_box: BoxSpec,
    pub enemy_box: BoxSpec,
    pub obstacle_box: BoxSpec,
    /// Game-over fade speed in fade units per microsecond.
    pub fade_rate: i64,
    /// The fade direction turns upward at this level (and downward at
    /// `FADE_ONE`).
    pub fade_low: i64,
    /// When set, gameplay stops advancing once the game is over and only
    /// the fade keeps pulsing.
    pub freeze_on_game_over: bool,
}

/// A hit-box shape within the config coordinate range, with non-negative
/// extents.
pub open spec fn box_spec_wf(bs: BoxSpec) -> bool {
    &&& -CFG_COORD_LIMIT <= bs.offset.x <= CFG_COORD_LIMIT
    &&& -CFG_COORD_LIMIT <= bs.offset.y <= CFG_COORD_LIMIT
    &&& 0 <= bs.extent.x <= CFG_COORD_LIMIT
    &&& 0 <= bs.extent.y <= CFG_COORD_LIMIT
}

/// Every field within the range the fixed-point arithmetic is proved for.
pub open spec fn config_wf(c: Config) -> bool {
    &&& 0 <= c.screen_width <= CFG_COORD_LIMIT
    &&& 0 <= c.screen_height <= CFG_COORD_LIMIT
    &&& 0 <= c.player_speed <= SPEED_LIMIT
    &&& -CFG_COORD_LIMIT <= c.player_min_x <= c.player_max_x <= CFG_COORD_LIMIT
    &&& 0 <= c.bolt_speed <= SPEED_LIMIT
    &&& -CFG_COORD_LIMIT <= c.bolt_exit_y <= CFG_COORD_LIMIT
    &&& 0 <= c.march_speed <= SPEED_LIMIT
    &&& -CFG_COORD_LIMIT <= c.left_margin <= c.right_margin <= CFG_COORD_LIMIT
    &&& 0 <= c.descent_step <= CFG_COORD_LIMIT
    &&& 0 <= c.animation_period <= TIME_LIMIT
    &&& 0 <= c.respawn_delay <= TIME_LIMIT
    &&& 0 <= c.caught_limit <= TIME_LIMIT
    &&& box_spec_wf(c.player_box)
    &&& box_spec_wf(c.bolt_box)
    &&& box_spec_wf(c.enemy_box)
    &&& box_spec_wf(c.obstacle_box)
    &&& 0 <= c.fade_rate <= FADE_RATE_LIMIT
    &&& 0 <= c.fade_low <= FADE_ONE
}

/// The canonical constants: an 800x800 screen, a 200 px/s player clamped to
/// [0, 726] px, a 400 px/s bolt leaving at 810 px, a 10 px/s march between
/// margins -22 px and 728 px with a 10 px descent, quarter-second animation,
/// three-second respawn and catch timers, 100 points per kill, and a fade
/// pulsing at 0.4 per second down to 0.3.
pub open spec fn spec_standard_config() -> Config {
    Config {
        screen_width: 800_000_000,
        screen_height: 800_000_000,
        player_speed: 200,
        player_min_x: 0,
        player_max_x: 726_000_000,
        bolt_speed: 400,
        bolt_exit_y: 810_000_000,
        march_speed: 10,
        left_margin: -22_000_000i64,
        right_margin: 728_000_000,
        descent_step: 10_000_000,
        animation_period: 250_000,
        respawn_delay: 3_000_000,
        caught_limit: 3_000_000,
        kill_reward: 100,
        player_box: BoxSpec {
            offset: Vec2 { x: 0, y: 0 },
            extent: Vec2 { x: 38_000_000, y: 38_000_000 },
        },
        bolt_box: BoxSpec {
            offset: Vec2 { x: 15_000_000, y: 0 },
            extent: Vec2 { x: 2_000_000, y: 16_000_000 },
        },
        enemy_box: BoxSpec {
            offset: Vec2 { x: 4_000_000, y: 0 },
            extent: Vec2 { x: 26_000_000, y: 32_000_000 },
        },
        obstacle_box: BoxSpec {
            offset: Vec2 { x: -15_000_000i64, y: 0 },
            extent: Vec2 { x: 85_000_000, y: 48_000_000 },
        },
        fade_rate: 400_000,
        fade_low: 300_000_000_000,
        freeze_on_game_over: false,
    }
}

/// Returns the canonical constants.
pub fn standard_config() -> (c: Config)
    ensures
        c == spec_standard_config(),
        config_wf(c),
{
    Config {
        screen_width: 800_000_000,
        screen_height: 800_000_000,
        player_speed: 200,
        player_min_x: 0,
        player_max_x: 726_000_000,
        bolt_speed: 400,
        bolt_exit_y: 810_000_000,
        march_speed: 10,
        left_margin: -22_000_000,
        right_margin: 728_000_000,
        descent_step: 10_000_000,
        animation_period: 250_000,
        respawn_delay: 3_000_000,
        caught_limit: 3_000_000,
        kill_reward: 100,
        player_box: BoxSpec {
            offset: Vec2 { x: 0, y: 0 },
            extent: Vec2 { x: 38_000_000, y: 38_000_000 },
        },
        bolt_box: BoxSpec {
            offset: Vec2 { x: 15_000_000, y: 0 },
            extent: Vec2 { x: 2_000_000, y: 16_000_000 },
        },
        enemy_box: BoxSpec {
            offset: Vec2 { x: 4_000_000, y: 0 },
            extent: Vec2 { x: 26_000_000, y: 32_000_000 },
        },
        obstacle_box: BoxSpec {
            offset: Vec2 { x: -15_000_000, y: 0 },
            extent: Vec2 { x: 85_000_000, y: 48_000_000 },
        },
        fade_rate: 400_000,
        fade_low: 300_000_000_000,
        freeze_on_game_over: false,
    }
}

/// A speed within `SPEED_LIMIT`, scaled by a factor of at most 22 and by a
/// frame delta, yields a displacement within `DELTA_LIMIT`.
pub proof fn lemma_delta_in_range(speed: int, factor: int, dt: i64)
    requires
        0 <= speed <= SPEED_LIMIT,
        0 <= factor <= 22,
        dt_wf(dt),
    ensures
        0 <= speed * factor <= SPEED_LIMIT * 22,
        0 <= speed * factor * dt <= crate::geom::DELTA_LIMIT,
{
    assert(0 <= speed * factor <= SPEED_LIMIT * 22) by (nonlinear_arith)
        requires
            0 <= speed <= SPEED_LIMIT,
            0 <= factor <= 22,
    ;
    assert(0 <= speed * factor * dt <= SPEED_LIMIT * 22 * DT_LIMIT) by (nonlinear_arith)
        requires
            0 <= speed <= SPEED_LIMIT,
            0 <= factor <= 22,
            0 <= dt <= DT_LIMIT,
    ;
}

} // verus!
