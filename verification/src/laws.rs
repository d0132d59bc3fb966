//! The library's laws: frame-invariance statements proved once and for
//! all over `spec_update`, the mathematical model of one frame.

use crate::config::{dt_wf, FADE_ONE};
use crate::formation::initial_enemies;
use crate::game::{
    bolt_box_at, enemy_box_of, first_bolt_hit, game_wf, lemma_first_hit_props, lemma_prelude_wf,
    lemma_update_wf, pass_wf, sat_add_u64, spec_fire, spec_prelude, spec_resolve_bolt_enemy,
    spec_update, GameM,
};
use crate::geom::spec_intersects;
use crate::player::Input;
use vstd::prelude::*;

verus! {

/// One frame of simulation input: the held keys and the time delta.
#[verifier::ext_equal]
pub ghost struct FrameStep {
    pub input: Input,
    pub dt: i64,
}

/// Every step's time delta is within the accepted range.
pub open spec fn steps_wf(steps: Seq<FrameStep>) -> bool {
    forall|i: int| 0 <= i < steps.len() ==> dt_wf((#[trigger] steps[i]).dt)
}

/// The game after a whole sequence of frames.
pub open spec fn run_steps(g: GameM, steps: Seq<FrameStep>) -> GameM
    decreases steps.len(),
{
    if steps.len() == 0 {
        g
    } else {
        run_steps(spec_update(g, steps[0].input, steps[0].dt), steps.drop_first())
    }
}

/// A frame never changes the config.
pub proof fn lemma_update_keeps_config(g: GameM, input: Input, dt: i64)
    ensures
        spec_update(g, input, dt).config == g.config,
{
}

/// Any number of frames preserves well-formedness and the config.
pub proof fn lemma_run_steps_wf(g: GameM, steps: Seq<FrameStep>)
    requires
        game_wf(g),
        steps_wf(steps),
    ensures
        game_wf(run_steps(g, steps)),
        run_steps(g, steps).config == g.config,
    decreases steps.len(),
{
    if steps.len() > 0 {
        lemma_update_wf(g, steps[0].input, steps[0].dt);
        let g1 = spec_update(g, steps[0].input, steps[0].dt);
        assert(steps_wf(steps.drop_first()));
        lemma_run_steps_wf(g1, steps.drop_first());
    }
}

/// Clamping law, one frame: a player inside the horizontal bounds stays
/// inside them, whatever keys are held and however large the frame delta.
pub proof fn lemma_player_bounds_step(g: GameM, input: Input, dt: i64)
    requires
        game_wf(g),
        dt_wf(dt),
        g.config.player_min_x <= g.player.position.x <= g.config.player_max_x,
    ensures
        g.config.player_min_x <= spec_update(g, input, dt).player.position.x
            <= g.config.player_max_x,
{
    crate::config::lemma_delta_in_range(g.config.player_speed as int, 1, dt);
}

/// Clamping law, any run: over every sequence of frames, the player's x
/// coordinate never leaves `[player_min_x, player_max_x]`.
pub proof fn lemma_player_bounds_run(g: GameM, steps: Seq<FrameStep>)
    requires
        game_wf(g),
        steps_wf(steps),
        g.config.player_min_x <= g.player.position.x <= g.config.player_max_x,
    ensures
        g.config.player_min_x <= run_steps(g, steps).player.position.x
            <= g.config.player_max_x,
    decreases steps.len(),
{
    if steps.len() > 0 {
        lemma_player_bounds_step(g, steps[0].input, steps[0].dt);
        lemma_update_wf(g, steps[0].input, steps[0].dt);
        lemma_update_keeps_config(g, steps[0].input, steps[0].dt);
        assert(steps_wf(steps.drop_first()));
        lemma_player_bounds_run(spec_update(g, steps[0].input, steps[0].dt), steps.drop_first());
    }
}

/// Single-bolt law: firing while the bolt is in flight changes nothing,
/// so a second in-flight bolt can never appear.
pub proof fn lemma_fire_in_flight_noop(g: GameM)
    requires
        game_wf(g),
        g.bolt.in_flight,
    ensures
        spec_fire(g) == g,
{
}

/// Single-bolt law at the frame level: a frame never puts a bolt into
/// flight; only `fire` does.  With the one slot and the fire no-op above,
/// two bolts can never be in flight.
pub proof fn lemma_update_never_fires(g: GameM, input: Input, dt: i64)
    requires
        game_wf(g),
        dt_wf(dt),
        !g.bolt.in_flight,
    ensures
        !spec_update(g, input, dt).bolt.in_flight,
{
}

/// Kill law: when the in-flight bolt's box overlaps the box of enemy `k`,
/// the first such enemy in order, then the collision pass removes exactly
/// that enemy, adds exactly the kill reward to the score (capped at the
/// carrier's top), and returns the bolt to the player.
pub proof fn lemma_bolt_kill(g: GameM, k: int)
    requires
        pass_wf(g),
        g.bolt.in_flight,
        0 <= k < g.formation.enemies.len(),
        spec_intersects(
            enemy_box_of(g.formation.enemies[k], g.config),
            bolt_box_at(g.bolt.position, g.config),
        ),
        forall|j: int|
            0 <= j < k ==> !spec_intersects(
                enemy_box_of(#[trigger] g.formation.enemies[j], g.config),
                bolt_box_at(g.bolt.position, g.config),
            ),
    ensures
        spec_resolve_bolt_enemy(g).formation.enemies == g.formation.enemies.remove(k),
        spec_resolve_bolt_enemy(g).formation.enemies.len() == g.formation.enemies.len() - 1,
        spec_resolve_bolt_enemy(g).state.score == sat_add_u64(
            g.state.score,
            g.config.kill_reward as int,
        ),
        !spec_resolve_bolt_enemy(g).bolt.in_flight,
        spec_resolve_bolt_enemy(g).player.has_bolt,
{
    let bb = bolt_box_at(g.bolt.position, g.config);
    lemma_first_hit_props(g.formation.enemies, bb, g.config, 0);
    match first_bolt_hit(g.formation.enemies, bb, g.config) {
        Some(m) => {
            if m < k {
                assert(!spec_intersects(enemy_box_of(g.formation.enemies[m], g.config), bb));
            }
            if m > k {
                assert(!spec_intersects(enemy_box_of(g.formation.enemies[k], g.config), bb));
            }
            assert(m == k);
            g.formation.enemies.remove_ensures(k);
        },
        None => {
            assert(!spec_intersects(enemy_box_of(g.formation.enemies[k], g.config), bb));
        },
    }
}

/// Kill law at the frame level: when, at a frame's collision point (after
/// the movement prefix), the in-flight bolt's box overlaps the box of
/// enemy `k`, the first such enemy in order, then that frame adds exactly
/// one kill reward to the score and returns the bolt to the player; and
/// when neither penalty timer can expire in the same frame, the formation
/// afterwards is exactly the moved formation with enemy `k` removed.
pub proof fn lemma_kill_in_update(g: GameM, input: Input, dt: i64, k: int)
    requires
        game_wf(g),
        dt_wf(dt),
        !(g.config.freeze_on_game_over && g.state.game_over),
        ({
            let g3 = spec_prelude(g, input, dt);
            &&& g3.bolt.in_flight
            &&& 0 <= k < g3.formation.enemies.len()
            &&& spec_intersects(
                enemy_box_of(g3.formation.enemies[k], g.config),
                bolt_box_at(g3.bolt.position, g.config),
            )
            &&& forall|j: int|
                0 <= j < k ==> !spec_intersects(
                    enemy_box_of(#[trigger] g3.formation.enemies[j], g.config),
                    bolt_box_at(g3.bolt.position, g.config),
                )
        }),
    ensures
        spec_update(g, input, dt).state.score == sat_add_u64(
            g.state.score,
            g.config.kill_reward as int,
        ),
        !spec_update(g, input, dt).bolt.in_flight,
        spec_update(g, input, dt).player.has_bolt,
        (g.state.caught_timer + dt <= g.config.caught_limit && g.state.respawn_timer + dt
            <= g.config.respawn_delay) ==> spec_update(g, input, dt).formation.enemies
            == spec_prelude(g, input, dt).formation.enemies.remove(k),
{
    lemma_prelude_wf(g, input, dt);
    let g3 = spec_prelude(g, input, dt);
    lemma_bolt_kill(g3, k);
}

/// Wave-respawn law, the waiting part: while the formation is empty, the
/// player uncaught, and the respawn delay not yet reached, a frame leaves
/// the formation empty and adds exactly `dt` to the respawn timer.
pub proof fn lemma_wave_timer_accumulates(g: GameM, input: Input, dt: i64)
    requires
        game_wf(g),
        dt_wf(dt),
        !(g.config.freeze_on_game_over && g.state.game_over),
        g.formation.enemies.len() == 0,
        !g.state.player_caught,
        g.state.respawn_timer + dt <= g.config.respawn_delay,
    ensures
        spec_update(g, input, dt).formation.enemies.len() == 0,
        !spec_update(g, input, dt).state.player_caught,
        spec_update(g, input, dt).state.respawn_timer == g.state.respawn_timer + dt,
{
}

/// Wave-respawn law, the firing part: once the formation is empty and the
/// frame takes the respawn timer past the delay, the formation comes back
/// as the full initial grid, moving left.
pub proof fn lemma_wave_respawn_fires(g: GameM, input: Input, dt: i64)
    requires
        game_wf(g),
        dt_wf(dt),
        !(g.config.freeze_on_game_over && g.state.game_over),
        g.formation.enemies.len() == 0,
        g.state.respawn_timer + dt > g.config.respawn_delay,
    ensures
        spec_update(g, input, dt).formation.enemies == initial_enemies(),
        spec_update(g, input, dt).formation.moving_left,
{
}

/// Total simulated time of a sequence of frames, in microseconds.
pub open spec fn total_dt(steps: Seq<FrameStep>) -> int
    decreases steps.len(),
{
    if steps.len() == 0 {
        0
    } else {
        steps[0].dt + total_dt(steps.drop_first())
    }
}

/// Well-formed frame sequences take non-negative total time.
pub proof fn lemma_total_dt_nonneg(steps: Seq<FrameStep>)
    requires
        steps_wf(steps),
    ensures
        total_dt(steps) >= 0,
    decreases steps.len(),
{
    if steps.len() > 0 {
        assert(steps_wf(steps.drop_first()));
        lemma_total_dt_nonneg(steps.drop_first());
    }
}

/// Wave-respawn law over a whole run of the waiting phase: while the
/// formation is empty and the player uncaught, any frames whose total time
/// keeps the respawn timer at or under the delay leave the formation
/// empty, the timer grown by exactly that total, and everything else of
/// the wait unchanged.
pub proof fn lemma_wave_waits_through_run(g: GameM, steps: Seq<FrameStep>)
    requires
        game_wf(g),
        steps_wf(steps),
        !(g.config.freeze_on_game_over && g.state.game_over),
        g.formation.enemies.len() == 0,
        !g.state.player_caught,
        g.state.respawn_timer + total_dt(steps) <= g.config.respawn_delay,
    ensures
        run_steps(g, steps).formation.enemies.len() == 0,
        !run_steps(g, steps).state.player_caught,
        run_steps(g, steps).state.respawn_timer == g.state.respawn_timer + total_dt(steps),
        run_steps(g, steps).state.game_over == g.state.game_over,
        run_steps(g, steps).config == g.config,
    decreases steps.len(),
{
    if steps.len() > 0 {
        assert(steps_wf(steps.drop_first()));
        lemma_total_dt_nonneg(steps.drop_first());
        lemma_wave_timer_accumulates(g, steps[0].input, steps[0].dt);
        lemma_fade_step(g, steps[0].input, steps[0].dt);
        lemma_update_wf(g, steps[0].input, steps[0].dt);
        lemma_wave_waits_through_run(spec_update(g, steps[0].input, steps[0].dt), steps.drop_first());
    }
}

/// Wave-respawn law, whole: the formation emptied, the player uncaught,
/// and frames passing with no other interaction; the first frame that
/// takes the accumulated time past the respawn delay brings the formation
/// back as the full initial grid, moving left.
pub proof fn lemma_wave_respawns_after_the_delay(
    g: GameM,
    steps: Seq<FrameStep>,
    input: Input,
    dt: i64,
)
    requires
        game_wf(g),
        steps_wf(steps),
        dt_wf(dt),
        !(g.config.freeze_on_game_over && g.state.game_over),
        g.formation.enemies.len() == 0,
        !g.state.player_caught,
        g.state.respawn_timer + total_dt(steps) <= g.config.respawn_delay,
        g.state.respawn_timer + total_dt(steps) + dt > g.config.respawn_delay,
    ensures
        spec_update(run_steps(g, steps), input, dt).formation.enemies == initial_enemies(),
        spec_update(run_steps(g, steps), input, dt).formation.moving_left,
{
    lemma_wave_waits_through_run(g, steps);
    lemma_run_steps_wf(g, steps);
    lemma_wave_respawn_fires(run_steps(g, steps), input, dt);
}

/// Fade law, one frame: with the game over, the fade level stays within
/// `[0, FADE_ONE]` and the direction flips exactly at the two thresholds:
/// upward at or below `fade_low`, downward at or above `FADE_ONE`, and
/// otherwise unchanged.  Game over, once latched, stays.
pub proof fn lemma_fade_step(g: GameM, input: Input, dt: i64)
    requires
        game_wf(g),
        dt_wf(dt),
    ensures
        0 <= spec_update(g, input, dt).state.fade_level <= FADE_ONE,
        spec_update(g, input, dt).state.game_over == g.state.game_over,
        g.state.game_over ==> spec_update(g, input, dt).state.fade_rising == (
        if g.state.fade_level >= FADE_ONE {
            false
        } else if g.state.fade_level <= g.config.fade_low {
            true
        } else {
            g.state.fade_rising
        }),
{
    lemma_update_wf(g, input, dt);
}

/// Fade law, any run: over every sequence of frames the fade level never
/// leaves `[0, FADE_ONE]`.
pub proof fn lemma_fade_bounds_run(g: GameM, steps: Seq<FrameStep>)
    requires
        game_wf(g),
        steps_wf(steps),
    ensures
        0 <= run_steps(g, steps).state.fade_level <= FADE_ONE,
{
    lemma_run_steps_wf(g, steps);
}

} // verus!
