//! The match aggregate and the per-frame update.
//!
//! One `Game` owns the player, the bolt, the formation, the obstacles and
//! the match state.  Each frame, `update` runs the fixed pipeline: player
//! movement, animation clock, formation movement, the collision passes
//! (bolt against enemies, enemies against the player, bolt against
//! obstacles), wave respawn, bolt flight, and the game-over fade.  The
//! whole frame is specified by `spec_update`, a mathematical function of
//! the previous state.

use crate::bolt::{bolt_wf, Bolt, BoltM};
use crate::config::{
    config_wf, dt_wf, Config, FADE_ONE,
};
use crate::formation::{
    enemy_wf, formation_wf, spec_animation, spec_march, spec_respawn, EnemyM, Formation,
    FormationM,
};
use crate::geom::{
    clamp_i, coord_in_range, make_box, spec_intersects, spec_make_box, AabbM, Vec2, Vec2M,
};
use crate::player::{player_wf, spec_move_player, Input, Player, PlayerM};
use vstd::prelude::*;

verus! {

/// Score, penalty timers and the game-over fade of one match.
#[derive(Clone, Copy, PartialEq, Eq, Structural, Debug)]
pub struct MatchState {
    pub score: u64,
    /// The formation has caught the player; movement freezes until the
    /// grace period runs out and the wave resets.
    pub player_caught: bool,
    pub caught_timer: i64,
    pub respawn_timer: i64,
    pub game_over: bool,
    /// Opacity of the game-over overlay, in `FADE_ONE` units.
    pub fade_level: i64,
    pub fade_rising: bool,
}

/// Mathematical image of a `MatchState`.
#[verifier::ext_equal]
pub ghost struct StateM {
    pub score: int,
    pub player_caught: bool,
    pub caught_timer: int,
    pub respawn_timer: int,
    pub game_over: bool,
    pub fade_level: int,
    pub fade_rising: bool,
}

impl View for MatchState {
    type V = StateM;

    open spec fn view(&self) -> StateM {
        StateM {
            score: self.score as int,
            player_caught: self.player_caught,
            caught_timer: self.caught_timer as int,
            respawn_timer: self.respawn_timer as int,
            game_over: self.game_over,
            fade_level: self.fade_level as int,
            fade_rising: self.fade_rising,
        }
    }
}

/// Score within its carrier, timers within their periods, fade within
/// `[0, FADE_ONE]`.
pub open spec fn state_wf(s: StateM, c: Config) -> bool {
    &&& 0 <= s.score <= u64::MAX
    &&& 0 <= s.caught_timer <= c.caught_limit
    &&& 0 <= s.respawn_timer <= c.respawn_delay
    &&& 0 <= s.fade_level <= FADE_ONE
}

/// The image of a sequence of obstacle positions.
pub open spec fn view_points(s: Seq<Vec2>) -> Seq<Vec2M> {
    s.map_values(|p: Vec2| p@)
}

/// One match: every entity and the match state, under one config.
#[derive(Debug)]
pub struct Game {
    pub config: Config,
    pub player: Player,
    pub bolt: Bolt,
    pub formation: Formation,
    /// Static tombstone positions; immutable after creation.
    pub obstacles: Vec<Vec2>,
    pub state: MatchState,
}

/// Mathematical image of a `Game`.
#[verifier::ext_equal]
pub ghost struct GameM {
    pub config: Config,
    pub player: PlayerM,
    pub bolt: BoltM,
    pub formation: FormationM,
    pub obstacles: Seq<Vec2M>,
    pub state: StateM,
}

impl View for Game {
    type V = GameM;

    open spec fn view(&self) -> GameM {
        GameM {
            config: self.config,
            player: self.player@,
            bolt: self.bolt@,
            formation: self.formation@,
            obstacles: view_points(self.obstacles@),
            state: self.state@,
        }
    }
}

/// The parts of well-formedness that every mid-frame state keeps: all
/// entities in range, the ammo flag tied to the flight flag, timers and
/// fade within bounds.  (The bolt's position discipline is restored only
/// at the end of a frame; see `game_wf`.)
pub open spec fn pass_wf(g: GameM) -> bool {
    &&& config_wf(g.config)
    &&& player_wf(g.player)
    &&& g.player.position.y <= g.config.bolt_exit_y
    &&& g.player.has_bolt == !g.bolt.in_flight
    &&& coord_in_range(g.bolt.position)
    &&& formation_wf(g.formation, g.config)
    &&& forall|i: int| 0 <= i < g.obstacles.len() ==> coord_in_range(#[trigger] g.obstacles[i])
    &&& state_wf(g.state, g.config)
}

/// Well-formedness at frame boundaries: `pass_wf` plus the bolt's position
/// discipline (tracking the player while loaded, at or below the exit
/// boundary while in flight).
pub open spec fn game_wf(g: GameM) -> bool {
    &&& pass_wf(g)
    &&& bolt_wf(g.bolt, g.player, g.config)
}

/// `a + b` capped at the score carrier's top.
pub open spec fn sat_add_u64(a: int, b: int) -> int {
    if a + b > u64::MAX {
        u64::MAX as int
    } else {
        a + b
    }
}

/// The hit box of the bolt at `pos`.
pub open spec fn bolt_box_at(pos: Vec2M, c: Config) -> AabbM {
    spec_make_box(pos, c.bolt_box)
}

/// The hit box of an enemy.
pub open spec fn enemy_box_of(e: EnemyM, c: Config) -> AabbM {
    spec_make_box(e.position, c.enemy_box)
}

/// The hit box of the player at `pos`.
pub open spec fn player_box_at(pos: Vec2M, c: Config) -> AabbM {
    spec_make_box(pos, c.player_box)
}

/// The hit box of an obstacle at `pos`.
pub open spec fn obstacle_box_at(pos: Vec2M, c: Config) -> AabbM {
    spec_make_box(pos, c.obstacle_box)
}

/// Index of the first enemy at or after `i` whose hit box overlaps the
/// bolt box, if any.
pub open spec fn first_bolt_hit_from(s: Seq<EnemyM>, bb: AabbM, c: Config, i: int) -> Option<int>
    decreases s.len() - i,
{
    if i < 0 || i >= s.len() {
        None
    } else if spec_intersects(enemy_box_of(s[i], c), bb) {
        Some(i)
    } else {
        first_bolt_hit_from(s, bb, c, i + 1)
    }
}

/// Index of the first enemy whose hit box overlaps the bolt box, if any.
pub open spec fn first_bolt_hit(s: Seq<EnemyM>, bb: AabbM, c: Config) -> Option<int> {
    first_bolt_hit_from(s, bb, c, 0)
}

/// Some enemy's hit box overlaps the player's.
pub open spec fn exists_player_overlap(s: Seq<EnemyM>, pb: AabbM, c: Config) -> bool {
    exists|i: int| 0 <= i < s.len() && spec_intersects(enemy_box_of(#[trigger] s[i], c), pb)
}

/// Some enemy has descended below `py`.
pub open spec fn exists_below(s: Seq<EnemyM>, py: int) -> bool {
    exists|i: int| 0 <= i < s.len() && (#[trigger] s[i]).position.y < py
}

/// Some obstacle's hit box overlaps the bolt box.
pub open spec fn exists_obstacle_hit(obstacles: Seq<Vec2M>, bb: AabbM, c: Config) -> bool {
    exists|i: int|
        0 <= i < obstacles.len() && spec_intersects(
            obstacle_box_at(#[trigger] obstacles[i], c),
            bb,
        )
}

/// Collision pass of the bolt against the enemies: an in-flight bolt kills
/// the first enemy whose hit box it overlaps; the kill removes that enemy,
/// adds the kill reward to the score (capped at the carrier), and returns
/// the bolt to the player.  At most one enemy is resolved per frame.
pub open spec fn spec_resolve_bolt_enemy(g: GameM) -> GameM {
    if !g.bolt.in_flight {
        g
    } else {
        match first_bolt_hit(g.formation.enemies, bolt_box_at(g.bolt.position, g.config), g.config) {
            Some(i) => GameM {
                player: PlayerM { has_bolt: true, ..g.player },
                bolt: BoltM { in_flight: false, ..g.bolt },
                formation: FormationM {
                    enemies: g.formation.enemies.remove(i),
                    ..g.formation
                },
                state: StateM {
                    score: sat_add_u64(g.state.score, g.config.kill_reward as int),
                    ..g.state
                },
                ..g
            },
            None => g,
        }
    }
}

/// Collision pass of the enemies against the player, and the bottom
/// boundary penalty.  An overlap latches `player_caught`; while caught the
/// grace timer runs and on expiry the wave resets, the player loses a
/// life, and the catch clears.  Otherwise, an enemy below the player's row
/// runs the respawn timer, and on expiry the wave resets.
pub open spec fn spec_enemy_player(g: GameM, dt: i64) -> GameM {
    let pb = player_box_at(g.player.position, g.config);
    let caught = g.state.player_caught || exists_player_overlap(g.formation.enemies, pb, g.config);
    if caught {
        let t = g.state.caught_timer + dt;
        if t > g.config.caught_limit {
            GameM {
                formation: spec_respawn(g.formation),
                player: PlayerM {
                    lives: if g.player.lives > 0 {
                        g.player.lives - 1
                    } else {
                        0
                    },
                    ..g.player
                },
                state: StateM { player_caught: false, caught_timer: 0, ..g.state },
                ..g
            }
        } else {
            GameM { state: StateM { player_caught: true, caught_timer: t, ..g.state }, ..g }
        }
    } else if exists_below(g.formation.enemies, g.player.position.y) {
        let t = g.state.respawn_timer + dt;
        if t > g.config.respawn_delay {
            GameM {
                formation: spec_respawn(g.formation),
                state: StateM { respawn_timer: 0, ..g.state },
                ..g
            }
        } else {
            GameM { state: StateM { respawn_timer: t, ..g.state }, ..g }
        }
    } else {
        g
    }
}

/// Collision pass of the bolt against the obstacles: an obstacle absorbs
/// an in-flight bolt, returning it to the player with no score change.
pub open spec fn spec_bolt_obstacles(g: GameM) -> GameM {
    if g.bolt.in_flight && exists_obstacle_hit(
        g.obstacles,
        bolt_box_at(g.bolt.position, g.config),
        g.config,
    ) {
        GameM {
            player: PlayerM { has_bolt: true, ..g.player },
            bolt: BoltM { in_flight: false, ..g.bolt },
            ..g
        }
    } else {
        g
    }
}

/// Wave-clear respawn: once the formation is empty the respawn timer runs,
/// and on expiry a fresh wave spawns at the initial grid.
pub open spec fn spec_wave_respawn(g: GameM, dt: i64) -> GameM {
    if g.formation.enemies.len() == 0 {
        let t = g.state.respawn_timer + dt;
        if t > g.config.respawn_delay {
            GameM {
                formation: spec_respawn(g.formation),
                state: StateM { respawn_timer: 0, ..g.state },
                ..g
            }
        } else {
            GameM { state: StateM { respawn_timer: t, ..g.state }, ..g }
        }
    } else {
        g
    }
}

/// Bolt flight: an in-flight bolt rises by `bolt_speed * dt` and returns
/// to the player once past the exit boundary (a miss); a loaded bolt
/// tracks the player's position.
pub open spec fn spec_bolt_step(g: GameM, dt: i64) -> GameM {
    if g.bolt.in_flight {
        let y = g.bolt.position.y + g.config.bolt_speed * dt;
        if y > g.config.bolt_exit_y {
            GameM {
                player: PlayerM { has_bolt: true, ..g.player },
                bolt: BoltM { in_flight: false, position: g.player.position },
                ..g
            }
        } else {
            GameM {
                bolt: BoltM { in_flight: true, position: Vec2M { x: g.bolt.position.x, y } },
                ..g
            }
        }
    } else {
        GameM { bolt: BoltM { in_flight: false, position: g.player.position }, ..g }
    }
}

/// One frame of the game-over fade: below `fade_low` the direction turns
/// upward, at `FADE_ONE` downward; the level moves by `fade_rate * dt` and
/// is clamped to `[0, FADE_ONE]`.  Nothing happens while the game is on.
pub open spec fn spec_fade(s: StateM, c: Config, dt: i64) -> StateM {
    if !s.game_over {
        s
    } else {
        let r1 = if s.fade_level <= c.fade_low {
            true
        } else {
            s.fade_rising
        };
        let r2 = if s.fade_level >= FADE_ONE {
            false
        } else {
            r1
        };
        let moved = if r2 {
            s.fade_level + c.fade_rate * dt
        } else {
            s.fade_level - c.fade_rate * dt
        };
        StateM {
            fade_rising: r2,
            fade_level: clamp_i(moved, 0, FADE_ONE as int),
            ..s
        }
    }
}

/// The movement prefix of one frame: player movement and formation
/// movement (both frozen while the player is caught) around the animation
/// clock.  The collision passes read the state this leaves.
pub open spec fn spec_prelude(g: GameM, input: Input, dt: i64) -> GameM {
    let frozen = g.state.player_caught;
    let g1 = if frozen {
        g
    } else {
        GameM { player: spec_move_player(g.player, g.config, input, dt), ..g }
    };
    let g2 = GameM { formation: spec_animation(g1.formation, g1.config, dt), ..g1 };
    if frozen {
        g2
    } else {
        GameM { formation: spec_march(g2.formation, g2.config, dt), ..g2 }
    }
}

/// One whole frame.  With `freeze_on_game_over` set and the game over,
/// only the fade advances.  Otherwise: the movement prefix, the three
/// collision passes, wave respawn, bolt flight, and the fade.
pub open spec fn spec_update(g: GameM, input: Input, dt: i64) -> GameM {
    if g.config.freeze_on_game_over && g.state.game_over {
        GameM { state: spec_fade(g.state, g.config, dt), ..g }
    } else {
        let g3 = spec_prelude(g, input, dt);
        let g4 = spec_resolve_bolt_enemy(g3);
        let g5 = spec_enemy_player(g4, dt);
        let g6 = spec_bolt_obstacles(g5);
        let g7 = spec_wave_respawn(g6, dt);
        let g8 = spec_bolt_step(g7, dt);
        GameM { state: spec_fade(g8.state, g8.config, dt), ..g8 }
    }
}

/// Latching the game-over state: everything else is untouched.
pub open spec fn spec_trigger_game_over(g: GameM) -> GameM {
    GameM { state: StateM { game_over: true, ..g.state }, ..g }
}

/// Firing: a loaded bolt leaves the player and starts its flight at the
/// player's position; with the bolt already in flight, firing does
/// nothing.
pub open spec fn spec_fire(g: GameM) -> GameM {
    if g.player.has_bolt {
        GameM {
            player: PlayerM { has_bolt: false, ..g.player },
            bolt: BoltM { in_flight: true, position: g.player.position },
            ..g
        }
    } else {
        g
    }
}

/// The four tombstones of a match, at their fixed positions.
pub open spec fn initial_obstacles() -> Seq<Vec2M> {
    seq![
        Vec2M { x: 100_000_000, y: 200_000_000 },
        Vec2M { x: 270_000_000, y: 200_000_000 },
        Vec2M { x: 440_000_000, y: 200_000_000 },
        Vec2M { x: 610_000_000, y: 200_000_000 },
    ]
}

/// The match state a game starts with.
pub open spec fn initial_state() -> StateM {
    StateM {
        score: 0,
        player_caught: false,
        caught_timer: 0,
        respawn_timer: 0,
        game_over: false,
        fade_level: FADE_ONE as int,
        fade_rising: false,
    }
}

/// The whole game a match starts with, under config `c`.
pub open spec fn initial_game(c: Config) -> GameM {
    GameM {
        config: c,
        player: crate::player::initial_player(),
        bolt: BoltM { in_flight: false, position: crate::player::initial_player().position },
        formation: crate::formation::initial_formation(c),
        obstacles: initial_obstacles(),
        state: initial_state(),
    }
}

/// A key whose down-edge the core reacts to.
#[derive(Clone, Copy, PartialEq, Eq, Structural, Debug)]
pub enum Key {
    Left,
    Right,
    Fire,
}

/// Builds the four tombstones.
pub fn default_obstacles() -> (v: Vec<Vec2>)
    ensures
        view_points(v@) == initial_obstacles(),
{
    let mut v: Vec<Vec2> = Vec::new();
    v.push(Vec2 { x: 100_000_000, y: 200_000_000 });
    v.push(Vec2 { x: 270_000_000, y: 200_000_000 });
    v.push(Vec2 { x: 440_000_000, y: 200_000_000 });
    v.push(Vec2 { x: 610_000_000, y: 200_000_000 });
    proof {
        assert(view_points(v@) =~= initial_obstacles());
    }
    v
}

impl Game {
    /// Builds a match in its initial state under config `c`: loaded player
    /// at the spawn point, a full wave, four tombstones, zero score.
    pub fn new(c: Config) -> (g: Game)
        requires
            config_wf(c),
            crate::player::initial_player().position.y <= c.bolt_exit_y,
        ensures
            g@ == initial_game(c),
            game_wf(g@),
    {
        let player = Player::new();
        let bolt = Bolt { in_flight: false, position: player.position };
        let g = Game {
            config: c,
            player,
            bolt,
            formation: Formation::new(c),
            obstacles: default_obstacles(),
            state: MatchState {
                score: 0,
                player_caught: false,
                caught_timer: 0,
                respawn_timer: 0,
                game_over: false,
                fade_level: FADE_ONE,
                fade_rising: false,
            },
        };
        proof {
            assert(g@ =~= initial_game(c));
        }
        g
    }

    /// Fires the bolt if it is loaded; a no-op while the bolt is in
    /// flight, so a second projectile can never appear.
    pub fn fire(&mut self) -> (fired: bool)
        requires
            game_wf(old(self)@),
        ensures
            final(self)@ == spec_fire(old(self)@),
            fired == old(self)@.player.has_bolt,
            game_wf(final(self)@),
    {
        if self.player.has_bolt {
            self.player.has_bolt = false;
            self.bolt.in_flight = true;
            self.bolt.position = self.player.position;
            proof {
                assert(self@ =~= spec_fire(old(self)@));
            }
            true
        } else {
            proof {
                assert(self@ =~= spec_fire(old(self)@));
            }
            false
        }
    }

    /// Reacts to a key's down-edge: the fire key fires the bolt; the
    /// movement keys act through the held-key input of `update` instead.
    pub fn handle_key_down(&mut self, key: Key) -> (fired: bool)
        requires
            game_wf(old(self)@),
        ensures
            final(self)@ == (if key is Fire {
                spec_fire(old(self)@)
            } else {
                old(self)@
            }),
            fired == (key is Fire && old(self)@.player.has_bolt),
            game_wf(final(self)@),
    {
        match key {
            Key::Fire => self.fire(),
            _ => false,
        }
    }

    /// Latches the game-over state; the trigger policy (lives, score, or
    /// anything else) is the caller's.
    pub fn trigger_game_over(&mut self)
        requires
            game_wf(old(self)@),
        ensures
            final(self)@ == spec_trigger_game_over(old(self)@),
            game_wf(final(self)@),
    {
        self.state.game_over = true;
        proof {
            assert(self@ =~= spec_trigger_game_over(old(self)@));
        }
    }
}

impl Game {
    /// Runs the bolt-versus-enemy collision pass.
    fn resolve_bolt_enemy(&mut self)
        requires
            pass_wf(old(self)@),
        ensures
            final(self)@ == spec_resolve_bolt_enemy(old(self)@),
    {
        let ghost g0 = self@;
        if !self.bolt.in_flight {
            return;
        }
        let bb = make_box(self.bolt.position, self.config.bolt_box);
        let ghost bbm = bolt_box_at(g0.bolt.position, g0.config);
        let ghost es = g0.formation.enemies;
        let n = self.formation.enemies.len();
        let mut i: usize = 0;
        while i < n
            invariant
                self@ == g0,
                i <= n,
                n == es.len(),
                first_bolt_hit(es, bbm, g0.config) == first_bolt_hit_from(es, bbm, g0.config, i as int),
            decreases n - i,
        {
            let e = self.formation.enemies[i];
            proof {
                assert(es[i as int] == e@);
                assert(enemy_wf(es[i as int]));
            }
            let eb = make_box(e.position, self.config.enemy_box);
            if crate::geom::intersects(&eb, &bb) {
                proof {
                    assert(first_bolt_hit(es, bbm, g0.config) == Some(i as int));
                }
                let _killed = self.formation.enemies.remove(i);
                let r: u64 = self.config.kill_reward;
                self.state.score = if self.state.score <= u64::MAX - r {
                    self.state.score + r
                } else {
                    u64::MAX
                };
                self.bolt.in_flight = false;
                self.player.has_bolt = true;
                proof {
                    let ev = g0.formation.enemies;
                    assert(crate::formation::view_enemies(
                        old(self).formation.enemies@.remove(i as int),
                    ) =~= ev.remove(i as int));
                    assert(self@ =~= spec_resolve_bolt_enemy(g0));
                }
                return;
            }
            i = i + 1;
        }
        proof {
            assert(first_bolt_hit(es, bbm, g0.config) is None);
            assert(self@ == spec_resolve_bolt_enemy(g0));
        }
    }

    /// Runs the enemy-versus-player collision pass and the bottom boundary
    /// penalty.
    fn enemy_player_pass(&mut self, dt: i64)
        requires
            pass_wf(old(self)@),
            dt_wf(dt),
        ensures
            final(self)@ == spec_enemy_player(old(self)@, dt),
    {
        let ghost g0 = self@;
        let pb = make_box(self.player.position, self.config.player_box);
        let ghost pbm = player_box_at(g0.player.position, g0.config);
        let ghost es = g0.formation.enemies;
        let n = self.formation.enemies.len();
        let mut overlap = false;
        let mut i: usize = 0;
        while i < n && !overlap
            invariant
                i <= n,
                n == es.len(),
                overlap ==> exists_player_overlap(es, pbm, g0.config),
                !overlap ==> forall|j: int|
                    0 <= j < i ==> !spec_intersects(
                        enemy_box_of(#[trigger] es[j], g0.config),
                        pbm,
                    ),
            decreases n - i,
        {
            let e = self.formation.enemies[i];
            proof {
                assert(es[i as int] == e@);
                assert(enemy_wf(es[i as int]));
            }
            let eb = make_box(e.position, self.config.enemy_box);
            if crate::geom::intersects(&eb, &pb) {
                overlap = true;
            }
            i = i + 1;
        }
        proof {
            assert(overlap == exists_player_overlap(es, pbm, g0.config));
        }
        let caught = self.state.player_caught || overlap;
        if caught {
            let t: i64 = self.state.caught_timer + dt;
            if t > self.config.caught_limit {
                self.formation.respawn();
                self.player.lives = if self.player.lives > 0 {
                    self.player.lives - 1
                } else {
                    0
                };
                self.state.player_caught = false;
                self.state.caught_timer = 0;
            } else {
                self.state.player_caught = true;
                self.state.caught_timer = t;
            }
            proof {
                assert(self@ =~= spec_enemy_player(g0, dt));
            }
        } else {
            let mut below = false;
            let mut k: usize = 0;
            while k < n && !below
                invariant
                    k <= n,
                    n == es.len(),
                    below ==> exists_below(es, g0.player.position.y),
                    !below ==> forall|j: int|
                        0 <= j < k ==> !((#[trigger] es[j]).position.y < g0.player.position.y),
                decreases n - k,
            {
                let e = self.formation.enemies[k];
                proof {
                    assert(es[k as int] == e@);
                }
                if e.position.y < self.player.position.y {
                    below = true;
                }
                k = k + 1;
            }
            proof {
                assert(below == exists_below(es, g0.player.position.y));
            }
            if below {
                let t: i64 = self.state.respawn_timer + dt;
                if t > self.config.respawn_delay {
                    self.formation.respawn();
                    self.state.respawn_timer = 0;
                } else {
                    self.state.respawn_timer = t;
                }
            }
            proof {
                assert(self@ =~= spec_enemy_player(g0, dt));
            }
        }
    }

    /// Runs the bolt-versus-obstacle collision pass.
    fn bolt_obstacle_pass(&mut self)
        requires
            pass_wf(old(self)@),
        ensures
            final(self)@ == spec_bolt_obstacles(old(self)@),
    {
        let ghost g0 = self@;
        if !self.bolt.in_flight {
            return;
        }
        let bb = make_box(self.bolt.position, self.config.bolt_box);
        let ghost bbm = bolt_box_at(g0.bolt.position, g0.config);
        let ghost obs = g0.obstacles;
        let n = self.obstacles.len();
        let mut i: usize = 0;
        while i < n
            invariant
                self@ == g0,
                i <= n,
                n == obs.len(),
                forall|j: int|
                    0 <= j < i ==> !spec_intersects(
                        obstacle_box_at(#[trigger] obs[j], g0.config),
                        bbm,
                    ),
            decreases n - i,
        {
            let p = self.obstacles[i];
            proof {
                assert(obs[i as int] == p@);
                assert(coord_in_range(obs[i as int]));
            }
            let ob = make_box(p, self.config.obstacle_box);
            if crate::geom::intersects(&ob, &bb) {
                self.bolt.in_flight = false;
                self.player.has_bolt = true;
                proof {
                    assert(exists_obstacle_hit(obs, bbm, g0.config));
                    assert(self@ =~= spec_bolt_obstacles(g0));
                }
                return;
            }
            i = i + 1;
        }
        proof {
            assert(!exists_obstacle_hit(obs, bbm, g0.config));
            assert(self@ == spec_bolt_obstacles(g0));
        }
    }

    /// Runs the wave-clear respawn timer.
    fn wave_respawn_pass(&mut self, dt: i64)
        requires
            pass_wf(old(self)@),
            dt_wf(dt),
        ensures
            final(self)@ == spec_wave_respawn(old(self)@, dt),
    {
        let ghost g0 = self@;
        if self.formation.enemies.len() == 0 {
            let t: i64 = self.state.respawn_timer + dt;
            if t > self.config.respawn_delay {
                self.formation.respawn();
                self.state.respawn_timer = 0;
            } else {
                self.state.respawn_timer = t;
            }
        }
        proof {
            assert(self@ =~= spec_wave_respawn(g0, dt));
        }
    }

    /// Advances the bolt's flight, or keeps a loaded bolt at the player.
    fn bolt_step_pass(&mut self, dt: i64)
        requires
            pass_wf(old(self)@),
            dt_wf(dt),
        ensures
            final(self)@ == spec_bolt_step(old(self)@, dt),
    {
        let ghost g0 = self@;
        if self.bolt.in_flight {
            proof {
                crate::config::lemma_delta_in_range(self.config.bolt_speed as int, 1, dt);
            }
            let y: i64 = self.bolt.position.y + self.config.bolt_speed * dt;
            if y > self.config.bolt_exit_y {
                self.bolt.in_flight = false;
                self.bolt.position = self.player.position;
                self.player.has_bolt = true;
            } else {
                self.bolt.position.y = y;
            }
        } else {
            self.bolt.position = self.player.position;
        }
        proof {
            assert(self@ =~= spec_bolt_step(g0, dt));
        }
    }

    /// Advances the game-over fade.
    fn fade_pass(&mut self, dt: i64)
        requires
            pass_wf(old(self)@),
            dt_wf(dt),
        ensures
            final(self)@ == (GameM { state: spec_fade(old(self)@.state, old(self)@.config, dt), ..old(self)@ }),
    {
        let ghost g0 = self@;
        if self.state.game_over {
            if self.state.fade_level <= self.config.fade_low {
                self.state.fade_rising = true;
            }
            if self.state.fade_level >= FADE_ONE {
                self.state.fade_rising = false;
            }
            proof {
                assert(0 <= self.config.fade_rate * dt <= crate::config::FADE_RATE_LIMIT * crate::config::DT_LIMIT)
                    by (nonlinear_arith)
                    requires
                        0 <= self.config.fade_rate <= crate::config::FADE_RATE_LIMIT,
                        0 <= dt <= crate::config::DT_LIMIT,
                ;
            }
            let delta: i64 = self.config.fade_rate * dt;
            let moved: i64 = if self.state.fade_rising {
                self.state.fade_level + delta
            } else {
                self.state.fade_level - delta
            };
            self.state.fade_level = if moved < 0 {
                0
            } else if moved > FADE_ONE {
                FADE_ONE
            } else {
                moved
            };
        }
        proof {
            assert(self@ =~= (GameM { state: spec_fade(g0.state, g0.config, dt), ..g0 }));
        }
    }
}

/// A wave reset leaves the formation well-formed: every grid enemy is live
/// and in range.
pub proof fn lemma_respawn_wf(f: FormationM, c: Config)
    requires
        formation_wf(f, c),
    ensures
        formation_wf(spec_respawn(f), c),
{
    let f2 = spec_respawn(f);
    assert forall|i: int| 0 <= i < f2.enemies.len() implies enemy_wf(#[trigger] f2.enemies[i]) by {
        assert(f2.enemies[i] == crate::formation::grid_enemy(i));
        assert(0 <= i / 5 <= 10);
        assert(0 <= i % 5 <= 4);
    }
}

/// Player movement keeps the mid-frame well-formedness.
pub proof fn lemma_move_wf(g: GameM, input: Input, dt: i64)
    requires
        pass_wf(g),
        dt_wf(dt),
    ensures
        pass_wf(GameM { player: spec_move_player(g.player, g.config, input, dt), ..g }),
{
    crate::config::lemma_delta_in_range(g.config.player_speed as int, 1, dt);
}

/// The animation clock keeps the mid-frame well-formedness.
pub proof fn lemma_animation_wf(g: GameM, dt: i64)
    requires
        pass_wf(g),
        dt_wf(dt),
    ensures
        pass_wf(GameM { formation: spec_animation(g.formation, g.config, dt), ..g }),
{
}

/// Formation movement keeps the mid-frame well-formedness.
pub proof fn lemma_march_wf(g: GameM, dt: i64)
    requires
        pass_wf(g),
        dt_wf(dt),
    ensures
        pass_wf(GameM { formation: spec_march(g.formation, g.config, dt), ..g }),
{
    let f2 = spec_march(g.formation, g.config, dt);
    assert forall|i: int| 0 <= i < f2.enemies.len() implies enemy_wf(#[trigger] f2.enemies[i]) by {
        assert(enemy_wf(g.formation.enemies[i]));
    }
}

/// The first-hit scan returns the least overlapping index: the hit index
/// is in range and overlaps, everything before it does not, and a `None`
/// means nothing at or after `i` overlaps.
pub proof fn lemma_first_hit_props(s: Seq<EnemyM>, bb: AabbM, c: Config, i: int)
    requires
        0 <= i,
    ensures
        (match first_bolt_hit_from(s, bb, c, i) {
            Some(k) => i <= k < s.len() && spec_intersects(enemy_box_of(s[k], c), bb)
                && (forall|j: int|
                    i <= j < k ==> !spec_intersects(enemy_box_of(#[trigger] s[j], c), bb)),
            None => forall|j: int|
                i <= j < s.len() ==> !spec_intersects(enemy_box_of(#[trigger] s[j], c), bb),
        }),
    decreases s.len() - i,
{
    if i < s.len() && !spec_intersects(enemy_box_of(s[i], c), bb) {
        lemma_first_hit_props(s, bb, c, i + 1);
    }
}

/// The bolt-versus-enemy pass keeps the mid-frame well-formedness.
pub proof fn lemma_resolve_wf(g: GameM)
    requires
        pass_wf(g),
    ensures
        pass_wf(spec_resolve_bolt_enemy(g)),
{
    if g.bolt.in_flight {
        let bb = bolt_box_at(g.bolt.position, g.config);
        lemma_first_hit_props(g.formation.enemies, bb, g.config, 0);
        match first_bolt_hit(g.formation.enemies, bb, g.config) {
            Some(k) => {
                g.formation.enemies.remove_ensures(k);
                let g2 = spec_resolve_bolt_enemy(g);
                assert forall|i: int| 0 <= i < g2.formation.enemies.len() implies enemy_wf(
                    #[trigger] g2.formation.enemies[i],
                ) by {
                    if i < k {
                        assert(g2.formation.enemies[i] == g.formation.enemies[i]);
                    } else {
                        assert(g2.formation.enemies[i] == g.formation.enemies[i + 1]);
                    }
                }
            },
            None => {},
        }
    }
}

/// The enemy-versus-player pass keeps the mid-frame well-formedness.
pub proof fn lemma_enemy_player_wf(g: GameM, dt: i64)
    requires
        pass_wf(g),
        dt_wf(dt),
    ensures
        pass_wf(spec_enemy_player(g, dt)),
{
    lemma_respawn_wf(g.formation, g.config);
}

/// The bolt-versus-obstacle pass keeps the mid-frame well-formedness.
pub proof fn lemma_obstacles_wf(g: GameM)
    requires
        pass_wf(g),
    ensures
        pass_wf(spec_bolt_obstacles(g)),
{
}

/// The wave-respawn pass keeps the mid-frame well-formedness.
pub proof fn lemma_wave_wf(g: GameM, dt: i64)
    requires
        pass_wf(g),
        dt_wf(dt),
    ensures
        pass_wf(spec_wave_respawn(g, dt)),
{
    lemma_respawn_wf(g.formation, g.config);
}

/// Bolt flight keeps the mid-frame well-formedness and restores the
/// bolt's position discipline.
pub proof fn lemma_bolt_step_wf(g: GameM, dt: i64)
    requires
        pass_wf(g),
        dt_wf(dt),
    ensures
        pass_wf(spec_bolt_step(g, dt)),
        bolt_wf(spec_bolt_step(g, dt).bolt, spec_bolt_step(g, dt).player, g.config),
{
    crate::config::lemma_delta_in_range(g.config.bolt_speed as int, 1, dt);
}

/// The fade keeps the mid-frame well-formedness.
pub proof fn lemma_fade_wf(g: GameM, dt: i64)
    requires
        pass_wf(g),
        dt_wf(dt),
    ensures
        pass_wf(GameM { state: spec_fade(g.state, g.config, dt), ..g }),
{
}

/// The movement prefix keeps the mid-frame well-formedness and touches
/// neither the bolt, the obstacles, nor the match state.
pub proof fn lemma_prelude_wf(g: GameM, input: Input, dt: i64)
    requires
        game_wf(g),
        dt_wf(dt),
    ensures
        pass_wf(spec_prelude(g, input, dt)),
        spec_prelude(g, input, dt).config == g.config,
        spec_prelude(g, input, dt).bolt == g.bolt,
        spec_prelude(g, input, dt).obstacles == g.obstacles,
        spec_prelude(g, input, dt).state == g.state,
{
    let frozen = g.state.player_caught;
    let g1 = if frozen {
        g
    } else {
        GameM { player: spec_move_player(g.player, g.config, input, dt), ..g }
    };
    if !frozen {
        lemma_move_wf(g, input, dt);
    }
    lemma_animation_wf(g1, dt);
    let g2 = GameM { formation: spec_animation(g1.formation, g1.config, dt), ..g1 };
    if !frozen {
        lemma_march_wf(g2, dt);
    }
}

/// One whole frame preserves well-formedness: `update` can be called
/// forever.
pub proof fn lemma_update_wf(g: GameM, input: Input, dt: i64)
    requires
        game_wf(g),
        dt_wf(dt),
    ensures
        game_wf(spec_update(g, input, dt)),
{
    if g.config.freeze_on_game_over && g.state.game_over {
        lemma_fade_wf(g, dt);
    } else {
        lemma_prelude_wf(g, input, dt);
        let g3 = spec_prelude(g, input, dt);
        lemma_resolve_wf(g3);
        let g4 = spec_resolve_bolt_enemy(g3);
        lemma_enemy_player_wf(g4, dt);
        let g5 = spec_enemy_player(g4, dt);
        lemma_obstacles_wf(g5);
        let g6 = spec_bolt_obstacles(g5);
        lemma_wave_wf(g6, dt);
        let g7 = spec_wave_respawn(g6, dt);
        lemma_bolt_step_wf(g7, dt);
        let g8 = spec_bolt_step(g7, dt);
        lemma_fade_wf(g8, dt);
    }
}

impl Game {
    /// Advances the match by one frame of `dt` microseconds under the held
    /// keys: player movement, animation, formation movement, the collision
    /// passes, wave respawn, bolt flight, and the game-over fade, exactly
    /// as `spec_update` composes them.
    pub fn update(&mut self, input: Input, dt: i64)
        requires
            game_wf(old(self)@),
            dt_wf(dt),
        ensures
            final(self)@ == spec_update(old(self)@, input, dt),
            game_wf(final(self)@),
    {
        let ghost g0 = self@;
        proof {
            lemma_update_wf(g0, input, dt);
        }
        if self.config.freeze_on_game_over && self.state.game_over {
            self.fade_pass(dt);
            proof {
                assert(self@ =~= spec_update(g0, input, dt));
            }
            return;
        }
        let frozen = self.state.player_caught;
        let c = self.config;
        if !frozen {
            self.player.step_move(c, input, dt);
        }
        let ghost g1 = if frozen {
            g0
        } else {
            GameM { player: spec_move_player(g0.player, g0.config, input, dt), ..g0 }
        };
        proof {
            assert(self@ =~= g1);
            if !frozen {
                lemma_move_wf(g0, input, dt);
            }
        }
        self.formation.step_animation(c, dt);
        let ghost g2 = GameM { formation: spec_animation(g1.formation, g1.config, dt), ..g1 };
        proof {
            assert(self@ =~= g2);
            lemma_animation_wf(g1, dt);
        }
        if !frozen {
            self.formation.step_march(c, dt);
        }
        let ghost g3 = if frozen {
            g2
        } else {
            GameM { formation: spec_march(g2.formation, g2.config, dt), ..g2 }
        };
        proof {
            assert(self@ =~= g3);
            if !frozen {
                lemma_march_wf(g2, dt);
            }
        }
        self.resolve_bolt_enemy();
        let ghost g4 = spec_resolve_bolt_enemy(g3);
        proof {
            lemma_resolve_wf(g3);
            assert(self@ == g4);
        }
        self.enemy_player_pass(dt);
        let ghost g5 = spec_enemy_player(g4, dt);
        proof {
            lemma_enemy_player_wf(g4, dt);
            assert(self@ == g5);
        }
        self.bolt_obstacle_pass();
        let ghost g6 = spec_bolt_obstacles(g5);
        proof {
            lemma_obstacles_wf(g5);
            assert(self@ == g6);
        }
        self.wave_respawn_pass(dt);
        let ghost g7 = spec_wave_respawn(g6, dt);
        proof {
            lemma_wave_wf(g6, dt);
            assert(self@ == g7);
        }
        self.bolt_step_pass(dt);
        let ghost g8 = spec_bolt_step(g7, dt);
        proof {
            lemma_bolt_step_wf(g7, dt);
            assert(self@ == g8);
        }
        self.fade_pass(dt);
        proof {
            assert(self@ =~= spec_update(g0, input, dt));
        }
    }
}

} // verus!
