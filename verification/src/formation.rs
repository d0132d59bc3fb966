//! The enemy formation: a grid of skeletons that share one horizontal
//! velocity, sweep across the screen, step down when they touch a margin,
//! and animate on one shared clock.

use crate::config::{config_wf, dt_wf, lemma_delta_in_range, Config, CFG_COORD_LIMIT};
use crate::geom::{coord_in_range, sat_coord, shift_coord, Vec2, Vec2M};
use vstd::prelude::*;

verus! {

/// Enemies in one full wave: an 11-column, 5-row grid.
pub const GRID_COUNT: usize = 55;

/// Capacity bound on the formation; keeps the difficulty scale's
/// arithmetic in range.
pub const MAX_ENEMIES: usize = 432;

/// One skeleton.
#[derive(Clone, Copy, PartialEq, Eq, Structural, Debug)]
pub struct Enemy {
    pub position: Vec2,
    /// Drawing size; the hit box comes from the config instead.
    pub size: Vec2,
    /// Tombstoned for removal, never resurrected; the collision pass
    /// compacts killed enemies away in the same frame, so a well-formed
    /// formation holds live enemies only.
    pub dead: bool,
}

/// Mathematical image of an `Enemy`.
#[verifier::ext_equal]
pub ghost struct EnemyM {
    pub position: Vec2M,
    pub size: Vec2M,
    pub dead: bool,
}

impl View for Enemy {
    type V = EnemyM;

    open spec fn view(&self) -> EnemyM {
        EnemyM { position: self.position@, size: self.size@, dead: self.dead }
    }
}

/// The image of a sequence of enemies.
pub open spec fn view_enemies(s: Seq<Enemy>) -> Seq<EnemyM> {
    s.map_values(|e: Enemy| e@)
}

/// A live enemy within the coordinate range.
pub open spec fn enemy_wf(e: EnemyM) -> bool {
    &&& coord_in_range(e.position)
    &&& 0 <= e.size.x <= CFG_COORD_LIMIT
    &&& 0 <= e.size.y <= CFG_COORD_LIMIT
    &&& !e.dead
}

/// The formation: an ordered collection of enemies sharing one direction of
/// travel and one animation clock.
#[derive(Debug)]
pub struct Formation {
    pub enemies: Vec<Enemy>,
    /// Direction of the shared horizontal velocity.
    pub moving_left: bool,
    /// Shared animation frame, cycling through 4 frames.
    pub frame: u8,
    /// Counts down to the next frame advance.
    pub animation_timer: i64,
}

/// Mathematical image of a `Formation`.
#[verifier::ext_equal]
pub ghost struct FormationM {
    pub enemies: Seq<EnemyM>,
    pub moving_left: bool,
    pub frame: int,
    pub animation_timer: int,
}

impl View for Formation {
    type V = FormationM;

    open spec fn view(&self) -> FormationM {
        FormationM {
            enemies: view_enemies(self.enemies@),
            moving_left: self.moving_left,
            frame: self.frame as int,
            animation_timer: self.animation_timer as int,
        }
    }
}

/// Every enemy live and in range, the count within capacity, the frame one
/// of the 4 cycle positions, and the clock within its period.
pub open spec fn formation_wf(f: FormationM, c: Config) -> bool {
    &&& f.enemies.len() <= MAX_ENEMIES
    &&& forall|i: int| 0 <= i < f.enemies.len() ==> enemy_wf(#[trigger] f.enemies[i])
    &&& 0 <= f.frame < 4
    &&& 0 <= f.animation_timer <= c.animation_period
}

/// The grid slot of wave member `i`: 11 columns 50 px apart from 125 px,
/// 5 rows 90 px apart from 320 px, column-major.
pub open spec fn grid_enemy(i: int) -> EnemyM {
    EnemyM {
        position: Vec2M {
            x: 125_000_000 + 50_000_000 * (i / 5),
            y: 320_000_000 + 90_000_000 * (i % 5),
        },
        size: Vec2M { x: 40_000_000, y: 40_000_000 },
        dead: false,
    }
}

/// A freshly spawned wave.
pub open spec fn initial_enemies() -> Seq<EnemyM> {
    Seq::new(GRID_COUNT as nat, |i: int| grid_enemy(i))
}

/// Builds a fresh wave in its initial grid layout.
pub fn spawn_wave() -> (v: Vec<Enemy>)
    ensures
        view_enemies(v@) == initial_enemies(),
{
    let mut v: Vec<Enemy> = Vec::new();
    let mut i: usize = 0;
    while i < GRID_COUNT
        invariant
            i <= GRID_COUNT,
            v@.len() == i,
            forall|j: int| 0 <= j < i ==> (#[trigger] v@[j])@ == grid_enemy(j),
        decreases GRID_COUNT - i,
    {
        let col: i64 = (i / 5) as i64;
        let row: i64 = (i % 5) as i64;
        v.push(
            Enemy {
                position: Vec2 {
                    x: 125_000_000 + 50_000_000 * col,
                    y: 320_000_000 + 90_000_000 * row,
                },
                size: Vec2 { x: 40_000_000, y: 40_000_000 },
                dead: false,
            },
        );
        i = i + 1;
    }
    proof {
        assert(view_enemies(v@) =~= initial_enemies());
    }
    v
}

/// The difficulty scale: grows as the formation thins, between 2 and 22.
pub open spec fn spec_speed_scale(n: int) -> int {
    (144 - n / 3) % 21 + 2
}

/// Computes the difficulty scale for a live count.
pub fn speed_scale(n: usize) -> (s: i64)
    requires
        n <= MAX_ENEMIES,
    ensures
        s == spec_speed_scale(n as int),
        2 <= s <= 22,
{
    (144 - (n as i64) / 3) % 21 + 2
}

/// One frame of the shared animation clock: the timer counts down by `dt`;
/// on expiry the frame advances modulo 4 and the timer resets to the period.
pub open spec fn spec_animation(f: FormationM, c: Config, dt: i64) -> FormationM {
    let t = f.animation_timer - dt;
    if t < 0 {
        FormationM { frame: (f.frame + 1) % 4, animation_timer: c.animation_period as int, ..f }
    } else {
        FormationM { animation_timer: t, ..f }
    }
}

/// Scans the enemies in order; the first one found beyond a margin decides
/// the new direction of travel: rightward past the left margin, leftward
/// past the right margin.  `None` when the whole formation is inside.
pub open spec fn scan_bounce(s: Seq<EnemyM>, left: i64, right: i64) -> Option<bool>
    decreases s.len(),
{
    if s.len() == 0 {
        None
    } else if s[0].position.x < left {
        Some(false)
    } else if s[0].position.x > right {
        Some(true)
    } else {
        scan_bounce(s.drop_first(), left, right)
    }
}

/// One enemy displaced by the formation's frame movement, saturating at the
/// coordinate range.
pub open spec fn march_enemy(e: EnemyM, dx: int, dy: int) -> EnemyM {
    EnemyM {
        position: Vec2M {
            x: sat_coord(e.position.x + dx),
            y: sat_coord(e.position.y - dy),
        },
        ..e
    }
}

/// One frame of formation movement: a margin contact reverses the shared
/// direction and applies one vertical step down for this frame; every enemy
/// is displaced uniformly by the base speed scaled by the difficulty scale.
pub open spec fn spec_march(f: FormationM, c: Config, dt: i64) -> FormationM {
    let bounce = scan_bounce(f.enemies, c.left_margin, c.right_margin);
    let ml = match bounce {
        Some(m) => m,
        None => f.moving_left,
    };
    let d = c.march_speed * spec_speed_scale(f.enemies.len() as int) * dt;
    let dx = if ml {
        -d
    } else {
        d
    };
    let dy: int = if bounce is Some {
        c.descent_step as int
    } else {
        0
    };
    FormationM {
        enemies: f.enemies.map_values(|e: EnemyM| march_enemy(e, dx, dy)),
        moving_left: ml,
        ..f
    }
}

/// The formation as a match starts: a full grid, moving left, on frame 0
/// with a full animation timer.
pub open spec fn initial_formation(c: Config) -> FormationM {
    FormationM {
        enemies: initial_enemies(),
        moving_left: true,
        frame: 0,
        animation_timer: c.animation_period as int,
    }
}

/// A wave reset: a fresh grid moving left again; the animation clock is
/// left running.
pub open spec fn spec_respawn(f: FormationM) -> FormationM {
    FormationM { enemies: initial_enemies(), moving_left: true, ..f }
}

impl Formation {
    /// Builds the formation a match starts with.
    pub fn new(c: Config) -> (f: Formation)
        requires
            config_wf(c),
        ensures
            f@ == initial_formation(c),
            formation_wf(f@, c),
    {
        let f = Formation {
            enemies: spawn_wave(),
            moving_left: true,
            frame: 0,
            animation_timer: c.animation_period,
        };
        proof {
            assert(f@ =~= initial_formation(c));
            assert forall|i: int| 0 <= i < f@.enemies.len() implies enemy_wf(
                #[trigger] f@.enemies[i],
            ) by {
                assert(f@.enemies[i] == grid_enemy(i));
            }
        }
        f
    }

    /// Replaces the enemies with a fresh wave moving left.
    pub fn respawn(&mut self)
        ensures
            final(self)@ == spec_respawn(old(self)@),
    {
        self.enemies = spawn_wave();
        self.moving_left = true;
        proof {
            assert(self@ =~= spec_respawn(old(self)@));
        }
    }

    /// Advances the shared animation clock by one frame.
    pub fn step_animation(&mut self, c: Config, dt: i64)
        requires
            config_wf(c),
            dt_wf(dt),
            formation_wf(old(self)@, c),
        ensures
            final(self)@ == spec_animation(old(self)@, c, dt),
            formation_wf(final(self)@, c),
    {
        self.animation_timer = self.animation_timer - dt;
        if self.animation_timer < 0 {
            self.frame = (self.frame + 1) % 4;
            self.animation_timer = c.animation_period;
        }
        proof {
            assert(self@ =~= spec_animation(old(self)@, c, dt));
        }
    }

    /// Scans for a margin contact, in enemy order.
    fn scan_margins(&self, c: Config) -> (r: Option<bool>)
        ensures
            r == scan_bounce(view_enemies(self.enemies@), c.left_margin, c.right_margin),
    {
        let ghost es = view_enemies(self.enemies@);
        let n = self.enemies.len();
        let mut i: usize = 0;
        proof {
            assert(es.skip(0) =~= es);
        }
        while i < n
            invariant
                i <= n,
                n == self.enemies@.len(),
                es == view_enemies(self.enemies@),
                scan_bounce(es, c.left_margin, c.right_margin) == scan_bounce(
                    es.skip(i as int),
                    c.left_margin,
                    c.right_margin,
                ),
            decreases n - i,
        {
            let e = &self.enemies[i];
            proof {
                assert(es.skip(i as int)[0] == es[i as int]);
            }
            if e.position.x < c.left_margin {
                return Some(false);
            }
            if e.position.x > c.right_margin {
                return Some(true);
            }
            proof {
                assert(es.skip(i as int).drop_first() =~= es.skip(i as int + 1));
            }
            i = i + 1;
        }
        proof {
            assert(es.skip(n as int) =~= Seq::<EnemyM>::empty());
        }
        None
    }

    /// Moves the whole formation for one frame: reverses direction and
    /// steps down on margin contact, then displaces every enemy uniformly.
    pub fn step_march(&mut self, c: Config, dt: i64)
        requires
            config_wf(c),
            dt_wf(dt),
            formation_wf(old(self)@, c),
        ensures
            final(self)@ == spec_march(old(self)@, c, dt),
            formation_wf(final(self)@, c),
    {
        let bounce = self.scan_margins(c);
        let descend: bool = match bounce {
            Some(m) => {
                self.moving_left = m;
                true
            },
            None => false,
        };
        let scale: i64 = speed_scale(self.enemies.len());
        proof {
            lemma_delta_in_range(c.march_speed as int, scale as int, dt);
        }
        let d: i64 = c.march_speed * scale * dt;
        let dx: i64 = if self.moving_left {
            -d
        } else {
            d
        };
        let dy: i64 = if descend {
            c.descent_step
        } else {
            0
        };
        let ghost gdx = dx as int;
        let ghost gdy = dy as int;
        let n = self.enemies.len();
        let mut moved: Vec<Enemy> = Vec::new();
        let mut i: usize = 0;
        while i < n
            invariant
                i <= n,
                n == self.enemies@.len(),
                moved@.len() == i,
                -crate::geom::DELTA_LIMIT <= dx <= crate::geom::DELTA_LIMIT,
                -crate::geom::DELTA_LIMIT <= dy <= crate::geom::DELTA_LIMIT,
                forall|j: int|
                    0 <= j < n ==> enemy_wf(#[trigger] view_enemies(self.enemies@)[j]),
                forall|j: int|
                    0 <= j < i ==> (#[trigger] moved@[j])@ == march_enemy(
                        view_enemies(self.enemies@)[j],
                        gdx,
                        gdy,
                    ),
            decreases n - i,
        {
            let e = self.enemies[i];
            proof {
                assert(view_enemies(self.enemies@)[i as int] == e@);
            }
            let nx: i64 = shift_coord(e.position.x, dx);
            let ny: i64 = shift_coord(e.position.y, -dy);
            let ghost mprev = moved@;
            let ne = Enemy { position: Vec2 { x: nx, y: ny }, size: e.size, dead: e.dead };
            moved.push(ne);
            proof {
                assert(nx == sat_coord(e@.position.x + gdx));
                assert(ny == sat_coord(e@.position.y - gdy));
                assert(ne@ =~= march_enemy(e@, gdx, gdy));
                assert forall|j: int| 0 <= j <= i as int implies (#[trigger] moved@[j])@
                    == march_enemy(view_enemies(self.enemies@)[j], gdx, gdy) by {
                    if j < i as int {
                        assert(moved@[j] == mprev[j]);
                    } else {
                        assert(moved@[j] == ne);
                    }
                }
            }
            i = i + 1;
        }
        self.enemies = moved;
        proof {
            let target = spec_march(old(self)@, c, dt);
            assert(self@.enemies =~= target.enemies);
            assert(self@ =~= target);
        }
    }
}

} // verus!
