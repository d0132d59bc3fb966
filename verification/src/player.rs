//! The player-controlled crossbow: clamped horizontal movement, ammo state,
//! lives, and the sprite selector the renderer reads.

use crate::config::{config_wf, dt_wf, Config};
use crate::geom::{coord_in_range, Vec2, Vec2M};
use vstd::prelude::*;

verus! {

/// The player unit.
#[derive(Clone, Copy, PartialEq, Eq, Structural, Debug)]
pub struct Player {
    pub position: Vec2,
    /// The bolt is loaded; false exactly while the bolt is in flight.
    pub has_bolt: bool,
    pub lives: u64,
}

/// Mathematical image of a `Player`.
#[verifier::ext_equal]
pub ghost struct PlayerM {
    pub position: Vec2M,
    pub has_bolt: bool,
    pub lives: int,
}

impl View for Player {
    type V = PlayerM;

    open spec fn view(&self) -> PlayerM {
        PlayerM { position: self.position@, has_bolt: self.has_bolt, lives: self.lives as int }
    }
}

/// Position within the coordinate range; lives within its carrier.
pub open spec fn player_wf(p: PlayerM) -> bool {
    &&& coord_in_range(p.position)
    &&& 0 <= p.lives <= u64::MAX
}

/// Which keys are held during one frame.
#[derive(Clone, Copy, PartialEq, Eq, Structural, Debug)]
pub struct Input {
    pub left: bool,
    pub right: bool,
}

/// One frame of player movement: each held direction key displaces the
/// player by `player_speed * dt` and clamps the crossed bound on that side,
/// left before right, exactly as the per-key handlers do.
pub open spec fn spec_move_player(p: PlayerM, c: Config, input: Input, dt: i64) -> PlayerM {
    let d = c.player_speed * dt;
    let x1 = if input.left {
        let m = p.position.x - d;
        if m <= c.player_min_x {
            c.player_min_x as int
        } else {
            m
        }
    } else {
        p.position.x
    };
    let x2 = if input.right {
        let m = x1 + d;
        if m >= c.player_max_x {
            c.player_max_x as int
        } else {
            m
        }
    } else {
        x1
    };
    PlayerM { position: Vec2M { x: x2, y: p.position.y }, ..p }
}

impl Player {
    /// The initial player: loaded crossbow, three lives, at (100, 100) px.
    pub fn new() -> (p: Player)
        ensures
            p@ == initial_player(),
            player_wf(p@),
    {
        Player {
            position: Vec2 { x: 100_000_000, y: 100_000_000 },
            has_bolt: true,
            lives: 3,
        }
    }

    /// Moves the player for one frame according to the held keys.
    pub fn step_move(&mut self, c: Config, input: Input, dt: i64)
        requires
            config_wf(c),
            dt_wf(dt),
            player_wf(old(self)@),
        ensures
            final(self)@ == spec_move_player(old(self)@, c, input, dt),
            player_wf(final(self)@),
    {
        proof {
            crate::config::lemma_delta_in_range(c.player_speed as int, 1, dt);
        }
        let d: i64 = c.player_speed * dt;
        if input.left {
            let m: i64 = self.position.x - d;
            self.position.x = if m <= c.player_min_x {
                c.player_min_x
            } else {
                m
            };
        }
        if input.right {
            let m: i64 = self.position.x + d;
            self.position.x = if m >= c.player_max_x {
                c.player_max_x
            } else {
                m
            };
        }
    }
}

/// The initial player state.
pub open spec fn initial_player() -> PlayerM {
    PlayerM {
        position: Vec2M { x: 100_000_000, y: 100_000_000 },
        has_bolt: true,
        lives: 3,
    }
}

/// Sprite selector of a crossbow frame.
#[derive(Clone, Copy, PartialEq, Eq, Structural, Debug)]
pub enum SpriteFrame {
    /// The bolt itself.
    Bolt,
    /// Crossbow shown without a bolt.
    Unloaded,
    /// Crossbow shown with a bolt ready.
    Loaded,
}

impl Player {
    /// Which crossbow frame the renderer should draw.
    pub fn sprite(&self) -> (s: SpriteFrame)
        ensures
            s == (if self.has_bolt {
                SpriteFrame::Loaded
            } else {
                SpriteFrame::Unloaded
            }),
    {
        if self.has_bolt {
            SpriteFrame::Loaded
        } else {
            SpriteFrame::Unloaded
        }
    }
}

} // verus!
