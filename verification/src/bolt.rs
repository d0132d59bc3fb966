//! The single reusable projectile.
//!
//! While loaded, the bolt's position tracks the player; while in flight it
//! rises at a constant speed until it leaves the top boundary or hits a
//! target, and then returns to the loaded state.

use crate::config::Config;
use crate::geom::{Vec2, Vec2M, COORD_LIMIT};
use crate::player::PlayerM;
use vstd::prelude::*;

verus! {

/// The projectile's single flight slot.
#[derive(Clone, Copy, PartialEq, Eq, Structural, Debug)]
pub struct Bolt {
    pub in_flight: bool,
    pub position: Vec2,
}

/// Mathematical image of a `Bolt`.
#[verifier::ext_equal]
pub ghost struct BoltM {
    pub in_flight: bool,
    pub position: Vec2M,
}

impl View for Bolt {
    type V = BoltM;

    open spec fn view(&self) -> BoltM {
        BoltM { in_flight: self.in_flight, position: self.position@ }
    }
}

/// The bolt's tie to the player: loaded exactly while the player holds the
/// bolt, tracking the player's position; in flight it stays within the
/// coordinate range and at or below the exit boundary.
pub open spec fn bolt_wf(b: BoltM, p: PlayerM, c: Config) -> bool {
    &&& p.has_bolt == !b.in_flight
    &&& if b.in_flight {
        &&& -COORD_LIMIT <= b.position.x <= COORD_LIMIT
        &&& -COORD_LIMIT <= b.position.y <= c.bolt_exit_y
    } else {
        b.position == p.position
    }
}

} // verus!
