//! Axis-aligned bounding boxes and the fixed-point coordinate system.
//!
//! Coordinates are `i64` micro-pixels: `PX` units per pixel.  Entity
//! coordinates are kept within `[-COORD_LIMIT, COORD_LIMIT]`; a single
//! frame never displaces an entity by more than `DELTA_LIMIT`, so all
//! arithmetic below stays far inside the `i64` range.

use vstd::prelude::*;

verus! {

/// Coordinate units per pixel.
pub const PX: i64 = 1_000_000;

/// Largest magnitude an entity coordinate may reach; movement saturates here.
pub const COORD_LIMIT: i64 = 1_000_000_000_000_000;

/// Largest magnitude a single-frame displacement may have.
pub const DELTA_LIMIT: i64 = 1_000_000_000_000_000;

/// A position or extent in micro-pixels.
#[derive(Clone, Copy, PartialEq, Eq, Structural, Debug)]
pub struct Vec2 {
    pub x: i64,
    pub y: i64,
}

/// Mathematical image of a `Vec2`.
#[verifier::ext_equal]
pub ghost struct Vec2M {
    pub x: int,
    pub y: int,
}

impl View for Vec2 {
    type V = Vec2M;

    open spec fn view(&self) -> Vec2M {
        Vec2M { x: self.x as int, y: self.y as int }
    }
}

/// Both coordinates lie within the entity coordinate range.
pub open spec fn coord_in_range(v: Vec2M) -> bool {
    &&& -COORD_LIMIT <= v.x <= COORD_LIMIT
    &&& -COORD_LIMIT <= v.y <= COORD_LIMIT
}

/// `v` forced into `[lo, hi]`.
pub open spec fn clamp_i(v: int, lo: int, hi: int) -> int {
    if v < lo {
        lo
    } else if v > hi {
        hi
    } else {
        v
    }
}

/// A coordinate forced into the entity coordinate range.
pub open spec fn sat_coord(v: int) -> int {
    clamp_i(v, -COORD_LIMIT as int, COORD_LIMIT as int)
}

/// Displaces a coordinate, saturating at the coordinate range.
pub fn shift_coord(v: i64, d: i64) -> (r: i64)
    requires
        -COORD_LIMIT <= v <= COORD_LIMIT,
        -DELTA_LIMIT <= d <= DELTA_LIMIT,
    ensures
        r == sat_coord(v + d),
{
    let s: i64 = v + d;
    if s < -COORD_LIMIT {
        -COORD_LIMIT
    } else if s > COORD_LIMIT {
        COORD_LIMIT
    } else {
        s
    }
}

/// Hit-box shape of one entity type: an offset from the entity position to
/// the box's min corner, and the box's extent.
#[derive(Clone, Copy, PartialEq, Eq, Structural, Debug)]
pub struct BoxSpec {
    pub offset: Vec2,
    pub extent: Vec2,
}

/// An axis-aligned box: min corner plus a non-negative extent.
#[derive(Clone, Copy, PartialEq, Eq, Structural, Debug)]
pub struct Aabb {
    pub min: Vec2,
    pub extent: Vec2,
}

/// Mathematical image of an `Aabb`.
#[verifier::ext_equal]
pub ghost struct AabbM {
    pub min: Vec2M,
    pub extent: Vec2M,
}

impl View for Aabb {
    type V = AabbM;

    open spec fn view(&self) -> AabbM {
        AabbM { min: self.min@, extent: self.extent@ }
    }
}

/// The box has non-negative extents.
pub open spec fn aabb_wf(a: AabbM) -> bool {
    &&& 0 <= a.extent.x
    &&& 0 <= a.extent.y
}

/// The box's corners lie comfortably inside the `i64` range, so that the
/// overlap test can be computed without overflow.
pub open spec fn aabb_in_range(a: AabbM) -> bool {
    &&& -2 * COORD_LIMIT <= a.min.x <= 2 * COORD_LIMIT
    &&& -2 * COORD_LIMIT <= a.min.y <= 2 * COORD_LIMIT
    &&& -2 * COORD_LIMIT <= a.extent.x <= 2 * COORD_LIMIT
    &&& -2 * COORD_LIMIT <= a.extent.y <= 2 * COORD_LIMIT
}

/// The two boxes overlap on both axes; a shared boundary counts as overlap.
pub open spec fn spec_intersects(a: AabbM, b: AabbM) -> bool {
    &&& a.min.x <= b.min.x + b.extent.x
    &&& b.min.x <= a.min.x + a.extent.x
    &&& a.min.y <= b.min.y + b.extent.y
    &&& b.min.y <= a.min.y + a.extent.y
}

/// Interval-overlap test on both axes, boundary touching included.
pub fn intersects(a: &Aabb, b: &Aabb) -> (r: bool)
    requires
        aabb_in_range(a@),
        aabb_in_range(b@),
    ensures
        r == spec_intersects(a@, b@),
{
    a.min.x <= b.min.x + b.extent.x && b.min.x <= a.min.x + a.extent.x
        && a.min.y <= b.min.y + b.extent.y && b.min.y <= a.min.y + a.extent.y
}

/// The hit box of an entity at `pos` with shape `bs`.
pub open spec fn spec_make_box(pos: Vec2M, bs: BoxSpec) -> AabbM {
    AabbM {
        min: Vec2M { x: pos.x + bs.offset.x, y: pos.y + bs.offset.y },
        extent: Vec2M { x: bs.extent.x as int, y: bs.extent.y as int },
    }
}

/// Builds the hit box of an entity at `pos` with shape `bs`.
pub fn make_box(pos: Vec2, bs: BoxSpec) -> (r: Aabb)
    requires
        coord_in_range(pos@),
        -COORD_LIMIT <= bs.offset.x <= COORD_LIMIT,
        -COORD_LIMIT <= bs.offset.y <= COORD_LIMIT,
    ensures
        r@ == spec_make_box(pos@, bs),
{
    Aabb {
        min: Vec2 { x: pos.x + bs.offset.x, y: pos.y + bs.offset.y },
        extent: bs.extent,
    }
}

} // verus!
