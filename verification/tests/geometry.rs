//! Geometry utilities: box construction and the inclusive overlap test.

use graveyard::geom::{intersects, make_box, shift_coord, Aabb, BoxSpec, Vec2, COORD_LIMIT, PX};

fn boxed(x: i64, y: i64, w: i64, h: i64) -> Aabb {
    Aabb { min: Vec2 { x: x * PX, y: y * PX }, extent: Vec2 { x: w * PX, y: h * PX } }
}

#[test]
fn overlapping_boxes_intersect() {
    let a = boxed(0, 0, 10, 10);
    let b = boxed(5, 5, 10, 10);
    assert!(intersects(&a, &b));
    assert!(intersects(&b, &a));
}

#[test]
fn touching_edges_count_as_overlap() {
    let a = boxed(0, 0, 10, 10);
    let b = boxed(10, 0, 5, 10);
    assert!(intersects(&a, &b));
    let c = boxed(0, 10, 10, 5);
    assert!(intersects(&a, &c));
}

#[test]
fn disjoint_boxes_do_not_intersect() {
    let a = boxed(0, 0, 10, 10);
    let b = boxed(11, 0, 5, 10);
    assert!(!intersects(&a, &b));
    let c = boxed(0, 11, 10, 5);
    assert!(!intersects(&a, &c));
    let d = boxed(11, 11, 5, 5);
    assert!(!intersects(&a, &d));
}

#[test]
fn containment_is_overlap() {
    let a = boxed(0, 0, 100, 100);
    let b = boxed(40, 40, 5, 5);
    assert!(intersects(&a, &b));
}

#[test]
fn make_box_applies_offset_and_extent() {
    let bs = BoxSpec {
        offset: Vec2 { x: 15 * PX, y: 0 },
        extent: Vec2 { x: 2 * PX, y: 16 * PX },
    };
    let b = make_box(Vec2 { x: 100 * PX, y: 50 * PX }, bs);
    assert_eq!(b.min, Vec2 { x: 115 * PX, y: 50 * PX });
    assert_eq!(b.extent, Vec2 { x: 2 * PX, y: 16 * PX });
}

#[test]
fn shift_coord_adds_and_saturates() {
    assert_eq!(shift_coord(5 * PX, 3 * PX), 8 * PX);
    assert_eq!(shift_coord(5 * PX, -13 * PX), -8 * PX);
    assert_eq!(shift_coord(COORD_LIMIT, 1), COORD_LIMIT);
    assert_eq!(shift_coord(-COORD_LIMIT, -1), -COORD_LIMIT);
}
