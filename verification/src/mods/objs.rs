//! The cube as twelve triangles: which corners make which triangle.

use vstd::prelude::*;

verus! {

/// A corner of the unit cube: along each of the three axes it lies at zero
/// or at one.
pub type Corner = (u8, u8, u8);

/// The three corners of a triangle, by their numbers from 0 to 7.
pub type CornerTriple = (usize, usize, usize);

/// The eight corners of the unit cube: the four of the floor, going round
/// it, then the four above them.
pub open spec fn corner_offset(i: int) -> Corner {
    if i == 0 {
        (0, 0, 0)
    } else if i == 1 {
        (1, 0, 0)
    } else if i == 2 {
        (1, 0, 1)
    } else if i == 3 {
        (0, 0, 1)
    } else if i == 4 {
        (0, 1, 0)
    } else if i == 5 {
        (1, 1, 0)
    } else if i == 6 {
        (1, 1, 1)
    } else {
        (0, 1, 1)
    }
}

/// The twelve triangles of the cube, two for each side: back, right, front,
/// left, top and bottom.
pub open spec fn triangle_corners(t: int) -> CornerTriple {
    if t == 0 {
        (0, 1, 5)
    } else if t == 1 {
        (0, 5, 4)
    } else if t == 2 {
        (1, 2, 6)
    } else if t == 3 {
        (1, 6, 5)
    } else if t == 4 {
        (2, 3, 7)
    } else if t == 5 {
        (2, 7, 6)
    } else if t == 6 {
        (3, 0, 4)
    } else if t == 7 {
        (3, 4, 7)
    } else if t == 8 {
        (4, 5, 6)
    } else if t == 9 {
        (4, 6, 7)
    } else if t == 10 {
        (0, 3, 2)
    } else {
        (0, 2, 1)
    }
}

/// A side of the cube: the axis that it cuts (0, 1 or 2) and where it cuts
/// it (0 or 1).
pub open spec fn side_of(s: int) -> (int, u8) {
    if s == 0 {
        (2, 0)
    } else if s == 1 {
        (0, 1)
    } else if s == 2 {
        (2, 1)
    } else if s == 3 {
        (0, 0)
    } else if s == 4 {
        (1, 1)
    } else {
        (1, 0)
    }
}

/// Where the corner `c` lies along the axis `axis`.
pub open spec fn along(c: Corner, axis: int) -> u8 {
    if axis == 0 {
        c.0
    } else if axis == 1 {
        c.1
    } else {
        c.2
    }
}

/// The corner with the number `i` lies on the side `side`.
pub open spec fn corner_on_side(i: int, side: (int, u8)) -> bool {
    along(corner_offset(i), side.0) == side.1
}

/// The three corners of `t` lie on the side `side`.
pub open spec fn triangle_on_side(t: CornerTriple, side: (int, u8)) -> bool {
    corner_on_side(t.0 as int, side) && corner_on_side(t.1 as int, side) && corner_on_side(
        t.2 as int,
        side,
    )
}

/// The corner with the number `i` is a corner of `t`.
pub open spec fn touches(t: CornerTriple, i: int) -> bool {
    t.0 == i || t.1 == i || t.2 == i
}

/// The eight corners of the unit cube.
pub fn cube_corner_offsets() -> (r: Vec<Corner>)
    ensures
        r@.len() == 8,
        forall|i: int| 0 <= i < 8 ==> (#[trigger] r@[i]) == corner_offset(i),
{
    let mut r: Vec<Corner> = Vec::new();
    r.push((0, 0, 0));
    r.push((1, 0, 0));
    r.push((1, 0, 1));
    r.push((0, 0, 1));
    r.push((0, 1, 0));
    r.push((1, 1, 0));
    r.push((1, 1, 1));
    r.push((0, 1, 1));
    r
}

/// The twelve triangles of the cube, each by the numbers of its corners.
pub fn cube_triangle_corners() -> (r: Vec<CornerTriple>)
    ensures
        r@.len() == 12,
        forall|t: int| 0 <= t < 12 ==> (#[trigger] r@[t]) == triangle_corners(t),
{
    let mut r: Vec<CornerTriple> = Vec::new();
    r.push((0, 1, 5));
    r.push((0, 5, 4));
    r.push((1, 2, 6));
    r.push((1, 6, 5));
    r.push((2, 3, 7));
    r.push((2, 7, 6));
    r.push((3, 0, 4));
    r.push((3, 4, 7));
    r.push((4, 5, 6));
    r.push((4, 6, 7));
    r.push((0, 3, 2));
    r.push((0, 2, 1));
    r
}

/// Every triangle of the cube has three different corners of the cube.
pub proof fn lemma_triangle_corners_differ(t: int)
    requires
        0 <= t < 12,
    ensures
        triangle_corners(t).0 < 8,
        triangle_corners(t).1 < 8,
        triangle_corners(t).2 < 8,
        triangle_corners(t).0 != triangle_corners(t).1,
        triangle_corners(t).1 != triangle_corners(t).2,
        triangle_corners(t).0 != triangle_corners(t).2,
{
}

/// Each side of the cube has two triangles: both lie on it, they meet along
/// a diagonal, and between them they touch every corner of the side.
pub proof fn lemma_two_triangles_per_side(s: int)
    requires
        0 <= s < 6,
    ensures
        triangle_on_side(triangle_corners(2 * s), side_of(s)),
        triangle_on_side(triangle_corners(2 * s + 1), side_of(s)),
        triangle_corners(2 * s).0 == triangle_corners(2 * s + 1).0,
        triangle_corners(2 * s).2 == triangle_corners(2 * s + 1).1,
        forall|i: int|
            0 <= i < 8 && corner_on_side(i, side_of(s)) ==> touches(triangle_corners(2 * s), i)
                || touches(triangle_corners(2 * s + 1), i),
{
}

/// A triangle of the cube lies on no other side than its own.
pub proof fn lemma_triangle_on_one_side(t: int, s: int)
    requires
        0 <= t < 12,
        0 <= s < 6,
        triangle_on_side(triangle_corners(t), side_of(s)),
    ensures
        s == t / 2,
{
}

} // verus!
