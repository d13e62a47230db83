//! Integer vectors, axis-aligned boxes and the facing of an entity.
//!
//! Positions and velocities are `i32` pairs; boxes carry `i64` coordinates so
//! that a box of an animation frame, bounded by [`BOX_LIMIT`], can be moved
//! to any position without leaving the type.

use vstd::prelude::*;

verus! {

/// Number of world units in one window point; the playfield spans one point
/// to either side of its centre.
pub const UNITS_PER_POINT: i32 = 4000;

/// Number of world units covered by one sprite pixel.
pub const UNITS_PER_PIXEL: i64 = 50;

/// Largest magnitude of a box coordinate in entity-local space.
pub const BOX_LIMIT: i64 = 0x100_0000_0000;

/// The direction an entity looks in.
#[derive(Clone, Copy, PartialEq, Eq, Debug, Structural)]
pub enum Direction {
    East,
    West,
}

/// A position or a velocity, in world units.
#[derive(Clone, Copy, PartialEq, Eq, Debug, Structural)]
pub struct Vec2 {
    pub x: i32,
    pub y: i32,
}

/// An axis-aligned box given by its lower-left and upper-right corners.
#[derive(Clone, Copy, PartialEq, Eq, Debug, Structural)]
pub struct AABB {
    pub min_x: i64,
    pub min_y: i64,
    pub max_x: i64,
    pub max_y: i64,
}

/// The sum of two coordinates, held at the ends of the `i32` range.
pub open spec fn spec_saturating_add(a: i32, b: i32) -> i32 {
    if a + b > i32::MAX {
        i32::MAX
    } else if a + b < i32::MIN {
        i32::MIN
    } else {
        (a + b) as i32
    }
}

/// Adds two coordinates; a sum outside the `i32` range is held at the nearer
/// end of it.
pub fn saturating_add(a: i32, b: i32) -> (r: i32)
    ensures
        r == spec_saturating_add(a, b),
{
    match a.checked_add(b) {
        Some(sum) => sum,
        None => if b > 0 {
            i32::MAX
        } else {
            i32::MIN
        },
    }
}

impl AABB {
    /// Every coordinate lies in `[-limit, limit]`.
    pub open spec fn within(self, limit: int) -> bool {
        &&& -limit <= self.min_x <= limit
        &&& -limit <= self.min_y <= limit
        &&& -limit <= self.max_x <= limit
        &&& -limit <= self.max_y <= limit
    }

    /// The corners are in their order: the box has a left and a right side
    /// and a lower and an upper one, which may coincide.
    pub open spec fn spec_ordered(self) -> bool {
        self.min_x <= self.max_x && self.min_y <= self.max_y
    }

    /// The box reflected about the vertical line `x == axis_x`.
    pub open spec fn spec_reflected_about(self, axis_x: int) -> AABB {
        AABB {
            min_x: (2 * axis_x - self.max_x) as i64,
            min_y: self.min_y,
            max_x: (2 * axis_x - self.min_x) as i64,
            max_y: self.max_y,
        }
    }

    /// The box reflected about the vertical axis through the origin.
    pub open spec fn spec_mirrored(self) -> AABB {
        self.spec_reflected_about(0)
    }

    /// The box moved by `by`.
    pub open spec fn spec_translated(self, by: Vec2) -> AABB {
        AABB {
            min_x: (self.min_x + by.x) as i64,
            min_y: (self.min_y + by.y) as i64,
            max_x: (self.max_x + by.x) as i64,
            max_y: (self.max_y + by.y) as i64,
        }
    }

    /// Two boxes intersect when they share a region of non-zero area: boxes
    /// that only touch along an edge or at a corner do not intersect.
    pub open spec fn spec_intersects(self, other: AABB) -> bool {
        &&& self.min_x < other.max_x
        &&& other.min_x < self.max_x
        &&& self.min_y < other.max_y
        &&& other.min_y < self.max_y
    }

    /// Reflects an entity-local box about the entity's own vertical axis.
    pub fn mirrored(&self) -> (r: AABB)
        requires
            self.within(BOX_LIMIT as int),
        ensures
            r == self.spec_mirrored(),
            r.within(BOX_LIMIT as int),
            self.spec_ordered() ==> r.spec_ordered(),
    {
        AABB { min_x: -self.max_x, min_y: self.min_y, max_x: -self.min_x, max_y: self.max_y }
    }

    /// Moves an entity-local box to the entity's position.
    pub fn translated(&self, by: Vec2) -> (r: AABB)
        requires
            self.within(BOX_LIMIT as int),
        ensures
            r == self.spec_translated(by),
            self.spec_ordered() ==> r.spec_ordered(),
    {
        AABB {
            min_x: self.min_x + by.x as i64,
            min_y: self.min_y + by.y as i64,
            max_x: self.max_x + by.x as i64,
            max_y: self.max_y + by.y as i64,
        }
    }

    /// Whether the two boxes share a region of non-zero area.
    pub fn intersects(&self, other: &AABB) -> (r: bool)
        ensures
            r == self.spec_intersects(*other),
    {
        self.min_x < other.max_x && other.min_x < self.max_x && self.min_y < other.max_y
            && other.min_y < self.max_y
    }
}

/// Intersection does not depend on the order of the two boxes.
pub proof fn lemma_intersects_symmetric(a: AABB, b: AABB)
    ensures
        a.spec_intersects(b) == b.spec_intersects(a),
{
}

/// Boxes that meet only along a vertical edge do not intersect, while any
/// overlap of positive width and height does.
pub proof fn lemma_touching_boxes_do_not_intersect(a: AABB, b: AABB)
    ensures
        a.max_x == b.min_x ==> !a.spec_intersects(b),
        a.max_y == b.min_y ==> !a.spec_intersects(b),
        a.min_x < b.min_x < a.max_x < b.max_x && a.min_y < b.min_y < a.max_y < b.max_y
            ==> a.spec_intersects(b),
{
}

/// Reflecting twice about the same axis gives the box back.
pub proof fn lemma_reflection_is_involution(b: AABB, axis_x: int)
    requires
        b.within(BOX_LIMIT as int),
        -0x8000_0000 <= axis_x < 0x8000_0000,
    ensures
        b.spec_reflected_about(axis_x).spec_reflected_about(axis_x) == b,
{
}

/// Reflecting a box about a vertical line and moving it keep its corners in
/// their order.
pub proof fn lemma_reflection_and_translation_keep_order(b: AABB, axis_x: int, by: Vec2)
    requires
        b.within(BOX_LIMIT as int),
        b.spec_ordered(),
        -0x8000_0000 <= axis_x < 0x8000_0000,
    ensures
        b.spec_mirrored().spec_ordered(),
        b.spec_reflected_about(axis_x).spec_ordered(),
        b.spec_translated(by).spec_ordered(),
        b.spec_mirrored().spec_translated(by).spec_ordered(),
{
}

/// Mirroring a local box and then moving it to a position is the same as
/// moving it first and then reflecting it about the vertical line through
/// that position.
pub proof fn lemma_mirror_then_translate(b: AABB, at: Vec2)
    requires
        b.within(BOX_LIMIT as int),
    ensures
        b.spec_mirrored().spec_translated(at) == b.spec_translated(at).spec_reflected_about(
            at.x as int,
        ),
{
}

} // verus!
