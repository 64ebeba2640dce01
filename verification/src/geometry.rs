//! Rectangles local to an entity, their mirror image and their place in the
//! world.

use vstd::prelude::*;

verus! {

/// Largest magnitude that a coordinate of authored data may have.
pub const COORD_LIMIT: i32 = 1_000_000_000;

/// The side an entity faces.
#[derive(Clone, Copy, Debug, PartialEq, Eq, Structural)]
pub enum Direction {
    Left,
    Right,
}

/// A point or a displacement.
#[derive(Clone, Copy, Debug, PartialEq, Eq, Structural)]
pub struct Vec2 {
    pub x: i32,
    pub y: i32,
}

/// An axis-aligned rectangle around an entity's anchor.
#[derive(Clone, Copy, Debug, PartialEq, Eq, Structural)]
pub struct Rectbox {
    pub min: Vec2,
    pub max: Vec2,
}

/// A rectangle in world coordinates.
#[derive(Clone, Copy, Debug, PartialEq, Eq, Structural)]
pub struct WorldRect {
    pub min_x: i64,
    pub min_y: i64,
    pub max_x: i64,
    pub max_y: i64,
}

/// Whether a coordinate lies within the authored range.
pub open spec fn coord_in_range(c: int) -> bool {
    -COORD_LIMIT <= c <= COORD_LIMIT
}

impl Vec2 {
    /// Both coordinates lie within the authored range.
    pub open spec fn is_finite(self) -> bool {
        coord_in_range(self.x as int) && coord_in_range(self.y as int)
    }

    /// The vector as seen by an entity that faces `direction`: facing left
    /// turns the sign of x, facing right changes nothing.
    pub open spec fn spec_mirror(self, direction: Direction) -> Vec2 {
        match direction {
            Direction::Left => Vec2 { x: (-self.x) as i32, y: self.y },
            Direction::Right => self,
        }
    }

    pub fn new(x: i32, y: i32) -> (v: Vec2)
        ensures
            v.x == x,
            v.y == y,
    {
        Vec2 { x, y }
    }

    pub fn finite(&self) -> (b: bool)
        ensures
            b == self.is_finite(),
    {
        -COORD_LIMIT <= self.x && self.x <= COORD_LIMIT && -COORD_LIMIT <= self.y && self.y
            <= COORD_LIMIT
    }

    pub fn mirror(self, direction: Direction) -> (v: Vec2)
        requires
            self.is_finite(),
        ensures
            v == self.spec_mirror(direction),
            v.is_finite(),
            v.y == self.y,
            direction == Direction::Left ==> v.x == -self.x,
            direction == Direction::Right ==> v.x == self.x,
    {
        match direction {
            Direction::Left => Vec2 { x: -self.x, y: self.y },
            Direction::Right => self,
        }
    }
}

impl Rectbox {
    /// All four coordinates lie within the authored range.
    pub open spec fn is_finite(self) -> bool {
        self.min.is_finite() && self.max.is_finite()
    }

    /// The rectangle as seen by an entity that faces `direction`. Facing
    /// left swaps the two x extremes and turns their signs; y stays.
    pub open spec fn spec_mirror(self, direction: Direction) -> Rectbox {
        match direction {
            Direction::Left => Rectbox {
                min: Vec2 { x: (-self.max.x) as i32, y: self.min.y },
                max: Vec2 { x: (-self.min.x) as i32, y: self.max.y },
            },
            Direction::Right => self,
        }
    }

    /// The rectangle moved to where its entity stands.
    pub open spec fn spec_at(self, position: Vec2) -> WorldRect {
        WorldRect {
            min_x: (position.x + self.min.x) as i64,
            min_y: (position.y + self.min.y) as i64,
            max_x: (position.x + self.max.x) as i64,
            max_y: (position.y + self.max.y) as i64,
        }
    }

    pub fn new(min: Vec2, max: Vec2) -> (r: Rectbox)
        ensures
            r.min == min,
            r.max == max,
    {
        Rectbox { min, max }
    }

    pub fn finite(&self) -> (b: bool)
        ensures
            b == self.is_finite(),
    {
        self.min.finite() && self.max.finite()
    }

    pub fn mirror(self, direction: Direction) -> (r: Rectbox)
        requires
            self.is_finite(),
        ensures
            r == self.spec_mirror(direction),
            r.is_finite(),
            r.min.y == self.min.y,
            r.max.y == self.max.y,
            direction == Direction::Left ==> r.min.x == -self.max.x && r.max.x == -self.min.x,
            direction == Direction::Right ==> r == self,
    {
        match direction {
            Direction::Left => Rectbox {
                min: Vec2 { x: -self.max.x, y: self.min.y },
                max: Vec2 { x: -self.min.x, y: self.max.y },
            },
            Direction::Right => self,
        }
    }

    pub fn at(&self, position: Vec2) -> (w: WorldRect)
        ensures
            w == self.spec_at(position),
            w.min_x == position.x + self.min.x,
            w.min_y == position.y + self.min.y,
            w.max_x == position.x + self.max.x,
            w.max_y == position.y + self.max.y,
    {
        WorldRect {
            min_x: position.x as i64 + self.min.x as i64,
            min_y: position.y as i64 + self.min.y as i64,
            max_x: position.x as i64 + self.max.x as i64,
            max_y: position.y as i64 + self.max.y as i64,
        }
    }
}

impl WorldRect {
    /// The two rectangles share a point on both axes; touching edges count.
    pub open spec fn spec_overlaps(self, other: WorldRect) -> bool {
        &&& self.min_x <= other.max_x
        &&& self.max_x >= other.min_x
        &&& self.min_y <= other.max_y
        &&& self.max_y >= other.min_y
    }

    /// The point lies in the rectangle, edges included.
    pub open spec fn contains(self, x: int, y: int) -> bool {
        self.min_x <= x <= self.max_x && self.min_y <= y <= self.max_y
    }

    /// Neither extent is negative.
    pub open spec fn is_ordered(self) -> bool {
        self.min_x <= self.max_x && self.min_y <= self.max_y
    }

    pub fn overlaps(&self, other: &WorldRect) -> (b: bool)
        ensures
            b == self.spec_overlaps(*other),
    {
        let x_overlap: bool = self.min_x <= other.max_x && self.max_x >= other.min_x;
        let y_overlap: bool = self.min_y <= other.max_y && self.max_y >= other.min_y;
        x_overlap && y_overlap
    }
}

/// Mirroring twice towards the same side gives the rectangle back.
pub proof fn lemma_mirror_twice(r: Rectbox, direction: Direction)
    requires
        r.is_finite(),
    ensures
        r.spec_mirror(direction).spec_mirror(direction) == r,
{
}

/// Mirroring keeps the x extremes in order, keeps y, and keeps the
/// rectangle within the authored range.
pub proof fn lemma_mirror_keeps_order(r: Rectbox, direction: Direction)
    requires
        r.is_finite(),
    ensures
        r.min.x <= r.max.x ==> r.spec_mirror(direction).min.x <= r.spec_mirror(direction).max.x,
        r.spec_mirror(direction).min.y == r.min.y,
        r.spec_mirror(direction).max.y == r.max.y,
        r.spec_mirror(direction).is_finite(),
{
}

/// Mirroring a vector twice towards the same side gives it back.
pub proof fn lemma_vec_mirror_twice(v: Vec2, direction: Direction)
    requires
        v.is_finite(),
    ensures
        v.spec_mirror(direction).spec_mirror(direction) == v,
{
}

/// Overlap does not depend on which rectangle is asked.
pub proof fn lemma_overlap_symmetric(a: WorldRect, b: WorldRect)
    ensures
        a.spec_overlaps(b) == b.spec_overlaps(a),
{
}

/// Two rectangles with ordered extremes overlap exactly when some point
/// lies in both.
pub proof fn lemma_overlap_is_common_point(a: WorldRect, b: WorldRect)
    requires
        a.is_ordered(),
        b.is_ordered(),
    ensures
        a.spec_overlaps(b) <==> exists|x: int, y: int| a.contains(x, y) && b.contains(x, y),
{
    if a.spec_overlaps(b) {
        let x: int = if a.min_x >= b.min_x { a.min_x as int } else { b.min_x as int };
        let y: int = if a.min_y >= b.min_y { a.min_y as int } else { b.min_y as int };
        assert(a.contains(x, y) && b.contains(x, y));
    }
}

} // verus!
