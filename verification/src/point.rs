//! Positions on the terminal screen and in the edit buffer.

use vstd::prelude::*;
use core::cmp::Ordering;
use vstd::std_specs::cmp::{PartialEqSpecImpl, PartialOrdSpecImpl};
use vstd::std_specs::ops::{AddSpec, AddSpecImpl, SubSpec, SubSpecImpl};

verus! {

/// A column/row pair.  Ordered by `x` first, then by `y`.
#[derive(Copy, Clone, Debug, Eq, Ord)]
pub struct Point {
    pub x: usize,
    pub y: usize,
}

/// Lexicographic order on points: `x` decides, `y` breaks ties.
pub open spec fn point_order(a: Point, b: Point) -> Ordering {
    if a.x < b.x {
        Ordering::Less
    } else if a.x > b.x {
        Ordering::Greater
    } else if a.y < b.y {
        Ordering::Less
    } else if a.y > b.y {
        Ordering::Greater
    } else {
        Ordering::Equal
    }
}

impl Point {
    pub fn new(x: usize, y: usize) -> (p: Point)
        ensures
            p.x == x,
            p.y == y,
    {
        Point { x: x, y: y }
    }
}

impl core::ops::Add for Point {
    type Output = Point;

    fn add(self, other: Point) -> (r: Point) {
        Point { x: self.x + other.x, y: self.y + other.y }
    }
}

impl AddSpecImpl for Point {
    open spec fn obeys_add_spec() -> bool {
        true
    }

    open spec fn add_req(self, other: Point) -> bool {
        self.x + other.x <= usize::MAX && self.y + other.y <= usize::MAX
    }

    open spec fn add_spec(self, other: Point) -> Point {
        Point { x: (self.x + other.x) as usize, y: (self.y + other.y) as usize }
    }
}

impl core::ops::Sub for Point {
    type Output = Point;

    fn sub(self, other: Point) -> (r: Point) {
        Point { x: self.x - other.x, y: self.y - other.y }
    }
}

impl SubSpecImpl for Point {
    open spec fn obeys_sub_spec() -> bool {
        true
    }

    open spec fn sub_req(self, other: Point) -> bool {
        other.x <= self.x && other.y <= self.y
    }

    open spec fn sub_spec(self, other: Point) -> Point {
        Point { x: (self.x - other.x) as usize, y: (self.y - other.y) as usize }
    }
}

impl PartialEq for Point {
    fn eq(&self, other: &Point) -> (r: bool) {
        self.x == other.x && self.y == other.y
    }
}

impl PartialEqSpecImpl for Point {
    open spec fn obeys_eq_spec() -> bool {
        true
    }

    open spec fn eq_spec(&self, other: &Point) -> bool {
        self.x == other.x && self.y == other.y
    }
}

impl PartialOrd for Point {
    fn partial_cmp(&self, other: &Point) -> (r: Option<Ordering>) {
        if self.x < other.x {
            Some(Ordering::Less)
        } else if self.x > other.x {
            Some(Ordering::Greater)
        } else if self.y < other.y {
            Some(Ordering::Less)
        } else if self.y > other.y {
            Some(Ordering::Greater)
        } else {
            Some(Ordering::Equal)
        }
    }
}

impl PartialOrdSpecImpl for Point {
    open spec fn obeys_partial_cmp_spec() -> bool {
        true
    }

    open spec fn partial_cmp_spec(&self, other: &Point) -> Option<Ordering> {
        Some(point_order(*self, *other))
    }
}

/// Adding a point and subtracting it again gives back the first point.
pub proof fn lemma_add_then_sub(p: Point, q: Point)
    requires
        AddSpec::add_req(p, q),
    ensures
        SubSpec::sub_req(AddSpec::add_spec(p, q), q),
        SubSpec::sub_spec(AddSpec::add_spec(p, q), q) == p,
{
}

/// Points are ordered by `x` first; `y` decides only between points with
/// the same `x`.
pub proof fn lemma_order_x_first(a: Point, b: Point)
    ensures
        a.x < b.x ==> point_order(a, b) == Ordering::Less,
        a.x > b.x ==> point_order(a, b) == Ordering::Greater,
        a.x == b.x && a.y < b.y ==> point_order(a, b) == Ordering::Less,
        a.x == b.x && a.y > b.y ==> point_order(a, b) == Ordering::Greater,
{
}

/// The point order is antisymmetric and agrees with equality.
pub proof fn lemma_order_equal_iff_same(a: Point, b: Point)
    ensures
        (point_order(a, b) == Ordering::Equal) <==> (a == b),
        point_order(a, b) == Ordering::Less <==> point_order(b, a) == Ordering::Greater,
{
}

} // verus!
