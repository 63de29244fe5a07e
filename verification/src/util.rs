use vstd::prelude::*;
use vstd::std_specs::ops::{AddSpec, SubSpec};

verus! {

/// A pair of 32-bit integer coordinates: `x` is the column, `y` the row.
#[derive(Clone, Copy, Debug, PartialEq, Eq, Structural)]
pub struct Vector2i {
    pub x: i32,
    pub y: i32,
}

/// One coordinate brought back into `0..bound`: a negative value wraps to the
/// last position (or 0 when the bound is not positive), a value at or past the
/// bound wraps to 0, and anything else is kept.
pub open spec fn wrap_coord(v: int, bound: int) -> int {
    if v < 0 {
        if bound - 1 > 0 { bound - 1 } else { 0 }
    } else if v >= bound {
        0
    } else {
        v
    }
}

impl Vector2i {
    pub fn new(x: i32, y: i32) -> (r: Self)
        ensures
            r.x == x,
            r.y == y,
    {
        Vector2i { x, y }
    }

    /// The column as an index (the coordinate converted to `usize` as `as` does).
    pub fn col(&self) -> (r: usize)
        ensures
            r == self.x as usize,
    {
        self.x as usize
    }

    /// The row as an index (the coordinate converted to `usize` as `as` does).
    pub fn row(&self) -> (r: usize)
        ensures
            r == self.y as usize,
    {
        self.y as usize
    }

    pub fn clamp_wrapped(self, bounds: Vector2i) -> (r: Self)
        ensures
            r.x == wrap_coord(self.x as int, bounds.x as int),
            r.y == wrap_coord(self.y as int, bounds.y as int),
    {
        let x = if self.x < 0 {
            if bounds.x > 1 { bounds.x - 1 } else { 0i32 }
        } else if self.x >= bounds.x {
            0i32
        } else {
            self.x
        };
        let y = if self.y < 0 {
            if bounds.y > 1 { bounds.y - 1 } else { 0i32 }
        } else if self.y >= bounds.y {
            0i32
        } else {
            self.y
        };
        Vector2i { x, y }
    }
}

impl core::ops::Add<Vector2i> for Vector2i {
    type Output = Vector2i;

    fn add(self, rhs: Vector2i) -> (r: Vector2i) {
        Vector2i::new(self.x + rhs.x, self.y + rhs.y)
    }
}

impl vstd::std_specs::ops::AddSpecImpl<Vector2i> for Vector2i {
    open spec fn obeys_add_spec() -> bool {
        true
    }

    open spec fn add_req(self, rhs: Vector2i) -> bool {
        &&& i32::MIN <= self.x + rhs.x <= i32::MAX
        &&& i32::MIN <= self.y + rhs.y <= i32::MAX
    }

    open spec fn add_spec(self, rhs: Vector2i) -> Vector2i {
        Vector2i { x: (self.x + rhs.x) as i32, y: (self.y + rhs.y) as i32 }
    }
}

impl core::ops::Sub<Vector2i> for Vector2i {
    type Output = Vector2i;

    fn sub(self, rhs: Vector2i) -> (r: Vector2i) {
        Vector2i::new(self.x - rhs.x, self.y - rhs.y)
    }
}

impl vstd::std_specs::ops::SubSpecImpl<Vector2i> for Vector2i {
    open spec fn obeys_sub_spec() -> bool {
        true
    }

    open spec fn sub_req(self, rhs: Vector2i) -> bool {
        &&& i32::MIN <= self.x - rhs.x <= i32::MAX
        &&& i32::MIN <= self.y - rhs.y <= i32::MAX
    }

    open spec fn sub_spec(self, rhs: Vector2i) -> Vector2i {
        Vector2i { x: (self.x - rhs.x) as i32, y: (self.y - rhs.y) as i32 }
    }
}

/// A wrapped position always lies inside the bounds, whenever the bounds are
/// positive in both directions.
pub proof fn lemma_clamp_wrapped_in_bounds(v: Vector2i, bounds: Vector2i)
    requires
        bounds.x > 0,
        bounds.y > 0,
    ensures
        0 <= wrap_coord(v.x as int, bounds.x as int) < bounds.x,
        0 <= wrap_coord(v.y as int, bounds.y as int) < bounds.y,
{
}

/// Wrapping leaves a position that is already inside the bounds unchanged.
pub proof fn lemma_clamp_wrapped_identity(v: Vector2i, bounds: Vector2i)
    requires
        0 <= v.x < bounds.x,
        0 <= v.y < bounds.y,
    ensures
        wrap_coord(v.x as int, bounds.x as int) == v.x,
        wrap_coord(v.y as int, bounds.y as int) == v.y,
{
}

/// Wrapping a position that was wrapped already changes nothing, whatever the
/// bounds.
pub proof fn lemma_clamp_wrapped_idempotent(v: Vector2i, bounds: Vector2i)
    ensures
        wrap_coord(wrap_coord(v.x as int, bounds.x as int), bounds.x as int) == wrap_coord(
            v.x as int,
            bounds.x as int,
        ),
        wrap_coord(wrap_coord(v.y as int, bounds.y as int), bounds.y as int) == wrap_coord(
            v.y as int,
            bounds.y as int,
        ),
{
}

/// Subtracting what was added gives back the position, whenever the addition
/// stays within `i32`.
pub proof fn lemma_sub_undoes_add(a: Vector2i, b: Vector2i)
    requires
        i32::MIN <= a.x + b.x <= i32::MAX,
        i32::MIN <= a.y + b.y <= i32::MAX,
    ensures
        a.add_spec(b).sub_req(b),
        a.add_spec(b).sub_spec(b) == a,
{
}

} // verus!
