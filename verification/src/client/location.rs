//! Block locations as entity components.

use vstd::prelude::*;

verus! {

/// A block location.
#[derive(Copy, Clone, PartialEq, Eq, Debug, Default, Structural)]
pub struct Location {
    pub x: i32,
    pub y: i32,
    pub z: i32,
}

impl Location {
    /// The location with the given coordinates.
    pub fn new(x: i32, y: i32, z: i32) -> (r: Location)
        ensures
            r.x == x && r.y == y && r.z == z,
    {
        Location { x, y, z }
    }

    /// The coordinates as a tuple.
    pub fn into_tuple(self) -> (r: (i32, i32, i32))
        ensures
            r == (self.x, self.y, self.z),
    {
        (self.x, self.y, self.z)
    }

    /// The location of the coordinates `[x, y, z]`.
    pub fn from_array(a: &[i32; 3]) -> (r: Location)
        ensures
            r.x == a@[0] && r.y == a@[1] && r.z == a@[2],
    {
        Location { x: a[0], y: a[1], z: a[2] }
    }
}

} // verus!
