//! Row-major indexing of 2D and 3D integer boxes.
//!
//! A box is given by its two inclusive corners `(lo, hi)`.  Coordinates in the
//! box are laid out with `x` varying fastest, then `y`, then `z`.

use vstd::prelude::*;
use crate::coords::{DD, DDD};

verus! {

/// Inclusive lower and upper corners of a box.
pub type Bounds<T> = (T, T);

/// True when `v` is representable as an `i32`.
pub open spec fn fits_i32(v: int) -> bool {
    i32::MIN <= v <= i32::MAX
}

/// A coordinate type that can index a box in row-major order.
pub trait ArrayIndex: Sized {
    /// No step of the size computation of `bounds` overflows an `i32`.
    spec fn spec_size_ok(bounds: Bounds<Self>) -> bool;

    /// Number of cells of `bounds` (the product of the side lengths).
    spec fn spec_size(bounds: Bounds<Self>) -> int;

    /// `lo <= hi` componentwise and the cell count fits in an `i32`.
    spec fn spec_valid(bounds: Bounds<Self>) -> bool;

    /// `c` lies inside the box, corners included.
    spec fn spec_in_bounds(c: Self, bounds: Bounds<Self>) -> bool;

    /// Row-major position of `c` in the box.
    spec fn spec_idx(c: Self, bounds: Bounds<Self>) -> int;

    /// Stepping from `c` does not overflow an `i32`.
    spec fn spec_next_ok(c: Self, bounds: Bounds<Self>) -> bool;

    /// The coordinate that follows `c` in row-major order, `None` past the last row.
    spec fn spec_next(c: Self, bounds: Bounds<Self>) -> Option<Self>;

    /// Number of cells of the box.
    fn size(bounds: &Bounds<Self>) -> (r: usize)
        requires
            Self::spec_size_ok(*bounds),
        ensures
            r == Self::spec_size(*bounds) as usize,
    ;

    /// Row-major position of `self` in the box.
    fn idx(&self, bounds: &Bounds<Self>) -> (r: usize)
        requires
            Self::spec_valid(*bounds),
            Self::spec_in_bounds(*self, *bounds),
        ensures
            r as int == Self::spec_idx(*self, *bounds),
    ;

    /// The coordinate after `self` in row-major order.
    fn next(self, bounds: &Bounds<Self>) -> (r: Option<Self>)
        requires
            Self::spec_next_ok(self, *bounds),
        ensures
            r == Self::spec_next(self, *bounds),
    ;

    /// Whether `self` lies in the box.
    fn in_bounds(&self, other: &Bounds<Self>) -> (r: bool)
        ensures
            r == Self::spec_in_bounds(*self, *other),
    ;

    /// Whether the box is valid.
    fn valid(bounds: &Bounds<Self>) -> (r: bool)
        ensures
            r == Self::spec_valid(*bounds),
    ;

    /// A valid box has computable, positive size; its low corner is inside it
    /// at position 0, and every inside coordinate can be stepped from.
    proof fn lemma_valid(bounds: Bounds<Self>)
        requires
            Self::spec_valid(bounds),
        ensures
            Self::spec_size_ok(bounds),
            1 <= Self::spec_size(bounds) <= i32::MAX,
            Self::spec_in_bounds(bounds.0, bounds),
            Self::spec_idx(bounds.0, bounds) == 0,
    ;

    /// Every inside coordinate has a position below the size.
    proof fn lemma_idx_range(c: Self, bounds: Bounds<Self>)
        requires
            Self::spec_valid(bounds),
            Self::spec_in_bounds(c, bounds),
        ensures
            0 <= Self::spec_idx(c, bounds) < Self::spec_size(bounds),
    ;

    /// Distinct inside coordinates have distinct positions.
    proof fn lemma_idx_injective(c: Self, d: Self, bounds: Bounds<Self>)
        requires
            Self::spec_valid(bounds),
            Self::spec_in_bounds(c, bounds),
            Self::spec_in_bounds(d, bounds),
            Self::spec_idx(c, bounds) == Self::spec_idx(d, bounds),
        ensures
            c == d,
    ;

    /// Stepping moves to the next position, and stops exactly at the last one.
    proof fn lemma_next(c: Self, bounds: Bounds<Self>)
        requires
            Self::spec_valid(bounds),
            Self::spec_in_bounds(c, bounds),
            Self::spec_next_ok(c, bounds),
        ensures
            match Self::spec_next(c, bounds) {
                Some(n) => Self::spec_in_bounds(n, bounds) && Self::spec_idx(n, bounds)
                    == Self::spec_idx(c, bounds) + 1,
                None => Self::spec_idx(c, bounds) == Self::spec_size(bounds) - 1,
            },
    ;
}

// ---------------------------------------------------------------------------
// 2D

/// Side length of a 2D box along x.
pub open spec fn row_dd(b: Bounds<DD>) -> int {
    b.1.0 - b.0.0 + 1
}

/// Side length of a 2D box along y.
pub open spec fn col_dd(b: Bounds<DD>) -> int {
    b.1.1 - b.0.1 + 1
}

proof fn lemma_dd_valid(b: Bounds<DD>)
    requires
        b.0.0 <= b.1.0,
        b.0.1 <= b.1.1,
        row_dd(b) * col_dd(b) <= i32::MAX,
    ensures
        1 <= row_dd(b) <= row_dd(b) * col_dd(b),
        1 <= col_dd(b) <= row_dd(b) * col_dd(b),
{
    let r = row_dd(b);
    let c = col_dd(b);
    assert(r <= r * c && c <= r * c) by (nonlinear_arith)
        requires
            r >= 1,
            c >= 1,
    ;
}

impl ArrayIndex for DD {
    open spec fn spec_size_ok(b: Bounds<DD>) -> bool {
        &&& fits_i32(b.1.0 - b.0.0)
        &&& fits_i32(row_dd(b))
        &&& fits_i32(b.1.1 - b.0.1)
        &&& fits_i32(col_dd(b))
        &&& fits_i32(row_dd(b) * col_dd(b))
    }

    open spec fn spec_size(b: Bounds<DD>) -> int {
        row_dd(b) * col_dd(b)
    }

    open spec fn spec_valid(b: Bounds<DD>) -> bool {
        &&& b.0.0 <= b.1.0
        &&& b.0.1 <= b.1.1
        &&& row_dd(b) * col_dd(b) <= i32::MAX
    }

    open spec fn spec_in_bounds(c: DD, b: Bounds<DD>) -> bool {
        b.0.0 <= c.0 <= b.1.0 && b.0.1 <= c.1 <= b.1.1
    }

    open spec fn spec_idx(c: DD, b: Bounds<DD>) -> int {
        (c.1 - b.0.1) * row_dd(b) + (c.0 - b.0.0)
    }

    open spec fn spec_next_ok(c: DD, b: Bounds<DD>) -> bool {
        &&& c.0 < i32::MAX
        &&& (c.0 + 1 > b.1.0 ==> c.1 < i32::MAX)
    }

    open spec fn spec_next(c: DD, b: Bounds<DD>) -> Option<DD> {
        let (x, y) = if c.0 + 1 > b.1.0 {
            (b.0.0 as int, c.1 + 1)
        } else {
            (c.0 + 1, c.1 as int)
        };
        if y > b.1.1 {
            None
        } else {
            Some((x as i32, y as i32))
        }
    }

    fn size(bounds: &Bounds<DD>) -> (r: usize) {
        let ((x1, y1), (x2, y2)) = *bounds;
        ((x2 - x1 + 1) * (y2 - y1 + 1)) as usize
    }

    fn idx(&self, bounds: &Bounds<DD>) -> (r: usize) {
        proof {
            lemma_dd_valid(*bounds);
            let r = row_dd(*bounds);
            let c = col_dd(*bounds);
            let a = self.0 - bounds.0.0;
            let bb = self.1 - bounds.0.1;
            assert(0 <= bb * r <= (c - 1) * r && (c - 1) * r + r == c * r && c * r == r * c)
                by (nonlinear_arith)
                requires
                    0 <= bb < c,
                    r >= 1,
            ;
        }
        let ((x1, y1), (x2, _)) = *bounds;
        let (x, y) = *self;
        let row = x2 - x1 + 1;
        ((y - y1) * row + (x - x1)) as usize
    }

    fn next(self, bounds: &Bounds<DD>) -> (r: Option<DD>) {
        let ((x1, _), (x2, y2)) = *bounds;
        let (mut x, mut y) = self;
        x = x + 1;
        if x > x2 {
            x = x1;
            y = y + 1;
        }
        if y > y2 {
            None
        } else {
            Some((x, y))
        }
    }

    fn valid(bounds: &Bounds<DD>) -> (r: bool) {
        let ((x1, y1), (x2, y2)) = *bounds;
        if x1 > x2 || y1 > y2 {
            return false;
        }
        let row: u64 = (x2 as i64 - x1 as i64 + 1) as u64;
        let col: u64 = (y2 as i64 - y1 as i64 + 1) as u64;
        match row.checked_mul(col) {
            Some(p) => p <= i32::MAX as u64,
            None => false,
        }
    }

    fn in_bounds(&self, other: &Bounds<DD>) -> (r: bool) {
        let ((x1, y1), (x2, y2)) = *other;
        let (x, y) = *self;
        x >= x1 && x <= x2 && y >= y1 && y <= y2
    }

    proof fn lemma_valid(b: Bounds<DD>) {
        lemma_dd_valid(b);
    }

    proof fn lemma_idx_range(c: DD, b: Bounds<DD>) {
        let r = row_dd(b);
        let h = col_dd(b);
        let a = c.0 - b.0.0;
        let bb = c.1 - b.0.1;
        assert(0 <= bb * r + a < r * h) by (nonlinear_arith)
            requires
                0 <= a < r,
                0 <= bb < h,
        ;
    }

    proof fn lemma_idx_injective(c: DD, d: DD, b: Bounds<DD>) {
        let r = row_dd(b);
        vstd::arithmetic::div_mod::lemma_fundamental_div_mod_converse(
            Self::spec_idx(c, b),
            r,
            c.1 - b.0.1,
            c.0 - b.0.0,
        );
        vstd::arithmetic::div_mod::lemma_fundamental_div_mod_converse(
            Self::spec_idx(d, b),
            r,
            d.1 - b.0.1,
            d.0 - b.0.0,
        );
    }

    proof fn lemma_next(c: DD, b: Bounds<DD>) {
        let r = row_dd(b);
        let h = col_dd(b);
        let bb = c.1 - b.0.1;
        assert((bb + 1) * r == bb * r + r) by (nonlinear_arith);
        assert(h * r == r * h) by (nonlinear_arith);
        assert((h - 1) * r + r == h * r) by (nonlinear_arith);
    }
}

// ---------------------------------------------------------------------------
// 3D

/// Side length of a 3D box along x.
pub open spec fn row_ddd(b: Bounds<DDD>) -> int {
    b.1.0 - b.0.0 + 1
}

/// Side length of a 3D box along y.
pub open spec fn slice_ddd(b: Bounds<DDD>) -> int {
    b.1.1 - b.0.1 + 1
}

/// Side length of a 3D box along z.
pub open spec fn depth_ddd(b: Bounds<DDD>) -> int {
    b.1.2 - b.0.2 + 1
}

proof fn lemma_ddd_valid(b: Bounds<DDD>)
    requires
        b.0.0 <= b.1.0,
        b.0.1 <= b.1.1,
        b.0.2 <= b.1.2,
        row_ddd(b) * slice_ddd(b) * depth_ddd(b) <= i32::MAX,
    ensures
        1 <= row_ddd(b) <= row_ddd(b) * slice_ddd(b),
        1 <= slice_ddd(b) <= row_ddd(b) * slice_ddd(b),
        row_ddd(b) * slice_ddd(b) <= row_ddd(b) * slice_ddd(b) * depth_ddd(b),
        1 <= depth_ddd(b) <= row_ddd(b) * slice_ddd(b) * depth_ddd(b),
{
    let r = row_ddd(b);
    let s = slice_ddd(b);
    let d = depth_ddd(b);
    assert(r <= r * s && s <= r * s && r * s <= r * s * d && d <= r * s * d) by (nonlinear_arith)
        requires
            r >= 1,
            s >= 1,
            d >= 1,
    ;
}

impl ArrayIndex for DDD {
    open spec fn spec_size_ok(b: Bounds<DDD>) -> bool {
        &&& fits_i32(b.1.0 - b.0.0)
        &&& fits_i32(row_ddd(b))
        &&& fits_i32(b.1.1 - b.0.1)
        &&& fits_i32(slice_ddd(b))
        &&& fits_i32(b.1.2 - b.0.2)
        &&& fits_i32(depth_ddd(b))
        &&& fits_i32(row_ddd(b) * slice_ddd(b))
        &&& fits_i32(row_ddd(b) * slice_ddd(b) * depth_ddd(b))
    }

    open spec fn spec_size(b: Bounds<DDD>) -> int {
        row_ddd(b) * slice_ddd(b) * depth_ddd(b)
    }

    open spec fn spec_valid(b: Bounds<DDD>) -> bool {
        &&& b.0.0 <= b.1.0
        &&& b.0.1 <= b.1.1
        &&& b.0.2 <= b.1.2
        &&& row_ddd(b) * slice_ddd(b) * depth_ddd(b) <= i32::MAX
    }

    open spec fn spec_in_bounds(c: DDD, b: Bounds<DDD>) -> bool {
        &&& b.0.0 <= c.0 <= b.1.0
        &&& b.0.1 <= c.1 <= b.1.1
        &&& b.0.2 <= c.2 <= b.1.2
    }

    open spec fn spec_idx(c: DDD, b: Bounds<DDD>) -> int {
        (c.2 - b.0.2) * row_ddd(b) * slice_ddd(b) + (c.1 - b.0.1) * row_ddd(b) + (c.0 - b.0.0)
    }

    open spec fn spec_next_ok(c: DDD, b: Bounds<DDD>) -> bool {
        let y = if c.0 + 1 > b.1.0 {
            c.1 + 1
        } else {
            c.1 as int
        };
        &&& c.0 < i32::MAX
        &&& (c.0 + 1 > b.1.0 ==> c.1 < i32::MAX)
        &&& (y > b.1.1 ==> c.2 < i32::MAX)
    }

    open spec fn spec_next(c: DDD, b: Bounds<DDD>) -> Option<DDD> {
        let (x, y) = if c.0 + 1 > b.1.0 {
            (b.0.0 as int, c.1 + 1)
        } else {
            (c.0 + 1, c.1 as int)
        };
        let (y, z) = if y > b.1.1 {
            (b.0.1 as int, c.2 + 1)
        } else {
            (y, c.2 as int)
        };
        if z > b.1.2 {
            None
        } else {
            Some((x as i32, y as i32, z as i32))
        }
    }

    fn size(bounds: &Bounds<DDD>) -> (r: usize) {
        let ((x1, y1, z1), (x2, y2, z2)) = *bounds;
        ((x2 - x1 + 1) * (y2 - y1 + 1) * (z2 - z1 + 1)) as usize
    }

    fn idx(&self, bounds: &Bounds<DDD>) -> (r: usize) {
        proof {
            lemma_ddd_valid(*bounds);
            let r = row_ddd(*bounds);
            let s = slice_ddd(*bounds);
            let d = depth_ddd(*bounds);
            let a = self.0 - bounds.0.0;
            let bb = self.1 - bounds.0.1;
            let cc = self.2 - bounds.0.2;
            assert(0 <= cc * r <= r * s * d && 0 <= cc * r * s && cc * r * s + bb * r + a < r * s
                * d) by (nonlinear_arith)
                requires
                    0 <= a < r,
                    0 <= bb < s,
                    0 <= cc < d,
                    r >= 1,
                    s >= 1,
            ;
            assert(0 <= bb * r <= cc * r * s + bb * r) by (nonlinear_arith)
                requires
                    0 <= bb,
                    r >= 1,
                    0 <= cc * r * s,
            ;
        }
        let ((x1, y1, z1), (x2, y2, _)) = *bounds;
        let (x, y, z) = *self;
        let row = x2 - x1 + 1;
        let slice = y2 - y1 + 1;
        ((z - z1) * row * slice + (y - y1) * row + (x - x1)) as usize
    }

    fn next(self, bounds: &Bounds<DDD>) -> (r: Option<DDD>) {
        let ((x1, y1, _), (x2, y2, z2)) = *bounds;
        let (mut x, mut y, mut z) = self;
        x = x + 1;
        if x > x2 {
            x = x1;
            y = y + 1;
        }
        if y > y2 {
            y = y1;
            z = z + 1;
        }
        if z > z2 {
            None
        } else {
            Some((x, y, z))
        }
    }

    fn valid(bounds: &Bounds<DDD>) -> (r: bool) {
        let ((x1, y1, z1), (x2, y2, z2)) = *bounds;
        if x1 > x2 || y1 > y2 || z1 > z2 {
            return false;
        }
        let row: u64 = (x2 as i64 - x1 as i64 + 1) as u64;
        let slice: u64 = (y2 as i64 - y1 as i64 + 1) as u64;
        let depth: u64 = (z2 as i64 - z1 as i64 + 1) as u64;
        proof {
            let a = row as int;
            let b = slice as int;
            let d = depth as int;
            assert(a * b <= a * b * d) by (nonlinear_arith)
                requires
                    a >= 1,
                    b >= 1,
                    d >= 1,
            ;
        }
        match row.checked_mul(slice) {
            Some(p) => match p.checked_mul(depth) {
                Some(q) => q <= i32::MAX as u64,
                None => false,
            },
            None => false,
        }
    }

    fn in_bounds(&self, other: &Bounds<DDD>) -> (r: bool) {
        let ((x1, y1, z1), (x2, y2, z2)) = *other;
        let (x, y, z) = *self;
        x >= x1 && x <= x2 && y >= y1 && y <= y2 && z >= z1 && z <= z2
    }

    proof fn lemma_valid(b: Bounds<DDD>) {
        lemma_ddd_valid(b);
    }

    proof fn lemma_idx_range(c: DDD, b: Bounds<DDD>) {
        let r = row_ddd(b);
        let s = slice_ddd(b);
        let d = depth_ddd(b);
        let a = c.0 - b.0.0;
        let bb = c.1 - b.0.1;
        let cc = c.2 - b.0.2;
        assert(0 <= cc * r * s + bb * r + a < r * s * d) by (nonlinear_arith)
            requires
                0 <= a < r,
                0 <= bb < s,
                0 <= cc < d,
        ;
    }

    proof fn lemma_idx_injective(c: DDD, e: DDD, b: Bounds<DDD>) {
        let r = row_ddd(b);
        let s = slice_ddd(b);
        let a1 = c.0 - b.0.0;
        let b1 = c.1 - b.0.1;
        let c1 = c.2 - b.0.2;
        let a2 = e.0 - b.0.0;
        let b2 = e.1 - b.0.1;
        let c2 = e.2 - b.0.2;
        assert(c1 * r * s + b1 * r + a1 == (c1 * s + b1) * r + a1) by (nonlinear_arith);
        assert(c2 * r * s + b2 * r + a2 == (c2 * s + b2) * r + a2) by (nonlinear_arith);
        let q = Self::spec_idx(c, b) / r;
        vstd::arithmetic::div_mod::lemma_fundamental_div_mod_converse(
            Self::spec_idx(c, b),
            r,
            c1 * s + b1,
            a1,
        );
        vstd::arithmetic::div_mod::lemma_fundamental_div_mod_converse(
            Self::spec_idx(e, b),
            r,
            c2 * s + b2,
            a2,
        );
        vstd::arithmetic::div_mod::lemma_fundamental_div_mod_converse(q, s, c1, b1);
        vstd::arithmetic::div_mod::lemma_fundamental_div_mod_converse(q, s, c2, b2);
    }

    proof fn lemma_next(c: DDD, b: Bounds<DDD>) {
        let r = row_ddd(b);
        let s = slice_ddd(b);
        let d = depth_ddd(b);
        let bb = c.1 - b.0.1;
        let cc = c.2 - b.0.2;
        let i = Self::spec_idx(c, b);
        if c.0 + 1 <= b.1.0 {
            let n = ((c.0 + 1) as i32, c.1, c.2);
            assert(Self::spec_next(c, b) == Some(n));
            assert(Self::spec_idx(n, b) == i + 1);
        } else if c.1 + 1 <= b.1.1 {
            let n = (b.0.0, (c.1 + 1) as i32, c.2);
            assert(Self::spec_next(c, b) == Some(n));
            assert((bb + 1) * r == bb * r + r) by (nonlinear_arith);
            assert(Self::spec_idx(n, b) == i + 1);
        } else if c.2 + 1 <= b.1.2 {
            let n = (b.0.0, b.0.1, (c.2 + 1) as i32);
            assert(Self::spec_next(c, b) == Some(n));
            assert(bb * r + r == r * s) by (nonlinear_arith)
                requires
                    bb == s - 1,
            ;
            assert((cc + 1) * r * s == cc * r * s + r * s) by (nonlinear_arith);
            assert(0 * r == 0) by (nonlinear_arith);
            assert(Self::spec_idx(n, b) == i + 1);
        } else {
            assert(bb * r + r == r * s) by (nonlinear_arith)
                requires
                    bb == s - 1,
            ;
            assert(cc * r * s + r * s == r * s * d) by (nonlinear_arith)
                requires
                    cc == d - 1,
            ;
        }
    }
}


/// The coordinate at row-major position `p` of a 3D box.
pub open spec fn cell_at(b: Bounds<DDD>, p: int) -> DDD {
    let r = row_ddd(b);
    let s = slice_ddd(b);
    (
        (b.0.0 + p % r) as i32,
        (b.0.1 + (p / r) % s) as i32,
        (b.0.2 + (p / r) / s) as i32,
    )
}

/// Every position of a valid 3D box belongs to exactly the coordinate `cell_at` names.
pub proof fn lemma_cell_at(b: Bounds<DDD>, p: int)
    requires
        DDD::spec_valid(b),
        0 <= p < DDD::spec_size(b),
    ensures
        DDD::spec_in_bounds(cell_at(b, p), b),
        DDD::spec_idx(cell_at(b, p), b) == p,
{
    let r = row_ddd(b);
    let s = slice_ddd(b);
    let d = depth_ddd(b);
    lemma_ddd_valid(b);
    let a = p % r;
    let q = p / r;
    let bb = q % s;
    let cc = q / s;
    vstd::arithmetic::div_mod::lemma_fundamental_div_mod(p, r);
    vstd::arithmetic::div_mod::lemma_mod_bound(p, r);
    vstd::arithmetic::div_mod::lemma_fundamental_div_mod(q, s);
    vstd::arithmetic::div_mod::lemma_mod_bound(q, s);
    assert(q >= 0) by {
        vstd::arithmetic::div_mod::lemma_div_pos_is_pos(p, r);
    }
    assert(q < s * d) by (nonlinear_arith)
        requires
            p == r * q + a,
            0 <= a,
            p < r * s * d,
            r > 0,
    ;
    assert(cc >= 0) by {
        vstd::arithmetic::div_mod::lemma_div_pos_is_pos(q, s);
    }
    assert(cc < d) by (nonlinear_arith)
        requires
            q == s * cc + bb,
            0 <= bb,
            q < s * d,
            s > 0,
    ;
    assert(cc * r * s + bb * r + a == p) by (nonlinear_arith)
        requires
            p == r * q + a,
            q == s * cc + bb,
    ;
}

/// The high corner of a valid 3D box is its last coordinate: stepping from the
/// low corner ends there.
pub proof fn lemma_walk_ends_at_high_corner(b: Bounds<DDD>)
    requires
        DDD::spec_valid(b),
        steppable(b),
    ensures
        walk(b, (DDD::spec_size(b) - 1) as nat) == Some(b.1),
        walk(b, DDD::spec_size(b) as nat) is None,
{
    lemma_ddd_valid(b);
    let r = row_ddd(b);
    let s = slice_ddd(b);
    let d = depth_ddd(b);
    assert(DDD::spec_in_bounds(b.1, b));
    assert(DDD::spec_idx(b.1, b) == (d - 1) * r * s + (s - 1) * r + (r - 1));
    assert((d - 1) * r * s + (s - 1) * r + (r - 1) == r * s * d - 1) by (nonlinear_arith);
    lemma_walk_covers(b, b.1);
    lemma_walk(b, DDD::spec_size(b) as nat);
}

// ---------------------------------------------------------------------------
// Arrays over a box

/// A value type with a distinguished all-zero value.
pub trait Zeroed: Sized {
    /// The all-zero value.
    spec fn spec_zeroed() -> Self;

    /// Returns the all-zero value.
    fn zeroed() -> (r: Self)
        ensures
            r == Self::spec_zeroed(),
    ;
}

/// A dense array with one cell per coordinate of a box, stored in row-major order.
pub struct Array<I, T> {
    data: Vec<T>,
    bounds: Bounds<I>,
}

/// Two-dimensional array.
pub type Array2d<T> = Array<DD, T>;

/// Three-dimensional array.
pub type Array3d<T> = Array<DDD, T>;

/// Every inside coordinate of a valid box has a position below its size.
pub proof fn lemma_all_idx_range<I: ArrayIndex>(bounds: Bounds<I>)
    requires
        I::spec_valid(bounds),
    ensures
        forall|c: I|
            #[trigger] I::spec_in_bounds(c, bounds) ==> 0 <= I::spec_idx(c, bounds) < I::spec_size(
                bounds,
            ),
{
    assert forall|c: I| #[trigger] I::spec_in_bounds(c, bounds) implies 0 <= I::spec_idx(c, bounds)
        < I::spec_size(bounds) by {
        I::lemma_idx_range(c, bounds);
    }
}

/// Every coordinate of the box can be stepped from without overflow.
pub open spec fn steppable<I: ArrayIndex>(bounds: Bounds<I>) -> bool {
    forall|c: I| #[trigger] I::spec_in_bounds(c, bounds) ==> I::spec_next_ok(c, bounds)
}

/// Where stepping from the low corner of `b` stands after `k` steps; `None`
/// once a step has gone past the last coordinate.
pub open spec fn walk<I: ArrayIndex>(b: Bounds<I>, k: nat) -> Option<I>
    decreases k,
{
    if k == 0 {
        Some(b.0)
    } else {
        match walk(b, (k - 1) as nat) {
            Some(c) => I::spec_next(c, b),
            None => None,
        }
    }
}

/// Stepping from the low corner visits every coordinate of the box once, in
/// row-major order: after `k` steps it stands at position `k` while `k` is
/// below the size, and it has stopped from then on.
pub proof fn lemma_walk<I: ArrayIndex>(b: Bounds<I>, k: nat)
    requires
        I::spec_valid(b),
        steppable(b),
    ensures
        k < I::spec_size(b) ==> (walk(b, k) matches Some(c) && I::spec_in_bounds(c, b) && I::spec_idx(c, b) == k),
        k >= I::spec_size(b) ==> walk(b, k) is None,
    decreases k,
{
    I::lemma_valid(b);
    if k > 0 {
        lemma_walk(b, (k - 1) as nat);
        if k - 1 < I::spec_size(b) {
            let c = walk(b, (k - 1) as nat)->0;
            I::lemma_next(c, b);
            if let Some(n) = I::spec_next(c, b) {
                I::lemma_idx_range(n, b);
            }
        }
    }
}

/// Every coordinate of the box is where stepping from the low corner stands
/// after as many steps as its position.
pub proof fn lemma_walk_covers<I: ArrayIndex>(b: Bounds<I>, c: I)
    requires
        I::spec_valid(b),
        steppable(b),
        I::spec_in_bounds(c, b),
    ensures
        walk(b, I::spec_idx(c, b) as nat) == Some(c),
{
    I::lemma_idx_range(c, b);
    let k = I::spec_idx(c, b) as nat;
    lemma_walk(b, k);
    I::lemma_idx_injective(walk(b, k)->0, c, b);
}

impl<I, T> View for Array<I, T> {
    type V = Seq<T>;

    /// The cells in row-major order.
    closed spec fn view(&self) -> Seq<T> {
        self.data@
    }
}

impl<I: ArrayIndex + Copy, T> Array<I, T> {
    /// The box of the array.
    pub closed spec fn spec_bounds(&self) -> Bounds<I> {
        self.bounds
    }

    /// The box of the array.
    pub fn bounds(&self) -> (r: Bounds<I>)
        ensures
            r == self.spec_bounds(),
    {
        self.bounds
    }

    /// The box is valid and there is exactly one cell per coordinate.
    pub closed spec fn wf(&self) -> bool {
        &&& I::spec_valid(self.bounds)
        &&& self.data@.len() == I::spec_size(self.bounds)
    }

    /// The cell at coordinate `c`.
    pub open spec fn spec_at(&self, c: I) -> T {
        self@[I::spec_idx(c, self.spec_bounds())]
    }

    /// A well-formed array has a valid box and one cell per coordinate: its
    /// box and its cells, as [`Array::data`] gives them, are accepted back by
    /// [`Array::from_data`].
    pub proof fn lemma_wf(&self)
        requires
            self.wf(),
        ensures
            I::spec_valid(self.spec_bounds()),
            self@.len() == I::spec_size(self.spec_bounds()),
    {
    }

    /// Builds the array whose cell at each coordinate `c` is `f(c)`, calling `f`
    /// once per coordinate in row-major order.
    pub fn new_init<F: Fn(I) -> T>(bounds: Bounds<I>, f: F) -> (r: Array<I, T>)
        requires
            I::spec_valid(bounds),
            steppable(bounds),
            forall|c: I| #[trigger] I::spec_in_bounds(c, bounds) ==> f.requires((c,)),
        ensures
            r.wf(),
            r.spec_bounds() == bounds,
            forall|c: I|
                I::spec_in_bounds(c, bounds) ==> f.ensures((c,), #[trigger] r.spec_at(c)),
    {
        proof {
            I::lemma_valid(bounds);
            lemma_all_idx_range(bounds);
        }
        let mut data: Vec<T> = Vec::new();
        let mut i = bounds.0;
        loop
            invariant_except_break
                I::spec_in_bounds(i, bounds),
                data@.len() == I::spec_idx(i, bounds),
            invariant
                I::spec_valid(bounds),
                steppable(bounds),
                forall|c: I| #[trigger] I::spec_in_bounds(c, bounds) ==> f.requires((c,)),
                forall|c: I|
                    #[trigger] I::spec_in_bounds(c, bounds) ==> 0 <= I::spec_idx(c, bounds)
                        < I::spec_size(bounds),
                forall|c: I|
                    I::spec_in_bounds(c, bounds) && #[trigger] I::spec_idx(c, bounds)
                        < data@.len() ==> f.ensures((c,), data@[I::spec_idx(c, bounds)]),
            ensures
                data@.len() == I::spec_size(bounds),
            decreases I::spec_size(bounds) - data@.len(),
        {
            proof {
                I::lemma_idx_range(i, bounds);
            }
            let v = f(i);
            let ghost old_data = data@;
            data.push(v);
            proof {
                assert forall|c: I|
                    I::spec_in_bounds(c, bounds) && #[trigger] I::spec_idx(c, bounds)
                        < data@.len() implies f.ensures((c,), data@[I::spec_idx(c, bounds)]) by {
                    if I::spec_idx(c, bounds) == old_data.len() {
                        I::lemma_idx_injective(c, i, bounds);
                    } else {
                        assert(data@[I::spec_idx(c, bounds)] == old_data[I::spec_idx(c, bounds)]);
                    }
                }
                I::lemma_next(i, bounds);
            }
            match i.next(&bounds) {
                None => {
                    break ;
                },
                Some(n) => {
                    i = n;
                },
            }
        }
        Array { data, bounds }
    }

    /// Builds the array whose every cell holds the all-zero value.
    pub fn new_zeroed(bounds: Bounds<I>) -> (r: Array<I, T>) where T: Zeroed
        requires
            I::spec_valid(bounds),
        ensures
            r.wf(),
            r.spec_bounds() == bounds,
            forall|k: int| 0 <= k < r@.len() ==> #[trigger] r@[k] == T::spec_zeroed(),
    {
        proof {
            I::lemma_valid(bounds);
        }
        let size = I::size(&bounds);
        let mut data: Vec<T> = Vec::new();
        while data.len() < size
            invariant
                size as int == I::spec_size(bounds),
                data@.len() <= size,
                forall|k: int| 0 <= k < data@.len() ==> #[trigger] data@[k] == T::spec_zeroed(),
            decreases size - data@.len(),
        {
            data.push(T::zeroed());
        }
        Array { data, bounds }
    }

    /// The cells in row-major order: the array's contents as it is written
    /// out after its box.
    pub fn data(&self) -> (r: &Vec<T>)
        ensures
            r@ == self@,
    {
        &self.data
    }

    /// The array of box `bounds` holding `data` in row-major order, when the
    /// box is valid and `data` has exactly one cell per coordinate; `None`
    /// otherwise.
    pub fn from_data(bounds: Bounds<I>, data: Vec<T>) -> (r: Option<Array<I, T>>)
        ensures
            match r {
                Some(a) => {
                    &&& I::spec_valid(bounds)
                    &&& data@.len() == I::spec_size(bounds)
                    &&& a.wf()
                    &&& a.spec_bounds() == bounds
                    &&& a@ == data@
                },
                None => !(I::spec_valid(bounds) && data@.len() == I::spec_size(bounds)),
            },
    {
        if !I::valid(&bounds) {
            return None;
        }
        proof {
            I::lemma_valid(bounds);
        }
        if data.len() != I::size(&bounds) {
            return None;
        }
        Some(Array { data, bounds })
    }

    /// Number of cells.
    pub fn size(&self) -> (r: usize)
        requires
            self.wf(),
        ensures
            r as int == I::spec_size(self.spec_bounds()),
            r == self@.len(),
    {
        proof {
            I::lemma_valid(self.bounds);
        }
        I::size(&self.bounds)
    }

    /// Whether `test` is a coordinate of the array.
    pub fn in_bounds(&self, test: I) -> (r: bool)
        ensures
            r == I::spec_in_bounds(test, self.spec_bounds()),
    {
        test.in_bounds(&self.bounds)
    }

    /// The cell at coordinate `i`.
    pub fn index(&self, i: I) -> (r: &T)
        requires
            self.wf(),
            I::spec_in_bounds(i, self.spec_bounds()),
        ensures
            *r == self.spec_at(i),
    {
        proof {
            I::lemma_idx_range(i, self.bounds);
        }
        let k = i.idx(&self.bounds);
        &self.data[k]
    }

    /// A mutable borrow of the cell at coordinate `i`; whatever is written
    /// through it becomes the cell, and every other cell is left alone.
    pub fn index_mut(&mut self, i: I) -> (r: &mut T)
        requires
            old(self).wf(),
            I::spec_in_bounds(i, old(self).spec_bounds()),
        ensures
            *r == old(self).spec_at(i),
            final(self).wf(),
            final(self).spec_bounds() == old(self).spec_bounds(),
            final(self)@ == old(self)@.update(I::spec_idx(i, old(self).spec_bounds()), *final(r)),
    {
        proof {
            I::lemma_idx_range(i, self.bounds);
        }
        let k = i.idx(&self.bounds);
        &mut self.data[k]
    }

    /// Replaces the cell at coordinate `i` with `v`, leaving every other cell alone.
    pub fn set(&mut self, i: I, v: T)
        requires
            old(self).wf(),
            I::spec_in_bounds(i, old(self).spec_bounds()),
        ensures
            final(self).wf(),
            final(self).spec_bounds() == old(self).spec_bounds(),
            final(self)@ == old(self)@.update(I::spec_idx(i, old(self).spec_bounds()), v),
            forall|c: I|
                I::spec_in_bounds(c, old(self).spec_bounds()) ==> #[trigger] final(self).spec_at(c)
                    == if c == i {
                    v
                } else {
                    old(self).spec_at(c)
                },
    {
        proof {
            I::lemma_idx_range(i, self.bounds);
        }
        let k = i.idx(&self.bounds);
        self.data.set(k, v);
        proof {
            assert forall|c: I| #[trigger] I::spec_in_bounds(c, old(self).spec_bounds()) implies self.spec_at(c)
                == if c == i {
                v
            } else {
                old(self).spec_at(c)
            } by {
                I::lemma_idx_range(c, self.bounds);
                if c != i && I::spec_idx(c, self.bounds) == I::spec_idx(i, self.bounds) {
                    I::lemma_idx_injective(c, i, self.bounds);
                }
            }
        }
    }

    /// Replaces every cell `c` by `f(c, old cell)`, visiting cells in row-major order.
    pub fn map_in_place<F: Fn(I, &T) -> T>(&mut self, f: F)
        requires
            old(self).wf(),
            steppable(old(self).spec_bounds()),
            forall|c: I, v: &T| #[trigger] f.requires((c, v)),
        ensures
            final(self).wf(),
            final(self).spec_bounds() == old(self).spec_bounds(),
            forall|c: I|
                I::spec_in_bounds(c, old(self).spec_bounds()) ==> f.ensures(
                    (c, &old(self).spec_at(c)),
                    #[trigger] final(self).spec_at(c),
                ),
    {
        let bounds = self.bounds;
        let ghost old_data = self.data@;
        proof {
            I::lemma_valid(bounds);
            lemma_all_idx_range(bounds);
        }
        let mut i = bounds.0;
        loop
            invariant_except_break
                I::spec_in_bounds(i, bounds),
                forall|k: int|
                    I::spec_idx(i, bounds) <= k < old_data.len() ==> #[trigger] self.data@[k]
                        == old_data[k],
            invariant
                self.bounds == bounds,
                I::spec_valid(bounds),
                steppable(bounds),
                self.data@.len() == old_data.len(),
                old_data.len() == I::spec_size(bounds),
                forall|c: I, v: &T| #[trigger] f.requires((c, v)),
                forall|c: I|
                    #[trigger] I::spec_in_bounds(c, bounds) ==> 0 <= I::spec_idx(c, bounds)
                        < I::spec_size(bounds),
                forall|c: I|
                    I::spec_in_bounds(c, bounds) && #[trigger] I::spec_idx(c, bounds)
                        < I::spec_idx(i, bounds) ==> f.ensures(
                        (c, &old_data[I::spec_idx(c, bounds)]),
                        self.data@[I::spec_idx(c, bounds)],
                    ),
            ensures
                self.bounds == bounds,
                self.data@.len() == old_data.len(),
                forall|c: I|
                    #[trigger] I::spec_in_bounds(c, bounds) ==> f.ensures(
                        (c, &old_data[I::spec_idx(c, bounds)]),
                        self.data@[I::spec_idx(c, bounds)],
                    ),
            decreases I::spec_size(bounds) - I::spec_idx(i, bounds),
        {
            proof {
                I::lemma_idx_range(i, bounds);
            }
            let k = i.idx(&bounds);
            let v = f(i, &self.data[k]);
            let ghost before = self.data@;
            self.data.set(k, v);
            proof {
                I::lemma_next(i, bounds);
                assert forall|c: I|
                    I::spec_in_bounds(c, bounds) && #[trigger] I::spec_idx(c, bounds) <= k
                        implies f.ensures(
                        (c, &old_data[I::spec_idx(c, bounds)]),
                        self.data@[I::spec_idx(c, bounds)],
                    ) by {
                    if I::spec_idx(c, bounds) == k {
                        I::lemma_idx_injective(c, i, bounds);
                    }
                }
            }
            match i.next(&bounds) {
                None => {
                    proof {
                        assert forall|c: I| #[trigger] I::spec_in_bounds(c, bounds) implies f.ensures(
                            (c, &old_data[I::spec_idx(c, bounds)]),
                            self.data@[I::spec_idx(c, bounds)],
                        ) by {
                            I::lemma_idx_range(c, bounds);
                        }
                    }
                    break ;
                },
                Some(n) => {
                    i = n;
                },
            }
        }
    }

    /// Builds the array whose cell at `c` is `f(c, self cell at c)`.
    pub fn map<O, F: Fn(I, &T) -> O>(&self, f: F) -> (r: Array<I, O>)
        requires
            self.wf(),
            steppable(self.spec_bounds()),
            forall|c: I, v: &T| #[trigger] f.requires((c, v)),
        ensures
            r.wf(),
            r.spec_bounds() == self.spec_bounds(),
            forall|c: I|
                I::spec_in_bounds(c, self.spec_bounds()) ==> f.ensures(
                    (c, &self.spec_at(c)),
                    #[trigger] r.spec_at(c),
                ),
    {
        let bounds = self.bounds;
        proof {
            I::lemma_valid(bounds);
        }
        proof {
            lemma_all_idx_range(bounds);
        }
        let mut data: Vec<O> = Vec::new();
        let mut i = bounds.0;
        loop
            invariant_except_break
                I::spec_in_bounds(i, bounds),
                data@.len() == I::spec_idx(i, bounds),
            invariant
                self.wf(),
                self.bounds == bounds,
                I::spec_valid(bounds),
                steppable(bounds),
                forall|c: I, v: &T| #[trigger] f.requires((c, v)),
                forall|c: I|
                    #[trigger] I::spec_in_bounds(c, bounds) ==> 0 <= I::spec_idx(c, bounds)
                        < I::spec_size(bounds),
                forall|c: I|
                    I::spec_in_bounds(c, bounds) && #[trigger] I::spec_idx(c, bounds)
                        < data@.len() ==> f.ensures(
                        (c, &self.spec_at(c)),
                        data@[I::spec_idx(c, bounds)],
                    ),
            ensures
                data@.len() == I::spec_size(bounds),
            decreases I::spec_size(bounds) - data@.len(),
        {
            proof {
                I::lemma_idx_range(i, bounds);
            }
            let v = f(i, self.index(i));
            let ghost old_data = data@;
            data.push(v);
            proof {
                assert forall|c: I|
                    I::spec_in_bounds(c, bounds) && #[trigger] I::spec_idx(c, bounds)
                        < data@.len() implies f.ensures(
                        (c, &self.spec_at(c)),
                        data@[I::spec_idx(c, bounds)],
                    ) by {
                    if I::spec_idx(c, bounds) == old_data.len() {
                        I::lemma_idx_injective(c, i, bounds);
                    } else {
                        assert(data@[I::spec_idx(c, bounds)] == old_data[I::spec_idx(c, bounds)]);
                    }
                }
                I::lemma_next(i, bounds);
            }
            match i.next(&bounds) {
                None => {
                    break ;
                },
                Some(n) => {
                    i = n;
                },
            }
        }
        Array { data, bounds }
    }

    /// Sets every cell to the all-zero value.
    pub fn zero_out(&mut self) where T: Zeroed
        requires
            old(self).wf(),
        ensures
            final(self).wf(),
            final(self).spec_bounds() == old(self).spec_bounds(),
            final(self)@.len() == old(self)@.len(),
            forall|k: int| 0 <= k < final(self)@.len() ==> #[trigger] final(self)@[k] == T::spec_zeroed(),
    {
        let n = self.data.len();
        let mut k: usize = 0;
        while k < n
            invariant
                self.wf(),
                self.bounds == old(self).bounds,
                self.data@.len() == n,
                k <= n,
                forall|j: int| 0 <= j < k ==> #[trigger] self.data@[j] == T::spec_zeroed(),
            decreases n - k,
        {
            self.data.set(k, T::zeroed());
            k = k + 1;
        }
    }
}

impl<I: ArrayIndex + Copy, T: Copy> Array<I, T> {
    /// A copy of the array with the same box and cells.
    pub fn duplicate(&self) -> (r: Array<I, T>)
        ensures
            r.spec_bounds() == self.spec_bounds(),
            r@ == self@,
            self.wf() ==> r.wf(),
    {
        let n = self.data.len();
        let mut data: Vec<T> = Vec::new();
        let mut k: usize = 0;
        while k < n
            invariant
                n == self.data@.len(),
                k <= n,
                data@ == self.data@.subrange(0, k as int),
            decreases n - k,
        {
            data.push(self.data[k]);
            k = k + 1;
        }
        Array { data, bounds: self.bounds }
    }
}

} // verus!
