//! Integer block coordinates and their arithmetic.

use vstd::prelude::*;
use crate::array::{cell_at, lemma_cell_at, ArrayIndex, Bounds, row_ddd, slice_ddd, depth_ddd};

verus! {

/// A 2D integer coordinate (used for chunk columns).
pub type DD = (i32, i32);

/// A 3D integer coordinate of a block.
pub type DDD = (i32, i32, i32);

/// True when every component of `-a` fits in an `i32`.
pub open spec fn can_neg(a: DDD) -> bool {
    a.0 != i32::MIN && a.1 != i32::MIN && a.2 != i32::MIN
}

/// Componentwise negation.
pub fn neg_ddd(a: DDD) -> (r: DDD)
    requires
        can_neg(a),
    ensures
        r.0 == -a.0,
        r.1 == -a.1,
        r.2 == -a.2,
{
    (-a.0, -a.1, -a.2)
}

/// True when every component of `a + b` fits in an `i32`.
pub open spec fn can_add(a: DDD, b: DDD) -> bool {
    &&& i32::MIN <= a.0 + b.0 <= i32::MAX
    &&& i32::MIN <= a.1 + b.1 <= i32::MAX
    &&& i32::MIN <= a.2 + b.2 <= i32::MAX
}

/// True when every component of `a - b` fits in an `i32`.
pub open spec fn can_sub(a: DDD, b: DDD) -> bool {
    &&& i32::MIN <= a.0 - b.0 <= i32::MAX
    &&& i32::MIN <= a.1 - b.1 <= i32::MAX
    &&& i32::MIN <= a.2 - b.2 <= i32::MAX
}

/// Componentwise sum.
pub fn add_ddd(a: DDD, b: DDD) -> (r: DDD)
    requires
        can_add(a, b),
    ensures
        r.0 == a.0 + b.0,
        r.1 == a.1 + b.1,
        r.2 == a.2 + b.2,
{
    (a.0 + b.0, a.1 + b.1, a.2 + b.2)
}

/// Componentwise difference.
pub fn sub_ddd(a: DDD, b: DDD) -> (r: DDD)
    requires
        can_sub(a, b),
    ensures
        r.0 == a.0 - b.0,
        r.1 == a.1 - b.1,
        r.2 == a.2 - b.2,
{
    (a.0 - b.0, a.1 - b.1, a.2 - b.2)
}

/// Every component of `c` can be moved one step either way without overflow.
pub open spec fn can_step(c: DDD) -> bool {
    &&& i32::MIN < c.0 < i32::MAX
    &&& i32::MIN < c.1 < i32::MAX
    &&& i32::MIN < c.2 < i32::MAX
}

/// The six face neighbours of `c`: -x, +x, -y, +y, -z, +z, in that order.
pub open spec fn spec_immediate_neighbours(c: DDD) -> Seq<DDD> {
    seq![
        ((c.0 - 1) as i32, c.1, c.2),
        ((c.0 + 1) as i32, c.1, c.2),
        (c.0, (c.1 - 1) as i32, c.2),
        (c.0, (c.1 + 1) as i32, c.2),
        (c.0, c.1, (c.2 - 1) as i32),
        (c.0, c.1, (c.2 + 1) as i32),
    ]
}

/// Coordinates that have six face neighbours.
pub trait ImmediateNeighbours: Sized {
    /// The neighbours can be computed without overflow.
    spec fn spec_has_neighbours(&self) -> bool;

    /// The six face neighbours.
    spec fn spec_neighbours(&self) -> Seq<Self>;

    /// The six face neighbours, in a fixed order.
    fn immediate_neighbours(&self) -> (r: [Self; 6])
        requires
            self.spec_has_neighbours(),
        ensures
            r@ == self.spec_neighbours(),
    ;
}

impl ImmediateNeighbours for DDD {
    open spec fn spec_has_neighbours(&self) -> bool {
        can_step(*self)
    }

    open spec fn spec_neighbours(&self) -> Seq<DDD> {
        spec_immediate_neighbours(*self)
    }

    fn immediate_neighbours(&self) -> (r: [DDD; 6]) {
        let r = [
            (self.0 - 1, self.1, self.2),
            (self.0 + 1, self.1, self.2),
            (self.0, self.1 - 1, self.2),
            (self.0, self.1 + 1, self.2),
            (self.0, self.1, self.2 - 1),
            (self.0, self.1, self.2 + 1),
        ];
        assert(r@ =~= spec_immediate_neighbours(*self));
        r
    }
}

/// The unit cube of offsets around the origin, `(-1, -1, -1)` to `(1, 1, 1)`.
pub open spec fn unit_cube() -> Bounds<DDD> {
    ((-1i32, -1i32, -1i32), (1i32, 1i32, 1i32))
}

/// The unit cube is a valid box of 27 cells.
pub proof fn lemma_unit_cube()
    ensures
        DDD::spec_valid(unit_cube()),
        DDD::spec_size(unit_cube()) == 27,
{
    assert(row_ddd(unit_cube()) == 3);
    assert(slice_ddd(unit_cube()) == 3);
    assert(depth_ddd(unit_cube()) == 3);
}

/// A walk over the 27 cells of the unit cube around `base`, in row-major order.
pub struct FullNeighoursIter<T> {
    base: T,
    offset: Option<T>,
}

impl FullNeighoursIter<DDD> {
    /// The centre of the walk.
    pub closed spec fn spec_base(&self) -> DDD {
        self.base
    }

    /// The next offset to visit, `None` once the walk is over.
    pub closed spec fn spec_offset(&self) -> Option<DDD> {
        self.offset
    }

    /// How many cells the walk has yielded: the position of the next offset in
    /// the unit cube, or all 27 once the walk is over.
    pub open spec fn spec_calls(&self) -> int {
        match self.spec_offset() {
            Some(o) => DDD::spec_idx(o, unit_cube()),
            None => 27,
        }
    }

    /// The walk can be completed without overflow.
    pub open spec fn spec_ok(&self) -> bool {
        &&& can_step(self.spec_base())
        &&& (self.spec_offset() matches Some(o) ==> DDD::spec_in_bounds(o, unit_cube()))
    }

    /// Yields `base + offset` and moves the offset to the next cell of the unit cube.
    pub fn next(&mut self) -> (r: Option<DDD>)
        requires
            old(self).spec_ok(),
        ensures
            final(self).spec_ok(),
            final(self).spec_base() == old(self).spec_base(),
            match old(self).spec_offset() {
                None => r is None && final(self).spec_offset() is None,
                Some(o) => {
                    &&& r == Some(
                        (
                            (old(self).spec_base().0 + o.0) as i32,
                            (old(self).spec_base().1 + o.1) as i32,
                            (old(self).spec_base().2 + o.2) as i32,
                        ),
                    )
                    &&& final(self).spec_offset() == DDD::spec_next(o, unit_cube())
                },
            },
            old(self).spec_calls() < 27 ==> {
                let o = cell_at(unit_cube(), old(self).spec_calls());
                &&& r == Some(
                    (
                        (old(self).spec_base().0 + o.0) as i32,
                        (old(self).spec_base().1 + o.1) as i32,
                        (old(self).spec_base().2 + o.2) as i32,
                    ),
                )
                &&& final(self).spec_calls() == old(self).spec_calls() + 1
            },
            old(self).spec_calls() >= 27 ==> r is None && final(self).spec_calls() == 27,
    {
        proof {
            lemma_unit_cube();
            if let Some(o) = self.offset {
                DDD::lemma_idx_range(o, unit_cube());
                lemma_cell_at(unit_cube(), DDD::spec_idx(o, unit_cube()));
                DDD::lemma_idx_injective(o, cell_at(unit_cube(), DDD::spec_idx(o, unit_cube())), unit_cube());
                DDD::lemma_next(o, unit_cube());
            }
        }
        match self.offset {
            None => None,
            Some(offset) => {
                let next = add_ddd(self.base, offset);
                proof {
                    lemma_unit_cube();
                    DDD::lemma_next(offset, unit_cube());
                }
                self.offset = offset.next(&((-1, -1, -1), (1, 1, 1)));
                Some(next)
            },
        }
    }
}

/// Coordinates whose full 3x3x3 neighbourhood can be walked.
pub trait FullNeighbours: Sized {
    /// The walk type.
    type It;

    /// A walk over the neighbourhood, the coordinate itself included.
    fn full_neighbours(&self) -> Self::It
    ;
}

impl FullNeighbours for DDD {
    type It = FullNeighoursIter<DDD>;

    fn full_neighbours(&self) -> (r: FullNeighoursIter<DDD>)
        ensures
            r.spec_base() == *self,
            r.spec_offset() == Some((-1i32, -1i32, -1i32)),
            r.spec_calls() == 0,
    {
        proof {
            lemma_unit_cube();
            DDD::lemma_valid(unit_cube());
        }
        FullNeighoursIter { base: *self, offset: Some((-1, -1, -1)) }
    }
}

/// The walk over the unit cube starts at position 0, steps one position at a
/// time, and ends after the 27th cell; distinct positions are distinct cells.
pub proof fn lemma_full_neighbours_walk(o: DDD, p: DDD)
    ensures
        DDD::spec_size(unit_cube()) == 27,
        DDD::spec_idx((-1i32, -1i32, -1i32), unit_cube()) == 0,
        DDD::spec_in_bounds(o, unit_cube()) ==> {
            &&& 0 <= DDD::spec_idx(o, unit_cube()) < 27
            &&& match DDD::spec_next(o, unit_cube()) {
                Some(n) => DDD::spec_in_bounds(n, unit_cube()) && DDD::spec_idx(n, unit_cube())
                    == DDD::spec_idx(o, unit_cube()) + 1,
                None => DDD::spec_idx(o, unit_cube()) == 26,
            }
        },
        DDD::spec_in_bounds(o, unit_cube()) && DDD::spec_in_bounds(p, unit_cube())
            && DDD::spec_idx(o, unit_cube()) == DDD::spec_idx(p, unit_cube()) ==> o == p,
{
    lemma_unit_cube();
    DDD::lemma_valid(unit_cube());
    if DDD::spec_in_bounds(o, unit_cube()) {
        DDD::lemma_idx_range(o, unit_cube());
        DDD::lemma_next(o, unit_cube());
        if DDD::spec_in_bounds(p, unit_cube()) && DDD::spec_idx(o, unit_cube()) == DDD::spec_idx(
            p,
            unit_cube(),
        ) {
            DDD::lemma_idx_injective(o, p, unit_cube());
        }
    }
}

/// The offsets of the full neighbourhood in walk order: the `k`-th (from 0)
/// has x = k mod 3 - 1, y = (k / 3) mod 3 - 1, z = k / 9 - 1, so x varies
/// fastest and the 14th offset (k = 13) is the centre itself.
pub proof fn lemma_full_neighbours_offsets(k: int)
    requires
        0 <= k < 27,
    ensures
        cell_at(unit_cube(), k) == ((k % 3 - 1) as i32, ((k / 3) % 3 - 1) as i32, (k / 9 - 1) as i32),
        cell_at(unit_cube(), 13) == (0i32, 0i32, 0i32),
{
    assert(row_ddd(unit_cube()) == 3);
    assert(slice_ddd(unit_cube()) == 3);
    assert((k / 3) / 3 == k / 9) by {
        vstd::arithmetic::div_mod::lemma_div_denominator(k, 3, 3);
    }
}

/// Side length of a chunk in blocks along x and z.
pub const CHUNK_SIDE: i32 = 16;

/// The chunk column that holds block coordinate `coord`.
pub fn get_chunk_coord(coord: DDD) -> (r: DD)
    requires
        coord.0 >= i32::MIN + 15,
        coord.2 >= i32::MIN + 15,
    ensures
        r.0 == coord.0 / 16,
        r.1 == coord.2 / 16,
{
    let mut x: i32 = coord.0;
    let mut z: i32 = coord.2;
    if x < 0 {
        x = x - 15;
    }
    if z < 0 {
        z = z - 15;
    }
    (x / 16, z / 16)
}

} // verus!
