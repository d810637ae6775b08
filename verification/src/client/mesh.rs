//! Chunk meshing: which block faces are drawn, with what light, and how
//! strongly each corner is shaded by its neighbours.

use vstd::prelude::*;
use crate::array::{cell_at, lemma_cell_at, ArrayIndex, Bounds};
use crate::blocks::BlockId;
use crate::coords::{spec_immediate_neighbours, ImmediateNeighbours, DD, DDD};
use crate::world::{chunk_key, interior, keyable, GameWorld};

verus! {

/// The texture side of a face pointing along the unit vector `dir`:
/// 0 for +x, 1 for -x, 2 for +z, 3 for -z, 4 for +y, 5 for -y.
pub open spec fn spec_side_index(dir: DDD) -> usize {
    if dir.0 != 0 {
        if dir.0 == 1 {
            0
        } else {
            1
        }
    } else if dir.2 != 0 {
        if dir.2 == 1 {
            2
        } else {
            3
        }
    } else if dir.1 == 1 {
        4
    } else {
        5
    }
}

/// The texture side of a face pointing along the unit vector `dir`.
pub fn side_index(dir: DDD) -> (r: usize)
    ensures
        r == spec_side_index(dir),
        r < 6,
{
    if dir.0 != 0 {
        if dir.0 == 1 {
            0
        } else {
            1
        }
    } else if dir.2 != 0 {
        if dir.2 == 1 {
            2
        } else {
            3
        }
    } else if dir.1 == 1 {
        4
    } else {
        5
    }
}

/// Shading of a face corner from its three neighbours (two sides and the
/// diagonal between them): the number of solid ones, except that two solid
/// sides with an open diagonal count as fully shaded (3).
pub fn occlusion_level(left: bool, center: bool, right: bool) -> (r: u8)
    ensures
        r <= 3,
        r == if left && right && !center {
            3
        } else {
            (if left {
                1u8
            } else {
                0u8
            }) + (if center {
                1u8
            } else {
                0u8
            }) + (if right {
                1u8
            } else {
                0u8
            })
        },
{
    let l: u8 = if left {
        1
    } else {
        0
    };
    let c: u8 = if center {
        1
    } else {
        0
    };
    let r: u8 = if right {
        1
    } else {
        0
    };
    let result = l + c + r;
    if result == 2 && c == 0 {
        3
    } else {
        result
    }
}

/// The three cells next to a face corner, as offsets from the block: for a
/// face along x (`side.0 != 0`) the corner's y and z edges, and likewise for y
/// and z; `edge` holds the corner's position on each axis as -1 or 1.
pub open spec fn spec_corner_offsets(edge: DDD, side: DDD) -> (DDD, DDD, DDD) {
    if side.0 != 0 {
        ((side.0, edge.1, 0i32), (side.0, edge.1, edge.2), (side.0, 0i32, edge.2))
    } else if side.1 != 0 {
        ((edge.0, side.1, 0i32), (edge.0, side.1, edge.2), (0i32, side.1, edge.2))
    } else {
        ((edge.0, 0i32, side.2), (edge.0, edge.1, side.2), (0i32, edge.1, side.2))
    }
}

/// The three cells read for a face corner lie in front of the face: on the
/// face's axis (the one where `side` is not 0, x before y before z) each has
/// the coordinate of `side`. Of the two other axes, in order, the first cell
/// goes toward the corner (`edge`) on the first and stays at 0 on the second,
/// the last cell the other way round, and the middle one goes toward the
/// corner on both.
pub open spec fn corner_cells_in_front(edge: DDD, side: DDD, r: (DDD, DDD, DDD)) -> bool {
    if side.0 != 0 {
        &&& r.0.0 == side.0 && r.1.0 == side.0 && r.2.0 == side.0
        &&& r.0.1 == edge.1 && r.0.2 == 0
        &&& r.1.1 == edge.1 && r.1.2 == edge.2
        &&& r.2.1 == 0 && r.2.2 == edge.2
    } else if side.1 != 0 {
        &&& r.0.1 == side.1 && r.1.1 == side.1 && r.2.1 == side.1
        &&& r.0.0 == edge.0 && r.0.2 == 0
        &&& r.1.0 == edge.0 && r.1.2 == edge.2
        &&& r.2.0 == 0 && r.2.2 == edge.2
    } else {
        &&& r.0.2 == side.2 && r.1.2 == side.2 && r.2.2 == side.2
        &&& r.0.0 == edge.0 && r.0.1 == 0
        &&& r.1.0 == edge.0 && r.1.1 == edge.1
        &&& r.2.0 == 0 && r.2.1 == edge.1
    }
}

/// The cells a face corner is shaded by lie in front of the face.
pub proof fn lemma_corner_cells_in_front(edge: DDD, side: DDD)
    ensures
        corner_cells_in_front(edge, side, spec_corner_offsets(edge, side)),
{
}

/// The three cells next to a face corner, as offsets from the block.
pub fn corner_offsets(edge: DDD, side: DDD) -> (r: (DDD, DDD, DDD))
    ensures
        r == spec_corner_offsets(edge, side),
        corner_cells_in_front(edge, side, r),
{
    proof {
        lemma_corner_cells_in_front(edge, side);
    }
    if side.0 != 0 {
        ((side.0, edge.1, 0), (side.0, edge.1, edge.2), (side.0, 0, edge.2))
    } else if side.1 != 0 {
        ((edge.0, side.1, 0), (edge.0, side.1, edge.2), (0, side.1, edge.2))
    } else {
        ((edge.0, 0, side.2), (edge.0, edge.1, side.2), (0, edge.1, side.2))
    }
}

/// Whether the cell at `c` holds a loaded solid cube.
pub open spec fn solid_at(world: GameWorld, c: DDD) -> bool {
    world.spec_block(c) matches Some(b) && b.block.spec_visible()
}

/// True when `v` lies in -1..=1.
pub open spec fn unit_range(v: i32) -> bool {
    -1 <= v <= 1
}

/// Shading of the corner of the face of block `c` that points along `side`,
/// the corner's position given by `edge`.
pub fn occluded(world: &GameWorld, c: DDD, edge: DDD, side: DDD) -> (r: u8)
    requires
        world.wf(),
        interior(c),
        unit_range(edge.0) && unit_range(edge.1) && unit_range(edge.2),
        unit_range(side.0) && unit_range(side.1) && unit_range(side.2),
    ensures
        ({
            let (l, m, n) = spec_corner_offsets(edge, side);
            let at = |o: DDD| ((c.0 + o.0) as i32, (c.1 + o.1) as i32, (c.2 + o.2) as i32);
            let left = solid_at(*world, at(l));
            let center = solid_at(*world, at(m));
            let right = solid_at(*world, at(n));
            r == if left && right && !center {
                3
            } else {
                (if left {
                    1u8
                } else {
                    0u8
                }) + (if center {
                    1u8
                } else {
                    0u8
                }) + (if right {
                    1u8
                } else {
                    0u8
                })
            }
        }),
{
    let (l, m, n) = corner_offsets(edge, side);
    let lc = crate::coords::add_ddd(l, c);
    let mc = crate::coords::add_ddd(m, c);
    let nc = crate::coords::add_ddd(n, c);
    let left = match world.get(lc) {
        Some(b) => b.visible(),
        None => false,
    };
    let center = match world.get(mc) {
        Some(b) => b.visible(),
        None => false,
    };
    let right = match world.get(nc) {
        Some(b) => b.visible(),
        None => false,
    };
    occlusion_level(left, center, right)
}

/// Whether a face's two triangles are split along the other diagonal: when the
/// shading of corners 0 and 4 together exceeds that of corners 1 and 2.
pub fn should_flip(ao0: u8, ao1: u8, ao2: u8, ao4: u8) -> (r: bool)
    requires
        ao0 + ao4 <= u8::MAX,
        ao1 + ao2 <= u8::MAX,
    ensures
        r == (ao0 + ao4 > ao1 + ao2),
{
    ao0 + ao4 > ao1 + ao2
}

/// A block face to draw: the block's cell, the unit vector towards the open
/// neighbour, the block's kind, and the sky and source light of that neighbour.
#[derive(Copy, Clone, Debug)]
pub struct Face {
    pub cell: DDD,
    pub dir: DDD,
    pub block: BlockId,
    pub lighting: (u8, u8),
}

/// Whether the neighbour at `n` leaves a face open: it is not loaded, or it
/// is not a solid cube.
pub open spec fn open_at(world: GameWorld, n: DDD) -> bool {
    !solid_at(world, n)
}

/// The light a face receives from the neighbour at `n`: its sky and source
/// light, or none when no light level is stored there.
pub open spec fn face_lighting(world: GameWorld, n: DDD) -> (u8, u8) {
    match world.spec_light(n) {
        Some(l) => (l.heaven, l.hearth),
        None => (0, 0),
    }
}

/// The faces of the block of kind `kind` at `c` toward its first `k` neighbours.
pub open spec fn dir_faces(world: GameWorld, c: DDD, kind: BlockId, k: int) -> Seq<Face>
    decreases k,
{
    if k <= 0 {
        Seq::empty()
    } else {
        let n = spec_immediate_neighbours(c)[k - 1];
        let rest = dir_faces(world, c, kind, k - 1);
        if open_at(world, n) {
            rest.push(
                Face {
                    cell: c,
                    dir: ((n.0 - c.0) as i32, (n.1 - c.1) as i32, (n.2 - c.2) as i32),
                    block: kind,
                    lighting: face_lighting(world, n),
                },
            )
        } else {
            rest
        }
    }
}

/// The faces drawn for cell `c`: none unless it holds a solid cube.
pub open spec fn cell_faces(world: GameWorld, c: DDD) -> Seq<Face> {
    match world.spec_block(c) {
        Some(b) => if b.block.spec_visible() {
            dir_faces(world, c, b.block, 6)
        } else {
            Seq::empty()
        },
        None => Seq::empty(),
    }
}

/// The faces of the first `p` cells of box `b`, in row-major order.
pub open spec fn faces_before(world: GameWorld, b: Bounds<DDD>, p: int) -> Seq<Face>
    decreases p,
{
    if p <= 0 {
        Seq::empty()
    } else {
        faces_before(world, b, p - 1) + cell_faces(world, cell_at(b, p - 1))
    }
}

/// The unit vector from `c` toward its neighbour `n`.
pub open spec fn dir_to(c: DDD, n: DDD) -> DDD {
    ((n.0 - c.0) as i32, (n.1 - c.1) as i32, (n.2 - c.2) as i32)
}

/// Whether `fs` holds a face of the block at `c` pointing along `d`.
pub open spec fn has_face(fs: Seq<Face>, c: DDD, d: DDD) -> bool {
    exists|i: int| 0 <= i < fs.len() && (#[trigger] fs[i]).cell == c && fs[i].dir == d
}

/// A face is in a concatenation exactly when it is in one of the two parts.
proof fn lemma_has_face_concat(s1: Seq<Face>, s2: Seq<Face>, c: DDD, d: DDD)
    ensures
        has_face(s1 + s2, c, d) <==> has_face(s1, c, d) || has_face(s2, c, d),
{
    let s = s1 + s2;
    if has_face(s1, c, d) {
        let i = choose|i: int| 0 <= i < s1.len() && (#[trigger] s1[i]).cell == c && s1[i].dir == d;
        assert(s[i] == s1[i]);
    }
    if has_face(s2, c, d) {
        let i = choose|i: int| 0 <= i < s2.len() && (#[trigger] s2[i]).cell == c && s2[i].dir == d;
        assert(s[s1.len() + i] == s2[i]);
    }
    if has_face(s, c, d) {
        let i = choose|i: int| 0 <= i < s.len() && (#[trigger] s[i]).cell == c && s[i].dir == d;
        if i < s1.len() {
            assert(s1[i] == s[i]);
        } else {
            assert(s2[i - s1.len()] == s[i]);
        }
    }
}

/// The faces toward the first `k` neighbours all belong to the block at `c`
/// and have its kind.
proof fn lemma_dir_faces_cells(world: GameWorld, c: DDD, kind: BlockId, k: int)
    ensures
        forall|i: int|
            0 <= i < dir_faces(world, c, kind, k).len() ==> (#[trigger] dir_faces(world, c, kind, k)[i]).cell
                == c && dir_faces(world, c, kind, k)[i].block == kind,
    decreases k,
{
    if k > 0 {
        lemma_dir_faces_cells(world, c, kind, k - 1);
    }
}

/// Among the faces toward the first `k` neighbours of an interior cell `c`,
/// the face toward neighbour `kk` is there exactly when `kk < k` and that
/// neighbour is open.
proof fn lemma_dir_faces_open(world: GameWorld, c: DDD, kind: BlockId, k: int, kk: int)
    requires
        interior(c),
        0 <= kk < 6,
        k <= 6,
    ensures
        has_face(dir_faces(world, c, kind, k), c, dir_to(c, spec_immediate_neighbours(c)[kk])) <==> (kk
            < k && open_at(world, spec_immediate_neighbours(c)[kk])),
    decreases k,
{
    let ns = spec_immediate_neighbours(c);
    let d = dir_to(c, ns[kk]);
    if k <= 0 {
        assert(!has_face(dir_faces(world, c, kind, k), c, d));
    } else {
        lemma_dir_faces_open(world, c, kind, k - 1, kk);
        let n = ns[k - 1];
        let rest = dir_faces(world, c, kind, k - 1);
        assert(dir_to(c, ns[0]) == (-1i32, 0i32, 0i32));
        assert(dir_to(c, ns[1]) == (1i32, 0i32, 0i32));
        assert(dir_to(c, ns[2]) == (0i32, -1i32, 0i32));
        assert(dir_to(c, ns[3]) == (0i32, 1i32, 0i32));
        assert(dir_to(c, ns[4]) == (0i32, 0i32, -1i32));
        assert(dir_to(c, ns[5]) == (0i32, 0i32, 1i32));
        assert(dir_to(c, ns[k - 1]) == d <==> k - 1 == kk);
        if open_at(world, n) {
            let f = Face { cell: c, dir: dir_to(c, n), block: kind, lighting: face_lighting(world, n) };
            assert(dir_faces(world, c, kind, k) == rest.push(f));
            assert(rest.push(f) =~= rest + seq![f]);
            lemma_has_face_concat(rest, seq![f], c, d);
            if has_face(seq![f], c, d) {
                let i = choose|i: int| 0 <= i < seq![f].len() && (#[trigger] seq![f][i]).cell == c && seq![f][i].dir == d;
                assert(i == 0);
            }
            if k - 1 == kk {
                assert(seq![f][0] == f);
            }
        }
    }
}

/// The faces of the first `p` cells of box `b` include a face of the block at
/// `c`, a cell of `b`, pointing along `d`, exactly when `c` is among those
/// cells and its own faces include one.
proof fn lemma_faces_before_has(world: GameWorld, b: Bounds<DDD>, p: int, c: DDD, d: DDD)
    requires
        DDD::spec_valid(b),
        0 <= p <= DDD::spec_size(b),
        DDD::spec_in_bounds(c, b),
    ensures
        has_face(faces_before(world, b, p), c, d) <==> (DDD::spec_idx(c, b) < p && has_face(
            cell_faces(world, c),
            c,
            d,
        )),
    decreases p,
{
    if p <= 0 {
        assert(!has_face(faces_before(world, b, p), c, d));
        DDD::lemma_idx_range(c, b);
    } else {
        lemma_faces_before_has(world, b, p - 1, c, d);
        let x = cell_at(b, p - 1);
        lemma_cell_at(b, p - 1);
        lemma_has_face_concat(faces_before(world, b, p - 1), cell_faces(world, x), c, d);
        if let Some(bx) = world.spec_block(x) {
            lemma_dir_faces_cells(world, x, bx.block, 6);
        }
        if has_face(cell_faces(world, x), c, d) {
            let i = choose|i: int|
                0 <= i < cell_faces(world, x).len() && (#[trigger] cell_faces(world, x)[i]).cell == c
                    && cell_faces(world, x)[i].dir == d;
            assert(cell_faces(world, x)[i].cell == x);
        }
        if DDD::spec_idx(c, b) == p - 1 {
            DDD::lemma_idx_injective(c, x, b);
        }
    }
}

/// A block in chunk column `chunk_coord` is drawn with a face toward
/// neighbour `k` exactly when it is a solid cube and that neighbour is not
/// loaded or is not a solid cube: faces show against air, against blocks
/// such as stairs and chests that are not full cubes, and against unloaded
/// ground, and never between two solid cubes or on a block that is not one.
pub proof fn lemma_chunk_faces_open(world: GameWorld, chunk_coord: DD, c: DDD, k: int)
    requires
        world.wf(),
        world.spec_chunks().contains_key(chunk_coord),
        DDD::spec_in_bounds(c, world.spec_chunks()[chunk_coord].spec_bounds()),
        0 <= k < 6,
    ensures
        has_face(
            faces_before(
                world,
                world.spec_chunks()[chunk_coord].spec_bounds(),
                DDD::spec_size(world.spec_chunks()[chunk_coord].spec_bounds()),
            ),
            c,
            dir_to(c, spec_immediate_neighbours(c)[k]),
        ) <==> (world.spec_block(c) matches Some(bc) && bc.block.spec_visible() && !(world.spec_block(
            spec_immediate_neighbours(c)[k],
        ) matches Some(bn) && bn.block.spec_visible())),
{
    let b = world.spec_chunks()[chunk_coord].spec_bounds();
    let d = dir_to(c, spec_immediate_neighbours(c)[k]);
    world.spec_chunks()[chunk_coord].grid.lemma_wf();
    DDD::lemma_idx_range(c, b);
    assert(interior(c)) by {
        let lo = b.0;
        let hi = b.1;
    }
    lemma_faces_before_has(world, b, DDD::spec_size(b), c, d);
    match world.spec_block(c) {
        Some(bc) => {
            if bc.block.spec_visible() {
                lemma_dir_faces_open(world, c, bc.block, 6, k);
            } else {
                assert(!has_face(cell_faces(world, c), c, d));
            }
        },
        None => {
            assert(!has_face(cell_faces(world, c), c, d));
        },
    }
}

/// The faces of chunk column `chunk_coord` to draw: for every cell in
/// row-major order that holds a solid cube, one face toward each neighbour
/// that is not a loaded solid cube, in neighbour order.
pub fn extract_chunk_faces(world: &GameWorld, chunk_coord: DD) -> (r: Vec<Face>)
    requires
        world.wf(),
        world.spec_chunks().contains_key(chunk_coord),
    ensures
        r@ == faces_before(
            *world,
            world.spec_chunks()[chunk_coord].spec_bounds(),
            DDD::spec_size(world.spec_chunks()[chunk_coord].spec_bounds()),
        ),
        forall|c: DDD, k: int|
            DDD::spec_in_bounds(c, world.spec_chunks()[chunk_coord].spec_bounds()) && 0 <= k < 6 ==> (
            #[trigger] has_face(r@, c, dir_to(c, spec_immediate_neighbours(c)[k])) <==> (world.spec_block(
                c,
            ) matches Some(bc) && bc.block.spec_visible() && !(world.spec_block(
                spec_immediate_neighbours(c)[k],
            ) matches Some(bn) && bn.block.spec_visible()))),
{
    let chunk = match world.chunks.get(&chunk_coord) {
        Some(c) => c,
        None => {
            return Vec::new();
        },
    };
    let bounds = chunk.grid.bounds();
    proof {
        chunk.grid.lemma_wf();
        DDD::lemma_valid(bounds);
    }
    let mut faces: Vec<Face> = Vec::new();
    let mut i = bounds.0;
    let mut count: usize = 0;
    loop
        invariant_except_break
            DDD::spec_in_bounds(i, bounds),
            count as int == DDD::spec_idx(i, bounds),
            faces@ == faces_before(*world, bounds, count as int),
        invariant
            world.wf(),
            world.spec_chunks().contains_key(chunk_coord),
            bounds == world.spec_chunks()[chunk_coord].spec_bounds(),
            DDD::spec_valid(bounds),
        ensures
            faces@ == faces_before(*world, bounds, DDD::spec_size(bounds)),
        decreases DDD::spec_size(bounds) - count,
    {
        proof {
            DDD::lemma_idx_range(i, bounds);
            lemma_cell_at(bounds, count as int);
            DDD::lemma_idx_injective(i, cell_at(bounds, count as int), bounds);
            crate::world::lemma_keyed_box(chunk_coord, bounds, i);
            let lo = bounds.0;
            let hi = bounds.1;
            assert(interior(i));
        }
        let ghost before = faces@;
        let block = *world.get(i).unwrap();
        if block.visible() {
            let ns = i.immediate_neighbours();
            let mut k: usize = 0;
            while k < 6
                invariant
                    world.wf(),
                    interior(i),
                    ns@ == spec_immediate_neighbours(i),
                    world.spec_block(i) == Some(block),
                    block.block.spec_visible(),
                    k <= 6,
                    faces@ == before + dir_faces(*world, i, block.block, k as int),
                decreases 6 - k,
            {
                let n = ns[k];
                let open = match world.get(n) {
                    Some(b) => !b.visible(),
                    None => true,
                };
                if open {
                    let lighting = match world.get_light_level(n) {
                        Some(l) => (l.heaven, l.hearth),
                        None => (0, 0),
                    };
                    let dir = crate::coords::sub_ddd(n, i);
                    faces.push(Face { cell: i, dir, block: block.block, lighting });
                }
                proof {
                    assert(faces@ =~= before + dir_faces(*world, i, block.block, k as int + 1));
                }
                k = k + 1;
            }
        }
        proof {
            assert(faces@ =~= faces_before(*world, bounds, count as int + 1));
            DDD::lemma_next(i, bounds);
        }
        match i.next(&bounds) {
            None => {
                break ;
            },
            Some(n) => {
                i = n;
                count = count + 1;
            },
        }
    }
    proof {
        assert forall|c: DDD, k: int|
            DDD::spec_in_bounds(c, bounds) && 0 <= k < 6 implies (#[trigger] has_face(
                faces@,
                c,
                dir_to(c, spec_immediate_neighbours(c)[k]),
            ) <==> (world.spec_block(c) matches Some(bc) && bc.block.spec_visible() && !(
            world.spec_block(spec_immediate_neighbours(c)[k]) matches Some(bn)
                && bn.block.spec_visible()))) by {
            lemma_chunk_faces_open(*world, chunk_coord, c, k);
        }
    }
    faces
}

/// What changed about a block, for relighting.
#[derive(Copy, Clone, PartialEq, Eq, Debug, Structural)]
pub enum RelightType {
    BlockAdded,
    BlockRemoved,
}

/// A request to relight around a block of the client's world.
#[derive(Copy, Clone, Debug)]
pub enum RelightEvent {
    Relight(RelightType, DDD),
    Dummy,
}

/// A request to rebuild the mesh of a chunk column.
#[derive(Copy, Clone, Debug)]
pub enum RemeshEvent {
    Remesh(DD),
    Dummy,
}

/// The chunk columns that the first `n` of `events` ask to remesh, each once
/// in the order of its first request, keeping those that are loaded.
pub open spec fn remesh_order(world: GameWorld, events: Seq<RemeshEvent>, n: int) -> Seq<DD>
    decreases n,
{
    if n <= 0 {
        Seq::empty()
    } else {
        let before = remesh_order(world, events, n - 1);
        match events[n - 1] {
            RemeshEvent::Remesh(d) => if world.spec_chunks().contains_key(d) && !before.contains(d) {
                before.push(d)
            } else {
                before
            },
            RemeshEvent::Dummy => before,
        }
    }
}

/// The chunk columns whose meshes are rebuilt for `events`: each loaded column
/// asked for, once, in the order of its first request.
pub fn chunks_to_remesh(world: &GameWorld, events: &Vec<RemeshEvent>) -> (r: Vec<DD>)
    ensures
        r@ == remesh_order(*world, events@, events@.len() as int),
{
    let mut r: Vec<DD> = Vec::new();
    let n = events.len();
    let mut i: usize = 0;
    while i < n
        invariant
            n == events@.len(),
            i <= n,
            r@ == remesh_order(*world, events@, i as int),
        decreases n - i,
    {
        match events[i] {
            RemeshEvent::Remesh(d) => {
                let mut seen = false;
                let mut k: usize = 0;
                while k < r.len()
                    invariant
                        k <= r@.len(),
                        seen == r@.take(k as int).contains(d),
                    decreases r@.len() - k,
                {
                    let e = r[k];
                    proof {
                        assert(r@.take(k as int + 1) == r@.take(k as int).push(e));
                    }
                    if e.0 == d.0 && e.1 == d.1 {
                        seen = true;
                    }
                    proof {
                        let t = r@.take(k as int);
                        let u = t.push(e);
                        if e == d {
                            assert(u[t.len() as int] == d);
                        }
                        if u.contains(d) && e != d {
                            let j = choose|j: int| 0 <= j < u.len() && u[j] == d;
                            assert(t[j] == d);
                        }
                        if t.contains(d) {
                            let j = choose|j: int| 0 <= j < t.len() && t[j] == d;
                            assert(u[j] == d);
                        }
                    }
                    k = k + 1;
                }
                proof {
                    assert(r@.take(r@.len() as int) == r@);
                }
                if !seen && world.chunk(d).is_some() {
                    r.push(d);
                }
            },
            RemeshEvent::Dummy => {},
        }
        i = i + 1;
    }
    r
}

} // verus!
