//! The client's view of the world's blocks: rows 0 to 255 only, and light
//! kept only where no solid cube stands.

use vstd::prelude::*;
use crate::blocks::Block;
use crate::coords::{spec_immediate_neighbours, ImmediateNeighbours, DDD};
use crate::light::{block_fn, light_fn, light_set, LightLevel};
use crate::world::{chunk_key, interior, keyable, GameWorld};
use crate::array::ArrayIndex;

verus! {

/// A loaded chunk as the client tracks it: the entity that holds it.
#[derive(Copy, Clone, PartialEq, Eq, Debug, Structural)]
pub struct ChunkMeta {
    pub entity: u64,
}

impl ChunkMeta {
    /// The record of a chunk held by `entity`.
    pub fn new(entity: u64) -> (r: ChunkMeta)
        ensures
            r.entity == entity,
    {
        ChunkMeta { entity }
    }
}

/// Whether row `y` is one the client keeps (0 to 255).
pub open spec fn row_kept(y: i32) -> bool {
    0 <= y <= 255
}

/// The block at `c`: none outside rows 0 to 255, otherwise the loaded block.
pub fn get_single(world: &GameWorld, c: DDD) -> (r: Option<&Block>)
    requires
        world.wf(),
        keyable(c),
    ensures
        match r {
            Some(b) => row_kept(c.1) && world.spec_block(c) == Some(*b),
            None => !row_kept(c.1) || world.spec_block(c) is None,
        },
{
    if c.1 < 0 || c.1 > 255 {
        return None;
    }
    world.get(c)
}

/// The light at `c` as the client sees it: none where no block is loaded or
/// where a solid cube stands.
pub open spec fn spec_client_light(world: GameWorld, c: DDD) -> Option<LightLevel> {
    match world.spec_block(c) {
        Some(b) => if b.block.spec_visible() {
            None
        } else {
            world.spec_light(c)
        },
        None => None,
    }
}

/// The light at `c` as the client sees it.
pub fn get_light_level(world: &GameWorld, c: DDD) -> (r: Option<LightLevel>)
    requires
        world.wf(),
        keyable(c),
    ensures
        r == spec_client_light(*world, c),
{
    match world.get(c) {
        Some(b) => {
            if b.visible() {
                None
            } else {
                world.get_light_level(c)
            }
        },
        None => None,
    }
}

/// Stores `light` at `c` unless a solid cube stands there or no block is loaded.
pub fn set_light_level(world: &mut GameWorld, c: DDD, light: LightLevel)
    requires
        old(world).wf(),
        keyable(c),
    ensures
        final(world).wf(),
        final(world).generating == old(world).generating,
        final(world).spec_chunks().dom() == old(world).spec_chunks().dom(),
        forall|d: DDD| #[trigger] final(world).spec_block(d) == old(world).spec_block(d),
        forall|d: DDD|
            #[trigger] final(world).spec_light(d) == if d == c && (old(world).spec_block(c) matches Some(
                b,
            ) && !b.block.spec_visible()) {
                Some(light)
            } else {
                old(world).spec_light(d)
            },
{
    let open = match world.get(c) {
        Some(b) => !b.visible(),
        None => false,
    };
    if open {
        proof {
            let k = chunk_key(c);
            assert(world.spec_chunks().contains_key(k));
            assert(world.spec_chunks()[k].wf());
        }
        let _ = world.set_light_level(c, light);
    }
}

/// Whether the coordinates are pairwise distinct, as asked of blocks borrowed
/// together.
pub fn all_distinct(cs: &Vec<DDD>) -> (r: bool)
    ensures
        r == cs@.no_duplicates(),
{
    let n = cs.len();
    let mut i: usize = 0;
    while i < n
        invariant
            n == cs@.len(),
            i <= n,
            forall|a: int, b: int| 0 <= a < b < i ==> cs@[a] != cs@[b],
        decreases n - i,
    {
        let mut j: usize = 0;
        while j < i
            invariant
                n == cs@.len(),
                j <= i < n,
                forall|a: int, b: int| 0 <= a < b < i ==> cs@[a] != cs@[b],
                forall|a: int| 0 <= a < j ==> cs@[a] != cs@[i as int],
            decreases i - j,
        {
            let x = cs[i];
            let y = cs[j];
            if x.0 == y.0 && x.1 == y.1 && x.2 == y.2 {
                proof {
                    assert(cs@[j as int] == cs@[i as int]);
                }
                return false;
            }
            j = j + 1;
        }
        i = i + 1;
    }
    true
}

/// The blocks at several coordinates at once: `None` when two coordinates
/// are the same, or one lies outside rows 0 to 255 or in no loaded block;
/// otherwise the block at each coordinate, in order.
pub fn get_many(world: &GameWorld, cs: &Vec<DDD>) -> (r: Option<Vec<Block>>)
    requires
        world.wf(),
        forall|i: int| 0 <= i < cs@.len() ==> keyable(#[trigger] cs@[i]),
    ensures
        r is Some <==> cs@.no_duplicates() && forall|i: int|
            0 <= i < cs@.len() ==> row_kept((#[trigger] cs@[i]).1) && world.spec_block(cs@[i]) is Some,
        r matches Some(v) ==> v@.len() == cs@.len() && forall|i: int|
            0 <= i < cs@.len() ==> Some(#[trigger] v@[i]) == world.spec_block(cs@[i]),
{
    if !all_distinct(cs) {
        return None;
    }
    let n = cs.len();
    let mut v: Vec<Block> = Vec::new();
    let mut i: usize = 0;
    while i < n
        invariant
            n == cs@.len(),
            i <= n,
            world.wf(),
            forall|k: int| 0 <= k < cs@.len() ==> keyable(#[trigger] cs@[k]),
            v@.len() == i,
            forall|k: int|
                0 <= k < i ==> row_kept((#[trigger] cs@[k]).1) && Some(v@[k]) == world.spec_block(cs@[k]),
        decreases n - i,
    {
        match get_single(world, cs[i]) {
            Some(b) => {
                v.push(*b);
            },
            None => {
                return None;
            },
        }
        i = i + 1;
    }
    Some(v)
}

/// The light at a cell did not dim: both stored or both absent, with sky and
/// source light no lower and the cell's own emission unchanged.
pub open spec fn no_dimmer(before: Option<LightLevel>, after: Option<LightLevel>) -> bool {
    match (before, after) {
        (Some(a), Some(b)) => a.heaven <= b.heaven && a.hearth <= b.hearth && a.light_source == b.light_source,
        (None, None) => true,
        _ => false,
    }
}

/// How spreading light may change the world: blocks stay, and light changes
/// only where no solid cube stands and never dims.
pub open spec fn spreads_from(before: GameWorld, after: GameWorld) -> bool {
    &&& after.wf()
    &&& after.generating == before.generating
    &&& after.spec_chunks().dom() == before.spec_chunks().dom()
    &&& forall|d: DDD| #[trigger] after.spec_block(d) == before.spec_block(d)
    &&& forall|d: DDD| #[trigger] after.spec_light(d) != before.spec_light(d)
        ==> (before.spec_block(d) matches Some(b) && !b.block.spec_visible())
    &&& forall|d: DDD| no_dimmer(before.spec_light(d), #[trigger] after.spec_light(d))
}

/// The light at `d` as the client sees it, for the given blocks and light
/// levels: none where no block is loaded or where a solid cube stands.
pub open spec fn client_light_in(
    blocks: spec_fn(DDD) -> Option<Block>,
    lights: spec_fn(DDD) -> Option<LightLevel>,
    d: DDD,
) -> Option<LightLevel> {
    match blocks(d) {
        Some(b) => if b.block.spec_visible() {
            None
        } else {
            lights(d)
        },
        None => None,
    }
}

/// The last sky-light offer, among the first `k` cells of `ns`, that is
/// brighter than `cur`: each neighbour `n` of `c` with a light level offers
/// its sky light less one, or as is when `n` lies directly above `c`.
pub open spec fn last_sky_offer(
    blocks: spec_fn(DDD) -> Option<Block>,
    lights: spec_fn(DDD) -> Option<LightLevel>,
    c: DDD,
    cur: LightLevel,
    ns: Seq<DDD>,
    k: int,
) -> Option<u8>
    decreases k,
{
    if k <= 0 {
        None
    } else {
        let n = ns[k - 1];
        match client_light_in(blocks, lights, n) {
            Some(l) => {
                let h: int = l.heaven + if n.1 - c.1 == 1 {
                    1int
                } else {
                    0int
                };
                if cur.heaven < h - 1 {
                    Some((h - 1) as u8)
                } else {
                    last_sky_offer(blocks, lights, c, cur, ns, k - 1)
                }
            },
            None => last_sky_offer(blocks, lights, c, cur, ns, k - 1),
        }
    }
}

/// The last source-light offer, among the first `k` cells of `ns`, that is
/// brighter than `cur`: each of them with a light level offers its source
/// light less one.
pub open spec fn last_source_offer(
    blocks: spec_fn(DDD) -> Option<Block>,
    lights: spec_fn(DDD) -> Option<LightLevel>,
    cur: LightLevel,
    ns: Seq<DDD>,
    k: int,
) -> Option<u8>
    decreases k,
{
    if k <= 0 {
        None
    } else {
        match client_light_in(blocks, lights, ns[k - 1]) {
            Some(l) => if cur.hearth < l.hearth - 1 {
                Some((l.hearth - 1) as u8)
            } else {
                last_source_offer(blocks, lights, cur, ns, k - 1)
            },
            None => last_source_offer(blocks, lights, cur, ns, k - 1),
        }
    }
}

/// The light level that spreading gives `c` in its first step, or `None` when
/// `c` holds no light level the client sees or no neighbour offers more: the
/// last brighter offers replace `c`'s sky and source light.
pub open spec fn spread_step(
    blocks: spec_fn(DDD) -> Option<Block>,
    lights: spec_fn(DDD) -> Option<LightLevel>,
    c: DDD,
) -> Option<LightLevel> {
    match client_light_in(blocks, lights, c) {
        None => None,
        Some(cur) => {
            let ns = spec_immediate_neighbours(c);
            let h = last_sky_offer(blocks, lights, c, cur, ns, 6);
            let s = last_source_offer(blocks, lights, cur, ns, 6);
            if h is None && s is None {
                None
            } else {
                Some(
                    LightLevel::spec_new(
                        match h {
                            Some(v) => v,
                            None => cur.heaven,
                        },
                        match s {
                            Some(v) => v,
                            None => cur.hearth,
                        },
                        cur.light_source,
                    ),
                )
            }
        },
    }
}

/// Spreading light from `c` with at most `fuel` cells looked at: when a cell
/// is looked at and [`spread_step`] brightens it, light is spread on from its
/// six neighbours in turn with the fuel that is left. The light levels it
/// ends with, and the fuel left.
pub open spec fn spread_run(
    blocks: spec_fn(DDD) -> Option<Block>,
    lights: spec_fn(DDD) -> Option<LightLevel>,
    c: DDD,
    fuel: nat,
) -> (spec_fn(DDD) -> Option<LightLevel>, nat)
    decreases fuel, 0int,
{
    if fuel == 0 {
        (lights, 0)
    } else {
        match spread_step(blocks, lights, c) {
            None => (lights, (fuel - 1) as nat),
            Some(l) => spread_children(
                blocks,
                light_set(lights, c, l),
                spec_immediate_neighbours(c),
                0,
                (fuel - 1) as nat,
            ),
        }
    }
}

/// Spreading light from the cells `ns[j]`, `ns[j + 1]`, ... up to the sixth,
/// one after the other, each with the fuel the one before left.
pub open spec fn spread_children(
    blocks: spec_fn(DDD) -> Option<Block>,
    lights: spec_fn(DDD) -> Option<LightLevel>,
    ns: Seq<DDD>,
    j: int,
    fuel: nat,
) -> (spec_fn(DDD) -> Option<LightLevel>, nat)
    decreases fuel, 7 - j,
{
    if j < 0 || j >= 6 {
        (lights, fuel)
    } else {
        let after = spread_run(blocks, lights, ns[j], fuel);
        spread_children(
            blocks,
            after.0,
            ns,
            j + 1,
            if after.1 <= fuel {
                after.1
            } else {
                fuel
            },
        )
    }
}

/// The offer of neighbour `n` of `c`, holding light `l` if any, stays in the
/// byte range: a neighbour directly above has sky light below 255, any other
/// has sky light of at least 1, and each has source light of at least 1.
pub open spec fn offer_in_range(c: DDD, n: DDD, l: Option<LightLevel>) -> bool {
    match l {
        Some(l) => (if n.1 - c.1 == 1 {
            l.heaven <= 254
        } else {
            l.heaven >= 1
        }) && l.hearth >= 1,
        None => true,
    }
}

/// Every neighbour's offer to `c` stays in the byte range.
pub open spec fn offers_in_range(
    blocks: spec_fn(DDD) -> Option<Block>,
    lights: spec_fn(DDD) -> Option<LightLevel>,
    c: DDD,
) -> bool {
    forall|k: int|
        0 <= k < 6 ==> offer_in_range(
            c,
            spec_immediate_neighbours(c)[k],
            client_light_in(blocks, lights, #[trigger] spec_immediate_neighbours(c)[k]),
        )
}

/// Spreading from `c` with `fuel`, as [`spread_run`] does it, only meets
/// offers in the byte range: at every cell it looks at that holds light.
pub open spec fn spread_safe(
    blocks: spec_fn(DDD) -> Option<Block>,
    lights: spec_fn(DDD) -> Option<LightLevel>,
    c: DDD,
    fuel: nat,
) -> bool
    decreases fuel, 0int,
{
    if fuel == 0 {
        true
    } else {
        match client_light_in(blocks, lights, c) {
            None => true,
            Some(_) => offers_in_range(blocks, lights, c) && match spread_step(blocks, lights, c) {
                None => true,
                Some(l) => children_safe(
                    blocks,
                    light_set(lights, c, l),
                    spec_immediate_neighbours(c),
                    0,
                    (fuel - 1) as nat,
                ),
            },
        }
    }
}

/// Spreading from `ns[j]`, `ns[j + 1]`, ... up to the sixth, as
/// [`spread_children`] does it, only meets offers in the byte range.
pub open spec fn children_safe(
    blocks: spec_fn(DDD) -> Option<Block>,
    lights: spec_fn(DDD) -> Option<LightLevel>,
    ns: Seq<DDD>,
    j: int,
    fuel: nat,
) -> bool
    decreases fuel, 7 - j,
{
    if j < 0 || j >= 6 {
        true
    } else {
        let after = spread_run(blocks, lights, ns[j], fuel);
        spread_safe(blocks, lights, ns[j], fuel) && children_safe(
            blocks,
            after.0,
            ns,
            j + 1,
            if after.1 <= fuel {
                after.1
            } else {
                fuel
            },
        )
    }
}

/// An offer that [`last_sky_offer`] finds is brighter than the cell's sky light.
proof fn lemma_sky_offer_brighter(
    blocks: spec_fn(DDD) -> Option<Block>,
    lights: spec_fn(DDD) -> Option<LightLevel>,
    c: DDD,
    cur: LightLevel,
    ns: Seq<DDD>,
    k: int,
)
    ensures
        last_sky_offer(blocks, lights, c, cur, ns, k) matches Some(v) ==> cur.heaven < v,
    decreases k,
{
    if k > 0 {
        lemma_sky_offer_brighter(blocks, lights, c, cur, ns, k - 1);
    }
}

/// An offer that [`last_source_offer`] finds is brighter than the cell's source light.
proof fn lemma_source_offer_brighter(
    blocks: spec_fn(DDD) -> Option<Block>,
    lights: spec_fn(DDD) -> Option<LightLevel>,
    cur: LightLevel,
    ns: Seq<DDD>,
    k: int,
)
    ensures
        last_source_offer(blocks, lights, cur, ns, k) matches Some(v) ==> cur.hearth < v,
    decreases k,
{
    if k > 0 {
        lemma_source_offer_brighter(blocks, lights, cur, ns, k - 1);
    }
}

/// A first step of spreading only brightens the cell it is taken at.
proof fn lemma_step_no_dim(
    blocks: spec_fn(DDD) -> Option<Block>,
    lights: spec_fn(DDD) -> Option<LightLevel>,
    c: DDD,
)
    ensures
        spread_step(blocks, lights, c) matches Some(l) ==> forall|d: DDD|
            no_dimmer(lights(d), #[trigger] light_set(lights, c, l)(d)),
{
    if let Some(l) = spread_step(blocks, lights, c) {
        let cur = client_light_in(blocks, lights, c)->0;
        let ns = spec_immediate_neighbours(c);
        lemma_sky_offer_brighter(blocks, lights, c, cur, ns, 6);
        lemma_source_offer_brighter(blocks, lights, cur, ns, 6);
        assert forall|d: DDD| no_dimmer(lights(d), #[trigger] light_set(lights, c, l)(d)) by {
            if d == c {
                assert(lights(c) == Some(cur));
            } else {
                if let Some(a) = lights(d) {
                    assert(no_dimmer(Some(a), Some(a)));
                }
            }
        }
    }
}

/// Spreading light never dims a cell.
proof fn lemma_run_no_dim(
    blocks: spec_fn(DDD) -> Option<Block>,
    lights: spec_fn(DDD) -> Option<LightLevel>,
    c: DDD,
    fuel: nat,
)
    ensures
        forall|d: DDD| no_dimmer(lights(d), #[trigger] spread_run(blocks, lights, c, fuel).0(d)),
    decreases fuel, 0int,
{
    if fuel == 0 || spread_step(blocks, lights, c) is None {
        assert forall|d: DDD| no_dimmer(lights(d), #[trigger] spread_run(blocks, lights, c, fuel).0(d)) by {
            if let Some(a) = lights(d) {
                assert(no_dimmer(Some(a), Some(a)));
            }
        }
    } else {
        let l = spread_step(blocks, lights, c)->0;
        let l1 = light_set(lights, c, l);
        lemma_step_no_dim(blocks, lights, c);
        lemma_children_no_dim(blocks, l1, spec_immediate_neighbours(c), 0, (fuel - 1) as nat);
        assert forall|d: DDD| no_dimmer(lights(d), #[trigger] spread_run(blocks, lights, c, fuel).0(d)) by {
            assert(no_dimmer(lights(d), l1(d)));
            assert(no_dimmer(l1(d), spread_children(blocks, l1, spec_immediate_neighbours(c), 0, (fuel - 1) as nat).0(d)));
        }
    }
}

/// Spreading light from a run of neighbours never dims a cell.
proof fn lemma_children_no_dim(
    blocks: spec_fn(DDD) -> Option<Block>,
    lights: spec_fn(DDD) -> Option<LightLevel>,
    ns: Seq<DDD>,
    j: int,
    fuel: nat,
)
    ensures
        forall|d: DDD| no_dimmer(lights(d), #[trigger] spread_children(blocks, lights, ns, j, fuel).0(d)),
    decreases fuel, 7 - j,
{
    if j < 0 || j >= 6 {
        assert forall|d: DDD| no_dimmer(lights(d), #[trigger] spread_children(blocks, lights, ns, j, fuel).0(d)) by {
            if let Some(a) = lights(d) {
                assert(no_dimmer(Some(a), Some(a)));
            }
        }
    } else {
        let after = spread_run(blocks, lights, ns[j], fuel);
        let f2 = if after.1 <= fuel {
            after.1
        } else {
            fuel
        };
        lemma_run_no_dim(blocks, lights, ns[j], fuel);
        lemma_children_no_dim(blocks, after.0, ns, j + 1, f2);
        assert forall|d: DDD| no_dimmer(lights(d), #[trigger] spread_children(blocks, lights, ns, j, fuel).0(d)) by {
            assert(no_dimmer(lights(d), after.0(d)));
            assert(no_dimmer(after.0(d), spread_children(blocks, after.0, ns, j + 1, f2).0(d)));
        }
    }
}

/// Neighbours whose first step changes nothing are passed over, one unit of
/// fuel each.
proof fn lemma_children_skip(
    blocks: spec_fn(DDD) -> Option<Block>,
    lights: spec_fn(DDD) -> Option<LightLevel>,
    ns: Seq<DDD>,
    j: int,
    k: int,
    fuel: nat,
)
    requires
        0 <= j <= k < 6,
        k - j < fuel,
        forall|i: int| j <= i < k ==> spread_step(blocks, lights, #[trigger] ns[i]) is None,
    ensures
        spread_children(blocks, lights, ns, j, fuel) == spread_children(
            blocks,
            lights,
            ns,
            k,
            (fuel - (k - j)) as nat,
        ),
    decreases k - j,
{
    if j < k {
        assert(spread_step(blocks, lights, ns[j]) is None);
        assert(spread_run(blocks, lights, ns[j], fuel) == (lights, (fuel - 1) as nat));
        lemma_children_skip(blocks, lights, ns, j + 1, k, (fuel - 1) as nat);
    }
}

/// When `c` brightens, light is spread on from each of its six face
/// neighbours, -x, +x, -y, +y, -z, +z in turn: when the neighbours before
/// neighbour `k` take nothing from the brightened `c` and neighbour `k` does,
/// neighbour `k` ends at least as bright as that first step makes it.
pub proof fn lemma_spread_reaches_neighbour(
    blocks: spec_fn(DDD) -> Option<Block>,
    lights: spec_fn(DDD) -> Option<LightLevel>,
    c: DDD,
    fuel: nat,
    k: int,
    l: LightLevel,
    l2: LightLevel,
)
    requires
        spread_step(blocks, lights, c) == Some(l),
        0 <= k < 6,
        k + 2 <= fuel,
        forall|j: int|
            0 <= j < k ==> spread_step(
                blocks,
                light_set(lights, c, l),
                #[trigger] spec_immediate_neighbours(c)[j],
            ) is None,
        spread_step(blocks, light_set(lights, c, l), spec_immediate_neighbours(c)[k]) == Some(l2),
    ensures
        spread_run(blocks, lights, c, fuel).0(spec_immediate_neighbours(c)[k]) matches Some(f) && l2.heaven
            <= f.heaven && l2.hearth <= f.hearth,
{
    let ns = spec_immediate_neighbours(c);
    let l1 = light_set(lights, c, l);
    let n = ns[k];
    let f1 = (fuel - 1) as nat;
    lemma_children_skip(blocks, l1, ns, 0, k, f1);
    let fk = (f1 - k) as nat;
    let after = spread_run(blocks, l1, n, fk);
    let l3 = light_set(l1, n, l2);
    assert(fk >= 1);
    assert(spread_run(blocks, lights, c, fuel) == spread_children(blocks, l1, ns, 0, f1));
    assert(after == spread_children(blocks, l3, spec_immediate_neighbours(n), 0, (fk - 1) as nat));
    lemma_children_no_dim(blocks, l3, spec_immediate_neighbours(n), 0, (fk - 1) as nat);
    assert(l3(n) == Some(l2));
    assert(no_dimmer(l3(n), after.0(n)));
    let f2 = if after.1 <= fk {
        after.1
    } else {
        fk
    };
    assert(spread_children(blocks, l1, ns, k, fk) == spread_children(blocks, after.0, ns, k + 1, f2));
    lemma_children_no_dim(blocks, after.0, ns, k + 1, f2);
    assert(no_dimmer(after.0(n), spread_children(blocks, after.0, ns, k + 1, f2).0(n)));
}

/// What spreading from `c` does: when no neighbour offers `c` more, nothing
/// changes; otherwise `c` ends at least as bright as its first step makes it.
pub open spec fn spreads_at(before: GameWorld, after: GameWorld, c: DDD) -> bool {
    match spread_step(block_fn(before), light_fn(before), c) {
        None => forall|d: DDD| #[trigger] after.spec_light(d) == before.spec_light(d),
        Some(l) => after.spec_light(c) matches Some(f) && l.heaven <= f.heaven && l.hearth <= f.hearth,
    }
}

/// A loaded cell lies in the interior of the coordinate space.
proof fn lemma_loaded_interior(world: GameWorld, c: DDD)
    requires
        world.wf(),
        world.spec_block(c) is Some,
    ensures
        interior(c),
{
    let k = chunk_key(c);
    assert(world.spec_chunks().contains_key(k));
    assert(crate::world::interior_box(world.spec_chunks()[k].spec_bounds()));
}

/// Spreading light one call at a time, with at most `*budget` calls.
fn propagate_light_within(world: &mut GameWorld, c: DDD, budget: &mut u64)
    requires
        old(world).wf(),
        spread_safe(block_fn(*old(world)), light_fn(*old(world)), c, *old(budget) as nat),
        keyable(c),
    ensures
        spreads_from(*old(world), *final(world)),
        *final(budget) <= *old(budget),
        *old(budget) > 0 ==> spreads_at(*old(world), *final(world), c),
        (light_fn(*final(world)), *final(budget) as nat) == spread_run(
            block_fn(*old(world)),
            light_fn(*old(world)),
            c,
            *old(budget) as nat,
        ),
    decreases *old(budget),
{
    if *budget == 0 {
        return;
    }
    *budget = *budget - 1;
    let current = match get_light_level(world, c) {
        Some(l) => l,
        None => {
            return;
        },
    };
    proof {
        lemma_loaded_interior(*world, c);
        assert(offers_in_range(block_fn(*world), light_fn(*world), c));
    }
    let ns = c.immediate_neighbours();
    let mut new_heaven: Option<u8> = None;
    let mut new_hearth: Option<u8> = None;
    let mut i: usize = 0;
    while i < 6
        invariant
            world.wf(),
            offers_in_range(block_fn(*world), light_fn(*world), c),
            interior(c),
            ns@ == spec_immediate_neighbours(c),
            i <= 6,
            new_heaven matches Some(h) ==> current.heaven < h <= 254,
            new_hearth matches Some(h) ==> current.hearth < h,
            *world == *old(world),
            spec_client_light(*world, c) == Some(current),
            new_heaven == last_sky_offer(block_fn(*world), light_fn(*world), c, current, ns@, i as int),
            new_hearth == last_source_offer(block_fn(*world), light_fn(*world), current, ns@, i as int),
        decreases 6 - i,
    {
        let n = ns[i];
        match get_light_level(world, n) {
            Some(l) => {
                proof {
                    assert(n == spec_immediate_neighbours(c)[i as int]);
                    assert(offer_in_range(c, n, client_light_in(block_fn(*world), light_fn(*world), n)));
                }
                let heaven: u8 = if n.1 - c.1 == 1 {
                    l.heaven + 1
                } else {
                    l.heaven
                };
                if current.heaven < heaven - 1 {
                    new_heaven = Some(heaven - 1);
                }
                if current.hearth < l.hearth - 1 {
                    new_hearth = Some(l.hearth - 1);
                }
            },
            None => {},
        }
        i = i + 1;
    }
    if new_heaven.is_none() && new_hearth.is_none() {
        return;
    }
    let heaven = match new_heaven {
        Some(h) => h,
        None => current.heaven,
    };
    let hearth = match new_hearth {
        Some(h) => h,
        None => current.hearth,
    };
    let ghost w0 = *world;
    let ghost step = LightLevel::spec_new(heaven, hearth, current.light_source);
    assert(spread_step(block_fn(w0), light_fn(w0), c) == Some(step));
    set_light_level(world, c, LightLevel::new(heaven, hearth, current.light_source));
    proof {
        assert(light_fn(*world) =~= light_set(light_fn(w0), c, step));
        assert(block_fn(*world) =~= block_fn(w0));
    }
    proof {
        assert forall|d: DDD| no_dimmer(w0.spec_light(d), #[trigger] world.spec_light(d)) by {
            if d == c {
                assert(w0.spec_light(c) == Some(current));
            }
        }
    }
    let mut j: usize = 0;
    while j < 6
        invariant
            spreads_from(*old(world), *world),
            interior(c),
            ns@ == spec_immediate_neighbours(c),
            *budget < *old(budget),
            j <= 6,
            spread_step(block_fn(*old(world)), light_fn(*old(world)), c) == Some(step),
            world.spec_light(c) matches Some(f) && step.heaven <= f.heaven && step.hearth <= f.hearth,
            spread_children(block_fn(*old(world)), light_fn(*world), ns@, j as int, *budget as nat)
                == spread_run(block_fn(*old(world)), light_fn(*old(world)), c, *old(budget) as nat),
            children_safe(block_fn(*old(world)), light_fn(*world), ns@, j as int, *budget as nat),
        decreases 6 - j,
    {
        let ghost w1 = *world;
        let ghost b1 = *budget;
        proof {
            assert(block_fn(w1) =~= block_fn(*old(world)));
        }
        propagate_light_within(world, ns[j], budget);
        proof {
            assert(spread_children(block_fn(*old(world)), light_fn(w1), ns@, j as int, b1 as nat)
                == spread_children(block_fn(*old(world)), light_fn(*world), ns@, j as int + 1, *budget as nat));
            assert forall|d: DDD| no_dimmer(old(world).spec_light(d), #[trigger] world.spec_light(d)) by {
                assert(no_dimmer(old(world).spec_light(d), w1.spec_light(d)));
                assert(no_dimmer(w1.spec_light(d), world.spec_light(d)));
            }
            assert(no_dimmer(w1.spec_light(c), world.spec_light(c)));
            assert forall|d: DDD| #[trigger] world.spec_light(d) != old(world).spec_light(d)
                implies (old(world).spec_block(d) matches Some(b) && !b.block.spec_visible()) by {
                if w1.spec_light(d) != old(world).spec_light(d) {
                } else {
                    assert(world.spec_light(d) != w1.spec_light(d));
                    assert(w1.spec_block(d) == old(world).spec_block(d));
                }
            }
        }
        j = j + 1;
    }
}

/// Spreads light into `c` from its neighbours and on through the world.
///
/// When `c` holds a light level the client sees, each neighbour with one
/// offers its sky light less one (a neighbour directly above offers its sky
/// light as is) and its source light less one; the last offer brighter than
/// what `c` holds, in neighbour order, becomes `c`'s new sky or source light.
/// When `c` brightened, light is spread the same way from each of its six
/// neighbours in turn. At most `u64::MAX` cells are looked at. Every offer
/// the spreading meets must stay in the byte range ([`spread_safe`]).
pub fn propagate_light(world: &mut GameWorld, c: DDD)
    requires
        old(world).wf(),
        spread_safe(block_fn(*old(world)), light_fn(*old(world)), c, u64::MAX as nat),
        keyable(c),
    ensures
        spreads_from(*old(world), *final(world)),
        spreads_at(*old(world), *final(world), c),
        light_fn(*final(world)) == spread_run(
            block_fn(*old(world)),
            light_fn(*old(world)),
            c,
            u64::MAX as nat,
        ).0,
{
    let mut budget: u64 = u64::MAX;
    propagate_light_within(world, c, &mut budget);
}

} // verus!
