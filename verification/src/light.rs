//! Light levels and their propagation through the world.

use vstd::prelude::*;
use std::collections::VecDeque;
use crate::array::Zeroed;
use crate::array::ArrayIndex;
use crate::blocks::Block;
use crate::coords::{spec_immediate_neighbours, ImmediateNeighbours, DDD};
use crate::store::{coord_set_contents, CoordSet};
use crate::world::{interior, GameWorld};

verus! {

/// The light of a world cell: sky light (`heaven`), light from light sources
/// (`hearth`), and the light the cell itself emits (`light_source`).
#[derive(Copy, Clone, PartialEq, Eq, Debug, Structural)]
pub struct LightLevel {
    pub heaven: u8,
    pub hearth: u8,
    pub light_source: u8,
}

impl LightLevel {
    /// The light level with the given parts.
    pub open spec fn spec_new(heaven: u8, hearth: u8, light_source: u8) -> LightLevel {
        LightLevel { heaven, hearth, light_source }
    }

    /// The light level with the given parts.
    pub fn new(heaven: u8, hearth: u8, light_source: u8) -> (r: LightLevel)
        ensures
            r == LightLevel::spec_new(heaven, hearth, light_source),
    {
        LightLevel { heaven, hearth, light_source }
    }

    /// No light at all.
    pub fn dark() -> (r: LightLevel)
        ensures
            r == LightLevel::spec_new(0, 0, 0),
    {
        LightLevel { heaven: 0, hearth: 0, light_source: 0 }
    }

    /// The eight bytes a shader reads for this light level: the source light,
    /// three zero bytes, the sky light, three zero bytes.
    pub fn write_into(&self) -> (r: [u8; 8])
        ensures
            r@ == seq![self.hearth, 0u8, 0u8, 0u8, self.heaven, 0u8, 0u8, 0u8],
    {
        let r = [self.hearth, 0, 0, 0, self.heaven, 0, 0, 0];
        assert(r@ =~= seq![self.hearth, 0u8, 0u8, 0u8, self.heaven, 0u8, 0u8, 0u8]);
        r
    }
}

impl Zeroed for LightLevel {
    open spec fn spec_zeroed() -> LightLevel {
        LightLevel::spec_new(0, 0, 0)
    }

    fn zeroed() -> (r: LightLevel) {
        LightLevel::dark()
    }
}

/// The larger of two bytes.
pub open spec fn max_u8(a: u8, b: u8) -> u8 {
    if a >= b {
        a
    } else {
        b
    }
}

/// One less than `x`, but never below 0.
pub open spec fn sat_dec(x: u8) -> u8 {
    if x == 0 {
        0
    } else {
        (x - 1) as u8
    }
}

/// The light levels of a world, by cell.
pub open spec fn light_fn(world: GameWorld) -> spec_fn(DDD) -> Option<LightLevel> {
    |d: DDD| world.spec_light(d)
}

/// The blocks of a world, by cell.
pub open spec fn block_fn(world: GameWorld) -> spec_fn(DDD) -> Option<Block> {
    |d: DDD| world.spec_block(d)
}

/// `lights` with the light level at `c` replaced by `l`.
pub open spec fn light_set(
    lights: spec_fn(DDD) -> Option<LightLevel>,
    c: DDD,
    l: LightLevel,
) -> spec_fn(DDD) -> Option<LightLevel> {
    |d: DDD|
        if d == c {
            Some(l)
        } else {
            lights(d)
        }
}

/// Sky light at `n`, or 0 where no light level is stored.
pub open spec fn heaven_of(lights: spec_fn(DDD) -> Option<LightLevel>, n: DDD) -> u8 {
    match lights(n) {
        Some(l) => l.heaven,
        None => 0,
    }
}

/// Source light at `n`, or 0 where no light level is stored.
pub open spec fn hearth_of(lights: spec_fn(DDD) -> Option<LightLevel>, n: DDD) -> u8 {
    match lights(n) {
        Some(l) => l.hearth,
        None => 0,
    }
}

/// The largest sky light among the first `k` coordinates of `ns` (0 if none).
pub open spec fn max_heaven_upto(lights: spec_fn(DDD) -> Option<LightLevel>, ns: Seq<DDD>, k: int) -> u8
    decreases k,
{
    if k <= 0 {
        0
    } else {
        max_u8(max_heaven_upto(lights, ns, k - 1), heaven_of(lights, ns[k - 1]))
    }
}

/// The largest source light among the first `k` coordinates of `ns` (0 if none).
pub open spec fn max_hearth_upto(lights: spec_fn(DDD) -> Option<LightLevel>, ns: Seq<DDD>, k: int) -> u8
    decreases k,
{
    if k <= 0 {
        0
    } else {
        max_u8(max_hearth_upto(lights, ns, k - 1), hearth_of(lights, ns[k - 1]))
    }
}

/// The sky light that open sky grants from above: 17 when the cell above `c`
/// holds full sky light (16) and `c` is at row 29 or higher, else 0.
pub open spec fn sky_bonus(lights: spec_fn(DDD) -> Option<LightLevel>, c: DDD) -> u8 {
    if heaven_of(lights, (c.0, (c.1 + 1) as i32, c.2)) == 16 && c.1 >= 29 {
        17
    } else {
        0
    }
}

/// The sky light `c` should hold: one less than the brightest of its
/// neighbours and the sky bonus.
pub open spec fn target_heaven(lights: spec_fn(DDD) -> Option<LightLevel>, c: DDD) -> u8 {
    sat_dec(max_u8(max_heaven_upto(lights, spec_immediate_neighbours(c), 6), sky_bonus(lights, c)))
}

/// One less than the brightest source light among the neighbours of `c`.
pub open spec fn target_hearth(lights: spec_fn(DDD) -> Option<LightLevel>, c: DDD) -> u8 {
    sat_dec(max_hearth_upto(lights, spec_immediate_neighbours(c), 6))
}

/// Whether light level `l` differs from what its neighbours call for.
pub open spec fn needs_relight(l: LightLevel, heaven: u8, hearth: u8) -> bool {
    (l.light_source < max_u8(hearth, l.hearth) && l.hearth != hearth) || l.heaven != heaven
}

/// The light level that replaces `l`: the target sky light, and the brightest
/// of its own source, its own source light and the target source light.
pub open spec fn relit(l: LightLevel, heaven: u8, hearth: u8) -> LightLevel {
    LightLevel::spec_new(heaven, max_u8(l.light_source, max_u8(l.hearth, hearth)), l.light_source)
}

/// Whether relighting `c` changes it: `c` holds a light level and a block that
/// is not a solid cube, and its light differs from what its neighbours call for.
pub open spec fn relight_acts(
    blocks: spec_fn(DDD) -> Option<Block>,
    lights: spec_fn(DDD) -> Option<LightLevel>,
    c: DDD,
) -> bool {
    &&& lights(c) is Some
    &&& blocks(c) matches Some(b) && !b.block.spec_visible()
    &&& needs_relight(lights(c).unwrap(), target_heaven(lights, c), target_hearth(lights, c))
}

/// The light level that relighting gives `c`.
pub open spec fn relit_at(lights: spec_fn(DDD) -> Option<LightLevel>, c: DDD) -> LightLevel {
    relit(lights(c).unwrap(), target_heaven(lights, c), target_hearth(lights, c))
}

/// A neighbour that relighting must revisit: a loaded cell whose block is not a solid cube.
pub open spec fn revisit(blocks: spec_fn(DDD) -> Option<Block>, n: DDD) -> bool {
    blocks(n) matches Some(b) && !b.block.spec_visible()
}

/// The queue after pushing to its front, in order, each of the first `k`
/// coordinates of `ns` that must be revisited.
pub open spec fn pushed_front(blocks: spec_fn(DDD) -> Option<Block>, q: Seq<DDD>, ns: Seq<DDD>, k: int) -> Seq<DDD>
    decreases k,
{
    if k <= 0 {
        q
    } else {
        let p = pushed_front(blocks, q, ns, k - 1);
        if revisit(blocks, ns[k - 1]) {
            seq![ns[k - 1]] + p
        } else {
            p
        }
    }
}

/// Relighting from `queue`, first in first out, with at most `fuel` cells
/// taken from it: each cell taken is relit when [`relight_acts`] holds, which
/// marks it and pushes its neighbours to revisit to the front of the queue.
/// The light levels and marked cells it ends with.
pub open spec fn relight_queue(
    blocks: spec_fn(DDD) -> Option<Block>,
    lights: spec_fn(DDD) -> Option<LightLevel>,
    marked: Set<DDD>,
    queue: Seq<DDD>,
    fuel: nat,
) -> (spec_fn(DDD) -> Option<LightLevel>, Set<DDD>)
    decreases fuel,
{
    if fuel == 0 || queue.len() == 0 {
        (lights, marked)
    } else {
        let c = queue[0];
        let rest = queue.skip(1);
        if relight_acts(blocks, lights, c) {
            relight_queue(
                blocks,
                light_set(lights, c, relit_at(lights, c)),
                marked.insert(c),
                pushed_front(blocks, rest, spec_immediate_neighbours(c), 6),
                (fuel - 1) as nat,
            )
        } else {
            relight_queue(blocks, lights, marked, rest, (fuel - 1) as nat)
        }
    }
}

/// Where relighting for an event at `c` starts: the six neighbours of `c` when
/// it holds a solid cube, `c` itself otherwise.
pub open spec fn event_queue(blocks: spec_fn(DDD) -> Option<Block>, c: DDD) -> Seq<DDD> {
    if blocks(c) matches Some(b) && b.block.spec_visible() {
        spec_immediate_neighbours(c)
    } else {
        seq![c]
    }
}

/// The brightest sky light and source light among the neighbours of `coord`.
fn neighbour_maxima(world: &GameWorld, coord: DDD) -> (r: (u8, u8))
    requires
        world.wf(),
        interior(coord),
    ensures
        r.0 == max_heaven_upto(light_fn(*world), spec_immediate_neighbours(coord), 6),
        r.1 == max_hearth_upto(light_fn(*world), spec_immediate_neighbours(coord), 6),
{
    let ns = coord.immediate_neighbours();
    let mut heaven: u8 = 0;
    let mut hearth: u8 = 0;
    let mut i: usize = 0;
    while i < 6
        invariant
            world.wf(),
            interior(coord),
            ns@ == spec_immediate_neighbours(coord),
            i <= 6,
            heaven == max_heaven_upto(light_fn(*world), ns@, i as int),
            hearth == max_hearth_upto(light_fn(*world), ns@, i as int),
        decreases 6 - i,
    {
        match world.get_light_level(ns[i]) {
            Some(l) => {
                if l.heaven > heaven {
                    heaven = l.heaven;
                }
                if l.hearth > hearth {
                    hearth = l.hearth;
                }
            },
            None => {},
        }
        i = i + 1;
    }
    (heaven, hearth)
}

/// Recomputes the light of `coord` from its neighbours.  When it changes,
/// stores the new light, marks `coord` for remeshing, and pushes to the front
/// of `queue` every neighbour that is loaded and not a solid cube.
pub fn do_relight(
    coord: DDD,
    game_world: &mut GameWorld,
    remesh: &mut CoordSet,
    queue: &mut VecDeque<DDD>,
)
    requires
        old(game_world).wf(),
        interior(coord),
    ensures
        final(game_world).wf(),
        final(game_world).generating == old(game_world).generating,
        final(game_world).spec_chunks().dom() == old(game_world).spec_chunks().dom(),
        forall|d: DDD| #[trigger] final(game_world).spec_block(d) == old(game_world).spec_block(d),
        relight_acts(block_fn(*old(game_world)), light_fn(*old(game_world)), coord) ==> {
            &&& forall|d: DDD|
                #[trigger] final(game_world).spec_light(d) == if d == coord {
                    Some(relit_at(light_fn(*old(game_world)), coord))
                } else {
                    old(game_world).spec_light(d)
                }
            &&& coord_set_contents(*final(remesh)) == coord_set_contents(*old(remesh)).insert(coord)
            &&& final(queue)@ == pushed_front(
                block_fn(*old(game_world)),
                old(queue)@,
                spec_immediate_neighbours(coord),
                6,
            )
        },
        !relight_acts(block_fn(*old(game_world)), light_fn(*old(game_world)), coord) ==> {
            &&& forall|d: DDD| #[trigger]
                final(game_world).spec_light(d) == old(game_world).spec_light(d)
            &&& coord_set_contents(*final(remesh)) == coord_set_contents(*old(remesh))
            &&& final(queue)@ == old(queue)@
        },
{
    let light_level = match game_world.get_light_level(coord) {
        Some(l) => l,
        None => {
            return ;
        },
    };
    let block_visible = match game_world.get(coord) {
        Some(b) => b.visible(),
        None => {
            return ;
        },
    };
    if block_visible {
        return ;
    }
    let (heaven_max, hearth_max) = neighbour_maxima(game_world, coord);
    let above = match game_world.get_light_level((coord.0, coord.1 + 1, coord.2)) {
        Some(l) => l.heaven,
        None => 0,
    };
    let bonus: u8 = if above == 16 && coord.1 >= 29 {
        17
    } else {
        0
    };
    let top: u8 = if heaven_max >= bonus {
        heaven_max
    } else {
        bonus
    };
    let max_heaven: u8 = if top == 0 {
        0
    } else {
        top - 1
    };
    let max_hearth: u8 = if hearth_max == 0 {
        0
    } else {
        hearth_max - 1
    };
    let hearth_cap: u8 = if max_hearth >= light_level.hearth {
        max_hearth
    } else {
        light_level.hearth
    };
    let changed = (light_level.light_source < hearth_cap && light_level.hearth != max_hearth)
        || (light_level.heaven != max_heaven);
    if changed {
        let new_hearth: u8 = if light_level.light_source >= hearth_cap {
            light_level.light_source
        } else {
            hearth_cap
        };
        let ghost w0 = *game_world;
        let _ = game_world.set_light_level(
            coord,
            LightLevel::new(max_heaven, new_hearth, light_level.light_source),
        );
        remesh.insert(coord);
        let ns = coord.immediate_neighbours();
        let mut i: usize = 0;
        while i < 6
            invariant
                game_world.wf(),
                interior(coord),
                ns@ == spec_immediate_neighbours(coord),
                forall|d: DDD| #[trigger] game_world.spec_block(d) == w0.spec_block(d),
                i <= 6,
                queue@ == pushed_front(block_fn(w0), old(queue)@, ns@, i as int),
            decreases 6 - i,
        {
            let visible = match game_world.get(ns[i]) {
                Some(b) => b.visible(),
                None => true,
            };
            if !visible {
                queue.push_front(ns[i]);
            }
            i = i + 1;
        }
    }
}

/// Every coordinate that relighting queues lies in the interior.
proof fn lemma_pushed_interior(world: GameWorld, q: Seq<DDD>, ns: Seq<DDD>, k: int)
    requires
        world.wf(),
        forall|j: int| 0 <= j < q.len() ==> interior(#[trigger] q[j]),
    ensures
        forall|j: int|
            0 <= j < pushed_front(block_fn(world), q, ns, k).len() ==> interior(
                #[trigger] pushed_front(block_fn(world), q, ns, k)[j],
            ),
    decreases k,
{
    let blocks = block_fn(world);
    if k > 0 {
        lemma_pushed_interior(world, q, ns, k - 1);
        let n = ns[k - 1];
        if revisit(blocks, n) {
            let key = crate::world::chunk_key(n);
            assert(world.spec_block(n) is Some);
            assert(world.spec_chunks().contains_key(key));
            let b = world.spec_chunks()[key].spec_bounds();
            assert(crate::world::interior_box(b));
            assert(DDD::spec_in_bounds(n, b));
            assert(interior(n));
            let p = pushed_front(blocks, q, ns, k - 1);
            assert(pushed_front(blocks, q, ns, k) == seq![n] + p);
            assert forall|j: int|
                0 <= j < pushed_front(blocks, q, ns, k).len() implies interior(
                #[trigger] pushed_front(blocks, q, ns, k)[j],
            ) by {
                if j > 0 {
                    assert(pushed_front(blocks, q, ns, k)[j] == p[j - 1]);
                } else {
                    assert(pushed_front(blocks, q, ns, k)[j] == n);
                }
            }
        } else {
            assert(pushed_front(blocks, q, ns, k) == pushed_front(blocks, q, ns, k - 1));
        }
    }
}

/// A request to relight the world around a block that changed.
#[derive(Copy, Clone, Debug)]
pub enum RelightEvent {
    Relight(DDD),
}

/// The coordinate a relight event names.
pub open spec fn relight_coord(e: RelightEvent) -> DDD {
    match e {
        RelightEvent::Relight(c) => c,
    }
}

/// `c` and its face neighbours are all interior.
pub open spec fn deep_interior(c: DDD) -> bool {
    &&& i32::MIN + 17 <= c.0 < i32::MAX - 1
    &&& i32::MIN + 17 <= c.1 < i32::MAX - 1
    &&& i32::MIN + 17 <= c.2 < i32::MAX - 1
}

/// Relighting for the first `k` of `events`, in order: each event's
/// coordinate is marked, then [`relight_queue`] runs from its
/// [`event_queue`] with at most `usize::MAX` cells taken. The light levels and
/// marked cells it ends with.
pub open spec fn relight_events_run(
    blocks: spec_fn(DDD) -> Option<Block>,
    lights: spec_fn(DDD) -> Option<LightLevel>,
    events: Seq<RelightEvent>,
    k: int,
) -> (spec_fn(DDD) -> Option<LightLevel>, Set<DDD>)
    decreases k,
{
    if k <= 0 {
        (lights, Set::empty())
    } else {
        let before = relight_events_run(blocks, lights, events, k - 1);
        let c = relight_coord(events[k - 1]);
        relight_queue(blocks, before.0, before.1.insert(c), event_queue(blocks, c), usize::MAX as nat)
    }
}

/// Relighting from a queue never unmarks a cell.
proof fn lemma_queue_keeps_marks(
    blocks: spec_fn(DDD) -> Option<Block>,
    lights: spec_fn(DDD) -> Option<LightLevel>,
    marked: Set<DDD>,
    queue: Seq<DDD>,
    fuel: nat,
)
    ensures
        marked.subset_of(relight_queue(blocks, lights, marked, queue, fuel).1),
    decreases fuel,
{
    if fuel > 0 && queue.len() > 0 {
        let c = queue[0];
        let rest = queue.skip(1);
        if relight_acts(blocks, lights, c) {
            lemma_queue_keeps_marks(
                blocks,
                light_set(lights, c, relit_at(lights, c)),
                marked.insert(c),
                pushed_front(blocks, rest, spec_immediate_neighbours(c), 6),
                (fuel - 1) as nat,
            );
        } else {
            lemma_queue_keeps_marks(blocks, lights, marked, rest, (fuel - 1) as nat);
        }
    }
}

/// When the first `k` cells of the queue need no relighting and cell `k`
/// does, relighting with more than `k` cells of fuel relights and marks it.
proof fn lemma_queue_marks_first_acting(
    blocks: spec_fn(DDD) -> Option<Block>,
    lights: spec_fn(DDD) -> Option<LightLevel>,
    marked: Set<DDD>,
    queue: Seq<DDD>,
    fuel: nat,
    k: int,
)
    requires
        0 <= k < queue.len(),
        k < fuel,
        forall|j: int| 0 <= j < k ==> !relight_acts(blocks, lights, #[trigger] queue[j]),
        relight_acts(blocks, lights, queue[k]),
    ensures
        relight_queue(blocks, lights, marked, queue, fuel).1.contains(queue[k]),
    decreases k,
{
    let c = queue[0];
    let rest = queue.skip(1);
    if k == 0 {
        lemma_queue_keeps_marks(
            blocks,
            light_set(lights, c, relit_at(lights, c)),
            marked.insert(c),
            pushed_front(blocks, rest, spec_immediate_neighbours(c), 6),
            (fuel - 1) as nat,
        );
    } else {
        assert(!relight_acts(blocks, lights, queue[0]));
        assert forall|j: int| 0 <= j < k - 1 implies !relight_acts(blocks, lights, #[trigger] rest[j]) by {
            assert(rest[j] == queue[j + 1]);
        }
        assert(rest[k - 1] == queue[k]);
        lemma_queue_marks_first_acting(blocks, lights, marked, rest, (fuel - 1) as nat, k - 1);
    }
}

/// Relighting for more events never unmarks a cell marked for fewer.
proof fn lemma_events_keep_marks(
    blocks: spec_fn(DDD) -> Option<Block>,
    lights: spec_fn(DDD) -> Option<LightLevel>,
    events: Seq<RelightEvent>,
    i: int,
    k: int,
)
    requires
        0 <= i <= k,
    ensures
        relight_events_run(blocks, lights, events, i).1.subset_of(relight_events_run(blocks, lights, events, k).1),
    decreases k - i,
{
    if i < k {
        lemma_events_keep_marks(blocks, lights, events, i, k - 1);
        let before = relight_events_run(blocks, lights, events, k - 1);
        let c = relight_coord(events[k - 1]);
        lemma_queue_keeps_marks(blocks, before.0, before.1.insert(c), event_queue(blocks, c), usize::MAX as nat);
    }
}

/// A block placed where the first event points, being a solid cube, does not
/// stop relighting there: relighting starts at the cell's six face
/// neighbours, in the order -x, +x, -y, +y, -z, +z. So when the first of
/// them that needs relighting in the world as it was is neighbour `k`, that
/// neighbour is relit and is among the cells [`relight_helper`] returns.
pub proof fn lemma_solid_event_relights_neighbours(
    blocks: spec_fn(DDD) -> Option<Block>,
    lights: spec_fn(DDD) -> Option<LightLevel>,
    events: Seq<RelightEvent>,
    k: int,
)
    requires
        events.len() >= 1,
        blocks(relight_coord(events[0])) matches Some(b) && b.block.spec_visible(),
        0 <= k < 6,
        forall|j: int|
            0 <= j < k ==> !relight_acts(
                blocks,
                lights,
                #[trigger] spec_immediate_neighbours(relight_coord(events[0]))[j],
            ),
        relight_acts(blocks, lights, spec_immediate_neighbours(relight_coord(events[0]))[k]),
    ensures
        relight_events_run(blocks, lights, events, events.len() as int).1.contains(
            spec_immediate_neighbours(relight_coord(events[0]))[k],
        ),
{
    let c = relight_coord(events[0]);
    let ns = spec_immediate_neighbours(c);
    assert(event_queue(blocks, c) == ns);
    assert(relight_events_run(blocks, lights, events, 0) == (lights, Set::<DDD>::empty()));
    lemma_queue_marks_first_acting(blocks, lights, Set::<DDD>::empty().insert(c), ns, usize::MAX as nat, k);
    lemma_events_keep_marks(blocks, lights, events, 1, events.len() as int);
}

/// Relights the world after blocks changed at the coordinates that `relight_events` name.
///
/// For each event coordinate: it is marked for remeshing; then, starting from
/// the coordinate itself (or, when it holds a solid cube, from its six
/// neighbours), cells are relit one at a time with [`do_relight`], first in
/// first out, each change queueing the neighbours it affects.  Returns every
/// marked coordinate.  At most `usize::MAX` cells are relit per event.
pub fn relight_helper(relight_events: &Vec<RelightEvent>, game_world: &mut GameWorld) -> (r: CoordSet)
    requires
        old(game_world).wf(),
        forall|i: int| 0 <= i < relight_events@.len() ==> deep_interior(relight_coord(#[trigger] relight_events@[i])),
    ensures
        final(game_world).wf(),
        final(game_world).generating == old(game_world).generating,
        final(game_world).spec_chunks().dom() == old(game_world).spec_chunks().dom(),
        forall|d: DDD| #[trigger] final(game_world).spec_block(d) == old(game_world).spec_block(d),
        forall|i: int|
            0 <= i < relight_events@.len() ==> coord_set_contents(r).contains(
                relight_coord(#[trigger] relight_events@[i]),
            ),
        forall|d: DDD|
            #[trigger] final(game_world).spec_light(d) != old(game_world).spec_light(d)
                ==> coord_set_contents(r).contains(d),
        forall|d: DDD|
            #[trigger] final(game_world).spec_light(d) != old(game_world).spec_light(d)
                ==> (old(game_world).spec_block(d) matches Some(b) && !b.block.spec_visible()),
        forall|d: DDD|
            #[trigger] final(game_world).spec_light(d) == relight_events_run(
                block_fn(*old(game_world)),
                light_fn(*old(game_world)),
                relight_events@,
                relight_events@.len() as int,
            ).0(d),
        coord_set_contents(r) == relight_events_run(
            block_fn(*old(game_world)),
            light_fn(*old(game_world)),
            relight_events@,
            relight_events@.len() as int,
        ).1,
{
    let ghost blocks = block_fn(*old(game_world));
    let ghost lights0 = light_fn(*old(game_world));
    let mut remesh = CoordSet::new();
    let n = relight_events.len();
    let mut e: usize = 0;
    while e < n
        invariant
            n == relight_events@.len(),
            e <= n,
            forall|i: int| 0 <= i < relight_events@.len() ==> deep_interior(relight_coord(#[trigger] relight_events@[i])),
            game_world.wf(),
            game_world.generating == old(game_world).generating,
            game_world.spec_chunks().dom() == old(game_world).spec_chunks().dom(),
            forall|d: DDD| #[trigger] game_world.spec_block(d) == old(game_world).spec_block(d),
            forall|i: int| 0 <= i < e ==> coord_set_contents(remesh).contains(relight_coord(#[trigger] relight_events@[i])),
            forall|d: DDD|
                #[trigger] game_world.spec_light(d) != old(game_world).spec_light(d)
                    ==> coord_set_contents(remesh).contains(d),
            forall|d: DDD|
                #[trigger] game_world.spec_light(d) != old(game_world).spec_light(d)
                    ==> (old(game_world).spec_block(d) matches Some(b) && !b.block.spec_visible()),
            blocks == block_fn(*old(game_world)),
            lights0 == light_fn(*old(game_world)),
            relight_events_run(blocks, lights0, relight_events@, e as int) == (
                light_fn(*game_world),
                coord_set_contents(remesh),
            ),
        decreases n - e,
    {
        let coord = match relight_events[e] {
            RelightEvent::Relight(c) => c,
        };
        let ghost target = relight_events_run(blocks, lights0, relight_events@, e as int + 1);
        proof {
            assert(block_fn(*game_world) =~= blocks);
        }
        remesh.insert(coord);
        let mut queue: VecDeque<DDD> = VecDeque::new();
        let coord_visible = match game_world.get(coord) {
            Some(b) => b.visible(),
            None => false,
        };
        if coord_visible {
            let ns = coord.immediate_neighbours();
            let mut i: usize = 0;
            while i < 6
                invariant
                    i <= 6,
                    deep_interior(coord),
                    ns@ == spec_immediate_neighbours(coord),
                    forall|k: int| 0 <= k < queue@.len() ==> interior(#[trigger] queue@[k]),
                    queue@ == ns@.take(i as int),
                decreases 6 - i,
            {
                queue.push_back(ns[i]);
                proof {
                    assert(ns@.take(i as int + 1) == ns@.take(i as int).push(ns@[i as int]));
                }
                i = i + 1;
            }
            proof {
                assert(ns@.take(6) == ns@);
            }
        } else {
            queue.push_back(coord);
            proof {
                assert(queue@ == seq![coord]);
            }
        }
        proof {
            assert(queue@ == event_queue(blocks, coord));
            assert(relight_queue(blocks, light_fn(*game_world), coord_set_contents(remesh), queue@, usize::MAX as nat) == target);
        }
        let mut budget: usize = usize::MAX;
        while budget > 0
            invariant
                e < n,
                n == relight_events@.len(),
                forall|k: int| 0 <= k < queue@.len() ==> interior(#[trigger] queue@[k]),
                forall|i: int| 0 <= i < relight_events@.len() ==> deep_interior(relight_coord(#[trigger] relight_events@[i])),
                game_world.wf(),
                game_world.generating == old(game_world).generating,
                game_world.spec_chunks().dom() == old(game_world).spec_chunks().dom(),
                forall|d: DDD| #[trigger] game_world.spec_block(d) == old(game_world).spec_block(d),
                forall|i: int| 0 <= i <= e ==> coord_set_contents(remesh).contains(relight_coord(#[trigger] relight_events@[i])),
                forall|d: DDD|
                    #[trigger] game_world.spec_light(d) != old(game_world).spec_light(d)
                        ==> coord_set_contents(remesh).contains(d),
                forall|d: DDD|
                    #[trigger] game_world.spec_light(d) != old(game_world).spec_light(d)
                        ==> (old(game_world).spec_block(d) matches Some(b) && !b.block.spec_visible()),
                blocks == block_fn(*old(game_world)),
                lights0 == light_fn(*old(game_world)),
                relight_queue(blocks, light_fn(*game_world), coord_set_contents(remesh), queue@, budget as nat)
                    == target,
                target == relight_events_run(blocks, lights0, relight_events@, e as int + 1),
            ensures
                budget == 0 || queue@.len() == 0,
            decreases budget,
        {
            let ghost full = queue@;
            let c = match queue.pop_front() {
                Some(c) => c,
                None => {
                    break ;
                },
            };
            let ghost q0 = queue@;
            let ghost w1 = *game_world;
            let ghost m1 = coord_set_contents(remesh);
            proof {
                lemma_pushed_interior(*game_world, q0, spec_immediate_neighbours(c), 6);
                assert(block_fn(w1) =~= blocks);
                assert(full[0] == c && q0 == full.skip(1));
            }
            do_relight(c, game_world, &mut remesh, &mut queue);
            proof {
                if relight_acts(blocks, light_fn(w1), c) {
                    assert(light_fn(*game_world) =~= light_set(light_fn(w1), c, relit_at(light_fn(w1), c)));
                } else {
                    assert(light_fn(*game_world) =~= light_fn(w1));
                }
            }
            budget = budget - 1;
        }
        proof {
            assert(target == (light_fn(*game_world), coord_set_contents(remesh)));
        }
        e = e + 1;
    }
    proof {
        assert(relight_events_run(blocks, lights0, relight_events@, n as int) == (
            light_fn(*game_world),
            coord_set_contents(remesh),
        ));
        assert forall|d: DDD| #[trigger] game_world.spec_light(d) == relight_events_run(
            blocks, lights0, relight_events@, n as int).0(d) by {
            assert(light_fn(*game_world)(d) == game_world.spec_light(d));
        }
    }
    remesh
}

} // verus!
