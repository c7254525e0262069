use vstd::prelude::*;

use rand::rngs::ThreadRng;

use crate::block::{
    block_kind, kind_or_solid, BlockType, ID_AIR, ID_DIRT, ID_GRASS, ID_LAVA_FLOWING, ID_LAVA_STATIONARY, ID_STONE,
    ID_WATER_FLOWING, ID_WATER_STATIONARY,
};
use crate::level::{applied, applied_packets, collapsed, coords_of, idx3, BlockUpdate, Level};
use crate::packet::server::{same_packet, ServerPacket};
use crate::rng::shuffle_indices;
use crate::rng::below;
use crate::util::{
    full_offsets, get_relative_coords, lemma_relative_many_in_bounds, minus_up_offsets, neighbors_full,
    neighbors_minus_up, neighbors_with_vertical_diagonals, relative_many, vertical_diagonal_offsets,
};

verus! {

/// Whether an id is water, flowing or stationary.
pub open spec fn is_water(id: u8) -> bool {
    id == ID_WATER_FLOWING || id == ID_WATER_STATIONARY
}

/// Whether an id is lava, flowing or stationary.
pub open spec fn is_lava(id: u8) -> bool {
    id == ID_LAVA_FLOWING || id == ID_LAVA_STATIONARY
}

/// Whether fluid `a` flowing into fluid `b` turns `b`'s cell to stone: water meets lava.
pub open spec fn turns_to_stone(a: u8, b: u8) -> bool {
    (is_water(a) && is_lava(b)) || (is_lava(a) && is_water(b))
}

/// The cells inside the level at the offsets `ds` from flat index `i`.
pub open spec fn cells_at(dims: (usize, usize, usize), i: usize, ds: Seq<(isize, isize, isize)>) -> Seq<(usize, usize, usize)> {
    let c = coords_of(dims.0, dims.2, i as int);
    relative_many(dims, c.0, c.1, c.2, ds)
}

/// The update that flowing fluid `id` makes in a neighbouring cell holding `nid` at flat index `ni`:
/// it flows into non-solid cells, and turns the other fluid to stone where water meets lava.
pub open spec fn flow_into(id: u8, nid: u8, ni: int) -> Option<BlockUpdate> {
    if kind_or_solid(nid) is NonSolid {
        Some(BlockUpdate { index: ni as usize, block: id })
    } else if (kind_or_solid(nid) is FluidFlowing || kind_or_solid(nid) is FluidStationary) && turns_to_stone(id, nid) {
        Some(BlockUpdate { index: ni as usize, block: ID_STONE })
    } else {
        None
    }
}

/// The updates that flowing fluid `id` makes over the neighbouring `cells`, in their order.
pub open spec fn flow_updates(dims: (usize, usize, usize), b: Seq<u8>, id: u8, cells: Seq<(usize, usize, usize)>) -> Seq<BlockUpdate>
    decreases cells.len(),
{
    if cells.len() == 0 {
        Seq::empty()
    } else {
        let rest = flow_updates(dims, b, id, cells.drop_last());
        let ni = idx3(dims, cells.last());
        match flow_into(id, b[ni], ni) {
            Some(u) => rest.push(u),
            None => rest,
        }
    }
}

/// Whether one of `cells` holds a non-solid block.
pub open spec fn any_open(dims: (usize, usize, usize), b: Seq<u8>, cells: Seq<(usize, usize, usize)>) -> bool {
    exists|j: int| 0 <= j < cells.len() && kind_or_solid(b[idx3(dims, #[trigger] cells[j])]) is NonSolid
}

/// The flat indices of the grass blocks among `cells`, in their order.
pub open spec fn grass_indices(dims: (usize, usize, usize), b: Seq<u8>, cells: Seq<(usize, usize, usize)>) -> Seq<usize>
    decreases cells.len(),
{
    if cells.len() == 0 {
        Seq::empty()
    } else {
        let rest = grass_indices(dims, b, cells.drop_last());
        let ni = idx3(dims, cells.last());
        if b[ni] == ID_GRASS {
            rest.push(ni as usize)
        } else {
            rest
        }
    }
}

/// Whether the cell above flat index `i` is empty: air, or outside the level.
pub open spec fn open_above(dims: (usize, usize, usize), b: Seq<u8>, i: usize) -> bool {
    let c = coords_of(dims.0, dims.2, i as int);
    c.1 + 1 >= dims.1 || b[index_of_above(dims, c)] == ID_AIR
}

/// The flat index of the cell above `c`.
pub open spec fn index_of_above(dims: (usize, usize, usize), c: (usize, usize, usize)) -> int {
    idx3(dims, (c.0, (c.1 + 1) as usize, c.2))
}

/// Whether an update is one that a grass block at `g` may make: dirt with empty space above
/// turning to grass, or the grass itself turning back to dirt.
pub open spec fn grass_step(dims: (usize, usize, usize), b: Seq<u8>, g: usize, u: BlockUpdate) -> bool {
    ||| (u.block == ID_GRASS && b[u.index as int] == ID_DIRT && open_above(dims, b, u.index))
    ||| (u.index == g && u.block == ID_DIRT && !open_above(dims, b, g))
}

/// Whether two levels agree on everything but the update queue, the awaiting-update set and
/// the random-tick pool.
pub open spec fn same_world(a: &Level, b: &Level) -> bool {
    &&& a.dims() == b.dims()
    &&& a.blocks@ == b.blocks@
    &&& a.weather == b.weather
    &&& a.rules == b.rules
    &&& a.save_now == b.save_now
    &&& a.player_data@ == b.player_data@
}

/// The effect of a flowing fluid's step at `index` on tick `tick` (see `update_flowing`).
pub open spec fn flowed(a: &Level, b: &Level, index: usize, tick: usize) -> bool {
    let id = a.blocks@[index as int];
    let k = kind_or_solid(id);
    let ups = flow_updates(a.dims(), a.blocks@, id, cells_at(a.dims(), index, minus_up_offsets()));
    &&& b.possible_random_updates@ == a.possible_random_updates@
    &&& (if tick % k->ticks_to_spread == 0 {
        &&& b.updates@ == a.updates@.push(BlockUpdate { index, block: k->stationary }) + ups
        &&& forall|i: usize| #[trigger] b.awaiting().contains(i) <==> (a.awaiting().contains(i)
            || exists|j: int| 0 <= j < ups.len() && (#[trigger] ups[j]).index == i)
    } else {
        &&& b.updates@ == a.updates@
        &&& b.awaiting() == a.awaiting().insert(index)
    })
}

/// The effect of a stationary fluid's step at `index` (see `update_stationary`).
pub open spec fn reopened(a: &Level, b: &Level, index: usize) -> bool {
    let k = kind_or_solid(a.blocks@[index as int]);
    &&& b.possible_random_updates@ == a.possible_random_updates@
    &&& (if any_open(a.dims(), a.blocks@, cells_at(a.dims(), index, minus_up_offsets())) {
        &&& b.updates@ == a.updates@.push(BlockUpdate { index, block: k->moving })
        &&& b.awaiting() == a.awaiting().insert(index)
    } else {
        &&& b.updates@ == a.updates@
        &&& b.awaiting() == a.awaiting()
    })
}

/// The effect of a dirt block's step at `index` (see `update_dirt`).
pub open spec fn dirt_stepped(a: &Level, b: &Level, index: usize) -> bool {
    &&& b.updates@ == a.updates@
    &&& b.awaiting_update@ == a.awaiting_update@
    &&& b.possible_random_updates@ == a.possible_random_updates@
        + grass_indices(a.dims(), a.blocks@, cells_at(a.dims(), index, full_offsets()))
}

/// What holds of a grass block's step at `index`, whatever was drawn (see `update_grass`).
pub open spec fn grass_stepped(a: &Level, b: &Level, index: usize) -> bool {
    &&& b.awaiting_update@ == a.awaiting_update@
    &&& b.updates@.len() >= a.updates@.len()
    &&& b.updates@.take(a.updates@.len() as int) == a.updates@
    &&& forall|i: int| a.updates@.len() <= i < b.updates@.len()
        ==> grass_step(a.dims(), a.blocks@, index, #[trigger] b.updates@[i])
    &&& (b.possible_random_updates@ == a.possible_random_updates@
        || b.possible_random_updates@ == a.possible_random_updates@.push(index))
}

/// The effect of the step of the block at `index` (see `update_block`): grass and dirt take
/// their random-tick rules, fluids spread while the rules let them, other blocks do nothing.
pub open spec fn block_stepped(a: &Level, b: &Level, index: usize, tick: usize) -> bool {
    let id = a.blocks@[index as int];
    let k = kind_or_solid(id);
    let spread = a.rules.fluid_spread;
    &&& same_world(b, a)
    &&& if id == ID_GRASS {
        grass_stepped(a, b, index)
    } else if id == ID_DIRT {
        dirt_stepped(a, b, index)
    } else if k is FluidFlowing && spread {
        flowed(a, b, index, tick)
    } else if k is FluidStationary && spread {
        reopened(a, b, index)
    } else {
        untouched(a, b)
    }
}

/// The queues are as they were.
pub open spec fn untouched(a: &Level, b: &Level) -> bool {
    &&& b.updates@ == a.updates@
    &&& b.awaiting_update@ == a.awaiting_update@
    &&& b.possible_random_updates@ == a.possible_random_updates@
}

/// Whether the block above `(x, y, z)` is air or outside the level.
fn is_open_above(level: &Level, x: usize, y: usize, z: usize) -> (r: bool)
    requires
        level.wf(),
        level.in_bounds(x, y, z),
    ensures
        r == open_above(level.dims(), level.blocks@, level.spec_index(x, y, z) as usize),
{
    let i = level.index(x, y, z);
    proof {
        level.lemma_index_round_trip(x, y, z);
    }
    match get_relative_coords(level, x, y, z, 0, 1, 0) {
        Some((ax, ay, az)) => level.get_block(ax, ay, az) == ID_AIR,
        None => true,
    }
}

/// One step of a flowing fluid at `index`: on a spread tick it settles into its stationary form
/// and flows into the non-solid cells below and beside it (water meeting lava makes stone), each
/// of them scheduled for the next tick; on other ticks it is only scheduled again.
pub fn update_flowing(level: &mut Level, index: usize, tick: usize)
    requires
        old(level).wf(),
        index < old(level).spec_volume(),
        kind_or_solid(old(level).blocks@[index as int]) is FluidFlowing,
    ensures
        final(level).wf(),
        same_world(final(level), old(level)),
        final(level).possible_random_updates@ == old(level).possible_random_updates@,
        flowed(old(level), final(level), index, tick),
{
    let ghost start = *level;
    let id = level.blocks[index];
    let (stationary, ticks_to_spread) = match block_kind(id) {
        BlockType::FluidFlowing { stationary, ticks_to_spread } => (stationary, ticks_to_spread),
        _ => (id, 1),
    };
    if tick % ticks_to_spread != 0 {
        level.insert_awaiting(index);
        return;
    }
    let (x, y, z) = level.coordinates(index);
    level.queue_update(BlockUpdate { index, block: stationary });
    let nbrs = neighbors_minus_up(level, x, y, z);
    proof { lemma_relative_many_in_bounds(level.dims(), x, y, z, minus_up_offsets()); }
    let ghost base = level.updates@;
    let ghost base_aw = level.awaiting();
    let mut j: usize = 0;
    while j < nbrs.len()
        invariant
            level.wf(),
            same_world(level, &start),
            level.possible_random_updates@ == start.possible_random_updates@,
            j <= nbrs@.len(),
            nbrs@ == cells_at(start.dims(), index, minus_up_offsets()),
            forall|m: int| 0 <= m < nbrs@.len() ==> level.in_bounds(#[trigger] nbrs@[m].0, nbrs@[m].1, nbrs@[m].2),
            level.updates@ == base + flow_updates(start.dims(), start.blocks@, id, nbrs@.take(j as int)),
            forall|i: usize| #[trigger] level.awaiting().contains(i) <==> (base_aw.contains(i)
                || exists|m: int| 0 <= m < flow_updates(start.dims(), start.blocks@, id, nbrs@.take(j as int)).len()
                    && (#[trigger] flow_updates(start.dims(), start.blocks@, id, nbrs@.take(j as int))[m]).index == i),
        decreases nbrs@.len() - j,
    {
        let (nx, ny, nz) = nbrs[j];
        let nid = level.get_block(nx, ny, nz);
        let ni = level.index(nx, ny, nz);
        let nkind = block_kind(nid);
        let ghost prev = flow_updates(start.dims(), start.blocks@, id, nbrs@.take(j as int));
        let ghost prev_aw = level.awaiting();
        assert(nbrs@.take(j + 1).drop_last() =~= nbrs@.take(j as int));
        assert(nbrs@.take(j + 1).last() == nbrs@[j as int]);
        let update = match nkind {
            BlockType::NonSolid => Some(BlockUpdate { index: ni, block: id }),
            BlockType::FluidFlowing { .. } | BlockType::FluidStationary { .. } => {
                let water = id == ID_WATER_FLOWING || id == ID_WATER_STATIONARY;
                let lava = id == ID_LAVA_FLOWING || id == ID_LAVA_STATIONARY;
                let n_water = nid == ID_WATER_FLOWING || nid == ID_WATER_STATIONARY;
                let n_lava = nid == ID_LAVA_FLOWING || nid == ID_LAVA_STATIONARY;
                if (water && n_lava) || (lava && n_water) {
                    Some(BlockUpdate { index: ni, block: ID_STONE })
                } else {
                    None
                }
            },
            _ => None,
        };
        assert(update == flow_into(id, start.blocks@[ni as int], ni as int));
        if let Some(u) = update {
            level.insert_awaiting(ni);
            level.queue_update(u);
            proof {
                let cur = flow_updates(start.dims(), start.blocks@, id, nbrs@.take(j + 1));
                assert(cur == prev.push(u));
                assert(level.updates@ =~= base + cur);
                assert forall|i: usize| #[trigger] level.awaiting().contains(i) <==> (base_aw.contains(i)
                    || exists|m: int| 0 <= m < cur.len() && (#[trigger] cur[m]).index == i) by {
                    if exists|m: int| 0 <= m < cur.len() && (#[trigger] cur[m]).index == i {
                        let m = choose|m: int| 0 <= m < cur.len() && (#[trigger] cur[m]).index == i;
                        if m < prev.len() {
                            assert(prev[m] == cur[m]);
                        }
                    }
                    if exists|m: int| 0 <= m < prev.len() && (#[trigger] prev[m]).index == i {
                        let m = choose|m: int| 0 <= m < prev.len() && (#[trigger] prev[m]).index == i;
                        assert(cur[m] == prev[m]);
                    }
                    if i == ni {
                        assert(cur[prev.len() as int] == u);
                    }
                }
            }
        } else {
            proof {
                let cur = flow_updates(start.dims(), start.blocks@, id, nbrs@.take(j + 1));
                assert(cur == prev);
            }
        }
        j = j + 1;
    }
    assert(nbrs@.take(nbrs@.len() as int) =~= nbrs@);
}

/// One step of a stationary fluid at `index`: if a non-solid cell lies below or beside it, it
/// turns back into its flowing form and is scheduled for the next tick.
pub fn update_stationary(level: &mut Level, index: usize)
    requires
        old(level).wf(),
        index < old(level).spec_volume(),
        kind_or_solid(old(level).blocks@[index as int]) is FluidStationary,
    ensures
        final(level).wf(),
        same_world(final(level), old(level)),
        final(level).possible_random_updates@ == old(level).possible_random_updates@,
        reopened(old(level), final(level), index),
{
    let ghost start = *level;
    let id = level.blocks[index];
    let moving = match block_kind(id) {
        BlockType::FluidStationary { moving } => moving,
        _ => id,
    };
    let (x, y, z) = level.coordinates(index);
    let nbrs = neighbors_minus_up(level, x, y, z);
    proof { lemma_relative_many_in_bounds(level.dims(), x, y, z, minus_up_offsets()); }
    let mut open = false;
    let mut j: usize = 0;
    while j < nbrs.len()
        invariant
            *level == start,
            level.wf(),
            j <= nbrs@.len(),
            nbrs@ == cells_at(start.dims(), index, minus_up_offsets()),
            forall|m: int| 0 <= m < nbrs@.len() ==> level.in_bounds(#[trigger] nbrs@[m].0, nbrs@[m].1, nbrs@[m].2),
            open == exists|m: int| 0 <= m < j && kind_or_solid(start.blocks@[idx3(start.dims(), #[trigger] nbrs@[m])]) is NonSolid,
        decreases nbrs@.len() - j,
    {
        let (nx, ny, nz) = nbrs[j];
        let nid = level.get_block(nx, ny, nz);
        if let BlockType::NonSolid = block_kind(nid) {
            open = true;
        }
        proof {
            if open {
                if kind_or_solid(start.blocks@[idx3(start.dims(), nbrs@[j as int])]) is NonSolid {
                    assert(exists|m: int| 0 <= m < j + 1 && kind_or_solid(start.blocks@[idx3(start.dims(), #[trigger] nbrs@[m])]) is NonSolid);
                } else {
                    let m = choose|m: int| 0 <= m < j && kind_or_solid(start.blocks@[idx3(start.dims(), #[trigger] nbrs@[m])]) is NonSolid;
                    assert(exists|m: int| 0 <= m < j + 1 && kind_or_solid(start.blocks@[idx3(start.dims(), #[trigger] nbrs@[m])]) is NonSolid);
                }
            }
        }
        j = j + 1;
    }
    if open {
        level.queue_update(BlockUpdate { index, block: moving });
        level.insert_awaiting(index);
    }
}

/// One step of a dirt block at `index`: every grass block in the 3x3x3 cube around it becomes
/// eligible for random ticks again.
pub fn update_dirt(level: &mut Level, index: usize)
    requires
        old(level).wf(),
        index < old(level).spec_volume(),
    ensures
        final(level).wf(),
        same_world(final(level), old(level)),
        dirt_stepped(old(level), final(level), index),
{
    let ghost start = *level;
    let (x, y, z) = level.coordinates(index);
    let nbrs = neighbors_full(level, x, y, z);
    proof { lemma_relative_many_in_bounds(level.dims(), x, y, z, full_offsets()); }
    let mut j: usize = 0;
    while j < nbrs.len()
        invariant
            level.wf(),
            same_world(level, &start),
            level.updates@ == start.updates@,
            level.awaiting_update@ == start.awaiting_update@,
            j <= nbrs@.len(),
            nbrs@ == cells_at(start.dims(), index, full_offsets()),
            forall|m: int| 0 <= m < nbrs@.len() ==> level.in_bounds(#[trigger] nbrs@[m].0, nbrs@[m].1, nbrs@[m].2),
            level.possible_random_updates@ == start.possible_random_updates@ + grass_indices(start.dims(), start.blocks@, nbrs@.take(j as int)),
        decreases nbrs@.len() - j,
    {
        let (nx, ny, nz) = nbrs[j];
        assert(nbrs@.take(j + 1).drop_last() =~= nbrs@.take(j as int));
        assert(nbrs@.take(j + 1).last() == nbrs@[j as int]);
        if level.get_block(nx, ny, nz) == ID_GRASS {
            let ni = level.index(nx, ny, nz);
            level.push_random_candidate(ni);
            assert(level.possible_random_updates@ =~= start.possible_random_updates@ + grass_indices(start.dims(), start.blocks@, nbrs@.take(j + 1)));
        } else {
            assert(level.possible_random_updates@ =~= start.possible_random_updates@ + grass_indices(start.dims(), start.blocks@, nbrs@.take(j + 1)));
        }
        j = j + 1;
    }
    assert(nbrs@.take(nbrs@.len() as int) =~= nbrs@);
}

/// Whether `rng` draws the one-in-`chance` event; a chance of zero never happens.
fn one_in(rng: &mut ThreadRng, chance: u64) -> bool {
    if chance == 0 {
        false
    } else {
        below(rng, chance) == 0
    }
}

/// One step of a grass block at `index`: each dirt block among its horizontal neighbours and
/// their vertical diagonals with empty space above turns to grass with chance
/// `1 / grass_spread_chance`; if the space above the grass itself is taken, it turns back to dirt
/// with the same chance. If some candidate was left unconverted, the grass stays eligible for
/// random ticks.
pub fn update_grass(level: &mut Level, index: usize, rng: &mut ThreadRng)
    requires
        old(level).wf(),
        index < old(level).spec_volume(),
    ensures
        final(level).wf(),
        same_world(final(level), old(level)),
        grass_stepped(old(level), final(level), index),
{
    let ghost start = *level;
    let (x, y, z) = level.coordinates(index);
    let chance = level.rules.grass_spread_chance;
    let nbrs = neighbors_with_vertical_diagonals(level, x, y, z);
    proof { lemma_relative_many_in_bounds(level.dims(), x, y, z, vertical_diagonal_offsets()); }
    let mut left = false;
    let mut j: usize = 0;
    while j < nbrs.len()
        invariant
            level.wf(),
            same_world(level, &start),
            level.awaiting_update@ == start.awaiting_update@,
            level.possible_random_updates@ == start.possible_random_updates@,
            j <= nbrs@.len(),
            forall|m: int| 0 <= m < nbrs@.len() ==> level.in_bounds(#[trigger] nbrs@[m].0, nbrs@[m].1, nbrs@[m].2),
            level.updates@.len() >= start.updates@.len(),
            level.updates@.take(start.updates@.len() as int) == start.updates@,
            forall|i: int| start.updates@.len() <= i < level.updates@.len()
                ==> grass_step(start.dims(), start.blocks@, index, #[trigger] level.updates@[i]),
        decreases nbrs@.len() - j,
    {
        let (nx, ny, nz) = nbrs[j];
        if level.get_block(nx, ny, nz) == ID_DIRT && is_open_above(level, nx, ny, nz) {
            if one_in(rng, chance) {
                let ni = level.index(nx, ny, nz);
                let ghost before = level.updates@;
                level.queue_update(BlockUpdate { index: ni, block: ID_GRASS });
                assert(level.updates@.take(start.updates@.len() as int) =~= before.take(start.updates@.len() as int));
            } else {
                left = true;
            }
        }
        j = j + 1;
    }
    if !is_open_above(level, x, y, z) {
        proof { level.lemma_index_round_trip(x, y, z); }
        if one_in(rng, chance) {
            let ghost before = level.updates@;
            level.queue_update(BlockUpdate { index, block: ID_DIRT });
            assert(level.updates@.take(start.updates@.len() as int) =~= before.take(start.updates@.len() as int));
        } else {
            left = true;
        }
    }
    if left {
        level.push_random_candidate(index);
    }
}

/// The step of the block at `index`, by its kind: grass and dirt (solid blocks) take their
/// random-tick rules, fluids spread while the level's rules let them, other blocks do nothing.
pub fn update_block(level: &mut Level, index: usize, tick: usize, rng: &mut ThreadRng)
    requires
        old(level).wf(),
        index < old(level).spec_volume(),
    ensures
        final(level).wf(),
        block_stepped(old(level), final(level), index, tick),
{
    let id = level.blocks[index];
    let spread = level.rules.fluid_spread;
    if id == ID_GRASS {
        update_grass(level, index, rng);
    } else if id == ID_DIRT {
        update_dirt(level, index);
    } else {
        match block_kind(id) {
            BlockType::FluidFlowing { .. } => {
                if spread {
                    update_flowing(level, index, tick);
                }
            },
            BlockType::FluidStationary { .. } => {
                if spread {
                    update_stationary(level, index);
                }
            },
            _ => {},
        }
    }
}

/// The level after moving the indices `r` from the random-tick pool to the awaiting-update set
/// (see `sample_random_updates`).
pub open spec fn sampled(a: &Level, b: &Level, r: Seq<usize>) -> bool {
    &&& same_world(b, a)
    &&& b.updates@ == a.updates@
    &&& r.len() == if a.possible_random_updates@.len() < a.rules.random_tick_updates {
        a.possible_random_updates@.len() as int
    } else {
        a.rules.random_tick_updates as int
    }
    &&& b.possible_random_updates@.to_multiset().add(r.to_multiset()) == a.possible_random_updates@.to_multiset()
    &&& b.awaiting() == a.awaiting() + r.to_set()
}

/// Shuffles the random-tick pool and moves up to `random_tick_updates` of its indices into the
/// awaiting-update set; returns the indices moved. Fewer are moved only when the pool runs out.
pub fn sample_random_updates(level: &mut Level, rng: &mut ThreadRng) -> (r: Vec<usize>)
    requires
        old(level).wf(),
    ensures
        final(level).wf(),
        sampled(old(level), final(level), r@),
{
    let ghost start = *level;
    shuffle_indices(&mut level.possible_random_updates, rng);
    let ghost shuffled = level.possible_random_updates@;
    proof {
        assert forall|i: int| 0 <= i < shuffled.len() implies shuffled[i] < start.spec_volume() by {
            vstd::seq_lib::to_multiset_contains(shuffled, shuffled[i]);
            vstd::seq_lib::to_multiset_contains(start.possible_random_updates@, shuffled[i]);
            assert(shuffled.contains(shuffled[i]));
        }
    }
    let n = level.rules.random_tick_updates;
    let mut taken: Vec<usize> = Vec::new();
    let mut count: u64 = 0;
    assert(level.possible_random_updates@ =~= shuffled.take(shuffled.len() as int));
    proof { taken@.to_multiset_ensures(); }
    assert(taken@.to_multiset() =~= vstd::multiset::Multiset::<usize>::empty());
    assert(level.possible_random_updates@.to_multiset().add(taken@.to_multiset()) =~= shuffled.to_multiset());
    assert(taken@.to_set() =~= Set::<usize>::empty());
    assert(level.awaiting() =~= start.awaiting() + taken@.to_set());
    while count < n
        invariant
            level.wf(),
            same_world(level, &start),
            level.updates@ == start.updates@,
            count <= n,
            n == start.rules.random_tick_updates,
            taken@.len() == count,
            count <= shuffled.len(),
            level.possible_random_updates@ == shuffled.take(shuffled.len() - count),
            level.possible_random_updates@.to_multiset().add(taken@.to_multiset()) == shuffled.to_multiset(),
            level.awaiting() == start.awaiting() + taken@.to_set(),
            shuffled.len() == start.possible_random_updates@.len(),
            shuffled.to_multiset() == start.possible_random_updates@.to_multiset(),
        ensures
            count == n || count == shuffled.len(),
            count <= n,
            taken@.len() == count,
            count <= shuffled.len(),
            level.possible_random_updates@.to_multiset().add(taken@.to_multiset()) == shuffled.to_multiset(),
            level.awaiting() == start.awaiting() + taken@.to_set(),
            shuffled.to_multiset() == start.possible_random_updates@.to_multiset(),
            level.wf(),
            same_world(level, &start),
            level.updates@ == start.updates@,
        decreases n - count,
    {
        match level.possible_random_updates.pop() {
            Some(index) => {
                let ghost before = taken@;
                proof {
                    vstd::seq_lib::to_multiset_build(level.possible_random_updates@, index);
                    vstd::seq_lib::to_multiset_build(before, index);
                    assert(level.possible_random_updates@.push(index) =~= shuffled.take(shuffled.len() - count));
                    assert(level.possible_random_updates@ =~= shuffled.take(shuffled.len() - count - 1));
                }
                level.insert_awaiting(index);
                taken.push(index);
                proof {
                    assert(taken@ == before.push(index));
                    assert forall|v: usize| taken@.to_set().contains(v) <==> before.to_set().insert(index).contains(v) by {
                        if v == index {
                            assert(taken@[before.len() as int] == index);
                        }
                        if taken@.contains(v) && v != index {
                            let k = choose|k: int| 0 <= k < taken@.len() && taken@[k] == v;
                            assert(before[k] == v);
                        }
                        if before.contains(v) {
                            let k = choose|k: int| 0 <= k < before.len() && before[k] == v;
                            assert(taken@[k] == v);
                        }
                    }
                    assert(taken@.to_set() =~= before.to_set().insert(index));
                    assert(level.awaiting() =~= start.awaiting() + taken@.to_set());
                    assert(level.possible_random_updates@.to_multiset().add(taken@.to_multiset()) =~= shuffled.to_multiset());
                }
                count = count + 1;
            },
            None => {
                break;
            },
        }
    }
    taken
}

/// Whether `trace` runs the steps of the blocks at `indices`, one after the other, at tick `tick`.
pub open spec fn steps_run(trace: Seq<Level>, indices: Seq<usize>, tick: usize) -> bool {
    &&& trace.len() == indices.len() + 1
    &&& forall|k: int| 0 <= k < indices.len() ==> block_stepped(&trace[k], &trace[k + 1], #[trigger] indices[k], tick)
}

/// The level after draining the awaiting-update set of `a` (see `process_awaiting`).
pub open spec fn drained(a: &Level, b: &Level, tick: usize) -> bool {
    &&& same_world(b, a)
    &&& exists|trace: Seq<Level>| {
        &&& steps_run(trace, a.awaiting_update@, tick)
        &&& trace[0].awaiting_update@.len() == 0
        &&& same_world(&trace[0], a)
        &&& trace[0].updates@ == a.updates@
        &&& trace[0].possible_random_updates@ == a.possible_random_updates@
        &&& trace.last() == *b
    }
}

/// Drains the awaiting-update set: it is cleared, and each index it held gets its block's step,
/// in increasing order, each step seeing the queues the previous ones left. Indices scheduled
/// meanwhile wait for the next tick.
pub fn process_awaiting(level: &mut Level, tick: usize, rng: &mut ThreadRng)
    requires
        old(level).wf(),
    ensures
        final(level).wf(),
        drained(old(level), final(level), tick),
{
    let ghost start = *level;
    let snapshot = level.awaiting_update.clone();
    assert(snapshot@ =~= start.awaiting_update@);
    level.awaiting_update = Vec::new();
    let ghost mut trace: Seq<Level> = seq![*level];
    let mut i: usize = 0;
    while i < snapshot.len()
        invariant
            level.wf(),
            same_world(level, &start),
            snapshot@ == start.awaiting_update@,
            forall|j: int| 0 <= j < snapshot@.len() ==> snapshot@[j] < level.spec_volume(),
            i <= snapshot@.len(),
            trace.len() == i + 1,
            trace[0].awaiting_update@.len() == 0,
            same_world(&trace[0], &start),
            trace[0].updates@ == start.updates@,
            trace[0].possible_random_updates@ == start.possible_random_updates@,
            trace.last() == *level,
            forall|k: int| 0 <= k < i ==> block_stepped(&trace[k], &trace[k + 1], #[trigger] snapshot@[k], tick),
        decreases snapshot@.len() - i,
    {
        let index = snapshot[i];
        let ghost before = *level;
        update_block(level, index, tick, rng);
        proof {
            let prev = trace;
            trace = trace.push(*level);
            assert forall|k: int| 0 <= k < i + 1 implies block_stepped(&trace[k], &trace[k + 1], #[trigger] snapshot@[k], tick) by {
                if k < i {
                    assert(trace[k] == prev[k]);
                    assert(trace[k + 1] == prev[k + 1]);
                }
            }
        }
        i = i + 1;
    }
    assert(steps_run(trace, start.awaiting_update@, tick));
}

/// Ticks the level once: queued client edits are applied, random ticks are sampled, the
/// awaiting-update set is drained, and the updates this queued are applied too. Returns the
/// `SetBlock` packets of both applications, in order, to be broadcast.
pub fn tick(level: &mut Level, current_tick: usize, rng: &mut ThreadRng) -> (r: Vec<ServerPacket>)
    requires
        old(level).wf(),
    ensures
        final(level).wf(),
        exists|a: Level, b: Level, c: Level, picked: Seq<usize>| {
            &&& applied(old(level), &a)
            &&& sampled(&a, &b, picked)
            &&& drained(&b, &c, current_tick)
            &&& applied(&c, final(level))
            &&& applied_packets(old(level), r@.take(collapsed(old(level).updates@).len() as int))
            &&& applied_packets(&c, r@.skip(collapsed(old(level).updates@).len() as int))
        },
{
    let ghost start = *level;
    let mut packets = level.apply_updates();
    let ghost a = *level;
    let picked = sample_random_updates(level, rng);
    let ghost b = *level;
    process_awaiting(level, current_tick, rng);
    let ghost c = *level;
    let second = level.apply_updates();
    let ghost first = packets@;
    let mut k: usize = 0;
    while k < second.len()
        invariant
            k <= second@.len(),
            packets@.len() == first.len() + k,
            forall|i: int| 0 <= i < first.len() ==> packets@[i] == #[trigger] first[i],
            forall|i: int| 0 <= i < k ==> packets@[first.len() + i] == #[trigger] second@[i],
            applied_packets(&c, second@),
        decreases second@.len() - k,
    {
        let p = second[k].duplicate();
        proof { lemma_same_set_block(p, second@[k as int]); }
        packets.push(p);
        k = k + 1;
    }
    assert(packets@.take(first.len() as int) =~= first);
    assert(packets@.skip(first.len() as int) =~= second@);
    assert(applied(&start, &a) && sampled(&a, &b, picked@) && drained(&b, &c, current_tick) && applied(&c, level));
    packets
}

/// A copy of a `SetBlock` packet is the same packet.
proof fn lemma_same_set_block(p: ServerPacket, q: ServerPacket)
    requires
        same_packet(p, q),
        q is SetBlock,
    ensures
        p == q,
{
}

} // verus!
