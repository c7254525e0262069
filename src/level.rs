use vstd::prelude::*;
use vstd::arithmetic::div_mod::lemma_fundamental_div_mod_converse;

use crate::block::{block_kind, kind_or_solid};
use crate::packet::server::ServerPacket;
use crate::util::{full_offsets, lemma_relative_many_in_bounds, neighbors_full, relative_many};

verus! {

/// A queued change of one block.
#[derive(Debug, Clone, Copy, PartialEq, Eq, Structural)]
pub struct BlockUpdate {
    /// the index of the block to be updated
    pub index: usize,
    /// the block id to set the block to
    pub block: u8,
}

/// The weather of a level.
#[derive(Debug, Clone, Copy, PartialEq, Eq, Structural)]
pub enum WeatherType {
    Sunny,
    Raining,
    Snowing,
}

/// The simulation rules of a level.
#[derive(Debug, Clone, Copy, PartialEq, Eq, Structural)]
pub struct LevelRules {
    /// whether fluids should spread in the level
    pub fluid_spread: bool,
    /// the number of blocks which should receive random tick updates
    pub random_tick_updates: u64,
    /// the chance that grass will spread to an adjacent dirt block when randomly updated
    pub grass_spread_chance: u64,
}

/// A classic level.
#[derive(Debug)]
pub struct Level {
    /// the size of the level in the X direction
    pub x_size: usize,
    /// the size of the level in the Y direction
    pub y_size: usize,
    /// the size of the level in the Z direction
    pub z_size: usize,
    /// the blocks which make up the level
    pub blocks: Vec<u8>,
    /// the level's weather
    pub weather: WeatherType,
    /// the level's rules
    pub rules: LevelRules,
    /// indices of blocks which need to be updated in the next tick, strictly increasing
    pub awaiting_update: Vec<usize>,
    /// indices of blocks which are eligible for random tick updates
    pub possible_random_updates: Vec<usize>,
    /// updates to apply to the level on the next tick, in the order they were queued
    pub updates: Vec<BlockUpdate>,
    /// whether a save was requested
    pub save_now: bool,
    /// what is kept of each player between visits, by username; each username appears once
    pub player_data: Vec<(String, SavablePlayerData)>,
}

/// What is kept of a player between visits: where it was and where it looked.
#[derive(Debug, Clone, Copy, PartialEq, Eq, Structural)]
pub struct SavablePlayerData {
    pub x: i16,
    pub y: i16,
    pub z: i16,
    pub yaw: u8,
    pub pitch: u8,
}

/// Whether no username appears twice.
pub open spec fn unique_names(m: Seq<(String, SavablePlayerData)>) -> bool {
    forall|i: int, j: int| 0 <= i < j < m.len() ==> (#[trigger] m[i]).0@ != (#[trigger] m[j]).0@
}

/// Whether `b` differs from `a` at most in its player data.
pub open spec fn only_player_data_changed(a: &Level, b: &Level) -> bool {
    &&& b.dims() == a.dims()
    &&& b.blocks@ == a.blocks@
    &&& b.weather == a.weather
    &&& b.rules == a.rules
    &&& b.awaiting_update@ == a.awaiting_update@
    &&& b.possible_random_updates@ == a.possible_random_updates@
    &&& b.updates@ == a.updates@
    &&& b.save_now == a.save_now
}

/// The data the last entry for `name` in `v` gives, else `otherwise`.
pub open spec fn last_listed(v: Seq<(String, SavablePlayerData)>, name: Seq<char>, otherwise: Option<SavablePlayerData>)
    -> Option<SavablePlayerData>
    decreases v.len(),
{
    if v.len() == 0 {
        otherwise
    } else if v.last().0@ == name {
        Some(v.last().1)
    } else {
        last_listed(v.drop_last(), name, otherwise)
    }
}

/// The data kept for a username, if any.
pub open spec fn saved_data_of(m: Seq<(String, SavablePlayerData)>, name: Seq<char>) -> Option<SavablePlayerData>
    decreases m.len(),
{
    if m.len() == 0 {
        None
    } else if m[0].0@ == name {
        Some(m[0].1)
    } else {
        saved_data_of(m.skip(1), name)
    }
}

proof fn lemma_saved_at(m: Seq<(String, SavablePlayerData)>, i: int)
    requires
        unique_names(m),
        0 <= i < m.len(),
    ensures
        saved_data_of(m, m[i].0@) == Some(m[i].1),
    decreases i,
{
    if i > 0 {
        assert(m[0].0@ != m[i].0@);
        assert(m.skip(1)[i - 1] == m[i]);
        assert forall|a: int, b: int| 0 <= a < b < m.skip(1).len() implies
            (#[trigger] m.skip(1)[a]).0@ != (#[trigger] m.skip(1)[b]).0@ by {
            assert(m.skip(1)[a] == m[a + 1] && m.skip(1)[b] == m[b + 1]);
        }
        lemma_saved_at(m.skip(1), i - 1);
    }
}

proof fn lemma_saved_absent(m: Seq<(String, SavablePlayerData)>, name: Seq<char>)
    requires
        forall|i: int| 0 <= i < m.len() ==> (#[trigger] m[i]).0@ != name,
    ensures
        saved_data_of(m, name) is None,
    decreases m.len(),
{
    if m.len() > 0 {
        assert forall|i: int| 0 <= i < m.skip(1).len() implies (#[trigger] m.skip(1)[i]).0@ != name by {
            assert(m.skip(1)[i] == m[i + 1]);
        }
        lemma_saved_absent(m.skip(1), name);
    }
}

/// For unique names, the data kept for a name is that of the entry with the name, if any.
proof fn lemma_saved_iff(m: Seq<(String, SavablePlayerData)>, name: Seq<char>)
    requires
        unique_names(m),
    ensures
        saved_data_of(m, name) is None <==> forall|i: int| 0 <= i < m.len() ==> (#[trigger] m[i]).0@ != name,
        forall|i: int| 0 <= i < m.len() && (#[trigger] m[i]).0@ == name ==> saved_data_of(m, name) == Some(m[i].1),
{
    if exists|i: int| 0 <= i < m.len() && (#[trigger] m[i]).0@ == name {
        let i = choose|i: int| 0 <= i < m.len() && (#[trigger] m[i]).0@ == name;
        lemma_saved_at(m, i);
    } else {
        lemma_saved_absent(m, name);
    }
    assert forall|i: int| 0 <= i < m.len() && (#[trigger] m[i]).0@ == name implies saved_data_of(m, name) == Some(m[i].1) by {
        lemma_saved_at(m, i);
    }
}

/// The number of cells of a level with the given dimensions.
pub open spec fn volume(xs: usize, ys: usize, zs: usize) -> int {
    xs * ys * zs
}

/// The flat index of a cell.
pub open spec fn index_of(xs: usize, zs: usize, x: usize, y: usize, z: usize) -> int {
    x + z * xs + y * xs * zs
}

/// The cell of a flat index.
pub open spec fn coords_of(xs: usize, zs: usize, i: int) -> (usize, usize, usize) {
    ((i % (xs as int)) as usize, (i / (xs * zs)) as usize, ((i / (xs as int)) % (zs as int)) as usize)
}

/// Whether a sequence is strictly increasing.
pub open spec fn strictly_sorted(s: Seq<usize>) -> bool {
    forall|i: int, j: int| 0 <= i < j < s.len() ==> s[i] < s[j]
}

impl Level {
    /// The dimensions of this level.
    pub open spec fn dims(&self) -> (usize, usize, usize) {
        (self.x_size, self.y_size, self.z_size)
    }

    /// The number of cells of this level.
    pub open spec fn spec_volume(&self) -> int {
        volume(self.x_size, self.y_size, self.z_size)
    }

    /// Whether `(x, y, z)` lies inside the level.
    pub open spec fn in_bounds(&self, x: usize, y: usize, z: usize) -> bool {
        x < self.x_size && y < self.y_size && z < self.z_size
    }

    /// The flat index of an in-bounds cell.
    pub open spec fn spec_index(&self, x: usize, y: usize, z: usize) -> int {
        index_of(self.x_size, self.z_size, x, y, z)
    }

    /// The cell of a flat index.
    pub open spec fn spec_coordinates(&self, i: int) -> (usize, usize, usize) {
        coords_of(self.x_size, self.z_size, i)
    }

    /// The block at an in-bounds cell.
    pub open spec fn block_at(&self, x: usize, y: usize, z: usize) -> u8 {
        self.blocks@[self.spec_index(x, y, z)]
    }

    /// The awaiting-update set as a mathematical set.
    pub open spec fn awaiting(&self) -> Set<usize> {
        self.awaiting_update@.to_set()
    }

    /// The level is well formed: positive dimensions, a block for every cell, and every queued
    /// index inside the level; the awaiting-update indices are kept strictly increasing.
    pub open spec fn wf(&self) -> bool {
        &&& self.x_size > 0
        &&& self.y_size > 0
        &&& self.z_size > 0
        &&& self.blocks@.len() == self.spec_volume()
        &&& strictly_sorted(self.awaiting_update@)
        &&& forall|i: int| 0 <= i < self.awaiting_update@.len() ==> self.awaiting_update@[i] < self.spec_volume()
        &&& forall|i: int| 0 <= i < self.possible_random_updates@.len() ==> self.possible_random_updates@[i] < self.spec_volume()
        &&& forall|i: int| 0 <= i < self.updates@.len() ==> self.updates@[i].index < self.spec_volume()
        &&& unique_names(self.player_data@)
    }

    /// Creates a new level of air with the given dimensions and default rules.
    pub fn new(x_size: usize, y_size: usize, z_size: usize) -> (r: Level)
        requires
            x_size > 0,
            y_size > 0,
            z_size > 0,
            volume(x_size, y_size, z_size) <= usize::MAX,
        ensures
            r.wf(),
            r.x_size == x_size,
            r.y_size == y_size,
            r.z_size == z_size,
            forall|i: int| 0 <= i < r.blocks@.len() ==> r.blocks@[i] == 0,
            r.weather == WeatherType::Sunny,
            r.rules == default_rules(),
            r.awaiting_update@.len() == 0,
            r.possible_random_updates@.len() == 0,
            r.updates@.len() == 0,
            !r.save_now,
            r.player_data@.len() == 0,
    {
        assert(0 <= x_size * y_size <= x_size * y_size * z_size) by (nonlinear_arith)
            requires x_size > 0, y_size > 0, z_size > 0;
        let n = x_size * y_size * z_size;
        let blocks = vec![0u8; n];
        Level {
            x_size,
            y_size,
            z_size,
            blocks,
            weather: WeatherType::Sunny,
            rules: LevelRules::default_rules(),
            awaiting_update: Vec::new(),
            possible_random_updates: Vec::new(),
            updates: Vec::new(),
            save_now: false,
            player_data: Vec::new(),
        }
    }

    /// Gets the flat index of a block position.
    pub fn index(&self, x: usize, y: usize, z: usize) -> (r: usize)
        requires
            self.wf(),
            self.in_bounds(x, y, z),
        ensures
            r == self.spec_index(x, y, z),
            r < self.spec_volume(),
    {
        proof { self.lemma_index_bounds(x, y, z); }
        let _n = self.blocks.len();
        x + z * self.x_size + y * self.x_size * self.z_size
    }

    proof fn lemma_index_bounds(&self, x: usize, y: usize, z: usize)
        requires
            self.wf(),
            self.in_bounds(x, y, z),
        ensures
            0 <= z * self.x_size <= self.spec_volume(),
            0 <= y * self.x_size * self.z_size <= self.spec_volume(),
            0 <= y * self.x_size <= self.spec_volume(),
            x + z * self.x_size < self.x_size * self.z_size <= self.spec_volume(),
            self.spec_index(x, y, z) < self.spec_volume(),
    {
        let (xs, ys, zs) = (self.x_size as int, self.y_size as int, self.z_size as int);
        assert(x + z * xs < xs * zs) by (nonlinear_arith)
            requires x < xs, z < zs, 0 <= x, 0 <= z;
        assert(x + z * xs + y * xs * zs < xs * ys * zs) by (nonlinear_arith)
            requires x + z * xs < xs * zs, y < ys, 0 <= y, 0 <= x, 0 <= z, xs > 0, zs > 0;
        assert(0 <= z * xs && 0 <= y * xs * zs) by (nonlinear_arith)
            requires 0 <= z, 0 <= y, xs > 0, zs > 0;
        assert(xs * zs <= xs * ys * zs) by (nonlinear_arith) requires xs > 0, ys > 0, zs > 0;
        assert(y * xs * zs <= xs * ys * zs) by (nonlinear_arith) requires 0 <= y < ys, xs > 0, zs > 0;
        assert(0 <= y * xs <= y * xs * zs) by (nonlinear_arith) requires 0 <= y, xs > 0, zs > 0;
    }

    /// Gets the coordinates of a flat index.
    pub fn coordinates(&self, index: usize) -> (r: (usize, usize, usize))
        requires
            self.wf(),
            index < self.spec_volume(),
        ensures
            r == self.spec_coordinates(index as int),
            self.in_bounds(r.0, r.1, r.2),
            self.spec_index(r.0, r.1, r.2) == index,
    {
        proof { self.lemma_coordinates_round_trip(index as int); }
        let _n = self.blocks.len();
        let xz = self.x_size * self.z_size;
        let y = index / xz;
        let z = (index / self.x_size) % self.z_size;
        let x = index % self.x_size;
        (x, y, z)
    }

    /// Every flat index inside the level is the index of the cell it names.
    pub proof fn lemma_coordinates_round_trip(&self, i: int)
        requires
            self.wf(),
            0 <= i < self.spec_volume(),
        ensures
            0 < self.x_size * self.z_size <= self.spec_volume(),
            ({
                let c = self.spec_coordinates(i);
                self.in_bounds(c.0, c.1, c.2) && self.spec_index(c.0, c.1, c.2) == i
            }),
    {
        let (xs, ys, zs) = (self.x_size as int, self.y_size as int, self.z_size as int);
        assert(xs * zs <= xs * ys * zs) by (nonlinear_arith) requires xs > 0, ys > 0, zs > 0;
        assert(xs * zs > 0) by (nonlinear_arith) requires xs > 0, zs > 0;
        let x = i % xs;
        let q = i / xs;
        let z = q % zs;
        let y = q / zs;
        assert(i == xs * q + x && 0 <= x < xs) by {
            vstd::arithmetic::div_mod::lemma_fundamental_div_mod(i, xs);
        }
        assert(q == zs * y + z && 0 <= z < zs) by {
            vstd::arithmetic::div_mod::lemma_fundamental_div_mod(q, zs);
        }
        assert(i == y * (xs * zs) + (x + z * xs)) by (nonlinear_arith)
            requires i == xs * q + x, q == zs * y + z;
        assert(0 <= x + z * xs < xs * zs) by (nonlinear_arith)
            requires 0 <= x < xs, 0 <= z < zs;
        lemma_fundamental_div_mod_converse(i, xs * zs, y, x + z * xs);
        assert(0 <= y < ys) by (nonlinear_arith)
            requires i == y * (xs * zs) + (x + z * xs), 0 <= x + z * xs < xs * zs, 0 <= i < xs * ys * zs, xs * zs > 0;
        assert(x + z * xs + y * xs * zs == i) by (nonlinear_arith)
            requires i == y * (xs * zs) + (x + z * xs);
    }

    /// Indexing and coordinates are inverse on the cells of the level, and every cell's index
    /// lies in `0..volume`.
    pub proof fn lemma_index_round_trip(&self, x: usize, y: usize, z: usize)
        requires
            self.wf(),
            self.in_bounds(x, y, z),
        ensures
            0 <= self.spec_index(x, y, z) < self.spec_volume(),
            self.spec_coordinates(self.spec_index(x, y, z)) == (x, y, z),
    {
        self.lemma_index_bounds(x, y, z);
        let (xs, zs) = (self.x_size as int, self.z_size as int);
        let i = self.spec_index(x, y, z);
        assert(i == xs * (z + zs * y) + x) by (nonlinear_arith)
            requires i == x + z * xs + y * xs * zs;
        lemma_fundamental_div_mod_converse(i, xs, z + zs * y, x as int);
        lemma_fundamental_div_mod_converse(z + zs * y, zs, y as int, z as int);
        assert(i == y * (xs * zs) + (x + z * xs)) by (nonlinear_arith)
            requires i == x + z * xs + y * xs * zs;
        assert(0 <= x + z * xs) by (nonlinear_arith) requires 0 <= x, 0 <= z, xs > 0;
        lemma_fundamental_div_mod_converse(i, xs * zs, y as int, x + z * xs);
    }

    /// Inserts an index into the awaiting-update set, keeping it strictly increasing.
    pub fn insert_awaiting(&mut self, index: usize)
        requires
            old(self).wf(),
            index < old(self).spec_volume(),
        ensures
            final(self).wf(),
            final(self).awaiting() == old(self).awaiting().insert(index),
            final(self).blocks@ == old(self).blocks@,
            final(self).x_size == old(self).x_size,
            final(self).y_size == old(self).y_size,
            final(self).z_size == old(self).z_size,
            final(self).weather == old(self).weather,
            final(self).rules == old(self).rules,
            final(self).possible_random_updates@ == old(self).possible_random_updates@,
            final(self).updates@ == old(self).updates@,
            final(self).save_now == old(self).save_now,
            final(self).player_data@ == old(self).player_data@,
    {
        let mut p: usize = 0;
        while p < self.awaiting_update.len() && self.awaiting_update[p] < index
            invariant
                p <= self.awaiting_update@.len(),
                forall|j: int| 0 <= j < p ==> self.awaiting_update@[j] < index,
            decreases self.awaiting_update@.len() - p,
        {
            p = p + 1;
        }
        if p < self.awaiting_update.len() && self.awaiting_update[p] == index {
            assert(self.awaiting_update@.to_set().insert(index) =~= self.awaiting_update@.to_set()) by {
                assert(self.awaiting_update@.contains(index));
            }
            return;
        }
        let ghost before = self.awaiting_update@;
        self.awaiting_update.insert(p, index);
        proof {
            let after = self.awaiting_update@;
            assert(after =~= before.take(p as int).push(index) + before.skip(p as int));
            assert forall|i: int, j: int| 0 <= i < j < after.len() implies after[i] < after[j] by {
                if j == p {
                } else if i == p {
                    assert(after[j] == before[j - 1]);
                    assert(before[j - 1] >= index);
                } else if j < p {
                } else if i < p {
                    assert(after[j] == before[j - 1]);
                    assert(before[i] < before[j - 1] || i == j - 1);
                } else {
                    assert(after[i] == before[i - 1]);
                }
            }
            assert(after.to_set() =~= before.to_set().insert(index)) by {
                assert forall|v: usize| after.to_set().contains(v) <==> before.to_set().insert(index).contains(v) by {
                    if v == index {
                        assert(after[p as int] == index);
                    }
                    if after.contains(v) {
                        let k = choose|k: int| 0 <= k < after.len() && after[k] == v;
                        if k < p { assert(before[k] == v); } else if k > p { assert(before[k - 1] == v); }
                    }
                    if before.contains(v) {
                        let k = choose|k: int| 0 <= k < before.len() && before[k] == v;
                        if k < p { assert(after[k] == v); } else { assert(after[k + 1] == v); }
                    }
                }
            }
        }
    }

    fn collapse_updates(ups: &Vec<BlockUpdate>) -> (r: Vec<BlockUpdate>)
        ensures
            r@ == collapsed(ups@),
    {
        let mut out: Vec<BlockUpdate> = Vec::new();
        let mut i: usize = 0;
        while i < ups.len()
            invariant
                i <= ups@.len(),
                out@ == collapsed(ups@.take(i as int)),
            decreases ups@.len() - i,
        {
            let u = ups[i];
            let mut kept: Vec<BlockUpdate> = Vec::new();
            let mut j: usize = 0;
            while j < out.len()
                invariant
                    j <= out@.len(),
                    kept@ == without_index(out@.take(j as int), u.index),
                decreases out@.len() - j,
            {
                assert(out@.take(j + 1).drop_last() =~= out@.take(j as int));
                if out[j].index != u.index {
                    kept.push(out[j]);
                }
                j = j + 1;
            }
            assert(out@.take(out@.len() as int) =~= out@);
            kept.push(u);
            assert(ups@.take(i + 1).drop_last() =~= ups@.take(i as int));
            out = kept;
            i = i + 1;
        }
        assert(ups@.take(ups@.len() as int) =~= ups@);
        out
    }

    /// Applies the queued updates: the queue is collapsed so that each index keeps its latest
    /// update, then each update is written in turn, broadcast as a `SetBlock` packet, and every
    /// cell of the cube around it that waits on its neighbours is scheduled.
    pub fn apply_updates(&mut self) -> (r: Vec<ServerPacket>)
        requires
            old(self).wf(),
        ensures
            final(self).wf(),
            applied(old(self), final(self)),
            applied_packets(old(self), r@),
    {
        let ghost start = *self;
        let c = Level::collapse_updates(&self.updates);
        proof { self.lemma_collapsed_in_bounds(self.updates@); }
        self.updates = Vec::new();
        let mut packets: Vec<ServerPacket> = Vec::new();
        let mut t: usize = 0;
        while t < c.len()
            invariant
                self.wf(),
                t <= c@.len(),
                c@ == collapsed(start.updates@),
                forall|i: int| 0 <= i < c@.len() ==> c@[i].index < self.spec_volume(),
                self.dims() == start.dims(),
                self.updates@.len() == 0,
                self.blocks@ == written(start.blocks@, c@.take(t as int)),
                forall|k: usize| #[trigger] self.awaiting().contains(k) <==> (start.awaiting().contains(k)
                    || notified(start.dims(), start.blocks@, c@.take(t as int), k)),
                packets@.len() == t,
                forall|i: int| 0 <= i < t ==> packets@[i] == set_block_packet(start.dims(), c@[i]),
                self.weather == start.weather,
                self.rules == start.rules,
                self.possible_random_updates@ == start.possible_random_updates@,
                self.save_now == start.save_now,
                self.player_data@ == start.player_data@,
            decreases c@.len() - t,
        {
            let u = c[t];
            let ghost head_aw = self.awaiting();
            assert(forall|k: usize| #[trigger] head_aw.contains(k) <==> (start.awaiting().contains(k)
                || notified(start.dims(), start.blocks@, c@.take(t as int), k)));
            let (x, y, z) = self.coordinates(u.index);
            self.blocks.set(u.index, u.block);
            assert(c@.take(t + 1).drop_last() =~= c@.take(t as int));
            assert(c@.take(t + 1).last() == u);
            packets.push(ServerPacket::SetBlock {
                x: #[verifier::truncate] (x as i16),
                y: #[verifier::truncate] (y as i16),
                z: #[verifier::truncate] (z as i16),
                block_type: u.block,
            });
            let nbrs = neighbors_full(self, x, y, z);
            proof { lemma_relative_many_in_bounds(self.dims(), x, y, z, full_offsets()); }
            let ghost before = self.awaiting();
            assert(before == head_aw);
            let mut j: usize = 0;
            while j < nbrs.len()
                invariant
                    self.wf(),
                    j <= nbrs@.len(),
                    nbrs@ == cube_around(start.dims(), u.index),
                    forall|m: int| 0 <= m < nbrs@.len() ==> self.in_bounds(#[trigger] nbrs@[m].0, nbrs@[m].1, nbrs@[m].2),
                    self.dims() == start.dims(),
                    self.updates@.len() == 0,
                    self.blocks@ == written(start.blocks@, c@.take(t + 1)),
                    forall|k: usize| #[trigger] self.awaiting().contains(k) <==> (before.contains(k)
                        || (kind_or_solid(self.blocks@[k as int]) is FluidStationary && hits(start.dims(), nbrs@, j as int, k))),
                    self.weather == start.weather,
                    self.rules == start.rules,
                    self.possible_random_updates@ == start.possible_random_updates@,
                    self.save_now == start.save_now,
                    self.player_data@ == start.player_data@,
                decreases nbrs@.len() - j,
            {
                let (nx, ny, nz) = nbrs[j];
                let ni = self.index(nx, ny, nz);
                let kind = block_kind(self.blocks[ni]);
                let ghost mid = self.awaiting();
                if kind.needs_update_when_neighbor_changed() {
                    self.insert_awaiting(ni);
                }
                proof {
                    assert(ni == idx3(start.dims(), nbrs@[j as int]));
                    assert(kind == kind_or_solid(self.blocks@[ni as int]));
                    assert(kind is FluidStationary ==> self.awaiting() == mid.insert(ni));
                    assert(!(kind is FluidStationary) ==> self.awaiting() == mid);
                    assert(forall|k: usize| #[trigger] mid.contains(k) <==> (before.contains(k)
                        || (kind_or_solid(self.blocks@[k as int]) is FluidStationary && hits(start.dims(), nbrs@, j as int, k))));
                    assert forall|k: usize| #[trigger] self.awaiting().contains(k) <==> (before.contains(k)
                        || (kind_or_solid(self.blocks@[k as int]) is FluidStationary && hits(start.dims(), nbrs@, j + 1, k))) by {
                        if hits(start.dims(), nbrs@, j + 1, k) {
                            let m = choose|m: int| 0 <= m < j + 1 && idx3(start.dims(), #[trigger] nbrs@[m]) == k;
                            if m < j {
                                assert(hits(start.dims(), nbrs@, j as int, k));
                            }
                        }
                        if k == ni {
                            assert(hits(start.dims(), nbrs@, j + 1, k));
                        }
                        if hits(start.dims(), nbrs@, j as int, k) {
                            let m = choose|m: int| 0 <= m < j && idx3(start.dims(), #[trigger] nbrs@[m]) == k;
                            assert(hits(start.dims(), nbrs@, j + 1, k));
                        }
                    }
                }
                j = j + 1;
            }
            proof {
                assert forall|k: usize| #[trigger] self.awaiting().contains(k) <==> (start.awaiting().contains(k)
                    || notified(start.dims(), start.blocks@, c@.take(t + 1), k)) by {
                    assert(near(start.dims(), u.index, k) == hits(start.dims(), nbrs@, nbrs@.len() as int, k));
                    assert(before.contains(k) <==> (start.awaiting().contains(k)
                        || notified(start.dims(), start.blocks@, c@.take(t as int), k)));
                    let tk = c@.take(t + 1);
                    assert(tk.drop_last() =~= c@.take(t as int));
                    assert(tk.last() == u);
                    assert(notified(start.dims(), start.blocks@, tk, k) == (notified(start.dims(), start.blocks@, c@.take(t as int), k)
                        || (near(start.dims(), u.index, k) && kind_or_solid(written(start.blocks@, tk)[k as int]) is FluidStationary)));
                }
            }
            t = t + 1;
        }
        assert(c@.take(c@.len() as int) =~= c@);
        packets
    }

    proof fn lemma_collapsed_in_bounds(&self, s: Seq<BlockUpdate>)
        requires
            forall|i: int| 0 <= i < s.len() ==> s[i].index < self.spec_volume(),
        ensures
            forall|i: int| 0 <= i < collapsed(s).len() ==> collapsed(s)[i].index < self.spec_volume(),
        decreases s.len(),
    {
        if s.len() > 0 {
            self.lemma_collapsed_in_bounds(s.drop_last());
            lemma_without_index_subset(collapsed(s.drop_last()), s.last().index);
        }
    }

    /// Queues a block update for the next application.
    pub fn queue_update(&mut self, update: BlockUpdate)
        requires
            old(self).wf(),
            update.index < old(self).spec_volume(),
        ensures
            final(self).wf(),
            final(self).updates@ == old(self).updates@.push(update),
            final(self).blocks@ == old(self).blocks@,
            final(self).dims() == old(self).dims(),
            final(self).weather == old(self).weather,
            final(self).rules == old(self).rules,
            final(self).awaiting_update@ == old(self).awaiting_update@,
            final(self).possible_random_updates@ == old(self).possible_random_updates@,
            final(self).save_now == old(self).save_now,
            final(self).player_data@ == old(self).player_data@,
    {
        self.updates.push(update);
    }

    /// Makes an index eligible for random tick updates once more.
    pub fn push_random_candidate(&mut self, index: usize)
        requires
            old(self).wf(),
            index < old(self).spec_volume(),
        ensures
            final(self).wf(),
            final(self).possible_random_updates@ == old(self).possible_random_updates@.push(index),
            final(self).blocks@ == old(self).blocks@,
            final(self).dims() == old(self).dims(),
            final(self).weather == old(self).weather,
            final(self).rules == old(self).rules,
            final(self).awaiting_update@ == old(self).awaiting_update@,
            final(self).updates@ == old(self).updates@,
            final(self).save_now == old(self).save_now,
            final(self).player_data@ == old(self).player_data@,
    {
        self.possible_random_updates.push(index);
    }

    /// Rebuilds a saved level: `None` unless the dimensions are positive, the blocks fill them
    /// exactly and every random-tick candidate lies inside; every flowing fluid is scheduled so
    /// that the simulation resumes where it stopped.
    pub fn from_saved(x_size: usize, y_size: usize, z_size: usize, blocks: Vec<u8>, weather: WeatherType,
        rules: LevelRules, possible_random_updates: Vec<usize>, player_data: Vec<(String, SavablePlayerData)>)
        -> (r: Option<Level>)
        ensures
            r is Some <==> (x_size > 0 && y_size > 0 && z_size > 0 && blocks@.len() == volume(x_size, y_size, z_size)
                && (forall|i: int| 0 <= i < possible_random_updates@.len() ==> possible_random_updates@[i] < blocks@.len())
                && unique_names(player_data@)),
            r matches Some(l) ==> {
                &&& l.wf()
                &&& l.dims() == (x_size, y_size, z_size)
                &&& l.blocks@ == blocks@
                &&& l.weather == weather
                &&& l.rules == rules
                &&& l.possible_random_updates@ == possible_random_updates@
                &&& l.player_data@ == player_data@
                &&& l.updates@.len() == 0
                &&& !l.save_now
                &&& forall|i: usize| #[trigger] l.awaiting().contains(i) <==> (i < blocks@.len()
                    && kind_or_solid(blocks@[i as int]) is FluidFlowing)
            },
    {
        if x_size == 0 || y_size == 0 || z_size == 0 {
            return None;
        }
        if x_size > usize::MAX / y_size {
            proof {
                assert(x_size * y_size > usize::MAX) by (nonlinear_arith) requires x_size > usize::MAX / y_size, y_size > 0;
                assert(x_size * y_size * z_size >= x_size * y_size) by (nonlinear_arith) requires z_size > 0, x_size > 0, y_size > 0;
                let _n = blocks@.len();
            }
            let _n = blocks.len();
            return None;
        }
        assert(x_size * y_size <= usize::MAX) by (nonlinear_arith) requires x_size <= usize::MAX / y_size, y_size > 0;
        let xy = x_size * y_size;
        if xy > usize::MAX / z_size {
            proof {
                assert(xy * z_size > usize::MAX) by (nonlinear_arith) requires xy > usize::MAX / z_size, z_size > 0;
            }
            let _n = blocks.len();
            return None;
        }
        assert(xy * z_size <= usize::MAX) by (nonlinear_arith) requires xy <= usize::MAX / z_size, z_size > 0;
        let n = xy * z_size;
        if blocks.len() != n {
            return None;
        }
        let mut k: usize = 0;
        while k < possible_random_updates.len()
            invariant
                k <= possible_random_updates@.len(),
                n == blocks@.len(),
                forall|j: int| 0 <= j < k ==> possible_random_updates@[j] < n,
            decreases possible_random_updates@.len() - k,
        {
            if possible_random_updates[k] >= n {
                assert(possible_random_updates@[k as int] >= blocks@.len());
                return None;
            }
            k = k + 1;
        }
        let mut a: usize = 0;
        while a < player_data.len()
            invariant
                a <= player_data@.len(),
                forall|p: int, q: int| 0 <= p < q < player_data@.len() && p < a ==>
                    (#[trigger] player_data@[p]).0@ != (#[trigger] player_data@[q]).0@,
            decreases player_data@.len() - a,
        {
            let mut b: usize = a + 1;
            while b < player_data.len()
                invariant
                    a < b <= player_data@.len(),
                    forall|p: int, q: int| 0 <= p < q < player_data@.len() && p < a ==>
                        (#[trigger] player_data@[p]).0@ != (#[trigger] player_data@[q]).0@,
                    forall|q: int| a < q < b ==> player_data@[a as int].0@ != (#[trigger] player_data@[q]).0@,
                decreases player_data@.len() - b,
            {
                if player_data[a].0 == player_data[b].0 {
                    assert(!unique_names(player_data@)) by {
                        assert(player_data@[a as int].0@ == player_data@[b as int].0@);
                    }
                    return None;
                }
                b = b + 1;
            }
            a = a + 1;
        }
        let mut awaiting: Vec<usize> = Vec::new();
        let mut i: usize = 0;
        while i < n
            invariant
                i <= n,
                n == blocks@.len(),
                strictly_sorted(awaiting@),
                forall|j: int| 0 <= j < awaiting@.len() ==> awaiting@[j] < i,
                forall|v: usize| #[trigger] awaiting@.to_set().contains(v) <==> (v < i && kind_or_solid(blocks@[v as int]) is FluidFlowing),
            decreases n - i,
        {
            let ghost before = awaiting@;
            if block_kind(blocks[i]).needs_update_on_place() {
                awaiting.push(i);
                proof {
                    assert forall|v: usize| #[trigger] awaiting@.to_set().contains(v) <==> (v < i + 1 && kind_or_solid(blocks@[v as int]) is FluidFlowing) by {
                        assert(before.to_set().contains(v) <==> (v < i && kind_or_solid(blocks@[v as int]) is FluidFlowing));
                        if v == i {
                            assert(awaiting@[before.len() as int] == i);
                        }
                        if awaiting@.contains(v) && v != i {
                            let q = choose|q: int| 0 <= q < awaiting@.len() && awaiting@[q] == v;
                            assert(before[q] == v);
                        }
                        if before.contains(v) {
                            let q = choose|q: int| 0 <= q < before.len() && before[q] == v;
                            assert(awaiting@[q] == v);
                        }
                    }
                }
            }
            i = i + 1;
        }
        Some(Level {
            x_size,
            y_size,
            z_size,
            blocks,
            weather,
            rules,
            awaiting_update: awaiting,
            possible_random_updates,
            updates: Vec::new(),
            save_now: false,
            player_data,
        })
    }

    /// Saving and loading keep a level: the parts of a well-formed level are always accepted by
    /// `from_saved`, which gives back the same dimensions, blocks, weather, rules and random-tick
    /// pool and player data, and schedules exactly the flowing fluids.
    pub proof fn lemma_saved_parts_load(&self)
        requires
            self.wf(),
        ensures
            self.x_size > 0 && self.y_size > 0 && self.z_size > 0,
            self.blocks@.len() == volume(self.x_size, self.y_size, self.z_size),
            forall|i: int| 0 <= i < self.possible_random_updates@.len()
                ==> self.possible_random_updates@[i] < self.blocks@.len(),
            unique_names(self.player_data@),
    {
    }

    /// Keeps `data` for `username`, replacing what was kept for it.
    pub fn store_player_data(&mut self, username: &str, data: SavablePlayerData)
        requires
            old(self).wf(),
        ensures
            final(self).wf(),
            saved_data_of(final(self).player_data@, username@) == Some(data),
            forall|n: Seq<char>| n != username@ ==> #[trigger] saved_data_of(final(self).player_data@, n)
                == saved_data_of(old(self).player_data@, n),
            only_player_data_changed(old(self), final(self)),
    {
        let ghost before = self.player_data@;
        let mut i: usize = 0;
        while i < self.player_data.len()
            invariant
                i <= self.player_data@.len(),
                *self == *old(self),
                self.wf(),
                self.player_data@ == before,
                unique_names(before),
                forall|k: int| 0 <= k < i ==> (#[trigger] before[k]).0@ != username@,
            decreases self.player_data@.len() - i,
        {
            if self.player_data[i].0 == String::from_str(username) {
                self.player_data.set(i, (String::from_str(username), data));
                proof {
                    let after = self.player_data@;
                    assert forall|p: int, q: int| 0 <= p < q < after.len() implies
                        (#[trigger] after[p]).0@ != (#[trigger] after[q]).0@ by {
                        if p == i { assert(before[i as int].0@ == after[p].0@); }
                        if q == i { assert(before[i as int].0@ == after[q].0@); }
                        if p != i && q != i { assert(after[p] == before[p] && after[q] == before[q]); }
                    }
                    assert(unique_names(after));
                    lemma_saved_at(after, i as int);
                    assert forall|n: Seq<char>| n != username@ implies #[trigger] saved_data_of(after, n)
                        == saved_data_of(before, n) by {
                        lemma_saved_iff(after, n);
                        lemma_saved_iff(before, n);
                        if exists|k: int| 0 <= k < before.len() && (#[trigger] before[k]).0@ == n {
                            let k = choose|k: int| 0 <= k < before.len() && (#[trigger] before[k]).0@ == n;
                            assert(after[k] == before[k]);
                        }
                        if exists|k: int| 0 <= k < after.len() && (#[trigger] after[k]).0@ == n {
                            let k = choose|k: int| 0 <= k < after.len() && (#[trigger] after[k]).0@ == n;
                            assert(after[k] == before[k]);
                        }
                    }
                }
                return;
            }
            i = i + 1;
        }
        self.player_data.push((String::from_str(username), data));
        proof {
            let after = self.player_data@;
            assert forall|p: int, q: int| 0 <= p < q < after.len() implies
                (#[trigger] after[p]).0@ != (#[trigger] after[q]).0@ by {
                if q == before.len() { assert(after[p] == before[p]); }
            }
            lemma_saved_at(after, before.len() as int);
            assert forall|n: Seq<char>| n != username@ implies #[trigger] saved_data_of(after, n)
                == saved_data_of(before, n) by {
                lemma_saved_iff(after, n);
                lemma_saved_iff(before, n);
                if exists|k: int| 0 <= k < before.len() && (#[trigger] before[k]).0@ == n {
                    let k = choose|k: int| 0 <= k < before.len() && (#[trigger] before[k]).0@ == n;
                    assert(after[k] == before[k]);
                }
                if exists|k: int| 0 <= k < after.len() && (#[trigger] after[k]).0@ == n {
                    let k = choose|k: int| 0 <= k < after.len() && (#[trigger] after[k]).0@ == n;
                    if k < before.len() { assert(after[k] == before[k]); }
                }
            }
        }
    }

    /// Keeps the data of each listed player; a name listed twice keeps its last entry.
    pub fn update_player_data(&mut self, player_data: Vec<(String, SavablePlayerData)>)
        requires
            old(self).wf(),
        ensures
            final(self).wf(),
            forall|n: Seq<char>| #[trigger] saved_data_of(final(self).player_data@, n)
                == last_listed(player_data@, n, saved_data_of(old(self).player_data@, n)),
            only_player_data_changed(old(self), final(self)),
    {
        let mut i: usize = 0;
        while i < player_data.len()
            invariant
                self.wf(),
                i <= player_data@.len(),
                only_player_data_changed(old(self), self),
                forall|n: Seq<char>| #[trigger] saved_data_of(self.player_data@, n)
                    == last_listed(player_data@.take(i as int), n, saved_data_of(old(self).player_data@, n)),
            decreases player_data@.len() - i,
        {
            let ghost before = self.player_data@;
            self.store_player_data(player_data[i].0.as_str(), player_data[i].1);
            assert(player_data@.take(i + 1).drop_last() =~= player_data@.take(i as int));
            i = i + 1;
        }
        assert(player_data@.take(player_data@.len() as int) =~= player_data@);
    }

    /// Gets the block at the given position.
    pub fn get_block(&self, x: usize, y: usize, z: usize) -> (r: u8)
        requires
            self.wf(),
            self.in_bounds(x, y, z),
        ensures
            r == self.block_at(x, y, z),
    {
        let i = self.index(x, y, z);
        self.blocks[i]
    }

    /// Sets the block at the given position directly, with no notification of its neighbours.
    pub fn set_block(&mut self, x: usize, y: usize, z: usize, block: u8)
        requires
            old(self).wf(),
            old(self).in_bounds(x, y, z),
        ensures
            final(self).wf(),
            final(self).blocks@ == old(self).blocks@.update(old(self).spec_index(x, y, z), block),
            final(self).x_size == old(self).x_size,
            final(self).y_size == old(self).y_size,
            final(self).z_size == old(self).z_size,
            final(self).weather == old(self).weather,
            final(self).rules == old(self).rules,
            final(self).awaiting_update@ == old(self).awaiting_update@,
            final(self).possible_random_updates@ == old(self).possible_random_updates@,
            final(self).updates@ == old(self).updates@,
            final(self).save_now == old(self).save_now,
            final(self).player_data@ == old(self).player_data@,
    {
        let i = self.index(x, y, z);
        self.blocks.set(i, block);
    }
}

/// `s` without the updates of index `k`, order kept.
pub open spec fn without_index(s: Seq<BlockUpdate>, k: usize) -> Seq<BlockUpdate>
    decreases s.len(),
{
    if s.len() == 0 {
        s
    } else {
        let rest = without_index(s.drop_last(), k);
        if s.last().index == k {
            rest
        } else {
            rest.push(s.last())
        }
    }
}

/// The queue collapsed so that each index keeps only its latest update, ordered by the
/// position of those latest updates.
pub open spec fn collapsed(s: Seq<BlockUpdate>) -> Seq<BlockUpdate>
    decreases s.len(),
{
    if s.len() == 0 {
        s
    } else {
        without_index(collapsed(s.drop_last()), s.last().index).push(s.last())
    }
}

/// The blocks after writing the updates one after the other.
pub open spec fn written(b: Seq<u8>, ups: Seq<BlockUpdate>) -> Seq<u8>
    decreases ups.len(),
{
    if ups.len() == 0 {
        b
    } else {
        written(b, ups.drop_last()).update(ups.last().index as int, ups.last().block)
    }
}

/// The cells of the 3x3x3 cube around flat index `i` that lie inside a level of dimensions `dims`.
pub open spec fn cube_around(dims: (usize, usize, usize), i: usize) -> Seq<(usize, usize, usize)> {
    let c = coords_of(dims.0, dims.2, i as int);
    relative_many(dims, c.0, c.1, c.2, full_offsets())
}

/// The flat index of a cell in a level of dimensions `dims`.
pub open spec fn idx3(dims: (usize, usize, usize), c: (usize, usize, usize)) -> int {
    index_of(dims.0, dims.2, c.0, c.1, c.2)
}

/// Whether one of the first `n` cells of `cells` has flat index `k`.
pub open spec fn hits(dims: (usize, usize, usize), cells: Seq<(usize, usize, usize)>, n: int, k: usize) -> bool {
    exists|j: int| 0 <= j < n && idx3(dims, #[trigger] cells[j]) == k
}

/// Whether flat index `k` is in the cube around flat index `i`.
pub open spec fn near(dims: (usize, usize, usize), i: usize, k: usize) -> bool {
    hits(dims, cube_around(dims, i), cube_around(dims, i).len() as int, k)
}

/// Whether applying `ups` in order, starting from blocks `b`, schedules index `k`: some update
/// lands in the cube around `k` at a moment when the block at `k` waits on its neighbours.
pub open spec fn notified(dims: (usize, usize, usize), b: Seq<u8>, ups: Seq<BlockUpdate>, k: usize) -> bool
    decreases ups.len(),
{
    if ups.len() == 0 {
        false
    } else {
        notified(dims, b, ups.drop_last(), k) || (near(dims, ups.last().index, k)
            && kind_or_solid(written(b, ups)[k as int]) is FluidStationary)
    }
}

/// The `SetBlock` broadcast of an applied update.
pub open spec fn set_block_packet(dims: (usize, usize, usize), u: BlockUpdate) -> ServerPacket {
    let c = coords_of(dims.0, dims.2, u.index as int);
    ServerPacket::SetBlock { x: c.0 as i16, y: c.1 as i16, z: c.2 as i16, block_type: u.block }
}

/// Whether `b` differs from `a` at most in its blocks.
pub open spec fn only_blocks_changed(a: &Level, b: &Level) -> bool {
    &&& b.dims() == a.dims()
    &&& b.weather == a.weather
    &&& b.rules == a.rules
    &&& b.awaiting_update@ == a.awaiting_update@
    &&& b.possible_random_updates@ == a.possible_random_updates@
    &&& b.updates@ == a.updates@
    &&& b.save_now == a.save_now
    &&& b.player_data@ == a.player_data@
}

/// The level after applying its queue (see `Level::apply_updates`).
pub open spec fn applied(a: &Level, b: &Level) -> bool {
    &&& b.updates@.len() == 0
    &&& b.blocks@ == written(a.blocks@, collapsed(a.updates@))
    &&& forall|k: usize| #[trigger] b.awaiting().contains(k) <==> (a.awaiting().contains(k)
        || notified(a.dims(), a.blocks@, collapsed(a.updates@), k))
    &&& b.dims() == a.dims()
    &&& b.weather == a.weather
    &&& b.rules == a.rules
    &&& b.possible_random_updates@ == a.possible_random_updates@
    &&& b.save_now == a.save_now
    &&& b.player_data@ == a.player_data@
}

/// The packets of applying the queue of `a`: one `SetBlock` per collapsed update, in order.
pub open spec fn applied_packets(a: &Level, r: Seq<ServerPacket>) -> bool {
    &&& r.len() == collapsed(a.updates@).len()
    &&& forall|i: int| 0 <= i < r.len() ==> r[i] == set_block_packet(a.dims(), collapsed(a.updates@)[i])
}

/// Applying an empty queue yields no packets and leaves the blocks and the awaiting-update set as
/// they were.
pub proof fn lemma_apply_nothing(dims: (usize, usize, usize), b: Seq<u8>, k: usize)
    ensures
        collapsed(Seq::<BlockUpdate>::empty()).len() == 0,
        written(b, collapsed(Seq::<BlockUpdate>::empty())) == b,
        !notified(dims, b, collapsed(Seq::<BlockUpdate>::empty()), k),
{
}

/// Two queued updates of one index collapse to the later one, so applying them yields a single
/// `SetBlock` packet and leaves the later block.
pub proof fn lemma_later_update_wins(dims: (usize, usize, usize), b: Seq<u8>, i: usize, a: u8, c: u8)
    requires
        i < b.len(),
    ensures
        collapsed(seq![BlockUpdate { index: i, block: a }, BlockUpdate { index: i, block: c }])
            == seq![BlockUpdate { index: i, block: c }],
        written(b, collapsed(seq![BlockUpdate { index: i, block: a }, BlockUpdate { index: i, block: c }]))[i as int] == c,
{
    let u1 = BlockUpdate { index: i, block: a };
    let u2 = BlockUpdate { index: i, block: c };
    let s = seq![u1, u2];
    let e = Seq::<BlockUpdate>::empty();
    assert(s.drop_last() =~= seq![u1]);
    assert(seq![u1].drop_last() =~= e);
    assert(collapsed(e) == e);
    assert(without_index(e, i) == e);
    assert(collapsed(seq![u1]) == without_index(collapsed(e), i).push(u1));
    assert(collapsed(seq![u1]) =~= seq![u1]);
    assert(without_index(seq![u1], i) == without_index(e, i));
    assert(collapsed(s) == without_index(collapsed(seq![u1]), i).push(u2));
    assert(collapsed(s) =~= seq![u2]);
    assert(seq![u2].drop_last() =~= e);
    assert(written(b, seq![u2]) == written(b, e).update(i as int, c));
}

proof fn lemma_without_index_subset(s: Seq<BlockUpdate>, k: usize)
    ensures
        forall|i: int| 0 <= i < without_index(s, k).len() ==> exists|j: int| 0 <= j < s.len() && s[j] == #[trigger] without_index(s, k)[i],
    decreases s.len(),
{
    if s.len() > 0 {
        lemma_without_index_subset(s.drop_last(), k);
        let rest = without_index(s.drop_last(), k);
        let all = without_index(s, k);
        assert forall|i: int| 0 <= i < all.len() implies exists|j: int| 0 <= j < s.len() && s[j] == #[trigger] all[i] by {
            if i < rest.len() {
                let j = choose|j: int| 0 <= j < s.drop_last().len() && s.drop_last()[j] == rest[i];
                assert(s[j] == all[i]);
            } else {
                assert(s[s.len() - 1] == all[i]);
            }
        }
    }
}

/// The rules a fresh level starts with.
pub open spec fn default_rules() -> LevelRules {
    LevelRules { fluid_spread: true, random_tick_updates: 1000, grass_spread_chance: 2048 }
}

impl LevelRules {
    /// The rules a fresh level starts with.
    pub fn default_rules() -> (r: LevelRules)
        ensures
            r == default_rules(),
    {
        LevelRules { fluid_spread: fluid_spread(), random_tick_updates: random_tick_updates(), grass_spread_chance: grass_spread_chance() }
    }
}

/// Whether fluids spread by default.
pub fn fluid_spread() -> (r: bool)
    ensures
        r == default_rules().fluid_spread,
{
    true
}

/// The default number of random tick updates.
pub fn random_tick_updates() -> (r: u64)
    ensures
        r == default_rules().random_tick_updates,
{
    1000
}

/// The default chance of grass spreading.
pub fn grass_spread_chance() -> (r: u64)
    ensures
        r == default_rules().grass_spread_chance,
{
    2048
}

impl Default for LevelRules {
    fn default() -> (r: LevelRules)
        ensures
            r == default_rules(),
    {
        LevelRules::default_rules()
    }
}

impl Default for WeatherType {
    fn default() -> (r: WeatherType)
        ensures
            r == WeatherType::Sunny,
    {
        WeatherType::Sunny
    }
}

impl WeatherType {
    /// The byte that the protocol sends for this weather.
    pub fn to_byte(&self) -> (r: u8)
        ensures
            r == weather_byte(*self),
    {
        match self {
            WeatherType::Sunny => 0,
            WeatherType::Raining => 1,
            WeatherType::Snowing => 2,
        }
    }

    /// The weather of a protocol byte; unknown bytes mean sunny.
    pub fn from_byte(b: u8) -> (r: WeatherType)
        ensures
            b <= 2 ==> weather_byte(r) == b,
            b > 2 ==> r == WeatherType::Sunny,
    {
        match b {
            1 => WeatherType::Raining,
            2 => WeatherType::Snowing,
            _ => WeatherType::Sunny,
        }
    }
}

/// The byte that the protocol sends for a weather.
pub open spec fn weather_byte(w: WeatherType) -> u8 {
    match w {
        WeatherType::Sunny => 0,
        WeatherType::Raining => 1,
        WeatherType::Snowing => 2,
    }
}

} // verus!
