//! Hash-based tile coding: a continuous state becomes one table position per
//! overlapping tiling.

use std::collections::hash_map::DefaultHasher;
use std::hash::Hasher;

use vstd::bytes::u64_to_le_bytes;
#[allow(unused_imports)]
use vstd::bytes::{lemma_auto_spec_u64_to_from_le_bytes, spec_u64_to_le_bytes};
use vstd::prelude::*;
#[allow(unused_imports)]
use vstd::std_specs::hash::DefaultHasherAdditionalSpecFns;

use crate::arith::{clamp_i128, clamp_i64};
#[allow(unused_imports)]
use crate::arith::{clamped, lower_of};

verus! {

pub const TABLE_SIZE: usize = 262_144;

#[derive(Debug, Clone, Copy, PartialEq, Eq, Structural)]
pub struct TileCoding {
    /// Number of overlapping tilings.
    pub num_tilings: usize,
    /// Number of tiles along each dimension.
    pub tiles_per_dim: usize,
    /// Number of dimensions of a state.
    pub num_dimensions: usize,
    /// Size of the table that positions point into.
    pub table_size: usize,
}

/// The tile of a value in millionths along one dimension. Each tiling is
/// shifted by its share of one.
pub open spec fn tile_of(v: i64, tiling: int, num_tilings: int, tiles: int) -> int {
    lower_of(
        clamped(v * num_tilings + tiling * 1_000_000, 0, 1_000_000 * num_tilings) * tiles / (
        1_000_000 * num_tilings),
        tiles - 1,
    )
}

/// The bytes that enter the hash for the first `n` coordinates.
pub open spec fn hash_input(coords: Seq<(u64, u64)>, tiling: u64, n: int) -> Seq<Seq<u8>>
    decreases n,
{
    if n <= 0 {
        seq![spec_u64_to_le_bytes(tiling)]
    } else {
        hash_input(coords, tiling, n - 1).push(spec_u64_to_le_bytes(coords[n - 1].0)).push(
            spec_u64_to_le_bytes(coords[n - 1].1),
        )
    }
}

impl Default for TileCoding {
    fn default() -> (r: Self)
        ensures
            r == (TileCoding {
                num_tilings: 8,
                tiles_per_dim: 4,
                num_dimensions: 25,
                table_size: TABLE_SIZE,
            }),
    {
        TileCoding::new(8, 4, 25)
    }
}

impl TileCoding {
    /// Can the coding be used? There are tiles and a table, and the counts are
    /// 32-bit values.
    pub open spec fn usable(self) -> bool {
        &&& self.num_tilings <= u32::MAX
        &&& 1 <= self.tiles_per_dim <= u32::MAX
        &&& self.table_size > 0
    }

    /// The coordinates of a state and an action in one tiling.
    pub open spec fn coords(self, state: Seq<i64>, action: u8, tiling: int) -> Seq<(u64, u64)> {
        Seq::new(
            state.len(),
            |d: int|
                (
                    d as u64,
                    tile_of(
                        state[d],
                        tiling,
                        self.num_tilings as int,
                        self.tiles_per_dim as int,
                    ) as u64,
                ),
        ).push((self.num_dimensions as u64, action as u64))
    }

    /// What is hashed for a state and an action in one tiling.
    pub open spec fn hashed(self, state: Seq<i64>, action: u8, tiling: int) -> Seq<Seq<u8>> {
        let coords = self.coords(state, action, tiling);
        hash_input(coords, tiling as u64, coords.len() as int)
    }

    /// The table position of some coordinates.
    pub open spec fn position(self, coords: Seq<(u64, u64)>, tiling: int) -> int {
        DefaultHasher::spec_finish(hash_input(coords, tiling as u64, coords.len() as int))
            as int % self.table_size as int
    }

    /// The table positions of a state and an action, one per tiling.
    pub open spec fn tiles(self, state: Seq<i64>, action: u8) -> Seq<usize> {
        Seq::new(
            self.num_tilings as nat,
            |t: int| self.position(self.coords(state, action, t), t) as usize,
        )
    }

    pub fn new(num_tilings: usize, tiles_per_dim: usize, num_dimensions: usize) -> (r: Self)
        ensures
            r == (TileCoding {
                num_tilings,
                tiles_per_dim,
                num_dimensions,
                table_size: TABLE_SIZE,
            }),
    {
        TileCoding { num_tilings, tiles_per_dim, num_dimensions, table_size: TABLE_SIZE }
    }

    fn tile(&self, v: i64, tiling: usize) -> (r: u64)
        requires
            self.usable(),
            tiling < self.num_tilings,
        ensures
            r == tile_of(v, tiling as int, self.num_tilings as int, self.tiles_per_dim as int),
    {
        let ghost n = self.num_tilings as int;
        let ghost k = tiling as int;
        let near: i64 = clamp_i64(v, -1_000_000, 1_000_000);
        let tilings: i128 = self.num_tilings as i128;
        let tiles: i128 = self.tiles_per_dim as i128;
        proof {
            assert(-1_000_000 * n <= near * n <= 1_000_000 * n) by (nonlinear_arith)
                requires
                    -1_000_000 <= near <= 1_000_000,
                    n >= 0,
            ;
            if v > 1_000_000 {
                assert(v * n >= 1_000_000 * n) by (nonlinear_arith)
                    requires
                        v > 1_000_000,
                        n >= 0,
                ;
            }
            if v < -1_000_000 {
                assert(v * n <= -1_000_000 * n) by (nonlinear_arith)
                    requires
                        v < -1_000_000,
                        n >= 0,
                ;
            }
        }
        let whole: i128 = 1_000_000 * tilings;
        let shifted: i128 = clamp_i128(
            near as i128 * tilings + tiling as i128 * 1_000_000,
            0,
            whole,
        );
        assert(shifted == clamped(v * n + k * 1_000_000, 0, 1_000_000 * n));
        proof {
            assert(0 <= shifted * tiles <= whole * tiles) by (nonlinear_arith)
                requires
                    0 <= shifted <= whole,
                    tiles >= 0,
            ;
            assert(whole * tiles <= 1_000_000 * 0x1_0000_0000 * 0x1_0000_0000) by (nonlinear_arith)
                requires
                    0 <= whole <= 1_000_000 * 0x1_0000_0000,
                    0 <= tiles <= 0x1_0000_0000,
            ;
            assert(0 <= (shifted * tiles) / (whole as int) <= tiles) by (nonlinear_arith)
                requires
                    0 <= shifted * tiles <= whole * tiles,
                    whole > 0,
            ;
        }
        let q: u64 = ((shifted * tiles) as u128 / (whole as u128)) as u64;
        let last: u64 = self.tiles_per_dim as u64 - 1;
        if q < last {
            q
        } else {
            last
        }
    }

    /// The positions of the active tiles of a state in millionths, one per
    /// tiling. The action takes part in the hash.
    pub fn get_tiles(&self, state: &Vec<i64>, action: u8) -> (r: Vec<usize>)
        requires
            self.usable(),
        ensures
            r@ == self.tiles(state@, action),
            r@.len() == self.num_tilings,
            forall|k: int| 0 <= k < r@.len() ==> #[trigger] r@[k] < self.table_size,
    {
        let mut tiles: Vec<usize> = Vec::new();
        let mut tiling: usize = 0;
        while tiling < self.num_tilings
            invariant
                self.usable(),
                tiling <= self.num_tilings,
                tiles@ == self.tiles(state@, action).take(tiling as int),
                forall|k: int| 0 <= k < tiles@.len() ==> #[trigger] tiles@[k] < self.table_size,
            decreases self.num_tilings - tiling,
        {
            let mut coords: Vec<(u64, u64)> = Vec::new();
            let ghost all = self.coords(state@, action, tiling as int);
            let mut dim: usize = 0;
            while dim < state.len()
                invariant
                    self.usable(),
                    tiling < self.num_tilings,
                    dim <= state@.len(),
                    all == self.coords(state@, action, tiling as int),
                    coords@ == all.take(dim as int),
                decreases state@.len() - dim,
            {
                let idx: u64 = self.tile(state[dim], tiling);
                coords.push((dim as u64, idx));
                assert(coords@ =~= all.take(dim + 1));
                dim += 1;
            }
            coords.push((self.num_dimensions as u64, action as u64));
            assert(coords@ =~= all);
            let position: usize = self.hash_coords(&coords, tiling);
            tiles.push(position);
            assert(tiles@ =~= self.tiles(state@, action).take(tiling + 1));
            tiling += 1;
        }
        assert(self.tiles(state@, action).take(tiling as int) =~= self.tiles(state@, action));
        tiles
    }

    fn hash_coords(&self, coords: &Vec<(u64, u64)>, tiling: usize) -> (r: usize)
        requires
            self.table_size > 0,
        ensures
            r == self.position(coords@, tiling as int),
            r < self.table_size,
    {
        let mut hasher = DefaultHasher::new();
        let head = u64_to_le_bytes(tiling as u64);
        hasher.write(head.as_slice());
        assert(hasher@ =~= hash_input(coords@, tiling as u64, 0));
        let mut i: usize = 0;
        while i < coords.len()
            invariant
                i <= coords@.len(),
                hasher@ == hash_input(coords@, tiling as u64, i as int),
            decreases coords@.len() - i,
        {
            let dim = u64_to_le_bytes(coords[i].0);
            let tile = u64_to_le_bytes(coords[i].1);
            hasher.write(dim.as_slice());
            hasher.write(tile.as_slice());
            i += 1;
        }
        let hash: u64 = hasher.finish();
        (hash % (self.table_size as u64)) as usize
    }

    pub fn table_size(&self) -> (r: usize)
        ensures
            r == self.table_size,
    {
        self.table_size
    }

    pub fn num_tilings(&self) -> (r: usize)
        ensures
            r == self.num_tilings,
    {
        self.num_tilings
    }
}

// ---------------------------------------------------------------------------
// Laws
// ---------------------------------------------------------------------------

/// Every state has one table position per tiling.
pub proof fn law_one_tile_per_tiling(tc: TileCoding, state: Seq<i64>, action: u8)
    requires
        tc.usable(),
    ensures
        tc.tiles(state, action).len() == tc.num_tilings,
        forall|k: int|
            0 <= k < tc.num_tilings ==> #[trigger] tc.tiles(state, action)[k] < tc.table_size,
{
}

/// Every value falls into one of the tiles, and values in order fall into tiles
/// in order.
pub proof fn law_tiles_partition(a: i64, b: i64, tiling: int, num_tilings: int, tiles: int)
    requires
        a <= b,
        0 <= tiling < num_tilings,
        tiles >= 1,
    ensures
        0 <= tile_of(a, tiling, num_tilings, tiles) < tiles,
        tile_of(a, tiling, num_tilings, tiles) <= tile_of(b, tiling, num_tilings, tiles),
{
    let whole = 1_000_000 * num_tilings;
    let x = clamped(a * num_tilings + tiling * 1_000_000, 0, whole);
    let y = clamped(b * num_tilings + tiling * 1_000_000, 0, whole);
    assert(a * num_tilings <= b * num_tilings) by (nonlinear_arith)
        requires
            a <= b,
            num_tilings > 0,
    ;
    assert(0 <= x * tiles <= y * tiles) by (nonlinear_arith)
        requires
            0 <= x <= y,
            tiles >= 1,
    ;
    assert(0 <= (x * tiles) / whole <= (y * tiles) / whole) by (nonlinear_arith)
        requires
            0 <= x * tiles <= y * tiles,
            whole > 0,
    ;
}

/// States that agree in every tile share their table positions: the learned
/// value is constant within a tile.
pub proof fn law_same_tiles_same_positions(
    tc: TileCoding,
    a: Seq<i64>,
    b: Seq<i64>,
    action: u8,
)
    requires
        a.len() == b.len(),
        forall|d: int, t: int|
            0 <= d < a.len() && 0 <= t < tc.num_tilings ==> tile_of(
                #[trigger] a[d],
                t,
                tc.num_tilings as int,
                tc.tiles_per_dim as int,
            ) == #[trigger] tile_of(
                b[d],
                t,
                tc.num_tilings as int,
                tc.tiles_per_dim as int,
            ),
    ensures
        tc.tiles(a, action) == tc.tiles(b, action),
{
    assert forall|t: int| 0 <= t < tc.num_tilings implies tc.coords(a, action, t) == tc.coords(
        b,
        action,
        t,
    ) by {
        assert forall|d: int| 0 <= d < a.len() implies tc.coords(a, action, t)[d] == tc.coords(
            b,
            action,
            t,
        )[d] by {
            assert(tile_of(a[d], t, tc.num_tilings as int, tc.tiles_per_dim as int) == tile_of(
                b[d],
                t,
                tc.num_tilings as int,
                tc.tiles_per_dim as int,
            ));
        }
        assert(tc.coords(a, action, t) =~= tc.coords(b, action, t));
    }
    assert(tc.tiles(a, action) =~= tc.tiles(b, action));
}

/// The bytes of the tiling, and of both numbers of each coordinate, stand at fixed
/// places in the hash input.
proof fn lemma_hash_input_at(coords: Seq<(u64, u64)>, tiling: u64, n: int, k: int)
    requires
        0 <= n <= coords.len(),
    ensures
        hash_input(coords, tiling, n).len() == 2 * n + 1,
        hash_input(coords, tiling, n)[0] == spec_u64_to_le_bytes(tiling),
        0 <= k < n ==> hash_input(coords, tiling, n)[2 * k + 2] == spec_u64_to_le_bytes(
            coords[k].1,
        ),
    decreases n,
{
    if n > 0 {
        lemma_hash_input_at(coords, tiling, n - 1, k);
    }
}

/// Different actions enter the hash differently, whatever the state and the tiling.
pub proof fn law_actions_hash_differently(
    tc: TileCoding,
    state: Seq<i64>,
    a: u8,
    b: u8,
    tiling: int,
)
    requires
        a != b,
    ensures
        tc.hashed(state, a, tiling) != tc.hashed(state, b, tiling),
{
    let x = tc.coords(state, a, tiling);
    let y = tc.coords(state, b, tiling);
    let n = state.len() as int;
    lemma_hash_input_at(x, tiling as u64, n + 1, n);
    lemma_hash_input_at(y, tiling as u64, n + 1, n);
    lemma_auto_spec_u64_to_from_le_bytes();
    assert(x[n].1 == a && y[n].1 == b);
}

/// States that fall into different tiles along some dimension enter the hash of that
/// tiling differently, whatever the actions.
pub proof fn law_tiles_hash_differently(
    tc: TileCoding,
    a: Seq<i64>,
    b: Seq<i64>,
    d: int,
    action_a: u8,
    action_b: u8,
    tiling: int,
)
    requires
        tc.usable(),
        0 <= tiling < tc.num_tilings,
        0 <= d < a.len(),
        d < b.len(),
        tile_of(a[d], tiling, tc.num_tilings as int, tc.tiles_per_dim as int) != tile_of(
            b[d],
            tiling,
            tc.num_tilings as int,
            tc.tiles_per_dim as int,
        ),
    ensures
        tc.hashed(a, action_a, tiling) != tc.hashed(b, action_b, tiling),
{
    let x = tc.coords(a, action_a, tiling);
    let y = tc.coords(b, action_b, tiling);
    let tilings = tc.num_tilings as int;
    let tiles = tc.tiles_per_dim as int;
    law_tiles_partition(a[d], a[d], tiling, tilings, tiles);
    law_tiles_partition(b[d], b[d], tiling, tilings, tiles);
    lemma_hash_input_at(x, tiling as u64, x.len() as int, d);
    lemma_hash_input_at(y, tiling as u64, y.len() as int, d);
    lemma_auto_spec_u64_to_from_le_bytes();
    assert(x[d].1 == tile_of(a[d], tiling, tilings, tiles));
    assert(y[d].1 == tile_of(b[d], tiling, tilings, tiles));
}

/// The two corners of the state space enter the hash of the first tiling differently,
/// as long as a dimension has more than one tile.
pub proof fn law_corners_hash_differently(
    tc: TileCoding,
    low: Seq<i64>,
    high: Seq<i64>,
    d: int,
    action: u8,
)
    requires
        tc.usable(),
        tc.num_tilings > 0,
        tc.tiles_per_dim > 1,
        0 <= d < low.len(),
        d < high.len(),
        low[d] == 0,
        high[d] == 1_000_000,
    ensures
        tc.hashed(low, action, 0) != tc.hashed(high, action, 0),
{
    let tilings = tc.num_tilings as int;
    let tiles = tc.tiles_per_dim as int;
    let whole = 1_000_000 * tilings;
    assert(0 * tilings == 0);
    assert(0 * tiles == 0);
    assert((whole * tiles) / whole == tiles) by (nonlinear_arith)
        requires
            whole > 0,
    ;
    assert(tile_of(0, 0, tilings, tiles) == 0);
    assert(tile_of(1_000_000, 0, tilings, tiles) == tiles - 1);
    law_tiles_hash_differently(tc, low, high, d, action, action, 0);
}

/// Different tilings enter the hash differently, whatever the state and the action.
pub proof fn law_tilings_hash_differently(
    tc: TileCoding,
    state: Seq<i64>,
    action: u8,
    t: int,
    u: int,
)
    requires
        0 <= t < tc.num_tilings,
        0 <= u < tc.num_tilings,
        t != u,
    ensures
        tc.hashed(state, action, t) != tc.hashed(state, action, u),
{
    let n = state.len() as int;
    lemma_hash_input_at(tc.coords(state, action, t), t as u64, n + 1, n);
    lemma_hash_input_at(tc.coords(state, action, u), u as u64, n + 1, n);
    lemma_auto_spec_u64_to_from_le_bytes();
}

/// Each tiling is shifted by its share of one: the shifted value falls into the tile whose
/// stretch of the unit holds it, and beyond the ends into the first or the last tile.
pub proof fn law_tiles_divide_the_unit(v: i64, tiling: int, num_tilings: int, tiles: int, k: int)
    requires
        0 <= tiling < num_tilings,
        tiles >= 1,
        0 <= k < tiles,
    ensures
        ({
            let unit = 1_000_000 * num_tilings;
            let shifted = v * num_tilings + tiling * 1_000_000;
            &&& 0 <= shifted < unit && k * unit <= shifted * tiles < (k + 1) * unit ==> tile_of(
                v,
                tiling,
                num_tilings,
                tiles,
            ) == k
            &&& shifted <= 0 ==> tile_of(v, tiling, num_tilings, tiles) == 0
            &&& shifted >= unit ==> tile_of(v, tiling, num_tilings, tiles) == tiles - 1
        }),
{
    let unit = 1_000_000 * num_tilings;
    let shifted = v * num_tilings + tiling * 1_000_000;
    if 0 <= shifted < unit && k * unit <= shifted * tiles < (k + 1) * unit {
        let x = shifted * tiles;
        assert(x == k * unit + (x - k * unit));
        assert((k + 1) * unit == k * unit + unit) by (nonlinear_arith);
        assert(k * unit == unit * k) by (nonlinear_arith);
        vstd::arithmetic::div_mod::lemma_fundamental_div_mod_converse(x, unit, k, x - k * unit);
    } else if shifted <= 0 {
        assert(0 * tiles == 0);
        assert(0int / unit == 0) by (nonlinear_arith)
            requires
                unit > 0,
        ;
    } else if shifted >= unit {
        assert(unit * tiles / unit == tiles) by (nonlinear_arith)
            requires
                unit > 0,
        ;
    }
}

/// The coordinates of a state are its tiles, each numbered by its dimension, and the action,
/// numbered by how many dimensions there are.
pub proof fn law_coordinates(tc: TileCoding, state: Seq<i64>, action: u8, tiling: int, d: int)
    requires
        tc.usable(),
        0 <= tiling < tc.num_tilings,
        0 <= d < state.len() <= u32::MAX,
    ensures
        ({
            let c = tc.coords(state, action, tiling);
            &&& c.len() == state.len() + 1
            &&& c[d].0 == d
            &&& c[d].1 == tile_of(
                state[d],
                tiling,
                tc.num_tilings as int,
                tc.tiles_per_dim as int,
            )
            &&& c.last() == (tc.num_dimensions as u64, action as u64)
        }),
{
    law_tiles_partition(
        state[d],
        state[d],
        tiling,
        tc.num_tilings as int,
        tc.tiles_per_dim as int,
    );
}

/// What is hashed: the number of the tiling, then both numbers of each coordinate, eight bytes
/// each; the hash is reduced to a position of the table.
pub proof fn law_hash_input(coords: Seq<(u64, u64)>, tiling: u64, n: int, d: int)
    requires
        0 <= d < n <= coords.len(),
    ensures
        ({
            let h = hash_input(coords, tiling, n);
            &&& h.len() == 2 * n + 1
            &&& h[0] == spec_u64_to_le_bytes(tiling)
            &&& h[2 * d + 1] == spec_u64_to_le_bytes(coords[d].0)
            &&& h[2 * d + 2] == spec_u64_to_le_bytes(coords[d].1)
        }),
    decreases n,
{
    if n == 1 {
        assert(hash_input(coords, tiling, 0).len() == 1);
    } else {
        let e = if d < n - 1 {
            d
        } else {
            0
        };
        law_hash_input(coords, tiling, n - 1, e);
    }
}

/// The position of each tiling is the hash of its own coordinates, reduced to the table.
pub proof fn law_positions(tc: TileCoding, state: Seq<i64>, action: u8, t: int)
    requires
        tc.usable(),
        0 <= t < tc.num_tilings,
    ensures
        tc.tiles(state, action)[t] == DefaultHasher::spec_finish(tc.hashed(state, action, t))
            as int % tc.table_size as int,
{
    law_one_tile_per_tiling(tc, state, action);
    let h = DefaultHasher::spec_finish(tc.hashed(state, action, t)) as int;
    assert(0 <= h % tc.table_size as int);
    vstd::arithmetic::div_mod::lemma_mod_bound(h, tc.table_size as int);
}

} // verus!
