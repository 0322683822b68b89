//! The tile world: `World : WorldOut : WorldData`, its construction, indexing, terrain and
//! fog predicates, and the terrain mutators.
use vstd::prelude::*;
use super::{
    floor_div, land, space, tflag, wflag, wiped_wdata, fresh_coll_block, CollBlock, TerrainSync,
    WData, WalkedArray, WCoord, COORD_PER_TILE, COORD_PER_WCELL, NEIGHBOUR4_DX, NEIGHBOUR4_DY,
    NEIGHBOUR_DX, NEIGHBOUR_DY, SPACE_APPROACH_GROUPS, SPACE_PROBE_DX, SPACE_PROBE_DY,
    TILES_PER_WCELL,
};
use vstd::arithmetic::div_mod::{lemma_fundamental_div_mod, lemma_fundamental_div_mod_converse};

verus! {

/// The tile world. Field names and offsets are the PDB's `WorldData` layout.
///
/// This is the single owner of everything the `world` checksum channel walks: the `WData`
/// records, the tile mask, the three fog planes, `wcoord_seen`, the danger planes, the
/// collision blocks and the four synced `Terrain` arrays.
#[derive(Clone, Debug)]
pub struct World {
    /// `+0x00` — width in world cells.
    pub xs: i32,
    /// `+0x04` — height in world cells.
    pub ys: i32,
    /// `+0x08` `= xs * ys`
    pub size: i32,
    /// `+0x0c` `= tile_xs * 2 / 4 = xs * 2`
    pub fog_xs: i32,
    /// `+0x10`
    pub fog_ys: i32,
    /// `+0x14` `= fog_xs * fog_ys`
    pub fog_size: i32,
    /// `+0x18` `= xs * 4`
    pub tile_xs: i32,
    /// `+0x1c` `= ys * 4`
    pub tile_ys: i32,
    /// `+0x20` `= tile_xs * tile_ys`
    pub tile_size: i32,
    /// `+0x24` `= tile_xs / 8 = xs / 2`
    pub reg_xs: i32,
    /// `+0x28`
    pub reg_ys: i32,
    /// `+0x2c` `= reg_xs * reg_ys`
    pub reg_size: i32,
    /// `+0x30`
    pub map: i32,
    /// `+0x34` — initialised to `-1`.
    pub sea_map: i32,
    /// `+0x38` — `Constants+0x118` (`territory_limit_base`).
    pub player_territory_limit: i32,
    /// `+0x3c` — `Constants+0x11c` (`territory_limit_civic`).
    pub player_territory_limit_civic: i32,
    /// `+0x40` — `Constants+0x120` (`territory_limit_city`).
    pub player_territory_limit_city: i32,
    /// `+0x44` — the same three `Constants` fields again at init.
    pub colonized_territory_limit: i32,
    /// `+0x48`
    pub colonized_territory_limit_civic: i32,
    /// `+0x4c`
    pub colonized_territory_limit_city: i32,
    /// `+0x50`
    pub player_reg: i32,
    /// `+0x54`
    pub resource_reg: i32,
    /// `+0x58`
    pub forest_size: i32,
    /// `+0x5c`
    pub mountain_size: i32,
    /// `+0x60`
    pub rock_size: i32,
    /// `+0x64`
    pub total_metal: i32,
    /// `+0x68`
    pub total_oil: i32,
    /// `+0x6c`
    pub goodies: i32,
    /// `+0x70`
    pub land_resources: i32,
    /// `+0x74`
    pub sea_resources: i32,
    /// `+0x78`
    pub land_size: i32,
    /// `+0x7c` — the map seed; see [`World::seed_map_generation`].
    pub seed: i32,
    /// `+0x80` `SimpleArray<WCoord> start_x`
    pub start_x: WalkedArray<i32>,
    /// `+0x9c` `SimpleArray<WCoord> start_y`
    pub start_y: WalkedArray<i32>,
    /// `+0xb8` `SimpleArray<WCoord> start_city_x`
    pub start_city_x: WalkedArray<i32>,
    /// `+0xd4` `SimpleArray<WCoord> start_city_y`
    pub start_city_y: WalkedArray<i32>,
    /// `+0xfc` `SimpleArray<WCoord> oil_x`
    pub oil_x: WalkedArray<i32>,
    /// `+0x118` `SimpleArray<WCoord> oil_y`
    pub oil_y: WalkedArray<i32>,
    /// `+0xf0` `DynamicBitMask start_city_locs` — not walked by the checksum; only cleared
    /// by `wipe`.
    pub start_city_locs: Vec<u8>,
    /// `+0x134` — `size` entries, indexed `wy * xs + wx` (`World::get_wdata` `0x0046d220`).
    pub wdata: Vec<WData>,
    /// `+0x138` — `tile_size` entries, indexed `ty * tile_xs + tx`.
    pub tdata: Vec<u16>,
    /// `+0x13c` — `int* danger[8]`, each `reg_size` ints, indexed by `RCoord`.
    pub danger: [Vec<i32>; 8],
    /// `+0x15c` — `fog_size` bytes; a bit per player. `WorldData::is_really_seen`.
    pub seen: Vec<u8>,
    /// `+0x160` — `fog_size` bytes. `WorldData::was_seen`.
    pub seen2: Vec<u8>,
    /// `+0x164` — `fog_size` bytes. `WorldData::is_detected`.
    pub seen3: Vec<u8>,
    /// `+0x168` — `size` bytes (W resolution). `WorldData::is_seen_wcoord`.
    pub wcoord_seen: Vec<u8>,
    /// Sections 10–13 of the `world` channel.
    pub terrain_sync: TerrainSync,
}

/// Every byte of `s` is zero.
pub open spec fn all_zero_u8(s: Seq<u8>) -> bool {
    forall|i: int| 0 <= i < s.len() ==> s[i] == 0
}

/// Every entry of `s` is zero.
pub open spec fn all_zero_u16(s: Seq<u16>) -> bool {
    forall|i: int| 0 <= i < s.len() ==> s[i] == 0
}

/// Every entry of `s` is zero.
pub open spec fn all_zero_i32(s: Seq<i32>) -> bool {
    forall|i: int| 0 <= i < s.len() ==> s[i] == 0
}

/// An empty array with a zero header, as `WalkedArray::new` makes it.
pub open spec fn empty_walked<T>(a: WalkedArray<T>) -> bool {
    a.items@.len() == 0 && a.capacity == 0 && a.increment == 0 && a.flags == 0
}

/// `n` clamped below at zero: the length `World::init` allocates for a signed size.
pub open spec fn clamp0(n: int) -> int {
    if n > 0 {
        n
    } else {
        0
    }
}

/// Truncating division by a positive divisor, as the engine's `idiv` computes it.
pub open spec fn trunc_div(a: int, b: int) -> int {
    if a >= 0 {
        a / b
    } else {
        -((-a) / b)
    }
}

/// `0 <= y * w + x < w * h` for a point inside a `w` by `h` grid.
pub proof fn lemma_grid_index(x: int, y: int, w: int, h: int)
    requires
        0 <= x < w,
        0 <= y < h,
    ensures
        0 <= y * w <= y * w + x < w * h,
        y * w <= (h - 1) * w,
{
    assert(0 <= y * w <= (h - 1) * w) by (nonlinear_arith)
        requires
            0 <= y < h,
            0 <= x < w,
    ;
    assert((h - 1) * w + w == w * h) by (nonlinear_arith);
}

/// A grid position determines its index: two in-grid points with one index coincide.
pub proof fn lemma_grid_index_injective(x1: int, y1: int, x2: int, y2: int, w: int)
    requires
        0 <= x1 < w,
        0 <= x2 < w,
        0 <= y1,
        0 <= y2,
        y1 * w + x1 == y2 * w + x2,
    ensures
        x1 == x2,
        y1 == y2,
{
    lemma_fundamental_div_mod_converse(y1 * w + x1, w, y1, x1);
    lemma_fundamental_div_mod_converse(y2 * w + x2, w, y2, x2);
}

/// `t >> 2`, the tile-to-world-cell step every W-indexed tile access takes.
fn cell_of(t: i32) -> (r: i32)
    ensures
        r == (t as int) / 4,
{
    let r = t >> 2u32;
    assert(r as int == (t as int) / 4) by (bit_vector)
        requires
            r == t >> 2u32,
    ;
    r
}

impl World {
    /// The invariant `World::init` establishes for non-negative dimensions and every
    /// mutator keeps: the derived sizes and the plane lengths agree.
    pub open spec fn wf(&self) -> bool {
        &&& 0 <= self.xs
        &&& 0 <= self.ys
        &&& self.size == self.xs * self.ys
        &&& self.tile_xs == self.xs * 4
        &&& self.tile_ys == self.ys * 4
        &&& self.tile_size == self.tile_xs * self.tile_ys
        &&& self.fog_xs == self.xs * 2
        &&& self.fog_ys == self.ys * 2
        &&& self.fog_size == self.fog_xs * self.fog_ys
        &&& 0 <= self.reg_xs
        &&& 0 <= self.reg_ys
        &&& self.reg_size == self.reg_xs * self.reg_ys
        &&& self.wdata@.len() == self.size
        &&& self.tdata@.len() == self.tile_size
        &&& self.seen@.len() == self.fog_size
        &&& self.seen2@.len() == self.fog_size
        &&& self.seen3@.len() == self.fog_size
        &&& self.wcoord_seen@.len() == self.size
        &&& forall|p: int| 0 <= p < 8 ==> (#[trigger] self.danger@[p])@.len() == self.reg_size
    }

    /// Row-major index of a tile.
    pub open spec fn t_at(&self, tx: int, ty: int) -> int {
        ty * self.tile_xs + tx
    }

    /// Row-major index of a world cell.
    pub open spec fn w_at(&self, wx: int, wy: int) -> int {
        wy * self.xs + wx
    }

    /// Row-major index of a fog cell.
    pub open spec fn f_at(&self, fx: int, fy: int) -> int {
        fy * self.fog_xs + fx
    }

    /// The tile index computes without overflow and lands inside `tdata`.
    pub open spec fn t_ok(&self, tx: int, ty: int) -> bool {
        &&& i32::MIN <= ty * self.tile_xs <= i32::MAX
        &&& 0 <= self.t_at(tx, ty) < self.tdata@.len()
        &&& self.t_at(tx, ty) <= i32::MAX
    }

    /// The world-cell index computes without overflow and lands inside `wdata`.
    pub open spec fn w_ok(&self, wx: int, wy: int) -> bool {
        &&& i32::MIN <= wy * self.xs <= i32::MAX
        &&& 0 <= self.w_at(wx, wy) < self.wdata@.len()
        &&& self.w_at(wx, wy) <= i32::MAX
    }

    /// The fog index computes without overflow and lands inside a fog plane of length `n`.
    pub open spec fn f_ok(&self, fx: int, fy: int, n: int) -> bool {
        &&& i32::MIN <= fy * self.fog_xs <= i32::MAX
        &&& 0 <= self.f_at(fx, fy) < n
        &&& self.f_at(fx, fy) <= i32::MAX
    }

    /// The tile is on the map.
    pub open spec fn in_t(&self, tx: int, ty: int) -> bool {
        0 <= tx < self.tile_xs && 0 <= ty < self.tile_ys
    }

    /// The world cell is on the map.
    pub open spec fn in_w(&self, wx: int, wy: int) -> bool {
        0 <= wx < self.xs && 0 <= wy < self.ys
    }

    /// The tile mask at a tile.
    pub open spec fn tm(&self, tx: int, ty: int) -> u16 {
        self.tdata@[self.t_at(tx, ty)]
    }

    /// The cell record at a world cell.
    pub open spec fn wd(&self, wx: int, wy: int) -> WData {
        self.wdata@[self.w_at(wx, wy)]
    }

    /// An on-map tile has a valid tile index, and its world cell a valid cell index.
    pub proof fn lemma_in_t(&self, tx: int, ty: int)
        requires
            self.wf(),
            self.in_t(tx, ty),
        ensures
            self.t_ok(tx, ty),
            self.in_w(tx / 4, ty / 4),
            self.w_ok(tx / 4, ty / 4),
    {
        lemma_grid_index(tx, ty, self.tile_xs as int, self.tile_ys as int);
        self.lemma_in_w(tx / 4, ty / 4);
    }

    /// An on-map world cell has a valid cell index.
    pub proof fn lemma_in_w(&self, wx: int, wy: int)
        requires
            self.wf(),
            self.in_w(wx, wy),
        ensures
            self.w_ok(wx, wy),
    {
        lemma_grid_index(wx, wy, self.xs as int, self.ys as int);
        assert(self.xs * self.ys <= self.tile_size) by (nonlinear_arith)
            requires
                self.tile_size == (self.xs * 4) * (self.ys * 4),
                self.xs >= 0,
                self.ys >= 0,
        ;
    }

    /// An on-map fog cell has a valid fog index.
    pub proof fn lemma_in_f(&self, fx: int, fy: int)
        requires
            self.wf(),
            0 <= fx < self.fog_xs,
            0 <= fy < self.fog_ys,
        ensures
            self.f_ok(fx, fy, self.fog_size as int),
    {
        lemma_grid_index(fx, fy, self.fog_xs as int, self.fog_ys as int);
    }

    /// `World::init(unsigned short xs, unsigned short ys)` `0x006b76f0`. `fog_xs` is
    /// `(tile_xs * 2) / 4` and `reg_xs` is `tile_xs / 8` — signed, truncating divisions.
    /// The `colonized_*` triple is initialised from the same three rule fields.
    #[verifier::rlimit(40)]
    pub fn init(xs: i32, ys: i32, territory_base: i32, territory_civic: i32, territory_city: i32) -> (r: World)
        requires
            i32::MIN <= 8 * xs <= i32::MAX,
            i32::MIN <= 8 * ys <= i32::MAX,
            i32::MIN <= 16 * xs * ys <= i32::MAX,
        ensures
            r.xs == xs && r.ys == ys,
            r.size == xs * ys,
            r.tile_xs == xs * 4 && r.tile_ys == ys * 4,
            r.tile_size == 16 * xs * ys,
            r.fog_xs == xs * 2 && r.fog_ys == ys * 2,
            r.fog_size == 4 * xs * ys,
            r.reg_xs == trunc_div(xs as int, 2) && r.reg_ys == trunc_div(ys as int, 2),
            r.reg_size == r.reg_xs * r.reg_ys,
            r.map == 0 && r.sea_map == -1,
            r.player_territory_limit == territory_base,
            r.player_territory_limit_civic == territory_civic,
            r.player_territory_limit_city == territory_city,
            r.colonized_territory_limit == territory_base,
            r.colonized_territory_limit_civic == territory_civic,
            r.colonized_territory_limit_city == territory_city,
            r.player_reg == 0 && r.resource_reg == 0 && r.forest_size == 0,
            r.mountain_size == 0 && r.rock_size == 0 && r.total_metal == 0,
            r.total_oil == 0 && r.goodies == 0 && r.land_resources == 0,
            r.sea_resources == 0 && r.land_size == 0 && r.seed == 0,
            empty_walked(r.start_x),
            empty_walked(r.start_y),
            empty_walked(r.start_city_x),
            empty_walked(r.start_city_y),
            empty_walked(r.oil_x),
            empty_walked(r.oil_y),
            r.start_city_locs@.len() == 0,
            r.wdata@.len() == clamp0(xs * ys),
            forall|i: int| 0 <= i < r.wdata@.len() ==> #[trigger] r.wdata@[i] == wiped_wdata(),
            r.tdata@.len() == clamp0(16 * xs * ys) && all_zero_u16(r.tdata@),
            forall|p: int|
                0 <= p < 8 ==> (#[trigger] r.danger@[p])@.len() == clamp0(r.reg_size as int)
                    && all_zero_i32(r.danger@[p]@),
            r.seen@.len() == clamp0(4 * xs * ys) && all_zero_u8(r.seen@),
            r.seen2@.len() == clamp0(4 * xs * ys) && all_zero_u8(r.seen2@),
            r.seen3@.len() == clamp0(4 * xs * ys) && all_zero_u8(r.seen3@),
            r.wcoord_seen@.len() == clamp0(xs * ys) && all_zero_u8(r.wcoord_seen@),
            empty_walked(r.terrain_sync.halfland_locs),
            empty_walked(r.terrain_sync.halfland_types),
            empty_walked(r.terrain_sync.halfland_subtypes),
            empty_walked(r.terrain_sync.nuke_hits),
            xs >= 0 && ys >= 0 ==> r.wf(),
    {
        let tile_xs = xs * 4;
        let tile_ys = ys * 4;
        let fog_xs = match (tile_xs * 2).checked_div(4) {
            Some(v) => v,
            None => 0,
        };
        let fog_ys = match (tile_ys * 2).checked_div(4) {
            Some(v) => v,
            None => 0,
        };
        let reg_xs = match tile_xs.checked_div(8) {
            Some(v) => v,
            None => 0,
        };
        let reg_ys = match tile_ys.checked_div(8) {
            Some(v) => v,
            None => 0,
        };
        proof {
            assert(fog_xs == xs * 2);
            assert(fog_ys == ys * 2);
            assert(reg_xs == trunc_div(xs as int, 2)) by {
                if xs >= 0 {
                    lemma_floor_nested_nonneg(xs as int);
                } else {
                    lemma_floor_nested_nonneg(-(xs as int));
                }
            }
            assert(reg_ys == trunc_div(ys as int, 2)) by {
                if ys >= 0 {
                    lemma_floor_nested_nonneg(ys as int);
                } else {
                    lemma_floor_nested_nonneg(-(ys as int));
                }
            }
            lemma_dims_fit(xs as int, ys as int, reg_xs as int, reg_ys as int);
        }
        let size = xs * ys;
        let tile_size = tile_xs * tile_ys;
        let fog_size = fog_xs * fog_ys;
        let reg_size = reg_xs * reg_ys;
        let n_w: usize = if size > 0 { size as usize } else { 0 };
        let n_t: usize = if tile_size > 0 { tile_size as usize } else { 0 };
        let n_f: usize = if fog_size > 0 { fog_size as usize } else { 0 };
        let n_r: usize = if reg_size > 0 { reg_size as usize } else { 0 };
        let mut wdata: Vec<WData> = Vec::new();
        let mut i: usize = 0;
        while i < n_w
            invariant
                i <= n_w,
                wdata@.len() == i,
                forall|j: int| 0 <= j < i ==> #[trigger] wdata@[j] == wiped_wdata(),
            decreases n_w - i,
        {
            wdata.push(WData::wiped());
            i = i + 1;
        }
        let r = World {
            xs,
            ys,
            size,
            fog_xs,
            fog_ys,
            fog_size,
            tile_xs,
            tile_ys,
            tile_size,
            reg_xs,
            reg_ys,
            reg_size,
            map: 0,
            sea_map: -1i32,
            player_territory_limit: territory_base,
            player_territory_limit_civic: territory_civic,
            player_territory_limit_city: territory_city,
            colonized_territory_limit: territory_base,
            colonized_territory_limit_civic: territory_civic,
            colonized_territory_limit_city: territory_city,
            player_reg: 0,
            resource_reg: 0,
            forest_size: 0,
            mountain_size: 0,
            rock_size: 0,
            total_metal: 0,
            total_oil: 0,
            goodies: 0,
            land_resources: 0,
            sea_resources: 0,
            land_size: 0,
            seed: 0,
            start_x: WalkedArray::new(),
            start_y: WalkedArray::new(),
            start_city_x: WalkedArray::new(),
            start_city_y: WalkedArray::new(),
            oil_x: WalkedArray::new(),
            oil_y: WalkedArray::new(),
            start_city_locs: Vec::new(),
            wdata,
            tdata: vec![0u16; n_t],
            danger: [
                vec![0i32; n_r],
                vec![0i32; n_r],
                vec![0i32; n_r],
                vec![0i32; n_r],
                vec![0i32; n_r],
                vec![0i32; n_r],
                vec![0i32; n_r],
                vec![0i32; n_r],
            ],
            seen: vec![0u8; n_f],
            seen2: vec![0u8; n_f],
            seen3: vec![0u8; n_f],
            wcoord_seen: vec![0u8; n_w],
            terrain_sync: TerrainSync::new(),
        };
        proof {
            assert(forall|p: int| 0 <= p < 8 ==> (#[trigger] r.danger@[p]) == r.danger[p]);
        }
        r
    }

    /// `World::init` with the shipped `Constants`: `territory_limit_base = 44`,
    /// `_civic = 4`, `_city = 4`.
    pub fn init_default_rules(xs: i32, ys: i32) -> (r: World)
        requires
            i32::MIN <= 8 * xs <= i32::MAX,
            i32::MIN <= 8 * ys <= i32::MAX,
            i32::MIN <= 16 * xs * ys <= i32::MAX,
        ensures
            r.xs == xs && r.ys == ys,
            r.player_territory_limit == 44,
            r.player_territory_limit_civic == 4,
            r.player_territory_limit_city == 4,
            r.colonized_territory_limit == 44,
            r.colonized_territory_limit_civic == 4,
            r.colonized_territory_limit_city == 4,
            r.size == xs * ys && r.tile_size == 16 * xs * ys && r.fog_size == 4 * xs * ys,
            r.tile_xs == xs * 4 && r.tile_ys == ys * 4 && r.fog_xs == xs * 2 && r.fog_ys == ys * 2,
            r.reg_xs == trunc_div(xs as int, 2) && r.reg_ys == trunc_div(ys as int, 2),
            r.reg_size == r.reg_xs * r.reg_ys,
            r.sea_map == -1 && r.seed == 0,
            forall|i: int| 0 <= i < r.wdata@.len() ==> #[trigger] r.wdata@[i] == wiped_wdata(),
            all_zero_u16(r.tdata@),
            all_zero_u8(r.seen@) && all_zero_u8(r.seen2@) && all_zero_u8(r.seen3@),
            all_zero_u8(r.wcoord_seen@),
            forall|p: int| 0 <= p < 8 ==> all_zero_i32((#[trigger] r.danger@[p])@),
            r.start_x.items@.len() == 0 && r.start_y.items@.len() == 0,
            r.start_city_x.items@.len() == 0 && r.start_city_y.items@.len() == 0,
            r.oil_x.items@.len() == 0 && r.oil_y.items@.len() == 0,
            empty_walked(r.terrain_sync.halfland_locs),
            empty_walked(r.terrain_sync.halfland_types),
            empty_walked(r.terrain_sync.halfland_subtypes),
            empty_walked(r.terrain_sync.nuke_hits),
            xs >= 0 && ys >= 0 ==> r.wf(),
    {
        World::init(xs, ys, 44, 4, 4)
    }
}

/// `(4n) / 8 == n / 2` for a non-negative `n`.
proof fn lemma_floor_nested_nonneg(n: int)
    requires
        n >= 0,
    ensures
        (4 * n) / 8 == n / 2,
{
    lemma_fundamental_div_mod(n, 2);
    lemma_fundamental_div_mod_converse(4 * n, 8, n / 2, 4 * (n % 2));
}

/// The products `World::init` forms stay inside `i32` when `16 * xs * ys` does.
proof fn lemma_dims_fit(xs: int, ys: int, rx: int, ry: int)
    requires
        i32::MIN <= 8 * xs <= i32::MAX,
        i32::MIN <= 8 * ys <= i32::MAX,
        i32::MIN <= 16 * xs * ys <= i32::MAX,
        rx == trunc_div(xs, 2),
        ry == trunc_div(ys, 2),
    ensures
        i32::MIN <= xs * ys <= i32::MAX,
        (xs * 4) * (ys * 4) == 16 * xs * ys,
        (xs * 2) * (ys * 2) == 4 * xs * ys,
        i32::MIN <= 4 * xs * ys <= i32::MAX,
        i32::MIN <= rx * ry <= i32::MAX,
        xs >= 0 ==> rx >= 0,
        ys >= 0 ==> ry >= 0,
{
    assert((xs * 4) * (ys * 4) == 16 * xs * ys) by (nonlinear_arith);
    assert((xs * 2) * (ys * 2) == 4 * xs * ys) by (nonlinear_arith);
    assert(16 * xs * ys == 16 * (xs * ys)) by (nonlinear_arith);
    assert(4 * xs * ys == 4 * (xs * ys)) by (nonlinear_arith);
    let ax = if rx >= 0 { rx } else { -rx };
    let ay = if ry >= 0 { ry } else { -ry };
    let bx = if xs >= 0 { xs } else { -xs };
    let by_ = if ys >= 0 { ys } else { -ys };
    assert(0 <= ax <= bx);
    assert(0 <= ay <= by_);
    assert(ax * ay <= bx * by_) by (nonlinear_arith)
        requires
            0 <= ax <= bx,
            0 <= ay <= by_,
    ;
    assert(bx * by_ == xs * ys || bx * by_ == -(xs * ys)) by (nonlinear_arith)
        requires
            bx == xs || bx == -xs,
            by_ == ys || by_ == -ys,
    ;
    assert(rx * ry == ax * ay || rx * ry == -(ax * ay)) by (nonlinear_arith)
        requires
            ax == rx || ax == -rx,
            ay == ry || ay == -ry,
    ;
    assert(0 <= ax * ay) by (nonlinear_arith)
        requires
            0 <= ax,
            0 <= ay,
    ;
}


/// `i & 3 == i % 4` and `i >> 2 == i / 4` for a tile offset inside a world cell.
proof fn lemma_cell_offset_bits(i: i32)
    requires
        0 <= i < 16,
    ensures
        (i & 3) == i % 4,
        (i >> 2u32) == i / 4,
{
    assert((i & 3) == i % 4 && (i >> 2u32) == i / 4) by (bit_vector)
        requires
            0 <= i < 16,
    ;
}

/// The `get_land(.., mode)` terrain class of a cell whose `is_ocean` answer is `ocean`.
pub open spec fn land_class_of(w: WData, ocean: bool, mode: int) -> i32 {
    let f = w.flags;
    if mode == 0 {
        if f & wflag::COAST != 0 {
            2
        } else {
            w.land as i32
        }
    } else if mode < 0 {
        if f & wflag::COAST != 0 {
            3
        } else {
            w.land as i32
        }
    } else if f & wflag::COAST != 0 {
        3
    } else if f & wflag::FOREST != 0 {
        4
    } else if f & (wflag::MOUNTAINS | wflag::IMPASSABLE_X) != 0 {
        5
    } else if f & wflag::ROCKS != 0 {
        if f & wflag::OIL != 0 {
            7
        } else {
            6
        }
    } else if ocean && f & wflag::OIL != 0 {
        7
    } else {
        w.land as i32
    }
}

/// `WorldData::is_ocean` on a cell record: a `WATERHALF` cell is never ocean, otherwise
/// `land` is 1 or 2.
pub open spec fn ocean_cell(w: WData) -> bool {
    w.flags & wflag::WATERHALF == 0 && (w.land == land::COASTAL || w.land == land::OCEAN)
}

/// `|v|` for a value that is not `i32::MIN`.
pub open spec fn abs_int(v: int) -> int {
    if v < 0 {
        -v
    } else {
        v
    }
}

/// The larger of two grades.
pub open spec fn max_grade(a: i32, b: i32) -> i32 {
    if b > a {
        b
    } else {
        a
    }
}

impl World {
    /// The `i`-th 8-neighbour of `(tx, ty)` is on the map and blocked.
    pub open spec fn nb_blocked(&self, tx: int, ty: int, i: int) -> bool {
        let nx = tx + NEIGHBOUR_DX@[i];
        let ny = ty + NEIGHBOUR_DY@[i];
        self.in_t(nx, ny) && self.tm(nx, ny) & tflag::BLOCKED != 0
    }

    /// `WorldData::has_blocked_neighbors`: some on-map 8-neighbour is blocked.
    pub open spec fn blocked_neighbors_spec(&self, tx: int, ty: int) -> bool {
        exists|i: int| 0 <= i < 8 && #[trigger] self.nb_blocked(tx, ty, i)
    }

    /// The `i`-th orthogonal neighbour of `(tx, ty)` is on the map, dry and unblocked.
    pub open spec fn nb4_open(&self, tx: int, ty: int, i: int) -> bool {
        let nx = tx + NEIGHBOUR4_DX@[i];
        let ny = ty + NEIGHBOUR4_DY@[i];
        self.in_t(nx, ny) && self.tm(nx, ny) & tflag::SURFACE_MASK != tflag::SURFACE_WATER
            && self.tm(nx, ny) & tflag::BLOCKED == 0
    }

    /// Tile `i` (`0..16`) of a world cell, in `traverse` order.
    pub open spec fn cell_tm(&self, wx: int, wy: int, i: int) -> u16 {
        self.tm(wx * 4 + i % 4, wy * 4 + i / 4)
    }

    /// Tile `i` of a world cell has a valid tile index.
    pub open spec fn cell_t_ok(&self, wx: int, wy: int, i: int) -> bool {
        self.t_ok(wx * 4 + i % 4, wy * 4 + i / 4)
    }

    /// All sixteen tiles of a world cell can be addressed without overflow.
    pub open spec fn cell_tiles_ok(&self, wx: int, wy: int) -> bool {
        &&& i32::MIN <= wx * 4
        &&& wx * 4 + 3 <= i32::MAX
        &&& i32::MIN <= wy * 4
        &&& wy * 4 + 3 <= i32::MAX
        &&& forall|i: int| 0 <= i < 16 ==> #[trigger] self.cell_t_ok(wx, wy, i)
    }

    /// How many of the first `k` tiles of a world cell are water.
    pub open spec fn water_count(&self, wx: int, wy: int, k: int) -> int
        decreases k,
    {
        if k <= 0 {
            0
        } else {
            self.water_count(wx, wy, k - 1) + if self.cell_tm(wx, wy, k - 1)
                & tflag::SURFACE_MASK == tflag::SURFACE_WATER {
                1int
            } else {
                0int
            }
        }
    }

    /// An on-map world cell's sixteen tiles are all addressable.
    pub proof fn lemma_cell_tiles(&self, wx: int, wy: int)
        requires
            self.wf(),
            self.in_w(wx, wy),
        ensures
            self.cell_tiles_ok(wx, wy),
    {
        assert forall|i: int| 0 <= i < 16 implies #[trigger] self.cell_t_ok(wx, wy, i) by {
            self.lemma_in_t(wx * 4 + i % 4, wy * 4 + i / 4);
        }
        lemma_grid_index(wx, wy, self.xs as int, self.ys as int);
    }

    /// The grade `space_at_corner` gives one probe position: off the map, or unusable for
    /// `who`.
    pub open spec fn tile_unusable(&self, px: int, py: int, who: i32, need_city: bool) -> bool {
        if !self.in_t(px, py) {
            true
        } else {
            let m = self.tm(px, py);
            let owner = self.wd(px / 4, py / 4).who as int;
            (m & tflag::CITY == 0 && need_city) || (m & tflag::BLOCKER_MASK)
                == tflag::BLOCKER_BUILDING || (m & tflag::STARTED) != 0 || (owner >= 0 && owner
                != who) || (m & tflag::BLOCKED) != 0
        }
    }

    /// Probe `i` of the block anchored at `(tx, ty)` is unusable.
    pub open spec fn probe_bad(&self, tx: int, ty: int, who: i32, need_city: bool, i: int) -> bool {
        self.tile_unusable(tx + SPACE_PROBE_DX@[i], ty + SPACE_PROBE_DY@[i], who, need_city)
    }

    /// How many ring probes `4..k` are unusable.
    pub open spec fn ring_bad_count(&self, tx: int, ty: int, who: i32, need_city: bool, k: int) -> int
        decreases k,
    {
        if k <= 4 {
            0
        } else {
            self.ring_bad_count(tx, ty, who, need_city, k - 1) + if self.probe_bad(
                tx,
                ty,
                who,
                need_city,
                k - 1,
            ) {
                1int
            } else {
                0int
            }
        }
    }

    /// Approach group `g` has all five of its probes usable.
    pub open spec fn group_clear(&self, tx: int, ty: int, who: i32, need_city: bool, g: int) -> bool {
        forall|j: int|
            0 <= j < 5 ==> !#[trigger] self.probe_bad(
                tx,
                ty,
                who,
                need_city,
                SPACE_APPROACH_GROUPS@[g]@[j] as int,
            )
    }

    /// `WorldData::space_at_corner`: `0` when any core probe is unusable, `4` when all
    /// sixteen are usable, `3` when fewer than eight ring probes are unusable and one
    /// approach group is wholly clear, else `2`.
    pub open spec fn space_grade(&self, tx: int, ty: int, who: i32, need_city: bool) -> i32 {
        if self.probe_bad(tx, ty, who, need_city, 0) || self.probe_bad(tx, ty, who, need_city, 1)
            || self.probe_bad(tx, ty, who, need_city, 2) || self.probe_bad(
            tx,
            ty,
            who,
            need_city,
            3,
        ) {
            space::CORE_BLOCKED
        } else if self.ring_bad_count(tx, ty, who, need_city, 16) == 0 {
            space::FULLY_CLEAR
        } else if self.ring_bad_count(tx, ty, who, need_city, 16) < 8 && (self.group_clear(
            tx,
            ty,
            who,
            need_city,
            0,
        ) || self.group_clear(tx, ty, who, need_city, 1) || self.group_clear(
            tx,
            ty,
            who,
            need_city,
            2,
        ) || self.group_clear(tx, ty, who, need_city, 3)) {
            space::APPROACH_CLEAR
        } else {
            space::PARTIAL
        }
    }

    /// The offset `(dx, dy)` is inside the `check_building_wcoord` sweep's diamond.
    pub open spec fn sweep_eligible(dx: int, dy: int, max_dist: int) -> bool {
        dx == 0 || dy == 0 || abs_int(dx) + abs_int(dy) <= max_dist
    }

    /// The best grade over `dy` in `[-ry, dy_end)` of column `dx`.
    pub open spec fn col_best(
        &self,
        wx: int,
        wy: int,
        who: i32,
        need_city: bool,
        max_dist: int,
        dx: int,
        ry: int,
        dy_end: int,
    ) -> i32
        decreases dy_end + ry,
    {
        if dy_end <= -ry {
            space::CORE_BLOCKED
        } else {
            let prev = self.col_best(wx, wy, who, need_city, max_dist, dx, ry, dy_end - 1);
            let dy = dy_end - 1;
            if Self::sweep_eligible(dx, dy, max_dist) {
                max_grade(prev, self.space_grade(wx * 4 + dx, wy * 4 + dy, who, need_city))
            } else {
                prev
            }
        }
    }

    /// The best grade over the columns `dx` in `[-rx, dx_end)`.
    pub open spec fn row_best(
        &self,
        wx: int,
        wy: int,
        who: i32,
        need_city: bool,
        max_dist: int,
        rx: int,
        ry: int,
        dx_end: int,
    ) -> i32
        decreases dx_end + rx,
    {
        if dx_end <= -rx {
            space::CORE_BLOCKED
        } else {
            max_grade(
                self.row_best(wx, wy, who, need_city, max_dist, rx, ry, dx_end - 1),
                self.col_best(wx, wy, who, need_city, max_dist, dx_end - 1, ry, ry + 1),
            )
        }
    }

    /// `check_building_wcoord`'s early reject: foreign owner, impassable, or all sixteen
    /// tiles blocked.
    pub open spec fn building_gate_rejects(&self, wx: int, wy: int, who: i32) -> bool {
        let w = self.wd(wx, wy);
        (w.who as int >= 0 && w.who as int != who) || w.flags & wflag::IMPASSABLE_MASK != 0
            || w.blocked == 16
    }

    /// A placement grade is at most `FULLY_CLEAR`.
    pub proof fn lemma_grade_bounded(&self, tx: int, ty: int, who: i32, need_city: bool)
        ensures
            0 <= self.space_grade(tx, ty, who, need_city) <= space::FULLY_CLEAR,
    {
    }

    /// Sweep maxima never exceed `FULLY_CLEAR` and grow as the sweep extends.
    pub proof fn lemma_col_best(
        &self,
        wx: int,
        wy: int,
        who: i32,
        need_city: bool,
        max_dist: int,
        dx: int,
        ry: int,
        a: int,
        b: int,
    )
        requires
            a <= b,
        ensures
            0 <= self.col_best(wx, wy, who, need_city, max_dist, dx, ry, a),
            self.col_best(wx, wy, who, need_city, max_dist, dx, ry, a) <= self.col_best(
                wx,
                wy,
                who,
                need_city,
                max_dist,
                dx,
                ry,
                b,
            ),
            self.col_best(wx, wy, who, need_city, max_dist, dx, ry, b) <= space::FULLY_CLEAR,
        decreases b + ry,
    {
        if b > -ry && a < b {
            self.lemma_col_best(wx, wy, who, need_city, max_dist, dx, ry, a, b - 1);
            self.lemma_grade_bounded(wx * 4 + dx, wy * 4 + b - 1, who, need_city);
        } else if b > -ry {
            self.lemma_col_best(wx, wy, who, need_city, max_dist, dx, ry, b - 1, b - 1);
            self.lemma_grade_bounded(wx * 4 + dx, wy * 4 + b - 1, who, need_city);
        }
    }

    /// See [`World::lemma_col_best`].
    pub proof fn lemma_row_best(
        &self,
        wx: int,
        wy: int,
        who: i32,
        need_city: bool,
        max_dist: int,
        rx: int,
        ry: int,
        a: int,
        b: int,
    )
        requires
            a <= b,
        ensures
            0 <= self.row_best(wx, wy, who, need_city, max_dist, rx, ry, a),
            self.row_best(wx, wy, who, need_city, max_dist, rx, ry, a) <= self.row_best(
                wx,
                wy,
                who,
                need_city,
                max_dist,
                rx,
                ry,
                b,
            ),
            self.row_best(wx, wy, who, need_city, max_dist, rx, ry, b) <= space::FULLY_CLEAR,
        decreases b + rx,
    {
        if b > -rx {
            self.lemma_col_best(wx, wy, who, need_city, max_dist, b - 1, ry, ry + 1, ry + 1);
            if a < b {
                self.lemma_row_best(wx, wy, who, need_city, max_dist, rx, ry, a, b - 1);
            } else {
                self.lemma_row_best(wx, wy, who, need_city, max_dist, rx, ry, b - 1, b - 1);
            }
        }
    }

    // -- indexing ------------------------------------------------------------------------

    /// `WorldData::start_city_wcoord` `0x006b30e0`: a row-major flatten followed by an
    /// LSB-first bit test. It performs no bounds check; the bit must exist.
    pub fn start_city_wcoord(&self, x: WCoord, y: WCoord) -> (r: bool)
        requires
            i32::MIN <= y.0 * self.xs <= i32::MAX,
            0 <= y.0 * self.xs + x.0 <= i32::MAX,
            (y.0 * self.xs + x.0) / 8 < self.start_city_locs@.len(),
        ensures
            r == (self.start_city_locs@[(y.0 * self.xs + x.0) / 8] & (1u8 << (((y.0 * self.xs
                + x.0) % 8) as u8)) != 0),
    {
        let index = y.0 * self.xs + x.0;
        let byte = index >> 3u32;
        let bit = index & 7;
        proof {
            assert(byte == index / 8 && bit == index % 8) by (bit_vector)
                requires
                    0 <= index,
                    byte == index >> 3u32,
                    bit == index & 7,
            ;
        }
        let mask: u8 = 1u8 << (bit as u8);
        self.start_city_locs[byte as usize] & mask != 0
    }

    /// `World::get_wdata` `0x0046d220`: `wdata[wy * xs + wx]`, stride 28.
    pub fn w_index(&self, wx: i32, wy: i32) -> (r: usize)
        requires
            i32::MIN <= wy * self.xs <= i32::MAX,
            i32::MIN <= wy * self.xs + wx <= i32::MAX,
        ensures
            r == (wy * self.xs + wx) as usize,
    {
        (wy * self.xs + wx) as usize
    }

    /// `tdata[ty * tile_xs + tx]`, stride 2.
    pub fn t_index(&self, tx: i32, ty: i32) -> (r: usize)
        requires
            i32::MIN <= ty * self.tile_xs <= i32::MAX,
            i32::MIN <= ty * self.tile_xs + tx <= i32::MAX,
        ensures
            r == (ty * self.tile_xs + tx) as usize,
    {
        (ty * self.tile_xs + tx) as usize
    }

    /// `seen[fy * fog_xs + fx]` (`World::get_seen` `0x006b4290`).
    pub fn f_index(&self, fx: i32, fy: i32) -> (r: usize)
        requires
            i32::MIN <= fy * self.fog_xs <= i32::MAX,
            i32::MIN <= fy * self.fog_xs + fx <= i32::MAX,
        ensures
            r == (fy * self.fog_xs + fx) as usize,
    {
        (fy * self.fog_xs + fx) as usize
    }

    /// `danger[who][ry * reg_xs + rx]`.
    pub fn r_index(&self, rx: i32, ry: i32) -> (r: usize)
        requires
            i32::MIN <= ry * self.reg_xs <= i32::MAX,
            i32::MIN <= ry * self.reg_xs + rx <= i32::MAX,
        ensures
            r == (ry * self.reg_xs + rx) as usize,
    {
        (ry * self.reg_xs + rx) as usize
    }

    /// `WorldData::is_valid(WCoord,WCoord)` `0x00461420`.
    pub fn valid_w(&self, wx: i32, wy: i32) -> (r: bool)
        ensures
            r == self.in_w(wx as int, wy as int),
    {
        wx >= 0 && wy >= 0 && wx < self.xs && wy < self.ys
    }

    /// `WorldData::is_valid(TCoord,TCoord)` `0x0046f760`.
    pub fn valid_t(&self, tx: i32, ty: i32) -> (r: bool)
        ensures
            r == self.in_t(tx as int, ty as int),
    {
        tx >= 0 && ty >= 0 && tx < self.tile_xs && ty < self.tile_ys
    }

    /// Fog-plane bounds, the check `Object::update_seen` `0x00651b80` hoists out of its
    /// disc loop.
    pub fn valid_f(&self, fx: i32, fy: i32) -> (r: bool)
        ensures
            r == (0 <= fx < self.fog_xs && 0 <= fy < self.fog_ys),
    {
        fx >= 0 && fy >= 0 && fx < self.fog_xs && fy < self.fog_ys
    }

    /// `WorldData::is_valid(Coord,Coord)` `0x0043f360` — bounds are `tile_xs * 192`.
    pub fn valid_coord(&self, cx: i32, cy: i32) -> (r: bool)
        requires
            i32::MIN <= self.tile_xs * 192 <= i32::MAX,
            i32::MIN <= self.tile_ys * 192 <= i32::MAX,
        ensures
            r == (0 <= cx < self.tile_xs * 192 && 0 <= cy < self.tile_ys * 192),
    {
        cx >= 0 && cy >= 0 && cx < self.tile_xs * COORD_PER_TILE && cy < self.tile_ys
            * COORD_PER_TILE
    }

    /// `WorldData::is_edge` `0x0047a970`.
    pub fn is_edge(&self, wx: i32, wy: i32) -> (r: bool)
        requires
            self.xs > i32::MIN,
            self.ys > i32::MIN,
        ensures
            r == (wx == 0 || wy == 0 || wx == self.xs - 1 || wy == self.ys - 1),
    {
        wx == 0 || wy == 0 || wx == self.xs - 1 || wy == self.ys - 1
    }

    /// The cell record at `(wx, wy)`.
    pub fn wdata(&self, wx: i32, wy: i32) -> (r: &WData)
        requires
            self.w_ok(wx as int, wy as int),
        ensures
            *r == self.wd(wx as int, wy as int),
    {
        &self.wdata[(wy * self.xs + wx) as usize]
    }

    /// The cell record at `(wx, wy)`, for writing.
    pub fn wdata_mut(&mut self, wx: i32, wy: i32) -> (r: &mut WData)
        requires
            old(self).w_ok(wx as int, wy as int),
        ensures
            *r == old(self).wd(wx as int, wy as int),
            final(self).wdata@ == old(self).wdata@.update(
                old(self).w_at(wx as int, wy as int),
                *final(r),
            ),
            *final(self) == (World { wdata: final(self).wdata, ..*old(self) }),
    {
        let i = (wy * self.xs + wx) as usize;
        &mut self.wdata[i]
    }

    /// The tile mask at `(tx, ty)`.
    pub fn tmask(&self, tx: i32, ty: i32) -> (r: u16)
        requires
            self.t_ok(tx as int, ty as int),
        ensures
            r == self.tm(tx as int, ty as int),
    {
        self.tdata[(ty * self.tile_xs + tx) as usize]
    }

    /// The tile mask at `(tx, ty)`, for writing.
    pub fn tmask_mut(&mut self, tx: i32, ty: i32) -> (r: &mut u16)
        requires
            old(self).t_ok(tx as int, ty as int),
        ensures
            *r == old(self).tm(tx as int, ty as int),
            final(self).tdata@ == old(self).tdata@.update(
                old(self).t_at(tx as int, ty as int),
                *final(r),
            ),
            *final(self) == (World { tdata: final(self).tdata, ..*old(self) }),
    {
        let i = (ty * self.tile_xs + tx) as usize;
        &mut self.tdata[i]
    }

    // -- terrain predicates ---------------------------------------------------------------

    /// `WorldData::is_cliff_at` `0x0046f8c0`.
    pub fn is_cliff_at(&self, tx: i32, ty: i32) -> (r: bool)
        requires
            self.t_ok(tx as int, ty as int),
        ensures
            r == (self.tm(tx as int, ty as int) & tflag::BLOCKER_MASK == tflag::BLOCKER_CLIFF),
    {
        self.tmask(tx, ty) & tflag::BLOCKER_MASK == tflag::BLOCKER_CLIFF
    }

    /// `WorldData::is_mountain_at` `0x0046f900`.
    pub fn is_mountain_at(&self, tx: i32, ty: i32) -> (r: bool)
        requires
            self.t_ok(tx as int, ty as int),
        ensures
            r == (self.tm(tx as int, ty as int) & tflag::BLOCKER_MASK == tflag::BLOCKER_MOUNTAIN),
    {
        self.tmask(tx, ty) & tflag::BLOCKER_MASK == tflag::BLOCKER_MOUNTAIN
    }

    /// `WorldData::is_tree_at` `0x0046f930`.
    pub fn is_tree_at(&self, tx: i32, ty: i32) -> (r: bool)
        requires
            self.t_ok(tx as int, ty as int),
        ensures
            r == (self.tm(tx as int, ty as int) & tflag::SURFACE_MASK == tflag::SURFACE_TREES),
    {
        self.tmask(tx, ty) & tflag::SURFACE_MASK == tflag::SURFACE_TREES
    }

    /// `WorldData::is_tocean` `0x0046fb10`.
    pub fn is_tocean(&self, tx: i32, ty: i32) -> (r: bool)
        requires
            self.t_ok(tx as int, ty as int),
        ensures
            r == (self.tm(tx as int, ty as int) & tflag::SURFACE_MASK == tflag::SURFACE_WATER),
    {
        self.tmask(tx, ty) & tflag::SURFACE_MASK == tflag::SURFACE_WATER
    }

    /// `WorldData::is_river` `0x0046d390`.
    pub fn is_river(&self, tx: i32, ty: i32) -> (r: bool)
        requires
            self.t_ok(tx as int, ty as int),
        ensures
            r == (self.tm(tx as int, ty as int) & tflag::RIVER != 0),
    {
        self.tmask(tx, ty) & tflag::RIVER != 0
    }

    /// `WorldData::is_gathered_from` `0x00472ac0`.
    pub fn is_gathered_from(&self, tx: i32, ty: i32) -> (r: bool)
        requires
            self.t_ok(tx as int, ty as int),
        ensures
            r == (self.tm(tx as int, ty as int) & tflag::GATHERED != 0),
    {
        self.tmask(tx, ty) & tflag::GATHERED != 0
    }

    /// `WorldData::is_built_at` `0x0046f880` — building blocker or the `STARTED` bit.
    pub fn is_built_at(&self, tx: i32, ty: i32) -> (r: bool)
        requires
            self.t_ok(tx as int, ty as int),
        ensures
            r == ((self.tm(tx as int, ty as int) & tflag::BLOCKER_MASK) == tflag::BLOCKER_BUILDING
                || (self.tm(tx as int, ty as int) & tflag::STARTED) != 0),
    {
        let m = self.tmask(tx, ty);
        (m & tflag::BLOCKER_MASK) == tflag::BLOCKER_BUILDING || (m & tflag::STARTED) != 0
    }

    /// `WorldData::is_blocked_at` `0x00461340`. With `ignore_trees`, a tile blocked only
    /// because it holds trees reads as unblocked.
    pub fn is_blocked_at(&self, tx: i32, ty: i32, ignore_trees: bool) -> (r: bool)
        requires
            self.t_ok(tx as int, ty as int),
        ensures
            r == if !ignore_trees {
                self.tm(tx as int, ty as int) & tflag::BLOCKED != 0
            } else {
                (self.tm(tx as int, ty as int) & tflag::BLOCKED) != 0 && (self.tm(tx as int, ty as int)
                    & tflag::SURFACE_MASK) != tflag::SURFACE_TREES
            },
    {
        let m = self.tmask(tx, ty);
        if !ignore_trees {
            m & tflag::BLOCKED != 0
        } else {
            (m & tflag::BLOCKED) != 0 && (m & tflag::SURFACE_MASK) != tflag::SURFACE_TREES
        }
    }

    /// `WorldData::has_blocked_neighbors` `0x006b2990` — any of the 8 on-map neighbours
    /// carries `BLOCKED`.
    pub fn has_blocked_neighbors(&self, tx: i32, ty: i32) -> (r: bool)
        requires
            self.wf(),
            i32::MIN < tx < i32::MAX,
            i32::MIN < ty < i32::MAX,
        ensures
            r == self.blocked_neighbors_spec(tx as int, ty as int),
    {
        let mut i: usize = 0;
        while i < 8
            invariant
                self.wf(),
                i32::MIN < tx < i32::MAX,
                i32::MIN < ty < i32::MAX,
                i <= 8,
                forall|j: int| 0 <= j < i ==> !#[trigger] self.nb_blocked(tx as int, ty as int, j),
            decreases 8 - i,
        {
            let nx = tx + NEIGHBOUR_DX[i];
            let ny = ty + NEIGHBOUR_DY[i];
            if self.valid_t(nx, ny) {
                proof {
                    self.lemma_in_t(nx as int, ny as int);
                }
                if self.tmask(nx, ny) & tflag::BLOCKED != 0 {
                    assert(self.nb_blocked(tx as int, ty as int, i as int));
                    return true;
                }
            }
            i = i + 1;
        }
        false
    }

    /// `WorldData::is_ocean` `0x006b4830`: a `WATERHALF` cell is never ocean; otherwise
    /// `land` is 1 or 2.
    pub fn is_ocean(&self, wx: i32, wy: i32) -> (r: bool)
        requires
            self.w_ok(wx as int, wy as int),
        ensures
            r == ocean_cell(self.wd(wx as int, wy as int)),
    {
        let w = self.wdata(wx, wy);
        if w.flags & wflag::WATERHALF != 0 {
            return false;
        }
        w.land == land::COASTAL || w.land == land::OCEAN
    }

    /// `WorldData::is_forest` `0x006b5560`.
    pub fn is_forest(&self, wx: i32, wy: i32) -> (r: bool)
        requires
            self.w_ok(wx as int, wy as int),
        ensures
            r == (self.wd(wx as int, wy as int).flags & wflag::FOREST != 0),
    {
        self.wdata(wx, wy).flags & wflag::FOREST != 0
    }

    /// `WorldData::is_mountains` `0x006b5590`.
    pub fn is_mountains(&self, wx: i32, wy: i32) -> (r: bool)
        requires
            self.w_ok(wx as int, wy as int),
        ensures
            r == (self.wd(wx as int, wy as int).flags & wflag::MOUNTAINS != 0),
    {
        self.wdata(wx, wy).flags & wflag::MOUNTAINS != 0
    }

    /// `WorldData::is_rocks` `0x006b4380`.
    pub fn is_rocks(&self, wx: i32, wy: i32) -> (r: bool)
        requires
            self.w_ok(wx as int, wy as int),
        ensures
            r == (self.wd(wx as int, wy as int).flags & wflag::ROCKS != 0),
    {
        self.wdata(wx, wy).flags & wflag::ROCKS != 0
    }

    /// `WorldData::is_coast` `0x006b3020`.
    pub fn is_coast(&self, wx: i32, wy: i32) -> (r: bool)
        requires
            self.w_ok(wx as int, wy as int),
        ensures
            r == (self.wd(wx as int, wy as int).flags & wflag::COAST != 0),
    {
        self.wdata(wx, wy).flags & wflag::COAST != 0
    }

    /// `WorldData::is_dead_build` `0x006b2390`.
    pub fn is_dead_build(&self, wx: i32, wy: i32) -> (r: bool)
        requires
            self.w_ok(wx as int, wy as int),
        ensures
            r == (self.wd(wx as int, wy as int).flags & wflag::DEAD_BUILD != 0),
    {
        self.wdata(wx, wy).flags & wflag::DEAD_BUILD != 0
    }

    /// `WorldData::is_oil_at` `0x00472af0`.
    pub fn is_oil_at(&self, wx: i32, wy: i32) -> (r: bool)
        requires
            self.w_ok(wx as int, wy as int),
        ensures
            r == (self.wd(wx as int, wy as int).flags & wflag::OIL != 0),
    {
        self.wdata(wx, wy).flags & wflag::OIL != 0
    }

    /// `WorldData::is_passable` `0x006b23c0` — `(flags & 0x70) == 0`.
    pub fn is_passable(&self, wx: i32, wy: i32) -> (r: bool)
        requires
            self.w_ok(wx as int, wy as int),
        ensures
            r == (self.wd(wx as int, wy as int).flags & wflag::IMPASSABLE_MASK == 0),
    {
        self.wdata(wx, wy).flags & wflag::IMPASSABLE_MASK == 0
    }

    /// `WorldData::is_impassable` `0x006b4880`.
    pub fn is_impassable(&self, wx: i32, wy: i32) -> (r: bool)
        requires
            self.w_ok(wx as int, wy as int),
        ensures
            r == (self.wd(wx as int, wy as int).flags & wflag::IMPASSABLE_MASK != 0),
    {
        !self.is_passable(wx, wy)
    }

    /// `WorldData::is_pass_land` `0x006b56b0` — neither mountains nor forest, and not
    /// ocean.
    pub fn is_pass_land(&self, wx: i32, wy: i32) -> (r: bool)
        requires
            self.w_ok(wx as int, wy as int),
        ensures
            r == (self.wd(wx as int, wy as int).flags & (wflag::MOUNTAINS | wflag::FOREST) == 0
                && !ocean_cell(self.wd(wx as int, wy as int))),
    {
        self.wdata(wx, wy).flags & (wflag::MOUNTAINS | wflag::FOREST) == 0 && !self.is_ocean(
            wx,
            wy,
        )
    }

    /// `WorldData::is_flat` `0x006b3120`.
    pub fn is_flat(&self, wx: i32, wy: i32) -> (r: bool)
        requires
            self.w_ok(wx as int, wy as int),
        ensures
            r == (self.wd(wx as int, wy as int).flags & (wflag::MOUNTAINS | wflag::FOREST) == 0
                && !ocean_cell(self.wd(wx as int, wy as int)) && self.wd(wx as int, wy as int).flags
                & (wflag::ROCKS | wflag::IMPASSABLE_X) == 0),
    {
        let f = self.wdata(wx, wy).flags;
        f & (wflag::MOUNTAINS | wflag::FOREST) == 0 && !self.is_ocean(wx, wy) && f & (
        wflag::ROCKS | wflag::IMPASSABLE_X) == 0
    }

    /// `WorldData::buildings_allowed` `0x006b2340` — `(flags & 0x78) == 0`.
    pub fn buildings_allowed(&self, wx: i32, wy: i32) -> (r: bool)
        requires
            self.w_ok(wx as int, wy as int),
        ensures
            r == (self.wd(wx as int, wy as int).flags & wflag::NO_BUILD_MASK == 0),
    {
        self.wdata(wx, wy).flags & wflag::NO_BUILD_MASK == 0
    }

    /// `WorldData::num_waterhalf` `0x006b4db0` — for a `WATERHALF` cell, how many of its
    /// sixteen tiles are water; zero for any other cell.
    pub fn num_waterhalf(&self, wx: i32, wy: i32) -> (r: i32)
        requires
            self.w_ok(wx as int, wy as int),
            self.wd(wx as int, wy as int).flags & wflag::WATERHALF != 0 ==> self.cell_tiles_ok(
                wx as int,
                wy as int,
            ),
        ensures
            r == if self.wd(wx as int, wy as int).flags & wflag::WATERHALF == 0 {
                0
            } else {
                self.water_count(wx as int, wy as int, 16)
            },
    {
        if self.wdata(wx, wy).flags & wflag::WATERHALF == 0 {
            return 0;
        }
        let mut n: i32 = 0;
        let mut i: i32 = 0;
        while i < 16
            invariant
                0 <= i <= 16,
                self.cell_tiles_ok(wx as int, wy as int),
                n == self.water_count(wx as int, wy as int, i as int),
                0 <= n <= i,
            decreases 16 - i,
        {
            proof {
                lemma_cell_offset_bits(i);
                assert(self.cell_t_ok(wx as int, wy as int, i as int));
            }
            let tx = wx * TILES_PER_WCELL + (i & 3);
            let ty = wy * TILES_PER_WCELL + (i >> 2u32);
            if self.tmask(tx, ty) & tflag::SURFACE_MASK == tflag::SURFACE_WATER {
                n = n + 1;
            }
            i = i + 1;
        }
        n
    }

    /// `WorldData::get_region` `0x006b5680`.
    pub fn get_region(&self, wx: i32, wy: i32) -> (r: i32)
        requires
            self.w_ok(wx as int, wy as int),
        ensures
            r == self.wd(wx as int, wy as int).region,
    {
        self.wdata(wx, wy).region as i32
    }

    /// `WorldData::get_region2` `0x006b3960`.
    pub fn get_region2(&self, wx: i32, wy: i32) -> (r: i32)
        requires
            self.w_ok(wx as int, wy as int),
        ensures
            r == self.wd(wx as int, wy as int).region2,
    {
        self.wdata(wx, wy).region2 as i32
    }

    /// `WorldData::get_who` / `get_whose` — the territory owner.
    pub fn get_who(&self, wx: i32, wy: i32) -> (r: i32)
        requires
            self.w_ok(wx as int, wy as int),
        ensures
            r == self.wd(wx as int, wy as int).who,
    {
        self.wdata(wx, wy).who as i32
    }

    /// `WorldData::get_who2` `0x006b2510` — the runner-up claimant.
    pub fn get_who2(&self, wx: i32, wy: i32) -> (r: i32)
        requires
            self.w_ok(wx as int, wy as int),
        ensures
            r == self.wd(wx as int, wy as int).who2,
    {
        self.wdata(wx, wy).who2 as i32
    }

    /// `WorldData::get_goods` `0x0046ef10`.
    pub fn get_goods(&self, wx: i32, wy: i32) -> (r: u8)
        requires
            self.w_ok(wx as int, wy as int),
        ensures
            r == self.wd(wx as int, wy as int).goods,
    {
        self.wdata(wx, wy).goods
    }

    /// `WorldData::get_tregion` `0x006b52e0` — `region2` when the owning cell is
    /// `WATERHALF` and this tile is water, otherwise `region`.
    pub fn get_tregion(&self, tx: i32, ty: i32) -> (r: i32)
        requires
            self.t_ok(tx as int, ty as int),
            self.w_ok(tx as int / 4, ty as int / 4),
        ensures
            r == if self.wd(tx as int / 4, ty as int / 4).flags & wflag::WATERHALF != 0 && self.tm(
                tx as int,
                ty as int,
            ) & tflag::SURFACE_MASK == tflag::SURFACE_WATER {
                self.wd(tx as int / 4, ty as int / 4).region2 as i32
            } else {
                self.wd(tx as int / 4, ty as int / 4).region as i32
            },
    {
        let w = self.wdata(cell_of(tx), cell_of(ty));
        if w.flags & wflag::WATERHALF != 0 && self.tmask(tx, ty) & tflag::SURFACE_MASK
            == tflag::SURFACE_WATER {
            w.region2 as i32
        } else {
            w.region as i32
        }
    }

    /// `WorldData::get_coll_block` `0x006b5350` — `region < 0` means any region.
    pub fn get_coll_block(&self, wx: i32, wy: i32, region: i32) -> (r: Option<&CollBlock>)
        requires
            self.w_ok(wx as int, wy as int),
        ensures
            r == if region >= 0 && self.wd(wx as int, wy as int).region as i32 != region {
                None
            } else {
                match self.wd(wx as int, wy as int).block {
                    Some(b) => Some(&*b),
                    None => None,
                }
            },
    {
        let w = self.wdata(wx, wy);
        if region >= 0 && w.region as i32 != region {
            return None;
        }
        match &w.block {
            Some(b) => Some(&**b),
            None => None,
        }
    }

    /// `WorldData::get_land(WCoord, WCoord, int mode)` `0x006b4730`. The `mode > 0` arm
    /// is the terrain-class query: `3` coast, `4` forest, `5` mountains, `6` rocks, `7`
    /// rocks-with-oil, else `land`.
    pub fn get_land(&self, wx: i32, wy: i32, mode: i32) -> (r: i32)
        requires
            self.w_ok(wx as int, wy as int),
        ensures
            r == land_class_of(
                self.wd(wx as int, wy as int),
                ocean_cell(self.wd(wx as int, wy as int)),
                mode as int,
            ),
    {
        let w = self.wdata(wx, wy);
        let f = w.flags;
        let base = w.land as i32;
        if mode == 0 {
            if f & wflag::COAST != 0 {
                return 2;
            }
            base
        } else if mode < 0 {
            if f & wflag::COAST != 0 {
                3
            } else {
                base
            }
        } else {
            if f & wflag::COAST != 0 {
                return 3;
            }
            if f & wflag::FOREST != 0 {
                return 4;
            }
            if f & (wflag::MOUNTAINS | wflag::IMPASSABLE_X) != 0 {
                return 5;
            }
            if f & wflag::ROCKS != 0 {
                return if f & wflag::OIL != 0 {
                    7
                } else {
                    6
                };
            }
            if self.is_ocean(wx, wy) && f & wflag::OIL != 0 {
                return 7;
            }
            base
        }
    }

    // -- placement predicates --------------------------------------------------------------

    /// `WorldData::space_at_corner(TCoord, TCoord, int who, int, int need_city)`
    /// `0x006b27f0` — grade the 4x4 tile block anchored at `(tx, ty)`. A probe counts as
    /// unusable when it is off the map, lacks `CITY` while `need_city` is set, holds a
    /// building or `STARTED`, lies in another player's cell, or is `BLOCKED`. The first
    /// unusable core probe returns `CORE_BLOCKED` before the ring is scored.
    pub fn space_at_corner(&self, tx: i32, ty: i32, who: i32, need_city: bool) -> (r: i32)
        requires
            self.wf(),
            tx <= i32::MAX - 3,
            ty <= i32::MAX - 3,
        ensures
            r == self.space_grade(tx as int, ty as int, who, need_city),
    {
        let mut slot = [0u8; 16];
        assert(forall|j: int| 0 <= j < 16 ==> #[trigger] slot@[j] == 0);
        let mut blocked_count: i32 = 0;
        let mut i: usize = 0;
        while i < 16
            invariant
                self.wf(),
                tx <= i32::MAX - 3,
                ty <= i32::MAX - 3,
                i <= 16,
                forall|j: int|
                    0 <= j < i && j < 4 ==> !#[trigger] self.probe_bad(
                        tx as int,
                        ty as int,
                        who,
                        need_city,
                        j,
                    ),
                forall|j: int|
                    4 <= j < i ==> (#[trigger] slot@[j] != 0) == self.probe_bad(
                        tx as int,
                        ty as int,
                        who,
                        need_city,
                        j,
                    ),
                forall|j: int| i <= j < 16 ==> #[trigger] slot@[j] == 0,
                blocked_count == self.ring_bad_count(tx as int, ty as int, who, need_city, i as int),
                0 <= blocked_count <= i,
            decreases 16 - i,
        {
            let px = tx + SPACE_PROBE_DX[i];
            let py = ty + SPACE_PROBE_DY[i];
            let bad = if !self.valid_t(px, py) {
                true
            } else {
                proof {
                    self.lemma_in_t(px as int, py as int);
                }
                let m = self.tmask(px, py);
                let owner = self.wdata(cell_of(px), cell_of(py)).who as i32;
                (m & tflag::CITY == 0 && need_city) || (m & tflag::BLOCKER_MASK)
                    == tflag::BLOCKER_BUILDING || (m & tflag::STARTED) != 0 || (owner >= 0
                    && owner != who) || (m & tflag::BLOCKED) != 0
            };
            assert(bad == self.probe_bad(tx as int, ty as int, who, need_city, i as int));
            if bad {
                if i < 4 {
                    return space::CORE_BLOCKED;
                }
                slot[i] = 1;
                blocked_count = blocked_count + 1;
            }
            i = i + 1;
        }
        if blocked_count == 0 {
            return space::FULLY_CLEAR;
        }
        if blocked_count < 8 {
            let mut g: usize = 0;
            while g < 4
                invariant
                    g <= 4,
                    forall|j: int|
                        4 <= j < 16 ==> (#[trigger] slot@[j] != 0) == self.probe_bad(
                            tx as int,
                            ty as int,
                            who,
                            need_city,
                            j,
                        ),
                    forall|j: int|
                        0 <= j < 4 ==> !#[trigger] self.probe_bad(
                            tx as int,
                            ty as int,
                            who,
                            need_city,
                            j,
                        ),
                    blocked_count == self.ring_bad_count(tx as int, ty as int, who, need_city, 16),
                    0 < blocked_count < 8,
                    forall|h: int|
                        0 <= h < g ==> !#[trigger] self.group_clear(
                            tx as int,
                            ty as int,
                            who,
                            need_city,
                            h,
                        ),
                decreases 4 - g,
            {
                let group = SPACE_APPROACH_GROUPS[g];
                let mut all_clear = true;
                let mut k: usize = 0;
                while k < 5
                    invariant
                        g < 4,
                        k <= 5,
                        group == SPACE_APPROACH_GROUPS@[g as int],
                        forall|j: int|
                            4 <= j < 16 ==> (#[trigger] slot@[j] != 0) == self.probe_bad(
                                tx as int,
                                ty as int,
                                who,
                                need_city,
                                j,
                            ),
                        all_clear == forall|j: int|
                            0 <= j < k ==> !#[trigger] self.probe_bad(
                                tx as int,
                                ty as int,
                                who,
                                need_city,
                                group@[j] as int,
                            ),
                    decreases 5 - k,
                {
                    let at = group[k];
                    assert(4 <= at < 16);
                    if slot[at] != 0 {
                        all_clear = false;
                    }
                    k = k + 1;
                }
                if all_clear {
                    assert forall|j: int| 0 <= j < 5 implies !#[trigger] self.probe_bad(
                        tx as int,
                        ty as int,
                        who,
                        need_city,
                        SPACE_APPROACH_GROUPS@[g as int]@[j] as int,
                    ) by {
                        assert(group@[j] == SPACE_APPROACH_GROUPS@[g as int]@[j]);
                    }
                    assert(self.group_clear(tx as int, ty as int, who, need_city, g as int));
                    return space::APPROACH_CLEAR;
                }
                g = g + 1;
            }
        }
        space::PARTIAL
    }
}

/// `new` is `old` with tile `i` replaced by `v`, and nothing else changed.
pub open spec fn tile_written(old: World, new: World, i: int, v: u16) -> bool {
    &&& new.tdata@ == old.tdata@.update(i, v)
    &&& new == (World { tdata: new.tdata, ..old })
}

/// `new` is `old` with cell `i` replaced by `w`, and nothing else changed.
pub open spec fn cell_written(old: World, new: World, i: int, w: WData) -> bool {
    &&& new.wdata@ == old.wdata@.update(i, w)
    &&& new == (World { wdata: new.wdata, ..old })
}

/// `new` is `old` with tile `ti` replaced by `v` and cell `wi` by `w`, nothing else.
pub open spec fn tile_cell_written(old: World, new: World, ti: int, v: u16, wi: int, w: WData) -> bool {
    &&& new.tdata@ == old.tdata@.update(ti, v)
    &&& new.wdata@ == old.wdata@.update(wi, w)
    &&& new == (World { tdata: new.tdata, wdata: new.wdata, ..old })
}

/// The tile mask with its surface field cleared when it holds `surface`.
pub open spec fn clear_surface_if(m: u16, surface: u16) -> u16 {
    if m & tflag::SURFACE_MASK == surface {
        m & !tflag::SURFACE_MASK
    } else {
        m
    }
}

/// `World::set_land`'s new flags word.
pub open spec fn land_flags(flags: u16, land_class: i32, clear_water: bool) -> u16 {
    if land_class >= 0 {
        let f1 = flags & !wflag::LAND_CLASS_MASK;
        let f2 = if clear_water {
            f1 & !(wflag::WATERHALF | wflag::ORIG_COAST)
        } else {
            f1
        };
        let f3 = f2 | (land_class as u16);
        if land_class as u16 == wflag::COAST {
            f3 | wflag::ORIG_COAST
        } else {
            f3
        }
    } else {
        flags
    }
}

impl World {
    /// The index of tile `i` (`0..16`) of a world cell.
    pub open spec fn cell_t_at(&self, wx: int, wy: int, i: int) -> int {
        self.t_at(wx * 4 + i % 4, wy * 4 + i / 4)
    }

    /// Some tile of a world cell has the given surface.
    pub open spec fn cell_has_surface(&self, wx: int, wy: int, surface: u16) -> bool {
        exists|i: int|
            0 <= i < 16 && #[trigger] self.cell_tm(wx, wy, i) & tflag::SURFACE_MASK == surface
    }

    /// Some tile of a world cell carries `RIVER`.
    pub open spec fn cell_has_river(&self, wx: int, wy: int) -> bool {
        exists|i: int| 0 <= i < 16 && #[trigger] self.cell_tm(wx, wy, i) & tflag::RIVER != 0
    }

    /// Tile index `k` is one of the first `n` tiles of a world cell.
    pub open spec fn in_cell_prefix(&self, wx: int, wy: int, n: int, k: int) -> bool {
        exists|i: int| 0 <= i < n && #[trigger] self.cell_t_at(wx, wy, i) == k
    }

    /// The `i`-th orthogonal gather condition of `has_gather_access`.
    pub open spec fn gather_access_spec(&self, tx: int, ty: int) -> bool {
        let m = self.tm(tx, ty);
        let harvestable = (m & tflag::SURFACE_MASK) == tflag::SURFACE_TREES || (m
            & tflag::BLOCKER_MASK) == tflag::BLOCKER_MOUNTAIN || (m & tflag::BLOCKER_MASK)
            == tflag::BLOCKER_CLIFF;
        harvestable && exists|i: int| 0 <= i < 4 && #[trigger] self.nb4_open(tx, ty, i)
    }

    /// `WorldData::check_building_wcoord` `0x006b26e0` — the W-cell gate in front of
    /// [`World::space_at_corner`]. Rejects a cell owned by another player, impassable, or
    /// with all sixteen tiles blocked; otherwise sweeps `dx in -rx..=rx`, `dy in -ry..=ry`,
    /// skipping off-axis offsets beyond `max_dist` Manhattan distance, and returns the
    /// best grade, stopping early at `FULLY_CLEAR`.
    #[verifier::rlimit(30)]
    pub fn check_building_wcoord(
        &self,
        wx: i32,
        wy: i32,
        who: i32,
        rx: i32,
        ry: i32,
        max_dist: i32,
        need_city: bool,
    ) -> (r: i32)
        requires
            self.wf(),
            self.w_ok(wx as int, wy as int),
            -0x3fff_ffff <= rx <= 0x3fff_ffff,
            -0x3fff_ffff <= ry <= 0x3fff_ffff,
            i32::MIN <= wx * 4 - abs_int(rx as int),
            wx * 4 + abs_int(rx as int) + 3 <= i32::MAX,
            i32::MIN <= wy * 4 - abs_int(ry as int),
            wy * 4 + abs_int(ry as int) + 3 <= i32::MAX,
        ensures
            r == if self.building_gate_rejects(wx as int, wy as int, who) {
                space::CORE_BLOCKED
            } else {
                self.row_best(
                    wx as int,
                    wy as int,
                    who,
                    need_city,
                    max_dist as int,
                    rx as int,
                    ry as int,
                    rx + 1,
                )
            },
    {
        let w = self.wdata(wx, wy);
        let owner = w.who as i32;
        if (owner >= 0 && owner != who) || w.flags & wflag::IMPASSABLE_MASK != 0 || w.blocked
            == 16 {
            return space::CORE_BLOCKED;
        }
        let ghost gx = wx as int;
        let ghost gy = wy as int;
        let ghost md = max_dist as int;
        let mut best = space::CORE_BLOCKED;
        let mut dx = -rx;
        while dx <= rx
            invariant
                self.wf(),
                -0x3fff_ffff <= rx <= 0x3fff_ffff,
                -0x3fff_ffff <= ry <= 0x3fff_ffff,
                i32::MIN <= wx * 4 - abs_int(rx as int),
                wx * 4 + abs_int(rx as int) + 3 <= i32::MAX,
                i32::MIN <= wy * 4 - abs_int(ry as int),
                wy * 4 + abs_int(ry as int) + 3 <= i32::MAX,
                -rx <= dx,
                dx <= rx + 1 || dx == -rx,
                md == max_dist as int,
                gx == wx as int,
                gy == wy as int,
                !self.building_gate_rejects(gx, gy, who),
                best == self.row_best(gx, gy, who, need_city, md, rx as int, ry as int, dx as int),
            decreases rx + 1 - dx,
        {
            let mut dy = -ry;
            proof {
                self.lemma_row_best(gx, gy, who, need_city, md, rx as int, ry as int, dx as int, dx as int);
            }
            while dy <= ry
                invariant
                    self.wf(),
                    -0x3fff_ffff <= rx <= 0x3fff_ffff,
                    -0x3fff_ffff <= ry <= 0x3fff_ffff,
                    i32::MIN <= wx * 4 - abs_int(rx as int),
                    wx * 4 + abs_int(rx as int) + 3 <= i32::MAX,
                    i32::MIN <= wy * 4 - abs_int(ry as int),
                    wy * 4 + abs_int(ry as int) + 3 <= i32::MAX,
                    -rx <= dx <= rx,
                    -ry <= dy,
                    md == max_dist as int,
                    gx == wx as int,
                    gy == wy as int,
                    !self.building_gate_rejects(gx, gy, who),
                    dy <= ry + 1 || dy == -ry,
                    best == max_grade(
                        self.row_best(gx, gy, who, need_city, md, rx as int, ry as int, dx as int),
                        self.col_best(gx, gy, who, need_city, md, dx as int, ry as int, dy as int),
                    ),
                decreases ry + 1 - dy,
            {
                let adx = if dx < 0 {
                    -dx
                } else {
                    dx
                };
                let ady = if dy < 0 {
                    -dy
                } else {
                    dy
                };
                proof {
                    let c0 = self.col_best(gx, gy, who, need_city, md, dx as int, ry as int, dy as int);
                    let g = self.space_grade(gx * 4 + dx, gy * 4 + dy, who, need_city);
                    assert(self.col_best(gx, gy, who, need_city, md, dx as int, ry as int, dy + 1)
                        == if Self::sweep_eligible(dx as int, dy as int, md) {
                        max_grade(c0, g)
                    } else {
                        c0
                    });
                    assert(Self::sweep_eligible(dx as int, dy as int, md) == (dx == 0 || dy == 0
                        || adx + ady <= max_dist));
                }
                if dx == 0 || dy == 0 || adx + ady <= max_dist {
                    let r = self.space_at_corner(wx * 4 + dx, wy * 4 + dy, who, need_city);
                    if r > best {
                        best = r;
                    }
                    if best == space::FULLY_CLEAR {
                        proof {
                            self.lemma_col_best(gx, gy, who, need_city, md, dx as int, ry as int, dy + 1, ry + 1);
                            self.lemma_row_best(gx, gy, who, need_city, md, rx as int, ry as int, dx + 1, rx + 1);
                            assert(self.row_best(gx, gy, who, need_city, md, rx as int, ry as int, dx + 1)
                                == max_grade(
                                self.row_best(gx, gy, who, need_city, md, rx as int, ry as int, dx as int),
                                self.col_best(gx, gy, who, need_city, md, dx as int, ry as int, ry + 1),
                            ));
                        }
                        return best;
                    }
                }
                dy = dy + 1;
            }
            proof {
                if ry < 0 {
                    assert(self.col_best(gx, gy, who, need_city, md, dx as int, ry as int, dy as int) == 0);
                    assert(self.col_best(gx, gy, who, need_city, md, dx as int, ry as int, ry + 1) == 0);
                }
            }
            dx = dx + 1;
        }
        proof {
            if rx < 0 {
                assert(self.row_best(gx, gy, who, need_city, md, rx as int, ry as int, dx as int) == 0);
                assert(self.row_best(gx, gy, who, need_city, md, rx as int, ry as int, rx + 1) == 0);
            }
        }
        best
    }

    /// `WorldData::has_gather_access` `0x006b4e50`, `mode != 0` arm — the tile is trees, a
    /// mountain or a cliff, and one of its four orthogonal neighbours is on the map, dry
    /// and unblocked.
    pub fn has_gather_access(&self, tx: i32, ty: i32) -> (r: bool)
        requires
            self.wf(),
            self.t_ok(tx as int, ty as int),
            i32::MIN < tx < i32::MAX,
            i32::MIN < ty < i32::MAX,
        ensures
            r == self.gather_access_spec(tx as int, ty as int),
    {
        let m = self.tmask(tx, ty);
        let harvestable = (m & tflag::SURFACE_MASK) == tflag::SURFACE_TREES || (m
            & tflag::BLOCKER_MASK) == tflag::BLOCKER_MOUNTAIN || (m & tflag::BLOCKER_MASK)
            == tflag::BLOCKER_CLIFF;
        if !harvestable {
            return false;
        }
        let mut i: usize = 0;
        while i < 4
            invariant
                self.wf(),
                i32::MIN < tx < i32::MAX,
                i32::MIN < ty < i32::MAX,
                i <= 4,
                self.t_ok(tx as int, ty as int),
                m == self.tm(tx as int, ty as int),
                harvestable == ((m & tflag::SURFACE_MASK) == tflag::SURFACE_TREES || (m
                    & tflag::BLOCKER_MASK) == tflag::BLOCKER_MOUNTAIN || (m & tflag::BLOCKER_MASK)
                    == tflag::BLOCKER_CLIFF),
                harvestable,
                forall|j: int| 0 <= j < i ==> !#[trigger] self.nb4_open(tx as int, ty as int, j),
            decreases 4 - i,
        {
            let nx = tx + NEIGHBOUR4_DX[i];
            let ny = ty + NEIGHBOUR4_DY[i];
            if self.valid_t(nx, ny) {
                proof {
                    self.lemma_in_t(nx as int, ny as int);
                }
                let nm = self.tmask(nx, ny);
                if (nm & tflag::SURFACE_MASK) != tflag::SURFACE_WATER && (nm & tflag::BLOCKED)
                    == 0 {
                    assert(self.nb4_open(tx as int, ty as int, i as int));
                    return true;
                }
            }
            i = i + 1;
        }
        false
    }

    // -- fog -------------------------------------------------------------------------------

    /// `World::get_seen` `0x006b4290` — the raw per-player bitmask byte.
    pub fn get_seen(&self, fx: i32, fy: i32) -> (r: u8)
        requires
            self.f_ok(fx as int, fy as int, self.seen@.len() as int),
        ensures
            r == self.seen@[self.f_at(fx as int, fy as int)],
    {
        self.seen[(fy * self.fog_xs + fx) as usize]
    }

    /// `World::get_was_seen` `0x006b1ba0`.
    pub fn get_was_seen(&self, fx: i32, fy: i32) -> (r: u8)
        requires
            self.f_ok(fx as int, fy as int, self.seen2@.len() as int),
        ensures
            r == self.seen2@[self.f_at(fx as int, fy as int)],
    {
        self.seen2[(fy * self.fog_xs + fx) as usize]
    }

    /// `WorldData::is_really_seen` `0x006b42c0`, the plane-and-mask core.
    pub fn is_really_seen(&self, fx: i32, fy: i32, player_mask: u8) -> (r: bool)
        requires
            self.f_ok(fx as int, fy as int, self.seen@.len() as int),
        ensures
            r == (self.seen@[self.f_at(fx as int, fy as int)] & player_mask != 0),
    {
        self.get_seen(fx, fy) & player_mask != 0
    }

    /// `WorldData::was_seen` `0x006b53f0`, plane-and-mask core.
    pub fn was_seen(&self, fx: i32, fy: i32, player_mask: u8) -> (r: bool)
        requires
            self.f_ok(fx as int, fy as int, self.seen2@.len() as int),
        ensures
            r == (self.seen2@[self.f_at(fx as int, fy as int)] & player_mask != 0),
    {
        self.get_was_seen(fx, fy) & player_mask != 0
    }

    /// `WorldData::is_detected` `0x006b48c0`.
    pub fn is_detected(&self, fx: i32, fy: i32, player_mask: u8) -> (r: bool)
        requires
            self.f_ok(fx as int, fy as int, self.seen3@.len() as int),
        ensures
            r == (self.seen3@[self.f_at(fx as int, fy as int)] & player_mask != 0),
    {
        self.seen3[(fy * self.fog_xs + fx) as usize] & player_mask != 0
    }

    /// `WorldData::is_seen_wcoord` `0x006b2540`, plane-and-mask core (W resolution).
    pub fn is_seen_wcoord(&self, wx: i32, wy: i32, player_mask: u8) -> (r: bool)
        requires
            i32::MIN <= wy * self.xs <= i32::MAX,
            0 <= self.w_at(wx as int, wy as int) < self.wcoord_seen@.len(),
            self.w_at(wx as int, wy as int) <= i32::MAX,
        ensures
            r == (self.wcoord_seen@[self.w_at(wx as int, wy as int)] & player_mask != 0),
    {
        self.wcoord_seen[(wy * self.xs + wx) as usize] & player_mask != 0
    }

    /// `World::clear_seen` `0x006b2250` — two memsets: `wcoord_seen` (`size` bytes) and
    /// `seen` (`fog_size` bytes). The explored and detected planes are left alone.
    pub fn clear_seen(&mut self)
        ensures
            final(self).seen@.len() == old(self).seen@.len() && all_zero_u8(final(self).seen@),
            final(self).wcoord_seen@.len() == old(self).wcoord_seen@.len() && all_zero_u8(
                final(self).wcoord_seen@,
            ),
            *final(self) == (World {
                seen: final(self).seen,
                wcoord_seen: final(self).wcoord_seen,
                ..*old(self)
            }),
    {
        zero_u8s(&mut self.wcoord_seen);
        zero_u8s(&mut self.seen);
    }

    /// `World::clear_danger` `0x006b22e0`.
    pub fn clear_danger(&mut self, who: usize)
        requires
            who < 8,
        ensures
            final(self).danger@[who as int]@.len() == old(self).danger@[who as int]@.len(),
            all_zero_i32(final(self).danger@[who as int]@),
            forall|p: int| 0 <= p < 8 && p != who ==> #[trigger] final(self).danger@[p] == old(self).danger@[p],
            *final(self) == (World { danger: final(self).danger, ..*old(self) }),
    {
        zero_i32s(&mut self.danger[who]);
    }

    /// `World::wipe` `0x006b2c00` — reset to the post-generation blank state. The start
    /// arrays empty, the bitmask and the tile, fog and danger planes zero, each cell takes
    /// the wiped record but keeps its collision block, and the resource totals reset.
    pub fn wipe(&mut self)
        ensures
            final(self).start_x.items@.len() == 0,
            final(self).start_y.items@.len() == 0,
            final(self).start_city_x.items@.len() == 0,
            final(self).start_city_y.items@.len() == 0,
            final(self).start_city_locs@.len() == old(self).start_city_locs@.len(),
            all_zero_u8(final(self).start_city_locs@),
            final(self).wdata@.len() == old(self).wdata@.len(),
            forall|i: int|
                0 <= i < final(self).wdata@.len() ==> #[trigger] final(self).wdata@[i] == (WData {
                    block: old(self).wdata@[i].block,
                    ..wiped_wdata()
                }),
            final(self).tdata@.len() == old(self).tdata@.len() && all_zero_u16(final(self).tdata@),
            final(self).seen@.len() == old(self).seen@.len() && all_zero_u8(final(self).seen@),
            final(self).seen2@.len() == old(self).seen2@.len() && all_zero_u8(final(self).seen2@),
            final(self).seen3@.len() == old(self).seen3@.len() && all_zero_u8(final(self).seen3@),
            forall|p: int|
                0 <= p < 8 ==> (#[trigger] final(self).danger@[p])@.len() == old(self).danger@[p]@.len()
                    && all_zero_i32(final(self).danger@[p]@),
            *final(self) == (World {
                start_x: WalkedArray { items: final(self).start_x.items, ..old(self).start_x },
                start_y: WalkedArray { items: final(self).start_y.items, ..old(self).start_y },
                start_city_x: WalkedArray {
                    items: final(self).start_city_x.items,
                    ..old(self).start_city_x
                },
                start_city_y: WalkedArray {
                    items: final(self).start_city_y.items,
                    ..old(self).start_city_y
                },
                start_city_locs: final(self).start_city_locs,
                sea_map: -1i32,
                land_size: 0,
                player_reg: 0,
                resource_reg: 0,
                forest_size: 0,
                mountain_size: 0,
                rock_size: 0,
                total_metal: 0,
                total_oil: 0,
                goodies: 0,
                land_resources: 0,
                sea_resources: 0,
                wdata: final(self).wdata,
                tdata: final(self).tdata,
                seen: final(self).seen,
                seen2: final(self).seen2,
                seen3: final(self).seen3,
                danger: final(self).danger,
                ..*old(self)
            }),
    {
        self.start_x.items.clear();
        self.start_y.items.clear();
        self.start_city_x.items.clear();
        self.start_city_y.items.clear();
        zero_u8s(&mut self.start_city_locs);
        self.sea_map = -1;
        self.land_size = 0;
        self.player_reg = 0;
        self.resource_reg = 0;
        self.forest_size = 0;
        self.mountain_size = 0;
        self.rock_size = 0;
        self.total_metal = 0;
        self.total_oil = 0;
        self.goodies = 0;
        self.land_resources = 0;
        self.sea_resources = 0;
        wipe_cells(&mut self.wdata);
        zero_u16s(&mut self.tdata);
        zero_u8s(&mut self.seen);
        zero_u8s(&mut self.seen2);
        zero_u8s(&mut self.seen3);
        let mut p: usize = 0;
        while p < 8
            invariant
                p <= 8,
                forall|q: int|
                    0 <= q < 8 ==> (#[trigger] self.danger@[q])@.len() == old(self).danger@[q]@.len(),
                forall|q: int| 0 <= q < p ==> all_zero_i32((#[trigger] self.danger@[q])@),
                self.start_x.items@.len() == 0,
                self.start_y.items@.len() == 0,
                self.start_city_x.items@.len() == 0,
                self.start_city_y.items@.len() == 0,
                self.start_city_locs@.len() == old(self).start_city_locs@.len(),
                all_zero_u8(self.start_city_locs@),
                self.wdata@.len() == old(self).wdata@.len(),
                forall|i: int|
                    0 <= i < self.wdata@.len() ==> #[trigger] self.wdata@[i] == (WData {
                        block: old(self).wdata@[i].block,
                        ..wiped_wdata()
                    }),
                self.tdata@.len() == old(self).tdata@.len() && all_zero_u16(self.tdata@),
                self.seen@.len() == old(self).seen@.len() && all_zero_u8(self.seen@),
                self.seen2@.len() == old(self).seen2@.len() && all_zero_u8(self.seen2@),
                self.seen3@.len() == old(self).seen3@.len() && all_zero_u8(self.seen3@),
                *self == (World {
                    start_x: WalkedArray { items: self.start_x.items, ..old(self).start_x },
                    start_y: WalkedArray { items: self.start_y.items, ..old(self).start_y },
                    start_city_x: WalkedArray {
                        items: self.start_city_x.items,
                        ..old(self).start_city_x
                    },
                    start_city_y: WalkedArray {
                        items: self.start_city_y.items,
                        ..old(self).start_city_y
                    },
                    start_city_locs: self.start_city_locs,
                    sea_map: -1i32,
                    land_size: 0,
                    player_reg: 0,
                    resource_reg: 0,
                    forest_size: 0,
                    mountain_size: 0,
                    rock_size: 0,
                    total_metal: 0,
                    total_oil: 0,
                    goodies: 0,
                    land_resources: 0,
                    sea_resources: 0,
                    wdata: self.wdata,
                    tdata: self.tdata,
                    seen: self.seen,
                    seen2: self.seen2,
                    seen3: self.seen3,
                    danger: self.danger,
                    ..*old(self)
                }),
            decreases 8 - p,
        {
            zero_i32s(&mut self.danger[p]);
            p = p + 1;
        }
    }

    /// `Map::make` `0x0068bc90` entry: a negative seed keeps whatever is there; a
    /// non-negative one becomes `World::seed` and the main LCG's state word, which is
    /// returned.
    pub fn seed_map_generation(&mut self, seed: i32) -> (r: Option<i32>)
        ensures
            seed < 0 ==> r is None && *final(self) == *old(self),
            seed >= 0 ==> r == Some(seed) && *final(self) == (World { seed, ..*old(self) }),
    {
        if seed < 0 {
            return None;
        }
        self.seed = seed;
        Some(seed)
    }

    // -- terrain mutators --------------------------------------------------------------------

    /// Set or clear one bit of a tile mask.
    fn set_tbit(&mut self, tx: i32, ty: i32, bit: u16, on: bool)
        requires
            old(self).t_ok(tx as int, ty as int),
        ensures
            tile_written(
                *old(self),
                *final(self),
                old(self).t_at(tx as int, ty as int),
                if on {
                    old(self).tm(tx as int, ty as int) | bit
                } else {
                    old(self).tm(tx as int, ty as int) & !bit
                },
            ),
    {
        let ti = (ty * self.tile_xs + tx) as usize;
        let m = self.tdata[ti];
        if on {
            self.tdata[ti] = m | bit;
        } else {
            self.tdata[ti] = m & !bit;
        }
    }

    /// `World::set_bad_path` `0x006b4610`: the tile's `BAD_PATH` bit follows `on`, and
    /// the owning cell's `bad` count moves by one when the bit flips.
    pub fn set_bad_path(&mut self, tx: i32, ty: i32, on: bool)
        requires
            old(self).t_ok(tx as int, ty as int),
            old(self).w_ok(tx as int / 4, ty as int / 4),
        ensures
            ({
                let o = *old(self);
                let m = o.tm(tx as int, ty as int);
                let had = m & tflag::BAD_PATH != 0;
                let w = o.wd(tx as int / 4, ty as int / 4);
                tile_cell_written(
                    o,
                    *final(self),
                    o.t_at(tx as int, ty as int),
                    if on {
                        m | tflag::BAD_PATH
                    } else {
                        m & !tflag::BAD_PATH
                    },
                    o.w_at(tx as int / 4, ty as int / 4),
                    WData {
                        bad: if on && !had {
                            w.bad.wrapping_add(1)
                        } else if !on && had {
                            w.bad.wrapping_sub(1)
                        } else {
                            w.bad
                        },
                        ..w
                    },
                )
            }),
            old(self).wf() && old(self).in_t(tx as int, ty as int) && old(self).counters_track()
                ==> final(self).wf() && final(self).counters_track(),
    {
        let ti = (ty * self.tile_xs + tx) as usize;
        let wx = cell_of(tx);
        let wy = cell_of(ty);
        let wi = (wy * self.xs + wx) as usize;
        let m = self.tdata[ti];
        let had = m & tflag::BAD_PATH != 0;
        if on {
            if !had {
                self.wdata[wi].bad = self.wdata[wi].bad.wrapping_add(1);
            }
            self.tdata[ti] = m | tflag::BAD_PATH;
        } else {
            if had {
                self.wdata[wi].bad = self.wdata[wi].bad.wrapping_sub(1);
            }
            self.tdata[ti] = m & !tflag::BAD_PATH;
        }
        assert(self.wdata@ =~= old(self).wdata@.update(wi as int, self.wdata@[wi as int]));
        proof {
            if old(self).wf() && old(self).in_t(tx as int, ty as int) && old(self).counters_track() {
                lemma_u8_wrap(old(self).wdata@[wi as int].bad);
                lemma_u8_wrap(old(self).wdata@[wi as int].blocked);
                lemma_tile_bits(m);
                lemma_counters_after_write(
                    *old(self),
                    *self,
                    tx as int,
                    ty as int,
                    self.tdata@[ti as int],
                    self.wdata@[wi as int],
                );
            }
        }
    }

    /// `World::set_building_at` `0x006b45c0`: set the blocker field to `BUILDING`, or clear
    /// it only when it holds `BUILDING`.
    pub fn set_building_at(&mut self, tx: i32, ty: i32, on: bool)
        requires
            old(self).t_ok(tx as int, ty as int),
        ensures
            tile_written(
                *old(self),
                *final(self),
                old(self).t_at(tx as int, ty as int),
                ({
                    let m = old(self).tm(tx as int, ty as int);
                    if on {
                        m | tflag::BLOCKER_BUILDING
                    } else if m & tflag::BLOCKER_MASK == tflag::BLOCKER_BUILDING {
                        m & !tflag::BLOCKER_MASK
                    } else {
                        m
                    }
                }),
            ),
    {
        let ti = (ty * self.tile_xs + tx) as usize;
        let m = self.tdata[ti];
        if on {
            self.tdata[ti] = m | tflag::BLOCKER_BUILDING;
        } else if m & tflag::BLOCKER_MASK == tflag::BLOCKER_BUILDING {
            self.tdata[ti] = m & !tflag::BLOCKER_MASK;
        } else {
            assert(self.tdata@ =~= old(self).tdata@.update(ti as int, m));
        }
    }

    /// `World::set_road_at` `0x006b43b0`. Setting writes the road surface and `HAS_ROAD`
    /// on the owning cell; clearing removes a road surface and drops `HAS_ROAD` when no
    /// tile of the cell still has one. `road_type` and `quiet` only feed presentation
    /// callbacks.
    pub fn set_road_at(&mut self, tx: i32, ty: i32, on: bool, road_type: i32, quiet: bool)
        requires
            old(self).t_ok(tx as int, ty as int),
            old(self).w_ok(tx as int / 4, ty as int / 4),
            !on ==> old(self).cell_tiles_ok(tx as int / 4, ty as int / 4),
        ensures
            ({
                let o = *old(self);
                let m = o.tm(tx as int, ty as int);
                let w = o.wd(tx as int / 4, ty as int / 4);
                let nm = if on {
                    (m & !tflag::SURFACE_WATER) | tflag::SURFACE_ROAD
                } else {
                    clear_surface_if(m, tflag::SURFACE_ROAD)
                };
                let nf = if on {
                    w.flags | wflag::HAS_ROAD
                } else if final(self).cell_has_surface(tx as int / 4, ty as int / 4, tflag::SURFACE_ROAD) {
                    w.flags
                } else {
                    w.flags & !wflag::HAS_ROAD
                };
                tile_cell_written(
                    o,
                    *final(self),
                    o.t_at(tx as int, ty as int),
                    nm,
                    o.w_at(tx as int / 4, ty as int / 4),
                    WData { flags: nf, ..w },
                )
            }),
    {
        let ti = (ty * self.tile_xs + tx) as usize;
        let wx = cell_of(tx);
        let wy = cell_of(ty);
        let wi = (wy * self.xs + wx) as usize;
        let m = self.tdata[ti];
        if on {
            self.tdata[ti] = (m & !tflag::SURFACE_WATER) | tflag::SURFACE_ROAD;
            self.wdata[wi].flags = self.wdata[wi].flags | wflag::HAS_ROAD;
        } else {
            if m & tflag::SURFACE_MASK == tflag::SURFACE_ROAD {
                self.tdata[ti] = m & !tflag::SURFACE_MASK;
            } else {
                assert(self.tdata@ =~= old(self).tdata@.update(ti as int, m));
            }
            proof {
                lemma_cell_tiles_frame(*old(self), *self, wx as int, wy as int);
            }
            let any = self.cell_surface_scan(wx, wy, tflag::SURFACE_ROAD);
            let ghost scanned = *self;
            if !any {
                self.wdata[wi].flags = self.wdata[wi].flags & !wflag::HAS_ROAD;
            }
            proof {
                lemma_cell_scan_frame(scanned, *self, wx as int, wy as int);
            }
        }
        assert(self.wdata@ =~= old(self).wdata@.update(wi as int, self.wdata@[wi as int]));
    }

    /// Whether some tile of a world cell has the given surface.
    fn cell_surface_scan(&self, wx: i32, wy: i32, surface: u16) -> (r: bool)
        requires
            self.cell_tiles_ok(wx as int, wy as int),
        ensures
            r == self.cell_has_surface(wx as int, wy as int, surface),
    {
        let mut i: i32 = 0;
        while i < 16
            invariant
                0 <= i <= 16,
                self.cell_tiles_ok(wx as int, wy as int),
                forall|j: int|
                    0 <= j < i ==> #[trigger] self.cell_tm(wx as int, wy as int, j)
                        & tflag::SURFACE_MASK != surface,
            decreases 16 - i,
        {
            proof {
                lemma_cell_offset_bits(i);
                assert(self.cell_t_ok(wx as int, wy as int, i as int));
            }
            let cx = wx * TILES_PER_WCELL + (i & 3);
            let cy = wy * TILES_PER_WCELL + (i >> 2u32);
            if self.tmask(cx, cy) & tflag::SURFACE_MASK == surface {
                assert(self.cell_tm(wx as int, wy as int, i as int) & tflag::SURFACE_MASK == surface);
                return true;
            }
            i = i + 1;
        }
        false
    }

    /// `World::set_tree_at` `0x006b2060`. The `solid` counter moves the opposite way to
    /// `set_blocked_at`'s.
    pub fn set_tree_at(&mut self, tx: i32, ty: i32, on: bool)
        requires
            old(self).t_ok(tx as int, ty as int),
            old(self).w_ok(tx as int / 4, ty as int / 4),
        ensures
            ({
                let o = *old(self);
                let m = o.tm(tx as int, ty as int);
                let was_trees = m & tflag::SURFACE_MASK == tflag::SURFACE_TREES;
                let w = o.wd(tx as int / 4, ty as int / 4);
                tile_cell_written(
                    o,
                    *final(self),
                    o.t_at(tx as int, ty as int),
                    if on {
                        m | tflag::SURFACE_TREES | tflag::BEHIND_B
                    } else if was_trees {
                        m & !tflag::SURFACE_MASK & !tflag::BEHIND_B
                    } else {
                        m & !tflag::BEHIND_B
                    },
                    o.w_at(tx as int / 4, ty as int / 4),
                    WData {
                        solid: if on && !was_trees {
                            w.solid.wrapping_sub(1)
                        } else if !on && was_trees {
                            w.solid.wrapping_add(1)
                        } else {
                            w.solid
                        },
                        ..w
                    },
                )
            }),
    {
        let ti = (ty * self.tile_xs + tx) as usize;
        let wx = cell_of(tx);
        let wy = cell_of(ty);
        let wi = (wy * self.xs + wx) as usize;
        let m = self.tdata[ti];
        let was_trees = m & tflag::SURFACE_MASK == tflag::SURFACE_TREES;
        if on {
            if !was_trees {
                self.wdata[wi].solid = self.wdata[wi].solid.wrapping_sub(1);
            }
            self.tdata[ti] = m | tflag::SURFACE_TREES | tflag::BEHIND_B;
        } else {
            let mut v = m;
            if was_trees {
                v = v & !tflag::SURFACE_MASK;
                self.wdata[wi].solid = self.wdata[wi].solid.wrapping_add(1);
            }
            self.tdata[ti] = v & !tflag::BEHIND_B;
        }
        assert(self.wdata@ =~= old(self).wdata@.update(wi as int, self.wdata@[wi as int]));
    }

    /// `World::set_tocean` `0x006b1c60`.
    pub fn set_tocean(&mut self, tx: i32, ty: i32)
        requires
            old(self).t_ok(tx as int, ty as int),
        ensures
            tile_written(
                *old(self),
                *final(self),
                old(self).t_at(tx as int, ty as int),
                (old(self).tm(tx as int, ty as int) & !0x10u16) | tflag::SURFACE_WATER,
            ),
    {
        let ti = (ty * self.tile_xs + tx) as usize;
        let m = self.tdata[ti];
        self.tdata[ti] = (m & !0x10u16) | tflag::SURFACE_WATER;
    }

    /// `World::set_waterhalf` `0x006b1c90`: setting writes the water surface and
    /// `WATERHALF` on the owning cell; clearing removes a water surface only.
    pub fn set_waterhalf(&mut self, tx: i32, ty: i32, on: bool)
        requires
            old(self).t_ok(tx as int, ty as int),
            on ==> old(self).w_ok(tx as int / 4, ty as int / 4),
        ensures
            ({
                let o = *old(self);
                let m = o.tm(tx as int, ty as int);
                if on {
                    let w = o.wd(tx as int / 4, ty as int / 4);
                    tile_cell_written(
                        o,
                        *final(self),
                        o.t_at(tx as int, ty as int),
                        (m & !0x10u16) | tflag::SURFACE_WATER,
                        o.w_at(tx as int / 4, ty as int / 4),
                        WData { flags: w.flags | wflag::WATERHALF, ..w },
                    )
                } else {
                    tile_written(
                        o,
                        *final(self),
                        o.t_at(tx as int, ty as int),
                        clear_surface_if(m, tflag::SURFACE_WATER),
                    )
                }
            }),
    {
        let ti = (ty * self.tile_xs + tx) as usize;
        let m = self.tdata[ti];
        if on {
            self.tdata[ti] = (m & !0x10u16) | tflag::SURFACE_WATER;
            let wi = (cell_of(ty) * self.xs + cell_of(tx)) as usize;
            self.wdata[wi].flags = self.wdata[wi].flags | wflag::WATERHALF;
            assert(self.wdata@ =~= old(self).wdata@.update(wi as int, self.wdata@[wi as int]));
        } else if m & tflag::SURFACE_MASK == tflag::SURFACE_WATER {
            self.tdata[ti] = m & !tflag::SURFACE_MASK;
        } else {
            assert(self.tdata@ =~= old(self).tdata@.update(ti as int, m));
        }
    }

    /// `World::clear_waterhalf` `0x006b1bd0` — W-indexed: unless `keep`, clears the water
    /// surface from each of the cell's sixteen tiles; always clears `WATERHALF`.
    pub fn clear_waterhalf(&mut self, wx: i32, wy: i32, keep: bool)
        requires
            old(self).w_ok(wx as int, wy as int),
            !keep ==> old(self).cell_tiles_ok(wx as int, wy as int),
        ensures
            final(self).tdata@.len() == old(self).tdata@.len(),
            forall|k: int|
                0 <= k < old(self).tdata@.len() ==> #[trigger] final(self).tdata@[k] == if !keep
                    && old(self).in_cell_prefix(wx as int, wy as int, 16, k) {
                    clear_surface_if(old(self).tdata@[k], tflag::SURFACE_WATER)
                } else {
                    old(self).tdata@[k]
                },
            final(self).wdata@ == old(self).wdata@.update(
                old(self).w_at(wx as int, wy as int),
                WData {
                    flags: old(self).wd(wx as int, wy as int).flags & !wflag::WATERHALF,
                    ..old(self).wd(wx as int, wy as int)
                },
            ),
            *final(self) == (World { tdata: final(self).tdata, wdata: final(self).wdata, ..*old(self) }),
    {
        if !keep {
            let mut i: i32 = 0;
            while i < 16
                invariant
                    0 <= i <= 16,
                    old(self).cell_tiles_ok(wx as int, wy as int),
                    self.tdata@.len() == old(self).tdata@.len(),
                    self.tile_xs == old(self).tile_xs,
                    forall|k: int|
                        0 <= k < old(self).tdata@.len() ==> #[trigger] self.tdata@[k] == if old(
                            self,
                        ).in_cell_prefix(wx as int, wy as int, i as int, k) {
                            clear_surface_if(old(self).tdata@[k], tflag::SURFACE_WATER)
                        } else {
                            old(self).tdata@[k]
                        },
                    *self == (World { tdata: self.tdata, ..*old(self) }),
                decreases 16 - i,
            {
                proof {
                    lemma_cell_offset_bits(i);
                    assert(old(self).cell_t_ok(wx as int, wy as int, i as int));
                }
                let tx = wx * 4 + (i & 3);
                let ty = wy * 4 + (i >> 2u32);
                let ti = (ty * self.tile_xs + tx) as usize;
                let m = self.tdata[ti];
                let ghost cur = self.tdata@;
                if m & tflag::SURFACE_MASK == tflag::SURFACE_WATER {
                    self.tdata[ti] = m & !tflag::SURFACE_MASK;
                }
                proof {
                    let ci = old(self).cell_t_at(wx as int, wy as int, i as int);
                    assert(ci == ti as int);
                    lemma_clear_surface_idem(old(self).tdata@[ci], tflag::SURFACE_WATER);
                    assert(old(self).in_cell_prefix(wx as int, wy as int, i + 1, ci));
                    assert(self.tdata@[ci] == clear_surface_if(old(self).tdata@[ci], tflag::SURFACE_WATER));
                    assert forall|k: int| 0 <= k < old(self).tdata@.len() && k != ci implies (#[trigger] self.tdata@[k]
                        == cur[k] && (old(self).in_cell_prefix(wx as int, wy as int, i + 1, k)
                        == old(self).in_cell_prefix(wx as int, wy as int, i as int, k))) by {
                        if old(self).in_cell_prefix(wx as int, wy as int, i + 1, k) {
                            let j = choose|j: int| 0 <= j < i + 1 && #[trigger] old(self).cell_t_at(wx as int, wy as int, j) == k;
                            assert(j != i);
                        }
                        if old(self).in_cell_prefix(wx as int, wy as int, i as int, k) {
                            let j = choose|j: int| 0 <= j < i && #[trigger] old(self).cell_t_at(wx as int, wy as int, j) == k;
                            assert(0 <= j < i + 1);
                        }
                    }
                }
                i = i + 1;
            }
        } else {
            assert forall|k: int| 0 <= k < old(self).tdata@.len() implies #[trigger] self.tdata@[k] == if !keep
                && old(self).in_cell_prefix(wx as int, wy as int, 16, k) {
                clear_surface_if(old(self).tdata@[k], tflag::SURFACE_WATER)
            } else {
                old(self).tdata@[k]
            } by {}
        }
        let wi = (wy * self.xs + wx) as usize;
        self.wdata[wi].flags = self.wdata[wi].flags & !wflag::WATERHALF;
        assert(self.wdata@ =~= old(self).wdata@.update(wi as int, self.wdata@[wi as int]));
    }

    /// `World::set_river_at` `0x006b1f80` — the tile's `RIVER` bit follows `on`;
    /// `HAS_RIVER` on the owning cell is set with it, and cleared when no tile of the cell
    /// still carries `RIVER`.
    pub fn set_river_at(&mut self, tx: i32, ty: i32, on: bool)
        requires
            old(self).t_ok(tx as int, ty as int),
            old(self).w_ok(tx as int / 4, ty as int / 4),
            !on ==> old(self).cell_tiles_ok(tx as int / 4, ty as int / 4),
        ensures
            ({
                let o = *old(self);
                let m = o.tm(tx as int, ty as int);
                let w = o.wd(tx as int / 4, ty as int / 4);
                let nf = if on {
                    w.flags | wflag::HAS_RIVER
                } else if final(self).cell_has_river(tx as int / 4, ty as int / 4) {
                    w.flags
                } else {
                    w.flags & !wflag::HAS_RIVER
                };
                tile_cell_written(
                    o,
                    *final(self),
                    o.t_at(tx as int, ty as int),
                    if on {
                        m | tflag::RIVER
                    } else {
                        m & !tflag::RIVER
                    },
                    o.w_at(tx as int / 4, ty as int / 4),
                    WData { flags: nf, ..w },
                )
            }),
    {
        let ti = (ty * self.tile_xs + tx) as usize;
        let wx = cell_of(tx);
        let wy = cell_of(ty);
        let wi = (wy * self.xs + wx) as usize;
        let m = self.tdata[ti];
        if on {
            self.tdata[ti] = m | tflag::RIVER;
            self.wdata[wi].flags = self.wdata[wi].flags | wflag::HAS_RIVER;
        } else {
            self.tdata[ti] = m & !tflag::RIVER;
            proof {
                lemma_cell_tiles_frame(*old(self), *self, wx as int, wy as int);
            }
            let mut any = false;
            let mut i: i32 = 0;
            while i < 16 && !any
                invariant
                    0 <= i <= 16,
                    self.cell_tiles_ok(wx as int, wy as int),
                    any ==> self.cell_has_river(wx as int, wy as int),
                    !any ==> forall|j: int|
                        0 <= j < i ==> #[trigger] self.cell_tm(wx as int, wy as int, j) & tflag::RIVER
                            == 0,
                decreases 16 - i,
            {
                proof {
                    lemma_cell_offset_bits(i);
                    assert(self.cell_t_ok(wx as int, wy as int, i as int));
                }
                let cx = wx * 4 + (i & 3);
                let cy = wy * 4 + (i >> 2u32);
                if self.tmask(cx, cy) & tflag::RIVER != 0 {
                    assert(self.cell_tm(wx as int, wy as int, i as int) & tflag::RIVER != 0);
                    any = true;
                }
                i = i + 1;
            }
            let ghost scanned = *self;
            if !any {
                self.wdata[wi].flags = self.wdata[wi].flags & !wflag::HAS_RIVER;
            }
            proof {
                lemma_cell_scan_frame(scanned, *self, wx as int, wy as int);
            }
        }
        assert(self.wdata@ =~= old(self).wdata@.update(wi as int, self.wdata@[wi as int]));
    }

    /// `World::set_coastal` `0x006b1d10`.
    pub fn set_coastal(&mut self, tx: i32, ty: i32, on: bool)
        requires
            old(self).t_ok(tx as int, ty as int),
        ensures
            tile_written(
                *old(self),
                *final(self),
                old(self).t_at(tx as int, ty as int),
                if on {
                    old(self).tm(tx as int, ty as int) | tflag::COASTAL
                } else {
                    old(self).tm(tx as int, ty as int) & !tflag::COASTAL
                },
            ),
    {
        self.set_tbit(tx, ty, tflag::COASTAL, on)
    }

    /// `World::set_resource_at` `0x006b3a80` — the tile side of resource-node placement.
    pub fn set_resource_at(&mut self, tx: i32, ty: i32, on: bool)
        requires
            old(self).t_ok(tx as int, ty as int),
        ensures
            tile_written(
                *old(self),
                *final(self),
                old(self).t_at(tx as int, ty as int),
                if on {
                    old(self).tm(tx as int, ty as int) | tflag::RESOURCE
                } else {
                    old(self).tm(tx as int, ty as int) & !tflag::RESOURCE
                },
            ),
    {
        self.set_tbit(tx, ty, tflag::RESOURCE, on)
    }

    /// `World::set_city_at` `0x006b4180`.
    pub fn set_city_at(&mut self, tx: i32, ty: i32, on: bool)
        requires
            old(self).t_ok(tx as int, ty as int),
        ensures
            tile_written(
                *old(self),
                *final(self),
                old(self).t_at(tx as int, ty as int),
                if on {
                    old(self).tm(tx as int, ty as int) | tflag::CITY
                } else {
                    old(self).tm(tx as int, ty as int) & !tflag::CITY
                },
            ),
    {
        self.set_tbit(tx, ty, tflag::CITY, on)
    }

    /// `World::set_started_at` `0x006b4570`.
    pub fn set_started_at(&mut self, tx: i32, ty: i32, on: bool)
        requires
            old(self).t_ok(tx as int, ty as int),
        ensures
            tile_written(
                *old(self),
                *final(self),
                old(self).t_at(tx as int, ty as int),
                if on {
                    old(self).tm(tx as int, ty as int) | tflag::STARTED
                } else {
                    old(self).tm(tx as int, ty as int) & !tflag::STARTED
                },
            ),
    {
        self.set_tbit(tx, ty, tflag::STARTED, on)
    }

    /// `World::set_started2_at` `0x006b4530`.
    pub fn set_started2_at(&mut self, tx: i32, ty: i32, on: bool)
        requires
            old(self).t_ok(tx as int, ty as int),
        ensures
            tile_written(
                *old(self),
                *final(self),
                old(self).t_at(tx as int, ty as int),
                if on {
                    old(self).tm(tx as int, ty as int) | tflag::STARTED2
                } else {
                    old(self).tm(tx as int, ty as int) & !tflag::STARTED2
                },
            ),
    {
        self.set_tbit(tx, ty, tflag::STARTED2, on)
    }

    /// `World::set_gathered_at` `0x006b46b0`.
    pub fn set_gathered_at(&mut self, tx: i32, ty: i32, on: bool)
        requires
            old(self).t_ok(tx as int, ty as int),
        ensures
            tile_written(
                *old(self),
                *final(self),
                old(self).t_at(tx as int, ty as int),
                if on {
                    old(self).tm(tx as int, ty as int) | tflag::GATHERED
                } else {
                    old(self).tm(tx as int, ty as int) & !tflag::GATHERED
                },
            ),
    {
        self.set_tbit(tx, ty, tflag::GATHERED, on)
    }

    /// `World::set_gather_edge` `0x006b2110` — set-only; the engine has no clear path.
    pub fn set_gather_edge(&mut self, tx: i32, ty: i32)
        requires
            old(self).t_ok(tx as int, ty as int),
        ensures
            tile_written(
                *old(self),
                *final(self),
                old(self).t_at(tx as int, ty as int),
                old(self).tm(tx as int, ty as int) | tflag::GATHER_EDGE,
            ),
    {
        self.set_tbit(tx, ty, tflag::GATHER_EDGE, true)
    }

    /// `World::set_behind` `0x006b4230`: `BEHIND_B` when `variant_b`, else `BEHIND_A`.
    pub fn set_behind(&mut self, tx: i32, ty: i32, on: bool, variant_b: bool)
        requires
            old(self).t_ok(tx as int, ty as int),
        ensures
            ({
                let bit = if variant_b {
                    tflag::BEHIND_B
                } else {
                    tflag::BEHIND_A
                };
                tile_written(
                    *old(self),
                    *final(self),
                    old(self).t_at(tx as int, ty as int),
                    if on {
                        old(self).tm(tx as int, ty as int) | bit
                    } else {
                        old(self).tm(tx as int, ty as int) & !bit
                    },
                )
            }),
    {
        let bit = if variant_b {
            tflag::BEHIND_B
        } else {
            tflag::BEHIND_A
        };
        self.set_tbit(tx, ty, bit, on)
    }

    /// `World::set_land` `0x006b2b50` — W-indexed; negative arguments leave a field alone.
    /// `land_class` replaces the land-class field; `COAST` also sets `ORIG_COAST`, and
    /// `clear_water` first clears `WATERHALF | ORIG_COAST`.
    pub fn set_land(
        &mut self,
        wx: i32,
        wy: i32,
        land: i32,
        land_sub: i32,
        land_class: i32,
        clear_water: bool,
    )
        requires
            old(self).w_ok(wx as int, wy as int),
        ensures
            ({
                let w = old(self).wd(wx as int, wy as int);
                cell_written(
                    *old(self),
                    *final(self),
                    old(self).w_at(wx as int, wy as int),
                    WData {
                        land_sub: if land_sub >= 0 {
                            land_sub as u8
                        } else {
                            w.land_sub
                        },
                        land: if land >= 0 {
                            land as i8
                        } else {
                            w.land
                        },
                        flags: land_flags(w.flags, land_class, clear_water),
                        ..w
                    },
                )
            }),
    {
        let wi = (wy * self.xs + wx) as usize;
        if land_sub >= 0 {
            self.wdata[wi].land_sub = land_sub as u8;
        }
        if land >= 0 {
            self.wdata[wi].land = land as i8;
        }
        if land_class >= 0 {
            self.wdata[wi].flags = self.wdata[wi].flags & !wflag::LAND_CLASS_MASK;
            if clear_water {
                self.wdata[wi].flags = self.wdata[wi].flags & !(wflag::WATERHALF
                    | wflag::ORIG_COAST);
            }
            self.wdata[wi].flags = self.wdata[wi].flags | (land_class as u16);
            if land_class as u16 == wflag::COAST {
                self.wdata[wi].flags = self.wdata[wi].flags | wflag::ORIG_COAST;
            }
        }
        assert(self.wdata@ =~= old(self).wdata@.update(wi as int, self.wdata@[wi as int]));
    }

    /// `World::set_oil_at` `0x006b2a10` — sets or clears the cell's `OIL` flag and returns
    /// the cell centre `(wx*768 + 384, wy*768 + 384)`, where the engine spawns the oil
    /// `Good`.
    pub fn set_oil_at(&mut self, wx: i32, wy: i32, on: bool) -> (r: (i32, i32))
        requires
            old(self).w_ok(wx as int, wy as int),
            i32::MIN <= wx * 768 <= i32::MAX - 384,
            i32::MIN <= wy * 768 <= i32::MAX - 384,
        ensures
            r.0 == wx * 768 + 384 && r.1 == wy * 768 + 384,
            ({
                let w = old(self).wd(wx as int, wy as int);
                cell_written(
                    *old(self),
                    *final(self),
                    old(self).w_at(wx as int, wy as int),
                    WData {
                        flags: if on {
                            w.flags | wflag::OIL
                        } else {
                            w.flags & !wflag::OIL
                        },
                        ..w
                    },
                )
            }),
    {
        let wi = (wy * self.xs + wx) as usize;
        if on {
            self.wdata[wi].flags = self.wdata[wi].flags | wflag::OIL;
        } else {
            self.wdata[wi].flags = self.wdata[wi].flags & !wflag::OIL;
        }
        assert(self.wdata@ =~= old(self).wdata@.update(wi as int, self.wdata@[wi as int]));
        (wx * COORD_PER_WCELL + COORD_PER_WCELL / 2, wy * COORD_PER_WCELL + COORD_PER_WCELL / 2)
    }

    /// `World::set_down` `0x0046ef50`.
    pub fn set_down(&mut self, wx: i32, wy: i32, down: i16, down_who: i16)
        requires
            old(self).w_ok(wx as int, wy as int),
        ensures
            cell_written(
                *old(self),
                *final(self),
                old(self).w_at(wx as int, wy as int),
                WData { down, down_who, ..old(self).wd(wx as int, wy as int) },
            ),
    {
        let wi = (wy * self.xs + wx) as usize;
        self.wdata[wi].down = down;
        self.wdata[wi].down_who = down_who;
        assert(self.wdata@ =~= old(self).wdata@.update(wi as int, self.wdata@[wi as int]));
    }

    /// `World::new_coll_block` `0x0046d250` — allocate a fresh collision block for the cell,
    /// replacing any previous one, and hand it back.
    pub fn new_coll_block(&mut self, wx: i32, wy: i32) -> (r: &mut CollBlock)
        requires
            old(self).w_ok(wx as int, wy as int),
        ensures
            fresh_coll_block(*r),
            cell_written(
                *old(self),
                *final(self),
                old(self).w_at(wx as int, wy as int),
                WData { block: Some(Box::new(*final(r))), ..old(self).wd(wx as int, wy as int) },
            ),
    {
        let wi = (wy * self.xs + wx) as usize;
        let cell = &mut self.wdata[wi];
        cell.block = Some(Box::new(CollBlock::fresh()));
        match &mut cell.block {
            Some(b) => &mut **b,
            None => vstd::pervasive::unreached(),
        }
    }
}

/// Cell addressing depends only on the tile row width and the plane length.
proof fn lemma_cell_tiles_frame(a: World, b: World, wx: int, wy: int)
    requires
        a.cell_tiles_ok(wx, wy),
        a.tile_xs == b.tile_xs,
        a.tdata@.len() == b.tdata@.len(),
    ensures
        b.cell_tiles_ok(wx, wy),
{
    assert forall|i: int| 0 <= i < 16 implies #[trigger] b.cell_t_ok(wx, wy, i) by {
        assert(a.cell_t_ok(wx, wy, i));
    }
}

/// Whether a cell has a surface or a river depends only on the tile plane.
proof fn lemma_cell_scan_frame(a: World, b: World, wx: int, wy: int)
    requires
        a.tdata@ == b.tdata@,
        a.tile_xs == b.tile_xs,
    ensures
        forall|s: u16| a.cell_has_surface(wx, wy, s) == b.cell_has_surface(wx, wy, s),
        a.cell_has_river(wx, wy) == b.cell_has_river(wx, wy),
{
    assert forall|i: int| #[trigger] a.cell_tm(wx, wy, i) == b.cell_tm(wx, wy, i) by {}
    assert forall|s: u16| a.cell_has_surface(wx, wy, s) == b.cell_has_surface(wx, wy, s) by {
        if a.cell_has_surface(wx, wy, s) {
            let i = choose|i: int|
                0 <= i < 16 && #[trigger] a.cell_tm(wx, wy, i) & tflag::SURFACE_MASK == s;
            assert(b.cell_tm(wx, wy, i) == a.cell_tm(wx, wy, i));
        }
        if b.cell_has_surface(wx, wy, s) {
            let i = choose|i: int|
                0 <= i < 16 && #[trigger] b.cell_tm(wx, wy, i) & tflag::SURFACE_MASK == s;
            assert(b.cell_tm(wx, wy, i) == a.cell_tm(wx, wy, i));
        }
    }
    if a.cell_has_river(wx, wy) {
        let i = choose|i: int| 0 <= i < 16 && #[trigger] a.cell_tm(wx, wy, i) & tflag::RIVER != 0;
        assert(b.cell_tm(wx, wy, i) == a.cell_tm(wx, wy, i));
    }
    if b.cell_has_river(wx, wy) {
        let i = choose|i: int| 0 <= i < 16 && #[trigger] b.cell_tm(wx, wy, i) & tflag::RIVER != 0;
        assert(b.cell_tm(wx, wy, i) == a.cell_tm(wx, wy, i));
    }
}

/// Clearing a surface twice clears it once.
proof fn lemma_clear_surface_idem(m: u16, surface: u16)
    ensures
        clear_surface_if(clear_surface_if(m, surface), surface) == clear_surface_if(m, surface),
{
    assert((m & !0x30u16) & 0x30u16 == 0 && (m & !0x30u16) & !0x30u16 == m & !0x30u16) by (bit_vector);
}

/// Zero every byte of a plane.
fn zero_u8s(v: &mut Vec<u8>)
    ensures
        final(v)@.len() == old(v)@.len(),
        all_zero_u8(final(v)@),
{
    let n = v.len();
    let mut i: usize = 0;
    while i < n
        invariant
            n == v@.len(),
            i <= n,
            forall|j: int| 0 <= j < i ==> v@[j] == 0,
        decreases n - i,
    {
        v[i] = 0;
        i = i + 1;
    }
}

/// Zero every entry of a tile plane.
fn zero_u16s(v: &mut Vec<u16>)
    ensures
        final(v)@.len() == old(v)@.len(),
        all_zero_u16(final(v)@),
{
    let n = v.len();
    let mut i: usize = 0;
    while i < n
        invariant
            n == v@.len(),
            i <= n,
            forall|j: int| 0 <= j < i ==> v@[j] == 0,
        decreases n - i,
    {
        v[i] = 0;
        i = i + 1;
    }
}

/// Zero every entry of a danger plane.
fn zero_i32s(v: &mut Vec<i32>)
    ensures
        final(v)@.len() == old(v)@.len(),
        all_zero_i32(final(v)@),
{
    let n = v.len();
    let mut i: usize = 0;
    while i < n
        invariant
            n == v@.len(),
            i <= n,
            forall|j: int| 0 <= j < i ==> v@[j] == 0,
        decreases n - i,
    {
        v[i] = 0;
        i = i + 1;
    }
}

/// Give every cell the wiped record, keeping its collision block.
fn wipe_cells(v: &mut Vec<WData>)
    ensures
        final(v)@.len() == old(v)@.len(),
        forall|i: int|
            0 <= i < final(v)@.len() ==> #[trigger] final(v)@[i] == (WData {
                block: old(v)@[i].block,
                ..wiped_wdata()
            }),
{
    let n = v.len();
    let mut i: usize = 0;
    while i < n
        invariant
            n == v@.len(),
            n == old(v)@.len(),
            i <= n,
            forall|j: int|
                0 <= j < i ==> #[trigger] v@[j] == (WData { block: old(v)@[j].block, ..wiped_wdata() }),
            forall|j: int| i <= j < n ==> #[trigger] v@[j] == old(v)@[j],
        decreases n - i,
    {
        let block = v[i].block.take();
        let mut cell = WData::wiped();
        cell.block = block;
        v[i] = cell;
        i = i + 1;
    }
}

/// One if the bit is set in the mask, else zero.
pub open spec fn bit_count1(m: u16, bit: u16) -> int {
    if m & bit != 0 {
        1
    } else {
        0
    }
}

impl World {
    /// How many of the first `k` tiles of a world cell carry `bit`.
    pub open spec fn cell_bit_count(&self, wx: int, wy: int, bit: u16, k: int) -> int
        decreases k,
    {
        if k <= 0 {
            0
        } else {
            self.cell_bit_count(wx, wy, bit, k - 1) + bit_count1(self.cell_tm(wx, wy, k - 1), bit)
        }
    }

    /// Every on-map cell's `bad` and `blocked` counters equal, modulo 256, the number of
    /// its tiles carrying `BAD_PATH` and `BLOCKED`. `World::init` establishes this and the
    /// blocking mutators keep it.
    pub open spec fn counters_track(&self) -> bool {
        forall|wx: int, wy: int|
            #[trigger] self.in_w(wx, wy) ==> self.wd(wx, wy).bad as int == self.cell_bit_count(
                wx,
                wy,
                tflag::BAD_PATH,
                16,
            ) % 256 && self.wd(wx, wy).blocked as int == self.cell_bit_count(
                wx,
                wy,
                tflag::BLOCKED,
                16,
            ) % 256
    }

    /// The `i`-th 8-neighbour of a tile.
    pub open spec fn nb_x(tx: int, i: int) -> int {
        tx + NEIGHBOUR_DX@[i]
    }

    /// See [`World::nb_x`].
    pub open spec fn nb_y(ty: int, i: int) -> int {
        ty + NEIGHBOUR_DY@[i]
    }
}

/// The position of tile `(x, y)` inside its world cell, in `traverse` order.
pub open spec fn cell_slot(x: int, y: int) -> int {
    (y % 4) * 4 + x % 4
}

/// Tile `i` of cell `(cx, cy)` is the tile `(x, y)` exactly when the cell is `(x, y)`'s
/// and `i` is its slot.
proof fn lemma_cell_tile_is(x: int, y: int, cx: int, cy: int, i: int)
    requires
        0 <= i < 16,
    ensures
        (cx * 4 + i % 4 == x && cy * 4 + i / 4 == y) <==> (x / 4 == cx && y / 4 == cy && i
            == cell_slot(x, y)),
{
    lemma_fundamental_div_mod(i, 4);
    lemma_fundamental_div_mod(x, 4);
    lemma_fundamental_div_mod(y, 4);
    if cx * 4 + i % 4 == x && cy * 4 + i / 4 == y {
        lemma_fundamental_div_mod_converse(x, 4, cx, i % 4);
        lemma_fundamental_div_mod_converse(y, 4, cy, i / 4);
    }
    if x / 4 == cx && y / 4 == cy && i == cell_slot(x, y) {
        lemma_fundamental_div_mod_converse(i, 4, y % 4, x % 4);
    }
}

/// Writing one on-map tile changes one cell's bit count, by the change in that tile.
proof fn lemma_count_after_write(
    a: World,
    b: World,
    x: int,
    y: int,
    v: u16,
    bit: u16,
    cx: int,
    cy: int,
    k: int,
)
    requires
        a.wf(),
        a.in_t(x, y),
        a.in_w(cx, cy),
        b.tdata@ == a.tdata@.update(a.t_at(x, y), v),
        b.tile_xs == a.tile_xs,
        0 <= k <= 16,
    ensures
        b.cell_bit_count(cx, cy, bit, k) == a.cell_bit_count(cx, cy, bit, k) + if x / 4 == cx && y
            / 4 == cy && cell_slot(x, y) < k {
            bit_count1(v, bit) - bit_count1(a.tm(x, y), bit)
        } else {
            0
        },
    decreases k,
{
    if k > 0 {
        lemma_count_after_write(a, b, x, y, v, bit, cx, cy, k - 1);
        let i = k - 1;
        let px = cx * 4 + i % 4;
        let py = cy * 4 + i / 4;
        lemma_fundamental_div_mod(i, 4);
        a.lemma_cell_tiles(cx, cy);
        assert(0 <= px < a.tile_xs && 0 <= py < a.tile_ys) by {
            lemma_grid_index(cx, cy, a.xs as int, a.ys as int);
        }
        a.lemma_in_t(px, py);
        a.lemma_in_t(x, y);
        lemma_cell_tile_is(x, y, cx, cy, i);
        if px == x && py == y {
        } else {
            if a.t_at(px, py) == a.t_at(x, y) {
                lemma_grid_index_injective(px, py, x, y, a.tile_xs as int);
            }
            assert(b.cell_tm(cx, cy, i) == a.cell_tm(cx, cy, i));
        }
        lemma_fundamental_div_mod(x, 4);
        lemma_fundamental_div_mod(y, 4);
    }
}

/// Distinct on-map cells have distinct record indices.
proof fn lemma_cells_distinct(a: World, c1x: int, c1y: int, c2x: int, c2y: int)
    requires
        a.wf(),
        a.in_w(c1x, c1y),
        a.in_w(c2x, c2y),
        a.w_at(c1x, c1y) == a.w_at(c2x, c2y),
    ensures
        c1x == c2x && c1y == c2y,
{
    lemma_grid_index_injective(c1x, c1y, c2x, c2y, a.xs as int);
}

/// One tile write with the matching counter updates on its cell keeps the counters in
/// step with the bits.
proof fn lemma_counters_after_write(a: World, b: World, x: int, y: int, v: u16, w: WData)
    requires
        a.wf(),
        a.in_t(x, y),
        a.counters_track(),
        b.tdata@ == a.tdata@.update(a.t_at(x, y), v),
        b.wdata@ == a.wdata@.update(a.w_at(x / 4, y / 4), w),
        b == (World { tdata: b.tdata, wdata: b.wdata, ..a }),
        w.bad as int == (a.wd(x / 4, y / 4).bad as int + bit_count1(v, tflag::BAD_PATH)
            - bit_count1(a.tm(x, y), tflag::BAD_PATH)) % 256,
        w.blocked as int == (a.wd(x / 4, y / 4).blocked as int + bit_count1(v, tflag::BLOCKED)
            - bit_count1(a.tm(x, y), tflag::BLOCKED)) % 256,
    ensures
        b.wf(),
        b.counters_track(),
{
    a.lemma_in_t(x, y);
    assert forall|cx: int, cy: int| #[trigger] b.in_w(cx, cy) implies b.wd(cx, cy).bad as int
        == b.cell_bit_count(cx, cy, tflag::BAD_PATH, 16) % 256 && b.wd(cx, cy).blocked as int
        == b.cell_bit_count(cx, cy, tflag::BLOCKED, 16) % 256 by {
        assert(a.in_w(cx, cy));
        lemma_count_after_write(a, b, x, y, v, tflag::BAD_PATH, cx, cy, 16);
        lemma_count_after_write(a, b, x, y, v, tflag::BLOCKED, cx, cy, 16);
        lemma_fundamental_div_mod(x, 4);
        lemma_fundamental_div_mod(y, 4);
        assert(0 <= cell_slot(x, y) < 16);
        a.lemma_in_w(cx, cy);
        if cx == x / 4 && cy == y / 4 {
            let cb = a.cell_bit_count(cx, cy, tflag::BAD_PATH, 16);
            let cl = a.cell_bit_count(cx, cy, tflag::BLOCKED, 16);
            assert(b.wd(cx, cy) == w);
            assert((cb % 256 + bit_count1(v, tflag::BAD_PATH) - bit_count1(a.tm(x, y), tflag::BAD_PATH)) % 256
                == (cb + bit_count1(v, tflag::BAD_PATH) - bit_count1(a.tm(x, y), tflag::BAD_PATH)) % 256) by {
                lemma_fundamental_div_mod(cb, 256);
                let d = bit_count1(v, tflag::BAD_PATH) - bit_count1(a.tm(x, y), tflag::BAD_PATH);
                lemma_mod_shift(cb, d);
            }
            assert((cl % 256 + bit_count1(v, tflag::BLOCKED) - bit_count1(a.tm(x, y), tflag::BLOCKED)) % 256
                == (cl + bit_count1(v, tflag::BLOCKED) - bit_count1(a.tm(x, y), tflag::BLOCKED)) % 256) by {
                let d = bit_count1(v, tflag::BLOCKED) - bit_count1(a.tm(x, y), tflag::BLOCKED);
                lemma_mod_shift(cl, d);
            }
        } else {
            if a.w_at(cx, cy) == a.w_at(x / 4, y / 4) {
                lemma_cells_distinct(a, cx, cy, x / 4, y / 4);
            }
            assert(b.wd(cx, cy) == a.wd(cx, cy));
        }
    }
}

/// `(c % 256 + d) % 256 == (c + d) % 256`.
proof fn lemma_mod_shift(c: int, d: int)
    ensures
        (c % 256 + d) % 256 == (c + d) % 256,
{
    lemma_fundamental_div_mod(c, 256);
    lemma_fundamental_div_mod(c % 256 + d, 256);
    lemma_fundamental_div_mod(c + d, 256);
    let q = c / 256;
    assert(c + d == (c % 256 + d) + 256 * q);
    lemma_fundamental_div_mod_converse(c + d, 256, (c % 256 + d) / 256 + q, (c % 256 + d) % 256);
}

/// `wrapping_add(1)` / `wrapping_sub(1)` on a `u8` are `+1` / `-1` modulo 256.
proof fn lemma_u8_wrap(x: u8)
    ensures
        x.wrapping_add(1) as int == (x as int + 1) % 256,
        x.wrapping_sub(1) as int == (x as int - 1) % 256,
        x as int == (x as int) % 256,
{
    lemma_fundamental_div_mod_converse(x as int, 256, 0, x as int);
    if x == 255 {
        lemma_fundamental_div_mod_converse(256, 256, 1, 0);
    } else {
        lemma_fundamental_div_mod_converse(x as int + 1, 256, 0, x as int + 1);
    }
    if x == 0 {
        lemma_fundamental_div_mod_converse(-1, 256, -1, 255);
    } else {
        lemma_fundamental_div_mod_converse(x as int - 1, 256, 0, x as int - 1);
    }
}

/// The bits a `BAD_PATH` write, a `BLOCKED` write and a road-surface clear leave alone.
proof fn lemma_tile_bits(m: u16)
    ensures
        bit_count1(m | tflag::BAD_PATH, tflag::BLOCKED) == bit_count1(m, tflag::BLOCKED),
        bit_count1(m & !tflag::BAD_PATH, tflag::BLOCKED) == bit_count1(m, tflag::BLOCKED),
        bit_count1(m | tflag::BAD_PATH, tflag::BAD_PATH) == 1,
        bit_count1(m & !tflag::BAD_PATH, tflag::BAD_PATH) == 0,
        bit_count1(m | tflag::BLOCKED, tflag::BAD_PATH) == bit_count1(m, tflag::BAD_PATH),
        bit_count1(m & !tflag::BLOCKED, tflag::BAD_PATH) == bit_count1(m, tflag::BAD_PATH),
        bit_count1(m | tflag::BLOCKED, tflag::BLOCKED) == 1,
        bit_count1(m & !tflag::BLOCKED, tflag::BLOCKED) == 0,
        bit_count1(clear_surface_if(m, tflag::SURFACE_ROAD), tflag::BAD_PATH) == bit_count1(m, tflag::BAD_PATH),
        bit_count1(clear_surface_if(m, tflag::SURFACE_ROAD), tflag::BLOCKED) == bit_count1(m, tflag::BLOCKED),
        (m | tflag::BAD_PATH) & tflag::BLOCKED == m & tflag::BLOCKED,
        (m & !tflag::BAD_PATH) & tflag::BLOCKED == m & tflag::BLOCKED,
        clear_surface_if(m, tflag::SURFACE_ROAD) & tflag::BLOCKED == m & tflag::BLOCKED,
        clear_surface_if(m, tflag::SURFACE_ROAD) & tflag::SURFACE_MASK != tflag::SURFACE_ROAD,
        clear_surface_if(m, tflag::SURFACE_ROAD) & tflag::BAD_PATH == m & tflag::BAD_PATH,
{
    assert((m | 0x2000u16) & 0x4000u16 == m & 0x4000u16 && (m & !0x2000u16) & 0x4000u16 == m
        & 0x4000u16 && (m | 0x2000u16) & 0x2000u16 != 0 && (m & !0x2000u16) & 0x2000u16 == 0 && (
    m | 0x4000u16) & 0x2000u16 == m & 0x2000u16 && (m & !0x4000u16) & 0x2000u16 == m & 0x2000u16
        && (m | 0x4000u16) & 0x4000u16 != 0 && (m & !0x4000u16) & 0x4000u16 == 0 && (m & !0x30u16)
        & 0x2000u16 == m & 0x2000u16 && (m & !0x30u16) & 0x4000u16 == m & 0x4000u16 && (m
        & !0x30u16) & 0x30u16 == 0) by (bit_vector);
}

impl World {
    /// Some on-map 8-neighbour of `(tx, ty)` is blocked, judged only by `BLOCKED` bits —
    /// so two worlds that agree on those bits agree on it.
    proof fn lemma_blocked_nb_frame(a: World, b: World, tx: int, ty: int)
        requires
            a.wf(),
            b.wf(),
            a.tile_xs == b.tile_xs,
            a.tile_ys == b.tile_ys,
            forall|x: int, y: int|
                #[trigger] a.in_t(x, y) ==> b.tm(x, y) & tflag::BLOCKED == a.tm(x, y) & tflag::BLOCKED,
        ensures
            a.blocked_neighbors_spec(tx, ty) == b.blocked_neighbors_spec(tx, ty),
    {
        if a.blocked_neighbors_spec(tx, ty) {
            let i = choose|i: int| 0 <= i < 8 && #[trigger] a.nb_blocked(tx, ty, i);
            assert(a.in_t(tx + NEIGHBOUR_DX@[i], ty + NEIGHBOUR_DY@[i]));
            assert(b.nb_blocked(tx, ty, i));
        }
        if b.blocked_neighbors_spec(tx, ty) {
            let i = choose|i: int| 0 <= i < 8 && #[trigger] b.nb_blocked(tx, ty, i);
            assert(a.in_t(tx + NEIGHBOUR_DX@[i], ty + NEIGHBOUR_DY@[i]));
            assert(a.nb_blocked(tx, ty, i));
        }
    }

    /// The `BLOCKED` half of `set_blocked_at`: the bit follows `on`, and the cell's
    /// `blocked` and `solid` counters move by one when it flips.
    fn set_blocked_bit(&mut self, tx: i32, ty: i32, on: bool)
        requires
            old(self).wf(),
            old(self).in_t(tx as int, ty as int),
        ensures
            ({
                let o = *old(self);
                let m = o.tm(tx as int, ty as int);
                let had = m & tflag::BLOCKED != 0;
                let w = o.wd(tx as int / 4, ty as int / 4);
                tile_cell_written(
                    o,
                    *final(self),
                    o.t_at(tx as int, ty as int),
                    if on {
                        m | tflag::BLOCKED
                    } else {
                        m & !tflag::BLOCKED
                    },
                    o.w_at(tx as int / 4, ty as int / 4),
                    WData {
                        blocked: if on && !had {
                            w.blocked.wrapping_add(1)
                        } else if !on && had {
                            w.blocked.wrapping_sub(1)
                        } else {
                            w.blocked
                        },
                        solid: if on && !had {
                            w.solid.wrapping_add(1)
                        } else if !on && had {
                            w.solid.wrapping_sub(1)
                        } else {
                            w.solid
                        },
                        ..w
                    },
                )
            }),
            final(self).wf(),
            old(self).counters_track() ==> final(self).counters_track(),
    {
        proof {
            self.lemma_in_t(tx as int, ty as int);
        }
        let ti = (ty * self.tile_xs + tx) as usize;
        let wi = (cell_of(ty) * self.xs + cell_of(tx)) as usize;
        let m = self.tdata[ti];
        let had = m & tflag::BLOCKED != 0;
        if !on {
            if had {
                self.wdata[wi].blocked = self.wdata[wi].blocked.wrapping_sub(1);
                self.wdata[wi].solid = self.wdata[wi].solid.wrapping_sub(1);
            }
            self.tdata[ti] = m & !tflag::BLOCKED;
        } else {
            if !had {
                self.wdata[wi].blocked = self.wdata[wi].blocked.wrapping_add(1);
                self.wdata[wi].solid = self.wdata[wi].solid.wrapping_add(1);
            }
            self.tdata[ti] = m | tflag::BLOCKED;
        }
        assert(self.wdata@ =~= old(self).wdata@.update(wi as int, self.wdata@[wi as int]));
        proof {
            lemma_u8_wrap(old(self).wdata@[wi as int].bad);
            lemma_u8_wrap(old(self).wdata@[wi as int].blocked);
            lemma_tile_bits(m);
            if old(self).counters_track() {
                lemma_counters_after_write(
                    *old(self),
                    *self,
                    tx as int,
                    ty as int,
                    self.tdata@[ti as int],
                    self.wdata@[wi as int],
                );
            } else {
                assert(self.tdata@.len() == old(self).tdata@.len());
            }
        }
    }

    /// `World::set_blocked_at` `0x006b4900`. The tile's `BLOCKED` bit follows `on` (with
    /// the cell's `blocked`/`solid` counters). Blocking also clears the tile's own
    /// `BAD_PATH` and road, and paints `BAD_PATH` on every on-map 8-neighbour; unblocking
    /// clears `BAD_PATH` from each neighbour that no longer has a blocked neighbour, and
    /// gives the tile itself `BAD_PATH` when one of its own neighbours is still blocked.
    /// Every `BAD_PATH` write keeps its cell's `bad` counter in step.
    #[verifier::rlimit(60)]
    pub fn set_blocked_at(&mut self, tx: i32, ty: i32, on: bool)
        requires
            old(self).wf(),
            old(self).in_t(tx as int, ty as int),
        ensures
            final(self).wf(),
            old(self).counters_track() ==> final(self).counters_track(),
            final(self).tile_xs == old(self).tile_xs,
            final(self).tile_ys == old(self).tile_ys,
            *final(self) == (World { tdata: final(self).tdata, wdata: final(self).wdata, ..*old(self) }),
            on ==> final(self).tm(tx as int, ty as int) == clear_surface_if(
                (old(self).tm(tx as int, ty as int) | tflag::BLOCKED) & !tflag::BAD_PATH,
                tflag::SURFACE_ROAD,
            ),
            !on ==> final(self).tm(tx as int, ty as int) == if final(self).blocked_neighbors_spec(
                tx as int,
                ty as int,
            ) {
                (old(self).tm(tx as int, ty as int) & !tflag::BLOCKED) | tflag::BAD_PATH
            } else {
                old(self).tm(tx as int, ty as int) & !tflag::BLOCKED
            },
            forall|i: int|
                0 <= i < 8 && old(self).in_t(World::nb_x(tx as int, i), World::nb_y(ty as int, i))
                    ==> #[trigger] final(self).tm(World::nb_x(tx as int, i), World::nb_y(ty as int, i))
                    == if on {
                    old(self).tm(World::nb_x(tx as int, i), World::nb_y(ty as int, i)) | tflag::BAD_PATH
                } else if final(self).blocked_neighbors_spec(
                    World::nb_x(tx as int, i),
                    World::nb_y(ty as int, i),
                ) {
                    old(self).tm(World::nb_x(tx as int, i), World::nb_y(ty as int, i))
                } else {
                    old(self).tm(World::nb_x(tx as int, i), World::nb_y(ty as int, i)) & !tflag::BAD_PATH
                },
            forall|x: int, y: int|
                old(self).in_t(x, y) && !(tx - 1 <= x <= tx + 1 && ty - 1 <= y <= ty + 1)
                    ==> #[trigger] final(self).tm(x, y) == old(self).tm(x, y),
    {
        let ghost s0 = *self;
        proof {
            self.lemma_in_t(tx as int, ty as int);
            lemma_nb_table();
        }
        self.set_blocked_bit(tx, ty, on);
        if on {
            self.set_bad_path(tx, ty, false);
            proof {
                self.lemma_cell_tiles(tx as int / 4, ty as int / 4);
            }
            let ghost s2 = *self;
            self.set_road_at(tx, ty, false, 0, false);
            proof {
                lemma_tile_bits(s2.tm(tx as int, ty as int));
                lemma_u8_wrap(s2.wd(tx as int / 4, ty as int / 4).bad);
                lemma_u8_wrap(s2.wd(tx as int / 4, ty as int / 4).blocked);
                if s0.counters_track() {
                    lemma_counters_after_write(
                        s2,
                        *self,
                        tx as int,
                        ty as int,
                        self.tm(tx as int, ty as int),
                        self.wd(tx as int / 4, ty as int / 4),
                    );
                }
            }
        }
        let ghost p = *self;
        proof {
            lemma_tile_bits(s0.tm(tx as int, ty as int));
            lemma_tile_bits(s0.tm(tx as int, ty as int) | tflag::BLOCKED);
            lemma_tile_bits((s0.tm(tx as int, ty as int) | tflag::BLOCKED) & !tflag::BAD_PATH);
            assert forall|x: int, y: int| #[trigger] s0.in_t(x, y) && (x != tx || y != ty) implies p.tm(x, y) == s0.tm(x, y) by {
                s0.lemma_in_t(x, y);
                if s0.t_at(x, y) == s0.t_at(tx as int, ty as int) {
                    lemma_grid_index_injective(x, y, tx as int, ty as int, s0.tile_xs as int);
                }
            }
        }
        let mut i: usize = 0;
        while i < 8
            invariant
                0 <= i <= 8,
                s0.wf(),
                s0.in_t(tx as int, ty as int),
                p.wf(),
                self.wf(),
                *self == (World { tdata: self.tdata, wdata: self.wdata, ..s0 }),
                p == (World { tdata: p.tdata, wdata: p.wdata, ..s0 }),
                s0.counters_track() ==> self.counters_track(),
                forall|x: int, y: int|
                    #[trigger] s0.in_t(x, y) ==> self.tm(x, y) & tflag::BLOCKED == p.tm(x, y)
                        & tflag::BLOCKED,
                self.tm(tx as int, ty as int) == p.tm(tx as int, ty as int),
                forall|x: int, y: int|
                    #[trigger] s0.in_t(x, y) && (x != tx || y != ty) ==> p.tm(x, y) == s0.tm(x, y),
                forall|x: int, y: int|
                    s0.in_t(x, y) && !(tx - 1 <= x <= tx + 1 && ty - 1 <= y <= ty + 1)
                        ==> #[trigger] self.tm(x, y) == p.tm(x, y),
                forall|j: int|
                    i <= j < 8 && s0.in_t(World::nb_x(tx as int, j), World::nb_y(ty as int, j))
                        ==> #[trigger] self.tm(World::nb_x(tx as int, j), World::nb_y(ty as int, j))
                        == p.tm(World::nb_x(tx as int, j), World::nb_y(ty as int, j)),
                forall|j: int|
                    0 <= j < i && s0.in_t(World::nb_x(tx as int, j), World::nb_y(ty as int, j))
                        ==> #[trigger] self.tm(World::nb_x(tx as int, j), World::nb_y(ty as int, j))
                        == if on {
                        p.tm(World::nb_x(tx as int, j), World::nb_y(ty as int, j)) | tflag::BAD_PATH
                    } else if p.blocked_neighbors_spec(
                        World::nb_x(tx as int, j),
                        World::nb_y(ty as int, j),
                    ) {
                        p.tm(World::nb_x(tx as int, j), World::nb_y(ty as int, j))
                    } else {
                        p.tm(World::nb_x(tx as int, j), World::nb_y(ty as int, j)) & !tflag::BAD_PATH
                    },
            decreases 8 - i,
        {
            let nx = tx + NEIGHBOUR_DX[i];
            let ny = ty + NEIGHBOUR_DY[i];
            if self.valid_t(nx, ny) {
                let ghost c = *self;
                proof {
                    self.lemma_in_t(nx as int, ny as int);
                }
                let mut write = on;
                let mut val = true;
                if !on {
                    let blocked_nb = self.has_blocked_neighbors(nx, ny);
                    proof {
                        World::lemma_blocked_nb_frame(p, *self, nx as int, ny as int);
                    }
                    write = !blocked_nb;
                    val = false;
                }
                if write {
                    self.set_bad_path(nx, ny, val);
                }
                proof {
                    let ni = s0.t_at(nx as int, ny as int);
                    assert forall|x: int, y: int| #[trigger] s0.in_t(x, y) && (x != nx || y != ny) implies self.tm(x, y) == c.tm(x, y) by {
                        s0.lemma_in_t(x, y);
                        if s0.t_at(x, y) == ni {
                            lemma_grid_index_injective(x, y, nx as int, ny as int, s0.tile_xs as int);
                        }
                    }
                    lemma_tile_bits(c.tm(nx as int, ny as int));
                    assert forall|j: int| 0 <= j < 8 && j != i implies !(World::nb_x(tx as int, j) == nx
                        && World::nb_y(ty as int, j) == ny) by {
                        lemma_nb_table();
                    }
                }
            }
            i = i + 1;
        }
        if !on {
            let ghost c = *self;
            if self.has_blocked_neighbors(tx, ty) {
                self.set_bad_path(tx, ty, true);
                proof {
                    assert forall|x: int, y: int| #[trigger] s0.in_t(x, y) && (x != tx || y != ty) implies self.tm(x, y) == c.tm(x, y) by {
                        s0.lemma_in_t(x, y);
                        if s0.t_at(x, y) == s0.t_at(tx as int, ty as int) {
                            lemma_grid_index_injective(x, y, tx as int, ty as int, s0.tile_xs as int);
                        }
                    }
                    lemma_tile_bits(c.tm(tx as int, ty as int));
                }
            }
            proof {
                lemma_tile_bits(c.tm(tx as int, ty as int));
                assert forall|x: int, y: int| #[trigger] c.in_t(x, y) implies self.tm(x, y) & tflag::BLOCKED
                    == c.tm(x, y) & tflag::BLOCKED by {
                    assert(s0.in_t(x, y));
                }
                World::lemma_blocked_nb_frame(c, *self, tx as int, ty as int);
            }
        }
        proof {
            lemma_tile_bits(p.tm(tx as int, ty as int));
            assert forall|x: int, y: int| #[trigger] p.in_t(x, y) implies self.tm(x, y) & tflag::BLOCKED
                == p.tm(x, y) & tflag::BLOCKED by {
                assert(s0.in_t(x, y));
            }
        }
        proof {
            assert forall|j: int| 0 <= j < 8 && s0.in_t(World::nb_x(tx as int, j), World::nb_y(ty as int, j)) implies
                p.blocked_neighbors_spec(World::nb_x(tx as int, j), World::nb_y(ty as int, j))
                == self.blocked_neighbors_spec(World::nb_x(tx as int, j), World::nb_y(ty as int, j)) by {
                World::lemma_blocked_nb_frame(p, *self, World::nb_x(tx as int, j), World::nb_y(ty as int, j));
            }
            assert forall|j: int| 0 <= j < 8 && s0.in_t(World::nb_x(tx as int, j), World::nb_y(ty as int, j)) implies
                !(World::nb_x(tx as int, j) == tx && World::nb_y(ty as int, j) == ty) by {
                lemma_nb_table();
            }
        }
    }

    /// `World::set_cliff_at` `0x006b1eb0` — blocks the tile, then stamps the blocker kind:
    /// `(m & ~2) | 1`, written after `set_blocked_at` so the blocker bits win.
    pub fn set_cliff_at(&mut self, tx: i32, ty: i32)
        requires
            old(self).wf(),
            old(self).in_t(tx as int, ty as int),
        ensures
            final(self).wf(),
            final(self).tm(tx as int, ty as int) == (clear_surface_if(
                (old(self).tm(tx as int, ty as int) | tflag::BLOCKED) & !tflag::BAD_PATH,
                tflag::SURFACE_ROAD,
            ) & !0x2u16) | tflag::BLOCKER_CLIFF,
            forall|x: int, y: int|
                old(self).in_t(x, y) && !(tx - 1 <= x <= tx + 1 && ty - 1 <= y <= ty + 1)
                    ==> #[trigger] final(self).tm(x, y) == old(self).tm(x, y),
    {
        self.set_blocked_at(tx, ty, true);
        proof {
            self.lemma_in_t(tx as int, ty as int);
        }
        let ghost mid = *self;
        let ti = (ty * self.tile_xs + tx) as usize;
        let m = self.tdata[ti];
        self.tdata[ti] = (m & !0x2u16) | tflag::BLOCKER_CLIFF;
        proof {
            assert forall|x: int, y: int| old(self).in_t(x, y) && !(tx - 1 <= x <= tx + 1 && ty - 1 <= y <= ty + 1)
                implies #[trigger] self.tm(x, y) == old(self).tm(x, y) by {
                old(self).lemma_in_t(x, y);
                assert(mid.tm(x, y) == old(self).tm(x, y));
                if self.t_at(x, y) == ti as int {
                    lemma_grid_index_injective(x, y, tx as int, ty as int, self.tile_xs as int);
                }
            }
        }
    }

    /// `World::set_mountain_at` `0x006b1f00` — `set_blocked_at(on)`, then the blocker
    /// field becomes `MOUNTAIN` (`(m & ~1) | 2`), or is cleared when unblocking a mountain.
    pub fn set_mountain_at(&mut self, tx: i32, ty: i32, on: bool)
        requires
            old(self).wf(),
            old(self).in_t(tx as int, ty as int),
        ensures
            final(self).wf(),
            on ==> final(self).tm(tx as int, ty as int) == (clear_surface_if(
                (old(self).tm(tx as int, ty as int) | tflag::BLOCKED) & !tflag::BAD_PATH,
                tflag::SURFACE_ROAD,
            ) & !0x1u16) | tflag::BLOCKER_MOUNTAIN,
            !on ==> final(self).tm(tx as int, ty as int) & tflag::BLOCKED == 0,
            !on ==> final(self).tm(tx as int, ty as int) & tflag::BLOCKER_MASK != tflag::BLOCKER_MOUNTAIN
                || old(self).tm(tx as int, ty as int) & tflag::BLOCKER_MASK != tflag::BLOCKER_MOUNTAIN,
            forall|x: int, y: int|
                old(self).in_t(x, y) && !(tx - 1 <= x <= tx + 1 && ty - 1 <= y <= ty + 1)
                    ==> #[trigger] final(self).tm(x, y) == old(self).tm(x, y),
    {
        self.set_blocked_at(tx, ty, on);
        proof {
            self.lemma_in_t(tx as int, ty as int);
        }
        let ghost mid = *self;
        let ti = (ty * self.tile_xs + tx) as usize;
        let m = self.tdata[ti];
        if on {
            self.tdata[ti] = (m & !0x1u16) | tflag::BLOCKER_MOUNTAIN;
        } else if m & tflag::BLOCKER_MASK == tflag::BLOCKER_MOUNTAIN {
            self.tdata[ti] = m & !tflag::BLOCKER_MASK;
        }
        proof {
            assert((m & !0x3u16) & 0x3u16 != 2 && (m & !0x3u16) & 0x4000u16 == m & 0x4000u16) by (bit_vector);
            let ghost o = *old(self);
            if !on {
                let om = old(self).tm(tx as int, ty as int);
                assert(((om & !0x4000u16) | 0x2000u16) & 0x4000u16 == 0 && (om & !0x4000u16) & 0x4000u16 == 0
                    && ((om & !0x4000u16) | 0x2000u16) & 0x3u16 == om & 0x3u16 && (om & !0x4000u16) & 0x3u16
                    == om & 0x3u16) by (bit_vector);
            }
            assert forall|x: int, y: int| old(self).in_t(x, y) && !(tx - 1 <= x <= tx + 1 && ty - 1 <= y <= ty + 1)
                implies #[trigger] self.tm(x, y) == old(self).tm(x, y) by {
                old(self).lemma_in_t(x, y);
                assert(mid.tm(x, y) == old(self).tm(x, y));
                if self.t_at(x, y) == ti as int {
                    lemma_grid_index_injective(x, y, tx as int, ty as int, self.tile_xs as int);
                }
            }
        }
    }
}

/// The 8-neighbour offsets are eight distinct non-zero steps of at most one.
proof fn lemma_nb_table()
    ensures
        forall|i: int|
            0 <= i < 8 ==> -1 <= #[trigger] NEIGHBOUR_DX@[i] <= 1 && -1 <= NEIGHBOUR_DY@[i] <= 1
                && (NEIGHBOUR_DX@[i] != 0 || NEIGHBOUR_DY@[i] != 0),
        forall|i: int, j: int|
            0 <= i < 8 && 0 <= j < 8 && i != j ==> (#[trigger] NEIGHBOUR_DX@[i] != #[trigger] NEIGHBOUR_DX@[j]
                || NEIGHBOUR_DY@[i] != NEIGHBOUR_DY@[j]),
{
    assert(NEIGHBOUR_DX@ =~= seq![-1i32, 0i32, 1i32, 1i32, 1i32, 0i32, -1i32, -1i32]);
    assert(NEIGHBOUR_DY@ =~= seq![-1i32, -1i32, -1i32, 0i32, 1i32, 1i32, 1i32, 0i32]);
}

/// A cell whose tiles are all zero counts no bits.
proof fn lemma_zero_cell_count(w: World, wx: int, wy: int, bit: u16, k: int)
    requires
        w.wf(),
        w.in_w(wx, wy),
        all_zero_u16(w.tdata@),
        0 <= k <= 16,
    ensures
        w.cell_bit_count(wx, wy, bit, k) == 0,
    decreases k,
{
    if k > 0 {
        lemma_zero_cell_count(w, wx, wy, bit, k - 1);
        w.lemma_cell_tiles(wx, wy);
        assert(w.cell_t_ok(wx, wy, k - 1));
        assert(w.cell_tm(wx, wy, k - 1) == 0);
        assert(0u16 & bit == 0) by (bit_vector);
    }
}

/// A freshly initialised world's `bad` and `blocked` counters agree with its (empty) tile
/// bits, so the blocking mutators keep them in step from the start.
pub proof fn lemma_init_counters_track(w: World)
    requires
        w.wf(),
        all_zero_u16(w.tdata@),
        forall|i: int| 0 <= i < w.wdata@.len() ==> #[trigger] w.wdata@[i] == wiped_wdata(),
    ensures
        w.counters_track(),
{
    assert forall|wx: int, wy: int| #[trigger] w.in_w(wx, wy) implies w.wd(wx, wy).bad as int
        == w.cell_bit_count(wx, wy, tflag::BAD_PATH, 16) % 256 && w.wd(wx, wy).blocked as int
        == w.cell_bit_count(wx, wy, tflag::BLOCKED, 16) % 256 by {
        w.lemma_in_w(wx, wy);
        lemma_zero_cell_count(w, wx, wy, tflag::BAD_PATH, 16);
        lemma_zero_cell_count(w, wx, wy, tflag::BLOCKED, 16);
        assert(w.wdata@[w.w_at(wx, wy)] == wiped_wdata());
    }
}
} // verus!
