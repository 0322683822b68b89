//! The `world` checksum channel: `World::walk_data(DataWalk*, int section)` `0x006b5cf0`.
//!
//! The engine runs each channel with a fresh adler-32 seeded to `1`. The walk is a chain of
//! `if (section < 0 || section == N)` guards, one per section, with `check_all` passing
//! `-1`:
//!
//! | § | bytes walked |
//! |---|---|
//! | 1 | `xs`, `ys` |
//! | 2 | `start_x`, `start_y`, `start_city_x`, `start_city_y` — `SimpleArray<WCoord>::walk_data` |
//! | 3 | `oil_x`, `oil_y` |
//! | 4 | `walk(world+8, +0x80)` — 120 bytes, `size` … `seed` |
//! | 5 | per W cell: the 21 checksummed `WData` bytes |
//! | 6 | `tdata` (`tile_size*2` B), then `seen`, `seen2`, `seen3` |
//! | 7 | `wcoord_seen` |
//! | 8 | `danger[p]` for `p in 0..8` |
//! | 9 | per W cell: an `i32` "has block", then the block's `[0,8)` and `[0xc, 0xc+size)` |
//! | 10–13 | `Terrain::{halfland_locs, halfland_types, halfland_subtypes, nuke_hits}` |
use vstd::prelude::*;
use super::{
    i32_le_bytes, le_i16, le_i32, u16_le_bytes, le_u16, wdata_bytes, CollBlock, WData,
    WalkedArray, World,
};
use crate::checksum::{adler32_spec, Adler32, ByteSink, DataWalk};

verus! {

/// The little-endian image of a run of `i32`s.
pub open spec fn i32s_image(s: Seq<i32>) -> Seq<u8>
    decreases s.len(),
{
    if s.len() == 0 {
        Seq::empty()
    } else {
        i32s_image(s.drop_last()) + le_i32(s.last())
    }
}

/// The little-endian image of a run of `u16`s.
pub open spec fn u16s_image(s: Seq<u16>) -> Seq<u8>
    decreases s.len(),
{
    if s.len() == 0 {
        Seq::empty()
    } else {
        u16s_image(s.drop_last()) + le_u16(s.last())
    }
}

/// The image of a run of `(x, y)` pairs, eight bytes each.
pub open spec fn pairs_image(s: Seq<(i32, i32)>) -> Seq<u8>
    decreases s.len(),
{
    if s.len() == 0 {
        Seq::empty()
    } else {
        pairs_image(s.drop_last()) + le_i32(s.last().0) + le_i32(s.last().1)
    }
}

/// The shared `SimpleArray` header: length, and for a non-empty array the capacity,
/// increment and `flags & ~0x40`.
pub open spec fn array_header<T>(a: WalkedArray<T>) -> Seq<u8> {
    le_i32(a.items@.len() as i32) + if a.items@.len() as i32 == 0 {
        Seq::<u8>::empty()
    } else {
        le_i32(a.capacity) + le_i16(a.increment) + seq![a.flags & !0x40u8]
    }
}

/// `SimpleArray<int>::walk_data` on the checksum path.
pub open spec fn simple_array_image(a: WalkedArray<i32>) -> Seq<u8> {
    array_header(a) + if a.items@.len() as i32 == 0 {
        Seq::<u8>::empty()
    } else {
        i32s_image(a.items@)
    }
}

/// `Array<WCoordData>::walk_data` — the same header, eight-byte elements.
pub open spec fn pair_array_image(a: WalkedArray<(i32, i32)>) -> Seq<u8> {
    array_header(a) + if a.items@.len() as i32 == 0 {
        Seq::<u8>::empty()
    } else {
        pairs_image(a.items@)
    }
}

/// Section 5: the 21 checksummed bytes of each cell.
pub open spec fn wdata_image(s: Seq<WData>) -> Seq<u8>
    decreases s.len(),
{
    if s.len() == 0 {
        Seq::empty()
    } else {
        wdata_image(s.drop_last()) + wdata_bytes(s.last())
    }
}

/// How many payload bytes of a collision block the walk takes: `size`, clamped to
/// `0..=96`.
pub open spec fn payload_len(size: i32) -> int {
    if size <= 0 {
        0
    } else if size > 96 {
        96
    } else {
        size as int
    }
}

/// Section 9 for one cell: a presence word, then `bits`, `size` and the payload.
pub open spec fn block_image(w: WData) -> Seq<u8> {
    match w.block {
        None => le_i32(0),
        Some(b) => le_i32(1) + le_i32(b.bits) + le_i32(b.size) + b.ptr@.take(payload_len(b.size)),
    }
}

/// Section 9: every cell's collision-block image, in cell order.
pub open spec fn blocks_image(s: Seq<WData>) -> Seq<u8>
    decreases s.len(),
{
    if s.len() == 0 {
        Seq::empty()
    } else {
        blocks_image(s.drop_last()) + block_image(s.last())
    }
}

/// Section 8: the danger planes, in player order.
pub open spec fn planes_image(p: Seq<Vec<i32>>) -> Seq<u8>
    decreases p.len(),
{
    if p.len() == 0 {
        Seq::empty()
    } else {
        planes_image(p.drop_last()) + i32s_image(p.last()@)
    }
}

/// The thirteen sections of `World::walk_data(DataWalk*, int)`, numbered as the engine
/// numbers them (see [`WorldSection::number`]).
#[derive(Clone, Copy, Debug, PartialEq, Eq)]
pub enum WorldSection {
    /// `walk(world+0, +8)` — `xs`, `ys`.
    Dims,
    /// The four `SimpleArray<WCoord>` start-position arrays.
    StartArrays,
    /// The two oil-position arrays.
    OilArrays,
    /// `walk(world+8, +0x80)` — every derived size, the six territory limits, the
    /// resource totals and `seed`.
    Scalars,
    /// `WData[size]`, bytes `[0, 0x15)` of each record: territory ownership and the
    /// coarse explored bitmask ride here.
    WData,
    /// `TData[tile_size]`, then `seen`, `seen2`, `seen3`: all three fog planes are in the
    /// sync checksum.
    TDataAndFog,
    /// `wcoord_seen[size]`.
    WCoordSeen,
    /// `danger[8][reg_size]`, 4 B per entry.
    Danger,
    /// The per-cell `CollBlock`: presence flag, then `[+0,+8)` and `[+0xc, +0xc+size)`.
    CollBlocks,
    /// `Terrain::halfland_locs` — `Array<WCoordData>`, 8-byte elements.
    TerrainHalflandLocs,
    /// `Terrain::halfland_types` — `SimpleArray<int>`.
    TerrainHalflandTypes,
    /// `Terrain::halfland_subtypes` — `SimpleArray<int>`.
    TerrainHalflandSubtypes,
    /// `Terrain::nuke_hits` — `SimpleArray<int>`.
    TerrainNukeHits,
}

/// The engine's number for a section, `1..=13`.
pub open spec fn section_number(s: WorldSection) -> int {
    match s {
        WorldSection::Dims => 1,
        WorldSection::StartArrays => 2,
        WorldSection::OilArrays => 3,
        WorldSection::Scalars => 4,
        WorldSection::WData => 5,
        WorldSection::TDataAndFog => 6,
        WorldSection::WCoordSeen => 7,
        WorldSection::Danger => 8,
        WorldSection::CollBlocks => 9,
        WorldSection::TerrainHalflandLocs => 10,
        WorldSection::TerrainHalflandTypes => 11,
        WorldSection::TerrainHalflandSubtypes => 12,
        WorldSection::TerrainNukeHits => 13,
    }
}

/// The section argument `check_all` passes: every section.
pub const WORLD_SECTION_ALL: i32 = -1;
/// How many sections there are.
pub const WORLD_SECTION_COUNT: usize = 13;

impl WorldSection {
    /// The value `check_all` passes: every section.
    pub const ALL: i32 = -1;
    /// How many sections there are.
    pub const COUNT: usize = 13;

    /// The engine's number for this section, the value `walk_data` compares its argument
    /// against.
    pub fn number(self) -> (r: i32)
        ensures
            r == section_number(self),
            1 <= r <= 13,
    {
        match self {
            WorldSection::Dims => 1,
            WorldSection::StartArrays => 2,
            WorldSection::OilArrays => 3,
            WorldSection::Scalars => 4,
            WorldSection::WData => 5,
            WorldSection::TDataAndFog => 6,
            WorldSection::WCoordSeen => 7,
            WorldSection::Danger => 8,
            WorldSection::CollBlocks => 9,
            WorldSection::TerrainHalflandLocs => 10,
            WorldSection::TerrainHalflandTypes => 11,
            WorldSection::TerrainHalflandSubtypes => 12,
            WorldSection::TerrainNukeHits => 13,
        }
    }

    /// Sections `1..=13` in walk order.
    pub fn all() -> (r: [WorldSection; 13])
        ensures
            forall|i: int| 0 <= i < 13 ==> section_number(#[trigger] r@[i]) == i + 1,
    {
        [
            WorldSection::Dims,
            WorldSection::StartArrays,
            WorldSection::OilArrays,
            WorldSection::Scalars,
            WorldSection::WData,
            WorldSection::TDataAndFog,
            WorldSection::WCoordSeen,
            WorldSection::Danger,
            WorldSection::CollBlocks,
            WorldSection::TerrainHalflandLocs,
            WorldSection::TerrainHalflandTypes,
            WorldSection::TerrainHalflandSubtypes,
            WorldSection::TerrainNukeHits,
        ]
    }
}

/// One section's isolated digest.
#[derive(Clone, Copy, Debug, Default, PartialEq, Eq)]
pub struct SectionDigest {
    /// A fresh adler seeded to 1 over this section alone.
    pub adler: u32,
    /// Bytes the section handed the visitor.
    pub bytes: u64,
}

/// The digest a fresh accumulator reaches over `s`.
pub open spec fn digest_of(s: Seq<u8>) -> SectionDigest {
    SectionDigest { adler: adler32_spec(1, s), bytes: (s.len() % 0x1_0000_0000_0000_0000) as u64 }
}

/// The `world` channel, broken out per section. See [`World::checksum_sections`].
#[derive(Clone, Debug, PartialEq, Eq)]
pub struct WorldChecksum {
    /// Indexed by `section - 1`.
    pub per_section: [SectionDigest; 13],
    /// The value channel 12 of `check_all` produces — one accumulator, all sections.
    pub full: u32,
    /// Total bytes the channel walks.
    pub bytes: u64,
}

/// The sections, among the first `k`, whose digests differ between two breakdowns.
pub open spec fn differing_prefix(a: Seq<SectionDigest>, b: Seq<SectionDigest>, k: int) -> Seq<int>
    decreases k,
{
    if k <= 0 {
        Seq::empty()
    } else {
        differing_prefix(a, b, k - 1) + if a[k - 1] != b[k - 1] {
            seq![k]
        } else {
            Seq::<int>::empty()
        }
    }
}

impl WorldChecksum {
    /// This section's digest.
    pub fn section(&self, s: WorldSection) -> (r: SectionDigest)
        ensures
            r == self.per_section@[section_number(s) - 1],
    {
        let i = (s.number() - 1) as usize;
        self.per_section[i]
    }

    /// The sections that differ from another world's, in walk order — the first entry is
    /// where a desync investigation starts.
    pub fn differing_sections(&self, other: &WorldChecksum) -> (r: Vec<WorldSection>)
        ensures
            r@.map_values(|s: WorldSection| section_number(s)) == differing_prefix(
                self.per_section@,
                other.per_section@,
                13,
            ),
    {
        let all = WorldSection::all();
        let mut out: Vec<WorldSection> = Vec::new();
        let mut i: usize = 0;
        while i < 13
            invariant
                i <= 13,
                forall|j: int| 0 <= j < 13 ==> section_number(#[trigger] all@[j]) == j + 1,
                out@.map_values(|s: WorldSection| section_number(s)) == differing_prefix(
                    self.per_section@,
                    other.per_section@,
                    i as int,
                ),
            decreases 13 - i,
        {
            let a = self.per_section[i];
            let b = other.per_section[i];
            let ghost before = out@;
            if a.adler != b.adler || a.bytes != b.bytes {
                out.push(all[i]);
                assert(out@.map_values(|s: WorldSection| section_number(s)) =~= before.map_values(
                    |s: WorldSection| section_number(s),
                ).push(i + 1));
            } else {
                assert(a == b);
            }
            assert(section_number(all@[i as int]) == i + 1);
            i = i + 1;
        }
        out
    }
}

// ---------------------------------------------------------------------------------------
// Walking
// ---------------------------------------------------------------------------------------

/// Walk a run of `i32`s, little-endian.
fn walk_i32s<W: DataWalk>(w: &mut W, s: &[i32])
    requires
        old(w).walk_ready(),
    ensures
        final(w).walk_ready(),
        final(w).walked() == old(w).walked() + i32s_image(s@),
{
    let n = s.len();
    let mut i: usize = 0;
    while i < n
        invariant
            n == s@.len(),
            i <= n,
            w.walk_ready(),
            w.walked() == old(w).walked() + i32s_image(s@.take(i as int)),
        decreases n - i,
    {
        let b = i32_le_bytes(s[i]);
        w.walk(b.as_slice());
        proof {
            assert(s@.take(i + 1).drop_last() =~= s@.take(i as int));
            assert(w.walked() =~= old(w).walked() + i32s_image(s@.take(i + 1)));
        }
        i = i + 1;
    }
    assert(s@.take(n as int) =~= s@);
}

/// Walk a run of `u16`s, little-endian.
fn walk_u16s<W: DataWalk>(w: &mut W, s: &[u16])
    requires
        old(w).walk_ready(),
    ensures
        final(w).walk_ready(),
        final(w).walked() == old(w).walked() + u16s_image(s@),
{
    let n = s.len();
    let mut i: usize = 0;
    while i < n
        invariant
            n == s@.len(),
            i <= n,
            w.walk_ready(),
            w.walked() == old(w).walked() + u16s_image(s@.take(i as int)),
        decreases n - i,
    {
        let b = u16_le_bytes(s[i]);
        w.walk(b.as_slice());
        proof {
            assert(s@.take(i + 1).drop_last() =~= s@.take(i as int));
            assert(w.walked() =~= old(w).walked() + u16s_image(s@.take(i + 1)));
        }
        i = i + 1;
    }
    assert(s@.take(n as int) =~= s@);
}

/// Walk the shared array header.
fn walk_header<W: DataWalk, T>(w: &mut W, a: &WalkedArray<T>)
    requires
        old(w).walk_ready(),
    ensures
        final(w).walk_ready(),
        final(w).walked() == old(w).walked() + array_header(*a),
{
    let len = a.items.len() as i32;
    w.walk(i32_le_bytes(len).as_slice());
    if len == 0 {
        assert(w.walked() =~= old(w).walked() + array_header(*a));
        return ;
    }
    w.walk(i32_le_bytes(a.capacity).as_slice());
    w.walk(u16_le_bytes(a.increment as u16).as_slice());
    let f = [a.flags & !0x40u8];
    w.walk(f.as_slice());
    assert(w.walked() =~= old(w).walked() + array_header(*a));
}

/// `SimpleArray<T>::walk_data` on the checksum path.
fn walk_simple_array_i32<W: DataWalk>(w: &mut W, a: &WalkedArray<i32>)
    requires
        old(w).walk_ready(),
    ensures
        final(w).walk_ready(),
        final(w).walked() == old(w).walked() + simple_array_image(*a),
{
    walk_header(w, a);
    if a.items.len() as i32 == 0 {
        assert(w.walked() =~= old(w).walked() + simple_array_image(*a));
        return ;
    }
    let ghost mid = w.walked();
    walk_i32s(w, a.items.as_slice());
    assert(w.walked() =~= old(w).walked() + simple_array_image(*a));
}

/// `Array<WCoordData>::walk_data` — identical header, 8-byte elements.
fn walk_array_pairs<W: DataWalk>(w: &mut W, a: &WalkedArray<(i32, i32)>)
    requires
        old(w).walk_ready(),
    ensures
        final(w).walk_ready(),
        final(w).walked() == old(w).walked() + pair_array_image(*a),
{
    walk_header(w, a);
    if a.items.len() as i32 == 0 {
        assert(w.walked() =~= old(w).walked() + pair_array_image(*a));
        return ;
    }
    let ghost w1 = w.walked();
    let n = a.items.len();
    let mut i: usize = 0;
    while i < n
        invariant
            n == a.items@.len(),
            i <= n,
            w.walk_ready(),
            w.walked() == w1 + pairs_image(a.items@.take(i as int)),
        decreases n - i,
    {
        let (x, y) = a.items[i];
        w.walk(i32_le_bytes(x).as_slice());
        w.walk(i32_le_bytes(y).as_slice());
        proof {
            assert(a.items@.take(i + 1).drop_last() =~= a.items@.take(i as int));
            assert(w.walked() =~= w1 + pairs_image(a.items@.take(i + 1)));
        }
        i = i + 1;
    }
    assert(a.items@.take(n as int) =~= a.items@);
    assert(w.walked() =~= old(w).walked() + pair_array_image(*a));
}

impl World {
    /// Section 4's thirty words, in struct order.
    pub open spec fn scalars(&self) -> Seq<i32> {
        seq![
            self.size,
            self.fog_xs,
            self.fog_ys,
            self.fog_size,
            self.tile_xs,
            self.tile_ys,
            self.tile_size,
            self.reg_xs,
            self.reg_ys,
            self.reg_size,
            self.map,
            self.sea_map,
            self.player_territory_limit,
            self.player_territory_limit_civic,
            self.player_territory_limit_city,
            self.colonized_territory_limit,
            self.colonized_territory_limit_civic,
            self.colonized_territory_limit_city,
            self.player_reg,
            self.resource_reg,
            self.forest_size,
            self.mountain_size,
            self.rock_size,
            self.total_metal,
            self.total_oil,
            self.goodies,
            self.land_resources,
            self.sea_resources,
            self.land_size,
            self.seed,
        ]
    }

    /// The bytes section `n` (`1..=13`) hands the visitor; nothing for any other number.
    pub open spec fn section_image(&self, n: int) -> Seq<u8> {
        if n == 1 {
            le_i32(self.xs) + le_i32(self.ys)
        } else if n == 2 {
            simple_array_image(self.start_x) + simple_array_image(self.start_y)
                + simple_array_image(self.start_city_x) + simple_array_image(self.start_city_y)
        } else if n == 3 {
            simple_array_image(self.oil_x) + simple_array_image(self.oil_y)
        } else if n == 4 {
            i32s_image(self.scalars())
        } else if n == 5 {
            wdata_image(self.wdata@)
        } else if n == 6 {
            u16s_image(self.tdata@) + self.seen@ + self.seen2@ + self.seen3@
        } else if n == 7 {
            self.wcoord_seen@
        } else if n == 8 {
            planes_image(self.danger@)
        } else if n == 9 {
            blocks_image(self.wdata@)
        } else if n == 10 {
            pair_array_image(self.terrain_sync.halfland_locs)
        } else if n == 11 {
            simple_array_image(self.terrain_sync.halfland_types)
        } else if n == 12 {
            simple_array_image(self.terrain_sync.halfland_subtypes)
        } else if n == 13 {
            simple_array_image(self.terrain_sync.nuke_hits)
        } else {
            Seq::empty()
        }
    }

    /// What the guards `1..=k` of `walk_data(w, section)` hand the visitor.
    pub open spec fn walk_prefix(&self, section: i32, k: int) -> Seq<u8>
        decreases k,
    {
        if k <= 0 {
            Seq::empty()
        } else {
            self.walk_prefix(section, k - 1) + if section < 0 || section == k {
                self.section_image(k)
            } else {
                Seq::<u8>::empty()
            }
        }
    }

    /// The whole `world` channel: `walk_data(w, -1)`.
    pub open spec fn channel_image(&self) -> Seq<u8> {
        self.walk_prefix(-1i32, 13)
    }

    /// The whole channel is the thirteen sections, concatenated in order.
    pub proof fn lemma_channel_is_sections(&self)
        ensures
            self.channel_image() == self.section_image(1) + self.section_image(2)
                + self.section_image(3) + self.section_image(4) + self.section_image(5)
                + self.section_image(6) + self.section_image(7) + self.section_image(8)
                + self.section_image(9) + self.section_image(10) + self.section_image(11)
                + self.section_image(12) + self.section_image(13),
    {
        reveal_with_fuel(World::walk_prefix, 14);
        assert(self.walk_prefix(-1i32, 0) =~= Seq::<u8>::empty());
        assert(self.channel_image() =~= self.section_image(1) + self.section_image(2)
            + self.section_image(3) + self.section_image(4) + self.section_image(5)
            + self.section_image(6) + self.section_image(7) + self.section_image(8)
            + self.section_image(9) + self.section_image(10) + self.section_image(11)
            + self.section_image(12) + self.section_image(13));
    }

    /// Asking for one section walks exactly that section; a number outside `1..=13`
    /// walks nothing.
    pub proof fn lemma_single_section(&self, section: i32)
        requires
            section >= 0,
        ensures
            self.walk_prefix(section, 13) == self.section_image(section as int),
    {
        reveal_with_fuel(World::walk_prefix, 14);
        assert(self.walk_prefix(section, 13) =~= self.section_image(section as int));
    }

    /// The whole channel — `World::walk_data(w, -1)`.
    pub fn walk<W: DataWalk>(&self, w: &mut W)
        requires
            old(w).walk_ready(),
        ensures
            final(w).walk_ready(),
            final(w).walked() == old(w).walked() + self.channel_image(),
    {
        self.walk_section(w, WORLD_SECTION_ALL);
    }

    /// `World::walk_data(DataWalk* w, int section)` `0x006b5cf0`, with its section
    /// argument: thirteen `if (section < 0 || section == N)` guards in order.
    pub fn walk_section<W: DataWalk>(&self, w: &mut W, section: i32)
        requires
            old(w).walk_ready(),
        ensures
            final(w).walk_ready(),
            final(w).walked() == old(w).walked() + self.walk_prefix(section, 13),
    {
        let mut n: i32 = 1;
        while n <= 13
            invariant
                1 <= n <= 14,
                w.walk_ready(),
                w.walked() == old(w).walked() + self.walk_prefix(section, n - 1),
            decreases 14 - n,
        {
            let ghost before = w.walked();
            if section < 0 || section == n {
                self.walk_one(w, n);
            }
            assert(w.walked() =~= old(w).walked() + self.walk_prefix(section, n as int));
            n = n + 1;
        }
    }

    /// Walk section `n` alone.
    fn walk_one<W: DataWalk>(&self, w: &mut W, n: i32)
        requires
            old(w).walk_ready(),
            1 <= n <= 13,
        ensures
            final(w).walk_ready(),
            final(w).walked() == old(w).walked() + self.section_image(n as int),
    {
        if n == 1 {
            w.walk(i32_le_bytes(self.xs).as_slice());
            w.walk(i32_le_bytes(self.ys).as_slice());
        } else if n == 2 {
            walk_simple_array_i32(w, &self.start_x);
            walk_simple_array_i32(w, &self.start_y);
            walk_simple_array_i32(w, &self.start_city_x);
            walk_simple_array_i32(w, &self.start_city_y);
        } else if n == 3 {
            walk_simple_array_i32(w, &self.oil_x);
            walk_simple_array_i32(w, &self.oil_y);
        } else if n == 4 {
            self.walk_scalars(w);
        } else if n == 5 {
            self.walk_wdata(w);
        } else if n == 6 {
            walk_u16s(w, self.tdata.as_slice());
            w.walk(self.seen.as_slice());
            w.walk(self.seen2.as_slice());
            w.walk(self.seen3.as_slice());
        } else if n == 7 {
            w.walk(self.wcoord_seen.as_slice());
        } else if n == 8 {
            self.walk_danger(w);
        } else if n == 9 {
            self.walk_blocks(w);
        } else if n == 10 {
            walk_array_pairs(w, &self.terrain_sync.halfland_locs);
        } else if n == 11 {
            walk_simple_array_i32(w, &self.terrain_sync.halfland_types);
        } else if n == 12 {
            walk_simple_array_i32(w, &self.terrain_sync.halfland_subtypes);
        } else {
            walk_simple_array_i32(w, &self.terrain_sync.nuke_hits);
        }
        assert(w.walked() =~= old(w).walked() + self.section_image(n as int));
    }

    /// §4 — `walk(world+8, world+0x80)`, one contiguous 120-byte range in struct order.
    fn walk_scalars<W: DataWalk>(&self, w: &mut W)
        requires
            old(w).walk_ready(),
        ensures
            final(w).walk_ready(),
            final(w).walked() == old(w).walked() + i32s_image(self.scalars()),
    {
        let v = [
            self.size,
            self.fog_xs,
            self.fog_ys,
            self.fog_size,
            self.tile_xs,
            self.tile_ys,
            self.tile_size,
            self.reg_xs,
            self.reg_ys,
            self.reg_size,
            self.map,
            self.sea_map,
            self.player_territory_limit,
            self.player_territory_limit_civic,
            self.player_territory_limit_city,
            self.colonized_territory_limit,
            self.colonized_territory_limit_civic,
            self.colonized_territory_limit_city,
            self.player_reg,
            self.resource_reg,
            self.forest_size,
            self.mountain_size,
            self.rock_size,
            self.total_metal,
            self.total_oil,
            self.goodies,
            self.land_resources,
            self.sea_resources,
            self.land_size,
            self.seed,
        ];
        assert(v@ =~= self.scalars());
        walk_i32s(w, v.as_slice());
    }

    /// §5 — the 21 checksummed bytes of each cell.
    fn walk_wdata<W: DataWalk>(&self, w: &mut W)
        requires
            old(w).walk_ready(),
        ensures
            final(w).walk_ready(),
            final(w).walked() == old(w).walked() + wdata_image(self.wdata@),
    {
        let n = self.wdata.len();
        let mut i: usize = 0;
        while i < n
            invariant
                n == self.wdata@.len(),
                i <= n,
                w.walk_ready(),
                w.walked() == old(w).walked() + wdata_image(self.wdata@.take(i as int)),
            decreases n - i,
        {
            let b = self.wdata[i].checksum_bytes();
            w.walk(b.as_slice());
            proof {
                assert(self.wdata@.take(i + 1).drop_last() =~= self.wdata@.take(i as int));
                assert(w.walked() =~= old(w).walked() + wdata_image(self.wdata@.take(i + 1)));
            }
            i = i + 1;
        }
        assert(self.wdata@.take(n as int) =~= self.wdata@);
    }

    /// §8 — the eight danger planes.
    fn walk_danger<W: DataWalk>(&self, w: &mut W)
        requires
            old(w).walk_ready(),
        ensures
            final(w).walk_ready(),
            final(w).walked() == old(w).walked() + planes_image(self.danger@),
    {
        let mut p: usize = 0;
        while p < 8
            invariant
                p <= 8,
                self.danger@.len() == 8,
                w.walk_ready(),
                w.walked() == old(w).walked() + planes_image(self.danger@.take(p as int)),
            decreases 8 - p,
        {
            walk_i32s(w, self.danger[p].as_slice());
            proof {
                assert(self.danger@.take(p + 1).drop_last() =~= self.danger@.take(p as int));
                assert(self.danger@.take(p + 1).last() == self.danger@[p as int]);
                assert(self.danger@[p as int] == self.danger[p as int]);
                assert(w.walked() =~= old(w).walked() + planes_image(self.danger@.take(p + 1)));
            }
            p = p + 1;
        }
        assert(self.danger@.take(8) =~= self.danger@);
    }

    /// §9 — per cell, a presence word, then the block's `[0, 8)` and `[0xc, 0xc+size)`;
    /// `flags` at `+8` is skipped.
    fn walk_blocks<W: DataWalk>(&self, w: &mut W)
        requires
            old(w).walk_ready(),
        ensures
            final(w).walk_ready(),
            final(w).walked() == old(w).walked() + blocks_image(self.wdata@),
    {
        let n = self.wdata.len();
        let mut i: usize = 0;
        while i < n
            invariant
                n == self.wdata@.len(),
                i <= n,
                w.walk_ready(),
                w.walked() == old(w).walked() + blocks_image(self.wdata@.take(i as int)),
            decreases n - i,
        {
            let ghost before = w.walked();
            match &self.wdata[i].block {
                None => {
                    w.walk(i32_le_bytes(0).as_slice());
                },
                Some(b) => {
                    w.walk(i32_le_bytes(1).as_slice());
                    w.walk(i32_le_bytes(b.bits).as_slice());
                    w.walk(i32_le_bytes(b.size).as_slice());
                    let k: usize = if b.size <= 0 {
                        0
                    } else if b.size > 96 {
                        96
                    } else {
                        b.size as usize
                    };
                    let payload = vstd::slice::slice_subrange(b.ptr.as_slice(), 0, k);
                    w.walk(payload);
                    assert(payload@ =~= b.ptr@.take(payload_len(b.size)));
                },
            }
            proof {
                assert(w.walked() =~= before + block_image(self.wdata@[i as int]));
                assert(self.wdata@.take(i + 1).drop_last() =~= self.wdata@.take(i as int));
                assert(w.walked() =~= old(w).walked() + blocks_image(self.wdata@.take(i + 1)));
            }
            i = i + 1;
        }
        assert(self.wdata@.take(n as int) =~= self.wdata@);
    }

    /// The `world` channel of `CheckSums::check_all`: a fresh adler-32 seeded to 1 over
    /// the whole walk.
    pub fn checksum(&self) -> (r: u32)
        ensures
            r == adler32_spec(1, self.channel_image()),
    {
        let mut a = Adler32::new();
        self.walk(&mut a);
        assert(a.walked() =~= self.channel_image());
        a.finish()
    }

    /// The digest of section `n` alone.
    fn section_digest(&self, n: i32) -> (r: SectionDigest)
        requires
            1 <= n <= 13,
        ensures
            r == digest_of(self.section_image(n as int)),
    {
        let mut a = Adler32::new();
        self.walk_section(&mut a, n);
        proof {
            self.lemma_single_section(n);
            assert(a.walked() =~= self.section_image(n as int));
        }
        SectionDigest { adler: a.finish(), bytes: a.bytes }
    }

    /// Per-section digests of the `world` channel: each a fresh adler seeded to 1 over that
    /// section alone, with its byte count, beside the whole-channel value and byte count.
    /// The engine computes only `full`; the breakdown says which section diverged.
    pub fn checksum_sections(&self) -> (r: WorldChecksum)
        ensures
            forall|i: int|
                0 <= i < 13 ==> #[trigger] r.per_section@[i] == digest_of(self.section_image(i + 1)),
            r.full == adler32_spec(1, self.channel_image()),
            r.bytes == self.channel_image().len() % 0x1_0000_0000_0000_0000,
    {
        let per_section = [
            self.section_digest(1),
            self.section_digest(2),
            self.section_digest(3),
            self.section_digest(4),
            self.section_digest(5),
            self.section_digest(6),
            self.section_digest(7),
            self.section_digest(8),
            self.section_digest(9),
            self.section_digest(10),
            self.section_digest(11),
            self.section_digest(12),
            self.section_digest(13),
        ];
        let mut all = Adler32::new();
        self.walk(&mut all);
        assert(all.walked() =~= self.channel_image());
        WorldChecksum { per_section, full: all.finish(), bytes: all.bytes }
    }

    /// The exact byte stream the channel hands the visitor — for locating the first
    /// differing offset against a captured walk.
    pub fn checksum_image(&self) -> (r: ByteSink)
        ensures
            r.0@ == self.channel_image(),
    {
        let mut sink = ByteSink::new();
        self.walk(&mut sink);
        assert(sink.walked() =~= self.channel_image());
        sink
    }
}

/// The channel digest is the adler-32 of the channel's byte image, and the byte image is
/// the thirteen section images in order: a section's digest summarises exactly the bytes
/// the whole-channel walk spends on it.
pub proof fn lemma_sections_partition_channel(w: World)
    ensures
        w.channel_image() == w.section_image(1) + w.section_image(2) + w.section_image(3)
            + w.section_image(4) + w.section_image(5) + w.section_image(6) + w.section_image(7)
            + w.section_image(8) + w.section_image(9) + w.section_image(10) + w.section_image(11)
            + w.section_image(12) + w.section_image(13),
        forall|s: i32| 1 <= s <= 13 ==> #[trigger] w.walk_prefix(s, 13) == w.section_image(s as int),
{
    w.lemma_channel_is_sections();
    assert forall|s: i32| 1 <= s <= 13 implies #[trigger] w.walk_prefix(s, 13) == w.section_image(
        s as int,
    ) by {
        w.lemma_single_section(s);
    }
}

} // verus!
