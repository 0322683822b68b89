//! The map: coordinate ladder, tile grid, terrain, fog, and the `world` checksum channel
//! (channel 12 of `CheckSums::check_all` `0x00936560`).
//!
//! The engine's world is two grids plus three derived grids, all integer:
//!
//! ```text
//!   Coord   1 world unit          — the position unit
//!   UCoord  48 Coord   = 1/4 tile — the pathfinder's 8-connected movement grid
//!   TCoord  192 Coord  = 1 tile   — TData lives here (terrain bits)
//!   FCoord  384 Coord  = 2 tiles  — the fog planes live here
//!   WCoord  768 Coord  = 4 tiles  — WData lives here (land, region, owner, collision)
//!   RCoord  1536 Coord = 8 tiles  — the danger maps live here
//! ```
//!
//! The conversions are not plain shifts: the engine indexes `div_3_table` (`t[i] ==
//! floor(i/3)` for both signs) with a power-of-two arithmetic shift of the `Coord`. Each
//! conversion below is proved equal to floor division by the cell size.
pub mod space;
pub mod tflag;
pub mod wflag;
pub mod land;
pub mod world;
pub mod walk;

pub use crate::checksum::{adler32, Adler32, ByteSink, DataWalk};
pub use self::world::World;
pub use self::walk::{SectionDigest, WorldChecksum, WorldSection};

use vstd::prelude::*;
use vstd::arithmetic::div_mod::{lemma_fundamental_div_mod, lemma_fundamental_div_mod_converse};

verus! {

// ---------------------------------------------------------------------------------------
// The coordinate ladder
// ---------------------------------------------------------------------------------------

/// Coord units per quarter-tile (`UCoord`): `div_3_table[c >> 4]`.
pub const COORD_PER_UCELL: i32 = 48;
/// Coord units per tile (`TCoord`): `Coord::operator TCoord` `0x0046cd40`.
pub const COORD_PER_TILE: i32 = 192;
/// Coord units per fog cell (`FCoord`): `div_3_table[c >> 7]`.
pub const COORD_PER_FCELL: i32 = 384;
/// Coord units per world cell (`WCoord`): `Coord::operator WCoord` `0x00461460`.
pub const COORD_PER_WCELL: i32 = 768;
/// Coord units per region cell (`RCoord`): `div_3_table[c >> 9]`.
pub const COORD_PER_RCELL: i32 = 1536;
/// Tiles per world cell, per axis (`World::init` sets `tile_xs = xs * 4`).
pub const TILES_PER_WCELL: i32 = 4;
/// Tiles inside one world cell (`WCoord::traverse` `0x0042a610` returns 16).
pub const TILES_IN_WCELL: i32 = 16;
/// Fog cells per world cell, per axis (`World::init` sets `fog_xs = xs * 2`).
pub const FCELLS_PER_WCELL: i32 = 2;
/// World cells per region cell, per axis (`World::init` sets `reg_xs = xs / 2`).
pub const WCELLS_PER_RCELL: i32 = 2;

/// Mathematical floor of `a / b`, for either sign of `b`.
pub open spec fn floor_div_spec(a: int, b: int) -> int {
    if b > 0 {
        a / b
    } else {
        (-a) / (-b)
    }
}

/// The floor of `a / b` is the truncated quotient, stepped down by one when the division
/// is inexact and the signs differ.
#[verifier::rlimit(40)]
proof fn lemma_floor_from_trunc(a: i32, b: i32)
    requires
        b != 0,
        !(a == i32::MIN && b == -1),
    ensures
        a.checked_div(b) is Some,
        a.checked_rem(b) is Some,
        floor_div_spec(a as int, b as int) == if a.checked_rem(b)->0 != 0 && ((a < 0) != (b
            < 0)) {
            a.checked_div(b)->0 - 1
        } else {
            a.checked_div(b)->0 as int
        },
        i32::MIN <= floor_div_spec(a as int, b as int) <= i32::MAX,
{
    let x = a as int;
    let d = b as int;
    if x > 0 && d > 0 {
        lemma_fundamental_div_mod(x, d);
        assert(0 <= x / d <= x) by (nonlinear_arith)
            requires
                x > 0,
                d > 0,
        ;
        assert(a.checked_div(b) == Some((x / d) as i32));
        assert(a.checked_rem(b) == Some((x % d) as i32));
    } else if x < 0 && d < 0 {
        lemma_fundamental_div_mod(-x, -d);
        assert((-x) / (-d) <= -x) by (nonlinear_arith)
            requires
                -x > 0,
                -d > 0,
        ;
        assert((-x) / (-d) >= 0) by (nonlinear_arith)
            requires
                -x > 0,
                -d > 0,
        ;
        if -d >= 2 {
            assert((-x) / (-d) <= (-x) / 2) by (nonlinear_arith)
                requires
                    -x > 0,
                    -d >= 2,
            ;
            lemma_fundamental_div_mod(-x, 2);
        }
        assert((-x) / (-d) <= i32::MAX);
        assert(a.checked_div(b) == Some(((-x) / (-d)) as i32));
    } else if x < 0 {
        let n = -x;
        let k = n / d;
        let r = n % d;
        lemma_fundamental_div_mod(n, d);
        assert(0 <= k <= n) by (nonlinear_arith)
            requires
                n > 0,
                d > 0,
                k == n / d,
        ;
        if r == 0 {
            assert(x == (-k) * d + 0) by (nonlinear_arith)
                requires
                    n == d * k + r,
                    r == 0,
                    x == -n,
            ;
            lemma_fundamental_div_mod_converse(x, d, -k, 0);
        } else {
            assert(x == (-k - 1) * d + (d - r)) by (nonlinear_arith)
                requires
                    n == d * k + r,
                    x == -n,
            ;
            lemma_fundamental_div_mod_converse(x, d, -k - 1, d - r);
            assert(k * d <= n - r) by (nonlinear_arith)
                requires
                    n == d * k + r,
            ;
            assert(k + 1 <= n) by (nonlinear_arith)
                requires
                    k * d <= n - r,
                    r > 0,
                    d >= 1,
                    k >= 0,
                    r < d,
                    n == d * k + r,
            ;
        }
    } else if x > 0 {
        let e = -d;
        let k = x / e;
        let r = x % e;
        lemma_fundamental_div_mod(x, e);
        assert(0 <= k <= x) by (nonlinear_arith)
            requires
                x > 0,
                e > 0,
                k == x / e,
        ;
        if r == 0 {
            assert(-x == (-k) * e + 0) by (nonlinear_arith)
                requires
                    x == e * k + r,
                    r == 0,
            ;
            lemma_fundamental_div_mod_converse(-x, e, -k, 0);
        } else {
            assert(-x == (-k - 1) * e + (e - r)) by (nonlinear_arith)
                requires
                    x == e * k + r,
            ;
            lemma_fundamental_div_mod_converse(-x, e, -k - 1, e - r);
        }
    } else {
        assert(x == 0);
        if d > 0 {
            lemma_fundamental_div_mod_converse(0, d, 0, 0);
        } else {
            lemma_fundamental_div_mod_converse(0, -d, 0, 0);
        }
    }
}

/// Floor division, matching `div_3_table[i] == floor(i/3)` for negative `i` too.
pub fn floor_div(a: i32, b: i32) -> (r: i32)
    requires
        b != 0,
        !(a == i32::MIN && b == -1),
    ensures
        r == floor_div_spec(a as int, b as int),
{
    proof {
        lemma_floor_from_trunc(a, b);
    }
    let q = match a.checked_div(b) {
        Some(q) => q,
        None => 0,
    };
    let m = match a.checked_rem(b) {
        Some(m) => m,
        None => 0,
    };
    if m != 0 && ((a < 0) != (b < 0)) {
        q - 1
    } else {
        q
    }
}

/// `div_3_table[i]`: `init_coord_lookup_array` `0x00681db0` fills `t[i] = i/3` for
/// `i >= 0` and `t[j] = (j-2)/3` (truncating) for `j < 0`, which is `floor(j/3)` in both
/// halves.
pub fn div_3(i: i32) -> (r: i32)
    ensures
        r == (i as int) / 3,
{
    floor_div(i, 3)
}

/// `floor(floor(x / m) / d) == floor(x / (m * d))` for positive `m` and `d`.
pub proof fn lemma_floor_nested(x: int, m: int, d: int)
    requires
        m > 0,
        d > 0,
    ensures
        (x / m) / d == x / (m * d),
{
    let q1 = x / m;
    let r1 = x % m;
    lemma_fundamental_div_mod(x, m);
    let q2 = q1 / d;
    let r2 = q1 % d;
    lemma_fundamental_div_mod(q1, d);
    assert(x == q2 * (m * d) + (m * r2 + r1)) by (nonlinear_arith)
        requires
            x == m * q1 + r1,
            q1 == d * q2 + r2,
    ;
    assert(0 <= m * r2 + r1 < m * d) by (nonlinear_arith)
        requires
            0 <= r2 < d,
            0 <= r1 < m,
            m > 0,
    ;
    assert(m * d > 0) by (nonlinear_arith)
        requires
            m > 0,
            d > 0,
    ;
    lemma_fundamental_div_mod_converse(x, m * d, q2, m * r2 + r1);
}

/// A raw world unit. `class Coord` in the PDB — size 4, one `int value`.
#[derive(Copy, Clone, PartialEq, Eq, PartialOrd, Ord, Debug, Default, Hash)]
pub struct Coord(pub i32);

/// Quarter-tile cell — the pathfinder's 8-connected movement grid (`find_upath`).
#[derive(Copy, Clone, PartialEq, Eq, PartialOrd, Ord, Debug, Default, Hash)]
pub struct UCoord(pub i32);

/// Tile cell — the `TData` grid (`find_tpath`).
#[derive(Copy, Clone, PartialEq, Eq, PartialOrd, Ord, Debug, Default, Hash)]
pub struct TCoord(pub i32);

/// Fog cell — the `seen`/`seen2`/`seen3` byte planes.
#[derive(Copy, Clone, PartialEq, Eq, PartialOrd, Ord, Debug, Default, Hash)]
pub struct FCoord(pub i32);

/// World cell — the `WData` grid (`find_wpath`).
#[derive(Copy, Clone, PartialEq, Eq, PartialOrd, Ord, Debug, Default, Hash)]
pub struct WCoord(pub i32);

/// Region cell — the per-player `danger` maps.
#[derive(Copy, Clone, PartialEq, Eq, PartialOrd, Ord, Debug, Default, Hash)]
pub struct RCoord(pub i32);

/// The ladder conversion: arithmetic shift by `k`, then `div_3_table`; equal to floor
/// division by `3 * 2^k`.
proof fn lemma_shift_div3(c: i32, s: i32, pow: int)
    requires
        pow > 0,
        s as int == (c as int) / pow,
    ensures
        (s as int) / 3 == (c as int) / (pow * 3),
{
    lemma_floor_nested(c as int, pow, 3);
}

impl UCoord {
    /// Coord units spanned by one cell of this grid.
    pub const SCALE: i32 = 48;

    /// Convert a raw `Coord` the way the engine does: arithmetic shift, then `div_3_table`.
    pub fn from_coord(c: Coord) -> (r: Self)
        ensures
            r.0 == (c.0 as int) / 48,
    {
        let v = c.0;
        let s = v >> 4u32;
        proof {
            assert(s as int == (v as int) / 16) by (bit_vector)
                requires
                    s == v >> 4u32,
            ;
            lemma_shift_div3(v, s, 16);
        }
        UCoord(div_3(s))
    }

    /// Coord of this cell's low corner.
    pub fn corner(self) -> (r: Coord)
        requires
            i32::MIN <= self.0 * 48 <= i32::MAX,
        ensures
            r.0 == self.0 * 48,
    {
        Coord(self.0 * 48)
    }

    /// Coord of this cell's centre.
    pub fn centre(self) -> (r: Coord)
        requires
            i32::MIN <= self.0 * 48 <= i32::MAX,
            i32::MIN <= self.0 * 48 + 24 <= i32::MAX,
        ensures
            r.0 == self.0 * 48 + 24,
    {
        Coord(self.0 * 48 + 24)
    }
}

impl TCoord {
    /// Coord units spanned by one cell of this grid.
    pub const SCALE: i32 = 192;

    /// `Coord::operator TCoord` `0x0046cd40`: arithmetic shift, then `div_3_table`.
    pub fn from_coord(c: Coord) -> (r: Self)
        ensures
            r.0 == (c.0 as int) / 192,
    {
        let v = c.0;
        let s = v >> 6u32;
        proof {
            assert(s as int == (v as int) / 64) by (bit_vector)
                requires
                    s == v >> 6u32,
            ;
            lemma_shift_div3(v, s, 64);
        }
        TCoord(div_3(s))
    }

    /// Coord of this cell's low corner.
    pub fn corner(self) -> (r: Coord)
        requires
            i32::MIN <= self.0 * 192 <= i32::MAX,
        ensures
            r.0 == self.0 * 192,
    {
        Coord(self.0 * 192)
    }

    /// Coord of this cell's centre.
    pub fn centre(self) -> (r: Coord)
        requires
            i32::MIN <= self.0 * 192 <= i32::MAX,
            i32::MIN <= self.0 * 192 + 96 <= i32::MAX,
        ensures
            r.0 == self.0 * 192 + 96,
    {
        Coord(self.0 * 192 + 96)
    }

    /// `TCoord::operator WCoord` `0x0046fab0`: `w = t >> 2` (arithmetic).
    pub fn to_wcoord(self) -> (r: WCoord)
        ensures
            r.0 == (self.0 as int) / 4,
    {
        let v = self.0;
        let s = v >> 2u32;
        proof {
            assert(s as int == (v as int) / 4) by (bit_vector)
                requires
                    s == v >> 2u32,
            ;
        }
        WCoord(s)
    }
}

impl FCoord {
    /// Coord units spanned by one cell of this grid.
    pub const SCALE: i32 = 384;

    /// Convert a raw `Coord` the way the engine does: arithmetic shift, then `div_3_table`.
    pub fn from_coord(c: Coord) -> (r: Self)
        ensures
            r.0 == (c.0 as int) / 384,
    {
        let v = c.0;
        let s = v >> 7u32;
        proof {
            assert(s as int == (v as int) / 128) by (bit_vector)
                requires
                    s == v >> 7u32,
            ;
            lemma_shift_div3(v, s, 128);
        }
        FCoord(div_3(s))
    }

    /// Coord of this cell's low corner.
    pub fn corner(self) -> (r: Coord)
        requires
            i32::MIN <= self.0 * 384 <= i32::MAX,
        ensures
            r.0 == self.0 * 384,
    {
        Coord(self.0 * 384)
    }

    /// Coord of this cell's centre.
    pub fn centre(self) -> (r: Coord)
        requires
            i32::MIN <= self.0 * 384 <= i32::MAX,
            i32::MIN <= self.0 * 384 + 192 <= i32::MAX,
        ensures
            r.0 == self.0 * 384 + 192,
    {
        Coord(self.0 * 384 + 192)
    }
}

impl WCoord {
    /// Coord units spanned by one cell of this grid.
    pub const SCALE: i32 = 768;

    /// `Coord::operator WCoord` `0x00461460`: arithmetic shift, then `div_3_table`.
    pub fn from_coord(c: Coord) -> (r: Self)
        ensures
            r.0 == (c.0 as int) / 768,
    {
        let v = c.0;
        let s = v >> 8u32;
        proof {
            assert(s as int == (v as int) / 256) by (bit_vector)
                requires
                    s == v >> 8u32,
            ;
            lemma_shift_div3(v, s, 256);
        }
        WCoord(div_3(s))
    }

    /// Coord of this cell's low corner.
    pub fn corner(self) -> (r: Coord)
        requires
            i32::MIN <= self.0 * 768 <= i32::MAX,
        ensures
            r.0 == self.0 * 768,
    {
        Coord(self.0 * 768)
    }

    /// Coord of this cell's centre.
    pub fn centre(self) -> (r: Coord)
        requires
            i32::MIN <= self.0 * 768 <= i32::MAX,
            i32::MIN <= self.0 * 768 + 384 <= i32::MAX,
        ensures
            r.0 == self.0 * 768 + 384,
    {
        Coord(self.0 * 768 + 384)
    }

    /// `WCoord::operator TCoord` `0x004613b0`: `t = w*4 + 2` — the centre tile.
    pub fn to_tcoord_centre(self) -> (r: TCoord)
        requires
            i32::MIN <= self.0 * 4 <= i32::MAX - 2,
        ensures
            r.0 == self.0 * 4 + 2,
    {
        TCoord(self.0 * TILES_PER_WCELL + 2)
    }

    /// `WCoord::get_tcorner` `0x0046f080`: `t = w*4`.
    pub fn tcorner(self) -> (r: TCoord)
        requires
            i32::MIN <= self.0 * 4 <= i32::MAX,
        ensures
            r.0 == self.0 * 4,
    {
        TCoord(self.0 * TILES_PER_WCELL)
    }

    /// `WCoord::traverse_x(i)` `0x0046eef0`: `t = w*4 + (i mod 4)`, sign-correct mod.
    pub fn traverse_x(self, i: i32) -> (r: TCoord)
        requires
            i32::MIN <= self.0 * 4 <= i32::MAX - 3,
        ensures
            r.0 == self.0 * 4 + (i as int) % 4,
    {
        let m = match i.checked_rem_euclid(TILES_PER_WCELL) {
            Some(m) => m,
            None => 0,
        };
        TCoord(self.0 * TILES_PER_WCELL + m)
    }

    /// `WCoord::traverse_y(i)` `0x0046eed0`: `t = w*4 + floor(i/4)`.
    pub fn traverse_y(self, i: i32) -> (r: TCoord)
        requires
            i32::MIN <= self.0 * 4 <= i32::MAX,
            i32::MIN <= self.0 * 4 + (i as int) / 4 <= i32::MAX,
        ensures
            r.0 == self.0 * 4 + (i as int) / 4,
    {
        TCoord(self.0 * TILES_PER_WCELL + floor_div(i, TILES_PER_WCELL))
    }
}

impl RCoord {
    /// Coord units spanned by one cell of this grid.
    pub const SCALE: i32 = 1536;

    /// Convert a raw `Coord` the way the engine does: arithmetic shift, then `div_3_table`.
    pub fn from_coord(c: Coord) -> (r: Self)
        ensures
            r.0 == (c.0 as int) / 1536,
    {
        let v = c.0;
        let s = v >> 9u32;
        proof {
            assert(s as int == (v as int) / 512) by (bit_vector)
                requires
                    s == v >> 9u32,
            ;
            lemma_shift_div3(v, s, 512);
        }
        RCoord(div_3(s))
    }

    /// Coord of this cell's low corner.
    pub fn corner(self) -> (r: Coord)
        requires
            i32::MIN <= self.0 * 1536 <= i32::MAX,
        ensures
            r.0 == self.0 * 1536,
    {
        Coord(self.0 * 1536)
    }

    /// Coord of this cell's centre.
    pub fn centre(self) -> (r: Coord)
        requires
            i32::MIN <= self.0 * 1536 <= i32::MAX,
            i32::MIN <= self.0 * 1536 + 768 <= i32::MAX,
        ensures
            r.0 == self.0 * 1536 + 768,
    {
        Coord(self.0 * 1536 + 768)
    }
}

/// The ladder is consistent: converting a `Coord` to a tile and the tile to its world cell
/// lands on the world cell the `Coord` converts to directly.
pub proof fn lemma_ladder_consistent(c: int)
    ensures
        (c / 192) / 4 == c / 768,
        (c / 48) / 4 == c / 192,
        (c / 384) / 2 == c / 768,
        (c / 768) / 2 == c / 1536,
{
    lemma_floor_nested(c, 192, 4);
    lemma_floor_nested(c, 48, 4);
    lemma_floor_nested(c, 384, 2);
    lemma_floor_nested(c, 768, 2);
}

/// `traverse_x` / `traverse_y` visit each of a world cell's sixteen tiles exactly once for
/// `i` in `0..16`: the pair determines `i`, and every tile of the 4x4 block is reached.
pub proof fn lemma_traverse_covers_cell(w: int, i: int, j: int)
    requires
        0 <= i < 16,
        0 <= j < 16,
    ensures
        0 <= i % 4 < 4,
        0 <= i / 4 < 4,
        (w * 4 + i % 4 == w * 4 + j % 4 && w * 4 + i / 4 == w * 4 + j / 4) ==> i == j,
        forall|dx: int, dy: int|
            0 <= dx < 4 && 0 <= dy < 4 ==> (#[trigger] ((dy * 4 + dx) % 4) == dx && (dy * 4
                + dx) / 4 == dy),
{
    assert forall|dx: int, dy: int| 0 <= dx < 4 && 0 <= dy < 4 implies (#[trigger] ((dy * 4
        + dx) % 4) == dx && (dy * 4 + dx) / 4 == dy) by {
        lemma_fundamental_div_mod_converse(dy * 4 + dx, 4, dy, dx);
    }
    lemma_fundamental_div_mod(i, 4);
    lemma_fundamental_div_mod(j, 4);
}

/// The 8-connected neighbour ring, in the engine's own order: NW, N, NE, E, SE, S, SW, W.
pub const NEIGHBOUR_DX: [i32; 8] = [-1, 0, 1, 1, 1, 0, -1, -1];
/// See [`NEIGHBOUR_DX`].
pub const NEIGHBOUR_DY: [i32; 8] = [-1, -1, -1, 0, 1, 1, 1, 0];
/// The 4-connected ring, in the engine's order: N, E, S, W.
pub const NEIGHBOUR4_DX: [i32; 4] = [0, 1, 0, -1];
/// See [`NEIGHBOUR4_DX`].
pub const NEIGHBOUR4_DY: [i32; 4] = [-1, 0, 1, 0];
/// The 16 tile offsets `WorldData::space_at_corner` probes, in probe order. Indices 0–3
/// are the inner 2x2 core.
pub const SPACE_PROBE_DX: [i32; 16] = [1, 2, 1, 2, 0, 1, 2, 3, 0, 1, 2, 3, 0, 3, 0, 3];
/// See [`SPACE_PROBE_DX`].
pub const SPACE_PROBE_DY: [i32; 16] = [1, 1, 2, 2, 0, 0, 0, 0, 3, 3, 3, 3, 1, 1, 2, 2];
/// The four 5-cell "approach L" groups `space_at_corner` tests for a clear side.
pub const SPACE_APPROACH_GROUPS: [[usize; 5]; 4] = [
    [9, 10, 11, 13, 15],
    [12, 14, 8, 9, 10],
    [14, 12, 4, 5, 6],
    [5, 6, 7, 13, 15],
];

// ---------------------------------------------------------------------------------------
// Little-endian byte images
// ---------------------------------------------------------------------------------------

/// The four little-endian bytes of a 32-bit word.
pub open spec fn le_u32(v: u32) -> Seq<u8> {
    seq![(v & 0xff) as u8, ((v >> 8u32) & 0xff) as u8, ((v >> 16u32) & 0xff) as u8, (v >> 24u32) as u8]
}

/// The four little-endian bytes of a signed 32-bit word.
pub open spec fn le_i32(v: i32) -> Seq<u8> {
    le_u32(v as u32)
}

/// The two little-endian bytes of a 16-bit word.
pub open spec fn le_u16(v: u16) -> Seq<u8> {
    seq![(v & 0xff) as u8, (v >> 8u16) as u8]
}

/// The two little-endian bytes of a signed 16-bit word.
pub open spec fn le_i16(v: i16) -> Seq<u8> {
    le_u16(v as u16)
}

/// `v.to_le_bytes()` for an `i32`.
pub fn i32_le_bytes(v: i32) -> (r: [u8; 4])
    ensures
        r@ == le_i32(v),
{
    let u = v as u32;
    let r = [(u & 0xff) as u8, ((u >> 8u32) & 0xff) as u8, ((u >> 16u32) & 0xff) as u8, (u >> 24u32) as u8];
    assert(r@ =~= le_i32(v));
    r
}

/// `v.to_le_bytes()` for a `u16`.
pub fn u16_le_bytes(v: u16) -> (r: [u8; 2])
    ensures
        r@ == le_u16(v),
{
    let r = [(v & 0xff) as u8, (v >> 8u16) as u8];
    assert(r@ =~= le_u16(v));
    r
}

// ---------------------------------------------------------------------------------------
// WData — 28 bytes per world cell, 21 of them checksummed
// ---------------------------------------------------------------------------------------

/// One world cell. Field names and offsets are the PDB's.
///
/// The engine struct is 28 bytes; 21 of them are checksummed — `World::walk_data`
/// section 5 walks `[wdata + 28*i, +0x15)`, `flags` through `was_seen`.
#[derive(Clone, PartialEq, Eq, Debug)]
pub struct WData {
    /// `+0x00` — see [`wflag`].
    pub flags: u16,
    /// `+0x02` — see [`land`].
    pub land: i8,
    /// `+0x03`
    pub land_sub: u8,
    /// `+0x04` — land region id.
    pub region: i16,
    /// `+0x06` — water region id (the water tiles of a `WATERHALF` cell).
    pub region2: i16,
    /// `+0x08`
    pub down: i16,
    /// `+0x0a`
    pub down_who: i16,
    /// `+0x0c`
    pub val: u8,
    /// `+0x0d` — `WorldData::get_goods` `0x0046ef10`.
    pub goods: u8,
    /// `+0x0e`
    pub light: u8,
    /// `+0x0f` — territory owner; `-1` is unowned.
    pub who: i8,
    /// `+0x10`
    pub who2: i8,
    /// `+0x11` — count of tiles in this cell carrying `tflag::BLOCKED`.
    pub blocked: u8,
    /// `+0x12` — count of tiles in this cell carrying `tflag::BAD_PATH`.
    pub bad: u8,
    /// `+0x13` — moved by `set_blocked_at` (+1) and `set_tree_at` (−1).
    pub solid: i8,
    /// `+0x14`
    pub was_seen: u8,
    /// `+0x18` — lazily allocated `CollBlock`, `BitMask<768>`. Not checksummed as a pointer.
    pub block: Option<Box<CollBlock>>,
}

/// The 21 checksummed bytes of a cell, in memory order.
pub open spec fn wdata_bytes(w: WData) -> Seq<u8> {
    le_u16(w.flags) + seq![w.land as u8, w.land_sub] + le_i16(w.region) + le_i16(w.region2)
        + le_i16(w.down) + le_i16(w.down_who) + seq![
        w.val,
        w.goods,
        w.light,
        w.who as u8,
        w.who2 as u8,
        w.blocked,
        w.bad,
        w.solid as u8,
        w.was_seen,
    ]
}

/// The cell `World::wipe` `0x006b2c00` writes (measured at `0x006b2ce2`–`0x006b2d03`).
pub open spec fn wiped_wdata() -> WData {
    WData {
        flags: 0,
        land: 2,
        land_sub: 0,
        region: 64,
        region2: 0,
        down: -1i16,
        down_who: 0,
        val: 0,
        goods: 0,
        light: 0,
        who: -1i8,
        who2: -1i8,
        blocked: 0,
        bad: 0,
        solid: 0,
        was_seen: 0,
        block: None,
    }
}

impl Default for WData {
    /// The exact state `World::wipe` writes into every cell.
    fn default() -> (r: Self)
        ensures
            r == wiped_wdata(),
    {
        WData::wiped()
    }
}

impl WData {
    /// The cell `World::wipe` writes; `Default` returns it too.
    pub fn wiped() -> (r: Self)
        ensures
            r == wiped_wdata(),
    {
        WData {
            flags: 0,
            land: land::OCEAN,
            land_sub: 0,
            region: 64,
            region2: 0,
            down: -1,
            down_who: 0,
            val: 0,
            goods: 0,
            light: 0,
            who: -1,
            who2: -1,
            blocked: 0,
            bad: 0,
            solid: 0,
            was_seen: 0,
            block: None,
        }
    }

    /// `WorldData::offmap_world`, the static `WData` at `0x00c899a0` returned for
    /// out-of-bounds reads: the wiped cell with region 0.
    pub fn offmap() -> (r: Self)
        ensures
            r == (WData { region: 0, ..wiped_wdata() }),
    {
        WData {
            flags: 0,
            land: land::OCEAN,
            land_sub: 0,
            region: 0,
            region2: 0,
            down: -1,
            down_who: 0,
            val: 0,
            goods: 0,
            light: 0,
            who: -1,
            who2: -1,
            blocked: 0,
            bad: 0,
            solid: 0,
            was_seen: 0,
            block: None,
        }
    }

    /// The 21 checksummed bytes, in memory order.
    pub fn checksum_bytes(&self) -> (r: [u8; 21])
        ensures
            r@ == wdata_bytes(*self),
    {
        let f = u16_le_bytes(self.flags);
        let rg = u16_le_bytes(self.region as u16);
        let r2 = u16_le_bytes(self.region2 as u16);
        let dn = u16_le_bytes(self.down as u16);
        let dw = u16_le_bytes(self.down_who as u16);
        let r = [
            f[0],
            f[1],
            self.land as u8,
            self.land_sub,
            rg[0],
            rg[1],
            r2[0],
            r2[1],
            dn[0],
            dn[1],
            dw[0],
            dw[1],
            self.val,
            self.goods,
            self.light,
            self.who as u8,
            self.who2 as u8,
            self.blocked,
            self.bad,
            self.solid as u8,
            self.was_seen,
        ];
        assert(r@ =~= wdata_bytes(*self));
        r
    }
}

/// `CollBlock : BitMask<768>` — the per-world-cell collision bitmap. `World::new_coll_block`
/// `0x0046d250` writes `bits = 0x300`, `size = 0x60`, zeroes the payload, then `flags = 1`.
#[derive(Copy, Clone, PartialEq, Eq, Debug)]
pub struct CollBlock {
    /// `+0x00`, always `768` at construction.
    pub bits: i32,
    /// `+0x04`, always `96` at construction.
    pub size: i32,
    /// `+0x08` — not checksummed; the walk skips `[+8, +0xc)`.
    pub flags: i32,
    /// `+0x0c`, `size` bytes.
    pub ptr: [u8; 96],
}

/// A freshly allocated collision block.
pub open spec fn fresh_coll_block(b: CollBlock) -> bool {
    &&& b.bits == 0x300
    &&& b.size == 0x60
    &&& b.flags == 1
    &&& forall|i: int| 0 <= i < 96 ==> b.ptr@[i] == 0
}

impl CollBlock {
    /// The block `World::new_coll_block` allocates.
    pub fn fresh() -> (r: Self)
        ensures
            fresh_coll_block(r),
    {
        CollBlock { bits: 0x300, size: 0x60, flags: 1, ptr: [0u8; 96] }
    }
}

impl Default for CollBlock {
    fn default() -> (r: Self)
        ensures
            fresh_coll_block(r),
    {
        CollBlock::fresh()
    }
}

// ---------------------------------------------------------------------------------------
// Checksummed dynamic arrays
// ---------------------------------------------------------------------------------------

/// A `SimpleArray<T>` / `Array<T>` as the checksum sees it: `walk(&length, 4)`, then, for
/// a non-empty array, capacity, `increment : short`, `flags & ~0x40`, and the elements.
#[derive(Clone, PartialEq, Eq, Debug, Default)]
pub struct WalkedArray<T> {
    pub items: Vec<T>,
    /// The engine's `size` (capacity) field. Checksummed.
    pub capacity: i32,
    /// The engine's `increment : short`.
    pub increment: i16,
    /// The engine's `flags : unsigned char`; bit `0x40` is cleared before hashing.
    pub flags: u8,
}

impl<T> WalkedArray<T> {
    /// An empty array with a zero header.
    pub fn new() -> (r: Self)
        ensures
            r.items@.len() == 0,
            r.capacity == 0,
            r.increment == 0,
            r.flags == 0,
    {
        WalkedArray { items: Vec::new(), capacity: 0, increment: 0, flags: 0 }
    }

    /// The element count.
    pub fn len(&self) -> (r: usize)
        ensures
            r == self.items@.len(),
    {
        self.items.len()
    }

    /// True when there are no elements.
    pub fn is_empty(&self) -> (r: bool)
        ensures
            r == (self.items@.len() == 0),
    {
        self.items.len() == 0
    }
}

/// The four `Terrain` members that sit inside the `world` checksum channel (sections
/// 10–13, through `MiscAccess::terrain` at `+0x4b80`, `+0x4b9c`, `+0x4bb8`, `+0x4bd4`).
#[derive(Clone, PartialEq, Eq, Debug, Default)]
pub struct TerrainSync {
    /// `Terrain::halfland_locs` — `Array<WCoordData>`, `(x, y)` `WCoord` pairs.
    pub halfland_locs: WalkedArray<(i32, i32)>,
    /// `Terrain::halfland_types`
    pub halfland_types: WalkedArray<i32>,
    /// `Terrain::halfland_subtypes`
    pub halfland_subtypes: WalkedArray<i32>,
    /// `Terrain::nuke_hits`
    pub nuke_hits: WalkedArray<i32>,
}

impl TerrainSync {
    /// Four empty arrays.
    pub fn new() -> (r: Self)
        ensures
            r.halfland_locs.items@.len() == 0 && r.halfland_locs.capacity == 0
                && r.halfland_locs.increment == 0 && r.halfland_locs.flags == 0,
            r.halfland_types.items@.len() == 0 && r.halfland_types.capacity == 0
                && r.halfland_types.increment == 0 && r.halfland_types.flags == 0,
            r.halfland_subtypes.items@.len() == 0 && r.halfland_subtypes.capacity == 0
                && r.halfland_subtypes.increment == 0 && r.halfland_subtypes.flags == 0,
            r.nuke_hits.items@.len() == 0 && r.nuke_hits.capacity == 0
                && r.nuke_hits.increment == 0 && r.nuke_hits.flags == 0,
    {
        TerrainSync {
            halfland_locs: WalkedArray::new(),
            halfland_types: WalkedArray::new(),
            halfland_subtypes: WalkedArray::new(),
            nuke_hits: WalkedArray::new(),
        }
    }
}

} // verus!
