//! The map: its configuration, the 3D-to-1D tile indexing scheme, and
//! the tile grid both the authoritative world and every per-player
//! replica are stored in.

use crate::tile::{
    spec_structure_from_char, spec_tile_type_from_char, Tile, TileStructure, TileType,
};
use vstd::arithmetic::div_mod::{
    lemma_div_is_ordered, lemma_div_multiples_vanish, lemma_fundamental_div_mod_converse,
    lemma_mod_multiples_basic, lemma_small_mod,
};
use vstd::prelude::*;
use vstd::string::StrSliceExecFns;

verus! {

/// The number of stacked tile layers: ground/water below, air above.
pub const MAP_HEIGHT: u16 = 2;

/// Size of the map of a single game, in tiles per layer.
#[derive(Clone, Copy, Debug, PartialEq, Eq, Structural)]
pub struct MapConfig {
    /// The number of tiles in width the map is.
    pub size_width: u16,
    /// The number of tiles in height the map is.
    pub size_height: u16,
}

impl MapConfig {
    /// A configuration describes a real map: both extents are positive.
    pub open spec fn wf(self) -> bool {
        self.size_width > 0 && self.size_height > 0
    }

    /// Total number of tile slots over both layers.
    pub open spec fn spec_tile_count(self) -> int {
        2 * self.size_width * self.size_height
    }
}

/// The 1D storage slot of 3D tile coordinates:
/// `layer * width * height + row * width + column`.
pub open spec fn spec_tile_index(w: int, h: int, q: int, r: int, z: int) -> int {
    z * w * h + r * w + q
}

/// The coordinates `(q, r, z)` lie inside the declared map bounds.
pub open spec fn spec_in_bounds(cfg: MapConfig, q: int, r: int, z: int) -> bool {
    &&& 0 <= q < cfg.size_width
    &&& 0 <= r < cfg.size_height
    &&& 0 <= z < MAP_HEIGHT
}

/// The layer a 1D storage slot falls in.
pub open spec fn spec_index_z(w: int, h: int, index: int) -> int {
    index / (w * h)
}

/// The row a 1D storage slot falls in.
pub open spec fn spec_index_r(w: int, h: int, index: int) -> int {
    (index % (w * h)) / w
}

/// The column a 1D storage slot falls in.
pub open spec fn spec_index_q(w: int, h: int, index: int) -> int {
    (index % (w * h)) % w
}

/// Indexing is a bijection: decomposing the slot of in-bounds
/// coordinates gives those coordinates back.
pub proof fn lemma_tile_index_round_trip(w: int, h: int, q: int, r: int, z: int)
    requires
        0 <= q < w,
        0 <= r < h,
        0 <= z,
    ensures
        spec_index_z(w, h, spec_tile_index(w, h, q, r, z)) == z,
        spec_index_r(w, h, spec_tile_index(w, h, q, r, z)) == r,
        spec_index_q(w, h, spec_tile_index(w, h, q, r, z)) == q,
{
    let index = spec_tile_index(w, h, q, r, z);
    assert(0 <= r * w + q < w * h) by (nonlinear_arith)
        requires
            0 <= q < w,
            0 <= r < h,
    ;
    assert(z * w * h + r * w + q == z * (w * h) + (r * w + q)) by (nonlinear_arith);
    lemma_fundamental_div_mod_converse(index, w * h, z, r * w + q);
    lemma_fundamental_div_mod_converse(r * w + q, w, r, q);
}

/// Two distinct in-bounds coordinate triples never share a storage slot.
pub proof fn lemma_tile_index_injective(w: int, h: int, q1: int, r1: int, z1: int, q2: int, r2: int, z2: int)
    requires
        0 <= q1 < w,
        0 <= r1 < h,
        0 <= z1,
        0 <= q2 < w,
        0 <= r2 < h,
        0 <= z2,
        spec_tile_index(w, h, q1, r1, z1) == spec_tile_index(w, h, q2, r2, z2),
    ensures
        q1 == q2 && r1 == r2 && z1 == z2,
{
    lemma_tile_index_round_trip(w, h, q1, r1, z1);
    lemma_tile_index_round_trip(w, h, q2, r2, z2);
}

/// An in-bounds slot number stays below the total tile count.
pub proof fn lemma_tile_index_bounds(w: int, h: int, q: int, r: int, z: int)
    requires
        0 <= q < w,
        0 <= r < h,
        0 <= z < 2,
    ensures
        0 <= spec_tile_index(w, h, q, r, z) < 2 * w * h,
{
    assert(0 <= z * w * h + r * w + q < 2 * w * h) by (nonlinear_arith)
        requires
            0 <= q < w,
            0 <= r < h,
            0 <= z < 2,
    ;
}

/// Map in-bounds 3D tile coordinates to their 1D storage slot.
pub fn tile_qrz_to_index(map_conf: &MapConfig, q: i32, r: i32, z: i32) -> (index: usize)
    requires
        spec_in_bounds(*map_conf, q as int, r as int, z as int),
        map_conf.spec_tile_count() <= usize::MAX,
    ensures
        index == spec_tile_index(
            map_conf.size_width as int,
            map_conf.size_height as int,
            q as int,
            r as int,
            z as int,
        ),
        index < map_conf.spec_tile_count(),
{
    let w = map_conf.size_width as usize;
    let h = map_conf.size_height as usize;
    proof {
        lemma_tile_index_bounds(w as int, h as int, q as int, r as int, z as int);
        assert(z as int * (w as int * h as int) == z as int * w as int * h as int) by (
        nonlinear_arith);
        assert(0 <= r as int * w as int <= (h as int - 1) * w as int) by (nonlinear_arith)
            requires
                0 <= r < h,
                w as int > 0,
        ;
        assert(w as int * h as int <= 2 * w as int * h as int) by (nonlinear_arith)
            requires
                w as int > 0,
                h as int > 0,
        ;
        assert((h as int - 1) * w as int + w as int == h as int * w as int) by (nonlinear_arith);
    }
    (z as usize) * (w * h) + (r as usize) * w + (q as usize)
}

/// Map a 1D storage slot back to the 3D tile coordinates it stores.
pub fn index_to_tile_qrz(map_conf: &MapConfig, index: usize) -> (qrz: (u16, u16, u16))
    requires
        map_conf.wf(),
        index < map_conf.spec_tile_count(),
    ensures
        qrz.0 == spec_index_q(map_conf.size_width as int, map_conf.size_height as int, index as int),
        qrz.1 == spec_index_r(map_conf.size_width as int, map_conf.size_height as int, index as int),
        qrz.2 == spec_index_z(map_conf.size_width as int, map_conf.size_height as int, index as int),
        spec_in_bounds(*map_conf, qrz.0 as int, qrz.1 as int, qrz.2 as int),
        spec_tile_index(
            map_conf.size_width as int,
            map_conf.size_height as int,
            qrz.0 as int,
            qrz.1 as int,
            qrz.2 as int,
        ) == index,
{
    let w = map_conf.size_width as usize;
    let h = map_conf.size_height as usize;
    proof {
        assert(0 < w as int * h as int <= 0xffff_ffff) by (nonlinear_arith)
            requires
                0 < w <= 0xffff,
                0 < h <= 0xffff,
        ;
    }
    let wh: usize = w * h;
    let z = index / wh;
    let rem = index % wh;
    let r = rem / w;
    let q = rem % w;
    proof {
        let wi = w as int;
        let hi = h as int;
        let idx = index as int;
        assert(z < 2) by {
            assert(2 * (wi * hi) == 2 * wi * hi) by (nonlinear_arith);
            lemma_fundamental_div_mod_converse(2 * (wi * hi) - 1, wi * hi, 1, wi * hi - 1);
            lemma_div_is_ordered(idx, 2 * (wi * hi) - 1, wi * hi);
        }
        assert(rem < wi * hi);
        assert(r < hi) by {
            assert(hi * wi - 1 == (hi - 1) * wi + (wi - 1) && hi * wi == wi * hi) by (
            nonlinear_arith);
            lemma_fundamental_div_mod_converse(hi * wi - 1, wi, hi - 1, wi - 1);
            lemma_div_is_ordered(rem as int, hi * wi - 1, wi);
        }
        assert(q < wi);
        // Recompose: z * wh + rem == index, rem == r * w + q.
        vstd::arithmetic::div_mod::lemma_fundamental_div_mod(idx, wi * hi);
        vstd::arithmetic::div_mod::lemma_fundamental_div_mod(rem as int, wi);
        assert((wi * hi) * (idx / (wi * hi)) == (idx / (wi * hi)) * wi * hi) by (nonlinear_arith);
        assert(wi * (rem as int / wi) == (rem as int / wi) * wi) by (nonlinear_arith);
    }
    (q as u16, r as u16, z as u16)
}

/// A full tile grid: one `Tile` per storage slot, two layers deep.
#[derive(Clone, Debug, PartialEq, Eq)]
pub struct TileMap {
    pub tiles: Vec<Tile>,
}

impl TileMap {
    /// The grid matches its configuration: one slot per coordinate.
    pub open spec fn wf(self, cfg: MapConfig) -> bool {
        self.tiles@.len() == cfg.spec_tile_count()
    }

    /// The tile stored at in-bounds coordinates.
    pub open spec fn spec_tile(self, cfg: MapConfig, q: int, r: int, z: int) -> Tile {
        self.tiles@[spec_tile_index(cfg.size_width as int, cfg.size_height as int, q, r, z)]
    }

    /// Utility for turning qrz coordinates into the index of the 1D
    /// storage behind the map.
    pub fn tile_qrz_to_index(map_conf: &MapConfig, q: i32, r: i32, z: i32) -> (index: usize)
        requires
            spec_in_bounds(*map_conf, q as int, r as int, z as int),
            map_conf.spec_tile_count() <= usize::MAX,
        ensures
            index == spec_tile_index(
                map_conf.size_width as int,
                map_conf.size_height as int,
                q as int,
                r as int,
                z as int,
            ),
            index < map_conf.spec_tile_count(),
    {
        tile_qrz_to_index(map_conf, q, r, z)
    }

    /// Utility for turning an index of the 1D storage behind the map
    /// into qrz coordinates.
    pub fn index_to_tile_qrz(map_conf: &MapConfig, index: usize) -> (qrz: (u16, u16, u16))
        requires
            map_conf.wf(),
            index < map_conf.spec_tile_count(),
        ensures
            spec_in_bounds(*map_conf, qrz.0 as int, qrz.1 as int, qrz.2 as int),
            spec_tile_index(
                map_conf.size_width as int,
                map_conf.size_height as int,
                qrz.0 as int,
                qrz.1 as int,
                qrz.2 as int,
            ) == index,
    {
        index_to_tile_qrz(map_conf, index)
    }

    /// Read the tile at in-bounds coordinates.
    pub fn get(&self, cfg: &MapConfig, q: u16, r: u16, z: u16) -> (t: Tile)
        requires
            self.wf(*cfg),
            spec_in_bounds(*cfg, q as int, r as int, z as int),
        ensures
            t == self.spec_tile(*cfg, q as int, r as int, z as int),
    {
        let n = self.tiles.len();
        proof {
            lemma_tile_index_bounds(
                cfg.size_width as int,
                cfg.size_height as int,
                q as int,
                r as int,
                z as int,
            );
        }
        let index = tile_qrz_to_index(cfg, q as i32, r as i32, z as i32);
        self.tiles[index]
    }

    /// Overwrite the tile at in-bounds coordinates, leaving every other
    /// slot as it was.
    pub fn set(&mut self, cfg: &MapConfig, q: u16, r: u16, z: u16, tile: Tile)
        requires
            old(self).wf(*cfg),
            spec_in_bounds(*cfg, q as int, r as int, z as int),
        ensures
            final(self).wf(*cfg),
            final(self).tiles@ == old(self).tiles@.update(
                spec_tile_index(cfg.size_width as int, cfg.size_height as int, q as int, r as int, z as int),
                tile,
            ),
    {
        let n = self.tiles.len();
        proof {
            lemma_tile_index_bounds(
                cfg.size_width as int,
                cfg.size_height as int,
                q as int,
                r as int,
                z as int,
            );
        }
        let index = tile_qrz_to_index(cfg, q as i32, r as i32, z as i32);
        self.tiles.set(index, tile);
    }

    /// A grid with every slot set to the unobserved fog cell: the
    /// starting state of a player's replica.
    pub fn new_fog(cfg: &MapConfig) -> (map: TileMap)
        requires
            cfg.spec_tile_count() <= usize::MAX,
        ensures
            map.wf(*cfg),
            forall|i: int|
                0 <= i < map.tiles@.len() ==> map.tiles@[i] == crate::tile::spec_fog_tile(),
    {
        let w = cfg.size_width as usize;
        let h = cfg.size_height as usize;
        proof {
            assert(2 * (w * h) == 2 * w as int * h as int) by (nonlinear_arith);
        }
        let total: usize = 2 * (w * h);
        let mut tiles: Vec<Tile> = Vec::new();
        let mut i: usize = 0;
        while i < total
            invariant
                i <= total,
                tiles@.len() == i,
                forall|j: int| 0 <= j < i ==> tiles@[j] == crate::tile::spec_fog_tile(),
            decreases total - i,
        {
            tiles.push(Tile::fog());
            i = i + 1;
        }
        TileMap { tiles }
    }

    /// The tile a freshly generated map holds at each coordinate:
    /// open ocean on the ground layer, clear sky above, nothing built.
    pub open spec fn spec_generated_tile(z: int) -> Tile {
        if z == 0 {
            Tile { tile_type: TileType::Ocean, structure: TileStructure::Empty }
        } else {
            Tile { tile_type: TileType::ClearSky, structure: TileStructure::Empty }
        }
    }

    /// Procedurally generate the authoritative starting map: ocean
    /// below, clear sky above.
    pub fn generate(cfg: &MapConfig) -> (map: TileMap)
        requires
            cfg.wf(),
            cfg.spec_tile_count() <= usize::MAX,
        ensures
            map.wf(*cfg),
            forall|q: int, r: int, z: int|
                spec_in_bounds(*cfg, q, r, z) ==> #[trigger] map.spec_tile(*cfg, q, r, z)
                    == Self::spec_generated_tile(z),
    {
        let w = cfg.size_width as usize;
        let h = cfg.size_height as usize;
        proof {
            assert(2 * (w * h) == 2 * w as int * h as int && 0 <= w * h) by (nonlinear_arith);
        }
        let wh: usize = w * h;
        let total: usize = 2 * wh;
        let mut tiles: Vec<Tile> = Vec::new();
        let mut i: usize = 0;
        while i < total
            invariant
                i <= total,
                wh == cfg.size_width as int * cfg.size_height as int,
                total == 2 * wh,
                tiles@.len() == i,
                forall|j: int|
                    0 <= j < i ==> tiles@[j] == Self::spec_generated_tile(if j < wh {
                        0int
                    } else {
                        1int
                    }),
            decreases total - i,
        {
            if i < wh {
                tiles.push(Tile { tile_type: TileType::Ocean, structure: TileStructure::Empty });
            } else {
                tiles.push(Tile { tile_type: TileType::ClearSky, structure: TileStructure::Empty });
            }
            i = i + 1;
        }
        let map = TileMap { tiles };
        proof {
            let wi = cfg.size_width as int;
            let hi = cfg.size_height as int;
            assert forall|q: int, r: int, z: int| spec_in_bounds(*cfg, q, r, z) implies #[trigger] map
                .spec_tile(*cfg, q, r, z) == Self::spec_generated_tile(z) by {
                lemma_tile_index_bounds(wi, hi, q, r, z);
                let idx = spec_tile_index(wi, hi, q, r, z);
                if z == 0 {
                    assert(idx < wi * hi) by (nonlinear_arith)
                        requires
                            idx == spec_tile_index(wi, hi, q, r, 0),
                            0 <= q < wi,
                            0 <= r < hi,
                    ;
                } else {
                    assert(idx >= wi * hi) by (nonlinear_arith)
                        requires
                            idx == spec_tile_index(wi, hi, q, r, z),
                            0 <= q < wi,
                            0 <= r < hi,
                            z == 1,
                    ;
                }
            }
        }
        map
    }
}

/// Why a map file was rejected.
#[derive(Clone, Copy, Debug, PartialEq, Eq, Structural)]
pub enum MapParseError {
    /// The file holds no complete newline-terminated line of text.
    EmptyMap,
    /// Lines differ in length, the final newline is missing, or stray
    /// text follows the last line.
    UnequalLineLengths,
    /// The line count does not split into three equal blocks.
    LineCountNotDivisibleByThree,
    /// Width or height exceeds what a map configuration can hold.
    MapTooLarge,
    /// A character that encodes neither terrain nor structure.
    UnrecognizedCharacter,
}

/// `s` is a rectangular character grid: `n` lines, each of `w`
/// characters followed by one newline.
pub open spec fn spec_rect_grid(s: Seq<char>, w: int, n: int) -> bool {
    &&& s.len() == n * (w + 1)
    &&& forall|i: int| 0 <= i < s.len() ==> ((#[trigger] s[i] == '\n') <==> (i % (w + 1) == w))
}

/// The character at line `l`, column `c` of a rectangular grid of
/// width `w`.
pub open spec fn spec_grid_char(s: Seq<char>, w: int, l: int, c: int) -> char {
    s[l * (w + 1) + c]
}

/// `s` parses as a map file of width `w` and height `h`: a rectangle
/// of three `h`-line blocks — ground terrain, air terrain, structures —
/// every character of which is recognised.
pub open spec fn spec_grid_ok(s: Seq<char>, w: int, h: int) -> bool {
    &&& 0 < w <= u16::MAX
    &&& 0 < h <= u16::MAX
    &&& spec_rect_grid(s, w, 3 * h)
    &&& forall|l: int, c: int|
        0 <= l < 2 * h && 0 <= c < w ==> spec_tile_type_from_char(
            #[trigger] spec_grid_char(s, w, l, c),
        ) is Some
    &&& forall|l: int, c: int|
        2 * h <= l < 3 * h && 0 <= c < w ==> spec_structure_from_char(
            #[trigger] spec_grid_char(s, w, l, c),
        ) is Some
}

/// Some width and height parse the grid.
pub open spec fn spec_parseable(s: Seq<char>) -> bool {
    exists|w: int, h: int| spec_grid_ok(s, w, h)
}

/// The tile a valid map file stores at in-bounds coordinates: terrain
/// from line `z * h + r`, and for the ground layer a structure from
/// line `2 * h + r`.
pub open spec fn spec_parsed_tile(s: Seq<char>, w: int, h: int, q: int, r: int, z: int) -> Tile {
    Tile {
        tile_type: spec_tile_type_from_char(spec_grid_char(s, w, z * h + r, q))->0,
        structure: if z == 0 {
            spec_structure_from_char(spec_grid_char(s, w, 2 * h + r, q))->0
        } else {
            TileStructure::Empty
        },
    }
}

/// A rectangular grid with at least one line has its first newline
/// exactly at the line width.
proof fn lemma_rect_first_newline(s: Seq<char>, w: int, n: int)
    requires
        spec_rect_grid(s, w, n),
        n > 0,
        w >= 0,
    ensures
        w < s.len(),
        s[w] == '\n',
        forall|i: int| 0 <= i < w ==> s[i] != '\n',
{
    assert(n * (w + 1) >= 1 * (w + 1)) by (nonlinear_arith)
        requires
            n >= 1,
            w + 1 > 0,
    ;
    lemma_small_mod(w as nat, (w + 1) as nat);
    assert forall|i: int| 0 <= i < w implies s[i] != '\n' by {
        lemma_small_mod(i as nat, (w + 1) as nat);
    }
}

/// If a grid parses at all, it parses with the width given by its
/// first newline.
proof fn lemma_parse_forced(s: Seq<char>, p: int)
    requires
        spec_parseable(s),
        0 <= p < s.len(),
        s[p] == '\n',
        forall|i: int| 0 <= i < p ==> s[i] != '\n',
    ensures
        exists|h: int| spec_grid_ok(s, p, h),
{
    let (w, h) = choose|w: int, h: int| spec_grid_ok(s, w, h);
    lemma_rect_first_newline(s, w, 3 * h);
    if w < p {
        assert(s[w] == '\n');
        assert(false);
    }
    if w > p {
        assert(s[p] != '\n');
        assert(false);
    }
    assert(spec_grid_ok(s, p, h));
}

/// Collect the characters of a string into a vector.
fn collect_chars(text: &str) -> (chars: Vec<char>)
    ensures
        chars@ == text@,
{
    let len = text.unicode_len();
    let mut chars: Vec<char> = Vec::new();
    let mut i: usize = 0;
    while i < len
        invariant
            i <= len,
            len == text@.len(),
            chars@ == text@.subrange(0, i as int),
        decreases len - i,
    {
        let c = text.get_char(i);
        chars.push(c);
        proof {
            assert(chars@ =~= text@.subrange(0, i + 1 as int));
        }
        i = i + 1;
    }
    proof {
        assert(chars@ =~= text@);
    }
    chars
}

/// The index of the first newline, if any.
fn find_first_newline(chars: &Vec<char>) -> (found: Option<usize>)
    ensures
        match found {
            Some(p) => p < chars@.len() && chars@[p as int] == '\n' && forall|i: int|
                0 <= i < p ==> chars@[i] != '\n',
            None => forall|i: int| 0 <= i < chars@.len() ==> chars@[i] != '\n',
        },
{
    let mut p: usize = 0;
    while p < chars.len()
        invariant
            p <= chars@.len(),
            forall|i: int| 0 <= i < p ==> chars@[i] != '\n',
        decreases chars@.len() - p,
    {
        if chars[p] == '\n' {
            return Some(p);
        }
        p = p + 1;
    }
    None
}

/// Parse the textual map format: three equal blocks of lines — ground
/// terrain, air terrain, structures — each character one tile. Returns
/// the map configuration and the populated authoritative grid, or the
/// first reason the text is not a well-formed map.
pub fn parse_map(text: &str) -> (res: Result<(MapConfig, TileMap), MapParseError>)
    ensures
        match res {
            Ok((cfg, map)) => {
                &&& cfg.wf()
                &&& map.wf(cfg)
                &&& spec_grid_ok(text@, cfg.size_width as int, cfg.size_height as int)
                &&& forall|q: int, r: int, z: int|
                    spec_in_bounds(cfg, q, r, z) ==> #[trigger] map.spec_tile(cfg, q, r, z)
                        == spec_parsed_tile(
                        text@,
                        cfg.size_width as int,
                        cfg.size_height as int,
                        q,
                        r,
                        z,
                    )
            },
            Err(_) => !spec_parseable(text@),
        },
{
    let ghost s = text@;
    let chars = collect_chars(text);
    let len = chars.len();

    // The first newline fixes the only possible line width.
    let w = match find_first_newline(&chars) {
        Some(p) => p,
        None => {
            proof {
                if spec_parseable(s) {
                    let (w0, h0) = choose|w0: int, h0: int| spec_grid_ok(s, w0, h0);
                    lemma_rect_first_newline(s, w0, 3 * h0);
                }
            }
            return Err(MapParseError::EmptyMap);
        },
    };
    if w == 0 || w > 65535 {
        proof {
            if spec_parseable(s) {
                lemma_parse_forced(s, w as int);
                let h0 = choose|h0: int| spec_grid_ok(s, w as int, h0);
            }
        }
        return if w == 0 {
            Err(MapParseError::EmptyMap)
        } else {
            Err(MapParseError::MapTooLarge)
        };
    }

    // Every line must be exactly `w` characters plus its newline.
    if len % (w + 1) != 0 {
        proof {
            if spec_parseable(s) {
                lemma_parse_forced(s, w as int);
                let h0 = choose|h0: int| spec_grid_ok(s, w as int, h0);
                lemma_mod_multiples_basic(3 * h0, w as int + 1);
            }
        }
        return Err(MapParseError::UnequalLineLengths);
    }
    let n = len / (w + 1);
    proof {
        vstd::arithmetic::div_mod::lemma_fundamental_div_mod(len as int, w as int + 1);
        assert((w as int + 1) * (len as int / (w as int + 1)) == (len as int / (w as int + 1)) * (
        w as int + 1)) by (nonlinear_arith);
    }

    let mut i: usize = 0;
    while i < len
        invariant
            i <= len,
            len == s.len(),
            chars@ == s,
            s == text@,
            0 < w < len,
            s[w as int] == '\n',
            forall|j: int| 0 <= j < w ==> s[j] != '\n',
            forall|j: int| 0 <= j < i ==> ((#[trigger] s[j] == '\n') <==> (j % (w as int + 1) == w as int)),
        decreases len - i,
    {
        let is_newline = chars[i] == '\n';
        let at_line_end = i % (w + 1) == w;
        if is_newline != at_line_end {
            proof {
                if spec_parseable(s) {
                    lemma_parse_forced(s, w as int);
                    let h0 = choose|h0: int| spec_grid_ok(s, w as int, h0);
                    assert(spec_rect_grid(s, w as int, 3 * h0));
                    assert((s[i as int] == '\n') <==> (i as int % (w as int + 1) == w as int));
                    assert(false);
                }
            }
            return Err(MapParseError::UnequalLineLengths);
        }
        i = i + 1;
    }
    assert(spec_rect_grid(s, w as int, n as int));

    if n % 3 != 0 {
        proof {
            if spec_parseable(s) {
                lemma_parse_forced(s, w as int);
                let h0 = choose|h0: int| spec_grid_ok(s, w as int, h0);
                assert(s.len() == (3 * h0) * (w as int + 1));
                assert((3 * h0) * (w as int + 1) == (w as int + 1) * (3 * h0)) by (nonlinear_arith);
                lemma_div_multiples_vanish(3 * h0, w as int + 1);
                lemma_mod_multiples_basic(h0, 3);
                assert(h0 * 3 == 3 * h0) by (nonlinear_arith);
            }
        }
        return Err(MapParseError::LineCountNotDivisibleByThree);
    }
    let h = n / 3;
    proof {
        vstd::arithmetic::div_mod::lemma_fundamental_div_mod(n as int, 3);
        assert(3 * (n as int / 3) == (n as int / 3) * 3) by (nonlinear_arith);
    }
    if h == 0 || h > 65535 {
        proof {
            if spec_parseable(s) {
                lemma_parse_forced(s, w as int);
                let h0 = choose|h0: int| spec_grid_ok(s, w as int, h0);
                assert(s.len() == (3 * h0) * (w as int + 1));
                assert((3 * h0) * (w as int + 1) == (w as int + 1) * (3 * h0)) by (nonlinear_arith);
                lemma_div_multiples_vanish(3 * h0, w as int + 1);
                assert(n == 3 * h0);
                lemma_div_multiples_vanish(h0, 3);
                assert(3 * h0 == h0 * 3) by (nonlinear_arith);
            }
        }
        return if h == 0 {
            Err(MapParseError::EmptyMap)
        } else {
            Err(MapParseError::MapTooLarge)
        };
    }

    // Decode the two terrain blocks, line by line.
    let mut terrain: Vec<TileType> = Vec::new();
    let mut l: usize = 0;
    while l < 2 * h
        invariant
            l <= 2 * h,
            chars@ == s,
            s == text@,
            len == s.len(),
            spec_rect_grid(s, w as int, n as int),
            n == 3 * h,
            0 < w <= 65535,
            0 < h <= 65535,
            w < len,
            s[w as int] == '\n',
            forall|j: int| 0 <= j < w ==> s[j] != '\n',
            terrain@.len() == l * w,
            forall|l2: int, c2: int|
                0 <= l2 && 0 <= c2 < w && l2 * w + c2 < terrain@.len() ==> {
                    &&& spec_tile_type_from_char(#[trigger] spec_grid_char(s, w as int, l2, c2)) is Some
                    &&& terrain@[l2 * w + c2] == spec_tile_type_from_char(
                        spec_grid_char(s, w as int, l2, c2),
                    )->0
                },
        decreases 2 * h - l,
    {
        let mut c: usize = 0;
        while c < w
            invariant
                c <= w,
                l < 2 * h,
                chars@ == s,
                s == text@,
                len == s.len(),
                spec_rect_grid(s, w as int, n as int),
                n == 3 * h,
                0 < w <= 65535,
                0 < h <= 65535,
                w < len,
                s[w as int] == '\n',
                forall|j: int| 0 <= j < w ==> s[j] != '\n',
                terrain@.len() == l * w + c,
                forall|l2: int, c2: int|
                    0 <= l2 && 0 <= c2 < w && l2 * w + c2 < terrain@.len() ==> {
                        &&& spec_tile_type_from_char(#[trigger] spec_grid_char(s, w as int, l2, c2)) is Some
                        &&& terrain@[l2 * w + c2] == spec_tile_type_from_char(
                            spec_grid_char(s, w as int, l2, c2),
                        )->0
                    },
            decreases w - c,
        {
            proof {
                lemma_grid_char_index(s, w as int, n as int, l as int, c as int);
            }
            let ch = chars[l * (w + 1) + c];
            match TileType::from_char(ch) {
                Ok(t) => {
                    terrain.push(t);
                    proof {
                        lemma_flat_pair_unique(l as int, c as int, w as int);
                        assert forall|l2: int, c2: int|
                            0 <= l2 && 0 <= c2 < w && l2 * w + c2 < terrain@.len() implies {
                            &&& spec_tile_type_from_char(
                                #[trigger] spec_grid_char(s, w as int, l2, c2),
                            ) is Some
                            &&& terrain@[l2 * w + c2] == spec_tile_type_from_char(
                                spec_grid_char(s, w as int, l2, c2),
                            )->0
                        } by {
                            if l2 * w + c2 == terrain@.len() - 1 {
                                lemma_flat_pair_unique2(l as int, c as int, l2, c2, w as int);
                            }
                        }
                    }
                },
                Err(_) => {
                    proof {
                        if spec_parseable(s) {
                            lemma_parse_forced(s, w as int);
                            let h0 = choose|h0: int| spec_grid_ok(s, w as int, h0);
                            lemma_grid_same_height(s, w as int, n as int, h0, h as int);
                            assert(ch == spec_grid_char(s, w as int, l as int, c as int));
                            assert(spec_tile_type_from_char(
                                spec_grid_char(s, w as int, l as int, c as int),
                            ) is Some);
                            assert(false);
                        }
                    }
                    return Err(MapParseError::UnrecognizedCharacter);
                },
            }
            c = c + 1;
        }
        proof {
            assert((l as int + 1) * w == l as int * w + w) by (nonlinear_arith);
        }
        l = l + 1;
    }

    // Decode the structure block, line by line.
    let mut structures: Vec<TileStructure> = Vec::new();
    let mut sl: usize = 0;
    while sl < h
        invariant
            sl <= h,
            chars@ == s,
            s == text@,
            len == s.len(),
            spec_rect_grid(s, w as int, n as int),
            n == 3 * h,
            0 < w <= 65535,
            0 < h <= 65535,
            w < len,
            s[w as int] == '\n',
            forall|j: int| 0 <= j < w ==> s[j] != '\n',
            structures@.len() == sl * w,
            forall|l2: int, c2: int|
                0 <= l2 && 0 <= c2 < w && l2 * w + c2 < structures@.len() ==> {
                    &&& spec_structure_from_char(
                        #[trigger] spec_grid_char(s, w as int, 2 * h + l2, c2),
                    ) is Some
                    &&& structures@[l2 * w + c2] == spec_structure_from_char(
                        spec_grid_char(s, w as int, 2 * h + l2, c2),
                    )->0
                },
        decreases h - sl,
    {
        let mut c: usize = 0;
        while c < w
            invariant
                c <= w,
                sl < h,
                chars@ == s,
                s == text@,
                len == s.len(),
                spec_rect_grid(s, w as int, n as int),
                n == 3 * h,
                0 < w <= 65535,
                0 < h <= 65535,
                w < len,
                s[w as int] == '\n',
                forall|j: int| 0 <= j < w ==> s[j] != '\n',
                structures@.len() == sl * w + c,
                forall|l2: int, c2: int|
                    0 <= l2 && 0 <= c2 < w && l2 * w + c2 < structures@.len() ==> {
                        &&& spec_structure_from_char(
                            #[trigger] spec_grid_char(s, w as int, 2 * h + l2, c2),
                        ) is Some
                        &&& structures@[l2 * w + c2] == spec_structure_from_char(
                            spec_grid_char(s, w as int, 2 * h + l2, c2),
                        )->0
                    },
            decreases w - c,
        {
            proof {
                lemma_grid_char_index(s, w as int, n as int, (2 * h + sl) as int, c as int);
            }
            let ch = chars[(2 * h + sl) * (w + 1) + c];
            match TileStructure::from_char(ch) {
                Ok(st) => {
                    structures.push(st);
                    proof {
                        lemma_flat_pair_unique(sl as int, c as int, w as int);
                        assert forall|l2: int, c2: int|
                            0 <= l2 && 0 <= c2 < w && l2 * w + c2 < structures@.len() implies {
                            &&& spec_structure_from_char(
                                #[trigger] spec_grid_char(s, w as int, 2 * h + l2, c2),
                            ) is Some
                            &&& structures@[l2 * w + c2] == spec_structure_from_char(
                                spec_grid_char(s, w as int, 2 * h + l2, c2),
                            )->0
                        } by {
                            if l2 * w + c2 == structures@.len() - 1 {
                                lemma_flat_pair_unique2(sl as int, c as int, l2, c2, w as int);
                            }
                        }
                    }
                },
                Err(_) => {
                    proof {
                        if spec_parseable(s) {
                            lemma_parse_forced(s, w as int);
                            let h0 = choose|h0: int| spec_grid_ok(s, w as int, h0);
                            lemma_grid_same_height(s, w as int, n as int, h0, h as int);
                            assert(ch == spec_grid_char(s, w as int, (2 * h + sl) as int, c as int));
                            assert(spec_structure_from_char(
                                spec_grid_char(s, w as int, 2 * h as int + sl as int, c as int),
                            ) is Some);
                            assert(false);
                        }
                    }
                    return Err(MapParseError::UnrecognizedCharacter);
                },
            }
            c = c + 1;
        }
        proof {
            assert((sl as int + 1) * w == sl as int * w + w) by (nonlinear_arith);
        }
        sl = sl + 1;
    }

    // Assemble the grid: terrain in slot order, structures only on the
    // ground layer.
    let cfg = MapConfig { size_width: w as u16, size_height: h as u16 };
    proof {
        assert(0 < w as int * h as int <= 0xffff_ffff) by (nonlinear_arith)
            requires
                0 < w <= 0xffff,
                0 < h <= 0xffff,
        ;
        assert(2 * (w as int * h as int) == 2 * w as int * h as int) by (nonlinear_arith);
        assert(terrain@.len() == 2 * h as int * w as int);
        assert(2 * h as int * w as int == 2 * (w as int * h as int)) by (nonlinear_arith);
        assert(structures@.len() == h as int * w as int);
        assert(h as int * w as int == w as int * h as int) by (nonlinear_arith);
        assert(2 * (w as int * h as int) < (3 * h as int) * (w as int + 1)) by (nonlinear_arith)
            requires
                0 < w,
                0 < h,
        ;
    }
    let wh: usize = w * h;
    let total: usize = 2 * wh;
    let mut tiles: Vec<Tile> = Vec::new();
    let mut idx: usize = 0;
    while idx < total
        invariant
            idx <= total,
            wh == w as int * h as int,
            total == 2 * wh,
            terrain@.len() == total,
            structures@.len() == wh,
            tiles@.len() == idx,
            forall|j: int|
                0 <= j < idx ==> tiles@[j] == (Tile {
                    tile_type: terrain@[j],
                    structure: if j < wh {
                        structures@[j]
                    } else {
                        TileStructure::Empty
                    },
                }),
        decreases total - idx,
    {
        let structure = if idx < wh {
            structures[idx]
        } else {
            TileStructure::Empty
        };
        tiles.push(Tile { tile_type: terrain[idx], structure });
        idx = idx + 1;
    }
    let map = TileMap { tiles };
    proof {
        let wi = w as int;
        let hi = h as int;
        assert forall|l2: int, c2: int| 0 <= l2 < 2 * hi && 0 <= c2 < wi implies
            spec_tile_type_from_char(#[trigger] spec_grid_char(s, wi, l2, c2)) is Some by {
            assert(l2 * wi + c2 < 2 * hi * wi) by (nonlinear_arith)
                requires
                    0 <= l2 < 2 * hi,
                    0 <= c2 < wi,
            ;
        }
        assert forall|l2: int, c2: int| 2 * hi <= l2 < 3 * hi && 0 <= c2 < wi implies
            spec_structure_from_char(#[trigger] spec_grid_char(s, wi, l2, c2)) is Some by {
            let l3 = l2 - 2 * hi;
            assert(l3 * wi + c2 < hi * wi) by (nonlinear_arith)
                requires
                    0 <= l3 < hi,
                    0 <= c2 < wi,
            ;
            assert(spec_structure_from_char(spec_grid_char(s, wi, 2 * hi + l3, c2)) is Some);
        }
        assert(spec_grid_ok(s, wi, hi));
        assert forall|q: int, r: int, z: int| spec_in_bounds(cfg, q, r, z) implies #[trigger] map
            .spec_tile(cfg, q, r, z) == spec_parsed_tile(s, wi, hi, q, r, z) by {
            lemma_tile_index_bounds(wi, hi, q, r, z);
            let slot = spec_tile_index(wi, hi, q, r, z);
            assert(slot == (z * hi + r) * wi + q && (z == 0 ==> slot < wi * hi) && (z == 1
                ==> slot >= wi * hi)) by (nonlinear_arith)
                requires
                    slot == spec_tile_index(wi, hi, q, r, z),
                    0 <= q < wi,
                    0 <= r < hi,
                    0 <= z < 2,
            ;
            assert(terrain@[(z * hi + r) * wi + q] == spec_tile_type_from_char(
                #[trigger] spec_grid_char(s, wi, z * hi + r, q),
            )->0);
            if z == 0 {
                assert(slot == r * wi + q) by (nonlinear_arith)
                    requires
                        slot == spec_tile_index(wi, hi, q, r, 0),
                ;
                assert(structures@[r * wi + q] == spec_structure_from_char(
                    #[trigger] spec_grid_char(s, wi, 2 * hi + r, q),
                )->0);
            }
        }
    }
    Ok((cfg, map))
}

/// A flat line/column index stays within the block that line count
/// `n` and width `w` span, so the grid character lies inside the text.
proof fn lemma_grid_char_index(s: Seq<char>, w: int, n: int, l: int, c: int)
    requires
        spec_rect_grid(s, w, n),
        0 <= l < n,
        0 <= c < w,
    ensures
        0 <= l * (w + 1) + c < s.len(),
        spec_grid_char(s, w, l, c) == s[l * (w + 1) + c],
{
    assert(0 <= l * (w + 1) + c < n * (w + 1)) by (nonlinear_arith)
        requires
            0 <= l < n,
            0 <= c < w,
    ;
}

/// A flat pair index is strictly monotone in the line number.
proof fn lemma_flat_pair_unique(l: int, c: int, w: int)
    requires
        0 <= c < w,
        0 <= l,
    ensures
        l * w <= l * w + c < (l + 1) * w,
{
    assert(l * w + c < (l + 1) * w) by (nonlinear_arith)
        requires
            0 <= c < w,
    ;
}

/// Two line/column pairs with one flat index are the same pair.
proof fn lemma_flat_pair_unique2(l1: int, c1: int, l2: int, c2: int, w: int)
    requires
        0 <= c1 < w,
        0 <= c2 < w,
        0 <= l1,
        0 <= l2,
        l1 * w + c1 == l2 * w + c2,
    ensures
        l1 == l2 && c1 == c2,
{
    lemma_fundamental_div_mod_converse(l1 * w + c1, w, l1, c1);
    lemma_fundamental_div_mod_converse(l2 * w + c2, w, l2, c2);
}

/// Two parses of one rectangular grid agree on the height.
proof fn lemma_grid_same_height(s: Seq<char>, w: int, n: int, h0: int, h: int)
    requires
        spec_grid_ok(s, w, h0),
        spec_rect_grid(s, w, n),
        n == 3 * h,
        h > 0,
    ensures
        h0 == h,
{
    assert(s.len() == (3 * h0) * (w + 1));
    assert(s.len() == (3 * h) * (w + 1));
    assert((3 * h0) * (w + 1) == (3 * h) * (w + 1) ==> h0 == h) by (nonlinear_arith)
        requires
            w + 1 > 0,
    ;
}

} // verus!
