//! Tile arithmetic for the web-mercator tiling scheme.
//!
//! At zoom level `z` the world is a grid of `2^z x 2^z` square tiles of
//! `TILE_SIZE` pixels each. A `TileId` addresses one cell of that grid;
//! its pixel rectangle starts at `(x, y) * TILE_SIZE`. Longitude wraps
//! around the globe, so east/west neighbors wrap modulo the grid size,
//! while north/south neighbors outside the grid are invalid and pruned.

use vstd::arithmetic::div_mod::lemma_multiply_divide_lt;
use vstd::arithmetic::power2::{lemma2_to64, lemma_pow2_strictly_increases, pow2};
use vstd::bits::lemma_u32_shl_is_mul;
use vstd::prelude::*;

verus! {

/// Width and height, in pixels, of one square map tile.
pub const TILE_SIZE: u32 = 256;

/// Largest supported zoom level.
pub const MAX_ZOOM: u8 = 19;

/// Geographic coordinate, stored in tenths of microdegrees so that the
/// whole valid range of latitude and longitude fits exactly.
#[derive(Clone, Copy, Debug, PartialEq, Eq, Structural)]
pub struct Position {
    /// Latitude in tenths of microdegrees; 90 degrees is 900_000_000.
    pub lat_e7: i64,
    /// Longitude in tenths of microdegrees; 180 degrees is 1_800_000_000.
    pub lon_e7: i64,
}

impl Position {
    /// Latitude within [-90, 90] degrees, longitude within [-180, 180].
    pub open spec fn wf(self) -> bool {
        &&& -900_000_000 <= self.lat_e7 <= 900_000_000
        &&& -1_800_000_000 <= self.lon_e7 <= 1_800_000_000
    }

    /// Builds a position, rejecting coordinates outside the globe.
    pub fn new(lat_e7: i64, lon_e7: i64) -> (r: Option<Position>)
        ensures
            r is Some <==> (-900_000_000 <= lat_e7 <= 900_000_000 && -1_800_000_000 <= lon_e7
                <= 1_800_000_000),
            r matches Some(p) ==> p == (Position { lat_e7, lon_e7 }) && p.wf(),
    {
        if -900_000_000 <= lat_e7 && lat_e7 <= 900_000_000 && -1_800_000_000 <= lon_e7 && lon_e7
            <= 1_800_000_000 {
            Some(Position { lat_e7, lon_e7 })
        } else {
            None
        }
    }
}

/// Discrete zoom level of the map, kept within `[0, MAX_ZOOM]`.
#[derive(Clone, Copy, Debug, PartialEq, Eq, Structural)]
pub struct Zoom {
    level: u8,
}

impl Zoom {
    /// The zoom level as an integer.
    pub closed spec fn spec_level(self) -> u8 {
        self.level
    }

    /// The level lies within the supported range.
    pub open spec fn wf(self) -> bool {
        self.spec_level() <= MAX_ZOOM
    }

    /// The zoom a fresh map view starts at.
    pub closed spec fn default_spec() -> Zoom {
        Zoom { level: 16 }
    }

    /// Builds a zoom level, rejecting levels above `MAX_ZOOM`.
    pub fn new(level: u8) -> (r: Option<Zoom>)
        ensures
            r is Some <==> level <= MAX_ZOOM,
            r matches Some(z) ==> z.spec_level() == level && z.wf(),
    {
        if level <= MAX_ZOOM {
            Some(Zoom { level })
        } else {
            None
        }
    }

    /// The zoom level as an integer.
    pub fn level(&self) -> (l: u8)
        ensures
            l == self.spec_level(),
    {
        self.level
    }
}

impl Default for Zoom {
    /// A fresh view starts at a mid-range zoom.
    fn default() -> (z: Zoom)
        ensures
            z == Zoom::default_spec(),
            z.spec_level() == 16,
            z.wf(),
    {
        Zoom { level: 16 }
    }
}

/// Coordinates of a tile in the `2^zoom x 2^zoom` grid.
#[derive(Clone, Copy, Debug, PartialEq, Eq, Hash, Structural)]
pub struct TileId {
    /// Column, counted from the west; `0 <= x < 2^zoom`.
    pub x: u32,
    /// Row, counted from the north; `0 <= y < 2^zoom`.
    pub y: u32,
    /// Zoom level of the grid this tile belongs to.
    pub zoom: u8,
}

impl TileId {
    /// The coordinates lie inside the grid of this zoom level.
    pub open spec fn valid(self) -> bool {
        &&& self.zoom <= MAX_ZOOM
        &&& (self.x as nat) < pow2(self.zoom as nat)
        &&& (self.y as nat) < pow2(self.zoom as nat)
    }

    /// Pixel coordinate of this tile's top-left corner: `(x, y) * TILE_SIZE`.
    pub fn project(self) -> (p: (u32, u32))
        requires
            self.valid(),
        ensures
            p.0 == self.x * TILE_SIZE,
            p.1 == self.y * TILE_SIZE,
    {
        proof {
            lemma2_to64();
            if (self.zoom as nat) < 19 {
                lemma_pow2_strictly_increases(self.zoom as nat, 19);
            }
        }
        (self.x * TILE_SIZE, self.y * TILE_SIZE)
    }

    /// The tile to the north, pruned at the top edge of the grid.
    pub open spec fn spec_north(self) -> Option<TileId> {
        if self.y >= 1 {
            Some(TileId { x: self.x, y: (self.y - 1) as u32, zoom: self.zoom })
        } else {
            None
        }
    }

    /// The tile to the south, pruned at the bottom edge of the grid.
    pub open spec fn spec_south(self) -> Option<TileId> {
        if self.y + 1 < pow2(self.zoom as nat) {
            Some(TileId { x: self.x, y: (self.y + 1) as u32, zoom: self.zoom })
        } else {
            None
        }
    }

    /// The tile to the east, wrapping at the east edge of the grid.
    pub open spec fn spec_east(self) -> TileId {
        if self.x + 1 < pow2(self.zoom as nat) {
            TileId { x: (self.x + 1) as u32, y: self.y, zoom: self.zoom }
        } else {
            TileId { x: 0, y: self.y, zoom: self.zoom }
        }
    }

    /// The tile to the west, wrapping at the west edge of the grid.
    pub open spec fn spec_west(self) -> TileId {
        if self.x >= 1 {
            TileId { x: (self.x - 1) as u32, y: self.y, zoom: self.zoom }
        } else {
            TileId { x: (pow2(self.zoom as nat) - 1) as u32, y: self.y, zoom: self.zoom }
        }
    }

    /// Tile directly to the north, or nothing at the top edge of the grid.
    pub fn north(self) -> (r: Option<TileId>)
        requires
            self.valid(),
        ensures
            r == self.spec_north(),
            r matches Some(t) ==> t.valid(),
    {
        if self.y >= 1 {
            Some(TileId { x: self.x, y: self.y - 1, zoom: self.zoom })
        } else {
            None
        }
    }

    /// Tile directly to the south, or nothing at the bottom edge of the grid.
    pub fn south(self) -> (r: Option<TileId>)
        requires
            self.valid(),
        ensures
            r == self.spec_south(),
            r matches Some(t) ==> t.valid(),
    {
        let n = grid_size(self.zoom);
        if self.y + 1 < n {
            Some(TileId { x: self.x, y: self.y + 1, zoom: self.zoom })
        } else {
            None
        }
    }

    /// Tile directly to the east, wrapping around the globe at the east edge.
    pub fn east(self) -> (r: TileId)
        requires
            self.valid(),
        ensures
            r == self.spec_east(),
            r.valid(),
    {
        let n = grid_size(self.zoom);
        if self.x + 1 < n {
            TileId { x: self.x + 1, y: self.y, zoom: self.zoom }
        } else {
            TileId { x: 0, y: self.y, zoom: self.zoom }
        }
    }

    /// Tile directly to the west, wrapping around the globe at the west edge.
    pub fn west(self) -> (r: TileId)
        requires
            self.valid(),
        ensures
            r == self.spec_west(),
            r.valid(),
    {
        let n = grid_size(self.zoom);
        if self.x >= 1 {
            TileId { x: self.x - 1, y: self.y, zoom: self.zoom }
        } else {
            TileId { x: n - 1, y: self.y, zoom: self.zoom }
        }
    }
}

/// The pixel `(px, py)` lies inside the `TILE_SIZE`-sized square whose
/// top-left corner is the projection of tile `t`.
pub open spec fn tile_contains_pixel(t: TileId, px: nat, py: nat) -> bool {
    &&& t.x * TILE_SIZE <= px < (t.x + 1) * TILE_SIZE
    &&& t.y * TILE_SIZE <= py < (t.y + 1) * TILE_SIZE
}

/// Tile of the given zoom level whose pixel rectangle contains `(px, py)`.
pub fn tile_at_pixel(px: u32, py: u32, zoom: u8) -> (t: TileId)
    requires
        zoom <= MAX_ZOOM,
        (px as nat) < pow2(zoom as nat) * TILE_SIZE,
        (py as nat) < pow2(zoom as nat) * TILE_SIZE,
    ensures
        t.valid(),
        t.zoom == zoom,
        t.x == px / TILE_SIZE,
        t.y == py / TILE_SIZE,
        tile_contains_pixel(t, px as nat, py as nat),
{
    let t = TileId { x: px / TILE_SIZE, y: py / TILE_SIZE, zoom };
    proof {
        assert((px as int) / (TILE_SIZE as int) < pow2(zoom as nat)) by {
            lemma_multiply_divide_lt(px as int, TILE_SIZE as int, pow2(zoom as nat) as int);
        }
        assert((py as int) / (TILE_SIZE as int) < pow2(zoom as nat)) by {
            lemma_multiply_divide_lt(py as int, TILE_SIZE as int, pow2(zoom as nat) as int);
        }
        assert(t.x * TILE_SIZE <= px < (t.x + 1) * TILE_SIZE && t.y * TILE_SIZE <= py < (t.y + 1)
            * TILE_SIZE) by (nonlinear_arith)
            requires
                t.x == px / TILE_SIZE,
                t.y == py / TILE_SIZE,
                TILE_SIZE == 256,
        ;
    }
    t
}

/// A pixel inside the grid lies in the rectangle of exactly one tile of
/// each zoom level: the one that `tile_at_pixel` computes.
pub proof fn lemma_tile_at_pixel_unique(t: TileId, px: nat, py: nat)
    requires
        t.valid(),
        px < pow2(t.zoom as nat) * TILE_SIZE,
        py < pow2(t.zoom as nat) * TILE_SIZE,
    ensures
        tile_contains_pixel(t, px, py) <==> (t.x == px / (TILE_SIZE as nat) && t.y == py / (
        TILE_SIZE as nat)),
{
    assert((t.x * TILE_SIZE <= px < (t.x + 1) * TILE_SIZE) <==> (t.x == px / 256)) by (nonlinear_arith)
        requires
            TILE_SIZE == 256,
    ;
    assert((t.y * TILE_SIZE <= py < (t.y + 1) * TILE_SIZE) <==> (t.y == py / 256)) by (nonlinear_arith)
        requires
            TILE_SIZE == 256,
    ;
}

/// Number of tiles along one axis at the given zoom level: `2^zoom`.
pub fn grid_size(zoom: u8) -> (n: u32)
    requires
        zoom <= MAX_ZOOM,
    ensures
        n as nat == pow2(zoom as nat),
        n >= 1,
{
    proof {
        lemma2_to64();
        if (zoom as nat) < 19 {
            lemma_pow2_strictly_increases(zoom as nat, 19);
        }
        lemma_u32_shl_is_mul(1u32, zoom as u32);
    }
    1u32 << (zoom as u32)
}

} // verus!
