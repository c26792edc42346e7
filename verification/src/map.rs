//! The map view: the center-mode drag controller and the enumerator that
//! discovers which tiles are visible in a clip rectangle.
//!
//! Screen geometry is in integer pixels: a rectangle is closed on all
//! sides, and two rectangles intersect when they share at least one
//! point, exactly the test the enumerator prunes with.

use crate::mercator::{Position, TileId, Zoom, TILE_SIZE};
use crate::tiles::{key_of, lemma_key_of_bound, state_at, tile_key, Tile, TileState, Tiles};
use std::collections::HashSet;
use vstd::prelude::*;

verus! {

broadcast use vstd::std_specs::hash::group_hash_axioms;

/// How the map chooses its center: following an externally supplied live
/// position, or detached at a fixed position after the user dragged away.
#[derive(Clone, Debug, PartialEq, Eq, Structural)]
pub enum MapCenterMode {
    /// Follow the live position supplied by the caller each frame.
    MyPosition,
    /// Stay at a position the user dragged to.
    Exact(Position),
}

impl MapCenterMode {
    /// Applies one frame's drag gesture. A first drag detaches the map
    /// from the live position, anchoring it there; a drag while already
    /// detached moves the anchor to `dragged_to`, which the caller
    /// computes by shifting the current center by the drag delta in
    /// pixel space. Once detached, the mode never reverts to following
    /// by itself.
    pub fn screen_drag(&mut self, dragged: bool, my_position: Position, dragged_to: Position)
        ensures
            !dragged ==> *final(self) == *old(self),
            dragged && *old(self) is MyPosition ==> *final(self) == MapCenterMode::Exact(
                my_position,
            ),
            dragged && *old(self) is Exact ==> *final(self) == MapCenterMode::Exact(dragged_to),
            *old(self) is Exact ==> *final(self) is Exact,
    {
        if dragged {
            *self = match *self {
                MapCenterMode::MyPosition => MapCenterMode::Exact(my_position),
                MapCenterMode::Exact(_) => MapCenterMode::Exact(dragged_to),
            };
        }
    }

    /// The effective map center for whichever mode is active.
    pub fn position(&self, my_position: Position) -> (p: Position)
        ensures
            *self is MyPosition ==> p == my_position,
            *self matches MapCenterMode::Exact(q) ==> p == q,
    {
        match self {
            MapCenterMode::MyPosition => my_position,
            MapCenterMode::Exact(position) => *position,
        }
    }
}

/// State of the map widget which must persist between frames.
pub struct MapMemory {
    /// Whether the view follows the live position or a dragged anchor.
    pub center_mode: MapCenterMode,
    /// Current zoom level.
    pub zoom: Zoom,
}

impl Default for MapMemory {
    /// A fresh view follows the live position at the default zoom.
    fn default() -> (m: MapMemory)
        ensures
            m.center_mode is MyPosition,
            m.zoom == Zoom::default_spec(),
            m.zoom.spec_level() == 16,
    {
        MapMemory { center_mode: MapCenterMode::MyPosition, zoom: Zoom::default() }
    }
}

/// An axis-aligned screen rectangle in integer pixels, closed on all
/// sides.
#[derive(Clone, Copy, Debug, PartialEq, Eq, Structural)]
pub struct ScreenRect {
    /// Left edge.
    pub min_x: i64,
    /// Top edge.
    pub min_y: i64,
    /// Right edge.
    pub max_x: i64,
    /// Bottom edge.
    pub max_y: i64,
}

impl ScreenRect {
    /// Edges are ordered and coordinates small enough that all the pixel
    /// arithmetic of the enumerator stays exact.
    pub open spec fn wf(self) -> bool {
        &&& self.min_x <= self.max_x
        &&& self.min_y <= self.max_y
        &&& -0x1_0000_0000 <= self.min_x
        &&& self.max_x <= 0x1_0000_0000
        &&& -0x1_0000_0000 <= self.min_y
        &&& self.max_y <= 0x1_0000_0000
    }

    /// The two rectangles share at least one point.
    pub open spec fn spec_intersects(self, o: ScreenRect) -> bool {
        &&& self.min_x <= o.max_x
        &&& o.min_x <= self.max_x
        &&& self.min_y <= o.max_y
        &&& o.min_y <= self.max_y
    }

    /// Tests whether the two rectangles share at least one point.
    pub fn intersects(&self, o: &ScreenRect) -> (r: bool)
        ensures
            r == self.spec_intersects(*o),
    {
        self.min_x <= o.max_x && o.min_x <= self.max_x && self.min_y <= o.max_y && o.min_y
            <= self.max_y
    }
}

impl Tile {
    /// The screen rectangle this tile covers when its top-left corner is
    /// drawn at `(screen_x, screen_y)`, sized by its raster.
    pub fn rect(&self, screen_x: i64, screen_y: i64) -> (r: ScreenRect)
        requires
            -0x10_0000_0000 <= screen_x <= 0x10_0000_0000,
            -0x10_0000_0000 <= screen_y <= 0x10_0000_0000,
        ensures
            r == (ScreenRect {
                min_x: screen_x,
                min_y: screen_y,
                max_x: (screen_x + self.spec_width()) as i64,
                max_y: (screen_y + self.spec_height()) as i64,
            }),
    {
        ScreenRect {
            min_x: screen_x,
            min_y: screen_y,
            max_x: screen_x + self.width() as i64,
            max_y: screen_y + self.height() as i64,
        }
    }
}

/// One visible tile, ready to draw: the tile, its grid coordinates, and
/// the screen pixel of its top-left corner.
pub struct TilePlacement {
    /// Which grid cell this is.
    pub tile_id: TileId,
    /// The decoded tile raster.
    pub tile: Tile,
    /// Screen x of the tile's top-left corner.
    pub screen_x: i64,
    /// Screen y of the tile's top-left corner.
    pub screen_y: i64,
}

impl TilePlacement {
    /// The screen rectangle this tile covers, sized by its raster.
    pub open spec fn spec_rect(self) -> ScreenRect {
        ScreenRect {
            min_x: self.screen_x,
            min_y: self.screen_y,
            max_x: (self.screen_x + self.tile.spec_width()) as i64,
            max_y: (self.screen_y + self.tile.spec_height()) as i64,
        }
    }
}

/// Where tile `t` lands on screen: the map center projects to pixel
/// `(center_px_x, center_px_y)` and is drawn at `(origin_x, origin_y)`,
/// so the tile's corner lands at the same offset from there.
pub open spec fn spec_tile_screen_x(t: TileId, origin_x: int, center_px_x: int) -> int {
    origin_x + t.x * TILE_SIZE - center_px_x
}

/// Screen y of tile `t`'s top-left corner; see `spec_tile_screen_x`.
pub open spec fn spec_tile_screen_y(t: TileId, origin_y: int, center_px_y: int) -> int {
    origin_y + t.y * TILE_SIZE - center_px_y
}

/// The placement the enumerator emits for tile `t` holding raster
/// `tile`, given the projected map center and its screen point.
pub open spec fn spec_placement(
    t: TileId,
    tile: Tile,
    origin_x: int,
    center_px_x: int,
    origin_y: int,
    center_px_y: int,
) -> TilePlacement {
    TilePlacement {
        tile_id: t,
        tile,
        screen_x: spec_tile_screen_x(t, origin_x, center_px_x) as i64,
        screen_y: spec_tile_screen_y(t, origin_y, center_px_y) as i64,
    }
}

/// `n` is one of the four grid neighbors of `t`: north, south, east or
/// west, with east and west wrapping around the globe and north and
/// south pruned at the poles.
pub open spec fn is_grid_neighbor(t: TileId, n: TileId) -> bool {
    ||| t.spec_north() == Some(n)
    ||| t.spec_south() == Some(n)
    ||| n == t.spec_east()
    ||| n == t.spec_west()
}

/// Tile `n` is ready in cache state `m` and its screen rectangle
/// intersects the clip rectangle, for the given projected map center and
/// its screen point: exactly the tiles one frame should draw.
pub open spec fn spec_visible_in(
    n: TileId,
    m: Map<u64, TileState>,
    clip: ScreenRect,
    origin_x: int,
    center_px_x: int,
    origin_y: int,
    center_px_y: int,
) -> bool {
    match state_at(m, key_of(n)) {
        Some(t) => clip.spec_intersects(
            spec_placement(n, t, origin_x, center_px_x, origin_y, center_px_y).spec_rect(),
        ),
        None => false,
    }
}

/// Some emitted placement is for tile `n`.
pub open spec fn spec_emitted(out: Seq<TilePlacement>, n: TileId) -> bool {
    exists|j: int| 0 <= j < out.len() && out[j].tile_id == n
}

/// Tile `n` waits on the traversal stack.
spec fn spec_stacked(stack: Seq<TileId>, n: TileId) -> bool {
    exists|j: int| 0 <= j < stack.len() && stack[j] == n
}

/// A tile on a stack stays on any extension of that stack.
proof fn lemma_stacked_extends(s1: Seq<TileId>, s2: Seq<TileId>, n: TileId)
    requires
        spec_stacked(s1, n),
        s1.len() <= s2.len(),
        forall|j: int| 0 <= j < s1.len() ==> s1[j] == s2[j],
    ensures
        spec_stacked(s2, n),
{
    let j = choose|j: int| 0 <= j < s1.len() && s1[j] == n;
    assert(s2[j] == n);
}

/// Discovers the tiles to draw for one frame: starting from the tile
/// under the map center, flood-fills the 4-neighbor tile grid, keeping a
/// tile when its screen rectangle intersects the clip rectangle and its
/// image is already cached (querying the cache requests missing tiles on
/// the way), and pruning the search at tiles whose rectangle lies
/// outside the clip. Each tile is emitted at most once, at its exact
/// screen position, and never blocks the caller.
///
/// The map center projects to world pixel `(center_px_x, center_px_y)`
/// and is drawn at screen point `(origin_x, origin_y)`; each tile's
/// corner lands at the same offset from there.
pub fn visible_tiles(
    tiles: &mut Tiles,
    clip: ScreenRect,
    center_tile: TileId,
    center_px_x: i64,
    center_px_y: i64,
    origin_x: i64,
    origin_y: i64,
) -> (out: Vec<TilePlacement>)
    requires
        old(tiles).wf(),
        center_tile.valid(),
        clip.wf(),
        -0x1_0000_0000 <= center_px_x <= 0x1_0000_0000,
        -0x1_0000_0000 <= center_px_y <= 0x1_0000_0000,
        -0x1_0000_0000 <= origin_x <= 0x1_0000_0000,
        -0x1_0000_0000 <= origin_y <= 0x1_0000_0000,
    ensures
        final(tiles).wf(),
        // Only grid tiles of the center's zoom level are emitted.
        forall|i: int|
            0 <= i < out@.len() ==> ((#[trigger] out@[i]).tile_id.valid() && out@[i].tile_id.zoom
                == center_tile.zoom),
        // Every emitted tile stands at its exact screen position.
        forall|i: int|
            0 <= i < out@.len() ==> ((#[trigger] out@[i]).screen_x == spec_tile_screen_x(
                out@[i].tile_id,
                origin_x as int,
                center_px_x as int,
            ) && out@[i].screen_y == spec_tile_screen_y(
                out@[i].tile_id,
                origin_y as int,
                center_px_y as int,
            )),
        // Every emitted tile's rectangle intersects the clip rectangle.
        forall|i: int|
            0 <= i < out@.len() ==> clip.spec_intersects((#[trigger] out@[i]).spec_rect()),
        // No tile is emitted twice.
        forall|i: int, j: int|
            0 <= i < j < out@.len() ==> (#[trigger] out@[i]).tile_id != (#[trigger] out@[j]).tile_id,
        // Every emitted tile is the one cached, ready, for its grid cell.
        forall|i: int|
            0 <= i < out@.len() ==> state_at(
                final(tiles).entries(),
                key_of((#[trigger] out@[i]).tile_id),
            ) == Some(out@[i].tile),
        // A center tile that is already cached and visible is emitted,
        // first: the enumerator never comes back empty-handed then.
        ({
            let k = key_of(center_tile);
            match state_at(old(tiles).entries(), k) {
                Some(t) => {
                    let p = spec_placement(
                        center_tile,
                        t,
                        origin_x as int,
                        center_px_x as int,
                        origin_y as int,
                        center_px_y as int,
                    );
                    clip.spec_intersects(p.spec_rect()) ==> (out@.len() >= 1 && out@[0] == p)
                },
                None => true,
            }
        }),
        // The flood fill never stops early: every grid neighbor of an
        // emitted tile that was already cached and visible before the
        // call is emitted too.
        forall|i: int, n: TileId|
            #![trigger is_grid_neighbor(out@[i].tile_id, n)]
            (0 <= i < out@.len() && is_grid_neighbor(out@[i].tile_id, n) && spec_visible_in(
                n,
                old(tiles).entries(),
                clip,
                origin_x as int,
                center_px_x as int,
                origin_y as int,
                center_px_y as int,
            )) ==> spec_emitted(out@, n),
{
    let mut out: Vec<TilePlacement> = Vec::new();
    let mut visited: HashSet<u64> = HashSet::new();
    let mut stack: Vec<TileId> = Vec::new();
    stack.push(center_tile);
    // The budget only makes termination plain: the invariant below shows
    // it cannot run out, since each iteration either pops without
    // visiting or visits one of at most 2^45 distinct tiles.
    let mut budget: u64 = 0x2_0000_0000_0000;
    let ghost mut gset: Set<int> = Set::empty();
    while stack.len() > 0 && budget > 0
        invariant
            tiles.wf(),
            clip.wf(),
            center_tile.valid(),
            -0x1_0000_0000 <= center_px_x <= 0x1_0000_0000,
            -0x1_0000_0000 <= center_px_y <= 0x1_0000_0000,
            -0x1_0000_0000 <= origin_x <= 0x1_0000_0000,
            -0x1_0000_0000 <= origin_y <= 0x1_0000_0000,
            forall|i: int|
                0 <= i < stack@.len() ==> ((#[trigger] stack@[i]).valid() && stack@[i].zoom
                    == center_tile.zoom),
            forall|i: int|
                0 <= i < out@.len() ==> ((#[trigger] out@[i]).tile_id.valid()
                    && out@[i].tile_id.zoom == center_tile.zoom),
            forall|i: int|
                0 <= i < out@.len() ==> ((#[trigger] out@[i]).screen_x == spec_tile_screen_x(
                    out@[i].tile_id,
                    origin_x as int,
                    center_px_x as int,
                ) && out@[i].screen_y == spec_tile_screen_y(
                    out@[i].tile_id,
                    origin_y as int,
                    center_px_y as int,
                )),
            forall|i: int|
                0 <= i < out@.len() ==> clip.spec_intersects((#[trigger] out@[i]).spec_rect()),
            forall|i: int|
                0 <= i < out@.len() ==> visited@.contains(key_of((#[trigger] out@[i]).tile_id)),
            forall|k: u64| #[trigger]
                visited@.contains(k) ==> exists|j: int|
                    0 <= j < out@.len() && key_of(out@[j].tile_id) == k,
            forall|i: int, j: int|
                0 <= i < j < out@.len() ==> key_of((#[trigger] out@[i]).tile_id) != key_of(
                    (#[trigger] out@[j]).tile_id,
                ),
            forall|i: int|
                0 <= i < out@.len() ==> state_at(
                    tiles.entries(),
                    key_of((#[trigger] out@[i]).tile_id),
                ) == Some(out@[i].tile),
            // Completed tiles of the starting cache are still there.
            forall|k: u64|
                (#[trigger] old(tiles).entries().contains_key(k) && old(tiles).entries()[k]
                    is Ready) ==> (tiles.entries().contains_key(k) && tiles.entries()[k] == old(
                    tiles,
                ).entries()[k]),
            out@.len() == 0 ==> visited@ =~= Set::<u64>::empty(),
            ({
                let k = key_of(center_tile);
                match state_at(old(tiles).entries(), k) {
                    Some(t) => {
                        let p = spec_placement(
                            center_tile,
                            t,
                            origin_x as int,
                            center_px_x as int,
                            origin_y as int,
                            center_px_y as int,
                        );
                        clip.spec_intersects(p.spec_rect()) ==> ((out@.len() >= 1 && out@[0] == p)
                            || (out@.len() == 0 && stack@ =~= seq![center_tile] && state_at(
                            tiles.entries(),
                            k,
                        ) == Some(t) && budget >= 1))
                    },
                    None => true,
                }
            }),
            forall|i: int, n: TileId|
                #![trigger is_grid_neighbor(out@[i].tile_id, n)]
                (0 <= i < out@.len() && is_grid_neighbor(out@[i].tile_id, n) && spec_visible_in(
                    n,
                    old(tiles).entries(),
                    clip,
                    origin_x as int,
                    center_px_x as int,
                    origin_y as int,
                    center_px_y as int,
                )) ==> (spec_emitted(out@, n) || spec_stacked(stack@, n)),
            gset.finite(),
            gset.subset_of(vstd::set_lib::set_int_range(0, 0x2000_0000_0000)),
            forall|k: u64| #[trigger] visited@.contains(k) <==> gset.contains(k as int),
            budget + 4 * gset.len() + 1 >= 0x2_0000_0000_0000 + stack@.len(),
        decreases budget,
    {
        budget = budget - 1;
        let ghost stack0 = stack@;
        let ghost out0 = out@;
        let id = stack.pop().unwrap();
        let ghost base = stack@;
        proof {
            // Popping removes one waiting tile: everything else waits on.
            assert forall|n: TileId| spec_stacked(stack0, n) implies (spec_stacked(base, n) || n
                == id) by {
                let j = choose|j: int| 0 <= j < stack0.len() && stack0[j] == n;
                if j < stack0.len() - 1 {
                    assert(base[j] == n);
                }
            }
        }
        let k = tile_key(id);
        let ghost pre = *tiles;
        match tiles.at(id) {
            None => {
                proof {
                    // A tile that was ready before the call is ready now,
                    // and `at` would have returned it: the popped tile
                    // was not visible then.
                    assert(!spec_visible_in(
                        id,
                        old(tiles).entries(),
                        clip,
                        origin_x as int,
                        center_px_x as int,
                        origin_y as int,
                        center_px_y as int,
                    ));
                }
            },
            Some(tile) => {
                proof {
                    vstd::arithmetic::power2::lemma2_to64();
                    if (id.zoom as nat) < 19 {
                        vstd::arithmetic::power2::lemma_pow2_strictly_increases(id.zoom as nat, 19);
                    }
                }
                let px = id.project();
                let sx: i64 = origin_x + px.0 as i64 - center_px_x;
                let sy: i64 = origin_y + px.1 as i64 - center_px_y;
                let rect = tile.rect(sx, sy);
                proof {
                    // If the popped tile was ready before the call, `at`
                    // returned that very tile, so this rectangle is the
                    // one the contract speaks of.
                    if state_at(old(tiles).entries(), key_of(id)) is Some {
                        assert(tile == state_at(old(tiles).entries(), key_of(id)).unwrap());
                        assert(rect == spec_placement(
                            id,
                            tile,
                            origin_x as int,
                            center_px_x as int,
                            origin_y as int,
                            center_px_y as int,
                        ).spec_rect());
                    }
                }
                if clip.intersects(&rect) {
                    if !visited.contains(&k) {
                        visited.insert(k);
                        out.push(TilePlacement { tile_id: id, tile, screen_x: sx, screen_y: sy });
                        proof {
                            lemma_key_of_bound(id);
                            gset = gset.insert(k as int);
                        }
                        if let Some(n) = id.north() {
                            stack.push(n);
                        }
                        let ghost s_north = stack@;
                        stack.push(id.east());
                        let ghost s_east = stack@;
                        if let Some(s) = id.south() {
                            stack.push(s);
                        }
                        let ghost s_south = stack@;
                        stack.push(id.west());
                        proof {
                            // Every grid neighbor of the newly emitted
                            // tile now waits on the stack.
                            assert forall|n: TileId| is_grid_neighbor(id, n) implies spec_stacked(
                                stack@,
                                n,
                            ) by {
                                if id.spec_north() == Some(n) {
                                    assert(s_north[s_north.len() - 1] == n);
                                    lemma_stacked_extends(s_north, stack@, n);
                                } else if id.spec_south() == Some(n) {
                                    assert(s_south[s_south.len() - 1] == n);
                                    lemma_stacked_extends(s_south, stack@, n);
                                } else if n == id.spec_east() {
                                    assert(s_east[s_east.len() - 1] == n);
                                    lemma_stacked_extends(s_east, stack@, n);
                                } else {
                                    assert(stack@[stack@.len() - 1] == n);
                                }
                            }
                            // Tiles waiting before this visit still wait.
                            assert forall|n: TileId| spec_stacked(base, n) implies spec_stacked(
                                stack@,
                                n,
                            ) by {
                                lemma_stacked_extends(base, stack@, n);
                            }
                            // Emitted tiles keep their entry in `out`.
                            assert forall|n: TileId| spec_emitted(out0, n) implies spec_emitted(
                                out@,
                                n,
                            ) by {
                                let j = choose|j: int| 0 <= j < out0.len() && out0[j].tile_id == n;
                                assert(out@[j].tile_id == n);
                            }
                            assert(spec_emitted(out@, id)) by {
                                assert(out@[out@.len() - 1].tile_id == id);
                            }
                            // Every visited tile still has its entry.
                            assert forall|kk: u64| #[trigger]
                                visited@.contains(kk) implies exists|j: int|
                                0 <= j < out@.len() && key_of(out@[j].tile_id) == kk by {
                                if kk == key_of(id) {
                                    assert(key_of(out@[out@.len() - 1].tile_id) == kk);
                                } else {
                                    let j = choose|j: int|
                                        0 <= j < out0.len() && key_of(out0[j].tile_id) == kk;
                                    assert(key_of(out@[j].tile_id) == kk);
                                }
                            }
                        }
                    } else {
                        proof {
                            // An already visited tile was emitted before.
                            assert(spec_emitted(out@, id)) by {
                                let j = choose|j: int|
                                    0 <= j < out@.len() && key_of(out@[j].tile_id) == key_of(id);
                                crate::tiles::lemma_key_of_injective(out@[j].tile_id, id);
                            };
                        }
                    }
                } else {
                    proof {
                        // The popped tile is not visible: its rectangle,
                        // the one the contract speaks of, misses the clip.
                        assert(!spec_visible_in(
                            id,
                            old(tiles).entries(),
                            clip,
                            origin_x as int,
                            center_px_x as int,
                            origin_y as int,
                            center_px_y as int,
                        ));
                    }
                }
            },
        }
    }
    proof {
        // The budget cannot have run out: at most 2^45 distinct tiles can
        // ever be visited, so the stack drained.
        vstd::set_lib::lemma_int_range(0, 0x2000_0000_0000);
        vstd::set_lib::lemma_len_subset(gset, vstd::set_lib::set_int_range(0, 0x2000_0000_0000));
        assert(stack@.len() == 0);
    }
    out
}

} // verus!
