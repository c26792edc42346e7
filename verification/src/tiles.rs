//! The tile cache and its asynchronous fetch pipeline.
//!
//! `Tiles` owns the per-tile cache and the render side of two bounded
//! queues: requests for tiles still to be downloaded go out on one, and
//! downloaded, decoded tiles come back on the other. A background worker
//! (outside this crate) services the request queue. Every operation here
//! is non-blocking: `at` absorbs at most one finished download, answers
//! from the cache, and, for a tile never seen before, tries to enqueue a
//! fetch request, dropping it silently if the queue is full.
//!
//! Per tile the cache walks the state machine
//! `absent -> pending -> ready`; both `ready` and "the download failed"
//! are terminal, and a failed download is never reported back, so such a
//! tile simply stays `Pending` forever and is never requested again.

use crate::mercator::TileId;
use std::collections::HashMap;
use std::sync::Arc;
use vstd::arithmetic::power2::{lemma2_to64, lemma_pow2_strictly_increases};
use vstd::prelude::*;

verus! {

broadcast use vstd::std_specs::hash::group_hash_axioms;

/// Capacity of the request queue and of the completion queue.
pub const CHANNEL_SIZE: usize = 20;

#[verifier::external_type_specification]
#[verifier::external_body]
pub struct ExRetainedImage(egui_extras::RetainedImage);

#[verifier::external_type_specification]
#[verifier::external_body]
#[verifier::reject_recursive_types(T)]
pub struct ExSender<T>(tokio::sync::mpsc::Sender<T>);

#[verifier::external_type_specification]
#[verifier::external_body]
#[verifier::reject_recursive_types(T)]
pub struct ExReceiver<T>(tokio::sync::mpsc::Receiver<T>);

/// Dimensions of the raster image that the given bytes decode to, or
/// nothing when they are not a decodable image. Decoding is a pure
/// function of the bytes, so the result depends on the bytes alone.
pub uninterp spec fn decoded_dims(bytes: Seq<u8>) -> Option<(u32, u32)>;

/// One downloaded, decoded map tile. The raster payload is shared, so a
/// tile can be cloned cheaply into every frame that draws it.
pub struct Tile {
    image: Arc<egui_extras::RetainedImage>,
    width: u32,
    height: u32,
}

impl Tile {
    /// Width in pixels of the decoded raster.
    pub closed spec fn spec_width(self) -> u32 {
        self.width
    }

    /// Height in pixels of the decoded raster.
    pub closed spec fn spec_height(self) -> u32 {
        self.height
    }

    /// The shared raster payload.
    pub closed spec fn spec_image(self) -> Arc<egui_extras::RetainedImage> {
        self.image
    }

    /// Decodes raw image bytes into a tile, or nothing when the bytes are
    /// not a decodable image.
    ///
    /// Relies on `egui_extras::RetainedImage::from_image_bytes`: it decodes
    /// the bytes with the `image` crate and returns the decoded raster,
    /// whose `width`/`height` are its pixel dimensions; it fails exactly
    /// when the bytes do not decode.
    #[verifier::external_body]
    pub fn new(image_bytes: &[u8]) -> (r: Option<Tile>)
        ensures
            r is Some <==> decoded_dims(image_bytes@) is Some,
            r matches Some(t) ==> (Some((t.spec_width(), t.spec_height())) == decoded_dims(
                image_bytes@,
            )),
    {
        match egui_extras::RetainedImage::from_image_bytes("tile", image_bytes) {
            Ok(img) => {
                let width = img.width() as u32;
                let height = img.height() as u32;
                Some(Tile { image: Arc::new(img), width, height })
            },
            Err(_) => None,
        }
    }

    /// Width in pixels.
    pub fn width(&self) -> (w: u32)
        ensures
            w == self.spec_width(),
    {
        self.width
    }

    /// Height in pixels.
    pub fn height(&self) -> (h: u32)
        ensures
            h == self.spec_height(),
    {
        self.height
    }

    /// The shared raster, for a renderer to upload and draw.
    pub fn image(&self) -> (r: &Arc<egui_extras::RetainedImage>)
        ensures
            *r == self.spec_image(),
    {
        &self.image
    }
}

/// Relies on `std::sync::Arc::clone`: the clone is a second handle to the
/// very same allocation.
#[verifier::external_body]
fn clone_image(img: &Arc<egui_extras::RetainedImage>) -> (r: Arc<egui_extras::RetainedImage>)
    ensures
        r == *img,
{
    img.clone()
}

impl Clone for Tile {
    /// The clone shares the raster and keeps the dimensions.
    fn clone(&self) -> (r: Self)
        ensures
            r == *self,
    {
        Tile { image: clone_image(&self.image), width: self.width, height: self.height }
    }
}

/// Cache key of a tile: zoom, column and row packed into disjoint bit
/// ranges of one integer.
pub open spec fn key_of(t: TileId) -> u64 {
    ((t.zoom as u64) << 40) | ((t.x as u64) << 20) | (t.y as u64)
}

/// Computes the cache key of a tile.
pub fn tile_key(t: TileId) -> (k: u64)
    ensures
        k == key_of(t),
{
    ((t.zoom as u64) << 40) | ((t.x as u64) << 20) | (t.y as u64)
}

/// Distinct tiles of the grid have distinct cache keys, so cache entries
/// of different tiles never interfere.
pub proof fn lemma_key_of_injective(a: TileId, b: TileId)
    requires
        a.valid(),
        b.valid(),
        key_of(a) == key_of(b),
    ensures
        a == b,
{
    lemma2_to64();
    if (a.zoom as nat) < 19 {
        lemma_pow2_strictly_increases(a.zoom as nat, 19);
    }
    if (b.zoom as nat) < 19 {
        lemma_pow2_strictly_increases(b.zoom as nat, 19);
    }
    let xa = a.x as u64;
    let ya = a.y as u64;
    let za = a.zoom as u64;
    let xb = b.x as u64;
    let yb = b.y as u64;
    let zb = b.zoom as u64;
    assert(((za << 40) | (xa << 20) | ya) == ((zb << 40) | (xb << 20) | yb) && xa < 0x100000 && ya
        < 0x100000 && xb < 0x100000 && yb < 0x100000 && za < 0x100 && zb < 0x100 ==> (xa == xb && ya
        == yb && za == zb)) by (bit_vector);
}

/// Cache keys of grid tiles fit below `2^45`: the zoom field is under
/// `2^5` and sits at bit 40.
pub proof fn lemma_key_of_bound(t: TileId)
    requires
        t.valid(),
    ensures
        key_of(t) < 0x2000_0000_0000,
{
    lemma2_to64();
    if (t.zoom as nat) < 19 {
        lemma_pow2_strictly_increases(t.zoom as nat, 19);
    }
    let x = t.x as u64;
    let y = t.y as u64;
    let z = t.zoom as u64;
    assert(z < 0x20 && x < 0x100000 && y < 0x100000 ==> ((z << 40) | (x << 20) | y)
        < 0x2000_0000_0000) by (bit_vector);
}

/// Fetch state of one tile that the cache tracks. A tile whose download
/// failed is never reported back by the worker, so it stays `Pending`
/// forever; that is the "failed forever" terminal state.
pub enum TileState {
    /// A fetch request was enqueued and no result has been committed.
    Pending,
    /// The tile was downloaded and decoded.
    Ready(Tile),
}

/// The tile that a state holds, if it is ready.
pub open spec fn state_tile(s: TileState) -> Option<Tile> {
    match s {
        TileState::Pending => None,
        TileState::Ready(t) => Some(t),
    }
}

/// The ready tile cached under key `k`, if any.
pub open spec fn state_at(m: Map<u64, TileState>, k: u64) -> Option<Tile> {
    if m.contains_key(k) {
        state_tile(m[k])
    } else {
        None
    }
}

/// Committing one drained completion: a tile that is pending becomes
/// ready; any other completion is ignored.
pub open spec fn spec_commit(m: Map<u64, TileState>, c: Option<(TileId, Tile)>) -> Map<
    u64,
    TileState,
> {
    match c {
        None => m,
        Some((id, tile)) => {
            let k = key_of(id);
            if m.contains_key(k) && m[k] is Pending {
                m.insert(k, TileState::Ready(tile))
            } else {
                m
            }
        },
    }
}

/// The character for one decimal digit.
pub open spec fn digit_char(d: nat) -> char {
    if d == 0 {
        '0'
    } else if d == 1 {
        '1'
    } else if d == 2 {
        '2'
    } else if d == 3 {
        '3'
    } else if d == 4 {
        '4'
    } else if d == 5 {
        '5'
    } else if d == 6 {
        '6'
    } else if d == 7 {
        '7'
    } else if d == 8 {
        '8'
    } else {
        '9'
    }
}

/// Decimal notation of a number, without leading zeros (a lone zero for
/// zero itself).
pub open spec fn spec_decimal(n: nat) -> Seq<char>
    decreases n,
{
    if n < 10 {
        seq![digit_char(n)]
    } else {
        spec_decimal(n / 10) + seq![digit_char(n % 10)]
    }
}

/// Appends the character of one decimal digit.
fn append_digit(s: &mut String, d: u32)
    requires
        d < 10,
    ensures
        final(s)@ == old(s)@ + seq![digit_char(d as nat)],
{
    proof {
        reveal_strlit("0");
        reveal_strlit("1");
        reveal_strlit("2");
        reveal_strlit("3");
        reveal_strlit("4");
        reveal_strlit("5");
        reveal_strlit("6");
        reveal_strlit("7");
        reveal_strlit("8");
        reveal_strlit("9");
    }
    match d {
        0 => s.append("0"),
        1 => s.append("1"),
        2 => s.append("2"),
        3 => s.append("3"),
        4 => s.append("4"),
        5 => s.append("5"),
        6 => s.append("6"),
        7 => s.append("7"),
        8 => s.append("8"),
        _ => s.append("9"),
    }
    proof {
        assert(final(s)@ =~= old(s)@ + seq![digit_char(d as nat)]);
    }
}

/// Appends the decimal notation of a number.
fn append_decimal(s: &mut String, n: u32)
    ensures
        final(s)@ == old(s)@ + spec_decimal(n as nat),
    decreases n,
{
    if n >= 10 {
        append_decimal(s, n / 10);
    }
    append_digit(s, n % 10);
    proof {
        assert(final(s)@ =~= old(s)@ + spec_decimal(n as nat));
    }
}

/// The URL the standard OpenStreetMap tile server serves a tile at:
/// `https://tile.openstreetmap.org/{zoom}/{x}/{y}.png`.
pub open spec fn spec_osm_url(tile_id: TileId) -> Seq<char> {
    "https://tile.openstreetmap.org/"@ + spec_decimal(tile_id.zoom as nat) + "/"@ + spec_decimal(
        tile_id.x as nat,
    ) + "/"@ + spec_decimal(tile_id.y as nat) + ".png"@
}

/// Builds the OpenStreetMap URL of a tile, following the standard
/// `{zoom}/{x}/{y}.png` scheme.
pub fn openstreetmap(tile_id: TileId) -> (r: String)
    ensures
        r@ == spec_osm_url(tile_id),
{
    let mut s = "https://tile.openstreetmap.org/".to_owned();
    append_decimal(&mut s, tile_id.zoom as u32);
    s.append("/");
    append_decimal(&mut s, tile_id.x);
    s.append("/");
    append_decimal(&mut s, tile_id.y);
    s.append(".png");
    proof {
        assert(s@ =~= spec_osm_url(tile_id));
    }
    s
}

/// Decides the worker's step for one fetched request: the body of a
/// successful response is decoded and delivered to the cache, paired
/// with the tile it was requested for; a failed fetch, or a body that
/// does not decode, is dropped silently, never retried and never
/// surfaced, so the tile stays pending forever.
pub fn process_fetch_result(requested: TileId, body: Option<Vec<u8>>) -> (r: Option<
    (TileId, Tile),
>)
    ensures
        r is Some <==> (body matches Some(b) && decoded_dims(b@) is Some),
        r matches Some(p) ==> (body matches Some(b) && p.0 == requested && Some(
            (p.1.spec_width(), p.1.spec_height()),
        ) == decoded_dims(b@)),
{
    match body {
        None => None,
        Some(bytes) => match Tile::new(bytes.as_slice()) {
            None => None,
            Some(tile) => Some((requested, tile)),
        },
    }
}

/// Law: a tile the cache tracks has had exactly one fetch request
/// enqueued for it, so repeated lookups never enqueue a second
/// outstanding request for the same tile.
pub proof fn lemma_at_most_one_request(t: Tiles, k: u64)
    requires
        t.wf(),
        t.requests().contains_key(k),
    ensures
        t.requests()[k] == 1,
{
}

/// Law: delivering a downloaded tile completes its entry: committing the
/// completion of a pending tile leaves that tile cached ready, so a
/// later lookup returns it.
pub proof fn lemma_commit_delivers(m: Map<u64, TileState>, id: TileId, tile: Tile)
    requires
        m.contains_key(key_of(id)),
        m[key_of(id)] is Pending,
    ensures
        state_at(spec_commit(m, Some((id, tile))), key_of(id)) == Some(tile),
{
}

/// Law: a pending tile for which nothing is delivered stays pending:
/// committing no completion, or a completion for some other tile, never
/// changes its entry. A failed download is never delivered, so such a
/// tile returns "not ready" forever.
pub proof fn lemma_pending_stays_pending(m: Map<u64, TileState>, c: Option<(TileId, Tile)>, k: u64)
    requires
        m.contains_key(k),
        m[k] is Pending,
        c matches Some(p) ==> key_of(p.0) != k,
    ensures
        spec_commit(m, c).contains_key(k),
        spec_commit(m, c)[k] is Pending,
        state_at(spec_commit(m, c), k) == None::<Tile>,
{
}

/// Relies on `tokio::sync::mpsc::channel`: it creates a bounded queue of
/// the given capacity and hands back its two endpoints. It panics only on
/// a zero or absurdly large capacity, which the precondition excludes.
#[verifier::external_body]
fn new_channel<T>(capacity: usize) -> (r: (
    tokio::sync::mpsc::Sender<T>,
    tokio::sync::mpsc::Receiver<T>,
))
    requires
        1 <= capacity <= 0xffff,
{
    tokio::sync::mpsc::channel(capacity)
}

/// Relies on `tokio::sync::mpsc::Receiver::try_recv`: without blocking it
/// returns a queued message if one is ready, and an error when the queue
/// is currently empty or all senders are gone. What arrives, if anything,
/// depends on the worker thread, so nothing is promised of the result.
#[verifier::external_body]
fn try_recv_completion(rx: &mut tokio::sync::mpsc::Receiver<(TileId, Tile)>) -> (r: Option<
    (TileId, Tile),
>)
{
    rx.try_recv().ok()
}

/// Relies on `tokio::sync::mpsc::Sender::try_send`: without blocking it
/// enqueues the message and returns success, or returns failure when the
/// queue is full or closed. Whether there is room depends on the worker
/// thread, so nothing is promised of the result.
#[verifier::external_body]
fn try_send_request(tx: &tokio::sync::mpsc::Sender<TileId>, id: TileId) -> (r: bool) {
    tx.try_send(id).is_ok()
}

/// Downloads and keeps a cache of the tiles. It must persist between
/// frames.
///
/// The ghost `requested` map records, per cache key, how many fetch
/// requests were ever enqueued for it; `wf` ties it to the cache: a key
/// is tracked exactly when one request went out for it, so no tile is
/// ever requested twice.
pub struct Tiles {
    cache: HashMap<u64, TileState>,
    /// Tiles to be downloaded by the worker.
    request_tx: tokio::sync::mpsc::Sender<TileId>,
    /// Tiles that got downloaded and should be put in the cache.
    tile_rx: tokio::sync::mpsc::Receiver<(TileId, Tile)>,
    /// How many fetch requests were enqueued per cache key.
    requested: Ghost<Map<u64, nat>>,
}

impl Tiles {
    /// Fetch state per cache key.
    pub closed spec fn entries(self) -> Map<u64, TileState> {
        self.cache@
    }

    /// Number of fetch requests ever enqueued, per cache key.
    pub closed spec fn requests(self) -> Map<u64, nat> {
        self.requested@
    }

    /// A key is tracked exactly when one fetch request went out for it.
    pub open spec fn wf(self) -> bool {
        &&& self.entries().dom() == self.requests().dom()
        &&& forall|k: u64| #[trigger]
            self.requests().contains_key(k) ==> self.requests()[k] == 1
    }

    /// Creates an empty cache whose queues hold `capacity` items each,
    /// together with the worker's two endpoints: the request queue's
    /// receiving end and the completion queue's sending end.
    pub fn with_capacity(capacity: usize) -> (r: (
        Tiles,
        tokio::sync::mpsc::Receiver<TileId>,
        tokio::sync::mpsc::Sender<(TileId, Tile)>,
    ))
        requires
            1 <= capacity <= 0xffff,
        ensures
            r.0.wf(),
            r.0.entries() =~= Map::<u64, TileState>::empty(),
            r.0.requests() =~= Map::<u64, nat>::empty(),
    {
        let (request_tx, request_rx) = new_channel::<TileId>(capacity);
        let (tile_tx, tile_rx) = new_channel::<(TileId, Tile)>(capacity);
        let tiles = Tiles {
            cache: HashMap::new(),
            request_tx,
            tile_rx,
            requested: Ghost(Map::empty()),
        };
        proof {
            assert(tiles.entries().dom() =~= tiles.requests().dom());
        }
        (tiles, request_rx, tile_tx)
    }

    /// Creates an empty cache with the default queue capacity, together
    /// with the worker's two queue endpoints.
    pub fn new() -> (r: (
        Tiles,
        tokio::sync::mpsc::Receiver<TileId>,
        tokio::sync::mpsc::Sender<(TileId, Tile)>,
    ))
        ensures
            r.0.wf(),
            r.0.entries() =~= Map::<u64, TileState>::empty(),
            r.0.requests() =~= Map::<u64, nat>::empty(),
    {
        Self::with_capacity(CHANNEL_SIZE)
    }

    /// Commits one drained completion to the cache: the tile becomes
    /// ready if it was pending, and anything else is ignored. No request
    /// is enqueued here.
    pub fn commit_completion(&mut self, completion: Option<(TileId, Tile)>)
        requires
            old(self).wf(),
        ensures
            final(self).wf(),
            final(self).requests() == old(self).requests(),
            final(self).entries() == spec_commit(old(self).entries(), completion),
    {
        match completion {
            None => {},
            Some((id, tile)) => {
                let k = tile_key(id);
                let is_pending = match self.cache.get(&k) {
                    Some(s) => match s {
                        TileState::Pending => true,
                        TileState::Ready(_) => false,
                    },
                    None => false,
                };
                if is_pending {
                    self.cache.insert(k, TileState::Ready(tile));
                    proof {
                        assert(self.entries().dom() =~= old(self).entries().dom());
                    }
                }
            },
        }
    }

    /// Answers a lookup from the cache alone: a ready tile is returned; a
    /// pending one is not ready yet; an untracked one is requested from
    /// the worker if the request queue has room, and left untracked
    /// otherwise, to be retried on a later call. Never blocks.
    fn lookup_cached(&mut self, tile_id: TileId) -> (r: Option<Tile>)
        requires
            old(self).wf(),
        ensures
            final(self).wf(),
            ({
                let k = key_of(tile_id);
                &&& old(self).entries().contains_key(k) ==> (*final(self) == *old(self) && r
                    == state_tile(old(self).entries()[k]))
                &&& !old(self).entries().contains_key(k) ==> (r is None && ((*final(self) == *old(
                    self)) || (final(self).entries() == old(self).entries().insert(
                    k,
                    TileState::Pending,
                ) && final(self).requests() == old(self).requests().insert(k, 1nat))))
            }),
    {
        let k = tile_key(tile_id);
        if self.cache.contains_key(&k) {
            match self.cache.get(&k) {
                Some(s) => match s {
                    TileState::Ready(t) => Some(t.clone()),
                    TileState::Pending => None,
                },
                None => None,
            }
        } else {
            if try_send_request(&self.request_tx, tile_id) {
                self.cache.insert(k, TileState::Pending);
                proof {
                    self.requested@ = self.requested@.insert(k, 1nat);
                    assert(self.entries().dom() =~= self.requests().dom());
                }
            }
            None
        }
    }

    /// Non-blocking lookup: absorbs at most one finished download into
    /// the cache, then answers for the requested tile, enqueuing a fetch
    /// request the first time an unknown tile is asked for, if the
    /// request queue has room.
    pub fn at(&mut self, tile_id: TileId) -> (r: Option<Tile>)
        requires
            old(self).wf(),
        ensures
            final(self).wf(),
            ({
                let k = key_of(tile_id);
                // A tracked tile is never requested again.
                &&& old(self).entries().contains_key(k) ==> final(self).requests() == old(self).requests()
                // At most one request, for this tile, can have been enqueued.
                &&& (final(self).requests() == old(self).requests() || final(self).requests()
                    == old(self).requests().insert(k, 1nat))
                // A completed tile is stable and is returned.
                &&& (old(self).entries().contains_key(k) && old(self).entries()[k] is Ready)
                    ==> r == state_tile(old(self).entries()[k])
                // A tile never seen before is not ready on the call that
                // first requests it.
                &&& !old(self).entries().contains_key(k) ==> r is None
                // A returned tile is cached, ready, under the tile's key.
                &&& r matches Some(t) ==> (final(self).entries().contains_key(k) && final(
                    self).entries()[k] == TileState::Ready(t))
                // The cache evolves only by absorbing one completion and
                // possibly recording this one request; the result is the
                // absorbed state of the requested tile.
                &&& exists|c: Option<(TileId, Tile)>|
                    {
                        let absorbed = #[trigger] spec_commit(old(self).entries(), c);
                        &&& (final(self).entries() == absorbed || final(self).entries()
                            == absorbed.insert(k, TileState::Pending))
                        &&& r == state_at(absorbed, k)
                    }
                // Completed tiles never regress and entries are never dropped.
                &&& forall|k2: u64|
                    (#[trigger] old(self).entries().contains_key(k2) && old(self).entries()[k2]
                        is Ready) ==> (final(self).entries().contains_key(k2) && final(self).entries()[k2] == old(self).entries()[k2])
                &&& forall|k2: u64| #[trigger]
                    old(self).entries().contains_key(k2) ==> final(self).entries().contains_key(k2)
                &&& forall|k2: u64| #[trigger]
                    final(self).entries().contains_key(k2) ==> (old(self).entries().contains_key(k2) || k2 == k)
            }),
    {
        let completion = try_recv_completion(&mut self.tile_rx);
        self.commit_completion(completion);
        let r = self.lookup_cached(tile_id);
        proof {
            let k = key_of(tile_id);
            let absorbed = spec_commit(old(self).entries(), completion);
            assert(absorbed.dom() =~= old(self).entries().dom());
            assert((final(self).entries() == absorbed || final(self).entries() == absorbed.insert(
                k,
                TileState::Pending,
            )) && r == state_at(absorbed, k));
        }
        r
    }
}

} // verus!
