use walkers::mercator::TileId;
use walkers::tiles::{process_fetch_result, Tile, Tiles};

fn png_bytes(width: u32, height: u32) -> Vec<u8> {
    let img = image::RgbaImage::new(width, height);
    let mut buf: Vec<u8> = Vec::new();
    let mut cursor = std::io::Cursor::new(&mut buf);
    img.write_to(&mut cursor, image::ImageOutputFormat::Png).unwrap();
    buf
}

fn tile_id() -> TileId {
    TileId { x: 1, y: 2, zoom: 3 }
}

#[test]
fn lookup_enqueues_a_single_request() {
    let (mut tiles, mut request_rx, _tile_tx) = Tiles::new();
    for _ in 0..5 {
        assert!(tiles.at(tile_id()).is_none());
    }
    // Only the first lookup enqueued a request.
    assert_eq!(request_rx.try_recv().unwrap(), tile_id());
    assert!(request_rx.try_recv().is_err());
}

#[test]
fn committed_tile_becomes_ready() {
    let (mut tiles, _request_rx, _tile_tx) = Tiles::new();
    assert!(tiles.at(tile_id()).is_none());
    let tile = Tile::new(&png_bytes(256, 256)).unwrap();
    tiles.commit_completion(Some((tile_id(), tile)));
    let got = tiles.at(tile_id()).unwrap();
    assert_eq!(got.width(), 256);
    assert_eq!(got.height(), 256);
}

#[test]
fn delivered_tile_is_absorbed_by_lookup() {
    let (mut tiles, _request_rx, tile_tx) = Tiles::new();
    assert!(tiles.at(tile_id()).is_none());
    let tile = Tile::new(&png_bytes(64, 32)).unwrap();
    tile_tx.try_send((tile_id(), tile)).unwrap();
    let got = tiles.at(tile_id()).unwrap();
    assert_eq!(got.width(), 64);
    assert_eq!(got.height(), 32);
    // Ready is terminal: later lookups keep returning the tile.
    assert!(tiles.at(tile_id()).is_some());
}

#[test]
fn full_request_queue_drops_the_request_silently() {
    // With capacity 1, the second of two distinct tiles requested in one
    // frame is dropped and retried on a later call.
    let (mut tiles, mut request_rx, _tile_tx) = Tiles::with_capacity(1);
    let a = TileId { x: 1, y: 2, zoom: 3 };
    let b = TileId { x: 2, y: 2, zoom: 3 };
    assert!(tiles.at(a).is_none());
    assert!(tiles.at(b).is_none());
    // Exactly one request went out: the first tile.
    assert_eq!(request_rx.try_recv().unwrap(), a);
    assert!(request_rx.try_recv().is_err());
    // Now that the queue has room again, the next lookup retries.
    assert!(tiles.at(b).is_none());
    assert_eq!(request_rx.try_recv().unwrap(), b);
}

#[test]
fn fetch_failure_is_dropped() {
    assert!(process_fetch_result(tile_id(), None).is_none());
}

#[test]
fn malformed_payload_is_dropped() {
    let garbage = vec![0u8, 1, 2, 3, 4, 5];
    assert!(process_fetch_result(tile_id(), Some(garbage)).is_none());
}

#[test]
fn successful_fetch_is_delivered_for_the_requested_tile() {
    let r = process_fetch_result(tile_id(), Some(png_bytes(256, 128)));
    let (id, tile) = r.unwrap();
    assert_eq!(id, tile_id());
    assert_eq!(tile.width(), 256);
    assert_eq!(tile.height(), 128);
}
