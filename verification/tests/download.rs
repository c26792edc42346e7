//! The full request/completion round trip, driving the worker's
//! fetch-and-decode step synchronously between lookups, with the remote
//! source's answer injected instead of a live HTTP server.

use walkers::mercator::TileId;
use walkers::tiles::{process_fetch_result, Tile, Tiles};

fn tile_id() -> TileId {
    TileId { x: 1, y: 2, zoom: 3 }
}

fn png_bytes(width: u32, height: u32) -> Vec<u8> {
    let img = image::RgbaImage::new(width, height);
    let mut buf: Vec<u8> = Vec::new();
    let mut cursor = std::io::Cursor::new(&mut buf);
    img.write_to(&mut cursor, image::ImageOutputFormat::Png).unwrap();
    buf
}

/// One turn of the worker's loop: take the next requested tile, resolve
/// its URL, look up what the source would answer, and deliver the decoded
/// result if the fetch succeeded. Returns the URL that was requested.
fn worker_step(
    source_answer: Option<Vec<u8>>,
    request_rx: &mut tokio::sync::mpsc::Receiver<TileId>,
    tile_tx: &tokio::sync::mpsc::Sender<(TileId, Tile)>,
) -> String {
    let requested = request_rx.try_recv().unwrap();
    let url = walkers::tiles::openstreetmap(requested);
    if let Some(completion) = process_fetch_result(requested, source_answer) {
        tile_tx.try_send(completion).unwrap();
    }
    url
}

#[test]
fn download_single_tile() {
    let (mut tiles, mut request_rx, tile_tx) = Tiles::new();

    // First query starts the download, but it will always return None.
    assert!(tiles.at(tile_id()).is_none());

    // The worker serves the request: the source receives one GET for the
    // requested tile and answers with a valid image.
    let url = worker_step(Some(png_bytes(256, 256)), &mut request_rx, &tile_tx);
    assert_eq!(url.as_str(), "https://tile.openstreetmap.org/3/1/2.png");

    // Eventually it gets downloaded and becomes available in cache.
    while tiles.at(tile_id()).is_none() {}

    // The source was asked exactly once.
    assert!(request_rx.try_recv().is_err());
}

#[test]
fn tile_is_empty_forever_if_http_returns_error() {
    let (mut tiles, mut request_rx, tile_tx) = Tiles::new();

    // First query starts the download, but it will always return None.
    assert!(tiles.at(tile_id()).is_none());

    // The worker serves the request; the source answers with an error,
    // which is dropped silently.
    let url = worker_step(None, &mut request_rx, &tile_tx);
    assert_eq!(url.as_str(), "https://tile.openstreetmap.org/3/1/2.png");

    // Should stay None forever, and no second request ever goes out.
    assert!(tiles.at(tile_id()).is_none());
    assert!(tiles.at(tile_id()).is_none());
    assert!(request_rx.try_recv().is_err());
}
