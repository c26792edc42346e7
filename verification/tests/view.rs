use walkers::map::{visible_tiles, MapCenterMode, MapMemory, ScreenRect};
use walkers::mercator::{Position, TileId};
use walkers::tiles::{Tile, Tiles};

fn png_bytes(width: u32, height: u32) -> Vec<u8> {
    let img = image::RgbaImage::new(width, height);
    let mut buf: Vec<u8> = Vec::new();
    let mut cursor = std::io::Cursor::new(&mut buf);
    img.write_to(&mut cursor, image::ImageOutputFormat::Png).unwrap();
    buf
}

#[test]
fn fresh_map_memory_follows_the_live_position() {
    let memory = MapMemory::default();
    assert!(matches!(memory.center_mode, MapCenterMode::MyPosition));
    assert_eq!(memory.zoom.level(), 16);
}

#[test]
fn first_drag_detaches_at_the_live_position() {
    // Start following at live position (0, 0), at zoom 3. A (10, 10) px
    // drag detaches the map; where the anchor then moves on further
    // drags is the inverse-projected offset the caller computes.
    let live = Position::new(0, 0).unwrap();
    let mut mode = MapCenterMode::MyPosition;

    let after_first = Position::new(0, 0).unwrap();
    mode.screen_drag(true, live, after_first);
    assert_eq!(mode, MapCenterMode::Exact(live));

    // A second drag shifts the detached anchor further.
    let after_second = Position::new(-123_456, 234_567).unwrap();
    mode.screen_drag(true, live, after_second);
    assert_eq!(mode, MapCenterMode::Exact(after_second));

    // The mode never reverts to following by itself.
    mode.screen_drag(false, live, after_second);
    assert!(matches!(mode, MapCenterMode::Exact(_)));
    mode.screen_drag(true, live, after_first);
    assert!(matches!(mode, MapCenterMode::Exact(_)));
}

#[test]
fn position_returns_the_effective_center() {
    let live = Position::new(100, 200).unwrap();
    let anchored = Position::new(300, 400).unwrap();
    assert_eq!(MapCenterMode::MyPosition.position(live), live);
    assert_eq!(MapCenterMode::Exact(anchored).position(live), anchored);
}

#[test]
fn enumerator_emits_only_ready_intersecting_tiles_once() {
    let (mut tiles, mut request_rx, _tile_tx) = Tiles::new();
    let clip = ScreenRect { min_x: -200, min_y: -200, max_x: 200, max_y: 200 };
    // The center sits in the middle of tile (4, 4) at zoom 3: the tile's
    // corner is at pixel (1024, 1024), the center at (1152, 1152).
    let center_tile = TileId { x: 4, y: 4, zoom: 3 };

    // Nothing is cached yet: nothing to draw, the center tile gets
    // requested (fetch on miss).
    let out = visible_tiles(&mut tiles, clip, center_tile, 1152, 1152, 0, 0);
    assert!(out.is_empty());
    assert_eq!(request_rx.try_recv().unwrap(), center_tile);

    // Make the center tile ready: exactly it is drawn, at (-128, -128).
    let tile = Tile::new(&png_bytes(256, 256)).unwrap();
    tiles.commit_completion(Some((center_tile, tile)));
    let out = visible_tiles(&mut tiles, clip, center_tile, 1152, 1152, 0, 0);
    assert_eq!(out.len(), 1);
    assert_eq!(out[0].tile_id, center_tile);
    assert_eq!((out[0].screen_x, out[0].screen_y), (-128, -128));

    // Make the whole 3x3 block around it ready: all nine tiles intersect
    // the clip rectangle and each is emitted exactly once.
    for x in 3..6u32 {
        for y in 3..6u32 {
            let id = TileId { x, y, zoom: 3 };
            let _ = tiles.at(id);
            let tile = Tile::new(&png_bytes(256, 256)).unwrap();
            tiles.commit_completion(Some((id, tile)));
        }
    }
    let out = visible_tiles(&mut tiles, clip, center_tile, 1152, 1152, 0, 0);
    assert_eq!(out.len(), 9);
    for i in 0..out.len() {
        for j in 0..i {
            assert_ne!(out[i].tile_id, out[j].tile_id);
        }
        assert!(3 <= out[i].tile_id.x && out[i].tile_id.x < 6);
        assert!(3 <= out[i].tile_id.y && out[i].tile_id.y < 6);
    }
}

#[test]
fn enumerator_prunes_tiles_outside_the_clip() {
    let (mut tiles, _request_rx, _tile_tx) = Tiles::new();
    // A clip rectangle so small that only the center tile intersects it.
    let clip = ScreenRect { min_x: -10, min_y: -10, max_x: 10, max_y: 10 };
    let center_tile = TileId { x: 4, y: 4, zoom: 3 };
    for x in 3..6u32 {
        for y in 3..6u32 {
            let id = TileId { x, y, zoom: 3 };
            let _ = tiles.at(id);
            let tile = Tile::new(&png_bytes(256, 256)).unwrap();
            tiles.commit_completion(Some((id, tile)));
        }
    }
    let out = visible_tiles(&mut tiles, clip, center_tile, 1152, 1152, 0, 0);
    assert_eq!(out.len(), 1);
    assert_eq!(out[0].tile_id, center_tile);
}

#[test]
fn tile_rect_is_sized_by_the_raster() {
    let tile = Tile::new(&png_bytes(256, 128)).unwrap();
    let rect = tile.rect(-20, 30);
    assert_eq!(rect, ScreenRect { min_x: -20, min_y: 30, max_x: 236, max_y: 158 });
    let clip = ScreenRect { min_x: 0, min_y: 0, max_x: 100, max_y: 100 };
    assert!(clip.intersects(&rect));
    let far = ScreenRect { min_x: 500, min_y: 0, max_x: 600, max_y: 100 };
    assert!(!far.intersects(&rect));
}
