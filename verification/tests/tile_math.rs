use walkers::mercator::{Position, TileId, Zoom};
use walkers::tiles::openstreetmap;

#[test]
fn project_gives_corner_pixel() {
    let t = TileId { x: 1, y: 2, zoom: 3 };
    let p = t.project();
    assert_eq!(p, (256, 512));
}

#[test]
fn neighbors_shift_by_one_tile() {
    let t = TileId { x: 3, y: 4, zoom: 3 };
    assert_eq!(t.north(), Some(TileId { x: 3, y: 3, zoom: 3 }));
    assert_eq!(t.south(), Some(TileId { x: 3, y: 5, zoom: 3 }));
    assert_eq!(t.east(), TileId { x: 4, y: 4, zoom: 3 });
    assert_eq!(t.west(), TileId { x: 2, y: 4, zoom: 3 });
}

#[test]
fn north_and_south_are_pruned_at_the_poles() {
    let top = TileId { x: 5, y: 0, zoom: 3 };
    assert_eq!(top.north(), None);
    let bottom = TileId { x: 5, y: 7, zoom: 3 };
    assert_eq!(bottom.south(), None);
}

#[test]
fn east_and_west_wrap_around_the_globe() {
    let east_edge = TileId { x: 7, y: 3, zoom: 3 };
    assert_eq!(east_edge.east(), TileId { x: 0, y: 3, zoom: 3 });
    let west_edge = TileId { x: 0, y: 3, zoom: 3 };
    assert_eq!(west_edge.west(), TileId { x: 7, y: 3, zoom: 3 });
}

#[test]
fn tile_at_pixel_contains_the_pixel() {
    // 300 / 256 == 1, 600 / 256 == 2.
    let t = walkers::mercator::tile_at_pixel(300, 600, 3);
    assert_eq!(t, TileId { x: 1, y: 2, zoom: 3 });
    let p = t.project();
    assert!(p.0 <= 300 && 300 < p.0 + 256);
    assert!(p.1 <= 600 && 600 < p.1 + 256);
    // A corner pixel belongs to the tile that starts there.
    assert_eq!(
        walkers::mercator::tile_at_pixel(512, 512, 3),
        TileId { x: 2, y: 2, zoom: 3 }
    );
}

#[test]
fn openstreetmap_follows_the_tile_scheme() {
    let url = openstreetmap(TileId { x: 1, y: 2, zoom: 3 });
    assert_eq!(url.as_str(), "https://tile.openstreetmap.org/3/1/2.png");
    let url = openstreetmap(TileId { x: 120, y: 7, zoom: 10 });
    assert_eq!(url.as_str(), "https://tile.openstreetmap.org/10/120/7.png");
    let url = openstreetmap(TileId { x: 0, y: 0, zoom: 0 });
    assert_eq!(url.as_str(), "https://tile.openstreetmap.org/0/0/0.png");
}

#[test]
fn largest_zoom_corner_tile() {
    // The last tile of the deepest grid: 2^19 - 1 = 524287.
    let t = TileId { x: 524287, y: 524287, zoom: 19 };
    assert_eq!(t.project(), (134217472, 134217472));
    assert_eq!(t.south(), None);
    assert_eq!(t.east(), TileId { x: 0, y: 524287, zoom: 19 });
    assert_eq!(
        openstreetmap(t).as_str(),
        "https://tile.openstreetmap.org/19/524287/524287.png"
    );
}

#[test]
fn position_rejects_coordinates_off_the_globe() {
    assert!(Position::new(900_000_000, 1_800_000_000).is_some());
    assert!(Position::new(900_000_001, 0).is_none());
    assert!(Position::new(0, -1_800_000_001).is_none());
    let p = Position::new(123, -456).unwrap();
    assert_eq!(p.lat_e7, 123);
    assert_eq!(p.lon_e7, -456);
}

#[test]
fn zoom_is_capped() {
    assert!(Zoom::new(19).is_some());
    assert!(Zoom::new(20).is_none());
    assert_eq!(Zoom::default().level(), 16);
}
