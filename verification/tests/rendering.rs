use raymaze::grid::{from_layout, GridMap};
use raymaze::palette::tile_color;
use raymaze::render::{render_3d_basic, render_minimap};
use raymaze::session::{initial_pose, Pose};
use raymaze::draw::{fill_rect, put_pixel, blit_image, fit_dimensions};

fn bordered_five() -> GridMap {
    let mut tiles = vec![0u8; 5 * 5];
    for x in 0..5 {
        tiles[x] = 1;
        tiles[4 * 5 + x] = 1;
    }
    for y in 0..5 {
        tiles[y * 5] = 1;
        tiles[y * 5 + 4] = 1;
    }
    from_layout(5, 5, tiles, (1, 1), (3, 3)).unwrap()
}

fn pixel(frame: &[u8], x: usize, y: usize) -> (u8, u8, u8, u8) {
    let i = 4 * (y * 640 + x);
    (frame[i], frame[i + 1], frame[i + 2], frame[i + 3])
}

#[test]
fn frame_is_fully_opaque_after_rendering() {
    let map = bordered_five();
    let pose = initial_pose(&map);
    let mut frame = vec![0u8; 4 * 640 * 480];
    render_3d_basic(&mut frame, &map, &pose);
    for p in 0..640 * 480 {
        assert_eq!(frame[4 * p + 3], 255);
    }
}

#[test]
fn background_shows_sky_above_and_floor_below_the_midline() {
    let map = bordered_five();
    let pose = Pose { x: 1500, y: 1500, angle: 0 };
    let mut frame = vec![0u8; 4 * 640 * 480];
    render_3d_basic(&mut frame, &map, &pose);
    assert_eq!(pixel(&frame, 639, 0), (120, 180, 255, 255));
    assert_eq!(pixel(&frame, 639, 479), (218, 219, 195, 255));
}

#[test]
fn center_column_wall_strip_has_the_hit_tile_color() {
    let map = bordered_five();
    let pose = Pose { x: 1500, y: 1500, angle: 0 };
    let mut frame = vec![0u8; 4 * 640 * 480];
    render_3d_basic(&mut frame, &map, &pose);
    // The center ray marches 2500 units to the wall at column four, plus one
    // step; the corrected distance equals the raw one, so the strip spans
    // rows 145 to 335 of column 320.
    let c = tile_color(1);
    assert_eq!(pixel(&frame, 320, 240), (c.0, c.1, c.2, 255));
    assert_eq!(pixel(&frame, 320, 145), (c.0, c.1, c.2, 255));
    assert_eq!(pixel(&frame, 320, 144), (120, 180, 255, 255));
    assert_eq!(pixel(&frame, 320, 334), (c.0, c.1, c.2, 255));
    assert_eq!(pixel(&frame, 320, 335), (218, 219, 195, 255));
}

#[test]
fn minimap_cells_share_the_projector_palette() {
    let mut tiles = vec![0u8; 5 * 5];
    for x in 0..5 {
        tiles[x] = 1;
        tiles[4 * 5 + x] = 1;
    }
    for y in 0..5 {
        tiles[y * 5] = 1;
        tiles[y * 5 + 4] = 1;
    }
    tiles[2 * 5 + 2] = 2;
    tiles[2 * 5 + 3] = 3;
    let map = from_layout(5, 5, tiles, (1, 1), (1, 3)).unwrap();
    // Keep the player marker clear of the probed cell squares.
    let pose = Pose { x: 1200, y: 1200, angle: 0 };
    let mut frame = vec![0u8; 4 * 640 * 480];
    render_3d_basic(&mut frame, &map, &pose);
    // One probe pixel inside each cell square: (10 + 6 cx + 2, 10 + 6 cy + 2).
    for (cx, cy, tag) in [(0usize, 0usize, 1u8), (2, 2, 2), (3, 2, 3), (1, 2, 0)] {
        let c = tile_color(tag);
        assert_eq!(pixel(&frame, 10 + 6 * cx + 2, 10 + 6 * cy + 2), (c.0, c.1, c.2, 255));
    }
}

#[test]
fn minimap_overlays_goal_player_and_heading() {
    let map = bordered_five();
    let pose = Pose { x: 1500, y: 1500, angle: 0 };
    let mut frame = vec![7u8; 4 * 640 * 480];
    render_minimap(&mut frame, &map, &pose);
    // Goal square at cell (3, 3): origin (28, 28).
    assert_eq!(pixel(&frame, 30, 30), (80, 200, 255, 255));
    // Player square origin: (10 + 9, 10 + 9).
    assert_eq!(pixel(&frame, 19, 22), (255, 255, 0, 255));
    // The heading indicator runs right from the player square's corner.
    assert_eq!(pixel(&frame, 19, 19), (255, 255, 255, 255));
    assert_eq!(pixel(&frame, 30, 19), (255, 255, 255, 255));
    // Outside every overlay the frame is untouched.
    assert_eq!(pixel(&frame, 100, 100), (7, 7, 7, 7));
}

#[test]
fn fill_rect_clips_and_touches_nothing_else() {
    let mut frame = vec![0u8; 4 * 10 * 10];
    fill_rect(&mut frame, 10, 10, 8, 8, 5, 5, 9, 8, 7, 6);
    let at = |x: usize, y: usize| {
        let i = 4 * (y * 10 + x);
        (frame[i], frame[i + 1], frame[i + 2], frame[i + 3])
    };
    assert_eq!(at(8, 8), (9, 8, 7, 6));
    assert_eq!(at(9, 9), (9, 8, 7, 6));
    assert_eq!(at(7, 8), (0, 0, 0, 0));
    assert_eq!(at(0, 0), (0, 0, 0, 0));
}

#[test]
fn put_pixel_writes_exactly_one_pixel() {
    let mut frame = vec![0u8; 4 * 10 * 10];
    put_pixel(&mut frame, 10, 10, 3, 4, 1, 2, 3, 4);
    assert_eq!(&frame[4 * (4 * 10 + 3)..4 * (4 * 10 + 3) + 4], &[1, 2, 3, 4]);
    let untouched: usize = frame.iter().map(|&b| b as usize).sum();
    assert_eq!(untouched, 1 + 2 + 3 + 4);
}

#[test]
fn blit_copies_the_source_and_clips_at_the_edge() {
    let mut frame = vec![0u8; 4 * 4 * 4];
    let src = vec![9u8; 4 * 2 * 2];
    blit_image(&mut frame, 4, 4, &src, 2, 2, 3, 3);
    let at = |x: usize, y: usize| frame[4 * (y * 4 + x)];
    assert_eq!(at(3, 3), 9);
    assert_eq!(at(2, 3), 0);
    assert_eq!(at(3, 2), 0);
}

#[test]
fn rendering_the_same_scene_twice_gives_identical_frames() {
    let map = bordered_five();
    let pose = Pose { x: 1500, y: 1500, angle: 300 };
    let mut f1 = vec![0u8; 4 * 640 * 480];
    let mut f2 = vec![255u8; 4 * 640 * 480];
    render_3d_basic(&mut f1, &map, &pose);
    render_3d_basic(&mut f2, &map, &pose);
    assert_eq!(f1, f2);
}

#[test]
fn fit_dimensions_matches_the_aspect_rules() {
    assert_eq!(fit_dimensions(100, 100, 640, 480), (480, 480));
    assert_eq!(fit_dimensions(320, 240, 640, 480), (640, 480));
    assert_eq!(fit_dimensions(1000, 100, 640, 480), (640, 64));
    assert_eq!(fit_dimensions(100, 1000, 640, 480), (48, 480));
}
