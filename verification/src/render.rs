//! The projector and the minimap: per-column pseudo-3D projection and the
//! top-down overlay, both specified pixel by pixel.
//!
//! Every pixel of the finished frame is a function of the map, the pose and
//! the pixel's own coordinates alone; in particular no column of the
//! projection depends on any other column.

use vstd::prelude::*;
use crate::fixed::{fp_down, fp_scale, fp_mul, fp_down_ex};
use crate::grid::GridMap;
use crate::trig::{sin_mrad, cos_mrad, sin_fp, cos_fp};
use crate::raycaster::{march, cast_ray};
use crate::session::Pose;
use crate::palette::{
    wall_strip_color,
    minimap_cell_color,
    sky_color,
    floor_color,
    goal_color,
    player_color,
    heading_color,
    tile_color,
};
use crate::draw::{pixel_at, in_rect, fill_rect, put_pixel};

verus! {

/// Frame width in pixels; one ray is cast per column.
pub const WIDTH: usize = 640;

/// Frame height in pixels.
pub const HEIGHT: usize = 480;

/// Number of projection columns: one per frame column.
pub const NUM_RAYS: usize = WIDTH;

/// Horizontal field of view, in milliradians.
pub const FOV_MRAD: i64 = 1047;

/// Depth cap for all rays, in fixed-point grid units.
pub const MAX_DEPTH: i64 = 16_000;

/// Side length of one minimap cell, in pixels.
pub const MINIMAP_SCALE: usize = 6;

/// Screen offset of the minimap's top-left corner.
pub const MINIMAP_OFFSET: usize = 10;

/// The heading a given column's ray is cast along: the fan of `NUM_RAYS`
/// equally spaced rays spans the field of view centered on the pose heading.
pub open spec fn ray_angle_for(angle: int, x: int) -> int {
    angle - 523 + (1047 * x) / 640
}

/// The ray result for one column: raw marched distance and surface tag.
pub open spec fn column_hit(map: GridMap, pose: Pose, x: int) -> (int, u8) {
    march(
        map,
        pose.x as int,
        pose.y as int,
        cos_mrad(ray_angle_for(pose.angle as int, x)),
        sin_mrad(ray_angle_for(pose.angle as int, x)),
        16_000,
        0,
    )
}

/// The fisheye-corrected distance for one column: the raw distance scaled by
/// the cosine of the column's offset from the view center.
pub open spec fn column_corrected(map: GridMap, pose: Pose, x: int) -> int {
    fp_scale(
        cos_mrad(pose.angle as int - ray_angle_for(pose.angle as int, x)),
        column_hit(map, pose, x).0,
    )
}

/// Wall strip height for a corrected distance, clamped to the frame height;
/// a vanishing or negative distance counts as a full-height wall.
pub open spec fn wall_height_of(corr: int) -> int {
    if corr <= 0 {
        480
    } else if 480_000int / corr < 480 {
        480_000int / corr
    } else {
        480
    }
}

/// The background behind the walls: sky above the midline, floor below.
pub open spec fn background_pixel(y: int) -> (u8, u8, u8) {
    if y < 240 {
        sky_color()
    } else {
        floor_color()
    }
}

/// What the projection alone puts at `(x, y)`: the column's wall strip color
/// where the strip covers the row, the background elsewhere.
pub open spec fn projector_pixel(map: GridMap, pose: Pose, x: int, y: int) -> (u8, u8, u8) {
    let corr = column_corrected(map, pose, x);
    let wh = wall_height_of(corr);
    let top = (480 - wh) / 2;
    if top <= y < top + wh {
        wall_strip_color(column_hit(map, pose, x).1)
    } else {
        background_pixel(y)
    }
}

/// The minimap pixel of the player square's top-left corner.
pub open spec fn mini_player_px(pose: Pose) -> (int, int) {
    (10 + fp_down(pose.x * 6), 10 + fp_down(pose.y * 6))
}

/// The `i`-th pixel of the heading indicator: the player marker's corner
/// advanced `i` pixels along the heading, truncated to a pixel.
pub open spec fn heading_pixel(pose: Pose, i: int) -> (int, int) {
    (
        fp_down(1000 * mini_player_px(pose).0 + cos_mrad(pose.angle as int) * i),
        fp_down(1000 * mini_player_px(pose).1 + sin_mrad(pose.angle as int) * i),
    )
}

/// Whether some point of the heading indicator lands on `(x, y)`.
pub open spec fn on_heading_line(pose: Pose, x: int, y: int) -> bool {
    exists|i: int| 0 <= i < 12 && heading_pixel(pose, i) == (x, y)
}

/// What the minimap overlay puts at `(x, y)`, if anything: the heading
/// indicator over the player marker over the goal marker over the scaled
/// grid cells.
pub open spec fn minimap_pixel(map: GridMap, pose: Pose, x: int, y: int) -> Option<(u8, u8, u8)> {
    if on_heading_line(pose, x, y) {
        Some(heading_color())
    } else if in_rect(mini_player_px(pose).0, mini_player_px(pose).1, 6, 6, x, y) {
        Some(player_color())
    } else if in_rect(10 + 6 * map.goal.0, 10 + 6 * map.goal.1, 6, 6, x, y) {
        Some(goal_color())
    } else if in_rect(10, 10, 6 * map.width, 6 * map.height, x, y) {
        Some(minimap_cell_color(map.tile((x - 10) / 6, (y - 10) / 6)))
    } else {
        None
    }
}

/// The finished scene: the minimap overlay where it covers the frame, the
/// projection elsewhere; always fully opaque.
pub open spec fn scene_pixel(map: GridMap, pose: Pose, x: int, y: int) -> (u8, u8, u8, u8) {
    match minimap_pixel(map, pose, x, y) {
        Some(c) => (c.0, c.1, c.2, 255u8),
        None => {
            let p = projector_pixel(map, pose, x, y);
            (p.0, p.1, p.2, 255u8)
        },
    }
}

/// A value whose cell is `c` lies within the cell's six-pixel band.
proof fn lemma_div6(v: int, c: int)
    requires
        6 * c <= v < 6 * c + 6,
    ensures
        v / 6 == c,
{
    assert(v / 6 == c) by (nonlinear_arith)
        requires
            6 * c <= v < 6 * c + 6,
    ;
}

/// A pixel lies in the square of minimap cell `(cx, cy)` exactly when its
/// coordinates divide down to that cell.
proof fn lemma_cell_rect(cx: int, cy: int, x: int, y: int)
    requires
        0 <= cx,
        0 <= cy,
    ensures
        in_rect(10 + 6 * cx, 10 + 6 * cy, 6, 6, x, y) <==> ((x - 10) / 6 == cx && (y - 10) / 6
            == cy && 10 <= x && 10 <= y),
{
    if in_rect(10 + 6 * cx, 10 + 6 * cy, 6, 6, x, y) {
        lemma_div6(x - 10, cx);
        lemma_div6(y - 10, cy);
    }
    if (x - 10) / 6 == cx && (y - 10) / 6 == cy && 10 <= x && 10 <= y {
        assert(6 * ((x - 10) / 6) <= x - 10 < 6 * ((x - 10) / 6) + 6) by (nonlinear_arith)
            requires
                0 <= x - 10,
        ;
        assert(6 * ((y - 10) / 6) <= y - 10 < 6 * ((y - 10) / 6) + 6) by (nonlinear_arith)
            requires
                0 <= y - 10,
        ;
    }
}

/// A pixel of the minimap's grid area divides down to an in-bounds cell.
proof fn lemma_area_cell_bounds(w: int, h: int, x: int, y: int)
    requires
        in_rect(10, 10, 6 * w, 6 * h, x, y),
    ensures
        0 <= (x - 10) / 6 < w,
        0 <= (y - 10) / 6 < h,
{
    assert(0 <= (x - 10) / 6 < w) by (nonlinear_arith)
        requires
            0 <= x - 10 < 6 * w,
    ;
    assert(0 <= (y - 10) / 6 < h) by (nonlinear_arith)
        requires
            0 <= y - 10 < 6 * h,
    ;
}

/// Draws the scaled grid cells of the minimap.
fn draw_minimap_cells(frame: &mut Vec<u8>, map: &GridMap)
    requires
        old(frame)@.len() == 4 * 640 * 480,
        map.wf(),
    ensures
        final(frame)@.len() == old(frame)@.len(),
        forall|x: int, y: int|
            0 <= x < 640 && 0 <= y < 480 && in_rect(10, 10, 6 * map.width, 6 * map.height, x, y)
                ==> pixel_at(final(frame)@, 640, x, y) == {
                let c = minimap_cell_color(map.tile((x - 10) / 6, (y - 10) / 6));
                (c.0, c.1, c.2, 255u8)
            },
        forall|x: int, y: int|
            0 <= x < 640 && 0 <= y < 480 && !in_rect(10, 10, 6 * map.width, 6 * map.height, x, y)
                ==> pixel_at(final(frame)@, 640, x, y) == pixel_at(old(frame)@, 640, x, y),
{
    let mut cy: usize = 0;
    while cy < map.height
        invariant
            frame@.len() == 4 * 640 * 480,
            map.wf(),
            0 <= cy <= map.height,
            forall|x: int, y: int|
                0 <= x < 640 && 0 <= y < 480 && in_rect(10, 10, 6 * map.width, 6 * map.height, x, y)
                    && (y - 10) / 6 < cy ==> pixel_at(frame@, 640, x, y) == {
                    let c = minimap_cell_color(map.tile((x - 10) / 6, (y - 10) / 6));
                    (c.0, c.1, c.2, 255u8)
                },
            forall|x: int, y: int|
                0 <= x < 640 && 0 <= y < 480 && !(in_rect(
                    10,
                    10,
                    6 * map.width,
                    6 * map.height,
                    x,
                    y,
                ) && (y - 10) / 6 < cy) ==> pixel_at(frame@, 640, x, y) == pixel_at(
                    old(frame)@,
                    640,
                    x,
                    y,
                ),
        decreases map.height - cy,
    {
        let mut cx: usize = 0;
        while cx < map.width
            invariant
                frame@.len() == 4 * 640 * 480,
                map.wf(),
                0 <= cy < map.height,
                0 <= cx <= map.width,
                forall|x: int, y: int|
                    0 <= x < 640 && 0 <= y < 480 && in_rect(
                        10,
                        10,
                        6 * map.width,
                        6 * map.height,
                        x,
                        y,
                    ) && ((y - 10) / 6 < cy || ((y - 10) / 6 == cy && (x - 10) / 6 < cx))
                        ==> pixel_at(frame@, 640, x, y) == {
                        let c = minimap_cell_color(map.tile((x - 10) / 6, (y - 10) / 6));
                        (c.0, c.1, c.2, 255u8)
                    },
                forall|x: int, y: int|
                    0 <= x < 640 && 0 <= y < 480 && !(in_rect(
                        10,
                        10,
                        6 * map.width,
                        6 * map.height,
                        x,
                        y,
                    ) && ((y - 10) / 6 < cy || ((y - 10) / 6 == cy && (x - 10) / 6 < cx)))
                        ==> pixel_at(frame@, 640, x, y) == pixel_at(old(frame)@, 640, x, y),
            decreases map.width - cx,
        {
            proof {
                crate::grid::lemma_row_major_index(
                    map.width as int,
                    map.height as int,
                    cx as int,
                    cy as int,
                );
            }
            let tag = map.tiles[cy * map.width + cx];
            let color = tile_color(tag);
            let ghost pre = frame@;
            fill_rect(
                frame,
                640,
                480,
                10 + cx * 6,
                10 + cy * 6,
                6,
                6,
                color.0,
                color.1,
                color.2,
                255,
            );
            proof {
                assert forall|x: int, y: int| 0 <= x < 640 && 0 <= y < 480 implies (#[trigger] in_rect(
                    10 + 6 * (cx as int),
                    10 + 6 * (cy as int),
                    6,
                    6,
                    x,
                    y,
                ) <==> ((x - 10) / 6 == cx as int && (y - 10) / 6 == cy as int && 10 <= x && 10
                    <= y)) by {
                    lemma_cell_rect(cx as int, cy as int, x, y);
                }
                assert forall|x: int, y: int|
                    0 <= x < 640 && 0 <= y < 480 && #[trigger] in_rect(
                        10,
                        10,
                        6 * map.width,
                        6 * map.height,
                        x,
                        y,
                    ) implies 0 <= (x - 10) / 6 < map.width && 0 <= (y - 10) / 6 < map.height by {
                    lemma_area_cell_bounds(map.width as int, map.height as int, x, y);
                }
            }
            cx = cx + 1;
        }
        proof {
            assert forall|x: int, y: int|
                0 <= x < 640 && 0 <= y < 480 && #[trigger] in_rect(
                    10,
                    10,
                    6 * map.width,
                    6 * map.height,
                    x,
                    y,
                ) implies 0 <= (x - 10) / 6 < map.width && 0 <= (y - 10) / 6 < map.height by {
                lemma_area_cell_bounds(map.width as int, map.height as int, x, y);
            }
        }
        cy = cy + 1;
    }
}

/// Draws the minimap over the frame: scaled grid cells, then the goal
/// marker, the player marker, and the heading indicator, later passes over
/// earlier ones. Every pixel the overlay covers gets its `minimap_pixel`
/// value; every other pixel is left untouched.
pub fn render_minimap(frame: &mut Vec<u8>, map: &GridMap, pose: &Pose)
    requires
        old(frame)@.len() == 4 * 640 * 480,
        map.wf(),
        pose.wf(*map),
    ensures
        final(frame)@.len() == old(frame)@.len(),
        forall|x: int, y: int|
            0 <= x < 640 && 0 <= y < 480 ==> pixel_at(final(frame)@, 640, x, y) == (
            match minimap_pixel(*map, *pose, x, y) {
                Some(c) => (c.0, c.1, c.2, 255u8),
                None => pixel_at(old(frame)@, 640, x, y),
            }),
{
    draw_minimap_cells(frame, map);
    let ghost s1 = frame@;
    let gx = 10 + map.goal.0 * 6;
    let gy = 10 + map.goal.1 * 6;
    fill_rect(frame, 640, 480, gx, gy, 6, 6, 80, 200, 255, 255);
    let ghost s2 = frame@;
    let ppx = 10 + (((pose.x * 6) as u64) / 1000) as usize;
    let ppy = 10 + (((pose.y * 6) as u64) / 1000) as usize;
    proof {
        assert(ppx as int == mini_player_px(*pose).0);
        assert(ppy as int == mini_player_px(*pose).1);
    }
    fill_rect(frame, 640, 480, ppx, ppy, 6, 6, 255, 255, 0, 255);
    let ghost s3 = frame@;
    let dir_c = cos_fp(pose.angle);
    let dir_s = sin_fp(pose.angle);
    let mut i: i64 = 0;
    while i < 12
        invariant
            frame@.len() == 4 * 640 * 480,
            s3.len() == 4 * 640 * 480,
            0 <= i <= 12,
            dir_c == cos_mrad(pose.angle as int),
            -1000 <= dir_c <= 1000,
            dir_s == sin_mrad(pose.angle as int),
            -1000 <= dir_s <= 1000,
            ppx as int == mini_player_px(*pose).0,
            ppy as int == mini_player_px(*pose).1,
            ppx <= 70_000,
            ppy <= 70_000,
            forall|x: int, y: int|
                0 <= x < 640 && 0 <= y < 480 && (exists|j: int|
                    0 <= j < i && heading_pixel(*pose, j) == (x, y)) ==> pixel_at(
                    frame@,
                    640,
                    x,
                    y,
                ) == (255u8, 255u8, 255u8, 255u8),
            forall|x: int, y: int|
                0 <= x < 640 && 0 <= y < 480 && !(exists|j: int|
                    0 <= j < i && heading_pixel(*pose, j) == (x, y)) ==> pixel_at(
                    frame@,
                    640,
                    x,
                    y,
                ) == pixel_at(s3, 640, x, y),
        decreases 12 - i,
    {
        proof {
            assert(-12_000 <= dir_c * i <= 12_000 && -12_000 <= dir_s * i <= 12_000)
                by (nonlinear_arith)
                requires
                    -1000 <= dir_c <= 1000,
                    -1000 <= dir_s <= 1000,
                    0 <= i < 12,
            ;
        }
        let vx = (ppx as i64) * 1000 + dir_c * i;
        let vy = (ppy as i64) * 1000 + dir_s * i;
        let hx = fp_down_ex(vx);
        let hy = fp_down_ex(vy);
        proof {
            assert(hx as int == heading_pixel(*pose, i as int).0);
            assert(hy as int == heading_pixel(*pose, i as int).1);
        }
        if hx >= 0 && hx < 640 && hy >= 0 && hy < 480 {
            put_pixel(frame, 640, 480, hx as usize, hy as usize, 255, 255, 255, 255);
            proof {
                assert(heading_pixel(*pose, i as int) == (hx as int, hy as int));
            }
        }
        i = i + 1;
    }
    proof {
        assert forall|x: int, y: int| 0 <= x < 640 && 0 <= y < 480 implies pixel_at(
            frame@,
            640,
            x,
            y,
        ) == (match minimap_pixel(*map, *pose, x, y) {
            Some(c) => (c.0, c.1, c.2, 255u8),
            None => pixel_at(old(frame)@, 640, x, y),
        }) by {
            if on_heading_line(*pose, x, y) {
            } else {
                assert(pixel_at(frame@, 640, x, y) == pixel_at(s3, 640, x, y));
            }
        }
    }
}

/// Renders one full frame: sky-and-floor background, one wall strip per
/// column, and the minimap overlay on top. Afterward every pixel holds its
/// `scene_pixel` value — a function of the map, the pose and the pixel's own
/// coordinates, so no column of the projection depends on any other.
pub fn render_3d_basic(frame: &mut Vec<u8>, map: &GridMap, pose: &Pose)
    requires
        old(frame)@.len() == 4 * 640 * 480,
        map.wf(),
        pose.wf(*map),
    ensures
        final(frame)@.len() == old(frame)@.len(),
        forall|x: int, y: int|
            0 <= x < 640 && 0 <= y < 480 ==> pixel_at(final(frame)@, 640, x, y) == scene_pixel(
                *map,
                *pose,
                x,
                y,
            ),
{
    fill_rect(frame, 640, 480, 0, 0, 640, 240, 120, 180, 255, 255);
    fill_rect(frame, 640, 480, 0, 240, 640, 240, 218, 219, 195, 255);
    let ghost bg = frame@;
    proof {
        assert forall|x: int, y: int| 0 <= x < 640 && 0 <= y < 480 implies pixel_at(
            bg,
            640,
            x,
            y,
        ) == ({
            let b = background_pixel(y);
            (b.0, b.1, b.2, 255u8)
        }) by {
            assert(in_rect(0, 0, 640, 240, x, y) <==> y < 240);
            assert(in_rect(0, 240, 640, 240, x, y) <==> 240 <= y);
        }
    }
    let mut col: usize = 0;
    while col < 640
        invariant
            frame@.len() == 4 * 640 * 480,
            map.wf(),
            pose.wf(*map),
            0 <= col <= 640,
            forall|x: int, y: int|
                0 <= x < 640 && 0 <= y < 480 && x < col ==> pixel_at(frame@, 640, x, y) == ({
                    let p = projector_pixel(*map, *pose, x, y);
                    (p.0, p.1, p.2, 255u8)
                }),
            forall|x: int, y: int|
                0 <= x < 640 && 0 <= y < 480 && x >= col ==> pixel_at(frame@, 640, x, y) == ({
                    let b = background_pixel(y);
                    (b.0, b.1, b.2, 255u8)
                }),
        decreases 640 - col,
    {
        let offset = ((1047u64 * (col as u64)) / 640) as i64;
        let ray_angle = pose.angle - 523 + offset;
        let hit = cast_ray(pose.x, pose.y, ray_angle, map, MAX_DEPTH);
        let dist = hit.0;
        let tag = hit.1;
        let diff = pose.angle - ray_angle;
        let cfix = cos_fp(diff);
        let corr = fp_mul(cfix, dist);
        let wh: usize = if corr <= 0 {
            480
        } else {
            let q = 480_000u64 / (corr as u64);
            if q < 480 {
                q as usize
            } else {
                480
            }
        };
        let top: usize = (480 - wh) / 2;
        let color = tile_color(tag);
        proof {
            assert(ray_angle as int == ray_angle_for(pose.angle as int, col as int));
            assert((dist as int, tag) == column_hit(*map, *pose, col as int));
            assert(corr as int == column_corrected(*map, *pose, col as int));
            assert(wh as int == wall_height_of(corr as int));
        }
        fill_rect(frame, 640, 480, col, top, 1, wh, color.0, color.1, color.2, 255);
        proof {
            assert forall|x: int, y: int|
                0 <= x < 640 && 0 <= y < 480 && x < col + 1 implies pixel_at(
                frame@,
                640,
                x,
                y,
            ) == ({
                let p = projector_pixel(*map, *pose, x, y);
                (p.0, p.1, p.2, 255u8)
            }) by {
                if x == col {
                    assert(in_rect(col as int, top as int, 1, wh as int, x, y) <==> (top <= y < top
                        + wh));
                }
            }
        }
        col = col + 1;
    }
    render_minimap(frame, map, pose);
}

/// The fisheye correction is the identity at the view center: for the column
/// whose ray heads exactly along the pose heading the angle offset is zero,
/// its cosine is exactly one, and the corrected distance equals the raw
/// marched distance.
pub proof fn lemma_fisheye_center(raw: int)
    requires
        0 <= raw,
    ensures
        fp_scale(cos_mrad(0), raw) == raw,
{
    crate::trig::lemma_cos_zero();
    crate::fixed::lemma_fp_down_exact(raw);
    assert(cos_mrad(0) * raw == raw * 1000);
}

/// The center column of the fan is such a column: its ray angle offset is
/// zero, so its corrected distance equals its raw distance.
pub proof fn lemma_fisheye_center_column(map: GridMap, pose: Pose)
    ensures
        ray_angle_for(pose.angle as int, 320) == pose.angle,
        column_corrected(map, pose, 320) == column_hit(map, pose, 320).0,
{
    assert((1047 * 320) / 640 == 523);
    crate::raycaster::lemma_march_dist_lower(
        map,
        pose.x as int,
        pose.y as int,
        cos_mrad(ray_angle_for(pose.angle as int, 320)),
        sin_mrad(ray_angle_for(pose.angle as int, 320)),
        16_000,
        0,
    );
    lemma_fisheye_center(column_hit(map, pose, 320).0);
}

/// Column independence: every pixel of the finished scene is a function of
/// the map, the pose and its own coordinates, so any two frames that realize
/// the scene — whatever order their columns were rendered in — are identical
/// byte for byte.
pub proof fn lemma_column_independence(map: GridMap, pose: Pose, f1: Seq<u8>, f2: Seq<u8>)
    requires
        f1.len() == 4 * 640 * 480,
        f2.len() == 4 * 640 * 480,
        forall|x: int, y: int|
            0 <= x < 640 && 0 <= y < 480 ==> pixel_at(f1, 640, x, y) == scene_pixel(map, pose, x, y),
        forall|x: int, y: int|
            0 <= x < 640 && 0 <= y < 480 ==> pixel_at(f2, 640, x, y) == scene_pixel(map, pose, x, y),
    ensures
        f1 == f2,
{
    assert forall|i: int| 0 <= i < f1.len() implies f1[i] == f2[i] by {
        let p = i / 4;
        let k = i % 4;
        let x = p % 640;
        let y = p / 640;
        assert(i == 4 * p + k && 0 <= k < 4);
        assert(p == 640 * y + x && 0 <= x < 640);
        assert(0 <= y < 480) by (nonlinear_arith)
            requires
                0 <= p < 640 * 480,
                y == p / 640,
        ;
        assert(crate::draw::pixel_index(640, x, y) == 4 * p);
        assert(pixel_at(f1, 640, x, y) == scene_pixel(map, pose, x, y));
        assert(pixel_at(f2, 640, x, y) == scene_pixel(map, pose, x, y));
    }
    assert(f1 =~= f2);
}

} // verus!
