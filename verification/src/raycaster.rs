//! Fixed-step ray marching over the tile grid.
//!
//! A ray starts at the player's position and advances along its direction
//! vector in steps of `RAY_STEP` fixed-point units, sampling the grid cell
//! under each point. It stops at the first sample that is a wall or out of
//! bounds, or once the marched distance reaches the depth cap. The returned
//! distance is raw marched distance; fisheye correction is the projector's
//! concern, which keeps the caster reusable for any projection angle.

use vstd::prelude::*;
use crate::fixed::{fp_scale, fp_mul};
use crate::grid::{GridMap, sample_tag, sample};
use crate::trig::{sin_mrad, cos_mrad, sin_fp, cos_fp};

verus! {

/// The marching step: one fiftieth of a grid cell. Smaller would tighten the
/// wall-edge error, at more samples per ray.
pub const RAY_STEP: i64 = 20;

/// What the fixed-step march returns when it has already covered `dist`
/// without a hit: the pair of final distance and surface tag. A tag of `0`
/// means the ray reached `depth` in the open; otherwise the tag is the first
/// wall or boundary sample, and the distance is one step past that sample.
pub open spec fn march(
    map: GridMap,
    px: int,
    py: int,
    dx: int,
    dy: int,
    depth: int,
    dist: int,
) -> (int, u8)
    decreases depth - dist + 20,
{
    if dist >= depth {
        (dist, 0u8)
    } else {
        let t = sample_tag(map, px + fp_scale(dx, dist), py + fp_scale(dy, dist));
        if t != 0 {
            (dist + 20, t)
        } else {
            march(map, px, py, dx, dy, depth, dist + 20)
        }
    }
}

/// Casts one ray from `(player_x, player_y)` at `angle` milliradians and
/// reports marched distance and surface tag, exactly as the fixed-step march
/// over the grid defines them.
pub fn cast_ray(player_x: i64, player_y: i64, angle: i64, map: &GridMap, max_depth: i64) -> (r: (
    i64,
    u8,
))
    requires
        map.wf(),
        -1_000_000_000 <= player_x <= 1_000_000_000,
        -1_000_000_000 <= player_y <= 1_000_000_000,
        -1_000_000_000 <= angle <= 1_000_000_000,
        0 <= max_depth <= 1_000_000_000,
    ensures
        (r.0 as int, r.1) == march(
            *map,
            player_x as int,
            player_y as int,
            cos_mrad(angle as int),
            sin_mrad(angle as int),
            max_depth as int,
            0,
        ),
        0 <= r.0 <= max_depth + 20,
{
    let dir_x = cos_fp(angle);
    let dir_y = sin_fp(angle);
    let ghost target = march(
        *map,
        player_x as int,
        player_y as int,
        dir_x as int,
        dir_y as int,
        max_depth as int,
        0,
    );
    let mut dist: i64 = 0;
    let mut wall_type: u8 = 0;
    let mut hit_wall = false;
    while dist < max_depth && !hit_wall
        invariant
            map.wf(),
            -1_000_000_000 <= player_x <= 1_000_000_000,
            -1_000_000_000 <= player_y <= 1_000_000_000,
            0 <= max_depth <= 1_000_000_000,
            -1000 <= dir_x <= 1000,
            -1000 <= dir_y <= 1000,
            0 <= dist <= max_depth + 20,
            !hit_wall ==> wall_type == 0,
            target == (if hit_wall {
                (dist as int, wall_type)
            } else {
                march(
                    *map,
                    player_x as int,
                    player_y as int,
                    dir_x as int,
                    dir_y as int,
                    max_depth as int,
                    dist as int,
                )
            }),
        decreases max_depth + 20 - dist,
    {
        proof {
            crate::fixed::lemma_fp_scale_bound(dir_x as int, dist as int, dist as int);
            crate::fixed::lemma_fp_scale_bound(dir_y as int, dist as int, dist as int);
        }
        let rx = player_x + fp_mul(dir_x, dist);
        let ry = player_y + fp_mul(dir_y, dist);
        let t = sample(map, rx, ry);
        if t != 0 {
            hit_wall = true;
            wall_type = t;
        }
        dist = dist + 20;
    }
    proof {
        assert(target == (dist as int, wall_type));
    }
    (dist, wall_type)
}

/// The march never reports less distance than it has already covered.
pub proof fn lemma_march_dist_lower(
    map: GridMap,
    px: int,
    py: int,
    dx: int,
    dy: int,
    depth: int,
    dist: int,
)
    ensures
        march(map, px, py, dx, dy, depth, dist).0 >= dist,
    decreases depth - dist + 20,
{
    if dist >= depth {
    } else {
        let t = sample_tag(map, px + fp_scale(dx, dist), py + fp_scale(dy, dist));
        if t != 0 {
        } else {
            lemma_march_dist_lower(map, px, py, dx, dy, depth, dist + 20);
        }
    }
}

/// Along a path whose every sample up to the depth cap is walkable, the ray
/// hits nothing: the march ends with the no-hit tag and a distance within one
/// step above the cap.
pub proof fn lemma_march_clear_path(
    map: GridMap,
    px: int,
    py: int,
    dx: int,
    dy: int,
    depth: int,
    dist: int,
)
    requires
        0 <= dist,
        dist % 20 == 0,
        0 <= depth,
        forall|d: int|
            0 <= d < depth && d % 20 == 0 ==> sample_tag(
                map,
                px + fp_scale(dx, d),
                py + fp_scale(dy, d),
            ) == 0,
    ensures
        march(map, px, py, dx, dy, depth, dist).1 == 0,
        dist <= depth ==> depth <= march(map, px, py, dx, dy, depth, dist).0 < depth + 20,
        dist > depth ==> march(map, px, py, dx, dy, depth, dist).0 == dist,
    decreases depth - dist + 20,
{
    if dist >= depth {
    } else {
        assert(sample_tag(map, px + fp_scale(dx, dist), py + fp_scale(dy, dist)) == 0);
        lemma_march_clear_path(map, px, py, dx, dy, depth, dist + 20);
    }
}

/// A ray aimed at a wall stops at it: if the first non-walkable sample lies
/// at distance `hit_d`, the march reports that sample's tag, at a distance
/// exactly one step past `hit_d` — within one step size of the sampled wall.
pub proof fn lemma_march_first_hit(
    map: GridMap,
    px: int,
    py: int,
    dx: int,
    dy: int,
    depth: int,
    dist: int,
    hit_d: int,
)
    requires
        0 <= dist <= hit_d,
        dist % 20 == 0,
        hit_d % 20 == 0,
        hit_d < depth,
        forall|d: int|
            dist <= d < hit_d && d % 20 == 0 ==> sample_tag(
                map,
                px + fp_scale(dx, d),
                py + fp_scale(dy, d),
            ) == 0,
        sample_tag(map, px + fp_scale(dx, hit_d), py + fp_scale(dy, hit_d)) != 0,
    ensures
        march(map, px, py, dx, dy, depth, dist) == (
            hit_d + 20,
            sample_tag(map, px + fp_scale(dx, hit_d), py + fp_scale(dy, hit_d)),
        ),
    decreases hit_d - dist + 20,
{
    if dist == hit_d {
    } else {
        assert(dist + 20 <= hit_d) by (nonlinear_arith)
            requires
                dist % 20 == 0,
                hit_d % 20 == 0,
                dist < hit_d,
        ;
        assert(sample_tag(map, px + fp_scale(dx, dist), py + fp_scale(dy, dist)) == 0);
        lemma_march_first_hit(map, px, py, dx, dy, depth, dist + 20, hit_d);
    }
}

} // verus!
