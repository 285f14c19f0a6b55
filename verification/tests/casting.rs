use raymaze::grid::{from_layout, GridMap};
use raymaze::raycaster::cast_ray;
use raymaze::trig::{cos_fp, sin_fp};
use raymaze::fixed::fp_mul;

fn open_corridor(width: usize, height: usize) -> GridMap {
    let tiles = vec![0u8; width * height];
    from_layout(width, height, tiles, (0, 1), (1, 1)).unwrap()
}

#[test]
fn clear_path_reaches_max_depth_with_no_hit_tag() {
    let map = open_corridor(20, 3);
    let (dist, tag) = cast_ray(500, 1500, 0, &map, 16_000);
    assert_eq!(tag, 0);
    assert_eq!(dist, 16_000);
}

#[test]
fn clear_path_distance_is_within_one_step_of_uneven_depth_cap() {
    let map = open_corridor(20, 3);
    let (dist, tag) = cast_ray(500, 1500, 0, &map, 15_990);
    assert_eq!(tag, 0);
    assert!(dist >= 15_990 && dist < 15_990 + 20);
}

#[test]
fn ray_at_known_wall_reports_its_tag_within_one_step() {
    let mut tiles = vec![0u8; 20 * 3];
    tiles[1 * 20 + 5] = 2;
    let map = from_layout(20, 3, tiles, (0, 1), (1, 1)).unwrap();
    let (dist, tag) = cast_ray(500, 1500, 0, &map, 16_000);
    assert_eq!(tag, 2);
    // The wall's front face is 4500 fixed-point units away; the march may
    // overshoot by at most one step.
    assert!(dist >= 4500 && dist <= 4500 + 20);
}

#[test]
fn ray_leaving_the_grid_reports_the_boundary_tag() {
    let map = open_corridor(2, 2);
    let (dist, tag) = cast_ray(500, 500, 0, &map, 16_000);
    assert_eq!(tag, 1);
    assert!(dist >= 1500 && dist <= 1500 + 20);
}

#[test]
fn zero_depth_cap_reports_no_hit_at_distance_zero() {
    let map = open_corridor(3, 3);
    assert_eq!(cast_ray(1500, 1500, 0, &map, 0), (0, 0));
}

#[test]
fn ray_backwards_hits_the_boundary_behind_the_player() {
    let map = open_corridor(4, 3);
    // Half a turn: heading along the negative x axis.
    let (_dist, tag) = cast_ray(500, 1500, 3142, &map, 16_000);
    assert_eq!(tag, 1);
}

#[test]
fn cosine_is_exactly_one_at_angle_zero() {
    assert_eq!(cos_fp(0), 1000);
    assert_eq!(sin_fp(0), 0);
}

#[test]
fn cosine_vanishes_at_a_quarter_turn() {
    assert_eq!(cos_fp(1571), 0);
    assert_eq!(sin_fp(1571), 1000);
}

#[test]
fn trig_values_stay_within_one_unit_around_the_circle() {
    let mut a: i64 = -7000;
    while a <= 7000 {
        let c = cos_fp(a);
        let s = sin_fp(a);
        assert!(-1000 <= c && c <= 1000);
        assert!(-1000 <= s && s <= 1000);
        a += 13;
    }
}

#[test]
fn center_column_correction_keeps_raw_distance() {
    // cos(0) is exactly one fixed-point unit, so scaling by it is exact.
    assert_eq!(fp_mul(cos_fp(0), 2520), 2520);
    assert_eq!(fp_mul(cos_fp(0), 16_000), 16_000);
}
