//! Tests for the DDA raycaster: the degenerate-component sentinel, an
//! exactly computed hit, the step bound, distance positivity, and the
//! end-to-end reference scenario.

use raymarch::camera::Camera;
use raymarch::raycast::{delta_dist, raycast};
use raymarch::tilemap::TileMap;

const SCALE: u64 = 65536;
const SENTINEL: u64 = 1 << 60;

#[test]
fn delta_dist_sentinel_for_zero_component() {
    // A ray component of exactly zero must not divide; it gets the
    // sentinel.
    assert_eq!(delta_dist(0), SENTINEL);
}

#[test]
fn delta_dist_exact_values() {
    // 1 / 1.0 = 1.0 and 1 / 0.5 = 2.0, in Q16.16.
    assert_eq!(delta_dist(65536), 65536);
    assert_eq!(delta_dist(-65536), 65536);
    assert_eq!(delta_dist(32768), 131072);
}

#[test]
fn raycast_straight_west_exact_hit() {
    // Camera at (5.5, 5.5) in the reference map; the center column of an
    // 800-wide screen looks straight along -x and hits the west border
    // wall (material 1) after 5 steps, 4.5 tiles away.
    let map = TileMap::reference();
    let cam = Camera::new(360448, 360448, -65536, 0, 0, 43254);
    let hit = raycast(&map, &cam, 400, 800).expect("the ray is not degenerate");
    assert_eq!(hit.material, 1);
    assert_eq!(hit.side, 0);
    assert_eq!(hit.perp, 294912); // 4.5 in Q16.16
    assert_eq!(hit.steps, 5);
    assert_eq!(hit.point_x, 720896); // 5.5 + 5.5 accumulated
    assert_eq!(hit.point_y, 360448 + SENTINEL);
}

#[test]
fn raycast_straight_south_shaded_side() {
    // The same camera turned along +y: the x component of the ray is
    // exactly zero (the degenerate-axis case) and the hit crosses a y
    // grid line, so side is 1.
    let map = TileMap::reference();
    let cam = Camera::new(360448, 360448, 0, 65536, 43254, 0);
    let hit = raycast(&map, &cam, 400, 800).expect("the ray is not degenerate");
    assert_eq!(hit.material, 1);
    assert_eq!(hit.side, 1);
    assert_eq!(hit.perp, 557056); // 8.5 tiles to the south border
    assert_eq!(hit.steps, 9);
}

#[test]
fn raycast_degenerate_ray_returns_none() {
    // A zero facing direction and zero view plane give a zero ray for
    // every column.
    let map = TileMap::reference();
    let cam = Camera::new(360448, 360448, 0, 0, 0, 0);
    assert!(raycast(&map, &cam, 0, 800).is_none());
}

#[test]
fn raycast_step_bound_all_columns() {
    // The solid border stops every ray within width + height steps,
    // whatever the column.
    let map = TileMap::reference();
    let cam = Camera::new(5 * SCALE, 5 * SCALE, -65536, 6554, 0, 43254);
    for x in 0..800 {
        let hit = raycast(&map, &cam, x, 800).expect("no column is degenerate");
        assert!(hit.steps <= 30, "column {} took {} steps", x, hit.steps);
        assert!(hit.material != 0);
    }
}

#[test]
fn raycast_perpendicular_distance_positive() {
    // From a camera strictly between grid lines, every column's
    // perpendicular distance is positive.
    let map = TileMap::reference();
    let cam = Camera::new(360448, 360448, -65536, 6554, 0, 43254);
    for x in 0..800 {
        let hit = raycast(&map, &cam, x, 800).expect("no column is degenerate");
        assert!(hit.perp > 0, "column {} reported zero distance", x);
    }
}

#[test]
fn raycast_reference_scenario_edge_columns() {
    // The end-to-end reference scenario: the camera the frame loop
    // starts from, columns 0 and 799 of an 800-wide screen. Both hits
    // are real walls within the map's interior diagonal.
    let map = TileMap::reference();
    let cam = Camera::new(5 * SCALE, 5 * SCALE, -65536, 6554, 0, 43254);
    for &x in &[0usize, 799] {
        let hit = raycast(&map, &cam, x, 800).expect("edge columns are not degenerate");
        assert!(hit.material >= 1 && hit.material <= 3, "material {}", hit.material);
        assert!(hit.perp > 0);
        assert!(hit.perp < 20 * SCALE, "perp {} out of range", hit.perp);
    }
}
