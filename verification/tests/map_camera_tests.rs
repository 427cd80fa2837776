//! Tests for the tile map and the camera: reference-map contents, map
//! validation, rotation arithmetic, and the rotation round trip.

use raymarch::camera::Camera;
use raymarch::tilemap::TileMap;

const SCALE: u64 = 65536;

#[test]
fn reference_map_dimensions_and_border() {
    let map = TileMap::reference();
    assert_eq!(map.width, 15);
    assert_eq!(map.height, 15);
    for i in 0..15 {
        assert_eq!(map.at(i, 0), 1);
        assert_eq!(map.at(i, 14), 1);
        assert_eq!(map.at(0, i), 1);
        assert_eq!(map.at(14, i), 1);
    }
}

#[test]
fn reference_map_interior_tiles() {
    let map = TileMap::reference();
    assert_eq!(map.at(5, 5), 0);
    assert_eq!(map.at(4, 8), 2);
    assert_eq!(map.at(4, 9), 2);
    assert_eq!(map.at(7, 9), 3);
    assert_eq!(map.at(8, 9), 3);
    assert_eq!(map.at(9, 9), 3);
    assert_eq!(map.at(6, 9), 0);
    assert_eq!(map.at(10, 9), 0);
}

#[test]
fn map_validation_accepts_bordered_grid() {
    let cells = vec![1, 1, 1, 1, 0, 1, 1, 1, 1];
    let map = TileMap::new(3, 3, cells).expect("a fully bordered grid is accepted");
    assert_eq!(map.at(1, 1), 0);
    assert_eq!(map.at(2, 2), 1);
}

#[test]
fn map_validation_rejects_broken_border() {
    let mut cells = vec![1u8; 9];
    cells[0] = 0;
    assert!(TileMap::new(3, 3, cells).is_none());
}

#[test]
fn map_validation_rejects_wrong_size() {
    assert!(TileMap::new(3, 3, vec![1u8; 8]).is_none());
    assert!(TileMap::new(2, 3, vec![1u8; 6]).is_none());
    assert!(TileMap::new(3, 2000, vec![1u8; 6000]).is_none());
}

#[test]
fn camera_validity_check() {
    let map = TileMap::reference();
    let cam = Camera::new(5 * SCALE, 5 * SCALE, -65536, 6554, 0, 43254);
    assert!(cam.is_valid_for(&map));
    let outside = Camera::new(0, 5 * SCALE, -65536, 6554, 0, 43254);
    assert!(!outside.is_valid_for(&map));
    let wild = Camera::new(5 * SCALE, 5 * SCALE, i64::MAX / 4, 0, 0, 43254);
    assert!(!wild.is_valid_for(&map));
}

#[test]
fn rotation_single_step_exact() {
    // Rotating the unit x vector by the fixed angle gives exactly the
    // rounded cosine and sine columns of the rotation matrix.
    let mut cam = Camera::new(5 * SCALE, 5 * SCALE, 65536, 0, 0, 0);
    cam.rotate();
    assert_eq!(cam.dir_x, 65534);
    assert_eq!(cam.dir_y, 459);
    assert_eq!(cam.plane_x, 0);
    assert_eq!(cam.plane_y, 0);
    assert_eq!(cam.pos_x, 5 * SCALE);
    assert_eq!(cam.pos_y, 5 * SCALE);
}

#[test]
fn rotation_full_turn_returns_near_start() {
    // 2 * pi / 0.007 rounds to 898 steps: a full turn. The fixed-point
    // rotation is norm-preserving up to rounding, so the vectors come
    // back within a small tolerance of where they started.
    let map = TileMap::reference();
    let mut cam = Camera::new(5 * SCALE, 5 * SCALE, -65536, 6554, 0, 43254);
    for _ in 0..898 {
        cam.rotate();
    }
    let tol: i64 = 2048;
    assert!((cam.dir_x - (-65536)).abs() <= tol, "dir_x drifted to {}", cam.dir_x);
    assert!((cam.dir_y - 6554).abs() <= tol, "dir_y drifted to {}", cam.dir_y);
    assert!((cam.plane_x - 0).abs() <= tol, "plane_x drifted to {}", cam.plane_x);
    assert!((cam.plane_y - 43254).abs() <= tol, "plane_y drifted to {}", cam.plane_y);
    // The squared-norm bound is an invariant of rotation, so the camera
    // stays usable forever.
    assert!(cam.is_valid_for(&map));
}
