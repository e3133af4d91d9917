use std::collections::HashSet;

use puzzle_coords::cube_3x3_2_color::coord_cube::CoordCube;
use puzzle_coords::cube_3x3_2_color::cube::{Cube, CORNERS_SIZE, EDGES_SIZE, STATE_SIZE};
use puzzle_coords::cube_3x3_2_color::transposition_tables::TranspositionTables;

#[test]
fn corners_cube_test_cube() {
    let mut cube = Cube::new();
    cube.u();
    assert!(!cube.is_solved());
    cube.u();
    assert!(!cube.is_solved());
    cube.d();
    assert!(!cube.is_solved());
    cube.d();
    assert!(!cube.is_solved());
    cube.u();
    cube.u();
    cube.d();
    cube.d();
    cube.l();
    assert!(!cube.is_solved());
    cube.l();
    assert!(!cube.is_solved());
    cube.l();
    assert!(!cube.is_solved());
    cube.l();
    assert!(cube.is_solved());

    // R U R' U' R' F R2 U' R' U' R U R' F'
    for _ in 0..2 {
        cube.r();
        cube.u();
        cube.rp();
        cube.up();
        cube.rp();
        cube.f();
        cube.r();
        cube.r();
        cube.up();
        cube.rp();
        cube.up();
        cube.r();
        cube.u();
        cube.rp();
        cube.fp();
    }
    assert!(cube.is_solved());
}

#[test]
fn test_eo_coord_1() {
    let mut cube = Cube::new();
    cube.u();
    assert_eq!(cube.eo, [0, 0, 0, 0, 0, 0, 0, 0, 0, 0, 0, 0]);
    cube.up();
    cube.l();
    assert_eq!(cube.eo, [0, 0, 0, 0, 0, 0, 0, 0, 0, 0, 0, 0]);
    cube.lp();
    cube.f();
    assert_eq!(cube.eo, [1, 0, 0, 0, 1, 0, 0, 1, 0, 0, 1, 0]);
    cube.fp();
    cube.r();
    assert_eq!(cube.eo, [0, 0, 0, 0, 0, 0, 0, 0, 0, 0, 0, 0]);
    cube.rp();
    cube.b();
    assert_eq!(cube.eo, [0, 0, 1, 0, 0, 1, 1, 0, 1, 0, 0, 0]);
    cube.bp();
    cube.d();
    assert_eq!(cube.eo, [0, 0, 0, 0, 0, 0, 0, 0, 0, 0, 0, 0]);
}

#[test]
fn test_eo_coord_2() {
    let mut cube = Cube::new();
    let eo = cube.eo_coord();

    // flip 4 edges that don't have orientation, and check eo coord
    cube.u();
    cube.l();
    cube.l();
    cube.d();
    cube.f();

    assert_eq!(cube.eo_coord(), eo);
}

#[test]
fn corners_cube_test_edges_coord() {
    let mut cube = Cube::new();
    for i in 0..EDGES_SIZE {
        cube.set_edges_coord(i as u32);
        assert_eq!(cube.edges_coord(), i as u32);
    }
}

#[test]
fn corners_cube_test_corners_coord() {
    let mut cube = Cube::new();
    for i in 0..CORNERS_SIZE {
        cube.set_corners_coord(i as u32);
        assert_eq!(cube.corners_coord(), i as u32);
    }
}

#[test]
fn corners_cube_test_encode() {
    let mut x = 0u64;
    let mut cube = Cube::new();
    for _ in 0..65536 {
        x = x.wrapping_mul(450349535401847371);
        x = x.wrapping_add(380506838312516788);
        let coord = x % STATE_SIZE;
        cube.decode(coord);
        assert_eq!(cube.encode(), coord);
    }
}

#[test]
fn corners_cube_test_depth_1() {
    let mut cube = Cube::new();
    let solved = cube.encode();
    let mut arr = [0; 18];
    cube.u();
    arr[0] = cube.encode();
    cube.u();
    arr[1] = cube.encode();
    cube.u();
    arr[2] = cube.encode();
    cube.u();
    cube.l();
    arr[3] = cube.encode();
    cube.l();
    arr[4] = cube.encode();
    cube.l();
    arr[5] = cube.encode();
    cube.l();
    cube.f();
    arr[6] = cube.encode();
    cube.f();
    arr[7] = cube.encode();
    cube.f();
    arr[8] = cube.encode();
    cube.f();
    cube.r();
    arr[9] = cube.encode();
    cube.r();
    arr[10] = cube.encode();
    cube.r();
    arr[11] = cube.encode();
    cube.r();
    cube.b();
    arr[12] = cube.encode();
    cube.b();
    arr[13] = cube.encode();
    cube.b();
    arr[14] = cube.encode();
    cube.b();
    cube.d();
    arr[15] = cube.encode();
    cube.d();
    arr[16] = cube.encode();
    cube.d();
    arr[17] = cube.encode();
    cube.d();

    let set = arr.iter().copied().collect::<HashSet<_>>();
    assert_eq!(set.len(), 18);
}

#[test]
fn corners_cube_test_coord_cube() {
    let transposition_tables = TranspositionTables::new();
    let mut coord_cube = CoordCube::new(&transposition_tables);
    let mut cube = Cube::new();

    let mut x = 0u64;
    for _ in 0..65536 {
        x = x.wrapping_mul(450349535401847371);
        x = x.wrapping_add(380506838312516788);

        let coord = x % STATE_SIZE as u64;

        cube.decode(coord);
        coord_cube.decode(coord);
        for i in 0..4 {
            coord_cube.u();
            cube.u();
            assert_eq!(cube.encode(), coord_cube.encode());
        }
        for i in 0..4 {
            coord_cube.l();
            cube.l();
            assert_eq!(cube.encode(), coord_cube.encode());
        }
        for i in 0..4 {
            coord_cube.f();
            cube.f();
            assert_eq!(cube.encode(), coord_cube.encode());
        }
        for i in 0..4 {
            coord_cube.r();
            cube.r();
            assert_eq!(cube.encode(), coord_cube.encode());
        }
        for i in 0..4 {
            coord_cube.b();
            cube.b();
            assert_eq!(cube.encode(), coord_cube.encode());
        }
        for i in 0..4 {
            coord_cube.d();
            cube.d();
            assert_eq!(cube.encode(), coord_cube.encode());
        }
    }
}
