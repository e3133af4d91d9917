use std::collections::HashSet;

use puzzle_coords::cube_3x3_2_color_ufr::cube::{Cube, CORNERS_SIZE, EDGES_SIZE, STATE_SIZE};

#[test]
fn cube_test_cube() {
    let mut cube = Cube::new();
    cube.u();
    assert!(!cube.is_solved());
    cube.u();
    assert!(!cube.is_solved());
    cube.d();
    assert!(!cube.is_solved());
    cube.d();
    assert!(!cube.is_solved());
    cube.u();
    cube.u();
    cube.d();
    cube.d();
    cube.l();
    assert!(!cube.is_solved());
    cube.l();
    assert!(!cube.is_solved());
    cube.l();
    assert!(!cube.is_solved());
    cube.l();
    assert!(cube.is_solved());

    // R U R' U' R' F R2 U' R' U' R U R' F'
    for _ in 0..2 {
        cube.r();
        cube.u();
        cube.rp();
        cube.up();
        cube.rp();
        cube.f();
        cube.r();
        cube.r();
        cube.up();
        cube.rp();
        cube.up();
        cube.r();
        cube.u();
        cube.rp();
        cube.fp();
    }
    assert!(cube.is_solved());
}

#[test]
fn cube_test_moves_order() {
    let mut cube = Cube::new();
    for i in 0..4 {
        cube.u();
        assert_eq!(cube.is_solved(), i == 3);
    }
    for i in 0..4 {
        cube.x();
        assert_eq!(cube.is_solved(), i == 3);
    }
    for i in 0..4 {
        cube.y();
        assert_eq!(cube.is_solved(), i == 3);
    }
    for i in 0..4 {
        cube.l();
        assert_eq!(cube.is_solved(), i == 3);
    }
    for i in 0..4 {
        cube.f();
        assert_eq!(cube.is_solved(), i == 3);
    }
    for i in 0..4 {
        cube.r();
        assert_eq!(cube.is_solved(), i == 3);
    }
    for i in 0..4 {
        cube.b();
        assert_eq!(cube.is_solved(), i == 3);
    }
    for i in 0..4 {
        cube.d();
        assert_eq!(cube.is_solved(), i == 3);
    }
    for i in 0..4 {
        cube.z();
        assert_eq!(cube.is_solved(), i == 3);
    }
}

#[test]
fn cube_test_eo() {
    let mut cube = Cube::new();
    cube.u();
    assert_eq!(cube.eo, [0, 0, 0, 0, 0, 0, 0, 0, 0, 0, 0, 0]);
    cube.up();
    cube.l();
    assert_eq!(cube.eo, [0, 0, 0, 0, 0, 0, 0, 0, 0, 0, 0, 0]);
    cube.lp();
    cube.f();
    assert_eq!(cube.eo, [1, 0, 0, 0, 0, 0, 0, 1, 0, 0, 0, 0]);
    cube.fp();
    cube.r();
    assert_eq!(cube.eo, [0, 0, 0, 0, 0, 0, 1, 1, 0, 0, 0, 0]);
    cube.rp();
    cube.b();
    assert_eq!(cube.eo, [0, 0, 0, 0, 0, 1, 0, 0, 1, 0, 0, 0]);
    cube.bp();
    cube.d();
    assert_eq!(cube.eo, [0, 0, 0, 0, 0, 0, 0, 0, 1, 0, 1, 0]);
}

#[test]
fn cube_test_eo_coord() {
    let mut cube = Cube::new();
    let eo = cube.eo_coord();

    // Flip 2 edges that don't have orientation, and check eo coord
    // R U' R2 U2 R L F R' F' L' U2 R U
    cube.r();
    cube.up();
    cube.r();
    cube.r();
    cube.u();
    cube.u();
    cube.r();
    cube.l();
    cube.f();
    cube.rp();
    cube.fp();
    cube.lp();
    cube.u();
    cube.u();
    cube.r();
    cube.u();

    assert_eq!(cube.eo_coord(), eo);
}

#[test]
fn cube_test_random_scramble() {
    let mut cube = Cube::new();

    // Scramble: D B2 D L2 D U R2 B2 L2 R2 U R B' D' U' F R' U2 B D R2
    cube.d();
    cube.b();
    cube.b();
    cube.d();
    cube.l();
    cube.l();
    cube.d();
    cube.u();
    cube.r();
    cube.r();
    cube.b();
    cube.b();
    cube.l();
    cube.l();
    cube.r();
    cube.r();
    cube.u();
    cube.r();
    cube.bp();
    cube.dp();
    cube.up();
    cube.f();
    cube.rp();
    cube.u();
    cube.u();
    cube.b();
    cube.d();
    cube.r();
    cube.r();

    // Solution: R' B2 R2 U R F' D2 R F R2 L
    cube.rp();
    cube.b();
    cube.b();
    cube.r();
    cube.r();
    cube.u();
    cube.r();
    cube.fp();
    cube.d();
    cube.d();
    cube.r();
    cube.f();
    cube.r();
    cube.r();
    cube.l();

    assert!(cube.is_solved());
}

#[test]
fn cube_test_edges_coord() {
    let mut cube = Cube::new();
    for i in 0..EDGES_SIZE {
        cube.set_edges_coord(i as u32);
        assert_eq!(cube.edges_coord(), i as u32);
    }
}

#[test]
fn cube_test_corners_coord() {
    let mut cube = Cube::new();
    for i in 0..CORNERS_SIZE {
        cube.set_corners_coord(i as u32);
        assert_eq!(cube.corners_coord(), i as u32);
    }
}

#[test]
fn cube_test_encode() {
    let mut x = 0u64;
    let mut cube = Cube::new();
    for _ in 0..65536 {
        x = x.wrapping_mul(450349535401847371);
        x = x.wrapping_add(380506838312516788);
        let coord = x % STATE_SIZE;
        cube.decode(coord);
        assert_eq!(cube.encode(), coord);
    }
}

#[test]
fn cube_test_depth_1() {
    let mut cube = Cube::new();
    let mut arr = [0; 18];
    cube.u();
    arr[0] = cube.encode();
    cube.u();
    arr[1] = cube.encode();
    cube.u();
    arr[2] = cube.encode();
    cube.u();
    cube.l();
    arr[3] = cube.encode();
    cube.l();
    arr[4] = cube.encode();
    cube.l();
    arr[5] = cube.encode();
    cube.l();
    cube.f();
    arr[6] = cube.encode();
    cube.f();
    arr[7] = cube.encode();
    cube.f();
    arr[8] = cube.encode();
    cube.f();
    cube.r();
    arr[9] = cube.encode();
    cube.r();
    arr[10] = cube.encode();
    cube.r();
    arr[11] = cube.encode();
    cube.r();
    cube.b();
    arr[12] = cube.encode();
    cube.b();
    arr[13] = cube.encode();
    cube.b();
    arr[14] = cube.encode();
    cube.b();
    cube.d();
    arr[15] = cube.encode();
    cube.d();
    arr[16] = cube.encode();
    cube.d();
    arr[17] = cube.encode();
    cube.d();

    let set = arr.iter().copied().collect::<HashSet<_>>();
    assert_eq!(set.len(), 18);
}
