use puzzle_coords::cube_3x3_2_color_ufb::cube::{Cube, CORNERS_SIZE, EDGES_SIZE};

#[test]
fn test_cube() {
    let mut cube = Cube::new();
    cube.u();
    assert!(!cube.is_solved());
    cube.u();
    assert!(cube.is_solved());
    cube.d();
    assert!(!cube.is_solved());
    cube.d();
    assert!(cube.is_solved());
    cube.l();
    assert!(!cube.is_solved());
    cube.l();
    assert!(!cube.is_solved());
    cube.l();
    assert!(!cube.is_solved());
    cube.l();
    assert!(cube.is_solved());

    // R U R' U' R' F R2 U' R' U' R U R' F'
    for _ in 0..2 {
        cube.r();
        cube.u();
        cube.rp();
        cube.up();
        cube.rp();
        cube.f();
        cube.r();
        cube.r();
        cube.up();
        cube.rp();
        cube.up();
        cube.r();
        cube.u();
        cube.rp();
        cube.fp();
    }
    assert!(cube.is_solved());
}

#[test]
fn test_moves_order() {
    let mut cube = Cube::new();
    for i in 0..4 {
        cube.u();
        assert_eq!(cube.is_solved(), i == 1 || i == 3);
    }
    for i in 0..4 {
        cube.x();
        assert_eq!(cube.is_solved(), i == 3);
    }
    for i in 0..4 {
        cube.y();
        assert_eq!(cube.is_solved(), i == 1 || i == 3);
    }
    for i in 0..4 {
        cube.l();
        assert_eq!(cube.is_solved(), i == 3);
    }
    for i in 0..4 {
        cube.f();
        assert_eq!(cube.is_solved(), i == 3);
    }
    for i in 0..4 {
        cube.r();
        assert_eq!(cube.is_solved(), i == 3);
    }
    for i in 0..4 {
        cube.b();
        assert_eq!(cube.is_solved(), i == 3);
    }
    for i in 0..4 {
        cube.d();
        assert_eq!(cube.is_solved(), i == 1 || i == 3);
    }
    for i in 0..4 {
        cube.z();
        assert_eq!(cube.is_solved(), i == 3);
    }
}

#[test]
fn test_eo() {
    let mut cube = Cube::new();
    cube.u();
    assert_eq!(cube.eo, [0, 0, 0, 0, 0, 0, 0, 0, 0, 0, 0, 0]);
    cube.up();
    cube.l();
    assert_eq!(cube.eo, [0, 0, 0, 0, 0, 0, 0, 0, 0, 0, 0, 0]);
    cube.lp();
    cube.f();
    assert_eq!(cube.eo, [1, 0, 0, 0, 0, 0, 0, 1, 0, 0, 0, 0]);
    cube.fp();
    cube.r();
    assert_eq!(cube.eo, [0, 0, 0, 0, 0, 0, 0, 0, 0, 0, 0, 0]);
    cube.rp();
    cube.b();
    assert_eq!(cube.eo, [0, 0, 1, 0, 0, 1, 0, 0, 0, 0, 0, 0]);
    cube.bp();
    cube.d();
    assert_eq!(cube.eo, [0, 0, 0, 0, 0, 0, 0, 0, 1, 1, 1, 1]);
}

#[test]
fn test_eo_coord() {
    let mut cube = Cube::new();
    let eo = cube.eo_coord();

    // Flip the 4 edges that don't have orientation, and check eo coord
    // R D R2 B' L2 U R' L' U' L2 F R2 D' L
    cube.r();
    cube.d();
    cube.r();
    cube.r();
    cube.bp();
    cube.l();
    cube.l();
    cube.u();
    cube.rp();
    cube.lp();
    cube.up();
    cube.l();
    cube.l();
    cube.f();
    cube.r();
    cube.r();
    cube.dp();
    cube.l();

    assert_eq!(cube.eo_coord(), eo);
}

#[test]
fn ufb_test_random_scramble() {
    let mut cube = Cube::new();

    // Scramble: D F2 R' U2 F L U2 F U F D2 R B2 L' F2 U2 D2 L' D2 L2 F2
    cube.d();
    cube.f();
    cube.f();
    cube.rp();
    cube.u();
    cube.u();
    cube.f();
    cube.l();
    cube.u();
    cube.u();
    cube.f();
    cube.u();
    cube.f();
    cube.d();
    cube.d();
    cube.r();
    cube.b();
    cube.b();
    cube.lp();
    cube.f();
    cube.f();
    cube.u();
    cube.u();
    cube.d();
    cube.d();
    cube.lp();
    cube.d();
    cube.d();
    cube.l();
    cube.l();
    cube.f();
    cube.f();

    // Solution: D2 R L2 F U' F2 U2 F D R2 F'
    cube.d();
    cube.d();
    cube.r();
    cube.l();
    cube.l();
    cube.f();
    cube.up();
    cube.f();
    cube.f();
    cube.u();
    cube.u();
    cube.f();
    cube.d();
    cube.r();
    cube.r();
    cube.fp();

    assert!(cube.is_solved());
}

#[test]
fn test_edges_coord() {
    let mut cube = Cube::new();
    for i in 0..EDGES_SIZE {
        cube.set_edges_coord(i as u32);
        assert_eq!(cube.edges_coord(), i as u32);
    }
}

#[test]
fn test_corners_coord() {
    let mut cube = Cube::new();
    for i in 0..CORNERS_SIZE {
        cube.set_corners_coord(i as u32);
        assert_eq!(cube.corners_coord(), i as u32);
    }
}

#[test]
fn test_encode() {
    let mut x = 0u64;
    let mut cube = Cube::new();
    for _ in 0..65536 {
        x = x.wrapping_mul(450349535401847371);
        x = x.wrapping_add(380506838312516788);
        let coord = x % 116397388800;
        cube.decode(coord);
        assert_eq!(cube.encode(), coord);
    }
}

#[test]
fn test_depth_1() {
    let mut cube = Cube::new();
    let solved = cube.encode();
    let mut arr = [0; 18];
    cube.u();
    arr[0] = cube.encode();
    cube.u();
    arr[1] = cube.encode();
    cube.u();
    arr[2] = cube.encode();
    cube.u();
    cube.l();
    arr[3] = cube.encode();
    cube.l();
    arr[4] = cube.encode();
    cube.l();
    arr[5] = cube.encode();
    cube.l();
    cube.f();
    arr[6] = cube.encode();
    cube.f();
    arr[7] = cube.encode();
    cube.f();
    arr[8] = cube.encode();
    cube.f();
    cube.r();
    arr[9] = cube.encode();
    cube.r();
    arr[10] = cube.encode();
    cube.r();
    arr[11] = cube.encode();
    cube.r();
    cube.b();
    arr[12] = cube.encode();
    cube.b();
    arr[13] = cube.encode();
    cube.b();
    arr[14] = cube.encode();
    cube.b();
    cube.d();
    arr[15] = cube.encode();
    cube.d();
    arr[16] = cube.encode();
    cube.d();
    arr[17] = cube.encode();
    cube.d();

    assert_eq!(arr[0], arr[2]);
    assert_eq!(arr[1], solved);
    assert_eq!(arr[15], arr[17]);
    assert_eq!(arr[16], solved);
}
