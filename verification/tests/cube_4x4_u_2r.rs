use puzzle_coords::cube_4x4_u_2r::coord_cube::CoordCube;
use puzzle_coords::cube_4x4_u_2r::cube::{Cube, CENTERS_CORNERS_SIZE, EDGES_SIZE, STATE_SIZE};
use puzzle_coords::cube_4x4_u_2r::search::{expand_htm, expand_qtm, expand_utm};
use puzzle_coords::cube_4x4_u_2r::transposition_tables::TranspositionTables;

#[test]
fn layer_turns_are_what_rotating_the_slices_does() {
    let mut cube = Cube::new();
    cube.edges = [0, 1, 2, 3, 4, 5, 6, 7, 8, 9];
    cube.centers = [0, 1, 2, 3, 4, 5, 6, 7, 8, 9];
    cube.u();
    assert_eq!(cube.corners, 1);
    assert_eq!(cube.edges, [6, 7, 0, 1, 2, 3, 4, 5, 8, 9]);
    assert_eq!(cube.centers, [3, 0, 1, 2, 4, 5, 6, 7, 8, 9]);
    cube.uinv();
    assert_eq!(cube.corners, 0);
    assert_eq!(cube.edges, [0, 1, 2, 3, 4, 5, 6, 7, 8, 9]);
    cube.r();
    assert_eq!(cube.edges, [8, 1, 2, 3, 4, 0, 6, 7, 9, 5]);
    assert_eq!(cube.centers, [0, 1, 4, 5, 6, 7, 8, 9, 2, 3]);
    cube.rinv();
    assert_eq!(cube.edges, [0, 1, 2, 3, 4, 5, 6, 7, 8, 9]);
    assert_eq!(cube.centers, [0, 1, 2, 3, 4, 5, 6, 7, 8, 9]);
}

#[test]
fn moves_have_order_four() {
    let mut cube = Cube::new();
    let solved = cube;
    for i in 0..4 {
        cube.u();
        assert_eq!(cube == solved, i == 3);
    }
    for i in 0..4 {
        cube.r();
        assert_eq!(cube == solved, i == 3);
    }
}

#[test]
fn coordinates_round_trip() {
    let mut cube = Cube::new();
    assert_eq!(cube.edge_coord(), 0);
    assert_eq!(cube.center_corner_coord(), 0);
    for i in 0..CENTERS_CORNERS_SIZE {
        cube.set_center_corner_coord(i);
        assert_eq!(cube.center_corner_coord(), i);
    }
    for i in (0..EDGES_SIZE).step_by(7) {
        cube.set_edge_coord(i);
        assert_eq!(cube.edge_coord(), i);
    }
    cube.set_center_coord(18899);
    assert_eq!(cube.centers, [3, 3, 2, 2, 1, 1, 0, 0, 0, 0]);
    assert_eq!(cube.center_coord(), 18899);
}

#[test]
fn tables_follow_the_cube_and_expansions_list_the_neighbours() {
    let transposition_tables = TranspositionTables::new();
    let mut coord_cube = CoordCube::new(&transposition_tables);
    let mut cube = Cube::new();

    let mut x = 0u64;
    for _ in 0..4096 {
        x = x
            .wrapping_mul(450349535401847371)
            .wrapping_add(380506838312516788);
        let node = x % STATE_SIZE;
        cube.set_edge_coord((node / 75600) as u32);
        cube.set_center_corner_coord((node % 75600) as u32);
        let encode = |c: &Cube| c.edge_coord() as u64 * 75600 + c.center_corner_coord() as u64;

        let mut expected = [0u64; 6];
        let mut c = cube;
        for i in 0..3 {
            c.u();
            expected[i] = encode(&c);
        }
        let mut c = cube;
        for i in 3..6 {
            c.r();
            expected[i] = encode(&c);
        }

        let mut htm = [0u64; 6];
        expand_htm(&mut coord_cube, node, &mut htm);
        assert_eq!(htm, expected);

        let mut qtm = [0u64; 4];
        expand_qtm(&mut coord_cube, node, &mut qtm);
        assert_eq!(qtm, [expected[0], expected[2], expected[3], expected[5]]);

        let mut utm = [0u64; 2];
        expand_utm(&mut coord_cube, node, &mut utm);
        assert_eq!(utm, [expected[2], expected[5]]);
    }
}
