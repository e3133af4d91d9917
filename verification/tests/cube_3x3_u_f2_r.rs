use puzzle_coords::cube_3x3_u_f2_r::coord_cube::CoordCube;
use puzzle_coords::cube_3x3_u_f2_r::cube::{Cube, STATE_SIZE};
use puzzle_coords::cube_3x3_u_f2_r::transposition_tables::TranspositionTables;
use puzzle_coords::parity::is_even;

#[test]
fn test_cube_decode_encode() {
    let mut x = 0u64;
    let mut cube = Cube::new();
    for _ in 0..65536 {
        x = x
            .wrapping_mul(450349535401847371)
            .wrapping_add(380506838312516788);
        let coord = x % STATE_SIZE;
        cube.decode(coord);
        assert_eq!(cube.encode(), coord);
        assert_eq!(is_even(&cube.cp), cube.is_even_perm);
        assert_eq!(is_even(&cube.ep), cube.is_even_perm);
    }
}

#[test]
fn test_coord_cube_decode_encode() {
    let transposition_tables = TranspositionTables::new();
    let mut cube = CoordCube::new(&transposition_tables);

    let mut x = 0u64;
    for _ in 0..65536 {
        x = x
            .wrapping_mul(450349535401847371)
            .wrapping_add(380506838312516788);
        let coord = x % STATE_SIZE;
        cube.decode(coord);
        assert_eq!(cube.encode(), coord);
    }
}

#[test]
fn test_cube_matches_coord_cube() {
    let transposition_tables = TranspositionTables::new();

    let mut cube = Cube::new();
    let mut coord_cube = CoordCube::new(&transposition_tables);

    let mut x = 0u64;
    for _ in 0..65536 {
        x = x
            .wrapping_mul(450349535401847371)
            .wrapping_add(380506838312516788);
        let mv = (x % 3) as u8;

        cube.do_move(mv).unwrap();
        coord_cube.do_move(mv).unwrap();

        assert_eq!(cube.encode(), coord_cube.encode());
    }
}

#[test]
fn test_cube_matches_coord_cube_2() {
    let transposition_tables = TranspositionTables::new();

    let mut cube = Cube::new();
    let mut coord_cube = CoordCube::new(&transposition_tables);

    let mut x = 0u64;
    for _ in 0..65536 {
        x = x
            .wrapping_mul(450349535401847371)
            .wrapping_add(380506838312516788);
        let enc = x % STATE_SIZE;

        cube.decode(enc);
        coord_cube.decode(enc);
        let cube2 = Cube::from(coord_cube.clone());

        assert_eq!(cube, cube2);
        assert_eq!(cube.encode(), coord_cube.encode());
    }
}

#[test]
fn test_random_scramble() {
    // Scramble: U R U F2 R F2 F2 R U U U U U R U F2 U R U U U U U F2 R F2 U R F2 R U U F2 R R
    // F2 F2 U U U F2 U R F2 R U R R F2 R U F2 F2 U U F2 F2 R F2 F2 R F2 U R U U U F2 U R R R U
    // F2 U F2 R U R U R U U U R F2 F2 F2 R R U R U U U R F2 F2 U R
    let moves = [
        0, 1, 0, 2, 1, 2, 2, 1, 0, 0, 0, 0, 0, 1, 0, 2, 0, 1, 0, 0, 0, 0, 0, 2, 1, 2, 0, 1, 2,
        1, 0, 0, 2, 1, 1, 2, 2, 0, 0, 0, 2, 0, 1, 2, 1, 0, 1, 1, 2, 1, 0, 2, 2, 0, 0, 2, 2, 1,
        2, 2, 1, 2, 0, 1, 0, 0, 0, 2, 0, 1, 1, 1, 0, 2, 0, 2, 1, 0, 1, 0, 1, 0, 0, 0, 1, 2, 2,
        2, 1, 1, 0, 1, 0, 0, 0, 1, 2, 2, 0, 1,
    ];

    let mut cube = Cube::new();
    for mv in moves {
        cube.do_move(mv).unwrap();
    }

    // Solution: F2 R U F2 U2 R F2 U' R2 U' F2 R2 U R2 U2 R2 U2 F2 R2
    let solution = [
        2, 1, 0, 2, 0, 0, 1, 2, 0, 0, 0, 1, 1, 0, 0, 0, 2, 1, 1, 0, 1, 1, 0, 0, 1, 1, 0, 0, 2,
        1, 1,
    ];

    for mv in solution {
        cube.do_move(mv).unwrap();
    }

    let solved_cube = Cube::new();
    assert_eq!(cube.encode(), solved_cube.encode());
}

#[test]
fn unknown_move_is_refused() {
    let mut cube = Cube::new();
    assert!(cube.do_move(3).is_err());
    assert_eq!(cube, Cube::new());
}
