use puzzle_coords::megaminx_u_r::coord_minx::CoordMinx;
use puzzle_coords::megaminx_u_r::minx::{Megaminx, CORNERS_SIZE, EP_SIZE};
use puzzle_coords::megaminx_u_r::transposition_tables::TranspositionTables;

#[test]
fn test_move_order() {
    let mut minx = Megaminx::new();
    for i in 0..5 {
        minx.u();
        assert_eq!(minx.is_solved(), i == 4);
    }
    for i in 0..5 {
        minx.r();
        assert_eq!(minx.is_solved(), i == 4);
    }
}

#[test]
fn minx_test_random_scramble() {
    let scramble = "R2 U' R' U2' R' U R' U2' R' U R U2 R' U2' R U2' R U R2' U2' R' U2' R2 U2' \
    R2' U R2 U' R2' U2 R' U R' U2' R U2' R2 U2 R2 U2' R U2' R' U2' R2' U R2 U2 R' U2'";

    let mut minx = Megaminx::new();
    minx.do_alg(scramble).unwrap();

    assert_eq!(
        minx,
        Megaminx {
            cp: [6, 7, 0, 5, 2, 1, 4, 3],
            co: [1, 2, 2, 0, 1, 2, 2, 2],
            ep: [8, 0, 5, 4, 3, 7, 2, 6, 1],
        }
    );

    let solution = "U' R' U R2 U' R U' R2' U' R' U2' R2' U' R' U2' R' U R2 U' R' U'";

    minx.do_alg(solution).unwrap();

    assert_eq!(minx.is_solved(), true);
}

#[test]
fn test_random_scramble_2() {
    let scramble = "R2 U' R' U2' R' U R' U2' R' U R U2 R' U2' R U2' R U R2' U2' R' U2' R2 U2' \
    R2' U R2 U' R2' U2 R' U R' U2' R U2' R2 U2 R2 U2' R U2' R' U2' R2' U R2 U2 R' U2'";

    let transposition_tables = TranspositionTables::new();
    let mut minx = CoordMinx::new(&transposition_tables);
    minx.do_alg(scramble).unwrap();

    assert_eq!(
        Megaminx::from(&minx),
        Megaminx {
            cp: [6, 7, 0, 5, 2, 1, 4, 3],
            co: [1, 2, 2, 0, 1, 2, 2, 2],
            ep: [8, 0, 5, 4, 3, 7, 2, 6, 1],
        }
    );

    let solution = "U' R' U R2 U' R U' R2' U' R' U2' R2' U' R' U2' R' U R2 U' R' U'";

    minx.do_alg(solution).unwrap();

    assert_eq!(minx.is_solved(), true);
}

#[test]
fn test_coords() {
    let mut minx = Megaminx::new();

    for i in 0..CORNERS_SIZE as u32 {
        minx.set_corners_coord(i);
        assert_eq!(minx.corners_coord(), i);
    }

    for i in 0..EP_SIZE as u32 {
        minx.set_ep_coord(i);
        assert_eq!(minx.ep_coord(), i);
    }
}

#[test]
fn megaminx_unknown_turn_is_refused() {
    let mut minx = Megaminx::new();
    assert!(minx.do_move("U3").is_err());
    assert!(minx.do_move("L").is_err());
    assert!(minx.is_solved());
    assert!(minx.do_alg("U R2' F U").is_err());
    let mut other = Megaminx::new();
    other.u();
    other.r();
    other.r();
    other.r();
    assert_eq!(minx, other);
    assert!(minx.do_alg("  U'\n R2 ").is_ok());
    other.do_move("U'").unwrap();
    other.do_move("R2").unwrap();
    assert_eq!(minx, other);
}
