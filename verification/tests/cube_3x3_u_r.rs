use puzzle_coords::cube_3x3_u_r::coord_cube::CoordCube;
use puzzle_coords::cube_3x3_u_r::corner_table::corner_arrangement_at;
use puzzle_coords::cube_3x3_u_r::cube::{Cube, ORI_SIZE, PERM_SIZE, STATE_SIZE};
use puzzle_coords::cube_3x3_u_r::search::{callback_bound, Generators, Metric};
use puzzle_coords::cube_3x3_u_r::transposition_tables::TranspositionTables;
use puzzle_coords::parity::parity;
use rayon::iter::{IntoParallelIterator as _, ParallelIterator as _};

/// The tables of U and r, which are all that the moves of the coordinate
/// cube look up, built with the work shared out among the threads; the
/// other tables stay empty.
fn tables_of_u_and_rw() -> TranspositionTables {
    fn table(size: u32, set: fn(&mut Cube, u32), turn: fn(&mut Cube), get: fn(&Cube) -> u32) -> Vec<u32> {
        (0..size)
            .into_par_iter()
            .map(|i| {
                let mut cube = Cube::new();
                set(&mut cube, i);
                turn(&mut cube);
                get(&cube)
            })
            .collect()
    }
    TranspositionTables {
        u_perm: table(PERM_SIZE, Cube::set_perm_coord, Cube::u, Cube::perm_coord),
        u_ori: table(ORI_SIZE, Cube::set_ori_coord, Cube::u, Cube::ori_coord),
        u2_perm: Vec::new(),
        u2_ori: Vec::new(),
        ur_perm: Vec::new(),
        ur_ori: Vec::new(),
        r_perm: Vec::new(),
        r_ori: Vec::new(),
        r2_perm: Vec::new(),
        r2_ori: Vec::new(),
        rw_perm: table(PERM_SIZE, Cube::set_perm_coord, Cube::rw, Cube::perm_coord),
        rw_ori: table(ORI_SIZE, Cube::set_ori_coord, Cube::rw, Cube::ori_coord),
        rw2_perm: Vec::new(),
        rw2_ori: Vec::new(),
        m_perm: Vec::new(),
        m_ori: Vec::new(),
    }
}

#[test]
fn test_perm_coord() {
    let mut cube = Cube::new();

    for i in 0..87091200 {
        cube.set_perm_coord(i);
        assert_eq!(cube.perm_coord(), i);
    }

    for i in 0..62208 {
        cube.set_ori_coord(i);
        assert_eq!(cube.ori_coord(), i);
    }
}

#[test]
fn test_cube_random_scramble() {
    let scramble = "r' U' r U' r U' r' U' r' U' r2 U2 r U' r U2 r U' r' U r2 U2 r2 U' r2 \
    U' r2 U2 r' U r2 U' r U' r U' r' U' r2 U2 r' U r2 U' r U' r2 U r U";

    let transposition_tables = tables_of_u_and_rw();

    let mut cube = Cube::new();
    let mut coord_cube = CoordCube::new(&transposition_tables);

    for (i, mv) in scramble.split_whitespace().enumerate() {
        cube.do_move(mv).unwrap();
        coord_cube.do_move(mv).unwrap();

        assert_eq!(
            cube.perm_coord(),
            coord_cube.perm,
            "perm differs after move {i} = {mv}"
        );
        assert_eq!(
            cube.ori_coord(),
            coord_cube.ori,
            "ori differs after move {i} = {mv}"
        );
        assert_eq!(
            cube,
            Cube::from(coord_cube.clone()),
            "cube differs after move {i} = {mv}"
        );
    }

    assert_eq!(
        cube,
        Cube {
            cp: [1, 4, 0, 2, 3, 5],
            co: [0, 2, 1, 1, 1, 1],
            ep: [8, 6, 4, 0, 7, 2, 5, 3, 1],
            eo: [0, 0, 0, 1, 0, 1, 1, 1, 0],
            centers: 0,
        },
    );

    let solution = "U' r' U' r2 U r2 U r2 U' r' U r' U r' U2 r' U2 r U2 r2 U r U' r' U'";

    for mv in solution.split_whitespace() {
        cube.do_move(mv).unwrap();
        coord_cube.do_move(mv).unwrap();

        assert_eq!(cube.perm_coord(), coord_cube.perm);
        assert_eq!(cube.ori_coord(), coord_cube.ori);
        assert_eq!(cube, Cube::from(coord_cube.clone()));
    }

    assert_eq!(cube, Cube::new());
}

#[test]
fn coordinate_cube_refuses_what_it_cannot_turn() {
    let transposition_tables = tables_of_small();
    let mut coord_cube = CoordCube { perm: 0, ori: 0, transposition_tables: &transposition_tables };
    assert!(coord_cube.do_move("R").is_err());
    assert!(coord_cube.do_move("M2").is_err());
    assert!(coord_cube.do_move("x").is_err());
    assert_eq!((coord_cube.perm, coord_cube.ori), (0, 0));
    assert_eq!(coord_cube.encode(), 0);
    coord_cube.decode(62208 * 5 + 17);
    assert_eq!((coord_cube.perm, coord_cube.ori), (5, 17));
}

fn tables_of_small() -> TranspositionTables {
    TranspositionTables {
        u_perm: Vec::new(),
        u_ori: Vec::new(),
        u2_perm: Vec::new(),
        u2_ori: Vec::new(),
        ur_perm: Vec::new(),
        ur_ori: Vec::new(),
        r_perm: Vec::new(),
        r_ori: Vec::new(),
        r2_perm: Vec::new(),
        r2_ori: Vec::new(),
        rw_perm: Vec::new(),
        rw_ori: Vec::new(),
        rw2_perm: Vec::new(),
        rw2_ori: Vec::new(),
        m_perm: Vec::new(),
        m_ori: Vec::new(),
    }
}

#[test]
fn cube_test_move_order() {
    let mut cube = Cube::new();
    for i in 0..4 {
        cube.u();
        assert_eq!(cube.is_solved(), i == 3);
    }
    for i in 0..4 {
        cube.r();
        assert_eq!(cube.is_solved(), i == 3);
    }
    for i in 0..4 {
        cube.m();
        assert_eq!(cube.is_solved(), i == 3);
    }
    for i in 0..4 {
        cube.rw();
        assert_eq!(cube.is_solved(), i == 3);
    }
}

#[test]
fn ori_coord_round_trip() {
    let mut cube = Cube::new();
    for i in 0..ORI_SIZE {
        cube.set_ori_coord(i);
        assert_eq!(cube.ori_coord(), i);
    }
}

#[test]
fn perm_coord_round_trip_sampled() {
    let mut cube = Cube::new();
    for i in (0..PERM_SIZE).step_by(97) {
        cube.set_perm_coord(i);
        assert_eq!(cube.perm_coord(), i);
        assert_eq!((parity(&cube.cp) + parity(&cube.ep)) % 2, cube.centers % 2);
    }
    for i in [0, 1, 2, PERM_SIZE - 2, PERM_SIZE - 1] {
        cube.set_perm_coord(i);
        assert_eq!(cube.perm_coord(), i);
    }
}

#[test]
fn corner_number_is_the_place_in_the_table() {
    let mut cube = Cube::new();
    for i in 0..120 {
        cube.cp = corner_arrangement_at(i);
        assert_eq!(cube.cp_coord(), i);
    }
    assert_eq!(corner_arrangement_at(0), [0, 1, 2, 3, 4, 5]);
    assert_eq!(corner_arrangement_at(7), [0, 2, 5, 1, 4, 3]);
    assert_eq!(corner_arrangement_at(119), [5, 4, 3, 2, 1, 0]);
}

#[test]
fn cube_random_scramble_on_the_cube() {
    let scramble = "r' U' r U' r U' r' U' r' U' r2 U2 r U' r U2 r U' r' U r2 U2 r2 U' r2 \
    U' r2 U2 r' U r2 U' r U' r U' r' U' r2 U2 r' U r2 U' r U' r2 U r U";

    let mut cube = Cube::new();

    for mv in scramble.split_whitespace() {
        cube.do_move(mv).unwrap();
        let mut other = Cube::new();
        other.decode(cube.encode());
        assert_eq!(cube, other);
    }

    assert_eq!(
        cube,
        Cube {
            cp: [1, 4, 0, 2, 3, 5],
            co: [0, 2, 1, 1, 1, 1],
            ep: [8, 6, 4, 0, 7, 2, 5, 3, 1],
            eo: [0, 0, 0, 1, 0, 1, 1, 1, 0],
            centers: 0,
        },
    );

    let solution = "U' r' U' r2 U r2 U r2 U' r' U r' U r' U2 r' U2 r U2 r2 U r U' r' U'";

    for mv in solution.split_whitespace() {
        cube.do_move(mv).unwrap();
    }

    assert_eq!(cube, Cube::new());
}

#[test]
fn state_round_trip() {
    let mut x = 0u64;
    let mut cube = Cube::new();
    for _ in 0..65536 {
        x = x
            .wrapping_mul(450349535401847371)
            .wrapping_add(380506838312516788);
        let coord = x % STATE_SIZE;
        cube.decode(coord);
        assert_eq!(cube.encode(), coord);
    }
}

#[test]
fn ksolve_text_of_the_solved_cube() {
    let cube = Cube::new();
    assert_eq!(
        cube.to_ksolve_string(),
        "corners\n1 2 3 4 5 6\n0 0 0 0 0 0\nedges\n1 2 3 4 5 6 7 8 9\n0 0 0 0 0 0 0 0 0\ncenters\n1\n0"
    );
    let mut cube = Cube::new();
    cube.rw();
    assert_eq!(
        cube.to_ksolve_string(),
        "corners\n1 2 4 5 6 3\n0 0 1 2 1 2\nedges\n7 2 1 5 8 4 9 6 3\n1 0 1 0 0 0 1 0 1\ncenters\n1\n3"
    );
}

#[test]
fn unknown_move_names_are_refused() {
    let mut cube = Cube::new();
    assert!(cube.do_move("F").is_err());
    assert!(cube.do_move("").is_err());
    assert!(cube.do_move("U3").is_err());
    assert!(cube.do_move("U2'").is_err());
    assert_eq!(cube, Cube::new());
    assert!(cube.do_move("M'").is_ok());
    let mut other = Cube::new();
    other.m_inv();
    assert_eq!(cube, other);
}

#[test]
fn callback_bounds_by_metric_and_generators() {
    assert_eq!(callback_bound(Metric::Htm, Generators::UR), Some(30));
    assert_eq!(callback_bound(Metric::Qtm, Generators::UR), Some(37));
    assert_eq!(callback_bound(Metric::Htm, Generators::URRw), Some(22));
    assert_eq!(callback_bound(Metric::Qtm, Generators::URRw), None);
}
