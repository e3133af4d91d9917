use puzzle_coords::cube_3x3_ep::cube::{Cube, EP_SIZE};
use puzzle_coords::cube_3x3_ep::search::{callback_bound, Metric, CALLBACK_BOUND_HTM};
use puzzle_coords::cube_3x3_ep::transposition_tables::{d_entry, f_entry, u_entry};

#[test]
fn quarter_turn_four_times_returns_to_solved() {
    let mut cube = Cube::new();
    let solved = cube.ep_coord() as u64;
    assert_eq!(solved, 0);
    cube.u();
    assert_ne!(cube.ep_coord() as u64, solved);
    cube.u();
    let half = cube.ep_coord() as u64;
    assert_ne!(half, solved);
    cube.u();
    assert_ne!(cube.ep_coord() as u64, solved);
    cube.u();
    assert_eq!(cube.ep_coord() as u64, solved);

    // the half turn is its own inverse
    let mut cube = Cube::new();
    cube.u();
    cube.u();
    assert_eq!(cube.ep_coord() as u64, half);
    cube.u();
    cube.u();
    assert_eq!(cube.ep_coord() as u64, solved);
}

#[test]
fn every_face_has_order_four() {
    let turns: [fn(&mut Cube); 6] = [Cube::u, Cube::l, Cube::f, Cube::r, Cube::b, Cube::d];
    for turn in turns {
        let mut cube = Cube::new();
        cube.set_ep_coord(123456789);
        let start = cube.ep_coord();
        for i in 0..4 {
            turn(&mut cube);
            assert_eq!(cube.ep_coord() == start, i == 3);
        }
    }
}

#[test]
fn edge_coordinate_round_trip() {
    let mut cube = Cube::new();
    let mut x = 0u64;
    for _ in 0..65536 {
        x = x
            .wrapping_mul(450349535401847371)
            .wrapping_add(380506838312516788);
        let coord = (x % EP_SIZE as u64) as u32;
        cube.set_ep_coord(coord);
        assert_eq!(cube.ep_coord(), coord);
    }
    cube.set_ep_coord(EP_SIZE as u32 - 1);
    assert_eq!(cube.ep, [11, 10, 9, 8, 7, 6, 5, 4, 3, 2, 1, 0]);
}

#[test]
fn table_entries_follow_the_cube() {
    let mut cube = Cube::new();
    let mut x = 1u64;
    for _ in 0..4096 {
        x = x
            .wrapping_mul(450349535401847371)
            .wrapping_add(380506838312516788);
        let coord = (x % EP_SIZE as u64) as u32;
        cube.set_ep_coord(coord);
        cube.u();
        assert_eq!(u_entry(coord), cube.ep_coord());
        cube.set_ep_coord(coord);
        cube.f();
        assert_eq!(f_entry(coord), cube.ep_coord());
        cube.set_ep_coord(coord);
        cube.d();
        assert_eq!(d_entry(coord), cube.ep_coord());
    }
    // U carries the edge in place 0 to place 1, and so on round
    assert_eq!(u_entry(0), {
        let mut cube = Cube::new();
        cube.ep = [3, 0, 1, 2, 4, 5, 6, 7, 8, 9, 10, 11];
        cube.ep_coord()
    });
}

#[test]
fn callback_bounds_by_metric() {
    assert_eq!(callback_bound(Metric::Htm), CALLBACK_BOUND_HTM);
    assert_eq!(callback_bound(Metric::Htm), 11);
    assert_eq!(callback_bound(Metric::Qtm), usize::MAX);
    assert_eq!(callback_bound(Metric::Utm), usize::MAX);
}
