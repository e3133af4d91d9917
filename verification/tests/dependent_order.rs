use puzzle_coords::cube_3x3_2_color_ufr::cube::{Cube, EO_SIZE};

// The orientation of the edges is written to the slots that the places of
// the edges point out, so the places have to be decoded first.
#[test]
fn decoding_in_the_wrong_order_gives_another_cube() {
    let coord: u32 = 12345 * EO_SIZE + 0b101101;

    let mut right = Cube::new();
    right.set_edges_coord(coord);
    assert_eq!(right.edges_coord(), coord);

    let mut wrong = Cube::new();
    wrong.set_eo_coord(coord % EO_SIZE);
    wrong.set_ep_coord(coord / EO_SIZE);

    assert_eq!(wrong.ep, right.ep);
    assert_ne!(wrong.eo, right.eo);
    assert_ne!(wrong.edges_coord(), coord);
}
