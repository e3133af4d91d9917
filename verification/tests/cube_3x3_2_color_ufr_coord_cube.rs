use puzzle_coords::cube_3x3_2_color_ufr::coord_cube::CoordCube;
use puzzle_coords::cube_3x3_2_color_ufr::cube::{Cube, STATE_SIZE};
use puzzle_coords::cube_3x3_2_color_ufr::transposition_tables::TranspositionTables;

#[test]
fn coord_cube_test_coord_cube() {
    let transposition_tables = TranspositionTables::new();
    let mut coord_cube = CoordCube::new(&transposition_tables);
    let mut cube = Cube::new();

    let mut x = 0u64;
    for _ in 0..65536 {
        x = x.wrapping_mul(450349535401847371);
        x = x.wrapping_add(380506838312516788);

        let coord = x % STATE_SIZE as u64;

        cube.decode(coord);
        coord_cube.decode(coord);
        for i in 0..4 {
            coord_cube.u();
            cube.u();
            assert_eq!(cube.encode(), coord_cube.encode());
        }
        for i in 0..4 {
            coord_cube.l();
            cube.l();
            assert_eq!(cube.encode(), coord_cube.encode());
        }
        for i in 0..4 {
            coord_cube.f();
            cube.f();
            assert_eq!(cube.encode(), coord_cube.encode());
        }
        for i in 0..4 {
            coord_cube.r();
            cube.r();
            assert_eq!(cube.encode(), coord_cube.encode());
        }
        for i in 0..4 {
            coord_cube.b();
            cube.b();
            assert_eq!(cube.encode(), coord_cube.encode());
        }
        for i in 0..4 {
            coord_cube.d();
            cube.d();
            assert_eq!(cube.encode(), coord_cube.encode());
        }
    }
}
