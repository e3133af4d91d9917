use puzzle_coords::kilominx::minx::Kilominx;

#[test]
fn minx_test_move_order() {
    let mut minx = Kilominx::new();
    for i in 0..5 {
        minx.u();
        assert_eq!(minx.is_solved(), i == 4);
    }
    for i in 0..5 {
        minx.l();
        assert_eq!(minx.is_solved(), i == 4);
    }
    for i in 0..5 {
        minx.f();
        assert_eq!(minx.is_solved(), i == 4);
    }
    for i in 0..5 {
        minx.r();
        assert_eq!(minx.is_solved(), i == 4);
    }
    for i in 0..5 {
        minx.br();
        assert_eq!(minx.is_solved(), i == 4);
    }
    for i in 0..5 {
        minx.bl();
        assert_eq!(minx.is_solved(), i == 4);
    }
}

#[test]
fn test_t_perm() {
    let scramble =
        "R U R R R R U U U U R R R R F R R U U U U R R R R U U U U R U R R R R F F F F U";

    let mut minx = Kilominx::new();
    minx.do_alg(scramble).unwrap();

    assert_eq!(
        minx.corners,
        [1, 0, 3, 2, 4, 5, 6, 7, 8, 9, 10, 11, 12, 13, 14]
    );
}

#[test]
fn kilominx_unknown_turn_is_refused() {
    let mut minx = Kilominx::new();
    assert!(minx.do_move("D").is_err());
    assert!(minx.is_solved());
    assert!(minx.do_alg("U  BR\tX U").is_err());
    let mut other = Kilominx::new();
    other.u();
    other.br();
    assert_eq!(minx, other);
}
