use puzzle_coords::factorial::factorial;
use puzzle_coords::multiset::{arrangement_count, decode_multiset, encode_multiset};
use puzzle_coords::orientation::{
    decode_orientation, decode_selected, encode_orientation, encode_selected,
};
use puzzle_coords::parity::{decode_even_permutation, encode_even_permutation, is_even, parity};
use puzzle_coords::permutation::{decode_permutation, encode_permutation, lehmer_digit};
use puzzle_coords::radix::{compose, decompose};

#[test]
fn factorials() {
    assert_eq!(factorial(0), 1);
    assert_eq!(factorial(1), 1);
    assert_eq!(factorial(12), 479001600);
    assert_eq!(factorial(20), 2432902008176640000);
}

#[test]
fn permutation_rank_round_trip_small() {
    for r in 0..720u64 {
        let p: [u8; 6] = decode_permutation(r);
        assert_eq!(encode_permutation(&p), r);
    }
    for r in 0..5040u64 {
        let p: [u8; 7] = decode_permutation(r);
        assert_eq!(encode_permutation(&p), r);
    }
    let empty: [u8; 0] = decode_permutation(0);
    assert_eq!(encode_permutation(&empty), 0);
    assert_eq!(encode_permutation(&[0u8]), 0);
}

#[test]
fn permutation_rank_round_trip_large() {
    let mut x = 0u64;
    for _ in 0..65536 {
        x = x
            .wrapping_mul(450349535401847371)
            .wrapping_add(380506838312516788);
        let r = x % 479001600;
        let p: [u8; 12] = decode_permutation(r);
        assert_eq!(encode_permutation(&p), r);
    }
    let last: [u8; 20] = decode_permutation(2432902008176640000 - 1);
    assert_eq!(encode_permutation(&last), 2432902008176640000 - 1);
    assert_eq!(last[0], 19);
    assert_eq!(last[19], 0);
}

#[test]
fn permutation_rank_is_lexicographic() {
    assert_eq!(decode_permutation::<4>(0), [0, 1, 2, 3]);
    assert_eq!(decode_permutation::<4>(1), [0, 1, 3, 2]);
    assert_eq!(decode_permutation::<4>(5), [0, 3, 2, 1]);
    assert_eq!(decode_permutation::<4>(23), [3, 2, 1, 0]);
    assert_eq!(encode_permutation(&[2u8, 0, 3, 1]), 13);
    assert_eq!(lehmer_digit(&[2u8, 0, 3, 1], 0), 2);
    assert_eq!(lehmer_digit(&[2u8, 0, 3, 1], 2), 1);
}

#[test]
fn even_permutation_round_trip() {
    for r in 0..360u64 {
        let p: [u8; 6] = decode_even_permutation(r);
        assert!(is_even(&p));
        assert_eq!(parity(&p), 0);
        assert_eq!(encode_even_permutation(&p), r);
    }
    // every even permutation of four labels comes back
    for r in 0..24u64 {
        let p: [u8; 4] = decode_permutation(r);
        let q: [u8; 4] = decode_even_permutation(encode_even_permutation(&p));
        if is_even(&p) {
            assert_eq!(q, p);
        } else {
            assert_eq!(q, [p[0], p[1], p[3], p[2]]);
        }
    }
    assert_eq!(decode_even_permutation::<3>(1), [1, 2, 0]);
    assert_eq!(parity(&[1u8, 0, 2]), 1);
    assert!(!is_even(&[0u8, 2, 1]));
}

#[test]
fn multiset_rank_round_trip() {
    assert_eq!(arrangement_count(&[3u8, 6, 3]), 18480);
    assert_eq!(arrangement_count(&[4u8, 2, 2, 2]), 18900);
    assert_eq!(arrangement_count(&[2u8, 2]), 6);
    assert_eq!(arrangement_count(&[0u8, 0]), 1);
    for r in 0..18480u64 {
        let v: [u8; 12] = decode_multiset(r, &[3, 6, 3]);
        assert_eq!(encode_multiset(&v, &[3, 6, 3]), r);
    }
    for r in 0..1120u64 {
        let v: [u8; 8] = decode_multiset(r, &[3, 3, 1, 1]);
        assert_eq!(encode_multiset(&v, &[3, 3, 1, 1]), r);
    }
}

#[test]
fn multiset_rank_is_lexicographic() {
    let all: Vec<[u8; 4]> = (0..6).map(|r| decode_multiset(r, &[2, 2])).collect();
    assert_eq!(
        all,
        vec![
            [0, 0, 1, 1],
            [0, 1, 0, 1],
            [0, 1, 1, 0],
            [1, 0, 0, 1],
            [1, 0, 1, 0],
            [1, 1, 0, 0],
        ]
    );
    assert_eq!(encode_multiset(&[2u8, 1, 0, 1], &[1, 2, 1]), 10);
    assert_eq!(decode_multiset::<4, 3>(10, &[1, 2, 1]), [2, 1, 0, 1]);
}

#[test]
fn orientation_round_trip_keeps_the_sum_rule() {
    for r in 0..2187u32 {
        let v: [u8; 8] = decode_orientation(r, 3);
        assert_eq!(v.iter().map(|&x| x as u32).sum::<u32>() % 3, 0);
        assert!(v.iter().all(|&x| x < 3));
        assert_eq!(encode_orientation(&v, 3), r);
    }
    for r in 0..2048u32 {
        let v: [u8; 12] = decode_orientation(r, 2);
        assert_eq!(v.iter().map(|&x| x as u32).sum::<u32>() % 2, 0);
        assert_eq!(encode_orientation(&v, 2), r);
    }
    assert_eq!(decode_orientation::<4>(5, 3), [0, 1, 2, 0]);
    assert_eq!(decode_orientation::<4>(7, 3), [0, 2, 1, 0]);
    assert_eq!(decode_orientation::<3>(1, 3), [0, 1, 2]);
    assert_eq!(encode_orientation(&[1u8, 2, 0, 0], 3), 15);
    assert_eq!(decode_orientation::<1>(0, 3), [0]);
}

#[test]
fn orientation_of_selected_slots() {
    let companion = [0u8, 1, 1, 0, 2, 1];
    let mut ori = [7u8, 0, 0, 7, 7, 0];
    decode_selected(&mut ori, &companion, 1, 1, 2, 5);
    assert_eq!(ori, [7, 1, 0, 7, 7, 1]);
    assert_eq!(encode_selected(&[0u8, 1, 0, 0, 0, 1], &companion, 1, 1, 2), 5);
    let mut ori = [0u8; 6];
    decode_selected(&mut ori, &companion, 0, 1, 3, 200);
    assert_eq!(ori, [2, 1, 1, 0, 0, 2]);
    assert_eq!(encode_selected(&ori, &companion, 0, 1, 3), 200);
}

#[test]
fn mixed_radix_round_trip() {
    assert_eq!(compose(&[3, 5, 1], &[4, 10, 2]), 71);
    assert_eq!(decompose(71, &[4, 10, 2]), vec![3, 5, 1]);
    assert_eq!(compose(&[], &[]), 0);
    assert_eq!(decompose(0, &[]), Vec::<u64>::new());
    let radices = [18480, 64, 1120, 729];
    let mut x = 0u64;
    for _ in 0..4096 {
        x = x
            .wrapping_mul(450349535401847371)
            .wrapping_add(380506838312516788);
        let n = x % 965667225600;
        let coords = decompose(n, &radices);
        assert_eq!(compose(&coords, &radices), n);
    }
}
