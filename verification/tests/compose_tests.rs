use audiotar::blend::blend;
use audiotar::compose::{apply_level, audiotar};
use audiotar::error::SoundError;
use audiotar::matching::{find_best, patch_cost};
use audiotar::pyramid::{coarsen, copied, depth, halve, stride_within};

/// 1.0 as a fixed-point sample with 24 bits behind the point.
const ONE: i32 = 1 << 24;

fn to_fixed(x: f32) -> i32 {
    (x * ONE as f32).round() as i32
}

#[test]
fn zero_levels_is_invalid() {
    assert_eq!(audiotar(&[1, 2, 3], &[4, 5], 0), Err(SoundError::InvalidParameterError));
}

#[test]
fn negative_levels_is_invalid() {
    assert_eq!(audiotar(&[1, 2, 3], &[4, 5], -1), Err(SoundError::InvalidParameterError));
    assert_eq!(audiotar(&[], &[], i32::MIN), Err(SoundError::InvalidParameterError));
}

#[test]
fn empty_template_returns_the_reference() {
    let big: Vec<i32> = vec![5, -3, 8, 0, -7, 2, 9];
    assert_eq!(audiotar(&big, &[], 1), Ok(big.clone()));
    assert_eq!(audiotar(&big, &[], 4), Ok(big.clone()));
    assert_eq!(audiotar(&big, &[], i32::MAX), Ok(big));
}

#[test]
fn empty_reference_gives_an_empty_result() {
    assert_eq!(audiotar(&[], &[1, 2, 3, 4], 3), Ok(vec![]));
}

#[test]
fn template_longer_than_the_reference() {
    assert_eq!(audiotar(&[1, 2, 3], &[10, 10, 10, 10, 10, 10, 10, 10], 3), Ok(vec![1, 2, 3]));
    assert_eq!(audiotar(&[0, 0, 0, 0], &[8, 8, 8, 8, 8, 8], 1).map(|v| v.len()), Ok(4));
}

#[test]
fn one_level_on_small_numbers() {
    let big = [0, 10, 20, 30, 40, 50, 60, 70];
    let small = [100, -100, 100, -100];
    assert_eq!(audiotar(&big, &small, 1), Ok(vec![0, 55, 20, 65, 40, 75, 60, 85]));
}

#[test]
fn more_levels_on_small_numbers() {
    let big = [0, 10, 20, 30, 40, 50, 60, 70];
    let small = [100, -100, 100, -100];
    assert_eq!(audiotar(&big, &small, 2), Ok(vec![0, 52, 20, -42, 40, -37, 60, -32]));
    assert_eq!(audiotar(&big, &small, 3), Ok(vec![0, 52, 10, 56, 40, -40, 30, -36]));
    assert_eq!(audiotar(&big, &small, 4), audiotar(&big, &small, 3));
    assert_eq!(audiotar(&big, &small, i32::MAX), audiotar(&big, &small, 3));
}

#[test]
fn levels_on_mixed_signs() {
    let big = [5, -3, 8, 0, -7, 2, 9, -1, 4, 6, -2, 3];
    let small = [1, 7, -4, 0, 9, 2];
    assert_eq!(audiotar(&big, &small, 1), Ok(vec![5, -3, 6, 0, -6, 2, 9, -2, 3, 6, -2, 2]));
    assert_eq!(audiotar(&big, &small, 2), Ok(vec![5, -3, 5, 1, -6, 1, 7, -1, 3, 6, -2, 2]));
    assert_eq!(audiotar(&big, &small, 3), Ok(vec![5, -2, 4, 1, -6, 1, 5, -1, 3, 5, -2, 2]));
}

#[test]
fn zeros_and_ones_at_two_levels() {
    let big: Vec<i32> = vec![to_fixed(0.0); 1000];
    let small: Vec<i32> = vec![to_fixed(1.0); 100];
    let out = match audiotar(&big, &small, 2) {
        Ok(out) => out,
        Err(_) => panic!("two levels are valid"),
    };
    assert_eq!(out.len(), 1000);
    assert_eq!(&out[..6], &[0, 664377, 1315333, 1952867, 2576980, 3187670]);
    assert_eq!(&out[24..27], &[12240656, 12582912, 12240656]);
    assert_eq!(out[25], to_fixed(0.75));
    // Tiles are 50 samples long at both levels. At every border the
    // template's weight is nothing, and next to it one part in 50 a level.
    let threshold: i32 = 2 * (ONE / 50);
    for tile in 0..20 {
        let first: usize = tile * 50;
        assert_eq!(out[first], 0);
        assert_eq!(out[first + 49], 664377);
        assert_eq!(out[first + 1], 664377);
    }
    for i in 0..999 {
        assert!((out[i + 1] - out[i]).abs() <= threshold);
    }
    for sample in &out {
        assert!(0 <= *sample && *sample <= ONE);
    }
}

#[test]
fn result_stays_in_the_range_of_the_inputs() {
    let big: Vec<i32> = (0..300).map(|i| ((i * 7919) % 2001) - 1000).collect();
    let small: Vec<i32> = (0..37).map(|i| ((i * 104729) % 1501) - 750).collect();
    for levels in 1..7 {
        let out = match audiotar(&big, &small, levels) {
            Ok(out) => out,
            Err(_) => panic!("positive levels are valid"),
        };
        assert_eq!(out.len(), big.len());
        for sample in &out {
            assert!(-1000 <= *sample && *sample <= 1000);
        }
    }
}

#[test]
fn extreme_samples_do_not_overflow() {
    let big = [i32::MIN, i32::MAX, i32::MIN, i32::MAX, 0, 0];
    let small = [i32::MAX, i32::MIN, i32::MAX, i32::MIN];
    let out = match audiotar(&big, &small, 3) {
        Ok(out) => out,
        Err(_) => panic!("positive levels are valid"),
    };
    assert_eq!(out.len(), 6);
    assert_eq!(out[0], i32::MIN);
}

#[test]
fn one_level_at_a_time() {
    assert_eq!(
        apply_level(&[0; 10], &[100, 100, 100, 100], 0),
        vec![0, 50, 0, 50, 0, 50, 0, 50, 0, 50]
    );
    assert_eq!(apply_level(&[3, 4, 5], &[100, 100], 2), vec![3, 4, 5]);
    assert_eq!(apply_level(&[3, 4, 5], &[], 0), vec![3, 4, 5]);
}

#[test]
fn halving_takes_means_towards_zero() {
    assert_eq!(halve(&[1, 2, -3, -4, 5, -6, 7]), vec![1, -3, 0]);
    assert_eq!(halve(&[-1, -2]), vec![-1]);
    assert_eq!(halve(&[i32::MAX, i32::MAX, i32::MIN, i32::MIN]), vec![i32::MAX, i32::MIN]);
    assert_eq!(halve(&[9]), Vec::<i32>::new());
    assert_eq!(halve(&[]), Vec::<i32>::new());
}

#[test]
fn coarse_levels() {
    let x = [8, 4, 2, 6, 1, 3, 5, 7, 9];
    assert_eq!(coarsen(&x, 0), x.to_vec());
    assert_eq!(coarsen(&x, 1), vec![6, 4, 2, 6]);
    assert_eq!(coarsen(&x, 2), vec![5, 4]);
    assert_eq!(coarsen(&x, 3), vec![4]);
    assert_eq!(coarsen(&x, 4), Vec::<i32>::new());
    assert_eq!(coarsen(&x, u32::MAX), Vec::<i32>::new());
    assert_eq!(copied(&x), x.to_vec());
}

#[test]
fn depth_counts_the_levels_with_samples() {
    assert_eq!(depth(0), 0);
    assert_eq!(depth(1), 1);
    assert_eq!(depth(2), 2);
    assert_eq!(depth(3), 2);
    assert_eq!(depth(4), 3);
    assert_eq!(depth(100), 7);
    assert_eq!(depth(usize::MAX), usize::BITS);
}

#[test]
fn strides_are_powers_of_two() {
    assert_eq!(stride_within(0, 1), Some(1));
    assert_eq!(stride_within(0, 0), None);
    assert_eq!(stride_within(3, 8), Some(8));
    assert_eq!(stride_within(3, 7), None);
    assert_eq!(stride_within(10, 5000), Some(1024));
    assert_eq!(stride_within(u32::MAX, usize::MAX), None);
}

#[test]
fn cost_is_the_sum_of_distances() {
    let b = [0, 5, 9, 2];
    let t = [9, 2, 0, 5, 9];
    assert_eq!(patch_cost(&b, &t, 0, 0, 2), 12);
    assert_eq!(patch_cost(&b, &t, 0, 1, 2), 7);
    assert_eq!(patch_cost(&b, &t, 0, 2, 2), 0);
    assert_eq!(patch_cost(&b, &t, 0, 3, 2), 9);
    assert_eq!(patch_cost(&b, &t, 2, 3, 0), 0);
    assert_eq!(patch_cost(&[i32::MIN], &[i32::MAX], 0, 0, 1), 0xFFFF_FFFF);
}

#[test]
fn best_offset_is_the_first_of_least_cost() {
    let b = [0, 5, 9, 2];
    let t = [9, 2, 0, 5, 9];
    assert_eq!(find_best(&b, &t, 0, 2), 2);
    assert_eq!(find_best(&b, &t, 2, 2), 0);
    assert_eq!(find_best(&[1, 1], &[1, 1, 1, 1], 0, 2), 0);
    assert_eq!(find_best(&[4], &[0, 9, 4, 4], 0, 1), 2);
}

#[test]
fn blend_moves_by_the_weight() {
    assert_eq!(blend(0, 100, 0, 50), 0);
    assert_eq!(blend(0, 100, 25, 50), 50);
    assert_eq!(blend(0, 100, 1, 50), 2);
    assert_eq!(blend(100, 0, 1, 50), 98);
    assert_eq!(blend(0, 7, 1, 2), 3);
    assert_eq!(blend(0, -7, 1, 2), -3);
    assert_eq!(blend(10, 10, 3, 7), 10);
    assert_eq!(blend(i32::MIN, i32::MAX, 1, 1), i32::MAX);
    assert_eq!(blend(i32::MAX, i32::MIN, 1, 2), 0);
}
