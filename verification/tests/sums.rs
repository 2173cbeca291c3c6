use simd_examples::reduce::{regular_math, scalar_math, simd_math};
use simd_examples::{simd_sum_up, sum_up};

fn upto(n: i64) -> Vec<i64> {
    (1..=n).collect::<Vec<i64>>()
}

#[test]
fn it_works() {
    assert_eq!(sum_up((0..=5).collect::<Vec<i64>>()), 15);
}

#[test]
fn simd_works() {
    assert_eq!(simd_sum_up((0..=20).collect::<Vec<i64>>()), 210);
}

#[test]
fn five_elements_take_the_fallback_only() {
    assert_eq!(simd_sum_up(vec![1, 2, 3, 4, 5]), 15);
    assert_eq!(sum_up(vec![1, 2, 3, 4, 5]), 15);
}

#[test]
fn twenty_elements_one_full_block_and_four() {
    assert_eq!(simd_sum_up(upto(20)), 210);
}

#[test]
fn empty_input_sums_to_zero() {
    assert_eq!(simd_sum_up(Vec::new()), 0);
    assert_eq!(sum_up(Vec::new()), 0);
    assert_eq!(simd_math(&[]), 0);
    assert_eq!(scalar_math(&[]), 0);
}

#[test]
fn one_full_block() {
    assert_eq!(simd_sum_up(upto(16)), 136);
    assert_eq!(simd_math(&upto(16)), 136);
}

#[test]
fn two_full_blocks_no_remainder() {
    assert_eq!(simd_sum_up(upto(32)), 528);
}

#[test]
fn single_element() {
    assert_eq!(simd_sum_up(vec![-7]), -7);
    assert_eq!(sum_up(vec![-7]), -7);
}

#[test]
fn chunked_equals_sequential_for_every_length() {
    for n in 0..100i64 {
        let nums: Vec<i64> = (0..n).map(|i| i * i * 31 - 1000 * i + 7).collect();
        let expected: i64 = nums.iter().sum();
        assert_eq!(sum_up(nums.clone()), expected);
        assert_eq!(simd_sum_up(nums), expected);
    }
}

#[test]
fn multiples_of_the_width_match_the_sequential_sum() {
    for blocks in 0..8i64 {
        let nums: Vec<i64> = (0..blocks * 16).map(|i| 3 * i - 50).collect();
        assert_eq!(simd_sum_up(nums.clone()), sum_up(nums));
    }
}

#[test]
fn repeated_calls_give_the_same_result() {
    let nums: Vec<i64> = (0..37).map(|i| 11 * i - 200).collect();
    let first = simd_sum_up(nums.clone());
    assert_eq!(simd_sum_up(nums.clone()), first);
    assert_eq!(simd_sum_up(nums), first);
    assert_eq!(first, 11 * (36 * 37 / 2) - 200 * 37);
}

#[test]
fn full_block_is_not_just_its_first_element() {
    let mut block = vec![0i64; 16];
    block[0] = 5;
    block[15] = 9;
    assert_eq!(simd_math(&block), 14);
}

#[test]
fn each_position_of_a_full_block_counts_once() {
    for i in 0..16usize {
        let mut block = vec![0i64; 16];
        block[i] = 1 << i;
        assert_eq!(simd_math(&block), 1 << i);
    }
    let block: Vec<i64> = (0..16).map(|i| 1i64 << i).collect();
    assert_eq!(simd_math(&block), 0xffff);
}

#[test]
fn block_of_seventeen_is_folded_sequentially() {
    assert_eq!(simd_math(&upto(17)), 153);
}

#[test]
fn regular_math_adds() {
    assert_eq!(regular_math(2, 3), 5);
    assert_eq!(regular_math(-2, 2), 0);
    assert_eq!(regular_math(0, i64::MIN), i64::MIN);
}

#[test]
fn regular_math_wraps() {
    assert_eq!(regular_math(i64::MAX, 1), i64::MIN);
    assert_eq!(regular_math(i64::MIN, -1), i64::MAX);
}

#[test]
fn sums_wrap_alike_on_both_paths() {
    assert_eq!(sum_up(vec![i64::MAX, 1]), i64::MIN);
    assert_eq!(simd_sum_up(vec![i64::MAX, 1]), i64::MIN);
    let mut block = vec![0i64; 16];
    block[0] = i64::MAX;
    block[4] = 1;
    assert_eq!(simd_math(&block), i64::MIN);
    assert_eq!(scalar_math(&block), i64::MIN);
    assert_eq!(simd_sum_up(block.clone()), sum_up(block));
}

#[test]
fn passing_overflow_does_not_change_a_sum_that_fits() {
    let mut nums = vec![0i64; 40];
    nums[0] = i64::MAX;
    nums[1] = i64::MAX;
    nums[20] = i64::MIN;
    nums[39] = i64::MIN;
    assert_eq!(sum_up(nums.clone()), -2);
    assert_eq!(simd_sum_up(nums), -2);
}
