use simd_examples::blocks::{Blocks, WIDTH};
use simd_examples::register::{Register, LANES};

fn widths(n: usize) -> Vec<usize> {
    let nums: Vec<i64> = (0..n as i64).collect();
    let mut cursor = Blocks::new(&nums);
    let mut out = Vec::new();
    while let Some(block) = cursor.next_block() {
        out.push(block.len());
    }
    out
}

#[test]
fn width_and_lanes() {
    assert_eq!(WIDTH, 16);
    assert_eq!(LANES, 4);
}

#[test]
fn empty_input_has_no_blocks() {
    let nums: Vec<i64> = Vec::new();
    let mut cursor = Blocks::new(&nums);
    assert_eq!(cursor.count(), 0);
    assert!(cursor.next_block().is_none());
    assert!(cursor.next_block().is_none());
}

#[test]
fn block_widths() {
    assert_eq!(widths(0), Vec::<usize>::new());
    assert_eq!(widths(1), vec![1]);
    assert_eq!(widths(5), vec![5]);
    assert_eq!(widths(15), vec![15]);
    assert_eq!(widths(16), vec![16]);
    assert_eq!(widths(17), vec![16, 1]);
    assert_eq!(widths(20), vec![16, 4]);
    assert_eq!(widths(32), vec![16, 16]);
    assert_eq!(widths(47), vec![16, 16, 15]);
}

#[test]
fn block_counts() {
    for (n, expected) in [(0usize, 0usize), (1, 1), (15, 1), (16, 1), (17, 2), (32, 2), (33, 3)] {
        let nums = vec![0i64; n];
        assert_eq!(Blocks::new(&nums).count(), expected);
    }
}

#[test]
fn blocks_laid_end_to_end_are_the_input() {
    for n in 0..70usize {
        let nums: Vec<i64> = (0..n as i64).map(|i| 7 * i - 3).collect();
        let mut cursor = Blocks::new(&nums);
        let mut joined: Vec<i64> = Vec::new();
        let mut handed_out = 0;
        while let Some(block) = cursor.next_block() {
            joined.extend_from_slice(block);
            handed_out += 1;
        }
        assert_eq!(joined, nums);
        assert_eq!(handed_out, Blocks::new(&nums).count());
        assert_eq!(handed_out, n / 16 + usize::from(n % 16 != 0));
    }
}

#[test]
fn only_the_last_block_is_short() {
    for n in 1..70usize {
        let all = widths(n);
        let (last, full) = all.split_last().unwrap();
        assert!(full.iter().all(|w| *w == 16));
        if n % 16 == 0 {
            assert_eq!(*last, 16);
        } else {
            assert_eq!(*last, n % 16);
        }
    }
}

#[test]
fn second_block_starts_at_the_width() {
    let nums: Vec<i64> = (100..120).collect();
    let mut cursor = Blocks::new(&nums);
    assert_eq!(cursor.next_block().unwrap(), &nums[0..16]);
    assert_eq!(cursor.next_block().unwrap(), &[116, 117, 118, 119]);
    assert!(cursor.next_block().is_none());
}

#[test]
fn cursor_restarts_from_a_copy() {
    let nums: Vec<i64> = (0..20).collect();
    let start = Blocks::new(&nums);
    let mut first = start;
    let mut second = start;
    assert_eq!(first.next_block().unwrap().len(), 16);
    assert_eq!(first.next_block().unwrap().len(), 4);
    assert_eq!(second.next_block().unwrap().len(), 16);
}

#[test]
fn register_keeps_lane_order() {
    assert_eq!(Register::pack(1, 2, 3, 4).extract(), (1, 2, 3, 4));
}

#[test]
fn register_adds_lane_by_lane() {
    let a = Register::pack(1, 20, 300, 4000);
    let b = Register::pack(5, 60, 700, 8000);
    assert_eq!(a.vector_add(b).extract(), (6, 80, 1000, 12000));
    assert_eq!(a.vector_add(b), b.vector_add(a));
}

#[test]
fn register_lanes_wrap_on_their_own() {
    let a = Register::pack(i64::MAX, i64::MIN, 0, -1);
    let b = Register::pack(1, -1, 0, 1);
    assert_eq!(a.vector_add(b).extract(), (i64::MIN, i64::MAX, 0, 0));
}
