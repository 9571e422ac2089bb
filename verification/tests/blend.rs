//! Behavior tests for crossfade blending of a canceled trajectory.

use dora_openarm_actions_executor_rust::{blend, BlendError};

/// The linear crossfade the node uses: weight `1 - i / (n - 1)` on the
/// canceled row (`1` when `n == 1`), the rest on the next row.
fn linear(canceled_row: &Vec<f32>, next_row: &Vec<f32>, i: usize, n: usize) -> Vec<f32> {
    let weight = if n == 1 { 1.0 } else { 1.0 - (i as f32) / ((n - 1) as f32) };
    canceled_row
        .iter()
        .zip(next_row.iter())
        .map(|(&c, &x)| c * weight + x * (1.0 - weight))
        .collect()
}

#[test]
fn empty_canceled_positions_blend_to_nothing() {
    let (blended, n) = blend(&[], &[vec![1.0], vec![2.0]], linear).unwrap();
    assert!(blended.is_empty());
    assert_eq!(n, 0);
}

#[test]
fn single_canceled_row_is_taken_verbatim() {
    let canceled = vec![vec![5.0, 6.0]];
    let next = vec![vec![1.0, 2.0], vec![3.0, 4.0]];
    let (blended, n) = blend(&canceled, &next, linear).unwrap();
    assert_eq!(blended, vec![vec![5.0, 6.0]]);
    assert_eq!(n, 1);
}

#[test]
fn two_canceled_rows_crossfade_linearly() {
    let canceled = vec![vec![0.0], vec![10.0]];
    let next = vec![vec![100.0], vec![200.0], vec![300.0]];
    let (blended, n) = blend(&canceled, &next, linear).unwrap();
    assert_eq!(blended, vec![vec![0.0], vec![200.0]]);
    assert_eq!(n, 2);
}

#[test]
fn three_canceled_rows_crossfade_at_the_midpoint() {
    let canceled = vec![vec![0.0], vec![0.0], vec![0.0]];
    let next = vec![vec![10.0], vec![10.0], vec![10.0], vec![10.0]];
    let (blended, n) = blend(&canceled, &next, linear).unwrap();
    assert_eq!(blended, vec![vec![0.0], vec![5.0], vec![10.0]]);
    assert_eq!(n, 3);
}

#[test]
fn more_canceled_rows_than_next_rows_is_an_error() {
    let canceled = vec![vec![0.0], vec![0.0], vec![0.0]];
    let next = vec![vec![1.0]];
    let error = blend(&canceled, &next, linear).unwrap_err();
    assert_eq!(
        error,
        BlendError::InsufficientNextPositions {
            canceled_len: 3,
            next_len: 1,
        }
    );
}

#[test]
fn each_pair_is_mixed_with_its_index_and_the_overlap_count() {
    let canceled = vec![10, 20];
    let next = vec![1, 2, 3];
    let (blended, n) = blend(&canceled, &next, |c: &i64, x: &i64, i: usize, k: usize| {
        c * 1000 + x * 100 + (i as i64) * 10 + k as i64
    })
    .unwrap();
    assert_eq!(n, 2);
    assert_eq!(blended, vec![10_102, 20_212]);
}

#[test]
fn equal_lengths_blend_every_row() {
    let canceled = vec![1, 2, 3];
    let next = vec![4, 5, 6];
    let (blended, n) = blend(&canceled, &next, |c: &i32, x: &i32, _: usize, _: usize| c + x).unwrap();
    assert_eq!(n, 3);
    assert_eq!(blended, vec![5, 7, 9]);
}

#[test]
fn blend_error_message() {
    let error = BlendError::InsufficientNextPositions {
        canceled_len: 3,
        next_len: 1,
    };
    assert_eq!(error.message(), "cannot blend 3 canceled rows with only 1 next rows");
}

#[test]
fn blend_error_message_renders_large_counts() {
    let error = BlendError::InsufficientNextPositions {
        canceled_len: 1_000_900,
        next_len: 10,
    };
    assert_eq!(error.message(), "cannot blend 1000900 canceled rows with only 10 next rows");
}
