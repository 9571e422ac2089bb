//! Behavior tests for action chunk row validation.

use dora_openarm_actions_executor_rust::{parse_positions, ChunkError};

fn float_rows(rows: &[Vec<f32>]) -> Vec<Option<Vec<f32>>> {
    rows.iter().cloned().map(Some).collect()
}

#[test]
fn parses_uniform_rows() {
    let rows = vec![vec![1.0, 2.0], vec![3.0, 4.0], vec![5.0, 6.0]];
    let parsed = parse_positions(float_rows(&rows)).expect("valid chunk");
    assert_eq!(parsed, rows);
}

#[test]
fn empty_chunk_is_an_error() {
    let error = parse_positions(float_rows(&[])).unwrap_err();
    assert_eq!(error, ChunkError::EmptyChunk);
}

#[test]
fn ragged_row_is_an_error() {
    let rows = vec![vec![1.0, 2.0], vec![3.0]];
    let error = parse_positions(float_rows(&rows)).unwrap_err();
    assert_eq!(
        error,
        ChunkError::RaggedRow {
            index: 1,
            expected: 2,
            got: 1,
        }
    );
}

#[test]
fn non_float32_child_is_an_error() {
    let rows: Vec<Option<Vec<f32>>> = vec![None, None];
    let error = parse_positions(rows).unwrap_err();
    assert_eq!(error, ChunkError::RowNotFloat32 { index: 0 });
}

#[test]
fn the_first_offending_row_decides_the_error() {
    let rows = vec![Some(vec![1.0_f32, 2.0]), Some(vec![3.0]), None];
    assert_eq!(
        parse_positions(rows).unwrap_err(),
        ChunkError::RaggedRow {
            index: 1,
            expected: 2,
            got: 1,
        }
    );
    let rows = vec![Some(vec![1.0_f32, 2.0]), None, Some(vec![3.0])];
    assert_eq!(parse_positions(rows).unwrap_err(), ChunkError::RowNotFloat32 { index: 1 });
}

#[test]
fn a_single_empty_row_is_accepted() {
    let rows: Vec<Option<Vec<f32>>> = vec![Some(vec![])];
    assert_eq!(parse_positions(rows).unwrap(), vec![Vec::<f32>::new()]);
}

#[test]
fn chunk_error_messages() {
    assert_eq!(ChunkError::EmptyChunk.message(), "action chunk has no rows");
    assert_eq!(
        ChunkError::RowNotFloat32 { index: 12 }.message(),
        "action chunk row 12 is not a Float32 array"
    );
    assert_eq!(
        ChunkError::RaggedRow {
            index: 3,
            expected: 16,
            got: 8,
        }
        .message(),
        "action chunk row 3 has length 8, expected 16"
    );
}
