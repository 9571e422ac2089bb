//! Validation of an incoming action chunk's position rows.
//!
//! A chunk arrives as a list of rows; each row either holds the element
//! values of one action step, or is of the wrong element type. The rows are
//! accepted only when there is at least one, every row has the right type,
//! and every row is as long as the first.

use vstd::prelude::*;

use crate::text::{decimal, decimal_text};

verus! {

broadcast use vstd::std_specs::vec::axiom_spec_into_iter;

/// An error parsing the `actions` input's position rows.
#[derive(Debug, Clone, Copy, PartialEq, Eq, Structural)]
pub enum ChunkError {
    /// The chunk had no rows.
    EmptyChunk,
    /// A row's values were not of the expected element type.
    RowNotFloat32 {
        /// Index of the offending row.
        index: usize,
    },
    /// A row's length did not match the first row's length.
    RaggedRow {
        /// Index of the offending row.
        index: usize,
        /// The length established by the first row.
        expected: usize,
        /// The offending row's actual length.
        got: usize,
    },
}

impl ChunkError {
    /// The text that describes the error.
    pub open spec fn description(&self) -> Seq<char> {
        match *self {
            ChunkError::EmptyChunk => "action chunk has no rows"@,
            ChunkError::RowNotFloat32 { index } => "action chunk row "@ + decimal(index as nat)
                + " is not a Float32 array"@,
            ChunkError::RaggedRow { index, expected, got } => "action chunk row "@ + decimal(
                index as nat,
            ) + " has length "@ + decimal(got as nat) + ", expected "@ + decimal(expected as nat),
        }
    }

    /// A human-readable description of the error.
    pub fn message(&self) -> (text: String)
        ensures
            text@ == self.description(),
    {
        match self {
            ChunkError::EmptyChunk => "action chunk has no rows".to_owned(),
            ChunkError::RowNotFloat32 { index } => {
                let mut text = "action chunk row ".to_owned();
                text.append(decimal_text(*index).as_str());
                text.append(" is not a Float32 array");
                text
            },
            ChunkError::RaggedRow { index, expected, got } => {
                let mut text = "action chunk row ".to_owned();
                text.append(decimal_text(*index).as_str());
                text.append(" has length ");
                text.append(decimal_text(*got).as_str());
                text.append(", expected ");
                text.append(decimal_text(*expected).as_str());
                text
            },
        }
    }
}

/// Row `i` is acceptable: it has the expected element type, and it is as
/// long as the first row (which must itself have the expected type).
pub open spec fn row_ok<V>(rows: Seq<Option<Vec<V>>>, i: int) -> bool {
    &&& rows[i] is Some
    &&& rows[0] is Some
    &&& rows[i]->0@.len() == rows[0]->0@.len()
}

/// Every row before `end` is acceptable.
pub open spec fn rows_ok_before<V>(rows: Seq<Option<Vec<V>>>, end: int) -> bool {
    forall|j: int| 0 <= j < end ==> #[trigger] row_ok(rows, j)
}

/// Checks the rows of one action chunk and hands back their values, one
/// row per action step.
///
/// `rows[i]` is `None` when row `i`'s values are not of the expected
/// element type. The first offending row decides the error.
pub fn parse_positions<V>(rows: Vec<Option<Vec<V>>>) -> (parsed: Result<Vec<Vec<V>>, ChunkError>)
    ensures
        (parsed == Err::<Vec<Vec<V>>, ChunkError>(ChunkError::EmptyChunk)) <==> rows@.len() == 0,
        parsed is Ok <==> (rows@.len() > 0 && rows_ok_before(rows@, rows@.len() as int)),
        parsed matches Ok(p) ==> p@.len() == rows@.len() && forall|i: int|
            0 <= i < rows@.len() ==> #[trigger] p@[i] == rows@[i]->0,
        parsed matches Err(ChunkError::RowNotFloat32 { index }) ==> {
            &&& index < rows@.len()
            &&& rows@[index as int] is None
            &&& rows_ok_before(rows@, index as int)
        },
        parsed matches Err(ChunkError::RaggedRow { index, expected, got }) ==> {
            &&& 0 < index < rows@.len()
            &&& rows@[index as int] is Some
            &&& rows@[0] is Some
            &&& expected == rows@[0]->0@.len()
            &&& got == rows@[index as int]->0@.len()
            &&& expected != got
            &&& rows_ok_before(rows@, index as int)
        },
{
    let n = rows.len();
    if n == 0 {
        return Err(ChunkError::EmptyChunk);
    }
    let ghost all = rows@;
    let mut expected: usize = 0;
    let mut positions: Vec<Vec<V>> = Vec::with_capacity(n);
    for row in it: rows.into_iter()
        invariant
            n == all.len(),
            n > 0,
            it.seq() == all,
            positions@.len() == it.index(),
            rows_ok_before(all, it.index() as int),
            it.index() > 0 ==> all[0] is Some && expected == all[0]->0@.len(),
            forall|i: int| 0 <= i < it.index() ==> #[trigger] positions@[i] == all[i]->0,
    {
        let index = positions.len();
        match row {
            None => {
                assert(!row_ok(all, index as int));
                return Err(ChunkError::RowNotFloat32 { index });
            },
            Some(values) => {
                let len = values.len();
                if index == 0 {
                    expected = len;
                } else if len != expected {
                    assert(!row_ok(all, index as int));
                    return Err(ChunkError::RaggedRow { index, expected, got: len });
                }
                positions.push(values);
                assert(row_ok(all, index as int));
            },
        }
    }
    Ok(positions)
}

} // verus!
