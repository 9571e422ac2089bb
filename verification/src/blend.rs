//! Crossfade blending of a canceled trajectory into the start of the next
//! chunk.
//!
//! The canceled rows are paired, in order, with the leading rows of the next
//! chunk; each pair is mixed by a caller-supplied crossfade that knows the
//! pair's position `i` among the `n` overlapping rows (the arithmetic of the
//! mix itself is the caller's).

use vstd::prelude::*;

use crate::text::{decimal, decimal_text};

verus! {

/// An error blending a canceled trajectory with the next chunk.
#[derive(Debug, Clone, Copy, PartialEq, Eq, Structural)]
pub enum BlendError {
    /// The next chunk has fewer rows than the canceled trajectory being
    /// blended in, so the two cannot be combined row-for-row.
    InsufficientNextPositions {
        /// Number of rows in the canceled trajectory.
        canceled_len: usize,
        /// Number of rows in the next chunk.
        next_len: usize,
    },
}

impl BlendError {
    /// The text that describes the error.
    pub open spec fn description(&self) -> Seq<char> {
        match *self {
            BlendError::InsufficientNextPositions { canceled_len, next_len } => "cannot blend "@
                + decimal(canceled_len as nat) + " canceled rows with only "@ + decimal(
                next_len as nat,
            ) + " next rows"@,
        }
    }

    /// A human-readable description of the error.
    pub fn message(&self) -> (text: String)
        ensures
            text@ == self.description(),
    {
        match self {
            BlendError::InsufficientNextPositions { canceled_len, next_len } => {
                let mut text = "cannot blend ".to_owned();
                text.append(decimal_text(*canceled_len).as_str());
                text.append(" canceled rows with only ");
                text.append(decimal_text(*next_len).as_str());
                text.append(" next rows");
                text
            },
        }
    }
}

/// Crossfades a canceled trajectory into the start of the next chunk.
///
/// Row `i` of the result is `crossfade(&canceled[i], &next[i], i, n)`, with
/// `n` the number of canceled rows. Returns the blended rows and `n`, so the
/// caller can append `next[n..]` to complete the chunk.
pub fn blend<R, F: Fn(&R, &R, usize, usize) -> R>(
    canceled_positions: &[R],
    next_positions: &[R],
    crossfade: F,
) -> (blended: Result<(Vec<R>, usize), BlendError>)
    requires
        forall|i: int|
            0 <= i < canceled_positions@.len() ==> call_requires(
                crossfade,
                (&canceled_positions@[i], &next_positions@[i], i as usize, canceled_positions@.len() as usize),
            ),
    ensures
        blended is Err <==> next_positions@.len() < canceled_positions@.len(),
        blended matches Err(e) ==> e == (BlendError::InsufficientNextPositions {
            canceled_len: canceled_positions@.len() as usize,
            next_len: next_positions@.len() as usize,
        }),
        blended matches Ok((rows, n)) ==> {
            &&& n == canceled_positions@.len()
            &&& rows@.len() == n
            &&& forall|i: int|
                0 <= i < n ==> call_ensures(
                    crossfade,
                    (&canceled_positions@[i], &next_positions@[i], i as usize, n),
                    #[trigger] rows@[i],
                )
        },
{
    let n = canceled_positions.len();
    if next_positions.len() < n {
        return Err(BlendError::InsufficientNextPositions {
            canceled_len: n,
            next_len: next_positions.len(),
        });
    }
    let mut rows: Vec<R> = Vec::with_capacity(n);
    let mut i: usize = 0;
    while i < n
        invariant
            n == canceled_positions@.len(),
            n <= next_positions@.len(),
            i <= n,
            rows@.len() == i,
            forall|k: int|
                0 <= k < n ==> call_requires(
                    crossfade,
                    (&canceled_positions@[k], &next_positions@[k], k as usize, n),
                ),
            forall|k: int|
                0 <= k < i ==> call_ensures(
                    crossfade,
                    (&canceled_positions@[k], &next_positions@[k], k as usize, n),
                    #[trigger] rows@[k],
                ),
        decreases n - i,
    {
        let row = crossfade(&canceled_positions[i], &next_positions[i], i, n);
        rows.push(row);
        i = i + 1;
    }
    Ok((rows, n))
}

} // verus!
