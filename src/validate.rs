//! Checks made once, before any matching work.
use vstd::prelude::*;

use crate::table::Table;

verus! {

/// Why a matching call was refused.
#[derive(Debug, Clone, Copy, PartialEq, Eq, Structural)]
pub enum MatchError {
    /// The reference and query points have different dimensions.
    DimensionMismatch { reference: usize, query: usize },
    /// There are query points but no reference point to match them to.
    EmptyReference,
}

/// The outcome of the checks on a reference table and a query table: first the
/// dimensions must agree, then a non-empty query table needs at least one
/// reference point. An empty query table needs none.
pub open spec fn shape_check(reference: &Table, query: &Table) -> Result<(), MatchError> {
    if reference.width() != query.width() {
        Err(
            MatchError::DimensionMismatch {
                reference: reference.width() as usize,
                query: query.width() as usize,
            },
        )
    } else if reference@.len() == 0 && query@.len() > 0 {
        Err(MatchError::EmptyReference)
    } else {
        Ok(())
    }
}

/// Runs the checks of [`shape_check`].
pub fn check_shapes(reference: &Table, query: &Table) -> (r: Result<(), MatchError>)
    ensures
        r == shape_check(reference, query),
{
    let reference_cols = reference.ncols();
    let query_cols = query.ncols();
    if reference_cols != query_cols {
        Err(MatchError::DimensionMismatch { reference: reference_cols, query: query_cols })
    } else if reference.nrows() == 0 && query.nrows() > 0 {
        Err(MatchError::EmptyReference)
    } else {
        Ok(())
    }
}

} // verus!
