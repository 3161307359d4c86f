use vstd::prelude::*;

verus! {

/// Why a carving step could not be carried out.
#[derive(Debug, Clone, Copy, PartialEq, Eq, Structural)]
pub enum CarveError {
    /// The grid has no rows, or its rows have no columns.
    EmptyGrid,
    /// The rows of an energy grid do not all have the same length.
    RaggedRows,
    /// A seam does not hold one in-range, adjacent point per row of the grid.
    InvalidSeam,
    /// More seams were requested than the grid's size allows.
    GridExhausted,
}

} // verus!
