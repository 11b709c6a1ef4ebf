//! The calls into the A5 spatial index that the grid makes, each behind a
//! trusted wrapper.
use vstd::prelude::*;

verus! {

/// The cells `a5::grid_disk(cell, k)` returns, or `None` where it returns an
/// error.  It depends on its two arguments alone.
pub uninterp spec fn a5_grid_disk(cell: u64, k: usize) -> Option<Seq<u64>>;

/// The resolution `a5::get_resolution(cell)` reads from a cell id.
pub uninterp spec fn a5_resolution(cell: u64) -> i32;

/// The cells for which `a5::grid_disk(cell, k)` returns: any cell when
/// `k == 0`, otherwise cells that decode to a resolution of at least 0.  For a
/// cell of resolution -1 (the world cell `0`, and other ids that decode to
/// -1) the neighbour search runs with a resolution of `-2 as
/// usize` and never returns normally.
pub open spec fn disk_is_computable(cell: u64, k: usize) -> bool {
    k == 0 || a5_resolution(cell) >= 0
}

/// `a5::grid_disk(cell, k)`, with its error turned into `None`.
///
/// Claimed: the result is the named `a5_grid_disk(cell, k)`; for `k == 0` the
/// function returns `[cell]` (its first statement does so, before any
/// decoding).  Which cells a larger disk holds (a compacted BFS over the A5
/// neighbour graph) is left unsaid, and so is how long it takes: the search
/// runs `k` rounds, so its time grows with `k`.
#[verifier::external_body]
pub(crate) fn grid_disk(cell: u64, k: usize) -> (res: Option<Vec<u64>>)
    requires
        disk_is_computable(cell, k),
    ensures
        res.deep_view() == a5_grid_disk(cell, k),
        k == 0 ==> res.deep_view() == Some(seq![cell]),
{
    a5::grid_disk(cell, k).ok()
}

/// `a5::get_resolution(cell)`.
///
/// Claimed: the result is the named `a5_resolution(cell)`; it lies between -1
/// (the world cell) and 30 (`a5::MAX_RESOLUTION`), and the world cell `0` has
/// resolution -1.  How the resolution is decoded from the id's bits is left
/// unsaid.
#[verifier::external_body]
pub(crate) fn resolution_of(cell: u64) -> (res: i32)
    ensures
        res == a5_resolution(cell),
        -1 <= res <= 30,
        cell == 0 ==> res == -1,
{
    a5::get_resolution(cell)
}

} // verus!
