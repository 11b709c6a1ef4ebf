//! Which buffer of a double-buffered grid an operation reads.
use vstd::prelude::*;

verus! {

/// The buffer(s) an operation over all values visits.
#[allow(non_camel_case_types)]
#[derive(Clone, Copy, Debug, PartialEq, Eq)]
pub enum GridOption {
    /// The read buffer: the state committed by the last update.
    READ,
    /// The write buffer: the placements made since the last update.
    WRITE,
    /// The read buffer, then the write buffer.
    READWRITE,
}

} // verus!
