//! The step protocol every double-buffered field follows.
use vstd::prelude::*;

verus! {

/// A field that is written during a simulation step and read after it.
pub trait Field {
    /// Makes the writes of the step readable by swapping the buffers, and
    /// empties the new write buffer.
    fn lazy_update(&mut self);

    /// Copies the writes of the step into the read buffer, then empties the
    /// write buffer.
    fn update(&mut self);
}

} // verus!
