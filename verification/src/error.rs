use vstd::prelude::*;

verus! {

/// Errors reported by this library.
#[derive(Clone, Copy, Debug, PartialEq, Eq, Structural)]
pub enum ErrorKind {
    /// A buffer operation would exceed the buffer's capacity even after
    /// compaction; carries the capacity that was exceeded.
    OutOfCapacity(usize),
}

} // verus!
