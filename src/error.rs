use vstd::prelude::*;

verus! {

/// Failures that stop the machine.
#[derive(Debug, Clone, Copy, PartialEq, Eq, Structural)]
pub enum Error {
    /// A memory access outside `[1, capacity_limit)`.
    InvalidMemoryAddress,
    /// The host input ended where the program asked for a byte.
    IOError,
}

} // verus!
