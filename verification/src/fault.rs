//! What the kernel does when it meets a failure that it cannot recover from.
use vstd::prelude::*;

verus! {

/// The kernel's reaction to an unrecoverable failure.
#[derive(Clone, Copy, Debug, PartialEq, Eq, Structural)]
pub enum FaultResponse {
    /// Stop: spin forever and do nothing else.
    Halt,
}

/// The reaction to a failed allocation from the kernel heap, whatever the
/// size and alignment that were asked for: the kernel halts.
pub fn alloc_error_handler(size: usize, align: usize) -> (r: FaultResponse)
    ensures
        r == FaultResponse::Halt,
{
    FaultResponse::Halt
}

} // verus!
