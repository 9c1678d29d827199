use vstd::prelude::*;

verus! {

/// type of thread flags
pub type ThreadFlags = u16;

/// Possible waiting modes for thread flags
#[derive(Copy, Clone, PartialEq, Eq, Structural, Debug)]
pub enum WaitMode {
    Any(ThreadFlags),
    All(ThreadFlags),
}

} // verus!
