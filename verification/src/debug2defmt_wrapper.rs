use vstd::prelude::*;

verus! {

/// Carries a value that has only `Debug` to a log that wants its own
/// format.
pub struct Debug2DefmtWrapper<T: core::fmt::Debug>(pub T);

} // verus!
