use vstd::prelude::*;

verus! {

/// The active plan part of the binding: which threads are mutators.
pub struct VMActivePlan {}

impl VMActivePlan {
    /// Every thread of the VM is a mutator (the VM has a single mutator thread).
    pub fn is_mutator(tls: usize) -> (b: bool)
        ensures
            b,
    {
        true
    }
}

} // verus!
