//! Verified core of a dummy virtual-machine binding for the MMTk memory manager:
//! the object model, the slot encodings, the memory-slice iteration, the interior
//! pointer search over the valid-object bitmap, and the mutator run state.
use vstd::prelude::*;

pub mod word;
pub mod object_model;
pub mod scanning;
pub mod slots;
pub mod collection;
pub mod active_plan;

verus! {

/// The VM binding marker type.
#[derive(Default)]
pub struct DummyVM;

} // verus!
