use vstd::prelude::*;

verus! {

/// Whether the mutator thread may run: cleared while a collection has the
/// mutators stopped.
#[derive(Clone, Copy, Debug, PartialEq, Eq)]
pub struct MutatorStatus {
    pub is_running: bool,
}

/// The status of a mutator that no collection has stopped.
pub open spec fn running_status() -> MutatorStatus {
    MutatorStatus { is_running: true }
}

/// The status of a mutator that a collection has stopped.
pub open spec fn stopped_status() -> MutatorStatus {
    MutatorStatus { is_running: false }
}

/// The status after the mutators are stopped from status `s`.
pub open spec fn after_stop(s: MutatorStatus) -> MutatorStatus {
    MutatorStatus { is_running: false }
}

/// The status after the mutators are resumed from status `s`.
pub open spec fn after_resume(s: MutatorStatus) -> MutatorStatus {
    MutatorStatus { is_running: true }
}

impl MutatorStatus {
    /// The status the binding starts with: the mutator runs.
    pub fn new() -> (s: Self)
        ensures
            s == running_status(),
    {
        MutatorStatus { is_running: true }
    }

    /// A thread that asks to be blocked for a collection has to wait now.
    pub fn must_wait(&self) -> (b: bool)
        ensures
            b == waits(*self),
    {
        !self.is_running
    }
}

/// The collection part of the binding: it stops the mutators before a collection
/// and resumes them after it.
pub struct VMCollection {}

impl VMCollection {
    /// Stops the mutator; tells whether it is now stopped (the outcome reported).
    pub fn stop_all_mutators(status: &mut MutatorStatus) -> (stopped: bool)
        ensures
            *final(status) == after_stop(*old(status)),
            stopped == !final(status).is_running,
            stopped,
    {
        status.is_running = false;
        !status.is_running
    }

    /// Lets the mutator run again; tells whether it now runs (the outcome reported).
    pub fn resume_mutators(status: &mut MutatorStatus) -> (resumed: bool)
        ensures
            *final(status) == after_resume(*old(status)),
            resumed == final(status).is_running,
            resumed,
    {
        status.is_running = true;
        status.is_running
    }

    /// A mutator blocked for a collection keeps waiting while the mutators are stopped.
    pub fn block_for_gc_must_wait(status: &MutatorStatus) -> (wait: bool)
        ensures
            wait == waits(*status),
            wait == (*status == stopped_status()),
    {
        status.must_wait()
    }
}

/// Stopping clears the running flag and resuming sets it, whatever it was; the
/// starting status runs.
pub proof fn lemma_status_transitions(s: MutatorStatus)
    ensures
        after_stop(s).is_running == false,
        after_resume(s).is_running == true,
        running_status().is_running == true,
        stopped_status().is_running == false,
        waits(s) == !s.is_running,
{
}

/// A mutator blocked for a collection waits exactly while the mutators are stopped.
pub open spec fn waits(s: MutatorStatus) -> bool {
    !s.is_running
}

/// Stopping the mutators makes a blocked mutator wait, and resuming them undoes
/// it: from any status, stop then resume gives back the status the binding starts
/// with, in which no mutator waits.
pub proof fn lemma_resume_undoes_stop(s: MutatorStatus)
    ensures
        waits(after_stop(s)),
        after_stop(s) == stopped_status(),
        !waits(after_resume(after_stop(s))),
        after_resume(after_stop(s)) == running_status(),
{
}

} // verus!
