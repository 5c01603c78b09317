//! Runtime accounting of CPU cycles and heap memory for tagged regions of a
//! program.
//!
//! The calls that instrumented code makes at the boundaries of its regions
//! arrive here as plain values: the state they act on, the id of the calling
//! thread and the reading of the cycle counter. What each call does to the
//! state is stated in its contract.

use vstd::prelude::*;

pub mod cpu_cycle_counter;
pub mod heap_tracker;
pub mod text;
pub mod unsafe_counter;
pub mod unsafe_coverage;
pub mod unsafety;

verus! {

/// The flag a thread raises while the runtime does its own bookkeeping, so
/// that allocations made on behalf of the bookkeeping are not tracked again.
#[derive(Clone, Copy, Debug)]
pub struct SkipTracking {
    active: bool,
}

impl SkipTracking {
    /// Whether the flag is raised.
    pub closed spec fn is_set(&self) -> bool {
        self.active
    }

    /// A lowered flag.
    pub fn new() -> (flag: Self)
        ensures
            !flag.is_set(),
    {
        SkipTracking { active: false }
    }

    /// Reads the flag.
    pub fn get(&self) -> (active: bool)
        ensures
            active == self.is_set(),
    {
        self.active
    }

    /// Raises or lowers the flag.
    pub fn set(&mut self, active: bool)
        ensures
            final(self).is_set() == active,
    {
        self.active = active;
    }
}

/// Whether the runtime has been initialized.
#[derive(Clone, Copy, Debug)]
pub struct RuntimeState {
    initialized: bool,
}

impl RuntimeState {
    pub closed spec fn is_initialized(&self) -> bool {
        self.initialized
    }

    /// The state before initialization.
    pub fn new() -> (runtime: Self)
        ensures
            !runtime.is_initialized(),
    {
        RuntimeState { initialized: false }
    }
}

/// Initializes the runtime. Only the first call has an effect: it lowers the
/// calling thread's flag. Every later call leaves the flag as it is.
pub fn initialize_runtime(runtime: &mut RuntimeState, skip: &mut SkipTracking)
    ensures
        final(runtime).is_initialized(),
        final(skip).is_set() == (old(runtime).is_initialized() && old(skip).is_set()),
{
    if runtime.initialized {
        return ;
    }
    runtime.initialized = true;
    skip.set(false);
}

/// Whether `initialize_runtime` has been called on `runtime`.
pub fn is_runtime_initialized(runtime: &RuntimeState) -> (initialized: bool)
    ensures
        initialized == runtime.is_initialized(),
{
    runtime.initialized
}

} // verus!
