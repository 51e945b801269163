//! The one-shot shutdown signal.
//!
//! A single flag shared between the interrupt handler and the accept loop.
//! It moves once, from running to stopping, and never back: raising it is
//! idempotent, and nothing can clear it. The atomically-shared cell that
//! carries it between threads lives outside the library; this is the value
//! it carries and the two things that may be done with it.

use vstd::prelude::*;

verus! {

/// The process-wide stop flag, initially down; once raised it stays raised.
pub struct ShutdownSignal {
    raised: bool,
}

impl View for ShutdownSignal {
    type V = bool;

    closed spec fn view(&self) -> bool {
        self.raised
    }
}

impl ShutdownSignal {
    /// A fresh signal: the process is running.
    pub fn new() -> (s: ShutdownSignal)
        ensures
            !s@,
    {
        ShutdownSignal { raised: false }
    }

    /// Raises the signal. Idempotent and monotonic: whatever the signal
    /// held before, the one state it can be in afterwards is raised, so a
    /// second raise changes nothing and nothing ever lowers it.
    pub fn raise(&mut self)
        ensures
            final(self)@,
            final(self)@ == raise_tr(old(self)@),
    {
        self.raised = true;
    }

    /// Whether the signal has been raised.
    pub fn is_raised(&self) -> (r: bool)
        ensures
            r == self@,
    {
        self.raised
    }
}

/// What raising does to the carried value: it is raised, whatever it was.
pub open spec fn raise_tr(raised: bool) -> bool {
    true
}

/// Raising the signal twice leaves exactly the state that raising it once
/// does: the transition from running to stopping happens at most once.
pub proof fn lemma_raise_idempotent(raised: bool)
    ensures
        raise_tr(raise_tr(raised)) == raise_tr(raised),
{
}

} // verus!
