//! The single-slot coalescing notification signal between the state
//! engine and the processor.
//!
//! A send marks the slot full and never blocks; sends that find the
//! slot full are absorbed.  The consumer drains the slot before each
//! scan: any burst of sends is observed as exactly one signal.

use vstd::prelude::*;

verus! {

/// The single-slot signal.  `pending` is true when at least one send
/// has not been observed yet.
#[derive(Clone, Copy, PartialEq, Eq, Structural, Debug)]
pub struct UpdateSignal {
    pub pending: bool,
}

impl UpdateSignal {
    pub fn new() -> (r: UpdateSignal)
        ensures
            !r.pending,
    {
        UpdateSignal { pending: false }
    }

    /// Non-blocking send: the slot is full afterward, whatever it held.
    pub fn send(&mut self)
        ensures
            final(self).pending,
    {
        self.pending = true;
    }

    /// Drains the slot: reports whether anything was pending and leaves
    /// the slot empty.
    pub fn drain(&mut self) -> (had: bool)
        ensures
            !final(self).pending,
            had == old(self).pending,
    {
        let had = self.pending;
        self.pending = false;
        had
    }

    /// The state after one send.
    pub open spec fn sent_spec(self) -> UpdateSignal {
        UpdateSignal { pending: true }
    }
}

/// The state after `n` consecutive sends.
pub open spec fn sends_spec(s: UpdateSignal, n: nat) -> UpdateSignal
    decreases n,
{
    if n == 0 {
        s
    } else {
        sends_spec(s, (n - 1) as nat).sent_spec()
    }
}

/// Any number of further sends after the first leave the slot exactly
/// as one send does: a burst of notifications coalesces into a single
/// observable signal.
pub proof fn lemma_sends_coalesce(s: UpdateSignal)
    ensures
        s.sent_spec().sent_spec() == s.sent_spec(),
        s.sent_spec().pending,
{
}

/// A burst of any positive length coalesces: `n` sends leave the slot
/// exactly as one send does, so the consumer's next drain observes one
/// signal and the drain after it observes none.
pub proof fn lemma_burst_coalesces(s: UpdateSignal, n: nat)
    requires
        n >= 1,
    ensures
        sends_spec(s, n) == s.sent_spec(),
        sends_spec(s, n).pending,
    decreases n,
{
    if n > 1 {
        lemma_burst_coalesces(s, (n - 1) as nat);
    }
}

} // verus!
