//! Per-adapter dynamic state: label, message and byte counters.
//!
//! The progress fraction that a byte count implies is handed back as an exact
//! ratio `(done, total)`; turning it into a fraction, and smoothing the transfer
//! rate over time, is left to the caller.

use vstd::prelude::*;

verus! {

/// The values an adapter exposes for rendering.
pub struct State {
    /// Static label text.
    pub label: Option<String>,
    /// Dynamic message text.
    pub message: Option<String>,
    /// Cumulative bytes transferred.
    pub bytes_done: u64,
    /// Total bytes expected, if known.
    pub bytes_total: Option<u64>,
    /// Whether the elapsed time is shown.
    pub with_elapsed_time: bool,
}

/// `a + b`, capped at the largest `u64`.
pub open spec fn saturating_add(a: nat, b: nat) -> nat {
    if a + b > u64::MAX { u64::MAX as nat } else { a + b }
}

/// The byte counter only grows, and saturates rather than wraps: adding `delta`
/// to `done` gives at least `done`, exactly `done + delta` when that fits in a
/// `u64`, and the largest `u64` otherwise.
pub proof fn lemma_bytes_never_decrease(done: u64, delta: u64)
    ensures
        done <= saturating_add(done as nat, delta as nat) <= u64::MAX,
        done + delta <= u64::MAX ==> saturating_add(done as nat, delta as nat) == done + delta,
        done + delta > u64::MAX ==> saturating_add(done as nat, delta as nat) == u64::MAX,
{
}

/// The byte count after recording `deltas` in turn, starting from `start`.
pub open spec fn bytes_after(start: nat, deltas: Seq<u64>) -> nat
    decreases deltas.len(),
{
    if deltas.len() == 0 {
        start
    } else {
        saturating_add(bytes_after(start, deltas.drop_last()), deltas.last() as nat)
    }
}

/// The plain sum of `deltas`.
pub open spec fn sum_of(deltas: Seq<u64>) -> nat
    decreases deltas.len(),
{
    if deltas.len() == 0 { 0 } else { sum_of(deltas.drop_last()) + deltas.last() as nat }
}

/// `n`, capped at the largest `u64`.
pub open spec fn capped(n: nat) -> nat {
    if n > u64::MAX { u64::MAX as nat } else { n }
}

/// Counting bytes item by item gives their sum, capped at the largest `u64`:
/// recording `deltas` in turn from zero counts exactly `sum_of(deltas)` when that
/// fits in a `u64`, and the largest `u64` otherwise.
pub proof fn lemma_bytes_are_capped_sum(deltas: Seq<u64>)
    ensures
        bytes_after(0, deltas) == capped(sum_of(deltas)),
    decreases deltas.len(),
{
    if deltas.len() > 0 {
        lemma_bytes_are_capped_sum(deltas.drop_last());
    }
}

/// The progress ratio implied by `done` bytes of a known positive `total`.
pub open spec fn bytes_ratio(done: u64, total: Option<u64>) -> Option<(u64, u64)> {
    match total {
        Some(t) => if t > 0 { Some((done, t)) } else { None },
        None => None,
    }
}

impl State {
    /// The empty state.
    pub open spec fn new_spec() -> State {
        State { label: None, message: None, bytes_done: 0, bytes_total: None, with_elapsed_time: false }
    }

    /// Nothing set: no label, no message, no bytes, no total, no elapsed time.
    pub fn new() -> (s: State)
        ensures
            s == State::new_spec(),
    {
        State { label: None, message: None, bytes_done: 0, bytes_total: None, with_elapsed_time: false }
    }

    /// Set the label; everything else is unchanged.
    pub fn set_label(&mut self, label: String)
        ensures
            final(self).label == Some(label),
            final(self).message == old(self).message,
            final(self).bytes_done == old(self).bytes_done,
            final(self).bytes_total == old(self).bytes_total,
            final(self).with_elapsed_time == old(self).with_elapsed_time,
    {
        self.label = Some(label);
    }

    /// Set the message; everything else is unchanged.
    pub fn set_message(&mut self, message: String)
        ensures
            final(self).message == Some(message),
            final(self).label == old(self).label,
            final(self).bytes_done == old(self).bytes_done,
            final(self).bytes_total == old(self).bytes_total,
            final(self).with_elapsed_time == old(self).with_elapsed_time,
    {
        self.message = Some(message);
    }

    /// Record the total number of bytes expected; everything else is unchanged.
    pub fn set_bytes_total(&mut self, total: u64)
        ensures
            final(self).bytes_total == Some(total),
            final(self).label == old(self).label,
            final(self).message == old(self).message,
            final(self).bytes_done == old(self).bytes_done,
            final(self).with_elapsed_time == old(self).with_elapsed_time,
    {
        self.bytes_total = Some(total);
    }

    /// Show the elapsed time; everything else is unchanged.
    pub fn enable_elapsed_time(&mut self)
        ensures
            final(self).with_elapsed_time,
            final(self).label == old(self).label,
            final(self).message == old(self).message,
            final(self).bytes_done == old(self).bytes_done,
            final(self).bytes_total == old(self).bytes_total,
    {
        self.with_elapsed_time = true;
    }

    /// Record `delta` newly transferred bytes. The counter saturates at the largest
    /// `u64`; the result is the progress ratio `(done, total)` when a positive total
    /// is known.
    pub fn add_bytes(&mut self, delta: u64) -> (ratio: Option<(u64, u64)>)
        ensures
            final(self).bytes_done == saturating_add(old(self).bytes_done as nat, delta as nat),
            ratio == bytes_ratio(final(self).bytes_done, final(self).bytes_total),
            final(self).bytes_total == old(self).bytes_total,
            final(self).label == old(self).label,
            final(self).message == old(self).message,
            final(self).with_elapsed_time == old(self).with_elapsed_time,
    {
        self.bytes_done = self.bytes_done.saturating_add(delta);
        match self.bytes_total {
            Some(t) => if t > 0 { Some((self.bytes_done, t)) } else { None },
            None => None,
        }
    }
}

} // verus!
