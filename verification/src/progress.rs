//! Progress accounting.
//!
//! Every copy, deletion and comparison counts toward a running position out
//! of a planned total.  The counter itself carries no rendering: a front
//! end may mirror it into whatever display it likes, and doing nothing with
//! it is a safe no-op.

use vstd::prelude::*;
use crate::file_ops::{sat_add_u64, spec_sat_add_u64};

verus! {

/// A position within a planned number of operations.
#[derive(Debug, PartialEq, Eq, Clone, Copy)]
pub struct Progress {
    pub pos: u64,
    pub total: u64,
}

impl Progress {
    /// A fresh counter with nothing planned and nothing done.
    pub fn new() -> (r: Progress)
        ensures
            r.pos == 0,
            r.total == 0,
    {
        Progress { pos: 0, total: 0 }
    }

    /// Advances the position by `n` completed operations, saturating at the
    /// largest representable count.
    pub fn inc(&mut self, n: u64)
        ensures
            final(self).pos == spec_sat_add_u64(old(self).pos as nat, n as nat),
            final(self).total == old(self).total,
    {
        self.pos = sat_add_u64(self.pos, n);
    }

    /// The number of operations completed so far.
    pub fn position(&self) -> (p: u64)
        ensures
            p == self.pos,
    {
        self.pos
    }

    /// The number of operations planned in all.
    pub fn length(&self) -> (t: u64)
        ensures
            t == self.total,
    {
        self.total
    }
}

/// Starts a run of `length` planned operations: the total is set and the
/// position returns to zero.
pub fn progress_init(progress: &mut Progress, length: u64)
    ensures
        final(progress).total == length,
        final(progress).pos == 0,
{
    progress.total = length;
    progress.pos = 0;
}

} // verus!
