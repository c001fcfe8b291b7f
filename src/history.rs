//! The generations a running simulation keeps, and when it stops.

use vstd::prelude::*;
use crate::grid::FlatLand;
use crate::rules::next_generation;

verus! {

/// The current generation and the one before it. Each step makes a third,
/// compares it with the one two ticks back, and drops the oldest.
pub struct Simulation {
    pub current: FlatLand,
    pub previous: Option<FlatLand>,
}

impl Simulation {
    /// Both generations are well formed and of one size.
    pub open spec fn wf(&self) -> bool {
        &&& self.current.wf()
        &&& self.previous matches Some(p) ==> {
            &&& p.wf()
            &&& p.size == self.current.size
            &&& p.row_length == self.current.row_length
        }
    }

    /// A simulation that starts from `start`, with no earlier generation.
    pub fn new(start: FlatLand) -> (r: Simulation)
        requires
            start.wf(),
        ensures
            r.wf(),
            r.current == start,
            r.previous is None,
    {
        Simulation { current: start, previous: None }
    }

    /// Advances by one tick. Returns whether the new generation equals the
    /// one two ticks back, which there is from the second step on.
    pub fn step(&mut self) -> (converged: bool)
        requires
            old(self).wf(),
        ensures
            final(self).wf(),
            final(self).current@ == next_generation(old(self).current@),
            final(self).current.size == old(self).current.size,
            final(self).current.row_length == old(self).current.row_length,
            final(self).previous == Some(old(self).current),
            converged == (old(self).previous matches Some(p) && next_generation(
                old(self).current@,
            ) == p@),
    {
        let mut next = self.current.successor();
        let converged = match &self.previous {
            Some(p) => next.has_converged(p),
            None => false,
        };
        std::mem::swap(&mut self.current, &mut next);
        self.previous = Some(next);
        converged
    }
}

} // verus!
