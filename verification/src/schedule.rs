//! The bounded probe scheduler's decision state: which target starts next,
//! how many probes are in flight, and the collected per-target results.
//!
//! The network exchanges themselves happen outside; this state machine makes
//! every scheduling decision, and its well-formedness carries the run's
//! concurrency discipline: never more than `limit` probes in flight, one
//! collected result per completed probe, and no new starts after a
//! cancellation.

use vstd::prelude::*;
use crate::classify::Verdict;

verus! {

/// The fixed concurrency ceiling of a run.
pub const POOL_LIMIT: usize = 20;

/// Scheduler state. `targets[..next]` have been started; each started probe
/// is either still in flight or has completed with a collected result.
pub struct Scheduler {
    pub targets: Vec<String>,
    pub next: usize,
    pub in_flight: usize,
    pub completed: usize,
    pub limit: usize,
    pub cancelled: bool,
    pub results: Vec<(String, Verdict)>,
}

impl Scheduler {
    /// The scheduling discipline: a positive ceiling, never exceeded; every
    /// started probe in flight or completed; one result per completion.
    pub open spec fn wf(self) -> bool {
        &&& 1 <= self.limit
        &&& self.next <= self.targets@.len()
        &&& self.in_flight + self.completed == self.next
        &&& self.in_flight <= self.limit
        &&& self.results@.len() == self.completed
    }

    /// A fresh run over `targets` with concurrency ceiling `limit`.
    pub fn new(targets: Vec<String>, limit: usize) -> (s: Scheduler)
        requires
            1 <= limit,
        ensures
            s.wf(),
            s.targets == targets,
            s.limit == limit,
            s.next == 0,
            s.in_flight == 0,
            s.completed == 0,
            !s.cancelled,
            s.results@ == Seq::<(String, Verdict)>::empty(),
    {
        let s = Scheduler {
            targets,
            next: 0,
            in_flight: 0,
            completed: 0,
            limit,
            cancelled: false,
            results: Vec::new(),
        };
        proof {
            assert(s.results@ =~= Seq::<(String, Verdict)>::empty());
        }
        s
    }

    /// Hand out the next target to probe, if the run is not cancelled, a
    /// target is left, and the pool has room; otherwise nothing starts and
    /// the state is unchanged.
    pub fn try_start(&mut self) -> (r: Option<String>)
        requires
            old(self).wf(),
        ensures
            final(self).wf(),
            final(self).targets == old(self).targets,
            final(self).limit == old(self).limit,
            final(self).cancelled == old(self).cancelled,
            final(self).completed == old(self).completed,
            final(self).results == old(self).results,
            old(self).cancelled || old(self).next == old(self).targets@.len() || old(
                self,
            ).in_flight == old(self).limit ==> {
                &&& r is None
                &&& final(self).next == old(self).next
                &&& final(self).in_flight == old(self).in_flight
            },
            !(old(self).cancelled || old(self).next == old(self).targets@.len() || old(
                self,
            ).in_flight == old(self).limit) ==> {
                &&& (r matches Some(t) && t@ == old(self).targets@[old(self).next as int]@)
                &&& final(self).next == old(self).next + 1
                &&& final(self).in_flight == old(self).in_flight + 1
            },
    {
        if self.cancelled || self.next == self.targets.len() || self.in_flight == self.limit {
            return None;
        }
        let t = self.targets[self.next].clone();
        self.next = self.next + 1;
        self.in_flight = self.in_flight + 1;
        Some(t)
    }

    /// Collect one completed probe's verdict under its target name. The
    /// completion counter is the run's progress tick: it moves by exactly one
    /// per finished probe.
    pub fn finish(&mut self, target: String, verdict: Verdict)
        requires
            old(self).wf(),
            old(self).in_flight >= 1,
        ensures
            final(self).wf(),
            final(self).targets == old(self).targets,
            final(self).limit == old(self).limit,
            final(self).cancelled == old(self).cancelled,
            final(self).next == old(self).next,
            final(self).in_flight == old(self).in_flight - 1,
            final(self).completed == old(self).completed + 1,
            final(self).results@ == old(self).results@.push((target, verdict)),
    {
        self.in_flight = self.in_flight - 1;
        self.completed = self.completed + 1;
        self.results.push((target, verdict));
    }

    /// Signal the fail-fast abort: no further probe will be handed out.
    pub fn cancel(&mut self)
        requires
            old(self).wf(),
        ensures
            final(self).wf(),
            final(self).targets == old(self).targets,
            final(self).limit == old(self).limit,
            final(self).next == old(self).next,
            final(self).in_flight == old(self).in_flight,
            final(self).completed == old(self).completed,
            final(self).results == old(self).results,
            final(self).cancelled,
    {
        self.cancelled = true;
    }

    /// The join point: every target started and none left in flight.
    pub fn is_done(&self) -> (r: bool)
        ensures
            r == (self.next == self.targets@.len() && self.in_flight == 0),
    {
        self.next == self.targets.len() && self.in_flight == 0
    }
}

/// In every well-formed scheduler state, at most `limit` probes are in
/// flight — however the starts and completions were interleaved.
pub proof fn lemma_pool_ceiling(s: Scheduler)
    requires
        s.wf(),
    ensures
        s.in_flight <= s.limit,
{
}

/// At the join point of an uncancelled run, the result collection has
/// exactly one entry per target, whatever order the probes completed in.
pub proof fn lemma_join_complete(s: Scheduler)
    requires
        s.wf(),
        s.next == s.targets@.len(),
        s.in_flight == 0,
    ensures
        s.results@.len() == s.targets@.len(),
{
}

} // verus!
