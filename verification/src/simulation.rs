//! The simulation object and the adaptive step it drives.

use std::ops::Range;
use vstd::prelude::*;
use crate::bodies::{copy_of, SpaceBodies};
use crate::pairs::{index_pairs, is_pair_enumeration, pair_key};
use crate::precision::PercisionTable;
use crate::scheduler::{
    action_due, advance_progress, next_progress, pending_action, progress_wf, report_rolls_back,
    rolls_back, start_progress, SpaceSimulationStepResult, StepAction, StepProgress,
};

verus! {

/// The bodies, the clock, the gravitational constant, the precision guard's
/// table and the bounds of the adaptive step.
#[allow(non_snake_case)]
pub struct SpaceSimulation<V, S, R> {
    pub bodies: SpaceBodies<V, S, R>,
    /// Simulation time; the caller advances it by the requested interval
    /// when a step has finished.
    pub time: S,
    pub G: S,
    pub percision_table: PercisionTable<S>,
    /// How often one step may be restarted with more sub-steps.
    pub max_retries: usize,
    /// By how much the number of sub-steps grows on a restart; at least 2.
    pub shrink_factor: usize,
}

/// A step in progress: the positions and velocities from before it began,
/// the pairs of one pass, and how far it has come.
pub struct StepScheduler<V> {
    saved_positions: Vec<V>,
    saved_velocities: Vec<V>,
    pairs: Vec<(usize, usize)>,
    shrink_factor: usize,
    progress: StepProgress,
}

impl<V> StepScheduler<V> {
    /// The positions from before the step.
    pub closed spec fn spec_saved_positions(&self) -> Seq<V> {
        self.saved_positions@
    }

    /// The velocities from before the step.
    pub closed spec fn spec_saved_velocities(&self) -> Seq<V> {
        self.saved_velocities@
    }

    /// The pairs of one pass, in the order in which they are evaluated.
    pub closed spec fn spec_pairs(&self) -> Seq<(usize, usize)> {
        self.pairs@
    }

    pub closed spec fn spec_shrink_factor(&self) -> usize {
        self.shrink_factor
    }

    pub closed spec fn spec_progress(&self) -> StepProgress {
        self.progress
    }

    /// The number of bodies the step was begun with.
    pub open spec fn spec_body_count(&self) -> nat {
        self.spec_saved_positions().len()
    }

    /// The pair list covers the bodies of the snapshot and the counters are
    /// within their bounds.
    pub open spec fn wf(&self) -> bool {
        &&& self.spec_saved_velocities().len() == self.spec_body_count()
        &&& self.spec_body_count() <= usize::MAX
        &&& is_pair_enumeration(self.spec_pairs(), self.spec_body_count() as usize)
        &&& progress_wf(self.spec_progress(), self.spec_pairs().len(), self.spec_shrink_factor())
    }

    /// The number of bodies the step was begun with.
    pub fn body_count(&self) -> (count: usize)
        ensures
            count == self.spec_body_count(),
    {
        self.saved_positions.len()
    }

    /// Where the step stands.
    pub fn progress(&self) -> (p: StepProgress)
        ensures
            p == self.spec_progress(),
    {
        self.progress
    }

    /// The action that is due.
    pub fn action(&self) -> (action: StepAction)
        requires
            self.wf(),
        ensures
            action == pending_action(
                self.spec_progress(),
                self.spec_pairs(),
                self.spec_shrink_factor(),
            ),
    {
        action_due(self.progress, &self.pairs, self.shrink_factor)
    }
}

impl<V, S, R> SpaceSimulation<V, S, R> {
    /// The registry is well formed and a restart really adds sub-steps.
    pub open spec fn wf(&self) -> bool {
        self.bodies.wf() && self.shrink_factor >= 2
    }

    /// A simulation without bodies, or nothing if `shrink_factor` is below 2.
    #[allow(non_snake_case)]
    pub fn new(G: S, time: S, max_retries: usize, shrink_factor: usize) -> (made: Option<Self>)
        ensures
            made.is_some() == (shrink_factor >= 2),
            match made {
                Some(simulation) => {
                    &&& simulation.wf()
                    &&& simulation.bodies.spec_len() == 0
                    &&& simulation.G == G
                    &&& simulation.time == time
                    &&& simulation.percision_table@ == Map::<u64, S>::empty()
                    &&& simulation.max_retries == max_retries
                    &&& simulation.shrink_factor == shrink_factor
                },
                None => true,
            },
    {
        if shrink_factor < 2 {
            return None;
        }
        Some(
            SpaceSimulation {
                bodies: SpaceBodies::new(),
                time,
                G,
                percision_table: PercisionTable::new(),
                max_retries,
                shrink_factor,
            },
        )
    }

    /// The key under which the precision table files the pair of `i` and
    /// `j`, whichever of the two is given first.
    pub fn make_percision_key(i: usize, j: usize) -> (key: u64)
        ensures
            key == pair_key(i, j),
    {
        crate::pairs::make_percision_key(i, j)
    }

    /// The slots of the bodies.
    pub fn get_range(&self) -> (range: Range<usize>)
        requires
            self.bodies.wf(),
        ensures
            range.start == 0,
            range.end == self.bodies.spec_len(),
    {
        Range { start: 0, end: self.bodies.len() }
    }

    /// Begins an adaptive step: copies positions and velocities for a later
    /// rollback, lists the pairs of one pass and starts with one sub-step and
    /// all retries.
    pub fn take_step_smooth(&self) -> (step: StepScheduler<V>) where V: Copy
        requires
            self.wf(),
        ensures
            step.wf(),
            step.spec_saved_positions() == self.bodies.spec_positions(),
            step.spec_saved_velocities() == self.bodies.spec_velocities(),
            step.spec_shrink_factor() == self.shrink_factor,
            step.spec_progress() == start_progress(self.max_retries),
    {
        let saved_positions = copy_of(self.bodies.positions());
        let saved_velocities = copy_of(self.bodies.velocities());
        let pairs = index_pairs(saved_positions.len());
        assert(pairs@.len() == pairs.len());
        StepScheduler {
            saved_positions,
            saved_velocities,
            pairs,
            shrink_factor: self.shrink_factor,
            progress: StepProgress {
                retries_left: self.max_retries,
                sub_steps: 1,
                passes_done: 0,
                cursor: 0,
                degraded: false,
                outcome: None,
            },
        }
    }

    /// Takes the report on the action that was due, rolls the bodies back
    /// where the report calls for it, and returns the action that is due
    /// now. Only positions and velocities can change, and only by a
    /// rollback to those from before the step.
    pub fn take_step(
        &mut self,
        step: &mut StepScheduler<V>,
        report: SpaceSimulationStepResult,
    ) -> (action: StepAction) where V: Copy
        requires
            old(self).wf(),
            old(step).wf(),
            old(step).spec_body_count() == old(self).bodies.spec_len(),
        ensures
            final(self).wf(),
            final(step).wf(),
            final(step).spec_progress() == next_progress(
                old(step).spec_progress(),
                old(step).spec_pairs(),
                old(step).spec_shrink_factor(),
                report,
            ),
            final(step).spec_pairs() == old(step).spec_pairs(),
            final(step).spec_shrink_factor() == old(step).spec_shrink_factor(),
            final(step).spec_saved_positions() == old(step).spec_saved_positions(),
            final(step).spec_saved_velocities() == old(step).spec_saved_velocities(),
            action == pending_action(
                final(step).spec_progress(),
                final(step).spec_pairs(),
                final(step).spec_shrink_factor(),
            ),
            final(self).bodies.spec_positions() == if rolls_back(
                old(step).spec_progress(),
                old(step).spec_pairs().len(),
                old(step).spec_shrink_factor(),
                report,
            ) {
                old(step).spec_saved_positions()
            } else {
                old(self).bodies.spec_positions()
            },
            final(self).bodies.spec_velocities() == if rolls_back(
                old(step).spec_progress(),
                old(step).spec_pairs().len(),
                old(step).spec_shrink_factor(),
                report,
            ) {
                old(step).spec_saved_velocities()
            } else {
                old(self).bodies.spec_velocities()
            },
            final(self).bodies.spec_names() == old(self).bodies.spec_names(),
            final(self).bodies.spec_masses() == old(self).bodies.spec_masses(),
            final(self).bodies.spec_radiuses() == old(self).bodies.spec_radiuses(),
            final(self).bodies.spec_rotations() == old(self).bodies.spec_rotations(),
            final(self).time == old(self).time,
            final(self).G == old(self).G,
            final(self).percision_table == old(self).percision_table,
            final(self).max_retries == old(self).max_retries,
            final(self).shrink_factor == old(self).shrink_factor,
    {
        let before = step.progress;
        let next = advance_progress(before, &step.pairs, step.shrink_factor, report);
        if report_rolls_back(before, step.pairs.len(), step.shrink_factor, report) {
            self.bodies.restore(&step.saved_positions, &step.saved_velocities);
        }
        step.progress = next;
        action_due(next, &step.pairs, step.shrink_factor)
    }
}

} // verus!
