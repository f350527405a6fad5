//! The decisions of the adaptive step: which pair to evaluate next, when to
//! integrate positions, when to roll back and retry with more sub-steps, and
//! when to stop. The caller performs each action on the bodies and reports
//! how it went.

use vstd::arithmetic::div_mod::lemma_fundamental_div_mod_converse;
use vstd::prelude::*;

verus! {

/// What the caller reports after carrying out an action.
#[derive(Clone, Copy, Debug, PartialEq, Eq, Structural)]
pub enum SpaceSimulationStepResult {
    /// The action was carried out.
    Success,
    /// The pair is closer than its last closing speed covers in one sub-step.
    PercisionIssue,
    /// The two bodies of the pair have no separation; no direction exists.
    DegenerateConfiguration,
}

/// Two bodies at the same place: the step cannot be computed.
#[derive(Clone, Copy, Debug, PartialEq, Eq, Structural)]
pub struct DegenerateConfigurationError {
    pub first: usize,
    pub second: usize,
}

/// How a step ended.
#[derive(Clone, Copy, Debug, PartialEq, Eq, Structural)]
pub enum StepOutcome {
    /// Every pair passed the precision check in every sub-step.
    Success,
    /// No further shrinking was possible and at least one pair was
    /// integrated although it failed the precision check.
    GivenUp,
    /// The bodies are back where the step began; nothing was integrated.
    Degenerate(DegenerateConfigurationError),
}

/// What the caller has to do next. The time step of one sub-step is the
/// requested interval divided by `sub_steps`.
#[derive(Clone, Copy, Debug, PartialEq, Eq, Structural)]
pub enum StepAction {
    /// Check the pair against the precision guard and, if it passes or
    /// `tolerate` is set, apply its pull to both velocities.
    EvaluatePair { first: usize, second: usize, sub_steps: usize, tolerate: bool },
    /// Move every body along its new velocity.
    IntegratePositions { sub_steps: usize },
    /// The step is over; the clock advances by the requested interval unless
    /// the outcome is `Degenerate`.
    Finished { outcome: StepOutcome, sub_steps: usize },
}

/// Where a step stands.
#[derive(Clone, Copy, Debug, PartialEq, Eq, Structural)]
pub struct StepProgress {
    /// How often the step may still be restarted with more sub-steps.
    pub retries_left: usize,
    /// The number of passes that cover the requested interval.
    pub sub_steps: usize,
    /// The passes completed since the last restart.
    pub passes_done: usize,
    /// The place in the pair list of the pair to evaluate next; at the end
    /// of the list, positions are due.
    pub cursor: usize,
    /// A failed precision check was tolerated since the last restart.
    pub degraded: bool,
    /// Set once the step is over.
    pub outcome: Option<StepOutcome>,
}

/// The progress of a step that has just begun.
pub open spec fn start_progress(max_retries: usize) -> StepProgress {
    StepProgress {
        retries_left: max_retries,
        sub_steps: 1,
        passes_done: 0,
        cursor: 0,
        degraded: false,
        outcome: None,
    }
}

/// A restart with `shrink` times as many sub-steps is still possible.
pub open spec fn can_shrink(p: StepProgress, shrink: usize) -> bool {
    p.retries_left > 0 && p.sub_steps * shrink <= usize::MAX
}

/// The counters are within their bounds and agree with each other.
pub open spec fn progress_wf(p: StepProgress, pair_count: nat, shrink: usize) -> bool {
    &&& shrink >= 2
    &&& pair_count <= usize::MAX
    &&& p.sub_steps >= 1
    &&& p.cursor <= pair_count
    &&& p.passes_done <= p.sub_steps
    &&& p.outcome.is_none() ==> p.passes_done < p.sub_steps
    &&& p.degraded ==> !can_shrink(p, shrink)
    &&& p.outcome == Some(StepOutcome::Success) ==> !p.degraded && p.passes_done == p.sub_steps
    &&& p.outcome == Some(StepOutcome::GivenUp) ==> p.degraded && p.passes_done == p.sub_steps
}

/// A pair is waiting to be evaluated.
pub open spec fn pair_pending(p: StepProgress, pair_count: nat) -> bool {
    p.outcome.is_none() && p.cursor < pair_count
}

/// The action that is due at `p`.
pub open spec fn pending_action(
    p: StepProgress,
    pairs: Seq<(usize, usize)>,
    shrink: usize,
) -> StepAction {
    match p.outcome {
        Some(outcome) => StepAction::Finished { outcome, sub_steps: p.sub_steps },
        None => if p.cursor < pairs.len() {
            StepAction::EvaluatePair {
                first: pairs[p.cursor as int].0,
                second: pairs[p.cursor as int].1,
                sub_steps: p.sub_steps,
                tolerate: !can_shrink(p, shrink),
            }
        } else {
            StepAction::IntegratePositions { sub_steps: p.sub_steps }
        },
    }
}

/// The report sends the bodies back to where the step began.
pub open spec fn rolls_back(
    p: StepProgress,
    pair_count: nat,
    shrink: usize,
    report: SpaceSimulationStepResult,
) -> bool {
    pair_pending(p, pair_count) && match report {
        SpaceSimulationStepResult::Success => false,
        SpaceSimulationStepResult::PercisionIssue => can_shrink(p, shrink),
        SpaceSimulationStepResult::DegenerateConfiguration => true,
    }
}

/// The progress after `report` was given for the action due at `p`.
///
/// A pending pair: success moves on to the next pair; a precision issue
/// restarts the whole interval with `shrink` times as many sub-steps while
/// that is possible, and is tolerated and remembered once it is not; a
/// degenerate pair ends the step. Positions due: success completes the pass,
/// and the last pass ends the step; any other report changes nothing. A
/// finished step stays as it is.
pub open spec fn next_progress(
    p: StepProgress,
    pairs: Seq<(usize, usize)>,
    shrink: usize,
    report: SpaceSimulationStepResult,
) -> StepProgress {
    if p.outcome.is_some() {
        p
    } else if p.cursor < pairs.len() {
        match report {
            SpaceSimulationStepResult::Success => StepProgress {
                cursor: (p.cursor + 1) as usize,
                ..p
            },
            SpaceSimulationStepResult::PercisionIssue => if can_shrink(p, shrink) {
                StepProgress {
                    retries_left: (p.retries_left - 1) as usize,
                    sub_steps: (p.sub_steps * shrink) as usize,
                    passes_done: 0,
                    cursor: 0,
                    degraded: false,
                    outcome: None,
                }
            } else {
                StepProgress { cursor: (p.cursor + 1) as usize, degraded: true, ..p }
            },
            SpaceSimulationStepResult::DegenerateConfiguration => StepProgress {
                outcome: Some(
                    StepOutcome::Degenerate(
                        DegenerateConfigurationError {
                            first: pairs[p.cursor as int].0,
                            second: pairs[p.cursor as int].1,
                        },
                    ),
                ),
                ..p
            },
        }
    } else {
        match report {
            SpaceSimulationStepResult::Success => StepProgress {
                passes_done: (p.passes_done + 1) as usize,
                cursor: 0,
                outcome: if p.passes_done + 1 < p.sub_steps {
                    None
                } else if p.degraded {
                    Some(StepOutcome::GivenUp)
                } else {
                    Some(StepOutcome::Success)
                },
                ..p
            },
            _ => p,
        }
    }
}

/// Computes `next_progress`.
pub fn advance_progress(
    p: StepProgress,
    pairs: &Vec<(usize, usize)>,
    shrink: usize,
    report: SpaceSimulationStepResult,
) -> (next: StepProgress)
    requires
        progress_wf(p, pairs@.len(), shrink),
    ensures
        next == next_progress(p, pairs@, shrink, report),
        progress_wf(next, pairs@.len(), shrink),
{
    proof {
        lemma_progress_stays_wf(p, pairs@, shrink, report);
    }
    if p.outcome.is_some() {
        return p;
    }
    if p.cursor < pairs.len() {
        match report {
            SpaceSimulationStepResult::Success => StepProgress { cursor: p.cursor + 1, ..p },
            SpaceSimulationStepResult::PercisionIssue => {
                let grown = p.sub_steps.checked_mul(shrink);
                match grown {
                    Some(sub_steps) if p.retries_left > 0 => StepProgress {
                        retries_left: p.retries_left - 1,
                        sub_steps,
                        passes_done: 0,
                        cursor: 0,
                        degraded: false,
                        outcome: None,
                    },
                    _ => StepProgress { cursor: p.cursor + 1, degraded: true, ..p },
                }
            },
            SpaceSimulationStepResult::DegenerateConfiguration => {
                let pair = pairs[p.cursor];
                StepProgress {
                    outcome: Some(
                        StepOutcome::Degenerate(
                            DegenerateConfigurationError { first: pair.0, second: pair.1 },
                        ),
                    ),
                    ..p
                }
            },
        }
    } else {
        match report {
            SpaceSimulationStepResult::Success => {
                let outcome = if p.passes_done + 1 < p.sub_steps {
                    None
                } else if p.degraded {
                    Some(StepOutcome::GivenUp)
                } else {
                    Some(StepOutcome::Success)
                };
                StepProgress { passes_done: p.passes_done + 1, cursor: 0, outcome, ..p }
            },
            _ => p,
        }
    }
}

/// Computes `pending_action`.
pub fn action_due(p: StepProgress, pairs: &Vec<(usize, usize)>, shrink: usize) -> (action:
    StepAction)
    requires
        progress_wf(p, pairs@.len(), shrink),
    ensures
        action == pending_action(p, pairs@, shrink),
{
    match p.outcome {
        Some(outcome) => StepAction::Finished { outcome, sub_steps: p.sub_steps },
        None => {
            if p.cursor < pairs.len() {
                let pair = pairs[p.cursor];
                let tolerate = p.retries_left == 0 || p.sub_steps.checked_mul(shrink).is_none();
                StepAction::EvaluatePair {
                    first: pair.0,
                    second: pair.1,
                    sub_steps: p.sub_steps,
                    tolerate,
                }
            } else {
                StepAction::IntegratePositions { sub_steps: p.sub_steps }
            }
        },
    }
}

/// What to do with a pair once its separation has been measured.
#[derive(Clone, Copy, Debug, PartialEq, Eq, Structural)]
pub struct PairVerdict {
    /// Apply the pull to both velocities and record the new closing speed.
    pub apply: bool,
    /// What to report to the scheduler.
    pub report: SpaceSimulationStepResult,
}

/// The verdict of the precision guard on a pair. `degenerate`: the bodies
/// have no separation. `violated`: the separation is below the recorded
/// closing speed times the sub-step. `tolerate`: as the action says.
///
/// A degenerate pair is never applied. A violation is reported whether or
/// not it is tolerated, and only a tolerated one is applied.
pub open spec fn spec_judge_pair(degenerate: bool, violated: bool, tolerate: bool) -> PairVerdict {
    PairVerdict {
        apply: !degenerate && (!violated || tolerate),
        report: if degenerate {
            SpaceSimulationStepResult::DegenerateConfiguration
        } else if violated {
            SpaceSimulationStepResult::PercisionIssue
        } else {
            SpaceSimulationStepResult::Success
        },
    }
}

/// Computes `spec_judge_pair`.
pub fn judge_pair(degenerate: bool, violated: bool, tolerate: bool) -> (verdict: PairVerdict)
    ensures
        verdict == spec_judge_pair(degenerate, violated, tolerate),
{
    if degenerate {
        PairVerdict { apply: false, report: SpaceSimulationStepResult::DegenerateConfiguration }
    } else if violated {
        PairVerdict { apply: tolerate, report: SpaceSimulationStepResult::PercisionIssue }
    } else {
        PairVerdict { apply: true, report: SpaceSimulationStepResult::Success }
    }
}

/// A pair judged with the tolerance that its action carries is applied
/// exactly when its report does not roll the bodies back: no pull is
/// applied only to be thrown away by its own report, and none is skipped
/// in an attempt that goes on.
pub proof fn lemma_applied_pairs_are_kept(
    p: StepProgress,
    pairs: Seq<(usize, usize)>,
    shrink: usize,
    degenerate: bool,
    violated: bool,
)
    requires
        progress_wf(p, pairs.len(), shrink),
        pair_pending(p, pairs.len()),
    ensures
        ({
            let verdict = spec_judge_pair(degenerate, violated, !can_shrink(p, shrink));
            &&& pending_action(p, pairs, shrink) == (StepAction::EvaluatePair {
                first: pairs[p.cursor as int].0,
                second: pairs[p.cursor as int].1,
                sub_steps: p.sub_steps,
                tolerate: !can_shrink(p, shrink),
            })
            &&& verdict.apply == !rolls_back(p, pairs.len(), shrink, verdict.report)
            &&& verdict.apply ==> next_progress(p, pairs, shrink, verdict.report).cursor
                == p.cursor + 1
        }),
{
}

/// Computes `rolls_back`.
pub fn report_rolls_back(
    p: StepProgress,
    pair_count: usize,
    shrink: usize,
    report: SpaceSimulationStepResult,
) -> (back: bool)
    ensures
        back == rolls_back(p, pair_count as nat, shrink, report),
{
    p.outcome.is_none() && p.cursor < pair_count && match report {
        SpaceSimulationStepResult::Success => false,
        SpaceSimulationStepResult::PercisionIssue => p.retries_left > 0
            && p.sub_steps.checked_mul(shrink).is_some(),
        SpaceSimulationStepResult::DegenerateConfiguration => true,
    }
}

/// Every report leaves the counters within their bounds.
pub proof fn lemma_progress_stays_wf(
    p: StepProgress,
    pairs: Seq<(usize, usize)>,
    shrink: usize,
    report: SpaceSimulationStepResult,
)
    requires
        progress_wf(p, pairs.len(), shrink),
    ensures
        progress_wf(next_progress(p, pairs, shrink, report), pairs.len(), shrink),
{
    assert(p.sub_steps * shrink >= p.sub_steps) by (nonlinear_arith)
        requires
            shrink >= 2,
            p.sub_steps >= 1,
    ;
}

/// The actions still to come before the step ends, if every report from now
/// on is a success: the pairs and the integration of each pass not yet
/// completed, less the pairs already evaluated in the current pass.
pub open spec fn work_left(p: StepProgress, pair_count: nat) -> int {
    (p.sub_steps - p.passes_done) * (pair_count + 1) - p.cursor
}

/// The report is one that the action due at `p` waits for: any report while
/// a pair is pending, success while positions are due.
pub open spec fn report_counts(
    p: StepProgress,
    pair_count: nat,
    report: SpaceSimulationStepResult,
) -> bool {
    p.outcome.is_none() && (p.cursor < pair_count || report
        == SpaceSimulationStepResult::Success)
}

/// Every report that counts brings the end of the step nearer: it ends the
/// step, or spends a retry, or leaves one action fewer to come. As retries
/// are never gained and the work left is never negative, every step ends.
pub proof fn lemma_step_makes_headway(
    p: StepProgress,
    pairs: Seq<(usize, usize)>,
    shrink: usize,
    report: SpaceSimulationStepResult,
)
    requires
        progress_wf(p, pairs.len(), shrink),
        report_counts(p, pairs.len(), report),
    ensures
        work_left(p, pairs.len()) > 0,
        ({
            let next = next_progress(p, pairs, shrink, report);
            ||| next.outcome.is_some()
            ||| next.retries_left < p.retries_left
            ||| {
                &&& next.retries_left == p.retries_left
                &&& next.sub_steps == p.sub_steps
                &&& work_left(next, pairs.len()) == work_left(p, pairs.len()) - 1
            }
        }),
{
    let rest = p.sub_steps - p.passes_done;
    let per_pass = pairs.len() + 1;
    assert(rest * per_pass >= per_pass) by (nonlinear_arith)
        requires
            rest >= 1,
            per_pass >= 1,
    ;
    assert((rest - 1) * per_pass == rest * per_pass - per_pass) by (nonlinear_arith);
}

/// A precision issue on a pending pair, while shrinking is possible, throws
/// the attempt away: the bodies roll back, one retry is spent, and the whole
/// interval starts over with strictly more, hence strictly shorter,
/// sub-steps.
pub proof fn lemma_violation_forces_retry(
    p: StepProgress,
    pairs: Seq<(usize, usize)>,
    shrink: usize,
)
    requires
        progress_wf(p, pairs.len(), shrink),
        pair_pending(p, pairs.len()),
        can_shrink(p, shrink),
    ensures
        rolls_back(p, pairs.len(), shrink, SpaceSimulationStepResult::PercisionIssue),
        ({
            let next = next_progress(p, pairs, shrink, SpaceSimulationStepResult::PercisionIssue);
            &&& next.sub_steps == p.sub_steps * shrink
            &&& next.sub_steps > p.sub_steps
            &&& next.retries_left == p.retries_left - 1
            &&& next.passes_done == 0
            &&& next.cursor == 0
            &&& next.outcome.is_none()
        }),
{
    assert(p.sub_steps * shrink > p.sub_steps) by (nonlinear_arith)
        requires
            shrink >= 2,
            p.sub_steps >= 1,
    ;
}

/// The progress after a whole sequence of reports, each given for the action
/// that was due when it came.
pub open spec fn progress_after(
    start: StepProgress,
    pairs: Seq<(usize, usize)>,
    shrink: usize,
    reports: Seq<SpaceSimulationStepResult>,
) -> StepProgress
    decreases reports.len(),
{
    if reports.len() == 0 {
        start
    } else {
        next_progress(
            progress_after(start, pairs, shrink, reports.drop_last()),
            pairs,
            shrink,
            reports.last(),
        )
    }
}

/// Whatever is reported, the counters stay within their bounds, the number
/// of sub-steps never falls, and a tolerated precision issue is not
/// forgotten.
pub proof fn lemma_reports_keep_wf(
    start: StepProgress,
    pairs: Seq<(usize, usize)>,
    shrink: usize,
    reports: Seq<SpaceSimulationStepResult>,
)
    requires
        progress_wf(start, pairs.len(), shrink),
    ensures
        progress_wf(progress_after(start, pairs, shrink, reports), pairs.len(), shrink),
        progress_after(start, pairs, shrink, reports).sub_steps >= start.sub_steps,
        start.degraded ==> progress_after(start, pairs, shrink, reports).degraded,
    decreases reports.len(),
{
    if reports.len() > 0 {
        lemma_reports_keep_wf(start, pairs, shrink, reports.drop_last());
        let before = progress_after(start, pairs, shrink, reports.drop_last());
        lemma_progress_stays_wf(before, pairs, shrink, reports.last());
        assert(before.sub_steps * shrink >= before.sub_steps) by (nonlinear_arith)
            requires
                shrink >= 2,
                before.sub_steps >= 1,
        ;
    }
}

/// Reports of success carry a step to its end in exactly the actions that
/// are left: every pair of every remaining pass, and one integration per
/// pass. Until then the step is unfinished; then it ends without a restart,
/// as a success unless an issue had been tolerated before.
pub proof fn lemma_clean_run_ends_the_step(
    p: StepProgress,
    pairs: Seq<(usize, usize)>,
    shrink: usize,
    reports: Seq<SpaceSimulationStepResult>,
)
    requires
        progress_wf(p, pairs.len(), shrink),
        p.outcome.is_none(),
        reports.len() <= work_left(p, pairs.len()),
        forall|k: int| 0 <= k < reports.len() ==> reports[k] == SpaceSimulationStepResult::Success,
    ensures
        ({
            let end = progress_after(p, pairs, shrink, reports);
            &&& end.sub_steps == p.sub_steps
            &&& end.retries_left == p.retries_left
            &&& end.degraded == p.degraded
            &&& reports.len() < work_left(p, pairs.len()) ==> end.outcome.is_none() && work_left(
                end,
                pairs.len(),
            ) == work_left(p, pairs.len()) - reports.len()
            &&& reports.len() == work_left(p, pairs.len()) ==> end.outcome == Some(
                if p.degraded {
                    StepOutcome::GivenUp
                } else {
                    StepOutcome::Success
                },
            )
        }),
    decreases reports.len(),
{
    let ahead = p.sub_steps - p.passes_done;
    let per_pass = pairs.len() + 1;
    assert(ahead * per_pass >= per_pass) by (nonlinear_arith)
        requires
            ahead >= 1,
            per_pass >= 1,
    ;
    if reports.len() > 0 {
        let earlier = reports.drop_last();
        lemma_clean_run_ends_the_step(p, pairs, shrink, earlier);
        lemma_reports_keep_wf(p, pairs, shrink, earlier);
        let before = progress_after(p, pairs, shrink, earlier);
        assert(reports.last() == SpaceSimulationStepResult::Success);
        lemma_step_makes_headway(before, pairs, shrink, SpaceSimulationStepResult::Success);
        let rest = before.sub_steps - before.passes_done;
        if rest >= 2 {
            assert(rest * per_pass >= 2 * per_pass) by (nonlinear_arith)
                requires
                    rest >= 2,
                    per_pass >= 1,
            ;
        } else {
            assert(rest * per_pass == per_pass) by (nonlinear_arith)
                requires
                    rest == 1,
            ;
        }
    }
}

/// The order of the actions within an attempt. Counting from a start or a
/// restart, and as long as success is reported, action number `k` belongs to
/// pass `k / (pairs + 1)`; within a pass the pairs come first, in their
/// order, and the integration of the positions comes last.
pub proof fn lemma_pairs_first_then_positions(
    p: StepProgress,
    pairs: Seq<(usize, usize)>,
    shrink: usize,
    reports: Seq<SpaceSimulationStepResult>,
)
    requires
        progress_wf(p, pairs.len(), shrink),
        p.outcome.is_none(),
        p.passes_done == 0,
        p.cursor == 0,
        reports.len() < p.sub_steps * (pairs.len() + 1),
        forall|k: int| 0 <= k < reports.len() ==> reports[k] == SpaceSimulationStepResult::Success,
    ensures
        ({
            let end = progress_after(p, pairs, shrink, reports);
            let per_pass = pairs.len() as int + 1;
            let place = reports.len() as int % per_pass;
            &&& end.passes_done == reports.len() as int / per_pass
            &&& end.cursor == place
            &&& pending_action(end, pairs, shrink) == if place < pairs.len() {
                StepAction::EvaluatePair {
                    first: pairs[place].0,
                    second: pairs[place].1,
                    sub_steps: p.sub_steps,
                    tolerate: !can_shrink(p, shrink),
                }
            } else {
                StepAction::IntegratePositions { sub_steps: p.sub_steps }
            }
        }),
{
    lemma_clean_run_ends_the_step(p, pairs, shrink, reports);
    lemma_reports_keep_wf(p, pairs, shrink, reports);
    let end = progress_after(p, pairs, shrink, reports);
    let per_pass = pairs.len() as int + 1;
    assert((p.sub_steps - end.passes_done) * per_pass == p.sub_steps * per_pass - end.passes_done
        * per_pass) by (nonlinear_arith);
    lemma_fundamental_div_mod_converse(
        reports.len() as int,
        per_pass,
        end.passes_done as int,
        end.cursor as int,
    );
}

/// A step never ends in success on a run in which a pair failed the
/// precision check. If report number `at` is a precision issue for a pending
/// pair, then after any further reports the step has either been restarted
/// with strictly more sub-steps than it had at that report, or carries the
/// mark of a tolerated issue, with which it can only end as given up.
pub proof fn lemma_violation_never_accepted(
    start: StepProgress,
    pairs: Seq<(usize, usize)>,
    shrink: usize,
    reports: Seq<SpaceSimulationStepResult>,
    at: int,
)
    requires
        progress_wf(start, pairs.len(), shrink),
        0 <= at < reports.len(),
        reports[at] == SpaceSimulationStepResult::PercisionIssue,
        pair_pending(progress_after(start, pairs, shrink, reports.take(at)), pairs.len()),
    ensures
        ({
            let seen = progress_after(start, pairs, shrink, reports.take(at));
            let end = progress_after(start, pairs, shrink, reports);
            &&& end.sub_steps > seen.sub_steps || end.degraded
            &&& end.outcome == Some(StepOutcome::Success) ==> end.sub_steps > seen.sub_steps
        }),
    decreases reports.len(),
{
    let seen = progress_after(start, pairs, shrink, reports.take(at));
    let before = progress_after(start, pairs, shrink, reports.drop_last());
    lemma_reports_keep_wf(start, pairs, shrink, reports.take(at));
    lemma_reports_keep_wf(start, pairs, shrink, reports.drop_last());
    lemma_progress_stays_wf(before, pairs, shrink, reports.last());
    assert(before.sub_steps * shrink > before.sub_steps) by (nonlinear_arith)
        requires
            shrink >= 2,
            before.sub_steps >= 1,
    ;
    if at == reports.len() - 1 {
        assert(reports.drop_last() =~= reports.take(at));
    } else {
        assert(reports.drop_last().take(at) =~= reports.take(at));
        lemma_violation_never_accepted(start, pairs, shrink, reports.drop_last(), at);
    }
}

/// `base` raised to `exponent`.
pub open spec fn power(base: int, exponent: nat) -> int
    decreases exponent,
{
    if exponent == 0 {
        1
    } else {
        base * power(base, (exponent - 1) as nat)
    }
}

/// Report number `at` is a precision issue for a pending pair, given in the
/// attempt that has `attempt` restarts behind it and therefore runs at
/// `shrink` to the power of `attempt` sub-steps.
pub open spec fn attempt_failed_at(
    max_retries: usize,
    pairs: Seq<(usize, usize)>,
    shrink: usize,
    reports: Seq<SpaceSimulationStepResult>,
    attempt: nat,
    at: int,
) -> bool {
    let seen = progress_after(start_progress(max_retries), pairs, shrink, reports.take(at));
    &&& 0 <= at < reports.len()
    &&& reports[at] == SpaceSimulationStepResult::PercisionIssue
    &&& pair_pending(seen, pairs.len())
    &&& seen.retries_left + attempt == max_retries
    &&& seen.sub_steps == power(shrink as int, attempt)
}

/// Some report ended the attempt that had `attempt` restarts behind it, or
/// was tolerated in it: a precision issue for a pending pair.
pub open spec fn attempt_failed(
    max_retries: usize,
    pairs: Seq<(usize, usize)>,
    shrink: usize,
    reports: Seq<SpaceSimulationStepResult>,
    attempt: nat,
) -> bool {
    exists|at: int| attempt_failed_at(max_retries, pairs, shrink, reports, attempt, at)
}

proof fn lemma_failed_at_stays(
    max_retries: usize,
    pairs: Seq<(usize, usize)>,
    shrink: usize,
    reports: Seq<SpaceSimulationStepResult>,
    attempt: nat,
    at: int,
)
    requires
        reports.len() > 0,
        attempt_failed_at(max_retries, pairs, shrink, reports.drop_last(), attempt, at),
    ensures
        attempt_failed_at(max_retries, pairs, shrink, reports, attempt, at),
{
    assert(reports.drop_last().take(at) =~= reports.take(at));
}

/// Where a step stands after any reports, counted in attempts: with `k`
/// retries spent it runs at `shrink` to the power of `k` sub-steps, each of
/// the `k` earlier attempts was ended by a precision issue on a pending
/// pair, and a mark of a tolerated issue stems from such a report in the
/// current attempt.
pub proof fn lemma_attempts_behind(
    max_retries: usize,
    pairs: Seq<(usize, usize)>,
    shrink: usize,
    reports: Seq<SpaceSimulationStepResult>,
)
    requires
        shrink >= 2,
        pairs.len() <= usize::MAX,
    ensures
        ({
            let end = progress_after(start_progress(max_retries), pairs, shrink, reports);
            let spent = (max_retries - end.retries_left) as nat;
            &&& progress_wf(end, pairs.len(), shrink)
            &&& end.retries_left <= max_retries
            &&& end.sub_steps == power(shrink as int, spent)
            &&& forall|attempt: nat|
                attempt < spent ==> #[trigger] attempt_failed(
                    max_retries,
                    pairs,
                    shrink,
                    reports,
                    attempt,
                )
            &&& end.degraded ==> attempt_failed(max_retries, pairs, shrink, reports, spent)
        }),
    decreases reports.len(),
{
    let start = start_progress(max_retries);
    let end = progress_after(start, pairs, shrink, reports);
    let spent = (max_retries - end.retries_left) as nat;
    if reports.len() == 0 {
        assert(power(shrink as int, 0) == 1);
    } else {
        let earlier = reports.drop_last();
        let last = reports.len() - 1;
        lemma_attempts_behind(max_retries, pairs, shrink, earlier);
        let before = progress_after(start, pairs, shrink, earlier);
        let spent_before = (max_retries - before.retries_left) as nat;
        lemma_progress_stays_wf(before, pairs, shrink, reports.last());
        assert(reports.take(last) =~= earlier);
        assert(power(shrink as int, spent_before + 1) == shrink * power(shrink as int, spent_before));
        assert(before.sub_steps * shrink == shrink * before.sub_steps) by (nonlinear_arith);
        let issue_on_pair = pair_pending(before, pairs.len()) && reports.last()
            == SpaceSimulationStepResult::PercisionIssue;
        if issue_on_pair {
            assert(attempt_failed_at(max_retries, pairs, shrink, reports, spent_before, last));
        }
        assert forall|attempt: nat| attempt < spent implies #[trigger] attempt_failed(
            max_retries,
            pairs,
            shrink,
            reports,
            attempt,
        ) by {
            if attempt < spent_before {
                assert(attempt_failed(max_retries, pairs, shrink, earlier, attempt));
                let at = choose|at: int|
                    attempt_failed_at(max_retries, pairs, shrink, earlier, attempt, at);
                lemma_failed_at_stays(max_retries, pairs, shrink, reports, attempt, at);
            } else {
                assert(attempt_failed_at(max_retries, pairs, shrink, reports, attempt, last));
            }
        }
        if end.degraded {
            if before.degraded {
                let at = choose|at: int|
                    attempt_failed_at(max_retries, pairs, shrink, earlier, spent_before, at);
                lemma_failed_at_stays(max_retries, pairs, shrink, reports, spent_before, at);
            } else {
                assert(attempt_failed_at(max_retries, pairs, shrink, reports, spent, last));
            }
        }
    }
}

/// The run that a step is accepted with. A step that has ended as a success
/// or as given up has spent some number `k` of its retries and has then
/// completed `shrink` to the power of `k` passes, each a `shrink`-to-the-`k`th
/// part of the interval, since its last restart. Every attempt before that,
/// at `shrink` to the power of `k'` sub-steps for each `k'` below `k`, was
/// ended by a pair that failed the precision check. In a success no pair
/// failed the check in the accepted run; a step is given up only where a
/// pair did fail it there and no further shrinking was possible.
pub proof fn lemma_accepted_run(
    max_retries: usize,
    pairs: Seq<(usize, usize)>,
    shrink: usize,
    reports: Seq<SpaceSimulationStepResult>,
)
    requires
        shrink >= 2,
        pairs.len() <= usize::MAX,
        ({
            let end = progress_after(start_progress(max_retries), pairs, shrink, reports);
            end.outcome == Some(StepOutcome::Success) || end.outcome == Some(StepOutcome::GivenUp)
        }),
    ensures
        ({
            let end = progress_after(start_progress(max_retries), pairs, shrink, reports);
            let spent = (max_retries - end.retries_left) as nat;
            &&& spent <= max_retries
            &&& end.sub_steps == power(shrink as int, spent)
            &&& end.passes_done == end.sub_steps
            &&& forall|attempt: nat|
                attempt < spent ==> #[trigger] attempt_failed(
                    max_retries,
                    pairs,
                    shrink,
                    reports,
                    attempt,
                )
            &&& end.outcome == Some(StepOutcome::Success) ==> !attempt_failed(
                max_retries,
                pairs,
                shrink,
                reports,
                spent,
            )
            &&& end.outcome == Some(StepOutcome::GivenUp) ==> {
                &&& !can_shrink(end, shrink)
                &&& attempt_failed(max_retries, pairs, shrink, reports, spent)
            }
        }),
{
    let start = start_progress(max_retries);
    let end = progress_after(start, pairs, shrink, reports);
    let spent = (max_retries - end.retries_left) as nat;
    lemma_attempts_behind(max_retries, pairs, shrink, reports);
    if end.outcome == Some(StepOutcome::Success) {
        assert forall|at: int|
            !attempt_failed_at(max_retries, pairs, shrink, reports, spent, at) by {
            if attempt_failed_at(max_retries, pairs, shrink, reports, spent, at) {
                lemma_violation_never_accepted(start, pairs, shrink, reports, at);
            }
        }
    }
}

} // verus!
