//! The debounced goal detector.
//!
//! One scan looks at the clock, the thresholds and the four samples, and
//! names the side that scored, if any. A goal opens a cooldown window; until
//! it closes, every scan reports no goal, and a single ball is seen as a
//! single goal.
use vstd::prelude::*;

use crate::sensor::{SensorFault, SideReadings};
use crate::threshold::ThresholdStore;

verus! {

/// The cooldown window after a goal, in milliseconds.
pub const WAIT_AFTER_DETECTION_MS: u64 = 2000;

/// The outcome of one scan.
#[derive(Clone, Copy, Debug, PartialEq, Eq, Structural, Default)]
pub enum DetectedGoal {
    #[default]
    NoGoal,
    Home,
    Away,
}

impl DetectedGoal {
    pub open spec fn spec_label(self) -> Seq<char> {
        match self {
            DetectedGoal::Home => "Home"@,
            DetectedGoal::Away => "Away"@,
            DetectedGoal::NoGoal => "None"@,
        }
    }

    /// The display form of the outcome: `Home`, `Away` or `None`.
    pub fn to_string(&self) -> (r: String)
        ensures
            r@ == self.spec_label(),
    {
        match self {
            DetectedGoal::Home => String::from_str("Home"),
            DetectedGoal::Away => String::from_str("Away"),
            DetectedGoal::NoGoal => String::from_str("None"),
        }
    }
}

/// What one scan observes: the time, the thresholds read from the store, and
/// the samples of both sides.
#[derive(Clone, Copy, Debug)]
pub struct ScanInput {
    /// Milliseconds on a clock that does not go back.
    pub now: u64,
    pub thresholds: ThresholdStore,
    pub home: SideReadings,
    pub away: SideReadings,
}

/// Whether the cooldown window that opened at `last_goal` has passed.
pub open spec fn cooldown_elapsed(last_goal: u64, now: u64) -> bool {
    now >= last_goal + WAIT_AFTER_DETECTION_MS
}

/// The decision table of a scan, in its order of precedence: nothing during
/// the cooldown; nothing when a read of either side failed; then home before
/// away.
pub open spec fn decide(
    elapsed: bool,
    home: Result<bool, SensorFault>,
    away: Result<bool, SensorFault>,
) -> DetectedGoal {
    if !elapsed {
        DetectedGoal::NoGoal
    } else if home is Err || away is Err {
        DetectedGoal::NoGoal
    } else if home == Ok::<bool, SensorFault>(true) {
        DetectedGoal::Home
    } else if away == Ok::<bool, SensorFault>(true) {
        DetectedGoal::Away
    } else {
        DetectedGoal::NoGoal
    }
}

/// The outcome of a scan of `input` by a detector whose last goal was at
/// `last_goal`.
pub open spec fn scan_result(last_goal: u64, input: ScanInput) -> DetectedGoal {
    decide(
        cooldown_elapsed(last_goal, input.now),
        input.home.outcome(input.thresholds.home),
        input.away.outcome(input.thresholds.away),
    )
}

/// The cooldown anchor after a scan whose goal, if any, was accepted.
pub open spec fn next_anchor(last_goal: u64, input: ScanInput) -> u64 {
    if scan_result(last_goal, input) == DetectedGoal::NoGoal {
        last_goal
    } else {
        input.now
    }
}

/// The cooldown anchor after a run of scans, each goal accepted as it came.
pub open spec fn anchor_after(last_goal: u64, scans: Seq<ScanInput>) -> u64
    decreases scans.len(),
{
    if scans.len() == 0 {
        last_goal
    } else {
        next_anchor(anchor_after(last_goal, scans.drop_last()), scans.last())
    }
}

/// The outcomes of a run of scans, each goal accepted as it came.
pub open spec fn run_results(last_goal: u64, scans: Seq<ScanInput>) -> Seq<DetectedGoal>
    decreases scans.len(),
{
    if scans.len() == 0 {
        Seq::empty()
    } else {
        run_results(last_goal, scans.drop_last()).push(
            scan_result(anchor_after(last_goal, scans.drop_last()), scans.last()),
        )
    }
}

/// The debounced detector; `last_goal` is the time of the last accepted goal,
/// in milliseconds.
#[derive(Clone, Copy, Debug)]
pub struct GoalDetector {
    pub last_goal: u64,
}

impl GoalDetector {
    /// A detector whose cooldown window opens at `now`.
    pub fn new(now: u64) -> (r: GoalDetector)
        ensures
            r.last_goal == now,
    {
        GoalDetector { last_goal: now }
    }

    /// One scan. It never fails: a failed read makes the outcome `NoGoal`.
    /// It changes nothing; the caller accepts a goal with `last_goal_now`.
    pub fn scan(&self, input: &ScanInput) -> (r: DetectedGoal)
        ensures
            r == scan_result(self.last_goal, *input),
            !cooldown_elapsed(self.last_goal, input.now) ==> r == DetectedGoal::NoGoal,
            input.home.has_fault() || input.away.has_fault() ==> r == DetectedGoal::NoGoal,
            cooldown_elapsed(self.last_goal, input.now) && !input.home.has_fault()
                && !input.away.has_fault() && input.home.below(input.thresholds.home)
                ==> r == DetectedGoal::Home,
    {
        let elapsed = input.now >= self.last_goal && input.now - self.last_goal
            >= WAIT_AFTER_DETECTION_MS;
        let home = input.home.triggered(input.thresholds.home);
        let away = input.away.triggered(input.thresholds.away);
        if !elapsed {
            DetectedGoal::NoGoal
        } else {
            match (home, away) {
                (Ok(true), Ok(_)) => DetectedGoal::Home,
                (Ok(false), Ok(true)) => DetectedGoal::Away,
                _ => DetectedGoal::NoGoal,
            }
        }
    }

    /// Opens a new cooldown window at `now`.
    pub fn last_goal_now(&mut self, now: u64)
        ensures
            final(self).last_goal == now,
    {
        self.last_goal = now;
    }

    /// One turn of the scan loop: scans, and accepts the goal found, if any,
    /// by moving the cooldown anchor to the time of the scan.
    pub fn step(&mut self, input: &ScanInput) -> (r: DetectedGoal)
        ensures
            r == scan_result(old(self).last_goal, *input),
            final(self).last_goal == next_anchor(old(self).last_goal, *input),
    {
        let r = self.scan(input);
        if r != DetectedGoal::NoGoal {
            self.last_goal_now(input.now);
        }
        r
    }
}

proof fn lemma_run_results_len(last_goal: u64, scans: Seq<ScanInput>)
    ensures
        run_results(last_goal, scans).len() == scans.len(),
    decreases scans.len(),
{
    if scans.len() > 0 {
        lemma_run_results_len(last_goal, scans.drop_last());
    }
}

/// After a run, the cooldown anchor is no earlier than any goal of the run.
proof fn lemma_anchor_after_goal(last_goal: u64, scans: Seq<ScanInput>, i: int)
    requires
        0 <= i < scans.len(),
        run_results(last_goal, scans)[i] != DetectedGoal::NoGoal,
    ensures
        anchor_after(last_goal, scans) >= scans[i].now,
    decreases scans.len(),
{
    let prefix = scans.drop_last();
    lemma_run_results_len(last_goal, prefix);
    if i < scans.len() - 1 {
        lemma_anchor_after_goal(last_goal, prefix, i);
    }
}

/// Debounce: in any run of scans where each goal is accepted as it comes, two
/// goals are at least the cooldown window apart.
pub proof fn lemma_goals_are_spaced(last_goal: u64, scans: Seq<ScanInput>, i: int, j: int)
    requires
        0 <= i < j < scans.len(),
        run_results(last_goal, scans)[i] != DetectedGoal::NoGoal,
        run_results(last_goal, scans)[j] != DetectedGoal::NoGoal,
    ensures
        scans[j].now >= scans[i].now + WAIT_AFTER_DETECTION_MS,
    decreases scans.len(),
{
    let prefix = scans.drop_last();
    lemma_run_results_len(last_goal, prefix);
    if j < scans.len() - 1 {
        lemma_goals_are_spaced(last_goal, prefix, i, j);
    } else {
        lemma_anchor_after_goal(last_goal, prefix, i);
    }
}

} // verus!
