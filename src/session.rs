use vstd::prelude::*;
use crate::score::ScoreTracker;
use crate::timer::Timer;

verus! {

/// Number of phases in a calibration session.
pub const CALIBRATION_SCENARIOS: usize = 5;
/// Length of each calibration phase, in milliseconds.
pub const CALIBRATION_PHASE_MS: u64 = 30_000;

/// Score and accuracy at the end of one calibration phase.
#[derive(Clone, Copy, Debug, PartialEq, Eq, Structural)]
pub struct ScenarioMetrics {
    pub scenario: usize,
    pub score: i64,
    /// Hundredths of a percent.
    pub accuracy: u64,
}

/// A calibration session: a fixed number of timed phases, each recording the
/// running score when it ends.
#[derive(Clone, Debug)]
pub struct CalibrationState {
    pub current_scenario: usize,
    pub total_scenarios: usize,
    pub scenario_timer: Timer,
    pub is_complete: bool,
    pub collected_metrics: Vec<ScenarioMetrics>,
}

impl CalibrationState {
    pub open spec fn well_formed(self) -> bool {
        &&& self.scenario_timer.well_formed() && !self.scenario_timer.repeating
        &&& self.collected_metrics@.len() == self.current_scenario
        &&& forall|i: int| 0 <= i < self.collected_metrics@.len() ==> (#[trigger] self.collected_metrics@[i]).scenario == i
        &&& !self.is_complete ==> self.current_scenario == 0 || self.current_scenario < self.total_scenarios
        &&& self.is_complete ==> self.current_scenario >= 1 && self.current_scenario >= self.total_scenarios
        &&& self.is_complete ==> self.current_scenario == 1 || self.current_scenario == self.total_scenarios
    }
}

/// One frame: once the current phase's time is up, records the score and
/// accuracy for it and moves on, completing the session after the last
/// phase. Returns whether a phase ended.
pub fn run_calibration_scenarios(state: &mut CalibrationState, dt: u64, score: &ScoreTracker) -> (r: bool)
    requires
        old(state).well_formed(),
    ensures
        final(state).well_formed(),
        final(state).total_scenarios == old(state).total_scenarios,
        old(state).is_complete ==> *final(state) == *old(state) && !r,
        !old(state).is_complete ==> {
            let t = old(state).scenario_timer.ticked(dt as nat);
            &&& r == t.finished
            &&& !r ==> final(state).scenario_timer == t && final(state).current_scenario == old(state).current_scenario
                    && final(state).collected_metrics@ == old(state).collected_metrics@ && !final(state).is_complete
            &&& r ==> {
                &&& final(state).current_scenario == old(state).current_scenario + 1
                &&& final(state).collected_metrics@ == old(state).collected_metrics@.push(ScenarioMetrics {
                    scenario: old(state).current_scenario,
                    score: score.score,
                    accuracy: score.accuracy,
                })
                &&& final(state).is_complete == (final(state).current_scenario >= old(state).total_scenarios)
                &&& !final(state).is_complete ==> final(state).scenario_timer == (Timer { elapsed: 0, finished: false, just_finished: false, ..t })
            }
        },
{
    if state.is_complete {
        return false;
    }
    state.scenario_timer.tick(dt);
    if !state.scenario_timer.finished {
        return false;
    }
    let current = state.current_scenario;
    state.collected_metrics.push(ScenarioMetrics { scenario: current, score: score.score, accuracy: score.accuracy });
    state.current_scenario = current + 1;
    if state.current_scenario >= state.total_scenarios {
        state.is_complete = true;
    } else {
        state.scenario_timer.reset();
    }
    true
}

/// A fresh session of five 30 s phases.
pub fn setup_calibration_session() -> (r: CalibrationState)
    ensures
        r.well_formed(),
        r.current_scenario == 0 && r.total_scenarios == CALIBRATION_SCENARIOS && !r.is_complete,
        r.scenario_timer == Timer::once_spec(CALIBRATION_PHASE_MS),
{
    CalibrationState {
        current_scenario: 0,
        total_scenarios: CALIBRATION_SCENARIOS,
        scenario_timer: Timer::once(CALIBRATION_PHASE_MS),
        is_complete: false,
        collected_metrics: Vec::new(),
    }
}

} // verus!
