use vstd::prelude::*;
use crate::timer::Timer;

verus! {

/// How long each scenario runs, in milliseconds.
pub const SCENARIO_DURATION_MS: u64 = 30_000;
/// Pause before each scenario, in milliseconds.
pub const SCENARIO_DELAY_MS: u64 = 5_000;

/// The training scenarios.
#[derive(Clone, Copy, Debug, PartialEq, Eq, Structural)]
pub enum ScenarioType {
    /// Clicking on targets that move unpredictably.
    DynamicClicking,
    /// Clicking on stationary targets.
    StaticClicking,
    /// Clicking on targets that move in straight lines.
    LinearClicking,
    /// Following a slow, predictable target.
    PreciseTracking,
    /// Following a target that turns suddenly.
    ReactiveTracking,
    /// Following a target along a smooth figure eight.
    ControlTracking,
    /// Switching fast between targets.
    SpeedSwitching,
    /// Switching between targets that strafe away from the aim.
    EvasiveSwitching,
    /// Switching between targets with a steady aim.
    StabilitySwitching,
}

/// What the sequencer asks of the game on a frame.
#[derive(Clone, Copy, Debug, PartialEq, Eq, Structural)]
pub enum ScenarioEvent {
    Nothing,
    /// A scenario begins: spawn its targets.
    Started(ScenarioType),
    /// A scenario goes on: run its per-frame target update.
    Running(ScenarioType),
    /// A scenario ended: clear its targets.
    Ended,
    /// The last pause ran out: the run is over.
    Completed,
}

/// Outcome of one frame of the sequencer.
#[derive(Clone, Copy, Debug, PartialEq, Eq, Structural)]
pub struct ScenarioStep {
    /// The start action began a new run this frame: clear all targets.
    pub restarted: bool,
    pub event: ScenarioEvent,
}

/// The scenario sequencer: idle until started, then a pause before each
/// scenario in turn, and back to idle after the pause that follows the last.
#[derive(Clone, Debug)]
pub struct ScenarioState {
    pub current_type: Option<ScenarioType>,
    pub scenario_timer: Timer,
    pub delay_timer: Timer,
    pub current_index: usize,
    pub is_active: bool,
    pub has_started: bool,
    pub scenarios: Vec<ScenarioType>,
}

/// Mathematical view of the sequencer.
pub ghost struct SequencerView {
    pub current_type: Option<ScenarioType>,
    pub scenario_timer: Timer,
    pub delay_timer: Timer,
    pub current_index: nat,
    pub is_active: bool,
    pub has_started: bool,
    pub scenarios: Seq<ScenarioType>,
}

impl View for ScenarioState {
    type V = SequencerView;

    open spec fn view(&self) -> SequencerView {
        SequencerView {
            current_type: self.current_type,
            scenario_timer: self.scenario_timer,
            delay_timer: self.delay_timer,
            current_index: self.current_index as nat,
            is_active: self.is_active,
            has_started: self.has_started,
            scenarios: self.scenarios@,
        }
    }
}

impl SequencerView {
    pub open spec fn well_formed(self) -> bool {
        &&& self.current_index <= self.scenarios.len()
        &&& self.is_active ==> self.has_started
        &&& self.is_active ==> self.current_index < self.scenarios.len()
        &&& self.is_active ==> self.current_type == Some(self.scenarios[self.current_index as int])
        &&& self.scenario_timer.well_formed() && !self.scenario_timer.repeating
        &&& self.delay_timer.well_formed() && !self.delay_timer.repeating
    }

    /// The state after the start action, if it is taken: a run that has not
    /// begun begins with the pause before the first scenario.
    pub open spec fn after_start(self, start: bool) -> SequencerView {
        if start && !self.has_started {
            SequencerView {
                has_started: true,
                current_index: 0,
                is_active: false,
                delay_timer: Timer { elapsed: 0, finished: false, just_finished: false, ..self.delay_timer },
                ..self
            }
        } else {
            self
        }
    }

    /// One tick of `dt` milliseconds of a run.
    pub open spec fn ticked(self, dt: nat) -> (SequencerView, ScenarioEvent) {
        if !self.has_started {
            (self, ScenarioEvent::Nothing)
        } else if !self.is_active {
            let d = self.delay_timer.ticked(dt);
            if !d.just_finished {
                (SequencerView { delay_timer: d, ..self }, ScenarioEvent::Nothing)
            } else if self.current_index < self.scenarios.len() {
                let ty = self.scenarios[self.current_index as int];
                (SequencerView {
                    delay_timer: d,
                    current_type: Some(ty),
                    is_active: true,
                    scenario_timer: Timer { elapsed: 0, finished: false, just_finished: false, ..self.scenario_timer },
                    ..self
                }, ScenarioEvent::Started(ty))
            } else {
                (SequencerView { delay_timer: d, has_started: false, current_type: None, ..self }, ScenarioEvent::Completed)
            }
        } else {
            let s = self.scenario_timer.ticked(dt);
            if s.just_finished {
                (SequencerView {
                    scenario_timer: s,
                    is_active: false,
                    current_index: self.current_index + 1,
                    delay_timer: Timer { elapsed: 0, finished: false, just_finished: false, ..self.delay_timer },
                    ..self
                }, ScenarioEvent::Ended)
            } else {
                (SequencerView { scenario_timer: s, ..self }, ScenarioEvent::Running(self.current_type.unwrap()))
            }
        }
    }

    /// One frame: the start action, then a tick.
    pub open spec fn stepped(self, start: bool, dt: nat) -> (SequencerView, ScenarioStep) {
        let s = self.after_start(start);
        let (n, e) = s.ticked(dt);
        (n, ScenarioStep { restarted: start && !self.has_started, event: e })
    }

    /// All scenarios have run and only the final pause is left.
    pub open spec fn all_scenarios_done(self) -> bool {
        self.has_started && !self.is_active && self.current_index == self.scenarios.len()
    }
}

/// What the scenario banner shows.
#[derive(Clone, Copy, Debug, PartialEq, Eq, Structural)]
pub enum ScenarioDisplay {
    /// No run yet: the prompt to start one.
    Prompt,
    /// A scenario is running, with the milliseconds it has left.
    Current(ScenarioType, u64),
    /// The pause before the given scenario, with the milliseconds it has left.
    Next(ScenarioType, u64),
    /// Every scenario has run.
    AllCompleted,
}

impl ScenarioState {

    /// An idle sequencer over the given scenarios, with the given scenario
    /// length and pause, in milliseconds.
    pub fn new(scenarios: Vec<ScenarioType>, scenario_ms: u64, delay_ms: u64) -> (r: Self)
        ensures
            r@.well_formed(),
            r@.scenarios == scenarios@,
            !r@.has_started && !r@.is_active && r@.current_index == 0 && r@.current_type is None,
            r@.scenario_timer == Timer::once_spec(scenario_ms),
            r@.delay_timer == Timer::once_spec(delay_ms),
    {
        ScenarioState {
            current_type: None,
            scenario_timer: Timer::once(scenario_ms),
            delay_timer: Timer::once(delay_ms),
            current_index: 0,
            is_active: false,
            has_started: false,
            scenarios,
        }
    }

    /// The nine scenarios in their fixed order, 30 s each after a 5 s pause.
    pub fn default_sequence() -> (r: Self)
        ensures
            r@.well_formed(),
            r@.scenarios == seq![
                ScenarioType::DynamicClicking,
                ScenarioType::StaticClicking,
                ScenarioType::LinearClicking,
                ScenarioType::PreciseTracking,
                ScenarioType::ReactiveTracking,
                ScenarioType::ControlTracking,
                ScenarioType::SpeedSwitching,
                ScenarioType::EvasiveSwitching,
                ScenarioType::StabilitySwitching,
            ],
            !r@.has_started && !r@.is_active && r@.current_index == 0 && r@.current_type is None,
            r@.scenario_timer == Timer::once_spec(SCENARIO_DURATION_MS),
            r@.delay_timer == Timer::once_spec(SCENARIO_DELAY_MS),
    {
        let scenarios = vec![
            ScenarioType::DynamicClicking,
            ScenarioType::StaticClicking,
            ScenarioType::LinearClicking,
            ScenarioType::PreciseTracking,
            ScenarioType::ReactiveTracking,
            ScenarioType::ControlTracking,
            ScenarioType::SpeedSwitching,
            ScenarioType::EvasiveSwitching,
            ScenarioType::StabilitySwitching,
        ];
        let r = Self::new(scenarios, SCENARIO_DURATION_MS, SCENARIO_DELAY_MS);
        assert(r@.scenarios =~= seq![
            ScenarioType::DynamicClicking,
            ScenarioType::StaticClicking,
            ScenarioType::LinearClicking,
            ScenarioType::PreciseTracking,
            ScenarioType::ReactiveTracking,
            ScenarioType::ControlTracking,
            ScenarioType::SpeedSwitching,
            ScenarioType::EvasiveSwitching,
            ScenarioType::StabilitySwitching,
        ]);
        r
    }
}

/// The state after a sequence of frames, each a start action and a frame
/// time in milliseconds.
pub open spec fn run(v: SequencerView, frames: Seq<(bool, nat)>) -> SequencerView
    decreases frames.len(),
{
    if frames.len() == 0 {
        v
    } else {
        run(v.stepped(frames[0].0, frames[0].1).0, frames.drop_first())
    }
}

/// The scenarios that begin during a sequence of frames, in order.
pub open spec fn started_in(v: SequencerView, frames: Seq<(bool, nat)>) -> Seq<ScenarioType>
    decreases frames.len(),
{
    if frames.len() == 0 {
        seq![]
    } else {
        let (n, st) = v.stepped(frames[0].0, frames[0].1);
        let rest = started_in(n, frames.drop_first());
        match st.event {
            ScenarioEvent::Started(t) => seq![t] + rest,
            _ => rest,
        }
    }
}

/// No frame from `from` on takes the start action.
pub open spec fn no_start_from(frames: Seq<(bool, nat)>, from: int) -> bool {
    forall|i: int| from <= i < frames.len() ==> !(#[trigger] frames[i]).0
}

/// Scenarios of a run that have not begun yet.
pub open spec fn remaining(v: SequencerView) -> Seq<ScenarioType> {
    if v.is_active {
        v.scenarios.subrange(v.current_index as int + 1, v.scenarios.len() as int)
    } else {
        v.scenarios.subrange(v.current_index as int, v.scenarios.len() as int)
    }
}

proof fn lemma_timer_ticked_well_formed(t: Timer, dt: nat)
    requires
        t.well_formed(),
    ensures
        t.ticked(dt).well_formed(),
        t.ticked(dt).repeating == t.repeating,
{
    if t.repeating && t.duration > 0 && t.elapsed + dt >= t.duration {
        vstd::arithmetic::div_mod::lemma_mod_bound((t.elapsed + dt) as int, t.duration as int);
    }
}

/// Every frame keeps the sequencer well formed; in particular the index
/// never passes the number of scenarios.
pub proof fn lemma_step_well_formed(v: SequencerView, start: bool, dt: nat)
    requires
        v.well_formed(),
    ensures
        v.stepped(start, dt).0.well_formed(),
        v.stepped(start, dt).0.scenarios == v.scenarios,
{
    let s = v.after_start(start);
    lemma_timer_ticked_well_formed(s.delay_timer, dt);
    lemma_timer_ticked_well_formed(s.scenario_timer, dt);
}

/// However the frames go, the sequencer stays well formed: the index never
/// passes the number of scenarios.
pub proof fn lemma_run_well_formed(v: SequencerView, frames: Seq<(bool, nat)>)
    requires
        v.well_formed(),
    ensures
        run(v, frames).well_formed(),
        run(v, frames).current_index <= v.scenarios.len(),
        run(v, frames).scenarios == v.scenarios,
    decreases frames.len(),
{
    if frames.len() > 0 {
        lemma_step_well_formed(v, frames[0].0, frames[0].1);
        lemma_run_well_formed(v.stepped(frames[0].0, frames[0].1).0, frames.drop_first());
    }
}

proof fn lemma_idle_stays(v: SequencerView, frames: Seq<(bool, nat)>)
    requires
        !v.has_started,
        no_start_from(frames, 0),
    ensures
        run(v, frames) == v,
        started_in(v, frames) == Seq::<ScenarioType>::empty(),
    decreases frames.len(),
{
    if frames.len() > 0 {
        assert(!frames[0].0);
        let rest = frames.drop_first();
        assert(no_start_from(rest, 0)) by {
            assert forall|i: int| 0 <= i < rest.len() implies !(#[trigger] rest[i]).0 by {
                assert(rest[i] == frames[i + 1]);
            }
        }
        lemma_idle_stays(v, rest);
    }
}

proof fn lemma_started_run(v: SequencerView, frames: Seq<(bool, nat)>)
    requires
        v.well_formed(),
        v.has_started,
        no_start_from(frames, 0),
        !run(v, frames).has_started,
    ensures
        started_in(v, frames) == remaining(v),
    decreases frames.len(),
{
    if frames.len() == 0 {
        return;
    }
    let (n, st) = v.stepped(frames[0].0, frames[0].1);
    let rest = frames.drop_first();
    assert(!frames[0].0);
    assert(no_start_from(rest, 0)) by {
        assert forall|i: int| 0 <= i < rest.len() implies !(#[trigger] rest[i]).0 by {
            assert(rest[i] == frames[i + 1]);
        }
    }
    lemma_step_well_formed(v, frames[0].0, frames[0].1);
    let len = v.scenarios.len() as int;
    let i = v.current_index as int;
    if !n.has_started {
        lemma_idle_stays(n, rest);
        assert(remaining(v) =~= Seq::<ScenarioType>::empty());
    } else {
        lemma_started_run(n, rest);
        match st.event {
            ScenarioEvent::Started(t) => {
                assert(remaining(v) =~= seq![t] + remaining(n));
            },
            ScenarioEvent::Ended => {
                assert(remaining(v) =~= remaining(n));
            },
            _ => {
                assert(remaining(v) =~= remaining(n));
            },
        }
    }
}

/// A run started from idle, with no further start action, that has come back
/// to idle has begun every scenario exactly once, in the listed order, each
/// out of the pause before it.
pub proof fn lemma_run_starts_each_scenario_once(v: SequencerView, frames: Seq<(bool, nat)>)
    requires
        v.well_formed(),
        !v.has_started,
        frames.len() > 0,
        frames[0].0,
        no_start_from(frames, 1),
        !run(v, frames).has_started,
    ensures
        started_in(v, frames) == v.scenarios,
        started_in(v, frames).len() == v.scenarios.len(),
{
    let s = v.after_start(true);
    let f0 = (false, frames[0].1);
    let alt = frames.update(0, f0);
    assert(s.well_formed());
    assert(v.stepped(true, frames[0].1).0 == s.stepped(false, frames[0].1).0);
    assert(v.stepped(true, frames[0].1).1.event == s.stepped(false, frames[0].1).1.event);
    assert(alt.drop_first() =~= frames.drop_first());
    assert(run(v, frames) == run(s, alt));
    assert(started_in(v, frames) == started_in(s, alt));
    assert(no_start_from(alt, 0)) by {
        assert forall|i: int| 0 <= i < alt.len() implies !(#[trigger] alt[i]).0 by {
            if i > 0 {
                assert(alt[i] == frames[i]);
            }
        }
    }
    lemma_started_run(s, alt);
    assert(remaining(s) =~= v.scenarios);
}

/// One frame of the sequencer: `start` is the start action of this frame,
/// `dt` the frame time in milliseconds.
pub fn manage_scenarios(scenario_state: &mut ScenarioState, start: bool, dt: u64) -> (r: ScenarioStep)
    requires
        old(scenario_state)@.well_formed(),
    ensures
        (final(scenario_state)@, r) == old(scenario_state)@.stepped(start, dt as nat),
        final(scenario_state)@.well_formed(),
{
    let restarted = start && !scenario_state.has_started;
    if restarted {
        scenario_state.has_started = true;
        scenario_state.current_index = 0;
        scenario_state.is_active = false;
        scenario_state.delay_timer.reset();
    }
    assert(scenario_state@ == old(scenario_state)@.after_start(start));
    let event = if !scenario_state.has_started {
        ScenarioEvent::Nothing
    } else if !scenario_state.is_active {
        let done = scenario_state.delay_timer.tick(dt);
        if !done {
            ScenarioEvent::Nothing
        } else if scenario_state.current_index < scenario_state.scenarios.len() {
            let ty = scenario_state.scenarios[scenario_state.current_index];
            scenario_state.current_type = Some(ty);
            scenario_state.is_active = true;
            scenario_state.scenario_timer.reset();
            ScenarioEvent::Started(ty)
        } else {
            scenario_state.has_started = false;
            scenario_state.current_type = None;
            ScenarioEvent::Completed
        }
    } else {
        let done = scenario_state.scenario_timer.tick(dt);
        assert(scenario_state.current_index < scenario_state.scenarios.len());
        if done {
            scenario_state.is_active = false;
            scenario_state.current_index = scenario_state.current_index + 1;
            scenario_state.delay_timer.reset();
            ScenarioEvent::Ended
        } else {
            match scenario_state.current_type {
                Some(ty) => ScenarioEvent::Running(ty),
                None => ScenarioEvent::Nothing,
            }
        }
    };
    ScenarioStep { restarted, event }
}

/// What the banner shows for the current state.
pub fn update_scenario_display(scenario_state: &ScenarioState) -> (r: ScenarioDisplay)
    requires
        scenario_state@.well_formed(),
    ensures
        !scenario_state.has_started ==> r == ScenarioDisplay::Prompt,
        scenario_state.has_started && scenario_state.is_active ==> r == ScenarioDisplay::Current(
            scenario_state.scenarios@[scenario_state.current_index as int],
            (scenario_state.scenario_timer.duration - scenario_state.scenario_timer.elapsed) as u64,
        ),
        scenario_state.has_started && !scenario_state.is_active && scenario_state.current_index < scenario_state.scenarios@.len() ==> r == ScenarioDisplay::Next(
            scenario_state.scenarios@[scenario_state.current_index as int],
            (scenario_state.delay_timer.duration - scenario_state.delay_timer.elapsed) as u64,
        ),
        scenario_state.has_started && !scenario_state.is_active && scenario_state.current_index >= scenario_state.scenarios@.len() ==> r == ScenarioDisplay::AllCompleted,
{
    if !scenario_state.has_started {
        ScenarioDisplay::Prompt
    } else if scenario_state.is_active {
        ScenarioDisplay::Current(scenario_state.scenarios[scenario_state.current_index], scenario_state.scenario_timer.remaining())
    } else if scenario_state.current_index < scenario_state.scenarios.len() {
        ScenarioDisplay::Next(scenario_state.scenarios[scenario_state.current_index], scenario_state.delay_timer.remaining())
    } else {
        ScenarioDisplay::AllCompleted
    }
}

/// The state after `n` frames of `dt` milliseconds without the start action.
pub open spec fn run_frames(v: SequencerView, dt: nat, n: nat) -> SequencerView
    decreases n,
{
    if n == 0 {
        v
    } else {
        run_frames(v.stepped(false, dt).0, dt, (n - 1) as nat)
    }
}

/// Pauses last `d` frames and scenarios `a` frames of `dt` milliseconds.
pub open spec fn paced(v: SequencerView, dt: nat, d: nat, a: nat) -> bool {
    v.delay_timer.duration == d * dt && v.scenario_timer.duration == a * dt
}

/// In the pause before scenario `i`, `j` frames in.
pub open spec fn in_pause(v: SequencerView, i: nat, j: nat, dt: nat) -> bool {
    &&& v.well_formed() && v.has_started && !v.is_active && v.current_index == i
    &&& v.delay_timer.elapsed == j * dt && !v.delay_timer.finished
}

/// In scenario `i`, `j` frames in.
pub open spec fn in_scenario(v: SequencerView, i: nat, j: nat, dt: nat) -> bool {
    &&& v.well_formed() && v.has_started && v.is_active && v.current_index == i
    &&& v.scenario_timer.elapsed == j * dt && !v.scenario_timer.finished
}

proof fn lemma_frame_order(j: nat, k: nat, dt: nat)
    requires
        dt > 0,
    ensures
        j < k ==> j * dt < k * dt,
        j + 1 == k ==> j * dt + dt == k * dt,
{
    if j < k {
        assert(j * dt < k * dt) by (nonlinear_arith)
            requires j < k, dt > 0;
    }
    if j + 1 == k {
        assert(j * dt + dt == k * dt) by (nonlinear_arith)
            requires j + 1 == k;
    }
}

proof fn lemma_run_frames_add(v: SequencerView, dt: nat, a: nat, b: nat)
    ensures
        run_frames(v, dt, a + b) == run_frames(run_frames(v, dt, a), dt, b),
    decreases a,
{
    if a > 0 {
        lemma_run_frames_add(v.stepped(false, dt).0, dt, (a - 1) as nat, b);
        assert((a + b - 1) as nat == (a - 1) as nat + b);
    }
}

proof fn lemma_pause_runs_out(v: SequencerView, i: nat, j: nat, dt: nat, d: nat, a: nat)
    requires
        in_pause(v, i, j, dt),
        paced(v, dt, d, a),
        dt > 0,
        j < d,
        i < v.scenarios.len(),
    ensures
        forall|k: nat| j + k < d ==> in_pause(#[trigger] run_frames(v, dt, k), i, j + k, dt)
            && paced(run_frames(v, dt, k), dt, d, a) && run_frames(v, dt, k).scenarios == v.scenarios,
        in_scenario(run_frames(v, dt, (d - j) as nat), i, 0, dt),
        paced(run_frames(v, dt, (d - j) as nat), dt, d, a),
        run_frames(v, dt, (d - j) as nat).scenarios == v.scenarios,
    decreases d - j,
{
    let n = v.stepped(false, dt).0;
    lemma_step_well_formed(v, false, dt);
    lemma_frame_order(j + 1, d, dt);
    lemma_frame_order(j, j + 1, dt);
    assert(0 * dt == 0) by (nonlinear_arith);
    if j + 1 == d {
        assert(run_frames(n, dt, 0) == n);
        assert forall|k: nat| j + k < d implies in_pause(#[trigger] run_frames(v, dt, k), i, j + k, dt)
            && paced(run_frames(v, dt, k), dt, d, a) && run_frames(v, dt, k).scenarios == v.scenarios by {
            assert(k == 0);
        }
    } else {
        assert(in_pause(n, i, j + 1, dt));
        lemma_pause_runs_out(n, i, j + 1, dt, d, a);
        assert((d - j - 1) as nat == (d - (j + 1)) as nat);
        assert forall|k: nat| j + k < d implies in_pause(#[trigger] run_frames(v, dt, k), i, j + k, dt)
            && paced(run_frames(v, dt, k), dt, d, a) && run_frames(v, dt, k).scenarios == v.scenarios by {
            if k > 0 {
                assert(run_frames(v, dt, k) == run_frames(n, dt, (k - 1) as nat));
                assert(j + 1 + (k - 1) == j + k);
            }
        }
    }
}

proof fn lemma_scenario_runs_out(v: SequencerView, i: nat, j: nat, dt: nat, d: nat, a: nat)
    requires
        in_scenario(v, i, j, dt),
        paced(v, dt, d, a),
        dt > 0,
        j < a,
    ensures
        forall|k: nat| j + k < a ==> in_scenario(#[trigger] run_frames(v, dt, k), i, j + k, dt)
            && paced(run_frames(v, dt, k), dt, d, a) && run_frames(v, dt, k).scenarios == v.scenarios,
        in_pause(run_frames(v, dt, (a - j) as nat), i + 1, 0, dt),
        paced(run_frames(v, dt, (a - j) as nat), dt, d, a),
        run_frames(v, dt, (a - j) as nat).scenarios == v.scenarios,
    decreases a - j,
{
    let n = v.stepped(false, dt).0;
    lemma_step_well_formed(v, false, dt);
    lemma_frame_order(j + 1, a, dt);
    lemma_frame_order(j, j + 1, dt);
    assert(0 * dt == 0) by (nonlinear_arith);
    if j + 1 == a {
        assert(run_frames(n, dt, 0) == n);
        assert forall|k: nat| j + k < a implies in_scenario(#[trigger] run_frames(v, dt, k), i, j + k, dt)
            && paced(run_frames(v, dt, k), dt, d, a) && run_frames(v, dt, k).scenarios == v.scenarios by {
            assert(k == 0);
        }
    } else {
        assert(in_scenario(n, i, j + 1, dt));
        lemma_scenario_runs_out(n, i, j + 1, dt, d, a);
        assert((a - j - 1) as nat == (a - (j + 1)) as nat);
        assert forall|k: nat| j + k < a implies in_scenario(#[trigger] run_frames(v, dt, k), i, j + k, dt)
            && paced(run_frames(v, dt, k), dt, d, a) && run_frames(v, dt, k).scenarios == v.scenarios by {
            if k > 0 {
                assert(run_frames(v, dt, k) == run_frames(n, dt, (k - 1) as nat));
                assert(j + 1 + (k - 1) == j + k);
            }
        }
    }
}

/// From the start of the pause before the first scenario, the pause before
/// scenario `i` starts after `i` rounds of a pause and a scenario, and in
/// between the index stays at the round's scenario.
proof fn lemma_rounds(v: SequencerView, dt: nat, d: nat, a: nat, i: nat)
    requires
        in_pause(v, 0, 0, dt),
        paced(v, dt, d, a),
        dt > 0,
        d > 0,
        a > 0,
        i <= v.scenarios.len(),
    ensures
        in_pause(run_frames(v, dt, i * (d + a)), i, 0, dt),
        paced(run_frames(v, dt, i * (d + a)), dt, d, a),
        run_frames(v, dt, i * (d + a)).scenarios == v.scenarios,
    decreases i,
{
    if i == 0 {
        assert(0 * (d + a) == 0) by (nonlinear_arith);
    } else {
        let p = (i - 1) as nat;
        lemma_rounds(v, dt, d, a, p);
        let w = run_frames(v, dt, p * (d + a));
        lemma_pause_runs_out(w, p, 0, dt, d, a);
        let x = run_frames(w, dt, d);
        lemma_scenario_runs_out(x, p, 0, dt, d, a);
        lemma_run_frames_add(v, dt, p * (d + a), d);
        lemma_run_frames_add(v, dt, p * (d + a) + d, a);
        assert(p * (d + a) + d + a == i * (d + a)) by (nonlinear_arith)
            requires p + 1 == i;
    }
}

/// With frames of `dt` milliseconds that divide both the pause (`d` frames)
/// and the scenario length (`a` frames), a run whose first frame takes the
/// start action has run every scenario, and reached the final pause, after
/// exactly `L * (d + a)` frames, that is `L` times the pause plus the
/// scenario length, and not a frame earlier.
pub proof fn lemma_all_done_after_rounds(v: SequencerView, dt: nat, d: nat, a: nat, n: nat)
    requires
        v.well_formed(),
        !v.has_started,
        paced(v, dt, d, a),
        dt > 0,
        d > 0,
        a > 0,
    ensures
        run_frames(v.after_start(true), dt, v.scenarios.len() * (d + a)).all_scenarios_done(),
        n < v.scenarios.len() * (d + a) ==> !run_frames(v.after_start(true), dt, n).all_scenarios_done(),
{
    let s = v.after_start(true);
    let l = v.scenarios.len();
    assert(0 * dt == 0) by (nonlinear_arith);
    assert(in_pause(s, 0, 0, dt));
    lemma_rounds(s, dt, d, a, l);
    if n < l * (d + a) {
        let i = n / (d + a);
        let r = n % (d + a);
        vstd::arithmetic::div_mod::lemma_fundamental_div_mod(n as int, (d + a) as int);
        vstd::arithmetic::div_mod::lemma_mod_bound(n as int, (d + a) as int);
        assert(i < l) by (nonlinear_arith)
            requires n == (d + a) * i + r, r >= 0, n < l * (d + a), d + a > 0;
        lemma_rounds(s, dt, d, a, i);
        let w = run_frames(s, dt, i * (d + a));
        lemma_run_frames_add(s, dt, i * (d + a), r as nat);
        assert(n == i * (d + a) + r) by (nonlinear_arith)
            requires n == (d + a) * i + r;
        lemma_pause_runs_out(w, i, 0, dt, d, a);
        if r < d {
            assert(in_pause(run_frames(w, dt, r as nat), i, 0 + r as nat, dt));
        } else {
            let x = run_frames(w, dt, d);
            lemma_scenario_runs_out(x, i, 0, dt, d, a);
            lemma_run_frames_add(w, dt, d, (r - d) as nat);
            assert(in_scenario(run_frames(x, dt, (r - d) as nat), i, 0 + (r - d) as nat, dt));
        }
    }
}

} // verus!
