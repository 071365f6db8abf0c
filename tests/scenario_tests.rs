use aim_trainer::scenario::{manage_scenarios, update_scenario_display, ScenarioDisplay, ScenarioEvent, ScenarioState, ScenarioType};

#[test]
fn end_to_end_run_takes_315_seconds() {
    let mut s = ScenarioState::default_sequence();
    assert_eq!(update_scenario_display(&s), ScenarioDisplay::Prompt);
    let mut clock: u64 = 0;
    let mut started = Vec::new();
    let mut first = true;
    let mut all_done_at = None;
    let mut completed_at = None;
    while completed_at.is_none() && clock < 1_000_000 {
        let step = manage_scenarios(&mut s, first, 1000);
        assert_eq!(step.restarted, first);
        first = false;
        clock += 1000;
        assert!(s.current_index <= 9);
        match step.event {
            ScenarioEvent::Started(t) => started.push(t),
            ScenarioEvent::Completed => completed_at = Some(clock),
            _ => {}
        }
        if all_done_at.is_none() && update_scenario_display(&s) == ScenarioDisplay::AllCompleted {
            all_done_at = Some(clock);
        }
    }
    assert_eq!(all_done_at, Some(315_000));
    assert_eq!(completed_at, Some(320_000));
    assert_eq!(started, ScenarioState::default_sequence().scenarios);
    assert!(!s.has_started);
    assert_eq!(update_scenario_display(&s), ScenarioDisplay::Prompt);
}

#[test]
fn delay_precedes_first_scenario() {
    let mut s = ScenarioState::default_sequence();
    let step = manage_scenarios(&mut s, true, 1000);
    assert!(step.restarted);
    assert_eq!(step.event, ScenarioEvent::Nothing);
    assert_eq!(update_scenario_display(&s), ScenarioDisplay::Next(ScenarioType::DynamicClicking, 4000));
    assert_eq!(manage_scenarios(&mut s, false, 4000).event, ScenarioEvent::Started(ScenarioType::DynamicClicking));
    assert_eq!(manage_scenarios(&mut s, true, 1000).event, ScenarioEvent::Running(ScenarioType::DynamicClicking));
    assert_eq!(update_scenario_display(&s), ScenarioDisplay::Current(ScenarioType::DynamicClicking, 29_000));
    assert_eq!(manage_scenarios(&mut s, false, 29_000).event, ScenarioEvent::Ended);
    assert_eq!(s.current_index, 1);
    assert!(!s.is_active);
}

#[test]
fn idle_without_start_does_nothing() {
    let mut s = ScenarioState::default_sequence();
    for _ in 0..10 {
        let step = manage_scenarios(&mut s, false, 10_000);
        assert_eq!(step.event, ScenarioEvent::Nothing);
        assert!(!step.restarted);
    }
    assert!(!s.has_started);
}

#[test]
fn empty_list_completes_after_one_pause() {
    let mut s = ScenarioState::new(Vec::new(), 30_000, 5_000);
    assert_eq!(manage_scenarios(&mut s, true, 4_999).event, ScenarioEvent::Nothing);
    assert_eq!(update_scenario_display(&s), ScenarioDisplay::AllCompleted);
    assert_eq!(manage_scenarios(&mut s, false, 1).event, ScenarioEvent::Completed);
    assert!(!s.has_started);
}
