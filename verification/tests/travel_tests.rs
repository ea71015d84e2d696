use glyphfall_core::event::{SuddenEventHistory, SuddenEventRegistry};
use glyphfall_core::town::{
    AreaId, Position, TravelPhase, TravelPlan, TravelPosture, TravelSimulation, TravelStepOutcome, TravelTransport,
};
use rand::rngs::StdRng;
use rand::SeedableRng;

#[test]
fn test_travel_simulation_phase_transitions() {
    let mut sim = TravelSimulation::new(AreaId::Town, AreaId::Village, Position { x: 5, y: 5 });
    assert_eq!(sim.phase, TravelPhase::ChoosingDestination);

    sim.select_destination(AreaId::Village, Position { x: 20, y: 5 });
    assert_eq!(sim.phase, TravelPhase::ChoosingPosture);

    assert!(sim.back_phase());
    assert_eq!(sim.phase, TravelPhase::ChoosingDestination);
    assert!(!sim.back_phase());

    sim.select_destination(AreaId::Village, Position { x: 20, y: 5 });
    assert_eq!(sim.phase, TravelPhase::ChoosingPosture);

    sim.select_posture(TravelPosture::Bold);
    assert_eq!(sim.phase, TravelPhase::ChoosingTransport);
    assert_eq!(sim.plan.posture, TravelPosture::Bold);

    assert!(sim.back_phase());
    assert_eq!(sim.phase, TravelPhase::ChoosingPosture);

    sim.select_posture(TravelPosture::Normal);
    assert_eq!(sim.phase, TravelPhase::ChoosingTransport);

    sim.select_transport(TravelTransport::Carriage);
    assert_eq!(sim.plan.transport, TravelTransport::Carriage);
    let msg = sim.start_travel();
    assert_eq!(sim.phase, TravelPhase::Traveling);
    assert_eq!(sim.current_day, 1);
    assert_eq!(sim.total_days, 2);
    assert!(msg.contains("馬車"));
}

#[test]
fn test_travel_plan_calculate_total_days() {
    let plan_foot_normal = TravelPlan::new(AreaId::Town, AreaId::Village, TravelPosture::Normal, TravelTransport::Foot);
    assert_eq!(plan_foot_normal.calculate_total_days(), 3);
    let plan_foot_bold = TravelPlan::new(AreaId::Town, AreaId::Village, TravelPosture::Bold, TravelTransport::Foot);
    assert_eq!(plan_foot_bold.calculate_total_days(), 2);
    let plan_horse = TravelPlan::new(AreaId::Town, AreaId::Village, TravelPosture::Normal, TravelTransport::Horse);
    assert_eq!(plan_horse.calculate_total_days(), 1);
    let plan_carriage = TravelPlan::new(AreaId::Town, AreaId::Village, TravelPosture::Cautious, TravelTransport::Carriage);
    assert_eq!(plan_carriage.calculate_total_days(), 2);
}

#[test]
fn test_travel_simulation_event_occurrence_and_resolution() {
    let mut sim = TravelSimulation::new(AreaId::Town, AreaId::Village, Position { x: 10, y: 10 });
    sim.plan.transport = TravelTransport::Horse;
    sim.plan.posture = TravelPosture::Cautious;

    sim.start_travel();
    assert_eq!(sim.current_day, 1);

    let registry = SuddenEventRegistry::travel_default();
    let mut history = SuddenEventHistory::default();
    let mut rng = StdRng::seed_from_u64(999);

    let outcome = sim.advance_day(&registry, &mut history, &mut rng);
    match &outcome {
        TravelStepOutcome::EventOccurred { day, event, .. } => {
            assert_eq!(*day, 1);
            assert_eq!(event.id, "checkpoint");
            assert_eq!(sim.phase, TravelPhase::EncounterEvent);
        }
        other => panic!("Expected event, but got {:?}", other),
    }

    let resolve_outcome = sim.resolve_event_and_continue();
    match resolve_outcome {
        TravelStepOutcome::Arrived { total_days, message } => {
            assert_eq!(total_days, 1);
            assert!(message.contains("到着"));
            assert_eq!(sim.phase, TravelPhase::Arrived);
        }
        other => panic!("Expected arrival after resolve, but got {:?}", other),
    }
}

#[test]
fn test_travel_simulation_without_event_arrives() {
    let mut sim = TravelSimulation::new(AreaId::Town, AreaId::Village, Position { x: 10, y: 10 });
    sim.plan.transport = TravelTransport::Horse;
    sim.plan.posture = TravelPosture::Cautious;
    sim.start_travel();

    let empty_registry = SuddenEventRegistry { events: Vec::new() };
    let mut history = SuddenEventHistory::default();
    let mut rng = StdRng::seed_from_u64(1);

    let outcome = sim.advance_day(&empty_registry, &mut history, &mut rng);
    match outcome {
        TravelStepOutcome::Arrived { total_days, message } => {
            assert_eq!(total_days, 1);
            assert!(message.contains("到着"));
            assert_eq!(sim.phase, TravelPhase::Arrived);
        }
        other => panic!("Expected arrival, but got {:?}", other),
    }
}

#[test]
fn posture_and_transport_tables() {
    assert_eq!(TravelPosture::Cautious.base_probability(), 15);
    assert_eq!(TravelPosture::Normal.base_probability(), 35);
    assert_eq!(TravelPosture::Bold.base_probability(), 65);
    assert_eq!(TravelTransport::Foot.cost(), 0);
    assert_eq!(TravelTransport::Foot.base_days(), 3);
    assert_eq!(TravelTransport::Horse.base_days(), 1);
    assert_eq!(TravelTransport::Carriage.base_days(), 2);
}

#[test]
fn bold_horse_journey_still_takes_a_day() {
    let plan = TravelPlan::new(AreaId::Town, AreaId::Village, TravelPosture::Bold, TravelTransport::Horse);
    assert_eq!(plan.calculate_total_days(), 1);
}

#[test]
fn plain_days_are_logged_until_arrival() {
    let mut sim = TravelSimulation::new(AreaId::Town, AreaId::Village, Position { x: 1, y: 1 });
    sim.plan.transport = TravelTransport::Foot;
    let first = sim.start_travel();
    assert!(first.starts_with("【第1日目】"));
    assert_eq!(sim.total_days, 3);
    let mut steps = Vec::new();
    loop {
        let out = sim.advance_day_with(None);
        let done = matches!(out, TravelStepOutcome::Arrived { .. });
        steps.push(out);
        if done {
            break;
        }
    }
    assert_eq!(steps.len(), 3);
    assert!(matches!(&steps[0], TravelStepOutcome::Continued { day: 2, total_days: 3, .. }));
    assert!(matches!(&steps[1], TravelStepOutcome::Continued { day: 3, total_days: 3, .. }));
    match &steps[2] {
        TravelStepOutcome::Arrived { total_days, message } => {
            assert_eq!(*total_days, 3);
            assert_eq!(message, "【到着】3日間の旅路の末、近郊の村・すずかけ村に無事到着した！");
        }
        other => panic!("expected arrival, got {other:?}"),
    }
    assert_eq!(sim.log_history.len(), 4);
}

#[test]
fn transport_description_states_cost_and_days() {
    for t in TravelTransport::ALL {
        let terms = format!("費用: {}G / 所要: {}日", t.cost(), t.base_days());
        assert!(t.description().contains(&terms), "{}", t.description());
    }
}
