use glyphfall_core::event::{SuddenEventHistory, SuddenEventRegistry};
use glyphfall_core::party::PlayerInventory;
use glyphfall_core::play::town_input::handle_travel_input;
use glyphfall_core::play::{AppMode, Key, TravelState};
use glyphfall_core::timer::SimpleTimer;
use glyphfall_core::town::dialogue::DialogueSession;
use glyphfall_core::town::{AreaId, Position, TownState, TravelPhase, TravelPosture, TravelSimulation};
use rand::rngs::StdRng;
use rand::SeedableRng;

struct TravelApp {
    mode: AppMode,
    town: TownState,
    travel: TravelState,
    inv: PlayerInventory,
    registry: SuddenEventRegistry,
    history: SuddenEventHistory,
    dialogue: Option<DialogueSession>,
    rng: StdRng,
}

fn create_test_travel_app() -> TravelApp {
    TravelApp {
        mode: AppMode::Travel,
        town: TownState::new(),
        travel: TravelState {
            sim: Some(TravelSimulation::new(AreaId::Town, AreaId::Village, Position { x: 20, y: 5 })),
            destination: AreaId::Village,
            spawn_pos: Position { x: 20, y: 5 },
            step_timer: SimpleTimer::from_millis(800),
        },
        inv: PlayerInventory { gold: 100, ..Default::default() },
        // No events registered, so no sudden event is ever drawn.
        registry: SuddenEventRegistry { events: Vec::new() },
        history: SuddenEventHistory::default(),
        dialogue: None,
        rng: StdRng::seed_from_u64(7),
    }
}

fn step(app: &mut TravelApp, key: Option<Key>, delta_nanos: u64) -> Option<String> {
    handle_travel_input(
        key,
        delta_nanos,
        &mut app.mode,
        &mut app.town,
        &mut app.travel,
        &mut app.inv,
        &app.registry,
        &mut app.history,
        &mut app.dialogue,
        &mut app.rng,
    )
}

fn press_key(app: &mut TravelApp, key: Key) -> Option<String> {
    step(app, Some(key), 0)
}

fn sim(app: &TravelApp) -> &TravelSimulation {
    app.travel.sim.as_ref().unwrap()
}

#[test]
fn test_travel_cancellation_at_destination_step() {
    let mut app = create_test_travel_app();

    press_key(&mut app, Key::Escape);

    assert_eq!(app.mode, AppMode::Town);
    assert!(app.travel.sim.is_none());
}

#[test]
fn test_travel_three_step_planning_and_arrival_flow() {
    let mut app = create_test_travel_app();

    // Destination: [1] the village.
    press_key(&mut app, Key::Digit1);
    assert_eq!(sim(&app).phase, TravelPhase::ChoosingPosture);

    // Posture: [2] normal.
    press_key(&mut app, Key::Digit2);
    assert_eq!(sim(&app).phase, TravelPhase::ChoosingTransport);
    assert_eq!(sim(&app).plan.posture, TravelPosture::Normal);

    // Transport: [3] the coach, 80G.
    press_key(&mut app, Key::Digit3);
    assert_eq!(app.inv.gold, 20);
    assert_eq!(sim(&app).phase, TravelPhase::Traveling);
    assert_eq!(sim(&app).current_day, 1);
    assert_eq!(sim(&app).total_days, 2);

    // [Space]: day 1 -> day 2.
    press_key(&mut app, Key::Space);
    assert_eq!(sim(&app).phase, TravelPhase::Traveling);
    assert_eq!(sim(&app).current_day, 2);

    // [Space]: day 2 reaches the total -> arrived.
    press_key(&mut app, Key::Space);
    assert_eq!(sim(&app).phase, TravelPhase::Arrived);

    // [Space]: enter the village.
    press_key(&mut app, Key::Space);
    assert_eq!(app.mode, AppMode::Town);
    assert_eq!(app.town.current_area, AreaId::Village);
    assert!(app.travel.sim.is_none());
}

#[test]
fn test_travel_transport_insufficient_funds_blocks_progress() {
    let mut app = create_test_travel_app();
    app.inv.gold = 10;

    press_key(&mut app, Key::Digit1);
    press_key(&mut app, Key::Digit1);
    // The coach costs 80G.
    press_key(&mut app, Key::Digit3);

    assert_eq!(app.inv.gold, 10);
    assert_eq!(sim(&app).phase, TravelPhase::ChoosingTransport);
}

#[test]
fn test_travel_automatic_timer_advancement_without_key_press() {
    let mut app = create_test_travel_app();

    // On foot (free), three days.
    press_key(&mut app, Key::Digit1);
    press_key(&mut app, Key::Digit2);
    press_key(&mut app, Key::Digit1);
    assert_eq!(sim(&app).phase, TravelPhase::Traveling);
    assert_eq!(sim(&app).current_day, 1);
    assert_eq!(sim(&app).total_days, 3);

    // 0.8 s without a key: day 1 -> day 2.
    step(&mut app, None, 800_000_000);
    assert_eq!(sim(&app).phase, TravelPhase::Traveling);
    assert_eq!(sim(&app).current_day, 2);

    // Another 0.8 s: day 2 -> day 3.
    step(&mut app, None, 800_000_000);
    assert_eq!(sim(&app).phase, TravelPhase::Traveling);
    assert_eq!(sim(&app).current_day, 3);

    // Another 0.8 s: the journey is done and waits at arrival.
    step(&mut app, None, 800_000_000);
    assert_eq!(sim(&app).phase, TravelPhase::Arrived);

    // The log keeps every day and the arrival until the journey ends.
    let log = sim(&app).log_history.join("\n");
    assert!(log.contains("第1日目"));
    assert!(log.contains("第2日目"));
    assert!(log.contains("第3日目"));
    assert!(log.contains("無事到着した"));
}

#[test]
fn travel_timer_below_the_step_does_not_advance() {
    let mut app = create_test_travel_app();
    press_key(&mut app, Key::Digit1);
    press_key(&mut app, Key::Digit2);
    press_key(&mut app, Key::Digit1);

    step(&mut app, None, 799_999_999);
    assert_eq!(sim(&app).current_day, 1);
    step(&mut app, None, 1);
    assert_eq!(sim(&app).current_day, 2);
}

#[test]
fn travel_escape_while_choosing_posture_goes_back_to_destination() {
    let mut app = create_test_travel_app();
    press_key(&mut app, Key::Digit1);
    assert_eq!(sim(&app).phase, TravelPhase::ChoosingPosture);

    press_key(&mut app, Key::Escape);
    assert_eq!(app.mode, AppMode::Travel);
    assert_eq!(sim(&app).phase, TravelPhase::ChoosingDestination);
}
