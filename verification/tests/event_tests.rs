use glyphfall_core::event::{
    draw_sudden_event, pick_weighted, try_trigger_sudden_event, ReoccurrenceRule, SuddenEventCategory, SuddenEventDef,
    SuddenEventHistory, SuddenEventRegistry,
};
use rand::rngs::StdRng;
use rand::SeedableRng;

#[test]
fn zero_probability_never_triggers() {
    let registry = SuddenEventRegistry::travel_default();
    let mut history = SuddenEventHistory::default();
    let mut rng = StdRng::seed_from_u64(1);
    for _ in 0..20 {
        assert!(try_trigger_sudden_event(&registry, &mut history, 0, &mut rng).is_none());
    }
}

#[test]
fn certain_probability_always_triggers_when_candidates_remain() {
    let registry = SuddenEventRegistry::travel_default();
    let mut history = SuddenEventHistory::default();
    let mut rng = StdRng::seed_from_u64(2);
    for _ in 0..20 {
        assert!(try_trigger_sudden_event(&registry, &mut history, 100, &mut rng).is_some());
    }
}

#[test]
fn one_shot_event_fires_at_most_once() {
    let registry = SuddenEventRegistry {
        events: vec![SuddenEventDef {
            id: "only_one_shot",
            category: SuddenEventCategory::PotentialCompanion,
            weight: 10,
            rule: ReoccurrenceRule::OneShot,
            message: "一期一会の出会い。",
        }],
    };
    let mut history = SuddenEventHistory::default();
    let mut rng = StdRng::seed_from_u64(3);

    let first = try_trigger_sudden_event(&registry, &mut history, 100, &mut rng);
    assert!(first.is_some());
    for _ in 0..10 {
        assert!(try_trigger_sudden_event(&registry, &mut history, 100, &mut rng).is_none());
    }
}

#[test]
fn cooldown_event_waits_minimum_trips_before_reoccurring() {
    let registry = SuddenEventRegistry {
        events: vec![SuddenEventDef {
            id: "only_cooldown",
            category: SuddenEventCategory::DyingTraveler,
            weight: 10,
            rule: ReoccurrenceRule::Cooldown(3),
            message: "行き倒れの旅人。",
        }],
    };
    let mut history = SuddenEventHistory::default();
    let mut rng = StdRng::seed_from_u64(4);

    assert!(try_trigger_sudden_event(&registry, &mut history, 100, &mut rng).is_some());
    assert!(try_trigger_sudden_event(&registry, &mut history, 100, &mut rng).is_none());
    assert!(try_trigger_sudden_event(&registry, &mut history, 100, &mut rng).is_none());
    assert!(try_trigger_sudden_event(&registry, &mut history, 100, &mut rng).is_some());
}

#[test]
fn travel_default_lists_six_events() {
    let registry = SuddenEventRegistry::travel_default();
    let ids: Vec<&str> = registry.events.iter().map(|e| e.id).collect();
    assert_eq!(ids, vec!["bandit_ambush", "wild_animal", "potential_companion", "dying_traveler", "checkpoint", "weather_shift"]);
    let weights: Vec<u32> = registry.events.iter().map(|e| e.weight).collect();
    assert_eq!(weights, vec![30, 20, 5, 10, 15, 15]);
    assert_eq!(registry.events[2].rule, ReoccurrenceRule::OneShot);
    assert_eq!(registry.events[3].rule, ReoccurrenceRule::Cooldown(3));
}

#[test]
fn pick_weighted_follows_cumulative_weights() {
    let registry = SuddenEventRegistry::travel_default();
    // total 95: [0,30) bandit, [30,50) animal, [50,55) companion, [55,65) traveler, [65,80) checkpoint, [80,95) weather
    assert_eq!(pick_weighted(&registry.events, 0), 0);
    assert_eq!(pick_weighted(&registry.events, 29), 0);
    assert_eq!(pick_weighted(&registry.events, 30), 1);
    assert_eq!(pick_weighted(&registry.events, 52), 2);
    assert_eq!(pick_weighted(&registry.events, 64), 3);
    assert_eq!(pick_weighted(&registry.events, 79), 4);
    assert_eq!(pick_weighted(&registry.events, 94), 5);
}

#[test]
fn empty_registry_never_triggers() {
    let registry = SuddenEventRegistry { events: Vec::new() };
    let mut history = SuddenEventHistory::default();
    let mut rng = StdRng::seed_from_u64(5);
    for _ in 0..5 {
        assert!(try_trigger_sudden_event(&registry, &mut history, 100, &mut rng).is_none());
    }
}

#[test]
fn triggered_event_carries_its_definition() {
    let registry = SuddenEventRegistry {
        events: vec![SuddenEventDef {
            id: "storm",
            category: SuddenEventCategory::WeatherShift,
            weight: 7,
            rule: ReoccurrenceRule::Unlimited,
            message: "嵐だ。",
        }],
    };
    let mut history = SuddenEventHistory::default();
    let mut rng = StdRng::seed_from_u64(6);
    for _ in 0..5 {
        let ev = try_trigger_sudden_event(&registry, &mut history, 100, &mut rng).unwrap();
        assert_eq!(ev.id, "storm");
        assert_eq!(ev.category, SuddenEventCategory::WeatherShift);
        assert_eq!(ev.message, "嵐だ。");
    }
}

fn two_event_registry() -> SuddenEventRegistry {
    SuddenEventRegistry {
        events: vec![
            SuddenEventDef {
                id: "light",
                category: SuddenEventCategory::Bandit,
                weight: 1,
                rule: ReoccurrenceRule::Unlimited,
                message: "軽い方。",
            },
            SuddenEventDef {
                id: "heavy",
                category: SuddenEventCategory::WildAnimal,
                weight: 3,
                rule: ReoccurrenceRule::OneShot,
                message: "重い方。",
            },
        ],
    }
}

#[test]
fn draw_scales_the_bits_to_the_total_weight() {
    let registry = two_event_registry();
    let mut history = SuddenEventHistory::default();
    // The top 23 bits cover a quarter of the range below 2^21 * 512.
    let low = draw_sudden_event(&registry, &mut history, true, 2_097_151 * 512).unwrap();
    assert_eq!(low.id, "light");
    assert_eq!(history.trip_count(), 1);
    let high = draw_sudden_event(&registry, &mut history, true, 2_097_152 * 512).unwrap();
    assert_eq!(high.id, "heavy");
    assert_eq!(high.message, "重い方。");
    assert_eq!(history.trip_count(), 2);
    // The heavy event happens once only: afterwards every draw lands on the light one.
    let after = draw_sudden_event(&registry, &mut history, true, u32::MAX).unwrap();
    assert_eq!(after.id, "light");
}

#[test]
fn missed_chance_draws_nothing_but_counts_the_trip() {
    let registry = two_event_registry();
    let mut history = SuddenEventHistory::default();
    assert!(draw_sudden_event(&registry, &mut history, false, 0).is_none());
    assert_eq!(history.trip_count(), 1);
    let empty = SuddenEventRegistry { events: vec![] };
    assert!(draw_sudden_event(&empty, &mut history, true, 12345).is_none());
    assert_eq!(history.trip_count(), 2);
}
