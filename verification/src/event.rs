//! Sudden events on the road: first a roll on whether anything happens at
//! all, then a weighted draw among the events that may happen again.
//!
//! Weights are whole numbers (tenths of the relative likelihood) and the
//! chance that something happens is given in percent.

use crate::rng::{random_bits, random_ratio};
use crate::text::str_eq;
use vstd::prelude::*;

verus! {

/// The kinds of sudden event.
#[derive(Clone, Copy, Debug, PartialEq, Eq, Structural)]
pub enum SuddenEventCategory {
    Bandit,
    WildAnimal,
    PotentialCompanion,
    DyingTraveler,
    Checkpoint,
    WeatherShift,
}

/// When an event may happen again.
#[derive(Clone, Copy, Debug, PartialEq, Eq, Structural)]
pub enum ReoccurrenceRule {
    /// Any number of times.
    Unlimited,
    /// Only once at least this many trips have passed since it last happened.
    Cooldown(u32),
    /// Once in a lifetime.
    OneShot,
}

/// The definition of one sudden event.
#[derive(Clone, Copy, Debug)]
pub struct SuddenEventDef {
    pub id: &'static str,
    pub category: SuddenEventCategory,
    /// Relative likelihood, in tenths.
    pub weight: u32,
    pub rule: ReoccurrenceRule,
    pub message: &'static str,
}

/// The events that can happen.
pub struct SuddenEventRegistry {
    pub events: Vec<SuddenEventDef>,
}

impl SuddenEventRegistry {
    /// The events of the road between towns.
    pub fn travel_default() -> (r: Self)
        ensures
            r.events@.len() == 6,
            r.events@[0].id@ == "bandit_ambush"@ && r.events@[0].category == SuddenEventCategory::Bandit
                && r.events@[0].weight == 30 && r.events@[0].rule == ReoccurrenceRule::Unlimited
                && r.events@[0].message@ == "街道の物陰から山賊が飛び出してきた！"@,
            r.events@[1].id@ == "wild_animal"@ && r.events@[1].category == SuddenEventCategory::WildAnimal
                && r.events@[1].weight == 20 && r.events@[1].rule == ReoccurrenceRule::Unlimited
                && r.events@[1].message@ == "唸り声とともに、大きなクマが襲いかかってきた！"@,
            r.events@[2].id@ == "potential_companion"@ && r.events@[2].category
                == SuddenEventCategory::PotentialCompanion && r.events@[2].weight == 5 && r.events@[2].rule
                == ReoccurrenceRule::OneShot && r.events@[2].message@
                == "旅装の若者が、物言いたげにこちらをじっと見ている……（仲間化はまだ実装されていない）"@,
            r.events@[3].id@ == "dying_traveler"@ && r.events@[3].category == SuddenEventCategory::DyingTraveler
                && r.events@[3].weight == 10 && r.events@[3].rule == ReoccurrenceRule::Cooldown(3)
                && r.events@[3].message@ == "道端に旅人が力尽きて倒れている……（救助はまだ実装されていない）"@,
            r.events@[4].id@ == "checkpoint"@ && r.events@[4].category == SuddenEventCategory::Checkpoint
                && r.events@[4].weight == 15 && r.events@[4].rule == ReoccurrenceRule::Unlimited
                && r.events@[4].message@ == "検問中の衛兵に呼び止められ、荷物を確認された。"@,
            r.events@[5].id@ == "weather_shift"@ && r.events@[5].category == SuddenEventCategory::WeatherShift
                && r.events@[5].weight == 15 && r.events@[5].rule == ReoccurrenceRule::Unlimited
                && r.events@[5].message@ == "急に空が搔き曇り、冷たい雨が降り出した。"@,
    {
        let mut events: Vec<SuddenEventDef> = Vec::new();
        events.push(SuddenEventDef {
            id: "bandit_ambush",
            category: SuddenEventCategory::Bandit,
            weight: 30,
            rule: ReoccurrenceRule::Unlimited,
            message: "街道の物陰から山賊が飛び出してきた！",
        });
        events.push(SuddenEventDef {
            id: "wild_animal",
            category: SuddenEventCategory::WildAnimal,
            weight: 20,
            rule: ReoccurrenceRule::Unlimited,
            message: "唸り声とともに、大きなクマが襲いかかってきた！",
        });
        events.push(SuddenEventDef {
            id: "potential_companion",
            category: SuddenEventCategory::PotentialCompanion,
            weight: 5,
            rule: ReoccurrenceRule::OneShot,
            message: "旅装の若者が、物言いたげにこちらをじっと見ている……（仲間化はまだ実装されていない）",
        });
        events.push(SuddenEventDef {
            id: "dying_traveler",
            category: SuddenEventCategory::DyingTraveler,
            weight: 10,
            rule: ReoccurrenceRule::Cooldown(3),
            message: "道端に旅人が力尽きて倒れている……（救助はまだ実装されていない）",
        });
        events.push(SuddenEventDef {
            id: "checkpoint",
            category: SuddenEventCategory::Checkpoint,
            weight: 15,
            rule: ReoccurrenceRule::Unlimited,
            message: "検問中の衛兵に呼び止められ、荷物を確認された。",
        });
        events.push(SuddenEventDef {
            id: "weather_shift",
            category: SuddenEventCategory::WeatherShift,
            weight: 15,
            rule: ReoccurrenceRule::Unlimited,
            message: "急に空が搔き曇り、冷たい雨が降り出した。",
        });
        Self { events }
    }
}

/// The trip of the latest occurrence recorded for `id` (the first entry with it).
pub open spec fn last_lookup(v: Seq<(&'static str, u32)>, id: Seq<char>) -> Option<u32>
    decreases v.len(),
{
    if v.len() == 0 {
        None
    } else if v[0].0@ == id {
        Some(v[0].1)
    } else {
        last_lookup(v.drop_first(), id)
    }
}

proof fn lemma_last_lookup_none(v: Seq<(&'static str, u32)>, id: Seq<char>)
    ensures
        last_lookup(v, id) is None <==> forall|j: int| 0 <= j < v.len() ==> (#[trigger] v[j]).0@ != id,
    decreases v.len(),
{
    if v.len() > 0 {
        lemma_last_lookup_none(v.drop_first(), id);
        if v[0].0@ != id {
            assert forall|j: int| 0 <= j < v.len() && j > 0 implies ((#[trigger] v[j]).0@ != id <==> v.drop_first()[j
                - 1].0@ != id) by {}
            if last_lookup(v, id) is None {
                assert forall|j: int| 0 <= j < v.len() implies (#[trigger] v[j]).0@ != id by {
                    if j > 0 {
                        assert(v[j] == v.drop_first()[j - 1]);
                    }
                }
            } else {
                let j = choose|j: int| 0 <= j < v.drop_first().len() && (#[trigger] v.drop_first()[j]).0@ == id;
                assert(v[j + 1] == v.drop_first()[j]);
            }
        }
    }
}

proof fn lemma_last_lookup_update(v: Seq<(&'static str, u32)>, k: int, x: (&'static str, u32), id2: Seq<char>)
    requires
        0 <= k < v.len(),
        v[k].0@ == x.0@,
        forall|j: int| 0 <= j < k ==> (#[trigger] v[j]).0@ != x.0@,
    ensures
        last_lookup(v.update(k, x), id2) == if id2 == x.0@ {
            Some(x.1)
        } else {
            last_lookup(v, id2)
        },
    decreases k,
{
    if k == 0 {
        assert(v.update(k, x).drop_first() =~= v.drop_first());
        assert(v.update(k, x)[0] == x);
    } else {
        assert(v.update(k, x)[0] == v[0]);
        assert(v.update(k, x).drop_first() =~= v.drop_first().update(k - 1, x));
        assert forall|j: int| 0 <= j < k - 1 implies (#[trigger] v.drop_first()[j]).0@ != x.0@ by {
            assert(v.drop_first()[j] == v[j + 1]);
        }
        lemma_last_lookup_update(v.drop_first(), k - 1, x, id2);
        assert(v[0].0@ != x.0@);
    }
}

proof fn lemma_last_lookup_push(v: Seq<(&'static str, u32)>, x: (&'static str, u32), id2: Seq<char>)
    requires
        forall|j: int| 0 <= j < v.len() ==> (#[trigger] v[j]).0@ != x.0@,
    ensures
        last_lookup(v.push(x), id2) == if id2 == x.0@ {
            Some(x.1)
        } else {
            last_lookup(v, id2)
        },
    decreases v.len(),
{
    if v.len() == 0 {
        assert(v.push(x).drop_first() =~= Seq::<(&'static str, u32)>::empty());
        assert(v.push(x)[0] == x);
        assert(last_lookup(v.push(x).drop_first(), id2) is None);
    } else {
        assert(v.push(x).drop_first() =~= v.drop_first().push(x));
        assert forall|j: int| 0 <= j < v.drop_first().len() implies (#[trigger] v.drop_first()[j]).0@ != x.0@ by {
            assert(v.drop_first()[j] == v[j + 1]);
        }
        lemma_last_lookup_push(v.drop_first(), x, id2);
        assert(v.push(x)[0] == v[0]);
    }
}

/// Which events have happened and when, counted in trips.
pub struct SuddenEventHistory {
    trip_count: u32,
    last_triggered_at: Vec<(&'static str, u32)>,
    consumed_one_shots: Vec<&'static str>,
}

/// Trips elapsed from `last` to `now`, zero when `last` lies ahead.
pub open spec fn trips_since(now: int, last: int) -> int {
    if now >= last {
        now - last
    } else {
        0
    }
}

impl SuddenEventHistory {
    /// The number of journeys attempted so far.
    pub closed spec fn spec_trip_count(&self) -> nat {
        self.trip_count as nat
    }

    /// The number of journeys attempted so far.
    pub fn trip_count(&self) -> (r: u32)
        ensures
            r == self.spec_trip_count(),
    {
        self.trip_count
    }

    /// The trip on which the event `id` last happened, if it ever did.
    pub closed spec fn spec_last_triggered(&self, id: Seq<char>) -> Option<u32> {
        last_lookup(self.last_triggered_at@, id)
    }

    /// Whether the once-in-a-lifetime event `id` has happened.
    pub closed spec fn spec_consumed(&self, id: Seq<char>) -> bool {
        exists|k: int| 0 <= k < self.consumed_one_shots@.len() && (#[trigger] self.consumed_one_shots@[k])@ == id
    }

    /// Whether `def` may happen on trip `trip`.
    pub open spec fn spec_available(&self, def: SuddenEventDef, trip: int) -> bool {
        match def.rule {
            ReoccurrenceRule::Unlimited => true,
            ReoccurrenceRule::OneShot => !self.spec_consumed(def.id@),
            ReoccurrenceRule::Cooldown(min_interval) => match self.spec_last_triggered(def.id@) {
                Some(last) => trips_since(trip, last as int) >= min_interval,
                None => true,
            },
        }
    }

    /// Whether `def` may happen on trip `trip_count`.
    fn is_available(&self, def: &SuddenEventDef, trip_count: u32) -> (r: bool)
        ensures
            r == self.spec_available(*def, trip_count as int),
    {
        match def.rule {
            ReoccurrenceRule::Unlimited => true,
            ReoccurrenceRule::OneShot => !self.is_consumed(def.id),
            ReoccurrenceRule::Cooldown(min_interval) => match self.last_triggered(def.id) {
                Some(last) => {
                    let since = if trip_count >= last { trip_count - last } else { 0 };
                    since >= min_interval
                },
                None => true,
            },
        }
    }

    fn is_consumed(&self, id: &str) -> (r: bool)
        ensures
            r == self.spec_consumed(id@),
    {
        let mut i: usize = 0;
        while i < self.consumed_one_shots.len()
            invariant
                i <= self.consumed_one_shots@.len(),
                forall|j: int| 0 <= j < i ==> (#[trigger] self.consumed_one_shots@[j])@ != id@,
            decreases self.consumed_one_shots@.len() - i,
        {
            if str_eq(self.consumed_one_shots[i], id) {
                return true;
            }
            i = i + 1;
        }
        false
    }

    fn find_last(&self, id: &str) -> (r: Option<usize>)
        ensures
            r matches Some(k) ==> k < self.last_triggered_at@.len() && self.last_triggered_at@[k as int].0@ == id@
                && forall|j: int| 0 <= j < k ==> (#[trigger] self.last_triggered_at@[j]).0@ != id@,
            r is None ==> forall|j: int|
                0 <= j < self.last_triggered_at@.len() ==> (#[trigger] self.last_triggered_at@[j]).0@ != id@,
    {
        let mut i: usize = 0;
        while i < self.last_triggered_at.len()
            invariant
                i <= self.last_triggered_at@.len(),
                forall|j: int| 0 <= j < i ==> (#[trigger] self.last_triggered_at@[j]).0@ != id@,
            decreases self.last_triggered_at@.len() - i,
        {
            if str_eq(self.last_triggered_at[i].0, id) {
                return Some(i);
            }
            i = i + 1;
        }
        None
    }

    fn last_triggered(&self, id: &str) -> (r: Option<u32>)
        ensures
            r == self.spec_last_triggered(id@),
    {
        proof {
            lemma_last_lookup_none(self.last_triggered_at@, id@);
        }
        match self.find_last(id) {
            Some(k) => {
                proof {
                    lemma_first_match_lookup(self.last_triggered_at@, k as int, id@);
                }
                Some(self.last_triggered_at[k].1)
            },
            None => None,
        }
    }

    /// Notes that `def` happened on trip `trip_count`.
    fn record(&mut self, def: &SuddenEventDef, trip_count: u32)
        ensures
            final(self).spec_trip_count() == old(self).spec_trip_count(),
            forall|id: Seq<char>|
                #[trigger] final(self).spec_last_triggered(id) == if id == def.id@ {
                    Some(trip_count)
                } else {
                    old(self).spec_last_triggered(id)
                },
            forall|id: Seq<char>|
                #[trigger] final(self).spec_consumed(id) == (old(self).spec_consumed(id) || (id == def.id@
                    && def.rule == ReoccurrenceRule::OneShot)),
    {
        let entry = (def.id, trip_count);
        let ghost before = self.last_triggered_at@;
        match self.find_last(def.id) {
            Some(k) => {
                self.last_triggered_at.set(k, entry);
                proof {
                    assert forall|id: Seq<char>|
                        #[trigger] last_lookup(self.last_triggered_at@, id) == if id == def.id@ {
                            Some(trip_count)
                        } else {
                            last_lookup(before, id)
                        } by {
                        lemma_last_lookup_update(before, k as int, entry, id);
                    }
                }
            },
            None => {
                self.last_triggered_at.push(entry);
                proof {
                    assert forall|id: Seq<char>|
                        #[trigger] last_lookup(self.last_triggered_at@, id) == if id == def.id@ {
                            Some(trip_count)
                        } else {
                            last_lookup(before, id)
                        } by {
                        lemma_last_lookup_push(before, entry, id);
                    }
                }
            },
        }
        if def.rule == ReoccurrenceRule::OneShot && !self.is_consumed(def.id) {
            let ghost c = self.consumed_one_shots@;
            self.consumed_one_shots.push(def.id);
            proof {
                assert forall|id: Seq<char>|
                    #[trigger] self.spec_consumed(id) == (exists|k: int| 0 <= k < c.len() && (#[trigger] c[k])@ == id)
                        || id == def.id@ by {
                    if exists|k: int| 0 <= k < c.len() && (#[trigger] c[k])@ == id {
                        let k = choose|k: int| 0 <= k < c.len() && (#[trigger] c[k])@ == id;
                        assert(self.consumed_one_shots@[k] == c[k]);
                    }
                    if id == def.id@ {
                        assert(self.consumed_one_shots@[c.len() as int] == def.id);
                    }
                    if self.spec_consumed(id) {
                        let k = choose|k: int|
                            0 <= k < self.consumed_one_shots@.len() && (#[trigger] self.consumed_one_shots@[k])@ == id;
                        if k < c.len() {
                            assert(c[k] == self.consumed_one_shots@[k]);
                        }
                    }
                }
            }
        }
    }
}

proof fn lemma_first_match_lookup(v: Seq<(&'static str, u32)>, k: int, id: Seq<char>)
    requires
        0 <= k < v.len(),
        v[k].0@ == id,
        forall|j: int| 0 <= j < k ==> (#[trigger] v[j]).0@ != id,
    ensures
        last_lookup(v, id) == Some(v[k].1),
    decreases k,
{
    if k > 0 {
        assert forall|j: int| 0 <= j < k - 1 implies (#[trigger] v.drop_first()[j]).0@ != id by {
            assert(v.drop_first()[j] == v[j + 1]);
        }
        lemma_first_match_lookup(v.drop_first(), k - 1, id);
        assert(v[0].0@ != id);
    }
}

impl Default for SuddenEventHistory {
    /// No trips and no events yet.
    fn default() -> (r: Self)
        ensures
            r.spec_trip_count() == 0,
            forall|id: Seq<char>| #[trigger] r.spec_last_triggered(id) is None,
            forall|id: Seq<char>| !#[trigger] r.spec_consumed(id),
    {
        Self { trip_count: 0, last_triggered_at: Vec::new(), consumed_one_shots: Vec::new() }
    }
}

/// The notice that an event was drawn; what follows is up to the caller.
#[derive(Clone, Copy, Debug)]
pub struct SuddenEventTriggered {
    pub id: &'static str,
    pub category: SuddenEventCategory,
    pub message: &'static str,
}

/// The notice for `def`.
pub open spec fn triggered_for(def: SuddenEventDef) -> SuddenEventTriggered {
    SuddenEventTriggered { id: def.id, category: def.category, message: def.message }
}

/// The sum of the weights.
pub open spec fn weight_sum(defs: Seq<SuddenEventDef>) -> int
    decreases defs.len(),
{
    if defs.len() == 0 {
        0
    } else {
        weight_sum(defs.drop_last()) + defs.last().weight
    }
}

/// The index that a roll in `0..weight_sum(defs)` falls on when the weights
/// are laid end to end.
pub open spec fn weighted_index(defs: Seq<SuddenEventDef>, roll: int) -> int
    decreases defs.len(),
{
    if defs.len() == 0 {
        0
    } else if roll < defs[0].weight {
        0
    } else {
        1 + weighted_index(defs.drop_first(), roll - defs[0].weight)
    }
}

proof fn lemma_weight_sum_nonneg(defs: Seq<SuddenEventDef>)
    ensures
        weight_sum(defs) >= 0,
        weight_sum(defs) <= defs.len() * 0xffff_ffff,
    decreases defs.len(),
{
    if defs.len() > 0 {
        lemma_weight_sum_nonneg(defs.drop_last());
    }
}

proof fn lemma_weight_sum_cons(defs: Seq<SuddenEventDef>)
    requires
        defs.len() > 0,
    ensures
        weight_sum(defs) == defs[0].weight + weight_sum(defs.drop_first()),
    decreases defs.len(),
{
    if defs.len() > 1 {
        lemma_weight_sum_cons(defs.drop_last());
        assert(defs.drop_last().drop_first() =~= defs.drop_first().drop_last());
    } else {
        assert(defs.drop_first() =~= Seq::<SuddenEventDef>::empty());
        assert(defs.drop_last() =~= Seq::<SuddenEventDef>::empty());
    }
}

/// A roll below the total weight lands on an entry of positive weight.
pub proof fn lemma_weighted_index_in_range(defs: Seq<SuddenEventDef>, roll: int)
    requires
        0 <= roll < weight_sum(defs),
    ensures
        0 <= weighted_index(defs, roll) < defs.len(),
        defs[weighted_index(defs, roll)].weight > 0,
    decreases defs.len(),
{
    lemma_weight_sum_cons(defs);
    if roll >= defs[0].weight {
        lemma_weighted_index_in_range(defs.drop_first(), roll - defs[0].weight);
    }
}

/// The entry a roll in `0..weight_sum(candidates)` selects.
pub fn pick_weighted(candidates: &Vec<SuddenEventDef>, roll: u64) -> (r: usize)
    requires
        roll < weight_sum(candidates@),
    ensures
        r == weighted_index(candidates@, roll as int),
        r < candidates@.len(),
        candidates@[r as int].weight > 0,
{
    proof {
        lemma_weighted_index_in_range(candidates@, roll as int);
        assert(candidates@.skip(0) =~= candidates@);
    }
    let mut rest: u64 = roll;
    let mut i: usize = 0;
    while i < candidates.len()
        invariant
            i <= candidates@.len(),
            0 <= rest < weight_sum(candidates@.skip(i as int)),
            weighted_index(candidates@, roll as int) == i + weighted_index(candidates@.skip(i as int), rest as int),
        decreases candidates@.len() - i,
    {
        let ghost tail = candidates@.skip(i as int);
        proof {
            lemma_weight_sum_cons(tail);
            assert(tail.drop_first() =~= candidates@.skip(i + 1));
            assert(tail[0] == candidates@[i as int]);
        }
        let w = candidates[i].weight as u64;
        if rest < w {
            return i;
        }
        rest = rest - w;
        i = i + 1;
    }
    proof {
        assert(candidates@.skip(i as int) =~= Seq::<SuddenEventDef>::empty());
    }
    0
}

/// The events of `defs` that `history` allows on trip `trip`, in order.
pub open spec fn available_events(defs: Seq<SuddenEventDef>, history: SuddenEventHistory, trip: int) -> Seq<
    SuddenEventDef,
> {
    defs.filter(|d: SuddenEventDef| history.spec_available(d, trip))
}

/// The event that a draw on the trip after `before` picks from `events`:
/// nothing when the chance was missed (`hit` false) or no allowed event has
/// positive weight; otherwise the allowed event that the top 23 of the 32
/// random `bits`, scaled to the total allowed weight, fall on.
pub open spec fn drawn_event(events: Seq<SuddenEventDef>, before: SuddenEventHistory, hit: bool, bits: u32) -> Option<
    SuddenEventDef,
> {
    let avail = available_events(events, before, (before.spec_trip_count() + 1) as int);
    let total = weight_sum(avail);
    if !hit || total == 0 {
        None
    } else {
        Some(avail[weighted_index(avail, (bits as int / 512) * total / 8388608)])
    }
}

/// The notice for what was drawn.
pub open spec fn drawn_notice(drawn: Option<SuddenEventDef>) -> Option<SuddenEventTriggered> {
    match drawn {
        Some(def) => Some(triggered_for(def)),
        None => None,
    }
}

/// The history `after` a draw of `drawn` from `before`: the trip counter
/// advances, and a drawn event is recorded on that trip (and consumed if it
/// happens once only); the other records stay.
pub open spec fn history_after_draw(
    before: SuddenEventHistory,
    after: SuddenEventHistory,
    drawn: Option<SuddenEventDef>,
) -> bool {
    let trip = (before.spec_trip_count() + 1) as int;
    &&& after.spec_trip_count() == trip
    &&& forall|id: Seq<char>|
        #[trigger] after.spec_last_triggered(id) == match drawn {
            Some(def) => if id == def.id@ {
                Some(trip as u32)
            } else {
                before.spec_last_triggered(id)
            },
            None => before.spec_last_triggered(id),
        }
    &&& forall|id: Seq<char>|
        #[trigger] after.spec_consumed(id) == match drawn {
            Some(def) => before.spec_consumed(id) || (id == def.id@ && def.rule == ReoccurrenceRule::OneShot),
            None => before.spec_consumed(id),
        }
}

/// What a draw for a sudden event with chance `probability_percent` (capped
/// at 100) does to the history `before`, giving `after` and returning `r`:
/// it is the draw for some outcome of the chance, certain to miss at 0 and
/// to hit at 100 percent, and some 32 random bits.
pub open spec fn sudden_event_outcome(
    events: Seq<SuddenEventDef>,
    before: SuddenEventHistory,
    after: SuddenEventHistory,
    probability_percent: int,
    r: Option<SuddenEventTriggered>,
) -> bool {
    exists|hit: bool, bits: u32|
        (probability_percent == 0 ==> !hit) && (probability_percent >= 100 ==> hit) && r == drawn_notice(
            #[trigger] drawn_event(events, before, hit, bits),
        ) && history_after_draw(before, after, drawn_event(events, before, hit, bits))
}

/// The events of `registry` that `history` allows on trip `trip`, with
/// their total weight.
fn collect_available(registry: &SuddenEventRegistry, history: &SuddenEventHistory, trip: u32) -> (r: (
    Vec<SuddenEventDef>,
    u64,
))
    requires
        registry.events@.len() <= u32::MAX,
    ensures
        r.0@ == available_events(registry.events@, *history, trip as int),
        r.1 == weight_sum(r.0@),
{
    let mut candidates: Vec<SuddenEventDef> = Vec::new();
    let mut total: u64 = 0;
    let mut i: usize = 0;
    while i < registry.events.len()
        invariant
            i <= registry.events@.len(),
            registry.events@.len() <= u32::MAX,
            candidates@ == available_events(registry.events@.take(i as int), *history, trip as int),
            total == weight_sum(candidates@),
            candidates@.len() <= i,
        decreases registry.events@.len() - i,
    {
        let def = registry.events[i];
        proof {
            assert(registry.events@.take(i + 1).drop_last() =~= registry.events@.take(i as int));
            assert(registry.events@.take(i + 1).last() == def);
            reveal(Seq::filter);
        }
        if history.is_available(&def, trip) {
            proof {
                lemma_weight_sum_nonneg(candidates@);
                assert(candidates@.len() * 0xffff_ffff <= 0xffff_ffff * 0xffff_ffff) by (nonlinear_arith)
                    requires
                        candidates@.len() <= 0xffff_ffff,
                ;
            }
            candidates.push(def);
            total = total + def.weight as u64;
            proof {
                assert(candidates@.drop_last() =~= available_events(
                    registry.events@.take(i as int),
                    *history,
                    trip as int,
                ));
            }
        }
        i = i + 1;
    }
    proof {
        assert(registry.events@.take(i as int) =~= registry.events@);
    }
    (candidates, total)
}

/// Draws for a sudden event on the next trip, given the outcome `hit` of
/// the chance and 32 random `bits`: the trip counter advances; on a hit the
/// allowed event that the bits fall on, weighted, is recorded and returned.
pub fn draw_sudden_event(registry: &SuddenEventRegistry, history: &mut SuddenEventHistory, hit: bool, bits: u32) -> (r:
    Option<SuddenEventTriggered>)
    requires
        old(history).spec_trip_count() < u32::MAX,
        registry.events@.len() <= u32::MAX,
    ensures
        r == drawn_notice(drawn_event(registry.events@, *old(history), hit, bits)),
        history_after_draw(*old(history), *final(history), drawn_event(registry.events@, *old(history), hit, bits)),
{
    let trip_count = history.trip_count + 1;
    let (candidates, total) = collect_available(registry, history, trip_count);
    history.trip_count = trip_count;
    if !hit || candidates.len() == 0 || total == 0 {
        proof {
            assert(drawn_event(registry.events@, *old(history), hit, bits) is None);
            assert(history.last_triggered_at == old(history).last_triggered_at);
            assert(history.consumed_one_shots == old(history).consumed_one_shots);
        }
        return None;
    }
    let fraction = (bits / 512) as u128;
    proof {
        assert(fraction < 8388608);
        assert(fraction * (total as u128) < 8388608 * (total as u128)) by (nonlinear_arith)
            requires
                fraction < 8388608,
                total > 0,
        ;
    }
    let scaled = fraction * (total as u128) / 8388608;
    let roll = scaled as u64;
    let k = pick_weighted(&candidates, roll);
    let chosen = candidates[k];
    proof {
        assert(roll == (bits as int / 512) * total / 8388608);
        assert(drawn_event(registry.events@, *old(history), hit, bits) == Some(chosen));
    }
    let ghost h1 = *history;
    assert(h1.last_triggered_at == old(history).last_triggered_at);
    assert(h1.consumed_one_shots == old(history).consumed_one_shots);
    history.record(&chosen, trip_count);
    Some(SuddenEventTriggered { id: chosen.id, category: chosen.category, message: chosen.message })
}

/// Draws for a sudden event on the next trip: with chance
/// `probability_percent` something happens, and then one of the events the
/// history allows is drawn with chance proportional to its weight (a draw of
/// 23 random bits scaled to the total weight) and recorded.
pub fn try_trigger_sudden_event(
    registry: &SuddenEventRegistry,
    history: &mut SuddenEventHistory,
    probability_percent: u32,
    rng: &mut rand::rngs::StdRng,
) -> (r: Option<SuddenEventTriggered>)
    requires
        old(history).spec_trip_count() < u32::MAX,
        registry.events@.len() <= u32::MAX,
    ensures
        sudden_event_outcome(registry.events@, *old(history), *final(history), probability_percent as int, r),
{
    let p = if probability_percent > 100 { 100 } else { probability_percent };
    let hit = random_ratio(rng, p, 100);
    let mut bits: u32 = 0;
    if hit {
        let (candidates, total) = collect_available(registry, history, history.trip_count + 1);
        if candidates.len() > 0 && total > 0 {
            bits = random_bits(rng);
        }
    }
    draw_sudden_event(registry, history, hit, bits)
}

/// A drawn event is one that the history allows on that trip, of positive
/// weight; and a certain chance draws something whenever an allowed event
/// has positive weight.
pub proof fn lemma_drawn_event_allowed(events: Seq<SuddenEventDef>, before: SuddenEventHistory, hit: bool, bits: u32)
    ensures
        drawn_event(events, before, hit, bits) matches Some(def) ==> events.contains(def) && before.spec_available(
            def,
            (before.spec_trip_count() + 1) as int,
        ) && def.weight > 0,
        hit && weight_sum(available_events(events, before, (before.spec_trip_count() + 1) as int)) > 0 ==> drawn_event(
            events,
            before,
            hit,
            bits,
        ) is Some,
{
    let trip = (before.spec_trip_count() + 1) as int;
    let pred = |d: SuddenEventDef| before.spec_available(d, trip);
    let avail = available_events(events, before, trip);
    assert(avail == events.filter(pred));
    let total = weight_sum(avail);
    lemma_weight_sum_nonneg(avail);
    if hit && total > 0 {
        let fraction = bits as int / 512;
        assert(0 <= fraction < 8388608);
        assert(0 <= fraction * total < 8388608 * total) by (nonlinear_arith)
            requires
                0 <= fraction < 8388608,
                total > 0,
        ;
        let roll = fraction * total / 8388608;
        assert(0 <= roll < total) by (nonlinear_arith)
            requires
                0 <= fraction * total < 8388608 * total,
                roll == fraction * total / 8388608,
        ;
        lemma_weighted_index_in_range(avail, roll);
        let k = weighted_index(avail, roll);
        events.lemma_filter_pred(pred, k);
        assert(avail.contains(avail[k]));
        events.lemma_filter_contains_rev(pred, avail[k]);
    }
}

/// Once a once-in-a-lifetime event has happened it is never available
/// again, whatever the trip.
pub proof fn lemma_one_shot_fires_at_most_once(history: SuddenEventHistory, def: SuddenEventDef, trip: int)
    requires
        def.rule == ReoccurrenceRule::OneShot,
        history.spec_consumed(def.id@),
    ensures
        !history.spec_available(def, trip),
{
}

/// An event with a cooldown of `n` trips that last happened on trip `t` is
/// not available on the trips from `t` up to (not including) `t + n`.
pub proof fn lemma_cooldown_holds_back(history: SuddenEventHistory, def: SuddenEventDef, n: u32, t: u32, trip: int)
    requires
        def.rule == ReoccurrenceRule::Cooldown(n),
        history.spec_last_triggered(def.id@) == Some(t),
        t <= trip < t + n,
    ensures
        !history.spec_available(def, trip),
{
}

} // verus!
