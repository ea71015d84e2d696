//! Journeys along the road: planning (destination, posture, transport) and
//! the day-by-day fast travel with its sudden events.

use super::map::AreaId;
use super::movement::Position;
use crate::event::{
    sudden_event_outcome, try_trigger_sudden_event, SuddenEventHistory, SuddenEventRegistry,
    SuddenEventTriggered,
};
use crate::party::inventory::strings_view;
use crate::text::{append_decimal, contains_seq, int_decimal, lemma_small_decimal, nat_decimal, string_of};
use vstd::prelude::*;
use vstd::string::*;

verus! {

/// How boldly the party travels.
#[derive(Clone, Copy, Debug, PartialEq, Eq, Structural)]
pub enum TravelPosture {
    Cautious,
    Normal,
    Bold,
}

impl Default for TravelPosture {
    fn default() -> (r: Self)
        ensures
            r == TravelPosture::Normal,
    {
        TravelPosture::Normal
    }
}

impl TravelPosture {
    pub const ALL: [TravelPosture; 3] = [TravelPosture::Cautious, TravelPosture::Normal, TravelPosture::Bold];

    /// The menu label.
    pub fn label(&self) -> (r: &'static str)
        ensures
            r@ == match *self {
                TravelPosture::Cautious => "慎重に"@,
                TravelPosture::Normal => "普通に"@,
                TravelPosture::Bold => "大胆に"@,
            },
    {
        match self {
            TravelPosture::Cautious => "慎重に",
            TravelPosture::Normal => "普通に",
            TravelPosture::Bold => "大胆に",
        }
    }

    pub open spec fn spec_base_probability(self) -> u32 {
        match self {
            TravelPosture::Cautious => 15,
            TravelPosture::Normal => 35,
            TravelPosture::Bold => 65,
        }
    }

    /// The chance, in percent, of a sudden event on each day.
    pub fn base_probability(&self) -> (r: u32)
        ensures
            r == self.spec_base_probability(),
    {
        match self {
            TravelPosture::Cautious => 15,
            TravelPosture::Normal => 35,
            TravelPosture::Bold => 65,
        }
    }

    pub open spec fn spec_description(self) -> Seq<char> {
        match self {
            TravelPosture::Cautious => "警戒を怠らず進む。遭遇率: 15% / 所要日数: 標準"@,
            TravelPosture::Normal => "無理のないペースで進む。遭遇率: 35% / 所要日数: 基準"@,
            TravelPosture::Bold => "危険を承知で急行する。遭遇率: 65% / 所要日数: 1日短縮"@,
        }
    }

    /// The menu explanation.
    pub fn description(&self) -> (r: &'static str)
        ensures
            r@ == self.spec_description(),
    {
        match self {
            TravelPosture::Cautious => "警戒を怠らず進む。遭遇率: 15% / 所要日数: 標準",
            TravelPosture::Normal => "無理のないペースで進む。遭遇率: 35% / 所要日数: 基準",
            TravelPosture::Bold => "危険を承知で急行する。遭遇率: 65% / 所要日数: 1日短縮",
        }
    }
}

/// How the party gets there.
#[derive(Clone, Copy, Debug, PartialEq, Eq, Structural)]
pub enum TravelTransport {
    Foot,
    Horse,
    Carriage,
}

impl Default for TravelTransport {
    fn default() -> (r: Self)
        ensures
            r == TravelTransport::Foot,
    {
        TravelTransport::Foot
    }
}

impl TravelTransport {
    pub const ALL: [TravelTransport; 3] = [TravelTransport::Foot, TravelTransport::Horse, TravelTransport::Carriage];

    /// The menu label.
    pub fn label(&self) -> (r: &'static str)
        ensures
            r@ == match *self {
                TravelTransport::Foot => "徒歩"@,
                TravelTransport::Horse => "馬"@,
                TravelTransport::Carriage => "乗合馬車"@,
            },
    {
        match self {
            TravelTransport::Foot => "徒歩",
            TravelTransport::Horse => "馬",
            TravelTransport::Carriage => "乗合馬車",
        }
    }

    pub open spec fn spec_cost(self) -> i32 {
        match self {
            TravelTransport::Foot => 0,
            TravelTransport::Horse => 40,
            TravelTransport::Carriage => 80,
        }
    }

    /// The fare, in gold.
    pub fn cost(&self) -> (r: i32)
        ensures
            r == self.spec_cost(),
    {
        match self {
            TravelTransport::Foot => 0,
            TravelTransport::Horse => 40,
            TravelTransport::Carriage => 80,
        }
    }

    pub open spec fn spec_base_days(self) -> u32 {
        match self {
            TravelTransport::Foot => 3,
            TravelTransport::Horse => 1,
            TravelTransport::Carriage => 2,
        }
    }

    /// The days the journey takes at a normal pace.
    pub fn base_days(&self) -> (r: u32)
        ensures
            r == self.spec_base_days(),
    {
        match self {
            TravelTransport::Foot => 3,
            TravelTransport::Horse => 1,
            TravelTransport::Carriage => 2,
        }
    }

    pub open spec fn spec_description(self) -> Seq<char> {
        match self {
            TravelTransport::Foot => "自らの足で歩く。費用: 0G / 所要: 3日 / 安全度: 基準"@,
            TravelTransport::Horse => "貸し馬で疾走する。費用: 40G / 所要: 1日 / 安全度: 高め (少人数)"@,
            TravelTransport::Carriage => "乗合馬車に乗る。費用: 80G / 所要: 2日 / 安全度: 山賊注意 (目立つ)"@,
        }
    }

    /// The menu explanation.
    pub fn description(&self) -> (r: &'static str)
        ensures
            r@ == self.spec_description(),
    {
        match self {
            TravelTransport::Foot => "自らの足で歩く。費用: 0G / 所要: 3日 / 安全度: 基準",
            TravelTransport::Horse => "貸し馬で疾走する。費用: 40G / 所要: 1日 / 安全度: 高め (少人数)",
            TravelTransport::Carriage => "乗合馬車に乗る。費用: 80G / 所要: 2日 / 安全度: 山賊注意 (目立つ)",
        }
    }
}

/// The encounter rate that the menu explanation of a posture states.
pub open spec fn posture_rate_text(p: TravelPosture) -> Seq<char> {
    "遭遇率: "@ + int_decimal(p.spec_base_probability() as int) + "%"@
}

/// A bolder posture meets sudden events more often (cautious 15 % below
/// normal 35 % below bold 65 %), and each posture's menu explanation states
/// the rate it actually uses.
pub proof fn lemma_posture_rates(p: TravelPosture)
    ensures
        TravelPosture::Cautious.spec_base_probability() < TravelPosture::Normal.spec_base_probability(),
        TravelPosture::Normal.spec_base_probability() < TravelPosture::Bold.spec_base_probability(),
        p.spec_base_probability() <= 100,
        contains_seq(p.spec_description(), posture_rate_text(p)),
{
    reveal_strlit("遭遇率: ");
    reveal_strlit("%");
    lemma_small_decimal(p.spec_base_probability() as nat);
    let s = p.spec_description();
    let t = posture_rate_text(p);
    match p {
        TravelPosture::Cautious => {
            reveal_strlit("警戒を怠らず進む。遭遇率: 15% / 所要日数: 標準");
            assert(s.subrange(9, 9 + t.len() as int) =~= t);
        },
        TravelPosture::Normal => {
            reveal_strlit("無理のないペースで進む。遭遇率: 35% / 所要日数: 基準");
            assert(s.subrange(12, 12 + t.len() as int) =~= t);
        },
        TravelPosture::Bold => {
            reveal_strlit("危険を承知で急行する。遭遇率: 65% / 所要日数: 1日短縮");
            assert(s.subrange(11, 11 + t.len() as int) =~= t);
        },
    }
}

/// The fare and the days that the menu explanation of a transport states.
pub open spec fn transport_terms(t: TravelTransport) -> Seq<char> {
    "費用: "@ + int_decimal(t.spec_cost() as int) + "G / 所要: "@ + int_decimal(t.spec_base_days() as int) + "日"@
}

/// The menu explanation of a transport states the fare that `cost` charges
/// and the days that `base_days` gives.
pub proof fn lemma_transport_description_matches(t: TravelTransport)
    ensures
        contains_seq(t.spec_description(), transport_terms(t)),
{
    reveal_strlit("費用: ");
    reveal_strlit("G / 所要: ");
    reveal_strlit("日");
    lemma_small_decimal(t.spec_cost() as nat);
    lemma_small_decimal(t.spec_base_days() as nat);
    let s = t.spec_description();
    let terms = transport_terms(t);
    match t {
        TravelTransport::Foot => {
            reveal_strlit("自らの足で歩く。費用: 0G / 所要: 3日 / 安全度: 基準");
            assert(s.subrange(8, 8 + terms.len() as int) =~= terms);
        },
        TravelTransport::Horse => {
            reveal_strlit("貸し馬で疾走する。費用: 40G / 所要: 1日 / 安全度: 高め (少人数)");
            assert(s.subrange(9, 9 + terms.len() as int) =~= terms);
        },
        TravelTransport::Carriage => {
            reveal_strlit("乗合馬車に乗る。費用: 80G / 所要: 2日 / 安全度: 山賊注意 (目立つ)");
            assert(s.subrange(8, 8 + terms.len() as int) =~= terms);
        },
    }
}

/// Where from, where to, and how.
#[derive(Clone, Copy, Debug, PartialEq, Eq, Structural)]
pub struct TravelPlan {
    pub from_area: AreaId,
    pub destination: AreaId,
    pub posture: TravelPosture,
    pub transport: TravelTransport,
}

impl Default for TravelPlan {
    /// On foot, at a normal pace, from the capital to the village.
    fn default() -> (r: Self)
        ensures
            r == (TravelPlan {
                from_area: AreaId::Town,
                destination: AreaId::Village,
                posture: TravelPosture::Normal,
                transport: TravelTransport::Foot,
            }),
    {
        Self {
            from_area: AreaId::Town,
            destination: AreaId::Village,
            posture: TravelPosture::Normal,
            transport: TravelTransport::Foot,
        }
    }
}

/// The days a journey takes: the transport's days, one fewer (but at least
/// one) when travelling boldly.
pub open spec fn spec_total_days(plan: TravelPlan) -> u32 {
    let base = plan.transport.spec_base_days();
    match plan.posture {
        TravelPosture::Bold => if base > 1 { (base - 1) as u32 } else { 1 },
        _ => base,
    }
}

impl TravelPlan {
    pub fn new(from_area: AreaId, destination: AreaId, posture: TravelPosture, transport: TravelTransport) -> (r:
        Self)
        ensures
            r == (TravelPlan { from_area, destination, posture, transport }),
    {
        Self { from_area, destination, posture, transport }
    }

    /// The days the journey takes.
    pub fn calculate_total_days(&self) -> (r: u32)
        ensures
            r == spec_total_days(*self),
            r >= 1,
    {
        let base = self.transport.base_days();
        match self.posture {
            TravelPosture::Cautious => base,
            TravelPosture::Normal => base,
            TravelPosture::Bold => {
                let shorter = if base > 0 { base - 1 } else { 0 };
                if shorter > 1 { shorter } else { 1 }
            },
        }
    }
}

/// Where the journey stands.
#[derive(Clone, Copy, Debug, PartialEq, Eq, Structural)]
pub enum TravelPhase {
    ChoosingDestination,
    ChoosingPosture,
    ChoosingTransport,
    Traveling,
    EncounterEvent,
    Arrived,
}

impl Default for TravelPhase {
    fn default() -> (r: Self)
        ensures
            r == TravelPhase::ChoosingDestination,
    {
        TravelPhase::ChoosingDestination
    }
}

/// What one day of travel brought.
#[derive(Debug, Clone)]
pub enum TravelStepOutcome {
    Continued { day: u32, total_days: u32, message: String },
    EventOccurred { day: u32, total_days: u32, event: SuddenEventTriggered, message: String },
    Arrived { total_days: u32, message: String },
}

/// A travel step with its message as a character sequence.
pub enum TravelStepView {
    Continued { day: u32, total_days: u32, message: Seq<char> },
    EventOccurred { day: u32, total_days: u32, event: SuddenEventTriggered, message: Seq<char> },
    Arrived { total_days: u32, message: Seq<char> },
}

impl View for TravelStepOutcome {
    type V = TravelStepView;

    open spec fn view(&self) -> TravelStepView {
        match self {
            TravelStepOutcome::Continued { day, total_days, message } => TravelStepView::Continued {
                day: *day,
                total_days: *total_days,
                message: message@,
            },
            TravelStepOutcome::EventOccurred { day, total_days, event, message } => TravelStepView::EventOccurred {
                day: *day,
                total_days: *total_days,
                event: *event,
                message: message@,
            },
            TravelStepOutcome::Arrived { total_days, message } => TravelStepView::Arrived {
                total_days: *total_days,
                message: message@,
            },
        }
    }
}

/// The state of a journey being planned or made.
#[derive(Clone, Debug)]
pub struct TravelSimulation {
    pub plan: TravelPlan,
    pub phase: TravelPhase,
    pub current_day: u32,
    pub total_days: u32,
    pub spawn_pos: Position,
    pub current_message: String,
    pub log_history: Vec<String>,
    pub pending_event: Option<SuddenEventTriggered>,
    /// The cursor of the planning menu.
    pub selected_index: usize,
}

pub open spec fn transport_text(t: TravelTransport) -> Seq<char> {
    match t {
        TravelTransport::Foot => "自らの足で歩みを進める。"@,
        TravelTransport::Horse => "軽快に馬を駆り、風を切って疾走する。"@,
        TravelTransport::Carriage => "荷車を引く馬車に揺られ、車輪がきしむ音が響く。"@,
    }
}

pub open spec fn scenery_of_day(day: nat) -> Seq<char> {
    if day % 3 == 0 {
        "遠くの山並みに黒い雲が立ち込め、冷たい小雨が降り始めた。"@
    } else if day % 3 == 1 {
        "街道沿いの木立から鳥の群れが飛び立つ。穏やかな日差しが差し込む。"@
    } else {
        "道端の苔むした古い道標を通り過ぎる。旅人の祈りの言葉が刻まれている。"@
    }
}

/// The text of day `day` of the journey `plan` lasting `total_days` days.
pub open spec fn day_text(plan: TravelPlan, total_days: nat, day: nat) -> Seq<char> {
    let prefix = transport_text(plan.transport);
    if day == 1 {
        "【第1日目】"@ + plan.from_area.spec_name() + "を出発し、"@ + plan.destination.spec_name()
            + "へ向けて街道へ踏み出した。"@ + prefix
    } else if day >= total_days {
        "【第"@ + nat_decimal(day) + "日目】前方に目的地の集落がかすかに見えてきた。"@ + prefix
    } else {
        "【第"@ + nat_decimal(day) + "日目】"@ + scenery_of_day(day) + " "@ + prefix
    }
}

pub open spec fn event_text(day: nat, event_message: Seq<char>) -> Seq<char> {
    "【第"@ + nat_decimal(day) + "日目】街道を進む一行に突発事態が発生！\n"@ + event_message
}

pub open spec fn arrival_text(total_days: nat, destination: AreaId) -> Seq<char> {
    "【到着】"@ + nat_decimal(total_days) + "日間の旅路の末、"@ + destination.spec_name() + "に無事到着した！"@
}

pub open spec fn arrival_after_event_text(destination: AreaId) -> Seq<char> {
    "【到着】困難を乗り越え、"@ + destination.spec_name() + "に無事到着した！"@
}

/// `new` is `old` with `msg` shown and logged, and nothing else changed but
/// what the other clauses name.
pub open spec fn logged(old: TravelSimulation, new: TravelSimulation, msg: Seq<char>) -> bool {
    &&& new.current_message@ == msg
    &&& strings_view(new.log_history@) == strings_view(old.log_history@).push(msg)
    &&& new.plan == old.plan
    &&& new.spawn_pos == old.spawn_pos
    &&& new.selected_index == old.selected_index
    &&& new.total_days == old.total_days
}

/// The day after `old` given the sudden event `event` (if one happened): an
/// event stops the journey for the day; otherwise the party arrives once
/// the last day is done, or goes on to the next day.
pub open spec fn day_advanced(
    old: TravelSimulation,
    event: Option<SuddenEventTriggered>,
    new: TravelSimulation,
    r: TravelStepView,
) -> bool {
    match event {
        Some(e) => {
            let msg = event_text(old.current_day as nat, e.message@);
            &&& logged(old, new, msg)
            &&& new.phase == TravelPhase::EncounterEvent
            &&& new.pending_event == Some(e)
            &&& new.current_day == old.current_day
            &&& r == TravelStepView::EventOccurred {
                day: old.current_day,
                total_days: old.total_days,
                event: e,
                message: msg,
            }
        },
        None => if old.current_day >= old.total_days {
            let msg = arrival_text(old.total_days as nat, old.plan.destination);
            &&& logged(old, new, msg)
            &&& new.phase == TravelPhase::Arrived
            &&& new.pending_event == old.pending_event
            &&& new.current_day == old.current_day
            &&& r == TravelStepView::Arrived { total_days: old.total_days, message: msg }
        } else {
            let day = old.current_day + 1;
            let msg = day_text(old.plan, old.total_days as nat, day as nat);
            &&& logged(old, new, msg)
            &&& new.phase == old.phase
            &&& new.pending_event == old.pending_event
            &&& new.current_day == day
            &&& r == TravelStepView::Continued { day: day as u32, total_days: old.total_days, message: msg }
        },
    }
}

/// `new` is `old` with the destination chosen, choosing the posture next.
pub open spec fn destination_selected(old: TravelSimulation, destination: AreaId, spawn_pos: Position, new: TravelSimulation) -> bool {
    &&& new.plan == (TravelPlan { destination, ..old.plan })
    &&& new.spawn_pos == spawn_pos
    &&& new.phase == TravelPhase::ChoosingPosture
    &&& new.selected_index == 0
    &&& new.current_day == old.current_day
    &&& new.total_days == old.total_days
    &&& new.current_message == old.current_message
    &&& new.log_history == old.log_history
    &&& new.pending_event == old.pending_event
}

/// `new` is `old` with the posture chosen, choosing the transport next.
pub open spec fn posture_selected(old: TravelSimulation, posture: TravelPosture, new: TravelSimulation) -> bool {
    &&& new.plan == (TravelPlan { posture, ..old.plan })
    &&& new.phase == TravelPhase::ChoosingTransport
    &&& new.selected_index == 0
    &&& new.spawn_pos == old.spawn_pos
    &&& new.current_day == old.current_day
    &&& new.total_days == old.total_days
    &&& new.current_message == old.current_message
    &&& new.log_history == old.log_history
    &&& new.pending_event == old.pending_event
}

/// `new` is `old` with the transport chosen.
pub open spec fn transport_selected(old: TravelSimulation, transport: TravelTransport, new: TravelSimulation) -> bool {
    &&& new.plan == (TravelPlan { transport, ..old.plan })
    &&& new.phase == old.phase
    &&& new.selected_index == old.selected_index
    &&& new.spawn_pos == old.spawn_pos
    &&& new.current_day == old.current_day
    &&& new.total_days == old.total_days
    &&& new.current_message == old.current_message
    &&& new.log_history == old.log_history
    &&& new.pending_event == old.pending_event
}

/// `new` is `old` one planning step back (`r`), or unchanged when there
/// is none.
pub open spec fn went_back(old: TravelSimulation, new: TravelSimulation, r: bool) -> bool {
    &&& r == (old.phase == TravelPhase::ChoosingPosture || old.phase == TravelPhase::ChoosingTransport)
    &&& new.phase == match old.phase {
        TravelPhase::ChoosingPosture => TravelPhase::ChoosingDestination,
        TravelPhase::ChoosingTransport => TravelPhase::ChoosingPosture,
        p => p,
    }
    &&& new.selected_index == if r { 0 } else { old.selected_index }
    &&& new.plan == old.plan
    &&& new.spawn_pos == old.spawn_pos
    &&& new.current_day == old.current_day
    &&& new.total_days == old.total_days
    &&& new.current_message == old.current_message
    &&& new.log_history == old.log_history
    &&& new.pending_event == old.pending_event
}

/// `new` is `old` setting off: day 1 begins and the log restarts with its
/// text `msg`.
pub open spec fn travel_started(old: TravelSimulation, new: TravelSimulation, msg: Seq<char>) -> bool {
    &&& new.phase == TravelPhase::Traveling
    &&& new.current_day == 1
    &&& new.total_days == spec_total_days(old.plan)
    &&& msg == day_text(old.plan, spec_total_days(old.plan) as nat, 1)
    &&& new.current_message@ == msg
    &&& strings_view(new.log_history@) == seq![msg]
    &&& new.pending_event is None
    &&& new.plan == old.plan
    &&& new.spawn_pos == old.spawn_pos
    &&& new.selected_index == old.selected_index
}

/// `new` is `old` taking up the journey after an event: arrival once the
/// last day is done, otherwise the next day, with outcome `r`.
pub open spec fn event_resolved(old: TravelSimulation, new: TravelSimulation, r: TravelStepView) -> bool {
    &&& new.pending_event is None
    &&& if old.current_day >= old.total_days {
        let msg = arrival_after_event_text(old.plan.destination);
        &&& logged(old, new, msg)
        &&& new.phase == TravelPhase::Arrived
        &&& new.current_day == old.current_day
        &&& r == TravelStepView::Arrived { total_days: old.total_days, message: msg }
    } else {
        let day = old.current_day + 1;
        let msg = day_text(old.plan, old.total_days as nat, day as nat);
        &&& logged(old, new, msg)
        &&& new.phase == TravelPhase::Traveling
        &&& new.current_day == day
        &&& r == TravelStepView::Continued { day: day as u32, total_days: old.total_days, message: msg }
    }
}

impl Default for TravelSimulation {
    /// A journey from the capital to the village being planned.
    fn default() -> (r: Self)
        ensures
            r.plan == (TravelPlan {
                from_area: AreaId::Town,
                destination: AreaId::Village,
                posture: TravelPosture::Normal,
                transport: TravelTransport::Foot,
            }),
            r.phase == TravelPhase::ChoosingDestination,
            r.spawn_pos == (Position { x: 20, y: 5 }),
    {
        Self::new(AreaId::Town, AreaId::Village, Position { x: 20, y: 5 })
    }
}

impl TravelSimulation {
    /// A journey from `from_area` to `destination` being planned, on foot at a
    /// normal pace; `spawn_pos` is where the party appears on arrival.
    pub fn new(from_area: AreaId, destination: AreaId, spawn_pos: Position) -> (r: Self)
        ensures
            r.plan == (TravelPlan {
                from_area,
                destination,
                posture: TravelPosture::Normal,
                transport: TravelTransport::Foot,
            }),
            r.phase == TravelPhase::ChoosingDestination,
            r.current_day == 0,
            r.total_days == spec_total_days(r.plan),
            r.spawn_pos == spawn_pos,
            r.current_message@ == Seq::<char>::empty(),
            r.log_history@.len() == 0,
            r.pending_event is None,
            r.selected_index == 0,
    {
        let plan = TravelPlan {
            from_area,
            destination,
            posture: TravelPosture::Normal,
            transport: TravelTransport::Foot,
        };
        let total_days = plan.calculate_total_days();
        Self {
            plan,
            phase: TravelPhase::ChoosingDestination,
            current_day: 0,
            total_days,
            spawn_pos,
            current_message: String::new(),
            log_history: Vec::new(),
            pending_event: None,
            selected_index: 0,
        }
    }

    /// Chooses the destination and moves on to choosing the posture.
    pub fn select_destination(&mut self, destination: AreaId, spawn_pos: Position)
        ensures
            destination_selected(*old(self), destination, spawn_pos, *final(self)),
    {
        self.plan.destination = destination;
        self.spawn_pos = spawn_pos;
        self.phase = TravelPhase::ChoosingPosture;
        self.selected_index = 0;
    }

    /// Chooses the posture and moves on to choosing the transport.
    pub fn select_posture(&mut self, posture: TravelPosture)
        ensures
            posture_selected(*old(self), posture, *final(self)),
    {
        self.plan.posture = posture;
        self.phase = TravelPhase::ChoosingTransport;
        self.selected_index = 0;
    }

    /// Chooses the transport.
    pub fn select_transport(&mut self, transport: TravelTransport)
        ensures
            transport_selected(*old(self), transport, *final(self)),
    {
        self.plan.transport = transport;
    }

    /// Goes back one planning step; returns `false` (and changes nothing)
    /// when there is no step to go back to.
    pub fn back_phase(&mut self) -> (r: bool)
        ensures
            went_back(*old(self), *final(self), r),
    {
        match self.phase {
            TravelPhase::ChoosingPosture => {
                self.phase = TravelPhase::ChoosingDestination;
                self.selected_index = 0;
                true
            },
            TravelPhase::ChoosingTransport => {
                self.phase = TravelPhase::ChoosingPosture;
                self.selected_index = 0;
                true
            },
            _ => false,
        }
    }

    /// Sets off: day 1 begins, the log restarts with its text, which is returned.
    pub fn start_travel(&mut self) -> (r: String)
        ensures
            travel_started(*old(self), *final(self), r@),
    {
        self.phase = TravelPhase::Traveling;
        self.current_day = 1;
        self.total_days = self.plan.calculate_total_days();
        self.log_history = Vec::new();
        self.pending_event = None;
        let msg = self.generate_day_scenery(1);
        self.current_message = msg.clone();
        self.log_history.push(msg.clone());
        proof {
            assert(strings_view(self.log_history@) =~= seq![msg@]);
        }
        msg
    }

    /// Shows and logs `msg`.
    fn show(&mut self, msg: &String)
        ensures
            logged(*old(self), *final(self), msg@),
            final(self).phase == old(self).phase,
            final(self).pending_event == old(self).pending_event,
            final(self).current_day == old(self).current_day,
    {
        let ghost before = strings_view(self.log_history@);
        self.current_message = msg.clone();
        self.log_history.push(msg.clone());
        proof {
            assert(strings_view(self.log_history@) =~= before.push(msg@));
        }
    }

    /// Ends the day given whether (and which) sudden event happened.
    pub fn advance_day_with(&mut self, event: Option<SuddenEventTriggered>) -> (r: TravelStepOutcome)
        requires
            old(self).current_day < u32::MAX,
        ensures
            day_advanced(*old(self), event, *final(self), r@),
    {
        match event {
            Some(e) => {
                let mut msg = string_of("【第");
                append_decimal(&mut msg, self.current_day as u64);
                msg.append("日目】街道を進む一行に突発事態が発生！\n");
                msg.append(e.message);
                self.phase = TravelPhase::EncounterEvent;
                self.pending_event = Some(e);
                self.show(&msg);
                TravelStepOutcome::EventOccurred {
                    day: self.current_day,
                    total_days: self.total_days,
                    event: e,
                    message: msg,
                }
            },
            None => {
                if self.current_day >= self.total_days {
                    self.phase = TravelPhase::Arrived;
                    let mut msg = string_of("【到着】");
                    append_decimal(&mut msg, self.total_days as u64);
                    msg.append("日間の旅路の末、");
                    msg.append(self.plan.destination.name());
                    msg.append("に無事到着した！");
                    self.show(&msg);
                    TravelStepOutcome::Arrived { total_days: self.total_days, message: msg }
                } else {
                    self.current_day = self.current_day + 1;
                    let msg = self.generate_day_scenery(self.current_day);
                    self.show(&msg);
                    TravelStepOutcome::Continued {
                        day: self.current_day,
                        total_days: self.total_days,
                        message: msg,
                    }
                }
            },
        }
    }

    /// Travels one day: draws for a sudden event with the posture's chance,
    /// then ends the day as `advance_day_with` does for what was drawn.
    pub fn advance_day(
        &mut self,
        registry: &SuddenEventRegistry,
        history: &mut SuddenEventHistory,
        rng: &mut rand::rngs::StdRng,
    ) -> (r: TravelStepOutcome)
        requires
            old(self).current_day < u32::MAX,
            old(history).spec_trip_count() < u32::MAX,
            registry.events@.len() <= u32::MAX,
        ensures
            exists|event: Option<SuddenEventTriggered>|
                sudden_event_outcome(
                    registry.events@,
                    *old(history),
                    *final(history),
                    old(self).plan.posture.spec_base_probability() as int,
                    event,
                ) && #[trigger] day_advanced(*old(self), event, *final(self), r@),
    {
        let p = self.plan.posture.base_probability();
        let triggered = try_trigger_sudden_event(registry, history, p, rng);
        self.advance_day_with(triggered)
    }

    /// Takes up the journey again after an event: arrival once the last day
    /// is done, otherwise the next day.
    pub fn resolve_event_and_continue(&mut self) -> (r: TravelStepOutcome)
        requires
            old(self).current_day < u32::MAX,
        ensures
            event_resolved(*old(self), *final(self), r@),
    {
        self.pending_event = None;
        if self.current_day >= self.total_days {
            self.phase = TravelPhase::Arrived;
            let mut msg = string_of("【到着】困難を乗り越え、");
            msg.append(self.plan.destination.name());
            msg.append("に無事到着した！");
            self.show(&msg);
            TravelStepOutcome::Arrived { total_days: self.total_days, message: msg }
        } else {
            self.phase = TravelPhase::Traveling;
            self.current_day = self.current_day + 1;
            let msg = self.generate_day_scenery(self.current_day);
            self.show(&msg);
            TravelStepOutcome::Continued { day: self.current_day, total_days: self.total_days, message: msg }
        }
    }

    /// The text of day `day`, by transport and by how far along the journey is.
    fn generate_day_scenery(&self, day: u32) -> (r: String)
        ensures
            r@ == day_text(self.plan, self.total_days as nat, day as nat),
    {
        let prefix = match self.plan.transport {
            TravelTransport::Foot => "自らの足で歩みを進める。",
            TravelTransport::Horse => "軽快に馬を駆り、風を切って疾走する。",
            TravelTransport::Carriage => "荷車を引く馬車に揺られ、車輪がきしむ音が響く。",
        };
        if day == 1 {
            let mut s = string_of("【第1日目】");
            s.append(self.plan.from_area.name());
            s.append("を出発し、");
            s.append(self.plan.destination.name());
            s.append("へ向けて街道へ踏み出した。");
            s.append(prefix);
            s
        } else if day >= self.total_days {
            let mut s = string_of("【第");
            append_decimal(&mut s, day as u64);
            s.append("日目】前方に目的地の集落がかすかに見えてきた。");
            s.append(prefix);
            s
        } else {
            let scenery = if day % 3 == 0 {
                "遠くの山並みに黒い雲が立ち込め、冷たい小雨が降り始めた。"
            } else if day % 3 == 1 {
                "街道沿いの木立から鳥の群れが飛び立つ。穏やかな日差しが差し込む。"
            } else {
                "道端の苔むした古い道標を通り過ぎる。旅人の祈りの言葉が刻まれている。"
            };
            let mut s = string_of("【第");
            append_decimal(&mut s, day as u64);
            s.append("日目】");
            s.append(scenery);
            s.append(" ");
            s.append(prefix);
            s
        }
    }
}

/// A journey always takes at least one day. At a normal or cautious pace
/// it takes the transport's days; travelling boldly saves one day, but never
/// goes below one: so a bold journey is strictly shorter whenever the
/// transport takes more than one day.
pub proof fn lemma_total_days_positive_and_bold_not_slower(plan: TravelPlan)
    ensures
        spec_total_days(plan) >= 1,
        spec_total_days(TravelPlan { posture: TravelPosture::Bold, ..plan }) <= spec_total_days(
            TravelPlan { posture: TravelPosture::Normal, ..plan },
        ),
        spec_total_days(TravelPlan { posture: TravelPosture::Normal, ..plan }) == plan.transport.spec_base_days(),
        spec_total_days(TravelPlan { posture: TravelPosture::Cautious, ..plan }) == plan.transport.spec_base_days(),
        plan.transport.spec_base_days() > 1 ==> spec_total_days(TravelPlan { posture: TravelPosture::Bold, ..plan })
            == plan.transport.spec_base_days() - 1,
        plan.transport.spec_base_days() <= 1 ==> spec_total_days(TravelPlan { posture: TravelPosture::Bold, ..plan })
            == 1,
{
}

} // verus!
