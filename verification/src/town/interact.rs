//! Command-driven interaction: a command and a direction are chosen first, and
//! only then is the tile in that direction examined, talked to or robbed.

use super::dialogue::DialoguePartner;
use super::map::{TileType, TownMap};
use super::movement::{Facing, Position};
use crate::text::string_of;
use vstd::prelude::*;

verus! {

/// The commands of the command window.
#[derive(Clone, Copy, Debug, PartialEq, Eq, Structural)]
pub enum CommandKind {
    Examine,
    Talk,
    Item,
    Steal,
}

/// What stands in the chosen direction.
#[derive(Clone, Copy, Debug, PartialEq, Eq, Structural)]
pub enum TargetKind {
    Npc,
    Object,
    Nothing,
}

impl CommandKind {
    pub const ALL: [CommandKind; 4] = [
        CommandKind::Examine,
        CommandKind::Talk,
        CommandKind::Item,
        CommandKind::Steal,
    ];

    pub open spec fn spec_base_label(self) -> Seq<char> {
        match self {
            CommandKind::Examine => "しらべる"@,
            CommandKind::Talk => "はなす"@,
            CommandKind::Item => "どうぐ"@,
            CommandKind::Steal => "ぬすむ"@,
        }
    }

    /// The label of the command in the window.
    pub fn base_label(&self) -> (r: &'static str)
        ensures
            r@ == self.spec_base_label(),
    {
        match self {
            CommandKind::Examine => "しらべる",
            CommandKind::Talk => "はなす",
            CommandKind::Item => "どうぐ",
            CommandKind::Steal => "ぬすむ",
        }
    }

    /// The label once the target is known: examining a person reads "みる".
    pub fn dynamic_label(&self, target: TargetKind) -> (r: &'static str)
        ensures
            r@ == if *self == CommandKind::Examine && target == TargetKind::Npc {
                "みる"@
            } else {
                self.spec_base_label()
            },
    {
        match (self, target) {
            (CommandKind::Examine, TargetKind::Npc) => "みる",
            _ => self.base_label(),
        }
    }

    /// Every command but "どうぐ" asks for a direction before it runs.
    pub fn needs_direction(&self) -> (r: bool)
        ensures
            r == (*self != CommandKind::Item),
    {
        !matches!(self, CommandKind::Item)
    }
}

/// Tiles that stand for a person to talk to.
pub open spec fn is_person_tile(t: TileType) -> bool {
    match t {
        TileType::Inn | TileType::Tavern | TileType::Shop | TileType::NpcGuard
        | TileType::NpcVillager | TileType::NpcSuspicious => true,
        _ => false,
    }
}

pub open spec fn spec_classify_tile(tile: Option<TileType>) -> TargetKind {
    match tile {
        None => TargetKind::Nothing,
        Some(t) => if is_person_tile(t) {
            TargetKind::Npc
        } else {
            TargetKind::Object
        },
    }
}

/// The kind of target a tile (or the outside of the map) is.
pub fn classify_tile(tile: Option<TileType>) -> (r: TargetKind)
    ensures
        r == spec_classify_tile(tile),
{
    match tile {
        None => TargetKind::Nothing,
        Some(
            TileType::Inn
            | TileType::Tavern
            | TileType::Shop
            | TileType::NpcGuard
            | TileType::NpcVillager
            | TileType::NpcSuspicious,
        ) => TargetKind::Npc,
        Some(_) => TargetKind::Object,
    }
}

pub open spec fn spec_facing_delta(facing: Facing) -> (int, int) {
    match facing {
        Facing::Up => (0, -1),
        Facing::Down => (0, 1),
        Facing::Left => (-1, 0),
        Facing::Right => (1, 0),
    }
}

/// The step `(dx, dy)` one cell in the direction `facing`.
pub fn facing_delta(facing: Facing) -> (r: (i32, i32))
    ensures
        (r.0 as int, r.1 as int) == spec_facing_delta(facing),
{
    match facing {
        Facing::Up => (0, -1),
        Facing::Down => (0, 1),
        Facing::Left => (-1, 0),
        Facing::Right => (1, 0),
    }
}

/// What an interaction produced.
#[derive(Debug)]
pub enum InteractOutcome {
    Message(String),
    StartDialogue(DialoguePartner),
    ChestOpened { gold: i32, item: String, message: String },
}

/// An interaction outcome with its texts as character sequences.
pub enum InteractOutcomeView {
    Message(Seq<char>),
    StartDialogue(DialoguePartner),
    ChestOpened { gold: int, item: Seq<char>, message: Seq<char> },
}

impl View for InteractOutcome {
    type V = InteractOutcomeView;

    open spec fn view(&self) -> InteractOutcomeView {
        match self {
            InteractOutcome::Message(m) => InteractOutcomeView::Message(m@),
            InteractOutcome::StartDialogue(p) => InteractOutcomeView::StartDialogue(*p),
            InteractOutcome::ChestOpened { gold, item, message } => InteractOutcomeView::ChestOpened {
                gold: *gold as int,
                item: item@,
                message: message@,
            },
        }
    }
}

/// The text of the guide sign in the capital.
pub const SIGN_TEXT: &'static str = "【王都アルカン・案内看板】\n北西: 宿屋[H]・酒場[T]  北東: 道具屋[S]\n南西: 貧民街裏路地     南東: 地下迷宮封鎖地区";

/// The gold found in a closed chest.
pub const CHEST_GOLD: i32 = 120;

/// What "しらべる" says of a tile other than a closed chest.
pub open spec fn examine_text(t: TileType) -> Seq<char> {
    match t {
        TileType::Inn => "宿屋の主人がのんびりと帳簿をつけている。"@,
        TileType::Tavern => "酒場の呑兵衛が上機嫌に酒をあおっている。"@,
        TileType::Shop => "道具屋の店主が商品を並べ直している。"@,
        TileType::NpcGuard => "王都衛兵が鋭い眼光でこちらを見張っている。"@,
        TileType::NpcVillager => "街の女性が穏やかに微笑んでいる。"@,
        TileType::NpcSuspicious => "裏通りの怪しい男が油断なく辺りをうかがっている。"@,
        TileType::Sign => SIGN_TEXT@,
        TileType::ChestOpen => "空になった宝箱だ。"@,
        TileType::Wall => "頑丈な石壁だ。"@,
        TileType::DungeonWall => "苔むした冷たい岩壁だ。"@,
        TileType::Water => "澄んだ水路の水だ。"@,
        TileType::Tree => "青々と茂る街路樹だ。"@,
        TileType::DoorClosed | TileType::DoorOpen => "木製の扉だ。"@,
        TileType::IronGateClosed | TileType::IronGateOpen => "錆びついた鉄格子の扉だ。"@,
        TileType::StairsDown => "地下へと続く石段だ。"@,
        TileType::StairsUp => "地上へと続く石段だ。"@,
        TileType::MonsterSymbol => "魔物の気配がする……油断できない。"@,
        TileType::Floor | TileType::DungeonFloor => "なにもない。"@,
        TileType::RoadExit => "他の町・村へ続く街道だ。歩いて踏み出せば旅立てる。"@,
        TileType::ChestClosed => "宝箱を調べた！\n120フォリンと「特やくそう」を手に入れた！"@,
    }
}

/// The person a tile stands for, if any.
pub open spec fn partner_of(t: TileType) -> Option<DialoguePartner> {
    match t {
        TileType::Inn => Some(DialoguePartner::Inn),
        TileType::Tavern => Some(DialoguePartner::Tavern),
        TileType::Shop => Some(DialoguePartner::Shop),
        TileType::NpcGuard => Some(DialoguePartner::Guard),
        TileType::NpcVillager => Some(DialoguePartner::Villager),
        TileType::NpcSuspicious => Some(DialoguePartner::Suspicious),
        _ => None,
    }
}

/// The outcome of `command` aimed at `tile` (`None`: outside the map).
pub open spec fn spec_outcome(command: CommandKind, tile: Option<TileType>) -> InteractOutcomeView {
    match command {
        CommandKind::Examine => match tile {
            None => InteractOutcomeView::Message("そこには何もない。"@),
            Some(TileType::ChestClosed) => InteractOutcomeView::ChestOpened {
                gold: CHEST_GOLD as int,
                item: "特やくそう"@,
                message: examine_text(TileType::ChestClosed),
            },
            Some(t) => InteractOutcomeView::Message(examine_text(t)),
        },
        CommandKind::Talk => match tile {
            Some(t) => match partner_of(t) {
                Some(p) => InteractOutcomeView::StartDialogue(p),
                None => InteractOutcomeView::Message("そこには話せる相手がいない。"@),
            },
            None => InteractOutcomeView::Message("そこには話せる相手がいない。"@),
        },
        CommandKind::Steal => match tile {
            Some(t) => if is_person_tile(t) {
                InteractOutcomeView::Message("「ぬすむ」コマンドはまだ準備中だ……"@)
            } else {
                InteractOutcomeView::Message("そこには盗めるものがない。"@)
            },
            None => InteractOutcomeView::Message("そこには盗めるものがない。"@),
        },
        CommandKind::Item => InteractOutcomeView::Message(
            "どうぐの確認は「どうぐ」コマンドから行える。"@,
        ),
    }
}

/// Whether `command` aimed at `tile` opens a chest (the only change it makes).
pub open spec fn opens_chest(command: CommandKind, tile: Option<TileType>) -> bool {
    command == CommandKind::Examine && tile == Some(TileType::ChestClosed)
}

/// Whether the cell next to `pos` in the direction `facing` has coordinates
/// that fit in an `i32`.
pub open spec fn faced_cell_fits(pos: Position, facing: Facing) -> bool {
    let (dx, dy) = spec_facing_delta(facing);
    &&& i32::MIN <= pos.x + dx <= i32::MAX
    &&& i32::MIN <= pos.y + dy <= i32::MAX
}

/// Runs `command` on the cell next to `player_pos` in the direction `facing`.
/// Examining a closed chest opens it on the map; nothing else changes the map.
pub fn resolve(map: &mut TownMap, player_pos: Position, facing: Facing, command: CommandKind) -> (r: InteractOutcome)
    requires
        old(map).wf(),
        faced_cell_fits(player_pos, facing),
    ensures
        ({
            let (dx, dy) = spec_facing_delta(facing);
            let tx = player_pos.x + dx;
            let ty = player_pos.y + dy;
            let tile = old(map).spec_get(tx, ty);
            &&& r@ == spec_outcome(command, tile)
            &&& if opens_chest(command, tile) {
                final(map).is_set_of(*old(map), tx, ty, TileType::ChestOpen)
            } else {
                *final(map) == *old(map)
            }
        }),
{
    let (dx, dy) = facing_delta(facing);
    let target_x = player_pos.x + dx;
    let target_y = player_pos.y + dy;
    let tile = map.get(target_x, target_y);
    match command {
        CommandKind::Examine => resolve_examine(map, target_x, target_y, tile),
        CommandKind::Talk => resolve_talk(tile),
        CommandKind::Steal => resolve_steal(tile),
        CommandKind::Item => InteractOutcome::Message(
            string_of("どうぐの確認は「どうぐ」コマンドから行える。"),
        ),
    }
}

fn resolve_examine(map: &mut TownMap, x: i32, y: i32, tile: Option<TileType>) -> (r: InteractOutcome)
    requires
        old(map).wf(),
        tile == old(map).spec_get(x as int, y as int),
    ensures
        r@ == spec_outcome(CommandKind::Examine, tile),
        if tile == Some(TileType::ChestClosed) {
            final(map).is_set_of(*old(map), x as int, y as int, TileType::ChestOpen)
        } else {
            *final(map) == *old(map)
        },
{
    let tile = match tile {
        Some(t) => t,
        None => {
            return InteractOutcome::Message(string_of("そこには何もない。"));
        },
    };
    let text = match tile {
        TileType::Inn => "宿屋の主人がのんびりと帳簿をつけている。",
        TileType::Tavern => "酒場の呑兵衛が上機嫌に酒をあおっている。",
        TileType::Shop => "道具屋の店主が商品を並べ直している。",
        TileType::NpcGuard => "王都衛兵が鋭い眼光でこちらを見張っている。",
        TileType::NpcVillager => "街の女性が穏やかに微笑んでいる。",
        TileType::NpcSuspicious => "裏通りの怪しい男が油断なく辺りをうかがっている。",
        TileType::Sign => SIGN_TEXT,
        TileType::ChestClosed => {
            map.set(x, y, TileType::ChestOpen);
            return InteractOutcome::ChestOpened {
                gold: CHEST_GOLD,
                item: string_of("特やくそう"),
                message: string_of("宝箱を調べた！\n120フォリンと「特やくそう」を手に入れた！"),
            };
        },
        TileType::ChestOpen => "空になった宝箱だ。",
        TileType::Wall => "頑丈な石壁だ。",
        TileType::DungeonWall => "苔むした冷たい岩壁だ。",
        TileType::Water => "澄んだ水路の水だ。",
        TileType::Tree => "青々と茂る街路樹だ。",
        TileType::DoorClosed | TileType::DoorOpen => "木製の扉だ。",
        TileType::IronGateClosed | TileType::IronGateOpen => "錆びついた鉄格子の扉だ。",
        TileType::StairsDown => "地下へと続く石段だ。",
        TileType::StairsUp => "地上へと続く石段だ。",
        TileType::MonsterSymbol => "魔物の気配がする……油断できない。",
        TileType::Floor | TileType::DungeonFloor => "なにもない。",
        TileType::RoadExit => "他の町・村へ続く街道だ。歩いて踏み出せば旅立てる。",
    };
    InteractOutcome::Message(string_of(text))
}

fn resolve_talk(tile: Option<TileType>) -> (r: InteractOutcome)
    ensures
        r@ == spec_outcome(CommandKind::Talk, tile),
{
    match tile {
        Some(TileType::Inn) => InteractOutcome::StartDialogue(DialoguePartner::Inn),
        Some(TileType::Tavern) => InteractOutcome::StartDialogue(DialoguePartner::Tavern),
        Some(TileType::Shop) => InteractOutcome::StartDialogue(DialoguePartner::Shop),
        Some(TileType::NpcGuard) => InteractOutcome::StartDialogue(DialoguePartner::Guard),
        Some(TileType::NpcVillager) => InteractOutcome::StartDialogue(DialoguePartner::Villager),
        Some(TileType::NpcSuspicious) => InteractOutcome::StartDialogue(DialoguePartner::Suspicious),
        _ => InteractOutcome::Message(string_of("そこには話せる相手がいない。")),
    }
}

fn resolve_steal(tile: Option<TileType>) -> (r: InteractOutcome)
    ensures
        r@ == spec_outcome(CommandKind::Steal, tile),
{
    match tile {
        Some(
            TileType::NpcGuard
            | TileType::NpcVillager
            | TileType::NpcSuspicious
            | TileType::Inn
            | TileType::Tavern
            | TileType::Shop,
        ) => InteractOutcome::Message(string_of("「ぬすむ」コマンドはまだ準備中だ……")),
        _ => InteractOutcome::Message(string_of("そこには盗めるものがない。")),
    }
}

/// Only a person can be talked to: "はなす" starts a dialogue exactly when the
/// tile in front is a person, and "しらべる" never starts one.
pub proof fn lemma_dialogue_only_with_people(command: CommandKind, tile: Option<TileType>)
    ensures
        spec_outcome(command, tile) is StartDialogue <==> (command == CommandKind::Talk
            && spec_classify_tile(tile) == TargetKind::Npc),
{
}

/// The tile each conversation partner stands on in town.
pub open spec fn partner_tile(p: DialoguePartner) -> TileType {
    match p {
        DialoguePartner::Inn => TileType::Inn,
        DialoguePartner::Shop => TileType::Shop,
        DialoguePartner::Tavern => TileType::Tavern,
        DialoguePartner::Guard => TileType::NpcGuard,
        DialoguePartner::Villager => TileType::NpcVillager,
        DialoguePartner::Suspicious => TileType::NpcSuspicious,
    }
}

/// Talking to a tile starts a conversation exactly when a person stands
/// there, and then with the partner who stands on that tile: each partner is
/// reached from their own tile and from no other.
pub proof fn lemma_talk_reaches_the_partner_on_the_tile(t: TileType, p: DialoguePartner)
    ensures
        spec_outcome(CommandKind::Talk, Some(partner_tile(p))) == InteractOutcomeView::StartDialogue(p),
        spec_outcome(CommandKind::Talk, Some(t)) == InteractOutcomeView::StartDialogue(p) ==> t == partner_tile(p),
        (spec_outcome(CommandKind::Talk, Some(t)) is StartDialogue) <==> is_person_tile(t),
{
}

/// Only talking starts a conversation, and only examining a closed chest
/// opens one, giving `CHEST_GOLD` gold and a special herb.
pub proof fn lemma_commands_keep_to_their_kind(c: CommandKind, t: Option<TileType>)
    ensures
        spec_outcome(c, t) is StartDialogue ==> c == CommandKind::Talk,
        (spec_outcome(c, t) is ChestOpened) <==> (c == CommandKind::Examine && t == Some(TileType::ChestClosed)),
        spec_outcome(c, t) matches InteractOutcomeView::ChestOpened { gold, item, .. } ==> gold == CHEST_GOLD && item
            == "特やくそう"@,
{
}

} // verus!
