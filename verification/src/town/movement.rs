//! Walking on the map: facing, bumping into tiles and the trail followers take.

use super::map::{AreaId, TileType, TownMap};
use crate::text::{concat2, string_of};
use std::collections::VecDeque;
use vstd::prelude::*;

verus! {

/// A cell of the map.
#[derive(Clone, Copy, Debug, PartialEq, Eq, Structural)]
pub struct Position {
    pub x: i32,
    pub y: i32,
}

/// The direction the protagonist looks in.
#[derive(Clone, Copy, Debug, PartialEq, Eq, Structural)]
pub enum Facing {
    Up,
    Down,
    Left,
    Right,
}

/// The facing after a step (or a turn) by `(dx, dy)`: horizontal movement
/// wins, and no movement keeps the old facing.
pub open spec fn facing_after(old: Facing, dx: int, dy: int) -> Facing {
    if dx > 0 {
        Facing::Right
    } else if dx < 0 {
        Facing::Left
    } else if dy > 0 {
        Facing::Down
    } else if dy < 0 {
        Facing::Up
    } else {
        old
    }
}

/// Turns `facing` towards `(dx, dy)`.
pub fn face_towards(facing: &mut Facing, dx: i32, dy: i32)
    ensures
        *final(facing) == facing_after(*old(facing), dx as int, dy as int),
{
    if dx > 0 {
        *facing = Facing::Right;
    } else if dx < 0 {
        *facing = Facing::Left;
    } else if dy > 0 {
        *facing = Facing::Down;
    } else if dy < 0 {
        *facing = Facing::Up;
    }
}

/// The trail of recent positions the followers walk along (most recent first).
#[derive(Clone, Debug)]
pub struct FollowerHistory {
    pub history: VecDeque<Position>,
    pub max_len: usize,
}

/// The smaller of two lengths.
pub open spec fn min_len(a: int, b: int) -> int {
    if a <= b { a } else { b }
}

impl FollowerHistory {
    /// The trail always holds exactly `max_len` positions.
    pub open spec fn wf(&self) -> bool {
        self.history@.len() == self.max_len
    }

    /// A trail of `count` copies of `initial_pos`.
    pub fn new(initial_pos: Position, count: usize) -> (r: Self)
        ensures
            r.wf(),
            r.max_len == count,
            forall|i: int| 0 <= i < count ==> #[trigger] r.history@[i] == initial_pos,
    {
        let mut history = VecDeque::new();
        let mut i: usize = 0;
        while i < count
            invariant
                i <= count,
                history@.len() == i,
                forall|k: int| 0 <= k < i ==> #[trigger] history@[k] == initial_pos,
            decreases count - i,
        {
            history.push_back(initial_pos);
            i = i + 1;
        }
        Self { history, max_len: count }
    }

    /// Refills the trail with `max_len` copies of `new_pos`.
    pub fn reset(&mut self, new_pos: Position)
        ensures
            final(self).wf(),
            final(self).max_len == old(self).max_len,
            forall|i: int| 0 <= i < old(self).max_len ==> #[trigger] final(self).history@[i] == new_pos,
    {
        self.history.clear();
        let mut i: usize = 0;
        while i < self.max_len
            invariant
                i <= self.max_len,
                self.max_len == old(self).max_len,
                self.history@.len() == i,
                forall|k: int| 0 <= k < i ==> #[trigger] self.history@[k] == new_pos,
            decreases self.max_len - i,
        {
            self.history.push_back(new_pos);
            i = i + 1;
        }
    }

    /// Records a step: `pos` becomes the most recent entry and the trail is
    /// cut back to at most `max_len` entries.
    pub fn push(&mut self, pos: Position)
        ensures
            final(self).max_len == old(self).max_len,
            final(self).history@ == seq![pos].add(old(self).history@).take(
                min_len(old(self).history@.len() + 1int, old(self).max_len as int),
            ),
            old(self).wf() ==> final(self).wf(),
    {
        let ghost full = seq![pos].add(old(self).history@);
        let ghost target = min_len(old(self).history@.len() + 1int, old(self).max_len as int);
        self.history.push_front(pos);
        assert(self.history@ =~= full.take(full.len() as int));
        while self.history.len() > self.max_len
            invariant
                self.max_len == old(self).max_len,
                full == seq![pos].add(old(self).history@),
                target == min_len(old(self).history@.len() + 1int, old(self).max_len as int),
                target <= self.history@.len() <= full.len(),
                self.history@ == full.take(self.history@.len() as int),
            decreases self.history@.len(),
        {
            let ghost before = self.history@;
            let popped = self.history.pop_back();
            assert(popped is Some);
            assert(self.history@ =~= before.subrange(0, before.len() - 1));
            assert(before.subrange(0, before.len() - 1) =~= full.take(before.len() - 1));
        }
    }

    /// The position of the `index`-th most recent step, if the trail is that long.
    pub fn get_follower_position(&self, index: usize) -> (r: Option<Position>)
        ensures
            r == if index < self.history@.len() {
                Some(self.history@[index as int])
            } else {
                None
            },
    {
        if index < self.history.len() {
            Some(self.history[index])
        } else {
            None
        }
    }
}

/// What happened when the protagonist tried to take a step.
#[derive(Debug)]
pub enum MoveOutcome {
    Moved { message: Option<String> },
    Blocked { message: Option<String> },
    TriggerBattle { message: String, monster_pos: Option<Position> },
    ChangeArea { new_area: AreaId, spawn_pos: Position, message: String },
    /// The road out was touched: the caller decides whether the journey to
    /// `destination` starts.
    RequestTravel { destination: AreaId, spawn_pos: Position },
}

pub open spec fn opt_text(m: Option<String>, t: Option<Seq<char>>) -> bool {
    match (m, t) {
        (None, None) => true,
        (Some(s), Some(u)) => s@ == u,
        _ => false,
    }
}

/// Tiles the protagonist simply walks onto.
pub open spec fn is_plain_walkable(t: TileType) -> bool {
    match t {
        TileType::Floor | TileType::DoorOpen | TileType::DungeonFloor | TileType::IronGateOpen
        | TileType::ChestOpen => true,
        _ => false,
    }
}

/// The message of a wall-like tile the protagonist bumps into.
pub open spec fn bump_text(t: TileType) -> Option<Seq<char>> {
    match t {
        TileType::Wall => Some("頑丈な石壁だ。進むことはできない。"@),
        TileType::DungeonWall => Some("苔むした冷たい岩壁だ。進むことはできない。"@),
        TileType::Water => Some("澄んだ水路の水だ。"@),
        TileType::Tree => Some("青々と茂る街路樹だ。"@),
        TileType::DoorClosed => Some("扉を開けた。"@),
        TileType::IronGateClosed => Some("ギギギ…と錆びた音を立てて鉄格子扉を開けた。"@),
        _ => None,
    }
}

pub open spec fn descend_text(next: AreaId) -> Seq<char> {
    "さらに深層への下り階段を降りた……\n【"@ + next.spec_name() + "】に足を踏み入れた！"@
}

pub open spec fn ascend_text(prev: AreaId) -> Seq<char> {
    "階段を上り、一つ浅い【"@ + prev.spec_name() + "】へ戻った。"@
}

/// Whether the step onto a tile of kind `t` in `area` moves the protagonist.
pub open spec fn step_moves(t: Option<TileType>, area: AreaId) -> bool {
    match t {
        Some(tile) => is_plain_walkable(tile) || (tile == TileType::StairsDown && area
            == AreaId::DungeonB6F),
        None => false,
    }
}

/// The outcome of stepping onto `t` (at `target`) while in `area`.
pub open spec fn expected_outcome(o: MoveOutcome, t: Option<TileType>, area: AreaId, target: Position) -> bool {
    match t {
        None => o matches MoveOutcome::Blocked { message } && message is None,
        Some(tile) => if is_plain_walkable(tile) {
            o matches MoveOutcome::Moved { message } && message is None
        } else {
            match tile {
                TileType::StairsDown => match area {
                    AreaId::Town => o matches MoveOutcome::ChangeArea { new_area, spawn_pos, message }
                        && new_area == AreaId::DungeonB1F && spawn_pos == (Position { x: 3, y: 4 })
                        && message@ == "地下迷宮への石段を降りた……\n湿った冷気と獣の臭いが漂う【封魔の地下迷宮 B1F】に足を踏み入れた！"@,
                    AreaId::Village => o matches MoveOutcome::Blocked { message } && message is None,
                    AreaId::DungeonB6F => o matches MoveOutcome::TriggerBattle { message, monster_pos }
                        && monster_pos is None
                        && message@ == "さらに深層への下り階段に足を踏み入れた！\n地下奥深くから強大な魔物の咆哮が響く……！"@,
                    _ => {
                        let next = AreaId::spec_from_dungeon_depth((area.spec_dungeon_depth()->0 + 1) as u8)->0;
                        o matches MoveOutcome::ChangeArea { new_area, spawn_pos, message }
                            && new_area == next && spawn_pos == (Position { x: 3, y: 4 })
                            && message@ == descend_text(next)
                    },
                },
                TileType::StairsUp => match area {
                    AreaId::DungeonB1F => o matches MoveOutcome::ChangeArea { new_area, spawn_pos, message }
                        && new_area == AreaId::Town && spawn_pos == (Position { x: 40, y: 11 })
                        && message@ == "階段を駆け上がり、夜風が吹き抜ける王都アルカンへ無事に生還した！"@,
                    AreaId::Town | AreaId::Village => o matches MoveOutcome::Blocked { message }
                        && opt_text(message, Some("見上げるような高い塔の扉は固く閉ざされている。"@)),
                    _ => {
                        let prev = AreaId::spec_from_dungeon_depth((area.spec_dungeon_depth()->0 - 1) as u8)->0;
                        o matches MoveOutcome::ChangeArea { new_area, spawn_pos, message }
                            && new_area == prev && spawn_pos == (Position { x: 3, y: 4 })
                            && message@ == ascend_text(prev)
                    },
                },
                TileType::RoadExit => match area {
                    AreaId::Town => o matches MoveOutcome::RequestTravel { destination, spawn_pos }
                        && destination == AreaId::Village && spawn_pos == (Position { x: 44, y: 6 }),
                    AreaId::Village => o matches MoveOutcome::RequestTravel { destination, spawn_pos }
                        && destination == AreaId::Town && spawn_pos == (Position { x: 1, y: 6 }),
                    _ => o matches MoveOutcome::Blocked { message } && message is None,
                },
                TileType::MonsterSymbol => o matches MoveOutcome::TriggerBattle { message, monster_pos }
                    && monster_pos == Some(target)
                    && message@ == "暗闇から魔物の影が飛びかかってきた！\n不意打ちの戦闘だ！"@,
                _ => o matches MoveOutcome::Blocked { message } && opt_text(message, bump_text(tile)),
            }
        },
    }
}

/// Tries to step by `(dx, dy)`. The protagonist turns that way first. Plain
/// floors (and the deepest floor's down stairs) are walked onto and the
/// previous position joins the followers' trail; closed doors and iron gates
/// are opened without moving; stairs, the road out and monster symbols report
/// an area change, a journey request or a battle; anything else blocks.
pub fn try_move_player(
    map: &mut TownMap,
    current_area: AreaId,
    player_pos: &mut Position,
    player_facing: &mut Facing,
    followers: &mut FollowerHistory,
    dx: i32,
    dy: i32,
) -> (r: MoveOutcome)
    requires
        old(map).wf(),
        old(followers).wf(),
        i32::MIN <= old(player_pos).x + dx <= i32::MAX,
        i32::MIN <= old(player_pos).y + dy <= i32::MAX,
    ensures
        ({
            let target = Position { x: (old(player_pos).x + dx) as i32, y: (old(player_pos).y + dy) as i32 };
            let t = old(map).spec_get(target.x as int, target.y as int);
            &&& *final(player_facing) == facing_after(*old(player_facing), dx as int, dy as int)
            &&& expected_outcome(r, t, current_area, target)
            &&& step_moves(t, current_area) ==> *final(player_pos) == target
                && final(followers).history@ == seq![*old(player_pos)].add(old(followers).history@).take(
                old(followers).max_len as int)
            &&& !step_moves(t, current_area) ==> *final(player_pos) == *old(player_pos)
                && final(followers).history@ == old(followers).history@
            &&& final(followers).wf()
            &&& final(followers).max_len == old(followers).max_len
            &&& final(map).wf()
            &&& final(map).width == old(map).width && final(map).height == old(map).height
            &&& t == Some(TileType::DoorClosed) ==> final(map).is_set_of(*old(map), target.x as int, target.y as int, TileType::DoorOpen)
            &&& t == Some(TileType::IronGateClosed) ==> final(map).is_set_of(*old(map), target.x as int, target.y as int, TileType::IronGateOpen)
            &&& t != Some(TileType::DoorClosed) && t != Some(TileType::IronGateClosed) ==> *final(map) == *old(map)
        }),
{
    face_towards(player_facing, dx, dy);
    let target_x = player_pos.x + dx;
    let target_y = player_pos.y + dy;
    let target_tile = match map.get(target_x, target_y) {
        Some(t) => t,
        None => {
            return MoveOutcome::Blocked { message: None };
        },
    };
    match target_tile {
        TileType::Floor | TileType::DoorOpen | TileType::DungeonFloor | TileType::IronGateOpen
        | TileType::ChestOpen => {
            let prev_pos = *player_pos;
            player_pos.x = target_x;
            player_pos.y = target_y;
            followers.push(prev_pos);
            MoveOutcome::Moved { message: None }
        },
        TileType::StairsDown => {
            match current_area {
                AreaId::Town => MoveOutcome::ChangeArea {
                    new_area: AreaId::DungeonB1F,
                    spawn_pos: Position { x: 3, y: 4 },
                    message: string_of("地下迷宮への石段を降りた……\n湿った冷気と獣の臭いが漂う【封魔の地下迷宮 B1F】に足を踏み入れた！"),
                },
                AreaId::Village => MoveOutcome::Blocked { message: None },
                _ => {
                    let depth = match current_area.dungeon_depth() {
                        Some(d) => d,
                        None => {
                            return MoveOutcome::Blocked { message: None };
                        },
                    };
                    match AreaId::from_dungeon_depth(depth + 1) {
                        Some(next_area) => {
                            let mut msg = string_of("さらに深層への下り階段を降りた……\n【");
                            msg.append(next_area.name());
                            msg.append("】に足を踏み入れた！");
                            MoveOutcome::ChangeArea {
                                new_area: next_area,
                                spawn_pos: Position { x: 3, y: 4 },
                                message: msg,
                            }
                        },
                        None => {
                            let prev_pos = *player_pos;
                            player_pos.x = target_x;
                            player_pos.y = target_y;
                            followers.push(prev_pos);
                            MoveOutcome::TriggerBattle {
                                message: string_of("さらに深層への下り階段に足を踏み入れた！\n地下奥深くから強大な魔物の咆哮が響く……！"),
                                monster_pos: None,
                            }
                        },
                    }
                },
            }
        },
        TileType::StairsUp => {
            match current_area {
                AreaId::DungeonB1F => MoveOutcome::ChangeArea {
                    new_area: AreaId::Town,
                    spawn_pos: Position { x: 40, y: 11 },
                    message: string_of("階段を駆け上がり、夜風が吹き抜ける王都アルカンへ無事に生還した！"),
                },
                AreaId::Town | AreaId::Village => MoveOutcome::Blocked {
                    message: Some(string_of("見上げるような高い塔の扉は固く閉ざされている。")),
                },
                _ => {
                    let depth = match current_area.dungeon_depth() {
                        Some(d) => d,
                        None => {
                            return MoveOutcome::Blocked { message: None };
                        },
                    };
                    match AreaId::from_dungeon_depth(depth - 1) {
                        Some(prev_area) => {
                            let mut msg = string_of("階段を上り、一つ浅い【");
                            msg.append(prev_area.name());
                            msg.append("】へ戻った。");
                            MoveOutcome::ChangeArea {
                                new_area: prev_area,
                                spawn_pos: Position { x: 3, y: 4 },
                                message: msg,
                            }
                        },
                        None => MoveOutcome::Blocked { message: None },
                    }
                },
            }
        },
        TileType::RoadExit => match current_area {
            AreaId::Town => MoveOutcome::RequestTravel {
                destination: AreaId::Village,
                spawn_pos: Position { x: 44, y: 6 },
            },
            AreaId::Village => MoveOutcome::RequestTravel {
                destination: AreaId::Town,
                spawn_pos: Position { x: 1, y: 6 },
            },
            _ => MoveOutcome::Blocked { message: None },
        },
        TileType::DoorClosed => {
            map.set(target_x, target_y, TileType::DoorOpen);
            MoveOutcome::Blocked { message: Some(string_of("扉を開けた。")) }
        },
        TileType::IronGateClosed => {
            map.set(target_x, target_y, TileType::IronGateOpen);
            MoveOutcome::Blocked { message: Some(string_of("ギギギ…と錆びた音を立てて鉄格子扉を開けた。")) }
        },
        TileType::MonsterSymbol => MoveOutcome::TriggerBattle {
            message: string_of("暗闇から魔物の影が飛びかかってきた！\n不意打ちの戦闘だ！"),
            monster_pos: Some(Position { x: target_x, y: target_y }),
        },
        TileType::Wall => MoveOutcome::Blocked {
            message: Some(string_of("頑丈な石壁だ。進むことはできない。")),
        },
        TileType::DungeonWall => MoveOutcome::Blocked {
            message: Some(string_of("苔むした冷たい岩壁だ。進むことはできない。")),
        },
        TileType::Water => MoveOutcome::Blocked { message: Some(string_of("澄んだ水路の水だ。")) },
        TileType::Tree => MoveOutcome::Blocked { message: Some(string_of("青々と茂る街路樹だ。")) },
        _ => MoveOutcome::Blocked { message: None },
    }
}

/// Every tile that the map calls walkable, other than the two stairs, is
/// walked onto: the step moves the protagonist there (so a gate or door
/// bumped open is passed on the next step); and no step moves the
/// protagonist onto a tile that is not walkable.
pub proof fn lemma_walkable_tiles_are_walked_onto(t: TileType, area: AreaId, target: Position, o: MoveOutcome)
    ensures
        t.spec_is_walkable() && t != TileType::StairsUp && t != TileType::StairsDown ==> step_moves(Some(t), area) && (
        expected_outcome(o, Some(t), area, target) ==> o is Moved),
        step_moves(Some(t), area) ==> t.spec_is_walkable(),
{
}

/// The stairs join the floors both ways: where the stairs down of an area
/// lead, the stairs up lead back to that area.
pub proof fn lemma_stairs_lead_back(
    a: AreaId,
    t1: Position,
    t2: Position,
    down: MoveOutcome,
    up: MoveOutcome,
)
    requires
        expected_outcome(down, Some(TileType::StairsDown), a, t1),
        down is ChangeArea,
        expected_outcome(up, Some(TileType::StairsUp), down->new_area, t2),
    ensures
        up matches MoveOutcome::ChangeArea { new_area, .. } && new_area == a,
{
}

} // verus!
