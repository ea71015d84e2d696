//! Exploration of towns and dungeon floors.

pub mod dialogue;
pub mod dungeon_gen;
pub mod fov;
pub mod grid;
pub mod interact;
pub mod map;
pub mod movement;
pub mod sprite;
pub mod travel;

pub use map::{AreaId, TileType, TownMap, MAX_DUNGEON_DEPTH};
pub use movement::{try_move_player, Facing, FollowerHistory, MoveOutcome, Position};
pub use dialogue::{
    DialogueLearnStage, DialoguePartner, DialogueSession, LearnableSpan, ShopItem, INN_COST,
    SHOP_ITEM_COUNT,
};
pub use interact::{CommandKind, InteractOutcome, TargetKind};
pub use fov::{FovMap, Visibility};
pub use travel::{TravelPhase, TravelPlan, TravelPosture, TravelSimulation, TravelStepOutcome, TravelTransport};

use dungeon_gen::dungeon_floor_ok;
use fov::spec_in_view;
use interact::{classify_tile, faced_cell_fits, facing_delta, opens_chest, spec_classify_tile, spec_facing_delta, spec_outcome};
use map::{spec_capital_tile, spec_village_tile, MAP_HEIGHT, MAP_WIDTH};
use movement::{expected_outcome, face_towards, facing_after, step_moves};
use rand::rngs::StdRng;
use vstd::prelude::*;

verus! {

/// What the protagonist sees and walks on: the area, its map, the seen
/// cells, the protagonist with the followers' trail, and the flags the
/// host reads to redraw.
pub struct TownState {
    pub current_area: AreaId,
    pub map: TownMap,
    pub fov: FovMap,
    pub player_pos: Position,
    pub player_facing: Facing,
    pub followers: FollowerHistory,
    pub torch_active: bool,
    pub debug_see_all: bool,
    /// Where the last monster symbol that started a battle stands.
    pub last_encounter_pos: Option<Position>,
    /// Whether the host must redraw.
    pub dirty: bool,
}

/// How far one sees: six cells by torchlight, two without.
pub open spec fn sight_radius(torch: bool) -> int {
    if torch { 6 } else { 2 }
}

/// The map an area is entered with: the fixed capital or village, or a
/// freshly generated 46 by 13 dungeon floor entered at (3, 4).
pub open spec fn area_map_ok(area: AreaId, map: TownMap) -> bool {
    match area {
        AreaId::Town => map.width == MAP_WIDTH && map.height == MAP_HEIGHT
            && forall|x: int, y: int| map.in_bounds(x, y) ==> #[trigger] map.spec_get(x, y) == Some(spec_capital_tile(x, y)),
        AreaId::Village => map.width == MAP_WIDTH && map.height == MAP_HEIGHT
            && forall|x: int, y: int| map.in_bounds(x, y) ==> #[trigger] map.spec_get(x, y) == Some(spec_village_tile(x, y)),
        _ => map.width == 46 && map.height == 13 && dungeon_floor_ok(map, 46, 13, (3, 4)),
    }
}

/// `new` is `old` after the protagonist tried a step by `(dx, dy)` with
/// outcome `r` (see `try_move_player`); stairs that lead elsewhere enter
/// that area and a battle remembers where the monster symbol stands.
pub open spec fn player_moved(old: TownState, dx: int, dy: int, new: TownState, r: MoveOutcome) -> bool {
    let target = Position { x: (old.player_pos.x + dx) as i32, y: (old.player_pos.y + dy) as i32 };
    let t = old.map.spec_get(target.x as int, target.y as int);
    &&& expected_outcome(r, t, old.current_area, target)
    &&& new.player_facing == facing_after(old.player_facing, dx, dy)
    &&& match r {
        MoveOutcome::ChangeArea { new_area, spawn_pos, .. } => new.switched_from(old, new_area, spawn_pos),
        _ => {
            &&& new.wf()
            &&& new.current_area == old.current_area
            &&& new.torch_active == old.torch_active
            &&& new.debug_see_all == old.debug_see_all
            &&& step_moves(t, old.current_area) ==> new.player_pos == target
                && new.followers.history@ == seq![old.player_pos].add(old.followers.history@).take(
                old.followers.max_len as int)
            &&& !step_moves(t, old.current_area) ==> new.player_pos == old.player_pos
                && new.followers.history@ == old.followers.history@
            &&& t == Some(TileType::DoorClosed) ==> new.map.is_set_of(old.map, target.x as int, target.y as int, TileType::DoorOpen)
            &&& t == Some(TileType::IronGateClosed) ==> new.map.is_set_of(
                old.map,
                target.x as int,
                target.y as int,
                TileType::IronGateOpen,
            )
            &&& t != Some(TileType::DoorClosed) && t != Some(TileType::IronGateClosed) ==> new.map == old.map
            &&& new.last_encounter_pos == match r {
                MoveOutcome::TriggerBattle { monster_pos, .. } => monster_pos,
                _ => old.last_encounter_pos,
            }
            &&& new.fov_current()
            &&& new.dirty
        },
    }
}

/// `new` is `old` after `command` was used on the cell in front, with
/// outcome `r` (see `interact::resolve`); an opened chest asks for a redraw.
pub open spec fn interacted(old: TownState, command: CommandKind, new: TownState, r: InteractOutcome) -> bool {
    let (tx, ty) = old.spec_ahead();
    let tile = old.map.spec_get(tx, ty);
    &&& r@ == spec_outcome(command, tile)
    &&& if opens_chest(command, tile) {
        new.map.is_set_of(old.map, tx, ty, TileType::ChestOpen)
    } else {
        new.map == old.map
    }
    &&& new.wf()
    &&& new.dirty == (old.dirty || r is ChestOpened)
    &&& new.current_area == old.current_area
    &&& new.fov == old.fov
    &&& new.player_pos == old.player_pos
    &&& new.player_facing == old.player_facing
    &&& new.followers == old.followers
    &&& new.torch_active == old.torch_active
    &&& new.debug_see_all == old.debug_see_all
    &&& new.last_encounter_pos == old.last_encounter_pos
}

impl TownState {
    /// Every area's map, and the seen cells, are 46 by 13; the followers'
    /// trail has its full length.
    pub open spec fn wf(&self) -> bool {
        &&& self.map.wf()
        &&& self.fov.wf()
        &&& self.fov.width == self.map.width
        &&& self.fov.height == self.map.height
        &&& self.map.width == MAP_WIDTH
        &&& self.map.height == MAP_HEIGHT
        &&& self.followers.wf()
    }

    /// Whether `wf` holds (for hosts that change the public fields).
    pub fn is_wf(&self) -> (r: bool)
        ensures
            r == self.wf(),
    {
        self.map.width == MAP_WIDTH && self.map.height == MAP_HEIGHT && self.map.tiles.len() == MAP_WIDTH * MAP_HEIGHT
            && self.fov.width == self.map.width && self.fov.height == self.map.height && self.fov.visibility.len()
            == MAP_WIDTH * MAP_HEIGHT && self.followers.history.len() == self.followers.max_len
    }

    /// The seen cells are those in sight of the protagonist on the current
    /// map (all of them when seeing everything).
    pub open spec fn fov_current(&self) -> bool {
        forall|x: int, y: int|
            #![trigger self.fov.spec_is_visible(x, y)]
            self.fov.spec_is_visible(x, y) == (self.fov.in_bounds(x, y) && (self.debug_see_all || spec_in_view(
                self.map,
                self.player_pos.x as int,
                self.player_pos.y as int,
                sight_radius(self.torch_active),
                x,
                y,
            )))
    }

    /// The cell in front of the protagonist.
    pub open spec fn spec_ahead(&self) -> (int, int) {
        let (dx, dy) = spec_facing_delta(self.player_facing);
        (self.player_pos.x + dx, self.player_pos.y + dy)
    }

    /// `self` is `old` after entering `area` at `spawn` (the facing aside).
    pub open spec fn switched_from(&self, old: TownState, area: AreaId, spawn: Position) -> bool {
        &&& self.wf()
        &&& self.current_area == area
        &&& area_map_ok(area, self.map)
        &&& self.player_pos == spawn
        &&& self.followers.max_len == old.followers.max_len
        &&& forall|i: int| 0 <= i < old.followers.max_len ==> #[trigger] self.followers.history@[i] == spawn
        &&& self.last_encounter_pos is None
        &&& self.torch_active == old.torch_active
        &&& self.debug_see_all == old.debug_see_all
        &&& self.fov_current()
        &&& self.dirty
    }

    /// A fresh start in the capital: the protagonist below the central
    /// square facing up, three followers just behind, torch lit.
    pub open spec fn is_new_town(&self) -> bool {
        &&& self.wf()
        &&& self.current_area == AreaId::Town
        &&& area_map_ok(AreaId::Town, self.map)
        &&& self.player_pos == (Position { x: 20, y: 5 })
        &&& self.player_facing == Facing::Up
        &&& self.followers.max_len == 3
        &&& forall|i: int| 0 <= i < 3 ==> #[trigger] self.followers.history@[i] == (Position { x: 20, y: 6 })
        &&& self.torch_active
        &&& !self.debug_see_all
        &&& self.last_encounter_pos is None
        &&& self.dirty
        &&& self.fov_current()
    }

    /// The capital, with the protagonist below the central square facing up,
    /// three followers just behind, torch lit.
    pub fn new() -> (r: Self)
        ensures
            r.is_new_town(),
    {
        let map = TownMap::create_arkan_capital();
        assert(map.width * map.height == 46 * 13);
        let fov = FovMap::new(map.width, map.height);
        let followers = FollowerHistory::new(Position { x: 20, y: 6 }, 3);
        let mut state = Self {
            current_area: AreaId::Town,
            map,
            fov,
            player_pos: Position { x: 20, y: 5 },
            player_facing: Facing::Up,
            followers,
            torch_active: true,
            debug_see_all: false,
            last_encounter_pos: None,
            dirty: true,
        };
        state.recompute_fov();
        state
    }

    /// Recomputes the seen cells: a radius of 6 with the torch, else 2.
    pub fn recompute_fov(&mut self)
        requires
            old(self).wf(),
        ensures
            final(self).wf(),
            final(self).fov_current(),
            final(self).dirty,
            final(self).current_area == old(self).current_area,
            final(self).map == old(self).map,
            final(self).player_pos == old(self).player_pos,
            final(self).player_facing == old(self).player_facing,
            final(self).followers == old(self).followers,
            final(self).torch_active == old(self).torch_active,
            final(self).debug_see_all == old(self).debug_see_all,
            final(self).last_encounter_pos == old(self).last_encounter_pos,
    {
        let radius: i32 = if self.torch_active { 6 } else { 2 };
        self.fov.compute(&self.map, self.player_pos.x, self.player_pos.y, radius, self.debug_see_all);
        self.dirty = true;
    }

    /// Enters `new_area` at `spawn_pos`: the capital and the village have
    /// their fixed maps, each dungeon floor a new one; the trail is reset to
    /// the spawn and the remembered encounter forgotten.
    pub fn switch_area(&mut self, new_area: AreaId, spawn_pos: Position, rng: &mut StdRng)
        requires
            old(self).wf(),
        ensures
            final(self).switched_from(*old(self), new_area, spawn_pos),
            final(self).player_facing == old(self).player_facing,
    {
        self.current_area = new_area;
        self.map = match new_area {
            AreaId::Town => TownMap::create_arkan_capital(),
            AreaId::DungeonB1F | AreaId::DungeonB2F | AreaId::DungeonB3F | AreaId::DungeonB4F | AreaId::DungeonB5F
            | AreaId::DungeonB6F => TownMap::create_dungeon_floor(rng),
            AreaId::Village => TownMap::create_suzukake_village(),
        };
        self.player_pos = spawn_pos;
        self.followers.reset(spawn_pos);
        self.last_encounter_pos = None;
        self.recompute_fov();
        self.dirty = true;
    }

    /// Tries a step by `(dx, dy)` (see `try_move_player`). Stairs that lead
    /// elsewhere enter that area; a battle remembers where the monster
    /// symbol stands; otherwise the seen cells are recomputed.
    pub fn move_player(&mut self, dx: i32, dy: i32, rng: &mut StdRng) -> (r: MoveOutcome)
        requires
            old(self).wf(),
            i32::MIN <= old(self).player_pos.x + dx <= i32::MAX,
            i32::MIN <= old(self).player_pos.y + dy <= i32::MAX,
        ensures
            player_moved(*old(self), dx as int, dy as int, *final(self), r),
    {
        let outcome = try_move_player(
            &mut self.map,
            self.current_area,
            &mut self.player_pos,
            &mut self.player_facing,
            &mut self.followers,
            dx,
            dy,
        );
        let change = match &outcome {
            MoveOutcome::ChangeArea { new_area, spawn_pos, .. } => Some((*new_area, *spawn_pos)),
            _ => None,
        };
        if let Some((area, spawn)) = change {
            self.switch_area(area, spawn, rng);
            return outcome;
        }
        if let MoveOutcome::TriggerBattle { monster_pos, .. } = &outcome {
            self.last_encounter_pos = *monster_pos;
        }
        self.recompute_fov();
        outcome
    }

    /// After a won battle: when the remembered monster symbol still stands,
    /// it becomes dungeon floor and `true` is returned. The remembered
    /// position is forgotten either way.
    pub fn clear_defeated_monster(&mut self) -> (r: bool)
        requires
            old(self).wf(),
        ensures
            final(self).wf(),
            final(self).last_encounter_pos is None,
            r == (old(self).last_encounter_pos matches Some(p) && old(self).map.spec_get(p.x as int, p.y as int) == Some(TileType::MonsterSymbol)),
            r ==> ({
                let p = old(self).last_encounter_pos->0;
                &&& final(self).map.is_set_of(old(self).map, p.x as int, p.y as int, TileType::DungeonFloor)
                &&& final(self).fov_current()
                &&& final(self).dirty
            }),
            !r ==> final(self).map == old(self).map && final(self).fov == old(self).fov && final(self).dirty == old(self).dirty,
            final(self).current_area == old(self).current_area,
            final(self).player_pos == old(self).player_pos,
            final(self).player_facing == old(self).player_facing,
            final(self).followers == old(self).followers,
            final(self).torch_active == old(self).torch_active,
            final(self).debug_see_all == old(self).debug_see_all,
    {
        let taken = self.last_encounter_pos;
        self.last_encounter_pos = None;
        if let Some(pos) = taken {
            match self.map.get(pos.x, pos.y) {
                Some(TileType::MonsterSymbol) => {
                    self.map.set(pos.x, pos.y, TileType::DungeonFloor);
                    self.recompute_fov();
                    self.dirty = true;
                    return true;
                },
                _ => {},
            }
        }
        false
    }

    /// The tile in front of the protagonist (what a command would act on).
    pub fn tile_ahead(&self) -> (r: Option<TileType>)
        requires
            self.wf(),
            i32::MIN < self.player_pos.x < i32::MAX,
            i32::MIN < self.player_pos.y < i32::MAX,
        ensures
            r == self.map.spec_get(self.spec_ahead().0, self.spec_ahead().1),
    {
        let (dx, dy) = facing_delta(self.player_facing);
        self.map.get(self.player_pos.x + dx, self.player_pos.y + dy)
    }

    /// What stands in front of the protagonist, for the command labels.
    pub fn facing_target_kind(&self) -> (r: TargetKind)
        requires
            self.wf(),
            i32::MIN < self.player_pos.x < i32::MAX,
            i32::MIN < self.player_pos.y < i32::MAX,
        ensures
            r == spec_classify_tile(self.map.spec_get(self.spec_ahead().0, self.spec_ahead().1)),
    {
        classify_tile(self.tile_ahead())
    }

    /// Turns towards `(dx, dy)` without moving.
    pub fn face(&mut self, dx: i32, dy: i32)
        ensures
            final(self).player_facing == facing_after(old(self).player_facing, dx as int, dy as int),
            final(self).dirty,
            final(self).current_area == old(self).current_area,
            final(self).map == old(self).map,
            final(self).fov == old(self).fov,
            final(self).player_pos == old(self).player_pos,
            final(self).followers == old(self).followers,
            final(self).torch_active == old(self).torch_active,
            final(self).debug_see_all == old(self).debug_see_all,
            final(self).last_encounter_pos == old(self).last_encounter_pos,
    {
        face_towards(&mut self.player_facing, dx, dy);
        self.dirty = true;
    }

    /// Runs the chosen command on the cell in front (see `interact::resolve`);
    /// an opened chest asks for a redraw.
    pub fn resolve_interact(&mut self, command: CommandKind) -> (r: InteractOutcome)
        requires
            old(self).wf(),
            faced_cell_fits(old(self).player_pos, old(self).player_facing),
        ensures
            interacted(*old(self), command, *final(self), r),
    {
        let outcome = interact::resolve(&mut self.map, self.player_pos, self.player_facing, command);
        if let InteractOutcome::ChestOpened { .. } = &outcome {
            self.dirty = true;
        }
        outcome
    }
}

impl Default for TownState {
    /// The same as `TownState::new`.
    fn default() -> (r: Self)
        ensures
            r.wf(),
            r.current_area == AreaId::Town,
            area_map_ok(AreaId::Town, r.map),
            r.player_pos == (Position { x: 20, y: 5 }),
            r.player_facing == Facing::Up,
            r.last_encounter_pos is None,
            r.fov_current(),
    {
        Self::new()
    }
}

} // verus!
