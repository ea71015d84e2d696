//! Areas, tile kinds and the tile grid of a town or dungeon floor.

use super::dungeon_gen::{cave_generated, dungeon_floor_ok, generate, DungeonGenKind};
use rand::rngs::StdRng;
use vstd::prelude::*;

verus! {

/// A place the party can be in.
#[derive(Clone, Copy, Debug, PartialEq, Eq, Structural)]
pub enum AreaId {
    Town,
    DungeonB1F,
    DungeonB2F,
    DungeonB3F,
    DungeonB4F,
    DungeonB5F,
    DungeonB6F,
    Village,
}

/// The deepest dungeon floor (B6F).
pub const MAX_DUNGEON_DEPTH: u8 = 6;

impl AreaId {
    pub open spec fn spec_name(self) -> Seq<char> {
        match self {
            AreaId::Town => "王都アルカン・商業区"@,
            AreaId::DungeonB1F => "封魔の地下迷宮 B1F"@,
            AreaId::DungeonB2F => "封魔の地下迷宮 B2F"@,
            AreaId::DungeonB3F => "封魔の地下迷宮 B3F"@,
            AreaId::DungeonB4F => "封魔の地下迷宮 B4F"@,
            AreaId::DungeonB5F => "封魔の地下迷宮 B5F"@,
            AreaId::DungeonB6F => "封魔の地下迷宮 B6F"@,
            AreaId::Village => "近郊の村・すずかけ村"@,
        }
    }

    /// The display name of the area.
    pub fn name(&self) -> (r: &'static str)
        ensures
            r@ == self.spec_name(),
    {
        match self {
            AreaId::Town => "王都アルカン・商業区",
            AreaId::DungeonB1F => "封魔の地下迷宮 B1F",
            AreaId::DungeonB2F => "封魔の地下迷宮 B2F",
            AreaId::DungeonB3F => "封魔の地下迷宮 B3F",
            AreaId::DungeonB4F => "封魔の地下迷宮 B4F",
            AreaId::DungeonB5F => "封魔の地下迷宮 B5F",
            AreaId::DungeonB6F => "封魔の地下迷宮 B6F",
            AreaId::Village => "近郊の村・すずかけ村",
        }
    }

    pub open spec fn spec_dungeon_depth(self) -> Option<u8> {
        match self {
            AreaId::DungeonB1F => Some(1u8),
            AreaId::DungeonB2F => Some(2u8),
            AreaId::DungeonB3F => Some(3u8),
            AreaId::DungeonB4F => Some(4u8),
            AreaId::DungeonB5F => Some(5u8),
            AreaId::DungeonB6F => Some(6u8),
            AreaId::Town | AreaId::Village => None,
        }
    }

    /// The depth (B1F = 1 .. B6F = 6) of a dungeon floor; `None` elsewhere.
    pub fn dungeon_depth(&self) -> (r: Option<u8>)
        ensures
            r == self.spec_dungeon_depth(),
    {
        match self {
            AreaId::DungeonB1F => Some(1),
            AreaId::DungeonB2F => Some(2),
            AreaId::DungeonB3F => Some(3),
            AreaId::DungeonB4F => Some(4),
            AreaId::DungeonB5F => Some(5),
            AreaId::DungeonB6F => Some(6),
            AreaId::Town | AreaId::Village => None,
        }
    }

    pub open spec fn spec_from_dungeon_depth(depth: u8) -> Option<AreaId> {
        if depth == 1 {
            Some(AreaId::DungeonB1F)
        } else if depth == 2 {
            Some(AreaId::DungeonB2F)
        } else if depth == 3 {
            Some(AreaId::DungeonB3F)
        } else if depth == 4 {
            Some(AreaId::DungeonB4F)
        } else if depth == 5 {
            Some(AreaId::DungeonB5F)
        } else if depth == 6 {
            Some(AreaId::DungeonB6F)
        } else {
            None
        }
    }

    /// The dungeon floor at `depth` (1..=6); `None` for any other depth.
    pub fn from_dungeon_depth(depth: u8) -> (r: Option<AreaId>)
        ensures
            r == Self::spec_from_dungeon_depth(depth),
            r is Some <==> 1 <= depth <= MAX_DUNGEON_DEPTH,
            r matches Some(a) ==> a.spec_dungeon_depth() == Some(depth),
    {
        match depth {
            1 => Some(AreaId::DungeonB1F),
            2 => Some(AreaId::DungeonB2F),
            3 => Some(AreaId::DungeonB3F),
            4 => Some(AreaId::DungeonB4F),
            5 => Some(AreaId::DungeonB5F),
            6 => Some(AreaId::DungeonB6F),
            _ => None,
        }
    }
}

/// Depth and floor correspond one to one: the floor found for a depth has that
/// depth, and every dungeon floor is found again from its own depth.
pub proof fn lemma_dungeon_depth_round_trip(area: AreaId, depth: u8)
    ensures
        AreaId::spec_from_dungeon_depth(depth) matches Some(a) ==> a.spec_dungeon_depth() == Some(depth),
        area.spec_dungeon_depth() matches Some(d) ==> AreaId::spec_from_dungeon_depth(d) == Some(area),
        area.spec_dungeon_depth() matches Some(d) ==> 1 <= d <= MAX_DUNGEON_DEPTH,
{
}

/// The kinds of tile on a map.
#[derive(Clone, Copy, Debug, PartialEq, Eq, Structural)]
pub enum TileType {
    Wall,
    Floor,
    DoorClosed,
    DoorOpen,
    Water,
    Tree,
    Sign,
    Inn,
    Tavern,
    Shop,
    StairsDown,
    NpcGuard,
    NpcVillager,
    NpcSuspicious,
    /// The road out of town: touching it starts a journey.
    RoadExit,
    DungeonWall,
    DungeonFloor,
    IronGateClosed,
    IronGateOpen,
    ChestClosed,
    ChestOpen,
    StairsUp,
    MonsterSymbol,
}

impl TileType {
    pub open spec fn spec_glyph(self) -> char {
        match self {
            TileType::Wall => '#',
            TileType::Floor => '.',
            TileType::DoorClosed => '+',
            TileType::DoorOpen => '\'',
            TileType::Water => '~',
            TileType::Tree => '♠',
            TileType::Sign => '§',
            TileType::Inn => 'H',
            TileType::Tavern => 'T',
            TileType::Shop => 'S',
            TileType::StairsDown => '>',
            TileType::NpcGuard => 'G',
            TileType::NpcVillager => 'P',
            TileType::NpcSuspicious => '?',
            TileType::RoadExit => '=',
            TileType::DungeonWall => '▓',
            TileType::DungeonFloor => '·',
            TileType::IronGateClosed => '#',
            TileType::IronGateOpen => '/',
            TileType::ChestClosed => 'C',
            TileType::ChestOpen => 'c',
            TileType::StairsUp => '<',
            TileType::MonsterSymbol => 'M',
        }
    }

    /// The text glyph of the tile.
    pub fn glyph(&self) -> (r: char)
        ensures
            r == self.spec_glyph(),
    {
        match self {
            TileType::Wall => '#',
            TileType::Floor => '.',
            TileType::DoorClosed => '+',
            TileType::DoorOpen => '\'',
            TileType::Water => '~',
            TileType::Tree => '♠',
            TileType::Sign => '§',
            TileType::Inn => 'H',
            TileType::Tavern => 'T',
            TileType::Shop => 'S',
            TileType::StairsDown => '>',
            TileType::NpcGuard => 'G',
            TileType::NpcVillager => 'P',
            TileType::NpcSuspicious => '?',
            TileType::RoadExit => '=',
            TileType::DungeonWall => '▓',
            TileType::DungeonFloor => '·',
            TileType::IronGateClosed => '#',
            TileType::IronGateOpen => '/',
            TileType::ChestClosed => 'C',
            TileType::ChestOpen => 'c',
            TileType::StairsUp => '<',
            TileType::MonsterSymbol => 'M',
        }
    }

    pub open spec fn spec_is_walkable(self) -> bool {
        match self {
            TileType::Floor | TileType::DoorOpen | TileType::StairsDown | TileType::DungeonFloor
            | TileType::IronGateOpen | TileType::ChestOpen | TileType::StairsUp => true,
            _ => false,
        }
    }

    /// Whether the tile can be stood on.
    pub fn is_walkable(&self) -> (r: bool)
        ensures
            r == self.spec_is_walkable(),
    {
        match self {
            TileType::Floor | TileType::DoorOpen | TileType::StairsDown | TileType::DungeonFloor
            | TileType::IronGateOpen | TileType::ChestOpen | TileType::StairsUp => true,
            _ => false,
        }
    }

    pub open spec fn spec_blocks_sight(self) -> bool {
        match self {
            TileType::Wall | TileType::DoorClosed | TileType::DungeonWall
            | TileType::IronGateClosed => true,
            _ => false,
        }
    }

    /// Whether the tile stops the line of sight.
    pub fn blocks_sight(&self) -> (r: bool)
        ensures
            r == self.spec_blocks_sight(),
    {
        match self {
            TileType::Wall | TileType::DoorClosed | TileType::DungeonWall
            | TileType::IronGateClosed => true,
            _ => false,
        }
    }
}

/// A rectangular grid of tiles, stored row by row.
pub struct TownMap {
    pub width: usize,
    pub height: usize,
    pub tiles: Vec<TileType>,
}

impl TownMap {
    /// The grid holds exactly `width * height` tiles.
    pub open spec fn wf(&self) -> bool {
        self.tiles@.len() == self.width * self.height
    }

    pub open spec fn in_bounds(&self, x: int, y: int) -> bool {
        0 <= x < self.width && 0 <= y < self.height
    }

    /// The tile at `(x, y)`, or `None` outside the grid.
    pub open spec fn spec_get(&self, x: int, y: int) -> Option<TileType> {
        if self.in_bounds(x, y) {
            Some(self.tiles@[y * self.width + x])
        } else {
            None
        }
    }

    /// The grid `self` is `old` with the tile at `(x, y)` replaced by `t`.
    pub open spec fn is_set_of(&self, old: TownMap, x: int, y: int, t: TileType) -> bool {
        &&& self.width == old.width
        &&& self.height == old.height
        &&& self.wf()
        &&& forall|i: int, j: int|
            #![trigger self.spec_get(i, j)]
            self.spec_get(i, j) == if i == x && j == y { Some(t) } else { old.spec_get(i, j) }
    }

    /// A `width` by `height` grid filled with `default_tile`.
    pub fn new(width: usize, height: usize, default_tile: TileType) -> (r: Self)
        requires
            width * height <= usize::MAX,
        ensures
            r.wf(),
            r.width == width,
            r.height == height,
            forall|x: int, y: int| r.in_bounds(x, y) ==> #[trigger] r.spec_get(x, y) == Some(default_tile),
    {
        let n = width * height;
        let mut tiles: Vec<TileType> = Vec::new();
        let mut i: usize = 0;
        while i < n
            invariant
                i <= n,
                n == width * height,
                tiles@.len() == i,
                forall|k: int| 0 <= k < i ==> tiles@[k] == default_tile,
            decreases n - i,
        {
            tiles.push(default_tile);
            i = i + 1;
        }
        let r = Self { width, height, tiles };
        assert forall|x: int, y: int| r.in_bounds(x, y) implies #[trigger] r.spec_get(x, y) == Some(default_tile) by {
            lemma_cell_index(x, y, width as int, height as int);
        }
        r
    }

    /// The tile at `(x, y)`, or `None` outside the grid.
    pub fn get(&self, x: i32, y: i32) -> (r: Option<TileType>)
        requires
            self.wf(),
        ensures
            r == self.spec_get(x as int, y as int),
    {
        if x < 0 || y < 0 || x as usize >= self.width || y as usize >= self.height {
            None
        } else {
            let len = self.tiles.len();
            proof {
                lemma_cell_index(x as int, y as int, self.width as int, self.height as int);
                assert((y as usize) * self.width + (x as usize) < len);
            }
            Some(self.tiles[y as usize * self.width + x as usize])
        }
    }

    /// Replaces the tile at `(x, y)`; does nothing outside the grid.
    pub fn set(&mut self, x: i32, y: i32, tile: TileType)
        requires
            old(self).wf(),
        ensures
            final(self).width == old(self).width,
            final(self).height == old(self).height,
            final(self).wf(),
            old(self).in_bounds(x as int, y as int) ==> final(self).is_set_of(*old(self), x as int, y as int, tile),
            !old(self).in_bounds(x as int, y as int) ==> final(self).tiles@ == old(self).tiles@,
            forall|i: int, j: int|
                #![trigger final(self).spec_get(i, j)]
                final(self).spec_get(i, j) == if i == x && j == y && old(self).in_bounds(i, j) {
                    Some(tile)
                } else {
                    old(self).spec_get(i, j)
                },
    {
        if x >= 0 && y >= 0 && (x as usize) < self.width && (y as usize) < self.height {
            let len = self.tiles.len();
            proof {
                lemma_cell_index(x as int, y as int, self.width as int, self.height as int);
                assert((y as usize) * self.width + (x as usize) < len);
            }
            let idx = y as usize * self.width + x as usize;
            self.tiles.set(idx, tile);
            proof {
                assert forall|i: int, j: int|
                    #![trigger self.spec_get(i, j)]
                    self.spec_get(i, j) == if i == x && j == y && old(self).in_bounds(i, j) {
                        Some(tile)
                    } else {
                        old(self).spec_get(i, j)
                    } by {
                    if self.in_bounds(i, j) {
                        lemma_cell_index(i, j, self.width as int, self.height as int);
                        lemma_cell_index_injective(i, j, x as int, y as int, self.width as int);
                    }
                }
            }
        }
    }
}

/// The hand-made maps.
#[derive(Clone, Copy, Debug, PartialEq, Eq, Structural)]
pub enum FixedLayout {
    /// The commercial quarter of the capital Arkan.
    ArkanCapital,
    /// The nearby village Suzukake.
    SuzukakeVillage,
}

/// The width of every map.
pub const MAP_WIDTH: usize = 46;

/// The height of every map.
pub const MAP_HEIGHT: usize = 13;

pub open spec fn on_border(x: int, y: int) -> bool {
    x == 0 || x == MAP_WIDTH - 1 || y == 0 || y == MAP_HEIGHT - 1
}

/// The capital's tile at `(x, y)`: buildings to the north-west (inn and
/// tavern) and north-east (shop), a fountain and trees on the square, the
/// sealed dungeon stairs with their guard to the south-east, the back alley
/// to the south-west, and the road out on the west wall.
pub open spec fn spec_capital_tile(x: int, y: int) -> TileType {
    if x == 0 && y == 6 {
        TileType::RoadExit
    } else if (x == 15 && y == 2) || (x == 25 && y == 10) || (x == 18 && y == 7) {
        TileType::NpcVillager
    } else if x == 3 && y == 11 {
        TileType::NpcSuspicious
    } else if x == 8 && y == 10 {
        TileType::Floor
    } else if y == 10 && 1 <= x <= 14 {
        TileType::Wall
    } else if x == 37 && y == 11 {
        TileType::NpcGuard
    } else if x == 41 && y == 11 {
        TileType::StairsDown
    } else if x == 35 && y == 11 {
        TileType::DoorClosed
    } else if (x == 35 && 9 <= y <= 12) || (y == 9 && 35 <= x <= 44) {
        TileType::Wall
    } else if x == 21 && y == 9 {
        TileType::Sign
    } else if (x == 17 && y == 9) || (x == 28 && y == 9) || (x == 15 && y == 5) || (x == 30 && y == 5)
        || (x == 15 && y == 8) || (x == 30 && y == 8) || (x == 17 && y == 3) || (x == 28 && y == 3) {
        TileType::Tree
    } else if (x == 22 || x == 23) && 3 <= y <= 6 {
        TileType::Water
    } else if x == 37 && y == 1 {
        TileType::Shop
    } else if x == 37 && y == 3 {
        TileType::DoorClosed
    } else if (x == 32 && 1 <= y <= 3) || (y == 3 && 32 <= x <= 44) {
        TileType::Wall
    } else if x == 9 && y == 1 {
        TileType::Tavern
    } else if x == 3 && y == 1 {
        TileType::Inn
    } else if (x == 3 || x == 9) && y == 3 {
        TileType::DoorClosed
    } else if ((x == 6 || x == 12) && 1 <= y <= 3) || (y == 3 && 1 <= x <= 12) || on_border(x, y) {
        TileType::Wall
    } else {
        TileType::Floor
    }
}

/// The village's tile at `(x, y)`: a farmhouse in the middle of the north,
/// trees round the well, a sign, villagers, and the road out on the east wall.
pub open spec fn spec_village_tile(x: int, y: int) -> TileType {
    if (x == 30 && y == 4) || (x == 15 && y == 8) || (x == 20 && y == 1) {
        TileType::NpcVillager
    } else if x == 23 && y == 8 {
        TileType::Sign
    } else if (x == 10 || x == 35) && (y == 6 || y == 9) {
        TileType::Tree
    } else if x == 20 && y == 3 {
        TileType::DoorClosed
    } else if ((x == 18 || x == 22) && 1 <= y <= 3) || (y == 3 && 18 <= x <= 22) {
        TileType::Wall
    } else if x == MAP_WIDTH - 1 && y == 6 {
        TileType::RoadExit
    } else if on_border(x, y) {
        TileType::Wall
    } else {
        TileType::Floor
    }
}

pub open spec fn spec_layout_tile(layout: FixedLayout, x: int, y: int) -> TileType {
    match layout {
        FixedLayout::ArkanCapital => spec_capital_tile(x, y),
        FixedLayout::SuzukakeVillage => spec_village_tile(x, y),
    }
}

fn layout_tile(layout: FixedLayout, x: i32, y: i32) -> (r: TileType)
    ensures
        r == spec_layout_tile(layout, x as int, y as int),
{
    let border = x == 0 || x == 45 || y == 0 || y == 12;
    match layout {
        FixedLayout::ArkanCapital => {
            if x == 0 && y == 6 {
                TileType::RoadExit
            } else if (x == 15 && y == 2) || (x == 25 && y == 10) || (x == 18 && y == 7) {
                TileType::NpcVillager
            } else if x == 3 && y == 11 {
                TileType::NpcSuspicious
            } else if x == 8 && y == 10 {
                TileType::Floor
            } else if y == 10 && 1 <= x && x <= 14 {
                TileType::Wall
            } else if x == 37 && y == 11 {
                TileType::NpcGuard
            } else if x == 41 && y == 11 {
                TileType::StairsDown
            } else if x == 35 && y == 11 {
                TileType::DoorClosed
            } else if (x == 35 && 9 <= y && y <= 12) || (y == 9 && 35 <= x && x <= 44) {
                TileType::Wall
            } else if x == 21 && y == 9 {
                TileType::Sign
            } else if (x == 17 && y == 9) || (x == 28 && y == 9) || (x == 15 && y == 5) || (x == 30 && y == 5)
                || (x == 15 && y == 8) || (x == 30 && y == 8) || (x == 17 && y == 3) || (x == 28 && y == 3) {
                TileType::Tree
            } else if (x == 22 || x == 23) && 3 <= y && y <= 6 {
                TileType::Water
            } else if x == 37 && y == 1 {
                TileType::Shop
            } else if x == 37 && y == 3 {
                TileType::DoorClosed
            } else if (x == 32 && 1 <= y && y <= 3) || (y == 3 && 32 <= x && x <= 44) {
                TileType::Wall
            } else if x == 9 && y == 1 {
                TileType::Tavern
            } else if x == 3 && y == 1 {
                TileType::Inn
            } else if (x == 3 || x == 9) && y == 3 {
                TileType::DoorClosed
            } else if ((x == 6 || x == 12) && 1 <= y && y <= 3) || (y == 3 && 1 <= x && x <= 12) || border {
                TileType::Wall
            } else {
                TileType::Floor
            }
        },
        FixedLayout::SuzukakeVillage => {
            if (x == 30 && y == 4) || (x == 15 && y == 8) || (x == 20 && y == 1) {
                TileType::NpcVillager
            } else if x == 23 && y == 8 {
                TileType::Sign
            } else if (x == 10 || x == 35) && (y == 6 || y == 9) {
                TileType::Tree
            } else if x == 20 && y == 3 {
                TileType::DoorClosed
            } else if ((x == 18 || x == 22) && 1 <= y && y <= 3) || (y == 3 && 18 <= x && x <= 22) {
                TileType::Wall
            } else if x == 45 && y == 6 {
                TileType::RoadExit
            } else if border {
                TileType::Wall
            } else {
                TileType::Floor
            }
        },
    }
}

impl TownMap {
    /// The map drawn after `layout`, 46 by 13 tiles.
    fn build_layout(layout: FixedLayout) -> (r: Self)
        ensures
            r.wf(),
            r.width == MAP_WIDTH,
            r.height == MAP_HEIGHT,
            forall|x: int, y: int|
                r.in_bounds(x, y) ==> #[trigger] r.spec_get(x, y) == Some(spec_layout_tile(layout, x, y)),
    {
        let mut map = TownMap::new(MAP_WIDTH, MAP_HEIGHT, TileType::Floor);
        let mut y: i32 = 0;
        while y < 13
            invariant
                0 <= y <= 13,
                map.wf(),
                map.width == MAP_WIDTH,
                map.height == MAP_HEIGHT,
                forall|i: int, j: int|
                    map.in_bounds(i, j) ==> #[trigger] map.spec_get(i, j) == Some(
                        if j < y { spec_layout_tile(layout, i, j) } else { TileType::Floor },
                    ),
            decreases 13 - y,
        {
            let mut x: i32 = 0;
            while x < 46
                invariant
                    0 <= x <= 46,
                    0 <= y < 13,
                    map.wf(),
                    map.width == MAP_WIDTH,
                    map.height == MAP_HEIGHT,
                    forall|i: int, j: int|
                        map.in_bounds(i, j) ==> #[trigger] map.spec_get(i, j) == Some(
                            if j < y || (j == y && i < x) { spec_layout_tile(layout, i, j) } else { TileType::Floor },
                        ),
                decreases 46 - x,
            {
                let t = layout_tile(layout, x, y);
                map.set(x, y, t);
                x = x + 1;
            }
            y = y + 1;
        }
        map
    }

    /// The commercial quarter of the capital Arkan.
    pub fn create_arkan_capital() -> (r: Self)
        ensures
            r.wf(),
            r.width == MAP_WIDTH,
            r.height == MAP_HEIGHT,
            forall|x: int, y: int| r.in_bounds(x, y) ==> #[trigger] r.spec_get(x, y) == Some(spec_capital_tile(x, y)),
    {
        Self::build_layout(FixedLayout::ArkanCapital)
    }

    /// The village Suzukake, the first destination on the road.
    pub fn create_suzukake_village() -> (r: Self)
        ensures
            r.wf(),
            r.width == MAP_WIDTH,
            r.height == MAP_HEIGHT,
            forall|x: int, y: int| r.in_bounds(x, y) ==> #[trigger] r.spec_get(x, y) == Some(spec_village_tile(x, y)),
    {
        Self::build_layout(FixedLayout::SuzukakeVillage)
    }

    /// A fresh floor of the underground labyrinth: a 46 by 13 cave whose
    /// entrance (3, 4), where the player arrives, is always floor.
    pub fn create_dungeon_floor(rng: &mut StdRng) -> (r: Self)
        ensures
            r.wf(),
            r.width == 46,
            r.height == 13,
            dungeon_floor_ok(r, 46, 13, (3, 4)),
            exists|fills: Seq<Seq<bool>>| cave_generated(fills, 46, 13, (3, 4), r),
    {
        generate(DungeonGenKind::Cave, 46, 13, (3, 4), rng)
    }
}

/// Cells of a `w` by `h` grid have indices inside the grid.
pub proof fn lemma_cell_index(x: int, y: int, w: int, h: int)
    requires
        0 <= x < w,
        0 <= y < h,
    ensures
        0 <= y * w + x < w * h,
        y * w <= y * w + x,
        0 <= y * w,
{
    assert(0 <= y * w + x < w * h) by (nonlinear_arith)
        requires
            0 <= x < w,
            0 <= y < h,
    ;
    assert(0 <= y * w) by (nonlinear_arith)
        requires
            0 <= y,
            0 <= w,
    ;
}

/// Distinct cells have distinct indices.
pub proof fn lemma_cell_index_injective(x1: int, y1: int, x2: int, y2: int, w: int)
    requires
        0 <= x1 < w,
        0 <= x2 < w,
    ensures
        (y1 * w + x1 == y2 * w + x2) <==> (x1 == x2 && y1 == y2),
{
    if y1 * w + x1 == y2 * w + x2 {
        if y1 < y2 {
            assert(y1 * w + w <= y2 * w) by (nonlinear_arith)
                requires
                    y1 < y2,
                    0 < w,
            ;
        } else if y1 > y2 {
            assert(y2 * w + w <= y1 * w) by (nonlinear_arith)
                requires
                    y2 < y1,
                    0 < w,
            ;
        }
    }
}

} // verus!
