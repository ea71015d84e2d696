//! Procedural dungeon floors: a cellular-automaton cave, its stairs, story
//! rooms (treasury, chapel, prison) and scattered chests and a monster,
//! placed only where they cut nobody off.

use super::grid::{
    adjacent4, bfs_region, cell_in, cells_view, is_walk, lemma_reach_start, mask_at, mask_get, neighbors4,
    reach_set, reachable,
};
use super::map::{lemma_cell_index, lemma_cell_index_injective, TileType, TownMap};
use crate::rng::{random_ratio, random_u32, shuffle_cells};
use rand::rngs::StdRng;
use vstd::prelude::*;

verus! {

/// The algorithms that can lay out a floor.
#[derive(Clone, Copy, Debug, PartialEq, Eq, Structural)]
pub enum DungeonGenKind {
    /// A cave grown by a cellular automaton.
    Cave,
}

/// The chance that a cell starts as floor: 31 in 50.
pub const CAVE_FILL_NUMERATOR: u32 = 31;

pub const CAVE_FILL_DENOMINATOR: u32 = 50;

/// Smoothing passes of the automaton.
pub const CAVE_SMOOTH_ITERATIONS: usize = 4;

/// A cave whose region around the entrance is smaller than this is discarded.
pub const CAVE_MIN_FLOOR_TILES: usize = 150;

/// Caves tried before falling back to a plain corridor.
pub const CAVE_MAX_ATTEMPTS: usize = 50;

/// The side of a story room.
pub const TEMPLATE_ROOM_SIZE: i32 = 5;

/// From a story room's centre to its top-left corner.
pub const TEMPLATE_ROOM_HALF: i32 = 2;

/// Two story rooms must lie at least this much further or nearer from the entrance.
pub const TEMPLATE_MIN_DISTANCE_GAP: usize = 5;

/// `(x, y)` lies inside the outer ring of the `w` by `h` grid.
pub open spec fn interior(w: int, h: int, x: int, y: int) -> bool {
    1 <= x < w - 1 && 1 <= y < h - 1
}

/// Index of the cell `(x, y)` in a grid of width `w`.
pub fn idx(width: usize, x: i32, y: i32) -> (r: usize)
    requires
        0 <= x,
        0 <= y,
        y * width + x <= usize::MAX,
    ensures
        r == y * width + x,
{
    y as usize * width + x as usize
}

/// The dimensions every generator function works with.
/// (Coordinates and their story-room offsets stay well inside `i32`.)
pub open spec fn dims_ok(w: int, h: int) -> bool {
    &&& 0 < w <= i32::MAX - 8
    &&& 0 < h <= i32::MAX - 8
    &&& w * h < usize::MAX
}

/// Seeds the cave: each cell off the outer ring becomes floor with chance
/// 31 in 50 (row by row); the outer ring stays rock.
pub fn random_fill(width: usize, height: usize, rng: &mut StdRng) -> (r: Vec<bool>)
    requires
        dims_ok(width as int, height as int),
    ensures
        r@.len() == width * height,
        forall|x: int, y: int|
            cell_in(width as int, height as int, x, y) && !interior(width as int, height as int, x, y)
                ==> !#[trigger] mask_at(r@, width as int, height as int, x, y),
{
    let n = width * height;
    let mut floor: Vec<bool> = Vec::new();
    let mut i: usize = 0;
    while i < n
        invariant
            i <= n,
            n == width * height,
            floor@.len() == i,
            forall|j: int| 0 <= j < i ==> !floor@[j],
        decreases n - i,
    {
        floor.push(false);
        i = i + 1;
    }
    proof {
        assert forall|x: int, yy: int|
            cell_in(width as int, height as int, x, yy) && !interior(width as int, height as int, x, yy)
                implies !#[trigger] mask_at(floor@, width as int, height as int, x, yy) by {
            lemma_cell_index(x, yy, width as int, height as int);
        }
    }
    let w = width as i32;
    let h = height as i32;
    let mut y: i32 = 1;
    while y < h - 1
        invariant
            1 <= y,
            dims_ok(width as int, height as int),
            w == width,
            h == height,
            floor@.len() == width * height,
            forall|x: int, yy: int|
                cell_in(width as int, height as int, x, yy) && !interior(width as int, height as int, x, yy)
                    ==> !#[trigger] mask_at(floor@, width as int, height as int, x, yy),
        decreases h - y,
    {
        let mut x: i32 = 1;
        while x < w - 1
            invariant
                1 <= x,
                1 <= y < h - 1,
                dims_ok(width as int, height as int),
                w == width,
                h == height,
                floor@.len() == width * height,
                forall|xx: int, yy: int|
                    cell_in(width as int, height as int, xx, yy) && !interior(width as int, height as int, xx, yy)
                        ==> !#[trigger] mask_at(floor@, width as int, height as int, xx, yy),
            decreases w - x,
        {
            proof {
                lemma_cell_index(x as int, y as int, width as int, height as int);
            }
            let i = idx(width, x, y);
            let b = random_ratio(rng, CAVE_FILL_NUMERATOR, CAVE_FILL_DENOMINATOR);
            let ghost before = floor@;
            floor.set(i, b);
            proof {
                assert forall|xx: int, yy: int|
                    cell_in(width as int, height as int, xx, yy) && !interior(width as int, height as int, xx, yy)
                        implies !#[trigger] mask_at(floor@, width as int, height as int, xx, yy) by {
                    lemma_cell_index(xx, yy, width as int, height as int);
                    lemma_cell_index_injective(xx, yy, x as int, y as int, width as int);
                    assert(!mask_at(before, width as int, height as int, xx, yy));
                }
            }
            x = x + 1;
        }
        y = y + 1;
    }
    floor
}

/// How many of the eight cells around `(x, y)` are rock (off the grid counts as rock).
pub open spec fn wall_neighbors(f: Seq<bool>, w: int, h: int, x: int, y: int) -> int {
    (if mask_at(f, w, h, x - 1, y - 1) { 0int } else { 1int }) + (if mask_at(f, w, h, x, y - 1) { 0int } else { 1int })
        + (if mask_at(f, w, h, x + 1, y - 1) { 0int } else { 1int }) + (if mask_at(f, w, h, x - 1, y) {
        0int
    } else {
        1int
    }) + (if mask_at(f, w, h, x + 1, y) { 0int } else { 1int }) + (if mask_at(f, w, h, x - 1, y + 1) {
        0int
    } else {
        1int
    }) + (if mask_at(f, w, h, x, y + 1) { 0int } else { 1int }) + (if mask_at(f, w, h, x + 1, y + 1) {
        0int
    } else {
        1int
    })
}

/// One smoothing step at `(x, y)`: off the outer ring, five or more rock
/// neighbours make rock, three or fewer make floor, four keep the cell.
pub open spec fn smoothed(f: Seq<bool>, w: int, h: int, x: int, y: int) -> bool {
    if interior(w, h, x, y) {
        let n = wall_neighbors(f, w, h, x, y);
        if n >= 5 {
            false
        } else if n <= 3 {
            true
        } else {
            f[y * w + x]
        }
    } else {
        f[y * w + x]
    }
}

/// The rock neighbours of `(x, y)`.
fn count_wall_neighbors(floor: &Vec<bool>, width: usize, height: usize, x: i32, y: i32) -> (r: usize)
    requires
        floor@.len() == width * height,
        i32::MIN < x < i32::MAX,
        i32::MIN < y < i32::MAX,
    ensures
        r == wall_neighbors(floor@, width as int, height as int, x as int, y as int),
{
    let a = if mask_get(floor, width, height, x - 1, y - 1) { 0usize } else { 1usize };
    let b = if mask_get(floor, width, height, x, y - 1) { 0usize } else { 1usize };
    let c = if mask_get(floor, width, height, x + 1, y - 1) { 0usize } else { 1usize };
    let d = if mask_get(floor, width, height, x - 1, y) { 0usize } else { 1usize };
    let e = if mask_get(floor, width, height, x + 1, y) { 0usize } else { 1usize };
    let f = if mask_get(floor, width, height, x - 1, y + 1) { 0usize } else { 1usize };
    let g = if mask_get(floor, width, height, x, y + 1) { 0usize } else { 1usize };
    let k = if mask_get(floor, width, height, x + 1, y + 1) { 0usize } else { 1usize };
    a + b + c + d + e + f + g + k
}

/// One smoothing pass of the automaton over the whole grid.
pub fn smooth_step(floor: &Vec<bool>, width: usize, height: usize) -> (r: Vec<bool>)
    requires
        floor@.len() == width * height,
        dims_ok(width as int, height as int),
    ensures
        r@.len() == width * height,
        forall|x: int, y: int|
            cell_in(width as int, height as int, x, y) ==> #[trigger] r@[y * width + x] == smoothed(
                floor@,
                width as int,
                height as int,
                x,
                y,
            ),
        r@ == smooth_pass(floor@, width as int, height as int),
{
    let n = floor.len();
    let mut next: Vec<bool> = Vec::new();
    let mut i: usize = 0;
    while i < n
        invariant
            i <= n,
            n == floor@.len(),
            next@ == floor@.subrange(0, i as int),
        decreases n - i,
    {
        next.push(floor[i]);
        i = i + 1;
        assert(next@ =~= floor@.subrange(0, i as int));
    }
    assert(next@ =~= floor@);
    let w = width as i32;
    let h = height as i32;
    let ghost wi = width as int;
    let ghost hi = height as int;
    let mut y: i32 = 1;
    while y < h - 1
        invariant
            1 <= y,
            floor@.len() == width * height,
            dims_ok(wi, hi),
            wi == width,
            hi == height,
            w == width,
            h == height,
            next@.len() == width * height,
            forall|xx: int, yy: int|
                cell_in(wi, hi, xx, yy) ==> #[trigger] next@[yy * wi + xx] == if interior(wi, hi, xx, yy) && yy < y {
                    smoothed(floor@, wi, hi, xx, yy)
                } else {
                    floor@[yy * wi + xx]
                },
        decreases h - y,
    {
        let mut x: i32 = 1;
        while x < w - 1
            invariant
                1 <= x,
                1 <= y < h - 1,
                floor@.len() == width * height,
                dims_ok(wi, hi),
                wi == width,
                hi == height,
                w == width,
                h == height,
                next@.len() == width * height,
                forall|xx: int, yy: int|
                    cell_in(wi, hi, xx, yy) ==> #[trigger] next@[yy * wi + xx] == if interior(wi, hi, xx, yy) && (yy
                        < y || (yy == y && xx < x)) {
                        smoothed(floor@, wi, hi, xx, yy)
                    } else {
                        floor@[yy * wi + xx]
                    },
            decreases w - x,
        {
            proof {
                lemma_cell_index(x as int, y as int, wi, hi);
            }
            let i = idx(width, x, y);
            let walls = count_wall_neighbors(floor, width, height, x, y);
            let v = if walls >= 5 {
                false
            } else if walls <= 3 {
                true
            } else {
                floor[i]
            };
            let ghost before = next@;
            next.set(i, v);
            proof {
                assert forall|xx: int, yy: int|
                    cell_in(wi, hi, xx, yy) implies #[trigger] next@[yy * wi + xx] == if interior(wi, hi, xx, yy) && (yy
                        < y || (yy == y && xx < x + 1)) {
                        smoothed(floor@, wi, hi, xx, yy)
                    } else {
                        floor@[yy * wi + xx]
                    } by {
                    lemma_cell_index(xx, yy, wi, hi);
                    lemma_cell_index_injective(xx, yy, x as int, y as int, wi);
                    assert(before[yy * wi + xx] == if interior(wi, hi, xx, yy) && (yy < y || (yy == y && xx < x)) {
                        smoothed(floor@, wi, hi, xx, yy)
                    } else {
                        floor@[yy * wi + xx]
                    });
                }
            }
            x = x + 1;
        }
        y = y + 1;
    }
    proof {
        assert forall|j: int| 0 <= j < next@.len() implies next@[j] == smooth_pass(floor@, wi, hi)[j] by {
            lemma_index_cell(j, wi, hi);
            let xx = j % wi;
            let yy = j / wi;
            assert(next@[yy * wi + xx] == if interior(wi, hi, xx, yy) && yy < y {
                smoothed(floor@, wi, hi, xx, yy)
            } else {
                floor@[yy * wi + xx]
            });
        }
        assert(next@ =~= smooth_pass(floor@, wi, hi));
    }
    next
}

/// The floor region around `start`: the cells reachable from it over floor,
/// in breadth-first order, the start first.
pub fn flood_fill(floor: &Vec<bool>, width: usize, height: usize, start: (i32, i32)) -> (r: Vec<(i32, i32)>)
    requires
        floor@.len() == width * height,
        dims_ok(width as int, height as int),
        cell_in(width as int, height as int, start.0 as int, start.1 as int),
    ensures
        r@.len() >= 1,
        r@[0] == start,
        cells_view(r@).no_duplicates(),
        cells_view(r@).to_set() == reach_set(floor@, width as int, height as int, (start.0 as int, start.1 as int)),
        forall|k: int| 0 <= k < r@.len() ==> cell_in(width as int, height as int, (#[trigger] r@[k]).0 as int, r@[k].1 as int),
{
    bfs_region(floor, width, height, start)
}

/// Which cells of the map can be walked on.
pub open spec fn walk_mask(tiles: Seq<TileType>) -> Seq<bool> {
    tiles.map_values(|t: TileType| t.spec_is_walkable())
}

/// The cells reachable from `start` over walkable tiles (the start counts
/// even when it cannot be walked on).
pub fn walkable_region(map: &TownMap, start: (i32, i32)) -> (r: Vec<(i32, i32)>)
    requires
        map.wf(),
        dims_ok(map.width as int, map.height as int),
        cell_in(map.width as int, map.height as int, start.0 as int, start.1 as int),
    ensures
        cells_view(r@).no_duplicates(),
        cells_view(r@).to_set() == reach_set(walk_mask(map.tiles@), map.width as int, map.height as int, (start.0 as int, start.1 as int)),
        r@.len() == reach_set(walk_mask(map.tiles@), map.width as int, map.height as int, (start.0 as int, start.1 as int)).len(),
        r@.len() <= map.width * map.height,
{
    let n = map.tiles.len();
    let mut mask: Vec<bool> = Vec::new();
    let mut i: usize = 0;
    while i < n
        invariant
            i <= n,
            n == map.tiles@.len(),
            mask@ == walk_mask(map.tiles@).subrange(0, i as int),
        decreases n - i,
    {
        mask.push(map.tiles[i].is_walkable());
        i = i + 1;
        assert(mask@ =~= walk_mask(map.tiles@).subrange(0, i as int));
    }
    assert(mask@ =~= walk_mask(map.tiles@));
    let r = bfs_region(&mask, map.width, map.height, start);
    proof {
        cells_view(r@).unique_seq_to_set();
    }
    r
}

/// The cells of `region` marked on a `w` by `h` grid.
fn region_mask(region: &Vec<(i32, i32)>, width: usize, height: usize) -> (r: Vec<bool>)
    requires
        dims_ok(width as int, height as int),
        forall|k: int| 0 <= k < region@.len() ==> cell_in(width as int, height as int, (#[trigger] region@[k]).0 as int, region@[k].1 as int),
    ensures
        r@.len() == width * height,
        forall|x: int, y: int|
            #[trigger] mask_at(r@, width as int, height as int, x, y) <==> cell_in(width as int, height as int, x, y)
                && cells_view(region@).contains((x, y)),
        r@ == region_mask_seq(region@, width as int, height as int),
{
    let ghost wi = width as int;
    let ghost hi = height as int;
    let n = width * height;
    let mut mask: Vec<bool> = Vec::new();
    let mut i: usize = 0;
    while i < n
        invariant
            i <= n,
            n == width * height,
            mask@.len() == i,
            forall|j: int| 0 <= j < i ==> !mask@[j],
        decreases n - i,
    {
        mask.push(false);
        i = i + 1;
    }
    proof {
        assert(region@.take(0) =~= Seq::<(i32, i32)>::empty());
        assert forall|x: int, y: int|
            #[trigger] mask_at(mask@, wi, hi, x, y) <==> cell_in(wi, hi, x, y) && cells_view(region@.take(0)).contains((x, y)) by {
            if cell_in(wi, hi, x, y) {
                lemma_cell_index(x, y, wi, hi);
            }
        }
    }
    let mut k: usize = 0;
    while k < region.len()
        invariant
            k <= region@.len(),
            dims_ok(wi, hi),
            wi == width,
            hi == height,
            mask@.len() == width * height,
            forall|m: int| 0 <= m < region@.len() ==> cell_in(wi, hi, (#[trigger] region@[m]).0 as int, region@[m].1 as int),
            forall|x: int, y: int|
                #[trigger] mask_at(mask@, wi, hi, x, y) <==> cell_in(wi, hi, x, y) && cells_view(region@.take(k as int)).contains((x, y)),
        decreases region@.len() - k,
    {
        let c = region[k];
        proof {
            assert(region@[k as int] == c);
            lemma_cell_index(c.0 as int, c.1 as int, wi, hi);
        }
        let i = idx(width, c.0, c.1);
        let ghost before = mask@;
        mask.set(i, true);
        proof {
            assert(region@.take(k + 1) =~= region@.take(k as int).push(c));
            assert forall|x: int, y: int|
                #[trigger] mask_at(mask@, wi, hi, x, y) <==> cell_in(wi, hi, x, y) && cells_view(region@.take(k + 1)).contains((x, y)) by {
                super::grid::lemma_cells_view_push_contains(region@.take(k as int), c, (x, y));
                if cell_in(wi, hi, x, y) {
                    lemma_cell_index(x, y, wi, hi);
                    lemma_cell_index_injective(x, y, c.0 as int, c.1 as int, wi);
                    assert(mask_at(before, wi, hi, x, y) <==> cells_view(region@.take(k as int)).contains((x, y)));
                }
            }
        }
        k = k + 1;
    }
    proof {
        assert(region@.take(k as int) =~= region@);
        assert forall|x: int, y: int|
            #[trigger] mask_at(mask@, wi, hi, x, y) <==> cell_in(wi, hi, x, y) && cells_view(region@).contains((x, y)) by {
            if cell_in(wi, hi, x, y) {
                lemma_cell_index(x, y, wi, hi);
            }
        }
        assert forall|j: int| 0 <= j < mask@.len() implies mask@[j] == region_mask_seq(region@, wi, hi)[j] by {
            lemma_index_cell(j, wi, hi);
            assert(mask_at(mask@, wi, hi, j % wi, j / wi) == mask@[j]);
        }
        assert(mask@ =~= region_mask_seq(region@, wi, hi));
    }
    mask
}

/// Some walk of exactly `d` steps leads from `st` to `c`.
pub open spec fn walks_in(pass: Seq<bool>, w: int, h: int, st: (int, int), c: (int, int), d: int) -> bool {
    exists|p: Seq<(int, int)>| #[trigger] is_walk(pass, w, h, st, p) && p.len() == d + 1 && p.last() == c
}

proof fn lemma_walks_step(pass: Seq<bool>, w: int, h: int, st: (int, int), c: (int, int), d: int, n: (int, int))
    requires
        walks_in(pass, w, h, st, c, d),
        adjacent4(c, n),
        mask_at(pass, w, h, n.0, n.1),
    ensures
        walks_in(pass, w, h, st, n, d + 1),
{
    let p = choose|p: Seq<(int, int)>| #[trigger] is_walk(pass, w, h, st, p) && p.len() == d + 1 && p.last() == c;
    let q = p.push(n);
    assert forall|i: int| 1 <= i < q.len() implies adjacent4(q[i - 1], #[trigger] q[i]) && mask_at(
        pass,
        w,
        h,
        q[i].0,
        q[i].1,
    ) by {
        if i < p.len() {
            assert(q[i] == p[i] && q[i - 1] == p[i - 1]);
        }
    }
    assert(is_walk(pass, w, h, st, q));
}

/// The bookkeeping of the distance search from `st` over `pass`: marks and
/// distances agree, the start is at distance 0, every other marked cell at
/// least 1 (exactly 1 only next to the start), each distance is walked by
/// some walk, and distances stay below the number of marks.
pub open spec fn dist_ok(pass: Seq<bool>, w: int, h: int, st: (int, int), vis: Seq<bool>, dist: Seq<usize>) -> bool {
    &&& vis.len() == w * h
    &&& dist.len() == w * h
    &&& pass.len() == w * h
    &&& cell_in(w, h, st.0, st.1)
    &&& vis[st.1 * w + st.0]
    &&& dist[st.1 * w + st.0] == 0
    &&& forall|x: int, y: int|
        cell_in(w, h, x, y) ==> {
            &&& (#[trigger] vis[y * w + x] <==> dist[y * w + x] != usize::MAX)
            &&& vis[y * w + x] && (x, y) != st ==> dist[y * w + x] >= 1
            &&& vis[y * w + x] && dist[y * w + x] == 1 ==> adjacent4(st, (x, y))
            &&& vis[y * w + x] ==> walks_in(pass, w, h, st, (x, y), dist[y * w + x] as int)
            &&& vis[y * w + x] ==> dist[y * w + x] < super::grid::count_true(vis)
        }
    &&& super::grid::count_true(vis) <= w * h
}

/// Gives the unmarked passable neighbour `nb` of `c` the distance of `c` plus one.
fn dist_visit(
    pass: &Vec<bool>,
    width: usize,
    height: usize,
    vis: &mut Vec<bool>,
    dist: &mut Vec<usize>,
    queue: &mut std::collections::VecDeque<(i32, i32)>,
    c: (i32, i32),
    nb: (i32, i32),
    Ghost(st): Ghost<(int, int)>,
)
    requires
        dims_ok(width as int, height as int),
        dist_ok(pass@, width as int, height as int, st, old(vis)@, old(dist)@),
        cell_in(width as int, height as int, c.0 as int, c.1 as int),
        old(vis)@[c.1 * width + c.0],
        adjacent4((c.0 as int, c.1 as int), (nb.0 as int, nb.1 as int)),
        forall|k: int| 0 <= k < old(queue)@.len() ==> cell_in(width as int, height as int, (#[trigger] old(queue)@[k]).0 as int, old(queue)@[k].1 as int)
            && old(vis)@[old(queue)@[k].1 * width + old(queue)@[k].0],
    ensures
        dist_ok(pass@, width as int, height as int, st, final(vis)@, final(dist)@),
        forall|k: int| 0 <= k < final(queue)@.len() ==> cell_in(width as int, height as int, (#[trigger] final(queue)@[k]).0 as int, final(queue)@[k].1 as int)
            && final(vis)@[final(queue)@[k].1 * width + final(queue)@[k].0],
        forall|x: int, y: int| cell_in(width as int, height as int, x, y) && #[trigger] old(vis)@[y * width + x] ==> final(vis)@[y * width + x] && final(dist)@[y * width + x] == old(dist)@[y * width + x],
        mask_at(pass@, width as int, height as int, nb.0 as int, nb.1 as int) ==> final(vis)@[nb.1 * width + nb.0]
            && (!old(vis)@[nb.1 * width + nb.0] ==> final(dist)@[nb.1 * width + nb.0] == old(dist)@[c.1 * width + c.0] + 1),
        (final(queue)@ == old(queue)@ && final(vis)@ == old(vis)@ && final(dist)@ == old(dist)@) || (final(queue)@
            == old(queue)@.push(nb) && super::grid::count_true(final(vis)@) == super::grid::count_true(old(vis)@) + 1
            && mask_at(pass@, width as int, height as int, nb.0 as int, nb.1 as int) && final(vis)@ == old(vis)@.update(
            nb.1 * width + nb.0,
            true,
        ) && final(dist)@ == old(dist)@.update(nb.1 * width + nb.0, (old(dist)@[c.1 * width + c.0] + 1) as usize)),
{
    let ghost wi = width as int;
    let ghost hi = height as int;
    if !mask_get(pass, width, height, nb.0, nb.1) {
        return;
    }
    proof {
        lemma_cell_index(nb.0 as int, nb.1 as int, wi, hi);
        lemma_cell_index(c.0 as int, c.1 as int, wi, hi);
    }
    let ni = idx(width, nb.0, nb.1);
    if vis[ni] {
        return;
    }
    let ci = idx(width, c.0, c.1);
    let d = dist[ci];
    proof {
        assert(vis@[c.1 * wi + c.0]);
        super::grid::lemma_count_true_set(vis@, ni as int);
        lemma_walks_step(pass@, wi, hi, st, (c.0 as int, c.1 as int), d as int, (nb.0 as int, nb.1 as int));
        if d == 0 {
            assert((c.0 as int, c.1 as int) == st);
        }
    }
    let ghost vis0 = vis@;
    let ghost dist0 = dist@;
    vis.set(ni, true);
    dist.set(ni, d + 1);
    queue.push_back(nb);
    proof {
        assert forall|x: int, y: int|
            cell_in(wi, hi, x, y) implies {
                &&& (#[trigger] vis@[y * wi + x] <==> dist@[y * wi + x] != usize::MAX)
                &&& vis@[y * wi + x] && (x, y) != st ==> dist@[y * wi + x] >= 1
                &&& vis@[y * wi + x] && dist@[y * wi + x] == 1 ==> adjacent4(st, (x, y))
                &&& vis@[y * wi + x] ==> walks_in(pass@, wi, hi, st, (x, y), dist@[y * wi + x] as int)
                &&& vis@[y * wi + x] ==> dist@[y * wi + x] < super::grid::count_true(vis@)
            } by {
            lemma_cell_index(x, y, wi, hi);
            lemma_cell_index_injective(x, y, nb.0 as int, nb.1 as int, wi);
            assert(vis0[y * wi + x] <==> dist0[y * wi + x] != usize::MAX);
        }
        super::grid::lemma_count_true_bound(vis@);
        lemma_cell_index_injective(st.0, st.1, nb.0 as int, nb.1 as int, wi);
        assert forall|x: int, y: int| cell_in(wi, hi, x, y) && #[trigger] vis0[y * wi + x] implies vis@[y * wi + x] && dist@[y * wi + x] == dist0[y * wi + x] by {
            lemma_cell_index(x, y, wi, hi);
            lemma_cell_index_injective(x, y, nb.0 as int, nb.1 as int, wi);
        }
    }
}

/// `d` is the number of steps of a shortest walk from `start` to `c` over
/// cells of `region`.
pub open spec fn region_distance(region: Seq<(i32, i32)>, start: (int, int), c: (int, int), d: int) -> bool {
    &&& exists|p: Seq<(int, int)>| #[trigger] region_walk(region, start, p) && p.last() == c && p.len() == d + 1
    &&& forall|p: Seq<(int, int)>| #[trigger] region_walk(region, start, p) && p.last() == c ==> p.len() >= d + 1
}

/// No walk over cells of `region` leads from `start` to `c`.
pub open spec fn region_unreachable(region: Seq<(i32, i32)>, start: (int, int), c: (int, int)) -> bool {
    forall|p: Seq<(int, int)>| #[trigger] region_walk(region, start, p) ==> p.last() != c
}

/// What the distance search reports for `c`: its distance from `start`
/// inside the region, or `usize::MAX` when it cannot be reached.
#[verifier::opaque]
pub open spec fn distance_entry(region: Seq<(i32, i32)>, start: (int, int), c: (int, int), d: usize) -> bool {
    if d == usize::MAX {
        region_unreachable(region, start, c)
    } else {
        region_distance(region, start, c, d as int)
    }
}

/// `ex` is a cell of the region at least as far from `e` (in steps over
/// the region's cells) as every other cell of the region.
#[verifier::opaque]
pub open spec fn farthest_in_region(region: Seq<(i32, i32)>, e: (int, int), ex: (int, int)) -> bool {
    exists|d: int|
        #[trigger] region_distance(region, e, ex, d) && forall|c: (int, int), d2: int|
            cells_view(region).contains(c) && #[trigger] region_distance(region, e, c, d2) ==> d2 <= d
}

/// The distance recorded for the `k`-th cell of the queue.
spec fn queued_dist(dist: Seq<usize>, w: int, q: Seq<(i32, i32)>, k: int) -> int {
    dist[q[k].1 * w + q[k].0] as int
}

/// Every passable neighbour of the processed cell `(x, y)` is marked, at
/// most one step further away.
spec fn closed_cell_ok(pass: Seq<bool>, w: int, h: int, vis: Seq<bool>, dist: Seq<usize>, x: int, y: int) -> bool {
    forall|nx: int, ny: int|
        #![trigger mask_at(pass, w, h, nx, ny), adjacent4((x, y), (nx, ny))]
        mask_at(pass, w, h, nx, ny) && adjacent4((x, y), (nx, ny)) ==> vis[ny * w + nx] && dist[ny * w + nx] <= dist[y * w + x] + 1
}

/// The queue's distances never decrease from front to back and span at
/// most one step.
spec fn queue_sorted(dist: Seq<usize>, w: int, q: Seq<(i32, i32)>) -> bool {
    &&& forall|i: int, j: int| 0 <= i < j < q.len() ==> #[trigger] queued_dist(dist, w, q, i) <= #[trigger] queued_dist(dist, w, q, j)
    &&& q.len() > 0 ==> queued_dist(dist, w, q, q.len() - 1) <= queued_dist(dist, w, q, 0) + 1
}

/// The bookkeeping of the breadth-first search: the distances are sound
/// (`dist_ok`), the queue holds marked cells in order of distance, every
/// processed cell is no further than any queued one and has all its
/// passable neighbours marked at most one step further, and every marked
/// cell not yet processed waits in the queue.
spec fn bfs_ok(pass: Seq<bool>, w: int, h: int, st: (int, int), vis: Seq<bool>, dist: Seq<usize>, q: Seq<(i32, i32)>, closed: Seq<bool>) -> bool {
    &&& dist_ok(pass, w, h, st, vis, dist)
    &&& closed.len() == w * h
    &&& forall|k: int| 0 <= k < q.len() ==> cell_in(w, h, (#[trigger] q[k]).0 as int, q[k].1 as int) && vis[q[k].1 * w + q[k].0]
    &&& queue_sorted(dist, w, q)
    &&& forall|x: int, y: int|
        cell_in(w, h, x, y) && #[trigger] closed[y * w + x] ==> {
            &&& vis[y * w + x]
            &&& closed_cell_ok(pass, w, h, vis, dist, x, y)
            &&& forall|k: int| 0 <= k < q.len() ==> dist[y * w + x] <= #[trigger] queued_dist(dist, w, q, k)
        }
    &&& forall|x: int, y: int|
        cell_in(w, h, x, y) && #[trigger] vis[y * w + x] && !closed[y * w + x] ==> exists|k: int|
            0 <= k < q.len() && (#[trigger] q[k]).0 == x && q[k].1 == y
}

/// A walk over the region's cells is a walk over a mask that marks exactly
/// those cells, and the other way round.
proof fn lemma_region_walk_is_walk(region: Seq<(i32, i32)>, mask: Seq<bool>, w: int, h: int, st: (int, int), p: Seq<(int, int)>)
    requires
        forall|k: int| 0 <= k < region.len() ==> cell_in(w, h, (#[trigger] region[k]).0 as int, region[k].1 as int),
        forall|x: int, y: int| #[trigger] mask_at(mask, w, h, x, y) <==> cell_in(w, h, x, y) && cells_view(region).contains((x, y)),
    ensures
        region_walk(region, st, p) <==> is_walk(mask, w, h, st, p),
{
    if region_walk(region, st, p) {
        assert forall|i: int| 1 <= i < p.len() implies adjacent4(p[i - 1], #[trigger] p[i]) && mask_at(mask, w, h, p[i].0, p[i].1) by {
            let k = choose|k: int| 0 <= k < cells_view(region).len() && cells_view(region)[k] == p[i];
            assert(cells_view(region)[k] == (region[k].0 as int, region[k].1 as int));
        }
    }
    if is_walk(mask, w, h, st, p) {
        assert forall|i: int| 1 <= i < p.len() implies adjacent4(p[i - 1], #[trigger] p[i]) && cells_view(region).contains(p[i]) by {
            assert(mask_at(mask, w, h, p[i].0, p[i].1));
        }
    }
}

/// Once every marked cell is processed, each cell of a walk from the start
/// is marked no further away than its place on the walk.
proof fn lemma_walk_within_dist(pass: Seq<bool>, w: int, h: int, st: (int, int), vis: Seq<bool>, dist: Seq<usize>, p: Seq<(int, int)>, i: int)
    requires
        cell_in(w, h, st.0, st.1),
        vis[st.1 * w + st.0],
        dist[st.1 * w + st.0] == 0,
        forall|x: int, y: int| cell_in(w, h, x, y) && #[trigger] vis[y * w + x] ==> closed_cell_ok(pass, w, h, vis, dist, x, y),
        is_walk(pass, w, h, st, p),
        0 <= i < p.len(),
    ensures
        cell_in(w, h, p[i].0, p[i].1),
        vis[p[i].1 * w + p[i].0],
        dist[p[i].1 * w + p[i].0] <= i,
    decreases i,
{
    if i > 0 {
        lemma_walk_within_dist(pass, w, h, st, vis, dist, p, i - 1);
        let a = p[i - 1];
        let b = p[i];
        assert(adjacent4(a, b) && mask_at(pass, w, h, b.0, b.1));
        assert(closed_cell_ok(pass, w, h, vis, dist, a.0, a.1));
        assert(mask_at(pass, w, h, b.0, b.1) && adjacent4((a.0, a.1), (b.0, b.1)));
    }
}

/// The bookkeeping while the neighbours of the processed cell `cv` (at
/// distance `dd`) are looked at: as `bfs_ok`, except that `cv` itself is
/// off the queue and not yet processed, the queue spans `dd` to `dd + 1`,
/// and processed cells are no further than `dd`.
spec fn bfs_round_ok(
    pass: Seq<bool>,
    w: int,
    h: int,
    st: (int, int),
    vis: Seq<bool>,
    dist: Seq<usize>,
    q: Seq<(i32, i32)>,
    closed: Seq<bool>,
    cv: (int, int),
    dd: int,
) -> bool {
    &&& dist_ok(pass, w, h, st, vis, dist)
    &&& closed.len() == w * h
    &&& cell_in(w, h, cv.0, cv.1)
    &&& vis[cv.1 * w + cv.0]
    &&& dist[cv.1 * w + cv.0] == dd
    &&& forall|m: int| 0 <= m < q.len() ==> cell_in(w, h, (#[trigger] q[m]).0 as int, q[m].1 as int) && vis[q[m].1 * w + q[m].0]
    &&& forall|m: int| 0 <= m < q.len() ==> dd <= #[trigger] queued_dist(dist, w, q, m) <= dd + 1
    &&& forall|a: int, b: int| 0 <= a < b < q.len() ==> #[trigger] queued_dist(dist, w, q, a) <= #[trigger] queued_dist(dist, w, q, b)
    &&& forall|x: int, y: int|
        cell_in(w, h, x, y) && #[trigger] closed[y * w + x] ==> vis[y * w + x] && closed_cell_ok(pass, w, h, vis, dist, x, y)
            && dist[y * w + x] <= dd
    &&& forall|x: int, y: int|
        cell_in(w, h, x, y) && #[trigger] vis[y * w + x] && !closed[y * w + x] ==> (x, y) == cv || exists|m: int|
            0 <= m < q.len() && (#[trigger] q[m]).0 == x && q[m].1 == y
}

/// Looks at the neighbour `nb` of the cell `c` being processed: afterwards
/// it is marked (if passable) at most one step further than `c`.
fn bfs_visit(
    mask: &Vec<bool>,
    width: usize,
    height: usize,
    vis: &mut Vec<bool>,
    dist: &mut Vec<usize>,
    queue: &mut std::collections::VecDeque<(i32, i32)>,
    c: (i32, i32),
    nb: (i32, i32),
    Ghost(st): Ghost<(int, int)>,
    Ghost(closed): Ghost<Seq<bool>>,
    Ghost(dd): Ghost<int>,
)
    requires
        dims_ok(width as int, height as int),
        mask@.len() == width * height,
        adjacent4((c.0 as int, c.1 as int), (nb.0 as int, nb.1 as int)),
        bfs_round_ok(mask@, width as int, height as int, st, old(vis)@, old(dist)@, old(queue)@, closed, (c.0 as int, c.1 as int), dd),
    ensures
        bfs_round_ok(mask@, width as int, height as int, st, final(vis)@, final(dist)@, final(queue)@, closed, (c.0 as int, c.1 as int), dd),
        forall|x: int, y: int| cell_in(width as int, height as int, x, y) && #[trigger] old(vis)@[y * width + x]
            ==> final(vis)@[y * width + x] && final(dist)@[y * width + x] == old(dist)@[y * width + x],
        mask_at(mask@, width as int, height as int, nb.0 as int, nb.1 as int) ==> final(vis)@[nb.1 * width + nb.0]
            && final(dist)@[nb.1 * width + nb.0] <= dd + 1,
        super::grid::count_true(final(vis)@) >= super::grid::count_true(old(vis)@),
        final(queue)@.len() >= old(queue)@.len(),
        final(queue)@.len() > old(queue)@.len() ==> super::grid::count_true(final(vis)@) > super::grid::count_true(old(vis)@),
{
    let ghost wi = width as int;
    let ghost hi = height as int;
    let ghost cv = (c.0 as int, c.1 as int);
    let ghost nv = (nb.0 as int, nb.1 as int);
    let ghost vis_before = vis@;
    let ghost dist_before = dist@;
    let ghost q_before = queue@;
    proof {
        lemma_cell_index(cv.0, cv.1, wi, hi);
        assert forall|k: int| 0 <= k < queue@.len() implies cell_in(wi, hi, (#[trigger] queue@[k]).0 as int, queue@[k].1 as int)
            && vis@[queue@[k].1 * wi + queue@[k].0] by {
        }
    }
    dist_visit(mask, width, height, vis, dist, queue, c, nb, Ghost(st));
    proof {
        assert forall|x: int, y: int| cell_in(wi, hi, x, y) && #[trigger] vis_before[y * wi + x] implies vis@[y * wi + x]
            && dist@[y * wi + x] == dist_before[y * wi + x] by {
        }
        if queue@ != q_before {
            lemma_cell_index(nv.0, nv.1, wi, hi);
            assert(queue@ == q_before.push(nb));
            assert(queued_dist(dist@, wi, queue@, queue@.len() - 1) == dd + 1);
            assert forall|m: int| 0 <= m < q_before.len() implies #[trigger] queued_dist(dist@, wi, queue@, m)
                == queued_dist(dist_before, wi, q_before, m) by {
                assert(queue@[m] == q_before[m]);
                lemma_cell_index(q_before[m].0 as int, q_before[m].1 as int, wi, hi);
                lemma_cell_index_injective(q_before[m].0 as int, q_before[m].1 as int, nv.0, nv.1, wi);
            }
            assert forall|m: int| 0 <= m < queue@.len() implies dd <= #[trigger] queued_dist(dist@, wi, queue@, m) <= dd + 1 by {
                if m < q_before.len() {
                    assert(queued_dist(dist_before, wi, q_before, m) <= dd + 1);
                }
            }
            assert forall|a: int, b: int| 0 <= a < b < queue@.len() implies #[trigger] queued_dist(dist@, wi, queue@, a)
                <= #[trigger] queued_dist(dist@, wi, queue@, b) by {
                assert(queued_dist(dist_before, wi, q_before, a) <= dd + 1);
                if b < q_before.len() {
                    assert(queued_dist(dist_before, wi, q_before, a) <= queued_dist(dist_before, wi, q_before, b));
                }
            }
        } else {
            assert forall|m: int| 0 <= m < q_before.len() implies #[trigger] queued_dist(dist@, wi, queue@, m)
                == queued_dist(dist_before, wi, q_before, m) by {
            }
        }
        assert forall|x: int, y: int|
            cell_in(wi, hi, x, y) && #[trigger] closed[y * wi + x] implies vis@[y * wi + x] && closed_cell_ok(mask@, wi, hi, vis@, dist@, x, y)
                && dist@[y * wi + x] <= dd by {
            assert(closed_cell_ok(mask@, wi, hi, vis_before, dist_before, x, y));
            assert forall|nx: int, ny: int|
                #![trigger mask_at(mask@, wi, hi, nx, ny), adjacent4((x, y), (nx, ny))]
                mask_at(mask@, wi, hi, nx, ny) && adjacent4((x, y), (nx, ny)) implies vis@[ny * wi + nx]
                    && dist@[ny * wi + nx] <= dist@[y * wi + x] + 1 by {
                assert(vis_before[ny * wi + nx]);
            }
        }
        assert forall|x: int, y: int|
            cell_in(wi, hi, x, y) && #[trigger] vis@[y * wi + x] && !closed[y * wi + x] implies (x, y) == cv || exists|m: int|
                0 <= m < queue@.len() && (#[trigger] queue@[m]).0 == x && queue@[m].1 == y by {
            lemma_cell_index(x, y, wi, hi);
            if vis_before[y * wi + x] {
                if (x, y) != cv {
                    let m = choose|m: int| 0 <= m < q_before.len() && (#[trigger] q_before[m]).0 == x && q_before[m].1 == y;
                    assert(queue@[m] == q_before[m]);
                }
            } else {
                lemma_cell_index(nv.0, nv.1, wi, hi);
                lemma_cell_index_injective(x, y, nv.0, nv.1, wi);
                assert(queue@[queue@.len() - 1] == nb);
            }
        }
        if mask_at(mask@, wi, hi, nv.0, nv.1) {
            lemma_cell_index(nv.0, nv.1, wi, hi);
            if vis_before[nv.1 * wi + nv.0] {
                if !closed[nv.1 * wi + nv.0] {
                    assert(nv != cv);
                    let m = choose|m: int| 0 <= m < q_before.len() && (#[trigger] q_before[m]).0 == nv.0 && q_before[m].1 == nv.1;
                    assert(queued_dist(dist_before, wi, q_before, m) <= dd + 1);
                }
            }
        }
    }
}

/// Once every neighbour of `cv` has been looked at, marking `cv` processed
/// restores the search's bookkeeping.
proof fn lemma_bfs_close(
    pass: Seq<bool>,
    w: int,
    h: int,
    st: (int, int),
    vis: Seq<bool>,
    dist: Seq<usize>,
    q: Seq<(i32, i32)>,
    closed: Seq<bool>,
    cv: (int, int),
    dd: int,
)
    requires
        dims_ok(w, h),
        bfs_round_ok(pass, w, h, st, vis, dist, q, closed, cv, dd),
        closed_cell_ok(pass, w, h, vis, dist, cv.0, cv.1),
    ensures
        bfs_ok(pass, w, h, st, vis, dist, q, closed.update(cv.1 * w + cv.0, true)),
{
    let ci = cv.1 * w + cv.0;
    let closed2 = closed.update(ci, true);
    lemma_cell_index(cv.0, cv.1, w, h);
    assert forall|x: int, y: int|
        cell_in(w, h, x, y) && #[trigger] closed2[y * w + x] implies {
            &&& vis[y * w + x]
            &&& closed_cell_ok(pass, w, h, vis, dist, x, y)
            &&& forall|m: int| 0 <= m < q.len() ==> dist[y * w + x] <= #[trigger] queued_dist(dist, w, q, m)
        } by {
        lemma_cell_index(x, y, w, h);
        lemma_cell_index_injective(x, y, cv.0, cv.1, w);
        if (x, y) != cv {
            assert(closed[y * w + x]);
        }
    }
    assert forall|x: int, y: int|
        cell_in(w, h, x, y) && #[trigger] vis[y * w + x] && !closed2[y * w + x] implies exists|m: int|
            0 <= m < q.len() && (#[trigger] q[m]).0 == x && q[m].1 == y by {
        lemma_cell_index(x, y, w, h);
        lemma_cell_index_injective(x, y, cv.0, cv.1, w);
        assert(!closed[y * w + x]);
    }
    if q.len() > 0 {
        assert(queued_dist(dist, w, q, q.len() - 1) <= dd + 1);
        assert(dd <= queued_dist(dist, w, q, 0));
    }
    assert(queue_sorted(dist, w, q));
}

/// Taking the front cell `q0[0]` (at distance `dd`) off the queue enters
/// the round in which its neighbours are looked at.
proof fn lemma_bfs_pop(
    pass: Seq<bool>,
    w: int,
    h: int,
    st: (int, int),
    vis: Seq<bool>,
    dist: Seq<usize>,
    q0: Seq<(i32, i32)>,
    q: Seq<(i32, i32)>,
    closed: Seq<bool>,
)
    requires
        dims_ok(w, h),
        q0.len() > 0,
        q == q0.subrange(1, q0.len() as int),
        bfs_ok(pass, w, h, st, vis, dist, q0, closed),
    ensures
        bfs_round_ok(pass, w, h, st, vis, dist, q, closed, (q0[0].0 as int, q0[0].1 as int),
            dist[q0[0].1 * w + q0[0].0] as int),
{
    let wi = w;
    let hi = h;
    let cv = (q0[0].0 as int, q0[0].1 as int);
    let dd = dist[q0[0].1 * w + q0[0].0] as int;
    lemma_cell_index(cv.0, cv.1, wi, hi);
    assert(queued_dist(dist, wi, q0, 0) == dd);
    assert forall|m: int| 0 <= m < q.len() implies cell_in(wi, hi, (#[trigger] q[m]).0 as int, q[m].1 as int)
        && vis[q[m].1 * wi + q[m].0] by {
        assert(q[m] == q0[m + 1]);
    }
    assert forall|m: int| 0 <= m < q.len() implies dd <= #[trigger] queued_dist(dist, wi, q, m) <= dd + 1 by {
        assert(q[m] == q0[m + 1]);
        assert(queued_dist(dist, wi, q, m) == queued_dist(dist, wi, q0, m + 1));
        assert(queued_dist(dist, wi, q0, 0) <= queued_dist(dist, wi, q0, m + 1));
        assert(queued_dist(dist, wi, q0, m + 1) <= queued_dist(dist, wi, q0, q0.len() - 1));
    }
    assert forall|a: int, b: int| 0 <= a < b < q.len() implies #[trigger] queued_dist(dist, wi, q, a)
        <= #[trigger] queued_dist(dist, wi, q, b) by {
        assert(q[a] == q0[a + 1]);
        assert(q[b] == q0[b + 1]);
        assert(queued_dist(dist, wi, q0, a + 1) <= queued_dist(dist, wi, q0, b + 1));
    }
    assert forall|x: int, y: int|
        cell_in(wi, hi, x, y) && #[trigger] closed[y * wi + x] implies vis[y * wi + x] && closed_cell_ok(pass, wi, hi, vis, dist, x, y)
            && dist[y * wi + x] <= dd by {
        assert(dist[y * wi + x] <= queued_dist(dist, wi, q0, 0));
    }
    assert forall|x: int, y: int|
        cell_in(wi, hi, x, y) && #[trigger] vis[y * wi + x] && !closed[y * wi + x] implies (x, y) == cv || exists|m: int|
            0 <= m < q.len() && (#[trigger] q[m]).0 == x && q[m].1 == y by {
        let m = choose|m: int| 0 <= m < q0.len() && (#[trigger] q0[m]).0 == x && q0[m].1 == y;
        if m > 0 {
            assert(q[m - 1] == q0[m]);
        }
    }
}

/// Takes the front cell off the queue and marks its unmarked passable
/// neighbours one step further, queueing them; the cell is then processed.
fn bfs_process(
    mask: &Vec<bool>,
    width: usize,
    height: usize,
    vis: &mut Vec<bool>,
    dist: &mut Vec<usize>,
    queue: &mut std::collections::VecDeque<(i32, i32)>,
    Ghost(st): Ghost<(int, int)>,
    Ghost(closed): Ghost<Seq<bool>>,
) -> (closed_after: Ghost<Seq<bool>>)
    requires
        dims_ok(width as int, height as int),
        mask@.len() == width * height,
        old(queue)@.len() > 0,
        bfs_ok(mask@, width as int, height as int, st, old(vis)@, old(dist)@, old(queue)@, closed),
    ensures
        bfs_ok(mask@, width as int, height as int, st, final(vis)@, final(dist)@, final(queue)@, closed_after@),
        super::grid::count_true(final(vis)@) > super::grid::count_true(old(vis)@)
            || (super::grid::count_true(final(vis)@) == super::grid::count_true(old(vis)@)
                && final(queue)@.len() < old(queue)@.len()),
{
    let ghost wi = width as int;
    let ghost hi = height as int;
    let ghost q0 = queue@;
    let ghost vis0 = vis@;
    let c = queue.pop_front().unwrap();
    let ghost cv = (c.0 as int, c.1 as int);
    let ghost ci = c.1 * wi + c.0;
    let ghost dd = dist@[ci] as int;
    proof {
        assert(q0[0] == c);
        assert(queue@ =~= q0.subrange(1, q0.len() as int));
        lemma_bfs_pop(mask@, wi, hi, st, vis@, dist@, q0, queue@, closed);
    }
    let nbs = neighbors4(c.0, c.1);
    let ghost count_start = super::grid::count_true(vis@);
    let ghost qlen_start = queue@.len();
    let mut k: usize = 0;
    while k < 4
        invariant
            0 <= k <= 4,
            dims_ok(wi, hi),
            wi == width,
            hi == height,
            mask@.len() == width * height,
            cv == (c.0 as int, c.1 as int),
            nbs@ == seq![(c.0, (c.1 - 1) as i32), (c.0, (c.1 + 1) as i32), ((c.0 - 1) as i32, c.1), ((c.0 + 1) as i32, c.1)],
            bfs_round_ok(mask@, wi, hi, st, vis@, dist@, queue@, closed, cv, dd),
            forall|m: int|
                0 <= m < k && mask_at(mask@, wi, hi, (#[trigger] nbs@[m]).0 as int, nbs@[m].1 as int)
                    ==> vis@[nbs@[m].1 * wi + nbs@[m].0] && dist@[nbs@[m].1 * wi + nbs@[m].0] <= dd + 1,
            super::grid::count_true(vis@) >= count_start,
            queue@.len() >= qlen_start,
            queue@.len() > qlen_start ==> super::grid::count_true(vis@) > count_start,
        decreases 4 - k,
    {
        let nb = nbs[k];
        let ghost vis_before = vis@;
        let ghost dist_before = dist@;
        bfs_visit(mask, width, height, vis, dist, queue, c, nb, Ghost(st), Ghost(closed), Ghost(dd));
        proof {
            assert forall|m: int|
                0 <= m < k + 1 && mask_at(mask@, wi, hi, (#[trigger] nbs@[m]).0 as int, nbs@[m].1 as int)
                    implies vis@[nbs@[m].1 * wi + nbs@[m].0] && dist@[nbs@[m].1 * wi + nbs@[m].0] <= dd + 1 by {
                if m < k {
                    assert(vis_before[nbs@[m].1 * wi + nbs@[m].0]);
                }
            }
        }
        k = k + 1;
    }
    proof {
        assert(closed_cell_ok(mask@, wi, hi, vis@, dist@, cv.0, cv.1)) by {
            assert forall|nx: int, ny: int|
                #![trigger mask_at(mask@, wi, hi, nx, ny), adjacent4((cv.0, cv.1), (nx, ny))]
                mask_at(mask@, wi, hi, nx, ny) && adjacent4((cv.0, cv.1), (nx, ny)) implies vis@[ny * wi + nx]
                    && dist@[ny * wi + nx] <= dist@[cv.1 * wi + cv.0] + 1 by {
                if (nx, ny) == (cv.0, cv.1 - 1) {
                    assert(nbs@[0] == (c.0, (c.1 - 1) as i32));
                } else if (nx, ny) == (cv.0, cv.1 + 1) {
                    assert(nbs@[1] == (c.0, (c.1 + 1) as i32));
                } else if (nx, ny) == (cv.0 - 1, cv.1) {
                    assert(nbs@[2] == ((c.0 - 1) as i32, c.1));
                } else {
                    assert(nbs@[3] == ((c.0 + 1) as i32, c.1));
                }
            }
        }
        lemma_bfs_close(mask@, wi, hi, st, vis@, dist@, queue@, closed, cv, dd);
    }
    Ghost(closed.update(ci, true))
}

/// Each cell of `region` (which starts with `start`) paired with its
/// distance from `start`: the number of steps of a shortest walk over
/// cells of the region, or `usize::MAX` for a cell no such walk reaches.
/// Pairs come in the region's order.
pub fn bfs_distances(region: &Vec<(i32, i32)>, width: usize, height: usize, start: (i32, i32)) -> (r: Vec<((i32, i32), usize)>)
    requires
        dims_ok(width as int, height as int),
        region@.len() >= 1,
        region@[0] == start,
        forall|k: int| 0 <= k < region@.len() ==> cell_in(width as int, height as int, (#[trigger] region@[k]).0 as int, region@[k].1 as int),
    ensures
        r@.len() == region@.len(),
        forall|k: int| 0 <= k < r@.len() ==> (#[trigger] r@[k]).0 == region@[k],
        forall|k: int| 0 <= k < r@.len() ==> distance_entry(
            region@,
            (start.0 as int, start.1 as int),
            ((#[trigger] r@[k]).0.0 as int, r@[k].0.1 as int),
            r@[k].1,
        ),
        forall|k: int| 0 <= k < r@.len() && (#[trigger] r@[k]).0 == start ==> r@[k].1 == 0,
        forall|k: int| 0 <= k < r@.len() && (#[trigger] r@[k]).0 != start ==> r@[k].1 >= 1,
        forall|k: int|
            0 <= k < r@.len() && adjacent4((start.0 as int, start.1 as int), ((#[trigger] r@[k]).0.0 as int, r@[k].0.1 as int))
                ==> r@[k].1 == 1,
        forall|k: int|
            0 <= k < r@.len() && (#[trigger] r@[k]).0 != start && !adjacent4((start.0 as int, start.1 as int), (r@[k].0.0 as int, r@[k].0.1 as int))
                ==> r@[k].1 >= 2,
{
    let ghost wi = width as int;
    let ghost hi = height as int;
    let ghost st = (start.0 as int, start.1 as int);
    let mask = region_mask(region, width, height);
    let n = width * height;
    let mut vis: Vec<bool> = Vec::new();
    let mut dist: Vec<usize> = Vec::new();
    let mut i: usize = 0;
    while i < n
        invariant
            i <= n,
            n == width * height,
            vis@.len() == i,
            dist@.len() == i,
            forall|j: int| 0 <= j < i ==> !vis@[j] && dist@[j] == usize::MAX,
        decreases n - i,
    {
        vis.push(false);
        dist.push(usize::MAX);
        i = i + 1;
    }
    proof {
        assert(region@[0] == start);
        lemma_cell_index(st.0, st.1, wi, hi);
        assert(super::grid::count_true(vis@) == 0) by {
            lemma_count_true_all_false(vis@);
        }
        super::grid::lemma_count_true_set(vis@, st.1 * wi + st.0);
    }
    let si = idx(width, start.0, start.1);
    let ghost vis0 = vis@;
    let ghost dist0 = dist@;
    vis.set(si, true);
    dist.set(si, 0);
    let mut queue: std::collections::VecDeque<(i32, i32)> = std::collections::VecDeque::new();
    queue.push_back(start);
    let ghost mut closed: Seq<bool> = Seq::new((wi * hi) as nat, |j: int| false);
    proof {
        lemma_reach_start(mask@, wi, hi, st);
        assert(is_walk(mask@, wi, hi, st, seq![st]));
        assert(walks_in(mask@, wi, hi, st, st, 0));
        assert forall|x: int, y: int|
            cell_in(wi, hi, x, y) implies {
                &&& (#[trigger] vis@[y * wi + x] <==> dist@[y * wi + x] != usize::MAX)
                &&& vis@[y * wi + x] && (x, y) != st ==> dist@[y * wi + x] >= 1
                &&& vis@[y * wi + x] && dist@[y * wi + x] == 1 ==> adjacent4(st, (x, y))
                &&& vis@[y * wi + x] ==> walks_in(mask@, wi, hi, st, (x, y), dist@[y * wi + x] as int)
                &&& vis@[y * wi + x] ==> dist@[y * wi + x] < super::grid::count_true(vis@)
            } by {
            lemma_cell_index(x, y, wi, hi);
            lemma_cell_index_injective(x, y, st.0, st.1, wi);
        }
        super::grid::lemma_count_true_bound(vis@);
        assert forall|x: int, y: int|
            cell_in(wi, hi, x, y) && #[trigger] vis@[y * wi + x] && !closed[y * wi + x] implies exists|k: int|
                0 <= k < queue@.len() && (#[trigger] queue@[k]).0 == x && queue@[k].1 == y by {
            lemma_cell_index(x, y, wi, hi);
            lemma_cell_index_injective(x, y, st.0, st.1, wi);
            assert(queue@[0] == start);
        }
        assert forall|x: int, y: int| cell_in(wi, hi, x, y) implies !#[trigger] closed[y * wi + x] by {
            lemma_cell_index(x, y, wi, hi);
        }
    }
    while queue.len() > 0
        invariant
            dims_ok(wi, hi),
            wi == width,
            hi == height,
            st == (start.0 as int, start.1 as int),
            mask@.len() == width * height,
            bfs_ok(mask@, wi, hi, st, vis@, dist@, queue@, closed),
        decreases width * height - super::grid::count_true(vis@), queue@.len(),
    {
        let ghost count0 = super::grid::count_true(vis@);
        let ghost qlen0 = queue@.len();
        let Ghost(next) = bfs_process(&mask, width, height, &mut vis, &mut dist, &mut queue, Ghost(st), Ghost(closed));
        proof {
            closed = next;
        }
    }
    proof {
        // Every marked cell has been processed.
        assert forall|x: int, y: int| cell_in(wi, hi, x, y) && #[trigger] vis@[y * wi + x] implies closed_cell_ok(mask@, wi, hi, vis@, dist@, x, y) by {
            if !closed[y * wi + x] {
                let m = choose|m: int| 0 <= m < queue@.len() && (#[trigger] queue@[m]).0 == x && queue@[m].1 == y;
            }
        }
        lemma_cell_index(st.0, st.1, wi, hi);
    }
    let mut r: Vec<((i32, i32), usize)> = Vec::new();
    let mut j: usize = 0;
    while j < region.len()
        invariant
            j <= region@.len(),
            dims_ok(wi, hi),
            wi == width,
            hi == height,
            st == (start.0 as int, start.1 as int),
            region@[0] == start,
            forall|m: int| 0 <= m < region@.len() ==> cell_in(wi, hi, (#[trigger] region@[m]).0 as int, region@[m].1 as int),
            forall|x: int, y: int| #[trigger] mask_at(mask@, wi, hi, x, y) <==> cell_in(wi, hi, x, y) && cells_view(region@).contains((x, y)),
            mask@.len() == width * height,
            dist_ok(mask@, wi, hi, st, vis@, dist@),
            forall|x: int, y: int| cell_in(wi, hi, x, y) && #[trigger] vis@[y * wi + x] ==> closed_cell_ok(mask@, wi, hi, vis@, dist@, x, y),
            r@.len() == j,
            forall|m: int| 0 <= m < j ==> (#[trigger] r@[m]).0 == region@[m] && r@[m].1 == dist@[region@[m].1 * wi + region@[m].0],
        decreases region@.len() - j,
    {
        let c = region[j];
        proof {
            assert(region@[j as int] == c);
            lemma_cell_index(c.0 as int, c.1 as int, wi, hi);
        }
        let ci = idx(width, c.0, c.1);
        r.push((c, dist[ci]));
        j = j + 1;
    }
    proof {
        reveal(distance_entry);
        lemma_cell_index(st.0, st.1, wi, hi);
        assert forall|k: int| 0 <= k < r@.len() implies {
                &&& distance_entry(region@, st, ((#[trigger] r@[k]).0.0 as int, r@[k].0.1 as int), r@[k].1)
                &&& (r@[k].0 == start ==> r@[k].1 == 0)
                &&& (r@[k].0 != start ==> r@[k].1 >= 1)
                &&& (adjacent4(st, (r@[k].0.0 as int, r@[k].0.1 as int)) ==> r@[k].1 == 1)
                &&& (r@[k].0 != start && !adjacent4(st, (r@[k].0.0 as int, r@[k].0.1 as int)) ==> r@[k].1 >= 2)
            } by {
            let c = region@[k];
            let cv = (c.0 as int, c.1 as int);
            lemma_cell_index(cv.0, cv.1, wi, hi);
            assert(cells_view(region@)[k] == cv);
            assert(mask_at(mask@, wi, hi, cv.0, cv.1));
            let ci = cv.1 * wi + cv.0;
            if vis@[ci] {
                let d = dist@[ci] as int;
                let p = choose|p: Seq<(int, int)>| #[trigger] is_walk(mask@, wi, hi, st, p) && p.len() == d + 1 && p.last() == cv;
                lemma_region_walk_is_walk(region@, mask@, wi, hi, st, p);
                assert forall|q: Seq<(int, int)>| #[trigger] region_walk(region@, st, q) && q.last() == cv implies q.len() >= d + 1 by {
                    lemma_region_walk_is_walk(region@, mask@, wi, hi, st, q);
                    lemma_walk_within_dist(mask@, wi, hi, st, vis@, dist@, q, q.len() - 1);
                }
                if cv != st && !adjacent4(st, cv) {
                    lemma_walk_length_two(mask@, wi, hi, st, cv, d);
                }
                if adjacent4(st, cv) {
                    assert(closed_cell_ok(mask@, wi, hi, vis@, dist@, st.0, st.1));
                    assert(mask_at(mask@, wi, hi, cv.0, cv.1) && adjacent4((st.0, st.1), (cv.0, cv.1)));
                    assert(cv != st);
                }
            } else {
                assert forall|q: Seq<(int, int)>| #[trigger] region_walk(region@, st, q) implies q.last() != cv by {
                    lemma_region_walk_is_walk(region@, mask@, wi, hi, st, q);
                    lemma_walk_within_dist(mask@, wi, hi, st, vis@, dist@, q, q.len() - 1);
                }
                if adjacent4(st, cv) {
                    assert(closed_cell_ok(mask@, wi, hi, vis@, dist@, st.0, st.1));
                    assert(mask_at(mask@, wi, hi, cv.0, cv.1) && adjacent4((st.0, st.1), (cv.0, cv.1)));
                }
                assert(cv != st);
            }
        }
    }
    r
}

proof fn lemma_count_true_all_false(s: Seq<bool>)
    requires
        forall|j: int| 0 <= j < s.len() ==> !s[j],
    ensures
        super::grid::count_true(s) == 0,
    decreases s.len(),
{
    if s.len() > 0 {
        lemma_count_true_all_false(s.drop_last());
    }
}

/// A walk that ends neither at the start nor next to it takes two steps or more.
proof fn lemma_walk_length_two(pass: Seq<bool>, w: int, h: int, st: (int, int), c: (int, int), d: int)
    requires
        walks_in(pass, w, h, st, c, d),
        c != st,
        !adjacent4(st, c),
    ensures
        d >= 2,
{
    let p = choose|p: Seq<(int, int)>| #[trigger] is_walk(pass, w, h, st, p) && p.len() == d + 1 && p.last() == c;
    if d == 1 {
        assert(adjacent4(p[0], p[1]));
    }
}

// ---------------------------------------------------------------------------
// Placing a tile without cutting anybody off.
// ---------------------------------------------------------------------------

/// The number of cells reachable from `start` over the walkable tiles of `tiles`.
pub open spec fn reach_count(tiles: Seq<TileType>, w: int, h: int, start: (int, int)) -> nat {
    reach_set(walk_mask(tiles), w, h, start).len()
}

/// Puts `tile` at `pos` unless that leaves fewer cells reachable from the
/// entrance than before, beyond `pos` itself; then the cell goes back to
/// dungeon floor. Returns whether the tile stayed; `reachable_before` then
/// holds the new count.
pub fn try_place_tile(
    map: &mut TownMap,
    entrance: (i32, i32),
    reachable_before: &mut usize,
    pos: (i32, i32),
    tile: TileType,
) -> (r: bool)
    requires
        old(map).wf(),
        dims_ok(old(map).width as int, old(map).height as int),
        cell_in(old(map).width as int, old(map).height as int, entrance.0 as int, entrance.1 as int),
        cell_in(old(map).width as int, old(map).height as int, pos.0 as int, pos.1 as int),
        *old(reachable_before) < usize::MAX,
    ensures
        ({
            let w = old(map).width as int;
            let i = pos.1 * w + pos.0;
            let placed = old(map).tiles@.update(i, tile);
            let n_after = reach_count(placed, w, old(map).height as int, (entrance.0 as int, entrance.1 as int));
            &&& r == (*old(reachable_before) <= n_after + 1)
            &&& r ==> final(map).tiles@ == placed && *final(reachable_before) == n_after
            &&& !r ==> final(map).tiles@ == placed.update(i, TileType::DungeonFloor) && *final(reachable_before)
                == *old(reachable_before)
            &&& reach_set(walk_mask(placed), w, old(map).height as int, (entrance.0 as int, entrance.1 as int)).finite()
        }),
        final(map).wf(),
        final(map).width == old(map).width,
        final(map).height == old(map).height,
{
    let ghost w = map.width as int;
    let ghost h = map.height as int;
    proof {
        lemma_cell_index(pos.0 as int, pos.1 as int, w, h);
    }
    let ghost i = pos.1 * w + pos.0;
    map.set(pos.0, pos.1, tile);
    proof {
        assert(map.tiles@ =~= old(map).tiles@.update(i, tile)) by {
            assert forall|j: int| 0 <= j < map.tiles@.len() implies map.tiles@[j] == old(map).tiles@.update(i, tile)[j] by {
                let x = j % w;
                let y = j / w;
                lemma_index_cell(j, w, h);
                assert(map.spec_get(x, y) == if x == pos.0 && y == pos.1 { Some(tile) } else { old(map).spec_get(x, y) });
                lemma_cell_index_injective(x, y, pos.0 as int, pos.1 as int, w);
            }
        }
    }
    let region_after = walkable_region(map, entrance);
    let after = region_after.len();
    proof {
        vstd::seq_lib::seq_to_set_is_finite(cells_view(region_after@));
    }
    if *reachable_before <= after + 1 {
        *reachable_before = after;
        true
    } else {
        let ghost placed = map.tiles@;
        map.set(pos.0, pos.1, TileType::DungeonFloor);
        proof {
            assert(map.tiles@ =~= placed.update(i, TileType::DungeonFloor)) by {
                assert forall|j: int| 0 <= j < map.tiles@.len() implies map.tiles@[j] == placed.update(i, TileType::DungeonFloor)[j] by {
                    let x = j % w;
                    let y = j / w;
                    lemma_index_cell(j, w, h);
                    assert(map.spec_get(x, y) == if x == pos.0 && y == pos.1 { Some(TileType::DungeonFloor) } else { Some(placed[y * w + x]) });
                    lemma_cell_index_injective(x, y, pos.0 as int, pos.1 as int, w);
                }
            }
        }
        false
    }
}

/// Every index of a `w` by `h` grid is the index of its cell.
pub proof fn lemma_index_cell(j: int, w: int, h: int)
    requires
        0 <= j < w * h,
        w > 0,
    ensures
        cell_in(w, h, j % w, j / w),
        (j / w) * w + (j % w) == j,
{
    assert(0 <= j % w < w) by (nonlinear_arith)
        requires
            w > 0,
    ;
    assert((j / w) * w + (j % w) == j) by (nonlinear_arith)
        requires
            w > 0,
    ;
    assert(0 <= j / w < h) by (nonlinear_arith)
        requires
            0 <= j < w * h,
            w > 0,
    ;
}

/// The walkable cells of `tiles`, with the start.
pub open spec fn walkable_with(tiles: Seq<TileType>, w: int, h: int, start: (int, int)) -> Set<(int, int)> {
    Set::new(|c: (int, int)| mask_at(walk_mask(tiles), w, h, c.0, c.1) || c == start)
}

/// The walkable cells are exactly those reachable from the start.
pub open spec fn all_walkable_reachable(tiles: Seq<TileType>, w: int, h: int, start: (int, int)) -> bool {
    reach_set(walk_mask(tiles), w, h, start) == walkable_with(tiles, w, h, start)
}

/// Making one reachable cell other than the start impassable keeps every
/// reachable cell but that one reachable when the reachable count drops by
/// at most one; the walkable cells are then still exactly the reachable ones.
pub proof fn lemma_blocking_one_cell(
    tiles: Seq<TileType>,
    w: int,
    h: int,
    start: (int, int),
    pos: (int, int),
    tile: TileType,
)
    requires
        w > 0,
        tiles.len() == w * h,
        cell_in(w, h, pos.0, pos.1),
        pos != start,
        tiles[pos.1 * w + pos.0].spec_is_walkable(),
        !tile.spec_is_walkable(),
        all_walkable_reachable(tiles, w, h, start),
        reach_set(walk_mask(tiles), w, h, start).finite(),
        reach_set(walk_mask(tiles.update(pos.1 * w + pos.0, tile)), w, h, start).finite(),
        reach_count(tiles, w, h, start) <= reach_count(tiles.update(pos.1 * w + pos.0, tile), w, h, start) + 1,
    ensures
        all_walkable_reachable(tiles.update(pos.1 * w + pos.0, tile), w, h, start),
{
    let i = pos.1 * w + pos.0;
    let t2 = tiles.update(i, tile);
    let m1 = walk_mask(tiles);
    let m2 = walk_mask(t2);
    let r1 = reach_set(m1, w, h, start);
    let r2 = reach_set(m2, w, h, start);
    lemma_cell_index(pos.0, pos.1, w, h);
    assert forall|x: int, y: int| #[trigger] mask_at(m2, w, h, x, y) <==> mask_at(m1, w, h, x, y) && (x, y) != pos by {
        if cell_in(w, h, x, y) {
            lemma_cell_index(x, y, w, h);
            lemma_cell_index_injective(x, y, pos.0, pos.1, w);
        }
    }
    // walks over the new mask are walks over the old one that avoid `pos`
    assert forall|c: (int, int)| r2.contains(c) implies r1.contains(c) && c != pos by {
        let p = choose|p: Seq<(int, int)>| #[trigger] is_walk(m2, w, h, start, p) && p.last() == c;
        assert forall|k: int| 1 <= k < p.len() implies adjacent4(p[k - 1], #[trigger] p[k]) && mask_at(m1, w, h, p[k].0, p[k].1) by {
            assert(mask_at(m2, w, h, p[k].0, p[k].1));
        }
        assert(is_walk(m1, w, h, start, p));
        if p.len() > 1 {
            assert(mask_at(m2, w, h, p[p.len() - 1].0, p[p.len() - 1].1));
        }
    }
    assert(r1.contains(pos)) by {
        assert(walkable_with(tiles, w, h, start).contains(pos));
    }
    assert(r2.subset_of(r1.remove(pos)));
    vstd::set_lib::lemma_len_subset(r2, r1.remove(pos));
    vstd::set_lib::lemma_subset_equality(r2, r1.remove(pos));
    assert(r2 =~= walkable_with(t2, w, h, start)) by {
        assert forall|c: (int, int)| r2.contains(c) <==> walkable_with(t2, w, h, start).contains(c) by {
            if r1.remove(pos).contains(c) {
                assert(walkable_with(tiles, w, h, start).contains(c));
            }
        }
    }
}

// ---------------------------------------------------------------------------
// Story rooms.
// ---------------------------------------------------------------------------

/// The kinds of story room.
#[derive(Clone, Copy, Debug, PartialEq, Eq, Structural)]
pub enum TemplateRoomKind {
    /// Chests packed in the middle.
    Treasury,
    /// A quiet empty room.
    Chapel,
    /// Monsters keeping watch near the corners.
    Prison,
}

pub open spec fn spec_template_room_count(roll: int) -> usize {
    if roll < 25 {
        0
    } else if roll < 85 {
        1
    } else {
        2
    }
}

/// How many story rooms a roll in `0..100` asks for: none below 25, one
/// below 85, otherwise two.
pub fn template_room_count_for(roll: u32) -> (r: usize)
    ensures
        r == spec_template_room_count(roll as int),
{
    if roll < 25 {
        0
    } else if roll < 85 {
        1
    } else {
        2
    }
}

/// Draws how many story rooms the floor gets (none 25%, one 60%, two 15%).
pub fn choose_template_room_count(rng: &mut StdRng) -> (r: usize)
    ensures
        exists|roll: int| 0 <= roll < 100 && r == spec_template_room_count(roll),
{
    let roll = random_u32(rng, 0, 99);
    template_room_count_for(roll)
}

pub open spec fn spec_template_kind(roll: int) -> TemplateRoomKind {
    if roll == 0 {
        TemplateRoomKind::Treasury
    } else if roll == 1 {
        TemplateRoomKind::Chapel
    } else {
        TemplateRoomKind::Prison
    }
}

/// The kind of story room a roll in `0..3` picks.
pub fn template_kind_for(roll: u32) -> (r: TemplateRoomKind)
    ensures
        r == spec_template_kind(roll as int),
{
    match roll {
        0 => TemplateRoomKind::Treasury,
        1 => TemplateRoomKind::Chapel,
        _ => TemplateRoomKind::Prison,
    }
}

/// Draws the kind of a story room, each equally likely.
pub fn random_template_kind(rng: &mut StdRng) -> (r: TemplateRoomKind)
    ensures
        exists|roll: int| 0 <= roll < 3 && r == spec_template_kind(roll),
{
    let roll = random_u32(rng, 0, 2);
    template_kind_for(roll)
}

pub open spec fn spec_template_layout(kind: TemplateRoomKind) -> Seq<(i32, i32, TileType)> {
    match kind {
        TemplateRoomKind::Treasury => seq![
            (1i32, 1i32, TileType::ChestClosed),
            (2i32, 1i32, TileType::ChestClosed),
            (3i32, 1i32, TileType::ChestClosed),
            (1i32, 2i32, TileType::ChestClosed),
            (2i32, 2i32, TileType::ChestClosed),
            (3i32, 2i32, TileType::ChestClosed),
            (1i32, 3i32, TileType::ChestClosed),
            (2i32, 3i32, TileType::ChestClosed),
            (3i32, 3i32, TileType::ChestClosed),
        ],
        TemplateRoomKind::Chapel => Seq::empty(),
        TemplateRoomKind::Prison => seq![
            (1i32, 1i32, TileType::MonsterSymbol),
            (3i32, 1i32, TileType::MonsterSymbol),
            (1i32, 3i32, TileType::MonsterSymbol),
            (3i32, 3i32, TileType::MonsterSymbol),
        ],
    }
}

/// The special tiles of a story room, at offsets from its top-left corner:
/// a treasury fills its middle 3 by 3 with chests, a chapel stays empty, a
/// prison puts a monster near each corner.
pub fn template_layout(kind: TemplateRoomKind) -> (r: Vec<(i32, i32, TileType)>)
    ensures
        r@ == spec_template_layout(kind),
{
    match kind {
        TemplateRoomKind::Treasury => {
            let mut tiles: Vec<(i32, i32, TileType)> = Vec::new();
            let mut dy: i32 = 1;
            while dy <= 3
                invariant
                    1 <= dy <= 4,
                    tiles@ == spec_template_layout(TemplateRoomKind::Treasury).take((dy - 1) * 3),
                decreases 4 - dy,
            {
                let mut dx: i32 = 1;
                while dx <= 3
                    invariant
                        1 <= dx <= 4,
                        1 <= dy <= 3,
                        tiles@ == spec_template_layout(TemplateRoomKind::Treasury).take((dy - 1) * 3 + dx - 1),
                    decreases 4 - dx,
                {
                    tiles.push((dx, dy, TileType::ChestClosed));
                    assert(tiles@ =~= spec_template_layout(TemplateRoomKind::Treasury).take((dy - 1) * 3 + dx));
                    dx = dx + 1;
                }
                dy = dy + 1;
            }
            assert(tiles@ =~= spec_template_layout(TemplateRoomKind::Treasury));
            tiles
        },
        TemplateRoomKind::Chapel => Vec::new(),
        TemplateRoomKind::Prison => {
            let r = vec![
                (1, 1, TileType::MonsterSymbol),
                (3, 1, TileType::MonsterSymbol),
                (1, 3, TileType::MonsterSymbol),
                (3, 3, TileType::MonsterSymbol),
            ];
            assert(r@ =~= spec_template_layout(TemplateRoomKind::Prison));
            r
        },
    }
}

/// The 5 by 5 rectangles with these top-left corners share a cell.
pub open spec fn spec_rects_overlap(a: (i32, i32), b: (i32, i32)) -> bool {
    a.0 <= b.0 + TEMPLATE_ROOM_SIZE - 1 && b.0 <= a.0 + TEMPLATE_ROOM_SIZE - 1 && a.1 <= b.1 + TEMPLATE_ROOM_SIZE - 1
        && b.1 <= a.1 + TEMPLATE_ROOM_SIZE - 1
}

/// Whether two story rooms (by top-left corner) overlap.
pub fn template_rects_overlap(a: (i32, i32), b: (i32, i32)) -> (r: bool)
    requires
        a.0 <= i32::MAX - 5,
        a.1 <= i32::MAX - 5,
        b.0 <= i32::MAX - 5,
        b.1 <= i32::MAX - 5,
    ensures
        r == spec_rects_overlap(a, b),
{
    let a_max = (a.0 + TEMPLATE_ROOM_SIZE - 1, a.1 + TEMPLATE_ROOM_SIZE - 1);
    let b_max = (b.0 + TEMPLATE_ROOM_SIZE - 1, b.1 + TEMPLATE_ROOM_SIZE - 1);
    a.0 <= b_max.0 && b.0 <= a_max.0 && a.1 <= b_max.1 && b.1 <= a_max.1
}

/// The cell lies in the 5 by 5 rectangle with top-left corner `tl`.
pub open spec fn in_rect(tl: (i32, i32), c: (int, int)) -> bool {
    tl.0 <= c.0 < tl.0 + TEMPLATE_ROOM_SIZE && tl.1 <= c.1 < tl.1 + TEMPLATE_ROOM_SIZE
}

/// The rectangle at `tl` lies in the region and avoids the forbidden cells.
pub open spec fn spec_rect_fits(region: Seq<bool>, w: int, h: int, forbidden: Seq<(i32, i32)>, tl: (i32, i32)) -> bool {
    forall|c: (int, int)|
        #[trigger] in_rect(tl, c) ==> mask_at(region, w, h, c.0, c.1) && !cells_view(forbidden).contains(c)
}

fn contains_cell(v: &Vec<(i32, i32)>, c: (i32, i32)) -> (r: bool)
    ensures
        r == cells_view(v@).contains((c.0 as int, c.1 as int)),
{
    let mut i: usize = 0;
    while i < v.len()
        invariant
            i <= v@.len(),
            forall|j: int| 0 <= j < i ==> v@[j] != c,
        decreases v@.len() - i,
    {
        if v[i].0 == c.0 && v[i].1 == c.1 {
            assert(cells_view(v@)[i as int] == (c.0 as int, c.1 as int));
            return true;
        }
        i = i + 1;
    }
    proof {
        if cells_view(v@).contains((c.0 as int, c.1 as int)) {
            let j = choose|j: int| 0 <= j < cells_view(v@).len() && cells_view(v@)[j] == (c.0 as int, c.1 as int);
            assert(v@[j] == c);
        }
    }
    false
}

/// Whether the story room at `top_left` lies wholly in the region and away
/// from the forbidden cells.
pub fn template_rect_fits(region: &Vec<bool>, width: usize, height: usize, forbidden: &Vec<(i32, i32)>, top_left: (i32, i32)) -> (r: bool)
    requires
        region@.len() == width * height,
        i32::MIN + 5 <= top_left.0 <= i32::MAX - 5,
        i32::MIN + 5 <= top_left.1 <= i32::MAX - 5,
    ensures
        r == spec_rect_fits(region@, width as int, height as int, forbidden@, top_left),
{
    let mut dy: i32 = 0;
    while dy < TEMPLATE_ROOM_SIZE
        invariant
            0 <= dy <= TEMPLATE_ROOM_SIZE,
            region@.len() == width * height,
            i32::MIN + 5 <= top_left.0 <= i32::MAX - 5,
            i32::MIN + 5 <= top_left.1 <= i32::MAX - 5,
            forall|c: (int, int)|
                #[trigger] in_rect(top_left, c) && c.1 < top_left.1 + dy ==> mask_at(region@, width as int, height as int, c.0, c.1)
                    && !cells_view(forbidden@).contains(c),
        decreases TEMPLATE_ROOM_SIZE - dy,
    {
        let mut dx: i32 = 0;
        while dx < TEMPLATE_ROOM_SIZE
            invariant
                0 <= dx <= TEMPLATE_ROOM_SIZE,
                0 <= dy < TEMPLATE_ROOM_SIZE,
                region@.len() == width * height,
                i32::MIN + 5 <= top_left.0 <= i32::MAX - 5,
                i32::MIN + 5 <= top_left.1 <= i32::MAX - 5,
                forall|c: (int, int)|
                    #[trigger] in_rect(top_left, c) && (c.1 < top_left.1 + dy || (c.1 == top_left.1 + dy && c.0 < top_left.0 + dx))
                        ==> mask_at(region@, width as int, height as int, c.0, c.1) && !cells_view(forbidden@).contains(c),
            decreases TEMPLATE_ROOM_SIZE - dx,
        {
            let p = (top_left.0 + dx, top_left.1 + dy);
            if !mask_get(region, width, height, p.0, p.1) || contains_cell(forbidden, p) {
                proof {
                    assert(in_rect(top_left, (p.0 as int, p.1 as int)));
                }
                return false;
            }
            dx = dx + 1;
        }
        dy = dy + 1;
    }
    true
}

/// The top-left corner of the story room centred on the entry's cell.
pub open spec fn tl_of(e: ((i32, i32), usize)) -> (i32, i32) {
    ((e.0.0 - TEMPLATE_ROOM_HALF) as i32, (e.0.1 - TEMPLATE_ROOM_HALF) as i32)
}

/// The first index from `i` on whose entry satisfies `pred`, or the length.
pub open spec fn first_from(s: Seq<((i32, i32), usize)>, i: int, pred: spec_fn(((i32, i32), usize)) -> bool) -> int
    decreases s.len() - i,
{
    if i >= s.len() || i < 0 {
        s.len() as int
    } else if pred(s[i]) {
        i
    } else {
        first_from(s, i + 1, pred)
    }
}

pub open spec fn abs_diff(a: int, b: int) -> int {
    if a >= b {
        a - b
    } else {
        b - a
    }
}

/// The story-room slots chosen from `sorted` (entries far from the entrance
/// first): the first entry whose room fits, and, when two rooms are wanted,
/// the first further entry whose distance differs from the first's by at
/// least the gap, whose room does not overlap the first, and which fits.
pub open spec fn spec_template_slots(
    sorted: Seq<((i32, i32), usize)>,
    region: Seq<bool>,
    w: int,
    h: int,
    forbidden: Seq<(i32, i32)>,
    count: int,
) -> Seq<(i32, i32)> {
    let fits = |e: ((i32, i32), usize)| spec_rect_fits(region, w, h, forbidden, tl_of(e));
    let i1 = first_from(sorted, 0, fits);
    if count == 0 || i1 >= sorted.len() {
        Seq::empty()
    } else {
        let first = sorted[i1];
        let second_ok = |e: ((i32, i32), usize)|
            abs_diff(first.1 as int, e.1 as int) >= TEMPLATE_MIN_DISTANCE_GAP && !spec_rects_overlap(
                tl_of(first),
                tl_of(e),
            ) && spec_rect_fits(region, w, h, forbidden, tl_of(e));
        let i2 = first_from(sorted, 0, second_ok);
        if count >= 2 && i2 < sorted.len() {
            seq![tl_of(first), tl_of(sorted[i2])]
        } else {
            seq![tl_of(first)]
        }
    }
}

proof fn lemma_first_from_found(s: Seq<((i32, i32), usize)>, i: int, pred: spec_fn(((i32, i32), usize)) -> bool)
    requires
        0 <= i <= s.len(),
    ensures
        i <= first_from(s, i, pred) <= s.len(),
        first_from(s, i, pred) < s.len() ==> pred(s[first_from(s, i, pred)]),
    decreases s.len() - i,
{
    if i < s.len() && !pred(s[i]) {
        lemma_first_from_found(s, i + 1, pred);
    }
}

/// Scans `sorted` for the first entry from `i` on satisfying the room test.
fn scan_slots(
    sorted: &Vec<((i32, i32), usize)>,
    region: &Vec<bool>,
    width: usize,
    height: usize,
    forbidden: &Vec<(i32, i32)>,
    first: Option<((i32, i32), usize)>,
) -> (r: Option<usize>)
    requires
        region@.len() == width * height,
        dims_ok(width as int, height as int),
        forall|k: int| 0 <= k < sorted@.len() ==> cell_in(width as int, height as int, (#[trigger] sorted@[k]).0.0 as int, sorted@[k].0.1 as int),
        first matches Some(f) ==> cell_in(width as int, height as int, f.0.0 as int, f.0.1 as int),
    ensures
        ({
            let pred = match first {
                None => |e: ((i32, i32), usize)| spec_rect_fits(region@, width as int, height as int, forbidden@, tl_of(e)),
                Some(f) => |e: ((i32, i32), usize)|
                    abs_diff(f.1 as int, e.1 as int) >= TEMPLATE_MIN_DISTANCE_GAP && !spec_rects_overlap(tl_of(f), tl_of(e))
                        && spec_rect_fits(region@, width as int, height as int, forbidden@, tl_of(e)),
            };
            let i = first_from(sorted@, 0, pred);
            &&& r is None <==> i >= sorted@.len()
            &&& r matches Some(k) ==> k == i
        }),
{
    let ghost pred = match first {
        None => |e: ((i32, i32), usize)| spec_rect_fits(region@, width as int, height as int, forbidden@, tl_of(e)),
        Some(f) => |e: ((i32, i32), usize)|
            abs_diff(f.1 as int, e.1 as int) >= TEMPLATE_MIN_DISTANCE_GAP && !spec_rects_overlap(tl_of(f), tl_of(e))
                && spec_rect_fits(region@, width as int, height as int, forbidden@, tl_of(e)),
    };
    let mut i: usize = 0;
    while i < sorted.len()
        invariant
            i <= sorted@.len(),
            region@.len() == width * height,
            dims_ok(width as int, height as int),
            forall|k: int| 0 <= k < sorted@.len() ==> cell_in(width as int, height as int, (#[trigger] sorted@[k]).0.0 as int, sorted@[k].0.1 as int),
            first matches Some(f) ==> cell_in(width as int, height as int, f.0.0 as int, f.0.1 as int),
            pred == (match first {
                None => |e: ((i32, i32), usize)| spec_rect_fits(region@, width as int, height as int, forbidden@, tl_of(e)),
                Some(f) => |e: ((i32, i32), usize)|
                    abs_diff(f.1 as int, e.1 as int) >= TEMPLATE_MIN_DISTANCE_GAP && !spec_rects_overlap(tl_of(f), tl_of(e))
                        && spec_rect_fits(region@, width as int, height as int, forbidden@, tl_of(e)),
            }),
            first_from(sorted@, 0, pred) == first_from(sorted@, i as int, pred),
        decreases sorted@.len() - i,
    {
        let e = sorted[i];
        proof {
            assert(sorted@[i as int] == e);
        }
        let top_left = (e.0.0 - TEMPLATE_ROOM_HALF, e.0.1 - TEMPLATE_ROOM_HALF);
        let ok = match first {
            None => template_rect_fits(region, width, height, forbidden, top_left),
            Some(f) => {
                let gap = if f.1 >= e.1 { f.1 - e.1 } else { e.1 - f.1 };
                let first_tl = (f.0.0 - TEMPLATE_ROOM_HALF, f.0.1 - TEMPLATE_ROOM_HALF);
                gap >= TEMPLATE_MIN_DISTANCE_GAP && !template_rects_overlap(first_tl, top_left)
                    && template_rect_fits(region, width, height, forbidden, top_left)
            },
        };
        assert(ok == pred(e));
        if ok {
            return Some(i);
        }
        i = i + 1;
    }
    None
}

/// Finds up to `count` story-room slots in `sorted` (see `spec_template_slots`).
pub fn find_template_slots(
    sorted: &Vec<((i32, i32), usize)>,
    region: &Vec<bool>,
    width: usize,
    height: usize,
    forbidden: &Vec<(i32, i32)>,
    count: usize,
) -> (r: Vec<(i32, i32)>)
    requires
        region@.len() == width * height,
        dims_ok(width as int, height as int),
        forall|k: int| 0 <= k < sorted@.len() ==> cell_in(width as int, height as int, (#[trigger] sorted@[k]).0.0 as int, sorted@[k].0.1 as int),
    ensures
        r@ == spec_template_slots(sorted@, region@, width as int, height as int, forbidden@, count as int),
{
    let mut chosen: Vec<(i32, i32)> = Vec::new();
    if count == 0 {
        return chosen;
    }
    match scan_slots(sorted, region, width, height, forbidden, None) {
        None => chosen,
        Some(i1) => {
            let first = sorted[i1];
            proof {
                assert(sorted@[i1 as int] == first);
            }
            chosen.push((first.0.0 - TEMPLATE_ROOM_HALF, first.0.1 - TEMPLATE_ROOM_HALF));
            if count >= 2 {
                match scan_slots(sorted, region, width, height, forbidden, Some(first)) {
                    Some(i2) => {
                        let second = sorted[i2];
                        chosen.push((second.0.0 - TEMPLATE_ROOM_HALF, second.0.1 - TEMPLATE_ROOM_HALF));
                        assert(chosen@ =~= spec_template_slots(sorted@, region@, width as int, height as int, forbidden@, count as int));
                    },
                    None => {
                        assert(chosen@ =~= spec_template_slots(sorted@, region@, width as int, height as int, forbidden@, count as int));
                    },
                }
            } else {
                assert(chosen@ =~= spec_template_slots(sorted@, region@, width as int, height as int, forbidden@, count as int));
            }
            chosen
        },
    }
}

/// `x` inserted into `s` (sorted by descending distance) after every entry
/// at least as far.
pub open spec fn insert_desc(s: Seq<((i32, i32), usize)>, x: ((i32, i32), usize)) -> Seq<((i32, i32), usize)> {
    let p = first_from(s, 0, |e: ((i32, i32), usize)| e.1 < x.1);
    s.take(p).push(x) + s.skip(p)
}

/// The entries sorted by descending distance, equal distances keeping their
/// order (insertion sort).
pub open spec fn sort_desc(v: Seq<((i32, i32), usize)>) -> Seq<((i32, i32), usize)>
    decreases v.len(),
{
    if v.len() == 0 {
        v
    } else {
        insert_desc(sort_desc(v.drop_last()), v.last())
    }
}

/// The entries sorted by descending distance, stably.
pub fn sort_by_distance_desc(v: &Vec<((i32, i32), usize)>) -> (r: Vec<((i32, i32), usize)>)
    ensures
        r@ == sort_desc(v@),
{
    let mut r: Vec<((i32, i32), usize)> = Vec::new();
    let mut k: usize = 0;
    while k < v.len()
        invariant
            k <= v@.len(),
            r@ == sort_desc(v@.take(k as int)),
        decreases v@.len() - k,
    {
        let x = v[k];
        let ghost pred = |e: ((i32, i32), usize)| e.1 < x.1;
        let mut p: usize = 0;
        while p < r.len() && r[p].1 >= x.1
            invariant
                p <= r@.len(),
                pred == (|e: ((i32, i32), usize)| e.1 < x.1),
                first_from(r@, 0, pred) == first_from(r@, p as int, pred),
            decreases r@.len() - p,
        {
            proof {
                assert(!pred(r@[p as int]));
                assert(first_from(r@, p as int, pred) == first_from(r@, p + 1, pred));
            }
            p = p + 1;
        }
        proof {
            lemma_first_from_found(r@, p as int, pred);
            assert(first_from(r@, 0, pred) == p);
            assert(v@.take(k + 1).drop_last() =~= v@.take(k as int));
            assert(v@.take(k + 1).last() == x);
        }
        let ghost before = r@;
        r.insert(p, x);
        proof {
            assert(r@ =~= before.take(p as int).push(x) + before.skip(p as int));
        }
        k = k + 1;
    }
    proof {
        assert(v@.take(k as int) =~= v@);
    }
    r
}

// ---------------------------------------------------------------------------
// Laying out a floor.
// ---------------------------------------------------------------------------

/// Tiles a cell of the cave region may carry.
pub open spec fn cave_tile(t: TileType) -> bool {
    t == TileType::DungeonFloor || t == TileType::StairsUp || t == TileType::StairsDown || t == TileType::ChestClosed
        || t == TileType::MonsterSymbol
}

/// A floor under construction: rock off the region, cave tiles on it, the
/// entrance floor, the stairs in place, every walkable cell reachable from
/// the entrance, and `before` the number of reachable cells.
pub open spec fn decor_ok(
    tiles: Seq<TileType>,
    w: int,
    h: int,
    region: Seq<(i32, i32)>,
    e: (int, int),
    su: (int, int),
    ex: (int, int),
    before: int,
) -> bool {
    &&& w > 0
    &&& tiles.len() == w * h
    &&& forall|x: int, y: int|
        cell_in(w, h, x, y) ==> (#[trigger] cells_view(region).contains((x, y)) ==> cave_tile(tiles[y * w + x]))
            && (!cells_view(region).contains((x, y)) ==> tiles[y * w + x] == TileType::DungeonWall)
    &&& cell_in(w, h, e.0, e.1) && cell_in(w, h, su.0, su.1) && cell_in(w, h, ex.0, ex.1)
    &&& tiles[e.1 * w + e.0] == TileType::DungeonFloor
    &&& tiles[su.1 * w + su.0] == TileType::StairsUp
    &&& tiles[ex.1 * w + ex.0] == TileType::StairsDown
    &&& forall|x: int, y: int|
        cell_in(w, h, x, y) ==> ((#[trigger] tiles[y * w + x] == TileType::StairsUp) <==> (x, y) == su) && (tiles[y
            * w + x] == TileType::StairsDown <==> (x, y) == ex)
    &&& all_walkable_reachable(tiles, w, h, e)
    &&& reach_set(walk_mask(tiles), w, h, e).finite()
    &&& before == reach_count(tiles, w, h, e)
}

/// What `try_place_tile` did, as its contract states it.
pub open spec fn placement(
    tiles: Seq<TileType>,
    w: int,
    h: int,
    e: (int, int),
    before: int,
    pos: (int, int),
    tile: TileType,
    r: bool,
    tiles2: Seq<TileType>,
    before2: int,
) -> bool {
    let i = pos.1 * w + pos.0;
    let placed = tiles.update(i, tile);
    let n_after = reach_count(placed, w, h, e);
    &&& r == (before <= n_after + 1)
    &&& r ==> tiles2 == placed && before2 == n_after
    &&& !r ==> tiles2 == placed.update(i, TileType::DungeonFloor) && before2 == before
    &&& reach_set(walk_mask(placed), w, h, e).finite()
}

/// Whether `try_place_tile` keeps `tile` at `pos`: the cells reachable
/// from the entrance drop by at most the one cell taken.
pub open spec fn place_ok(tiles: Seq<TileType>, w: int, h: int, e: (int, int), before: int, pos: (int, int), tile: TileType) -> bool {
    before <= reach_count(tiles.update(pos.1 * w + pos.0, tile), w, h, e) + 1
}

/// The tiles and the reachable count after `try_place_tile` of `tile` at `pos`.
pub open spec fn place_tile(
    tiles: Seq<TileType>,
    w: int,
    h: int,
    e: (int, int),
    before: int,
    pos: (int, int),
    tile: TileType,
) -> (Seq<TileType>, int) {
    let i = pos.1 * w + pos.0;
    let placed = tiles.update(i, tile);
    if place_ok(tiles, w, h, e, before, pos, tile) {
        (placed, reach_count(placed, w, h, e) as int)
    } else {
        (placed.update(i, TileType::DungeonFloor), before)
    }
}

/// The tiles and the reachable count after trying each tile of `items` at
/// its cell, in order, as `try_place_tile` does.
pub open spec fn place_all(
    tiles: Seq<TileType>,
    w: int,
    h: int,
    e: (int, int),
    before: int,
    items: Seq<((int, int), TileType)>,
) -> (Seq<TileType>, int)
    decreases items.len(),
{
    if items.len() == 0 {
        (tiles, before)
    } else {
        let p = place_all(tiles, w, h, e, before, items.drop_last());
        place_tile(p.0, w, h, e, p.1, items.last().0, items.last().1)
    }
}

/// The special tiles of a story room of `kind` at `tl`, with their cells.
pub open spec fn room_items(kind: TemplateRoomKind, tl: (i32, i32)) -> Seq<((int, int), TileType)> {
    spec_template_layout(kind).map_values(|en: (i32, i32, TileType)| (layout_cell(tl, en), en.2))
}

/// The tiles and the reachable count after laying the story rooms of
/// `kinds` at `slots`, in order.
pub open spec fn place_rooms(
    tiles: Seq<TileType>,
    w: int,
    h: int,
    e: (int, int),
    before: int,
    slots: Seq<(i32, i32)>,
    kinds: Seq<TemplateRoomKind>,
) -> (Seq<TileType>, int)
    decreases slots.len(),
{
    if slots.len() == 0 || kinds.len() == 0 {
        (tiles, before)
    } else {
        let p = place_rooms(tiles, w, h, e, before, slots.drop_last(), kinds.drop_last());
        place_all(p.0, w, h, e, p.1, room_items(kinds.last(), slots.last()))
    }
}

/// The tiles, the reachable count, the chests and whether the monster
/// stands after `scatter_decorations` tried the cells `cands` in order:
/// chests until two stand, then the monster, each kept as `try_place_tile`
/// decides; once two chests and the monster stand, nothing more is tried.
pub open spec fn scatter_state(
    tiles: Seq<TileType>,
    w: int,
    h: int,
    e: (int, int),
    before: int,
    cands: Seq<(i32, i32)>,
) -> (Seq<TileType>, int, int, bool)
    decreases cands.len(),
{
    if cands.len() == 0 {
        (tiles, before, 0, false)
    } else {
        let s = scatter_state(tiles, w, h, e, before, cands.drop_last());
        if s.2 >= 2 && s.3 {
            s
        } else {
            let pos = (cands.last().0 as int, cands.last().1 as int);
            let tile = if s.2 < 2 { TileType::ChestClosed } else { TileType::MonsterSymbol };
            let ok = place_ok(s.0, w, h, e, s.1, pos, tile);
            let p = place_tile(s.0, w, h, e, s.1, pos, tile);
            (p.0, p.1, if ok && s.2 < 2 { s.2 + 1 } else { s.2 }, s.3 || (ok && s.2 >= 2))
        }
    }
}

/// A chest or monster tried on a plain floor cell of the region, away from
/// the entrance and the stairs, keeps the floor in order.
proof fn lemma_placement_keeps(
    tiles: Seq<TileType>,
    w: int,
    h: int,
    region: Seq<(i32, i32)>,
    e: (int, int),
    su: (int, int),
    ex: (int, int),
    before: int,
    pos: (int, int),
    tile: TileType,
    r: bool,
    tiles2: Seq<TileType>,
    before2: int,
)
    requires
        decor_ok(tiles, w, h, region, e, su, ex, before),
        cell_in(w, h, pos.0, pos.1),
        cells_view(region).contains(pos),
        pos != e && pos != su && pos != ex,
        tiles[pos.1 * w + pos.0] == TileType::DungeonFloor,
        tile == TileType::ChestClosed || tile == TileType::MonsterSymbol,
        placement(tiles, w, h, e, before, pos, tile, r, tiles2, before2),
    ensures
        decor_ok(tiles2, w, h, region, e, su, ex, before2),
        forall|x: int, y: int| cell_in(w, h, x, y) && (x, y) != pos ==> #[trigger] tiles2[y * w + x] == tiles[y * w + x],
        r ==> tiles2[pos.1 * w + pos.0] == tile,
        !r ==> tiles2 == tiles,
{
    let i = pos.1 * w + pos.0;
    lemma_cell_index(pos.0, pos.1, w, h);
    let placed = tiles.update(i, tile);
    assert forall|x: int, y: int| cell_in(w, h, x, y) && (x, y) != pos implies #[trigger] tiles2[y * w + x] == tiles[y * w + x] by {
        lemma_cell_index(x, y, w, h);
        lemma_cell_index_injective(x, y, pos.0, pos.1, w);
    }
    if r {
        lemma_blocking_one_cell(tiles, w, h, e, pos, tile);
        lemma_cell_index(e.0, e.1, w, h);
        lemma_cell_index(su.0, su.1, w, h);
        lemma_cell_index(ex.0, ex.1, w, h);
        lemma_cell_index_injective(e.0, e.1, pos.0, pos.1, w);
        lemma_cell_index_injective(su.0, su.1, pos.0, pos.1, w);
        lemma_cell_index_injective(ex.0, ex.1, pos.0, pos.1, w);
        assert forall|x: int, y: int|
            cell_in(w, h, x, y) implies (#[trigger] cells_view(region).contains((x, y)) ==> cave_tile(tiles2[y * w + x]))
                && (!cells_view(region).contains((x, y)) ==> tiles2[y * w + x] == TileType::DungeonWall) by {
            lemma_cell_index(x, y, w, h);
            lemma_cell_index_injective(x, y, pos.0, pos.1, w);
        }
    } else {
        assert(tiles2 =~= tiles);
    }
}

/// The cells of the 5 by 5 rectangle at `tl`, row by row.
pub open spec fn rect_cells(tl: (i32, i32)) -> Seq<(i32, i32)> {
    Seq::new(25, |k: int| ((tl.0 + k % 5) as i32, (tl.1 + k / 5) as i32))
}

/// Where a layout entry lands in the room with top-left corner `tl`.
pub open spec fn layout_cell(tl: (i32, i32), entry: (i32, i32, TileType)) -> (int, int) {
    (tl.0 + entry.0, tl.1 + entry.1)
}

/// The story room of `kind` at `tl` as laid over `before`, giving `after`:
/// each special tile of the layout is in place or its cell is left as it
/// was, and every other cell of the room is left as it was.
pub open spec fn room_laid(kind: TemplateRoomKind, tl: (i32, i32), w: int, before: Seq<TileType>, after: Seq<TileType>) -> bool {
    let lay = spec_template_layout(kind);
    &&& forall|m: int| 0 <= m < lay.len() ==> {
        let c = #[trigger] layout_cell(tl, lay[m]);
        after[c.1 * w + c.0] == lay[m].2 || after[c.1 * w + c.0] == before[c.1 * w + c.0]
    }
    &&& forall|c: (int, int)|
        #[trigger] in_rect(tl, c) && (forall|m: int| 0 <= m < lay.len() ==> #[trigger] layout_cell(tl, lay[m]) != c)
            ==> after[c.1 * w + c.0] == before[c.1 * w + c.0]
}

/// Lays the story room at `top_left` (of a kind drawn at random), each
/// special tile tried as `try_place_tile` does, and returns the room's cells.
fn apply_template_room(
    map: &mut TownMap,
    entrance: (i32, i32),
    reachable_before: &mut usize,
    top_left: (i32, i32),
    rng: &mut StdRng,
    Ghost(region): Ghost<Seq<(i32, i32)>>,
    Ghost(su): Ghost<(int, int)>,
    Ghost(ex): Ghost<(int, int)>,
) -> (r: Vec<(i32, i32)>)
    requires
        old(map).wf(),
        dims_ok(old(map).width as int, old(map).height as int),
        decor_ok(old(map).tiles@, old(map).width as int, old(map).height as int, region, (entrance.0 as int, entrance.1 as int), su, ex, *old(reachable_before) as int),
        forall|c: (int, int)| #[trigger] in_rect(top_left, c) ==> cell_in(old(map).width as int, old(map).height as int, c.0, c.1)
            && cells_view(region).contains(c) && c != (entrance.0 as int, entrance.1 as int) && c != su && c != ex
            && old(map).tiles@[c.1 * old(map).width + c.0] == TileType::DungeonFloor,
        top_left.0 <= i32::MAX - 5,
        top_left.1 <= i32::MAX - 5,
    ensures
        final(map).wf(),
        final(map).width == old(map).width,
        final(map).height == old(map).height,
        decor_ok(final(map).tiles@, old(map).width as int, old(map).height as int, region, (entrance.0 as int, entrance.1 as int), su, ex, *final(reachable_before) as int),
        exists|kind: TemplateRoomKind|
            room_laid(kind, top_left, old(map).width as int, old(map).tiles@, final(map).tiles@) && (
            final(map).tiles@,
            *final(reachable_before) as int,
        ) == #[trigger] place_all(
                old(map).tiles@,
                old(map).width as int,
                old(map).height as int,
                (entrance.0 as int, entrance.1 as int),
                *old(reachable_before) as int,
                room_items(kind, top_left),
            ),
        forall|x: int, y: int|
            cell_in(old(map).width as int, old(map).height as int, x, y) && !in_rect(top_left, (x, y)) ==> #[trigger] final(map).tiles@[y * old(map).width + x]
                == old(map).tiles@[y * old(map).width + x],
        r@ == rect_cells(top_left),
{
    let ghost w = map.width as int;
    let ghost h = map.height as int;
    let ghost e = (entrance.0 as int, entrance.1 as int);
    let mut used: Vec<(i32, i32)> = Vec::new();
    let mut k: i32 = 0;
    while k < 25
        invariant
            0 <= k <= 25,
            top_left.0 <= i32::MAX - 5,
            top_left.1 <= i32::MAX - 5,
            used@ == rect_cells(top_left).take(k as int),
        decreases 25 - k,
    {
        used.push((top_left.0 + k % 5, top_left.1 + k / 5));
        assert(used@ =~= rect_cells(top_left).take(k + 1));
        k = k + 1;
    }
    assert(used@ =~= rect_cells(top_left));
    let kind = random_template_kind(rng);
    let layout = template_layout(kind);
    let ghost lay = layout@;
    proof {
        assert forall|m: int| 0 <= m < lay.len() implies #[trigger] map.tiles@[(top_left.1 + lay[m].1) * w + (top_left.0 + lay[m].0)] == TileType::DungeonFloor by {
            lemma_layout_entries(kind, m);
            assert(in_rect(top_left, ((top_left.0 + lay[m].0) as int, (top_left.1 + lay[m].1) as int)));
        }
    }
    let mut j: usize = 0;
    while j < layout.len()
        invariant
            j <= layout@.len(),
            lay == layout@,
            lay == spec_template_layout(kind),
            map.wf(),
            map.width == old(map).width,
            map.height == old(map).height,
            w == map.width,
            h == map.height,
            e == (entrance.0 as int, entrance.1 as int),
            dims_ok(w, h),
            decor_ok(map.tiles@, w, h, region, e, su, ex, *reachable_before as int),
            top_left.0 <= i32::MAX - 5,
            top_left.1 <= i32::MAX - 5,
            forall|c: (int, int)| #[trigger] in_rect(top_left, c) ==> cell_in(w, h, c.0, c.1)
                && cells_view(region).contains(c) && c != e && c != su && c != ex,
            forall|m: int| j <= m < lay.len() ==> #[trigger] map.tiles@[(top_left.1 + lay[m].1) * w + (top_left.0 + lay[m].0)] == TileType::DungeonFloor,
            forall|x: int, y: int|
                cell_in(w, h, x, y) && !in_rect(top_left, (x, y)) ==> #[trigger] map.tiles@[y * w + x] == old(map).tiles@[y * w + x],
            forall|m: int| 0 <= m < j ==> {
                let c = #[trigger] layout_cell(top_left, lay[m]);
                map.tiles@[c.1 * w + c.0] == lay[m].2 || map.tiles@[c.1 * w + c.0] == old(map).tiles@[c.1 * w + c.0]
            },
            (map.tiles@, *reachable_before as int) == place_all(
                old(map).tiles@,
                w,
                h,
                e,
                *old(reachable_before) as int,
                room_items(kind, top_left).take(j as int),
            ),
            forall|c: (int, int)|
                #[trigger] in_rect(top_left, c) && (forall|m: int| 0 <= m < j ==> #[trigger] layout_cell(top_left, lay[m]) != c)
                    ==> map.tiles@[c.1 * w + c.0] == old(map).tiles@[c.1 * w + c.0],
        decreases layout@.len() - j,
    {
        let (dx, dy, tile) = layout[j];
        let pos = (top_left.0 + dx, top_left.1 + dy);
        let ghost t0 = map.tiles@;
        let ghost b0 = *reachable_before as int;
        proof {
            assert(lay[j as int] == (dx, dy, tile));
            assert(1 <= dx <= 3 && 1 <= dy <= 3 && (tile == TileType::ChestClosed || tile == TileType::MonsterSymbol)) by {
                lemma_layout_entries(kind, j as int);
            }
            assert(in_rect(top_left, (pos.0 as int, pos.1 as int)));
            assert(map.tiles@[(top_left.1 + lay[j as int].1) * w + (top_left.0 + lay[j as int].0)] == TileType::DungeonFloor);
            lemma_reach_count_bound(map.tiles@, w, h, e);
        }
        let placed_ok = try_place_tile(map, entrance, reachable_before, pos, tile);
        proof {
            let items = room_items(kind, top_left);
            assert(items.take(j + 1).drop_last() =~= items.take(j as int));
            assert(items.take(j + 1).last() == ((pos.0 as int, pos.1 as int), tile));
            lemma_placement_keeps(t0, w, h, region, e, su, ex, b0, (pos.0 as int, pos.1 as int), tile, placed_ok, map.tiles@, *reachable_before as int);
            assert forall|m: int| j + 1 <= m < lay.len() implies #[trigger] map.tiles@[(top_left.1 + lay[m].1) * w + (top_left.0 + lay[m].0)] == TileType::DungeonFloor by {
                lemma_layout_distinct(kind, j as int, m);
                lemma_layout_entries(kind, m);
                assert(in_rect(top_left, ((top_left.0 + lay[m].0) as int, (top_left.1 + lay[m].1) as int)));
                assert(map.tiles@[(top_left.1 + lay[m].1) * w + (top_left.0 + lay[m].0)] == t0[(top_left.1 + lay[m].1) * w + (top_left.0 + lay[m].0)]);
            }
            assert forall|x: int, y: int|
                cell_in(w, h, x, y) && !in_rect(top_left, (x, y)) implies #[trigger] map.tiles@[y * w + x] == old(map).tiles@[y * w + x] by {
                assert(map.tiles@[y * w + x] == t0[y * w + x]);
            }
            let pj = layout_cell(top_left, lay[j as int]);
            assert(pj == (pos.0 as int, pos.1 as int));
            assert forall|m: int| 0 <= m < j + 1 implies {
                let c = #[trigger] layout_cell(top_left, lay[m]);
                map.tiles@[c.1 * w + c.0] == lay[m].2 || map.tiles@[c.1 * w + c.0] == old(map).tiles@[c.1 * w + c.0]
            } by {
                let c = layout_cell(top_left, lay[m]);
                lemma_layout_entries(kind, m);
                assert(in_rect(top_left, c));
                if m < j {
                    lemma_layout_distinct(kind, m, j as int);
                    assert(map.tiles@[c.1 * w + c.0] == t0[c.1 * w + c.0]);
                } else {
                    assert forall|m2: int| 0 <= m2 < j implies #[trigger] layout_cell(top_left, lay[m2]) != pj by {
                        lemma_layout_distinct(kind, m2, j as int);
                    }
                    assert(t0[pj.1 * w + pj.0] == old(map).tiles@[pj.1 * w + pj.0]);
                }
            }
            assert forall|c: (int, int)|
                #[trigger] in_rect(top_left, c) && (forall|m: int| 0 <= m < j + 1 ==> #[trigger] layout_cell(top_left, lay[m]) != c)
                    implies map.tiles@[c.1 * w + c.0] == old(map).tiles@[c.1 * w + c.0] by {
                assert(layout_cell(top_left, lay[j as int]) != c);
                assert(forall|m: int| 0 <= m < j ==> #[trigger] layout_cell(top_left, lay[m]) != c);
                assert(map.tiles@[c.1 * w + c.0] == t0[c.1 * w + c.0]);
            }
        }
        j = j + 1;
    }
    proof {
        assert(room_laid(kind, top_left, w, old(map).tiles@, map.tiles@));
        assert(room_items(kind, top_left).take(j as int) =~= room_items(kind, top_left));
    }
    used
}

proof fn lemma_layout_entries(kind: TemplateRoomKind, m: int)
    requires
        0 <= m < spec_template_layout(kind).len(),
    ensures
        1 <= spec_template_layout(kind)[m].0 <= 3,
        1 <= spec_template_layout(kind)[m].1 <= 3,
        spec_template_layout(kind)[m].2 == TileType::ChestClosed || spec_template_layout(kind)[m].2 == TileType::MonsterSymbol,
{
}

proof fn lemma_layout_distinct(kind: TemplateRoomKind, a: int, b: int)
    requires
        0 <= a < b < spec_template_layout(kind).len(),
    ensures
        (spec_template_layout(kind)[a].0, spec_template_layout(kind)[a].1) != (spec_template_layout(kind)[b].0, spec_template_layout(kind)[b].1),
{
}

/// The reachable cells are never more than the grid can hold.
proof fn lemma_reach_count_bound(tiles: Seq<TileType>, w: int, h: int, e: (int, int))
    requires
        w > 0,
        h > 0,
        tiles.len() == w * h,
        cell_in(w, h, e.0, e.1),
        reach_set(walk_mask(tiles), w, h, e).finite(),
    ensures
        reach_count(tiles, w, h, e) <= w * h,
{
    let rs = reach_set(walk_mask(tiles), w, h, e);
    let f = |c: (int, int)| c.1 * w + c.0;
    let idxs = rs.map(f);
    assert forall|c: (int, int)| rs.contains(c) implies cell_in(w, h, c.0, c.1) by {
        let p = choose|p: Seq<(int, int)>| #[trigger] is_walk(walk_mask(tiles), w, h, e, p) && p.last() == c;
        if p.len() > 1 {
            assert(mask_at(walk_mask(tiles), w, h, p[p.len() - 1].0, p[p.len() - 1].1));
        }
    }
    assert forall|a: (int, int), b: (int, int)| rs.contains(a) && rs.contains(b) && #[trigger] f(a) == #[trigger] f(b) implies a == b by {
        lemma_cell_index_injective(a.0, a.1, b.0, b.1, w);
    }
    vstd::set_lib::lemma_map_size(rs, idxs, f);
    let range = vstd::set_lib::set_int_range(0, w * h);
    assert(idxs.subset_of(range)) by {
        assert forall|i: int| idxs.contains(i) implies range.contains(i) by {
            let c = choose|c: (int, int)| rs.contains(c) && f(c) == i;
            lemma_cell_index(c.0, c.1, w, h);
        }
    }
    vstd::set_lib::lemma_int_range(0, w * h);
    vstd::set_lib::lemma_len_subset(idxs, range);
}

/// `p` walks from `start` one step at a time over cells of `region`.
pub open spec fn region_walk(region: Seq<(i32, i32)>, start: (int, int), p: Seq<(int, int)>) -> bool {
    &&& p.len() >= 1
    &&& p[0] == start
    &&& forall|i: int| 1 <= i < p.len() ==> adjacent4(p[i - 1], #[trigger] p[i]) && cells_view(region).contains(p[i])
}

/// Every cell of the region can be walked to from `start` inside the region.
pub open spec fn region_connected(region: Seq<(i32, i32)>, start: (int, int)) -> bool {
    forall|c: (int, int)| #[trigger] cells_view(region).contains(c) ==> exists|p: Seq<(int, int)>| #[trigger] region_walk(region, start, p) && p.last() == c
}

/// Of six distinct cells, one is neither `e` nor next to it.
proof fn lemma_far_cell(region: Seq<(i32, i32)>, e: (int, int)) -> (k: int)
    requires
        cells_view(region).no_duplicates(),
        region.len() >= 6,
    ensures
        0 <= k < region.len(),
        cells_view(region)[k] != e,
        !adjacent4(e, cells_view(region)[k]),
{
    let cv = cells_view(region);
    let near = set![e, (e.0, e.1 - 1), (e.0, e.1 + 1), (e.0 - 1, e.1), (e.0 + 1, e.1)];
    if forall|k: int| 0 <= k < cv.len() ==> (cv[k] == e || adjacent4(e, cv[k])) {
        assert(cv.to_set().subset_of(near)) by {
            assert forall|c: (int, int)| cv.to_set().contains(c) implies near.contains(c) by {
                let k = choose|k: int| 0 <= k < cv.len() && cv[k] == c;
                assert(cv[k] == e || adjacent4(e, cv[k]));
            }
        }
        assert(near.len() <= 5) by {
            let s0 = Set::<(int, int)>::empty();
            assert(near == s0.insert(e).insert((e.0, e.1 - 1)).insert((e.0, e.1 + 1)).insert((e.0 - 1, e.1)).insert((e.0 + 1, e.1)));
        }
        vstd::set_lib::lemma_len_subset(cv.to_set(), near);
        cv.unique_seq_to_set();
        assert(false);
    }
    let k = choose|k: int| 0 <= k < cv.len() && !(cv[k] == e || adjacent4(e, cv[k]));
    k
}

/// The requirements on a cave region starting at `entrance`.
pub open spec fn cave_region_ok(region: Seq<(i32, i32)>, w: int, h: int, entrance: (i32, i32)) -> bool {
    &&& dims_ok(w, h)
    &&& region.len() >= 6
    &&& region[0] == entrance
    &&& cells_view(region).no_duplicates()
    &&& forall|k: int| 0 <= k < region.len() ==> cell_in(w, h, (#[trigger] region[k]).0 as int, region[k].1 as int)
    &&& forall|k: int| 0 <= k < region.len() && #[trigger] region[k] != entrance ==> interior(w, h, region[k].0 as int, region[k].1 as int)
    &&& region_connected(region, (entrance.0 as int, entrance.1 as int))
}

/// Rock everywhere but on the region's cells, which become floor.
fn paint_region(width: usize, height: usize, region: &Vec<(i32, i32)>) -> (map: TownMap)
    requires
        dims_ok(width as int, height as int),
        forall|k: int| 0 <= k < region@.len() ==> cell_in(width as int, height as int, (#[trigger] region@[k]).0 as int, region@[k].1 as int),
    ensures
        map.wf(),
        map.width == width,
        map.height == height,
        forall|x: int, y: int|
            cell_in(width as int, height as int, x, y) ==> #[trigger] map.spec_get(x, y) == Some(
                if cells_view(region@).contains((x, y)) { TileType::DungeonFloor } else { TileType::DungeonWall },
            ),
{
    let ghost w = width as int;
    let ghost h = height as int;
    let mut map = TownMap::new(width, height, TileType::DungeonWall);
    let mut k: usize = 0;
    while k < region.len()
        invariant
            k <= region@.len(),
            map.wf(),
            map.width == width,
            map.height == height,
            w == width,
            h == height,
            forall|m: int| 0 <= m < region@.len() ==> cell_in(w, h, (#[trigger] region@[m]).0 as int, region@[m].1 as int),
            forall|x: int, y: int|
                cell_in(w, h, x, y) ==> #[trigger] map.spec_get(x, y) == Some(
                    if cells_view(region@.take(k as int)).contains((x, y)) { TileType::DungeonFloor } else { TileType::DungeonWall },
                ),
        decreases region@.len() - k,
    {
        let c = region[k];
        proof {
            assert(region@[k as int] == c);
        }
        map.set(c.0, c.1, TileType::DungeonFloor);
        proof {
            assert(region@.take(k + 1) =~= region@.take(k as int).push(c));
            assert forall|x: int, y: int|
                cell_in(w, h, x, y) implies #[trigger] map.spec_get(x, y) == Some(
                    if cells_view(region@.take(k + 1)).contains((x, y)) { TileType::DungeonFloor } else { TileType::DungeonWall },
                ) by {
                super::grid::lemma_cells_view_push_contains(region@.take(k as int), c, (x, y));
            }
        }
        k = k + 1;
    }
    proof {
        assert(region@.take(k as int) =~= region@);
    }
    map
}

/// The first neighbour of `e` (up, down, left, right) that is a cell of
/// `region`; the right one when none of the others is.
pub open spec fn stairs_up_of(region: Seq<(i32, i32)>, e: (int, int)) -> (int, int) {
    let rv = cells_view(region);
    if rv.contains((e.0, e.1 - 1)) {
        (e.0, e.1 - 1)
    } else if rv.contains((e.0, e.1 + 1)) {
        (e.0, e.1 + 1)
    } else if rv.contains((e.0 - 1, e.1)) {
        (e.0 - 1, e.1)
    } else {
        (e.0 + 1, e.1)
    }
}

/// The first neighbour of the entrance (up, down, left, right) that lies in
/// the region; a connected region of two or more cells has one.
fn pick_stairs_up(width: usize, height: usize, region: &Vec<(i32, i32)>, entrance: (i32, i32)) -> (su: (i32, i32))
    requires
        cave_region_ok(region@, width as int, height as int, entrance),
    ensures
        (su.0 as int, su.1 as int) == stairs_up_of(region@, (entrance.0 as int, entrance.1 as int)),
        adjacent4((entrance.0 as int, entrance.1 as int), (su.0 as int, su.1 as int)),
        cells_view(region@).contains((su.0 as int, su.1 as int)),
        cell_in(width as int, height as int, su.0 as int, su.1 as int),
{
    let ghost w = width as int;
    let ghost h = height as int;
    let ghost e = (entrance.0 as int, entrance.1 as int);
    let ghost rv = cells_view(region@);
    proof {
        assert(rv[0] == e);
        assert forall|c: (int, int)| rv.contains(c) implies cell_in(w, h, c.0, c.1) by {
            let j = choose|j: int| 0 <= j < rv.len() && rv[j] == c;
            assert(cell_in(w, h, region@[j].0 as int, region@[j].1 as int));
        }
    }
    let rmask = region_mask(region, width, height);
    let nbs = neighbors4(entrance.0, entrance.1);
    let stairs_up = if mask_get(&rmask, width, height, nbs[0].0, nbs[0].1) {
        nbs[0]
    } else if mask_get(&rmask, width, height, nbs[1].0, nbs[1].1) {
        nbs[1]
    } else if mask_get(&rmask, width, height, nbs[2].0, nbs[2].1) {
        nbs[2]
    } else {
        nbs[3]
    };
    proof {
        assert(rv.contains(rv[1]));
        assert(rv[1] != e) by {
            assert(rv[0] == e);
        }
        let p = choose|p: Seq<(int, int)>| #[trigger] region_walk(region@, e, p) && p.last() == rv[1];
        assert(p.len() >= 2);
        assert(adjacent4(p[0], p[1]) && rv.contains(p[1]));
        assert(mask_at(rmask@, w, h, p[1].0, p[1].1));
    }
    stairs_up
}

/// The last entry of `distances` with the greatest distance.
fn farthest_entry(distances: &Vec<((i32, i32), usize)>) -> (r: ((i32, i32), usize))
    requires
        distances@.len() >= 1,
    ensures
        exists|m: int| 0 <= m < distances@.len() && distances@[m] == r && forall|j: int| m < j < distances@.len() ==> (#[trigger] distances@[j]).1 < r.1,
        forall|m: int| 0 <= m < distances@.len() ==> (#[trigger] distances@[m]).1 <= r.1,
{
    let mut best_at: usize = 0;
    let mut i: usize = 1;
    while i < distances.len()
        invariant
            1 <= i <= distances@.len(),
            best_at < i,
            forall|m: int| 0 <= m < i ==> (#[trigger] distances@[m]).1 <= distances@[best_at as int].1,
            forall|j: int| best_at < j < i ==> (#[trigger] distances@[j]).1 < distances@[best_at as int].1,
        decreases distances@.len() - i,
    {
        if distances[i].1 >= distances[best_at].1 {
            best_at = i;
        }
        i = i + 1;
    }
    distances[best_at]
}

/// Two shortest distances to the same cell agree.
proof fn lemma_region_distance_unique(region: Seq<(i32, i32)>, e: (int, int), c: (int, int), d1: int, d2: int)
    requires
        region_distance(region, e, c, d1),
        region_distance(region, e, c, d2),
    ensures
        d1 == d2,
{
    let p1 = choose|p: Seq<(int, int)>| #[trigger] region_walk(region, e, p) && p.last() == c && p.len() == d1 + 1;
    let p2 = choose|p: Seq<(int, int)>| #[trigger] region_walk(region, e, p) && p.last() == c && p.len() == d2 + 1;
}

/// In a connected region whose cells all carry their distance from the
/// entrance, the last entry of greatest distance is a farthest cell.
proof fn lemma_farthest_exit(
    region: Seq<(i32, i32)>,
    w: int,
    h: int,
    entrance: (i32, i32),
    distances: Seq<((i32, i32), usize)>,
    exit: (i32, i32),
    best: usize,
)
    requires
        cave_region_ok(region, w, h, entrance),
        distances.len() == region.len(),
        forall|k: int| 0 <= k < distances.len() ==> (#[trigger] distances[k]).0 == region[k],
        forall|k: int| 0 <= k < distances.len() ==> distance_entry(
            region,
            (entrance.0 as int, entrance.1 as int),
            ((#[trigger] distances[k]).0.0 as int, distances[k].0.1 as int),
            distances[k].1,
        ),
        exists|m: int| 0 <= m < distances.len() && distances[m] == (exit, best),
        forall|m: int| 0 <= m < distances.len() ==> (#[trigger] distances[m]).1 <= best,
    ensures
        farthest_in_region(region, (entrance.0 as int, entrance.1 as int), (exit.0 as int, exit.1 as int)),
{
    reveal(distance_entry);
    reveal(farthest_in_region);
    let e = (entrance.0 as int, entrance.1 as int);
    let rv = cells_view(region);
    // Every cell of the region is reached, so its entry is its distance.
    assert forall|k: int| 0 <= k < distances.len() implies (#[trigger] distances[k]).1 != usize::MAX by {
        let c = (distances[k].0.0 as int, distances[k].0.1 as int);
        assert(rv[k] == c);
        assert(rv.contains(c));
        let p = choose|p: Seq<(int, int)>| #[trigger] region_walk(region, e, p) && p.last() == c;
        assert(distance_entry(region, e, c, distances[k].1));
    }
    let m = choose|m: int| 0 <= m < distances.len() && distances[m] == (exit, best);
    let ev = (exit.0 as int, exit.1 as int);
    assert(distance_entry(region, e, ev, best));
    assert(best != usize::MAX);
    assert(region_distance(region, e, ev, best as int));
    assert forall|c: (int, int), d2: int| rv.contains(c) && #[trigger] region_distance(region, e, c, d2) implies d2 <= best by {
        let k = choose|k: int| 0 <= k < rv.len() && rv[k] == c;
        assert(distances[k].0 == region[k]);
        assert((distances[k].0.0 as int, distances[k].0.1 as int) == c);
        assert(distance_entry(region, e, c, distances[k].1));
        assert(distances[k].1 != usize::MAX);
        lemma_region_distance_unique(region, e, c, d2, distances[k].1 as int);
    }
}

/// The distance of `c` from `e` in steps over the cells of `region`.
pub open spec fn region_dist(region: Seq<(i32, i32)>, e: (int, int), c: (int, int)) -> int {
    choose|d: int| region_distance(region, e, c, d)
}

/// Each cell of `region` with its distance from `e`, in the region's order.
pub open spec fn region_distances(region: Seq<(i32, i32)>, e: (int, int)) -> Seq<((i32, i32), usize)> {
    Seq::new(region.len(), |k: int| (region[k], region_dist(region, e, cells_view(region)[k]) as usize))
}

/// `ex` is the last cell of `region` (in its order) at the greatest
/// distance from `e`.
pub open spec fn is_exit(region: Seq<(i32, i32)>, e: (int, int), ex: (i32, i32)) -> bool {
    let d = region_distances(region, e);
    exists|m: int|
        0 <= m < d.len() && #[trigger] d[m].0 == ex && (forall|j: int| 0 <= j < d.len() ==> (#[trigger] d[j]).1 <= d[m].1)
            && (forall|j: int| m < j < d.len() ==> (#[trigger] d[j]).1 < d[m].1)
}

/// The cave before its rooms and decorations: floor on the region, rock
/// elsewhere, stairs up at `su` and stairs down at `ex`.
pub open spec fn cave_base(region: Seq<(i32, i32)>, w: int, h: int, su: (int, int), ex: (int, int)) -> Seq<TileType> {
    Seq::new(
        (w * h) as nat,
        |i: int|
            {
                let c = (i % w, i / w);
                if c == ex {
                    TileType::StairsDown
                } else if c == su {
                    TileType::StairsUp
                } else if cells_view(region).contains(c) {
                    TileType::DungeonFloor
                } else {
                    TileType::DungeonWall
                }
            },
    )
}

/// The cells of `region` marked on a `w` by `h` grid.
pub open spec fn region_mask_seq(region: Seq<(i32, i32)>, w: int, h: int) -> Seq<bool> {
    Seq::new((w * h) as nat, |i: int| cells_view(region).contains((i % w, i / w)))
}

/// The distance search gives every cell of a cave region its distance.
proof fn lemma_distances_exact(region: Seq<(i32, i32)>, w: int, h: int, entrance: (i32, i32), distances: Seq<((i32, i32), usize)>)
    requires
        cave_region_ok(region, w, h, entrance),
        distances.len() == region.len(),
        forall|k: int| 0 <= k < distances.len() ==> (#[trigger] distances[k]).0 == region[k],
        forall|k: int| 0 <= k < distances.len() ==> distance_entry(
            region,
            (entrance.0 as int, entrance.1 as int),
            ((#[trigger] distances[k]).0.0 as int, distances[k].0.1 as int),
            distances[k].1,
        ),
    ensures
        distances == region_distances(region, (entrance.0 as int, entrance.1 as int)),
{
    reveal(distance_entry);
    let e = (entrance.0 as int, entrance.1 as int);
    let rv = cells_view(region);
    assert forall|k: int| 0 <= k < distances.len() implies #[trigger] distances[k] == region_distances(region, e)[k] by {
        let c = (distances[k].0.0 as int, distances[k].0.1 as int);
        assert(rv[k] == c);
        assert(rv.contains(c));
        let p = choose|p: Seq<(int, int)>| #[trigger] region_walk(region, e, p) && p.last() == c;
        assert(distance_entry(region, e, c, distances[k].1));
        assert(distances[k].1 != usize::MAX);
        assert(region_distance(region, e, c, distances[k].1 as int));
        let d = region_dist(region, e, c);
        assert(region_distance(region, e, c, d));
        lemma_region_distance_unique(region, e, c, d, distances[k].1 as int);
    }
    assert(distances =~= region_distances(region, e));
}

/// Floor on the region, rock off it and the two stairs in place: the
/// walkable cells are exactly the region's, all reachable from the entrance.
proof fn lemma_cave_layout(tiles: Seq<TileType>, w: int, h: int, region: Seq<(i32, i32)>, entrance: (i32, i32), su: (int, int), ex: (int, int))
    requires
        tiles.len() == w * h,
        cave_region_ok(region, w, h, entrance),
        cells_view(region).contains(su),
        cells_view(region).contains(ex),
        su != (entrance.0 as int, entrance.1 as int),
        ex != (entrance.0 as int, entrance.1 as int),
        su != ex,
        forall|x: int, y: int|
            cell_in(w, h, x, y) ==> #[trigger] tiles[y * w + x] == if (x, y) == ex {
                TileType::StairsDown
            } else if (x, y) == su {
                TileType::StairsUp
            } else if cells_view(region).contains((x, y)) {
                TileType::DungeonFloor
            } else {
                TileType::DungeonWall
            },
    ensures
        decor_ok(tiles, w, h, region, (entrance.0 as int, entrance.1 as int), su, ex, reach_count(tiles, w, h, (entrance.0 as int, entrance.1 as int)) as int),
{
    let e = (entrance.0 as int, entrance.1 as int);
    let rv = cells_view(region);
    assert(rv[0] == e);
    assert(rv.contains(e));
    assert forall|c: (int, int)| rv.contains(c) implies cell_in(w, h, c.0, c.1) by {
        let j = choose|j: int| 0 <= j < rv.len() && rv[j] == c;
        assert(cell_in(w, h, region[j].0 as int, region[j].1 as int));
    }
    assert forall|x: int, y: int| #[trigger] mask_at(walk_mask(tiles), w, h, x, y) <==> cell_in(w, h, x, y) && rv.contains((x, y)) by {
        if cell_in(w, h, x, y) {
            lemma_cell_index(x, y, w, h);
        }
    }
    lemma_region_reach(region, e, walk_mask(tiles), w, h);
    assert(reach_set(walk_mask(tiles), w, h, e) =~= rv.to_set());
    vstd::seq_lib::seq_to_set_is_finite(rv);
    assert(reach_set(walk_mask(tiles), w, h, e) =~= walkable_with(tiles, w, h, e));
    lemma_cell_index(e.0, e.1, w, h);
    lemma_cell_index(su.0, su.1, w, h);
    lemma_cell_index(ex.0, ex.1, w, h);
}

/// Rock around the region, floor on it, stairs up on the first neighbour
/// of the entrance (up, down, left, right) in the region and stairs down on
/// the last of the cells farthest from the entrance. Returns the map, the
/// two stairs, the distances and the number of reachable cells.
fn lay_cave_and_stairs(width: usize, height: usize, region: &Vec<(i32, i32)>, entrance: (i32, i32)) -> (r: (
    TownMap,
    (i32, i32),
    (i32, i32),
    Vec<((i32, i32), usize)>,
    usize,
))
    requires
        cave_region_ok(region@, width as int, height as int, entrance),
    ensures
        r.0.wf(),
        r.0.width == width,
        r.0.height == height,
        adjacent4((entrance.0 as int, entrance.1 as int), (r.1.0 as int, r.1.1 as int)),
        decor_ok(r.0.tiles@, width as int, height as int, region@, (entrance.0 as int, entrance.1 as int), (r.1.0 as int, r.1.1 as int), (r.2.0 as int, r.2.1 as int), r.4 as int),
        forall|x: int, y: int|
            cell_in(width as int, height as int, x, y) && cells_view(region@).contains((x, y)) && (x, y) != (entrance.0 as int, entrance.1 as int)
                && (x, y) != (r.1.0 as int, r.1.1 as int) && (x, y) != (r.2.0 as int, r.2.1 as int) ==> #[trigger] r.0.tiles@[y * width + x] == TileType::DungeonFloor,
        r.3@.len() == region@.len(),
        forall|k: int| 0 <= k < r.3@.len() ==> (#[trigger] r.3@[k]).0 == region@[k],
        forall|k: int| 0 <= k < r.3@.len() ==> distance_entry(
            region@,
            (entrance.0 as int, entrance.1 as int),
            ((#[trigger] r.3@[k]).0.0 as int, r.3@[k].0.1 as int),
            r.3@[k].1,
        ),
        farthest_in_region(region@, (entrance.0 as int, entrance.1 as int), (r.2.0 as int, r.2.1 as int)),
        r.4 < usize::MAX,
        (r.1.0 as int, r.1.1 as int) == stairs_up_of(region@, (entrance.0 as int, entrance.1 as int)),
        is_exit(region@, (entrance.0 as int, entrance.1 as int), r.2),
        r.3@ == region_distances(region@, (entrance.0 as int, entrance.1 as int)),
        r.0.tiles@ == cave_base(region@, width as int, height as int, (r.1.0 as int, r.1.1 as int), (r.2.0 as int, r.2.1 as int)),
{
    let ghost w = width as int;
    let ghost h = height as int;
    let ghost e = (entrance.0 as int, entrance.1 as int);
    let ghost rv = cells_view(region@);
    let mut map = paint_region(width, height, region);
    let stairs_up = pick_stairs_up(width, height, region, entrance);
    let ghost su = (stairs_up.0 as int, stairs_up.1 as int);
    map.set(stairs_up.0, stairs_up.1, TileType::StairsUp);
    let distances = bfs_distances(region, width, height, entrance);
    let (exit, best) = farthest_entry(&distances);
    let ghost ex = (exit.0 as int, exit.1 as int);
    proof {
        lemma_distances_exact(region@, w, h, entrance, distances@);
        let m0 = choose|m: int| 0 <= m < distances@.len() && distances@[m] == (exit, best)
            && forall|j: int| m < j < distances@.len() ==> (#[trigger] distances@[j]).1 < best;
        assert(distances@[m0].0 == exit);
        lemma_farthest_exit(region@, w, h, entrance, distances@, exit, best);
        let far = lemma_far_cell(region@, e);
        assert(distances@[far].0 == region@[far]);
        assert(distances@[far].1 >= 2);
        let m = choose|m: int| 0 <= m < distances@.len() && distances@[m] == (exit, best)
            && forall|j: int| m < j < distances@.len() ==> (#[trigger] distances@[j]).1 < best;
        assert(distances@[m].0 == region@[m]);
        assert(rv[m] == ex);
        assert(rv.contains(ex));
        assert(ex != e && !adjacent4(e, ex));
        assert(cell_in(w, h, region@[m].0 as int, region@[m].1 as int));
    }
    map.set(exit.0, exit.1, TileType::StairsDown);
    proof {
        assert forall|x: int, y: int|
            cell_in(w, h, x, y) implies #[trigger] map.tiles@[y * w + x] == if (x, y) == ex {
                TileType::StairsDown
            } else if (x, y) == su {
                TileType::StairsUp
            } else if rv.contains((x, y)) {
                TileType::DungeonFloor
            } else {
                TileType::DungeonWall
            } by {
            lemma_cell_index(x, y, w, h);
            assert(map.spec_get(x, y) == Some(map.tiles@[y * w + x]));
        }
        lemma_cave_layout(map.tiles@, w, h, region@, entrance, su, ex);
        lemma_cell_index(e.0, e.1, w, h);
        assert forall|j: int| 0 <= j < map.tiles@.len() implies map.tiles@[j] == cave_base(region@, w, h, su, ex)[j] by {
            lemma_index_cell(j, w, h);
            let x = j % w;
            let y = j / w;
            assert(map.tiles@[y * w + x] == cave_base(region@, w, h, su, ex)[j]);
        }
        assert(map.tiles@ =~= cave_base(region@, w, h, su, ex));
    }
    let first_region = walkable_region(&map, entrance);
    let reachable_before = first_region.len();
    proof {
        vstd::seq_lib::seq_to_set_is_finite(cells_view(first_region@));
        lemma_reach_count_bound(map.tiles@, w, h, e);
        assert forall|x: int, y: int|
            cell_in(w, h, x, y) && rv.contains((x, y)) && (x, y) != e && (x, y) != su && (x, y) != ex implies #[trigger] map.tiles@[y * w + x] == TileType::DungeonFloor by {
            lemma_cell_index(x, y, w, h);
            assert(map.spec_get(x, y) == Some(map.tiles@[y * w + x]));
        }
    }
    (map, stairs_up, exit, distances, reachable_before)
}

/// The cells of the story rooms at `slots`, room after room.
pub open spec fn room_cells(slots: Seq<(i32, i32)>) -> Seq<(i32, i32)>
    decreases slots.len(),
{
    if slots.len() == 0 {
        Seq::empty()
    } else {
        room_cells(slots.drop_last()) + rect_cells(slots.last())
    }
}

/// Every cell of the room at `tl` is a cell of the region, on the map, and
/// none of the entrance and the two stairs.
pub open spec fn slot_clear(w: int, h: int, region: Seq<(i32, i32)>, e: (int, int), su: (int, int), ex: (int, int), tl: (i32, i32)) -> bool {
    forall|c: (int, int)| #[trigger] in_rect(tl, c) ==> cell_in(w, h, c.0, c.1) && cells_view(region).contains(c) && c != e && c != su && c != ex
}

/// Lays the story rooms at `slots` (which fit in the region, avoid the
/// entrance and stairs, and do not overlap); returns their cells.
fn lay_story_rooms(
    map: &mut TownMap,
    entrance: (i32, i32),
    reachable_before: &mut usize,
    slots: &Vec<(i32, i32)>,
    rng: &mut StdRng,
    Ghost(region): Ghost<Seq<(i32, i32)>>,
    Ghost(su): Ghost<(int, int)>,
    Ghost(ex): Ghost<(int, int)>,
) -> (used: Vec<(i32, i32)>)
    requires
        old(map).wf(),
        dims_ok(old(map).width as int, old(map).height as int),
        decor_ok(old(map).tiles@, old(map).width as int, old(map).height as int, region, (entrance.0 as int, entrance.1 as int), su, ex, *old(reachable_before) as int),
        *old(reachable_before) < usize::MAX,
        slots@.len() <= 2,
        forall|m: int| 0 <= m < slots@.len() ==> slot_clear(old(map).width as int, old(map).height as int, region, (entrance.0 as int, entrance.1 as int), su, ex, #[trigger] slots@[m]),
        forall|m: int| 0 <= m < slots@.len() ==> -2 <= (#[trigger] slots@[m]).0 <= i32::MAX - 5 && -2 <= slots@[m].1 <= i32::MAX - 5,
        slots@.len() == 2 ==> !spec_rects_overlap(slots@[0], slots@[1]),
        forall|x: int, y: int|
            cell_in(old(map).width as int, old(map).height as int, x, y) && cells_view(region).contains((x, y)) && (x, y) != (entrance.0 as int, entrance.1 as int)
                && (x, y) != su && (x, y) != ex ==> #[trigger] old(map).tiles@[y * old(map).width + x] == TileType::DungeonFloor,
    ensures
        used@ == room_cells(slots@),
        final(map).wf(),
        final(map).width == old(map).width,
        final(map).height == old(map).height,
        decor_ok(final(map).tiles@, old(map).width as int, old(map).height as int, region, (entrance.0 as int, entrance.1 as int), su, ex, *final(reachable_before) as int),
        *final(reachable_before) < usize::MAX,
        exists|kinds: Seq<TemplateRoomKind>|
            kinds.len() == slots@.len() && (final(map).tiles@, *final(reachable_before) as int) == #[trigger] place_rooms(
                old(map).tiles@,
                old(map).width as int,
                old(map).height as int,
                (entrance.0 as int, entrance.1 as int),
                *old(reachable_before) as int,
                slots@,
                kinds,
            ),
        forall|x: int, y: int|
            cell_in(old(map).width as int, old(map).height as int, x, y) && cells_view(region).contains((x, y)) && (x, y) != (entrance.0 as int, entrance.1 as int)
                && (x, y) != su && (x, y) != ex && !cells_view(used@).contains((x, y)) ==> #[trigger] final(map).tiles@[y * old(map).width + x] == TileType::DungeonFloor,
{
    let ghost w = map.width as int;
    let ghost h = map.height as int;
    let ghost e = (entrance.0 as int, entrance.1 as int);
    let mut used: Vec<(i32, i32)> = Vec::new();
    let ghost mut kinds: Seq<TemplateRoomKind> = Seq::empty();
    let mut t: usize = 0;
    while t < slots.len()
        invariant
            t <= slots@.len(),
            kinds.len() == t,
            used@ == room_cells(slots@.take(t as int)),
            (map.tiles@, *reachable_before as int) == place_rooms(
                old(map).tiles@,
                w,
                h,
                e,
                *old(reachable_before) as int,
                slots@.take(t as int),
                kinds,
            ),
            slots@.len() <= 2,
            map.wf(),
            map.width == old(map).width,
            map.height == old(map).height,
            w == map.width,
            h == map.height,
            dims_ok(w, h),
            e == (entrance.0 as int, entrance.1 as int),
            decor_ok(map.tiles@, w, h, region, e, su, ex, *reachable_before as int),
            *reachable_before < usize::MAX,
            forall|m: int| 0 <= m < slots@.len() ==> slot_clear(w, h, region, e, su, ex, #[trigger] slots@[m]),
            forall|m: int| 0 <= m < slots@.len() ==> -2 <= (#[trigger] slots@[m]).0 <= i32::MAX - 5 && -2 <= slots@[m].1 <= i32::MAX - 5,
            slots@.len() == 2 ==> !spec_rects_overlap(slots@[0], slots@[1]),
            forall|c: (int, int)| #[trigger] cells_view(used@).contains(c) <==> exists|m: int| 0 <= m < t && #[trigger] in_rect(slots@[m], c),
            forall|x: int, y: int|
                cell_in(w, h, x, y) && cells_view(region).contains((x, y)) && (x, y) != e && (x, y) != su && (x, y) != ex
                    && !cells_view(used@).contains((x, y)) ==> #[trigger] map.tiles@[y * w + x] == TileType::DungeonFloor,
        decreases slots@.len() - t,
    {
        let tl = slots[t];
        let ghost t0 = map.tiles@;
        proof {
            assert forall|c: (int, int)| #[trigger] in_rect(tl, c) implies cell_in(w, h, c.0, c.1)
                && cells_view(region).contains(c) && c != e && c != su && c != ex
                && map.tiles@[c.1 * w + c.0] == TileType::DungeonFloor by {
                assert(in_rect(slots@[t as int], c));
                assert(slot_clear(w, h, region, e, su, ex, slots@[t as int]));
                if cells_view(used@).contains(c) {
                    let m = choose|m: int| 0 <= m < t && #[trigger] in_rect(slots@[m], c);
                    assert(m == 0 && t == 1);
                    assert(spec_rects_overlap(slots@[0], slots@[1]));
                }
            }
            lemma_reach_count_bound(map.tiles@, w, h, e);
        }
        let ghost b_in = *reachable_before as int;
        let cells = apply_template_room(map, entrance, reachable_before, tl, rng, Ghost(region), Ghost(su), Ghost(ex));
        proof {
            let kind = choose|kind: TemplateRoomKind|
                room_laid(kind, tl, w, t0, map.tiles@) && (map.tiles@, *reachable_before as int) == #[trigger] place_all(
                    t0,
                    w,
                    h,
                    e,
                    b_in,
                    room_items(kind, tl),
                );
            let k0 = kinds;
            kinds = kinds.push(kind);
            assert(slots@.take(t + 1).drop_last() =~= slots@.take(t as int));
            assert(kinds.drop_last() =~= k0);
            assert(slots@.take(t + 1).last() == tl);
        }
        let ghost used0 = used@;
        let mut z: usize = 0;
        while z < cells.len()
            invariant
                z <= cells@.len(),
                cells@ == rect_cells(tl),
                used@ == used0 + cells@.take(z as int),
            decreases cells@.len() - z,
        {
            used.push(cells[z]);
            assert(used@ =~= used0 + cells@.take(z + 1));
            z = z + 1;
        }
        proof {
            assert(cells@.take(z as int) =~= cells@);
            assert(slots@.take(t + 1).drop_last() =~= slots@.take(t as int));
            assert(room_cells(slots@.take(t + 1)) == room_cells(slots@.take(t as int)) + rect_cells(tl));
            lemma_rect_cells_contains(tl);
            assert forall|c: (int, int)| #[trigger] cells_view(used@).contains(c) <==> exists|m: int| 0 <= m < t + 1 && #[trigger] in_rect(slots@[m], c) by {
                lemma_cells_view_concat_contains(used0, cells@, c);
                if in_rect(tl, c) {
                    assert(in_rect(slots@[t as int], c));
                }
                if exists|m: int| 0 <= m < t + 1 && #[trigger] in_rect(slots@[m], c) {
                    let m = choose|m: int| 0 <= m < t + 1 && #[trigger] in_rect(slots@[m], c);
                    if m < t {
                        assert(exists|m2: int| 0 <= m2 < t && #[trigger] in_rect(slots@[m2], c));
                    }
                }
            }
            assert forall|x: int, y: int|
                cell_in(w, h, x, y) && cells_view(region).contains((x, y)) && (x, y) != e && (x, y) != su && (x, y) != ex
                    && !cells_view(used@).contains((x, y)) implies #[trigger] map.tiles@[y * w + x] == TileType::DungeonFloor by {
                lemma_cells_view_concat_contains(used0, cells@, (x, y));
                assert(!in_rect(tl, (x, y)));
                assert(map.tiles@[y * w + x] == t0[y * w + x]);
            }
            lemma_reach_count_bound(map.tiles@, w, h, e);
        }
        t = t + 1;
    }
    proof {
        assert(slots@.take(t as int) =~= slots@);
    }
    used
}

/// How many of the cells `cands` hold `t`.
pub open spec fn count_placed(tiles: Seq<TileType>, w: int, cands: Seq<(i32, i32)>, t: TileType) -> nat
    decreases cands.len(),
{
    if cands.len() == 0 {
        0
    } else {
        count_placed(tiles, w, cands.drop_last(), t) + if tiles[cands.last().1 * w + cands.last().0] == t {
            1nat
        } else {
            0nat
        }
    }
}

/// Changing a cell that is none of `cands` changes no count over them.
proof fn lemma_count_placed_frame(tiles: Seq<TileType>, tiles2: Seq<TileType>, w: int, cands: Seq<(i32, i32)>, i: int, t: TileType)
    requires
        tiles2.len() == tiles.len(),
        forall|j: int| 0 <= j < tiles.len() && j != i ==> tiles2[j] == tiles[j],
        forall|m: int| 0 <= m < cands.len() ==> (#[trigger] cands[m]).1 * w + cands[m].0 != i
            && 0 <= cands[m].1 * w + cands[m].0 < tiles.len(),
    ensures
        count_placed(tiles2, w, cands, t) == count_placed(tiles, w, cands, t),
    decreases cands.len(),
{
    if cands.len() > 0 {
        let d = cands.drop_last();
        assert forall|m: int| 0 <= m < d.len() implies (#[trigger] d[m]).1 * w + d[m].0 != i
            && 0 <= d[m].1 * w + d[m].0 < tiles.len() by {
            assert(d[m] == cands[m]);
        }
        lemma_count_placed_frame(tiles, tiles2, w, d, i, t);
        assert(cands.last() == cands[cands.len() - 1]);
    }
}

/// Putting `t` on the floor cell of the `k`-th candidate adds one to the
/// count of `t` and leaves the count of any other tile but floor alone.
proof fn lemma_count_placed_set(tiles: Seq<TileType>, w: int, h: int, cands: Seq<(i32, i32)>, k: int, t: TileType, u: TileType)
    requires
        tiles.len() == w * h,
        cells_view(cands).no_duplicates(),
        forall|m: int| 0 <= m < cands.len() ==> cell_in(w, h, (#[trigger] cands[m]).0 as int, cands[m].1 as int),
        0 <= k < cands.len(),
        tiles[cands[k].1 * w + cands[k].0] == TileType::DungeonFloor,
        t != TileType::DungeonFloor,
        u != TileType::DungeonFloor,
    ensures
        count_placed(tiles.update(cands[k].1 * w + cands[k].0, t), w, cands, u)
            == count_placed(tiles, w, cands, u) + if u == t { 1nat } else { 0nat },
    decreases cands.len(),
{
    let i = cands[k].1 * w + cands[k].0;
    let t2 = tiles.update(i, t);
    let d = cands.drop_last();
    let l = cands.len() - 1;
    lemma_cell_index(cands[k].0 as int, cands[k].1 as int, w, h);
    assert(cells_view(d) =~= cells_view(cands).drop_last());
    assert forall|m: int| 0 <= m < d.len() implies cell_in(w, h, (#[trigger] d[m]).0 as int, d[m].1 as int) by {
        assert(d[m] == cands[m]);
    }
    if k == l {
        assert forall|m: int| 0 <= m < d.len() implies (#[trigger] d[m]).1 * w + d[m].0 != i
            && 0 <= d[m].1 * w + d[m].0 < tiles.len() by {
            assert(d[m] == cands[m]);
            assert(cells_view(cands)[m] != cells_view(cands)[l]);
            lemma_cell_index_injective(d[m].0 as int, d[m].1 as int, cands[k].0 as int, cands[k].1 as int, w);
            lemma_cell_index(d[m].0 as int, d[m].1 as int, w, h);
        }
        lemma_count_placed_frame(tiles, t2, w, d, i, u);
    } else {
        assert(d[k] == cands[k]);
        lemma_count_placed_set(tiles, w, h, d, k, t, u);
        assert(cells_view(cands)[k] != cells_view(cands)[l]);
        lemma_cell_index_injective(cands[l].0 as int, cands[l].1 as int, cands[k].0 as int, cands[k].1 as int, w);
        lemma_cell_index(cands[l].0 as int, cands[l].1 as int, w, h);
        assert(t2[cands[l].1 * w + cands[l].0] == tiles[cands[l].1 * w + cands[l].0]);
    }
}

/// No count of a tile other than floor over cells that are all floor.
proof fn lemma_count_placed_floor(tiles: Seq<TileType>, w: int, cands: Seq<(i32, i32)>, u: TileType)
    requires
        u != TileType::DungeonFloor,
        forall|m: int| 0 <= m < cands.len() ==> #[trigger] tiles[cands[m].1 * w + cands[m].0] == TileType::DungeonFloor,
    ensures
        count_placed(tiles, w, cands, u) == 0,
    decreases cands.len(),
{
    if cands.len() > 0 {
        let d = cands.drop_last();
        assert forall|m: int| 0 <= m < d.len() implies #[trigger] tiles[d[m].1 * w + d[m].0] == TileType::DungeonFloor by {
            assert(d[m] == cands[m]);
        }
        lemma_count_placed_floor(tiles, w, d, u);
        assert(tiles[cands[cands.len() - 1].1 * w + cands[cands.len() - 1].0] == TileType::DungeonFloor);
    }
}

/// Tries chests, then a monster, on the `candidates` in order until two
/// chests and one monster stand, each kept as `try_place_tile` decides.
fn scatter_decorations(
    map: &mut TownMap,
    entrance: (i32, i32),
    reachable_before: &mut usize,
    candidates: &Vec<(i32, i32)>,
    Ghost(region): Ghost<Seq<(i32, i32)>>,
    Ghost(su): Ghost<(int, int)>,
    Ghost(ex): Ghost<(int, int)>,
)
    requires
        old(map).wf(),
        dims_ok(old(map).width as int, old(map).height as int),
        decor_ok(old(map).tiles@, old(map).width as int, old(map).height as int, region, (entrance.0 as int, entrance.1 as int), su, ex, *old(reachable_before) as int),
        *old(reachable_before) < usize::MAX,
        cells_view(candidates@).no_duplicates(),
        forall|m: int| 0 <= m < candidates@.len() ==> {
            let c = (#[trigger] candidates@[m]);
            &&& cell_in(old(map).width as int, old(map).height as int, c.0 as int, c.1 as int)
            &&& cells_view(region).contains((c.0 as int, c.1 as int))
            &&& (c.0 as int, c.1 as int) != (entrance.0 as int, entrance.1 as int) && (c.0 as int, c.1 as int) != su && (c.0 as int, c.1 as int) != ex
            &&& old(map).tiles@[c.1 * old(map).width + c.0] == TileType::DungeonFloor
        },
    ensures
        ({
            let st = scatter_state(
                old(map).tiles@,
                old(map).width as int,
                old(map).height as int,
                (entrance.0 as int, entrance.1 as int),
                *old(reachable_before) as int,
                candidates@,
            );
            final(map).tiles@ == st.0 && *final(reachable_before) as int == st.1
        }),
        final(map).wf(),
        final(map).width == old(map).width,
        final(map).height == old(map).height,
        decor_ok(final(map).tiles@, old(map).width as int, old(map).height as int, region, (entrance.0 as int, entrance.1 as int), su, ex, *final(reachable_before) as int),
        count_placed(final(map).tiles@, old(map).width as int, candidates@, TileType::ChestClosed) <= 2,
        count_placed(final(map).tiles@, old(map).width as int, candidates@, TileType::MonsterSymbol) <= 1,
        count_placed(final(map).tiles@, old(map).width as int, candidates@, TileType::MonsterSymbol) == 1
            ==> count_placed(final(map).tiles@, old(map).width as int, candidates@, TileType::ChestClosed) == 2,
        forall|m: int| 0 <= m < candidates@.len() ==> {
            let t = #[trigger] final(map).tiles@[candidates@[m].1 * old(map).width + candidates@[m].0];
            t == TileType::DungeonFloor || t == TileType::ChestClosed || t == TileType::MonsterSymbol
        },
        forall|x: int, y: int|
            cell_in(old(map).width as int, old(map).height as int, x, y) && !cells_view(candidates@).contains((x, y))
                ==> #[trigger] final(map).tiles@[y * old(map).width + x] == old(map).tiles@[y * old(map).width + x],
{
    let ghost w = map.width as int;
    let ghost h = map.height as int;
    let ghost e = (entrance.0 as int, entrance.1 as int);
    proof {
        lemma_count_placed_floor(map.tiles@, w, candidates@, TileType::ChestClosed);
        lemma_count_placed_floor(map.tiles@, w, candidates@, TileType::MonsterSymbol);
    }
    let mut placed_chests: usize = 0;
    let mut placed_monster = false;
    let mut k: usize = 0;
    while k < candidates.len() && !(placed_chests >= 2 && placed_monster)
        invariant
            k <= candidates@.len(),
            placed_chests <= 2,
            map.wf(),
            map.width == old(map).width,
            map.height == old(map).height,
            w == map.width,
            h == map.height,
            dims_ok(w, h),
            e == (entrance.0 as int, entrance.1 as int),
            decor_ok(map.tiles@, w, h, region, e, su, ex, *reachable_before as int),
            *reachable_before < usize::MAX,
            cells_view(candidates@).no_duplicates(),
            forall|m: int| 0 <= m < candidates@.len() ==> {
                let c = (#[trigger] candidates@[m]);
                &&& cell_in(w, h, c.0 as int, c.1 as int)
                &&& cells_view(region).contains((c.0 as int, c.1 as int))
                &&& (c.0 as int, c.1 as int) != e && (c.0 as int, c.1 as int) != su && (c.0 as int, c.1 as int) != ex
            },
            forall|m: int| k <= m < candidates@.len() ==> #[trigger] map.tiles@[candidates@[m].1 * w + candidates@[m].0] == TileType::DungeonFloor,
            count_placed(map.tiles@, w, candidates@, TileType::ChestClosed) == placed_chests,
            count_placed(map.tiles@, w, candidates@, TileType::MonsterSymbol) == if placed_monster { 1nat } else { 0nat },
            placed_monster ==> placed_chests == 2,
            scatter_state(old(map).tiles@, w, h, e, *old(reachable_before) as int, candidates@.take(k as int)) == (
                map.tiles@,
                *reachable_before as int,
                placed_chests as int,
                placed_monster,
            ),
            forall|m: int| 0 <= m < candidates@.len() ==> {
                let t = #[trigger] map.tiles@[candidates@[m].1 * w + candidates@[m].0];
                t == TileType::DungeonFloor || t == TileType::ChestClosed || t == TileType::MonsterSymbol
            },
            forall|x: int, y: int|
                cell_in(w, h, x, y) && !cells_view(candidates@).contains((x, y))
                    ==> #[trigger] map.tiles@[y * w + x] == old(map).tiles@[y * w + x],
        decreases candidates@.len() - k,
    {
        let pos = candidates[k];
        let tile = if placed_chests < 2 { TileType::ChestClosed } else { TileType::MonsterSymbol };
        let ghost t0 = map.tiles@;
        let ghost b0 = *reachable_before as int;
        proof {
            assert(candidates@[k as int] == pos);
        }
        let ok = try_place_tile(map, entrance, reachable_before, pos, tile);
        proof {
            assert(candidates@.take(k + 1).drop_last() =~= candidates@.take(k as int));
            assert(candidates@.take(k + 1).last() == pos);
            lemma_placement_keeps(t0, w, h, region, e, su, ex, b0, (pos.0 as int, pos.1 as int), tile, ok, map.tiles@, *reachable_before as int);
            assert forall|m: int| k + 1 <= m < candidates@.len() implies #[trigger] map.tiles@[candidates@[m].1 * w + candidates@[m].0] == TileType::DungeonFloor by {
                assert(cells_view(candidates@)[m] != cells_view(candidates@)[k as int]);
                assert(map.tiles@[candidates@[m].1 * w + candidates@[m].0] == t0[candidates@[m].1 * w + candidates@[m].0]);
            }
            lemma_reach_count_bound(map.tiles@, w, h, e);
            let i = pos.1 * w + pos.0;
            lemma_cell_index(pos.0 as int, pos.1 as int, w, h);
            assert(t0[i] == TileType::DungeonFloor);
            if ok {
                assert(map.tiles@ =~= t0.update(i, tile)) by {
                    assert forall|j: int| 0 <= j < t0.len() implies map.tiles@[j] == t0.update(i, tile)[j] by {
                        if j != i {
                            lemma_index_cell(j, w, h);
                            let x = j % w;
                            let y = j / w;
                            assert(map.tiles@[y * w + x] == t0[y * w + x]);
                        }
                    }
                }
                lemma_count_placed_set(t0, w, h, candidates@, k as int, tile, TileType::ChestClosed);
                lemma_count_placed_set(t0, w, h, candidates@, k as int, tile, TileType::MonsterSymbol);
            } else {
                assert(map.tiles@ == t0);
            }
            assert forall|m: int| 0 <= m < candidates@.len() implies {
                let t = #[trigger] map.tiles@[candidates@[m].1 * w + candidates@[m].0];
                t == TileType::DungeonFloor || t == TileType::ChestClosed || t == TileType::MonsterSymbol
            } by {
                if m != k {
                    assert(cells_view(candidates@)[m] != cells_view(candidates@)[k as int]);
                    assert(map.tiles@[candidates@[m].1 * w + candidates@[m].0] == t0[candidates@[m].1 * w + candidates@[m].0]);
                }
            }
            assert forall|x: int, y: int|
                cell_in(w, h, x, y) && !cells_view(candidates@).contains((x, y))
                    implies #[trigger] map.tiles@[y * w + x] == old(map).tiles@[y * w + x] by {
                assert(cells_view(candidates@)[k as int] == (pos.0 as int, pos.1 as int));
                assert(map.tiles@[y * w + x] == t0[y * w + x]);
            }
        }
        if ok {
            if placed_chests < 2 {
                placed_chests = placed_chests + 1;
            } else {
                placed_monster = true;
            }
        }
        k = k + 1;
    }
    proof {
        lemma_scatter_settled(old(map).tiles@, w, h, e, *old(reachable_before) as int, candidates@, k as int);
    }
}

/// Once every candidate was tried, or two chests and the monster stand,
/// the remaining candidates change nothing.
proof fn lemma_scatter_settled(tiles: Seq<TileType>, w: int, h: int, e: (int, int), before: int, cands: Seq<(i32, i32)>, k: int)
    requires
        0 <= k <= cands.len(),
        k < cands.len() ==> scatter_state(tiles, w, h, e, before, cands.take(k)).2 >= 2 && scatter_state(
            tiles,
            w,
            h,
            e,
            before,
            cands.take(k),
        ).3,
    ensures
        scatter_state(tiles, w, h, e, before, cands) == scatter_state(tiles, w, h, e, before, cands.take(k)),
    decreases cands.len() - k,
{
    if k < cands.len() {
        assert(cands.take(k + 1).drop_last() =~= cands.take(k));
        lemma_scatter_settled(tiles, w, h, e, before, cands, k + 1);
    } else {
        assert(cands.take(k) =~= cands);
    }
}

/// A cell that may get a chest or the monster: none of the entrance and the
/// stairs, and outside the story rooms.
pub open spec fn deco_candidate(c: (i32, i32), entrance: (i32, i32), su: (i32, i32), ex: (i32, i32), used: Seq<(i32, i32)>) -> bool {
    c != entrance && c != su && c != ex && !cells_view(used).contains((c.0 as int, c.1 as int))
}

/// The cells of `region` that may get a chest or the monster, in order.
pub open spec fn deco_candidates(
    region: Seq<(i32, i32)>,
    entrance: (i32, i32),
    su: (i32, i32),
    ex: (i32, i32),
    used: Seq<(i32, i32)>,
) -> Seq<(i32, i32)> {
    region.filter(|c: (i32, i32)| deco_candidate(c, entrance, su, ex, used))
}

/// The region's cells other than the entrance, the stairs and the story
/// rooms, in the region's order.
fn decoration_candidates(
    region: &Vec<(i32, i32)>,
    entrance: (i32, i32),
    stairs_up: (i32, i32),
    exit: (i32, i32),
    used: &Vec<(i32, i32)>,
) -> (r: Vec<(i32, i32)>)
    requires
        cells_view(region@).no_duplicates(),
    ensures
        r@ == deco_candidates(region@, entrance, stairs_up, exit, used@),
        cells_view(r@).no_duplicates(),
        forall|m: int| 0 <= m < r@.len() ==> {
            let c = (#[trigger] r@[m]);
            &&& region@.contains(c)
            &&& (c.0 as int, c.1 as int) != (entrance.0 as int, entrance.1 as int)
            &&& (c.0 as int, c.1 as int) != (stairs_up.0 as int, stairs_up.1 as int)
            &&& (c.0 as int, c.1 as int) != (exit.0 as int, exit.1 as int)
            &&& !cells_view(used@).contains((c.0 as int, c.1 as int))
        },
{
    let mut candidates: Vec<(i32, i32)> = Vec::new();
    let mut j: usize = 0;
    while j < region.len()
        invariant
            j <= region@.len(),
            cells_view(region@).no_duplicates(),
            cells_view(candidates@).no_duplicates(),
            candidates@ == deco_candidates(region@.take(j as int), entrance, stairs_up, exit, used@),
            forall|m: int| 0 <= m < candidates@.len() ==> {
                let c = (#[trigger] candidates@[m]);
                &&& region@.contains(c)
                &&& (c.0 as int, c.1 as int) != (entrance.0 as int, entrance.1 as int)
                &&& (c.0 as int, c.1 as int) != (stairs_up.0 as int, stairs_up.1 as int)
                &&& (c.0 as int, c.1 as int) != (exit.0 as int, exit.1 as int)
                &&& !cells_view(used@).contains((c.0 as int, c.1 as int))
            },
            forall|m: int| 0 <= m < candidates@.len() ==> exists|n: int| 0 <= n < j && #[trigger] region@[n] == #[trigger] candidates@[m],
        decreases region@.len() - j,
    {
        let c = region[j];
        proof {
            assert(region@.take(j + 1).drop_last() =~= region@.take(j as int));
            assert(region@.take(j + 1).last() == c);
            reveal(Seq::filter);
        }
        let is_reserved = (c.0 == entrance.0 && c.1 == entrance.1) || (c.0 == stairs_up.0 && c.1 == stairs_up.1) || (c.0
            == exit.0 && c.1 == exit.1);
        if !is_reserved && !contains_cell(used, c) {
            let ghost before = candidates@;
            proof {
                assert(region@[j as int] == c);
                assert(cells_view(region@)[j as int] == (c.0 as int, c.1 as int));
                assert(!cells_view(before).contains((c.0 as int, c.1 as int))) by {
                    if cells_view(before).contains((c.0 as int, c.1 as int)) {
                        let m = choose|m: int| 0 <= m < cells_view(before).len() && cells_view(before)[m] == (c.0 as int, c.1 as int);
                        let n = choose|n: int| 0 <= n < j && #[trigger] region@[n] == #[trigger] before[m];
                        assert(cells_view(region@)[n] == cells_view(region@)[j as int]);
                    }
                }
            }
            candidates.push(c);
            proof {
                assert(cells_view(candidates@) =~= cells_view(before).push((c.0 as int, c.1 as int)));
                assert forall|m: int| 0 <= m < candidates@.len() implies exists|n: int| 0 <= n < j + 1 && #[trigger] region@[n] == #[trigger] candidates@[m] by {
                    if m < before.len() {
                        let n = choose|n: int| 0 <= n < j && #[trigger] region@[n] == #[trigger] before[m];
                        assert(region@[n] == candidates@[m]);
                    } else {
                        assert(region@[j as int] == candidates@[m]);
                    }
                }
            }
        }
        j = j + 1;
    }
    proof {
        assert(region@.take(j as int) =~= region@);
    }
    candidates
}

/// Lays the floor out on the cave `region` (which starts at `entrance`):
/// rock around it, stairs up next to the entrance and stairs down at a
/// farthest cell, story rooms far from the entrance, then two chests and a
/// monster on floor cells in random order, each kept only where it cuts
/// nobody off.
fn build_map(width: usize, height: usize, region: &Vec<(i32, i32)>, entrance: (i32, i32), rng: &mut StdRng) -> (r: TownMap)
    requires
        cave_region_ok(region@, width as int, height as int, entrance),
    ensures
        r.wf(),
        r.width == width,
        r.height == height,
        exists|su: (int, int), ex: (int, int)|
            adjacent4((entrance.0 as int, entrance.1 as int), su) && #[trigger] decor_ok(
                r.tiles@,
                width as int,
                height as int,
                region@,
                (entrance.0 as int, entrance.1 as int),
                su,
                ex,
                reach_count(r.tiles@, width as int, height as int, (entrance.0 as int, entrance.1 as int)) as int,
            ) && farthest_in_region(region@, (entrance.0 as int, entrance.1 as int), ex),
        cave_built(region@, width as int, height as int, entrance, r.tiles@),
{
    let ghost w = width as int;
    let ghost h = height as int;
    let ghost e = (entrance.0 as int, entrance.1 as int);
    let (mut map, stairs_up, exit, distances, mut reachable_before) = lay_cave_and_stairs(width, height, region, entrance);
    let ghost su = (stairs_up.0 as int, stairs_up.1 as int);
    let ghost ex = (exit.0 as int, exit.1 as int);
    let rmask = region_mask(region, width, height);
    let mut reserved: Vec<(i32, i32)> = Vec::new();
    reserved.push(entrance);
    reserved.push(stairs_up);
    reserved.push(exit);
    let sorted = sort_by_distance_desc(&distances);
    proof {
        lemma_sort_desc_cells(distances@, region@, w, h);
    }
    let count = choose_template_room_count(rng);
    let ghost count_roll = choose|roll: int| 0 <= roll < 100 && count == spec_template_room_count(roll);
    let slots = find_template_slots(&sorted, &rmask, width, height, &reserved, count);
    let ghost base = map.tiles@;
    let ghost b0 = reachable_before as int;
    proof {
        lemma_slots_fit(sorted@, rmask@, w, h, reserved@, count as int);
        assert(cells_view(reserved@) =~= seq![e, su, ex]);
        assert forall|m: int| 0 <= m < slots@.len() implies slot_clear(w, h, region@, e, su, ex, #[trigger] slots@[m]) by {
            assert forall|c: (int, int)| #[trigger] in_rect(slots@[m], c) implies
                cell_in(w, h, c.0, c.1) && cells_view(region@).contains(c) && c != e && c != su && c != ex by {
                assert(spec_rect_fits(rmask@, w, h, reserved@, slots@[m]));
                assert(mask_at(rmask@, w, h, c.0, c.1));
                assert(!cells_view(reserved@).contains(c));
                assert(cells_view(reserved@)[0] == e && cells_view(reserved@)[1] == su && cells_view(reserved@)[2] == ex);
            }
        }
    }
    let used = lay_story_rooms(&mut map, entrance, &mut reachable_before, &slots, rng, Ghost(region@), Ghost(su), Ghost(ex));
    let ghost kinds = choose|kinds: Seq<TemplateRoomKind>|
        kinds.len() == slots@.len() && (map.tiles@, reachable_before as int) == #[trigger] place_rooms(base, w, h, e, b0, slots@, kinds);
    let ghost rooms = (map.tiles@, reachable_before as int);
    let mut candidates = decoration_candidates(region, entrance, stairs_up, exit, &used);
    let ghost cand0 = candidates@;
    shuffle_cells(&mut candidates, rng);
    proof {
        lemma_shuffled_cells(cand0, candidates@);
        assert forall|m: int| 0 <= m < candidates@.len() implies {
            let c = (#[trigger] candidates@[m]);
            &&& cell_in(w, h, c.0 as int, c.1 as int)
            &&& cells_view(region@).contains((c.0 as int, c.1 as int))
            &&& (c.0 as int, c.1 as int) != e && (c.0 as int, c.1 as int) != su && (c.0 as int, c.1 as int) != ex
            &&& map.tiles@[c.1 * w + c.0] == TileType::DungeonFloor
        } by {
            let c = candidates@[m];
            assert(candidates@.contains(c));
            assert(cand0.contains(c));
            let m0 = choose|m0: int| 0 <= m0 < cand0.len() && cand0[m0] == c;
            assert(region@.contains(cand0[m0]));
            let n = choose|n: int| 0 <= n < region@.len() && region@[n] == c;
            assert(cells_view(region@)[n] == (c.0 as int, c.1 as int));
            assert(cell_in(w, h, region@[n].0 as int, region@[n].1 as int));
        }
    }
    scatter_decorations(&mut map, entrance, &mut reachable_before, &candidates, Ghost(region@), Ghost(su), Ghost(ex));
    proof {
        assert(decor_ok(map.tiles@, w, h, region@, e, su, ex, reach_count(map.tiles@, w, h, e) as int));
        assert(reserved@ =~= seq![entrance, stairs_up, exit]);
        assert(cave_laid_out(region@, w, h, entrance, stairs_up, exit, count_roll, kinds, candidates@, map.tiles@));
    }
    map
}

/// The tile the fallback corridor puts at `(x, y)`: floor along the
/// entrance's row from the entrance east to the column before the east wall,
/// stairs up just west of the entrance (east when the entrance is next to the
/// west wall), stairs down at the corridor's east end, rock elsewhere.
pub open spec fn spec_fallback_tile(w: int, e: (int, int), x: int, y: int) -> TileType {
    let end_x = w - 2;
    let su_x = if e.0 > 1 { e.0 - 1 } else { e.0 + 1 };
    if y == e.1 && x == end_x {
        TileType::StairsDown
    } else if y == e.1 && x == su_x {
        TileType::StairsUp
    } else if y == e.1 && e.0 <= x <= end_x {
        TileType::DungeonFloor
    } else {
        TileType::DungeonWall
    }
}

/// The plain corridor used when no cave of the wanted size grew.
pub fn fallback_corridor(width: usize, height: usize, entrance: (i32, i32)) -> (map: TownMap)
    requires
        dims_ok(width as int, height as int),
    ensures
        map.wf(),
        map.width == width,
        map.height == height,
        forall|x: int, y: int|
            cell_in(width as int, height as int, x, y) ==> #[trigger] map.spec_get(x, y) == Some(
                spec_fallback_tile(width as int, (entrance.0 as int, entrance.1 as int), x, y),
            ),
{
    let ghost w = width as int;
    let ghost h = height as int;
    let ghost e = (entrance.0 as int, entrance.1 as int);
    let mut map = TownMap::new(width, height, TileType::DungeonWall);
    let y = entrance.1;
    let end_x = width as i32 - 2;
    if entrance.0 <= end_x {
        let mut x = entrance.0;
        while x <= end_x
            invariant
                entrance.0 <= x <= end_x + 1,
                end_x == w - 2,
                dims_ok(w, h),
                y == entrance.1,
                map.wf(),
                map.width == width,
                map.height == height,
                forall|i: int, j: int|
                    cell_in(w, h, i, j) ==> #[trigger] map.spec_get(i, j) == Some(
                        if j == y && entrance.0 <= i < x { TileType::DungeonFloor } else { TileType::DungeonWall },
                    ),
            decreases end_x + 1 - x,
        {
            map.set(x, y, TileType::DungeonFloor);
            x = x + 1;
        }
    }
    let stairs_up_x = if entrance.0 > 1 {
        entrance.0 - 1
    } else {
        entrance.0 + 1
    };
    map.set(stairs_up_x, y, TileType::StairsUp);
    map.set(end_x, y, TileType::StairsDown);
    map
}

/// Every walk from `start` over `pass` stays inside the cells reachable
/// from it: a region that is exactly the reachable set is connected.
proof fn lemma_flood_region_connected(pass: Seq<bool>, w: int, h: int, region: Seq<(i32, i32)>, start: (int, int))
    requires
        cells_view(region).to_set() == reach_set(pass, w, h, start),
    ensures
        region_connected(region, start),
{
    let rv = cells_view(region);
    assert forall|c: (int, int)| #[trigger] rv.contains(c) implies exists|p: Seq<(int, int)>| #[trigger] region_walk(region, start, p) && p.last() == c by {
        assert(rv.to_set().contains(c));
        assert(reachable(pass, w, h, start, c));
        let p = choose|p: Seq<(int, int)>| #[trigger] is_walk(pass, w, h, start, p) && p.last() == c;
        assert forall|i: int| 1 <= i < p.len() implies adjacent4(p[i - 1], #[trigger] p[i]) && rv.contains(p[i]) by {
            let q = p.take(i + 1);
            assert(is_walk(pass, w, h, start, q)) by {
                assert forall|j: int| 1 <= j < q.len() implies adjacent4(q[j - 1], #[trigger] q[j]) && mask_at(pass, w, h, q[j].0, q[j].1) by {
                    assert(q[j] == p[j] && q[j - 1] == p[j - 1]);
                }
            }
            assert(q.last() == p[i]);
            assert(reach_set(pass, w, h, start).contains(p[i]));
            assert(rv.to_set().contains(p[i]));
        }
        assert(region_walk(region, start, p));
    }
}

/// The cell of an index is the cell the index was made from.
proof fn lemma_index_of_cell(x: int, y: int, w: int, h: int)
    requires
        cell_in(w, h, x, y),
    ensures
        (y * w + x) % w == x,
        (y * w + x) / w == y,
{
    let j = y * w + x;
    lemma_cell_index(x, y, w, h);
    lemma_index_cell(j, w, h);
    lemma_cell_index_injective(j % w, j / w, x, y, w);
}

/// One smoothing pass over the whole grid.
pub open spec fn smooth_pass(f: Seq<bool>, w: int, h: int) -> Seq<bool> {
    Seq::new(f.len(), |i: int| smoothed(f, w, h, i % w, i / w))
}

/// `n` smoothing passes.
pub open spec fn smooth_times(f: Seq<bool>, w: int, h: int, n: nat) -> Seq<bool>
    decreases n,
{
    if n == 0 {
        f
    } else {
        smooth_pass(smooth_times(f, w, h, (n - 1) as nat), w, h)
    }
}

/// The grid of one attempt grown from the seed `fill`: smoothed
/// `CAVE_SMOOTH_ITERATIONS` times, then the entrance made floor.
pub open spec fn cave_mask(fill: Seq<bool>, w: int, h: int, e: (int, int)) -> Seq<bool> {
    smooth_times(fill, w, h, CAVE_SMOOTH_ITERATIONS as nat).update(e.1 * w + e.0, true)
}

/// A seed of the right size whose outer ring is rock.
pub open spec fn ring_rock(f: Seq<bool>, w: int, h: int) -> bool {
    &&& f.len() == w * h
    &&& forall|x: int, y: int| cell_in(w, h, x, y) && !interior(w, h, x, y) ==> !#[trigger] mask_at(f, w, h, x, y)
}

/// An attempt is kept when the region around the entrance has at least
/// `CAVE_MIN_FLOOR_TILES` cells.
pub open spec fn attempt_accepted(fill: Seq<bool>, w: int, h: int, e: (int, int)) -> bool {
    reach_set(cave_mask(fill, w, h, e), w, h, e).len() >= CAVE_MIN_FLOOR_TILES
}

/// `region` lists the cells reachable from `entrance` over `mask`, each once,
/// the entrance first.
pub open spec fn flood_region(mask: Seq<bool>, w: int, h: int, entrance: (i32, i32), region: Seq<(i32, i32)>) -> bool {
    &&& region.len() >= 1
    &&& region[0] == entrance
    &&& cells_view(region).no_duplicates()
    &&& cells_view(region).to_set() == reach_set(mask, w, h, (entrance.0 as int, entrance.1 as int))
    &&& forall|k: int| 0 <= k < region.len() ==> cell_in(w, h, (#[trigger] region[k]).0 as int, region[k].1 as int)
}

proof fn lemma_smooth_ring(f: Seq<bool>, w: int, h: int, n: nat)
    requires
        ring_rock(f, w, h),
        w > 0,
    ensures
        ring_rock(smooth_times(f, w, h, n), w, h),
    decreases n,
{
    if n > 0 {
        let g = smooth_times(f, w, h, (n - 1) as nat);
        lemma_smooth_ring(f, w, h, (n - 1) as nat);
        assert forall|x: int, y: int| cell_in(w, h, x, y) && !interior(w, h, x, y) implies !#[trigger] mask_at(
            smooth_pass(g, w, h),
            w,
            h,
            x,
            y,
        ) by {
            lemma_cell_index(x, y, w, h);
            lemma_index_of_cell(x, y, w, h);
            assert(!mask_at(g, w, h, x, y));
        }
    }
}

/// One attempt at a cave from the seed `fill`: smooth it
/// `CAVE_SMOOTH_ITERATIONS` times, make the entrance floor and flood from
/// it; the region is kept when it has at least `CAVE_MIN_FLOOR_TILES` cells.
pub fn cave_attempt(fill: &Vec<bool>, width: usize, height: usize, entrance: (i32, i32)) -> (r: Option<Vec<(i32, i32)>>)
    requires
        fill@.len() == width * height,
        dims_ok(width as int, height as int),
        cell_in(width as int, height as int, entrance.0 as int, entrance.1 as int),
    ensures
        r is Some <==> attempt_accepted(fill@, width as int, height as int, (entrance.0 as int, entrance.1 as int)),
        r matches Some(v) ==> flood_region(
            cave_mask(fill@, width as int, height as int, (entrance.0 as int, entrance.1 as int)),
            width as int,
            height as int,
            entrance,
            v@,
        ),
{
    let ghost w = width as int;
    let ghost h = height as int;
    let ghost e = (entrance.0 as int, entrance.1 as int);
    let mut floor = smooth_step(fill, width, height);
    proof {
        assert(smooth_times(fill@, w, h, 0) == fill@);
        assert(floor@ =~= smooth_times(fill@, w, h, 1));
    }
    let mut s: usize = 1;
    while s < CAVE_SMOOTH_ITERATIONS
        invariant
            1 <= s <= CAVE_SMOOTH_ITERATIONS,
            floor@ == smooth_times(fill@, w, h, s as nat),
            floor@.len() == width * height,
            fill@.len() == width * height,
            dims_ok(w, h),
            w == width,
            h == height,
        decreases CAVE_SMOOTH_ITERATIONS - s,
    {
        let next = smooth_step(&floor, width, height);
        proof {
            assert(next@ =~= smooth_pass(floor@, w, h));
        }
        floor = next;
        s = s + 1;
    }
    proof {
        lemma_cell_index(e.0, e.1, w, h);
    }
    let entrance_idx = idx(width, entrance.0, entrance.1);
    floor.set(entrance_idx, true);
    proof {
        assert(floor@ =~= cave_mask(fill@, w, h, e));
    }
    let region = flood_fill(&floor, width, height, entrance);
    proof {
        cells_view(region@).unique_seq_to_set();
    }
    if region.len() >= CAVE_MIN_FLOOR_TILES {
        Some(region)
    } else {
        None
    }
}

/// What every floor the cave generator returns is: a cave grown around the
/// entrance of at least `CAVE_MIN_FLOOR_TILES` cells with its stairs and
/// decorations in order, or else the fallback corridor.
pub open spec fn dungeon_floor_ok(map: TownMap, w: int, h: int, entrance: (i32, i32)) -> bool {
    let e = (entrance.0 as int, entrance.1 as int);
    ||| exists|region: Seq<(i32, i32)>, su: (int, int), ex: (int, int)|
        #[trigger] cave_region_ok(region, w, h, entrance) && region.len() >= CAVE_MIN_FLOOR_TILES && adjacent4(e, su)
            && #[trigger] decor_ok(map.tiles@, w, h, region, e, su, ex, reach_count(map.tiles@, w, h, e) as int)
            && farthest_in_region(region, e, ex)
    ||| forall|x: int, y: int| cell_in(w, h, x, y) ==> #[trigger] map.spec_get(x, y) == Some(spec_fallback_tile(w, e, x, y))
}

/// A region flooded from a seed with a rock ring, large enough to keep, is
/// a cave region to lay out.
proof fn lemma_flood_region_ok(fill: Seq<bool>, w: int, h: int, entrance: (i32, i32), region: Seq<(i32, i32)>)
    requires
        dims_ok(w, h),
        cell_in(w, h, entrance.0 as int, entrance.1 as int),
        ring_rock(fill, w, h),
        flood_region(cave_mask(fill, w, h, (entrance.0 as int, entrance.1 as int)), w, h, entrance, region),
        region.len() >= CAVE_MIN_FLOOR_TILES,
    ensures
        cave_region_ok(region, w, h, entrance),
{
    let e = (entrance.0 as int, entrance.1 as int);
    let sm = smooth_times(fill, w, h, CAVE_SMOOTH_ITERATIONS as nat);
    let mask = cave_mask(fill, w, h, e);
    let rv = cells_view(region);
    lemma_smooth_ring(fill, w, h, CAVE_SMOOTH_ITERATIONS as nat);
    lemma_flood_region_connected(mask, w, h, region, e);
    lemma_cell_index(e.0, e.1, w, h);
    assert forall|k: int| 0 <= k < region.len() && #[trigger] region[k] != entrance implies interior(
        w,
        h,
        region[k].0 as int,
        region[k].1 as int,
    ) by {
        let c = rv[k];
        assert(rv.contains(c));
        assert(rv.to_set().contains(c));
        assert(reachable(mask, w, h, e, c));
        let p = choose|p: Seq<(int, int)>| #[trigger] is_walk(mask, w, h, e, p) && p.last() == c;
        assert(c != e);
        assert(p.len() >= 2);
        assert(mask_at(mask, w, h, p[p.len() - 1].0, p[p.len() - 1].1));
        assert(cell_in(w, h, c.0, c.1));
        lemma_cell_index(c.0, c.1, w, h);
        lemma_cell_index_injective(c.0, c.1, e.0, e.1, w);
        assert(sm[c.1 * w + c.0]);
        if !interior(w, h, c.0, c.1) {
            assert(!mask_at(sm, w, h, c.0, c.1));
        }
    }
}

/// The floor `tiles` laid out on the cave `region` from the entrance, for
/// the drawn values: the roll `count_roll` for the number of story rooms,
/// their `kinds`, and the decoration candidates in the drawn order
/// `shuffled`. Stairs up go on the first neighbour of the entrance in the
/// region (up, down, left, right), stairs down on the last of the farthest
/// cells; the story rooms go on the slots chosen from the cells sorted by
/// distance, each special tile tried as `try_place_tile` does; then chests
/// and the monster are tried on the candidates as `scatter_decorations` does.
pub open spec fn cave_laid_out(
    region: Seq<(i32, i32)>,
    w: int,
    h: int,
    entrance: (i32, i32),
    su: (i32, i32),
    ex: (i32, i32),
    count_roll: int,
    kinds: Seq<TemplateRoomKind>,
    shuffled: Seq<(i32, i32)>,
    tiles: Seq<TileType>,
) -> bool {
    let e = (entrance.0 as int, entrance.1 as int);
    let base = cave_base(region, w, h, (su.0 as int, su.1 as int), (ex.0 as int, ex.1 as int));
    let slots = spec_template_slots(
        sort_desc(region_distances(region, e)),
        region_mask_seq(region, w, h),
        w,
        h,
        seq![entrance, su, ex],
        spec_template_room_count(count_roll) as int,
    );
    let rooms = place_rooms(base, w, h, e, reach_count(base, w, h, e) as int, slots, kinds);
    &&& (su.0 as int, su.1 as int) == stairs_up_of(region, e)
    &&& is_exit(region, e, ex)
    &&& 0 <= count_roll < 100
    &&& kinds.len() == slots.len()
    &&& shuffled.to_multiset() == deco_candidates(region, entrance, su, ex, room_cells(slots)).to_multiset()
    &&& tiles == scatter_state(rooms.0, w, h, e, rooms.1, shuffled).0
}

/// The floor `tiles` is the cave `region` laid out for some drawn values
/// (see `cave_laid_out`).
pub open spec fn cave_built(region: Seq<(i32, i32)>, w: int, h: int, entrance: (i32, i32), tiles: Seq<TileType>) -> bool {
    exists|su: (i32, i32), ex: (i32, i32), count_roll: int, kinds: Seq<TemplateRoomKind>, shuffled: Seq<(i32, i32)>|
        #[trigger] cave_laid_out(region, w, h, entrance, su, ex, count_roll, kinds, shuffled, tiles)
}

/// How the cave generator came to `map`, given the seeds it drew: each seed
/// has a rock ring; every attempt but the last was rejected; the last was
/// kept and its region laid out, or else all `CAVE_MAX_ATTEMPTS` were
/// rejected and the floor is the fallback corridor.
pub open spec fn cave_generated(fills: Seq<Seq<bool>>, w: int, h: int, entrance: (i32, i32), map: TownMap) -> bool {
    let e = (entrance.0 as int, entrance.1 as int);
    &&& 1 <= fills.len() <= CAVE_MAX_ATTEMPTS
    &&& forall|i: int| 0 <= i < fills.len() ==> ring_rock(#[trigger] fills[i], w, h)
    &&& forall|i: int| 0 <= i < fills.len() - 1 ==> !attempt_accepted(#[trigger] fills[i], w, h, e)
    &&& if attempt_accepted(fills.last(), w, h, e) {
        exists|region: Seq<(i32, i32)>|
            #[trigger] flood_region(cave_mask(fills.last(), w, h, e), w, h, entrance, region) && cave_built(
                region,
                w,
                h,
                entrance,
                map.tiles@,
            )
    } else {
        &&& fills.len() == CAVE_MAX_ATTEMPTS
        &&& forall|x: int, y: int| cell_in(w, h, x, y) ==> #[trigger] map.spec_get(x, y) == Some(spec_fallback_tile(w, e, x, y))
    }
}

/// Grows caves until one has at least `CAVE_MIN_FLOOR_TILES` cells around
/// the entrance (at most `CAVE_MAX_ATTEMPTS` tries: seed, smooth four times,
/// force the entrance to floor, flood from it) and lays it out; falls back
/// to a plain corridor when none did.
fn generate_cave(width: usize, height: usize, entrance: (i32, i32), rng: &mut StdRng) -> (map: TownMap)
    requires
        dims_ok(width as int, height as int),
        cell_in(width as int, height as int, entrance.0 as int, entrance.1 as int),
    ensures
        map.wf(),
        map.width == width,
        map.height == height,
        exists|fills: Seq<Seq<bool>>| cave_generated(fills, width as int, height as int, entrance, map),
        dungeon_floor_ok(map, width as int, height as int, entrance),
{
    let ghost w = width as int;
    let ghost h = height as int;
    let ghost e = (entrance.0 as int, entrance.1 as int);
    let ghost mut fills: Seq<Seq<bool>> = Seq::empty();
    let mut attempt: usize = 0;
    while attempt < CAVE_MAX_ATTEMPTS
        invariant
            dims_ok(w, h),
            w == width,
            h == height,
            cell_in(w, h, e.0, e.1),
            e == (entrance.0 as int, entrance.1 as int),
            attempt <= CAVE_MAX_ATTEMPTS,
            fills.len() == attempt,
            forall|i: int| 0 <= i < fills.len() ==> ring_rock(#[trigger] fills[i], w, h),
            forall|i: int| 0 <= i < fills.len() ==> !attempt_accepted(#[trigger] fills[i], w, h, e),
        decreases CAVE_MAX_ATTEMPTS - attempt,
    {
        let fill = random_fill(width, height, rng);
        proof {
            fills = fills.push(fill@);
            assert(fills[attempt as int] == fill@);
        }
        match cave_attempt(&fill, width, height, entrance) {
            Some(region) => {
                proof {
                    cells_view(region@).unique_seq_to_set();
                    assert(region@.len() >= CAVE_MIN_FLOOR_TILES);
                    lemma_flood_region_ok(fill@, w, h, entrance, region@);
                    lemma_flood_region_connected(cave_mask(fill@, w, h, e), w, h, region@, e);
                }
                let map = build_map(width, height, &region, entrance, rng);
                proof {
                    assert(fills.last() == fill@);
                    assert(flood_region(cave_mask(fills.last(), w, h, e), w, h, entrance, region@));
                    assert(cave_generated(fills, w, h, entrance, map));
                    let (su, ex) = choose|su: (int, int), ex: (int, int)|
                        adjacent4(e, su) && #[trigger] decor_ok(map.tiles@, w, h, region@, e, su, ex, reach_count(map.tiles@, w, h, e) as int)
                            && farthest_in_region(region@, e, ex);
                    assert(decor_ok(map.tiles@, w, h, region@, e, su, ex, reach_count(map.tiles@, w, h, e) as int));
                }
                return map;
            },
            None => {},
        }
        attempt = attempt + 1;
    }
    let map = fallback_corridor(width, height, entrance);
    proof {
        assert(fills.last() == fills[fills.len() - 1]);
        assert(cave_generated(fills, w, h, entrance, map));
    }
    map
}

/// Lays out a floor of the given size with the generator `kind`; the
/// entrance stays floor (see `lemma_dungeon_floor_playable`).
pub fn generate(kind: DungeonGenKind, width: usize, height: usize, entrance: (i32, i32), rng: &mut StdRng) -> (map: TownMap)
    requires
        dims_ok(width as int, height as int),
        cell_in(width as int, height as int, entrance.0 as int, entrance.1 as int),
    ensures
        map.wf(),
        map.width == width,
        map.height == height,
        kind == DungeonGenKind::Cave ==> exists|fills: Seq<Seq<bool>>|
            cave_generated(fills, width as int, height as int, entrance, map),
        kind == DungeonGenKind::Cave ==> dungeon_floor_ok(map, width as int, height as int, entrance),
{
    match kind {
        DungeonGenKind::Cave => generate_cave(width, height, entrance, rng),
    }
}

/// On a laid-out cave the cells of the region are exactly those that are
/// not rock, and the stairs down stand on a farthest one.
proof fn lemma_cave_cells_not_rock(
    map: TownMap,
    w: int,
    h: int,
    entrance: (i32, i32),
    region: Seq<(i32, i32)>,
    su: (int, int),
    ex: (int, int),
)
    requires
        map.wf(),
        map.width == w,
        map.height == h,
        cave_region_ok(region, w, h, entrance),
        decor_ok(map.tiles@, w, h, region, (entrance.0 as int, entrance.1 as int), su, ex, reach_count(map.tiles@, w, h, (entrance.0 as int, entrance.1 as int)) as int),
        farthest_in_region(region, (entrance.0 as int, entrance.1 as int), ex),
    ensures
        exists|region: Seq<(i32, i32)>, ex: (int, int)|
            #[trigger] cave_region_ok(region, w, h, entrance) && map.spec_get(ex.0, ex.1) == Some(TileType::StairsDown)
                && #[trigger] farthest_in_region(region, (entrance.0 as int, entrance.1 as int), ex)
                && forall|x: int, y: int| cell_in(w, h, x, y) ==> (cells_view(region).contains((x, y))
                    <==> #[trigger] map.spec_get(x, y) != Some(TileType::DungeonWall)),
{
    lemma_cell_index(ex.0, ex.1, w, h);
    assert(map.spec_get(ex.0, ex.1) == Some(TileType::StairsDown));
    assert forall|x: int, y: int| cell_in(w, h, x, y) implies (cells_view(region).contains((x, y))
        <==> #[trigger] map.spec_get(x, y) != Some(TileType::DungeonWall)) by {
        lemma_cell_index(x, y, w, h);
        assert(map.spec_get(x, y) == Some(map.tiles@[y * w + x]));
    }
}

/// Every generated floor can be played: the entrance is floor, stairs up
/// lie next to it, and stairs down lie somewhere one can walk to from the
/// entrance (the entrance at least four columns from the east edge). On a
/// cave floor the stairs down lie as far from the entrance as any cell of
/// the cave, counting steps over the cells that are not rock; otherwise
/// the floor is the plain corridor.
pub proof fn lemma_dungeon_floor_playable(map: TownMap, w: int, h: int, entrance: (i32, i32))
    requires
        map.wf(),
        map.width == w,
        map.height == h,
        dims_ok(w, h),
        cell_in(w, h, entrance.0 as int, entrance.1 as int),
        entrance.0 + 3 < w,
        dungeon_floor_ok(map, w, h, entrance),
    ensures
        map.spec_get(entrance.0 as int, entrance.1 as int) == Some(TileType::DungeonFloor),
        exists|su: (int, int)| adjacent4((entrance.0 as int, entrance.1 as int), su) && #[trigger] map.spec_get(su.0, su.1) == Some(TileType::StairsUp),
        exists|ex: (int, int)|
            #[trigger] map.spec_get(ex.0, ex.1) == Some(TileType::StairsDown) && reachable(walk_mask(map.tiles@), w, h, (entrance.0 as int, entrance.1 as int), ex),
        (exists|region: Seq<(i32, i32)>, ex: (int, int)|
            #[trigger] cave_region_ok(region, w, h, entrance) && map.spec_get(ex.0, ex.1) == Some(TileType::StairsDown)
                && #[trigger] farthest_in_region(region, (entrance.0 as int, entrance.1 as int), ex)
                && forall|x: int, y: int| cell_in(w, h, x, y) ==> (cells_view(region).contains((x, y))
                    <==> #[trigger] map.spec_get(x, y) != Some(TileType::DungeonWall)))
            || (forall|x: int, y: int| cell_in(w, h, x, y) ==> #[trigger] map.spec_get(x, y) == Some(
                spec_fallback_tile(w, (entrance.0 as int, entrance.1 as int), x, y),
            )),
{
    let e = (entrance.0 as int, entrance.1 as int);
    if exists|region: Seq<(i32, i32)>, su: (int, int), ex: (int, int)|
        #[trigger] cave_region_ok(region, w, h, entrance) && region.len() >= CAVE_MIN_FLOOR_TILES && adjacent4(e, su)
            && #[trigger] decor_ok(map.tiles@, w, h, region, e, su, ex, reach_count(map.tiles@, w, h, e) as int)
            && farthest_in_region(region, e, ex) {
        let (region, su, ex) = choose|region: Seq<(i32, i32)>, su: (int, int), ex: (int, int)|
            #[trigger] cave_region_ok(region, w, h, entrance) && region.len() >= CAVE_MIN_FLOOR_TILES && adjacent4(e, su)
                && #[trigger] decor_ok(map.tiles@, w, h, region, e, su, ex, reach_count(map.tiles@, w, h, e) as int)
                && farthest_in_region(region, e, ex);
        lemma_cell_index(e.0, e.1, w, h);
        lemma_cell_index(su.0, su.1, w, h);
        lemma_cell_index(ex.0, ex.1, w, h);
        assert(map.spec_get(su.0, su.1) == Some(TileType::StairsUp));
        assert(map.spec_get(ex.0, ex.1) == Some(TileType::StairsDown));
        assert(walkable_with(map.tiles@, w, h, e).contains(ex));
        assert(reach_set(walk_mask(map.tiles@), w, h, e).contains(ex));
        lemma_cave_cells_not_rock(map, w, h, entrance, region, su, ex);
    } else {
        let end_x = w - 2;
        let su_x = if e.0 > 1 { e.0 - 1 } else { e.0 + 1 };
        assert(map.spec_get(e.0, e.1) == Some(spec_fallback_tile(w, e, e.0, e.1)));
        assert(map.spec_get(su_x, e.1) == Some(spec_fallback_tile(w, e, su_x, e.1)));
        assert(adjacent4(e, (su_x, e.1)));
        assert(map.spec_get(end_x, e.1) == Some(spec_fallback_tile(w, e, end_x, e.1)));
        let n = end_x - e.0 + 1;
        let p = Seq::new(n as nat, |i: int| (e.0 + i, e.1));
        assert forall|i: int| 1 <= i < p.len() implies adjacent4(p[i - 1], #[trigger] p[i]) && mask_at(walk_mask(map.tiles@), w, h, p[i].0, p[i].1) by {
            let x = e.0 + i;
            assert(map.spec_get(x, e.1) == Some(spec_fallback_tile(w, e, x, e.1)));
            lemma_cell_index(x, e.1, w, h);
        }
        assert(is_walk(walk_mask(map.tiles@), w, h, e, p));
        assert(p.last() == (end_x, e.1));
    }
}

/// `c` is the one cell of `map` that holds `t`.
pub open spec fn sole_cell(map: TownMap, t: TileType, c: (int, int)) -> bool {
    forall|x: int, y: int|
        cell_in(map.width as int, map.height as int, x, y) ==> (#[trigger] map.spec_get(x, y) == Some(t) <==> (x, y) == c)
}

/// Every generated floor with its entrance inside the outer ring (and at
/// least four columns from the east edge) keeps rock all round its outer
/// ring, and has exactly one stairs up and exactly one stairs down.
pub proof fn lemma_dungeon_floor_shape(map: TownMap, w: int, h: int, entrance: (i32, i32))
    requires
        map.wf(),
        map.width == w,
        map.height == h,
        dims_ok(w, h),
        interior(w, h, entrance.0 as int, entrance.1 as int),
        entrance.0 + 3 < w,
        dungeon_floor_ok(map, w, h, entrance),
    ensures
        forall|x: int, y: int|
            cell_in(w, h, x, y) && !interior(w, h, x, y) ==> #[trigger] map.spec_get(x, y) == Some(TileType::DungeonWall),
        exists|su: (int, int)| #[trigger] sole_cell(map, TileType::StairsUp, su),
        exists|ex: (int, int)| #[trigger] sole_cell(map, TileType::StairsDown, ex),
{
    let e = (entrance.0 as int, entrance.1 as int);
    if exists|region: Seq<(i32, i32)>, su: (int, int), ex: (int, int)|
        #[trigger] cave_region_ok(region, w, h, entrance) && region.len() >= CAVE_MIN_FLOOR_TILES && adjacent4(e, su)
            && #[trigger] decor_ok(map.tiles@, w, h, region, e, su, ex, reach_count(map.tiles@, w, h, e) as int)
            && farthest_in_region(region, e, ex) {
        let (region, su, ex) = choose|region: Seq<(i32, i32)>, su: (int, int), ex: (int, int)|
            #[trigger] cave_region_ok(region, w, h, entrance) && region.len() >= CAVE_MIN_FLOOR_TILES && adjacent4(e, su)
                && #[trigger] decor_ok(map.tiles@, w, h, region, e, su, ex, reach_count(map.tiles@, w, h, e) as int)
                && farthest_in_region(region, e, ex);
        let rv = cells_view(region);
        assert forall|x: int, y: int| cell_in(w, h, x, y) && !interior(w, h, x, y) implies #[trigger] map.spec_get(x, y)
            == Some(TileType::DungeonWall) by {
            lemma_cell_index(x, y, w, h);
            if rv.contains((x, y)) {
                let k = choose|k: int| 0 <= k < rv.len() && rv[k] == (x, y);
                assert(region[k] != entrance);
            }
        }
        assert forall|x: int, y: int| cell_in(w, h, x, y) implies (#[trigger] map.spec_get(x, y) == Some(TileType::StairsUp)
            <==> (x, y) == su) by {
            lemma_cell_index(x, y, w, h);
        }
        assert forall|x: int, y: int| cell_in(w, h, x, y) implies (#[trigger] map.spec_get(x, y) == Some(TileType::StairsDown)
            <==> (x, y) == ex) by {
            lemma_cell_index(x, y, w, h);
        }
        assert(sole_cell(map, TileType::StairsUp, su));
        assert(sole_cell(map, TileType::StairsDown, ex));
    } else {
        let end_x = w - 2;
        let su_x = if e.0 > 1 { e.0 - 1 } else { e.0 + 1 };
        assert forall|x: int, y: int| cell_in(w, h, x, y) implies (#[trigger] map.spec_get(x, y) == Some(TileType::StairsUp)
            <==> (x, y) == (su_x, e.1)) by {
            assert(map.spec_get(x, y) == Some(spec_fallback_tile(w, e, x, y)));
        }
        assert forall|x: int, y: int| cell_in(w, h, x, y) implies (#[trigger] map.spec_get(x, y) == Some(TileType::StairsDown)
            <==> (x, y) == (end_x, e.1)) by {
            assert(map.spec_get(x, y) == Some(spec_fallback_tile(w, e, x, y)));
        }
        assert(sole_cell(map, TileType::StairsUp, (su_x, e.1)));
        assert(sole_cell(map, TileType::StairsDown, (end_x, e.1)));
        assert forall|x: int, y: int| cell_in(w, h, x, y) && !interior(w, h, x, y) implies #[trigger] map.spec_get(x, y)
            == Some(TileType::DungeonWall) by {
            assert(map.spec_get(x, y) == Some(spec_fallback_tile(w, e, x, y)));
        }
    }
}

/// Inside a connected region whose cells are exactly the passable ones,
/// the reachable cells are the region's cells.
proof fn lemma_region_reach(region: Seq<(i32, i32)>, e: (int, int), pass: Seq<bool>, w: int, h: int)
    requires
        region_connected(region, e),
        cells_view(region).contains(e),
        forall|k: int| 0 <= k < region.len() ==> cell_in(w, h, (#[trigger] region[k]).0 as int, region[k].1 as int),
        forall|x: int, y: int| #[trigger] mask_at(pass, w, h, x, y) <==> cell_in(w, h, x, y) && cells_view(region).contains((x, y)),
    ensures
        forall|c: (int, int)| reach_set(pass, w, h, e).contains(c) <==> cells_view(region).contains(c),
{
    let rv = cells_view(region);
    assert forall|c: (int, int)| reach_set(pass, w, h, e).contains(c) <==> rv.contains(c) by {
        if reach_set(pass, w, h, e).contains(c) {
            let p = choose|p: Seq<(int, int)>| #[trigger] is_walk(pass, w, h, e, p) && p.last() == c;
            if p.len() > 1 {
                assert(mask_at(pass, w, h, p[p.len() - 1].0, p[p.len() - 1].1));
            }
        }
        if rv.contains(c) {
            let p = choose|p: Seq<(int, int)>| #[trigger] region_walk(region, e, p) && p.last() == c;
            assert forall|i: int| 1 <= i < p.len() implies adjacent4(p[i - 1], #[trigger] p[i]) && mask_at(pass, w, h, p[i].0, p[i].1) by {
                assert(rv.contains(p[i]));
                let k = choose|k: int| 0 <= k < rv.len() && rv[k] == p[i];
                assert(region[k] == region[k]);
                assert(cell_in(w, h, region[k].0 as int, region[k].1 as int));
            }
            assert(is_walk(pass, w, h, e, p));
        }
    }
}

proof fn lemma_cells_view_concat_contains(a: Seq<(i32, i32)>, b: Seq<(i32, i32)>, c: (int, int))
    ensures
        cells_view(a + b).contains(c) <==> cells_view(a).contains(c) || cells_view(b).contains(c),
{
    let ab = a + b;
    if cells_view(ab).contains(c) {
        let j = choose|j: int| 0 <= j < cells_view(ab).len() && cells_view(ab)[j] == c;
        if j < a.len() {
            assert(cells_view(a)[j] == c);
        } else {
            assert(cells_view(b)[j - a.len()] == c);
        }
    }
    if cells_view(a).contains(c) {
        let j = choose|j: int| 0 <= j < cells_view(a).len() && cells_view(a)[j] == c;
        assert(cells_view(ab)[j] == c);
    }
    if cells_view(b).contains(c) {
        let j = choose|j: int| 0 <= j < cells_view(b).len() && cells_view(b)[j] == c;
        assert(cells_view(ab)[j + a.len()] == c);
    }
}

proof fn lemma_rect_cells_contains(tl: (i32, i32))
    requires
        tl.0 <= i32::MAX - 5,
        tl.1 <= i32::MAX - 5,
        tl.0 >= i32::MIN + 5,
        tl.1 >= i32::MIN + 5,
    ensures
        forall|c: (int, int)| cells_view(rect_cells(tl)).contains(c) <==> #[trigger] in_rect(tl, c),
{
    let rc = cells_view(rect_cells(tl));
    assert forall|c: (int, int)| rc.contains(c) <==> #[trigger] in_rect(tl, c) by {
        if in_rect(tl, c) {
            let k = (c.1 - tl.1) * 5 + (c.0 - tl.0);
            assert(0 <= k < 25);
            assert(k % 5 == c.0 - tl.0 && k / 5 == c.1 - tl.1) by (nonlinear_arith)
                requires
                    k == (c.1 - tl.1) * 5 + (c.0 - tl.0),
                    0 <= c.0 - tl.0 < 5,
                    0 <= c.1 - tl.1 < 5,
            ;
            assert(rc[k] == c);
        }
        if rc.contains(c) {
            let k = choose|k: int| 0 <= k < rc.len() && rc[k] == c;
            assert(0 <= k % 5 < 5 && 0 <= k / 5 < 5) by (nonlinear_arith)
                requires
                    0 <= k < 25,
            ;
        }
    }
}

proof fn lemma_sort_desc_cells(v: Seq<((i32, i32), usize)>, region: Seq<(i32, i32)>, w: int, h: int)
    requires
        v.len() == region.len(),
        forall|k: int| 0 <= k < v.len() ==> (#[trigger] v[k]).0 == region[k],
        forall|k: int| 0 <= k < region.len() ==> cell_in(w, h, (#[trigger] region[k]).0 as int, region[k].1 as int),
    ensures
        forall|k: int| 0 <= k < sort_desc(v).len() ==> cell_in(w, h, (#[trigger] sort_desc(v)[k]).0.0 as int, sort_desc(v)[k].0.1 as int),
{
    assert forall|k: int| 0 <= k < v.len() implies cell_in(w, h, (#[trigger] v[k]).0.0 as int, v[k].0.1 as int) by {
        assert(v[k].0 == region[k]);
    }
    lemma_sort_desc_keeps(v, |e: ((i32, i32), usize)| cell_in(w, h, e.0.0 as int, e.0.1 as int));
}

proof fn lemma_sort_desc_keeps(v: Seq<((i32, i32), usize)>, p: spec_fn(((i32, i32), usize)) -> bool)
    requires
        forall|k: int| 0 <= k < v.len() ==> p(#[trigger] v[k]),
    ensures
        forall|k: int| 0 <= k < sort_desc(v).len() ==> p(#[trigger] sort_desc(v)[k]),
    decreases v.len(),
{
    if v.len() > 0 {
        lemma_sort_desc_keeps(v.drop_last(), p);
        let s = sort_desc(v.drop_last());
        let x = v.last();
        let q = first_from(s, 0, |e: ((i32, i32), usize)| e.1 < x.1);
        lemma_first_from_found(s, 0, |e: ((i32, i32), usize)| e.1 < x.1);
        let r = s.take(q).push(x) + s.skip(q);
        assert forall|k: int| 0 <= k < r.len() implies p(#[trigger] r[k]) by {
            if k < q {
                assert(r[k] == s[k]);
            } else if k > q {
                assert(r[k] == s[k - 1]);
            }
        }
    }
}

proof fn lemma_slots_fit(
    sorted: Seq<((i32, i32), usize)>,
    region: Seq<bool>,
    w: int,
    h: int,
    forbidden: Seq<(i32, i32)>,
    count: int,
)
    requires
        forall|k: int| 0 <= k < sorted.len() ==> cell_in(w, h, (#[trigger] sorted[k]).0.0 as int, sorted[k].0.1 as int),
        dims_ok(w, h),
    ensures
        ({
            let r = spec_template_slots(sorted, region, w, h, forbidden, count);
            &&& r.len() <= 2
            &&& forall|m: int| 0 <= m < r.len() ==> spec_rect_fits(region, w, h, forbidden, #[trigger] r[m])
            &&& forall|m: int| 0 <= m < r.len() ==> -2 <= (#[trigger] r[m]).0 <= i32::MAX - 5 && -2 <= r[m].1 <= i32::MAX - 5
            &&& r.len() == 2 ==> !spec_rects_overlap(r[0], r[1])
        }),
{
    let fits = |e: ((i32, i32), usize)| spec_rect_fits(region, w, h, forbidden, tl_of(e));
    lemma_first_from_found(sorted, 0, fits);
    let i1 = first_from(sorted, 0, fits);
    if count != 0 && i1 < sorted.len() {
        let first = sorted[i1];
        let second_ok = |e: ((i32, i32), usize)|
            abs_diff(first.1 as int, e.1 as int) >= TEMPLATE_MIN_DISTANCE_GAP && !spec_rects_overlap(
                tl_of(first),
                tl_of(e),
            ) && spec_rect_fits(region, w, h, forbidden, tl_of(e));
        lemma_first_from_found(sorted, 0, second_ok);
        let i2 = first_from(sorted, 0, second_ok);
        assert(fits(first));
        if i2 < sorted.len() {
            assert(second_ok(sorted[i2]));
        }
    }
}

proof fn lemma_shuffled_cells(a: Seq<(i32, i32)>, b: Seq<(i32, i32)>)
    requires
        a.to_multiset() == b.to_multiset(),
        cells_view(a).no_duplicates(),
    ensures
        cells_view(b).no_duplicates(),
        forall|x: (i32, i32)| b.contains(x) ==> a.contains(x),
{
    broadcast use vstd::seq_lib::group_to_multiset_ensures;
    assert(a.no_duplicates()) by {
        assert forall|i: int, j: int| 0 <= i < a.len() && 0 <= j < a.len() && i != j implies a[i] != a[j] by {
            assert(cells_view(a)[i] != cells_view(a)[j]);
        }
    }
    a.lemma_multiset_has_no_duplicates();
    b.lemma_multiset_has_no_duplicates_conv();
    assert forall|i: int, j: int| 0 <= i < b.len() && 0 <= j < b.len() && i != j implies cells_view(b)[i] != cells_view(b)[j] by {
        assert(b[i] != b[j]);
    }
    assert forall|x: (i32, i32)| b.contains(x) implies a.contains(x) by {
        assert(b.to_multiset().count(x) > 0);
    }
}

} // verus!
