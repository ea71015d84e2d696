//! Field of view: which cells the protagonist sees, by torch radius and by
//! Bresenham lines of sight.

use super::map::{lemma_cell_index, lemma_cell_index_injective, TownMap};
use vstd::prelude::*;

verus! {

/// Whether a cell is currently seen.
#[derive(Clone, Copy, Debug, PartialEq, Eq, Structural)]
pub enum Visibility {
    Visible,
    Hidden,
}

/// The seen / unseen state of every cell of a map, stored row by row.
pub struct FovMap {
    pub width: usize,
    pub height: usize,
    pub visibility: Vec<Visibility>,
}

pub open spec fn abs_int(v: int) -> int {
    if v < 0 {
        -v
    } else {
        v
    }
}

/// One step of Bresenham's walk from `(x0, y0)` to `(x1, y1)`; a state is
/// `(x, y, err)`.
pub open spec fn bres_step(s: (int, int, int), x0: int, y0: int, x1: int, y1: int) -> (int, int, int) {
    let dx = abs_int(x1 - x0);
    let dy = abs_int(y1 - y0);
    let sx: int = if x0 < x1 { 1 } else { -1 };
    let sy: int = if y0 < y1 { 1 } else { -1 };
    let e2 = 2 * s.2;
    let x = if e2 > -dy { s.0 + sx } else { s.0 };
    let e = if e2 > -dy { s.2 - dy } else { s.2 };
    if e2 < dx {
        (x, s.1 + sy, e + dx)
    } else {
        (x, s.1, e)
    }
}

/// The state of Bresenham's walk after `j` steps.
pub open spec fn bres_state(x0: int, y0: int, x1: int, y1: int, j: nat) -> (int, int, int)
    decreases j,
{
    if j == 0 {
        (x0, y0, abs_int(x1 - x0) - abs_int(y1 - y0))
    } else {
        bres_step(bres_state(x0, y0, x1, y1, (j - 1) as nat), x0, y0, x1, y1)
    }
}

pub open spec fn at_cell(s: (int, int, int), x: int, y: int) -> bool {
    s.0 == x && s.1 == y
}

/// A cell on the way (not the start) whose tile stops the sight.
pub open spec fn sight_blocked_at(map: TownMap, x0: int, y0: int, s: (int, int, int)) -> bool {
    (s.0 != x0 || s.1 != y0) && match map.spec_get(s.0, s.1) {
        Some(t) => t.spec_blocks_sight(),
        None => false,
    }
}

/// No cell that the walk passes before it reaches `(x1, y1)` blocks the sight
/// (the target itself may be a wall: walls are seen).
pub open spec fn line_of_sight(map: TownMap, x0: int, y0: int, x1: int, y1: int) -> bool {
    forall|j: nat|
        #![trigger bres_state(x0, y0, x1, y1, j)]
        (forall|i: nat| i <= j ==> !at_cell(#[trigger] bres_state(x0, y0, x1, y1, i), x1, y1))
            ==> !sight_blocked_at(map, x0, y0, bres_state(x0, y0, x1, y1, j))
}

/// The cell lies in the torch's reach around `(px, py)`: within `radius` on
/// both axes and inside the ellipse that weighs vertical distance double.
pub open spec fn in_sight_range(px: int, py: int, radius: int, x: int, y: int) -> bool {
    let dx = x - px;
    let dy = y - py;
    &&& -radius <= dx <= radius
    &&& -radius <= dy <= radius
    &&& dx * dx + (2 * dy) * (2 * dy) <= 2 * (radius * radius)
}

/// The protagonist's own cell, or a cell in reach with a clear line of sight.
pub open spec fn spec_in_view(map: TownMap, px: int, py: int, radius: int, x: int, y: int) -> bool {
    (x == px && y == py) || (in_sight_range(px, py, radius, x, y) && line_of_sight(map, px, py, x, y))
}

/// One iteration of the walk keeps its counters in range and makes progress.
/// `a` and `b` count the steps taken along x and y; `err` is determined by them.
proof fn lemma_bresenham_step(dx: int, dy: int, a: int, b: int, err: int)
    requires
        0 <= a <= dx,
        0 <= b <= dy,
        !(a == dx && b == dy),
        err == dx - dy - a * dy + b * dx,
        -2 * dy <= err <= 2 * dx,
    ensures
        ({
            let xs = 2 * err > -dy;
            let ys = 2 * err < dx;
            let a2 = if xs { a + 1 } else { a };
            let b2 = if ys { b + 1 } else { b };
            let e2 = err - (if xs { dy } else { 0 }) + (if ys { dx } else { 0 });
            &&& xs || ys
            &&& a2 <= dx
            &&& b2 <= dy
            &&& e2 == dx - dy - a2 * dy + b2 * dx
            &&& -2 * dy <= e2 <= 2 * dx
        }),
{
    if a == dx {
        assert(dx - dy - a * dy + b * dx <= -dy) by (nonlinear_arith)
            requires
                a == dx,
                b < dy,
                dx >= 0,
        ;
    }
    if b == dy && a < dx {
        assert(2 * (dx - dy - a * dy + b * dx) >= dx) by (nonlinear_arith)
            requires
                b == dy,
                a < dx,
                a >= 0,
                dy >= 0,
        ;
    }
    assert((a + 1) * dy == a * dy + dy) by (nonlinear_arith);
    assert((b + 1) * dx == b * dx + dx) by (nonlinear_arith);
}

/// Whether the walk from `(x0, y0)` reaches `(x1, y1)` without passing a cell
/// that blocks the sight.
fn has_line_of_sight(map: &TownMap, x0: i32, y0: i32, x1: i32, y1: i32) -> (r: bool)
    requires
        map.wf(),
    ensures
        r == line_of_sight(*map, x0 as int, y0 as int, x1 as int, y1 as int),
{
    let ghost (gx0, gy0, gx1, gy1) = (x0 as int, y0 as int, x1 as int, y1 as int);
    let mut x = x0;
    let mut y = y0;
    let dx: i64 = if x1 as i64 >= x0 as i64 { x1 as i64 - x0 as i64 } else { x0 as i64 - x1 as i64 };
    let dy: i64 = if y1 as i64 >= y0 as i64 { y1 as i64 - y0 as i64 } else { y0 as i64 - y1 as i64 };
    let sx: i32 = if x0 < x1 { 1 } else { -1 };
    let sy: i32 = if y0 < y1 { 1 } else { -1 };
    let mut err: i64 = dx - dy;
    let ghost mut j: nat = 0;
    let ghost mut a: int = 0;
    let ghost mut b: int = 0;
    loop
        invariant
            map.wf(),
            gx0 == x0 && gy0 == y0 && gx1 == x1 && gy1 == y1,
            dx == abs_int(gx1 - gx0),
            dy == abs_int(gy1 - gy0),
            sx == (if x0 < x1 { 1int } else { -1int }),
            sy == (if y0 < y1 { 1int } else { -1int }),
            0 <= a <= dx,
            0 <= b <= dy,
            x == (if x0 < x1 { x0 + a } else { x0 - a }),
            y == (if y0 < y1 { y0 + b } else { y0 - b }),
            err == dx - dy - a * dy + b * dx,
            -2 * dy <= err <= 2 * dx,
            bres_state(gx0, gy0, gx1, gy1, j) == (x as int, y as int, err as int),
            forall|i: nat| i < j ==> !at_cell(#[trigger] bres_state(gx0, gy0, gx1, gy1, i), gx1, gy1),
            forall|i: nat| i < j ==> !sight_blocked_at(*map, gx0, gy0, #[trigger] bres_state(gx0, gy0, gx1, gy1, i)),
        decreases (dx - a) + (dy - b),
    {
        if x == x1 && y == y1 {
            proof {
                assert forall|k: nat|
                    (forall|i: nat| i <= k ==> !at_cell(#[trigger] bres_state(gx0, gy0, gx1, gy1, i), gx1, gy1))
                    implies !sight_blocked_at(*map, gx0, gy0, #[trigger] bres_state(gx0, gy0, gx1, gy1, k)) by {
                    if k >= j {
                        assert(!at_cell(bres_state(gx0, gy0, gx1, gy1, j), gx1, gy1));
                    }
                }
            }
            return true;
        }
        if x != x0 || y != y0 {
            if let Some(tile) = map.get(x, y) {
                if tile.blocks_sight() {
                    proof {
                        assert(forall|i: nat| i <= j ==> !at_cell(#[trigger] bres_state(gx0, gy0, gx1, gy1, i), gx1, gy1));
                        assert(sight_blocked_at(*map, gx0, gy0, bres_state(gx0, gy0, gx1, gy1, j)));
                    }
                    return false;
                }
            }
        }
        proof {
            assert(!(a == dx && b == dy));
            lemma_bresenham_step(dx as int, dy as int, a, b, err as int);
        }
        let e2: i64 = 2 * err;
        let ghost prev = bres_state(gx0, gy0, gx1, gy1, j);
        if e2 > -dy {
            err = err - dy;
            x = x + sx;
            proof {
                a = a + 1;
            }
        }
        if e2 < dx {
            err = err + dx;
            y = y + sy;
            proof {
                b = b + 1;
            }
        }
        proof {
            j = j + 1;
            assert(bres_state(gx0, gy0, gx1, gy1, j) == bres_step(prev, gx0, gy0, gx1, gy1));
        }
    }
}

impl FovMap {
    /// The grid holds exactly `width * height` entries.
    pub open spec fn wf(&self) -> bool {
        self.visibility@.len() == self.width * self.height
    }

    pub open spec fn in_bounds(&self, x: int, y: int) -> bool {
        0 <= x < self.width && 0 <= y < self.height
    }

    /// The cell `(x, y)` is inside the grid and seen.
    pub open spec fn spec_is_visible(&self, x: int, y: int) -> bool {
        self.in_bounds(x, y) && self.visibility@[y * self.width + x] == Visibility::Visible
    }

    /// A `width` by `height` grid with nothing seen.
    pub fn new(width: usize, height: usize) -> (r: Self)
        requires
            width * height <= usize::MAX,
        ensures
            r.wf(),
            r.width == width,
            r.height == height,
            forall|x: int, y: int| !#[trigger] r.spec_is_visible(x, y),
    {
        let n = width * height;
        let mut visibility: Vec<Visibility> = Vec::new();
        let mut i: usize = 0;
        while i < n
            invariant
                i <= n,
                n == width * height,
                visibility@.len() == i,
                forall|k: int| 0 <= k < i ==> visibility@[k] == Visibility::Hidden,
            decreases n - i,
        {
            visibility.push(Visibility::Hidden);
            i = i + 1;
        }
        let r = Self { width, height, visibility };
        assert forall|x: int, y: int| !#[trigger] r.spec_is_visible(x, y) by {
            if r.in_bounds(x, y) {
                lemma_cell_index(x, y, width as int, height as int);
            }
        }
        r
    }

    /// Whether `(x, y)` is inside the grid and seen.
    pub fn is_visible(&self, x: i32, y: i32) -> (r: bool)
        requires
            self.wf(),
        ensures
            r == self.spec_is_visible(x as int, y as int),
    {
        if x < 0 || y < 0 || x as usize >= self.width || y as usize >= self.height {
            false
        } else {
            let len = self.visibility.len();
            proof {
                lemma_cell_index(x as int, y as int, self.width as int, self.height as int);
                assert((y as usize) * self.width + (x as usize) < len);
            }
            self.visibility[y as usize * self.width + x as usize] == Visibility::Visible
        }
    }

    /// Marks every cell with `v`.
    fn fill(&mut self, v: Visibility)
        requires
            old(self).wf(),
        ensures
            final(self).wf(),
            final(self).width == old(self).width,
            final(self).height == old(self).height,
            forall|x: int, y: int|
                #![trigger final(self).spec_is_visible(x, y)]
                final(self).spec_is_visible(x, y) == (final(self).in_bounds(x, y) && v == Visibility::Visible),
    {
        let n = self.visibility.len();
        let mut i: usize = 0;
        while i < n
            invariant
                i <= n,
                n == self.visibility@.len(),
                self.wf(),
                self.width == old(self).width,
                self.height == old(self).height,
                forall|k: int| 0 <= k < i ==> self.visibility@[k] == v,
            decreases n - i,
        {
            self.visibility.set(i, v);
            i = i + 1;
        }
        assert forall|x: int, y: int|
            #![trigger self.spec_is_visible(x, y)]
            self.spec_is_visible(x, y) == (self.in_bounds(x, y) && v == Visibility::Visible) by {
            if self.in_bounds(x, y) {
                lemma_cell_index(x, y, self.width as int, self.height as int);
            }
        }
    }

    /// Marks `(x, y)` as seen; does nothing outside the grid.
    fn set_visible(&mut self, x: i32, y: i32)
        requires
            old(self).wf(),
        ensures
            final(self).wf(),
            final(self).width == old(self).width,
            final(self).height == old(self).height,
            forall|i: int, j: int|
                #![trigger final(self).spec_is_visible(i, j)]
                final(self).spec_is_visible(i, j) == (old(self).spec_is_visible(i, j) || (i == x && j == y
                    && old(self).in_bounds(i, j))),
    {
        if x >= 0 && y >= 0 && (x as usize) < self.width && (y as usize) < self.height {
            let len = self.visibility.len();
            proof {
                lemma_cell_index(x as int, y as int, self.width as int, self.height as int);
                assert((y as usize) * self.width + (x as usize) < len);
            }
            let idx = y as usize * self.width + x as usize;
            self.visibility.set(idx, Visibility::Visible);
            proof {
                assert forall|i: int, j: int|
                    #![trigger self.spec_is_visible(i, j)]
                    self.spec_is_visible(i, j) == (old(self).spec_is_visible(i, j) || (i == x && j == y
                        && old(self).in_bounds(i, j))) by {
                    if self.in_bounds(i, j) {
                        lemma_cell_index(i, j, self.width as int, self.height as int);
                        lemma_cell_index_injective(i, j, x as int, y as int, self.width as int);
                    }
                }
            }
        }
    }

    /// Recomputes what is seen from `(player_x, player_y)` with a light of
    /// `radius`; with `see_all` every cell is seen.
    pub fn compute(&mut self, map: &TownMap, player_x: i32, player_y: i32, radius: i32, see_all: bool)
        requires
            old(self).wf(),
            map.wf(),
            old(self).width <= i32::MAX,
            old(self).height <= i32::MAX,
        ensures
            final(self).wf(),
            final(self).width == old(self).width,
            final(self).height == old(self).height,
            forall|x: int, y: int|
                #![trigger final(self).spec_is_visible(x, y)]
                final(self).spec_is_visible(x, y) == (final(self).in_bounds(x, y) && (see_all
                    || spec_in_view(*map, player_x as int, player_y as int, radius as int, x, y))),
    {
        if see_all {
            self.fill(Visibility::Visible);
            return;
        }
        self.fill(Visibility::Hidden);
        self.set_visible(player_x, player_y);

        let px = player_x as i64;
        let py = player_y as i64;
        let r = radius as i64;
        let w = self.width as i64;
        let h = self.height as i64;
        let min_x: i64 = if px - r > 0 { px - r } else { 0 };
        let max_x: i64 = if px + r < w - 1 { px + r } else { w - 1 };
        let min_y: i64 = if py - r > 0 { py - r } else { 0 };
        let max_y: i64 = if py + r < h - 1 { py + r } else { h - 1 };
        let ghost pxi = player_x as int;
        let ghost pyi = player_y as int;
        let ghost ri = radius as int;

        let mut ty: i64 = min_y;
        while ty <= max_y
            invariant
                self.wf(),
                map.wf(),
                self.width == old(self).width,
                self.height == old(self).height,
                w == self.width,
                h == self.height,
                w <= i32::MAX,
                h <= i32::MAX,
                px == pxi,
                py == pyi,
                r == ri,
                pxi == player_x,
                pyi == player_y,
                ri == radius,
                min_x == (if px - r > 0 { px - r } else { 0 }),
                max_x == (if px + r < w - 1 { px + r } else { w - 1 }),
                min_y == (if py - r > 0 { py - r } else { 0 }),
                max_y == (if py + r < h - 1 { py + r } else { h - 1 }),
                min_y <= ty,
                ty <= max_y + 1 || ty == min_y,
                forall|x: int, y: int|
                    #![trigger self.spec_is_visible(x, y)]
                    self.spec_is_visible(x, y) == (self.in_bounds(x, y) && ((x == pxi && y == pyi) || (
                    in_sight_range(pxi, pyi, ri, x, y) && line_of_sight(*map, pxi, pyi, x, y) && y
                        < ty))),
            decreases max_y + 1 - ty,
        {
            let mut tx: i64 = min_x;
            while tx <= max_x
                invariant
                    self.wf(),
                    map.wf(),
                    self.width == old(self).width,
                    self.height == old(self).height,
                    w == self.width,
                    h == self.height,
                    w <= i32::MAX,
                    h <= i32::MAX,
                    px == pxi,
                    py == pyi,
                    r == ri,
                    pxi == player_x,
                    pyi == player_y,
                    ri == radius,
                    min_x == (if px - r > 0 { px - r } else { 0 }),
                    max_x == (if px + r < w - 1 { px + r } else { w - 1 }),
                    min_y == (if py - r > 0 { py - r } else { 0 }),
                    max_y == (if py + r < h - 1 { py + r } else { h - 1 }),
                    min_y <= ty <= max_y,
                    min_x <= tx,
                    tx <= max_x + 1 || tx == min_x,
                    forall|x: int, y: int|
                        #![trigger self.spec_is_visible(x, y)]
                        self.spec_is_visible(x, y) == (self.in_bounds(x, y) && ((x == pxi && y == pyi) || (
                        in_sight_range(pxi, pyi, ri, x, y) && line_of_sight(*map, pxi, pyi, x, y) && (y
                            < ty || (y == ty && x < tx))))),
                decreases max_x + 1 - tx,
            {
                assert(0 <= tx <= w - 1);
                assert(0 <= ty <= h - 1);
                assert(i32::MIN <= px <= i32::MAX);
                assert(i32::MIN <= py <= i32::MAX);
                let dx = tx - px;
                let dy = ty - py;
                assert(-0x1_0000_0000 <= dx <= 0x1_0000_0000);
                let dx2 = dx as i128;
                let dy2 = dy as i128;
                let r2 = r as i128;
                assert(-0x1_0000_0000 <= dx2 <= 0x1_0000_0000);
                assert(-0x1_0000_0000 <= dy2 <= 0x1_0000_0000);
                assert(0 <= dx2 * dx2 <= 0x1_0000_0000_0000_0000) by (nonlinear_arith)
                    requires
                        -0x1_0000_0000 <= dx2 <= 0x1_0000_0000,
                ;
                assert(0 <= (dy2 * 2) * (dy2 * 2) <= 0x4_0000_0000_0000_0000) by (nonlinear_arith)
                    requires
                        -0x1_0000_0000 <= dy2 <= 0x1_0000_0000,
                ;
                assert(0 <= r2 * r2 <= 0x1_0000_0000_0000_0000) by (nonlinear_arith)
                    requires
                        -0x1_0000_0000 <= r2 <= 0x1_0000_0000,
                ;
                let inside = dx2 * dx2 + (dy2 * 2) * (dy2 * 2) <= r2 * r2 * 2;
                proof {
                    let sdx = tx - pxi;
                    let sdy = ty - pyi;
                    assert(dx2 == sdx && dy2 == sdy && r2 == ri);
                    assert(dx2 * dx2 == sdx * sdx);
                    assert((dy2 * 2) * (dy2 * 2) == (2 * sdy) * (2 * sdy)) by (nonlinear_arith)
                        requires
                            dy2 == sdy,
                    ;
                    assert(r2 * r2 * 2 == 2 * (ri * ri)) by (nonlinear_arith)
                        requires
                            r2 == ri,
                    ;
                    assert((tx as i32) as int == tx && (ty as i32) as int == ty);
                }
                let ghost before = *self;
                let seen = inside && has_line_of_sight(map, player_x, player_y, tx as i32, ty as i32);
                if seen {
                    self.set_visible(tx as i32, ty as i32);
                }
                proof {
                    assert(in_sight_range(pxi, pyi, ri, tx as int, ty as int) == inside);
                    assert(seen == (in_sight_range(pxi, pyi, ri, tx as int, ty as int) && line_of_sight(
                        *map,
                        pxi,
                        pyi,
                        tx as int,
                        ty as int,
                    )));
                    assert forall|x: int, y: int|
                        #![trigger self.spec_is_visible(x, y)]
                        self.spec_is_visible(x, y) == (self.in_bounds(x, y) && ((x == pxi && y == pyi) || (
                        in_sight_range(pxi, pyi, ri, x, y) && line_of_sight(*map, pxi, pyi, x, y) && (y
                            < ty || (y == ty && x < tx + 1))))) by {
                        assert(before.spec_is_visible(x, y) == (before.in_bounds(x, y) && ((x == pxi && y
                            == pyi) || (in_sight_range(pxi, pyi, ri, x, y) && line_of_sight(
                            *map,
                            pxi,
                            pyi,
                            x,
                            y,
                        ) && (y < ty || (y == ty && x < tx))))));
                    }
                }
                tx = tx + 1;
            }
            proof {
                assert forall|x: int, y: int|
                    #![trigger self.spec_is_visible(x, y)]
                    self.spec_is_visible(x, y) == (self.in_bounds(x, y) && ((x == pxi && y == pyi) || (
                    in_sight_range(pxi, pyi, ri, x, y) && line_of_sight(*map, pxi, pyi, x, y) && y < ty
                        + 1))) by {
                    if self.in_bounds(x, y) && in_sight_range(pxi, pyi, ri, x, y) && y == ty {
                        assert(x <= max_x);
                    }
                }
            }
            ty = ty + 1;
        }
        proof {
            assert forall|x: int, y: int|
                #![trigger self.spec_is_visible(x, y)]
                self.spec_is_visible(x, y) == (self.in_bounds(x, y) && spec_in_view(
                    *map,
                    pxi,
                    pyi,
                    ri,
                    x,
                    y,
                )) by {
                if self.in_bounds(x, y) && in_sight_range(pxi, pyi, ri, x, y) {
                    assert(y <= max_y);
                }
            }
        }
    }
}

/// A wider reach never hides a cell: what is seen with a radius is seen
/// with any larger one. And where no tile blocks sight, every cell in reach
/// is seen.
pub proof fn lemma_view_grows_with_radius(map: TownMap, px: int, py: int, r1: int, r2: int, x: int, y: int)
    requires
        0 <= r1 <= r2,
    ensures
        spec_in_view(map, px, py, r1, x, y) ==> spec_in_view(map, px, py, r2, x, y),
        (forall|a: int, b: int| #[trigger] map.spec_get(a, b) matches Some(t) ==> !t.spec_blocks_sight())
            ==> (in_sight_range(px, py, r2, x, y) ==> spec_in_view(map, px, py, r2, x, y)),
{
    assert(r1 * r1 <= r2 * r2) by (nonlinear_arith)
        requires
            0 <= r1 <= r2,
    ;
    if forall|a: int, b: int| #[trigger] map.spec_get(a, b) matches Some(t) ==> !t.spec_blocks_sight() {
        assert forall|j: nat| #![trigger bres_state(px, py, x, y, j)]
            (forall|i: nat| i <= j ==> !at_cell(#[trigger] bres_state(px, py, x, y, i), x, y))
                implies !sight_blocked_at(map, px, py, bres_state(px, py, x, y, j)) by {
            let st = bres_state(px, py, x, y, j);
            assert(map.spec_get(st.0, st.1) matches Some(t) ==> !t.spec_blocks_sight());
        }
    }
}

} // verus!
