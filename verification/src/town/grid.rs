//! Breadth-first search over a grid of passable cells, and what it finds:
//! exactly the cells reachable from the start by steps up, down, left and
//! right through passable cells.

use vstd::prelude::*;

verus! {

/// `(x, y)` lies on the `w` by `h` grid.
pub open spec fn cell_in(w: int, h: int, x: int, y: int) -> bool {
    0 <= x < w && 0 <= y < h
}

/// The cell `(x, y)` is on the grid and passable.
pub open spec fn mask_at(pass: Seq<bool>, w: int, h: int, x: int, y: int) -> bool {
    cell_in(w, h, x, y) && pass[y * w + x]
}

/// The cells differ by one step up, down, left or right.
pub open spec fn adjacent4(a: (int, int), b: (int, int)) -> bool {
    ||| a.0 == b.0 && (a.1 == b.1 + 1 || a.1 + 1 == b.1)
    ||| a.1 == b.1 && (a.0 == b.0 + 1 || a.0 + 1 == b.0)
}

/// `p` walks from `start`, one step at a time, over passable cells (the
/// start itself need not be passable).
pub open spec fn is_walk(pass: Seq<bool>, w: int, h: int, start: (int, int), p: Seq<(int, int)>) -> bool {
    &&& p.len() >= 1
    &&& p[0] == start
    &&& forall|i: int|
        1 <= i < p.len() ==> adjacent4(p[i - 1], #[trigger] p[i]) && mask_at(pass, w, h, p[i].0, p[i].1)
}

/// Some walk from `start` ends at `c`.
pub open spec fn reachable(pass: Seq<bool>, w: int, h: int, start: (int, int), c: (int, int)) -> bool {
    exists|p: Seq<(int, int)>| #[trigger] is_walk(pass, w, h, start, p) && p.last() == c
}

/// The cells reachable from `start`.
pub open spec fn reach_set(pass: Seq<bool>, w: int, h: int, start: (int, int)) -> Set<(int, int)> {
    Set::new(|c: (int, int)| reachable(pass, w, h, start, c))
}

/// Grid cells as pairs of mathematical integers.
pub open spec fn cells_view(v: Seq<(i32, i32)>) -> Seq<(int, int)> {
    v.map_values(|c: (i32, i32)| (c.0 as int, c.1 as int))
}

pub proof fn lemma_reach_start(pass: Seq<bool>, w: int, h: int, start: (int, int))
    ensures
        reachable(pass, w, h, start, start),
{
    let p = seq![start];
    assert(is_walk(pass, w, h, start, p));
}

pub proof fn lemma_reach_step(pass: Seq<bool>, w: int, h: int, start: (int, int), c: (int, int), n: (int, int))
    requires
        reachable(pass, w, h, start, c),
        adjacent4(c, n),
        mask_at(pass, w, h, n.0, n.1),
    ensures
        reachable(pass, w, h, start, n),
{
    let p = choose|p: Seq<(int, int)>| #[trigger] is_walk(pass, w, h, start, p) && p.last() == c;
    let q = p.push(n);
    assert forall|i: int| 1 <= i < q.len() implies adjacent4(q[i - 1], #[trigger] q[i]) && mask_at(
        pass,
        w,
        h,
        q[i].0,
        q[i].1,
    ) by {
        if i < p.len() {
            assert(q[i] == p[i] && q[i - 1] == p[i - 1]);
        }
    }
    assert(is_walk(pass, w, h, start, q));
}

/// A set of cells that holds the start and every passable neighbour of its
/// members holds every reachable cell.
pub proof fn lemma_closed_holds_reachable(
    pass: Seq<bool>,
    w: int,
    h: int,
    start: (int, int),
    s: Set<(int, int)>,
    c: (int, int),
)
    requires
        s.contains(start),
        forall|a: (int, int), b: (int, int)|
            #![trigger s.contains(a), adjacent4(a, b)]
            s.contains(a) && adjacent4(a, b) && mask_at(pass, w, h, b.0, b.1) ==> s.contains(b),
        reachable(pass, w, h, start, c),
    ensures
        s.contains(c),
{
    let p = choose|p: Seq<(int, int)>| #[trigger] is_walk(pass, w, h, start, p) && p.last() == c;
    lemma_closed_holds_walk(pass, w, h, start, s, p, p.len() - 1);
}

proof fn lemma_closed_holds_walk(
    pass: Seq<bool>,
    w: int,
    h: int,
    start: (int, int),
    s: Set<(int, int)>,
    p: Seq<(int, int)>,
    k: int,
)
    requires
        s.contains(start),
        forall|a: (int, int), b: (int, int)|
            #![trigger s.contains(a), adjacent4(a, b)]
            s.contains(a) && adjacent4(a, b) && mask_at(pass, w, h, b.0, b.1) ==> s.contains(b),
        is_walk(pass, w, h, start, p),
        0 <= k < p.len(),
    ensures
        s.contains(p[k]),
    decreases k,
{
    if k > 0 {
        lemma_closed_holds_walk(pass, w, h, start, s, p, k - 1);
        assert(adjacent4(p[k - 1], p[k]) && mask_at(pass, w, h, p[k].0, p[k].1));
    }
}

/// The number of `true` entries.
pub open spec fn count_true(s: Seq<bool>) -> nat
    decreases s.len(),
{
    if s.len() == 0 {
        0
    } else {
        count_true(s.drop_last()) + if s.last() { 1nat } else { 0nat }
    }
}

pub proof fn lemma_count_true_bound(s: Seq<bool>)
    ensures
        count_true(s) <= s.len(),
    decreases s.len(),
{
    if s.len() > 0 {
        lemma_count_true_bound(s.drop_last());
    }
}

pub proof fn lemma_count_true_set(s: Seq<bool>, i: int)
    requires
        0 <= i < s.len(),
        !s[i],
    ensures
        count_true(s.update(i, true)) == count_true(s) + 1,
    decreases s.len(),
{
    let t = s.update(i, true);
    if i == s.len() - 1 {
        assert(t.drop_last() =~= s.drop_last());
    } else {
        assert(t.drop_last() =~= s.drop_last().update(i, true));
        lemma_count_true_set(s.drop_last(), i);
    }
}

/// The four neighbours of `(x, y)`: up, down, left, right.
pub fn neighbors4(x: i32, y: i32) -> (r: [(i32, i32); 4])
    requires
        i32::MIN < x < i32::MAX,
        i32::MIN < y < i32::MAX,
    ensures
        r@ == seq![(x, (y - 1) as i32), (x, (y + 1) as i32), ((x - 1) as i32, y), ((x + 1) as i32, y)],
{
    [(x, y - 1), (x, y + 1), (x - 1, y), (x + 1, y)]
}

/// Whether `(x, y)` lies on the grid and is marked in `mask`.
pub fn mask_get(mask: &Vec<bool>, w: usize, h: usize, x: i32, y: i32) -> (r: bool)
    requires
        mask@.len() == w * h,
    ensures
        r == mask_at(mask@, w as int, h as int, x as int, y as int),
{
    if x < 0 || y < 0 || x as usize >= w || y as usize >= h {
        false
    } else {
        let len = mask.len();
        proof {
            super::map::lemma_cell_index(x as int, y as int, w as int, h as int);
            assert((y as usize) * w + (x as usize) < len);
        }
        mask[y as usize * w + x as usize]
    }
}

/// The bookkeeping of a search from `st`: the known cells (processed, then
/// queued) are on the grid, reachable, distinct, hold the start, and are
/// exactly the cells marked in `visited`, whose marks they count.
pub open spec fn known_ok(
    pass: Seq<bool>,
    w: int,
    h: int,
    st: (int, int),
    visited: Seq<bool>,
    known: Seq<(i32, i32)>,
) -> bool {
    &&& visited.len() == w * h
    &&& pass.len() == w * h
    &&& forall|k: int|
        0 <= k < known.len() ==> cell_in(w, h, (#[trigger] known[k]).0 as int, known[k].1 as int) && reachable(
            pass,
            w,
            h,
            st,
            (known[k].0 as int, known[k].1 as int),
        )
    &&& cells_view(known).no_duplicates()
    &&& forall|x: int, y: int|
        cell_in(w, h, x, y) ==> (visited[y * w + x] <==> #[trigger] cells_view(known).contains((x, y)))
    &&& count_true(visited) == known.len()
    &&& cells_view(known).contains(st)
}

/// Every passable neighbour of a processed cell other than `except` is known.
pub open spec fn closed_except(
    pass: Seq<bool>,
    w: int,
    h: int,
    region: Seq<(i32, i32)>,
    known: Seq<(i32, i32)>,
    except: Option<(int, int)>,
) -> bool {
    forall|a: (int, int), b: (int, int)|
        #![trigger cells_view(region).contains(a), adjacent4(a, b)]
        cells_view(region).contains(a) && Some(a) != except && adjacent4(a, b) && mask_at(pass, w, h, b.0, b.1)
            ==> cells_view(known).contains(b)
}

pub proof fn lemma_cells_view_push_contains(v: Seq<(i32, i32)>, x: (i32, i32), a: (int, int))
    ensures
        cells_view(v.push(x)).contains(a) <==> (cells_view(v).contains(a) || a == (x.0 as int, x.1 as int)),
{
    let w = v.push(x);
    if cells_view(w).contains(a) {
        let j = choose|j: int| 0 <= j < cells_view(w).len() && cells_view(w)[j] == a;
        if j < v.len() {
            assert(cells_view(v)[j] == a);
        }
    }
    if cells_view(v).contains(a) {
        let j = choose|j: int| 0 <= j < cells_view(v).len() && cells_view(v)[j] == a;
        assert(cells_view(w)[j] == a);
    }
    if a == (x.0 as int, x.1 as int) {
        assert(cells_view(w)[v.len() as int] == a);
    }
}

/// Marks the neighbour `nb` of the processed cell `c` and queues it, when it
/// is passable and not yet known.
fn visit_neighbor(
    pass: &Vec<bool>,
    w: usize,
    h: usize,
    visited: &mut Vec<bool>,
    queue: &mut std::collections::VecDeque<(i32, i32)>,
    region: &Vec<(i32, i32)>,
    c: (i32, i32),
    nb: (i32, i32),
    Ghost(st): Ghost<(int, int)>,
)
    requires
        w <= i32::MAX,
        h <= i32::MAX,
        known_ok(pass@, w as int, h as int, st, old(visited)@, region@ + old(queue)@),
        reachable(pass@, w as int, h as int, st, (c.0 as int, c.1 as int)),
        adjacent4((c.0 as int, c.1 as int), (nb.0 as int, nb.1 as int)),
    ensures
        known_ok(pass@, w as int, h as int, st, final(visited)@, region@ + final(queue)@),
        forall|a: (int, int)|
            #[trigger] cells_view(region@ + old(queue)@).contains(a) ==> cells_view(region@ + final(queue)@).contains(a),
        mask_at(pass@, w as int, h as int, nb.0 as int, nb.1 as int) ==> cells_view(region@ + final(queue)@).contains(
            (nb.0 as int, nb.1 as int),
        ),
        final(queue)@ == old(queue)@ || (final(queue)@ == old(queue)@.push(nb) && count_true(final(visited)@)
            == count_true(old(visited)@) + 1),
        final(queue)@.len() >= old(queue)@.len(),
{
    let ghost wi = w as int;
    let ghost hi = h as int;
    let ghost nci = (nb.0 as int, nb.1 as int);
    let ghost before = region@ + queue@;
    if !mask_get(pass, w, h, nb.0, nb.1) {
        return;
    }
    let vlen = visited.len();
    proof {
        super::map::lemma_cell_index(nb.0 as int, nb.1 as int, wi, hi);
        assert((nb.1 as usize) * w + (nb.0 as usize) < vlen);
    }
    let ni = nb.1 as usize * w + nb.0 as usize;
    if visited[ni] {
        return;
    }
    proof {
        lemma_count_true_set(visited@, ni as int);
        lemma_reach_step(pass@, wi, hi, st, (c.0 as int, c.1 as int), nci);
        assert(!cells_view(before).contains(nci));
    }
    let ghost vis0 = visited@;
    visited.set(ni, true);
    queue.push_back(nb);
    proof {
        let after = region@ + queue@;
        assert(after =~= before.push(nb));
        assert forall|a: (int, int)| #[trigger] cells_view(after).contains(a) <==> (cells_view(before).contains(a)
            || a == nci) by {
            lemma_cells_view_push_contains(before, nb, a);
        }
        assert(cells_view(after) =~= cells_view(before).push(nci));
        assert forall|x: int, y: int| cell_in(wi, hi, x, y) implies (visited@[y * wi + x] <==> #[trigger] cells_view(
            after,
        ).contains((x, y))) by {
            super::map::lemma_cell_index(x, y, wi, hi);
            super::map::lemma_cell_index_injective(x, y, nb.0 as int, nb.1 as int, wi);
            assert(cells_view(before).contains((x, y)) <==> vis0[y * wi + x]);
        }
        assert forall|m: int| 0 <= m < after.len() implies cell_in(wi, hi, (#[trigger] after[m]).0 as int, after[m].1 as int)
            && reachable(pass@, wi, hi, st, (after[m].0 as int, after[m].1 as int)) by {
            if m < before.len() {
                assert(after[m] == before[m]);
            }
        }
    }
}

/// The cells reachable from `start` through cells marked in `pass`, in
/// breadth-first order (neighbours visited up, down, left, right), the
/// start first.
pub fn bfs_region(pass: &Vec<bool>, w: usize, h: usize, start: (i32, i32)) -> (r: Vec<(i32, i32)>)
    requires
        pass@.len() == w * h,
        w <= i32::MAX,
        h <= i32::MAX,
        cell_in(w as int, h as int, start.0 as int, start.1 as int),
    ensures
        r@.len() >= 1,
        r@[0] == start,
        cells_view(r@).no_duplicates(),
        cells_view(r@).to_set() == reach_set(pass@, w as int, h as int, (start.0 as int, start.1 as int)),
        forall|k: int| 0 <= k < r@.len() ==> cell_in(w as int, h as int, (#[trigger] r@[k]).0 as int, r@[k].1 as int),
        r@.len() <= w * h,
{
    let ghost st = (start.0 as int, start.1 as int);
    let ghost wi = w as int;
    let ghost hi = h as int;
    let n = pass.len();
    let mut visited: Vec<bool> = Vec::new();
    let mut i: usize = 0;
    while i < n
        invariant
            i <= n,
            n == w * h,
            visited@.len() == i,
            forall|j: int| 0 <= j < i ==> !visited@[j],
        decreases n - i,
    {
        visited.push(false);
        i = i + 1;
    }
    proof {
        lemma_count_true_prefix_zero(visited@, visited@.len() as int);
        assert(visited@.take(visited@.len() as int) =~= visited@);
        super::map::lemma_cell_index(start.0 as int, start.1 as int, wi, hi);
        lemma_count_true_set(visited@, start.1 * wi + start.0);
    }
    let ghost vis0 = visited@;
    let sidx = start.1 as usize * w + start.0 as usize;
    visited.set(sidx, true);
    let mut queue: std::collections::VecDeque<(i32, i32)> = std::collections::VecDeque::new();
    queue.push_back(start);
    let mut region: Vec<(i32, i32)> = Vec::new();
    proof {
        lemma_reach_start(pass@, wi, hi, st);
        assert(region@ + queue@ =~= seq![start]);
        assert(cells_view(seq![start]) =~= seq![st]);
        assert forall|x: int, y: int|
            cell_in(wi, hi, x, y) implies (visited@[y * wi + x] <==> #[trigger] cells_view(region@ + queue@).contains((x, y))) by {
            super::map::lemma_cell_index(x, y, wi, hi);
            super::map::lemma_cell_index_injective(x, y, st.0, st.1, wi);
            assert(visited@ == vis0.update(sidx as int, true));
            if cells_view(seq![start]).contains((x, y)) {
                assert(cells_view(seq![start])[0] == st);
            }
        }
        assert(cells_view(region@ + queue@)[0] == st);
        assert(known_ok(pass@, wi, hi, st, visited@, region@ + queue@));
    }
    while queue.len() > 0
        invariant
            w <= i32::MAX,
            h <= i32::MAX,
            wi == w,
            hi == h,
            st == (start.0 as int, start.1 as int),
            known_ok(pass@, wi, hi, st, visited@, region@ + queue@),
            closed_except(pass@, wi, hi, region@, region@ + queue@, None),
            region@.len() > 0 ==> region@[0] == start,
            region@.len() == 0 ==> queue@ == seq![start],
        decreases w * h - count_true(visited@), queue@.len(),
    {
        let ghost known0 = region@ + queue@;
        let ghost region0 = region@;
        let c = queue.pop_front().unwrap();
        region.push(c);
        let ghost ci = (c.0 as int, c.1 as int);
        proof {
            assert(region@ + queue@ =~= known0);
            assert(known0[region0.len() as int] == c);
            if region0.len() == 0 {
                assert(c == start);
            }
            assert forall|a: (int, int), b: (int, int)|
                #![trigger cells_view(region@).contains(a), adjacent4(a, b)]
                cells_view(region@).contains(a) && Some(a) != Some(ci) && adjacent4(a, b) && mask_at(pass@, wi, hi, b.0, b.1)
                    implies cells_view(region@ + queue@).contains(b) by {
                lemma_cells_view_push_contains(region0, c, a);
                assert(cells_view(region0).contains(a));
            }
            lemma_cells_view_push_contains(region0, c, ci);
        }
        let nbs = neighbors4(c.0, c.1);
        let ghost q_start = queue@.len();
        let ghost count_start = count_true(visited@);
        let mut k: usize = 0;
        while k < 4
            invariant
                0 <= k <= 4,
                w <= i32::MAX,
                h <= i32::MAX,
                wi == w,
                hi == h,
                st == (start.0 as int, start.1 as int),
                ci == (c.0 as int, c.1 as int),
                nbs@ == seq![(c.0, (c.1 - 1) as i32), (c.0, (c.1 + 1) as i32), ((c.0 - 1) as i32, c.1), ((c.0 + 1) as i32, c.1)],
                cells_view(region@).contains(ci),
                reachable(pass@, wi, hi, st, ci),
                known_ok(pass@, wi, hi, st, visited@, region@ + queue@),
                closed_except(pass@, wi, hi, region@, region@ + queue@, Some(ci)),
                region@.len() > 0,
                region@[0] == start,
                forall|m: int|
                    0 <= m < k ==> (mask_at(pass@, wi, hi, (#[trigger] nbs@[m]).0 as int, nbs@[m].1 as int)
                        ==> cells_view(region@ + queue@).contains((nbs@[m].0 as int, nbs@[m].1 as int))),
                queue@.len() >= q_start,
                count_true(visited@) >= count_start,
                count_true(visited@) == count_start || queue@.len() > q_start || count_true(visited@) > count_start,
                queue@.len() > q_start ==> count_true(visited@) > count_start,
            decreases 4 - k,
        {
            let nb = nbs[k];
            let ghost known_before = region@ + queue@;
            visit_neighbor(pass, w, h, &mut visited, &mut queue, &region, c, nb, Ghost(st));
            proof {
                assert forall|a: (int, int), b: (int, int)|
                    #![trigger cells_view(region@).contains(a), adjacent4(a, b)]
                    cells_view(region@).contains(a) && Some(a) != Some(ci) && adjacent4(a, b) && mask_at(pass@, wi, hi, b.0, b.1)
                        implies cells_view(region@ + queue@).contains(b) by {
                    assert(cells_view(known_before).contains(b));
                }
                assert forall|m: int|
                    0 <= m < k + 1 implies (mask_at(pass@, wi, hi, (#[trigger] nbs@[m]).0 as int, nbs@[m].1 as int)
                        ==> cells_view(region@ + queue@).contains((nbs@[m].0 as int, nbs@[m].1 as int))) by {
                    if m < k && mask_at(pass@, wi, hi, nbs@[m].0 as int, nbs@[m].1 as int) {
                        assert(cells_view(known_before).contains((nbs@[m].0 as int, nbs@[m].1 as int)));
                    }
                }
            }
            k = k + 1;
        }
        proof {
            assert forall|a: (int, int), b: (int, int)|
                #![trigger cells_view(region@).contains(a), adjacent4(a, b)]
                cells_view(region@).contains(a) && Some(a) != None::<(int, int)> && adjacent4(a, b) && mask_at(pass@, wi, hi, b.0, b.1)
                    implies cells_view(region@ + queue@).contains(b) by {
                if a == ci {
                    if b == (ci.0, ci.1 - 1) {
                        assert(nbs@[0] == (c.0, (c.1 - 1) as i32));
                    } else if b == (ci.0, ci.1 + 1) {
                        assert(nbs@[1] == (c.0, (c.1 + 1) as i32));
                    } else if b == (ci.0 - 1, ci.1) {
                        assert(nbs@[2] == ((c.0 - 1) as i32, c.1));
                    } else {
                        assert(nbs@[3] == ((c.0 + 1) as i32, c.1));
                    }
                }
            }
            lemma_count_true_bound(visited@);
        }
    }
    proof {
        assert(region@ + queue@ =~= region@);
        let rv = cells_view(region@);
        let target = reach_set(pass@, wi, hi, st);
        assert forall|c: (int, int)| rv.to_set().contains(c) <==> target.contains(c) by {
            if rv.contains(c) {
                let j = choose|j: int| 0 <= j < rv.len() && rv[j] == c;
                assert(region@[j] == (region@ + queue@)[j]);
            }
            if target.contains(c) {
                assert forall|a: (int, int), b: (int, int)|
                    #![trigger rv.to_set().contains(a), adjacent4(a, b)]
                    rv.to_set().contains(a) && adjacent4(a, b) && mask_at(pass@, wi, hi, b.0, b.1)
                        implies rv.to_set().contains(b) by {
                    assert(rv.contains(a));
                }
                lemma_closed_holds_reachable(pass@, wi, hi, st, rv.to_set(), c);
            }
        }
        assert(rv.to_set() =~= target);
        assert forall|k: int| 0 <= k < region@.len() implies cell_in(wi, hi, (#[trigger] region@[k]).0 as int, region@[k].1 as int) by {
            assert(region@[k] == (region@ + queue@)[k]);
        }
        lemma_count_true_bound(visited@);
    }
    region
}

proof fn lemma_count_true_prefix_zero(s: Seq<bool>, m: int)
    requires
        0 <= m <= s.len(),
        forall|j: int| 0 <= j < s.len() ==> !s[j],
    ensures
        count_true(s.take(m)) == 0,
    decreases m,
{
    if m > 0 {
        assert(s.take(m).drop_last() =~= s.take(m - 1));
        lemma_count_true_prefix_zero(s, m - 1);
    }
}

} // verus!
