//! Deterministic six-connected A* over the laboratory's fixed 32 x 24 x 12
//! cell world. Which unit moves are clear of obstacles is geometry the
//! caller decides; this module searches, bounds the work, and returns the
//! cell route.

use vstd::prelude::*;

verus! {

/// Cells along x.
pub const GRID_X: usize = 32;
/// Cells along y.
pub const GRID_Y: usize = 24;
/// Cells along z.
pub const GRID_Z: usize = 12;
/// Cells in one horizontal layer.
pub const LAYER: usize = 768;
/// Cells in the world.
pub const CELLS: usize = 9216;
/// Unit moves from a cell: -x, +x, -y, +y, -z, +z, in that order.
pub const MOVES: usize = 6;

/// Why no route was produced.
#[derive(Clone, Copy, Debug, PartialEq, Eq, Structural)]
pub enum PlanError {
    /// An endpoint is not a clear cell of the world.
    InvalidEndpoint,
    /// No route of clear moves joins the endpoints.
    NoRoute,
    /// The search would expand more cells than its budget.
    Budget,
}

/// The x coordinate of a cell.
pub open spec fn cell_x(id: int) -> int {
    id % 32
}

/// The y coordinate of a cell.
pub open spec fn cell_y(id: int) -> int {
    (id / 32) % 24
}

/// The z coordinate of a cell.
pub open spec fn cell_z(id: int) -> int {
    id / 768
}

/// The cell one unit move `k` away from `id`, if it is inside the world.
pub open spec fn neighbor(id: int, k: int) -> Option<int> {
    if k == 0 && cell_x(id) > 0 {
        Some(id - 1)
    } else if k == 1 && cell_x(id) < 31 {
        Some(id + 1)
    } else if k == 2 && cell_y(id) > 0 {
        Some(id - 32)
    } else if k == 3 && cell_y(id) < 23 {
        Some(id + 32)
    } else if k == 4 && cell_z(id) > 0 {
        Some(id - 768)
    } else if k == 5 && cell_z(id) < 11 {
        Some(id + 768)
    } else {
        None
    }
}

/// Whether unit move `k` from cell `a` is clear: `clear[6 a + k]`.
pub open spec fn move_clear(clear: Seq<bool>, a: int, k: int) -> bool {
    clear[6 * a + k]
}

/// A clear unit move leads from cell `a` to cell `b`.
pub open spec fn clear_step(clear: Seq<bool>, a: int, b: int) -> bool {
    exists|k: int| 0 <= k < 6 && neighbor(a, k) == Some(b) && #[trigger] move_clear(clear, a, k)
}

/// The `i`-th move of `p` is a clear unit move.
pub open spec fn route_step(clear: Seq<bool>, p: Seq<usize>, i: int) -> bool {
    clear_step(clear, p[i] as int, p[i + 1] as int)
}

/// The move into the `i`-th cell of a reversed route is clear.
pub open spec fn back_step(clear: Seq<bool>, r: Seq<usize>, i: int) -> bool {
    clear_step(clear, r[i + 1] as int, r[i] as int)
}

/// `p` is a route of clear unit moves from `start` to `goal`.
pub open spec fn is_route(clear: Seq<bool>, p: Seq<usize>, start: int, goal: int) -> bool {
    &&& p.len() >= 1
    &&& p[0] == start
    &&& p.last() == goal
    &&& forall|i: int| 0 <= i < p.len() ==> #[trigger] p[i] < CELLS
    &&& forall|i: int| 0 <= i < p.len() - 1 ==> #[trigger] route_step(clear, p, i)
}

/// Some route of clear unit moves joins `start` to `goal`.
pub open spec fn reachable(clear: Seq<bool>, start: int, goal: int) -> bool {
    exists|p: Seq<usize>| is_route(clear, p, start, goal)
}

/// The Manhattan distance between two cells.
#[verifier::opaque]
pub open spec fn manhattan(a: int, b: int) -> int {
    let dx = cell_x(a) - cell_x(b);
    let dy = cell_y(a) - cell_y(b);
    let dz = cell_z(a) - cell_z(b);
    (if dx < 0 { -dx } else { dx }) + (if dy < 0 { -dy } else { dy }) + (if dz < 0 { -dz } else { dz })
}

/// A found route and the number of cells expanded to find it.
#[derive(Clone, Debug)]
pub struct GridRoute {
    pub cells: Vec<usize>,
    pub expanded: usize,
}

/// The absolute difference of two coordinates.
fn distance_1d(a: usize, b: usize) -> (d: u32)
    requires
        a < 64,
        b < 64,
    ensures
        d == (if a < b { b - a } else { a - b }),
{
    if a < b {
        (b - a) as u32
    } else {
        (a - b) as u32
    }
}

/// The Manhattan distance between two cells.
fn heuristic(a: usize, b: usize) -> (h: u32)
    requires
        a < CELLS,
        b < CELLS,
    ensures
        h == manhattan(a as int, b as int),
        h <= 68,
{
    reveal(manhattan);
    let dx = distance_1d(a % 32, b % 32);
    let dy = distance_1d((a / 32) % 24, (b / 32) % 24);
    let dz = distance_1d(a / 768, b / 768);
    dx + dy + dz
}

/// The cell one unit move `k` away from `id`, if it is inside the world.
fn neighbor_of(id: usize, k: usize) -> (n: Option<usize>)
    requires
        id < CELLS,
        k < 6,
    ensures
        n matches Some(c) ==> neighbor(id as int, k as int) == Some(c as int) && c < CELLS,
        n is None ==> neighbor(id as int, k as int) is None,
{
    let x = id % 32;
    let y = (id / 32) % 24;
    let z = id / 768;
    if k == 0 && x > 0 {
        Some(id - 1)
    } else if k == 1 && x < 31 {
        Some(id + 1)
    } else if k == 2 && y > 0 {
        Some(id - 32)
    } else if k == 3 && y < 23 {
        Some(id + 32)
    } else if k == 4 && z > 0 {
        Some(id - 768)
    } else if k == 5 && z < 11 {
        Some(id + 768)
    } else {
        None
    }
}

/// The lexicographic order of open-list entries `(f, g, cell)`.
pub open spec fn entry_lt(a: (u32, u32, usize), b: (u32, u32, usize)) -> bool {
    a.0 < b.0 || (a.0 == b.0 && (a.1 < b.1 || (a.1 == b.1 && a.2 < b.2)))
}

fn entry_less(a: (u32, u32, usize), b: (u32, u32, usize)) -> (lt: bool)
    ensures
        lt == entry_lt(a, b),
{
    a.0 < b.0 || (a.0 == b.0 && (a.1 < b.1 || (a.1 == b.1 && a.2 < b.2)))
}

/// The position of the smallest entry of a nonempty open list.
fn min_entry(open: &Vec<(u32, u32, usize)>) -> (i: usize)
    requires
        open@.len() > 0,
    ensures
        i < open@.len(),
        forall|j: int| 0 <= j < open@.len() ==> !entry_lt(#[trigger] open@[j], open@[i as int]),
{
    let mut best: usize = 0;
    let mut j: usize = 1;
    while j < open.len()
        invariant
            open@.len() > 0,
            best < open@.len(),
            1 <= j <= open@.len(),
            forall|m: int| 0 <= m < j ==> !entry_lt(#[trigger] open@[m], open@[best as int]),
        decreases open@.len() - j,
    {
        if entry_less(open[j], open[best]) {
            best = j;
        }
        j = j + 1;
    }
    best
}

/// How many entries of `s` are `true`.
pub open spec fn count_true(s: Seq<bool>) -> nat
    decreases s.len(),
{
    if s.len() == 0 {
        0
    } else {
        count_true(s.drop_last()) + if s.last() {
            1nat
        } else {
            0nat
        }
    }
}

proof fn lemma_count_true_bound(s: Seq<bool>, i: int)
    requires
        0 <= i < s.len(),
        !s[i],
    ensures
        count_true(s) < s.len(),
    decreases s.len(),
{
    if i < s.len() - 1 {
        lemma_count_true_bound(s.drop_last(), i);
    } else {
        lemma_count_true_le(s.drop_last());
    }
}

proof fn lemma_count_true_le(s: Seq<bool>)
    ensures
        count_true(s) <= s.len(),
    decreases s.len(),
{
    if s.len() > 0 {
        lemma_count_true_le(s.drop_last());
    }
}

proof fn lemma_count_true_set(s: Seq<bool>, i: int)
    requires
        0 <= i < s.len(),
        !s[i],
    ensures
        count_true(s.update(i, true)) == count_true(s) + 1,
    decreases s.len(),
{
    if i < s.len() - 1 {
        assert(s.update(i, true).drop_last() =~= s.drop_last().update(i, true));
        lemma_count_true_set(s.drop_last(), i);
    } else {
        assert(s.update(i, true).drop_last() =~= s.drop_last());
    }
}

/// Search bookkeeping is sized to the world.
pub open spec fn sized(g: Seq<u32>, parent: Seq<usize>, visited: Seq<bool>) -> bool {
    g.len() == CELLS && parent.len() == CELLS && visited.len() == CELLS
}

/// Every discovered cell has a cost no larger than the expansions so far,
/// and every expanded cell was discovered.
#[verifier::opaque]
pub open spec fn costs_bounded(g: Seq<u32>, visited: Seq<bool>, expanded: int) -> bool {
    &&& forall|n: int| 0 <= n < CELLS && #[trigger] g[n] != u32::MAX ==> g[n] <= expanded
    &&& forall|n: int| 0 <= n < CELLS && #[trigger] visited[n] ==> g[n] != u32::MAX
}

/// Every discovered cell other than the start was reached by a clear move
/// from an expanded cell of cost one less.
#[verifier::opaque]
pub open spec fn parents_valid(
    clear: Seq<bool>,
    g: Seq<u32>,
    parent: Seq<usize>,
    visited: Seq<bool>,
    start: int,
) -> bool {
    forall|n: int|
        0 <= n < CELLS && n != start && #[trigger] g[n] != u32::MAX ==> {
            let p = parent[n] as int;
            &&& 0 <= p < CELLS
            &&& visited[p]
            &&& g[p] + 1 == g[n]
            &&& clear_step(clear, p, n)
        }
}

/// The open list holds exactly one current entry `(g + h, g, cell)` for each
/// discovered cell not yet expanded.
#[verifier::opaque]
pub open spec fn open_exact(
    g: Seq<u32>,
    visited: Seq<bool>,
    open: Seq<(u32, u32, usize)>,
    goal: int,
) -> bool {
    &&& forall|i: int|
        0 <= i < open.len() ==> {
            let e = #[trigger] open[i];
            &&& e.2 < CELLS
            &&& !visited[e.2 as int]
            &&& g[e.2 as int] != u32::MAX
            &&& e.1 == g[e.2 as int]
            &&& e.0 == g[e.2 as int] + manhattan(e.2 as int, goal)
        }
    &&& forall|i: int, j: int| 0 <= i < open.len() && 0 <= j < open.len() && i != j ==> (#[trigger] open[i]).2
        != (#[trigger] open[j]).2
    &&& forall|n: int|
        0 <= n < CELLS && #[trigger] g[n] != u32::MAX && !visited[n] ==> exists|i: int|
            0 <= i < open.len() && (#[trigger] open[i]).2 == n
}

/// Every clear move out of an expanded cell other than `except` leads to a
/// discovered cell.
#[verifier::opaque]
pub open spec fn expansion_closed(clear: Seq<bool>, g: Seq<u32>, visited: Seq<bool>, except: int) -> bool {
    forall|v: int, k: int|
        0 <= v < CELLS && v != except && 0 <= k < 6 && visited[v] && #[trigger] move_clear(clear, v, k)
            && neighbor(v, k) is Some ==> g[neighbor(v, k)->0] != u32::MAX
}

/// Every clear move out of an expanded cell other than `except` to a cell
/// not yet expanded leads to a cell whose cost is at most one more.
#[verifier::opaque]
pub open spec fn relaxed(clear: Seq<bool>, g: Seq<u32>, visited: Seq<bool>, except: int) -> bool {
    forall|v: int, k: int|
        0 <= v < CELLS && v != except && 0 <= k < 6 && visited[v] && #[trigger] move_clear(clear, v, k)
            && neighbor(v, k) is Some && !visited[neighbor(v, k)->0] ==> g[neighbor(v, k)->0] <= g[v]
            + 1
}

/// Every expanded cell's cost is at most the number of moves of any route to
/// it from the start.
#[verifier::opaque]
pub open spec fn optimal(clear: Seq<bool>, g: Seq<u32>, visited: Seq<bool>, start: int) -> bool {
    forall|u: int, p: Seq<usize>|
        0 <= u < CELLS && visited[u] && #[trigger] is_route(clear, p, start, u) ==> g[u] + 1 <= p.len()
}

/// Lowering the cost of a cell not yet expanded keeps moves relaxed and
/// expanded costs optimal.
proof fn lemma_lower_unexpanded(
    clear: Seq<bool>,
    g: Seq<u32>,
    visited: Seq<bool>,
    n: int,
    value: u32,
    except: int,
    start: int,
)
    requires
        g.len() == CELLS,
        visited.len() == CELLS,
        0 <= n < CELLS,
        !visited[n],
        value <= g[n],
        relaxed(clear, g, visited, except),
        optimal(clear, g, visited, start),
    ensures
        relaxed(clear, g.update(n, value), visited, except),
        optimal(clear, g.update(n, value), visited, start),
{
    reveal(relaxed);
    reveal(optimal);
    let g2 = g.update(n, value);
    assert forall|v: int, k: int|
        0 <= v < CELLS && v != except && 0 <= k < 6 && visited[v] && #[trigger] move_clear(clear, v, k)
            && neighbor(v, k) is Some && !visited[neighbor(v, k)->0] implies g2[neighbor(v, k)->0] <= g2[v]
        + 1 by {
        assert(v != n);
    }
    assert forall|u: int, p: Seq<usize>|
        0 <= u < CELLS && visited[u] && #[trigger] is_route(clear, p, start, u) implies g2[u] + 1 <= p.len() by {
        assert(u != n);
    }
}

/// Relaxation of every move out of `except` completes the relaxed property.
proof fn lemma_relaxed_complete(clear: Seq<bool>, g: Seq<u32>, visited: Seq<bool>, id: int)
    requires
        relaxed(clear, g, visited, id),
        0 <= id < CELLS,
        forall|k2: int|
            0 <= k2 < 6 && #[trigger] move_clear(clear, id, k2) && neighbor(id, k2) is Some
                && !visited[neighbor(id, k2)->0] ==> g[neighbor(id, k2)->0] <= g[id] + 1,
    ensures
        relaxed(clear, g, visited, -1),
{
    reveal(relaxed);
}

/// The position of the open-list entry for cell `n`.
fn find_entry(open: &Vec<(u32, u32, usize)>, n: usize) -> (i: usize)
    requires
        exists|i: int| 0 <= i < open@.len() && (#[trigger] open@[i]).2 == n,
    ensures
        i < open@.len(),
        open@[i as int].2 == n,
{
    let mut i: usize = 0;
    while i < open.len()
        invariant
            i <= open@.len(),
            exists|j: int| i <= j < open@.len() && (#[trigger] open@[j]).2 == n,
        decreases open@.len() - i,
    {
        if open[i].2 == n {
            return i;
        }
        i = i + 1;
    }
    i
}

/// Every cell of a route from an expanded start stays among expanded cells
/// when expansion is closed under clear moves.
proof fn lemma_routes_stay_expanded(
    clear: Seq<bool>,
    visited: Seq<bool>,
    p: Seq<usize>,
    start: int,
    goal: int,
    i: int,
)
    requires
        visited.len() == CELLS,
        is_route(clear, p, start, goal),
        0 <= i < p.len(),
        visited[start],
        forall|v: int, k: int|
            0 <= v < CELLS && 0 <= k < 6 && visited[v] && #[trigger] move_clear(clear, v, k)
                && neighbor(v, k) is Some ==> visited[neighbor(v, k)->0],
    ensures
        visited[p[i] as int],
    decreases i,
{
    if i > 0 {
        lemma_routes_stay_expanded(clear, visited, p, start, goal, i - 1);
        assert(route_step(clear, p, i - 1));
        let k = choose|k: int|
            0 <= k < 6 && neighbor(p[i - 1] as int, k) == Some(p[i] as int) && #[trigger] move_clear(
                clear,
                p[i - 1] as int,
                k,
            );
        assert(p[i - 1] < CELLS);
    }
}

/// Give cell `n`, reached from the expanded cell `id` by clear move `k`,
/// the cost `g[id] + 1`, `id` as parent and a current open-list entry.
#[verifier::rlimit(40)]
fn improve(
    g: &mut Vec<u32>,
    parent: &mut Vec<usize>,
    open: &mut Vec<(u32, u32, usize)>,
    visited: &Vec<bool>,
    clear: &[bool],
    id: usize,
    n: usize,
    k: usize,
    goal: usize,
    start: usize,
    expanded: usize,
)
    requires
        sized(old(g)@, old(parent)@, visited@),
        clear@.len() == 6 * CELLS,
        id < CELLS,
        n < CELLS,
        k < 6,
        goal < CELLS,
        start < CELLS,
        1 <= expanded <= CELLS,
        visited@[id as int],
        !visited@[n as int],
        neighbor(id as int, k as int) == Some(n as int),
        move_clear(clear@, id as int, k as int),
        old(g)@[id as int] < expanded,
        old(g)@[id as int] + 1 < old(g)@[n as int],
        old(g)@[start as int] == 0,
        costs_bounded(old(g)@, visited@, expanded as int),
        parents_valid(clear@, old(g)@, old(parent)@, visited@, start as int),
        open_exact(old(g)@, visited@, old(open)@, goal as int),
        relaxed(clear@, old(g)@, visited@, id as int),
        optimal(clear@, old(g)@, visited@, start as int),
    ensures
        sized(final(g)@, final(parent)@, visited@),
        final(g)@ == old(g)@.update(n as int, (old(g)@[id as int] + 1) as u32),
        relaxed(clear@, final(g)@, visited@, id as int),
        optimal(clear@, final(g)@, visited@, start as int),
        costs_bounded(final(g)@, visited@, expanded as int),
        parents_valid(clear@, final(g)@, final(parent)@, visited@, start as int),
        open_exact(final(g)@, visited@, final(open)@, goal as int),
{
    reveal(costs_bounded);
    reveal(parents_valid);
    reveal(open_exact);
    proof {
        lemma_lower_unexpanded(clear@, g@, visited@, n as int, (g@[id as int] + 1) as u32, id as int, start as int);
    }
    let ghost g0 = g@;
    let ghost open0 = open@;
    let ghost parent0 = parent@;
    let step = g[id] + 1;
    let f = step + heuristic(n, goal);
    let fresh = g[n] == u32::MAX;
    g.set(n, step);
    parent.set(n, id);
    assert(clear_step(clear@, id as int, n as int));
    if fresh {
        open.push((f, step, n));
        proof {
            assert forall|m: int|
                0 <= m < CELLS && #[trigger] g@[m] != u32::MAX && !visited@[m] implies exists|i: int|
                    0 <= i < open@.len() && (#[trigger] open@[i]).2 == m by {
                if m == n {
                    assert(open@[open@.len() - 1].2 == n);
                } else {
                    assert(g0[m] != u32::MAX);
                    let i = choose|i: int| 0 <= i < open0.len() && (#[trigger] open0[i]).2 == m;
                    assert(open@[i] == open0[i]);
                }
            }
            assert forall|i: int| 0 <= i < open0.len() implies (#[trigger] open0[i]).2 != n by {
                assert(g0[open0[i].2 as int] != u32::MAX);
            }
        }
    } else {
        let i = find_entry(open, n);
        open.set(i, (f, step, n));
        proof {
            assert forall|m: int|
                0 <= m < CELLS && #[trigger] g@[m] != u32::MAX && !visited@[m] implies exists|j: int|
                    0 <= j < open@.len() && (#[trigger] open@[j]).2 == m by {
                if m == n {
                    assert(open@[i as int].2 == n);
                } else {
                    assert(g0[m] != u32::MAX);
                    let j = choose|j: int| 0 <= j < open0.len() && (#[trigger] open0[j]).2 == m;
                    assert(j != i);
                    assert(open@[j] == open0[j]);
                }
            }
        }
    }
    proof {
        assert forall|m: int|
            0 <= m < CELLS && m != start && #[trigger] g@[m] != u32::MAX implies {
                let p = parent@[m] as int;
                &&& 0 <= p < CELLS
                &&& visited@[p]
                &&& g@[p] + 1 == g@[m]
                &&& clear_step(clear@, p, m)
            } by {
            if m != n {
                assert(g0[m] != u32::MAX);
                assert(visited@[parent0[m] as int]);
                assert(parent0[m] as int != n);
            }
        }
    }
}

/// Relax the clear moves out of the cell `id` just expanded: every
/// neighbour not yet expanded whose cost improves gets it (see [`improve`]).
fn relax_neighbors(
    g: &mut Vec<u32>,
    parent: &mut Vec<usize>,
    open: &mut Vec<(u32, u32, usize)>,
    visited: &Vec<bool>,
    clear: &[bool],
    id: usize,
    goal: usize,
    start: usize,
    expanded: usize,
)
    requires
        sized(old(g)@, old(parent)@, visited@),
        clear@.len() == 6 * CELLS,
        id < CELLS,
        goal < CELLS,
        start < CELLS,
        1 <= expanded <= CELLS,
        visited@[id as int],
        old(g)@[id as int] < expanded,
        old(g)@[start as int] == 0,
        costs_bounded(old(g)@, visited@, expanded as int),
        parents_valid(clear@, old(g)@, old(parent)@, visited@, start as int),
        open_exact(old(g)@, visited@, old(open)@, goal as int),
        expansion_closed(clear@, old(g)@, visited@, id as int),
        relaxed(clear@, old(g)@, visited@, id as int),
        optimal(clear@, old(g)@, visited@, start as int),
    ensures
        sized(final(g)@, final(parent)@, visited@),
        final(g)@[start as int] == 0,
        costs_bounded(final(g)@, visited@, expanded as int),
        parents_valid(clear@, final(g)@, final(parent)@, visited@, start as int),
        open_exact(final(g)@, visited@, final(open)@, goal as int),
        expansion_closed(clear@, final(g)@, visited@, -1),
        relaxed(clear@, final(g)@, visited@, -1),
        optimal(clear@, final(g)@, visited@, start as int),
        forall|n: int| 0 <= n < CELLS && visited@[n] ==> #[trigger] final(g)@[n] == old(g)@[n],
{
    let cost = g[id];
    let mut k: usize = 0;
    while k < 6
        invariant
            sized(g@, parent@, visited@),
            clear@.len() == 6 * CELLS,
            id < CELLS,
            goal < CELLS,
            start < CELLS,
            1 <= expanded <= CELLS,
            k <= 6,
            visited@[id as int],
            g@[id as int] == cost,
            cost < expanded,
            g@[start as int] == 0,
            costs_bounded(g@, visited@, expanded as int),
            parents_valid(clear@, g@, parent@, visited@, start as int),
            open_exact(g@, visited@, open@, goal as int),
            relaxed(clear@, g@, visited@, id as int),
            optimal(clear@, g@, visited@, start as int),
            forall|k2: int|
                0 <= k2 < k && #[trigger] move_clear(clear@, id as int, k2) && neighbor(id as int, k2) is Some
                    && !visited@[neighbor(id as int, k2)->0] ==> g@[neighbor(id as int, k2)->0] <= cost + 1,
            forall|k2: int|
                0 <= k2 < k && #[trigger] move_clear(clear@, id as int, k2) && neighbor(id as int, k2) is Some
                    ==> g@[neighbor(id as int, k2)->0] != u32::MAX,
            forall|n: int| 0 <= n < CELLS && visited@[n] ==> #[trigger] g@[n] == old(g)@[n],
            forall|n: int| 0 <= n < CELLS && #[trigger] old(g)@[n] != u32::MAX ==> g@[n] != u32::MAX,
        decreases 6 - k,
    {
        let ghost g1 = g@;
        if let Some(n) = neighbor_of(id, k) {
            proof {
                if visited@[n as int] {
                    reveal(costs_bounded);
                    assert(g@[n as int] != u32::MAX);
                }
            }
            if !visited[n] && cost + 1 < g[n] && clear[6 * id + k] {
                assert(move_clear(clear@, id as int, k as int));
                improve(g, parent, open, visited, clear, id, n, k, goal, start, expanded);
            }
            assert(g@[n as int] != u32::MAX || !move_clear(clear@, id as int, k as int));
            assert(visited@[n as int] || !move_clear(clear@, id as int, k as int) || g@[n as int] <= cost + 1);
        }
        assert forall|k2: int|
            0 <= k2 < k + 1 && #[trigger] move_clear(clear@, id as int, k2) && neighbor(id as int, k2) is Some
                && !visited@[neighbor(id as int, k2)->0] implies g@[neighbor(id as int, k2)->0] <= cost + 1 by {
            if k2 < k {
                assert(g@[neighbor(id as int, k2)->0] <= g1[neighbor(id as int, k2)->0]);
            }
        }
        assert forall|k2: int|
            0 <= k2 < k + 1 && #[trigger] move_clear(clear@, id as int, k2) && neighbor(id as int, k2) is Some
                implies g@[neighbor(id as int, k2)->0] != u32::MAX by {
            if k2 < k {
                assert(g1[neighbor(id as int, k2)->0] != u32::MAX);
            }
        }
        k = k + 1;
    }
    proof {
        lemma_relaxed_complete(clear@, g@, visited@, id as int);
        reveal(expansion_closed);
        assert forall|v: int, k2: int|
            0 <= v < CELLS && v != -1 && 0 <= k2 < 6 && visited@[v] && #[trigger] move_clear(clear@, v, k2)
                && neighbor(v, k2) is Some implies g@[neighbor(v, k2)->0] != u32::MAX by {
            if v != id {
                assert(old(g)@[neighbor(v, k2)->0] != u32::MAX);
            }
        }
    }
}

/// Expanding the cell of open entry `i` keeps costs bounded.
proof fn lemma_expand_costs(g: Seq<u32>, visited: Seq<bool>, id: int, expanded: int)
    requires
        visited.len() == CELLS,
        0 <= id < CELLS,
        g.len() == CELLS,
        g[id] != u32::MAX,
        costs_bounded(g, visited, expanded),
    ensures
        costs_bounded(g, visited.update(id, true), expanded + 1),
        g[id] <= expanded,
{
    reveal(costs_bounded);
}

/// Expanding a cell keeps parent links valid.
proof fn lemma_expand_parents(
    clear: Seq<bool>,
    g: Seq<u32>,
    parent: Seq<usize>,
    visited: Seq<bool>,
    id: int,
    start: int,
)
    requires
        visited.len() == CELLS,
        0 <= id < CELLS,
        parents_valid(clear, g, parent, visited, start),
    ensures
        parents_valid(clear, g, parent, visited.update(id, true), start),
{
    reveal(parents_valid);
    let v2 = visited.update(id, true);
    assert forall|n: int| 0 <= n < CELLS && n != start && #[trigger] g[n] != u32::MAX implies v2[parent[n] as int] by {
        assert(visited[parent[n] as int]);
    }
}

/// Expanding a cell keeps closure for every other expanded cell.
proof fn lemma_expand_closed(clear: Seq<bool>, g: Seq<u32>, visited: Seq<bool>, id: int)
    requires
        visited.len() == CELLS,
        0 <= id < CELLS,
        !visited[id],
        expansion_closed(clear, g, visited, -1),
    ensures
        expansion_closed(clear, g, visited.update(id, true), id),
{
    reveal(expansion_closed);
}

/// The facts open entry `i` carries, and the open list without it for the
/// search state where its cell is expanded.
proof fn lemma_expand_open(g: Seq<u32>, visited: Seq<bool>, open: Seq<(u32, u32, usize)>, i: int, goal: int)
    requires
        visited.len() == CELLS,
        g.len() == CELLS,
        0 <= i < open.len(),
        open_exact(g, visited, open, goal),
    ensures
        ({
            let id = open[i].2 as int;
            &&& 0 <= id < CELLS
            &&& !visited[id]
            &&& g[id] != u32::MAX
            &&& open[i].1 == g[id]
            &&& open_exact(g, visited.update(id, true), open.remove(i), goal)
        }),
{
    reveal(open_exact);
    let id = open[i].2 as int;
    let v2 = visited.update(id, true);
    let o2 = open.remove(i);
    assert(open[i] == open[i]);
    assert forall|j: int| 0 <= j < o2.len() implies {
        let e = #[trigger] o2[j];
        &&& e.2 < CELLS
        &&& !v2[e.2 as int]
        &&& g[e.2 as int] != u32::MAX
        &&& e.1 == g[e.2 as int]
        &&& e.0 == g[e.2 as int] + manhattan(e.2 as int, goal)
    } by {
        let src = if j < i { j } else { j + 1 };
        assert(o2[j] == open[src]);
        assert(open[src].2 != open[i].2);
    }
    assert forall|a: int, b: int| 0 <= a < o2.len() && 0 <= b < o2.len() && a != b implies (#[trigger] o2[a]).2
        != (#[trigger] o2[b]).2 by {
        let sa = if a < i { a } else { a + 1 };
        let sb = if b < i { b } else { b + 1 };
        assert(o2[a] == open[sa] && o2[b] == open[sb]);
    }
    assert forall|n: int|
        0 <= n < CELLS && #[trigger] g[n] != u32::MAX && !v2[n] implies exists|j: int|
            0 <= j < o2.len() && (#[trigger] o2[j]).2 == n by {
        let j = choose|j: int| 0 <= j < open.len() && (#[trigger] open[j]).2 == n;
        assert(j != i);
        let k = if j < i { j } else { j - 1 };
        assert(o2[k] == open[j]);
    }
}

/// Expanding a cell keeps every other expanded cell's moves relaxed.
proof fn lemma_expand_relaxed(clear: Seq<bool>, g: Seq<u32>, visited: Seq<bool>, id: int)
    requires
        visited.len() == CELLS,
        0 <= id < CELLS,
        relaxed(clear, g, visited, -1),
    ensures
        relaxed(clear, g, visited.update(id, true), id),
{
    reveal(relaxed);
    let v2 = visited.update(id, true);
    assert forall|v: int, k: int|
        0 <= v < CELLS && v != id && 0 <= k < 6 && v2[v] && #[trigger] move_clear(clear, v, k)
            && neighbor(v, k) is Some && !v2[neighbor(v, k)->0] implies g[neighbor(v, k)->0] <= g[v] + 1 by {
        assert(visited[v]);
        assert(!visited[neighbor(v, k)->0]);
    }
}

/// Once any cell other than the start is discovered, the start is expanded.
proof fn lemma_start_expanded(
    clear: Seq<bool>,
    g: Seq<u32>,
    parent: Seq<usize>,
    visited: Seq<bool>,
    n: int,
    start: int,
)
    requires
        sized(g, parent, visited),
        0 <= n < CELLS,
        n != start,
        g[n] != u32::MAX,
        parents_valid(clear, g, parent, visited, start),
    ensures
        visited[start],
    decreases g[n],
{
    reveal(parents_valid);
    let p = parent[n] as int;
    if p != start {
        lemma_start_expanded(clear, g, parent, visited, p, start);
    }
}

/// The first cell of `p`, from position `i` on, that is not yet expanded.
proof fn first_unexpanded(visited: Seq<bool>, p: Seq<usize>, i: int) -> (k: int)
    requires
        visited.len() == CELLS,
        0 <= i < p.len(),
        forall|j: int| 0 <= j < p.len() ==> #[trigger] p[j] < CELLS,
        forall|j: int| 0 <= j < i ==> visited[#[trigger] p[j] as int],
        !visited[p.last() as int],
    ensures
        i <= k < p.len(),
        !visited[p[k] as int],
        forall|j: int| 0 <= j < k ==> visited[#[trigger] p[j] as int],
    decreases p.len() - i,
{
    if !visited[p[i] as int] {
        i
    } else {
        first_unexpanded(visited, p, i + 1)
    }
}

/// A route's first `k` cells are a route to its `k`-th cell.
proof fn lemma_route_prefix(clear: Seq<bool>, p: Seq<usize>, start: int, goal: int, k: int)
    requires
        is_route(clear, p, start, goal),
        1 <= k <= p.len(),
    ensures
        is_route(clear, p.take(k), start, p[k - 1] as int),
{
    let q = p.take(k);
    assert forall|i: int| 0 <= i < q.len() implies #[trigger] q[i] < CELLS by {
        assert(q[i] == p[i]);
    }
    assert forall|i: int| 0 <= i < q.len() - 1 implies #[trigger] route_step(clear, q, i) by {
        assert(q[i] == p[i] && q[i + 1] == p[i + 1]);
        assert(route_step(clear, p, i));
    }
}

/// Along a route, the Manhattan distance to any cell drops by at most one
/// per move.
proof fn lemma_route_heuristic(clear: Seq<bool>, p: Seq<usize>, start: int, goal: int, k: int, t: int)
    requires
        is_route(clear, p, start, goal),
        0 <= k < p.len(),
        0 <= t < CELLS,
    ensures
        manhattan(p[k] as int, t) <= (p.len() - 1 - k) + manhattan(p.last() as int, t),
    decreases p.len() - 1 - k,
{
    if k < p.len() - 1 {
        lemma_route_heuristic(clear, p, start, goal, k + 1, t);
        assert(route_step(clear, p, k));
        let kk = choose|kk: int|
            0 <= kk < 6 && neighbor(p[k] as int, kk) == Some(p[k + 1] as int) && #[trigger] move_clear(
                clear,
                p[k] as int,
                kk,
            );
        assert(p[k] < CELLS);
        lemma_move_heuristic(p[k] as int, kk, t);
    }
}

/// What the open list says of its entry `i`.
proof fn lemma_open_entry(g: Seq<u32>, visited: Seq<bool>, open: Seq<(u32, u32, usize)>, goal: int, i: int)
    requires
        g.len() == CELLS,
        visited.len() == CELLS,
        0 <= i < open.len(),
        open_exact(g, visited, open, goal),
    ensures
        0 <= open[i].2 < CELLS,
        !visited[open[i].2 as int],
        g[open[i].2 as int] != u32::MAX,
        open[i].0 == g[open[i].2 as int] + manhattan(open[i].2 as int, goal),
{
    reveal(open_exact);
}

/// The position of the open entry of a discovered cell not yet expanded.
proof fn open_position(g: Seq<u32>, visited: Seq<bool>, open: Seq<(u32, u32, usize)>, goal: int, x: int) -> (j: int)
    requires
        g.len() == CELLS,
        visited.len() == CELLS,
        0 <= x < CELLS,
        g[x] != u32::MAX,
        !visited[x],
        open_exact(g, visited, open, goal),
    ensures
        0 <= j < open.len(),
        open[j].2 == x,
        open[j].0 == g[x] + manhattan(x, goal),
{
    reveal(open_exact);
    let j = choose|j: int| 0 <= j < open.len() && (#[trigger] open[j]).2 == x;
    j
}

/// On a route from the start to a cell not yet expanded, the first cell not
/// yet expanded lies at some position `k` and has cost at most `k`.
proof fn frontier_of_route(
    clear: Seq<bool>,
    g: Seq<u32>,
    parent: Seq<usize>,
    visited: Seq<bool>,
    start: int,
    u: int,
    p: Seq<usize>,
    expanded: int,
) -> (k: int)
    requires
        sized(g, parent, visited),
        expanded <= CELLS,
        costs_bounded(g, visited, expanded),
        0 <= start < CELLS,
        0 <= u < CELLS,
        u != start,
        !visited[u],
        g[u] != u32::MAX,
        is_route(clear, p, start, u),
        parents_valid(clear, g, parent, visited, start),
        relaxed(clear, g, visited, -1),
        optimal(clear, g, visited, start),
    ensures
        1 <= k < p.len(),
        0 <= p[k] < CELLS,
        !visited[p[k] as int],
        g[p[k] as int] <= k,
        g[p[k] as int] != u32::MAX,
{
    lemma_start_expanded(clear, g, parent, visited, u, start);
    assert(visited[p[0] as int]);
    let k = first_unexpanded(visited, p, 0);
    assert(k >= 1);
    let v = p[k - 1] as int;
    lemma_route_prefix(clear, p, start, u, k);
    assert(g[v] + 1 <= k) by {
        reveal(optimal);
        assert(visited[v]);
        assert(is_route(clear, p.take(k), start, v));
    }
    assert(route_step(clear, p, k - 1));
    let kk = choose|kk: int|
        0 <= kk < 6 && neighbor(v, kk) == Some(p[k] as int) && #[trigger] move_clear(clear, v, kk);
    assert(g[p[k] as int] <= g[v] + 1) by {
        reveal(relaxed);
        assert(move_clear(clear, v, kk));
    }
    assert(g[v] <= expanded) by {
        reveal(costs_bounded);
    }
    assert(p[k] < CELLS);
    k
}

/// A route from the start to the cell of the least open entry is no shorter
/// than that cell's cost. The heuristic is consistent, so the first cell of
/// the route not yet expanded has an open entry whose f is at most the
/// route's length plus the popped cell's heuristic.
proof fn lemma_route_not_shorter(
    clear: Seq<bool>,
    g: Seq<u32>,
    parent: Seq<usize>,
    visited: Seq<bool>,
    open: Seq<(u32, u32, usize)>,
    i: int,
    start: int,
    goal: int,
    p: Seq<usize>,
    expanded: int,
)
    requires
        sized(g, parent, visited),
        expanded <= CELLS,
        costs_bounded(g, visited, expanded),
        0 <= start < CELLS,
        0 <= goal < CELLS,
        0 <= i < open.len(),
        open[i].2 != start,
        is_route(clear, p, start, open[i].2 as int),
        forall|j: int| 0 <= j < open.len() ==> !entry_lt(#[trigger] open[j], open[i]),
        parents_valid(clear, g, parent, visited, start),
        open_exact(g, visited, open, goal),
        relaxed(clear, g, visited, -1),
        optimal(clear, g, visited, start),
    ensures
        g[open[i].2 as int] + 1 <= p.len(),
{
    let u = open[i].2 as int;
    lemma_open_entry(g, visited, open, goal, i);
    let k = frontier_of_route(clear, g, parent, visited, start, u, p, expanded);
    let x = p[k] as int;
    let j = open_position(g, visited, open, goal, x);
    assert(!entry_lt(open[j], open[i]));
    lemma_route_heuristic(clear, p, start, u, k, goal);
}

/// The open entry of least (f, g, cell) has an optimal cost: expanding its
/// cell keeps every expanded cost optimal.
proof fn lemma_pop_optimal(
    clear: Seq<bool>,
    g: Seq<u32>,
    parent: Seq<usize>,
    visited: Seq<bool>,
    open: Seq<(u32, u32, usize)>,
    i: int,
    start: int,
    goal: int,
    expanded: int,
)
    requires
        sized(g, parent, visited),
        expanded <= CELLS,
        costs_bounded(g, visited, expanded),
        0 <= start < CELLS,
        0 <= goal < CELLS,
        g[start] == 0,
        0 <= i < open.len(),
        forall|j: int| 0 <= j < open.len() ==> !entry_lt(#[trigger] open[j], open[i]),
        parents_valid(clear, g, parent, visited, start),
        open_exact(g, visited, open, goal),
        relaxed(clear, g, visited, -1),
        optimal(clear, g, visited, start),
    ensures
        optimal(clear, g, visited.update(open[i].2 as int, true), start),
{
    let u = open[i].2 as int;
    lemma_open_entry(g, visited, open, goal, i);
    let v2 = visited.update(u, true);
    assert forall|w: int, p: Seq<usize>|
        0 <= w < CELLS && v2[w] && #[trigger] is_route(clear, p, start, w) implies g[w] + 1 <= p.len() by {
        if w != u {
            reveal(optimal);
            assert(visited[w]);
        } else if u != start {
            lemma_route_not_shorter(clear, g, parent, visited, open, i, start, goal, p, expanded);
        }
    }
    reveal(optimal);
}

/// With an empty open list and closure everywhere, no route reaches an
/// unexpanded goal.
proof fn lemma_exhausted_means_unreachable(
    clear: Seq<bool>,
    g: Seq<u32>,
    visited: Seq<bool>,
    open: Seq<(u32, u32, usize)>,
    start: int,
    goal: int,
)
    requires
        visited.len() == CELLS,
        g.len() == CELLS,
        0 <= start < CELLS,
        g[start] == 0,
        !visited[goal],
        open.len() == 0,
        open_exact(g, visited, open, goal),
        expansion_closed(clear, g, visited, -1),
    ensures
        !reachable(clear, start, goal),
        reachable_cells(clear, start).subset_of(true_positions(visited)),
{
    reveal(open_exact);
    reveal(expansion_closed);
    assert forall|n: int| 0 <= n < CELLS && #[trigger] g[n] != u32::MAX implies visited[n] by {
        if !visited[n] {
            let j = choose|j: int| 0 <= j < open.len() && (#[trigger] open[j]).2 == n;
        }
    }
    assert(visited[start]);
    assert forall|v: int, k: int|
        0 <= v < CELLS && 0 <= k < 6 && visited[v] && #[trigger] move_clear(clear, v, k) && neighbor(v, k) is Some
            implies visited[neighbor(v, k)->0] by {
        assert(g[neighbor(v, k)->0] != u32::MAX);
        assert(0 <= neighbor(v, k)->0 < CELLS);
    }
    assert forall|c: int| #[trigger] reachable_cells(clear, start).contains(c) implies true_positions(
        visited,
    ).contains(c) by {
        let p = choose|p: Seq<usize>| is_route(clear, p, start, c);
        lemma_routes_stay_expanded(clear, visited, p, start, c, p.len() - 1);
    }
    if reachable(clear, start, goal) {
        let p = choose|p: Seq<usize>| is_route(clear, p, start, goal);
        lemma_routes_stay_expanded(clear, visited, p, start, goal, p.len() - 1);
    }
}

/// The route to `goal` recorded by the parent links, as a fresh vector.
fn reconstruct(
    parent: &Vec<usize>,
    g: &Vec<u32>,
    visited: &Vec<bool>,
    clear: &[bool],
    start: usize,
    goal: usize,
) -> (cells: Vec<usize>)
    requires
        sized(g@, parent@, visited@),
        start < CELLS,
        goal < CELLS,
        g@[goal as int] != u32::MAX,
        g@[start as int] == 0,
        parents_valid(clear@, g@, parent@, visited@, start as int),
    ensures
        is_route(clear@, cells@, start as int, goal as int),
        cells@.len() == g@[goal as int] + 1,
{
    reveal(parents_valid);
    let mut rev: Vec<usize> = Vec::new();
    rev.push(goal);
    let mut at: usize = goal;
    while at != start
        invariant
            sized(g@, parent@, visited@),
            start < CELLS,
            parents_valid(clear@, g@, parent@, visited@, start as int),
            at < CELLS,
            g@[at as int] != u32::MAX,
            rev@.len() >= 1,
            rev@[0] == goal,
            rev@.last() == at,
            forall|i: int| 0 <= i < rev@.len() ==> #[trigger] rev@[i] < CELLS,
            forall|i: int| 0 <= i < rev@.len() - 1 ==> #[trigger] back_step(clear@, rev@, i),
            rev@.len() + g@[at as int] == g@[goal as int] + 1,
            g@[start as int] == 0,
        decreases g@[at as int],
    {
        proof {
            reveal(parents_valid);
        }
        assert(g@[at as int] != u32::MAX);
        let next = parent[at];
        let ghost before = rev@;
        rev.push(next);
        assert forall|i: int| 0 <= i < rev@.len() - 1 implies #[trigger] back_step(clear@, rev@, i) by {
            if i < before.len() - 1 {
                assert(rev@[i + 1] == before[i + 1] && rev@[i] == before[i]);
                assert(back_step(clear@, before, i));
            }
        }
        at = next;
    }
    let mut cells: Vec<usize> = Vec::new();
    let n = rev.len();
    let mut j: usize = n;
    while j > 0
        invariant
            n == rev@.len(),
            n >= 1,
            j <= n,
            cells@.len() == n - j,
            forall|m: int| 0 <= m < cells@.len() ==> #[trigger] cells@[m] == rev@[n - 1 - m],
        decreases j,
    {
        cells.push(rev[j - 1]);
        j = j - 1;
    }
    assert forall|m: int| 0 <= m < cells@.len() - 1 implies #[trigger] route_step(clear@, cells@, m) by {
        let r = n - 2 - m;
        assert(cells@[m] == rev@[r + 1]);
        assert(cells@[m + 1] == rev@[r]);
        assert(back_step(clear@, rev@, r));
    }
    assert forall|m: int| 0 <= m < cells@.len() implies #[trigger] cells@[m] < CELLS by {
        assert(cells@[m] == rev@[n - 1 - m]);
    }
    cells
}

/// Six-connected A* from `start` to `goal` over the moves `clear` marks as
/// clear (`clear[6 c + k]` for move `k` from cell `c`), expanding the open
/// cell of least (cost + Manhattan distance, cost, cell index) first and at
/// most `min(budget, CELLS)` cells. A returned route is made of clear unit
/// moves and is shortest; `NoRoute` means no such route exists, and comes
/// only after every cell reachable from the start was expanded within the
/// budget; `Budget` means the budget ran out first, which takes a budget
/// smaller than the number of cells reachable from the start.
#[verifier::rlimit(60)]
pub fn grid_search(start: usize, goal: usize, budget: usize, clear: &[bool]) -> (r: Result<
    GridRoute,
    PlanError,
>)
    requires
        start < CELLS,
        goal < CELLS,
        clear@.len() == 6 * CELLS,
    ensures
        r matches Ok(route) ==> {
            &&& is_route(clear@, route.cells@, start as int, goal as int)
            &&& 1 <= route.expanded <= budget
            &&& route.expanded <= CELLS
            &&& forall|q: Seq<usize>|
                #[trigger] is_route(clear@, q, start as int, goal as int) ==> route.cells@.len()
                    <= q.len()
        },
        r matches Err(e) ==> (e == PlanError::NoRoute && !reachable(clear@, start as int, goal as int)
            && reachable_cells(clear@, start as int).len() <= budget && reachable_cells(
            clear@,
            start as int,
        ).len() <= CELLS)
            || (e == PlanError::Budget && budget < CELLS && budget < reachable_cells(
            clear@,
            start as int,
        ).len()),
{
    let mut g: Vec<u32> = Vec::new();
    let mut parent: Vec<usize> = Vec::new();
    let mut visited: Vec<bool> = Vec::new();
    let mut c: usize = 0;
    while c < CELLS
        invariant
            c <= CELLS,
            g@.len() == c,
            parent@.len() == c,
            visited@.len() == c,
            forall|n: int| 0 <= n < c ==> #[trigger] g@[n] == u32::MAX,
            forall|n: int| 0 <= n < c ==> !#[trigger] visited@[n],
        decreases CELLS - c,
    {
        g.push(u32::MAX);
        parent.push(usize::MAX);
        visited.push(false);
        c = c + 1;
    }
    g.set(start, 0);
    let mut open: Vec<(u32, u32, usize)> = Vec::new();
    open.push((heuristic(start, goal), 0, start));
    let limit: usize = if budget < CELLS { budget } else { CELLS };
    let mut expanded: usize = 0;
    proof {
        reveal(costs_bounded);
        reveal(parents_valid);
        reveal(open_exact);
        reveal(expansion_closed);
        reveal(relaxed);
        reveal(optimal);
        assert(open@[0].2 == start);
        assert(visited@ =~= Seq::new(CELLS as nat, |n: int| false));
        assert forall|m: int| 0 <= m < CELLS && #[trigger] g@[m] != u32::MAX implies m == start by {}
        lemma_count_true_zero(visited@);
    }
    while open.len() > 0
        invariant
            sized(g@, parent@, visited@),
            clear@.len() == 6 * CELLS,
            start < CELLS,
            goal < CELLS,
            limit <= budget,
            limit <= CELLS,
            budget < CELLS ==> limit == budget,
            budget >= CELLS ==> limit == CELLS,
            g@[start as int] == 0,
            expanded <= CELLS,
            expanded <= limit,
            expanded == count_true(visited@),
            !visited@[goal as int],
            costs_bounded(g@, visited@, expanded as int),
            parents_valid(clear@, g@, parent@, visited@, start as int),
            open_exact(g@, visited@, open@, goal as int),
            expansion_closed(clear@, g@, visited@, -1),
            relaxed(clear@, g@, visited@, -1),
            optimal(clear@, g@, visited@, start as int),
        decreases CELLS - expanded,
    {
        let i = min_entry(&open);
        proof {
            lemma_expand_open(g@, visited@, open@, i as int, goal as int);
            let cell = open@[i as int].2 as int;
            lemma_expand_costs(g@, visited@, cell, expanded as int);
            lemma_expand_parents(clear@, g@, parent@, visited@, cell, start as int);
            lemma_expand_closed(clear@, g@, visited@, cell);
            lemma_expand_relaxed(clear@, g@, visited@, cell);
            lemma_pop_optimal(
                clear@,
                g@,
                parent@,
                visited@,
                open@,
                i as int,
                start as int,
                goal as int,
                expanded as int,
            );
            lemma_count_true_bound(visited@, cell);
            lemma_count_true_set(visited@, cell);
        }
        let entry = open.remove(i);
        let id = entry.2;
        if expanded >= limit {
            proof {
                reveal(open_exact);
                lemma_expanded_below_reachable(
                    clear@,
                    g@,
                    parent@,
                    visited@,
                    start as int,
                    expanded as int,
                    id as int,
                );
            }
            return Err(PlanError::Budget);
        }
        visited.set(id, true);
        expanded = expanded + 1;
        if id == goal {
            let cells = reconstruct(&parent, &g, &visited, clear, start, goal);
            proof {
                lemma_shortest(clear@, g@, visited@, start as int, goal as int);
            }
            return Ok(GridRoute { cells, expanded });
        }
        relax_neighbors(&mut g, &mut parent, &mut open, &visited, clear, id, goal, start, expanded);
    }
    proof {
        lemma_exhausted_means_unreachable(clear@, g@, visited@, open@, start as int, goal as int);
        lemma_true_positions_len(visited@);
        vstd::set_lib::lemma_len_subset(reachable_cells(clear@, start as int), true_positions(visited@));
    }
    Err(PlanError::NoRoute)
}

/// The cells that some route of clear unit moves joins to `start`.
pub open spec fn reachable_cells(clear: Seq<bool>, start: int) -> Set<int> {
    Set::new(|c: int| 0 <= c < CELLS && reachable(clear, start, c))
}

/// The positions of `s` that hold `true`.
pub open spec fn true_positions(s: Seq<bool>) -> Set<int> {
    Set::new(|c: int| 0 <= c < s.len() && s[c])
}

proof fn lemma_true_positions_len(s: Seq<bool>)
    ensures
        true_positions(s).finite(),
        true_positions(s).len() == count_true(s),
    decreases s.len(),
{
    broadcast use vstd::set::group_set_axioms;

    if s.len() == 0 {
        assert(true_positions(s) =~= Set::<int>::empty());
    } else {
        let t = s.drop_last();
        lemma_true_positions_len(t);
        if s.last() {
            assert(true_positions(s) =~= true_positions(t).insert(s.len() - 1));
        } else {
            assert(true_positions(s) =~= true_positions(t));
        }
    }
}

/// Every discovered cell is reachable from the start, along its parents.
proof fn lemma_discovered_reachable(
    clear: Seq<bool>,
    g: Seq<u32>,
    parent: Seq<usize>,
    visited: Seq<bool>,
    start: int,
    n: int,
)
    requires
        sized(g, parent, visited),
        0 <= start < CELLS,
        0 <= n < CELLS,
        g[start] == 0,
        g[n] != u32::MAX,
        parents_valid(clear, g, parent, visited, start),
    ensures
        reachable(clear, start, n),
    decreases g[n],
{
    reveal(parents_valid);
    if n == start {
        let r = seq![start as usize];
        assert(is_route(clear, r, start, n));
    } else {
        let p = parent[n] as int;
        lemma_discovered_reachable(clear, g, parent, visited, start, p);
        let q = choose|q: Seq<usize>| is_route(clear, q, start, p);
        let r = q.push(n as usize);
        assert forall|i: int| 0 <= i < r.len() implies #[trigger] r[i] < CELLS by {
            if i < q.len() {
                assert(r[i] == q[i]);
            }
        }
        assert forall|i: int| 0 <= i < r.len() - 1 implies #[trigger] route_step(clear, r, i) by {
            if i < q.len() - 1 {
                assert(route_step(clear, q, i));
                assert(r[i] == q[i] && r[i + 1] == q[i + 1]);
            } else {
                assert(r[i] == q.last() && r[i + 1] == n);
            }
        }
        assert(is_route(clear, r, start, n));
    }
}

/// When a cell is about to be expanded, every expanded cell and that cell
/// itself are reachable, so more cells are reachable than were expanded.
proof fn lemma_expanded_below_reachable(
    clear: Seq<bool>,
    g: Seq<u32>,
    parent: Seq<usize>,
    visited: Seq<bool>,
    start: int,
    expanded: int,
    next: int,
)
    requires
        sized(g, parent, visited),
        0 <= start < CELLS,
        0 <= next < CELLS,
        g[start] == 0,
        g[next] != u32::MAX,
        !visited[next],
        costs_bounded(g, visited, expanded),
        parents_valid(clear, g, parent, visited, start),
    ensures
        count_true(visited) < reachable_cells(clear, start).len(),
{
    broadcast use vstd::set::group_set_axioms;

    reveal(costs_bounded);
    lemma_true_positions_len(visited);
    let v = true_positions(visited);
    let reach = reachable_cells(clear, start);
    vstd::set_lib::lemma_int_range(0, CELLS as int);
    assert(reach.subset_of(vstd::set_lib::set_int_range(0, CELLS as int)));
    vstd::set_lib::lemma_len_subset(reach, vstd::set_lib::set_int_range(0, CELLS as int));
    assert forall|c: int| #[trigger] v.insert(next).contains(c) implies reach.contains(c) by {
        if c == next {
            lemma_discovered_reachable(clear, g, parent, visited, start, next);
        } else {
            lemma_discovered_reachable(clear, g, parent, visited, start, c);
        }
    }
    vstd::set_lib::lemma_len_subset(v.insert(next), reach);
    assert(!v.contains(next));
}

/// An expanded goal's cost bounds every route to it.
proof fn lemma_shortest(clear: Seq<bool>, g: Seq<u32>, visited: Seq<bool>, start: int, goal: int)
    requires
        0 <= goal < CELLS,
        visited[goal],
        optimal(clear, g, visited, start),
    ensures
        forall|q: Seq<usize>| #[trigger] is_route(clear, q, start, goal) ==> g[goal] + 1 <= q.len(),
{
    reveal(optimal);
}

proof fn lemma_count_true_zero(s: Seq<bool>)
    requires
        forall|i: int| 0 <= i < s.len() ==> !s[i],
    ensures
        count_true(s) == 0,
    decreases s.len(),
{
    if s.len() > 0 {
        lemma_count_true_zero(s.drop_last());
    }
}

/// A cell's coordinates are in range and recompose its index.
proof fn lemma_cell_coords(id: int)
    requires
        0 <= id < 9216,
    ensures
        0 <= cell_x(id) < 32,
        0 <= cell_y(id) < 24,
        0 <= cell_z(id) < 12,
        id == cell_x(id) + 32 * cell_y(id) + 768 * cell_z(id),
{
    assert(id == id % 32 + 32 * (id / 32)) by (nonlinear_arith);
    assert(id / 32 == (id / 32) % 24 + 24 * ((id / 32) / 24)) by (nonlinear_arith);
    assert((id / 32) / 24 == id / 768) by (nonlinear_arith);
    assert(0 <= id / 768 < 12) by (nonlinear_arith)
        requires
            0 <= id < 9216,
    ;
}

/// Coordinates in range determine the cell's coordinates.
proof fn lemma_coords_unique(id: int, x: int, y: int, z: int)
    requires
        0 <= x < 32,
        0 <= y < 24,
        0 <= z < 12,
        id == x + 32 * y + 768 * z,
    ensures
        cell_x(id) == x,
        cell_y(id) == y,
        cell_z(id) == z,
{
    assert((x + 32 * y + 768 * z) % 32 == x && (x + 32 * y + 768 * z) / 32 == y + 24 * z) by (nonlinear_arith)
        requires
            0 <= x < 32,
            0 <= y < 24,
            0 <= z < 12,
    ;
    assert((y + 24 * z) % 24 == y) by (nonlinear_arith)
        requires
            0 <= y < 24,
            0 <= z < 12,
    ;
    assert((x + 32 * y + 768 * z) / 768 == z) by (nonlinear_arith)
        requires
            0 <= x < 32,
            0 <= y < 24,
            0 <= z < 12,
    ;
}

/// A unit move changes the Manhattan distance to any cell by at most one.
proof fn lemma_move_heuristic(a: int, k: int, goal: int)
    requires
        0 <= a < 9216,
        0 <= goal < 9216,
        neighbor(a, k) is Some,
    ensures
        0 <= neighbor(a, k)->0 < 9216,
        manhattan(a, goal) <= manhattan(neighbor(a, k)->0, goal) + 1,
        manhattan(neighbor(a, k)->0, goal) <= manhattan(a, goal) + 1,
{
    reveal(manhattan);
    let b = neighbor(a, k)->0;
    lemma_cell_coords(a);
    let (x, y, z) = (cell_x(a), cell_y(a), cell_z(a));
    if k == 0 {
        lemma_coords_unique(b, x - 1, y, z);
    } else if k == 1 {
        lemma_coords_unique(b, x + 1, y, z);
    } else if k == 2 {
        lemma_coords_unique(b, x, y - 1, z);
    } else if k == 3 {
        lemma_coords_unique(b, x, y + 1, z);
    } else if k == 4 {
        lemma_coords_unique(b, x, y, z - 1);
    } else {
        lemma_coords_unique(b, x, y, z + 1);
    }
}

} // verus!
