//! A* search over the grid of an area: which cells a route inside one area passes through.
//!
//! The cost of each step and the estimate of the remaining cost are given as integers, one
//! step cost per neighbour in the order `get_neighbors` lists them.
use vstd::prelude::*;
use std::collections::BTreeMap;
use crate::pathfinding::grid::{
    get_neighbors, grid_neighbors, is_predecessor_chain, neighbors_upto, reaches_start,
    reconstruct_path,
};

verus! {

/// Whether `path` walks the grid from `start` to `goal`, each cell a bounded neighbour of the
/// one before.
pub open spec fn is_grid_walk(
    cols: int,
    rows: int,
    bounded: Seq<bool>,
    path: Seq<usize>,
    start: usize,
    goal: usize,
) -> bool {
    &&& path.len() >= 1
    &&& path[0] == start
    &&& path.last() == goal
    &&& forall|i: int|
        0 <= i < path.len() - 1 ==> grid_neighbors(#[trigger] path[i] as int, cols, rows, bounded).contains(
            path[i + 1],
        )
}

/// Whether the grid is one `get_neighbors` can walk: `bounded` has one entry per cell of a
/// `cols` by `rows` grid with at least one column, within the sizes it handles.
pub open spec fn walkable_grid(cols: usize, rows: usize, bounded: Seq<bool>) -> bool {
    &&& cols > 0
    &&& cols <= i32::MAX
    &&& rows <= i32::MAX
    &&& cols * rows <= usize::MAX
    &&& bounded.len() == cols * rows
}

/// Whether `path` walks the grid from `start` to `goal` taking, from each cell, the neighbour
/// at position `steps[i]` of its neighbour list.
pub open spec fn is_step_walk(
    cols: int,
    rows: int,
    bounded: Seq<bool>,
    path: Seq<usize>,
    steps: Seq<int>,
    start: usize,
    goal: usize,
) -> bool {
    &&& path.len() >= 1
    &&& steps.len() + 1 == path.len()
    &&& path[0] == start
    &&& path.last() == goal
    &&& forall|i: int|
        0 <= i < steps.len() ==> 0 <= #[trigger] steps[i] < grid_neighbors(
            path[i] as int,
            cols,
            rows,
            bounded,
        ).len() && grid_neighbors(path[i] as int, cols, rows, bounded)[steps[i]] == path[i + 1]
}

/// The cost of the first `k` steps of a walk.
pub open spec fn walk_cost(step_cost: Seq<Vec<u64>>, path: Seq<usize>, steps: Seq<int>, k: int) -> int
    decreases k,
{
    if k <= 0 {
        0
    } else {
        walk_cost(step_cost, path, steps, k - 1) + step_cost[path[k - 1] as int]@[steps[k - 1]] as int
    }
}

/// The sum of the entries.
pub open spec fn total(s: Seq<u64>) -> nat
    decreases s.len(),
{
    if s.len() == 0 {
        0
    } else {
        total(s.drop_last()) + s.last() as nat
    }
}

/// The score of a cell: its cost so far plus its estimate, held at `u64::MAX` when the sum
/// does not fit.
pub open spec fn score(cost: u64, estimate: u64) -> int {
    if cost + estimate > u64::MAX {
        u64::MAX as int
    } else {
        cost + estimate
    }
}

/// Whether the estimate is zero at the goal and never exceeds the cost of a step plus the
/// estimate at the cell the step leads to.
pub open spec fn consistent_heuristic(
    cols: int,
    rows: int,
    bounded: Seq<bool>,
    step_cost: Seq<Vec<u64>>,
    heuristic: Seq<u64>,
    goal: usize,
) -> bool {
    &&& heuristic[goal as int] == 0
    &&& forall|v: int, t: int|
        #![trigger step_cost[v]@[t]]
        0 <= v < bounded.len() && 0 <= t < grid_neighbors(v, cols, rows, bounded).len()
            ==> heuristic[v] <= step_cost[v]@[t] + heuristic[grid_neighbors(
            v,
            cols,
            rows,
            bounded,
        )[t] as int]
}

/// Whether the walk `path`, taking neighbour positions `steps`, leads from `start` to `goal`
/// and costs no more than any other such walk.
pub open spec fn is_cheapest_walk(
    cols: int,
    rows: int,
    bounded: Seq<bool>,
    step_cost: Seq<Vec<u64>>,
    path: Seq<usize>,
    steps: Seq<int>,
    start: usize,
    goal: usize,
) -> bool {
    &&& is_step_walk(cols, rows, bounded, path, steps, start, goal)
    &&& forall|other: Seq<usize>, other_steps: Seq<int>|
        #[trigger] is_step_walk(cols, rows, bounded, other, other_steps, start, goal) ==> walk_cost(
            step_cost,
            path,
            steps,
            steps.len() as int,
        ) <= walk_cost(step_cost, other, other_steps, other_steps.len() as int)
}

/// Whether `path` walks the grid from `start` to `goal` by some choice of neighbour positions
/// that, when the estimate is consistent, makes it a cheapest such walk.
#[verifier::opaque]
pub open spec fn is_found_walk(
    cols: int,
    rows: int,
    bounded: Seq<bool>,
    step_cost: Seq<Vec<u64>>,
    heuristic: Seq<u64>,
    path: Seq<usize>,
    start: usize,
    goal: usize,
) -> bool {
    exists|steps: Seq<int>|
        #[trigger] is_step_walk(cols, rows, bounded, path, steps, start, goal) && (consistent_heuristic(
            cols,
            rows,
            bounded,
            step_cost,
            heuristic,
            goal,
        ) ==> is_cheapest_walk(cols, rows, bounded, step_cost, path, steps, start, goal))
}

proof fn lemma_total_update(s: Seq<u64>, i: int, x: u64)
    requires
        0 <= i < s.len(),
    ensures
        total(s.update(i, x)) + s[i] == total(s) + x,
    decreases s.len(),
{
    let t = s.update(i, x);
    if i == s.len() - 1 {
        assert(t.drop_last() =~= s.drop_last());
    } else {
        assert(t.drop_last() =~= s.drop_last().update(i, x));
        lemma_total_update(s.drop_last(), i, x);
    }
}

proof fn lemma_neighbors_in_grid(index: int, cols: int, rows: int, bounded: Seq<bool>, k: int)
    requires
        bounded.len() <= usize::MAX,
    ensures
        forall|t: int|
            0 <= t < neighbors_upto(index, cols, rows, bounded, k).len() ==> (#[trigger] neighbors_upto(
                index,
                cols,
                rows,
                bounded,
                k,
            )[t]) < bounded.len(),
    decreases k,
{
    if k > 0 {
        lemma_neighbors_in_grid(index, cols, rows, bounded, k - 1);
        let prev = neighbors_upto(index, cols, rows, bounded, k - 1);
        assert forall|t: int|
            0 <= t < neighbors_upto(index, cols, rows, bounded, k).len() implies (#[trigger] neighbors_upto(
                index,
                cols,
                rows,
                bounded,
                k,
            )[t]) < bounded.len() by {
            if t < prev.len() {
                assert(neighbors_upto(index, cols, rows, bounded, k)[t] == prev[t]);
            }
        }
    }
}

proof fn lemma_neighbors_len(index: int, cols: int, rows: int, bounded: Seq<bool>, k: int)
    requires
        k >= 0,
    ensures
        neighbors_upto(index, cols, rows, bounded, k).len() <= k,
    decreases k,
{
    if k > 0 {
        lemma_neighbors_len(index, cols, rows, bounded, k - 1);
    }
}

proof fn lemma_walk_cost_monotone(step_cost: Seq<Vec<u64>>, path: Seq<usize>, steps: Seq<int>, i: int, j: int)
    requires
        0 <= i <= j,
    ensures
        walk_cost(step_cost, path, steps, i) <= walk_cost(step_cost, path, steps, j),
    decreases j - i,
{
    if i < j {
        lemma_walk_cost_monotone(step_cost, path, steps, i, j - 1);
    }
}

struct OpenEntry {
    index: usize,
    f_score: u64,
}

/// Whether the predecessor `p` of a cell `x` comes before it: a strictly lower cost so far, or
/// an equal cost reached earlier.
spec fn precedes(g: Seq<u64>, order: Seq<nat>, p: usize, x: usize) -> bool {
    g[p as int] < g[x as int] || (g[p as int] == g[x as int] && order[p as int] < order[x as int])
}

/// Whether every neighbour of `v` costs no more than reaching it through `v`, wherever that
/// sum fits in 64 bits.
spec fn settled_upto(
    cols: usize,
    rows: usize,
    bounded: Seq<bool>,
    step_cost: Seq<Vec<u64>>,
    g: Seq<u64>,
    v: int,
    k: int,
) -> bool {
    forall|t: int|
        0 <= t < k && t < grid_neighbors(v, cols as int, rows as int, bounded).len() && g[v]
            + step_cost[v]@[t] <= u64::MAX ==> g[grid_neighbors(
            v,
            cols as int,
            rows as int,
            bounded,
        )[t] as int] <= g[v] + #[trigger] step_cost[v]@[t]
}

spec fn settled(
    cols: usize,
    rows: usize,
    bounded: Seq<bool>,
    step_cost: Seq<Vec<u64>>,
    g: Seq<u64>,
    v: int,
) -> bool {
    settled_upto(cols, rows, bounded, step_cost, g, v, 8)
}

/// Every reached cell is settled or has an open entry carrying its current score, and the
/// goal, once reached, is open.
spec fn progress_inv(
    cols: usize,
    rows: usize,
    bounded: Seq<bool>,
    step_cost: Seq<Vec<u64>>,
    heuristic: Seq<u64>,
    goal: usize,
    g: Seq<u64>,
    open: Seq<OpenEntry>,
    except: int,
) -> bool {
    &&& forall|v: int|
        0 <= v < bounded.len() && v != except && #[trigger] g[v] < u64::MAX ==> (exists|i: int|
            0 <= i < open.len() && (#[trigger] open[i]).index == v && open[i].f_score == score(
                g[v],
                heuristic[v],
            )) || settled(cols, rows, bounded, step_cost, g, v)
    &&& g[goal as int] < u64::MAX ==> exists|i: int| 0 <= i < open.len() && (#[trigger] open[i]).index == goal
}

/// Every predecessor records the neighbour position its cell was reached by, and reaching the
/// cell through it costs no more than the cell's cost so far; no open entry scores below its
/// cell's current score.
spec fn step_inv(
    cols: usize,
    rows: usize,
    bounded: Seq<bool>,
    step_cost: Seq<Vec<u64>>,
    heuristic: Seq<u64>,
    g: Seq<u64>,
    cf: Map<usize, usize>,
    slot: Map<usize, int>,
    open: Seq<OpenEntry>,
) -> bool {
    &&& forall|x: usize| #[trigger]
        cf.contains_key(x) ==> slot.contains_key(x) && 0 <= slot[x] < grid_neighbors(
            cf[x] as int,
            cols as int,
            rows as int,
            bounded,
        ).len() && grid_neighbors(cf[x] as int, cols as int, rows as int, bounded)[slot[x]] == x
            && g[cf[x] as int] + step_cost[cf[x] as int]@[slot[x]] <= g[x as int]
    &&& forall|i: int|
        0 <= i < open.len() ==> (#[trigger] open[i]).f_score >= score(
            g[open[i].index as int],
            heuristic[open[i].index as int],
        )
}

/// The invariant of the search: costs so far (`u64::MAX` for unreached cells), predecessors,
/// the open list, and the time each cell last got a predecessor.
spec fn astar_inv(
    cols: usize,
    rows: usize,
    bounded: Seq<bool>,
    start: usize,
    g: Seq<u64>,
    cf: Map<usize, usize>,
    open: Seq<OpenEntry>,
    order: Seq<nat>,
    clock: nat,
) -> bool {
    let n = bounded.len();
    &&& g.len() == n
    &&& order.len() == n
    &&& start < n
    &&& g[start as int] == 0
    &&& forall|i: int| 0 <= i < open.len() ==> (#[trigger] open[i]).index < n && g[open[i].index as int] < u64::MAX
    &&& forall|x: int| 0 <= x < n && #[trigger] g[x] < u64::MAX ==> x == start || cf.contains_key(x as usize)
    &&& forall|x: usize| #[trigger]
        cf.contains_key(x) ==> x < n && cf[x] < n && x != start && g[x as int] < u64::MAX
            && grid_neighbors(cf[x] as int, cols as int, rows as int, bounded).contains(x)
            && precedes(g, order, cf[x], x)
    &&& forall|x: int| 0 <= x < n ==> #[trigger] order[x] < clock
}

proof fn lemma_reaches(
    cols: usize,
    rows: usize,
    bounded: Seq<bool>,
    start: usize,
    g: Seq<u64>,
    cf: Map<usize, usize>,
    open: Seq<OpenEntry>,
    order: Seq<nat>,
    clock: nat,
    x: usize,
)
    requires
        astar_inv(cols, rows, bounded, start, g, cf, open, order, clock),
        x < bounded.len(),
    ensures
        exists|k: nat| #[trigger] reaches_start(cf, x, k),
    decreases g[x as int], order[x as int],
{
    if cf.contains_key(x) {
        let p = cf[x];
        lemma_reaches(cols, rows, bounded, start, g, cf, open, order, clock, p);
        let kp = choose|kp: nat| #[trigger] reaches_start(cf, p, kp);
        assert(reaches_start(cf, x, kp + 1));
    } else {
        assert(reaches_start(cf, x, 0));
    }
}

proof fn lemma_chain_reached(
    cols: usize,
    rows: usize,
    bounded: Seq<bool>,
    start: usize,
    g: Seq<u64>,
    cf: Map<usize, usize>,
    open: Seq<OpenEntry>,
    order: Seq<nat>,
    clock: nat,
    path: Seq<usize>,
    goal: usize,
    i: int,
)
    requires
        astar_inv(cols, rows, bounded, start, g, cf, open, order, clock),
        is_predecessor_chain(cf, path, goal),
        goal < bounded.len(),
        g[goal as int] < u64::MAX,
        0 <= i < path.len(),
    ensures
        path[i] < bounded.len(),
        g[path[i] as int] < u64::MAX,
    decreases path.len() - i,
{
    if i < path.len() - 1 {
        lemma_chain_reached(cols, rows, bounded, start, g, cf, open, order, clock, path, goal, i + 1);
        assert(cf.contains_key(path[i + 1]) && cf[path[i + 1]] == path[i]);
    }
}

proof fn lemma_walk_bound(
    cols: usize,
    rows: usize,
    bounded: Seq<bool>,
    step_cost: Seq<Vec<u64>>,
    g: Seq<u64>,
    path: Seq<usize>,
    steps: Seq<int>,
    start: usize,
    goal: usize,
    i: int,
)
    requires
        bounded.len() <= usize::MAX,
        g.len() == bounded.len(),
        start < bounded.len(),
        g[start as int] == 0,
        is_step_walk(cols as int, rows as int, bounded, path, steps, start, goal),
        walk_cost(step_cost, path, steps, steps.len() as int) < u64::MAX,
        forall|v: int|
            0 <= v < bounded.len() && #[trigger] g[v] < u64::MAX ==> settled(
                cols,
                rows,
                bounded,
                step_cost,
                g,
                v,
            ),
        0 <= i <= steps.len(),
    ensures
        path[i] < bounded.len(),
        g[path[i] as int] <= walk_cost(step_cost, path, steps, i),
    decreases i,
{
    if i > 0 {
        lemma_walk_bound(cols, rows, bounded, step_cost, g, path, steps, start, goal, i - 1);
        lemma_walk_cost_monotone(step_cost, path, steps, i - 1, steps.len() as int);
        let v = path[i - 1] as int;
        let t = steps[i - 1];
        lemma_neighbors_len(v, cols as int, rows as int, bounded, 8);
        lemma_neighbors_in_grid(v, cols as int, rows as int, bounded, 8);
        assert(g[v] < u64::MAX);
        assert(settled(cols, rows, bounded, step_cost, g, v));
        assert(0 <= t < grid_neighbors(v, cols as int, rows as int, bounded).len());
        assert(grid_neighbors(v, cols as int, rows as int, bounded)[t] == path[i]);
        assert(walk_cost(step_cost, path, steps, i) == walk_cost(step_cost, path, steps, i - 1)
            + step_cost[v]@[t] as int);
        lemma_walk_cost_monotone(step_cost, path, steps, i, steps.len() as int);
        assert(g[v] + step_cost[v]@[t] <= u64::MAX);
        assert(g[path[i] as int] <= g[v] + step_cost[v]@[t]);
    }
}

proof fn lemma_walk_in_grid(
    cols: usize,
    rows: usize,
    bounded: Seq<bool>,
    path: Seq<usize>,
    steps: Seq<int>,
    start: usize,
    goal: usize,
    k: int,
)
    requires
        bounded.len() <= usize::MAX,
        start < bounded.len(),
        is_step_walk(cols as int, rows as int, bounded, path, steps, start, goal),
        0 <= k <= steps.len(),
    ensures
        path[k] < bounded.len(),
{
    if k > 0 {
        let v = path[k - 1] as int;
        lemma_neighbors_in_grid(v, cols as int, rows as int, bounded, 8);
        assert(grid_neighbors(v, cols as int, rows as int, bounded)[steps[k - 1]] == path[k]);
    }
}

/// Along any walk to the goal, a consistent estimate at a cell is at most the cost of the
/// rest of the walk.
proof fn lemma_estimate_below_rest(
    cols: usize,
    rows: usize,
    bounded: Seq<bool>,
    step_cost: Seq<Vec<u64>>,
    heuristic: Seq<u64>,
    path: Seq<usize>,
    steps: Seq<int>,
    start: usize,
    goal: usize,
    k: int,
)
    requires
        bounded.len() <= usize::MAX,
        start < bounded.len(),
        consistent_heuristic(cols as int, rows as int, bounded, step_cost, heuristic, goal),
        is_step_walk(cols as int, rows as int, bounded, path, steps, start, goal),
        0 <= k <= steps.len(),
    ensures
        heuristic[path[k] as int] + walk_cost(step_cost, path, steps, k) <= walk_cost(
            step_cost,
            path,
            steps,
            steps.len() as int,
        ),
    decreases steps.len() - k,
{
    if k < steps.len() {
        lemma_estimate_below_rest(cols, rows, bounded, step_cost, heuristic, path, steps, start, goal, k + 1);
        lemma_walk_in_grid(cols, rows, bounded, path, steps, start, goal, k);
        let v = path[k] as int;
        let t = steps[k];
        assert(0 <= t < grid_neighbors(v, cols as int, rows as int, bounded).len());
        assert(heuristic[v] <= step_cost[v]@[t] + heuristic[grid_neighbors(
            v,
            cols as int,
            rows as int,
            bounded,
        )[t] as int]);
    }
}

/// Between a cell of a walk whose cost so far is within the walk's prefix cost and a later one
/// whose is not, there is a step where the first happens right before the second.
proof fn lemma_first_exceed(
    step_cost: Seq<Vec<u64>>,
    g: Seq<u64>,
    path: Seq<usize>,
    steps: Seq<int>,
    k: int,
    m: int,
) -> (j: int)
    requires
        0 <= k < m,
        g[path[k] as int] <= walk_cost(step_cost, path, steps, k),
        g[path[m] as int] > walk_cost(step_cost, path, steps, m),
    ensures
        k < j <= m,
        g[path[j - 1] as int] <= walk_cost(step_cost, path, steps, j - 1),
        g[path[j] as int] > walk_cost(step_cost, path, steps, j),
    decreases m - k,
{
    if g[path[k + 1] as int] > walk_cost(step_cost, path, steps, k + 1) {
        k + 1
    } else {
        lemma_first_exceed(step_cost, g, path, steps, k + 1, m)
    }
}

/// When the goal's cost so far is at most the least score of the open entries, and the
/// estimate is consistent, no walk to the goal costs less than the goal's cost so far.
proof fn lemma_goal_cost_least(
    cols: usize,
    rows: usize,
    bounded: Seq<bool>,
    step_cost: Seq<Vec<u64>>,
    heuristic: Seq<u64>,
    start: usize,
    goal: usize,
    g: Seq<u64>,
    open: Seq<OpenEntry>,
    fmin: u64,
    path: Seq<usize>,
    steps: Seq<int>,
)
    requires
        bounded.len() <= usize::MAX,
        g.len() == bounded.len(),
        heuristic.len() == bounded.len(),
        start < bounded.len(),
        goal < bounded.len(),
        g[start as int] == 0,
        consistent_heuristic(cols as int, rows as int, bounded, step_cost, heuristic, goal),
        progress_inv(cols, rows, bounded, step_cost, heuristic, goal, g, open, -1),
        forall|i: int| 0 <= i < open.len() ==> fmin <= (#[trigger] open[i]).f_score,
        g[goal as int] <= fmin,
        is_step_walk(cols as int, rows as int, bounded, path, steps, start, goal),
    ensures
        g[goal as int] <= walk_cost(step_cost, path, steps, steps.len() as int),
{
    let c = walk_cost(step_cost, path, steps, steps.len() as int);
    if c < g[goal as int] {
        let m = steps.len() as int;
        assert(m > 0);
        let j = lemma_first_exceed(step_cost, g, path, steps, 0, m);
        lemma_walk_cost_monotone(step_cost, path, steps, j - 1, m);
        lemma_walk_cost_monotone(step_cost, path, steps, j, m);
        lemma_walk_in_grid(cols, rows, bounded, path, steps, start, goal, j - 1);
        let w = path[j - 1] as int;
        let t = steps[j - 1];
        assert(g[w] < u64::MAX);
        assert(walk_cost(step_cost, path, steps, j) == walk_cost(step_cost, path, steps, j - 1)
            + step_cost[w]@[t] as int);
        if settled(cols, rows, bounded, step_cost, g, w) {
            lemma_neighbors_len(w, cols as int, rows as int, bounded, 8);
            assert(grid_neighbors(w, cols as int, rows as int, bounded)[t] == path[j]);
            assert(g[w] + step_cost[w]@[t] <= u64::MAX);
            assert(g[path[j] as int] <= g[w] + step_cost[w]@[t]);
        } else {
            let i = choose|i: int|
                0 <= i < open.len() && (#[trigger] open[i]).index == w && open[i].f_score == score(
                    g[w],
                    heuristic[w],
                );
            lemma_estimate_below_rest(cols, rows, bounded, step_cost, heuristic, path, steps, start, goal, j - 1);
            assert(fmin <= open[i].f_score);
        }
    }
}

/// Following recorded positions back along the predecessors gives a walk whose prefix costs
/// stay within the cells' costs so far.
proof fn lemma_chain_cost(
    cols: usize,
    rows: usize,
    bounded: Seq<bool>,
    step_cost: Seq<Vec<u64>>,
    heuristic: Seq<u64>,
    g: Seq<u64>,
    cf: Map<usize, usize>,
    slot: Map<usize, int>,
    open: Seq<OpenEntry>,
    path: Seq<usize>,
    steps: Seq<int>,
    goal: usize,
    k: int,
)
    requires
        step_inv(cols, rows, bounded, step_cost, heuristic, g, cf, slot, open),
        is_predecessor_chain(cf, path, goal),
        g[path[0] as int] == 0,
        steps.len() + 1 == path.len(),
        forall|i: int| 0 <= i < steps.len() ==> #[trigger] steps[i] == slot[path[i + 1]],
        0 <= k < path.len(),
    ensures
        walk_cost(step_cost, path, steps, k) <= g[path[k] as int],
    decreases k,
{
    if k > 0 {
        lemma_chain_cost(cols, rows, bounded, step_cost, heuristic, g, cf, slot, open, path, steps, goal, k - 1);
        let i = k - 1;
        assert(cf.contains_key(path[i + 1]) && cf[path[i + 1]] == path[i]);
        assert(steps[i] == slot[path[i + 1]]);
    }
}

/// The walk back along the predecessors from the goal, at the moment the goal's entry is the
/// least of the open list: a walk from `start`, whose positions the predecessors recorded,
/// and the cheapest one when the estimate is consistent.
proof fn lemma_found_walk(
    cols: usize,
    rows: usize,
    bounded: Seq<bool>,
    step_cost: Seq<Vec<u64>>,
    heuristic: Seq<u64>,
    start: usize,
    goal: usize,
    g: Seq<u64>,
    cf: Map<usize, usize>,
    slot: Map<usize, int>,
    open: Seq<OpenEntry>,
    fmin: u64,
    path: Seq<usize>,
)
    requires
        bounded.len() <= usize::MAX,
        g.len() == bounded.len(),
        heuristic.len() == bounded.len(),
        start < bounded.len(),
        goal < bounded.len(),
        g[start as int] == 0,
        g[goal as int] < u64::MAX,
        forall|x: int| 0 <= x < bounded.len() && #[trigger] g[x] < u64::MAX ==> x == start || cf.contains_key(x as usize),
        forall|i: int| 0 <= i < path.len() ==> #[trigger] g[path[i] as int] < u64::MAX && path[i] < bounded.len(),
        progress_inv(cols, rows, bounded, step_cost, heuristic, goal, g, open, -1),
        step_inv(cols, rows, bounded, step_cost, heuristic, g, cf, slot, open),
        forall|i: int| 0 <= i < open.len() ==> fmin <= (#[trigger] open[i]).f_score,
        fmin >= score(g[goal as int], heuristic[goal as int]),
        is_predecessor_chain(cf, path, goal),
    ensures
        is_grid_walk(cols as int, rows as int, bounded, path, start, goal),
        is_found_walk(cols as int, rows as int, bounded, step_cost, heuristic, path, start, goal),
{
    reveal(is_found_walk);
    assert(g[path[0] as int] < u64::MAX && path[0] < bounded.len());
    assert(path[0] == start);
    assert forall|i: int| 0 <= i < path.len() - 1 implies grid_neighbors(
        #[trigger] path[i] as int,
        cols as int,
        rows as int,
        bounded,
    ).contains(path[i + 1]) by {
        assert(cf.contains_key(path[i + 1]) && cf[path[i + 1]] == path[i]);
        let x = path[i + 1];
        assert(grid_neighbors(cf[x] as int, cols as int, rows as int, bounded)[slot[x]] == x);
    }
    let steps = Seq::new((path.len() - 1) as nat, |i: int| slot[path[i + 1]]);
    assert forall|i: int| 0 <= i < steps.len() implies 0 <= #[trigger] steps[i] < grid_neighbors(
        path[i] as int,
        cols as int,
        rows as int,
        bounded,
    ).len() && grid_neighbors(path[i] as int, cols as int, rows as int, bounded)[steps[i]] == path[i + 1] by {
        assert(cf.contains_key(path[i + 1]) && cf[path[i + 1]] == path[i]);
    }
    assert(is_step_walk(cols as int, rows as int, bounded, path, steps, start, goal));
    lemma_chain_cost(cols, rows, bounded, step_cost, heuristic, g, cf, slot, open, path, steps, goal, path.len() - 1);
    if consistent_heuristic(cols as int, rows as int, bounded, step_cost, heuristic, goal) {
        assert forall|other: Seq<usize>, other_steps: Seq<int>|
            #[trigger] is_step_walk(cols as int, rows as int, bounded, other, other_steps, start, goal)
            implies walk_cost(step_cost, path, steps, steps.len() as int) <= walk_cost(
            step_cost,
            other,
            other_steps,
            other_steps.len() as int,
        ) by {
            lemma_goal_cost_least(cols, rows, bounded, step_cost, heuristic, start, goal, g, open, fmin, other, other_steps);
        }
    }
    assert(is_step_walk(cols as int, rows as int, bounded, path, steps, start, goal)
        && (consistent_heuristic(cols as int, rows as int, bounded, step_cost, heuristic, goal)
        ==> is_cheapest_walk(cols as int, rows as int, bounded, step_cost, path, steps, start, goal)));
}

/// Taking an entry other than the goal's off the open list keeps the invariants, with the
/// taken cell excepted from having an open entry.
proof fn lemma_after_pop(
    cols: usize,
    rows: usize,
    bounded: Seq<bool>,
    step_cost: Seq<Vec<u64>>,
    heuristic: Seq<u64>,
    start: usize,
    goal: usize,
    g: Seq<u64>,
    cf: Map<usize, usize>,
    slot: Map<usize, int>,
    order: Seq<nat>,
    clock: nat,
    before: Seq<OpenEntry>,
    open: Seq<OpenEntry>,
    idx: int,
)
    requires
        0 <= idx < before.len(),
        open == before.remove(idx),
        before[idx].index != goal,
        astar_inv(cols, rows, bounded, start, g, cf, before, order, clock),
        progress_inv(cols, rows, bounded, step_cost, heuristic, goal, g, before, -1),
        step_inv(cols, rows, bounded, step_cost, heuristic, g, cf, slot, before),
    ensures
        astar_inv(cols, rows, bounded, start, g, cf, open, order, clock),
        progress_inv(cols, rows, bounded, step_cost, heuristic, goal, g, open, before[idx].index as int),
        step_inv(cols, rows, bounded, step_cost, heuristic, g, cf, slot, open),
{
    let current = before[idx].index;
    assert forall|i: int| 0 <= i < open.len() implies open[i] == (if i < idx {
        before[i]
    } else {
        before[i + 1]
    }) by {}
    assert forall|v: int| 0 <= v < bounded.len() && v != current && #[trigger] g[v] < u64::MAX implies (exists|i: int|
        0 <= i < open.len() && (#[trigger] open[i]).index == v && open[i].f_score == score(g[v], heuristic[v]))
        || settled(cols, rows, bounded, step_cost, g, v) by {
        if !settled(cols, rows, bounded, step_cost, g, v) {
            let i = choose|i: int|
                0 <= i < before.len() && (#[trigger] before[i]).index == v && before[i].f_score == score(
                    g[v],
                    heuristic[v],
                );
            assert(i != idx);
            if i < idx {
                assert(open[i] == before[i]);
            } else {
                assert(open[i - 1] == before[i]);
            }
        }
    }
    if g[goal as int] < u64::MAX {
        let i = choose|i: int| 0 <= i < before.len() && (#[trigger] before[i]).index == goal;
        assert(i != idx);
        if i < idx {
            assert(open[i] == before[i]);
        } else {
            assert(open[i - 1] == before[i]);
        }
    }
}

/// Removes and returns the first open entry of least score.
fn pop_best(open: &mut Vec<OpenEntry>) -> (r: (OpenEntry, Ghost<int>))
    requires
        old(open)@.len() > 0,
    ensures
        0 <= r.1@ < old(open)@.len(),
        r.0 == old(open)@[r.1@],
        final(open)@ == old(open)@.remove(r.1@),
        forall|i: int| 0 <= i < old(open)@.len() ==> r.0.f_score <= (#[trigger] old(open)@[i]).f_score,
        forall|i: int| 0 <= i < r.1@ ==> r.0.f_score < (#[trigger] old(open)@[i]).f_score,
{
    let mut best: usize = 0;
    let mut i: usize = 1;
    while i < open.len()
        invariant
            open@ == old(open)@,
            open@.len() > 0,
            best < i <= open@.len(),
            forall|k: int| 0 <= k < i ==> open@[best as int].f_score <= (#[trigger] open@[k]).f_score,
            forall|k: int| 0 <= k < best ==> open@[best as int].f_score < (#[trigger] open@[k]).f_score,
        decreases open@.len() - i,
    {
        if open[i].f_score < open[best].f_score {
            best = i;
        }
        i = i + 1;
    }
    let e = open.remove(best);
    (e, Ghost(best as int))
}

/// A* search from cell `start` to cell `goal` of a grid. The open cell of least score (cost
/// so far plus `heuristic`) is taken next, the first such when several tie; reaching `goal`
/// ends the search, otherwise each bounded neighbour whose cost through the taken cell (its
/// `step_cost` entry added) is lower than known gets that cost, the taken cell as
/// predecessor and an open entry. Cells may be taken again when a cheaper way to them turns
/// up. A step whose total cost would exceed `u64::MAX` is not taken. Gives the walk from
/// `start` to `goal` along predecessors, which passes no cell twice, or `None` when the open
/// list runs out. With a
/// consistent heuristic that is zero at the goal, the walk given is a cheapest one.
pub fn find_grid_path(
    cols: usize,
    rows: usize,
    bounded: &[bool],
    start: usize,
    goal: usize,
    step_cost: &Vec<Vec<u64>>,
    heuristic: &Vec<u64>,
) -> (r: Option<Vec<usize>>)
    requires
        walkable_grid(cols, rows, bounded@),
        start < bounded@.len(),
        goal < bounded@.len(),
        step_cost@.len() == bounded@.len(),
        forall|i: int|
            0 <= i < bounded@.len() ==> (#[trigger] step_cost@[i])@.len() == grid_neighbors(
                i,
                cols as int,
                rows as int,
                bounded@,
            ).len(),
        heuristic@.len() == bounded@.len(),
    ensures
        r matches Some(path) ==> is_grid_walk(cols as int, rows as int, bounded@, path@, start, goal)
            && path@.no_duplicates(),
        r matches Some(path) ==> is_found_walk(
            cols as int,
            rows as int,
            bounded@,
            step_cost@,
            heuristic@,
            path@,
            start,
            goal,
        ),
        r is None ==> forall|path: Seq<usize>, steps: Seq<int>|
            is_step_walk(cols as int, rows as int, bounded@, path, steps, start, goal)
                ==> #[trigger] walk_cost(step_cost@, path, steps, steps.len() as int) >= u64::MAX,
{
    let n = bounded.len();
    let mut g: Vec<u64> = Vec::new();
    let ghost mut order: Seq<nat> = Seq::empty();
    let mut m: usize = 0;
    while m < n
        invariant
            n == bounded@.len(),
            m <= n,
            g@.len() == m,
            order.len() == m,
            forall|x: int| 0 <= x < m ==> #[trigger] g@[x] == u64::MAX,
            forall|x: int| 0 <= x < m ==> #[trigger] order[x] == 0,
        decreases n - m,
    {
        g.push(u64::MAX);
        proof {
            order = order.push(0);
        }
        m = m + 1;
    }
    g.set(start, 0);
    let ghost mut clock: nat = 1;
    let ghost mut slot: Map<usize, int> = Map::empty();
    let mut cf: BTreeMap<usize, usize> = BTreeMap::new();
    let mut open: Vec<OpenEntry> = Vec::new();
    open.push(OpenEntry { index: start, f_score: heuristic[start] });
    proof {
        assert(open@[0].index == start);
        assert(open@[0].f_score == score(g@[start as int], heuristic@[start as int]));
        assert forall|x: int| 0 <= x < n && #[trigger] g@[x] < u64::MAX implies x == start || cf@.contains_key(x as usize) by {
            if x != start {
                assert(g@[x] == u64::MAX);
            }
        }
        assert forall|v: int| 0 <= v < n && v != -1 && #[trigger] g@[v] < u64::MAX implies (exists|i: int|
            0 <= i < open@.len() && (#[trigger] open@[i]).index == v && open@[i].f_score == score(
                g@[v],
                heuristic@[v],
            )) || settled(cols, rows, bounded@, step_cost@, g@, v) by {
            if v != start {
                assert(g@[v] == u64::MAX);
            }
        }
        if goal != start {
            assert(g@[goal as int] == u64::MAX);
        }
    }
    while open.len() > 0
        invariant
            walkable_grid(cols, rows, bounded@),
            n == bounded@.len(),
            goal < n,
            step_cost@.len() == n,
            forall|i: int|
                0 <= i < n ==> (#[trigger] step_cost@[i])@.len() == grid_neighbors(
                    i,
                    cols as int,
                    rows as int,
                    bounded@,
                ).len(),
            heuristic@.len() == n,
            astar_inv(cols, rows, bounded@, start, g@, cf@, open@, order, clock),
            progress_inv(cols, rows, bounded@, step_cost@, heuristic@, goal, g@, open@, -1),
            step_inv(cols, rows, bounded@, step_cost@, heuristic@, g@, cf@, slot, open@),
        decreases total(g@), open@.len(),
    {
        let ghost q_before = open@;
        let (entry, Ghost(idx)) = pop_best(&mut open);
        let current = entry.index;
        if current == goal {
            proof {
                lemma_reaches(cols, rows, bounded@, start, g@, cf@, q_before, order, clock, goal);
            }
            let path = reconstruct_path(&cf, goal);
            proof {
                assert forall|i: int| 0 <= i < path@.len() implies #[trigger] g@[path@[i] as int] < u64::MAX
                    && path@[i] < n by {
                    lemma_chain_reached(cols, rows, bounded@, start, g@, cf@, q_before, order, clock, path@, goal, i);
                }
                assert(entry.f_score >= score(g@[goal as int], heuristic@[goal as int]));
                lemma_found_walk(
                    cols,
                    rows,
                    bounded@,
                    step_cost@,
                    heuristic@,
                    start,
                    goal,
                    g@,
                    cf@,
                    slot,
                    q_before,
                    entry.f_score,
                    path@,
                );
            }
            return Some(path);
        }
        proof {
            assert(current / cols < i32::MAX) by (nonlinear_arith)
                requires
                    current < cols * rows,
                    cols > 0,
                    rows <= i32::MAX,
            {
                assert(current / cols < rows as int) by (nonlinear_arith)
                    requires current < cols * rows, cols > 0;
            }
        }
        let nbrs = get_neighbors(current, cols, rows, bounded);
        proof {
            assert(bounded@.len() == bounded.len());
            lemma_neighbors_in_grid(current as int, cols as int, rows as int, bounded@, 8);
        }
        let costs = &step_cost[current];
        let gc = g[current];
        let ghost total0 = total(g@);
        let ghost len0 = open@.len();
        proof {
            lemma_after_pop(
                cols,
                rows,
                bounded@,
                step_cost@,
                heuristic@,
                start,
                goal,
                g@,
                cf@,
                slot,
                order,
                clock,
                q_before,
                open@,
                idx,
            );
        }
        let mut t: usize = 0;
        while t < nbrs.len()
            invariant
                walkable_grid(cols, rows, bounded@),
                n == bounded@.len(),
                current < n,
                current != goal,
                nbrs@ == grid_neighbors(current as int, cols as int, rows as int, bounded@),
                forall|k: int| 0 <= k < nbrs@.len() ==> #[trigger] nbrs@[k] < n,
                costs@.len() == nbrs@.len(),
                t <= nbrs@.len(),
                gc == g@[current as int],
                gc < u64::MAX,
                heuristic@.len() == n,
                astar_inv(cols, rows, bounded@, start, g@, cf@, open@, order, clock),
                open@.len() >= len0,
                total(g@) + (open@.len() - len0) <= total0,
                step_cost@.len() == n,
                costs@ == step_cost@[current as int]@,
                goal < n,
                progress_inv(cols, rows, bounded@, step_cost@, heuristic@, goal, g@, open@, current as int),
                step_inv(cols, rows, bounded@, step_cost@, heuristic@, g@, cf@, slot, open@),
                settled_upto(cols, rows, bounded@, step_cost@, g@, current as int, t as int),
            decreases nbrs@.len() - t,
        {
            let nb = nbrs[t];
            let ghost g_before = g@;
            let ghost open_before = open@;
            let mut relaxed = false;
            match gc.checked_add(costs[t]) {
                Some(tentative) => {
                    if tentative < g[nb] {
                        let ghost cf_before = cf@;
                        let ghost slot_before = slot;
                        let ghost order_before = order;
                        proof {
                            lemma_total_update(g@, nb as int, tentative);
                            assert(nb != current);
                            assert(nb != start);
                        }
                        cf.insert(nb, current);
                        g.set(nb, tentative);
                        open.push(OpenEntry { index: nb, f_score: tentative.saturating_add(heuristic[nb]) });
                        relaxed = true;
                        proof {
                            order = order.update(nb as int, clock);
                            clock = clock + 1;
                            slot = slot.insert(nb, t as int);
                            assert(nbrs@.contains(nb)) by {
                                assert(nbrs@[t as int] == nb);
                            }
                            assert forall|i: int| 0 <= i < open@.len() implies (#[trigger] open@[i]).index < n
                                && g@[open@[i].index as int] < u64::MAX by {
                                if i < open_before.len() {
                                    assert(open@[i] == open_before[i]);
                                }
                            }
                            assert forall|x: int| 0 <= x < n && #[trigger] g@[x] < u64::MAX implies x == start
                                || cf@.contains_key(x as usize) by {
                                if x != nb {
                                    assert(g_before[x] == g@[x]);
                                }
                            }
                            assert forall|x: usize| #[trigger] cf@.contains_key(x) implies x < n && cf@[x] < n
                                && x != start && g@[x as int] < u64::MAX
                                && grid_neighbors(cf@[x] as int, cols as int, rows as int, bounded@).contains(x)
                                && precedes(g@, order, cf@[x], x) by {
                                if x != nb {
                                    assert(cf_before.contains_key(x));
                                    assert(precedes(g_before, order_before, cf_before[x], x));
                                    assert(g@[x as int] == g_before[x as int]);
                                    assert(order[x as int] == order_before[x as int]);
                                }
                            }
                            assert forall|x: int| 0 <= x < n implies #[trigger] order[x] < clock by {
                                if x != nb {
                                    assert(order[x] == order_before[x]);
                                }
                            }
                            assert forall|x: usize| #[trigger] cf@.contains_key(x) implies slot.contains_key(x)
                                && 0 <= slot[x] < grid_neighbors(cf@[x] as int, cols as int, rows as int, bounded@).len()
                                && grid_neighbors(cf@[x] as int, cols as int, rows as int, bounded@)[slot[x]] == x
                                && g@[cf@[x] as int] + step_cost@[cf@[x] as int]@[slot[x]] <= g@[x as int] by {
                                if x == nb {
                                    assert(nbrs@[t as int] == nb);
                                } else {
                                    assert(cf_before.contains_key(x));
                                    assert(slot[x] == slot_before[x]);
                                    assert(g@[x as int] == g_before[x as int]);
                                    assert(g@[cf@[x] as int] <= g_before[cf_before[x] as int]);
                                }
                            }
                            assert forall|i: int| 0 <= i < open@.len() implies (#[trigger] open@[i]).f_score >= score(
                                g@[open@[i].index as int],
                                heuristic@[open@[i].index as int],
                            ) by {
                                if i < open_before.len() {
                                    assert(open@[i] == open_before[i]);
                                    assert(g@[open@[i].index as int] <= g_before[open@[i].index as int]);
                                }
                            }
                        }
                    }
                },
                None => {},
            }
            proof {
                assert(forall|x: int| 0 <= x < n && x != nb ==> g@[x] == g_before[x]);
                assert(g@[nb as int] <= g_before[nb as int]);
                assert(g@[current as int] == g_before[current as int]);
                assert(forall|i: int| 0 <= i < open_before.len() ==> open@[i] == open_before[i]);
                assert(relaxed ==> open@.last().index == nb && open@.len() == open_before.len() + 1
                    && open@.last().f_score == score(g@[nb as int], heuristic@[nb as int]));
                assert(!relaxed ==> open@ == open_before && g@ == g_before);
                lemma_neighbors_in_grid(current as int, cols as int, rows as int, bounded@, 8);
                assert forall|tt: int|
                    0 <= tt < t + 1 && tt < grid_neighbors(current as int, cols as int, rows as int, bounded@).len()
                        && g@[current as int] + step_cost@[current as int]@[tt] <= u64::MAX implies g@[grid_neighbors(
                    current as int,
                    cols as int,
                    rows as int,
                    bounded@,
                )[tt] as int] <= g@[current as int] + #[trigger] step_cost@[current as int]@[tt] by {
                    let w = nbrs@[tt] as int;
                    if tt < t {
                        assert(g_before[w] <= g_before[current as int] + step_cost@[current as int]@[tt]);
                        if w == nb {
                        } else {
                            assert(g@[w] == g_before[w]);
                        }
                    }
                }
                assert forall|v: int| 0 <= v < n && v != current && #[trigger] g@[v] < u64::MAX implies (exists|i: int|
                    0 <= i < open@.len() && (#[trigger] open@[i]).index == v && open@[i].f_score == score(
                        g@[v],
                        heuristic@[v],
                    )) || settled(cols, rows, bounded@, step_cost@, g@, v) by {
                    if relaxed && v == nb {
                        assert(open@[open@.len() - 1].index == v);
                    } else {
                        assert(g_before[v] == g@[v]);
                        if settled(cols, rows, bounded@, step_cost@, g_before, v) {
                            lemma_neighbors_in_grid(v, cols as int, rows as int, bounded@, 8);
                            assert forall|tt: int|
                                0 <= tt < 8 && tt < grid_neighbors(v, cols as int, rows as int, bounded@).len()
                                    && g@[v] + step_cost@[v]@[tt] <= u64::MAX implies g@[grid_neighbors(
                                v,
                                cols as int,
                                rows as int,
                                bounded@,
                            )[tt] as int] <= g@[v] + #[trigger] step_cost@[v]@[tt] by {
                                let w = grid_neighbors(v, cols as int, rows as int, bounded@)[tt] as int;
                                assert(g_before[w] <= g_before[v] + step_cost@[v]@[tt]);
                                if w != nb {
                                    assert(g@[w] == g_before[w]);
                                }
                            }
                        } else {
                            let i = choose|i: int|
                                0 <= i < open_before.len() && (#[trigger] open_before[i]).index == v
                                    && open_before[i].f_score == score(g_before[v], heuristic@[v]);
                            assert(open@[i] == open_before[i]);
                        }
                    }
                }
                if g@[goal as int] < u64::MAX {
                    if relaxed && goal == nb {
                        assert(open@[open@.len() - 1].index == goal);
                    } else {
                        assert(g_before[goal as int] == g@[goal as int]);
                        let i = choose|i: int| 0 <= i < open_before.len() && (#[trigger] open_before[i]).index == goal;
                        assert(open@[i] == open_before[i]);
                    }
                }
            }
            t = t + 1;
        }
        proof {
            lemma_neighbors_len(current as int, cols as int, rows as int, bounded@, 8);
            assert(settled(cols, rows, bounded@, step_cost@, g@, current as int));
            assert forall|v: int| 0 <= v < n && v != -1 && #[trigger] g@[v] < u64::MAX implies (exists|i: int|
                0 <= i < open@.len() && (#[trigger] open@[i]).index == v && open@[i].f_score == score(
                    g@[v],
                    heuristic@[v],
                )) || settled(cols, rows, bounded@, step_cost@, g@, v) by {
            }
        }
    }
    proof {
        assert(bounded@.len() == bounded.len());
        assert forall|v: int| 0 <= v < n && #[trigger] g@[v] < u64::MAX implies settled(
            cols,
            rows,
            bounded@,
            step_cost@,
            g@,
            v,
        ) by {
            if !settled(cols, rows, bounded@, step_cost@, g@, v) {
                assert(v != -1);
            }
        }
        assert(g@[goal as int] == u64::MAX);
        assert forall|path: Seq<usize>, steps: Seq<int>|
            is_step_walk(cols as int, rows as int, bounded@, path, steps, start, goal) implies #[trigger] walk_cost(
            step_cost@,
            path,
            steps,
            steps.len() as int,
        ) >= u64::MAX by {
            if walk_cost(step_cost@, path, steps, steps.len() as int) < u64::MAX {
                lemma_walk_bound(cols, rows, bounded@, step_cost@, g@, path, steps, start, goal, steps.len() as int);
            }
        }
    }
    None
}

} // verus!
