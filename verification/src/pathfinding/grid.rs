use vstd::prelude::*;
use std::collections::BTreeMap;

verus! {

/// The eight grid directions as (column step, row step), in the order they are tried:
/// left, right, up, down, up-left, down-left, up-right, down-right.
pub open spec fn direction(d: int) -> (int, int) {
    if d == 0 {
        (-1, 0)
    } else if d == 1 {
        (1, 0)
    } else if d == 2 {
        (0, -1)
    } else if d == 3 {
        (0, 1)
    } else if d == 4 {
        (-1, -1)
    } else if d == 5 {
        (-1, 1)
    } else if d == 6 {
        (1, -1)
    } else {
        (1, 1)
    }
}

/// The cell one step from `index` in direction `d` of a grid with `cols` columns and `rows`
/// rows (cells numbered row by row), if that step stays on the grid.
pub open spec fn step(index: int, cols: int, rows: int, d: int) -> Option<int> {
    let row = index / cols;
    let col = index % cols;
    let r = row + direction(d).1;
    let c = col + direction(d).0;
    if 0 <= r < rows && 0 <= c < cols {
        Some(r * cols + c)
    } else {
        None
    }
}

/// The neighbours found in the first `k` directions: on-grid steps onto cells that exist in
/// `bounded` and are marked bounded (inside the area).
pub open spec fn neighbors_upto(index: int, cols: int, rows: int, bounded: Seq<bool>, k: int) -> Seq<
    usize,
>
    decreases k,
{
    if k <= 0 {
        Seq::empty()
    } else {
        let prev = neighbors_upto(index, cols, rows, bounded, k - 1);
        match step(index, cols, rows, k - 1) {
            Some(n) => if n < bounded.len() && bounded[n] {
                prev.push(n as usize)
            } else {
                prev
            },
            None => prev,
        }
    }
}

/// The bounded neighbours of a cell, in direction order.
pub open spec fn grid_neighbors(index: int, cols: int, rows: int, bounded: Seq<bool>) -> Seq<usize> {
    neighbors_upto(index, cols, rows, bounded, 8)
}

/// The neighbouring cells of `index` (all eight directions) that lie on the grid and are
/// bounded, in direction order. `bounded[i]` tells whether cell `i` lies inside the area.
pub fn get_neighbors(index: usize, cols: usize, rows: usize, bounded: &[bool]) -> (n: Vec<usize>)
    requires
        cols > 0,
        cols <= i32::MAX,
        rows <= i32::MAX,
        cols * rows <= usize::MAX,
        index / cols < i32::MAX,
    ensures
        n@ == grid_neighbors(index as int, cols as int, rows as int, bounded@),
{
    let row = index / cols;
    let col = index % cols;
    let dxs: [i64; 8] = [-1, 1, 0, 0, -1, -1, 1, 1];
    let dys: [i64; 8] = [0, 0, -1, 1, -1, 1, -1, 1];
    let mut neighbors: Vec<usize> = Vec::new();
    let mut d: usize = 0;
    while d < 8
        invariant
            d <= 8,
            cols > 0,
            cols <= i32::MAX,
            rows <= i32::MAX,
            cols * rows <= usize::MAX,
            row == index / cols,
            col == index % cols,
            row < i32::MAX,
            forall|j: int|
                0 <= j < 8 ==> #[trigger] dxs@[j] as int == direction(j).0 && dys@[j] as int
                    == direction(j).1,
            neighbors@ == neighbors_upto(index as int, cols as int, rows as int, bounded@, d as int),
        decreases 8 - d,
    {
        let dx = dxs[d];
        let dy = dys[d];
        assert(dx as int == direction(d as int).0 && dy as int == direction(d as int).1);
        let new_row: i64 = row as i64 + dy;
        let new_col: i64 = col as i64 + dx;
        if new_row >= 0 && new_row < rows as i64 && new_col >= 0 && new_col < cols as i64 {
            let nr = new_row as usize;
            let nc = new_col as usize;
            proof {
                assert(nr < rows);
                assert(nr * cols + nc < rows * cols && nr * cols <= nr * cols + nc) by (nonlinear_arith)
                    requires
                        nr < rows,
                        nc < cols,
                ;
                assert(rows * cols == cols * rows) by (nonlinear_arith);
            }
            let new_index = nr * cols + nc;
            if new_index < bounded.len() && bounded[new_index] {
                neighbors.push(new_index);
            }
        }
        d = d + 1;
    }
    neighbors
}

/// Whether following predecessors from `cur` takes exactly `n` steps to reach a cell that has
/// none.
pub open spec fn reaches_start(came_from: Map<usize, usize>, cur: usize, n: nat) -> bool
    decreases n,
{
    if n == 0 {
        !came_from.contains_key(cur)
    } else {
        came_from.contains_key(cur) && reaches_start(came_from, came_from[cur], (n - 1) as nat)
    }
}

/// Whether `path` is a predecessor chain ending at `end`: it starts at a cell without a
/// predecessor and each cell after the first has the cell before it as its predecessor.
pub open spec fn is_predecessor_chain(came_from: Map<usize, usize>, path: Seq<usize>, end: usize) -> bool {
    &&& path.len() >= 1
    &&& path.last() == end
    &&& !came_from.contains_key(path[0])
    &&& forall|i: int|
        0 <= i < path.len() - 1 ==> came_from.contains_key(#[trigger] path[i + 1])
            && came_from[path[i + 1]] == path[i]
}

/// Following predecessors from a cell reaches a cell without one in only one number of steps.
proof fn lemma_reaches_start_unique(came_from: Map<usize, usize>, cur: usize, a: nat, b: nat)
    requires
        reaches_start(came_from, cur, a),
        reaches_start(came_from, cur, b),
    ensures
        a == b,
    decreases a,
{
    if a > 0 && b > 0 {
        lemma_reaches_start_unique(came_from, came_from[cur], (a - 1) as nat, (b - 1) as nat);
    }
}

/// In a predecessor chain, the cell at position `k` is `k` steps from the chain's first cell.
proof fn lemma_chain_steps(came_from: Map<usize, usize>, path: Seq<usize>, end: usize, k: int)
    requires
        is_predecessor_chain(came_from, path, end),
        0 <= k < path.len(),
    ensures
        reaches_start(came_from, path[k], k as nat),
    decreases k,
{
    if k > 0 {
        lemma_chain_steps(came_from, path, end, k - 1);
        let i = k - 1;
        assert(came_from.contains_key(path[i + 1]) && came_from[path[i + 1]] == path[i]);
    }
}

/// A predecessor chain passes through no cell twice.
pub proof fn lemma_chain_no_duplicates(came_from: Map<usize, usize>, path: Seq<usize>, end: usize)
    requires
        is_predecessor_chain(came_from, path, end),
    ensures
        path.no_duplicates(),
{
    assert forall|i: int, j: int| 0 <= i < path.len() && 0 <= j < path.len() && i != j implies path[i]
        != path[j] by {
        lemma_chain_steps(came_from, path, end, i);
        lemma_chain_steps(came_from, path, end, j);
        if path[i] == path[j] {
            lemma_reaches_start_unique(came_from, path[i], i as nat, j as nat);
        }
    }
}

/// Rebuilds the path that ends at `current` by following `came_from` back to a cell that has
/// no predecessor; the path runs from that cell to `current`. The chain of predecessors must
/// end (otherwise the walk would not stop).
pub fn reconstruct_path(came_from: &BTreeMap<usize, usize>, current: usize) -> (path: Vec<usize>)
    requires
        exists|n: nat| reaches_start(came_from@, current, n),
    ensures
        is_predecessor_chain(came_from@, path@, current),
        path@.no_duplicates(),
{
    let ghost n0: nat = choose|n: nat| reaches_start(came_from@, current, n);
    let mut back: Vec<usize> = Vec::new();
    let mut cur = current;
    back.push(cur);
    let ghost mut left: nat = n0;
    let mut done = false;
    while !done
        invariant
            reaches_start(came_from@, cur, left),
            done ==> !came_from@.contains_key(cur),
            back@.len() >= 1,
            back@[0] == current,
            back@.last() == cur,
            forall|i: int|
                0 <= i < back@.len() - 1 ==> came_from@.contains_key(#[trigger] back@[i])
                    && came_from@[back@[i]] == back@[i + 1],
        decreases left + (if done { 0nat } else { 1nat }),
    {
        match came_from.get(&cur) {
            Some(prev) => {
                let p = *prev;
                proof {
                    left = (left - 1) as nat;
                }
                back.push(p);
                cur = p;
            },
            None => {
                done = true;
            },
        }
    }
    let mut path: Vec<usize> = Vec::new();
    let mut k: usize = back.len();
    while k > 0
        invariant
            k <= back@.len(),
            path@.len() == back@.len() - k,
            forall|i: int| 0 <= i < path@.len() ==> path@[i] == back@[back@.len() - 1 - i],
        decreases k,
    {
        k = k - 1;
        path.push(back[k]);
    }
    proof {
        assert forall|i: int| 0 <= i < path@.len() - 1 implies came_from@.contains_key(
            #[trigger] path@[i + 1],
        ) && came_from@[path@[i + 1]] == path@[i] by {
            let j = back@.len() - 2 - i;
            assert(path@[i + 1] == back@[j]);
            assert(path@[i] == back@[j + 1]);
        }
        lemma_chain_no_duplicates(came_from@, path@, current);
    }
    path
}

} // verus!
