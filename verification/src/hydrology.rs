//! Drainage over the elevation field: every cell drains into its lowest
//! neighbour, and the rain that falls on a cell flows on through each cell
//! downstream of it.

use crate::catchment::{catchments, lemma_flow_counts_upstream_cells};
use crate::elevation::{elevation_key, elevation_rank};
use crate::sums::{
    lemma_sum_bounds_pair, lemma_sum_constant, lemma_sum_nonnegative, lemma_sum_pointwise,
    lemma_sum_update, sum,
};
use vstd::prelude::*;

verus! {

/// The ranks of all cells of a field.
pub open spec fn elevation_keys(heights: Seq<u32>) -> Seq<int> {
    Seq::new(heights.len(), |i: int| elevation_key(heights[i]))
}

/// Computes the rank of every cell of a field.
pub fn elevation_ranks(heights: &Vec<u32>) -> (ranks: Vec<u32>)
    ensures
        ranks@.len() == heights@.len(),
        forall|i: int| 0 <= i < heights@.len() ==> #[trigger] ranks@[i] == elevation_key(heights@[i]),
{
    let mut ranks: Vec<u32> = Vec::new();
    let mut i: usize = 0;
    while i < heights.len()
        invariant
            i <= heights@.len(),
            ranks@.len() == i,
            forall|j: int| 0 <= j < i ==> #[trigger] ranks@[j] == elevation_key(heights@[j]),
        decreases heights.len() - i,
    {
        ranks.push(elevation_rank(heights[i]));
        i = i + 1;
    }
    ranks
}

/// The cell in slot `k` around cell `i` of a grid `width` by `height`, if
/// the grid has one there. The nine slots are numbered row by row from the
/// upper left; slot 4 is the cell itself and holds no neighbour.
pub open spec fn neighbor(width: int, height: int, i: int, k: int) -> Option<int> {
    let nx = i % width + k % 3 - 1;
    let ny = i / width + k / 3 - 1;
    if k != 4 && 0 <= nx < width && 0 <= ny < height {
        Some(ny * width + nx)
    } else {
        None
    }
}

/// The lowest cell among cell `i` and its neighbours in the slots before
/// `slots`: the cell itself unless a neighbour is strictly lower, and among
/// equally low neighbours the one in the first slot.
pub open spec fn lowest(keys: Seq<int>, width: int, height: int, i: int, slots: nat) -> int
    decreases slots,
{
    if slots == 0 {
        i
    } else {
        let best = lowest(keys, width, height, i, (slots - 1) as nat);
        match neighbor(width, height, i, slots - 1) {
            Some(n) => if keys[n] < keys[best] {
                n
            } else {
                best
            },
            None => best,
        }
    }
}

/// The cell that each cell drains into: its lowest neighbour, or itself
/// where no neighbour is strictly lower.
pub open spec fn drains(heights: Seq<u32>, width: int, height: int) -> Seq<int> {
    Seq::new(heights.len(), |i: int| lowest(elevation_keys(heights), width, height, i, 9))
}

/// A neighbour of a cell of the grid is a cell of the grid.
pub proof fn lemma_neighbor_in_grid(width: int, height: int, i: int, k: int)
    requires
        0 <= i < width * height,
        0 <= k < 9,
    ensures
        neighbor(width, height, i, k) matches Some(n) ==> 0 <= n < width * height && n != i,
{
    if neighbor(width, height, i, k) is Some {
        let nx = i % width + k % 3 - 1;
        let ny = i / width + k / 3 - 1;
        assert(width > 0);
        assert(0 <= ny * width + nx < width * height) by (nonlinear_arith)
            requires
                0 <= nx < width,
                0 <= ny,
                ny + 1 <= height,
        ;
        if ny * width + nx == i {
            vstd::arithmetic::div_mod::lemma_fundamental_div_mod_converse(i, width, ny, nx);
        }
    }
}

/// What the lowest cell is: the cell itself or one of its neighbours; no
/// cell scanned is lower; and it is the cell itself unless it is strictly
/// lower than the cell.
pub proof fn lemma_lowest(keys: Seq<int>, width: int, height: int, i: int, slots: nat)
    requires
        keys.len() == width * height,
        0 <= i < keys.len(),
        slots <= 9,
    ensures
        0 <= lowest(keys, width, height, i, slots) < keys.len(),
        lowest(keys, width, height, i, slots) == i || keys[lowest(keys, width, height, i, slots)]
            < keys[i],
        lowest(keys, width, height, i, slots) == i || exists|k: int|
            0 <= k < slots && neighbor(width, height, i, k) == Some(
                lowest(keys, width, height, i, slots),
            ),
        forall|k: int|
            0 <= k < slots ==> (#[trigger] neighbor(width, height, i, k) matches Some(n)
                ==> keys[n] >= keys[lowest(keys, width, height, i, slots)]),
    decreases slots,
{
    if slots > 0 {
        let before = (slots - 1) as nat;
        lemma_lowest(keys, width, height, i, before);
        lemma_neighbor_in_grid(width, height, i, slots - 1);
        let best = lowest(keys, width, height, i, before);
        let now = lowest(keys, width, height, i, slots);
        if now != best {
            assert(neighbor(width, height, i, slots - 1) == Some(now));
        } else if now != i {
            let k = choose|k: int|
                0 <= k < before && neighbor(width, height, i, k) == Some(best);
            assert(0 <= k < slots && neighbor(width, height, i, k) == Some(now));
        }
        assert forall|k: int| 0 <= k < slots implies (#[trigger] neighbor(width, height, i, k) matches Some(
            n,
        ) ==> keys[n] >= keys[now]) by {
            if k < before {
                assert(neighbor(width, height, i, k) matches Some(n) ==> keys[n] >= keys[best]);
            }
        }
    }
}

/// Finds, for every cell, the cell that it drains into.
pub fn flow_directions(heights: &Vec<u32>, width: usize, height: usize) -> (directions: Vec<usize>)
    requires
        heights@.len() == width * height,
    ensures
        directions@.len() == heights@.len(),
        forall|i: int|
            0 <= i < heights@.len() ==> #[trigger] directions@[i] == drains(
                heights@,
                width as int,
                height as int,
            )[i],
{
    let n: usize = heights.len();
    let ranks = elevation_ranks(heights);
    let ghost keys = elevation_keys(heights@);
    let mut directions: Vec<usize> = Vec::new();
    let mut i: usize = 0;
    while i < n
        invariant
            n == heights@.len(),
            n == width * height,
            ranks@.len() == n,
            keys == elevation_keys(heights@),
            forall|j: int| 0 <= j < n ==> #[trigger] ranks@[j] == keys[j],
            i <= n,
            directions@.len() == i,
            forall|j: int|
                0 <= j < i ==> #[trigger] directions@[j] == lowest(
                    keys,
                    width as int,
                    height as int,
                    j,
                    9,
                ),
        decreases n - i,
    {
        assert(width > 0 && height > 0) by (nonlinear_arith)
            requires
                i < width * height,
        ;
        let x: u128 = (i % width) as u128;
        let y: u128 = (i / width) as u128;
        let mut best: usize = i;
        let mut k: u128 = 0;
        while k < 9
            invariant
                n == width * height,
                ranks@.len() == n,
                keys.len() == n,
                forall|j: int| 0 <= j < n ==> #[trigger] ranks@[j] == keys[j],
                i < n,
                width > 0,
                height > 0,
                x == i % width,
                y == i / width,
                k <= 9,
                best < n,
                best == lowest(keys, width as int, height as int, i as int, k as nat),
            decreases 9 - k,
        {
            let dx: u128 = k % 3;
            let dy: u128 = k / 3;
            if k != 4 && x + dx >= 1 && x + dx - 1 < width as u128 && y + dy >= 1 && y + dy - 1
                < height as u128 {
                proof {
                    lemma_neighbor_in_grid(width as int, height as int, i as int, k as int);
                    assert((y + dy - 1) * width >= 0) by (nonlinear_arith)
                        requires
                            y + dy - 1 >= 0,
                            width >= 0,
                    ;
                }
                let cell: usize = (y + dy - 1) as usize * width + (x + dx - 1) as usize;
                if ranks[cell] < ranks[best] {
                    best = cell;
                }
            }
            k = k + 1;
        }
        directions.push(best);
        i = i + 1;
    }
    directions
}

/// The cells `0` to `n - 1` in order.
pub open spec fn all_cells(n: nat) -> Seq<usize> {
    Seq::new(n, |i: int| i as usize)
}

/// Whether every entry of `order` is a cell of a field of `n` cells.
pub open spec fn cells_below(order: Seq<usize>, n: nat) -> bool {
    forall|s: int| 0 <= s < order.len() ==> #[trigger] order[s] < n
}

/// Whether the ranks of the cells of `order` never rise along it.
pub open spec fn falling(order: Seq<usize>, ranks: Seq<u32>) -> bool {
    forall|s: int, t: int|
        0 <= s <= t < order.len() ==> ranks[#[trigger] order[s] as int] >= ranks[#[trigger] order[t] as int]
}

/// Sorts `order` with std's `sort_unstable_by_key`, highest rank first.
/// Trusted: afterwards `order` holds the same cells, each as often as
/// before, and their ranks never rise along it. Where cells have the same
/// rank, nothing is said about which comes first.
#[verifier::external_body]
fn sort_by_falling_rank(order: &mut Vec<usize>, ranks: &Vec<u32>)
    requires
        cells_below(old(order)@, ranks@.len()),
    ensures
        final(order)@.to_multiset() == old(order)@.to_multiset(),
        falling(final(order)@, ranks@),
{
    order.sort_unstable_by_key(|&cell| std::cmp::Reverse(ranks[cell]));
}

/// A rearrangement of all cells holds every cell exactly once.
pub proof fn lemma_rearranged_cells(order: Seq<usize>, n: nat)
    requires
        n <= usize::MAX,
        order.to_multiset() == all_cells(n).to_multiset(),
    ensures
        order.len() == n,
        order.no_duplicates(),
        cells_below(order, n),
        forall|i: int| 0 <= i < n ==> order.contains(#[trigger] all_cells(n)[i]),
{
    broadcast use vstd::seq_lib::group_to_multiset_ensures;

    let cells = all_cells(n);
    assert(cells.no_duplicates());
    cells.lemma_multiset_has_no_duplicates();
    order.lemma_multiset_has_no_duplicates_conv();
    assert(order.len() == order.to_multiset().len());
    assert(cells.len() == cells.to_multiset().len());
    assert forall|s: int| 0 <= s < order.len() implies #[trigger] order[s] < n by {
        assert(order.contains(order[s]));
        assert(order.to_multiset().count(order[s]) > 0);
        assert(cells.contains(order[s]));
    }
    assert forall|i: int| 0 <= i < n implies order.contains(#[trigger] all_cells(n)[i]) by {
        assert(cells.contains(cells[i]));
        assert(cells.to_multiset().count(cells[i]) > 0);
    }
}

/// Where each cell stands in a rearrangement of all cells.
pub open spec fn positions(order: Seq<usize>) -> Seq<int> {
    Seq::new(order.len(), |i: int| order.index_of(i as usize))
}

/// In a rearrangement of all cells, a cell's position is where it stands.
pub proof fn lemma_positions(order: Seq<usize>, n: nat)
    requires
        n <= usize::MAX,
        order.to_multiset() == all_cells(n).to_multiset(),
    ensures
        order.len() == n,
        positions(order).len() == n,
        cells_below(order, n),
        forall|i: int|
            0 <= i < n ==> 0 <= #[trigger] positions(order)[i] < n && order[positions(order)[i]]
                == i,
        forall|s: int| 0 <= s < n ==> positions(order)[#[trigger] order[s] as int] == s,
{
    lemma_rearranged_cells(order, n);
    assert forall|i: int| 0 <= i < n implies 0 <= #[trigger] positions(order)[i] < n
        && order[positions(order)[i]] == i by {
        assert(order.contains(all_cells(n)[i]));
    }
    assert forall|s: int| 0 <= s < n implies positions(order)[#[trigger] order[s] as int]
        == s by {
        let i = order[s] as int;
        assert(order[positions(order)[i]] == order[s]);
    }
}

/// What flows into cell `i` from the cells that drain into it.
pub open spec fn received(flow: Seq<int>, drains: Seq<int>, i: int) -> int {
    sum(inflows(flow, drains, i))
}

/// For each cell, what it passes on to cell `i`: its flow where it drains
/// into `i`, nothing elsewhere.
pub open spec fn inflows(flow: Seq<int>, drains: Seq<int>, i: int) -> Seq<int> {
    Seq::new(
        flow.len(),
        |j: int|
            if j != i && drains[j] == i {
                flow[j]
            } else {
                0
            },
    )
}

/// Every cell carries its own unit of rain and what it receives from the
/// cells that drain into it.
pub open spec fn balanced(flow: Seq<int>, drains: Seq<int>) -> bool {
    &&& flow.len() == drains.len()
    &&& forall|i: int| 0 <= i < flow.len() ==> #[trigger] flow[i] == 1 + received(flow, drains, i)
}

/// The flow that ends in sinks: the sum of the flow of the cells that drain
/// into themselves.
pub open spec fn sink_total(flow: Seq<int>, drains: Seq<int>) -> int {
    sum(sink_flows(flow, drains))
}

/// For each cell, its flow where it is a sink, nothing elsewhere.
pub open spec fn sink_flows(flow: Seq<int>, drains: Seq<int>) -> Seq<int> {
    Seq::new(
        flow.len(),
        |i: int|
            if drains[i] == i {
                flow[i]
            } else {
                0
            },
    )
}

/// The accumulated flow as integers.
pub open spec fn as_ints(flow: Seq<u32>) -> Seq<int> {
    Seq::new(flow.len(), |i: int| flow[i] as int)
}

/// What cell `i` has received once the cells at the first `t` positions
/// have passed their flow on.
spec fn arrived(flow: Seq<int>, drains: Seq<int>, pos: Seq<int>, t: int, i: int) -> Seq<int> {
    Seq::new(
        flow.len(),
        |j: int|
            if j != i && drains[j] == i && pos[j] < t {
                flow[j]
            } else {
                0
            },
    )
}

/// The flow that has not been passed on once the cells at the first `t`
/// positions have passed theirs on: that of the cells that wait for their
/// turn and that of the sinks.
spec fn pending(flow: Seq<int>, drains: Seq<int>, pos: Seq<int>, t: int) -> Seq<int> {
    Seq::new(
        flow.len(),
        |i: int|
            if pos[i] >= t || drains[i] == i {
                flow[i]
            } else {
                0
            },
    )
}

/// Before any cell has passed its flow on, every cell holds its unit of
/// rain, has received nothing, and all the rain is pending.
proof fn lemma_no_cell_passed(flow: Seq<int>, drains: Seq<int>, pos: Seq<int>)
    requires
        flow.len() == drains.len(),
        flow.len() == pos.len(),
        forall|i: int| 0 <= i < flow.len() ==> flow[i] == 1,
        forall|i: int| 0 <= i < flow.len() ==> #[trigger] pos[i] >= 0,
    ensures
        forall|i: int|
            0 <= i < flow.len() ==> #[trigger] flow[i] == 1 + sum(arrived(flow, drains, pos, 0, i)),
        sum(pending(flow, drains, pos, 0)) == flow.len(),
{
    assert forall|i: int| 0 <= i < flow.len() implies #[trigger] flow[i] == 1 + sum(
        arrived(flow, drains, pos, 0, i),
    ) by {
        lemma_sum_constant(arrived(flow, drains, pos, 0, i), 0);
    }
    lemma_sum_constant(pending(flow, drains, pos, 0), 1);
}

/// One step of the accumulation: the cell `x` at position `t` passes its
/// flow on to the cell that it drains into, which has not had its turn.
proof fn lemma_pass_on(
    flow: Seq<int>,
    drains: Seq<int>,
    pos: Seq<int>,
    t: int,
    x: int,
    next: Seq<int>,
)
    requires
        flow.len() == drains.len(),
        flow.len() == pos.len(),
        0 <= x < flow.len(),
        pos[x] == t,
        forall|i: int, j: int|
            0 <= i < flow.len() && 0 <= j < flow.len() && i != j ==> #[trigger] pos[i]
                != #[trigger] pos[j],
        0 <= drains[x] < flow.len(),
        drains[x] != x ==> pos[drains[x]] > t,
        forall|i: int| 0 <= i < flow.len() ==> #[trigger] flow[i] >= 0,
        forall|i: int|
            0 <= i < flow.len() ==> #[trigger] flow[i] == 1 + sum(arrived(flow, drains, pos, t, i)),
        sum(pending(flow, drains, pos, t)) == flow.len(),
        next == if drains[x] != x {
            flow.update(drains[x], flow[drains[x]] + flow[x])
        } else {
            flow
        },
    ensures
        drains[x] != x ==> flow[drains[x]] + flow[x] <= flow.len(),
        forall|i: int|
            0 <= i < flow.len() ==> #[trigger] next[i] == 1 + sum(
                arrived(next, drains, pos, t + 1, i),
            ),
        sum(pending(next, drains, pos, t + 1)) == flow.len(),
{
    let dst = drains[x];
    let waiting = pending(flow, drains, pos, t);
    if dst != x {
        lemma_sum_bounds_pair(waiting, x, dst);
        let cleared = waiting.update(x, 0);
        lemma_sum_update(waiting, x, 0);
        lemma_sum_update(cleared, dst, flow[dst] + flow[x]);
        assert(pending(next, drains, pos, t + 1) =~= cleared.update(dst, flow[dst] + flow[x]));
    } else {
        assert(pending(next, drains, pos, t + 1) =~= waiting);
    }
    assert forall|i: int| 0 <= i < flow.len() implies #[trigger] next[i] == 1 + sum(
        arrived(next, drains, pos, t + 1, i),
    ) by {
        let had = arrived(flow, drains, pos, t, i);
        let has = arrived(next, drains, pos, t + 1, i);
        if dst != x && i == dst {
            lemma_sum_update(had, x, flow[x]);
            assert(has =~= had.update(x, flow[x]));
        } else {
            assert(has =~= had);
        }
    }
}

/// After every cell has passed its flow on, the flow is balanced and what
/// is pending is what the sinks hold.
proof fn lemma_all_cells_passed(flow: Seq<int>, drains: Seq<int>, pos: Seq<int>)
    requires
        flow.len() == drains.len(),
        flow.len() == pos.len(),
        forall|i: int| 0 <= i < flow.len() ==> #[trigger] pos[i] < flow.len(),
        forall|i: int|
            0 <= i < flow.len() ==> #[trigger] flow[i] == 1 + sum(
                arrived(flow, drains, pos, flow.len() as int, i),
            ),
    ensures
        balanced(flow, drains),
        sink_total(flow, drains) == sum(pending(flow, drains, pos, flow.len() as int)),
{
    let n = flow.len() as int;
    assert forall|i: int| 0 <= i < flow.len() implies #[trigger] flow[i] == 1 + received(
        flow,
        drains,
        i,
    ) by {
        assert(arrived(flow, drains, pos, n, i) =~= inflows(flow, drains, i));
    }
    assert(pending(flow, drains, pos, n) =~= sink_flows(flow, drains));
}

/// Accumulates the flow through every cell of a field: one unit of rain
/// falls on each cell and runs downhill from cell to lowest neighbour until
/// it reaches a sink. Returns, for every cell, the units that pass through:
/// the number of cells whose rain passes through it.
pub fn accumulate(heights: &Vec<u32>, width: usize, height: usize) -> (flow: Vec<u32>)
    requires
        heights@.len() == width * height,
        heights@.len() <= u32::MAX,
    ensures
        flow@.len() == heights@.len(),
        as_ints(flow@) == catchments(drains(heights@, width as int, height as int)),
        balanced(as_ints(flow@), drains(heights@, width as int, height as int)),
        sink_total(as_ints(flow@), drains(heights@, width as int, height as int)) == width
            * height,
        forall|i: int| 0 <= i < flow@.len() ==> 1 <= #[trigger] flow@[i] <= width * height,
{
    let n: usize = heights.len();
    let ranks = elevation_ranks(heights);
    let directions = flow_directions(heights, width, height);
    let ghost keys = elevation_keys(heights@);
    let ghost dr = drains(heights@, width as int, height as int);

    let mut order: Vec<usize> = Vec::new();
    let mut c: usize = 0;
    while c < n
        invariant
            c <= n,
            order@ == all_cells(c as nat),
        decreases n - c,
    {
        order.push(c);
        assert(order@ =~= all_cells((c + 1) as nat));
        c = c + 1;
    }
    sort_by_falling_rank(&mut order, &ranks);
    let ghost pos = positions(order@);
    proof {
        lemma_positions(order@, n as nat);
    }

    let mut flow: Vec<u32> = vec![1u32; n];
    proof {
        lemma_no_cell_passed(as_ints(flow@), dr, pos);
    }
    let mut t: usize = 0;
    while t < n
        invariant
            t <= n,
            n == heights@.len(),
            n == width * height,
            n <= u32::MAX,
            keys == elevation_keys(heights@),
            dr == drains(heights@, width as int, height as int),
            ranks@.len() == n,
            forall|i: int| 0 <= i < n ==> #[trigger] ranks@[i] == keys[i],
            directions@.len() == n,
            forall|i: int| 0 <= i < n ==> #[trigger] directions@[i] == dr[i],
            order@.len() == n,
            cells_below(order@, n as nat),
            falling(order@, ranks@),
            pos.len() == n,
            forall|i: int| 0 <= i < n ==> 0 <= #[trigger] pos[i] < n && order@[pos[i]] == i,
            forall|s: int| 0 <= s < n ==> pos[#[trigger] order@[s] as int] == s,
            flow@.len() == n,
            forall|i: int| 0 <= i < n ==> 1 <= #[trigger] flow@[i] <= n,
            forall|i: int|
                0 <= i < n ==> #[trigger] as_ints(flow@)[i] == 1 + sum(
                    arrived(as_ints(flow@), dr, pos, t as int, i),
                ),
            sum(pending(as_ints(flow@), dr, pos, t as int)) == n,
        decreases n - t,
    {
        let x: usize = order[t];
        let dst: usize = directions[x];
        let ghost before = as_ints(flow@);
        proof {
            lemma_lowest(keys, width as int, height as int, x as int, 9);
            assert(dr[x as int] == dst);
            if dst != x {
                let p = pos[dst as int];
                assert(order@[p] == dst);
                if p < t {
                    assert(ranks@[order@[p] as int] >= ranks@[order@[t as int] as int]);
                }
            }
            assert forall|i: int, j: int| 0 <= i < n && 0 <= j < n && i != j implies #[trigger] pos[i]
                != #[trigger] pos[j] by {
                assert(order@[pos[i]] == i);
                assert(order@[pos[j]] == j);
            }
            let next = if dst != x {
                before.update(dst as int, before[dst as int] + before[x as int])
            } else {
                before
            };
            lemma_pass_on(before, dr, pos, t as int, x as int, next);
        }
        if dst != x {
            let passed: u32 = flow[x];
            let held: u32 = flow[dst];
            flow.set(dst, held + passed);
            assert(as_ints(flow@) =~= before.update(dst as int, before[dst as int] + before[x as int]));
        }
        t = t + 1;
    }
    proof {
        lemma_all_cells_passed(as_ints(flow@), dr, pos);
        lemma_flow_counts_upstream_cells(as_ints(flow@), heights@, width as int, height as int);
    }
    flow
}

/// The greatest flow of a field, by which the flow is normalised; 1 for a
/// field without cells.
pub fn peak_flow(flow: &Vec<u32>) -> (peak: u32)
    ensures
        forall|i: int| 0 <= i < flow@.len() ==> flow@[i] <= peak,
        flow@.len() == 0 ==> peak == 1,
        flow@.len() > 0 ==> exists|i: int| 0 <= i < flow@.len() && flow@[i] == peak,
{
    if flow.len() == 0 {
        return 1;
    }
    let mut peak: u32 = flow[0];
    let mut i: usize = 1;
    while i < flow.len()
        invariant
            1 <= i <= flow@.len(),
            forall|j: int| 0 <= j < i ==> flow@[j] <= peak,
            exists|j: int| 0 <= j < i && flow@[j] == peak,
        decreases flow.len() - i,
    {
        if flow[i] > peak {
            peak = flow[i];
        }
        i = i + 1;
    }
    peak
}

/// Every cell drains into itself or into a cell of the grid that is
/// strictly lower.
pub proof fn lemma_drains_descend(heights: Seq<u32>, width: int, height: int)
    requires
        heights.len() == width * height,
    ensures
        drains(heights, width, height).len() == heights.len(),
        forall|i: int|
            0 <= i < heights.len() ==> {
                let to = #[trigger] drains(heights, width, height)[i];
                &&& 0 <= to < heights.len()
                &&& to == i || elevation_key(heights[to]) < elevation_key(heights[i])
            },
{
    let keys = elevation_keys(heights);
    assert forall|i: int| 0 <= i < heights.len() implies {
        let to = #[trigger] drains(heights, width, height)[i];
        &&& 0 <= to < heights.len()
        &&& to == i || elevation_key(heights[to]) < elevation_key(heights[i])
    } by {
        lemma_lowest(keys, width, height, i, 9);
    }
}

/// Two balanced flows over the same drainage agree on cell `i`.
proof fn lemma_balance_agrees_at(
    a: Seq<int>,
    b: Seq<int>,
    heights: Seq<u32>,
    width: int,
    height: int,
    i: int,
)
    requires
        heights.len() == width * height,
        balanced(a, drains(heights, width, height)),
        balanced(b, drains(heights, width, height)),
        0 <= i < heights.len(),
    ensures
        a[i] == b[i],
    decreases 0x1_0000_0000 - elevation_key(heights[i]),
{
    let dr = drains(heights, width, height);
    lemma_drains_descend(heights, width, height);
    let from_a = inflows(a, dr, i);
    let from_b = inflows(b, dr, i);
    assert forall|j: int| 0 <= j < a.len() implies from_a[j] == from_b[j] by {
        if j != i && dr[j] == i {
            lemma_balance_agrees_at(a, b, heights, width, height, j);
        }
    }
    assert(from_a =~= from_b);
    assert(a[i] == 1 + received(a, dr, i));
    assert(b[i] == 1 + received(b, dr, i));
}

/// The balance of rain and inflow determines the flow: over the drainage
/// of a field there is only one balanced flow, whatever the order in which
/// cells of equal elevation are visited.
pub proof fn lemma_balanced_flow_is_unique(
    a: Seq<int>,
    b: Seq<int>,
    heights: Seq<u32>,
    width: int,
    height: int,
)
    requires
        heights.len() == width * height,
        balanced(a, drains(heights, width, height)),
        balanced(b, drains(heights, width, height)),
    ensures
        a == b,
{
    assert forall|i: int| 0 <= i < a.len() implies a[i] == b[i] by {
        lemma_balance_agrees_at(a, b, heights, width, height, i);
    }
    assert(a =~= b);
}

/// Rain is conserved in the sinks, not in the sum over all cells: a unit of
/// rain is counted in every cell that it passes. The sum of the flow over
/// all cells is therefore at least the flow that ends in sinks, and equal
/// to it exactly when every cell is a sink.
pub proof fn lemma_total_flow(flow: Seq<int>, drains: Seq<int>)
    requires
        balanced(flow, drains),
        forall|i: int| 0 <= i < flow.len() ==> #[trigger] flow[i] >= 0,
    ensures
        sum(flow) >= sink_total(flow, drains),
        sum(flow) == sink_total(flow, drains) <==> forall|i: int|
            0 <= i < flow.len() ==> #[trigger] drains[i] == i,
{
    let in_sinks = sink_flows(flow, drains);
    let on_slopes = Seq::new(
        flow.len(),
        |i: int|
            if drains[i] == i {
                0
            } else {
                flow[i]
            },
    );
    lemma_sum_pointwise(in_sinks, on_slopes, flow);
    lemma_sum_nonnegative(on_slopes);
    if forall|i: int| 0 <= i < flow.len() ==> #[trigger] drains[i] == i {
        lemma_sum_constant(on_slopes, 0);
    } else {
        let k = choose|k: int| 0 <= k < flow.len() && #[trigger] drains[k] != k;
        assert(flow[k] == 1 + received(flow, drains, k));
        lemma_sum_nonnegative(inflows(flow, drains, k));
        assert(on_slopes[k] >= 1);
        lemma_sum_update(on_slopes, k, 0);
        lemma_sum_nonnegative(on_slopes.update(k, 0));
    }
}

} // verus!
