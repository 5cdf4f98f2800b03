//! What the accumulated flow counts: the flow through a cell is the number
//! of cells whose rain passes through it.

use crate::hydrology::{
    balanced, drains, elevation_keys, inflows, lemma_balanced_flow_is_unique,
    lemma_drains_descend, received,
};
use crate::sums::{
    column, column_sums, lemma_sum_by_rows_or_columns, lemma_sum_constant, lemma_sum_pointwise,
    lemma_sum_single, row, row_sums, sum,
};
use vstd::prelude::*;

verus! {

/// Every cell drains into itself or into a cell with a smaller key.
pub open spec fn descends(drains: Seq<int>, keys: Seq<int>) -> bool {
    &&& drains.len() == keys.len()
    &&& forall|i: int|
        0 <= i < drains.len() ==> {
            &&& 0 <= #[trigger] drains[i] < drains.len()
            &&& drains[i] == i || keys[drains[i]] < keys[i]
        }
}

/// The cell that the rain of cell `from` is in after `steps` steps
/// downstream.
pub open spec fn downstream(drains: Seq<int>, from: int, steps: nat) -> int
    decreases steps,
{
    if steps == 0 {
        from
    } else {
        drains[downstream(drains, from, (steps - 1) as nat)]
    }
}

/// Whether the rain of cell `from` passes through cell `to`.
pub open spec fn reaches(drains: Seq<int>, from: int, to: int) -> bool {
    exists|steps: nat| downstream(drains, from, steps) == to
}

/// For each cell, one if its rain passes through cell `i`, else zero.
pub open spec fn upstream(drains: Seq<int>, i: int) -> Seq<int> {
    Seq::new(
        drains.len(),
        |from: int|
            if reaches(drains, from, i) {
                1int
            } else {
                0int
            },
    )
}

/// The number of cells whose rain passes through cell `i`, the cell itself
/// among them.
pub open spec fn catchment(drains: Seq<int>, i: int) -> int {
    sum(upstream(drains, i))
}

/// Rain stays on the grid and never runs uphill.
pub proof fn lemma_downstream_descends(drains: Seq<int>, keys: Seq<int>, from: int, steps: nat)
    requires
        descends(drains, keys),
        0 <= from < drains.len(),
    ensures
        0 <= downstream(drains, from, steps) < drains.len(),
        keys[downstream(drains, from, steps)] <= keys[from],
    decreases steps,
{
    if steps > 0 {
        lemma_downstream_descends(drains, keys, from, (steps - 1) as nat);
    }
}

/// Going `a` steps and then `b` steps is going `a + b` steps.
pub proof fn lemma_downstream_adds(drains: Seq<int>, from: int, a: nat, b: nat)
    ensures
        downstream(drains, from, a + b) == downstream(drains, downstream(drains, from, a), b),
    decreases b,
{
    if b > 0 {
        lemma_downstream_adds(drains, from, a, (b - 1) as nat);
        assert((a + b - 1) as nat == a + (b - 1) as nat);
    }
}

/// The step at which rain that passes through `to` first gets there.
proof fn first_arrival(drains: Seq<int>, from: int, to: int, steps: nat) -> (first: nat)
    requires
        from != to,
        downstream(drains, from, steps) == to,
    ensures
        1 <= first <= steps,
        downstream(drains, from, first) == to,
        downstream(drains, from, (first - 1) as nat) != to,
    decreases steps,
{
    let before = (steps - 1) as nat;
    if downstream(drains, from, before) != to {
        steps
    } else {
        first_arrival(drains, from, to, before)
    }
}

/// Rain does not pass through two cells that drain into the same cell
/// `i`, nor through one of them after `i`.
proof fn lemma_one_way_in(
    drains: Seq<int>,
    keys: Seq<int>,
    from: int,
    i: int,
    j: int,
    a: nat,
    k: int,
    b: nat,
)
    requires
        descends(drains, keys),
        0 <= from < drains.len(),
        0 <= i < drains.len(),
        j != i,
        k != i,
        downstream(drains, from, a) == j,
        downstream(drains, from, b) == k,
        drains[j] == i,
        drains[k] == i,
    ensures
        j == k,
{
    lemma_downstream_descends(drains, keys, from, a);
    lemma_downstream_descends(drains, keys, from, b);
    if a < b {
        let rest = (b - a - 1) as nat;
        lemma_downstream_adds(drains, from, a + 1, rest);
        assert(a + 1 + rest == b);
        lemma_downstream_descends(drains, keys, i, rest);
    } else if b < a {
        let rest = (a - b - 1) as nat;
        lemma_downstream_adds(drains, from, b + 1, rest);
        assert(b + 1 + rest == a);
        lemma_downstream_descends(drains, keys, i, rest);
    }
}

/// For each cell, one if it drains into `i` and the rain of `from` passes
/// through it, else zero.
pub open spec fn through(drains: Seq<int>, i: int, from: int) -> Seq<int> {
    Seq::new(
        drains.len(),
        |j: int|
            if j != i && drains[j] == i && reaches(drains, from, j) {
                1int
            } else {
                0int
            },
    )
}

/// Rain passes through cell `i` if it falls there or passes through a cell
/// that drains into `i`, and it does so through just one such cell.
proof fn lemma_way_in(drains: Seq<int>, keys: Seq<int>, i: int, from: int)
    requires
        descends(drains, keys),
        0 <= i < drains.len(),
        0 <= from < drains.len(),
    ensures
        upstream(drains, i)[from] == (if from == i {
            1int
        } else {
            0int
        }) + sum(through(drains, i, from)),
{
    let ways = through(drains, i, from);
    if from == i {
        assert(downstream(drains, i, 0) == i);
        assert forall|j: int| 0 <= j < ways.len() implies ways[j] == 0 by {
            if j != i && drains[j] == i && reaches(drains, from, j) {
                let steps = choose|steps: nat| downstream(drains, from, steps) == j;
                lemma_downstream_descends(drains, keys, from, steps);
            }
        }
        lemma_sum_constant(ways, 0);
    } else if reaches(drains, from, i) {
        let steps = choose|steps: nat| downstream(drains, from, steps) == i;
        let first = first_arrival(drains, from, i, steps);
        let before = (first - 1) as nat;
        let j = downstream(drains, from, before);
        lemma_downstream_descends(drains, keys, from, before);
        assert(reaches(drains, from, j));
        assert(ways[j] == 1);
        assert forall|k: int| 0 <= k < ways.len() && k != j implies ways[k] == 0 by {
            if k != i && drains[k] == i && reaches(drains, from, k) {
                let b = choose|b: nat| downstream(drains, from, b) == k;
                lemma_one_way_in(drains, keys, from, i, j, before, k, b);
            }
        }
        lemma_sum_single(ways, j);
    } else {
        assert forall|j: int| 0 <= j < ways.len() implies ways[j] == 0 by {
            if j != i && drains[j] == i && reaches(drains, from, j) {
                let steps = choose|steps: nat| downstream(drains, from, steps) == j;
                assert(downstream(drains, from, steps + 1) == i);
            }
        }
        lemma_sum_constant(ways, 0);
    }
}

/// The catchment of every cell.
pub open spec fn catchments(drains: Seq<int>) -> Seq<int> {
    Seq::new(drains.len(), |i: int| catchment(drains, i))
}

/// The catchment of a cell is the cell itself and the catchments of the
/// cells that drain into it.
proof fn lemma_catchment_splits(drains: Seq<int>, keys: Seq<int>, i: int)
    requires
        descends(drains, keys),
        0 <= i < drains.len(),
    ensures
        catchment(drains, i) == 1 + received(catchments(drains), drains, i),
{
    let n = drains.len();
    let all = catchments(drains);
    let table = |j: int, from: int|
        if j != i && drains[j] == i && reaches(drains, from, j) {
            1int
        } else {
            0int
        };
    lemma_sum_by_rows_or_columns(table, n, n);
    assert forall|j: int| 0 <= j < n implies row_sums(table, n, n)[j] == inflows(
        all,
        drains,
        i,
    )[j] by {
        if j != i && drains[j] == i {
            assert(row(table, j, n) =~= upstream(drains, j));
        } else {
            lemma_sum_constant(row(table, j, n), 0);
        }
    }
    assert(row_sums(table, n, n) =~= inflows(all, drains, i));
    let own = Seq::new(
        n,
        |from: int|
            if from == i {
                1int
            } else {
                0int
            },
    );
    lemma_sum_single(own, i);
    assert forall|from: int| 0 <= from < n implies upstream(drains, i)[from] == column_sums(
        table,
        n,
        n,
    )[from] + own[from] by {
        lemma_way_in(drains, keys, i, from);
        assert(column(table, from, n) =~= through(drains, i, from));
    }
    lemma_sum_pointwise(column_sums(table, n, n), own, upstream(drains, i));
}

/// Counting the cells upstream of every cell gives a balanced flow.
pub proof fn lemma_catchments_balance(drains: Seq<int>, keys: Seq<int>)
    requires
        descends(drains, keys),
    ensures
        balanced(catchments(drains), drains),
{
    assert forall|i: int| 0 <= i < drains.len() implies #[trigger] catchments(drains)[i] == 1
        + received(catchments(drains), drains, i) by {
        lemma_catchment_splits(drains, keys, i);
    }
}

/// The flow through a cell is the number of cells whose rain passes
/// through it: a balanced flow over the drainage of a field is the
/// catchment of every cell.
pub proof fn lemma_flow_counts_upstream_cells(
    flow: Seq<int>,
    heights: Seq<u32>,
    width: int,
    height: int,
)
    requires
        heights.len() == width * height,
        balanced(flow, drains(heights, width, height)),
    ensures
        flow == catchments(drains(heights, width, height)),
{
    let dr = drains(heights, width, height);
    lemma_drains_descend(heights, width, height);
    assert(descends(dr, elevation_keys(heights)));
    lemma_catchments_balance(dr, elevation_keys(heights));
    lemma_balanced_flow_is_unique(flow, catchments(dr), heights, width, height);
}

} // verus!
