//! Sums over finite sequences of integers.

use vstd::prelude::*;

verus! {

/// The sum of the entries of `s`.
pub open spec fn sum(s: Seq<int>) -> int
    decreases s.len(),
{
    if s.len() == 0 {
        0
    } else {
        sum(s.drop_last()) + s.last()
    }
}

/// Replacing one entry changes the sum by the difference of the entries.
pub proof fn lemma_sum_update(s: Seq<int>, i: int, v: int)
    requires
        0 <= i < s.len(),
    ensures
        sum(s.update(i, v)) == sum(s) - s[i] + v,
    decreases s.len(),
{
    let t = s.update(i, v);
    if i == s.len() - 1 {
        assert(t.drop_last() =~= s.drop_last());
    } else {
        lemma_sum_update(s.drop_last(), i, v);
        assert(t.drop_last() =~= s.drop_last().update(i, v));
    }
}

/// A sum of entries that are not negative is not negative.
pub proof fn lemma_sum_nonnegative(s: Seq<int>)
    requires
        forall|i: int| 0 <= i < s.len() ==> s[i] >= 0,
    ensures
        sum(s) >= 0,
    decreases s.len(),
{
    if s.len() > 0 {
        lemma_sum_nonnegative(s.drop_last());
    }
}

/// Two different entries of a sequence without negative entries add up to
/// no more than the whole sum.
pub proof fn lemma_sum_bounds_pair(s: Seq<int>, i: int, j: int)
    requires
        forall|k: int| 0 <= k < s.len() ==> s[k] >= 0,
        0 <= i < s.len(),
        0 <= j < s.len(),
        i != j,
    ensures
        s[i] + s[j] <= sum(s),
{
    let t = s.update(i, 0);
    let u = t.update(j, 0);
    lemma_sum_update(s, i, 0);
    lemma_sum_update(t, j, 0);
    lemma_sum_nonnegative(u);
}

/// The sum of `n` entries that are all `c` is `n * c`.
pub proof fn lemma_sum_constant(s: Seq<int>, c: int)
    requires
        forall|i: int| 0 <= i < s.len() ==> s[i] == c,
    ensures
        sum(s) == s.len() * c,
    decreases s.len(),
{
    if s.len() > 0 {
        lemma_sum_constant(s.drop_last(), c);
        assert(s.len() * c == (s.len() - 1) * c + c) by (nonlinear_arith);
    } else {
        assert(s.len() * c == 0) by (nonlinear_arith)
            requires
                s.len() == 0,
        ;
    }
}

/// The sum of two sequences added entry by entry is the sum of their sums.
pub proof fn lemma_sum_pointwise(a: Seq<int>, b: Seq<int>, c: Seq<int>)
    requires
        a.len() == b.len(),
        c.len() == a.len(),
        forall|i: int| 0 <= i < a.len() ==> c[i] == a[i] + b[i],
    ensures
        sum(c) == sum(a) + sum(b),
    decreases a.len(),
{
    if a.len() > 0 {
        lemma_sum_pointwise(a.drop_last(), b.drop_last(), c.drop_last());
    }
}

/// A sequence with a single one among zeros sums to one.
pub proof fn lemma_sum_single(s: Seq<int>, at: int)
    requires
        0 <= at < s.len(),
        s[at] == 1,
        forall|i: int| 0 <= i < s.len() && i != at ==> s[i] == 0,
    ensures
        sum(s) == 1,
{
    let zeros = s.update(at, 0);
    lemma_sum_update(s, at, 0);
    lemma_sum_constant(zeros, 0);
}

/// Row `j` of a table of `columns` columns.
pub open spec fn row(table: spec_fn(int, int) -> int, j: int, columns: nat) -> Seq<int> {
    Seq::new(columns, |m: int| table(j, m))
}

/// Column `m` of a table of `rows` rows.
pub open spec fn column(table: spec_fn(int, int) -> int, m: int, rows: nat) -> Seq<int> {
    Seq::new(rows, |j: int| table(j, m))
}

/// The sums of the rows of a table.
pub open spec fn row_sums(table: spec_fn(int, int) -> int, rows: nat, columns: nat) -> Seq<int> {
    Seq::new(rows, |j: int| sum(row(table, j, columns)))
}

/// The sums of the columns of a table.
pub open spec fn column_sums(table: spec_fn(int, int) -> int, rows: nat, columns: nat) -> Seq<
    int,
> {
    Seq::new(columns, |m: int| sum(column(table, m, rows)))
}

/// A table sums to the same total by rows and by columns.
pub proof fn lemma_sum_by_rows_or_columns(
    table: spec_fn(int, int) -> int,
    rows: nat,
    columns: nat,
)
    ensures
        sum(row_sums(table, rows, columns)) == sum(column_sums(table, rows, columns)),
    decreases rows,
{
    if rows == 0 {
        assert forall|m: int| 0 <= m < columns implies column_sums(table, rows, columns)[m]
            == 0 by {
            assert(column(table, m, rows) =~= Seq::<int>::empty());
        }
        lemma_sum_constant(column_sums(table, rows, columns), 0);
    } else {
        let fewer = (rows - 1) as nat;
        lemma_sum_by_rows_or_columns(table, fewer, columns);
        let last = row(table, fewer as int, columns);
        assert(row_sums(table, rows, columns).drop_last() =~= row_sums(table, fewer, columns));
        assert forall|m: int| 0 <= m < columns implies column_sums(table, rows, columns)[m]
            == column_sums(table, fewer, columns)[m] + last[m] by {
            assert(column(table, m, rows).drop_last() =~= column(table, m, fewer));
        }
        lemma_sum_pointwise(
            column_sums(table, fewer, columns),
            last,
            column_sums(table, rows, columns),
        );
    }
}

} // verus!
