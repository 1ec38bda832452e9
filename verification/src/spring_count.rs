//! The size of the generated spring network: for a grid of side `n` there
//! are `2n(n-1)` structural springs, `2(n-1)^2` shear springs and `2n(n-2)`
//! bend springs (none when `n` is 2).

use crate::topology::{slot_spring, springs_upto, grid_springs, GridModel};
use vstd::arithmetic::div_mod::lemma_fundamental_div_mod_converse;
use vstd::math::min;
use vstd::prelude::*;

verus! {

/// How many springs cell `(r, c)` emits.
pub open spec fn cell_count(n: int, r: int, c: int) -> int {
    (if c + 1 < n { 1int } else { 0int })
    + (if r + 1 < n { 1int } else { 0int })
    + (if r + 1 < n && c + 1 < n { 1int } else { 0int })
    + (if r + 1 < n && c >= 1 { 1int } else { 0int })
    + (if c + 2 < n { 1int } else { 0int })
    + (if r + 2 < n { 1int } else { 0int })
}

/// How many springs the first `c` cells of row `r` emit.
pub open spec fn row_prefix(n: int, r: int, c: int) -> int {
    min(c, n - 1)
    + (if r + 1 < n { c } else { 0int })
    + (if r + 1 < n { min(c, n - 1) } else { 0int })
    + (if r + 1 < n { (if c >= 1 { c - 1 } else { 0int }) } else { 0int })
    + min(c, n - 2)
    + (if r + 2 < n { c } else { 0int })
}

/// How many springs the whole row `r` emits.
pub open spec fn row_total(n: int, r: int) -> int {
    row_prefix(n, r, n)
}

/// How many springs the first `r` rows emit.
pub open spec fn rows_total(n: int, r: int) -> int
    decreases r,
{
    if r <= 0 {
        0
    } else {
        rows_total(n, r - 1) + row_total(n, r - 1)
    }
}

/// Closed form of `rows_total`.
pub open spec fn rows_total_closed(n: int, r: int) -> int {
    r * (n - 1) + r * (n - 2) + min(r, n - 1) * (3 * n - 2) + min(r, n - 2) * n
}

/// Emitting the six slots of cell `k` grows the spring list by the cell's
/// count.
proof fn lemma_cell_step(g: GridModel, k: int)
    requires
        g.n >= 1,
        0 <= k,
    ensures
        springs_upto(g, (6 * k + 6) as nat).len()
            == springs_upto(g, (6 * k) as nat).len() + cell_count(g.n, k / g.n, k % g.n),
{
    let r = k / g.n;
    let c = k % g.n;
    crate::topology::lemma_springs_upto_step(g, k, 0);
    crate::topology::lemma_springs_upto_step(g, k, 1);
    crate::topology::lemma_springs_upto_step(g, k, 2);
    crate::topology::lemma_springs_upto_step(g, k, 3);
    crate::topology::lemma_springs_upto_step(g, k, 4);
    crate::topology::lemma_springs_upto_step(g, k, 5);
}

/// The spring list grows row by row, cell by cell, by the prefix formula.
proof fn lemma_prefix(g: GridModel, r: int, c: int)
    requires
        2 <= g.n,
        0 <= r < g.n,
        0 <= c <= g.n,
    ensures
        springs_upto(g, (6 * (r * g.n + c)) as nat).len() == rows_total(g.n, r) + row_prefix(g.n, r, c),
        r * g.n + c >= 0,
    decreases r, c,
{
    let n = g.n;
    assert(r * n >= 0) by (nonlinear_arith)
        requires r >= 0, n >= 0;
    if c == 0 {
        assert(row_prefix(n, r, 0) == 0);
        if r == 0 {
            assert(r * n == 0) by (nonlinear_arith)
                requires r == 0;
            assert(springs_upto(g, 0).len() == 0);
            assert(rows_total(n, 0) == 0);
        } else {
            lemma_prefix(g, r - 1, n);
            assert((r - 1) * n + n == r * n) by (nonlinear_arith);
            assert(springs_upto(g, (6 * (r * n + 0)) as nat).len()
                == rows_total(n, r - 1) + row_prefix(n, r - 1, n));
            assert(rows_total(n, r) == rows_total(n, r - 1) + row_total(n, r - 1));
            assert(springs_upto(g, (6 * (r * n + 0)) as nat).len()
                == rows_total(n, r) + row_prefix(n, r, 0));
        }
        assert(springs_upto(g, (6 * (r * n + c)) as nat).len()
            == rows_total(n, r) + row_prefix(n, r, c));
    } else {
        lemma_prefix(g, r, c - 1);
        let k = r * n + (c - 1);
        lemma_fundamental_div_mod_converse(k, n, r, c - 1);
        lemma_cell_step(g, k);
        assert(6 * (k + 1) == 6 * k + 6);
        assert(springs_upto(g, (6 * k + 6) as nat).len()
            == springs_upto(g, (6 * k) as nat).len() + cell_count(n, r, c - 1));
        assert(row_prefix(n, r, c) == row_prefix(n, r, c - 1) + cell_count(n, r, c - 1));
        assert(springs_upto(g, (6 * (r * n + c)) as nat).len()
            == rows_total(n, r) + row_prefix(n, r, c));
    }
}

/// The row totals sum to the closed form.
proof fn lemma_rows_total_closed(n: int, r: int)
    requires
        2 <= n,
        0 <= r <= n,
    ensures
        rows_total(n, r) == rows_total_closed(n, r),
    decreases r,
{
    if r == 0 {
        assert(min(0, n - 1) == 0);
        assert(min(0, n - 2) == 0);
        assert(rows_total_closed(n, 0) == 0) by (nonlinear_arith)
            requires min(0, n - 1) == 0 && min(0, n - 2) == 0;
    } else {
        lemma_rows_total_closed(n, r - 1);
        assert(r * (n - 1) == (r - 1) * (n - 1) + (n - 1)) by (nonlinear_arith);
        assert(r * (n - 2) == (r - 1) * (n - 2) + (n - 2)) by (nonlinear_arith);
        if r - 1 < n - 1 {
            assert(min(r, n - 1) == min(r - 1, n - 1) + 1);
            assert(min(r, n - 1) * (3 * n - 2) == min(r - 1, n - 1) * (3 * n - 2) + (3 * n - 2))
                by (nonlinear_arith)
                requires min(r, n - 1) == min(r - 1, n - 1) + 1;
        } else {
            assert(min(r, n - 1) == min(r - 1, n - 1));
        }
        if r - 1 < n - 2 {
            assert(min(r, n - 2) == min(r - 1, n - 2) + 1);
            assert(min(r, n - 2) * n == min(r - 1, n - 2) * n + n) by (nonlinear_arith)
                requires min(r, n - 2) == min(r - 1, n - 2) + 1;
        } else {
            assert(min(r, n - 2) == min(r - 1, n - 2));
        }
        assert(row_total(n, r - 1) == (n - 1) + (n - 2)
            + (if r < n { 3 * n - 2 } else { 0int })
            + (if r + 1 < n { n } else { 0int })) by {
            assert(min(n, n - 1) == n - 1);
            assert(min(n, n - 2) == n - 2);
        }
    }
}

/// How many springs an `n * n` grid has: `2n(n-1)` structural plus
/// `2(n-1)^2` shear plus `2n(n-2)` bend. The bend term is zero when `n`
/// is 2.
pub proof fn lemma_spring_count(g: GridModel)
    requires
        g.wf(),
    ensures
        grid_springs(g).len()
            == 2 * g.n * (g.n - 1) + 2 * (g.n - 1) * (g.n - 1) + 2 * g.n * (g.n - 2),
{
    let n = g.n;
    lemma_prefix(g, n - 1, n);
    lemma_rows_total_closed(n, n);
    assert((n - 1) * n + n == n * n) by (nonlinear_arith);
    assert(rows_total(n, n) == rows_total(n, n - 1) + row_total(n, n - 1));
    assert(row_prefix(n, n - 1, n) == row_total(n, n - 1));
    assert(6 * (n * n) == 6 * n * n) by (nonlinear_arith);
    assert(min(n, n - 1) == n - 1);
    assert(min(n, n - 2) == n - 2);
    assert(n * (n - 1) + n * (n - 2) + (n - 1) * (3 * n - 2) + (n - 2) * n
        == 2 * n * (n - 1) + 2 * (n - 1) * (n - 1) + 2 * n * (n - 2)) by (nonlinear_arith);
}

} // verus!
