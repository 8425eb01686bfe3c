//! Indexed loop accumulators.
//!
//! This library offers a family of accumulators for indexed loops: summation
//! (`Sum`), product (`Prod`), extrema (`Max`, `Min`), quantification (`Any`,
//! `All`) and collection builders (`Vector`, `Sift`), together with driver
//! functions that run an accumulator over a list or over a two-level table.
//!
//! The quantifying and extremal accumulators return a [`Secret`]: a value
//! paired with the evidence that justifies it, such as the index at which a
//! maximum occurs, or the index of the first element satisfying a condition.
//! Nested loops compose evidence into index tuples, outer index first.
//!
//! Every accumulator implements the [`Lup`] trait: `start` creates the
//! initial state, `it` folds one indexed value into the state and reports
//! whether iteration should go on, and `unwrap` extracts the result.

pub mod all;
pub mod any;
pub mod for_loop;
pub mod max;
pub mod min;
pub mod prod;
pub mod secret;
pub mod sift;
pub mod sum;
pub mod vector;

pub use all::All;
pub use any::Any;
pub use for_loop::For;
pub use max::Max;
pub use min::Min;
pub use prod::Prod;
pub use secret::Secret;
pub use sift::Sift;
pub use sum::Sum;
pub use vector::Vector;

use vstd::prelude::*;

verus! {

/// Implemented by custom loops.
///
/// A driver repeatedly calls [`Lup::it`] with strictly increasing indices
/// until it returns `false` or the input is exhausted, then calls
/// [`Lup::unwrap`] for the result.
///
/// Each operation carries a contract through the relation spec functions:
/// an implementation states in [`Lup::start_rel`] what its initial state is,
/// in [`Lup::it_rel`] how one step changes the state, and in
/// [`Lup::unwrap_rel`] how the result relates to the final state.
pub trait Lup<I, T>: Sized {
    /// The resulting type.
    type Inner;

    /// Holds of the state that `start` returns.
    spec fn start_rel(r: Self) -> bool;

    /// When `it` may be called on state `self` with index `ind` and value `val`.
    spec fn it_req(self, ind: I, val: T) -> bool;

    /// How one `it` step takes state `self` to state `post`, and whether the
    /// loop is to go on (`cont`).
    spec fn it_rel(self, ind: I, val: T, post: Self, cont: bool) -> bool;

    /// How the result of `unwrap` relates to the final state `self`.
    spec fn unwrap_rel(self, r: Self::Inner) -> bool;

    /// Initialize loop.
    fn start() -> (r: Self)
        ensures
            Self::start_rel(r),
    ;

    /// Iterate loop.
    fn it(&mut self, ind: I, val: T) -> (cont: bool)
        requires
            old(self).it_req(ind, val),
        ensures
            old(self).it_rel(ind, val, *final(self), cont),
    ;

    /// Unwrap the resulting value.
    fn unwrap(self) -> (r: Self::Inner)
        ensures
            self.unwrap_rel(r),
    ;
}

/// The number of cells in the first `a` rows of a table.
///
/// The cell at row `a`, column `b` of a table sits at position
/// `cells_before(g, a) + b` of the flattened table; the lemmas below prove
/// that correspondence, which ties the two-level drivers to direct
/// flattened iteration in row-major order.
pub open spec fn cells_before<A>(g: Seq<Seq<A>>, a: int) -> int
    decreases a,
{
    if a <= 0 {
        0
    } else {
        cells_before(g, a - 1) + g[a - 1].len()
    }
}

/// Taking in more rows never decreases the cell count.
pub proof fn lemma_cells_before_monotonic<A>(g: Seq<Seq<A>>, a1: int, a2: int)
    requires
        0 <= a1 <= a2,
    ensures
        cells_before(g, a1) <= cells_before(g, a2),
    decreases a2,
{
    if a1 < a2 {
        lemma_cells_before_monotonic(g, a1, a2 - 1);
    }
}

/// Dropping the first row shifts the cell count by that row's length.
pub proof fn lemma_cells_before_drop_first<A>(g: Seq<Seq<A>>, a: int)
    requires
        0 <= a,
        a + 1 <= g.len(),
    ensures
        cells_before(g, a + 1) == g[0].len() + cells_before(g.drop_first(), a),
    decreases a,
{
    if a == 0 {
        assert(cells_before(g, 1) == cells_before(g, 0) + g[0].len());
        assert(cells_before(g, 0) == 0);
        assert(cells_before(g.drop_first(), 0) == 0);
    } else {
        lemma_cells_before_drop_first(g, a - 1);
        assert(g.drop_first()[a - 1] == g[a]);
        assert(cells_before(g, a + 1) == cells_before(g, a) + g[a].len());
        assert(cells_before(g.drop_first(), a) == cells_before(g.drop_first(), a - 1)
            + g.drop_first()[a - 1].len());
    }
}

/// The cells of all rows together are exactly the flattened table.
pub proof fn lemma_cells_before_total<A>(g: Seq<Seq<A>>)
    ensures
        cells_before(g, g.len() as int) == g.flatten().len(),
    decreases g.len(),
{
    if g.len() > 0 {
        lemma_cells_before_total(g.drop_first());
        lemma_cells_before_drop_first(g, g.len() - 1);
    }
}

/// A cell of the table reappears in the flattened table at the position
/// given by its row-major rank.
pub proof fn lemma_flatten_cell_index<A>(g: Seq<Seq<A>>, a: int, b: int)
    requires
        0 <= a < g.len(),
        0 <= b < g[a].len(),
    ensures
        0 <= cells_before(g, a) + b < g.flatten().len(),
        g.flatten()[cells_before(g, a) + b] == g[a][b],
    decreases a,
{
    if a == 0 {
        assert(g.flatten() == g.first().add(g.drop_first().flatten()));
    } else {
        lemma_flatten_cell_index(g.drop_first(), a - 1, b);
        lemma_cells_before_drop_first(g, a - 1);
        assert(g.drop_first()[a - 1] == g[a]);
        assert(g.flatten() == g.first().add(g.drop_first().flatten()));
    }
}

/// Every position of the flattened table comes from exactly one cell: the
/// returned pair of row and column indices whose row-major rank it is.
pub proof fn lemma_flatten_index_cell<A>(g: Seq<Seq<A>>, t: int) -> (cell: (int, int))
    requires
        0 <= t < g.flatten().len(),
    ensures
        0 <= cell.0 < g.len(),
        0 <= cell.1 < g[cell.0].len(),
        t == cells_before(g, cell.0) + cell.1,
        g.flatten()[t] == g[cell.0][cell.1],
    decreases g.len(),
{
    assert(g.flatten() == g.first().add(g.drop_first().flatten()));
    if t < g.first().len() {
        (0, t)
    } else {
        let inner = lemma_flatten_index_cell(g.drop_first(), t - g.first().len());
        lemma_cells_before_drop_first(g, inner.0);
        assert(g.drop_first()[inner.0] == g[inner.0 + 1]);
        (inner.0 + 1, inner.1)
    }
}

/// A cell with a smaller row-major rank comes first in row-major order.
pub proof fn lemma_cell_order<A>(g: Seq<Seq<A>>, i: int, j: int, a: int, b: int)
    requires
        0 <= i < g.len(),
        0 <= j < g[i].len(),
        0 <= a < g.len(),
        0 <= b < g[a].len(),
        cells_before(g, i) + j < cells_before(g, a) + b,
    ensures
        i < a || (i == a && j < b),
{
    if i > a {
        lemma_cells_before_monotonic(g, a + 1, i);
        assert(false);
    }
}

} // verus!
