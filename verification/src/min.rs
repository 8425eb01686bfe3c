//! Minimum loop.

use crate::Lup;
use crate::Secret;
use vstd::prelude::*;

verus! {

/// Minimum loop.
///
/// The state is a [`Secret`] holding the running minimum and the index at
/// which it first occurred. A value wins only on strict improvement, so
/// ties keep the earliest evidence; the first value always wins against the
/// initial state, whose evidence is `None`. The loop never exits early.
///
/// In a nested loop the input is itself a [`Secret`]: an inner result is
/// considered only when it carries evidence, since an inner loop over an
/// empty input has no minimum to offer.
pub struct Min<I, T>(pub Secret<I, T>);

impl Lup<usize, i64> for Min<usize, i64> {
    type Inner = Secret<usize, i64>;

    open spec fn start_rel(r: Self) -> bool {
        r.0.evidence is None && r.0.value == 0
    }

    open spec fn it_req(self, ind: usize, val: i64) -> bool {
        true
    }

    open spec fn it_rel(self, ind: usize, val: i64, post: Self, cont: bool) -> bool {
        &&& cont
        &&& post.0 == if self.0.evidence is None || val < self.0.value {
            (Secret { evidence: Some(ind), value: val })
        } else {
            self.0
        }
    }

    open spec fn unwrap_rel(self, r: Secret<usize, i64>) -> bool {
        r == self.0
    }

    fn start() -> (r: Self) {
        Min(Secret { evidence: None, value: 0 })
    }

    fn it(&mut self, ind: usize, val: i64) -> (cont: bool) {
        if self.0.evidence.is_none() || val < self.0.value {
            self.0 = Secret { evidence: Some(ind), value: val };
        }
        true
    }

    fn unwrap(self) -> (r: Secret<usize, i64>) {
        self.0
    }
}

impl Lup<usize, Secret<usize, i64>> for Min<(usize, usize), i64> {
    type Inner = Secret<(usize, usize), i64>;

    open spec fn start_rel(r: Self) -> bool {
        r.0.evidence is None && r.0.value == 0
    }

    open spec fn it_req(self, ind: usize, val: Secret<usize, i64>) -> bool {
        true
    }

    open spec fn it_rel(
        self,
        ind: usize,
        val: Secret<usize, i64>,
        post: Self,
        cont: bool,
    ) -> bool {
        &&& cont
        &&& post.0 == match val.evidence {
            Some(j) => if self.0.evidence is None || val.value < self.0.value {
                (Secret { evidence: Some((ind, j)), value: val.value })
            } else {
                self.0
            },
            None => self.0,
        }
    }

    open spec fn unwrap_rel(self, r: Secret<(usize, usize), i64>) -> bool {
        r == self.0
    }

    fn start() -> (r: Self) {
        Min(Secret { evidence: None, value: 0 })
    }

    fn it(&mut self, ind: usize, val: Secret<usize, i64>) -> (cont: bool) {
        if let Some(j) = val.evidence {
            if self.0.evidence.is_none() || val.value < self.0.value {
                self.0 = Secret { evidence: Some((ind, j)), value: val.value };
            }
        }
        true
    }

    fn unwrap(self) -> (r: Secret<(usize, usize), i64>) {
        self.0
    }
}

impl Lup<usize, Secret<(usize, usize), i64>> for Min<(usize, usize, usize), i64> {
    type Inner = Secret<(usize, usize, usize), i64>;

    open spec fn start_rel(r: Self) -> bool {
        r.0.evidence is None && r.0.value == 0
    }

    open spec fn it_req(self, ind: usize, val: Secret<(usize, usize), i64>) -> bool {
        true
    }

    open spec fn it_rel(
        self,
        ind: usize,
        val: Secret<(usize, usize), i64>,
        post: Self,
        cont: bool,
    ) -> bool {
        &&& cont
        &&& post.0 == match val.evidence {
            Some(j) => if self.0.evidence is None || val.value < self.0.value {
                (Secret { evidence: Some((ind, j.0, j.1)), value: val.value })
            } else {
                self.0
            },
            None => self.0,
        }
    }

    open spec fn unwrap_rel(self, r: Secret<(usize, usize, usize), i64>) -> bool {
        r == self.0
    }

    fn start() -> (r: Self) {
        Min(Secret { evidence: None, value: 0 })
    }

    fn it(&mut self, ind: usize, val: Secret<(usize, usize), i64>) -> (cont: bool) {
        if let Some(j) = val.evidence {
            if self.0.evidence.is_none() || val.value < self.0.value {
                self.0 = Secret { evidence: Some((ind, j.0, j.1)), value: val.value };
            }
        }
        true
    }

    fn unwrap(self) -> (r: Secret<(usize, usize, usize), i64>) {
        self.0
    }
}

/// What running [`Min`] over the sequence `s` returns: on a non-empty
/// input, the evidence points to the first index attaining the minimum
/// value and the value is that minimum; on an empty input there is no
/// evidence and the value stays at its initial zero.
pub open spec fn min_post(s: Seq<i64>, r: Secret<usize, i64>) -> bool {
    &&& (r.evidence is Some) == (s.len() > 0)
    &&& match r.evidence {
        Some(j) => {
            &&& 0 <= j < s.len()
            &&& s[j as int] == r.value
            &&& forall|k: int| 0 <= k < s.len() ==> s[k] >= r.value
            &&& forall|k: int| 0 <= k < j ==> s[k] > r.value
        },
        None => r.value == 0,
    }
}

/// Runs the [`Min`] accumulator over a whole list.
pub fn min_list(v: &Vec<i64>) -> (r: Secret<usize, i64>)
    ensures
        min_post(v@, r),
{
    let mut acc: Min<usize, i64> = Lup::start();
    let mut i: usize = 0;
    while i < v.len()
        invariant
            i <= v@.len(),
            (acc.0.evidence is Some) == (i > 0),
            match acc.0.evidence {
                Some(j) => {
                    &&& 0 <= j < i
                    &&& v@[j as int] == acc.0.value
                    &&& forall|k: int| 0 <= k < i ==> v@[k] >= acc.0.value
                    &&& forall|k: int| 0 <= k < j ==> v@[k] > acc.0.value
                },
                None => acc.0.value == 0,
            },
        decreases v@.len() - i,
    {
        let _cont = acc.it(i, v[i]);
        i = i + 1;
    }
    acc.unwrap()
}

/// What running a two-level [`Min`] loop over the table `g` returns.
///
/// The answer agrees with a flattened iteration over all cells in row-major
/// order: on a table with at least one non-empty row, the evidence points
/// to the first cell attaining the minimum over all cells and the value is
/// that minimum; otherwise there is no evidence and the value stays at its
/// initial zero.
pub open spec fn min_table_post(g: Seq<Seq<i64>>, r: Secret<(usize, usize), i64>) -> bool {
    &&& (r.evidence is Some) == (exists|i: int| 0 <= i < g.len() && g[i].len() > 0)
    &&& match r.evidence {
        Some(e) => {
            &&& 0 <= e.0 < g.len()
            &&& 0 <= e.1 < g[e.0 as int].len()
            &&& g[e.0 as int][e.1 as int] == r.value
            &&& forall|i: int, j: int|
                0 <= i < g.len() && 0 <= j < g[i].len() ==> g[i][j] >= r.value
            &&& forall|i: int, j: int| 0 <= i < e.0 && 0 <= j < g[i].len() ==> g[i][j] > r.value
            &&& forall|j: int| 0 <= j < e.1 ==> g[e.0 as int][j] > r.value
        },
        None => r.value == 0,
    }
}

/// Runs a nested [`Min`] loop over a table: an inner `Min` over each row,
/// folded into an outer `Min` whose evidence is the pair of the row index
/// and the inner evidence.
pub fn min_table(v: &Vec<Vec<i64>>) -> (r: Secret<(usize, usize), i64>)
    ensures
        min_table_post(v.deep_view(), r),
{
    let ghost g: Seq<Seq<i64>> = v.deep_view();
    proof {
        assert(forall|i: int| 0 <= i < v@.len() ==> #[trigger] g[i] =~= v@[i]@);
    }
    let mut acc: Min<(usize, usize), i64> = Lup::start();
    let mut i: usize = 0;
    while i < v.len()
        invariant
            i <= v@.len(),
            g == v.deep_view(),
            g.len() == v@.len(),
            forall|k: int| 0 <= k < v@.len() ==> #[trigger] g[k] =~= v@[k]@,
            (acc.0.evidence is Some) == (exists|k: int| 0 <= k < i && g[k].len() > 0),
            match acc.0.evidence {
                Some(e) => {
                    &&& 0 <= e.0 < i
                    &&& 0 <= e.1 < g[e.0 as int].len()
                    &&& g[e.0 as int][e.1 as int] == acc.0.value
                    &&& forall|k: int, j: int|
                        0 <= k < i && 0 <= j < g[k].len() ==> g[k][j] >= acc.0.value
                    &&& forall|k: int, j: int|
                        0 <= k < e.0 && 0 <= j < g[k].len() ==> g[k][j] > acc.0.value
                    &&& forall|j: int| 0 <= j < e.1 ==> g[e.0 as int][j] > acc.0.value
                },
                None => acc.0.value == 0,
            },
        decreases v@.len() - i,
    {
        let inner = min_list(&v[i]);
        let _cont = acc.it(i, inner);
        proof {
            if inner.evidence is Some {
                assert(g[i as int].len() > 0);
            }
        }
        i = i + 1;
    }
    acc.unwrap()
}

/// A two-level [`Min`] agrees with a one-level `Min` over the flattened
/// table: the values are equal, evidence exists on the one side exactly
/// when it exists on the other, and the flat evidence index is the
/// row-major rank of the evidence cell.
pub proof fn lemma_min_table_flatten(
    g: Seq<Seq<i64>>,
    r: Secret<(usize, usize), i64>,
    rf: Secret<usize, i64>,
)
    requires
        min_table_post(g, r),
        min_post(g.flatten(), rf),
    ensures
        r.value == rf.value,
        r.evidence matches Some(e) ==> rf.evidence matches Some(t) && t == crate::cells_before(
            g,
            e.0 as int,
        ) + e.1,
        r.evidence is None ==> rf.evidence is None,
{
    if r.evidence is Some {
        let e = r.evidence->0;
        crate::lemma_flatten_cell_index(g, e.0 as int, e.1 as int);
        let t0 = crate::cells_before(g, e.0 as int) + e.1;
        assert(g.flatten()[t0] == r.value);
        let t = rf.evidence->0;
        let cell = crate::lemma_flatten_index_cell(g, t as int);
        assert(r.value >= rf.value);
        assert(rf.value == g[cell.0][cell.1]);
        assert(rf.value >= r.value);
        if t < t0 {
            crate::lemma_cell_order(g, cell.0, cell.1, e.0 as int, e.1 as int);
            assert(false);
        }
        if t > t0 {
            assert(g.flatten()[t0] > rf.value);
            assert(false);
        }
    } else {
        if g.flatten().len() > 0 {
            let cell = crate::lemma_flatten_index_cell(g, 0);
            assert(g[cell.0].len() > 0);
            assert(false);
        }
    }
}

/// Determinism of `Min`: any two results that satisfy the contract of
/// [`min_list`] on the same input agree in value and evidence, so re-running
/// the loop yields an identical answer.
pub proof fn lemma_min_deterministic(s: Seq<i64>, r1: Secret<usize, i64>, r2: Secret<usize, i64>)
    requires
        min_post(s, r1),
        min_post(s, r2),
    ensures
        r1.value == r2.value,
        r1.evidence == r2.evidence,
{
}

/// Determinism of a two-level `Min`: any two results that satisfy the
/// contract of [`min_table`] on the same input agree in value and evidence.
pub proof fn lemma_min_table_deterministic(
    g: Seq<Seq<i64>>,
    r1: Secret<(usize, usize), i64>,
    r2: Secret<(usize, usize), i64>,
)
    requires
        min_table_post(g, r1),
        min_table_post(g, r2),
    ensures
        r1.value == r2.value,
        r1.evidence == r2.evidence,
{
    if r1.evidence is Some && r2.evidence is Some {
        let e1 = r1.evidence->0;
        let e2 = r2.evidence->0;
        assert(g[e1.0 as int][e1.1 as int] >= r2.value);
        assert(g[e2.0 as int][e2.1 as int] >= r1.value);
        if e1.0 < e2.0 {
            assert(g[e1.0 as int][e1.1 as int] > r2.value);
        } else if e2.0 < e1.0 {
            assert(g[e2.0 as int][e2.1 as int] > r1.value);
        } else if e1.1 < e2.1 {
            assert(g[e1.0 as int][e1.1 as int] > r2.value);
        } else if e2.1 < e1.1 {
            assert(g[e2.0 as int][e2.1 as int] > r1.value);
        }
    }
}

} // verus!
