//! Universal quantification loop.

use crate::Lup;
use crate::Secret;
use vstd::prelude::*;

verus! {

/// For-all loop.
///
/// The state is the counterexample found so far: `None` while every value
/// satisfied the condition, `Some(ind)` as soon as one did not, at which
/// point the loop exits early. The result is a [`Secret`] whose value says
/// whether every index satisfied the condition — vacuously true on an empty
/// input — and whose evidence is the first counterexample, if any.
///
/// In a nested loop the input is itself a [`Secret`]: a failing inner
/// result is propagated only when it carries evidence, since without
/// evidence no index tuple can justify the answer.
pub struct All<I>(pub Option<I>);

impl Lup<usize, bool> for All<usize> {
    type Inner = Secret<usize, bool>;

    open spec fn start_rel(r: Self) -> bool {
        r.0 is None
    }

    open spec fn it_req(self, ind: usize, val: bool) -> bool {
        true
    }

    open spec fn it_rel(self, ind: usize, val: bool, post: Self, cont: bool) -> bool {
        if !val {
            post.0 == Some(ind) && !cont
        } else {
            post == self && cont
        }
    }

    open spec fn unwrap_rel(self, r: Secret<usize, bool>) -> bool {
        r.value == (self.0 is None) && r.evidence == self.0
    }

    fn start() -> (r: Self) {
        All(None)
    }

    fn it(&mut self, ind: usize, val: bool) -> (cont: bool) {
        if !val {
            self.0 = Some(ind);
            false
        } else {
            true
        }
    }

    fn unwrap(self) -> (r: Secret<usize, bool>) {
        Secret { value: self.0.is_none(), evidence: self.0 }
    }
}

impl Lup<usize, Secret<usize, bool>> for All<(usize, usize)> {
    type Inner = Secret<(usize, usize), bool>;

    open spec fn start_rel(r: Self) -> bool {
        r.0 is None
    }

    open spec fn it_req(self, ind: usize, val: Secret<usize, bool>) -> bool {
        true
    }

    open spec fn it_rel(
        self,
        ind: usize,
        val: Secret<usize, bool>,
        post: Self,
        cont: bool,
    ) -> bool {
        match val.evidence {
            Some(j) => if !val.value {
                post.0 == Some((ind, j)) && !cont
            } else {
                post == self && cont
            },
            None => post == self && cont,
        }
    }

    open spec fn unwrap_rel(self, r: Secret<(usize, usize), bool>) -> bool {
        r.value == (self.0 is None) && r.evidence == self.0
    }

    fn start() -> (r: Self) {
        All(None)
    }

    fn it(&mut self, ind: usize, val: Secret<usize, bool>) -> (cont: bool) {
        if val.value {
            true
        } else {
            if let Some(j) = val.evidence {
                self.0 = Some((ind, j));
                false
            } else {
                true
            }
        }
    }

    fn unwrap(self) -> (r: Secret<(usize, usize), bool>) {
        Secret { value: self.0.is_none(), evidence: self.0 }
    }
}

impl Lup<usize, Secret<(usize, usize), bool>> for All<(usize, usize, usize)> {
    type Inner = Secret<(usize, usize, usize), bool>;

    open spec fn start_rel(r: Self) -> bool {
        r.0 is None
    }

    open spec fn it_req(self, ind: usize, val: Secret<(usize, usize), bool>) -> bool {
        true
    }

    open spec fn it_rel(
        self,
        ind: usize,
        val: Secret<(usize, usize), bool>,
        post: Self,
        cont: bool,
    ) -> bool {
        match val.evidence {
            Some(j) => if !val.value {
                post.0 == Some((ind, j.0, j.1)) && !cont
            } else {
                post == self && cont
            },
            None => post == self && cont,
        }
    }

    open spec fn unwrap_rel(self, r: Secret<(usize, usize, usize), bool>) -> bool {
        r.value == (self.0 is None) && r.evidence == self.0
    }

    fn start() -> (r: Self) {
        All(None)
    }

    fn it(&mut self, ind: usize, val: Secret<(usize, usize), bool>) -> (cont: bool) {
        if val.value {
            true
        } else {
            if let Some(j) = val.evidence {
                self.0 = Some((ind, j.0, j.1));
                false
            } else {
                true
            }
        }
    }

    fn unwrap(self) -> (r: Secret<(usize, usize, usize), bool>) {
        Secret { value: self.0.is_none(), evidence: self.0 }
    }
}

/// What running [`All`] over the sequence `s` returns: the value says
/// whether every index satisfies the condition — vacuously true on an empty
/// input — and the evidence is the first counterexample, if any.
pub open spec fn all_post(s: Seq<bool>, r: Secret<usize, bool>) -> bool {
    &&& r.value == (r.evidence is None)
    &&& r.value == (forall|k: int| 0 <= k < s.len() ==> s[k])
    &&& match r.evidence {
        Some(j) => 0 <= j < s.len() && !s[j as int] && (forall|k: int| 0 <= k < j ==> s[k]),
        None => true,
    }
}

/// Runs the [`All`] accumulator over a whole list of conditions.
pub fn all_list(v: &Vec<bool>) -> (r: Secret<usize, bool>)
    ensures
        all_post(v@, r),
{
    let mut acc: All<usize> = Lup::start();
    let mut i: usize = 0;
    let mut cont: bool = true;
    while cont && i < v.len()
        invariant
            i <= v@.len(),
            cont ==> acc.0 is None && (forall|k: int| 0 <= k < i ==> v@[k]),
            !cont ==> i >= 1 && acc.0 == Some((i - 1) as usize) && !v@[i - 1] && (forall|k: int|
                0 <= k < i - 1 ==> v@[k]),
        decreases v@.len() - i,
    {
        cont = acc.it(i, v[i]);
        i = i + 1;
    }
    acc.unwrap()
}

/// What running a two-level [`All`] loop over the table `g` returns.
///
/// The answer agrees with a flattened iteration over all cells in row-major
/// order: the value says whether every cell satisfies the condition, and
/// the evidence is the first failing cell, as a pair of the outer and the
/// inner index.
pub open spec fn all_table_post(g: Seq<Seq<bool>>, r: Secret<(usize, usize), bool>) -> bool {
    &&& r.value == (r.evidence is None)
    &&& r.value == (forall|i: int, j: int| 0 <= i < g.len() && 0 <= j < g[i].len() ==> g[i][j])
    &&& match r.evidence {
        Some(e) => {
            &&& 0 <= e.0 < g.len()
            &&& 0 <= e.1 < g[e.0 as int].len()
            &&& !g[e.0 as int][e.1 as int]
            &&& forall|i: int, j: int| 0 <= i < e.0 && 0 <= j < g[i].len() ==> g[i][j]
            &&& forall|j: int| 0 <= j < e.1 ==> g[e.0 as int][j]
        },
        None => true,
    }
}

/// Runs a nested [`All`] loop over a table of conditions: an inner `All`
/// over each row, folded into an outer `All` whose evidence is the pair of
/// the row index and the inner evidence.
pub fn all_table(v: &Vec<Vec<bool>>) -> (r: Secret<(usize, usize), bool>)
    ensures
        all_table_post(v.deep_view(), r),
{
    let ghost g: Seq<Seq<bool>> = v.deep_view();
    proof {
        assert(forall|i: int| 0 <= i < v@.len() ==> #[trigger] g[i] =~= v@[i]@);
    }
    let mut acc: All<(usize, usize)> = Lup::start();
    let mut i: usize = 0;
    let mut cont: bool = true;
    while cont && i < v.len()
        invariant
            i <= v@.len(),
            g == v.deep_view(),
            g.len() == v@.len(),
            forall|k: int| 0 <= k < v@.len() ==> #[trigger] g[k] =~= v@[k]@,
            cont ==> acc.0 is None && (forall|k: int, j: int|
                0 <= k < i && 0 <= j < g[k].len() ==> g[k][j]),
            !cont ==> i >= 1 && acc.0 is Some && {
                let e = acc.0->0;
                &&& e.0 == i - 1
                &&& 0 <= e.1 < g[i - 1].len()
                &&& !g[i - 1][e.1 as int]
                &&& forall|k: int, j: int| 0 <= k < i - 1 && 0 <= j < g[k].len() ==> g[k][j]
                &&& forall|j: int| 0 <= j < e.1 ==> g[e.0 as int][j]
            },
        decreases v@.len() - i,
    {
        let inner = all_list(&v[i]);
        cont = acc.it(i, inner);
        i = i + 1;
    }
    acc.unwrap()
}

/// A two-level [`All`] agrees with a one-level `All` over the flattened
/// table: the values are equal, evidence exists on the one side exactly
/// when it exists on the other, and the flat evidence index is the
/// row-major rank of the evidence cell.
pub proof fn lemma_all_table_flatten(
    g: Seq<Seq<bool>>,
    r: Secret<(usize, usize), bool>,
    rf: Secret<usize, bool>,
)
    requires
        all_table_post(g, r),
        all_post(g.flatten(), rf),
    ensures
        r.value == rf.value,
        r.evidence matches Some(e) ==> rf.evidence matches Some(t) && t == crate::cells_before(
            g,
            e.0 as int,
        ) + e.1,
        r.evidence is None ==> rf.evidence is None,
{
    if r.value {
        assert forall|t: int| 0 <= t < g.flatten().len() implies g.flatten()[t] by {
            let cell = crate::lemma_flatten_index_cell(g, t);
        }
    }
    if rf.value {
        assert forall|i: int, j: int| 0 <= i < g.len() && 0 <= j < g[i].len() implies g[i][j] by {
            crate::lemma_flatten_cell_index(g, i, j);
        }
    }
    if r.evidence is Some {
        let e = r.evidence->0;
        crate::lemma_flatten_cell_index(g, e.0 as int, e.1 as int);
        let t0 = crate::cells_before(g, e.0 as int) + e.1;
        assert(!g.flatten()[t0]);
        let t = rf.evidence->0;
        if t < t0 {
            let cell = crate::lemma_flatten_index_cell(g, t as int);
            crate::lemma_cell_order(g, cell.0, cell.1, e.0 as int, e.1 as int);
            assert(false);
        }
        if t > t0 {
            assert(g.flatten()[t0]);
            assert(false);
        }
    }
}

/// Determinism of `All`: any two results that satisfy the contract of
/// [`all_list`] on the same input agree in value and evidence, so re-running
/// the loop yields an identical answer.
pub proof fn lemma_all_deterministic(s: Seq<bool>, r1: Secret<usize, bool>, r2: Secret<usize, bool>)
    requires
        all_post(s, r1),
        all_post(s, r2),
    ensures
        r1.value == r2.value,
        r1.evidence == r2.evidence,
{
}

/// Determinism of a two-level `All`: any two results that satisfy the
/// contract of [`all_table`] on the same input agree in value and evidence.
pub proof fn lemma_all_table_deterministic(
    g: Seq<Seq<bool>>,
    r1: Secret<(usize, usize), bool>,
    r2: Secret<(usize, usize), bool>,
)
    requires
        all_table_post(g, r1),
        all_table_post(g, r2),
    ensures
        r1.value == r2.value,
        r1.evidence == r2.evidence,
{
    if r1.evidence is Some && r2.evidence is Some {
        let e1 = r1.evidence->0;
        let e2 = r2.evidence->0;
        if e1.0 < e2.0 {
            assert(g[e1.0 as int][e1.1 as int]);
        } else if e2.0 < e1.0 {
            assert(g[e2.0 as int][e2.1 as int]);
        } else if e1.1 < e2.1 {
            assert(g[e1.0 as int][e1.1 as int]);
        } else if e2.1 < e1.1 {
            assert(g[e2.0 as int][e2.1 as int]);
        }
    }
}

} // verus!
