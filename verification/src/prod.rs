//! Product loop.

use crate::Lup;
use vstd::prelude::*;

verus! {

/// Product loop.
///
/// Folds values by multiplication; the state is the running product,
/// starting at one. It never exits early and its result carries no evidence.
pub struct Prod<T>(pub T);

/// The product of a sequence of values, multiplied in index order.
pub open spec fn prod_int(s: Seq<i64>) -> int
    decreases s.len(),
{
    if s.len() == 0 {
        1
    } else {
        prod_int(s.drop_last()) * s.last()
    }
}

/// Adding one more element extends the product of a prefix by that element.
pub proof fn lemma_prod_int_take_step(s: Seq<i64>, k: int)
    requires
        0 <= k < s.len(),
    ensures
        prod_int(s.take(k + 1)) == prod_int(s.take(k)) * s[k],
{
    assert(s.take(k + 1).drop_last() =~= s.take(k));
}

impl Lup<usize, i64> for Prod<i64> {
    type Inner = i64;

    open spec fn start_rel(r: Self) -> bool {
        r.0 == 1
    }

    open spec fn it_req(self, ind: usize, val: i64) -> bool {
        i64::MIN <= self.0 * val <= i64::MAX
    }

    open spec fn it_rel(self, ind: usize, val: i64, post: Self, cont: bool) -> bool {
        &&& post.0 == self.0 * val
        &&& cont
    }

    open spec fn unwrap_rel(self, r: i64) -> bool {
        r == self.0
    }

    fn start() -> (r: Self) {
        Prod(1)
    }

    fn it(&mut self, ind: usize, val: i64) -> (cont: bool) {
        self.0 = self.0 * val;
        true
    }

    fn unwrap(self) -> (r: i64) {
        self.0
    }
}

impl Lup<usize, [i64; 2]> for Prod<[i64; 2]> {
    type Inner = [i64; 2];

    open spec fn start_rel(r: Self) -> bool {
        r.0@ =~= seq![1i64, 1i64]
    }

    open spec fn it_req(self, ind: usize, val: [i64; 2]) -> bool {
        forall|k: int| 0 <= k < 2 ==> i64::MIN <= (#[trigger] self.0[k]) * val[k] <= i64::MAX
    }

    open spec fn it_rel(self, ind: usize, val: [i64; 2], post: Self, cont: bool) -> bool {
        &&& forall|k: int| 0 <= k < 2 ==> (#[trigger] post.0[k]) == self.0[k] * val[k]
        &&& cont
    }

    open spec fn unwrap_rel(self, r: [i64; 2]) -> bool {
        r@ == self.0@
    }

    fn start() -> (r: Self) {
        Prod([1i64, 1i64])
    }

    fn it(&mut self, ind: usize, val: [i64; 2]) -> (cont: bool) {
        self.0 = [self.0[0] * val[0], self.0[1] * val[1]];
        true
    }

    fn unwrap(self) -> (r: [i64; 2]) {
        self.0
    }
}

impl Lup<usize, [i64; 3]> for Prod<[i64; 3]> {
    type Inner = [i64; 3];

    open spec fn start_rel(r: Self) -> bool {
        r.0@ =~= seq![1i64, 1i64, 1i64]
    }

    open spec fn it_req(self, ind: usize, val: [i64; 3]) -> bool {
        forall|k: int| 0 <= k < 3 ==> i64::MIN <= (#[trigger] self.0[k]) * val[k] <= i64::MAX
    }

    open spec fn it_rel(self, ind: usize, val: [i64; 3], post: Self, cont: bool) -> bool {
        &&& forall|k: int| 0 <= k < 3 ==> (#[trigger] post.0[k]) == self.0[k] * val[k]
        &&& cont
    }

    open spec fn unwrap_rel(self, r: [i64; 3]) -> bool {
        r@ == self.0@
    }

    fn start() -> (r: Self) {
        Prod([1i64, 1i64, 1i64])
    }

    fn it(&mut self, ind: usize, val: [i64; 3]) -> (cont: bool) {
        self.0 = [self.0[0] * val[0], self.0[1] * val[1], self.0[2] * val[2]];
        true
    }

    fn unwrap(self) -> (r: [i64; 3]) {
        self.0
    }
}

impl Lup<usize, [i64; 4]> for Prod<[i64; 4]> {
    type Inner = [i64; 4];

    open spec fn start_rel(r: Self) -> bool {
        r.0@ =~= seq![1i64, 1i64, 1i64, 1i64]
    }

    open spec fn it_req(self, ind: usize, val: [i64; 4]) -> bool {
        forall|k: int| 0 <= k < 4 ==> i64::MIN <= (#[trigger] self.0[k]) * val[k] <= i64::MAX
    }

    open spec fn it_rel(self, ind: usize, val: [i64; 4], post: Self, cont: bool) -> bool {
        &&& forall|k: int| 0 <= k < 4 ==> (#[trigger] post.0[k]) == self.0[k] * val[k]
        &&& cont
    }

    open spec fn unwrap_rel(self, r: [i64; 4]) -> bool {
        r@ == self.0@
    }

    fn start() -> (r: Self) {
        Prod([1i64, 1i64, 1i64, 1i64])
    }

    fn it(&mut self, ind: usize, val: [i64; 4]) -> (cont: bool) {
        self.0 = [self.0[0] * val[0], self.0[1] * val[1], self.0[2] * val[2], self.0[3] * val[3]];
        true
    }

    fn unwrap(self) -> (r: [i64; 4]) {
        self.0
    }
}

/// Runs the [`Prod`] accumulator over a whole list and returns the product
/// of its elements, multiplied in index order.
pub fn prod_list(v: &Vec<i64>) -> (r: i64)
    requires
        forall|k: int|
            0 <= k <= v@.len() ==> i64::MIN <= prod_int(#[trigger] v@.take(k)) <= i64::MAX,
    ensures
        r == prod_int(v@),
{
    let mut acc: Prod<i64> = Lup::start();
    let mut i: usize = 0;
    while i < v.len()
        invariant
            i <= v@.len(),
            acc.0 == prod_int(v@.take(i as int)),
            forall|k: int|
                0 <= k <= v@.len() ==> i64::MIN <= prod_int(#[trigger] v@.take(k)) <= i64::MAX,
        decreases v@.len() - i,
    {
        proof {
            lemma_prod_int_take_step(v@, i as int);
        }
        let _cont = acc.it(i, v[i]);
        i = i + 1;
    }
    proof {
        assert(v@.take(v@.len() as int) =~= v@);
    }
    acc.unwrap()
}

/// The product of all cells of a table: the rows' products, multiplied in
/// row order.
pub open spec fn prod_table_int(g: Seq<Seq<i64>>) -> int
    decreases g.len(),
{
    if g.len() == 0 {
        1
    } else {
        prod_table_int(g.drop_last()) * prod_int(g.last())
    }
}

/// Adding one more row extends the product of a prefix of rows by that
/// row's product.
pub proof fn lemma_prod_table_int_take_step(g: Seq<Seq<i64>>, k: int)
    requires
        0 <= k < g.len(),
    ensures
        prod_table_int(g.take(k + 1)) == prod_table_int(g.take(k)) * prod_int(g[k]),
{
    assert(g.take(k + 1).drop_last() =~= g.take(k));
}

/// Splitting a sequence at any point splits its product.
pub proof fn lemma_prod_int_append(a: Seq<i64>, b: Seq<i64>)
    ensures
        prod_int(a + b) == prod_int(a) * prod_int(b),
    decreases b.len(),
{
    if b.len() == 0 {
        assert(a + b =~= a);
    } else {
        lemma_prod_int_append(a, b.drop_last());
        assert((a + b).drop_last() =~= a + b.drop_last());
        assert(prod_int(a) * prod_int(b.drop_last()) * b.last() == prod_int(a) * (prod_int(
            b.drop_last(),
        ) * b.last())) by (nonlinear_arith);
    }
}

/// Multiplying a table row by row agrees with direct flattened iteration:
/// the product of the rows' products is the product over all cells in
/// row-major order.
pub proof fn lemma_prod_table_int_flatten(g: Seq<Seq<i64>>)
    ensures
        prod_table_int(g) == prod_int(g.flatten()),
    decreases g.len(),
{
    g.lemma_flatten_and_flatten_alt_are_equivalent();
    if g.len() > 0 {
        lemma_prod_table_int_flatten(g.drop_last());
        g.drop_last().lemma_flatten_and_flatten_alt_are_equivalent();
        lemma_prod_int_append(g.drop_last().flatten_alt(), g.last());
    }
}

/// Runs a nested [`Prod`] loop over a table: an inner `Prod` over each row,
/// folded into an outer `Prod` of the row products. The result is the
/// product over all cells in row-major order.
pub fn prod_table(v: &Vec<Vec<i64>>) -> (r: i64)
    requires
        forall|i: int, k: int|
            0 <= i < v.deep_view().len() && 0 <= k <= v.deep_view()[i].len() ==> i64::MIN
                <= prod_int(#[trigger] v.deep_view()[i].take(k)) <= i64::MAX,
        forall|k: int|
            0 <= k <= v.deep_view().len() ==> i64::MIN <= prod_table_int(
                #[trigger] v.deep_view().take(k),
            ) <= i64::MAX,
    ensures
        r == prod_table_int(v.deep_view()),
        r == prod_int(v.deep_view().flatten()),
{
    let ghost g: Seq<Seq<i64>> = v.deep_view();
    proof {
        lemma_prod_table_int_flatten(g);
        assert(forall|i: int| 0 <= i < v@.len() ==> #[trigger] g[i] =~= v@[i]@);
    }
    let mut acc: Prod<i64> = Lup::start();
    let mut i: usize = 0;
    while i < v.len()
        invariant
            i <= v@.len(),
            g == v.deep_view(),
            g.len() == v@.len(),
            forall|k: int| 0 <= k < v@.len() ==> #[trigger] g[k] =~= v@[k]@,
            acc.0 == prod_table_int(g.take(i as int)),
            forall|i2: int, k: int|
                0 <= i2 < g.len() && 0 <= k <= g[i2].len() ==> i64::MIN <= prod_int(
                    #[trigger] g[i2].take(k),
                ) <= i64::MAX,
            forall|k: int|
                0 <= k <= g.len() ==> i64::MIN <= prod_table_int(#[trigger] g.take(k)) <= i64::MAX,
        decreases v@.len() - i,
    {
        proof {
            assert forall|k: int| 0 <= k <= v@[i as int]@.len() implies i64::MIN <= prod_int(
                #[trigger] v@[i as int]@.take(k),
            ) <= i64::MAX by {
                assert(v@[i as int]@.take(k) == g[i as int].take(k));
            }
        }
        let row = prod_list(&v[i]);
        proof {
            lemma_prod_table_int_take_step(g, i as int);
        }
        let _cont = acc.it(i, row);
        i = i + 1;
    }
    proof {
        assert(g.take(g.len() as int) =~= g);
    }
    acc.unwrap()
}

/// Determinism of the product: the contract of [`prod_list`] pins its result, so
/// re-running it over the same input yields the same value.
pub proof fn lemma_prod_deterministic(s: Seq<i64>, r1: i64, r2: i64)
    requires
        r1 == prod_int(s),
        r2 == prod_int(s),
    ensures
        r1 == r2,
{
}

} // verus!
