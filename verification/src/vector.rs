//! Vector construction loop.

use crate::Lup;
use vstd::prelude::*;

verus! {

/// Vector construction loop.
///
/// The state is a fixed-size array, initially all zero; each step writes
/// the incoming value at the given index. The write is random-access, not
/// an append, so the loop may be driven by any index expression whose
/// values stay inside the array; the caller must see to that bound. The
/// loop never exits early. Sizes two to four are supported.
pub struct Vector<T>(pub T);

impl Lup<usize, i64> for Vector<[i64; 2]> {
    type Inner = [i64; 2];

    open spec fn start_rel(r: Self) -> bool {
        r.0@ =~= seq![0i64, 0i64]
    }

    open spec fn it_req(self, ind: usize, val: i64) -> bool {
        ind < 2
    }

    open spec fn it_rel(self, ind: usize, val: i64, post: Self, cont: bool) -> bool {
        &&& post.0@ == self.0@.update(ind as int, val)
        &&& cont
    }

    open spec fn unwrap_rel(self, r: [i64; 2]) -> bool {
        r@ == self.0@
    }

    fn start() -> (r: Self) {
        Vector([0i64, 0i64])
    }

    fn it(&mut self, ind: usize, val: i64) -> (cont: bool) {
        self.0[ind] = val;
        true
    }

    fn unwrap(self) -> (r: [i64; 2]) {
        self.0
    }
}

impl Lup<usize, i64> for Vector<[i64; 3]> {
    type Inner = [i64; 3];

    open spec fn start_rel(r: Self) -> bool {
        r.0@ =~= seq![0i64, 0i64, 0i64]
    }

    open spec fn it_req(self, ind: usize, val: i64) -> bool {
        ind < 3
    }

    open spec fn it_rel(self, ind: usize, val: i64, post: Self, cont: bool) -> bool {
        &&& post.0@ == self.0@.update(ind as int, val)
        &&& cont
    }

    open spec fn unwrap_rel(self, r: [i64; 3]) -> bool {
        r@ == self.0@
    }

    fn start() -> (r: Self) {
        Vector([0i64, 0i64, 0i64])
    }

    fn it(&mut self, ind: usize, val: i64) -> (cont: bool) {
        self.0[ind] = val;
        true
    }

    fn unwrap(self) -> (r: [i64; 3]) {
        self.0
    }
}

impl Lup<usize, i64> for Vector<[i64; 4]> {
    type Inner = [i64; 4];

    open spec fn start_rel(r: Self) -> bool {
        r.0@ =~= seq![0i64, 0i64, 0i64, 0i64]
    }

    open spec fn it_req(self, ind: usize, val: i64) -> bool {
        ind < 4
    }

    open spec fn it_rel(self, ind: usize, val: i64, post: Self, cont: bool) -> bool {
        &&& post.0@ == self.0@.update(ind as int, val)
        &&& cont
    }

    open spec fn unwrap_rel(self, r: [i64; 4]) -> bool {
        r@ == self.0@
    }

    fn start() -> (r: Self) {
        Vector([0i64, 0i64, 0i64, 0i64])
    }

    fn it(&mut self, ind: usize, val: i64) -> (cont: bool) {
        self.0[ind] = val;
        true
    }

    fn unwrap(self) -> (r: [i64; 4]) {
        self.0
    }
}

} // verus!
