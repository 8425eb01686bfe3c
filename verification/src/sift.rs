//! List construction loop.

use crate::Lup;
use vstd::prelude::*;

verus! {

/// A loop that creates a list.
///
/// The state is a growing list; each step appends the incoming value, so
/// the result holds the values in index order. The loop never exits early.
pub struct Sift<T>(pub T);

impl<T> Lup<usize, T> for Sift<Vec<T>> {
    type Inner = Vec<T>;

    open spec fn start_rel(r: Self) -> bool {
        r.0@ == Seq::<T>::empty()
    }

    open spec fn it_req(self, ind: usize, val: T) -> bool {
        true
    }

    open spec fn it_rel(self, ind: usize, val: T, post: Self, cont: bool) -> bool {
        &&& post.0@ == self.0@.push(val)
        &&& cont
    }

    open spec fn unwrap_rel(self, r: Vec<T>) -> bool {
        r@ == self.0@
    }

    fn start() -> (r: Self) {
        Sift(Vec::new())
    }

    fn it(&mut self, ind: usize, val: T) -> (cont: bool) {
        self.0.push(val);
        true
    }

    fn unwrap(self) -> (r: Vec<T>) {
        self.0
    }
}

} // verus!
