//! Plain indexed for-loop.

use crate::Lup;
use vstd::prelude::*;

verus! {

/// Indexed for-loop.
///
/// An accumulator that keeps nothing: each step is run for its own sake and
/// the result is the unit value. The loop never exits early.
pub struct For;

impl Lup<usize, ()> for For {
    type Inner = ();

    open spec fn start_rel(r: Self) -> bool {
        true
    }

    open spec fn it_req(self, ind: usize, val: ()) -> bool {
        true
    }

    open spec fn it_rel(self, ind: usize, val: (), post: Self, cont: bool) -> bool {
        cont
    }

    open spec fn unwrap_rel(self, r: ()) -> bool {
        true
    }

    fn start() -> (r: Self) {
        For
    }

    fn it(&mut self, ind: usize, val: ()) -> (cont: bool) {
        true
    }

    fn unwrap(self) -> (r: ()) {
    }
}

} // verus!
