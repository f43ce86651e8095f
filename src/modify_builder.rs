//! Optional steps in a chain of builder calls.
use vstd::prelude::*;

verus! {

/// Applies a builder step only when there is data for it.
pub trait ModifyBuilder: Sized {
    /// `f(self, d)` when `data` is `Some(d)`, and `self` unchanged otherwise.
    fn modify<D, F: Fn(Self, D) -> Self>(self, data: Option<D>, f: F) -> (r: Self)
        requires
            data matches Some(d) ==> f.requires((self, d)),
        ensures
            data matches Some(d) ==> f.ensures((self, d), r),
            data is None ==> r == self,
    {
        match data {
            Some(d) => f(self, d),
            None => self,
        }
    }
}

} // verus!
