use vstd::prelude::*;

verus! {

/// One of two values: a full value on the left or a delta on the right.
#[derive(Debug, PartialEq, Eq)]
pub enum Either<L, R> {
    Left(L),
    Right(R),
}

impl<L, R> Either<L, R> {
    pub fn is_left(&self) -> (r: bool)
        ensures
            r == (*self is Left),
    {
        match self {
            Either::Left(_) => true,
            Either::Right(_) => false,
        }
    }

    pub fn unwrap_left(self) -> (r: L)
        requires
            self is Left,
        ensures
            Either::<L, R>::Left(r) == self,
    {
        match self {
            Either::Left(l) => l,
            Either::Right(_) => { proof { assert(false); } unreached() },
        }
    }

    pub fn unwrap_right(self) -> (r: R)
        requires
            self is Right,
        ensures
            Either::<L, R>::Right(r) == self,
    {
        match self {
            Either::Right(r) => r,
            Either::Left(_) => { proof { assert(false); } unreached() },
        }
    }
}

} // verus!
