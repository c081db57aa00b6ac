use vstd::prelude::*;
use crate::func::{eval, eval2, lemma_eval, lemma_eval2, pure_fn, pure_fn2};

verus! {

/// A value of one of two types: `Left` or `Right`, never both.
#[derive(Debug, PartialEq, Eq)]
pub enum Either<L, R> {
    Left(L),
    Right(R),
}

impl<L, R> Either<L, R> {
    /// The same value with its two sides exchanged.
    pub open spec fn swapped(self) -> Either<R, L> {
        match self {
            Either::Left(l) => Either::Right(l),
            Either::Right(r) => Either::Left(r),
        }
    }

    pub fn flip(self) -> (r: Either<R, L>)
        ensures
            r == self.swapped(),
    {
        match self {
            Either::Left(left) => Either::Right(left),
            Either::Right(right) => Either::Left(right),
        }
    }

    /// Applies `f` to a `Right` payload; a `Left` is kept as it is.
    pub fn fmap<B, F: Fn(R) -> B>(self, f: F) -> (r: Either<L, B>)
        requires
            pure_fn(f),
        ensures
            r == match self {
                Either::Left(l) => Either::<L, B>::Left(l),
                Either::Right(x) => Either::<L, B>::Right(eval(f, x)),
            },
    {
        match self {
            Either::Right(x) => {
                let b = f(x);
                proof {
                    lemma_eval(f, x, b);
                }
                Either::Right(b)
            },
            Either::Left(l) => Either::Left(l),
        }
    }

    /// Wraps a value as a `Right`.
    pub fn pure(value: R) -> (r: Self)
        ensures
            r == Either::<L, R>::Right(value),
    {
        Either::Right(value)
    }

    /// Combines two `Right` payloads through `f`; otherwise the first `Left`
    /// of the two is the result.
    pub fn lift_a2<B, C, F: Fn(R, B) -> C>(self, other: Either<L, B>, f: F) -> (r: Either<L, C>)
        requires
            pure_fn2(f),
        ensures
            r == match (self, other) {
                (Either::Right(x), Either::Right(y)) => Either::<L, C>::Right(eval2(f, x, y)),
                (Either::Left(l), _) => Either::<L, C>::Left(l),
                (Either::Right(_), Either::Left(l)) => Either::<L, C>::Left(l),
            },
    {
        match (self, other) {
            (Either::Right(x), Either::Right(y)) => {
                let c = f(x, y);
                proof {
                    lemma_eval2(f, x, y, c);
                }
                Either::Right(c)
            },
            (Either::Left(l), _) => Either::Left(l),
            (_, Either::Left(l)) => Either::Left(l),
        }
    }

    /// Continues with `f` on a `Right` payload; a `Left` is kept as it is.
    pub fn bind<B, F: Fn(R) -> Either<L, B>>(self, f: F) -> (r: Either<L, B>)
        requires
            pure_fn(f),
        ensures
            r == match self {
                Either::Left(l) => Either::<L, B>::Left(l),
                Either::Right(x) => eval(f, x),
            },
    {
        match self {
            Either::Right(x) => {
                let r = f(x);
                proof {
                    lemma_eval(f, x, r);
                }
                r
            },
            Either::Left(l) => Either::Left(l),
        }
    }

    pub fn ok(self) -> (r: Option<R>)
        ensures
            r == match self {
                Either::Left(_) => None,
                Either::Right(right) => Some(right),
            },
    {
        match self {
            Either::Right(right) => Some(right),
            Either::Left(_) => None,
        }
    }
}

/// `(true, v)` is `Right(v)` and `(false, v)` is `Left(v)`.
impl<A> From<(bool, A)> for Either<A, A> {
    fn from(p: (bool, A)) -> (r: Self) {
        let (b, value) = p;
        if b {
            Either::Right(value)
        } else {
            Either::Left(value)
        }
    }
}

impl<A> vstd::std_specs::convert::FromSpecImpl<(bool, A)> for Either<A, A> {
    open spec fn obeys_from_spec() -> bool {
        true
    }

    open spec fn from_spec(p: (bool, A)) -> Self {
        if p.0 {
            Either::Right(p.1)
        } else {
            Either::Left(p.1)
        }
    }
}

/// `true` is `Right(())` and `false` is `Left(())`.
impl From<bool> for Either<(), ()> {
    fn from(b: bool) -> (r: Self) {
        if b {
            Either::Right(())
        } else {
            Either::Left(())
        }
    }
}

impl vstd::std_specs::convert::FromSpecImpl<bool> for Either<(), ()> {
    open spec fn obeys_from_spec() -> bool {
        true
    }

    open spec fn from_spec(b: bool) -> Self {
        if b {
            Either::Right(())
        } else {
            Either::Left(())
        }
    }
}

} // verus!
