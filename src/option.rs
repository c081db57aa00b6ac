use vstd::prelude::*;
use crate::func::{eval, lemma_eval, lemma_eval2, pure_fn};
use crate::monad::{
    apply_each, zip_with, Applicative, ApplicativeFamily, Functor, FunctorFamily, Monad, MonadFamily,
};

verus! {

/// The family of `Option`s: `Some(x)` holds `x`, `None` holds nothing.
pub struct OptionFamily;

impl<T> FunctorFamily<T> for OptionFamily {
    type M = Option<T>;

    open spec fn items(m: Option<T>) -> Seq<T> {
        match m {
            Some(x) => seq![x],
            None => Seq::empty(),
        }
    }
}

impl<T> ApplicativeFamily<T> for OptionFamily {
}

impl<T> MonadFamily<T> for OptionFamily {
}

impl<A> Functor<A> for Option<A> {
    type FFamily = OptionFamily;

    fn fmap<B, F: Fn(A) -> B>(self, f: F) -> (r: <OptionFamily as FunctorFamily<B>>::M) {
        match self {
            Some(a) => {
                let b = f(a);
                proof {
                    lemma_eval(f, a, b);
                    assert(seq![a].map_values(|a: A| eval(f, a)) =~= seq![b]);
                    assert(<OptionFamily as FunctorFamily<B>>::items(Some(b)) == seq![b]);
                    assert(<OptionFamily as FunctorFamily<A>>::items(Some(a)) == seq![a]);
                }
                Some(b)
            },
            None => {
                proof {
                    assert(Seq::<A>::empty().map_values(|a: A| eval(f, a)) =~= Seq::<B>::empty());
                }
                None
            },
        }
    }
}

impl<A> Applicative<A> for Option<A> {
    type AFamily = OptionFamily;

    fn pure(a: A) -> (r: Self) {
        Some(a)
    }

    fn lift_a2<B, C, F: Fn(A, B) -> C>(self, other: <OptionFamily as FunctorFamily<B>>::M, f: F) -> (r:
        <OptionFamily as FunctorFamily<C>>::M) {
        match (self, other) {
            (Some(a), Some(b)) => {
                let c = f(a, b);
                proof {
                    lemma_eval2(f, a, b, c);
                    assert(zip_with(seq![a], seq![b], f) =~= seq![c]);
                }
                Some(c)
            },
            _ => {
                proof {
                    assert(zip_with(OptionFamily::items(self), OptionFamily::items(other), f)
                        =~= Seq::<C>::empty());
                }
                None
            },
        }
    }

    fn apply<B, F: Fn(A) -> B>(self, func: <OptionFamily as FunctorFamily<F>>::M) -> (r:
        <OptionFamily as FunctorFamily<B>>::M) {
        let ghost fs = <OptionFamily as FunctorFamily<F>>::items(func);
        match (self, func) {
            (Some(a), Some(g)) => {
                proof {
                    assert(fs =~= seq![g]);
                    assert(pure_fn(g));
                }
                let b = g(a);
                proof {
                    lemma_eval(g, a, b);
                    assert(apply_each(seq![a], seq![g]) =~= seq![b]);
                }
                Some(b)
            },
            _ => {
                proof {
                    assert(apply_each(OptionFamily::items(self), OptionFamily::items(func))
                        =~= Seq::<B>::empty());
                }
                None
            },
        }
    }
}

impl<A> Monad<A> for Option<A> {
    type MFamily = OptionFamily;

    fn bind<B, F: Fn(A) -> Option<B>>(self, f: F) -> (r:
        <OptionFamily as FunctorFamily<B>>::M) {
        match self {
            Some(a) => {
                let r = f(a);
                proof {
                    lemma_eval(f, a, r);
                    let parts = seq![a].map_values(|a: A| OptionFamily::items(eval(f, a)));
                    assert(parts =~= seq![OptionFamily::items(r)]);
                    parts.lemma_flatten_singleton();
                }
                r
            },
            None => {
                proof {
                    let parts = Seq::<A>::empty().map_values(|a: A| OptionFamily::items(eval(f, a)));
                    assert(parts =~= Seq::<Seq<B>>::empty());
                }
                None
            },
        }
    }

    fn join(mma: <OptionFamily as FunctorFamily<Self>>::M) -> (r: Self) {
        match mma {
            Some(m) => {
                proof {
                    let parts = seq![m].map_values(|m: Self| OptionFamily::items(m));
                    assert(parts =~= seq![OptionFamily::items(m)]);
                    parts.lemma_flatten_singleton();
                }
                m
            },
            None => {
                proof {
                    let parts = Seq::<Self>::empty().map_values(|m: Self| OptionFamily::items(m));
                    assert(parts =~= Seq::<Seq<A>>::empty());
                }
                None
            },
        }
    }
}

} // verus!
