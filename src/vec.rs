use vstd::prelude::*;
use crate::func::{eval, eval2, lemma_eval, lemma_eval2, pure_fn, pure_fn2};
use crate::monad::{
    apply_each, zip_with, Applicative, ApplicativeFamily, Functor, FunctorFamily, Monad, MonadFamily,
};
use crate::stream::reversed;

verus! {

/// The family of `Vec`s: a vector holds its elements, in order.
pub struct VecFamily;

impl<T> FunctorFamily<T> for VecFamily {
    type M = Vec<T>;

    open spec fn items(m: Vec<T>) -> Seq<T> {
        m@
    }
}

impl<T> ApplicativeFamily<T> for VecFamily {
}

impl<T> MonadFamily<T> for VecFamily {
}

impl<A> Functor<A> for Vec<A> {
    type FFamily = VecFamily;

    fn fmap<B, F: Fn(A) -> B>(self, f: F) -> (r: <VecFamily as FunctorFamily<B>>::M) {
        let ghost s = self@;
        let mut rest = reversed(self);
        let mut out: Vec<B> = Vec::new();
        while rest.len() > 0
            invariant
                pure_fn(f),
                out.len() + rest.len() == s.len(),
                forall|i: int| 0 <= i < rest.len() ==> #[trigger] rest@[i] == s[s.len() - 1 - i],
                forall|i: int|
                    0 <= i < out.len() ==> #[trigger] out@[i] == eval(f, s[i]) && f.ensures(
                        (s[i],),
                        out@[i],
                    ),
            decreases rest.len(),
        {
            let a = rest.pop().unwrap();
            let b = f(a);
            proof {
                lemma_eval(f, a, b);
            }
            out.push(b);
        }
        proof {
            assert(out@ =~= s.map_values(|a: A| eval(f, a)));
            assert(<VecFamily as FunctorFamily<B>>::items(out) == out@);
            assert(<VecFamily as FunctorFamily<A>>::items(self) == s);
        }
        out
    }
}

impl<A> Applicative<A> for Vec<A> {
    type AFamily = VecFamily;

    fn pure(a: A) -> (r: Self) {
        let mut v = Vec::new();
        v.push(a);
        proof {
            assert(v@ =~= seq![a]);
        }
        v
    }

    fn lift_a2<B, C, F: Fn(A, B) -> C>(self, other: <VecFamily as FunctorFamily<B>>::M, f: F) -> (r:
        <VecFamily as FunctorFamily<C>>::M) {
        let ghost s = self@;
        let ghost t = other@;
        let mut xs = reversed(self);
        let mut ys = reversed(other);
        let mut out: Vec<C> = Vec::new();
        while xs.len() > 0 && ys.len() > 0
            invariant
                pure_fn2(f),
                out.len() + xs.len() == s.len(),
                out.len() + ys.len() == t.len(),
                forall|i: int| 0 <= i < xs.len() ==> #[trigger] xs@[i] == s[s.len() - 1 - i],
                forall|i: int| 0 <= i < ys.len() ==> #[trigger] ys@[i] == t[t.len() - 1 - i],
                forall|i: int| 0 <= i < out.len() ==> #[trigger] out@[i] == eval2(f, s[i], t[i]),
            decreases xs.len(),
        {
            let a = xs.pop().unwrap();
            let b = ys.pop().unwrap();
            let c = f(a, b);
            proof {
                lemma_eval2(f, a, b, c);
            }
            out.push(c);
        }
        proof {
            assert(out@ =~= zip_with(s, t, f));
        }
        out
    }

    fn apply<B, F: Fn(A) -> B>(self, func: <VecFamily as FunctorFamily<F>>::M) -> (r:
        <VecFamily as FunctorFamily<B>>::M) {
        let ghost s = self@;
        let ghost t = func@;
        let mut xs = reversed(self);
        let mut gs = reversed(func);
        let mut out: Vec<B> = Vec::new();
        while xs.len() > 0 && gs.len() > 0
            invariant
                forall|g: F| #[trigger] pure_fn(g),
                out.len() + xs.len() == s.len(),
                out.len() + gs.len() == t.len(),
                forall|i: int| 0 <= i < xs.len() ==> #[trigger] xs@[i] == s[s.len() - 1 - i],
                forall|i: int| 0 <= i < gs.len() ==> #[trigger] gs@[i] == t[t.len() - 1 - i],
                forall|i: int| 0 <= i < out.len() ==> #[trigger] out@[i] == eval(t[i], s[i]),
            decreases xs.len(),
        {
            let a = xs.pop().unwrap();
            let g = gs.pop().unwrap();
            proof {
                assert(pure_fn(g));
            }
            let b = g(a);
            proof {
                lemma_eval(g, a, b);
            }
            out.push(b);
        }
        proof {
            assert(out@ =~= apply_each(s, t));
        }
        out
    }
}

impl<A> Monad<A> for Vec<A> {
    type MFamily = VecFamily;

    fn bind<B, F: Fn(A) -> Vec<B>>(self, f: F) -> (r: <VecFamily as FunctorFamily<B>>::M) {
        let ghost s = self@;
        let ghost parts = s.map_values(|a: A| <VecFamily as FunctorFamily<B>>::items(eval(f, a)));
        let mut rest = reversed(self);
        let mut out: Vec<B> = Vec::new();
        proof {
            assert(parts.take(0) =~= Seq::<Seq<B>>::empty());
        }
        while rest.len() > 0
            invariant
                pure_fn(f),
                parts == s.map_values(|a: A| <VecFamily as FunctorFamily<B>>::items(eval(f, a))),
                rest.len() <= s.len(),
                forall|i: int| 0 <= i < rest.len() ==> #[trigger] rest@[i] == s[s.len() - 1 - i],
                out@ == parts.take(s.len() - rest.len()).flatten(),
            decreases rest.len(),
        {
            let ghost k = s.len() - rest.len();
            let a = rest.pop().unwrap();
            let mut part = f(a);
            proof {
                lemma_eval(f, a, part);
                assert(parts[k] == part@);
                assert(parts.take(k + 1) =~= parts.take(k).push(parts[k]));
                parts.take(k).lemma_flatten_push(parts[k]);
            }
            out.append(&mut part);
        }
        proof {
            assert(parts.take(s.len() as int) =~= parts);
        }
        out
    }

    fn join(mma: <VecFamily as FunctorFamily<Self>>::M) -> (r: Self) {
        let ghost s = mma@;
        let ghost parts = s.map_values(|m: Self| <VecFamily as FunctorFamily<A>>::items(m));
        let mut rest = reversed(mma);
        let mut out: Vec<A> = Vec::new();
        proof {
            assert(parts.take(0) =~= Seq::<Seq<A>>::empty());
        }
        while rest.len() > 0
            invariant
                parts == s.map_values(|m: Self| <VecFamily as FunctorFamily<A>>::items(m)),
                rest.len() <= s.len(),
                forall|i: int| 0 <= i < rest.len() ==> #[trigger] rest@[i] == s[s.len() - 1 - i],
                out@ == parts.take(s.len() - rest.len()).flatten(),
            decreases rest.len(),
        {
            let ghost k = s.len() - rest.len();
            let mut part = rest.pop().unwrap();
            proof {
                assert(parts[k] == part@);
                assert(parts.take(k + 1) =~= parts.take(k).push(parts[k]));
                parts.take(k).lemma_flatten_push(parts[k]);
            }
            out.append(&mut part);
        }
        proof {
            assert(parts.take(s.len() as int) =~= parts);
        }
        out
    }
}

} // verus!
