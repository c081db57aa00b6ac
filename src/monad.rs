use vstd::prelude::*;
use crate::func::{eval, eval2, exact_clone, lemma_exact_clone, pure_fn, pure_fn2};

verus! {

/// A family of containers indexed by element type: `M` is the container of
/// `T`s, and `items(m)` what it holds, in order. For the families here, a
/// container is determined by its items.
pub trait FunctorFamily<T> {
    type M;

    spec fn items(m: Self::M) -> Seq<T>;
}

/// A family whose containers support `pure`, `lift_a2` and `apply`.
pub trait ApplicativeFamily<T>: FunctorFamily<T> {
}

/// A family whose containers support `bind` and `join`.
pub trait MonadFamily<T>: ApplicativeFamily<T> {
}

/// Pairs `s` and `t` position by position through `f`, for the shorter
/// length.
pub open spec fn zip_with<A, B, C, F: Fn(A, B) -> C>(s: Seq<A>, t: Seq<B>, f: F) -> Seq<C> {
    Seq::new(
        if s.len() <= t.len() { s.len() } else { t.len() },
        |i: int| eval2(f, s[i], t[i]),
    )
}

/// Applies each function of `fs` to the value of `s` at the same position,
/// for the shorter length.
pub open spec fn apply_each<A, B, F: Fn(A) -> B>(s: Seq<A>, fs: Seq<F>) -> Seq<B> {
    Seq::new(
        if s.len() <= fs.len() { s.len() } else { fs.len() },
        |i: int| eval(fs[i], s[i]),
    )
}

/// A container that can be mapped over.
pub trait Functor<A>: Sized {
    type FFamily: FunctorFamily<A, M = Self>;

    /// Applies `f` to every item.
    fn fmap<B, F: Fn(A) -> B>(self, f: F) -> (r: <Self::FFamily as FunctorFamily<B>>::M)
        where
            Self::FFamily: FunctorFamily<B>,
        requires
            pure_fn(f),
        ensures
            <Self::FFamily as FunctorFamily<B>>::items(r)
                == <Self::FFamily as FunctorFamily<A>>::items(self).map_values(|a: A| eval(f, a)),
            forall|i: int|
                0 <= i < <Self::FFamily as FunctorFamily<A>>::items(self).len() ==> f.ensures(
                    (<Self::FFamily as FunctorFamily<A>>::items(self)[i],),
                    #[trigger] <Self::FFamily as FunctorFamily<B>>::items(r)[i],
                ),
    ;

    /// Replaces every item with `b`.
    fn map_replace<B: Clone>(self, b: B) -> (r: <Self::FFamily as FunctorFamily<B>>::M)
        where
            Self::FFamily: FunctorFamily<B>,
        requires
            exact_clone::<B>(),
        ensures
            <Self::FFamily as FunctorFamily<B>>::items(r)
                == <Self::FFamily as FunctorFamily<A>>::items(self).map_values(|a: A| b),
    {
        let value = &b;
        let f = move |a: A| -> (r: B)
            requires
                exact_clone::<B>(),
            ensures
                r == *value,
            {
                let r = value.clone();
                proof {
                    lemma_exact_clone(value, &r);
                }
                r
            };
        let r = self.fmap::<B, _>(f);
        proof {
            let s = <Self::FFamily as FunctorFamily<A>>::items(self);
            let t = <Self::FFamily as FunctorFamily<B>>::items(r);
            assert forall|i: int| 0 <= i < s.len() implies t[i] == b by {
                assert(f.ensures((s[i],), t[i]));
            }
            assert(t =~= s.map_values(|a: A| b));
        }
        r
    }
}

/// A container with a way to wrap one value, and to combine two containers
/// item by item.
pub trait Applicative<A>: Functor<A> {
    type AFamily: ApplicativeFamily<A, M = Self>;

    /// The container that holds just `a`.
    fn pure(a: A) -> (r: Self)
        ensures
            <Self::AFamily as FunctorFamily<A>>::items(r) == seq![a],
    ;

    /// Combines the items of `self` and `other` position by position
    /// through `f`, for the shorter of the two.
    fn lift_a2<B, C, F: Fn(A, B) -> C>(
        self,
        other: <Self::AFamily as FunctorFamily<B>>::M,
        f: F,
    ) -> (r: <Self::AFamily as FunctorFamily<C>>::M)
        where
            Self::AFamily: ApplicativeFamily<B> + ApplicativeFamily<C>,
        requires
            pure_fn2(f),
        ensures
            <Self::AFamily as FunctorFamily<C>>::items(r) == zip_with(
                <Self::AFamily as FunctorFamily<A>>::items(self),
                <Self::AFamily as FunctorFamily<B>>::items(other),
                f,
            ),
    ;

    /// Applies each function held by `func` to the item of `self` at the
    /// same position, for the shorter of the two.
    fn apply<B, F: Fn(A) -> B>(self, func: <Self::AFamily as FunctorFamily<F>>::M) -> (r:
        <Self::AFamily as FunctorFamily<B>>::M)
        where
            Self::AFamily: ApplicativeFamily<B> + ApplicativeFamily<F>,
        requires
            forall|g: F| #[trigger] pure_fn(g),
        ensures
            <Self::AFamily as FunctorFamily<B>>::items(r) == apply_each(
                <Self::AFamily as FunctorFamily<A>>::items(self),
                <Self::AFamily as FunctorFamily<F>>::items(func),
            ),
    ;
}

/// A container whose items can each be replaced by a container, and the
/// results joined.
pub trait Monad<A>: Applicative<A> {
    type MFamily: MonadFamily<A, M = Self>;

    /// Replaces each item `a` by the items of `f(a)`, in order.
    fn bind<B, F: Fn(A) -> <Self::MFamily as FunctorFamily<B>>::M>(self, f: F) -> (r:
        <Self::MFamily as FunctorFamily<B>>::M)
        where
            Self::MFamily: MonadFamily<B>,
        requires
            pure_fn(f),
        ensures
            <Self::MFamily as FunctorFamily<B>>::items(r) == <Self::MFamily as FunctorFamily<
                A,
            >>::items(self).map_values(
                |a: A| <Self::MFamily as FunctorFamily<B>>::items(eval(f, a)),
            ).flatten(),
    ;

    /// Joins a container of containers into one.
    fn join(mma: <Self::MFamily as FunctorFamily<Self>>::M) -> (r: Self)
        where
            Self::MFamily: MonadFamily<Self>,
        ensures
            <Self::MFamily as FunctorFamily<A>>::items(r) == <Self::MFamily as FunctorFamily<
                Self,
            >>::items(mma).map_values(|m: Self| <Self::MFamily as FunctorFamily<A>>::items(m)).flatten(),
    ;
}

} // verus!
