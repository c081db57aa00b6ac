use vstd::prelude::*;
use vstd::pervasive::strictly_cloned;
use crate::either::Either;
use crate::func::{
    eval, exact_clone, lemma_eval, lemma_eval2, lemma_running_len, lemma_scan_len, pure_fn,
    pure_fn2, running, scan,
};
use crate::stream::{
    firsts, interleave, lefts, lemma_either_cons, lemma_interleave_cons, lemma_interleave_len,
    lemma_merge_cons, lemma_merge_len, lemma_merge_parts, lemma_pairs_cons, lemma_zip_cons, merge, reversed,
    rights, seconds, tags, zip,
};

verus! {

/// A stream transformer from `A` to `B`: stepping it on one input gives one
/// output, and the transformer to step on the next input.
///
/// `outputs(xs)` is the sequence it emits when driven over `xs` from its
/// present state, one output per input.
pub trait Circuit<A, B>: Sized {
    /// The internal state is consistent.
    spec fn wf(&self) -> bool;

    spec fn outputs(&self, xs: Seq<A>) -> Seq<B>;

    proof fn lemma_outputs_len(&self, xs: Seq<A>)
        requires
            self.wf(),
        ensures
            self.outputs(xs).len() == xs.len(),
    ;

    /// Steps on `a`: the transformer for the next input, and the output. The
    /// output is the first of `outputs`, and the new transformer emits the
    /// rest.
    fn call(self, a: A) -> (r: (Self, B))
        requires
            self.wf(),
        ensures
            r.0.wf(),
            forall|xs: Seq<A>| #[trigger] self.outputs(seq![a] + xs) == seq![r.1] + r.0.outputs(xs),
    ;

    /// The output of one step on `a`.
    fn output(self, a: A) -> (r: B)
        requires
            self.wf(),
        ensures
            self.outputs(seq![a]) == seq![r],
    {
        let (next, b) = self.call(a);
        proof {
            let none = Seq::<A>::empty();
            assert(seq![a] + none =~= seq![a]);
            assert(self.outputs(seq![a] + none) == seq![b] + next.outputs(none));
            next.lemma_outputs_len(none);
            assert(seq![b] + next.outputs(none) =~= seq![b]);
        }
        b
    }

    /// Drives the transformer over `xs`, one step per input, and collects
    /// the outputs.
    fn run(self, xs: Vec<A>) -> (r: Vec<B>)
        requires
            self.wf(),
        ensures
            r@ == self.outputs(xs@),
    {
        let ghost all = xs@;
        let mut pending = reversed(xs);
        let mut c = self;
        let mut out: Vec<B> = Vec::new();
        proof {
            assert(all.subrange(0, all.len() as int) =~= all);
            assert(out@ + self.outputs(all) =~= self.outputs(all));
        }
        while pending.len() > 0
            invariant
                c.wf(),
                out.len() + pending.len() == all.len(),
                forall|i: int| 0 <= i < pending.len() ==> #[trigger] pending@[i] == all[all.len() - 1 - i],
                out@ + c.outputs(all.subrange(out.len() as int, all.len() as int)) == self.outputs(all),
            decreases pending.len(),
        {
            let x = pending.pop().unwrap();
            let ghost k = out.len() as int;
            let ghost rest = all.subrange(k + 1, all.len() as int);
            let ghost before = c;
            let (next, y) = c.call(x);
            proof {
                assert(all.subrange(k, all.len() as int) =~= seq![x] + rest);
                assert(before.outputs(seq![x] + rest) == seq![y] + next.outputs(rest));
                assert(out@ + before.outputs(seq![x] + rest) =~= out@.push(y) + next.outputs(rest));
            }
            c = next;
            out.push(y);
        }
        proof {
            let none = Seq::<A>::empty();
            assert(all.subrange(all.len() as int, all.len() as int) =~= none);
            c.lemma_outputs_len(none);
            assert(out@ + c.outputs(none) =~= out@);
        }
        out
    }
}

/// Emits each input unchanged.
pub struct Identity<A> {
    item: std::marker::PhantomData<A>,
}

/// The identity transformer on `A`.
pub closed spec fn identity<A>() -> Identity<A> {
    Identity { item: std::marker::PhantomData }
}

impl<A> Circuit<A, A> for Identity<A> {
    closed spec fn wf(&self) -> bool {
        true
    }

    closed spec fn outputs(&self, xs: Seq<A>) -> Seq<A> {
        xs
    }

    proof fn lemma_outputs_len(&self, xs: Seq<A>) {
    }

    fn call(self, a: A) -> (r: (Self, A)) {
        (self, a)
    }
}

/// Applies a pure function to each input; it has no state.
pub struct Lifted<F> {
    f: F,
}

impl<A, B, F: Fn(A) -> B> Circuit<A, B> for Lifted<F> {
    closed spec fn wf(&self) -> bool {
        pure_fn(self.f)
    }

    closed spec fn outputs(&self, xs: Seq<A>) -> Seq<B> {
        xs.map_values(|x: A| eval(self.f, x))
    }

    proof fn lemma_outputs_len(&self, xs: Seq<A>) {
    }

    fn call(self, a: A) -> (r: (Self, B)) {
        let b = (self.f)(a);
        proof {
            lemma_eval(self.f, a, b);
            assert forall|xs: Seq<A>| #[trigger]
                self.outputs(seq![a] + xs) == seq![b] + self.outputs(xs) by {
                assert(self.outputs(seq![a] + xs) =~= seq![b] + self.outputs(xs));
            }
        }
        (self, b)
    }
}

/// Runs `second` on what `first` emits.
pub struct Then<F, G, B> {
    first: F,
    second: G,
    mid: std::marker::PhantomData<B>,
}

/// The sequential composition of `first` and `second`.
pub closed spec fn chain<F, G, B>(first: F, second: G) -> Then<F, G, B> {
    Then { first, second, mid: std::marker::PhantomData }
}

impl<A, B, C, F: Circuit<A, B>, G: Circuit<B, C>> Circuit<A, C> for Then<F, G, B> {
    closed spec fn wf(&self) -> bool {
        self.first.wf() && self.second.wf()
    }

    closed spec fn outputs(&self, xs: Seq<A>) -> Seq<C> {
        self.second.outputs(self.first.outputs(xs))
    }

    proof fn lemma_outputs_len(&self, xs: Seq<A>) {
        self.first.lemma_outputs_len(xs);
        self.second.lemma_outputs_len(self.first.outputs(xs));
    }

    fn call(self, a: A) -> (r: (Self, C)) {
        let Then { first, second, mid } = self;
        let (first, b) = first.call(a);
        let (second, c) = second.call(b);
        (Then { first, second, mid }, c)
    }
}

/// Runs `left` on the first and `right` on the second component of each
/// input pair.
pub struct Both<T1, T2> {
    left: T1,
    right: T2,
}

impl<A, B, A1, B1, T1: Circuit<A, B>, T2: Circuit<A1, B1>> Circuit<(A, A1), (B, B1)> for Both<
    T1,
    T2,
> {
    closed spec fn wf(&self) -> bool {
        self.left.wf() && self.right.wf()
    }

    closed spec fn outputs(&self, xs: Seq<(A, A1)>) -> Seq<(B, B1)> {
        zip(self.left.outputs(firsts(xs)), self.right.outputs(seconds(xs)))
    }

    proof fn lemma_outputs_len(&self, xs: Seq<(A, A1)>) {
        self.left.lemma_outputs_len(firsts(xs));
    }

    fn call(self, p: (A, A1)) -> (r: (Self, (B, B1))) {
        let Both { left, right } = self;
        let (a, a1) = p;
        let (left, b) = left.call(a);
        let (right, b1) = right.call(a1);
        let r = (Both { left, right }, (b, b1));
        proof {
            assert forall|xs: Seq<(A, A1)>| #[trigger]
                self.outputs(seq![p] + xs) == seq![r.1] + r.0.outputs(xs) by {
                lemma_pairs_cons(p, xs);
                r.0.left.lemma_outputs_len(firsts(xs));
                r.0.right.lemma_outputs_len(seconds(xs));
                lemma_zip_cons(b, b1, r.0.left.outputs(firsts(xs)), r.0.right.outputs(seconds(xs)));
            }
        }
        r
    }
}

/// Feeds every input to both `left` and `right`, and pairs their outputs.
pub struct Fanout<T1, T2> {
    left: T1,
    right: T2,
}

impl<A: Clone, B, B1, T1: Circuit<A, B>, T2: Circuit<A, B1>> Circuit<A, (B, B1)> for Fanout<
    T1,
    T2,
> {
    closed spec fn wf(&self) -> bool {
        self.left.wf() && self.right.wf() && exact_clone::<A>()
    }

    closed spec fn outputs(&self, xs: Seq<A>) -> Seq<(B, B1)> {
        zip(self.left.outputs(xs), self.right.outputs(xs))
    }

    proof fn lemma_outputs_len(&self, xs: Seq<A>) {
        self.left.lemma_outputs_len(xs);
    }

    fn call(self, a: A) -> (r: (Self, (B, B1))) {
        let Fanout { left, right } = self;
        let copy = a.clone();
        proof {
            assert(strictly_cloned(a, copy));
        }
        let (left, b) = left.call(copy);
        let (right, b1) = right.call(a);
        let r = (Fanout { left, right }, (b, b1));
        proof {
            assert forall|xs: Seq<A>| #[trigger]
                self.outputs(seq![a] + xs) == seq![r.1] + r.0.outputs(xs) by {
                r.0.left.lemma_outputs_len(xs);
                r.0.right.lemma_outputs_len(xs);
                lemma_zip_cons(b, b1, r.0.left.outputs(xs), r.0.right.outputs(xs));
            }
        }
        r
    }
}

/// A step function with a state: each input and the state give an output
/// and the next state.
pub struct Accum<S, F> {
    state: S,
    f: F,
}

impl<A, B, S, F: Fn(A, S) -> (B, S)> Circuit<A, B> for Accum<S, F> {
    closed spec fn wf(&self) -> bool {
        pure_fn2(self.f)
    }

    closed spec fn outputs(&self, xs: Seq<A>) -> Seq<B> {
        scan(self.f, self.state, xs)
    }

    proof fn lemma_outputs_len(&self, xs: Seq<A>) {
        lemma_scan_len(self.f, self.state, xs);
    }

    fn call(self, a: A) -> (r: (Self, B)) {
        let Accum { state, f } = self;
        let (b, next) = f(a, state);
        proof {
            lemma_eval2(f, a, state, (b, next));
            assert forall|xs: Seq<A>| #[trigger]
                scan(f, state, seq![a] + xs) == seq![b] + scan(f, next, xs) by {
                assert((seq![a] + xs).drop_first() =~= xs);
            }
        }
        (Accum { state: next, f }, b)
    }
}

/// A step function whose new state is also its output.
pub struct Echo<B, F> {
    state: B,
    f: F,
}

impl<A, B: Clone, F: Fn(A, B) -> B> Circuit<A, B> for Echo<B, F> {
    closed spec fn wf(&self) -> bool {
        pure_fn2(self.f) && exact_clone::<B>()
    }

    closed spec fn outputs(&self, xs: Seq<A>) -> Seq<B> {
        running(self.f, self.state, xs)
    }

    proof fn lemma_outputs_len(&self, xs: Seq<A>) {
        lemma_running_len(self.f, self.state, xs);
    }

    fn call(self, a: A) -> (r: (Self, B)) {
        let Echo { state, f } = self;
        let next = f(a, state);
        let kept = next.clone();
        proof {
            assert(strictly_cloned(next, kept));
            lemma_eval2(f, a, state, next);
            assert forall|xs: Seq<A>| #[trigger]
                running(f, state, seq![a] + xs) == seq![next] + running(f, kept, xs) by {
                assert((seq![a] + xs).drop_first() =~= xs);
            }
        }
        (Echo { state: kept, f }, next)
    }
}

/// Routes `Left` inputs to `left` and `Right` inputs to `right`, tagging
/// each output with the side it came from. The side an input does not go to
/// is not stepped.
pub struct Split<T1, T2> {
    left: T1,
    right: T2,
}

/// The transformer that routes `Left` inputs to `left` and `Right` inputs
/// to `right`.
pub closed spec fn branch<T1, T2>(left: T1, right: T2) -> Split<T1, T2> {
    Split { left, right }
}

impl<A, B, A1, B1, T1: Circuit<A, B>, T2: Circuit<A1, B1>> Circuit<
    Either<A, A1>,
    Either<B, B1>,
> for Split<T1, T2> {
    closed spec fn wf(&self) -> bool {
        self.left.wf() && self.right.wf()
    }

    closed spec fn outputs(&self, xs: Seq<Either<A, A1>>) -> Seq<Either<B, B1>> {
        merge(tags(xs), self.left.outputs(lefts(xs)), self.right.outputs(rights(xs)))
    }

    proof fn lemma_outputs_len(&self, xs: Seq<Either<A, A1>>) {
        lemma_merge_len(tags(xs), self.left.outputs(lefts(xs)), self.right.outputs(rights(xs)));
    }

    fn call(self, x: Either<A, A1>) -> (r: (Self, Either<B, B1>)) {
        let Split { left, right } = self;
        match x {
            Either::Left(a) => {
                let ghost before = left;
                let (left, b) = left.call(a);
                let r = (Split { left, right }, Either::Left(b));
                proof {
                    assert forall|xs: Seq<Either<A, A1>>| #[trigger]
                        self.outputs(seq![x] + xs) == seq![r.1] + r.0.outputs(xs) by {
                        lemma_either_cons(x, xs);
                        let rest = left.outputs(lefts(xs));
                        assert(before.outputs(seq![a] + lefts(xs)) == seq![b] + rest);
                        assert((seq![b] + rest).drop_first() =~= rest);
                        lemma_merge_cons(true, tags(xs), seq![b] + rest, right.outputs(rights(xs)));
                    }
                }
                r
            },
            Either::Right(a1) => {
                let ghost before = right;
                let (right, b1) = right.call(a1);
                let r = (Split { left, right }, Either::Right(b1));
                proof {
                    assert forall|xs: Seq<Either<A, A1>>| #[trigger]
                        self.outputs(seq![x] + xs) == seq![r.1] + r.0.outputs(xs) by {
                        lemma_either_cons(x, xs);
                        let rest = right.outputs(rights(xs));
                        assert(before.outputs(seq![a1] + rights(xs)) == seq![b1] + rest);
                        assert((seq![b1] + rest).drop_first() =~= rest);
                        lemma_merge_cons(false, tags(xs), left.outputs(lefts(xs)), seq![b1] + rest);
                    }
                }
                r
            },
        }
    }
}

/// Routes `Left` inputs to `left` and `Right` inputs to `right`; both emit
/// the same type, and the output carries no tag. The side an input does not
/// go to is not stepped.
pub struct FanIn<T1, T2> {
    left: T1,
    right: T2,
}

impl<A, B, C, T1: Circuit<A, B>, T2: Circuit<C, B>> Circuit<Either<A, C>, B> for FanIn<T1, T2> {
    closed spec fn wf(&self) -> bool {
        self.left.wf() && self.right.wf()
    }

    closed spec fn outputs(&self, xs: Seq<Either<A, C>>) -> Seq<B> {
        interleave(tags(xs), self.left.outputs(lefts(xs)), self.right.outputs(rights(xs)))
    }

    proof fn lemma_outputs_len(&self, xs: Seq<Either<A, C>>) {
        lemma_interleave_len(
            tags(xs),
            self.left.outputs(lefts(xs)),
            self.right.outputs(rights(xs)),
        );
    }

    fn call(self, x: Either<A, C>) -> (r: (Self, B)) {
        let FanIn { left, right } = self;
        match x {
            Either::Left(a) => {
                let ghost before = left;
                let (left, b) = left.call(a);
                let r = (FanIn { left, right }, b);
                proof {
                    assert forall|xs: Seq<Either<A, C>>| #[trigger]
                        self.outputs(seq![x] + xs) == seq![r.1] + r.0.outputs(xs) by {
                        lemma_either_cons(x, xs);
                        let rest = left.outputs(lefts(xs));
                        assert(before.outputs(seq![a] + lefts(xs)) == seq![b] + rest);
                        assert((seq![b] + rest).drop_first() =~= rest);
                        lemma_interleave_cons(
                            true,
                            tags(xs),
                            seq![b] + rest,
                            right.outputs(rights(xs)),
                        );
                    }
                }
                r
            },
            Either::Right(c) => {
                let ghost before = right;
                let (right, b) = right.call(c);
                let r = (FanIn { left, right }, b);
                proof {
                    assert forall|xs: Seq<Either<A, C>>| #[trigger]
                        self.outputs(seq![x] + xs) == seq![r.1] + r.0.outputs(xs) by {
                        lemma_either_cons(x, xs);
                        let rest = right.outputs(rights(xs));
                        assert(before.outputs(seq![c] + rights(xs)) == seq![b] + rest);
                        assert((seq![b] + rest).drop_first() =~= rest);
                        lemma_interleave_cons(
                            false,
                            tags(xs),
                            left.outputs(lefts(xs)),
                            seq![b] + rest,
                        );
                    }
                }
                r
            },
        }
    }
}

/// Identity and sequential composition.
pub trait Category<A, B>: Circuit<A, B> {
    /// Sequential composition: `consumer` runs on what `self` emits.
    fn and_then<C, G: Circuit<B, C>>(self, consumer: G) -> (r: Then<Self, G, B>)
        requires
            self.wf(),
            consumer.wf(),
        ensures
            r == chain::<Self, G, B>(self, consumer),
            r.wf(),
            forall|xs: Seq<A>| #[trigger] r.outputs(xs) == consumer.outputs(self.outputs(xs)),
    {
        Then { first: self, second: consumer, mid: std::marker::PhantomData }
    }

    /// Sequential composition written the other way round: `self` runs on
    /// what `producer` emits.
    fn after<A0, P: Circuit<A0, A>>(self, producer: P) -> (r: Then<P, Self, A>)
        requires
            self.wf(),
            producer.wf(),
        ensures
            r == chain::<P, Self, A>(producer, self),
            r.wf(),
            forall|xs: Seq<A0>| #[trigger] r.outputs(xs) == self.outputs(producer.outputs(xs)),
    {
        Then { first: producer, second: self, mid: std::marker::PhantomData }
    }
}

impl<A, B, T: Circuit<A, B>> Category<A, B> for T {
}

/// Work on pairs, and composition with pure functions.
pub trait Arrow<A, B>: Category<A, B> {
    /// Runs `self` on the first component of each pair; the second passes
    /// through.
    fn fst<C>(self) -> (r: Both<Self, Identity<C>>)
        requires
            self.wf(),
        ensures
            Circuit::<(A, C), (B, C)>::wf(&r),
            forall|xs: Seq<(A, C)>| #[trigger]
                r.outputs(xs) == zip(self.outputs(firsts(xs)), seconds(xs)),
    {
        Both { left: self, right: Identity { item: std::marker::PhantomData } }
    }

    /// Runs `self` on the second component of each pair; the first passes
    /// through.
    fn snd<C>(self) -> (r: Both<Identity<C>, Self>)
        requires
            self.wf(),
        ensures
            Circuit::<(C, A), (C, B)>::wf(&r),
            forall|xs: Seq<(C, A)>| #[trigger]
                r.outputs(xs) == zip(firsts(xs), self.outputs(seconds(xs))),
    {
        Both { left: Identity { item: std::marker::PhantomData }, right: self }
    }

    /// Runs `self` on the first and `g` on the second component of each
    /// pair, each advancing on its own.
    fn both<A1, B1, G: Circuit<A1, B1>>(self, g: G) -> (r: Both<Self, G>)
        requires
            self.wf(),
            g.wf(),
        ensures
            r.wf(),
            forall|xs: Seq<(A, A1)>| #[trigger]
                r.outputs(xs) == zip(self.outputs(firsts(xs)), g.outputs(seconds(xs))),
    {
        Both { left: self, right: g }
    }

    /// Feeds each input to both `self` and `g`, and pairs their outputs.
    fn dup<B1, G: Circuit<A, B1>>(self, g: G) -> (r: Fanout<Self, G>)
        where
            A: Clone,
        requires
            self.wf(),
            g.wf(),
            exact_clone::<A>(),
        ensures
            r.wf(),
            forall|xs: Seq<A>| #[trigger] r.outputs(xs) == zip(self.outputs(xs), g.outputs(xs)),
    {
        Fanout { left: self, right: g }
    }

    /// Applies the pure function `f` to each input before `self`.
    fn after_pure<A0, F: Fn(A0) -> A>(self, f: F) -> (r: Then<Lifted<F>, Self, A>)
        requires
            self.wf(),
            pure_fn(f),
        ensures
            r.wf(),
            forall|xs: Seq<A0>| #[trigger]
                r.outputs(xs) == self.outputs(xs.map_values(|x: A0| eval(f, x))),
    {
        Then { first: Lifted { f }, second: self, mid: std::marker::PhantomData }
    }

    /// Applies the pure function `f` to each output of `self`.
    fn then_pure<C, F: Fn(B) -> C>(self, f: F) -> (r: Then<Self, Lifted<F>, B>)
        requires
            self.wf(),
            pure_fn(f),
        ensures
            r.wf(),
            forall|xs: Seq<A>| #[trigger]
                r.outputs(xs) == self.outputs(xs).map_values(|y: B| eval(f, y)),
    {
        Then { first: self, second: Lifted { f }, mid: std::marker::PhantomData }
    }
}

impl<A, B, T: Circuit<A, B>> Arrow<A, B> for T {
}

/// Routing on either-values.
pub trait ArrowChoice<A, B>: Arrow<A, B> {
    /// Runs `self` on `Left` inputs; `Right` inputs pass through, and `self`
    /// is not stepped on them.
    fn left<D>(self) -> (r: Split<Self, Identity<D>>)
        requires
            self.wf(),
        ensures
            Circuit::<Either<A, D>, Either<B, D>>::wf(&r),
            forall|xs: Seq<Either<A, D>>| #[trigger]
                r.outputs(xs) == merge(tags(xs), self.outputs(lefts(xs)), rights(xs)),
    {
        Split { left: self, right: Identity { item: std::marker::PhantomData } }
    }

    /// Runs `self` on `Right` inputs; `Left` inputs pass through, and `self`
    /// is not stepped on them.
    fn right<D>(self) -> (r: Split<Identity<D>, Self>)
        requires
            self.wf(),
        ensures
            Circuit::<Either<D, A>, Either<D, B>>::wf(&r),
            forall|xs: Seq<Either<D, A>>| #[trigger]
                r.outputs(xs) == merge(tags(xs), lefts(xs), self.outputs(rights(xs))),
    {
        Split { left: Identity { item: std::marker::PhantomData }, right: self }
    }

    /// Runs `self` on `Left` inputs and `g` on `Right` inputs. Each sees
    /// exactly the inputs routed to it, in order: the other one is not
    /// stepped.
    fn split<A1, B1, G: Circuit<A1, B1>>(self, g: G) -> (r: Split<Self, G>)
        requires
            self.wf(),
            g.wf(),
        ensures
            r == branch(self, g),
            r.wf(),
            forall|xs: Seq<Either<A, A1>>| #[trigger]
                r.outputs(xs) == merge(tags(xs), self.outputs(lefts(xs)), g.outputs(rights(xs))),
    {
        Split { left: self, right: g }
    }

    /// Runs `self` on `Left` inputs and `g` on `Right` inputs, and emits
    /// whichever result comes out, untagged.
    fn owise<C, G: Circuit<C, B>>(self, g: G) -> (r: FanIn<Self, G>)
        requires
            self.wf(),
            g.wf(),
        ensures
            r.wf(),
            forall|xs: Seq<Either<A, C>>| #[trigger]
                r.outputs(xs) == interleave(
                    tags(xs),
                    self.outputs(lefts(xs)),
                    g.outputs(rights(xs)),
                ),
    {
        FanIn { left: self, right: g }
    }
}

impl<A, B, T: Circuit<A, B>> ArrowChoice<A, B> for T {
}

/// The engine's constructors.
pub struct CircuitFamily;

impl CircuitFamily {
    /// The identity transformer: emits each input unchanged.
    pub fn id<A>() -> (r: Identity<A>)
        ensures
            r == identity::<A>(),
            r.wf(),
            forall|xs: Seq<A>| #[trigger] r.outputs(xs) == xs,
    {
        Identity { item: std::marker::PhantomData }
    }

    /// A transformer with state `acc`: on input `a` it computes
    /// `(output, next) = f(a, state)`, emits `output` and keeps `next`.
    pub fn accum<A, B, S, F: Fn(A, S) -> (B, S)>(acc: S, f: F) -> (r: Accum<S, F>)
        requires
            pure_fn2(f),
        ensures
            Circuit::<A, B>::wf(&r),
            forall|xs: Seq<A>| #[trigger] Circuit::<A, B>::outputs(&r, xs) == scan(f, acc, xs),
    {
        Accum { state: acc, f }
    }

    /// A transformer with state `acc`: on input `a` the new state is
    /// `f(a, state)`, and it is also the output.
    pub fn accum_dup<A, B: Clone, F: Fn(A, B) -> B>(acc: B, f: F) -> (r: Echo<B, F>)
        requires
            pure_fn2(f),
            exact_clone::<B>(),
        ensures
            Circuit::<A, B>::wf(&r),
            forall|xs: Seq<A>| #[trigger] Circuit::<A, B>::outputs(&r, xs) == running(f, acc, xs),
    {
        Echo { state: acc, f }
    }
}

/// Lifts a pure function into a transformer that applies it to each input.
pub fn arrow<A, B, F: Fn(A) -> B>(f: F) -> (r: Lifted<F>)
    requires
        pure_fn(f),
    ensures
        Circuit::<A, B>::wf(&r),
        forall|xs: Seq<A>| #[trigger]
            Circuit::<A, B>::outputs(&r, xs) == xs.map_values(|x: A| eval(f, x)),
{
    Lifted { f }
}

/// Identity is a unit for sequential composition on both sides: composing
/// it before or after `t` emits exactly what `t` emits alone.
pub proof fn law_identity<A, B, T: Circuit<A, B>>(t: T, xs: Seq<A>)
    requires
        t.wf(),
    ensures
        Circuit::<A, B>::outputs(&chain::<Identity<A>, T, A>(identity(), t), xs) == t.outputs(xs),
        Circuit::<A, B>::outputs(&chain::<T, Identity<B>, B>(t, identity()), xs) == t.outputs(xs),
{
}

/// Sequential composition is associative: `(f then g) then h` and
/// `f then (g then h)` emit the same outputs on every input sequence.
pub proof fn law_associative<A, B, C, D, F: Circuit<A, B>, G: Circuit<B, C>, H: Circuit<C, D>>(
    f: F,
    g: G,
    h: H,
    xs: Seq<A>,
)
    requires
        f.wf(),
        g.wf(),
        h.wf(),
    ensures
        Circuit::<A, D>::outputs(&chain::<Then<F, G, B>, H, C>(chain(f, g), h), xs)
            == Circuit::<A, D>::outputs(&chain::<F, Then<G, H, C>, B>(f, chain(g, h)), xs),
{
}

/// Branch preservation: driven over a mix of `Left` and `Right` inputs,
/// `split(t1, t2)` keeps each input's side, and what comes out on each side
/// is what that transformer alone emits on the inputs routed to it. Neither
/// sees, or is advanced by, the inputs of the other side.
pub proof fn law_split_routes<A, B, A1, B1, T1: Circuit<A, B>, T2: Circuit<A1, B1>>(
    t1: T1,
    t2: T2,
    xs: Seq<Either<A, A1>>,
)
    requires
        t1.wf(),
        t2.wf(),
    ensures
        ({
            let out = Circuit::<Either<A, A1>, Either<B, B1>>::outputs(
                &branch(t1, t2),
                xs,
            );
            &&& tags(out) == tags(xs)
            &&& lefts(out) == t1.outputs(lefts(xs))
            &&& rights(out) == t2.outputs(rights(xs))
        }),
{
    t1.lemma_outputs_len(lefts(xs));
    t2.lemma_outputs_len(rights(xs));
    lemma_merge_parts(xs, t1.outputs(lefts(xs)), t2.outputs(rights(xs)));
}

} // verus!
