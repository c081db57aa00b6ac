use vstd::prelude::*;
use vstd::pervasive::strictly_cloned;

verus! {

/// `f` can be called on every argument, and always returns the same result
/// for the same argument.
pub open spec fn pure_fn<A, B, F: Fn(A) -> B>(f: F) -> bool {
    &&& forall|a: A| #[trigger] f.requires((a,))
    &&& forall|a: A, b1: B, b2: B|
        #![trigger f.ensures((a,), b1), f.ensures((a,), b2)]
        f.ensures((a,), b1) && f.ensures((a,), b2) ==> b1 == b2
}

/// The result of a pure function `f` on `a`.
pub open spec fn eval<A, B, F: Fn(A) -> B>(f: F, a: A) -> B {
    choose|b: B| f.ensures((a,), b)
}

/// `pure_fn` for functions of two arguments.
pub open spec fn pure_fn2<A, S, B, F: Fn(A, S) -> B>(f: F) -> bool {
    &&& forall|a: A, s: S| #[trigger] f.requires((a, s))
    &&& forall|a: A, s: S, b1: B, b2: B|
        #![trigger f.ensures((a, s), b1), f.ensures((a, s), b2)]
        f.ensures((a, s), b1) && f.ensures((a, s), b2) ==> b1 == b2
}

/// The result of a pure two-argument function `f` on `a` and `s`.
pub open spec fn eval2<A, S, B, F: Fn(A, S) -> B>(f: F, a: A, s: S) -> B {
    choose|b: B| f.ensures((a, s), b)
}

/// Cloning a `T` always gives back a value equal to the one cloned.
pub open spec fn exact_clone<T: Clone>() -> bool {
    forall|a: T, b: T| #[trigger] strictly_cloned(a, b) ==> a == b
}

pub proof fn lemma_exact_clone<T: Clone>(a: &T, b: &T)
    requires
        exact_clone::<T>(),
        strictly_cloned(*a, *b),
    ensures
        *a == *b,
{
}

pub proof fn lemma_eval<A, B, F: Fn(A) -> B>(f: F, a: A, b: B)
    requires
        pure_fn(f),
        f.ensures((a,), b),
    ensures
        eval(f, a) == b,
{
}

pub proof fn lemma_eval2<A, S, B, F: Fn(A, S) -> B>(f: F, a: A, s: S, b: B)
    requires
        pure_fn2(f),
        f.ensures((a, s), b),
    ensures
        eval2(f, a, s) == b,
{
}

} // verus!

verus! {

/// The outputs of a stateful step function `f` started in state `s` and
/// driven over `xs`: each step maps an input and the state to an output and
/// the next state.
pub open spec fn scan<A, S, B, F: Fn(A, S) -> (B, S)>(f: F, s: S, xs: Seq<A>) -> Seq<B>
    decreases xs.len(),
{
    if xs.len() == 0 {
        Seq::empty()
    } else {
        let (b, next) = eval2(f, xs[0], s);
        seq![b] + scan(f, next, xs.drop_first())
    }
}

/// The successive states of `f` started in `s` and driven over `xs`, where
/// each step's new state is also its output.
pub open spec fn running<A, B, F: Fn(A, B) -> B>(f: F, s: B, xs: Seq<A>) -> Seq<B>
    decreases xs.len(),
{
    if xs.len() == 0 {
        Seq::empty()
    } else {
        let next = eval2(f, xs[0], s);
        seq![next] + running(f, next, xs.drop_first())
    }
}

pub proof fn lemma_scan_len<A, S, B, F: Fn(A, S) -> (B, S)>(f: F, s: S, xs: Seq<A>)
    ensures
        scan(f, s, xs).len() == xs.len(),
    decreases xs.len(),
{
    if xs.len() > 0 {
        lemma_scan_len(f, eval2(f, xs[0], s).1, xs.drop_first());
    }
}

pub proof fn lemma_running_len<A, B, F: Fn(A, B) -> B>(f: F, s: B, xs: Seq<A>)
    ensures
        running(f, s, xs).len() == xs.len(),
    decreases xs.len(),
{
    if xs.len() > 0 {
        lemma_running_len(f, eval2(f, xs[0], s), xs.drop_first());
    }
}

} // verus!
