use vstd::prelude::*;
use crate::either::Either;

verus! {

/// The first components of a sequence of pairs.
pub open spec fn firsts<A, C>(xs: Seq<(A, C)>) -> Seq<A> {
    xs.map_values(|p: (A, C)| p.0)
}

/// The second components of a sequence of pairs.
pub open spec fn seconds<A, C>(xs: Seq<(A, C)>) -> Seq<C> {
    xs.map_values(|p: (A, C)| p.1)
}

/// Pairs up `a` and `c` position by position, for the length of `a`.
pub open spec fn zip<A, C>(a: Seq<A>, c: Seq<C>) -> Seq<(A, C)> {
    Seq::new(a.len(), |i: int| (a[i], c[i]))
}

/// For each value, whether it is a `Left`.
pub open spec fn tags<L, R>(xs: Seq<Either<L, R>>) -> Seq<bool> {
    xs.map_values(|e: Either<L, R>| e is Left)
}

/// The payloads of the `Left` values, in order.
pub open spec fn lefts<L, R>(xs: Seq<Either<L, R>>) -> Seq<L>
    decreases xs.len(),
{
    if xs.len() == 0 {
        Seq::empty()
    } else {
        match xs[0] {
            Either::Left(l) => seq![l] + lefts(xs.drop_first()),
            Either::Right(_) => lefts(xs.drop_first()),
        }
    }
}

/// The payloads of the `Right` values, in order.
pub open spec fn rights<L, R>(xs: Seq<Either<L, R>>) -> Seq<R>
    decreases xs.len(),
{
    if xs.len() == 0 {
        Seq::empty()
    } else {
        match xs[0] {
            Either::Left(_) => rights(xs.drop_first()),
            Either::Right(r) => seq![r] + rights(xs.drop_first()),
        }
    }
}

/// Rebuilds a sequence of either-values from its tags: each `true` takes
/// the next value of `ls` as a `Left`, each `false` the next value of `rs`
/// as a `Right`.
pub open spec fn merge<L, R>(t: Seq<bool>, ls: Seq<L>, rs: Seq<R>) -> Seq<Either<L, R>>
    decreases t.len(),
{
    if t.len() == 0 {
        Seq::empty()
    } else if t[0] {
        seq![Either::Left(ls[0])] + merge(t.drop_first(), ls.drop_first(), rs)
    } else {
        seq![Either::Right(rs[0])] + merge(t.drop_first(), ls, rs.drop_first())
    }
}

/// Like `merge`, with both sides of one type and the tag dropped.
pub open spec fn interleave<B>(t: Seq<bool>, ls: Seq<B>, rs: Seq<B>) -> Seq<B>
    decreases t.len(),
{
    if t.len() == 0 {
        Seq::empty()
    } else if t[0] {
        seq![ls[0]] + interleave(t.drop_first(), ls.drop_first(), rs)
    } else {
        seq![rs[0]] + interleave(t.drop_first(), ls, rs.drop_first())
    }
}

pub proof fn lemma_pairs_cons<A, C>(p: (A, C), xs: Seq<(A, C)>)
    ensures
        firsts(seq![p] + xs) == seq![p.0] + firsts(xs),
        seconds(seq![p] + xs) == seq![p.1] + seconds(xs),
{
    assert(firsts(seq![p] + xs) =~= seq![p.0] + firsts(xs));
    assert(seconds(seq![p] + xs) =~= seq![p.1] + seconds(xs));
}

pub proof fn lemma_zip_cons<A, C>(a: A, c: C, xs: Seq<A>, ys: Seq<C>)
    requires
        xs.len() == ys.len(),
    ensures
        zip(seq![a] + xs, seq![c] + ys) == seq![(a, c)] + zip(xs, ys),
{
    assert(zip(seq![a] + xs, seq![c] + ys) =~= seq![(a, c)] + zip(xs, ys));
}

pub proof fn lemma_either_cons<L, R>(x: Either<L, R>, xs: Seq<Either<L, R>>)
    ensures
        tags(seq![x] + xs) == seq![x is Left] + tags(xs),
        lefts(seq![x] + xs) == match x {
            Either::Left(l) => seq![l] + lefts(xs),
            Either::Right(_) => lefts(xs),
        },
        rights(seq![x] + xs) == match x {
            Either::Left(_) => rights(xs),
            Either::Right(r) => seq![r] + rights(xs),
        },
{
    let s = seq![x] + xs;
    assert(s.drop_first() =~= xs);
    assert(tags(s) =~= seq![x is Left] + tags(xs));
}

pub proof fn lemma_merge_cons<L, R>(b: bool, t: Seq<bool>, ls: Seq<L>, rs: Seq<R>)
    ensures
        b ==> merge(seq![b] + t, ls, rs) == seq![Either::<L, R>::Left(ls[0])] + merge(t, ls.drop_first(), rs),
        !b ==> merge(seq![b] + t, ls, rs) == seq![Either::<L, R>::Right(rs[0])] + merge(t, ls, rs.drop_first()),
{
    assert((seq![b] + t).drop_first() =~= t);
}

pub proof fn lemma_interleave_cons<B>(b: bool, t: Seq<bool>, ls: Seq<B>, rs: Seq<B>)
    ensures
        b ==> interleave(seq![b] + t, ls, rs) == seq![ls[0]] + interleave(t, ls.drop_first(), rs),
        !b ==> interleave(seq![b] + t, ls, rs) == seq![rs[0]] + interleave(t, ls, rs.drop_first()),
{
    assert((seq![b] + t).drop_first() =~= t);
}

pub proof fn lemma_merge_len<L, R>(t: Seq<bool>, ls: Seq<L>, rs: Seq<R>)
    ensures
        merge(t, ls, rs).len() == t.len(),
    decreases t.len(),
{
    if t.len() > 0 {
        if t[0] {
            lemma_merge_len(t.drop_first(), ls.drop_first(), rs);
        } else {
            lemma_merge_len(t.drop_first(), ls, rs.drop_first());
        }
    }
}

pub proof fn lemma_interleave_len<B>(t: Seq<bool>, ls: Seq<B>, rs: Seq<B>)
    ensures
        interleave(t, ls, rs).len() == t.len(),
    decreases t.len(),
{
    if t.len() > 0 {
        if t[0] {
            lemma_interleave_len(t.drop_first(), ls.drop_first(), rs);
        } else {
            lemma_interleave_len(t.drop_first(), ls, rs.drop_first());
        }
    }
}

/// Taking a sequence of either-values apart into its tags, `Left` payloads
/// and `Right` payloads, and merging them again, gives it back; and the
/// payloads of a merge are what went in.
pub proof fn lemma_merge_parts<L, R, L1, R1>(xs: Seq<Either<L, R>>, ls: Seq<L1>, rs: Seq<R1>)
    requires
        ls.len() == lefts(xs).len(),
        rs.len() == rights(xs).len(),
    ensures
        tags(merge(tags(xs), ls, rs)) == tags(xs),
        lefts(merge(tags(xs), ls, rs)) == ls,
        rights(merge(tags(xs), ls, rs)) == rs,
    decreases xs.len(),
{
    if xs.len() == 0 {
        assert(tags(merge(tags(xs), ls, rs)) =~= tags(xs));
        assert(ls =~= Seq::<L1>::empty());
        assert(rs =~= Seq::<R1>::empty());
    } else {
        let x = xs[0];
        let tail = xs.drop_first();
        assert(xs =~= seq![x] + tail);
        lemma_either_cons(x, tail);
        lemma_merge_cons(x is Left, tags(tail), ls, rs);
        if x is Left {
            lemma_merge_parts(tail, ls.drop_first(), rs);
            let m = merge(tags(tail), ls.drop_first(), rs);
            lemma_either_cons(Either::<L1, R1>::Left(ls[0]), m);
            assert(seq![ls[0]] + ls.drop_first() =~= ls);
        } else {
            lemma_merge_parts(tail, ls, rs.drop_first());
            let m = merge(tags(tail), ls, rs.drop_first());
            lemma_either_cons(Either::<L1, R1>::Right(rs[0]), m);
            assert(seq![rs[0]] + rs.drop_first() =~= rs);
        }
    }
}

/// The items of `v` in reverse order, so that popping from the result hands
/// them out front to back.
pub(crate) fn reversed<A>(v: Vec<A>) -> (r: Vec<A>)
    ensures
        r.len() == v.len(),
        forall|i: int| 0 <= i < r.len() ==> #[trigger] r@[i] == v@[v.len() - 1 - i],
{
    let ghost s = v@;
    let mut v = v;
    let mut r: Vec<A> = Vec::new();
    while v.len() > 0
        invariant
            v@ == s.subrange(0, v.len() as int),
            r.len() + v.len() == s.len(),
            forall|i: int| 0 <= i < r.len() ==> #[trigger] r@[i] == s[s.len() - 1 - i],
        decreases v.len(),
    {
        let x = v.pop().unwrap();
        r.push(x);
    }
    r
}

} // verus!
