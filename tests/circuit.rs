use arrows::{arrow, Arrow, ArrowChoice, Category, Circuit, CircuitFamily, Either};

#[test]
fn test_category() {
    let cat = CircuitFamily::id();
    let res: Vec<i32> = cat.run(vec![1, 2, 3, 4]);
    assert_eq!(res, vec![1, 2, 3, 4]);
}

#[test]
fn test_arrow() {
    let eq2 = arrow(|n: i32| n == 2).dup(CircuitFamily::id()).output(2);
    assert_eq!(eq2, (true, 2));

    // if n is even { Some(n + 1) } else { None }
    let inc_even_else_none = |n: i32| {
        arrow(|x: i32| x & 1 == 0)
            .dup(CircuitFamily::id())
            .then_pure(Either::from)
            .and_then(arrow(|_: i32| None).owise(arrow(|n: i32| Some(n + 1))))
            .output(n)
    };
    assert_eq!(inc_even_else_none(1), None);
    assert_eq!(inc_even_else_none(2), Some(3));
    assert_eq!(inc_even_else_none(3), None);
    assert_eq!(inc_even_else_none(4), Some(5));
}

fn total() -> impl Circuit<usize, usize> {
    CircuitFamily::accum_dup(0, std::ops::Add::add)
}

#[test]
fn running_sum() {
    let res = total().run(vec![1, 0, 1, 0, 0, 2]);
    assert_eq!(res, vec![1, 1, 2, 2, 2, 4]);
}

#[test]
fn running_average() {
    let const1 = arrow(|_: usize| 1usize);
    let uncurry_div = arrow(|(a, b): (usize, usize)| a / b);
    let get_mean = total().dup(const1.and_then(total())).and_then(uncurry_div);
    let res = get_mean.run(vec![1, 5, 8, 12, 100]);
    assert_eq!(res, vec![1, 3, 4, 6, 25]);
}

#[test]
fn oneshot_emits_once() {
    let oneshot = CircuitFamily::accum(true, |(), acc: bool| (acc, false));
    let res = oneshot.run(vec![(), (), (), ()]);
    assert_eq!(res, vec![true, false, false, false]);
}

#[test]
fn delayed_echo() {
    let echo = CircuitFamily::accum(false, |a: bool, b: bool| (b, a));
    let res = echo.run(vec![true, false, true, false]);
    assert_eq!(res, vec![false, true, false, true]);
}

#[test]
fn lift_applies_function_to_each_input() {
    let double = arrow(|x: i64| x * 2);
    assert_eq!(double.run(vec![3, -1, 0, 7]), vec![6, -2, 0, 14]);
    let empty: Vec<i64> = arrow(|x: i64| x * 2).run(vec![]);
    assert!(empty.is_empty());
}

#[test]
fn identity_is_unit_of_composition() {
    let xs = vec![4, 1, 5, 9, 2];
    let alone = CircuitFamily::accum_dup(0, |a: i32, s: i32| a + s).run(xs.clone());
    let before = CircuitFamily::id()
        .and_then(CircuitFamily::accum_dup(0, |a: i32, s: i32| a + s))
        .run(xs.clone());
    let after = CircuitFamily::accum_dup(0, |a: i32, s: i32| a + s)
        .and_then(CircuitFamily::id())
        .run(xs.clone());
    assert_eq!(alone, vec![4, 5, 10, 19, 21]);
    assert_eq!(before, alone);
    assert_eq!(after, alone);
}

#[test]
fn composition_is_associative() {
    let xs = vec![1, 2, 3, 4];
    let sum = || CircuitFamily::accum_dup(0, |a: i32, s: i32| a + s);
    let left = sum().and_then(arrow(|x: i32| x * 10)).and_then(sum()).run(xs.clone());
    let right = sum().and_then(arrow(|x: i32| x * 10).and_then(sum())).run(xs.clone());
    assert_eq!(left, vec![10, 40, 100, 200]);
    assert_eq!(left, right);
}

#[test]
fn after_runs_producer_first() {
    let add_one = arrow(|x: i32| x + 1);
    let double = arrow(|x: i32| x * 2);
    assert_eq!(double.after(add_one).run(vec![1, 2]), vec![4, 6]);
    let pre = arrow(|x: i32| x * 2).after_pure(|x: i32| x + 1);
    assert_eq!(pre.run(vec![1, 2]), vec![4, 6]);
}

fn counter() -> impl Circuit<char, usize> {
    CircuitFamily::accum(0usize, |_: char, n: usize| (n + 1, n + 1))
}

#[test]
fn split_steps_only_the_addressed_side() {
    let xs = vec![
        Either::Left('a'),
        Either::Right('b'),
        Either::Left('c'),
        Either::Left('d'),
        Either::Right('e'),
    ];
    let res = counter().split(counter()).run(xs);
    assert_eq!(
        res,
        vec![
            Either::Left(1),
            Either::Right(1),
            Either::Left(2),
            Either::Left(3),
            Either::Right(2),
        ]
    );
}

#[test]
fn left_and_right_pass_the_other_side_through() {
    let xs = vec![Either::Left('x'), Either::Right(7u8), Either::Left('y')];
    let res = counter().left().run(xs);
    assert_eq!(res, vec![Either::Left(1), Either::Right(7u8), Either::Left(2)]);
    let ys = vec![Either::Left(7u8), Either::Right('x'), Either::Right('y')];
    let res = counter().right().run(ys);
    assert_eq!(res, vec![Either::Left(7u8), Either::Right(1), Either::Right(2)]);
}

#[test]
fn owise_routes_by_tag() {
    let a = arrow(|x: i32| x * 2);
    let b = arrow(|s: &'static str| s.len() as i32 + 100);
    let res = a.owise(b).run(vec![Either::Left(1), Either::Right("ab"), Either::Left(3)]);
    assert_eq!(res, vec![2, 102, 6]);
}

#[test]
fn fst_snd_both_work_on_pairs() {
    let res = counter().fst().run(vec![('a', 10), ('b', 20)]);
    assert_eq!(res, vec![(1, 10), (2, 20)]);
    let res = counter().snd().run(vec![(10, 'a'), (20, 'b')]);
    assert_eq!(res, vec![(10, 1), (20, 2)]);
    let res = counter().both(arrow(|x: i32| -x)).run(vec![('a', 1), ('b', 2)]);
    assert_eq!(res, vec![(1, -1), (2, -2)]);
}

#[test]
fn dup_feeds_both_sides() {
    let res = counter().dup(arrow(|c: char| c.is_ascii_uppercase())).run(vec!['a', 'B']);
    assert_eq!(res, vec![(1, false), (2, true)]);
}

#[test]
fn call_returns_continuation() {
    let (next, first) = counter().call('a');
    let (_, second) = next.call('b');
    assert_eq!((first, second), (1, 2));
}
