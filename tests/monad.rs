use arrows::{Applicative, Functor, Monad};

#[test]
fn test_opt() {
    // functor
    let none: Option<usize> = None;
    let opt = Some(1);
    assert_eq!(opt.fmap(|x| x * 2), Some(2));
    assert_eq!(none.fmap(|x| x * 2), None);

    assert_eq!(opt.map_replace(7), Some(7));
    assert_eq!(none.map_replace(7), None);

    // applicative
    assert_eq!(Option::pure(5), Some(5));

    let f = Some(|x| x + 3);
    let f_none: Option<fn(usize) -> usize> = None;
    assert_eq!(opt.apply(f), Some(4));
    assert_eq!(none.apply(f), None);
    assert_eq!(opt.apply(f_none), None);

    // monad
    assert_eq!(opt.bind(Some), opt);

    let double_opt = Some(opt);
    assert_eq!(Option::join(double_opt), opt);
}

#[test]
fn test_vec() {
    // functor
    let vec = vec![1, 2, 3, 4];
    let res = vec.clone().fmap(|x| x * 2);
    assert_eq!(res, vec![2, 4, 6, 8]);

    let res = vec.clone().map_replace(7);
    assert_eq!(res, vec![7, 7, 7, 7]);

    // applicative
    assert_eq!(Vec::pure(5), vec![5]);

    let f = |x| x + 3;
    let fs = vec![f, f, f, f];
    let res = vec.clone().apply(fs);
    assert_eq!(res, vec![4, 5, 6, 7]);

    // monad
    let f = |n| vec![0; n];
    let res = vec.clone().bind(f);
    let len = 1 + 2 + 3 + 4;
    assert_eq!(res, vec![0; len]);

    let double_vec = vec![vec.clone()];
    assert_eq!(Vec::join(double_vec), vec);
}

#[test]
fn option_lift_a2_needs_both() {
    assert_eq!(Some(2).lift_a2(Some(5), |a, b| a * b), Some(10));
    assert_eq!(Some(2).lift_a2(None::<i32>, |a, b| a * b), None);
    assert_eq!(None::<i32>.lift_a2(Some(5), |a, b| a * b), None);
}

#[test]
fn vec_lift_a2_zips_to_shorter() {
    let res = vec![1, 2, 3].lift_a2(vec![10, 20], |a, b| a + b);
    assert_eq!(res, vec![11, 22]);
    let res = vec![1, 2, 3].apply(vec![|x: i32| x - 1]);
    assert_eq!(res, vec![0]);
}

#[test]
fn option_bind_and_join_on_none() {
    let half = |n: i32| if n % 2 == 0 { Some(n / 2) } else { None };
    assert_eq!(Some(8).bind(half), Some(4));
    assert_eq!(Some(7).bind(half), None);
    assert_eq!(None.bind(half), None);
    assert_eq!(Option::join(Some(None::<i32>)), None);
    assert_eq!(Option::<i32>::join(None), None);
}

#[test]
fn vec_bind_flattens_in_order() {
    let res = vec![1, 2, 3].bind(|n: i32| vec![n; n as usize]);
    assert_eq!(res, vec![1, 2, 2, 3, 3, 3]);
    let empty: Vec<i32> = Vec::new();
    assert_eq!(empty.bind(|n: i32| vec![n]), Vec::<i32>::new());
    assert_eq!(Vec::join(vec![vec![1], vec![], vec![2, 3]]), vec![1, 2, 3]);
}
