use arrows::Either;

#[test]
fn flip_swaps_sides() {
    assert_eq!(Either::<i32, char>::Left(3).flip(), Either::Right(3));
    assert_eq!(Either::<i32, char>::Right('x').flip(), Either::Left('x'));
}

#[test]
fn ok_keeps_right() {
    assert_eq!(Either::<i32, char>::Right('x').ok(), Some('x'));
    assert_eq!(Either::<i32, char>::Left(3).ok(), None);
}

#[test]
fn from_bool_pair() {
    assert_eq!(Either::from((true, 5)), Either::Right(5));
    assert_eq!(Either::from((false, 5)), Either::Left(5));
    assert_eq!(Either::from(true), Either::Right(()));
    assert_eq!(Either::from(false), Either::Left(()));
}

#[test]
fn either_fmap_and_bind_keep_left() {
    let r: Either<&str, i32> = Either::Right(4);
    let l: Either<&str, i32> = Either::Left("no");
    assert_eq!(r.fmap(|x| x + 1), Either::Right(5));
    assert_eq!(l.fmap(|x| x + 1), Either::Left("no"));
    let r: Either<&str, i32> = Either::Right(4);
    let l: Either<&str, i32> = Either::Left("no");
    assert_eq!(r.bind(|x| if x > 3 { Either::Right(x * 10) } else { Either::Left("small") }), Either::Right(40));
    assert_eq!(l.bind(|x| Either::<&str, i32>::Right(x)), Either::Left("no"));
    assert_eq!(Either::<&str, i32>::pure(3), Either::Right(3));
}

#[test]
fn either_lift_a2_takes_first_left() {
    let a: Either<&str, i32> = Either::Right(2);
    let b: Either<&str, i32> = Either::Right(3);
    assert_eq!(a.lift_a2(b, |x, y| x * y), Either::Right(6));
    let a: Either<&str, i32> = Either::Left("first");
    let b: Either<&str, i32> = Either::Left("second");
    assert_eq!(a.lift_a2(b, |x, y| x * y), Either::Left("first"));
    let a: Either<&str, i32> = Either::Right(2);
    let b: Either<&str, i32> = Either::Left("second");
    assert_eq!(a.lift_a2(b, |x, y| x * y), Either::Left("second"));
}
