use nftoken::{AdditiveOperations, BinaryOperations, Calculator, MultiplicativeOperations};

#[test]
fn arithmetic_results() {
    let c = Calculator { x: 2, y: 2 };
    assert_eq!(c.add(), 4);
    assert_eq!(c.sub(), 0);
    assert_eq!(c.mul(), 4);
    assert_eq!(c.div(), Some(1));
}

#[test]
fn division_rounds_toward_zero() {
    assert_eq!(Calculator { x: -7, y: 2 }.div(), Some(-3));
    assert_eq!(Calculator { x: 7, y: -2 }.div(), Some(-3));
    assert_eq!(Calculator { x: -7, y: -2 }.div(), Some(3));
    assert_eq!(Calculator { x: 7, y: 2 }.div(), Some(3));
}

#[test]
fn division_by_zero_is_none() {
    assert_eq!(Calculator { x: 5, y: 0 }.div(), None);
}

#[test]
fn bitwise_results() {
    let c = Calculator { x: 12, y: 10 };
    assert_eq!(c.and(), 8);
    assert_eq!(c.or(), 14);
    assert_eq!(c.xor(), 6);
    let n = Calculator { x: -1, y: 5 };
    assert_eq!(n.and(), 5);
    assert_eq!(n.xor(), -6);
}

#[test]
fn report_collects_every_result() {
    let r = Calculator { x: 9, y: -4 }.report();
    assert_eq!(r.add, 5);
    assert_eq!(r.sub, 13);
    assert_eq!(r.mul, -36);
    assert_eq!(r.div, Some(-2));
    assert_eq!(r.and, 9 & -4);
    assert_eq!(r.or, 9 | -4);
    assert_eq!(r.xor, 9 ^ -4);
    assert_eq!(Calculator { x: 1, y: 0 }.report().div, None);
}
