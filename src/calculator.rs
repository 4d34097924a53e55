use vstd::prelude::*;

verus! {

/// Two operands for the arithmetic and bitwise operations below.
#[derive(Debug)]
pub struct Calculator {
    pub x: i32,
    pub y: i32,
}

impl View for Calculator {
    type V = (i32, i32);

    open spec fn view(&self) -> (i32, i32) {
        (self.x, self.y)
    }
}

pub open spec fn fits_i32(v: int) -> bool {
    i32::MIN <= v <= i32::MAX
}

/// Rust's integer quotient, rounded toward zero, written with the
/// Euclidean division of specifications.
pub open spec fn quotient(a: int, b: int) -> int {
    if a >= 0 {
        a / b
    } else {
        -((-a) / b)
    }
}

pub trait AdditiveOperations: View<V = (i32, i32)> {
    fn add(&self) -> (r: i32)
        requires
            fits_i32(self@.0 + self@.1),
        ensures
            r == self@.0 + self@.1,
    ;

    fn sub(&self) -> (r: i32)
        requires
            fits_i32(self@.0 - self@.1),
        ensures
            r == self@.0 - self@.1,
    ;
}

pub trait MultiplicativeOperations: View<V = (i32, i32)> {
    fn mul(&self) -> (r: i32)
        requires
            fits_i32(self@.0 * self@.1),
        ensures
            r == self@.0 * self@.1,
    ;

    /// `None` when dividing by zero.
    fn div(&self) -> (r: Option<i32>)
        requires
            fits_i32(quotient(self@.0 as int, self@.1 as int)) || self@.1 == 0,
        ensures
            self@.1 == 0 ==> r is None,
            self@.1 != 0 ==> r == Some(quotient(self@.0 as int, self@.1 as int) as i32),
    ;
}

pub trait BinaryOperations: View<V = (i32, i32)> {
    fn and(&self) -> (r: i32)
        ensures
            r == self@.0 & self@.1,
    ;

    fn or(&self) -> (r: i32)
        ensures
            r == self@.0 | self@.1,
    ;

    fn xor(&self) -> (r: i32)
        ensures
            r == self@.0 ^ self@.1,
    ;
}

/// Every operation's result on one pair of operands; `div` is `None` when
/// dividing by zero.
#[derive(Debug, PartialEq, Eq, Structural, Clone, Copy)]
pub struct Report {
    pub add: i32,
    pub sub: i32,
    pub mul: i32,
    pub div: Option<i32>,
    pub and: i32,
    pub or: i32,
    pub xor: i32,
}

impl Calculator {
    /// All results at once, for display.
    pub fn report(&self) -> (r: Report)
        requires
            fits_i32(self.x + self.y),
            fits_i32(self.x - self.y),
            fits_i32(self.x * self.y),
            fits_i32(quotient(self.x as int, self.y as int)) || self.y == 0,
        ensures
            r.add == self.x + self.y,
            r.sub == self.x - self.y,
            r.mul == self.x * self.y,
            self.y == 0 ==> r.div is None,
            self.y != 0 ==> r.div == Some(quotient(self.x as int, self.y as int) as i32),
            r.and == self.x & self.y,
            r.or == self.x | self.y,
            r.xor == self.x ^ self.y,
    {
        Report {
            add: self.add(),
            sub: self.sub(),
            mul: self.mul(),
            div: self.div(),
            and: self.and(),
            or: self.or(),
            xor: self.xor(),
        }
    }
}

impl AdditiveOperations for Calculator {
    fn add(&self) -> (r: i32) {
        self.x + self.y
    }

    fn sub(&self) -> (r: i32) {
        self.x - self.y
    }
}

impl MultiplicativeOperations for Calculator {
    fn mul(&self) -> (r: i32) {
        self.x * self.y
    }

    fn div(&self) -> (r: Option<i32>) {
        if self.y == 0 {
            None
        } else {
            Some(self.x / self.y)
        }
    }
}

impl BinaryOperations for Calculator {
    fn and(&self) -> (r: i32) {
        self.x & self.y
    }

    fn or(&self) -> (r: i32) {
        self.x | self.y
    }

    fn xor(&self) -> (r: i32) {
        self.x ^ self.y
    }
}

} // verus!
