//! The arithmetic that the tracer needs of its coordinates and field
//! values, and the three-component vector built on it.

use vstd::prelude::*;

verus! {

/// A number type the tracer can compute with.
///
/// The library is written against this interface and assumes nothing of
/// the numbers an implementation returns. Its contracts say which
/// operations a result comes from and in which arrangement, through the
/// relations below; what an operation yields is left to the number type.
pub trait Scalar: Copy {
    /// The number `mantissa * 10^exponent`, as closely as the type holds it.
    fn decimal(mantissa: i64, exponent: i32) -> Self;

    /// The count `n` as a number.
    fn from_count(n: usize) -> Self;

    /// The least count that is not below the number; `0` where there is
    /// none to give (a negative number, or no number at all).
    fn ceil_count(self) -> usize;

    /// `self + rhs`
    fn plus(self, rhs: Self) -> Self;

    /// `self - rhs`
    fn minus(self, rhs: Self) -> Self;

    /// `self * rhs`
    fn times(self, rhs: Self) -> Self;

    /// `self / rhs`
    fn over(self, rhs: Self) -> Self;

    /// `self > rhs`
    fn exceeds(self, rhs: Self) -> bool;
}

/// `r` is what the number type gives for `mantissa * 10^exponent`.
pub open spec fn decimal_of<T: Scalar>(mantissa: i64, exponent: i32, r: T) -> bool {
    call_ensures(T::decimal, (mantissa, exponent), r)
}

/// `r` is what the number type gives for the count `n`.
pub open spec fn count_of<T: Scalar>(n: usize, r: T) -> bool {
    call_ensures(T::from_count, (n,), r)
}

/// `n` is what the number type gives for `a` rounded up to a count.
pub open spec fn ceiling_of<T: Scalar>(a: T, n: usize) -> bool {
    call_ensures(T::ceil_count, (a,), n)
}

/// `r` is what the number type gives for `a + b`.
pub open spec fn sum_of<T: Scalar>(a: T, b: T, r: T) -> bool {
    call_ensures(T::plus, (a, b), r)
}

/// `r` is what the number type gives for `a - b`.
pub open spec fn difference_of<T: Scalar>(a: T, b: T, r: T) -> bool {
    call_ensures(T::minus, (a, b), r)
}

/// `r` is what the number type gives for `a * b`.
pub open spec fn product_of<T: Scalar>(a: T, b: T, r: T) -> bool {
    call_ensures(T::times, (a, b), r)
}

/// `r` is what the number type gives for `a / b`.
pub open spec fn quotient_of<T: Scalar>(a: T, b: T, r: T) -> bool {
    call_ensures(T::over, (a, b), r)
}

/// `r` is what the number type gives for `a > b`.
pub open spec fn exceeds_of<T: Scalar>(a: T, b: T, r: bool) -> bool {
    call_ensures(T::exceeds, (a, b), r)
}

/// `r` is what the number type gives for `(a - b) * (a - b)`.
pub open spec fn squared_gap_of<T: Scalar>(a: T, b: T, r: T) -> bool {
    exists|d: T| difference_of(a, b, d) && product_of(d, d, r)
}

/// `r` is what the number type gives for `a + k * ds`.
pub open spec fn stride_of<T: Scalar>(a: T, k: T, ds: T, r: T) -> bool {
    exists|d: T| product_of(k, ds, d) && sum_of(a, d, r)
}

/// `r` is what the number type gives for the squared Euclidean distance
/// from `p` to `q`: the squared gaps along the three axes, added up in this
/// order.
pub open spec fn distance_2_of<T: Scalar>(p: Vec3<T>, q: Vec3<T>, r: T) -> bool {
    exists|xx: T, yy: T, zz: T, xy: T|
        squared_gap_of(p.x, q.x, xx) && squared_gap_of(p.y, q.y, yy) && squared_gap_of(
            p.z,
            q.z,
            zz,
        ) && sum_of(xx, yy, xy) && sum_of(xy, zz, r)
}

/// `r` is what the number type gives for the point reached from `p` along
/// `direction` after a path of length `ds`.
pub open spec fn advanced_of<T: Scalar>(p: Vec3<T>, direction: Vec3<T>, ds: T, r: Vec3<T>) -> bool {
    &&& stride_of(p.x, direction.x, ds, r.x)
    &&& stride_of(p.y, direction.y, ds, r.y)
    &&& stride_of(p.z, direction.z, ds, r.z)
}

/// Three components: a position, or the direction cosines of a ray.
#[derive(Debug)]
pub struct Vec3<T> {
    pub x: T,
    pub y: T,
    pub z: T,
}

impl<T: Copy> Copy for Vec3<T> {

}

impl<T: Copy> Clone for Vec3<T> {
    fn clone(&self) -> (r: Self)
        ensures
            r == *self,
    {
        *self
    }
}

impl<T: Scalar> Vec3<T> {
    /// The squared Euclidean distance to `other`.
    pub fn distance_2(&self, other: &Vec3<T>) -> (r: T)
        ensures
            distance_2_of(*self, *other, r),
    {
        let dx = self.x.minus(other.x);
        let dy = self.y.minus(other.y);
        let dz = self.z.minus(other.z);
        let xx = dx.times(dx);
        let yy = dy.times(dy);
        let zz = dz.times(dz);
        let xy = xx.plus(yy);
        let r = xy.plus(zz);
        proof {
            assert(difference_of(self.x, other.x, dx) && product_of(dx, dx, xx));
            assert(difference_of(self.y, other.y, dy) && product_of(dy, dy, yy));
            assert(difference_of(self.z, other.z, dz) && product_of(dz, dz, zz));
            assert(sum_of(xx, yy, xy) && sum_of(xy, zz, r));
        }
        r
    }

    /// The point reached from `self` along `direction` after a path of
    /// length `ds`.
    pub fn advanced(&self, direction: &Vec3<T>, ds: T) -> (r: Vec3<T>)
        ensures
            advanced_of(*self, *direction, ds, r),
    {
        let dx = direction.x.times(ds);
        let dy = direction.y.times(ds);
        let dz = direction.z.times(ds);
        let r = Vec3 { x: self.x.plus(dx), y: self.y.plus(dy), z: self.z.plus(dz) };
        proof {
            assert(product_of(direction.x, ds, dx) && sum_of(self.x, dx, r.x));
            assert(product_of(direction.y, ds, dy) && sum_of(self.y, dy, r.y));
            assert(product_of(direction.z, ds, dz) && sum_of(self.z, dz, r.z));
        }
        r
    }
}

} // verus!
