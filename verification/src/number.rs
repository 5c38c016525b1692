//! Arithmetic over the number type of the panel.
//!
//! The panel computes with whatever [`Number`] the program around it uses. Nothing is presumed
//! of how precise its operators are, or whether they give the same result twice: the relations
//! here only say that one value came out of an operator applied to others.

use core::ops::{Add, Div, Mul, Neg, Sub};
use vstd::prelude::*;
use vstd::std_specs::ops::{AddSpec, DivSpec, MulSpec, NegSpec, SubSpec};

verus! {

/// What the panel needs of a number. `f32` is one.
pub trait Number: Copy + PartialOrd + Add<Output = Self> + Sub<Output = Self> + Mul<
    Output = Self,
> + Div<Output = Self> + Neg<Output = Self> + From<u16> {

}

impl<
    T: Copy + PartialOrd + Add<Output = T> + Sub<Output = T> + Mul<Output = T> + Div<
        Output = T,
    > + Neg<Output = T> + From<u16>,
> Number for T {

}

/// The operators of `V` accept every operand, as those of a floating-point type do.
pub open spec fn defined_everywhere<V: Number>() -> bool {
    &&& forall|a: V, b: V| #[trigger] a.add_req(b)
    &&& forall|a: V, b: V| #[trigger] a.sub_req(b)
    &&& forall|a: V, b: V| #[trigger] a.mul_req(b)
    &&& forall|a: V, b: V| #[trigger] a.div_req(b)
    &&& forall|a: V| #[trigger] a.neg_req()
}

/// The operators, comparisons and conversions of `V` give one result for given operands.
pub open spec fn repeatable<V: Number>() -> bool {
    &&& forall|a: V, b: V, r: V, s: V| #[trigger]
        add_of(a, b, r) && #[trigger] add_of(a, b, s) ==> r == s
    &&& forall|a: V, b: V, r: V, s: V| #[trigger]
        sub_of(a, b, r) && #[trigger] sub_of(a, b, s) ==> r == s
    &&& forall|a: V, b: V, r: V, s: V| #[trigger]
        mul_of(a, b, r) && #[trigger] mul_of(a, b, s) ==> r == s
    &&& forall|a: V, b: V, r: V, s: V| #[trigger]
        div_of(a, b, r) && #[trigger] div_of(a, b, s) ==> r == s
    &&& forall|a: V, b: V, r: bool, s: bool| #[trigger]
        lt_of(a, b, r) && #[trigger] lt_of(a, b, s) ==> r == s
    &&& forall|a: V, b: V, r: bool, s: bool| #[trigger]
        le_of(a, b, r) && #[trigger] le_of(a, b, s) ==> r == s
    &&& forall|n: u16, r: V, s: V| #[trigger] from_of(n, r) && #[trigger] from_of(n, s) ==> r == s
}

/// `r` came out of `a + b`.
pub open spec fn add_of<V: Number>(a: V, b: V, r: V) -> bool {
    call_ensures(<V as Add>::add, (a, b), r)
}

/// `r` came out of `a - b`.
pub open spec fn sub_of<V: Number>(a: V, b: V, r: V) -> bool {
    call_ensures(<V as Sub>::sub, (a, b), r)
}

/// `r` came out of `a * b`.
pub open spec fn mul_of<V: Number>(a: V, b: V, r: V) -> bool {
    call_ensures(<V as Mul>::mul, (a, b), r)
}

/// `r` came out of `a / b`.
pub open spec fn div_of<V: Number>(a: V, b: V, r: V) -> bool {
    call_ensures(<V as Div>::div, (a, b), r)
}

/// `r` came out of `-a`.
pub open spec fn neg_of<V: Number>(a: V, r: V) -> bool {
    call_ensures(<V as Neg>::neg, (a,), r)
}

/// `r` came out of `a < b`.
pub open spec fn lt_of<V: Number>(a: V, b: V, r: bool) -> bool {
    call_ensures(<V as PartialOrd>::lt, (&a, &b), r)
}

/// `r` came out of `a <= b`.
pub open spec fn le_of<V: Number>(a: V, b: V, r: bool) -> bool {
    call_ensures(<V as PartialOrd>::le, (&a, &b), r)
}

/// `r` came out of converting `n`.
pub open spec fn from_of<V: Number>(n: u16, r: V) -> bool {
    call_ensures(<V as From<u16>>::from, (n,), r)
}

/// `r` is the number written `numerator / denominator`.
pub open spec fn ratio_of<V: Number>(numerator: u16, denominator: u16, r: V) -> bool {
    exists|n: V, d: V|
        #![trigger from_of(numerator, n), from_of(denominator, d)]
        from_of(numerator, n) && from_of(denominator, d) && div_of(n, d, r)
}

/// `r` is the lesser of `a` and `b`, and the other one where one of them is unordered.
pub open spec fn lesser_of<V: Number>(a: V, b: V, r: V) -> bool {
    exists|below: bool, ordered: bool|
        #![trigger lt_of(a, b, below), le_of(b, b, ordered)]
        lt_of(a, b, below) && le_of(b, b, ordered) && r == if below || !ordered {
            a
        } else {
            b
        }
}

/// `r` is the greater of `a` and `b`, and the other one where one of them is unordered.
pub open spec fn greater_of<V: Number>(a: V, b: V, r: V) -> bool {
    exists|above: bool, ordered: bool|
        #![trigger lt_of(b, a, above), le_of(b, b, ordered)]
        lt_of(b, a, above) && le_of(b, b, ordered) && r == if above || !ordered {
            a
        } else {
            b
        }
}

/// `r` is `x` held between 0 and 1: first to at most 1, then to at least 0.
pub open spec fn unit_of<V: Number>(x: V, r: V) -> bool {
    exists|zero: V, one: V, capped: V|
        #![trigger from_of(0, zero), lesser_of(x, one, capped)]
        from_of(0, zero) && from_of(1, one) && lesser_of(x, one, capped) && greater_of(
            capped,
            zero,
            r,
        )
}

/// The number `numerator / denominator`.
pub fn ratio<V: Number>(numerator: u16, denominator: u16) -> (r: V)
    requires
        defined_everywhere::<V>(),
    ensures
        ratio_of(numerator, denominator, r),
{
    let n = V::from(numerator);
    let d = V::from(denominator);
    let r = n / d;
    assert(from_of(numerator, n) && from_of(denominator, d) && div_of(n, d, r));
    r
}

/// The lesser of two numbers. A number that is not ordered (not a number) gives way to the other.
pub fn lesser<V: Number>(a: V, b: V) -> (r: V)
    ensures
        lesser_of(a, b, r),
{
    let below = a < b;
    let ordered = b <= b;
    assert(lt_of(a, b, below) && le_of(b, b, ordered));
    if below || !ordered {
        a
    } else {
        b
    }
}

/// The greater of two numbers. A number that is not ordered gives way to the other.
pub fn greater<V: Number>(a: V, b: V) -> (r: V)
    ensures
        greater_of(a, b, r),
{
    let above = b < a;
    let ordered = b <= b;
    assert(lt_of(b, a, above) && le_of(b, b, ordered));
    if above || !ordered {
        a
    } else {
        b
    }
}

/// `x` held between 0 and 1.
pub fn unit<V: Number>(x: V) -> (r: V)
    ensures
        unit_of(x, r),
{
    let zero = V::from(0u16);
    let one = V::from(1u16);
    let capped = lesser(x, one);
    let r = greater(capped, zero);
    assert(from_of(0, zero) && lesser_of(x, one, capped));
    r
}

/// Where each number of `V` stands on the line of real numbers. What stands nowhere is not a
/// number.
#[verifier::reject_recursive_types(V)]
pub struct Scale<V> {
    pub place: spec_fn(V) -> Option<real>,
}

impl<V: Number> Scale<V> {
    /// The comparisons of `V` answer by this scale, and no comparison with what is not a number
    /// comes out true.
    pub open spec fn followed(self) -> bool {
        &&& forall|a: V, b: V, r: bool| #[trigger] lt_of(a, b, r) ==> r == self.below(a, b)
        &&& forall|a: V, b: V, r: bool| #[trigger] le_of(a, b, r) ==> r == self.at_most(a, b)
    }

    /// Whole numbers stand where they belong.
    pub open spec fn counts(self) -> bool {
        forall|n: u16, r: V| #[trigger] from_of(n, r) ==> (self.place)(r) == Some(n as real)
    }

    /// `a` is a number.
    pub open spec fn has(self, a: V) -> bool {
        (self.place)(a) is Some
    }

    /// Where the number `a` stands.
    pub open spec fn at(self, a: V) -> real {
        (self.place)(a)->0
    }

    /// `a` stands below `b`.
    pub open spec fn below(self, a: V, b: V) -> bool {
        self.has(a) && self.has(b) && self.at(a) < self.at(b)
    }

    /// `a` stands below or at `b`.
    pub open spec fn at_most(self, a: V, b: V) -> bool {
        self.has(a) && self.has(b) && self.at(a) <= self.at(b)
    }

    /// `x` stands from 0 to 1.
    pub open spec fn in_unit_interval(self, x: V) -> bool {
        self.has(x) && 0 as real <= self.at(x) <= 1 as real
    }
}

/// A number held between 0 and 1 is at least 0 and at most 1, whatever it was before, even where
/// it was not a number. Where it was between 0 and 1 it keeps its place.
pub proof fn law_unit_is_in_unit_interval<V: Number>(scale: Scale<V>, x: V, r: V)
    requires
        scale.followed(),
        scale.counts(),
        unit_of(x, r),
    ensures
        scale.in_unit_interval(r),
        scale.in_unit_interval(x) ==> (scale.place)(r) == (scale.place)(x),
{
}

/// Of two numbers the lesser is always one of the two. Where both are numbers it is at most either,
/// and where one is not it is the other.
pub proof fn law_lesser_is_at_most_either<V: Number>(scale: Scale<V>, a: V, b: V, r: V)
    requires
        scale.followed(),
        lesser_of(a, b, r),
    ensures
        r == a || r == b,
        scale.has(a) && scale.has(b) ==> scale.at_most(r, a) && scale.at_most(r, b),
        !scale.has(b) ==> r == a,
        !scale.has(a) && scale.has(b) ==> r == b,
{
}

/// Of two numbers the greater is always one of the two. Where both are numbers it is at least
/// either, and where one is not it is the other.
pub proof fn law_greater_is_at_least_either<V: Number>(scale: Scale<V>, a: V, b: V, r: V)
    requires
        scale.followed(),
        greater_of(a, b, r),
    ensures
        r == a || r == b,
        scale.has(a) && scale.has(b) ==> scale.at_most(a, r) && scale.at_most(b, r),
        !scale.has(b) ==> r == a,
        !scale.has(a) && scale.has(b) ==> r == b,
{
}

/// What is below 0 is held at 0, and what is above 1, or not a number, at 1.
pub proof fn law_unit_holds_at_the_nearer_end<V: Number>(scale: Scale<V>, x: V, r: V)
    requires
        scale.followed(),
        scale.counts(),
        call_ensures(unit::<V>, (x,), r),
    ensures
        scale.has(x) && scale.at(x) < 0 as real ==> (scale.place)(r) == Some(0 as real),
        scale.has(x) && 0 as real <= scale.at(x) <= 1 as real ==> (scale.place)(r) == (scale.place)(
            x,
        ),
        !scale.has(x) || scale.at(x) > 1 as real ==> (scale.place)(r) == Some(1 as real),
{
}

/// What comes out of comparing two numbers is the lesser, or the greater, of them: the one that
/// stands nowhere above, or below, the other.
pub proof fn law_the_lesser_and_the_greater<V: Number>(scale: Scale<V>, a: V, b: V, low: V, high: V)
    requires
        scale.followed(),
        scale.has(a),
        scale.has(b),
        call_ensures(lesser::<V>, (a, b), low),
        call_ensures(greater::<V>, (a, b), high),
    ensures
        scale.at(a) < scale.at(b) ==> low == a && high == b,
        scale.at(b) < scale.at(a) ==> low == b && high == a,
        scale.at(a) == scale.at(b) ==> (scale.place)(low) == (scale.place)(high),
{
}

/// Beside what is not a number, a number is both the lesser and the greater.
pub proof fn law_numbers_prevail<V: Number>(scale: Scale<V>, a: V, b: V, low: V, high: V)
    requires
        scale.followed(),
        scale.has(a) != scale.has(b),
        call_ensures(lesser::<V>, (a, b), low),
        call_ensures(greater::<V>, (a, b), high),
    ensures
        scale.has(a) ==> low == a && high == a,
        scale.has(b) ==> low == b && high == b,
{
}

}
