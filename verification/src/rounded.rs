//! Arithmetic that rounds every result correctly, as that of a floating-point type does, and what
//! holds in it without any error.

use crate::engine::{half_of, rebalanced_of, reduced_of, taken_of};
use crate::exact::{held, multiplied};
use crate::number::{
    add_of, div_of, from_of, lesser_of, lt_of, mul_of, ratio_of, sub_of, unit_of, Number, Scale,
};
use crate::rounding::size;
use crate::waterfall::{
    bin_before, blended_of, long_enough, row_len, row_of, scrolled, total_len, SamplePoint,
};
use vstd::prelude::*;

verus! {

/// Arithmetic that rounds correctly: every result is the exact result, rounded by `round`. This
/// holds as long as neither the operands nor the exact result are further from 0 than `largest`.
/// `f32` is one such arithmetic, and exact arithmetic is the one where `round` changes nothing.
#[verifier::reject_recursive_types(V)]
pub struct Rounded<V> {
    pub scale: Scale<V>,
    pub round: spec_fn(real) -> real,
    pub largest: real,
}

impl<V: Number> Rounded<V> {
    /// `a` is a number that is not too large.
    pub open spec fn within(self, a: V) -> bool {
        self.scale.has(a) && size(self.scale.at(a)) <= self.largest
    }

    /// `r` stands at `x` rounded, where `x` is not too large.
    pub open spec fn gives(self, x: real, r: V) -> bool {
        size(x) <= self.largest ==> (self.scale.place)(r) == Some((self.round)(x))
    }

    /// Rounding leaves the whole number `n`.
    pub open spec fn keeps(self, n: int) -> bool {
        (self.round)(n as real) == n as real
    }

    /// Rounding never turns two results around, leaves whole numbers and what is a number already,
    /// and keeps different numbers apart.
    #[verifier::opaque]
    pub open spec fn steady(self) -> bool {
        &&& forall|x: real, y: real|
            x <= y ==> #[trigger] (self.round)(x) <= #[trigger] (self.round)(y)
        &&& forall|n: int| -65535 <= n <= 65535 ==> #[trigger] self.keeps(n)
        &&& forall|a: V| #[trigger] self.within(a) ==> (self.round)(self.scale.at(a))
            == self.scale.at(a)
        &&& forall|a: V, b: V|
            self.within(a) && self.within(b) && #[trigger] self.scale.below(a, b) ==> (self.round)(
                self.scale.at(b) - self.scale.at(a),
            ) > 0 as real
    }

    /// The operators of `V` round this way, and its comparisons are those of the real numbers.
    pub open spec fn followed(self) -> bool {
        let scale = self.scale;
        &&& scale.followed()
        &&& scale.counts()
        &&& self.steady()
        &&& forall|a: V, b: V, r: V| #[trigger]
            add_of(a, b, r) && self.within(a) && self.within(b) ==> self.gives(
                scale.at(a) + scale.at(b),
                r,
            )
        &&& forall|a: V, b: V, r: V| #[trigger]
            sub_of(a, b, r) && self.within(a) && self.within(b) ==> self.gives(
                scale.at(a) - scale.at(b),
                r,
            )
        &&& forall|a: V, b: V, r: V| #[trigger]
            mul_of(a, b, r) && self.within(a) && self.within(b) ==> self.gives(
                scale.at(a) * scale.at(b),
                r,
            )
        &&& forall|a: V, b: V, r: V| #[trigger]
            div_of(a, b, r) && self.within(a) && self.within(b) && scale.at(b) != 0 as real
                ==> self.gives(scale.at(a) / scale.at(b), r)
    }
}

proof fn lemma_rises<V: Number>(rounded: Rounded<V>, x: real, y: real)
    requires
        rounded.steady(),
        x <= y,
    ensures
        (rounded.round)(x) <= (rounded.round)(y),
{
    reveal(Rounded::steady);
}

proof fn lemma_number<V: Number>(rounded: Rounded<V>, a: V)
    requires
        rounded.steady(),
        rounded.within(a),
    ensures
        (rounded.round)(rounded.scale.at(a)) == rounded.scale.at(a),
{
    reveal(Rounded::steady);
}

/// Rounding leaves -2, 0, 1 and 2, so that it keeps what is between two of them there.
proof fn lemma_keeps<V: Number>(rounded: Rounded<V>, x: real)
    requires
        rounded.steady(),
        -2 as real <= x <= 2 as real,
    ensures
        -2 as real <= (rounded.round)(x) <= 2 as real,
        0 as real <= x ==> 0 as real <= (rounded.round)(x),
        x <= 0 as real ==> (rounded.round)(x) <= 0 as real,
        x <= 1 as real ==> (rounded.round)(x) <= 1 as real,
        -1 as real <= x ==> -1 as real <= (rounded.round)(x),
{
    reveal(Rounded::steady);
    assert(rounded.keeps(-2) && rounded.keeps(-1) && rounded.keeps(0) && rounded.keeps(1)
        && rounded.keeps(2));
}

/// What is left of a volume `v` after a number `amount` went elsewhere is no more than `v` where
/// `amount` is at least 0, and no less where it is at most 0.
proof fn lemma_reduced<V: Number>(rounded: Rounded<V>, v: V, amount: V, r: V)
    requires
        rounded.followed(),
        rounded.largest >= 2 as real,
        rounded.scale.in_unit_interval(v),
        rounded.scale.has(amount),
        size(rounded.scale.at(amount)) <= 1 as real,
        reduced_of(v, amount, r),
    ensures
        rounded.scale.has(r),
        0 as real <= rounded.scale.at(amount) ==> rounded.scale.at_most(r, v),
        rounded.scale.at(amount) <= 0 as real ==> rounded.scale.at_most(v, r),
{
    let scale = rounded.scale;
    let left = choose|left: V| #[trigger] sub_of(v, amount, left) && unit_of(left, r);
    let (a, x) = (scale.at(v), scale.at(v) - scale.at(amount));
    assert(rounded.within(v) && rounded.within(amount));
    assert(rounded.gives(x, left));
    lemma_number(rounded, v);
    if x <= a {
        lemma_rises(rounded, x, a);
    }
    if a <= x {
        lemma_rises(rounded, a, x);
    }
    assert(scale.at(r) == held(scale.at(left)));
}

proof fn lemma_one_half<V: Number>(rounded: Rounded<V>, r: V)
    requires
        rounded.followed(),
        rounded.largest >= 2 as real,
        ratio_of(1, 2, r),
    ensures
        rounded.scale.in_unit_interval(r),
{
    let (one, two) = choose|n: V, d: V|
        #![trigger from_of(1, n), from_of(2, d)]
        from_of(1, n) && from_of(2, d) && div_of(n, d, r);
    assert(rounded.within(one) && rounded.within(two));
    assert(rounded.gives(rounded.scale.at(one) / rounded.scale.at(two), r));
    lemma_keeps(rounded, 1 as real / 2 as real);
}

proof fn lemma_taken<V: Number>(
    rounded: Rounded<V>,
    change: V,
    smaller: V,
    larger: V,
    new_smaller: V,
    new_larger: V,
)
    requires
        rounded.followed(),
        rounded.largest >= 2 as real,
        rounded.scale.has(change),
        size(rounded.scale.at(change)) <= 1 as real,
        rounded.scale.in_unit_interval(smaller),
        rounded.scale.in_unit_interval(larger),
        taken_of(change, smaller, larger, new_smaller, new_larger),
    ensures
        0 as real <= rounded.scale.at(change) ==> rounded.scale.at_most(new_smaller, smaller)
            && rounded.scale.at_most(new_larger, larger),
        rounded.scale.at(change) <= 0 as real ==> rounded.scale.at_most(smaller, new_smaller)
            && rounded.scale.at_most(larger, new_larger),
{
    let (scale, round) = (rounded.scale, rounded.round);
    let (half, first, rest) = choose|half: V, first: V, rest: V|
        #![trigger lesser_of(smaller, half, first), sub_of(change, first, rest)]
        half_of(change, half) && lesser_of(smaller, half, first) && sub_of(change, first, rest)
            && reduced_of(smaller, first, new_smaller) && reduced_of(larger, rest, new_larger);
    let part = choose|part: V| #[trigger] ratio_of(1, 2, part) && mul_of(change, part, half);
    lemma_one_half(rounded, part);
    let (d, h) = (scale.at(change), scale.at(part));
    assert((0 as real <= d ==> 0 as real <= d * h <= d) && (d <= 0 as real ==> d <= d * h
        && d * h <= 0 as real)) by (nonlinear_arith)
        requires
            0 as real <= h <= 1 as real,
    ;
    assert(rounded.within(change) && rounded.within(part));
    assert(rounded.gives(d * h, half));
    lemma_number(rounded, change);
    lemma_keeps(rounded, d * h);
    if 0 as real <= d {
        lemma_rises(rounded, d * h, d);
    }
    if d <= 0 as real {
        lemma_rises(rounded, d, d * h);
    }
    let (a, m, f) = (scale.at(smaller), scale.at(half), scale.at(first));
    assert(scale.has(first) && f == if a < m {
        a
    } else {
        m
    });
    assert(rounded.within(first));
    assert(rounded.gives(d - f, rest));
    lemma_keeps(rounded, d - f);
    lemma_reduced(rounded, smaller, first, new_smaller);
    lemma_reduced(rounded, larger, rest, new_larger);
}

/// Raising a volume of the mix raises no other, and lowering it lowers no other, rounding included.
pub proof fn law_raising_a_volume_raises_no_other<V: Number>(
    rounded: Rounded<V>,
    previous: V,
    value: V,
    one: V,
    two: V,
    new_one: V,
    new_two: V,
)
    requires
        rounded.followed(),
        rounded.largest >= 2 as real,
        rounded.scale.in_unit_interval(previous),
        rounded.scale.in_unit_interval(value),
        rounded.scale.in_unit_interval(one),
        rounded.scale.in_unit_interval(two),
        rebalanced_of(previous, value, one, two, new_one, new_two),
    ensures
        rounded.scale.at_most(previous, value) ==> rounded.scale.at_most(new_one, one)
            && rounded.scale.at_most(new_two, two),
        rounded.scale.at_most(value, previous) ==> rounded.scale.at_most(one, new_one)
            && rounded.scale.at_most(two, new_two),
{
    let scale = rounded.scale;
    let (change, below) = choose|change: V, below: bool|
        #![trigger sub_of(value, previous, change), lt_of(one, two, below)]
        sub_of(value, previous, change) && lt_of(one, two, below) && if below {
            taken_of(change, one, two, new_one, new_two)
        } else {
            taken_of(change, two, one, new_two, new_one)
        };
    assert(rounded.within(value) && rounded.within(previous));
    assert(rounded.gives(scale.at(value) - scale.at(previous), change));
    lemma_keeps(rounded, scale.at(value) - scale.at(previous));
    if below {
        lemma_taken(rounded, change, one, two, new_one, new_two);
    } else {
        lemma_taken(rounded, change, two, one, new_two, new_one);
    }
}

impl<V: Number> Rounded<V> {
    /// `x` and `factor` times `x` are rounded alike: neither is too large, and `x` is 0 or not
    /// closer to 0 than `least`.
    pub open spec fn regular(self, factor: real, least: real, x: real) -> bool {
        &&& x == 0 as real || least <= size(x)
        &&& size(x) <= self.largest
        &&& size(factor * x) <= self.largest
        &&& size((self.round)(x)) <= self.largest
        &&& size(factor * (self.round)(x)) <= self.largest
    }

    /// Rounding goes along with `factor` down to `least`, as that of `f32` does with 2 down to the
    /// smallest normal number.
    pub open spec fn goes_with(self, factor: real, least: real) -> bool {
        forall|x: real| #[trigger]
            self.regular(factor, least, x) ==> (self.round)(factor * x) == factor * (self.round)(x)
    }

    /// Nothing gets too large or too close to 0 where the bins `low` and `high`, or `factor` times
    /// both, are blended.
    pub open spec fn blends_within(
        self,
        factor: real,
        least: real,
        low: V,
        high: V,
        fraction: V,
    ) -> bool {
        let (a, b, t) = (self.scale.at(low), self.scale.at(high), self.scale.at(fraction));
        let rest = (self.round)(1 as real - t);
        &&& self.within(low)
        &&& self.within(high)
        &&& self.within(fraction)
        &&& size(factor * a) <= self.largest
        &&& size(factor * b) <= self.largest
        &&& 1 as real <= self.largest
        &&& size(1 as real - t) <= self.largest
        &&& size(rest) <= self.largest
        &&& self.regular(factor, least, a * rest)
        &&& self.regular(factor, least, b * t)
        &&& self.regular(factor, least, (self.round)(a * rest) + (self.round)(b * t))
    }
}

proof fn lemma_blended<V: Number>(rounded: Rounded<V>, low: V, high: V, fraction: V, r: V)
    requires
        rounded.followed(),
        rounded.within(low),
        rounded.within(high),
        rounded.within(fraction),
        1 as real <= rounded.largest,
        blended_of(low, high, fraction, r),
        ({
            let scale = rounded.scale;
            let (a, b, t) = (scale.at(low), scale.at(high), scale.at(fraction));
            let rest = (rounded.round)(1 as real - t);
            let (left, right) = ((rounded.round)(a * rest), (rounded.round)(b * t));
            &&& size(1 as real - t) <= rounded.largest
            &&& size(rest) <= rounded.largest
            &&& size(a * rest) <= rounded.largest
            &&& size(b * t) <= rounded.largest
            &&& size(left) <= rounded.largest
            &&& size(right) <= rounded.largest
            &&& size(left + right) <= rounded.largest
        }),
    ensures
        ({
            let scale = rounded.scale;
            let (a, b, t) = (scale.at(low), scale.at(high), scale.at(fraction));
            let rest = (rounded.round)(1 as real - t);
            let (left, right) = ((rounded.round)(a * rest), (rounded.round)(b * t));
            (scale.place)(r) == Some((rounded.round)(left + right))
        }),
{
    let (one, rest, left, right) = choose|one: V, rest: V, left: V, right: V|
        #![trigger
            sub_of(one, fraction, rest),
            mul_of(low, rest, left),
            mul_of(high, fraction, right),
        ]
        from_of(1, one) && sub_of(one, fraction, rest) && mul_of(low, rest, left) && mul_of(
            high,
            fraction,
            right,
        ) && add_of(left, right, r);
    let scale = rounded.scale;
    assert(rounded.within(one));
    assert(rounded.gives(1 as real - scale.at(fraction), rest));
    assert(rounded.within(rest));
    assert(rounded.gives(scale.at(low) * scale.at(rest), left));
    assert(rounded.gives(scale.at(high) * scale.at(fraction), right));
    assert(rounded.within(left) && rounded.within(right));
    assert(rounded.gives(scale.at(left) + scale.at(right), r));
}

/// A spectrum that is twice as strong gives a row on top of the waterfall that is exactly twice as
/// strong, rounding included, and leaves the rows below as they are. The same holds of any other
/// factor that rounding goes along with.
pub proof fn law_rows_double_with_the_spectrum<V: Number>(
    rounded: Rounded<V>,
    factor: real,
    least: real,
    points: Seq<SamplePoint<V>>,
    cells: Seq<V>,
    line: Seq<V>,
    other: Seq<V>,
    row: Seq<V>,
    other_row: Seq<V>,
)
    requires
        rounded.followed(),
        rounded.goes_with(factor, least),
        points.len() == row_len(),
        cells.len() == total_len(),
        multiplied(rounded.scale, factor, line, other),
        long_enough(points, line),
        forall|i: int|
            0 <= i < points.len() ==> rounded.blends_within(
                factor,
                least,
                line[bin_before((#[trigger] points[i]).index)],
                line[points[i].index as int],
                points[i].fraction,
            ),
        row_of(points, line, row),
        row_of(points, other, other_row),
    ensures
        long_enough(points, other),
        multiplied(rounded.scale, factor, row, other_row),
        scrolled(cells, row).take(row_len()) == row,
        scrolled(cells, other_row).take(row_len()) == other_row,
        scrolled(cells, row).skip(row_len()) == scrolled(cells, other_row).skip(row_len()),
{
    let (scale, round) = (rounded.scale, rounded.round);
    assert forall|i: int| 0 <= i < row.len() implies scale.has(row[i]) && (scale.place)(
        #[trigger] other_row[i],
    ) == Some(factor * scale.at(row[i])) by {
        let point = points[i];
        let (before, at) = (bin_before(point.index), point.index as int);
        let (low, high) = (line[before], line[at]);
        let (other_low, other_high) = (other[before], other[at]);
        assert(rounded.blends_within(factor, least, low, high, point.fraction));
        assert(blended_of(low, high, point.fraction, row[i]));
        assert(blended_of(other_low, other_high, point.fraction, other_row[i]));
        let (a, b, t) = (scale.at(low), scale.at(high), scale.at(point.fraction));
        let rest = round(1 as real - t);
        let (left, right) = (round(a * rest), round(b * t));
        assert(scale.at(other_low) == factor * a && scale.at(other_high) == factor * b);
        assert(factor * a * rest == factor * (a * rest) && factor * b * t == factor * (b * t)
            && factor * left + factor * right == factor * (left + right)) by (nonlinear_arith);
        assert(round(factor * (a * rest)) == factor * left);
        assert(round(factor * (b * t)) == factor * right);
        assert(round(factor * (left + right)) == factor * round(left + right));
        lemma_blended(rounded, low, high, point.fraction, row[i]);
        lemma_blended(rounded, other_low, other_high, point.fraction, other_row[i]);
    }
}

}
