//! Arithmetic whose results may be off by so much, and what the rules of the mix come to in it.

use crate::engine::{
    half_of, law_rebalanced_volumes_are_in_unit_interval, normalized_of, rebalanced_of, reduced_of,
    taken_of,
};
use crate::exact::{given, held};
use crate::number::{
    add_of, div_of, from_of, law_unit_is_in_unit_interval, lesser_of, lt_of, mul_of, ratio_of,
    sub_of, unit_of, Number, Scale,
};
use vstd::prelude::*;

verus! {

/// How far off the results of operators may be: sums and differences by the share `unit` of the
/// exact result, products and quotients by `tiny` more, though not beyond 0. This holds as long as
/// neither the operands nor the exact result are further from 0 than `largest`. For `f32` these are
/// 2 to the power of -24, 2 to the power of -150, and the largest finite number.
pub struct Rounding {
    pub unit: real,
    pub tiny: real,
    pub largest: real,
}

/// `a` and `b` are at most `distance` apart.
pub open spec fn near(a: real, b: real, distance: real) -> bool {
    a - b <= distance && b - a <= distance
}

/// How far `x` is from 0.
pub open spec fn size(x: real) -> real {
    if x < 0 as real {
        0 as real - x
    } else {
        x
    }
}

impl Rounding {
    /// Results are rounded by a sixteenth at most, and numbers up to 8 are not too large.
    pub open spec fn fine(self) -> bool {
        &&& 0 as real <= self.unit
        &&& 0 as real <= self.tiny
        &&& self.small() <= 1 as real / 16 as real
        &&& 8 as real <= self.largest
    }

    /// A small error: how far a result of up to 4 may be off.
    pub open spec fn small(self) -> real {
        4 as real * self.unit + self.tiny
    }

    /// None of three volumes is below 0 or above a quarter of `largest`, and not all are 0.
    pub open spec fn sounds<V: Number>(self, scale: Scale<V>, a: V, b: V, c: V) -> bool {
        &&& scale.sounds(a, b, c)
        &&& 4 as real * scale.at(a) <= self.largest
        &&& 4 as real * scale.at(b) <= self.largest
        &&& 4 as real * scale.at(c) <= self.largest
    }

    /// The numbers `a` and `b` and the exact result `x` are not too large.
    pub open spec fn within<V: Number>(self, scale: Scale<V>, a: V, b: V, x: real) -> bool {
        &&& scale.has(a) && size(scale.at(a)) <= self.largest
        &&& scale.has(b) && size(scale.at(b)) <= self.largest
        &&& size(x) <= self.largest
    }

    /// The operators of `V` round no worse than this, and its comparisons are those of the real
    /// numbers.
    pub open spec fn followed<V: Number>(self, scale: Scale<V>) -> bool {
        &&& scale.followed()
        &&& scale.counts()
        &&& forall|a: V, b: V, r: V| #[trigger]
            add_of(a, b, r) ==> ({
                let x = scale.at(a) + scale.at(b);
                self.within(scale, a, b, x) ==> scale.has(r) && near(
                    scale.at(r),
                    x,
                    self.unit * size(x),
                )
            })
        &&& forall|a: V, b: V, r: V| #[trigger]
            sub_of(a, b, r) ==> ({
                let x = scale.at(a) - scale.at(b);
                self.within(scale, a, b, x) ==> scale.has(r) && near(
                    scale.at(r),
                    x,
                    self.unit * size(x),
                )
            })
        &&& forall|a: V, b: V, r: V| #[trigger]
            mul_of(a, b, r) ==> ({
                let x = scale.at(a) * scale.at(b);
                self.within(scale, a, b, x) ==> scale.has(r) && near(
                    scale.at(r),
                    x,
                    self.unit * size(x) + self.tiny,
                ) && (0 as real <= x ==> 0 as real <= scale.at(r))
            })
        &&& forall|a: V, b: V, r: V| #[trigger]
            div_of(a, b, r) && scale.at(b) != 0 as real ==> ({
                let x = scale.at(a) / scale.at(b);
                self.within(scale, a, b, x) ==> scale.has(r) && near(
                    scale.at(r),
                    x,
                    self.unit * size(x) + self.tiny,
                ) && (0 as real <= x ==> 0 as real <= scale.at(r))
            })
    }
}

proof fn lemma_small(rounding: Rounding, x: real)
    requires
        rounding.fine(),
        size(x) <= 4 as real,
    ensures
        rounding.unit * size(x) <= rounding.unit * size(x) + rounding.tiny <= rounding.small(),
{
    let (u, y) = (rounding.unit, size(x));
    assert(u * y <= 4 as real * u) by (nonlinear_arith)
        requires
            0 as real <= u,
            y <= 4 as real,
    ;
}

proof fn lemma_sub<V: Number>(rounding: Rounding, scale: Scale<V>, a: V, b: V, r: V)
    requires
        rounding.fine(),
        rounding.followed(scale),
        scale.has(a),
        scale.has(b),
        size(scale.at(a)) <= 2 as real,
        size(scale.at(b)) <= 2 as real,
        sub_of(a, b, r),
    ensures
        scale.has(r),
        near(scale.at(r), scale.at(a) - scale.at(b), rounding.small()),
{
    lemma_small(rounding, scale.at(a) - scale.at(b));
}

proof fn lemma_one_half<V: Number>(rounding: Rounding, scale: Scale<V>, r: V)
    requires
        rounding.fine(),
        rounding.followed(scale),
        ratio_of(1, 2, r),
    ensures
        scale.has(r),
        near(scale.at(r), 1 as real / 2 as real, rounding.small()),
{
    let (one, two) = choose|n: V, d: V|
        #![trigger from_of(1, n), from_of(2, d)]
        from_of(1, n) && from_of(2, d) && div_of(n, d, r);
    lemma_small(rounding, scale.at(one) / scale.at(two));
}

proof fn lemma_half<V: Number>(rounding: Rounding, scale: Scale<V>, x: V, r: V)
    requires
        rounding.fine(),
        rounding.followed(scale),
        scale.has(x),
        size(scale.at(x)) <= 2 as real,
        half_of(x, r),
    ensures
        scale.has(r),
        near(scale.at(r), scale.at(x) / 2 as real, 3 as real * rounding.small()),
{
    let half = choose|half: V| #[trigger] ratio_of(1, 2, half) && mul_of(x, half, r);
    let e = rounding.small();
    lemma_one_half(rounding, scale, half);
    let (v, h) = (scale.at(x), scale.at(half));
    assert(near(v * h, v / 2 as real, 2 as real * e)) by (nonlinear_arith)
        requires
            near(h, 1 as real / 2 as real, e),
            size(v) <= 2 as real,
            0 as real <= e,
    ;
    assert(size(v * h) <= 4 as real);
    lemma_small(rounding, v * h);
}

proof fn lemma_reduced<V: Number>(rounding: Rounding, scale: Scale<V>, v: V, amount: V, r: V)
    requires
        rounding.fine(),
        rounding.followed(scale),
        scale.has(v),
        scale.has(amount),
        size(scale.at(v)) <= 2 as real,
        size(scale.at(amount)) <= 2 as real,
        reduced_of(v, amount, r),
    ensures
        scale.has(r),
        near(scale.at(r), held(scale.at(v) - scale.at(amount)), rounding.small()),
{
    let left = choose|left: V| #[trigger] sub_of(v, amount, left) && unit_of(left, r);
    lemma_sub(rounding, scale, v, amount, left);
    assert(scale.at(r) == held(scale.at(left)));
}

proof fn lemma_taken<V: Number>(
    rounding: Rounding,
    scale: Scale<V>,
    d: real,
    change: V,
    smaller: V,
    larger: V,
    new_smaller: V,
    new_larger: V,
)
    requires
        rounding.fine(),
        rounding.followed(scale),
        size(d) <= 1 as real,
        scale.has(change),
        near(scale.at(change), d, rounding.small()),
        scale.in_unit_interval(smaller),
        scale.in_unit_interval(larger),
        taken_of(change, smaller, larger, new_smaller, new_larger),
    ensures
        ({
            let g = given(scale.at(smaller), d);
            let e = rounding.small();
            &&& scale.has(new_smaller)
            &&& scale.has(new_larger)
            &&& near(scale.at(new_smaller), held(scale.at(smaller) - g), 8 as real * e)
            &&& near(scale.at(new_larger), held(scale.at(larger) - (d - g)), 8 as real * e)
        }),
{
    let (half, first, rest) = choose|half: V, first: V, rest: V|
        #![trigger lesser_of(smaller, half, first), sub_of(change, first, rest)]
        half_of(change, half) && lesser_of(smaller, half, first) && sub_of(change, first, rest)
            && reduced_of(smaller, first, new_smaller) && reduced_of(larger, rest, new_larger);
    let e = rounding.small();
    lemma_half(rounding, scale, change, half);
    let (a, h, f) = (scale.at(smaller), scale.at(half), scale.at(first));
    assert(scale.has(first) && f == if a < h {
        a
    } else {
        h
    });
    assert(near(f, given(a, d), 4 as real * e));
    lemma_sub(rounding, scale, change, first, rest);
    lemma_reduced(rounding, scale, smaller, first, new_smaller);
    lemma_reduced(rounding, scale, larger, rest, new_larger);
}

/// Rounding does not lead astray what becomes of the other two volumes when one volume is moved:
/// each is within eight small errors of what it would be without any.
pub proof fn law_moving_a_volume_rounds_little<V: Number>(
    rounding: Rounding,
    scale: Scale<V>,
    previous: V,
    value: V,
    one: V,
    two: V,
    new_one: V,
    new_two: V,
)
    requires
        rounding.fine(),
        rounding.followed(scale),
        scale.in_unit_interval(previous),
        scale.in_unit_interval(value),
        scale.in_unit_interval(one),
        scale.in_unit_interval(two),
        rebalanced_of(previous, value, one, two, new_one, new_two),
    ensures
        scale.has(new_one),
        scale.has(new_two),
        ({
            let d = scale.at(value) - scale.at(previous);
            let (a, b) = (scale.at(one), scale.at(two));
            let (x, y) = (scale.at(new_one), scale.at(new_two));
            let off = 8 as real * rounding.small();
            if a < b {
                let g = given(a, d);
                near(x, held(a - g), off) && near(y, held(b - (d - g)), off)
            } else {
                let g = given(b, d);
                near(y, held(b - g), off) && near(x, held(a - (d - g)), off)
            }
        }),
{
    let (change, below) = choose|change: V, below: bool|
        #![trigger sub_of(value, previous, change), lt_of(one, two, below)]
        sub_of(value, previous, change) && lt_of(one, two, below) && if below {
            taken_of(change, one, two, new_one, new_two)
        } else {
            taken_of(change, two, one, new_two, new_one)
        };
    let d = scale.at(value) - scale.at(previous);
    lemma_sub(rounding, scale, value, previous, change);
    if below {
        lemma_taken(rounding, scale, d, change, one, two, new_one, new_two);
    } else {
        lemma_taken(rounding, scale, d, change, two, one, new_two, new_one);
    }
}

/// Three volumes from 0 to 1 sum to 1, give or take `off`.
pub open spec fn nearly_whole<V: Number>(scale: Scale<V>, a: V, b: V, c: V, off: real) -> bool {
    &&& scale.in_unit_interval(a)
    &&& scale.in_unit_interval(b)
    &&& scale.in_unit_interval(c)
    &&& near(scale.at(a) + scale.at(b) + scale.at(c), 1 as real, off)
}

/// Moving one volume of a mix that is nearly whole keeps it nearly whole: sixteen small errors are
/// lost or gained at most.
pub proof fn law_moving_a_volume_keeps_the_mix_nearly_whole<V: Number>(
    rounding: Rounding,
    scale: Scale<V>,
    off: real,
    previous: V,
    value: V,
    one: V,
    two: V,
    new_one: V,
    new_two: V,
)
    requires
        rounding.fine(),
        rounding.followed(scale),
        off <= 1 as real,
        nearly_whole(scale, previous, one, two, off),
        scale.in_unit_interval(value),
        rebalanced_of(previous, value, one, two, new_one, new_two),
    ensures
        nearly_whole(scale, value, new_one, new_two, off + 16 as real * rounding.small()),
{
    law_moving_a_volume_rounds_little(
        rounding,
        scale,
        previous,
        value,
        one,
        two,
        new_one,
        new_two,
    );
    law_rebalanced_volumes_are_in_unit_interval(
        scale,
        previous,
        value,
        one,
        two,
        new_one,
        new_two,
    );
}

proof fn lemma_sign(u: real, x: real, r: real)
    requires
        0 as real <= u <= 1 as real / 16 as real,
        near(r, x, u * size(x)),
    ensures
        r <= 0 as real <==> x <= 0 as real,
        r >= 0 as real <==> x >= 0 as real,
        8 as real * size(r) <= 9 as real * size(x),
{
    let y = size(x);
    assert(0 as real <= u * y && 16 as real * (u * y) <= y) by (nonlinear_arith)
        requires
            0 as real <= u <= 1 as real / 16 as real,
            0 as real <= y,
    ;
}

proof fn lemma_some_is_left<V: Number>(
    rounding: Rounding,
    scale: Scale<V>,
    change: V,
    smaller: V,
    larger: V,
    new_smaller: V,
    new_larger: V,
)
    requires
        rounding.fine(),
        rounding.followed(scale),
        scale.counts(),
        scale.has(change),
        scale.has(smaller),
        scale.has(larger),
        0 as real <= scale.at(smaller),
        0 as real <= scale.at(larger),
        4 as real * scale.at(smaller) <= rounding.largest,
        4 as real * scale.at(larger) <= rounding.largest,
        scale.at(change) <= 0 as real,
        3 as real * size(scale.at(change)) <= rounding.largest,
        scale.at(change) < 0 as real || scale.at(smaller) > 0 as real || scale.at(larger)
            > 0 as real,
        taken_of(change, smaller, larger, new_smaller, new_larger),
    ensures
        scale.in_unit_interval(new_smaller),
        scale.in_unit_interval(new_larger),
        scale.at(new_smaller) + scale.at(new_larger) > 0 as real,
{
    let (half, first, rest) = choose|half: V, first: V, rest: V|
        #![trigger lesser_of(smaller, half, first), sub_of(change, first, rest)]
        half_of(change, half) && lesser_of(smaller, half, first) && sub_of(change, first, rest)
            && reduced_of(smaller, first, new_smaller) && reduced_of(larger, rest, new_larger);
    let u = rounding.unit;
    let (d, a, b) = (scale.at(change), scale.at(smaller), scale.at(larger));
    let one_half = choose|part: V| #[trigger] ratio_of(1, 2, part) && mul_of(change, part, half);
    lemma_one_half(rounding, scale, one_half);
    let h = scale.at(one_half);
    assert(scale.has(one_half) && 0 as real <= h <= 1 as real);
    assert(size(d * h) <= size(d)) by (nonlinear_arith)
        requires
            0 as real <= h <= 1 as real,
    ;
    let m = scale.at(half);
    assert(scale.has(half));
    assert(8 as real * size(m) <= 9 as real * size(d) + 1 as real) by (nonlinear_arith)
        requires
            near(m, d * h, u * size(d * h) + rounding.tiny),
            size(d * h) <= size(d),
            0 as real <= u <= 1 as real / 16 as real,
            rounding.tiny <= 1 as real / 16 as real,
    ;
    let f = scale.at(first);
    assert(scale.has(first) && f == if a < m {
        a
    } else {
        m
    });
    assert(rounding.within(scale, change, first, d - f));
    let g = scale.at(rest);
    assert(scale.has(rest) && near(g, d - f, u * size(d - f)));
    lemma_sign(u, d - f, g);
    let x = choose|left: V| #[trigger]
        sub_of(smaller, first, left) && unit_of(left, new_smaller);
    let y = choose|left: V| #[trigger] sub_of(larger, rest, left) && unit_of(left, new_larger);
    assert(rounding.within(scale, smaller, first, a - f));
    assert(rounding.within(scale, larger, rest, b - g));
    lemma_sign(u, a - f, scale.at(x));
    lemma_sign(u, b - g, scale.at(y));
    law_unit_is_in_unit_interval(scale, x, new_smaller);
    law_unit_is_in_unit_interval(scale, y, new_larger);
    assert(scale.at(new_smaller) == held(scale.at(x)));
    assert(scale.at(new_larger) == held(scale.at(y)));
}

/// Rounding included, a mix that sounds goes on sounding after one of its volumes was moved, and
/// all its volumes are from 0 to 1 then.
pub proof fn law_moving_a_volume_never_silences_the_rounded_mix<V: Number>(
    rounding: Rounding,
    scale: Scale<V>,
    previous: V,
    value: V,
    one: V,
    two: V,
    new_one: V,
    new_two: V,
)
    requires
        rounding.fine(),
        rounding.followed(scale),
        rounding.sounds(scale, previous, one, two),
        scale.in_unit_interval(value),
        rebalanced_of(previous, value, one, two, new_one, new_two),
    ensures
        rounding.sounds(scale, value, new_one, new_two),
        scale.in_unit_interval(new_one),
        scale.in_unit_interval(new_two),
{
    law_rebalanced_volumes_are_in_unit_interval(
        scale,
        previous,
        value,
        one,
        two,
        new_one,
        new_two,
    );
    if scale.at(value) == 0 as real {
        let (change, below) = choose|change: V, below: bool|
            #![trigger sub_of(value, previous, change), lt_of(one, two, below)]
            sub_of(value, previous, change) && lt_of(one, two, below) && if below {
                taken_of(change, one, two, new_one, new_two)
            } else {
                taken_of(change, two, one, new_two, new_one)
            };
        lemma_sign(rounding.unit, 0 as real - scale.at(previous), scale.at(change));
        if below {
            lemma_some_is_left(rounding, scale, change, one, two, new_one, new_two);
        } else {
            lemma_some_is_left(rounding, scale, change, two, one, new_two, new_one);
        }
    }
}

proof fn lemma_quotient(u: real, a: real, total: real, s: real)
    requires
        0 as real <= u <= 1 as real / 16 as real,
        0 as real <= a <= total,
        total > 0 as real,
        (1 as real - u) * (1 as real - u) * total <= s <= (1 as real + u) * (1 as real + u) * total,
    ensures
        s > 0 as real,
        0 as real <= a / s <= 2 as real,
        0 as real <= a / total <= 1 as real,
        a / s + u * (a / s) <= (1 as real + 4 as real * u) * (a / total),
        a / s - u * (a / s) >= (1 as real - 4 as real * u) * (a / total),
{
    let p = (1 as real - u) * (1 as real - u);
    let q = (1 as real + u) * (1 as real + u);
    assert(p >= 225 as real / 256 as real && q <= 289 as real / 256 as real) by (nonlinear_arith)
        requires
            p == (1 as real - u) * (1 as real - u),
            q == (1 as real + u) * (1 as real + u),
            0 as real <= u <= 1 as real / 16 as real,
    ;
    assert(s > 0 as real) by (nonlinear_arith)
        requires
            p * total <= s,
            p >= 225 as real / 256 as real,
            total > 0 as real,
    ;
    let w = a / s;
    let v = a / total;
    assert(w * s == a && v * total == a && 0 as real <= w && 0 as real <= v <= 1 as real)
        by (nonlinear_arith)
        requires
            w == a / s,
            v == a / total,
            s > 0 as real,
            total > 0 as real,
            0 as real <= a <= total,
    ;
    assert(w * p <= v && v <= w * q) by (nonlinear_arith)
        requires
            w * s == a,
            v * total == a,
            0 as real <= w,
            total > 0 as real,
            p * total <= s <= q * total,
    ;
    assert(w <= 2 as real) by (nonlinear_arith)
        requires
            w * p <= v,
            v <= 1 as real,
            p >= 225 as real / 256 as real,
            0 as real <= w,
    ;
    assert(1 as real + u <= (1 as real + 4 as real * u) * p) by (nonlinear_arith)
        requires
            p == (1 as real - u) * (1 as real - u),
            0 as real <= u <= 1 as real / 16 as real,
    ;
    assert((1 as real - 4 as real * u) * q <= 1 as real - u) by (nonlinear_arith)
        requires
            q == (1 as real + u) * (1 as real + u),
            0 as real <= u <= 1 as real / 16 as real,
    ;
    assert(w + u * w <= (1 as real + 4 as real * u) * v) by (nonlinear_arith)
        requires
            w * p <= v,
            1 as real + u <= (1 as real + 4 as real * u) * p,
            0 as real <= w,
            0 as real <= u,
    ;
    assert(w - u * w >= (1 as real - 4 as real * u) * v) by (nonlinear_arith)
        requires
            v <= w * q,
            (1 as real - 4 as real * u) * q <= 1 as real - u,
            0 as real <= w,
            0 as real <= u <= 1 as real / 16 as real,
    ;
}

/// Rounding does not lead normalizing astray, whatever the volumes were, as long as none is below
/// 0 or above a quarter of the largest number, and not all are 0: each volume comes out within one
/// small error of its share of the sum, and the sum of all within three of 1.
pub proof fn law_normalizing_rounds_little<V: Number>(
    rounding: Rounding,
    scale: Scale<V>,
    intake: V,
    exhaust: V,
    vibrations: V,
    new_intake: V,
    new_exhaust: V,
    new_vibrations: V,
)
    requires
        rounding.fine(),
        rounding.followed(scale),
        rounding.sounds(scale, intake, exhaust, vibrations),
        normalized_of(intake, exhaust, vibrations, new_intake, new_exhaust, new_vibrations),
    ensures
        rounding.sounds(scale, new_intake, new_exhaust, new_vibrations),
        ({
            let (a, b, c) = (scale.at(intake), scale.at(exhaust), scale.at(vibrations));
            let (x, y, z) = (
                scale.at(new_intake),
                scale.at(new_exhaust),
                scale.at(new_vibrations),
            );
            let e = rounding.small();
            &&& near(x, a / (a + b + c), e)
            &&& near(y, b / (a + b + c), e)
            &&& near(z, c / (a + b + c), e)
            &&& near(x + y + z, 1 as real, 3 as real * e)
        }),
{
    let (partial, sum) = choose|partial: V, sum: V|
        #![trigger add_of(intake, exhaust, partial), add_of(partial, vibrations, sum)]
        add_of(intake, exhaust, partial) && add_of(partial, vibrations, sum) && div_of(
            intake,
            sum,
            new_intake,
        ) && div_of(exhaust, sum, new_exhaust) && div_of(vibrations, sum, new_vibrations);
    let (a, b, c) = (scale.at(intake), scale.at(exhaust), scale.at(vibrations));
    let (u, most) = (rounding.unit, rounding.largest);
    let total = a + b + c;
    let (p, s) = (scale.at(partial), scale.at(sum));
    assert(scale.has(partial) && near(p, a + b, u * (a + b)));
    assert((1 as real - u) * (a + b) <= p <= (1 as real + u) * (a + b)) by (nonlinear_arith)
        requires
            near(p, a + b, u * (a + b)),
    ;
    assert(0 as real <= p && 8 as real * p <= 5 as real * most) by (nonlinear_arith)
        requires
            (1 as real - u) * (a + b) <= p <= (1 as real + u) * (a + b),
            0 as real <= u <= 1 as real / 16 as real,
            0 as real <= a + b,
            2 as real * (a + b) <= most,
    ;
    assert(scale.has(sum) && near(s, p + c, u * (p + c)));
    assert((1 as real - u) * (1 as real - u) * total <= s <= (1 as real + u) * (1 as real + u)
        * total) by (nonlinear_arith)
        requires
            total == a + b + c,
            0 as real <= c,
            0 as real <= a + b,
            0 as real <= u <= 1 as real / 16 as real,
            near(s, p + c, u * (p + c)),
            (1 as real - u) * (a + b) <= p <= (1 as real + u) * (a + b),
    ;
    assert(s <= most) by (nonlinear_arith)
        requires
            near(s, p + c, u * (p + c)),
            0 as real <= u <= 1 as real / 16 as real,
            0 as real <= p,
            8 as real * p <= 5 as real * most,
            0 as real <= c,
            4 as real * c <= most,
    ;
    lemma_share(rounding, scale, total, intake, sum, new_intake);
    lemma_share(rounding, scale, total, exhaust, sum, new_exhaust);
    lemma_share(rounding, scale, total, vibrations, sum, new_vibrations);
    assert(a / total + b / total + c / total == 1 as real) by (nonlinear_arith)
        requires
            total == a + b + c,
            total > 0 as real,
    ;
}

/// Normalizing a mix whose volumes nearly sum to 1 changes little.
pub proof fn law_normalizing_a_nearly_whole_mix_changes_little<V: Number>(
    rounding: Rounding,
    scale: Scale<V>,
    off: real,
    intake: V,
    exhaust: V,
    vibrations: V,
    new_intake: V,
    new_exhaust: V,
    new_vibrations: V,
)
    requires
        rounding.fine(),
        rounding.followed(scale),
        0 as real <= off <= 1 as real / 2 as real,
        rounding.sounds(scale, intake, exhaust, vibrations),
        near(scale.at(intake) + scale.at(exhaust) + scale.at(vibrations), 1 as real, off),
        normalized_of(intake, exhaust, vibrations, new_intake, new_exhaust, new_vibrations),
    ensures
        near(scale.at(new_intake), scale.at(intake), off + rounding.small()),
        near(scale.at(new_exhaust), scale.at(exhaust), off + rounding.small()),
        near(scale.at(new_vibrations), scale.at(vibrations), off + rounding.small()),
{
    law_normalizing_rounds_little(
        rounding,
        scale,
        intake,
        exhaust,
        vibrations,
        new_intake,
        new_exhaust,
        new_vibrations,
    );
    let (a, b, c) = (scale.at(intake), scale.at(exhaust), scale.at(vibrations));
    lemma_nearly_a_share(a, a + b + c, off);
    lemma_nearly_a_share(b, a + b + c, off);
    lemma_nearly_a_share(c, a + b + c, off);
}

/// Normalizing a second time, with nothing moved between, changes no volume by more than four small
/// errors.
pub proof fn law_normalizing_twice_rounds_little<V: Number>(
    rounding: Rounding,
    scale: Scale<V>,
    first: (V, V, V),
    second: (V, V, V),
    third: (V, V, V),
)
    requires
        rounding.fine(),
        rounding.followed(scale),
        rounding.sounds(scale, first.0, first.1, first.2),
        normalized_of(first.0, first.1, first.2, second.0, second.1, second.2),
        normalized_of(second.0, second.1, second.2, third.0, third.1, third.2),
    ensures
        near(scale.at(third.0), scale.at(second.0), 4 as real * rounding.small()),
        near(scale.at(third.1), scale.at(second.1), 4 as real * rounding.small()),
        near(scale.at(third.2), scale.at(second.2), 4 as real * rounding.small()),
{
    law_normalizing_rounds_little(
        rounding,
        scale,
        first.0,
        first.1,
        first.2,
        second.0,
        second.1,
        second.2,
    );
    law_normalizing_a_nearly_whole_mix_changes_little(
        rounding,
        scale,
        3 as real * rounding.small(),
        second.0,
        second.1,
        second.2,
        third.0,
        third.1,
        third.2,
    );
}

proof fn lemma_nearly_a_share(a: real, total: real, off: real)
    requires
        0 as real <= a <= total,
        0 as real <= off <= 1 as real / 2 as real,
        near(total, 1 as real, off),
    ensures
        near(a / total, a, off),
{
    let v = a / total;
    assert(v * total == a && 0 as real <= v <= 1 as real) by (nonlinear_arith)
        requires
            v == a / total,
            total > 0 as real,
            0 as real <= a <= total,
    ;
    assert(near(v, v * total, off)) by (nonlinear_arith)
        requires
            0 as real <= v <= 1 as real,
            near(total, 1 as real, off),
    ;
}

proof fn lemma_share<V: Number>(
    rounding: Rounding,
    scale: Scale<V>,
    total: real,
    volume: V,
    sum: V,
    r: V,
)
    requires
        rounding.fine(),
        rounding.followed(scale),
        scale.has(volume),
        0 as real <= scale.at(volume) <= total,
        scale.at(volume) <= rounding.largest,
        total > 0 as real,
        scale.has(sum),
        scale.at(sum) <= rounding.largest,
        ({
            let (u, s) = (rounding.unit, scale.at(sum));
            (1 as real - u) * (1 as real - u) * total <= s <= (1 as real + u) * (1 as real + u)
                * total
        }),
        div_of(volume, sum, r),
    ensures
        scale.has(r),
        0 as real <= scale.at(r),
        near(scale.at(r), scale.at(volume) / total, rounding.small()),
        scale.at(volume) / total <= 1 as real,
{
    let (a, s, u) = (scale.at(volume), scale.at(sum), rounding.unit);
    lemma_quotient(u, a, total, s);
    let (w, v) = (a / s, a / total);
    assert(near(scale.at(r), w, u * w + rounding.tiny));
    assert((1 as real + 4 as real * u) * v <= v + 4 as real * u && v - 4 as real * u <= (1 as real
        - 4 as real * u) * v) by (nonlinear_arith)
        requires
            0 as real <= v <= 1 as real,
            0 as real <= u,
    ;
}

}
