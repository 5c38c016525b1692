//! What the formulas of the panel come to in exact arithmetic, where nothing is lost to rounding.

use crate::controls::Control;
use crate::engine::{
    half_of, normalized_of, rebalanced_of, reduced_of, taken_of, Engine, Generator,
};
use crate::number::{
    add_of, div_of, lesser_of, lt_of, mul_of, ratio, ratio_of, sub_of, unit_of, Number, Scale,
};
use crate::panel::{changed_of, in_mix, length_of, samples_of, Pass};
use crate::waterfall::{
    bin_before, blended_of, long_enough, row_len, row_of, scrolled, total_len, SamplePoint,
};
use vstd::prelude::*;

verus! {

impl<V: Number> Scale<V> {
    /// The operators of `V` compute exactly on numbers, and its comparisons are those of the real
    /// numbers.
    pub open spec fn exact(self) -> bool {
        &&& self.followed()
        &&& self.counts()
        &&& forall|a: V, b: V, r: V| #[trigger]
            add_of(a, b, r) && self.has(a) && self.has(b) ==> (self.place)(r) == Some(
                self.at(a) + self.at(b),
            )
        &&& forall|a: V, b: V, r: V| #[trigger]
            sub_of(a, b, r) && self.has(a) && self.has(b) ==> (self.place)(r) == Some(
                self.at(a) - self.at(b),
            )
        &&& forall|a: V, b: V, r: V| #[trigger]
            mul_of(a, b, r) && self.has(a) && self.has(b) ==> (self.place)(r) == Some(
                self.at(a) * self.at(b),
            )
        &&& forall|a: V, b: V, r: V| #[trigger]
            div_of(a, b, r) && self.has(a) && self.has(b) && self.at(b) != 0 as real ==> self.has(r)
                && self.at(r) * self.at(b) == self.at(a)
    }

    /// None of three volumes is below 0.
    pub open spec fn nonnegative(self, a: V, b: V, c: V) -> bool {
        &&& self.has(a) && 0 as real <= self.at(a)
        &&& self.has(b) && 0 as real <= self.at(b)
        &&& self.has(c) && 0 as real <= self.at(c)
    }

    /// None of three volumes is below 0, and not all are 0.
    pub open spec fn sounds(self, a: V, b: V, c: V) -> bool {
        self.nonnegative(a, b, c) && self.at(a) + self.at(b) + self.at(c) > 0 as real
    }

    /// Three volumes share one whole: none is below 0, and they sum to 1.
    pub open spec fn whole(self, a: V, b: V, c: V) -> bool {
        self.nonnegative(a, b, c) && self.at(a) + self.at(b) + self.at(c) == 1 as real
    }
}

/// `x` held between 0 and 1.
pub open spec fn held(x: real) -> real {
    if x < 0 as real {
        0 as real
    } else if x > 1 as real {
        1 as real
    } else {
        x
    }
}

/// How much of `change` the smaller of two volumes gives up: half of it, though no more than the
/// volume has.
pub open spec fn given(smaller: real, change: real) -> real {
    if smaller < change / 2 as real {
        smaller
    } else {
        change / 2 as real
    }
}

proof fn lemma_unit<V: Number>(scale: Scale<V>, x: V, r: V)
    requires
        scale.exact(),
        scale.has(x),
        unit_of(x, r),
    ensures
        (scale.place)(r) == Some(held(scale.at(x))),
{
}

proof fn lemma_half<V: Number>(scale: Scale<V>, x: V, r: V)
    requires
        scale.exact(),
        scale.has(x),
        half_of(x, r),
    ensures
        (scale.place)(r) == Some(scale.at(x) / 2 as real),
{
    let half = choose|half: V| #[trigger] ratio_of(1, 2, half) && mul_of(x, half, r);
    let h = scale.at(half);
    let v = scale.at(x);
    assert(scale.has(half) && h * 2 as real == 1 as real);
    assert(v * h == v / 2 as real) by (nonlinear_arith)
        requires
            h * 2 as real == 1 as real,
    ;
}

proof fn lemma_reduced<V: Number>(scale: Scale<V>, v: V, amount: V, r: V)
    requires
        scale.exact(),
        scale.has(v),
        scale.has(amount),
        reduced_of(v, amount, r),
    ensures
        (scale.place)(r) == Some(held(scale.at(v) - scale.at(amount))),
{
    let left = choose|left: V| #[trigger] sub_of(v, amount, left) && unit_of(left, r);
    lemma_unit(scale, left, r);
}

proof fn lemma_taken<V: Number>(
    scale: Scale<V>,
    change: V,
    smaller: V,
    larger: V,
    new_smaller: V,
    new_larger: V,
)
    requires
        scale.exact(),
        scale.has(change),
        scale.has(smaller),
        scale.has(larger),
        taken_of(change, smaller, larger, new_smaller, new_larger),
    ensures
        ({
            let d = scale.at(change);
            let g = given(scale.at(smaller), d);
            &&& (scale.place)(new_smaller) == Some(held(scale.at(smaller) - g))
            &&& (scale.place)(new_larger) == Some(held(scale.at(larger) - (d - g)))
        }),
{
    let (half, first, rest) = choose|half: V, first: V, rest: V|
        #![trigger lesser_of(smaller, half, first), sub_of(change, first, rest)]
        half_of(change, half) && lesser_of(smaller, half, first) && sub_of(change, first, rest)
            && reduced_of(smaller, first, new_smaller) && reduced_of(larger, rest, new_larger);
    lemma_half(scale, change, half);
    assert((scale.place)(first) == Some(given(scale.at(smaller), scale.at(change))));
    lemma_reduced(scale, smaller, first, new_smaller);
    lemma_reduced(scale, larger, rest, new_larger);
}

/// The other two volumes after one volume moved: the smaller of them gives up half of what the one
/// gained, though no more than it has, and the larger one gives up the rest. Both are held between
/// 0 and 1.
pub proof fn law_moving_a_volume_takes_from_the_others<V: Number>(
    scale: Scale<V>,
    previous: V,
    value: V,
    one: V,
    two: V,
    new_one: V,
    new_two: V,
)
    requires
        scale.exact(),
        scale.has(previous),
        scale.has(value),
        scale.has(one),
        scale.has(two),
        rebalanced_of(previous, value, one, two, new_one, new_two),
    ensures
        ({
            let d = scale.at(value) - scale.at(previous);
            let (a, b) = (scale.at(one), scale.at(two));
            if a < b {
                let g = given(a, d);
                &&& (scale.place)(new_one) == Some(held(a - g))
                &&& (scale.place)(new_two) == Some(held(b - (d - g)))
            } else {
                let g = given(b, d);
                &&& (scale.place)(new_two) == Some(held(b - g))
                &&& (scale.place)(new_one) == Some(held(a - (d - g)))
            }
        }),
{
    let (change, below) = choose|change: V, below: bool|
        #![trigger sub_of(value, previous, change), lt_of(one, two, below)]
        sub_of(value, previous, change) && lt_of(one, two, below) && if below {
            taken_of(change, one, two, new_one, new_two)
        } else {
            taken_of(change, two, one, new_two, new_one)
        };
    if below {
        lemma_taken(scale, change, one, two, new_one, new_two);
    } else {
        lemma_taken(scale, change, two, one, new_two, new_one);
    }
}

/// Moving one volume of a mix that is whole keeps the mix whole: the other two make up for exactly
/// what the one gained or lost, and nothing has to be held back. Raising a volume raises no other,
/// and lowering it lowers no other.
pub proof fn law_moving_a_volume_keeps_the_mix_whole<V: Number>(
    scale: Scale<V>,
    previous: V,
    value: V,
    one: V,
    two: V,
    new_one: V,
    new_two: V,
)
    requires
        scale.exact(),
        scale.whole(previous, one, two),
        scale.in_unit_interval(value),
        rebalanced_of(previous, value, one, two, new_one, new_two),
    ensures
        scale.whole(value, new_one, new_two),
        ({
            let d = scale.at(value) - scale.at(previous);
            let (a, b) = (scale.at(one), scale.at(two));
            if a < b {
                &&& scale.at(new_one) == a - given(a, d)
                &&& scale.at(new_two) == b - (d - given(a, d))
            } else {
                &&& scale.at(new_two) == b - given(b, d)
                &&& scale.at(new_one) == a - (d - given(b, d))
            }
        }),
        scale.at_most(previous, value) ==> scale.at_most(new_one, one) && scale.at_most(
            new_two,
            two,
        ),
        scale.at_most(value, previous) ==> scale.at_most(one, new_one) && scale.at_most(
            two,
            new_two,
        ),
{
    law_moving_a_volume_takes_from_the_others(scale, previous, value, one, two, new_one, new_two);
}

/// The volume of the mix that `control` sets.
pub open spec fn volume<V, L, F>(engine: Engine<V, L, F>, control: Control) -> V {
    match control {
        Control::IntakeVolume => engine.intake_volume,
        Control::ExhaustVolume => engine.exhaust_volume,
        _ => engine.engine_vibrations_volume,
    }
}

/// The volumes of the mix of `engine` share one whole.
pub open spec fn mix_whole<V: Number, L, F>(scale: Scale<V>, engine: Engine<V, L, F>) -> bool {
    scale.whole(engine.intake_volume, engine.exhaust_volume, engine.engine_vibrations_volume)
}

/// Each of the three sliders of the mix keeps a mix whole that is whole, and stands where it was
/// moved to. Moving it up moves no other volume up, and moving it down moves no other down.
pub proof fn law_every_slider_of_the_mix_keeps_it_whole<V: Number, L, F, R>(
    scale: Scale<V>,
    control: Control,
    other: Control,
    value: V,
    before: Generator<V, L, F, R>,
    pass: Pass<V, L>,
    after: Generator<V, L, F, R>,
    after_pass: Pass<V, L>,
)
    requires
        scale.exact(),
        in_mix(control),
        in_mix(other),
        other != control,
        scale.in_unit_interval(value),
        mix_whole(scale, before.engine),
        changed_of(control, value, before, pass, after, after_pass),
    ensures
        mix_whole(scale, after.engine),
        volume(after.engine, control) == value,
        scale.at_most(volume(before.engine, control), value) ==> scale.at_most(
            volume(after.engine, other),
            volume(before.engine, other),
        ),
        scale.at_most(value, volume(before.engine, control)) ==> scale.at_most(
            volume(before.engine, other),
            volume(after.engine, other),
        ),
{
    let (a, b, c) = (
        before.engine.intake_volume,
        before.engine.exhaust_volume,
        before.engine.engine_vibrations_volume,
    );
    let (x, y, z) = (
        after.engine.intake_volume,
        after.engine.exhaust_volume,
        after.engine.engine_vibrations_volume,
    );
    if control is IntakeVolume {
        law_moving_a_volume_keeps_the_mix_whole(scale, a, value, b, c, y, z);
    } else if control is ExhaustVolume {
        law_moving_a_volume_keeps_the_mix_whole(scale, b, value, a, c, x, z);
    } else {
        law_moving_a_volume_keeps_the_mix_whole(scale, c, value, b, a, y, x);
    }
}

/// A mix that sounds goes on sounding, whole or not: where no volume is below 0 and not all are 0,
/// that is still so after one of them was moved.
pub proof fn law_moving_a_volume_never_silences_the_mix<V: Number>(
    scale: Scale<V>,
    previous: V,
    value: V,
    one: V,
    two: V,
    new_one: V,
    new_two: V,
)
    requires
        scale.exact(),
        scale.sounds(previous, one, two),
        scale.in_unit_interval(value),
        rebalanced_of(previous, value, one, two, new_one, new_two),
    ensures
        scale.sounds(value, new_one, new_two),
{
    law_moving_a_volume_takes_from_the_others(scale, previous, value, one, two, new_one, new_two);
}

/// Normalizing makes a mix whole, whatever its volumes were, as long as none is below 0 and not
/// all are 0, and keeps how the volumes compare. A mix that is whole it leaves as it is.
pub proof fn law_normalizing_makes_the_mix_whole<V: Number>(
    scale: Scale<V>,
    intake: V,
    exhaust: V,
    vibrations: V,
    new_intake: V,
    new_exhaust: V,
    new_vibrations: V,
)
    requires
        scale.exact(),
        scale.sounds(intake, exhaust, vibrations),
        normalized_of(intake, exhaust, vibrations, new_intake, new_exhaust, new_vibrations),
    ensures
        scale.whole(new_intake, new_exhaust, new_vibrations),
        ({
            let sum = scale.at(intake) + scale.at(exhaust) + scale.at(vibrations);
            &&& scale.at(new_intake) == scale.at(intake) / sum
            &&& scale.at(new_exhaust) == scale.at(exhaust) / sum
            &&& scale.at(new_vibrations) == scale.at(vibrations) / sum
        }),
        scale.whole(intake, exhaust, vibrations) ==> (scale.place)(new_intake) == (scale.place)(
            intake,
        ) && (scale.place)(new_exhaust) == (scale.place)(exhaust) && (scale.place)(new_vibrations)
            == (scale.place)(vibrations),
{
    let (partial, sum) = choose|partial: V, sum: V|
        #![trigger add_of(intake, exhaust, partial), add_of(partial, vibrations, sum)]
        add_of(intake, exhaust, partial) && add_of(partial, vibrations, sum) && div_of(
            intake,
            sum,
            new_intake,
        ) && div_of(exhaust, sum, new_exhaust) && div_of(vibrations, sum, new_vibrations);
    let (s, a, b, c) = (scale.at(sum), scale.at(intake), scale.at(exhaust), scale.at(vibrations));
    let (x, y, z) = (scale.at(new_intake), scale.at(new_exhaust), scale.at(new_vibrations));
    assert(s == a + b + c);
    assert(x + y + z == 1 as real && x >= 0 as real && y >= 0 as real && z >= 0 as real && (s
        == 1 as real ==> x == a && y == b && z == c)) by (nonlinear_arith)
        requires
            s == a + b + c,
            s > 0 as real,
            a >= 0 as real,
            b >= 0 as real,
            c >= 0 as real,
            x * s == a,
            y * s == b,
            z * s == c,
    ;
    assert(x == a / s && y == b / s && z == c / s) by (nonlinear_arith)
        requires
            s > 0 as real,
            x * s == a,
            y * s == b,
            z * s == c,
    ;
}

/// Normalizing a second time, with nothing moved between, changes nothing.
pub proof fn law_normalizing_twice_is_normalizing_once<V: Number>(
    scale: Scale<V>,
    first: (V, V, V),
    second: (V, V, V),
    third: (V, V, V),
)
    requires
        scale.exact(),
        scale.sounds(first.0, first.1, first.2),
        normalized_of(first.0, first.1, first.2, second.0, second.1, second.2),
        normalized_of(second.0, second.1, second.2, third.0, third.1, third.2),
    ensures
        (scale.place)(third.0) == (scale.place)(second.0),
        (scale.place)(third.1) == (scale.place)(second.1),
        (scale.place)(third.2) == (scale.place)(second.2),
{
    law_normalizing_makes_the_mix_whole(
        scale,
        first.0,
        first.1,
        first.2,
        second.0,
        second.1,
        second.2,
    );
    law_normalizing_makes_the_mix_whole(
        scale,
        second.0,
        second.1,
        second.2,
        third.0,
        third.1,
        third.2,
    );
}

/// The length of the straight pipe and the number of samples of its delay line are two ways to say
/// the same: turning samples into a length and back gives the samples, and the other way round.
pub proof fn law_pipe_length_and_samples_undo_each_other<V: Number>(
    scale: Scale<V>,
    x: V,
    speed_of_sound: V,
    sample_rate: V,
    y: V,
    z: V,
)
    requires
        scale.exact(),
        scale.has(x),
        scale.has(speed_of_sound),
        scale.has(sample_rate),
        scale.at(speed_of_sound) > 0 as real,
        scale.at(sample_rate) > 0 as real,
        ({
            ||| length_of(x, speed_of_sound, sample_rate, y) && samples_of(
                y,
                speed_of_sound,
                sample_rate,
                z,
            )
            ||| samples_of(x, speed_of_sound, sample_rate, y) && length_of(
                y,
                speed_of_sound,
                sample_rate,
                z,
            )
        }),
    ensures
        (scale.place)(z) == (scale.place)(x),
{
    let (s, r) = (scale.at(speed_of_sound), scale.at(sample_rate));
    let (a, b, c) = (scale.at(x), scale.at(y), scale.at(z));
    if length_of(x, speed_of_sound, sample_rate, y) && samples_of(
        y,
        speed_of_sound,
        sample_rate,
        z,
    ) {
        let seconds = choose|seconds: V| #[trigger]
            div_of(y, speed_of_sound, seconds) && mul_of(seconds, sample_rate, z);
        let t = scale.at(seconds);
        assert(b * r == a * s);
        assert(c == a) by (nonlinear_arith)
            requires
                b * r == a * s,
                t * s == b,
                c == t * r,
                s > 0 as real,
        ;
    } else {
        let seconds = choose|seconds: V| #[trigger]
            div_of(x, speed_of_sound, seconds) && mul_of(seconds, sample_rate, y);
        let t = scale.at(seconds);
        assert(c * r == b * s);
        assert(c == a) by (nonlinear_arith)
            requires
                c * r == b * s,
                t * s == a,
                b == t * r,
                r > 0 as real,
        ;
    }
}

/// `x` is not outside of what lies between `a` and `b`.
pub open spec fn spans(a: real, b: real, x: real) -> bool {
    (a <= x && x <= b) || (b <= x && x <= a)
}

/// What a column of the waterfall shows lies between the two bins that it is read from.
pub proof fn law_columns_blend_neighbouring_bins<V: Number>(
    scale: Scale<V>,
    low: V,
    high: V,
    fraction: V,
    r: V,
)
    requires
        scale.exact(),
        scale.has(low),
        scale.has(high),
        scale.in_unit_interval(fraction),
        blended_of(low, high, fraction, r),
    ensures
        scale.has(r),
        spans(scale.at(low), scale.at(high), scale.at(r)),
{
    let (a, b, t, x) = (scale.at(low), scale.at(high), scale.at(fraction), scale.at(r));
    assert(x == a * (1 as real - t) + b * t);
    assert(spans(a, b, x)) by (nonlinear_arith)
        requires
            x == a * (1 as real - t) + b * t,
            0 as real <= t <= 1 as real,
    ;
}

/// `other` is `line` with every value multiplied by `factor`.
pub open spec fn multiplied<V: Number>(
    scale: Scale<V>,
    factor: real,
    line: Seq<V>,
    other: Seq<V>,
) -> bool {
    &&& other.len() == line.len()
    &&& forall|i: int|
        0 <= i < line.len() ==> scale.has(line[i]) && (scale.place)(#[trigger] other[i]) == Some(
            factor * scale.at(line[i]),
        )
}

/// A spectrum that is twice as strong, or stronger by any other factor, gives a row that is
/// stronger by the same factor on top of the waterfall, and leaves the rows below as they are.
pub proof fn law_rows_are_as_strong_as_the_spectrum<V: Number>(
    scale: Scale<V>,
    factor: real,
    points: Seq<SamplePoint<V>>,
    cells: Seq<V>,
    line: Seq<V>,
    other: Seq<V>,
    row: Seq<V>,
    other_row: Seq<V>,
)
    requires
        scale.exact(),
        points.len() == row_len(),
        cells.len() == total_len(),
        forall|i: int| 0 <= i < points.len() ==> scale.has((#[trigger] points[i]).fraction),
        multiplied(scale, factor, line, other),
        long_enough(points, line),
        row_of(points, line, row),
        row_of(points, other, other_row),
    ensures
        long_enough(points, other),
        multiplied(scale, factor, row, other_row),
        scrolled(cells, row).take(row_len()) == row,
        scrolled(cells, other_row).take(row_len()) == other_row,
        scrolled(cells, row).skip(row_len()) == scrolled(cells, other_row).skip(row_len()),
{
    assert forall|i: int| 0 <= i < row.len() implies scale.has(row[i]) && (scale.place)(
        #[trigger] other_row[i],
    ) == Some(factor * scale.at(row[i])) by {
        let point = points[i];
        let (before, at) = (bin_before(point.index), point.index as int);
        assert(scale.has(point.fraction));
        assert(blended_of(line[before], line[at], point.fraction, row[i]));
        assert(blended_of(other[before], other[at], point.fraction, other_row[i]));
        assert(scale.has(line[before]) && scale.has(line[at])) by {
            let (x, y) = (other[before], other[at]);
        }
        let (a, b, t) = (scale.at(line[before]), scale.at(line[at]), scale.at(point.fraction));
        assert(scale.at(other[before]) == factor * a && scale.at(other[at]) == factor * b);
        assert(scale.at(row[i]) == a * (1 as real - t) + b * t);
        assert(scale.at(other_row[i]) == (factor * a) * (1 as real - t) + (factor * b) * t);
        assert((factor * a) * (1 as real - t) + (factor * b) * t == factor * (a * (1 as real - t)
            + b * t)) by (nonlinear_arith);
    }
}

/// A ratio is the number that gives the numerator when it is multiplied by the denominator.
pub proof fn law_ratios_are_fractions<V: Number>(
    scale: Scale<V>,
    numerator: u16,
    denominator: u16,
    r: V,
)
    requires
        scale.exact(),
        denominator > 0,
        call_ensures(ratio::<V>, (numerator, denominator), r),
    ensures
        scale.has(r),
        scale.at(r) * denominator as real == numerator as real,
{
}

}
