//! The engine that the panel edits: its parameters, and the rules that tie them together.
//!
//! What only the sound synthesis looks into is carried along as a type parameter: `L` is what a
//! waveguide holds in its delay line, `F` is a low-pass filter, `R` is a running recording.

use crate::number::{
    add_of, defined_everywhere, div_of, law_unit_is_in_unit_interval, lesser, lesser_of, lt_of,
    mul_of, ratio, ratio_of, sub_of, unit, unit_of, Number, Scale,
};
use vstd::prelude::*;

verus! {

/// A waveguide: a delay line between two reflecting ends.
pub struct WaveGuide<V, L> {
    /// Length of the delay line in samples.
    pub delay: usize,
    /// Reflectivity of the near end.
    pub alpha: V,
    /// Reflectivity of the far end.
    pub beta: V,
    /// Contents of the delay line.
    pub line: L,
}

/// One cylinder and the three cavities attached to it.
pub struct Cylinder<V, L> {
    pub crank_offset: V,
    pub intake_open_refl: V,
    pub intake_closed_refl: V,
    pub exhaust_open_refl: V,
    pub exhaust_closed_refl: V,
    pub piston_motion_factor: V,
    pub ignition_factor: V,
    pub ignition_time: V,
    pub intake_waveguide: WaveGuide<V, L>,
    pub exhaust_waveguide: WaveGuide<V, L>,
    pub extractor_waveguide: WaveGuide<V, L>,
}

/// The exhaust behind the extractors.
pub struct Muffler<V, L> {
    pub straight_pipe: WaveGuide<V, L>,
    pub muffler_elements: Vec<WaveGuide<V, L>>,
}

/// An engine configuration.
pub struct Engine<V, L, F> {
    pub rpm: V,
    pub intake_volume: V,
    pub exhaust_volume: V,
    pub engine_vibrations_volume: V,
    pub engine_vibration_filter: F,
    pub intake_noise_factor: V,
    pub intake_noise_lp: F,
    pub intake_valve_shift: V,
    pub exhaust_valve_shift: V,
    pub crankshaft_fluctuation: V,
    pub crankshaft_fluctuation_lp: F,
    pub muffler: Muffler<V, L>,
    pub cylinders: Vec<Cylinder<V, L>>,
}

/// The sound generator as far as the panel shows and changes it.
pub struct Generator<V, L, F, R> {
    pub engine: Engine<V, L, F>,
    pub volume: V,
    pub samples_per_second: u32,
    pub recorder: Option<R>,
    pub recording_currently_clipping: bool,
    pub waveguides_dampened: bool,
}

/// `b` is a copy of `a`, with the delay line cloned.
pub open spec fn guide_copied<V, L: Clone>(a: WaveGuide<V, L>, b: WaveGuide<V, L>) -> bool {
    &&& b.delay == a.delay
    &&& b.alpha == a.alpha
    &&& b.beta == a.beta
    &&& cloned(a.line, b.line)
}

/// `b` is a copy of `a`, with the delay lines cloned.
pub open spec fn cylinder_copied<V, L: Clone>(a: Cylinder<V, L>, b: Cylinder<V, L>) -> bool {
    &&& b == (Cylinder {
        intake_waveguide: b.intake_waveguide,
        exhaust_waveguide: b.exhaust_waveguide,
        extractor_waveguide: b.extractor_waveguide,
        ..a
    })
    &&& guide_copied(a.intake_waveguide, b.intake_waveguide)
    &&& guide_copied(a.exhaust_waveguide, b.exhaust_waveguide)
    &&& guide_copied(a.extractor_waveguide, b.extractor_waveguide)
}

impl<V: Copy, L: Clone> Clone for WaveGuide<V, L> {
    fn clone(&self) -> (r: Self)
        ensures
            guide_copied(*self, r),
    {
        WaveGuide { delay: self.delay, alpha: self.alpha, beta: self.beta, line: self.line.clone() }
    }
}

impl<V: Copy, L: Clone> Clone for Cylinder<V, L> {
    fn clone(&self) -> (r: Self)
        ensures
            cylinder_copied(*self, r),
    {
        Cylinder {
            crank_offset: self.crank_offset,
            intake_open_refl: self.intake_open_refl,
            intake_closed_refl: self.intake_closed_refl,
            exhaust_open_refl: self.exhaust_open_refl,
            exhaust_closed_refl: self.exhaust_closed_refl,
            piston_motion_factor: self.piston_motion_factor,
            ignition_factor: self.ignition_factor,
            ignition_time: self.ignition_time,
            intake_waveguide: self.intake_waveguide.clone(),
            exhaust_waveguide: self.exhaust_waveguide.clone(),
            extractor_waveguide: self.extractor_waveguide.clone(),
        }
    }
}

// ---------------------------------------------------------------------------------------------
// The mix: three volumes that share one whole.
// ---------------------------------------------------------------------------------------------

/// `r` is half of `x`.
pub open spec fn half_of<V: Number>(x: V, r: V) -> bool {
    exists|half: V| #[trigger] ratio_of(1, 2, half) && mul_of(x, half, r)
}

/// `r` is what is left of the volume `v` after `amount` went elsewhere, held between 0 and 1.
pub open spec fn reduced_of<V: Number>(v: V, amount: V, r: V) -> bool {
    exists|left: V| #[trigger] sub_of(v, amount, left) && unit_of(left, r)
}

/// `change` is taken out of two volumes. The smaller one gives up half of it, though no more than
/// it has, and the larger one gives up the rest.
pub open spec fn taken_of<V: Number>(
    change: V,
    smaller: V,
    larger: V,
    new_smaller: V,
    new_larger: V,
) -> bool {
    exists|half: V, first: V, rest: V|
        #![trigger lesser_of(smaller, half, first), sub_of(change, first, rest)]
        half_of(change, half) && lesser_of(smaller, half, first) && sub_of(change, first, rest)
            && reduced_of(smaller, first, new_smaller) && reduced_of(larger, rest, new_larger)
}

/// One volume moved from `previous` to `value`, so the other two, `one` and `two`, become
/// `new_one` and `new_two`. Where neither is below the other, `two` counts as the smaller.
pub open spec fn rebalanced_of<V: Number>(
    previous: V,
    value: V,
    one: V,
    two: V,
    new_one: V,
    new_two: V,
) -> bool {
    exists|change: V, below: bool|
        #![trigger sub_of(value, previous, change), lt_of(one, two, below)]
        sub_of(value, previous, change) && lt_of(one, two, below) && if below {
            taken_of(change, one, two, new_one, new_two)
        } else {
            taken_of(change, two, one, new_two, new_one)
        }
}

/// The three volumes divided by their sum.
pub open spec fn normalized_of<V: Number>(
    intake: V,
    exhaust: V,
    vibrations: V,
    new_intake: V,
    new_exhaust: V,
    new_vibrations: V,
) -> bool {
    exists|partial: V, sum: V|
        #![trigger add_of(intake, exhaust, partial), add_of(partial, vibrations, sum)]
        add_of(intake, exhaust, partial) && add_of(partial, vibrations, sum) && div_of(
            intake,
            sum,
            new_intake,
        ) && div_of(exhaust, sum, new_exhaust) && div_of(vibrations, sum, new_vibrations)
}

fn reduce<V: Number>(v: V, amount: V) -> (r: V)
    requires
        defined_everywhere::<V>(),
    ensures
        reduced_of(v, amount, r),
{
    let left = v - amount;
    let r = unit(left);
    assert(sub_of(v, amount, left));
    r
}

fn take_from<V: Number>(change: V, smaller: V, larger: V) -> (r: (V, V))
    requires
        defined_everywhere::<V>(),
    ensures
        taken_of(change, smaller, larger, r.0, r.1),
{
    let one_half: V = ratio(1, 2);
    let half = change * one_half;
    assert(ratio_of(1, 2, one_half) && mul_of(change, one_half, half));
    let first = lesser(smaller, half);
    let rest = change - first;
    assert(sub_of(change, first, rest));
    (reduce(smaller, first), reduce(larger, rest))
}

/// What the other two volumes become when one volume moves from `previous` to `value`.
pub fn rebalance<V: Number>(previous: V, value: V, one: V, two: V) -> (r: (V, V))
    requires
        defined_everywhere::<V>(),
    ensures
        rebalanced_of(previous, value, one, two, r.0, r.1),
{
    let change = value - previous;
    let below = one < two;
    assert(sub_of(value, previous, change) && lt_of(one, two, below));
    if below {
        take_from(change, one, two)
    } else {
        let (new_two, new_one) = take_from(change, two, one);
        (new_one, new_two)
    }
}

/// `b` is `a` but for the three volumes of the mix.
pub open spec fn same_but_mix<V, L, F>(a: Engine<V, L, F>, b: Engine<V, L, F>) -> bool {
    b == (Engine {
        intake_volume: b.intake_volume,
        exhaust_volume: b.exhaust_volume,
        engine_vibrations_volume: b.engine_vibrations_volume,
        ..a
    })
}

impl<V: Number, L, F> Engine<V, L, F> {
    /// The panel can show this engine: there is a muffler element and a cylinder.
    pub open spec fn well_formed(self) -> bool {
        &&& self.muffler.muffler_elements@.len() > 0
        &&& self.cylinders@.len() > 0
    }

    /// Moves the intake volume; the other two volumes make room for it.
    pub fn set_intake_volume(&mut self, value: V)
        requires
            defined_everywhere::<V>(),
        ensures
            same_but_mix(*old(self), *final(self)),
            final(self).intake_volume == value,
            rebalanced_of(
                old(self).intake_volume,
                value,
                old(self).exhaust_volume,
                old(self).engine_vibrations_volume,
                final(self).exhaust_volume,
                final(self).engine_vibrations_volume,
            ),
    {
        let (exhaust, vibrations) = rebalance(
            self.intake_volume,
            value,
            self.exhaust_volume,
            self.engine_vibrations_volume,
        );
        self.intake_volume = value;
        self.exhaust_volume = exhaust;
        self.engine_vibrations_volume = vibrations;
    }

    /// Moves the exhaust volume; the other two volumes make room for it.
    pub fn set_exhaust_volume(&mut self, value: V)
        requires
            defined_everywhere::<V>(),
        ensures
            same_but_mix(*old(self), *final(self)),
            final(self).exhaust_volume == value,
            rebalanced_of(
                old(self).exhaust_volume,
                value,
                old(self).intake_volume,
                old(self).engine_vibrations_volume,
                final(self).intake_volume,
                final(self).engine_vibrations_volume,
            ),
    {
        let (intake, vibrations) = rebalance(
            self.exhaust_volume,
            value,
            self.intake_volume,
            self.engine_vibrations_volume,
        );
        self.exhaust_volume = value;
        self.intake_volume = intake;
        self.engine_vibrations_volume = vibrations;
    }

    /// Moves the volume of the engine vibrations; the other two volumes make room for it.
    pub fn set_engine_vibrations_volume(&mut self, value: V)
        requires
            defined_everywhere::<V>(),
        ensures
            same_but_mix(*old(self), *final(self)),
            final(self).engine_vibrations_volume == value,
            rebalanced_of(
                old(self).engine_vibrations_volume,
                value,
                old(self).exhaust_volume,
                old(self).intake_volume,
                final(self).exhaust_volume,
                final(self).intake_volume,
            ),
    {
        let (exhaust, intake) = rebalance(
            self.engine_vibrations_volume,
            value,
            self.exhaust_volume,
            self.intake_volume,
        );
        self.engine_vibrations_volume = value;
        self.exhaust_volume = exhaust;
        self.intake_volume = intake;
    }

    /// Divides the three volumes of the mix by their sum.
    pub fn normalize_mix(&mut self)
        requires
            defined_everywhere::<V>(),
        ensures
            same_but_mix(*old(self), *final(self)),
            normalized_of(
                old(self).intake_volume,
                old(self).exhaust_volume,
                old(self).engine_vibrations_volume,
                final(self).intake_volume,
                final(self).exhaust_volume,
                final(self).engine_vibrations_volume,
            ),
    {
        let partial = self.intake_volume + self.exhaust_volume;
        let sum = partial + self.engine_vibrations_volume;
        assert(add_of(self.intake_volume, self.exhaust_volume, partial));
        assert(add_of(partial, self.engine_vibrations_volume, sum));
        let intake = self.intake_volume / sum;
        let exhaust = self.exhaust_volume / sum;
        let vibrations = self.engine_vibrations_volume / sum;
        self.intake_volume = intake;
        self.exhaust_volume = exhaust;
        self.engine_vibrations_volume = vibrations;
    }
}

/// However a volume of the mix is moved, the other two end up at least 0 and at most 1.
pub proof fn law_rebalanced_volumes_are_in_unit_interval<V: Number>(
    scale: Scale<V>,
    previous: V,
    value: V,
    one: V,
    two: V,
    new_one: V,
    new_two: V,
)
    requires
        scale.followed(),
        scale.counts(),
        rebalanced_of(previous, value, one, two, new_one, new_two),
    ensures
        scale.in_unit_interval(new_one),
        scale.in_unit_interval(new_two),
{
    assert forall|v: V, amount: V, r: V| #[trigger] reduced_of(v, amount, r) implies
        scale.in_unit_interval(r) by {
        let left = choose|left: V| #[trigger] sub_of(v, amount, left) && unit_of(left, r);
        law_unit_is_in_unit_interval(scale, left, r);
    }
}

}
