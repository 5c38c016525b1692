//! Changing the cylinders of an engine all at once.

use crate::engine::{cylinder_copied, Cylinder, WaveGuide};
use crate::number::{defined_everywhere, div_of, Number, Scale};
use vstd::prelude::*;

verus! {

/// `cylinder` with the settings that all cylinders share taken from `model`. What is its own, the
/// crank offset and the waveguides but for two open ends, it keeps.
pub open spec fn adopted<V, L>(cylinder: Cylinder<V, L>, model: Cylinder<V, L>) -> Cylinder<V, L> {
    Cylinder {
        intake_open_refl: model.intake_open_refl,
        intake_closed_refl: model.intake_closed_refl,
        exhaust_open_refl: model.exhaust_open_refl,
        exhaust_closed_refl: model.exhaust_closed_refl,
        piston_motion_factor: model.piston_motion_factor,
        ignition_factor: model.ignition_factor,
        ignition_time: model.ignition_time,
        intake_waveguide: WaveGuide {
            beta: model.intake_waveguide.beta,
            ..cylinder.intake_waveguide
        },
        extractor_waveguide: WaveGuide {
            beta: model.extractor_waveguide.beta,
            ..cylinder.extractor_waveguide
        },
        ..cylinder
    }
}

/// `r` is the crank offset of a cylinder that is added to reach `count` cylinders:
/// `(count - 1) / count`, with `to_value` turning the counts into numbers.
pub open spec fn added_offset_of<V: Number, C: Fn(usize) -> V>(
    to_value: C,
    count: usize,
    r: V,
) -> bool {
    exists|last: V, all: V|
        #![trigger
            call_ensures(to_value, ((count - 1) as usize,), last),
            call_ensures(to_value, (count,), all),
        ]
        call_ensures(to_value, ((count - 1) as usize,), last) && call_ensures(
            to_value,
            (count,),
            all,
        ) && div_of(last, all, r)
}

/// `after` is `before` brought to `count` cylinders that share the settings of `model`.
pub open spec fn reshaped_of<V: Number, L: Clone, C: Fn(usize) -> V>(
    to_value: C,
    before: Seq<Cylinder<V, L>>,
    count: usize,
    model: Cylinder<V, L>,
    after: Seq<Cylinder<V, L>>,
) -> bool {
    &&& after.len() == count
    &&& forall|i: int|
        0 <= i < count && i < before.len() ==> #[trigger] after[i] == adopted(before[i], model)
    &&& before.len() < count ==> exists|offset: V| #[trigger]
        added_offset_of(to_value, count, offset) && added_at(
            offset,
            model,
            after.subrange(before.len() as int, count as int),
        )
}

/// Every cylinder of `added` is a copy of `model` at the crank offset `offset`.
pub open spec fn added_at<V, L: Clone>(
    offset: V,
    model: Cylinder<V, L>,
    added: Seq<Cylinder<V, L>>,
) -> bool {
    forall|i: int|
        0 <= i < added.len() ==> cylinder_copied(
            Cylinder { crank_offset: offset, ..model },
            #[trigger] added[i],
        )
}

impl<V: Copy, L> Cylinder<V, L> {
    /// Takes over the settings that all cylinders share.
    pub fn adopt(&mut self, model: &Cylinder<V, L>)
        ensures
            *final(self) == adopted(*old(self), *model),
    {
        self.intake_open_refl = model.intake_open_refl;
        self.intake_closed_refl = model.intake_closed_refl;
        self.exhaust_open_refl = model.exhaust_open_refl;
        self.exhaust_closed_refl = model.exhaust_closed_refl;
        self.piston_motion_factor = model.piston_motion_factor;
        self.ignition_factor = model.ignition_factor;
        self.ignition_time = model.ignition_time;
        self.intake_waveguide.beta = model.intake_waveguide.beta;
        self.extractor_waveguide.beta = model.extractor_waveguide.beta;
    }
}

/// Brings `cylinders` to `count` cylinders that all have the settings of `model`. Cylinders past
/// `count` are dropped. Added ones are copies of `model` at one and the same crank offset.
pub fn reshape<V: Number, L: Clone, C: Fn(usize) -> V>(
    cylinders: &mut Vec<Cylinder<V, L>>,
    count: usize,
    model: &Cylinder<V, L>,
    to_value: C,
)
    requires
        defined_everywhere::<V>(),
        forall|n: usize| #[trigger] call_requires(to_value, (n,)),
    ensures
        reshaped_of(to_value, old(cylinders)@, count, *model, final(cylinders)@),
{
    let ghost before = cylinders@;
    cylinders.truncate(count);
    let kept: usize = cylinders.len();
    let mut i: usize = 0;
    while i < kept
        invariant
            i <= kept == cylinders@.len(),
            kept <= before.len(),
            forall|j: int| 0 <= j < i ==> #[trigger] cylinders@[j] == adopted(before[j], *model),
            forall|j: int| i <= j < kept ==> #[trigger] cylinders@[j] == before[j],
        decreases kept - i,
    {
        cylinders[i].adopt(model);
        i += 1;
    }
    if kept < count {
        let last = to_value(count - 1);
        let all = to_value(count);
        let offset = last / all;
        assert(added_offset_of(to_value, count, offset)) by {
            assert(call_ensures(to_value, ((count - 1) as usize,), last));
            assert(call_ensures(to_value, (count,), all));
        }
        let mut added: usize = kept;
        while added < count
            invariant
                kept == before.len(),
                kept <= added <= count,
                cylinders@.len() == added,
                added_offset_of(to_value, count, offset),
                forall|j: int|
                    0 <= j < kept ==> #[trigger] cylinders@[j] == adopted(before[j], *model),
                forall|j: int|
                    kept <= j < added ==> cylinder_copied(
                        Cylinder { crank_offset: offset, ..*model },
                        #[trigger] cylinders@[j],
                    ),
            decreases count - added,
        {
            let mut cylinder = model.clone();
            cylinder.crank_offset = offset;
            cylinders.push(cylinder);
            added += 1;
        }
        assert(added_at(offset, *model, cylinders@.subrange(kept as int, count as int)));
    }
}

/// After reshaping, every cylinder has the settings of the model: taking them over once more
/// changes none of them.
pub proof fn law_reshaped_cylinders_share_the_model<V: Number, L: Clone, C: Fn(usize) -> V>(
    to_value: C,
    before: Seq<Cylinder<V, L>>,
    count: usize,
    model: Cylinder<V, L>,
    after: Seq<Cylinder<V, L>>,
)
    requires
        reshaped_of(to_value, before, count, model, after),
    ensures
        forall|i: int| 0 <= i < after.len() ==> adopted(#[trigger] after[i], model) == after[i],
{
    assert forall|i: int| 0 <= i < after.len() implies adopted(#[trigger] after[i], model)
        == after[i] by {
        if before.len() <= i {
            let added = after.subrange(before.len() as int, count as int);
            assert(added[i - before.len()] == after[i]);
        }
    }
}

/// Reshaping never touches what a cylinder that stays has of its own: its crank offset, its
/// exhaust cavity, and the length and contents of its intake and extractor cavities.
pub proof fn law_reshaping_keeps_what_is_a_cylinders_own<V: Number, L: Clone, C: Fn(usize) -> V>(
    to_value: C,
    before: Seq<Cylinder<V, L>>,
    count: usize,
    model: Cylinder<V, L>,
    after: Seq<Cylinder<V, L>>,
    i: int,
)
    requires
        reshaped_of(to_value, before, count, model, after),
        0 <= i < count,
        i < before.len(),
    ensures
        after[i].crank_offset == before[i].crank_offset,
        after[i].exhaust_waveguide == before[i].exhaust_waveguide,
        after[i].intake_waveguide == (WaveGuide {
            beta: model.intake_waveguide.beta,
            ..before[i].intake_waveguide
        }),
        after[i].extractor_waveguide == (WaveGuide {
            beta: model.extractor_waveguide.beta,
            ..before[i].extractor_waveguide
        }),
{
}

/// Cylinders that stay after reshaping have the settings that all share from the model, each by its
/// own name, and what is their own from before.
pub proof fn law_cylinders_that_stay_take_the_settings<V: Number, L: Clone, C: Fn(usize) -> V>(
    to_value: C,
    before: Seq<Cylinder<V, L>>,
    count: usize,
    model: Cylinder<V, L>,
    after: Seq<Cylinder<V, L>>,
    i: int,
)
    requires
        reshaped_of(to_value, before, count, model, after),
        0 <= i < count,
        i < before.len(),
    ensures
        after.len() == count,
        ({
            let (own, now) = (before[i], after[i]);
            let (intake, extractor) = (now.intake_waveguide, now.extractor_waveguide);
            &&& now.intake_open_refl == model.intake_open_refl
            &&& now.intake_closed_refl == model.intake_closed_refl
            &&& now.exhaust_open_refl == model.exhaust_open_refl
            &&& now.exhaust_closed_refl == model.exhaust_closed_refl
            &&& now.piston_motion_factor == model.piston_motion_factor
            &&& now.ignition_factor == model.ignition_factor
            &&& now.ignition_time == model.ignition_time
            &&& now.crank_offset == own.crank_offset
            &&& now.exhaust_waveguide == own.exhaust_waveguide
            &&& intake.beta == model.intake_waveguide.beta
            &&& intake.delay == own.intake_waveguide.delay
            &&& intake.alpha == own.intake_waveguide.alpha
            &&& intake.line == own.intake_waveguide.line
            &&& extractor.beta == model.extractor_waveguide.beta
            &&& extractor.delay == own.extractor_waveguide.delay
            &&& extractor.alpha == own.extractor_waveguide.alpha
            &&& extractor.line == own.extractor_waveguide.line
        }),
{
}

/// Cylinders that are added by reshaping are copies of the model, but for their crank offset: that
/// of the last of all cylinders, where they are spread evenly over one turn.
pub proof fn law_added_cylinders_copy_the_model<V: Number, L: Clone, C: Fn(usize) -> V>(
    scale: Scale<V>,
    to_value: C,
    before: Seq<Cylinder<V, L>>,
    count: usize,
    model: Cylinder<V, L>,
    after: Seq<Cylinder<V, L>>,
    i: int,
)
    requires
        scale.exact(),
        forall|n: usize, r: V| #[trigger]
            call_ensures(to_value, (n,), r) ==> (scale.place)(r) == Some(n as real),
        reshaped_of(to_value, before, count, model, after),
        before.len() <= i < count,
    ensures
        ({
            let now = after[i];
            &&& scale.has(now.crank_offset)
            &&& scale.at(now.crank_offset) * count as real == (count - 1) as real
            &&& now.intake_open_refl == model.intake_open_refl
            &&& now.intake_closed_refl == model.intake_closed_refl
            &&& now.exhaust_open_refl == model.exhaust_open_refl
            &&& now.exhaust_closed_refl == model.exhaust_closed_refl
            &&& now.piston_motion_factor == model.piston_motion_factor
            &&& now.ignition_factor == model.ignition_factor
            &&& now.ignition_time == model.ignition_time
            &&& now.intake_waveguide.delay == model.intake_waveguide.delay
            &&& now.intake_waveguide.alpha == model.intake_waveguide.alpha
            &&& now.intake_waveguide.beta == model.intake_waveguide.beta
            &&& cloned(model.intake_waveguide.line, now.intake_waveguide.line)
            &&& now.exhaust_waveguide.delay == model.exhaust_waveguide.delay
            &&& now.exhaust_waveguide.alpha == model.exhaust_waveguide.alpha
            &&& now.exhaust_waveguide.beta == model.exhaust_waveguide.beta
            &&& cloned(model.exhaust_waveguide.line, now.exhaust_waveguide.line)
            &&& now.extractor_waveguide.delay == model.extractor_waveguide.delay
            &&& now.extractor_waveguide.alpha == model.extractor_waveguide.alpha
            &&& now.extractor_waveguide.beta == model.extractor_waveguide.beta
            &&& cloned(model.extractor_waveguide.line, now.extractor_waveguide.line)
        }),
{
    let added = after.subrange(before.len() as int, count as int);
    assert(added[i - before.len()] == after[i]);
    let offset = choose|offset: V| #[trigger]
        added_offset_of(to_value, count, offset) && added_at(offset, model, added);
    assert(cylinder_copied(Cylinder { crank_offset: offset, ..model }, after[i]));
    let (last, all) = choose|last: V, all: V|
        #![trigger
            call_ensures(to_value, ((count - 1) as usize,), last),
            call_ensures(to_value, (count,), all),
        ]
        call_ensures(to_value, ((count - 1) as usize,), last) && call_ensures(
            to_value,
            (count,),
            all,
        ) && div_of(last, all, offset);
    assert(scale.at(all) == count as real && scale.at(last) == (count - 1) as real);
}

}
