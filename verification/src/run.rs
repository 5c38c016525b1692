//! A whole pass over the panel, from the first control to the last.

use crate::controls::{control_count, Control};
use crate::engine::{normalized_of, Engine, Generator, Muffler, WaveGuide};
use crate::exact::{
    law_moving_a_volume_never_silences_the_mix, law_normalizing_makes_the_mix_whole,
};
use crate::number::{Number, Scale};
use crate::panel::{
    begun_of, changed_of, in_mix, law_the_engine_stays_showable, moved_of, settled_of, shown,
    stepped_of, suits, with_engine, Move, Pass,
};
use crate::rounding::{
    law_moving_a_volume_never_silences_the_rounded_mix, law_normalizing_rounds_little, near,
    Rounding,
};
use vstd::prelude::*;

verus! {

/// A pass over the panel: the controls from top to bottom, what became of each, and the generator
/// and the pass above the first control, below it, below the second, and so on.
pub struct Run<V, L, F, R> {
    pub controls: Seq<Control>,
    pub moves: Seq<Move<V, L, F>>,
    pub states: Seq<Generator<V, L, F, R>>,
    pub passes: Seq<Pass<V, L>>,
}

impl<V: Number, L: Clone, F, R> Run<V, L, F, R> {
    /// The run went past control `n`.
    pub open spec fn stepped<C: Fn(usize) -> V>(self, to_value: C, n: int) -> bool {
        let control = self.controls[n];
        let (state, pass) = (self.states[n], self.passes[n]);
        &&& control.rank(state.engine.muffler.muffler_elements.len()) == n
        &&& shown(control, state.engine)
        &&& suits(control, self.moves[n], state, pass)
        &&& stepped_of(
            control,
            self.moves[n],
            to_value,
            state,
            pass,
            self.states[n + 1],
            self.passes[n + 1],
        )
    }

    /// The run began at the top of an engine that can be shown, and went past one control after the
    /// other as far as there was a next one.
    pub open spec fn complete<C: Fn(usize) -> V>(self, to_value: C) -> bool {
        let last = self.states.last().engine;
        &&& self.moves.len() == self.controls.len()
        &&& self.states.len() == self.controls.len() + 1
        &&& self.passes.len() == self.controls.len() + 1
        &&& self.states.first().engine.well_formed()
        &&& begun_of(self.states.first().engine, self.passes.first())
        &&& forall|n: int| 0 <= n < self.controls.len() ==> #[trigger] self.stepped(to_value, n)
        &&& self.controls.len() == control_count(
            last.muffler.muffler_elements.len(),
            last.cylinders.len(),
        )
    }

    /// No number of cylinders that was asked for is 0.
    pub open spec fn keeps_cylinders(self) -> bool {
        forall|n: int|
            0 <= n < self.moves.len() && #[trigger] self.moves[n] is Count
                ==> self.moves[n]->Count_0 > 0
    }

    /// The reflectivity that the muffler elements are to have: where their slider, the control at
    /// place 18, was moved to, or that of the first element at the beginning.
    pub open spec fn reflectivity(self) -> V {
        match self.moves[18] {
            Move::Value(value) => value,
            _ => self.states.first().engine.muffler.muffler_elements[0].beta,
        }
    }

    /// No control was moved.
    pub open spec fn still(self) -> bool {
        forall|n: int| 0 <= n < self.moves.len() ==> #[trigger] self.moves[n] is Still
    }

    /// The volumes of the mix were moved to numbers from 0 to 1 only.
    pub open spec fn mixes_within(self, scale: Scale<V>) -> bool {
        forall|n: int|
            0 <= n < self.moves.len() && in_mix(self.controls[n])
                && #[trigger] self.moves[n] is Value ==> scale.in_unit_interval(
                self.moves[n]->Value_0,
            )
    }
}

proof fn lemma_mufflers<V: Number, L: Clone, F, R, C: Fn(usize) -> V>(
    run: Run<V, L, F, R>,
    to_value: C,
    n: int,
)
    requires
        run.complete(to_value),
        0 <= n <= run.controls.len(),
    ensures
        run.states[n].engine.muffler.muffler_elements@.len()
            == run.states.first().engine.muffler.muffler_elements@.len(),
    decreases n,
{
    if n > 0 {
        lemma_mufflers(run, to_value, n - 1);
        assert(run.stepped(to_value, n - 1));
    }
}

/// Whatever is moved in a pass, the engine at its end is one that the panel can show, with all its
/// muffler elements.
pub proof fn law_the_engine_stays_showable_over_a_pass<
    V: Number,
    L: Clone,
    F,
    R,
    C: Fn(usize) -> V,
>(run: Run<V, L, F, R>, to_value: C)
    requires
        run.complete(to_value),
        run.keeps_cylinders(),
    ensures
        run.states.last().engine.well_formed(),
        run.states.last().engine.muffler.muffler_elements@.len()
            == run.states.first().engine.muffler.muffler_elements@.len(),
{
    lemma_mufflers(run, to_value, run.controls.len() as int);
    lemma_showable(run, to_value, run.controls.len() as int);
}

proof fn lemma_showable<V: Number, L: Clone, F, R, C: Fn(usize) -> V>(
    run: Run<V, L, F, R>,
    to_value: C,
    n: int,
)
    requires
        run.complete(to_value),
        run.keeps_cylinders(),
        0 <= n <= run.controls.len(),
    ensures
        run.states[n].engine.well_formed(),
        run.passes[n].count > 0,
    decreases n,
{
    if n > 0 {
        lemma_showable(run, to_value, n - 1);
        assert(run.stepped(to_value, n - 1));
        assert(run.moves[n - 1] is Count ==> run.moves[n - 1]->Count_0 > 0);
        law_the_engine_stays_showable(
            run.controls[n - 1],
            run.moves[n - 1],
            to_value,
            run.states[n - 1],
            run.passes[n - 1],
            run.states[n],
            run.passes[n],
        );
    }
}

/// At the end of a pass, all muffler elements have one reflectivity: the one that their slider was
/// moved to, or, where it was not moved, the one that the first element had at the beginning.
pub proof fn law_muffler_elements_share_one_reflectivity<
    V: Number,
    L: Clone,
    F,
    R,
    C: Fn(usize) -> V,
>(run: Run<V, L, F, R>, to_value: C)
    requires
        run.complete(to_value),
    ensures
        ({
            let elements = run.states.last().engine.muffler.muffler_elements@;
            forall|k: int|
                0 <= k < elements.len() ==> (#[trigger] elements[k]).beta == run.reflectivity()
        }),
        run.controls[18] == Control::MufflerBeta,
{
    let n = run.controls.len() as int;
    lemma_mufflers(run, to_value, n);
    lemma_beta(run, to_value, n);
    assert(run.stepped(to_value, 18));
    lemma_reflectivity(run, to_value, run.controls.len() as int);
}

proof fn lemma_beta<V: Number, L: Clone, F, R, C: Fn(usize) -> V>(
    run: Run<V, L, F, R>,
    to_value: C,
    n: int,
)
    requires
        run.complete(to_value),
        0 <= n <= run.controls.len(),
    ensures
        run.passes[n].muffler_beta == if n > 18 {
            run.reflectivity()
        } else {
            run.states.first().engine.muffler.muffler_elements[0].beta
        },
    decreases n,
{
    if n > 0 {
        lemma_beta(run, to_value, n - 1);
        assert(run.stepped(to_value, n - 1));
    }
}

proof fn lemma_reflectivity<V: Number, L: Clone, F, R, C: Fn(usize) -> V>(
    run: Run<V, L, F, R>,
    to_value: C,
    n: int,
)
    requires
        run.complete(to_value),
        0 <= n <= run.controls.len(),
    ensures
        ({
            let elements = run.states[n].engine.muffler.muffler_elements@;
            forall|k: int|
                0 <= k < n - 19 && k < elements.len() ==> (#[trigger] elements[k]).beta
                    == run.passes[n].muffler_beta
        }),
    decreases n,
{
    if n > 0 {
        lemma_reflectivity(run, to_value, n - 1);
        assert(run.stepped(to_value, n - 1));
    }
}

/// `now` is `before` as a pass that moves nothing leaves it above the control at place `n`: below
/// the volumes the mix is normalized, and the muffler elements that are behind have the
/// reflectivity `beta`.
spec fn unmoved_until<V: Number, L, F, R>(
    before: Generator<V, L, F, R>,
    beta: V,
    n: int,
    now: Generator<V, L, F, R>,
) -> bool {
    let (old_engine, engine) = (before.engine, now.engine);
    let (old_elements, elements) = (
        old_engine.muffler.muffler_elements@,
        engine.muffler.muffler_elements@,
    );
    &&& now == with_engine(before, engine)
    &&& engine == (Engine {
        intake_volume: engine.intake_volume,
        exhaust_volume: engine.exhaust_volume,
        engine_vibrations_volume: engine.engine_vibrations_volume,
        muffler: Muffler {
            muffler_elements: engine.muffler.muffler_elements,
            ..old_engine.muffler
        },
        ..old_engine
    })
    &&& if n < 6 {
        &&& engine.intake_volume == old_engine.intake_volume
        &&& engine.exhaust_volume == old_engine.exhaust_volume
        &&& engine.engine_vibrations_volume == old_engine.engine_vibrations_volume
    } else {
        normalized_of(
            old_engine.intake_volume,
            old_engine.exhaust_volume,
            old_engine.engine_vibrations_volume,
            engine.intake_volume,
            engine.exhaust_volume,
            engine.engine_vibrations_volume,
        )
    }
    &&& elements.len() == old_elements.len()
    &&& forall|k: int|
        0 <= k < elements.len() ==> #[trigger] elements[k] == if k < n - 19 {
            WaveGuide { beta, ..old_elements[k] }
        } else {
            old_elements[k]
        }
}

/// A pass in which nothing is moved normalizes the mix and gives all muffler elements the
/// reflectivity of the first one, and leaves everything else as it is.
pub proof fn law_an_unmoved_pass_keeps_the_engine<
    V: Number,
    L: Clone,
    F,
    R,
    C: Fn(usize) -> V,
>(run: Run<V, L, F, R>, to_value: C)
    requires
        run.complete(to_value),
        run.still(),
    ensures
        ({
            let (first, last) = (run.states.first(), run.states.last());
            let (before, after) = (first.engine, last.engine);
            &&& last == with_engine(first, after)
            &&& after == (Engine {
                intake_volume: after.intake_volume,
                exhaust_volume: after.exhaust_volume,
                engine_vibrations_volume: after.engine_vibrations_volume,
                muffler: Muffler {
                    muffler_elements: after.muffler.muffler_elements,
                    ..before.muffler
                },
                ..before
            })
            &&& normalized_of(
                before.intake_volume,
                before.exhaust_volume,
                before.engine_vibrations_volume,
                after.intake_volume,
                after.exhaust_volume,
                after.engine_vibrations_volume,
            )
            &&& after.muffler.muffler_elements@ =~= before.muffler.muffler_elements@.map_values(
                |element: WaveGuide<V, L>|
                    WaveGuide { beta: before.muffler.muffler_elements[0].beta, ..element },
            )
        }),
        run.passes.last() == run.passes.first(),
{
    lemma_unmoved(run, to_value, run.controls.len() as int);
}

proof fn lemma_unmoved<V: Number, L: Clone, F, R, C: Fn(usize) -> V>(
    run: Run<V, L, F, R>,
    to_value: C,
    n: int,
)
    requires
        run.complete(to_value),
        run.still(),
        0 <= n <= run.controls.len(),
    ensures
        unmoved_until(run.states.first(), run.passes.first().muffler_beta, n, run.states[n]),
        run.passes[n] == run.passes.first(),
    decreases n,
{
    if n > 0 {
        lemma_unmoved(run, to_value, n - 1);
        assert(run.stepped(to_value, n - 1));
        assert(run.moves[n - 1] is Still);
    }
}

/// However the volumes of a mix that sounds are moved in a pass, the mix at its end is whole.
pub proof fn law_every_pass_makes_the_mix_whole<
    V: Number,
    L: Clone,
    F,
    R,
    C: Fn(usize) -> V,
>(run: Run<V, L, F, R>, to_value: C, scale: Scale<V>)
    requires
        run.complete(to_value),
        scale.exact(),
        run.mixes_within(scale),
        ({
            let engine = run.states.first().engine;
            scale.sounds(
                engine.intake_volume,
                engine.exhaust_volume,
                engine.engine_vibrations_volume,
            )
        }),
    ensures
        ({
            let engine = run.states.last().engine;
            scale.whole(
                engine.intake_volume,
                engine.exhaust_volume,
                engine.engine_vibrations_volume,
            )
        }),
{
    lemma_mix(run, to_value, scale, run.controls.len() as int);
}

proof fn lemma_mix<V: Number, L: Clone, F, R, C: Fn(usize) -> V>(
    run: Run<V, L, F, R>,
    to_value: C,
    scale: Scale<V>,
    n: int,
)
    requires
        run.complete(to_value),
        scale.exact(),
        run.mixes_within(scale),
        ({
            let engine = run.states.first().engine;
            scale.sounds(
                engine.intake_volume,
                engine.exhaust_volume,
                engine.engine_vibrations_volume,
            )
        }),
        0 <= n <= run.controls.len(),
    ensures
        ({
            let engine = run.states[n].engine;
            let (a, b, c) = (
                engine.intake_volume,
                engine.exhaust_volume,
                engine.engine_vibrations_volume,
            );
            if n < 6 {
                scale.sounds(a, b, c)
            } else {
                scale.whole(a, b, c)
            }
        }),
    decreases n,
{
    if n > 0 {
        lemma_mix(run, to_value, scale, n - 1);
        assert(run.stepped(to_value, n - 1));
        let (control, movement) = (run.controls[n - 1], run.moves[n - 1]);
        let (before, pass) = (run.states[n - 1], run.passes[n - 1]);
        let (after, after_pass) = (run.states[n], run.passes[n]);
        let moved = choose|moved: Generator<V, L, F, R>|
            {
                &&& #[trigger] moved_of(control, movement, before, pass, moved, after_pass)
                &&& settled_of(control, to_value, moved.engine, after_pass, after.engine)
                &&& after == with_engine(moved, after.engine)
            };
        let (a, b, c) = (
            before.engine.intake_volume,
            before.engine.exhaust_volume,
            before.engine.engine_vibrations_volume,
        );
        let (x, y, z) = (
            moved.engine.intake_volume,
            moved.engine.exhaust_volume,
            moved.engine.engine_vibrations_volume,
        );
        if in_mix(control) && movement is Value {
            let value = movement->Value_0;
            assert(scale.in_unit_interval(value));
            assert(changed_of(control, value, before, pass, moved, after_pass));
            if control is IntakeVolume {
                law_moving_a_volume_never_silences_the_mix(scale, a, value, b, c, y, z);
            } else if control is ExhaustVolume {
                law_moving_a_volume_never_silences_the_mix(scale, b, value, a, c, x, z);
            } else {
                law_moving_a_volume_never_silences_the_mix(scale, c, value, b, a, y, x);
            }
        } else {
            assert(x == a && y == b && z == c);
        }
        if control is EngineVibrationsVolume {
            law_normalizing_makes_the_mix_whole(
                scale,
                x,
                y,
                z,
                after.engine.intake_volume,
                after.engine.exhaust_volume,
                after.engine.engine_vibrations_volume,
            );
        }
    }
}

/// However the volumes of a mix that sounds are moved in a pass, rounding included, the mix at its
/// end sounds and sums to 1 within three small errors.
pub proof fn law_every_pass_makes_the_mix_nearly_whole<
    V: Number,
    L: Clone,
    F,
    R,
    C: Fn(usize) -> V,
>(run: Run<V, L, F, R>, to_value: C, rounding: Rounding, scale: Scale<V>)
    requires
        run.complete(to_value),
        rounding.fine(),
        rounding.followed(scale),
        run.mixes_within(scale),
        ({
            let engine = run.states.first().engine;
            rounding.sounds(
                scale,
                engine.intake_volume,
                engine.exhaust_volume,
                engine.engine_vibrations_volume,
            )
        }),
    ensures
        ({
            let engine = run.states.last().engine;
            let (a, b, c) = (
                engine.intake_volume,
                engine.exhaust_volume,
                engine.engine_vibrations_volume,
            );
            &&& rounding.sounds(scale, a, b, c)
            &&& near(
                scale.at(a) + scale.at(b) + scale.at(c),
                1 as real,
                3 as real * rounding.small(),
            )
        }),
{
    lemma_rounded_mix(run, to_value, rounding, scale, run.controls.len() as int);
}

proof fn lemma_rounded_mix<V: Number, L: Clone, F, R, C: Fn(usize) -> V>(
    run: Run<V, L, F, R>,
    to_value: C,
    rounding: Rounding,
    scale: Scale<V>,
    n: int,
)
    requires
        run.complete(to_value),
        rounding.fine(),
        rounding.followed(scale),
        run.mixes_within(scale),
        ({
            let engine = run.states.first().engine;
            rounding.sounds(
                scale,
                engine.intake_volume,
                engine.exhaust_volume,
                engine.engine_vibrations_volume,
            )
        }),
        0 <= n <= run.controls.len(),
    ensures
        ({
            let engine = run.states[n].engine;
            let (a, b, c) = (
                engine.intake_volume,
                engine.exhaust_volume,
                engine.engine_vibrations_volume,
            );
            &&& rounding.sounds(scale, a, b, c)
            &&& n >= 6 ==> near(
                scale.at(a) + scale.at(b) + scale.at(c),
                1 as real,
                3 as real * rounding.small(),
            )
        }),
    decreases n,
{
    if n > 0 {
        lemma_rounded_mix(run, to_value, rounding, scale, n - 1);
        assert(run.stepped(to_value, n - 1));
        let (control, movement) = (run.controls[n - 1], run.moves[n - 1]);
        let (before, pass) = (run.states[n - 1], run.passes[n - 1]);
        let (after, after_pass) = (run.states[n], run.passes[n]);
        let moved = choose|moved: Generator<V, L, F, R>|
            {
                &&& #[trigger] moved_of(control, movement, before, pass, moved, after_pass)
                &&& settled_of(control, to_value, moved.engine, after_pass, after.engine)
                &&& after == with_engine(moved, after.engine)
            };
        let (a, b, c) = (
            before.engine.intake_volume,
            before.engine.exhaust_volume,
            before.engine.engine_vibrations_volume,
        );
        let (x, y, z) = (
            moved.engine.intake_volume,
            moved.engine.exhaust_volume,
            moved.engine.engine_vibrations_volume,
        );
        if in_mix(control) && movement is Value {
            let value = movement->Value_0;
            assert(scale.in_unit_interval(value));
            assert(changed_of(control, value, before, pass, moved, after_pass));
            if control is IntakeVolume {
                law_moving_a_volume_never_silences_the_rounded_mix(
                    rounding,
                    scale,
                    a,
                    value,
                    b,
                    c,
                    y,
                    z,
                );
            } else if control is ExhaustVolume {
                law_moving_a_volume_never_silences_the_rounded_mix(
                    rounding,
                    scale,
                    b,
                    value,
                    a,
                    c,
                    x,
                    z,
                );
            } else {
                law_moving_a_volume_never_silences_the_rounded_mix(
                    rounding,
                    scale,
                    c,
                    value,
                    b,
                    a,
                    y,
                    x,
                );
            }
        } else {
            assert(x == a && y == b && z == c);
        }
        if control is EngineVibrationsVolume {
            law_normalizing_rounds_little(
                rounding,
                scale,
                x,
                y,
                z,
                after.engine.intake_volume,
                after.engine.exhaust_volume,
                after.engine.engine_vibrations_volume,
            );
        }
    }
}

}
