//! What a whole pass over the panel leaves behind: what was moved is in the engine at the end, and
//! what was not stays.

use crate::controls::Control;
use crate::engine::{Cylinder, Generator, WaveGuide};
use crate::number::Number;
use crate::panel::{moved_of, settled_of, with_engine, Move};
use crate::run::{law_muffler_elements_share_one_reflectivity, Run};
use vstd::prelude::*;

verus! {

/// `g` takes the place of `before` with the same reflecting ends.
pub open spec fn same_ends<V, L>(before: WaveGuide<V, L>, g: WaveGuide<V, L>) -> bool {
    g.alpha == before.alpha && g.beta == before.beta
}

impl<V: Number, L: Clone, F, R> Run<V, L, F, R> {
    /// A waveguide that was put in place for another length has the reflecting ends of the one
    /// before.
    pub open spec fn keeps_ends(self) -> bool {
        forall|n: int|
            0 <= n < self.moves.len() && #[trigger] self.moves[n] is Guide ==> ({
                let (engine, g) = (self.states[n].engine, self.moves[n]->Guide_0);
                match self.controls[n] {
                    Control::PipeLength => same_ends(engine.muffler.straight_pipe, g),
                    Control::MufflerLength(i) => same_ends(
                        engine.muffler.muffler_elements@[i as int],
                        g,
                    ),
                    Control::IntakeLength(i) => same_ends(
                        engine.cylinders@[i as int].intake_waveguide,
                        g,
                    ),
                    Control::ExhaustLength(i) => same_ends(
                        engine.cylinders@[i as int].exhaust_waveguide,
                        g,
                    ),
                    Control::ExtractorLength(i) => same_ends(
                        engine.cylinders@[i as int].extractor_waveguide,
                        g,
                    ),
                    _ => true,
                }
            })
    }
}

/// Where the run stands, at place `n` or below, after going past it.
proof fn lemma_step<V: Number, L: Clone, F, R, C: Fn(usize) -> V>(
    run: Run<V, L, F, R>,
    to_value: C,
    n: int,
) -> (moved: Generator<V, L, F, R>)
    requires
        run.complete(to_value),
        0 <= n < run.controls.len(),
    ensures
        moved_of(
            run.controls[n],
            run.moves[n],
            run.states[n],
            run.passes[n],
            moved,
            run.passes[n + 1],
        ),
        settled_of(
            run.controls[n],
            to_value,
            moved.engine,
            run.passes[n + 1],
            run.states[n + 1].engine,
        ),
        run.states[n + 1] == with_engine(moved, run.states[n + 1].engine),
        run.stepped(to_value, n),
{
    assert(run.stepped(to_value, n));
    choose|moved: Generator<V, L, F, R>|
        {
            &&& #[trigger] moved_of(
                run.controls[n],
                run.moves[n],
                run.states[n],
                run.passes[n],
                moved,
                run.passes[n + 1],
            )
            &&& settled_of(
                run.controls[n],
                to_value,
                moved.engine,
                run.passes[n + 1],
                run.states[n + 1].engine,
            )
            &&& run.states[n + 1] == with_engine(moved, run.states[n + 1].engine)
        }
}

/// The muffler keeps its elements.
proof fn lemma_elements<V: Number, L: Clone, F, R, C: Fn(usize) -> V>(
    run: Run<V, L, F, R>,
    to_value: C,
    n: int,
)
    requires
        run.complete(to_value),
        0 <= n <= run.controls.len(),
    ensures
        run.states[n].engine.muffler.muffler_elements@.len()
            == run.states.first().engine.muffler.muffler_elements@.len(),
    decreases n,
{
    if n > 0 {
        lemma_elements(run, to_value, n - 1);
        let moved = lemma_step(run, to_value, n - 1);
    }
}

/// No control comes twice.
proof fn lemma_once<V: Number, L: Clone, F, R, C: Fn(usize) -> V>(
    run: Run<V, L, F, R>,
    to_value: C,
    n: int,
    k: int,
)
    requires
        run.complete(to_value),
        0 <= n < run.controls.len(),
        0 <= k < run.controls.len(),
        run.controls[n] == run.controls[k],
    ensures
        n == k,
{
    lemma_elements(run, to_value, n);
    lemma_elements(run, to_value, k);
    assert(run.stepped(to_value, n) && run.stepped(to_value, k));
    let (a, b) = (
        run.states[n].engine.muffler.muffler_elements,
        run.states[k].engine.muffler.muffler_elements,
    );
    assert(a.len() == b.len());
}

/// Below the settings that cylinders share, the number of cylinders stays.
proof fn lemma_cylinders_stay<V: Number, L: Clone, F, R, C: Fn(usize) -> V>(
    run: Run<V, L, F, R>,
    to_value: C,
    n: int,
    k: int,
)
    requires
        run.complete(to_value),
        0 <= n <= k <= run.controls.len(),
        ({
            let m = run.states.first().engine.muffler.muffler_elements@.len() as int;
            n >= 30 + m || k <= 29 + m
        }),
    ensures
        run.states[k].engine.cylinders@.len() == run.states[n].engine.cylinders@.len(),
    decreases k - n,
{
    if n < k {
        lemma_cylinders_stay(run, to_value, n, k - 1);
        lemma_elements(run, to_value, k - 1);
        let moved = lemma_step(run, to_value, k - 1);
    }
}

/// Every control that the panel has for the engine at the end was gone past, exactly once.
pub proof fn law_every_control_is_gone_past<V: Number, L: Clone, F, R, C: Fn(usize) -> V>(
    run: Run<V, L, F, R>,
    to_value: C,
    control: Control,
)
    requires
        run.complete(to_value),
        ({
            let last = run.states.last().engine;
            match control {
                Control::MufflerLength(i) => i < last.muffler.muffler_elements@.len(),
                Control::IntakeLength(i) => i < last.cylinders@.len(),
                Control::ExhaustLength(i) => i < last.cylinders@.len(),
                Control::ExtractorLength(i) => i < last.cylinders@.len(),
                Control::CrankOffset(i) => i < last.cylinders@.len(),
                _ => true,
            }
        }),
    ensures
        exists|n: int| 0 <= n < run.controls.len() && #[trigger] run.controls[n] == control,
        forall|n: int, k: int|
            0 <= n < run.controls.len() && 0 <= k < run.controls.len() && #[trigger] run.controls[n]
                == control && #[trigger] run.controls[k] == control ==> n == k,
{
    let last = run.states.last().engine;
    let elements = last.muffler.muffler_elements;
    lemma_elements(run, to_value, run.controls.len() as int);
    let n = control.rank(elements.len());
    assert(elements.len() == elements@.len() && last.cylinders.len() == last.cylinders@.len());
    assert(0 <= n < run.controls.len());
    lemma_elements(run, to_value, n);
    assert(run.stepped(to_value, n));
    let there = run.states[n].engine.muffler.muffler_elements;
    assert(there.len() == there@.len());
    assert(run.controls[n].rank(elements.len()) == n);
    assert(run.controls[n] == control);
    assert forall|n: int, k: int|
        0 <= n < run.controls.len() && 0 <= k < run.controls.len() && #[trigger] run.controls[n]
            == control && #[trigger] run.controls[k] == control implies n == k by {
        lemma_once(run, to_value, n, k);
    }
}

/// The number that a slider sets directly.
spec fn single<V, L, F, R>(generator: Generator<V, L, F, R>, control: Control) -> Option<V> {
    match control {
        Control::Rpm => Some(generator.engine.rpm),
        Control::MasterVolume => Some(generator.volume),
        Control::IntakeNoise => Some(generator.engine.intake_noise_factor),
        Control::IntakeValveShift => Some(generator.engine.intake_valve_shift),
        Control::ExhaustValveShift => Some(generator.engine.exhaust_valve_shift),
        Control::CrankshaftFluctuation => Some(generator.engine.crankshaft_fluctuation),
        Control::PipeAlpha => Some(generator.engine.muffler.straight_pipe.alpha),
        Control::PipeBeta => Some(generator.engine.muffler.straight_pipe.beta),
        _ => None,
    }
}

/// The filter that a slider replaces.
spec fn filter_at<V, L, F, R>(generator: Generator<V, L, F, R>, control: Control) -> Option<F> {
    match control {
        Control::EngineVibrationFilter => Some(generator.engine.engine_vibration_filter),
        Control::IntakeNoiseFilter => Some(generator.engine.intake_noise_lp),
        Control::CrankshaftFluctuationFilter => Some(generator.engine.crankshaft_fluctuation_lp),
        _ => None,
    }
}

/// What is set directly stays at the other controls, from place `n` to place `k`.
proof fn lemma_single<V: Number, L: Clone, F, R, C: Fn(usize) -> V>(
    run: Run<V, L, F, R>,
    to_value: C,
    control: Control,
    n: int,
    k: int,
)
    requires
        run.complete(to_value),
        run.keeps_ends(),
        0 <= n <= k <= run.controls.len(),
        forall|j: int|
            n <= j < k ==> #[trigger] run.controls[j] != control || run.moves[j] is Still,
    ensures
        single(run.states[k], control) == single(run.states[n], control),
        filter_at(run.states[k], control) == filter_at(run.states[n], control),
        control is PipeLength ==> {
            let (a, b) = (
                run.states[k].engine.muffler.straight_pipe,
                run.states[n].engine.muffler.straight_pipe,
            );
            a.delay == b.delay && a.line == b.line
        },
    decreases k - n,
{
    if n < k {
        lemma_single(run, to_value, control, n, k - 1);
        let moved = lemma_step(run, to_value, k - 1);
        assert(run.controls[k - 1] != control || run.moves[k - 1] is Still);
        assert(run.moves[k - 1] is Guide || !(run.moves[k - 1] is Guide));
    }
}

/// A setting that cylinders share, of one cylinder.
spec fn setting<V, L>(cylinder: Cylinder<V, L>, control: Control) -> Option<V> {
    match control {
        Control::IntakeOpen => Some(cylinder.intake_open_refl),
        Control::IntakeClosed => Some(cylinder.intake_closed_refl),
        Control::ExhaustOpen => Some(cylinder.exhaust_open_refl),
        Control::ExhaustClosed => Some(cylinder.exhaust_closed_refl),
        Control::IntakeBeta => Some(cylinder.intake_waveguide.beta),
        Control::ExtractorBeta => Some(cylinder.extractor_waveguide.beta),
        Control::PistonMotion => Some(cylinder.piston_motion_factor),
        Control::IgnitionFactor => Some(cylinder.ignition_factor),
        Control::IgnitionTime => Some(cylinder.ignition_time),
        _ => None,
    }
}

/// The cylinder that stands for all keeps a setting at the other controls, from place `n` to `k`.
proof fn lemma_setting_carried<V: Number, L: Clone, F, R, C: Fn(usize) -> V>(
    run: Run<V, L, F, R>,
    to_value: C,
    control: Control,
    n: int,
    k: int,
)
    requires
        run.complete(to_value),
        0 <= n <= k <= run.controls.len(),
        forall|j: int|
            n <= j < k ==> #[trigger] run.controls[j] != control || run.moves[j] is Still,
    ensures
        setting(run.passes[k].cylinder, control) == setting(run.passes[n].cylinder, control),
        run.passes[n].changed ==> run.passes[k].changed,
    decreases k - n,
{
    if n < k {
        lemma_setting_carried(run, to_value, control, n, k - 1);
        let moved = lemma_step(run, to_value, k - 1);
        assert(run.controls[k - 1] != control || run.moves[k - 1] is Still);
    }
}

/// Below the settings that cylinders share, every cylinder keeps them.
proof fn lemma_setting_stays<V: Number, L: Clone, F, R, C: Fn(usize) -> V>(
    run: Run<V, L, F, R>,
    to_value: C,
    control: Control,
    n: int,
    k: int,
    i: int,
)
    requires
        run.complete(to_value),
        run.keeps_ends(),
        0 <= n <= k <= run.controls.len(),
        ({
            let m = run.states.first().engine.muffler.muffler_elements@.len() as int;
            n >= 30 + m || k <= 29 + m
        }),
        0 <= i < run.states[n].engine.cylinders@.len(),
    ensures
        run.states[k].engine.cylinders@.len() == run.states[n].engine.cylinders@.len(),
        setting(run.states[k].engine.cylinders@[i], control) == setting(
            run.states[n].engine.cylinders@[i],
            control,
        ),
    decreases k - n,
{
    if n < k {
        lemma_setting_stays(run, to_value, control, n, k - 1, i);
        lemma_elements(run, to_value, k - 1);
        let moved = lemma_step(run, to_value, k - 1);
        assert(run.moves[k - 1] is Guide || !(run.moves[k - 1] is Guide));
    }
}

/// Where something that cylinders share was changed, every cylinder has the settings of the one
/// that stands for all once they are behind.
proof fn lemma_settled<V: Number, L: Clone, F, R, C: Fn(usize) -> V>(
    run: Run<V, L, F, R>,
    to_value: C,
    control: Control,
    i: int,
)
    requires
        run.complete(to_value),
        ({
            let place = run.states.first().engine.muffler.muffler_elements@.len() + 29int;
            &&& place < run.controls.len()
            &&& run.passes[place + 1].changed
            &&& 0 <= i < run.states[place + 1].engine.cylinders@.len()
        }),
    ensures
        ({
            let place = run.states.first().engine.muffler.muffler_elements@.len() + 29int;
            setting(run.states[place + 1].engine.cylinders@[i], control) == setting(
                run.passes[place + 1].cylinder,
                control,
            )
        }),
{
    let place = run.states.first().engine.muffler.muffler_elements@.len() + 29int;
    lemma_elements(run, to_value, place);
    let moved = lemma_step(run, to_value, place);
    let elements = run.states[place].engine.muffler.muffler_elements;
    assert(elements.len() == elements@.len());
    assert(run.controls[place] is IgnitionTime);
    let (before, after) = (
        moved.engine.cylinders@,
        run.states[place + 1].engine.cylinders@,
    );
    if before.len() <= i {
        let added = after.subrange(before.len() as int, after.len() as int);
        assert(added[i - before.len()] == after[i]);
    }
}

/// What a slider was moved to in a pass is in the engine at the end. A setting that cylinders share
/// is in all of them.
pub proof fn law_what_was_moved_is_in_the_engine<V: Number, L: Clone, F, R, C: Fn(usize) -> V>(
    run: Run<V, L, F, R>,
    to_value: C,
    n: int,
    value: V,
)
    requires
        run.complete(to_value),
        run.keeps_ends(),
        0 <= n < run.controls.len(),
        run.moves[n] == Move::<V, L, F>::Value(value),
    ensures
        ({
            let generator = run.states.last();
            let engine = generator.engine;
            let elements = engine.muffler.muffler_elements@;
            let cylinders = engine.cylinders@;
            match run.controls[n] {
                Control::Rpm => engine.rpm == value,
                Control::MasterVolume => generator.volume == value,
                Control::IntakeNoise => engine.intake_noise_factor == value,
                Control::IntakeValveShift => engine.intake_valve_shift == value,
                Control::ExhaustValveShift => engine.exhaust_valve_shift == value,
                Control::CrankshaftFluctuation => engine.crankshaft_fluctuation == value,
                Control::PipeAlpha => engine.muffler.straight_pipe.alpha == value,
                Control::PipeBeta => engine.muffler.straight_pipe.beta == value,
                Control::MufflerBeta => forall|k: int|
                    0 <= k < elements.len() ==> (#[trigger] elements[k]).beta == value,
                Control::IntakeOpen => forall|i: int|
                    0 <= i < cylinders.len() ==> (#[trigger] cylinders[i]).intake_open_refl
                        == value,
                Control::IntakeClosed => forall|i: int|
                    0 <= i < cylinders.len() ==> (#[trigger] cylinders[i]).intake_closed_refl
                        == value,
                Control::ExhaustOpen => forall|i: int|
                    0 <= i < cylinders.len() ==> (#[trigger] cylinders[i]).exhaust_open_refl
                        == value,
                Control::ExhaustClosed => forall|i: int|
                    0 <= i < cylinders.len() ==> (#[trigger] cylinders[i]).exhaust_closed_refl
                        == value,
                Control::IntakeBeta => forall|i: int|
                    0 <= i < cylinders.len() ==> (#[trigger] cylinders[i]).intake_waveguide.beta
                        == value,
                Control::ExtractorBeta => forall|i: int|
                    0 <= i < cylinders.len() ==> (#[trigger] cylinders[i]).extractor_waveguide.beta
                        == value,
                Control::PistonMotion => forall|i: int|
                    0 <= i < cylinders.len() ==> (#[trigger] cylinders[i]).piston_motion_factor
                        == value,
                Control::IgnitionFactor => forall|i: int|
                    0 <= i < cylinders.len() ==> (#[trigger] cylinders[i]).ignition_factor
                        == value,
                Control::IgnitionTime => forall|i: int|
                    0 <= i < cylinders.len() ==> (#[trigger] cylinders[i]).ignition_time
                        == value,
                Control::CrankOffset(i) => cylinders[i as int].crank_offset == value,
                _ => true,
            }
        }),
{
    let control = run.controls[n];
    let end = run.controls.len() as int;
    let m = run.states.first().engine.muffler.muffler_elements@.len() as int;
    lemma_elements(run, to_value, n);
    let moved = lemma_step(run, to_value, n);
    let elements = run.states[n].engine.muffler.muffler_elements;
    assert(elements.len() == elements@.len());
    lemma_end(run, to_value);
    assert forall|j: int| n + 1 <= j < end implies #[trigger] run.controls[j] != control
        || run.moves[j] is Still by {
        if run.controls[j] == control {
            lemma_once(run, to_value, n, j);
        }
    }
    if single(run.states[n], control) is Some {
        lemma_single(run, to_value, control, n + 1, end);
    } else if control is MufflerBeta {
        law_muffler_elements_share_one_reflectivity(run, to_value);
        lemma_once(run, to_value, n, 18);
    } else if setting(run.passes[n].cylinder, control) is Some {
        let place = 29 + m;
        lemma_setting_carried(run, to_value, control, n + 1, place + 1);
        assert forall|i: int| 0 <= i < run.states.last().engine.cylinders@.len() implies setting(
            #[trigger] run.states.last().engine.cylinders@[i],
            control,
        ) == Some(value) by {
            lemma_cylinders_stay(run, to_value, place + 1, end);
            lemma_settled(run, to_value, control, i);
            lemma_setting_stays(run, to_value, control, place + 1, end, i);
        }
        let cylinders = run.states.last().engine.cylinders@;
        assert forall|i: int| 0 <= i < cylinders.len() implies setting(
            #[trigger] cylinders[i],
            control,
        ) == Some(value) by {
            assert(setting(run.states.last().engine.cylinders@[i], control) == Some(value));
        }
    } else if let Control::CrankOffset(i) = control {
        lemma_own_stays(run, to_value, control, i as int, n + 1, end);
    }
}

/// A pass goes past all that stands above the cylinders.
proof fn lemma_end<V: Number, L: Clone, F, R, C: Fn(usize) -> V>(run: Run<V, L, F, R>, to_value: C)
    requires
        run.complete(to_value),
    ensures
        run.controls.len() >= 30 + run.states.first().engine.muffler.muffler_elements@.len(),
{
    lemma_elements(run, to_value, run.controls.len() as int);
    let elements = run.states.last().engine.muffler.muffler_elements;
    assert(elements.len() == elements@.len());
}

/// What a cylinder has of its own stays at the controls of others, and at a control of its own that
/// was not moved.
proof fn lemma_own_stays<V: Number, L: Clone, F, R, C: Fn(usize) -> V>(
    run: Run<V, L, F, R>,
    to_value: C,
    control: Control,
    i: int,
    n: int,
    k: int,
)
    requires
        run.complete(to_value),
        0 <= n <= k <= run.controls.len(),
        n >= 30 + run.states.first().engine.muffler.muffler_elements@.len(),
        0 <= i < run.states[n].engine.cylinders@.len(),
        i <= usize::MAX,
        forall|j: int|
            n <= j < k ==> #[trigger] run.controls[j] != control || run.moves[j] is Still,
    ensures
        run.states[k].engine.cylinders@.len() == run.states[n].engine.cylinders@.len(),
        ({
            let (a, b) = (
                run.states[k].engine.cylinders@[i],
                run.states[n].engine.cylinders@[i],
            );
            &&& control == Control::CrankOffset(i as usize) ==> a.crank_offset == b.crank_offset
            &&& control == Control::IntakeLength(i as usize) ==> a.intake_waveguide
                == b.intake_waveguide
            &&& control == Control::ExhaustLength(i as usize) ==> a.exhaust_waveguide
                == b.exhaust_waveguide
            &&& control == Control::ExtractorLength(i as usize) ==> a.extractor_waveguide
                == b.extractor_waveguide
        }),
    decreases k - n,
{
    if n < k {
        lemma_own_stays(run, to_value, control, i, n, k - 1);
        lemma_elements(run, to_value, k - 1);
        let moved = lemma_step(run, to_value, k - 1);
        let elements = run.states[k - 1].engine.muffler.muffler_elements;
        assert(elements.len() == elements@.len());
        assert(run.controls[k - 1] != control || run.moves[k - 1] is Still);
    }
}

/// A filter or a waveguide that was put in place in a pass is in the engine at the end. A muffler
/// element has the reflectivity of all.
pub proof fn law_what_was_put_in_place_is_in_the_engine<
    V: Number,
    L: Clone,
    F,
    R,
    C: Fn(usize) -> V,
>(run: Run<V, L, F, R>, to_value: C, n: int)
    requires
        run.complete(to_value),
        run.keeps_ends(),
        0 <= n < run.controls.len(),
    ensures
        ({
            let engine = run.states.last().engine;
            let elements = engine.muffler.muffler_elements@;
            let cylinders = engine.cylinders@;
            match (run.controls[n], run.moves[n]) {
                (Control::EngineVibrationFilter, Move::Filter(filter)) => {
                    engine.engine_vibration_filter == filter
                },
                (Control::IntakeNoiseFilter, Move::Filter(filter)) => {
                    engine.intake_noise_lp == filter
                },
                (Control::CrankshaftFluctuationFilter, Move::Filter(filter)) => {
                    engine.crankshaft_fluctuation_lp == filter
                },
                (Control::PipeLength, Move::Guide(guide)) => engine.muffler.straight_pipe == guide,
                (Control::MufflerLength(i), Move::Guide(guide)) => {
                    &&& elements[i as int].delay == guide.delay
                    &&& elements[i as int].alpha == guide.alpha
                    &&& elements[i as int].line == guide.line
                },
                (Control::IntakeLength(i), Move::Guide(guide)) => {
                    cylinders[i as int].intake_waveguide == guide
                },
                (Control::ExhaustLength(i), Move::Guide(guide)) => {
                    cylinders[i as int].exhaust_waveguide == guide
                },
                (Control::ExtractorLength(i), Move::Guide(guide)) => {
                    cylinders[i as int].extractor_waveguide == guide
                },
                _ => true,
            }
        }),
{
    let control = run.controls[n];
    let end = run.controls.len() as int;
    lemma_elements(run, to_value, n);
    let moved = lemma_step(run, to_value, n);
    let elements = run.states[n].engine.muffler.muffler_elements;
    assert(elements.len() == elements@.len());
    assert forall|j: int| n + 1 <= j < end implies #[trigger] run.controls[j] != control
        || run.moves[j] is Still by {
        if run.controls[j] == control {
            lemma_once(run, to_value, n, j);
        }
    }
    if filter_at(run.states[n], control) is Some {
        lemma_single(run, to_value, control, n + 1, end);
    } else if control is PipeLength {
        assert forall|j: int| n + 1 <= j < end implies !(#[trigger] run.controls[j] is PipeAlpha)
            && !(run.controls[j] is PipeBeta) by {
            assert(run.stepped(to_value, j));
        }
        lemma_single(run, to_value, control, n + 1, end);
        lemma_single(run, to_value, Control::PipeAlpha, n + 1, end);
        lemma_single(run, to_value, Control::PipeBeta, n + 1, end);
    } else if let Control::MufflerLength(i) = control {
        lemma_element_stays(run, to_value, i, n + 1, end);
    } else if run.moves[n] is Guide {
        let i = match control {
            Control::IntakeLength(i) => i,
            Control::ExhaustLength(i) => i,
            Control::ExtractorLength(i) => i,
            _ => 0,
        };
        lemma_own_stays(run, to_value, control, i as int, n + 1, end);
    }
}

/// A muffler element keeps its delay line and its near end at the other controls.
proof fn lemma_element_stays<V: Number, L: Clone, F, R, C: Fn(usize) -> V>(
    run: Run<V, L, F, R>,
    to_value: C,
    i: usize,
    n: int,
    k: int,
)
    requires
        run.complete(to_value),
        0 <= n <= k <= run.controls.len(),
        i < run.states.first().engine.muffler.muffler_elements@.len(),
        forall|j: int|
            n <= j < k ==> #[trigger] run.controls[j] != Control::MufflerLength(i)
                || run.moves[j] is Still,
    ensures
        ({
            let (a, b) = (
                run.states[k].engine.muffler.muffler_elements@[i as int],
                run.states[n].engine.muffler.muffler_elements@[i as int],
            );
            a.delay == b.delay && a.alpha == b.alpha && a.line == b.line
        }),
    decreases k - n,
{
    if n < k {
        lemma_element_stays(run, to_value, i, n, k - 1);
        lemma_elements(run, to_value, k - 1);
        let moved = lemma_step(run, to_value, k - 1);
        assert(run.controls[k - 1] != Control::MufflerLength(i) || run.moves[k - 1] is Still);
    }
}

/// Up to its slider, the number of cylinders that there are to be is the one that there are.
proof fn lemma_count<V: Number, L: Clone, F, R, C: Fn(usize) -> V>(
    run: Run<V, L, F, R>,
    to_value: C,
    n: int,
)
    requires
        run.complete(to_value),
        ({
            let m = run.states.first().engine.muffler.muffler_elements@.len() as int;
            &&& 0 <= n <= run.controls.len()
            &&& n <= 30 + m
        }),
    ensures
        ({
            let m = run.states.first().engine.muffler.muffler_elements@.len() as int;
            let (before, now) = (
                run.states.first().engine.cylinders@.len(),
                run.states[n].engine.cylinders@.len(),
            );
            let pass = run.passes[n];
            &&& n <= 29 + m ==> now == before
            &&& n > 29 + m ==> now == pass.count
            &&& n <= 20 + m ==> pass.count == before
            &&& n > 20 + m ==> pass.count == match run.moves[20 + m] {
                Move::Count(count) => count as nat,
                _ => before,
            }
            &&& pass.count != before ==> pass.changed
            &&& n <= 20 + m ==> !pass.changed
        }),
    decreases n,
{
    let first = run.states.first().engine;
    assert(first.cylinders.len() == first.cylinders@.len());
    if n > 0 {
        lemma_count(run, to_value, n - 1);
        lemma_elements(run, to_value, n - 1);
        let moved = lemma_step(run, to_value, n - 1);
        let elements = run.states[n - 1].engine.muffler.muffler_elements;
        assert(elements.len() == elements@.len());
    }
}

/// At the end of a pass there are as many cylinders as were asked for, or as there were where the
/// number was not moved.
pub proof fn law_there_are_as_many_cylinders_as_asked_for<
    V: Number,
    L: Clone,
    F,
    R,
    C: Fn(usize) -> V,
>(run: Run<V, L, F, R>, to_value: C, n: int)
    requires
        run.complete(to_value),
        0 <= n < run.controls.len(),
        run.controls[n] is CylinderCount,
    ensures
        run.states.last().engine.cylinders@.len() == match run.moves[n] {
            Move::Count(count) => count as nat,
            _ => run.states.first().engine.cylinders@.len(),
        },
{
    let m = run.states.first().engine.muffler.muffler_elements@.len() as int;
    lemma_end(run, to_value);
    lemma_elements(run, to_value, n);
    assert(run.stepped(to_value, n));
    let elements = run.states[n].engine.muffler.muffler_elements;
    assert(elements.len() == elements@.len());
    assert(n == 20 + m);
    lemma_count(run, to_value, 30 + m);
    lemma_cylinders_stay(run, to_value, 30 + m, run.controls.len() as int);
}

/// A slider that was not moved in a pass finds at the end what it showed at the beginning.
pub proof fn law_what_was_not_moved_stays<V: Number, L: Clone, F, R, C: Fn(usize) -> V>(
    run: Run<V, L, F, R>,
    to_value: C,
    n: int,
)
    requires
        run.complete(to_value),
        run.keeps_ends(),
        0 <= n < run.controls.len(),
        run.moves[n] is Still,
    ensures
        ({
            let (before, after) = (run.states.first(), run.states.last());
            match run.controls[n] {
                Control::Rpm => after.engine.rpm == before.engine.rpm,
                Control::MasterVolume => after.volume == before.volume,
                Control::IntakeNoise => after.engine.intake_noise_factor
                    == before.engine.intake_noise_factor,
                Control::IntakeValveShift => after.engine.intake_valve_shift
                    == before.engine.intake_valve_shift,
                Control::ExhaustValveShift => after.engine.exhaust_valve_shift
                    == before.engine.exhaust_valve_shift,
                Control::CrankshaftFluctuation => after.engine.crankshaft_fluctuation
                    == before.engine.crankshaft_fluctuation,
                Control::PipeAlpha => after.engine.muffler.straight_pipe.alpha
                    == before.engine.muffler.straight_pipe.alpha,
                Control::PipeBeta => after.engine.muffler.straight_pipe.beta
                    == before.engine.muffler.straight_pipe.beta,
                Control::EngineVibrationFilter => after.engine.engine_vibration_filter
                    == before.engine.engine_vibration_filter,
                Control::IntakeNoiseFilter => after.engine.intake_noise_lp
                    == before.engine.intake_noise_lp,
                Control::CrankshaftFluctuationFilter => after.engine.crankshaft_fluctuation_lp
                    == before.engine.crankshaft_fluctuation_lp,
                Control::PipeLength => {
                    let (a, b) = (
                        after.engine.muffler.straight_pipe,
                        before.engine.muffler.straight_pipe,
                    );
                    a.delay == b.delay && a.line == b.line
                },
                Control::MufflerLength(i) => {
                    let (a, b) = (
                        after.engine.muffler.muffler_elements@[i as int],
                        before.engine.muffler.muffler_elements@[i as int],
                    );
                    a.delay == b.delay && a.alpha == b.alpha && a.line == b.line
                },
                Control::MufflerBeta => forall|i: int|
                    0 <= i < after.engine.muffler.muffler_elements@.len() ==> (
                    #[trigger] after.engine.muffler.muffler_elements@[i]).beta
                        == before.engine.muffler.muffler_elements@[0].beta,
                _ => true,
            }
        }),
        run.states.last().engine.muffler.muffler_elements@.len()
            == run.states.first().engine.muffler.muffler_elements@.len(),
{
    let control = run.controls[n];
    let end = run.controls.len() as int;
    lemma_elements(run, to_value, n);
    lemma_elements(run, to_value, end);
    assert(run.stepped(to_value, n));
    let elements = run.states[n].engine.muffler.muffler_elements;
    assert(elements.len() == elements@.len());
    if control is MufflerBeta {
        lemma_end(run, to_value);
        law_muffler_elements_share_one_reflectivity(run, to_value);
        lemma_once(run, to_value, n, 18);
    }
    assert forall|j: int| 0 <= j < end implies #[trigger] run.controls[j] != control
        || run.moves[j] is Still by {
        if run.controls[j] == control {
            lemma_once(run, to_value, n, j);
        }
    }
    lemma_single(run, to_value, control, 0, end);
    if let Control::MufflerLength(i) = control {
        lemma_element_stays(run, to_value, i, 0, end);
    }
}

/// What no control sets stays in a pass: the sample rate, the recording and the warnings.
pub proof fn law_a_pass_leaves_the_rest_of_the_generator<
    V: Number,
    L: Clone,
    F,
    R,
    C: Fn(usize) -> V,
>(run: Run<V, L, F, R>, to_value: C, n: int)
    requires
        run.complete(to_value),
        0 <= n <= run.controls.len(),
    ensures
        ({
            let (before, after) = (run.states.first(), run.states[n]);
            &&& after.samples_per_second == before.samples_per_second
            &&& after.recorder == before.recorder
            &&& after.recording_currently_clipping == before.recording_currently_clipping
            &&& after.waveguides_dampened == before.waveguides_dampened
        }),
    decreases n,
{
    if n > 0 {
        law_a_pass_leaves_the_rest_of_the_generator(run, to_value, n - 1);
        let moved = lemma_step(run, to_value, n - 1);
    }
}

/// Above the point where the settings that cylinders share reach them, the cylinders stay.
proof fn lemma_cylinders_untouched<V: Number, L: Clone, F, R, C: Fn(usize) -> V>(
    run: Run<V, L, F, R>,
    to_value: C,
    n: int,
)
    requires
        run.complete(to_value),
        0 <= n <= run.controls.len(),
        n <= 29 + run.states.first().engine.muffler.muffler_elements@.len(),
    ensures
        run.states[n].engine.cylinders == run.states.first().engine.cylinders,
    decreases n,
{
    if n > 0 {
        lemma_cylinders_untouched(run, to_value, n - 1);
        lemma_elements(run, to_value, n - 1);
        let moved = lemma_step(run, to_value, n - 1);
        let elements = run.states[n - 1].engine.muffler.muffler_elements;
        assert(elements.len() == elements@.len());
    }
}

/// What a cylinder has of its own stays in a pass that does not move it: its crank offset, and the
/// delay lines and near ends of its three cavities. Other sliders, and another number of cylinders,
/// do not touch it.
pub proof fn law_cylinders_keep_what_is_their_own<V: Number, L: Clone, F, R, C: Fn(usize) -> V>(
    run: Run<V, L, F, R>,
    to_value: C,
    n: int,
    i: usize,
)
    requires
        run.complete(to_value),
        0 <= n < run.controls.len(),
        run.moves[n] is Still,
        i < run.states.first().engine.cylinders@.len(),
        i < run.states.last().engine.cylinders@.len(),
    ensures
        ({
            let (a, b) = (
                run.states.last().engine.cylinders@[i as int],
                run.states.first().engine.cylinders@[i as int],
            );
            &&& run.controls[n] == Control::CrankOffset(i) ==> a.crank_offset == b.crank_offset
            &&& run.controls[n] == Control::IntakeLength(i) ==> {
                &&& a.intake_waveguide.delay == b.intake_waveguide.delay
                &&& a.intake_waveguide.alpha == b.intake_waveguide.alpha
                &&& a.intake_waveguide.line == b.intake_waveguide.line
            }
            &&& run.controls[n] == Control::ExhaustLength(i) ==> {
                &&& a.exhaust_waveguide.delay == b.exhaust_waveguide.delay
                &&& a.exhaust_waveguide.alpha == b.exhaust_waveguide.alpha
                &&& a.exhaust_waveguide.line == b.exhaust_waveguide.line
            }
            &&& run.controls[n] == Control::ExtractorLength(i) ==> {
                &&& a.extractor_waveguide.delay == b.extractor_waveguide.delay
                &&& a.extractor_waveguide.alpha == b.extractor_waveguide.alpha
                &&& a.extractor_waveguide.line == b.extractor_waveguide.line
            }
            &&& run.controls[n] == Control::ExhaustLength(i) ==> a.exhaust_waveguide.beta
                == b.exhaust_waveguide.beta
        }),
{
    let control = run.controls[n];
    let end = run.controls.len() as int;
    let place = run.states.first().engine.muffler.muffler_elements@.len() + 29int;
    lemma_end(run, to_value);
    lemma_cylinders_untouched(run, to_value, place);
    lemma_elements(run, to_value, place);
    let moved = lemma_step(run, to_value, place);
    let elements = run.states[place].engine.muffler.muffler_elements;
    assert(elements.len() == elements@.len());
    assert(run.controls[place] is IgnitionTime);
    lemma_cylinders_stay(run, to_value, place + 1, end);
    assert forall|j: int| place + 1 <= j < end implies #[trigger] run.controls[j] != control
        || run.moves[j] is Still by {
        if run.controls[j] == control {
            lemma_once(run, to_value, n, j);
        }
    }
    lemma_own_stays(run, to_value, control, i as int, place + 1, end);
}

/// Where a number of cylinders or a setting that they share was changed in a pass, all cylinders
/// have the settings that were not moved from the first one.
pub proof fn law_unmoved_settings_come_from_the_first_cylinder<
    V: Number,
    L: Clone,
    F,
    R,
    C: Fn(usize) -> V,
>(run: Run<V, L, F, R>, to_value: C, n: int)
    requires
        run.complete(to_value),
        run.keeps_ends(),
        run.passes.last().changed,
        0 <= n < run.controls.len(),
        run.moves[n] is Still,
    ensures
        ({
            let cylinders = run.states.last().engine.cylinders@;
            let first = run.states.first().engine.cylinders@[0];
            match run.controls[n] {
                Control::IntakeOpen => forall|i: int|
                    0 <= i < cylinders.len() ==> (#[trigger] cylinders[i]).intake_open_refl
                        == first.intake_open_refl,
                Control::IntakeClosed => forall|i: int|
                    0 <= i < cylinders.len() ==> (#[trigger] cylinders[i]).intake_closed_refl
                        == first.intake_closed_refl,
                Control::ExhaustOpen => forall|i: int|
                    0 <= i < cylinders.len() ==> (#[trigger] cylinders[i]).exhaust_open_refl
                        == first.exhaust_open_refl,
                Control::ExhaustClosed => forall|i: int|
                    0 <= i < cylinders.len() ==> (#[trigger] cylinders[i]).exhaust_closed_refl
                        == first.exhaust_closed_refl,
                Control::IntakeBeta => forall|i: int|
                    0 <= i < cylinders.len() ==> (#[trigger] cylinders[i]).intake_waveguide.beta
                        == first.intake_waveguide.beta,
                Control::ExtractorBeta => forall|i: int|
                    0 <= i < cylinders.len() ==> (#[trigger] cylinders[i]).extractor_waveguide.beta
                        == first.extractor_waveguide.beta,
                Control::PistonMotion => forall|i: int|
                    0 <= i < cylinders.len() ==> (#[trigger] cylinders[i]).piston_motion_factor
                        == first.piston_motion_factor,
                Control::IgnitionFactor => forall|i: int|
                    0 <= i < cylinders.len() ==> (#[trigger] cylinders[i]).ignition_factor
                        == first.ignition_factor,
                Control::IgnitionTime => forall|i: int|
                    0 <= i < cylinders.len() ==> (#[trigger] cylinders[i]).ignition_time
                        == first.ignition_time,
                _ => true,
            }
        }),
{
    let control = run.controls[n];
    let end = run.controls.len() as int;
    let place = run.states.first().engine.muffler.muffler_elements@.len() + 29int;
    lemma_end(run, to_value);
    lemma_changed_stays(run, to_value, place + 1, end);
    assert forall|j: int| 0 <= j < place + 1 implies #[trigger] run.controls[j] != control
        || run.moves[j] is Still by {
        if run.controls[j] == control {
            lemma_once(run, to_value, n, j);
        }
    }
    lemma_setting_carried(run, to_value, control, 0, place + 1);
    let cylinders = run.states.last().engine.cylinders@;
    assert forall|i: int| 0 <= i < cylinders.len() implies setting(#[trigger] cylinders[i], control)
        == setting(run.passes.first().cylinder, control) by {
        lemma_cylinders_stay(run, to_value, place + 1, end);
        lemma_settled(run, to_value, control, i);
        lemma_setting_stays(run, to_value, control, place + 1, end, i);
    }
}

/// Below the settings that cylinders share, nothing is marked as changed any more.
proof fn lemma_changed_stays<V: Number, L: Clone, F, R, C: Fn(usize) -> V>(
    run: Run<V, L, F, R>,
    to_value: C,
    n: int,
    k: int,
)
    requires
        run.complete(to_value),
        0 <= n <= k <= run.controls.len(),
        n >= 30 + run.states.first().engine.muffler.muffler_elements@.len(),
    ensures
        run.passes[k].changed == run.passes[n].changed,
    decreases k - n,
{
    if n < k {
        lemma_changed_stays(run, to_value, n, k - 1);
        lemma_elements(run, to_value, k - 1);
        let moved = lemma_step(run, to_value, k - 1);
        let elements = run.states[k - 1].engine.muffler.muffler_elements;
        assert(elements.len() == elements@.len());
    }
}

/// A pass in which neither the number of cylinders nor a setting that they share is moved leaves
/// the settings of every cylinder, and how many there are.
pub proof fn law_unmoved_settings_stay<V: Number, L: Clone, F, R, C: Fn(usize) -> V>(
    run: Run<V, L, F, R>,
    to_value: C,
    i: int,
)
    requires
        run.complete(to_value),
        run.keeps_ends(),
        forall|n: int|
            0 <= n < run.controls.len() && (match #[trigger] run.controls[n] {
                Control::CylinderCount => true,
                Control::IntakeOpen => true,
                Control::IntakeClosed => true,
                Control::ExhaustOpen => true,
                Control::ExhaustClosed => true,
                Control::IntakeBeta => true,
                Control::ExtractorBeta => true,
                Control::PistonMotion => true,
                Control::IgnitionFactor => true,
                Control::IgnitionTime => true,
                _ => false,
            }) ==> run.moves[n] is Still,
        0 <= i < run.states.first().engine.cylinders@.len(),
    ensures
        run.states.last().engine.cylinders@.len() == run.states.first().engine.cylinders@.len(),
        ({
            let (a, b) = (
                run.states.last().engine.cylinders@[i],
                run.states.first().engine.cylinders@[i],
            );
            &&& a.intake_open_refl == b.intake_open_refl
            &&& a.intake_closed_refl == b.intake_closed_refl
            &&& a.exhaust_open_refl == b.exhaust_open_refl
            &&& a.exhaust_closed_refl == b.exhaust_closed_refl
            &&& a.intake_waveguide.beta == b.intake_waveguide.beta
            &&& a.extractor_waveguide.beta == b.extractor_waveguide.beta
            &&& a.piston_motion_factor == b.piston_motion_factor
            &&& a.ignition_factor == b.ignition_factor
            &&& a.ignition_time == b.ignition_time
        }),
{
    let end = run.controls.len() as int;
    let place = run.states.first().engine.muffler.muffler_elements@.len() + 29int;
    lemma_end(run, to_value);
    lemma_unchanged(run, to_value, place + 1);
    lemma_cylinders_untouched(run, to_value, place);
    lemma_elements(run, to_value, place);
    let moved = lemma_step(run, to_value, place);
    let elements = run.states[place].engine.muffler.muffler_elements;
    assert(elements.len() == elements@.len());
    assert(run.controls[place] is IgnitionTime);
    lemma_setting_stays(run, to_value, Control::IntakeOpen, place + 1, end, i);
    lemma_setting_stays(run, to_value, Control::IntakeClosed, place + 1, end, i);
    lemma_setting_stays(run, to_value, Control::ExhaustOpen, place + 1, end, i);
    lemma_setting_stays(run, to_value, Control::ExhaustClosed, place + 1, end, i);
    lemma_setting_stays(run, to_value, Control::IntakeBeta, place + 1, end, i);
    lemma_setting_stays(run, to_value, Control::ExtractorBeta, place + 1, end, i);
    lemma_setting_stays(run, to_value, Control::PistonMotion, place + 1, end, i);
    lemma_setting_stays(run, to_value, Control::IgnitionFactor, place + 1, end, i);
    lemma_setting_stays(run, to_value, Control::IgnitionTime, place + 1, end, i);
}

proof fn lemma_unchanged<V: Number, L: Clone, F, R, C: Fn(usize) -> V>(
    run: Run<V, L, F, R>,
    to_value: C,
    n: int,
)
    requires
        run.complete(to_value),
        forall|n: int|
            0 <= n < run.controls.len() && (match #[trigger] run.controls[n] {
                Control::CylinderCount => true,
                Control::IntakeOpen => true,
                Control::IntakeClosed => true,
                Control::ExhaustOpen => true,
                Control::ExhaustClosed => true,
                Control::IntakeBeta => true,
                Control::ExtractorBeta => true,
                Control::PistonMotion => true,
                Control::IgnitionFactor => true,
                Control::IgnitionTime => true,
                _ => false,
            }) ==> run.moves[n] is Still,
        0 <= n <= run.controls.len(),
    ensures
        !run.passes[n].changed,
    decreases n,
{
    if n > 0 {
        lemma_unchanged(run, to_value, n - 1);
        let moved = lemma_step(run, to_value, n - 1);
        let control = run.controls[n - 1];
    }
}

}
