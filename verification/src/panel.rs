//! One pass over the panel: what each control shows, and what moving it does.
//!
//! The program around the library draws the controls from top to bottom. At each it asks what to
//! show, hands back where the user moved it, and lets the pass settle before it goes on.

use crate::controls::Control;
use crate::cylinders::{reshape, reshaped_of};
use crate::engine::{
    cylinder_copied, normalized_of, rebalanced_of, same_but_mix, Cylinder, Engine, Generator,
    Muffler, WaveGuide,
};
use crate::number::{defined_everywhere, div_of, mul_of, Number, Scale};
use vstd::prelude::*;

verus! {

/// What a pass carries from control to control. The settings that all cylinders share are edited
/// on one cylinder that stands for all, and reach the engine at the end of their section.
pub struct Pass<V, L> {
    /// Reflectivity of the muffler elements at the exhaust.
    pub muffler_beta: V,
    /// The cylinder that stands for all.
    pub cylinder: Cylinder<V, L>,
    /// How many cylinders there are to be.
    pub count: usize,
    /// Whether the number of cylinders or a setting that they share was changed.
    pub changed: bool,
}

/// Where a control stands.
pub enum Reading<'a, V, F> {
    /// Nowhere: a heading.
    Nothing,
    /// At this number.
    Stored(V),
    /// At the length of a delay line of this many samples.
    Delay(usize),
    /// At this whole number.
    Count(usize),
    /// At the cutoff frequency of this filter.
    Filter(&'a F),
}

/// What became of a control.
pub enum Move<V, L, F> {
    /// It was left where it stood.
    Still,
    /// It was moved to this number.
    Value(V),
    /// It was moved to this whole number.
    Count(usize),
    /// It was moved to another length, which takes this waveguide.
    Guide(WaveGuide<V, L>),
    /// It was moved to another frequency, which takes this filter.
    Filter(F),
}

/// The engine has what `control` belongs to.
pub open spec fn shown<V, L, F>(control: Control, engine: Engine<V, L, F>) -> bool {
    control.present(engine.muffler.muffler_elements.len(), engine.cylinders.len())
}

/// Where `control` stands.
pub open spec fn spec_reading<'a, V, L, F, R>(
    control: Control,
    generator: &'a Generator<V, L, F, R>,
    pass: Pass<V, L>,
) -> Reading<'a, V, F> {
    match control {
        Control::Rpm => Reading::Stored(generator.engine.rpm),
        Control::MasterVolume => Reading::Stored(generator.volume),
        Control::IntakeVolume => Reading::Stored(generator.engine.intake_volume),
        Control::ExhaustVolume => Reading::Stored(generator.engine.exhaust_volume),
        Control::EngineVibrationsVolume => Reading::Stored(
            generator.engine.engine_vibrations_volume,
        ),
        Control::EngineVibrationFilter => Reading::Filter(
            &generator.engine.engine_vibration_filter,
        ),
        Control::IntakeNoise => Reading::Stored(generator.engine.intake_noise_factor),
        Control::IntakeNoiseFilter => Reading::Filter(&generator.engine.intake_noise_lp),
        Control::IntakeValveShift => Reading::Stored(generator.engine.intake_valve_shift),
        Control::ExhaustValveShift => Reading::Stored(generator.engine.exhaust_valve_shift),
        Control::CrankshaftFluctuation => Reading::Stored(generator.engine.crankshaft_fluctuation),
        Control::CrankshaftFluctuationFilter => Reading::Filter(
            &generator.engine.crankshaft_fluctuation_lp,
        ),
        Control::PipeAlpha => Reading::Stored(generator.engine.muffler.straight_pipe.alpha),
        Control::PipeBeta => Reading::Stored(generator.engine.muffler.straight_pipe.beta),
        Control::PipeLength => Reading::Delay(generator.engine.muffler.straight_pipe.delay),
        Control::MufflerBeta => Reading::Stored(pass.muffler_beta),
        Control::MufflerLength(i) => Reading::Delay(
            generator.engine.muffler.muffler_elements[i as int].delay,
        ),
        Control::CylinderCount => Reading::Count(pass.count),
        Control::IntakeOpen => Reading::Stored(pass.cylinder.intake_open_refl),
        Control::IntakeClosed => Reading::Stored(pass.cylinder.intake_closed_refl),
        Control::ExhaustOpen => Reading::Stored(pass.cylinder.exhaust_open_refl),
        Control::ExhaustClosed => Reading::Stored(pass.cylinder.exhaust_closed_refl),
        Control::IntakeBeta => Reading::Stored(pass.cylinder.intake_waveguide.beta),
        Control::ExtractorBeta => Reading::Stored(pass.cylinder.extractor_waveguide.beta),
        Control::PistonMotion => Reading::Stored(pass.cylinder.piston_motion_factor),
        Control::IgnitionFactor => Reading::Stored(pass.cylinder.ignition_factor),
        Control::IgnitionTime => Reading::Stored(pass.cylinder.ignition_time),
        Control::IntakeLength(i) => Reading::Delay(
            generator.engine.cylinders[i as int].intake_waveguide.delay,
        ),
        Control::ExhaustLength(i) => Reading::Delay(
            generator.engine.cylinders[i as int].exhaust_waveguide.delay,
        ),
        Control::ExtractorLength(i) => Reading::Delay(
            generator.engine.cylinders[i as int].extractor_waveguide.delay,
        ),
        Control::CrankOffset(i) => Reading::Stored(
            generator.engine.cylinders[i as int].crank_offset,
        ),
        _ => Reading::Nothing,
    }
}

/// `control` is a slider whose number is stored as it is.
pub open spec fn stores<V, L, F, R>(
    control: Control,
    generator: Generator<V, L, F, R>,
    pass: Pass<V, L>,
) -> bool {
    spec_reading(control, &generator, pass) is Stored
}

/// `control` is one that `movement` can be made on.
pub open spec fn suits<V, L, F, R>(
    control: Control,
    movement: Move<V, L, F>,
    generator: Generator<V, L, F, R>,
    pass: Pass<V, L>,
) -> bool {
    match (movement, spec_reading(control, &generator, pass)) {
        (Move::Still, _) => true,
        (Move::Value(_), Reading::Stored(_)) => true,
        (Move::Count(_), Reading::Count(_)) => true,
        (Move::Guide(_), Reading::Delay(_)) => true,
        (Move::Filter(_), Reading::Filter(_)) => true,
        _ => false,
    }
}

/// `generator` with another engine.
pub open spec fn with_engine<V, L, F, R>(
    generator: Generator<V, L, F, R>,
    engine: Engine<V, L, F>,
) -> Generator<V, L, F, R> {
    Generator { engine, ..generator }
}

/// `pass` with a change of the cylinder that stands for all.
pub open spec fn with_cylinder<V, L>(pass: Pass<V, L>, cylinder: Cylinder<V, L>) -> Pass<V, L> {
    Pass { cylinder, changed: true, ..pass }
}

/// Moving `control` to `value` turned `before` and `pass` into `after` and `after_pass`.
pub open spec fn changed_of<V: Number, L, F, R>(
    control: Control,
    value: V,
    before: Generator<V, L, F, R>,
    pass: Pass<V, L>,
    after: Generator<V, L, F, R>,
    after_pass: Pass<V, L>,
) -> bool {
    match control {
        Control::Rpm => {
            &&& after_pass == pass
            &&& after == with_engine(before, Engine { rpm: value, ..before.engine })
        },
        Control::MasterVolume => {
            &&& after_pass == pass
            &&& after == (Generator { volume: value, ..before })
        },
        Control::IntakeVolume => {
            &&& after_pass == pass
            &&& after == with_engine(before, after.engine)
            &&& same_but_mix(before.engine, after.engine)
            &&& after.engine.intake_volume == value
            &&& rebalanced_of(
                before.engine.intake_volume,
                value,
                before.engine.exhaust_volume,
                before.engine.engine_vibrations_volume,
                after.engine.exhaust_volume,
                after.engine.engine_vibrations_volume,
            )
        },
        Control::ExhaustVolume => {
            &&& after_pass == pass
            &&& after == with_engine(before, after.engine)
            &&& same_but_mix(before.engine, after.engine)
            &&& after.engine.exhaust_volume == value
            &&& rebalanced_of(
                before.engine.exhaust_volume,
                value,
                before.engine.intake_volume,
                before.engine.engine_vibrations_volume,
                after.engine.intake_volume,
                after.engine.engine_vibrations_volume,
            )
        },
        Control::EngineVibrationsVolume => {
            &&& after_pass == pass
            &&& after == with_engine(before, after.engine)
            &&& same_but_mix(before.engine, after.engine)
            &&& after.engine.engine_vibrations_volume == value
            &&& rebalanced_of(
                before.engine.engine_vibrations_volume,
                value,
                before.engine.exhaust_volume,
                before.engine.intake_volume,
                after.engine.exhaust_volume,
                after.engine.intake_volume,
            )
        },
        Control::IntakeNoise => {
            &&& after_pass == pass
            &&& after == with_engine(before, Engine { intake_noise_factor: value, ..before.engine })
        },
        Control::IntakeValveShift => {
            &&& after_pass == pass
            &&& after == with_engine(before, Engine { intake_valve_shift: value, ..before.engine })
        },
        Control::ExhaustValveShift => {
            &&& after_pass == pass
            &&& after == with_engine(before, Engine { exhaust_valve_shift: value, ..before.engine })
        },
        Control::CrankshaftFluctuation => {
            &&& after_pass == pass
            &&& after == with_engine(
                before,
                Engine { crankshaft_fluctuation: value, ..before.engine },
            )
        },
        Control::PipeAlpha => {
            let pipe = WaveGuide { alpha: value, ..before.engine.muffler.straight_pipe };
            let muffler = Muffler { straight_pipe: pipe, ..before.engine.muffler };
            &&& after_pass == pass
            &&& after == with_engine(before, Engine { muffler, ..before.engine })
        },
        Control::PipeBeta => {
            let pipe = WaveGuide { beta: value, ..before.engine.muffler.straight_pipe };
            let muffler = Muffler { straight_pipe: pipe, ..before.engine.muffler };
            &&& after_pass == pass
            &&& after == with_engine(before, Engine { muffler, ..before.engine })
        },
        Control::MufflerBeta => {
            &&& after == before
            &&& after_pass == (Pass { muffler_beta: value, ..pass })
        },
        Control::IntakeOpen => {
            &&& after == before
            &&& after_pass == with_cylinder(
                pass,
                Cylinder { intake_open_refl: value, ..pass.cylinder },
            )
        },
        Control::IntakeClosed => {
            &&& after == before
            &&& after_pass == with_cylinder(
                pass,
                Cylinder { intake_closed_refl: value, ..pass.cylinder },
            )
        },
        Control::ExhaustOpen => {
            &&& after == before
            &&& after_pass == with_cylinder(
                pass,
                Cylinder { exhaust_open_refl: value, ..pass.cylinder },
            )
        },
        Control::ExhaustClosed => {
            &&& after == before
            &&& after_pass == with_cylinder(
                pass,
                Cylinder { exhaust_closed_refl: value, ..pass.cylinder },
            )
        },
        Control::IntakeBeta => {
            let intake_waveguide = WaveGuide { beta: value, ..pass.cylinder.intake_waveguide };
            &&& after == before
            &&& after_pass == with_cylinder(pass, Cylinder { intake_waveguide, ..pass.cylinder })
        },
        Control::ExtractorBeta => {
            let extractor_waveguide = WaveGuide { beta: value, ..pass.cylinder.extractor_waveguide };
            &&& after == before
            &&& after_pass == with_cylinder(pass, Cylinder { extractor_waveguide, ..pass.cylinder })
        },
        Control::PistonMotion => {
            &&& after == before
            &&& after_pass == with_cylinder(
                pass,
                Cylinder { piston_motion_factor: value, ..pass.cylinder },
            )
        },
        Control::IgnitionFactor => {
            &&& after == before
            &&& after_pass == with_cylinder(
                pass,
                Cylinder { ignition_factor: value, ..pass.cylinder },
            )
        },
        Control::IgnitionTime => {
            &&& after == before
            &&& after_pass == with_cylinder(
                pass,
                Cylinder { ignition_time: value, ..pass.cylinder },
            )
        },
        Control::CrankOffset(i) => {
            &&& after_pass == pass
            &&& after == with_engine(before, after.engine)
            &&& cylinder_replaced(
                before.engine,
                i as int,
                Cylinder { crank_offset: value, ..before.engine.cylinders[i as int] },
                after.engine,
            )
        },
        _ => false,
    }
}

/// `before` with the muffler element `i` replaced.
pub open spec fn element_replaced<V, L, F>(
    before: Engine<V, L, F>,
    i: int,
    element: WaveGuide<V, L>,
    after: Engine<V, L, F>,
) -> bool {
    &&& after == (Engine {
        muffler: Muffler {
            muffler_elements: after.muffler.muffler_elements,
            ..before.muffler
        },
        ..before
    })
    &&& after.muffler.muffler_elements@ == before.muffler.muffler_elements@.update(i, element)
}

/// `before` with the cylinder `i` replaced.
pub open spec fn cylinder_replaced<V, L, F>(
    before: Engine<V, L, F>,
    i: int,
    cylinder: Cylinder<V, L>,
    after: Engine<V, L, F>,
) -> bool {
    &&& after == (Engine { cylinders: after.cylinders, ..before })
    &&& after.cylinders@ == before.cylinders@.update(i, cylinder)
}

/// The waveguide whose length `control` sets.
pub open spec fn spec_guide<V, L, F>(control: Control, engine: Engine<V, L, F>) -> Option<
    WaveGuide<V, L>,
> {
    match control {
        Control::PipeLength => Some(engine.muffler.straight_pipe),
        Control::MufflerLength(i) => Some(engine.muffler.muffler_elements[i as int]),
        Control::IntakeLength(i) => Some(engine.cylinders[i as int].intake_waveguide),
        Control::ExhaustLength(i) => Some(engine.cylinders[i as int].exhaust_waveguide),
        Control::ExtractorLength(i) => Some(engine.cylinders[i as int].extractor_waveguide),
        _ => None,
    }
}

/// `before` with the waveguide whose length `control` sets replaced by `guide`.
pub open spec fn guide_replaced<V, L, F>(
    control: Control,
    before: Engine<V, L, F>,
    guide: WaveGuide<V, L>,
    after: Engine<V, L, F>,
) -> bool {
    match control {
        Control::PipeLength => after == (Engine {
            muffler: Muffler { straight_pipe: guide, ..before.muffler },
            ..before
        }),
        Control::MufflerLength(i) => element_replaced(before, i as int, guide, after),
        Control::IntakeLength(i) => cylinder_replaced(
            before,
            i as int,
            Cylinder { intake_waveguide: guide, ..before.cylinders[i as int] },
            after,
        ),
        Control::ExhaustLength(i) => cylinder_replaced(
            before,
            i as int,
            Cylinder { exhaust_waveguide: guide, ..before.cylinders[i as int] },
            after,
        ),
        Control::ExtractorLength(i) => cylinder_replaced(
            before,
            i as int,
            Cylinder { extractor_waveguide: guide, ..before.cylinders[i as int] },
            after,
        ),
        _ => after == before,
    }
}

/// `before` with the filter whose frequency `control` sets replaced by `filter`.
pub open spec fn filter_replaced<V, L, F>(
    control: Control,
    before: Engine<V, L, F>,
    filter: F,
) -> Engine<V, L, F> {
    match control {
        Control::EngineVibrationFilter => Engine { engine_vibration_filter: filter, ..before },
        Control::IntakeNoiseFilter => Engine { intake_noise_lp: filter, ..before },
        Control::CrankshaftFluctuationFilter => Engine {
            crankshaft_fluctuation_lp: filter,
            ..before
        },
        _ => before,
    }
}

/// What happens once `control` is behind, whether it was moved or not. Below the last volume the
/// mix is normalized. Below a muffler element, that element gets the reflectivity of all. Below
/// the last setting that cylinders share, changed settings reach all cylinders.
pub open spec fn settled_of<V: Number, L: Clone, F, C: Fn(usize) -> V>(
    control: Control,
    to_value: C,
    before: Engine<V, L, F>,
    pass: Pass<V, L>,
    after: Engine<V, L, F>,
) -> bool {
    match control {
        Control::EngineVibrationsVolume => same_but_mix(before, after) && normalized_of(
            before.intake_volume,
            before.exhaust_volume,
            before.engine_vibrations_volume,
            after.intake_volume,
            after.exhaust_volume,
            after.engine_vibrations_volume,
        ),
        Control::MufflerLength(i) => element_replaced(
            before,
            i as int,
            WaveGuide {
                beta: pass.muffler_beta,
                ..before.muffler.muffler_elements[i as int]
            },
            after,
        ),
        Control::IgnitionTime => if pass.changed {
            &&& after == (Engine { cylinders: after.cylinders, ..before })
            &&& reshaped_of(
                to_value,
                before.cylinders@,
                pass.count,
                pass.cylinder,
                after.cylinders@,
            )
        } else {
            after == before
        },
        _ => after == before,
    }
}

/// `r` is a pass over the panel of `engine` that has just begun.
pub open spec fn begun_of<V, L: Clone, F>(engine: Engine<V, L, F>, r: Pass<V, L>) -> bool {
    &&& r.muffler_beta == engine.muffler.muffler_elements[0].beta
    &&& cylinder_copied(engine.cylinders[0], r.cylinder)
    &&& r.count == engine.cylinders.len()
    &&& !r.changed
}

/// `pass` after the number of cylinders was moved to `count`.
pub open spec fn counted<V, L>(pass: Pass<V, L>, count: usize) -> Pass<V, L> {
    if count == pass.count {
        pass
    } else {
        Pass { count, changed: true, ..pass }
    }
}

/// What became of `control` turned `before` and `pass` into `after` and `after_pass`.
pub open spec fn moved_of<V: Number, L, F, R>(
    control: Control,
    movement: Move<V, L, F>,
    before: Generator<V, L, F, R>,
    pass: Pass<V, L>,
    after: Generator<V, L, F, R>,
    after_pass: Pass<V, L>,
) -> bool {
    match movement {
        Move::Still => after == before && after_pass == pass,
        Move::Value(value) => changed_of(control, value, before, pass, after, after_pass),
        Move::Count(count) => after == before && after_pass == counted(pass, count),
        Move::Guide(guide) => {
            &&& after_pass == pass
            &&& after == with_engine(before, after.engine)
            &&& guide_replaced(control, before.engine, guide, after.engine)
        },
        Move::Filter(filter) => {
            &&& after_pass == pass
            &&& after == with_engine(before, filter_replaced(control, before.engine, filter))
        },
    }
}

/// Going past `control`, moved or not, turned `before` and `pass` into `after` and `after_pass`.
pub open spec fn stepped_of<V: Number, L: Clone, F, R, C: Fn(usize) -> V>(
    control: Control,
    movement: Move<V, L, F>,
    to_value: C,
    before: Generator<V, L, F, R>,
    pass: Pass<V, L>,
    after: Generator<V, L, F, R>,
    after_pass: Pass<V, L>,
) -> bool {
    exists|moved: Generator<V, L, F, R>|
        {
            &&& #[trigger] moved_of(control, movement, before, pass, moved, after_pass)
            &&& settled_of(control, to_value, moved.engine, after_pass, after.engine)
            &&& after == with_engine(moved, after.engine)
        }
}

impl<V: Number, L: Clone> Pass<V, L> {
    /// Begins a pass over the panel of `engine`.
    pub fn begin<F>(engine: &Engine<V, L, F>) -> (r: Self)
        requires
            engine.well_formed(),
        ensures
            begun_of(*engine, r),
    {
        Pass {
            muffler_beta: engine.muffler.muffler_elements[0].beta,
            cylinder: engine.cylinders[0].clone(),
            count: engine.cylinders.len(),
            changed: false,
        }
    }

    /// Where `control` stands.
    pub fn reading<'a, F, R>(
        &self,
        control: Control,
        generator: &'a Generator<V, L, F, R>,
    ) -> (r: Reading<'a, V, F>)
        requires
            shown(control, generator.engine),
        ensures
            r == spec_reading(control, generator, *self),
    {
        match control {
            Control::Rpm => Reading::Stored(generator.engine.rpm),
            Control::MasterVolume => Reading::Stored(generator.volume),
            Control::IntakeVolume => Reading::Stored(generator.engine.intake_volume),
            Control::ExhaustVolume => Reading::Stored(generator.engine.exhaust_volume),
            Control::EngineVibrationsVolume => Reading::Stored(
                generator.engine.engine_vibrations_volume,
            ),
            Control::EngineVibrationFilter => Reading::Filter(
                &generator.engine.engine_vibration_filter,
            ),
            Control::IntakeNoise => Reading::Stored(generator.engine.intake_noise_factor),
            Control::IntakeNoiseFilter => Reading::Filter(&generator.engine.intake_noise_lp),
            Control::IntakeValveShift => Reading::Stored(generator.engine.intake_valve_shift),
            Control::ExhaustValveShift => Reading::Stored(generator.engine.exhaust_valve_shift),
            Control::CrankshaftFluctuation => Reading::Stored(
                generator.engine.crankshaft_fluctuation,
            ),
            Control::CrankshaftFluctuationFilter => Reading::Filter(
                &generator.engine.crankshaft_fluctuation_lp,
            ),
            Control::PipeAlpha => Reading::Stored(generator.engine.muffler.straight_pipe.alpha),
            Control::PipeBeta => Reading::Stored(generator.engine.muffler.straight_pipe.beta),
            Control::PipeLength => Reading::Delay(generator.engine.muffler.straight_pipe.delay),
            Control::MufflerBeta => Reading::Stored(self.muffler_beta),
            Control::MufflerLength(i) => Reading::Delay(
                generator.engine.muffler.muffler_elements[i].delay,
            ),
            Control::CylinderCount => Reading::Count(self.count),
            Control::IntakeOpen => Reading::Stored(self.cylinder.intake_open_refl),
            Control::IntakeClosed => Reading::Stored(self.cylinder.intake_closed_refl),
            Control::ExhaustOpen => Reading::Stored(self.cylinder.exhaust_open_refl),
            Control::ExhaustClosed => Reading::Stored(self.cylinder.exhaust_closed_refl),
            Control::IntakeBeta => Reading::Stored(self.cylinder.intake_waveguide.beta),
            Control::ExtractorBeta => Reading::Stored(self.cylinder.extractor_waveguide.beta),
            Control::PistonMotion => Reading::Stored(self.cylinder.piston_motion_factor),
            Control::IgnitionFactor => Reading::Stored(self.cylinder.ignition_factor),
            Control::IgnitionTime => Reading::Stored(self.cylinder.ignition_time),
            Control::IntakeLength(i) => Reading::Delay(
                generator.engine.cylinders[i].intake_waveguide.delay,
            ),
            Control::ExhaustLength(i) => Reading::Delay(
                generator.engine.cylinders[i].exhaust_waveguide.delay,
            ),
            Control::ExtractorLength(i) => Reading::Delay(
                generator.engine.cylinders[i].extractor_waveguide.delay,
            ),
            Control::CrankOffset(i) => Reading::Stored(generator.engine.cylinders[i].crank_offset),
            _ => Reading::Nothing,
        }
    }

    /// Moves a slider whose number is stored as it is to `value`.
    pub fn change<F, R>(
        &mut self,
        control: Control,
        value: V,
        generator: &mut Generator<V, L, F, R>,
    )
        requires
            defined_everywhere::<V>(),
            shown(control, old(generator).engine),
            stores(control, *old(generator), *old(self)),
        ensures
            changed_of(
                control,
                value,
                *old(generator),
                *old(self),
                *final(generator),
                *final(self),
            ),
    {
        match control {
            Control::Rpm => {
                generator.engine.rpm = value;
            },
            Control::MasterVolume => {
                generator.volume = value;
            },
            Control::IntakeVolume => {
                generator.engine.set_intake_volume(value);
            },
            Control::ExhaustVolume => {
                generator.engine.set_exhaust_volume(value);
            },
            Control::EngineVibrationsVolume => {
                generator.engine.set_engine_vibrations_volume(value);
            },
            Control::IntakeNoise => {
                generator.engine.intake_noise_factor = value;
            },
            Control::IntakeValveShift => {
                generator.engine.intake_valve_shift = value;
            },
            Control::ExhaustValveShift => {
                generator.engine.exhaust_valve_shift = value;
            },
            Control::CrankshaftFluctuation => {
                generator.engine.crankshaft_fluctuation = value;
            },
            Control::PipeAlpha => {
                generator.engine.muffler.straight_pipe.alpha = value;
            },
            Control::PipeBeta => {
                generator.engine.muffler.straight_pipe.beta = value;
            },
            Control::MufflerBeta => {
                self.muffler_beta = value;
            },
            Control::IntakeOpen => {
                self.changed = true;
                self.cylinder.intake_open_refl = value;
            },
            Control::IntakeClosed => {
                self.changed = true;
                self.cylinder.intake_closed_refl = value;
            },
            Control::ExhaustOpen => {
                self.changed = true;
                self.cylinder.exhaust_open_refl = value;
            },
            Control::ExhaustClosed => {
                self.changed = true;
                self.cylinder.exhaust_closed_refl = value;
            },
            Control::IntakeBeta => {
                self.changed = true;
                self.cylinder.intake_waveguide.beta = value;
            },
            Control::ExtractorBeta => {
                self.changed = true;
                self.cylinder.extractor_waveguide.beta = value;
            },
            Control::PistonMotion => {
                self.changed = true;
                self.cylinder.piston_motion_factor = value;
            },
            Control::IgnitionFactor => {
                self.changed = true;
                self.cylinder.ignition_factor = value;
            },
            Control::IgnitionTime => {
                self.changed = true;
                self.cylinder.ignition_time = value;
            },
            Control::CrankOffset(i) => {
                generator.engine.cylinders[i].crank_offset = value;
            },
            _ => {},
        }
    }

    /// Moves the number of cylinders to `count`.
    pub fn change_count(&mut self, count: usize)
        ensures
            *final(self) == counted(*old(self), count),
    {
        if count != self.count {
            self.changed = true;
            self.count = count;
        }
    }

    /// Lets `control` settle: does what happens below it whether it was moved or not.
    pub fn settle<F, C: Fn(usize) -> V>(
        &self,
        control: Control,
        engine: &mut Engine<V, L, F>,
        to_value: C,
    )
        requires
            defined_everywhere::<V>(),
            shown(control, *old(engine)),
            forall|n: usize| #[trigger] call_requires(to_value, (n,)),
        ensures
            settled_of(control, to_value, *old(engine), *self, *final(engine)),
    {
        match control {
            Control::EngineVibrationsVolume => {
                engine.normalize_mix();
            },
            Control::MufflerLength(i) => {
                engine.muffler.muffler_elements[i].beta = self.muffler_beta;
            },
            Control::IgnitionTime => {
                if self.changed {
                    reshape(&mut engine.cylinders, self.count, &self.cylinder, to_value);
                }
            },
            _ => {},
        }
    }

    /// Goes past `control`: makes the movement, if there was one, and lets the control settle.
    pub fn step<F, R, C: Fn(usize) -> V>(
        &mut self,
        control: Control,
        movement: Move<V, L, F>,
        generator: &mut Generator<V, L, F, R>,
        to_value: C,
    )
        requires
            defined_everywhere::<V>(),
            shown(control, old(generator).engine),
            suits(control, movement, *old(generator), *old(self)),
            forall|n: usize| #[trigger] call_requires(to_value, (n,)),
        ensures
            stepped_of(
                control,
                movement,
                to_value,
                *old(generator),
                *old(self),
                *final(generator),
                *final(self),
            ),
    {
        match movement {
            Move::Still => {},
            Move::Value(value) => {
                self.change(control, value, generator);
            },
            Move::Count(count) => {
                self.change_count(count);
            },
            Move::Guide(guide) => {
                replace_guide(control, &mut generator.engine, Some(guide));
            },
            Move::Filter(filter) => {
                replace_filter(control, &mut generator.engine, Some(filter));
            },
        }
        assert(moved_of(control, movement, *old(generator), *old(self), *generator, *self));
        assert(shown(control, generator.engine));
        self.settle(control, &mut generator.engine, to_value);
    }
}

/// The waveguide whose length `control` sets.
pub fn guide<V, L, F>(control: Control, engine: &Engine<V, L, F>) -> (r: Option<&WaveGuide<V, L>>)
    requires
        shown(control, *engine),
    ensures
        match r {
            Some(found) => spec_guide(control, *engine) == Some(*found),
            None => spec_guide(control, *engine) is None,
        },
{
    match control {
        Control::PipeLength => Some(&engine.muffler.straight_pipe),
        Control::MufflerLength(i) => Some(&engine.muffler.muffler_elements[i]),
        Control::IntakeLength(i) => Some(&engine.cylinders[i].intake_waveguide),
        Control::ExhaustLength(i) => Some(&engine.cylinders[i].exhaust_waveguide),
        Control::ExtractorLength(i) => Some(&engine.cylinders[i].extractor_waveguide),
        _ => None,
    }
}

/// Puts a waveguide of the new length in place, where the length changed at all.
pub fn replace_guide<V, L, F>(
    control: Control,
    engine: &mut Engine<V, L, F>,
    changed: Option<WaveGuide<V, L>>,
)
    requires
        shown(control, *old(engine)),
    ensures
        match changed {
            Some(new) => guide_replaced(control, *old(engine), new, *final(engine)),
            None => *final(engine) == *old(engine),
        },
{
    if let Some(new) = changed {
        match control {
            Control::PipeLength => {
                engine.muffler.straight_pipe = new;
            },
            Control::MufflerLength(i) => {
                engine.muffler.muffler_elements[i] = new;
            },
            Control::IntakeLength(i) => {
                engine.cylinders[i].intake_waveguide = new;
            },
            Control::ExhaustLength(i) => {
                engine.cylinders[i].exhaust_waveguide = new;
            },
            Control::ExtractorLength(i) => {
                engine.cylinders[i].extractor_waveguide = new;
            },
            _ => {},
        }
    }
}

/// Puts a filter of the new frequency in place, where the frequency changed at all.
pub fn replace_filter<V, L, F>(control: Control, engine: &mut Engine<V, L, F>, changed: Option<F>)
    ensures
        *final(engine) == match changed {
            Some(new) => filter_replaced(control, *old(engine), new),
            None => *old(engine),
        },
{
    if let Some(new) = changed {
        match control {
            Control::EngineVibrationFilter => {
                engine.engine_vibration_filter = new;
            },
            Control::IntakeNoiseFilter => {
                engine.intake_noise_lp = new;
            },
            Control::CrankshaftFluctuationFilter => {
                engine.crankshaft_fluctuation_lp = new;
            },
            _ => {},
        }
    }
}

/// `r` is the length of a pipe that sound crosses in `samples` samples.
pub open spec fn length_of<V: Number>(
    samples: V,
    speed_of_sound: V,
    sample_rate: V,
    r: V,
) -> bool {
    exists|product: V| #[trigger]
        mul_of(samples, speed_of_sound, product) && div_of(product, sample_rate, r)
}

/// `r` is how many samples sound takes to cross a pipe of this length.
pub open spec fn samples_of<V: Number>(
    length: V,
    speed_of_sound: V,
    sample_rate: V,
    r: V,
) -> bool {
    exists|seconds: V| #[trigger]
        div_of(length, speed_of_sound, seconds) && mul_of(seconds, sample_rate, r)
}

/// The length of the straight pipe, given how many samples its delay line has.
pub fn pipe_length<V: Number>(samples: V, speed_of_sound: V, sample_rate: V) -> (r: V)
    requires
        defined_everywhere::<V>(),
    ensures
        length_of(samples, speed_of_sound, sample_rate, r),
{
    let product = samples * speed_of_sound;
    let r = product / sample_rate;
    assert(mul_of(samples, speed_of_sound, product));
    r
}

/// How many samples the delay line of a straight pipe of this length has, before rounding down.
pub fn pipe_samples<V: Number>(length: V, speed_of_sound: V, sample_rate: V) -> (r: V)
    requires
        defined_everywhere::<V>(),
    ensures
        samples_of(length, speed_of_sound, sample_rate, r),
{
    let seconds = length / speed_of_sound;
    let r = seconds * sample_rate;
    assert(div_of(length, speed_of_sound, seconds));
    r
}

/// A slider that was moved stands where it was moved to.
pub proof fn law_moved_slider_stands_there<V: Number, L, F, R>(
    control: Control,
    value: V,
    before: Generator<V, L, F, R>,
    pass: Pass<V, L>,
    after: Generator<V, L, F, R>,
    after_pass: Pass<V, L>,
)
    requires
        shown(control, before.engine),
        stores(control, before, pass),
        changed_of(control, value, before, pass, after, after_pass),
    ensures
        spec_reading(control, &after, after_pass) == Reading::<V, F>::Stored(value),
{
}

/// The three volumes of the mix.
pub open spec fn in_mix(control: Control) -> bool {
    control is IntakeVolume || control is ExhaustVolume || control is EngineVibrationsVolume
}

/// Moving one slider moves no other control, except that the volumes of the mix move together.
pub proof fn law_moving_a_slider_leaves_the_others<V: Number, L, F, R>(
    control: Control,
    other: Control,
    value: V,
    before: Generator<V, L, F, R>,
    pass: Pass<V, L>,
    after: Generator<V, L, F, R>,
    after_pass: Pass<V, L>,
)
    requires
        shown(control, before.engine),
        shown(other, before.engine),
        stores(control, before, pass),
        changed_of(control, value, before, pass, after, after_pass),
        other != control,
        !(in_mix(control) && in_mix(other)),
    ensures
        shown(other, after.engine),
        spec_reading(other, &after, after_pass) == spec_reading(other, &before, pass),
{
}

/// A control that was not moved leaves the engine as it is, but for two rules that hold at all
/// times: the mix is normalized, and muffler elements get the reflectivity of the pass.
pub proof fn law_unmoved_controls_leave_the_engine<V: Number, L: Clone, F, C: Fn(usize) -> V>(
    control: Control,
    to_value: C,
    before: Engine<V, L, F>,
    pass: Pass<V, L>,
    after: Engine<V, L, F>,
)
    requires
        shown(control, before),
        settled_of(control, to_value, before, pass, after),
        !pass.changed,
    ensures
        after == (Engine {
            intake_volume: after.intake_volume,
            exhaust_volume: after.exhaust_volume,
            engine_vibrations_volume: after.engine_vibrations_volume,
            muffler: Muffler {
                muffler_elements: after.muffler.muffler_elements,
                ..before.muffler
            },
            ..before
        }),
        after.muffler.muffler_elements@.len() == before.muffler.muffler_elements@.len(),
        forall|k: int|
            0 <= k < before.muffler.muffler_elements@.len() ==> (
            #[trigger] after.muffler.muffler_elements@[k]) == (WaveGuide {
                beta: after.muffler.muffler_elements@[k].beta,
                ..before.muffler.muffler_elements@[k]
            }),
{
}

/// Whatever is moved, the engine stays one that the panel can show, with all its muffler elements,
/// as long as a number of cylinders that is asked for is not 0.
pub proof fn law_the_engine_stays_showable<V: Number, L: Clone, F, R, C: Fn(usize) -> V>(
    control: Control,
    movement: Move<V, L, F>,
    to_value: C,
    before: Generator<V, L, F, R>,
    pass: Pass<V, L>,
    after: Generator<V, L, F, R>,
    after_pass: Pass<V, L>,
)
    requires
        before.engine.well_formed(),
        shown(control, before.engine),
        pass.count > 0,
        movement is Count ==> movement->Count_0 > 0,
        stepped_of(control, movement, to_value, before, pass, after, after_pass),
    ensures
        after_pass.count > 0,
        after.engine.well_formed(),
        after.engine.muffler.muffler_elements@.len()
            == before.engine.muffler.muffler_elements@.len(),
{
}

/// A pipe that sound crosses in so many samples is as long as sound travels in that time.
pub proof fn law_pipes_are_as_long_as_sound_travels<V: Number>(
    scale: Scale<V>,
    samples: V,
    speed_of_sound: V,
    sample_rate: V,
    r: V,
)
    requires
        scale.exact(),
        scale.has(samples),
        scale.has(speed_of_sound),
        scale.has(sample_rate),
        scale.at(sample_rate) > 0 as real,
        call_ensures(pipe_length::<V>, (samples, speed_of_sound, sample_rate), r),
    ensures
        scale.has(r),
        scale.at(r) * scale.at(sample_rate) == scale.at(samples) * scale.at(speed_of_sound),
{
    let product = choose|product: V| #[trigger]
        mul_of(samples, speed_of_sound, product) && div_of(product, sample_rate, r);
    assert(scale.has(product));
}

/// Sound crosses a pipe in as many samples as are taken while it travels the length.
pub proof fn law_sound_takes_its_time_through_a_pipe<V: Number>(
    scale: Scale<V>,
    length: V,
    speed_of_sound: V,
    sample_rate: V,
    r: V,
)
    requires
        scale.exact(),
        scale.has(length),
        scale.has(speed_of_sound),
        scale.has(sample_rate),
        scale.at(speed_of_sound) > 0 as real,
        call_ensures(pipe_samples::<V>, (length, speed_of_sound, sample_rate), r),
    ensures
        scale.has(r),
        scale.at(r) * scale.at(speed_of_sound) == scale.at(length) * scale.at(sample_rate),
{
    let seconds = choose|seconds: V| #[trigger]
        div_of(length, speed_of_sound, seconds) && mul_of(seconds, sample_rate, r);
    let (s, v, l, q) = (
        scale.at(seconds),
        scale.at(speed_of_sound),
        scale.at(length),
        scale.at(sample_rate),
    );
    assert(scale.has(seconds) && s * v == l);
    assert(s * q * v == l * q) by (nonlinear_arith)
        requires
            s * v == l,
    ;
}

}
