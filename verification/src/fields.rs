//! What each slider reads and sets, field by field.

use crate::controls::{Control, Face};
use crate::engine::{Cylinder, Engine, Generator, Muffler, WaveGuide};
use crate::number::Number;
use crate::panel::{
    replace_filter, replace_guide, shown, spec_guide, stores, Pass, Reading,
};
use vstd::prelude::*;

verus! {

/// A slider stands at the parameter that its label names, and moving it sets that parameter and no
/// other. The settings that all cylinders share stand on the cylinder that stands for all, and are
/// marked as changed. The volumes of the mix make room for the one that is moved.
pub proof fn law_each_slider_sets_what_its_label_names<'a, V: Number, L: Clone, F, R>(
    control: Control,
    face: Face,
    reading: Reading<'a, V, F>,
    value: V,
    pass: &mut Pass<V, L>,
    generator: &mut Generator<V, L, F, R>,
)
    requires
        stores(control, *old(generator), *old(pass)),
        call_ensures(Control::face, (control,), face),
        call_ensures(
            Pass::<V, L>::reading::<F, R>,
            (&*old(pass), control, &*old(generator)),
            reading,
        ),
        call_ensures(Pass::<V, L>::change::<F, R>, (pass, control, value, generator), ()),
    ensures
        ({
            let (before, after) = (*old(generator), *final(generator));
            let (pass, after_pass) = (*old(pass), *final(pass));
            match control {
                Control::Rpm => {
                    &&& face->lead == "Engine RPM "
                    &&& reading == Reading::<V, F>::Stored(before.engine.rpm)
                    &&& after == (Generator {
                        engine: Engine { rpm: value, ..before.engine },
                        ..before
                    })
                    &&& after_pass == pass
                },
                Control::IntakeNoise => {
                    &&& face->lead == "Intake noise volume "
                    &&& reading == Reading::<V, F>::Stored(before.engine.intake_noise_factor)
                    &&& after == (Generator {
                        engine: Engine { intake_noise_factor: value, ..before.engine },
                        ..before
                    })
                    &&& after_pass == pass
                },
                Control::IntakeValveShift => {
                    &&& face->lead == "Intake valve cam shift "
                    &&& reading == Reading::<V, F>::Stored(before.engine.intake_valve_shift)
                    &&& after == (Generator {
                        engine: Engine { intake_valve_shift: value, ..before.engine },
                        ..before
                    })
                    &&& after_pass == pass
                },
                Control::ExhaustValveShift => {
                    &&& face->lead == "Exhaust valve cam shift "
                    &&& reading == Reading::<V, F>::Stored(before.engine.exhaust_valve_shift)
                    &&& after == (Generator {
                        engine: Engine { exhaust_valve_shift: value, ..before.engine },
                        ..before
                    })
                    &&& after_pass == pass
                },
                Control::CrankshaftFluctuation => {
                    &&& face->lead == "Crankshaft fluctuation factor "
                    &&& reading == Reading::<V, F>::Stored(before.engine.crankshaft_fluctuation)
                    &&& after == (Generator {
                        engine: Engine { crankshaft_fluctuation: value, ..before.engine },
                        ..before
                    })
                    &&& after_pass == pass
                },
                Control::MasterVolume => {
                    &&& face->lead == "Master volume "
                    &&& reading == Reading::<V, F>::Stored(before.volume)
                    &&& after == (Generator { volume: value, ..before })
                    &&& after_pass == pass
                },
                Control::IntakeVolume => {
                    &&& face->lead == "Intake volume "
                    &&& reading == Reading::<V, F>::Stored(before.engine.intake_volume)
                    &&& after.engine.intake_volume == value
                    &&& after == (Generator {
                        engine: Engine {
                            intake_volume: value,
                            exhaust_volume: after.engine.exhaust_volume,
                            engine_vibrations_volume: after.engine.engine_vibrations_volume,
                            ..before.engine
                        },
                        ..before
                    })
                    &&& after_pass == pass
                },
                Control::ExhaustVolume => {
                    &&& face->lead == "Exhaust volume "
                    &&& reading == Reading::<V, F>::Stored(before.engine.exhaust_volume)
                    &&& after.engine.exhaust_volume == value
                    &&& after == (Generator {
                        engine: Engine {
                            exhaust_volume: value,
                            intake_volume: after.engine.intake_volume,
                            engine_vibrations_volume: after.engine.engine_vibrations_volume,
                            ..before.engine
                        },
                        ..before
                    })
                    &&& after_pass == pass
                },
                Control::EngineVibrationsVolume => {
                    &&& face->lead == "Engine vibrations volume "
                    &&& reading == Reading::<V, F>::Stored(before.engine.engine_vibrations_volume)
                    &&& after.engine.engine_vibrations_volume == value
                    &&& after == (Generator {
                        engine: Engine {
                            engine_vibrations_volume: value,
                            exhaust_volume: after.engine.exhaust_volume,
                            intake_volume: after.engine.intake_volume,
                            ..before.engine
                        },
                        ..before
                    })
                    &&& after_pass == pass
                },
                Control::PipeAlpha => {
                    &&& face->lead == "Straight Pipe extractor-side reflectivity "
                    &&& reading == Reading::<V, F>::Stored(
                        before.engine.muffler.straight_pipe.alpha,
                    )
                    &&& after == (Generator {
                        engine: Engine {
                            muffler: Muffler {
                                straight_pipe: WaveGuide {
                                    alpha: value,
                                    ..before.engine.muffler.straight_pipe
                                },
                                ..before.engine.muffler
                            },
                            ..before.engine
                        },
                        ..before
                    })
                    &&& after_pass == pass
                },
                Control::PipeBeta => {
                    &&& face->lead == "Straight Pipe muffler-side reflectivity "
                    &&& reading == Reading::<V, F>::Stored(before.engine.muffler.straight_pipe.beta)
                    &&& after == (Generator {
                        engine: Engine {
                            muffler: Muffler {
                                straight_pipe: WaveGuide {
                                    beta: value,
                                    ..before.engine.muffler.straight_pipe
                                },
                                ..before.engine.muffler
                            },
                            ..before.engine
                        },
                        ..before
                    })
                    &&& after_pass == pass
                },
                Control::MufflerBeta => {
                    &&& face->lead == "Muffler elements output-side (exhaust) reflectivity "
                    &&& reading == Reading::<V, F>::Stored(pass.muffler_beta)
                    &&& after == before
                    &&& after_pass == (Pass { muffler_beta: value, ..pass })
                },
                Control::IntakeOpen => {
                    &&& face->lead == "Opened intake valve intake-cavity reflectivity "
                    &&& reading == Reading::<V, F>::Stored(pass.cylinder.intake_open_refl)
                    &&& after == before
                    &&& after_pass == (Pass {
                        cylinder: Cylinder { intake_open_refl: value, ..pass.cylinder },
                        changed: true,
                        ..pass
                    })
                },
                Control::IntakeClosed => {
                    &&& face->lead == "Closed intake valve intake-cavity reflectivity "
                    &&& reading == Reading::<V, F>::Stored(pass.cylinder.intake_closed_refl)
                    &&& after == before
                    &&& after_pass == (Pass {
                        cylinder: Cylinder { intake_closed_refl: value, ..pass.cylinder },
                        changed: true,
                        ..pass
                    })
                },
                Control::ExhaustOpen => {
                    &&& face->lead == "Opened exhaust valve exhaust-cavity reflectivity "
                    &&& reading == Reading::<V, F>::Stored(pass.cylinder.exhaust_open_refl)
                    &&& after == before
                    &&& after_pass == (Pass {
                        cylinder: Cylinder { exhaust_open_refl: value, ..pass.cylinder },
                        changed: true,
                        ..pass
                    })
                },
                Control::ExhaustClosed => {
                    &&& face->lead == "Closed exhaust valve exhaust-cavity reflectivity "
                    &&& reading == Reading::<V, F>::Stored(pass.cylinder.exhaust_closed_refl)
                    &&& after == before
                    &&& after_pass == (Pass {
                        cylinder: Cylinder { exhaust_closed_refl: value, ..pass.cylinder },
                        changed: true,
                        ..pass
                    })
                },
                Control::PistonMotion => {
                    &&& face->lead == "Piston motion volume "
                    &&& reading == Reading::<V, F>::Stored(pass.cylinder.piston_motion_factor)
                    &&& after == before
                    &&& after_pass == (Pass {
                        cylinder: Cylinder { piston_motion_factor: value, ..pass.cylinder },
                        changed: true,
                        ..pass
                    })
                },
                Control::IgnitionFactor => {
                    &&& face->lead == "Ignition volume "
                    &&& reading == Reading::<V, F>::Stored(pass.cylinder.ignition_factor)
                    &&& after == before
                    &&& after_pass == (Pass {
                        cylinder: Cylinder { ignition_factor: value, ..pass.cylinder },
                        changed: true,
                        ..pass
                    })
                },
                Control::IgnitionTime => {
                    &&& face->lead == "Ignition time "
                    &&& reading == Reading::<V, F>::Stored(pass.cylinder.ignition_time)
                    &&& after == before
                    &&& after_pass == (Pass {
                        cylinder: Cylinder { ignition_time: value, ..pass.cylinder },
                        changed: true,
                        ..pass
                    })
                },
                Control::IntakeBeta => {
                    &&& face->lead == "Intake-cavity open end reflectivity "
                    &&& reading == Reading::<V, F>::Stored(pass.cylinder.intake_waveguide.beta)
                    &&& after == before
                    &&& after_pass == (Pass {
                        cylinder: Cylinder {
                            intake_waveguide: WaveGuide {
                                beta: value,
                                ..pass.cylinder.intake_waveguide
                            },
                            ..pass.cylinder
                        },
                        changed: true,
                        ..pass
                    })
                },
                Control::ExtractorBeta => {
                    &&& face->lead == "Extractor-cavity straight pipe side reflectivity "
                    &&& reading == Reading::<V, F>::Stored(pass.cylinder.extractor_waveguide.beta)
                    &&& after == before
                    &&& after_pass == (Pass {
                        cylinder: Cylinder {
                            extractor_waveguide: WaveGuide {
                                beta: value,
                                ..pass.cylinder.extractor_waveguide
                            },
                            ..pass.cylinder
                        },
                        changed: true,
                        ..pass
                    })
                },
                Control::CrankOffset(i) => {
                    &&& face->lead == " / Crank offset "
                    &&& reading == Reading::<V, F>::Stored(
                        before.engine.cylinders@[i as int].crank_offset,
                    )
                    &&& after == (Generator {
                        engine: Engine { cylinders: after.engine.cylinders, ..before.engine },
                        ..before
                    })
                    &&& after.engine.cylinders@ == before.engine.cylinders@.update(
                        i as int,
                        Cylinder {
                            crank_offset: value,
                            ..before.engine.cylinders@[i as int]
                        },
                    )
                    &&& after_pass == pass
                },
                _ => false,
            }
        }),
{
}

/// The sliders of lengths stand at the delay lines, those of frequencies at the filters and that of
/// the number of cylinders at the number that their labels name. Headings stand nowhere.
pub proof fn law_lengths_frequencies_and_counts_are_shown<'a, V: Number, L: Clone, F, R>(
    control: Control,
    face: Face,
    reading: Reading<'a, V, F>,
    generator: &'a Generator<V, L, F, R>,
    pass: Pass<V, L>,
)
    requires
        call_ensures(Control::face, (control,), face),
        call_ensures(Pass::<V, L>::reading::<F, R>, (&pass, control, generator), reading),
        !stores(control, *generator, pass),
    ensures
        ({
            let engine = generator.engine;
            match control {
                Control::EngineVibrationFilter => {
                    &&& face->lead == "Engine vibrations Lowpass-Filter Frequency "
                    &&& reading == Reading::<V, F>::Filter(&engine.engine_vibration_filter)
                },
                Control::IntakeNoiseFilter => {
                    &&& face->lead == "Intake noise Lowpass-Filter Frequency "
                    &&& reading == Reading::<V, F>::Filter(&engine.intake_noise_lp)
                },
                Control::CrankshaftFluctuationFilter => {
                    &&& face->lead == "Crankshaft fluctuation noise Lowpass-Filter frequency "
                    &&& reading == Reading::<V, F>::Filter(&engine.crankshaft_fluctuation_lp)
                },
                Control::PipeLength => {
                    &&& face->lead == "Straight Pipe length "
                    &&& reading == Reading::<V, F>::Delay(engine.muffler.straight_pipe.delay)
                },
                Control::MufflerLength(i) => {
                    &&& face->lead == " / Muffler cavity length "
                    &&& reading == Reading::<V, F>::Delay(
                        engine.muffler.muffler_elements@[i as int].delay,
                    )
                },
                Control::IntakeLength(i) => {
                    &&& face->lead == " / Intake-cavity length "
                    &&& reading == Reading::<V, F>::Delay(
                        engine.cylinders@[i as int].intake_waveguide.delay,
                    )
                },
                Control::ExhaustLength(i) => {
                    &&& face->lead == " / Exhaust-cavity length "
                    &&& reading == Reading::<V, F>::Delay(
                        engine.cylinders@[i as int].exhaust_waveguide.delay,
                    )
                },
                Control::ExtractorLength(i) => {
                    &&& face->lead == " / Extractor-cavity length "
                    &&& reading == Reading::<V, F>::Delay(
                        engine.cylinders@[i as int].extractor_waveguide.delay,
                    )
                },
                Control::CylinderCount => face->lead == "Cylinder count " && reading
                    == Reading::<V, F>::Count(pass.count),
                Control::MixHeading => {
                    &&& face == (Face::Heading { text: "Mix" })
                    &&& reading == Reading::<V, F>::Nothing
                },
                Control::EngineHeading => {
                    &&& face == (Face::Heading { text: "Engine parameters" })
                    &&& reading == Reading::<V, F>::Nothing
                },
                Control::MufflerHeading => {
                    &&& face == (Face::Heading { text: "Muffler parameters" })
                    &&& reading == Reading::<V, F>::Nothing
                },
                Control::CylinderHeading => {
                    &&& face == (Face::Heading { text: "Cylinder parameters" })
                    &&& reading == Reading::<V, F>::Nothing
                },
                _ => false,
            }
        }),
{
}

/// A waveguide that is put in place for another length takes the place of the one whose length the
/// slider shows, and of no other.
pub proof fn law_each_length_slider_replaces_its_waveguide<V: Number, L, F>(
    control: Control,
    engine: &mut Engine<V, L, F>,
    guide: WaveGuide<V, L>,
)
    requires
        shown(control, *old(engine)),
        spec_guide(control, *old(engine)) is Some,
        call_ensures(replace_guide::<V, L, F>, (control, engine, Some(guide)), ()),
    ensures
        ({
            let (before, after) = (*old(engine), *final(engine));
            match control {
                Control::PipeLength => {
                    &&& spec_guide(control, before) == Some(before.muffler.straight_pipe)
                    &&& after == (Engine {
                        muffler: Muffler { straight_pipe: guide, ..before.muffler },
                        ..before
                    })
                },
                Control::MufflerLength(i) => {
                    &&& spec_guide(control, before) == Some(
                        before.muffler.muffler_elements@[i as int],
                    )
                    &&& after == (Engine {
                        muffler: Muffler {
                            muffler_elements: after.muffler.muffler_elements,
                            ..before.muffler
                        },
                        ..before
                    })
                    &&& after.muffler.muffler_elements@ == before.muffler.muffler_elements@.update(
                        i as int,
                        guide,
                    )
                },
                Control::IntakeLength(i) => {
                    &&& spec_guide(control, before) == Some(
                        before.cylinders@[i as int].intake_waveguide,
                    )
                    &&& after == (Engine { cylinders: after.cylinders, ..before })
                    &&& after.cylinders@ == before.cylinders@.update(
                        i as int,
                        Cylinder { intake_waveguide: guide, ..before.cylinders@[i as int] },
                    )
                },
                Control::ExhaustLength(i) => {
                    &&& spec_guide(control, before) == Some(
                        before.cylinders@[i as int].exhaust_waveguide,
                    )
                    &&& after == (Engine { cylinders: after.cylinders, ..before })
                    &&& after.cylinders@ == before.cylinders@.update(
                        i as int,
                        Cylinder { exhaust_waveguide: guide, ..before.cylinders@[i as int] },
                    )
                },
                Control::ExtractorLength(i) => {
                    &&& spec_guide(control, before) == Some(
                        before.cylinders@[i as int].extractor_waveguide,
                    )
                    &&& after == (Engine { cylinders: after.cylinders, ..before })
                    &&& after.cylinders@ == before.cylinders@.update(
                        i as int,
                        Cylinder { extractor_waveguide: guide, ..before.cylinders@[i as int] },
                    )
                },
                _ => false,
            }
        }),
{
}

/// A filter that is put in place for another frequency takes the place of the one that the label of
/// the slider names, and of no other.
pub proof fn law_each_frequency_slider_replaces_its_filter<V: Number, L, F>(
    control: Control,
    engine: &mut Engine<V, L, F>,
    filter: F,
)
    requires
        call_ensures(replace_filter::<V, L, F>, (control, engine, Some(filter)), ()),
    ensures
        match control {
            Control::EngineVibrationFilter => *final(engine) == (Engine {
                engine_vibration_filter: filter,
                ..*old(engine)
            }),
            Control::IntakeNoiseFilter => *final(engine) == (Engine {
                intake_noise_lp: filter,
                ..*old(engine)
            }),
            Control::CrankshaftFluctuationFilter => *final(engine) == (Engine {
                crankshaft_fluctuation_lp: filter,
                ..*old(engine)
            }),
            _ => *final(engine) == *old(engine),
        },
{
}

/// Where the length or the frequency did not change, nothing takes the place of anything.
pub proof fn law_an_unchanged_length_or_frequency_replaces_nothing<V: Number, L, F>(
    control: Control,
    engine: &mut Engine<V, L, F>,
)
    requires
        call_ensures(
            replace_guide::<V, L, F>,
            (control, engine, None::<WaveGuide<V, L>>),
            (),
        ) || call_ensures(replace_filter::<V, L, F>, (control, engine, None::<F>), ()),
    ensures
        *final(engine) == *old(engine),
{
}

/// At the beginning of a pass the settings that all cylinders share stand where the first cylinder
/// has them, the reflectivity of the muffler where its first element has it, and the number of
/// cylinders at how many there are. Nothing is marked as changed.
pub proof fn law_a_pass_begins_with_the_first_cylinder<V: Number, L: Clone, F>(
    engine: Engine<V, L, F>,
    pass: Pass<V, L>,
)
    requires
        call_ensures(Pass::<V, L>::begin::<F>, (&engine,), pass),
    ensures
        pass.muffler_beta == engine.muffler.muffler_elements@[0].beta,
        pass.count == engine.cylinders@.len(),
        !pass.changed,
        ({
            let first = engine.cylinders@[0];
            &&& pass.cylinder.crank_offset == first.crank_offset
            &&& pass.cylinder.intake_open_refl == first.intake_open_refl
            &&& pass.cylinder.intake_closed_refl == first.intake_closed_refl
            &&& pass.cylinder.exhaust_open_refl == first.exhaust_open_refl
            &&& pass.cylinder.exhaust_closed_refl == first.exhaust_closed_refl
            &&& pass.cylinder.piston_motion_factor == first.piston_motion_factor
            &&& pass.cylinder.ignition_factor == first.ignition_factor
            &&& pass.cylinder.ignition_time == first.ignition_time
            &&& pass.cylinder.intake_waveguide.delay == first.intake_waveguide.delay
            &&& pass.cylinder.intake_waveguide.alpha == first.intake_waveguide.alpha
            &&& pass.cylinder.intake_waveguide.beta == first.intake_waveguide.beta
            &&& cloned(first.intake_waveguide.line, pass.cylinder.intake_waveguide.line)
            &&& pass.cylinder.exhaust_waveguide.delay == first.exhaust_waveguide.delay
            &&& pass.cylinder.exhaust_waveguide.alpha == first.exhaust_waveguide.alpha
            &&& pass.cylinder.exhaust_waveguide.beta == first.exhaust_waveguide.beta
            &&& cloned(first.exhaust_waveguide.line, pass.cylinder.exhaust_waveguide.line)
            &&& pass.cylinder.extractor_waveguide.delay == first.extractor_waveguide.delay
            &&& pass.cylinder.extractor_waveguide.alpha == first.extractor_waveguide.alpha
            &&& pass.cylinder.extractor_waveguide.beta == first.extractor_waveguide.beta
            &&& cloned(first.extractor_waveguide.line, pass.cylinder.extractor_waveguide.line)
        }),
{
}

/// Moving the number of cylinders sets the number that there are to be, and marks a change exactly
/// where it is another one.
pub proof fn law_the_number_of_cylinders_is_set<V: Number, L: Clone>(
    pass: &mut Pass<V, L>,
    count: usize,
)
    requires
        call_ensures(Pass::<V, L>::change_count, (pass, count), ()),
    ensures
        final(pass).count == count,
        final(pass).changed == (old(pass).changed || count != old(pass).count),
        final(pass).muffler_beta == old(pass).muffler_beta,
        final(pass).cylinder == old(pass).cylinder,
{
}

}
