//! What each operation that changes something does to it, stated of the call itself.

use crate::app::EngineSoundApp;
use crate::columns::{law_cells_show_their_spectrum, law_taking_ends_at_a_short_spectrum};
use crate::controls::Control;
use crate::cylinders::{
    law_added_cylinders_copy_the_model, law_cylinders_that_stay_take_the_settings, reshape,
    reshaped_of,
};
use crate::engine::{
    normalized_of, rebalanced_of, Cylinder, Engine, Generator, Muffler, WaveGuide,
};
use crate::exact::law_normalizing_makes_the_mix_whole;
use crate::inbox::{came_in, Inbox};
use crate::number::{Number, Scale};
use crate::panel::{begun_of, guide, shown, stepped_of, suits, Move, Pass};
use crate::run::Run;
use crate::waterfall::{
    drained_of, lines_of, points_of, row_of, scrolled, GUIState, Purpose, SamplePoint, ShortLine,
};
use crossbeam_channel::Receiver;
use std::path::PathBuf;
use vstd::prelude::*;

verus! {

/// A new inbox stands at its channel, and nothing was taken out yet.
pub proof fn law_a_new_inbox_is_unused<T>(input: Receiver<T>, r: Inbox<T>)
    requires
        call_ensures(Inbox::<T>::new, (input,), r),
    ensures
        r.channel() == input,
        r.taken().len() == 0,
{
}

/// Taking a message out of an inbox records exactly that message, after those before, and nothing
/// where none was there. It comes out of the one channel of the inbox.
pub proof fn law_taking_records_the_message<T>(inbox: &mut Inbox<T>, r: Option<T>)
    requires
        call_ensures(Inbox::<T>::take, (inbox,), r),
    ensures
        final(inbox).channel() == old(inbox).channel(),
        came_in(old(inbox).channel(), r),
        r is None ==> final(inbox).taken() == old(inbox).taken(),
        r is Some ==> {
            &&& final(inbox).taken().len() == old(inbox).taken().len() + 1
            &&& final(inbox).taken().drop_last() == old(inbox).taken()
            &&& final(inbox).taken().last() == r->0
        },
{
    if r is Some {
        assert(final(inbox).taken().drop_last() =~= old(inbox).taken());
    }
}

/// A line of 512 values becomes the topmost row. Every other row moves down by one and the lowest
/// goes. What was received, the channel and the directories stay.
pub proof fn law_a_line_becomes_the_topmost_row<V: Number>(
    state: &mut GUIState<V>,
    line: &[V],
    i: int,
)
    requires
        old(state).cells().len() == 25600,
        line@.len() == 512,
        call_ensures(GUIState::<V>::add_line, (state, line), ()),
        0 <= i < 25600,
    ensures
        final(state).cells().len() == 25600,
        i < 512 ==> final(state).cells()[i] == line@[i],
        i >= 512 ==> final(state).cells()[i] == old(state).cells()[i - 512],
        final(state).received() == old(state).received(),
        final(state).channel() == old(state).channel(),
        forall|purpose: Purpose| #[trigger]
            final(state).directory_for(purpose) == old(state).directory_for(purpose),
{
}

/// A spectrum that was received becomes the topmost row, read at `points`, where it has a bin for
/// each of them, and is refused else. Without a spectrum, or with one that is refused, the
/// waterfall stays.
pub proof fn law_a_spectrum_becomes_the_topmost_row<V: Number>(
    state: &mut GUIState<V>,
    points: &[SamplePoint<V>],
    received: Option<Vec<V>>,
    r: Result<bool, ShortLine>,
)
    requires
        old(state).cells().len() == 25600,
        points@.len() == 512,
        call_ensures(GUIState::<V>::absorb, (state, points, received), r),
    ensures
        final(state).received() == old(state).received(),
        final(state).channel() == old(state).channel(),
        r == Ok::<bool, ShortLine>(false) <==> received is None,
        r is Err <==> received is Some && exists|c: int|
            0 <= c < 512 && (#[trigger] points@[c]).index >= received->0@.len(),
        r != Ok::<bool, ShortLine>(true) ==> final(state).cells() == old(state).cells(),
        r == Ok::<bool, ShortLine>(true) ==> {
            &&& final(state).cells().len() == 25600
            &&& row_of(points@, received->0@, final(state).cells().take(512))
            &&& final(state).cells().skip(512) == old(state).cells().take(25600 - 512)
        },
{
    if let Some(line) = received {
        if r is Ok {
            let row = choose|row: Seq<V>| #[trigger]
                row_of(points@, line@, row) && final(state).cells() == scrolled(
                    old(state).cells(),
                    row,
                );
            assert(final(state).cells().take(512) =~= row);
            assert(final(state).cells().skip(512) =~= old(state).cells().take(25600 - 512));
        }
    }
}

/// What was taken out of the channel by going from `before` to `after`.
pub open spec fn newly_received<V>(before: GUIState<V>, after: GUIState<V>) -> Seq<Vec<V>> {
    after.received().skip(before.received().len() as int)
}

/// Updating takes spectra out of the channel, in order, after those that were taken before, and
/// shows each as a row: the cell in row `k` and column `c` shows the spectrum before the last `k`
/// of those that were taken, at the position of column `c` on the logarithmic scale. Below these
/// rows stands what stood there before, moved down. The answer is whether any was taken, and an
/// error exactly where one of them is too short: the last, which gives no row.
pub proof fn law_updating_shows_what_was_taken<
    V: Number,
    L: Fn(V) -> V,
    I: Fn(V) -> usize,
    R: Fn(V) -> V,
>(
    scale: Scale<V>,
    state: &mut GUIState<V>,
    log2: &L,
    floor: &I,
    fract: &R,
    r: Result<bool, ShortLine>,
    k: int,
    c: int,
)
    requires
        scale.exact(),
        old(state).cells().len() == 25600,
        call_ensures(GUIState::<V>::update::<L, I, R>, (state, log2, floor, fract), r),
        0 <= k < 50,
        0 <= c < 512,
        forall|v: V| scale.has(v),
    ensures
        final(state).channel() == old(state).channel(),
        old(state).received().is_prefix_of(final(state).received()),
        forall|purpose: Purpose| #[trigger]
            final(state).directory_for(purpose) == old(state).directory_for(purpose),
        r matches Ok(updated) ==> updated == (final(state).received().len() > old(
            state,
        ).received().len()),
        final(state).cells().len() == 25600,
        exists|points: Seq<SamplePoint<V>>|
            {
                let taken = newly_received(*old(state), *final(state));
                let shown = if r is Ok {
                    taken
                } else {
                    taken.drop_last()
                };
                let n = shown.len() as int;
                let cell = final(state).cells()[k * 512 + c];
                let (index, t) = (points[c].index as int, scale.at(points[c].fraction));
                &&& #[trigger] points_of(*log2, *floor, *fract, points)
                &&& r is Ok <==> forall|i: int, j: int|
                    #![trigger taken[i], points[j]]
                    0 <= i < taken.len() && 0 <= j < points.len() ==> points[j].index
                        < taken[i]@.len()
                &&& k >= n ==> cell == old(state).cells()[(k - n) * 512 + c]
                &&& k < n ==> ({
                    let line = shown[n - 1 - k]@;
                    &&& index < line.len()
                    &&& index == 0 ==> (scale.place)(cell) == (scale.place)(line[0])
                    &&& index >= 1 ==> (scale.place)(cell) == Some(
                        scale.at(line[index - 1]) * (1 as real - t) + scale.at(line[index]) * t,
                    )
                })
            },
{
    let taken = newly_received(*old(state), *final(state));
    let points = choose|points: Seq<SamplePoint<V>>| #[trigger]
        points_of(*log2, *floor, *fract, points) && drained_of(
            points,
            old(state).channel(),
            taken,
            old(state).cells(),
            final(state).cells(),
            r,
        );
    law_taking_ends_at_a_short_spectrum(
        points,
        old(state).channel(),
        taken,
        old(state).cells(),
        final(state).cells(),
        r,
    );
    let shown = if r is Ok {
        taken
    } else {
        taken.drop_last()
    };
    let lines = lines_of(shown);
    if r is Err {
        assert(lines_of(taken).drop_last() =~= lines);
    }
    law_cells_show_their_spectrum(
        scale,
        points,
        lines,
        old(state).cells(),
        final(state).cells(),
        k,
        c,
    );
    assert(lines.len() == shown.len());
    if k < lines.len() {
        assert(lines[lines.len() - 1 - k] == shown[lines.len() - 1 - k]@);
    }
}

/// Feeding from the channel at given points does what updating does with them.
pub proof fn law_feeding_drains_the_channel<V: Number>(
    state: &mut GUIState<V>,
    points: &[SamplePoint<V>],
    r: Result<bool, ShortLine>,
)
    requires
        call_ensures(GUIState::<V>::feed, (state, points), r),
    ensures
        final(state).channel() == old(state).channel(),
        old(state).received().is_prefix_of(final(state).received()),
        drained_of(
            points@,
            old(state).channel(),
            newly_received(*old(state), *final(state)),
            old(state).cells(),
            final(state).cells(),
            r,
        ),
{
}

/// A directory is remembered for its purpose, and for no other. The waterfall stays.
pub proof fn law_a_directory_is_remembered_for_its_purpose<V: Number>(
    state: &mut GUIState<V>,
    purpose: Purpose,
    directory: Option<PathBuf>,
    other: Purpose,
    r: &Option<PathBuf>,
)
    requires
        call_ensures(GUIState::<V>::set_directory, (state, purpose, directory), ()),
        call_ensures(GUIState::<V>::directory, (&*final(state), other), r),
    ensures
        other == purpose ==> *r == directory,
        other != purpose ==> *r == old(state).directory_for(other),
        final(state).cells() == old(state).cells(),
        final(state).received() == old(state).received(),
        final(state).channel() == old(state).channel(),
{
}

/// The handle of a texture that is kept is there, and nothing else changes.
pub proof fn law_a_texture_is_kept<V: Number, G, T, A>(
    app: &mut EngineSoundApp<V, G, T, A>,
    texture: T,
)
    requires
        call_ensures(EngineSoundApp::<V, G, T, A>::keep_texture, (app, texture), ()),
    ensures
        final(app).waterfall_texture == Some(texture),
        final(app).gui_state == old(app).gui_state,
        final(app).generator == old(app).generator,
        final(app).audio == old(app).audio,
        final(app).sample_rate == old(app).sample_rate,
        final(app).allow_drag_drop == old(app).allow_drag_drop,
{
}

/// A recording that is started is there, and nothing else changes.
pub proof fn law_a_recording_is_started<V: Number, L, F, R>(
    generator: &mut Generator<V, L, F, R>,
    recorder: R,
)
    requires
        call_ensures(Generator::<V, L, F, R>::start_recording, (generator, recorder), ()),
    ensures
        final(generator).recorder == Some(recorder),
        *final(generator) == (Generator { recorder: Some(recorder), ..*old(generator) }),
{
}

/// Moving a volume sets it, makes room in the other two, and changes nothing else of the engine.
pub proof fn law_the_intake_volume_is_set<V: Number, L, F>(engine: &mut Engine<V, L, F>, value: V)
    requires
        call_ensures(Engine::<V, L, F>::set_intake_volume, (engine, value), ()),
    ensures
        ({
            let (before, after) = (*old(engine), *final(engine));
            &&& after.intake_volume == value
            &&& rebalanced_of(
                before.intake_volume,
                value,
                before.exhaust_volume,
                before.engine_vibrations_volume,
                after.exhaust_volume,
                after.engine_vibrations_volume,
            )
            &&& after == (Engine {
                intake_volume: value,
                exhaust_volume: after.exhaust_volume,
                engine_vibrations_volume: after.engine_vibrations_volume,
                ..before
            })
        }),
{
}

/// The same holds of the exhaust volume.
pub proof fn law_the_exhaust_volume_is_set<V: Number, L, F>(engine: &mut Engine<V, L, F>, value: V)
    requires
        call_ensures(Engine::<V, L, F>::set_exhaust_volume, (engine, value), ()),
    ensures
        ({
            let (before, after) = (*old(engine), *final(engine));
            &&& after.exhaust_volume == value
            &&& rebalanced_of(
                before.exhaust_volume,
                value,
                before.intake_volume,
                before.engine_vibrations_volume,
                after.intake_volume,
                after.engine_vibrations_volume,
            )
            &&& after == (Engine {
                intake_volume: after.intake_volume,
                exhaust_volume: value,
                engine_vibrations_volume: after.engine_vibrations_volume,
                ..before
            })
        }),
{
}

/// The same holds of the volume of the engine vibrations.
pub proof fn law_the_vibrations_volume_is_set<V: Number, L, F>(
    engine: &mut Engine<V, L, F>,
    value: V,
)
    requires
        call_ensures(Engine::<V, L, F>::set_engine_vibrations_volume, (engine, value), ()),
    ensures
        ({
            let (before, after) = (*old(engine), *final(engine));
            &&& after.engine_vibrations_volume == value
            &&& rebalanced_of(
                before.engine_vibrations_volume,
                value,
                before.exhaust_volume,
                before.intake_volume,
                after.exhaust_volume,
                after.intake_volume,
            )
            &&& after == (Engine {
                intake_volume: after.intake_volume,
                exhaust_volume: after.exhaust_volume,
                engine_vibrations_volume: value,
                ..before
            })
        }),
{
}

/// Normalizing divides each volume by the sum of all, and changes nothing else of the engine.
pub proof fn law_the_mix_is_divided_by_its_sum<V: Number, L, F>(
    scale: Scale<V>,
    engine: &mut Engine<V, L, F>,
)
    requires
        scale.exact(),
        scale.sounds(
            old(engine).intake_volume,
            old(engine).exhaust_volume,
            old(engine).engine_vibrations_volume,
        ),
        call_ensures(Engine::<V, L, F>::normalize_mix, (engine,), ()),
    ensures
        ({
            let (before, after) = (*old(engine), *final(engine));
            let sum = scale.at(before.intake_volume) + scale.at(before.exhaust_volume) + scale.at(
                before.engine_vibrations_volume,
            );
            &&& scale.at(after.intake_volume) == scale.at(before.intake_volume) / sum
            &&& scale.at(after.exhaust_volume) == scale.at(before.exhaust_volume) / sum
            &&& scale.at(after.engine_vibrations_volume) == scale.at(
                before.engine_vibrations_volume,
            ) / sum
            &&& after == (Engine {
                intake_volume: after.intake_volume,
                exhaust_volume: after.exhaust_volume,
                engine_vibrations_volume: after.engine_vibrations_volume,
                ..before
            })
        }),
{
    let (before, after) = (*old(engine), *final(engine));
    law_normalizing_makes_the_mix_whole(
        scale,
        before.intake_volume,
        before.exhaust_volume,
        before.engine_vibrations_volume,
        after.intake_volume,
        after.exhaust_volume,
        after.engine_vibrations_volume,
    );
}

/// A cylinder that adopts the settings of a model has them, and keeps what is its own.
pub proof fn law_a_cylinder_adopts_the_settings<V: Number, L>(
    cylinder: &mut Cylinder<V, L>,
    model: &Cylinder<V, L>,
)
    requires
        call_ensures(Cylinder::<V, L>::adopt, (cylinder, model), ()),
    ensures
        ({
            let (own, now) = (*old(cylinder), *final(cylinder));
            &&& now.intake_open_refl == model.intake_open_refl
            &&& now.intake_closed_refl == model.intake_closed_refl
            &&& now.exhaust_open_refl == model.exhaust_open_refl
            &&& now.exhaust_closed_refl == model.exhaust_closed_refl
            &&& now.piston_motion_factor == model.piston_motion_factor
            &&& now.ignition_factor == model.ignition_factor
            &&& now.ignition_time == model.ignition_time
            &&& now.intake_waveguide.beta == model.intake_waveguide.beta
            &&& now.extractor_waveguide.beta == model.extractor_waveguide.beta
            &&& now.crank_offset == own.crank_offset
            &&& now.exhaust_waveguide == own.exhaust_waveguide
            &&& now.intake_waveguide.delay == own.intake_waveguide.delay
            &&& now.intake_waveguide.alpha == own.intake_waveguide.alpha
            &&& now.intake_waveguide.line == own.intake_waveguide.line
            &&& now.extractor_waveguide.delay == own.extractor_waveguide.delay
            &&& now.extractor_waveguide.alpha == own.extractor_waveguide.alpha
            &&& now.extractor_waveguide.line == own.extractor_waveguide.line
        }),
{
}

/// The waveguide whose length a control sets is the one that the control is named after. Other
/// controls set no length.
pub proof fn law_each_length_has_its_waveguide<V, L, F>(
    control: Control,
    engine: &Engine<V, L, F>,
    r: Option<&WaveGuide<V, L>>,
)
    requires
        shown(control, *engine),
        call_ensures(guide::<V, L, F>, (control, engine), r),
    ensures
        match control {
            Control::PipeLength => r == Some(&engine.muffler.straight_pipe),
            Control::MufflerLength(i) => r == Some(&engine.muffler.muffler_elements@[i as int]),
            Control::IntakeLength(i) => r == Some(&engine.cylinders@[i as int].intake_waveguide),
            Control::ExhaustLength(i) => r == Some(&engine.cylinders@[i as int].exhaust_waveguide),
            Control::ExtractorLength(i) => r == Some(
                &engine.cylinders@[i as int].extractor_waveguide,
            ),
            _ => r is None,
        },
{
}

/// A copy of a cylinder has all that the cylinder has. Only the delay lines are clones.
pub proof fn law_a_copied_cylinder_has_the_same<V: Copy, L: Clone>(
    cylinder: &Cylinder<V, L>,
    r: Cylinder<V, L>,
)
    requires
        call_ensures(Cylinder::<V, L>::clone, (cylinder,), r),
    ensures
        r.crank_offset == cylinder.crank_offset,
        r.intake_open_refl == cylinder.intake_open_refl,
        r.intake_closed_refl == cylinder.intake_closed_refl,
        r.exhaust_open_refl == cylinder.exhaust_open_refl,
        r.exhaust_closed_refl == cylinder.exhaust_closed_refl,
        r.piston_motion_factor == cylinder.piston_motion_factor,
        r.ignition_factor == cylinder.ignition_factor,
        r.ignition_time == cylinder.ignition_time,
        same_pipe(cylinder.intake_waveguide, r.intake_waveguide),
        same_pipe(cylinder.exhaust_waveguide, r.exhaust_waveguide),
        same_pipe(cylinder.extractor_waveguide, r.extractor_waveguide),
{
}

/// A copy of a waveguide has all that the waveguide has. Only the delay line is a clone.
pub proof fn law_a_copied_waveguide_has_the_same<V: Copy, L: Clone>(
    guide: &WaveGuide<V, L>,
    r: WaveGuide<V, L>,
)
    requires
        call_ensures(WaveGuide::<V, L>::clone, (guide,), r),
    ensures
        same_pipe(*guide, r),
{
}

/// Two waveguides are as long and as reflective as each other, with a delay line that is a clone.
pub open spec fn same_pipe<V, L: Clone>(a: WaveGuide<V, L>, b: WaveGuide<V, L>) -> bool {
    &&& a.delay == b.delay
    &&& a.alpha == b.alpha
    &&& a.beta == b.beta
    &&& cloned(a.line, b.line)
}

/// Reshaping brings the cylinders to the number asked for. Those that stay take the settings that
/// all share from the model and keep what is their own. Those that are added are copies of the
/// model but for their crank offset, that of the last where all are spread evenly over one turn.
pub proof fn law_cylinders_are_reshaped<V: Number, L: Clone, C: Fn(usize) -> V>(
    scale: Scale<V>,
    cylinders: &mut Vec<Cylinder<V, L>>,
    count: usize,
    model: &Cylinder<V, L>,
    to_value: C,
    i: int,
)
    requires
        scale.exact(),
        forall|n: usize, r: V| #[trigger]
            call_ensures(to_value, (n,), r) ==> (scale.place)(r) == Some(n as real),
        call_ensures(reshape::<V, L, C>, (cylinders, count, model, to_value), ()),
        0 <= i < count,
    ensures
        final(cylinders)@.len() == count,
        ({
            let now = final(cylinders)@[i];
            &&& now.intake_open_refl == model.intake_open_refl
            &&& now.intake_closed_refl == model.intake_closed_refl
            &&& now.exhaust_open_refl == model.exhaust_open_refl
            &&& now.exhaust_closed_refl == model.exhaust_closed_refl
            &&& now.piston_motion_factor == model.piston_motion_factor
            &&& now.ignition_factor == model.ignition_factor
            &&& now.ignition_time == model.ignition_time
            &&& now.intake_waveguide.beta == model.intake_waveguide.beta
            &&& now.extractor_waveguide.beta == model.extractor_waveguide.beta
            &&& i < old(cylinders)@.len() ==> ({
                let own = old(cylinders)@[i];
                &&& now.crank_offset == own.crank_offset
                &&& now.exhaust_waveguide == own.exhaust_waveguide
                &&& now.intake_waveguide.delay == own.intake_waveguide.delay
                &&& now.intake_waveguide.alpha == own.intake_waveguide.alpha
                &&& now.intake_waveguide.line == own.intake_waveguide.line
                &&& now.extractor_waveguide.delay == own.extractor_waveguide.delay
                &&& now.extractor_waveguide.alpha == own.extractor_waveguide.alpha
                &&& now.extractor_waveguide.line == own.extractor_waveguide.line
            })
            &&& i >= old(cylinders)@.len() ==> {
                &&& scale.has(now.crank_offset)
                &&& scale.at(now.crank_offset) * count as real == (count - 1) as real
                &&& now.exhaust_waveguide.delay == model.exhaust_waveguide.delay
                &&& now.exhaust_waveguide.alpha == model.exhaust_waveguide.alpha
                &&& now.exhaust_waveguide.beta == model.exhaust_waveguide.beta
                &&& now.intake_waveguide.delay == model.intake_waveguide.delay
                &&& now.intake_waveguide.alpha == model.intake_waveguide.alpha
                &&& now.extractor_waveguide.delay == model.extractor_waveguide.delay
                &&& now.extractor_waveguide.alpha == model.extractor_waveguide.alpha
            }
        }),
{
    let (before, after) = (old(cylinders)@, final(cylinders)@);
    if i < before.len() {
        law_cylinders_that_stay_take_the_settings(to_value, before, count, *model, after, i);
    } else {
        law_added_cylinders_copy_the_model(scale, to_value, before, count, *model, after, i);
    }
}

/// Once a control is behind, the mix is divided by its sum where that was the last volume, a
/// muffler element takes the reflectivity of all where that was its length, and the cylinders are
/// reshaped where that was the last shared setting and one of them changed. Else, and elsewhere in
/// the engine, everything stays.
pub proof fn law_a_control_settles<V: Number, L: Clone, F, C: Fn(usize) -> V>(
    control: Control,
    pass: &Pass<V, L>,
    engine: &mut Engine<V, L, F>,
    to_value: C,
)
    requires
        shown(control, *old(engine)),
        call_ensures(Pass::<V, L>::settle::<F, C>, (pass, control, engine, to_value), ()),
    ensures
        ({
            let (before, after) = (*old(engine), *final(engine));
            match control {
                Control::EngineVibrationsVolume => {
                    &&& normalized_of(
                        before.intake_volume,
                        before.exhaust_volume,
                        before.engine_vibrations_volume,
                        after.intake_volume,
                        after.exhaust_volume,
                        after.engine_vibrations_volume,
                    )
                    &&& after == (Engine {
                        intake_volume: after.intake_volume,
                        exhaust_volume: after.exhaust_volume,
                        engine_vibrations_volume: after.engine_vibrations_volume,
                        ..before
                    })
                },
                Control::MufflerLength(i) => {
                    let elements = before.muffler.muffler_elements@;
                    &&& after.muffler.muffler_elements@ == elements.update(
                        i as int,
                        WaveGuide { beta: pass.muffler_beta, ..elements[i as int] },
                    )
                    &&& after == (Engine {
                        muffler: Muffler {
                            muffler_elements: after.muffler.muffler_elements,
                            ..before.muffler
                        },
                        ..before
                    })
                },
                Control::IgnitionTime => {
                    &&& pass.changed ==> reshaped_of(
                        to_value,
                        before.cylinders@,
                        pass.count,
                        pass.cylinder,
                        after.cylinders@,
                    )
                    &&& !pass.changed ==> after.cylinders@ == before.cylinders@
                    &&& after == (Engine { cylinders: after.cylinders, ..before })
                },
                _ => after == before,
            }
        }),
{
}

impl<V: Number, L: Clone, F, R> Run<V, L, F, R> {
    /// The run has come from the top down to here, one control after the other.
    pub open spec fn under_way<C: Fn(usize) -> V>(self, to_value: C) -> bool {
        &&& self.moves.len() == self.controls.len()
        &&& self.states.len() == self.controls.len() + 1
        &&& self.passes.len() == self.controls.len() + 1
        &&& self.states.first().engine.well_formed()
        &&& begun_of(self.states.first().engine, self.passes.first())
        &&& forall|n: int| 0 <= n < self.controls.len() ==> #[trigger] self.stepped(to_value, n)
    }

    /// The run stands above `control`.
    pub open spec fn stands_above(self, control: Control) -> bool {
        let engine = self.states.last().engine;
        &&& shown(control, engine)
        &&& control.rank(engine.muffler.muffler_elements.len()) == self.controls.len()
    }
}

/// A run begins at the first control, with a pass that has just begun.
pub proof fn law_a_run_begins_at_the_first_control<V: Number, L: Clone, F, R, C: Fn(usize) -> V>(
    generator: Generator<V, L, F, R>,
    pass: Pass<V, L>,
    control: Control,
    to_value: C,
)
    requires
        generator.engine.well_formed(),
        call_ensures(Pass::<V, L>::begin::<F>, (&generator.engine,), pass),
        call_ensures(Control::first, (), control),
    ensures
        ({
            let run = Run::<V, L, F, R> {
                controls: seq![],
                moves: seq![],
                states: seq![generator],
                passes: seq![pass],
            };
            run.under_way(to_value) && run.stands_above(control)
        }),
{
    let engine = generator.engine;
    assert(control.rank(engine.muffler.muffler_elements.len()) == 0);
    assert(control.present(engine.muffler.muffler_elements.len(), engine.cylinders.len()));
}

/// A run goes on by stepping past the control it stands above, with the movement that was made on
/// it. Then it stands above the next control, or is complete where there is none. So the laws of a
/// complete run hold wherever these operations are called one after the other.
pub proof fn law_a_run_goes_on_by_steps<V: Number, L: Clone, F, R, C: Fn(usize) -> V>(
    run: Run<V, L, F, R>,
    control: Control,
    movement: Move<V, L, F>,
    pass: &mut Pass<V, L>,
    generator: &mut Generator<V, L, F, R>,
    to_value: C,
    mufflers: usize,
    cylinders: usize,
    below: Option<Control>,
)
    requires
        run.under_way(to_value),
        run.stands_above(control),
        *old(generator) == run.states.last(),
        *old(pass) == run.passes.last(),
        suits(control, movement, *old(generator), *old(pass)),
        call_ensures(
            Pass::<V, L>::step::<F, R, C>,
            (pass, control, movement, generator, to_value),
            (),
        ),
        mufflers == final(generator).engine.muffler.muffler_elements@.len(),
        cylinders == final(generator).engine.cylinders@.len(),
        call_ensures(Control::next, (control, mufflers, cylinders), below),
    ensures
        ({
            let further = Run::<V, L, F, R> {
                controls: run.controls.push(control),
                moves: run.moves.push(movement),
                states: run.states.push(*final(generator)),
                passes: run.passes.push(*final(pass)),
            };
            &&& further.under_way(to_value)
            &&& below matches Some(next) ==> further.stands_above(next)
            &&& below is None ==> further.complete(to_value)
        }),
{
    let further = Run::<V, L, F, R> {
        controls: run.controls.push(control),
        moves: run.moves.push(movement),
        states: run.states.push(*final(generator)),
        passes: run.passes.push(*final(pass)),
    };
    assert(stepped_of(
        control,
        movement,
        to_value,
        *old(generator),
        *old(pass),
        *final(generator),
        *final(pass),
    ));
    assert forall|n: int| 0 <= n < further.controls.len() implies #[trigger] further.stepped(
        to_value,
        n,
    ) by {
        if n < run.controls.len() {
            assert(run.stepped(to_value, n));
        }
    }
    assert(further.stepped(to_value, run.controls.len() as int));
    let (before, after) = (old(generator).engine, final(generator).engine);
    assert(after.muffler.muffler_elements@.len() == before.muffler.muffler_elements@.len());
    assert(before.muffler.muffler_elements.len() == before.muffler.muffler_elements@.len());
    assert(after.muffler.muffler_elements.len() == after.muffler.muffler_elements@.len());
    assert(after.cylinders.len() == after.cylinders@.len());
}

}
