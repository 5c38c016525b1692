//! The buttons above the sliders: recording, and stopping everything at once.

use crate::controls::Piece;
use crate::engine::Generator;
use crate::number::{
    defined_everywhere, div_of, lesser, lesser_of, ratio, ratio_of, Number, Scale,
};
use vstd::prelude::*;

verus! {

/// What a click on the recording button asks for.
#[derive(Clone, Copy, PartialEq, Eq, Structural, Debug)]
pub enum RecordClick {
    /// Asking for a file and starting a recording into it.
    Start,
    /// Stopping the recording that runs.
    Stop,
}

/// The recording button.
pub struct RecordButton<V> {
    pub label: Vec<Piece<V>>,
    /// Whether the label will have changed by the next frame.
    pub repaint: bool,
}

/// `r` is the label of the recording button, without a warning. `running` tells of a recorder that
/// runs, `recorded` how many samples it has.
pub open spec fn record_label_of<V: Number>(
    running: bool,
    recorded: V,
    sample_rate: V,
    r: Seq<Piece<V>>,
) -> bool {
    if running {
        exists|seconds: V| #[trigger]
            div_of(recorded, sample_rate, seconds) && r == seq![
                Piece::Text("Stop recording ["),
                Piece::Number { value: seconds, digits: 3 },
                Piece::Text(" sec recorded]"),
            ]
    } else {
        r == seq![Piece::<V>::Text("Start recording")]
    }
}

/// What the label of the recording button ends with.
pub open spec fn clipping_warning<V>(clipping: bool) -> Seq<Piece<V>> {
    if clipping {
        seq![Piece::Text("   !!Recording clipping!! (decrease master volume)")]
    } else {
        Seq::empty()
    }
}

/// The label of the button that stops everything.
pub open spec fn panic_label_pieces<V>(dampened: bool) -> Seq<Piece<V>> {
    if dampened {
        seq![
            Piece::Text("Panic!"),
            Piece::Text("   !!Resonances dampened!! (change parameters)"),
        ]
    } else {
        seq![Piece::Text("Panic!")]
    }
}

/// Showing the recording button `r` turned `before` into `after`. `running` and `recorded` are what
/// the recorder, where there is one, says of itself.
pub open spec fn record_button_of<V: Number, L, F, R>(
    before: Generator<V, L, F, R>,
    running: bool,
    recorded: V,
    sample_rate: V,
    after: Generator<V, L, F, R>,
    r: RecordButton<V>,
) -> bool {
    &&& after == (Generator {
        recorder: if running {
            before.recorder
        } else {
            None
        },
        ..before
    })
    &&& r.repaint == (before.recorder is Some && running)
    &&& exists|label: Seq<Piece<V>>| #[trigger]
        record_label_of(r.repaint, recorded, sample_rate, label) && r.label@ == label
            + clipping_warning::<V>(before.recording_currently_clipping)
}

/// Turning the sound down turned `before` into `after`.
pub open spec fn quietened_of<V: Number, L, F, R>(
    before: Generator<V, L, F, R>,
    after: Generator<V, L, F, R>,
) -> bool {
    &&& after == (Generator { volume: after.volume, ..before })
    &&& exists|quiet: V| #[trigger]
        ratio_of(1, 100, quiet) && lesser_of(before.volume, quiet, after.volume)
}

impl<V: Number, L, F, R> Generator<V, L, F, R> {
    /// The recording button. Takes the recorder out where it no longer runs. `running` and
    /// `recorded` are what the recorder, where there is one, says of itself.
    pub fn record_button(&mut self, running: bool, recorded: V, sample_rate: V) -> (r: RecordButton<
        V,
    >)
        requires
            defined_everywhere::<V>(),
        ensures
            *final(self) == (Generator {
                recorder: if running {
                    old(self).recorder
                } else {
                    None
                },
                ..*old(self)
            }),
            r.repaint == (old(self).recorder is Some && running),
            r.repaint == (final(self).recorder is Some),
            record_button_of(*old(self), running, recorded, sample_rate, *final(self), r),
            exists|label: Seq<Piece<V>>| #[trigger]
                record_label_of(r.repaint, recorded, sample_rate, label) && r.label@ == label
                    + clipping_warning::<V>(old(self).recording_currently_clipping),
    {
        let recording = self.recorder.is_some() && running;
        let mut label: Vec<Piece<V>> = Vec::new();
        if recording {
            let seconds = recorded / sample_rate;
            assert(div_of(recorded, sample_rate, seconds));
            label.push(Piece::Text("Stop recording ["));
            label.push(Piece::Number { value: seconds, digits: 3 });
            label.push(Piece::Text(" sec recorded]"));
            assert(label@ =~= seq![
                Piece::Text("Stop recording ["),
                Piece::Number { value: seconds, digits: 3 },
                Piece::Text(" sec recorded]"),
            ]);
        } else {
            label.push(Piece::Text("Start recording"));
            assert(label@ =~= seq![Piece::<V>::Text("Start recording")]);
        }
        let ghost plain = label@;
        assert(record_label_of(recording, recorded, sample_rate, plain));
        if self.recording_currently_clipping {
            label.push(Piece::Text("   !!Recording clipping!! (decrease master volume)"));
        }
        assert(label@ =~= plain + clipping_warning::<V>(self.recording_currently_clipping));
        if !recording {
            self.recorder = None;
        }
        let r = RecordButton { label, repaint: recording };
        assert(record_label_of(r.repaint, recorded, sample_rate, plain) && r.label@ == plain
            + clipping_warning::<V>(old(self).recording_currently_clipping));
        r
    }

    /// What a click on the recording button asks for.
    pub fn record_click(&self) -> (r: RecordClick)
        ensures
            r == if self.recorder is Some {
                RecordClick::Stop
            } else {
                RecordClick::Start
            },
    {
        if self.recorder.is_some() {
            RecordClick::Stop
        } else {
            RecordClick::Start
        }
    }

    /// Starts a recording.
    pub fn start_recording(&mut self, recorder: R)
        ensures
            *final(self) == (Generator { recorder: Some(recorder), ..*old(self) }),
    {
        self.recorder = Some(recorder);
    }

    /// The label of the button that stops everything.
    pub fn panic_label(&self) -> (r: Vec<Piece<V>>)
        ensures
            r@ == panic_label_pieces::<V>(self.waveguides_dampened),
    {
        let mut r: Vec<Piece<V>> = Vec::new();
        r.push(Piece::Text("Panic!"));
        if self.waveguides_dampened {
            r.push(Piece::Text("   !!Resonances dampened!! (change parameters)"));
        }
        assert(r@ =~= panic_label_pieces::<V>(self.waveguides_dampened));
        r
    }

    /// Turns the master volume down to a hundredth, or leaves it where it is lower.
    pub fn quieten(&mut self)
        requires
            defined_everywhere::<V>(),
        ensures
            *final(self) == (Generator { volume: final(self).volume, ..*old(self) }),
            quietened_of(*old(self), *final(self)),
            exists|quiet: V| #[trigger]
                ratio_of(1, 100, quiet) && lesser_of(old(self).volume, quiet, final(self).volume),
    {
        let quiet: V = ratio(1, 100);
        assert(ratio_of(1, 100, quiet));
        self.volume = lesser(self.volume, quiet);
    }
}

/// The recording button says "Stop recording" with the seconds recorded while a recorder runs, and
/// "Start recording" else. A click does what it says. A warning follows while the recording clips.
/// A recorder that no longer runs is taken out, one that runs stays, and nothing else changes.
pub proof fn law_the_recording_button_does_what_it_says<V: Number, L, F, R>(
    scale: Scale<V>,
    generator: &mut Generator<V, L, F, R>,
    running: bool,
    recorded: V,
    sample_rate: V,
    r: RecordButton<V>,
    click: RecordClick,
)
    requires
        scale.exact(),
        scale.has(recorded),
        scale.has(sample_rate),
        scale.at(sample_rate) > 0 as real,
        call_ensures(
            Generator::<V, L, F, R>::record_button,
            (generator, running, recorded, sample_rate),
            r,
        ),
        call_ensures(Generator::<V, L, F, R>::record_click, (&*final(generator),), click),
    ensures
        ({
            let (before, after) = (*old(generator), *final(generator));
            let recording = before.recorder is Some && running;
            let clipping = before.recording_currently_clipping;
            let label = r.label@;
            &&& r.repaint == recording
            &&& recording <==> click == RecordClick::Stop
            &&& !recording <==> click == RecordClick::Start
            &&& recording ==> after.recorder == before.recorder
            &&& !recording ==> after.recorder is None
            &&& after == (Generator { recorder: after.recorder, ..before })
            &&& recording ==> {
                &&& label.len() == if clipping {
                    4
                } else {
                    3int
                }
                &&& label[0] == Piece::<V>::Text("Stop recording [")
                &&& label[1] matches Piece::Number { value, digits } && digits == 3 && (
                scale.place)(value) == Some(scale.at(recorded) / scale.at(sample_rate))
                &&& label[2] == Piece::<V>::Text(" sec recorded]")
            }
            &&& !recording ==> {
                &&& label.len() == if clipping {
                    2
                } else {
                    1int
                }
                &&& label[0] == Piece::<V>::Text("Start recording")
            }
            &&& clipping ==> label.last() == Piece::<V>::Text(
                "   !!Recording clipping!! (decrease master volume)",
            )
        }),
{
    let label = choose|label: Seq<Piece<V>>| #[trigger]
        record_label_of(r.repaint, recorded, sample_rate, label) && r.label@ == label
            + clipping_warning::<V>(old(generator).recording_currently_clipping);
    if r.repaint {
        let seconds = choose|seconds: V| #[trigger]
            div_of(recorded, sample_rate, seconds) && label == seq![
                Piece::Text("Stop recording ["),
                Piece::Number { value: seconds, digits: 3 },
                Piece::Text(" sec recorded]"),
            ];
        let (a, b, s) = (scale.at(recorded), scale.at(sample_rate), scale.at(seconds));
        assert(scale.has(seconds) && s * b == a);
        assert(s == a / b) by (nonlinear_arith)
            requires
                s * b == a,
                b > 0 as real,
        ;
        assert(r.label@[1] == label[1]);
    }
}

/// The panic button says "Panic!", and warns while resonances are dampened.
pub proof fn law_the_panic_button_warns<V: Number, L, F, R>(
    generator: &Generator<V, L, F, R>,
    r: Vec<Piece<V>>,
)
    requires
        call_ensures(Generator::<V, L, F, R>::panic_label, (generator,), r),
    ensures
        r@.len() == if generator.waveguides_dampened {
            2
        } else {
            1int
        },
        r@[0] == Piece::<V>::Text("Panic!"),
        generator.waveguides_dampened ==> r@[1] == Piece::<V>::Text(
            "   !!Resonances dampened!! (change parameters)",
        ),
{
}

/// The panic button turns the master volume down to a hundredth, and leaves it where it is lower.
/// A volume that is not a number becomes a hundredth. Nothing else changes.
pub proof fn law_panic_turns_the_volume_down<V: Number, L, F, R>(
    scale: Scale<V>,
    generator: &mut Generator<V, L, F, R>,
)
    requires
        scale.exact(),
        call_ensures(Generator::<V, L, F, R>::quieten, (generator,), ()),
    ensures
        ({
            let (before, after) = (*old(generator), *final(generator));
            let quiet = scale.has(before.volume) && 100 as real * scale.at(before.volume)
                < 1 as real;
            &&& after == (Generator { volume: after.volume, ..before })
            &&& quiet ==> after.volume == before.volume
            &&& !quiet ==> (scale.place)(after.volume) == Some(1 as real / 100 as real)
        }),
{
    let (before, after) = (*old(generator), *final(generator));
    let quiet = choose|quiet: V| #[trigger]
        ratio_of(1, 100, quiet) && lesser_of(before.volume, quiet, after.volume);
    assert(scale.has(quiet) && scale.at(quiet) * 100 as real == 1 as real);
}

}
