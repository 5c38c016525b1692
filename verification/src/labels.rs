//! What the labels of the controls say and how far the sliders reach, written out control by
//! control.

use crate::controls::{
    bound_of, extra_of, label_of, numbering, shown_of, sine_peak_of, Bound, Control, Face, Piece,
};
use crate::number::{div_of, from_of, mul_of, neg_of, ratio_of, Number, Scale};
use vstd::prelude::*;

verus! {

/// `piece` is the number at `x`, with this many decimals.
pub open spec fn writes<V: Number>(scale: Scale<V>, piece: Piece<V>, x: real, digits: u8) -> bool {
    piece matches Piece::Number { value, digits: d } && d == digits && (scale.place)(value) == Some(
        x,
    )
}

/// `-a` stands opposite of `a`.
pub open spec fn negates<V: Number>(scale: Scale<V>) -> bool {
    forall|a: V, r: V| #[trigger]
        neg_of(a, r) && scale.has(a) ==> (scale.place)(r) == Some(0 as real - scale.at(a))
}

/// The label of every control, piece by piece: its text, with the number of the muffler element or
/// cylinder in front, then the value that it stands at, and what else it tells. Volumes of the mix
/// are shown in percent, shifts of a cam with the other sign, and beside the speed of the engine
/// stand the turns per second, beside a length of pipe twice the speed of sound over it.
pub proof fn law_labels<V: Number>(
    scale: Scale<V>,
    control: Control,
    value: V,
    count: usize,
    speed_of_sound: V,
    r: Vec<Piece<V>>,
)
    requires
        scale.exact(),
        negates(scale),
        scale.has(value),
        scale.has(speed_of_sound),
        call_ensures(Control::label::<V>, (control, value, count, speed_of_sound), r),
    ensures
        ({
            let (x, sound) = (scale.at(value), scale.at(speed_of_sound));
            match control {
                Control::MixHeading => r@ == seq![Piece::<V>::Text("Mix")],
                Control::EngineHeading => r@ == seq![Piece::<V>::Text("Engine parameters")],
                Control::MufflerHeading => r@ == seq![Piece::<V>::Text("Muffler parameters")],
                Control::CylinderHeading => r@ == seq![Piece::<V>::Text("Cylinder parameters")],
                Control::Rpm => {
                    &&& r@.len() == 5
                    &&& r@[0] == Piece::<V>::Text("Engine RPM ")
                    &&& r@[1] == (Piece::Number { value, digits: 2 })
                    &&& r@[2] == Piece::<V>::Text(" (")
                    &&& writes(scale, r@[3], x / 60 as real, 1)
                    &&& r@[4] == Piece::<V>::Text(" hz)")
                },
                Control::MasterVolume => {
                    &&& r@.len() == 3
                    &&& r@[0] == Piece::<V>::Text("Master volume ")
                    &&& writes(scale, r@[1], 100 as real * x, 0)
                    &&& r@[2] == Piece::<V>::Text("%")
                },
                Control::IntakeVolume => {
                    &&& r@.len() == 3
                    &&& r@[0] == Piece::<V>::Text("Intake volume ")
                    &&& writes(scale, r@[1], 100 as real * x, 0)
                    &&& r@[2] == Piece::<V>::Text("%")
                },
                Control::ExhaustVolume => {
                    &&& r@.len() == 3
                    &&& r@[0] == Piece::<V>::Text("Exhaust volume ")
                    &&& writes(scale, r@[1], 100 as real * x, 0)
                    &&& r@[2] == Piece::<V>::Text("%")
                },
                Control::EngineVibrationsVolume => {
                    &&& r@.len() == 3
                    &&& r@[0] == Piece::<V>::Text("Engine vibrations volume ")
                    &&& writes(scale, r@[1], 100 as real * x, 0)
                    &&& r@[2] == Piece::<V>::Text("%")
                },
                Control::EngineVibrationFilter => {
                    &&& r@.len() == 3
                    &&& r@[0] == Piece::<V>::Text("Engine vibrations Lowpass-Filter Frequency ")
                    &&& r@[1] == (Piece::Number { value, digits: 2 })
                    &&& r@[2] == Piece::<V>::Text("hz")
                },
                Control::IntakeNoise => {
                    &&& r@.len() == 3
                    &&& r@[0] == Piece::<V>::Text("Intake noise volume ")
                    &&& r@[1] == (Piece::Number { value, digits: 2 })
                    &&& r@[2] == Piece::<V>::Text("")
                },
                Control::IntakeNoiseFilter => {
                    &&& r@.len() == 3
                    &&& r@[0] == Piece::<V>::Text("Intake noise Lowpass-Filter Frequency ")
                    &&& r@[1] == (Piece::Number { value, digits: 2 })
                    &&& r@[2] == Piece::<V>::Text("hz")
                },
                Control::IntakeValveShift => {
                    &&& r@.len() == 3
                    &&& r@[0] == Piece::<V>::Text("Intake valve cam shift ")
                    &&& writes(scale, r@[1], 0 as real - x, 2)
                    &&& r@[2] == Piece::<V>::Text(" cycles")
                },
                Control::ExhaustValveShift => {
                    &&& r@.len() == 3
                    &&& r@[0] == Piece::<V>::Text("Exhaust valve cam shift ")
                    &&& writes(scale, r@[1], 0 as real - x, 2)
                    &&& r@[2] == Piece::<V>::Text(" cycles")
                },
                Control::CrankshaftFluctuation => {
                    &&& r@.len() == 3
                    &&& r@[0] == Piece::<V>::Text("Crankshaft fluctuation factor ")
                    &&& r@[1] == (Piece::Number { value, digits: 2 })
                    &&& r@[2] == Piece::<V>::Text("x")
                },
                Control::CrankshaftFluctuationFilter => {
                    &&& r@.len() == 3
                    &&& r@[0] == Piece::<V>::Text(
                        "Crankshaft fluctuation noise Lowpass-Filter frequency ",
                    )
                    &&& r@[1] == (Piece::Number { value, digits: 2 })
                    &&& r@[2] == Piece::<V>::Text("hz")
                },
                Control::PipeAlpha => {
                    &&& r@.len() == 3
                    &&& r@[0] == Piece::<V>::Text("Straight Pipe extractor-side reflectivity ")
                    &&& r@[1] == (Piece::Number { value, digits: 2 })
                    &&& r@[2] == Piece::<V>::Text("")
                },
                Control::PipeBeta => {
                    &&& r@.len() == 3
                    &&& r@[0] == Piece::<V>::Text("Straight Pipe muffler-side reflectivity ")
                    &&& r@[1] == (Piece::Number { value, digits: 2 })
                    &&& r@[2] == Piece::<V>::Text("")
                },
                Control::PipeLength => {
                    &&& r@.len() == 5
                    &&& r@[0] == Piece::<V>::Text("Straight Pipe length ")
                    &&& r@[1] == (Piece::Number { value, digits: 2 })
                    &&& r@[2] == Piece::<V>::Text("m (")
                    &&& x != 0 as real ==> writes(scale, r@[3], 2 as real * sound / x, 1)
                    &&& r@[4] == Piece::<V>::Text("hz sine peak)")
                },
                Control::MufflerBeta => {
                    &&& r@.len() == 3
                    &&& r@[0] == Piece::<V>::Text(
                        "Muffler elements output-side (exhaust) reflectivity ",
                    )
                    &&& r@[1] == (Piece::Number { value, digits: 2 })
                    &&& r@[2] == Piece::<V>::Text("x")
                },
                Control::MufflerLength(i) => {
                    &&& r@.len() == 6
                    &&& r@[0] == Piece::<V>::Count((i + 1) as usize)
                    &&& r@[1] == Piece::<V>::Text(" / Muffler cavity length ")
                    &&& r@[2] == (Piece::Number { value, digits: 2 })
                    &&& r@[3] == Piece::<V>::Text("m (")
                    &&& x != 0 as real ==> writes(scale, r@[4], 2 as real * sound / x, 1)
                    &&& r@[5] == Piece::<V>::Text("hz sine peak)")
                },
                Control::CylinderCount => {
                    &&& r@.len() == 3
                    &&& r@[0] == Piece::<V>::Text("Cylinder count ")
                    &&& r@[1] == Piece::<V>::Count(count)
                    &&& r@[2] == Piece::<V>::Text("")
                },
                Control::IntakeOpen => {
                    &&& r@.len() == 3
                    &&& r@[0] == Piece::<V>::Text("Opened intake valve intake-cavity reflectivity ")
                    &&& r@[1] == (Piece::Number { value, digits: 2 })
                    &&& r@[2] == Piece::<V>::Text("")
                },
                Control::IntakeClosed => {
                    &&& r@.len() == 3
                    &&& r@[0] == Piece::<V>::Text("Closed intake valve intake-cavity reflectivity ")
                    &&& r@[1] == (Piece::Number { value, digits: 2 })
                    &&& r@[2] == Piece::<V>::Text("")
                },
                Control::ExhaustOpen => {
                    &&& r@.len() == 3
                    &&& r@[0] == Piece::<V>::Text(
                        "Opened exhaust valve exhaust-cavity reflectivity ",
                    )
                    &&& r@[1] == (Piece::Number { value, digits: 2 })
                    &&& r@[2] == Piece::<V>::Text("")
                },
                Control::ExhaustClosed => {
                    &&& r@.len() == 3
                    &&& r@[0] == Piece::<V>::Text(
                        "Closed exhaust valve exhaust-cavity reflectivity ",
                    )
                    &&& r@[1] == (Piece::Number { value, digits: 2 })
                    &&& r@[2] == Piece::<V>::Text("")
                },
                Control::IntakeBeta => {
                    &&& r@.len() == 3
                    &&& r@[0] == Piece::<V>::Text("Intake-cavity open end reflectivity ")
                    &&& r@[1] == (Piece::Number { value, digits: 2 })
                    &&& r@[2] == Piece::<V>::Text("")
                },
                Control::ExtractorBeta => {
                    &&& r@.len() == 3
                    &&& r@[0] == Piece::<V>::Text(
                        "Extractor-cavity straight pipe side reflectivity ",
                    )
                    &&& r@[1] == (Piece::Number { value, digits: 2 })
                    &&& r@[2] == Piece::<V>::Text("")
                },
                Control::PistonMotion => {
                    &&& r@.len() == 3
                    &&& r@[0] == Piece::<V>::Text("Piston motion volume ")
                    &&& r@[1] == (Piece::Number { value, digits: 2 })
                    &&& r@[2] == Piece::<V>::Text("")
                },
                Control::IgnitionFactor => {
                    &&& r@.len() == 3
                    &&& r@[0] == Piece::<V>::Text("Ignition volume ")
                    &&& r@[1] == (Piece::Number { value, digits: 2 })
                    &&& r@[2] == Piece::<V>::Text("")
                },
                Control::IgnitionTime => {
                    &&& r@.len() == 3
                    &&& r@[0] == Piece::<V>::Text("Ignition time ")
                    &&& r@[1] == (Piece::Number { value, digits: 2 })
                    &&& r@[2] == Piece::<V>::Text("")
                },
                Control::IntakeLength(i) => {
                    &&& r@.len() == 4
                    &&& r@[0] == Piece::<V>::Count((i + 1) as usize)
                    &&& r@[1] == Piece::<V>::Text(" / Intake-cavity length ")
                    &&& r@[2] == (Piece::Number { value, digits: 2 })
                    &&& r@[3] == Piece::<V>::Text("m")
                },
                Control::ExhaustLength(i) => {
                    &&& r@.len() == 4
                    &&& r@[0] == Piece::<V>::Count((i + 1) as usize)
                    &&& r@[1] == Piece::<V>::Text(" / Exhaust-cavity length ")
                    &&& r@[2] == (Piece::Number { value, digits: 2 })
                    &&& r@[3] == Piece::<V>::Text("m")
                },
                Control::ExtractorLength(i) => {
                    &&& r@.len() == 4
                    &&& r@[0] == Piece::<V>::Count((i + 1) as usize)
                    &&& r@[1] == Piece::<V>::Text(" / Extractor-cavity length ")
                    &&& r@[2] == (Piece::Number { value, digits: 2 })
                    &&& r@[3] == Piece::<V>::Text("m")
                },
                Control::CrankOffset(i) => {
                    &&& r@.len() == 4
                    &&& r@[0] == Piece::<V>::Count((i + 1) as usize)
                    &&& r@[1] == Piece::<V>::Text(" / Crank offset ")
                    &&& r@[2] == (Piece::Number { value, digits: 3 })
                    &&& r@[3] == Piece::<V>::Text(" cycles")
                },
            }
        }),
{
    lemma_pieces(scale, control, value, count, speed_of_sound, r@);
}

proof fn lemma_pieces<V: Number>(
    scale: Scale<V>,
    control: Control,
    value: V,
    count: usize,
    speed_of_sound: V,
    r: Seq<Piece<V>>,
)
    requires
        scale.exact(),
        negates(scale),
        scale.has(value),
        scale.has(speed_of_sound),
        label_of(control, value, count, speed_of_sound, r),
    ensures
        match control.spec_face() {
            Face::Heading { text } => r == seq![Piece::<V>::Text(text)],
            Face::Slider { lead, shown, unit, extra, .. } => {
                let k = numbering::<V>(control).len() as int;
                &&& r.len() >= k + 3
                &&& r.take(k) == numbering::<V>(control)
                &&& r[k] == Piece::<V>::Text(lead)
                &&& r[k + 2] == Piece::<V>::Text(unit)
                &&& shown_of(shown, value, count, r[k + 1])
                &&& extra_of(extra, value, speed_of_sound, r.skip(k + 3))
                &&& shown is Percent ==> writes(scale, r[k + 1], 100 as real * scale.at(value), 0)
                &&& shown is Negated ==> writes(scale, r[k + 1], 0 as real - scale.at(value), 2)
                &&& extra is Nothing ==> r.len() == k + 3
                &&& extra is PerSecond ==> {
                    &&& r.len() == k + 5
                    &&& writes(scale, r[k + 3], scale.at(value) / 60 as real, 1)
                    &&& r[k + 4] == Piece::<V>::Text(extra->PerSecond_tail)
                }
                &&& extra is SinePeak ==> {
                    &&& r.len() == k + 5
                    &&& scale.at(value) != 0 as real ==> writes(
                        scale,
                        r[k + 3],
                        2 as real * scale.at(speed_of_sound) / scale.at(value),
                        1,
                    )
                    &&& r[k + 4] == Piece::<V>::Text(extra->SinePeak_tail)
                }
            },
        },
        forall|i: int| 0 <= i < numbering::<V>(control).len() ==> r[i] == #[trigger] numbering::<
            V,
        >(control)[i],
{
    if let Face::Slider { lead, shown, unit, extra, .. } = control.spec_face() {
        let (middle, rest) = choose|middle: Piece<V>, rest: Seq<Piece<V>>|
            #![trigger
                shown_of(shown, value, count, middle),
                extra_of(extra, value, speed_of_sound, rest),
            ]
            shown_of(shown, value, count, middle) && extra_of(extra, value, speed_of_sound, rest)
                && r == numbering::<V>(control) + seq![Piece::Text(lead), middle, Piece::Text(unit)]
                + rest;
        let k = numbering::<V>(control).len() as int;
        assert(r.take(k) =~= numbering::<V>(control));
        assert(r.skip(k + 3) =~= rest);
        assert(r[k + 1] == middle);
        if shown is Percent {
            let (hundred, percent) = choose|hundred: V, percent: V|
                #![trigger from_of(100, hundred), mul_of(value, hundred, percent)]
                from_of(100, hundred) && mul_of(value, hundred, percent) && middle
                    == (Piece::Number { value: percent, digits: 0 });
            assert(scale.at(percent) == scale.at(value) * 100 as real);
        }
        if extra is PerSecond {
            let (sixty, second) = choose|sixty: V, second: V|
                #![trigger from_of(60, sixty), div_of(value, sixty, second)]
                from_of(60, sixty) && div_of(value, sixty, second) && rest == seq![
                    Piece::Number { value: second, digits: 1 },
                    Piece::Text(extra->PerSecond_tail),
                ];
            let (a, b) = (scale.at(value), scale.at(second));
            assert(scale.has(second) && b * 60 as real == a);
            assert(r[k + 3] == rest[0] && r[k + 4] == rest[1]);
        }
        if extra is SinePeak {
            let peak = choose|peak: V| #[trigger]
                sine_peak_of(value, speed_of_sound, peak) && rest == seq![
                    Piece::Number { value: peak, digits: 1 },
                    Piece::Text(extra->SinePeak_tail),
                ];
            if scale.at(value) != 0 as real {
                lemma_sine_peak(scale, value, speed_of_sound, peak);
            }
            assert(r[k + 3] == rest[0] && r[k + 4] == rest[1]);
        }
    }
}

proof fn lemma_sine_peak<V: Number>(scale: Scale<V>, length: V, speed_of_sound: V, r: V)
    requires
        scale.exact(),
        scale.has(length),
        scale.has(speed_of_sound),
        scale.at(length) != 0 as real,
        sine_peak_of(length, speed_of_sound, r),
    ensures
        (scale.place)(r) == Some(2 as real * scale.at(speed_of_sound) / scale.at(length)),
{
    let (single, two) = choose|single: V, two: V|
        #![trigger div_of(speed_of_sound, length, single), from_of(2, two)]
        div_of(speed_of_sound, length, single) && from_of(2, two) && mul_of(single, two, r);
    let (s, l, q) = (scale.at(speed_of_sound), scale.at(length), scale.at(single));
    assert(scale.has(single) && q * l == s);
    assert(q * 2 as real == 2 as real * s / l) by (nonlinear_arith)
        requires
            q * l == s,
            l != 0 as real,
    ;
}

/// How far every slider reaches. Frequencies reach up to half of the sample rate, and the number of
/// cylinders up to the largest that there may be.
pub proof fn law_ranges<V: Number>(
    scale: Scale<V>,
    control: Control,
    face: Face,
    sample_rate: V,
    max_cylinders: V,
    low: V,
    high: V,
)
    requires
        scale.exact(),
        negates(scale),
        scale.has(sample_rate),
        scale.has(max_cylinders),
        call_ensures(Control::face, (control,), face),
        face is Slider,
        call_ensures(Bound::resolve::<V>, (face->low, sample_rate, max_cylinders), low),
        call_ensures(Bound::resolve::<V>, (face->high, sample_rate, max_cylinders), high),
    ensures
        scale.has(low),
        scale.has(high),
        ({
            let (from, to) = (scale.at(low), scale.at(high));
            match control {
                Control::Rpm => from == 300 as real && to == 13000 as real,
                Control::MasterVolume => from == 0 as real && to == 3 as real,
                Control::IntakeVolume => from == 0 as real && to == 1 as real,
                Control::ExhaustVolume => from == 0 as real && to == 1 as real,
                Control::EngineVibrationsVolume => from == 0 as real && to == 1 as real,
                Control::EngineVibrationFilter => {
                    &&& from == 10 as real
                    &&& to == scale.at(sample_rate) / 2 as real
                },
                Control::IntakeNoise => from == 0 as real && to == 3 as real,
                Control::IntakeNoiseFilter => {
                    &&& from == 10 as real
                    &&& to == scale.at(sample_rate) / 2 as real
                },
                Control::IntakeValveShift => {
                    &&& from == 0 as real - 1 as real / 2 as real
                    &&& to == 1 as real / 2 as real
                },
                Control::ExhaustValveShift => {
                    &&& from == 0 as real - 1 as real / 2 as real
                    &&& to == 1 as real / 2 as real
                },
                Control::CrankshaftFluctuation => from == 0 as real && to == 5 as real / 2 as real,
                Control::CrankshaftFluctuationFilter => {
                    &&& from == 10 as real
                    &&& to == scale.at(sample_rate) / 2 as real
                },
                Control::PipeAlpha => from == 0 as real - 1 as real && to == 1 as real,
                Control::PipeBeta => from == 0 as real - 1 as real && to == 1 as real,
                Control::PipeLength => from == 1 as real / 10 as real && to == 3 as real,
                Control::MufflerBeta => {
                    &&& from == 0 as real - 1 as real
                    &&& to == 3 as real / 10 as real
                },
                Control::MufflerLength(_) => {
                    &&& from == 1 as real / 1000 as real
                    &&& to == 3 as real / 5 as real
                },
                Control::CylinderCount => from == 1 as real && to == scale.at(max_cylinders),
                Control::IntakeOpen => from == 0 as real - 1 as real && to == 1 as real,
                Control::IntakeClosed => from == 0 as real - 1 as real && to == 1 as real,
                Control::ExhaustOpen => from == 0 as real - 1 as real && to == 1 as real,
                Control::ExhaustClosed => from == 0 as real - 1 as real && to == 1 as real,
                Control::IntakeBeta => from == 0 as real - 1 as real && to == 1 as real,
                Control::ExtractorBeta => from == 0 as real - 1 as real && to == 1 as real,
                Control::PistonMotion => from == 0 as real && to == 20 as real,
                Control::IgnitionFactor => from == 0 as real && to == 20 as real,
                Control::IgnitionTime => from == 0 as real && to == 3 as real / 10 as real,
                Control::IntakeLength(_) => from == 0 as real && to == 1 as real,
                Control::ExhaustLength(_) => from == 0 as real && to == 17 as real / 10 as real,
                Control::ExtractorLength(_) => from == 0 as real && to == 10 as real,
                Control::CrankOffset(_) => from == 0 as real && to == 1 as real,
                _ => false,
            }
        }),
{
    lemma_bound(scale, face->low, sample_rate, max_cylinders, low);
    lemma_bound(scale, face->high, sample_rate, max_cylinders, high);
    lemma_fraction(face->low);
    lemma_fraction(face->high);
}

/// The fractions that stand in ranges.
proof fn lemma_fraction(bound: Bound)
    ensures
        bound matches Bound::Ratio { numerator, denominator, .. } ==> ({
            let q = numerator as real / denominator as real;
            &&& denominator == 1 ==> q == numerator as real
            &&& denominator == 2 ==> q == numerator as real / 2 as real
            &&& denominator == 5 ==> q == numerator as real / 5 as real
            &&& denominator == 10 ==> q == numerator as real / 10 as real
            &&& denominator == 1000 ==> q == numerator as real / 1000 as real
        }),
{
    if let Bound::Ratio { numerator, denominator, .. } = bound {
        let (a, b) = (numerator as real, denominator as real);
        assert(b == 1 as real ==> a / b == a) by (nonlinear_arith);
        assert(b == 2 as real ==> a / b == a / 2 as real) by (nonlinear_arith);
        assert(b == 5 as real ==> a / b == a / 5 as real) by (nonlinear_arith);
        assert(b == 10 as real ==> a / b == a / 10 as real) by (nonlinear_arith);
        assert(b == 1000 as real ==> a / b == a / 1000 as real) by (nonlinear_arith);
    }
}

proof fn lemma_bound<V: Number>(
    scale: Scale<V>,
    bound: Bound,
    sample_rate: V,
    max_cylinders: V,
    r: V,
)
    requires
        scale.exact(),
        negates(scale),
        scale.has(sample_rate),
        scale.has(max_cylinders),
        bound_of(bound, sample_rate, max_cylinders, r),
        bound matches Bound::Ratio { denominator, .. } ==> denominator > 0,
    ensures
        (scale.place)(r) == Some(
            match bound {
                Bound::Ratio { negative, numerator, denominator } => if negative {
                    0 as real - numerator as real / denominator as real
                } else {
                    numerator as real / denominator as real
                },
                Bound::HalfSampleRate => scale.at(sample_rate) / 2 as real,
                Bound::MaxCylinders => scale.at(max_cylinders),
            },
        ),
{
    match bound {
        Bound::Ratio { negative, numerator, denominator } => {
            let positive = if negative {
                choose|positive: V| #[trigger]
                    ratio_of(numerator, denominator, positive) && neg_of(positive, r)
            } else {
                r
            };
            lemma_ratio(scale, numerator, denominator, positive);
        },
        Bound::HalfSampleRate => {
            let half = choose|half: V| #[trigger]
                ratio_of(1, 2, half) && mul_of(sample_rate, half, r);
            lemma_ratio(scale, 1, 2, half);
            let (s, h) = (scale.at(sample_rate), scale.at(half));
            assert(s * h == s / 2 as real) by (nonlinear_arith)
                requires
                    h == 1 as real / 2 as real,
            ;
        },
        Bound::MaxCylinders => {},
    }
}

proof fn lemma_ratio<V: Number>(scale: Scale<V>, n: u16, d: u16, r: V)
    requires
        scale.exact(),
        d > 0,
        ratio_of(n, d, r),
    ensures
        (scale.place)(r) == Some(n as real / d as real),
{
    let (x, a, b) = (scale.at(r), n as real, d as real);
    assert(scale.has(r) && x * b == a);
    assert(x == a / b) by (nonlinear_arith)
        requires
            x * b == a,
            b > 0 as real,
    ;
}

}
