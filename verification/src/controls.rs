//! The controls of the panel: which there are, in which order they stand, how far each reaches
//! and what its label says.

use crate::number::{
    defined_everywhere, div_of, from_of, mul_of, neg_of, ratio, ratio_of, Number,
};
use core::ops::Neg;
use vstd::prelude::*;

verus! {

/// A control of the panel, from top to bottom. The index is that of a muffler element or of a
/// cylinder.
#[derive(Clone, Copy, PartialEq, Eq, Structural, Debug)]
pub enum Control {
    /// Heading above the volumes.
    MixHeading,
    /// Speed of the engine.
    Rpm,
    /// Volume of everything.
    MasterVolume,
    /// Share of the intake in the mix.
    IntakeVolume,
    /// Share of the exhaust in the mix.
    ExhaustVolume,
    /// Share of the engine vibrations in the mix.
    EngineVibrationsVolume,
    /// Heading above the engine parameters.
    EngineHeading,
    /// Low-pass filter on the engine vibrations.
    EngineVibrationFilter,
    /// Volume of the intake noise.
    IntakeNoise,
    /// Low-pass filter on the intake noise.
    IntakeNoiseFilter,
    /// Shift of the intake valve cam.
    IntakeValveShift,
    /// Shift of the exhaust valve cam.
    ExhaustValveShift,
    /// Fluctuation of the crankshaft.
    CrankshaftFluctuation,
    /// Low-pass filter on the fluctuation of the crankshaft.
    CrankshaftFluctuationFilter,
    /// Heading above the muffler parameters.
    MufflerHeading,
    /// Reflectivity of the straight pipe at the extractors.
    PipeAlpha,
    /// Reflectivity of the straight pipe at the muffler.
    PipeBeta,
    /// Length of the straight pipe.
    PipeLength,
    /// Reflectivity of all muffler elements at the exhaust.
    MufflerBeta,
    /// Length of one muffler element.
    MufflerLength(usize),
    /// Heading above the cylinder parameters.
    CylinderHeading,
    /// Number of cylinders.
    CylinderCount,
    /// Reflectivity of an open intake valve.
    IntakeOpen,
    /// Reflectivity of a closed intake valve.
    IntakeClosed,
    /// Reflectivity of an open exhaust valve.
    ExhaustOpen,
    /// Reflectivity of a closed exhaust valve.
    ExhaustClosed,
    /// Reflectivity of the open end of the intakes.
    IntakeBeta,
    /// Reflectivity of the extractors at the straight pipe.
    ExtractorBeta,
    /// Volume of the piston motion.
    PistonMotion,
    /// Volume of the ignition.
    IgnitionFactor,
    /// Duration of the ignition.
    IgnitionTime,
    /// Length of one intake cavity.
    IntakeLength(usize),
    /// Length of one exhaust cavity.
    ExhaustLength(usize),
    /// Length of one extractor cavity.
    ExtractorLength(usize),
    /// Crank offset of one cylinder.
    CrankOffset(usize),
}

/// One end of the range of a slider.
#[derive(Clone, Copy, PartialEq, Eq, Structural, Debug)]
pub enum Bound {
    /// The number `numerator / denominator`, or its negative.
    Ratio { negative: bool, numerator: u16, denominator: u16 },
    /// Half of the sample rate.
    HalfSampleRate,
    /// The largest number of cylinders.
    MaxCylinders,
}

/// How the label of a slider shows its value.
#[derive(Clone, Copy, PartialEq, Eq, Structural, Debug)]
pub enum Shown {
    /// As it is, with this many decimals.
    Value { digits: u8 },
    /// A hundred times the value, without decimals.
    Percent,
    /// The negative of the value, with two decimals.
    Negated,
    /// A whole number.
    Count,
}

/// What the label of a slider shows besides the value.
#[derive(Clone, Copy, Debug)]
pub enum Extra {
    Nothing,
    /// A sixtieth of the value, with one decimal.
    PerSecond { tail: &'static str },
    /// The frequency of the sine that resonates best in a pipe of this length, with one decimal.
    SinePeak { tail: &'static str },
}

/// What a control looks like.
#[derive(Clone, Copy, Debug)]
pub enum Face {
    Heading { text: &'static str },
    Slider {
        /// Text before the value.
        lead: &'static str,
        shown: Shown,
        /// Text after the value.
        unit: &'static str,
        extra: Extra,
        low: Bound,
        high: Bound,
    },
}

/// A piece of a label. The pieces of a label stand one after the other with nothing between.
#[derive(Debug)]
pub enum Piece<V> {
    Text(&'static str),
    /// A whole number.
    Count(usize),
    /// A number, written with this many decimals.
    Number { value: V, digits: u8 },
}

/// How many controls a panel has for an engine with this many muffler elements and cylinders.
pub open spec fn control_count(mufflers: usize, cylinders: usize) -> int {
    30 + mufflers + 4 * cylinders
}

impl Control {
    /// How many controls stand above this one.
    pub open spec fn rank(self, mufflers: usize) -> int {
        match self {
            Control::MixHeading => 0,
            Control::Rpm => 1,
            Control::MasterVolume => 2,
            Control::IntakeVolume => 3,
            Control::ExhaustVolume => 4,
            Control::EngineVibrationsVolume => 5,
            Control::EngineHeading => 6,
            Control::EngineVibrationFilter => 7,
            Control::IntakeNoise => 8,
            Control::IntakeNoiseFilter => 9,
            Control::IntakeValveShift => 10,
            Control::ExhaustValveShift => 11,
            Control::CrankshaftFluctuation => 12,
            Control::CrankshaftFluctuationFilter => 13,
            Control::MufflerHeading => 14,
            Control::PipeAlpha => 15,
            Control::PipeBeta => 16,
            Control::PipeLength => 17,
            Control::MufflerBeta => 18,
            Control::MufflerLength(i) => 19 + i,
            Control::CylinderHeading => 19 + mufflers,
            Control::CylinderCount => 20 + mufflers,
            Control::IntakeOpen => 21 + mufflers,
            Control::IntakeClosed => 22 + mufflers,
            Control::ExhaustOpen => 23 + mufflers,
            Control::ExhaustClosed => 24 + mufflers,
            Control::IntakeBeta => 25 + mufflers,
            Control::ExtractorBeta => 26 + mufflers,
            Control::PistonMotion => 27 + mufflers,
            Control::IgnitionFactor => 28 + mufflers,
            Control::IgnitionTime => 29 + mufflers,
            Control::IntakeLength(i) => 30 + mufflers + 4 * i,
            Control::ExhaustLength(i) => 31 + mufflers + 4 * i,
            Control::ExtractorLength(i) => 32 + mufflers + 4 * i,
            Control::CrankOffset(i) => 33 + mufflers + 4 * i,
        }
    }

    /// The index of the muffler element or cylinder that the control belongs to.
    pub open spec fn index(self) -> Option<usize> {
        match self {
            Control::MufflerLength(i) => Some(i),
            Control::IntakeLength(i) => Some(i),
            Control::ExhaustLength(i) => Some(i),
            Control::ExtractorLength(i) => Some(i),
            Control::CrankOffset(i) => Some(i),
            _ => None,
        }
    }

    /// The panel has this control for an engine with this many muffler elements and cylinders.
    pub open spec fn present(self, mufflers: usize, cylinders: usize) -> bool {
        match self {
            Control::MufflerLength(i) => i < mufflers,
            Control::IntakeLength(i) => i < cylinders,
            Control::ExhaustLength(i) => i < cylinders,
            Control::ExtractorLength(i) => i < cylinders,
            Control::CrankOffset(i) => i < cylinders,
            _ => true,
        }
    }

    /// What the control looks like.
    pub open spec fn spec_face(self) -> Face {
        match self {
            Control::MixHeading => Face::Heading { text: "Mix" },
            Control::Rpm => Face::Slider {
                lead: "Engine RPM ",
                shown: Shown::Value { digits: 2 },
                unit: " (",
                extra: Extra::PerSecond { tail: " hz)" },
                low: Bound::Ratio { negative: false, numerator: 300, denominator: 1 },
                high: Bound::Ratio { negative: false, numerator: 13000, denominator: 1 },
            },
            Control::MasterVolume => Face::Slider {
                lead: "Master volume ",
                shown: Shown::Percent,
                unit: "%",
                extra: Extra::Nothing,
                low: Bound::Ratio { negative: false, numerator: 0, denominator: 1 },
                high: Bound::Ratio { negative: false, numerator: 3, denominator: 1 },
            },
            Control::IntakeVolume => Face::Slider {
                lead: "Intake volume ",
                shown: Shown::Percent,
                unit: "%",
                extra: Extra::Nothing,
                low: Bound::Ratio { negative: false, numerator: 0, denominator: 1 },
                high: Bound::Ratio { negative: false, numerator: 1, denominator: 1 },
            },
            Control::ExhaustVolume => Face::Slider {
                lead: "Exhaust volume ",
                shown: Shown::Percent,
                unit: "%",
                extra: Extra::Nothing,
                low: Bound::Ratio { negative: false, numerator: 0, denominator: 1 },
                high: Bound::Ratio { negative: false, numerator: 1, denominator: 1 },
            },
            Control::EngineVibrationsVolume => Face::Slider {
                lead: "Engine vibrations volume ",
                shown: Shown::Percent,
                unit: "%",
                extra: Extra::Nothing,
                low: Bound::Ratio { negative: false, numerator: 0, denominator: 1 },
                high: Bound::Ratio { negative: false, numerator: 1, denominator: 1 },
            },
            Control::EngineHeading => Face::Heading { text: "Engine parameters" },
            Control::EngineVibrationFilter => Face::Slider {
                lead: "Engine vibrations Lowpass-Filter Frequency ",
                shown: Shown::Value { digits: 2 },
                unit: "hz",
                extra: Extra::Nothing,
                low: Bound::Ratio { negative: false, numerator: 10, denominator: 1 },
                high: Bound::HalfSampleRate,
            },
            Control::IntakeNoise => Face::Slider {
                lead: "Intake noise volume ",
                shown: Shown::Value { digits: 2 },
                unit: "",
                extra: Extra::Nothing,
                low: Bound::Ratio { negative: false, numerator: 0, denominator: 1 },
                high: Bound::Ratio { negative: false, numerator: 3, denominator: 1 },
            },
            Control::IntakeNoiseFilter => Face::Slider {
                lead: "Intake noise Lowpass-Filter Frequency ",
                shown: Shown::Value { digits: 2 },
                unit: "hz",
                extra: Extra::Nothing,
                low: Bound::Ratio { negative: false, numerator: 10, denominator: 1 },
                high: Bound::HalfSampleRate,
            },
            Control::IntakeValveShift => Face::Slider {
                lead: "Intake valve cam shift ",
                shown: Shown::Negated,
                unit: " cycles",
                extra: Extra::Nothing,
                low: Bound::Ratio { negative: true, numerator: 1, denominator: 2 },
                high: Bound::Ratio { negative: false, numerator: 1, denominator: 2 },
            },
            Control::ExhaustValveShift => Face::Slider {
                lead: "Exhaust valve cam shift ",
                shown: Shown::Negated,
                unit: " cycles",
                extra: Extra::Nothing,
                low: Bound::Ratio { negative: true, numerator: 1, denominator: 2 },
                high: Bound::Ratio { negative: false, numerator: 1, denominator: 2 },
            },
            Control::CrankshaftFluctuation => Face::Slider {
                lead: "Crankshaft fluctuation factor ",
                shown: Shown::Value { digits: 2 },
                unit: "x",
                extra: Extra::Nothing,
                low: Bound::Ratio { negative: false, numerator: 0, denominator: 1 },
                high: Bound::Ratio { negative: false, numerator: 5, denominator: 2 },
            },
            Control::CrankshaftFluctuationFilter => Face::Slider {
                lead: "Crankshaft fluctuation noise Lowpass-Filter frequency ",
                shown: Shown::Value { digits: 2 },
                unit: "hz",
                extra: Extra::Nothing,
                low: Bound::Ratio { negative: false, numerator: 10, denominator: 1 },
                high: Bound::HalfSampleRate,
            },
            Control::MufflerHeading => Face::Heading { text: "Muffler parameters" },
            Control::PipeAlpha => Face::Slider {
                lead: "Straight Pipe extractor-side reflectivity ",
                shown: Shown::Value { digits: 2 },
                unit: "",
                extra: Extra::Nothing,
                low: Bound::Ratio { negative: true, numerator: 1, denominator: 1 },
                high: Bound::Ratio { negative: false, numerator: 1, denominator: 1 },
            },
            Control::PipeBeta => Face::Slider {
                lead: "Straight Pipe muffler-side reflectivity ",
                shown: Shown::Value { digits: 2 },
                unit: "",
                extra: Extra::Nothing,
                low: Bound::Ratio { negative: true, numerator: 1, denominator: 1 },
                high: Bound::Ratio { negative: false, numerator: 1, denominator: 1 },
            },
            Control::PipeLength => Face::Slider {
                lead: "Straight Pipe length ",
                shown: Shown::Value { digits: 2 },
                unit: "m (",
                extra: Extra::SinePeak { tail: "hz sine peak)" },
                low: Bound::Ratio { negative: false, numerator: 1, denominator: 10 },
                high: Bound::Ratio { negative: false, numerator: 3, denominator: 1 },
            },
            Control::MufflerBeta => Face::Slider {
                lead: "Muffler elements output-side (exhaust) reflectivity ",
                shown: Shown::Value { digits: 2 },
                unit: "x",
                extra: Extra::Nothing,
                low: Bound::Ratio { negative: true, numerator: 1, denominator: 1 },
                high: Bound::Ratio { negative: false, numerator: 3, denominator: 10 },
            },
            Control::MufflerLength(_) => Face::Slider {
                lead: " / Muffler cavity length ",
                shown: Shown::Value { digits: 2 },
                unit: "m (",
                extra: Extra::SinePeak { tail: "hz sine peak)" },
                low: Bound::Ratio { negative: false, numerator: 1, denominator: 1000 },
                high: Bound::Ratio { negative: false, numerator: 3, denominator: 5 },
            },
            Control::CylinderHeading => Face::Heading { text: "Cylinder parameters" },
            Control::CylinderCount => Face::Slider {
                lead: "Cylinder count ",
                shown: Shown::Count,
                unit: "",
                extra: Extra::Nothing,
                low: Bound::Ratio { negative: false, numerator: 1, denominator: 1 },
                high: Bound::MaxCylinders,
            },
            Control::IntakeOpen => Face::Slider {
                lead: "Opened intake valve intake-cavity reflectivity ",
                shown: Shown::Value { digits: 2 },
                unit: "",
                extra: Extra::Nothing,
                low: Bound::Ratio { negative: true, numerator: 1, denominator: 1 },
                high: Bound::Ratio { negative: false, numerator: 1, denominator: 1 },
            },
            Control::IntakeClosed => Face::Slider {
                lead: "Closed intake valve intake-cavity reflectivity ",
                shown: Shown::Value { digits: 2 },
                unit: "",
                extra: Extra::Nothing,
                low: Bound::Ratio { negative: true, numerator: 1, denominator: 1 },
                high: Bound::Ratio { negative: false, numerator: 1, denominator: 1 },
            },
            Control::ExhaustOpen => Face::Slider {
                lead: "Opened exhaust valve exhaust-cavity reflectivity ",
                shown: Shown::Value { digits: 2 },
                unit: "",
                extra: Extra::Nothing,
                low: Bound::Ratio { negative: true, numerator: 1, denominator: 1 },
                high: Bound::Ratio { negative: false, numerator: 1, denominator: 1 },
            },
            Control::ExhaustClosed => Face::Slider {
                lead: "Closed exhaust valve exhaust-cavity reflectivity ",
                shown: Shown::Value { digits: 2 },
                unit: "",
                extra: Extra::Nothing,
                low: Bound::Ratio { negative: true, numerator: 1, denominator: 1 },
                high: Bound::Ratio { negative: false, numerator: 1, denominator: 1 },
            },
            Control::IntakeBeta => Face::Slider {
                lead: "Intake-cavity open end reflectivity ",
                shown: Shown::Value { digits: 2 },
                unit: "",
                extra: Extra::Nothing,
                low: Bound::Ratio { negative: true, numerator: 1, denominator: 1 },
                high: Bound::Ratio { negative: false, numerator: 1, denominator: 1 },
            },
            Control::ExtractorBeta => Face::Slider {
                lead: "Extractor-cavity straight pipe side reflectivity ",
                shown: Shown::Value { digits: 2 },
                unit: "",
                extra: Extra::Nothing,
                low: Bound::Ratio { negative: true, numerator: 1, denominator: 1 },
                high: Bound::Ratio { negative: false, numerator: 1, denominator: 1 },
            },
            Control::PistonMotion => Face::Slider {
                lead: "Piston motion volume ",
                shown: Shown::Value { digits: 2 },
                unit: "",
                extra: Extra::Nothing,
                low: Bound::Ratio { negative: false, numerator: 0, denominator: 1 },
                high: Bound::Ratio { negative: false, numerator: 20, denominator: 1 },
            },
            Control::IgnitionFactor => Face::Slider {
                lead: "Ignition volume ",
                shown: Shown::Value { digits: 2 },
                unit: "",
                extra: Extra::Nothing,
                low: Bound::Ratio { negative: false, numerator: 0, denominator: 1 },
                high: Bound::Ratio { negative: false, numerator: 20, denominator: 1 },
            },
            Control::IgnitionTime => Face::Slider {
                lead: "Ignition time ",
                shown: Shown::Value { digits: 2 },
                unit: "",
                extra: Extra::Nothing,
                low: Bound::Ratio { negative: false, numerator: 0, denominator: 1 },
                high: Bound::Ratio { negative: false, numerator: 3, denominator: 10 },
            },
            Control::IntakeLength(_) => Face::Slider {
                lead: " / Intake-cavity length ",
                shown: Shown::Value { digits: 2 },
                unit: "m",
                extra: Extra::Nothing,
                low: Bound::Ratio { negative: false, numerator: 0, denominator: 1 },
                high: Bound::Ratio { negative: false, numerator: 1, denominator: 1 },
            },
            Control::ExhaustLength(_) => Face::Slider {
                lead: " / Exhaust-cavity length ",
                shown: Shown::Value { digits: 2 },
                unit: "m",
                extra: Extra::Nothing,
                low: Bound::Ratio { negative: false, numerator: 0, denominator: 1 },
                high: Bound::Ratio { negative: false, numerator: 17, denominator: 10 },
            },
            Control::ExtractorLength(_) => Face::Slider {
                lead: " / Extractor-cavity length ",
                shown: Shown::Value { digits: 2 },
                unit: "m",
                extra: Extra::Nothing,
                low: Bound::Ratio { negative: false, numerator: 0, denominator: 1 },
                high: Bound::Ratio { negative: false, numerator: 10, denominator: 1 },
            },
            Control::CrankOffset(_) => Face::Slider {
                lead: " / Crank offset ",
                shown: Shown::Value { digits: 3 },
                unit: " cycles",
                extra: Extra::Nothing,
                low: Bound::Ratio { negative: false, numerator: 0, denominator: 1 },
                high: Bound::Ratio { negative: false, numerator: 1, denominator: 1 },
            },
        }
    }

    /// The topmost control.
    pub fn first() -> (r: Control)
        ensures
            forall|mufflers: usize, cylinders: usize| #[trigger] r.present(mufflers, cylinders),
            forall|mufflers: usize| #[trigger] r.rank(mufflers) == 0,
    {
        Control::MixHeading
    }

    /// The control below this one, for an engine with this many muffler elements and cylinders.
    pub fn next(self, mufflers: usize, cylinders: usize) -> (r: Option<Control>)
        requires
            self.present(mufflers, cylinders),
        ensures
            match r {
                Some(below) => below.present(mufflers, cylinders) && below.rank(mufflers)
                    == self.rank(mufflers) + 1,
                None => self.rank(mufflers) + 1 == control_count(mufflers, cylinders),
            },
    {
        match self {
            Control::MixHeading => Some(Control::Rpm),
            Control::Rpm => Some(Control::MasterVolume),
            Control::MasterVolume => Some(Control::IntakeVolume),
            Control::IntakeVolume => Some(Control::ExhaustVolume),
            Control::ExhaustVolume => Some(Control::EngineVibrationsVolume),
            Control::EngineVibrationsVolume => Some(Control::EngineHeading),
            Control::EngineHeading => Some(Control::EngineVibrationFilter),
            Control::EngineVibrationFilter => Some(Control::IntakeNoise),
            Control::IntakeNoise => Some(Control::IntakeNoiseFilter),
            Control::IntakeNoiseFilter => Some(Control::IntakeValveShift),
            Control::IntakeValveShift => Some(Control::ExhaustValveShift),
            Control::ExhaustValveShift => Some(Control::CrankshaftFluctuation),
            Control::CrankshaftFluctuation => Some(Control::CrankshaftFluctuationFilter),
            Control::CrankshaftFluctuationFilter => Some(Control::MufflerHeading),
            Control::MufflerHeading => Some(Control::PipeAlpha),
            Control::PipeAlpha => Some(Control::PipeBeta),
            Control::PipeBeta => Some(Control::PipeLength),
            Control::PipeLength => Some(Control::MufflerBeta),
            Control::MufflerBeta => if mufflers > 0 {
                Some(Control::MufflerLength(0))
            } else {
                Some(Control::CylinderHeading)
            },
            Control::MufflerLength(i) => if i + 1 < mufflers {
                Some(Control::MufflerLength(i + 1))
            } else {
                Some(Control::CylinderHeading)
            },
            Control::CylinderHeading => Some(Control::CylinderCount),
            Control::CylinderCount => Some(Control::IntakeOpen),
            Control::IntakeOpen => Some(Control::IntakeClosed),
            Control::IntakeClosed => Some(Control::ExhaustOpen),
            Control::ExhaustOpen => Some(Control::ExhaustClosed),
            Control::ExhaustClosed => Some(Control::IntakeBeta),
            Control::IntakeBeta => Some(Control::ExtractorBeta),
            Control::ExtractorBeta => Some(Control::PistonMotion),
            Control::PistonMotion => Some(Control::IgnitionFactor),
            Control::IgnitionFactor => Some(Control::IgnitionTime),
            Control::IgnitionTime => if cylinders > 0 {
                Some(Control::IntakeLength(0))
            } else {
                None
            },
            Control::IntakeLength(i) => Some(Control::ExhaustLength(i)),
            Control::ExhaustLength(i) => Some(Control::ExtractorLength(i)),
            Control::ExtractorLength(i) => Some(Control::CrankOffset(i)),
            Control::CrankOffset(i) => if i + 1 < cylinders {
                Some(Control::IntakeLength(i + 1))
            } else {
                None
            },
        }
    }

    /// What the control looks like.
    pub fn face(self) -> (r: Face)
        ensures
            r == self.spec_face(),
    {
        match self {
            Control::MixHeading => Face::Heading { text: "Mix" },
            Control::Rpm => Face::Slider {
                lead: "Engine RPM ",
                shown: Shown::Value { digits: 2 },
                unit: " (",
                extra: Extra::PerSecond { tail: " hz)" },
                low: Bound::Ratio { negative: false, numerator: 300, denominator: 1 },
                high: Bound::Ratio { negative: false, numerator: 13000, denominator: 1 },
            },
            Control::MasterVolume => Face::Slider {
                lead: "Master volume ",
                shown: Shown::Percent,
                unit: "%",
                extra: Extra::Nothing,
                low: Bound::Ratio { negative: false, numerator: 0, denominator: 1 },
                high: Bound::Ratio { negative: false, numerator: 3, denominator: 1 },
            },
            Control::IntakeVolume => Face::Slider {
                lead: "Intake volume ",
                shown: Shown::Percent,
                unit: "%",
                extra: Extra::Nothing,
                low: Bound::Ratio { negative: false, numerator: 0, denominator: 1 },
                high: Bound::Ratio { negative: false, numerator: 1, denominator: 1 },
            },
            Control::ExhaustVolume => Face::Slider {
                lead: "Exhaust volume ",
                shown: Shown::Percent,
                unit: "%",
                extra: Extra::Nothing,
                low: Bound::Ratio { negative: false, numerator: 0, denominator: 1 },
                high: Bound::Ratio { negative: false, numerator: 1, denominator: 1 },
            },
            Control::EngineVibrationsVolume => Face::Slider {
                lead: "Engine vibrations volume ",
                shown: Shown::Percent,
                unit: "%",
                extra: Extra::Nothing,
                low: Bound::Ratio { negative: false, numerator: 0, denominator: 1 },
                high: Bound::Ratio { negative: false, numerator: 1, denominator: 1 },
            },
            Control::EngineHeading => Face::Heading { text: "Engine parameters" },
            Control::EngineVibrationFilter => Face::Slider {
                lead: "Engine vibrations Lowpass-Filter Frequency ",
                shown: Shown::Value { digits: 2 },
                unit: "hz",
                extra: Extra::Nothing,
                low: Bound::Ratio { negative: false, numerator: 10, denominator: 1 },
                high: Bound::HalfSampleRate,
            },
            Control::IntakeNoise => Face::Slider {
                lead: "Intake noise volume ",
                shown: Shown::Value { digits: 2 },
                unit: "",
                extra: Extra::Nothing,
                low: Bound::Ratio { negative: false, numerator: 0, denominator: 1 },
                high: Bound::Ratio { negative: false, numerator: 3, denominator: 1 },
            },
            Control::IntakeNoiseFilter => Face::Slider {
                lead: "Intake noise Lowpass-Filter Frequency ",
                shown: Shown::Value { digits: 2 },
                unit: "hz",
                extra: Extra::Nothing,
                low: Bound::Ratio { negative: false, numerator: 10, denominator: 1 },
                high: Bound::HalfSampleRate,
            },
            Control::IntakeValveShift => Face::Slider {
                lead: "Intake valve cam shift ",
                shown: Shown::Negated,
                unit: " cycles",
                extra: Extra::Nothing,
                low: Bound::Ratio { negative: true, numerator: 1, denominator: 2 },
                high: Bound::Ratio { negative: false, numerator: 1, denominator: 2 },
            },
            Control::ExhaustValveShift => Face::Slider {
                lead: "Exhaust valve cam shift ",
                shown: Shown::Negated,
                unit: " cycles",
                extra: Extra::Nothing,
                low: Bound::Ratio { negative: true, numerator: 1, denominator: 2 },
                high: Bound::Ratio { negative: false, numerator: 1, denominator: 2 },
            },
            Control::CrankshaftFluctuation => Face::Slider {
                lead: "Crankshaft fluctuation factor ",
                shown: Shown::Value { digits: 2 },
                unit: "x",
                extra: Extra::Nothing,
                low: Bound::Ratio { negative: false, numerator: 0, denominator: 1 },
                high: Bound::Ratio { negative: false, numerator: 5, denominator: 2 },
            },
            Control::CrankshaftFluctuationFilter => Face::Slider {
                lead: "Crankshaft fluctuation noise Lowpass-Filter frequency ",
                shown: Shown::Value { digits: 2 },
                unit: "hz",
                extra: Extra::Nothing,
                low: Bound::Ratio { negative: false, numerator: 10, denominator: 1 },
                high: Bound::HalfSampleRate,
            },
            Control::MufflerHeading => Face::Heading { text: "Muffler parameters" },
            Control::PipeAlpha => Face::Slider {
                lead: "Straight Pipe extractor-side reflectivity ",
                shown: Shown::Value { digits: 2 },
                unit: "",
                extra: Extra::Nothing,
                low: Bound::Ratio { negative: true, numerator: 1, denominator: 1 },
                high: Bound::Ratio { negative: false, numerator: 1, denominator: 1 },
            },
            Control::PipeBeta => Face::Slider {
                lead: "Straight Pipe muffler-side reflectivity ",
                shown: Shown::Value { digits: 2 },
                unit: "",
                extra: Extra::Nothing,
                low: Bound::Ratio { negative: true, numerator: 1, denominator: 1 },
                high: Bound::Ratio { negative: false, numerator: 1, denominator: 1 },
            },
            Control::PipeLength => Face::Slider {
                lead: "Straight Pipe length ",
                shown: Shown::Value { digits: 2 },
                unit: "m (",
                extra: Extra::SinePeak { tail: "hz sine peak)" },
                low: Bound::Ratio { negative: false, numerator: 1, denominator: 10 },
                high: Bound::Ratio { negative: false, numerator: 3, denominator: 1 },
            },
            Control::MufflerBeta => Face::Slider {
                lead: "Muffler elements output-side (exhaust) reflectivity ",
                shown: Shown::Value { digits: 2 },
                unit: "x",
                extra: Extra::Nothing,
                low: Bound::Ratio { negative: true, numerator: 1, denominator: 1 },
                high: Bound::Ratio { negative: false, numerator: 3, denominator: 10 },
            },
            Control::MufflerLength(_) => Face::Slider {
                lead: " / Muffler cavity length ",
                shown: Shown::Value { digits: 2 },
                unit: "m (",
                extra: Extra::SinePeak { tail: "hz sine peak)" },
                low: Bound::Ratio { negative: false, numerator: 1, denominator: 1000 },
                high: Bound::Ratio { negative: false, numerator: 3, denominator: 5 },
            },
            Control::CylinderHeading => Face::Heading { text: "Cylinder parameters" },
            Control::CylinderCount => Face::Slider {
                lead: "Cylinder count ",
                shown: Shown::Count,
                unit: "",
                extra: Extra::Nothing,
                low: Bound::Ratio { negative: false, numerator: 1, denominator: 1 },
                high: Bound::MaxCylinders,
            },
            Control::IntakeOpen => Face::Slider {
                lead: "Opened intake valve intake-cavity reflectivity ",
                shown: Shown::Value { digits: 2 },
                unit: "",
                extra: Extra::Nothing,
                low: Bound::Ratio { negative: true, numerator: 1, denominator: 1 },
                high: Bound::Ratio { negative: false, numerator: 1, denominator: 1 },
            },
            Control::IntakeClosed => Face::Slider {
                lead: "Closed intake valve intake-cavity reflectivity ",
                shown: Shown::Value { digits: 2 },
                unit: "",
                extra: Extra::Nothing,
                low: Bound::Ratio { negative: true, numerator: 1, denominator: 1 },
                high: Bound::Ratio { negative: false, numerator: 1, denominator: 1 },
            },
            Control::ExhaustOpen => Face::Slider {
                lead: "Opened exhaust valve exhaust-cavity reflectivity ",
                shown: Shown::Value { digits: 2 },
                unit: "",
                extra: Extra::Nothing,
                low: Bound::Ratio { negative: true, numerator: 1, denominator: 1 },
                high: Bound::Ratio { negative: false, numerator: 1, denominator: 1 },
            },
            Control::ExhaustClosed => Face::Slider {
                lead: "Closed exhaust valve exhaust-cavity reflectivity ",
                shown: Shown::Value { digits: 2 },
                unit: "",
                extra: Extra::Nothing,
                low: Bound::Ratio { negative: true, numerator: 1, denominator: 1 },
                high: Bound::Ratio { negative: false, numerator: 1, denominator: 1 },
            },
            Control::IntakeBeta => Face::Slider {
                lead: "Intake-cavity open end reflectivity ",
                shown: Shown::Value { digits: 2 },
                unit: "",
                extra: Extra::Nothing,
                low: Bound::Ratio { negative: true, numerator: 1, denominator: 1 },
                high: Bound::Ratio { negative: false, numerator: 1, denominator: 1 },
            },
            Control::ExtractorBeta => Face::Slider {
                lead: "Extractor-cavity straight pipe side reflectivity ",
                shown: Shown::Value { digits: 2 },
                unit: "",
                extra: Extra::Nothing,
                low: Bound::Ratio { negative: true, numerator: 1, denominator: 1 },
                high: Bound::Ratio { negative: false, numerator: 1, denominator: 1 },
            },
            Control::PistonMotion => Face::Slider {
                lead: "Piston motion volume ",
                shown: Shown::Value { digits: 2 },
                unit: "",
                extra: Extra::Nothing,
                low: Bound::Ratio { negative: false, numerator: 0, denominator: 1 },
                high: Bound::Ratio { negative: false, numerator: 20, denominator: 1 },
            },
            Control::IgnitionFactor => Face::Slider {
                lead: "Ignition volume ",
                shown: Shown::Value { digits: 2 },
                unit: "",
                extra: Extra::Nothing,
                low: Bound::Ratio { negative: false, numerator: 0, denominator: 1 },
                high: Bound::Ratio { negative: false, numerator: 20, denominator: 1 },
            },
            Control::IgnitionTime => Face::Slider {
                lead: "Ignition time ",
                shown: Shown::Value { digits: 2 },
                unit: "",
                extra: Extra::Nothing,
                low: Bound::Ratio { negative: false, numerator: 0, denominator: 1 },
                high: Bound::Ratio { negative: false, numerator: 3, denominator: 10 },
            },
            Control::IntakeLength(_) => Face::Slider {
                lead: " / Intake-cavity length ",
                shown: Shown::Value { digits: 2 },
                unit: "m",
                extra: Extra::Nothing,
                low: Bound::Ratio { negative: false, numerator: 0, denominator: 1 },
                high: Bound::Ratio { negative: false, numerator: 1, denominator: 1 },
            },
            Control::ExhaustLength(_) => Face::Slider {
                lead: " / Exhaust-cavity length ",
                shown: Shown::Value { digits: 2 },
                unit: "m",
                extra: Extra::Nothing,
                low: Bound::Ratio { negative: false, numerator: 0, denominator: 1 },
                high: Bound::Ratio { negative: false, numerator: 17, denominator: 10 },
            },
            Control::ExtractorLength(_) => Face::Slider {
                lead: " / Extractor-cavity length ",
                shown: Shown::Value { digits: 2 },
                unit: "m",
                extra: Extra::Nothing,
                low: Bound::Ratio { negative: false, numerator: 0, denominator: 1 },
                high: Bound::Ratio { negative: false, numerator: 10, denominator: 1 },
            },
            Control::CrankOffset(_) => Face::Slider {
                lead: " / Crank offset ",
                shown: Shown::Value { digits: 3 },
                unit: " cycles",
                extra: Extra::Nothing,
                low: Bound::Ratio { negative: false, numerator: 0, denominator: 1 },
                high: Bound::Ratio { negative: false, numerator: 1, denominator: 1 },
            },
        }
    }
}

/// `r` is the number at this end of a range.
pub open spec fn bound_of<V: Number>(bound: Bound, sample_rate: V, max_cylinders: V, r: V) -> bool {
    match bound {
        Bound::Ratio { negative, numerator, denominator } => if negative {
            exists|positive: V| #[trigger]
                ratio_of(numerator, denominator, positive) && neg_of(positive, r)
        } else {
            ratio_of(numerator, denominator, r)
        },
        Bound::HalfSampleRate => exists|half: V| #[trigger]
            ratio_of(1, 2, half) && mul_of(sample_rate, half, r),
        Bound::MaxCylinders => r == max_cylinders,
    }
}

/// `r` shows `value`, or `count` where the label shows a whole number.
pub open spec fn shown_of<V: Number>(shown: Shown, value: V, count: usize, r: Piece<V>) -> bool {
    match shown {
        Shown::Value { digits } => r == (Piece::Number { value, digits }),
        Shown::Percent => exists|hundred: V, percent: V|
            #![trigger from_of(100, hundred), mul_of(value, hundred, percent)]
            from_of(100, hundred) && mul_of(value, hundred, percent) && r == (Piece::Number {
                value: percent,
                digits: 0,
            }),
        Shown::Negated => exists|negated: V| #[trigger]
            neg_of(value, negated) && r == (Piece::Number { value: negated, digits: 2 }),
        Shown::Count => r == Piece::<V>::Count(count),
    }
}

/// `r` is what follows the value and its unit.
pub open spec fn extra_of<V: Number>(
    extra: Extra,
    value: V,
    speed_of_sound: V,
    r: Seq<Piece<V>>,
) -> bool {
    match extra {
        Extra::Nothing => r == Seq::<Piece<V>>::empty(),
        Extra::PerSecond { tail } => exists|sixty: V, second: V|
            #![trigger from_of(60, sixty), div_of(value, sixty, second)]
            from_of(60, sixty) && div_of(value, sixty, second) && r == seq![
                Piece::Number { value: second, digits: 1 },
                Piece::Text(tail),
            ],
        Extra::SinePeak { tail } => exists|peak: V| #[trigger]
            sine_peak_of(value, speed_of_sound, peak) && r == seq![
                Piece::Number { value: peak, digits: 1 },
                Piece::Text(tail),
            ],
    }
}

/// `r` is the frequency that resonates best in a pipe of this length: twice the speed of sound
/// over the length.
pub open spec fn sine_peak_of<V: Number>(length: V, speed_of_sound: V, r: V) -> bool {
    exists|single: V, two: V|
        #![trigger div_of(speed_of_sound, length, single), from_of(2, two)]
        div_of(speed_of_sound, length, single) && from_of(2, two) && mul_of(single, two, r)
}

/// The number of the muffler element or cylinder that the label starts with, counted from one.
pub open spec fn numbering<V>(control: Control) -> Seq<Piece<V>> {
    match control.index() {
        Some(i) => seq![Piece::Count((i + 1) as usize)],
        None => Seq::empty(),
    }
}

/// `r` is the label of a slider that stands at `value`, or at `count` where it counts.
pub open spec fn label_of<V: Number>(
    control: Control,
    value: V,
    count: usize,
    speed_of_sound: V,
    r: Seq<Piece<V>>,
) -> bool {
    match control.spec_face() {
        Face::Heading { text } => r == seq![Piece::<V>::Text(text)],
        Face::Slider { lead, shown, unit, extra, .. } => exists|
            middle: Piece<V>,
            rest: Seq<Piece<V>>,
        |
            #![trigger
                shown_of(shown, value, count, middle),
                extra_of(extra, value, speed_of_sound, rest),
            ]
            shown_of(shown, value, count, middle) && extra_of(extra, value, speed_of_sound, rest)
                && r == numbering::<V>(control) + seq![Piece::Text(lead), middle, Piece::Text(unit)]
                + rest,
    }
}

impl Bound {
    /// The number at this end of a range.
    pub fn resolve<V: Number>(self, sample_rate: V, max_cylinders: V) -> (r: V)
        requires
            defined_everywhere::<V>(),
        ensures
            bound_of(self, sample_rate, max_cylinders, r),
    {
        match self {
            Bound::Ratio { negative, numerator, denominator } => {
                let positive: V = ratio(numerator, denominator);
                if negative {
                    let r = positive.neg();
                    assert(ratio_of(numerator, denominator, positive) && neg_of(positive, r));
                    r
                } else {
                    positive
                }
            },
            Bound::HalfSampleRate => {
                let half: V = ratio(1, 2);
                let r = sample_rate * half;
                assert(ratio_of(1, 2, half) && mul_of(sample_rate, half, r));
                r
            },
            Bound::MaxCylinders => max_cylinders,
        }
    }
}

fn sine_peak<V: Number>(length: V, speed_of_sound: V) -> (r: V)
    requires
        defined_everywhere::<V>(),
    ensures
        sine_peak_of(length, speed_of_sound, r),
{
    let single = speed_of_sound / length;
    let two = V::from(2u16);
    let r = single * two;
    assert(div_of(speed_of_sound, length, single) && from_of(2, two));
    r
}

impl Shown {
    fn piece<V: Number>(self, value: V, count: usize) -> (r: Piece<V>)
        requires
            defined_everywhere::<V>(),
        ensures
            shown_of(self, value, count, r),
    {
        match self {
            Shown::Value { digits } => Piece::Number { value, digits },
            Shown::Percent => {
                let hundred = V::from(100u16);
                let percent = value * hundred;
                assert(from_of(100, hundred) && mul_of(value, hundred, percent));
                Piece::Number { value: percent, digits: 0 }
            },
            Shown::Negated => {
                let negated = value.neg();
                assert(neg_of(value, negated));
                Piece::Number { value: negated, digits: 2 }
            },
            Shown::Count => Piece::Count(count),
        }
    }
}

impl Extra {
    fn pieces<V: Number>(self, value: V, speed_of_sound: V) -> (r: Vec<Piece<V>>)
        requires
            defined_everywhere::<V>(),
        ensures
            extra_of(self, value, speed_of_sound, r@),
    {
        match self {
            Extra::Nothing => Vec::new(),
            Extra::PerSecond { tail } => {
                let sixty = V::from(60u16);
                let second = value / sixty;
                assert(from_of(60, sixty) && div_of(value, sixty, second));
                let r = vec![Piece::Number { value: second, digits: 1 }, Piece::Text(tail)];
                assert(r@ =~= seq![Piece::Number { value: second, digits: 1 }, Piece::Text(tail)]);
                r
            },
            Extra::SinePeak { tail } => {
                let peak = sine_peak(value, speed_of_sound);
                assert(sine_peak_of(value, speed_of_sound, peak));
                let r = vec![Piece::Number { value: peak, digits: 1 }, Piece::Text(tail)];
                assert(r@ =~= seq![Piece::Number { value: peak, digits: 1 }, Piece::Text(tail)]);
                r
            },
        }
    }
}

impl Control {
    fn position(self) -> (r: Option<usize>)
        ensures
            r == self.index(),
    {
        match self {
            Control::MufflerLength(i) => Some(i),
            Control::IntakeLength(i) => Some(i),
            Control::ExhaustLength(i) => Some(i),
            Control::ExtractorLength(i) => Some(i),
            Control::CrankOffset(i) => Some(i),
            _ => None,
        }
    }

    /// The label of this control while it stands at `value`, or at `count` where it counts.
    pub fn label<V: Number>(self, value: V, count: usize, speed_of_sound: V) -> (r: Vec<Piece<V>>)
        requires
            defined_everywhere::<V>(),
            self.index() matches Some(i) ==> i < usize::MAX,
        ensures
            label_of(self, value, count, speed_of_sound, r@),
    {
        match self.face() {
            Face::Heading { text } => {
                let r = vec![Piece::Text(text)];
                assert(r@ =~= seq![Piece::<V>::Text(text)]);
                r
            },
            Face::Slider { lead, shown, unit, extra, .. } => {
                let mut r: Vec<Piece<V>> = Vec::new();
                if let Some(i) = self.position() {
                    r.push(Piece::Count(i + 1));
                }
                let middle = shown.piece(value, count);
                r.push(Piece::Text(lead));
                r.push(middle);
                r.push(Piece::Text(unit));
                assert(r@ =~= numbering::<V>(self) + seq![
                    Piece::Text(lead),
                    middle,
                    Piece::Text(unit),
                ]);
                let mut rest = extra.pieces(value, speed_of_sound);
                assert(shown_of(shown, value, count, middle));
                assert(extra_of(extra, value, speed_of_sound, rest@));
                r.append(&mut rest);
                r
            },
        }
    }
}

/// The controls stand in one column without gaps or overlaps: each has a place of its own between
/// the first and the last.
pub proof fn law_controls_have_places_of_their_own(
    mufflers: usize,
    cylinders: usize,
    a: Control,
    b: Control,
)
    requires
        a.present(mufflers, cylinders),
        b.present(mufflers, cylinders),
    ensures
        0 <= a.rank(mufflers) < control_count(mufflers, cylinders),
        a.rank(mufflers) == b.rank(mufflers) ==> a == b,
{
}

/// At every place of the column there is a control. With the law above, going from the first
/// control to the next below until there is none passes every control of the panel exactly once.
pub proof fn law_every_place_has_a_control(mufflers: usize, cylinders: usize, place: int)
    requires
        0 <= place < control_count(mufflers, cylinders),
    ensures
        exists|control: Control| #[trigger]
            control.present(mufflers, cylinders) && control.rank(mufflers) == place,
{
    let control = if place == 0 {
        Control::MixHeading
    } else if place == 1 {
        Control::Rpm
    } else if place == 2 {
        Control::MasterVolume
    } else if place == 3 {
        Control::IntakeVolume
    } else if place == 4 {
        Control::ExhaustVolume
    } else if place == 5 {
        Control::EngineVibrationsVolume
    } else if place == 6 {
        Control::EngineHeading
    } else if place == 7 {
        Control::EngineVibrationFilter
    } else if place == 8 {
        Control::IntakeNoise
    } else if place == 9 {
        Control::IntakeNoiseFilter
    } else if place == 10 {
        Control::IntakeValveShift
    } else if place == 11 {
        Control::ExhaustValveShift
    } else if place == 12 {
        Control::CrankshaftFluctuation
    } else if place == 13 {
        Control::CrankshaftFluctuationFilter
    } else if place == 14 {
        Control::MufflerHeading
    } else if place == 15 {
        Control::PipeAlpha
    } else if place == 16 {
        Control::PipeBeta
    } else if place == 17 {
        Control::PipeLength
    } else if place == 18 {
        Control::MufflerBeta
    } else if place < 19 + mufflers {
        Control::MufflerLength((place - 19) as usize)
    } else if place == 19 + mufflers {
        Control::CylinderHeading
    } else if place == 20 + mufflers {
        Control::CylinderCount
    } else if place == 21 + mufflers {
        Control::IntakeOpen
    } else if place == 22 + mufflers {
        Control::IntakeClosed
    } else if place == 23 + mufflers {
        Control::ExhaustOpen
    } else if place == 24 + mufflers {
        Control::ExhaustClosed
    } else if place == 25 + mufflers {
        Control::IntakeBeta
    } else if place == 26 + mufflers {
        Control::ExtractorBeta
    } else if place == 27 + mufflers {
        Control::PistonMotion
    } else if place == 28 + mufflers {
        Control::IgnitionFactor
    } else if place == 29 + mufflers {
        Control::IgnitionTime
    } else {
        let past = place - (30 + mufflers);
        let i = (past / 4) as usize;
        if past % 4 == 0 {
            Control::IntakeLength(i)
        } else if past % 4 == 1 {
            Control::ExhaustLength(i)
        } else if past % 4 == 2 {
            Control::ExtractorLength(i)
        } else {
            Control::CrankOffset(i)
        }
    };
    assert(control.present(mufflers, cylinders) && control.rank(mufflers) == place);
}

/// The controls stand in this order: the first is the heading of the mix, and below each stands the
/// one that is named here. The muffler elements and the cylinders come one by one.
pub proof fn law_the_controls_stand_in_order(
    top: Control,
    control: Control,
    mufflers: usize,
    cylinders: usize,
    below: Option<Control>,
)
    requires
        call_ensures(Control::first, (), top),
        control.present(mufflers, cylinders),
        call_ensures(Control::next, (control, mufflers, cylinders), below),
    ensures
        top == Control::MixHeading,
        below == match control {
            Control::MixHeading => Some(Control::Rpm),
            Control::Rpm => Some(Control::MasterVolume),
            Control::MasterVolume => Some(Control::IntakeVolume),
            Control::IntakeVolume => Some(Control::ExhaustVolume),
            Control::ExhaustVolume => Some(Control::EngineVibrationsVolume),
            Control::EngineVibrationsVolume => Some(Control::EngineHeading),
            Control::EngineHeading => Some(Control::EngineVibrationFilter),
            Control::EngineVibrationFilter => Some(Control::IntakeNoise),
            Control::IntakeNoise => Some(Control::IntakeNoiseFilter),
            Control::IntakeNoiseFilter => Some(Control::IntakeValveShift),
            Control::IntakeValveShift => Some(Control::ExhaustValveShift),
            Control::ExhaustValveShift => Some(Control::CrankshaftFluctuation),
            Control::CrankshaftFluctuation => Some(Control::CrankshaftFluctuationFilter),
            Control::CrankshaftFluctuationFilter => Some(Control::MufflerHeading),
            Control::MufflerHeading => Some(Control::PipeAlpha),
            Control::PipeAlpha => Some(Control::PipeBeta),
            Control::PipeBeta => Some(Control::PipeLength),
            Control::PipeLength => Some(Control::MufflerBeta),
            Control::MufflerBeta => if mufflers > 0 {
                Some(Control::MufflerLength(0))
            } else {
                Some(Control::CylinderHeading)
            },
            Control::MufflerLength(i) => if i + 1 < mufflers {
                Some(Control::MufflerLength((i + 1) as usize))
            } else {
                Some(Control::CylinderHeading)
            },
            Control::CylinderHeading => Some(Control::CylinderCount),
            Control::CylinderCount => Some(Control::IntakeOpen),
            Control::IntakeOpen => Some(Control::IntakeClosed),
            Control::IntakeClosed => Some(Control::ExhaustOpen),
            Control::ExhaustOpen => Some(Control::ExhaustClosed),
            Control::ExhaustClosed => Some(Control::IntakeBeta),
            Control::IntakeBeta => Some(Control::ExtractorBeta),
            Control::ExtractorBeta => Some(Control::PistonMotion),
            Control::PistonMotion => Some(Control::IgnitionFactor),
            Control::IgnitionFactor => Some(Control::IgnitionTime),
            Control::IgnitionTime => if cylinders > 0 {
                Some(Control::IntakeLength(0))
            } else {
                None
            },
            Control::IntakeLength(i) => Some(Control::ExhaustLength(i)),
            Control::ExhaustLength(i) => Some(Control::ExtractorLength(i)),
            Control::ExtractorLength(i) => Some(Control::CrankOffset(i)),
            Control::CrankOffset(i) => if i + 1 < cylinders {
                Some(Control::IntakeLength((i + 1) as usize))
            } else {
                None
            },
        },
{
    assert(top.rank(mufflers) == 0);
}

}
