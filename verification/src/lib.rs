//! The control panel of an engine sound generator.
//!
//! Numbers are a type parameter `V` throughout: the program around this library fills in its
//! floating-point type, and every contract is stated over the operators that `V` itself has
//! (see [`number`]).

pub mod app;
pub mod buttons;
pub mod calls;
pub mod clock;
pub mod color;
pub mod columns;
pub mod controls;
pub mod cylinders;
pub mod engine;
pub mod exact;
pub mod fields;
pub mod files;
pub mod gradients;
pub mod inbox;
pub mod labels;
pub mod mixing;
pub mod number;
pub mod outcome;
pub mod panel;
pub mod repeatable;
pub mod rounded;
pub mod rounding;
pub mod run;
pub mod shading;
pub mod waterfall;
